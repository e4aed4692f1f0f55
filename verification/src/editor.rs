//! The interactive envelope editor: which register the cursor is on, how a
//! key press moves the cursor or changes a register, and the argument list
//! that renders the edited envelope.

use vstd::prelude::*;
use vstd::string::StringExecFns;
use vstd::string::StrSliceExecFns;

use crate::decimal::{
    decimal, is_digit, lemma_decimal_digits, lemma_parse_decimal_round_trip, parse_u32_spec,
    u32_to_decimal,
};
use crate::envelope::{
    field, field_max, parse_args_spec, with_field, EnvParams, AR_MAX, D1L_MAX, D1R_MAX, D2R_MAX,
    RR_MAX,
};

verus! {

broadcast use vstd::string::group_string_axioms;

/// Number of editable envelope registers.
pub const PARAMETER_COUNT: usize = 5;

/// How far Page Up / Page Down move a register value.
pub const PAGE_STEP: i32 = 4;

/// The largest value of the register at position `index`.
pub fn param_max(index: usize) -> (m: u32)
    requires
        index < PARAMETER_COUNT,
    ensures
        m == field_max(index as int),
{
    match index {
        0 => AR_MAX,
        1 => D1R_MAX,
        2 => D1L_MAX,
        3 => D2R_MAX,
        _ => RR_MAX,
    }
}

/// The short name of the register at position `i`.
pub open spec fn field_label(i: int) -> Seq<char> {
    if i == 0 {
        "AR"@
    } else if i == 1 {
        "D1R"@
    } else if i == 2 {
        "D1L"@
    } else if i == 3 {
        "D2R"@
    } else {
        "RR"@
    }
}

/// The short name of the register at position `index`.
pub fn param_label(index: usize) -> (label: &'static str)
    requires
        index < PARAMETER_COUNT,
    ensures
        label@ == field_label(index as int),
{
    match index {
        0 => "AR",
        1 => "D1R",
        2 => "D1L",
        3 => "D2R",
        _ => "RR",
    }
}

/// A mutable handle on the selected register together with its largest value.
pub fn selected_value_mut(params: &mut EnvParams, selected: usize) -> (r: (&mut u32, u32))
    requires
        selected < PARAMETER_COUNT,
    ensures
        *r.0 == field(*old(params), selected as int),
        r.1 == field_max(selected as int),
        *final(params) == with_field(*old(params), selected as int, *final(r.0)),
{
    match selected {
        0 => (&mut params.ar, AR_MAX),
        1 => (&mut params.d1r, D1R_MAX),
        2 => (&mut params.d1l, D1L_MAX),
        3 => (&mut params.d2r, D2R_MAX),
        _ => (&mut params.rr, RR_MAX),
    }
}

/// The `i32` that a `u32` reads as when its bits are taken as two's complement.
pub open spec fn as_i32(v: u32) -> int {
    if v <= i32::MAX {
        v as int
    } else {
        v as int - 0x1_0000_0000
    }
}

/// Adding `delta` to the register value `v`, taken as an `i32`, stays in `i32`.
pub open spec fn adjust_fits(v: u32, delta: i32) -> bool {
    i32::MIN <= as_i32(v) + delta <= i32::MAX
}

/// `v` moved by `delta` and clamped to `0..=max`.
pub open spec fn adjusted(v: u32, delta: i32, max: u32) -> u32 {
    let t = as_i32(v) + delta;
    if t < 0 {
        0
    } else if t > max {
        max
    } else {
        t as u32
    }
}

/// The bits of `v` read as an `i32`.
fn u32_as_i32(v: u32) -> (r: i32)
    ensures
        r == as_i32(v),
{
    if v <= 0x7fff_ffff {
        v as i32
    } else {
        let high: i32 = (v - 0x8000_0000) as i32;
        high - 0x7fff_ffff - 1
    }
}

/// Moves the selected register by `delta`, clamped to its range; returns
/// whether its value changed.
pub fn adjust_selected_value(params: &mut EnvParams, selected: usize, delta: i32) -> (changed: bool)
    requires
        selected < PARAMETER_COUNT,
        adjust_fits(field(*old(params), selected as int), delta),
    ensures
        *final(params) == with_field(
            *old(params),
            selected as int,
            adjusted(field(*old(params), selected as int), delta, field_max(selected as int)),
        ),
        changed == (adjusted(field(*old(params), selected as int), delta, field_max(selected as int))
            != field(*old(params), selected as int)),
{
    let (value, max) = selected_value_mut(params, selected);
    let moved: i32 = u32_as_i32(*value) + delta;
    let upper: i32 = max as i32;
    let next_value: u32 = if moved < 0 {
        0
    } else if moved > upper {
        max
    } else {
        moved as u32
    };
    let changed = *value != next_value;
    *value = next_value;
    changed
}

/// The keys the editor reacts to; every other key is `Other`.
#[derive(Debug, Clone, Copy, PartialEq, Eq, Structural)]
pub enum KeyCode {
    Char(char),
    Up,
    Down,
    Left,
    Right,
    PageUp,
    PageDown,
    Other,
}

/// What the editor's main loop does after a key press.
#[derive(Debug, Clone, Copy, PartialEq, Eq, Structural)]
pub enum AppCommand {
    /// Keep showing the current image.
    Continue,
    /// A register changed: render the envelope again.
    RefreshImage,
    /// Leave the editor.
    Quit,
}

/// How far a key moves the selected register, if it is one of the value keys.
pub open spec fn key_delta(key: KeyCode) -> Option<i32> {
    match key {
        KeyCode::Left => Some(-1i32),
        KeyCode::Right => Some(1i32),
        KeyCode::PageUp => Some(PAGE_STEP),
        KeyCode::PageDown => Some((-PAGE_STEP) as i32),
        _ => None,
    }
}

/// The inputs on which a key press is defined: moving down needs room to
/// count, and changing a value needs a selected register and an `i32` sum
/// that does not overflow.
pub open spec fn key_allowed(key: KeyCode, selected: usize, params: EnvParams) -> bool {
    &&& key == KeyCode::Down ==> selected < usize::MAX
    &&& key_delta(key) matches Some(d) ==> selected < PARAMETER_COUNT && adjust_fits(
        field(params, selected as int),
        d,
    )
}

/// The cursor, the registers and the command after pressing `key`.
pub open spec fn handle_key_spec(key: KeyCode, selected: usize, params: EnvParams) -> (
    usize,
    EnvParams,
    AppCommand,
) {
    match key_delta(key) {
        Some(d) => {
            let old_value = field(params, selected as int);
            let new_value = adjusted(old_value, d, field_max(selected as int));
            let command = if new_value != old_value {
                AppCommand::RefreshImage
            } else {
                AppCommand::Continue
            };
            (selected, with_field(params, selected as int, new_value), command)
        },
        None => {
            if key == KeyCode::Char('q') {
                (selected, params, AppCommand::Quit)
            } else if key == KeyCode::Up {
                (if selected == 0 {
                    0
                } else {
                    (selected - 1) as usize
                }, params, AppCommand::Continue)
            } else if key == KeyCode::Down {
                (if selected + 1 < PARAMETER_COUNT - 1 {
                    (selected + 1) as usize
                } else {
                    (PARAMETER_COUNT - 1) as usize
                }, params, AppCommand::Continue)
            } else {
                (selected, params, AppCommand::Continue)
            }
        },
    }
}

fn adjust_command(params: &mut EnvParams, selected: usize, delta: i32) -> (c: AppCommand)
    requires
        selected < PARAMETER_COUNT,
        adjust_fits(field(*old(params), selected as int), delta),
    ensures
        ({
            let old_value = field(*old(params), selected as int);
            let new_value = adjusted(old_value, delta, field_max(selected as int));
            &&& *final(params) == with_field(*old(params), selected as int, new_value)
            &&& c == if new_value != old_value {
                AppCommand::RefreshImage
            } else {
                AppCommand::Continue
            }
        }),
{
    if adjust_selected_value(params, selected, delta) {
        AppCommand::RefreshImage
    } else {
        AppCommand::Continue
    }
}

/// Applies one key press to the editor state.
pub fn handle_key(key: KeyCode, selected: &mut usize, params: &mut EnvParams) -> (c: AppCommand)
    requires
        key_allowed(key, *old(selected), *old(params)),
    ensures
        (*final(selected), *final(params), c) == handle_key_spec(key, *old(selected), *old(params)),
{
    match key {
        KeyCode::Char('q') => AppCommand::Quit,
        KeyCode::Up => {
            *selected = selected.saturating_sub(1);
            AppCommand::Continue
        },
        KeyCode::Down => {
            let next: usize = *selected + 1;
            *selected = if next < PARAMETER_COUNT - 1 {
                next
            } else {
                PARAMETER_COUNT - 1
            };
            AppCommand::Continue
        },
        KeyCode::Left => adjust_command(params, *selected, -1),
        KeyCode::Right => adjust_command(params, *selected, 1),
        KeyCode::PageUp => adjust_command(params, *selected, PAGE_STEP),
        KeyCode::PageDown => adjust_command(params, *selected, -PAGE_STEP),
        _ => AppCommand::Continue,
    }
}

/// The program name that heads a render argument list.
pub open spec fn render_program_name() -> Seq<char> {
    "ym2151-envelope-ratatui"@
}

/// The argument list that asks for the envelope `p`: the program name, then
/// AR, D1R, D1L, D2R and RR in decimal.
pub open spec fn render_args_spec(p: EnvParams) -> Seq<Seq<char>> {
    seq![
        render_program_name(),
        decimal(p.ar as nat),
        decimal(p.d1r as nat),
        decimal(p.d1l as nat),
        decimal(p.d2r as nat),
        decimal(p.rr as nat),
    ]
}

/// The command-line style argument list that renders `params`.
pub fn build_render_args(params: &EnvParams) -> (args: Vec<String>)
    ensures
        args.deep_view() == render_args_spec(*params),
{
    let args = vec![
        "ym2151-envelope-ratatui".to_string(),
        u32_to_decimal(params.ar),
        u32_to_decimal(params.d1r),
        u32_to_decimal(params.d1l),
        u32_to_decimal(params.d2r),
        u32_to_decimal(params.rr),
    ];
    assert(args.deep_view() =~= render_args_spec(*params));
    args
}

/// Law: parsing the argument list built for valid parameters gives exactly
/// those parameters back.
pub proof fn lemma_render_args_round_trip(p: EnvParams)
    requires
        p.is_valid(),
    ensures
        parse_args_spec(render_args_spec(p)) == p,
{
    lemma_parse_decimal_round_trip(p.ar);
    lemma_parse_decimal_round_trip(p.d1r);
    lemma_parse_decimal_round_trip(p.d1l);
    lemma_parse_decimal_round_trip(p.d2r);
    lemma_parse_decimal_round_trip(p.rr);
}

/// Law: from a valid editor state (valid registers, cursor on a register)
/// every key press is defined, and it leads to a valid editor state again.
pub proof fn lemma_handle_key_keeps_state_valid(key: KeyCode, selected: usize, params: EnvParams)
    requires
        params.is_valid(),
        selected < PARAMETER_COUNT,
    ensures
        key_allowed(key, selected, params),
        handle_key_spec(key, selected, params).0 < PARAMETER_COUNT,
        handle_key_spec(key, selected, params).1.is_valid(),
{
}

/// Law: moving a register by `delta` and then by `-delta` restores it when
/// the first move did not hit either end of the register's range.
pub proof fn lemma_adjust_undo(v: u32, delta: i32, max: u32)
    requires
        v <= max <= i32::MAX,
        0 <= v + delta <= max,
    ensures
        adjust_fits(v, delta),
        adjust_fits(adjusted(v, delta, max), (-delta) as i32),
        adjusted(adjusted(v, delta, max), (-delta) as i32, max) == v,
{
}

/// Law: Up moves the cursor one register up and Down one register down,
/// stopping at the first and the last register, and neither touches the
/// registers; Down then Up (from any register but the last) and Up then Down
/// (from any register but the first) come back to the same register.
pub proof fn lemma_cursor_keys(selected: usize, params: EnvParams)
    requires
        selected < PARAMETER_COUNT,
    ensures
        selected > 0 ==> handle_key_spec(KeyCode::Up, selected, params).0 == selected - 1,
        selected == 0 ==> handle_key_spec(KeyCode::Up, selected, params).0 == 0,
        selected + 1 < PARAMETER_COUNT ==> handle_key_spec(KeyCode::Down, selected, params).0
            == selected + 1,
        selected + 1 == PARAMETER_COUNT ==> handle_key_spec(KeyCode::Down, selected, params).0
            == selected,
        handle_key_spec(KeyCode::Up, selected, params).1 == params,
        handle_key_spec(KeyCode::Down, selected, params).1 == params,
        handle_key_spec(KeyCode::Up, selected, params).2 == AppCommand::Continue,
        handle_key_spec(KeyCode::Down, selected, params).2 == AppCommand::Continue,
        selected + 1 < PARAMETER_COUNT ==> handle_key_spec(
            KeyCode::Up,
            handle_key_spec(KeyCode::Down, selected, params).0,
            params,
        ).0 == selected,
        selected > 0 ==> handle_key_spec(
            KeyCode::Down,
            handle_key_spec(KeyCode::Up, selected, params).0,
            params,
        ).0 == selected,
{
}

/// Law: on valid registers, Right and Left move the selected register by one,
/// Page Up and Page Down by four, each stopping at zero and at the
/// register's largest value; the cursor and every other register stay as
/// they were, and the image is refreshed exactly when the value changed.
pub proof fn lemma_value_keys(key: KeyCode, selected: usize, params: EnvParams)
    requires
        params.is_valid(),
        selected < PARAMETER_COUNT,
    ensures
        ({
            let (s2, p2, c) = handle_key_spec(key, selected, params);
            let v = field(params, selected as int);
            let m = field_max(selected as int);
            let w = field(p2, selected as int);
            &&& key == KeyCode::Right ==> w == if v + 1 <= m {
                v + 1
            } else {
                m as int
            }
            &&& key == KeyCode::Left ==> w == if v >= 1 {
                v - 1
            } else {
                0
            }
            &&& key == KeyCode::PageUp ==> w == if v + 4 <= m {
                v + 4
            } else {
                m as int
            }
            &&& key == KeyCode::PageDown ==> w == if v >= 4 {
                v - 4
            } else {
                0
            }
            &&& key_delta(key) is Some ==> {
                &&& s2 == selected
                &&& forall|j: int|
                    0 <= j < 5 && j != selected ==> #[trigger] field(p2, j) == field(params, j)
                &&& (c == AppCommand::RefreshImage) == (w != v)
                &&& (c == AppCommand::Continue) == (w == v)
            }
        }),
{
}

/// Law: `q` quits and every key other than the arrows and the page keys
/// leaves the cursor and the registers alone.
pub proof fn lemma_other_keys(key: KeyCode, selected: usize, params: EnvParams)
    requires
        key_delta(key) is None,
        key != KeyCode::Up,
        key != KeyCode::Down,
    ensures
        handle_key_spec(key, selected, params).0 == selected,
        handle_key_spec(key, selected, params).1 == params,
        handle_key_spec(key, selected, params).2 == if key == KeyCode::Char('q') {
            AppCommand::Quit
        } else {
            AppCommand::Continue
        },
{
}

/// Law: a step taken on a register value that reads as a non-negative `i32`
/// lands on the sum when it lies in `0..=max`, on zero below and on `max`
/// above, so the result is always within the register's range.
pub proof fn lemma_adjusted_clamps(v: u32, delta: i32, max: u32)
    requires
        v <= i32::MAX,
        max <= i32::MAX,
    ensures
        adjusted(v, delta, max) <= max,
        0 <= v + delta <= max ==> adjusted(v, delta, max) == v + delta,
        v + delta < 0 ==> adjusted(v, delta, max) == 0,
        v + delta > max ==> adjusted(v, delta, max) == max,
{
}

/// `n` spaces.
pub open spec fn spaces(n: nat) -> Seq<char> {
    Seq::new(n, |_i: int| ' ')
}

/// `s` followed by spaces up to `width` characters.
pub open spec fn pad_right(s: Seq<char>, width: nat) -> Seq<char> {
    if s.len() >= width {
        s
    } else {
        s + spaces((width - s.len()) as nat)
    }
}

/// `s` preceded by spaces up to `width` characters.
pub open spec fn pad_left(s: Seq<char>, width: nat) -> Seq<char> {
    if s.len() >= width {
        s
    } else {
        spaces((width - s.len()) as nat) + s
    }
}

/// The text of the editor line for register `index`: a `>` marker on the
/// selected line, the name left-aligned in three columns, the value and the
/// largest value right-aligned in two columns, as in `> D1R 12 / 31`.
pub open spec fn parameter_line_spec(p: EnvParams, index: int, selected: int) -> Seq<char> {
    (if index == selected {
        ">"@
    } else {
        " "@
    }) + " "@ + pad_right(field_label(index), 3) + " "@ + pad_left(decimal(field(p, index) as nat), 2)
        + " / "@ + pad_left(decimal(field_max(index) as nat), 2)
}

/// Law: a register line starts with `>` exactly when it is the selected
/// register's line, and with a space otherwise; apart from that first
/// character, the line does not depend on where the cursor is.
pub proof fn lemma_parameter_line_marker(p: EnvParams, index: int, selected: int, other: int)
    ensures
        parameter_line_spec(p, index, selected).len() > 1,
        (parameter_line_spec(p, index, selected)[0] == '>') == (index == selected),
        index != selected ==> parameter_line_spec(p, index, selected)[0] == ' ',
        parameter_line_spec(p, index, selected).drop_first() == parameter_line_spec(
            p,
            index,
            other,
        ).drop_first(),
{
    reveal_strlit(">");
    reveal_strlit(" ");
    let rest = " "@ + pad_right(field_label(index), 3) + " "@ + pad_left(decimal(field(p, index) as nat), 2)
        + " / "@ + pad_left(decimal(field_max(index) as nat), 2);
    assert(parameter_line_spec(p, index, selected) =~= (if index == selected {
        ">"@
    } else {
        " "@
    }) + rest);
    assert(parameter_line_spec(p, index, other) =~= (if index == other {
        ">"@
    } else {
        " "@
    }) + rest);
    assert(parameter_line_spec(p, index, selected).drop_first() =~= rest);
    assert(parameter_line_spec(p, index, other).drop_first() =~= rest);
}

/// A right-aligned number field read back: one leading space is skipped,
/// the rest parsed as a decimal number.
pub open spec fn read_right_aligned(f: Seq<char>) -> Option<u32> {
    parse_u32_spec(
        if f.len() > 0 && f[0] == ' ' {
            f.drop_first()
        } else {
            f
        },
    )
}

proof fn lemma_two_column_number(v: u32)
    requires
        v < 100,
    ensures
        pad_left(decimal(v as nat), 2).len() == 2,
        read_right_aligned(pad_left(decimal(v as nat), 2)) == Some(v),
{
    lemma_parse_decimal_round_trip(v);
    lemma_decimal_digits(v as nat);
    let d = decimal(v as nat);
    if v < 10 {
        assert(d.len() == 1);
        let f = pad_left(d, 2);
        assert(f =~= seq![' '] + d);
        assert(f.drop_first() =~= d);
    } else {
        assert(decimal((v / 10) as nat).len() == 1);
        assert(d.len() == 2);
        assert(is_digit(d[0]));
    }
}

/// Law: on valid registers every register line has the same 13-column
/// layout: the marker, a space, the register's name left-aligned in three
/// columns, a space, the value right-aligned in two columns, ` / `, and the
/// largest value right-aligned in two columns; reading the two number fields
/// back gives the register's value and its largest value.
pub proof fn lemma_parameter_line_fields(p: EnvParams, index: int, selected: int)
    requires
        p.is_valid(),
        0 <= index < PARAMETER_COUNT,
    ensures
        ({
            let line = parameter_line_spec(p, index, selected);
            let label = field_label(index);
            &&& line.len() == 13
            &&& line[1] == ' '
            &&& 2 <= label.len() <= 3
            &&& line.subrange(2, 2 + label.len() as int) == label
            &&& forall|k: int| 2 + label.len() <= k < 6 ==> #[trigger] line[k] == ' '
            &&& line.subrange(8, 11) == " / "@
            &&& read_right_aligned(line.subrange(6, 8)) == Some(field(p, index))
            &&& read_right_aligned(line.subrange(11, 13)) == Some(field_max(index))
        }),
{
    reveal_strlit(">");
    reveal_strlit(" ");
    reveal_strlit(" / ");
    reveal_strlit("AR");
    reveal_strlit("D1R");
    reveal_strlit("D1L");
    reveal_strlit("D2R");
    reveal_strlit("RR");
    let v = field(p, index);
    let m = field_max(index);
    lemma_two_column_number(v);
    lemma_two_column_number(m);
    let label = field_label(index);
    let marker = if index == selected {
        ">"@
    } else {
        " "@
    };
    let name = pad_right(label, 3);
    let value = pad_left(decimal(v as nat), 2);
    let largest = pad_left(decimal(m as nat), 2);
    let line = parameter_line_spec(p, index, selected);
    assert(label.len() == 2 || label.len() == 3);
    assert(name.len() == 3);
    assert(line =~= marker + " "@ + name + " "@ + value + " / "@ + largest);
    assert(line.subrange(2, 2 + label.len() as int) =~= label);
    assert(line.subrange(6, 8) =~= value);
    assert(line.subrange(8, 11) =~= " / "@);
    assert(line.subrange(11, 13) =~= largest);
}

/// One line of the editor's register list.
#[derive(Debug)]
pub struct ParamLine {
    /// The formatted text of the line.
    pub text: String,
    /// Whether the line is the selected one (drawn highlighted).
    pub highlighted: bool,
}

/// The value of the register at position `index`.
pub fn param_value(params: &EnvParams, index: usize) -> (v: u32)
    requires
        index < PARAMETER_COUNT,
    ensures
        v == field(*params, index as int),
{
    match index {
        0 => params.ar,
        1 => params.d1r,
        2 => params.d1l,
        3 => params.d2r,
        _ => params.rr,
    }
}

fn push_spaces(s: &mut String, n: usize)
    ensures
        final(s)@ == old(s)@ + spaces(n as nat),
{
    let mut i: usize = 0;
    while i < n
        invariant
            i <= n,
            s@ == old(s)@ + spaces(i as nat),
        decreases n - i,
    {
        proof {
            reveal_strlit(" ");
        }
        s.append(" ");
        i = i + 1;
        assert(s@ =~= old(s)@ + spaces(i as nat));
    }
}

fn append_padded_left(line: &mut String, text: &str, width: usize)
    ensures
        final(line)@ == old(line)@ + pad_left(text@, width as nat),
{
    let len = text.unicode_len();
    if len < width {
        push_spaces(line, width - len);
    }
    line.append(text);
    assert(line@ =~= old(line)@ + pad_left(text@, width as nat));
}

fn append_padded_right(line: &mut String, text: &str, width: usize)
    ensures
        final(line)@ == old(line)@ + pad_right(text@, width as nat),
{
    let len = text.unicode_len();
    line.append(text);
    if len < width {
        push_spaces(line, width - len);
    }
    assert(line@ =~= old(line)@ + pad_right(text@, width as nat));
}

/// The text of the editor line for register `index`.
pub fn parameter_line(params: &EnvParams, index: usize, selected: usize) -> (text: String)
    requires
        index < PARAMETER_COUNT,
    ensures
        text@ == parameter_line_spec(*params, index as int, selected as int),
{
    let mut line = String::new();
    line.append(if index == selected { ">" } else { " " });
    line.append(" ");
    append_padded_right(&mut line, param_label(index), 3);
    line.append(" ");
    let value = u32_to_decimal(param_value(params, index));
    append_padded_left(&mut line, value.as_str(), 2);
    line.append(" / ");
    let max = u32_to_decimal(param_max(index));
    append_padded_left(&mut line, max.as_str(), 2);
    assert(line@ =~= parameter_line_spec(*params, index as int, selected as int));
    line
}

/// The editor's register list, one line per register in register order,
/// with the selected one highlighted.
pub fn parameter_lines(params: &EnvParams, selected: usize) -> (lines: Vec<ParamLine>)
    ensures
        lines.len() == PARAMETER_COUNT,
        forall|i: int|
            0 <= i < PARAMETER_COUNT ==> {
                &&& #[trigger] lines[i].text@ == parameter_line_spec(*params, i, selected as int)
                &&& lines[i].highlighted == (i == selected)
            },
{
    let mut lines: Vec<ParamLine> = Vec::new();
    let mut index: usize = 0;
    while index < PARAMETER_COUNT
        invariant
            index <= PARAMETER_COUNT,
            lines.len() == index,
            forall|i: int|
                0 <= i < index ==> {
                    &&& #[trigger] lines[i].text@ == parameter_line_spec(*params, i, selected as int)
                    &&& lines[i].highlighted == (i == selected)
                },
        decreases PARAMETER_COUNT - index,
    {
        let line = ParamLine {
            text: parameter_line(params, index, selected),
            highlighted: index == selected,
        };
        let ghost before = lines@;
        lines.push(line);
        assert forall|i: int| 0 <= i <= index implies {
            &&& #[trigger] lines[i].text@ == parameter_line_spec(*params, i, selected as int)
            &&& lines[i].highlighted == (i == selected)
        } by {
            if i < index {
                assert(lines[i] == before[i]);
            }
        }
        index = index + 1;
    }
    lines
}

} // verus!
