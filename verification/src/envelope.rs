//! YM2151 (OPM) envelope parameters and their command-line form.

use vstd::prelude::*;

use crate::decimal::{parse_u32, parse_u32_spec};

verus! {

/// Largest attack rate register value (AR).
pub const AR_MAX: u32 = 31;

/// Largest first decay rate register value (D1R).
pub const D1R_MAX: u32 = 31;

/// Largest first decay level register value (D1L).
pub const D1L_MAX: u32 = 15;

/// Largest second decay rate register value (D2R).
pub const D2R_MAX: u32 = 31;

/// Largest release rate register value (RR).
pub const RR_MAX: u32 = 15;

/// YM2151 envelope parameters (all values clamped to valid ranges).
#[derive(Debug, Clone, Copy, PartialEq, Eq, Structural)]
pub struct EnvParams {
    /// Attack rate (AR): 0-31, higher = faster attack
    pub ar: u32,
    /// Decay 1 rate (D1R): 0-31, fall rate to sustain level
    pub d1r: u32,
    /// Decay 1 level / sustain level (D1L): 0-15 (0 = full level, 15 = -45 dB)
    pub d1l: u32,
    /// Decay 2 rate (D2R): 0-31, slow fall during key-on sustain
    pub d2r: u32,
    /// Release rate (RR): 0-15, fall rate after key-off
    pub rr: u32,
}

impl EnvParams {
    /// Every register value lies in its hardware range.
    pub open spec fn is_valid(self) -> bool {
        &&& self.ar <= AR_MAX
        &&& self.d1r <= D1R_MAX
        &&& self.d1l <= D1L_MAX
        &&& self.d2r <= D2R_MAX
        &&& self.rr <= RR_MAX
    }

    /// The representative example envelope used when nothing is given.
    pub open spec fn default_spec() -> EnvParams {
        EnvParams { ar: 28, d1r: 12, d1l: 4, d2r: 2, rr: 8 }
    }
}

impl Default for EnvParams {
    fn default() -> (p: Self)
        ensures
            p == EnvParams::default_spec(),
    {
        EnvParams { ar: 28, d1r: 12, d1l: 4, d2r: 2, rr: 8 }
    }
}

/// The register at position `i`, in the order AR, D1R, D1L, D2R, RR.
pub open spec fn field(p: EnvParams, i: int) -> u32 {
    if i == 0 {
        p.ar
    } else if i == 1 {
        p.d1r
    } else if i == 2 {
        p.d1l
    } else if i == 3 {
        p.d2r
    } else {
        p.rr
    }
}

/// `p` with the register at position `i` replaced by `v`.
pub open spec fn with_field(p: EnvParams, i: int, v: u32) -> EnvParams {
    if i == 0 {
        EnvParams { ar: v, ..p }
    } else if i == 1 {
        EnvParams { d1r: v, ..p }
    } else if i == 2 {
        EnvParams { d1l: v, ..p }
    } else if i == 3 {
        EnvParams { d2r: v, ..p }
    } else {
        EnvParams { rr: v, ..p }
    }
}

/// The largest value of the register at position `i`.
pub open spec fn field_max(i: int) -> u32 {
    if i == 0 {
        AR_MAX
    } else if i == 1 {
        D1R_MAX
    } else if i == 2 {
        D1L_MAX
    } else if i == 3 {
        D2R_MAX
    } else {
        RR_MAX
    }
}

/// Law: replacing one register changes that register and no other, and two
/// parameter sets are equal exactly when all five registers are.
pub proof fn lemma_registers(p: EnvParams, q: EnvParams, i: int, v: u32)
    requires
        0 <= i < 5,
    ensures
        field(with_field(p, i, v), i) == v,
        forall|j: int| 0 <= j < 5 && j != i ==> #[trigger] field(with_field(p, i, v), j) == field(p, j),
        (forall|j: int| 0 <= j < 5 ==> #[trigger] field(p, j) == field(q, j)) ==> p == q,
{
    if forall|j: int| 0 <= j < 5 ==> #[trigger] field(p, j) == field(q, j) {
        assert(field(p, 0) == field(q, 0));
        assert(field(p, 1) == field(q, 1));
        assert(field(p, 2) == field(q, 2));
        assert(field(p, 3) == field(q, 3));
        assert(field(p, 4) == field(q, 4));
    }
}

/// The value of argument `i`: its parsed number if present and numeric,
/// `default` otherwise, then limited to `max`.
pub open spec fn arg_value(args: Seq<Seq<char>>, i: int, max: u32, default: u32) -> u32 {
    let v = if 0 <= i < args.len() {
        match parse_u32_spec(args[i]) {
            Some(v) => v,
            None => default,
        }
    } else {
        default
    };
    if v <= max {
        v
    } else {
        max
    }
}

/// The parameters that an argument list (program name first) selects.
pub open spec fn parse_args_spec(args: Seq<Seq<char>>) -> EnvParams {
    let d = EnvParams::default_spec();
    EnvParams {
        ar: arg_value(args, 1, AR_MAX, d.ar),
        d1r: arg_value(args, 2, D1R_MAX, d.d1r),
        d1l: arg_value(args, 3, D1L_MAX, d.d1l),
        d2r: arg_value(args, 4, D2R_MAX, d.d2r),
        rr: arg_value(args, 5, RR_MAX, d.rr),
    }
}

fn parse_arg(args: &[String], i: usize, max: u32, default: u32) -> (r: u32)
    ensures
        r == arg_value(args.deep_view(), i as int, max, default),
{
    let v = if i < args.len() {
        match parse_u32(args[i].as_str()) {
            Some(v) => v,
            None => default,
        }
    } else {
        default
    };
    if v <= max {
        v
    } else {
        max
    }
}

/// Parse envelope parameters from command-line style argument list.
///
/// `args[0]` is expected to be the executable name; missing/invalid values use
/// defaults and values are clamped to YM2151 register ranges.
pub fn parse_args(args: &[String]) -> (p: EnvParams)
    ensures
        p == parse_args_spec(args.deep_view()),
        p.is_valid(),
{
    let defaults = EnvParams::default();
    EnvParams {
        ar: parse_arg(args, 1, AR_MAX, defaults.ar),
        d1r: parse_arg(args, 2, D1R_MAX, defaults.d1r),
        d1l: parse_arg(args, 3, D1L_MAX, defaults.d1l),
        d2r: parse_arg(args, 4, D2R_MAX, defaults.d2r),
        rr: parse_arg(args, 5, RR_MAX, defaults.rr),
    }
}

/// Law: every register is read from its own argument (argument `i + 1` for
/// the register at position `i`), whatever the length of the list and
/// whatever the other arguments hold: a number is clamped to the register's
/// largest value, and a missing or non-numeric argument leaves the register
/// at its default.
pub proof fn lemma_parse_args_reads_each_argument(args: Seq<Seq<char>>, i: int)
    requires
        0 <= i < 5,
    ensures
        i + 1 < args.len() && parse_u32_spec(args[i + 1]) is Some ==> {
            let v = parse_u32_spec(args[i + 1])->0;
            field(parse_args_spec(args), i) == if v <= field_max(i) {
                v
            } else {
                field_max(i)
            }
        },
        (i + 1 >= args.len() || parse_u32_spec(args[i + 1]) is None) ==> field(
            parse_args_spec(args),
            i,
        ) == field(EnvParams::default_spec(), i),
{
}

/// Law: the program name and any argument after the fifth value do not
/// matter: changing the first argument, or appending arguments to a list that
/// already holds all five values, gives the same registers.
pub proof fn lemma_parse_args_ignores_name_and_extra(
    args: Seq<Seq<char>>,
    name: Seq<char>,
    extra: Seq<Seq<char>>,
)
    requires
        args.len() > 0,
    ensures
        parse_args_spec(args.update(0, name)) == parse_args_spec(args),
        args.len() >= 6 ==> parse_args_spec(args + extra) == parse_args_spec(args),
{
    if args.len() >= 6 {
        assert forall|k: int| 0 <= k < 6 implies (args + extra)[k] == args[k] by {}
    }
}

} // verus!
