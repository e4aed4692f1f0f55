//! Decimal text for unsigned 32-bit values: the mathematical meaning of a
//! digit string, a verified parser with the acceptance rules of `u32`'s
//! `FromStr`, and the decimal rendering of a value.

use vstd::prelude::*;
use vstd::string::StringExecFns;

verus! {

broadcast use vstd::string::group_string_axioms;

/// `c` is one of the ASCII digits `0` to `9`.
pub open spec fn is_digit(c: char) -> bool {
    '0' <= c && c <= '9'
}

/// The numeric value of an ASCII digit.
pub open spec fn digit_value(c: char) -> nat {
    (c as int - '0' as int) as nat
}

/// Every character of `s` is an ASCII digit.
pub open spec fn all_digits(s: Seq<char>) -> bool {
    forall|i: int| 0 <= i < s.len() ==> is_digit(#[trigger] s[i])
}

/// The value of a digit string read in base ten, most significant digit first.
pub open spec fn digits_value(s: Seq<char>) -> nat
    decreases s.len(),
{
    if s.len() == 0 {
        0
    } else {
        digits_value(s.drop_last()) * 10 + digit_value(s.last())
    }
}

/// The digit part of a text: a single leading `+` is dropped.
pub open spec fn unsigned_digits(s: Seq<char>) -> Seq<char> {
    if s.len() > 0 && s[0] == '+' {
        s.drop_first()
    } else {
        s
    }
}

/// What parsing `s` as a `u32` gives: an optional `+` followed by at least
/// one ASCII digit, with a value that fits in 32 bits; anything else
/// (empty text, other signs, spaces, other characters, overflow) is `None`.
pub open spec fn parse_u32_spec(s: Seq<char>) -> Option<u32> {
    let d = unsigned_digits(s);
    if d.len() > 0 && all_digits(d) && digits_value(d) <= u32::MAX {
        Some(digits_value(d) as u32)
    } else {
        None
    }
}

/// The ASCII digit of a value below ten.
pub open spec fn digit_char(d: nat) -> char {
    ('0' as int + d) as char
}

/// The shortest base-ten representation of `n` (no sign, no leading zeros).
pub open spec fn decimal(n: nat) -> Seq<char>
    decreases n,
{
    if n < 10 {
        seq![digit_char(n)]
    } else {
        decimal(n / 10).push(digit_char(n % 10))
    }
}

/// A digit string's value never shrinks when digits are appended.
proof fn lemma_digits_value_prefix(s: Seq<char>, k: int)
    requires
        0 <= k <= s.len(),
    ensures
        digits_value(s.take(k)) <= digits_value(s),
    decreases s.len(),
{
    if k < s.len() {
        lemma_digits_value_prefix(s.drop_last(), k);
        assert(s.drop_last().take(k) =~= s.take(k));
    } else {
        assert(s.take(k) =~= s);
    }
}

/// The decimal rendering of a number is a non-empty digit string whose value
/// is that number, and which does not start with `+`.
pub proof fn lemma_decimal_digits(n: nat)
    ensures
        decimal(n).len() > 0,
        all_digits(decimal(n)),
        digits_value(decimal(n)) == n,
        decimal(n)[0] != '+',
    decreases n,
{
    if n < 10 {
        let d = decimal(n);
        assert(d =~= seq![digit_char(n)]);
        assert(d.drop_last() =~= Seq::<char>::empty());
        assert(digit_value(digit_char(n)) == n);
        assert(digits_value(d.drop_last()) == 0);
        assert(is_digit(d[0]));
    } else {
        lemma_decimal_digits(n / 10);
        let d = decimal(n);
        assert(d.drop_last() =~= decimal(n / 10));
        assert(d.last() == digit_char(n % 10));
        assert(digit_value(digit_char(n % 10)) == n % 10);
        assert(digits_value(d) == digits_value(decimal(n / 10)) * 10 + n % 10);
        assert((n / 10) * 10 + n % 10 == n) by (nonlinear_arith);
        assert forall|i: int| 0 <= i < d.len() implies is_digit(#[trigger] d[i]) by {
            if i < d.len() - 1 {
                assert(d[i] == decimal(n / 10)[i]);
            }
        }
    }
}

/// Parsing the decimal rendering of any `u32` gives the value back.
pub proof fn lemma_parse_decimal_round_trip(n: u32)
    ensures
        parse_u32_spec(decimal(n as nat)) == Some(n),
{
    lemma_decimal_digits(n as nat);
}

/// A leading zero does not change a digit string's value.
proof fn lemma_digits_value_leading_zero(s: Seq<char>)
    ensures
        digits_value(seq!['0'] + s) == digits_value(s),
    decreases s.len(),
{
    let z = seq!['0'] + s;
    if s.len() > 0 {
        lemma_digits_value_leading_zero(s.drop_last());
        assert(z.drop_last() =~= seq!['0'] + s.drop_last());
        assert(z.last() == s.last());
    } else {
        assert(z.drop_last() =~= Seq::<char>::empty());
        assert(z.last() == '0');
        assert(digit_value('0') == 0);
        assert(digits_value(Seq::<char>::empty()) == 0);
    }
}

/// Law: the decimal rendering of a positive number has no leading zero.
pub proof fn lemma_decimal_no_leading_zero(n: nat)
    requires
        n > 0,
    ensures
        decimal(n)[0] != '0',
    decreases n,
{
    if n >= 10 {
        lemma_decimal_no_leading_zero(n / 10);
        lemma_decimal_digits(n / 10);
        assert(decimal(n)[0] == decimal(n / 10)[0]);
    }
}

/// Law: for a non-empty string of digits, a leading `+` or extra leading
/// zeros do not change what it parses to, and a text with any other
/// character after the optional `+` does not parse.
pub proof fn lemma_parse_u32_prefixes(s: Seq<char>, i: int)
    ensures
        s.len() > 0 && all_digits(s) ==> parse_u32_spec(seq!['+'] + s) == parse_u32_spec(s),
        s.len() > 0 && all_digits(s) ==> parse_u32_spec(seq!['0'] + s) == parse_u32_spec(s),
        0 <= i < s.len() && !is_digit(s[i]) && !(i == 0 && s[0] == '+') ==> parse_u32_spec(s) is None,
{
    if s.len() > 0 && all_digits(s) {
        assert((seq!['+'] + s).drop_first() =~= s);
        assert(unsigned_digits(seq!['+'] + s) =~= s);
        lemma_digits_value_leading_zero(s);
        let z = seq!['0'] + s;
        assert(unsigned_digits(z) =~= z);
        assert forall|k: int| 0 <= k < z.len() implies is_digit(#[trigger] z[k]) by {
            if k > 0 {
                assert(z[k] == s[k - 1]);
            }
        }
    }
    if 0 <= i < s.len() && !is_digit(s[i]) && !(i == 0 && s[0] == '+') {
        let d = unsigned_digits(s);
        if s.len() > 0 && s[0] == '+' {
            assert(d[i - 1] == s[i]);
        } else {
            assert(d[i] == s[i]);
        }
    }
}

/// Parses a text as a `u32` in base ten, accepting exactly what `u32`'s
/// `FromStr` accepts: an optional `+`, then one or more ASCII digits, with no
/// overflow.
pub fn parse_u32(s: &str) -> (r: Option<u32>)
    ensures
        r == parse_u32_spec(s@),
{
    let ghost text = s@;
    let length = s.unicode_len();
    let mut acc: u64 = 0;
    let mut consumed: usize = 0;
    let mut digits: usize = 0;
    let mut signed = false;
    for c in it: s.chars()
        invariant
            it.seq() == text,
            text == s@,
            consumed == it.index(),
            consumed <= text.len(),
            length == text.len(),
            signed <==> (consumed > 0 && text[0] == '+'),
            digits == consumed - (if signed { 1int } else { 0int }),
            ({
                let d = unsigned_digits(text.take(consumed as int));
                &&& d.len() == digits
                &&& all_digits(d)
                &&& acc == digits_value(d)
                &&& acc <= u32::MAX
                &&& d =~= unsigned_digits(text).take(digits as int)
            }),
    {
        assert(c == text[consumed as int]);
        if consumed == 0 && c == '+' {
            signed = true;
            consumed = consumed + 1;
            proof {
                assert(text.take(consumed as int) =~= seq!['+']);
                assert(unsigned_digits(text.take(consumed as int)) =~= Seq::<char>::empty());
            }
        } else {
            if !('0' <= c && c <= '9') {
                proof {
                    let ud = unsigned_digits(text);
                    assert(ud[digits as int] == c);
                    assert(!is_digit(ud[digits as int]));
                    assert(!all_digits(ud));
                }
                return None;
            }
            let next: u64 = acc * 10 + ((c as u32) - ('0' as u32)) as u64;
            consumed = consumed + 1;
            digits = digits + 1;
            proof {
                let ud = unsigned_digits(text);
                let d = unsigned_digits(text.take(consumed as int));
                assert(d =~= ud.take(digits as int));
                assert(d.drop_last() =~= ud.take(digits - 1));
                assert(d.last() == c);
                assert(digits_value(d) == next);
            }
            if next > 0xffff_ffff {
                proof {
                    let ud = unsigned_digits(text);
                    let d = unsigned_digits(text.take(consumed as int));
                    lemma_digits_value_prefix(ud, digits as int);
                    assert(ud.take(digits as int) =~= d);
                    assert(digits_value(ud) > u32::MAX);
                }
                return None;
            }
            acc = next;
        }
    }
    proof {
        assert(text.take(consumed as int) =~= text);
        assert(unsigned_digits(text).take(digits as int) =~= unsigned_digits(text));
    }
    if digits == 0 {
        None
    } else {
        Some(acc as u32)
    }
}

/// The one-character text of the digit `d`.
fn digit_str(d: u32) -> (s: &'static str)
    requires
        d < 10,
    ensures
        s@ == seq![digit_char(d as nat)],
{
    proof {
        reveal_strlit("0");
        reveal_strlit("1");
        reveal_strlit("2");
        reveal_strlit("3");
        reveal_strlit("4");
        reveal_strlit("5");
        reveal_strlit("6");
        reveal_strlit("7");
        reveal_strlit("8");
        reveal_strlit("9");
    }
    let s = match d {
        0 => "0",
        1 => "1",
        2 => "2",
        3 => "3",
        4 => "4",
        5 => "5",
        6 => "6",
        7 => "7",
        8 => "8",
        _ => "9",
    };
    assert(s@ =~= seq![digit_char(d as nat)]);
    s
}

/// Appends the decimal text of `n` to `s`.
fn push_decimal(s: &mut String, n: u32)
    ensures
        final(s)@ == old(s)@ + decimal(n as nat),
    decreases n,
{
    if n >= 10 {
        push_decimal(s, n / 10);
    }
    s.append(digit_str(n % 10));
    assert(s@ =~= old(s)@ + decimal(n as nat));
}

/// The decimal text of a `u32`, as its `Display` writes it.
pub fn u32_to_decimal(n: u32) -> (s: String)
    ensures
        s@ == decimal(n as nat),
{
    let mut s = String::new();
    push_decimal(&mut s, n);
    assert(s@ =~= decimal(n as nat));
    s
}

} // verus!
