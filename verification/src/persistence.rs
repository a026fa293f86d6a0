//! The save timer: how often the routes are written out.

use vstd::prelude::*;

verus! {

/// Minutes between two saves when no setting is given.
pub const DEFAULT_SAVE_MINUTES: u64 = 15;

/// Whether `c` is an ASCII decimal digit.
pub open spec fn is_digit(c: char) -> bool {
    '0' <= c && c <= '9'
}

/// The value of the decimal digit `c`.
pub open spec fn digit_value(c: char) -> nat {
    ((c as u32) - ('0' as u32)) as nat
}

/// The number that the decimal digits `d` write.
pub open spec fn decimal_value(d: Seq<char>) -> nat
    decreases d.len(),
{
    if d.len() == 0 {
        0
    } else {
        decimal_value(d.drop_last()) * 10 + digit_value(d.last())
    }
}

/// The digits of an unsigned number as `u64::from_str` reads it: without one
/// leading '+', if there is one.
pub open spec fn unsigned_digits(s: Seq<char>) -> Seq<char> {
    if s.len() > 0 && s[0] == '+' {
        s.skip(1)
    } else {
        s
    }
}

/// What `u64::from_str` accepts: an optional '+', then one or more decimal
/// digits whose value fits in a `u64`.
pub open spec fn spec_parse_u64(s: Seq<char>) -> Option<u64> {
    let d = unsigned_digits(s);
    if d.len() > 0 && (forall|i: int| 0 <= i < d.len() ==> is_digit(#[trigger] d[i]))
        && decimal_value(d) <= u64::MAX {
        Some(decimal_value(d) as u64)
    } else {
        None
    }
}

proof fn lemma_value_grows(d: Seq<char>, k: int)
    requires
        0 <= k <= d.len(),
    ensures
        decimal_value(d.take(k)) <= decimal_value(d),
    decreases d.len() - k,
{
    if k < d.len() {
        lemma_value_grows(d, k + 1);
        assert(d.take(k + 1).drop_last() =~= d.take(k));
    } else {
        assert(d.take(k) =~= d);
    }
}

/// Reads an unsigned decimal number as `u64::from_str` does.
pub fn parse_u64(s: &str) -> (r: Option<u64>)
    ensures
        r == spec_parse_u64(s@),
{
    let ghost d = unsigned_digits(s@);
    let ghost skip: int = if s@.len() > 0 && s@[0] == '+' { 1 } else { 0 };
    let mut value: u64 = 0;
    let mut seen_digit = false;
    let mut first = true;
    for c in it: s.chars()
        invariant
            first == (it.index() == 0),
            it.seq() == s@,
            d == unsigned_digits(s@),
            skip == (if s@.len() > 0 && s@[0] == '+' { 1int } else { 0 }),
            d == s@.skip(skip),
            skip <= 1,
            it.index() <= skip ==> !seen_digit && value == 0,
            it.index() > skip ==> seen_digit,
            it.index() > skip ==> forall|i: int| 0 <= i < it.index() - skip ==> is_digit(#[trigger] d[i]),
            it.index() > skip ==> value == decimal_value(d.take(it.index() - skip)),
    {
        let ghost count: int = it.index() - skip;
        if first && c == '+' {
            assert(skip == 1);
        } else {
            assert(count >= 0);
            assert(d[count] == c);
            if c < '0' || c > '9' {
                assert(!is_digit(d[count]));
                return None;
            }
            let digit = (c as u32 - '0' as u32) as u64;
            assert(d.take(count + 1).drop_last() =~= d.take(count));
            assert(d.take(count + 1).last() == c);
            assert(digit_value(c) == digit);
            assert(value == decimal_value(d.take(count))) by {
                if count == 0 {
                    assert(d.take(0) =~= Seq::<char>::empty());
                }
            }
            assert(decimal_value(d.take(count + 1)) == value * 10 + digit);
            if value > (u64::MAX - digit) / 10 {
                proof {
                    assert(decimal_value(d.take(count + 1)) == value * 10 + digit);
                    assert(value * 10 + digit > u64::MAX) by (nonlinear_arith)
                        requires
                            value > (u64::MAX - digit) / 10,
                            digit <= 9,
                    ;
                    lemma_value_grows(d, count + 1);
                }
                return None;
            }
            assert(value * 10 + digit <= u64::MAX) by (nonlinear_arith)
                requires
                    value <= (u64::MAX - digit) / 10,
                    digit <= 9,
            ;
            value = value * 10 + digit;
            seen_digit = true;
        }
        first = false;
    }
    if !seen_digit {
        return None;
    }
    proof {
        assert(d.take(d.len() as int) =~= d);
    }
    Some(value)
}

/// Minutes between two saves: the default when no setting is given, else the
/// setting read as an unsigned number, or `None` when it is not one.
pub fn save_timer_minutes(setting: Option<&str>) -> (minutes: Option<u64>)
    ensures
        minutes == match setting {
            None => Some(DEFAULT_SAVE_MINUTES),
            Some(s) => spec_parse_u64(s@),
        },
{
    match setting {
        None => Some(DEFAULT_SAVE_MINUTES),
        Some(s) => parse_u64(s),
    }
}

/// Seconds in `minutes` minutes, or `None` where that does not fit in a `u64`.
pub fn save_interval_secs(minutes: u64) -> (secs: Option<u64>)
    ensures
        minutes * 60 <= u64::MAX ==> secs == Some((minutes * 60) as u64),
        minutes * 60 > u64::MAX ==> secs is None,
{
    minutes.checked_mul(60)
}

} // verus!
