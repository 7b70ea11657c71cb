//! Unsigned decimal numerals: reading them from text and writing them out.
use vstd::prelude::*;

verus! {

pub open spec fn is_digit(c: char) -> bool {
    '0' <= c <= '9'
}

pub open spec fn digit_value(c: char) -> nat {
    (c as u32 - '0' as u32) as nat
}

/// Every character is a decimal digit, and there is at least one.
pub open spec fn is_decimal(t: Seq<char>) -> bool {
    t.len() > 0 && forall|i: int| 0 <= i < t.len() ==> is_digit(#[trigger] t[i])
}

/// The number that a string of decimal digits denotes.
pub open spec fn decimal_value(t: Seq<char>) -> nat
    decreases t.len(),
{
    if t.len() == 0 {
        0
    } else {
        decimal_value(t.drop_last()) * 10 + digit_value(t.last())
    }
}

/// The value of `t` if it is a decimal numeral that fits in a `u32`.
pub open spec fn spec_parse_digits(t: Seq<char>) -> Option<u32> {
    if is_decimal(t) && decimal_value(t) <= u32::MAX {
        Some(decimal_value(t) as u32)
    } else {
        None
    }
}

/// `t` without the `+` sign it may start with.
pub open spec fn unsigned_digits(t: Seq<char>) -> Seq<char> {
    if t.len() > 0 && t[0] == '+' {
        t.drop_first()
    } else {
        t
    }
}

/// What reading `t` as a `u32` gives: an optional `+` sign followed by a
/// decimal numeral that fits, as `str::parse::<u32>` reads it.
pub open spec fn spec_parse_u32(t: Seq<char>) -> Option<u32> {
    spec_parse_digits(unsigned_digits(t))
}

pub open spec fn digit_char(d: nat) -> char {
    if d == 0 { '0' }
    else if d == 1 { '1' }
    else if d == 2 { '2' }
    else if d == 3 { '3' }
    else if d == 4 { '4' }
    else if d == 5 { '5' }
    else if d == 6 { '6' }
    else if d == 7 { '7' }
    else if d == 8 { '8' }
    else { '9' }
}

/// The shortest decimal numeral of `n`.
pub open spec fn decimal(n: nat) -> Seq<char>
    decreases n,
{
    if n < 10 {
        seq![digit_char(n)]
    } else {
        decimal(n / 10).push(digit_char(n % 10))
    }
}

/// Writing a number out and reading it back gives the number.
pub proof fn lemma_decimal_round_trip(n: nat)
    ensures
        is_decimal(decimal(n)),
        decimal_value(decimal(n)) == n,
        unsigned_digits(decimal(n)) == decimal(n),
    decreases n,
{
    lemma_digit_char(n % 10);
    if n >= 10 {
        lemma_decimal_round_trip(n / 10);
        let t = decimal(n);
        assert(t.drop_last() == decimal(n / 10));
        assert forall|i: int| 0 <= i < t.len() implies is_digit(#[trigger] t[i]) by {
            if i < t.len() - 1 {
                assert(t[i] == decimal(n / 10)[i]);
            }
        }
        assert(t.last() == digit_char(n % 10));
        assert(decimal_value(t) == decimal_value(decimal(n / 10)) * 10 + digit_value(
            digit_char(n % 10),
        ));
        assert(n == (n / 10) * 10 + n % 10);
    } else {
        assert(decimal(n).drop_last() =~= Seq::<char>::empty());
        assert(decimal_value(Seq::<char>::empty()) == 0);
        assert(decimal(n).last() == digit_char(n));
        assert(decimal_value(decimal(n)) == digit_value(digit_char(n)));
    }
}

proof fn lemma_digit_char(d: nat)
    requires
        d < 10,
    ensures
        is_digit(digit_char(d)),
        digit_value(digit_char(d)) == d,
{
}

/// Reads `t` as an optionally signed (`+`) decimal numeral of at most
/// `u32::MAX`.
pub fn parse_u32(t: &str) -> (r: Option<u32>)
    ensures
        r == spec_parse_u32(t@),
{
    let n = t.unicode_len();
    if n > 0 && t.get_char(0) == '+' {
        let rest = t.substring_char(1, n);
        assert(rest@ =~= t@.drop_first());
        parse_digits(rest)
    } else {
        parse_digits(t)
    }
}

/// Reads `t` as an unsigned decimal numeral of at most `u32::MAX`.
pub fn parse_digits(t: &str) -> (r: Option<u32>)
    ensures
        r == spec_parse_digits(t@),
{
    let n = t.unicode_len();
    let mut acc: u32 = 0;
    let mut too_big = false;
    let mut i: usize = 0;
    while i < n
        invariant
            n == t@.len(),
            i <= n,
            forall|j: int| 0 <= j < i ==> is_digit(#[trigger] t@[j]),
            too_big ==> decimal_value(t@.subrange(0, i as int)) > u32::MAX,
            !too_big ==> decimal_value(t@.subrange(0, i as int)) == acc,
        decreases n - i,
    {
        let c = t.get_char(i);
        if !('0' <= c && c <= '9') {
            return None;
        }
        let d = (c as u32) - ('0' as u32);
        let ghost prefix = t@.subrange(0, i as int + 1);
        assert(prefix.drop_last() =~= t@.subrange(0, i as int));
        assert(decimal_value(prefix) == decimal_value(t@.subrange(0, i as int)) * 10 + d);
        if !too_big {
            if acc > 429496729 || (acc == 429496729 && d > 5) {
                too_big = true;
            } else {
                acc = acc * 10 + d;
            }
        }
        i = i + 1;
    }
    assert(t@.subrange(0, n as int) =~= t@);
    if n == 0 || too_big {
        None
    } else {
        Some(acc)
    }
}

/// The digit `d` as a one-character string.
fn digit_str(d: u64) -> (r: &'static str)
    requires
        d < 10,
    ensures
        r@ == seq![digit_char(d as nat)],
{
    proof {
        reveal_strlit("0");
        reveal_strlit("1");
        reveal_strlit("2");
        reveal_strlit("3");
        reveal_strlit("4");
        reveal_strlit("5");
        reveal_strlit("6");
        reveal_strlit("7");
        reveal_strlit("8");
        reveal_strlit("9");
    }
    if d == 0 {
        "0"
    } else if d == 1 {
        "1"
    } else if d == 2 {
        "2"
    } else if d == 3 {
        "3"
    } else if d == 4 {
        "4"
    } else if d == 5 {
        "5"
    } else if d == 6 {
        "6"
    } else if d == 7 {
        "7"
    } else if d == 8 {
        "8"
    } else {
        "9"
    }
}

/// Appends the decimal numeral of `n` to `s`.
pub fn push_decimal(s: &mut String, n: u64)
    ensures
        final(s)@ == old(s)@ + decimal(n as nat),
    decreases n,
{
    if n >= 10 {
        push_decimal(s, n / 10);
    }
    let d = digit_str(n % 10);
    s.append(d);
    proof {
        if n >= 10 {
            assert(final(s)@ =~= old(s)@ + decimal(n as nat));
        } else {
            assert(final(s)@ =~= old(s)@ + decimal(n as nat));
        }
    }
}

} // verus!
