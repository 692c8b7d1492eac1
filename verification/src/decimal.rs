//! Decimal rendering of integers, as used in messages and in categorical
//! values.

use vstd::prelude::*;

verus! {

/// The character of a decimal digit.
pub open spec fn digit_char(d: nat) -> char
    recommends
        d < 10,
{
    (48 + d) as char
}

/// The decimal digits of `n`, most significant first, without leading zeros.
pub open spec fn decimal_digits(n: nat) -> Seq<char>
    decreases n,
{
    if n < 10 {
        seq![digit_char(n)]
    } else {
        decimal_digits(n / 10).push(digit_char(n % 10))
    }
}

/// The decimal rendering of an integer: its digits, behind a `-` when negative.
pub open spec fn decimal_int(v: int) -> Seq<char> {
    if v < 0 {
        seq!['-'] + decimal_digits((-v) as nat)
    } else {
        decimal_digits(v as nat)
    }
}

/// The numeric value of a sequence of decimal digit characters.
pub open spec fn digits_value(s: Seq<char>) -> int
    decreases s.len(),
{
    if s.len() == 0 {
        0
    } else {
        digits_value(s.drop_last()) * 10 + ((s.last() as int) - 48)
    }
}

/// Whether every character of `s` is one of `0` to `9`.
pub open spec fn all_digits(s: Seq<char>) -> bool {
    forall|i: int| 0 <= i < s.len() ==> 48 <= #[trigger] (s[i] as int) <= 57
}

/// The rendering of a natural number is a nonempty run of decimal digits
/// that starts with `0` only for zero itself, and whose value is the number.
pub proof fn lemma_decimal_digits_faithful(n: nat)
    ensures
        decimal_digits(n).len() >= 1,
        all_digits(decimal_digits(n)),
        digits_value(decimal_digits(n)) == n,
        (decimal_digits(n)[0] == '0') <==> n == 0,
    decreases n,
{
    if n >= 10 {
        lemma_decimal_digits_faithful(n / 10);
        let s = decimal_digits(n);
        assert(s.drop_last() =~= decimal_digits(n / 10));
        assert forall|i: int| 0 <= i < s.len() implies 48 <= #[trigger] (s[i] as int) <= 57 by {
            if i < s.len() - 1 {
                assert(s[i] == decimal_digits(n / 10)[i]);
            }
        }
        assert(s[0] == decimal_digits(n / 10)[0]);
        assert(s.last() as int == 48 + n % 10);
        assert(n == (n / 10) * 10 + n % 10);
        assert(digits_value(s.drop_last()) == n / 10);
        assert(digits_value(s) == digits_value(s.drop_last()) * 10 + ((s.last() as int) - 48));
    } else {
        let s = decimal_digits(n);
        assert(s.drop_last() =~= Seq::<char>::empty());
        assert(s.last() as int == 48 + n);
        assert(digits_value(s.drop_last()) == 0);
    }
}

/// Two natural numbers render alike only when they are equal.
pub proof fn lemma_decimal_digits_injective(a: nat, b: nat)
    requires
        decimal_digits(a) == decimal_digits(b),
    ensures
        a == b,
{
    lemma_decimal_digits_faithful(a);
    lemma_decimal_digits_faithful(b);
}

/// The one-character string of a decimal digit.
fn digit_str(d: u64) -> (s: &'static str)
    requires
        d < 10,
    ensures
        s@ == seq![digit_char(d as nat)],
{
    if d == 0 {
        proof { reveal_strlit("0"); }
        "0"
    } else if d == 1 {
        proof { reveal_strlit("1"); }
        "1"
    } else if d == 2 {
        proof { reveal_strlit("2"); }
        "2"
    } else if d == 3 {
        proof { reveal_strlit("3"); }
        "3"
    } else if d == 4 {
        proof { reveal_strlit("4"); }
        "4"
    } else if d == 5 {
        proof { reveal_strlit("5"); }
        "5"
    } else if d == 6 {
        proof { reveal_strlit("6"); }
        "6"
    } else if d == 7 {
        proof { reveal_strlit("7"); }
        "7"
    } else if d == 8 {
        proof { reveal_strlit("8"); }
        "8"
    } else {
        proof { reveal_strlit("9"); }
        "9"
    }
}

/// Appends the decimal digits of `n` to `out`.
pub fn push_decimal_digits(out: &mut String, n: u64)
    ensures
        final(out)@ == old(out)@ + decimal_digits(n as nat),
    decreases n,
{
    if n >= 10 {
        push_decimal_digits(out, n / 10);
    }
    out.append(digit_str(n % 10));
    proof {
        if n >= 10 {
            assert(decimal_digits(n as nat) == decimal_digits((n / 10) as nat).push(digit_char((n % 10) as nat)));
        }
    }
}

/// Appends the decimal rendering of `v`, an integer of magnitude at most
/// `u64::MAX`, to `out`.
pub fn push_decimal_wide(out: &mut String, v: i128)
    requires
        -(u64::MAX as int) <= v <= u64::MAX,
    ensures
        final(out)@ == old(out)@ + decimal_int(v as int),
{
    if v < 0 {
        proof { reveal_strlit("-"); }
        out.append("-");
        push_decimal_digits(out, (-v) as u64);
    } else {
        push_decimal_digits(out, v as u64);
    }
}

/// Two integers render alike only when they are equal.
pub proof fn lemma_decimal_int_injective(a: int, b: int)
    requires
        decimal_int(a) == decimal_int(b),
    ensures
        a == b,
{
    let na: nat = if a < 0 { (-a) as nat } else { a as nat };
    let nb: nat = if b < 0 { (-b) as nat } else { b as nat };
    lemma_decimal_digits_faithful(na);
    lemma_decimal_digits_faithful(nb);
    if a < 0 && b >= 0 {
        assert(decimal_int(a)[0] == '-');
        assert(48 <= (decimal_int(b)[0] as int) <= 57);
    } else if a >= 0 && b < 0 {
        assert(decimal_int(b)[0] == '-');
        assert(48 <= (decimal_int(a)[0] as int) <= 57);
    } else if a < 0 && b < 0 {
        assert(decimal_int(a).subrange(1, decimal_int(a).len() as int) =~= decimal_digits(na));
        assert(decimal_int(b).subrange(1, decimal_int(b).len() as int) =~= decimal_digits(nb));
        lemma_decimal_digits_injective(na, nb);
    } else {
        lemma_decimal_digits_injective(na, nb);
    }
}

/// The decimal rendering of `v`, an integer of magnitude at most `u64::MAX`.
pub fn decimal_string(v: i128) -> (s: String)
    requires
        -(u64::MAX as int) <= v <= u64::MAX,
    ensures
        s@ == decimal_int(v as int),
{
    let mut s = String::new();
    push_decimal_wide(&mut s, v);
    s
}

} // verus!
