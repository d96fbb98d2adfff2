//! Small text helpers: decimal digits and appending characters.

use vstd::prelude::*;

verus! {

/// The ASCII digit for `d` (0 to 9).
pub open spec fn digit_char(d: int) -> char {
    ((d + 48) as u8) as char
}

/// Whether `c` is an ASCII decimal digit.
pub open spec fn is_digit(c: char) -> bool {
    '0' <= c <= '9'
}

/// Value of an ASCII decimal digit.
pub open spec fn digit_value(c: char) -> int {
    (c as int) - 48
}

/// The decimal text of `n`, without sign or leading zeros.
pub open spec fn decimal(n: nat) -> Seq<char>
    decreases n,
{
    if n < 10 {
        seq![digit_char(n as int)]
    } else {
        decimal(n / 10).push(digit_char((n % 10) as int))
    }
}

/// Whether every character of `s` is a decimal digit.
pub open spec fn all_digits(s: Seq<char>) -> bool {
    forall|i: int| 0 <= i < s.len() ==> is_digit(#[trigger] s[i])
}

/// The number written by the digits `s` (0 for the empty text).
pub open spec fn digits_value(s: Seq<char>) -> nat
    decreases s.len(),
{
    if s.len() == 0 {
        0
    } else {
        (digits_value(s.drop_last()) * 10 + digit_value(s.last())) as nat
    }
}

/// Calls `String::push`, which appends one character.
#[verifier::external_body]
pub(crate) fn push_char(s: &mut String, c: char)
    ensures
        final(s)@ == old(s)@.push(c),
{
    s.push(c);
}

proof fn lemma_decimal_digits(n: nat)
    ensures
        decimal(n).len() >= 1,
        all_digits(decimal(n)),
        digits_value(decimal(n)) == n,
        decimal(n)[0] != '+',
    decreases n,
{
    let k = (n % 10) as int;
    assert(digit_value(digit_char(k)) == k);
    assert(is_digit(digit_char(k)));
    if n >= 10 {
        lemma_decimal_digits(n / 10);
        let d = decimal(n / 10);
        assert(decimal(n).drop_last() =~= d);
        assert(decimal(n)[0] == d[0]);
        assert(n == (n / 10) * 10 + k);
        assert(decimal(n).last() == digit_char(k));
        assert(digits_value(decimal(n)) == (digits_value(d) * 10 + digit_value(digit_char(k))) as nat);
    } else {
        assert(decimal(n).drop_last() =~= Seq::<char>::empty());
        assert(decimal(n).last() == digit_char(k));
        assert(digits_value(decimal(n)) == (digits_value(Seq::<char>::empty()) * 10 + digit_value(digit_char(k))) as nat);
    }
}

/// The decimal text of a number has at least one character, consists of
/// digits only, does not start with a sign, and denotes that number.
pub proof fn lemma_decimal_denotes(n: nat)
    ensures
        decimal(n).len() >= 1,
        all_digits(decimal(n)),
        digits_value(decimal(n)) == n,
        decimal(n)[0] != '+',
{
    lemma_decimal_digits(n);
}

/// Appends the decimal text of `n`.
pub fn push_decimal(s: &mut String, n: u64)
    ensures
        final(s)@ == old(s)@ + decimal(n as nat),
    decreases n,
{
    if n >= 10 {
        push_decimal(s, n / 10);
    }
    let d = (n % 10) as u8;
    let c = (d + 48u8) as char;
    assert(c == digit_char((n % 10) as int));
    push_char(s, c);
    assert(decimal(n as nat) == if n < 10 {
        seq![digit_char(n as int)]
    } else {
        decimal((n / 10) as nat).push(digit_char((n % 10) as int))
    });
    if n < 10 {
        assert(old(s)@ + decimal(n as nat) =~= old(s)@.push(c));
    } else {
        assert(old(s)@ + decimal(n as nat) =~= (old(s)@ + decimal((n / 10) as nat)).push(c));
    }
}

} // verus!
