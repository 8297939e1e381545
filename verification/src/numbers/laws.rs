//! What numbers written in decimal are, said of their digits.

use vstd::prelude::*;

use crate::numbers::{
    all_digits, decimal, digits_value, lemma_decimal_reads_back, signed_decimal, signed_value,
    unsigned_value, zero_padded, zeros,
};

verus! {

/// One digit more makes a number ten times as great, and greater by the digit.
pub proof fn law_a_digit_more(s: Seq<char>, c: char)
    requires
        '0' <= c <= '9',
    ensures
        digits_value(Seq::<char>::empty()) == 0,
        digits_value(s.push(c)) == 10 * digits_value(s) + (c as int - 48),
{
    assert(s.push(c).drop_last() =~= s);
}

/// Digits are the characters from 0 to 9.
pub proof fn law_digits_are_those_from_nought_to_nine(s: Seq<char>)
    ensures
        all_digits(s) <==> forall|i: int| 0 <= i < s.len() ==> 48 <= #[trigger] s[i] as int <= 57,
{
    if all_digits(s) {
        assert forall|i: int| 0 <= i < s.len() implies 48 <= #[trigger] s[i] as int <= 57 by {
            assert(crate::numbers::is_digit(s[i]));
        }
    }
}

proof fn lemma_no_leading_zero(n: nat)
    ensures
        decimal(n).len() > 0,
        n > 0 ==> decimal(n)[0] != '0',
        n < 10 <==> decimal(n).len() == 1,
    decreases n,
{
    if n >= 10 {
        lemma_no_leading_zero(n / 10);
    }
}

/// A number is written in digits of which it is the value, and the first one is nought only
/// where the number is.
pub proof fn law_a_number_is_the_value_of_its_digits(n: nat)
    ensures
        digits_value(decimal(n)) == n,
        forall|i: int| 0 <= i < decimal(n).len() ==> 48 <= #[trigger] decimal(n)[i] as int <= 57,
        decimal(n).len() > 0,
        decimal(n)[0] == '0' ==> n == 0 && decimal(n).len() == 1,
{
    lemma_decimal_reads_back(n);
    lemma_no_leading_zero(n);
    law_digits_are_those_from_nought_to_nine(decimal(n));
}

/// A whole number that is written and read again is the same, as far as it fits; with a plus
/// sign before it too.
pub proof fn law_numbers_read_back(n: int)
    requires
        i64::MIN <= n <= i64::MAX,
    ensures
        signed_value(signed_decimal(n)) == Some(n),
        n >= 0 ==> signed_value(seq!['+'] + decimal(n as nat)) == Some(n),
        n >= 0 ==> signed_decimal(n) == decimal(n as nat),
        n < 0 ==> signed_decimal(n) == seq!['-'] + decimal((-n) as nat),
{
    if n < 0 {
        let d = decimal((-n) as nat);
        lemma_decimal_reads_back((-n) as nat);
        assert((seq!['-'] + d).drop_first() =~= d);
    } else {
        let d = decimal(n as nat);
        lemma_decimal_reads_back(n as nat);
        assert((seq!['+'] + d).drop_first() =~= d);
    }
}

/// What is read as a number is its digits, with a sign before them or none, and fits into
/// 64 bits.
pub proof fn law_only_digits_are_read(s: Seq<char>)
    ensures
        signed_value(s) matches Some(n) ==> {
            let d = if s[0] == '+' || s[0] == '-' {
                s.drop_first()
            } else {
                s
            };
            &&& s.len() > 0
            &&& d.len() > 0
            &&& forall|i: int| 0 <= i < d.len() ==> 48 <= #[trigger] d[i] as int <= 57
            &&& n == (if s[0] == '-' {
                -digits_value(d)
            } else {
                digits_value(d) as int
            })
            &&& i64::MIN <= n <= i64::MAX
        },
        unsigned_value(s, u64::MAX as nat) matches Some(n) ==> {
            let d = if s[0] == '+' {
                s.drop_first()
            } else {
                s
            };
            &&& d.len() > 0
            &&& forall|i: int| 0 <= i < d.len() ==> 48 <= #[trigger] d[i] as int <= 57
            &&& n == digits_value(d)
            &&& n <= u64::MAX
        },
{
    law_digits_are_those_from_nought_to_nine(s);
    law_digits_are_those_from_nought_to_nine(s.drop_first());
}

/// Digits are read wherever their number fits.
pub proof fn law_digits_that_fit_are_read(d: Seq<char>)
    requires
        d.len() > 0,
        forall|i: int| 0 <= i < d.len() ==> 48 <= #[trigger] d[i] as int <= 57,
    ensures
        unsigned_value(d, u64::MAX as nat) == (if digits_value(d) <= u64::MAX {
            Some(digits_value(d))
        } else {
            None
        }),
        signed_value(d) == (if digits_value(d) <= i64::MAX {
            Some(digits_value(d) as int)
        } else {
            None
        }),
{
    law_digits_are_those_from_nought_to_nine(d);
    assert(48 <= d[0] as int <= 57);
}

proof fn lemma_zeros(k: int, d: Seq<char>)
    requires
        0 <= k,
    ensures
        digits_value(zeros(k) + d) == digits_value(d),
    decreases k + d.len(),
{
    let s = zeros(k) + d;
    if d.len() > 0 {
        assert(s.drop_last() =~= zeros(k) + d.drop_last());
        lemma_zeros(k, d.drop_last());
    } else if k > 0 {
        assert(s.drop_last() =~= zeros(k - 1) + d);
        lemma_zeros(k - 1, d);
    } else {
        assert(s =~= d);
    }
}

/// A number that is filled up with zeros is the same number, as wide as asked for or as it
/// is.
pub proof fn law_zeros_before_a_number(n: nat, width: int)
    requires
        0 <= width,
    ensures
        digits_value(zero_padded(n as int, width)) == n,
        zero_padded(n as int, width).len() == (if decimal(n).len() < width {
            width
        } else {
            decimal(n).len() as int
        }),
        decimal(n).len() >= width ==> zero_padded(n as int, width) == decimal(n),
{
    lemma_decimal_reads_back(n);
    let d = decimal(n);
    if d.len() < width {
        lemma_zeros(width - d.len(), d);
    } else {
        assert(zero_padded(n as int, width) =~= d);
    }
}

} // verus!
