//! Integers in decimal, as text.

use vstd::prelude::*;

pub mod laws;

verus! {

pub open spec fn is_digit(c: char) -> bool {
    '0' <= c <= '9'
}

pub open spec fn digit_value(c: char) -> nat {
    (c as u32 - '0' as u32) as nat
}

pub open spec fn digit_char(d: nat) -> char {
    (('0' as u32 + d) as u32) as char
}

/// The decimal form of `n`, without leading zeros.
pub open spec fn decimal(n: nat) -> Seq<char>
    decreases n,
{
    if n < 10 {
        seq![digit_char(n)]
    } else {
        decimal(n / 10).push(digit_char(n % 10))
    }
}

/// The decimal form of `n`, with a minus sign where it is negative.
pub open spec fn signed_decimal(n: int) -> Seq<char> {
    if n < 0 {
        seq!['-'] + decimal((-n) as nat)
    } else {
        decimal(n as nat)
    }
}

pub open spec fn all_digits(s: Seq<char>) -> bool {
    forall|i: int| 0 <= i < s.len() ==> is_digit(#[trigger] s[i])
}

/// The number that a sequence of digits writes.
pub open spec fn digits_value(s: Seq<char>) -> nat
    decreases s.len(),
{
    if s.len() == 0 {
        0
    } else {
        digits_value(s.drop_last()) * 10 + digit_value(s.last())
    }
}

/// What follows a leading plus sign, or the whole text.
pub open spec fn without_plus(s: Seq<char>) -> Seq<char> {
    if s.len() > 0 && s[0] == '+' {
        s.drop_first()
    } else {
        s
    }
}

/// The value that `s` writes as an unsigned integer up to `max`: at least one
/// digit, with an optional plus sign before.
pub open spec fn unsigned_value(s: Seq<char>, max: nat) -> Option<nat> {
    let d = without_plus(s);
    if d.len() > 0 && all_digits(d) && digits_value(d) <= max {
        Some(digits_value(d))
    } else {
        None
    }
}

/// The value that `s` writes as a signed 64-bit integer.
pub open spec fn signed_value(s: Seq<char>) -> Option<int> {
    if s.len() > 0 && s[0] == '-' {
        let d = s.drop_first();
        if d.len() > 0 && all_digits(d) && digits_value(d) <= 0x8000_0000_0000_0000 {
            Some(-(digits_value(d) as int))
        } else {
            None
        }
    } else {
        match unsigned_value(s, i64::MAX as nat) {
            Some(n) => Some(n as int),
            None => None,
        }
    }
}

proof fn lemma_value_of_prefix(s: Seq<char>, n: int)
    requires
        0 <= n <= s.len(),
        all_digits(s),
    ensures
        digits_value(s.take(n)) <= digits_value(s),
    decreases s.len() - n,
{
    if n == s.len() {
        assert(s.take(n) =~= s);
    } else {
        assert(s.drop_last().take(n) =~= s.take(n));
        assert(all_digits(s.drop_last())) by {
            assert forall|i: int| 0 <= i < s.drop_last().len() implies is_digit(
                #[trigger] s.drop_last()[i],
            ) by {
                assert(s.drop_last()[i] == s[i]);
            }
        }
        lemma_value_of_prefix(s.drop_last(), n);
    }
}

/// Writing a number and reading the digits back gives the number.
pub proof fn lemma_decimal_reads_back(n: nat)
    ensures
        decimal(n).len() > 0,
        all_digits(decimal(n)),
        digits_value(decimal(n)) == n,
        decimal(n)[0] != '+' && decimal(n)[0] != '-',
    decreases n,
{
    if n < 10 {
        let s = decimal(n);
        assert(s.drop_last() =~= Seq::<char>::empty());
        assert(digits_value(s.drop_last()) == 0);
        assert(digit_value(s.last()) == n);
    } else {
        lemma_decimal_reads_back(n / 10);
        let s = decimal(n);
        assert(s.drop_last() =~= decimal(n / 10));
        assert(s.last() == digit_char(n % 10));
        assert(digit_value(s.last()) == n % 10);
        assert forall|i: int| 0 <= i < s.len() implies is_digit(#[trigger] s[i]) by {
            if i < s.len() - 1 {
                assert(s[i] == decimal(n / 10)[i]);
            }
        }
        assert(s[0] == decimal(n / 10)[0]);
    }
}

/// The digit of a value below ten.
fn digit_of(d: u64) -> (r: char)
    requires
        d < 10,
    ensures
        r == digit_char(d as nat),
{
    let n: u8 = 48 + d as u8;
    n as char
}

/// `n` in decimal.
pub fn u64_text(n: u64) -> (r: String)
    ensures
        r@ == decimal(n as nat),
    decreases n,
{
    if n < 10 {
        let mut r = String::new();
        r.push(digit_of(n));
        assert(r@ =~= decimal(n as nat));
        r
    } else {
        let mut r = u64_text(n / 10);
        r.push(digit_of(n % 10));
        r
    }
}

/// `n` in decimal.
pub fn usize_text(n: usize) -> (r: String)
    ensures
        r@ == decimal(n as nat),
{
    u64_text(n as u64)
}

/// `n` in decimal, with a minus sign where it is negative.
pub fn i64_text(n: i64) -> (r: String)
    ensures
        r@ == signed_decimal(n as int),
{
    if n < 0 {
        let m: u64 = (-(n as i128)) as u64;
        let mut r = String::new();
        r.push('-');
        let t = u64_text(m);
        r.append(t.as_str());
        assert(r@ =~= signed_decimal(n as int));
        r
    } else {
        u64_text(n as u64)
    }
}

/// The number that the digits from position `from` on write, if it is at most `max`.
fn parse_digits(v: &[char], from: usize, max: u64) -> (r: Option<u64>)
    requires
        from <= v.len(),
    ensures
        ({
            let d = v@.skip(from as int);
            match r {
                Some(n) => d.len() > 0 && all_digits(d) && n == digits_value(d) && n <= max,
                None => !(d.len() > 0 && all_digits(d) && digits_value(d) <= max),
            }
        }),
{
    let ghost d = v@.skip(from as int);
    if from == v.len() {
        return None;
    }
    let mut n: u64 = 0;
    let mut i: usize = from;
    while i < v.len()
        invariant
            from <= i <= v.len(),
            d == v@.skip(from as int),
            n <= max,
            n == digits_value(d.take(i - from)),
            all_digits(d.take(i - from)),
        decreases v.len() - i,
    {
        let c: char = v[i];
        assert(c == d[i - from]);
        if !('0' <= c && c <= '9') {
            return None;
        }
        let x: u64 = (c as u32 - 48) as u64;
        assert(d.take(i + 1 - from).drop_last() =~= d.take(i - from));
        assert(d.take(i + 1 - from).last() == c);
        assert(digits_value(d.take(i + 1 - from)) == n * 10 + x);
        let wide: u128 = n as u128 * 10 + x as u128;
        if wide > max as u128 {
            proof {
                if all_digits(d) {
                    lemma_value_of_prefix(d, i + 1 - from);
                }
            }
            return None;
        }
        assert(all_digits(d.take(i + 1 - from))) by {
            assert forall|j: int| 0 <= j < i + 1 - from implies is_digit(
                #[trigger] d.take(i + 1 - from)[j],
            ) by {
                if j < i - from {
                    assert(d.take(i - from)[j] == d.take(i + 1 - from)[j]);
                }
            }
        }
        n = wide as u64;
        i += 1;
    }
    assert(d.take(d.len() as int) =~= d);
    Some(n)
}

/// The unsigned integer that `s` writes.
pub fn parse_u64(s: &str) -> (r: Option<u64>)
    ensures
        match r {
            Some(n) => unsigned_value(s@, u64::MAX as nat) == Some(n as nat),
            None => unsigned_value(s@, u64::MAX as nat) is None,
        },
{
    let v = crate::text::chars_of(s);
    let from: usize = if v.len() > 0 && v[0] == '+' {
        1
    } else {
        0
    };
    assert(v@.skip(from as int) =~= without_plus(s@));
    parse_digits(v.as_slice(), from, u64::MAX)
}

/// The signed integer that `s` writes.
pub fn parse_i64(s: &str) -> (r: Option<i64>)
    ensures
        match r {
            Some(n) => signed_value(s@) == Some(n as int),
            None => signed_value(s@) is None,
        },
{
    let v = crate::text::chars_of(s);
    if v.len() > 0 && v[0] == '-' {
        assert(v@.skip(1) =~= s@.drop_first());
        match parse_digits(v.as_slice(), 1, 0x8000_0000_0000_0000) {
            Some(n) => Some((-(n as i128)) as i64),
            None => None,
        }
    } else {
        let from: usize = if v.len() > 0 && v[0] == '+' {
            1
        } else {
            0
        };
        assert(v@.skip(from as int) =~= without_plus(s@));
        match parse_digits(v.as_slice(), from, 0x7fff_ffff_ffff_ffff) {
            Some(n) => Some(n as i64),
            None => None,
        }
    }
}

// ---------------------------------------------------------------------------
// A fixed width
// ---------------------------------------------------------------------------

pub open spec fn zeros(n: int) -> Seq<char> {
    Seq::new(if n > 0 { n as nat } else { 0 }, |i: int| '0')
}

/// `n` in decimal, with zeros before its digits up to `width` characters, the
/// sign among them.
pub open spec fn zero_padded(n: int, width: int) -> Seq<char> {
    if n < 0 {
        let d = decimal((-n) as nat);
        seq!['-'] + zeros(width - 1 - d.len()) + d
    } else {
        let d = decimal(n as nat);
        zeros(width - d.len()) + d
    }
}

/// `n` in decimal, with zeros before its digits up to `width` characters.
pub fn zero_pad(n: i64, width: usize) -> (r: String)
    ensures
        r@ == zero_padded(n as int, width as int),
{
    let mut r = String::new();
    let mut used: usize = 0;
    let digits = if n < 0 {
        r.push('-');
        used = 1;
        u64_text((-(n as i128)) as u64)
    } else {
        u64_text(n as u64)
    };
    let ghost sign = r@;
    let len: usize = digits.as_str().unicode_len();
    let mut k: usize = 0;
    while used < width && len < width - used && k < width - used - len
        invariant
            used <= 1,
            k == 0 || (used < width && len < width - used && k <= width - used - len),
            r@ == sign + zeros(k as int),
        decreases width - k,
    {
        r.push('0');
        k += 1;
        assert(r@ =~= sign + zeros(k as int));
    }
    r.append(digits.as_str());
    assert(r@ =~= zero_padded(n as int, width as int));
    r
}

} // verus!
