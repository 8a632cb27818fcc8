use vstd::prelude::*;

verus! {

/// Whether a byte is an ASCII decimal digit.
pub open spec fn is_digit(b: u8) -> bool {
    48 <= b && b <= 57
}

/// The numeric value of an ASCII decimal digit.
pub open spec fn digit_value(b: u8) -> nat {
    (b - 48) as nat
}

/// Every byte of `s` is an ASCII decimal digit.
pub open spec fn all_digits(s: Seq<u8>) -> bool {
    forall|i: int| 0 <= i < s.len() ==> is_digit(#[trigger] s[i])
}

/// The number that a string of decimal digits denotes, most significant first.
pub open spec fn decimal_value(s: Seq<u8>) -> nat
    decreases s.len(),
{
    if s.len() == 0 {
        0
    } else {
        10 * decimal_value(s.drop_last()) + digit_value(s.last())
    }
}

/// The canonical decimal rendering of `n`: no sign, no padding, no leading zeros.
pub open spec fn decimal_digits(n: nat) -> Seq<u8>
    decreases n,
{
    if n < 10 {
        seq![(48 + n) as u8]
    } else {
        decimal_digits(n / 10).push((48 + n % 10) as u8)
    }
}

/// Renders `n` in decimal ASCII.
pub fn encode_decimal(n: u64) -> (r: Vec<u8>)
    ensures
        r@ == decimal_digits(n as nat),
    decreases n,
{
    if n < 10 {
        let d: u8 = n as u8;
        vec![48 + d]
    } else {
        let mut r = encode_decimal(n / 10);
        let d: u8 = (n % 10) as u8;
        r.push(48 + d);
        r
    }
}

/// Why a byte string is not a decimal `u64`.
#[derive(Debug, Clone, Copy, PartialEq, Eq, Structural)]
pub enum ParseError {
    /// There are no bytes at all.
    Empty,
    /// Some byte is not an ASCII digit (a sign counts as one).
    InvalidDigit,
    /// The digits denote a number above `u64::MAX`.
    Overflow,
}

/// What reading `s` as a decimal `u64` gives: the digits' value, or why there is none.
/// A string with a byte other than a digit is `InvalidDigit` whatever its length.
pub open spec fn parse_spec(s: Seq<u8>) -> Result<u64, ParseError> {
    if s.len() == 0 {
        Err(ParseError::Empty)
    } else if !all_digits(s) {
        Err(ParseError::InvalidDigit)
    } else if decimal_value(s) > u64::MAX {
        Err(ParseError::Overflow)
    } else {
        Ok(decimal_value(s) as u64)
    }
}

/// The canonical rendering is a non-empty string of digits that denotes `n`.
pub proof fn lemma_decimal_digits(n: nat)
    ensures
        decimal_digits(n).len() > 0,
        all_digits(decimal_digits(n)),
        decimal_value(decimal_digits(n)) == n,
    decreases n,
{
    let s = decimal_digits(n);
    if n < 10 {
        assert(s.drop_last() =~= Seq::<u8>::empty());
        assert(digit_value(s.last()) == n);
        assert(decimal_value(s.drop_last()) == 0);
        assert(decimal_value(s) == n);
    } else {
        lemma_decimal_digits(n / 10);
        let t = decimal_digits(n / 10);
        assert(s.drop_last() =~= t);
        assert(digit_value(s.last()) == n % 10);
        assert(10 * (n / 10) + n % 10 == n);
        assert(decimal_value(s) == 10 * decimal_value(t) + n % 10);
        assert forall|i: int| 0 <= i < s.len() implies is_digit(#[trigger] s[i]) by {
            if i < t.len() {
                assert(s[i] == t[i]);
            }
        }
    }
}

/// Dropping trailing digits never makes the value larger.
pub proof fn lemma_prefix_value_le(s: Seq<u8>, i: int)
    requires
        0 <= i <= s.len(),
    ensures
        decimal_value(s.take(i)) <= decimal_value(s),
    decreases s.len() - i,
{
    if i < s.len() {
        lemma_prefix_value_le(s, i + 1);
        assert(s.take(i + 1).drop_last() =~= s.take(i));
    } else {
        assert(s.take(i) =~= s);
    }
}

/// Reads the whole of `s` as a non-negative decimal number that fits in a `u64`.
/// Leading zeros are accepted; a sign, a space or a newline is not.
pub fn parse_decimal(s: &[u8]) -> (r: Result<u64, ParseError>)
    ensures
        r == parse_spec(s@),
{
    if s.len() == 0 {
        return Err(ParseError::Empty);
    }
    let mut i: usize = 0;
    while i < s.len()
        invariant
            0 <= i <= s.len(),
            forall|j: int| 0 <= j < i ==> is_digit(#[trigger] s@[j]),
        decreases s.len() - i,
    {
        if s[i] < 48 || s[i] > 57 {
            assert(!is_digit(s@[i as int]));
            return Err(ParseError::InvalidDigit);
        }
        i += 1;
    }
    assert(all_digits(s@));
    let mut acc: u64 = 0;
    let mut i: usize = 0;
    assert(s@.take(0) =~= Seq::<u8>::empty());
    while i < s.len()
        invariant
            0 <= i <= s.len(),
            all_digits(s@),
            acc == decimal_value(s@.take(i as int)),
        decreases s.len() - i,
    {
        let d: u64 = (s[i] - 48) as u64;
        assert(is_digit(s@[i as int]));
        assert(s@.take(i + 1).drop_last() =~= s@.take(i as int));
        assert(decimal_value(s@.take(i + 1)) == 10 * acc + d);
        if acc > (u64::MAX - d) / 10 {
            assert(10 * acc + d > u64::MAX) by (nonlinear_arith)
                requires
                    acc > (u64::MAX - d) / 10,
                    d <= 9,
            ;
            proof {
                lemma_prefix_value_le(s@, i + 1);
            }
            return Err(ParseError::Overflow);
        }
        assert(10 * acc + d <= u64::MAX) by (nonlinear_arith)
            requires
                acc <= (u64::MAX - d) / 10,
                d <= 9,
        ;
        acc = acc * 10 + d;
        i += 1;
    }
    assert(s@.take(s.len() as int) =~= s@);
    Ok(acc)
}

} // verus!
