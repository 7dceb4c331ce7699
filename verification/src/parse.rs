//! Parsing of numeric options with `0x`, `0o` and `0b` prefixes, and the
//! seed banner line.

use vstd::prelude::*;

verus! {

/// Why a numeral failed to parse.
#[derive(Debug, Clone, Copy, PartialEq, Eq, Structural)]
pub enum ParseError {
    /// No digits after the radix prefix, or an empty input.
    Empty,
    /// A character that is not a digit of the detected radix.
    InvalidDigit,
    /// The numeral does not fit the target type.
    Overflow,
}

/// The value a character denotes as a digit; 16 when it is no digit at all.
pub open spec fn digit_value(c: char) -> int {
    if '0' <= c <= '9' {
        c as int - '0' as int
    } else if 'a' <= c <= 'f' {
        10 + c as int - 'a' as int
    } else if 'A' <= c <= 'F' {
        10 + c as int - 'A' as int
    } else {
        16
    }
}

/// The radix a numeral announces: 16, 8 or 2 after a `0x`, `0o` or `0b`
/// prefix, 10 otherwise.
pub open spec fn spec_radix(s: Seq<char>) -> int {
    if s.len() >= 2 && s[0] == '0' && s[1] == 'x' {
        16
    } else if s.len() >= 2 && s[0] == '0' && s[1] == 'o' {
        8
    } else if s.len() >= 2 && s[0] == '0' && s[1] == 'b' {
        2
    } else {
        10
    }
}

/// The digits of a numeral: everything after the radix prefix, if any.
pub open spec fn spec_digits(s: Seq<char>) -> Seq<char> {
    if spec_radix(s) == 10 {
        s
    } else {
        s.skip(2)
    }
}

/// Every character is a digit of the radix, and there is at least one.
pub open spec fn valid_numeral(s: Seq<char>, radix: int) -> bool {
    s.len() > 0 && forall|i: int| 0 <= i < s.len() ==> digit_value(#[trigger] s[i]) < radix
}

/// The number a digit string denotes in the given radix.
pub open spec fn numeral_value(s: Seq<char>, radix: int) -> int
    decreases s.len(),
{
    if s.len() == 0 {
        0
    } else {
        numeral_value(s.drop_last(), radix) * radix + digit_value(s.last())
    }
}

/// A digit string's value never shrinks as digits are appended.
proof fn lemma_numeral_nonneg(s: Seq<char>, radix: int)
    requires
        radix >= 2,
        forall|i: int| 0 <= i < s.len() ==> digit_value(#[trigger] s[i]) < radix,
    ensures
        numeral_value(s, radix) >= 0,
    decreases s.len(),
{
    if s.len() > 0 {
        lemma_numeral_nonneg(s.drop_last(), radix);
        let v = numeral_value(s.drop_last(), radix);
        assert(v * radix >= 0) by (nonlinear_arith)
            requires
                v >= 0,
                radix >= 2,
        ;
    }
}

/// Appending a digit cannot shrink a digit string's value.
proof fn lemma_numeral_grows(s: Seq<char>, radix: int)
    requires
        radix >= 2,
        s.len() > 0,
        forall|i: int| 0 <= i < s.len() ==> digit_value(#[trigger] s[i]) < radix,
    ensures
        numeral_value(s, radix) >= numeral_value(s.drop_last(), radix),
{
    lemma_numeral_nonneg(s.drop_last(), radix);
    let v = numeral_value(s.drop_last(), radix);
    assert(v * radix >= v) by (nonlinear_arith)
        requires
            v >= 0,
            radix >= 2,
    ;
}

/// The value of a character as a digit below `radix`, if it is one.
fn digit_of(c: char, radix: u64) -> (r: Option<u64>)
    requires
        2 <= radix <= 16,
    ensures
        digit_value(c) < radix ==> r == Option::Some(digit_value(c) as u64),
        digit_value(c) >= radix ==> r is None,
{
    let v: u64 = if c >= '0' && c <= '9' {
        (c as u64) - ('0' as u64)
    } else if c >= 'a' && c <= 'f' {
        10 + (c as u64) - ('a' as u64)
    } else if c >= 'A' && c <= 'F' {
        10 + (c as u64) - ('A' as u64)
    } else {
        16
    };
    if v < radix {
        Option::Some(v)
    } else {
        Option::None
    }
}

/// Parse an unsigned 64-bit numeral, honoring `0x`, `0o` and `0b` prefixes.
/// Succeeds exactly on non-empty all-digit strings whose value fits.
#[verifier::loop_isolation(false)]
pub fn parse_u64(s: &str) -> (r: Result<u64, ParseError>)
    ensures
        ({
            let radix = spec_radix(s@);
            let digits = spec_digits(s@);
            &&& (digits.len() == 0 ==> r == Result::<u64, ParseError>::Err(ParseError::Empty))
            &&& (digits.len() > 0 && !valid_numeral(digits, radix) ==> r == Result::<
                u64,
                ParseError,
            >::Err(ParseError::InvalidDigit))
            &&& (valid_numeral(digits, radix) && numeral_value(digits, radix) > u64::MAX ==> r
                == Result::<u64, ParseError>::Err(ParseError::Overflow))
            &&& (valid_numeral(digits, radix) && numeral_value(digits, radix) <= u64::MAX ==> r
                == Result::<u64, ParseError>::Ok(numeral_value(digits, radix) as u64))
        }),
{
    let n = s.unicode_len();
    let (radix, start): (u64, usize) = if n >= 2 && s.get_char(0) == '0' {
        let c1 = s.get_char(1);
        if c1 == 'x' {
            (16, 2)
        } else if c1 == 'o' {
            (8, 2)
        } else if c1 == 'b' {
            (2, 2)
        } else {
            (10, 0)
        }
    } else {
        (10, 0)
    };
    let ghost digits = spec_digits(s@);
    proof {
        assert(radix == spec_radix(s@));
        assert(digits =~= s@.skip(start as int));
    }
    if start >= n {
        return Result::Err(ParseError::Empty);
    }
    let mut v: u64 = 0;
    let mut overflowed = false;
    let mut i: usize = start;
    while i < n
        invariant
            start <= i <= n,
            digits =~= s@.skip(start as int),
            forall|j: int| 0 <= j < i - start ==> digit_value(#[trigger] digits[j]) < radix as int,
            !overflowed ==> v == numeral_value(digits.take(i - start), radix as int),
            overflowed ==> numeral_value(digits.take(i - start), radix as int) > u64::MAX,
        decreases n - i,
    {
        let c = s.get_char(i);
        let ghost prefix = digits.take(i - start);
        let ghost prefix2 = digits.take(i + 1 - start);
        proof {
            assert(prefix2.drop_last() =~= prefix);
            assert(prefix2.last() == digits[i - start]);
        }
        match digit_of(c, radix) {
            Option::Some(d) => {
                proof {
                    assert(digits[i - start] == c);
                }
                if !overflowed {
                    if v > (u64::MAX - d) / radix {
                        proof {
                            let vv = v as int;
                            let rr = radix as int;
                            let dd = d as int;
                            assert(vv * rr + dd > u64::MAX) by (nonlinear_arith)
                                requires
                                    vv > ((u64::MAX - dd) / rr),
                                    2 <= rr,
                                    0 <= dd < rr,
                                    vv >= 0,
                            ;
                        }
                        overflowed = true;
                    } else {
                        proof {
                            let vv = v as int;
                            let rr = radix as int;
                            let dd = d as int;
                            assert(vv * rr + dd <= u64::MAX) by (nonlinear_arith)
                                requires
                                    vv <= ((u64::MAX - dd) / rr),
                                    2 <= rr,
                                    0 <= dd < rr,
                                    vv >= 0,
                            ;
                        }
                        v = v * radix + d;
                    }
                } else {
                    proof {
                        lemma_numeral_grows(prefix2, radix as int);
                    }
                }
            },
            Option::None => {
                proof {
                    assert(digits[i - start] == c);
                    assert(!valid_numeral(digits, spec_radix(s@)));
                }
                return Result::Err(ParseError::InvalidDigit);
            },
        }
        i = i + 1;
    }
    proof {
        assert(digits.take(n - start) =~= digits);
    }
    if overflowed {
        Result::Err(ParseError::Overflow)
    } else {
        Result::Ok(v)
    }
}

/// Parse a pointer-sized unsigned numeral, honoring `0x`, `0o` and `0b`
/// prefixes. Succeeds exactly on non-empty all-digit strings whose value
/// fits.
pub fn parse_usize(s: &str) -> (r: Result<usize, ParseError>)
    ensures
        ({
            let radix = spec_radix(s@);
            let digits = spec_digits(s@);
            &&& (digits.len() == 0 ==> r == Result::<usize, ParseError>::Err(ParseError::Empty))
            &&& (digits.len() > 0 && !valid_numeral(digits, radix) ==> r == Result::<
                usize,
                ParseError,
            >::Err(ParseError::InvalidDigit))
            &&& (valid_numeral(digits, radix) && numeral_value(digits, radix) > usize::MAX ==> r
                == Result::<usize, ParseError>::Err(ParseError::Overflow))
            &&& (valid_numeral(digits, radix) && numeral_value(digits, radix) <= usize::MAX ==> r
                == Result::<usize, ParseError>::Ok(numeral_value(digits, radix) as usize))
        }),
{
    let ghost radix = spec_radix(s@);
    let ghost digits = spec_digits(s@);
    match parse_u64(s) {
        Result::Ok(v) => {
            proof {
                if digits.len() == 0 {
                    assert(false);
                } else if !valid_numeral(digits, radix) {
                    assert(false);
                } else if numeral_value(digits, radix) > u64::MAX {
                    assert(false);
                }
                lemma_numeral_nonneg(digits, radix);
            }
            if v <= usize::MAX as u64 {
                Result::Ok(v as usize)
            } else {
                Result::Err(ParseError::Overflow)
            }
        },
        Result::Err(e) => {
            proof {
                if digits.len() > 0 && valid_numeral(digits, radix) && numeral_value(digits, radix)
                    <= u64::MAX {
                    assert(false);
                }
            }
            Result::Err(e)
        },
    }
}

/// The byte of a hexadecimal digit, lower case.
pub open spec fn hex_digit(d: int) -> u8 {
    if d < 10 {
        (0x30 + d) as u8
    } else {
        (0x57 + d) as u8
    }
}

/// Digit `i` (from the most significant end) of a 64-bit value written as
/// sixteen hexadecimal digits.
pub open spec fn spec_hex_digit_at(v: u64, i: int) -> u8 {
    hex_digit(((v >> (((15 - i) * 4) as u64)) & 0xf) as int)
}

/// The seed banner: `seed: 0x` followed by the seed as sixteen hexadecimal
/// digits.
pub open spec fn spec_seed_line(v: u64) -> Seq<u8> {
    seq![0x73u8, 0x65u8, 0x65u8, 0x64u8, 0x3au8, 0x20u8, 0x30u8, 0x78u8] + Seq::new(
        16,
        |i: int| spec_hex_digit_at(v, i),
    )
}

/// Format the seed banner line as bytes.
#[verifier::loop_isolation(false)]
pub fn seed_line(seed: u64) -> (r: Vec<u8>)
    ensures
        r@ == spec_seed_line(seed),
{
    let mut r: Vec<u8> = Vec::new();
    r.push(0x73);
    r.push(0x65);
    r.push(0x65);
    r.push(0x64);
    r.push(0x3a);
    r.push(0x20);
    r.push(0x30);
    r.push(0x78);
    let mut i: usize = 0;
    while i < 16
        invariant
            i <= 16,
            r@.len() == 8 + i,
            forall|j: int| 0 <= j < 8 ==> r@[j] == spec_seed_line(seed)[j],
            forall|j: int| 0 <= j < i ==> r@[8 + j] == spec_hex_digit_at(seed, j),
        decreases 16 - i,
    {
        let shift = (15 - (i as u64)) * 4;
        proof {
            assert((seed >> shift) & 0xf < 16) by (bit_vector);
        }
        let d = ((seed >> shift) & 0xf) as u8;
        let b: u8 = if d < 10 {
            0x30 + d
        } else {
            0x57 + d
        };
        r.push(b);
        i = i + 1;
    }
    proof {
        assert(r@ =~= spec_seed_line(seed));
    }
    r
}

} // verus!
