use vstd::prelude::*;
use crate::server_error::ServerError;

verus! {

/// Whether `c` is an ASCII decimal digit.
pub open spec fn is_digit(c: char) -> bool {
    '0' <= c <= '9'
}

/// The numeric value of the digit `c`.
pub open spec fn digit_val(c: char) -> int {
    c as int - '0' as int
}

/// The character that writes the digit `d`.
pub open spec fn spec_digit_char(d: int) -> char {
    if d == 0 {
        '0'
    } else if d == 1 {
        '1'
    } else if d == 2 {
        '2'
    } else if d == 3 {
        '3'
    } else if d == 4 {
        '4'
    } else if d == 5 {
        '5'
    } else if d == 6 {
        '6'
    } else if d == 7 {
        '7'
    } else if d == 8 {
        '8'
    } else {
        '9'
    }
}

/// Whether `s` is one or more decimal digits and nothing else.
pub open spec fn all_digits(s: Seq<char>) -> bool {
    s.len() > 0 && (forall|i: int| 0 <= i < s.len() ==> is_digit(s[i]))
}

/// The value of a digit sequence read as a decimal number.
pub open spec fn digits_value(s: Seq<char>) -> int
    decreases s.len(),
{
    if s.len() == 0 {
        0
    } else {
        digits_value(s.drop_last()) * 10 + digit_val(s.last())
    }
}

/// A digit sequence never has a negative value.
pub proof fn lemma_digits_value_nonneg(s: Seq<char>)
    requires
        forall|i: int| 0 <= i < s.len() ==> is_digit(s[i]),
    ensures
        digits_value(s) >= 0,
    decreases s.len(),
{
    if s.len() > 0 {
        lemma_digits_value_nonneg(s.drop_last());
    }
}

/// Reading more digits never shrinks the value: a prefix of a digit
/// sequence is worth no more than the whole.
pub proof fn lemma_digits_value_prefix(s: Seq<char>, i: int)
    requires
        0 <= i <= s.len(),
        forall|k: int| 0 <= k < s.len() ==> is_digit(s[k]),
    ensures
        digits_value(s.take(i)) <= digits_value(s),
    decreases s.len() - i,
{
    if i < s.len() {
        lemma_digits_value_prefix(s, i + 1);
        assert(s.take(i + 1).drop_last() =~= s.take(i));
        lemma_digits_value_nonneg(s.take(i));
        assert(digits_value(s.take(i + 1)) == digits_value(s.take(i)) * 10 + digit_val(s.take(
            i + 1,
        ).last()));
    } else {
        assert(s.take(i) =~= s);
    }
}

/// The digit part of a signed decimal string: everything after an
/// optional leading sign.
pub open spec fn signed_digits(s: Seq<char>) -> Seq<char> {
    if s.len() > 0 && (s[0] == '-' || s[0] == '+') {
        s.subrange(1, s.len() as int)
    } else {
        s
    }
}

/// The sign of a signed decimal string: -1 under a leading minus, else 1.
pub open spec fn signed_sign(s: Seq<char>) -> int {
    if s.len() > 0 && s[0] == '-' {
        -1
    } else {
        1
    }
}

/// Whether `s` is an optional sign followed by one or more digits.
pub open spec fn wellformed_int(s: Seq<char>) -> bool {
    all_digits(signed_digits(s))
}

/// The signed value written by `s`.
pub open spec fn int_value(s: Seq<char>) -> int {
    signed_sign(s) * digits_value(signed_digits(s))
}

/// How a port argument is judged: strings that are not a decimal
/// number of 32-bit range fail to parse; numbers outside 0..=65535 are
/// rejected as out of range; everything else is the port.
pub open spec fn spec_parse_port(s: Seq<char>) -> Result<u16, ServerError> {
    if !wellformed_int(s) || int_value(s) < -0x8000_0000 || int_value(s) > 0x7fff_ffff {
        Err(ServerError::PortParse)
    } else if int_value(s) < 0 || int_value(s) > 65535 {
        Err(ServerError::PortRange)
    } else {
        Ok(int_value(s) as u16)
    }
}

/// Parses a port argument, distinguishing an unreadable number from a
/// readable one outside the 16-bit port range.
pub fn parse_port(s: &str) -> (r: Result<u16, ServerError>)
    ensures
        r == spec_parse_port(s@),
{
    let n = s.unicode_len();
    let mut i: usize = 0;
    let mut neg = false;
    if n > 0 {
        let c0 = s.get_char(0);
        if c0 == '-' {
            neg = true;
            i = 1;
        } else if c0 == '+' {
            i = 1;
        }
    }
    if i >= n {
        return Err(ServerError::PortParse);
    }
    let ghost digits = signed_digits(s@);
    proof {
        assert(digits =~= s@.subrange(i as int, n as int));
    }
    let mut acc: u64 = 0;
    let mut j: usize = i;
    while j < n
        invariant
            i <= j <= n,
            n == s@.len(),
            i <= 1,
            digits == signed_digits(s@),
            digits == s@.subrange(i as int, n as int),
            forall|k: int| i <= k < j ==> is_digit(s@[k]),
            acc == digits_value(s@.subrange(i as int, j as int)),
            acc <= 0x8000_0000,
        decreases n - j,
    {
        let c = s.get_char(j);
        if !(c >= '0' && c <= '9') {
            proof {
                assert(!is_digit(digits[j - i as int]));
                assert(!all_digits(digits));
                assert(!wellformed_int(s@));
            }
            return Err(ServerError::PortParse);
        }
        let d: u64 = char_digit_value(c);
        proof {
            assert(s@.subrange(i as int, j as int + 1).drop_last() =~= s@.subrange(
                i as int,
                j as int,
            ));
            assert(s@.subrange(i as int, j as int + 1).last() == s@[j as int]);
            assert(digits_value(s@.subrange(i as int, j as int + 1)) == acc * 10 + digit_val(
                s@[j as int],
            ));
        }
        acc = acc * 10 + d;
        j = j + 1;
        proof {
            assert(acc == digits_value(s@.subrange(i as int, j as int)));
        }
        if acc > 0x8000_0000 {
            proof {
                if wellformed_int(s@) {
                    assert(all_digits(digits));
                    assert(digits.take(j as int - i as int) =~= s@.subrange(i as int, j as int));
                    lemma_digits_value_prefix(digits, j as int - i as int);
                    assert(digits_value(digits) > 0x8000_0000);
                }
            }
            return Err(ServerError::PortParse);
        }
    }
    proof {
        assert(s@.subrange(i as int, n as int) =~= digits);
        assert(acc == digits_value(digits));
        assert(wellformed_int(s@));
    }
    if neg {
        if acc == 0 {
            Ok(0)
        } else {
            Err(ServerError::PortRange)
        }
    } else {
        if acc > 0x7fff_ffff {
            Err(ServerError::PortParse)
        } else if acc > 65535 {
            Err(ServerError::PortRange)
        } else {
            Ok(acc as u16)
        }
    }
}

/// The numeric value of an exec digit character.
fn char_digit_value(c: char) -> (d: u64)
    requires
        is_digit(c),
    ensures
        d == digit_val(c),
        d <= 9,
{
    if c == '0' {
        0
    } else if c == '1' {
        1
    } else if c == '2' {
        2
    } else if c == '3' {
        3
    } else if c == '4' {
        4
    } else if c == '5' {
        5
    } else if c == '6' {
        6
    } else if c == '7' {
        7
    } else if c == '8' {
        8
    } else {
        9
    }
}

/// How an unsigned byte-sized argument is judged: an optional plus,
/// digits, and a value within 0..=255.
pub open spec fn spec_parse_u8(s: Seq<char>) -> Option<u8> {
    let digits = if s.len() > 0 && s[0] == '+' {
        s.subrange(1, s.len() as int)
    } else {
        s
    };
    if all_digits(digits) && 0 <= digits_value(digits) <= 255 {
        Some(digits_value(digits) as u8)
    } else {
        None
    }
}

/// Parses a small unsigned decimal number, as an age field is read.
pub fn parse_u8(s: &str) -> (r: Option<u8>)
    ensures
        r == spec_parse_u8(s@),
{
    let n = s.unicode_len();
    let mut i: usize = 0;
    if n > 0 && s.get_char(0) == '+' {
        i = 1;
    }
    if i >= n {
        return None;
    }
    let ghost digits = if s@.len() > 0 && s@[0] == '+' {
        s@.subrange(1, s@.len() as int)
    } else {
        s@
    };
    proof {
        assert(digits =~= s@.subrange(i as int, n as int));
    }
    let mut acc: u64 = 0;
    let mut j: usize = i;
    while j < n
        invariant
            i <= j <= n,
            n == s@.len(),
            digits == (if s@.len() > 0 && s@[0] == '+' {
                s@.subrange(1, s@.len() as int)
            } else {
                s@
            }),
            digits == s@.subrange(i as int, n as int),
            forall|k: int| i <= k < j ==> is_digit(s@[k]),
            acc == digits_value(s@.subrange(i as int, j as int)),
            acc <= 255,
        decreases n - j,
    {
        let c = s.get_char(j);
        if !(c >= '0' && c <= '9') {
            proof {
                assert(!is_digit(digits[j - i as int]));
                assert(!all_digits(digits));
            }
            return None;
        }
        let d: u64 = char_digit_value(c);
        proof {
            assert(s@.subrange(i as int, j as int + 1).drop_last() =~= s@.subrange(
                i as int,
                j as int,
            ));
            assert(s@.subrange(i as int, j as int + 1).last() == s@[j as int]);
            assert(digits_value(s@.subrange(i as int, j as int + 1)) == acc * 10 + digit_val(
                s@[j as int],
            ));
        }
        acc = acc * 10 + d;
        j = j + 1;
        proof {
            assert(acc == digits_value(s@.subrange(i as int, j as int)));
        }
        if acc > 255 {
            proof {
                if all_digits(digits) {
                    assert(digits.take(j as int - i as int) =~= s@.subrange(i as int, j as int));
                    lemma_digits_value_prefix(digits, j as int - i as int);
                    assert(digits_value(digits) > 255);
                }
            }
            return None;
        }
    }
    proof {
        assert(s@.subrange(i as int, n as int) =~= digits);
        assert(all_digits(digits));
    }
    Some(acc as u8)
}

/// The decimal writing of an unsigned value, without leading zeros.
pub open spec fn spec_u64_dec(n: u64) -> Seq<char>
    decreases n,
{
    if n < 10 {
        seq![spec_digit_char(n as int)]
    } else {
        spec_u64_dec(n / 10).push(spec_digit_char(n as int % 10))
    }
}

/// Writes an unsigned value in decimal.
pub fn u64_to_dec(n: u64) -> (r: String)
    ensures
        r@ == spec_u64_dec(n),
    decreases n,
{
    if n < 10 {
        digit_str(n as u8).to_owned()
    } else {
        let mut s = u64_to_dec(n / 10);
        s.append(digit_str((n % 10) as u8));
        proof {
            assert((n % 10) as u8 as int == n as int % 10);
            assert(s@ =~= spec_u64_dec(n));
        }
        s
    }
}

/// The decimal writing of a byte value, without leading zeros.
pub open spec fn spec_u8_dec(n: u8) -> Seq<char> {
    if n < 10 {
        seq![spec_digit_char(n as int)]
    } else if n < 100 {
        seq![spec_digit_char(n as int / 10), spec_digit_char(n as int % 10)]
    } else {
        seq![
            spec_digit_char(n as int / 100),
            spec_digit_char((n as int / 10) % 10),
            spec_digit_char(n as int % 10),
        ]
    }
}

/// The string of one digit.
fn digit_str(d: u8) -> (r: &'static str)
    requires
        d < 10,
    ensures
        r@ =~= seq![spec_digit_char(d as int)],
{
    let r = if d == 0 {
        "0"
    } else if d == 1 {
        "1"
    } else if d == 2 {
        "2"
    } else if d == 3 {
        "3"
    } else if d == 4 {
        "4"
    } else if d == 5 {
        "5"
    } else if d == 6 {
        "6"
    } else if d == 7 {
        "7"
    } else if d == 8 {
        "8"
    } else {
        "9"
    };
    proof {
        reveal_strlit("0");
        reveal_strlit("1");
        reveal_strlit("2");
        reveal_strlit("3");
        reveal_strlit("4");
        reveal_strlit("5");
        reveal_strlit("6");
        reveal_strlit("7");
        reveal_strlit("8");
        reveal_strlit("9");
    }
    r
}

/// Writes a byte value in decimal.
pub fn u8_to_dec(n: u8) -> (r: String)
    ensures
        r@ == spec_u8_dec(n),
{
    let mut out = String::new();
    if n >= 100 {
        out.append(digit_str(n / 100));
    }
    if n >= 10 {
        out.append(digit_str((n / 10) % 10));
    }
    out.append(digit_str(n % 10));
    proof {
        assert(out@ =~= spec_u8_dec(n));
    }
    out
}

} // verus!
