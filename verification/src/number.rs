//! Unsigned decimal numbers as text: rendering and parsing.

use vstd::prelude::*;

verus! {

/// Why a text is not an unsigned decimal number that fits.
#[derive(Debug, Clone, Copy, PartialEq, Eq, Structural)]
pub enum IntError {
    /// The text is empty.
    Empty,
    /// A character is not a decimal digit, or a sign stands alone.
    InvalidDigit,
    /// The digits read so far already exceed the largest value.
    PosOverflow,
}

/// The decimal digit for `d`, which is below ten.
pub open spec fn digit_char(d: nat) -> char {
    if d == 0 {
        '0'
    } else if d == 1 {
        '1'
    } else if d == 2 {
        '2'
    } else if d == 3 {
        '3'
    } else if d == 4 {
        '4'
    } else if d == 5 {
        '5'
    } else if d == 6 {
        '6'
    } else if d == 7 {
        '7'
    } else if d == 8 {
        '8'
    } else {
        '9'
    }
}

/// The decimal numeral of `n`, without leading zeros.
pub open spec fn decimal(n: nat) -> Seq<char>
    decreases n,
{
    if n < 10 {
        seq![digit_char(n)]
    } else {
        decimal(n / 10).push(digit_char(n % 10))
    }
}

/// Whether `c` is one of `0` to `9`.
pub open spec fn is_digit(c: char) -> bool {
    0x30 <= c as u32 <= 0x39
}

/// The value of the decimal digit `c`.
pub open spec fn digit_value(c: char) -> nat {
    (c as u32 - 0x30) as nat
}

/// Reads the digits `s` after digits of value `acc`, from left to right,
/// and stops at the first character that is no digit, or at the first digit
/// with which the value would exceed `max`.
pub open spec fn parse_digits(s: Seq<char>, acc: nat, max: nat) -> Result<nat, IntError>
    decreases s.len(),
{
    if s.len() == 0 {
        Ok(acc)
    } else if !is_digit(s[0]) {
        Err(IntError::InvalidDigit)
    } else if acc * 10 + digit_value(s[0]) > max {
        Err(IntError::PosOverflow)
    } else {
        parse_digits(s.drop_first(), acc * 10 + digit_value(s[0]), max)
    }
}

/// The number that `s` denotes: an optional `+`, then one or more decimal
/// digits, with a value of at most `max`.
pub open spec fn parse_unsigned(s: Seq<char>, max: nat) -> Result<nat, IntError> {
    if s.len() == 0 {
        Err(IntError::Empty)
    } else {
        let body = if s[0] == '+' {
            s.drop_first()
        } else {
            s
        };
        if body.len() == 0 {
            Err(IntError::InvalidDigit)
        } else {
            parse_digits(body, 0, max)
        }
    }
}

/// The port that `s` denotes, where it is a port number.
pub open spec fn port_of(s: Seq<char>) -> Option<u16> {
    match parse_unsigned(s, 0xFFFF) {
        Ok(v) => Some(v as u16),
        Err(_) => None,
    }
}

/// The 32-bit number that `s` denotes, where it is one.
pub open spec fn number_of(s: Seq<char>) -> Option<u32> {
    match parse_unsigned(s, 0xFFFF_FFFF) {
        Ok(v) => Some(v as u32),
        Err(_) => None,
    }
}

/// What an executable parse result says, as a result over `nat`.
pub open spec fn as_nat(r: Result<u64, IntError>) -> Result<nat, IntError> {
    match r {
        Ok(v) => Ok(v as nat),
        Err(e) => Err(e),
    }
}

/// The decimal digit for `d`.
pub fn digit(d: u64) -> (c: char)
    requires
        d < 10,
    ensures
        c == digit_char(d as nat),
{
    if d == 0 {
        '0'
    } else if d == 1 {
        '1'
    } else if d == 2 {
        '2'
    } else if d == 3 {
        '3'
    } else if d == 4 {
        '4'
    } else if d == 5 {
        '5'
    } else if d == 6 {
        '6'
    } else if d == 7 {
        '7'
    } else if d == 8 {
        '8'
    } else {
        '9'
    }
}

/// Appends the decimal numeral of `n` to `out`.
pub fn push_decimal(out: &mut String, n: u64)
    ensures
        final(out)@ == old(out)@ + decimal(n as nat),
    decreases n,
{
    if n < 10 {
        out.push(digit(n));
        assert(old(out)@.push(digit_char(n as nat)) =~= old(out)@ + decimal(n as nat));
    } else {
        push_decimal(out, n / 10);
        out.push(digit(n % 10));
        assert((old(out)@ + decimal((n / 10) as nat)).push(digit_char((n % 10) as nat)) =~= old(
            out,
        )@ + decimal(n as nat));
    }
}

/// The decimal numeral of `n`.
pub fn to_decimal(n: u64) -> (r: String)
    ensures
        r@ == decimal(n as nat),
{
    let mut out = String::new();
    push_decimal(&mut out, n);
    assert(Seq::<char>::empty() + decimal(n as nat) =~= decimal(n as nat));
    out
}

/// The number that `s` denotes, if it is at most `max`.
pub fn parse_bounded(s: &Vec<char>, max: u64) -> (r: Result<u64, IntError>)
    ensures
        as_nat(r) == parse_unsigned(s@, max as nat),
        r matches Ok(v) ==> v <= max,
{
    if s.len() == 0 {
        return Err(IntError::Empty);
    }
    let start: usize = if s[0] == '+' {
        1
    } else {
        0
    };
    if start == s.len() {
        return Err(IntError::InvalidDigit);
    }
    let ghost body = s@.skip(start as int);
    assert(body =~= if s@[0] == '+' {
        s@.drop_first()
    } else {
        s@
    });
    let mut acc: u64 = 0;
    let mut i: usize = start;
    while i < s.len()
        invariant
            start <= i <= s.len(),
            acc <= max,
            parse_digits(s@.skip(i as int), acc as nat, max as nat) == parse_unsigned(
                s@,
                max as nat,
            ),
        decreases s.len() - i,
    {
        let c: char = s[i];
        let n: u32 = c as u32;
        let ghost rest = s@.skip(i as int);
        assert(rest[0] == s@[i as int]);
        assert(rest.drop_first() =~= s@.skip(i + 1));
        if n < 0x30 || n > 0x39 {
            return Err(IntError::InvalidDigit);
        }
        let d: u64 = (n - 0x30) as u64;
        let next: u64 = match acc.checked_mul(10) {
            Some(tens) => match tens.checked_add(d) {
                Some(sum) => sum,
                None => {
                    return Err(IntError::PosOverflow);
                },
            },
            None => {
                return Err(IntError::PosOverflow);
            },
        };
        if next > max {
            return Err(IntError::PosOverflow);
        }
        acc = next;
        i += 1;
    }
    Ok(acc)
}

/// The port number that `s` denotes.
pub fn parse_u16(s: &Vec<char>) -> (r: Result<u16, IntError>)
    ensures
        match r {
            Ok(v) => parse_unsigned(s@, 0xFFFF) == Ok::<nat, IntError>(v as nat),
            Err(e) => parse_unsigned(s@, 0xFFFF) == Err::<nat, IntError>(e),
        },
{
    match parse_bounded(s, 0xFFFF) {
        Ok(v) => Ok(v as u16),
        Err(e) => Err(e),
    }
}

/// The port that `s` denotes, where it is a port number.
pub fn parse_port(s: &Vec<char>) -> (r: Option<u16>)
    ensures
        r == port_of(s@),
{
    match parse_bounded(s, 0xFFFF) {
        Ok(v) => Some(v as u16),
        Err(_) => None,
    }
}

/// The 32-bit number that `s` denotes.
pub fn parse_u32(s: &Vec<char>) -> (r: Result<u32, IntError>)
    ensures
        match r {
            Ok(v) => parse_unsigned(s@, 0xFFFF_FFFF) == Ok::<nat, IntError>(v as nat),
            Err(e) => parse_unsigned(s@, 0xFFFF_FFFF) == Err::<nat, IntError>(e),
        },
{
    match parse_bounded(s, 0xFFFF_FFFF) {
        Ok(v) => Ok(v as u32),
        Err(e) => Err(e),
    }
}

/// Reading digits and then one more digit reads the longer numeral: the
/// value so far is multiplied by ten and the digit is added, unless that
/// exceeds the largest value.
pub proof fn lemma_parse_digits_push(s: Seq<char>, d: nat, acc: nat, max: nat)
    requires
        d < 10,
    ensures
        parse_digits(s.push(digit_char(d)), acc, max) == (match parse_digits(s, acc, max) {
            Ok(v) => if v * 10 + d > max {
                Err(IntError::PosOverflow)
            } else {
                Ok(v * 10 + d)
            },
            Err(e) => Err(e),
        }),
    decreases s.len(),
{
    let t = s.push(digit_char(d));
    if s.len() == 0 {
        assert(t.drop_first() =~= Seq::<char>::empty());
        assert(t[0] == digit_char(d));
        assert(is_digit(digit_char(d)) && digit_value(digit_char(d)) == d);
        assert(parse_digits(t.drop_first(), acc * 10 + d, max) == Ok::<nat, IntError>(
            acc * 10 + d,
        ));
    } else {
        assert(t[0] == s[0]);
        assert(t.drop_first() =~= s.drop_first().push(digit_char(d)));
        if is_digit(s[0]) && acc * 10 + digit_value(s[0]) <= max {
            lemma_parse_digits_push(s.drop_first(), d, acc * 10 + digit_value(s[0]), max);
        }
    }
}

/// A numeral is not empty and begins with a digit.
pub proof fn lemma_decimal_begins_with_digit(n: nat)
    ensures
        decimal(n).len() > 0,
        is_digit(decimal(n)[0]),
    decreases n,
{
    if n >= 10 {
        lemma_decimal_begins_with_digit(n / 10);
    }
}

/// Reading the numeral of a number gives the number back, if it is not
/// above the largest value.
pub proof fn lemma_decimal_parses(n: nat, max: nat)
    requires
        n <= max,
    ensures
        parse_unsigned(decimal(n), max) == Ok::<nat, IntError>(n),
    decreases n,
{
    lemma_decimal_begins_with_digit(n);
    assert(decimal(n)[0] != '+');
    if n < 10 {
        lemma_parse_digits_push(Seq::empty(), n, 0, max);
        assert(Seq::<char>::empty().push(digit_char(n)) =~= decimal(n));
    } else {
        lemma_decimal_parses(n / 10, max);
        lemma_decimal_begins_with_digit(n / 10);
        assert(decimal(n / 10)[0] != '+');
        lemma_parse_digits_push(decimal(n / 10), n % 10, 0, max);
    }
}

} // verus!
