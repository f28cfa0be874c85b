//! Decimal integer text: parsing as `str::parse` does for unsigned types, and
//! rendering as `Display` does for integers.
use vstd::prelude::*;
use crate::text::{chars_of, push_char};

verus! {

/// Why an unsigned integer could not be parsed (the kinds `ParseIntError`
/// reports for unsigned targets).
#[derive(Debug, Clone, Copy, PartialEq, Eq, Structural)]
pub enum IntErrorKind {
    Empty,
    InvalidDigit,
    PosOverflow,
}

impl IntErrorKind {
    /// The message `ParseIntError` displays for this kind.
    pub open spec fn spec_message(self) -> Seq<char> {
        match self {
            IntErrorKind::Empty => "cannot parse integer from empty string"@,
            IntErrorKind::InvalidDigit => "invalid digit found in string"@,
            IntErrorKind::PosOverflow => "number too large to fit in target type"@,
        }
    }

    pub fn message(&self) -> (s: String)
        ensures
            s@ == self.spec_message(),
    {
        match self {
            IntErrorKind::Empty => crate::text::owned("cannot parse integer from empty string"),
            IntErrorKind::InvalidDigit => crate::text::owned("invalid digit found in string"),
            IntErrorKind::PosOverflow => crate::text::owned("number too large to fit in target type"),
        }
    }
}

pub open spec fn is_digit(c: char) -> bool {
    '0' <= c && c <= '9'
}

pub open spec fn digit_val(c: char) -> int {
    (c as int) - ('0' as int)
}

/// Left-to-right accumulation of decimal digits starting from `acc`, failing
/// on the first non-digit or as soon as the value exceeds `max`.
pub open spec fn scan_digits(d: Seq<char>, acc: int, max: int) -> Result<int, IntErrorKind>
    decreases d.len(),
{
    if d.len() == 0 {
        Ok(acc)
    } else if !is_digit(d[0]) {
        Err(IntErrorKind::InvalidDigit)
    } else if acc * 10 + digit_val(d[0]) > max {
        Err(IntErrorKind::PosOverflow)
    } else {
        scan_digits(d.drop_first(), acc * 10 + digit_val(d[0]), max)
    }
}

/// What `str::parse` gives for an unsigned type whose largest value is `max`:
/// an optional leading `+`, then one or more decimal digits.
pub open spec fn parse_unsigned(s: Seq<char>, max: int) -> Result<int, IntErrorKind> {
    if s.len() == 0 {
        Err(IntErrorKind::Empty)
    } else if (s[0] == '+' || s[0] == '-') && s.len() == 1 {
        Err(IntErrorKind::InvalidDigit)
    } else if s[0] == '+' {
        scan_digits(s.drop_first(), 0, max)
    } else {
        scan_digits(s, 0, max)
    }
}

pub proof fn lemma_scan_bounds(d: Seq<char>, acc: int, max: int)
    requires
        0 <= acc <= max,
    ensures
        scan_digits(d, acc, max) matches Ok(v) ==> 0 <= v <= max,
    decreases d.len(),
{
    if d.len() > 0 && is_digit(d[0]) && acc * 10 + digit_val(d[0]) <= max {
        lemma_scan_bounds(d.drop_first(), acc * 10 + digit_val(d[0]), max);
    }
}

fn parse_with_max(s: &str, max: u64) -> (r: Result<u64, IntErrorKind>)
    ensures
        match parse_unsigned(s@, max as int) {
            Ok(v) => r == Ok::<u64, IntErrorKind>(v as u64),
            Err(e) => r == Err::<u64, IntErrorKind>(e),
        },
        r matches Ok(v) ==> v <= max,
        parse_unsigned(s@, max as int) matches Ok(v) ==> 0 <= v <= max,
{
    let v = chars_of(s);
    let n = v.len();
    if n == 0 {
        return Err(IntErrorKind::Empty);
    }
    if (v[0] == '+' || v[0] == '-') && n == 1 {
        return Err(IntErrorKind::InvalidDigit);
    }
    let mut i: usize = if v[0] == '+' { 1 } else { 0 };
    let ghost d = v@.subrange(i as int, n as int);
    proof {
        if v@[0] == '+' {
            assert(d =~= s@.drop_first());
        } else {
            assert(d =~= s@);
        }
        lemma_scan_bounds(d, 0, max as int);
        assert(parse_unsigned(s@, max as int) == scan_digits(d, 0, max as int));
    }
    let mut acc: u128 = 0;
    while i < n
        invariant
            i <= n == v.len(),
            acc <= max,
            parse_unsigned(s@, max as int) == scan_digits(d, 0, max as int),
            scan_digits(d, 0, max as int) == scan_digits(v@.subrange(i as int, n as int), acc as int, max as int),
        decreases n - i,
    {
        let c = v[i];
        let ghost rest = v@.subrange(i as int, n as int);
        assert(rest[0] == c);
        if !('0' <= c && c <= '9') {
            return Err(IntErrorKind::InvalidDigit);
        }
        let dv = (c as u32 - '0' as u32) as u128;
        assert(dv == digit_val(c));
        let next = acc * 10 + dv;
        if next > max as u128 {
            return Err(IntErrorKind::PosOverflow);
        }
        acc = next;
        i = i + 1;
        assert(rest.drop_first() =~= v@.subrange(i as int, n as int));
    }
    assert(v@.subrange(n as int, n as int).len() == 0);
    Ok(acc as u64)
}

/// Whether `s.parse::<i64>()` succeeds, and with what: an optional sign,
/// then one or more decimal digits, within the range of `i64`.
pub open spec fn parsed_i64(s: Seq<char>) -> Option<int> {
    if s.len() >= 2 && s[0] == '-' {
        match scan_digits(s.drop_first(), 0, 0x8000_0000_0000_0000) {
            Ok(v) => Some(-v),
            Err(_) => None,
        }
    } else {
        match parse_unsigned(s, i64::MAX as int) {
            Ok(v) => Some(v),
            Err(_) => None,
        }
    }
}

/// `s.parse::<i64>().ok()`.
pub fn parse_i64(s: &str) -> (r: Option<i64>)
    ensures
        match parsed_i64(s@) {
            Some(v) => r == Some(v as i64) && i64::MIN <= v <= i64::MAX,
            None => r is None,
        },
{
    let v = chars_of(s);
    if v.len() >= 2 && v[0] == '-' {
        if v[1] == '+' {
            proof {
                assert(s@.drop_first()[0] == '+');
            }
            return None;
        }
        let rest = crate::text::string_of(&v, 1, v.len());
        proof {
            assert(rest@ =~= s@.drop_first());
            assert(parse_unsigned(rest@, 0x8000_0000_0000_0000) == scan_digits(rest@, 0, 0x8000_0000_0000_0000));
        }
        match parse_with_max(rest.as_str(), 0x8000_0000_0000_0000) {
            Ok(m) => {
                if m == 0x8000_0000_0000_0000 {
                    Some(i64::MIN)
                } else {
                    Some(-(m as i64))
                }
            },
            Err(_) => None,
        }
    } else {
        match parse_with_max(s, i64::MAX as u64) {
            Ok(m) => Some(m as i64),
            Err(_) => None,
        }
    }
}

/// `s.parse::<u32>()`.
pub fn parse_u32(s: &str) -> (r: Result<u32, IntErrorKind>)
    ensures
        match parse_unsigned(s@, u32::MAX as int) {
            Ok(v) => r == Ok::<u32, IntErrorKind>(v as u32),
            Err(e) => r == Err::<u32, IntErrorKind>(e),
        },
        parse_unsigned(s@, u32::MAX as int) matches Ok(v) ==> 0 <= v <= u32::MAX,
{
    match parse_with_max(s, u32::MAX as u64) {
        Ok(v) => Ok(v as u32),
        Err(e) => Err(e),
    }
}

/// `s.parse::<u64>()`.
pub fn parse_u64(s: &str) -> (r: Result<u64, IntErrorKind>)
    ensures
        match parse_unsigned(s@, u64::MAX as int) {
            Ok(v) => r == Ok::<u64, IntErrorKind>(v as u64),
            Err(e) => r == Err::<u64, IntErrorKind>(e),
        },
        parse_unsigned(s@, u64::MAX as int) matches Ok(v) ==> 0 <= v <= u64::MAX,
{
    parse_with_max(s, u64::MAX)
}

pub open spec fn digit_char(d: nat) -> char {
    (('0' as u32) + (d as u32)) as char
}

/// The decimal representation of `n`, most significant digit first, without
/// leading zeros.
pub open spec fn dec_str(n: nat) -> Seq<char>
    decreases n,
{
    if n < 10 {
        seq![digit_char(n)]
    } else {
        dec_str(n / 10).push(digit_char(n % 10))
    }
}

/// The decimal representation of a signed number, with a leading `-` when
/// negative.
pub open spec fn int_str(n: int) -> Seq<char> {
    if n < 0 {
        seq!['-'] + dec_str((-n) as nat)
    } else {
        dec_str(n as nat)
    }
}

/// Appends the decimal representation of `n`.
pub fn push_u128(s: &mut String, n: u128)
    ensures
        final(s)@ == old(s)@ + dec_str(n as nat),
    decreases n,
{
    if n >= 10 {
        push_u128(s, n / 10);
    }
    let d = (n % 10) as u32;
    let c = char_of_digit(d);
    push_char(s, c);
    proof {
        assert(c == digit_char((n % 10) as nat));
        if n >= 10 {
            assert(dec_str(n as nat) == dec_str((n / 10) as nat).push(digit_char((n % 10) as nat)));
        }
    }
}

fn char_of_digit(d: u32) -> (c: char)
    requires
        d < 10,
    ensures
        c == digit_char(d as nat),
{
    match d {
        0 => '0',
        1 => '1',
        2 => '2',
        3 => '3',
        4 => '4',
        5 => '5',
        6 => '6',
        7 => '7',
        8 => '8',
        _ => '9',
    }
}

/// Appends the decimal representation of a signed number.
pub fn push_i128(s: &mut String, n: i128)
    requires
        n > i128::MIN,
    ensures
        final(s)@ == old(s)@ + int_str(n as int),
{
    if n < 0 {
        push_char(s, '-');
        let m = (-n) as u128;
        push_u128(s, m);
        assert(old(s)@.push('-') + dec_str(m as nat) =~= old(s)@ + (seq!['-'] + dec_str(m as nat)));
    } else {
        push_u128(s, n as u128);
    }
}

} // verus!
