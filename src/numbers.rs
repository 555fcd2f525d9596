//! Decimal integers as Rust's `str::parse` reads them: an optional sign, then
//! one or more ASCII digits, and a value that fits the target type.
use vstd::prelude::*;

verus! {

pub open spec fn is_digit(c: char) -> bool {
    '0' <= c && c <= '9'
}

pub open spec fn all_digits(s: Seq<char>) -> bool {
    forall|j: int| 0 <= j < s.len() ==> is_digit(#[trigger] s[j])
}

/// The value of a string of digits.
pub open spec fn digits_value(s: Seq<char>) -> int
    decreases s.len(),
{
    if s.len() == 0 {
        0
    } else {
        digits_value(s.drop_last()) * 10 + (s.last() as int - '0' as int)
    }
}

/// The digits of `s` as a number when they form one of at most `max`.
pub open spec fn digits_of(s: Seq<char>, max: int) -> Option<int> {
    if s.len() > 0 && all_digits(s) && digits_value(s) <= max {
        Some(digits_value(s))
    } else {
        None
    }
}

/// An unsigned number: an optional `+`, then digits, at most `max`.
pub open spec fn unsigned_of(s: Seq<char>, max: int) -> Option<int> {
    if s.len() > 0 && s[0] == '+' {
        digits_of(s.skip(1), max)
    } else {
        digits_of(s, max)
    }
}

/// A signed number: `-` and digits down to `min`, or an unsigned number up to
/// `max`.
pub open spec fn signed_of(s: Seq<char>, min: int, max: int) -> Option<int> {
    if s.len() > 0 && s[0] == '-' {
        match digits_of(s.skip(1), -min) {
            Some(v) => Some(-v),
            None => None,
        }
    } else {
        unsigned_of(s, max)
    }
}

proof fn lemma_digits_nonneg(s: Seq<char>)
    requires
        all_digits(s),
    ensures
        digits_value(s) >= 0,
    decreases s.len(),
{
    if s.len() > 0 {
        lemma_digits_nonneg(s.drop_last());
    }
}

/// Reads the digits of `s` from index `start` on as a number of at most `max`.
fn digits_from(s: &str, start: usize, max: u64) -> (r: Option<u64>)
    requires
        start <= s@.len(),
        max >= 9,
    ensures
        match r {
            Some(v) => digits_of(s@.skip(start as int), max as int) == Some(v as int),
            None => digits_of(s@.skip(start as int), max as int) is None,
        },
{
    let ghost body = s@.skip(start as int);
    let n = s.unicode_len();
    if n == start {
        return None;
    }
    let mut acc: u64 = 0;
    let mut over = false;
    let mut k: usize = start;
    while k < n
        invariant
            n == s@.len(),
            start <= k <= n,
            body == s@.skip(start as int),
            all_digits(body.take(k - start)),
            !over ==> acc as int == digits_value(body.take(k - start)) && acc <= max,
            over ==> digits_value(body.take(k - start)) > max,
            max >= 9,
        decreases n - k,
    {
        let c = s.get_char(k);
        let ghost pre = body.take(k - start);
        let ghost next = body.take(k + 1 - start);
        assert(next.drop_last() =~= pre);
        assert(next.last() == c);
        if !('0' <= c && c <= '9') {
            assert(!is_digit(body[k - start]));
            return None;
        }
        assert(all_digits(next));
        let d = (c as u32 - '0' as u32) as u64;
        proof {
            lemma_digits_nonneg(pre);
        }
        if over {
            assert(digits_value(next) > max) by (nonlinear_arith)
                requires
                    digits_value(next) == digits_value(pre) * 10 + d,
                    digits_value(pre) > max,
                    max >= 9,
                    d >= 0,
            ;
        } else if acc > (max - d) / 10 {
            over = true;
            assert(digits_value(next) > max) by (nonlinear_arith)
                requires
                    digits_value(next) == acc * 10 + d,
                    acc > (max - d) / 10,
                    d <= 9,
                    max >= 9,
            ;
        } else {
            assert(acc * 10 + d <= max) by (nonlinear_arith)
                requires
                    acc <= (max - d) / 10,
                    d <= 9,
                    max >= 9,
            ;
            acc = acc * 10 + d;
        }
        k = k + 1;
    }
    assert(body.take(n - start) =~= body);
    if over {
        None
    } else {
        Some(acc)
    }
}

/// Parses an unsigned number of at most `max`, as `str::parse` does for an
/// unsigned integer type whose largest value is `max`.
pub fn parse_unsigned(s: &str, max: u64) -> (r: Option<u64>)
    requires
        max >= 9,
    ensures
        match r {
            Some(v) => unsigned_of(s@, max as int) == Some(v as int),
            None => unsigned_of(s@, max as int) is None,
        },
{
    let n = s.unicode_len();
    if n > 0 && s.get_char(0) == '+' {
        digits_from(s, 1, max)
    } else {
        assert(s@.skip(0) =~= s@);
        digits_from(s, 0, max)
    }
}

/// Parses a number as `str::parse::<i8>` does.
pub fn parse_i8(s: &str) -> (r: Option<i8>)
    ensures
        match r {
            Some(v) => signed_of(s@, -128, 127) == Some(v as int),
            None => signed_of(s@, -128, 127) is None,
        },
{
    let n = s.unicode_len();
    if n > 0 && s.get_char(0) == '-' {
        match digits_from(s, 1, 128) {
            Some(v) => Some((0 - v as i16) as i8),
            None => None,
        }
    } else {
        match parse_unsigned(s, 127) {
            Some(v) => Some(v as i8),
            None => None,
        }
    }
}

/// A number read as `str::parse::<u32>`, or 0 where it cannot be read.
pub open spec fn u32_or_zero(t: Option<Seq<char>>) -> u32 {
    match t {
        Some(s) => match unsigned_of(s, u32::MAX as int) {
            Some(v) => v as u32,
            None => 0,
        },
        None => 0,
    }
}

/// A number read as `str::parse::<u8>`, or 0 where it cannot be read.
pub open spec fn u8_or_zero(t: Option<Seq<char>>) -> u8 {
    match t {
        Some(s) => match unsigned_of(s, u8::MAX as int) {
            Some(v) => v as u8,
            None => 0,
        },
        None => 0,
    }
}

/// A number read as `str::parse::<i8>`, or -1 where it cannot be read.
pub open spec fn i8_or_unset(t: Option<Seq<char>>) -> i8 {
    match t {
        Some(s) => match signed_of(s, -128, 127) {
            Some(v) => v as i8,
            None => -1i8,
        },
        None => -1i8,
    }
}

/// A number read as `str::parse::<u64>`, or 0 where it cannot be read.
pub open spec fn u64_or_zero(s: Seq<char>) -> u64 {
    match unsigned_of(s, u64::MAX as int) {
        Some(v) => v as u64,
        None => 0,
    }
}

pub fn read_u32(t: &Option<String>) -> (r: u32)
    ensures
        r == u32_or_zero(crate::xml::opt_view(*t)),
{
    match t {
        Some(s) => match parse_unsigned(s.as_str(), 4294967295) {
            Some(v) => v as u32,
            None => 0,
        },
        None => 0,
    }
}

pub fn read_u8(t: &Option<String>) -> (r: u8)
    ensures
        r == u8_or_zero(crate::xml::opt_view(*t)),
{
    match t {
        Some(s) => match parse_unsigned(s.as_str(), 255) {
            Some(v) => v as u8,
            None => 0,
        },
        None => 0,
    }
}

pub fn read_i8(t: &Option<String>) -> (r: i8)
    ensures
        r == i8_or_unset(crate::xml::opt_view(*t)),
{
    match t {
        Some(s) => match parse_i8(s.as_str()) {
            Some(v) => v,
            None => -1,
        },
        None => -1,
    }
}

pub fn read_u64(s: &str) -> (r: u64)
    ensures
        r == u64_or_zero(s@),
{
    match parse_unsigned(s, 18446744073709551615) {
        Some(v) => v,
        None => 0,
    }
}

} // verus!
