//! Decimal integers as Rust's `FromStr` reads them, and their rendering.
use vstd::prelude::*;
use crate::text::{chars_of, push_char};

verus! {

pub open spec fn is_digit(c: char) -> bool {
    '0' <= c && c <= '9'
}

pub open spec fn all_digits(s: Seq<char>) -> bool {
    forall|i: int| 0 <= i < s.len() ==> is_digit(#[trigger] s[i])
}

pub open spec fn digit_value(c: char) -> nat {
    ((c as u32) - 48) as nat
}

/// The number that a string of decimal digits denotes.
pub open spec fn digits_value(s: Seq<char>) -> nat
    decreases s.len(),
{
    if s.len() == 0 {
        0
    } else {
        digits_value(s.drop_last()) * 10 + digit_value(s.last())
    }
}

/// The digits of an unsigned literal: an optional leading `+` removed.
pub open spec fn unsigned_body(s: Seq<char>) -> Seq<char> {
    if s.len() > 0 && s[0] == '+' {
        s.drop_first()
    } else {
        s
    }
}

/// What `str::parse` gives for an unsigned type of maximum `max`:
/// an optional `+`, then at least one ASCII digit, and a value within range.
pub open spec fn parse_unsigned(s: Seq<char>, max: nat) -> Option<nat> {
    let d = unsigned_body(s);
    if d.len() > 0 && all_digits(d) && digits_value(d) <= max {
        Some(digits_value(d))
    } else {
        None
    }
}

/// What `str::parse::<i32>` gives: an optional sign, then at least one ASCII
/// digit, and a value within `i32`.
pub open spec fn parse_i32_spec(s: Seq<char>) -> Option<int> {
    if s.len() > 0 && s[0] == '-' {
        let d = s.drop_first();
        if d.len() > 0 && all_digits(d) && digits_value(d) <= 0x8000_0000 {
            Some(-(digits_value(d) as int))
        } else {
            None
        }
    } else {
        match parse_unsigned(s, 0x7fff_ffff) {
            Some(v) => Some(v as int),
            None => None,
        }
    }
}

/// Reads `v[lo..]` as decimal digits; `None` unless all are digits and the
/// value is at most `max`.
fn digits_upto(v: &Vec<char>, lo: usize, max: u64) -> (r: Option<u64>)
    requires
        lo <= v@.len(),
    ensures
        ({
            let d = v@.subrange(lo as int, v@.len() as int);
            &&& r is Some <==> (all_digits(d) && digits_value(d) <= max)
            &&& r matches Some(x) ==> x == digits_value(d)
        }),
{
    let n = v.len();
    let mut acc: u64 = 0;
    let mut i = lo;
    let mut over = false;
    while i < n
        invariant
            n == v@.len(),
            lo <= i <= n,
            all_digits(v@.subrange(lo as int, i as int)),
            !over ==> acc == digits_value(v@.subrange(lo as int, i as int)),
            !over ==> acc <= max,
            over ==> digits_value(v@.subrange(lo as int, i as int)) > max,
        decreases n - i,
    {
        let c = v[i];
        if !('0' <= c && c <= '9') {
            assert(!all_digits(v@.subrange(lo as int, v@.len() as int))) by {
                assert(v@.subrange(lo as int, v@.len() as int)[i - lo] == c);
            }
            return None;
        }
        let ghost before = v@.subrange(lo as int, i as int);
        let ghost after = v@.subrange(lo as int, i + 1);
        assert(after.drop_last() =~= before);
        assert(after.last() == c);
        let dv = (c as u32 - 48) as u64;
        assert(digit_value(c) == dv as nat);
        assert(digits_value(after) == digits_value(before) * 10 + dv);
        if !over {
            if dv > max || acc > (max - dv) / 10 {
                over = true;
                assert(digits_value(after) > max) by (nonlinear_arith)
                    requires
                        digits_value(after) == acc * 10 + dv,
                        dv > max || acc > (max - dv) / 10,
                {
                }
            } else {
                assert(acc * 10 + dv <= max) by (nonlinear_arith)
                    requires
                        acc <= (max - dv) / 10,
                        dv <= max,
                {
                }
                acc = acc * 10 + dv;
            }
        } else {
            assert(digits_value(after) >= digits_value(before)) by (nonlinear_arith)
                requires
                    digits_value(after) == digits_value(before) * 10 + dv,
            {
            }
        }
        assert(all_digits(after)) by {
            assert forall|k: int| 0 <= k < after.len() implies is_digit(#[trigger] after[k]) by {
                if k < before.len() {
                    assert(after[k] == before[k]);
                }
            }
        }
        i = i + 1;
    }
    assert(v@.subrange(lo as int, i as int) == v@.subrange(lo as int, v@.len() as int));
    if over {
        None
    } else {
        Some(acc)
    }
}

/// `str::parse` for an unsigned type whose maximum is `max`.
pub fn parse_unsigned_upto(s: &str, max: u64) -> (r: Option<u64>)
    ensures
        match parse_unsigned(s@, max as nat) {
            Some(x) => r == Some(x as u64),
            None => r is None,
        },
{
    let v = chars_of(s);
    let lo: usize = if v.len() > 0 && v[0] == '+' { 1 } else { 0 };
    assert(v@.subrange(lo as int, v@.len() as int) =~= unsigned_body(s@));
    if lo == v.len() {
        return None;
    }
    digits_upto(&v, lo, max)
}

/// `str::parse::<u64>`.
pub fn parse_u64(s: &str) -> (r: Option<u64>)
    ensures
        match parse_unsigned(s@, u64::MAX as nat) {
            Some(x) => r == Some(x as u64),
            None => r is None,
        },
{
    parse_unsigned_upto(s, u64::MAX)
}

/// `str::parse::<u32>`.
pub fn parse_u32(s: &str) -> (r: Option<u32>)
    ensures
        match parse_unsigned(s@, u32::MAX as nat) {
            Some(x) => r == Some(x as u32),
            None => r is None,
        },
{
    match parse_unsigned_upto(s, u32::MAX as u64) {
        Some(x) => Some(x as u32),
        None => None,
    }
}

/// `str::parse::<usize>`.
pub fn parse_usize(s: &str) -> (r: Option<usize>)
    ensures
        match parse_unsigned(s@, usize::MAX as nat) {
            Some(x) => r == Some(x as usize),
            None => r is None,
        },
{
    match parse_unsigned_upto(s, usize::MAX as u64) {
        Some(x) => Some(x as usize),
        None => None,
    }
}

/// `str::parse::<i32>`.
pub fn parse_i32(s: &str) -> (r: Option<i32>)
    ensures
        match parse_i32_spec(s@) {
            Some(x) => r == Some(x as i32),
            None => r is None,
        },
{
    let v = chars_of(s);
    if v.len() > 0 && v[0] == '-' {
        assert(v@.subrange(1, v@.len() as int) =~= s@.drop_first());
        if v.len() == 1 {
            return None;
        }
        match digits_upto(&v, 1, 0x8000_0000) {
            Some(x) => {
                let neg: i64 = 0 - (x as i64);
                Some(neg as i32)
            },
            None => None,
        }
    } else {
        match parse_unsigned_upto(s, 0x7fff_ffff) {
            Some(x) => Some(x as i32),
            None => None,
        }
    }
}

/// The ASCII digit for `d < 10`.
pub open spec fn digit_char(d: nat) -> char {
    (d + 48) as char
}

/// Decimal rendering of `n`, without sign or leading zeros (`u64::to_string`).
pub open spec fn decimal(n: nat) -> Seq<char>
    decreases n,
{
    if n < 10 {
        seq![digit_char(n)]
    } else {
        decimal(n / 10).push(digit_char(n % 10))
    }
}

fn digit_of(d: u64) -> (c: char)
    requires
        d < 10,
    ensures
        c == digit_char(d as nat),
{
    let b: u8 = 48u8 + d as u8;
    b as char
}

/// Renders `n` in decimal.
pub fn to_decimal(n: u64) -> (s: String)
    ensures
        s@ == decimal(n as nat),
    decreases n,
{
    if n < 10 {
        let mut s = String::new();
        push_char(&mut s, digit_of(n));
        assert(s@ =~= seq![digit_char(n as nat)]);
        s
    } else {
        let mut s = to_decimal(n / 10);
        push_char(&mut s, digit_of(n % 10));
        s
    }
}

} // verus!
