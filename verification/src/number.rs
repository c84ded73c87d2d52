//! Numbers written as text: decimal and hexadecimal, in both directions.

use vstd::prelude::*;

use crate::text::chars_of;

verus! {

// ---------------------------------------------------------------------------
// Decimal digits
// ---------------------------------------------------------------------------

/// An ASCII decimal digit.
pub open spec fn is_digit(c: char) -> bool {
    '0' <= c <= '9'
}

/// The value of a decimal digit.
pub open spec fn digit_value(c: char) -> nat {
    (c as u32 - '0' as u32) as nat
}

/// The decimal digit of value `d`, which is below ten.
pub open spec fn digit_char(d: nat) -> char {
    ('0' as u32 + d) as char
}

/// Every character is a decimal digit.
pub open spec fn all_digits(s: Seq<char>) -> bool {
    forall|i: int| 0 <= i < s.len() ==> is_digit(#[trigger] s[i])
}

/// The number that a sequence of decimal digits denotes.
pub open spec fn digits_value(s: Seq<char>) -> nat
    decreases s.len(),
{
    if s.len() == 0 {
        0
    } else {
        10 * digits_value(s.drop_last()) + digit_value(s.last())
    }
}

/// `s` without one leading `+`.
pub open spec fn without_plus(s: Seq<char>) -> Seq<char> {
    if s.len() > 0 && s[0] == '+' {
        s.skip(1)
    } else {
        s
    }
}

/// The unsigned number of at most `max` that `s` writes: an optional `+`, then at least one
/// digit and nothing else.
pub open spec fn parsed_uint(s: Seq<char>, max: nat) -> Option<nat> {
    let t = without_plus(s);
    if t.len() > 0 && all_digits(t) && digits_value(t) <= max {
        Some(digits_value(t))
    } else {
        None
    }
}

/// The number in the range of `i32` that `s` writes: an optional sign, then at least one digit
/// and nothing else.
pub open spec fn parsed_i32(s: Seq<char>) -> Option<int> {
    let negative = s.len() > 0 && s[0] == '-';
    let t = if negative {
        s.skip(1)
    } else {
        without_plus(s)
    };
    let v = if negative {
        -(digits_value(t) as int)
    } else {
        digits_value(t) as int
    };
    if t.len() > 0 && all_digits(t) && i32::MIN <= v <= i32::MAX {
        Some(v)
    } else {
        None
    }
}

/// `n` in decimal, without leading zeros.
pub open spec fn decimal(n: nat) -> Seq<char>
    decreases n,
{
    if n < 10 {
        seq![digit_char(n)]
    } else {
        decimal(n / 10).push(digit_char(n % 10))
    }
}

/// `n` in decimal, with a minus sign where it is negative.
pub open spec fn signed_decimal(n: int) -> Seq<char> {
    if n < 0 {
        seq!['-'] + decimal((-n) as nat)
    } else {
        decimal(n as nat)
    }
}

/// The digits of a number in decimal denote that number.
pub proof fn lemma_decimal(n: nat)
    ensures
        decimal(n).len() > 0,
        all_digits(decimal(n)),
        digits_value(decimal(n)) == n,
    decreases n,
{
    reveal_with_fuel(digits_value, 2);
    if n >= 10 {
        lemma_decimal(n / 10);
        assert(decimal(n).drop_last() == decimal(n / 10));
    } else {
        assert(decimal(n).drop_last() == Seq::<char>::empty());
    }
}

/// Writing an unsigned number in decimal and reading it back gives the number.
pub proof fn law_decimal_round_trip(n: nat, max: nat)
    requires
        n <= max,
    ensures
        parsed_uint(decimal(n), max) == Some(n),
{
    lemma_decimal(n);
    assert(is_digit(decimal(n)[0]));
}

/// Writing an `i32` in decimal and reading it back gives the number.
pub proof fn law_signed_decimal_round_trip(n: i32)
    ensures
        parsed_i32(signed_decimal(n as int)) == Some(n as int),
{
    if n < 0 {
        lemma_decimal((-(n as int)) as nat);
        assert(signed_decimal(n as int).skip(1) == decimal((-(n as int)) as nat));
    } else {
        lemma_decimal(n as nat);
        assert(is_digit(decimal(n as nat)[0]));
    }
}

/// Whether `c` is a decimal digit.
pub fn is_ascii_digit(c: char) -> (r: bool)
    ensures
        r == is_digit(c),
{
    '0' <= c && c <= '9'
}

/// The number denoted by the digits `cs[from..]`, or nothing where one of these is no digit,
/// there is none, or the number is above `max`.
fn read_digits(cs: &Vec<char>, from: usize, max: u64) -> (r: Option<u64>)
    requires
        from <= cs@.len(),
    ensures
        ({
            let t = cs@.skip(from as int);
            match r {
                Some(v) => t.len() > 0 && all_digits(t) && digits_value(t) == v && v <= max,
                None => !(t.len() > 0 && all_digits(t) && digits_value(t) <= max),
            }
        }),
{
    let n = cs.len();
    let ghost t = cs@.skip(from as int);
    if from == n {
        return None;
    }
    let mut v: u128 = 0;
    let mut too_big: bool = false;
    let mut i: usize = from;
    while i < n
        invariant
            from <= i <= n == cs@.len(),
            t == cs@.skip(from as int),
            all_digits(t.take(i - from)),
            !too_big ==> v == digits_value(t.take(i - from)) && v <= max,
            too_big ==> digits_value(t.take(i - from)) > max,
        decreases n - i,
    {
        let c = cs[i];
        if !is_ascii_digit(c) {
            assert(!is_digit(t[i - from]));
            return None;
        }
        assert(t.take(i - from + 1).drop_last() == t.take(i - from));
        assert(t.take(i - from + 1).last() == c);
        assert(all_digits(t.take(i - from + 1))) by {
            assert forall|j: int| 0 <= j < i - from + 1 implies is_digit(
                #[trigger] t.take(i - from + 1)[j],
            ) by {
                if j < i - from {
                    assert(is_digit(t.take(i - from)[j]));
                }
            }
        }
        if !too_big {
            v = v * 10 + (c as u8 - '0' as u8) as u128;
            if v > max as u128 {
                too_big = true;
            }
        }
        i += 1;
    }
    assert(t.take(n - from) == t);
    if too_big {
        None
    } else {
        Some(v as u64)
    }
}

/// `str::parse` for an unsigned type whose largest value is `max`.
pub fn parse_uint(s: &str, max: u64) -> (r: Option<u64>)
    ensures
        match r {
            Some(v) => parsed_uint(s@, max as nat) == Some(v as nat),
            None => parsed_uint(s@, max as nat) is None,
        },
{
    let cs = chars_of(s);
    if cs.len() > 0 && cs[0] == '+' {
        read_digits(&cs, 1, max)
    } else {
        assert(cs@.skip(0) == cs@);
        read_digits(&cs, 0, max)
    }
}

/// `str::parse::<u32>`.
pub fn parse_u32(s: &str) -> (r: Option<u32>)
    ensures
        match r {
            Some(v) => parsed_uint(s@, u32::MAX as nat) == Some(v as nat),
            None => parsed_uint(s@, u32::MAX as nat) is None,
        },
{
    match parse_uint(s, u32::MAX as u64) {
        Some(v) => Some(v as u32),
        None => None,
    }
}

/// `str::parse::<u8>`.
pub fn parse_u8(s: &str) -> (r: Option<u8>)
    ensures
        match r {
            Some(v) => parsed_uint(s@, u8::MAX as nat) == Some(v as nat),
            None => parsed_uint(s@, u8::MAX as nat) is None,
        },
{
    match parse_uint(s, u8::MAX as u64) {
        Some(v) => Some(v as u8),
        None => None,
    }
}

/// `str::parse::<i32>`.
pub fn parse_i32(s: &str) -> (r: Option<i32>)
    ensures
        match r {
            Some(v) => parsed_i32(s@) == Some(v as int),
            None => parsed_i32(s@) is None,
        },
{
    let cs = chars_of(s);
    if cs.len() > 0 && cs[0] == '-' {
        match read_digits(&cs, 1, 2147483648) {
            Some(v) => Some((-(v as i64)) as i32),
            None => None,
        }
    } else {
        match parse_uint(s, 2147483647) {
            Some(v) => Some(v as i32),
            None => None,
        }
    }
}

/// Appends `n` in decimal to `out`.
pub fn push_decimal(out: &mut String, n: u64)
    ensures
        final(out)@ == old(out)@ + decimal(n as nat),
{
    push_wide_decimal(out, n as u128);
}

/// Appends `n` in decimal to `out`.
pub fn push_wide_decimal(out: &mut String, n: u128)
    ensures
        final(out)@ == old(out)@ + decimal(n as nat),
    decreases n,
{
    if n >= 10 {
        push_wide_decimal(out, n / 10);
    }
    let ghost so_far = out@;
    let c: char = ('0' as u8 + (n % 10) as u8) as char;
    out.push(c);
    assert(out@ == old(out)@ + decimal(n as nat)) by {
        if n < 10 {
            assert(so_far.push(c) == so_far + seq![c]);
        } else {
            assert((old(out)@ + decimal((n / 10) as nat)).push(c) == old(out)@ + decimal(
                (n / 10) as nat,
            ).push(c));
        }
    }
}

/// `n` in decimal.
pub fn decimal_text(n: u64) -> (r: String)
    ensures
        r@ == decimal(n as nat),
{
    let mut r = String::new();
    push_decimal(&mut r, n);
    assert(Seq::<char>::empty() + decimal(n as nat) == decimal(n as nat));
    r
}

/// `n` in decimal, with its sign.
pub fn signed_text(n: i64) -> (r: String)
    requires
        n > i64::MIN,
    ensures
        r@ == signed_decimal(n as int),
{
    if n < 0 {
        let mut r = String::new();
        r.push('-');
        assert(r@ == seq!['-']);
        push_decimal(&mut r, (-n) as u64);
        r
    } else {
        decimal_text(n as u64)
    }
}

// ---------------------------------------------------------------------------
// Hexadecimal digits
// ---------------------------------------------------------------------------

/// An ASCII hexadecimal digit, in either case.
pub open spec fn is_hex(c: char) -> bool {
    is_digit(c) || 'a' <= c <= 'f' || 'A' <= c <= 'F'
}

/// Every character is a hexadecimal digit.
pub open spec fn all_hex(s: Seq<char>) -> bool {
    forall|i: int| 0 <= i < s.len() ==> is_hex(#[trigger] s[i])
}

/// The value of a hexadecimal digit.
pub open spec fn hex_value(c: char) -> nat {
    if is_digit(c) {
        digit_value(c)
    } else if 'a' <= c <= 'f' {
        (c as u32 - 'a' as u32 + 10) as nat
    } else {
        (c as u32 - 'A' as u32 + 10) as nat
    }
}

/// The lower-case hexadecimal digit of value `d`, which is below sixteen.
pub open spec fn hex_lower(d: nat) -> char {
    if d < 10 {
        digit_char(d)
    } else {
        ('a' as u32 + (d - 10)) as char
    }
}

/// The upper-case hexadecimal digit of value `d`, which is below sixteen.
pub open spec fn hex_upper(d: nat) -> char {
    if d < 10 {
        digit_char(d)
    } else {
        ('A' as u32 + (d - 10)) as char
    }
}

/// `n` in lower-case hexadecimal, without leading zeros.
pub open spec fn hexadecimal(n: nat) -> Seq<char>
    decreases n,
{
    if n < 16 {
        seq![hex_lower(n)]
    } else {
        hexadecimal(n / 16).push(hex_lower(n % 16))
    }
}

/// Whether `c` is a hexadecimal digit.
pub fn is_ascii_hexdigit(c: char) -> (r: bool)
    ensures
        r == is_hex(c),
{
    is_ascii_digit(c) || ('a' <= c && c <= 'f') || ('A' <= c && c <= 'F')
}

/// The value of a hexadecimal digit.
pub fn hex_digit(c: char) -> (r: u8)
    requires
        is_hex(c),
    ensures
        r == hex_value(c),
        r < 16,
{
    if is_ascii_digit(c) {
        c as u8 - '0' as u8
    } else if 'a' <= c && c <= 'f' {
        c as u8 - 'a' as u8 + 10
    } else {
        c as u8 - 'A' as u8 + 10
    }
}

/// The upper-case hexadecimal digit of value `d`.
pub fn upper_hex_digit(d: u8) -> (r: char)
    requires
        d < 16,
    ensures
        r == hex_upper(d as nat),
{
    if d < 10 {
        ('0' as u8 + d) as char
    } else {
        ('A' as u8 + (d - 10)) as char
    }
}

/// The lower-case hexadecimal digit of value `d`.
pub fn lower_hex_digit(d: u8) -> (r: char)
    requires
        d < 16,
    ensures
        r == hex_lower(d as nat),
{
    if d < 10 {
        ('0' as u8 + d) as char
    } else {
        ('a' as u8 + (d - 10)) as char
    }
}

/// Appends `n` in lower-case hexadecimal to `out`.
pub fn push_hexadecimal(out: &mut String, n: u64)
    ensures
        final(out)@ == old(out)@ + hexadecimal(n as nat),
    decreases n,
{
    if n >= 16 {
        push_hexadecimal(out, n / 16);
    }
    let ghost so_far = out@;
    let c: char = lower_hex_digit((n % 16) as u8);
    out.push(c);
    assert(out@ == old(out)@ + hexadecimal(n as nat)) by {
        if n < 16 {
            assert(so_far.push(c) == so_far + seq![c]);
        } else {
            assert((old(out)@ + hexadecimal((n / 16) as nat)).push(c) == old(out)@ + hexadecimal(
                (n / 16) as nat,
            ).push(c));
        }
    }
}

} // verus!
