//! Double-precision arithmetic as far as the displays need it, in integers: a number is a multiple
//! of a power of two, and every operation rounds to the nearest number with 53 bits.

use vstd::prelude::*;

use crate::big::{
    big_at_most, big_half, big_minus, big_of, big_plus, big_small, big_times, big_value, is_big,
    lemma_big_bound, lemma_high_push, lemma_pow10_positive, pow10,
};
use crate::number::{decimal, digit_char, push_decimal};

verus! {

/// The integer nearest to `n / d`; of two equally near, the even one.
pub open spec fn half_even(n: nat, d: nat) -> nat {
    if 2 * (n % d) > d || (2 * (n % d) == d && (n / d) % 2 == 1) {
        n / d + 1
    } else {
        n / d
    }
}

/// The distance between neighbouring double-precision numbers at `n`, from one on.
pub open spec fn granule(n: nat) -> nat
    decreases n,
{
    if n < 0x20_0000_0000_0000 {
        1
    } else {
        2 * granule(n / 2)
    }
}

/// The double-precision number nearest to `n`, an integer.
pub open spec fn double_of(n: nat) -> nat {
    half_even(n, granule(n)) * granule(n)
}

/// Rounds `n / d` to the nearest integer, and to the even one of two.
pub fn round_half_even(n: u128, d: u128) -> (r: u128)
    requires
        0 < d < 0x4000_0000_0000_0000_0000_0000_0000_0000,
        n < 0x8000_0000_0000_0000_0000_0000_0000_0000,
    ensures
        r == half_even(n as nat, d as nat),
        r <= n / d + 1,
{
    let q: u128 = n / d;
    let m: u128 = n % d;
    assert(q <= n) by (nonlinear_arith)
        requires
            q == n / d,
            d > 0,
    ;
    if 2 * m > d || (2 * m == d && q % 2 == 1) {
        q + 1
    } else {
        q
    }
}

pub proof fn lemma_granule_scale(g: nat, m: nat)
    ensures
        g * granule(m) == (2 * g) * granule(m / 2) || m < 0x20_0000_0000_0000,
{
    if m >= 0x20_0000_0000_0000 {
        assert(g * (2 * granule(m / 2)) == (2 * g) * granule(m / 2)) by (nonlinear_arith);
    }
}

/// The double-precision number nearest to `n`.
pub fn to_double(n: u64) -> (r: u128)
    ensures
        r == double_of(n as nat),
        r <= n + 0x1000,
{
    let mut g: u64 = 1;
    let mut m: u64 = n;
    while m >= 0x20_0000_0000_0000
        invariant
            granule(n as nat) == g * granule(m as nat),
            1 <= g <= 0xffe,
            g * m <= n,
            n <= u64::MAX,
        decreases m,
    {
        proof {
            lemma_granule_scale(g as nat, m as nat);
            assert(g <= 0x7ff) by (nonlinear_arith)
                requires
                    g * m <= 0xffff_ffff_ffff_ffff,
                    m >= 0x20_0000_0000_0000,
            ;
            assert((2 * g) * (m / 2) <= g * m) by (nonlinear_arith)
                requires
                    m >= 0,
                    g >= 0,
            ;
        }
        g = g * 2;
        m = m / 2;
    }
    assert(granule(m as nat) == 1);
    assert(granule(n as nat) == g) by (nonlinear_arith)
        requires
            granule(n as nat) == g * granule(m as nat),
            granule(m as nat) == 1,
    ;
    let q: u128 = round_half_even(n as u128, g as u128);
    proof {
        assert(q * g <= n + g) by (nonlinear_arith)
            requires
                q <= n / (g as u64) + 1,
                g >= 1,
        ;
    }
    q * g as u128
}

/// The least power of two by which `a / b` has 53 bits before the point.
pub open spec fn quotient_scale(a: nat, b: nat) -> nat
    decreases b * 0x20_0000_0000_0000 - a,
{
    if a == 0 || a >= b * 0x10_0000_0000_0000 {
        1
    } else {
        2 * quotient_scale(2 * a, b)
    }
}

/// The double-precision number nearest to `a / b`, for `a` up to `b`, in parts of
/// `1 / quotient_scale(a, b)`.
pub open spec fn quotient(a: nat, b: nat) -> nat {
    half_even(a * quotient_scale(a, b), b)
}

/// The tenths nearest to the percentage that `part` is of `whole`, each step of the calculation
/// in double precision: both numbers, their quotient, and its product with 100.
pub open spec fn percent_tenths(part: nat, whole: nat) -> nat {
    let a = double_of(part);
    let b = double_of(whole);
    half_even(double_of(quotient(a, b) * 100) * 10, quotient_scale(a, b))
}

/// The percentage that `part` is of `whole`, with one decimal.
pub open spec fn percent_text(part: nat, whole: nat) -> Seq<char> {
    let t = percent_tenths(part, whole);
    decimal(t / 10) + seq!['.', digit_char(t % 10), '%']
}

/// Adds the percentage that `part` is of `whole`.
pub fn push_percent(out: &mut String, part: u64, whole: u64)
    requires
        part <= whole,
        whole > 0,
    ensures
        final(out)@ == old(out)@ + percent_text(part as nat, whole as nat),
{
    let a: u128 = to_double(part);
    let b: u128 = to_double(whole);
    proof {
        lemma_double_order(part as nat, whole as nat);
        lemma_double_order(1, whole as nat);
        lemma_double_of_small(1);
    }
    let mut scale: u128 = 1;
    let mut n: u128 = a;
    let ghost full = (b * 0x10_0000_0000_0000) as nat;
    while n != 0 && n < b * 0x10_0000_0000_0000
        invariant
            0 < b <= 0x1_0000_0000_0000_1000,
            a <= b,
            n == a * scale,
            full == b * 0x10_0000_0000_0000,
            n < 2 * full,
            scale >= 1,
            quotient_scale(a as nat, b as nat) == scale * quotient_scale(n as nat, b as nat),
            a > 0 ==> scale <= n,
            a == 0 ==> n == 0 && scale == 1,
        decreases 2 * full - n,
    {
        proof {
            let rest = quotient_scale((2 * n) as nat, b as nat);
            assert(scale * (2 * rest) == (2 * scale) * rest) by (nonlinear_arith);
            assert((a * scale) * 2 == a * (scale * 2)) by (nonlinear_arith);
        }
        n = n * 2;
        scale = scale * 2;
    }
    assert(quotient_scale(n as nat, b as nat) == 1);
    assert(quotient_scale(a as nat, b as nat) == scale) by (nonlinear_arith)
        requires
            quotient_scale(a as nat, b as nat) == scale * quotient_scale(n as nat, b as nat),
            quotient_scale(n as nat, b as nat) == 1,
    ;
    let q: u128 = round_half_even(n, b);
    proof {
        assert(q <= 0x20_0000_0000_0000) by {
            lemma_half_even_at_most(n as nat, b as nat, 0x20_0000_0000_0000);
        }
    }
    let p: u128 = to_double((q * 100) as u64);
    let t: u128 = round_half_even(p * 10, scale);
    proof {
        assert(p * 10 <= (p * 10) * scale) by (nonlinear_arith)
            requires
                scale >= 1,
        ;
        lemma_half_even_at_most((p * 10) as nat, scale as nat, (p * 10) as nat);
    }
    assert(q == quotient(a as nat, b as nat));
    assert(p == double_of(quotient(a as nat, b as nat) * 100));
    assert(t == percent_tenths(part as nat, whole as nat));
    push_decimal(out, (t / 10) as u64);
    out.push('.');
    out.push(('0' as u8 + (t % 10) as u8) as char);
    out.push('%');
    assert(out@ == old(out)@ + percent_text(part as nat, whole as nat));
}

/// A number up to `c * d` comes to at most `c`.
proof fn lemma_half_even_at_most(n: nat, d: nat, c: nat)
    requires
        d > 0,
        n <= c * d,
    ensures
        half_even(n, d) <= c,
{
    assert(n / d < c || (n / d == c && n % d == 0)) by (nonlinear_arith)
        requires
            d > 0,
            n <= c * d,
    ;
}

/// A number from `c * d` on comes to at least `c`.
proof fn lemma_half_even_at_least(n: nat, d: nat, c: nat)
    requires
        d > 0,
        n >= c * d,
    ensures
        half_even(n, d) >= c,
{
    assert(n / d >= c) by (nonlinear_arith)
        requires
            d > 0,
            n >= c * d,
    ;
}

proof fn lemma_half_even_order(x: nat, y: nat, d: nat)
    requires
        d > 0,
        x <= y,
    ensures
        half_even(x, d) <= half_even(y, d),
{
    assert(x / d <= y / d) by (nonlinear_arith)
        requires
            d > 0,
            x <= y,
    ;
    if x / d == y / d {
        vstd::arithmetic::div_mod::lemma_fundamental_div_mod(x as int, d as int);
        vstd::arithmetic::div_mod::lemma_fundamental_div_mod(y as int, d as int);
    }
}

pub proof fn lemma_granule_bounds(n: nat)
    ensures
        granule(n) >= 1,
        n < 0x20_0000_0000_0000 * granule(n),
        granule(n) > 1 ==> n >= 0x10_0000_0000_0000 * granule(n),
    decreases n,
{
    if n >= 0x20_0000_0000_0000 {
        lemma_granule_bounds(n / 2);
    }
}

/// The granule of a larger number is the same or a multiple.
proof fn lemma_granule_order(x: nat, y: nat) -> (k: nat)
    requires
        x <= y,
    ensures
        granule(y) == k * granule(x),
        k == 1 || k >= 2,
    decreases y,
{
    lemma_granule_bounds(y);
    if x < 0x20_0000_0000_0000 {
        let k = granule(y);
        assert(k * 1 == k) by (nonlinear_arith);
        k
    } else {
        let k = lemma_granule_order(x / 2, y / 2);
        assert(2 * (k * granule(x / 2)) == k * (2 * granule(x / 2))) by (nonlinear_arith);
        k
    }
}

proof fn lemma_double_order(x: nat, y: nat)
    requires
        x <= y,
    ensures
        double_of(x) <= double_of(y),
{
    let g = granule(x);
    let h = granule(y);
    lemma_granule_bounds(x);
    lemma_granule_bounds(y);
    let k = lemma_granule_order(x, y);
    if k == 1 {
        lemma_half_even_order(x, y, g);
        let p = half_even(x, g);
        let q = half_even(y, g);
        assert(p * g <= q * g) by (nonlinear_arith)
            requires
                p <= q,
        ;
    } else {
        let c: nat = 0x10_0000_0000_0000;
        assert(h >= 2 * g) by (nonlinear_arith)
            requires
                h == k * g,
                k >= 2,
        ;
        assert(x <= (c * k) * g) by (nonlinear_arith)
            requires
                x < 2 * c * g,
                k >= 2,
        ;
        lemma_half_even_at_most(x, g, c * k);
        lemma_half_even_at_least(y, h, c);
        let p = half_even(x, g);
        let q = half_even(y, h);
        assert(p * g <= q * h) by (nonlinear_arith)
            requires
                p <= c * k,
                q >= c,
                h == k * g,
        ;
    }
}

/// The smallest numbers are kept as they are.
proof fn lemma_double_of_small(n: nat)
    requires
        n < 0x20_0000_0000_0000,
    ensures
        double_of(n) == n,
{
    let k = half_even(n, 1);
    assert(k * 1 == k) by (nonlinear_arith);
    assert(n % 1 == 0 && n / 1 == n) by (nonlinear_arith);
}

/// The scale is a multiple of 128 where `a` is no more than `b`.
proof fn lemma_scale_factor(a: nat, b: nat)
    requires
        0 < a <= b,
    ensures
        quotient_scale(a, b) % 128 == 0,
        quotient_scale(a, b) > 0,
{
    reveal_with_fuel(quotient_scale, 8);
    lemma_scale_bounds(128 * a, b);
    assert(quotient_scale(a, b) == 128 * quotient_scale(128 * a, b));
}

/// The scaled quotient has 53 bits.
proof fn lemma_scale_bounds(a: nat, b: nat)
    requires
        0 < a < b * 0x20_0000_0000_0000,
    ensures
        quotient_scale(a, b) > 0,
        a * quotient_scale(a, b) < b * 0x20_0000_0000_0000,
    decreases b * 0x20_0000_0000_0000 - a,
{
    if a < b * 0x10_0000_0000_0000 {
        lemma_scale_bounds(2 * a, b);
        let rest = quotient_scale(2 * a, b);
        assert(a * (2 * rest) == (2 * a) * rest) by (nonlinear_arith);
    } else {
        assert(a * 1 == a) by (nonlinear_arith);
    }
}

/// The granule of a number below `2^60` divides 128.
proof fn lemma_small_granule(n: nat)
    requires
        n < 0x1000_0000_0000_0000,
    ensures
        granule(n) >= 1,
        128nat % granule(n) == 0,
{
    reveal_with_fuel(granule, 8);
    let g = granule(n);
    assert(n / 128 < 0x20_0000_0000_0000);
    assert(n / 2 / 2 / 2 / 2 / 2 / 2 / 2 == n / 128);
    assert(128nat % g == 0) by (nonlinear_arith)
        requires
            g == 1 || g == 2 || g == 4 || g == 8 || g == 16 || g == 32 || g == 64 || g == 128,
    ;
}

/// A part is at most 100.0% of the whole.
pub proof fn law_percent_at_most_100(part: nat, whole: nat)
    requires
        part <= whole,
        whole > 0,
    ensures
        percent_tenths(part, whole) <= 1000,
{
    let a = double_of(part);
    let b = double_of(whole);
    lemma_double_order(part, whole);
    lemma_double_of_small(1);
    lemma_double_order(1, whole);
    let s = quotient_scale(a, b);
    if a == 0 {
        assert(a * s == 0) by (nonlinear_arith)
            requires
                a == 0,
        ;
        lemma_half_even_at_most(0, b, 0);
        lemma_double_of_small(0);
        lemma_half_even_at_most(0, s, 0);
    } else {
        lemma_percent_of_some(a, b);
    }
}

proof fn lemma_percent_of_some(a: nat, b: nat)
    requires
        0 < a <= b,
    ensures
        half_even(double_of(quotient(a, b) * 100) * 10, quotient_scale(a, b)) <= 1000,
{
    let s = quotient_scale(a, b);
    let q = quotient(a, b);
    lemma_scale_bounds(a, b);
    lemma_scale_factor(a, b);
    assert(a * s <= s * b) by (nonlinear_arith)
        requires
            a <= b,
    ;
    lemma_half_even_at_most(a * s, b, s);
    lemma_half_even_at_most(a * s, b, 0x20_0000_0000_0000);
    let n = q * 100;
    let g = granule(n);
    lemma_small_granule(n);
    let j = s / 128 * (128nat / g);
    assert(s == j * g) by (nonlinear_arith)
        requires
            j == s / 128 * (128nat / g),
            s % 128 == 0,
            128nat % g == 0,
            g >= 1,
    ;
    assert(n <= (100 * j) * g) by (nonlinear_arith)
        requires
            n == q * 100,
            q <= s,
            s == j * g,
    ;
    lemma_half_even_at_most(n, g, 100 * j);
    let c = half_even(n, g);
    assert(c * g * 10 <= 1000 * s) by (nonlinear_arith)
        requires
            c <= 100 * j,
            s == j * g,
    ;
    lemma_half_even_at_most(double_of(n) * 10, s, 1000);
}

// ---------------------------------------------------------------------------
// Numbers of any size
// ---------------------------------------------------------------------------

/// Two to the power of `k`.
pub open spec fn two_to(k: nat) -> nat
    decreases k,
{
    if k == 0 {
        1
    } else {
        2 * two_to((k - 1) as nat)
    }
}

/// The double-precision number nearest to `n / d`, in parts of `1 / quotient_scale(n, d)`. It has
/// 53 bits however small it is; the fewer bits of the very smallest numbers make no difference
/// to the integer nearest to them.
pub open spec fn nearest(n: nat, d: nat) -> nat {
    let s = quotient_scale(n, d);
    let g = granule(n * s / d);
    half_even(n * s, d * g) * g
}

/// The double-precision number nearest to `n / d` is an infinity.
pub open spec fn is_beyond(n: nat, d: nat) -> bool {
    nearest(n, d) >= two_to(1024) * quotient_scale(n, d)
}

/// The integer nearest to the double-precision number nearest to `n / d`.
pub open spec fn nearest_integer(n: nat, d: nat) -> nat {
    half_even(nearest(n, d), quotient_scale(n, d))
}

/// What the bits that were shifted out denote, the lowest one first.
spec fn bits_value(b: Seq<bool>) -> nat
    decreases b.len(),
{
    if b.len() == 0 {
        0
    } else {
        bits_value(b.drop_last()) + (if b.last() {
            two_to((b.len() - 1) as nat)
        } else {
            0
        })
    }
}

pub proof fn lemma_two_to_positive(k: nat)
    ensures
        two_to(k) > 0,
    decreases k,
{
    if k > 0 {
        lemma_two_to_positive((k - 1) as nat);
    }
}

proof fn lemma_bits_bound(b: Seq<bool>)
    ensures
        bits_value(b) < two_to(b.len()),
    decreases b.len(),
{
    if b.len() > 0 {
        lemma_bits_bound(b.drop_last());
    }
}

/// Whether some bit but the last is set.
fn any_but_last(b: &Vec<bool>) -> (r: bool)
    requires
        b@.len() > 0,
    ensures
        r == (bits_value(b@.drop_last()) > 0),
{
    let n = b.len() - 1;
    let ghost t = b@.drop_last();
    let mut i: usize = 0;
    assert(t.take(0) == Seq::<bool>::empty());
    while i < n
        invariant
            i <= n,
            n == t.len(),
            n < b@.len(),
            t == b@.drop_last(),
            bits_value(t.take(i as int)) == 0,
        decreases n - i,
    {
        assert(t.take(i + 1).drop_last() == t.take(i as int));
        assert(t.take(i + 1).last() == b@[i as int]);
        if b[i] {
            proof {
                lemma_two_to_positive(i as nat);
                lemma_bits_grow(t, i + 1);
            }
            return true;
        }
        i += 1;
    }
    assert(t.take(i as int) == t);
    false
}

proof fn lemma_bits_grow(t: Seq<bool>, i: int)
    requires
        0 <= i <= t.len(),
    ensures
        bits_value(t.take(i)) <= bits_value(t),
    decreases t.len() - i,
{
    if i < t.len() {
        lemma_bits_grow(t, i + 1);
        assert(t.take(i + 1).drop_last() == t.take(i));
    } else {
        assert(t.take(i) == t);
    }
}

/// How `n / d` rounds to a multiple of `g`, by the bits between: `n / d` is `q * g` and the bits
/// and a remainder `r / d` below one.
proof fn lemma_round_bits(n: nat, d: nat, q: nat, bits: Seq<bool>, r: nat)
    requires
        d > 0,
        r < d,
        bits.len() > 0,
        n == (q * two_to(bits.len()) + bits_value(bits)) * d + r,
    ensures
        half_even(n, d * two_to(bits.len())) == (if bits.last() && (bits_value(bits.drop_last())
            > 0 || r > 0 || q % 2 == 1) {
            q + 1
        } else {
            q
        }),
{
    let g = two_to(bits.len());
    let h = two_to((bits.len() - 1) as nat);
    let low = bits_value(bits.drop_last());
    let b: nat = if bits.last() {
        1
    } else {
        0
    };
    lemma_two_to_positive(bits.len());
    lemma_two_to_positive((bits.len() - 1) as nat);
    lemma_bits_bound(bits.drop_last());
    assert(bits.drop_last().len() == bits.len() - 1);
    let m = (b * h + low) * d + r;
    assert(b * h == (if bits.last() {
        h
    } else {
        0
    })) by {
        assert(1 * h == h) by (nonlinear_arith);
        assert(0 * h == 0) by (nonlinear_arith);
    }
    let e = d * g;
    assert(e > 0) by (nonlinear_arith)
        requires
            d > 0,
            g > 0,
            e == d * g,
    ;
    assert(n == q * e + m) by (nonlinear_arith)
        requires
            n == (q * g + (b * h + low)) * d + r,
            m == (b * h + low) * d + r,
            e == d * g,
    ;
    assert(low * d + r < h * d) by (nonlinear_arith)
        requires
            low + 1 <= h,
            r < d,
    ;
    assert(e == 2 * (h * d)) by (nonlinear_arith)
        requires
            e == d * g,
            g == 2 * h,
    ;
    assert(m == b * (h * d) + (low * d + r)) by (nonlinear_arith)
        requires
            m == (b * h + low) * d + r,
    ;
    assert(low * d + r > 0 <==> low > 0 || r > 0) by (nonlinear_arith)
        requires
            d > 0,
    ;
    assert(b == 0 ==> b * (h * d) == 0) by (nonlinear_arith);
    assert(b == 1 ==> b * (h * d) == h * d) by (nonlinear_arith);
    assert(m < e);
    assert(n / e == q && n % e == m) by (nonlinear_arith)
        requires
            n == q * e + m,
            m < e,
    ;
}

/// The double-precision number nearest to `n / d`, where it is an integer: `w` is the integer
/// part, and `more` tells whether there is a fraction.
fn big_double(w: &Vec<u8>, more: bool, Ghost(n): Ghost<nat>, Ghost(d): Ghost<nat>) -> (r: Vec<u8>)
    requires
        is_big(w@),
        d > 0,
        n / d == big_value(w@),
        more == (n % d > 0),
        more ==> big_value(w@) >= 0x20_0000_0000_0000,
    ensures
        is_big(r@),
        big_value(r@) == half_even(n, d * granule(big_value(w@))) * granule(big_value(w@)),
{
    let limit = big_of(0x1f_ffff_ffff_ffff);
    let mut q = w.clone();
    let mut bits: Vec<bool> = Vec::new();
    let ghost v = big_value(w@);
    assert(q@ == w@);
    proof {
        assert(two_to(0) * granule(v) == granule(v)) by {
            assert(1 * granule(v) == granule(v)) by (nonlinear_arith);
        }
        assert(v * 1 == v) by (nonlinear_arith);
    }
    while !big_at_most(&q, &limit)
        invariant
            is_big(q@),
            is_big(limit@),
            big_value(limit@) == 0x1f_ffff_ffff_ffff,
            v == big_value(q@) * two_to(bits@.len()) + bits_value(bits@),
            granule(v) == two_to(bits@.len()) * granule(big_value(q@)),
            bits@.len() == 0 ==> big_value(q@) == v,
        decreases big_value(q@),
    {
        let (half, odd) = big_half(&q);
        proof {
            let g = two_to(bits@.len());
            let x = big_value(q@);
            lemma_granule_scale(g, x);
            let b: nat = if odd {
                1
            } else {
                0
            };
            assert(x * g == (x / 2) * (2 * g) + b * g) by (nonlinear_arith)
                requires
                    x == 2 * (x / 2) + b,
            ;
            assert(1 * g == g) by (nonlinear_arith);
            assert(0 * g == 0) by (nonlinear_arith);
            assert(bits@.push(odd).drop_last() == bits@);
        }
        bits.push(odd);
        q = half;
    }
    let ghost g = two_to(bits@.len());
    let ghost low = big_value(q@);
    proof {
        assert(granule(low) == 1);
        assert(g * 1 == g) by (nonlinear_arith);
        vstd::arithmetic::div_mod::lemma_fundamental_div_mod(n as int, d as int);
        assert(d * v == v * d) by (nonlinear_arith);
    }
    let mut r = q;
    if bits.len() > 0 {
        proof {
            lemma_round_bits(n, d, low, bits@, n % d);
        }
        let odd = r.len() > 0 && r[0] % 2 == 1;
        proof {
            assert(odd == (low % 2 == 1)) by {
                if r@.len() > 0 {
                    assert(crate::big::high(r@, 0) == r@[0] as nat + 10 * crate::big::high(r@, 1));
                }
            }
        }
        if bits[bits.len() - 1] && (more || odd || any_but_last(&bits)) {
            let one = big_of(1);
            r = big_plus(&r, &one);
        }
    } else {
        proof {
            assert(d * 1 == d) by (nonlinear_arith);
            lemma_half_even_at_most(n, d, v);
            lemma_half_even_at_least(n, d, v);
        }
    }
    let ghost m = big_value(r@);
    assert(m == half_even(n, d * g));
    let ghost all = bits@.len();
    assert(m * two_to(0) == m) by {
        assert(m * 1 == m) by (nonlinear_arith);
    }
    while bits.len() > 0
        invariant
            is_big(r@),
            bits@.len() <= all,
            big_value(r@) == m * two_to((all - bits@.len()) as nat),
        decreases bits@.len(),
    {
        bits.pop();
        proof {
            let t = two_to((all - bits@.len() - 1) as nat);
            assert(2 * (m * t) == m * (2 * t)) by (nonlinear_arith);
        }
        r = big_times(&r, 2);
    }
    r
}

pub proof fn lemma_two_to_grows(a: nat, b: nat)
    requires
        a <= b,
    ensures
        two_to(a) <= two_to(b),
    decreases b,
{
    lemma_two_to_positive(b);
    if a < b {
        lemma_two_to_grows(a, (b - 1) as nat);
        lemma_two_to_positive((b - 1) as nat);
    }
}

/// Two to the power of 1024.
fn beyond_doubles() -> (r: Vec<u8>)
    ensures
        is_big(r@),
        big_value(r@) == two_to(1024),
{
    let mut r = big_of(1);
    let mut i: u32 = 0;
    while i < 1024
        invariant
            i <= 1024,
            is_big(r@),
            big_value(r@) == two_to(i as nat),
        decreases 1024 - i,
    {
        r = big_times(&r, 2);
        i += 1;
    }
    r
}

pub fn big_is_zero(a: &Vec<u8>) -> (r: bool)
    requires
        is_big(a@),
    ensures
        r == (big_value(a@) == 0),
{
    let zero: Vec<u8> = Vec::new();
    big_at_most(a, &zero)
}

/// What is below a quarter rounds to nothing.
pub proof fn lemma_below_a_quarter(n: nat, d: nat)
    requires
        0 < n,
        4 * n < d,
    ensures
        !is_beyond(n, d),
        nearest_integer(n, d) == 0,
{
    let s = quotient_scale(n, d);
    lemma_scale_factor(n, d);
    lemma_scale_bounds(n, d);
    let x = n * s / d;
    assert(x < 0x20_0000_0000_0000) by (nonlinear_arith)
        requires
            n * s < d * 0x20_0000_0000_0000,
            x == n * s / d,
            d > 0,
    ;
    assert(granule(x) == 1);
    assert(d * 1 == d) by (nonlinear_arith);
    let c = s / 4;
    assert(n * s <= c * d) by (nonlinear_arith)
        requires
            4 * n < d,
            s == 4 * c,
    ;
    lemma_half_even_at_most(n * s, d, c);
    let m = half_even(n * s, d);
    assert(m * 1 == m) by (nonlinear_arith);
    assert(m <= c);
    assert(m / s == 0 && m % s == m) by (nonlinear_arith)
        requires
            m < s,
    ;
    lemma_two_to_grows(1, 1024);
    reveal_with_fuel(two_to, 2);
    assert(two_to(1024) * s > m) by (nonlinear_arith)
        requires
            two_to(1024) >= 2,
            m < s,
    ;
}

/// The integer nearest to a number that is first brought to double precision, or nothing where
/// that makes it an infinity. `w` is the integer part, `f` the fraction as so many digits.
pub fn round_as_double(w: &Vec<u8>, f: &Vec<u8>) -> (r: Option<Vec<u8>>)
    requires
        is_big(w@),
        is_big(f@),
    ensures
        ({
            let d = pow10(f@.len());
            let n = big_value(w@) * d + big_value(f@);
            match r {
                Some(b) => !is_beyond(n, d) && is_big(b@) && big_value(b@) == nearest_integer(
                    n,
                    d,
                ),
                None => is_beyond(n, d),
            }
        }),
{
    let ghost d = pow10(f@.len());
    let ghost v = big_value(w@);
    let ghost n = v * d + big_value(f@);
    proof {
        lemma_pow10_positive(f@.len());
        lemma_big_bound(f@);
        assert(n / d == v && n % d == big_value(f@)) by (nonlinear_arith)
            requires
                n == v * d + big_value(f@),
                big_value(f@) < d,
        ;
    }
    let limit = big_of(0x1f_ffff_ffff_ffff);
    let no_fraction = big_is_zero(f);
    if !big_at_most(w, &limit) {
        let r = big_double(w, !no_fraction, Ghost(n), Ghost(d));
        proof {
            assert(n >= d * 0x10_0000_0000_0000) by (nonlinear_arith)
                requires
                    n >= v * d,
                    v >= 0x20_0000_0000_0000,
            ;
            assert(quotient_scale(n, d) == 1);
            assert(n * 1 == n) by (nonlinear_arith);
            let b = big_value(r@);
            assert(b % 1 == 0 && b / 1 == b) by (nonlinear_arith);
            assert(two_to(1024) * 1 == two_to(1024)) by (nonlinear_arith);
        }
        let top = beyond_doubles();
        if big_at_most(&top, &r) {
            return None;
        }
        return Some(r);
    }
    let zero = big_of(0);
    if big_is_zero(w) {
        if no_fraction {
            proof {
                assert(n == 0) by (nonlinear_arith)
                    requires
                        n == v * d + 0,
                        v == 0,
                ;
                lemma_nearest_zero(d);
            }
            return Some(zero);
        }
        let mut four = big_times(f, 4);
        let ghost whole = four@;
        let top = four.pop().unwrap();
        proof {
            assert(whole == four@.push(top));
            lemma_high_push(four@, top, 0);
            assert(four@.len() == f@.len());
            assert forall|i: int| 0 <= i < four@.len() implies #[trigger] four@[i] < 10 by {
                assert(whole[i] < 10);
            }
            lemma_big_bound(four@);
            assert(v * d == 0) by (nonlinear_arith)
                requires
                    v == 0,
            ;
            if top == 0 {
                assert(0 * d == 0) by (nonlinear_arith);
                lemma_below_a_quarter(n, d);
            } else {
                assert(top * d >= d) by (nonlinear_arith)
                    requires
                        top >= 1,
                ;
            }
        }
        if top == 0 {
            return Some(zero);
        }
    }
    proof {
        if v > 0 {
            assert(v * d >= d) by (nonlinear_arith)
                requires
                    v >= 1,
            ;
        }
    }
    round_small(w, f, Ghost(n), Ghost(d))
}

/// `round_as_double` for a number from a quarter to `2^53`.
fn round_small(w: &Vec<u8>, f: &Vec<u8>, Ghost(n): Ghost<nat>, Ghost(d): Ghost<nat>) -> (r: Option<
    Vec<u8>,
>)
    requires
        is_big(w@),
        is_big(f@),
        d == pow10(f@.len()),
        n == big_value(w@) * d + big_value(f@),
        big_value(w@) < 0x20_0000_0000_0000,
        4 * n >= d,
    ensures
        r matches Some(b) && !is_beyond(n, d) && is_big(b@) && big_value(b@) == nearest_integer(
            n,
            d,
        ),
{
    let mut m: u64 = big_small(w);
    let mut rest = f.clone();
    let mut s: u64 = 1;
    proof {
        assert(rest@ == f@);
        lemma_pow10_positive(f@.len());
        lemma_big_bound(f@);
        assert(n * 1 == n) by (nonlinear_arith);
        let k = quotient_scale(n, d);
        assert(1 * k == k) by (nonlinear_arith);
    }
    while m < 0x10_0000_0000_0000
        invariant
            d == pow10(f@.len()),
            d > 0,
            4 * n >= d,
            m < 0x20_0000_0000_0000,
            1 <= s <= 0x80_0000_0000_0000,
            is_big(rest@),
            rest@.len() == f@.len(),
            big_value(rest@) < d,
            n * s == m * d + big_value(rest@),
            quotient_scale(n, d) == s * quotient_scale(n * s as nat, d),
        decreases 0x100_0000_0000_0000 - s,
    {
        proof {
            assert(n * s < d * 0x10_0000_0000_0000) by (nonlinear_arith)
                requires
                    n * s == m * d + big_value(rest@),
                    big_value(rest@) < d,
                    m + 1 <= 0x10_0000_0000_0000,
            ;
            assert(s < 0x40_0000_0000_0000) by (nonlinear_arith)
                requires
                    n * s < d * 0x10_0000_0000_0000,
                    4 * n >= d,
                    d > 0,
            ;
            assert(n * s > 0) by (nonlinear_arith)
                requires
                    4 * n >= d,
                    d > 0,
                    s >= 1,
            ;
            let k = quotient_scale(2 * (n * s as nat), d);
            assert(2 * (n * s) == n * (2 * s)) by (nonlinear_arith);
            assert(s * (2 * k) == (2 * s) * k) by (nonlinear_arith);
        }
        let ghost before = big_value(rest@);
        let carry = double_fraction(&mut rest);
        proof {
            assert(carry <= 1) by (nonlinear_arith)
                requires
                    2 * before == big_value(rest@) + carry * d,
                    before < d,
            ;
            assert(n * (2 * s) == (2 * m + carry) * d + big_value(rest@)) by (nonlinear_arith)
                requires
                    n * s == m * d + before,
                    2 * before == big_value(rest@) + carry * d,
            ;
            lemma_big_bound(rest@);
        }
        m = 2 * m + carry as u64;
        s = 2 * s;
    }
    let ghost a = n * s as nat;
    let ghost r = big_value(rest@);
    proof {
        assert(a >= d * 0x10_0000_0000_0000) by (nonlinear_arith)
            requires
                a == m * d + r,
                m >= 0x10_0000_0000_0000,
        ;
        assert(quotient_scale(a, d) == 1);
        assert(s * 1 == s) by (nonlinear_arith);
        assert(a / d == m && a % d == r) by (nonlinear_arith)
            requires
                a == m * d + r,
                r < d,
        ;
        assert(granule(m as nat) == 1);
        assert(d * 1 == d) by (nonlinear_arith);
    }
    let carry = double_fraction(&mut rest);
    proof {
        assert(carry <= 1) by (nonlinear_arith)
            requires
                2 * r == big_value(rest@) + carry * d,
                r < d,
        ;
        lemma_big_bound(rest@);
        assert(1 * d == d) by (nonlinear_arith);
        assert(0 * d == 0) by (nonlinear_arith);
    }
    if carry == 1 && (!big_is_zero(&rest) || m % 2 == 1) {
        m = m + 1;
    }
    proof {
        assert(m == half_even(a, d));
        assert(m * 1 == m) by (nonlinear_arith);
        assert(nearest(n, d) == m);
        lemma_two_to_grows(54, 1024);
        assert(two_to(54) == 0x40_0000_0000_0000) by {
            reveal_with_fuel(two_to, 55);
        }
        assert(two_to(1024) * s > m) by (nonlinear_arith)
            requires
                two_to(1024) >= 0x40_0000_0000_0000,
                s >= 1,
                m <= 0x20_0000_0000_0000,
        ;
        assert(m <= m * s) by (nonlinear_arith)
            requires
                s >= 1,
        ;
        lemma_half_even_at_most(m as nat, s as nat, m as nat);
    }
    let t: u128 = round_half_even(m as u128, s as u128);
    Some(big_of(t))
}

/// Doubles a fraction of so many digits and gives what goes over one.
fn double_fraction(f: &mut Vec<u8>) -> (carry: u8)
    requires
        is_big(old(f)@),
    ensures
        is_big(final(f)@),
        final(f)@.len() == old(f)@.len(),
        2 * big_value(old(f)@) == big_value(final(f)@) + carry * pow10(old(f)@.len()),
        carry < 10,
{
    let mut two = big_times(f, 2);
    let ghost whole = two@;
    let carry = two.pop().unwrap();
    proof {
        assert(whole == two@.push(carry));
        assert(whole[whole.len() - 1] < 10);
        lemma_high_push(two@, carry, 0);
        assert forall|i: int| 0 <= i < two@.len() implies #[trigger] two@[i] < 10 by {
            assert(whole[i] < 10);
        }
    }
    *f = two;
    carry
}

proof fn lemma_two_to_adds(a: nat, b: nat)
    ensures
        two_to(a + b) == two_to(a) * two_to(b),
    decreases a,
{
    let y = two_to(b);
    if a > 0 {
        lemma_two_to_adds((a - 1) as nat, b);
        let x = two_to((a - 1) as nat);
        assert((2 * x) * y == 2 * (x * y)) by (nonlinear_arith);
        assert((a + b - 1) as nat == (a - 1) as nat + b);
    } else {
        assert(1 * y == y) by (nonlinear_arith);
    }
}

/// A granule is a power of two.
proof fn lemma_granule_power(n: nat) -> (k: nat)
    ensures
        granule(n) == two_to(k),
    decreases n,
{
    if n < 0x20_0000_0000_0000 {
        0
    } else {
        let k = lemma_granule_power(n / 2);
        k + 1
    }
}

/// Ten times itself so often is more than two to the power of three times as much.
proof fn lemma_ten_to(n: nat)
    ensures
        pow10(n) >= two_to(3 * n),
    decreases n,
{
    if n > 0 {
        lemma_ten_to((n - 1) as nat);
        reveal_with_fuel(two_to, 4);
        assert((3 * n - 3) as nat == 3 * ((n - 1) as nat));
    }
}

/// A number with so many digits before the point is an infinity.
pub proof fn lemma_beyond(n: nat, d: nat)
    requires
        d > 0,
        n >= d * pow10(350),
    ensures
        is_beyond(n, d),
{
    lemma_ten_to(350);
    lemma_two_to_grows(1024, 1050);
    let t = two_to(1024);
    let p = pow10(350);
    lemma_two_to_grows(54, 1024);
    assert(two_to(54) == 0x40_0000_0000_0000) by {
        reveal_with_fuel(two_to, 55);
    }
    assert(n >= d * t) by (nonlinear_arith)
        requires
            n >= d * p,
            p >= t,
    ;
    assert(n >= d * 0x10_0000_0000_0000) by (nonlinear_arith)
        requires
            n >= d * t,
            t >= 0x10_0000_0000_0000,
    ;
    assert(quotient_scale(n, d) == 1);
    assert(n * 1 == n) by (nonlinear_arith);
    assert(t * 1 == t) by (nonlinear_arith);
    let x = n / d;
    assert(x >= t) by (nonlinear_arith)
        requires
            n >= d * t,
            x == n / d,
            d > 0,
    ;
    let g = granule(x);
    let k = lemma_granule_power(x);
    lemma_granule_bounds(x);
    let e = d * g;
    assert(e > 0) by (nonlinear_arith)
        requires
            e == d * g,
            d > 0,
            g >= 1,
    ;
    let h = half_even(n, e);
    if k <= 1024 {
        let c = two_to((1024 - k) as nat);
        lemma_two_to_adds((1024 - k) as nat, k);
        assert(n >= c * e) by (nonlinear_arith)
            requires
                n >= d * t,
                t == c * g,
                e == d * g,
        ;
        lemma_half_even_at_least(n, e, c);
        assert(h * g >= c * g) by (nonlinear_arith)
            requires
                h >= c,
        ;
    } else {
        lemma_two_to_grows(1024, k);
        assert(n >= d * x) by {
            vstd::arithmetic::div_mod::lemma_fundamental_div_mod(n as int, d as int);
        }
        assert(n >= 1 * e) by (nonlinear_arith)
            requires
                n >= d * x,
                e == d * g,
                x >= 0x10_0000_0000_0000 * g || g == 1 && x >= 1,
        ;
        lemma_half_even_at_least(n, e, 1);
        assert(h * g >= g) by (nonlinear_arith)
            requires
                h >= 1,
        ;
    }
}

/// Nothing rounds to nothing.
pub proof fn lemma_nearest_zero(d: nat)
    requires
        d > 0,
    ensures
        !is_beyond(0, d),
        nearest_integer(0, d) == 0,
{
    assert(0nat * 1 == 0) by (nonlinear_arith);
    assert(0nat / d == 0 && 0nat % d == 0) by (nonlinear_arith)
        requires
            d > 0,
    ;
    assert(d * 1 == d) by (nonlinear_arith);
    lemma_two_to_positive(1024);
    assert(two_to(1024) * 1 == two_to(1024)) by (nonlinear_arith);
}

// ---------------------------------------------------------------------------
// Sums
// ---------------------------------------------------------------------------

/// The size of a number.
pub open spec fn size_of(x: int) -> nat {
    if x < 0 {
        (-x) as nat
    } else {
        x as nat
    }
}

/// The double-precision number nearest to `x`, on either side of 0.
pub open spec fn signed_double(x: int) -> int {
    if x < 0 {
        -(double_of(size_of(x)) as int)
    } else {
        double_of(size_of(x)) as int
    }
}

/// The number nearest to `t` tenths in parts of `2^-52`. That is the double-precision number
/// nearest to it where it is whole and has at most 53 bits, or lies between 1 and 2.
pub open spec fn tenths_units(t: int) -> int {
    let u = half_even(size_of(t) * 0x10_0000_0000_0000, 10) as int;
    if t < 0 {
        -u
    } else {
        u
    }
}

/// The sum of numbers of tenths in double precision, in parts of `2^-52`: every number and every
/// partial sum is brought to double precision.
pub open spec fn double_total(list: Seq<int>) -> int
    decreases list.len(),
{
    if list.len() == 0 {
        0
    } else {
        signed_double(double_total(list.drop_last()) + tenths_units(list.last()))
    }
}

/// A sum in double precision.
#[derive(Debug, Clone)]
pub struct DoubleSum {
    negative: bool,
    size: Vec<u8>,
}

impl DoubleSum {
    /// The digits are digits, and nothing has no sign.
    pub closed spec fn wf(&self) -> bool {
        &&& is_big(self.size@)
        &&& self.negative ==> big_value(self.size@) > 0
    }

    /// The sum in parts of `2^-52`.
    pub closed spec fn units(&self) -> int {
        if self.negative {
            -(big_value(self.size@) as int)
        } else {
            big_value(self.size@) as int
        }
    }

    /// The sum of nothing.
    pub fn new() -> (r: DoubleSum)
        ensures
            r.wf(),
            r.units() == 0,
    {
        DoubleSum { negative: false, size: Vec::new() }
    }

    /// Whether the sum is below 0.
    pub fn is_negative(&self) -> (r: bool)
        requires
            self.wf(),
        ensures
            r == (self.units() < 0),
    {
        self.negative
    }

    /// The digits of the size of the sum, in parts of `2^-52`.
    pub fn digits(&self) -> (r: &Vec<u8>)
        requires
            self.wf(),
        ensures
            is_big(r@),
            big_value(r@) == size_of(self.units()),
    {
        &self.size
    }

    /// Adds a number of tenths.
    pub fn push(&mut self, tenths: i64)
        requires
            old(self).wf(),
            -0x1_0000_0000_0000 <= tenths <= 0x1_0000_0000_0000,
        ensures
            final(self).wf(),
            final(self).units() == signed_double(old(self).units() + tenths_units(tenths as int)),
    {
        let below = tenths < 0;
        let size: u64 = if below {
            (-tenths) as u64
        } else {
            tenths as u64
        };
        let units: u128 = round_half_even(size as u128 * 0x10_0000_0000_0000, 10);
        let part = big_of(units);
        let ghost before = self.units();
        let ghost x: int = before + tenths_units(tenths as int);
        let (negative, sum) = if below == self.negative {
            (below, big_plus(&self.size, &part))
        } else if big_at_most(&part, &self.size) {
            (self.negative, big_minus(&self.size, &part))
        } else {
            (below, big_minus(&part, &self.size))
        };
        let ghost v = big_value(sum@);
        assert(v == size_of(x));
        assert(v > 0 ==> negative == (x < 0));
        proof {
            let g = granule(v);
            assert(v / 1 == v && v % 1 == 0) by (nonlinear_arith);
            assert(1 * g == g) by (nonlinear_arith);
        }
        let size = big_double(&sum, false, Ghost(v), Ghost(1));
        let zero = big_is_zero(&size);
        self.negative = negative && !zero;
        self.size = size;
        proof {
            if v == 0 {
                lemma_double_of_small(0);
            }
        }
    }
}

// ---------------------------------------------------------------------------
// Laws
// ---------------------------------------------------------------------------

/// Rounding gives the nearest integer, and of two that are equally near the even one.
pub proof fn law_rounding(n: nat, d: nat)
    requires
        d > 0,
    ensures
        2 * n <= (2 * half_even(n, d) + 1) * d,
        (2 * half_even(n, d)) * d <= 2 * n + d,
        2 * n == (2 * half_even(n, d) + 1) * d || (2 * half_even(n, d)) * d == 2 * n + d
            ==> half_even(n, d) % 2 == 0,
{
    let k = n / d;
    let r = n % d;
    let h = half_even(n, d);
    assert(n == k * d + r && 0 <= r < d) by (nonlinear_arith)
        requires
            d > 0,
            k == n / d,
            r == n % d,
    ;
    assert((2 * h + 1) * d == 2 * (h * d) + d) by (nonlinear_arith);
    assert((2 * h) * d == 2 * (h * d)) by (nonlinear_arith);
    if h == k + 1 {
        assert(h * d == k * d + d) by (nonlinear_arith)
            requires
                h == k + 1,
        ;
    } else {
        assert(h == k);
    }
}

/// A whole number of up to 53 bits is kept in double precision; a larger one is rounded to one of
/// 53 bits, by at most half the distance of its neighbours.
pub proof fn law_double_precision(n: nat)
    ensures
        n < 0x20_0000_0000_0000 ==> double_of(n) == n,
        2 * n <= 2 * double_of(n) + granule(n),
        2 * double_of(n) <= 2 * n + granule(n),
        n < 0x20_0000_0000_0000 * granule(n),
        granule(n) > 1 ==> n >= 0x10_0000_0000_0000 * granule(n),
{
    if n < 0x20_0000_0000_0000 {
        lemma_double_of_small(n);
    }
    lemma_granule_bounds(n);
    let g = granule(n);
    law_rounding(n, g);
    let h = half_even(n, g);
    assert((2 * h + 1) * g == 2 * (h * g) + g) by (nonlinear_arith);
    assert((2 * h) * g == 2 * (h * g)) by (nonlinear_arith);
}

/// Nothing is 0.0% of a whole, and all of it 100.0%.
pub proof fn law_percent_ends(whole: nat)
    requires
        0 < whole < 0x20_0000_0000_0000,
    ensures
        percent_tenths(0, whole) == 0,
        percent_tenths(whole, whole) == 1000,
{
    lemma_double_of_small(0);
    lemma_double_of_small(whole);
    let z = quotient_scale(0, whole);
    assert(0 * z == 0) by (nonlinear_arith);
    lemma_half_even_at_most(0, whole, 0);
    lemma_half_even_at_most(0, z, 0);
    let s = quotient_scale(whole, whole);
    lemma_two_to_52(0);
    assert(1 * two_to(52) == two_to(52)) by (nonlinear_arith);
    assert(whole * 1 == whole) by (nonlinear_arith);
    lemma_scale_of_one(whole, 1, 52);
    assert(s == 0x10_0000_0000_0000);
    assert(whole * s == s * whole + 0) by (nonlinear_arith);
    lemma_exact(s, whole);
    assert(quotient(whole, whole) == s);
    let n = s * 100;
    let g = granule(n);
    assert(g == 64) by {
        reveal_with_fuel(granule, 9);
    }
    lemma_exact(n / 64, 64);
    assert(double_of(n) == n);
    lemma_exact(1000, s);
}

proof fn lemma_exact(k: nat, d: nat)
    requires
        d > 0,
    ensures
        half_even(k * d, d) == k,
{
    assert(k * d / d == k && k * d % d == 0) by (nonlinear_arith)
        requires
            d > 0,
    ;
}

/// A number that is as large as another needs 53 bits before the point.
proof fn lemma_scale_of_one(b: nat, m: nat, k: nat)
    requires
        b > 0,
        m * two_to(k) == 0x10_0000_0000_0000,
    ensures
        quotient_scale(b * m, b) == two_to(k),
    decreases k,
{
    lemma_two_to_positive(k);
    let a = b * m;
    assert(a > 0) by (nonlinear_arith)
        requires
            b > 0,
            m * two_to(k) == 0x10_0000_0000_0000,
            a == b * m,
    ;
    if k == 0 {
        assert(two_to(0) == 1);
        assert(m * 1 == m) by (nonlinear_arith);
    } else {
        let t = two_to((k - 1) as nat);
        assert(m * (2 * t) == (2 * m) * t) by (nonlinear_arith);
        lemma_two_to_positive((k - 1) as nat);
        assert(m < 0x10_0000_0000_0000) by (nonlinear_arith)
            requires
                m * (2 * t) == 0x10_0000_0000_0000,
                t > 0,
        ;
        assert(a < b * 0x10_0000_0000_0000) by (nonlinear_arith)
            requires
                a == b * m,
                m < 0x10_0000_0000_0000,
                b > 0,
        ;
        assert(2 * a == b * (2 * m)) by (nonlinear_arith)
            requires
                a == b * m,
        ;
        lemma_scale_of_one(b, 2 * m, (k - 1) as nat);
    }
}

proof fn lemma_whole_double(k: nat)
    requires
        k < 0x20_0000_0000_0000,
    ensures
        double_of(k * 0x10_0000_0000_0000) == k * 0x10_0000_0000_0000,
{
    let one: nat = 0x10_0000_0000_0000;
    let n = k * one;
    let g = granule(n);
    lemma_granule_bounds(n);
    let e = lemma_granule_power(n);
    if e > 52 {
        lemma_two_to_grows(53, e);
        lemma_two_to_52(e);
        reveal_with_fuel(two_to, 2);
        assert(one * g >= one * (2 * one)) by (nonlinear_arith)
            requires
                g >= 2 * one,
        ;
        assert(k * one < (2 * one) * one) by (nonlinear_arith)
            requires
                k < 2 * one,
                one > 0,
        ;
        assert(false);
    }
    lemma_two_to_52(e);
    let w = two_to((52 - e) as nat);
    lemma_two_to_adds(e, (52 - e) as nat);
    assert(g * w == one);
    assert(n == (k * w) * g) by (nonlinear_arith)
        requires
            n == k * one,
            g * w == one,
    ;
    lemma_exact(k * w, g);
}

proof fn lemma_two_to_52(e: nat)
    ensures
        two_to(52) == 0x10_0000_0000_0000,
        two_to(53) == 0x20_0000_0000_0000,
        two_to(e) <= 0x10_0000_0000_0000 ==> e <= 52,
{
    assert(two_to(52) == 0x10_0000_0000_0000 && two_to(53) == 0x20_0000_0000_0000) by {
        reveal_with_fuel(two_to, 54);
    }
    if e > 52 {
        lemma_two_to_grows(53, e);
    }
}

/// The sum of whole numbers.
pub open spec fn whole_sum(list: Seq<nat>) -> nat
    decreases list.len(),
{
    if list.len() == 0 {
        0
    } else {
        whole_sum(list.drop_last()) + list.last()
    }
}

/// Whole numbers are added up without any loss, as long as their sum has at most 53 bits.
pub proof fn law_whole_sums(list: Seq<nat>)
    requires
        whole_sum(list) < 0x20_0000_0000_0000,
    ensures
        double_total(Seq::new(list.len(), |i: int| 10 * list[i] as int)) == whole_sum(list)
            * 0x10_0000_0000_0000,
    decreases list.len(),
{
    let tenths = Seq::new(list.len(), |i: int| 10 * list[i] as int);
    if list.len() > 0 {
        let h = list.drop_last();
        law_whole_sums(h);
        assert(tenths.drop_last() == Seq::new(h.len(), |i: int| 10 * h[i] as int));
        let m = list.last();
        let one: nat = 0x10_0000_0000_0000;
        assert(10 * m * one == (m * one) * 10);
        lemma_exact(m * one, 10);
        assert(tenths_units(10 * m as int) == m * one);
        lemma_whole_double(whole_sum(list));
    }
}

proof fn lemma_scale_reaches(a: nat, b: nat)
    requires
        0 < a,
        0 < b,
        a < b * 0x2_0000_0000_0000,
    ensures
        quotient_scale(a, b) % 8 == 0,
        quotient_scale(a, b) >= 8,
        a * quotient_scale(a, b) < b * 0x20_0000_0000_0000,
{
    reveal_with_fuel(quotient_scale, 4);
    let t = quotient_scale(8 * a, b);
    lemma_scale_bounds(8 * a, b);
    assert(quotient_scale(a, b) == 8 * t);
    assert(a * (8 * t) == (8 * a) * t) by (nonlinear_arith);
}

proof fn lemma_nearest_small(n: nat, d: nat)
    requires
        0 < n,
        0 < d,
        n < d * 0x2_0000_0000_0000,
    ensures
        nearest(n, d) == half_even(n * quotient_scale(n, d), d),
{
    let s = quotient_scale(n, d);
    lemma_scale_reaches(n, d);
    let x = n * s / d;
    assert(x < 0x20_0000_0000_0000) by (nonlinear_arith)
        requires
            n * s < d * 0x20_0000_0000_0000,
            x == n * s / d,
            d > 0,
    ;
    assert(granule(x) == 1);
    assert(d * 1 == d) by (nonlinear_arith);
    let h = half_even(n * s, d);
    assert(h * 1 == h) by (nonlinear_arith);
}

proof fn lemma_not_beyond(n: nat, d: nat)
    requires
        0 < n,
        0 < d,
        n < d * 0x2_0000_0000_0000,
    ensures
        !is_beyond(n, d),
{
    let s = quotient_scale(n, d);
    lemma_scale_reaches(n, d);
    lemma_nearest_small(n, d);
    lemma_half_even_at_most(n * s, d, 0x20_0000_0000_0000);
    lemma_two_to_52(0);
    lemma_two_to_grows(53, 1024);
    assert(two_to(1024) * s > 0x20_0000_0000_0000) by (nonlinear_arith)
        requires
            two_to(1024) >= 0x20_0000_0000_0000,
            s >= 8,
    ;
}

/// A whole number is nearest to itself. Tenths are rounded to the nearest whole number, and five
/// of them to the even one.
pub proof fn law_tenths_are_rounded(a: nat, d: nat)
    requires
        a < 0x1_0000_0000_0000,
        d < 10,
    ensures
        !is_beyond(a, 1),
        nearest_integer(a, 1) == a,
        !is_beyond(10 * a + d, 10),
        d < 5 ==> nearest_integer(10 * a + d, 10) == a,
        d > 5 ==> nearest_integer(10 * a + d, 10) == a + 1,
        d == 5 && a % 2 == 0 ==> nearest_integer(10 * a + d, 10) == a,
        d == 5 && a % 2 == 1 ==> nearest_integer(10 * a + d, 10) == a + 1,
{
    if a == 0 {
        lemma_nearest_zero(1);
    } else {
        lemma_not_beyond(a, 1);
        lemma_nearest_small(a, 1);
        let s = quotient_scale(a, 1);
        lemma_scale_reaches(a, 1);
        assert((a * s) * 1 == a * s) by (nonlinear_arith);
        lemma_exact(a * s, 1);
        lemma_exact(a, s);
    }
    let n = 10 * a + d;
    if n == 0 {
        lemma_nearest_zero(10);
    } else {
        lemma_not_beyond(n, 10);
        lemma_nearest_small(n, 10);
        let s = quotient_scale(n, 10);
        lemma_scale_reaches(n, 10);
        let m = half_even(n * s, 10);
        law_rounding(n * s, 10);
        let p = a * s;
        assert(n * s == 10 * p + d * s) by (nonlinear_arith)
            requires
                n == 10 * a + d,
                p == a * s,
        ;
        lemma_tenth_part(p, d, s, m);
        let rest = (m - p) as nat;
        assert(p == s * a) by (nonlinear_arith)
            requires
                p == a * s,
        ;
        lemma_quotient_of(m, s, a, rest);
    }
}

proof fn lemma_quotient_of(m: nat, s: nat, a: nat, rest: nat)
    requires
        s > 0,
        m == s * a + rest,
        rest <= s,
    ensures
        rest < s ==> m / s == a && m % s == rest,
        rest == s ==> m / s == a + 1 && m % s == 0,
{
    if rest < s {
        assert(m / s == a && m % s == rest) by (nonlinear_arith)
            requires
                s > 0,
                m == s * a + rest,
                rest < s,
        ;
    } else {
        assert(m / s == a + 1 && m % s == 0) by (nonlinear_arith)
            requires
                s > 0,
                m == s * a + s,
        ;
    }
}

/// Where the tenths of a number lie between it and the next one, in parts of `1 / s`.
proof fn lemma_tenth_part(p: nat, d: nat, s: nat, m: nat)
    requires
        d < 10,
        s >= 8,
        s % 8 == 0,
        m == half_even(10 * p + d * s, 10),
    ensures
        p <= m,
        d < 5 ==> 2 * (m - p) < s,
        d == 5 ==> 2 * (m - p) == s,
        d > 5 ==> s < 2 * (m - p) && m - p < s,
{
    law_rounding(10 * p + d * s, 10);
    let w = d * s;
    assert(d == 0 ==> w == 0) by (nonlinear_arith)
        requires
            w == d * s,
    ;
    assert(d == 5 ==> w == 5 * s) by (nonlinear_arith)
        requires
            w == d * s,
    ;
    assert(0 < d < 5 ==> s <= w <= 4 * s) by (nonlinear_arith)
        requires
            w == d * s,
    ;
    assert(5 < d < 10 ==> 6 * s <= w <= 9 * s) by (nonlinear_arith)
        requires
            w == d * s,
    ;
}

/// A percentage is shown with one decimal and its sign.
pub proof fn law_percent_shown(part: nat, whole: nat, units: nat, d: nat)
    requires
        d < 10,
        percent_tenths(part, whole) == 10 * units + d,
    ensures
        percent_text(part, whole) == decimal(units) + "."@ + decimal(d) + "%"@,
{
    reveal_strlit(".");
    reveal_strlit("%");
    let t = percent_tenths(part, whole);
    assert(t / 10 == units && t % 10 == d);
    assert(seq!['.', digit_char(d), '%'] == "."@ + decimal(d) + "%"@);
    assert(decimal(units) + ("."@ + decimal(d) + "%"@) == decimal(units) + "."@ + decimal(d) + "%"@);
}

} // verus!
