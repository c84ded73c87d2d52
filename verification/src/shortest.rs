//! How a double-precision number is shown: with as few digits as tell it from its neighbours.

use vstd::arithmetic::div_mod::lemma_div_denominator;
use vstd::prelude::*;

use crate::big::{
    big_at_most, big_cut, big_half, big_minus, big_of, big_plus, big_pow10, big_times, big_value,
    is_big, lemma_big_bound, lemma_cut, lemma_high_push, lemma_pow10_order, lemma_pow10_positive,
    pow10, push_big_from,
};
use crate::double::{
    big_is_zero, granule, lemma_granule_bounds, lemma_granule_scale, lemma_two_to_grows,
    lemma_two_to_positive, size_of, two_to, DoubleSum,
};
use crate::number::{decimal, digit_char};

verus! {

// ---------------------------------------------------------------------------
// The number and its neighbours
// ---------------------------------------------------------------------------

/// Five to the power of `n`.
pub open spec fn pow5(n: nat) -> nat
    decreases n,
{
    if n == 0 {
        1
    } else {
        5 * pow5((n - 1) as nat)
    }
}

/// How often a number has to be doubled to have 53 bits.
pub open spec fn shift_of(n: nat) -> nat
    decreases 0x20_0000_0000_0000 - n,
{
    if n == 0 || n >= 0x10_0000_0000_0000 {
        0
    } else {
        1 + shift_of(2 * n)
    }
}

/// The number, doubled so often.
pub open spec fn shifted(n: nat) -> nat {
    n * two_to(shift_of(n))
}

/// How many decimals the number `n / 2^52`, and the middles between it and its neighbours, have.
pub open spec fn places_of(n: nat) -> nat {
    54 + shift_of(n)
}

/// The number `n / 2^52` with all its decimals, as an integer.
pub open spec fn exact(n: nat) -> nat {
    4 * shifted(n) * pow5(places_of(n))
}

/// The middle between the number and its upper neighbour, with as many decimals.
pub open spec fn upper(n: nat) -> nat {
    (4 * shifted(n) + 2 * granule(shifted(n))) * pow5(places_of(n))
}

/// The middle between the number and its lower neighbour, with as many decimals. Below a power
/// of two the neighbours are half as far apart.
pub open spec fn lower(n: nat) -> nat {
    let g = granule(shifted(n));
    let gap = if shifted(n) / g == 0x10_0000_0000_0000 {
        g
    } else {
        2 * g
    };
    ((4 * shifted(n) - gap) as nat) * pow5(places_of(n))
}

/// The last of the 53 bits is 0, so that a middle beside the number is read as the number.
pub open spec fn is_even(n: nat) -> bool {
    shifted(n) / granule(shifted(n)) % 2 == 0
}

// ---------------------------------------------------------------------------
// The fewest digits
// ---------------------------------------------------------------------------

/// `x` lies between the middles.
pub open spec fn between(x: nat, lo: nat, hi: nat, even: bool) -> bool {
    if even {
        lo <= x <= hi
    } else {
        lo < x < hi
    }
}

/// The number cut off at a place.
pub open spec fn cut_at(v: nat, r: nat) -> nat {
    v / pow10(r) * pow10(r)
}

/// The number cut off at a place, or one more there, lies between the middles.
pub open spec fn place_will_do(v: nat, lo: nat, hi: nat, even: bool, r: nat) -> bool {
    between(cut_at(v, r), lo, hi, even) || between(cut_at(v, r) + pow10(r), lo, hi, even)
}

/// The highest place up to `r` that will do.
pub open spec fn highest_place(v: nat, lo: nat, hi: nat, even: bool, r: nat) -> nat
    decreases r,
{
    if r == 0 || place_will_do(v, lo, hi, even, r) {
        r
    } else {
        highest_place(v, lo, hi, even, (r - 1) as nat)
    }
}

/// What is shown with the last digit at a place: of what lies between the middles, the nearer
/// one, and the larger one of two equally near.
pub open spec fn shown_at(v: nat, lo: nat, hi: nat, even: bool, r: nat) -> nat {
    let c = cut_at(v, r);
    let p = pow10(r);
    if between(c + p, lo, hi, even) && (!between(c, lo, hi, even) || 2 * (v - c) >= p) {
        c + p
    } else {
        c
    }
}

/// The place of the last digit that is shown of `n / 2^52`.
pub open spec fn last_place(n: nat) -> nat {
    highest_place(exact(n), lower(n), upper(n), is_even(n), upper(n))
}

/// The decimals from the first one down to place `r`, of `f` decimals in all.
pub open spec fn decimals_of(x: nat, f: nat, r: nat) -> Seq<char> {
    Seq::new((f - r) as nat, |j: int| digit_char(x / pow10((f - 1 - j) as nat) % 10))
}

/// The number `n / 2^52`, with as few digits as tell it from its neighbours.
pub open spec fn shortest_text(n: nat) -> Seq<char> {
    if n == 0 {
        decimal(0)
    } else {
        let f = places_of(n);
        let r = last_place(n);
        let x = shown_at(exact(n), lower(n), upper(n), is_even(n), r);
        if r >= f {
            decimal(x / pow10(f))
        } else {
            decimal(x / pow10(f)) + seq!['.'] + decimals_of(x, f, r)
        }
    }
}

/// The number `x / 2^52` with its minus sign.
pub open spec fn double_text(x: int) -> Seq<char> {
    if x < 0 {
        seq!['-'] + shortest_text(size_of(x))
    } else {
        shortest_text(size_of(x))
    }
}

// ---------------------------------------------------------------------------
// Showing it
// ---------------------------------------------------------------------------

/// A place above all digits will not do.
proof fn lemma_place_above(v: nat, lo: nat, hi: nat, even: bool, r: nat)
    requires
        0 < lo,
        v < hi,
        pow10(r) > hi,
    ensures
        !place_will_do(v, lo, hi, even, r),
{
    let p = pow10(r);
    assert(v / p == 0) by (nonlinear_arith)
        requires
            v < p,
    ;
    assert(0 * p == 0) by (nonlinear_arith);
}

/// The highest place is the same from any start above all digits.
proof fn lemma_start(v: nat, lo: nat, hi: nat, even: bool, a: nat, b: nat)
    requires
        0 < lo,
        v < hi,
        pow10(a) > hi,
        a <= b,
    ensures
        highest_place(v, lo, hi, even, a) == highest_place(v, lo, hi, even, b),
    decreases b,
{
    if a < b {
        lemma_start(v, lo, hi, even, a, (b - 1) as nat);
        lemma_pow10_order(a, b);
        lemma_place_above(v, lo, hi, even, b);
    }
}

proof fn lemma_pow10_above(n: nat)
    ensures
        pow10(n) > n,
    decreases n,
{
    if n > 0 {
        lemma_pow10_above((n - 1) as nat);
    }
}

fn is_between(x: &Vec<u8>, lo: &Vec<u8>, hi: &Vec<u8>, even: bool) -> (r: bool)
    requires
        is_big(x@),
        is_big(lo@),
        is_big(hi@),
    ensures
        r == between(big_value(x@), big_value(lo@), big_value(hi@), even),
{
    if even {
        big_at_most(lo, x) && big_at_most(x, hi)
    } else {
        !big_at_most(x, lo) && !big_at_most(hi, x)
    }
}

/// A number times a power of five.
fn times_pow5(a: &Vec<u8>, n: usize) -> (r: Vec<u8>)
    requires
        is_big(a@),
    ensures
        is_big(r@),
        big_value(r@) == big_value(a@) * pow5(n as nat),
        r@.len() >= n,
{
    let mut r = a.clone();
    let mut i: usize = 0;
    let ghost v = big_value(a@);
    assert(r@ == a@);
    assert(v * 1 == v) by (nonlinear_arith);
    while i < n
        invariant
            i <= n,
            is_big(r@),
            r@.len() >= i,
            big_value(r@) == v * pow5(i as nat),
        decreases n - i,
    {
        proof {
            let q = pow5(i as nat);
            assert(5 * (v * q) == v * (5 * q)) by (nonlinear_arith);
        }
        r = big_times(&r, 5);
        i += 1;
    }
    r
}

/// The last place that is shown of a number between two middles, and what is shown.
fn fewest_digits(
    exact: &Vec<u8>,
    lo: &Vec<u8>,
    hi: &Vec<u8>,
    even: bool,
) -> (r: (usize, Vec<u8>))
    requires
        is_big(exact@),
        is_big(lo@),
        is_big(hi@),
        0 < big_value(lo@) <= big_value(exact@) < big_value(hi@),
    ensures
        ({
            let v = big_value(exact@);
            let l = big_value(lo@);
            let h = big_value(hi@);
            &&& r.0 == highest_place(v, l, h, even, h)
            &&& is_big(r.1@)
            &&& r.1@.len() >= exact@.len()
            &&& r.0 <= r.1@.len()
            &&& big_value(r.1@) == shown_at(v, l, h, even, r.0 as nat)
        }),
{
    let ghost v = big_value(exact@);
    let ghost l = big_value(lo@);
    let ghost h = big_value(hi@);
    let mut padded = exact.clone();
    assert(padded@ == exact@);
    while padded.len() < hi.len()
        invariant
            is_big(padded@),
            big_value(padded@) == v,
            padded@.len() >= exact@.len(),
        decreases hi@.len() - padded@.len(),
    {
        proof {
            lemma_high_push(padded@, 0, 0);
            let p = pow10(padded@.len());
            assert(0 * p == 0) by (nonlinear_arith);
        }
        padded.push(0);
    }
    let mut r: usize = padded.len();
    proof {
        lemma_big_bound(hi@);
        lemma_pow10_order(hi@.len(), r as nat);
        lemma_pow10_above(h);
        if h <= r {
            lemma_start(v, l, h, even, h, r as nat);
        } else {
            lemma_start(v, l, h, even, r as nat, h);
        }
    }
    loop
        invariant
            is_big(padded@),
            is_big(lo@),
            is_big(hi@),
            big_value(padded@) == v,
            l == big_value(lo@),
            h == big_value(hi@),
            r <= padded@.len(),
            padded@.len() >= exact@.len(),
            highest_place(v, l, h, even, h) == highest_place(v, l, h, even, r as nat),
        ensures
            r <= padded@.len(),
            r == highest_place(v, l, h, even, h),
        decreases r,
    {
        if r == 0 {
            break;
        }
        let down = big_cut(&padded, r);
        let up = big_plus(&down, &big_pow10(r));
        if is_between(&down, lo, hi, even) || is_between(&up, lo, hi, even) {
            break;
        }
        r -= 1;
    }
    let down = big_cut(&padded, r);
    let step = big_pow10(r);
    let up = big_plus(&down, &step);
    proof {
        let p = pow10(r as nat);
        lemma_pow10_positive(r as nat);
        vstd::arithmetic::div_mod::lemma_fundamental_div_mod(v as int, p as int);
        let q = v / p;
        assert(p * q == q * p) by (nonlinear_arith);
    }
    let rest = big_minus(&padded, &down);
    let twice = big_times(&rest, 2);
    if is_between(&up, lo, hi, even) && (!is_between(&down, lo, hi, even) || big_at_most(
        &step,
        &twice,
    )) {
        (r, up)
    } else {
        (r, down)
    }
}

/// A number doubled until it has 53 bits, and how often that was.
fn shift_up(n: &Vec<u8>) -> (r: (Vec<u8>, usize))
    requires
        is_big(n@),
        big_value(n@) > 0,
    ensures
        is_big(r.0@),
        big_value(r.0@) == shifted(big_value(n@)),
        r.1 == shift_of(big_value(n@)),
        r.1 <= 60,
        big_value(r.0@) >= 0x10_0000_0000_0000,
{
    let ghost v = big_value(n@);
    let small = big_of(0xf_ffff_ffff_ffff);
    let mut whole = n.clone();
    assert(whole@ == n@);
    let mut shift: usize = 0;
    proof {
        assert(v * 1 == v) by (nonlinear_arith);
    }
    while big_at_most(&whole, &small)
        invariant
            v > 0,
            is_big(whole@),
            is_big(small@),
            big_value(small@) == 0xf_ffff_ffff_ffff,
            shift <= 52,
            big_value(whole@) == v * two_to(shift as nat),
            shift_of(v) == shift + shift_of(big_value(whole@)),
        decreases 60 - shift,
    {
        proof {
            let t = two_to(shift as nat);
            lemma_two_to_positive(shift as nat);
            assert(v * t >= t) by (nonlinear_arith)
                requires
                    v > 0,
            ;
            if shift >= 52 {
                assert(two_to(52) == 0x10_0000_0000_0000) by {
                    reveal_with_fuel(two_to, 53);
                }
                lemma_two_to_grows(52, shift as nat);
            }
            assert(2 * (v * t) == v * (2 * t)) by (nonlinear_arith);
        }
        whole = big_times(&whole, 2);
        shift += 1;
    }
    (whole, shift)
}

/// The 53 bits of a number, and the distance to its neighbours.
fn bits_and_gap(whole: &Vec<u8>) -> (r: (Vec<u8>, Vec<u8>))
    requires
        is_big(whole@),
    ensures
        is_big(r.0@),
        is_big(r.1@),
        big_value(r.0@) == big_value(whole@) / granule(big_value(whole@)),
        big_value(r.1@) == granule(big_value(whole@)),
{
    let ghost w = big_value(whole@);
    let limit = big_of(0x1f_ffff_ffff_ffff);
    let mut bits = whole.clone();
    assert(bits@ == whole@);
    let mut gap = big_of(1);
    proof {
        let g = granule(w);
        assert(1 * g == g) by (nonlinear_arith);
        assert(w / 1 == w) by (nonlinear_arith);
    }
    while !big_at_most(&bits, &limit)
        invariant
            is_big(bits@),
            is_big(gap@),
            is_big(limit@),
            big_value(limit@) == 0x1f_ffff_ffff_ffff,
            big_value(gap@) > 0,
            big_value(bits@) == w / big_value(gap@),
            granule(w) == big_value(gap@) * granule(big_value(bits@)),
        decreases big_value(bits@),
    {
        proof {
            let g = big_value(gap@);
            lemma_granule_scale(g, big_value(bits@));
            lemma_div_denominator(w as int, g as int, 2);
            assert(g * 2 == 2 * g) by (nonlinear_arith);
        }
        bits = big_half(&bits).0;
        gap = big_times(&gap, 2);
    }
    proof {
        let g = big_value(gap@);
        assert(granule(big_value(bits@)) == 1);
        assert(g * 1 == g) by (nonlinear_arith);
    }
    (bits, gap)
}

/// Adds the decimals from the first one down to place `r`, of `places` in all.
fn push_decimals(out: &mut String, shown: &Vec<u8>, places: usize, r: usize)
    requires
        is_big(shown@),
        r <= places <= shown@.len(),
    ensures
        final(out)@ == old(out)@ + decimals_of(big_value(shown@), places as nat, r as nat),
{
    let ghost x = big_value(shown@);
    let ghost head = out@;
    let mut i: usize = places;
    assert(decimals_of(x, places as nat, places as nat) == Seq::<char>::empty());
    while i > r
        invariant
            r <= i <= places <= shown@.len(),
            is_big(shown@),
            x == big_value(shown@),
            out@ == head + decimals_of(x, places as nat, i as nat),
        decreases i,
    {
        i -= 1;
        proof {
            lemma_cut(shown@, i as int);
            assert(shown@[i as int] < 10);
            let h = crate::big::high(shown@, i + 1);
            let d = shown@[i as int] as nat;
            assert((d + 10 * h) % 10 == d);
            assert(decimals_of(x, places as nat, i as nat) == decimals_of(
                x,
                places as nat,
                (i + 1) as nat,
            ).push(digit_char(d)));
        }
        out.push(('0' as u8 + shown[i]) as char);
    }
}

/// The middles lie on either side of the number.
proof fn lemma_middles(n: nat)
    requires
        n > 0,
        shifted(n) > 0,
    ensures
        0 < lower(n) <= exact(n) < upper(n),
        2 * granule(shifted(n)) <= 4 * shifted(n),
{
    let w = shifted(n);
    let g = granule(w);
    lemma_granule_bounds(w);
    let q = pow5(places_of(n));
    lemma_pow5_positive(places_of(n));
    let x: nat = (4 * w - (if w / g == 0x10_0000_0000_0000 {
        g
    } else {
        2 * g
    })) as nat;
    let a = 4 * w;
    let y = a + 2 * g;
    assert(0 < x * q <= a * q < y * q) by (nonlinear_arith)
        requires
            0 < x <= a < y,
            q > 0,
    ;
}

/// Adds a number in parts of `2^-52`, with as few digits as tell it from its neighbours.
pub fn push_shortest(out: &mut String, n: &Vec<u8>)
    requires
        is_big(n@),
    ensures
        final(out)@ == old(out)@ + shortest_text(big_value(n@)),
{
    let ghost v = big_value(n@);
    if big_is_zero(n) {
        out.push('0');
        assert(decimal(0) == seq![digit_char(0)]);
        assert(out@ == old(out)@ + decimal(0));
        return;
    }
    let (whole, shift) = shift_up(n);
    let (bits, gap) = bits_and_gap(&whole);
    let ghost m = big_value(bits@);
    proof {
        lemma_middles(v);
    }
    let even = bits.len() == 0 || bits[0] % 2 == 0;
    assert(even == (m % 2 == 0)) by {
        if bits@.len() > 0 {
            assert(crate::big::high(bits@, 0) == bits@[0] as nat + 10 * crate::big::high(bits@, 1));
        }
    }
    let boundary = big_of(0x10_0000_0000_0000);
    let at_boundary = big_at_most(&bits, &boundary) && big_at_most(&boundary, &bits);
    let four = big_times(&whole, 4);
    let wide = big_times(&gap, 2);
    let lo = big_minus(&four, if at_boundary { &gap } else { &wide });
    let hi = big_plus(&four, &wide);
    let places: usize = 54 + shift;
    let exact_digits = times_pow5(&four, places);
    let lo = times_pow5(&lo, places);
    let hi = times_pow5(&hi, places);
    let (r, shown) = fewest_digits(&exact_digits, &lo, &hi, even);
    let ghost before = out@;
    let ghost x = big_value(shown@);
    push_big_from(out, &shown, places);
    if r >= places {
        return;
    }
    out.push('.');
    push_decimals(out, &shown, places, r);
    assert(out@ == before + (decimal(x / pow10(places as nat)) + seq!['.'] + decimals_of(
        x,
        places as nat,
        r as nat,
    )));
}

/// Adds a sum.
pub fn push_double(out: &mut String, sum: &DoubleSum)
    requires
        sum.wf(),
    ensures
        final(out)@ == old(out)@ + double_text(sum.units()),
{
    let ghost before = out@;
    if sum.is_negative() {
        out.push('-');
    }
    push_shortest(out, sum.digits());
    assert(out@ == before + double_text(sum.units()));
}

proof fn lemma_pow5_positive(n: nat)
    ensures
        pow5(n) > 0,
    decreases n,
{
    if n > 0 {
        lemma_pow5_positive((n - 1) as nat);
    }
}

// ---------------------------------------------------------------------------
// Laws
// ---------------------------------------------------------------------------

proof fn lemma_ten_is_two_fives(n: nat)
    ensures
        pow10(n) == two_to(n) * pow5(n),
    decreases n,
{
    if n > 0 {
        let m = (n - 1) as nat;
        lemma_ten_is_two_fives(m);
        let a = two_to(m);
        let b = pow5(m);
        assert((2 * a) * (5 * b) == 10 * (a * b)) by (nonlinear_arith);
    } else {
        assert(1 * 1 == 1nat) by (nonlinear_arith);
    }
}

/// The highest place that will do is at least any other one that will.
proof fn lemma_highest(v: nat, lo: nat, hi: nat, even: bool, f: nat, r: nat)
    requires
        f <= r,
        place_will_do(v, lo, hi, even, f),
    ensures
        f <= highest_place(v, lo, hi, even, r) <= r,
        place_will_do(v, lo, hi, even, highest_place(v, lo, hi, even, r)),
    decreases r,
{
    if r > f && !place_will_do(v, lo, hi, even, r) {
        lemma_highest(v, lo, hi, even, f, (r - 1) as nat);
    }
}

/// Where the middles are less than one away, a whole number is shown as it is.
proof fn lemma_whole_shown(k: nat, lo: nat, hi: nat, even: bool, f: nat, r: nat)
    requires
        f <= r,
        ({
            let v = k * pow10(f);
            &&& lo < v < hi
            &&& hi < v + pow10(f)
            &&& v < lo + pow10(f)
            &&& place_will_do(v, lo, hi, even, r)
        }),
    ensures
        shown_at(k * pow10(f), lo, hi, even, r) == k * pow10(f),
{
    let u = pow10(f);
    let v = k * u;
    let p = pow10(r);
    let c = cut_at(v, r);
    lemma_pow10_positive(f);
    lemma_pow10_positive(r);
    let e = pow10((r - f) as nat);
    crate::big::lemma_pow10_adds(f, (r - f) as nat);
    assert(p == u * e);
    let t = v / p;
    assert(c == (t * e) * u) by (nonlinear_arith)
        requires
            c == t * p,
            p == u * e,
    ;
    assert(c + p == ((t + 1) * e) * u) by (nonlinear_arith)
        requires
            c == t * p,
            p == u * e,
    ;
    assert(c <= v < c + p) by (nonlinear_arith)
        requires
            c == t * p,
            t == v / p,
            p > 0,
    ;
    let x = t * e;
    let y = (t + 1) * e;
    assert(x <= k) by (nonlinear_arith)
        requires
            x * u <= k * u,
            u > 0,
    ;
    assert(k < y) by (nonlinear_arith)
        requires
            k * u < y * u,
            u > 0,
    ;
    assert(y * u >= k * u + u) by (nonlinear_arith)
        requires
            k < y,
            u > 0,
    ;
    assert(!between(c + p, lo, hi, even));
    assert(between(c, lo, hi, even));
    if x < k {
        assert(x * u + u <= k * u) by (nonlinear_arith)
            requires
                x < k,
                u > 0,
        ;
    }
}

/// A whole number is shown in decimal, without a point.
pub proof fn law_whole_numbers_shown(k: nat)
    requires
        k < 0x10_0000_0000_0000,
    ensures
        double_text((k * 0x10_0000_0000_0000) as int) == decimal(k),
{
    let one: nat = 0x10_0000_0000_0000;
    let n = k * one;
    if k > 0 {
        assert(n >= one) by (nonlinear_arith)
            requires
                n == k * one,
                k > 0,
        ;
        assert(shift_of(n) == 0);
        assert(two_to(0) == 1);
        assert(n * 1 == n) by (nonlinear_arith);
        assert(shifted(n) == n);
        let g = granule(n);
        lemma_granule_bounds(n);
        assert(g <= one) by (nonlinear_arith)
            requires
                g > 1 ==> n >= one * g,
                n == k * one,
                k < one,
                one > 1,
        ;
        let q = pow5(54);
        let u = pow10(54);
        lemma_pow5_positive(54);
        lemma_ten_is_two_fives(54);
        assert(two_to(54) == 4 * one) by {
            reveal_with_fuel(two_to, 55);
        }
        let v = exact(n);
        assert(v == k * u) by (nonlinear_arith)
            requires
                v == 4 * n * q,
                n == k * one,
                u == (4 * one) * q,
        ;
        let hi = upper(n);
        let lo = lower(n);
        assert(v < hi < v + u) by (nonlinear_arith)
            requires
                v == 4 * n * q,
                hi == (4 * n + 2 * g) * q,
                u == (4 * one) * q,
                1 <= g <= one,
                q > 0,
        ;
        let gap = 4 * n - (if shifted(n) / g == one {
            g
        } else {
            2 * g
        });
        assert(n >= g);
        assert(lo == (gap as nat) * q);
        assert(lo < v < lo + u) by (nonlinear_arith)
            requires
                v == 4 * n * q,
                lo == gap * q,
                4 * n - 2 * g <= gap < 4 * n,
                u == (4 * one) * q,
                1 <= g <= one,
                q > 0,
        ;
        let even = is_even(n);
        lemma_pow10_positive(54);
        assert(cut_at(v, 54) == v) by {
            assert(k * u / u == k) by (nonlinear_arith)
                requires
                    u > 0,
            ;
        }
        assert(place_will_do(v, lo, hi, even, 54));
        lemma_pow10_above(54);
        assert(hi >= 54) by (nonlinear_arith)
            requires
                hi > v,
                v == k * u,
                k > 0,
                u > 54,
        ;
        lemma_highest(v, lo, hi, even, 54, hi);
        let r = last_place(n);
        lemma_whole_shown(k, lo, hi, even, 54, r);
        assert(k * u / u == k) by (nonlinear_arith)
            requires
                u > 0,
        ;
    } else {
        assert(n == 0);
    }
}

} // verus!
