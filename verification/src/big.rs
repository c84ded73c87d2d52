//! Numbers of any size, as their decimal digits with the lowest one first.

use vstd::prelude::*;

use crate::number::{decimal, digit_char};

verus! {

// ---------------------------------------------------------------------------
// What digits denote
// ---------------------------------------------------------------------------

/// Ten to the power of `n`.
pub open spec fn pow10(n: nat) -> nat
    decreases n,
{
    if n == 0 {
        1
    } else {
        10 * pow10((n - 1) as nat)
    }
}

/// Every item is a decimal digit.
pub open spec fn is_big(s: Seq<u8>) -> bool {
    forall|i: int| 0 <= i < s.len() ==> #[trigger] s[i] < 10
}

/// The number that the digits from position `i` on denote.
pub open spec fn high(s: Seq<u8>, i: int) -> nat
    decreases s.len() - i,
{
    if i < 0 || i >= s.len() {
        0
    } else {
        s[i] as nat + 10 * high(s, i + 1)
    }
}

/// The number that digits denote.
pub open spec fn big_value(s: Seq<u8>) -> nat {
    high(s, 0)
}

pub proof fn lemma_pow10_positive(n: nat)
    ensures
        pow10(n) > 0,
    decreases n,
{
    if n > 0 {
        lemma_pow10_positive((n - 1) as nat);
    }
}

pub proof fn lemma_pow10_adds(a: nat, b: nat)
    ensures
        pow10(a + b) == pow10(a) * pow10(b),
    decreases a,
{
    if a > 0 {
        lemma_pow10_adds((a - 1) as nat, b);
        let x = pow10((a - 1) as nat);
        let y = pow10(b);
        assert((10 * x) * y == 10 * (x * y)) by (nonlinear_arith);
        assert((a + b - 1) as nat == (a - 1) as nat + b);
    } else {
        assert(1 * pow10(b) == pow10(b)) by (nonlinear_arith);
    }
}

pub proof fn lemma_pow10_order(a: nat, b: nat)
    requires
        a <= b,
    ensures
        pow10(a) <= pow10(b),
    decreases b,
{
    if a < b {
        lemma_pow10_order(a, (b - 1) as nat);
    }
}

/// The digits from a position on depend on nothing before it.
proof fn lemma_high_shift(s: Seq<u8>, k: int, i: int)
    requires
        0 <= k <= s.len(),
        0 <= i,
    ensures
        high(s.skip(k), i) == high(s, i + k),
    decreases s.len() - i - k,
{
    if i + k < s.len() {
        lemma_high_shift(s, k, i + 1);
    }
}

/// One digit more at the top.
pub proof fn lemma_high_push(s: Seq<u8>, d: u8, i: int)
    requires
        0 <= i <= s.len(),
    ensures
        high(s.push(d), i) == high(s, i) + d * pow10((s.len() - i) as nat),
    decreases s.len() - i,
{
    let t = s.push(d);
    if i < s.len() {
        lemma_high_push(s, d, i + 1);
        let p = pow10((s.len() - i - 1) as nat);
        assert(10 * (d * p) == d * (10 * p)) by (nonlinear_arith);
        assert(pow10((s.len() - i) as nat) == 10 * p);
    } else {
        assert(high(t, i + 1) == 0);
        assert(d * 1 == d) by (nonlinear_arith);
    }
}

/// A number is below the power of ten of its length.
pub proof fn lemma_big_bound(s: Seq<u8>)
    requires
        is_big(s),
    ensures
        big_value(s) < pow10(s.len()),
    decreases s.len(),
{
    if s.len() > 0 {
        let t = s.skip(1);
        assert forall|i: int| 0 <= i < t.len() implies #[trigger] t[i] < 10 by {
            assert(t[i] == s[i + 1]);
        }
        lemma_big_bound(t);
        lemma_high_shift(s, 1, 0);
        assert(s[0] < 10);
    }
}

/// A number falls apart into its digits below a position and those from it on.
pub proof fn lemma_cut(s: Seq<u8>, r: int)
    requires
        is_big(s),
        0 <= r <= s.len(),
    ensures
        big_value(s) == big_value(s.take(r)) + pow10(r as nat) * high(s, r),
        big_value(s.take(r)) < pow10(r as nat),
        big_value(s) / pow10(r as nat) == high(s, r),
    decreases r,
{
    let t = s.take(r);
    assert forall|i: int| 0 <= i < t.len() implies #[trigger] t[i] < 10 by {
        assert(t[i] == s[i]);
    }
    lemma_big_bound(t);
    let p = pow10(r as nat);
    let h = high(s, r);
    if r > 0 {
        lemma_cut(s, r - 1);
        let u = s.take(r - 1);
        assert(t == u.push(s[r - 1]));
        lemma_high_push(u, s[r - 1], 0);
        let q = pow10((r - 1) as nat);
        let d = s[r - 1] as nat;
        assert(q * (d + 10 * h) == d * q + (10 * q) * h) by (nonlinear_arith);
    } else {
        assert(t == Seq::<u8>::empty());
        assert(1 * h == h) by (nonlinear_arith);
    }
    let v = big_value(s);
    let l = big_value(t);
    assert(v / p == h) by (nonlinear_arith)
        requires
            v == l + p * h,
            l < p,
    ;
}

// ---------------------------------------------------------------------------
// Arithmetic
// ---------------------------------------------------------------------------

/// The digits of a number.
pub fn big_of(n: u128) -> (r: Vec<u8>)
    ensures
        is_big(r@),
        big_value(r@) == n,
{
    let mut r: Vec<u8> = Vec::new();
    let mut x: u128 = n;
    assert(pow10(0) * x == x) by {
        assert(1 * x == x) by (nonlinear_arith);
    }
    while x > 0
        invariant
            is_big(r@),
            big_value(r@) + pow10(r@.len()) * x == n,
        decreases x,
    {
        proof {
            lemma_high_push(r@, (x % 10) as u8, 0);
            let p = pow10(r@.len());
            let d = (x % 10) as nat;
            let q = (x / 10) as nat;
            assert(p * (10 * q + d) == d * p + (10 * p) * q) by (nonlinear_arith);
        }
        r.push((x % 10) as u8);
        x = x / 10;
    }
    assert(pow10(r@.len()) * 0 == 0) by (nonlinear_arith);
    r
}

/// A digit, or 0 beyond the last one.
fn digit_at(a: &Vec<u8>, i: usize) -> (r: u8)
    requires
        is_big(a@),
    ensures
        r < 10,
        high(a@, i as int) == r + 10 * high(a@, i + 1),
{
    if i < a.len() {
        a[i]
    } else {
        0
    }
}

/// A small multiple of a number.
pub fn big_times(a: &Vec<u8>, k: u8) -> (r: Vec<u8>)
    requires
        is_big(a@),
        k <= 10,
    ensures
        is_big(r@),
        big_value(r@) == k * big_value(a@),
        r@.len() == a@.len() + 1,
{
    let mut r: Vec<u8> = Vec::new();
    let mut carry: u8 = 0;
    let ghost whole = k * big_value(a@);
    assert(pow10(0) * (whole + 0) == whole) by {
        assert(1 * whole == whole) by (nonlinear_arith);
    }
    let mut i: usize = 0;
    while i < a.len()
        invariant
            i <= a@.len(),
            i == r@.len(),
            is_big(a@),
            is_big(r@),
            k <= 10,
            carry < 10,
            whole == big_value(r@) + pow10(i as nat) * (k * high(a@, i as int) + carry),
        decreases a@.len() - i,
    {
        assert(a@[i as int] < 10);
        assert(a@[i as int] * k <= 90) by (nonlinear_arith)
            requires
                a@[i as int] < 10,
                k <= 10,
        ;
        let x: u8 = a[i] * k + carry;
        proof {
            lemma_high_push(r@, (x % 10) as u8, 0);
            let p = pow10(i as nat);
            let d = (x % 10) as nat;
            let c = (x / 10) as nat;
            let h = high(a@, i + 1);
            let e = a@[i as int] as nat;
            assert(p * (k * (e + 10 * h) + carry) == d * p + (10 * p) * (k * h + c))
                by (nonlinear_arith)
                requires
                    e * k + carry == 10 * c + d,
            ;
        }
        r.push(x % 10);
        carry = x / 10;
        i += 1;
    }
    proof {
        lemma_high_push(r@, carry, 0);
        let p = pow10(i as nat);
        assert(p * (k * 0 + carry) == carry * p) by (nonlinear_arith);
    }
    r.push(carry);
    r
}

/// The sum of two numbers.
pub fn big_plus(a: &Vec<u8>, b: &Vec<u8>) -> (r: Vec<u8>)
    requires
        is_big(a@),
        is_big(b@),
    ensures
        is_big(r@),
        big_value(r@) == big_value(a@) + big_value(b@),
        r@.len() > a@.len(),
{
    let n: usize = if a.len() < b.len() {
        b.len()
    } else {
        a.len()
    };
    let mut r: Vec<u8> = Vec::new();
    let mut carry: u8 = 0;
    let ghost whole = big_value(a@) + big_value(b@);
    assert(pow10(0) * whole == whole) by {
        assert(1 * whole == whole) by (nonlinear_arith);
    }
    let mut i: usize = 0;
    while i < n
        invariant
            i <= n,
            i == r@.len(),
            a@.len() <= n,
            b@.len() <= n,
            is_big(a@),
            is_big(b@),
            is_big(r@),
            carry <= 1,
            whole == big_value(r@) + pow10(i as nat) * (high(a@, i as int) + high(b@, i as int)
                + carry),
        decreases n - i,
    {
        let e = digit_at(a, i);
        let f = digit_at(b, i);
        let x: u8 = e + f + carry;
        proof {
            lemma_high_push(r@, (x % 10) as u8, 0);
            let p = pow10(i as nat);
            let d = (x % 10) as nat;
            let c = (x / 10) as nat;
            let h = high(a@, i + 1);
            let g = high(b@, i + 1);
            assert(p * ((e + 10 * h) + (f + 10 * g) + carry) == d * p + (10 * p) * (h + g + c))
                by (nonlinear_arith)
                requires
                    e + f + carry == 10 * c + d,
            ;
        }
        r.push(x % 10);
        carry = x / 10;
        i += 1;
    }
    proof {
        lemma_high_push(r@, carry, 0);
        let p = pow10(i as nat);
        assert(p * (0 + 0 + carry) == carry * p) by (nonlinear_arith);
    }
    r.push(carry);
    r
}

/// The difference of two numbers.
pub fn big_minus(a: &Vec<u8>, b: &Vec<u8>) -> (r: Vec<u8>)
    requires
        is_big(a@),
        is_big(b@),
        big_value(b@) <= big_value(a@),
    ensures
        is_big(r@),
        big_value(r@) == big_value(a@) - big_value(b@),
{
    let n: usize = if a.len() < b.len() {
        b.len()
    } else {
        a.len()
    };
    let mut r: Vec<u8> = Vec::new();
    let mut borrow: u8 = 0;
    let ghost whole: int = big_value(a@) - big_value(b@);
    assert(pow10(0) * whole == whole) by {
        assert(1 * whole == whole) by (nonlinear_arith);
    }
    let mut i: usize = 0;
    while i < n
        invariant
            i <= n,
            i == r@.len(),
            a@.len() <= n,
            b@.len() <= n,
            is_big(a@),
            is_big(b@),
            is_big(r@),
            borrow <= 1,
            whole == big_value(r@) + pow10(i as nat) * (high(a@, i as int) - high(b@, i as int)
                - borrow),
        decreases n - i,
    {
        let e = digit_at(a, i);
        let f = digit_at(b, i);
        let short = e < f + borrow;
        let d: u8 = if short {
            e + 10 - f - borrow
        } else {
            e - f - borrow
        };
        proof {
            lemma_high_push(r@, d, 0);
            let p: int = pow10(i as nat) as int;
            let c: int = if short {
                1
            } else {
                0
            };
            let h: int = high(a@, i + 1) as int;
            let g: int = high(b@, i + 1) as int;
            assert(p * ((e + 10 * h) - (f + 10 * g) - borrow) == d * p + (10 * p) * (h - g - c))
                by (nonlinear_arith)
                requires
                    e - f - borrow == d - 10 * c,
            ;
        }
        r.push(d);
        borrow = if short {
            1
        } else {
            0
        };
        i += 1;
    }
    proof {
        lemma_big_bound(r@);
        let p: int = pow10(i as nat) as int;
        assert(p * (0 - 0 - borrow) == -(borrow * p)) by (nonlinear_arith);
        if borrow == 1 {
            assert(1 * p == p) by (nonlinear_arith);
        } else {
            assert(0 * p == 0) by (nonlinear_arith);
        }
    }
    r
}

/// Whether one number is at most the other.
pub fn big_at_most(a: &Vec<u8>, b: &Vec<u8>) -> (r: bool)
    requires
        is_big(a@),
        is_big(b@),
    ensures
        r == (big_value(a@) <= big_value(b@)),
{
    let n: usize = if a.len() < b.len() {
        b.len()
    } else {
        a.len()
    };
    let mut i: usize = n;
    while i > 0
        invariant
            i <= n,
            a@.len() <= n,
            b@.len() <= n,
            is_big(a@),
            is_big(b@),
            high(a@, i as int) == high(b@, i as int),
        decreases i,
    {
        i -= 1;
        let e = digit_at(a, i);
        let f = digit_at(b, i);
        if e != f {
            proof {
                lemma_high_order(a@, b@, i as int);
                lemma_high_order(b@, a@, i as int);
            }
            return e < f;
        }
    }
    true
}

/// What is less in its high digits is less.
proof fn lemma_high_order(a: Seq<u8>, b: Seq<u8>, i: int)
    requires
        is_big(a),
        is_big(b),
        0 <= i,
    ensures
        high(a, i) < high(b, i) ==> big_value(a) < big_value(b),
    decreases i,
{
    if i > 0 && high(a, i) < high(b, i) {
        if i - 1 < a.len() {
            assert(a[i - 1] < 10);
        }
        if i - 1 >= b.len() {
            assert(high(b, i) == 0);
        }
        assert(high(a, i - 1) < high(b, i - 1)) by {
            if i - 1 >= a.len() {
                assert(high(a, i - 1) == 0);
            }
        }
        lemma_high_order(a, b, i - 1);
    }
}

/// A number that fits.
pub fn big_small(a: &Vec<u8>) -> (r: u64)
    requires
        is_big(a@),
        big_value(a@) <= u64::MAX,
    ensures
        r == big_value(a@),
{
    let mut r: u64 = 0;
    let mut i: usize = a.len();
    while i > 0
        invariant
            i <= a@.len(),
            is_big(a@),
            big_value(a@) <= u64::MAX,
            r == high(a@, i as int),
        decreases i,
    {
        i -= 1;
        proof {
            lemma_high_below(a@, i as int);
            assert(a@[i as int] < 10);
        }
        r = r * 10 + a[i] as u64;
    }
    r
}

proof fn lemma_high_below(a: Seq<u8>, i: int)
    requires
        0 <= i,
    ensures
        high(a, i) <= big_value(a),
    decreases i,
{
    if i > 0 {
        lemma_high_below(a, i - 1);
    }
}

/// The half of a number, and whether one is left over.
pub fn big_half(a: &Vec<u8>) -> (r: (Vec<u8>, bool))
    requires
        is_big(a@),
    ensures
        is_big(r.0@),
        big_value(r.0@) == big_value(a@) / 2,
        r.1 == (big_value(a@) % 2 == 1),
        r.0@.len() == a@.len(),
{
    let mut five = big_times(a, 5);
    let ghost before = five@;
    let d = five.remove(0);
    proof {
        assert(five@ == before.skip(1));
        lemma_high_shift(before, 1, 0);
        assert forall|i: int| 0 <= i < five@.len() implies #[trigger] five@[i] < 10 by {
            assert(five@[i] == before[i + 1]);
        }
        assert(before[0] < 10);
    }
    (five, d == 5)
}

/// A power of ten.
pub fn big_pow10(n: usize) -> (r: Vec<u8>)
    ensures
        is_big(r@),
        big_value(r@) == pow10(n as nat),
{
    let mut r: Vec<u8> = Vec::new();
    let mut i: usize = 0;
    while i < n
        invariant
            i <= n,
            i == r@.len(),
            is_big(r@),
            big_value(r@) == 0,
        decreases n - i,
    {
        proof {
            lemma_high_push(r@, 0, 0);
            assert(0 * pow10(i as nat) == 0) by (nonlinear_arith);
        }
        r.push(0);
        i += 1;
    }
    proof {
        lemma_high_push(r@, 1, 0);
        assert(1 * pow10(i as nat) == pow10(i as nat)) by (nonlinear_arith);
    }
    r.push(1);
    r
}

/// A number with the digits below a position set to 0.
pub fn big_cut(a: &Vec<u8>, r: usize) -> (c: Vec<u8>)
    requires
        is_big(a@),
        r <= a@.len(),
    ensures
        is_big(c@),
        c@.len() == a@.len(),
        big_value(c@) == big_value(a@) / pow10(r as nat) * pow10(r as nat),
        forall|i: int| r <= i < c@.len() ==> c@[i] == a@[i],
{
    let mut c: Vec<u8> = Vec::new();
    let mut i: usize = 0;
    while i < a.len()
        invariant
            i <= a@.len(),
            r <= a@.len(),
            i == c@.len(),
            is_big(a@),
            is_big(c@),
            forall|j: int| 0 <= j < i && j < r ==> c@[j] == 0,
            forall|j: int| r <= j < i ==> c@[j] == a@[j],
        decreases a@.len() - i,
    {
        if i < r {
            c.push(0);
        } else {
            c.push(a[i]);
        }
        i += 1;
    }
    proof {
        lemma_cut(a@, r as int);
        lemma_cut(c@, r as int);
        lemma_zeros(c@.take(r as int));
        lemma_same_high(a@, c@, r as int);
        let p = pow10(r as nat);
        let h = high(a@, r as int);
        assert(p * h == h * p) by (nonlinear_arith);
    }
    c
}

proof fn lemma_zeros(s: Seq<u8>)
    requires
        forall|i: int| 0 <= i < s.len() ==> s[i] == 0,
    ensures
        big_value(s) == 0,
    decreases s.len(),
{
    if s.len() > 0 {
        lemma_zeros(s.skip(1));
        lemma_high_shift(s, 1, 0);
    }
}

proof fn lemma_same_high(a: Seq<u8>, b: Seq<u8>, i: int)
    requires
        0 <= i,
        a.len() == b.len(),
        forall|j: int| i <= j < a.len() ==> a[j] == b[j],
    ensures
        high(a, i) == high(b, i),
    decreases a.len() - i,
{
    if i < a.len() {
        lemma_same_high(a, b, i + 1);
    }
}

/// Adds in decimal the number that the digits from position `from` on denote.
pub fn push_big_from(out: &mut String, a: &Vec<u8>, from: usize)
    requires
        is_big(a@),
        from <= a@.len(),
    ensures
        final(out)@ == old(out)@ + decimal(big_value(a@) / pow10(from as nat)),
{
    proof {
        lemma_cut(a@, from as int);
    }
    let mut i: usize = a.len();
    while i > from && a[i - 1] == 0
        invariant
            from <= i <= a@.len(),
            is_big(a@),
            high(a@, i as int) == 0,
        decreases i,
    {
        i -= 1;
    }
    let ghost before = out@;
    if i == from {
        out.push('0');
        assert(decimal(0) == seq![digit_char(0)]);
        assert(out@ == before + decimal(0));
        return;
    }
    i -= 1;
    assert(a@[i as int] < 10);
    out.push(('0' as u8 + a[i]) as char);
    assert(decimal(high(a@, i as int)) == seq![digit_char(a@[i as int] as nat)]);
    assert(out@ == before + decimal(high(a@, i as int)));
    while i > from
        invariant
            from <= i <= a@.len(),
            is_big(a@),
            high(a@, i as int) > 0,
            out@ == before + decimal(high(a@, i as int)),
        decreases i,
    {
        i -= 1;
        assert(a@[i as int] < 10);
        let ghost h = high(a@, i + 1);
        let ghost d = a@[i as int] as nat;
        out.push(('0' as u8 + a[i]) as char);
        assert((d + 10 * h) / 10 == h && (d + 10 * h) % 10 == d);
        assert(decimal(d + 10 * h) == decimal(h).push(digit_char(d)));
        assert(out@ == before + decimal(high(a@, i as int)));
    }
}

} // verus!
