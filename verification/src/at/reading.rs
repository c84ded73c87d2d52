//! Decimal numbers as a sensor writes them, and their whole part for display.

use vstd::prelude::*;
use vstd::string::StringExecFns;

use crate::big::{
    big_times, big_value, is_big, lemma_high_push, lemma_pow10_adds, lemma_pow10_order,
    lemma_pow10_positive, pow10, push_big_from,
};
use crate::double::{
    is_beyond, lemma_below_a_quarter, lemma_beyond, lemma_nearest_zero, nearest_integer,
    round_as_double,
};
use crate::number::{all_digits, decimal, digits_value, is_ascii_digit, is_digit, without_plus};
use crate::text::{
    chars_of, concat2, eq_ignore_ascii_case, index_of_char, lemma_index_of_char,
    lemma_index_of_char_bounds, same_but_case, text_of,
};

verus! {

// ---------------------------------------------------------------------------
// What a number is
// ---------------------------------------------------------------------------

/// `s` without one leading sign.
pub open spec fn magnitude(s: Seq<char>) -> Seq<char> {
    if s.len() > 0 && (s[0] == '+' || s[0] == '-') {
        s.skip(1)
    } else {
        s
    }
}

/// Position of the first `e`, in either case, or the length of `m`.
pub open spec fn exponent_at(m: Seq<char>) -> int {
    let a = index_of_char(m, 'e');
    let b = index_of_char(m, 'E');
    if a < b {
        a
    } else {
        b
    }
}

/// What stands before the exponent.
pub open spec fn mantissa(m: Seq<char>) -> Seq<char> {
    m.take(exponent_at(m))
}

/// The digits before the decimal point.
pub open spec fn before_point(m: Seq<char>) -> Seq<char> {
    mantissa(m).take(index_of_char(mantissa(m), '.'))
}

/// The digits after the decimal point.
pub open spec fn after_point(m: Seq<char>) -> Seq<char> {
    let p = index_of_char(mantissa(m), '.');
    if p < mantissa(m).len() {
        mantissa(m).skip(p + 1)
    } else {
        Seq::empty()
    }
}

/// The digits of an exponent, without its sign.
pub open spec fn exponent_digits(x: Seq<char>) -> Seq<char> {
    if x.len() > 0 && x[0] == '-' {
        x.skip(1)
    } else {
        without_plus(x)
    }
}

/// The number that an exponent denotes.
pub open spec fn exponent_value(x: Seq<char>) -> int {
    if x.len() > 0 && x[0] == '-' {
        -(digits_value(exponent_digits(x)) as int)
    } else {
        digits_value(exponent_digits(x)) as int
    }
}

/// Digits with at most one decimal point among them, then possibly an exponent.
pub open spec fn is_decimal(m: Seq<char>) -> bool {
    &&& all_digits(before_point(m))
    &&& all_digits(after_point(m))
    &&& before_point(m).len() + after_point(m).len() > 0
    &&& exponent_at(m) < m.len() ==> {
        let d = exponent_digits(m.skip(exponent_at(m) + 1));
        d.len() > 0 && all_digits(d)
    }
}

/// An infinity.
pub open spec fn is_infinity(m: Seq<char>) -> bool {
    same_but_case(m, "inf"@) || same_but_case(m, "infinity"@)
}

/// No number at all.
pub open spec fn is_nan(m: Seq<char>) -> bool {
    same_but_case(m, "nan"@)
}

/// `s` writes a number: an optional sign, then a decimal number, an infinity or `nan`.
pub open spec fn is_number(s: Seq<char>) -> bool {
    let m = magnitude(s);
    is_infinity(m) || is_nan(m) || is_decimal(m)
}

// ---------------------------------------------------------------------------
// Its whole part
// ---------------------------------------------------------------------------

/// All digits of a decimal number, without the point.
pub open spec fn number_digits(m: Seq<char>) -> Seq<char> {
    before_point(m) + after_point(m)
}

/// How many of the digits stand before the point once the exponent is applied.
pub open spec fn point_place(m: Seq<char>) -> int {
    if exponent_at(m) < m.len() {
        before_point(m).len() + exponent_value(m.skip(exponent_at(m) + 1))
    } else {
        before_point(m).len() as int
    }
}

/// The numerator of `0.d` shifted by `p` places.
pub open spec fn numerator(d: Seq<char>, p: int) -> nat {
    if p > d.len() {
        digits_value(d) * pow10((p - d.len()) as nat)
    } else {
        digits_value(d)
    }
}

/// The denominator of `0.d` shifted by `p` places.
pub open spec fn denominator(d: Seq<char>, p: int) -> nat {
    if p < d.len() {
        pow10((d.len() - p) as nat)
    } else {
        1
    }
}

/// The integer nearest to the double-precision number nearest to `0.d` shifted by `p` places. A
/// number beyond the range of such numbers shows as `inf`.
pub open spec fn rounded_digits(d: Seq<char>, p: int) -> Seq<char> {
    let n = numerator(d, p);
    let m = denominator(d, p);
    if is_beyond(n, m) {
        "inf"@
    } else {
        decimal(nearest_integer(n, m))
    }
}

/// The number rounded to an integer, with its minus sign.
pub open spec fn rounded_text(s: Seq<char>) -> Seq<char> {
    let m = magnitude(s);
    let t = if is_infinity(m) {
        "inf"@
    } else {
        rounded_digits(number_digits(m), point_place(m))
    };
    if is_nan(m) {
        "NaN"@
    } else if s.len() > 0 && s[0] == '-' {
        "-"@ + t
    } else {
        t
    }
}

// ---------------------------------------------------------------------------
// Reading
// ---------------------------------------------------------------------------

/// Bound beyond which only the sign of an exponent matters.
pub open spec fn far() -> int {
    0x10000_0000_0000_0000_0000
}

/// `v` stands for `n`: equal, or both far beyond any length of text.
pub open spec fn stands_for(v: int, n: int) -> bool {
    v == n || (v >= far() && n >= far()) || (v <= -far() && n <= -far())
}

/// A number taken apart: its digits and the place of the point among them.
struct Scanned {
    digits: Vec<char>,
    point: i128,
}

fn only_digits(cs: &Vec<char>, from: usize, to: usize) -> (r: bool)
    requires
        from <= to <= cs@.len(),
    ensures
        r == all_digits(cs@.subrange(from as int, to as int)),
{
    let ghost t = cs@.subrange(from as int, to as int);
    let mut i: usize = from;
    while i < to
        invariant
            from <= i <= to <= cs@.len(),
            t == cs@.subrange(from as int, to as int),
            forall|j: int| 0 <= j < i - from ==> is_digit(#[trigger] t[j]),
        decreases to - i,
    {
        assert(t[i - from] == cs@[i as int]);
        if !is_ascii_digit(cs[i]) {
            return false;
        }
        i += 1;
    }
    true
}

/// The value of digits, exact as long as it is below `far`.
fn capped_value(cs: &Vec<char>, from: usize) -> (r: i128)
    requires
        from <= cs@.len(),
        all_digits(cs@.skip(from as int)),
    ensures
        0 <= r < 100 * far(),
        r == digits_value(cs@.skip(from as int)) || (r >= 2 * far() && digits_value(
            cs@.skip(from as int),
        ) >= 2 * far()),
{
    let ghost t = cs@.skip(from as int);
    let mut v: i128 = 0;
    let mut i: usize = from;
    while i < cs.len()
        invariant
            from <= i <= cs@.len(),
            t == cs@.skip(from as int),
            all_digits(t),
            0 <= v < 100 * far(),
            v == digits_value(t.take(i - from)) || (v >= 2 * far() && digits_value(
                t.take(i - from),
            ) >= 2 * far()),
        decreases cs@.len() - i,
    {
        let c = cs[i];
        assert(t.take(i - from + 1).drop_last() == t.take(i - from));
        assert(t.take(i - from + 1).last() == c);
        assert(c == t[i - from]);
        assert(is_digit(c));
        if v < 0x20000_0000_0000_0000_0000 {
            v = v * 10 + (c as u8 - '0' as u8) as i128;
        }
        i += 1;
    }
    assert(t.take(i - from) == t);
    v
}

/// Position of the exponent in `cs[from..]`.
fn find_exponent(cs: &Vec<char>, from: usize) -> (r: usize)
    requires
        from <= cs@.len(),
    ensures
        from <= r <= cs@.len(),
        r - from == exponent_at(cs@.skip(from as int)),
{
    let ghost m = cs@.skip(from as int);
    let mut i: usize = from;
    while i < cs.len() && cs[i] != 'e' && cs[i] != 'E'
        invariant
            from <= i <= cs@.len(),
            m == cs@.skip(from as int),
            forall|j: int| 0 <= j < i - from ==> m[j] != 'e' && m[j] != 'E',
        decreases cs@.len() - i,
    {
        assert(m[i - from] == cs@[i as int]);
        i += 1;
    }
    proof {
        lemma_index_of_char_bounds(m, 'e');
        lemma_index_of_char_bounds(m, 'E');
        if i < cs@.len() {
            assert(m[i - from] == cs@[i as int]);
            if cs@[i as int] == 'e' {
                lemma_index_of_char(m, 'e', i - from);
            } else {
                lemma_index_of_char(m, 'E', i - from);
            }
        }
    }
    i
}

/// Position of the decimal point in `cs[from..to]`.
fn find_point(cs: &Vec<char>, from: usize, to: usize) -> (r: usize)
    requires
        from <= to <= cs@.len(),
    ensures
        from <= r <= to,
        r - from == index_of_char(cs@.subrange(from as int, to as int), '.'),
{
    let ghost m = cs@.subrange(from as int, to as int);
    let mut i: usize = from;
    while i < to && cs[i] != '.'
        invariant
            from <= i <= to <= cs@.len(),
            m == cs@.subrange(from as int, to as int),
            forall|j: int| 0 <= j < i - from ==> m[j] != '.',
        decreases to - i,
    {
        assert(m[i - from] == cs@[i as int]);
        i += 1;
    }
    proof {
        if i < to {
            assert(m[i - from] == cs@[i as int]);
        }
        lemma_index_of_char(m, '.', i - from);
    }
    i
}

/// Appends `cs[from..to]` to `out`.
fn push_all(out: &mut Vec<char>, cs: &Vec<char>, from: usize, to: usize)
    requires
        from <= to <= cs@.len(),
    ensures
        final(out)@ == old(out)@ + cs@.subrange(from as int, to as int),
{
    let mut i: usize = from;
    while i < to
        invariant
            from <= i <= to <= cs@.len(),
            out@ == old(out)@ + cs@.subrange(from as int, i as int),
        decreases to - i,
    {
        out.push(cs[i]);
        i += 1;
        assert(cs@.subrange(from as int, i as int) == cs@.subrange(from as int, i - 1).push(
            cs@[i - 1],
        ));
    }
}

/// The exponent in `cs[from..]`.
fn scan_exponent(cs: &Vec<char>, from: usize) -> (r: Option<i128>)
    requires
        from <= cs@.len(),
    ensures
        ({
            let x = cs@.skip(from as int);
            let d = exponent_digits(x);
            match r {
                Some(v) => {
                    &&& d.len() > 0
                    &&& all_digits(d)
                    &&& -100 * far() < v < 100 * far()
                    &&& v == exponent_value(x) || (v >= 2 * far() && exponent_value(x) >= 2 * far())
                        || (v <= -2 * far() && exponent_value(x) <= -2 * far())
                },
                None => !(d.len() > 0 && all_digits(d)),
            }
        }),
{
    let n = cs.len();
    let negative = from < n && cs[from] == '-';
    let start: usize = if from < n && (cs[from] == '-' || cs[from] == '+') {
        from + 1
    } else {
        from
    };
    proof {
        let x = cs@.skip(from as int);
        if from < n {
            assert(x[0] == cs@[from as int]);
        }
        assert(exponent_digits(x) == cs@.skip(start as int));
        assert(cs@.skip(start as int) == cs@.subrange(start as int, n as int));
    }
    if start == n || !only_digits(cs, start, n) {
        return None;
    }
    let v = capped_value(cs, start);
    if negative {
        Some(-v)
    } else {
        Some(v)
    }
}

/// Takes the decimal number in `cs[from..]` apart.
fn scan_decimal(cs: &Vec<char>, from: usize) -> (r: Option<Scanned>)
    requires
        from <= cs@.len(),
    ensures
        ({
            let m = cs@.skip(from as int);
            match r {
                Some(n) => {
                    &&& is_decimal(m)
                    &&& n.digits@ == number_digits(m)
                    &&& stands_for(n.point as int, point_place(m))
                    &&& -200 * far() < n.point < 200 * far()
                },
                None => !is_decimal(m),
            }
        }),
{
    let e = find_exponent(cs, from);
    let p = find_point(cs, from, e);
    let ghost m = cs@.skip(from as int);
    assert(mantissa(m) == cs@.subrange(from as int, e as int));
    assert(before_point(m) == cs@.subrange(from as int, p as int));
    let q: usize = if p < e {
        p + 1
    } else {
        e
    };
    assert(after_point(m) == cs@.subrange(q as int, e as int));
    if !only_digits(cs, from, p) || !only_digits(cs, q, e) || (p - from == 0 && e - q == 0) {
        return None;
    }
    let mut point: i128 = (p - from) as i128;
    if e < cs.len() {
        assert(m.skip(exponent_at(m) + 1) == cs@.skip(e + 1));
        match scan_exponent(cs, e + 1) {
            Some(v) => {
                point = point + v;
            },
            None => {
                return None;
            },
        }
    }
    let mut digits: Vec<char> = Vec::new();
    push_all(&mut digits, cs, from, p);
    push_all(&mut digits, cs, q, e);
    assert(digits@ == number_digits(m));
    Some(Scanned { digits, point })
}

// ---------------------------------------------------------------------------
// Rounding
// ---------------------------------------------------------------------------

/// Position of the first digit other than zero, or the length.
fn count_zeros(d: &Vec<char>) -> (k: usize)
    ensures
        k <= d@.len(),
        forall|i: int| 0 <= i < k ==> d@[i] == '0',
        k < d@.len() ==> d@[k as int] != '0',
{
    let mut k: usize = 0;
    while k < d.len() && d[k] == '0'
        invariant
            k <= d@.len(),
            forall|i: int| 0 <= i < k ==> d@[i] == '0',
        decreases d@.len() - k,
    {
        k += 1;
    }
    k
}

/// Digits fall apart into those before a position and those from it on.
proof fn lemma_digits_split(d: Seq<char>, p: int)
    requires
        0 <= p <= d.len(),
    ensures
        digits_value(d) == digits_value(d.take(p)) * pow10((d.len() - p) as nat) + digits_value(
            d.skip(p),
        ),
    decreases d.len() - p,
{
    if p == d.len() {
        assert(d.take(p) == d);
        assert(d.skip(p) == Seq::<char>::empty());
        let v = digits_value(d);
        assert(v * 1 == v) by (nonlinear_arith);
    } else {
        let h = d.drop_last();
        lemma_digits_split(h, p);
        assert(h.take(p) == d.take(p));
        assert(h.skip(p) == d.skip(p).drop_last());
        assert(d.skip(p).last() == d.last());
        let a = digits_value(d.take(p));
        let q = pow10((h.len() - p) as nat);
        assert(10 * (a * q) == a * (10 * q)) by (nonlinear_arith);
        assert(pow10((d.len() - p) as nat) == 10 * q);
    }
}

/// Digits are below the power of ten of their number.
proof fn lemma_digits_bound(d: Seq<char>)
    requires
        all_digits(d),
    ensures
        digits_value(d) < pow10(d.len()),
    decreases d.len(),
{
    if d.len() > 0 {
        assert(all_digits(d.drop_last()));
        lemma_digits_bound(d.drop_last());
        assert(is_digit(d.last()));
    }
}

/// Digits with `k` zeros at the front and no more denote at least the power of ten of the rest
/// but one.
proof fn lemma_digits_at_least(d: Seq<char>, k: int)
    requires
        all_digits(d),
        0 <= k < d.len(),
        d[k] != '0',
    ensures
        digits_value(d) >= pow10((d.len() - k - 1) as nat),
    decreases d.len(),
{
    let h = d.drop_last();
    assert(is_digit(d.last()));
    assert(all_digits(h));
    if k < h.len() {
        lemma_digits_at_least(h, k);
    } else {
        assert(is_digit(d[k]));
    }
}

proof fn lemma_all_zeros(d: Seq<char>)
    requires
        forall|i: int| 0 <= i < d.len() ==> d[i] == '0',
    ensures
        digits_value(d) == 0,
    decreases d.len(),
{
    if d.len() > 0 {
        lemma_all_zeros(d.drop_last());
    }
}

/// The number that `d[from..to]` denotes, with as many digits.
fn big_digits(d: &Vec<char>, from: usize, to: usize) -> (r: Vec<u8>)
    requires
        all_digits(d@),
        from <= to <= d@.len(),
    ensures
        is_big(r@),
        r@.len() == to - from,
        big_value(r@) == digits_value(d@.subrange(from as int, to as int)),
{
    let ghost t = d@.subrange(from as int, to as int);
    let mut r: Vec<u8> = Vec::new();
    let mut i: usize = to;
    proof {
        assert(t.take(t.len() as int) == t);
        let v = digits_value(t);
        assert(v * 1 == v) by (nonlinear_arith);
    }
    while i > from
        invariant
            from <= i <= to <= d@.len(),
            t == d@.subrange(from as int, to as int),
            all_digits(d@),
            is_big(r@),
            r@.len() == to - i,
            digits_value(t) == digits_value(t.take(i - from)) * pow10((to - i) as nat) + big_value(
                r@,
            ),
        decreases i,
    {
        i -= 1;
        let c = d[i];
        assert(is_digit(d@[i as int]));
        let x: u8 = c as u8 - '0' as u8;
        proof {
            let u = t.take(i + 1 - from);
            assert(u.last() == c);
            assert(u.drop_last() == t.take(i - from));
            lemma_high_push(r@, x, 0);
            let a = digits_value(t.take(i - from));
            let q = pow10((to - i - 1) as nat);
            assert((10 * a + x) * q == a * (10 * q) + x * q) by (nonlinear_arith);
        }
        r.push(x);
    }
    proof {
        assert(t.take(0) == Seq::<char>::empty());
        let q = pow10((to - from) as nat);
        assert(0 * q == 0) by (nonlinear_arith);
    }
    r
}

/// A number whose first digit other than zero stands so far before the point is an infinity.
proof fn lemma_far_before_point(d: Seq<char>, p: int, k: int)
    requires
        all_digits(d),
        0 <= k < d.len(),
        d[k] != '0',
        p - k > 350,
    ensures
        is_beyond(numerator(d, p), denominator(d, p)),
{
    let n = numerator(d, p);
    let m = denominator(d, p);
    let v = digits_value(d);
    let big = pow10(350);
    lemma_digits_at_least(d, k);
    let low = pow10((d.len() - k - 1) as nat);
    lemma_pow10_positive(350);
    if p < d.len() {
        lemma_pow10_adds(350, (d.len() - p) as nat);
        lemma_pow10_order(350 + (d.len() - p) as nat, (d.len() - k - 1) as nat);
        lemma_pow10_positive((d.len() - p) as nat);
        assert(n >= m * big) by (nonlinear_arith)
            requires
                n >= low,
                low >= big * m,
        ;
    } else {
        let z = (p - d.len()) as nat;
        lemma_pow10_adds((d.len() - k - 1) as nat, z);
        lemma_pow10_order(350, (d.len() - k - 1) as nat + z);
        let q = pow10(z);
        assert(v * q >= low * q) by (nonlinear_arith)
            requires
                v >= low,
        ;
        assert(n == v * q) by {
            if p == d.len() {
                assert(v * 1 == v) by (nonlinear_arith);
            }
        }
        assert(1 * big == big) by (nonlinear_arith);
    }
    lemma_beyond(n, m);
}

/// A number whose first digit stands after a zero behind the point rounds to nothing.
proof fn lemma_behind_point(d: Seq<char>, p: int)
    requires
        all_digits(d),
        p < 0,
        digits_value(d) > 0,
    ensures
        !is_beyond(numerator(d, p), denominator(d, p)),
        nearest_integer(numerator(d, p), denominator(d, p)) == 0,
{
    lemma_digits_bound(d);
    lemma_pow10_order(d.len() + 1, (d.len() - p) as nat);
    lemma_below_a_quarter(numerator(d, p), denominator(d, p));
}

/// The text of a number that has been taken apart.
fn rounded_scan(n: &Scanned, Ghost(p): Ghost<int>) -> (r: String)
    requires
        all_digits(n.digits@),
        stands_for(n.point as int, p),
        -200 * far() < n.point < 200 * far(),
    ensures
        r@ == rounded_digits(n.digits@, p),
{
    let d = &n.digits;
    let k = count_zeros(d);
    let len = d.len();
    let mut r = String::new();
    if k == len {
        proof {
            lemma_all_zeros(d@);
            if p > len {
                let q = pow10((p - len) as nat);
                assert(0 * q == 0) by (nonlinear_arith);
            }
            if p < len {
                lemma_pow10_positive((len - p) as nat);
            }
            lemma_nearest_zero(denominator(d@, p));
        }
        r.push('0');
        assert(r@ == decimal(0));
        return r;
    }
    if n.point - k as i128 > 350 {
        proof {
            lemma_far_before_point(d@, p, k as int);
        }
        return "inf".to_owned();
    }
    assert(n.point < far());
    proof {
        lemma_digits_at_least(d@, k as int);
        lemma_pow10_positive((len - k - 1) as nat);
    }
    if n.point < 0 {
        assert(p < 0);
        proof {
            lemma_behind_point(d@, p);
        }
        r.push('0');
        assert(r@ == decimal(0));
        return r;
    }
    assert(n.point == p);
    let point: usize = if n.point <= len as i128 {
        n.point as usize
    } else {
        len
    };
    let mut w = big_digits(d, 0, point);
    let f = big_digits(d, point, len);
    proof {
        lemma_digits_split(d@, point as int);
        assert(d@.take(point as int) == d@.subrange(0, point as int));
        assert(d@.skip(point as int) == d@.subrange(point as int, len as int));
        let v = digits_value(d@);
        assert(v * 1 == v) by (nonlinear_arith);
        if p >= len {
            assert(d@.take(point as int) == d@);
            assert(d@.skip(point as int) == Seq::<char>::empty());
        }
    }
    let mut i: i128 = len as i128;
    while i < n.point
        invariant
            len <= i,
            len == d@.len(),
            n.point < far(),
            i <= n.point || i == len,
            n.point > len ==> is_big(w@) && big_value(w@) == digits_value(d@) * pow10(
                (i - len) as nat,
            ),
            n.point <= len ==> is_big(w@) && big_value(w@) == digits_value(d@.take(point as int)),
        decreases n.point - i,
    {
        proof {
            let v = digits_value(d@);
            let q = pow10((i - len) as nat);
            assert(10 * (v * q) == v * (10 * q)) by (nonlinear_arith);
        }
        w = big_times(&w, 10);
        i += 1;
    }
    proof {
        if p > len {
            let v = big_value(w@);
            assert(v * 1 == v) by (nonlinear_arith);
        }
        if p == len {
            let v = big_value(w@);
            assert(v * 1 == v) by (nonlinear_arith);
        }
    }
    match round_as_double(&w, &f) {
        Some(b) => {
            proof {
                let v = big_value(b@);
                assert(v / 1 == v) by (nonlinear_arith);
            }
            push_big_from(&mut r, &b, 0);
            assert(r@ == decimal(big_value(b@)));
            r
        },
        None => "inf".to_owned(),
    }
}

/// Whether `s` writes a number.
pub fn is_number_text(s: &str) -> (r: bool)
    ensures
        r == is_number(s@),
{
    match round_number(s) {
        Some(_) => true,
        None => false,
    }
}

/// The number that `s` writes, rounded to an integer; nothing where it writes none.
pub fn round_number(s: &str) -> (r: Option<String>)
    ensures
        match r {
            Some(t) => is_number(s@) && t@ == rounded_text(s@),
            None => !is_number(s@),
        },
{
    let cs = chars_of(s);
    let n = cs.len();
    let negative = n > 0 && cs[0] == '-';
    let from: usize = if n > 0 && (cs[0] == '+' || cs[0] == '-') {
        1
    } else {
        0
    };
    let ghost m = magnitude(s@);
    assert(m == cs@.skip(from as int));
    assert(m == cs@.subrange(from as int, n as int));
    let word = text_of(&cs, from, n);
    if eq_ignore_ascii_case(&word, "nan") {
        return Some("NaN".to_owned());
    }
    let text = if eq_ignore_ascii_case(&word, "inf") || eq_ignore_ascii_case(&word, "infinity") {
        "inf".to_owned()
    } else {
        match scan_decimal(&cs, from) {
            Some(number) => {
                proof {
                    assert forall|i: int|
                        0 <= i < number_digits(m).len() implies is_digit(
                        #[trigger] number_digits(m)[i],
                    ) by {
                        if i >= before_point(m).len() {
                            assert(is_digit(after_point(m)[i - before_point(m).len()]));
                        } else {
                            assert(is_digit(before_point(m)[i]));
                        }
                    }
                }
                rounded_scan(&number, Ghost(point_place(m)))
            },
            None => {
                return None;
            },
        }
    };
    if negative {
        Some(concat2("-", &text))
    } else {
        Some(text)
    }
}

} // verus!
