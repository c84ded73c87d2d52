//! What holds of texts and of the numbers in them.

use vstd::prelude::*;

use crate::number::{
    decimal, digits_value, hex_lower, hex_upper, hex_value, hexadecimal, is_digit, is_hex,
    lemma_decimal, parsed_i32, parsed_uint, signed_decimal,
};
use crate::text::{
    after_prefix, before_suffix, found_from, index_of_space, is_space, joined, lemma_index_of_char,
    lines_of, mentions, occurs_at, pieces, same_but_case, stripped, stripped_end, stripped_start,
    trimmed, trimmed_end, trimmed_start, without_cr, words_of,
};

verus! {

// ---------------------------------------------------------------------------
// White space
// ---------------------------------------------------------------------------

/// The characters of white space, one by one.
pub proof fn law_white_space(c: char)
    ensures
        is_space(c) <==> c == '\t' || c == '\n' || c == '\u{b}' || c == '\u{c}' || c == '\r' || c
            == ' ' || c == '\u{85}' || c == '\u{a0}' || c == '\u{1680}' || c == '\u{2000}' || c
            == '\u{2001}' || c == '\u{2002}' || c == '\u{2003}' || c == '\u{2004}' || c == '\u{2005}'
            || c == '\u{2006}' || c == '\u{2007}' || c == '\u{2008}' || c == '\u{2009}' || c
            == '\u{200a}' || c == '\u{2028}' || c == '\u{2029}' || c == '\u{202f}' || c == '\u{205f}'
            || c == '\u{3000}',
{
}

/// A text of white space.
pub open spec fn is_blank(s: Seq<char>) -> bool {
    forall|i: int| 0 <= i < s.len() ==> is_space(#[trigger] s[i])
}

proof fn lemma_trim_start(a: Seq<char>, s: Seq<char>)
    requires
        is_blank(a),
        s.len() > 0 ==> !is_space(s[0]),
    ensures
        trimmed_start(a + s) == s,
    decreases a.len(),
{
    if a.len() == 0 {
        assert(a + s == s);
    } else {
        let b = a.drop_first();
        assert((a + s).drop_first() == b + s);
        assert(is_space(a[0]));
        assert forall|i: int| 0 <= i < b.len() implies is_space(#[trigger] b[i]) by {
            assert(is_space(a[i + 1]));
        }
        lemma_trim_start(b, s);
    }
}

proof fn lemma_trim_end(s: Seq<char>, b: Seq<char>)
    requires
        is_blank(b),
        s.len() > 0 ==> !is_space(s.last()),
    ensures
        trimmed_end(s + b) == s,
    decreases b.len(),
{
    if b.len() == 0 {
        assert(s + b == s);
    } else {
        let c = b.drop_last();
        assert((s + b).drop_last() == s + c);
        assert(is_space(b[b.len() - 1]));
        assert((s + b).last() == b.last());
        assert forall|i: int| 0 <= i < c.len() implies is_space(#[trigger] c[i]) by {
            assert(is_space(b[i]));
        }
        lemma_trim_end(s, c);
    }
}

/// Trimming takes away exactly the white space around a text.
pub proof fn law_trimming(a: Seq<char>, s: Seq<char>, b: Seq<char>)
    requires
        is_blank(a),
        is_blank(b),
        s.len() > 0 ==> !is_space(s[0]) && !is_space(s.last()),
    ensures
        trimmed(a + s + b) == s,
{
    if s.len() > 0 {
        assert(a + s + b == a + (s + b));
        assert((s + b)[0] == s[0]);
        lemma_trim_start(a, s + b);
        lemma_trim_end(s, b);
    } else {
        let w = a + s + b;
        assert(s == Seq::<char>::empty());
        assert forall|i: int| 0 <= i < w.len() implies is_space(#[trigger] w[i]) by {
            if i < a.len() {
                assert(is_space(a[i]));
            } else {
                assert(is_space(b[i - a.len()]));
            }
        }
        lemma_trim_start(w, s);
        assert(w + s == w);
        assert(trimmed_end(s) == s);
    }
}

// ---------------------------------------------------------------------------
// Parts
// ---------------------------------------------------------------------------

/// What stands after a beginning and before an end.
pub proof fn law_prefix_and_suffix(p: Seq<char>, s: Seq<char>, other: Seq<char>)
    ensures
        after_prefix(p + s, p) == Some(s),
        before_suffix(s + p, p) == Some(s),
        after_prefix(other, p) is Some <==> other.len() >= p.len() && other.take(p.len() as int) == p,
        before_suffix(other, p) is Some <==> other.len() >= p.len() && other.skip(
            other.len() - p.len(),
        ) == p,
{
    assert(p == (p + s).subrange(0, p.len() as int));
    assert((p + s).skip(p.len() as int) == s);
    let t = s + p;
    assert(p == t.subrange(t.len() - p.len(), t.len() as int));
    assert(t.take(t.len() - p.len()) == s);
    if other.len() >= p.len() {
        assert(other.take(p.len() as int) == other.subrange(0, p.len() as int));
        assert(other.skip(other.len() - p.len()) == other.subrange(
            other.len() - p.len(),
            other.len() as int,
        ));
    }
}

/// A text mentions another exactly where it is made of something, that text and something more.
pub proof fn law_mentions(a: Seq<char>, p: Seq<char>, b: Seq<char>, s: Seq<char>)
    ensures
        mentions(a + p + b, p),
        mentions(s, p) ==> exists|i: int|
            0 <= i && i + p.len() <= s.len() && s == #[trigger] s.take(i) + p + s.skip(i + p.len()),
        s.len() < p.len() ==> !mentions(s, p),
{
    let t = a + p + b;
    assert(t.subrange(a.len() as int, a.len() + p.len() as int) == p);
    assert(occurs_at(t, p, a.len() as int));
    if mentions(s, p) {
        let i = choose|i: int| occurs_at(s, p, i);
        assert(s == s.take(i) + p + s.skip(i + p.len())) by {
            assert(s.subrange(i, i + p.len()) == p);
            assert(s == s.take(i) + s.subrange(i, i + p.len()) + s.skip(i + p.len()));
        }
    }
}

/// A search finds the first place at or after its start, and none where there is none.
pub proof fn law_search(s: Seq<char>, p: Seq<char>, i: int)
    requires
        0 <= i,
    ensures
        found_from(s, p, i) matches Some(k) ==> k >= i && occurs_at(s, p, k) && forall|j: int|
            i <= j < k ==> !occurs_at(s, p, j),
        found_from(s, p, i) is None ==> forall|j: int| i <= j ==> !occurs_at(s, p, j),
    decreases s.len() + 1 - i,
{
    if i + p.len() <= s.len() && !occurs_at(s, p, i) {
        law_search(s, p, i + 1);
    }
}

/// Stripping takes away exactly the run of a character around a text.
pub proof fn law_stripping(s: Seq<char>, c: char)
    requires
        s.len() > 0 ==> s[0] != c && s.last() != c,
    ensures
        stripped(s, c) == s,
        s.len() > 0 ==> stripped(seq![c] + s + seq![c], c) == s,
        s.len() > 0 ==> stripped_start(seq![c] + s, c) == s,
{
    assert(stripped_start(s, c) == s);
    assert(stripped_end(s, c) == s);
    if s.len() > 0 {
        let t = seq![c] + s;
        assert(t.drop_first() == s);
        let u = seq![c] + s + seq![c];
        let v = s + seq![c];
        assert(u.drop_first() == v);
        assert(v[0] == s[0]);
        assert(stripped_start(u, c) == stripped_start(v, c));
        assert(stripped_start(v, c) == v);
        assert(v.drop_last() == s);
        assert(v.last() == c);
        assert(stripped_end(v, c) == stripped_end(s, c));
    }
}

/// The first line ends at the first line feed, and a carriage return before it does not belong to
/// it; what follows is read in the same way. A text without a line feed is one line, and an empty
/// one is none.
pub proof fn law_lines(a: Seq<char>, b: Seq<char>)
    requires
        !a.contains('\n'),
    ensures
        lines_of(a + "\r\n"@ + b) == seq![a] + lines_of(b),
        (a.len() == 0 || a.last() != '\r') ==> lines_of(a + "\n"@ + b) == seq![a] + lines_of(b),
        a.len() > 0 ==> lines_of(a) == seq![a],
        lines_of(Seq::empty()).len() == 0,
{
    reveal_strlit("\r\n");
    reveal_strlit("\n");
    assert forall|j: int| 0 <= j < a.len() implies a[j] != '\n' by {
        assert(a.contains(a[j]));
    }
    let s = a + "\n"@ + b;
    assert forall|j: int| 0 <= j < a.len() implies s[j] != '\n' by {
        assert(s[j] == a[j]);
    }
    lemma_index_of_char(s, '\n', a.len() as int);
    assert(s.take(a.len() as int) == a);
    assert(s.skip(a.len() as int + 1) == b);
    let t = a + "\r\n"@ + b;
    let n = a.len() as int + 1;
    assert forall|j: int| 0 <= j < n implies t[j] != '\n' by {
        if j < a.len() {
            assert(t[j] == a[j]);
        }
    }
    lemma_index_of_char(t, '\n', n);
    assert(t.take(n) == a.push('\r'));
    assert(t.skip(n + 1) == b);
    assert(without_cr(a.push('\r')) == a) by {
        assert(a.push('\r').drop_last() == a);
    }
    lemma_index_of_char(a, '\n', a.len() as int);
}

/// A word: text without white space.
pub open spec fn is_word(w: Seq<char>) -> bool {
    w.len() > 0 && forall|i: int| 0 <= i < w.len() ==> !is_space(#[trigger] w[i])
}

proof fn lemma_word_end(s: Seq<char>, k: int)
    requires
        0 <= k <= s.len(),
        forall|j: int| 0 <= j < k ==> !is_space(s[j]),
        k < s.len() ==> is_space(s[k]),
    ensures
        index_of_space(s) == k,
    decreases s.len(),
{
    if k > 0 {
        lemma_word_end(s.drop_first(), k - 1);
    }
}

/// The first word of a text ends at the first white space after it; white space before it does not
/// count.
pub proof fn law_words(w: Seq<char>, c: char, rest: Seq<char>)
    requires
        is_word(w),
        is_space(c),
    ensures
        words_of(w) == seq![w],
        words_of(w + seq![c] + rest) == seq![w] + words_of(rest),
        words_of(seq![c] + rest) == words_of(rest),
        words_of(Seq::empty()).len() == 0,
{
    assert(!is_space(w[0]));
    lemma_word_end(w, w.len() as int);
    let s = w + seq![c] + rest;
    assert forall|j: int| 0 <= j < w.len() implies !is_space(s[j]) by {
        assert(s[j] == w[j]);
    }
    lemma_word_end(s, w.len() as int);
    assert(s.take(w.len() as int) == w);
    let tail = s.skip(w.len() as int);
    assert(tail == seq![c] + rest);
    assert(tail.drop_first() == rest);
    assert(words_of(tail) == words_of(rest));
    assert(s[0] == w[0]);
}

/// Two texts agree but for case exactly where they are equally long and differ at most in letters
/// of which one is the capital of the other.
pub proof fn law_case(a: Seq<char>, b: Seq<char>)
    ensures
        same_but_case(a, b) <==> a.len() == b.len() && forall|i: int|
            0 <= i < a.len() ==> {
                let x = #[trigger] a[i];
                let y = b[i];
                ||| x == y
                ||| 'A' <= x <= 'Z' && y as u32 == x as u32 + 32
                ||| 'A' <= y <= 'Z' && x as u32 == y as u32 + 32
            },
{
    if same_but_case(a, b) {
        assert forall|i: int| 0 <= i < a.len() implies {
            let x = #[trigger] a[i];
            let y = b[i];
            ||| x == y
            ||| 'A' <= x <= 'Z' && y as u32 == x as u32 + 32
            ||| 'A' <= y <= 'Z' && x as u32 == y as u32 + 32
        } by {
            lemma_case(a[i], b[i]);
        }
    } else if a.len() == b.len() {
        let i = choose|i: int|
            0 <= i < a.len() && crate::text::ascii_lower(#[trigger] a[i])
                != crate::text::ascii_lower(b[i]);
        lemma_case(a[i], b[i]);
        assert(a[i] != b[i]);
    }
}

proof fn lemma_case(x: char, y: char)
    ensures
        crate::text::ascii_lower(x) == crate::text::ascii_lower(y) <==> {
            ||| x == y
            ||| 'A' <= x <= 'Z' && y as u32 == x as u32 + 32
            ||| 'A' <= y <= 'Z' && x as u32 == y as u32 + 32
        },
{
}

// ---------------------------------------------------------------------------
// Numbers
// ---------------------------------------------------------------------------

/// A number is read with a plus sign as without one, and not at all beyond its limit, without a
/// digit, or with anything but digits.
pub proof fn law_unsigned_numbers(n: nat, max: nat, s: Seq<char>)
    ensures
        n <= max ==> parsed_uint("+"@ + decimal(n), max) == Some(n),
        n > max ==> parsed_uint(decimal(n), max) is None,
        parsed_uint(Seq::empty(), max) is None,
        parsed_uint("+"@, max) is None,
        parsed_uint(s, max) is Some ==> s.len() > 0 && (is_digit(s[0]) || s[0] == '+') && forall|
            i: int,
        | 1 <= i < s.len() ==> is_digit(#[trigger] s[i]),
        parsed_uint(s, max) matches Some(v) ==> v <= max,
{
    reveal_strlit("+");
    lemma_decimal(n);
    let d = decimal(n);
    assert(("+"@ + d).skip(1) == d);
    assert(is_digit(d[0]));
    assert("+"@.skip(1) == Seq::<char>::empty());
    if parsed_uint(s, max) is Some {
        if s[0] == '+' {
            let t = s.skip(1);
            assert forall|i: int| 1 <= i < s.len() implies is_digit(#[trigger] s[i]) by {
                assert(is_digit(t[i - 1]));
            }
        }
    }
}

/// A digit more makes a number ten times as large and adds its value; leading zeros change
/// nothing.
pub proof fn law_digits(s: Seq<char>, d: nat)
    requires
        d < 10,
    ensures
        digits_value(s + decimal(d)) == 10 * digits_value(s) + d,
        digits_value("0"@ + s) == digits_value(s),
    decreases s.len(),
{
    reveal_strlit("0");
    let t = s + decimal(d);
    assert(t.drop_last() == s);
    assert(t.last() == crate::number::digit_char(d));
    let z = "0"@ + s;
    if s.len() == 0 {
        assert(z.drop_last() == Seq::<char>::empty());
        reveal_with_fuel(digits_value, 2);
    } else {
        law_digits(s.drop_last(), d);
        assert(z.drop_last() == "0"@ + s.drop_last());
        assert(z.last() == s.last());
    }
}

/// A signed number is read with either sign; beyond 32 bits it is none.
pub proof fn law_signed_numbers(n: nat)
    ensures
        n <= 0x7fff_ffff ==> parsed_i32(decimal(n)) == Some(n as int),
        n <= 0x7fff_ffff ==> parsed_i32("+"@ + decimal(n)) == Some(n as int),
        n <= 0x8000_0000 ==> parsed_i32("-"@ + decimal(n)) == Some(-(n as int)),
        n > 0x7fff_ffff ==> parsed_i32(decimal(n)) is None,
        n > 0x8000_0000 ==> parsed_i32("-"@ + decimal(n)) is None,
        parsed_i32(Seq::empty()) is None,
        n > 0 ==> signed_decimal(-(n as int)) == "-"@ + decimal(n),
        signed_decimal(n as int) == decimal(n),
{
    reveal_strlit("+");
    reveal_strlit("-");
    lemma_decimal(n);
    let d = decimal(n);
    assert(is_digit(d[0]));
    assert(("+"@ + d).skip(1) == d);
    assert(("-"@ + d).skip(1) == d);
    assert("-"@ == seq!['-']);
}

/// The value of hexadecimal digits, in either case.
pub proof fn law_hexadecimal_digits(d: nat)
    requires
        d < 16,
    ensures
        hex_value(hex_lower(d)) == d,
        hex_value(hex_upper(d)) == d,
        is_hex(hex_lower(d)) && is_hex(hex_upper(d)),
        d >= 10 ==> hex_lower(d) as u32 == 'a' as u32 + (d - 10),
        d >= 10 ==> hex_upper(d) as u32 == 'A' as u32 + (d - 10),
        d < 10 ==> hex_lower(d) as u32 == '0' as u32 + d && hex_upper(d) == hex_lower(d),
{
}

/// A number in hexadecimal: one digit below sixteen, and otherwise that of its sixteenth part and
/// one digit more; it has no leading zero.
pub proof fn law_hexadecimal(n: nat, d: nat)
    requires
        d < 16,
    ensures
        hexadecimal(d) == seq![hex_lower(d)],
        n > 0 ==> hexadecimal(16 * n + d) == hexadecimal(n) + seq![hex_lower(d)],
        n > 0 ==> hexadecimal(n)[0] != '0',
    decreases n,
{
    if n > 0 {
        let m = 16 * n + d;
        assert(m / 16 == n && m % 16 == d);
        if n >= 16 {
            law_hexadecimal(n / 16, n % 16);
            assert(hexadecimal(n)[0] == hexadecimal(n / 16)[0]) by {
                lemma_hexadecimal_len(n / 16);
            }
        }
    }
}

proof fn lemma_hexadecimal_len(n: nat)
    ensures
        hexadecimal(n).len() > 0,
    decreases n,
{
    if n >= 16 {
        lemma_hexadecimal_len(n / 16);
    }
}

/// A list with its separators: one item stands alone, and one more follows after the separator.
pub proof fn law_joining(list: Seq<Seq<char>>, sep: Seq<char>, a: Seq<char>, b: Seq<char>)
    ensures
        joined(seq![a], sep) == a,
        joined(seq![a, b], sep) == a + sep + b,
        list.len() > 0 ==> joined(list.push(a), sep) == joined(list, sep) + sep + a,
        joined(Seq::empty(), sep).len() == 0,
{
    reveal_with_fuel(joined, 3);
    assert(seq![a, b].drop_last() == seq![a]);
    assert(list.push(a).drop_last() == list);
}

/// A text is cut at every separator and nowhere else.
pub proof fn law_cutting(a: Seq<char>, c: char, b: Seq<char>)
    requires
        !a.contains(c),
    ensures
        pieces(a, c) == seq![a],
        pieces(a + seq![c] + b, c) == seq![a] + pieces(b, c),
{
    let s = a + seq![c] + b;
    assert forall|j: int| 0 <= j < a.len() implies a[j] != c && s[j] != c by {
        assert(s[j] == a[j]);
        assert(a.contains(a[j]));
    }
    lemma_index_of_char(a, c, a.len() as int);
    lemma_index_of_char(s, c, a.len() as int);
    assert(s.take(a.len() as int) == a);
    assert(s.skip(a.len() as int + 1) == b);
}

} // verus!
