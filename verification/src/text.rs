//! Text primitives over character sequences.
//!
//! A piece of text is modelled by its `Seq<char>`. The spec functions here say what
//! trimming, splitting, searching and joining mean; the executable functions compute them.

use vstd::prelude::*;
use vstd::string::StrSliceExecFns;
use vstd::string::StringExecFns;

verus! {

/// `String::push` appends one character to the end of the string.
pub assume_specification[ String::push ](s: &mut String, c: char)
    ensures
        final(s)@ == old(s)@.push(c),
;

// ---------------------------------------------------------------------------
// Views of collections of text
// ---------------------------------------------------------------------------

/// The texts that a sequence of string slices holds.
pub open spec fn texts(v: Seq<&str>) -> Seq<Seq<char>> {
    Seq::new(v.len(), |i: int| v[i]@)
}

/// The texts that a sequence of strings holds.
pub open spec fn strings(v: Seq<String>) -> Seq<Seq<char>> {
    Seq::new(v.len(), |i: int| v[i]@)
}

/// The text that an optional string holds.
pub open spec fn opt_text(o: Option<String>) -> Option<Seq<char>> {
    match o {
        Some(s) => Some(s@),
        None => None,
    }
}

/// The text that an optional string slice holds.
pub open spec fn opt_str(o: Option<&str>) -> Option<Seq<char>> {
    match o {
        Some(s) => Some(s@),
        None => None,
    }
}

// ---------------------------------------------------------------------------
// White space
// ---------------------------------------------------------------------------

/// The Unicode `White_Space` property.
pub open spec fn is_space(c: char) -> bool {
    ||| '\u{9}' <= c <= '\u{d}'
    ||| c == ' '
    ||| c == '\u{85}'
    ||| c == '\u{a0}'
    ||| c == '\u{1680}'
    ||| '\u{2000}' <= c <= '\u{200a}'
    ||| c == '\u{2028}'
    ||| c == '\u{2029}'
    ||| c == '\u{202f}'
    ||| c == '\u{205f}'
    ||| c == '\u{3000}'
}

/// Whether `c` is white space.
pub fn is_white(c: char) -> (r: bool)
    ensures
        r == is_space(c),
{
    ('\u{9}' <= c && c <= '\u{d}') || c == ' ' || c == '\u{85}' || c == '\u{a0}' || c == '\u{1680}'
        || ('\u{2000}' <= c && c <= '\u{200a}') || c == '\u{2028}' || c == '\u{2029}' || c
        == '\u{202f}' || c == '\u{205f}' || c == '\u{3000}'
}

/// `s` without its leading white space.
pub open spec fn trimmed_start(s: Seq<char>) -> Seq<char>
    decreases s.len(),
{
    if s.len() > 0 && is_space(s[0]) {
        trimmed_start(s.drop_first())
    } else {
        s
    }
}

/// `s` without its trailing white space.
pub open spec fn trimmed_end(s: Seq<char>) -> Seq<char>
    decreases s.len(),
{
    if s.len() > 0 && is_space(s.last()) {
        trimmed_end(s.drop_last())
    } else {
        s
    }
}

/// `s` without leading and trailing white space.
pub open spec fn trimmed(s: Seq<char>) -> Seq<char> {
    trimmed_end(trimmed_start(s))
}

/// `s` without the leading run of `c`.
pub open spec fn stripped_start(s: Seq<char>, c: char) -> Seq<char>
    decreases s.len(),
{
    if s.len() > 0 && s[0] == c {
        stripped_start(s.drop_first(), c)
    } else {
        s
    }
}

/// `s` without the trailing run of `c`.
pub open spec fn stripped_end(s: Seq<char>, c: char) -> Seq<char>
    decreases s.len(),
{
    if s.len() > 0 && s.last() == c {
        stripped_end(s.drop_last(), c)
    } else {
        s
    }
}

/// `s` without the leading and trailing runs of `c`.
pub open spec fn stripped(s: Seq<char>, c: char) -> Seq<char> {
    stripped_end(stripped_start(s, c), c)
}

/// The characters of `s` in order.
pub fn chars_of(s: &str) -> (r: Vec<char>)
    ensures
        r@ == s@,
{
    let mut r: Vec<char> = Vec::new();
    for c in it: s.chars()
        invariant
            r@ == s@.take(it.index() as int),
            it.seq() == s@,
    {
        r.push(c);
    }
    r
}

/// The text made of the characters `cs[from..to]`.
pub fn text_of(cs: &Vec<char>, from: usize, to: usize) -> (r: String)
    requires
        from <= to <= cs@.len(),
    ensures
        r@ == cs@.subrange(from as int, to as int),
{
    let mut r = String::new();
    let mut i: usize = from;
    while i < to
        invariant
            from <= i <= to <= cs@.len(),
            r@ == cs@.subrange(from as int, i as int),
        decreases to - i,
    {
        r.push(cs[i]);
        i += 1;
        assert(cs@.subrange(from as int, i as int) == cs@.subrange(from as int, i - 1).push(
            cs@[i - 1],
        ));
    }
    r
}

/// Index of the first character of `cs` that is not white space, or the length.
fn space_prefix(cs: &Vec<char>) -> (i: usize)
    ensures
        i <= cs@.len(),
        trimmed_start(cs@) == cs@.skip(i as int),
{
    let mut i: usize = 0;
    assert(cs@.skip(0) == cs@);
    while i < cs.len() && is_white(cs[i])
        invariant
            i <= cs@.len(),
            trimmed_start(cs@) == trimmed_start(cs@.skip(i as int)),
        decreases cs@.len() - i,
    {
        assert(cs@.skip(i as int).drop_first() == cs@.skip(i + 1));
        i += 1;
    }
    i
}

/// `str::trim_start`.
pub fn trim_start<'a>(s: &'a str) -> (r: &'a str)
    ensures
        r@ == trimmed_start(s@),
{
    let cs = chars_of(s);
    let i = space_prefix(&cs);
    s.substring_char(i, cs.len())
}

/// `str::trim`.
pub fn trim<'a>(s: &'a str) -> (r: &'a str)
    ensures
        r@ == trimmed(s@),
{
    let cs = chars_of(s);
    let n = cs.len();
    let i = space_prefix(&cs);
    let mut j: usize = n;
    assert(cs@.skip(i as int) == cs@.subrange(i as int, n as int));
    while j > i && is_white(cs[j - 1])
        invariant
            i <= j <= n == cs@.len(),
            trimmed_end(cs@.skip(i as int)) == trimmed_end(cs@.subrange(i as int, j as int)),
        decreases j,
    {
        assert(cs@.subrange(i as int, j as int).drop_last() == cs@.subrange(i as int, j - 1));
        j -= 1;
    }
    s.substring_char(i, j)
}

/// `str::trim_start_matches` with one character.
pub fn trim_start_matches<'a>(s: &'a str, c: char) -> (r: &'a str)
    ensures
        r@ == stripped_start(s@, c),
{
    let cs = chars_of(s);
    let mut i: usize = 0;
    assert(cs@.skip(0) == cs@);
    while i < cs.len() && cs[i] == c
        invariant
            i <= cs@.len(),
            stripped_start(cs@, c) == stripped_start(cs@.skip(i as int), c),
        decreases cs@.len() - i,
    {
        assert(cs@.skip(i as int).drop_first() == cs@.skip(i + 1));
        i += 1;
    }
    s.substring_char(i, cs.len())
}

/// `str::trim_matches` with one character.
pub fn trim_matches<'a>(s: &'a str, c: char) -> (r: &'a str)
    ensures
        r@ == stripped(s@, c),
{
    let t = trim_start_matches(s, c);
    let cs = chars_of(t);
    let mut j: usize = cs.len();
    assert(cs@.take(j as int) == cs@);
    while j > 0 && cs[j - 1] == c
        invariant
            j <= cs@.len(),
            stripped_end(cs@, c) == stripped_end(cs@.take(j as int), c),
        decreases j,
    {
        assert(cs@.take(j as int).drop_last() == cs@.take(j - 1));
        j -= 1;
    }
    t.substring_char(0, j)
}

// ---------------------------------------------------------------------------
// Comparison and search
// ---------------------------------------------------------------------------

/// Whether the characters `a[at..at + b.len()]` are those of `b`.
fn same_at(a: &Vec<char>, at: usize, b: &Vec<char>) -> (r: bool)
    requires
        at + b@.len() <= a@.len(),
    ensures
        r == occurs_at(a@, b@, at as int),
{
    let n = a.len();
    let mut i: usize = 0;
    while i < b.len()
        invariant
            i <= b@.len(),
            at + b@.len() <= n == a@.len(),
            forall|j: int| 0 <= j < i ==> a@[at + j] == b@[j],
        decreases b@.len() - i,
    {
        if a[at + i] != b[i] {
            assert(a@.subrange(at as int, at + b@.len())[i as int] != b@[i as int]);
            return false;
        }
        i += 1;
    }
    assert(a@.subrange(at as int, at + b@.len()) == b@);
    true
}

/// `p` stands in `s` at position `i`.
pub open spec fn occurs_at(s: Seq<char>, p: Seq<char>, i: int) -> bool {
    0 <= i && i + p.len() <= s.len() && s.subrange(i, i + p.len()) == p
}

/// `p` stands somewhere in `s`.
pub open spec fn mentions(s: Seq<char>, p: Seq<char>) -> bool {
    exists|i: int| occurs_at(s, p, i)
}

/// The first position of `s`, from `i` on, at which `p` stands.
pub open spec fn found_from(s: Seq<char>, p: Seq<char>, i: int) -> Option<int>
    decreases s.len() + 1 - i,
{
    if i + p.len() > s.len() {
        None
    } else if occurs_at(s, p, i) {
        Some(i)
    } else {
        found_from(s, p, i + 1)
    }
}

/// The text equals `b`.
pub fn same(a: &str, b: &str) -> (r: bool)
    ensures
        r == (a@ == b@),
{
    let x = chars_of(a);
    let y = chars_of(b);
    if x.len() != y.len() {
        return false;
    }
    assert(x@.subrange(0, y@.len() as int) == x@);
    same_at(&x, 0, &y)
}

/// `str::starts_with`.
pub fn starts_with(s: &str, p: &str) -> (r: bool)
    ensures
        r == p@.is_prefix_of(s@),
{
    let x = chars_of(s);
    let y = chars_of(p);
    if y.len() > x.len() {
        return false;
    }
    same_at(&x, 0, &y)
}

/// `str::ends_with`.
pub fn ends_with(s: &str, p: &str) -> (r: bool)
    ensures
        r == p@.is_suffix_of(s@),
{
    let x = chars_of(s);
    let y = chars_of(p);
    if y.len() > x.len() {
        return false;
    }
    same_at(&x, x.len() - y.len(), &y)
}

/// What follows the prefix `p` of `s`, where `s` has that prefix.
pub open spec fn after_prefix(s: Seq<char>, p: Seq<char>) -> Option<Seq<char>> {
    if p.is_prefix_of(s) {
        Some(s.skip(p.len() as int))
    } else {
        None
    }
}

/// `str::strip_prefix`.
pub fn strip_prefix<'a>(s: &'a str, p: &str) -> (r: Option<&'a str>)
    ensures
        opt_str(r) == after_prefix(s@, p@),
{
    if starts_with(s, p) {
        let n = p.unicode_len();
        let m = s.unicode_len();
        assert(s@.subrange(n as int, m as int) == s@.skip(n as int));
        Some(s.substring_char(n, m))
    } else {
        None
    }
}

/// What precedes the suffix `p` of `s`, where `s` has that suffix.
pub open spec fn before_suffix(s: Seq<char>, p: Seq<char>) -> Option<Seq<char>> {
    if p.is_suffix_of(s) {
        Some(s.take(s.len() - p.len()))
    } else {
        None
    }
}

/// `str::strip_suffix`.
pub fn strip_suffix<'a>(s: &'a str, p: &str) -> (r: Option<&'a str>)
    ensures
        opt_str(r) == before_suffix(s@, p@),
{
    if ends_with(s, p) {
        let n = p.unicode_len();
        let m = s.unicode_len();
        Some(s.substring_char(0, m - n))
    } else {
        None
    }
}

/// `str::find`, as a count of characters.
pub fn find(s: &str, p: &str) -> (r: Option<usize>)
    ensures
        match r {
            Some(i) => found_from(s@, p@, 0) == Some(i as int),
            None => found_from(s@, p@, 0) is None,
        },
        r is Some <==> mentions(s@, p@),
        r matches Some(i) ==> occurs_at(s@, p@, i as int),
{
    let x = chars_of(s);
    let y = chars_of(p);
    if y.len() > x.len() {
        return None;
    }
    let last: usize = x.len() - y.len();
    let mut i: usize = 0;
    while i <= last
        invariant
            x@ == s@,
            y@ == p@,
            last == x@.len() - y@.len(),
            i <= last + 1,
            last < usize::MAX || y@.len() == 0,
            found_from(s@, p@, 0) == found_from(s@, p@, i as int),
            forall|j: int| 0 <= j < i ==> !occurs_at(s@, p@, j),
        decreases last + 1 - i,
    {
        if same_at(&x, i, &y) {
            return Some(i);
        }
        if i == last {
            assert(found_from(s@, p@, i + 1) is None);
            return None;
        }
        i += 1;
    }
    None
}

/// `str::contains`.
pub fn contains(s: &str, p: &str) -> (r: bool)
    ensures
        r == mentions(s@, p@),
{
    find(s, p).is_some()
}

/// ASCII upper-case letters made lower case, every other character kept.
pub open spec fn ascii_lower(c: char) -> char {
    if 'A' <= c <= 'Z' {
        (c as u32 + 32) as char
    } else {
        c
    }
}

/// ASCII lower-case letters made upper case, every other character kept.
pub open spec fn ascii_upper(c: char) -> char {
    if 'a' <= c <= 'z' {
        (c as u32 - 32) as char
    } else {
        c
    }
}

/// The texts agree up to the case of ASCII letters.
pub open spec fn same_but_case(a: Seq<char>, b: Seq<char>) -> bool {
    a.len() == b.len() && forall|i: int|
        0 <= i < a.len() ==> ascii_lower(#[trigger] a[i]) == ascii_lower(b[i])
}

fn to_ascii_lower(c: char) -> (r: char)
    ensures
        r == ascii_lower(c),
{
    if 'A' <= c && c <= 'Z' {
        ((c as u8) + 32) as char
    } else {
        c
    }
}

/// `str::eq_ignore_ascii_case`.
pub fn eq_ignore_ascii_case(a: &str, b: &str) -> (r: bool)
    ensures
        r == same_but_case(a@, b@),
{
    let x = chars_of(a);
    let y = chars_of(b);
    if x.len() != y.len() {
        return false;
    }
    let mut i: usize = 0;
    while i < x.len()
        invariant
            i <= x@.len() == y@.len(),
            x@ == a@,
            y@ == b@,
            forall|j: int| 0 <= j < i ==> ascii_lower(#[trigger] x@[j]) == ascii_lower(y@[j]),
        decreases x@.len() - i,
    {
        if to_ascii_lower(x[i]) != to_ascii_lower(y[i]) {
            assert(ascii_lower(a@[i as int]) != ascii_lower(b@[i as int]));
            return false;
        }
        i += 1;
    }
    true
}

// ---------------------------------------------------------------------------
// Splitting
// ---------------------------------------------------------------------------

/// Position of the first `c` in `s`, or the length of `s`.
pub open spec fn index_of_char(s: Seq<char>, c: char) -> int
    decreases s.len(),
{
    if s.len() == 0 || s[0] == c {
        0
    } else {
        1 + index_of_char(s.drop_first(), c)
    }
}

/// A position with no `c` before it, and a `c` at it or the end there, is the first one.
pub proof fn lemma_index_of_char(s: Seq<char>, c: char, k: int)
    requires
        0 <= k <= s.len(),
        forall|j: int| 0 <= j < k ==> s[j] != c,
        k < s.len() ==> s[k] == c,
    ensures
        index_of_char(s, c) == k,
    decreases s.len(),
{
    if k > 0 {
        lemma_index_of_char(s.drop_first(), c, k - 1);
    }
}

/// What the position of the first `c` says of the characters around it.
pub proof fn lemma_index_of_char_bounds(s: Seq<char>, c: char)
    ensures
        0 <= index_of_char(s, c) <= s.len(),
        index_of_char(s, c) < s.len() ==> s[index_of_char(s, c)] == c,
        forall|j: int| 0 <= j < index_of_char(s, c) ==> s[j] != c,
    decreases s.len(),
{
    if s.len() > 0 && s[0] != c {
        let t = s.drop_first();
        lemma_index_of_char_bounds(t, c);
        assert forall|j: int| 0 <= j < index_of_char(s, c) implies s[j] != c by {
            if j > 0 {
                assert(s[j] == t[j - 1]);
            }
        }
    }
}

/// The pieces of `s` between the occurrences of `c`: one more than there are occurrences.
pub open spec fn pieces(s: Seq<char>, c: char) -> Seq<Seq<char>>
    decreases s.len(),
{
    let i = index_of_char(s, c);
    if 0 <= i < s.len() {
        seq![s.take(i)] + pieces(s.skip(i + 1), c)
    } else {
        seq![s]
    }
}

/// `str::split` with one character.
pub fn split<'a>(s: &'a str, c: char) -> (r: Vec<&'a str>)
    ensures
        texts(r@) == pieces(s@, c),
        r@.len() > 0,
{
    let cs = chars_of(s);
    let n = cs.len();
    let mut r: Vec<&'a str> = Vec::new();
    let mut start: usize = 0;
    let mut pos: usize = 0;
    assert(s@.skip(0) == s@);
    assert(texts(r@) == Seq::<Seq<char>>::empty());
    assert(texts(r@) + pieces(s@, c) == pieces(s@, c));
    while pos < n
        invariant
            start <= pos <= n == cs@.len(),
            cs@ == s@,
            pieces(s@, c) == texts(r@) + pieces(s@.skip(start as int), c),
            forall|j: int| start <= j < pos ==> s@[j] != c,
        decreases n - pos,
    {
        if cs[pos] == c {
            let ghost before = texts(r@);
            let ghost rest = s@.skip(start as int);
            r.push(s.substring_char(start, pos));
            proof {
                lemma_index_of_char(rest, c, pos - start);
                assert(rest.take(pos - start) == s@.subrange(start as int, pos as int));
                assert(rest.skip(pos - start + 1) == s@.skip(pos + 1));
                assert(texts(r@) == before.push(s@.subrange(start as int, pos as int)));
                assert(before + (seq![rest.take(pos - start)] + pieces(s@.skip(pos + 1), c))
                    == texts(r@) + pieces(s@.skip(pos + 1), c));
            }
            start = pos + 1;
        }
        pos += 1;
    }
    let ghost before = texts(r@);
    let ghost rest = s@.skip(start as int);
    r.push(s.substring_char(start, n));
    proof {
        lemma_index_of_char(rest, c, n - start);
        assert(rest == s@.subrange(start as int, n as int));
        assert(texts(r@) == before.push(rest));
        assert(before + seq![rest] == before.push(rest));
    }
    r
}

/// A line without the carriage return that belongs to its terminator.
pub open spec fn without_cr(s: Seq<char>) -> Seq<char> {
    if s.len() > 0 && s.last() == '\r' {
        s.drop_last()
    } else {
        s
    }
}

/// The lines of `s`: each ends at a line feed, or at a carriage return and a line feed, which
/// are not part of it; what follows the last line feed is a line unless it is empty.
pub open spec fn lines_of(s: Seq<char>) -> Seq<Seq<char>>
    decreases s.len(),
{
    let i = index_of_char(s, '\n');
    if s.len() == 0 {
        Seq::empty()
    } else if 0 <= i < s.len() {
        seq![without_cr(s.take(i))] + lines_of(s.skip(i + 1))
    } else {
        seq![s]
    }
}

/// `str::lines`.
pub fn lines<'a>(s: &'a str) -> (r: Vec<&'a str>)
    ensures
        texts(r@) == lines_of(s@),
{
    let cs = chars_of(s);
    let n = cs.len();
    let mut r: Vec<&'a str> = Vec::new();
    let mut start: usize = 0;
    let mut pos: usize = 0;
    assert(s@.skip(0) == s@);
    assert(texts(r@) == Seq::<Seq<char>>::empty());
    assert(texts(r@) + lines_of(s@) == lines_of(s@));
    while pos < n
        invariant
            start <= pos <= n == cs@.len(),
            cs@ == s@,
            lines_of(s@) == texts(r@) + lines_of(s@.skip(start as int)),
            forall|j: int| start <= j < pos ==> s@[j] != '\n',
        decreases n - pos,
    {
        if cs[pos] == '\n' {
            let ghost before = texts(r@);
            let ghost rest = s@.skip(start as int);
            let mut end: usize = pos;
            if end > start && cs[end - 1] == '\r' {
                end -= 1;
            }
            r.push(s.substring_char(start, end));
            proof {
                lemma_index_of_char(rest, '\n', pos - start);
                assert(rest.take(pos - start) == s@.subrange(start as int, pos as int));
                assert(without_cr(rest.take(pos - start)) == s@.subrange(start as int, end as int));
                assert(rest.skip(pos - start + 1) == s@.skip(pos + 1));
                assert(texts(r@) == before.push(s@.subrange(start as int, end as int)));
                assert(before + (seq![s@.subrange(start as int, end as int)] + lines_of(
                    s@.skip(pos + 1),
                )) == texts(r@) + lines_of(s@.skip(pos + 1)));
            }
            start = pos + 1;
        }
        pos += 1;
    }
    let ghost before = texts(r@);
    let ghost rest = s@.skip(start as int);
    if start < n {
        r.push(s.substring_char(start, n));
        proof {
            lemma_index_of_char(rest, '\n', n - start);
            assert(rest == s@.subrange(start as int, n as int));
            assert(texts(r@) == before.push(rest));
            assert(before + seq![rest] == before.push(rest));
        }
    } else {
        assert(lines_of(rest) == Seq::<Seq<char>>::empty());
        assert(before + Seq::<Seq<char>>::empty() == before);
    }
    r
}

/// Position of the first white space in `s`, or the length of `s`.
pub open spec fn index_of_space(s: Seq<char>) -> int
    decreases s.len(),
{
    if s.len() == 0 || is_space(s[0]) {
        0
    } else {
        1 + index_of_space(s.drop_first())
    }
}

proof fn lemma_index_of_space(s: Seq<char>, k: int)
    requires
        0 <= k <= s.len(),
        forall|j: int| 0 <= j < k ==> !is_space(s[j]),
        k < s.len() ==> is_space(s[k]),
    ensures
        index_of_space(s) == k,
    decreases s.len(),
{
    if k > 0 {
        lemma_index_of_space(s.drop_first(), k - 1);
    }
}

/// The maximal runs of characters of `s` that are not white space.
pub open spec fn words_of(s: Seq<char>) -> Seq<Seq<char>>
    decreases s.len(),
{
    if s.len() == 0 {
        Seq::empty()
    } else if is_space(s[0]) {
        words_of(s.drop_first())
    } else {
        let i = index_of_space(s);
        if 0 < i < s.len() {
            seq![s.take(i)] + words_of(s.skip(i))
        } else {
            seq![s]
        }
    }
}

/// `str::split_whitespace`.
pub fn split_whitespace<'a>(s: &'a str) -> (r: Vec<&'a str>)
    ensures
        texts(r@) == words_of(s@),
{
    let cs = chars_of(s);
    let n = cs.len();
    let mut r: Vec<&'a str> = Vec::new();
    let mut pos: usize = 0;
    assert(s@.skip(0) == s@);
    assert(texts(r@) + words_of(s@) == words_of(s@));
    while pos < n
        invariant
            pos <= n == cs@.len(),
            cs@ == s@,
            words_of(s@) == texts(r@) + words_of(s@.skip(pos as int)),
        decreases n - pos,
    {
        let ghost rest = s@.skip(pos as int);
        if is_white(cs[pos]) {
            assert(rest.drop_first() == s@.skip(pos + 1));
            pos += 1;
        } else {
            let start: usize = pos;
            while pos < n && !is_white(cs[pos])
                invariant
                    start <= pos <= n == cs@.len(),
                    cs@ == s@,
                    start < n,
                    !is_space(s@[start as int]),
                    forall|j: int| start <= j < pos ==> !is_space(s@[j]),
                ensures
                    pos > start,
                    pos <= n,
                    forall|j: int| start <= j < pos ==> !is_space(s@[j]),
                    pos < n ==> is_space(s@[pos as int]),
                decreases n - pos,
            {
                pos += 1;
            }
            let ghost before = texts(r@);
            r.push(s.substring_char(start, pos));
            proof {
                lemma_index_of_space(rest, pos - start);
                assert(rest.take(pos - start) == s@.subrange(start as int, pos as int));
                assert(rest.skip(pos - start) == s@.skip(pos as int));
                assert(texts(r@) == before.push(s@.subrange(start as int, pos as int)));
                if pos < n {
                    assert(before + (seq![rest.take(pos - start)] + words_of(s@.skip(pos as int)))
                        == texts(r@) + words_of(s@.skip(pos as int)));
                } else {
                    assert(rest.take(pos - start) == rest);
                    assert(words_of(s@.skip(pos as int)) == Seq::<Seq<char>>::empty());
                    assert(before + seq![rest] == texts(r@) + Seq::<Seq<char>>::empty());
                }
            }
        }
    }
    assert(words_of(s@.skip(pos as int)) == Seq::<Seq<char>>::empty());
    assert(texts(r@) + Seq::<Seq<char>>::empty() == texts(r@));
    r
}

// ---------------------------------------------------------------------------
// Joining
// ---------------------------------------------------------------------------

/// The texts one after another, with `sep` between each two.
pub open spec fn joined(list: Seq<Seq<char>>, sep: Seq<char>) -> Seq<char>
    decreases list.len(),
{
    if list.len() == 0 {
        Seq::empty()
    } else if list.len() == 1 {
        list[0]
    } else {
        joined(list.drop_last(), sep) + sep + list.last()
    }
}

/// `[String]::join`.
pub fn join(list: &Vec<String>, sep: &str) -> (r: String)
    ensures
        r@ == joined(strings(list@), sep@),
{
    let mut r = String::new();
    let mut i: usize = 0;
    let ghost all = strings(list@);
    while i < list.len()
        invariant
            i <= list@.len(),
            all == strings(list@),
            r@ == joined(all.take(i as int), sep@),
        decreases list@.len() - i,
    {
        if i > 0 {
            r.append(sep);
        }
        r.append(list[i].as_str());
        i += 1;
        assert(all.take(i as int).drop_last() == all.take(i - 1));
        if i == 1 {
            assert(Seq::<char>::empty() + all[0] == all[0]);
        }
    }
    assert(all.take(i as int) == all);
    r
}

/// `a` followed by `b`.
pub fn concat2(a: &str, b: &str) -> (r: String)
    ensures
        r@ == a@ + b@,
{
    let mut r = a.to_owned();
    r.append(b);
    r
}

/// `a`, `b` and `c` in a row.
pub fn concat3(a: &str, b: &str, c: &str) -> (r: String)
    ensures
        r@ == a@ + b@ + c@,
{
    let mut r = a.to_owned();
    r.append(b);
    r.append(c);
    r
}

/// Whether `list` holds the text `s`.
pub fn holds(list: &Vec<String>, s: &str) -> (r: bool)
    ensures
        r == strings(list@).contains(s@),
{
    let mut i: usize = 0;
    while i < list.len()
        invariant
            i <= list@.len(),
            forall|j: int| 0 <= j < i ==> strings(list@)[j] != s@,
        decreases list@.len() - i,
    {
        if same(list[i].as_str(), s) {
            assert(strings(list@)[i as int] == s@);
            return true;
        }
        i += 1;
    }
    false
}

// ---------------------------------------------------------------------------
// Laws
// ---------------------------------------------------------------------------

proof fn lemma_trimmed_end(s: Seq<char>)
    ensures
        trimmed_end(s).is_prefix_of(s),
        trimmed_end(s).len() > 0 ==> !is_space(trimmed_end(s).last()),
    decreases s.len(),
{
    if s.len() > 0 && is_space(s.last()) {
        lemma_trimmed_end(s.drop_last());
    }
}

proof fn lemma_trimmed_start(s: Seq<char>)
    ensures
        trimmed_start(s).len() > 0 ==> !is_space(trimmed_start(s)[0]),
    decreases s.len(),
{
    if s.len() > 0 && is_space(s[0]) {
        lemma_trimmed_start(s.drop_first());
    }
}

/// Trimmed text has no white space at either end.
pub proof fn law_trimmed_ends(s: Seq<char>)
    ensures
        trimmed(s).len() > 0 ==> !is_space(trimmed(s)[0]) && !is_space(trimmed(s).last()),
{
    lemma_trimmed_start(s);
    lemma_trimmed_end(trimmed_start(s));
}

/// Trimming trimmed text changes nothing.
pub proof fn law_trim_idempotent(s: Seq<char>)
    ensures
        trimmed(trimmed(s)) == trimmed(s),
{
    law_trimmed_ends(s);
}

/// A text is cut at a separator in its middle as its two parts are.
pub proof fn lemma_pieces_split(a: Seq<char>, c: char, b: Seq<char>)
    ensures
        pieces(a + seq![c] + b, c) == pieces(a, c) + pieces(b, c),
    decreases a.len(),
{
    let s = a + seq![c] + b;
    let i = index_of_char(a, c);
    lemma_index_of_char_bounds(a, c);
    if i < a.len() {
        assert(s[i] == c);
        assert(forall|j: int| 0 <= j < i ==> s[j] == a[j]);
        lemma_index_of_char(s, c, i);
        assert(s.take(i) == a.take(i));
        assert(s.skip(i + 1) == a.skip(i + 1) + seq![c] + b);
        lemma_pieces_split(a.skip(i + 1), c, b);
        assert(pieces(s, c) == seq![a.take(i)] + (pieces(a.skip(i + 1), c) + pieces(b, c)));
        assert(pieces(s, c) == (seq![a.take(i)] + pieces(a.skip(i + 1), c)) + pieces(b, c));
    } else {
        assert(s[i] == c);
        assert(forall|j: int| 0 <= j < i ==> s[j] == a[j]);
        lemma_index_of_char(s, c, i);
        assert(s.take(i) == a);
        assert(s.skip(i + 1) == b);
    }
}

/// Splitting at `c` what was joined with `c` gives the parts back.
pub proof fn law_split_join(list: Seq<Seq<char>>, c: char)
    requires
        list.len() > 0,
        forall|i: int| 0 <= i < list.len() ==> !(#[trigger] list[i]).contains(c),
    ensures
        pieces(joined(list, seq![c]), c) == list,
    decreases list.len(),
{
    let last = list.last();
    lemma_index_of_char_bounds(last, c);
    if index_of_char(last, c) < last.len() {
        assert(last[index_of_char(last, c)] == c);
    }
    assert(pieces(last, c) == seq![last]);
    if list.len() > 1 {
        let init = list.drop_last();
        assert forall|i: int| 0 <= i < init.len() implies !(#[trigger] init[i]).contains(c) by {
            assert(init[i] == list[i]);
        }
        law_split_join(init, c);
        lemma_pieces_split(joined(init, seq![c]), c, last);
        assert(init + seq![last] == list);
    } else {
        assert(seq![last] == list);
    }
}

} // verus!
