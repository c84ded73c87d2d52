//! The payload of a token, read in the form in which it is written here.

use vstd::prelude::*;
use vstd::utf8::{encode_utf8, encode_utf8_decode_utf8, encode_utf8_valid_utf8};

use crate::auth::crypto::{json_escape, json_escaped};
use crate::auth::{claims_json, json_of_claims, lemma_hex_lower, Claims, MAX_SUBJECT};
use crate::backend::process::from_utf8_lossy;
use crate::number::{
    decimal, hex_digit, is_ascii_digit, is_ascii_hexdigit, is_digit, law_decimal_round_trip,
    lemma_decimal, parse_uint,
};
use crate::text::{chars_of, text_of};

verus! {

/// The payload that a token for these claims is made with.
pub open spec fn is_payload_of(payload: Seq<u8>, c: Claims<Seq<char>>) -> bool {
    c.sub.len() <= MAX_SUBJECT && payload == encode_utf8(claims_json(c))
}

/// Position after `word`, where it stands at `at`.
fn expect(cs: &Vec<char>, at: usize, word: &str) -> (r: Option<usize>)
    requires
        at <= cs@.len(),
    ensures
        match r {
            Some(e) => e == at + word@.len() && e <= cs@.len(),
            None => !word@.is_prefix_of(cs@.skip(at as int)),
        },
{
    let ws = chars_of(word);
    let n = ws.len();
    let total = cs.len();
    if total - at < n {
        return None;
    }
    let mut i: usize = 0;
    while i < n
        invariant
            i <= n,
            n == ws@.len(),
            ws@ == word@,
            at + n <= total,
            total == cs@.len(),
        decreases n - i,
    {
        if cs[at + i] != ws[i] {
            assert(cs@.skip(at as int)[i as int] != word@[i as int]);
            proof {
                if word@.is_prefix_of(cs@.skip(at as int)) {
                    assert(cs@.skip(at as int).subrange(0, word@.len() as int)[i as int]
                        == word@[i as int]);
                }
            }
            return None;
        }
        i += 1;
    }
    Some(at + n)
}

/// How the rest of a JSON string goes on, where a character is left.
proof fn lemma_goes_on(s: Seq<char>, tail: Seq<char>, rest: Seq<char>)
    requires
        s == json_escaped(tail) + seq!['"'] + rest,
    ensures
        s.len() > 0,
        tail.len() == 0 ==> s[0] == '"' && s.skip(1) == rest,
        tail.len() > 0 ==> {
            let e = json_escape(tail[0]);
            &&& s[0] != '"'
            &&& s.len() > e.len()
            &&& forall|j: int| 0 <= j < e.len() ==> #[trigger] s[j] == e[j]
            &&& s.skip(e.len() as int) == json_escaped(tail.drop_first()) + seq!['"'] + rest
        },
{
    let q = seq!['"'];
    if tail.len() > 0 {
        let e = json_escape(tail[0]);
        let t = json_escaped(tail.drop_first()) + q + rest;
        assert(s == e + t);
        assert(s[0] == e[0]);
        assert((e + t).skip(e.len() as int) == t);
    } else {
        assert((q + rest).skip(1) == rest);
        assert(s == q + rest);
    }
}

/// The character that an escape of two characters stands for.
fn short_escape(c: char) -> (r: Option<char>)
    ensures
        r == (if c == '"' || c == '\\' {
            Some(c)
        } else if c == 'b' {
            Some('\u{8}')
        } else if c == 't' {
            Some('\t')
        } else if c == 'n' {
            Some('\n')
        } else if c == 'f' {
            Some('\u{c}')
        } else if c == 'r' {
            Some('\r')
        } else {
            None::<char>
        }),
{
    match c {
        '"' | '\\' => Some(c),
        'b' => Some('\u{8}'),
        't' => Some('\t'),
        'n' => Some('\n'),
        'f' => Some('\u{c}'),
        'r' => Some('\r'),
        _ => None,
    }
}

/// What an escape says of the character.
proof fn lemma_escape_of(c: char)
    ensures
        ({
            let e = json_escape(c);
            &&& e[0] != '\\' ==> e.len() == 1 && e[0] == c
            &&& e[0] == '\\' && e[1] != 'u' ==> e.len() == 2 && (e[1] == c && (c == '"' || c
                == '\\') || e[1] == 'b' && c == '\u{8}' || e[1] == 't' && c == '\t' || e[1] == 'n'
                && c == '\n' || e[1] == 'f' && c == '\u{c}' || e[1] == 'r' && c == '\r')
            &&& e[0] == '\\' && e[1] == 'u' ==> e.len() == 6 && crate::number::is_hex(e[4])
                && crate::number::is_hex(e[5]) && 16 * crate::number::hex_value(e[4])
                + crate::number::hex_value(e[5]) == c as u32 && ' ' > c
        }),
{
    if ' ' > c {
        lemma_hex_lower(c as u32 as nat / 16);
        lemma_hex_lower(c as u32 as nat % 16);
    }
}

proof fn lemma_char_of(c: char, d: u8)
    requires
        d == c as u32,
    ensures
        d as char == c,
{
}

/// Reads a JSON string behind its first quote. Where the text goes on with one, it is found.
fn read_text(
    cs: &Vec<char>,
    at: usize,
    Ghost(known): Ghost<bool>,
    Ghost(t): Ghost<Seq<char>>,
    Ghost(rest): Ghost<Seq<char>>,
) -> (r: Option<(String, usize)>)
    requires
        at <= cs@.len(),
        known ==> cs@.skip(at as int) == json_escaped(t) + seq!['"'] + rest,
    ensures
        r matches Some((s, e)) ==> e <= cs@.len(),
        known ==> (r matches Some((s, e)) && s@ == t && cs@.skip(e as int) == rest),
{
    let n = cs.len();
    let mut out = String::new();
    let mut i: usize = at;
    let ghost mut tail = t;
    assert(out@ + t == t);
    while i < n
        invariant
            at <= i <= n,
            n == cs@.len(),
            known ==> cs@.skip(i as int) == json_escaped(tail) + seq!['"'] + rest,
            known ==> out@ + tail == t,
        decreases n - i,
    {
        let c = cs[i];
        let ghost here = cs@.skip(i as int);
        assert(here[0] == c);
        proof {
            if known {
                lemma_goes_on(here, tail, rest);
                if tail.len() > 0 {
                    lemma_escape_of(tail[0]);
                    assert(tail == seq![tail[0]] + tail.drop_first());
                }
            }
        }
        if c == '"' {
            assert(here.skip(1) == cs@.skip(i + 1));
            assert(known ==> out@ == t);
            return Some((out, i + 1));
        }
        let ghost before = out@;
        let ghost old_tail = tail;
        let len: usize;
        if c != '\\' {
            out.push(c);
            len = 1;
        } else {
            if n - i < 2 {
                return None;
            }
            assert(here[1] == cs@[i + 1]);
            if cs[i + 1] != 'u' {
                match short_escape(cs[i + 1]) {
                    Some(d) => {
                        out.push(d);
                        len = 2;
                    },
                    None => {
                        return None;
                    },
                }
            } else {
                if n - i < 6 {
                    return None;
                }
                assert(here[4] == cs@[i + 4] && here[5] == cs@[i + 5]);
                if !is_ascii_hexdigit(cs[i + 4]) || !is_ascii_hexdigit(cs[i + 5]) {
                    return None;
                }
                let d: u8 = 16 * hex_digit(cs[i + 4]) + hex_digit(cs[i + 5]);
                proof {
                    if known {
                        lemma_char_of(old_tail[0], d);
                    }
                }
                out.push(d as char);
                len = 6;
            }
        }
        proof {
            if known {
                let e = json_escape(old_tail[0]);
                assert(e.len() == len);
                assert(out@ == before.push(old_tail[0]));
                tail = old_tail.drop_first();
                assert(out@ + tail == before + old_tail);
                assert(here.skip(len as int) == cs@.skip(i + len));
            }
        }
        i += len;
    }
    proof {
        if known {
            lemma_goes_on(cs@.skip(i as int), tail, rest);
        }
    }
    None
}

/// Reads a number. Where the text goes on with one that another character ends, it is found.
fn read_number(
    cs: &Vec<char>,
    at: usize,
    Ghost(known): Ghost<bool>,
    Ghost(v): Ghost<u64>,
    Ghost(rest): Ghost<Seq<char>>,
) -> (r: Option<(u64, usize)>)
    requires
        at <= cs@.len(),
        known ==> cs@.skip(at as int) == decimal(v as nat) + rest && rest.len() > 0 && !is_digit(
            rest[0],
        ),
    ensures
        r matches Some((n, e)) ==> e <= cs@.len(),
        known ==> (r matches Some((n, e)) && n == v && cs@.skip(e as int) == rest),
{
    let ghost d = decimal(v as nat);
    let ghost here = cs@.skip(at as int);
    let mut e: usize = at;
    proof {
        lemma_decimal(v as nat);
    }
    while e < cs.len() && is_ascii_digit(cs[e])
        invariant
            at <= e <= cs@.len(),
            here == cs@.skip(at as int),
            known ==> here == d + rest && rest.len() > 0 && !is_digit(rest[0]) && e - at
                <= d.len(),
        decreases cs@.len() - e,
    {
        assert(here[e - at] == cs@[e as int]);
        proof {
            if known && e - at == d.len() {
                assert(here[d.len() as int] == rest[0]);
            }
        }
        e += 1;
    }
    proof {
        if known {
            if e - at < d.len() {
                assert(here[e - at] == d[e - at]);
                assert(is_digit(d[e - at]));
                assert(here[e - at] == cs@[e as int]);
            }
            assert(cs@.subrange(at as int, e as int) == here.take(e - at));
            assert(here.take(e - at) == d);
            assert(cs@.skip(e as int) == here.skip(e - at));
            law_decimal_round_trip(v as nat, u64::MAX as nat);
        }
    }
    match parse_uint(&text_of(cs, at, e), u64::MAX) {
        Some(n) => Some((n, e)),
        None => None,
    }
}

fn same_bytes(a: &[u8], b: &Vec<u8>) -> (r: bool)
    ensures
        r == (a@ == b@),
{
    if a.len() != b.len() {
        return false;
    }
    let mut i: usize = 0;
    while i < a.len()
        invariant
            i <= a@.len() == b@.len(),
            forall|j: int| 0 <= j < i ==> a@[j] == b@[j],
        decreases a@.len() - i,
    {
        if a[i] != b[i] {
            return false;
        }
        i += 1;
    }
    assert(a@ == b@);
    true
}

/// What is left of a text behind a word that it begins with.
proof fn lemma_behind(s: Seq<char>, word: Seq<char>, rest: Seq<char>)
    requires
        s == word + rest,
    ensures
        word.is_prefix_of(s),
        s.skip(word.len() as int) == rest,
{
    assert(s.subrange(0, word.len() as int) == word);
    assert(s.skip(word.len() as int) == rest);
}

/// Looks for claims in a text, and finds those that it is written for.
fn find_claims(cs: &Vec<char>, Ghost(known): Ghost<bool>, Ghost(c): Ghost<Claims<Seq<char>>>) -> (r:
    Option<Claims>)
    requires
        known ==> cs@ == claims_json(c),
    ensures
        known ==> (r matches Some(f) && f@ == c),
{
    let ghost q = seq!['"'];
    let ghost end = seq!['}'];
    let ghost iat = decimal(c.iat as nat) + end;
    let ghost after_exp = ",\"iat\":"@ + iat;
    let ghost exp = decimal(c.exp as nat) + after_exp;
    let ghost after_sub = ",\"exp\":"@ + exp;
    let ghost sub = json_escaped(c.sub) + q + after_sub;
    proof {
        reveal_strlit("{\"sub\":");
        reveal_strlit("{\"sub\":\"");
        reveal_strlit(",\"exp\":");
        reveal_strlit(",\"iat\":");
        reveal_strlit("}");
        assert(cs@.skip(0) == cs@);
        if known {
            assert("{\"sub\":\""@ == "{\"sub\":"@ + q);
            assert("}"@ == end);
            assert(cs@ == "{\"sub\":\""@ + sub);
            lemma_behind(cs@, "{\"sub\":\""@, sub);
        }
    }
    let at = match expect(cs, 0, "{\"sub\":\"") {
        Some(e) => e,
        None => {
            return None;
        },
    };
    let (name, at) = match read_text(cs, at, Ghost(known), Ghost(c.sub), Ghost(after_sub)) {
        Some(r) => r,
        None => {
            return None;
        },
    };
    proof {
        if known {
            lemma_behind(cs@.skip(at as int), ",\"exp\":"@, exp);
        }
    }
    let from = at;
    let at = match expect(cs, at, ",\"exp\":") {
        Some(e) => e,
        None => {
            return None;
        },
    };
    assert(cs@.skip(at as int) == cs@.skip(from as int).skip(7));
    let (exp_secs, at) = match read_number(cs, at, Ghost(known), Ghost(c.exp), Ghost(after_exp)) {
        Some(r) => r,
        None => {
            return None;
        },
    };
    proof {
        if known {
            lemma_behind(cs@.skip(at as int), ",\"iat\":"@, iat);
        }
    }
    let from = at;
    let at = match expect(cs, at, ",\"iat\":") {
        Some(e) => e,
        None => {
            return None;
        },
    };
    assert(cs@.skip(at as int) == cs@.skip(from as int).skip(7));
    match read_number(cs, at, Ghost(known), Ghost(c.iat), Ghost(end)) {
        Some((iat_secs, _)) => Some(Claims { sub: name, exp: exp_secs, iat: iat_secs }),
        None => None,
    }
}

/// The claims that a payload was made for, where a token can be made with it.
pub fn read_claims(payload: &Vec<u8>) -> (r: Option<Claims>)
    ensures
        match r {
            Some(c) => is_payload_of(payload@, c@),
            None => forall|c: Claims<Seq<char>>| !is_payload_of(payload@, c),
        },
{
    let text = from_utf8_lossy(payload);
    let cs = chars_of(&text);
    let ghost known = exists|c: Claims<Seq<char>>| is_payload_of(payload@, c);
    let ghost c = choose|c: Claims<Seq<char>>| is_payload_of(payload@, c);
    proof {
        if known {
            encode_utf8_valid_utf8(claims_json(c));
            encode_utf8_decode_utf8(claims_json(c));
        }
    }
    match find_claims(&cs, Ghost(known), Ghost(c)) {
        Some(found) => {
            let n = chars_of(&found.sub).len();
            if n > MAX_SUBJECT {
                return None;
            }
            let json = json_of_claims(&found);
            if same_bytes(json.as_str().as_bytes(), payload) {
                Some(found)
            } else {
                None
            }
        },
        None => None,
    }
}

} // verus!
