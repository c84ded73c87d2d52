//! What makes a challenge, a token and a session good.

use vstd::prelude::*;

use vstd::utf8::encode_utf8;

use crate::auth::crypto::{
    base64url, base64url_read, hex_bytes, hex_text, hmac_tag, is_hex_text, json_escape,
    json_escaped, json_string, sha256_of,
};
use crate::auth::{
    claims_json, claims_verdict, cookie_token, first_token, is_good_nonce,
    law_nonce_is_good_for_a_minute, made_token, nonce_at, session_of, text_digest, token_for,
    token_in, verified_payload, Claims, Session, TokenPayload,
};
use crate::number::{decimal, hex_value, is_hex, parsed_uint};
use crate::text::{lemma_index_of_char, pieces, trimmed};

verus! {

// ---------------------------------------------------------------------------
// Challenges
// ---------------------------------------------------------------------------

/// A challenge is accepted until sixty seconds after it was made, and from five seconds before.
pub proof fn law_challenge_times(secret: Seq<char>, made: u64, now: u64)
    ensures
        is_good_nonce(nonce_at(secret, made), secret, now) <==> now <= made + 60 && made <= now + 5,
{
    law_nonce_is_good_for_a_minute(secret, made, now);
}

/// A challenge that is accepted is a time and, in hexadecimal digits, the tag of that time under
/// the secret of the service.
pub proof fn law_challenge_is_signed(nonce: Seq<char>, secret: Seq<char>, now: u64)
    requires
        is_good_nonce(nonce, secret, now),
    ensures
        ({
            let parts = pieces(nonce, '.');
            &&& parts.len() == 2
            &&& hex_bytes(parts[1]) == hmac_tag(encode_utf8(secret), encode_utf8(parts[0]))
            &&& parsed_uint(parts[0], u64::MAX as nat) matches Some(made) && now <= made + 60 && made
                <= now + 5
        }),
{
}

/// A challenge begins with the time at which it was made.
pub proof fn law_challenge_names_its_time(secret: Seq<char>, now: u64)
    ensures
        (decimal(now as nat) + "."@).is_prefix_of(nonce_at(secret, now)),
        nonce_at(secret, now).skip(decimal(now as nat).len() as int + "."@.len()) == hex_text(
            hmac_tag(encode_utf8(secret), encode_utf8(decimal(now as nat))),
        ),
{
    let p = decimal(now as nat) + "."@;
    let n = nonce_at(secret, now);
    assert(p == n.subrange(0, p.len() as int));
    assert(n.skip(p.len() as int) == hex_text(
        hmac_tag(encode_utf8(secret), encode_utf8(decimal(now as nat))),
    ));
}

// ---------------------------------------------------------------------------
// Hexadecimal text and JSON
// ---------------------------------------------------------------------------

/// Bytes come back from their hexadecimal digits, of which each byte has two, in lower case.
pub proof fn law_hex_round_trip(bytes: Seq<u8>)
    ensures
        hex_text(bytes).len() == 2 * bytes.len(),
        is_hex_text(hex_text(bytes)),
        hex_bytes(hex_text(bytes)) == bytes,
        forall|i: int|
            0 <= i < hex_text(bytes).len() ==> '0' <= #[trigger] hex_text(bytes)[i] <= '9' || 'a'
                <= hex_text(bytes)[i] <= 'f',
{
    let s = hex_text(bytes);
    assert forall|i: int| 0 <= i < s.len() implies ('0' <= #[trigger] s[i] <= '9' || 'a' <= s[i]
        <= 'f') && is_hex(s[i]) by {
        assert(0 <= i / 2 < bytes.len());
    }
    let b = hex_bytes(s);
    assert forall|k: int| 0 <= k < bytes.len() implies b[k] == bytes[k] by {
        assert((2 * k) % 2 == 0 && (2 * k) / 2 == k);
        assert((2 * k + 1) % 2 == 1 && (2 * k + 1) / 2 == k);
        let x = bytes[k];
        assert(hex_value(s[2 * k]) == x / 16);
        assert(hex_value(s[2 * k + 1]) == x % 16);
        assert(16 * (x / 16) + x % 16 == x);
    }
    assert(b =~= bytes);
}

/// The digest of a text is that of its UTF-8 bytes, in hexadecimal digits.
pub proof fn law_text_digest(s: Seq<char>)
    ensures
        hex_bytes(text_digest(s)) == sha256_of(encode_utf8(s)),
{
    law_hex_round_trip(sha256_of(encode_utf8(s)));
}

/// How characters stand in a JSON string: a quote and a backslash behind a backslash, white space
/// controls by their letters, any other control character by its number, and all others as they
/// are.
pub proof fn law_json_escapes(c: char)
    ensures
        json_escape('"') == "\\\""@,
        json_escape('\\') == "\\\\"@,
        json_escape('\n') == "\\n"@,
        json_escape('\r') == "\\r"@,
        json_escape('\t') == "\\t"@,
        json_escape('\u{8}') == "\\b"@,
        json_escape('\u{c}') == "\\f"@,
        c >= ' ' && c != '"' && c != '\\' ==> json_escape(c) == seq![c],
        ' ' > c && c != '\n' && c != '\r' && c != '\t' && c != '\u{8}' && c != '\u{c}' ==> ({
            let e = json_escape(c);
            &&& e.len() == 6
            &&& e.take(4) == "\\u00"@
            &&& 16 * hex_value(e[4]) + hex_value(e[5]) == c as nat
        }),
{
    reveal_strlit("\\\"");
    reveal_strlit("\\\\");
    reveal_strlit("\\n");
    reveal_strlit("\\r");
    reveal_strlit("\\t");
    reveal_strlit("\\b");
    reveal_strlit("\\f");
    reveal_strlit("\\u00");
    if ' ' > c && c != '\n' && c != '\r' && c != '\t' && c != '\u{8}' && c != '\u{c}' {
        let e = json_escape(c);
        let n = c as u32 as nat;
        assert(n < 32);
        assert(e.take(4) == "\\u00"@);
        assert(hex_value(e[4]) == n / 16 && hex_value(e[5]) == n % 16);
    }
}

/// A text of which no character needs an escape stands in a JSON string as it is.
pub proof fn law_plain_json_string(s: Seq<char>)
    requires
        forall|i: int| 0 <= i < s.len() ==> #[trigger] s[i] >= ' ' && s[i] != '"' && s[i] != '\\',
    ensures
        json_string(s) == "\""@ + s + "\""@,
{
    reveal_strlit("\"");
    lemma_plain_escaped(s);
}

proof fn lemma_plain_escaped(s: Seq<char>)
    requires
        forall|i: int| 0 <= i < s.len() ==> #[trigger] s[i] >= ' ' && s[i] != '"' && s[i] != '\\',
    ensures
        json_escaped(s) == s,
    decreases s.len(),
{
    if s.len() > 0 {
        let t = s.drop_first();
        assert forall|i: int| 0 <= i < t.len() implies #[trigger] t[i] >= ' ' && t[i] != '"' && t[i]
            != '\\' by {
            assert(t[i] == s[i + 1]);
        }
        lemma_plain_escaped(t);
        assert(json_escape(s[0]) == seq![s[0]]);
        assert(seq![s[0]] + t == s);
    }
}

/// The claims of the administrator in JSON: the subject, the end and the beginning.
pub proof fn law_claims_in_json(exp: u64, iat: u64)
    ensures
        claims_json(Claims { sub: "admin"@, exp, iat }) == "{\"sub\":\"admin\",\"exp\":"@ + decimal(
            exp as nat,
        ) + ",\"iat\":"@ + decimal(iat as nat) + "}"@,
{
    reveal_strlit("admin");
    reveal_strlit("\"");
    reveal_strlit("{\"sub\":");
    reveal_strlit(",\"exp\":");
    reveal_strlit("{\"sub\":\"admin\",\"exp\":");
    law_plain_json_string("admin"@);
    assert("{\"sub\":"@ + ("\""@ + "admin"@ + "\""@) + ",\"exp\":"@ == "{\"sub\":\"admin\",\"exp\":"@);
}

// ---------------------------------------------------------------------------
// Tokens
// ---------------------------------------------------------------------------

/// A token gives its payload exactly where it has three parts, the third is the tag of the first
/// two under the secret, and the second can be read. Otherwise it is refused, and it is told why.
pub proof fn law_token_is_signed(token: Seq<char>, secret: Seq<char>)
    ensures
        ({
            let parts = pieces(token, '.');
            let r = verified_payload(token, secret);
            let tag = hmac_tag(encode_utf8(secret), encode_utf8(parts[0] + "."@ + parts[1]));
            &&& parts.len() != 3 ==> r == Err::<Seq<u8>, Seq<char>>("无效的 JWT 令牌格式"@)
            &&& parts.len() == 3 ==> match base64url_read(parts[2]) {
                Err(e) => r == Err::<Seq<u8>, Seq<char>>("Base64 解码失败: "@ + e),
                Ok(signature) => if signature != tag {
                    r == Err::<Seq<u8>, Seq<char>>("JWT 签名验证失败"@)
                } else {
                    match base64url_read(parts[1]) {
                        Err(e) => r == Err::<Seq<u8>, Seq<char>>("Base64 解码失败: "@ + e),
                        Ok(payload) => r == Ok::<Seq<u8>, Seq<char>>(payload),
                    }
                },
            }
        }),
{
}

/// A token that is refused opens no session, and neither does a request without one.
pub proof fn law_no_session_without_token(header: Seq<char>, secret: Seq<char>, now: u64)
    ensures
        session_of(None, secret, now) == Session::<Seq<u8>>::Closed,
        cookie_token(Some(header)) is None ==> session_of(Some(header), secret, now) == Session::<
            Seq<u8>,
        >::Closed,
        cookie_token(Some(header)) matches Some(token) ==> (verified_payload(token, secret) is Err
            ==> session_of(Some(header), secret, now) == Session::<Seq<u8>>::Closed),
{
}

/// A token is its header, its payload and the tag of both, each in base64, with dots between them.
pub proof fn law_token_parts(payload: Seq<char>, secret: Seq<char>)
    ensures
        ({
            let head = base64url(encode_utf8("{\"alg\":\"HS256\",\"typ\":\"JWT\"}"@));
            let body = base64url(encode_utf8(payload));
            let tag = hmac_tag(encode_utf8(secret), encode_utf8(head + "."@ + body));
            token_for(payload, secret) == head + "."@ + body + "."@ + base64url(tag)
        }),
{
}

// ---------------------------------------------------------------------------
// Cookies
// ---------------------------------------------------------------------------

/// A cookie carries a token exactly where it is named for it; white space around it does not
/// count.
pub proof fn law_cookie_names(name: Seq<char>, value: Seq<char>)
    requires
        !name.contains('='),
        trimmed(name + "="@ + value) == name + "="@ + value,
    ensures
        name == "auth_token"@ ==> token_in(name + "="@ + value) == Some(value),
        name != "auth_token"@ ==> token_in(name + "="@ + value) is None,
{
    reveal_strlit("=");
    let s = name + "="@ + value;
    assert forall|j: int| 0 <= j < name.len() implies s[j] != '=' by {
        assert(s[j] == name[j]);
        assert(name.contains(name[j]));
    }
    lemma_index_of_char(s, '=', name.len() as int);
    assert(s.take(name.len() as int) == name);
    assert(s.skip(name.len() as int + 1) == value);
}

/// Of several cookies the first that carries a token counts, wherever it stands.
pub proof fn law_token_among_cookies(first: Seq<char>, rest: Seq<char>)
    requires
        !first.contains(';'),
    ensures
        token_in(first) is Some ==> cookie_token(Some(first + ";"@ + rest)) == token_in(first),
        token_in(first) is None ==> cookie_token(Some(first + ";"@ + rest)) == cookie_token(Some(rest)),
        cookie_token(Some(first)) == token_in(first),
        cookie_token(None) is None,
{
    reveal_strlit(";");
    let h = first + ";"@ + rest;
    assert forall|j: int| 0 <= j < first.len() implies h[j] != ';' && first[j] != ';' by {
        assert(h[j] == first[j]);
        assert(first.contains(first[j]));
    }
    lemma_index_of_char(h, ';', first.len() as int);
    lemma_index_of_char(first, ';', first.len() as int);
    assert(h.take(first.len() as int) == first);
    assert(h.skip(first.len() as int + 1) == rest);
    assert(pieces(h, ';') == seq![first] + pieces(rest, ';'));
    assert(pieces(h, ';').skip(1) == pieces(rest, ';'));
    assert(pieces(first, ';') == seq![first]);
    assert(pieces(first, ';').skip(1) == Seq::<Seq<char>>::empty());
    reveal_with_fuel(first_token, 2);
}

/// A token made for claims is accepted up to the second in which they end, and refused as expired
/// after it.
pub proof fn law_made_token(c: Claims<Seq<char>>, now: u64)
    ensures
        now <= c.exp ==> made_token(c, now) == Ok::<
            TokenPayload<Claims<Seq<char>>, Seq<u8>>,
            Seq<char>,
        >(TokenPayload::Claims(c)),
        now > c.exp ==> made_token(c, now) == Err::<
            TokenPayload<Claims<Seq<char>>, Seq<u8>>,
            Seq<char>,
        >("JWT 令牌已过期"@),
{
}

/// Claims that were read are accepted as long; what could not be read stays refused.
pub proof fn law_claims_expire(c: Claims<Seq<char>>, e: Seq<char>, now: u64)
    ensures
        now <= c.exp ==> claims_verdict(Ok(c), now) == Ok::<Claims<Seq<char>>, Seq<char>>(c),
        now > c.exp ==> claims_verdict(Ok(c), now) == Err::<Claims<Seq<char>>, Seq<char>>(
            "JWT 令牌已过期"@,
        ),
        claims_verdict(Err(e), now) == Err::<Claims<Seq<char>>, Seq<char>>(e),
{
}

/// White space around a cookie does not belong to it.
pub proof fn law_cookie_white_space(cookie: Seq<char>)
    ensures
        token_in(cookie) == token_in(trimmed(cookie)),
{
    crate::text::law_trim_idempotent(cookie);
}

} // verus!
