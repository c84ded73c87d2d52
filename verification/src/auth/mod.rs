//! Signed tokens, login challenges and password digests.

use vstd::prelude::*;
use vstd::string::StringExecFns;
use vstd::utf8::{
    encode_utf8, encode_utf8_decode_utf8, is_ascii_chars, is_ascii_chars_encode_utf8,
};

use crate::auth::crypto::{
    base64_decode, base64_encode, base64url, base64url_read, bytes_view, hex_bytes, hex_decode,
    hex_encode, hex_text, hmac_sha256, hmac_tag, hmac_verify, is_base64url, is_hex_text,
    json_escape, json_escaped, json_quote, json_string, sha256, sha256_of,
};
use crate::auth::payload::{is_payload_of, read_claims};
use crate::number::{
    decimal, decimal_text, hex_lower, hex_value, is_digit, is_hex, law_decimal_round_trip,
    lemma_decimal, parse_uint, parsed_uint, push_decimal,
};
use crate::text::{
    chars_of, concat2, concat3, index_of_char, is_space, joined, law_split_join,
    lemma_index_of_char, lemma_index_of_char_bounds, opt_str, opt_text, pieces, same, split,
    text_of, texts, trim, trimmed,
};

pub mod crypto;
pub mod laws;
pub mod payload;

verus! {

/// The longest subject that a token can be made for.
pub const MAX_SUBJECT: usize = 178_956_900;

/// What a token says of its holder.
#[derive(Debug, Clone, PartialEq, Eq)]
pub struct Claims<S = String> {
    pub sub: S,
    /// The second from which on the token is no longer good.
    pub exp: u64,
    /// The second in which it was made.
    pub iat: u64,
}

impl View for Claims {
    type V = Claims<Seq<char>>;

    open spec fn view(&self) -> Claims<Seq<char>> {
        Claims { sub: self.sub@, exp: self.exp, iat: self.iat }
    }
}

// ---------------------------------------------------------------------------
// Cookies
// ---------------------------------------------------------------------------

/// The token in one cookie, if that is the one that carries it.
pub open spec fn token_in(cookie: Seq<char>) -> Option<Seq<char>> {
    let t = trimmed(cookie);
    let i = index_of_char(t, '=');
    if i < t.len() && t.take(i) == "auth_token"@ {
        Some(t.skip(i + 1))
    } else {
        None
    }
}

/// The token in the first cookie that carries one.
pub open spec fn first_token(cookies: Seq<Seq<char>>) -> Option<Seq<char>>
    decreases cookies.len(),
{
    if cookies.len() == 0 {
        None
    } else if token_in(cookies[0]) is Some {
        token_in(cookies[0])
    } else {
        first_token(cookies.skip(1))
    }
}

/// The token in a `Cookie` header.
pub open spec fn cookie_token(header: Option<Seq<char>>) -> Option<Seq<char>> {
    match header {
        Some(h) => first_token(pieces(h, ';')),
        None => None,
    }
}

fn read_token(cookie: &str) -> (r: Option<String>)
    ensures
        opt_text(r) == token_in(cookie@),
{
    let t = trim(cookie);
    let cs = chars_of(t);
    let n = cs.len();
    let mut i: usize = 0;
    while i < n && cs[i] != '='
        invariant
            i <= n == cs@.len(),
            cs@ == t@,
            forall|j: int| 0 <= j < i ==> cs@[j] != '=',
        decreases n - i,
    {
        i += 1;
    }
    proof {
        lemma_index_of_char(t@, '=', i as int);
    }
    if i < n {
        let name = text_of(&cs, 0, i);
        assert(cs@.subrange(0, i as int) == t@.take(i as int));
        assert(cs@.subrange(i + 1, n as int) == t@.skip(i + 1));
        if same(&name, "auth_token") {
            return Some(text_of(&cs, i + 1, n));
        }
    }
    None
}

/// The token in the `Cookie` header of a request.
pub fn extract_token_from_headers(cookie_header: Option<&str>) -> (r: Option<String>)
    ensures
        opt_text(r) == cookie_token(opt_str(cookie_header)),
{
    let header = match cookie_header {
        Some(h) => h,
        None => {
            return None;
        },
    };
    let list = split(header, ';');
    let ghost all = pieces(header@, ';');
    let mut k: usize = 0;
    assert(texts(list@).len() == list@.len());
    assert(all.skip(0) == all);
    while k < list.len()
        invariant
            k <= list@.len(),
            all == texts(list@),
            all == pieces(header@, ';'),
            opt_str(cookie_header) == Some(header@),
            all.len() == list@.len(),
            first_token(all) == first_token(all.skip(k as int)),
        decreases list@.len() - k,
    {
        let found = read_token(list[k]);
        assert(all.skip(k as int)[0] == list@[k as int]@);
        assert(all.skip(k as int).skip(1) == all.skip(k + 1));
        if found.is_some() {
            return found;
        }
        k += 1;
    }
    None
}

// ---------------------------------------------------------------------------
// Tokens
// ---------------------------------------------------------------------------

/// The claims in JSON.
pub open spec fn claims_json(c: Claims<Seq<char>>) -> Seq<char> {
    "{\"sub\":"@ + json_string(c.sub) + ",\"exp\":"@ + decimal(c.exp as nat) + ",\"iat\":"@
        + decimal(c.iat as nat) + "}"@
}

/// The part of a token that is signed, for a payload in JSON.
pub open spec fn signing_input(payload: Seq<char>) -> Seq<char> {
    base64url(encode_utf8("{\"alg\":\"HS256\",\"typ\":\"JWT\"}"@)) + "."@ + base64url(
        encode_utf8(payload),
    )
}

/// The token with a payload in JSON, signed with HMAC-SHA-256.
pub open spec fn token_for(payload: Seq<char>, secret: Seq<char>) -> Seq<char> {
    let input = signing_input(payload);
    input + "."@ + base64url(hmac_tag(encode_utf8(secret), encode_utf8(input)))
}

proof fn lemma_utf8_len(s: Seq<char>)
    ensures
        encode_utf8(s).len() <= 4 * s.len(),
    decreases s.len(),
{
    if s.len() > 0 {
        lemma_utf8_len(s.drop_first());
    }
}

proof fn lemma_utf8_concat(a: Seq<char>, b: Seq<char>)
    ensures
        encode_utf8(a + b).len() == encode_utf8(a).len() + encode_utf8(b).len(),
    decreases a.len(),
{
    if a.len() > 0 {
        lemma_utf8_concat(a.drop_first(), b);
        assert((a + b).drop_first() == a.drop_first() + b);
    } else {
        assert(a + b == b);
    }
}

/// A character takes at most six bytes in a JSON string.
proof fn lemma_escape_len(c: char)
    ensures
        encode_utf8(json_escape(c)).len() <= 6,
{
    let e = json_escape(c);
    lemma_utf8_len(e);
    if e.len() > 1 {
        if ' ' > c {
            lemma_hex_lower(c as u32 as nat / 16);
            lemma_hex_lower(c as u32 as nat % 16);
        }
        assert(is_ascii_chars(e));
        is_ascii_chars_encode_utf8(e);
    }
}

proof fn lemma_json_len(s: Seq<char>)
    ensures
        encode_utf8(json_escaped(s)).len() <= 6 * s.len(),
    decreases s.len(),
{
    if s.len() > 0 {
        lemma_json_len(s.drop_first());
        lemma_utf8_concat(json_escape(s[0]), json_escaped(s.drop_first()));
        lemma_escape_len(s[0]);
    }
}

proof fn lemma_decimal_len(n: nat)
    requires
        n <= u64::MAX,
    ensures
        decimal(n).len() <= 20,
{
    reveal_with_fuel(decimal, 21);
}

/// The claims in JSON.
pub(crate) fn json_of_claims(claims: &Claims) -> (r: String)
    requires
        claims.sub@.len() <= 0x1000_0000,
    ensures
        r@ == claims_json(claims@),
        encode_utf8(r@).len() <= 6 * claims.sub@.len() + 260,
{
    let mut r = "{\"sub\":".to_owned();
    r.append(&json_quote(&claims.sub));
    r.append(",\"exp\":");
    push_decimal(&mut r, claims.exp);
    r.append(",\"iat\":");
    push_decimal(&mut r, claims.iat);
    r.append("}");
    proof {
        reveal_strlit("{\"sub\":");
        reveal_strlit(",\"exp\":");
        reveal_strlit(",\"iat\":");
        reveal_strlit("}");
        lemma_decimal_len(claims.exp as nat);
        lemma_decimal_len(claims.iat as nat);
        let head = "{\"sub\":"@ + seq!['"'];
        let tail = seq!['"'] + ",\"exp\":"@ + decimal(claims.exp as nat) + ",\"iat\":"@ + decimal(
            claims.iat as nat,
        ) + "}"@;
        let sub = json_escaped(claims.sub@);
        assert(r@ == head + sub + tail);
        lemma_json_len(claims.sub@);
        lemma_utf8_concat(head, sub);
        lemma_utf8_concat(head + sub, tail);
        lemma_utf8_len(head);
        lemma_utf8_len(tail);
    }
    r
}

/// Text of the URL-safe base64 alphabet and dots.
pub open spec fn is_token_text(s: Seq<char>) -> bool {
    s.len() > 0 && forall|i: int|
        0 <= i < s.len() ==> is_base64url(#[trigger] s[i]) || s[i] == '.'
}

/// What a token made for claims comes to at `now`.
pub open spec fn made_token(c: Claims<Seq<char>>, now: u64) -> Result<
    TokenPayload<Claims<Seq<char>>, Seq<u8>>,
    Seq<char>,
> {
    if c.exp >= now {
        Ok(TokenPayload::Claims(c))
    } else {
        Err("JWT 令牌已过期"@)
    }
}

/// Makes a token that holds the claims, signed with the secret. Under the same secret it is
/// accepted, and its payload is the claims. The bound on the subject keeps the payload, with six
/// bytes for each character, within what can be encoded where addresses have 32 bits.
pub fn jwt_encode(claims: &Claims, secret: &str) -> (r: Result<String, String>)
    requires
        claims.sub@.len() <= MAX_SUBJECT,
    ensures
        r is Ok,
        r->Ok_0@ == token_for(claims_json(claims@), secret@),
        verified_payload(r->Ok_0@, secret@) == Ok::<Seq<u8>, Seq<char>>(
            encode_utf8(claims_json(claims@)),
        ),
        forall|now: u64| #[trigger]
            decoded(r->Ok_0@, secret@, now) == made_token(claims@, now),
        is_token_text(r->Ok_0@),
{
    let payload = json_of_claims(claims);
    let header = "{\"alg\":\"HS256\",\"typ\":\"JWT\"}";
    proof {
        reveal_strlit("{\"alg\":\"HS256\",\"typ\":\"JWT\"}");
        lemma_utf8_len(header@);
    }
    let a = base64_encode(header.as_bytes());
    let b = base64_encode(payload.as_str().as_bytes());
    let input = concat3(&a, ".", &b);
    let tag = hmac_sha256(secret.as_bytes(), input.as_str().as_bytes());
    let c = base64_encode(&tag);
    let token = concat3(&input, ".", &c);
    proof {
        let parts = seq![a@, b@, c@];
        lemma_no_dot(a@);
        lemma_no_dot(b@);
        lemma_no_dot(c@);
        reveal_strlit(".");
        assert("."@ == seq!['.']);
        lemma_joined_three(a@, b@, c@, seq!['.']);
        law_split_join(parts, '.');
        assert forall|i: int| 0 <= i < token@.len() implies is_base64url(#[trigger] token@[i])
            || token@[i] == '.' by {
            let n = input@.len();
            if i < a@.len() {
                assert(token@[i] == a@[i]);
            } else if i > a@.len() && i < n {
                assert(token@[i] == b@[i - a@.len() - 1]);
            } else if i > n {
                assert(token@[i] == c@[i - n - 1]);
            }
        }
    }
    proof {
        assert forall|now: u64| #[trigger]
            decoded(token@, secret@, now) == made_token(claims@, now) by {
            law_token_is_good_until_it_expires(token@, claims@, secret@, now);
        }
    }
    Ok(token)
}

proof fn lemma_no_dot(s: Seq<char>)
    requires
        forall|i: int| 0 <= i < s.len() ==> is_base64url(#[trigger] s[i]),
    ensures
        !s.contains('.'),
{
    if s.contains('.') {
        let i = choose|i: int| 0 <= i < s.len() && s[i] == '.';
        assert(is_base64url(s[i]));
    }
}

proof fn lemma_joined_three(a: Seq<char>, b: Seq<char>, c: Seq<char>, sep: Seq<char>)
    ensures
        joined(seq![a, b, c], sep) == a + sep + b + sep + c,
{
    reveal_with_fuel(joined, 3);
    assert(seq![a, b, c].drop_last() == seq![a, b]);
    assert(seq![a, b].drop_last() == seq![a]);
}

/// What a signed token of three parts comes to, by what its signature and payload denote.
pub open spec fn verdict(
    signature: Result<Seq<u8>, Seq<char>>,
    genuine: bool,
    payload: Result<Seq<u8>, Seq<char>>,
) -> Result<Seq<u8>, Seq<char>> {
    match signature {
        Err(e) => Err("Base64 解码失败: "@ + e),
        Ok(_) => if !genuine {
            Err("JWT 签名验证失败"@)
        } else {
            match payload {
                Err(e) => Err("Base64 解码失败: "@ + e),
                Ok(b) => Ok(b),
            }
        },
    }
}

/// What a token comes to: the payload where the signature is genuine.
pub open spec fn verified_payload(
    token: Seq<char>,
    secret: Seq<char>,
) -> Result<Seq<u8>, Seq<char>> {
    let parts = pieces(token, '.');
    if parts.len() != 3 {
        Err("无效的 JWT 令牌格式"@)
    } else {
        let signature = base64url_read(parts[2]);
        verdict(
            signature,
            signature == Ok::<Seq<u8>, Seq<char>>(
                hmac_tag(encode_utf8(secret), encode_utf8(parts[0] + "."@ + parts[1])),
            ),
            base64url_read(parts[1]),
        )
    }
}

/// Judges a signed token by what its signature and payload denote.
pub fn judge_token(
    signature: Result<Vec<u8>, String>,
    genuine: bool,
    payload: Result<Vec<u8>, String>,
) -> (r: Result<Vec<u8>, String>)
    ensures
        bytes_view(r) == verdict(bytes_view(signature), genuine, bytes_view(payload)),
{
    match signature {
        Err(e) => Err(concat2("Base64 解码失败: ", &e)),
        Ok(_) => {
            if !genuine {
                return Err("JWT 签名验证失败".to_owned());
            }
            match payload {
                Err(e) => Err(concat2("Base64 解码失败: ", &e)),
                Ok(b) => Ok(b),
            }
        },
    }
}

/// Checks the signature of a token and gives its payload, the claims in JSON.
pub fn signed_payload(token: &str, secret: &str) -> (r: Result<Vec<u8>, String>)
    ensures
        bytes_view(r) == verified_payload(token@, secret@),
{
    let parts = split(token, '.');
    assert(texts(parts@).len() == parts@.len());
    if parts.len() != 3 {
        return Err("无效的 JWT 令牌格式".to_owned());
    }
    assert(forall|i: int| 0 <= i < 3 ==> pieces(token@, '.')[i] == (#[trigger] parts@[i])@);
    let input = concat3(parts[0], ".", parts[1]);
    let signature = base64_decode(parts[2]);
    let genuine = match &signature {
        Ok(tag) => hmac_verify(secret.as_bytes(), input.as_str().as_bytes(), tag),
        Err(_) => false,
    };
    judge_token(signature, genuine, base64_decode(parts[1]))
}

/// The claims hold at `now`.
pub open spec fn is_current(c: Claims<Seq<char>>, now: u64) -> bool {
    c.exp >= now
}

/// The view of claims, or of why there are none.
pub open spec fn claims_view(r: Result<Claims, String>) -> Result<Claims<Seq<char>>, Seq<char>> {
    match r {
        Ok(c) => Ok(c@),
        Err(e) => Err(e@),
    }
}

/// What the claims come to that a payload was read as: they are accepted until they run out.
pub open spec fn claims_verdict(
    parsed: Result<Claims<Seq<char>>, Seq<char>>,
    now: u64,
) -> Result<Claims<Seq<char>>, Seq<char>> {
    match parsed {
        Ok(c) => if is_current(c, now) {
            Ok(c)
        } else {
            Err("JWT 令牌已过期"@)
        },
        Err(e) => Err(e),
    }
}

/// Accepts the claims that the payload of a token was read as, unless they have run out.
pub fn check_claims(parsed: Result<Claims, String>, now: u64) -> (r: Result<Claims, String>)
    ensures
        claims_view(r) == claims_verdict(claims_view(parsed), now),
{
    match parsed {
        Ok(claims) => if claims.exp < now {
            Err("JWT 令牌已过期".to_owned())
        } else {
            Ok(claims)
        },
        Err(e) => Err(e),
    }
}

/// What a signed token holds.
#[derive(Debug, PartialEq, Eq)]
pub enum TokenPayload<C = Claims, B = Vec<u8>> {
    /// Claims, written as `jwt_encode` writes them.
    Claims(C),
    /// Anything else, which is left to a reader of JSON.
    Foreign(B),
}

/// The view of what a token comes to.
pub open spec fn payload_view(r: Result<TokenPayload, String>) -> Result<
    TokenPayload<Claims<Seq<char>>, Seq<u8>>,
    Seq<char>,
> {
    match r {
        Ok(TokenPayload::Claims(c)) => Ok(TokenPayload::Claims(c@)),
        Ok(TokenPayload::Foreign(b)) => Ok(TokenPayload::Foreign(b@)),
        Err(e) => Err(e@),
    }
}

/// The claims that a payload was made for.
pub open spec fn claims_in(payload: Seq<u8>) -> Option<Claims<Seq<char>>> {
    if exists|c: Claims<Seq<char>>| is_payload_of(payload, c) {
        Some(choose|c: Claims<Seq<char>>| is_payload_of(payload, c))
    } else {
        None
    }
}

/// What a token comes to at `now`: the claims that it was made for until they run out, or a
/// payload that is written in another way.
pub open spec fn decoded(token: Seq<char>, secret: Seq<char>, now: u64) -> Result<
    TokenPayload<Claims<Seq<char>>, Seq<u8>>,
    Seq<char>,
> {
    match verified_payload(token, secret) {
        Err(e) => Err(e),
        Ok(b) => match claims_in(b) {
            Some(c) => match claims_verdict(Ok(c), now) {
                Ok(c) => Ok(TokenPayload::Claims(c)),
                Err(e) => Err(e),
            },
            None => Ok(TokenPayload::Foreign(b)),
        },
    }
}

/// Checks a token, given the time in seconds, and gives its claims. A payload that is genuine but
/// written in another way than `jwt_encode` writes claims is handed back.
pub fn jwt_decode(token: &str, secret: &str, now: u64) -> (r: Result<TokenPayload, String>)
    ensures
        payload_view(r) == decoded(token@, secret@, now),
{
    match signed_payload(token, secret) {
        Err(e) => Err(e),
        Ok(b) => match read_claims(&b) {
            Some(c) => {
                proof {
                    let d = claims_in(b@)->0;
                    assert(is_payload_of(b@, c@));
                    assert(is_payload_of(b@, d));
                    law_payload_tells_claims(c@, d);
                }
                match check_claims(Ok(c), now) {
                    Ok(c) => Ok(TokenPayload::Claims(c)),
                    Err(e) => Err(e),
                }
            },
            None => Ok(TokenPayload::Foreign(b)),
        },
    }
}

/// Whether a request belongs to a session.
#[derive(Debug, PartialEq, Eq)]
pub enum Session<B = Vec<u8>> {
    Open,
    Closed,
    /// The token is genuine, but its payload is left to a reader of JSON.
    Foreign(B),
}

/// The view of a session.
pub open spec fn session_view(s: Session) -> Session<Seq<u8>> {
    match s {
        Session::Open => Session::Open,
        Session::Closed => Session::Closed,
        Session::Foreign(b) => Session::Foreign(b@),
    }
}

/// Whether a request with this `Cookie` header belongs to a session at `now`: its token is
/// accepted.
pub open spec fn session_of(
    cookie_header: Option<Seq<char>>,
    secret: Seq<char>,
    now: u64,
) -> Session<Seq<u8>> {
    match cookie_token(cookie_header) {
        Some(token) => match decoded(token, secret, now) {
            Ok(TokenPayload::Claims(_)) => Session::Open,
            Ok(TokenPayload::Foreign(b)) => Session::Foreign(b),
            Err(_) => Session::Closed,
        },
        None => Session::Closed,
    }
}

/// Whether a request belongs to a session, given the time in seconds.
pub fn is_authenticated(cookie_header: Option<&str>, jwt_secret: &str, now: u64) -> (r: Session)
    ensures
        session_view(r) == session_of(opt_str(cookie_header), jwt_secret@, now),
{
    match extract_token_from_headers(cookie_header) {
        Some(token) => match jwt_decode(&token, jwt_secret, now) {
            Ok(TokenPayload::Claims(_)) => Session::Open,
            Ok(TokenPayload::Foreign(b)) => Session::Foreign(b),
            Err(_) => Session::Closed,
        },
        None => Session::Closed,
    }
}

// ---------------------------------------------------------------------------
// Passwords
// ---------------------------------------------------------------------------

/// The SHA-256 digest of a text as hexadecimal digits.
pub open spec fn text_digest(s: Seq<char>) -> Seq<char> {
    hex_text(sha256_of(encode_utf8(s)))
}

/// The SHA-256 digest of a password as hexadecimal digits.
pub fn hash_password_sha256(password: &str) -> (r: String)
    ensures
        r@ == text_digest(password@),
        r@.len() == 64,
{
    let digest = sha256(password.as_bytes());
    hex_encode(&digest)
}

// ---------------------------------------------------------------------------
// Login challenges
// ---------------------------------------------------------------------------

/// The challenge made at `now`: the time, and its tag under the secret.
pub open spec fn nonce_at(secret: Seq<char>, now: u64) -> Seq<char> {
    let time = decimal(now as nat);
    time + "."@ + hex_text(hmac_tag(encode_utf8(secret), encode_utf8(time)))
}

/// Makes a challenge, given the time in seconds.
pub fn generate_stateless_nonce(secret: &str, now: u64) -> (r: String)
    ensures
        r@ == nonce_at(secret@, now),
{
    let time = decimal_text(now);
    let tag = hmac_sha256(secret.as_bytes(), time.as_str().as_bytes());
    concat3(&time, ".", &hex_encode(&tag))
}

/// A challenge made at `made` is good at `now`: it is at most a minute old, and at most five
/// seconds ahead of the clock.
pub open spec fn is_timely(made: int, now: int) -> bool {
    now - 60 <= made <= now + 5
}

/// A challenge is good: a time and its tag under the secret, at the right time.
pub open spec fn is_good_nonce(nonce: Seq<char>, secret: Seq<char>, now: u64) -> bool {
    let parts = pieces(nonce, '.');
    &&& parts.len() == 2
    &&& parsed_uint(parts[0], u64::MAX as nat) matches Some(made) && is_timely(
        made as int,
        now as int,
    )
    &&& is_hex_text(parts[1])
    &&& hex_bytes(parts[1]) == hmac_tag(encode_utf8(secret), encode_utf8(parts[0]))
}

/// Checks a challenge, given the time in seconds.
pub fn verify_stateless_nonce(nonce: &str, secret: &str, now: u64) -> (r: bool)
    ensures
        r == is_good_nonce(nonce@, secret@, now),
{
    let parts = split(nonce, '.');
    assert(texts(parts@).len() == parts@.len());
    if parts.len() != 2 {
        return false;
    }
    assert(forall|i: int| 0 <= i < 2 ==> pieces(nonce@, '.')[i] == (#[trigger] parts@[i])@);
    let made: u64 = match parse_uint(parts[0], u64::MAX) {
        Some(v) => v,
        None => {
            return false;
        },
    };
    if (made > now && made - now > 5) || (now > made && now - made > 60) {
        return false;
    }
    match hex_decode(parts[1]) {
        Some(tag) => hmac_verify(secret.as_bytes(), parts[0].as_bytes(), &tag),
        None => false,
    }
}

// ---------------------------------------------------------------------------
// Laws
// ---------------------------------------------------------------------------

proof fn lemma_hex_text(b: Seq<u8>)
    ensures
        is_hex_text(hex_text(b)),
        hex_bytes(hex_text(b)) == b,
        !hex_text(b).contains('.'),
{
    let h = hex_text(b);
    assert forall|i: int| 0 <= i < h.len() implies is_hex(#[trigger] h[i]) && h[i] != '.' by {
        let d = if i % 2 == 0 {
            (b[i / 2] / 16) as nat
        } else {
            (b[i / 2] % 16) as nat
        };
        lemma_hex_lower(d);
    }
    assert forall|i: int| 0 <= i < b.len() implies #[trigger] hex_bytes(h)[i] == b[i] by {
        lemma_hex_lower((b[i] / 16) as nat);
        lemma_hex_lower((b[i] % 16) as nat);
        assert((2 * i) / 2 == i && (2 * i + 1) / 2 == i);
        assert(h[2 * i] == hex_lower((b[i] / 16) as nat));
        assert(h[2 * i + 1] == hex_lower((b[i] % 16) as nat));
    }
    assert(hex_bytes(h) == b);
}

pub(crate) proof fn lemma_hex_lower(d: nat)
    requires
        d < 16,
    ensures
        is_hex(hex_lower(d)),
        hex_value(hex_lower(d)) == d,
        hex_lower(d) != '.',
{
}

/// A challenge is good under its own secret from five seconds before to a minute after it was
/// made, and at no other time.
pub proof fn law_nonce_is_good_for_a_minute(secret: Seq<char>, made: u64, now: u64)
    ensures
        is_good_nonce(nonce_at(secret, made), secret, now) <==> is_timely(
            made as int,
            now as int,
        ),
{
    let time = decimal(made as nat);
    let tag = hmac_tag(encode_utf8(secret), encode_utf8(time));
    lemma_decimal(made as nat);
    law_decimal_round_trip(made as nat, u64::MAX as nat);
    lemma_hex_text(tag);
    assert(!time.contains('.')) by {
        if time.contains('.') {
            let i = choose|i: int| 0 <= i < time.len() && time[i] == '.';
            assert(is_digit(time[i]));
        }
    }
    reveal_strlit(".");
    assert("."@ == seq!['.']);
    let parts = seq![time, hex_text(tag)];
    reveal_with_fuel(joined, 2);
    assert(parts.drop_last() == seq![time]);
    law_split_join(parts, '.');
    assert(pieces(nonce_at(secret, made), '.') == parts);
}

/// What follows an escaped character, and the character, are told by the text.
proof fn lemma_escape_unique(a: char, b: char, x: Seq<char>, y: Seq<char>)
    requires
        json_escape(a) + x == json_escape(b) + y,
    ensures
        a == b,
        x == y,
{
    let l = json_escape(a) + x;
    let r = json_escape(b) + y;
    assert(l[0] == json_escape(a)[0] && r[0] == json_escape(b)[0]);
    if json_escape(a).len() > 1 && json_escape(b).len() > 1 {
        assert(l[1] == json_escape(a)[1] && r[1] == json_escape(b)[1]);
        if json_escape(a).len() == 6 && json_escape(b).len() == 6 {
            assert(l[4] == json_escape(a)[4] && r[4] == json_escape(b)[4]);
            assert(l[5] == json_escape(a)[5] && r[5] == json_escape(b)[5]);
            lemma_hex_lower(a as u32 as nat / 16);
            lemma_hex_lower(a as u32 as nat % 16);
            lemma_hex_lower(b as u32 as nat / 16);
            lemma_hex_lower(b as u32 as nat % 16);
        }
    }
    assert(a == b);
    let n = json_escape(a).len() as int;
    assert(x == l.skip(n));
    assert(y == r.skip(n));
}

/// What follows a JSON string, and the text in it, are told by the text.
proof fn lemma_string_unique(a: Seq<char>, b: Seq<char>, x: Seq<char>, y: Seq<char>)
    requires
        json_escaped(a) + seq!['"'] + x == json_escaped(b) + seq!['"'] + y,
    ensures
        a == b,
        x == y,
    decreases a.len(),
{
    let q = seq!['"'];
    let l = json_escaped(a) + q + x;
    let r = json_escaped(b) + q + y;
    if a.len() > 0 {
        let ta = json_escaped(a.drop_first()) + q + x;
        assert(l == json_escape(a[0]) + ta);
        assert(l[0] == json_escape(a[0])[0]);
        if b.len() > 0 {
            let tb = json_escaped(b.drop_first()) + q + y;
            assert(r == json_escape(b[0]) + tb);
            lemma_escape_unique(a[0], b[0], ta, tb);
            lemma_string_unique(a.drop_first(), b.drop_first(), x, y);
            assert(a == seq![a[0]] + a.drop_first());
            assert(b == seq![b[0]] + b.drop_first());
        } else {
            assert(r[0] == '"');
        }
    } else {
        assert(l[0] == '"');
        if b.len() > 0 {
            let tb = json_escaped(b.drop_first()) + q + y;
            assert(r == json_escape(b[0]) + tb);
            assert(r[0] == json_escape(b[0])[0]);
        } else {
            assert(x == l.skip(1));
            assert(y == r.skip(1));
        }
    }
}

/// What follows a number that ends at a character other than a digit, and the number, are told by
/// the text.
proof fn lemma_number_unique(m: nat, n: nat, t: char, x: Seq<char>, y: Seq<char>)
    requires
        !is_digit(t),
        decimal(m) + seq![t] + x == decimal(n) + seq![t] + y,
    ensures
        m == n,
        x == y,
{
    let a = decimal(m);
    let b = decimal(n);
    let l = a + seq![t] + x;
    let r = b + seq![t] + y;
    lemma_decimal(m);
    lemma_decimal(n);
    if a.len() < b.len() {
        assert(l[a.len() as int] == t);
        assert(r[a.len() as int] == b[a.len() as int]);
        assert(is_digit(b[a.len() as int]));
    }
    if b.len() < a.len() {
        assert(r[b.len() as int] == t);
        assert(l[b.len() as int] == a[b.len() as int]);
        assert(is_digit(a[b.len() as int]));
    }
    assert(a == l.take(a.len() as int));
    assert(b == r.take(b.len() as int));
    assert(x == l.skip(a.len() as int + 1));
    assert(y == r.skip(b.len() as int + 1));
}

/// What follows a word is told by the text.
proof fn lemma_same_behind(word: Seq<char>, x: Seq<char>, y: Seq<char>)
    requires
        word + x == word + y,
    ensures
        x == y,
{
    assert(x == (word + x).skip(word.len() as int));
    assert(y == (word + y).skip(word.len() as int));
}

/// The end of the claims in JSON, from the last number on.
spec fn last_part(c: Claims<Seq<char>>) -> Seq<char> {
    decimal(c.iat as nat) + seq!['}'] + Seq::<char>::empty()
}

/// The end of the claims in JSON, from the first number on.
spec fn number_part(c: Claims<Seq<char>>) -> Seq<char> {
    decimal(c.exp as nat) + seq![','] + (",\"iat\":"@.skip(1) + last_part(c))
}

/// The claims in JSON, seen part by part.
proof fn lemma_claims_parts(c: Claims<Seq<char>>)
    ensures
        claims_json(c) == ("{\"sub\":"@ + seq!['"']) + (json_escaped(c.sub) + seq!['"'] + (
        ",\"exp\":"@ + number_part(c))),
{
    reveal_strlit(",\"iat\":");
    reveal_strlit("}");
    assert(",\"iat\":"@ == seq![','] + ",\"iat\":"@.skip(1));
    assert("}"@ == seq!['}']);
    assert(number_part(c) == decimal(c.exp as nat) + ",\"iat\":"@ + decimal(c.iat as nat) + "}"@);
    assert(claims_json(c) == ("{\"sub\":"@ + seq!['"']) + (json_escaped(c.sub) + seq!['"'] + (
    ",\"exp\":"@ + number_part(c))));
}

/// A payload tells its claims: no two claims have the same one.
pub proof fn law_payload_tells_claims(a: Claims<Seq<char>>, b: Claims<Seq<char>>)
    requires
        encode_utf8(claims_json(a)) == encode_utf8(claims_json(b)),
    ensures
        a == b,
{
    encode_utf8_decode_utf8(claims_json(a));
    encode_utf8_decode_utf8(claims_json(b));
    lemma_claims_parts(a);
    lemma_claims_parts(b);
    let q = seq!['"'];
    let x = ",\"exp\":"@ + number_part(a);
    let y = ",\"exp\":"@ + number_part(b);
    lemma_same_behind("{\"sub\":"@ + q, json_escaped(a.sub) + q + x, json_escaped(b.sub) + q + y);
    lemma_string_unique(a.sub, b.sub, x, y);
    lemma_same_behind(",\"exp\":"@, number_part(a), number_part(b));
    let w = ",\"iat\":"@.skip(1);
    lemma_number_unique(a.exp as nat, b.exp as nat, ',', w + last_part(a), w + last_part(b));
    lemma_same_behind(w, last_part(a), last_part(b));
    lemma_number_unique(a.iat as nat, b.iat as nat, '}', Seq::empty(), Seq::empty());
}

/// A token made for claims, as `jwt_encode` makes it, gives them back until they run out and is
/// refused from then on.
pub proof fn law_token_is_good_until_it_expires(
    token: Seq<char>,
    c: Claims<Seq<char>>,
    secret: Seq<char>,
    now: u64,
)
    requires
        c.sub.len() <= MAX_SUBJECT,
        verified_payload(token, secret) == Ok::<Seq<u8>, Seq<char>>(encode_utf8(claims_json(c))),
    ensures
        c.exp >= now ==> decoded(token, secret, now) == Ok::<
            TokenPayload<Claims<Seq<char>>, Seq<u8>>,
            Seq<char>,
        >(TokenPayload::Claims(c)),
        c.exp < now ==> decoded(token, secret, now) == Err::<
            TokenPayload<Claims<Seq<char>>, Seq<u8>>,
            Seq<char>,
        >("JWT 令牌已过期"@),
{
    let b = encode_utf8(claims_json(c));
    assert(is_payload_of(b, c));
    let d = claims_in(b)->0;
    assert(is_payload_of(b, d));
    law_payload_tells_claims(c, d);
}

/// A text that dots do not cut into three parts is never accepted as a token.
pub proof fn law_token_has_three_parts(token: Seq<char>, secret: Seq<char>, now: u64)
    requires
        pieces(token, '.').len() != 3,
    ensures
        decoded(token, secret, now) is Err,
{
}

/// A cookie with a token that was made for claims opens a session until they run out.
pub proof fn law_cookie_opens_session(
    token: Seq<char>,
    c: Claims<Seq<char>>,
    secret: Seq<char>,
    now: u64,
)
    requires
        is_token_text(token),
        c.sub.len() <= MAX_SUBJECT,
        verified_payload(token, secret) == Ok::<Seq<u8>, Seq<char>>(encode_utf8(claims_json(c))),
    ensures
        session_of(Some("auth_token="@ + token), secret, now) == (if c.exp >= now {
            Session::<Seq<u8>>::Open
        } else {
            Session::<Seq<u8>>::Closed
        }),
{
    law_cookie_gives_token_back(token);
    law_token_is_good_until_it_expires(token, c, secret, now);
}

/// The cookie that carries a token gives it back.
pub proof fn law_cookie_gives_token_back(token: Seq<char>)
    requires
        is_token_text(token),
    ensures
        cookie_token(Some("auth_token="@ + token)) == Some(token),
{
    reveal_strlit("auth_token=");
    reveal_strlit("auth_token");
    let h = "auth_token="@ + token;
    assert(!h.contains(';')) by {
        if h.contains(';') {
            let i = choose|i: int| 0 <= i < h.len() && h[i] == ';';
            if i >= 11 {
                assert(h[i] == token[i - 11]);
                assert(token[i - 11] != ';');
            }
        }
    }
    lemma_index_of_char_bounds(h, ';');
    if index_of_char(h, ';') < h.len() {
        assert(h[index_of_char(h, ';')] == ';');
    }
    assert(pieces(h, ';') == seq![h]);
    assert(h[0] == 'a');
    assert(h.last() == token[token.len() - 1]);
    assert(!is_space(h.last()));
    assert(trimmed(h) == h);
    lemma_index_of_char(h, '=', 10);
    assert(h.take(10) == "auth_token"@);
    assert(h.skip(11) == token);
}

} // verus!
