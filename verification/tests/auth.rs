//! Tokens, nonces and hashes, held against the crates that compute them.

use base64::Engine;
use hmac::{Hmac, KeyInit, Mac};
use quectel_webui::auth::{
    check_claims, extract_token_from_headers, generate_stateless_nonce, hash_password_sha256,
    is_authenticated, jwt_decode, jwt_encode, signed_payload, verify_stateless_nonce, Claims,
    Session, TokenPayload,
};
use sha2::Sha256;

fn tag(key: &str, message: &str) -> Vec<u8> {
    let mut mac = Hmac::<Sha256>::new_from_slice(key.as_bytes()).unwrap();
    mac.update(message.as_bytes());
    mac.finalize().into_bytes().to_vec()
}

fn base64url(bytes: &[u8]) -> String {
    base64::engine::general_purpose::URL_SAFE_NO_PAD.encode(bytes)
}

fn claims(sub: &str) -> Claims {
    Claims { sub: sub.to_string(), exp: 1000, iat: 10 }
}

#[test]
fn passwords_hash_to_hex() {
    assert_eq!(
        hash_password_sha256("abc"),
        "ba7816bf8f01cfea414140de5dae2223b00361a396177a9cb410ff61f20015ad"
    );
    assert_eq!(
        hash_password_sha256(""),
        "e3b0c44298fc1c149afbf4c8996fb92427ae41e4649b934ca495991b7852b855"
    );
    assert_eq!(
        hash_password_sha256("admin123"),
        "240be518fabd2724ddb6f04eeb1da5967448d7e831c08c8fa822809f74c720a9"
    );
}

#[test]
fn tokens_are_three_signed_parts() {
    let controls: String = (0..0x80u32).filter_map(char::from_u32).collect();
    for sub in ["admin", "", "q\"uo\\te\n\u{1}中😀", &controls] {
        let token = jwt_encode(&claims(sub), "secret").unwrap();
        let header = base64url(br#"{"alg":"HS256","typ":"JWT"}"#);
        let quoted = serde_json::to_string(sub).unwrap();
        let payload = format!("{{\"sub\":{},\"exp\":1000,\"iat\":10}}", quoted);
        let input = format!("{}.{}", header, base64url(payload.as_bytes()));
        assert_eq!(token, format!("{}.{}", input, base64url(&tag("secret", &input))));
        assert_eq!(signed_payload(&token, "secret"), Ok(payload.into_bytes()));
        assert_eq!(jwt_decode(&token, "secret", 1000), Ok(TokenPayload::Claims(claims(sub))));
        assert_eq!(jwt_decode(&token, "secret", 1001), Err("JWT 令牌已过期".to_string()));
        let cookie = format!("a=b; auth_token={}", token);
        assert_eq!(is_authenticated(Some(&cookie), "secret", 1000), Session::Open);
        assert_eq!(is_authenticated(Some(&cookie), "secret", 1001), Session::Closed);
        assert_eq!(is_authenticated(Some(&cookie), "other", 1000), Session::Closed);
    }
}

#[test]
fn wrong_tokens_are_refused() {
    let token = jwt_encode(&claims("admin"), "secret").unwrap();
    assert_eq!(jwt_decode("a.b", "secret", 0), Err("无效的 JWT 令牌格式".to_string()));
    assert_eq!(jwt_decode("a.b.c.d", "secret", 0), Err("无效的 JWT 令牌格式".to_string()));
    assert_eq!(jwt_decode(&token, "other", 0), Err("JWT 签名验证失败".to_string()));
    assert_eq!(jwt_decode("a.b.YQ", "secret", 0), Err("JWT 签名验证失败".to_string()));
    let reason = base64::engine::general_purpose::URL_SAFE_NO_PAD.decode("*").unwrap_err().to_string();
    assert_eq!(jwt_decode("a.b.*", "secret", 0), Err(format!("Base64 解码失败: {}", reason)));
    let bad = format!("a.*.{}", base64url(&tag("secret", "a.*")));
    assert_eq!(jwt_decode(&bad, "secret", 0), Err(format!("Base64 解码失败: {}", reason)));
}

#[test]
fn claims_expire() {
    assert_eq!(check_claims(Ok(claims("admin")), 1000), Ok(claims("admin")));
    assert_eq!(check_claims(Ok(claims("admin")), 1001), Err("JWT 令牌已过期".to_string()));
    assert_eq!(check_claims(Err("unreadable".to_string()), 0), Err("unreadable".to_string()));
}

#[test]
fn cookies_hold_the_token() {
    assert_eq!(extract_token_from_headers(None), None);
    assert_eq!(extract_token_from_headers(Some("")), None);
    assert_eq!(extract_token_from_headers(Some("auth_token")), None);
    assert_eq!(extract_token_from_headers(Some("x=1; auth_token=a=b ;y")), Some("a=b".to_string()));
    assert_eq!(extract_token_from_headers(Some("auth_token=1; auth_token=2")), Some("1".to_string()));
    assert_eq!(extract_token_from_headers(Some("AUTH_TOKEN=1")), None);
}

#[test]
fn nonces_are_good_for_a_minute() {
    let nonce = generate_stateless_nonce("key", 1_700_000_000);
    assert_eq!(nonce, format!("1700000000.{}", hex::encode(tag("key", "1700000000"))));
    assert!(verify_stateless_nonce(&nonce, "key", 1_700_000_000));
    assert!(verify_stateless_nonce(&nonce, "key", 1_700_000_060));
    assert!(!verify_stateless_nonce(&nonce, "key", 1_700_000_061));
    assert!(verify_stateless_nonce(&nonce, "key", 1_699_999_995));
    assert!(!verify_stateless_nonce(&nonce, "key", 1_699_999_994));
    assert!(!verify_stateless_nonce(&nonce, "other", 1_700_000_000));
    let last = generate_stateless_nonce("key", u64::MAX);
    assert!(verify_stateless_nonce(&last, "key", u64::MAX));
    assert!(verify_stateless_nonce(&last, "key", u64::MAX - 5));
    assert!(!verify_stateless_nonce(&last, "key", u64::MAX - 6));
    assert!(verify_stateless_nonce(&nonce.to_uppercase(), "key", 1_700_000_000));
}

#[test]
fn odd_nonces() {
    assert!(!verify_stateless_nonce("", "key", 5));
    assert!(!verify_stateless_nonce("5", "key", 5));
    assert!(!verify_stateless_nonce("5.x.y", "key", 5));
    assert!(!verify_stateless_nonce("x.00", "key", 5));
    assert!(!verify_stateless_nonce("5.0", "key", 5));
    assert!(!verify_stateless_nonce("5.zz", "key", 5));
    assert!(!verify_stateless_nonce("5.", "key", 5));
    assert!(!verify_stateless_nonce("99999999999999999999.00", "key", 5));
}

#[test]
fn payloads_written_otherwise_are_handed_back() {
    let sign = |payload: &str| {
        let input = format!("e30.{}", base64url(payload.as_bytes()));
        format!("{}.{}", input, base64url(&tag("secret", &input)))
    };
    for payload in [
        "{}",
        "",
        "{\"sub\":\"admin\",\"exp\":1000,\"iat\":10} ",
        "{ \"sub\":\"admin\",\"exp\":1000,\"iat\":10}",
        "{\"sub\":\"admin\",\"iat\":10,\"exp\":1000}",
        "{\"sub\":\"a\\u0062\",\"exp\":1000,\"iat\":10}",
        "{\"sub\":\"a\\/\",\"exp\":1000,\"iat\":10}",
        "{\"sub\":\"a\",\"exp\":01000,\"iat\":10}",
        "{\"sub\":\"a\",\"exp\":18446744073709551616,\"iat\":10}",
        "{\"sub\":\"a",
        "{\"sub\":\"a\\",
        "{\"sub\":\"a\\u00",
    ] {
        let token = sign(payload);
        assert_eq!(
            jwt_decode(&token, "secret", 5),
            Ok(TokenPayload::Foreign(payload.as_bytes().to_vec())),
            "{}",
            payload
        );
        assert_eq!(
            is_authenticated(Some(&format!("auth_token={}", token)), "secret", 5),
            Session::Foreign(payload.as_bytes().to_vec())
        );
    }
    let token = sign("{\"sub\":\"a\",\"exp\":1000,\"iat\":10}");
    assert_eq!(jwt_decode(&token, "secret", 5), Ok(TokenPayload::Claims(claims("a"))));
}
