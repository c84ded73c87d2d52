//! Parameters and message bodies.

use quectel_webui::at::builder::{sanitize_sms_body, sms_hex_body_if_needed};

#[test]
fn sanitize_sms_body_preserves_newlines() {
    assert_eq!(sanitize_sms_body("line1\nline2"), "line1\nline2");
    assert_eq!(sanitize_sms_body("a\r\nb"), "a\r\nb");
}

#[test]
fn sanitize_sms_body_strips_terminator() {
    assert_eq!(sanitize_sms_body("hi\u{1A}AT+CFUN=0"), "hiAT+CFUN=0");
}

#[test]
fn sms_hex_body_none_for_gsm7bit() {
    assert_eq!(sms_hex_body_if_needed("hello world"), None);
}

#[test]
fn sms_hex_body_ucs2_for_chinese() {
    assert_eq!(sms_hex_body_if_needed("你好").as_deref(), Some("4F60597D"));
}
