//! Responses about the IMEI and the names of bands.

use quectel_webui::backend::process::{parse_egmr_response, ImeiParseResult};
use quectel_webui::backend::query::classify_qcainfo_band;

#[test]
fn parse_egmr_read_success() {
    let raw = "AT+EGMR=0,7\r\r\n+EGMR: \"866355057849136\"\r\n\r\nOK\r\n";
    assert_eq!(
        parse_egmr_response(raw),
        Some(ImeiParseResult {
            kind: "read".to_string(),
            success: true,
            imei: Some("866355057849136".to_string()),
        })
    );
}

#[test]
fn parse_egmr_read_without_echo_success() {
    let raw = "\r\n+EGMR: \"866355057849136\"\r\n\r\nOK\r\n";
    assert_eq!(
        parse_egmr_response(raw),
        Some(ImeiParseResult {
            kind: "read".to_string(),
            success: true,
            imei: Some("866355057849136".to_string()),
        })
    );
}

#[test]
fn parse_egmr_write_success() {
    let raw = "AT+EGMR=1,7,\"866355057849136\"\r\r\nOK\r\n";
    assert_eq!(
        parse_egmr_response(raw),
        Some(ImeiParseResult {
            kind: "write".to_string(),
            success: true,
            imei: None,
        })
    );
}

#[test]
fn parse_egmr_read_fail() {
    let raw = "ERROR: AT命令返回错误: AT+EGMR=0,7\r\r\nERROR\r\n";
    assert_eq!(
        parse_egmr_response(raw),
        Some(ImeiParseResult {
            kind: "read".to_string(),
            success: false,
            imei: None,
        })
    );
}

#[test]
fn parse_egmr_write_fail() {
    let raw = "ERROR: AT命令返回错误: AT+EGMR=1,7,\"123\"\r\r\nERROR\r\n";
    assert_eq!(
        parse_egmr_response(raw),
        Some(ImeiParseResult {
            kind: "write".to_string(),
            success: false,
            imei: None,
        })
    );
}

#[test]
fn parse_egmr_read_fail_plain_error() {
    let raw = "AT+EGMR=0,7\r\r\nERROR\r\n";
    assert_eq!(
        parse_egmr_response(raw),
        Some(ImeiParseResult {
            kind: "read".to_string(),
            success: false,
            imei: None,
        })
    );
}

#[test]
fn parse_egmr_non_egmr_returns_none() {
    let raw = "AT+CSQ\r\r\n+CSQ: 25,99\r\n\r\nOK\r\n";
    assert_eq!(parse_egmr_response(raw), None);
}

#[test]
fn classify_qcainfo_band_variants() {
    assert_eq!(classify_qcainfo_band("NR5G BAND 41"), (Some(41), None));
    assert_eq!(classify_qcainfo_band("LTE BAND 3"), (None, Some(3)));
    assert_eq!(classify_qcainfo_band("3"), (None, Some(3)));
    assert_eq!(classify_qcainfo_band("257"), (Some(257), None));
    assert_eq!(classify_qcainfo_band("-"), (None, None));
}
