//! Conversions and checks.

use quectel_webui::at::utils::{
    convert_dotted_ipv6_to_standard, decode_hex_ucs2, format_bytes, is_valid_ipv4, is_valid_ipv6,
};

#[test]
fn test_decode_hex_ucs2() {
    assert_eq!(decode_hex_ucs2("4E2D56FD79FB52A8"), "中国移动");
    assert_eq!(decode_hex_ucs2("invalid"), "");
}

#[test]
fn test_format_bytes() {
    assert_eq!(format_bytes(500), "500 B");
    assert_eq!(format_bytes(2048), "2.00 KB");
    assert_eq!(format_bytes(1_048_576), "1.00 MB");
    assert_eq!(format_bytes(1_073_741_824), "1.00 GB");
}

#[test]
fn test_is_valid_ipv4() {
    assert!(is_valid_ipv4("192.168.1.1"));
    assert!(!is_valid_ipv4("256.1.1.1"));
    assert!(!is_valid_ipv4(""));
}

#[test]
fn test_is_valid_ipv6() {
    assert!(is_valid_ipv6("::1"));
    assert!(is_valid_ipv6("2001:db8::1"));
    assert!(!is_valid_ipv6(":::"));
}

#[test]
fn test_convert_dotted_ipv6() {
    let input = "36.9.137.112.10.181.36.74.24.179.107.247.91.255.29.48";
    let expected = "2409:8970:ab5:244a:18b3:6bf7:5bff:1d30";
    assert_eq!(convert_dotted_ipv6_to_standard(input), expected);

    assert_eq!(convert_dotted_ipv6_to_standard("not-ipv6"), "not-ipv6");
}

#[test]
fn test_convert_dotted_ipv6_real_cid1() {
    let input = "36.9.137.112.11.104.29.156.24.190.51.35.28.252.89.150";
    let expected = "2409:8970:b68:1d9c:18be:3323:1cfc:5996";
    assert_eq!(convert_dotted_ipv6_to_standard(input), expected);
}

#[test]
fn test_convert_dotted_ipv6_real_cid2() {
    let input = "36.9.129.112.11.10.92.211.24.190.51.33.74.23.82.57";
    let expected = "2409:8170:b0a:5cd3:18be:3321:4a17:5239";
    assert_eq!(convert_dotted_ipv6_to_standard(input), expected);
}
