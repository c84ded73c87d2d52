//! Edge cases and laws of the AT texts.

use quectel_webui::actor::telemetry::TelemetryData;
use quectel_webui::at::builder::{
    encode_ucs2_hex, needs_ucs2, sanitize_at_param, sanitize_sms_body, sms_hex_body_if_needed,
};
use quectel_webui::at::line::fields_after_prefix;
use quectel_webui::at::parser::{
    decode_lte_bandwidth, decode_nr_bandwidth, is_valid_data_apn, parse_cgpaddr, parse_cops_scan,
    parse_net_status, parse_qcainfo, parse_qeng, parse_qtemp_temperature, parse_signal_quality,
    parse_single_line, split_at_fields, ParsedLine,
};
use quectel_webui::at::reading::{is_number_text, round_number};
use quectel_webui::at::utils::{
    convert_dotted_ipv6_to_standard, decode_cmgl_body, decode_hex_ucs2, extract_value,
    format_bytes, is_valid_ipv4, is_valid_ipv6, normalize_at_command, set_default,
};
use quectel_webui::shortest::push_shortest;

#[test]
fn parameters_lose_what_could_end_them() {
    assert_eq!(sanitize_at_param("a\"b\\c\r\nd\u{1a}e\u{0}f\u{7f}g"), "abcdefg");
    assert_eq!(sanitize_at_param("cmnet 中"), "cmnet 中");
    let once = sanitize_at_param("\"x\"\n");
    assert_eq!(sanitize_at_param(&once), once);
    assert_eq!(sanitize_sms_body("say \"hi\"\\\n"), "say \"hi\"\\\n");
}

#[test]
fn ucs2_there_and_back() {
    assert_eq!(encode_ucs2_hex("你好"), "4F60597D");
    assert_eq!(encode_ucs2_hex("Aé"), "004100E9");
    assert_eq!(encode_ucs2_hex("😀"), "D83DDE00");
    for s in ["", "plain", "你好，世界", "é\u{7ff}\u{800}\u{ffff}\u{0}"] {
        assert_eq!(decode_hex_ucs2(&encode_ucs2_hex(s)), s);
    }
    assert_eq!(decode_hex_ucs2(&encode_ucs2_hex("a😀b")), "");
    assert_eq!(decode_hex_ucs2("004"), "");
    assert_eq!(decode_hex_ucs2("00e9"), "é");
    assert_eq!(decode_hex_ucs2("00zz"), "");
    assert!(needs_ucs2("`"));
    assert!(needs_ucs2("ê"));
    assert!(needs_ucs2("\t"));
    assert!(!needs_ucs2("é"));
    assert_eq!(sms_hex_body_if_needed("ê"), Some("00EA".to_string()));
    assert_eq!(sms_hex_body_if_needed("€5"), None);
}

#[test]
fn gsm_alphabet() {
    let basic = "@£$¥èéùìòÇ\nØø\rÅåΔ_ΦΓΛΩΠΨΣΘΞÆæßÉ !\"#¤%&'()*+,-./0123456789:;<=>?\
                 ¡ABCDEFGHIJKLMNOPQRSTUVWXYZÄÖÑÜ§¿abcdefghijklmnopqrstuvwxyzäöñüà";
    let extension = "\u{c}^{}\\[~]|€";
    assert_eq!(basic.chars().count(), 127);
    for n in 0..=0x10ffffu32 {
        if let Some(c) = char::from_u32(n) {
            let inside = basic.contains(c) || extension.contains(c);
            assert_eq!(needs_ucs2(&c.to_string()), !inside, "{:x}", n);
        }
    }
}

#[test]
fn byte_counts_agree_with_doubles() {
    fn expected(bytes: u64) -> String {
        if bytes >= 1_073_741_824 {
            format!("{:.2} GB", bytes as f64 / 1_073_741_824.0)
        } else if bytes >= 1_048_576 {
            format!("{:.2} MB", bytes as f64 / 1_048_576.0)
        } else if bytes >= 1024 {
            format!("{:.2} KB", bytes as f64 / 1024.0)
        } else {
            format!("{} B", bytes)
        }
    }
    let mut n: u64 = 1;
    for _ in 0..64 {
        for d in [0u64, 1, 2, 3, 511, 512, 5119, 5120, 5121] {
            let v = n.wrapping_add(d);
            assert_eq!(format_bytes(v), expected(v), "{}", v);
            let w = n.wrapping_sub(d);
            assert_eq!(format_bytes(w), expected(w), "{}", w);
        }
        n = n.wrapping_mul(2);
    }
    let mut x: u64 = 0x9e37_79b9_7f4a_7c15;
    for _ in 0..20000 {
        x ^= x << 13;
        x ^= x >> 7;
        x ^= x << 17;
        for shift in [0, 11, 20, 33, 40] {
            assert_eq!(format_bytes(x >> shift), expected(x >> shift));
        }
    }
    for v in 0..200_000u64 {
        assert_eq!(format_bytes(v), expected(v));
    }
    assert_eq!(format_bytes(u64::MAX), "17179869184.00 GB");
    assert_eq!(format_bytes(1029), "1.00 KB");
}

#[test]
fn addresses_at_the_edges() {
    assert!(is_valid_ipv4("0.0.0.0"));
    assert!(is_valid_ipv4("255.255.255.255"));
    assert!(is_valid_ipv4("001.02.3.4"));
    assert!(!is_valid_ipv4("+1.2.3.4"));
    assert!(!is_valid_ipv4("1.2.3.+4"));
    assert!(!is_valid_ipv4("1.2.3.256"));
    assert!(!is_valid_ipv4("1.2.3"));
    assert!(!is_valid_ipv4("1.2.3.4.5"));
    assert!(!is_valid_ipv4("1.2.3.0004"));
    assert!(!is_valid_ipv4("1..3.4"));
    assert!(is_valid_ipv6("::"));
    assert!(is_valid_ipv6("1::"));
    assert!(is_valid_ipv6("1:2:3:4:5:6:7:8"));
    assert!(is_valid_ipv6("1:2:3:4:5:6:7::"));
    assert!(is_valid_ipv6("1::3:4:5:6:7:8"));
    assert!(!is_valid_ipv6("abcd"));
    assert!(!is_valid_ipv6("1:2:3"));
    assert!(!is_valid_ipv6("1:2:3:4:5:6:7"));
    assert!(!is_valid_ipv6("1:2:3:4:5:6:7:8::"));
    assert!(!is_valid_ipv6("1:2:3:4::5:6:7:8"));
    assert!(!is_valid_ipv6(""));
    assert!(!is_valid_ipv6(":"));
    assert!(!is_valid_ipv6(":1"));
    assert!(!is_valid_ipv6("1:"));
    assert!(!is_valid_ipv6("1::2::3"));
    assert!(!is_valid_ipv6("12345::"));
    assert!(!is_valid_ipv6("1:2:3:4:5:6:7:8:9"));
    assert!(!is_valid_ipv6("g::1"));
    let all = "0.0.0.0.0.0.0.0.0.0.0.0.0.0.0.0";
    assert_eq!(convert_dotted_ipv6_to_standard(all), "0:0:0:0:0:0:0:0");
    assert!(is_valid_ipv6(&convert_dotted_ipv6_to_standard(all)));
    let odd = "1.x.2.3.4.5.6.7.8.9.10.11.12.13.14.15.255";
    assert_eq!(convert_dotted_ipv6_to_standard(odd), "102:304:506:708:90a:b0c:d0e:fff");
    assert_eq!(convert_dotted_ipv6_to_standard("1.2.3"), "1.2.3");
}

#[test]
fn small_helpers() {
    assert_eq!(extract_value("  \"\"abc\"  "), "abc");
    assert_eq!(normalize_at_command(" +CSQ \r\n"), "AT+CSQ");
    assert_eq!(normalize_at_command("at+csq"), "at+csq");
    assert_eq!(normalize_at_command("A/"), "A/");
    assert_eq!(normalize_at_command("a/"), "a/");
    assert_eq!(normalize_at_command("+++"), "+++");
    assert_eq!(normalize_at_command("A/x"), "ATA/x");
    assert_eq!(normalize_at_command("  "), "");
    let n = normalize_at_command("I");
    assert_eq!(n, "ATI");
    assert_eq!(normalize_at_command(&n), n);
    let mut f = String::new();
    set_default(&mut f, "--");
    assert_eq!(f, "--");
    set_default(&mut f, "x");
    assert_eq!(f, "--");
}

#[test]
fn message_lists_are_decoded() {
    let raw = "AT+CMGL\r\n+CMGL: 1,\"REC READ\"\r\n4F60597D\r\nplain text\r\n\r\n4F60597D\r\n+CMGL: 2\r\nOK\r\n4F60";
    assert_eq!(
        decode_cmgl_body(raw),
        "AT+CMGL\n+CMGL: 1,\"REC READ\"\n你好\nplain text\n\n4F60597D\n+CMGL: 2\nOK\n4F60\n"
    );
    assert_eq!(decode_cmgl_body("4F60597D\nx"), "4F60597D\nx\n");
    assert_eq!(decode_cmgl_body(""), "");
}

#[test]
fn fields_and_quotes() {
    assert_eq!(split_at_fields("1, \"a,b\" ,,\" c \""), vec!["1", "a,b", "", "c"]);
    assert_eq!(split_at_fields(""), vec![""]);
    assert_eq!(split_at_fields("a\"b,c"), vec!["ab,c"]);
    assert_eq!(split_at_fields(" x , y "), vec!["x", "y"]);
    assert_eq!(fields_after_prefix("+CSQ: 1,2", "+CSQ:"), Some(vec!["1".to_string(), "2".to_string()]));
    assert_eq!(fields_after_prefix("+CREG: 1", "+CSQ:"), None);
    assert!(is_valid_data_apn("cmnet"));
    assert!(!is_valid_data_apn(""));
    assert!(!is_valid_data_apn("IMS"));
    assert!(!is_valid_data_apn("apn.example"));
    assert!(!is_valid_data_apn("my placeholder"));
}

#[test]
fn lines_of_every_kind() {
    assert_eq!(parse_single_line("  "), None);
    assert_eq!(parse_single_line(" OK \r"), Some(ParsedLine::Okay));
    assert_eq!(parse_single_line("+CMS ERROR: 500"), Some(ParsedLine::Error));
    assert_eq!(parse_single_line("hello "), Some(ParsedLine::Other("hello".to_string())));
    assert_eq!(
        parse_single_line("+QENG: \"search\""),
        Some(ParsedLine::Other("+QENG: \"search\"".to_string()))
    );
    assert!(matches!(parse_single_line("+QUIMSLOT: x"), Some(ParsedLine::Quimslot(s)) if s.slot == 1));
    assert!(matches!(parse_single_line("+QSPN: \"4E2D56FD\""),
        Some(ParsedLine::Qspn(ref q)) if q.fnn == "中国" && q.snn.is_empty() && q.alphabet.is_empty()));
    assert!(matches!(parse_single_line("+COPS: 0"),
        Some(ParsedLine::Cops(ref c)) if c.mode == "0" && c.oper.is_none() && c.act.is_none()));
    assert!(matches!(parse_single_line("+CNUM: \"\",\"+861380\",145"),
        Some(ParsedLine::Cnum(ref c)) if c.number == "+861380"));
    assert!(matches!(parse_single_line("+QCCID: 8986"), Some(ParsedLine::Qccid(ref s)) if s == "8986"));
    assert!(matches!(parse_single_line("+CIMI: 46000"), Some(ParsedLine::Cimi(ref s)) if s == "46000"));
    assert!(matches!(parse_single_line("+QTEMP:\"cpuss-0\",\"4x\""),
        Some(ParsedLine::Qtemp(ref q)) if q.sensor == "cpuss-0" && q.temperature.is_none()));
    assert!(matches!(parse_single_line("+QCAINFO: \"SCC\",1,2,\"LTE BAND 3\",4,5,6,7,8"),
        Some(ParsedLine::Qcainfo(ref e)) if e.scc_idx.as_deref() == Some("4") && e.pci == "5"
            && e.rsrp.as_deref() == Some("6") && e.sinr.as_deref() == Some("8")));
    assert!(matches!(parse_single_line("+CGDCONT: x"),
        Some(ParsedLine::Cgdcont(ref e)) if e.cid == 0 && e.apn.is_empty()));
}

#[test]
fn readings_round_to_even() {
    fn expected(s: &str) -> Option<String> {
        s.parse::<f64>().ok().map(|t| format!("{:.0}", t))
    }
    let texts = [
        "42", "42.5", "43.5", "42.49", "42.51", "-0.4", "-0.5", "-1.5", "0", "-0", "+7", ".5", "5.", ".",
        "", "+", "-", "e5", "1e2", "1E-2", "1.25e1", "1e+2", "1e", "1e+", "12e-1", "15e-1", "25e-1", "99.5",
        "999.5", "0.5000", "0.50001", "00012", "1e22", "1e300", "1e400", "-1e400", "1e-400", "0e999", "inf",
        "-Infinity", "nan", "0.50000000000000001", "0.49999999999999999", "0.5000000000000002",
        "1.49999999999999999", "2.50000000000000001", "2.5000000000000005", "1e23", "2e308",
        "1.7976931348623157e308", "1.7976931348623158e308", "1.7976931348623159e308", "179769313486231580793e289",
        "9007199254740993", "9007199254740992.5", "9007199254740991.5", "4503599627370496.5",
        "4503599627370497.5", "9007199254740993.0000000000000000000001", "18014398509481990", "18014398509481985.9",
        "123456789012345678901234567890", "1e350", "0.1e310", "000000000000000000000000001e20", "0.25", "0.2500001",
        "0.000000000000000000000000000000000001e36", "5e-324", "4.9e-325", "-NaN", "infin", "1_0", "1,0", "0x10", "1.2.3", "--1", "9.5", "0.05e1", "123456789012.5",
    ];
    for t in texts {
        assert_eq!(round_number(t), expected(t), "{}", t);
        assert_eq!(is_number_text(t), expected(t).is_some(), "{}", t);
    }
    for i in -5000i32..5000 {
        for s in [format!("{}.{}", i, i.rem_euclid(10)), format!("{}e-2", i)] {
            assert_eq!(round_number(&s), expected(&s), "{}", s);
        }
    }
    let mut x: u64 = 0x9e37_79b9_7f4a_7c15;
    for _ in 0..3000 {
        x ^= x << 13;
        x ^= x >> 7;
        x ^= x << 17;
        let e = (x % 700) as i32 - 350;
        for s in [
            format!("{}e{}", x, e),
            format!("{}.{}", x >> 20, x.rotate_left(17)),
            format!("{}.5{}1", x >> (12 + x % 50), "0".repeat((x % 18) as usize)),
            format!("{}.4{}", x >> (12 + x % 50), "9".repeat((x % 18) as usize)),
            format!("{}", f64::from_bits(x & 0x7fef_ffff_ffff_ffff)),
        ] {
            assert_eq!(round_number(&s), expected(&s), "{}", s);
        }
    }
    let long = format!("1.5{}1", "0".repeat(20000));
    assert_eq!(round_number(&long), expected(&long));
    assert_eq!(
        parse_qtemp_temperature("+QTEMP:\"cpuss-0-usr\",\"--\"\n+QTEMP:\"mdmss-0-usr\",\"42.5\""),
        Some("42 °C".to_string())
    );
}

#[test]
fn percentages_agree_with_floats() {
    for v in -300..300 {
        let raw = format!(
            "+QENG: \"servingcell\",\"NOCONN\",\"NR5G-SA\",\"TDD\",460,00,39074C001,751,72002F,504990,41,12,{v},{v},{v},1,-"
        );
        let mut t = TelemetryData::default();
        parse_qeng(&raw, &mut t);
        let rsrp = ((v + 140) as f32 / 96.0 * 100.0).clamp(0.0, 100.0) as i32;
        let rsrq = ((v + 20) as f32 / 17.0 * 100.0).clamp(0.0, 100.0) as i32;
        let sinr = ((v + 20) as f32 / 50.0 * 100.0).clamp(0.0, 100.0) as i32;
        assert_eq!(t.signal_percentage, Some(format!("{}%", rsrp)));
        assert_eq!(t.ss_rsrp, Some(format!("{} / {}%", v, rsrp)));
        assert_eq!(t.ss_rsrq, Some(format!("{} / {}%", v, rsrq)));
        assert_eq!(t.sinr, Some(format!("{} / {}%", v, sinr)));
        let best = if v > -80 && v > 20 { "Excellent" } else { "Good" };
        assert_eq!(t.assessment, Some(best.to_string()));
    }
}

#[test]
fn bandwidth_tables() {
    let nr = [50, 100, 150, 200, 250, 300, 400, 500, 600, 700, 800, 900, 1000, 2000, 4000, 350, 450];
    for (code, tenths) in nr.iter().enumerate() {
        assert_eq!(decode_nr_bandwidth(code as i32), *tenths);
    }
    assert_eq!(decode_nr_bandwidth(17), 170);
    assert_eq!(decode_nr_bandwidth(-1), -10);
    assert_eq!(decode_lte_bandwidth(6), 14);
    assert_eq!(decode_lte_bandwidth(15), 30);
    assert_eq!(decode_lte_bandwidth(25), 50);
    assert_eq!(decode_lte_bandwidth(50), 100);
    assert_eq!(decode_lte_bandwidth(75), 150);
    assert_eq!(decode_lte_bandwidth(100), 200);
    assert_eq!(decode_lte_bandwidth(20), 200);
    assert_eq!(decode_lte_bandwidth(i32::MAX), 21474836470);
}

fn lte_width(code: i32) -> f64 {
    match code {
        6 => 1.4,
        15 => 3.0,
        25 => 5.0,
        50 => 10.0,
        75 => 15.0,
        100 => 20.0,
        other => other as f64,
    }
}

#[test]
fn bandwidths_sum_as_doubles() {
    let check = |codes: &[i32]| {
        let mut raw = String::new();
        let mut total = 0.0f64;
        let mut parts = Vec::new();
        for c in codes {
            raw.push_str(&format!("+QCAINFO: \"SCC\",1,{},\"LTE BAND 3\",1\n", c));
            total += lte_width(*c);
            parts.push(lte_width(*c).to_string());
        }
        let mut t = TelemetryData::default();
        parse_qcainfo(&raw, &mut t);
        let expected = if parts.len() > 1 {
            format!("{} MHz ({})", total, parts.join("+"))
        } else {
            format!("{} MHz", total)
        };
        assert_eq!(t.bandwidth, Some(expected), "{:?}", codes);
    };
    check(&[6, 6, 6]);
    check(&[100, 6, 6]);
    check(&[6, -1]);
    check(&[6, 6, 6, 6, 6, -7]);
    check(&[6, 6, 6, 6, 6, -7, 0]);
    check(&[6, -1, -6]);
    check(&[i32::MAX; 40]);
    check(&[i32::MIN, 6, i32::MIN, 6]);
    check(&[0]);
    check(&[5, -5]);
    let codes = [6, 15, 25, 50, 75, 100, -1, -2, 0, 7, 1000000, i32::MAX, -3, i32::MIN];
    let mut x: u64 = 0x9e37_79b9_7f4a_7c15;
    for _ in 0..1500 {
        x ^= x << 13;
        x ^= x >> 7;
        x ^= x << 17;
        let n = 1 + (x % 9) as usize;
        let limit = if x & 0x100000 == 0 { 6 } else { codes.len() };
        let list: Vec<i32> = (0..n).map(|i| codes[(x >> (i * 7)) as usize % limit]).collect();
        check(&list);
    }
}

/// Shows a number of double precision that is a multiple of `2^-52`.
fn shown(v: f64) -> String {
    let units = v * 4503599627370496.0;
    let mut digits: Vec<u8> = format!("{}", units as u128).bytes().map(|b| b - b'0').collect();
    digits.reverse();
    let mut out = String::new();
    push_shortest(&mut out, &digits);
    out
}

#[test]
fn doubles_are_shown_short() {
    for v in [0.0, 1.0, 0.5, 0.25, 1.0 / 4503599627370496.0, 0.1 + 0.2, 9007199254740992.0, 9007199254740994.0] {
        assert_eq!(shown(v), v.to_string());
    }
    let mut p = 1.0f64;
    for _ in 0..74 {
        assert_eq!(shown(p), p.to_string());
        let next = f64::from_bits(p.to_bits() + 1);
        assert_eq!(shown(next), next.to_string());
        let previous = f64::from_bits(p.to_bits() - 1);
        if p > 1.0 {
            assert_eq!(shown(previous), previous.to_string());
        }
        p *= 2.0;
    }
    let mut x: u64 = 0x9e37_79b9_7f4a_7c15;
    for _ in 0..3000 {
        x ^= x << 13;
        x ^= x >> 7;
        x ^= x << 17;
        let v = f64::from_bits((x >> 12) | ((1023 + x % 74) << 52));
        assert_eq!(shown(v), v.to_string());
        let small = (x >> (12 + x % 50)) as f64 / 4503599627370496.0;
        assert_eq!(shown(small), small.to_string());
    }
}

#[test]
fn carriers_are_listed_once() {
    let raw = "+QCAINFO: \"PCC\",1,6,\"LTE BAND 3\",10\n+QCAINFO: \"SCC\",2,100,\"LTE BAND 3\",1,20\n+QCAINFO: \"SCC\",3,x,\"7\",1,30";
    let mut t = TelemetryData::default();
    t.ipv4 = Some("10.0.0.1".to_string());
    parse_qcainfo(raw, &mut t);
    assert_eq!(t.bands, Some("LTE BAND 3, LTE BAND 7".to_string()));
    assert_eq!(t.bandwidth, Some("21.4 MHz (1.4+20)".to_string()));
    assert_eq!(t.earfcn, Some("1, 2, 3".to_string()));
    assert_eq!(t.pci, Some("10, 20, 30".to_string()));
    assert_eq!(t.ipv4, Some("10.0.0.1".to_string()));
    let before = t.clone();
    parse_qcainfo("OK\r\n", &mut t);
    parse_qeng("+QENG: \"servingcell\",\"SEARCH\"\r\nOK", &mut t);
    assert_eq!(t, before);
}

#[test]
fn stations_of_short_and_long_cells() {
    for (rat, id, station) in [
        ("NR5G-SA", "123", Some("123")),
        ("NR5G-SA", "1234", Some("1")),
        ("LTE", "12", Some("12")),
        ("LTE", "123", Some("1")),
        ("LTE", "", None),
    ] {
        let raw = format!("+QENG: \"servingcell\",\"C\",\"{rat}\",\"TDD\",460,00,{id},1");
        let mut t = TelemetryData::default();
        parse_qeng(&raw, &mut t);
        assert_eq!(t.enb_id.as_deref(), station);
        assert_eq!(t.tac, None);
        assert_eq!(t.ss_rsrp, Some("-140 / 0%".to_string()));
    }
}

#[test]
fn first_usable_address_wins() {
    let mut t = TelemetryData::default();
    parse_cgpaddr(
        "+CGPADDR: 1,\"0.0.0.0\",\"\"\n+CGPADDR: 2,\"10.0.0.2\",\"fe80::1\"\n+CGPADDR: 3,\"10.0.0.3\",\"fe80::2\"",
        &mut t,
    );
    assert_eq!(t.ipv4, Some("10.0.0.2".to_string()));
    assert_eq!(t.ipv6, Some("fe80::1".to_string()));
    parse_cgpaddr("+CGPADDR: 4,\"10.0.0.4\",\"fe80::4\"", &mut t);
    assert_eq!(t.ipv4, Some("10.0.0.2".to_string()));
    assert_eq!(t.ipv6, Some("fe80::1".to_string()));
}

#[test]
fn registration_and_strength() {
    assert_eq!(parse_net_status("+CREG: 0,1"), "Registered (home)");
    assert_eq!(parse_net_status("x\r\n +CREG: 0,5\r\nOK"), "Registered (roaming)");
    assert_eq!(parse_net_status("+CREG: 0,3"), "Not registered");
    assert_eq!(parse_net_status("+CREG: 0,9"), "Unknown");
    assert_eq!(parse_net_status("+CREG: 0\n+CREG: 0,2"), "Not registered");
    assert_eq!(parse_net_status(""), "Unknown");
    assert_eq!(parse_signal_quality("+CSQ: 20,99"), "-73 dBm");
    assert_eq!(parse_signal_quality("+CSQ: 99,99\n+CSQ: 1,1"), "Unknown");
    assert_eq!(parse_signal_quality("+CSQ: x\n+CSQ: 31,99"), "-51 dBm");
    assert_eq!(parse_signal_quality("OK"), "Unknown");
}

#[test]
fn scans_with_odd_parentheses() {
    let nets = parse_cops_scan("+COPS: (1,\"A\",\"a\",\"46000\",\" 7 \"),,(0,1,2,3,4),(0-2)");
    assert_eq!(nets.len(), 2);
    assert_eq!(nets[1].technology, "WCDMA");
    assert_eq!(nets[0].operator, "A");
    assert_eq!(nets[0].short_name.as_deref(), Some("a"));
    assert_eq!(nets[0].mccmnc, "46000");
    assert_eq!(nets[0].technology, "LTE");
    assert_eq!(nets[0].status, "Available");
    assert_eq!(nets[0].band, "");
    assert!(parse_cops_scan("+COPS: )(1,a,b,c,7)").is_empty());
    assert_eq!(parse_cops_scan("+COPS: ((1,a),b,c,d,8)").len(), 1);
    assert!(parse_cops_scan("(1,a,b,c,7)").is_empty());
    assert_eq!(parse_cops_scan("+COPS: (9,a,b,c,9)")[0].status, "Unknown");
    assert_eq!(parse_cops_scan("+COPS: (3,a,b,c,99)")[0].technology, "Unknown");
}
