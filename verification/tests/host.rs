//! Settings, the log, the host's own readings, certificates and the serial tool.

use quectel_webui::atcmd::{command_bytes, run_io, AnswerReader};
use quectel_webui::auth::hash_password_sha256;
use quectel_webui::config::{AppConfig, EnvValues};
use quectel_webui::device::{lookup_profile, DeviceId};
use quectel_webui::double::push_percent;
use quectel_webui::logger::{format_log, goes_to_stderr, LogRing, LOG_CAPACITY};
use quectel_webui::sys::{get_cpu_usage, get_memory_usage, parse_cpu_times};
use quectel_webui::tls::{
    cert_path, cert_source, key_path, redirect_target, self_signed_request, CertSource,
};

fn no_env() -> EnvValues {
    EnvValues {
        serial_port: None,
        jwt_secret: None,
        password: None,
        username: None,
        enable_https: None,
        http_redirect: None,
        http_port: None,
        port: None,
        https_port: None,
    }
}

#[test]
fn settings_by_default() {
    let c = AppConfig::from_env(&no_env(), 123, 45);
    assert_eq!(c.serial_path, "/dev/smd11");
    assert_eq!(c.jwt_secret, hash_password_sha256("jwt_rand_123_45"));
    assert_eq!(c.admin_username, "admin");
    assert_eq!(c.admin_pass_sha, hash_password_sha256("admin123"));
    assert!(c.enable_https);
    assert!(c.enable_http_redirect);
    assert_eq!((c.http_port, c.https_port), (80, 443));
    assert_eq!((c.http_addr.as_str(), c.https_addr.as_str()), ("0.0.0.0:80", "0.0.0.0:443"));
}

#[test]
fn settings_from_the_environment() {
    let some = |s: &str| Some(s.to_string());
    let mut env = no_env();
    env.serial_port = some("/dev/ttyUSB2");
    env.jwt_secret = some("secret");
    env.password = some("pw");
    env.username = some("me");
    env.enable_https = some("TRUE");
    env.http_redirect = some("yes");
    env.port = some("8080");
    env.https_port = some("70000");
    let c = AppConfig::from_env(&env, 0, 0);
    assert_eq!(c.serial_path, "/dev/ttyUSB2");
    assert_eq!(c.jwt_secret, "secret");
    assert_eq!(c.admin_username, "me");
    assert_eq!(c.admin_pass_sha, hash_password_sha256("pw"));
    assert!(c.enable_https);
    assert!(!c.enable_http_redirect);
    assert_eq!((c.http_port, c.https_port), (8080, 443));
    assert_eq!(c.http_addr, "0.0.0.0:8080");
    env.http_port = some("x");
    assert_eq!(AppConfig::from_env(&env, 0, 0).http_port, 80);
    env.http_port = some("81");
    assert_eq!(AppConfig::from_env(&env, 0, 0).http_port, 81);
}

#[test]
fn the_log_keeps_the_latest_lines() {
    let mut log = LogRing::new();
    assert_eq!(log.len(), 0);
    for i in 0..250 {
        log.push(i.to_string());
    }
    assert_eq!(log.len(), LOG_CAPACITY);
    let expected: Vec<String> = (150..250).map(|i: i32| i.to_string()).collect();
    assert_eq!(log.snapshot(), expected);
    assert_eq!(format_log("now", "INFO", "WS", "hi"), "[now] [INFO] [WS]: hi");
    assert!(goes_to_stderr("ERROR"));
    assert!(!goes_to_stderr("WARN"));
}

#[test]
fn processor_times() {
    let some = |s: &str| Some(s.to_string());
    let mut prev = None;
    assert_eq!(get_cpu_usage("cpu  10 0 10 70 10 0 0\ncpu0 1", &mut prev), None);
    assert_eq!(prev.as_ref().map(|s| (s.total, s.idle)), Some((100, 80)));
    assert_eq!(get_cpu_usage("cpu  40 0 20 120 20 0 0", &mut prev), some("40.0%"));
    assert_eq!(get_cpu_usage("cpu  40 0 20 120 20 0 0", &mut prev), None);
    assert_eq!(get_cpu_usage("cpu0 1 2 3", &mut prev), None);
    assert_eq!(get_cpu_usage("", &mut prev), None);
    assert_eq!(get_cpu_usage("cpu  0 0 0 0", &mut prev), None);
    assert_eq!(prev.as_ref().map(|s| (s.total, s.idle)), Some((200, 140)));
    assert_eq!(get_cpu_usage("cpu  40 0 20 260 20 0 0", &mut prev), some("0.0%"));
    assert_eq!(get_cpu_usage("cpu  43 0 20 260 20 0 0", &mut prev), some("100.0%"));
    assert_eq!(parse_cpu_times("cpu  1 x 2 3 4 5").map(|s| (s.total, s.idle)), Some((15, 9)));
}

fn percent(part: u64, whole: u64) -> String {
    let mut out = String::new();
    push_percent(&mut out, part, whole);
    out
}

#[test]
fn shares_agree_with_doubles() {
    let expected = |part: u64, whole: u64| format!("{:.1}%", part as f64 / whole as f64 * 100.0);
    for whole in 1..700u64 {
        for part in 0..=whole {
            assert_eq!(percent(part, whole), expected(part, whole), "{} {}", part, whole);
        }
    }
    let mut x: u64 = 0x9e37_79b9_7f4a_7c15;
    for _ in 0..100000 {
        x ^= x << 13;
        x ^= x >> 7;
        x ^= x << 17;
        let whole = (x >> (x % 61)).max(1);
        let part = (x.rotate_left(29) >> (x.rotate_left(7) % 64)).min(whole);
        assert_eq!(percent(part, whole), expected(part, whole), "{} {}", part, whole);
    }
    for whole in [1000u64, 2000, 4000, 8000, 16000, 1 << 53, u64::MAX] {
        for k in 0..1000 {
            let part = whole / 1000 * k + whole / 2000;
            assert_eq!(percent(part, whole), expected(part, whole), "{} {}", part, whole);
        }
        assert_eq!(percent(whole, whole), "100.0%");
        assert_eq!(percent(whole - 1, whole), expected(whole - 1, whole));
    }
}

#[test]
fn memory_sizes() {
    let some = |s: &str| Some(s.to_string());
    let content = "MemTotal:        2048 kB\nMemFree: 10 kB\nMemAvailable:    512 kB\n";
    assert_eq!(get_memory_usage(content), some("75.0% (2M/2M)"));
    assert_eq!(get_memory_usage("MemTotal: 2048 kB"), None);
    assert_eq!(get_memory_usage("MemAvailable: 2048 kB"), None);
    assert_eq!(get_memory_usage("MemTotal: 10240\nMemAvailable: 20480"), some("0.0% (0M/10M)"));
    assert_eq!(get_memory_usage("MemTotal: 1024\nMemTotal: x\nMemAvailable: 5"), some("99.5% (1M/1M)"));
    assert_eq!(get_memory_usage("MemTotal: 10\nMemTotal: 3072\nMemAvailable: 1"), some("100.0% (3M/3M)"));
    for total in [1u64, 511, 512, 513, 1536, 2560, 123456789, u64::MAX] {
        for available in [1u64, 512, 1024, 1536, 99999, u64::MAX / 3] {
            let used = total.saturating_sub(available);
            let expected = format!(
                "{:.1}% ({:.0}M/{:.0}M)",
                used as f64 / total as f64 * 100.0,
                used as f64 / 1024.0,
                total as f64 / 1024.0
            );
            let content = format!("MemTotal: {} kB\nMemAvailable: {} kB", total, available);
            assert_eq!(get_memory_usage(&content), Some(expected));
        }
    }
}

#[test]
fn certificates() {
    assert_eq!(cert_path(None), "cert.pem");
    assert_eq!(key_path(None), "key.pem");
    assert_eq!(cert_path(Some("/a")), "/a");
    assert_eq!(key_path(Some("/b")), "/b");
    assert_eq!(
        cert_source("a", "b", true, true),
        CertSource::Files { cert: "a".to_string(), key: "b".to_string() }
    );
    assert_eq!(cert_source("a", "b", true, false), CertSource::SelfSigned);
    assert_eq!(cert_source("a", "b", false, true), CertSource::SelfSigned);
    let r = self_signed_request();
    assert_eq!(r.common_name, "RM520N 5G WebUI");
    assert_eq!(r.organization, "Argon Cellular");
    assert_eq!(r.dns_names, vec!["localhost"]);
    assert_eq!(
        r.ip_addresses,
        vec!["127.0.0.1", "192.168.1.1", "192.168.0.1", "192.168.8.1", "192.168.100.1"]
    );
}

#[test]
fn redirects_to_https() {
    assert_eq!(redirect_target(Some("host:80"), "/a?b=c", 443), "https://host/a?b=c");
    assert_eq!(redirect_target(Some("host"), "/", 8443), "https://host:8443/");
    assert_eq!(redirect_target(None, "/", 443), "https://localhost/");
}

#[test]
fn profiles_by_model() {
    assert_eq!(lookup_profile("rm520n-gl").id, DeviceId::Rm520n);
    assert_eq!(lookup_profile(" Rm502Q-AE \r").id, DeviceId::Rm502q);
    assert_eq!(lookup_profile("EC25").id, DeviceId::Generic);
}

/// Feeds an answer in chunks of `n` bytes; gives what was written and how many bytes were read.
fn feed(answer: &[u8], n: usize, message: Option<&str>) -> (Vec<u8>, Option<usize>) {
    let mut reader = AnswerReader::new();
    let mut written = Vec::new();
    let mut read = 0;
    for chunk in answer.chunks(n) {
        let outcome = run_io(&mut reader, &chunk.to_vec(), message);
        read += chunk.len();
        if let Some(w) = outcome.write {
            written.extend(w);
        }
        if outcome.done {
            return (written, Some(read));
        }
    }
    (written, None)
}

#[test]
fn chunks_do_not_matter() {
    assert_eq!(command_bytes("AT+CSQ"), b"AT+CSQ\r\n");
    let answer = b"AT+CMGS=\"1\"\r\r\n> \r\n> \r\n+CMGS: 5\r\n\r\nOK\r\n";
    for n in 1..answer.len() {
        let (written, read) = feed(answer, n, Some("hi 中"));
        assert_eq!(written, "hi 中\u{1a}".as_bytes());
        assert!(read.is_some());
    }
    let (written, read) = feed(answer, 1, None);
    assert!(written.is_empty());
    assert_eq!(read, Some(answer.len() - 1));
    assert_eq!(feed(b"x> OK \r", 3, Some("m")), (vec![], None));
    assert_eq!(feed(b"\n+CME ERROR: 1\rmore", 1, None), (vec![], Some(15)));
    assert_eq!(feed(b"OK", 1, None), (vec![], None));
    let mut long = vec![b'x'; 8192];
    long.extend(b"OK\n");
    assert_eq!(feed(&long, 100, None).1, Some(8195));
}
