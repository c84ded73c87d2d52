//! Where an answer ends.

use quectel_webui::atcmd::{line_is_terminator, run_io, AnswerReader};

#[test]
fn test_terminator_ok() {
    assert!(line_is_terminator("OK\r\n"));
    assert!(line_is_terminator("OK\n"));
    assert!(line_is_terminator("OK\r"));
    assert!(line_is_terminator("OK"));
}

#[test]
fn test_terminator_error() {
    assert!(line_is_terminator("ERROR\r\n"));
    assert!(line_is_terminator("ERROR\n"));
}

#[test]
fn test_terminator_cme_error() {
    assert!(line_is_terminator("+CME ERROR: 50\r\n"));
    assert!(line_is_terminator("+CME ERROR: 50\n"));
}

#[test]
fn test_terminator_cms_error() {
    assert!(line_is_terminator("+CMS ERROR: 500\r\n"));
}

#[test]
fn test_terminator_busy() {
    assert!(line_is_terminator("BUSY\r\n"));
}

#[test]
fn test_terminator_no_answer() {
    assert!(line_is_terminator("NO ANSWER\r\n"));
}

#[test]
fn test_terminator_no_carrier() {
    assert!(line_is_terminator("NO CARRIER\r\n"));
}

#[test]
fn test_terminator_no_dialtone() {
    assert!(line_is_terminator("NO DIALTONE\r\n"));
}

#[test]
fn test_terminator_without_crlf() {
    assert!(line_is_terminator("OK\n"));
    assert!(line_is_terminator("ERROR\n"));
    assert!(line_is_terminator("+CME ERROR: 50\n"));
    assert!(line_is_terminator("OK"));
    assert!(line_is_terminator("ERROR"));
}

#[test]
fn test_terminator_data_lines_not_triggered() {
    assert!(!line_is_terminator("+CPIN: READY\r\n"));
    assert!(!line_is_terminator("+CMGL: 0,\"REC READ\",\"10086\"\r\n"));
    assert!(!line_is_terminator("AT+CGMR\r\n"));
}

#[test]
fn test_terminator_partial_match_safe() {
    assert!(!line_is_terminator("OK_SOMETHING\r\n"));
    assert!(!line_is_terminator("ERROR_SOMETHING\r\n"));
}

#[test]
fn test_terminator_empty_or_garbage() {
    assert!(!line_is_terminator(""));
    assert!(!line_is_terminator("\r\n"));
    assert!(!line_is_terminator(" \r\n"));
}

#[test]
fn test_read_loop_without_lf_before_ok() {
    let output = b"+CMGL: 0,\"REC READ\"\rSMS_TEXT_WITHOUT_LF\rOK\r\n".to_vec();
    let mut reader = AnswerReader::new();
    let outcome = run_io(&mut reader, &output, None);
    assert!(outcome.done);
    assert_eq!(outcome.write, None);
}
