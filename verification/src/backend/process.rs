//! Commands and replies of the serial port: how they are run, read and judged.

use vstd::prelude::*;
use vstd::string::StringExecFns;
use vstd::utf8::{decode_utf8, valid_utf8};

use crate::at::line::{parse_single_line, parsed_line, ParsedLine};
use crate::backend::{reply_view, AtCommand};
use crate::number::{decimal, is_ascii_digit, is_digit, push_decimal};
use crate::text::{
    chars_of, concat2, concat3, contains, find, found_from, holds, lines, lines_of, mentions,
    opt_str, opt_text, starts_with, strings, stripped_start, text_of, texts, trim, trim_start,
    trim_start_matches, trimmed, trimmed_start,
};

verus! {

// ---------------------------------------------------------------------------
// Running a command
// ---------------------------------------------------------------------------

/// The arguments of the program that runs one command on a serial port.
pub open spec fn atcmd_args(port: Seq<char>, c: AtCommand<Seq<char>>) -> Seq<Seq<char>> {
    let message = match c.sms_message {
        Some(m) => seq!["--message"@, m],
        None => Seq::empty(),
    };
    let body = match c.hex_body {
        Some(h) => seq!["--hex-body"@, h],
        None => Seq::empty(),
    };
    seq!["-p"@, port] + message + body + seq![c.cmd]
}

fn push_arg(args: &mut Vec<String>, arg: &str)
    ensures
        strings(final(args)@) == strings(old(args)@).push(arg@),
{
    args.push(arg.to_owned());
    assert(strings(args@) == strings(old(args)@).push(arg@));
}

/// The arguments with which `atcmd_rs` runs a command.
pub fn spawn_args(serial_path: &str, command: &AtCommand) -> (r: Vec<String>)
    ensures
        strings(r@) == atcmd_args(serial_path@, command@),
{
    let mut args: Vec<String> = Vec::new();
    assert(strings(args@) == Seq::<Seq<char>>::empty());
    push_arg(&mut args, "-p");
    push_arg(&mut args, serial_path);
    if let Some(message) = &command.sms_message {
        push_arg(&mut args, "--message");
        push_arg(&mut args, message);
    }
    if let Some(hex) = &command.hex_body {
        push_arg(&mut args, "--hex-body");
        push_arg(&mut args, hex);
    }
    push_arg(&mut args, &command.cmd);
    assert(strings(args@) == atcmd_args(serial_path@, command@));
    args
}

/// A command with a timeout and what to enter at the message prompt.
pub fn send_at_command_inner_with_options(
    cmd: &str,
    timeout_secs: u64,
    sms_message: Option<&str>,
    hex_body: Option<&str>,
) -> (r: AtCommand)
    ensures
        r@ == (AtCommand {
            cmd: cmd@,
            timeout_secs,
            sms_message: opt_str(sms_message),
            hex_body: opt_str(hex_body),
        }),
{
    let sms_message = match sms_message {
        Some(m) => Some(m.to_owned()),
        None => None,
    };
    let hex_body = match hex_body {
        Some(h) => Some(h.to_owned()),
        None => None,
    };
    AtCommand { cmd: cmd.to_owned(), timeout_secs, sms_message, hex_body }
}

/// A plain command with a timeout.
pub fn send_at_command_inner_with_timeout(cmd: &str, timeout_secs: u64) -> (r: AtCommand)
    ensures
        r@ == (AtCommand { cmd: cmd@, timeout_secs, sms_message: None, hex_body: None }),
{
    send_at_command_inner_with_options(cmd, timeout_secs, None, None)
}

/// A plain command, which has ten seconds.
pub open spec fn plain(cmd: Seq<char>) -> AtCommand<Seq<char>> {
    AtCommand { cmd, timeout_secs: 10, sms_message: None, hex_body: None }
}

/// A plain command.
pub fn send_at_command_inner(cmd: &str) -> (r: AtCommand)
    ensures
        r@ == plain(cmd@),
{
    send_at_command_inner_with_timeout(cmd, 10)
}

/// A command that asks for a message body, which has thirty seconds. Bytes take the place of
/// the text, so that only one of them is entered at the prompt.
pub open spec fn message_command(
    cmd: Seq<char>,
    message: Seq<char>,
    hex_body: Option<Seq<char>>,
) -> AtCommand<Seq<char>> {
    AtCommand {
        cmd,
        timeout_secs: 30,
        sms_message: if hex_body is Some {
            None
        } else {
            Some(message)
        },
        hex_body,
    }
}

/// A command that asks for a message body.
pub fn send_sms_command_inner(cmd: &str, message: &str, hex_body: Option<&str>) -> (r: AtCommand)
    ensures
        r@ == message_command(cmd@, message@, opt_str(hex_body)),
{
    let sms_message = if hex_body.is_some() {
        None
    } else {
        Some(message)
    };
    send_at_command_inner_with_options(cmd, 30, sms_message, hex_body)
}

/// What `String::from_utf8_lossy` makes of bytes.
pub uninterp spec fn utf8_lossy(bytes: Seq<u8>) -> Seq<char>;

/// `String::from_utf8_lossy`: the text that bytes encode, with a replacement character for what
/// is no UTF-8. Of valid UTF-8 the contract says that it is decoded; of other bytes only that the
/// result depends on the bytes alone.
#[verifier::external_body]
pub(crate) fn from_utf8_lossy(bytes: &Vec<u8>) -> (r: String)
    ensures
        r@ == utf8_lossy(bytes@),
        valid_utf8(bytes@) ==> r@ == decode_utf8(bytes@),
{
    String::from_utf8_lossy(bytes).into_owned()
}

/// How the program that ran a command came to its end.
#[derive(Debug, Clone, PartialEq, Eq)]
pub enum ProcessOutcome {
    /// It could not be started.
    NotStarted(String),
    /// It could not be waited for.
    Lost(String),
    /// It took longer than the command has.
    TimedOut,
    /// It exited, with this exit status as text and this output.
    Exited { success: bool, status: String, stdout: Vec<u8>, stderr: Vec<u8> },
}

/// What the output of a command that was run means.
pub open spec fn output_reply(raw: Seq<char>) -> Result<Seq<char>, Seq<char>> {
    if has_error(raw) {
        Err("AT命令返回错误: "@ + trimmed(raw))
    } else {
        Ok(raw)
    }
}

/// What the end of the program means for the command that it ran.
pub open spec fn outcome_reply(
    command: AtCommand<Seq<char>>,
    outcome: ProcessOutcome,
) -> Result<Seq<char>, Seq<char>> {
    match outcome {
        ProcessOutcome::NotStarted(e) => Err("atcmd_rs启动失败: "@ + e@),
        ProcessOutcome::Lost(e) => Err("atcmd_rs执行失败: "@ + e@),
        ProcessOutcome::TimedOut => Err(
            "AT命令超时("@ + decimal(command.timeout_secs as nat) + "s): "@ + command.cmd,
        ),
        ProcessOutcome::Exited { success, status, stdout, stderr } => if success {
            output_reply(utf8_lossy(stdout@))
        } else {
            Err("atcmd_rs失败 (exit="@ + status@ + "): "@ + trimmed(utf8_lossy(stderr@)))
        },
    }
}

/// Judges the text that a command printed: an error line makes it a failure.
pub fn judge_output(raw: String) -> (r: Result<String, String>)
    ensures
        reply_view(r) == output_reply(raw@),
{
    if at_response_has_error(&raw) {
        Err(concat2("AT命令返回错误: ", trim(&raw)))
    } else {
        Ok(raw)
    }
}

/// Judges the end of the program that ran a command.
pub fn judge_outcome(command: &AtCommand, outcome: &ProcessOutcome) -> (r: Result<String, String>)
    ensures
        reply_view(r) == outcome_reply(command@, *outcome),
{
    match outcome {
        ProcessOutcome::NotStarted(e) => Err(concat2("atcmd_rs启动失败: ", e)),
        ProcessOutcome::Lost(e) => Err(concat2("atcmd_rs执行失败: ", e)),
        ProcessOutcome::TimedOut => {
            let mut text = "AT命令超时(".to_owned();
            push_decimal(&mut text, command.timeout_secs);
            text.append("s): ");
            text.append(&command.cmd);
            Err(text)
        },
        ProcessOutcome::Exited { success, status, stdout, stderr } => {
            if *success {
                judge_output(from_utf8_lossy(stdout))
            } else {
                let mut text = concat3("atcmd_rs失败 (exit=", status, "): ");
                let error = from_utf8_lossy(stderr);
                text.append(trim(&error));
                Err(text)
            }
        },
    }
}

// ---------------------------------------------------------------------------
// Judging a response
// ---------------------------------------------------------------------------

/// Some line of the response reports an error.
pub open spec fn has_error(raw: Seq<char>) -> bool {
    exists|i: int|
        0 <= i < lines_of(raw).len() && parsed_line(#[trigger] lines_of(raw)[i]) == Some(
            ParsedLine::<Seq<char>>::Error,
        )
}

/// Whether some line of a response reports an error.
pub fn at_response_has_error(raw: &str) -> (r: bool)
    ensures
        r == has_error(raw@),
{
    let list = lines(raw);
    let ghost all = lines_of(raw@);
    let mut k: usize = 0;
    assert(texts(list@).len() == list@.len());
    while k < list.len()
        invariant
            k <= list@.len(),
            all == lines_of(raw@),
            all == texts(list@),
            all.len() == list@.len(),
            forall|i: int|
                0 <= i < k ==> parsed_line(#[trigger] all[i]) != Some(
                    ParsedLine::<Seq<char>>::Error,
                ),
        decreases list@.len() - k,
    {
        assert(all[k as int] == list@[k as int]@);
        match parse_single_line(list[k]) {
            Some(ParsedLine::Error) => {
                return true;
            },
            _ => {},
        }
        k += 1;
    }
    false
}

/// The response is that of a failure: it says so at its start or on some line.
pub open spec fn exec_failed(raw: Seq<char>) -> bool {
    "ERROR"@.is_prefix_of(trimmed_start(raw)) || has_error(raw)
}

/// Whether a command failed, by its response.
pub fn at_exec_failed(raw: &str) -> (r: bool)
    ensures
        r == exec_failed(raw@),
{
    starts_with(trim_start(raw), "ERROR") || at_response_has_error(raw)
}

/// A line that tells something: not empty, no result code and no echo of a command.
pub open spec fn is_telling(line: Seq<char>) -> bool {
    &&& trimmed(line).len() > 0
    &&& parsed_line(line) != Some(ParsedLine::<Seq<char>>::Okay)
    &&& parsed_line(line) != Some(ParsedLine::<Seq<char>>::Error)
    &&& !"AT+"@.is_prefix_of(trimmed(line))
}

/// The first telling line.
pub open spec fn first_telling(ls: Seq<Seq<char>>) -> Option<Seq<char>>
    decreases ls.len(),
{
    if ls.len() == 0 {
        None
    } else if is_telling(ls[0]) {
        Some(ls[0])
    } else {
        first_telling(ls.skip(1))
    }
}

/// A response in one line: the first telling one, or all of it.
pub open spec fn preview(raw: Seq<char>) -> Seq<char> {
    match first_telling(lines_of(raw)) {
        Some(line) => line,
        None => raw,
    }
}

/// A response in one line.
pub fn at_response_preview<'a>(raw: &'a str) -> (r: &'a str)
    ensures
        r@ == preview(raw@),
{
    let list = lines(raw);
    let ghost all = lines_of(raw@);
    let mut k: usize = 0;
    assert(texts(list@).len() == list@.len());
    assert(all.skip(0) == all);
    while k < list.len()
        invariant
            k <= list@.len(),
            all == lines_of(raw@),
            all == texts(list@),
            all.len() == list@.len(),
            first_telling(all) == first_telling(all.skip(k as int)),
        decreases list@.len() - k,
    {
        let line = list[k];
        assert(all.skip(k as int)[0] == line@);
        assert(all.skip(k as int).skip(1) == all.skip(k + 1));
        let t = trim(line);
        let result_code = match parse_single_line(line) {
            Some(ParsedLine::Okay) => true,
            Some(ParsedLine::Error) => true,
            _ => false,
        };
        if !t.is_empty() && !result_code && !starts_with(t, "AT+") {
            return line;
        }
        k += 1;
    }
    raw
}

/// A line that holds a value: not empty, no result code and no echo of a command.
pub open spec fn is_value_line(t: Seq<char>) -> bool {
    &&& t.len() > 0
    &&& !mentions(t, "OK"@)
    &&& !mentions(t, "ERROR"@)
    &&& !"AT+"@.is_prefix_of(t)
    &&& !"+CME ERROR:"@.is_prefix_of(t)
}

/// The first line that holds a value.
pub open spec fn first_value(ls: Seq<Seq<char>>) -> Option<Seq<char>>
    decreases ls.len(),
{
    if ls.len() == 0 {
        None
    } else if is_value_line(trimmed(ls[0])) {
        Some(trimmed(ls[0]))
    } else {
        first_value(ls.skip(1))
    }
}

/// The value in a reply: its first line that holds one.
pub open spec fn reply_value(reply: Result<Seq<char>, Seq<char>>) -> Option<Seq<char>> {
    match reply {
        Ok(resp) => first_value(lines_of(resp)),
        Err(_) => None,
    }
}

/// The value in the reply to a command.
pub fn send_at_get_line(reply: &Result<String, String>) -> (r: Option<String>)
    ensures
        opt_text(r) == reply_value(reply_view(*reply)),
{
    let resp = match reply {
        Ok(resp) => resp,
        Err(_) => {
            return None;
        },
    };
    let list = lines(resp);
    let ghost all = lines_of(resp@);
    let mut k: usize = 0;
    assert(texts(list@).len() == list@.len());
    assert(all.skip(0) == all);
    while k < list.len()
        invariant
            k <= list@.len(),
            all == texts(list@),
            all.len() == list@.len(),
            reply_value(reply_view(*reply)) == first_value(all.skip(k as int)),
        decreases list@.len() - k,
    {
        let t = trim(list[k]);
        assert(all.skip(k as int)[0] == list@[k as int]@);
        assert(all.skip(k as int).skip(1) == all.skip(k + 1));
        if !t.is_empty() && !contains(t, "OK") && !contains(t, "ERROR") && !starts_with(t, "AT+")
            && !starts_with(t, "+CME ERROR:") {
            return Some(t.to_owned());
        }
        k += 1;
    }
    None
}

// ---------------------------------------------------------------------------
// IMEI
// ---------------------------------------------------------------------------

/// What a response says of reading or writing the IMEI.
#[derive(Debug, Clone, PartialEq, Eq)]
pub struct ImeiParseResult<S = String> {
    /// `read` or `write`.
    pub kind: S,
    pub success: bool,
    pub imei: Option<S>,
}

impl View for ImeiParseResult {
    type V = ImeiParseResult<Seq<char>>;

    open spec fn view(&self) -> ImeiParseResult<Seq<char>> {
        ImeiParseResult {
            kind: self.kind@,
            success: self.success,
            imei: opt_text(self.imei),
        }
    }
}

/// The digits at the front of `s`.
pub open spec fn leading_digits(s: Seq<char>) -> Seq<char>
    decreases s.len(),
{
    if s.len() > 0 && is_digit(s[0]) {
        seq![s[0]] + leading_digits(s.skip(1))
    } else {
        Seq::empty()
    }
}

/// The number after `+EGMR:` in a response.
pub open spec fn egmr_imei(raw: Seq<char>) -> Option<Seq<char>> {
    match found_from(raw, "+EGMR:"@, 0) {
        Some(i) => {
            let rest = raw.skip(i + "+EGMR:"@.len());
            let imei = leading_digits(stripped_start(trimmed_start(rest), '"'));
            if imei.len() > 0 {
                Some(imei)
            } else {
                None
            }
        },
        None => None,
    }
}

/// The digits at the front of a text.
fn take_digits(s: &str) -> (r: String)
    ensures
        r@ == leading_digits(s@),
{
    let cs = chars_of(s);
    let mut r = String::new();
    let mut i: usize = 0;
    assert(s@.skip(0) == s@);
    assert(r@ + leading_digits(s@) == leading_digits(s@));
    while i < cs.len() && is_ascii_digit(cs[i])
        invariant
            i <= cs@.len(),
            cs@ == s@,
            leading_digits(s@) == r@ + leading_digits(s@.skip(i as int)),
        decreases cs@.len() - i,
    {
        let ghost rest = s@.skip(i as int);
        let ghost before = r@;
        r.push(cs[i]);
        i += 1;
        proof {
            assert(rest.skip(1) == s@.skip(i as int));
            let tail = leading_digits(rest.skip(1));
            assert(before + (seq![rest[0]] + tail) == before.push(rest[0]) + tail);
        }
    }
    proof {
        let rest = s@.skip(i as int);
        if i < cs@.len() {
            assert(rest[0] == cs@[i as int]);
        }
        assert(leading_digits(rest) == Seq::<char>::empty());
        assert(r@ + Seq::<char>::empty() == r@);
    }
    r
}

/// The IMEI in the response to `AT+EGMR`.
pub fn extract_egmr_imei(raw: &str) -> (r: Option<String>)
    ensures
        opt_text(r) == egmr_imei(raw@),
{
    match find(raw, "+EGMR:") {
        Some(i) => {
            let cs = chars_of(raw);
            let len = cs.len();
            let marker = chars_of("+EGMR:");
            let n = marker.len();
            assert(i + n <= len);
            let rest = text_of(&cs, i + n, len);
            assert(cs@.subrange(i + n, cs@.len() as int) == raw@.skip(i + n));
            let imei = take_digits(trim_start_matches(trim_start(&rest), '"'));
            if imei.as_str().is_empty() {
                None
            } else {
                Some(imei)
            }
        },
        None => None,
    }
}

/// What a response says of the IMEI. A number after `+EGMR:` is one that was read, with or
/// without an echo of the command. Without it the echo says what was asked.
pub open spec fn egmr_result(raw: Seq<char>) -> Option<ImeiParseResult<Seq<char>>> {
    if egmr_imei(raw) is Some {
        Some(ImeiParseResult { kind: "read"@, success: true, imei: egmr_imei(raw) })
    } else if mentions(raw, "AT+EGMR"@) {
        Some(
            ImeiParseResult {
                kind: if mentions(raw, "AT+EGMR=1,7"@) {
                    "write"@
                } else {
                    "read"@
                },
                success: !exec_failed(raw) && mentions(raw, "OK"@),
                imei: None,
            },
        )
    } else {
        None
    }
}

/// The view of an optional result.
pub open spec fn opt_imei(o: Option<ImeiParseResult>) -> Option<ImeiParseResult<Seq<char>>> {
    match o {
        Some(r) => Some(r@),
        None => None,
    }
}

/// Reads the response to `AT+EGMR`; nothing where it is none.
pub fn parse_egmr_response(raw: &str) -> (r: Option<ImeiParseResult>)
    ensures
        opt_imei(r) == egmr_result(raw@),
{
    if let Some(imei) = extract_egmr_imei(raw) {
        return Some(
            ImeiParseResult { kind: "read".to_owned(), success: true, imei: Some(imei) },
        );
    }
    if contains(raw, "AT+EGMR") {
        let kind = if contains(raw, "AT+EGMR=1,7") {
            "write"
        } else {
            "read"
        };
        let success = !at_exec_failed(raw) && contains(raw, "OK");
        return Some(ImeiParseResult { kind: kind.to_owned(), success, imei: None });
    }
    None
}

} // verus!
