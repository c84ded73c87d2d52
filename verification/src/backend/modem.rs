//! The scripts of the real modem.

use vstd::prelude::*;
use vstd::string::StringExecFns;

use crate::actor::action::DiagnosticType;
use crate::actor::telemetry::{no_telemetry, TelemetryData};
use crate::at::builder::{
    at_param, beyond_ascii, beyond_gsm7, encode_ucs2_hex, is_ascii_text, needs_ucs2,
    sanitize_at_param, sanitize_sms_body,
    sms_body, ucs2_hex,
};
use crate::at::line::{
    is_data_apn, is_valid_data_apn, parse_single_line, parsed_line, ParsedLine,
};
use crate::at::parser::{
    carrier_entries, first_temperature, net_status, network_views, parse_cgpaddr, parse_cops_scan,
    parse_net_status, parse_qcainfo, parse_qeng, parse_qtemp_temperature, parse_signal_quality,
    scanned_networks, serving_cells, signal_quality, with_addresses, with_cells, with_entries,
    ScannedNetwork,
};
use crate::at::response::{QmbncfgEntry, TrafficStats};
use crate::at::utils::{byte_text, format_bytes};
use crate::backend::process::{
    exec_failed, message_command, plain, reply_value, send_at_command_inner,
    send_at_command_inner_with_timeout, send_at_get_line, send_sms_command_inner,
};
use crate::backend::query::{
    bands_step, fetch_network_provider, provider_step, query_device_bands,
};
use crate::backend::{
    reply_view, reply_views, AtCommand, DeviceInfoData, Reply, StaticInfo, Step, UsbConfig,
};
use crate::device::{is_profile, lookup_profile, profile_generic, DeviceId, DeviceProfile};
use crate::number::{decimal, decimal_text, parse_u8, parsed_uint, push_decimal};
use crate::text::{
    concat2, concat3, contains, eq_ignore_ascii_case, is_space, lines, lines_of, mentions, opt_text,
    pieces, same, same_but_case, split, texts, trim, trimmed, trimmed_start,
};

verus! {

/// The modem at a serial port.
#[derive(Debug, Clone)]
pub struct RealBackend {
    pub serial_path: String,
    pub profile: DeviceProfile,
}

// ---------------------------------------------------------------------------
// Parts of scripts
// ---------------------------------------------------------------------------

/// Sends one command and ends with its reply.
pub open spec fn ask_step(
    cmd: Seq<char>,
    replies: Seq<Reply<Seq<char>>>,
) -> Step<Reply<Seq<char>>, Seq<char>> {
    if replies.len() == 0 {
        Step::Send(plain(cmd))
    } else {
        Step::Done(replies[0])
    }
}

/// Sends one command and ends, whatever comes back.
pub open spec fn tell_step(
    cmd: Seq<char>,
    replies: Seq<Reply<Seq<char>>>,
) -> Step<(), Seq<char>> {
    if replies.len() == 0 {
        Step::Send(plain(cmd))
    } else {
        Step::Done(())
    }
}

/// A copy of a reply.
pub fn copy_reply(r: &Result<String, String>) -> (c: Result<String, String>)
    ensures
        reply_view(c) == reply_view(*r),
{
    match r {
        Ok(s) => Ok(s.clone()),
        Err(e) => Err(e.clone()),
    }
}

/// What `r` means where a script ends with a reply.
pub open spec fn reply_step(
    r: Step<Result<String, String>>,
) -> Step<Reply<Seq<char>>, Seq<char>> {
    match r {
        Step::Send(c) => Step::Send(c@),
        Step::Done(t) => Step::Done(reply_view(t)),
    }
}

/// What `r` means where a script ends with a text.
pub open spec fn text_step(r: Step<String>) -> Step<Seq<char>, Seq<char>> {
    match r {
        Step::Send(c) => Step::Send(c@),
        Step::Done(t) => Step::Done(t@),
    }
}

/// What `r` means where a script ends with a plain value.
pub open spec fn plain_step<T>(r: Step<T>) -> Step<T, Seq<char>> {
    match r {
        Step::Send(c) => Step::Send(c@),
        Step::Done(t) => Step::Done(t),
    }
}

fn ask(cmd: &str, replies: &Vec<Result<String, String>>) -> (r: Step<Result<String, String>>)
    ensures
        reply_step(r) == ask_step(cmd@, reply_views(replies@)),
{
    if replies.len() == 0 {
        Step::Send(send_at_command_inner(cmd))
    } else {
        Step::Done(copy_reply(&replies[0]))
    }
}

fn tell(cmd: &str, replies: &Vec<Result<String, String>>) -> (r: Step<()>)
    ensures
        plain_step(r) == tell_step(cmd@, reply_views(replies@)),
{
    if replies.len() == 0 {
        Step::Send(send_at_command_inner(cmd))
    } else {
        Step::Done(())
    }
}

/// A text in double quotes.
pub open spec fn quoted(s: Seq<char>) -> Seq<char> {
    "\""@ + s + "\""@
}

// ---------------------------------------------------------------------------
// Values in responses
// ---------------------------------------------------------------------------

/// The SIM state that a line gives.
pub open spec fn sim_state_on(line: Seq<char>) -> Option<Seq<char>> {
    match parsed_line(line) {
        Some(ParsedLine::Cpin(c)) if c.status.len() > 0 => Some(c.status),
        _ => None,
    }
}

fn read_sim_state(line: &str) -> (r: Option<String>)
    ensures
        opt_text(r) == sim_state_on(line@),
{
    match parse_single_line(line) {
        Some(ParsedLine::Cpin(c)) => if c.status.as_str().is_empty() {
            None
        } else {
            Some(c.status)
        },
        _ => None,
    }
}

/// The SIM state that the first such line gives.
pub open spec fn first_sim_state(ls: Seq<Seq<char>>) -> Option<Seq<char>>
    decreases ls.len(),
{
    if ls.len() == 0 {
        None
    } else if sim_state_on(ls[0]) is Some {
        sim_state_on(ls[0])
    } else {
        first_sim_state(ls.skip(1))
    }
}

/// The SIM state in a `+CPIN` response.
pub fn find_sim_state(response: &str) -> (r: Option<String>)
    ensures
        opt_text(r) == first_sim_state(lines_of(response@)),
{
    let list = lines(response);
    let ghost all = lines_of(response@);
    let mut k: usize = 0;
    assert(texts(list@).len() == list@.len());
    assert(all.skip(0) == all);
    while k < list.len()
        invariant
            k <= list@.len(),
            all == lines_of(response@),
            all == texts(list@),
            all.len() == list@.len(),
            first_sim_state(all) == first_sim_state(all.skip(k as int)),
        decreases list@.len() - k,
    {
        let found = read_sim_state(list[k]);
        assert(all.skip(k as int)[0] == list@[k as int]@);
        assert(all.skip(k as int).skip(1) == all.skip(k + 1));
        if found.is_some() {
            return found;
        }
        k += 1;
    }
    None
}

/// Traffic counters for display.
pub open spec fn traffic_text(t: TrafficStats) -> Seq<char> {
    "TX "@ + byte_text(t.tx_bytes as nat) + " / RX "@ + byte_text(t.rx_bytes as nat)
}

/// The traffic that a line gives.
pub open spec fn traffic_on(line: Seq<char>) -> Option<Seq<char>> {
    match parsed_line(line) {
        Some(ParsedLine::TrafficStats(t)) => Some(traffic_text(t)),
        _ => None,
    }
}

fn read_traffic(line: &str) -> (r: Option<String>)
    ensures
        opt_text(r) == traffic_on(line@),
{
    match parse_single_line(line) {
        Some(ParsedLine::TrafficStats(t)) => {
            let mut text = concat2("TX ", &format_bytes(t.tx_bytes));
            text.append(" / RX ");
            text.append(&format_bytes(t.rx_bytes));
            Some(text)
        },
        _ => None,
    }
}

/// The traffic that the first such line gives.
pub open spec fn first_traffic(ls: Seq<Seq<char>>) -> Option<Seq<char>>
    decreases ls.len(),
{
    if ls.len() == 0 {
        None
    } else if traffic_on(ls[0]) is Some {
        traffic_on(ls[0])
    } else {
        first_traffic(ls.skip(1))
    }
}

/// The traffic in a counter response.
pub fn find_traffic(response: &str) -> (r: Option<String>)
    ensures
        opt_text(r) == first_traffic(lines_of(response@)),
{
    let list = lines(response);
    let ghost all = lines_of(response@);
    let mut k: usize = 0;
    assert(texts(list@).len() == list@.len());
    assert(all.skip(0) == all);
    while k < list.len()
        invariant
            k <= list@.len(),
            all == lines_of(response@),
            all == texts(list@),
            all.len() == list@.len(),
            first_traffic(all) == first_traffic(all.skip(k as int)),
        decreases list@.len() - k,
    {
        let found = read_traffic(list[k]);
        assert(all.skip(k as int)[0] == list@[k as int]@);
        assert(all.skip(k as int).skip(1) == all.skip(k + 1));
        if found.is_some() {
            return found;
        }
        k += 1;
    }
    None
}

/// The slot that a line gives.
pub open spec fn slot_on(line: Seq<char>) -> Option<Seq<char>> {
    match parsed_line(line) {
        Some(ParsedLine::Quimslot(s)) => Some("SIM "@ + decimal(s.slot as nat)),
        _ => None,
    }
}

fn read_slot(line: &str) -> (r: Option<String>)
    ensures
        opt_text(r) == slot_on(line@),
{
    match parse_single_line(line) {
        Some(ParsedLine::Quimslot(s)) => Some(concat2("SIM ", &decimal_text(s.slot as u64))),
        _ => None,
    }
}

/// The slot that the first such line gives.
pub open spec fn first_slot(ls: Seq<Seq<char>>) -> Option<Seq<char>>
    decreases ls.len(),
{
    if ls.len() == 0 {
        None
    } else if slot_on(ls[0]) is Some {
        slot_on(ls[0])
    } else {
        first_slot(ls.skip(1))
    }
}

/// The slot in a `+QUIMSLOT` response.
pub fn find_slot(response: &str) -> (r: Option<String>)
    ensures
        opt_text(r) == first_slot(lines_of(response@)),
{
    let list = lines(response);
    let ghost all = lines_of(response@);
    let mut k: usize = 0;
    assert(texts(list@).len() == list@.len());
    assert(all.skip(0) == all);
    while k < list.len()
        invariant
            k <= list@.len(),
            all == lines_of(response@),
            all == texts(list@),
            all.len() == list@.len(),
            first_slot(all) == first_slot(all.skip(k as int)),
        decreases list@.len() - k,
    {
        let found = read_slot(list[k]);
        assert(all.skip(k as int)[0] == list@[k as int]@);
        assert(all.skip(k as int).skip(1) == all.skip(k + 1));
        if found.is_some() {
            return found;
        }
        k += 1;
    }
    None
}

/// The access point that a line gives.
pub open spec fn apn_on(line: Seq<char>) -> Option<Seq<char>> {
    match parsed_line(line) {
        Some(ParsedLine::Cgdcont(e)) if e.apn.len() > 0 => Some(e.apn),
        _ => None,
    }
}

fn read_apn(line: &str) -> (r: Option<String>)
    ensures
        opt_text(r) == apn_on(line@),
{
    match parse_single_line(line) {
        Some(ParsedLine::Cgdcont(e)) => if e.apn.as_str().is_empty() {
            None
        } else {
            Some(e.apn)
        },
        _ => None,
    }
}

/// The access point that the first such line gives.
pub open spec fn first_apn(ls: Seq<Seq<char>>) -> Option<Seq<char>>
    decreases ls.len(),
{
    if ls.len() == 0 {
        None
    } else if apn_on(ls[0]) is Some {
        apn_on(ls[0])
    } else {
        first_apn(ls.skip(1))
    }
}

/// An access point in a `+CGDCONT` response.
pub fn find_apn(response: &str) -> (r: Option<String>)
    ensures
        opt_text(r) == first_apn(lines_of(response@)),
{
    let list = lines(response);
    let ghost all = lines_of(response@);
    let mut k: usize = 0;
    assert(texts(list@).len() == list@.len());
    assert(all.skip(0) == all);
    while k < list.len()
        invariant
            k <= list@.len(),
            all == lines_of(response@),
            all == texts(list@),
            all.len() == list@.len(),
            first_apn(all) == first_apn(all.skip(k as int)),
        decreases list@.len() - k,
    {
        let found = read_apn(list[k]);
        assert(all.skip(k as int)[0] == list@[k as int]@);
        assert(all.skip(k as int).skip(1) == all.skip(k + 1));
        if found.is_some() {
            return found;
        }
        k += 1;
    }
    None
}

/// The access point for data that a line gives.
pub open spec fn data_apn_on(line: Seq<char>) -> Option<Seq<char>> {
    match apn_on(line) {
        Some(apn) if is_data_apn(apn) => Some(apn),
        _ => None,
    }
}

fn read_data_apn(line: &str) -> (r: Option<String>)
    ensures
        opt_text(r) == data_apn_on(line@),
{
    match read_apn(line) {
        Some(apn) => if is_valid_data_apn(&apn) {
            Some(apn)
        } else {
            None
        },
        None => None,
    }
}

/// The access point for data that the first such line gives.
pub open spec fn first_data_apn(ls: Seq<Seq<char>>) -> Option<Seq<char>>
    decreases ls.len(),
{
    if ls.len() == 0 {
        None
    } else if data_apn_on(ls[0]) is Some {
        data_apn_on(ls[0])
    } else {
        first_data_apn(ls.skip(1))
    }
}

/// The access point for data in a `+CGDCONT` response.
pub fn find_data_apn(response: &str) -> (r: Option<String>)
    ensures
        opt_text(r) == first_data_apn(lines_of(response@)),
{
    let list = lines(response);
    let ghost all = lines_of(response@);
    let mut k: usize = 0;
    assert(texts(list@).len() == list@.len());
    assert(all.skip(0) == all);
    while k < list.len()
        invariant
            k <= list@.len(),
            all == lines_of(response@),
            all == texts(list@),
            all.len() == list@.len(),
            first_data_apn(all) == first_data_apn(all.skip(k as int)),
        decreases list@.len() - k,
    {
        let found = read_data_apn(list[k]);
        assert(all.skip(k as int)[0] == list@[k as int]@);
        assert(all.skip(k as int).skip(1) == all.skip(k + 1));
        if found.is_some() {
            return found;
        }
        k += 1;
    }
    None
}

/// The USB network mode that a line gives.
pub open spec fn usbnet_on(line: Seq<char>) -> Option<nat> {
    let parts = pieces(line, ',');
    if mentions(line, "+QCFG: \"usbnet\","@) && parts.len() > 1 {
        parsed_uint(trimmed(parts[1]), u8::MAX as nat)
    } else {
        None
    }
}

/// The USB network mode that the first such line gives, or 0.
pub open spec fn usbnet_mode(ls: Seq<Seq<char>>) -> nat
    decreases ls.len(),
{
    if ls.len() == 0 {
        0
    } else if let Some(mode) = usbnet_on(ls[0]) {
        mode
    } else {
        usbnet_mode(ls.skip(1))
    }
}

fn read_usbnet(line: &str) -> (r: Option<u8>)
    ensures
        match r {
            Some(mode) => usbnet_on(line@) == Some(mode as nat),
            None => usbnet_on(line@) is None,
        },
{
    if !contains(line, "+QCFG: \"usbnet\",") {
        return None;
    }
    let parts = split(line, ',');
    assert(texts(parts@).len() == parts@.len());
    if parts.len() > 1 {
        assert(pieces(line@, ',')[1] == parts@[1]@);
        parse_u8(trim(parts[1]))
    } else {
        None
    }
}

fn find_usbnet(response: &str) -> (r: u8)
    ensures
        r == usbnet_mode(lines_of(response@)),
{
    let list = lines(response);
    let ghost all = lines_of(response@);
    let mut k: usize = 0;
    assert(texts(list@).len() == list@.len());
    assert(all.skip(0) == all);
    while k < list.len()
        invariant
            k <= list@.len(),
            all == lines_of(response@),
            all == texts(list@),
            all.len() == list@.len(),
            usbnet_mode(all) == usbnet_mode(all.skip(k as int)),
        decreases list@.len() - k,
    {
        assert(all.skip(k as int)[0] == list@[k as int]@);
        assert(all.skip(k as int).skip(1) == all.skip(k + 1));
        if let Some(mode) = read_usbnet(list[k]) {
            return mode;
        }
        k += 1;
    }
    0
}

/// The name of a USB network mode.
pub open spec fn usbnet_name(mode: nat) -> Seq<char> {
    if mode == 0 {
        "RMNET (QMI)"@
    } else if mode == 1 {
        "ECM (Linux/Mac免驱)"@
    } else if mode == 2 {
        "MBIM (Win10/11原生)"@
    } else if mode == 3 {
        "RNDIS (Windows免驱)"@
    } else if mode == 4 {
        "NCM (SDX55)"@
    } else if mode == 5 {
        "NCM (SDX62 高速网卡)"@
    } else {
        "Unknown"@
    }
}

fn name_of_usbnet(mode: u8) -> (r: &'static str)
    ensures
        r@ == usbnet_name(mode as nat),
{
    match mode {
        0 => "RMNET (QMI)",
        1 => "ECM (Linux/Mac免驱)",
        2 => "MBIM (Win10/11原生)",
        3 => "RNDIS (Windows免驱)",
        4 => "NCM (SDX55)",
        5 => "NCM (SDX62 高速网卡)",
        _ => "Unknown",
    }
}

/// What the reply to the mode query says. A module that does not know the query has no mode.
pub open spec fn usb_config(r: Reply<Seq<char>>) -> UsbConfig<Seq<char>> {
    match r {
        Ok(resp) => UsbConfig {
            usbnet_mode: usbnet_mode(lines_of(resp)) as u8,
            usbnet_name: usbnet_name(usbnet_mode(lines_of(resp))),
            usbnet_supported: true,
        },
        Err(_) => UsbConfig {
            usbnet_mode: 0,
            usbnet_name: "N/A (指令不支持)"@,
            usbnet_supported: false,
        },
    }
}

/// The carrier configurations that the lines list.
pub open spec fn mbn_entries(ls: Seq<Seq<char>>) -> Seq<QmbncfgEntry<Seq<char>>>
    decreases ls.len(),
{
    if ls.len() == 0 {
        Seq::empty()
    } else {
        let before = mbn_entries(ls.drop_last());
        match parsed_line(ls.last()) {
            Some(ParsedLine::Qmbncfg(e)) => before.push(e),
            _ => before,
        }
    }
}

/// The views of carrier configurations.
pub open spec fn mbn_views(v: Seq<QmbncfgEntry>) -> Seq<QmbncfgEntry<Seq<char>>> {
    Seq::new(v.len(), |i: int| v[i]@)
}

fn read_mbn_entries(response: &str) -> (r: Vec<QmbncfgEntry>)
    ensures
        mbn_views(r@) == mbn_entries(lines_of(response@)),
{
    let list = lines(response);
    let ghost all = lines_of(response@);
    let mut entries: Vec<QmbncfgEntry> = Vec::new();
    let mut k: usize = 0;
    assert(texts(list@).len() == list@.len());
    assert(mbn_views(entries@) == mbn_entries(all.take(0)));
    while k < list.len()
        invariant
            k <= list@.len(),
            all == texts(list@),
            all.len() == list@.len(),
            mbn_views(entries@) == mbn_entries(all.take(k as int)),
        decreases list@.len() - k,
    {
        let line = list[k];
        k += 1;
        assert(all.take(k as int).drop_last() == all.take(k - 1));
        assert(all.take(k as int).last() == line@);
        match parse_single_line(line) {
            Some(ParsedLine::Qmbncfg(e)) => {
                let ghost before = entries@;
                entries.push(e);
                assert(mbn_views(entries@) == mbn_views(before).push(e@));
            },
            _ => {},
        }
    }
    assert(all.take(k as int) == all);
    entries
}

// ---------------------------------------------------------------------------
// Simple scripts
// ---------------------------------------------------------------------------

/// Runs a command; a failure becomes a text that begins with `ERROR`.
pub open spec fn raw_at_step(
    cmd: Seq<char>,
    replies: Seq<Reply<Seq<char>>>,
) -> Step<Seq<char>, Seq<char>> {
    if replies.len() == 0 {
        Step::Send(plain(cmd))
    } else {
        match replies[0] {
            Ok(resp) => Step::Done(resp),
            Err(e) => Step::Done("ERROR: "@ + e),
        }
    }
}

/// Lists the messages, in text mode with the default alphabet.
pub open spec fn sms_list_step(
    replies: Seq<Reply<Seq<char>>>,
) -> Step<Seq<char>, Seq<char>> {
    if replies.len() == 0 {
        Step::Send(plain("AT+CMGF=1"@))
    } else if replies.len() == 1 {
        Step::Send(plain("AT+CSCS=\"GSM\""@))
    } else if replies.len() == 2 {
        Step::Send(plain("AT+CMGL=\"ALL\""@))
    } else {
        match replies[2] {
            Ok(resp) => Step::Done(resp),
            Err(_) => Step::Done("+CMGL: 0 messages\r\nOK\r\n"@),
        }
    }
}

/// The command that defines the data context.
pub open spec fn apn_command(apn: Seq<char>) -> Seq<char> {
    "AT+CGDCONT=1,\"IPV4V6\","@ + quoted(at_param(apn))
}

/// The command that sets the authentication of the data context.
pub open spec fn auth_command(user: Seq<char>, pass: Seq<char>, auth_type: u8) -> Seq<char> {
    "AT+CGAUTH=1,"@ + decimal(auth_type as nat) + ","@ + quoted(at_param(user)) + ","@ + quoted(
        at_param(pass),
    )
}

/// Defines the data context and, where there is a user, its authentication. The first failure
/// ends it.
pub open spec fn apn_step(
    apn: Seq<char>,
    user: Seq<char>,
    pass: Seq<char>,
    auth_type: u8,
    replies: Seq<Reply<Seq<char>>>,
) -> Step<Reply<Seq<char>>, Seq<char>> {
    let done = Step::Done(Ok::<Seq<char>, Seq<char>>("APN "@ + at_param(apn) + " 设置已应用"@));
    if replies.len() == 0 {
        Step::Send(plain(apn_command(apn)))
    } else if replies[0] is Err {
        Step::Done(replies[0])
    } else if at_param(user).len() == 0 {
        done
    } else if replies.len() == 1 {
        Step::Send(plain(auth_command(user, pass, auth_type)))
    } else if replies[1] is Err {
        Step::Done(replies[1])
    } else {
        done
    }
}

/// The command that selects a network mode.
pub open spec fn mode_command(mode: Seq<char>) -> Option<Seq<char>> {
    if mode == "nr5g"@ {
        Some("AT+QNWPREFCFG=\"mode_pref\",NR5G"@)
    } else if mode == "lte"@ {
        Some("AT+QNWPREFCFG=\"mode_pref\",LTE"@)
    } else if mode == "nr5g_lte"@ {
        Some("AT+QNWPREFCFG=\"mode_pref\",LTE:NR5G"@)
    } else if mode == "wcdma"@ {
        Some("AT+QNWPREFCFG=\"mode_pref\",WCDMA"@)
    } else if mode == "auto"@ {
        Some("AT+QNWPREFCFG=\"mode_pref\",AUTO"@)
    } else if mode == "disable_sa"@ {
        Some("AT+QNWPREFCFG=\"nr5g_disable_mode\",1"@)
    } else if mode == "disable_nsa"@ {
        Some("AT+QNWPREFCFG=\"nr5g_disable_mode\",2"@)
    } else if mode == "enable_all_5g"@ {
        Some("AT+QNWPREFCFG=\"nr5g_disable_mode\",0"@)
    } else {
        None
    }
}

fn command_of_mode(mode: &str) -> (r: Option<&'static str>)
    ensures
        crate::text::opt_str(r) == mode_command(mode@),
{
    if same(mode, "nr5g") {
        Some("AT+QNWPREFCFG=\"mode_pref\",NR5G")
    } else if same(mode, "lte") {
        Some("AT+QNWPREFCFG=\"mode_pref\",LTE")
    } else if same(mode, "nr5g_lte") {
        Some("AT+QNWPREFCFG=\"mode_pref\",LTE:NR5G")
    } else if same(mode, "wcdma") {
        Some("AT+QNWPREFCFG=\"mode_pref\",WCDMA")
    } else if same(mode, "auto") {
        Some("AT+QNWPREFCFG=\"mode_pref\",AUTO")
    } else if same(mode, "disable_sa") {
        Some("AT+QNWPREFCFG=\"nr5g_disable_mode\",1")
    } else if same(mode, "disable_nsa") {
        Some("AT+QNWPREFCFG=\"nr5g_disable_mode\",2")
    } else if same(mode, "enable_all_5g") {
        Some("AT+QNWPREFCFG=\"nr5g_disable_mode\",0")
    } else {
        None
    }
}

/// Selects a network mode; an unknown one is refused without a command.
pub open spec fn mode_step(
    mode: Seq<char>,
    replies: Seq<Reply<Seq<char>>>,
) -> Step<Reply<Seq<char>>, Seq<char>> {
    match mode_command(mode) {
        Some(cmd) => ask_step(cmd, replies),
        None => Step::Done(Err("不支持的网络模式参数: "@ + mode)),
    }
}

/// Opens or closes the data session.
pub open spec fn session_step(
    connect: bool,
    replies: Seq<Reply<Seq<char>>>,
) -> Step<Reply<Seq<char>>, Seq<char>> {
    if replies.len() == 0 {
        Step::Send(
            plain(
                if connect {
                    "AT+CGACT=1,1"@
                } else {
                    "AT+CGACT=0,1"@
                },
            ),
        )
    } else if replies[0] is Err {
        Step::Done(replies[0])
    } else {
        Step::Done(
            Ok(
                if connect {
                    "拨号连接指令已下发"@
                } else {
                    "拨号断开指令已下发"@
                },
            ),
        )
    }
}

/// Scans for networks, which may take four minutes; a failure finds none.
pub open spec fn scan_step(
    replies: Seq<Reply<Seq<char>>>,
) -> Step<Seq<ScannedNetwork<Seq<char>>>, Seq<char>> {
    if replies.len() == 0 {
        Step::Send(
            AtCommand {
                cmd: "AT+COPS=?"@,
                timeout_secs: 240,
                sms_message: None,
                hex_body: None,
            },
        )
    } else {
        match replies[0] {
            Ok(resp) => Step::Done(scanned_networks(lines_of(resp))),
            Err(_) => Step::Done(Seq::empty()),
        }
    }
}

/// The command that sends a message to a recipient.
pub open spec fn sms_command(recipient: Seq<char>) -> Seq<char> {
    "AT+CMGS="@ + quoted(at_param(recipient))
}

/// A message goes out as UCS-2: it holds a character outside the GSM 7-bit alphabet, or one that is
/// not ASCII and would take several bytes as text.
pub open spec fn goes_as_ucs2(text: Seq<char>) -> bool {
    beyond_gsm7(text) || beyond_ascii(text)
}

/// Sends a message. Plain text goes out as it is. Other text goes out as UCS-2 digits, with the
/// coding scheme set for that before and reset afterwards. A failed preparation ends it.
pub open spec fn sms_step(
    recipient: Seq<char>,
    message: Seq<char>,
    replies: Seq<Reply<Seq<char>>>,
) -> Step<bool, Seq<char>> {
    let text = sms_body(message);
    if replies.len() == 0 {
        Step::Send(plain("AT+CMGF=1"@))
    } else if replies[0] is Err {
        Step::Done(false)
    } else if !goes_as_ucs2(text) {
        if replies.len() == 1 {
            Step::Send(message_command(sms_command(recipient), text, None))
        } else {
            Step::Done(replies[1] is Ok)
        }
    } else if replies.len() == 1 {
        Step::Send(plain("AT+CSCS=\"GSM\""@))
    } else if replies[1] is Err {
        Step::Done(false)
    } else if replies.len() == 2 {
        Step::Send(plain("AT+CSMP=17,167,0,8"@))
    } else if replies[2] is Err {
        Step::Done(false)
    } else if replies.len() == 3 {
        Step::Send(message_command(sms_command(recipient), ucs2_hex(text), None))
    } else if replies.len() == 4 {
        Step::Send(plain("AT+CSMP=17,167,0,0"@))
    } else {
        Step::Done(replies[3] is Ok)
    }
}

/// The command that locks to bands; `all` or nothing stands for all bands of the module.
pub open spec fn band_lock_command(
    is_nr5g: bool,
    bands: Seq<char>,
    nr_default: Seq<char>,
    lte_default: Seq<char>,
) -> Seq<char> {
    let all = bands.len() == 0 || bands == "all"@;
    if is_nr5g {
        "AT+QNWPREFCFG=\"nr5g_band\","@ + (if all {
            nr_default
        } else {
            bands
        })
    } else {
        "AT+QNWPREFCFG=\"lte_band\","@ + (if all {
            lte_default
        } else {
            bands
        })
    }
}

/// The command that locks to an NR cell.
pub open spec fn nr_lock_command(pci: nat, earfcn: nat, scs: nat, band: nat) -> Seq<char> {
    "AT+QNWLOCK=\"common/5g\","@ + decimal(pci) + ","@ + decimal(earfcn) + ","@ + decimal(scs)
        + ","@ + decimal(band)
}

/// The command that locks to an LTE cell.
pub open spec fn lte_lock_command(pci: nat, earfcn: nat) -> Seq<char> {
    "AT+QNWLOCK=\"common/lte\",1,"@ + decimal(earfcn) + ","@ + decimal(pci)
}

/// Locks to a cell, or removes the lock. An NR cell is found only with its band, which also
/// decides the subcarrier spacing.
pub open spec fn cell_lock_step(
    tech: Seq<char>,
    pci: nat,
    earfcn: nat,
    band: Option<u32>,
    enable: bool,
    threshold: nat,
    replies: Seq<Reply<Seq<char>>>,
) -> Step<Reply<Seq<char>>, Seq<char>> {
    let is_nr = same_but_case(tech, "5g"@);
    if !enable {
        if is_nr {
            ask_step("AT+QNWLOCK=\"common/5g\",0"@, replies)
        } else {
            ask_step("AT+QNWLOCK=\"common/lte\",0"@, replies)
        }
    } else if is_nr {
        match band {
            Some(b) => ask_step(
                nr_lock_command(
                    pci,
                    earfcn,
                    if b <= threshold {
                        15
                    } else {
                        30
                    },
                    b as nat,
                ),
                replies,
            ),
            None => Step::Done(Err("5G 锁小区必须提供 Band"@)),
        }
    } else {
        ask_step(lte_lock_command(pci, earfcn), replies)
    }
}

/// Runs a diagnostic query. The network time is asked for in two ways.
pub open spec fn diagnostics_step(
    diag: DiagnosticType,
    replies: Seq<Reply<Seq<char>>>,
) -> Step<Reply<Seq<char>>, Seq<char>> {
    match diag {
        DiagnosticType::Neighbour => ask_step("AT+QENG=\"neighbourcell\""@, replies),
        DiagnosticType::Qlts => if replies.len() == 0 {
            Step::Send(plain("AT+QLTS=2"@))
        } else if replies[0] is Ok {
            Step::Done(replies[0])
        } else if replies.len() == 1 {
            Step::Send(plain("AT+QLTS"@))
        } else {
            Step::Done(replies[1])
        },
        DiagnosticType::MbnList => ask_step("AT+QMBNCFG=\"List\""@, replies),
        DiagnosticType::AutoSelQuery => ask_step("AT+QMBNCFG=\"AutoSel\""@, replies),
    }
}

/// Sets the USB network mode; an unknown one is refused without a command.
pub open spec fn usbnet_step(
    mode: u8,
    replies: Seq<Reply<Seq<char>>>,
) -> Step<Reply<Seq<char>>, Seq<char>> {
    if mode > 5 {
        Step::Done(
            Err(
                "不支持的 USB 网络模式，有效值为 0(RMNET), 1(ECM), 2(MBIM), 3(RNDIS), 4(NCM/SDX55), 5(NCM/SDX62)"@,
            ),
        )
    } else {
        ask_step("AT+QCFG=\"usbnet\","@ + decimal(mode as nat), replies)
    }
}

/// Reads the USB network mode.
pub open spec fn usb_config_step(
    replies: Seq<Reply<Seq<char>>>,
) -> Step<UsbConfig<Seq<char>>, Seq<char>> {
    if replies.len() == 0 {
        Step::Send(plain("AT+QCFG=\"usbnet\""@))
    } else {
        Step::Done(usb_config(replies[0]))
    }
}

/// Selects a SIM slot; one other than 1 and 2 is refused without a command.
pub open spec fn slot_step(
    slot: u32,
    replies: Seq<Reply<Seq<char>>>,
) -> Step<Reply<Seq<char>>, Seq<char>> {
    if slot == 1 || slot == 2 {
        ask_step("AT+QUIMSLOT="@ + decimal(slot as nat), replies)
    } else {
        Step::Done(Err("无效的 SIM 卡槽，仅支持 1/2: "@ + decimal(slot as nat)))
    }
}

/// Lists the carrier configurations; a response without any is a failure.
pub open spec fn mbn_list_step(
    replies: Seq<Reply<Seq<char>>>,
) -> Step<Result<Seq<QmbncfgEntry<Seq<char>>>, Seq<char>>, Seq<char>> {
    if replies.len() == 0 {
        Step::Send(plain("AT+QMBNCFG=\"List\""@))
    } else {
        match replies[0] {
            Ok(resp) => if mbn_entries(lines_of(resp)).len() == 0 {
                Step::Done(Err("未解析到 MBN 列表: "@ + trimmed(resp)))
            } else {
                Step::Done(Ok(mbn_entries(lines_of(resp))))
            },
            Err(e) => Step::Done(Err(e)),
        }
    }
}

/// Selects a carrier configuration; an empty name is refused without a command.
pub open spec fn set_mbn_step(
    name: Seq<char>,
    replies: Seq<Reply<Seq<char>>>,
) -> Step<Reply<Seq<char>>, Seq<char>> {
    if at_param(name).len() == 0 {
        Step::Done(Err("MBN 名称不能为空"@))
    } else {
        ask_step("AT+QMBNCFG=\"Select\","@ + quoted(at_param(name)), replies)
    }
}

/// The text `s` in double quotes.
fn quote(s: &str) -> (r: String)
    ensures
        r@ == quoted(s@),
{
    concat3("\"", s, "\"")
}

// ---------------------------------------------------------------------------
// Device information
// ---------------------------------------------------------------------------

/// The queries for the description of the module, in order.
pub open spec fn info_command(k: int) -> Seq<char> {
    if k == 0 {
        "AT+CGMI"@
    } else if k == 1 {
        "AT+CGMM"@
    } else if k == 2 {
        "AT+CGMR"@
    } else if k == 3 {
        "AT+CGSN"@
    } else if k == 4 {
        "AT+CPIN?"@
    } else if k == 5 {
        "AT+CIMI"@
    } else if k == 6 {
        "AT+QCCID"@
    } else if k == 7 {
        "AT+CNUM"@
    } else if k == 8 {
        "AT+CREG?"@
    } else if k == 9 {
        "AT+CSQ"@
    } else {
        "AT+QTEMP"@
    }
}

/// `o`, or `default` where there is nothing.
pub open spec fn or_default(o: Option<Seq<char>>, default: Seq<char>) -> Seq<char> {
    match o {
        Some(s) => s,
        None => default,
    }
}

/// The SIM state in the reply to `AT+CPIN?`.
pub open spec fn cpin_value(r: Reply<Seq<char>>) -> Option<Seq<char>> {
    match reply_value(r) {
        Some(v) => match parsed_line(v) {
            Some(ParsedLine::Cpin(c)) => Some(c.status),
            _ => None,
        },
        None => None,
    }
}

/// The subscriber identity in the reply to `AT+CIMI`, which comes with or without its name.
pub open spec fn imsi_value(r: Reply<Seq<char>>) -> Option<Seq<char>> {
    match reply_value(r) {
        Some(v) => match parsed_line(v) {
            Some(ParsedLine::Cimi(imsi)) => Some(imsi),
            Some(ParsedLine::Other(t)) => Some(trimmed(t)),
            _ => None,
        },
        None => None,
    }
}

/// The card identity in the reply to `AT+QCCID`.
pub open spec fn iccid_value(r: Reply<Seq<char>>) -> Option<Seq<char>> {
    match reply_value(r) {
        Some(v) => match parsed_line(v) {
            Some(ParsedLine::Qccid(iccid)) => Some(iccid),
            _ => None,
        },
        None => None,
    }
}

/// The subscriber number in the reply to `AT+CNUM`.
pub open spec fn phone_value(r: Reply<Seq<char>>) -> Option<Seq<char>> {
    match reply_value(r) {
        Some(v) => match parsed_line(v) {
            Some(ParsedLine::Cnum(c)) => Some(c.number),
            _ => None,
        },
        None => None,
    }
}

/// The registration in the reply to `AT+CREG?`.
pub open spec fn registration_value(r: Reply<Seq<char>>) -> Option<Seq<char>> {
    match reply_value(r) {
        Some(v) => Some(net_status(lines_of(v))),
        None => None,
    }
}

/// The signal strength in the reply to `AT+CSQ`.
pub open spec fn quality_value(r: Reply<Seq<char>>) -> Option<Seq<char>> {
    match reply_value(r) {
        Some(v) => Some(signal_quality(lines_of(v))),
        None => None,
    }
}

/// The temperature in the reply to `AT+QTEMP`.
pub open spec fn temperature_value(r: Reply<Seq<char>>) -> Option<Seq<char>> {
    match reply_value(r) {
        Some(v) => first_temperature(lines_of(v)),
        None => None,
    }
}

/// The description of the module that the replies give.
pub open spec fn device_info(
    r: Seq<Reply<Seq<char>>>,
    bands: Seq<char>,
) -> DeviceInfoData<Seq<char>> {
    let unknown = "Unknown"@;
    DeviceInfoData {
        manufacturer: or_default(reply_value(r[0]), unknown),
        model: or_default(reply_value(r[1]), unknown),
        firmware: or_default(reply_value(r[2]), unknown),
        imei: or_default(reply_value(r[3]), unknown),
        serial: or_default(reply_value(r[3]), unknown),
        hw_version: unknown,
        module_type: or_default(reply_value(r[1]), unknown),
        sim_status: or_default(cpin_value(r[4]), unknown),
        imsi: or_default(imsi_value(r[5]), Seq::empty()),
        iccid: or_default(iccid_value(r[6]), unknown),
        phone: or_default(phone_value(r[7]), Seq::empty()),
        net_status: or_default(registration_value(r[8]), unknown),
        signal_quality: or_default(quality_value(r[9]), unknown),
        temperature: or_default(temperature_value(r[10]), "-- °C"@),
        bands,
    }
}

/// Asks for everything in the description of the module, then for the bands in use.
pub open spec fn device_info_step(
    replies: Seq<Reply<Seq<char>>>,
) -> Step<DeviceInfoData<Seq<char>>, Seq<char>> {
    if replies.len() < 11 {
        Step::Send(plain(info_command(replies.len() as int)))
    } else {
        match bands_step(replies.skip(11)) {
            Step::Send(c) => Step::Send(c),
            Step::Done(bands) => Step::Done(device_info(replies, bands)),
        }
    }
}

fn command_of_info(k: usize) -> (r: &'static str)
    ensures
        r@ == info_command(k as int),
{
    match k {
        0 => "AT+CGMI",
        1 => "AT+CGMM",
        2 => "AT+CGMR",
        3 => "AT+CGSN",
        4 => "AT+CPIN?",
        5 => "AT+CIMI",
        6 => "AT+QCCID",
        7 => "AT+CNUM",
        8 => "AT+CREG?",
        9 => "AT+CSQ",
        _ => "AT+QTEMP",
    }
}

fn value_or(o: Option<String>, default: &str) -> (r: String)
    ensures
        r@ == or_default(opt_text(o), default@),
{
    match o {
        Some(s) => s,
        None => default.to_owned(),
    }
}

fn read_cpin_value(r: &Result<String, String>) -> (v: Option<String>)
    ensures
        opt_text(v) == cpin_value(reply_view(*r)),
{
    match send_at_get_line(r) {
        Some(line) => match parse_single_line(&line) {
            Some(ParsedLine::Cpin(c)) => Some(c.status),
            _ => None,
        },
        None => None,
    }
}

fn read_imsi_value(r: &Result<String, String>) -> (v: Option<String>)
    ensures
        opt_text(v) == imsi_value(reply_view(*r)),
{
    match send_at_get_line(r) {
        Some(line) => match parse_single_line(&line) {
            Some(ParsedLine::Cimi(imsi)) => Some(imsi),
            Some(ParsedLine::Other(t)) => Some(trim(&t).to_owned()),
            _ => None,
        },
        None => None,
    }
}

fn read_iccid_value(r: &Result<String, String>) -> (v: Option<String>)
    ensures
        opt_text(v) == iccid_value(reply_view(*r)),
{
    match send_at_get_line(r) {
        Some(line) => match parse_single_line(&line) {
            Some(ParsedLine::Qccid(iccid)) => Some(iccid),
            _ => None,
        },
        None => None,
    }
}

fn read_phone_value(r: &Result<String, String>) -> (v: Option<String>)
    ensures
        opt_text(v) == phone_value(reply_view(*r)),
{
    match send_at_get_line(r) {
        Some(line) => match parse_single_line(&line) {
            Some(ParsedLine::Cnum(c)) => Some(c.number),
            _ => None,
        },
        None => None,
    }
}

fn read_registration_value(r: &Result<String, String>) -> (v: Option<String>)
    ensures
        opt_text(v) == registration_value(reply_view(*r)),
{
    match send_at_get_line(r) {
        Some(line) => Some(parse_net_status(&line)),
        None => None,
    }
}

fn read_quality_value(r: &Result<String, String>) -> (v: Option<String>)
    ensures
        opt_text(v) == quality_value(reply_view(*r)),
{
    match send_at_get_line(r) {
        Some(line) => Some(parse_signal_quality(&line)),
        None => None,
    }
}

fn read_temperature_value(r: &Result<String, String>) -> (v: Option<String>)
    ensures
        opt_text(v) == temperature_value(reply_view(*r)),
{
    match send_at_get_line(r) {
        Some(line) => parse_qtemp_temperature(&line),
        None => None,
    }
}

// ---------------------------------------------------------------------------
// Telemetry
// ---------------------------------------------------------------------------

/// The queries of a poll, in order.
pub open spec fn poll_command(k: int) -> Seq<char> {
    if k == 0 {
        "AT+CGPADDR"@
    } else if k == 1 {
        "AT+QENG=\"servingcell\""@
    } else if k == 2 {
        "AT+QCAINFO"@
    } else if k == 3 {
        "AT+CPIN?"@
    } else if k == 4 {
        "AT+QTEMP"@
    } else {
        "AT+QGDNRCNT?"@
    }
}

/// What the replies to the first five queries say.
pub open spec fn polled(r: Seq<Reply<Seq<char>>>) -> TelemetryData<Seq<char>> {
    let t = no_telemetry();
    let t = match r[0] {
        Ok(resp) => with_addresses(lines_of(resp), t),
        Err(_) => t,
    };
    let t = match r[1] {
        Ok(resp) => with_cells(serving_cells(lines_of(resp)), t),
        Err(_) => t,
    };
    let t = match r[2] {
        Ok(resp) => with_entries(carrier_entries(lines_of(resp)), t),
        Err(_) => t,
    };
    TelemetryData {
        sim_status: match r[3] {
            Ok(resp) => first_sim_state(lines_of(resp)),
            Err(_) => None,
        },
        temperature: match r[4] {
            Ok(resp) => first_temperature(lines_of(resp)),
            Err(_) => None,
        },
        ..t
    }
}

/// The traffic in a reply.
pub open spec fn traffic_value(r: Reply<Seq<char>>) -> Option<Seq<char>> {
    match r {
        Ok(resp) => first_traffic(lines_of(resp)),
        Err(_) => None,
    }
}

/// One poll of the modem. The traffic of NR is asked for first, that of LTE where there is none.
pub open spec fn poll_step(
    replies: Seq<Reply<Seq<char>>>,
) -> Step<TelemetryData<Seq<char>>, Seq<char>> {
    if replies.len() < 6 {
        Step::Send(plain(poll_command(replies.len() as int)))
    } else if traffic_value(replies[5]) is Some {
        Step::Done(TelemetryData { traffic_stats: traffic_value(replies[5]), ..polled(replies) })
    } else if replies.len() == 6 {
        Step::Send(plain("AT+QGDAT?"@))
    } else {
        Step::Done(TelemetryData { traffic_stats: traffic_value(replies[6]), ..polled(replies) })
    }
}

fn command_of_poll(k: usize) -> (r: &'static str)
    ensures
        r@ == poll_command(k as int),
{
    match k {
        0 => "AT+CGPADDR",
        1 => "AT+QENG=\"servingcell\"",
        2 => "AT+QCAINFO",
        3 => "AT+CPIN?",
        4 => "AT+QTEMP",
        _ => "AT+QGDNRCNT?",
    }
}

fn read_traffic_value(r: &Result<String, String>) -> (v: Option<String>)
    ensures
        opt_text(v) == traffic_value(reply_view(*r)),
{
    match r {
        Ok(resp) => find_traffic(resp),
        Err(_) => None,
    }
}

fn read_polled(replies: &Vec<Result<String, String>>) -> (t: TelemetryData)
    requires
        replies@.len() >= 5,
    ensures
        t@ == polled(reply_views(replies@)),
{
    let ghost views = reply_views(replies@);
    assert(forall|i: int| 0 <= i < 5 ==> views[i] == reply_view(#[trigger] replies@[i]));
    let mut t = TelemetryData::default();
    if let Ok(resp) = &replies[0] {
        parse_cgpaddr(resp, &mut t);
    }
    if let Ok(resp) = &replies[1] {
        parse_qeng(resp, &mut t);
    }
    if let Ok(resp) = &replies[2] {
        parse_qcainfo(resp, &mut t);
    }
    t.sim_status = match &replies[3] {
        Ok(resp) => find_sim_state(resp),
        Err(_) => None,
    };
    t.temperature = match &replies[4] {
        Ok(resp) => parse_qtemp_temperature(resp),
        Err(_) => None,
    };
    t
}

// ---------------------------------------------------------------------------
// Static information
// ---------------------------------------------------------------------------

/// The slot in the reply to `AT+QUIMSLOT?`.
pub open spec fn slot_value(r: Reply<Seq<char>>) -> Seq<char> {
    match r {
        Ok(resp) => or_default(first_slot(lines_of(resp)), "NA"@),
        Err(_) => "NA"@,
    }
}

/// The access point in the reply to `AT+CGDCONT?`: the first one for data, else the first one.
pub open spec fn apn_value(r: Reply<Seq<char>>) -> Seq<char> {
    match r {
        Ok(resp) => match first_data_apn(lines_of(resp)) {
            Some(apn) => apn,
            None => or_default(first_apn(lines_of(resp)), "N/A"@),
        },
        Err(_) => "N/A"@,
    }
}

/// Reads what does not change: the firmware, the slot, the operator and the access point.
pub open spec fn static_step(
    replies: Seq<Reply<Seq<char>>>,
) -> Step<StaticInfo<Seq<char>>, Seq<char>> {
    if replies.len() == 0 {
        Step::Send(plain("AT+CGMR"@))
    } else if replies.len() == 1 {
        Step::Send(plain("AT+QUIMSLOT?"@))
    } else {
        match provider_step(replies.skip(2)) {
            Step::Send(c) => Step::Send(c),
            Step::Done((provider, used)) => if replies.len() == 2 + used {
                Step::Send(plain("AT+CGDCONT?"@))
            } else {
                Step::Done(
                    StaticInfo {
                        firmware_version: or_default(reply_value(replies[0]), "NA"@),
                        active_sim: slot_value(replies[1]),
                        network_provider: provider,
                        apn: apn_value(replies[2 + used]),
                    },
                )
            },
        }
    }
}

fn read_slot_value(r: &Result<String, String>) -> (v: String)
    ensures
        v@ == slot_value(reply_view(*r)),
{
    match r {
        Ok(resp) => value_or(find_slot(resp), "NA"),
        Err(_) => "NA".to_owned(),
    }
}

fn read_apn_value(r: &Result<String, String>) -> (v: String)
    ensures
        v@ == apn_value(reply_view(*r)),
{
    match r {
        Ok(resp) => match find_data_apn(resp) {
            Some(apn) => apn,
            None => value_or(find_apn(resp), "N/A"),
        },
        Err(_) => "N/A".to_owned(),
    }
}

// ---------------------------------------------------------------------------
// The backend
// ---------------------------------------------------------------------------

/// The family of the module, told by the reply to `AT+CGMM`.
pub open spec fn detected(b: RealBackend, model: Option<Seq<char>>) -> bool {
    match model {
        Some(m) => {
            &&& is_profile(b.profile, crate::device::family_of(crate::device::uppercase(trimmed(m))))
            &&& crate::device::all_ascii(trimmed(m)) ==> is_profile(
                b.profile,
                crate::device::family_of(crate::device::ascii_uppercase(trimmed(m))),
            )
        },
        None => is_profile(b.profile, DeviceId::Generic),
    }
}

impl RealBackend {
    /// Tells the module at a serial port by its model. A port that is not there, or does not
    /// answer, has a generic module.
    pub fn new(
        serial_path: &str,
        exists: bool,
        replies: &Vec<Result<String, String>>,
    ) -> (r: Step<RealBackend>)
        ensures
            match r {
                Step::Send(c) => exists && replies@.len() == 0 && c@ == plain("AT+CGMM"@),
                Step::Done(b) => {
                    &&& !(exists && replies@.len() == 0)
                    &&& b.serial_path@ == serial_path@
                    &&& detected(
                        b,
                        if exists {
                            reply_value(reply_view(replies@[0]))
                        } else {
                            None
                        },
                    )
                },
            },
    {
        if exists {
            if replies.len() == 0 {
                return Step::Send(send_at_command_inner("AT+CGMM"));
            }
            if let Some(model) = send_at_get_line(&replies[0]) {
                return Step::Done(
                    RealBackend {
                        serial_path: serial_path.to_owned(),
                        profile: lookup_profile(&model),
                    },
                );
            }
        }
        Step::Done(
            RealBackend { serial_path: serial_path.to_owned(), profile: profile_generic() },
        )
    }

    /// Runs a command as it is.
    pub fn exec_raw_at(
        &self,
        cmd: &str,
        replies: &Vec<Result<String, String>>,
    ) -> (r: Step<String>)
        ensures
            text_step(r) == raw_at_step(cmd@, reply_views(replies@)),
    {
        if replies.len() == 0 {
            return Step::Send(send_at_command_inner(cmd));
        }
        match &replies[0] {
            Ok(resp) => Step::Done(resp.clone()),
            Err(e) => Step::Done(concat2("ERROR: ", e)),
        }
    }

    /// Lists the messages.
    pub fn read_sms_list(&self, replies: &Vec<Result<String, String>>) -> (r: Step<String>)
        ensures
            text_step(r) == sms_list_step(reply_views(replies@)),
    {
        if replies.len() == 0 {
            return Step::Send(send_at_command_inner("AT+CMGF=1"));
        }
        if replies.len() == 1 {
            return Step::Send(send_at_command_inner("AT+CSCS=\"GSM\""));
        }
        if replies.len() == 2 {
            return Step::Send(send_at_command_inner("AT+CMGL=\"ALL\""));
        }
        match &replies[2] {
            Ok(resp) => Step::Done(resp.clone()),
            Err(_) => Step::Done("+CMGL: 0 messages\r\nOK\r\n".to_owned()),
        }
    }

    /// Sets the access point.
    pub fn configure_apn(
        &self,
        apn: &str,
        user: &str,
        pass: &str,
        auth_type: u8,
        replies: &Vec<Result<String, String>>,
    ) -> (r: Step<Result<String, String>>)
        ensures
            reply_step(r) == apn_step(apn@, user@, pass@, auth_type, reply_views(replies@)),
    {
        let apn = sanitize_at_param(apn);
        let user = sanitize_at_param(user);
        let pass = sanitize_at_param(pass);
        if replies.len() == 0 {
            let cmd = concat2("AT+CGDCONT=1,\"IPV4V6\",", &quote(&apn));
            return Step::Send(send_at_command_inner(&cmd));
        }
        if replies[0].is_err() {
            return Step::Done(copy_reply(&replies[0]));
        }
        if !user.as_str().is_empty() {
            if replies.len() == 1 {
                let mut cmd = "AT+CGAUTH=1,".to_owned();
                push_decimal(&mut cmd, auth_type as u64);
                cmd.append(",");
                cmd.append(&quote(&user));
                cmd.append(",");
                cmd.append(&quote(&pass));
                return Step::Send(send_at_command_inner(&cmd));
            }
            if replies[1].is_err() {
                return Step::Done(copy_reply(&replies[1]));
            }
        }
        Step::Done(Ok(concat3("APN ", &apn, " 设置已应用")))
    }

    /// Selects a network mode.
    pub fn set_network_mode_pref(
        &self,
        mode: &str,
        replies: &Vec<Result<String, String>>,
    ) -> (r: Step<Result<String, String>>)
        ensures
            reply_step(r) == mode_step(mode@, reply_views(replies@)),
    {
        match command_of_mode(mode) {
            Some(cmd) => ask(cmd, replies),
            None => Step::Done(Err(concat2("不支持的网络模式参数: ", mode))),
        }
    }

    /// Opens or closes the data session.
    pub fn set_data_session(
        &self,
        connect: bool,
        replies: &Vec<Result<String, String>>,
    ) -> (r: Step<Result<String, String>>)
        ensures
            reply_step(r) == session_step(connect, reply_views(replies@)),
    {
        if replies.len() == 0 {
            let cmd = if connect {
                "AT+CGACT=1,1"
            } else {
                "AT+CGACT=0,1"
            };
            return Step::Send(send_at_command_inner(cmd));
        }
        if replies[0].is_err() {
            return Step::Done(copy_reply(&replies[0]));
        }
        let msg = if connect {
            "拨号连接指令已下发"
        } else {
            "拨号断开指令已下发"
        };
        Step::Done(Ok(msg.to_owned()))
    }

    /// Scans for networks.
    pub fn scan_available_networks(
        &self,
        replies: &Vec<Result<String, String>>,
    ) -> (r: Step<Vec<ScannedNetwork>>)
        ensures
            match r {
                Step::Send(c) => scan_step(reply_views(replies@)) == Step::<
                    Seq<ScannedNetwork<Seq<char>>>,
                    Seq<char>,
                >::Send(c@),
                Step::Done(v) => scan_step(reply_views(replies@)) == Step::<
                    Seq<ScannedNetwork<Seq<char>>>,
                    Seq<char>,
                >::Done(network_views(v@)),
            },
    {
        if replies.len() == 0 {
            return Step::Send(send_at_command_inner_with_timeout("AT+COPS=?", 240));
        }
        match &replies[0] {
            Ok(resp) => Step::Done(parse_cops_scan(resp)),
            Err(_) => {
                let none: Vec<ScannedNetwork> = Vec::new();
                assert(network_views(none@) == Seq::<ScannedNetwork<Seq<char>>>::empty());
                Step::Done(none)
            },
        }
    }

    /// Sends a message.
    pub fn send_sms_msg(
        &self,
        recipient: &str,
        message: &str,
        replies: &Vec<Result<String, String>>,
    ) -> (r: Step<bool>)
        ensures
            plain_step(r) == sms_step(recipient@, message@, reply_views(replies@)),
    {
        let message = sanitize_sms_body(message);
        let cmd = concat2("AT+CMGS=", &quote(&sanitize_at_param(recipient)));
        if replies.len() == 0 {
            return Step::Send(send_at_command_inner("AT+CMGF=1"));
        }
        if replies[0].is_err() {
            return Step::Done(false);
        }
        if !needs_ucs2(&message) && is_ascii_text(&message) {
            if replies.len() == 1 {
                return Step::Send(send_sms_command_inner(&cmd, &message, None));
            }
            return Step::Done(replies[1].is_ok());
        }
        if replies.len() == 1 {
            return Step::Send(send_at_command_inner("AT+CSCS=\"GSM\""));
        }
        if replies[1].is_err() {
            return Step::Done(false);
        }
        if replies.len() == 2 {
            return Step::Send(send_at_command_inner("AT+CSMP=17,167,0,8"));
        }
        if replies[2].is_err() {
            return Step::Done(false);
        }
        if replies.len() == 3 {
            return Step::Send(send_sms_command_inner(&cmd, &encode_ucs2_hex(&message), None));
        }
        if replies.len() == 4 {
            return Step::Send(send_at_command_inner("AT+CSMP=17,167,0,0"));
        }
        Step::Done(replies[3].is_ok())
    }

    /// Describes the module.
    pub fn read_device_info(
        &self,
        replies: &Vec<Result<String, String>>,
    ) -> (r: Step<DeviceInfoData>)
        ensures
            match r {
                Step::Send(c) => device_info_step(reply_views(replies@)) == Step::<
                    DeviceInfoData<Seq<char>>,
                    Seq<char>,
                >::Send(c@),
                Step::Done(d) => device_info_step(reply_views(replies@)) == Step::<
                    DeviceInfoData<Seq<char>>,
                    Seq<char>,
                >::Done(d@),
            },
    {
        if replies.len() < 11 {
            return Step::Send(send_at_command_inner(command_of_info(replies.len())));
        }
        let ghost views = reply_views(replies@);
        assert(forall|i: int| 0 <= i < 11 ==> views[i] == reply_view(#[trigger] replies@[i]));
        let bands = match query_device_bands(replies, 11) {
            Step::Send(c) => {
                return Step::Send(c);
            },
            Step::Done(bands) => bands,
        };
        let model = value_or(send_at_get_line(&replies[1]), "Unknown");
        let imei = value_or(send_at_get_line(&replies[3]), "Unknown");
        Step::Done(
            DeviceInfoData {
                manufacturer: value_or(send_at_get_line(&replies[0]), "Unknown"),
                module_type: model.clone(),
                model,
                firmware: value_or(send_at_get_line(&replies[2]), "Unknown"),
                serial: imei.clone(),
                imei,
                hw_version: "Unknown".to_owned(),
                sim_status: value_or(read_cpin_value(&replies[4]), "Unknown"),
                imsi: read_imsi_value(&replies[5]).unwrap_or(String::new()),
                iccid: value_or(read_iccid_value(&replies[6]), "Unknown"),
                phone: read_phone_value(&replies[7]).unwrap_or(String::new()),
                net_status: value_or(read_registration_value(&replies[8]), "Unknown"),
                signal_quality: value_or(read_quality_value(&replies[9]), "Unknown"),
                temperature: value_or(read_temperature_value(&replies[10]), "-- °C"),
                bands,
            },
        )
    }

    /// Restarts the module.
    pub fn send_reboot(&self, replies: &Vec<Result<String, String>>) -> (r: Step<()>)
        ensures
            plain_step(r) == tell_step("AT+CFUN=1,1"@, reply_views(replies@)),
    {
        tell("AT+CFUN=1,1", replies)
    }

    /// Resets the module to its factory settings.
    pub fn send_factory_reset(&self, replies: &Vec<Result<String, String>>) -> (r: Step<()>)
        ensures
            plain_step(r) == tell_step("AT&F0"@, reply_views(replies@)),
    {
        tell("AT&F0", replies)
    }

    /// Switches the radio off or on.
    pub fn set_airplane_mode(
        &self,
        on: bool,
        replies: &Vec<Result<String, String>>,
    ) -> (r: Step<()>)
        ensures
            plain_step(r) == tell_step(
                if on {
                    "AT+CFUN=4"@
                } else {
                    "AT+CFUN=1"@
                },
                reply_views(replies@),
            ),
    {
        tell(
            if on {
                "AT+CFUN=4"
            } else {
                "AT+CFUN=1"
            },
            replies,
        )
    }

    /// Locks to bands.
    pub fn set_band_lock(
        &self,
        is_nr5g: bool,
        bands: &str,
        replies: &Vec<Result<String, String>>,
    ) -> (r: Step<Result<String, String>>)
        ensures
            reply_step(r) == ask_step(
                band_lock_command(
                    is_nr5g,
                    bands@,
                    self.profile.default_nr_bands@,
                    self.profile.default_lte_bands@,
                ),
                reply_views(replies@),
            ),
    {
        let all = bands.is_empty() || same(bands, "all");
        let cmd = if is_nr5g {
            concat2(
                "AT+QNWPREFCFG=\"nr5g_band\",",
                if all {
                    self.profile.default_nr_bands
                } else {
                    bands
                },
            )
        } else {
            concat2(
                "AT+QNWPREFCFG=\"lte_band\",",
                if all {
                    self.profile.default_lte_bands
                } else {
                    bands
                },
            )
        };
        ask(&cmd, replies)
    }

    /// Locks to a cell, or removes the lock.
    pub fn set_cell_lock(
        &self,
        tech: &str,
        pci: u32,
        earfcn: u32,
        band: Option<u32>,
        enable: bool,
        replies: &Vec<Result<String, String>>,
    ) -> (r: Step<Result<String, String>>)
        ensures
            reply_step(r) == cell_lock_step(
                tech@,
                pci as nat,
                earfcn as nat,
                band,
                enable,
                self.profile.nr_cell_lock_scs_threshold as nat,
                reply_views(replies@),
            ),
    {
        let is_nr = eq_ignore_ascii_case(tech, "5g");
        if !enable {
            return if is_nr {
                ask("AT+QNWLOCK=\"common/5g\",0", replies)
            } else {
                ask("AT+QNWLOCK=\"common/lte\",0", replies)
            };
        }
        if is_nr {
            let b: u32 = match band {
                Some(b) => b,
                None => {
                    return Step::Done(Err("5G 锁小区必须提供 Band".to_owned()));
                },
            };
            let scs: u64 = if b <= self.profile.nr_cell_lock_scs_threshold {
                15
            } else {
                30
            };
            let mut cmd = "AT+QNWLOCK=\"common/5g\",".to_owned();
            push_decimal(&mut cmd, pci as u64);
            cmd.append(",");
            push_decimal(&mut cmd, earfcn as u64);
            cmd.append(",");
            push_decimal(&mut cmd, scs);
            cmd.append(",");
            push_decimal(&mut cmd, b as u64);
            ask(&cmd, replies)
        } else {
            let mut cmd = "AT+QNWLOCK=\"common/lte\",1,".to_owned();
            push_decimal(&mut cmd, earfcn as u64);
            cmd.append(",");
            push_decimal(&mut cmd, pci as u64);
            ask(&cmd, replies)
        }
    }

    /// Runs a diagnostic query.
    pub fn get_diagnostics(
        &self,
        diag: DiagnosticType,
        replies: &Vec<Result<String, String>>,
    ) -> (r: Step<Result<String, String>>)
        ensures
            reply_step(r) == diagnostics_step(diag, reply_views(replies@)),
    {
        match diag {
            DiagnosticType::Neighbour => ask("AT+QENG=\"neighbourcell\"", replies),
            DiagnosticType::Qlts => {
                if replies.len() == 0 {
                    return Step::Send(send_at_command_inner("AT+QLTS=2"));
                }
                if replies[0].is_ok() {
                    return Step::Done(copy_reply(&replies[0]));
                }
                if replies.len() == 1 {
                    return Step::Send(send_at_command_inner("AT+QLTS"));
                }
                Step::Done(copy_reply(&replies[1]))
            },
            DiagnosticType::MbnList => ask("AT+QMBNCFG=\"List\"", replies),
            DiagnosticType::AutoSelQuery => ask("AT+QMBNCFG=\"AutoSel\"", replies),
        }
    }

    /// Polls the modem once.
    pub fn poll_telemetry(
        &self,
        replies: &Vec<Result<String, String>>,
    ) -> (r: Step<TelemetryData>)
        ensures
            match r {
                Step::Send(c) => poll_step(reply_views(replies@)) == Step::<
                    TelemetryData<Seq<char>>,
                    Seq<char>,
                >::Send(c@),
                Step::Done(t) => poll_step(reply_views(replies@)) == Step::<
                    TelemetryData<Seq<char>>,
                    Seq<char>,
                >::Done(t@),
            },
    {
        if replies.len() < 6 {
            return Step::Send(send_at_command_inner(command_of_poll(replies.len())));
        }
        let ghost views = reply_views(replies@);
        assert(views[5] == reply_view(replies@[5]));
        let mut traffic = read_traffic_value(&replies[5]);
        if traffic.is_none() {
            if replies.len() == 6 {
                return Step::Send(send_at_command_inner("AT+QGDAT?"));
            }
            assert(views[6] == reply_view(replies@[6]));
            traffic = read_traffic_value(&replies[6]);
        }
        let mut t = read_polled(replies);
        t.traffic_stats = traffic;
        Step::Done(t)
    }

    /// Reads what does not change.
    pub fn read_static_info(
        &self,
        replies: &Vec<Result<String, String>>,
    ) -> (r: Step<StaticInfo>)
        ensures
            match r {
                Step::Send(c) => static_step(reply_views(replies@)) == Step::<
                    StaticInfo<Seq<char>>,
                    Seq<char>,
                >::Send(c@),
                Step::Done(s) => static_step(reply_views(replies@)) == Step::<
                    StaticInfo<Seq<char>>,
                    Seq<char>,
                >::Done(s@),
            },
    {
        if replies.len() == 0 {
            return Step::Send(send_at_command_inner("AT+CGMR"));
        }
        if replies.len() == 1 {
            return Step::Send(send_at_command_inner("AT+QUIMSLOT?"));
        }
        let (provider, used) = match fetch_network_provider(replies, 2) {
            Step::Send(c) => {
                return Step::Send(c);
            },
            Step::Done(found) => found,
        };
        if replies.len() == 2 + used {
            return Step::Send(send_at_command_inner("AT+CGDCONT?"));
        }
        Step::Done(
            StaticInfo {
                firmware_version: value_or(send_at_get_line(&replies[0]), "NA"),
                active_sim: read_slot_value(&replies[1]),
                network_provider: provider,
                apn: read_apn_value(&replies[2 + used]),
            },
        )
    }

    /// The name of the module family.
    pub fn device_name(&self) -> (r: &'static str)
        ensures
            r@ == self.profile.name@,
    {
        self.profile.name
    }

    /// Sets the USB network mode.
    pub fn set_usb_net_mode(
        &self,
        mode: u8,
        replies: &Vec<Result<String, String>>,
    ) -> (r: Step<Result<String, String>>)
        ensures
            reply_step(r) == usbnet_step(mode, reply_views(replies@)),
    {
        if mode > 5 {
            return Step::Done(
                Err(
                    "不支持的 USB 网络模式，有效值为 0(RMNET), 1(ECM), 2(MBIM), 3(RNDIS), 4(NCM/SDX55), 5(NCM/SDX62)".to_owned(),
                ),
            );
        }
        ask(&concat2("AT+QCFG=\"usbnet\",", &decimal_text(mode as u64)), replies)
    }

    /// Reads the USB network mode.
    pub fn get_usb_config(&self, replies: &Vec<Result<String, String>>) -> (r: Step<UsbConfig>)
        ensures
            match r {
                Step::Send(c) => usb_config_step(reply_views(replies@)) == Step::<
                    UsbConfig<Seq<char>>,
                    Seq<char>,
                >::Send(c@),
                Step::Done(u) => usb_config_step(reply_views(replies@)) == Step::<
                    UsbConfig<Seq<char>>,
                    Seq<char>,
                >::Done(u@),
            },
    {
        if replies.len() == 0 {
            return Step::Send(send_at_command_inner("AT+QCFG=\"usbnet\""));
        }
        match &replies[0] {
            Ok(resp) => {
                let mode: u8 = find_usbnet(resp);
                Step::Done(
                    UsbConfig {
                        usbnet_mode: mode,
                        usbnet_name: name_of_usbnet(mode).to_owned(),
                        usbnet_supported: true,
                    },
                )
            },
            Err(_) => Step::Done(
                UsbConfig {
                    usbnet_mode: 0,
                    usbnet_name: "N/A (指令不支持)".to_owned(),
                    usbnet_supported: false,
                },
            ),
        }
    }

    /// Selects a SIM slot.
    pub fn set_sim_slot(
        &self,
        slot: u32,
        replies: &Vec<Result<String, String>>,
    ) -> (r: Step<Result<String, String>>)
        ensures
            reply_step(r) == slot_step(slot, reply_views(replies@)),
    {
        if slot != 1 && slot != 2 {
            return Step::Done(
                Err(concat2("无效的 SIM 卡槽，仅支持 1/2: ", &decimal_text(slot as u64))),
            );
        }
        ask(&concat2("AT+QUIMSLOT=", &decimal_text(slot as u64)), replies)
    }

    /// Lists the carrier configurations.
    pub fn get_mbn_list(
        &self,
        replies: &Vec<Result<String, String>>,
    ) -> (r: Step<Result<Vec<QmbncfgEntry>, String>>)
        ensures
            mbn_step(r) == mbn_list_step(reply_views(replies@)),
    {
        if replies.len() == 0 {
            return Step::Send(send_at_command_inner("AT+QMBNCFG=\"List\""));
        }
        match &replies[0] {
            Ok(resp) => {
                let entries = read_mbn_entries(resp);
                assert(mbn_views(entries@).len() == entries@.len());
                if entries.len() == 0 {
                    Step::Done(Err(concat2("未解析到 MBN 列表: ", trim(resp))))
                } else {
                    Step::Done(Ok(entries))
                }
            },
            Err(e) => Step::Done(Err(e.clone())),
        }
    }

    /// Selects a carrier configuration.
    pub fn set_mbn(
        &self,
        name: &str,
        replies: &Vec<Result<String, String>>,
    ) -> (r: Step<Result<String, String>>)
        ensures
            reply_step(r) == set_mbn_step(name@, reply_views(replies@)),
    {
        let name = sanitize_at_param(name);
        if name.as_str().is_empty() {
            return Step::Done(Err("MBN 名称不能为空".to_owned()));
        }
        ask(&concat2("AT+QMBNCFG=\"Select\",", &quote(&name)), replies)
    }
}

/// What `r` means where a script ends with a list of carrier configurations.
pub open spec fn mbn_step(
    r: Step<Result<Vec<QmbncfgEntry>, String>>,
) -> Step<Result<Seq<QmbncfgEntry<Seq<char>>>, Seq<char>>, Seq<char>> {
    match r {
        Step::Send(c) => Step::Send(c@),
        Step::Done(Ok(v)) => Step::Done(Ok(mbn_views(v@))),
        Step::Done(Err(e)) => Step::Done(Err(e@)),
    }
}

// ---------------------------------------------------------------------------
// Laws
// ---------------------------------------------------------------------------

/// Every script ends: sending a message after at most five replies, describing the module after
/// thirteen, a poll after at most seven and reading what does not change after at most six.
pub proof fn law_scripts_end(
    recipient: Seq<char>,
    message: Seq<char>,
    replies: Seq<Reply<Seq<char>>>,
)
    ensures
        replies.len() >= 5 ==> sms_step(recipient, message, replies) is Done,
        replies.len() >= 13 ==> device_info_step(replies) is Done,
        replies.len() >= 7 ==> poll_step(replies) is Done,
        replies.len() >= 6 ==> static_step(replies) is Done,
{
}

/// Once a UCS-2 message has been handed over, the coding scheme is set back, whether or not the
/// message was taken; and the result is whether it was.
pub proof fn law_coding_scheme_is_reset(
    recipient: Seq<char>,
    message: Seq<char>,
    replies: Seq<Reply<Seq<char>>>,
    reset: Reply<Seq<char>>,
)
    requires
        replies.len() == 4,
        sms_step(recipient, message, replies.take(3)) == Step::<bool, Seq<char>>::Send(
            message_command(sms_command(recipient), ucs2_hex(sms_body(message)), None),
        ),
        goes_as_ucs2(sms_body(message)),
    ensures
        sms_step(recipient, message, replies) == Step::<bool, Seq<char>>::Send(
            plain("AT+CSMP=17,167,0,0"@),
        ),
        sms_step(recipient, message, replies.push(reset)) == Step::<bool, Seq<char>>::Done(
            replies[3] is Ok,
        ),
{
    let three = replies.take(3);
    assert(three[0] == replies[0] && three[1] == replies[1] && three[2] == replies[2]);
    let five = replies.push(reset);
    assert(five[0] == replies[0] && five[1] == replies[1] && five[2] == replies[2] && five[3]
        == replies[3]);
    reveal_strlit("AT+CMGF=1");
}

/// A preparation that fails ends the sending of a message without handing it over, at the first
/// command for plain text and at any of the first three for UCS-2.
pub proof fn law_failed_preparation_sends_nothing(
    recipient: Seq<char>,
    message: Seq<char>,
    replies: Seq<Reply<Seq<char>>>,
    i: int,
)
    requires
        0 <= i < replies.len(),
        replies[i] is Err,
        i == 0 || (i < 3 && goes_as_ucs2(sms_body(message))),
    ensures
        sms_step(recipient, message, replies) == Step::<bool, Seq<char>>::Done(false),
{
}

/// A command that could not be run is recognized as failed by the text that stands for it.
pub proof fn law_failed_command_is_seen(cmd: Seq<char>, e: Seq<char>)
    ensures
        raw_at_step(cmd, seq![Err::<Seq<char>, Seq<char>>(e)]) == Step::<Seq<char>, Seq<char>>::Done(
            "ERROR: "@ + e,
        ),
        exec_failed("ERROR: "@ + e),
{
    reveal_strlit("ERROR: ");
    reveal_strlit("ERROR");
    let t = "ERROR: "@ + e;
    assert(!is_space(t[0]));
    assert(trimmed_start(t) == t);
    assert("ERROR"@.is_prefix_of(t));
}

/// What is refused sends no command, whatever was replied before.
pub proof fn law_refusals_send_nothing(
    mode: Seq<char>,
    usb_mode: u8,
    slot: u32,
    name: Seq<char>,
    replies: Seq<Reply<Seq<char>>>,
)
    ensures
        mode_command(mode) is None ==> mode_step(mode, replies) is Done,
        usb_mode > 5 ==> usbnet_step(usb_mode, replies) is Done,
        slot != 1 && slot != 2 ==> slot_step(slot, replies) is Done,
        at_param(name).len() == 0 ==> set_mbn_step(name, replies) is Done,
{
}

} // verus!
