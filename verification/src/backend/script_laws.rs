//! What the scripts of several commands make of the replies.

use vstd::prelude::*;

use crate::actor::telemetry::no_telemetry;
use crate::at::builder::{at_param, sms_body, ucs2_hex};
use crate::at::line::{parsed_line, ParsedLine};
use crate::at::line_laws::{
    fit_fields, law_context_line, law_lte_traffic_line, law_nr_traffic_line, law_slot_line,
    law_card_state_line, nth, response_line,
};
use crate::at::parser::{
    carrier_entries, first_ipv4, first_ipv6, first_temperature, net_status, serving_cells,
    signal_quality, with_cells, with_entries,
};
use crate::at::utils::byte_text;
use crate::backend::command_laws::sends;
use crate::backend::modem::{
    apn_on, apn_value, data_apn_on, device_info_step, first_apn, first_data_apn, first_sim_state,
    first_slot, first_traffic, goes_as_ucs2, mbn_entries, mbn_list_step, poll_step, sim_state_on,
    slot_on, slot_value, sms_step, static_step, traffic_on, traffic_value, usb_config_step,
    usbnet_mode, usbnet_name, usbnet_on,
};
use crate::backend::process::reply_value;
use crate::backend::query::{bands_step, provider_step};
use crate::backend::{AtCommand, Reply, Step};
use crate::number::{decimal, is_digit, law_decimal_round_trip, lemma_decimal};
use crate::text::{law_split_join, lines_of, mentions, occurs_at, pieces, trimmed};

verus! {

// ---------------------------------------------------------------------------
// Messages
// ---------------------------------------------------------------------------

/// Which messages go out as plain text: those of printable ASCII characters other than the grave
/// accent, line feeds, carriage returns and form feeds.
pub proof fn law_plain_messages(text: Seq<char>)
    ensures
        !goes_as_ucs2(text) <==> forall|i: int|
            0 <= i < text.len() ==> {
                let c = #[trigger] text[i];
                (' ' <= c <= '~' && c != '`') || c == '\n' || c == '\r' || c == '\u{c}'
            },
{
}

/// Plain text is entered as it is, without the characters that would end it, at the prompt of the
/// command for its recipient, which has thirty seconds. It was sent exactly where the module took
/// it.
pub proof fn law_plain_message_script(
    recipient: Seq<char>,
    message: Seq<char>,
    ready: Seq<char>,
    taken: Reply<Seq<char>>,
)
    requires
        !goes_as_ucs2(sms_body(message)),
    ensures
        ({
            let ok = Ok::<Seq<char>, Seq<char>>(ready);
            &&& sends(sms_step(recipient, message, Seq::empty()), "AT+CMGF=1"@)
            &&& sms_step(recipient, message, seq![ok]) == Step::<bool, Seq<char>>::Send(
                AtCommand {
                    cmd: "AT+CMGS=\""@ + at_param(recipient) + "\""@,
                    timeout_secs: 30,
                    sms_message: Some(sms_body(message)),
                    hex_body: None,
                },
            )
            &&& sms_step(recipient, message, seq![ok, taken]) == Step::<bool, Seq<char>>::Done(
                taken is Ok,
            )
        }),
{
    lemma_recipient(recipient);
}

proof fn lemma_recipient(recipient: Seq<char>)
    ensures
        crate::backend::modem::sms_command(recipient) == "AT+CMGS=\""@ + at_param(recipient) + "\""@,
{
    reveal_strlit("AT+CMGS=");
    reveal_strlit("AT+CMGS=\"");
    reveal_strlit("\"");
    let r = at_param(recipient);
    assert("AT+CMGS="@ + ("\""@ + r + "\""@) == "AT+CMGS=\""@ + r + "\""@);
}

/// Other text is entered as UCS-2 digits, after the alphabet and the coding scheme for it have
/// been set; the scheme is set back afterwards. It was sent exactly where the module took it.
pub proof fn law_ucs2_message_script(
    recipient: Seq<char>,
    message: Seq<char>,
    a: Seq<char>,
    b: Seq<char>,
    c: Seq<char>,
    taken: Reply<Seq<char>>,
    reset: Reply<Seq<char>>,
)
    requires
        goes_as_ucs2(sms_body(message)),
    ensures
        ({
            let x = Ok::<Seq<char>, Seq<char>>(a);
            let y = Ok::<Seq<char>, Seq<char>>(b);
            let z = Ok::<Seq<char>, Seq<char>>(c);
            &&& sends(sms_step(recipient, message, Seq::empty()), "AT+CMGF=1"@)
            &&& sends(sms_step(recipient, message, seq![x]), "AT+CSCS=\"GSM\""@)
            &&& sends(sms_step(recipient, message, seq![x, y]), "AT+CSMP=17,167,0,8"@)
            &&& sms_step(recipient, message, seq![x, y, z]) == Step::<bool, Seq<char>>::Send(
                AtCommand {
                    cmd: "AT+CMGS=\""@ + at_param(recipient) + "\""@,
                    timeout_secs: 30,
                    sms_message: Some(ucs2_hex(sms_body(message))),
                    hex_body: None,
                },
            )
            &&& sends(sms_step(recipient, message, seq![x, y, z, taken]), "AT+CSMP=17,167,0,0"@)
            &&& sms_step(recipient, message, seq![x, y, z, taken, reset]) == Step::<
                bool,
                Seq<char>,
            >::Done(taken is Ok)
        }),
{
    lemma_recipient(recipient);
}

// ---------------------------------------------------------------------------
// Values on the lines of a reply
// ---------------------------------------------------------------------------

/// Of several lines the first one that gives a value counts, for every value that is looked for.
pub proof fn law_first_line_counts(line: Seq<char>, rest: Seq<Seq<char>>)
    ensures
        ({
            let ls = seq![line] + rest;
            &&& first_sim_state(ls) == (if sim_state_on(line) is Some {
                sim_state_on(line)
            } else {
                first_sim_state(rest)
            })
            &&& first_traffic(ls) == (if traffic_on(line) is Some {
                traffic_on(line)
            } else {
                first_traffic(rest)
            })
            &&& first_slot(ls) == (if slot_on(line) is Some {
                slot_on(line)
            } else {
                first_slot(rest)
            })
            &&& first_apn(ls) == (if apn_on(line) is Some {
                apn_on(line)
            } else {
                first_apn(rest)
            })
            &&& first_data_apn(ls) == (if data_apn_on(line) is Some {
                data_apn_on(line)
            } else {
                first_data_apn(rest)
            })
            &&& usbnet_mode(ls) == (match usbnet_on(line) {
                Some(mode) => mode,
                None => usbnet_mode(rest),
            })
        }),
        first_sim_state(Seq::empty()) is None,
        first_traffic(Seq::empty()) is None,
        first_slot(Seq::empty()) is None,
        first_apn(Seq::empty()) is None,
        first_data_apn(Seq::empty()) is None,
        usbnet_mode(Seq::empty()) == 0,
{
    let ls = seq![line] + rest;
    assert(ls[0] == line);
    assert(ls.skip(1) == rest);
}

/// The state of the SIM is what its line says, unless that is nothing.
pub proof fn law_card_state_is_found(v: Seq<Seq<char>>, q: Seq<bool>)
    requires
        fit_fields(v, q),
    ensures
        v[0].len() > 0 ==> sim_state_on(response_line("+CPIN:"@, v, q)) == Some(v[0]),
        v[0].len() == 0 ==> sim_state_on(response_line("+CPIN:"@, v, q)) is None,
{
    law_card_state_line(v, q);
}

/// The traffic is shown with what was sent before what was received, for NR and LTE alike.
pub proof fn law_traffic_is_found(v: Seq<Seq<char>>, q: Seq<bool>, sent: u64, received: u64)
    requires
        fit_fields(v, q),
        v.len() > 1,
        v[0] == decimal(sent as nat),
        v[1] == decimal(received as nat),
    ensures
        traffic_on(response_line("+QGDNRCNT:"@, v, q)) == Some(
            "TX "@ + byte_text(sent as nat) + " / RX "@ + byte_text(received as nat),
        ),
        traffic_on(response_line("+QGDAT:"@, v, q)) == Some(
            "TX "@ + byte_text(sent as nat) + " / RX "@ + byte_text(received as nat),
        ),
{
    law_nr_traffic_line(v, q, sent, received);
    law_lte_traffic_line(v, q, sent, received);
}

/// The SIM slot is shown by its number.
pub proof fn law_slot_is_found(v: Seq<Seq<char>>, q: Seq<bool>, slot: u32)
    requires
        fit_fields(v, q),
        v[0] == decimal(slot as nat),
    ensures
        slot_on(response_line("+QUIMSLOT:"@, v, q)) == Some("SIM "@ + decimal(slot as nat)),
{
    law_slot_line(v, q, slot);
}

/// The access point of a context is its third field; only one that carries data counts as such.
pub proof fn law_access_point_is_found(v: Seq<Seq<char>>, q: Seq<bool>, cid: u32)
    requires
        fit_fields(v, q),
        v[0] == decimal(cid as nat),
    ensures
        ({
            let line = response_line("+CGDCONT:"@, v, q);
            &&& nth(v, 2).len() > 0 ==> apn_on(line) == Some(nth(v, 2))
            &&& nth(v, 2).len() == 0 ==> apn_on(line) is None
            &&& crate::at::line::is_data_apn(nth(v, 2)) ==> data_apn_on(line) == Some(nth(v, 2))
            &&& !crate::at::line::is_data_apn(nth(v, 2)) ==> data_apn_on(line) is None
        }),
{
    law_context_line(v, q, cid);
}

/// The access point that is shown is the first one for data; without one, the first one of any
/// kind; without any, or without a reply, none.
pub proof fn law_access_point_shown(text: Seq<char>, e: Seq<char>)
    ensures
        first_data_apn(lines_of(text)) matches Some(apn) ==> apn_value(Ok(text)) == apn,
        first_data_apn(lines_of(text)) is None ==> (first_apn(lines_of(text)) matches Some(apn)
            ==> apn_value(Ok(text)) == apn),
        first_data_apn(lines_of(text)) is None && first_apn(lines_of(text)) is None ==> apn_value(
            Ok(text),
        ) == "N/A"@,
        apn_value(Err(e)) == "N/A"@,
        first_slot(lines_of(text)) matches Some(slot) ==> slot_value(Ok(text)) == slot,
        first_slot(lines_of(text)) is None ==> slot_value(Ok(text)) == "NA"@,
        slot_value(Err(e)) == "NA"@,
{
}

// ---------------------------------------------------------------------------
// USB network mode and carrier configurations
// ---------------------------------------------------------------------------

proof fn lemma_two_pieces(a: Seq<char>, b: Seq<char>)
    requires
        !a.contains(','),
        !b.contains(','),
    ensures
        pieces(a + seq![','] + b, ',') == seq![a, b],
{
    let parts = seq![a, b];
    law_split_join(parts, ',');
    assert(parts.drop_last() == seq![a]);
    reveal_with_fuel(crate::text::joined, 3);
}

proof fn lemma_usb_line(d: Seq<char>)
    requires
        !d.contains(','),
    ensures
        ({
            let line = "+QCFG: \"usbnet\","@ + d;
            &&& mentions(line, "+QCFG: \"usbnet\","@)
            &&& pieces(line, ',') == seq!["+QCFG: \"usbnet\""@, d]
        }),
{
    let p = "+QCFG: \"usbnet\","@;
    let head = "+QCFG: \"usbnet\""@;
    let line = p + d;
    assert(occurs_at(line, p, 0)) by {
        assert(line.subrange(0, p.len() as int) == p);
    }
    assert(p == head + seq![',']) by {
        reveal_strlit("+QCFG: \"usbnet\",");
        reveal_strlit("+QCFG: \"usbnet\"");
    }
    assert(!head.contains(',')) by {
        reveal_strlit("+QCFG: \"usbnet\"");
    }
    lemma_two_pieces(head, d);
}

proof fn lemma_number_text(n: nat)
    ensures
        !decimal(n).contains(','),
        trimmed(decimal(n)) == decimal(n),
{
    let d = decimal(n);
    lemma_decimal(n);
    assert forall|i: int| 0 <= i < d.len() implies d[i] != ',' by {
        assert(is_digit(d[i]));
    }
    assert(is_digit(d[0]) && is_digit(d[d.len() - 1]));
}

/// The USB network mode is the number in its line.
pub proof fn law_usb_mode_is_found(mode: u8)
    ensures
        usbnet_on("+QCFG: \"usbnet\","@ + decimal(mode as nat)) == Some(mode as nat),
{
    lemma_number_text(mode as nat);
    lemma_usb_line(decimal(mode as nat));
    law_decimal_round_trip(mode as nat, 255);
}

/// Every USB network mode has its own name.
pub proof fn law_usb_mode_names()
    ensures
        usbnet_name(0) == "RMNET (QMI)"@,
        usbnet_name(1) == "ECM (Linux/Mac免驱)"@,
        usbnet_name(2) == "MBIM (Win10/11原生)"@,
        usbnet_name(3) == "RNDIS (Windows免驱)"@,
        usbnet_name(4) == "NCM (SDX55)"@,
        usbnet_name(5) == "NCM (SDX62 高速网卡)"@,
        forall|mode: nat| mode > 5 ==> #[trigger] usbnet_name(mode) == "Unknown"@,
{
}

/// What is shown of the USB network: the mode in the reply by number and name; a module that does
/// not answer has no such mode.
pub proof fn law_usb_config(text: Seq<char>, e: Seq<char>)
    ensures
        sends(usb_config_step(Seq::empty()), "AT+QCFG=\"usbnet\""@),
        usb_config_step(seq![Ok::<Seq<char>, Seq<char>>(text)]) matches Step::Done(u) && ({
            &&& u.usbnet_supported
            &&& u.usbnet_mode as nat == usbnet_mode(lines_of(text))
            &&& u.usbnet_name == usbnet_name(u.usbnet_mode as nat)
        }),
        usb_config_step(seq![Err::<Seq<char>, Seq<char>>(e)]) matches Step::Done(u) && ({
            &&& !u.usbnet_supported
            &&& u.usbnet_mode == 0
            &&& u.usbnet_name == "N/A (指令不支持)"@
        }),
{
    lemma_usb_mode_fits(lines_of(text));
}

proof fn lemma_usb_mode_fits(ls: Seq<Seq<char>>)
    ensures
        usbnet_mode(ls) <= 255,
    decreases ls.len(),
{
    if ls.len() > 0 {
        lemma_usb_mode_fits(ls.skip(1));
    }
}

/// The carrier configurations are those of the lines, in their order; a reply without any is a
/// failure.
pub proof fn law_configurations(a: Seq<Seq<char>>, b: Seq<Seq<char>>, line: Seq<char>)
    ensures
        mbn_entries(a + b) == mbn_entries(a) + mbn_entries(b),
        parsed_line(line) matches Some(ParsedLine::Qmbncfg(e)) ==> mbn_entries(seq![line]) == seq![e],
        !(parsed_line(line) matches Some(ParsedLine::Qmbncfg(_))) ==> mbn_entries(seq![line]).len() == 0,
    decreases b.len(),
{
    reveal_with_fuel(mbn_entries, 2);
    let one = seq![line];
    assert(one.drop_last() == Seq::<Seq<char>>::empty());
    assert(one.last() == line);
    if b.len() == 0 {
        assert(a + b == a);
    } else {
        law_configurations(a, b.drop_last(), line);
        assert((a + b).drop_last() == a + b.drop_last());
        assert((a + b).last() == b.last());
    }
}

/// Listing the configurations asks once; it ends with all that the reply lists, or, where that is
/// none, with a failure that shows the reply.
pub proof fn law_configuration_list(text: Seq<char>, e: Seq<char>)
    ensures
        sends(mbn_list_step(Seq::empty()), "AT+QMBNCFG=\"List\""@),
        mbn_list_step(seq![Ok::<Seq<char>, Seq<char>>(text)]) matches Step::Done(r) && ({
            &&& mbn_entries(lines_of(text)).len() > 0 ==> r == Ok::<_, Seq<char>>(
                mbn_entries(lines_of(text)),
            )
            &&& mbn_entries(lines_of(text)).len() == 0 ==> r is Err && r->Err_0
                == "未解析到 MBN 列表: "@ + trimmed(text)
        }),
        mbn_list_step(seq![Err::<Seq<char>, Seq<char>>(e)]) matches Step::Done(r) && r is Err
            && r->Err_0 == e,
{
}

// ---------------------------------------------------------------------------
// The description of the module
// ---------------------------------------------------------------------------

/// The value of a reply, or another text where it has none.
pub open spec fn value_or(r: Reply<Seq<char>>, other: Seq<char>) -> Seq<char> {
    match reply_value(r) {
        Some(v) => v,
        None => other,
    }
}

/// The queries for the description of the module go out one by one, in this order, whatever came
/// back before; those for the bands follow.
pub proof fn law_description_queries(r: Seq<Reply<Seq<char>>>)
    requires
        r.len() >= 11,
    ensures
        sends(device_info_step(r.take(0)), "AT+CGMI"@),
        sends(device_info_step(r.take(1)), "AT+CGMM"@),
        sends(device_info_step(r.take(2)), "AT+CGMR"@),
        sends(device_info_step(r.take(3)), "AT+CGSN"@),
        sends(device_info_step(r.take(4)), "AT+CPIN?"@),
        sends(device_info_step(r.take(5)), "AT+CIMI"@),
        sends(device_info_step(r.take(6)), "AT+QCCID"@),
        sends(device_info_step(r.take(7)), "AT+CNUM"@),
        sends(device_info_step(r.take(8)), "AT+CREG?"@),
        sends(device_info_step(r.take(9)), "AT+CSQ"@),
        sends(device_info_step(r.take(10)), "AT+QTEMP"@),
        r.len() == 11 ==> sends(device_info_step(r), "AT+QENG=\"servingcell\""@),
        r.len() == 12 ==> sends(device_info_step(r), "AT+QCAINFO"@),
{
}

/// Every part of the description comes from the reply to its own query, and shows as unknown where
/// that has no value.
pub proof fn law_description(r: Seq<Reply<Seq<char>>>)
    requires
        r.len() == 13,
    ensures
        device_info_step(r) matches Step::Done(d) && ({
            let unknown = "Unknown"@;
            let line = |k: int| parsed_line(value_or(r[k], Seq::empty()));
            &&& d.manufacturer == value_or(r[0], unknown)
            &&& d.model == value_or(r[1], unknown)
            &&& d.module_type == value_or(r[1], unknown)
            &&& d.firmware == value_or(r[2], unknown)
            &&& d.imei == value_or(r[3], unknown)
            &&& d.serial == value_or(r[3], unknown)
            &&& d.hw_version == unknown
            &&& d.sim_status == (match line(4) {
                Some(ParsedLine::Cpin(c)) => c.status,
                _ => unknown,
            })
            &&& d.imsi == (match line(5) {
                Some(ParsedLine::Cimi(s)) => s,
                Some(ParsedLine::Other(s)) => trimmed(s),
                _ => Seq::empty(),
            })
            &&& d.iccid == (match line(6) {
                Some(ParsedLine::Qccid(s)) => s,
                _ => unknown,
            })
            &&& d.phone == (match line(7) {
                Some(ParsedLine::Cnum(c)) => c.number,
                _ => Seq::empty(),
            })
            &&& reply_value(r[8]) is Some ==> d.net_status == net_status(
                lines_of(value_or(r[8], unknown)),
            )
            &&& reply_value(r[8]) is None ==> d.net_status == unknown
            &&& reply_value(r[9]) is Some ==> d.signal_quality == signal_quality(
                lines_of(value_or(r[9], unknown)),
            )
            &&& reply_value(r[9]) is None ==> d.signal_quality == unknown
            &&& reply_value(r[10]) is Some ==> d.temperature == (match first_temperature(
                lines_of(value_or(r[10], unknown)),
            ) {
                Some(t) => t,
                None => "-- °C"@,
            })
            &&& reply_value(r[10]) is None ==> d.temperature == "-- °C"@
            &&& bands_step(r.skip(11)) == Step::<Seq<char>, Seq<char>>::Done(d.bands)
        }),
{
    let e = Seq::<char>::empty();
    assert(parsed_line(e) is None) by {
        assert(trimmed(e) == e);
    }
}

// ---------------------------------------------------------------------------
// Polls
// ---------------------------------------------------------------------------

/// The queries of a poll, in order. The traffic of LTE is asked for exactly where the reply for NR
/// has none.
pub proof fn law_poll_queries(r: Seq<Reply<Seq<char>>>)
    requires
        r.len() >= 7,
    ensures
        sends(poll_step(r.take(0)), "AT+CGPADDR"@),
        sends(poll_step(r.take(1)), "AT+QENG=\"servingcell\""@),
        sends(poll_step(r.take(2)), "AT+QCAINFO"@),
        sends(poll_step(r.take(3)), "AT+CPIN?"@),
        sends(poll_step(r.take(4)), "AT+QTEMP"@),
        sends(poll_step(r.take(5)), "AT+QGDNRCNT?"@),
        traffic_value(r[5]) is None ==> sends(poll_step(r.take(6)), "AT+QGDAT?"@),
        traffic_value(r[5]) is Some ==> poll_step(r.take(6)) is Done,
        poll_step(r) is Done,
{
}

/// The lines of a reply; none where there is no reply.
pub open spec fn reply_lines(r: Reply<Seq<char>>) -> Seq<Seq<char>> {
    match r {
        Ok(text) => lines_of(text),
        Err(_) => Seq::empty(),
    }
}

/// Every finding of a poll comes from the reply to its own query. The carriers are those of the
/// query for them, where it names any, else the serving cells.
pub proof fn law_poll_findings(r: Seq<Reply<Seq<char>>>)
    requires
        r.len() == 7,
    ensures
        poll_step(r) matches Step::Done(t) && ({
            let cells = with_cells(serving_cells(reply_lines(r[1])), no_telemetry());
            let all = with_entries(carrier_entries(reply_lines(r[2])), cells);
            &&& t.ipv4 == first_ipv4(reply_lines(r[0]), None)
            &&& t.ipv6 == first_ipv6(reply_lines(r[0]), None)
            &&& t.signal_percentage == cells.signal_percentage
            &&& t.mccmnc == cells.mccmnc
            &&& t.network_mode == cells.network_mode
            &&& t.assessment == cells.assessment
            &&& t.cell_id == cells.cell_id
            &&& t.enb_id == cells.enb_id
            &&& t.tac == cells.tac
            &&& t.ss_rsrp == cells.ss_rsrp
            &&& t.ss_rsrq == cells.ss_rsrq
            &&& t.sinr == cells.sinr
            &&& t.bands == all.bands
            &&& t.bandwidth == all.bandwidth
            &&& t.earfcn == all.earfcn
            &&& t.pci == all.pci
            &&& t.sim_status == first_sim_state(reply_lines(r[3]))
            &&& t.temperature == first_temperature(reply_lines(r[4]))
            &&& first_traffic(reply_lines(r[5])) is Some ==> t.traffic_stats == first_traffic(
                reply_lines(r[5]),
            )
            &&& first_traffic(reply_lines(r[5])) is None ==> t.traffic_stats == first_traffic(
                reply_lines(r[6]),
            )
            &&& t.internet_connection is None
            &&& t.active_sim is None
            &&& t.network_provider is None
            &&& t.apn is None
            &&& t.uptime is None
            &&& t.updated is None
        }),
{
    let none = Seq::<Seq<char>>::empty();
    assert(serving_cells(none).len() == 0);
    assert(carrier_entries(none).len() == 0);
}

// ---------------------------------------------------------------------------
// What does not change
// ---------------------------------------------------------------------------

/// The firmware and the slot are asked for first, then the operator, then the access point; each
/// is shown from the reply to its own query.
pub proof fn law_static_queries(
    firmware: Reply<Seq<char>>,
    slot: Reply<Seq<char>>,
    rest: Seq<Reply<Seq<char>>>,
    contexts: Reply<Seq<char>>,
)
    ensures
        sends(static_step(Seq::empty()), "AT+CGMR"@),
        sends(static_step(seq![firmware]), "AT+QUIMSLOT?"@),
        ({
            let r = seq![firmware, slot] + rest;
            match provider_step(rest) {
                Step::Send(c) => static_step(r) matches Step::Send(d) && c == d,
                Step::Done((name, used)) => used == rest.len() ==> {
                    &&& sends(static_step(r), "AT+CGDCONT?"@)
                    &&& static_step(r.push(contexts)) matches Step::Done(s) && ({
                        &&& s.firmware_version == value_or(firmware, "NA"@)
                        &&& s.active_sim == slot_value(slot)
                        &&& s.network_provider == name
                        &&& s.apn == apn_value(contexts)
                    })
                },
            }
        }),
{
    let r = seq![firmware, slot] + rest;
    assert(r.skip(2) == rest);
    assert(r[0] == firmware && r[1] == slot);
    if provider_step(rest) is Done {
        let d = provider_step(rest)->Done_0;
        if d.1 == rest.len() {
            let s = r.push(contexts);
            assert(s.skip(2) == rest.push(contexts));
            assert(s[0] == firmware && s[1] == slot && s[s.len() - 1] == contexts);
            let more = rest.push(contexts);
            assert(more[0] == rest[0]);
            if rest.len() > 1 {
                assert(more[1] == rest[1]);
            }
            if rest.len() > 2 {
                assert(more[2] == rest[2]);
            }
        }
    }
}

} // verus!
