//! What messages, pages and files are answered with.

use vstd::prelude::*;

use crate::actor::action::{AtAction, DiagnosticType};
use crate::number::{decimal, law_decimal_round_trip, parsed_uint};
use crate::web::ws::{get, request_of, Field, Payload, PayloadView, Scalar, WsRequest};

verus! {

// ---------------------------------------------------------------------------
// Messages
// ---------------------------------------------------------------------------

/// A message asks the modem for this.
pub open spec fn asks(action: Seq<char>, p: PayloadView, request: AtAction<Seq<char>>) -> bool {
    request_of(action, p) == WsRequest::Act(request)
}

/// The text under a name, or another text where there is none.
pub open spec fn text_at(p: PayloadView, name: Seq<char>, other: Seq<char>) -> Seq<char> {
    match get(p, name) {
        Some(Scalar::Text(s)) => s,
        _ => other,
    }
}

/// The truth value under a name, or another where there is none.
pub open spec fn bool_at(p: PayloadView, name: Seq<char>, other: bool) -> bool {
    match get(p, name) {
        Some(Scalar::Bool(b)) => b,
        _ => other,
    }
}

/// The number under a name, or another where there is none.
pub open spec fn uint_at(p: PayloadView, name: Seq<char>, other: u64) -> u64 {
    match get(p, name) {
        Some(Scalar::Uint(n)) => n,
        _ => other,
    }
}

/// The payload is this text.
pub open spec fn text_payload(s: Seq<char>) -> PayloadView {
    Payload::Single(Scalar::Text(s))
}

/// The payload is this number.
pub open spec fn uint_payload(n: u64) -> PayloadView {
    Payload::Single(Scalar::Uint(n))
}

/// The value under a name is that of the first field with this name; only objects have fields.
pub proof fn law_payload_fields(
    first: Field<Seq<char>>,
    rest: Seq<Field<Seq<char>>>,
    name: Seq<char>,
    p: PayloadView,
)
    ensures
        first.name == name ==> get(Payload::Object(seq![first] + rest), name) == Some(first.value),
        first.name != name ==> get(Payload::Object(seq![first] + rest), name) == get(
            Payload::Object(rest),
            name,
        ),
        get(Payload::Object(Seq::empty()), name) is None,
        p !is Object ==> get(p, name) is None,
{
    let all = seq![first] + rest;
    assert(all[0] == first);
    assert(all.skip(1) == rest);
}

/// What tells the names of messages apart: their length and two of their characters.
spec fn mark(s: Seq<char>) -> (nat, char, char) {
    (s.len(), s[0], s[5])
}

proof fn lemma_names_differ()
    ensures
        mark("set_view_state"@) == (14nat, 's', 'i'),
        mark("get_static_info"@) == (15nat, 'g', 't'),
        mark("get_backend_log"@) == (15nat, 'g', 'a'),
        mark("manual_at"@) == (9nat, 'm', 'l'),
        mark("read_imei"@) == (9nat, 'r', 'i'),
        mark("write_imei"@) == (10nat, 'w', '_'),
        mark("set_interval"@) == (12nat, 's', 'n'),
        mark("set_apn"@) == (7nat, 's', 'p'),
        mark("set_network_mode"@) == (16nat, 's', 'e'),
        mark("set_mode_pref"@) == (13nat, 's', 'o'),
        mark("net_connect"@) == (11nat, 'n', 'o'),
        mark("net_disconnect"@) == (14nat, 'n', 'i'),
        mark("network_scan"@) == (12nat, 'n', 'r'),
        mark("send_sms"@) == (8nat, 's', 's'),
        mark("get_sms_list"@) == (12nat, 'g', 'm'),
        mark("get_device_info"@) == (15nat, 'g', 'e'),
        mark("reboot"@) == (6nat, 'r', 't'),
        mark("factory_reset"@) == (13nat, 'f', 'r'),
        mark("flight_mode"@) == (11nat, 'f', 't'),
        mark("set_band_lock"@) == (13nat, 's', 'a'),
        mark("set_cell_lock"@) == (13nat, 's', 'e'),
        mark("get_diagnostics"@) == (15nat, 'g', 'i'),
        mark("set_usb_net_mode"@) == (16nat, 's', 's'),
        mark("get_usb_config"@) == (14nat, 'g', 's'),
        mark("set_sim_slot"@) == (12nat, 's', 'i'),
        mark("get_mbn_list"@) == (12nat, 'g', 'b'),
        mark("set_mbn"@) == (7nat, 's', 'b'),
        mark("mbn_autosel"@) == (11nat, 'm', 'u'),
        mark("mbn_deactivate"@) == (14nat, 'm', 'e'),
        mark("set_eth_config"@) == (14nat, 's', 't'),
        mark("set_ippt_config"@) == (15nat, 's', 'p'),
{
    reveal_strlit("set_view_state");
    reveal_strlit("get_static_info");
    reveal_strlit("get_backend_log");
    reveal_strlit("manual_at");
    reveal_strlit("read_imei");
    reveal_strlit("write_imei");
    reveal_strlit("set_interval");
    reveal_strlit("set_apn");
    reveal_strlit("set_network_mode");
    reveal_strlit("set_mode_pref");
    reveal_strlit("net_connect");
    reveal_strlit("net_disconnect");
    reveal_strlit("network_scan");
    reveal_strlit("send_sms");
    reveal_strlit("get_sms_list");
    reveal_strlit("get_device_info");
    reveal_strlit("reboot");
    reveal_strlit("factory_reset");
    reveal_strlit("flight_mode");
    reveal_strlit("set_band_lock");
    reveal_strlit("set_cell_lock");
    reveal_strlit("get_diagnostics");
    reveal_strlit("set_usb_net_mode");
    reveal_strlit("get_usb_config");
    reveal_strlit("set_sim_slot");
    reveal_strlit("get_mbn_list");
    reveal_strlit("set_mbn");
    reveal_strlit("mbn_autosel");
    reveal_strlit("mbn_deactivate");
    reveal_strlit("set_eth_config");
    reveal_strlit("set_ippt_config");
}

/// The messages about the viewer and the service itself: only `active` makes a viewer one who
/// watches.
pub proof fn law_viewer_messages(p: PayloadView, s: Seq<char>)
    ensures
        request_of("set_view_state"@, text_payload("active"@)) == WsRequest::<Seq<char>>::ViewState(
            true,
        ),
        s != "active"@ ==> request_of("set_view_state"@, text_payload(s)) == WsRequest::<
            Seq<char>,
        >::ViewState(false),
        !(p matches Payload::Single(Scalar::Text(_))) ==> request_of("set_view_state"@, p)
            == WsRequest::<Seq<char>>::ViewState(false),
        request_of("get_static_info"@, p) == WsRequest::<Seq<char>>::StaticInfo,
        request_of("get_backend_log"@, p) == WsRequest::<Seq<char>>::BackendLog,
{
    lemma_names_differ();
}

/// The messages that need nothing but their names.
pub proof fn law_plain_messages(p: PayloadView)
    ensures
        asks("read_imei"@, p, AtAction::ReadImei),
        asks("net_connect"@, p, AtAction::NetConnect(true)),
        asks("net_disconnect"@, p, AtAction::NetConnect(false)),
        asks("network_scan"@, p, AtAction::NetworkScan),
        asks("get_sms_list"@, p, AtAction::GetSmsList),
        asks("get_device_info"@, p, AtAction::GetDeviceInfo),
        asks("reboot"@, p, AtAction::Reboot),
        asks("factory_reset"@, p, AtAction::FactoryReset),
        asks("get_usb_config"@, p, AtAction::GetUsbConfig),
        asks("get_mbn_list"@, p, AtAction::GetMbnList),
        asks("mbn_deactivate"@, p, AtAction::DeactivateMbn),
{
    lemma_names_differ();
}

/// The messages with a single text: it is handed on as it is. The flight mode and the automatic
/// choice of a configuration are switched on by `1` and off by anything else. Without a text a
/// command is empty and the network mode is the automatic one.
pub proof fn law_text_messages(s: Seq<char>, p: PayloadView)
    ensures
        asks("manual_at"@, text_payload(s), AtAction::ManualAt(s)),
        asks("write_imei"@, text_payload(s), AtAction::WriteImei(s)),
        asks("set_network_mode"@, text_payload(s), AtAction::SetNetworkMode(s)),
        asks("set_mode_pref"@, text_payload(s), AtAction::SetNetworkMode(s)),
        asks("flight_mode"@, text_payload(s), AtAction::FlightMode(s == "1"@)),
        asks("mbn_autosel"@, text_payload(s), AtAction::SetMbnAutoSel(s == "1"@)),
        !(p matches Payload::Single(Scalar::Text(_))) ==> {
            &&& asks("manual_at"@, p, AtAction::ManualAt(Seq::empty()))
            &&& asks("write_imei"@, p, AtAction::WriteImei(Seq::empty()))
            &&& asks("set_network_mode"@, p, AtAction::SetNetworkMode("auto"@))
            &&& asks("set_mode_pref"@, p, AtAction::SetNetworkMode("auto"@))
            &&& asks("flight_mode"@, p, AtAction::FlightMode(false))
            &&& asks("mbn_autosel"@, p, AtAction::SetMbnAutoSel(false))
        },
{
    lemma_names_differ();
}

/// The diagnostics are asked for by either of two names each; any other name asks for nothing.
pub proof fn law_diagnostic_messages(s: Seq<char>)
    ensures
        asks(
            "get_diagnostics"@,
            text_payload("neighbour"@),
            AtAction::GetDiagnostics(DiagnosticType::Neighbour),
        ),
        asks(
            "get_diagnostics"@,
            text_payload("neighbor"@),
            AtAction::GetDiagnostics(DiagnosticType::Neighbour),
        ),
        asks(
            "get_diagnostics"@,
            text_payload("qlts"@),
            AtAction::GetDiagnostics(DiagnosticType::Qlts),
        ),
        asks(
            "get_diagnostics"@,
            text_payload("qlt"@),
            AtAction::GetDiagnostics(DiagnosticType::Qlts),
        ),
        asks(
            "get_diagnostics"@,
            text_payload("mbn_list"@),
            AtAction::GetDiagnostics(DiagnosticType::MbnList),
        ),
        asks(
            "get_diagnostics"@,
            text_payload("qmbncfg"@),
            AtAction::GetDiagnostics(DiagnosticType::MbnList),
        ),
        asks(
            "get_diagnostics"@,
            text_payload("autosel_query"@),
            AtAction::GetDiagnostics(DiagnosticType::AutoSelQuery),
        ),
        asks(
            "get_diagnostics"@,
            text_payload("autosel"@),
            AtAction::GetDiagnostics(DiagnosticType::AutoSelQuery),
        ),
        s != "neighbour"@ && s != "neighbor"@ && s != "qlts"@ && s != "qlt"@ && s != "mbn_list"@ && s
            != "qmbncfg"@ && s != "autosel_query"@ && s != "autosel"@ ==> request_of(
            "get_diagnostics"@,
            text_payload(s),
        ) == WsRequest::<Seq<char>>::Unknown,
{
    lemma_names_differ();
    reveal_strlit("neighbour");
    reveal_strlit("neighbor");
    reveal_strlit("qlts");
    reveal_strlit("qlt");
    reveal_strlit("mbn_list");
    reveal_strlit("qmbncfg");
    reveal_strlit("autosel_query");
    reveal_strlit("autosel");
    assert("neighbour"@.len() == 9 && "neighbor"@.len() == 8 && "qlts"@.len() == 4 && "qlt"@.len()
        == 3 && "mbn_list"@.len() == 8 && "qmbncfg"@.len() == 7 && "autosel_query"@.len() == 13
        && "autosel"@.len() == 7);
    assert("neighbor"@[0] == 'n' && "mbn_list"@[0] == 'm' && "qmbncfg"@[0] == 'q' && "autosel"@[0]
        == 'a');
}

/// The messages with a number, which may also come as text; the interval is three seconds and the
/// USB network mode 0 where none is given or it cannot be read.
pub proof fn law_number_messages(n: u64, mode: u8, s: Seq<char>, p: PayloadView)
    ensures
        asks("set_interval"@, uint_payload(n), AtAction::SetInterval(n)),
        asks("set_interval"@, text_payload(decimal(n as nat)), AtAction::SetInterval(n)),
        asks("set_usb_net_mode"@, uint_payload(mode as u64), AtAction::SetUsbNetMode(mode)),
        asks("set_usb_net_mode"@, uint_payload(n), AtAction::SetUsbNetMode((n % 256) as u8)),
        asks(
            "set_usb_net_mode"@,
            text_payload(decimal(mode as nat)),
            AtAction::SetUsbNetMode(mode),
        ),
        p !is Single ==> asks("set_interval"@, p, AtAction::SetInterval(3)),
        p !is Single ==> asks("set_usb_net_mode"@, p, AtAction::SetUsbNetMode(0)),
        parsed_uint(s, u64::MAX as nat) is None ==> asks(
            "set_interval"@,
            text_payload(s),
            AtAction::SetInterval(3),
        ),
        parsed_uint(s, u64::MAX as nat) is None ==> asks(
            "set_usb_net_mode"@,
            text_payload(s),
            AtAction::SetUsbNetMode(0),
        ),
{
    lemma_names_differ();
    law_decimal_round_trip(n as nat, u64::MAX as nat);
    law_decimal_round_trip(mode as nat, u64::MAX as nat);
}

/// The messages with several values: each value is taken from its own name, and has its own
/// default.
pub proof fn law_object_messages(p: PayloadView)
    ensures
        request_of("set_apn"@, p) matches WsRequest::Act(AtAction::SetApn(apn, user, pass, auth))
            && ({
            &&& apn == text_at(p, "apn"@, Seq::empty())
            &&& user == text_at(p, "user"@, Seq::empty())
            &&& pass == text_at(p, "pass"@, Seq::empty())
            &&& forall|n: u8|
                get(p, "auth"@) == Some(Scalar::Text(#[trigger] decimal(n as nat))) ==> auth == n
            &&& get(p, "auth"@) is None ==> auth == 0
            &&& parsed_uint(text_at(p, "auth"@, Seq::empty()), 255) is None ==> auth == 0
        }),
        asks(
            "send_sms"@,
            p,
            AtAction::SendSms(
                text_at(p, "recipient"@, Seq::empty()),
                text_at(p, "message"@, Seq::empty()),
            ),
        ),
        asks("set_mbn"@, p, AtAction::SetMbn(text_at(p, "name"@, Seq::empty()))),
        asks(
            "set_eth_config"@,
            p,
            AtAction::SetEthConfig {
                driver: text_at(p, "driver"@, "r8125"@),
                pcie_rc: bool_at(p, "pcie_rc"@, true),
            },
        ),
        asks("set_ippt_config"@, p, AtAction::SetIpptConfig { mode: text_at(p, "mode"@, "dmz"@) }),
        asks(
            "set_sim_slot"@,
            p,
            AtAction::SetSimSlot((uint_at(p, "slot"@, 0) % 0x1_0000_0000) as u32),
        ),
{
    lemma_names_differ();
    assert forall|n: u8|
        get(p, "auth"@) == Some(Scalar::Text(#[trigger] decimal(n as nat))) implies (
        request_of("set_apn"@, p) matches WsRequest::Act(AtAction::SetApn(_, _, _, auth)) && auth
            == n) by {
        law_decimal_round_trip(n as nat, 255);
    }
}

/// The locks: bands of LTE unless NR is asked for, under either name of each value; a cell of LTE
/// unless another technology is named, and locked unless the lock is to be removed. Numbers are
/// taken in 32 bits.
pub proof fn law_lock_messages(p: PayloadView)
    ensures
        get(p, "nr5g"@) is Some && get(p, "bands"@) is Some ==> asks(
            "set_band_lock"@,
            p,
            AtAction::SetBandLock {
                is_nr5g: bool_at(p, "nr5g"@, false),
                bands: text_at(p, "bands"@, Seq::empty()),
            },
        ),
        get(p, "nr5g"@) is None && get(p, "bands"@) is None ==> asks(
            "set_band_lock"@,
            p,
            AtAction::SetBandLock {
                is_nr5g: bool_at(p, "is_nr5g"@, false),
                bands: text_at(p, "band"@, Seq::empty()),
            },
        ),
        get(p, "nr5g"@) is Some && get(p, "bands"@) is None ==> asks(
            "set_band_lock"@,
            p,
            AtAction::SetBandLock {
                is_nr5g: bool_at(p, "nr5g"@, false),
                bands: text_at(p, "band"@, Seq::empty()),
            },
        ),
        get(p, "nr5g"@) is None && get(p, "bands"@) is Some ==> asks(
            "set_band_lock"@,
            p,
            AtAction::SetBandLock {
                is_nr5g: bool_at(p, "is_nr5g"@, false),
                bands: text_at(p, "bands"@, Seq::empty()),
            },
        ),
        asks(
            "set_cell_lock"@,
            p,
            AtAction::SetCellLock {
                tech: text_at(p, "tech"@, "lte"@),
                pci: (uint_at(p, "pci"@, 0) % 0x1_0000_0000) as u32,
                earfcn: (uint_at(p, "earfcn"@, 0) % 0x1_0000_0000) as u32,
                band: if get(p, "band"@) is Some && get(p, "band"@)->0 is Uint {
                    Some((uint_at(p, "band"@, 0) % 0x1_0000_0000) as u32)
                } else {
                    None
                },
                enable: bool_at(p, "enable"@, true),
            },
        ),
{
    lemma_names_differ();
}

/// A message with any other name asks for nothing.
pub proof fn law_unknown_messages(action: Seq<char>, p: PayloadView)
    requires
        action != "set_view_state"@,
        action != "get_static_info"@,
        action != "get_backend_log"@,
        action != "manual_at"@,
        action != "read_imei"@,
        action != "write_imei"@,
        action != "set_interval"@,
        action != "set_apn"@,
        action != "set_network_mode"@,
        action != "set_mode_pref"@,
        action != "net_connect"@,
        action != "net_disconnect"@,
        action != "network_scan"@,
        action != "send_sms"@,
        action != "get_sms_list"@,
        action != "get_device_info"@,
        action != "reboot"@,
        action != "factory_reset"@,
        action != "flight_mode"@,
        action != "set_band_lock"@,
        action != "set_cell_lock"@,
        action != "get_diagnostics"@,
        action != "set_usb_net_mode"@,
        action != "get_usb_config"@,
        action != "set_sim_slot"@,
        action != "get_mbn_list"@,
        action != "set_mbn"@,
        action != "mbn_autosel"@,
        action != "mbn_deactivate"@,
        action != "set_eth_config"@,
        action != "set_ippt_config"@,
    ensures
        request_of(action, p) == WsRequest::<Seq<char>>::Unknown,
{
}

} // verus!
