//! What a message from a viewer asks for.

use vstd::prelude::*;

use crate::actor::action::{AtAction, DiagnosticType};
use crate::number::{parse_u8, parse_uint, parsed_uint};
use crate::text::{
    before_suffix, chars_of, find, found_from, occurs_at, opt_str, same, strip_suffix, text_of,
};

verus! {

// ---------------------------------------------------------------------------
// Connections
// ---------------------------------------------------------------------------

/// The host in an origin: what follows the scheme.
pub open spec fn origin_host(origin: Seq<char>) -> Seq<char> {
    match found_from(origin, "://"@, 0) {
        Some(i) => {
            let rest = origin.skip(i + "://"@.len());
            match found_from(rest, "://"@, 0) {
                Some(j) => rest.take(j),
                None => rest,
            }
        },
        None => origin,
    }
}

/// A host without the usual ports of HTTP and HTTPS. Any other port stays.
pub open spec fn bare_host(host: Seq<char>) -> Seq<char> {
    if let Some(h) = before_suffix(host, ":80"@) {
        h
    } else if let Some(h) = before_suffix(host, ":443"@) {
        h
    } else {
        host
    }
}

/// A request comes from a page of this host. One that does not say where it comes from, or
/// which host it is for, is no request of another page.
pub open spec fn is_same_site(host: Option<Seq<char>>, origin: Option<Seq<char>>) -> bool {
    match (host, origin) {
        (Some(h), Some(o)) => bare_host(origin_host(o)) == bare_host(h),
        _ => true,
    }
}

fn host_of_origin(origin: &str) -> (r: String)
    ensures
        r@ == origin_host(origin@),
{
    match find(origin, "://") {
        Some(i) => {
            let cs = chars_of(origin);
            let n = cs.len();
            let mark = chars_of("://");
            let m = mark.len();
            assert(i + m <= n);
            let rest = text_of(&cs, i + m, n);
            assert(cs@.subrange(i + m, n as int) == origin@.skip(i + m));
            match find(&rest, "://") {
                Some(j) => {
                    let rs = chars_of(&rest);
                    assert(rs@.subrange(0, j as int) == rest@.take(j as int));
                    text_of(&rs, 0, j)
                },
                None => rest,
            }
        },
        None => origin.to_owned(),
    }
}

fn without_usual_port<'a>(host: &'a str) -> (r: &'a str)
    ensures
        r@ == bare_host(host@),
{
    match strip_suffix(host, ":80") {
        Some(h) => h,
        None => match strip_suffix(host, ":443") {
            Some(h) => h,
            None => host,
        },
    }
}

/// Whether a request comes from a page of this host, by its `Host` and `Origin` headers.
pub fn same_site(host: Option<&str>, origin: Option<&str>) -> (r: bool)
    ensures
        r == is_same_site(opt_str(host), opt_str(origin)),
{
    match (host, origin) {
        (Some(h), Some(o)) => {
            let from = host_of_origin(o);
            same(without_usual_port(&from), without_usual_port(h))
        },
        _ => true,
    }
}

/// What a request to open a connection is answered with.
#[derive(Debug, Clone, Copy, PartialEq, Eq, Structural)]
pub enum UpgradeAnswer {
    /// The request is not authenticated.
    Unauthorized,
    /// The request comes from another site.
    Forbidden,
    /// The connection is opened.
    Accept,
}

/// Answers a request to open a connection: only for those who are logged in, and only from a
/// page of this host.
pub fn ws_handler(authenticated: bool, host: Option<&str>, origin: Option<&str>) -> (r: UpgradeAnswer)
    ensures
        r == (if !authenticated {
            UpgradeAnswer::Unauthorized
        } else if !is_same_site(opt_str(host), opt_str(origin)) {
            UpgradeAnswer::Forbidden
        } else {
            UpgradeAnswer::Accept
        }),
{
    if !authenticated {
        UpgradeAnswer::Unauthorized
    } else if !same_site(host, origin) {
        UpgradeAnswer::Forbidden
    } else {
        UpgradeAnswer::Accept
    }
}

// ---------------------------------------------------------------------------
// Messages
// ---------------------------------------------------------------------------

/// A value in a message.
#[derive(Debug, Clone, PartialEq, Eq)]
pub enum Scalar<S = String> {
    Bool(bool),
    /// A number without sign and fraction.
    Uint(u64),
    Text(S),
    /// Anything else.
    Other,
}

/// A named value in a message.
#[derive(Debug, Clone, PartialEq, Eq)]
pub struct Field<S = String> {
    pub name: S,
    pub value: Scalar<S>,
}

/// What comes with a message.
#[derive(Debug, Clone, PartialEq, Eq)]
pub enum Payload<S = String, F = Vec<Field>> {
    /// Nothing.
    Absent,
    /// A single value.
    Single(Scalar<S>),
    /// Named values.
    Object(F),
}

/// A message from a viewer.
#[derive(Debug, Clone, PartialEq, Eq)]
pub struct WsCommand {
    pub action: String,
    pub payload: Payload,
}

impl View for Scalar {
    type V = Scalar<Seq<char>>;

    open spec fn view(&self) -> Scalar<Seq<char>> {
        match *self {
            Scalar::Bool(b) => Scalar::Bool(b),
            Scalar::Uint(n) => Scalar::Uint(n),
            Scalar::Text(s) => Scalar::Text(s@),
            Scalar::Other => Scalar::Other,
        }
    }
}

impl View for Field {
    type V = Field<Seq<char>>;

    open spec fn view(&self) -> Field<Seq<char>> {
        Field { name: self.name@, value: self.value@ }
    }
}

/// The views of fields.
pub open spec fn field_views(v: Seq<Field>) -> Seq<Field<Seq<char>>> {
    Seq::new(v.len(), |i: int| v[i]@)
}

/// The view of a payload.
pub type PayloadView = Payload<Seq<char>, Seq<Field<Seq<char>>>>;

impl View for Payload {
    type V = PayloadView;

    open spec fn view(&self) -> PayloadView {
        match *self {
            Payload::Absent => Payload::Absent,
            Payload::Single(s) => Payload::Single(s@),
            Payload::Object(v) => Payload::Object(field_views(v@)),
        }
    }
}

/// The value of the first field with a name.
pub open spec fn value_of(fields: Seq<Field<Seq<char>>>, name: Seq<char>) -> Option<Scalar<Seq<char>>>
    decreases fields.len(),
{
    if fields.len() == 0 {
        None
    } else if fields[0].name == name {
        Some(fields[0].value)
    } else {
        value_of(fields.skip(1), name)
    }
}

/// The value that a payload gives a name.
pub open spec fn get(p: PayloadView, name: Seq<char>) -> Option<Scalar<Seq<char>>> {
    match p {
        Payload::Object(fields) => value_of(fields, name),
        _ => None,
    }
}

/// The text that a value is.
pub open spec fn as_text(o: Option<Scalar<Seq<char>>>) -> Option<Seq<char>> {
    match o {
        Some(Scalar::Text(s)) => Some(s),
        _ => None,
    }
}

/// The number that a value is.
pub open spec fn as_uint(o: Option<Scalar<Seq<char>>>) -> Option<u64> {
    match o {
        Some(Scalar::Uint(n)) => Some(n),
        _ => None,
    }
}

/// The truth value that a value is.
pub open spec fn as_bool(o: Option<Scalar<Seq<char>>>) -> Option<bool> {
    match o {
        Some(Scalar::Bool(b)) => Some(b),
        _ => None,
    }
}

/// The payload itself as a value.
pub open spec fn single(p: PayloadView) -> Option<Scalar<Seq<char>>> {
    match p {
        Payload::Single(s) => Some(s),
        _ => None,
    }
}

/// The number that a value is or that its text writes.
pub open spec fn number_in(o: Option<Scalar<Seq<char>>>) -> Option<u64> {
    match o {
        Some(Scalar::Uint(n)) => Some(n),
        Some(Scalar::Text(s)) => match parsed_uint(s, u64::MAX as nat) {
            Some(n) => Some(n as u64),
            None => None,
        },
        _ => None,
    }
}

/// `o`, or `default` where there is nothing.
pub open spec fn or_else<T>(o: Option<T>, default: T) -> T {
    match o {
        Some(v) => v,
        None => default,
    }
}

/// `a`, or `b` where there is nothing.
pub open spec fn either(
    a: Option<Scalar<Seq<char>>>,
    b: Option<Scalar<Seq<char>>>,
) -> Option<Scalar<Seq<char>>> {
    if a is Some {
        a
    } else {
        b
    }
}

/// The low 32 bits of a number.
pub open spec fn low32(n: u64) -> u32 {
    (n % 0x1_0000_0000) as u32
}

/// What a message asks for.
#[derive(Debug, Clone, PartialEq, Eq)]
pub enum WsRequest<S = String> {
    /// Something of the modem.
    Act(AtAction<S>),
    /// That the viewer is counted as watching, or not.
    ViewState(bool),
    /// What does not change.
    StaticInfo,
    /// The log.
    BackendLog,
    /// Nothing that is known; the message is passed over.
    Unknown,
}

impl View for WsRequest {
    type V = WsRequest<Seq<char>>;

    open spec fn view(&self) -> WsRequest<Seq<char>> {
        match *self {
            WsRequest::Act(a) => WsRequest::Act(a@),
            WsRequest::ViewState(b) => WsRequest::ViewState(b),
            WsRequest::StaticInfo => WsRequest::StaticInfo,
            WsRequest::BackendLog => WsRequest::BackendLog,
            WsRequest::Unknown => WsRequest::Unknown,
        }
    }
}

/// The diagnostic query with a name.
pub open spec fn diagnostic_named(name: Seq<char>) -> Option<DiagnosticType> {
    if name == "neighbour"@ || name == "neighbor"@ {
        Some(DiagnosticType::Neighbour)
    } else if name == "qlt"@ || name == "qlts"@ {
        Some(DiagnosticType::Qlts)
    } else if name == "mbn_list"@ || name == "qmbncfg"@ {
        Some(DiagnosticType::MbnList)
    } else if name == "autosel_query"@ || name == "autosel"@ {
        Some(DiagnosticType::AutoSelQuery)
    } else {
        None
    }
}

/// The request of the modem that an action names. An action that is none of these is `None`.
pub open spec fn modem_request(action: Seq<char>, p: PayloadView) -> Option<AtAction<Seq<char>>> {
    let none = Seq::<char>::empty();
    let text = as_text(single(p));
    if action == "manual_at"@ {
        Some(AtAction::ManualAt(or_else(text, none)))
    } else if action == "read_imei"@ {
        Some(AtAction::ReadImei)
    } else if action == "write_imei"@ {
        Some(AtAction::WriteImei(or_else(text, none)))
    } else if action == "set_interval"@ {
        Some(AtAction::SetInterval(or_else(number_in(single(p)), 3)))
    } else if action == "set_apn"@ {
        Some(
            AtAction::SetApn(
                or_else(as_text(get(p, "apn"@)), none),
                or_else(as_text(get(p, "user"@)), none),
                or_else(as_text(get(p, "pass"@)), none),
                match as_text(get(p, "auth"@)) {
                    Some(s) => or_else(parsed_uint(s, u8::MAX as nat), 0) as u8,
                    None => 0,
                },
            ),
        )
    } else if action == "set_network_mode"@ || action == "set_mode_pref"@ {
        Some(AtAction::SetNetworkMode(or_else(text, "auto"@)))
    } else if action == "net_connect"@ {
        Some(AtAction::NetConnect(true))
    } else if action == "net_disconnect"@ {
        Some(AtAction::NetConnect(false))
    } else if action == "network_scan"@ {
        Some(AtAction::NetworkScan)
    } else if action == "send_sms"@ {
        Some(
            AtAction::SendSms(
                or_else(as_text(get(p, "recipient"@)), none),
                or_else(as_text(get(p, "message"@)), none),
            ),
        )
    } else if action == "get_sms_list"@ {
        Some(AtAction::GetSmsList)
    } else if action == "get_device_info"@ {
        Some(AtAction::GetDeviceInfo)
    } else if action == "reboot"@ {
        Some(AtAction::Reboot)
    } else if action == "factory_reset"@ {
        Some(AtAction::FactoryReset)
    } else if action == "flight_mode"@ {
        Some(AtAction::FlightMode(text == Some("1"@)))
    } else {
        configuration_request(action, p)
    }
}

/// The request that changes the configuration of the modem.
pub open spec fn configuration_request(
    action: Seq<char>,
    p: PayloadView,
) -> Option<AtAction<Seq<char>>> {
    let none = Seq::<char>::empty();
    let text = as_text(single(p));
    if action == "set_band_lock"@ {
        Some(
            AtAction::SetBandLock {
                is_nr5g: or_else(
                    as_bool(either(get(p, "nr5g"@), get(p, "is_nr5g"@))),
                    false,
                ),
                bands: or_else(as_text(either(get(p, "bands"@), get(p, "band"@))), none),
            },
        )
    } else if action == "set_cell_lock"@ {
        Some(
            AtAction::SetCellLock {
                tech: or_else(as_text(get(p, "tech"@)), "lte"@),
                pci: low32(or_else(as_uint(get(p, "pci"@)), 0)),
                earfcn: low32(or_else(as_uint(get(p, "earfcn"@)), 0)),
                band: match as_uint(get(p, "band"@)) {
                    Some(n) => Some(low32(n)),
                    None => None,
                },
                enable: or_else(as_bool(get(p, "enable"@)), true),
            },
        )
    } else if action == "get_diagnostics"@ {
        match diagnostic_named(or_else(text, none)) {
            Some(d) => Some(AtAction::GetDiagnostics(d)),
            None => None,
        }
    } else if action == "set_usb_net_mode"@ {
        Some(AtAction::SetUsbNetMode((or_else(number_in(single(p)), 0) % 256) as u8))
    } else if action == "get_usb_config"@ {
        Some(AtAction::GetUsbConfig)
    } else if action == "set_sim_slot"@ {
        Some(AtAction::SetSimSlot(low32(or_else(as_uint(get(p, "slot"@)), 0))))
    } else if action == "get_mbn_list"@ {
        Some(AtAction::GetMbnList)
    } else if action == "set_mbn"@ {
        Some(AtAction::SetMbn(or_else(as_text(get(p, "name"@)), none)))
    } else if action == "mbn_autosel"@ {
        Some(AtAction::SetMbnAutoSel(text == Some("1"@)))
    } else if action == "mbn_deactivate"@ {
        Some(AtAction::DeactivateMbn)
    } else if action == "set_eth_config"@ {
        Some(
            AtAction::SetEthConfig {
                driver: or_else(as_text(get(p, "driver"@)), "r8125"@),
                pcie_rc: or_else(as_bool(get(p, "pcie_rc"@)), true),
            },
        )
    } else if action == "set_ippt_config"@ {
        Some(AtAction::SetIpptConfig { mode: or_else(as_text(get(p, "mode"@)), "dmz"@) })
    } else {
        None
    }
}

/// What a message asks for.
pub open spec fn request_of(action: Seq<char>, p: PayloadView) -> WsRequest<Seq<char>> {
    if action == "set_view_state"@ {
        WsRequest::ViewState(as_text(single(p)) == Some("active"@))
    } else if action == "get_static_info"@ {
        WsRequest::StaticInfo
    } else if action == "get_backend_log"@ {
        WsRequest::BackendLog
    } else {
        match modem_request(action, p) {
            Some(a) => WsRequest::Act(a),
            None => WsRequest::Unknown,
        }
    }
}

// ---------------------------------------------------------------------------
// Reading messages
// ---------------------------------------------------------------------------

/// The view of an optional value.
pub open spec fn opt_scalar(o: Option<&Scalar>) -> Option<Scalar<Seq<char>>> {
    match o {
        Some(s) => Some(s@),
        None => None,
    }
}

fn find_field<'a>(p: &'a Payload, name: &str) -> (r: Option<&'a Scalar>)
    ensures
        opt_scalar(r) == get(p@, name@),
{
    match p {
        Payload::Object(fields) => {
            let ghost all = field_views(fields@);
            let mut k: usize = 0;
            assert(all.skip(0) == all);
            while k < fields.len()
                invariant
                    k <= fields@.len(),
                    all == field_views(fields@),
                    p@ == PayloadView::Object(all),
                    value_of(all, name@) == value_of(all.skip(k as int), name@),
                decreases fields@.len() - k,
            {
                assert(all.skip(k as int)[0] == fields@[k as int]@);
                assert(all.skip(k as int).skip(1) == all.skip(k + 1));
                if same(&fields[k].name, name) {
                    return Some(&fields[k].value);
                }
                k += 1;
            }
            None
        },
        _ => None,
    }
}

fn whole<'a>(p: &'a Payload) -> (r: Option<&'a Scalar>)
    ensures
        opt_scalar(r) == single(p@),
{
    match p {
        Payload::Single(s) => Some(s),
        _ => None,
    }
}

fn text_value(o: Option<&Scalar>, default: &str) -> (r: String)
    ensures
        r@ == or_else(as_text(opt_scalar(o)), default@),
{
    match o {
        Some(Scalar::Text(s)) => s.clone(),
        _ => default.to_owned(),
    }
}

fn is_text(o: Option<&Scalar>, expected: &str) -> (r: bool)
    ensures
        r == (as_text(opt_scalar(o)) == Some(expected@)),
{
    match o {
        Some(Scalar::Text(s)) => same(s, expected),
        _ => false,
    }
}

fn uint_value(o: Option<&Scalar>, default: u64) -> (r: u64)
    ensures
        r == or_else(as_uint(opt_scalar(o)), default),
{
    match o {
        Some(Scalar::Uint(n)) => *n,
        _ => default,
    }
}

fn bool_value(o: Option<&Scalar>, default: bool) -> (r: bool)
    ensures
        r == or_else(as_bool(opt_scalar(o)), default),
{
    match o {
        Some(Scalar::Bool(b)) => *b,
        _ => default,
    }
}

fn number_value(o: Option<&Scalar>, default: u64) -> (r: u64)
    ensures
        r == or_else(number_in(opt_scalar(o)), default),
{
    match o {
        Some(Scalar::Uint(n)) => *n,
        Some(Scalar::Text(s)) => match parse_uint(s, u64::MAX) {
            Some(n) => n,
            None => default,
        },
        _ => default,
    }
}

fn auth_value(o: Option<&Scalar>) -> (r: u8)
    ensures
        r == (match as_text(opt_scalar(o)) {
            Some(s) => or_else(parsed_uint(s, u8::MAX as nat), 0) as u8,
            None => 0,
        }),
{
    match o {
        Some(Scalar::Text(s)) => match parse_u8(s) {
            Some(n) => n,
            None => 0,
        },
        _ => 0,
    }
}

fn to_low32(n: u64) -> (r: u32)
    ensures
        r == low32(n),
{
    (n % 0x1_0000_0000) as u32
}

/// The diagnostic query with a name.
pub fn parse_diagnostic(name: &str) -> (r: Option<DiagnosticType>)
    ensures
        r == diagnostic_named(name@),
{
    if same(name, "neighbour") || same(name, "neighbor") {
        Some(DiagnosticType::Neighbour)
    } else if same(name, "qlt") || same(name, "qlts") {
        Some(DiagnosticType::Qlts)
    } else if same(name, "mbn_list") || same(name, "qmbncfg") {
        Some(DiagnosticType::MbnList)
    } else if same(name, "autosel_query") || same(name, "autosel") {
        Some(DiagnosticType::AutoSelQuery)
    } else {
        None
    }
}

/// The view of an optional request.
pub open spec fn opt_action(o: Option<AtAction>) -> Option<AtAction<Seq<char>>> {
    match o {
        Some(a) => Some(a@),
        None => None,
    }
}

fn read_configuration(action: &str, p: &Payload) -> (r: Option<AtAction>)
    ensures
        opt_action(r) == configuration_request(action@, p@),
{
    proof {
        lemma_empty_text();
    }
    if same(action, "set_band_lock") {
        let nr = match find_field(p, "nr5g") {
            Some(v) => Some(v),
            None => find_field(p, "is_nr5g"),
        };
        let bands = match find_field(p, "bands") {
            Some(v) => Some(v),
            None => find_field(p, "band"),
        };
        Some(AtAction::SetBandLock { is_nr5g: bool_value(nr, false), bands: text_value(bands, "") })
    } else if same(action, "set_cell_lock") {
        let band = match find_field(p, "band") {
            Some(Scalar::Uint(n)) => Some(to_low32(*n)),
            _ => None,
        };
        Some(
            AtAction::SetCellLock {
                tech: text_value(find_field(p, "tech"), "lte"),
                pci: to_low32(uint_value(find_field(p, "pci"), 0)),
                earfcn: to_low32(uint_value(find_field(p, "earfcn"), 0)),
                band,
                enable: bool_value(find_field(p, "enable"), true),
            },
        )
    } else if same(action, "get_diagnostics") {
        match parse_diagnostic(&text_value(whole(p), "")) {
            Some(d) => Some(AtAction::GetDiagnostics(d)),
            None => None,
        }
    } else if same(action, "set_usb_net_mode") {
        Some(AtAction::SetUsbNetMode((number_value(whole(p), 0) % 256) as u8))
    } else if same(action, "get_usb_config") {
        Some(AtAction::GetUsbConfig)
    } else if same(action, "set_sim_slot") {
        Some(AtAction::SetSimSlot(to_low32(uint_value(find_field(p, "slot"), 0))))
    } else if same(action, "get_mbn_list") {
        Some(AtAction::GetMbnList)
    } else if same(action, "set_mbn") {
        Some(AtAction::SetMbn(text_value(find_field(p, "name"), "")))
    } else if same(action, "mbn_autosel") {
        Some(AtAction::SetMbnAutoSel(is_text(whole(p), "1")))
    } else if same(action, "mbn_deactivate") {
        Some(AtAction::DeactivateMbn)
    } else if same(action, "set_eth_config") {
        Some(
            AtAction::SetEthConfig {
                driver: text_value(find_field(p, "driver"), "r8125"),
                pcie_rc: bool_value(find_field(p, "pcie_rc"), true),
            },
        )
    } else if same(action, "set_ippt_config") {
        Some(AtAction::SetIpptConfig { mode: text_value(find_field(p, "mode"), "dmz") })
    } else {
        None
    }
}

proof fn lemma_empty_text()
    ensures
        ""@ == Seq::<char>::empty(),
{
    reveal_strlit("");
}

fn read_modem_request(action: &str, p: &Payload) -> (r: Option<AtAction>)
    ensures
        opt_action(r) == modem_request(action@, p@),
{
    proof {
        lemma_empty_text();
    }
    if same(action, "manual_at") {
        Some(AtAction::ManualAt(text_value(whole(p), "")))
    } else if same(action, "read_imei") {
        Some(AtAction::ReadImei)
    } else if same(action, "write_imei") {
        Some(AtAction::WriteImei(text_value(whole(p), "")))
    } else if same(action, "set_interval") {
        Some(AtAction::SetInterval(number_value(whole(p), 3)))
    } else if same(action, "set_apn") {
        Some(
            AtAction::SetApn(
                text_value(find_field(p, "apn"), ""),
                text_value(find_field(p, "user"), ""),
                text_value(find_field(p, "pass"), ""),
                auth_value(find_field(p, "auth")),
            ),
        )
    } else if same(action, "set_network_mode") || same(action, "set_mode_pref") {
        Some(AtAction::SetNetworkMode(text_value(whole(p), "auto")))
    } else if same(action, "net_connect") {
        Some(AtAction::NetConnect(true))
    } else if same(action, "net_disconnect") {
        Some(AtAction::NetConnect(false))
    } else if same(action, "network_scan") {
        Some(AtAction::NetworkScan)
    } else if same(action, "send_sms") {
        Some(
            AtAction::SendSms(
                text_value(find_field(p, "recipient"), ""),
                text_value(find_field(p, "message"), ""),
            ),
        )
    } else if same(action, "get_sms_list") {
        Some(AtAction::GetSmsList)
    } else if same(action, "get_device_info") {
        Some(AtAction::GetDeviceInfo)
    } else if same(action, "reboot") {
        Some(AtAction::Reboot)
    } else if same(action, "factory_reset") {
        Some(AtAction::FactoryReset)
    } else if same(action, "flight_mode") {
        Some(AtAction::FlightMode(is_text(whole(p), "1")))
    } else {
        read_configuration(action, p)
    }
}

/// Reads a message: what it asks for, with the defaults for what it leaves out.
pub fn handle_ws(cmd: &WsCommand) -> (r: WsRequest)
    ensures
        r@ == request_of(cmd.action@, cmd.payload@),
{
    let action = cmd.action.as_str();
    if same(action, "set_view_state") {
        WsRequest::ViewState(is_text(whole(&cmd.payload), "active"))
    } else if same(action, "get_static_info") {
        WsRequest::StaticInfo
    } else if same(action, "get_backend_log") {
        WsRequest::BackendLog
    } else {
        match read_modem_request(action, &cmd.payload) {
            Some(a) => WsRequest::Act(a),
            None => WsRequest::Unknown,
        }
    }
}

// ---------------------------------------------------------------------------
// Laws
// ---------------------------------------------------------------------------

/// The name of a diagnostic query asks for that query.
pub proof fn law_diagnostic_names(d: DiagnosticType)
    ensures
        diagnostic_named(d.spec_name()) == Some(d),
{
    reveal_strlit("neighbour");
    reveal_strlit("neighbor");
    reveal_strlit("qlt");
    reveal_strlit("qlts");
    reveal_strlit("mbn_list");
    reveal_strlit("qmbncfg");
    reveal_strlit("autosel_query");
    reveal_strlit("autosel");
    assert("neighbour"@.len() == 9);
    assert("neighbor"@.len() == 8);
    assert("qlt"@.len() == 3);
    assert("qlts"@.len() == 4);
    assert("mbn_list"@.len() == 8);
    assert("mbn_list"@[0] == 'm');
    assert("neighbor"@[0] == 'n');
    assert("autosel_query"@.len() == 13);
}

proof fn lemma_origin_host(scheme: Seq<char>, host: Seq<char>, n: int)
    requires
        0 <= n == scheme.len(),
        forall|i: int| 0 <= i < n ==> #[trigger] scheme[i] != ':',
        found_from(host, "://"@, 0) is None,
    ensures
        origin_host(scheme + "://"@ + host) == host,
{
    reveal_strlit("://");
    let o = scheme + "://"@ + host;
    assert(occurs_at(o, "://"@, n)) by {
        assert(o.subrange(n, n + 3) == "://"@);
    }
    lemma_found_at(o, "://"@, 0, n);
    assert(o.skip(n + 3) == host);
}

proof fn lemma_found_at(s: Seq<char>, p: Seq<char>, i: int, n: int)
    requires
        p.len() > 0,
        0 <= i <= n,
        occurs_at(s, p, n),
        forall|j: int| i <= j < n ==> #[trigger] s[j] != p[0],
    ensures
        found_from(s, p, i) == Some(n),
    decreases n - i,
{
    if i < n {
        if occurs_at(s, p, i) {
            assert(s.subrange(i, i + p.len())[0] == s[i]);
        }
        lemma_found_at(s, p, i + 1, n);
    }
}

/// A page of a host may connect to it under either scheme, with the usual port written or not.
pub proof fn law_own_page_may_connect(host: Seq<char>)
    requires
        found_from(host, "://"@, 0) is None,
        found_from(host + ":443"@, "://"@, 0) is None,
        bare_host(host) == host,
    ensures
        is_same_site(Some(host), Some("https"@ + "://"@ + host)),
        is_same_site(Some(host), Some("http"@ + "://"@ + host)),
        is_same_site(Some(host), Some("https"@ + "://"@ + (host + ":443"@))),
{
    reveal_strlit("https");
    reveal_strlit("http");
    reveal_strlit(":80");
    reveal_strlit(":443");
    lemma_origin_host("https"@, host, 5);
    lemma_origin_host("http"@, host, 4);
    lemma_origin_host("https"@, host + ":443"@, 5);
    let h = host + ":443"@;
    assert(h.last() == '3');
    assert(!":80"@.is_suffix_of(h)) by {
        assert(":80"@.last() == '0');
    }
    assert(h.take(h.len() - 4) == host);
    assert(":443"@.is_suffix_of(h));
}

/// A page of another host may not connect.
pub proof fn law_other_page_is_refused(host: Seq<char>, other: Seq<char>)
    requires
        found_from(other, "://"@, 0) is None,
        bare_host(other) != bare_host(host),
    ensures
        !is_same_site(Some(host), Some("https"@ + "://"@ + other)),
{
    reveal_strlit("https");
    lemma_origin_host("https"@, other, 5);
}

/// The host of an origin stands between its scheme and what may follow behind another scheme mark;
/// an origin without such a mark is the host itself.
pub proof fn law_origin_hosts(scheme: Seq<char>, host: Seq<char>, rest: Seq<char>)
    requires
        forall|i: int| 0 <= i < scheme.len() ==> #[trigger] scheme[i] != ':',
        forall|i: int| 0 <= i < host.len() ==> #[trigger] host[i] != ':',
    ensures
        origin_host(host) == host,
        origin_host(scheme + "://"@ + host) == host,
        origin_host(scheme + "://"@ + host + "://"@ + rest) == host,
{
    lemma_not_found(host, 0);
    lemma_origin_host(scheme, host, scheme.len() as int);
    reveal_strlit("://");
    let n = scheme.len() as int;
    let m = host.len() as int;
    let o = scheme + "://"@ + host + "://"@ + rest;
    assert(o.subrange(n, n + 3) == "://"@);
    assert(occurs_at(o, "://"@, n));
    lemma_found_at(o, "://"@, 0, n);
    let t = o.skip(n + 3);
    assert(t == host + "://"@ + rest);
    assert(t.subrange(m, m + 3) == "://"@);
    assert(occurs_at(t, "://"@, m));
    lemma_found_at(t, "://"@, 0, m);
    assert(t.take(m) == host);
}

proof fn lemma_not_found(s: Seq<char>, i: int)
    requires
        0 <= i,
        forall|k: int| 0 <= k < s.len() ==> #[trigger] s[k] != ':',
    ensures
        found_from(s, "://"@, i) is None,
    decreases s.len() + 1 - i,
{
    reveal_strlit("://");
    if i + 3 <= s.len() {
        if occurs_at(s, "://"@, i) {
            assert(s.subrange(i, i + 3)[0] == s[i]);
        }
        lemma_not_found(s, i + 1);
    }
}

} // verus!
