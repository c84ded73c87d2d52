//! How a request to the modem task is carried out and answered.

use vstd::prelude::*;
use vstd::string::StringExecFns;

use crate::actor::action::{AtAction, DiagnosticType};
use crate::at::builder::{at_param, sanitize_at_param};
use crate::at::parser::{
    neighbour_cells, neighbour_views, network_views, parse_qeng_neighbour, ScannedNetwork,
};
use crate::at::response::{QengNeighbourCell, QmbncfgEntry};
use crate::at::utils::{
    cmgl_text, decode_cmgl_body, normalize_at_command, normalized_command,
};
use crate::backend::modem::mbn_views;
use crate::backend::process::{
    at_exec_failed, at_response_preview, egmr_result, exec_failed, parse_egmr_response, preview,
    ImeiParseResult,
};
use crate::backend::{reply_view, DeviceInfoData, UsbConfig};
use crate::number::{decimal, decimal_text};
use crate::text::{
    concat2, concat3, contains, lines_of, mentions, opt_text, same, trim, trimmed,
};

verus! {

// ---------------------------------------------------------------------------
// Calls and their results
// ---------------------------------------------------------------------------

/// Something that a request needs of the modem.
#[derive(Debug, Clone, PartialEq, Eq)]
pub enum BackendCall<S = String> {
    ExecRawAt(S),
    ReadSmsList,
    ConfigureApn(S, S, S, u8),
    SetNetworkModePref(S),
    SetDataSession(bool),
    ScanAvailableNetworks,
    SendSmsMsg(S, S),
    ReadDeviceInfo,
    SendReboot,
    SendFactoryReset,
    SetAirplaneMode(bool),
    SetBandLock(bool, S),
    SetCellLock { tech: S, pci: u32, earfcn: u32, band: Option<u32>, enable: bool },
    GetDiagnostics(DiagnosticType),
    SetUsbNetMode(u8),
    GetUsbConfig,
    SetSimSlot(u32),
    GetMbnList,
    SetMbn(S),
}

impl View for BackendCall {
    type V = BackendCall<Seq<char>>;

    open spec fn view(&self) -> BackendCall<Seq<char>> {
        match *self {
            BackendCall::ExecRawAt(cmd) => BackendCall::ExecRawAt(cmd@),
            BackendCall::ReadSmsList => BackendCall::ReadSmsList,
            BackendCall::ConfigureApn(apn, user, pass, auth) => BackendCall::ConfigureApn(
                apn@,
                user@,
                pass@,
                auth,
            ),
            BackendCall::SetNetworkModePref(mode) => BackendCall::SetNetworkModePref(mode@),
            BackendCall::SetDataSession(connect) => BackendCall::SetDataSession(connect),
            BackendCall::ScanAvailableNetworks => BackendCall::ScanAvailableNetworks,
            BackendCall::SendSmsMsg(to, text) => BackendCall::SendSmsMsg(to@, text@),
            BackendCall::ReadDeviceInfo => BackendCall::ReadDeviceInfo,
            BackendCall::SendReboot => BackendCall::SendReboot,
            BackendCall::SendFactoryReset => BackendCall::SendFactoryReset,
            BackendCall::SetAirplaneMode(on) => BackendCall::SetAirplaneMode(on),
            BackendCall::SetBandLock(is_nr5g, bands) => BackendCall::SetBandLock(is_nr5g, bands@),
            BackendCall::SetCellLock { tech, pci, earfcn, band, enable } => {
                BackendCall::SetCellLock { tech: tech@, pci, earfcn, band, enable }
            },
            BackendCall::GetDiagnostics(diag) => BackendCall::GetDiagnostics(diag),
            BackendCall::SetUsbNetMode(mode) => BackendCall::SetUsbNetMode(mode),
            BackendCall::GetUsbConfig => BackendCall::GetUsbConfig,
            BackendCall::SetSimSlot(slot) => BackendCall::SetSimSlot(slot),
            BackendCall::GetMbnList => BackendCall::GetMbnList,
            BackendCall::SetMbn(name) => BackendCall::SetMbn(name@),
        }
    }
}

/// What came of a call.
#[derive(Debug, PartialEq, Eq)]
pub enum BackendResult<S = String, N = Vec<ScannedNetwork>, M = Vec<QmbncfgEntry>> {
    /// The text that a command or the message list gave.
    Text(S),
    /// Whether a setting was made, and what was said of it.
    Outcome(Result<S, S>),
    Networks(N),
    Sent(bool),
    Info(DeviceInfoData<S>),
    Nothing,
    Usb(Result<UsbConfig<S>, S>),
    Mbn(Result<M, S>),
}

/// The view of a result.
pub type ResultView = BackendResult<
    Seq<char>,
    Seq<ScannedNetwork<Seq<char>>>,
    Seq<QmbncfgEntry<Seq<char>>>,
>;

impl View for BackendResult {
    type V = ResultView;

    open spec fn view(&self) -> ResultView {
        match *self {
            BackendResult::Text(s) => BackendResult::Text(s@),
            BackendResult::Outcome(r) => BackendResult::Outcome(reply_view(r)),
            BackendResult::Networks(v) => BackendResult::Networks(network_views(v@)),
            BackendResult::Sent(ok) => BackendResult::Sent(ok),
            BackendResult::Info(d) => BackendResult::Info(d@),
            BackendResult::Nothing => BackendResult::Nothing,
            BackendResult::Usb(r) => BackendResult::Usb(usb_view(r)),
            BackendResult::Mbn(r) => BackendResult::Mbn(mbn_view(r)),
        }
    }
}

/// The view of a USB configuration or its failure.
pub open spec fn usb_view(r: Result<UsbConfig, String>) -> Result<UsbConfig<Seq<char>>, Seq<char>> {
    match r {
        Ok(u) => Ok(u@),
        Err(e) => Err(e@),
    }
}

/// The view of a list of carrier configurations or its failure.
pub open spec fn mbn_view(
    r: Result<Vec<QmbncfgEntry>, String>,
) -> Result<Seq<QmbncfgEntry<Seq<char>>>, Seq<char>> {
    match r {
        Ok(v) => Ok(mbn_views(v@)),
        Err(e) => Err(e@),
    }
}

/// The views of results.
pub open spec fn result_views(v: Seq<BackendResult>) -> Seq<ResultView> {
    Seq::new(v.len(), |i: int| v[i]@)
}

/// A result is one that the call can have.
pub open spec fn fits(call: BackendCall<Seq<char>>, result: ResultView) -> bool {
    match call {
        BackendCall::ExecRawAt(_) | BackendCall::ReadSmsList => result is Text,
        BackendCall::ScanAvailableNetworks => result is Networks,
        BackendCall::SendSmsMsg(..) => result is Sent,
        BackendCall::ReadDeviceInfo => result is Info,
        BackendCall::SendReboot | BackendCall::SendFactoryReset | BackendCall::SetAirplaneMode(_)
            => result is Nothing,
        BackendCall::GetUsbConfig => result is Usb,
        BackendCall::GetMbnList => result is Mbn,
        _ => result is Outcome,
    }
}

// ---------------------------------------------------------------------------
// Replies
// ---------------------------------------------------------------------------

/// What a diagnostic query gave.
#[derive(Debug, Clone, PartialEq, Eq)]
pub enum Diagnostics<S = String, C = Vec<QengNeighbourCell>> {
    /// Neighbour cells, and the response that lists them.
    Cells { raw: S, cells: C },
    /// The response, where there is one.
    Raw(Option<S>),
}

/// The answer to a request.
#[derive(Debug, PartialEq, Eq)]
#[allow(inconsistent_fields)]
pub enum ActorReply<
    S = String,
    N = Vec<ScannedNetwork>,
    C = Vec<QengNeighbourCell>,
    M = Vec<QmbncfgEntry>,
> {
    AtRes { data: S },
    SettingsLog { msg: S },
    SmsList { data: S },
    NetworkStatus { status: Option<S>, success: bool, msg: S, apn: Option<S> },
    ScanResult { status: S, networks: N },
    SmsSent { status: S, recipient: S },
    DeviceInfo { info: DeviceInfoData<S>, max_rate: S, volte: S, gnss: S },
    BandLockRes { success: bool, msg: S },
    CellLockRes { success: bool, msg: S },
    DiagnosticsRes { success: bool, msg: S, data: Diagnostics<S, C> },
    UsbNetRes { success: bool, msg: S, note: S, config: Option<UsbConfig<S>> },
    UsbConfigInfo { config: Result<UsbConfig<S>, S> },
    SimSlotRes { success: bool, slot: u32, msg: S, note: S },
    MbnListRes { list: Result<M, S> },
    MbnSetRes { success: bool, msg: S, note: Option<S> },
    ImeiRes(ImeiParseResult<S>),
    EthRes { success: bool, msg: S },
    IpptRes { success: bool, msg: S },
}

/// The view of a reply.
pub type ActorReplyView = ActorReply<
    Seq<char>,
    Seq<ScannedNetwork<Seq<char>>>,
    Seq<QengNeighbourCell<Seq<char>>>,
    Seq<QmbncfgEntry<Seq<char>>>,
>;

/// The view of diagnostics.
pub open spec fn diagnostics_view(d: Diagnostics) -> Diagnostics<
    Seq<char>,
    Seq<QengNeighbourCell<Seq<char>>>,
> {
    match d {
        Diagnostics::Cells { raw, cells } => Diagnostics::Cells {
            raw: raw@,
            cells: neighbour_views(cells@),
        },
        Diagnostics::Raw(s) => Diagnostics::Raw(opt_text(s)),
    }
}

/// The view of an optional USB configuration.
pub open spec fn opt_usb(o: Option<UsbConfig>) -> Option<UsbConfig<Seq<char>>> {
    match o {
        Some(u) => Some(u@),
        None => None,
    }
}

impl View for ActorReply {
    type V = ActorReplyView;

    open spec fn view(&self) -> ActorReplyView {
        match *self {
            ActorReply::AtRes { data } => ActorReply::AtRes { data: data@ },
            ActorReply::SettingsLog { msg } => ActorReply::SettingsLog { msg: msg@ },
            ActorReply::SmsList { data } => ActorReply::SmsList { data: data@ },
            ActorReply::NetworkStatus { status, success, msg, apn } => ActorReply::NetworkStatus {
                status: opt_text(status),
                success,
                msg: msg@,
                apn: opt_text(apn),
            },
            ActorReply::ScanResult { status, networks } => ActorReply::ScanResult {
                status: status@,
                networks: network_views(networks@),
            },
            ActorReply::SmsSent { status, recipient } => ActorReply::SmsSent {
                status: status@,
                recipient: recipient@,
            },
            ActorReply::DeviceInfo { info, max_rate, volte, gnss } => ActorReply::DeviceInfo {
                info: info@,
                max_rate: max_rate@,
                volte: volte@,
                gnss: gnss@,
            },
            ActorReply::BandLockRes { success, msg } => ActorReply::BandLockRes {
                success,
                msg: msg@,
            },
            ActorReply::CellLockRes { success, msg } => ActorReply::CellLockRes {
                success,
                msg: msg@,
            },
            ActorReply::DiagnosticsRes { success, msg, data } => ActorReply::DiagnosticsRes {
                success,
                msg: msg@,
                data: diagnostics_view(data),
            },
            ActorReply::UsbNetRes { success, msg, note, config } => ActorReply::UsbNetRes {
                success,
                msg: msg@,
                note: note@,
                config: opt_usb(config),
            },
            ActorReply::UsbConfigInfo { config } => ActorReply::UsbConfigInfo {
                config: usb_view(config),
            },
            ActorReply::SimSlotRes { success, slot, msg, note } => ActorReply::SimSlotRes {
                success,
                slot,
                msg: msg@,
                note: note@,
            },
            ActorReply::MbnListRes { list } => ActorReply::MbnListRes { list: mbn_view(list) },
            ActorReply::MbnSetRes { success, msg, note } => ActorReply::MbnSetRes {
                success,
                msg: msg@,
                note: opt_text(note),
            },
            ActorReply::ImeiRes(r) => ActorReply::ImeiRes(r@),
            ActorReply::EthRes { success, msg } => ActorReply::EthRes { success, msg: msg@ },
            ActorReply::IpptRes { success, msg } => ActorReply::IpptRes { success, msg: msg@ },
        }
    }
}

/// The name by which clients know what a reply is.
pub open spec fn reply_kind(r: ActorReplyView) -> Seq<char> {
    match r {
        ActorReply::AtRes { .. } => "at_res"@,
        ActorReply::SettingsLog { .. } => "settings_log"@,
        ActorReply::SmsList { .. } => "sms_list"@,
        ActorReply::NetworkStatus { .. } => "network_status"@,
        ActorReply::ScanResult { .. } => "scan_result"@,
        ActorReply::SmsSent { .. } => "sms_sent"@,
        ActorReply::DeviceInfo { .. } => "device_info"@,
        ActorReply::BandLockRes { .. } => "band_lock_res"@,
        ActorReply::CellLockRes { .. } => "cell_lock_res"@,
        ActorReply::DiagnosticsRes { .. } => "diagnostics_res"@,
        ActorReply::UsbNetRes { .. } => "usb_net_res"@,
        ActorReply::UsbConfigInfo { .. } => "usb_config_info"@,
        ActorReply::SimSlotRes { .. } => "sim_slot_res"@,
        ActorReply::MbnListRes { .. } => "mbn_list_res"@,
        ActorReply::MbnSetRes { .. } => "mbn_set_res"@,
        ActorReply::ImeiRes(..) => "imei_res"@,
        ActorReply::EthRes { .. } => "eth_res"@,
        ActorReply::IpptRes { .. } => "ippt_res"@,
    }
}

impl ActorReply {
    /// The name by which clients know what the reply is.
    pub fn kind(&self) -> (r: &'static str)
        ensures
            r@ == reply_kind(self@),
    {
        match self {
            ActorReply::AtRes { .. } => "at_res",
            ActorReply::SettingsLog { .. } => "settings_log",
            ActorReply::SmsList { .. } => "sms_list",
            ActorReply::NetworkStatus { .. } => "network_status",
            ActorReply::ScanResult { .. } => "scan_result",
            ActorReply::SmsSent { .. } => "sms_sent",
            ActorReply::DeviceInfo { .. } => "device_info",
            ActorReply::BandLockRes { .. } => "band_lock_res",
            ActorReply::CellLockRes { .. } => "cell_lock_res",
            ActorReply::DiagnosticsRes { .. } => "diagnostics_res",
            ActorReply::UsbNetRes { .. } => "usb_net_res",
            ActorReply::UsbConfigInfo { .. } => "usb_config_info",
            ActorReply::SimSlotRes { .. } => "sim_slot_res",
            ActorReply::MbnListRes { .. } => "mbn_list_res",
            ActorReply::MbnSetRes { .. } => "mbn_set_res",
            ActorReply::ImeiRes(..) => "imei_res",
            ActorReply::EthRes { .. } => "eth_res",
            ActorReply::IpptRes { .. } => "ippt_res",
        }
    }
}

/// What comes next for a request.
#[derive(Debug, PartialEq, Eq)]
pub enum ActorStep<C = BackendCall, R = ActorReply> {
    /// A call to the modem, whose result comes next.
    Call(C),
    /// The answer, after which the request is done.
    Reply(R),
}

/// The view of a step.
pub type StepView = ActorStep<BackendCall<Seq<char>>, ActorReplyView>;

impl View for ActorStep {
    type V = StepView;

    open spec fn view(&self) -> StepView {
        match *self {
            ActorStep::Call(c) => ActorStep::Call(c@),
            ActorStep::Reply(r) => ActorStep::Reply(r@),
        }
    }
}

// ---------------------------------------------------------------------------
// Requests
// ---------------------------------------------------------------------------

/// The text of an outcome, whichever it is.
pub open spec fn outcome_text(r: Result<Seq<char>, Seq<char>>) -> Seq<char> {
    match r {
        Ok(s) => s,
        Err(e) => e,
    }
}

/// `OK` for a success, the reason for a failure.
pub open spec fn ok_or_reason(r: Result<Seq<char>, Seq<char>>) -> Seq<char> {
    match r {
        Ok(_) => "OK"@,
        Err(e) => e,
    }
}

/// The polling interval that a request asks for: at least three seconds.
pub open spec fn interval_of(secs: u64) -> u64 {
    if secs < 3 {
        3
    } else {
        secs
    }
}

/// The steps that set up the network port, in order.
pub open spec fn eth_command(driver: Seq<char>, pcie_rc: bool, k: int) -> Seq<char> {
    if k == 0 {
        "AT+QETH=\"eth_driver\",\""@ + driver + "\",1"@
    } else if k == 1 {
        if pcie_rc {
            "AT+QCFG=\"pcie/mode\",1"@
        } else {
            "AT+QCFG=\"pcie/mode\",0"@
        }
    } else {
        "AT+QCFG=\"data_interface\",1,0"@
    }
}

/// What a failed step of the network port is reported as.
pub open spec fn eth_failure(k: int, raw: Seq<char>) -> Seq<char> {
    if k == 0 {
        "加载网卡驱动失败: "@ + trimmed(raw)
    } else if k == 1 {
        "设置 PCIe 模式失败: "@ + trimmed(raw)
    } else {
        "设置数据通道失败: "@ + trimmed(raw)
    }
}

/// The steps that set up IP passthrough, in order.
pub open spec fn ippt_command(mode: Seq<char>, k: int) -> Seq<char> {
    if k == 0 {
        "AT+QMAPWAC=1"@
    } else if k == 1 {
        if mode == "dmz"@ {
            "AT+QMAP=\"LANIP\",192.168.225.2,192.168.225.2,192.168.225.1,1"@
        } else {
            "AT+QMAP=\"LANIP\",192.168.225.20,192.168.225.100,192.168.225.1,1"@
        }
    } else {
        if mode == "dmz"@ {
            "AT+QMAP=\"DMZ\",1,4,192.168.225.2"@
        } else {
            "AT+QMAP=\"DMZ\",0"@
        }
    }
}

/// What a failed step of IP passthrough is reported as.
pub open spec fn ippt_failure(k: int, raw: Seq<char>) -> Seq<char> {
    if k == 0 {
        "开启自动拨号失败: "@ + trimmed(raw)
    } else if k == 1 {
        "设置 LANIP 失败: "@ + trimmed(raw)
    } else {
        "设置 DMZ 失败: "@ + trimmed(raw)
    }
}

/// The text of result `k`.
pub open spec fn text_of_result(results: Seq<ResultView>, k: int) -> Seq<char> {
    results[k]->Text_0
}

/// The first of the first `n` results that is the text of a failed command.
pub open spec fn first_failure(results: Seq<ResultView>, n: int) -> Option<int>
    decreases n,
{
    if n <= 0 {
        None
    } else if let Some(k) = first_failure(results, n - 1) {
        Some(k)
    } else if exec_failed(text_of_result(results, n - 1)) {
        Some(n - 1)
    } else {
        None
    }
}

/// How many steps the network port takes.
pub open spec fn eth_steps(pcie_rc: bool) -> int {
    if pcie_rc {
        3
    } else {
        2
    }
}

/// Sets up the network port step by step; the first failed step ends it.
pub open spec fn eth_step(
    driver: Seq<char>,
    pcie_rc: bool,
    results: Seq<ResultView>,
) -> StepView {
    if let Some(k) = first_failure(results, results.len() as int) {
        ActorStep::Reply(
            ActorReply::EthRes {
                success: false,
                msg: eth_failure(k, text_of_result(results, k)),
            },
        )
    } else if results.len() < eth_steps(pcie_rc) {
        ActorStep::Call(
            BackendCall::ExecRawAt(eth_command(driver, pcie_rc, results.len() as int)),
        )
    } else {
        ActorStep::Reply(
            ActorReply::EthRes {
                success: true,
                msg: "网口配置全部下发成功，请热重启 (CFUN=1,1) 或断电重启使网卡生效"@,
            },
        )
    }
}

/// Sets up IP passthrough step by step; the first failed step ends it.
pub open spec fn ippt_step(mode: Seq<char>, results: Seq<ResultView>) -> StepView {
    if let Some(k) = first_failure(results, results.len() as int) {
        ActorStep::Reply(
            ActorReply::IpptRes {
                success: false,
                msg: ippt_failure(k, text_of_result(results, k)),
            },
        )
    } else if results.len() < 3 {
        ActorStep::Call(BackendCall::ExecRawAt(ippt_command(mode, results.len() as int)))
    } else {
        ActorStep::Reply(
            ActorReply::IpptRes {
                success: true,
                msg: "直通配置全部下发成功，请热重启 (CFUN=1,1) 或断电重启使配置生效"@,
            },
        )
    }
}

/// The call with which a request begins; a new interval needs none.
pub open spec fn first_call(action: AtAction<Seq<char>>) -> Option<BackendCall<Seq<char>>> {
    match action {
        AtAction::ManualAt(cmd) => Some(BackendCall::ExecRawAt(normalized_command(cmd))),
        AtAction::SetInterval(_) => None,
        AtAction::GetSmsList => Some(BackendCall::ReadSmsList),
        AtAction::SetApn(apn, user, pass, auth) => Some(
            BackendCall::ConfigureApn(apn, user, pass, auth),
        ),
        AtAction::SetNetworkMode(mode) => Some(BackendCall::SetNetworkModePref(mode)),
        AtAction::NetConnect(connect) => Some(BackendCall::SetDataSession(connect)),
        AtAction::NetworkScan => Some(BackendCall::ScanAvailableNetworks),
        AtAction::SendSms(to, text) => Some(BackendCall::SendSmsMsg(to, text)),
        AtAction::GetDeviceInfo => Some(BackendCall::ReadDeviceInfo),
        AtAction::Reboot => Some(BackendCall::SendReboot),
        AtAction::FactoryReset => Some(BackendCall::SendFactoryReset),
        AtAction::FlightMode(on) => Some(BackendCall::SetAirplaneMode(on)),
        AtAction::SetBandLock { is_nr5g, bands } => Some(BackendCall::SetBandLock(is_nr5g, bands)),
        AtAction::SetCellLock { tech, pci, earfcn, band, enable } => Some(
            BackendCall::SetCellLock { tech, pci, earfcn, band, enable },
        ),
        AtAction::GetDiagnostics(diag) => Some(BackendCall::GetDiagnostics(diag)),
        AtAction::SetUsbNetMode(mode) => Some(BackendCall::SetUsbNetMode(mode)),
        AtAction::GetUsbConfig => Some(BackendCall::GetUsbConfig),
        AtAction::SetSimSlot(slot) => Some(BackendCall::SetSimSlot(slot)),
        AtAction::GetMbnList => Some(BackendCall::GetMbnList),
        AtAction::SetMbn(name) => Some(BackendCall::SetMbn(name)),
        AtAction::SetMbnAutoSel(on) => Some(
            BackendCall::ExecRawAt(
                if on {
                    "AT+QMBNCFG=\"AutoSel\",1"@
                } else {
                    "AT+QMBNCFG=\"AutoSel\",0"@
                },
            ),
        ),
        AtAction::DeactivateMbn => Some(
            BackendCall::ExecRawAt("AT+QMBNCFG=\"Deactivate\""@),
        ),
        AtAction::ReadImei => Some(BackendCall::ExecRawAt("AT+EGMR=0,7"@)),
        AtAction::WriteImei(imei) => Some(
            BackendCall::ExecRawAt("AT+EGMR=1,7,\""@ + at_param(imei) + "\""@),
        ),
        AtAction::SetEthConfig { driver, pcie_rc } => Some(
            BackendCall::ExecRawAt(eth_command(driver, pcie_rc, 0)),
        ),
        AtAction::SetIpptConfig { mode } => Some(BackendCall::ExecRawAt(ippt_command(mode, 0))),
    }
}

/// What a text says of reading the IMEI; one that says nothing is a failure.
pub open spec fn read_imei_result(raw: Seq<char>) -> ImeiParseResult<Seq<char>> {
    match egmr_result(raw) {
        Some(r) => r,
        None => ImeiParseResult { kind: "read"@, success: false, imei: None },
    }
}

/// What a text says of writing the IMEI. A module that does not echo commands only says `OK`.
pub open spec fn write_imei_result(raw: Seq<char>) -> ImeiParseResult<Seq<char>> {
    match egmr_result(raw) {
        Some(r) => r,
        None => ImeiParseResult {
            kind: "write"@,
            success: !exec_failed(raw) && mentions(raw, "OK"@),
            imei: None,
        },
    }
}

/// What a diagnostic query gave, by its outcome.
pub open spec fn diagnosed(
    diag: DiagnosticType,
    r: Result<Seq<char>, Seq<char>>,
) -> Diagnostics<Seq<char>, Seq<QengNeighbourCell<Seq<char>>>> {
    if diag == DiagnosticType::Neighbour {
        let raw = match r {
            Ok(s) => s,
            Err(_) => Seq::empty(),
        };
        Diagnostics::Cells { raw, cells: neighbour_cells(lines_of(raw)) }
    } else {
        Diagnostics::Raw(
            match r {
                Ok(s) => Some(s),
                Err(_) => None,
            },
        )
    }
}

/// The answer to a request that takes one call, by the result of that call.
pub open spec fn single_reply(action: AtAction<Seq<char>>, result: ResultView) -> ActorReplyView {
    let text = result->Text_0;
    let outcome = result->Outcome_0;
    match action {
        AtAction::ManualAt(_) => ActorReply::AtRes { data: text },
        AtAction::GetSmsList => ActorReply::SmsList { data: cmgl_text(lines_of(text)) },
        AtAction::SetApn(apn, _, _, _) => ActorReply::NetworkStatus {
            status: Some(
                if outcome is Ok {
                    "APN settings applied"@
                } else {
                    "APN settings failed"@
                },
            ),
            success: outcome is Ok,
            msg: outcome_text(outcome),
            apn: Some(apn),
        },
        AtAction::SetNetworkMode(_) => ActorReply::NetworkStatus {
            status: None,
            success: outcome is Ok,
            msg: outcome_text(outcome),
            apn: None,
        },
        AtAction::NetConnect(connect) => ActorReply::NetworkStatus {
            status: Some(
                (if connect {
                    "Connect"@
                } else {
                    "Disconnect"@
                }) + " command "@ + (if outcome is Ok {
                    "sent"@
                } else {
                    "failed"@
                }),
            ),
            success: outcome is Ok,
            msg: outcome_text(outcome),
            apn: None,
        },
        AtAction::NetworkScan => ActorReply::ScanResult {
            status: "Scan complete."@,
            networks: result->Networks_0,
        },
        AtAction::SendSms(to, _) => ActorReply::SmsSent {
            status: if result->Sent_0 {
                "SMS sent successfully"@
            } else {
                "SMS failed"@
            },
            recipient: to,
        },
        AtAction::GetDeviceInfo => ActorReply::DeviceInfo {
            info: result->Info_0,
            max_rate: "--"@,
            volte: "--"@,
            gnss: "--"@,
        },
        AtAction::Reboot => ActorReply::SettingsLog { msg: "Reboot command sent to module."@ },
        AtAction::FactoryReset => ActorReply::SettingsLog {
            msg: "Factory reset command sent to module."@,
        },
        AtAction::FlightMode(on) => ActorReply::SettingsLog {
            msg: if on {
                "Flight mode turned ON"@
            } else {
                "Flight mode turned OFF"@
            },
        },
        AtAction::SetBandLock { .. } => ActorReply::BandLockRes {
            success: outcome is Ok,
            msg: outcome_text(outcome),
        },
        AtAction::SetCellLock { .. } => ActorReply::CellLockRes {
            success: outcome is Ok,
            msg: outcome_text(outcome),
        },
        AtAction::GetDiagnostics(diag) => ActorReply::DiagnosticsRes {
            success: outcome is Ok,
            msg: outcome_text(outcome),
            data: diagnosed(diag, outcome),
        },
        AtAction::GetUsbConfig => ActorReply::UsbConfigInfo { config: result->Usb_0 },
        AtAction::SetSimSlot(slot) => ActorReply::SimSlotRes {
            success: outcome is Ok,
            slot,
            msg: ok_or_reason(outcome),
            note: "切换卡槽后需重启模组方可生效"@,
        },
        AtAction::GetMbnList => ActorReply::MbnListRes { list: result->Mbn_0 },
        AtAction::SetMbn(_) => ActorReply::MbnSetRes {
            success: outcome is Ok,
            msg: ok_or_reason(outcome),
            note: Some("选择 MBN 后需重启模组方可生效"@),
        },
        AtAction::SetMbnAutoSel(on) => ActorReply::MbnSetRes {
            success: !exec_failed(text),
            msg: if exec_failed(text) {
                preview(text)
            } else if on {
                "MBN AutoSel 已启用"@
            } else {
                "MBN AutoSel 已禁用（锁定当前 MBN）"@
            },
            note: None,
        },
        AtAction::DeactivateMbn => ActorReply::MbnSetRes {
            success: !exec_failed(text),
            msg: if exec_failed(text) {
                preview(text)
            } else {
                "当前 MBN 已停用"@
            },
            note: Some(
                if exec_failed(text) {
                    ""@
                } else {
                    "需重启模组方可生效"@
                },
            ),
        },
        AtAction::ReadImei => ActorReply::ImeiRes(read_imei_result(text)),
        AtAction::WriteImei(_) => ActorReply::ImeiRes(write_imei_result(text)),
        _ => arbitrary(),
    }
}

/// The message for a new interval.
pub open spec fn interval_text(secs: u64) -> Seq<char> {
    "轮询间隔已调整为 "@ + decimal(interval_of(secs) as nat) + " 秒"@
}

/// The reminder after a change of the USB network mode.
pub open spec fn usb_note() -> Seq<char> {
    "注意：USB 模式修改后通常需要重启模组方可生效！"@
}

/// The answer to a change of the USB network mode.
pub open spec fn usb_reply(
    set: Result<Seq<char>, Seq<char>>,
    config: Option<UsbConfig<Seq<char>>>,
) -> ActorReplyView {
    ActorReply::UsbNetRes { success: set is Ok, msg: outcome_text(set), note: usb_note(), config }
}

/// Sets the USB network mode and, where that succeeds, reads it back.
pub open spec fn usb_step(mode: u8, results: Seq<ResultView>) -> StepView {
    if results.len() == 0 {
        ActorStep::Call(BackendCall::SetUsbNetMode(mode))
    } else if results[0]->Outcome_0 is Ok && results.len() == 1 {
        ActorStep::Call(BackendCall::GetUsbConfig)
    } else {
        let set = results[0]->Outcome_0;
        ActorStep::Reply(
            usb_reply(
                set,
                if set is Ok {
                    match results[1]->Usb_0 {
                        Ok(u) => Some(u),
                        Err(_) => None,
                    }
                } else {
                    None
                },
            ),
        )
    }
}

/// What comes next for a request, given the results so far.
pub open spec fn action_step(
    action: AtAction<Seq<char>>,
    results: Seq<ResultView>,
) -> StepView {
    match action {
        AtAction::SetInterval(secs) => ActorStep::Reply(
            ActorReply::SettingsLog { msg: interval_text(secs) },
        ),
        AtAction::SetUsbNetMode(mode) => usb_step(mode, results),
        AtAction::SetEthConfig { driver, pcie_rc } => eth_step(driver, pcie_rc, results),
        AtAction::SetIpptConfig { mode } => ippt_step(mode, results),
        _ => if results.len() == 0 {
            ActorStep::Call(first_call(action)->0)
        } else {
            ActorStep::Reply(single_reply(action, results[0]))
        },
    }
}

/// The results are those of the calls that the request made, one for each and no more.
pub open spec fn is_transcript(action: AtAction<Seq<char>>, results: Seq<ResultView>) -> bool {
    forall|k: int|
        0 <= k < results.len() ==> (action_step(action, #[trigger] results.take(k)) matches
            ActorStep::Call(call) && fits(call, results[k]))
}

fn text_result(result: BackendResult) -> (r: String)
    requires
        result@ is Text,
    ensures
        r@ == result@->Text_0,
{
    match result {
        BackendResult::Text(s) => s,
        _ => {
            assert(false);
            String::new()
        },
    }
}

fn outcome_result(result: BackendResult) -> (r: Result<String, String>)
    requires
        result@ is Outcome,
    ensures
        reply_view(r) == result@->Outcome_0,
{
    match result {
        BackendResult::Outcome(o) => o,
        _ => {
            assert(false);
            Ok(String::new())
        },
    }
}

/// The text of an outcome, and whether it is a success.
fn outcome_parts(o: Result<String, String>) -> (r: (bool, String))
    ensures
        r.0 == (o is Ok),
        r.1@ == outcome_text(reply_view(o)),
{
    match o {
        Ok(s) => (true, s),
        Err(e) => (false, e),
    }
}

/// `OK` for a success, the reason for a failure, and which it is.
fn outcome_reason(o: Result<String, String>) -> (r: (bool, String))
    ensures
        r.0 == (o is Ok),
        r.1@ == ok_or_reason(reply_view(o)),
{
    match o {
        Ok(_) => (true, "OK".to_owned()),
        Err(e) => (false, e),
    }
}

fn eth_command_text(driver: &str, pcie_rc: bool, k: usize) -> (r: String)
    ensures
        r@ == eth_command(driver@, pcie_rc, k as int),
{
    if k == 0 {
        concat3("AT+QETH=\"eth_driver\",\"", driver, "\",1")
    } else if k == 1 {
        if pcie_rc {
            "AT+QCFG=\"pcie/mode\",1".to_owned()
        } else {
            "AT+QCFG=\"pcie/mode\",0".to_owned()
        }
    } else {
        "AT+QCFG=\"data_interface\",1,0".to_owned()
    }
}

fn ippt_command_text(mode: &str, k: usize) -> (r: String)
    ensures
        r@ == ippt_command(mode@, k as int),
{
    let dmz = same(mode, "dmz");
    if k == 0 {
        "AT+QMAPWAC=1"
    } else if k == 1 {
        if dmz {
            "AT+QMAP=\"LANIP\",192.168.225.2,192.168.225.2,192.168.225.1,1"
        } else {
            "AT+QMAP=\"LANIP\",192.168.225.20,192.168.225.100,192.168.225.1,1"
        }
    } else {
        if dmz {
            "AT+QMAP=\"DMZ\",1,4,192.168.225.2"
        } else {
            "AT+QMAP=\"DMZ\",0"
        }
    }.to_owned()
}

/// The call with which a request begins.
pub fn begin(action: &AtAction) -> (r: Option<BackendCall>)
    ensures
        match r {
            Some(c) => first_call(action@) == Some(c@),
            None => first_call(action@) is None,
        },
{
    Some(
        match action {
            AtAction::ManualAt(cmd) => BackendCall::ExecRawAt(normalize_at_command(cmd)),
            AtAction::SetInterval(_) => {
                return None;
            },
            AtAction::GetSmsList => BackendCall::ReadSmsList,
            AtAction::SetApn(apn, user, pass, auth) => BackendCall::ConfigureApn(
                apn.clone(),
                user.clone(),
                pass.clone(),
                *auth,
            ),
            AtAction::SetNetworkMode(mode) => BackendCall::SetNetworkModePref(mode.clone()),
            AtAction::NetConnect(connect) => BackendCall::SetDataSession(*connect),
            AtAction::NetworkScan => BackendCall::ScanAvailableNetworks,
            AtAction::SendSms(to, text) => BackendCall::SendSmsMsg(to.clone(), text.clone()),
            AtAction::GetDeviceInfo => BackendCall::ReadDeviceInfo,
            AtAction::Reboot => BackendCall::SendReboot,
            AtAction::FactoryReset => BackendCall::SendFactoryReset,
            AtAction::FlightMode(on) => BackendCall::SetAirplaneMode(*on),
            AtAction::SetBandLock { is_nr5g, bands } => BackendCall::SetBandLock(
                *is_nr5g,
                bands.clone(),
            ),
            AtAction::SetCellLock { tech, pci, earfcn, band, enable } => {
                BackendCall::SetCellLock {
                    tech: tech.clone(),
                    pci: *pci,
                    earfcn: *earfcn,
                    band: *band,
                    enable: *enable,
                }
            },
            AtAction::GetDiagnostics(diag) => BackendCall::GetDiagnostics(*diag),
            AtAction::SetUsbNetMode(mode) => BackendCall::SetUsbNetMode(*mode),
            AtAction::GetUsbConfig => BackendCall::GetUsbConfig,
            AtAction::SetSimSlot(slot) => BackendCall::SetSimSlot(*slot),
            AtAction::GetMbnList => BackendCall::GetMbnList,
            AtAction::SetMbn(name) => BackendCall::SetMbn(name.clone()),
            AtAction::SetMbnAutoSel(on) => BackendCall::ExecRawAt(
                if *on {
                    "AT+QMBNCFG=\"AutoSel\",1"
                } else {
                    "AT+QMBNCFG=\"AutoSel\",0"
                }.to_owned(),
            ),
            AtAction::DeactivateMbn => BackendCall::ExecRawAt(
                "AT+QMBNCFG=\"Deactivate\"".to_owned(),
            ),
            AtAction::ReadImei => BackendCall::ExecRawAt("AT+EGMR=0,7".to_owned()),
            AtAction::WriteImei(imei) => BackendCall::ExecRawAt(
                concat3("AT+EGMR=1,7,\"", &sanitize_at_param(imei), "\""),
            ),
            AtAction::SetEthConfig { driver, pcie_rc } => BackendCall::ExecRawAt(
                eth_command_text(driver, *pcie_rc, 0),
            ),
            AtAction::SetIpptConfig { mode } => BackendCall::ExecRawAt(ippt_command_text(mode, 0)),
        },
    )
}

/// The message for a new interval.
fn text_of_interval(secs: u64) -> (r: String)
    ensures
        r@ == interval_text(secs),
{
    let new_secs = new_interval(secs);
    concat3("轮询间隔已调整为 ", &decimal_text(new_secs), " 秒")
}

/// The polling interval that a request asks for, in seconds.
pub fn new_interval(secs: u64) -> (r: u64)
    ensures
        r == interval_of(secs),
{
    if secs < 3 {
        3
    } else {
        secs
    }
}

fn diagnose(diag: DiagnosticType, outcome: &Result<String, String>) -> (r: Diagnostics)
    ensures
        diagnostics_view(r) == diagnosed(diag, reply_view(*outcome)),
{
    match diag {
        DiagnosticType::Neighbour => {
            let raw = match outcome {
                Ok(s) => s.clone(),
                Err(_) => String::new(),
            };
            let cells = parse_qeng_neighbour(&raw);
            Diagnostics::Cells { raw, cells }
        },
        _ => Diagnostics::Raw(
            match outcome {
                Ok(s) => Some(s.clone()),
                Err(_) => None,
            },
        ),
    }
}

fn answer_read_imei(raw: &str) -> (r: ImeiParseResult)
    ensures
        r@ == read_imei_result(raw@),
{
    match parse_egmr_response(raw) {
        Some(r) => r,
        None => ImeiParseResult { kind: "read".to_owned(), success: false, imei: None },
    }
}

fn answer_write_imei(raw: &str) -> (r: ImeiParseResult)
    ensures
        r@ == write_imei_result(raw@),
{
    match parse_egmr_response(raw) {
        Some(r) => r,
        None => ImeiParseResult {
            kind: "write".to_owned(),
            success: !at_exec_failed(raw) && contains(raw, "OK"),
            imei: None,
        },
    }
}

/// A request that takes exactly one call.
pub open spec fn takes_one_call(action: AtAction<Seq<char>>) -> bool {
    !(action is SetInterval || action is SetUsbNetMode || action is SetEthConfig
        || action is SetIpptConfig)
}

/// Answers a request that takes one call, by the result of that call.
pub fn answer(action: &AtAction, result: BackendResult) -> (r: ActorReply)
    requires
        takes_one_call(action@),
        fits(first_call(action@)->0, result@),
    ensures
        r@ == single_reply(action@, result@),
{
    match action {
        AtAction::ManualAt(_) => ActorReply::AtRes { data: text_result(result) },
        AtAction::GetSmsList => ActorReply::SmsList {
            data: decode_cmgl_body(&text_result(result)),
        },
        AtAction::SetApn(apn, _, _, _) => {
            let (success, msg) = outcome_parts(outcome_result(result));
            let status = if success {
                "APN settings applied"
            } else {
                "APN settings failed"
            };
            ActorReply::NetworkStatus {
                status: Some(status.to_owned()),
                success,
                msg,
                apn: Some(apn.clone()),
            }
        },
        AtAction::SetNetworkMode(_) => {
            let (success, msg) = outcome_parts(outcome_result(result));
            ActorReply::NetworkStatus { status: None, success, msg, apn: None }
        },
        AtAction::NetConnect(connect) => {
            let (success, msg) = outcome_parts(outcome_result(result));
            let status = concat3(
                if *connect {
                    "Connect"
                } else {
                    "Disconnect"
                },
                " command ",
                if success {
                    "sent"
                } else {
                    "failed"
                },
            );
            ActorReply::NetworkStatus { status: Some(status), success, msg, apn: None }
        },
        AtAction::NetworkScan => {
            let networks = match result {
                BackendResult::Networks(v) => v,
                _ => {
                    assert(false);
                    Vec::new()
                },
            };
            ActorReply::ScanResult { status: "Scan complete.".to_owned(), networks }
        },
        AtAction::SendSms(to, _) => {
            let sent = match result {
                BackendResult::Sent(ok) => ok,
                _ => {
                    assert(false);
                    false
                },
            };
            let status = if sent {
                "SMS sent successfully"
            } else {
                "SMS failed"
            };
            ActorReply::SmsSent { status: status.to_owned(), recipient: to.clone() }
        },
        AtAction::GetDeviceInfo => match result {
            BackendResult::Info(info) => ActorReply::DeviceInfo {
                info,
                max_rate: "--".to_owned(),
                volte: "--".to_owned(),
                gnss: "--".to_owned(),
            },
            _ => {
                assert(false);
                ActorReply::AtRes { data: String::new() }
            },
        },
        AtAction::Reboot => ActorReply::SettingsLog {
            msg: "Reboot command sent to module.".to_owned(),
        },
        AtAction::FactoryReset => ActorReply::SettingsLog {
            msg: "Factory reset command sent to module.".to_owned(),
        },
        AtAction::FlightMode(on) => {
            let msg = if *on {
                "Flight mode turned ON"
            } else {
                "Flight mode turned OFF"
            };
            ActorReply::SettingsLog { msg: msg.to_owned() }
        },
        AtAction::SetBandLock { .. } => {
            let (success, msg) = outcome_parts(outcome_result(result));
            ActorReply::BandLockRes { success, msg }
        },
        AtAction::SetCellLock { .. } => {
            let (success, msg) = outcome_parts(outcome_result(result));
            ActorReply::CellLockRes { success, msg }
        },
        AtAction::GetDiagnostics(diag) => {
            let outcome = outcome_result(result);
            let data = diagnose(*diag, &outcome);
            let (success, msg) = outcome_parts(outcome);
            ActorReply::DiagnosticsRes { success, msg, data }
        },
        AtAction::GetUsbConfig => match result {
            BackendResult::Usb(config) => ActorReply::UsbConfigInfo { config },
            _ => {
                assert(false);
                ActorReply::AtRes { data: String::new() }
            },
        },
        AtAction::SetSimSlot(slot) => {
            let (success, msg) = outcome_reason(outcome_result(result));
            ActorReply::SimSlotRes {
                success,
                slot: *slot,
                msg,
                note: "切换卡槽后需重启模组方可生效".to_owned(),
            }
        },
        AtAction::GetMbnList => match result {
            BackendResult::Mbn(list) => ActorReply::MbnListRes { list },
            _ => {
                assert(false);
                ActorReply::AtRes { data: String::new() }
            },
        },
        AtAction::SetMbn(_) => {
            let (success, msg) = outcome_reason(outcome_result(result));
            ActorReply::MbnSetRes {
                success,
                msg,
                note: Some("选择 MBN 后需重启模组方可生效".to_owned()),
            }
        },
        AtAction::SetMbnAutoSel(on) => {
            let text = text_result(result);
            let failed = at_exec_failed(&text);
            let msg = if failed {
                at_response_preview(&text)
            } else if *on {
                "MBN AutoSel 已启用"
            } else {
                "MBN AutoSel 已禁用（锁定当前 MBN）"
            };
            ActorReply::MbnSetRes { success: !failed, msg: msg.to_owned(), note: None }
        },
        AtAction::DeactivateMbn => {
            let text = text_result(result);
            let failed = at_exec_failed(&text);
            let msg = if failed {
                at_response_preview(&text)
            } else {
                "当前 MBN 已停用"
            };
            let note = if failed {
                ""
            } else {
                "需重启模组方可生效"
            };
            ActorReply::MbnSetRes {
                success: !failed,
                msg: msg.to_owned(),
                note: Some(note.to_owned()),
            }
        },
        AtAction::ReadImei => ActorReply::ImeiRes(answer_read_imei(&text_result(result))),
        AtAction::WriteImei(_) => ActorReply::ImeiRes(answer_write_imei(&text_result(result))),
        _ => {
            assert(false);
            ActorReply::AtRes { data: String::new() }
        },
    }
}

/// The first failed command among results that are all texts.
fn find_failure(results: &Vec<BackendResult>) -> (r: Option<usize>)
    requires
        forall|k: int| 0 <= k < results@.len() ==> (#[trigger] result_views(results@)[k]) is Text,
    ensures
        match r {
            Some(k) => k < results@.len() && first_failure(
                result_views(results@),
                results@.len() as int,
            ) == Some(k as int),
            None => first_failure(result_views(results@), results@.len() as int) is None,
        },
{
    let ghost views = result_views(results@);
    let mut k: usize = 0;
    while k < results.len()
        invariant
            k <= results@.len(),
            views == result_views(results@),
            forall|i: int| 0 <= i < results@.len() ==> (#[trigger] views[i]) is Text,
            first_failure(views, k as int) is None,
        decreases results@.len() - k,
    {
        assert(views[k as int] == results@[k as int]@);
        match &results[k] {
            BackendResult::Text(raw) => {
                if at_exec_failed(raw) {
                    proof {
                        lemma_first_failure(views, k as int, views.len() as int);
                    }
                    return Some(k);
                }
            },
            _ => {
                assert(false);
            },
        }
        k += 1;
    }
    None
}

/// What failed first stays what failed first.
proof fn lemma_first_failure(results: Seq<ResultView>, k: int, n: int)
    requires
        0 <= k < n,
        first_failure(results, k) is None,
        exec_failed(text_of_result(results, k)),
    ensures
        first_failure(results, n) == Some(k),
    decreases n,
{
    if n > k + 1 {
        lemma_first_failure(results, k, n - 1);
    }
}

/// The text of result `k`, which is one.
fn failure_text<'a>(results: &'a Vec<BackendResult>, k: usize) -> (r: &'a str)
    requires
        k < results@.len(),
        result_views(results@)[k as int] is Text,
    ensures
        r@ == text_of_result(result_views(results@), k as int),
{
    assert(result_views(results@)[k as int] == results@[k as int]@);
    match &results[k] {
        BackendResult::Text(raw) => raw.as_str(),
        _ => {
            assert(false);
            ""
        },
    }
}

fn handle_eth(driver: &str, pcie_rc: bool, results: &Vec<BackendResult>) -> (r: ActorStep)
    requires
        forall|k: int| 0 <= k < results@.len() ==> (#[trigger] result_views(results@)[k]) is Text,
    ensures
        r@ == eth_step(driver@, pcie_rc, result_views(results@)),
{
    assert(result_views(results@).len() == results@.len());
    if let Some(k) = find_failure(results) {
        let what = if k == 0 {
            "加载网卡驱动失败: "
        } else if k == 1 {
            "设置 PCIe 模式失败: "
        } else {
            "设置数据通道失败: "
        };
        let msg = concat2(what, trim(failure_text(results, k)));
        return ActorStep::Reply(ActorReply::EthRes { success: false, msg });
    }
    let steps: usize = if pcie_rc {
        3
    } else {
        2
    };
    if results.len() < steps {
        return ActorStep::Call(
            BackendCall::ExecRawAt(eth_command_text(driver, pcie_rc, results.len())),
        );
    }
    ActorStep::Reply(
        ActorReply::EthRes {
            success: true,
            msg: "网口配置全部下发成功，请热重启 (CFUN=1,1) 或断电重启使网卡生效".to_owned(),
        },
    )
}

fn handle_ippt(mode: &str, results: &Vec<BackendResult>) -> (r: ActorStep)
    requires
        forall|k: int| 0 <= k < results@.len() ==> (#[trigger] result_views(results@)[k]) is Text,
    ensures
        r@ == ippt_step(mode@, result_views(results@)),
{
    assert(result_views(results@).len() == results@.len());
    if let Some(k) = find_failure(results) {
        let what = if k == 0 {
            "开启自动拨号失败: "
        } else if k == 1 {
            "设置 LANIP 失败: "
        } else {
            "设置 DMZ 失败: "
        };
        let msg = concat2(what, trim(failure_text(results, k)));
        return ActorStep::Reply(ActorReply::IpptRes { success: false, msg });
    }
    if results.len() < 3 {
        return ActorStep::Call(BackendCall::ExecRawAt(ippt_command_text(mode, results.len())));
    }
    ActorStep::Reply(
        ActorReply::IpptRes {
            success: true,
            msg: "直通配置全部下发成功，请热重启 (CFUN=1,1) 或断电重启使配置生效".to_owned(),
        },
    )
}

/// Ends a change of the USB network mode.
fn finish_usb(set: Result<String, String>, config: Option<UsbConfig>) -> (r: ActorReply)
    ensures
        r@ == usb_reply(reply_view(set), opt_usb(config)),
{
    let (success, msg) = outcome_parts(set);
    ActorReply::UsbNetRes {
        success,
        msg,
        note: "注意：USB 模式修改后通常需要重启模组方可生效！".to_owned(),
        config,
    }
}

fn handle_usb(mode: u8, results: &mut Vec<BackendResult>) -> (r: ActorStep)
    requires
        is_transcript(AtAction::SetUsbNetMode(mode), result_views(old(results)@)),
    ensures
        r@ == usb_step(mode, result_views(old(results)@)),
        r is Call ==> final(results)@ == old(results)@,
{
    let ghost views = result_views(results@);
    let ghost action = AtAction::<Seq<char>>::SetUsbNetMode(mode);
    if results.len() == 0 {
        return ActorStep::Call(BackendCall::SetUsbNetMode(mode));
    }
    proof {
        lemma_usb_transcript(mode, views);
        assert(views[0] == results@[0]@);
    }
    if results.len() == 1 {
        let is_ok = match &results[0] {
            BackendResult::Outcome(o) => o.is_ok(),
            _ => false,
        };
        if is_ok {
            return ActorStep::Call(BackendCall::GetUsbConfig);
        }
        let set = outcome_result(results.pop().unwrap());
        return ActorStep::Reply(finish_usb(set, None));
    }
    assert(views[1] == results@[1]@);
    let config = match results.pop().unwrap() {
        BackendResult::Usb(Ok(u)) => Some(u),
        _ => None,
    };
    let set = outcome_result(results.pop().unwrap());
    ActorStep::Reply(finish_usb(set, config))
}

/// A change of the USB network mode has at most two results, and the second only after success.
proof fn lemma_usb_transcript(mode: u8, results: Seq<ResultView>)
    requires
        is_transcript(AtAction::SetUsbNetMode(mode), results),
        results.len() > 0,
    ensures
        results[0] is Outcome,
        results.len() <= 2,
        results.len() == 2 ==> results[0]->Outcome_0 is Ok && results[1] is Usb,
{
    let action = AtAction::<Seq<char>>::SetUsbNetMode(mode);
    assert(action_step(action, results.take(0)) == usb_step(mode, results.take(0)));
    if results.len() > 1 {
        assert(action_step(action, results.take(1)) == usb_step(mode, results.take(1)));
        assert(results.take(1)[0] == results[0]);
    }
    if results.len() > 2 {
        assert(action_step(action, results.take(2)) == usb_step(mode, results.take(2)));
    }
}

/// The results of a request that takes one call: none, or one of the right kind.
proof fn lemma_single_transcript(action: AtAction<Seq<char>>, results: Seq<ResultView>)
    requires
        takes_one_call(action),
        is_transcript(action, results),
    ensures
        results.len() <= 1,
        results.len() == 1 ==> fits(first_call(action)->0, results[0]),
{
    if results.len() > 0 {
        assert(action_step(action, results.take(0)) == ActorStep::<
            BackendCall<Seq<char>>,
            ActorReplyView,
        >::Call(first_call(action)->0));
    }
    if results.len() > 1 {
        assert(action_step(action, results.take(1)) is Reply);
    }
}

/// The results of a request that runs commands are texts.
proof fn lemma_text_transcript(action: AtAction<Seq<char>>, results: Seq<ResultView>)
    requires
        action is SetEthConfig || action is SetIpptConfig,
        is_transcript(action, results),
    ensures
        forall|k: int| 0 <= k < results.len() ==> (#[trigger] results[k]) is Text,
{
    assert forall|k: int| 0 <= k < results.len() implies (#[trigger] results[k]) is Text by {
        let step = action_step(action, results.take(k));
        assert(step matches ActorStep::Call(call) && fits(call, results[k]));
    }
}

/// Says what comes next for a request, given the results of the calls it has made so far. The
/// results of a request that is answered are used up.
pub fn handle_at_request(action: &AtAction, results: &mut Vec<BackendResult>) -> (r: ActorStep)
    requires
        is_transcript(action@, result_views(old(results)@)),
    ensures
        r@ == action_step(action@, result_views(old(results)@)),
        r is Call ==> final(results)@ == old(results)@,
{
    let ghost views = result_views(results@);
    match action {
        AtAction::SetInterval(secs) => {
            return ActorStep::Reply(ActorReply::SettingsLog { msg: text_of_interval(*secs) });
        },
        AtAction::SetUsbNetMode(mode) => {
            return handle_usb(*mode, results);
        },
        AtAction::SetEthConfig { driver, pcie_rc } => {
            proof {
                lemma_text_transcript(action@, views);
            }
            return handle_eth(driver, *pcie_rc, results);
        },
        AtAction::SetIpptConfig { mode } => {
            proof {
                lemma_text_transcript(action@, views);
            }
            return handle_ippt(mode, results);
        },
        _ => {},
    }
    proof {
        lemma_single_transcript(action@, views);
    }
    if results.len() == 0 {
        match begin(action) {
            Some(call) => {
                return ActorStep::Call(call);
            },
            None => {
                assert(false);
            },
        }
    }
    assert(views[0] == results@[0]@);
    let result = results.pop().unwrap();
    ActorStep::Reply(answer(action, result))
}

// ---------------------------------------------------------------------------
// Laws
// ---------------------------------------------------------------------------

/// No command up to the `n`-th failed.
proof fn lemma_no_failure(results: Seq<ResultView>, n: int)
    ensures
        first_failure(results, n) is None <==> forall|k: int|
            0 <= k < n ==> !exec_failed(#[trigger] text_of_result(results, k)),
        first_failure(results, n) matches Some(k) ==> 0 <= k < n && exec_failed(
            text_of_result(results, k),
        ),
    decreases n,
{
    if n > 0 {
        lemma_no_failure(results, n - 1);
    }
}

/// Every request is answered after at most three calls, whatever the modem says.
pub proof fn law_every_request_is_answered(
    action: AtAction<Seq<char>>,
    results: Seq<ResultView>,
)
    requires
        is_transcript(action, results),
    ensures
        results.len() <= 3,
        results.len() == 3 ==> action_step(action, results) is Reply,
{
    if results.len() >= 3 {
        assert(action_step(action, results.take(0)) is Call);
        assert(action_step(action, results.take(1)) is Call);
        assert(action_step(action, results.take(2)) is Call);
    }
    if results.len() > 3 {
        assert(action_step(action, results.take(3)) is Call);
    }
}

/// A failed command ends the set-up of the network port or of IP passthrough: the request is
/// answered as failed and no further command is run.
pub proof fn law_failed_command_ends_setup(
    action: AtAction<Seq<char>>,
    results: Seq<ResultView>,
    k: int,
)
    requires
        action is SetEthConfig || action is SetIpptConfig,
        0 <= k < results.len(),
        exec_failed(text_of_result(results, k)),
    ensures
        action_step(action, results) matches ActorStep::Reply(reply) && match reply {
            ActorReply::EthRes { success, .. } => !success,
            ActorReply::IpptRes { success, .. } => !success,
            _ => false,
        },
{
    lemma_no_failure(results, results.len() as int);
}

/// A set-up is reported as done only where each of its commands was run and none failed.
pub proof fn law_setup_succeeds_only_whole(
    action: AtAction<Seq<char>>,
    results: Seq<ResultView>,
)
    requires
        action_step(action, results) matches ActorStep::Reply(reply) && match reply {
            ActorReply::EthRes { success, .. } => success,
            ActorReply::IpptRes { success, .. } => success,
            _ => false,
        },
        action is SetEthConfig || action is SetIpptConfig,
    ensures
        forall|k: int|
            0 <= k < results.len() ==> !exec_failed(#[trigger] text_of_result(results, k)),
        action matches AtAction::SetEthConfig { pcie_rc, .. } ==> results.len() >= eth_steps(
            pcie_rc,
        ),
        action is SetIpptConfig ==> results.len() >= 3,
{
    lemma_no_failure(results, results.len() as int);
}

/// A new polling interval is at least three seconds, and is the one asked for where that is.
pub proof fn law_interval(secs: u64)
    ensures
        interval_of(secs) >= 3,
        secs >= 3 ==> interval_of(secs) == secs,
{
}

/// What kind of reply a request is answered with.
pub open spec fn answer_kind(action: AtAction<Seq<char>>) -> Seq<char> {
    match action {
        AtAction::ManualAt(..) => "at_res"@,
        AtAction::SetInterval(..) => "settings_log"@,
        AtAction::GetSmsList => "sms_list"@,
        AtAction::SetApn(..) => "network_status"@,
        AtAction::SetNetworkMode(..) => "network_status"@,
        AtAction::NetConnect(..) => "network_status"@,
        AtAction::NetworkScan => "scan_result"@,
        AtAction::SendSms(..) => "sms_sent"@,
        AtAction::GetDeviceInfo => "device_info"@,
        AtAction::Reboot => "settings_log"@,
        AtAction::FactoryReset => "settings_log"@,
        AtAction::FlightMode(..) => "settings_log"@,
        AtAction::SetBandLock { .. } => "band_lock_res"@,
        AtAction::SetCellLock { .. } => "cell_lock_res"@,
        AtAction::GetDiagnostics(..) => "diagnostics_res"@,
        AtAction::SetUsbNetMode(..) => "usb_net_res"@,
        AtAction::GetUsbConfig => "usb_config_info"@,
        AtAction::SetSimSlot(..) => "sim_slot_res"@,
        AtAction::GetMbnList => "mbn_list_res"@,
        AtAction::SetMbn(..) => "mbn_set_res"@,
        AtAction::SetMbnAutoSel(..) => "mbn_set_res"@,
        AtAction::DeactivateMbn => "mbn_set_res"@,
        AtAction::ReadImei => "imei_res"@,
        AtAction::WriteImei(..) => "imei_res"@,
        AtAction::SetEthConfig { .. } => "eth_res"@,
        AtAction::SetIpptConfig { .. } => "ippt_res"@,
    }
}

/// The kind of the reply depends on the request alone, however the calls for it end.
pub proof fn law_reply_kind(action: AtAction<Seq<char>>, results: Seq<ResultView>)
    requires
        is_transcript(action, results),
    ensures
        action_step(action, results) matches ActorStep::Reply(reply) ==> reply_kind(reply)
            == answer_kind(action),
{
    if takes_one_call(action) {
        lemma_single_transcript(action, results);
    }
}

} // verus!
