//! What requests do and how they are answered, and what polls come to.

use vstd::prelude::*;

use crate::actor::action::{AtAction, DiagnosticType};
use crate::actor::poll::{
    completed, initial_snapshot, snapshot_after, tick_result, uptime_text, Findings, HostReadings,
    PollState,
};
use crate::actor::request::{
    action_step, ActorReply, ActorReplyView, ActorStep, BackendCall, BackendResult, Diagnostics,
    ResultView, StepView,
};
use crate::actor::telemetry::{law_every_value_is_merged, shows, GlobalTelemetry, TelemetryData};
use crate::at::builder::at_param;
use crate::at::parser::neighbour_cells;
use crate::at::utils::{cmgl_text, normalized_command};
use crate::backend::process::{egmr_result, exec_failed, preview, ImeiParseResult};
use crate::backend::{Reply, StaticInfo, UsbConfig};
use crate::number::decimal;
use crate::text::{lines_of, mentions, opt_text, trimmed};

verus! {

/// A request begins with this call.
pub open spec fn calls(action: AtAction<Seq<char>>, call: BackendCall<Seq<char>>) -> bool {
    action_step(action, Seq::empty()) == StepView::Call(call)
}

/// A request is answered so after these results.
pub open spec fn answers(
    action: AtAction<Seq<char>>,
    results: Seq<ResultView>,
    reply: ActorReplyView,
) -> bool {
    action_step(action, results) == StepView::Reply(reply)
}

/// Every request reaches the modem with the values that it came with, in their places.
pub proof fn law_requests_reach_the_modem(
    a: Seq<char>,
    b: Seq<char>,
    c: Seq<char>,
    kind: u8,
    on: bool,
    pci: u32,
    earfcn: u32,
    band: Option<u32>,
    diag: DiagnosticType,
)
    ensures
        calls(AtAction::ManualAt(a), BackendCall::ExecRawAt(normalized_command(a))),
        calls(AtAction::GetSmsList, BackendCall::ReadSmsList),
        calls(AtAction::SetApn(a, b, c, kind), BackendCall::ConfigureApn(a, b, c, kind)),
        calls(AtAction::SetNetworkMode(a), BackendCall::SetNetworkModePref(a)),
        calls(AtAction::NetConnect(on), BackendCall::SetDataSession(on)),
        calls(AtAction::NetworkScan, BackendCall::ScanAvailableNetworks),
        calls(AtAction::SendSms(a, b), BackendCall::SendSmsMsg(a, b)),
        calls(AtAction::GetDeviceInfo, BackendCall::ReadDeviceInfo),
        calls(AtAction::Reboot, BackendCall::SendReboot),
        calls(AtAction::FactoryReset, BackendCall::SendFactoryReset),
        calls(AtAction::FlightMode(on), BackendCall::SetAirplaneMode(on)),
        calls(
            AtAction::SetBandLock { is_nr5g: on, bands: a },
            BackendCall::SetBandLock(on, a),
        ),
        calls(
            AtAction::SetCellLock { tech: a, pci, earfcn, band, enable: on },
            BackendCall::SetCellLock { tech: a, pci, earfcn, band, enable: on },
        ),
        calls(AtAction::GetDiagnostics(diag), BackendCall::GetDiagnostics(diag)),
        calls(AtAction::SetUsbNetMode(kind), BackendCall::SetUsbNetMode(kind)),
        calls(AtAction::GetUsbConfig, BackendCall::GetUsbConfig),
        calls(AtAction::SetSimSlot(pci), BackendCall::SetSimSlot(pci)),
        calls(AtAction::GetMbnList, BackendCall::GetMbnList),
        calls(AtAction::SetMbn(a), BackendCall::SetMbn(a)),
        calls(
            AtAction::SetMbnAutoSel(true),
            BackendCall::ExecRawAt("AT+QMBNCFG=\"AutoSel\",1"@),
        ),
        calls(
            AtAction::SetMbnAutoSel(false),
            BackendCall::ExecRawAt("AT+QMBNCFG=\"AutoSel\",0"@),
        ),
        calls(AtAction::DeactivateMbn, BackendCall::ExecRawAt("AT+QMBNCFG=\"Deactivate\""@)),
        calls(AtAction::ReadImei, BackendCall::ExecRawAt("AT+EGMR=0,7"@)),
        calls(
            AtAction::WriteImei(a),
            BackendCall::ExecRawAt("AT+EGMR=1,7,\""@ + at_param(a) + "\""@),
        ),
{
}

/// A setting is answered as made exactly where the modem took it, with what the modem said of it
/// or why it failed.
pub proof fn law_settings_are_answered(
    a: Seq<char>,
    b: Seq<char>,
    c: Seq<char>,
    kind: u8,
    on: bool,
    pci: u32,
    earfcn: u32,
    band: Option<u32>,
    text: Seq<char>,
)
    ensures
        ({
            let ok = seq![ResultView::Outcome(Ok(text))];
            let failed = seq![ResultView::Outcome(Err(text))];
            let lock = AtAction::SetBandLock { is_nr5g: on, bands: a };
            let cell = AtAction::SetCellLock { tech: a, pci, earfcn, band, enable: on };
            &&& answers(
                AtAction::SetApn(a, b, c, kind),
                ok,
                ActorReply::NetworkStatus {
                    status: Some("APN settings applied"@),
                    success: true,
                    msg: text,
                    apn: Some(a),
                },
            )
            &&& answers(
                AtAction::SetApn(a, b, c, kind),
                failed,
                ActorReply::NetworkStatus {
                    status: Some("APN settings failed"@),
                    success: false,
                    msg: text,
                    apn: Some(a),
                },
            )
            &&& answers(
                AtAction::SetNetworkMode(a),
                ok,
                ActorReply::NetworkStatus { status: None, success: true, msg: text, apn: None },
            )
            &&& answers(
                AtAction::SetNetworkMode(a),
                failed,
                ActorReply::NetworkStatus { status: None, success: false, msg: text, apn: None },
            )
            &&& answers(lock, ok, ActorReply::BandLockRes { success: true, msg: text })
            &&& answers(lock, failed, ActorReply::BandLockRes { success: false, msg: text })
            &&& answers(cell, ok, ActorReply::CellLockRes { success: true, msg: text })
            &&& answers(cell, failed, ActorReply::CellLockRes { success: false, msg: text })
            &&& answers(
                AtAction::SetSimSlot(pci),
                ok,
                ActorReply::SimSlotRes {
                    success: true,
                    slot: pci,
                    msg: "OK"@,
                    note: "切换卡槽后需重启模组方可生效"@,
                },
            )
            &&& answers(
                AtAction::SetSimSlot(pci),
                failed,
                ActorReply::SimSlotRes {
                    success: false,
                    slot: pci,
                    msg: text,
                    note: "切换卡槽后需重启模组方可生效"@,
                },
            )
            &&& answers(
                AtAction::SetMbn(a),
                ok,
                ActorReply::MbnSetRes {
                    success: true,
                    msg: "OK"@,
                    note: Some("选择 MBN 后需重启模组方可生效"@),
                },
            )
            &&& answers(
                AtAction::SetMbn(a),
                failed,
                ActorReply::MbnSetRes {
                    success: false,
                    msg: text,
                    note: Some("选择 MBN 后需重启模组方可生效"@),
                },
            )
        }),
{
}

/// Connecting and disconnecting are answered by what was asked for and whether it was sent.
pub proof fn law_connections_are_answered(text: Seq<char>)
    ensures
        ({
            let ok = seq![ResultView::Outcome(Ok(text))];
            let failed = seq![ResultView::Outcome(Err(text))];
            let reply = |status: Seq<char>, success: bool|
                ActorReplyView::NetworkStatus {
                    status: Some(status),
                    success,
                    msg: text,
                    apn: None,
                };
            &&& answers(AtAction::NetConnect(true), ok, reply("Connect command sent"@, true))
            &&& answers(AtAction::NetConnect(true), failed, reply("Connect command failed"@, false))
            &&& answers(AtAction::NetConnect(false), ok, reply("Disconnect command sent"@, true))
            &&& answers(
                AtAction::NetConnect(false),
                failed,
                reply("Disconnect command failed"@, false),
            )
        }),
{
    reveal_strlit("Connect");
    reveal_strlit("Disconnect");
    reveal_strlit(" command ");
    reveal_strlit("sent");
    reveal_strlit("failed");
    reveal_strlit("Connect command sent");
    reveal_strlit("Connect command failed");
    reveal_strlit("Disconnect command sent");
    reveal_strlit("Disconnect command failed");
    assert("Connect"@ + " command "@ + "sent"@ == "Connect command sent"@);
    assert("Connect"@ + " command "@ + "failed"@ == "Connect command failed"@);
    assert("Disconnect"@ + " command "@ + "sent"@ == "Disconnect command sent"@);
    assert("Disconnect"@ + " command "@ + "failed"@ == "Disconnect command failed"@);
}

/// What is asked for is handed on: texts, networks, descriptions and lists come out as the modem
/// gave them, and messages with their bodies decoded.
pub proof fn law_readings_are_answered(
    a: Seq<char>,
    b: Seq<char>,
    text: Seq<char>,
    result: ResultView,
    sent: bool,
)
    ensures
        answers(
            AtAction::ManualAt(a),
            seq![ResultView::Text(text)],
            ActorReply::AtRes { data: text },
        ),
        answers(
            AtAction::GetSmsList,
            seq![ResultView::Text(text)],
            ActorReply::SmsList { data: cmgl_text(lines_of(text)) },
        ),
        result matches BackendResult::Networks(networks) ==> answers(
            AtAction::NetworkScan,
            seq![result],
            ActorReply::ScanResult { status: "Scan complete."@, networks },
        ),
        result matches BackendResult::Info(info) ==> answers(
            AtAction::GetDeviceInfo,
            seq![result],
            ActorReply::DeviceInfo { info, max_rate: "--"@, volte: "--"@, gnss: "--"@ },
        ),
        result matches BackendResult::Usb(config) ==> answers(
            AtAction::GetUsbConfig,
            seq![result],
            ActorReply::UsbConfigInfo { config },
        ),
        result matches BackendResult::Mbn(list) ==> answers(
            AtAction::GetMbnList,
            seq![result],
            ActorReply::MbnListRes { list },
        ),
        answers(
            AtAction::SendSms(a, b),
            seq![ResultView::Sent(true)],
            ActorReply::SmsSent { status: "SMS sent successfully"@, recipient: a },
        ),
        answers(
            AtAction::SendSms(a, b),
            seq![ResultView::Sent(false)],
            ActorReply::SmsSent { status: "SMS failed"@, recipient: a },
        ),
{
}

/// Restarting, resetting and the flight mode are answered by what was sent.
pub proof fn law_orders_are_answered()
    ensures
        answers(
            AtAction::Reboot,
            seq![ResultView::Nothing],
            ActorReply::SettingsLog { msg: "Reboot command sent to module."@ },
        ),
        answers(
            AtAction::FactoryReset,
            seq![ResultView::Nothing],
            ActorReply::SettingsLog { msg: "Factory reset command sent to module."@ },
        ),
        answers(
            AtAction::FlightMode(true),
            seq![ResultView::Nothing],
            ActorReply::SettingsLog { msg: "Flight mode turned ON"@ },
        ),
        answers(
            AtAction::FlightMode(false),
            seq![ResultView::Nothing],
            ActorReply::SettingsLog { msg: "Flight mode turned OFF"@ },
        ),
{
}

/// Diagnostics are answered with the response; those of the neighbour cells also with the cells
/// that it lists.
pub proof fn law_diagnostics_are_answered(diag: DiagnosticType, text: Seq<char>)
    ensures
        action_step(AtAction::GetDiagnostics(diag), seq![ResultView::Outcome(Ok(text))]) matches
            ActorStep::Reply(ActorReply::DiagnosticsRes { success, msg, data }) && ({
            &&& success
            &&& msg == text
            &&& diag == DiagnosticType::Neighbour ==> data == (Diagnostics::Cells {
                raw: text,
                cells: neighbour_cells(lines_of(text)),
            })
            &&& diag != DiagnosticType::Neighbour ==> data is Raw && data->Raw_0 == Some(text)
        }),
        action_step(AtAction::GetDiagnostics(diag), seq![ResultView::Outcome(Err(text))]) matches
            ActorStep::Reply(ActorReply::DiagnosticsRes { success, msg, data }) && ({
            &&& !success
            &&& msg == text
            &&& diag == DiagnosticType::Neighbour ==> data is Cells && data->raw.len() == 0
                && data->cells.len() == 0
            &&& diag != DiagnosticType::Neighbour ==> data is Raw && data->Raw_0 is None
        }),
{
    assert(lines_of(Seq::<char>::empty()) == Seq::<Seq<char>>::empty());
    assert(neighbour_cells(Seq::empty()).len() == 0);
}

/// The automatic choice of a carrier configuration, and giving one up, are answered as done exactly
/// where the command did not fail; a failed one is shown by its response.
pub proof fn law_configurations_are_answered(text: Seq<char>, on: bool)
    ensures
        action_step(AtAction::SetMbnAutoSel(on), seq![ResultView::Text(text)]) matches
            ActorStep::Reply(ActorReply::MbnSetRes { success, msg, note }) && ({
            &&& success <==> !exec_failed(text)
            &&& exec_failed(text) ==> msg == preview(text)
            &&& !exec_failed(text) && on ==> msg == "MBN AutoSel 已启用"@
            &&& !exec_failed(text) && !on ==> msg == "MBN AutoSel 已禁用（锁定当前 MBN）"@
            &&& note is None
        }),
        action_step(AtAction::DeactivateMbn, seq![ResultView::Text(text)]) matches ActorStep::Reply(
            ActorReply::MbnSetRes { success, msg, note },
        ) && ({
            &&& success <==> !exec_failed(text)
            &&& exec_failed(text) ==> msg == preview(text) && note == Some(""@)
            &&& !exec_failed(text) ==> msg == "当前 MBN 已停用"@ && note == Some("需重启模组方可生效"@)
        }),
{
}

/// The IMEI is answered as the response tells it. One that tells nothing is a failure to read; a
/// write succeeded where the response says so and reports no failure.
pub proof fn law_imei_is_answered(a: Seq<char>, text: Seq<char>)
    ensures
        action_step(AtAction::ReadImei, seq![ResultView::Text(text)]) matches ActorStep::Reply(
            ActorReply::ImeiRes(r),
        ) && ({
            &&& egmr_result(text) matches Some(found) ==> r == found
            &&& egmr_result(text) is None ==> r == (ImeiParseResult {
                kind: "read"@,
                success: false,
                imei: None,
            })
        }),
        action_step(AtAction::WriteImei(a), seq![ResultView::Text(text)]) matches ActorStep::Reply(
            ActorReply::ImeiRes(r),
        ) && ({
            &&& egmr_result(text) matches Some(found) ==> r == found
            &&& egmr_result(text) is None ==> r == (ImeiParseResult {
                kind: "write"@,
                success: mentions(text, "OK"@) && !exec_failed(text),
                imei: None,
            })
        }),
{
}

/// The USB network mode is set and then read back; where setting it fails, that is the answer and
/// nothing is read.
pub proof fn law_usb_mode_is_answered(
    mode: u8,
    text: Seq<char>,
    e: Seq<char>,
    config: UsbConfig<Seq<char>>,
)
    ensures
        ({
            let note = "注意：USB 模式修改后通常需要重启模组方可生效！"@;
            let ok = ResultView::Outcome(Ok(text));
            let action = AtAction::<Seq<char>>::SetUsbNetMode(mode);
            &&& action_step(action, seq![ok]) == StepView::Call(BackendCall::GetUsbConfig)
            &&& answers(
                action,
                seq![ResultView::Outcome(Err(e))],
                ActorReply::UsbNetRes { success: false, msg: e, note, config: None },
            )
            &&& answers(
                action,
                seq![ok, ResultView::Usb(Ok(config))],
                ActorReply::UsbNetRes { success: true, msg: text, note, config: Some(config) },
            )
            &&& answers(
                action,
                seq![ok, ResultView::Usb(Err(e))],
                ActorReply::UsbNetRes { success: true, msg: text, note, config: None },
            )
        }),
{
}

/// A text of a command that did not fail.
pub open spec fn went_well(text: Seq<char>) -> bool {
    !exec_failed(text)
}

/// The network port is set up by loading its driver, selecting the PCIe mode and, where PCIe is
/// the root, the data channel. Each step runs where those before it went well; the first that
/// fails is reported with its response.
pub proof fn law_network_port_is_set_up(
    driver: Seq<char>,
    a: Seq<char>,
    b: Seq<char>,
    c: Seq<char>,
)
    ensures
        ({
            let x = ResultView::Text(a);
            let y = ResultView::Text(b);
            let z = ResultView::Text(c);
            let root = AtAction::SetEthConfig { driver, pcie_rc: true };
            let plain = AtAction::SetEthConfig { driver, pcie_rc: false };
            let done = ActorReplyView::EthRes {
                success: true,
                msg: "网口配置全部下发成功，请热重启 (CFUN=1,1) 或断电重启使网卡生效"@,
            };
            let load = BackendCall::ExecRawAt("AT+QETH=\"eth_driver\",\""@ + driver + "\",1"@);
            &&& calls(root, load) && calls(plain, load)
            &&& went_well(a) ==> action_step(root, seq![x]) == StepView::Call(
                BackendCall::ExecRawAt("AT+QCFG=\"pcie/mode\",1"@),
            )
            &&& went_well(a) ==> action_step(plain, seq![x]) == StepView::Call(
                BackendCall::ExecRawAt("AT+QCFG=\"pcie/mode\",0"@),
            )
            &&& went_well(a) && went_well(b) ==> action_step(root, seq![x, y]) == StepView::Call(
                BackendCall::ExecRawAt("AT+QCFG=\"data_interface\",1,0"@),
            )
            &&& went_well(a) && went_well(b) ==> answers(plain, seq![x, y], done)
            &&& went_well(a) && went_well(b) && went_well(c) ==> answers(root, seq![x, y, z], done)
            &&& !went_well(a) ==> answers(
                root,
                seq![x],
                ActorReply::EthRes { success: false, msg: "加载网卡驱动失败: "@ + trimmed(a) },
            )
            &&& went_well(a) && !went_well(b) ==> answers(
                root,
                seq![x, y],
                ActorReply::EthRes { success: false, msg: "设置 PCIe 模式失败: "@ + trimmed(b) },
            )
            &&& went_well(a) && went_well(b) && !went_well(c) ==> answers(
                root,
                seq![x, y, z],
                ActorReply::EthRes { success: false, msg: "设置数据通道失败: "@ + trimmed(c) },
            )
        }),
{
    reveal_with_fuel(crate::actor::request::first_failure, 4);
}

/// IP passthrough is set up by switching on automatic dialling, giving out the address and setting
/// the exposed host: in the mode `dmz` one address that is exposed, in any other a range and none.
pub proof fn law_passthrough_is_set_up(
    mode: Seq<char>,
    a: Seq<char>,
    b: Seq<char>,
    c: Seq<char>,
)
    ensures
        ({
            let x = ResultView::Text(a);
            let y = ResultView::Text(b);
            let z = ResultView::Text(c);
            let action = AtAction::SetIpptConfig { mode };
            let dmz = mode == "dmz"@;
            &&& calls(action, BackendCall::ExecRawAt("AT+QMAPWAC=1"@))
            &&& went_well(a) && dmz ==> action_step(action, seq![x]) == StepView::Call(
                BackendCall::ExecRawAt(
                    "AT+QMAP=\"LANIP\",192.168.225.2,192.168.225.2,192.168.225.1,1"@,
                ),
            )
            &&& went_well(a) && !dmz ==> action_step(action, seq![x]) == StepView::Call(
                BackendCall::ExecRawAt(
                    "AT+QMAP=\"LANIP\",192.168.225.20,192.168.225.100,192.168.225.1,1"@,
                ),
            )
            &&& went_well(a) && went_well(b) && dmz ==> action_step(action, seq![x, y])
                == StepView::Call(BackendCall::ExecRawAt("AT+QMAP=\"DMZ\",1,4,192.168.225.2"@))
            &&& went_well(a) && went_well(b) && !dmz ==> action_step(action, seq![x, y])
                == StepView::Call(BackendCall::ExecRawAt("AT+QMAP=\"DMZ\",0"@))
            &&& went_well(a) && went_well(b) && went_well(c) ==> answers(
                action,
                seq![x, y, z],
                ActorReply::IpptRes {
                    success: true,
                    msg: "直通配置全部下发成功，请热重启 (CFUN=1,1) 或断电重启使配置生效"@,
                },
            )
            &&& !went_well(a) ==> answers(
                action,
                seq![x],
                ActorReply::IpptRes { success: false, msg: "开启自动拨号失败: "@ + trimmed(a) },
            )
            &&& went_well(a) && !went_well(b) ==> answers(
                action,
                seq![x, y],
                ActorReply::IpptRes { success: false, msg: "设置 LANIP 失败: "@ + trimmed(b) },
            )
            &&& went_well(a) && went_well(b) && !went_well(c) ==> answers(
                action,
                seq![x, y, z],
                ActorReply::IpptRes { success: false, msg: "设置 DMZ 失败: "@ + trimmed(c) },
            )
        }),
{
    reveal_with_fuel(crate::actor::request::first_failure, 4);
}

/// A new interval is answered by the seconds that it comes to: those asked for, or three where
/// fewer are.
pub proof fn law_interval_is_answered(secs: u64)
    ensures
        secs >= 3 ==> answers(
            AtAction::SetInterval(secs),
            Seq::empty(),
            ActorReply::SettingsLog { msg: "轮询间隔已调整为 "@ + decimal(secs as nat) + " 秒"@ },
        ),
        secs < 3 ==> answers(
            AtAction::SetInterval(secs),
            Seq::empty(),
            ActorReply::SettingsLog { msg: "轮询间隔已调整为 "@ + decimal(3) + " 秒"@ },
        ),
{
}

// ---------------------------------------------------------------------------
// Polls
// ---------------------------------------------------------------------------

/// The first snapshot holds what was read at the start and nothing else.
pub proof fn law_first_snapshot(info: StaticInfo<Seq<char>>)
    ensures
        ({
            let g = initial_snapshot(info);
            &&& g.firmware_version == Some(info.firmware_version)
            &&& g.active_sim == Some(info.active_sim)
            &&& g.network_provider == Some(info.network_provider)
            &&& g.apn == Some(info.apn)
            &&& g.temperature is None && g.cpu_usage is None && g.memory_usage is None
            &&& g.sim_status is None && g.signal_percentage is None && g.internet_connection is None
            &&& g.mccmnc is None && g.network_mode is None && g.bands is None && g.bandwidth is None
            &&& g.earfcn is None && g.pci is None && g.ipv4 is None && g.ipv6 is None
            &&& g.uptime is None && g.assessment is None && g.traffic_stats is None
            &&& g.cell_id is None && g.enb_id is None && g.tac is None
            &&& g.ss_rsrq is None && g.ss_rsrp is None && g.sinr is None && g.updated is None
        }),
{
}

/// A poll counts as unanswered exactly where it found no state of the SIM, no network mode, no
/// signal and no IPv4 address; any one of them ends a run of unanswered polls, and without them it
/// is one poll longer.
pub proof fn law_unanswered_polls(
    s: PollState,
    views: usize,
    f: Findings<TelemetryData<Seq<char>>>,
    g: GlobalTelemetry<Seq<char>>,
)
    requires
        views > 0,
    ensures
        ({
            let n = tick_result(s, views, Some(f), g).0;
            let t = f.telemetry;
            &&& t.sim_status is Some ==> n.consecutive_failures == 0
            &&& t.network_mode is Some ==> n.consecutive_failures == 0
            &&& t.signal_percentage is Some ==> n.consecutive_failures == 0
            &&& t.ipv4 is Some ==> n.consecutive_failures == 0
            &&& t.sim_status is None && t.network_mode is None && t.signal_percentage is None
                && t.ipv4 is None && s.consecutive_failures < u32::MAX ==> n.consecutive_failures
                == s.consecutive_failures + 1
        }),
{
}

/// The snapshot of a module that is gone: after three unanswered polls only what does not change,
/// the load of the host and the times are left, and the connection is gone.
pub proof fn law_gone_module(
    failures: u32,
    t: TelemetryData<Seq<char>>,
    g: GlobalTelemetry<Seq<char>>,
    host: HostReadings,
)
    requires
        failures >= 3,
    ensures
        ({
            let n = snapshot_after(failures, t, g, host);
            &&& n.firmware_version == g.firmware_version
            &&& n.active_sim == g.active_sim
            &&& n.network_provider == g.network_provider
            &&& n.apn == g.apn
            &&& n.internet_connection == Some("Disconnected"@)
            &&& n.uptime == Some(decimal(host.uptime_mins as nat) + " minutes"@)
            &&& n.updated == Some(host.updated@)
            &&& n.cpu_usage == opt_text(host.cpu_usage)
            &&& n.memory_usage == opt_text(host.memory_usage)
            &&& n.temperature is None && n.sim_status is None && n.signal_percentage is None
            &&& n.mccmnc is None && n.network_mode is None && n.bands is None && n.bandwidth is None
            &&& n.earfcn is None && n.pci is None && n.ipv4 is None && n.ipv6 is None
            &&& n.assessment is None && n.traffic_stats is None
            &&& n.cell_id is None && n.enb_id is None && n.tac is None
            &&& n.ss_rsrq is None && n.ss_rsrp is None && n.sinr is None
        }),
{
}

/// The snapshot of a module that answers: every finding of the poll is shown in its place. The
/// temperature is that of the module, or of the host where the module gives none; the load of the
/// host is entered where none is known.
pub proof fn law_answering_module(
    failures: u32,
    t: TelemetryData<Seq<char>>,
    g: GlobalTelemetry<Seq<char>>,
    host: HostReadings,
)
    requires
        failures < 3,
    ensures
        ({
            let n = snapshot_after(failures, t, g, host);
            let temperature = if t.temperature is Some {
                t.temperature
            } else {
                opt_text(host.soc_temperature)
            };
            &&& shows(temperature, g.temperature, n.temperature)
            &&& shows(t.sim_status, g.sim_status, n.sim_status)
            &&& shows(t.signal_percentage, g.signal_percentage, n.signal_percentage)
            &&& shows(t.mccmnc, g.mccmnc, n.mccmnc)
            &&& shows(t.network_mode, g.network_mode, n.network_mode)
            &&& shows(t.bands, g.bands, n.bands)
            &&& shows(t.bandwidth, g.bandwidth, n.bandwidth)
            &&& shows(t.earfcn, g.earfcn, n.earfcn)
            &&& shows(t.pci, g.pci, n.pci)
            &&& shows(t.ipv4, g.ipv4, n.ipv4)
            &&& shows(t.ipv6, g.ipv6, n.ipv6)
            &&& shows(t.assessment, g.assessment, n.assessment)
            &&& shows(t.traffic_stats, g.traffic_stats, n.traffic_stats)
            &&& shows(t.cell_id, g.cell_id, n.cell_id)
            &&& shows(t.enb_id, g.enb_id, n.enb_id)
            &&& shows(t.tac, g.tac, n.tac)
            &&& shows(t.ss_rsrq, g.ss_rsrq, n.ss_rsrq)
            &&& shows(t.ss_rsrp, g.ss_rsrp, n.ss_rsrp)
            &&& shows(t.sinr, g.sinr, n.sinr)
            &&& g.cpu_usage is Some ==> n.cpu_usage == g.cpu_usage
            &&& g.cpu_usage is None ==> n.cpu_usage == opt_text(host.cpu_usage)
            &&& g.memory_usage is Some ==> n.memory_usage == g.memory_usage
            &&& g.memory_usage is None ==> n.memory_usage == opt_text(host.memory_usage)
            &&& n.uptime == Some(decimal(host.uptime_mins as nat) + " minutes"@)
            &&& n.updated == Some(host.updated@)
        }),
{
    law_every_value_is_merged(
        completed(t, opt_text(host.soc_temperature)),
        g,
        Some(uptime_text(host.uptime_mins)),
        Some(host.updated@),
    );
}

} // verus!
