//! A value and its view hold the same: texts as sequences of characters, everything else as it is.

use vstd::prelude::*;

use crate::actor::action::AtAction;
use crate::actor::request::{ActorReply, ActorReplyView, BackendCall};
use crate::actor::telemetry::{GlobalTelemetry, TelemetryData};
use crate::at::parser::{neighbour_views, network_views, ScannedNetwork};
use crate::at::response::{
    CgcontrdpResponse, CgdcontEntry, CgpaddrEntry, CnumResponse, CopsResponse, CpinResponse,
    QcainfoEntry, QengNeighbourCell, QengServingCell, QmbncfgEntry, QspnResponse, QtempResponse,
};
use crate::auth::Claims;
use crate::backend::process::ImeiParseResult;
use crate::backend::{
    reply_view, reply_views, AtCommand, DeviceInfoData, StaticInfo, UsbConfig,
};
use crate::config::AppConfig;
use crate::text::{opt_text, strings};
use crate::web::handlers::LoginReply;
use crate::web::ws::Field;

verus! {

/// Every value of claims keeps its place.
pub proof fn law_view_of_claims(x: Claims)
    ensures
        x@.sub == x.sub@,
        x@.exp == x.exp,
        x@.iat == x.iat,
{
}

/// Every value of a field of a message keeps its place.
pub proof fn law_view_of_field(x: Field)
    ensures
        x@.name == x.name@,
        x@.value == x.value@,
{
}

/// Every value of the answer to a login keeps its place.
pub proof fn law_view_of_login_reply(x: LoginReply)
    ensures
        x@.status == x.status,
        x@.success == x.success,
        x@.msg == x.msg@,
        x@.set_cookie == opt_text(x.set_cookie),
{
}

/// Every value of a result about the IMEI keeps its place.
pub proof fn law_view_of_imei_parse_result(x: ImeiParseResult)
    ensures
        x@.kind == x.kind@,
        x@.success == x.success,
        x@.imei == opt_text(x.imei),
{
}

/// Every value of a command keeps its place.
pub proof fn law_view_of_at_command(x: AtCommand)
    ensures
        x@.cmd == x.cmd@,
        x@.timeout_secs == x.timeout_secs,
        x@.sms_message == opt_text(x.sms_message),
        x@.hex_body == opt_text(x.hex_body),
{
}

/// Every value of a description of the module keeps its place.
pub proof fn law_view_of_device_info_data(x: DeviceInfoData)
    ensures
        x@.manufacturer == x.manufacturer@,
        x@.model == x.model@,
        x@.firmware == x.firmware@,
        x@.imei == x.imei@,
        x@.serial == x.serial@,
        x@.hw_version == x.hw_version@,
        x@.module_type == x.module_type@,
        x@.sim_status == x.sim_status@,
        x@.imsi == x.imsi@,
        x@.iccid == x.iccid@,
        x@.phone == x.phone@,
        x@.net_status == x.net_status@,
        x@.signal_quality == x.signal_quality@,
        x@.temperature == x.temperature@,
        x@.bands == x.bands@,
{
}

/// Every value of a USB configuration keeps its place.
pub proof fn law_view_of_usb_config(x: UsbConfig)
    ensures
        x@.usbnet_mode == x.usbnet_mode,
        x@.usbnet_name == x.usbnet_name@,
        x@.usbnet_supported == x.usbnet_supported,
{
}

/// Every value of what does not change keeps its place.
pub proof fn law_view_of_static_info(x: StaticInfo)
    ensures
        x@.firmware_version == x.firmware_version@,
        x@.active_sim == x.active_sim@,
        x@.network_provider == x.network_provider@,
        x@.apn == x.apn@,
{
}

/// Every value of a `CpinResponse` keeps its place.
pub proof fn law_view_of_cpin_response(x: CpinResponse)
    ensures
        x@.status == x.status@,
{
}

/// Every value of a `QspnResponse` keeps its place.
pub proof fn law_view_of_qspn_response(x: QspnResponse)
    ensures
        x@.fnn == x.fnn@,
        x@.snn == x.snn@,
        x@.spn == x.spn@,
        x@.alphabet == x.alphabet@,
{
}

/// Every value of a `CopsResponse` keeps its place.
pub proof fn law_view_of_cops_response(x: CopsResponse)
    ensures
        x@.mode == x.mode@,
        x@.format == opt_text(x.format),
        x@.oper == opt_text(x.oper),
        x@.act == opt_text(x.act),
{
}

/// Every value of a `CgdcontEntry` keeps its place.
pub proof fn law_view_of_cgdcont_entry(x: CgdcontEntry)
    ensures
        x@.cid == x.cid,
        x@.pdp_type == x.pdp_type@,
        x@.apn == x.apn@,
        x@.pdp_addr == x.pdp_addr@,
        x@.d_comp == x.d_comp@,
        x@.h_comp == x.h_comp@,
{
}

/// Every value of a `CgpaddrEntry` keeps its place.
pub proof fn law_view_of_cgpaddr_entry(x: CgpaddrEntry)
    ensures
        x@.cid == x.cid,
        x@.ipv4 == x.ipv4@,
        x@.ipv6 == x.ipv6@,
{
}

/// Every value of a `QengServingCell` keeps its place.
pub proof fn law_view_of_qeng_serving_cell(x: QengServingCell)
    ensures
        x@.connection_status == x.connection_status@,
        x@.rat == x.rat@,
        x@.opmode == x.opmode@,
        x@.mcc == x.mcc@,
        x@.mnc == x.mnc@,
        x@.cell_id == x.cell_id@,
        x@.pci == x.pci@,
        x@.tac == x.tac@,
        x@.earfcn == x.earfcn@,
        x@.band == x.band@,
        x@.bandwidth == x.bandwidth@,
        x@.rsrp == x.rsrp@,
        x@.rsrq == x.rsrq@,
        x@.sinr == x.sinr@,
        x@.srxlev == x.srxlev@,
        x@.rssi == x.rssi@,
{
}

/// Every value of a `QengNeighbourCell` keeps its place.
pub proof fn law_view_of_qeng_neighbour_cell(x: QengNeighbourCell)
    ensures
        x@.rat == x.rat@,
        x@.mcc == x.mcc@,
        x@.mnc == x.mnc@,
        x@.pci == x.pci@,
        x@.earfcn == x.earfcn@,
        x@.rsrp == x.rsrp@,
        x@.rsrq == x.rsrq@,
        x@.sinr == x.sinr@,
        x@.srxlev == x.srxlev@,
{
}

/// Every value of a `QcainfoEntry` keeps its place.
pub proof fn law_view_of_qcainfo_entry(x: QcainfoEntry)
    ensures
        x@.component == x.component@,
        x@.earfcn == x.earfcn@,
        x@.bandwidth == x.bandwidth@,
        x@.band == x.band@,
        x@.pci == x.pci@,
        x@.scc_idx == opt_text(x.scc_idx),
        x@.rsrp == opt_text(x.rsrp),
        x@.rsrq == opt_text(x.rsrq),
        x@.sinr == opt_text(x.sinr),
{
}

/// Every value of a `CgcontrdpResponse` keeps its place.
pub proof fn law_view_of_cgcontrdp_response(x: CgcontrdpResponse)
    ensures
        x@.apn == x.apn@,
{
}

/// Every value of a `QtempResponse` keeps its place.
pub proof fn law_view_of_qtemp_response(x: QtempResponse)
    ensures
        x@.sensor == x.sensor@,
        x@.temperature == opt_text(x.temperature),
{
}

/// Every value of a `CnumResponse` keeps its place.
pub proof fn law_view_of_cnum_response(x: CnumResponse)
    ensures
        x@.number == x.number@,
{
}

/// Every value of a `QmbncfgEntry` keeps its place.
pub proof fn law_view_of_qmbncfg_entry(x: QmbncfgEntry)
    ensures
        x@.index == x.index,
        x@.state == x.state,
        x@.name == x.name@,
{
}

/// Every value of a network keeps its place.
pub proof fn law_view_of_scanned_network(x: ScannedNetwork)
    ensures
        x@.operator == x.operator@,
        x@.short_name == opt_text(x.short_name),
        x@.mccmnc == x.mccmnc@,
        x@.technology == x.technology@,
        x@.status == x.status@,
        x@.band == x.band@,
{
}

/// Every value of a snapshot keeps its place.
pub proof fn law_view_of_global_telemetry(x: GlobalTelemetry)
    ensures
        x@.firmware_version == opt_text(x.firmware_version),
        x@.temperature == opt_text(x.temperature),
        x@.cpu_usage == opt_text(x.cpu_usage),
        x@.memory_usage == opt_text(x.memory_usage),
        x@.sim_status == opt_text(x.sim_status),
        x@.signal_percentage == opt_text(x.signal_percentage),
        x@.internet_connection == opt_text(x.internet_connection),
        x@.active_sim == opt_text(x.active_sim),
        x@.network_provider == opt_text(x.network_provider),
        x@.mccmnc == opt_text(x.mccmnc),
        x@.apn == opt_text(x.apn),
        x@.network_mode == opt_text(x.network_mode),
        x@.bands == opt_text(x.bands),
        x@.bandwidth == opt_text(x.bandwidth),
        x@.earfcn == opt_text(x.earfcn),
        x@.pci == opt_text(x.pci),
        x@.ipv4 == opt_text(x.ipv4),
        x@.ipv6 == opt_text(x.ipv6),
        x@.uptime == opt_text(x.uptime),
        x@.assessment == opt_text(x.assessment),
        x@.traffic_stats == opt_text(x.traffic_stats),
        x@.cell_id == opt_text(x.cell_id),
        x@.enb_id == opt_text(x.enb_id),
        x@.tac == opt_text(x.tac),
        x@.ss_rsrq == opt_text(x.ss_rsrq),
        x@.ss_rsrp == opt_text(x.ss_rsrp),
        x@.sinr == opt_text(x.sinr),
        x@.updated == opt_text(x.updated),
{
}

/// Every value of the findings of a poll keeps its place.
pub proof fn law_view_of_telemetry_data(x: TelemetryData)
    ensures
        x@.temperature == opt_text(x.temperature),
        x@.sim_status == opt_text(x.sim_status),
        x@.signal_percentage == opt_text(x.signal_percentage),
        x@.internet_connection == opt_text(x.internet_connection),
        x@.active_sim == opt_text(x.active_sim),
        x@.network_provider == opt_text(x.network_provider),
        x@.mccmnc == opt_text(x.mccmnc),
        x@.apn == opt_text(x.apn),
        x@.network_mode == opt_text(x.network_mode),
        x@.bands == opt_text(x.bands),
        x@.bandwidth == opt_text(x.bandwidth),
        x@.earfcn == opt_text(x.earfcn),
        x@.pci == opt_text(x.pci),
        x@.ipv4 == opt_text(x.ipv4),
        x@.ipv6 == opt_text(x.ipv6),
        x@.uptime == opt_text(x.uptime),
        x@.assessment == opt_text(x.assessment),
        x@.traffic_stats == opt_text(x.traffic_stats),
        x@.cell_id == opt_text(x.cell_id),
        x@.enb_id == opt_text(x.enb_id),
        x@.tac == opt_text(x.tac),
        x@.ss_rsrq == opt_text(x.ss_rsrq),
        x@.ss_rsrp == opt_text(x.ss_rsrp),
        x@.sinr == opt_text(x.sinr),
        x@.updated == opt_text(x.updated),
{
}

/// Every value of a configuration keeps its place.
pub proof fn law_view_of_app_config(x: AppConfig)
    ensures
        x@.serial_path == x.serial_path@,
        x@.jwt_secret == x.jwt_secret@,
        x@.admin_username == x.admin_username@,
        x@.admin_pass_sha == x.admin_pass_sha@,
        x@.enable_https == x.enable_https,
        x@.enable_http_redirect == x.enable_http_redirect,
        x@.http_port == x.http_port,
        x@.https_port == x.https_port,
        x@.http_addr == x.http_addr@,
        x@.https_addr == x.https_addr@,
{
}

/// Every value of a request keeps its place.
pub proof fn law_view_of_at_action(x: AtAction)
    ensures
        x matches AtAction::ManualAt(a) ==> x@ == AtAction::<Seq<char>>::ManualAt(a@),
        x matches AtAction::SetInterval(a) ==> x@ == AtAction::<Seq<char>>::SetInterval(a),
        x is GetSmsList ==> x@ == AtAction::<Seq<char>>::GetSmsList,
        x matches AtAction::SetApn(a, b, c, d) ==> x@
            == AtAction::<Seq<char>>::SetApn(a@, b@, c@, d),
        x matches AtAction::SetNetworkMode(a) ==> x@ == AtAction::<Seq<char>>::SetNetworkMode(a@),
        x matches AtAction::NetConnect(a) ==> x@ == AtAction::<Seq<char>>::NetConnect(a),
        x is NetworkScan ==> x@ == AtAction::<Seq<char>>::NetworkScan,
        x matches AtAction::SendSms(a, b) ==> x@ == AtAction::<Seq<char>>::SendSms(a@, b@),
        x is GetDeviceInfo ==> x@ == AtAction::<Seq<char>>::GetDeviceInfo,
        x is Reboot ==> x@ == AtAction::<Seq<char>>::Reboot,
        x is FactoryReset ==> x@ == AtAction::<Seq<char>>::FactoryReset,
        x matches AtAction::FlightMode(a) ==> x@ == AtAction::<Seq<char>>::FlightMode(a),
        x matches AtAction::SetBandLock { is_nr5g, bands } ==> x@
            == (AtAction::<Seq<char>>::SetBandLock { is_nr5g, bands: bands@ }),
        x matches AtAction::SetCellLock { tech, pci, earfcn, band, enable } ==> x@
            == (AtAction::<Seq<char>>::SetCellLock { tech: tech@, pci, earfcn, band, enable }),
        x matches AtAction::GetDiagnostics(a) ==> x@ == AtAction::<Seq<char>>::GetDiagnostics(a),
        x matches AtAction::SetUsbNetMode(a) ==> x@ == AtAction::<Seq<char>>::SetUsbNetMode(a),
        x is GetUsbConfig ==> x@ == AtAction::<Seq<char>>::GetUsbConfig,
        x matches AtAction::SetSimSlot(a) ==> x@ == AtAction::<Seq<char>>::SetSimSlot(a),
        x is GetMbnList ==> x@ == AtAction::<Seq<char>>::GetMbnList,
        x matches AtAction::SetMbn(a) ==> x@ == AtAction::<Seq<char>>::SetMbn(a@),
        x matches AtAction::SetMbnAutoSel(a) ==> x@ == AtAction::<Seq<char>>::SetMbnAutoSel(a),
        x is DeactivateMbn ==> x@ == AtAction::<Seq<char>>::DeactivateMbn,
        x is ReadImei ==> x@ == AtAction::<Seq<char>>::ReadImei,
        x matches AtAction::WriteImei(a) ==> x@ == AtAction::<Seq<char>>::WriteImei(a@),
        x matches AtAction::SetEthConfig { driver, pcie_rc } ==> x@
            == (AtAction::<Seq<char>>::SetEthConfig { driver: driver@, pcie_rc }),
        x matches AtAction::SetIpptConfig { mode } ==> x@
            == (AtAction::<Seq<char>>::SetIpptConfig { mode: mode@ }),
{
}

/// Every value of a call keeps its place.
pub proof fn law_view_of_backend_call(x: BackendCall)
    ensures
        x matches BackendCall::ExecRawAt(a) ==> x@ == BackendCall::<Seq<char>>::ExecRawAt(a@),
        x is ReadSmsList ==> x@ == BackendCall::<Seq<char>>::ReadSmsList,
        x matches BackendCall::ConfigureApn(a, b, c, d) ==> x@
            == BackendCall::<Seq<char>>::ConfigureApn(a@, b@, c@, d),
        x matches BackendCall::SetNetworkModePref(a) ==> x@
            == BackendCall::<Seq<char>>::SetNetworkModePref(a@),
        x matches BackendCall::SetDataSession(a) ==> x@
            == BackendCall::<Seq<char>>::SetDataSession(a),
        x is ScanAvailableNetworks ==> x@ == BackendCall::<Seq<char>>::ScanAvailableNetworks,
        x matches BackendCall::SendSmsMsg(a, b) ==> x@
            == BackendCall::<Seq<char>>::SendSmsMsg(a@, b@),
        x is ReadDeviceInfo ==> x@ == BackendCall::<Seq<char>>::ReadDeviceInfo,
        x is SendReboot ==> x@ == BackendCall::<Seq<char>>::SendReboot,
        x is SendFactoryReset ==> x@ == BackendCall::<Seq<char>>::SendFactoryReset,
        x matches BackendCall::SetAirplaneMode(a) ==> x@
            == BackendCall::<Seq<char>>::SetAirplaneMode(a),
        x matches BackendCall::SetBandLock(a, b) ==> x@
            == BackendCall::<Seq<char>>::SetBandLock(a, b@),
        x matches BackendCall::SetCellLock { tech, pci, earfcn, band, enable } ==> x@
            == (BackendCall::<Seq<char>>::SetCellLock { tech: tech@, pci, earfcn, band, enable }),
        x matches BackendCall::GetDiagnostics(a) ==> x@
            == BackendCall::<Seq<char>>::GetDiagnostics(a),
        x matches BackendCall::SetUsbNetMode(a) ==> x@
            == BackendCall::<Seq<char>>::SetUsbNetMode(a),
        x is GetUsbConfig ==> x@ == BackendCall::<Seq<char>>::GetUsbConfig,
        x matches BackendCall::SetSimSlot(a) ==> x@ == BackendCall::<Seq<char>>::SetSimSlot(a),
        x is GetMbnList ==> x@ == BackendCall::<Seq<char>>::GetMbnList,
        x matches BackendCall::SetMbn(a) ==> x@ == BackendCall::<Seq<char>>::SetMbn(a@),
{
}

/// Every value of an answer keeps its place.
pub proof fn law_view_of_actor_reply(x: ActorReply)
    ensures
        x matches ActorReply::AtRes { data } ==> x@ == (ActorReplyView::AtRes { data: data@ }),
        x matches ActorReply::SettingsLog { msg } ==> x@ == (ActorReplyView::SettingsLog {
            msg: msg@,
        }),
        x matches ActorReply::SmsList { data } ==> x@ == (ActorReplyView::SmsList { data: data@ }),
        x matches ActorReply::NetworkStatus { status, success, msg, apn } ==> x@ == (
        ActorReplyView::NetworkStatus {
            status: opt_text(status),
            success,
            msg: msg@,
            apn: opt_text(apn),
        }),
        x matches ActorReply::ScanResult { status, networks } ==> x@ == (
        ActorReplyView::ScanResult { status: status@, networks: network_views(networks@) }),
        x matches ActorReply::SmsSent { status, recipient } ==> x@ == (ActorReplyView::SmsSent {
            status: status@,
            recipient: recipient@,
        }),
        x matches ActorReply::DeviceInfo { info, max_rate, volte, gnss } ==> x@ == (
        ActorReplyView::DeviceInfo {
            info: info@,
            max_rate: max_rate@,
            volte: volte@,
            gnss: gnss@,
        }),
        x matches ActorReply::BandLockRes { success, msg } ==> x@ == (ActorReplyView::BandLockRes {
            success,
            msg: msg@,
        }),
        x matches ActorReply::CellLockRes { success, msg } ==> x@ == (ActorReplyView::CellLockRes {
            success,
            msg: msg@,
        }),
        x matches ActorReply::SimSlotRes { success, slot, msg, note } ==> x@ == (
        ActorReplyView::SimSlotRes { success, slot, msg: msg@, note: note@ }),
        x matches ActorReply::MbnSetRes { success, msg, note } ==> x@ == (
        ActorReplyView::MbnSetRes { success, msg: msg@, note: opt_text(note) }),
        x matches ActorReply::ImeiRes(r) ==> x@ == ActorReplyView::ImeiRes(r@),
        x matches ActorReply::EthRes { success, msg } ==> x@ == (ActorReplyView::EthRes {
            success,
            msg: msg@,
        }),
        x matches ActorReply::IpptRes { success, msg } ==> x@ == (ActorReplyView::IpptRes {
            success,
            msg: msg@,
        }),
{
}

/// A success stays a success and a failure a failure, with the same text.
pub proof fn law_view_of_reply(x: Result<String, String>)
    ensures
        x matches Ok(s) ==> reply_view(x) == Ok::<Seq<char>, Seq<char>>(s@),
        x matches Err(e) ==> reply_view(x) == Err::<Seq<char>, Seq<char>>(e@),
{
}

/// A list has the views of its items, in their order.
pub proof fn law_views_of_lists(
    replies: Seq<Result<String, String>>,
    networks: Seq<ScannedNetwork>,
    neighbours: Seq<QengNeighbourCell>,
    list: Seq<String>,
    i: int,
)
    ensures
        reply_views(replies).len() == replies.len(),
        0 <= i < replies.len() ==> reply_views(replies)[i] == reply_view(replies[i]),
        network_views(networks).len() == networks.len(),
        0 <= i < networks.len() ==> network_views(networks)[i] == networks[i]@,
        neighbour_views(neighbours).len() == neighbours.len(),
        0 <= i < neighbours.len() ==> neighbour_views(neighbours)[i] == neighbours[i]@,
        strings(list).len() == list.len(),
        0 <= i < list.len() ==> strings(list)[i] == list[i]@,
{
}

} // verus!
