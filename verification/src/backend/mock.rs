//! A modem that is not there, for work on a machine without one.

use vstd::prelude::*;

use crate::actor::action::DiagnosticType;
use crate::actor::telemetry::{no_telemetry, TelemetryData};
use crate::at::parser::{network_views, ScannedNetwork};
use crate::at::response::QmbncfgEntry;
use crate::backend::modem::mbn_views;
use crate::backend::{reply_view, DeviceInfoData, StaticInfo, UsbConfig};
use crate::text::concat3;

verus! {

/// A modem that answers everything at once.
#[derive(Debug, Clone, Copy, PartialEq, Eq)]
pub struct MockBackend;

/// The network that a scan without a modem finds.
pub open spec fn mock_network(
    operator: Seq<char>,
    mccmnc: Seq<char>,
    technology: Seq<char>,
    band: Seq<char>,
) -> ScannedNetwork<Seq<char>> {
    ScannedNetwork {
        operator,
        short_name: None,
        mccmnc,
        technology,
        status: "Available"@,
        band,
    }
}

fn make_network(operator: &str, mccmnc: &str, technology: &str, band: &str) -> (r: ScannedNetwork)
    ensures
        r@ == mock_network(operator@, mccmnc@, technology@, band@),
{
    ScannedNetwork {
        operator: operator.to_owned(),
        short_name: None,
        mccmnc: mccmnc.to_owned(),
        technology: technology.to_owned(),
        status: "Available".to_owned(),
        band: band.to_owned(),
    }
}

/// The networks that a scan without a modem finds.
pub open spec fn mock_networks() -> Seq<ScannedNetwork<Seq<char>>> {
    seq![
        mock_network("中国移动 (MOCK)"@, "46000"@, "NR5G"@, "n78"@),
        mock_network("中国联通 (MOCK)"@, "46001"@, "LTE"@, "B1"@),
        mock_network("中国电信 (MOCK)"@, "46003"@, "NR5G"@, "n78"@),
    ]
}

/// The carrier configurations of no modem.
pub open spec fn mock_mbn_list() -> Seq<QmbncfgEntry<Seq<char>>> {
    seq![
        QmbncfgEntry { index: 0, state: 1, name: "RM520NGLAAR01A02M4G_01.004 (MOCK)"@ },
        QmbncfgEntry { index: 1, state: 0, name: "RM520NGLAAR01A02M4G_01.006 (MOCK)"@ },
    ]
}

/// The description of no modem.
pub open spec fn mock_device_info() -> DeviceInfoData<Seq<char>> {
    DeviceInfoData {
        manufacturer: "QUECTEL (MOCK)"@,
        model: "RM520N-GL (MOCK)"@,
        firmware: "RM520NGLAAR01A01M4G (MOCK)"@,
        imei: "861234567890123"@,
        serial: "MOCK-SERIAL-001"@,
        hw_version: "1.0 (MOCK)"@,
        module_type: "RM520N (MOCK)"@,
        sim_status: "READY (MOCK)"@,
        imsi: "460001234567890"@,
        iccid: "89860123456789012345"@,
        phone: "+8613800000000"@,
        net_status: "Registered, home network (MOCK)"@,
        signal_quality: "-85 dBm / 75% (MOCK)"@,
        temperature: "42 °C (MOCK)"@,
        bands: "NR n78/n41, LTE B1/B3/B5/B8 (MOCK)"@,
    }
}

/// The telemetry of no modem.
pub open spec fn mock_telemetry() -> TelemetryData<Seq<char>> {
    TelemetryData {
        temperature: Some("42 °C"@),
        sim_status: Some("READY"@),
        signal_percentage: Some("88%"@),
        internet_connection: Some("Connected"@),
        network_mode: Some("NR5G SA"@),
        bands: Some("NR5G BAND 78"@),
        bandwidth: Some("100 MHz"@),
        earfcn: Some("630000"@),
        pci: Some("123"@),
        ipv4: Some("10.88.99.100"@),
        ipv6: Some("240e:1234::1"@),
        mccmnc: Some("46000"@),
        cell_id: Some("0x12345678"@),
        enb_id: Some("0x1234"@),
        tac: Some("1234"@),
        ss_rsrp: Some("-85 dBm / 75%"@),
        ss_rsrq: Some("-12 dB"@),
        sinr: Some("18 dB"@),
        assessment: Some("Excellent"@),
        traffic_stats: Some("TX 1.2 GB / RX 3.5 GB"@),
        ..no_telemetry()
    }
}

/// A reply that the module took a command.
pub open spec fn mock_ok() -> Result<Seq<char>, Seq<char>> {
    Ok("OK\r\n"@)
}

fn taken() -> (r: Result<String, String>)
    ensures
        reply_view(r) == mock_ok(),
{
    Ok("OK\r\n".to_owned())
}

impl MockBackend {
    /// Echoes a command as done.
    pub fn exec_raw_at(&self, cmd: &str) -> (r: String)
        ensures
            r@ == "+MOCK_AT: "@ + cmd@ + " -> OK\r\n"@,
    {
        concat3("+MOCK_AT: ", cmd, " -> OK\r\n")
    }

    /// Has no messages.
    pub fn read_sms_list(&self) -> (r: String)
        ensures
            r@ == "+CMGL: 0 messages\r\nOK\r\n"@,
    {
        "+CMGL: 0 messages\r\nOK\r\n".to_owned()
    }

    /// Accepts any access point.
    pub fn configure_apn(
        &self,
        apn: &str,
        _user: &str,
        _pass: &str,
        _auth_type: u8,
    ) -> (r: Result<String, String>)
        ensures
            reply_view(r) == Ok::<Seq<char>, Seq<char>>("APN "@ + apn@ + " 设置已应用 (Mock)"@),
    {
        Ok(concat3("APN ", apn, " 设置已应用 (Mock)"))
    }

    /// Accepts any mode.
    pub fn set_network_mode_pref(&self, _mode: &str) -> (r: Result<String, String>)
        ensures
            reply_view(r) == mock_ok(),
    {
        taken()
    }

    /// Accepts either state.
    pub fn set_data_session(&self, connect: bool) -> (r: Result<String, String>)
        ensures
            reply_view(r) == (if connect {
                Ok::<Seq<char>, Seq<char>>("拨号连接指令已下发 (Mock)"@)
            } else {
                Ok::<Seq<char>, Seq<char>>("拨号断开指令已下发 (Mock)"@)
            }),
    {
        if connect {
            Ok("拨号连接指令已下发 (Mock)".to_owned())
        } else {
            Ok("拨号断开指令已下发 (Mock)".to_owned())
        }
    }

    /// Finds three networks.
    pub fn scan_available_networks(&self) -> (r: Vec<ScannedNetwork>)
        ensures
            network_views(r@) == mock_networks(),
    {
        let mut r: Vec<ScannedNetwork> = Vec::new();
        r.push(make_network("中国移动 (MOCK)", "46000", "NR5G", "n78"));
        r.push(make_network("中国联通 (MOCK)", "46001", "LTE", "B1"));
        r.push(make_network("中国电信 (MOCK)", "46003", "NR5G", "n78"));
        assert(network_views(r@) == mock_networks());
        r
    }

    /// Sends any message.
    pub fn send_sms_msg(&self, _recipient: &str, _message: &str) -> (r: bool)
        ensures
            r,
    {
        true
    }

    /// Describes a made-up module.
    pub fn read_device_info(&self) -> (r: DeviceInfoData)
        ensures
            r@ == mock_device_info(),
    {
        DeviceInfoData {
            manufacturer: "QUECTEL (MOCK)".to_owned(),
            model: "RM520N-GL (MOCK)".to_owned(),
            firmware: "RM520NGLAAR01A01M4G (MOCK)".to_owned(),
            imei: "861234567890123".to_owned(),
            serial: "MOCK-SERIAL-001".to_owned(),
            hw_version: "1.0 (MOCK)".to_owned(),
            module_type: "RM520N (MOCK)".to_owned(),
            sim_status: "READY (MOCK)".to_owned(),
            imsi: "460001234567890".to_owned(),
            iccid: "89860123456789012345".to_owned(),
            phone: "+8613800000000".to_owned(),
            net_status: "Registered, home network (MOCK)".to_owned(),
            signal_quality: "-85 dBm / 75% (MOCK)".to_owned(),
            temperature: "42 °C (MOCK)".to_owned(),
            bands: "NR n78/n41, LTE B1/B3/B5/B8 (MOCK)".to_owned(),
        }
    }

    /// Accepts any bands.
    pub fn set_band_lock(&self, _is_nr5g: bool, _bands: &str) -> (r: Result<String, String>)
        ensures
            reply_view(r) == mock_ok(),
    {
        taken()
    }

    /// Accepts any cell.
    pub fn set_cell_lock(
        &self,
        _tech: &str,
        _pci: u32,
        _earfcn: u32,
        _band: Option<u32>,
        _enable: bool,
    ) -> (r: Result<String, String>)
        ensures
            reply_view(r) == mock_ok(),
    {
        taken()
    }

    /// Answers every query.
    pub fn get_diagnostics(&self, diag: DiagnosticType) -> (r: Result<String, String>)
        ensures
            reply_view(r) == Ok::<Seq<char>, Seq<char>>(
                "+MOCK_DIAG: "@ + diag.spec_name() + " -> OK\r\n"@,
            ),
    {
        Ok(concat3("+MOCK_DIAG: ", diag.name(), " -> OK\r\n"))
    }

    /// Reports a module that is online.
    pub fn poll_telemetry(&self) -> (r: TelemetryData)
        ensures
            r@ == mock_telemetry(),
    {
        let mut t = TelemetryData::default();
        t.temperature = Some("42 °C".to_owned());
        t.sim_status = Some("READY".to_owned());
        t.signal_percentage = Some("88%".to_owned());
        t.internet_connection = Some("Connected".to_owned());
        t.network_mode = Some("NR5G SA".to_owned());
        t.bands = Some("NR5G BAND 78".to_owned());
        t.bandwidth = Some("100 MHz".to_owned());
        t.earfcn = Some("630000".to_owned());
        t.pci = Some("123".to_owned());
        t.ipv4 = Some("10.88.99.100".to_owned());
        t.ipv6 = Some("240e:1234::1".to_owned());
        t.mccmnc = Some("46000".to_owned());
        t.cell_id = Some("0x12345678".to_owned());
        t.enb_id = Some("0x1234".to_owned());
        t.tac = Some("1234".to_owned());
        t.ss_rsrp = Some("-85 dBm / 75%".to_owned());
        t.ss_rsrq = Some("-12 dB".to_owned());
        t.sinr = Some("18 dB".to_owned());
        t.assessment = Some("Excellent".to_owned());
        t.traffic_stats = Some("TX 1.2 GB / RX 3.5 GB".to_owned());
        t
    }

    /// Accepts any mode.
    pub fn set_usb_net_mode(&self, _mode: u8) -> (r: Result<String, String>)
        ensures
            reply_view(r) == mock_ok(),
    {
        taken()
    }

    /// Is in ECM mode.
    pub fn get_usb_config(&self) -> (r: UsbConfig)
        ensures
            r@ == (UsbConfig {
                usbnet_mode: 1,
                usbnet_name: "ECM (Linux/Mac免驱) [MOCK]"@,
                usbnet_supported: true,
            }),
    {
        UsbConfig {
            usbnet_mode: 1,
            usbnet_name: "ECM (Linux/Mac免驱) [MOCK]".to_owned(),
            usbnet_supported: true,
        }
    }

    /// Accepts any slot.
    pub fn set_sim_slot(&self, _slot: u32) -> (r: Result<String, String>)
        ensures
            reply_view(r) == mock_ok(),
    {
        taken()
    }

    /// Lists two carrier files.
    pub fn get_mbn_list(&self) -> (r: Vec<QmbncfgEntry>)
        ensures
            mbn_views(r@) == mock_mbn_list(),
    {
        let mut r: Vec<QmbncfgEntry> = Vec::new();
        r.push(
            QmbncfgEntry {
                index: 0,
                state: 1,
                name: "RM520NGLAAR01A02M4G_01.004 (MOCK)".to_owned(),
            },
        );
        r.push(
            QmbncfgEntry {
                index: 1,
                state: 0,
                name: "RM520NGLAAR01A02M4G_01.006 (MOCK)".to_owned(),
            },
        );
        assert(mbn_views(r@) == mock_mbn_list());
        r
    }

    /// Accepts any carrier file.
    pub fn set_mbn(&self, _name: &str) -> (r: Result<String, String>)
        ensures
            reply_view(r) == mock_ok(),
    {
        taken()
    }

    /// Reports what a module reports at the start.
    pub fn read_static_info(&self) -> (r: StaticInfo)
        ensures
            r@ == (StaticInfo {
                firmware_version: "RM520NGLAAR01A01M4G (MOCK)"@,
                active_sim: "SIM 1 (MOCK)"@,
                network_provider: "中国电信 (MOCK)"@,
                apn: "ctnet (MOCK)"@,
            }),
    {
        StaticInfo {
            firmware_version: "RM520NGLAAR01A01M4G (MOCK)".to_owned(),
            active_sim: "SIM 1 (MOCK)".to_owned(),
            network_provider: "中国电信 (MOCK)".to_owned(),
            apn: "ctnet (MOCK)".to_owned(),
        }
    }

    /// The name shown for it.
    pub fn device_name(&self) -> (r: &'static str)
        ensures
            r@ == "Mock Backend (Testing)"@,
    {
        "Mock Backend (Testing)"
    }
}

} // verus!
