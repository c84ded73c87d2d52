//! The modem driver as scripts. A script looks at the replies to the commands that it has sent
//! so far and says what comes next: another command, or the result.

use vstd::prelude::*;

pub mod command_laws;
pub mod mock;
pub mod modem;
pub mod process;
pub mod query;
pub mod reply_laws;
pub mod script_laws;

pub use self::mock::MockBackend;
pub use self::modem::RealBackend;
pub use self::process::{
    at_exec_failed, at_response_has_error, at_response_preview, extract_egmr_imei,
    parse_egmr_response, ImeiParseResult,
};
pub use self::query::{classify_qcainfo_band, fetch_network_provider, query_device_bands};

verus! {

/// A command for the serial port.
#[derive(Debug, Clone, PartialEq, Eq)]
pub struct AtCommand<S = String> {
    pub cmd: S,
    pub timeout_secs: u64,
    /// Text to enter at the message prompt.
    pub sms_message: Option<S>,
    /// Bytes to enter at the message prompt, as hexadecimal digits.
    pub hex_body: Option<S>,
}

impl View for AtCommand {
    type V = AtCommand<Seq<char>>;

    open spec fn view(&self) -> AtCommand<Seq<char>> {
        AtCommand {
            cmd: self.cmd@,
            timeout_secs: self.timeout_secs,
            sms_message: crate::text::opt_text(self.sms_message),
            hex_body: crate::text::opt_text(self.hex_body),
        }
    }
}

/// What a script does next.
#[derive(Debug, Clone, PartialEq, Eq)]
pub enum Step<T, S = String> {
    /// Sends a command; the script goes on with its reply.
    Send(AtCommand<S>),
    /// Ends with a result.
    Done(T),
}

/// What came back for a command: the response, or why there is none.
pub type Reply<S = String> = Result<S, S>;

/// The view of a reply.
pub open spec fn reply_view(r: Result<String, String>) -> Result<Seq<char>, Seq<char>> {
    match r {
        Ok(s) => Ok(s@),
        Err(e) => Err(e@),
    }
}

/// The replies so far, in the order of the commands.
pub open spec fn reply_views(v: Seq<Result<String, String>>) -> Seq<
    Result<Seq<char>, Seq<char>>,
> {
    Seq::new(v.len(), |i: int| reply_view(v[i]))
}

/// A description of the module.
#[derive(Debug, Clone, PartialEq, Eq)]
pub struct DeviceInfoData<S = String> {
    pub manufacturer: S,
    pub model: S,
    pub firmware: S,
    pub imei: S,
    pub serial: S,
    pub hw_version: S,
    pub module_type: S,
    pub sim_status: S,
    pub imsi: S,
    pub iccid: S,
    pub phone: S,
    pub net_status: S,
    pub signal_quality: S,
    pub temperature: S,
    pub bands: S,
}

impl View for DeviceInfoData {
    type V = DeviceInfoData<Seq<char>>;

    open spec fn view(&self) -> DeviceInfoData<Seq<char>> {
        DeviceInfoData {
            manufacturer: self.manufacturer@,
            model: self.model@,
            firmware: self.firmware@,
            imei: self.imei@,
            serial: self.serial@,
            hw_version: self.hw_version@,
            module_type: self.module_type@,
            sim_status: self.sim_status@,
            imsi: self.imsi@,
            iccid: self.iccid@,
            phone: self.phone@,
            net_status: self.net_status@,
            signal_quality: self.signal_quality@,
            temperature: self.temperature@,
            bands: self.bands@,
        }
    }
}

/// The USB network mode of the module.
#[derive(Debug, Clone, PartialEq, Eq)]
pub struct UsbConfig<S = String> {
    pub usbnet_mode: u8,
    pub usbnet_name: S,
    pub usbnet_supported: bool,
}

impl View for UsbConfig {
    type V = UsbConfig<Seq<char>>;

    open spec fn view(&self) -> UsbConfig<Seq<char>> {
        UsbConfig {
            usbnet_mode: self.usbnet_mode,
            usbnet_name: self.usbnet_name@,
            usbnet_supported: self.usbnet_supported,
        }
    }
}

/// What is read once, at the start.
#[derive(Debug, Clone, PartialEq, Eq)]
pub struct StaticInfo<S = String> {
    pub firmware_version: S,
    pub active_sim: S,
    pub network_provider: S,
    pub apn: S,
}

impl View for StaticInfo {
    type V = StaticInfo<Seq<char>>;

    open spec fn view(&self) -> StaticInfo<Seq<char>> {
        StaticInfo {
            firmware_version: self.firmware_version@,
            active_sim: self.active_sim@,
            network_provider: self.network_provider@,
            apn: self.apn@,
        }
    }
}

} // verus!
