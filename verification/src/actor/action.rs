//! What the modem task can be asked to do.

use vstd::prelude::*;

verus! {

/// A diagnostic query.
#[derive(Debug, Clone, Copy, PartialEq, Eq, Structural)]
pub enum DiagnosticType {
    Neighbour,
    Qlts,
    MbnList,
    AutoSelQuery,
}

impl DiagnosticType {
    /// The name under which a query is asked for.
    pub open spec fn spec_name(self) -> Seq<char> {
        match self {
            DiagnosticType::Neighbour => "neighbour"@,
            DiagnosticType::Qlts => "qlts"@,
            DiagnosticType::MbnList => "mbn_list"@,
            DiagnosticType::AutoSelQuery => "autosel_query"@,
        }
    }

    /// The name under which a query is asked for.
    pub fn name(&self) -> (r: &'static str)
        ensures
            r@ == self.spec_name(),
    {
        match self {
            DiagnosticType::Neighbour => "neighbour",
            DiagnosticType::Qlts => "qlts",
            DiagnosticType::MbnList => "mbn_list",
            DiagnosticType::AutoSelQuery => "autosel_query",
        }
    }
}

/// A request to the modem task.
#[derive(Debug, Clone, PartialEq, Eq)]
pub enum AtAction<S = String> {
    /// Runs a command as it was typed.
    ManualAt(S),
    /// Sets the polling interval in seconds.
    SetInterval(u64),
    GetSmsList,
    /// Access point, user, password and kind of authentication.
    SetApn(S, S, S, u8),
    SetNetworkMode(S),
    /// Connects or disconnects.
    NetConnect(bool),
    NetworkScan,
    /// Recipient and message.
    SendSms(S, S),
    GetDeviceInfo,
    Reboot,
    FactoryReset,
    FlightMode(bool),
    /// `all` or nothing restores all bands.
    SetBandLock { is_nr5g: bool, bands: S },
    /// Locks to a cell, or removes the lock.
    SetCellLock { tech: S, pci: u32, earfcn: u32, band: Option<u32>, enable: bool },
    GetDiagnostics(DiagnosticType),
    /// 0 RMNET, 1 ECM, 2 MBIM, 3 RNDIS, 4 NCM on SDX55, 5 NCM on SDX62.
    SetUsbNetMode(u8),
    GetUsbConfig,
    /// Slot 1 or 2.
    SetSimSlot(u32),
    GetMbnList,
    /// Selects a carrier configuration.
    SetMbn(S),
    SetMbnAutoSel(bool),
    DeactivateMbn,
    ReadImei,
    WriteImei(S),
    /// Loads the network driver and sets up PCIe, as one step.
    SetEthConfig { driver: S, pcie_rc: bool },
    /// Sets up IP passthrough, `dmz` or `nat`, as one step.
    SetIpptConfig { mode: S },
}

impl View for AtAction {
    type V = AtAction<Seq<char>>;

    open spec fn view(&self) -> AtAction<Seq<char>> {
        match *self {
            AtAction::ManualAt(cmd) => AtAction::ManualAt(cmd@),
            AtAction::SetInterval(secs) => AtAction::SetInterval(secs),
            AtAction::GetSmsList => AtAction::GetSmsList,
            AtAction::SetApn(apn, user, pass, auth) => AtAction::SetApn(apn@, user@, pass@, auth),
            AtAction::SetNetworkMode(mode) => AtAction::SetNetworkMode(mode@),
            AtAction::NetConnect(connect) => AtAction::NetConnect(connect),
            AtAction::NetworkScan => AtAction::NetworkScan,
            AtAction::SendSms(recipient, message) => AtAction::SendSms(recipient@, message@),
            AtAction::GetDeviceInfo => AtAction::GetDeviceInfo,
            AtAction::Reboot => AtAction::Reboot,
            AtAction::FactoryReset => AtAction::FactoryReset,
            AtAction::FlightMode(on) => AtAction::FlightMode(on),
            AtAction::SetBandLock { is_nr5g, bands } => AtAction::SetBandLock {
                is_nr5g,
                bands: bands@,
            },
            AtAction::SetCellLock { tech, pci, earfcn, band, enable } => AtAction::SetCellLock {
                tech: tech@,
                pci,
                earfcn,
                band,
                enable,
            },
            AtAction::GetDiagnostics(diag) => AtAction::GetDiagnostics(diag),
            AtAction::SetUsbNetMode(mode) => AtAction::SetUsbNetMode(mode),
            AtAction::GetUsbConfig => AtAction::GetUsbConfig,
            AtAction::SetSimSlot(slot) => AtAction::SetSimSlot(slot),
            AtAction::GetMbnList => AtAction::GetMbnList,
            AtAction::SetMbn(name) => AtAction::SetMbn(name@),
            AtAction::SetMbnAutoSel(on) => AtAction::SetMbnAutoSel(on),
            AtAction::DeactivateMbn => AtAction::DeactivateMbn,
            AtAction::ReadImei => AtAction::ReadImei,
            AtAction::WriteImei(imei) => AtAction::WriteImei(imei@),
            AtAction::SetEthConfig { driver, pcie_rc } => AtAction::SetEthConfig {
                driver: driver@,
                pcie_rc,
            },
            AtAction::SetIpptConfig { mode } => AtAction::SetIpptConfig { mode: mode@ },
        }
    }
}

} // verus!
