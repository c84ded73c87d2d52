//! What single lines of AT responses hold.

use vstd::prelude::*;

use crate::text::opt_text;

verus! {

/// `+CPIN`: the state of the SIM.
#[derive(Debug, Clone, PartialEq, Eq)]
pub struct CpinResponse<S = String> {
    /// Such as `READY` or `SIM PIN`.
    pub status: S,
}

impl View for CpinResponse {
    type V = CpinResponse<Seq<char>>;

    open spec fn view(&self) -> CpinResponse<Seq<char>> {
        CpinResponse {
            status: self.status@,
        }
    }
}

/// `+QUIMSLOT`: the SIM slot in use.
#[derive(Debug, Clone, Copy, PartialEq, Eq)]
pub struct QuimslotResponse {
    pub slot: u32,
}

/// `+QSPN`: the names of the registered network.
#[derive(Debug, Clone, PartialEq, Eq)]
pub struct QspnResponse<S = String> {
    /// Full network name.
    pub fnn: S,
    /// Short network name.
    pub snn: S,
    /// Service provider name.
    pub spn: S,
    pub alphabet: S,
}

impl View for QspnResponse {
    type V = QspnResponse<Seq<char>>;

    open spec fn view(&self) -> QspnResponse<Seq<char>> {
        QspnResponse {
            fnn: self.fnn@,
            snn: self.snn@,
            spn: self.spn@,
            alphabet: self.alphabet@,
        }
    }
}

/// `+COPS`: the selected operator.
#[derive(Debug, Clone, PartialEq, Eq)]
pub struct CopsResponse<S = String> {
    pub mode: S,
    pub format: Option<S>,
    pub oper: Option<S>,
    /// Access technology.
    pub act: Option<S>,
}

impl View for CopsResponse {
    type V = CopsResponse<Seq<char>>;

    open spec fn view(&self) -> CopsResponse<Seq<char>> {
        CopsResponse {
            mode: self.mode@,
            format: opt_text(self.format),
            oper: opt_text(self.oper),
            act: opt_text(self.act),
        }
    }
}

/// `+CGDCONT`: the definition of one data context.
#[derive(Debug, Clone, PartialEq, Eq)]
pub struct CgdcontEntry<S = String> {
    pub cid: u32,
    pub pdp_type: S,
    pub apn: S,
    pub pdp_addr: S,
    pub d_comp: S,
    pub h_comp: S,
}

impl View for CgdcontEntry {
    type V = CgdcontEntry<Seq<char>>;

    open spec fn view(&self) -> CgdcontEntry<Seq<char>> {
        CgdcontEntry {
            cid: self.cid,
            pdp_type: self.pdp_type@,
            apn: self.apn@,
            pdp_addr: self.pdp_addr@,
            d_comp: self.d_comp@,
            h_comp: self.h_comp@,
        }
    }
}

/// `+QGDNRCNT` and `+QGDAT`: the traffic counters.
#[derive(Debug, Clone, Copy, PartialEq, Eq)]
pub struct TrafficStats {
    pub tx_bytes: u64,
    pub rx_bytes: u64,
}

/// `+CGPADDR`: the addresses of one data context.
#[derive(Debug, Clone, PartialEq, Eq)]
pub struct CgpaddrEntry<S = String> {
    pub cid: u32,
    pub ipv4: S,
    pub ipv6: S,
}

impl View for CgpaddrEntry {
    type V = CgpaddrEntry<Seq<char>>;

    open spec fn view(&self) -> CgpaddrEntry<Seq<char>> {
        CgpaddrEntry {
            cid: self.cid,
            ipv4: self.ipv4@,
            ipv6: self.ipv6@,
        }
    }
}

/// `+QENG`: one serving cell.
#[derive(Debug, Clone, PartialEq, Eq)]
pub struct QengServingCell<S = String> {
    /// Such as `CONNECT` or `NOCONN`.
    pub connection_status: S,
    /// Such as `NR5G-SA`, `NR5G-NSA` or `LTE`.
    pub rat: S,
    /// `TDD` or `FDD`.
    pub opmode: S,
    pub mcc: S,
    pub mnc: S,
    pub cell_id: S,
    pub pci: S,
    pub tac: S,
    pub earfcn: S,
    pub band: S,
    pub bandwidth: S,
    pub rsrp: S,
    pub rsrq: S,
    pub sinr: S,
    pub srxlev: S,
    pub rssi: S,
}

impl View for QengServingCell {
    type V = QengServingCell<Seq<char>>;

    open spec fn view(&self) -> QengServingCell<Seq<char>> {
        QengServingCell {
            connection_status: self.connection_status@,
            rat: self.rat@,
            opmode: self.opmode@,
            mcc: self.mcc@,
            mnc: self.mnc@,
            cell_id: self.cell_id@,
            pci: self.pci@,
            tac: self.tac@,
            earfcn: self.earfcn@,
            band: self.band@,
            bandwidth: self.bandwidth@,
            rsrp: self.rsrp@,
            rsrq: self.rsrq@,
            sinr: self.sinr@,
            srxlev: self.srxlev@,
            rssi: self.rssi@,
        }
    }
}

/// `+QENG`: one neighbour cell.
#[derive(Debug, Clone, PartialEq, Eq)]
pub struct QengNeighbourCell<S = String> {
    pub rat: S,
    pub mcc: S,
    pub mnc: S,
    pub pci: S,
    pub earfcn: S,
    pub rsrp: S,
    pub rsrq: S,
    pub sinr: S,
    pub srxlev: S,
}

impl View for QengNeighbourCell {
    type V = QengNeighbourCell<Seq<char>>;

    open spec fn view(&self) -> QengNeighbourCell<Seq<char>> {
        QengNeighbourCell {
            rat: self.rat@,
            mcc: self.mcc@,
            mnc: self.mnc@,
            pci: self.pci@,
            earfcn: self.earfcn@,
            rsrp: self.rsrp@,
            rsrq: self.rsrq@,
            sinr: self.sinr@,
            srxlev: self.srxlev@,
        }
    }
}

/// `+QCAINFO`: one component carrier.
#[derive(Debug, Clone, PartialEq, Eq)]
pub struct QcainfoEntry<S = String> {
    /// `PCC` or `SCC`.
    pub component: S,
    pub earfcn: S,
    pub bandwidth: S,
    pub band: S,
    pub pci: S,
    pub scc_idx: Option<S>,
    pub rsrp: Option<S>,
    pub rsrq: Option<S>,
    pub sinr: Option<S>,
}

impl View for QcainfoEntry {
    type V = QcainfoEntry<Seq<char>>;

    open spec fn view(&self) -> QcainfoEntry<Seq<char>> {
        QcainfoEntry {
            component: self.component@,
            earfcn: self.earfcn@,
            bandwidth: self.bandwidth@,
            band: self.band@,
            pci: self.pci@,
            scc_idx: opt_text(self.scc_idx),
            rsrp: opt_text(self.rsrp),
            rsrq: opt_text(self.rsrq),
            sinr: opt_text(self.sinr),
        }
    }
}

/// `+CGCONTRDP`: the access point of an active context.
#[derive(Debug, Clone, PartialEq, Eq)]
pub struct CgcontrdpResponse<S = String> {
    pub apn: S,
}

impl View for CgcontrdpResponse {
    type V = CgcontrdpResponse<Seq<char>>;

    open spec fn view(&self) -> CgcontrdpResponse<Seq<char>> {
        CgcontrdpResponse {
            apn: self.apn@,
        }
    }
}

/// `+QTEMP`: one temperature sensor.
#[derive(Debug, Clone, PartialEq, Eq)]
pub struct QtempResponse<S = String> {
    pub sensor: S,
    /// The reading in degrees Celsius, a decimal number as the module writes it.
    pub temperature: Option<S>,
}

impl View for QtempResponse {
    type V = QtempResponse<Seq<char>>;

    open spec fn view(&self) -> QtempResponse<Seq<char>> {
        QtempResponse {
            sensor: self.sensor@,
            temperature: opt_text(self.temperature),
        }
    }
}

/// `+CNUM`: the subscriber number.
#[derive(Debug, Clone, PartialEq, Eq)]
pub struct CnumResponse<S = String> {
    pub number: S,
}

impl View for CnumResponse {
    type V = CnumResponse<Seq<char>>;

    open spec fn view(&self) -> CnumResponse<Seq<char>> {
        CnumResponse {
            number: self.number@,
        }
    }
}

/// `+QMBNCFG: "List"`: one carrier configuration.
#[derive(Debug, Clone, PartialEq, Eq)]
pub struct QmbncfgEntry<S = String> {
    pub index: u32,
    /// Whether the configuration is selected.
    pub state: u32,
    pub name: S,
}

impl View for QmbncfgEntry {
    type V = QmbncfgEntry<Seq<char>>;

    open spec fn view(&self) -> QmbncfgEntry<Seq<char>> {
        QmbncfgEntry {
            index: self.index,
            state: self.state,
            name: self.name@,
        }
    }
}

} // verus!
