//! The telemetry snapshot and how a poll is merged into it.

use vstd::prelude::*;

use crate::text::{opt_text, same};

verus! {

/// The telemetry that is shown to every viewer.
#[derive(Debug, Clone, PartialEq, Eq)]
pub struct GlobalTelemetry<S = String> {
    pub firmware_version: Option<S>,
    pub temperature: Option<S>,
    pub cpu_usage: Option<S>,
    pub memory_usage: Option<S>,
    pub sim_status: Option<S>,
    pub signal_percentage: Option<S>,
    pub internet_connection: Option<S>,
    pub active_sim: Option<S>,
    pub network_provider: Option<S>,
    pub mccmnc: Option<S>,
    pub apn: Option<S>,
    pub network_mode: Option<S>,
    pub bands: Option<S>,
    pub bandwidth: Option<S>,
    pub earfcn: Option<S>,
    pub pci: Option<S>,
    pub ipv4: Option<S>,
    pub ipv6: Option<S>,
    pub uptime: Option<S>,
    pub assessment: Option<S>,
    pub traffic_stats: Option<S>,
    pub cell_id: Option<S>,
    pub enb_id: Option<S>,
    pub tac: Option<S>,
    pub ss_rsrq: Option<S>,
    pub ss_rsrp: Option<S>,
    pub sinr: Option<S>,
    pub updated: Option<S>,
}

impl View for GlobalTelemetry {
    type V = GlobalTelemetry<Seq<char>>;

    open spec fn view(&self) -> GlobalTelemetry<Seq<char>> {
        GlobalTelemetry {
            firmware_version: opt_text(self.firmware_version),
            temperature: opt_text(self.temperature),
            cpu_usage: opt_text(self.cpu_usage),
            memory_usage: opt_text(self.memory_usage),
            sim_status: opt_text(self.sim_status),
            signal_percentage: opt_text(self.signal_percentage),
            internet_connection: opt_text(self.internet_connection),
            active_sim: opt_text(self.active_sim),
            network_provider: opt_text(self.network_provider),
            mccmnc: opt_text(self.mccmnc),
            apn: opt_text(self.apn),
            network_mode: opt_text(self.network_mode),
            bands: opt_text(self.bands),
            bandwidth: opt_text(self.bandwidth),
            earfcn: opt_text(self.earfcn),
            pci: opt_text(self.pci),
            ipv4: opt_text(self.ipv4),
            ipv6: opt_text(self.ipv6),
            uptime: opt_text(self.uptime),
            assessment: opt_text(self.assessment),
            traffic_stats: opt_text(self.traffic_stats),
            cell_id: opt_text(self.cell_id),
            enb_id: opt_text(self.enb_id),
            tac: opt_text(self.tac),
            ss_rsrq: opt_text(self.ss_rsrq),
            ss_rsrp: opt_text(self.ss_rsrp),
            sinr: opt_text(self.sinr),
            updated: opt_text(self.updated),
        }
    }
}

impl Default for GlobalTelemetry {
    fn default() -> (r: Self)
        ensures
            r@ == no_global_telemetry(),
    {
        GlobalTelemetry {
            firmware_version: None,
            temperature: None,
            cpu_usage: None,
            memory_usage: None,
            sim_status: None,
            signal_percentage: None,
            internet_connection: None,
            active_sim: None,
            network_provider: None,
            mccmnc: None,
            apn: None,
            network_mode: None,
            bands: None,
            bandwidth: None,
            earfcn: None,
            pci: None,
            ipv4: None,
            ipv6: None,
            uptime: None,
            assessment: None,
            traffic_stats: None,
            cell_id: None,
            enb_id: None,
            tac: None,
            ss_rsrq: None,
            ss_rsrp: None,
            sinr: None,
            updated: None,
        }
    }
}

/// What one poll of the modem found out.
#[derive(Debug, Clone, PartialEq, Eq)]
pub struct TelemetryData<S = String> {
    pub temperature: Option<S>,
    pub sim_status: Option<S>,
    pub signal_percentage: Option<S>,
    pub internet_connection: Option<S>,
    pub active_sim: Option<S>,
    pub network_provider: Option<S>,
    pub mccmnc: Option<S>,
    pub apn: Option<S>,
    pub network_mode: Option<S>,
    pub bands: Option<S>,
    pub bandwidth: Option<S>,
    pub earfcn: Option<S>,
    pub pci: Option<S>,
    pub ipv4: Option<S>,
    pub ipv6: Option<S>,
    pub uptime: Option<S>,
    pub assessment: Option<S>,
    pub traffic_stats: Option<S>,
    pub cell_id: Option<S>,
    pub enb_id: Option<S>,
    pub tac: Option<S>,
    pub ss_rsrq: Option<S>,
    pub ss_rsrp: Option<S>,
    pub sinr: Option<S>,
    pub updated: Option<S>,
}

impl View for TelemetryData {
    type V = TelemetryData<Seq<char>>;

    open spec fn view(&self) -> TelemetryData<Seq<char>> {
        TelemetryData {
            temperature: opt_text(self.temperature),
            sim_status: opt_text(self.sim_status),
            signal_percentage: opt_text(self.signal_percentage),
            internet_connection: opt_text(self.internet_connection),
            active_sim: opt_text(self.active_sim),
            network_provider: opt_text(self.network_provider),
            mccmnc: opt_text(self.mccmnc),
            apn: opt_text(self.apn),
            network_mode: opt_text(self.network_mode),
            bands: opt_text(self.bands),
            bandwidth: opt_text(self.bandwidth),
            earfcn: opt_text(self.earfcn),
            pci: opt_text(self.pci),
            ipv4: opt_text(self.ipv4),
            ipv6: opt_text(self.ipv6),
            uptime: opt_text(self.uptime),
            assessment: opt_text(self.assessment),
            traffic_stats: opt_text(self.traffic_stats),
            cell_id: opt_text(self.cell_id),
            enb_id: opt_text(self.enb_id),
            tac: opt_text(self.tac),
            ss_rsrq: opt_text(self.ss_rsrq),
            ss_rsrp: opt_text(self.ss_rsrp),
            sinr: opt_text(self.sinr),
            updated: opt_text(self.updated),
        }
    }
}

impl Default for TelemetryData {
    fn default() -> (r: Self)
        ensures
            r@ == no_telemetry(),
    {
        TelemetryData {
            temperature: None,
            sim_status: None,
            signal_percentage: None,
            internet_connection: None,
            active_sim: None,
            network_provider: None,
            mccmnc: None,
            apn: None,
            network_mode: None,
            bands: None,
            bandwidth: None,
            earfcn: None,
            pci: None,
            ipv4: None,
            ipv6: None,
            uptime: None,
            assessment: None,
            traffic_stats: None,
            cell_id: None,
            enb_id: None,
            tac: None,
            ss_rsrq: None,
            ss_rsrp: None,
            sinr: None,
            updated: None,
        }
    }
}

/// A GlobalTelemetry with nothing known.
pub open spec fn no_global_telemetry() -> GlobalTelemetry<Seq<char>> {
    GlobalTelemetry {
        firmware_version: None,
        temperature: None,
        cpu_usage: None,
        memory_usage: None,
        sim_status: None,
        signal_percentage: None,
        internet_connection: None,
        active_sim: None,
        network_provider: None,
        mccmnc: None,
        apn: None,
        network_mode: None,
        bands: None,
        bandwidth: None,
        earfcn: None,
        pci: None,
        ipv4: None,
        ipv6: None,
        uptime: None,
        assessment: None,
        traffic_stats: None,
        cell_id: None,
        enb_id: None,
        tac: None,
        ss_rsrq: None,
        ss_rsrp: None,
        sinr: None,
        updated: None,
    }
}

/// A TelemetryData with nothing known.
pub open spec fn no_telemetry() -> TelemetryData<Seq<char>> {
    TelemetryData {
        temperature: None,
        sim_status: None,
        signal_percentage: None,
        internet_connection: None,
        active_sim: None,
        network_provider: None,
        mccmnc: None,
        apn: None,
        network_mode: None,
        bands: None,
        bandwidth: None,
        earfcn: None,
        pci: None,
        ipv4: None,
        ipv6: None,
        uptime: None,
        assessment: None,
        traffic_stats: None,
        cell_id: None,
        enb_id: None,
        tac: None,
        ss_rsrq: None,
        ss_rsrp: None,
        sinr: None,
        updated: None,
    }
}

/// A value that says that nothing is known.
pub open spec fn is_blank(v: Seq<char>) -> bool {
    v == "NA"@ || v == "N/A"@ || v == "--"@
}

/// The new value where the poll found one, else the old one. A blank value shows as `--`.
#[verifier::opaque]
pub open spec fn kept(new: Option<Seq<char>>, old: Option<Seq<char>>) -> Option<Seq<char>> {
    match new {
        Some(v) if v.len() > 0 => if is_blank(v) {
            Some("--"@)
        } else {
            Some(v)
        },
        _ => old,
    }
}

/// The snapshot `g` with the findings of the poll `t` merged in.
pub open spec fn merged(
    t: TelemetryData<Seq<char>>,
    g: GlobalTelemetry<Seq<char>>,
    uptime: Option<Seq<char>>,
    updated: Option<Seq<char>>,
) -> GlobalTelemetry<Seq<char>> {
    GlobalTelemetry {
        firmware_version: g.firmware_version,
        temperature: kept(t.temperature, g.temperature),
        cpu_usage: g.cpu_usage,
        memory_usage: g.memory_usage,
        sim_status: kept(t.sim_status, g.sim_status),
        signal_percentage: kept(t.signal_percentage, g.signal_percentage),
        internet_connection: kept(t.internet_connection, g.internet_connection),
        active_sim: g.active_sim,
        network_provider: g.network_provider,
        mccmnc: kept(t.mccmnc, g.mccmnc),
        apn: g.apn,
        network_mode: kept(t.network_mode, g.network_mode),
        bands: kept(t.bands, g.bands),
        bandwidth: kept(t.bandwidth, g.bandwidth),
        earfcn: kept(t.earfcn, g.earfcn),
        pci: kept(t.pci, g.pci),
        ipv4: kept(t.ipv4, g.ipv4),
        ipv6: kept(t.ipv6, g.ipv6),
        uptime,
        assessment: kept(t.assessment, g.assessment),
        traffic_stats: kept(t.traffic_stats, g.traffic_stats),
        cell_id: kept(t.cell_id, g.cell_id),
        enb_id: kept(t.enb_id, g.enb_id),
        tac: kept(t.tac, g.tac),
        ss_rsrq: kept(t.ss_rsrq, g.ss_rsrq),
        ss_rsrp: kept(t.ss_rsrp, g.ss_rsrp),
        sinr: kept(t.sinr, g.sinr),
        updated,
    }
}

/// A copy of an optional text.
pub fn copy_opt(o: &Option<String>) -> (r: Option<String>)
    ensures
        opt_text(r) == opt_text(*o),
{
    match o {
        Some(s) => Some(s.clone()),
        None => None,
    }
}

/// The new value where the poll found one, else the old one.
pub fn keep_valid(new: &Option<String>, old: &Option<String>) -> (r: Option<String>)
    ensures
        opt_text(r) == kept(opt_text(*new), opt_text(*old)),
{
    reveal(kept);
    match new {
        Some(val) => {
            if val.as_str().is_empty() {
                copy_opt(old)
            } else if same(val, "NA") || same(val, "N/A") || same(val, "--") {
                Some("--".to_owned())
            } else {
                Some(val.clone())
            }
        },
        None => copy_opt(old),
    }
}

impl GlobalTelemetry {
    /// Merges the findings of a poll into the snapshot.
    pub fn from_telemetry_and_global(
        t: &TelemetryData,
        g: &GlobalTelemetry,
        uptime: Option<String>,
        updated: Option<String>,
    ) -> (r: GlobalTelemetry)
        ensures
            r@ == merged(t@, g@, opt_text(uptime), opt_text(updated)),
    {
        GlobalTelemetry {
            firmware_version: copy_opt(&g.firmware_version),
            temperature: keep_valid(&t.temperature, &g.temperature),
            cpu_usage: copy_opt(&g.cpu_usage),
            memory_usage: copy_opt(&g.memory_usage),
            sim_status: keep_valid(&t.sim_status, &g.sim_status),
            signal_percentage: keep_valid(&t.signal_percentage, &g.signal_percentage),
            internet_connection: keep_valid(&t.internet_connection, &g.internet_connection),
            active_sim: copy_opt(&g.active_sim),
            network_provider: copy_opt(&g.network_provider),
            mccmnc: keep_valid(&t.mccmnc, &g.mccmnc),
            apn: copy_opt(&g.apn),
            network_mode: keep_valid(&t.network_mode, &g.network_mode),
            bands: keep_valid(&t.bands, &g.bands),
            bandwidth: keep_valid(&t.bandwidth, &g.bandwidth),
            earfcn: keep_valid(&t.earfcn, &g.earfcn),
            pci: keep_valid(&t.pci, &g.pci),
            ipv4: keep_valid(&t.ipv4, &g.ipv4),
            ipv6: keep_valid(&t.ipv6, &g.ipv6),
            uptime,
            assessment: keep_valid(&t.assessment, &g.assessment),
            traffic_stats: keep_valid(&t.traffic_stats, &g.traffic_stats),
            cell_id: keep_valid(&t.cell_id, &g.cell_id),
            enb_id: keep_valid(&t.enb_id, &g.enb_id),
            tac: keep_valid(&t.tac, &g.tac),
            ss_rsrq: keep_valid(&t.ss_rsrq, &g.ss_rsrq),
            ss_rsrp: keep_valid(&t.ss_rsrp, &g.ss_rsrp),
            sinr: keep_valid(&t.sinr, &g.sinr),
            updated,
        }
    }
}

// ---------------------------------------------------------------------------
// Laws
// ---------------------------------------------------------------------------

/// A poll that found nothing changes nothing but the times.
pub proof fn law_empty_poll_keeps_snapshot(
    g: GlobalTelemetry<Seq<char>>,
    uptime: Option<Seq<char>>,
    updated: Option<Seq<char>>,
)
    ensures
        merged(no_telemetry(), g, uptime, updated) == (GlobalTelemetry { uptime, updated, ..g }),
{
    reveal(kept);
}

/// A value that a poll finds is shown; an empty one does not wipe out what is known.
pub proof fn law_found_value_is_shown(v: Seq<char>, old: Option<Seq<char>>)
    ensures
        v.len() > 0 && !is_blank(v) ==> kept(Some(v), old) == Some(v),
        v.len() == 0 ==> kept(Some(v), old) == old,
        kept(None, old) == old,
        old is Some ==> kept(Some(v), old) is Some,
{
    reveal(kept);
}

proof fn lemma_kept_twice(new: Option<Seq<char>>, old: Option<Seq<char>>)
    ensures
        kept(new, kept(new, old)) == kept(new, old),
{
    reveal(kept);
}

/// Merging the same poll a second time changes nothing.
pub proof fn law_merge_idempotent(
    t: TelemetryData<Seq<char>>,
    g: GlobalTelemetry<Seq<char>>,
    uptime: Option<Seq<char>>,
    updated: Option<Seq<char>>,
)
    ensures
        merged(t, merged(t, g, uptime, updated), uptime, updated) == merged(t, g, uptime, updated),
{
    lemma_kept_twice(t.temperature, g.temperature);
    lemma_kept_twice(t.sim_status, g.sim_status);
    lemma_kept_twice(t.signal_percentage, g.signal_percentage);
    lemma_kept_twice(t.internet_connection, g.internet_connection);
    lemma_kept_twice(t.mccmnc, g.mccmnc);
    lemma_kept_twice(t.network_mode, g.network_mode);
    lemma_kept_twice(t.bands, g.bands);
    lemma_kept_twice(t.bandwidth, g.bandwidth);
    lemma_kept_twice(t.earfcn, g.earfcn);
    lemma_kept_twice(t.pci, g.pci);
    lemma_kept_twice(t.ipv4, g.ipv4);
    lemma_kept_twice(t.ipv6, g.ipv6);
    lemma_kept_twice(t.assessment, g.assessment);
    lemma_kept_twice(t.traffic_stats, g.traffic_stats);
    lemma_kept_twice(t.cell_id, g.cell_id);
    lemma_kept_twice(t.enb_id, g.enb_id);
    lemma_kept_twice(t.tac, g.tac);
    lemma_kept_twice(t.ss_rsrq, g.ss_rsrq);
    lemma_kept_twice(t.ss_rsrp, g.ss_rsrp);
    lemma_kept_twice(t.sinr, g.sinr);
}

/// What is shown of a value: one that a poll finds is shown as it is, one of the marks for an
/// unknown value as `--`, and where the poll finds none, or an empty one, what was shown stays.
pub open spec fn shows(
    found: Option<Seq<char>>,
    before: Option<Seq<char>>,
    shown: Option<Seq<char>>,
) -> bool {
    &&& found is None ==> shown == before
    &&& found == Some(Seq::<char>::empty()) ==> shown == before
    &&& found == Some("NA"@) || found == Some("N/A"@) || found == Some("--"@) ==> shown == Some("--"@)
    &&& found matches Some(v) ==> v.len() > 0 && v != "NA"@ && v != "N/A"@ && v != "--"@ ==> shown
        == found
}

proof fn lemma_shows(found: Option<Seq<char>>, before: Option<Seq<char>>)
    ensures
        shows(found, before, kept(found, before)),
{
    reveal(kept);
    reveal_strlit("NA");
    reveal_strlit("N/A");
    reveal_strlit("--");
}

/// Every value that a poll can find reaches its own place in the snapshot, and only that: what a
/// poll cannot find stays, and the times are those of the merge.
pub proof fn law_every_value_is_merged(
    t: TelemetryData<Seq<char>>,
    g: GlobalTelemetry<Seq<char>>,
    uptime: Option<Seq<char>>,
    updated: Option<Seq<char>>,
)
    ensures
        ({
            let r = merged(t, g, uptime, updated);
            &&& shows(t.temperature, g.temperature, r.temperature)
            &&& shows(t.sim_status, g.sim_status, r.sim_status)
            &&& shows(t.signal_percentage, g.signal_percentage, r.signal_percentage)
            &&& shows(t.internet_connection, g.internet_connection, r.internet_connection)
            &&& shows(t.mccmnc, g.mccmnc, r.mccmnc)
            &&& shows(t.network_mode, g.network_mode, r.network_mode)
            &&& shows(t.bands, g.bands, r.bands)
            &&& shows(t.bandwidth, g.bandwidth, r.bandwidth)
            &&& shows(t.earfcn, g.earfcn, r.earfcn)
            &&& shows(t.pci, g.pci, r.pci)
            &&& shows(t.ipv4, g.ipv4, r.ipv4)
            &&& shows(t.ipv6, g.ipv6, r.ipv6)
            &&& shows(t.assessment, g.assessment, r.assessment)
            &&& shows(t.traffic_stats, g.traffic_stats, r.traffic_stats)
            &&& shows(t.cell_id, g.cell_id, r.cell_id)
            &&& shows(t.enb_id, g.enb_id, r.enb_id)
            &&& shows(t.tac, g.tac, r.tac)
            &&& shows(t.ss_rsrq, g.ss_rsrq, r.ss_rsrq)
            &&& shows(t.ss_rsrp, g.ss_rsrp, r.ss_rsrp)
            &&& shows(t.sinr, g.sinr, r.sinr)
            &&& r.firmware_version == g.firmware_version
            &&& r.cpu_usage == g.cpu_usage
            &&& r.memory_usage == g.memory_usage
            &&& r.active_sim == g.active_sim
            &&& r.network_provider == g.network_provider
            &&& r.apn == g.apn
            &&& r.uptime == uptime
            &&& r.updated == updated
        }),
{
    lemma_shows(t.temperature, g.temperature);
    lemma_shows(t.sim_status, g.sim_status);
    lemma_shows(t.signal_percentage, g.signal_percentage);
    lemma_shows(t.internet_connection, g.internet_connection);
    lemma_shows(t.mccmnc, g.mccmnc);
    lemma_shows(t.network_mode, g.network_mode);
    lemma_shows(t.bands, g.bands);
    lemma_shows(t.bandwidth, g.bandwidth);
    lemma_shows(t.earfcn, g.earfcn);
    lemma_shows(t.pci, g.pci);
    lemma_shows(t.ipv4, g.ipv4);
    lemma_shows(t.ipv6, g.ipv6);
    lemma_shows(t.assessment, g.assessment);
    lemma_shows(t.traffic_stats, g.traffic_stats);
    lemma_shows(t.cell_id, g.cell_id);
    lemma_shows(t.enb_id, g.enb_id);
    lemma_shows(t.tac, g.tac);
    lemma_shows(t.ss_rsrq, g.ss_rsrq);
    lemma_shows(t.ss_rsrp, g.ss_rsrp);
    lemma_shows(t.sinr, g.sinr);
}

/// The values that a poll finds do not get in each other's way: merging a value into one field
/// leaves every other field as merging without it would.
pub proof fn law_values_are_merged_apart(
    t: TelemetryData<Seq<char>>,
    g: GlobalTelemetry<Seq<char>>,
    uptime: Option<Seq<char>>,
    updated: Option<Seq<char>>,
    v: Seq<char>,
)
    requires
        v.len() > 0,
        v != "NA"@,
        v != "N/A"@,
        v != "--"@,
    ensures
        ({
            let r = merged(t, g, uptime, updated);
            &&& merged(TelemetryData { temperature: Some(v), ..t }, g, uptime, updated)
                == (GlobalTelemetry { temperature: Some(v), ..r })
            &&& merged(TelemetryData { sim_status: Some(v), ..t }, g, uptime, updated)
                == (GlobalTelemetry { sim_status: Some(v), ..r })
            &&& merged(TelemetryData { signal_percentage: Some(v), ..t }, g, uptime, updated)
                == (GlobalTelemetry { signal_percentage: Some(v), ..r })
            &&& merged(TelemetryData { internet_connection: Some(v), ..t }, g, uptime, updated)
                == (GlobalTelemetry { internet_connection: Some(v), ..r })
            &&& merged(TelemetryData { mccmnc: Some(v), ..t }, g, uptime, updated)
                == (GlobalTelemetry { mccmnc: Some(v), ..r })
            &&& merged(TelemetryData { network_mode: Some(v), ..t }, g, uptime, updated)
                == (GlobalTelemetry { network_mode: Some(v), ..r })
            &&& merged(TelemetryData { bands: Some(v), ..t }, g, uptime, updated)
                == (GlobalTelemetry { bands: Some(v), ..r })
            &&& merged(TelemetryData { bandwidth: Some(v), ..t }, g, uptime, updated)
                == (GlobalTelemetry { bandwidth: Some(v), ..r })
            &&& merged(TelemetryData { earfcn: Some(v), ..t }, g, uptime, updated)
                == (GlobalTelemetry { earfcn: Some(v), ..r })
            &&& merged(TelemetryData { pci: Some(v), ..t }, g, uptime, updated)
                == (GlobalTelemetry { pci: Some(v), ..r })
            &&& merged(TelemetryData { ipv4: Some(v), ..t }, g, uptime, updated)
                == (GlobalTelemetry { ipv4: Some(v), ..r })
            &&& merged(TelemetryData { ipv6: Some(v), ..t }, g, uptime, updated)
                == (GlobalTelemetry { ipv6: Some(v), ..r })
            &&& merged(TelemetryData { assessment: Some(v), ..t }, g, uptime, updated)
                == (GlobalTelemetry { assessment: Some(v), ..r })
            &&& merged(TelemetryData { traffic_stats: Some(v), ..t }, g, uptime, updated)
                == (GlobalTelemetry { traffic_stats: Some(v), ..r })
            &&& merged(TelemetryData { cell_id: Some(v), ..t }, g, uptime, updated)
                == (GlobalTelemetry { cell_id: Some(v), ..r })
            &&& merged(TelemetryData { enb_id: Some(v), ..t }, g, uptime, updated)
                == (GlobalTelemetry { enb_id: Some(v), ..r })
            &&& merged(TelemetryData { tac: Some(v), ..t }, g, uptime, updated)
                == (GlobalTelemetry { tac: Some(v), ..r })
            &&& merged(TelemetryData { ss_rsrq: Some(v), ..t }, g, uptime, updated)
                == (GlobalTelemetry { ss_rsrq: Some(v), ..r })
            &&& merged(TelemetryData { ss_rsrp: Some(v), ..t }, g, uptime, updated)
                == (GlobalTelemetry { ss_rsrp: Some(v), ..r })
            &&& merged(TelemetryData { sinr: Some(v), ..t }, g, uptime, updated)
                == (GlobalTelemetry { sinr: Some(v), ..r })
        }),
{
    reveal(kept);
}

} // verus!
