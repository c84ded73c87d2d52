//! The decisions of the polling loop: when to poll, and what a poll means.

use vstd::prelude::*;

use crate::actor::action::AtAction;
use crate::actor::request::{
    action_step, interval_of, interval_text, new_interval, ActorReply, ActorReplyView, ActorStep,
    BackendCall,
};
use crate::actor::telemetry::{
    copy_opt, kept, merged, no_global_telemetry, GlobalTelemetry, TelemetryData,
};
use crate::backend::StaticInfo;
use crate::number::{decimal, decimal_text};
use crate::text::{concat2, opt_text};

verus! {

/// So many polls in a row without an answer mean that the module is gone.
pub const MAX_CONSECUTIVE_FAILURES: u32 = 3;

/// Seconds between polls while nobody watches.
pub const IDLE_INTERVAL_SECS: u64 = 15;

/// What the polling loop remembers.
#[derive(Debug, Clone, Copy, PartialEq, Eq)]
pub struct PollState {
    /// Seconds between polls while somebody watches.
    pub interval_secs: u64,
    /// Seconds between polls as the timer is set.
    pub current_interval_secs: u64,
    /// Polls in a row without an answer.
    pub consecutive_failures: u32,
}

/// The snapshot at the start: only what does not change is known.
pub open spec fn initial_snapshot(info: StaticInfo<Seq<char>>) -> GlobalTelemetry<Seq<char>> {
    GlobalTelemetry {
        firmware_version: Some(info.firmware_version),
        active_sim: Some(info.active_sim),
        network_provider: Some(info.network_provider),
        apn: Some(info.apn),
        ..no_global_telemetry()
    }
}

/// The snapshot with which the loop starts.
pub fn initial_global(info: StaticInfo) -> (r: GlobalTelemetry)
    ensures
        r@ == initial_snapshot(info@),
{
    let mut g = GlobalTelemetry::default();
    g.firmware_version = Some(info.firmware_version);
    g.active_sim = Some(info.active_sim);
    g.network_provider = Some(info.network_provider);
    g.apn = Some(info.apn);
    g
}

/// A poll to which the module gave no sign of life.
pub open spec fn is_dead(t: TelemetryData<Seq<char>>) -> bool {
    t.sim_status is None && t.network_mode is None && t.signal_percentage is None && t.ipv4 is None
}

/// Whether the module gave no sign of life.
pub fn telemetry_dead(t: &TelemetryData) -> (r: bool)
    ensures
        r == is_dead(t@),
{
    t.sim_status.is_none() && t.network_mode.is_none() && t.signal_percentage.is_none()
        && t.ipv4.is_none()
}

/// A poll completed by what the host knows: its temperature where the module gave none, and
/// whether there is a connection, which an IPv4 address shows.
pub open spec fn completed(
    t: TelemetryData<Seq<char>>,
    soc_temperature: Option<Seq<char>>,
) -> TelemetryData<Seq<char>> {
    TelemetryData {
        temperature: if t.temperature is None {
            soc_temperature
        } else {
            t.temperature
        },
        internet_connection: Some(
            if t.ipv4 is Some {
                "Connected"@
            } else {
                "Disconnected"@
            },
        ),
        ..t
    }
}

/// The running time for display.
pub open spec fn uptime_text(mins: u64) -> Seq<char> {
    decimal(mins as nat) + " minutes"@
}

/// The snapshot of a module that is gone: what does not change, and what the host knows.
pub open spec fn offline_snapshot(
    g: GlobalTelemetry<Seq<char>>,
    uptime_mins: u64,
    cpu_usage: Option<Seq<char>>,
    memory_usage: Option<Seq<char>>,
    updated: Seq<char>,
) -> GlobalTelemetry<Seq<char>> {
    GlobalTelemetry {
        firmware_version: g.firmware_version,
        active_sim: g.active_sim,
        network_provider: g.network_provider,
        apn: g.apn,
        internet_connection: Some("Disconnected"@),
        uptime: Some(uptime_text(uptime_mins)),
        cpu_usage,
        memory_usage,
        updated: Some(updated),
        ..no_global_telemetry()
    }
}

/// The snapshot after a poll that is merged in. The load of the host is entered where none is.
pub open spec fn online_snapshot(
    t: TelemetryData<Seq<char>>,
    g: GlobalTelemetry<Seq<char>>,
    uptime_mins: u64,
    cpu_usage: Option<Seq<char>>,
    memory_usage: Option<Seq<char>>,
    updated: Seq<char>,
) -> GlobalTelemetry<Seq<char>> {
    let m = merged(t, g, Some(uptime_text(uptime_mins)), Some(updated));
    GlobalTelemetry {
        cpu_usage: if m.cpu_usage is None {
            cpu_usage
        } else {
            m.cpu_usage
        },
        memory_usage: if m.memory_usage is None {
            memory_usage
        } else {
            m.memory_usage
        },
        ..m
    }
}

/// The polls in a row without an answer, after one more poll.
pub open spec fn failures_after(before: u32, dead: bool) -> u32 {
    if !dead {
        0
    } else if before < u32::MAX {
        (before + 1) as u32
    } else {
        before
    }
}

/// What the host measured beside a poll.
#[derive(Debug, Clone, PartialEq, Eq)]
pub struct HostReadings {
    pub soc_temperature: Option<String>,
    pub uptime_mins: u64,
    pub cpu_usage: Option<String>,
    pub memory_usage: Option<String>,
    /// The time of the poll, for display.
    pub updated: String,
}

/// The snapshot after a poll: that of a module that is gone after so many polls without an
/// answer, else the poll merged into the one before.
pub open spec fn snapshot_after(
    failures: u32,
    t: TelemetryData<Seq<char>>,
    g: GlobalTelemetry<Seq<char>>,
    host: HostReadings,
) -> GlobalTelemetry<Seq<char>> {
    if failures >= MAX_CONSECUTIVE_FAILURES {
        offline_snapshot(
            g,
            host.uptime_mins,
            opt_text(host.cpu_usage),
            opt_text(host.memory_usage),
            host.updated@,
        )
    } else {
        online_snapshot(
            completed(t, opt_text(host.soc_temperature)),
            g,
            host.uptime_mins,
            opt_text(host.cpu_usage),
            opt_text(host.memory_usage),
            host.updated@,
        )
    }
}

/// Seconds until the next poll.
pub open spec fn next_secs(s: PollState, active: bool) -> u64 {
    if active {
        s.interval_secs
    } else {
        IDLE_INTERVAL_SECS
    }
}

/// What a client does with a snapshot: take it whole, or update the one it has.
#[derive(Debug, Clone, Copy, PartialEq, Eq)]
pub enum UpdateType {
    Full,
    Delta,
}

impl UpdateType {
    /// The name by which clients know it.
    pub fn name(&self) -> (r: &'static str)
        ensures
            r@ == (match self {
                UpdateType::Full => "full"@,
                UpdateType::Delta => "delta"@,
            }),
    {
        match self {
            UpdateType::Full => "full",
            UpdateType::Delta => "delta",
        }
    }
}

/// A snapshot for the clients.
#[derive(Debug, Clone, PartialEq, Eq)]
pub struct Publication<G = GlobalTelemetry> {
    pub update_type: UpdateType,
    pub global: G,
}

/// What a tick of the timer asks for.
#[derive(Debug, Clone, PartialEq, Eq)]
pub enum TickStep<P = Publication> {
    /// One poll of the module; the tick goes on with its findings.
    Poll,
    /// The end of the tick: what is published, and the seconds to which the timer is set anew.
    Rest { publish: Option<P>, restart: Option<u64> },
}

/// The view of a step.
pub open spec fn tick_view(r: TickStep) -> TickStep<Publication<GlobalTelemetry<Seq<char>>>> {
    match r {
        TickStep::Poll => TickStep::Poll,
        TickStep::Rest { publish, restart } => TickStep::Rest {
            publish: match publish {
                Some(p) => Some(Publication { update_type: p.update_type, global: p.global@ }),
                None => None,
            },
            restart,
        },
    }
}

/// The findings of a poll.
#[derive(Debug, Clone, PartialEq, Eq)]
pub struct Findings<T = TelemetryData> {
    pub telemetry: T,
    pub host: HostReadings,
}

/// The view of the findings, where there are any.
pub open spec fn findings_view(f: Option<Findings>) -> Option<
    Findings<TelemetryData<Seq<char>>>,
> {
    match f {
        Some(f) => Some(Findings { telemetry: f.telemetry@, host: f.host }),
        None => None,
    }
}

/// The seconds to which the timer is to be set anew, where it has to be.
pub open spec fn restart_secs(s: PollState, active: bool) -> Option<u64> {
    if next_secs(s, active) != s.current_interval_secs {
        Some(next_secs(s, active))
    } else {
        None
    }
}

/// The state after a poll.
pub open spec fn polled_state(s: PollState, t: TelemetryData<Seq<char>>) -> PollState {
    PollState { consecutive_failures: failures_after(s.consecutive_failures, is_dead(t)), ..s }
}

/// The state with the timer set for the next tick.
pub open spec fn timed_state(s: PollState, active: bool) -> PollState {
    PollState { current_interval_secs: next_secs(s, active), ..s }
}

/// What a tick comes to, with so many views that are looked at, the findings of its poll where it
/// has had one, and the snapshot before it. Without such a view it ends at once and publishes
/// nothing. With one it polls the module, and then publishes the snapshot after that poll.
pub open spec fn tick_result(
    s: PollState,
    active_views: usize,
    findings: Option<Findings<TelemetryData<Seq<char>>>>,
    g: GlobalTelemetry<Seq<char>>,
) -> (PollState, TickStep<Publication<GlobalTelemetry<Seq<char>>>>) {
    if active_views == 0 {
        (
            timed_state(s, false),
            TickStep::Rest { publish: None, restart: restart_secs(s, false) },
        )
    } else {
        match findings {
            None => (s, TickStep::Poll),
            Some(f) => {
                let p = polled_state(s, f.telemetry);
                (
                    timed_state(p, true),
                    TickStep::Rest {
                        publish: Some(
                            Publication {
                                update_type: UpdateType::Delta,
                                global: snapshot_after(
                                    p.consecutive_failures,
                                    f.telemetry,
                                    g,
                                    f.host,
                                ),
                            },
                        ),
                        restart: restart_secs(p, true),
                    },
                )
            },
        }
    }
}

/// The state after a request: a new interval takes effect at once, nothing else matters to it.
pub open spec fn state_after_request(s: PollState, action: AtAction<Seq<char>>) -> PollState {
    match action {
        AtAction::SetInterval(secs) => PollState {
            interval_secs: interval_of(secs),
            current_interval_secs: interval_of(secs),
            ..s
        },
        _ => s,
    }
}

impl PollState {
    /// The state at the start: a poll every five seconds.
    pub fn new() -> (r: PollState)
        ensures
            r == (PollState {
                interval_secs: 5,
                current_interval_secs: 5,
                consecutive_failures: 0,
            }),
    {
        PollState { interval_secs: 5, current_interval_secs: 5, consecutive_failures: 0 }
    }

    /// Takes a new interval, to which the timer is to be set.
    pub fn set_interval(&mut self, secs: u64) -> (r: u64)
        ensures
            r == interval_of(secs),
            *final(self) == (PollState {
                interval_secs: interval_of(secs),
                current_interval_secs: interval_of(secs),
                ..*old(self)
            }),
    {
        let new_secs = new_interval(secs);
        self.interval_secs = new_secs;
        self.current_interval_secs = new_secs;
        new_secs
    }

    /// The seconds to which the timer is to be set anew, where it has to be: the interval while
    /// somebody watches, the idle interval otherwise.
    pub fn reschedule(&mut self, active: bool) -> (r: Option<u64>)
        ensures
            r == restart_secs(*old(self), active),
            *final(self) == timed_state(*old(self), active),
    {
        let next: u64 = if active {
            self.interval_secs
        } else {
            IDLE_INTERVAL_SECS
        };
        if next != self.current_interval_secs {
            self.current_interval_secs = next;
            Some(next)
        } else {
            None
        }
    }

    /// Takes the findings of a poll and gives the new snapshot.
    pub fn after_poll(
        &mut self,
        telemetry: TelemetryData,
        current: &GlobalTelemetry,
        host: HostReadings,
    ) -> (r: GlobalTelemetry)
        ensures
            *final(self) == polled_state(*old(self), telemetry@),
            r@ == snapshot_after(
                final(self).consecutive_failures,
                telemetry@,
                current@,
                host,
            ),
    {
        let ghost found = telemetry@;
        if telemetry_dead(&telemetry) {
            if self.consecutive_failures < u32::MAX {
                self.consecutive_failures = self.consecutive_failures + 1;
            }
        } else {
            self.consecutive_failures = 0;
        }
        let uptime = concat2(&decimal_text(host.uptime_mins), " minutes");
        if self.consecutive_failures >= MAX_CONSECUTIVE_FAILURES {
            let mut g = GlobalTelemetry::default();
            g.firmware_version = copy_opt(&current.firmware_version);
            g.active_sim = copy_opt(&current.active_sim);
            g.network_provider = copy_opt(&current.network_provider);
            g.apn = copy_opt(&current.apn);
            g.internet_connection = Some("Disconnected".to_owned());
            g.uptime = Some(uptime);
            g.cpu_usage = host.cpu_usage;
            g.memory_usage = host.memory_usage;
            g.updated = Some(host.updated);
            return g;
        }
        let mut t = telemetry;
        if t.temperature.is_none() {
            t.temperature = host.soc_temperature;
        }
        let connection = if t.ipv4.is_some() {
            "Connected"
        } else {
            "Disconnected"
        };
        t.internet_connection = Some(connection.to_owned());
        assert(t@ == completed(found, opt_text(host.soc_temperature)));
        let mut g = GlobalTelemetry::from_telemetry_and_global(
            &t,
            current,
            Some(uptime),
            Some(host.updated),
        );
        if g.cpu_usage.is_none() {
            g.cpu_usage = host.cpu_usage;
        }
        if g.memory_usage.is_none() {
            g.memory_usage = host.memory_usage;
        }
        g
    }

    /// Takes note of a request, and gives the seconds to which the timer is to be set anew where
    /// it asks for a new interval.
    pub fn on_request(&mut self, action: &AtAction) -> (r: Option<u64>)
        ensures
            *final(self) == state_after_request(*old(self), action@),
            match action@ {
                AtAction::SetInterval(secs) => r == Some(interval_of(secs)),
                _ => r is None,
            },
    {
        match action {
            AtAction::SetInterval(secs) => Some(self.set_interval(*secs)),
            _ => None,
        }
    }

    /// Says what comes next for a tick of the timer, given the findings of its poll where it has
    /// had one.
    pub fn on_tick(
        &mut self,
        active_views: usize,
        findings: Option<Findings>,
        current: &GlobalTelemetry,
    ) -> (r: TickStep)
        ensures
            (*final(self), tick_view(r)) == tick_result(
                *old(self),
                active_views,
                findings_view(findings),
                current@,
            ),
    {
        if active_views == 0 {
            return TickStep::Rest { publish: None, restart: self.reschedule(false) };
        }
        match findings {
            None => TickStep::Poll,
            Some(f) => {
                let global = self.after_poll(f.telemetry, current, f.host);
                let publish = Some(Publication { update_type: UpdateType::Delta, global });
                TickStep::Rest { publish, restart: self.reschedule(true) }
            },
        }
    }
}

// ---------------------------------------------------------------------------
// Laws
// ---------------------------------------------------------------------------

/// A tick while nobody watches asks the module nothing and publishes nothing, whatever is known,
/// and the next one comes after the idle interval.
pub proof fn law_idle_tick_is_silent(
    s: PollState,
    findings: Option<Findings<TelemetryData<Seq<char>>>>,
    g: GlobalTelemetry<Seq<char>>,
)
    ensures
        ({
            let (n, step) = tick_result(s, 0, findings, g);
            &&& step !is Poll
            &&& step->publish is None
            &&& n.current_interval_secs == 15
            &&& step->restart == (if s.current_interval_secs == 15 {
                None::<u64>
            } else {
                Some(15u64)
            })
            &&& n.interval_secs == s.interval_secs
            &&& n.consecutive_failures == s.consecutive_failures
        }),
{
}

/// A tick while somebody watches polls the module once and publishes one update, the snapshot
/// after that poll, and the next one comes after the interval.
pub proof fn law_watched_tick_polls_once(
    s: PollState,
    active_views: usize,
    f: Findings<TelemetryData<Seq<char>>>,
    g: GlobalTelemetry<Seq<char>>,
)
    requires
        active_views > 0,
    ensures
        tick_result(s, active_views, None, g) == (s, TickStep::<
            Publication<GlobalTelemetry<Seq<char>>>,
        >::Poll),
        ({
            let (n, step) = tick_result(s, active_views, Some(f), g);
            &&& step !is Poll
            &&& step->publish == Some(
                Publication {
                    update_type: UpdateType::Delta,
                    global: snapshot_after(n.consecutive_failures, f.telemetry, g, f.host),
                },
            )
            &&& n.current_interval_secs == s.interval_secs
            &&& step->restart == (if s.current_interval_secs == s.interval_secs {
                None
            } else {
                Some(s.interval_secs)
            })
            &&& n.interval_secs == s.interval_secs
        }),
{
}

/// A request for a new interval sets both the interval and the timer to the seconds that its
/// reply names, at least three; the count of polls without an answer stays.
pub proof fn law_interval_request(s: PollState, secs: u64)
    ensures
        ({
            let n = state_after_request(s, AtAction::SetInterval(secs));
            &&& n.interval_secs == interval_of(secs)
            &&& n.current_interval_secs == interval_of(secs)
            &&& n.interval_secs >= 3
            &&& n.consecutive_failures == s.consecutive_failures
        }),
        action_step(AtAction::SetInterval(secs), Seq::empty()) == ActorStep::<
            BackendCall<Seq<char>>,
            ActorReplyView,
        >::Reply(ActorReply::SettingsLog { msg: interval_text(secs) }),
{
}

/// What is read once at the start stays in every snapshot, whatever the polls find.
pub proof fn law_static_info_stays(
    failures: u32,
    t: TelemetryData<Seq<char>>,
    g: GlobalTelemetry<Seq<char>>,
    host: HostReadings,
)
    ensures
        ({
            let n = snapshot_after(failures, t, g, host);
            &&& n.firmware_version == g.firmware_version
            &&& n.active_sim == g.active_sim
            &&& n.network_provider == g.network_provider
            &&& n.apn == g.apn
        }),
{
}

/// The module is shown as gone exactly after three polls in a row without an answer; one answer
/// brings it back.
pub proof fn law_offline_after_three(before: u32, dead: bool)
    ensures
        !dead ==> failures_after(before, dead) < MAX_CONSECUTIVE_FAILURES,
        dead && before == 0 ==> failures_after(before, dead) < MAX_CONSECUTIVE_FAILURES
            && failures_after(failures_after(before, dead), dead) < MAX_CONSECUTIVE_FAILURES
            && failures_after(failures_after(failures_after(before, dead), dead), dead)
            >= MAX_CONSECUTIVE_FAILURES,
        dead && before >= MAX_CONSECUTIVE_FAILURES ==> failures_after(before, dead)
            >= MAX_CONSECUTIVE_FAILURES,
{
}

/// A snapshot says that there is a connection exactly where the poll found an IPv4 address.
pub proof fn law_connection_needs_address(
    failures: u32,
    t: TelemetryData<Seq<char>>,
    g: GlobalTelemetry<Seq<char>>,
    host: HostReadings,
)
    requires
        failures < MAX_CONSECUTIVE_FAILURES,
    ensures
        snapshot_after(failures, t, g, host).internet_connection == Some(
            if t.ipv4 is Some {
                "Connected"@
            } else {
                "Disconnected"@
            },
        ),
{
    reveal(kept);
    reveal_strlit("Connected");
    reveal_strlit("Disconnected");
    reveal_strlit("NA");
    reveal_strlit("N/A");
    reveal_strlit("--");
    assert("Connected"@.len() == 9);
    assert("Disconnected"@.len() == 12);
}

} // verus!
