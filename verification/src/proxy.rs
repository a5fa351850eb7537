//! The proxy engine: the lifecycle state machine, the request log, and the
//! control surface a supervising client drives.
//!
//! A deployment runs the state machine in a dedicated coordinator task fed
//! by a command channel; every status mutation is serialized through that
//! single consumer. `Proxy` here is that serialized state, and
//! [`Proxy::send`] is one observation of a command by the coordinator. The
//! runner that owns the sockets calls `send` under the same exclusive guard
//! it uses for snapshots, which preserves the serialization.

use vstd::prelude::*;
use crate::filter::{first_eq, spec_dedup, spec_toggle, TrafficFilter, TrafficFilterType};
use crate::logger::{LogLevel, Logger};
use crate::text::{dec_str, u64_to_string};

verus! {

/// One request that was classified by the proxy.
pub struct ProxyRequestLog {
    pub method: String,
    pub request: String,
    pub blocked: bool,
}

impl ProxyRequestLog {
    /// The exclusion status of the request, as a readable string.
    pub fn to_blocked_string(&self) -> (r: String)
        ensures
            self.blocked ==> r@ == "BLOCKED"@,
            !self.blocked ==> r@ == "ALLOWED"@,
    {
        if self.blocked {
            String::from_str("BLOCKED")
        } else {
            String::from_str("ALLOWED")
        }
    }
}

impl Clone for ProxyRequestLog {
    fn clone(&self) -> (res: Self)
        ensures
            res == *self,
    {
        ProxyRequestLog {
            method: self.method.clone(),
            request: self.request.clone(),
            blocked: self.blocked,
        }
    }
}

/// A lifecycle command, and equally the status it establishes.
///
/// The six plain variants are the declared statuses; `RequestEvent` is only
/// ever a command (record one request), never a status.
pub enum ProxyEvent {
    Starting,
    Running,
    Stopped,
    Error(String),
    Terminating,
    Terminated,
    RequestEvent(ProxyRequestLog),
}

impl ProxyEvent {
    /// Whether this value is one of the six declared statuses.
    pub open spec fn is_status(self) -> bool {
        !(self is RequestEvent)
    }

    /// The status as a readable string.
    pub fn to_string(&self) -> (r: String)
        ensures
            self is Starting ==> r@ == "STARTING"@,
            self is Running ==> r@ == "RUNNING"@,
            self is Stopped ==> r@ == "STOPPED"@,
            self is Error ==> r@ == "ERROR"@,
            self is Terminating ==> r@ == "TERMINATING"@,
            self is Terminated ==> r@ == "TERMINATED"@,
            self is RequestEvent ==> r@ == "UNKNOWN"@,
    {
        match self {
            ProxyEvent::Starting => String::from_str("STARTING"),
            ProxyEvent::Running => String::from_str("RUNNING"),
            ProxyEvent::Stopped => String::from_str("STOPPED"),
            ProxyEvent::Error(_) => String::from_str("ERROR"),
            ProxyEvent::Terminating => String::from_str("TERMINATING"),
            ProxyEvent::Terminated => String::from_str("TERMINATED"),
            ProxyEvent::RequestEvent(_) => String::from_str("UNKNOWN"),
        }
    }
}

impl Clone for ProxyEvent {
    fn clone(&self) -> (res: Self)
        ensures
            res == *self,
    {
        match self {
            ProxyEvent::Starting => ProxyEvent::Starting,
            ProxyEvent::Running => ProxyEvent::Running,
            ProxyEvent::Stopped => ProxyEvent::Stopped,
            ProxyEvent::Error(m) => ProxyEvent::Error(m.clone()),
            ProxyEvent::Terminating => ProxyEvent::Terminating,
            ProxyEvent::Terminated => ProxyEvent::Terminated,
            ProxyEvent::RequestEvent(r) => ProxyEvent::RequestEvent(r.clone()),
        }
    }
}

impl Default for ProxyEvent {
    /// The initial, quiescent status.
    fn default() -> (r: Self)
        ensures
            r is Stopped,
    {
        ProxyEvent::Stopped
    }
}

/// Which control view is active.
#[derive(Clone, Copy, Debug, PartialEq, Eq, Structural)]
pub enum ProxyView {
    Min,
    Logs,
    Filter,
}

impl ProxyView {
    /// The view as a readable string.
    pub fn to_string(&self) -> (r: String)
        ensures
            self is Min ==> r@ == "Default View"@,
            self is Logs ==> r@ == "Log View"@,
            self is Filter ==> r@ == "Filter View"@,
    {
        match self {
            ProxyView::Min => String::from_str("Default View"),
            ProxyView::Logs => String::from_str("Log View"),
            ProxyView::Filter => String::from_str("Filter View"),
        }
    }
}

impl Default for ProxyView {
    fn default() -> (r: Self)
        ensures
            r is Min,
    {
        ProxyView::Min
    }
}

/// The exclusion-list row a control client has selected for editing.
pub struct ProxyExclusionRow {
    pub updating: bool,
    pub index: usize,
    pub value: String,
}

impl Clone for ProxyExclusionRow {
    fn clone(&self) -> (res: Self)
        ensures
            res == *self,
    {
        ProxyExclusionRow { updating: self.updating, index: self.index, value: self.value.clone() }
    }
}

impl Default for ProxyExclusionRow {
    fn default() -> (r: Self)
        ensures
            !r.updating,
            r.index == 0,
            r.value@.len() == 0,
    {
        ProxyExclusionRow { updating: false, index: 0, value: String::new() }
    }
}

/// The action taken when updating an exclusion-list value.
#[derive(Clone, Copy, Debug)]
pub enum ProxyExclusionUpdateKind {
    Edit,
    Add,
    Remove,
}

/// The status after the coordinator observes command `e` in status `s`.
///
/// This is the transition table: a row per permitted transition, everything
/// else leaves the status unchanged. Stopping is permitted from `Starting`
/// as well as from `Running`, so that a stop issued during startup wins the
/// race against the `Running` publication.
pub open spec fn step_status(s: ProxyEvent, e: ProxyEvent) -> ProxyEvent {
    if (s is Stopped || s is Error) && e is Starting {
        e
    } else if s is Starting && (e is Running || e is Error || e is Terminating) {
        e
    } else if s is Running && (e is Terminating || e is Error) {
        e
    } else if s is Terminating && e is Terminated {
        ProxyEvent::Stopped
    } else {
        s
    }
}

/// The run-time clock after the coordinator observes `e` in status `s`:
/// started on entering `Running`, cleared on leaving it.
pub open spec fn step_run_time(s: ProxyEvent, e: ProxyEvent, started: Option<u64>, now: u64) -> Option<
    u64,
> {
    if s is Starting && e is Running {
        Some(now)
    } else if s is Running && (e is Terminating || e is Error) {
        None
    } else if s is Terminating && e is Terminated {
        None
    } else {
        started
    }
}

/// The request log after the coordinator observes `e` in status `s`:
/// a record is appended only while `Running`.
pub open spec fn step_requests(
    s: ProxyEvent,
    e: ProxyEvent,
    reqs: Seq<ProxyRequestLog>,
) -> Seq<ProxyRequestLog> {
    match e {
        ProxyEvent::RequestEvent(r) => if s is Running {
            reqs.push(r)
        } else {
            reqs
        },
        _ => reqs,
    }
}

/// Whether the command channel is still up after the coordinator observes
/// `e` in status `s`: it is dropped exactly when the coordinator exits.
pub open spec fn step_live(s: ProxyEvent, e: ProxyEvent, live: bool) -> bool {
    if s is Terminating && e is Terminated {
        false
    } else {
        live
    }
}

/// Every transition lands on a declared status, and each row of the table
/// reads back from `step_status` exactly as written.
pub proof fn lemma_status_transitions(s: ProxyEvent, e: ProxyEvent)
    requires
        s.is_status(),
    ensures
        step_status(s, e).is_status(),
        s is Stopped && e is Starting ==> step_status(s, e) is Starting,
        s is Error && e is Starting ==> step_status(s, e) is Starting,
        s is Starting && e is Running ==> step_status(s, e) is Running,
        s is Starting && e is Error ==> step_status(s, e) == e,
        s is Starting && e is Terminating ==> step_status(s, e) is Terminating,
        s is Running && e is Terminating ==> step_status(s, e) is Terminating,
        s is Running && e is Error ==> step_status(s, e) == e,
        s is Running && e is RequestEvent ==> step_status(s, e) == s,
        s is Terminating && e is Terminated ==> step_status(s, e) is Stopped,
        !((s is Stopped || s is Error) && e is Starting) && !(s is Starting && (e is Running
            || e is Error || e is Terminating)) && !(s is Running && (e is Terminating
            || e is Error)) && !(s is Terminating && e is Terminated) ==> step_status(s, e) == s,
{
}

/// The proxy engine state, as the coordinator serializes it.
pub struct Proxy {
    /// The port to listen on, as entered by the control client.
    pub port: String,
    /// The message shown when the port does not parse.
    pub port_error: String,
    /// Whether the control client may issue a start.
    pub start_enabled: bool,
    /// Which control view is active.
    pub view: ProxyView,
    /// The logging configuration.
    pub logger: Logger,
    /// The authoritative status.
    pub status: ProxyEvent,
    /// Whether the command channel is up (a sender is held).
    pub event_live: bool,
    /// The append-only log of classified requests.
    pub requests: Vec<ProxyRequestLog>,
    /// The traffic filter configuration.
    pub traffic_filter: TrafficFilter,
    /// The exclusion value a control client has typed.
    pub selected_value: String,
    /// The exclusion row a control client is editing.
    pub selected_exclusion_row: ProxyExclusionRow,
    /// The clock reading taken on entering `Running`.
    pub run_time_started: Option<u64>,
}

/// The run time in seconds at clock reading `now`: elapsed time since
/// entering `Running`, and 0 in every other state.
pub open spec fn spec_run_time(p: Proxy, now: u64) -> u64 {
    match p.run_time_started {
        Some(st) => if now >= st {
            (now - st) as u64
        } else {
            0
        },
        None => 0,
    }
}

/// Outside `Running` the run time is 0.
pub proof fn lemma_run_time_zero_unless_running(p: Proxy, now: u64)
    requires
        p.wf(),
        !(p.status is Running),
    ensures
        spec_run_time(p, now) == 0,
{
}

/// While the state does not change, the run time never decreases as the
/// clock advances.
pub proof fn lemma_run_time_monotonic(p: Proxy, n1: u64, n2: u64)
    requires
        n1 <= n2,
    ensures
        spec_run_time(p, n1) <= spec_run_time(p, n2),
{
}

impl Proxy {
    /// Well-formed: the status is a declared status, the run-time clock is
    /// set exactly while `Running`, and the filter list has no duplicates.
    pub open spec fn wf(self) -> bool {
        &&& self.status.is_status()
        &&& (self.status is Running <==> self.run_time_started is Some)
        &&& self.traffic_filter.wf()
    }

    /// A proxy with the given port, view, filter and log level; stopped,
    /// with no channel, no records and no run time.
    pub fn new(port: String, view: ProxyView, traffic_filter: TrafficFilter, log_level: LogLevel) -> (r:
        Proxy)
        requires
            traffic_filter.wf(),
        ensures
            r.wf(),
            r.port == port,
            r.port_error@.len() == 0,
            r.start_enabled,
            r.view == view,
            r.logger.level == log_level,
            r.status is Stopped,
            !r.event_live,
            r.requests@.len() == 0,
            r.traffic_filter == traffic_filter,
            r.selected_value@.len() == 0,
            !r.selected_exclusion_row.updating,
            r.selected_exclusion_row.index == 0,
            r.selected_exclusion_row.value@.len() == 0,
            r.run_time_started is None,
    {
        let mut logger = Logger::default();
        logger.set_level(log_level);
        Proxy {
            port,
            port_error: String::new(),
            start_enabled: true,
            view,
            logger,
            status: ProxyEvent::Stopped,
            event_live: false,
            requests: Vec::new(),
            traffic_filter,
            selected_value: String::new(),
            selected_exclusion_row: ProxyExclusionRow::default(),
            run_time_started: None,
        }
    }

    /// One observation of command `event` by the coordinator, at clock
    /// reading `now`. Without a live channel the command is lost.
    pub fn send(&mut self, event: ProxyEvent, now: u64)
        requires
            old(self).wf(),
        ensures
            final(self).wf(),
            final(self).status == if old(self).event_live {
                step_status(old(self).status, event)
            } else {
                old(self).status
            },
            final(self).run_time_started == if old(self).event_live {
                step_run_time(old(self).status, event, old(self).run_time_started, now)
            } else {
                old(self).run_time_started
            },
            final(self).requests@ == if old(self).event_live {
                step_requests(old(self).status, event, old(self).requests@)
            } else {
                old(self).requests@
            },
            final(self).event_live == if old(self).event_live {
                step_live(old(self).status, event, old(self).event_live)
            } else {
                false
            },
            final(self).port == old(self).port,
            final(self).port_error == old(self).port_error,
            final(self).start_enabled == old(self).start_enabled,
            final(self).view == old(self).view,
            final(self).logger == old(self).logger,
            final(self).traffic_filter == old(self).traffic_filter,
            final(self).selected_value == old(self).selected_value,
            final(self).selected_exclusion_row == old(self).selected_exclusion_row,
    {
        if !self.event_live {
            return ;
        }
        match event {
            ProxyEvent::Starting => {
                match &self.status {
                    ProxyEvent::Stopped | ProxyEvent::Error(_) => {
                        self.status = ProxyEvent::Starting;
                    },
                    _ => {},
                }
            },
            ProxyEvent::Running => {
                match &self.status {
                    ProxyEvent::Starting => {
                        self.status = ProxyEvent::Running;
                        self.run_time_started = Some(now);
                    },
                    _ => {},
                }
            },
            ProxyEvent::Error(m) => {
                match &self.status {
                    ProxyEvent::Starting | ProxyEvent::Running => {
                        self.status = ProxyEvent::Error(m);
                        self.run_time_started = None;
                    },
                    _ => {},
                }
            },
            ProxyEvent::Terminating => {
                match &self.status {
                    ProxyEvent::Starting | ProxyEvent::Running => {
                        self.status = ProxyEvent::Terminating;
                        self.run_time_started = None;
                    },
                    _ => {},
                }
            },
            ProxyEvent::Terminated => {
                match &self.status {
                    ProxyEvent::Terminating => {
                        self.status = ProxyEvent::Stopped;
                        self.run_time_started = None;
                        self.event_live = false;
                    },
                    _ => {},
                }
            },
            ProxyEvent::RequestEvent(r) => {
                match &self.status {
                    ProxyEvent::Running => {
                        self.requests.push(r);
                    },
                    _ => {},
                }
            },
            ProxyEvent::Stopped => {},
        }
    }

    /// Brings the command channel up and publishes `Starting`. Effective
    /// only from the quiescent `Stopped` status, or from `Error` (a retry);
    /// from any other status this is a no-op.
    pub fn run(&mut self)
        requires
            old(self).wf(),
        ensures
            final(self).wf(),
            old(self).status is Stopped || old(self).status is Error ==> (final(self).status
                is Starting && final(self).event_live),
            !(old(self).status is Stopped || old(self).status is Error) ==> *final(self) == *old(
                self,
            ),
            final(self).requests@ == old(self).requests@,
            final(self).run_time_started == old(self).run_time_started,
            final(self).port == old(self).port,
            final(self).port_error == old(self).port_error,
            final(self).start_enabled == old(self).start_enabled,
            final(self).view == old(self).view,
            final(self).logger == old(self).logger,
            final(self).traffic_filter == old(self).traffic_filter,
            final(self).selected_value == old(self).selected_value,
            final(self).selected_exclusion_row == old(self).selected_exclusion_row,
    {
        match &self.status {
            ProxyEvent::Stopped | ProxyEvent::Error(_) => {
                self.event_live = true;
                self.send(ProxyEvent::Starting, 0);
            },
            _ => {},
        }
    }

    /// Publishes `Terminating`: the request to stop serving.
    pub fn stop(&mut self)
        requires
            old(self).wf(),
        ensures
            final(self).wf(),
            final(self).status == if old(self).event_live {
                step_status(old(self).status, ProxyEvent::Terminating)
            } else {
                old(self).status
            },
            final(self).run_time_started == if old(self).event_live {
                step_run_time(
                    old(self).status,
                    ProxyEvent::Terminating,
                    old(self).run_time_started,
                    0,
                )
            } else {
                old(self).run_time_started
            },
            final(self).requests@ == old(self).requests@,
            final(self).event_live == old(self).event_live,
            final(self).port == old(self).port,
            final(self).port_error == old(self).port_error,
            final(self).start_enabled == old(self).start_enabled,
            final(self).view == old(self).view,
            final(self).logger == old(self).logger,
            final(self).traffic_filter == old(self).traffic_filter,
            final(self).selected_value == old(self).selected_value,
            final(self).selected_exclusion_row == old(self).selected_exclusion_row,
    {
        self.send(ProxyEvent::Terminating, 0);
    }

    /// A snapshot of the current status.
    pub fn get_status(&self) -> (r: ProxyEvent)
        ensures
            r == self.status,
    {
        self.status.clone()
    }

    /// A snapshot of the logging configuration.
    pub fn get_logger(&self) -> (r: Logger)
        ensures
            r == self.logger,
    {
        self.logger
    }

    /// A snapshot of the traffic filter.
    pub fn get_traffic_filter(&self) -> (r: TrafficFilter)
        ensures
            r.enabled == self.traffic_filter.enabled,
            r.filter_type == self.traffic_filter.filter_type,
            r.filter_list@ == self.traffic_filter.filter_list@,
    {
        self.traffic_filter.clone()
    }

    /// A snapshot of the request log.
    pub fn get_requests(&self) -> (r: Vec<ProxyRequestLog>)
        ensures
            r@ == self.requests@,
    {
        let mut out: Vec<ProxyRequestLog> = Vec::new();
        let mut i: usize = 0;
        while i < self.requests.len()
            invariant
                i <= self.requests.len(),
                out@.len() == i,
                forall|k: int| 0 <= k < i ==> out@[k] == self.requests@[k],
            decreases self.requests.len() - i,
        {
            out.push(self.requests[i].clone());
            i += 1;
        }
        proof {
            assert(out@ =~= self.requests@);
        }
        out
    }

    /// The run time in seconds at clock reading `now`, as a decimal string:
    /// time elapsed since entering `Running`, `"0"` in every other state.
    pub fn get_run_time(&self, now: u64) -> (r: String)
        ensures
            r@ == dec_str(spec_run_time(*self, now) as int),
    {
        match self.run_time_started {
            Some(st) => {
                if now >= st {
                    u64_to_string(now - st)
                } else {
                    u64_to_string(0)
                }
            },
            None => u64_to_string(0),
        }
    }

    /// Switches traffic filtering on or off.
    pub fn toggle_traffic_filtering(&mut self)
        requires
            old(self).wf(),
        ensures
            final(self).wf(),
            final(self).traffic_filter.enabled == !old(self).traffic_filter.enabled,
            final(self).traffic_filter.filter_type == old(self).traffic_filter.filter_type,
            final(self).traffic_filter.filter_list == old(self).traffic_filter.filter_list,
            final(self).status == old(self).status,
            final(self).event_live == old(self).event_live,
            final(self).requests@ == old(self).requests@,
            final(self).run_time_started == old(self).run_time_started,
    {
        let enabled = self.traffic_filter.get_enabled();
        self.traffic_filter.set_enabled(!enabled);
    }

    /// Swaps the filter polarity between allow and deny.
    pub fn switch_exclusion_list(&mut self)
        requires
            old(self).wf(),
        ensures
            final(self).wf(),
            old(self).traffic_filter.filter_type is Allow ==> final(self).traffic_filter.filter_type
                is Deny,
            old(self).traffic_filter.filter_type is Deny ==> final(self).traffic_filter.filter_type
                is Allow,
            final(self).traffic_filter.enabled == old(self).traffic_filter.enabled,
            final(self).traffic_filter.filter_list == old(self).traffic_filter.filter_list,
            final(self).status == old(self).status,
            final(self).requests@ == old(self).requests@,
    {
        let switched = self.traffic_filter.get_opposing_filter_type();
        self.traffic_filter.set_filter_type(switched);
    }

    /// Replaces the whole exclusion list (first occurrences kept).
    pub fn set_exclusion_list(&mut self, list: Vec<String>)
        requires
            old(self).wf(),
        ensures
            final(self).wf(),
            final(self).traffic_filter.patterns() == spec_dedup(list.deep_view()),
            final(self).traffic_filter.enabled == old(self).traffic_filter.enabled,
            final(self).traffic_filter.filter_type == old(self).traffic_filter.filter_type,
            final(self).status == old(self).status,
            final(self).requests@ == old(self).requests@,
    {
        self.traffic_filter.set_filter_list(list);
    }

    /// Applies the selected exclusion edit: an in-place item edit, or the
    /// add-or-remove membership toggle of the typed value.
    pub fn update_exclusion_list(&mut self, event_type: ProxyExclusionUpdateKind)
        requires
            old(self).wf(),
        ensures
            final(self).wf(),
            event_type is Edit ==> ({
                let ops = old(self).traffic_filter.patterns();
                let v = old(self).selected_exclusion_row.value@;
                let idx = old(self).selected_exclusion_row.index;
                let k = first_eq(ops, v, 0);
                &&& (if idx < old(self).traffic_filter.filter_list.len() && (k == idx as int || k
                    == ops.len()) {
                    final(self).traffic_filter.patterns() == ops.update(idx as int, v)
                } else {
                    final(self).traffic_filter.patterns() == ops
                })
                &&& !final(self).selected_exclusion_row.updating
                &&& final(self).selected_exclusion_row.index == 0
                &&& final(self).selected_exclusion_row.value@.len() == 0
            }),
            !(event_type is Edit) ==> ({
                &&& final(self).traffic_filter.patterns() == spec_toggle(
                    old(self).traffic_filter.patterns(),
                    old(self).selected_value@,
                )
                &&& final(self).selected_exclusion_row == old(self).selected_exclusion_row
            }),
            final(self).traffic_filter.enabled == old(self).traffic_filter.enabled,
            final(self).traffic_filter.filter_type == old(self).traffic_filter.filter_type,
            final(self).selected_value == old(self).selected_value,
            final(self).status == old(self).status,
            final(self).requests@ == old(self).requests@,
    {
        match event_type {
            ProxyExclusionUpdateKind::Edit => {
                let index = self.selected_exclusion_row.index;
                let value = self.selected_exclusion_row.value.clone();
                self.traffic_filter.update_filter_list_item(index, value);
                self.selected_exclusion_row = ProxyExclusionRow::default();
            },
            ProxyExclusionUpdateKind::Add | ProxyExclusionUpdateKind::Remove => {
                let value = self.selected_value.clone();
                self.traffic_filter.update_filter_list(value);
            },
        }
    }
}

impl Default for Proxy {
    /// A stopped proxy with an empty port, the default view, informational
    /// logging and a default (disabled) filter.
    fn default() -> (r: Self)
        ensures
            r.wf(),
            r.port@.len() == 0,
            r.status is Stopped,
            !r.event_live,
            r.requests@.len() == 0,
            !r.traffic_filter.enabled,
            r.traffic_filter.filter_type is Deny,
            r.traffic_filter.filter_list@.len() == 0,
            r.run_time_started is None,
            r.view is Min,
            r.logger.level is Info,
    {
        Proxy::new(
            String::new(),
            ProxyView::default(),
            TrafficFilter::default(),
            LogLevel::Info,
        )
    }
}

/// The shutdown watcher's test: the accept loop must wind down exactly when
/// the coordinator has entered `Terminating`.
pub fn should_shutdown(status: &ProxyEvent) -> (r: bool)
    ensures
        r == (status is Terminating),
{
    match status {
        ProxyEvent::Terminating => true,
        _ => false,
    }
}

} // verus!
