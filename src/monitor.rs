//! The reachability loop as a state machine: each call takes the event that the outside
//! world reports and returns the next action to perform.
use vstd::prelude::*;
use crate::address::{is_ipv4_text, parse_ipv4, Ipv4Address};
use crate::clock::{format_stamp, local_now, stamp_text, LocalTime};

verus! {

/// The number of echo requests sent by one probe.
pub const ECHO_COUNT: u16 = 4;

/// The four values that configure one run.
#[derive(Debug)]
pub struct ProbeConfig {
    pub target: String,
    pub output: String,
    pub timeout_ms: u64,
    pub interval_secs: u64,
}

impl ProbeConfig {
    /// The configuration used for every value that is not given.
    pub fn defaults() -> (r: ProbeConfig)
        ensures
            r.target@ == "127.0.0.1"@,
            r.output@ == "output.txt"@,
            r.timeout_ms == 1000,
            r.interval_secs == 60,
    {
        ProbeConfig {
            target: String::from_str("127.0.0.1"),
            output: String::from_str("output.txt"),
            timeout_ms: 1000,
            interval_secs: 60,
        }
    }
}

/// A condition that ends a run.
#[derive(Debug)]
pub enum MonitorError {
    /// The target is not an IPv4 literal.
    HostResolutionFailure,
    /// The probing primitive could not be set up; the text describes why.
    ProbeSetup { detail: String },
    /// The log could not be appended to; the text describes why.
    Io { detail: String },
    /// A probe did not complete within its wall-clock bound.
    TimeoutError,
}

/// The one-line description of an error.
pub open spec fn error_text(e: MonitorError) -> Seq<char> {
    match e {
        MonitorError::HostResolutionFailure => "Host resolution failure"@,
        MonitorError::ProbeSetup { detail } => "Surge error: "@ + detail@,
        MonitorError::Io { detail } => "I/O error: "@ + detail@,
        MonitorError::TimeoutError => "Timeout error"@,
    }
}

impl MonitorError {
    /// The one-line description of the error.
    pub fn message(&self) -> (r: String)
        ensures
            r@ == error_text(*self),
    {
        match self {
            MonitorError::HostResolutionFailure => String::from_str("Host resolution failure"),
            MonitorError::ProbeSetup { detail } => {
                let mut s = String::from_str("Surge error: ");
                s.append(detail.as_str());
                s
            },
            MonitorError::Io { detail } => {
                let mut s = String::from_str("I/O error: ");
                s.append(detail.as_str());
                s
            },
            MonitorError::TimeoutError => String::from_str("Timeout error"),
        }
    }
}

/// The verdict of a probe that completed.
#[derive(Clone, Copy, Debug, PartialEq, Eq, Structural)]
pub enum ProbeOutcome {
    Reachable,
    Unreachable,
}

/// How a bounded probe ended.
#[derive(Clone, Copy, Debug, PartialEq, Eq, Structural)]
pub enum ProbeReport {
    /// Every echo request was answered.
    Replied,
    /// The probe completed with no reply or with a transport error.
    Failed,
    /// The wall-clock bound elapsed before the probe completed.
    TimedOut,
}

/// The outcome of a probe report: a completed probe is a verdict, an elapsed bound is fatal.
pub open spec fn report_result(r: ProbeReport) -> Result<ProbeOutcome, MonitorError> {
    match r {
        ProbeReport::Replied => Ok(ProbeOutcome::Reachable),
        ProbeReport::Failed => Ok(ProbeOutcome::Unreachable),
        ProbeReport::TimedOut => Err(MonitorError::TimeoutError),
    }
}

/// Classifies a probe report.
pub fn classify(report: ProbeReport) -> (r: Result<ProbeOutcome, MonitorError>)
    ensures
        r == report_result(report),
{
    match report {
        ProbeReport::Replied => Ok(ProbeOutcome::Reachable),
        ProbeReport::Failed => Ok(ProbeOutcome::Unreachable),
        ProbeReport::TimedOut => Err(MonitorError::TimeoutError),
    }
}

/// The message logged when the target is not an IPv4 literal.
pub open spec fn invalid_address_text() -> Seq<char> {
    "Invalid IP address provided"@
}

/// The message logged for a probe verdict.
pub open spec fn outcome_text(target: Seq<char>, o: ProbeOutcome) -> Seq<char> {
    match o {
        ProbeOutcome::Reachable => "Host "@ + target + " is reachable"@,
        ProbeOutcome::Unreachable => "Host "@ + target + " is unreachable"@,
    }
}

/// A log line: the stamp of `t`, a space, and the message.
pub open spec fn log_line(t: LocalTime, msg: Seq<char>) -> Seq<char> {
    stamp_text(t) + " "@ + msg
}

/// The message logged for a probe verdict.
pub fn describe_outcome(target: &str, o: ProbeOutcome) -> (r: String)
    ensures
        r@ == outcome_text(target@, o),
{
    let mut s = String::from_str("Host ");
    s.append(target);
    match o {
        ProbeOutcome::Reachable => s.append(" is reachable"),
        ProbeOutcome::Unreachable => s.append(" is unreachable"),
    }
    s
}

/// The log line for a message at local time `t`.
pub fn format_log_line(t: &LocalTime, msg: &str) -> (r: String)
    requires
        t.wf(),
    ensures
        r@ == log_line(*t, msg@),
{
    let mut s = format_stamp(t);
    s.append(" ");
    s.append(msg);
    s
}

/// Where a run stands, between two events.
#[derive(Clone, Copy, Debug, PartialEq, Eq, Structural)]
pub enum Phase {
    /// Nothing has happened yet.
    Fresh,
    /// The target resolved; the probing primitive is being set up.
    Opening,
    /// A bounded probe is running.
    Probing,
    /// A verdict line is being appended.
    Appending,
    /// The loop waits out the interval.
    Sleeping,
    /// The line on an invalid target is being appended.
    Reporting,
    /// The run has ended on an error.
    Stopped,
}

/// What the outside world reports back.
#[derive(Debug)]
pub enum Event {
    /// The run begins.
    Start,
    /// The probing primitive is ready.
    ProbeOpened,
    /// The probing primitive could not be set up.
    ProbeSetupFailed { detail: String },
    /// A bounded probe ended.
    Probed { report: ProbeReport },
    /// The line was appended to the log.
    Appended,
    /// The line could not be appended.
    AppendFailed { detail: String },
    /// The interval has passed.
    Slept,
}

/// What the outside world is asked to do next.
#[derive(Debug)]
pub enum Action {
    /// Set up the probing primitive for the address, with its own timeout.
    OpenProbe { address: Ipv4Address, timeout_ms: u64 },
    /// Send `count` echo requests, all within a wall-clock bound of `timeout_ms`.
    Probe { address: Ipv4Address, count: u16, timeout_ms: u64 },
    /// Append the line, followed by a newline, to the output file.
    Append { line: String },
    /// Wait for `secs` seconds.
    Sleep { secs: u64 },
    /// End the run with the error.
    Stop { error: MonitorError },
}

/// The state of one run.
pub struct Monitor {
    pub config: ProbeConfig,
    pub phase: Phase,
    /// The resolved target, once resolution has succeeded.
    pub address: Option<Ipv4Address>,
    /// How many times the target has been resolved.
    pub resolutions: Ghost<nat>,
    /// How many probes have completed with a verdict.
    pub iterations: Ghost<nat>,
    /// Every line handed out for appending, in order.
    pub lines: Ghost<Seq<Seq<char>>>,
}

/// `line` is a log line of the message, stamped with some valid local time.
pub open spec fn is_log_line_of(line: Seq<char>, msg: Seq<char>) -> bool {
    exists|t: LocalTime| t.wf() && line == log_line(t, msg)
}

/// `line` is a log line of a verdict on `target`.
pub open spec fn is_verdict_line(line: Seq<char>, target: Seq<char>) -> bool {
    exists|o: ProbeOutcome| is_log_line_of(line, #[trigger] outcome_text(target, o))
}

/// Whether `event` reports a probe that completed with a verdict.
pub open spec fn completes_probe(event: Event) -> bool {
    event matches Event::Probed { report } && report_result(report) is Ok
}

/// Whether `event` is one that a run in `phase` waits for.
pub open spec fn expects(phase: Phase, event: Event) -> bool {
    match phase {
        Phase::Fresh => event is Start,
        Phase::Opening => event is ProbeOpened || event is ProbeSetupFailed,
        Phase::Probing => event is Probed,
        Phase::Appending | Phase::Reporting => event is Appended || event is AppendFailed,
        Phase::Sleeping => event is Slept,
        Phase::Stopped => false,
    }
}

impl Monitor {
    /// The run's invariant.
    pub open spec fn wf(self) -> bool {
        let target = self.config.target@;
        &&& self.resolutions@ <= 1
        &&& (self.phase is Fresh <==> self.resolutions@ == 0)
        &&& (self.phase is Fresh ==> self.address is None && self.lines@.len() == 0
            && self.iterations@ == 0)
        &&& (self.address matches Some(a) ==> a.text() == target)
        &&& (!(self.phase is Fresh) ==> (self.address is Some <==> is_ipv4_text(target)))
        &&& (self.phase is Opening || self.phase is Probing || self.phase is Appending
            || self.phase is Sleeping ==> self.address is Some)
        &&& (self.phase is Reporting ==> self.address is None)
        &&& (!(self.phase is Fresh) && self.address is None ==> self.lines@.len() == 1
            && self.iterations@ == 0 && is_log_line_of(self.lines@[0], invalid_address_text()))
        &&& (self.address is Some ==> self.lines@.len() == self.iterations@ && forall|i: int|
            0 <= i < self.lines@.len() ==> is_verdict_line(#[trigger] self.lines@[i], target))
    }

    /// The probe action for the run's address.
    pub open spec fn probe_action(self, r: Action) -> bool {
        r == (Action::Probe {
            address: self.address->0,
            count: ECHO_COUNT,
            timeout_ms: self.config.timeout_ms,
        })
    }

    /// One transition: from `pre`, on `event` at local time `now`, the run moves to `post`
    /// and asks for `r`.
    pub open spec fn advanced(pre: Monitor, event: Event, now: LocalTime, post: Monitor, r: Action) -> bool {
        let target = pre.config.target@;
        &&& post.config == pre.config
        &&& post.lines@.len() >= pre.lines@.len()
        &&& post.lines@.subrange(0, pre.lines@.len() as int) == pre.lines@
        &&& (!(pre.phase is Fresh) ==> post.address == pre.address && post.resolutions == pre.resolutions)
        &&& post.resolutions@ == 1
        &&& post.iterations@ == if pre.phase is Probing && completes_probe(event) {
            pre.iterations@ + 1
        } else {
            pre.iterations@
        }
        &&& match (pre.phase, event) {
            (Phase::Fresh, Event::Start) => if is_ipv4_text(target) {
                &&& post.address matches Some(a) && a.text() == target
                &&& r == (Action::OpenProbe { address: post.address->0, timeout_ms: pre.config.timeout_ms })
                &&& post.phase == Phase::Opening && post.lines == pre.lines
            } else {
                &&& post.address is None
                &&& r matches Action::Append { line } && line@ == log_line(now, invalid_address_text())
                &&& post.lines@ == pre.lines@.push(log_line(now, invalid_address_text()))
                &&& post.phase == Phase::Reporting
            },
            (Phase::Opening, Event::ProbeOpened) => {
                &&& pre.probe_action(r) && post.phase == Phase::Probing && post.lines == pre.lines
            },
            (Phase::Opening, Event::ProbeSetupFailed { detail }) => {
                &&& r matches Action::Stop { error } && error matches MonitorError::ProbeSetup { detail: d } && d@ == detail@
                &&& post.phase == Phase::Stopped && post.lines == pre.lines
            },
            (Phase::Probing, Event::Probed { report }) => match report_result(report) {
                Ok(o) => {
                    &&& r matches Action::Append { line } && line@ == log_line(now, outcome_text(target, o))
                    &&& post.lines@ == pre.lines@.push(log_line(now, outcome_text(target, o)))
                    &&& post.phase == Phase::Appending
                },
                Err(_) => {
                    &&& r matches Action::Stop { error } && error is TimeoutError
                    &&& post.phase == Phase::Stopped && post.lines == pre.lines
                },
            },
            (Phase::Appending, Event::Appended) => {
                &&& r == (Action::Sleep { secs: pre.config.interval_secs })
                &&& post.phase == Phase::Sleeping && post.lines == pre.lines
            },
            (Phase::Reporting, Event::Appended) => {
                &&& r matches Action::Stop { error } && error is HostResolutionFailure
                &&& post.phase == Phase::Stopped && post.lines == pre.lines
            },
            (_, Event::AppendFailed { detail }) => {
                &&& r matches Action::Stop { error } && error matches MonitorError::Io { detail: d } && d@ == detail@
                &&& post.phase == Phase::Stopped && post.lines == pre.lines
            },
            (Phase::Sleeping, Event::Slept) => {
                &&& pre.probe_action(r) && post.phase == Phase::Probing && post.lines == pre.lines
            },
            _ => false,
        }
    }

    /// A run that has not started.
    pub fn new(config: ProbeConfig) -> (r: Monitor)
        ensures
            r.wf(),
            r.config == config,
            r.phase == Phase::Fresh,
    {
        Monitor {
            config,
            phase: Phase::Fresh,
            address: None,
            resolutions: Ghost(0),
            iterations: Ghost(0),
            lines: Ghost(Seq::empty()),
        }
    }

    /// Whether the run waits for `event`.
    pub fn accepts(&self, event: &Event) -> (r: bool)
        ensures
            r == expects(self.phase, *event),
    {
        match self.phase {
            Phase::Fresh => matches!(event, Event::Start),
            Phase::Opening => matches!(event, Event::ProbeOpened | Event::ProbeSetupFailed { .. }),
            Phase::Probing => matches!(event, Event::Probed { .. }),
            Phase::Appending | Phase::Reporting => matches!(event, Event::Appended | Event::AppendFailed { .. }),
            Phase::Sleeping => matches!(event, Event::Slept),
            Phase::Stopped => false,
        }
    }

    fn probe(&self) -> (r: Action)
        requires
            self.address is Some,
        ensures
            self.probe_action(r),
    {
        Action::Probe { address: self.address.unwrap(), count: ECHO_COUNT, timeout_ms: self.config.timeout_ms }
    }

    /// Takes the event that the outside world reports, at local time `now`, and returns
    /// the next action.
    pub fn advance(&mut self, event: Event, now: &LocalTime) -> (r: Action)
        requires
            old(self).wf(),
            now.wf(),
            expects(old(self).phase, event),
        ensures
            final(self).wf(),
            Monitor::advanced(*old(self), event, *now, *final(self), r),
    {
        let ghost pre = *self;
        match event {
            Event::Start => {
                self.resolutions = Ghost(1);
                match parse_ipv4(self.config.target.as_str()) {
                    Some(a) => {
                        self.address = Some(a);
                        self.phase = Phase::Opening;
                        proof { assert(self.lines@.subrange(0, pre.lines@.len() as int) =~= pre.lines@); }
                        Action::OpenProbe { address: a, timeout_ms: self.config.timeout_ms }
                    },
                    None => {
                        let line = format_log_line(now, "Invalid IP address provided");
                        self.lines = Ghost(self.lines@.push(line@));
                        self.phase = Phase::Reporting;
                        proof {
                            assert(self.lines@[0] == log_line(*now, invalid_address_text()));
                            assert(self.lines@.subrange(0, 0) =~= pre.lines@);
                        }
                        Action::Append { line }
                    },
                }
            },
            Event::ProbeOpened => {
                self.phase = Phase::Probing;
                proof { assert(self.lines@.subrange(0, pre.lines@.len() as int) =~= pre.lines@); }
                self.probe()
            },
            Event::ProbeSetupFailed { detail } => {
                self.phase = Phase::Stopped;
                proof { assert(self.lines@.subrange(0, pre.lines@.len() as int) =~= pre.lines@); }
                Action::Stop { error: MonitorError::ProbeSetup { detail } }
            },
            Event::Probed { report } => {
                match classify(report) {
                    Ok(o) => {
                        let msg = describe_outcome(self.config.target.as_str(), o);
                        let line = format_log_line(now, msg.as_str());
                        let ghost old_lines = self.lines@;
                        self.lines = Ghost(self.lines@.push(line@));
                        self.iterations = Ghost(self.iterations@ + 1);
                        self.phase = Phase::Appending;
                        proof {
                            assert(is_log_line_of(line@, outcome_text(self.config.target@, o)));
                            assert forall|i: int| 0 <= i < self.lines@.len() implies is_verdict_line(
                                #[trigger] self.lines@[i], self.config.target@) by {
                                if i < old_lines.len() {
                                    assert(self.lines@[i] == old_lines[i]);
                                } else {
                                    assert(is_log_line_of(self.lines@[i], outcome_text(self.config.target@, o)));
                                }
                            }
                            assert(self.lines@.subrange(0, pre.lines@.len() as int) =~= pre.lines@);
                        }
                        Action::Append { line }
                    },
                    Err(error) => {
                        self.phase = Phase::Stopped;
                        proof { assert(self.lines@.subrange(0, pre.lines@.len() as int) =~= pre.lines@); }
                        Action::Stop { error }
                    },
                }
            },
            Event::Appended => {
                proof { assert(self.lines@.subrange(0, pre.lines@.len() as int) =~= pre.lines@); }
                if self.phase == Phase::Reporting {
                    self.phase = Phase::Stopped;
                    Action::Stop { error: MonitorError::HostResolutionFailure }
                } else {
                    self.phase = Phase::Sleeping;
                    Action::Sleep { secs: self.config.interval_secs }
                }
            },
            Event::AppendFailed { detail } => {
                self.phase = Phase::Stopped;
                proof { assert(self.lines@.subrange(0, pre.lines@.len() as int) =~= pre.lines@); }
                Action::Stop { error: MonitorError::Io { detail } }
            },
            Event::Slept => {
                self.phase = Phase::Probing;
                proof { assert(self.lines@.subrange(0, pre.lines@.len() as int) =~= pre.lines@); }
                self.probe()
            },
        }
    }

    /// Takes the event that the outside world reports, reads the local clock, and returns
    /// the next action.
    pub fn step(&mut self, event: Event) -> (r: Action)
        requires
            old(self).wf(),
            expects(old(self).phase, event),
        ensures
            final(self).wf(),
            exists|t: LocalTime| t.wf() && Monitor::advanced(*old(self), event, t, *final(self), r),
    {
        let ghost pre = *self;
        let ghost ev = event;
        let now = local_now();
        let r = self.advance(event, &now);
        assert(now.wf() && Monitor::advanced(pre, ev, now, *self, r));
        r
    }
}

/// A target that is not an IPv4 literal is logged exactly once, with the invalid-address
/// message, and no probe verdict is ever logged in that run.
pub proof fn lemma_invalid_target_logged_once(m: Monitor)
    requires
        m.wf(),
        !(m.phase is Fresh),
        !is_ipv4_text(m.config.target@),
    ensures
        m.address is None,
        m.lines@.len() == 1,
        is_log_line_of(m.lines@[0], invalid_address_text()),
        m.iterations@ == 0,
{
}

/// Once a run has started, the target has been resolved exactly once, and no later
/// transition resolves it again or changes the address.
pub proof fn lemma_resolved_once(pre: Monitor, event: Event, now: LocalTime, post: Monitor, r: Action)
    requires
        pre.wf(),
        post.wf(),
        !(pre.phase is Fresh),
        Monitor::advanced(pre, event, now, post, r),
    ensures
        pre.resolutions@ == 1,
        post.resolutions@ == 1,
        post.address == pre.address,
{
}

/// With a valid target, the run has logged exactly one line per completed probe; with an
/// invalid one, the single invalid-address line and no verdicts.
pub proof fn lemma_one_line_per_iteration(m: Monitor)
    requires
        m.wf(),
    ensures
        m.address is Some ==> m.lines@.len() == m.iterations@,
        m.address is None ==> m.iterations@ == 0 && m.lines@.len() <= 1,
{
}

/// A transition that completes a probe logs exactly one line; any other logs none, except
/// the one line on an invalid target.
pub proof fn lemma_iteration_appends_one_line(pre: Monitor, event: Event, now: LocalTime, post: Monitor, r: Action)
    requires
        pre.wf(),
        post.wf(),
        Monitor::advanced(pre, event, now, post, r),
    ensures
        pre.address is Some ==> post.lines@.len() == pre.lines@.len() + (post.iterations@ - pre.iterations@),
        post.iterations@ >= pre.iterations@,
        post.lines@.len() <= pre.lines@.len() + 1,
{
}

/// Lines already logged are never removed or reordered: each transition only appends.
pub proof fn lemma_lines_only_grow(pre: Monitor, event: Event, now: LocalTime, post: Monitor, r: Action)
    requires
        Monitor::advanced(pre, event, now, post, r),
    ensures
        pre.lines@.is_prefix_of(post.lines@),
{
}

} // verus!
