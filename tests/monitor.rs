use audion::address::Ipv4Address;
use audion::clock::LocalTime;
use audion::monitor::{
    classify, describe_outcome, format_log_line, Action, Event, Monitor, MonitorError, Phase,
    ProbeConfig, ProbeOutcome, ProbeReport, ECHO_COUNT,
};

fn config(target: &str, timeout_ms: u64, interval_secs: u64) -> ProbeConfig {
    ProbeConfig {
        target: target.to_string(),
        output: "output.txt".to_string(),
        timeout_ms,
        interval_secs,
    }
}

fn noon(second: u32) -> LocalTime {
    LocalTime { year: 2024, month: 1, day: 2, hour: 12, minute: 0, second }
}

fn appended_line(action: Action) -> String {
    match action {
        Action::Append { line } => line,
        other => panic!("expected an append, got {:?}", other),
    }
}

fn stop_error(action: Action) -> MonitorError {
    match action {
        Action::Stop { error } => error,
        other => panic!("expected a stop, got {:?}", other),
    }
}

fn assert_probe(action: Action, address: Ipv4Address, timeout_ms: u64) {
    match action {
        Action::Probe { address: a, count, timeout_ms: t } => {
            assert_eq!(a, address);
            assert_eq!(count, 4);
            assert_eq!(t, timeout_ms);
        }
        other => panic!("expected a probe, got {:?}", other),
    }
}

#[test]
fn defaults_match_the_command_line() {
    let c = ProbeConfig::defaults();
    assert_eq!(c.target, "127.0.0.1");
    assert_eq!(c.output, "output.txt");
    assert_eq!(c.timeout_ms, 1000);
    assert_eq!(c.interval_secs, 60);
}

#[test]
fn error_messages() {
    assert_eq!(MonitorError::HostResolutionFailure.message(), "Host resolution failure");
    assert_eq!(MonitorError::TimeoutError.message(), "Timeout error");
    assert_eq!(
        MonitorError::ProbeSetup { detail: "permission denied".to_string() }.message(),
        "Surge error: permission denied"
    );
    assert_eq!(
        MonitorError::Io { detail: "disk full".to_string() }.message(),
        "I/O error: disk full"
    );
}

#[test]
fn classify_reports() {
    assert!(matches!(classify(ProbeReport::Replied), Ok(ProbeOutcome::Reachable)));
    assert!(matches!(classify(ProbeReport::Failed), Ok(ProbeOutcome::Unreachable)));
    assert!(matches!(classify(ProbeReport::TimedOut), Err(MonitorError::TimeoutError)));
}

#[test]
fn outcome_messages() {
    assert_eq!(describe_outcome("127.0.0.1", ProbeOutcome::Reachable), "Host 127.0.0.1 is reachable");
    assert_eq!(
        describe_outcome("10.255.255.1", ProbeOutcome::Unreachable),
        "Host 10.255.255.1 is unreachable"
    );
}

#[test]
fn log_line_is_stamp_space_message() {
    assert_eq!(format_log_line(&noon(7), "hello"), "[2024-01-02 12:00:07] hello");
}

#[test]
fn loopback_two_iterations_log_two_reachable_lines() {
    let loopback = Ipv4Address { a: 127, b: 0, c: 0, d: 1 };
    let mut m = Monitor::new(config("127.0.0.1", 1000, 0));
    assert_eq!(m.phase, Phase::Fresh);
    match m.advance(Event::Start, &noon(0)) {
        Action::OpenProbe { address, timeout_ms } => {
            assert_eq!(address, loopback);
            assert_eq!(timeout_ms, 1000);
        }
        other => panic!("expected to open a probe, got {:?}", other),
    }
    assert_probe(m.advance(Event::ProbeOpened, &noon(0)), loopback, 1000);
    let first = appended_line(m.advance(Event::Probed { report: ProbeReport::Replied }, &noon(0)));
    assert_eq!(first, "[2024-01-02 12:00:00] Host 127.0.0.1 is reachable");
    assert!(matches!(m.advance(Event::Appended, &noon(0)), Action::Sleep { secs: 0 }));
    assert_probe(m.advance(Event::Slept, &noon(0)), loopback, 1000);
    let second = appended_line(m.advance(Event::Probed { report: ProbeReport::Replied }, &noon(1)));
    assert_eq!(second, "[2024-01-02 12:00:01] Host 127.0.0.1 is reachable");
    assert!(matches!(m.advance(Event::Appended, &noon(1)), Action::Sleep { secs: 0 }));
    assert_eq!(m.phase, Phase::Sleeping);
}

#[test]
fn invalid_target_logs_once_then_stops() {
    let mut m = Monitor::new(config("999.999.999.999", 1000, 60));
    let line = appended_line(m.advance(Event::Start, &noon(3)));
    assert_eq!(line, "[2024-01-02 12:00:03] Invalid IP address provided");
    assert_eq!(m.phase, Phase::Reporting);
    assert_eq!(m.address, None);
    let error = stop_error(m.advance(Event::Appended, &noon(3)));
    assert!(matches!(error, MonitorError::HostResolutionFailure));
    assert_eq!(error.message(), "Host resolution failure");
    assert_eq!(m.phase, Phase::Stopped);
    assert!(!m.accepts(&Event::Start));
}

#[test]
fn empty_target_is_invalid() {
    let mut m = Monitor::new(config("", 1000, 60));
    let line = appended_line(m.advance(Event::Start, &noon(4)));
    assert_eq!(line, "[2024-01-02 12:00:04] Invalid IP address provided");
}

#[test]
fn unreachable_host_is_logged_and_loop_continues() {
    let target = Ipv4Address { a: 10, b: 255, c: 255, d: 1 };
    let mut m = Monitor::new(config("10.255.255.1", 200, 60));
    assert!(matches!(m.advance(Event::Start, &noon(0)), Action::OpenProbe { timeout_ms: 200, .. }));
    assert_probe(m.advance(Event::ProbeOpened, &noon(0)), target, 200);
    let line = appended_line(m.advance(Event::Probed { report: ProbeReport::Failed }, &noon(0)));
    assert_eq!(line, "[2024-01-02 12:00:00] Host 10.255.255.1 is unreachable");
    assert!(matches!(m.advance(Event::Appended, &noon(0)), Action::Sleep { secs: 60 }));
    assert_probe(m.advance(Event::Slept, &noon(0)), target, 200);
}

#[test]
fn probe_setup_failure_stops_before_any_line() {
    let mut m = Monitor::new(config("127.0.0.1", 1000, 60));
    m.advance(Event::Start, &noon(0));
    let error = stop_error(m.advance(
        Event::ProbeSetupFailed { detail: "Operation not permitted".to_string() },
        &noon(0),
    ));
    assert_eq!(error.message(), "Surge error: Operation not permitted");
    assert_eq!(m.phase, Phase::Stopped);
}

#[test]
fn elapsed_bound_is_fatal() {
    let mut m = Monitor::new(config("127.0.0.1", 1000, 60));
    m.advance(Event::Start, &noon(0));
    m.advance(Event::ProbeOpened, &noon(0));
    let error = stop_error(m.advance(Event::Probed { report: ProbeReport::TimedOut }, &noon(0)));
    assert!(matches!(error, MonitorError::TimeoutError));
}

#[test]
fn append_failure_is_fatal() {
    let mut m = Monitor::new(config("127.0.0.1", 1000, 60));
    m.advance(Event::Start, &noon(0));
    m.advance(Event::ProbeOpened, &noon(0));
    m.advance(Event::Probed { report: ProbeReport::Replied }, &noon(0));
    let error = stop_error(m.advance(Event::AppendFailed { detail: "disk full".to_string() }, &noon(0)));
    assert_eq!(error.message(), "I/O error: disk full");
}

#[test]
fn accepts_only_the_awaited_events() {
    let mut m = Monitor::new(config("127.0.0.1", 1000, 60));
    assert!(m.accepts(&Event::Start));
    assert!(!m.accepts(&Event::Slept));
    m.advance(Event::Start, &noon(0));
    assert!(m.accepts(&Event::ProbeOpened));
    assert!(m.accepts(&Event::ProbeSetupFailed { detail: String::new() }));
    assert!(!m.accepts(&Event::Appended));
    assert_eq!(ECHO_COUNT, 4);
}

#[test]
fn step_stamps_with_the_local_clock() {
    let mut m = Monitor::new(config("not-an-address", 1000, 60));
    let line = appended_line(m.step(Event::Start));
    assert!(line.starts_with('['));
    assert!(line.ends_with("] Invalid IP address provided"));
    let stamp = &line[..line.len() - " Invalid IP address provided".len()];
    assert_eq!(stamp.len(), 21);
    assert_eq!(&stamp[5..6], "-");
    assert_eq!(&stamp[11..12], " ");
    assert!(stamp[1..5].chars().all(|c| c.is_ascii_digit()));
}
