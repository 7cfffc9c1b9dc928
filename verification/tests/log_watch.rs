use zaino_e2e::log_watch::{LogEvent, LogWatch, WatchOutcome, WatchStep};

fn line(s: &str) -> LogEvent {
    LogEvent::Line(s.to_string())
}

#[test]
fn watch_finds_marker_and_stops() {
    let mut w = LogWatch::new("Done loading".to_string(), true);
    assert_eq!(w.step(&line("starting")), WatchStep { echo: true, done: None });
    assert_eq!(w.step(&line("still loading")), WatchStep { echo: true, done: None });
    assert_eq!(w.step(&line("[main] Done loading blocks")), WatchStep { echo: true, done: Some(WatchOutcome::Found) });
    assert_eq!(w.outcome(), Some(WatchOutcome::Found));
}

#[test]
fn watch_reports_stream_end() {
    let mut w = LogWatch::new("ready".to_string(), false);
    assert_eq!(w.step(&line("not yet")), WatchStep { echo: false, done: None });
    assert_eq!(w.step(&LogEvent::StreamClosed), WatchStep { echo: false, done: Some(WatchOutcome::StreamEnded) });
}

#[test]
fn watch_reports_deadline_and_interrupt() {
    let mut w = LogWatch::new("ready".to_string(), true);
    assert_eq!(w.step(&LogEvent::Deadline).done, Some(WatchOutcome::TimedOut));
    let mut w2 = LogWatch::new("ready".to_string(), true);
    assert_eq!(w2.step(&LogEvent::Interrupt).done, Some(WatchOutcome::Interrupted));
}

#[test]
fn watch_outcome_is_final() {
    let mut w = LogWatch::new("ready".to_string(), true);
    assert_eq!(w.step(&LogEvent::Deadline).done, Some(WatchOutcome::TimedOut));
    // A late line with the marker changes nothing and is not echoed.
    assert_eq!(w.step(&line("ready")), WatchStep { echo: false, done: Some(WatchOutcome::TimedOut) });
    assert_eq!(w.step(&LogEvent::Interrupt).done, Some(WatchOutcome::TimedOut));
    assert_eq!(w.outcome(), Some(WatchOutcome::TimedOut));
}

#[test]
fn watch_is_open_until_decided() {
    let w = LogWatch::new("x".to_string(), true);
    assert_eq!(w.outcome(), None);
}

#[test]
fn watch_with_empty_marker_matches_first_line() {
    let mut w = LogWatch::new(String::new(), false);
    assert_eq!(w.step(&line("")).done, Some(WatchOutcome::Found));
}
