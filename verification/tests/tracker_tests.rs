use chronos::chronos::ChronosErrorTypes;
use chronos::day::Day;
use chronos::tracker::{get_time_per_day_at, Tracker};
use chronos::tracker_event::{TrackerEvent, TrackerEventType};
use chronos::tracker_session::TrackerSession;

fn start(t: i64) -> TrackerEvent {
    TrackerEvent::new(TrackerEventType::Start, t)
}

fn stop(t: i64) -> TrackerEvent {
    TrackerEvent::new(TrackerEventType::Stop, t)
}

#[test]
fn sessions_close_at_each_stop() {
    let events = vec![start(10), stop(25), start(30)];
    let (sessions, (toggled, last_start)) = Tracker::get_sessions(&events);
    assert_eq!(sessions, vec![TrackerSession::new(10, 15)]);
    assert!(toggled);
    assert_eq!(last_start, 30);
}

#[test]
fn stop_before_any_start_counts_from_zero() {
    let events = vec![stop(5), start(7), stop(9)];
    let (sessions, (toggled, last_start)) = Tracker::get_sessions(&events);
    assert_eq!(sessions, vec![TrackerSession::new(0, 5), TrackerSession::new(7, 2)]);
    assert!(!toggled);
    assert_eq!(last_start, 7);
}

#[test]
fn no_events_no_sessions() {
    let (sessions, (toggled, last_start)) = Tracker::get_sessions(&vec![]);
    assert!(sessions.is_empty());
    assert!(!toggled);
    assert_eq!(last_start, 0);
}

#[test]
fn one_session_per_stop_law() {
    let events = vec![start(1), stop(4), start(10), stop(20), stop(22), start(30)];
    let (sessions, _) = Tracker::get_sessions(&events);
    let stops: Vec<&TrackerEvent> =
        events.iter().filter(|e| e.event_type == TrackerEventType::Stop).collect();
    assert_eq!(sessions.len(), stops.len());
    for (s, e) in sessions.iter().zip(stops.iter()) {
        assert_eq!(s.start_time + s.duration, e.timestamp);
    }
}

#[test]
fn toggle_flips_running_state_law() {
    let mut events = vec![start(100), stop(160)];
    let tracker = Tracker::new("work", 0, events.clone()).unwrap();
    assert!(!tracker.toggled);
    assert_eq!(tracker.toggle_event_type(), TrackerEventType::Start);
    events.push(TrackerEvent::new(tracker.toggle_event_type(), 200));
    let started = Tracker::new("work", 0, events.clone()).unwrap();
    assert!(started.toggled);
    assert_eq!(started.last_start, 200);
    assert_eq!(started.sessions, tracker.sessions);
    assert_eq!(started.toggle_event_type(), TrackerEventType::Stop);
    events.push(TrackerEvent::new(started.toggle_event_type(), 260));
    let stopped = Tracker::new("work", 0, events).unwrap();
    assert!(!stopped.toggled);
    assert_eq!(stopped.sessions.len(), 2);
    assert_eq!(stopped.sessions[1], TrackerSession::new(200, 60));
}

#[test]
fn ordered_events_have_nonnegative_durations_law() {
    let events = vec![stop(3), start(5), start(8), stop(8), stop(12)];
    let (sessions, _) = Tracker::get_sessions(&events);
    assert!(sessions.iter().all(|s| s.duration >= 0));
    assert_eq!(
        sessions,
        vec![TrackerSession::new(0, 3), TrackerSession::new(8, 0), TrackerSession::new(8, 4)]
    );
}

#[test]
fn time_per_day_of_no_sessions() {
    assert_eq!(get_time_per_day_at(&vec![], 1_000), vec![Day::new(1, 0)]);
}

#[test]
fn time_per_day_counts_back_from_now() {
    let sessions = vec![
        TrackerSession::new(100_000, 10),
        TrackerSession::new(190_000, 20),
        TrackerSession::new(199_000, 30),
    ];
    let days = get_time_per_day_at(&sessions, 200_000);
    assert_eq!(days, vec![Day::new(2, 10), Day::new(2, 60)]);
}

#[test]
fn time_per_day_all_recent() {
    let sessions = vec![TrackerSession::new(150_000, 5), TrackerSession::new(160_000, 7)];
    assert_eq!(get_time_per_day_at(&sessions, 200_000), vec![Day::new(1, 12)]);
}

#[test]
fn time_per_day_shape_law() {
    let sessions = vec![
        TrackerSession::new(0, 1),
        TrackerSession::new(10, 2),
        TrackerSession::new(20, 3),
        TrackerSession::new(400_000, 4),
    ];
    let days = get_time_per_day_at(&sessions, 500_000);
    assert!(!days.is_empty());
    assert_eq!(days.last().unwrap().day_index, days.len());
    for (i, d) in days[..days.len() - 1].iter().enumerate() {
        assert_eq!(d.day_index, i + 2);
    }
}

#[test]
fn time_per_day_with_clock() {
    let sessions = vec![TrackerSession::new(1, 2)];
    let days = Tracker::get_time_per_day(&sessions).unwrap();
    assert_eq!(days.len(), 2);
    assert_eq!(days[0], Day::new(2, 2));
}

#[test]
fn format_epoch_small_values() {
    assert_eq!(Tracker::format_epoch(0), "0 seconds");
    assert_eq!(Tracker::format_epoch(1), "0 seconds");
    assert_eq!(Tracker::format_epoch(59), "59 seconds");
    assert_eq!(Tracker::format_epoch(61), "0 seconds");
    assert_eq!(Tracker::format_epoch(120), "2 minutes, 0 seconds");
    assert_eq!(Tracker::format_epoch(3600), "0 minutes, 0 seconds");
    assert_eq!(Tracker::format_epoch(7322), "2 hours, 2 minutes, 2 seconds");
}

#[test]
fn format_epoch_days_and_years() {
    assert_eq!(Tracker::format_epoch(90061), "1 day, 1 hour, 1 minute, 1 seconds");
    assert_eq!(
        Tracker::format_epoch(2 * 365 * 86400),
        "2 years, 0 days, 0 hours, 0 minutes, 0 seconds"
    );
    assert_eq!(
        Tracker::format_epoch(365 * 86400 + 3 * 86400 + 5),
        "1 year, 3 days, 1 hour, 1 minute, 5 seconds"
    );
}

#[test]
fn format_epoch_negative() {
    assert_eq!(Tracker::format_epoch(-5), "0 seconds");
    assert_eq!(Tracker::format_epoch(-3600), "0 seconds");
}

#[test]
fn format_epoch_ends_in_seconds_law() {
    for t in [0i64, 1, 2, 59, 60, 61, 3599, 86400, 90061, 31_536_000, -7, i64::MAX, i64::MIN] {
        assert!(Tracker::format_epoch(t).ends_with("seconds"));
    }
}

#[test]
fn report_at_counts_window_and_running_time() {
    let events = vec![start(1_000), stop(1_100), start(190_000), stop(190_300), start(199_000)];
    let tracker = Tracker::new("work", 0, events).unwrap();
    // the window of one day before 200000 starts at 113600
    assert_eq!(tracker.report_at(1, 200_000), Tracker::format_epoch(300 + 1_000));
    // three days reach back to the first session
    assert_eq!(tracker.report_at(3, 200_000), Tracker::format_epoch(100 + 300 + 1_000));
    assert_eq!(tracker.report_at(1, 200_000), "21 minutes, 40 seconds");
}

#[test]
fn report_with_clock() {
    let tracker = Tracker::new("work", 0, vec![start(10), stop(130)]).unwrap();
    assert_eq!(tracker.report(100_000).unwrap(), "2 minutes, 0 seconds");
    assert_eq!(tracker.report(0).unwrap(), "0 seconds");
}

#[test]
fn get_timestamp_reads_the_clock() {
    assert!(Tracker::get_timestamp() > 1_600_000_000);
}

#[test]
fn new_tracker_is_consistent() {
    let events = vec![start(5), stop(15)];
    let tracker = Tracker::new("reading", 42, events.clone()).unwrap();
    assert_eq!(tracker.name, "reading");
    assert_eq!(tracker.created_at, 42);
    assert_eq!(tracker.events, events);
    assert_eq!(tracker.sessions, vec![TrackerSession::new(5, 10)]);
    assert!(!tracker.time_per_day.is_empty());
}

#[test]
fn new_tracker_overflowing_duration() {
    let events = vec![start(i64::MIN), stop(i64::MAX)];
    assert!(Tracker::new("x", 0, events).is_none());
}

#[test]
fn update_refreshes_from_events() {
    let mut tracker = Tracker::new("t", 1, vec![start(5)]).unwrap();
    assert!(tracker.toggled);
    assert!(tracker.update(vec![start(5), stop(9)]));
    assert!(!tracker.toggled);
    assert_eq!(tracker.sessions, vec![TrackerSession::new(5, 4)]);
    assert_eq!(tracker.name, "t");
    let before = tracker.clone();
    assert!(!tracker.update(vec![start(i64::MIN), stop(i64::MAX)]));
    assert_eq!(tracker.sessions, before.sessions);
    assert_eq!(tracker.events, before.events);
}

#[test]
fn rows_become_events() {
    let rows = vec![(3, "Start".to_string()), (4, "stop".to_string()), (9, "start".to_string())];
    let events = Tracker::events_from_rows(&rows).unwrap();
    assert_eq!(events, vec![start(3), stop(4), start(9)]);
}

#[test]
fn unknown_row_is_a_database_error() {
    let rows = vec![(3, "Start".to_string()), (4, "STOP".to_string())];
    let e = Tracker::events_from_rows(&rows).unwrap_err();
    assert_eq!(e.error_type, ChronosErrorTypes::DatabaseError);
    assert_eq!(e.message, "Unknown event type");
}

#[test]
fn event_type_name_roundtrip_law() {
    for t in [TrackerEventType::Start, TrackerEventType::Stop] {
        assert_eq!(TrackerEventType::parse(t.name()), Some(t));
    }
    assert_eq!(TrackerEventType::Start.name(), "Start");
    assert_eq!(TrackerEventType::Stop.name(), "Stop");
    assert_eq!(TrackerEventType::parse("pause"), None);
}
