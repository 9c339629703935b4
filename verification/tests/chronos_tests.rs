use chronos::chronos::{
    Chronos, ChronosError, ChronosErrorTypes, ChronosTuiState, CommandPlan, Key, ListSelections,
    TuiAction, TuiEvent, TuiPending,
};
use chronos::tracker::Tracker;
use chronos::tracker_event::{TrackerEvent, TrackerEventType};
use chronos::tracker_session::TrackerSession;

fn tracker(name: &str, created_at: i64, events: Vec<TrackerEvent>) -> Tracker {
    Tracker::new(name, created_at, events).unwrap()
}

fn start(t: i64) -> TrackerEvent {
    TrackerEvent::new(TrackerEventType::Start, t)
}

fn stop(t: i64) -> TrackerEvent {
    TrackerEvent::new(TrackerEventType::Stop, t)
}

fn sample() -> Chronos {
    Chronos::new(vec![
        tracker("alpha", 30, vec![start(10), stop(140)]),
        tracker("beta", -5, vec![start(100)]),
        tracker("gamma", 10, vec![]),
    ])
}

fn args(list: &[&str]) -> Vec<String> {
    list.iter().map(|s| s.to_string()).collect()
}

fn no_lists() -> ListSelections {
    ListSelections { trackers: None, sessions: None, days: None }
}

#[test]
fn chronos_error_new() {
    let e = ChronosError::new(ChronosErrorTypes::WebAppError, "boom".to_string());
    assert_eq!(e.error_type, ChronosErrorTypes::WebAppError);
    assert_eq!(e.message, "boom");
    assert_eq!(e.clone(), e);
}

#[test]
fn new_chronos_starts_on_selection_page() {
    let c = sample();
    assert_eq!(c.trackers.len(), 3);
    assert_eq!(c.tui_state, ChronosTuiState::Selection);
    assert!(c.selected_tracker.is_none());
    assert!(c.last_error.is_none());
    assert!(!c.exit);
    assert_eq!(c.pending, TuiPending::Idle);
}

#[test]
fn command_without_arguments() {
    let e = sample().run_command(&args(&["chronos"])).err().unwrap();
    assert_eq!(e.error_type, ChronosErrorTypes::NoArguments);
    assert_eq!(e.message, "No arguments provided");
    let e = sample().run_command(&args(&[])).err().unwrap();
    assert_eq!(e.error_type, ChronosErrorTypes::NoArguments);
}

#[test]
fn command_list() {
    match sample().run_command(&args(&["chronos", "list"])).ok().unwrap() {
        CommandPlan::Reply(text) => assert_eq!(
            text,
            "Trackers:\nalpha - Created at 30\nbeta - Created at -5\ngamma - Created at 10\n"
        ),
        _ => panic!("expected a reply"),
    }
    match Chronos::new(vec![]).run_command(&args(&["chronos", "list"])).ok().unwrap() {
        CommandPlan::Reply(text) => assert_eq!(text, "Trackers:\n"),
        _ => panic!("expected a reply"),
    }
}

#[test]
fn command_invalid() {
    for a in [
        vec!["chronos", "lists"],
        vec!["chronos", "rename", "alpha"],
        vec!["chronos", "create", "x", "y"],
        vec!["chronos", "report", "alpha", "1", "2"],
    ] {
        let e = sample().run_command(&args(&a)).err().unwrap();
        assert_eq!(e.error_type, ChronosErrorTypes::InvalidCommand);
        assert_eq!(e.message, "Invalid command");
    }
}

#[test]
fn command_create() {
    let e = sample().run_command(&args(&["chronos", "create", "beta"])).err().unwrap();
    assert_eq!(e.error_type, ChronosErrorTypes::TrackerAlreadyExists);
    assert_eq!(e.message, "Tracker beta already exists");
    match sample().run_command(&args(&["chronos", "create", "delta"])).ok().unwrap() {
        CommandPlan::Create(name) => assert_eq!(name, "delta"),
        _ => panic!("expected a creation"),
    }
}

#[test]
fn command_delete() {
    let e = sample().run_command(&args(&["chronos", "delete", "delta"])).err().unwrap();
    assert_eq!(e.error_type, ChronosErrorTypes::NoCurrentTracker);
    assert_eq!(e.message, "No tracker named delta found");
    let plan = sample().run_command(&args(&["chronos", "delete", "alpha"])).ok().unwrap();
    match &plan {
        CommandPlan::Delete(name) => assert_eq!(name, "alpha"),
        _ => panic!("expected a deletion"),
    }
    assert_eq!(plan.reply().unwrap(), "Tracker alpha deleted");
}

#[test]
fn command_toggle() {
    let plan = sample().run_command(&args(&["chronos", "toggle", "beta"])).ok().unwrap();
    match &plan {
        CommandPlan::Toggle { name, event_type } => {
            assert_eq!(name, "beta");
            assert_eq!(*event_type, TrackerEventType::Stop);
        },
        _ => panic!("expected a toggle"),
    }
    assert_eq!(plan.reply().unwrap(), "Tracker beta toggled");
    match sample().run_command(&args(&["chronos", "toggle", "alpha"])).ok().unwrap() {
        CommandPlan::Toggle { event_type, .. } => assert_eq!(event_type, TrackerEventType::Start),
        _ => panic!("expected a toggle"),
    }
    let e = sample().run_command(&args(&["chronos", "toggle", "zeta"])).err().unwrap();
    assert_eq!(e.error_type, ChronosErrorTypes::NoCurrentTracker);
}

#[test]
fn command_toggle_uses_last_tracker_of_the_name() {
    let c = Chronos::new(vec![
        tracker("dup", 1, vec![start(5)]),
        tracker("dup", 2, vec![]),
    ]);
    match c.run_command(&args(&["chronos", "toggle", "dup"])).ok().unwrap() {
        CommandPlan::Toggle { event_type, .. } => assert_eq!(event_type, TrackerEventType::Start),
        _ => panic!("expected a toggle"),
    }
}

#[test]
fn command_report() {
    let e = sample().run_command(&args(&["chronos", "report", "alpha", "x"])).err().unwrap();
    assert_eq!(e.error_type, ChronosErrorTypes::InvalidCommand);
    assert_eq!(e.message, "Invalid number of days");
    let e = sample().run_command(&args(&["chronos", "report", "zeta", "3"])).err().unwrap();
    assert_eq!(e.error_type, ChronosErrorTypes::NoCurrentTracker);
    let plan = sample().run_command(&args(&["chronos", "report", "alpha", "+100000"])).ok().unwrap();
    match &plan {
        CommandPlan::Report { days, tracker } => {
            assert_eq!(*days, 100000);
            assert_eq!(tracker.name, "alpha");
        },
        _ => panic!("expected a report"),
    }
    assert_eq!(plan.reply().unwrap(), "Report for 100000 days: 2 minutes, 10 seconds");
}

#[test]
fn command_create_reply() {
    assert_eq!(CommandPlan::Create("x".to_string()).reply().unwrap(), "Tracker x created");
    assert_eq!(CommandPlan::Reply("hi".to_string()).reply().unwrap(), "hi");
}

#[test]
fn create_tracker_goes_ahead_only_for_a_stored_name() {
    let stored = vec![tracker("alpha", 1, vec![])];
    assert!(Chronos::create_tracker(&stored, "alpha").is_ok());
    let e = Chronos::create_tracker(&stored, "omega").unwrap_err();
    assert_eq!(e.error_type, ChronosErrorTypes::NameAlreadyExists);
    assert_eq!(e.message, "Tracker \"omega\" already exists");
}

#[test]
fn selection_up_down_enter() {
    let mut c = sample();
    let mut lists = no_lists();
    let mut input = String::new();
    // the first Down without a selection moves to the second tracker
    assert_eq!(c.handle_key_event(Key::Down, &mut lists, &mut input), TuiAction::Nothing);
    assert_eq!(lists.trackers, Some(1));
    assert_eq!(c.selected_tracker.as_ref().unwrap().name, "beta");
    c.handle_key_event(Key::Down, &mut lists, &mut input);
    assert_eq!(lists.trackers, Some(2));
    c.handle_key_event(Key::Down, &mut lists, &mut input);
    assert_eq!(lists.trackers, Some(2));
    c.handle_key_event(Key::Up, &mut lists, &mut input);
    c.handle_key_event(Key::Up, &mut lists, &mut input);
    assert_eq!(lists.trackers, Some(0));
    assert_eq!(c.selected_tracker.as_ref().unwrap().name, "alpha");
    c.handle_key_event(Key::Up, &mut lists, &mut input);
    assert_eq!(lists.trackers, Some(0));
    c.handle_key_event(Key::Enter, &mut lists, &mut input);
    assert_eq!(c.tui_state, ChronosTuiState::Tracker);
    assert_eq!(c.selected_tracker.as_ref().unwrap().name, "alpha");
}

#[test]
fn selection_up_without_selection_picks_first() {
    let mut c = sample();
    let mut lists = no_lists();
    let mut input = String::new();
    c.handle_key_event(Key::Up, &mut lists, &mut input);
    assert_eq!(lists.trackers, Some(0));
    assert_eq!(c.selected_tracker.as_ref().unwrap().name, "alpha");
}

#[test]
fn selection_down_on_empty_list_clears() {
    let mut c = Chronos::new(vec![]);
    let mut lists = ListSelections { trackers: Some(4), sessions: None, days: None };
    let mut input = String::new();
    c.handle_key_event(Key::Down, &mut lists, &mut input);
    assert_eq!(lists.trackers, None);
    assert!(c.selected_tracker.is_none());
}

#[test]
fn selection_esc_and_create_page() {
    let mut c = sample();
    let mut lists = no_lists();
    let mut input = String::new();
    c.handle_key_event(Key::Char('c'), &mut lists, &mut input);
    assert_eq!(c.tui_state, ChronosTuiState::Creation);
    let mut c = sample();
    c.handle_key_event(Key::Esc, &mut lists, &mut input);
    assert!(c.exit);
    let mut c = sample();
    c.exit_tui();
    assert!(c.exit);
}

#[test]
fn selection_delete_flow() {
    let mut c = sample();
    let mut lists = no_lists();
    let mut input = String::new();
    c.handle_key_event(Key::Down, &mut lists, &mut input);
    c.handle_key_event(Key::Down, &mut lists, &mut input);
    assert_eq!(lists.trackers, Some(2));
    let action = c.handle_key_event(Key::Delete, &mut lists, &mut input);
    assert_eq!(action, TuiAction::DeleteTracker("gamma".to_string()));
    assert_eq!(c.pending, TuiPending::Deleting { selection: 2, selected: true });
    let action = c.resume(TuiEvent::Done(Ok(())), &mut lists, &mut input);
    assert_eq!(action, TuiAction::ReloadTrackers);
    let remaining = vec![tracker("alpha", 30, vec![]), tracker("beta", -5, vec![])];
    let event = TuiEvent::Trackers(Ok(remaining));
    assert!(c.accepts_event(&event));
    let action = c.resume(event, &mut lists, &mut input);
    assert_eq!(action, TuiAction::Nothing);
    assert_eq!(c.pending, TuiPending::Idle);
    assert_eq!(c.trackers.len(), 2);
    assert_eq!(lists.trackers, Some(1));
    assert_eq!(c.selected_tracker.as_ref().unwrap().name, "beta");
}

#[test]
fn selection_delete_without_selection_reloads() {
    let mut c = sample();
    let mut lists = no_lists();
    let mut input = String::new();
    let action = c.handle_key_event(Key::Delete, &mut lists, &mut input);
    assert_eq!(action, TuiAction::ReloadTrackers);
    c.resume(TuiEvent::Trackers(Ok(vec![tracker("solo", 1, vec![])])), &mut lists, &mut input);
    assert_eq!(lists.trackers, None);
    assert!(c.selected_tracker.is_none());
}

#[test]
fn failed_deletion_shows_error() {
    let mut c = sample();
    let mut lists = no_lists();
    let mut input = String::new();
    c.handle_key_event(Key::Up, &mut lists, &mut input);
    c.handle_key_event(Key::Delete, &mut lists, &mut input);
    let e = ChronosError::new(ChronosErrorTypes::DatabaseError, "Failed to delete tracker".to_string());
    let action = c.resume(TuiEvent::Done(Err(e.clone())), &mut lists, &mut input);
    assert_eq!(action, TuiAction::Nothing);
    assert_eq!(c.tui_state, ChronosTuiState::Error);
    assert_eq!(c.last_error, Some(e));
    assert_eq!(c.error_text(), "Failed to delete tracker");
    c.handle_key_event(Key::Enter, &mut lists, &mut input);
    assert_eq!(c.tui_state, ChronosTuiState::Error);
    c.handle_key_event(Key::Esc, &mut lists, &mut input);
    assert_eq!(c.tui_state, ChronosTuiState::Selection);
}

#[test]
fn creation_typing() {
    let mut c = sample();
    let mut lists = no_lists();
    let mut input = String::new();
    c.handle_key_event(Key::Char('c'), &mut lists, &mut input);
    for ch in ['n', 'e', 'w', 'x'] {
        c.handle_key_event(Key::Char(ch), &mut lists, &mut input);
    }
    assert_eq!(input, "newx");
    c.handle_key_event(Key::Backspace, &mut lists, &mut input);
    assert_eq!(input, "new");
    c.handle_key_event(Key::Left, &mut lists, &mut input);
    assert_eq!(input, "new");
    c.handle_key_event(Key::Esc, &mut lists, &mut input);
    assert_eq!(c.tui_state, ChronosTuiState::Selection);
    assert_eq!(input, "");
    let mut c = sample();
    c.handle_key_event(Key::Char('c'), &mut lists, &mut input);
    c.handle_key_event(Key::Backspace, &mut lists, &mut input);
    assert_eq!(input, "");
}

#[test]
fn creation_of_taken_name_fails() {
    let mut c = sample();
    let mut lists = no_lists();
    let mut input = String::new();
    c.handle_key_event(Key::Char('c'), &mut lists, &mut input);
    c.handle_key_event(Key::Char('b'), &mut lists, &mut input);
    let action = c.handle_key_event(Key::Enter, &mut lists, &mut input);
    assert_eq!(action, TuiAction::LoadTableNames);
    let names = vec!["trackers".to_string(), "b".to_string()];
    let action = c.resume(TuiEvent::TableNames(Ok(names)), &mut lists, &mut input);
    assert_eq!(action, TuiAction::Nothing);
    assert_eq!(c.tui_state, ChronosTuiState::Error);
    let e = c.last_error.clone().unwrap();
    assert_eq!(e.error_type, ChronosErrorTypes::NameAlreadyExists);
    assert_eq!(e.message, "Tracker b already exists");
}

#[test]
fn creation_flow() {
    let mut c = sample();
    let mut lists = no_lists();
    let mut input = String::new();
    c.handle_key_event(Key::Char('c'), &mut lists, &mut input);
    c.handle_key_event(Key::Char('z'), &mut lists, &mut input);
    c.handle_key_event(Key::Enter, &mut lists, &mut input);
    let names = vec!["trackers".to_string(), "alpha".to_string()];
    let action = c.resume(TuiEvent::TableNames(Ok(names)), &mut lists, &mut input);
    assert_eq!(action, TuiAction::CreateTracker("z".to_string()));
    let action = c.resume(TuiEvent::Done(Ok(())), &mut lists, &mut input);
    assert_eq!(action, TuiAction::ReloadTrackers);
    assert_eq!(input, "");
    let all = vec![tracker("z", 1, vec![]), tracker("alpha", 0, vec![])];
    let action = c.resume(TuiEvent::Trackers(Ok(all)), &mut lists, &mut input);
    assert_eq!(action, TuiAction::Nothing);
    assert_eq!(c.tui_state, ChronosTuiState::Selection);
    assert_eq!(c.trackers[0].name, "z");
}

#[test]
fn tracker_page_toggle_flow() {
    let mut c = sample();
    let mut lists = ListSelections { trackers: Some(1), sessions: None, days: None };
    let mut input = String::new();
    c.handle_key_event(Key::Enter, &mut lists, &mut input);
    assert_eq!(c.tui_state, ChronosTuiState::Tracker);
    let action = c.handle_key_event(Key::Enter, &mut lists, &mut input);
    assert_eq!(action, TuiAction::ToggleTracker { name: "beta".to_string(), event_type: TrackerEventType::Stop });
    let action = c.resume(TuiEvent::Done(Ok(())), &mut lists, &mut input);
    assert_eq!(action, TuiAction::ReloadTrackers);
    let reloaded = vec![
        tracker("alpha", 30, vec![]),
        tracker("beta", -5, vec![start(100), stop(160)]),
        tracker("beta", 7, vec![]),
    ];
    let event = TuiEvent::Trackers(Ok(reloaded));
    assert!(c.accepts_event(&event));
    c.resume(event, &mut lists, &mut input);
    let selected = c.selected_tracker.as_ref().unwrap();
    assert_eq!(selected.name, "beta");
    assert_eq!(selected.created_at, -5);
    assert_eq!(selected.sessions, vec![TrackerSession::new(100, 60)]);
    assert_eq!(c.pending, TuiPending::Idle);
}

#[test]
fn toggle_reload_without_the_tracker_is_refused() {
    let mut c = sample();
    let mut lists = ListSelections { trackers: Some(1), sessions: None, days: None };
    let mut input = String::new();
    c.handle_key_event(Key::Enter, &mut lists, &mut input);
    c.handle_key_event(Key::Enter, &mut lists, &mut input);
    c.resume(TuiEvent::Done(Ok(())), &mut lists, &mut input);
    assert!(!c.accepts_event(&TuiEvent::Trackers(Ok(vec![]))));
    assert!(!c.accepts_event(&TuiEvent::Done(Ok(()))));
}

#[test]
fn tracker_page_lists() {
    let mut c = Chronos::new(vec![tracker(
        "alpha",
        0,
        vec![start(1), stop(2), start(3), stop(4)],
    )]);
    let mut lists = ListSelections { trackers: Some(0), sessions: None, days: None };
    let mut input = String::new();
    c.handle_key_event(Key::Enter, &mut lists, &mut input);
    c.handle_key_event(Key::Down, &mut lists, &mut input);
    assert_eq!(lists.sessions, Some(1));
    c.handle_key_event(Key::Down, &mut lists, &mut input);
    assert_eq!(lists.sessions, Some(1));
    c.handle_key_event(Key::Up, &mut lists, &mut input);
    assert_eq!(lists.sessions, Some(0));
    // each of these old sessions opens a day: two days beyond the first
    assert_eq!(c.selected_tracker.as_ref().unwrap().time_per_day.len(), 3);
    c.handle_key_event(Key::Right, &mut lists, &mut input);
    assert_eq!(lists.days, Some(1));
    c.handle_key_event(Key::Right, &mut lists, &mut input);
    assert_eq!(lists.days, Some(2));
    c.handle_key_event(Key::Right, &mut lists, &mut input);
    assert_eq!(lists.days, Some(3));
    c.handle_key_event(Key::Right, &mut lists, &mut input);
    assert_eq!(lists.days, Some(3));
    c.handle_key_event(Key::Left, &mut lists, &mut input);
    assert_eq!(lists.days, Some(2));
    c.handle_key_event(Key::Esc, &mut lists, &mut input);
    assert_eq!(c.tui_state, ChronosTuiState::Selection);
}

#[test]
fn tracker_page_right_with_one_day_clears() {
    let mut c = Chronos::new(vec![tracker("alpha", 0, vec![])]);
    let mut lists = ListSelections { trackers: Some(0), sessions: None, days: Some(3) };
    let mut input = String::new();
    c.handle_key_event(Key::Enter, &mut lists, &mut input);
    c.handle_key_event(Key::Right, &mut lists, &mut input);
    assert_eq!(lists.days, None);
}

#[test]
fn keys_that_would_fail_are_refused() {
    let c = sample();
    let lists = ListSelections { trackers: Some(7), sessions: None, days: None };
    assert!(!c.accepts_key(&lists, Key::Enter));
    assert!(!c.accepts_key(&lists, Key::Up));
    assert!(c.accepts_key(&lists, Key::Down));
    let mut c = Chronos::new(vec![tracker("empty", 0, vec![])]);
    let mut lists = ListSelections { trackers: Some(0), sessions: None, days: None };
    let mut input = String::new();
    c.handle_key_event(Key::Enter, &mut lists, &mut input);
    assert!(!c.accepts_key(&lists, Key::Down));
    assert!(c.accepts_key(&lists, Key::Up));
}

#[test]
fn clock_and_day_texts() {
    let mut c = sample();
    assert_eq!(c.clock_text(None).unwrap(), "0 seconds ");
    let mut lists = no_lists();
    let mut input = String::new();
    c.handle_key_event(Key::Up, &mut lists, &mut input);
    assert_eq!(c.clock_text(Some(100_000)).unwrap(), "2 minutes, 10 seconds");
    assert_eq!(Chronos::day_selector_text(Some(1)), "Currently viewing 1 day");
    assert_eq!(Chronos::day_selector_text(Some(0)), "Currently viewing 0 days");
    assert_eq!(Chronos::day_selector_text(Some(12)), "Currently viewing 12 days");
    assert_eq!(Chronos::day_selector_text(None), "Currently viewing All days");
    assert_eq!(c.error_text(), "");
}

#[test]
fn visible_sessions_by_day_selection() {
    let mut c = Chronos::new(vec![tracker(
        "alpha",
        1_000,
        vec![start(1_000), stop(1_100), start(100_000), stop(100_050), start(200_000), stop(200_010)],
    )]);
    assert!(c.visible_sessions(None).unwrap().is_empty());
    let mut lists = ListSelections { trackers: Some(0), sessions: None, days: None };
    let mut input = String::new();
    c.handle_key_event(Key::Enter, &mut lists, &mut input);
    assert_eq!(c.visible_sessions(None).unwrap().len(), 3);
    assert_eq!(c.visible_sessions(Some(0)).unwrap(), vec![TrackerSession::new(1_000, 100)]);
    assert_eq!(c.visible_sessions(Some(1)).unwrap().len(), 1);
    assert_eq!(c.visible_sessions(Some(2)).unwrap().len(), 2);
    assert!(c.visible_sessions(Some(usize::MAX / 2)).is_none());
}
