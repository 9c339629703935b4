use vstd::prelude::*;
use crate::text::{
    decimal, names_contain, parse_usize, parse_usize_spec, pop_char, push_decimal,
    push_signed_decimal, signed_decimal, str_equal,
};
use crate::text::push_char;
use crate::tracker_event::TrackerEventType;
use crate::tracker::{toggle_event_for, fits_i64, format_epoch_spec, report_total, Tracker, TrackerView, DAY_SECONDS};
use crate::tracker_session::TrackerSession;

verus! {

/// The kinds of error that chronos reports.
#[derive(Clone, Copy, Debug, PartialEq, Eq, Structural)]
pub enum ChronosErrorTypes {
    NoArguments,
    DatabaseError,
    InvalidCommand,
    NameAlreadyExists,
    TrackerAlreadyExists,
    NoCurrentTracker,
    WebAppError,
    ColorEyreInstallFailed,
}

/// The pages of the terminal interface.
#[derive(Clone, Copy, Debug, PartialEq, Eq, Structural)]
pub enum ChronosTuiState {
    Selection,
    Creation,
    Tracker,
    Error,
}

/// An error: its kind and a message for the user.
#[derive(Debug, PartialEq, Eq)]
pub struct ChronosError {
    pub error_type: ChronosErrorTypes,
    pub message: String,
}

impl ChronosError {
    pub fn new(error_type: ChronosErrorTypes, message: String) -> (e: ChronosError)
        ensures
            e.error_type == error_type,
            e.message == message,
    {
        ChronosError { error_type, message }
    }
}

impl Clone for ChronosError {
    fn clone(&self) -> (e: Self)
        ensures
            e == *self,
    {
        ChronosError { error_type: self.error_type, message: self.message.clone() }
    }
}


/// A key press, as the terminal interface distinguishes them.
#[derive(Clone, Copy, Debug, PartialEq, Eq, Structural)]
pub enum Key {
    Esc,
    Up,
    Down,
    Left,
    Right,
    Delete,
    Enter,
    Backspace,
    Char(char),
    Other,
}

/// The selected entries of the three lists of the terminal interface: the
/// trackers on the selection page, and the sessions and the number of days
/// viewed on the tracker page.
#[derive(Clone, Copy, Debug, PartialEq, Eq, Structural)]
pub struct ListSelections {
    pub trackers: Option<usize>,
    pub sessions: Option<usize>,
    pub days: Option<usize>,
}

/// How a key moves the selection of a list.
#[derive(Clone, Copy, Debug, PartialEq, Eq, Structural)]
pub enum ListMove {
    Keep,
    To(usize),
    Clear,
}

/// The selected index, or 0 when nothing is selected.
pub open spec fn sel_index(sel: Option<usize>) -> int {
    match sel {
        Some(s) => s as int,
        None => 0,
    }
}

/// Moving up a list of `count` entries: to the previous entry, or to the first
/// when nothing is selected and the list is not empty.
pub open spec fn move_up_spec(sel: Option<usize>, count: int) -> ListMove {
    if sel_index(sel) > 0 {
        ListMove::To((sel_index(sel) - 1) as usize)
    } else if sel is None && count > 0 {
        ListMove::To(0)
    } else {
        ListMove::Keep
    }
}

/// Moving down a list of `count` entries, while `guard` holds: to the next
/// entry when there is one, or to the first when nothing is selected; without
/// the guard the selection is cleared.
pub open spec fn move_down_spec(sel: Option<usize>, guard: bool, count: int) -> ListMove {
    if guard {
        if sel_index(sel) < count - 1 {
            ListMove::To((sel_index(sel) + 1) as usize)
        } else if sel is None && count > 0 {
            ListMove::To(0)
        } else {
            ListMove::Keep
        }
    } else {
        ListMove::Clear
    }
}

/// Moving right along the days, of which there are `days` beyond the first:
/// one further while the selection is at most `days`, or to the first when
/// nothing is selected; with no days beyond the first the selection is cleared.
pub open spec fn move_right_spec(sel: Option<usize>, days: int) -> ListMove {
    if days > 0 {
        if sel_index(sel) <= days {
            ListMove::To((sel_index(sel) + 1) as usize)
        } else if sel is None && days > 0 {
            ListMove::To(0)
        } else {
            ListMove::Keep
        }
    } else {
        ListMove::Clear
    }
}

/// The selection after a move.
pub open spec fn apply_move(sel: Option<usize>, m: ListMove) -> Option<usize> {
    match m {
        ListMove::Keep => sel,
        ListMove::To(i) => Some(i),
        ListMove::Clear => None,
    }
}

fn split_selection(sel: Option<usize>) -> (r: (usize, bool))
    ensures
        r.0 == sel_index(sel),
        r.1 == sel is Some,
{
    match sel {
        Some(s) => (s, true),
        None => (0, false),
    }
}

fn move_up(sel: Option<usize>, count: usize) -> (m: ListMove)
    ensures
        m == move_up_spec(sel, count as int),
{
    let (selection, selected) = split_selection(sel);
    if selection > 0 {
        ListMove::To(selection - 1)
    } else if !selected && count > 0 {
        ListMove::To(0)
    } else {
        ListMove::Keep
    }
}

fn move_down(sel: Option<usize>, guard: bool, count: usize) -> (m: ListMove)
    requires
        guard ==> count > 0,
    ensures
        m == move_down_spec(sel, guard, count as int),
{
    let (selection, selected) = split_selection(sel);
    if guard {
        if selection < count - 1 {
            ListMove::To(selection + 1)
        } else if !selected && count > 0 {
            ListMove::To(0)
        } else {
            ListMove::Keep
        }
    } else {
        ListMove::Clear
    }
}

fn move_right(sel: Option<usize>, days: usize) -> (m: ListMove)
    requires
        days < usize::MAX,
    ensures
        m == move_right_spec(sel, days as int),
{
    let (selection, selected) = split_selection(sel);
    if days > 0 {
        if selection <= days {
            ListMove::To(selection + 1)
        } else if !selected && days > 0 {
            ListMove::To(0)
        } else {
            ListMove::Keep
        }
    } else {
        ListMove::Clear
    }
}

fn apply(sel: Option<usize>, m: ListMove) -> (r: Option<usize>)
    ensures
        r == apply_move(sel, m),
{
    match m {
        ListMove::Keep => sel,
        ListMove::To(i) => Some(i),
        ListMove::Clear => None,
    }
}

/// The view of an optional tracker.
pub open spec fn opt_view(t: Option<Tracker>) -> Option<TrackerView> {
    match t {
        Some(x) => Some(x@),
        None => None,
    }
}

/// The selected tracker after a move of the tracker list.
pub open spec fn moved_tracker(trackers: Seq<Tracker>, current: Option<TrackerView>, m: ListMove) -> Option<
    TrackerView,
> {
    match m {
        ListMove::Keep => current,
        ListMove::To(i) => Some(trackers[i as int]@),
        ListMove::Clear => None,
    }
}


/// Outside work that the terminal interface asks for; the result comes back
/// as a `TuiEvent`.
#[derive(Debug, PartialEq, Eq)]
pub enum TuiAction {
    /// Nothing to do: the key or event has been handled.
    Nothing,
    /// Delete the tracker with this name (answered by `Done`).
    DeleteTracker(String),
    /// Read all trackers again (answered by `Trackers`).
    ReloadTrackers,
    /// Read the names of the stored tables (answered by `TableNames`).
    LoadTableNames,
    /// Create a tracker with this name (answered by `Done`).
    CreateTracker(String),
    /// Record a toggle of the named tracker: an event of this type
    /// (answered by `Done`).
    ToggleTracker { name: String, event_type: TrackerEventType },
}

/// The outcome of the outside work that a `TuiAction` asked for.
pub enum TuiEvent {
    Done(Result<(), ChronosError>),
    Trackers(Result<Vec<Tracker>, ChronosError>),
    TableNames(Result<Vec<String>, ChronosError>),
}

/// The operation that the terminal interface is in the middle of.
#[derive(Debug, PartialEq, Eq)]
pub enum TuiPending {
    Idle,
    /// Deleting the selected tracker; the tracker list selection is kept for
    /// when the trackers are read again.
    Deleting { selection: usize, selected: bool },
    /// Reading the trackers after a deletion.
    ReloadingAfterDelete { selection: usize, selected: bool },
    /// Reading the table names before creating a tracker.
    LoadingNames,
    /// Creating the tracker named by the input.
    Creating,
    /// Reading the trackers after a creation.
    ReloadingAfterCreate,
    /// Toggling the named tracker.
    Toggling { name: String },
    /// Reading the trackers after a toggle, to select the named one again.
    ReloadingAfterToggle { name: String },
}

/// The state of chronos: the trackers, and the terminal interface.
pub struct Chronos {
    pub trackers: Vec<Tracker>,
    pub tui_state: ChronosTuiState,
    pub selected_tracker: Option<Tracker>,
    pub last_error: Option<ChronosError>,
    pub exit: bool,
    pub pending: TuiPending,
}

impl Chronos {
    /// Chronos with the trackers read from the database, on the selection page.
    pub fn new(trackers: Vec<Tracker>) -> (c: Self)
        ensures
            c.trackers == trackers,
            c.tui_state == ChronosTuiState::Selection,
            c.selected_tracker is None,
            c.last_error is None,
            !c.exit,
            c.pending == TuiPending::Idle,
    {
        Chronos {
            trackers,
            tui_state: ChronosTuiState::Selection,
            selected_tracker: None,
            last_error: None,
            exit: false,
            pending: TuiPending::Idle,
        }
    }

    /// Asks the terminal interface to stop.
    pub fn exit_tui(&mut self)
        ensures
            final(self).exit,
            final(self).trackers == old(self).trackers,
            final(self).tui_state == old(self).tui_state,
            final(self).selected_tracker == old(self).selected_tracker,
            final(self).last_error == old(self).last_error,
            final(self).pending == old(self).pending,
    {
        self.exit = true;
    }

    /// The number of sessions of the selected tracker, 0 when none is selected.
    pub open spec fn session_count(&self) -> int {
        match self.selected_tracker {
            Some(t) => t.sessions@.len() as int,
            None => 0,
        }
    }

    /// The number of days beyond the first that the selected tracker covers,
    /// 0 when none is selected.
    pub open spec fn extra_days(&self) -> int {
        match self.selected_tracker {
            Some(t) => t.time_per_day@.len() - 1,
            None => 0,
        }
    }
}

/// Whether a key press can be handled without an out-of-range index or an
/// arithmetic underflow: moving up the tracker list to an existing tracker,
/// entering an existing tracker, moving down a session list only when the
/// selected tracker has sessions (while there are trackers), and moving right
/// only when the selected tracker has a time per day.
pub open spec fn key_allowed(c: Chronos, lists: ListSelections, key: Key) -> bool {
    &&& c.pending == TuiPending::Idle
    &&& match c.tui_state {
        ChronosTuiState::Selection => match key {
            Key::Up => move_up_spec(lists.trackers, c.trackers@.len() as int) matches ListMove::To(i)
                ==> i < c.trackers@.len(),
            Key::Enter => lists.trackers matches Some(s) ==> s < c.trackers@.len(),
            _ => true,
        },
        ChronosTuiState::Tracker => match key {
            Key::Down => c.trackers@.len() > 0 ==> c.session_count() > 0,
            Key::Right => c.selected_tracker matches Some(t) ==> t.time_per_day@.len() > 0,
            _ => true,
        },
        _ => true,
    }
}

/// Nothing but the named parts changed: the trackers, the page, the selected
/// tracker, the last error and the exit flag are kept.
pub open spec fn kept(o: Chronos, n: Chronos) -> bool {
    &&& n.trackers == o.trackers
    &&& n.tui_state == o.tui_state
    &&& opt_view(n.selected_tracker) == opt_view(o.selected_tracker)
    &&& n.last_error == o.last_error
    &&& n.exit == o.exit
}

/// A key on the selection page: Esc exits, Up and Down move through the
/// trackers and select the one reached, Delete deletes the selected tracker
/// (then the trackers are read again), `c` opens the creation page and Enter
/// opens the selected tracker.
pub open spec fn selection_key_step(
    o: Chronos,
    n: Chronos,
    ol: ListSelections,
    nl: ListSelections,
    key: Key,
    a: TuiAction,
) -> bool {
    let len = o.trackers@.len() as int;
    &&& n.trackers == o.trackers
    &&& n.last_error == o.last_error
    &&& nl.sessions == ol.sessions
    &&& nl.days == ol.days
    &&& match key {
        Key::Esc => n.exit && n.tui_state == o.tui_state && opt_view(n.selected_tracker) == opt_view(
            o.selected_tracker,
        ) && nl == ol && n.pending == TuiPending::Idle && a == TuiAction::Nothing,
        Key::Up => {
            let m = move_up_spec(ol.trackers, len);
            &&& nl.trackers == apply_move(ol.trackers, m)
            &&& opt_view(n.selected_tracker) == moved_tracker(
                o.trackers@,
                opt_view(o.selected_tracker),
                m,
            )
            &&& n.tui_state == o.tui_state && n.exit == o.exit
            &&& n.pending == TuiPending::Idle && a == TuiAction::Nothing
        },
        Key::Down => {
            let m = move_down_spec(ol.trackers, len > 0, len);
            &&& nl.trackers == apply_move(ol.trackers, m)
            &&& opt_view(n.selected_tracker) == moved_tracker(
                o.trackers@,
                opt_view(o.selected_tracker),
                m,
            )
            &&& n.tui_state == o.tui_state && n.exit == o.exit
            &&& n.pending == TuiPending::Idle && a == TuiAction::Nothing
        },
        Key::Delete => {
            &&& n.tui_state == o.tui_state && n.exit == o.exit && nl == ol
            &&& opt_view(n.selected_tracker) == opt_view(o.selected_tracker)
            &&& match o.selected_tracker {
                Some(t) => {
                    &&& n.pending == TuiPending::Deleting {
                        selection: sel_index(ol.trackers) as usize,
                        selected: ol.trackers is Some,
                    }
                    &&& a matches TuiAction::DeleteTracker(name) && name@ == t.name@
                },
                None => n.pending == TuiPending::ReloadingAfterDelete {
                    selection: sel_index(ol.trackers) as usize,
                    selected: ol.trackers is Some,
                } && a == TuiAction::ReloadTrackers,
            }
        },
        Key::Char(c) if c == 'c' => n.tui_state == ChronosTuiState::Creation && n.exit == o.exit
            && opt_view(n.selected_tracker) == opt_view(o.selected_tracker) && nl == ol
            && n.pending == TuiPending::Idle && a == TuiAction::Nothing,
        Key::Enter => n.exit == o.exit && nl == ol && n.pending == TuiPending::Idle && a
            == TuiAction::Nothing && match ol.trackers {
            Some(s) => n.tui_state == ChronosTuiState::Tracker && opt_view(n.selected_tracker)
                == Some(o.trackers@[s as int]@),
            None => n.tui_state == o.tui_state && opt_view(n.selected_tracker) == opt_view(
                o.selected_tracker,
            ),
        },
        _ => kept(o, n) && nl == ol && n.pending == TuiPending::Idle && a == TuiAction::Nothing,
    }
}

impl Chronos {
    fn pick(&self, m: ListMove) -> (r: Option<Tracker>)
        requires
            m matches ListMove::To(i) ==> i < self.trackers@.len(),
            m != ListMove::Keep,
        ensures
            opt_view(r) == moved_tracker(self.trackers@, None, m),
    {
        match m {
            ListMove::To(i) => Some(self.trackers[i].clone()),
            _ => None,
        }
    }

    fn handle_tracker_selection_keys(&mut self, key: Key, lists: &mut ListSelections) -> (a: TuiAction)
        requires
            old(self).tui_state == ChronosTuiState::Selection,
            key_allowed(*old(self), *old(lists), key),
        ensures
            selection_key_step(*old(self), *final(self), *old(lists), *final(lists), key, a),
    {
        let mut l = *lists;
        let a = match key {
            Key::Esc => {
                self.exit_tui();
                TuiAction::Nothing
            },
            Key::Up => {
                let m = move_up(l.trackers, self.trackers.len());
                l.trackers = apply(l.trackers, m);
                if m != ListMove::Keep {
                    self.selected_tracker = self.pick(m);
                }
                TuiAction::Nothing
            },
            Key::Down => {
                let len = self.trackers.len();
                let m = move_down(l.trackers, len > 0, len);
                l.trackers = apply(l.trackers, m);
                if m != ListMove::Keep {
                    self.selected_tracker = self.pick(m);
                }
                TuiAction::Nothing
            },
            Key::Delete => {
                let (selection, selected) = split_selection(l.trackers);
                match &self.selected_tracker {
                    Some(t) => {
                        let name = t.name.clone();
                        self.pending = TuiPending::Deleting { selection, selected };
                        TuiAction::DeleteTracker(name)
                    },
                    None => {
                        self.pending = TuiPending::ReloadingAfterDelete { selection, selected };
                        TuiAction::ReloadTrackers
                    },
                }
            },
            Key::Char(c) if c == 'c' => {
                self.tui_state = ChronosTuiState::Creation;
                TuiAction::Nothing
            },
            Key::Enter => {
                match l.trackers {
                    Some(s) => {
                        self.selected_tracker = Some(self.trackers[s].clone());
                        self.tui_state = ChronosTuiState::Tracker;
                    },
                    None => {},
                }
                TuiAction::Nothing
            },
            _ => TuiAction::Nothing,
        };
        *lists = l;
        a
    }
}


impl Chronos {
    /// The number of entries in the time per day of the selected tracker, 0 when
    /// none is selected.
    pub open spec fn day_count(&self) -> int {
        match self.selected_tracker {
            Some(t) => t.time_per_day@.len() as int,
            None => 0,
        }
    }
}

/// A key on the creation page: Esc goes back to the selection page and clears
/// the input, Backspace removes the last character, a character is added to the
/// input, and Enter starts creating a tracker named by the input (first the
/// table names are read).
pub open spec fn creation_key_step(
    o: Chronos,
    n: Chronos,
    ol: ListSelections,
    nl: ListSelections,
    oi: Seq<char>,
    ni: Seq<char>,
    key: Key,
    a: TuiAction,
) -> bool {
    &&& n.trackers == o.trackers
    &&& n.last_error == o.last_error
    &&& n.exit == o.exit
    &&& opt_view(n.selected_tracker) == opt_view(o.selected_tracker)
    &&& nl == ol
    &&& match key {
        Key::Esc => n.tui_state == ChronosTuiState::Selection && ni == Seq::<char>::empty()
            && n.pending == TuiPending::Idle && a == TuiAction::Nothing,
        Key::Backspace => n.tui_state == o.tui_state && ni == (if oi.len() > 0 {
            oi.drop_last()
        } else {
            oi
        }) && n.pending == TuiPending::Idle && a == TuiAction::Nothing,
        Key::Char(c) => n.tui_state == o.tui_state && ni == oi.push(c) && n.pending
            == TuiPending::Idle && a == TuiAction::Nothing,
        Key::Enter => n.tui_state == o.tui_state && ni == oi && n.pending == TuiPending::LoadingNames
            && a == TuiAction::LoadTableNames,
        _ => n.tui_state == o.tui_state && ni == oi && n.pending == TuiPending::Idle && a
            == TuiAction::Nothing,
    }
}

/// A key on the tracker page: Esc goes back to the selection page, Enter
/// toggles the selected tracker (then the trackers are read again), Up and Down
/// move through its sessions, Right and Left change the number of days viewed.
pub open spec fn tracker_key_step(
    o: Chronos,
    n: Chronos,
    ol: ListSelections,
    nl: ListSelections,
    key: Key,
    a: TuiAction,
) -> bool {
    &&& n.trackers == o.trackers
    &&& n.last_error == o.last_error
    &&& n.exit == o.exit
    &&& opt_view(n.selected_tracker) == opt_view(o.selected_tracker)
    &&& nl.trackers == ol.trackers
    &&& match key {
        Key::Esc => n.tui_state == ChronosTuiState::Selection && nl == ol && n.pending
            == TuiPending::Idle && a == TuiAction::Nothing,
        Key::Enter => n.tui_state == o.tui_state && nl == ol && match o.selected_tracker {
            Some(t) => {
                &&& n.pending matches TuiPending::Toggling { name } && name@ == t.name@
                &&& a matches TuiAction::ToggleTracker { name, event_type } && name@ == t.name@
                    && event_type == toggle_event_for(t.toggled)
            },
            None => n.pending == TuiPending::Idle && a == TuiAction::Nothing,
        },
        Key::Up => n.tui_state == o.tui_state && nl.days == ol.days && nl.sessions == apply_move(
            ol.sessions,
            move_up_spec(ol.sessions, o.session_count()),
        ) && n.pending == TuiPending::Idle && a == TuiAction::Nothing,
        Key::Down => n.tui_state == o.tui_state && nl.days == ol.days && nl.sessions == apply_move(
            ol.sessions,
            move_down_spec(ol.sessions, o.trackers@.len() > 0, o.session_count()),
        ) && n.pending == TuiPending::Idle && a == TuiAction::Nothing,
        Key::Right => n.tui_state == o.tui_state && nl.sessions == ol.sessions && nl.days
            == apply_move(ol.days, move_right_spec(ol.days, o.extra_days())) && n.pending
            == TuiPending::Idle && a == TuiAction::Nothing,
        Key::Left => n.tui_state == o.tui_state && nl.sessions == ol.sessions && nl.days
            == apply_move(ol.days, move_up_spec(ol.days, o.day_count())) && n.pending
            == TuiPending::Idle && a == TuiAction::Nothing,
        _ => n.tui_state == o.tui_state && nl == ol && n.pending == TuiPending::Idle && a
            == TuiAction::Nothing,
    }
}

/// A key on the error page: Esc goes back to the selection page.
pub open spec fn error_key_step(o: Chronos, n: Chronos, key: Key, a: TuiAction) -> bool {
    &&& n.trackers == o.trackers
    &&& n.last_error == o.last_error
    &&& n.exit == o.exit
    &&& opt_view(n.selected_tracker) == opt_view(o.selected_tracker)
    &&& n.tui_state == (if key == Key::Esc {
        ChronosTuiState::Selection
    } else {
        o.tui_state
    })
    &&& n.pending == TuiPending::Idle
    &&& a == TuiAction::Nothing
}

/// What a key press does, by page.
pub open spec fn key_step(
    o: Chronos,
    n: Chronos,
    ol: ListSelections,
    nl: ListSelections,
    oi: Seq<char>,
    ni: Seq<char>,
    key: Key,
    a: TuiAction,
) -> bool {
    match o.tui_state {
        ChronosTuiState::Selection => selection_key_step(o, n, ol, nl, key, a) && ni == oi,
        ChronosTuiState::Creation => creation_key_step(o, n, ol, nl, oi, ni, key, a),
        ChronosTuiState::Tracker => tracker_key_step(o, n, ol, nl, key, a) && ni == oi,
        ChronosTuiState::Error => error_key_step(o, n, key, a) && nl == ol && ni == oi,
    }
}

impl Chronos {
    fn handle_creation_keys(&mut self, key: Key, input: &mut String) -> (a: TuiAction)
        requires
            old(self).tui_state == ChronosTuiState::Creation,
            old(self).pending == TuiPending::Idle,
        ensures
            creation_key_step(
                *old(self),
                *final(self),
                ListSelections { trackers: None, sessions: None, days: None },
                ListSelections { trackers: None, sessions: None, days: None },
                old(input)@,
                final(input)@,
                key,
                a,
            ),
    {
        match key {
            Key::Esc => {
                self.tui_state = ChronosTuiState::Selection;
                *input = String::new();
                TuiAction::Nothing
            },
            Key::Backspace => {
                if !input.as_str().is_empty() {
                    pop_char(input);
                }
                TuiAction::Nothing
            },
            Key::Char(c) => {
                push_char(input, c);
                TuiAction::Nothing
            },
            Key::Enter => {
                self.pending = TuiPending::LoadingNames;
                TuiAction::LoadTableNames
            },
            _ => TuiAction::Nothing,
        }
    }

    fn handle_tracker_keys(&mut self, key: Key, lists: &mut ListSelections) -> (a: TuiAction)
        requires
            old(self).tui_state == ChronosTuiState::Tracker,
            key_allowed(*old(self), *old(lists), key),
        ensures
            tracker_key_step(*old(self), *final(self), *old(lists), *final(lists), key, a),
    {
        let mut l = *lists;
        let a = match key {
            Key::Esc => {
                self.tui_state = ChronosTuiState::Selection;
                TuiAction::Nothing
            },
            Key::Enter => {
                match &self.selected_tracker {
                    Some(t) => {
                        let name = t.name.clone();
                        let event_type = t.toggle_event_type();
                        self.pending = TuiPending::Toggling { name: t.name.clone() };
                        TuiAction::ToggleTracker { name, event_type }
                    },
                    None => TuiAction::Nothing,
                }
            },
            Key::Up => {
                let count = match &self.selected_tracker {
                    Some(t) => t.sessions.len(),
                    None => 0,
                };
                l.sessions = apply(l.sessions, move_up(l.sessions, count));
                TuiAction::Nothing
            },
            Key::Down => {
                let count = match &self.selected_tracker {
                    Some(t) => t.sessions.len(),
                    None => 0,
                };
                l.sessions = apply(l.sessions, move_down(l.sessions, self.trackers.len() > 0, count));
                TuiAction::Nothing
            },
            Key::Right => {
                let days = match &self.selected_tracker {
                    Some(t) => t.time_per_day.len() - 1,
                    None => 0,
                };
                l.days = apply(l.days, move_right(l.days, days));
                TuiAction::Nothing
            },
            Key::Left => {
                let days = match &self.selected_tracker {
                    Some(t) => t.time_per_day.len(),
                    None => 0,
                };
                l.days = apply(l.days, move_up(l.days, days));
                TuiAction::Nothing
            },
            _ => TuiAction::Nothing,
        };
        *lists = l;
        a
    }

    /// Handles a key press on the current page. Where outside work is needed,
    /// returns the action for it and records the operation as pending; its
    /// result is handed back to `resume`.
    pub fn handle_key_event(&mut self, key: Key, lists: &mut ListSelections, input: &mut String) -> (a:
        TuiAction)
        requires
            key_allowed(*old(self), *old(lists), key),
        ensures
            key_step(*old(self), *final(self), *old(lists), *final(lists), old(input)@, final(input)@, key, a),
            (a == TuiAction::Nothing) == (final(self).pending == TuiPending::Idle),
    {
        match self.tui_state {
            ChronosTuiState::Selection => self.handle_tracker_selection_keys(key, lists),
            ChronosTuiState::Creation => self.handle_creation_keys(key, input),
            ChronosTuiState::Tracker => self.handle_tracker_keys(key, lists),
            ChronosTuiState::Error => {
                if key == Key::Esc {
                    self.tui_state = ChronosTuiState::Selection;
                }
                TuiAction::Nothing
            },
        }
    }
}


/// Whether an outcome answers the pending operation, and can be handled
/// without an out-of-range index: after a deletion, the tracker before the
/// formerly selected one must still exist; after a toggle, the toggled tracker
/// must be among the trackers read.
pub open spec fn event_allowed(c: Chronos, event: TuiEvent) -> bool {
    match c.pending {
        TuiPending::Idle => false,
        TuiPending::Deleting { .. } => event is Done,
        TuiPending::Creating => event is Done,
        TuiPending::Toggling { .. } => event is Done,
        TuiPending::LoadingNames => event is TableNames,
        TuiPending::ReloadingAfterCreate => event is Trackers,
        TuiPending::ReloadingAfterDelete { selection, selected } => match event {
            TuiEvent::Trackers(Ok(ts)) => selected && ts@.len() > 0 && selection > 0 ==> selection
                - 1 < ts@.len(),
            TuiEvent::Trackers(Err(_)) => true,
            _ => false,
        },
        TuiPending::ReloadingAfterToggle { name } => match event {
            TuiEvent::Trackers(Ok(ts)) => exists|i: int|
                0 <= i < ts@.len() && #[trigger] ts@[i].name@ == name@,
            TuiEvent::Trackers(Err(_)) => true,
            _ => false,
        },
    }
}

/// The outcome failed: the page shows the error, and the operation is over.
pub open spec fn failed(
    o: Chronos,
    n: Chronos,
    ol: ListSelections,
    nl: ListSelections,
    oi: Seq<char>,
    ni: Seq<char>,
    a: TuiAction,
) -> bool {
    &&& n.trackers == o.trackers
    &&& opt_view(n.selected_tracker) == opt_view(o.selected_tracker)
    &&& n.exit == o.exit
    &&& nl == ol
    &&& ni == oi
    &&& n.tui_state == ChronosTuiState::Error
    &&& n.pending == TuiPending::Idle
    &&& a == TuiAction::Nothing
}

/// Only the pending operation and the input changed.
pub open spec fn moved_on(
    o: Chronos,
    n: Chronos,
    ol: ListSelections,
    nl: ListSelections,
) -> bool {
    kept(o, n) && nl == ol
}

/// What the outcome of outside work does, by the pending operation:
/// a deletion goes on to reading the trackers, which then selects the tracker
/// before the formerly selected one (or the first, or none when there are no
/// trackers or none was selected); the table names refuse a name that is
/// taken and else go on to creating the tracker, which clears the input and
/// goes on to reading the trackers, after which the selection page shows; a
/// toggle goes on to reading the trackers, after which the first tracker of the
/// toggled name is selected. A failure shows the error page.
pub open spec fn event_step(
    o: Chronos,
    n: Chronos,
    ol: ListSelections,
    nl: ListSelections,
    oi: Seq<char>,
    ni: Seq<char>,
    event: TuiEvent,
    a: TuiAction,
) -> bool {
    match event {
        TuiEvent::Done(Err(e)) => failed(o, n, ol, nl, oi, ni, a) && n.last_error == Some(e),
        TuiEvent::Trackers(Err(e)) => failed(o, n, ol, nl, oi, ni, a) && n.last_error == Some(e),
        TuiEvent::TableNames(Err(e)) => failed(o, n, ol, nl, oi, ni, a) && n.last_error == Some(e),
        TuiEvent::Done(Ok(_)) => match o.pending {
            TuiPending::Deleting { selection, selected } => moved_on(o, n, ol, nl) && ni == oi
                && n.pending == TuiPending::ReloadingAfterDelete { selection, selected } && a
                == TuiAction::ReloadTrackers,
            TuiPending::Creating => moved_on(o, n, ol, nl) && ni == Seq::<char>::empty()
                && n.pending == TuiPending::ReloadingAfterCreate && a == TuiAction::ReloadTrackers,
            TuiPending::Toggling { name } => {
                &&& moved_on(o, n, ol, nl) && ni == oi
                &&& n.pending matches TuiPending::ReloadingAfterToggle { name: m } && m@ == name@
                &&& a == TuiAction::ReloadTrackers
            },
            _ => false,
        },
        TuiEvent::TableNames(Ok(names)) => {
            let taken = exists|i: int| 0 <= i < names@.len() && #[trigger] names@[i]@ == oi;
            if taken {
                &&& failed(o, n, ol, nl, oi, ni, a)
                &&& n.last_error matches Some(e) && e.error_type
                    == ChronosErrorTypes::NameAlreadyExists && e.message@ == "Tracker "@ + oi
                    + " already exists"@
            } else {
                &&& moved_on(o, n, ol, nl) && ni == oi && n.pending == TuiPending::Creating
                &&& a matches TuiAction::CreateTracker(name) && name@ == oi
            }
        },
        TuiEvent::Trackers(Ok(ts)) => {
            &&& n.trackers == ts
            &&& n.last_error == o.last_error && n.exit == o.exit && ni == oi
            &&& nl.sessions == ol.sessions && nl.days == ol.days
            &&& n.pending == TuiPending::Idle && a == TuiAction::Nothing
            &&& match o.pending {
                TuiPending::ReloadingAfterDelete { selection, selected } => {
                    &&& n.tui_state == o.tui_state
                    &&& if selected && ts@.len() > 0 {
                        let i = if selection > 0 {
                            selection - 1
                        } else {
                            0
                        };
                        nl.trackers == Some(i as usize) && opt_view(n.selected_tracker) == Some(
                            ts@[i]@,
                        )
                    } else {
                        nl.trackers is None && n.selected_tracker is None
                    }
                },
                TuiPending::ReloadingAfterCreate => n.tui_state == ChronosTuiState::Selection
                    && nl.trackers == ol.trackers && opt_view(n.selected_tracker) == opt_view(
                    o.selected_tracker,
                ),
                TuiPending::ReloadingAfterToggle { name } => {
                    &&& n.tui_state == o.tui_state && nl.trackers == ol.trackers
                    &&& exists|i: int|
                        0 <= i < ts@.len() && ts@[i].name@ == name@ && (forall|j: int|
                            0 <= j < i ==> #[trigger] ts@[j].name@ != name@) && opt_view(
                            n.selected_tracker,
                        ) == Some(#[trigger] ts@[i]@)
                },
                _ => false,
            }
        },
    }
}

fn has_named(ts: &Vec<Tracker>, name: &String) -> (r: bool)
    ensures
        r == exists|i: int| 0 <= i < ts@.len() && #[trigger] ts@[i].name@ == name@,
{
    let mut i: usize = 0;
    while i < ts.len()
        invariant
            0 <= i <= ts@.len(),
            forall|j: int| 0 <= j < i ==> #[trigger] ts@[j].name@ != name@,
        decreases ts@.len() - i,
    {
        if ts[i].name == *name {
            assert(ts@[i as int].name@ == name@);
            return true;
        }
        i = i + 1;
    }
    false
}

fn first_named(ts: &Vec<Tracker>, name: &String) -> (r: usize)
    requires
        exists|i: int| 0 <= i < ts@.len() && #[trigger] ts@[i].name@ == name@,
    ensures
        r < ts@.len(),
        ts@[r as int].name@ == name@,
        forall|j: int| 0 <= j < r ==> #[trigger] ts@[j].name@ != name@,
{
    let mut i: usize = 0;
    while i < ts.len()
        invariant
            0 <= i <= ts@.len(),
            forall|j: int| 0 <= j < i ==> #[trigger] ts@[j].name@ != name@,
            exists|k: int| 0 <= k < ts@.len() && #[trigger] ts@[k].name@ == name@,
        decreases ts@.len() - i,
    {
        if ts[i].name == *name {
            return i;
        }
        i = i + 1;
    }
    i
}

impl Chronos {
    fn fail(&mut self, e: ChronosError) -> (a: TuiAction)
        ensures
            final(self).last_error == Some(e),
            final(self).tui_state == ChronosTuiState::Error,
            final(self).pending == TuiPending::Idle,
            final(self).trackers == old(self).trackers,
            final(self).selected_tracker == old(self).selected_tracker,
            final(self).exit == old(self).exit,
            a == TuiAction::Nothing,
    {
        self.last_error = Some(e);
        self.tui_state = ChronosTuiState::Error;
        self.pending = TuiPending::Idle;
        TuiAction::Nothing
    }

    /// Handles the outcome of the outside work that the last action asked for.
    /// Where more outside work is needed, returns the action for it.
    pub fn resume(&mut self, event: TuiEvent, lists: &mut ListSelections, input: &mut String) -> (a:
        TuiAction)
        requires
            event_allowed(*old(self), event),
        ensures
            event_step(*old(self), *final(self), *old(lists), *final(lists), old(input)@, final(input)@, event, a),
            (a == TuiAction::Nothing) == (final(self).pending == TuiPending::Idle),
    {
        let mut l = *lists;
        let a = match event {
            TuiEvent::Done(Err(e)) => self.fail(e),
            TuiEvent::Trackers(Err(e)) => self.fail(e),
            TuiEvent::TableNames(Err(e)) => self.fail(e),
            TuiEvent::Done(Ok(())) => {
                match &self.pending {
                    TuiPending::Deleting { selection, selected } => {
                        self.pending = TuiPending::ReloadingAfterDelete {
                            selection: *selection,
                            selected: *selected,
                        };
                        TuiAction::ReloadTrackers
                    },
                    TuiPending::Toggling { name } => {
                        self.pending = TuiPending::ReloadingAfterToggle { name: name.clone() };
                        TuiAction::ReloadTrackers
                    },
                    _ => {
                        *input = String::new();
                        self.pending = TuiPending::ReloadingAfterCreate;
                        TuiAction::ReloadTrackers
                    },
                }
            },
            TuiEvent::TableNames(Ok(names)) => {
                if names_contain(&names, input.as_str()) {
                    let mut message = String::from_str("Tracker ");
                    message.append(input.as_str());
                    message.append(" already exists");
                    self.fail(ChronosError::new(ChronosErrorTypes::NameAlreadyExists, message))
                } else {
                    self.pending = TuiPending::Creating;
                    TuiAction::CreateTracker(input.clone())
                }
            },
            TuiEvent::Trackers(Ok(ts)) => {
                match &self.pending {
                    TuiPending::ReloadingAfterDelete { selection, selected } => {
                        let selection = *selection;
                        if *selected && ts.len() > 0 {
                            let i = if selection > 0 {
                                selection - 1
                            } else {
                                0
                            };
                            l.trackers = Some(i);
                            self.selected_tracker = Some(ts[i].clone());
                        } else {
                            l.trackers = None;
                            self.selected_tracker = None;
                        }
                    },
                    TuiPending::ReloadingAfterToggle { name } => {
                        let i = first_named(&ts, name);
                        self.selected_tracker = Some(ts[i].clone());
                    },
                    _ => {
                        self.tui_state = ChronosTuiState::Selection;
                    },
                }
                self.trackers = ts;
                self.pending = TuiPending::Idle;
                TuiAction::Nothing
            },
        };
        *lists = l;
        a
    }
}


impl Chronos {
    /// Whether `handle_key_event` can take this key now (see `key_allowed`).
    pub fn accepts_key(&self, lists: &ListSelections, key: Key) -> (r: bool)
        ensures
            r == key_allowed(*self, *lists, key),
    {
        match self.pending {
            TuiPending::Idle => {},
            _ => {
                return false;
            },
        }
        match self.tui_state {
            ChronosTuiState::Selection => match key {
                Key::Up => match move_up(lists.trackers, self.trackers.len()) {
                    ListMove::To(i) => i < self.trackers.len(),
                    _ => true,
                },
                Key::Enter => match lists.trackers {
                    Some(s) => s < self.trackers.len(),
                    None => true,
                },
                _ => true,
            },
            ChronosTuiState::Tracker => match key {
                Key::Down => {
                    let count = match &self.selected_tracker {
                        Some(t) => t.sessions.len(),
                        None => 0,
                    };
                    !(self.trackers.len() > 0) || count > 0
                },
                Key::Right => match &self.selected_tracker {
                    Some(t) => t.time_per_day.len() > 0,
                    None => true,
                },
                _ => true,
            },
            _ => true,
        }
    }

    /// Whether `resume` can take this outcome now (see `event_allowed`).
    pub fn accepts_event(&self, event: &TuiEvent) -> (r: bool)
        ensures
            r == event_allowed(*self, *event),
    {
        match &self.pending {
            TuiPending::Idle => false,
            TuiPending::Deleting { .. } | TuiPending::Creating | TuiPending::Toggling { .. } => {
                match event {
                    TuiEvent::Done(_) => true,
                    _ => false,
                }
            },
            TuiPending::LoadingNames => match event {
                TuiEvent::TableNames(_) => true,
                _ => false,
            },
            TuiPending::ReloadingAfterCreate => match event {
                TuiEvent::Trackers(_) => true,
                _ => false,
            },
            TuiPending::ReloadingAfterDelete { selection, selected } => match event {
                TuiEvent::Trackers(Ok(ts)) => !(*selected && ts.len() > 0 && *selection > 0) || *selection
                    - 1 < ts.len(),
                TuiEvent::Trackers(Err(_)) => true,
                _ => false,
            },
            TuiPending::ReloadingAfterToggle { name } => match event {
                TuiEvent::Trackers(Ok(ts)) => has_named(ts, name),
                TuiEvent::Trackers(Err(_)) => true,
                _ => false,
            },
        }
    }
}


/// What a command-line command comes to, once its decisions are made: a reply
/// ready to print, or outside work on the named tracker, or a report.
pub enum CommandPlan {
    /// Print this reply.
    Reply(String),
    /// Create a tracker with this name (see `Chronos::create_tracker`), then
    /// read the trackers again.
    Create(String),
    /// Delete the tracker with this name, then read the trackers again.
    Delete(String),
    /// Record a toggle of the named tracker: an event of this type.
    Toggle { name: String, event_type: TrackerEventType },
    /// Report the time of this tracker over the last `days` days.
    Report { days: usize, tracker: Tracker },
}

/// The lines that `list` prints for the trackers, one per tracker:
/// its name, ` - Created at ` and its creation time.
pub open spec fn list_lines(ts: Seq<Tracker>) -> Seq<char>
    decreases ts.len(),
{
    if ts.len() == 0 {
        Seq::empty()
    } else {
        list_lines(ts.drop_last()) + ts.last().name@ + " - Created at "@ + signed_decimal(
            ts.last().created_at as int,
        ) + "\n"@
    }
}

/// Whether a tracker of this name exists.
pub open spec fn has_tracker(ts: Seq<Tracker>, name: Seq<char>) -> bool {
    exists|i: int| 0 <= i < ts.len() && #[trigger] ts[i].name@ == name
}

/// `i` is the last index of a tracker of this name.
pub open spec fn is_last_named(ts: Seq<Tracker>, name: Seq<char>, i: int) -> bool {
    &&& 0 <= i < ts.len()
    &&& ts[i].name@ == name
    &&& forall|j: int| i < j < ts.len() ==> #[trigger] ts[j].name@ != name
}

/// An error of this kind with this message.
pub open spec fn is_error(r: ChronosError, kind: ChronosErrorTypes, message: Seq<char>) -> bool {
    r.error_type == kind && r.message@ == message
}

/// The error for a missing tracker.
pub open spec fn no_tracker_error(e: ChronosError, name: Seq<char>) -> bool {
    is_error(e, ChronosErrorTypes::NoCurrentTracker, "No tracker named "@ + name + " found"@)
}

/// What a command comes to: `list`; `create`, `delete` and `toggle` with a
/// tracker name; `report` with a tracker name and a number of days.
/// `delete`, `toggle` and `report` act on the last tracker of the name.
pub open spec fn command_spec(ts: Seq<Tracker>, args: Seq<String>, r: Result<CommandPlan, ChronosError>) -> bool {
    let invalid = "Invalid command"@;
    if args.len() <= 1 {
        r matches Err(e) && is_error(e, ChronosErrorTypes::NoArguments, "No arguments provided"@)
    } else if args.len() == 2 {
        if args[1]@ == "list"@ {
            r matches Ok(CommandPlan::Reply(text)) && text@ == "Trackers:\n"@ + list_lines(ts)
        } else {
            r matches Err(e) && is_error(e, ChronosErrorTypes::InvalidCommand, invalid)
        }
    } else if args.len() == 3 {
        let name = args[2]@;
        if args[1]@ == "create"@ {
            if has_tracker(ts, name) {
                r matches Err(e) && is_error(
                    e,
                    ChronosErrorTypes::TrackerAlreadyExists,
                    "Tracker "@ + name + " already exists"@,
                )
            } else {
                r matches Ok(CommandPlan::Create(n)) && n@ == name
            }
        } else if args[1]@ == "delete"@ {
            if has_tracker(ts, name) {
                r matches Ok(CommandPlan::Delete(n)) && n@ == name
            } else {
                r matches Err(e) && no_tracker_error(e, name)
            }
        } else if args[1]@ == "toggle"@ {
            if has_tracker(ts, name) {
                r matches Ok(CommandPlan::Toggle { name: n, event_type }) && n@ == name && exists|i: int|
                    is_last_named(ts, name, i) && event_type == toggle_event_for(
                        #[trigger] ts[i].toggled,
                    )
            } else {
                r matches Err(e) && no_tracker_error(e, name)
            }
        } else {
            r matches Err(e) && is_error(e, ChronosErrorTypes::InvalidCommand, invalid)
        }
    } else if args.len() == 4 && args[1]@ == "report"@ {
        let name = args[2]@;
        match parse_usize_spec(args[3]@) {
            None => r matches Err(e) && is_error(
                e,
                ChronosErrorTypes::InvalidCommand,
                "Invalid number of days"@,
            ),
            Some(days) => if has_tracker(ts, name) {
                r matches Ok(CommandPlan::Report { days: d, tracker }) && d == days && exists|i: int|
                    is_last_named(ts, name, i) && tracker@ == #[trigger] ts[i]@
            } else {
                r matches Err(e) && no_tracker_error(e, name)
            },
        }
    } else {
        r matches Err(e) && is_error(e, ChronosErrorTypes::InvalidCommand, invalid)
    }
}

fn error_with(kind: ChronosErrorTypes, message: &str) -> (e: ChronosError)
    ensures
        is_error(e, kind, message@),
{
    ChronosError::new(kind, String::from_str(message))
}

fn error_about(kind: ChronosErrorTypes, before: &str, name: &str, after: &str) -> (e: ChronosError)
    ensures
        is_error(e, kind, before@ + name@ + after@),
{
    let mut message = String::from_str(before);
    message.append(name);
    message.append(after);
    ChronosError::new(kind, message)
}

/// The last index of a tracker of this name, if any.
fn last_named(ts: &Vec<Tracker>, name: &str) -> (r: Option<usize>)
    ensures
        r matches Some(i) ==> is_last_named(ts@, name@, i as int),
        r is None <==> !has_tracker(ts@, name@),
{
    let mut found: Option<usize> = None;
    let mut i: usize = 0;
    while i < ts.len()
        invariant
            0 <= i <= ts@.len(),
            found matches Some(k) ==> k < i && ts@[k as int].name@ == name@ && forall|j: int|
                k < j < i ==> #[trigger] ts@[j].name@ != name@,
            found is None ==> forall|j: int| 0 <= j < i ==> #[trigger] ts@[j].name@ != name@,
        decreases ts@.len() - i,
    {
        if str_equal(ts[i].name.as_str(), name) {
            found = Some(i);
        }
        i = i + 1;
    }
    proof {
        if let Some(k) = found {
            assert(ts@[k as int].name@ == name@);
        }
    }
    found
}

impl Chronos {
    fn list_reply(&self) -> (r: String)
        ensures
            r@ == "Trackers:\n"@ + list_lines(self.trackers@),
    {
        let mut output = String::from_str("Trackers:\n");
        let mut i: usize = 0;
        while i < self.trackers.len()
            invariant
                0 <= i <= self.trackers@.len(),
                output@ == "Trackers:\n"@ + list_lines(self.trackers@.take(i as int)),
            decreases self.trackers@.len() - i,
        {
            let t = &self.trackers[i];
            proof {
                assert(self.trackers@.take(i + 1).drop_last() =~= self.trackers@.take(i as int));
            }
            output.append(t.name.as_str());
            output.append(" - Created at ");
            push_signed_decimal(&mut output, t.created_at);
            output.append("\n");
            proof {
                let prev = "Trackers:\n"@ + list_lines(self.trackers@.take(i as int));
                assert(output@ =~= prev + t.name@ + " - Created at "@ + signed_decimal(
                    t.created_at as int,
                ) + "\n"@);
            }
            i = i + 1;
        }
        assert(self.trackers@.take(self.trackers@.len() as int) =~= self.trackers@);
        output
    }

    /// Makes the decisions of a command-line command (`args[0]` is the program
    /// name): checks the arguments and the trackers, and says what to do.
    pub fn run_command(&self, args: &Vec<String>) -> (r: Result<CommandPlan, ChronosError>)
        ensures
            command_spec(self.trackers@, args@, r),
    {
        let n = args.len();
        if n <= 1 {
            return Err(error_with(ChronosErrorTypes::NoArguments, "No arguments provided"));
        }
        let command = args[1].as_str();
        if n == 2 {
            if str_equal(command, "list") {
                return Ok(CommandPlan::Reply(self.list_reply()));
            }
            return Err(error_with(ChronosErrorTypes::InvalidCommand, "Invalid command"));
        }
        if n == 3 {
            let name = args[2].as_str();
            if str_equal(command, "create") {
                match last_named(&self.trackers, name) {
                    Some(_) => {
                        return Err(
                            error_about(
                                ChronosErrorTypes::TrackerAlreadyExists,
                                "Tracker ",
                                name,
                                " already exists",
                            ),
                        );
                    },
                    None => {
                        return Ok(CommandPlan::Create(name.to_owned()));
                    },
                }
            } else if str_equal(command, "delete") {
                match last_named(&self.trackers, name) {
                    Some(_) => {
                        return Ok(CommandPlan::Delete(name.to_owned()));
                    },
                    None => {
                        return Err(
                            error_about(
                                ChronosErrorTypes::NoCurrentTracker,
                                "No tracker named ",
                                name,
                                " found",
                            ),
                        );
                    },
                }
            } else if str_equal(command, "toggle") {
                match last_named(&self.trackers, name) {
                    Some(i) => {
                        return Ok(
                            CommandPlan::Toggle {
                                name: name.to_owned(),
                                event_type: self.trackers[i].toggle_event_type(),
                            },
                        );
                    },
                    None => {
                        return Err(
                            error_about(
                                ChronosErrorTypes::NoCurrentTracker,
                                "No tracker named ",
                                name,
                                " found",
                            ),
                        );
                    },
                }
            }
            return Err(error_with(ChronosErrorTypes::InvalidCommand, "Invalid command"));
        }
        if n == 4 && str_equal(command, "report") {
            let name = args[2].as_str();
            let days = match parse_usize(args[3].as_str()) {
                Some(days) => days,
                None => {
                    return Err(
                        error_with(ChronosErrorTypes::InvalidCommand, "Invalid number of days"),
                    );
                },
            };
            match last_named(&self.trackers, name) {
                Some(i) => {
                    return Ok(CommandPlan::Report { days, tracker: self.trackers[i].clone() });
                },
                None => {
                    return Err(
                        error_about(
                            ChronosErrorTypes::NoCurrentTracker,
                            "No tracker named ",
                            name,
                            " found",
                        ),
                    );
                },
            }
        }
        Err(error_with(ChronosErrorTypes::InvalidCommand, "Invalid command"))
    }
}


/// The report text of a tracker over `days` days for a given total.
pub open spec fn report_reply_text(days: usize, total: int) -> Seq<char> {
    "Report for "@ + decimal(days as nat) + " days: "@ + format_epoch_spec(total)
}

/// What `reply` gives for a plan, once its outside work is done.
pub open spec fn reply_spec(plan: CommandPlan, r: Option<String>) -> bool {
    match plan {
        CommandPlan::Reply(text) => r matches Some(x) && x@ == text@,
        CommandPlan::Create(name) => r matches Some(x) && x@ == "Tracker "@ + name@ + " created"@,
        CommandPlan::Delete(name) => r matches Some(x) && x@ == "Tracker "@ + name@ + " deleted"@,
        CommandPlan::Toggle { name, .. } => r matches Some(x) && x@ == "Tracker "@ + name@
            + " toggled"@,
        CommandPlan::Report { days, tracker } => {
            &&& r matches Some(x) ==> exists|now: i64|
                #[trigger] report_total(
                    tracker.sessions@,
                    tracker.toggled,
                    tracker.last_start,
                    days,
                    now as int,
                ) is Some && x@ == report_reply_text(
                    days,
                    report_total(
                        tracker.sessions@,
                        tracker.toggled,
                        tracker.last_start,
                        days,
                        now as int,
                    ).unwrap(),
                )
            &&& r is None ==> exists|now: i64|
                #[trigger] report_total(
                    tracker.sessions@,
                    tracker.toggled,
                    tracker.last_start,
                    days,
                    now as int,
                ) is None
        },
    }
}

impl CommandPlan {
    /// The reply to print once the plan's outside work is done; a report reads
    /// the clock, and is `None` where its computation overflows an `i64`.
    pub fn reply(&self) -> (r: Option<String>)
        ensures
            reply_spec(*self, r),
    {
        match self {
            CommandPlan::Reply(text) => Some(text.clone()),
            CommandPlan::Create(name) => {
                let mut r = String::from_str("Tracker ");
                r.append(name.as_str());
                r.append(" created");
                Some(r)
            },
            CommandPlan::Delete(name) => {
                let mut r = String::from_str("Tracker ");
                r.append(name.as_str());
                r.append(" deleted");
                Some(r)
            },
            CommandPlan::Toggle { name, .. } => {
                let mut r = String::from_str("Tracker ");
                r.append(name.as_str());
                r.append(" toggled");
                Some(r)
            },
            CommandPlan::Report { days, tracker } => match tracker.report(*days) {
                Some(report) => {
                    let mut r = String::from_str("Report for ");
                    push_decimal(&mut r, *days as u64);
                    r.append(" days: ");
                    r.append(report.as_str());
                    Some(r)
                },
                None => None,
            },
        }
    }
}

impl Chronos {
    /// Decides whether creating a tracker of this name goes ahead, given the
    /// trackers read from the database: it goes ahead exactly when one of them
    /// has that name, and else fails with `NameAlreadyExists`.
    pub fn create_tracker(stored: &Vec<Tracker>, name: &str) -> (r: Result<(), ChronosError>)
        ensures
            r is Ok <==> has_tracker(stored@, name@),
            r matches Err(e) ==> is_error(
                e,
                ChronosErrorTypes::NameAlreadyExists,
                "Tracker \""@ + name@ + "\" already exists"@,
            ),
    {
        match last_named(stored, name) {
            Some(_) => Ok(()),
            None => Err(
                error_about(
                    ChronosErrorTypes::NameAlreadyExists,
                    "Tracker \"",
                    name,
                    "\" already exists",
                ),
            ),
        }
    }
}

/// The number of days of the day selection, as the clock reports them: the
/// selected number, or else as many days as the time per day has entries.
pub open spec fn clock_days(t: Tracker, day_selection: Option<usize>) -> usize {
    match day_selection {
        Some(s) => s,
        None => t.time_per_day@.len() as usize,
    }
}

/// A clock text is the tracker's report over the clock's days.
pub open spec fn clock_report(t: Tracker, day_selection: Option<usize>, r: Option<String>) -> bool {
    let days = clock_days(t, day_selection);
    &&& r matches Some(x) ==> exists|now: i64|
        #[trigger] report_total(t.sessions@, t.toggled, t.last_start, days, now as int) is Some
            && x@ == format_epoch_spec(
            report_total(t.sessions@, t.toggled, t.last_start, days, now as int).unwrap(),
        )
    &&& r is None ==> exists|now: i64|
        #[trigger] report_total(t.sessions@, t.toggled, t.last_start, days, now as int) is None
}

impl Chronos {
    /// The clock text: the report of the selected tracker over the selected
    /// number of days (or over as many days as its time per day has entries),
    /// or `0 seconds ` when no tracker is selected. The report reads the clock
    /// and is `None` where its computation overflows an `i64`.
    pub fn clock_text(&self, day_selection: Option<usize>) -> (r: Option<String>)
        ensures
            self.selected_tracker is None ==> r is Some && r.unwrap()@ == "0 seconds "@,
            self.selected_tracker matches Some(t) ==> clock_report(t, day_selection, r),
    {
        match &self.selected_tracker {
            None => Some(String::from_str("0 seconds ")),
            Some(t) => {
                let days = match day_selection {
                    Some(s) => s,
                    None => t.time_per_day.len(),
                };
                t.report(days)
            },
        }
    }
}

/// The sessions that the session list shows: all of them, except that with a
/// day selection those starting after `cutoff` are left out.
pub open spec fn shown_sessions(ss: Seq<TrackerSession>, cutoff: int, selected: bool) -> Seq<
    TrackerSession,
>
    decreases ss.len(),
{
    if ss.len() == 0 {
        Seq::empty()
    } else {
        let rest = shown_sessions(ss.drop_last(), cutoff, selected);
        if ss.last().start_time > cutoff && selected {
            rest
        } else {
            rest.push(ss.last())
        }
    }
}

/// The cutoff of the session list: the tracker's creation time plus the
/// selected number of days (0 without a selection); `None` where that
/// overflows an `i64`.
pub open spec fn session_cutoff(t: Tracker, day_selection: Option<usize>) -> Option<int> {
    let x: int = match day_selection {
        Some(s) => (s as i64) as int,
        None => 0,
    };
    let span = x * DAY_SECONDS;
    if fits_i64(span) && fits_i64(t.created_at + span) {
        Some(t.created_at + span)
    } else {
        None
    }
}

impl Chronos {
    /// The sessions of the selected tracker that the session list shows for
    /// the day selection (none without a selected tracker); `None` where the
    /// cutoff overflows an `i64`.
    pub fn visible_sessions(&self, day_selection: Option<usize>) -> (r: Option<Vec<TrackerSession>>)
        ensures
            match self.selected_tracker {
                None => r matches Some(v) && v@.len() == 0,
                Some(t) => if t.sessions@.len() == 0 {
                    r matches Some(v) && v@.len() == 0
                } else {
                    match session_cutoff(t, day_selection) {
                        None => r is None,
                        Some(c) => r matches Some(v) && v@ == shown_sessions(
                            t.sessions@,
                            c,
                            day_selection is Some,
                        ),
                    }
                },
            },
    {
        let mut shown: Vec<TrackerSession> = Vec::new();
        match &self.selected_tracker {
            None => Some(shown),
            Some(t) => {
                if t.sessions.len() == 0 {
                    return Some(shown);
                }
                let (selection, selected) = split_selection(day_selection);
                let x: i128 = selection as i64 as i128;
                let span: i128 = x * DAY_SECONDS as i128;
                let cutoff: i128 = t.created_at as i128 + span;
                if span < i64::MIN as i128 || span > i64::MAX as i128 || cutoff < i64::MIN as i128
                    || cutoff > i64::MAX as i128 {
                    return None;
                }
                let mut i: usize = 0;
                while i < t.sessions.len()
                    invariant
                        0 <= i <= t.sessions@.len(),
                        shown@ == shown_sessions(t.sessions@.take(i as int), cutoff as int, selected),
                    decreases t.sessions@.len() - i,
                {
                    let session = t.sessions[i];
                    proof {
                        assert(t.sessions@.take(i + 1).drop_last() =~= t.sessions@.take(i as int));
                        assert(t.sessions@.take(i + 1).last() == t.sessions@[i as int]);
                    }
                    if !(session.start_time as i128 > cutoff && selected) {
                        shown.push(session);
                    }
                    i = i + 1;
                }
                assert(t.sessions@.take(t.sessions@.len() as int) =~= t.sessions@);
                Some(shown)
            },
        }
    }

    /// The text of the day selector.
    pub fn day_selector_text(day_selection: Option<usize>) -> (r: String)
        ensures
            r@ == match day_selection {
                Some(s) => if s == 1 {
                    "Currently viewing 1 day"@
                } else {
                    "Currently viewing "@ + decimal(s as nat) + " days"@
                },
                None => "Currently viewing All days"@,
            },
    {
        match day_selection {
            Some(1) => String::from_str("Currently viewing 1 day"),
            Some(selected) => {
                let mut r = String::from_str("Currently viewing ");
                push_decimal(&mut r, selected as u64);
                r.append(" days");
                r
            },
            None => String::from_str("Currently viewing All days"),
        }
    }

    /// The text of the error page: the last error's message, or nothing.
    pub fn error_text(&self) -> (r: String)
        ensures
            r@ == match self.last_error {
                Some(e) => e.message@,
                None => Seq::<char>::empty(),
            },
    {
        match &self.last_error {
            Some(e) => e.message.clone(),
            None => String::new(),
        }
    }
}


/// The highlighted entry of the tracker list is an existing tracker, and it is
/// the selected tracker.
pub open spec fn selection_consistent(c: Chronos, lists: ListSelections) -> bool {
    lists.trackers matches Some(s) ==> s < c.trackers@.len() && opt_view(c.selected_tracker) == Some(
        c.trackers@[s as int]@,
    )
}

/// Law: moving up or down the tracker list keeps the highlighted entry on an
/// existing tracker, and keeps it the selected tracker.
pub proof fn lemma_selection_moves_keep_consistency(
    o: Chronos,
    n: Chronos,
    ol: ListSelections,
    nl: ListSelections,
    key: Key,
    a: TuiAction,
)
    requires
        key == Key::Up || key == Key::Down,
        selection_key_step(o, n, ol, nl, key, a),
        selection_consistent(o, ol),
    ensures
        selection_consistent(n, nl),
{
}

/// Law: after a deletion the trackers are read again, and the tracker list
/// then highlights an existing tracker, which is the selected one, or nothing.
pub proof fn lemma_reload_after_delete_consistent(
    o: Chronos,
    n: Chronos,
    ol: ListSelections,
    nl: ListSelections,
    oi: Seq<char>,
    ni: Seq<char>,
    event: TuiEvent,
    a: TuiAction,
)
    requires
        o.pending is ReloadingAfterDelete,
        event is Trackers,
        event_allowed(o, event),
        event_step(o, n, ol, nl, oi, ni, event, a),
    ensures
        event matches TuiEvent::Trackers(Ok(_)) ==> selection_consistent(n, nl),
        event matches TuiEvent::Trackers(Err(_)) ==> n.tui_state == ChronosTuiState::Error,
{
}


/// Law: moving down a list never leaves it: a move lands on an existing entry;
/// with nothing selected, a non-empty list gets an entry selected; and from an
/// entry that is not the last, the move goes to the next one.
pub proof fn lemma_move_down_lands_in_list(sel: Option<usize>, count: int)
    requires
        count > 0,
        count <= usize::MAX,
        sel matches Some(s) ==> s < count,
    ensures
        move_down_spec(sel, true, count) matches ListMove::To(i) ==> i < count,
        sel is None ==> (move_down_spec(sel, true, count) matches ListMove::To(i) && i < count),
        forall|s: usize|
            sel == Some(s) && s + 1 < count ==> move_down_spec(sel, true, count) == ListMove::To(
                (s + 1) as usize,
            ),
        forall|s: usize|
            sel == Some(s) && s + 1 == count ==> move_down_spec(sel, true, count) == ListMove::Keep,
{
}

/// Law: moving up a list never leaves it: with nothing selected, a non-empty
/// list gets its first entry selected; from an entry that is not the first, the
/// move goes to the previous one; the first entry stays.
pub proof fn lemma_move_up_lands_in_list(sel: Option<usize>, count: int)
    requires
        count > 0,
        sel matches Some(s) ==> s < count,
    ensures
        sel is None ==> move_up_spec(sel, count) == ListMove::To(0),
        forall|s: usize|
            sel == Some(s) && s > 0 ==> move_up_spec(sel, count) == ListMove::To((s - 1) as usize),
        sel == Some(0usize) ==> move_up_spec(sel, count) == ListMove::Keep,
{
}

/// Law: on the selection page, Down or Up on a non-empty tracker list with
/// nothing highlighted highlights a tracker, and selects that tracker.
pub proof fn lemma_first_move_selects_a_tracker(
    o: Chronos,
    n: Chronos,
    ol: ListSelections,
    nl: ListSelections,
    key: Key,
    a: TuiAction,
)
    requires
        key == Key::Up || key == Key::Down,
        selection_key_step(o, n, ol, nl, key, a),
        ol.trackers is None,
        o.trackers@.len() > 0,
    ensures
        (nl.trackers matches Some(i) && i < o.trackers@.len() && opt_view(n.selected_tracker)
            == Some(o.trackers@[i as int]@)),
{
}

/// Law: without a day selection, the clock reports over exactly as many days as
/// the selected tracker's time per day has entries; with one, over the selected
/// number of days.
pub proof fn lemma_clock_report_days(t: Tracker, day_selection: Option<usize>, r: Option<String>)
    requires
        clock_report(t, day_selection, r),
    ensures
        day_selection is None ==> reports_over(t, t.time_per_day@.len() as usize, r),
        forall|s: usize| day_selection == Some(s) ==> reports_over(t, s, r),
{
}

/// `r` is the tracker's report over `days` days at some reading of the clock.
pub open spec fn reports_over(t: Tracker, days: usize, r: Option<String>) -> bool {
    &&& r matches Some(x) ==> exists|now: i64|
        #[trigger] report_total(t.sessions@, t.toggled, t.last_start, days, now as int) is Some
            && x@ == format_epoch_spec(
            report_total(t.sessions@, t.toggled, t.last_start, days, now as int).unwrap(),
        )
    &&& r is None ==> exists|now: i64|
        #[trigger] report_total(t.sessions@, t.toggled, t.last_start, days, now as int) is None
}

} // verus!
