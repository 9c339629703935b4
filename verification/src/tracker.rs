use vstd::prelude::*;
use crate::chronos::{ChronosError, ChronosErrorTypes};
use crate::clock::{duration_as_secs, duration_since_epoch, system_time_now};
use crate::day::Day;
use crate::text::{decimal, push_decimal};
use crate::tracker_event::{TrackerEvent, TrackerEventType, event_type_from_name};
use crate::tracker_session::TrackerSession;

verus! {

/// Whether a mathematical integer can be held in an `i64`.
pub open spec fn fits_i64(x: int) -> bool {
    i64::MIN <= x <= i64::MAX
}

/// What a scan of the events in order yields: the closed sessions, whether the
/// tracker is running, and the timestamp of the last start (0 before any start).
/// A stop closes a session that began at the last start.
pub open spec fn scan_events(events: Seq<TrackerEvent>) -> (Seq<TrackerSession>, bool, i64)
    decreases events.len(),
{
    if events.len() == 0 {
        (Seq::empty(), false, 0i64)
    } else {
        let prev = scan_events(events.drop_last());
        let e = events.last();
        match e.event_type {
            TrackerEventType::Start => (prev.0, true, e.timestamp),
            TrackerEventType::Stop => (
                prev.0.push(
                    TrackerSession { start_time: prev.2, duration: (e.timestamp - prev.2) as i64 },
                ),
                false,
                prev.2,
            ),
        }
    }
}

/// The duration that the stop event at index `i` closes, as a mathematical integer.
pub open spec fn stop_span(events: Seq<TrackerEvent>, i: int) -> int {
    events[i].timestamp - scan_events(events.take(i)).2
}

/// Every duration that a stop closes fits in an `i64` (else the scan overflows).
pub open spec fn events_fit(events: Seq<TrackerEvent>) -> bool {
    forall|i: int|
        0 <= i < events.len() && (#[trigger] events[i]).event_type == TrackerEventType::Stop
            ==> fits_i64(stop_span(events, i))
}

/// The stop events, in order.
pub open spec fn stop_events(events: Seq<TrackerEvent>) -> Seq<TrackerEvent>
    decreases events.len(),
{
    if events.len() == 0 {
        Seq::empty()
    } else if events.last().event_type == TrackerEventType::Stop {
        stop_events(events.drop_last()).push(events.last())
    } else {
        stop_events(events.drop_last())
    }
}

proof fn lemma_take_drop_last(events: Seq<TrackerEvent>, i: int)
    requires
        0 <= i < events.len(),
    ensures
        events.take(i + 1).drop_last() == events.take(i),
        events.take(i + 1).last() == events[i],
{
    assert(events.take(i + 1).drop_last() =~= events.take(i));
}

/// Scans the events; `None` exactly where a closed duration overflows an `i64`.
fn scan_checked(events: &Vec<TrackerEvent>) -> (r: Option<(Vec<TrackerSession>, (bool, i64))>)
    ensures
        r matches Some(x) ==> events_fit(events@) && (x.0@, x.1.0, x.1.1) == scan_events(events@),
        r is None ==> !events_fit(events@),
{
    let mut sessions: Vec<TrackerSession> = Vec::new();
    let mut last_start: i64 = 0;
    let mut toggled = false;
    let mut i: usize = 0;
    while i < events.len()
        invariant
            0 <= i <= events@.len(),
            (sessions@, toggled, last_start) == scan_events(events@.take(i as int)),
            forall|j: int|
                0 <= j < i && (#[trigger] events@[j]).event_type == TrackerEventType::Stop
                    ==> fits_i64(stop_span(events@, j)),
        decreases events@.len() - i,
    {
        let e = events[i];
        proof {
            lemma_take_drop_last(events@, i as int);
        }
        match e.event_type {
            TrackerEventType::Start => {
                toggled = true;
                last_start = e.timestamp;
            },
            TrackerEventType::Stop => {
                let d: i128 = e.timestamp as i128 - last_start as i128;
                if d < i64::MIN as i128 || d > i64::MAX as i128 {
                    assert(!fits_i64(stop_span(events@, i as int)));
                    return None;
                }
                sessions.push(TrackerSession::new(last_start, d as i64));
                toggled = false;
            },
        }
        i = i + 1;
    }
    assert(events@.take(events@.len() as int) =~= events@);
    Some((sessions, (toggled, last_start)))
}

/// Law: a scan yields one session per stop event, and each session ends at
/// the timestamp of the stop that closed it.
pub proof fn lemma_sessions_match_stops(events: Seq<TrackerEvent>)
    requires
        events_fit(events),
    ensures
        scan_events(events).0.len() == stop_events(events).len(),
        forall|k: int|
            0 <= k < scan_events(events).0.len() ==> #[trigger] scan_events(events).0[k].start_time
                + scan_events(events).0[k].duration == stop_events(events)[k].timestamp,
    decreases events.len(),
{
    if events.len() > 0 {
        let prefix = events.drop_last();
        assert forall|i: int|
            0 <= i < prefix.len() && (#[trigger] prefix[i]).event_type == TrackerEventType::Stop
                implies fits_i64(stop_span(prefix, i)) by {
            assert(prefix.take(i) =~= events.take(i));
            assert(events[i] == prefix[i]);
        }
        lemma_sessions_match_stops(prefix);
        let n = (events.len() - 1) as int;
        assert(events.take(n) =~= prefix);
        if events.last().event_type == TrackerEventType::Stop {
            assert(events[n] == events.last());
        }
    }
}

/// Law: a tracker is running exactly when its last event is a start.
pub proof fn lemma_running_iff_last_is_start(events: Seq<TrackerEvent>)
    ensures
        scan_events(events).1 == (events.len() > 0 && events.last().event_type
            == TrackerEventType::Start),
{
}

/// The event type that toggling a tracker records: a stop when it runs, else a start.
pub open spec fn toggle_event_for(toggled: bool) -> TrackerEventType {
    if toggled {
        TrackerEventType::Stop
    } else {
        TrackerEventType::Start
    }
}

/// Law: recording the toggle event flips whether the tracker runs; stopping a
/// running tracker closes one session from its last start to the stop, and
/// starting it leaves the sessions as they were.
pub proof fn lemma_toggle_flips(events: Seq<TrackerEvent>, timestamp: i64)
    ensures
        ({
            let before = scan_events(events);
            let after = scan_events(
                events.push(TrackerEvent { event_type: toggle_event_for(before.1), timestamp }),
            );
            &&& after.1 == !before.1
            &&& before.1 ==> after.0 == before.0.push(
                TrackerSession { start_time: before.2, duration: (timestamp - before.2) as i64 },
            )
            &&& !before.1 ==> after.0 == before.0 && after.2 == timestamp
        }),
{
    let e = TrackerEvent { event_type: toggle_event_for(scan_events(events).1), timestamp };
    assert(events.push(e).drop_last() =~= events);
}

/// The last start is 0 or the timestamp of one of the events.
proof fn lemma_last_start_is_event(events: Seq<TrackerEvent>)
    ensures
        scan_events(events).2 == 0 || exists|i: int|
            0 <= i < events.len() && #[trigger] events[i].timestamp == scan_events(events).2,
    decreases events.len(),
{
    if events.len() > 0 {
        let prefix = events.drop_last();
        lemma_last_start_is_event(prefix);
        if scan_events(events).2 != 0 {
            if events.last().event_type == TrackerEventType::Start {
                assert(events[events.len() - 1].timestamp == scan_events(events).2);
            } else {
                let i = choose|i: int|
                    0 <= i < prefix.len() && #[trigger] prefix[i].timestamp == scan_events(prefix).2;
                assert(events[i] == prefix[i]);
            }
        }
    }
}

/// Events in time order (as they are read back) with non-negative timestamps.
pub open spec fn ordered_nonnegative(events: Seq<TrackerEvent>) -> bool {
    &&& forall|i: int| 0 <= i < events.len() ==> #[trigger] events[i].timestamp >= 0
    &&& forall|i: int, j: int|
        0 <= i <= j < events.len() ==> #[trigger] events[i].timestamp <= #[trigger] events[j].timestamp
}

/// Law: events in time order with non-negative timestamps never overflow the
/// scan, and every session they yield has a non-negative duration.
pub proof fn lemma_ordered_events_fit(events: Seq<TrackerEvent>)
    requires
        ordered_nonnegative(events),
    ensures
        events_fit(events),
        forall|k: int|
            0 <= k < scan_events(events).0.len() ==> #[trigger] scan_events(events).0[k].duration
                >= 0,
    decreases events.len(),
{
    if events.len() > 0 {
        let prefix = events.drop_last();
        assert(ordered_nonnegative(prefix)) by {
            assert forall|i: int, j: int|
                0 <= i <= j < prefix.len() implies #[trigger] prefix[i].timestamp
                <= #[trigger] prefix[j].timestamp by {
                assert(prefix[i] == events[i] && prefix[j] == events[j]);
            }
        }
        lemma_ordered_events_fit(prefix);
        lemma_last_start_is_event(prefix);
        let n = (events.len() - 1) as int;
        let ls = scan_events(prefix).2;
        assert(ls <= events[n].timestamp) by {
            if ls != 0 {
                let i = choose|i: int|
                    0 <= i < prefix.len() && #[trigger] prefix[i].timestamp == ls;
                assert(prefix[i] == events[i]);
                assert(events[i].timestamp <= events[n].timestamp);
            } else {
                assert(events[n].timestamp >= 0);
            }
        }
        assert(ls >= 0) by {
            if ls != 0 {
                let i = choose|i: int|
                    0 <= i < prefix.len() && #[trigger] prefix[i].timestamp == ls;
                assert(prefix[i] == events[i]);
            }
        }
        assert forall|i: int|
            0 <= i < events.len() && (#[trigger] events[i]).event_type == TrackerEventType::Stop
                implies fits_i64(stop_span(events, i)) by {
            if i < n {
                assert(prefix.take(i) =~= events.take(i));
                assert(prefix[i] == events[i]);
                assert(stop_span(prefix, i) == stop_span(events, i));
            } else {
                assert(events.take(n) =~= prefix);
            }
        }
    }
}


/// A sequence length that the machine can hold and index with `usize` and `i64`.
pub open spec fn length_ok(n: nat) -> bool {
    n < usize::MAX && n < i64::MAX
}

/// The seconds in a day.
pub const DAY_SECONDS: i64 = 86400;

/// What a scan of the sessions in order yields, counting back from `now`: the
/// current day index (1 is the last day), the time gathered for it so far and
/// the days closed so far; `None` once an `i64` would overflow.
/// A session that starts before the current day's window moves the scan to
/// the next day index, which is recorded at once with that session's duration.
pub open spec fn scan_days(sessions: Seq<TrackerSession>, now: int) -> Option<(int, int, Seq<Day>)>
    decreases sessions.len(),
{
    if sessions.len() == 0 {
        Some((1, 0, Seq::empty()))
    } else {
        match scan_days(sessions.drop_last(), now) {
            None => None,
            Some(state) => {
                let (index, current, days) = state;
                let s = sessions.last();
                let span = DAY_SECONDS * index;
                if !fits_i64(span) || !fits_i64(now - span) {
                    None
                } else if s.start_time >= now - span {
                    if fits_i64(current + s.duration) {
                        Some((index, current + s.duration, days))
                    } else {
                        None
                    }
                } else {
                    Some(
                        (
                            index + 1,
                            s.duration as int,
                            days.push(Day { day_index: (index + 1) as usize, time: s.duration }),
                        ),
                    )
                }
            },
        }
    }
}

/// The time per day of the sessions, counted back from `now`: the days that the
/// scan closed, then the current day with the time gathered for it.
/// `None` where the computation overflows an `i64`.
pub open spec fn time_per_day_spec(sessions: Seq<TrackerSession>, now: int) -> Option<Seq<Day>> {
    match scan_days(sessions, now) {
        None => None,
        Some(state) => Some(state.2.push(Day { day_index: state.0 as usize, time: state.1 as i64 })),
    }
}

proof fn lemma_scan_days_none_stays(sessions: Seq<TrackerSession>, now: int, i: int)
    requires
        0 <= i <= sessions.len(),
        scan_days(sessions.take(i), now) is None,
    ensures
        scan_days(sessions, now) is None,
    decreases sessions.len() - i,
{
    if i < sessions.len() {
        assert(sessions.take(i + 1).drop_last() =~= sessions.take(i));
        lemma_scan_days_none_stays(sessions, now, i + 1);
    } else {
        assert(sessions.take(i) =~= sessions);
    }
}

proof fn lemma_scan_days_shape(sessions: Seq<TrackerSession>, now: int)
    requires
        scan_days(sessions, now) is Some,
        length_ok(sessions.len()),
    ensures
        ({
            let (index, current, days) = scan_days(sessions, now).unwrap();
            &&& 1 <= index <= sessions.len() + 1
            &&& days.len() == index - 1
            &&& fits_i64(current)
            &&& forall|i: int| 0 <= i < days.len() ==> #[trigger] days[i].day_index == i + 2
        }),
    decreases sessions.len(),
{
    if sessions.len() > 0 {
        lemma_scan_days_shape(sessions.drop_last(), now);
    }
}

/// Law: the time per day is never empty, its last entry carries the highest day
/// index (equal to its length), and every earlier entry `i` carries index `i + 2`.
pub proof fn lemma_time_per_day_shape(sessions: Seq<TrackerSession>, now: int)
    requires
        time_per_day_spec(sessions, now) is Some,
        length_ok(sessions.len()),
    ensures
        ({
            let days = time_per_day_spec(sessions, now).unwrap();
            &&& days.len() >= 1
            &&& days.last().day_index == days.len()
            &&& forall|i: int| 0 <= i < days.len() - 1 ==> #[trigger] days[i].day_index == i + 2
        }),
{
    lemma_scan_days_shape(sessions, now);
    let days = time_per_day_spec(sessions, now).unwrap();
    let state = scan_days(sessions, now).unwrap();
    assert forall|i: int| 0 <= i < days.len() - 1 implies #[trigger] days[i].day_index == i + 2 by {
        assert(days[i] == state.2[i]);
    }
}

/// Computes the time per day counted back from `now`; `None` exactly where the
/// computation overflows an `i64`.
fn time_per_day_checked(sessions: &Vec<TrackerSession>, now: i64) -> (r: Option<Vec<Day>>)
    requires
        length_ok(sessions@.len()),
    ensures
        r matches Some(v) ==> time_per_day_spec(sessions@, now as int) == Some(v@),
        r is None ==> time_per_day_spec(sessions@, now as int) is None,
{
    let mut time_per_day: Vec<Day> = Vec::new();
    let mut day_index: usize = 1;
    let mut current_time: i64 = 0;
    let mut i: usize = 0;
    while i < sessions.len()
        invariant
            0 <= i <= sessions@.len(),
            length_ok(sessions@.len()),
            1 <= day_index <= i + 1,
            scan_days(sessions@.take(i as int), now as int) == Some(
                (day_index as int, current_time as int, time_per_day@),
            ),
        decreases sessions@.len() - i,
    {
        let session = sessions[i];
        proof {
            assert(sessions@.take(i + 1).drop_last() =~= sessions@.take(i as int));
            assert(sessions@.take(i + 1).last() == sessions@[i as int]);
        }
        let span: i128 = DAY_SECONDS as i128 * day_index as i128;
        let threshold: i128 = now as i128 - span;
        if span > i64::MAX as i128 || threshold < i64::MIN as i128 {
            proof {
                lemma_scan_days_none_stays(sessions@, now as int, i + 1);
            }
            return None;
        }
        if session.start_time as i128 >= threshold {
            let sum: i128 = current_time as i128 + session.duration as i128;
            if sum < i64::MIN as i128 || sum > i64::MAX as i128 {
                proof {
                    lemma_scan_days_none_stays(sessions@, now as int, i + 1);
                }
                return None;
            }
            current_time = sum as i64;
        } else {
            current_time = session.duration;
            day_index = day_index + 1;
            time_per_day.push(Day::new(day_index, current_time));
        }
        i = i + 1;
    }
    assert(sessions@.take(sessions@.len() as int) =~= sessions@);
    time_per_day.push(Day::new(day_index, current_time));
    Some(time_per_day)
}

/// The time per day of the sessions, counted back from `now`.
pub fn get_time_per_day_at(sessions: &Vec<TrackerSession>, now: i64) -> (r: Vec<Day>)
    requires
        length_ok(sessions@.len()),
        time_per_day_spec(sessions@, now as int) is Some,
    ensures
        time_per_day_spec(sessions@, now as int) == Some(r@),
{
    match time_per_day_checked(sessions, now) {
        Some(v) => v,
        None => {
            assert(false);
            Vec::new()
        },
    }
}


/// The sum of the durations of the sessions that start at or after `threshold`,
/// added in order; `None` once a partial sum overflows an `i64`.
pub open spec fn window_total(sessions: Seq<TrackerSession>, threshold: int) -> Option<int>
    decreases sessions.len(),
{
    if sessions.len() == 0 {
        Some(0)
    } else {
        match window_total(sessions.drop_last(), threshold) {
            None => None,
            Some(total) => {
                let s = sessions.last();
                if s.start_time >= threshold {
                    if fits_i64(total + s.duration) {
                        Some(total + s.duration)
                    } else {
                        None
                    }
                } else {
                    Some(total)
                }
            },
        }
    }
}

/// The seconds a report over the last `days` days counts at time `now`: the
/// sessions that start within the window, plus the running time since the last
/// start when the tracker runs. `None` where the computation overflows an `i64`.
pub open spec fn report_total(
    sessions: Seq<TrackerSession>,
    toggled: bool,
    last_start: i64,
    days: usize,
    now: int,
) -> Option<int> {
    let span = DAY_SECONDS * ((days as i64) as int);
    if sessions.len() > 0 && (!fits_i64(span) || !fits_i64(now - span)) {
        None
    } else {
        match window_total(sessions, now - span) {
            None => None,
            Some(total) => if toggled {
                let running = now - last_start;
                if !fits_i64(running) || !fits_i64(total + running) {
                    None
                } else {
                    Some(total + running)
                }
            } else {
                Some(total)
            },
        }
    }
}

/// Division that rounds toward zero, as integer division does in Rust.
pub open spec fn tdiv(a: int, b: int) -> int {
    if a >= 0 {
        a / b
    } else {
        -((-a) / b)
    }
}

/// The remainder that goes with `tdiv`; it has the sign of `a`.
pub open spec fn trem(a: int, b: int) -> int {
    a - b * tdiv(a, b)
}

/// The years part of a formatted duration.
pub open spec fn year_part(years: int) -> Seq<char> {
    if years > 1 {
        decimal(years as nat) + " years, "@
    } else if years > 0 {
        "1 year, "@
    } else {
        Seq::empty()
    }
}

/// The days part of a formatted duration.
pub open spec fn day_part(days: int, years: int) -> Seq<char> {
    if days > 1 {
        decimal(days as nat) + " days, "@
    } else if days > 0 {
        "1 day, "@
    } else if years > 0 {
        "0 days, "@
    } else {
        Seq::empty()
    }
}

/// The hours part of a formatted duration.
pub open spec fn hour_part(hours: int, days: int, years: int) -> Seq<char> {
    if hours > 1 {
        decimal(hours as nat) + " hours, "@
    } else if days > 0 {
        "1 hour, "@
    } else if years > 0 || days > 0 {
        "0 hours, "@
    } else {
        Seq::empty()
    }
}

/// The minutes part of a formatted duration.
pub open spec fn minute_part(minutes: int, hours: int, days: int, years: int) -> Seq<char> {
    if minutes > 1 {
        decimal(minutes as nat) + " minutes, "@
    } else if days > 0 {
        "1 minute, "@
    } else if years > 0 || days > 0 || hours > 0 {
        "0 minutes, "@
    } else {
        Seq::empty()
    }
}

/// The seconds part of a formatted duration; it is always written.
pub open spec fn second_part(seconds: int, days: int) -> Seq<char> {
    if seconds > 1 {
        decimal(seconds as nat) + " seconds"@
    } else if days > 0 {
        "1 seconds"@
    } else {
        "0 seconds"@
    }
}

/// How `format_epoch` writes a duration given in seconds: years (of 365 days),
/// days, hours, minutes and seconds, each split off with Rust's truncating
/// division; a unit is written with its count when the count exceeds 1, and
/// otherwise in the fixed wordings of its part, or left out.
pub open spec fn format_epoch_spec(time: int) -> Seq<char> {
    let seconds = trem(time, 60);
    let t1 = tdiv(time, 60);
    let minutes = trem(t1, 60);
    let t2 = tdiv(t1, 60);
    let hours = trem(t2, 24);
    let t3 = tdiv(t2, 24);
    let days = trem(t3, 365);
    let years = tdiv(t3, 365);
    year_part(years) + day_part(days, years) + hour_part(hours, days, years) + minute_part(
        minutes,
        hours,
        days,
        years,
    ) + second_part(seconds, days)
}

proof fn lemma_truncating_division(a: int, b: int, q: int, r: int)
    requires
        b > 0,
        q * b + r == a,
        a >= 0 ==> 0 <= r < b,
        a < 0 ==> -b < r <= 0,
    ensures
        q == tdiv(a, b),
        r == trem(a, b),
{
    if a >= 0 {
        vstd::arithmetic::div_mod::lemma_fundamental_div_mod_converse(a, b, q, r);
    } else {
        assert((-q) * b + (-r) == -a) by (nonlinear_arith)
            requires
                q * b + r == a,
        ;
        if r == 0 {
            vstd::arithmetic::div_mod::lemma_fundamental_div_mod_converse(-a, b, -q, 0);
        } else {
            vstd::arithmetic::div_mod::lemma_fundamental_div_mod_converse(-a, b, -q, -r);
        }
    }
    assert(b * tdiv(a, b) == q * b) by (nonlinear_arith)
        requires
            q == tdiv(a, b),
    ;
}

/// A tracker with its events and what they yield.
#[derive(Debug)]
pub struct Tracker {
    pub name: String,
    pub created_at: i64,
    pub toggled: bool,
    pub last_start: i64,
    pub events: Vec<TrackerEvent>,
    pub sessions: Vec<TrackerSession>,
    pub time_per_day: Vec<Day>,
}


/// Appends the decimal notation of a positive count followed by a unit.
fn push_count(output: &mut String, count: i64, unit: &str)
    requires
        count > 1,
    ensures
        final(output)@ == old(output)@ + (decimal(count as nat) + unit@),
{
    push_decimal(output, count as u64);
    output.append(unit);
    assert(output@ =~= old(output)@ + (decimal(count as nat) + unit@));
}

impl Tracker {
    /// Writes a duration given in seconds in years, days, hours, minutes and seconds.
    pub fn format_epoch(time: i64) -> (r: String)
        ensures
            r@ == format_epoch_spec(time as int),
    {
        let seconds = time % 60;
        let t1 = time / 60;
        proof {
            lemma_truncating_division(time as int, 60, t1 as int, seconds as int);
        }
        let minutes = t1 % 60;
        let t2 = t1 / 60;
        proof {
            lemma_truncating_division(t1 as int, 60, t2 as int, minutes as int);
        }
        let hours = t2 % 24;
        let t3 = t2 / 24;
        proof {
            lemma_truncating_division(t2 as int, 24, t3 as int, hours as int);
        }
        let days = t3 % 365;
        let years = t3 / 365;
        proof {
            lemma_truncating_division(t3 as int, 365, years as int, days as int);
        }
        let ghost y = year_part(years as int);
        let ghost d = day_part(days as int, years as int);
        let ghost h = hour_part(hours as int, days as int, years as int);
        let ghost m = minute_part(minutes as int, hours as int, days as int, years as int);
        let ghost s = second_part(seconds as int, days as int);

        let mut output = String::new();

        if years > 1 {
            push_count(&mut output, years, " years, ");
        } else if years > 0 {
            output.append("1 year, ");
        }
        assert(output@ =~= y);

        if days > 1 {
            push_count(&mut output, days, " days, ");
        } else if days > 0 {
            output.append("1 day, ");
        } else if years > 0 {
            output.append("0 days, ");
        }
        assert(output@ =~= y + d);

        if hours > 1 {
            push_count(&mut output, hours, " hours, ");
        } else if days > 0 {
            output.append("1 hour, ");
        } else if years > 0 || days > 0 {
            output.append("0 hours, ");
        }
        assert(output@ =~= y + d + h);

        if minutes > 1 {
            push_count(&mut output, minutes, " minutes, ");
        } else if days > 0 {
            output.append("1 minute, ");
        } else if years > 0 || days > 0 || hours > 0 {
            output.append("0 minutes, ");
        }
        assert(output@ =~= y + d + h + m);

        if seconds > 1 {
            push_count(&mut output, seconds, " seconds");
        } else if days > 0 {
            output.append("1 seconds");
        } else {
            output.append("0 seconds");
        }
        assert(output@ =~= y + d + h + m + s);
        output
    }
}


/// Sums the sessions within the report window; `None` exactly where the
/// computation overflows an `i64`.
fn report_total_checked(
    sessions: &Vec<TrackerSession>,
    toggled: bool,
    last_start: i64,
    days: usize,
    now: i64,
) -> (r: Option<i64>)
    ensures
        r matches Some(t) ==> report_total(sessions@, toggled, last_start, days, now as int) == Some(
            t as int,
        ),
        r is None ==> report_total(sessions@, toggled, last_start, days, now as int) is None,
{
    let span: i128 = DAY_SECONDS as i128 * days as i64 as i128;
    let threshold: i128 = now as i128 - span;
    if sessions.len() > 0 && (span < i64::MIN as i128 || span > i64::MAX as i128 || threshold
        < i64::MIN as i128 || threshold > i64::MAX as i128) {
        return None;
    }
    let mut time: i64 = 0;
    let mut i: usize = 0;
    while i < sessions.len()
        invariant
            0 <= i <= sessions@.len(),
            threshold == now - DAY_SECONDS * ((days as i64) as int),
            window_total(sessions@.take(i as int), threshold as int) == Some(time as int),
        decreases sessions@.len() - i,
    {
        let session = sessions[i];
        proof {
            assert(sessions@.take(i + 1).drop_last() =~= sessions@.take(i as int));
            assert(sessions@.take(i + 1).last() == sessions@[i as int]);
        }
        if session.start_time as i128 >= threshold {
            let sum: i128 = time as i128 + session.duration as i128;
            if sum < i64::MIN as i128 || sum > i64::MAX as i128 {
                proof {
                    lemma_window_total_none_stays(sessions@, threshold as int, i + 1);
                }
                return None;
            }
            time = sum as i64;
        }
        i = i + 1;
    }
    assert(sessions@.take(sessions@.len() as int) =~= sessions@);
    if toggled {
        let running: i128 = now as i128 - last_start as i128;
        let sum: i128 = time as i128 + running;
        if running < i64::MIN as i128 || running > i64::MAX as i128 || sum < i64::MIN as i128
            || sum > i64::MAX as i128 {
            return None;
        }
        time = sum as i64;
    }
    Some(time)
}

proof fn lemma_window_total_none_stays(sessions: Seq<TrackerSession>, threshold: int, i: int)
    requires
        0 <= i <= sessions.len(),
        window_total(sessions.take(i), threshold) is None,
    ensures
        window_total(sessions, threshold) is None,
    decreases sessions.len() - i,
{
    if i < sessions.len() {
        assert(sessions.take(i + 1).drop_last() =~= sessions.take(i));
        lemma_window_total_none_stays(sessions, threshold, i + 1);
    } else {
        assert(sessions.take(i) =~= sessions);
    }
}

proof fn lemma_sessions_no_longer_than_events(events: Seq<TrackerEvent>)
    ensures
        scan_events(events).0.len() <= events.len(),
    decreases events.len(),
{
    if events.len() > 0 {
        lemma_sessions_no_longer_than_events(events.drop_last());
    }
}

impl Tracker {
    /// A well-formed tracker: its sessions, running state and last start are what
    /// its events yield, and its time per day is what its sessions yield at some
    /// point in time.
    pub open spec fn wf(&self) -> bool {
        &&& length_ok(self.events@.len())
        &&& events_fit(self.events@)
        &&& scan_events(self.events@) == (self.sessions@, self.toggled, self.last_start)
        &&& exists|now: i64| time_per_day_spec(self.sessions@, now as int) == Some(self.time_per_day@)
    }

    /// The seconds since the Unix epoch by the system clock, or 0 when the clock
    /// reads before the epoch. Nothing is stated of the reading.
    pub fn get_timestamp() -> i64 {
        let now = system_time_now();
        match duration_since_epoch(&now) {
            Ok(duration) => duration_as_secs(&duration) as i64,
            Err(_) => 0,
        }
    }

    /// Builds the sessions from the events: each stop closes a session that began
    /// at the last start. Also gives whether the tracker runs and its last start.
    pub fn get_sessions(events: &Vec<TrackerEvent>) -> (r: (Vec<TrackerSession>, (bool, i64)))
        requires
            events_fit(events@),
        ensures
            (r.0@, r.1.0, r.1.1) == scan_events(events@),
    {
        match scan_checked(events) {
            Some(r) => r,
            None => {
                assert(false);
                (Vec::new(), (false, 0))
            },
        }
    }

    /// The time per day of the sessions, counted back from the clock's reading;
    /// `None` where the computation overflows an `i64` at that reading.
    pub fn get_time_per_day(sessions: &Vec<TrackerSession>) -> (r: Option<Vec<Day>>)
        requires
            length_ok(sessions@.len()),
        ensures
            r matches Some(v) ==> exists|now: i64|
                time_per_day_spec(sessions@, now as int) == Some(v@),
            r is None ==> exists|now: i64| #[trigger] time_per_day_spec(sessions@, now as int) is None,
    {
        let now = Self::get_timestamp();
        let r = time_per_day_checked(sessions, now);
        assert(r matches Some(v) ==> time_per_day_spec(sessions@, now as int) == Some(v@));
        r
    }

    /// Builds a tracker from its stored events, in the order read.
    /// `None` where the computation overflows an `i64`: a closed
    /// duration, or the time per day at the clock's reading.
    pub fn new(name: &str, created_at: i64, events: Vec<TrackerEvent>) -> (r: Option<Self>)
        requires
            length_ok(events@.len()),
        ensures
            r matches Some(t) ==> {
                &&& t.wf()
                &&& t.name@ == name@
                &&& t.created_at == created_at
                &&& t.events@ == events@
            },
            r is None ==> !events_fit(events@) || exists|now: i64|
                #[trigger] time_per_day_spec(scan_events(events@).0, now as int) is None,
    {
        match scan_checked(&events) {
            None => None,
            Some((sessions, (toggled, last_start))) => {
                proof {
                    lemma_sessions_no_longer_than_events(events@);
                }
                match Self::get_time_per_day(&sessions) {
                    None => None,
                    Some(time_per_day) => Some(
                        Tracker {
                            name: name.to_owned(),
                            created_at,
                            toggled,
                            last_start,
                            events,
                            sessions,
                            time_per_day,
                        },
                    ),
                }
            },
        }
    }

    /// Replaces the events with the ones read back and recomputes what they
    /// yield. Where the computation overflows an `i64`, returns `false` and
    /// leaves the tracker as it was.
    pub fn update(&mut self, events: Vec<TrackerEvent>) -> (r: bool)
        requires
            length_ok(events@.len()),
        ensures
            r ==> final(self).wf() && final(self).events@ == events@ && final(self).name
                == old(self).name && final(self).created_at == old(self).created_at,
            !r ==> *final(self) == *old(self),
            !r ==> !events_fit(events@) || exists|now: i64|
                #[trigger] time_per_day_spec(scan_events(events@).0, now as int) is None,
    {
        match scan_checked(&events) {
            None => false,
            Some((sessions, (toggled, last_start))) => {
                proof {
                    lemma_sessions_no_longer_than_events(events@);
                }
                match Self::get_time_per_day(&sessions) {
                    None => false,
                    Some(time_per_day) => {
                        self.events = events;
                        self.sessions = sessions;
                        self.toggled = toggled;
                        self.last_start = last_start;
                        self.time_per_day = time_per_day;
                        true
                    },
                }
            },
        }
    }

    /// The event type that toggling this tracker records: a stop when it runs,
    /// else a start.
    pub fn toggle_event_type(&self) -> (r: TrackerEventType)
        ensures
            r == toggle_event_for(self.toggled),
    {
        if self.toggled {
            TrackerEventType::Stop
        } else {
            TrackerEventType::Start
        }
    }

    /// The time tracked over the last `days` days at time `now`, formatted.
    pub fn report_at(&self, days: usize, now: i64) -> (r: String)
        requires
            report_total(self.sessions@, self.toggled, self.last_start, days, now as int) is Some,
        ensures
            r@ == format_epoch_spec(
                report_total(self.sessions@, self.toggled, self.last_start, days, now as int).unwrap(),
            ),
    {
        match report_total_checked(&self.sessions, self.toggled, self.last_start, days, now) {
            Some(t) => Self::format_epoch(t),
            None => {
                assert(false);
                String::new()
            },
        }
    }

    /// The time tracked over the last `days` days by the clock's reading,
    /// formatted; `None` where the computation overflows an `i64` at that reading.
    pub fn report(&self, days: usize) -> (r: Option<String>)
        ensures
            r matches Some(s) ==> exists|now: i64|
                #[trigger] report_total(self.sessions@, self.toggled, self.last_start, days, now as int)
                    is Some && s@ == format_epoch_spec(
                    report_total(self.sessions@, self.toggled, self.last_start, days, now as int).unwrap(),
                ),
            r is None ==> exists|now: i64|
                #[trigger] report_total(self.sessions@, self.toggled, self.last_start, days, now as int)
                    is None,
    {
        let now = Self::get_timestamp();
        match report_total_checked(&self.sessions, self.toggled, self.last_start, days, now) {
            Some(t) => Some(Self::format_epoch(t)),
            None => None,
        }
    }
}


/// Whether every stored row names a known event type.
pub open spec fn rows_known(rows: Seq<(i64, String)>) -> bool {
    forall|i: int| 0 <= i < rows.len() ==> (#[trigger] event_type_from_name(rows[i].1@)) is Some
}

/// The event that a stored row with a known event type stands for.
pub open spec fn row_event(row: (i64, String)) -> TrackerEvent {
    TrackerEvent { event_type: event_type_from_name(row.1@).unwrap(), timestamp: row.0 }
}

impl Tracker {
    /// Reads the stored rows (timestamp, event type name), in order, as events.
    /// A row whose event type is unknown gives a database error.
    pub fn events_from_rows(rows: &Vec<(i64, String)>) -> (r: Result<Vec<TrackerEvent>, ChronosError>)
        ensures
            r is Ok <==> rows_known(rows@),
            r matches Ok(events) ==> events@.len() == rows@.len() && forall|i: int|
                0 <= i < rows@.len() ==> #[trigger] events@[i] == row_event(rows@[i]),
            r matches Err(e) ==> e.error_type == ChronosErrorTypes::DatabaseError && e.message@
                == "Unknown event type"@,
    {
        let mut events: Vec<TrackerEvent> = Vec::new();
        let mut i: usize = 0;
        while i < rows.len()
            invariant
                0 <= i <= rows@.len(),
                events@.len() == i,
                forall|j: int| 0 <= j < i ==> (#[trigger] event_type_from_name(rows@[j].1@)) is Some,
                forall|j: int| 0 <= j < i ==> #[trigger] events@[j] == row_event(rows@[j]),
            decreases rows@.len() - i,
        {
            let row = &rows[i];
            match TrackerEventType::parse(row.1.as_str()) {
                Some(event_type) => events.push(TrackerEvent::new(event_type, row.0)),
                None => {
                    return Err(
                        ChronosError::new(
                            ChronosErrorTypes::DatabaseError,
                            String::from_str("Unknown event type"),
                        ),
                    );
                },
            }
            i = i + 1;
        }
        Ok(events)
    }
}


/// What a tracker holds, as mathematical values.
pub struct TrackerView {
    pub name: Seq<char>,
    pub created_at: i64,
    pub toggled: bool,
    pub last_start: i64,
    pub events: Seq<TrackerEvent>,
    pub sessions: Seq<TrackerSession>,
    pub time_per_day: Seq<Day>,
}

impl View for Tracker {
    type V = TrackerView;

    open spec fn view(&self) -> TrackerView {
        TrackerView {
            name: self.name@,
            created_at: self.created_at,
            toggled: self.toggled,
            last_start: self.last_start,
            events: self.events@,
            sessions: self.sessions@,
            time_per_day: self.time_per_day@,
        }
    }
}

impl Clone for Tracker {
    fn clone(&self) -> (r: Self)
        ensures
            r@ == self@,
    {
        let r = Tracker {
            name: self.name.clone(),
            created_at: self.created_at,
            toggled: self.toggled,
            last_start: self.last_start,
            events: self.events.clone(),
            sessions: self.sessions.clone(),
            time_per_day: self.time_per_day.clone(),
        };
        assert(r.events@ =~= self.events@);
        assert(r.sessions@ =~= self.sessions@);
        assert(r.time_per_day@ =~= self.time_per_day@);
        r
    }
}


/// Law: a well-formed tracker always has at least one entry in its time per day.
pub proof fn lemma_wf_has_a_day(t: Tracker)
    requires
        t.wf(),
    ensures
        t.time_per_day@.len() >= 1,
{
    let now = choose|now: i64| time_per_day_spec(t.sessions@, now as int) == Some(t.time_per_day@);
    lemma_sessions_no_longer_than_events(t.events@);
    lemma_time_per_day_shape(t.sessions@, now as int);
}

/// Law: every formatted duration ends with `seconds`.
pub proof fn lemma_format_epoch_ends_in_seconds(time: int)
    ensures
        ({
            let f = format_epoch_spec(time);
            &&& f.len() >= 7
            &&& f.subrange(f.len() - 7, f.len() as int) == "seconds"@
        }),
{
    reveal_strlit("seconds");
    reveal_strlit(" seconds");
    reveal_strlit("1 seconds");
    reveal_strlit("0 seconds");
    let f = format_epoch_spec(time);
    let seconds = trem(time, 60);
    let t1 = tdiv(time, 60);
    let t2 = tdiv(t1, 60);
    let t3 = tdiv(t2, 24);
    let days = trem(t3, 365);
    let s = second_part(seconds, days);
    let before = f.subrange(0, f.len() - s.len());
    assert(f == before + s) by {
        assert(f =~= before + s);
    }
    assert(s.subrange(s.len() - 7, s.len() as int) =~= "seconds"@);
    assert(f.subrange(f.len() - 7, f.len() as int) =~= s.subrange(s.len() - 7, s.len() as int));
}


/// `a` is split by `b` with truncating division into quotient `q` and
/// remainder `r`: `a == b * q + r`, `r` below `b` in size, and both with the
/// sign of `a`.
proof fn lemma_tdiv_trem(a: int, b: int)
    requires
        b > 0,
    ensures
        a == b * tdiv(a, b) + trem(a, b),
        a >= 0 ==> 0 <= trem(a, b) < b && tdiv(a, b) >= 0 && tdiv(a, b) <= a,
        a <= 0 ==> -b < trem(a, b) <= 0 && tdiv(a, b) <= 0 && tdiv(a, b) >= a,
{
    if a >= 0 {
        vstd::arithmetic::div_mod::lemma_fundamental_div_mod(a, b);
        vstd::arithmetic::div_mod::lemma_mod_pos_bound(a, b);
        vstd::arithmetic::div_mod::lemma_div_pos_is_pos(a, b);
        vstd::arithmetic::div_mod::lemma_div_is_ordered_by_denominator(a, 1, b);
    } else {
        vstd::arithmetic::div_mod::lemma_fundamental_div_mod(-a, b);
        vstd::arithmetic::div_mod::lemma_mod_pos_bound(-a, b);
        vstd::arithmetic::div_mod::lemma_div_pos_is_pos(-a, b);
        vstd::arithmetic::div_mod::lemma_div_is_ordered_by_denominator(-a, 1, b);
        assert(b * tdiv(a, b) == -(b * ((-a) / b))) by (nonlinear_arith)
            requires
                tdiv(a, b) == -((-a) / b),
        ;
    }
}

/// The counts of years, days, hours, minutes and seconds make up `time`, each
/// count is below its unit's bound in size, and all have the sign of `time`.
pub open spec fn epoch_counts(time: int, y: int, d: int, h: int, m: int, s: int) -> bool {
    &&& y * 31536000 + d * 86400 + h * 3600 + m * 60 + s == time
    &&& -365 < d < 365 && -24 < h < 24 && -60 < m < 60 && -60 < s < 60
    &&& time >= 0 ==> y >= 0 && d >= 0 && h >= 0 && m >= 0 && s >= 0
    &&& time <= 0 ==> y <= 0 && d <= 0 && h <= 0 && m <= 0 && s <= 0
}

/// Law: a formatted duration writes, in order, the years, days, hours, minutes
/// and seconds that make up the time: counts that add back up to the time,
/// each below its unit's bound (365 days, 24 hours, 60 minutes, 60 seconds).
pub proof fn lemma_format_epoch_counts(time: int)
    ensures
        exists|y: int, d: int, h: int, m: int, s: int|
            #[trigger] epoch_counts(time, y, d, h, m, s) && format_epoch_spec(time) == year_part(y)
                + day_part(d, y) + hour_part(h, d, y) + minute_part(m, h, d, y) + second_part(s, d),
{
    let s = trem(time, 60);
    let t1 = tdiv(time, 60);
    let m = trem(t1, 60);
    let t2 = tdiv(t1, 60);
    let h = trem(t2, 24);
    let t3 = tdiv(t2, 24);
    let d = trem(t3, 365);
    let y = tdiv(t3, 365);
    lemma_tdiv_trem(time, 60);
    lemma_tdiv_trem(t1, 60);
    lemma_tdiv_trem(t2, 24);
    lemma_tdiv_trem(t3, 365);
    assert(y * 31536000 + d * 86400 + h * 3600 + m * 60 + s == time) by (nonlinear_arith)
        requires
            time == 60 * t1 + s,
            t1 == 60 * t2 + m,
            t2 == 24 * t3 + h,
            t3 == 365 * y + d,
    ;
    assert(epoch_counts(time, y, d, h, m, s));
}


/// The sum of the durations of the sessions.
pub open spec fn total_duration(ss: Seq<TrackerSession>) -> int
    decreases ss.len(),
{
    if ss.len() == 0 {
        0
    } else {
        total_duration(ss.drop_last()) + ss.last().duration
    }
}

/// The sessions that start at or after `threshold`.
pub open spec fn sessions_since(ss: Seq<TrackerSession>, threshold: int) -> Seq<TrackerSession> {
    ss.filter(|x: TrackerSession| x.start_time >= threshold)
}

proof fn lemma_window_total_is_filtered_sum(ss: Seq<TrackerSession>, threshold: int)
    requires
        window_total(ss, threshold) is Some,
    ensures
        window_total(ss, threshold).unwrap() == total_duration(sessions_since(ss, threshold)),
    decreases ss.len(),
{
    reveal(Seq::filter);
    if ss.len() > 0 {
        lemma_window_total_is_filtered_sum(ss.drop_last(), threshold);
        let sub = sessions_since(ss.drop_last(), threshold);
        if ss.last().start_time >= threshold {
            assert(sessions_since(ss, threshold) == sub.push(ss.last()));
            assert(sub.push(ss.last()).drop_last() =~= sub);
        } else {
            assert(sessions_since(ss, threshold) == sub);
        }
    }
}

/// Law: a report over the last `days` days at time `now` counts exactly the
/// sessions that start at or after `now` minus `days` days, plus, when the
/// tracker runs, the time since its last start.
pub proof fn lemma_report_counts_window(
    ss: Seq<TrackerSession>,
    toggled: bool,
    last_start: i64,
    days: usize,
    now: int,
)
    requires
        report_total(ss, toggled, last_start, days, now) is Some,
    ensures
        report_total(ss, toggled, last_start, days, now).unwrap() == total_duration(
            sessions_since(ss, now - 86400 * ((days as i64) as int)),
        ) + if toggled {
            now - last_start
        } else {
            0
        },
{
    lemma_window_total_is_filtered_sum(ss, now - DAY_SECONDS * ((days as i64) as int));
}


/// The sum of the durations of the sessions at indices `a` up to (not including) `b`.
pub open spec fn duration_sum(ss: Seq<TrackerSession>, a: int, b: int) -> int
    decreases b - a,
{
    if a >= b {
        0
    } else {
        duration_sum(ss, a, b - 1) + ss[b - 1].duration
    }
}

/// Where the `i`-th group of sessions begins, given the indices `ks` of the
/// sessions that open a new day: group 0 begins at the first session, and
/// group `i > 0` at the session `ks[i - 1]` that opened it.
pub open spec fn group_start(ks: Seq<int>, i: int) -> int {
    if i == 0 {
        0
    } else {
        ks[i - 1]
    }
}

/// Where the `i`-th group of sessions ends (exclusive): at the next opening
/// session, or at the end for the last group.
pub open spec fn group_end(ks: Seq<int>, i: int, n: int) -> int {
    if i < ks.len() {
        ks[i]
    } else {
        n
    }
}

/// `ks` lists, in order, the sessions that open a new day: going through the
/// sessions in order with day index 1 first, a session whose start lies before
/// the window of the current day (`now` minus that many days) opens the next
/// day, and every other session starts within the current day's window.
pub open spec fn opened_days(ss: Seq<TrackerSession>, now: int, ks: Seq<int>) -> bool {
    &&& forall|i: int| 0 <= i < ks.len() ==> 0 <= #[trigger] ks[i] < ss.len()
    &&& forall|i: int, j: int| 0 <= i < j < ks.len() ==> #[trigger] ks[i] < #[trigger] ks[j]
    &&& forall|i: int|
        0 <= i < ks.len() ==> ss[#[trigger] ks[i]].start_time < now - 86400 * (i + 1)
    &&& forall|i: int, k: int|
        #![trigger ss[k], group_start(ks, i)]
        0 <= i <= ks.len() && group_start(ks, i) <= k < group_end(ks, i, ss.len() as int) && (
        i == 0 || k != ks[i - 1]) ==> ss[k].start_time >= now - 86400 * (i + 1)
}

proof fn lemma_duration_sum_prefix(ss: Seq<TrackerSession>, a: int, b: int)
    requires
        ss.len() > 0,
        0 <= a,
        b <= ss.len() - 1,
    ensures
        duration_sum(ss.drop_last(), a, b) == duration_sum(ss, a, b),
    decreases b - a,
{
    if a < b {
        lemma_duration_sum_prefix(ss, a, b - 1);
        assert(ss.drop_last()[b - 1] == ss[b - 1]);
    }
}

proof fn lemma_scan_days_groups(ss: Seq<TrackerSession>, now: int) -> (ks: Seq<int>)
    requires
        scan_days(ss, now) is Some,
        length_ok(ss.len()),
    ensures
        ({
            let (index, current, days) = scan_days(ss, now).unwrap();
            &&& ks.len() == days.len()
            &&& index == ks.len() + 1
            &&& opened_days(ss, now, ks)
            &&& forall|i: int|
                0 <= i < ks.len() ==> #[trigger] days[i] == Day {
                    day_index: (i + 2) as usize,
                    time: ss[ks[i]].duration,
                }
            &&& current == duration_sum(ss, group_start(ks, ks.len() as int), ss.len() as int)
        }),
    decreases ss.len(),
{
    if ss.len() == 0 {
        Seq::empty()
    } else {
        let n = ss.len() as int;
        let prev = ss.drop_last();
        let kp = lemma_scan_days_groups(prev, now);
        lemma_scan_days_shape(prev, now);
        let (index, current, days) = scan_days(prev, now).unwrap();
        let sn = ss.last();
        assert(forall|k: int| 0 <= k < n - 1 ==> #[trigger] prev[k] == ss[k]);
        let g = group_start(kp, kp.len() as int);
        assert(0 <= g <= n - 1) by {
            if kp.len() > 0 {
                assert(0 <= kp[kp.len() - 1] < n - 1);
            }
        }
        lemma_duration_sum_prefix(ss, g, n - 1);
        if sn.start_time >= now - DAY_SECONDS * index {
            let ks = kp;
            assert forall|i: int, k: int|
                #![trigger ss[k], group_start(ks, i)]
                0 <= i <= ks.len() && group_start(ks, i) <= k < group_end(ks, i, n) && (i == 0 || k
                    != ks[i - 1]) implies ss[k].start_time >= now - 86400 * (i + 1) by {
                if k < n - 1 {
                    if i < ks.len() {
                        assert(group_end(kp, i, n - 1) == group_end(ks, i, n));
                    }
                    assert(prev[k] == ss[k]);
                } else {
                    if i < ks.len() {
                        assert(ks[i] < n - 1);
                    }
                }
            }
            assert(opened_days(ss, now, ks));
            ks
        } else {
            let ks = kp.push(n - 1);
            assert forall|i: int, j: int| 0 <= i < j < ks.len() implies #[trigger] ks[i] < #[trigger] ks[j] by {
                if j == ks.len() - 1 {
                    assert(ks[i] == kp[i]);
                }
            }
            assert forall|i: int| 0 <= i < ks.len() implies ss[#[trigger] ks[i]].start_time < now
                - 86400 * (i + 1) by {
                if i < kp.len() {
                    assert(ks[i] == kp[i]);
                    assert(prev[kp[i]] == ss[kp[i]]);
                }
            }
            assert forall|i: int, k: int|
                #![trigger ss[k], group_start(ks, i)]
                0 <= i <= ks.len() && group_start(ks, i) <= k < group_end(ks, i, n) && (i == 0 || k
                    != ks[i - 1]) implies ss[k].start_time >= now - 86400 * (i + 1) by {
                if i <= kp.len() {
                    assert(group_start(ks, i) == group_start(kp, i));
                    assert(group_end(ks, i, n) == group_end(kp, i, n - 1));
                    assert(prev[k] == ss[k]);
                }
            }
            assert(opened_days(ss, now, ks));
            let days2 = scan_days(ss, now).unwrap().2;
            assert forall|i: int| 0 <= i < ks.len() implies #[trigger] days2[i] == Day {
                day_index: (i + 2) as usize,
                time: ss[ks[i]].duration,
            } by {
                if i < kp.len() {
                    assert(ks[i] == kp[i]);
                    assert(prev[kp[i]] == ss[kp[i]]);
                }
            }
            assert(duration_sum(ss, n - 1, n - 1) == 0);
            assert(duration_sum(ss, n - 1, n) == sn.duration);
            ks
        }
    }
}

/// Law: the time per day partitions the sessions, in order, into days: the
/// sessions listed in `ks` each open a new day (they start before the current
/// day's window) and all others start within their day's window; each day an
/// opening session begins is first recorded with that session's duration alone,
/// and the last entry, for the current day, holds the sum of the durations of
/// the sessions from the last opening session on (or of all sessions when none
/// opened a day).
pub proof fn lemma_time_per_day_groups(ss: Seq<TrackerSession>, now: int)
    requires
        time_per_day_spec(ss, now) is Some,
        length_ok(ss.len()),
    ensures
        exists|ks: Seq<int>|
            #[trigger] opened_days(ss, now, ks) && ({
                let r = time_per_day_spec(ss, now).unwrap();
                &&& r.len() == ks.len() + 1
                &&& forall|i: int|
                    0 <= i < ks.len() ==> r[i].day_index == i + 2 && #[trigger] r[i].time
                        == ss[ks[i]].duration
                &&& r.last().day_index == ks.len() + 1
                &&& r.last().time == duration_sum(ss, group_start(ks, ks.len() as int), ss.len() as int)
            }),
{
    let ks = lemma_scan_days_groups(ss, now);
    lemma_scan_days_shape(ss, now);
    lemma_time_per_day_shape(ss, now);
    let (index, current, days) = scan_days(ss, now).unwrap();
    let r = time_per_day_spec(ss, now).unwrap();
    assert forall|i: int| 0 <= i < ks.len() implies r[i].day_index == i + 2 && #[trigger] r[i].time
        == ss[ks[i]].duration by {
        assert(r[i] == days[i]);
    }
    assert(opened_days(ss, now, ks));
}

} // verus!
