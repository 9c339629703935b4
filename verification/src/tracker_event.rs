use vstd::prelude::*;
use crate::text::str_equal;

verus! {

/// Whether an event starts or stops a tracker.
#[derive(Clone, Copy, Debug, PartialEq, Eq, Structural)]
pub enum TrackerEventType {
    Start,
    Stop,
}

/// A start or stop of a tracker at a point in time (seconds since the epoch).
#[derive(Clone, Copy, Debug, PartialEq, Eq, Structural)]
pub struct TrackerEvent {
    pub event_type: TrackerEventType,
    pub timestamp: i64,
}

impl TrackerEvent {
    pub fn new(event_type: TrackerEventType, timestamp: i64) -> (event: Self)
        ensures
            event.event_type == event_type,
            event.timestamp == timestamp,
    {
        Self { event_type, timestamp }
    }
}

/// The event type that a stored name stands for: `Start` or `start`, `Stop` or `stop`.
pub open spec fn event_type_from_name(name: Seq<char>) -> Option<TrackerEventType> {
    if name == "Start"@ || name == "start"@ {
        Some(TrackerEventType::Start)
    } else if name == "Stop"@ || name == "stop"@ {
        Some(TrackerEventType::Stop)
    } else {
        None
    }
}

/// The name under which an event type is stored.
pub open spec fn event_type_name(event_type: TrackerEventType) -> Seq<char> {
    match event_type {
        TrackerEventType::Start => "Start"@,
        TrackerEventType::Stop => "Stop"@,
    }
}

impl TrackerEventType {
    /// Reads a stored event type name; `None` for a name that is none of
    /// `Start`, `start`, `Stop`, `stop`.
    pub fn parse(name: &str) -> (r: Option<TrackerEventType>)
        ensures
            r == event_type_from_name(name@),
    {
        if str_equal(name, "Start") || str_equal(name, "start") {
            Some(TrackerEventType::Start)
        } else if str_equal(name, "Stop") || str_equal(name, "stop") {
            Some(TrackerEventType::Stop)
        } else {
            None
        }
    }

    /// The name under which this event type is stored.
    pub fn name(&self) -> (r: &'static str)
        ensures
            r@ == event_type_name(*self),
    {
        match self {
            TrackerEventType::Start => "Start",
            TrackerEventType::Stop => "Stop",
        }
    }
}

/// Law: reading back the stored name of an event type gives that event type.
pub proof fn lemma_name_parse_roundtrip(event_type: TrackerEventType)
    ensures
        event_type_from_name(event_type_name(event_type)) == Some(event_type),
{
    reveal_strlit("Start");
    reveal_strlit("start");
    reveal_strlit("Stop");
    reveal_strlit("stop");
    match event_type {
        TrackerEventType::Start => {},
        TrackerEventType::Stop => {
            assert("Stop"@ != "Start"@ ) by { assert("Stop"@[2] != "Start"@[2]); }
            assert("Stop"@ != "start"@ ) by { assert("Stop"@[0] != "start"@[0]); }
        },
    }
}

} // verus!
