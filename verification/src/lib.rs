//! A time tracker: trackers record start and stop events, which are turned
//! into work sessions, a per-day breakdown and human readable reports.

pub mod chronos;
pub mod clock;
pub mod day;
pub mod setup;
pub mod text;
pub mod tracker;
pub mod tracker_event;
pub mod tracker_session;
pub mod web;
