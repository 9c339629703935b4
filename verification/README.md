# chronos

A time tracker. Each tracker stores start and stop events; from them chronos
builds work sessions, a per-day breakdown counted back from the present, and
human readable reports. It is driven from the command line (`list`, `create`,
`delete`, `toggle`, `report`) or from a terminal interface, and can serve a
small web frontend.

Layout:

- `src/` is the library, written in Verus and proved:
  - `tracker.rs`: sessions from events, time per day, reports, duration
    formatting, and the laws that tie them together;
  - `chronos.rs`: command planning and the terminal interface as a state
    machine that asks for database work through actions;
  - `setup.rs`: the retry policy for getting a database connection;
  - `web.rs`: request path handling for the embedded frontend;
  - `text.rs`, `clock.rs`, `day.rs`, `tracker_event.rs`,
    `tracker_session.rs`: numbers as text, the system clock, and the data types.
- `app/` is the program around it: SQLite access, the terminal drawing and
  key reading, and the web server.
- `tests/` runs the library on concrete values.
