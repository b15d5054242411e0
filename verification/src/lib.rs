//! Elapsed-time normalizer for timestamped transcripts.
//!
//! Each input line carries a wall-clock `HH:MM:SS` prefix. The library
//! parses those prefixes, detects day rollover whenever the clock reading
//! decreases between consecutive entries, and rewrites every timestamp as
//! the elapsed duration since the first entry, rendered again as
//! `HH:MM:SS` (durations of a day or more wrap modulo 24 hours for
//! display).

pub mod clock;
pub mod line;
pub mod naming;
pub mod normalize;
pub mod process;
