use zoom_transcript_edit::clock::TimeOfDay;
use zoom_transcript_edit::clock::parse_time;
use zoom_transcript_edit::clock::reconstitute_time_str;
use zoom_transcript_edit::line::ElapsedEntry;
use zoom_transcript_edit::line::FormatError;
use zoom_transcript_edit::line::TimestampedEntry;
use zoom_transcript_edit::line::line_to_entry;
use zoom_transcript_edit::line::render_line;
use zoom_transcript_edit::naming::qda_output_path;
use zoom_transcript_edit::normalize::NormalizerState;
use zoom_transcript_edit::normalize::normalize;
use zoom_transcript_edit::process::process_lines;

fn time(hour: u8, minute: u8, second: u8) -> TimeOfDay {
    TimeOfDay { hour, minute, second }
}

fn entry(hour: u8, minute: u8, second: u8, text: &str) -> TimestampedEntry {
    TimestampedEntry {
        time: time(hour, minute, second),
        transcription: String::from(text),
    }
}

#[test]
fn parse_time_accepts_well_formed_token() {
    let t = parse_time("01:02:03").unwrap();
    assert_eq!(t, time(1, 2, 3));
}

#[test]
fn parse_time_rejects_malformed_tokens() {
    assert!(parse_time("1:02:03").is_none());
    assert!(parse_time("01:02:03 ").is_none());
    assert!(parse_time("24:00:00").is_none());
    assert!(parse_time("00:60:00").is_none());
    assert!(parse_time("00:00:60").is_none());
    assert!(parse_time("ab:cd:ef").is_none());
    assert!(parse_time("01-02-03").is_none());
    assert!(parse_time("").is_none());
}

#[test]
fn round_trip_line_parse() {
    let entry = line_to_entry("01:02:03 hello world").unwrap();
    assert_eq!(entry.time, time(1, 2, 3));
    assert_eq!(entry.transcription, "hello world");
}

#[test]
fn line_without_space_is_a_format_error() {
    assert_eq!(
        line_to_entry("01:02:03"),
        Err(FormatError::MissingSeparator)
    );
    assert_eq!(line_to_entry(""), Err(FormatError::MissingSeparator));
}

#[test]
fn line_with_bad_token_is_a_format_error() {
    assert_eq!(line_to_entry("1:02:03 x"), Err(FormatError::BadTimeToken));
    assert_eq!(line_to_entry(" leading"), Err(FormatError::BadTimeToken));
}

#[test]
fn first_emitted_duration_is_zero() {
    let out = normalize(vec![
        entry(12, 34, 56, "a"),
        entry(13, 0, 0, "b"),
    ]);
    assert_eq!(out[0].seconds, 0);
}

#[test]
fn durations_are_monotonically_non_decreasing() {
    let out = normalize(vec![
        entry(23, 0, 0, "x"),
        entry(1, 0, 0, "y"),
        entry(1, 0, 0, "same"),
        entry(23, 30, 0, "z"),
        entry(0, 0, 1, "w"),
    ]);
    for pair in out.windows(2) {
        assert!(pair[0].seconds <= pair[1].seconds);
    }
}

#[test]
fn day_rollover_scenario() {
    let lines = vec![
        String::from("23:59:00 a"),
        String::from("00:01:00 b"),
    ];
    let out = process_lines(&lines).unwrap();
    assert_eq!(out, vec!["00:00:00 a", "00:02:00 b"]);
}

#[test]
fn multi_rollover_scenario() {
    let mut state = NormalizerState::new();
    let first = state.step(entry(23, 0, 0, "x"));
    assert_eq!(state.days_elapsed, 0);
    assert_eq!(first.seconds, 0);
    let second = state.step(entry(1, 0, 0, "y"));
    assert_eq!(state.days_elapsed, 1);
    assert_eq!(second.seconds, 2 * 3600);
    let third = state.step(entry(23, 30, 0, "z"));
    assert_eq!(state.days_elapsed, 1);
    assert_eq!(third.seconds, 24 * 3600 + 30 * 60);
}

#[test]
fn equal_timestamps_are_not_a_rollover() {
    let mut state = NormalizerState::new();
    state.step(entry(5, 0, 0, "a"));
    state.step(entry(5, 0, 0, "b"));
    assert_eq!(state.days_elapsed, 0);
}

#[test]
fn malformed_line_stops_the_run_at_that_line() {
    let lines = vec![
        String::from("23:59:00 a"),
        String::from("no-separator-here"),
        String::from("00:01:00 b"),
    ];
    let bad = process_lines(&lines).unwrap_err();
    assert_eq!(bad.index, 1);
    assert_eq!(bad.kind, FormatError::MissingSeparator);
}

#[test]
fn bad_time_token_stops_the_run_at_that_line() {
    let lines = vec![
        String::from("23:59:00 a"),
        String::from("9:00 short"),
    ];
    let bad = process_lines(&lines).unwrap_err();
    assert_eq!(bad.index, 1);
    assert_eq!(bad.kind, FormatError::BadTimeToken);
}

#[test]
fn empty_input_yields_empty_output() {
    let out = process_lines(&Vec::new()).unwrap();
    assert!(out.is_empty());
}

#[test]
fn rendering_is_zero_padded() {
    assert_eq!(reconstitute_time_str(0), "00:00:00");
    assert_eq!(reconstitute_time_str(3661), "01:01:01");
    assert_eq!(reconstitute_time_str(23 * 3600 + 59 * 60 + 59), "23:59:59");
}

#[test]
fn rendering_wraps_modulo_24_hours() {
    assert_eq!(reconstitute_time_str(86400), "00:00:00");
    assert_eq!(reconstitute_time_str(86400 + 120), "00:02:00");
    assert_eq!(reconstitute_time_str(3 * 86400 + 3600), "01:00:00");
}

#[test]
fn render_line_joins_duration_and_payload() {
    let rendered = render_line(&ElapsedEntry {
        seconds: 120,
        transcription: String::from("hello"),
    });
    assert_eq!(rendered, "00:02:00 hello");
}

#[test]
fn output_path_inserts_qda_before_last_extension() {
    assert_eq!(qda_output_path("notes.txt"), "notes.qda.txt");
    assert_eq!(qda_output_path("a.b.c"), "a.b.qda.c");
}

#[test]
fn output_path_appends_qda_without_extension() {
    assert_eq!(qda_output_path("notes"), "notes.qda");
    assert_eq!(qda_output_path(""), ".qda");
}

#[test]
fn payload_may_hold_more_spaces() {
    let lines = vec![String::from("00:00:00 a b  c")];
    let out = process_lines(&lines).unwrap();
    assert_eq!(out, vec!["00:00:00 a b  c"]);
}
