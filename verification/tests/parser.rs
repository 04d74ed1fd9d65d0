use kubernetes_logs::event::{LogEvent, Tag};
use kubernetes_logs::kubernetes_logs::create_event;
use kubernetes_logs::kubernetes_logs::parser;
use kubernetes_logs::kubernetes_logs::parser::{cri, docker};

const T_2024_01_02T03_04_05_UTC_MS: i64 = 1_704_164_645_000;

fn line_event(line: &str) -> LogEvent {
    create_event(line.to_string(), Some("/var/log/pods/p/c/0.log".to_string()))
}

#[test]
fn cri_line_parses_to_its_parts() {
    let mut parser = cri::build();
    let out = parser
        .transform(line_event("2024-01-02T03:04:05.000Z stdout F hello"))
        .expect("a well-formed CRI line parses");
    assert_eq!(out.message, "hello");
    assert_eq!(out.stream, Some("stdout".to_string()));
    assert_eq!(out.multiline_tag, Some(Tag::Final));
    assert_eq!(out.timestamp, Some(T_2024_01_02T03_04_05_UTC_MS));
    let independent = chrono::DateTime::parse_from_rfc3339("2024-01-02T03:04:05Z")
        .unwrap()
        .timestamp_millis();
    assert_eq!(out.timestamp, Some(independent));
}

#[test]
fn cri_rejects_malformed_lines() {
    let mut parser = cri::build();
    assert!(parser.transform(line_event("no-spaces-here")).is_none());
    assert!(parser.transform(line_event(" stdout F leading-space")).is_none());
    assert!(parser
        .transform(line_event("2024-01-02T03:04:05Z stdxxx F msg"))
        .is_none());
    assert!(parser
        .transform(line_event("2024-01-02T03:04:05Z stdout X msg"))
        .is_none());
    assert!(parser.transform(line_event("not-a-time stdout F msg")).is_none());
    assert!(parser.transform(line_event("2024-01-02T03:04:05Z stdout F")).is_none());
}

#[test]
fn cri_keeps_an_empty_message_and_a_partial_tag() {
    let mut parser = cri::build();
    let out = parser
        .transform(line_event("2024-01-02T03:04:05Z stderr P "))
        .expect("an empty message is still a record");
    assert_eq!(out.message, "");
    assert_eq!(out.stream, Some("stderr".to_string()));
    assert_eq!(out.multiline_tag, Some(Tag::Partial));
}

#[test]
fn docker_line_parses_and_renames_its_fields() {
    let mut parser = docker::build();
    let out = parser
        .transform(line_event(
            r#"{"log":"hi\n","stream":"stderr","time":"2024-01-02T03:04:05Z"}"#,
        ))
        .expect("a well-formed Docker line parses");
    assert_eq!(out.message, "hi\n");
    assert_eq!(out.stream, Some("stderr".to_string()));
    assert_eq!(out.timestamp, Some(T_2024_01_02T03_04_05_UTC_MS));
    assert_eq!(out.multiline_tag, Some(Tag::Final));
}

#[test]
fn docker_marks_entries_without_a_newline_as_partial() {
    let mut parser = docker::build();
    let out = parser
        .transform(line_event(
            r#"{"log":"cut off","stream":"stdout","time":"2024-01-02T03:04:05Z"}"#,
        ))
        .unwrap();
    assert_eq!(out.multiline_tag, Some(Tag::Partial));
}

#[test]
fn docker_rejects_missing_fields_and_bad_times() {
    let mut parser = docker::build();
    assert!(parser
        .transform(line_event(r#"{"stream":"stdout","time":"2024-01-02T03:04:05Z"}"#))
        .is_none());
    assert!(parser
        .transform(line_event(r#"{"log":"x","time":"2024-01-02T03:04:05Z"}"#))
        .is_none());
    assert!(parser.transform(line_event(r#"{"log":"x","stream":"stdout"}"#)).is_none());
    assert!(parser
        .transform(line_event(r#"{"log":"x","stream":"stdout","time":"yesterday"}"#))
        .is_none());
    assert!(parser.transform(line_event("plain text")).is_none());
    assert!(parser.transform(line_event(r#"{"log":1,"stream":"s","time":2}"#)).is_none());
}

#[test]
fn picker_locks_the_first_accepted_format() {
    let mut picker = parser::build();
    let first = picker
        .transform(line_event("2024-01-02T03:04:05Z stdout F one"))
        .expect("first line picks CRI");
    assert_eq!(first.message, "one");
    // A line that CRI rejects is now dropped, not passed through: the
    // decision is never revisited for the stream.
    assert!(picker.transform(line_event("garbage line")).is_none());
    let third = picker
        .transform(line_event("2024-01-02T03:04:06Z stdout F two"))
        .expect("later CRI lines still parse");
    assert_eq!(third.message, "two");
}

#[test]
fn picker_prefers_docker_over_cri_and_falls_back_to_passthrough() {
    let mut picker = parser::build();
    let docker_line =
        r#"{"log":"d\n","stream":"stdout","time":"2024-01-02T03:04:05Z"}"#;
    let out = picker.transform(line_event(docker_line)).unwrap();
    assert_eq!(out.message, "d\n");

    let mut other = parser::build();
    let raw = other
        .transform(line_event("neither json nor cri"))
        .expect("passthrough always succeeds");
    assert_eq!(raw.message, "neither json nor cri");
    assert_eq!(raw.multiline_tag, None);
    // Passthrough is locked in: even a valid CRI line stays raw on this
    // stream.
    let still_raw = other
        .transform(line_event("2024-01-02T03:04:05Z stdout F hello"))
        .unwrap();
    assert_eq!(still_raw.message, "2024-01-02T03:04:05Z stdout F hello");
}

#[test]
fn picker_decides_per_stream() {
    let mut picker = parser::build();
    let cri_line = "2024-01-02T03:04:05Z stdout F from-cri";
    let mut ev_a = line_event(cri_line);
    ev_a.file = Some("/var/log/pods/a/c/0.log".to_string());
    let mut ev_b = line_event("raw only");
    ev_b.file = Some("/var/log/pods/b/c/0.log".to_string());
    assert_eq!(picker.transform(ev_a).unwrap().message, "from-cri");
    assert_eq!(picker.transform(ev_b).unwrap().message, "raw only");
    // Stream b stays passthrough even for a CRI-shaped line.
    let mut ev_b2 = line_event(cri_line);
    ev_b2.file = Some("/var/log/pods/b/c/0.log".to_string());
    assert_eq!(picker.transform(ev_b2).unwrap().message, cri_line);
}

#[test]
fn events_keep_their_source_type_through_parsing() {
    let mut picker = parser::build();
    let out = picker
        .transform(line_event("2024-01-02T03:04:05Z stdout F hello"))
        .unwrap();
    assert_eq!(out.source_type, Some("kubernetes_logs".to_string()));
    assert_eq!(out.file, Some("/var/log/pods/p/c/0.log".to_string()));
}
