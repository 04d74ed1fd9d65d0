use kubernetes_logs::event::{LogEvent, Tag};
use kubernetes_logs::kubernetes_logs::parser;
use kubernetes_logs::kubernetes_logs::partial_events_merger;
use kubernetes_logs::transforms::chain::Two;

fn record(message: &str, tag: Tag, timestamp: i64, file: &str) -> LogEvent {
    LogEvent {
        message: message.to_string(),
        timestamp: Some(timestamp),
        stream: Some("stdout".to_string()),
        multiline_tag: Some(tag),
        source_type: None,
        file: Some(file.to_string()),
    }
}

#[test]
fn fragments_merge_into_one_record() {
    let mut merger = partial_events_merger::build(true);
    let file = "/var/log/pods/p/c/0.log";
    assert!(merger.transform(record("hel", Tag::Partial, 1, file)).is_none());
    assert!(merger.transform(record("lo, ", Tag::Partial, 2, file)).is_none());
    let out = merger
        .transform(record("world", Tag::Final, 3, file))
        .expect("the final fragment closes the record");
    assert_eq!(out.message, "hello, world");
    // The closing record's non-message fields win.
    assert_eq!(out.timestamp, Some(3));
    assert_eq!(out.multiline_tag, Some(Tag::Final));
}

#[test]
fn streams_merge_independently() {
    let mut merger = partial_events_merger::build(true);
    assert!(merger.transform(record("a", Tag::Partial, 1, "f1")).is_none());
    assert!(merger.transform(record("b", Tag::Partial, 2, "f2")).is_none());
    let out1 = merger.transform(record("1", Tag::Final, 3, "f1")).unwrap();
    let out2 = merger.transform(record("2", Tag::Final, 4, "f2")).unwrap();
    assert_eq!(out1.message, "a1");
    assert_eq!(out2.message, "b2");
}

#[test]
fn a_final_record_without_pending_fragments_passes_through() {
    let mut merger = partial_events_merger::build(true);
    let out = merger.transform(record("whole", Tag::Final, 9, "f")).unwrap();
    assert_eq!(out.message, "whole");
    assert_eq!(out.timestamp, Some(9));
}

#[test]
fn a_disabled_merger_passes_fragments_through() {
    let mut merger = partial_events_merger::build(false);
    let out = merger
        .transform(record("frag", Tag::Partial, 1, "f"))
        .expect("disabled: nothing is withheld");
    assert_eq!(out.message, "frag");
    assert_eq!(out.multiline_tag, Some(Tag::Partial));
}

#[test]
fn flushing_a_stream_drains_its_pending_buffer() {
    let mut merger = partial_events_merger::build(true);
    assert!(merger.transform(record("orph", Tag::Partial, 1, "f")).is_none());
    let flushed = merger.flush_stream("f").expect("a buffer was pending");
    assert_eq!(flushed.message, "orph");
    assert_eq!(flushed.file, Some("f".to_string()));
    assert!(merger.flush_stream("f").is_none());
}

#[test]
fn cri_partial_sequence_emits_exactly_one_record() {
    let mut pipeline = Two {
        first: parser::build(),
        second: partial_events_merger::build(true),
    };
    let file = "/var/log/pods/p/c/0.log";
    let lines = [
        "2024-01-02T03:04:05Z stdout P hel",
        "2024-01-02T03:04:06Z stdout P lo, ",
        "2024-01-02T03:04:07Z stdout F world",
    ];
    let mut emitted = Vec::new();
    for line in lines {
        let event = LogEvent {
            message: line.to_string(),
            timestamp: None,
            stream: None,
            multiline_tag: None,
            source_type: None,
            file: Some(file.to_string()),
        };
        if let Some(out) = pipeline.transform(event) {
            emitted.push(out);
        }
    }
    assert_eq!(emitted.len(), 1);
    assert_eq!(emitted[0].message, "hello, world");
    assert_eq!(emitted[0].stream, Some("stdout".to_string()));
}
