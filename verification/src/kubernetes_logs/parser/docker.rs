//! Parser for the Docker JSON log format: one JSON object per line, with a
//! `log` payload, a `stream` name and an RFC 3339 `time`.

use crate::event::{EventModel, LogEvent, Tag};
use crate::kubernetes_logs::parser::{
    extract_json_string_field, json_string_field, parse_rfc3339_utc_millis, rfc3339_to_millis,
};
use vstd::prelude::*;
use vstd::string::StrSliceExecFns;

verus! {

/// Docker's partial marker: a payload cut off before its newline is a
/// fragment; one that ends with a newline is final.
pub open spec fn docker_tag(message: Seq<char>) -> Tag {
    if message.len() > 0 && message[message.len() - 1] == '\n' {
        Tag::Final
    } else {
        Tag::Partial
    }
}

/// What the Docker parser makes of a record: the line must be a JSON object
/// whose `log`, `stream` and `time` fields are strings, and `time` must be a
/// strict RFC 3339 date-time. `log` becomes the message — keeping its
/// trailing newline — `time` the UTC timestamp, and the fragment marker
/// follows [`docker_tag`]; any other line is rejected.
pub open spec fn spec_docker_transform(e: EventModel) -> Option<EventModel> {
    match (
        json_string_field(e.message, "log"@),
        json_string_field(e.message, "stream"@),
        json_string_field(e.message, "time"@),
    ) {
        (Some(log), Some(stream), Some(time)) => match rfc3339_to_millis(time) {
            Some(ts) => Some(
                EventModel {
                    message: log,
                    timestamp: Some(ts),
                    stream: Some(stream),
                    multiline_tag: Some(docker_tag(log)),
                    source_type: e.source_type,
                    file: e.file,
                },
            ),
            None => None,
        },
        _ => None,
    }
}

/// Parser for the Docker JSON log format.
pub struct Docker;

impl Docker {
    /// Parses one record, as [`spec_docker_transform`] says.
    pub fn transform(&mut self, event: LogEvent) -> (r: Option<LogEvent>)
        ensures
            match r {
                Some(out) => spec_docker_transform(event@) == Some(out@),
                None => spec_docker_transform(event@) is None,
            },
    {
        let log = match extract_json_string_field(event.message.as_str(), "log") {
            Some(v) => v,
            None => {
                return None;
            },
        };
        let stream = match extract_json_string_field(event.message.as_str(), "stream") {
            Some(v) => v,
            None => {
                return None;
            },
        };
        let time = match extract_json_string_field(event.message.as_str(), "time") {
            Some(v) => v,
            None => {
                return None;
            },
        };
        let ts = match parse_rfc3339_utc_millis(time.as_str()) {
            Some(v) => v,
            None => {
                return None;
            },
        };
        let n = log.as_str().unicode_len();
        let tag = if n > 0 && log.as_str().get_char(n - 1) == '\n' {
            Tag::Final
        } else {
            Tag::Partial
        };
        Some(
            LogEvent {
                message: log,
                timestamp: Some(ts),
                stream: Some(stream),
                multiline_tag: Some(tag),
                source_type: event.source_type,
                file: event.file,
            },
        )
    }
}

/// Builds the Docker parser.
pub fn build() -> (r: Docker) {
    Docker
}

} // verus!
