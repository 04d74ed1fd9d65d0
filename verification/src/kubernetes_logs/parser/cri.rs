//! Parser for the CRI text log format:
//! `<timestamp> <stdout|stderr> <P|F> <message>`.

use crate::event::{EventModel, LogEvent, Tag};
use crate::kubernetes_logs::parser::{parse_rfc3339_utc_millis, rfc3339_to_millis};
use crate::strutil::{find_char, find_char_in, str_eq, substring_owned};
use vstd::prelude::*;
use vstd::string::StrSliceExecFns;

verus! {

/// The four parts of a CRI line: the timestamp token (the non-empty run of
/// characters before the first space), the stream name (`stdout` or
/// `stderr`), the fragment tag (`P` for a partial line, `F` for a final one),
/// and the message (everything after the tag's trailing space, possibly
/// empty). A line of any other shape has no parts.
pub open spec fn cri_split(line: Seq<char>) -> Option<(Seq<char>, Seq<char>, Tag, Seq<char>)> {
    match find_char(line, ' ') {
        Some(i) => if i > 0 {
            let ts = line.subrange(0, i);
            let rest = line.subrange(i + 1, line.len() as int);
            if rest.len() >= 9 && (rest.subrange(0, 6) == "stdout"@ || rest.subrange(0, 6)
                == "stderr"@) && rest[6] == ' ' && (rest[7] == 'P' || rest[7] == 'F') && rest[8]
                == ' ' {
                Some(
                    (
                        ts,
                        rest.subrange(0, 6),
                        if rest[7] == 'P' {
                            Tag::Partial
                        } else {
                            Tag::Final
                        },
                        rest.subrange(9, rest.len() as int),
                    ),
                )
            } else {
                None
            }
        } else {
            None
        },
        None => None,
    }
}

/// What the CRI parser makes of a record: the line must split as
/// [`cri_split`] says and its timestamp token must be a strict RFC 3339
/// date-time; the parts become the record's fields.
pub open spec fn spec_cri_transform(e: EventModel) -> Option<EventModel> {
    match cri_split(e.message) {
        Some((ts, stream, tag, msg)) => match rfc3339_to_millis(ts) {
            Some(t) => Some(
                EventModel {
                    message: msg,
                    timestamp: Some(t),
                    stream: Some(stream),
                    multiline_tag: Some(tag),
                    source_type: e.source_type,
                    file: e.file,
                },
            ),
            None => None,
        },
        None => None,
    }
}

/// Parser for the CRI text log format.
pub struct Cri;

impl Cri {
    /// Parses one record, as [`spec_cri_transform`] says.
    pub fn transform(&mut self, event: LogEvent) -> (r: Option<LogEvent>)
        ensures
            match r {
                Some(out) => spec_cri_transform(event@) == Some(out@),
                None => spec_cri_transform(event@) is None,
            },
    {
        let line = event.message.as_str();
        let n = line.unicode_len();
        let i = match find_char_in(line, ' ') {
            Some(i) => i,
            None => {
                return None;
            },
        };
        if i == 0 {
            return None;
        }
        let ghost rest = line@.subrange(i as int + 1, n as int);
        if n - i - 1 < 9 {
            return None;
        }
        let stream_s = line.substring_char(i + 1, i + 7);
        proof {
            assert(rest.subrange(0, 6) =~= line@.subrange(i as int + 1, i as int + 7));
        }
        let is_stdout = str_eq(stream_s, "stdout");
        let is_stderr = str_eq(stream_s, "stderr");
        if !(is_stdout || is_stderr) {
            return None;
        }
        proof {
            assert(rest[6] == line@[i as int + 7]);
            assert(rest[7] == line@[i as int + 8]);
            assert(rest[8] == line@[i as int + 9]);
        }
        if line.get_char(i + 7) != ' ' {
            return None;
        }
        let tagc = line.get_char(i + 8);
        if !(tagc == 'P' || tagc == 'F') {
            return None;
        }
        if line.get_char(i + 9) != ' ' {
            return None;
        }
        let ts_s = line.substring_char(0, i);
        let t = match parse_rfc3339_utc_millis(ts_s) {
            Some(t) => t,
            None => {
                return None;
            },
        };
        let msg = substring_owned(line, i + 10, n);
        proof {
            assert(rest.subrange(9, rest.len() as int) =~= line@.subrange(
                i as int + 10,
                n as int,
            ));
        }
        let stream_owned = stream_s.to_owned();
        let tag = if tagc == 'P' {
            Tag::Partial
        } else {
            Tag::Final
        };
        Some(
            LogEvent {
                message: msg,
                timestamp: Some(t),
                stream: Some(stream_owned),
                multiline_tag: Some(tag),
                source_type: event.source_type,
                file: event.file,
            },
        )
    }
}

/// Builds the CRI parser.
pub fn build() -> (r: Cri) {
    Cri
}

} // verus!
