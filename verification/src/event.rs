//! The record type that flows from the log-line reader to the sink.

use vstd::prelude::*;

verus! {

/// How a line relates to the logical record it belongs to: a runtime emits
/// `Partial` for a fragment cut off by its buffer size and `Final` for the
/// piece that ends the record.
#[derive(Clone, Copy, Debug, PartialEq, Eq, Structural)]
pub enum Tag {
    Partial,
    Final,
}

/// Mathematical model of a [`LogEvent`]: the same fields over `Seq<char>`.
pub struct EventModel {
    pub message: Seq<char>,
    pub timestamp: Option<i64>,
    pub stream: Option<Seq<char>>,
    pub multiline_tag: Option<Tag>,
    pub source_type: Option<Seq<char>>,
    pub file: Option<Seq<char>>,
}

/// One log record on its way downstream.
///
/// `message` starts out as the raw line read from a file; the parsers replace
/// it with the decoded payload and fill `timestamp`, `stream` and
/// `multiline_tag`. `timestamp` is a UTC instant in milliseconds since the
/// Unix epoch. `file` is the path the line was read from.
pub struct LogEvent {
    pub message: String,
    pub timestamp: Option<i64>,
    pub stream: Option<String>,
    pub multiline_tag: Option<Tag>,
    pub source_type: Option<String>,
    pub file: Option<String>,
}

impl View for LogEvent {
    type V = EventModel;

    open spec fn view(&self) -> EventModel {
        EventModel {
            message: self.message@,
            timestamp: self.timestamp,
            stream: self.stream.deep_view(),
            multiline_tag: self.multiline_tag,
            source_type: self.source_type.deep_view(),
            file: self.file.deep_view(),
        }
    }
}

impl EventModel {
    /// Whether the record is a fragment that must not be emitted on its own.
    pub open spec fn is_partial(self) -> bool {
        self.multiline_tag == Some(Tag::Partial)
    }

    /// The stream key of the record: the path of the file it was read from,
    /// or the empty key where none was recorded.
    pub open spec fn stream_key(self) -> Seq<char> {
        match self.file {
            Some(f) => f,
            None => Seq::empty(),
        }
    }
}

impl LogEvent {
    /// Whether the record is a fragment that must not be emitted on its own.
    pub fn is_partial(&self) -> (r: bool)
        ensures
            r == self@.is_partial(),
    {
        match self.multiline_tag {
            Some(Tag::Partial) => true,
            _ => false,
        }
    }

    /// The stream key of the record: the path of the file it was read from,
    /// or the empty key where none was recorded.
    pub fn stream_key(&self) -> (r: &str)
        ensures
            r@ == self@.stream_key(),
    {
        match &self.file {
            Some(f) => f.as_str(),
            None => {
                proof {
                    reveal_strlit("");
                    assert(""@ =~= Seq::<char>::empty());
                }
                ""
            },
        }
    }

    /// An exact copy of the record.
    pub fn duplicate(&self) -> (r: LogEvent)
        ensures
            r@ == self@,
    {
        let r = LogEvent {
            message: self.message.clone(),
            timestamp: self.timestamp,
            stream: clone_opt_string(&self.stream),
            multiline_tag: self.multiline_tag,
            source_type: clone_opt_string(&self.source_type),
            file: clone_opt_string(&self.file),
        };
        assert(r@ == self@);
        r
    }
}

/// An exact copy of an optional string.
pub fn clone_opt_string(s: &Option<String>) -> (r: Option<String>)
    ensures
        r.deep_view() == s.deep_view(),
        r is Some <==> s is Some,
{
    match s {
        Some(v) => Some(v.clone()),
        None => None,
    }
}

} // verus!
