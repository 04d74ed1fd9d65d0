//! Format auto-detection for tailed log lines.
//!
//! Three candidate parsers are tried in fixed priority order — Docker JSON
//! lines, CRI text, passthrough — and, per file stream, the first one that
//! succeeds on the stream's first line is locked in for every later line of
//! that stream. Passthrough always succeeds, so a stream whose first line
//! fits no format is passed through unchanged from then on.

pub mod cri;
pub mod docker;

use crate::event::{EventModel, LogEvent};
use crate::kubernetes_logs::parser::cri::{spec_cri_transform, Cri};
use crate::kubernetes_logs::parser::docker::{spec_docker_transform, Docker};
use crate::kubernetes_logs::stream_table::StreamTable;
use vstd::prelude::*;
use vstd::string::StringExecFns;

verus! {

/// Named result of chrono's RFC 3339 parser: the parsed instant as UTC
/// milliseconds since the Unix epoch, a function of the characters alone;
/// absent where they are not a valid RFC 3339 date-time.
pub uninterp spec fn rfc3339_to_millis(s: Seq<char>) -> Option<i64>;

/// Relies on chrono's `DateTime::parse_from_rfc3339` (a strict RFC 3339
/// parse), `with_timezone` and `timestamp_millis`: the parsed instant as UTC
/// milliseconds since the Unix epoch, deterministic in the characters alone.
#[verifier::external_body]
pub fn parse_rfc3339_utc_millis(s: &str) -> (r: Option<i64>)
    ensures
        r == rfc3339_to_millis(s@),
{
    match chrono::DateTime::parse_from_rfc3339(s) {
        Ok(dt) => Some(dt.with_timezone(&chrono::Utc).timestamp_millis()),
        Err(_) => None,
    }
}

/// Named result of serde_json's parser on one top-level field: the field's
/// string value where the line is a JSON object holding it as a string, a
/// function of the two arguments alone; absent otherwise.
pub uninterp spec fn json_string_field(line: Seq<char>, field: Seq<char>) -> Option<Seq<char>>;

/// Relies on serde_json's `from_str`, `Value::get` and `Value::as_str`: the
/// named top-level field of the line parsed as JSON, where that field holds a
/// string; deterministic in the two arguments alone.
#[verifier::external_body]
pub fn extract_json_string_field(line: &str, field: &str) -> (r: Option<String>)
    ensures
        r.deep_view() == json_string_field(line@, field@),
{
    serde_json::from_str::<serde_json::Value>(line).ok().and_then(
        |v| v.get(field).and_then(|f| f.as_str()).map(|s| s.to_owned()),
    )
}

/// One of the three candidate formats, in priority order.
#[derive(Clone, Copy, Debug, PartialEq, Eq, Structural)]
pub enum Format {
    Docker,
    Cri,
    Passthrough,
}

impl View for Format {
    type V = Format;

    open spec fn view(&self) -> Format {
        *self
    }
}

/// The format picked for a stream's first record: the first candidate that
/// accepts it. Passthrough always does.
pub open spec fn spec_pick(e: EventModel) -> Format {
    if spec_docker_transform(e) is Some {
        Format::Docker
    } else if spec_cri_transform(e) is Some {
        Format::Cri
    } else {
        Format::Passthrough
    }
}

/// One record put through a format: Docker and CRI parse it — and may reject
/// it — while passthrough leaves it intact.
pub open spec fn spec_apply(f: Format, e: EventModel) -> Option<EventModel> {
    match f {
        Format::Docker => spec_docker_transform(e),
        Format::Cri => spec_cri_transform(e),
        Format::Passthrough => Some(e),
    }
}

/// One record put through the picker: a stream with a format on record uses
/// it; a stream without one gets the format picked on this record, which is
/// then locked in.
pub open spec fn spec_picker_step(m: Map<Seq<char>, Format>, e: EventModel) -> (
    Map<Seq<char>, Format>,
    Option<EventModel>,
) {
    let k = e.stream_key();
    if m.contains_key(k) {
        (m, spec_apply(m[k], e))
    } else {
        (m.insert(k, spec_pick(e)), spec_apply(spec_pick(e), e))
    }
}

/// The per-stream format picker: decides once per stream, on its first
/// record, and never revisits the decision.
pub struct Picker {
    formats: StreamTable<Format>,
    docker: Docker,
    cri: Cri,
}

impl View for Picker {
    type V = Map<Seq<char>, Format>;

    closed spec fn view(&self) -> Map<Seq<char>, Format> {
        self.formats@
    }
}

impl Picker {
    /// Each stream has at most one format on record.
    pub closed spec fn wf(&self) -> bool {
        self.formats.wf()
    }

    /// Puts one record through the stream's format, picking it first on the
    /// stream's first record, as [`spec_picker_step`] says.
    pub fn transform(&mut self, event: LogEvent) -> (r: Option<LogEvent>)
        requires
            old(self).wf(),
        ensures
            final(self).wf(),
            ({
                let (m, out) = spec_picker_step(old(self)@, event@);
                &&& final(self)@ == m
                &&& match r {
                    Some(ev) => out == Some(ev@),
                    None => out is None,
                }
            }),
    {
        let known = match self.formats.get(event.stream_key()) {
            Some(f) => Some(*f),
            None => None,
        };
        match known {
            Some(f) => self.apply(f, event),
            None => {
                let key = event.stream_key().to_owned();
                match self.docker.transform(event.duplicate()) {
                    Some(out) => {
                        self.formats.set(key, Format::Docker);
                        Some(out)
                    },
                    None => match self.cri.transform(event.duplicate()) {
                        Some(out) => {
                            self.formats.set(key, Format::Cri);
                            Some(out)
                        },
                        None => {
                            self.formats.set(key, Format::Passthrough);
                            Some(event)
                        },
                    },
                }
            },
        }
    }

    /// Puts one record through a fixed format.
    fn apply(&mut self, f: Format, event: LogEvent) -> (r: Option<LogEvent>)
        requires
            old(self).wf(),
        ensures
            final(self).wf(),
            final(self)@ == old(self)@,
            match r {
                Some(ev) => spec_apply(f, event@) == Some(ev@),
                None => spec_apply(f, event@) is None,
            },
    {
        match f {
            Format::Docker => self.docker.transform(event),
            Format::Cri => self.cri.transform(event),
            Format::Passthrough => Some(event),
        }
    }
}

/// Builds the format picker with no stream decided yet.
pub fn build() -> (r: Picker)
    ensures
        r.wf(),
        r@ == Map::<Seq<char>, Format>::empty(),
{
    Picker { formats: StreamTable::new(), docker: docker::build(), cri: cri::build() }
}

/// The picker folded over a sequence of records: the final format table and
/// the per-record outputs.
pub open spec fn picker_fold(m: Map<Seq<char>, Format>, es: Seq<EventModel>) -> (
    Map<Seq<char>, Format>,
    Seq<Option<EventModel>>,
)
    decreases es.len(),
{
    if es.len() == 0 {
        (m, Seq::empty())
    } else {
        let (m2, out) = spec_picker_step(m, es[0]);
        let (mn, outs) = picker_fold(m2, es.drop_first());
        (mn, seq![out] + outs)
    }
}

/// The picker never switches: for any sequence of records of one stream whose
/// format is not yet decided, the format picked on the first record is
/// applied to every record, first and last alike, and stays on record.
pub proof fn lemma_picker_locks(m: Map<Seq<char>, Format>, es: Seq<EventModel>, k: Seq<char>)
    requires
        es.len() > 0,
        forall|i: int| 0 <= i < es.len() ==> (#[trigger] es[i]).stream_key() == k,
        !m.contains_key(k),
    ensures
        ({
            let f = spec_pick(es[0]);
            let (mn, outs) = picker_fold(m, es);
            &&& mn == m.insert(k, f)
            &&& outs.len() == es.len()
            &&& forall|i: int| 0 <= i < es.len() ==> outs[i] == spec_apply(f, es[i])
        }),
{
    let f = spec_pick(es[0]);
    let m2 = m.insert(k, f);
    lemma_picker_applies_locked(m2, es.drop_first(), k, f);
    let (mn, outs) = picker_fold(m, es);
    let (mn2, outs2) = picker_fold(m2, es.drop_first());
    assert(outs =~= seq![spec_apply(f, es[0])] + outs2);
    assert forall|i: int| 0 <= i < es.len() implies outs[i] == spec_apply(f, es[i]) by {
        if i > 0 {
            assert(outs2[i - 1] == spec_apply(f, es.drop_first()[i - 1]));
        }
    }
}

/// Once a stream's format is on record, every later record of that stream is
/// put through exactly that format and the record stays.
pub proof fn lemma_picker_applies_locked(
    m: Map<Seq<char>, Format>,
    es: Seq<EventModel>,
    k: Seq<char>,
    f: Format,
)
    requires
        forall|i: int| 0 <= i < es.len() ==> (#[trigger] es[i]).stream_key() == k,
        m.contains_key(k),
        m[k] == f,
    ensures
        ({
            let (mn, outs) = picker_fold(m, es);
            &&& mn == m
            &&& outs.len() == es.len()
            &&& forall|i: int| 0 <= i < es.len() ==> outs[i] == spec_apply(f, es[i])
        }),
    decreases es.len(),
{
    if es.len() > 0 {
        assert(es[0].stream_key() == k);
        assert forall|i: int| 0 <= i < es.drop_first().len() implies (#[trigger] es.drop_first()[
            i
        ]).stream_key() == k by {
            assert(es.drop_first()[i] == es[i + 1]);
        }
        lemma_picker_applies_locked(m, es.drop_first(), k, f);
        let (mn, outs) = picker_fold(m, es);
        let (mn2, outs2) = picker_fold(m, es.drop_first());
        assert(outs =~= seq![spec_apply(f, es[0])] + outs2);
        assert forall|i: int| 0 <= i < es.len() implies outs[i] == spec_apply(f, es[i]) by {
            if i > 0 {
                assert(outs2[i - 1] == spec_apply(f, es.drop_first()[i - 1]));
            }
        }
    }
}

} // verus!
