//! Partial event merger: reassembles fragment-tagged records into whole
//! logical records, keyed by the stream's file path.
//!
//! The merger is governed by a configuration flag; disabled, it passes every
//! record through unchanged.

use crate::event::{EventModel, LogEvent};
use crate::kubernetes_logs::stream_table::StreamTable;
use vstd::prelude::*;
use vstd::string::StringExecFns;

verus! {

/// Mathematical model of a [`Merger`]: whether merging is on, and the
/// buffered prefix of each stream with a pending fragment.
pub struct MergerModel {
    pub enabled: bool,
    pub buffers: Map<Seq<char>, Seq<char>>,
}

/// One record put through the merger. Disabled, it passes everything through.
/// Enabled: a fragment's message is appended to its stream's buffer and the
/// record is withheld; a record that closes a pending fragment run is emitted
/// with the buffer prepended to its message and with its own non-message
/// fields (the closing record's timestamp and stream kind win); any other
/// record passes through.
pub open spec fn spec_merge_step(m: MergerModel, e: EventModel) -> (MergerModel, Option<
    EventModel,
>) {
    if !m.enabled {
        (m, Some(e))
    } else {
        let k = e.stream_key();
        if e.is_partial() {
            let buf = if m.buffers.contains_key(k) {
                m.buffers[k]
            } else {
                Seq::empty()
            };
            (
                MergerModel { enabled: m.enabled, buffers: m.buffers.insert(k, buf + e.message) },
                None,
            )
        } else {
            if m.buffers.contains_key(k) {
                (
                    MergerModel { enabled: m.enabled, buffers: m.buffers.remove(k) },
                    Some(
                        EventModel {
                            message: m.buffers[k] + e.message,
                            timestamp: e.timestamp,
                            stream: e.stream,
                            multiline_tag: e.multiline_tag,
                            source_type: e.source_type,
                            file: e.file,
                        },
                    ),
                )
            } else {
                (m, Some(e))
            }
        }
    }
}

/// The record that flushing a stream's pending buffer emits: the buffered
/// bytes alone, attributed to the stream's file.
pub open spec fn spec_flushed_record(buf: Seq<char>, file: Seq<char>) -> EventModel {
    EventModel {
        message: buf,
        timestamp: None,
        stream: None,
        multiline_tag: None,
        source_type: None,
        file: Some(file),
    }
}

/// Partial event merger.
pub struct Merger {
    enabled: bool,
    buffers: StreamTable<String>,
}

impl View for Merger {
    type V = MergerModel;

    closed spec fn view(&self) -> MergerModel {
        MergerModel { enabled: self.enabled, buffers: self.buffers@ }
    }
}

impl Merger {
    /// Each stream has at most one pending buffer.
    pub closed spec fn wf(&self) -> bool {
        self.buffers.wf()
    }

    /// Puts one record through the merger, as [`spec_merge_step`] says.
    pub fn transform(&mut self, event: LogEvent) -> (r: Option<LogEvent>)
        requires
            old(self).wf(),
        ensures
            final(self).wf(),
            ({
                let (m, out) = spec_merge_step(old(self)@, event@);
                &&& final(self)@ == m
                &&& match r {
                    Some(ev) => out == Some(ev@),
                    None => out is None,
                }
            }),
    {
        if !self.enabled {
            return Some(event);
        }
        let key = event.stream_key().to_owned();
        let pending = match self.buffers.get(key.as_str()) {
            Some(b) => Some(b.clone()),
            None => None,
        };
        if event.is_partial() {
            let merged = match pending {
                Some(b) => b.concat(event.message.as_str()),
                None => event.message,
            };
            proof {
                assert(merged@ == (if old(self)@.buffers.contains_key(key@) {
                    old(self)@.buffers[key@]
                } else {
                    Seq::<char>::empty()
                } + event@.message)) by {
                    if !old(self)@.buffers.contains_key(key@) {
                        assert(Seq::<char>::empty() + event@.message =~= event@.message);
                    }
                };
            }
            self.buffers.set(key, merged);
            None
        } else {
            match pending {
                Some(b) => {
                    let merged = b.concat(event.message.as_str());
                    self.buffers.remove(key.as_str());
                    Some(
                        LogEvent {
                            message: merged,
                            timestamp: event.timestamp,
                            stream: event.stream,
                            multiline_tag: event.multiline_tag,
                            source_type: event.source_type,
                            file: event.file,
                        },
                    )
                },
                None => Some(event),
            }
        }
    }

    /// Drains the pending buffer of one stream, as on file close or prolonged
    /// inactivity: the buffered bytes become a best-effort record of their
    /// own, attributed to the file.
    pub fn flush_stream(&mut self, file: &str) -> (r: Option<LogEvent>)
        requires
            old(self).wf(),
        ensures
            final(self).wf(),
            final(self)@.enabled == old(self)@.enabled,
            final(self)@.buffers == old(self)@.buffers.remove(file@),
            match r {
                Some(ev) => old(self)@.buffers.contains_key(file@) && ev@ == spec_flushed_record(
                    old(self)@.buffers[file@],
                    file@,
                ),
                None => !old(self)@.buffers.contains_key(file@),
            },
    {
        let pending = match self.buffers.get(file) {
            Some(b) => Some(b.clone()),
            None => None,
        };
        match pending {
            Some(b) => {
                self.buffers.remove(file);
                Some(
                    LogEvent {
                        message: b,
                        timestamp: None,
                        stream: None,
                        multiline_tag: None,
                        source_type: None,
                        file: Some(file.to_owned()),
                    },
                )
            },
            None => {
                proof {
                    assert(self@.buffers =~= self@.buffers.remove(file@));
                }
                None
            },
        }
    }
}

/// Builds the partial events merger; when not enabled it passes every record
/// through unchanged.
pub fn build(enabled: bool) -> (r: Merger)
    ensures
        r.wf(),
        r@.enabled == enabled,
        r@.buffers == Map::<Seq<char>, Seq<char>>::empty(),
{
    Merger { enabled, buffers: StreamTable::new() }
}

/// The merger folded over a sequence of records: the final state and the
/// records it emitted, in order.
pub open spec fn merger_fold(m: MergerModel, es: Seq<EventModel>) -> (MergerModel, Seq<EventModel>)
    decreases es.len(),
{
    if es.len() == 0 {
        (m, Seq::empty())
    } else {
        let (m2, out) = spec_merge_step(m, es[0]);
        let (mn, outs) = merger_fold(m2, es.drop_first());
        match out {
            Some(ev) => (mn, seq![ev] + outs),
            None => (mn, outs),
        }
    }
}

/// The concatenation of the records' messages, in order.
pub open spec fn messages_concat(es: Seq<EventModel>) -> Seq<char>
    decreases es.len(),
{
    if es.len() == 0 {
        Seq::empty()
    } else {
        es[0].message + messages_concat(es.drop_first())
    }
}

/// A run of fragments closed by a final record, fed to the merger with a
/// buffer `b` already pending for their stream, emits exactly one record:
/// `b` followed by every message in order, under the closing record's other
/// fields; and the stream's buffer is gone.
pub proof fn lemma_merger_concat_pending(
    m: MergerModel,
    es: Seq<EventModel>,
    k: Seq<char>,
    b: Seq<char>,
)
    requires
        m.enabled,
        m.buffers.contains_key(k),
        m.buffers[k] == b,
        es.len() > 0,
        forall|i: int| 0 <= i < es.len() ==> (#[trigger] es[i]).stream_key() == k,
        forall|i: int| 0 <= i < es.len() - 1 ==> (#[trigger] es[i]).is_partial(),
        !es.last().is_partial(),
    ensures
        ({
            let (mn, outs) = merger_fold(m, es);
            &&& outs.len() == 1
            &&& outs[0].message == b + messages_concat(es)
            &&& outs[0].timestamp == es.last().timestamp
            &&& outs[0].stream == es.last().stream
            &&& outs[0].multiline_tag == es.last().multiline_tag
            &&& outs[0].source_type == es.last().source_type
            &&& outs[0].file == es.last().file
            &&& mn.enabled
            &&& mn.buffers == m.buffers.remove(k)
        }),
    decreases es.len(),
{
    if es.len() == 1 {
        assert(!es[0].is_partial());
        let (m2, out) = spec_merge_step(m, es[0]);
        assert(merger_fold(m2, es.drop_first()).1 =~= Seq::<EventModel>::empty());
        assert(messages_concat(es.drop_first()) =~= Seq::<char>::empty());
        let (mn, outs) = merger_fold(m, es);
        assert(outs =~= seq![
            EventModel {
                message: b + es[0].message,
                timestamp: es[0].timestamp,
                stream: es[0].stream,
                multiline_tag: es[0].multiline_tag,
                source_type: es[0].source_type,
                file: es[0].file,
            },
        ]);
        assert(b + (es[0].message + messages_concat(es.drop_first())) =~= b + es[0].message);
    } else {
        assert(es[0].is_partial());
        let (m2, out) = spec_merge_step(m, es[0]);
        assert(out is None);
        assert(m2.buffers == m.buffers.insert(k, b + es[0].message));
        assert forall|i: int| 0 <= i < es.drop_first().len() implies (#[trigger] es.drop_first()[
            i
        ]).stream_key() == k by {
            assert(es.drop_first()[i] == es[i + 1]);
        }
        assert forall|i: int| 0 <= i < es.drop_first().len() - 1 implies (#[trigger] es
            .drop_first()[i]).is_partial() by {
            assert(es.drop_first()[i] == es[i + 1]);
        }
        assert(es.drop_first().last() == es.last());
        lemma_merger_concat_pending(m2, es.drop_first(), k, b + es[0].message);
        let (mn, outs) = merger_fold(m2, es.drop_first());
        assert(outs[0].message == (b + es[0].message) + messages_concat(es.drop_first()));
        assert((b + es[0].message) + messages_concat(es.drop_first()) =~= b + (es[0].message
            + messages_concat(es.drop_first())));
        assert(mn.buffers =~= m.buffers.remove(k));
    }
}

/// The merger is a left fold: a run of fragments closed by a final record,
/// fed to the merger with nothing pending for their stream, emits exactly one
/// record whose message is the concatenation of every message in order, under
/// the closing record's other fields; and nothing stays pending.
pub proof fn lemma_merger_concat(m: MergerModel, es: Seq<EventModel>, k: Seq<char>)
    requires
        m.enabled,
        !m.buffers.contains_key(k),
        es.len() > 0,
        forall|i: int| 0 <= i < es.len() ==> (#[trigger] es[i]).stream_key() == k,
        forall|i: int| 0 <= i < es.len() - 1 ==> (#[trigger] es[i]).is_partial(),
        !es.last().is_partial(),
    ensures
        ({
            let (mn, outs) = merger_fold(m, es);
            &&& outs.len() == 1
            &&& outs[0].message == messages_concat(es)
            &&& outs[0].timestamp == es.last().timestamp
            &&& outs[0].stream == es.last().stream
            &&& outs[0].multiline_tag == es.last().multiline_tag
            &&& outs[0].source_type == es.last().source_type
            &&& outs[0].file == es.last().file
            &&& mn.enabled
            &&& mn.buffers == m.buffers
        }),
{
    if es.len() == 1 {
        assert(!es[0].is_partial());
        let (m2, out) = spec_merge_step(m, es[0]);
        assert(out == Some(es[0]));
        assert(merger_fold(m2, es.drop_first()).1 =~= Seq::<EventModel>::empty());
        assert(messages_concat(es.drop_first()) =~= Seq::<char>::empty());
        assert(es[0].message + messages_concat(es.drop_first()) =~= es[0].message);
        let (mn, outs) = merger_fold(m, es);
        assert(outs =~= seq![es[0]]);
    } else {
        assert(es[0].is_partial());
        let (m2, out) = spec_merge_step(m, es[0]);
        assert(out is None);
        assert(Seq::<char>::empty() + es[0].message =~= es[0].message);
        assert(m2.buffers == m.buffers.insert(k, es[0].message));
        assert forall|i: int| 0 <= i < es.drop_first().len() implies (#[trigger] es.drop_first()[
            i
        ]).stream_key() == k by {
            assert(es.drop_first()[i] == es[i + 1]);
        }
        assert forall|i: int| 0 <= i < es.drop_first().len() - 1 implies (#[trigger] es
            .drop_first()[i]).is_partial() by {
            assert(es.drop_first()[i] == es[i + 1]);
        }
        assert(es.drop_first().last() == es.last());
        lemma_merger_concat_pending(m2, es.drop_first(), k, es[0].message);
        let (mn, outs) = merger_fold(m2, es.drop_first());
        assert(outs[0].message == es[0].message + messages_concat(es.drop_first()));
        assert(mn.buffers =~= m.buffers);
    }
}

} // verus!
