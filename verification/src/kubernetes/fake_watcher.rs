//! A fake watcher, useful for tests: it wraps a finite, pre-built sequence of
//! watch responses and serves it as a succession of streams.
//!
//! Each `watch` invocation yields the pending items up to and including the
//! first error — a mid-stream error is reported once and ends the stream —
//! and a later invocation resumes with the items after it.

use crate::kubernetes::object::{WatchResponse, WatchResponseModel};
use crate::kubernetes::watcher::InvocationError;
use vstd::prelude::*;

verus! {

/// An error kind the fake watcher can replay mid-stream: a desync (the server
/// discarded history past the resume point) or any other streaming fault.
#[derive(Clone, Copy, Debug, PartialEq, Eq, Structural)]
pub enum Error {
    Desync,
    Other,
}

/// One item of a watch stream: a decoded response, or a streaming error.
pub type WatchItem = Result<WatchResponse, Error>;

/// Mathematical model of a [`WatchItem`].
pub type WatchItemModel = Result<WatchResponseModel, Error>;

/// The model of one stream item.
pub open spec fn item_model(it: WatchItem) -> WatchItemModel {
    match it {
        Result::Ok(resp) => Result::Ok(resp@),
        Result::Err(e) => Result::Err(e),
    }
}

/// The models of a sequence of stream items.
pub open spec fn items_model(s: Seq<WatchItem>) -> Seq<WatchItemModel> {
    s.map(|i: int, it: WatchItem| item_model(it))
}

/// Where the next stream ends: after the first error, or at the end of the
/// pending items when none of them is an error.
pub open spec fn stream_cut(s: Seq<WatchItemModel>) -> int
    decreases s.len(),
{
    if s.len() == 0 {
        0
    } else if s[0] is Err {
        1
    } else {
        1 + stream_cut(s.drop_first())
    }
}

/// The cut lies in the sequence, is only zero on an empty sequence, and every
/// item strictly before it except the last one is a response.
pub proof fn lemma_stream_cut_props(s: Seq<WatchItemModel>)
    ensures
        0 <= stream_cut(s) <= s.len(),
        s.len() > 0 ==> stream_cut(s) >= 1,
        forall|i: int| 0 <= i < stream_cut(s) - 1 ==> s[i] is Ok,
    decreases s.len(),
{
    if s.len() > 0 && !(s[0] is Err) {
        lemma_stream_cut_props(s.drop_first());
        assert forall|i: int| 0 <= i < stream_cut(s) - 1 implies s[i] is Ok by {
            if i > 0 {
                assert(s.drop_first()[i - 1] is Ok);
            }
        }
    }
}

/// A fake watcher: replays a pre-built sequence of stream items.
pub struct FakeWatcher {
    items: Vec<WatchItem>,
}

impl View for FakeWatcher {
    type V = Seq<WatchItemModel>;

    closed spec fn view(&self) -> Seq<WatchItemModel> {
        items_model(self.items@)
    }
}

impl FakeWatcher {
    /// Creates a new [`FakeWatcher`] from the items its streams will yield.
    pub fn new(items: Vec<WatchItem>) -> (r: FakeWatcher)
        ensures
            r@ == items_model(items@),
    {
        FakeWatcher { items }
    }

    /// How many items are still pending.
    pub fn remaining(&self) -> (r: usize)
        ensures
            r == self@.len(),
    {
        self.items.len()
    }

    /// Opens the next stream: never fails, and yields the pending items up to
    /// and including the first error. The options a real watcher would send
    /// with the request are ignored.
    #[verifier::loop_isolation(false)]
    pub fn watch(&mut self, _options: &crate::kubernetes::object::WatchOptional) -> (r: Result<
        Vec<WatchItem>,
        InvocationError,
    >)
        ensures
            match r {
                Result::Ok(v) => {
                    let cut = stream_cut(old(self)@);
                    &&& items_model(v@) == old(self)@.subrange(0, cut)
                    &&& final(self)@ == old(self)@.subrange(cut, old(self)@.len() as int)
                },
                Result::Err(_) => false,
            },
    {
        let ghost orig: Seq<WatchItemModel> = self@;
        let mut out: Vec<WatchItem> = Vec::new();
        loop
            invariant
                items_model(out@) + items_model(self.items@) =~= orig,
                forall|i: int| 0 <= i < out@.len() ==> items_model(out@)[i] is Ok,
                stream_cut(orig) == out@.len() + stream_cut(items_model(self.items@)),
            decreases self.items@.len(),
        {
            let ghost outm_pre = items_model(out@);
            let ghost rest_pre = items_model(self.items@);
            if self.items.len() == 0 {
                proof {
                    assert(rest_pre =~= Seq::<WatchItemModel>::empty());
                    assert(items_model(out@) =~= orig);
                    lemma_stream_cut_props(orig);
                    assert(items_model(out@) =~= orig.subrange(0, stream_cut(orig)));
                    assert(self@ =~= orig.subrange(stream_cut(orig), orig.len() as int));
                }
                return Result::Ok(out);
            }
            let it = self.items.remove(0);
            let stop = match &it {
                Result::Ok(_) => false,
                Result::Err(_) => true,
            };
            proof {
                assert(rest_pre[0] == item_model(it));
                assert(items_model(self.items@) =~= rest_pre.drop_first());
                assert(items_model(out@.push(it)) =~= outm_pre.push(item_model(it)));
                assert(outm_pre.push(item_model(it)) + rest_pre.drop_first() =~= orig);
            }
            out.push(it);
            if stop {
                proof {
                    assert(rest_pre[0] is Err);
                    assert(stream_cut(rest_pre) == 1);
                    let cut = stream_cut(orig);
                    assert(cut == out@.len());
                    lemma_stream_cut_props(orig);
                    assert(items_model(out@) =~= orig.subrange(0, cut));
                    assert(self@ =~= orig.subrange(cut, orig.len() as int));
                }
                return Result::Ok(out);
            }
            proof {
                assert(!(rest_pre[0] is Err));
                assert(stream_cut(rest_pre) == 1 + stream_cut(rest_pre.drop_first()));
            }
        }
    }
}

} // verus!
