//! Watches remote Kubernetes resources and maintains a local representation
//! of the remote state: "reflects" the remote state locally.
//!
//! The reflector drives a watcher in a loop, applies each event to the store,
//! records the event's resource version as the next resume point, and
//! publishes the store after each event. On a desync — the server discarded
//! the history past the resume point — it drops the local state, forgets the
//! resume point, and starts over from the current list head; any other
//! streaming fault ends the loop.

use crate::event::clone_opt_string;
use crate::kubernetes::fake_watcher;
use crate::kubernetes::fake_watcher::{
    items_model, lemma_stream_cut_props, FakeWatcher, WatchItem, WatchItemModel,
};
use crate::kubernetes::object::{
    event_resource_version, rv_of_event, PodModel, WatchEvent, WatchEventModel, WatchOptional,
    WatchResponse, WatchResponseModel,
};
use crate::kubernetes::store::Store;
use crate::kubernetes::watch_state::ResourceVersionState;
use crate::kubernetes::watcher::InvocationError;
use vstd::prelude::*;

verus! {

/// Errors that can occur while watching.
#[derive(Clone, Copy, Debug, PartialEq, Eq, Structural)]
pub enum Error {
    /// The watch invocation itself failed with a non-recoverable error.
    Invocation,
    /// A well-formed envelope held no recognizable data.
    InvalidDataOnStream,
    /// The stream failed mid-way with a non-recoverable error.
    Streaming,
}

impl Error {
    /// A short description of the fault, for the operator.
    pub fn message(&self) -> (r: &'static str)
        ensures
            *self is Invocation ==> r@ == "watch invocation failed"@,
            *self is InvalidDataOnStream ==> r@ == "got unexpected data in the watch response"@,
            *self is Streaming ==> r@ == "watch stream failed"@,
    {
        match self {
            Error::Invocation => "watch invocation failed",
            Error::InvalidDataOnStream => "got unexpected data in the watch response",
            Error::Streaming => "watch stream failed",
        }
    }
}

/// How one drained stream ended.
#[derive(Clone, Copy, Debug, PartialEq, Eq, Structural)]
pub enum SessionEnd {
    /// The stream ended normally; resume from the recorded resource version.
    Completed,
    /// The stream reported a desync; the local state was dropped and the next
    /// watch starts from the current list head.
    Desynced,
    /// The stream failed; the loop must surface the error.
    Failed,
}

/// One event applied to the pod map: `Added` and `Modified` upsert under the
/// pod's UID, `Deleted` removes, bookmarks and errors change nothing. A pod
/// without a UID is skipped.
pub open spec fn apply_event(
    m: Map<Seq<char>, PodModel>,
    ev: WatchEventModel,
) -> Map<Seq<char>, PodModel> {
    match ev {
        WatchEventModel::Added(p) => match p.uid() {
            Some(u) => m.insert(u, p),
            None => m,
        },
        WatchEventModel::Modified(p) => match p.uid() {
            Some(u) => m.insert(u, p),
            None => m,
        },
        WatchEventModel::Deleted(p) => match p.uid() {
            Some(u) => m.remove(u),
            None => m,
        },
        WatchEventModel::Bookmark(_) => m,
        WatchEventModel::ErrorStatus(_) => m,
        WatchEventModel::ErrorOther => m,
    }
}

/// One response processed: an unrecognized envelope or an event without a
/// resource version is skipped; any other event is applied to the map and its
/// resource version recorded.
pub open spec fn step_response(
    st: Map<Seq<char>, PodModel>,
    tr: Option<Seq<char>>,
    resp: WatchResponseModel,
) -> (Map<Seq<char>, PodModel>, Option<Seq<char>>) {
    match resp {
        WatchResponseModel::Event(ev) => match rv_of_event(ev) {
            Some(rv) => (apply_event(st, ev), Some(rv)),
            None => (st, tr),
        },
        WatchResponseModel::Other => (st, tr),
    }
}

/// One stream drained against a map and a resume point: responses are
/// processed in order; a desync drops both and ends the stream; any other
/// error ends the stream with a failure.
pub open spec fn drain_model(
    st: Map<Seq<char>, PodModel>,
    tr: Option<Seq<char>>,
    items: Seq<WatchItemModel>,
) -> (Map<Seq<char>, PodModel>, Option<Seq<char>>, SessionEnd)
    decreases items.len(),
{
    if items.len() == 0 {
        (st, tr, SessionEnd::Completed)
    } else {
        match items[0] {
            Result::Err(fake_watcher::Error::Desync) => (
                Map::empty(),
                None,
                SessionEnd::Desynced,
            ),
            Result::Err(fake_watcher::Error::Other) => (st, tr, SessionEnd::Failed),
            Result::Ok(resp) => {
                let (st2, tr2) = step_response(st, tr, resp);
                drain_model(st2, tr2, items.drop_first())
            },
        }
    }
}

/// The whole watch loop over a sequence of stream items: a desync drops the
/// local state and the loop goes on; any other streaming error ends it.
pub open spec fn run_model(
    st: Map<Seq<char>, PodModel>,
    tr: Option<Seq<char>>,
    items: Seq<WatchItemModel>,
) -> (Map<Seq<char>, PodModel>, Option<Seq<char>>, Result<(), Error>)
    decreases items.len(),
{
    if items.len() == 0 {
        (st, tr, Result::Ok(()))
    } else {
        match items[0] {
            Result::Err(fake_watcher::Error::Desync) => run_model(
                Map::empty(),
                None,
                items.drop_first(),
            ),
            Result::Err(fake_watcher::Error::Other) => (st, tr, Result::Err(Error::Streaming)),
            Result::Ok(resp) => {
                let (st2, tr2) = step_response(st, tr, resp);
                run_model(st2, tr2, items.drop_first())
            },
        }
    }
}

/// Draining one stream and then running the loop on the rest is running the
/// loop on the whole sequence, provided errors sit only at the stream's end.
pub proof fn lemma_run_model_split(
    st: Map<Seq<char>, PodModel>,
    tr: Option<Seq<char>>,
    session: Seq<WatchItemModel>,
    rest: Seq<WatchItemModel>,
)
    requires
        forall|i: int| 0 <= i < session.len() - 1 ==> session[i] is Ok,
    ensures
        ({
            let (st2, tr2, end) = drain_model(st, tr, session);
            &&& (end == SessionEnd::Completed || end == SessionEnd::Desynced) ==> run_model(
                st,
                tr,
                session + rest,
            ) == run_model(st2, tr2, rest)
            &&& end == SessionEnd::Failed ==> run_model(st, tr, session + rest) == (
                st2,
                tr2,
                Result::<(), Error>::Err(Error::Streaming),
            )
        }),
    decreases session.len(),
{
    if session.len() == 0 {
        assert(session + rest =~= rest);
    } else {
        assert((session + rest)[0] == session[0]);
        match session[0] {
            Result::Err(fake_watcher::Error::Desync) => {
                assert(session.len() == 1);
                assert((session + rest).drop_first() =~= rest);
            },
            Result::Err(fake_watcher::Error::Other) => {
                assert(session.len() == 1);
            },
            Result::Ok(resp) => {
                let (st2, tr2) = step_response(st, tr, resp);
                assert(forall|i: int|
                    0 <= i < session.drop_first().len() - 1 ==> session.drop_first()[i] is Ok);
                lemma_run_model_split(st2, tr2, session.drop_first(), rest);
                assert((session + rest).drop_first() =~= session.drop_first() + rest);
            },
        }
    }
}

/// Mathematical model of a [`Reflector`].
pub struct ReflectorModel {
    pub live: Map<Seq<char>, PodModel>,
    pub published: Map<Seq<char>, PodModel>,
    pub resource_version: Option<Seq<char>>,
    pub pending: Seq<WatchItemModel>,
    pub field_selector: Option<Seq<char>>,
    pub label_selector: Option<Seq<char>>,
    pub pause_between_requests_ms: u64,
}

/// Watches the pod set and maintains the local mirror in a [`Store`].
pub struct Reflector {
    watcher: FakeWatcher,
    store: Store,
    resource_version: ResourceVersionState,
    field_selector: Option<String>,
    label_selector: Option<String>,
    pause_between_requests_ms: u64,
}

impl View for Reflector {
    type V = ReflectorModel;

    closed spec fn view(&self) -> ReflectorModel {
        ReflectorModel {
            live: self.store@.live,
            published: self.store@.published,
            resource_version: self.resource_version@,
            pending: self.watcher@,
            field_selector: self.field_selector.deep_view(),
            label_selector: self.label_selector.deep_view(),
            pause_between_requests_ms: self.pause_between_requests_ms,
        }
    }
}

impl Reflector {
    /// The store's tables hold each pod at most once.
    pub closed spec fn wf(&self) -> bool {
        self.store.wf()
    }

    /// Everything applied so far has been published: holds outside of the
    /// processing of a single event.
    pub open spec fn synced(&self) -> bool {
        self@.live == self@.published
    }

    /// Creates a reflector over a watcher, with an empty store and no resume
    /// point. `pause_between_requests_ms` is how long the caller should pace
    /// between two watch requests.
    pub fn new(
        watcher: FakeWatcher,
        field_selector: Option<String>,
        label_selector: Option<String>,
        pause_between_requests_ms: u64,
    ) -> (r: Reflector)
        ensures
            r.wf(),
            r.synced(),
            r@.live == Map::<Seq<char>, PodModel>::empty(),
            r@.published == Map::<Seq<char>, PodModel>::empty(),
            r@.resource_version is None,
            r@.pending == watcher@,
            r@.field_selector == field_selector.deep_view(),
            r@.label_selector == label_selector.deep_view(),
            r@.pause_between_requests_ms == pause_between_requests_ms,
    {
        Reflector {
            watcher,
            store: Store::new(),
            resource_version: ResourceVersionState::new(),
            field_selector,
            label_selector,
            pause_between_requests_ms,
        }
    }

    /// The options of the next watch request: the configured selectors, the
    /// recorded resume point, and bookmarks allowed.
    pub fn current_options(&self) -> (r: WatchOptional)
        ensures
            r@.allow_watch_bookmarks == Some(true),
            r@.field_selector == self@.field_selector,
            r@.label_selector == self@.label_selector,
            r@.pretty is None,
            r@.resource_version == self@.resource_version,
            r@.timeout_seconds is None,
    {
        let resource_version = match self.resource_version.get() {
            Some(s) => Some(s.to_owned()),
            None => None,
        };
        WatchOptional {
            allow_watch_bookmarks: Some(true),
            field_selector: clone_opt_string(&self.field_selector),
            label_selector: clone_opt_string(&self.label_selector),
            pretty: None,
            resource_version,
            timeout_seconds: None,
        }
    }

    /// Applies one event to the live store, as [`apply_event`] says.
    fn process_event(&mut self, event: &WatchEvent)
        requires
            old(self).wf(),
        ensures
            final(self).wf(),
            final(self)@.live == apply_event(old(self)@.live, event@),
            final(self)@.published == old(self)@.published,
            final(self)@.resource_version == old(self)@.resource_version,
            final(self)@.pending == old(self)@.pending,
            final(self)@.field_selector == old(self)@.field_selector,
            final(self)@.label_selector == old(self)@.label_selector,
            final(self)@.pause_between_requests_ms == old(self)@.pause_between_requests_ms,
    {
        match event {
            WatchEvent::Added(pod) => {
                let key = match pod.uid() {
                    Some(u) => Some(u.clone()),
                    None => None,
                };
                match key {
                    Some(k) => self.store.insert(k, pod.duplicate()),
                    None => (),
                }
            },
            WatchEvent::Modified(pod) => {
                let key = match pod.uid() {
                    Some(u) => Some(u.clone()),
                    None => None,
                };
                match key {
                    Some(k) => self.store.update(k, pod.duplicate()),
                    None => (),
                }
            },
            WatchEvent::Deleted(pod) => {
                let key = match pod.uid() {
                    Some(u) => Some(u.clone()),
                    None => None,
                };
                match key {
                    Some(k) => self.store.remove(k.as_str()),
                    None => (),
                }
            },
            WatchEvent::Bookmark(_) => (),
            WatchEvent::ErrorStatus(_) => (),
            WatchEvent::ErrorOther => (),
        }
    }

    /// Drains one stream: applies each recognized event that carries a
    /// resource version, records that version, and publishes the store, in
    /// that order per item. A desync purges the store and forgets the resume
    /// point. The outcome and the final state follow [`drain_model`].
    #[verifier::loop_isolation(false)]
    pub fn drain_session(&mut self, items: Vec<WatchItem>) -> (r: SessionEnd)
        requires
            old(self).wf(),
            old(self).synced(),
        ensures
            final(self).wf(),
            final(self).synced(),
            ({
                let (st, tr, end) = drain_model(
                    old(self)@.published,
                    old(self)@.resource_version,
                    items_model(items@),
                );
                &&& final(self)@.published == st
                &&& final(self)@.resource_version == tr
                &&& r == end
            }),
            final(self)@.pending == old(self)@.pending,
            final(self)@.field_selector == old(self)@.field_selector,
            final(self)@.label_selector == old(self)@.label_selector,
            final(self)@.pause_between_requests_ms == old(self)@.pause_between_requests_ms,
    {
        let ghost target = drain_model(
            old(self)@.published,
            old(self)@.resource_version,
            items_model(items@),
        );
        let mut items = items;
        loop
            invariant
                self.wf(),
                self.synced(),
                drain_model(self@.published, self@.resource_version, items_model(items@))
                    == target,
                self@.pending == old(self)@.pending,
                self@.field_selector == old(self)@.field_selector,
                self@.label_selector == old(self)@.label_selector,
                self@.pause_between_requests_ms == old(self)@.pause_between_requests_ms,
            decreases items@.len(),
        {
            if items.len() == 0 {
                return SessionEnd::Completed;
            }
            let ghost rest_pre = items_model(items@);
            let it = items.remove(0);
            proof {
                assert(rest_pre[0] == fake_watcher::item_model(it));
                assert(items_model(items@) =~= rest_pre.drop_first());
            }
            match it {
                Result::Err(fake_watcher::Error::Desync) => {
                    self.store.purge();
                    self.resource_version.clear();
                    return SessionEnd::Desynced;
                },
                Result::Err(fake_watcher::Error::Other) => {
                    return SessionEnd::Failed;
                },
                Result::Ok(resp) => match resp {
                    WatchResponse::Other => {},
                    WatchResponse::Event(ev) => {
                        let has_rv = match event_resource_version(&ev) {
                            Some(_) => true,
                            None => false,
                        };
                        if has_rv {
                            self.process_event(&ev);
                            self.resource_version.update(&ev);
                            self.store.flush();
                        }
                    },
                },
            }
        }
    }

    /// Runs the watch loop to the end of the watcher's pending items: issues
    /// a watch request, drains the stream, and goes on — starting over after
    /// a desync — until the watcher is exhausted or a stream fails. The final
    /// state and the result follow [`run_model`], starting from a purged
    /// store.
    #[verifier::loop_isolation(false)]
    pub fn run(&mut self) -> (r: Result<(), Error>)
        requires
            old(self).wf(),
            old(self).synced(),
        ensures
            final(self).wf(),
            final(self).synced(),
            ({
                let (st, tr, res) = run_model(
                    Map::<Seq<char>, PodModel>::empty(),
                    old(self)@.resource_version,
                    old(self)@.pending,
                );
                &&& final(self)@.published == st
                &&& final(self)@.resource_version == tr
                &&& r == res
            }),
            r is Ok ==> final(self)@.pending.len() == 0,
            final(self)@.field_selector == old(self)@.field_selector,
            final(self)@.label_selector == old(self)@.label_selector,
            final(self)@.pause_between_requests_ms == old(self)@.pause_between_requests_ms,
    {
        self.store.purge();
        let ghost target = run_model(
            Map::<Seq<char>, PodModel>::empty(),
            old(self)@.resource_version,
            old(self)@.pending,
        );
        loop
            invariant
                self.wf(),
                self.synced(),
                run_model(self@.published, self@.resource_version, self@.pending) == target,
                self@.field_selector == old(self)@.field_selector,
                self@.label_selector == old(self)@.label_selector,
                self@.pause_between_requests_ms == old(self)@.pause_between_requests_ms,
            decreases self.watcher@.len(),
        {
            if self.watcher.remaining() == 0 {
                return Result::Ok(());
            }
            let options = self.current_options();
            let ghost pending_pre = self.watcher@;
            let ghost st_pre = self@.published;
            let ghost tr_pre = self@.resource_version;
            let session = match self.watcher.watch(&options) {
                Result::Ok(s) => s,
                Result::Err(InvocationError::Desync) => {
                    proof {
                        assert(false);
                    }
                    self.store.purge();
                    self.resource_version.clear();
                    continue ;
                },
                Result::Err(InvocationError::Other) => {
                    proof {
                        assert(false);
                    }
                    return Result::Err(Error::Invocation);
                },
            };
            proof {
                lemma_stream_cut_props(pending_pre);
                assert(items_model(session@) + self.watcher@ =~= pending_pre);
                lemma_run_model_split(st_pre, tr_pre, items_model(session@), self.watcher@);
            }
            let end = self.drain_session(session);
            match end {
                SessionEnd::Completed => {},
                SessionEnd::Desynced => {},
                SessionEnd::Failed => {
                    return Result::Err(Error::Streaming);
                },
            }
        }
    }

    /// The store: its published snapshot is the reflector's current mirror.
    pub fn store(&self) -> (r: &Store)
        ensures
            r@.live == self@.live,
            r@.published == self@.published,
            self.wf() ==> r.wf(),
    {
        &self.store
    }

    /// The recorded resume point, when one was observed.
    pub fn resource_version(&self) -> (r: Option<&str>)
        ensures
            match r {
                Some(s) => self@.resource_version == Some(s@),
                None => self@.resource_version is None,
            },
    {
        self.resource_version.get()
    }
}


/// The item is not a recognized event that lacks a resource version: such
/// events are skipped by the reflector and are not part of the fold.
pub open spec fn item_carries_rv(it: WatchItemModel) -> bool {
    match it {
        Result::Ok(WatchResponseModel::Event(ev)) => rv_of_event(ev) is Some,
        Result::Ok(WatchResponseModel::Other) => true,
        Result::Err(_) => true,
    }
}

/// The recognized events of a stream's items, in order.
pub open spec fn events_of(items: Seq<WatchItemModel>) -> Seq<WatchEventModel>
    decreases items.len(),
{
    if items.len() == 0 {
        Seq::empty()
    } else {
        let rest = events_of(items.drop_first());
        match items[0] {
            Result::Ok(WatchResponseModel::Event(ev)) => seq![ev] + rest,
            Result::Ok(WatchResponseModel::Other) => rest,
            Result::Err(_) => rest,
        }
    }
}

/// Events folded left over a map with [`apply_event`].
pub open spec fn fold_apply(
    m: Map<Seq<char>, PodModel>,
    evs: Seq<WatchEventModel>,
) -> Map<Seq<char>, PodModel>
    decreases evs.len(),
{
    if evs.len() == 0 {
        m
    } else {
        fold_apply(apply_event(m, evs[0]), evs.drop_first())
    }
}

/// For any error-free stream of events that carry resource versions, the
/// final map of a drain is the functional left fold of [`apply_event`]:
/// `Added` and `Modified` insert, `Deleted` removes, bookmarks and error
/// payloads change nothing.
pub proof fn lemma_drain_is_fold(
    st: Map<Seq<char>, PodModel>,
    tr: Option<Seq<char>>,
    items: Seq<WatchItemModel>,
)
    requires
        forall|i: int| 0 <= i < items.len() ==> items[i] is Ok,
        forall|i: int| 0 <= i < items.len() ==> item_carries_rv(items[i]),
    ensures
        drain_model(st, tr, items).0 == fold_apply(st, events_of(items)),
        drain_model(st, tr, items).2 == SessionEnd::Completed,
    decreases items.len(),
{
    if items.len() > 0 {
        assert(items[0] is Ok);
        match items[0] {
            Result::Ok(resp) => {
                let (st2, tr2) = step_response(st, tr, resp);
                assert forall|i: int| 0 <= i < items.drop_first().len() implies items.drop_first()[i]
                    is Ok by {
                    assert(items[i + 1] is Ok);
                }
                assert forall|i: int| 0 <= i < items.drop_first().len() implies item_carries_rv(
                    items.drop_first()[i],
                ) by {
                    assert(items.drop_first()[i] == items[i + 1]);
                }
                lemma_drain_is_fold(st2, tr2, items.drop_first());
                match resp {
                    WatchResponseModel::Event(ev) => {
                        assert(events_of(items) == seq![ev] + events_of(items.drop_first()));
                        assert((seq![ev] + events_of(items.drop_first()))[0] == ev);
                        assert((seq![ev] + events_of(items.drop_first())).drop_first() =~= events_of(
                            items.drop_first(),
                        ));
                    },
                    WatchResponseModel::Other => {},
                }
            },
            Result::Err(_) => {},
        }
    }
}

/// Applying the same event twice leaves the map as applying it once does:
/// re-delivery after a crash between apply and advance is harmless.
pub proof fn lemma_apply_idempotent(m: Map<Seq<char>, PodModel>, ev: WatchEventModel)
    ensures
        apply_event(apply_event(m, ev), ev) == apply_event(m, ev),
{
    match ev {
        WatchEventModel::Added(p) => match p.uid() {
            Some(u) => {
                assert(m.insert(u, p).insert(u, p) =~= m.insert(u, p));
            },
            None => {},
        },
        WatchEventModel::Modified(p) => match p.uid() {
            Some(u) => {
                assert(m.insert(u, p).insert(u, p) =~= m.insert(u, p));
            },
            None => {},
        },
        WatchEventModel::Deleted(p) => match p.uid() {
            Some(u) => {
                assert(m.remove(u).remove(u) =~= m.remove(u));
            },
            None => {},
        },
        WatchEventModel::Bookmark(_) => {},
        WatchEventModel::ErrorStatus(_) => {},
        WatchEventModel::ErrorOther => {},
    }
}

/// The resource version carried by one stream item.
pub open spec fn item_rv(it: WatchItemModel) -> Option<Seq<char>> {
    match it {
        Result::Ok(WatchResponseModel::Event(ev)) => rv_of_event(ev),
        Result::Ok(WatchResponseModel::Other) => None,
        Result::Err(_) => None,
    }
}

/// The last resource version carried by a stream's items, if any.
pub open spec fn last_rv_of(items: Seq<WatchItemModel>) -> Option<Seq<char>>
    decreases items.len(),
{
    if items.len() == 0 {
        None
    } else {
        match last_rv_of(items.drop_first()) {
            Some(rv) => Some(rv),
            None => item_rv(items[0]),
        }
    }
}

/// On an error-free stream, the drained resume point is the last carried
/// resource version, or the initial one when none is carried.
pub proof fn lemma_tracker_is_last_rv(
    st: Map<Seq<char>, PodModel>,
    tr: Option<Seq<char>>,
    items: Seq<WatchItemModel>,
)
    requires
        forall|i: int| 0 <= i < items.len() ==> items[i] is Ok,
    ensures
        drain_model(st, tr, items).1 == (match last_rv_of(items) {
            Some(rv) => Some(rv),
            None => tr
        }),
    decreases items.len(),
{
    if items.len() > 0 {
        assert(items[0] is Ok);
        match items[0] {
            Result::Ok(resp) => {
                let (st2, tr2) = step_response(st, tr, resp);
                assert forall|i: int| 0 <= i < items.drop_first().len() implies items.drop_first()[i]
                    is Ok by {
                    assert(items[i + 1] is Ok);
                }
                lemma_tracker_is_last_rv(st2, tr2, items.drop_first());
            },
            Result::Err(_) => {},
        }
    }
}

/// Where the last carried resource version sits: at some item after which no
/// item carries one; or nowhere, when no item carries one.
pub proof fn lemma_last_rv_position(items: Seq<WatchItemModel>)
    ensures
        match last_rv_of(items) {
            None => forall|k: int| 0 <= k < items.len() ==> item_rv(items[k]) is None,
            Some(rv) => exists|k: int|
                0 <= k < items.len() && item_rv(items[k]) == Some(rv) && (forall|l: int|
                    k < l < items.len() ==> item_rv(items[l]) is None),
        },
    decreases items.len(),
{
    if items.len() > 0 {
        lemma_last_rv_position(items.drop_first());
        match last_rv_of(items.drop_first()) {
            Some(rv) => {
                let k0 = choose|k: int|
                    0 <= k < items.drop_first().len() && item_rv(items.drop_first()[k]) == Some(rv)
                        && (forall|l: int|
                        k < l < items.drop_first().len() ==> item_rv(items.drop_first()[l])
                            is None);
                let k = k0 + 1;
                assert(item_rv(items[k]) == Some(rv));
                assert forall|l: int| k < l < items.len() implies item_rv(items[l]) is None by {
                    assert(items[l] == items.drop_first()[l - 1]);
                }
            },
            None => {
                match item_rv(items[0]) {
                    Some(_) => {
                        let k = 0int;
                        assert forall|l: int| k < l < items.len() implies item_rv(items[l])
                            is None by {
                            assert(items[l] == items.drop_first()[l - 1]);
                        }
                        assert(item_rv(items[k]) == last_rv_of(items));
                    },
                    None => {
                        assert forall|k: int| 0 <= k < items.len() implies item_rv(items[k])
                            is None by {
                            if k > 0 {
                                assert(items[k] == items.drop_first()[k - 1]);
                            }
                        }
                    },
                }
            },
        }
    }
}

/// Two optional versions arrive in nondecreasing order of the measure `m`,
/// where both carry one.
pub open spec fn rv_pair_ordered(
    m: spec_fn(Seq<char>) -> nat,
    a: Option<Seq<char>>,
    b: Option<Seq<char>>,
) -> bool {
    match (a, b) {
        (Some(x), Some(y)) => m(x) <= m(y),
        _ => true,
    }
}

/// An absent resume point measures zero; a recorded one measures above zero.
pub open spec fn rv_measure(m: spec_fn(Seq<char>) -> nat, tr: Option<Seq<char>>) -> nat {
    match tr {
        None => 0,
        Some(rv) => m(rv) + 1,
    }
}

/// During a single error-free stream the recorded resource version advances
/// monotonically: measured by any order `m` in which the stream's versions
/// arrive nondecreasing, the resume point after a longer prefix measures at
/// least the one after a shorter prefix.
pub proof fn lemma_tracker_monotone(
    st: Map<Seq<char>, PodModel>,
    items: Seq<WatchItemModel>,
    m: spec_fn(Seq<char>) -> nat,
    i: int,
    j: int,
)
    requires
        forall|k: int| 0 <= k < items.len() ==> items[k] is Ok,
        forall|k1: int, k2: int|
            0 <= k1 <= k2 < items.len() ==> rv_pair_ordered(m, item_rv(items[k1]), item_rv(items[k2])),
        0 <= i <= j <= items.len(),
    ensures
        rv_measure(m, drain_model(st, None, items.subrange(0, i)).1) <= rv_measure(
            m,
            drain_model(st, None, items.subrange(0, j)).1,
        ),
{
    let pre_i = items.subrange(0, i);
    let pre_j = items.subrange(0, j);
    assert forall|k: int| 0 <= k < pre_i.len() implies pre_i[k] is Ok by {
        assert(pre_i[k] == items[k]);
    }
    assert forall|k: int| 0 <= k < pre_j.len() implies pre_j[k] is Ok by {
        assert(pre_j[k] == items[k]);
    }
    lemma_tracker_is_last_rv(st, None, pre_i);
    lemma_tracker_is_last_rv(st, None, pre_j);
    lemma_last_rv_position(pre_i);
    lemma_last_rv_position(pre_j);
    match last_rv_of(pre_i) {
        None => {},
        Some(rvi) => {
            let ki = choose|k: int|
                0 <= k < pre_i.len() && item_rv(pre_i[k]) == Some(rvi) && (forall|l: int|
                    k < l < pre_i.len() ==> item_rv(pre_i[l]) is None);
            assert(items[ki] == pre_i[ki]);
            match last_rv_of(pre_j) {
                None => {
                    assert(item_rv(pre_j[ki]) is None);
                    assert(pre_j[ki] == items[ki]);
                    assert(false);
                },
                Some(rvj) => {
                    let kj = choose|k: int|
                        0 <= k < pre_j.len() && item_rv(pre_j[k]) == Some(rvj) && (forall|l: int|
                            k < l < pre_j.len() ==> item_rv(pre_j[l]) is None);
                    assert(pre_j[kj] == items[kj]);
                    if ki > kj {
                        assert(item_rv(pre_j[ki]) is None);
                        assert(pre_j[ki] == items[ki]);
                        assert(false);
                    }
                    assert(rv_pair_ordered(m, item_rv(items[ki]), item_rv(items[kj])));
                },
            }
        },
    }
}

/// A desync anywhere in a stream drains to an empty map and an absent resume
/// point, whatever came before it.
pub proof fn lemma_desync_resets(
    st: Map<Seq<char>, PodModel>,
    tr: Option<Seq<char>>,
    items: Seq<WatchItemModel>,
    k: int,
)
    requires
        0 <= k < items.len(),
        items[k] == Result::<WatchResponseModel, fake_watcher::Error>::Err(
            fake_watcher::Error::Desync,
        ),
        forall|i: int| 0 <= i < k ==> items[i] is Ok,
    ensures
        drain_model(st, tr, items).0 == Map::<Seq<char>, PodModel>::empty(),
        drain_model(st, tr, items).1 is None,
        drain_model(st, tr, items).2 == SessionEnd::Desynced,
    decreases k,
{
    if k > 0 {
        assert(items[0] is Ok);
        match items[0] {
            Result::Ok(resp) => {
                let (st2, tr2) = step_response(st, tr, resp);
                assert(items.drop_first()[k - 1] == items[k]);
                assert forall|i: int| 0 <= i < k - 1 implies items.drop_first()[i] is Ok by {
                    assert(items.drop_first()[i] == items[i + 1]);
                }
                lemma_desync_resets(st2, tr2, items.drop_first(), k - 1);
            },
            Result::Err(_) => {},
        }
    }
}

} // verus!
