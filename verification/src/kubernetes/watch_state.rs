//! Shared state bits for watch implementations.

use crate::kubernetes::object::{rv_of_event, WatchEvent, WatchEventModel};
use vstd::prelude::*;
use vstd::string::StringExecFns;

verus! {

/// The resource version state after an event: the version the event carries,
/// or the current one when the event carries none (error variants, absent
/// metadata, absent version).
pub open spec fn spec_update_rv(
    cur: Option<Seq<char>>,
    ev: WatchEventModel,
) -> Option<Seq<char>> {
    match rv_of_event(ev) {
        Some(rv) => Some(rv),
        None => cur,
    }
}

/// Resource version state in the context of a watch request: the highest
/// observed resource version, used as the resume point of the next watch.
pub struct ResourceVersionState {
    value: Option<String>,
}

impl View for ResourceVersionState {
    type V = Option<Seq<char>>;

    closed spec fn view(&self) -> Option<Seq<char>> {
        self.value.deep_view()
    }
}

impl ResourceVersionState {
    /// Creates a state with no resume point: the next watch starts from the
    /// current list head.
    pub fn new() -> (r: ResourceVersionState)
        ensures
            r@ is None,
    {
        ResourceVersionState { value: None }
    }

    /// Updates the resource version from an event. Error variants and events
    /// without a resource version leave the state unchanged.
    pub fn update(&mut self, event: &WatchEvent)
        ensures
            final(self)@ == spec_update_rv(old(self)@, event@),
    {
        let metadata = match event {
            WatchEvent::Added(pod) => &pod.metadata,
            WatchEvent::Modified(pod) => &pod.metadata,
            WatchEvent::Deleted(pod) => &pod.metadata,
            WatchEvent::Bookmark(meta) => {
                match &meta.resource_version {
                    Some(rv) => {
                        self.value = Some(rv.clone());
                    },
                    None => {},
                }
                return ;
            },
            WatchEvent::ErrorStatus(_) => {
                return ;
            },
            WatchEvent::ErrorOther => {
                return ;
            },
        };
        match metadata {
            Some(meta) => match &meta.resource_version {
                Some(rv) => {
                    self.value = Some(rv.clone());
                },
                None => {},
            },
            None => {},
        }
    }

    /// Forgets the resume point, as required after a desync.
    pub fn clear(&mut self)
        ensures
            final(self)@ is None,
    {
        self.value = None;
    }

    /// The current resume point, when one was observed.
    pub fn get(&self) -> (r: Option<&str>)
        ensures
            match r {
                Some(s) => self@ == Some(s@),
                None => self@ is None,
            },
    {
        match &self.value {
            Some(s) => Some(s.as_str()),
            None => None,
        }
    }
}

} // verus!
