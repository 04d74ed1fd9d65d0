//! Watching the pods scheduled on one node: the request-building side.
//!
//! The HTTP exchange itself — sending the request, checking the status,
//! decoding the body frames — is the transport's business; this module
//! prepares what such a transport sends: the watch options and the query of
//! `GET /api/v1/pods`.

use crate::event::clone_opt_string;
use crate::kubernetes::object::{WatchOptional, WatchOptionalModel};
use vstd::prelude::*;
use vstd::string::StringExecFns;

verus! {

/// The query parameters of a pod watch request, in order: `watch=true`
/// always; the field and label selectors, the resume point, and the bookmark
/// request, each when set.
pub open spec fn spec_watch_query_pairs(o: WatchOptionalModel) -> Seq<(Seq<char>, Seq<char>)> {
    seq![("watch"@, "true"@)] + (match o.field_selector {
        Some(v) => seq![("fieldSelector"@, v)],
        None => Seq::empty(),
    }) + (match o.label_selector {
        Some(v) => seq![("labelSelector"@, v)],
        None => Seq::empty(),
    }) + (match o.resource_version {
        Some(v) => seq![("resourceVersion"@, v)],
        None => Seq::empty(),
    }) + (match o.allow_watch_bookmarks {
        Some(true) => seq![("allowWatchBookmarks"@, "true"@)],
        Some(false) => seq![("allowWatchBookmarks"@, "false"@)],
        None => Seq::empty(),
    })
}

/// The path of the pod watch request.
pub fn watch_request_path() -> (r: String)
    ensures
        r@ == "/api/v1/pods"@,
{
    String::from_str("/api/v1/pods")
}

/// The query parameters of a pod watch request, as
/// [`spec_watch_query_pairs`] says. The transport percent-encodes the values
/// when it assembles the URL.
pub fn watch_query_pairs(options: &WatchOptional) -> (r: Vec<(String, String)>)
    ensures
        r.deep_view() == spec_watch_query_pairs(options@),
{
    let mut r: Vec<(String, String)> = Vec::new();
    r.push((String::from_str("watch"), String::from_str("true")));
    match &options.field_selector {
        Some(v) => r.push((String::from_str("fieldSelector"), v.clone())),
        None => (),
    }
    match &options.label_selector {
        Some(v) => r.push((String::from_str("labelSelector"), v.clone())),
        None => (),
    }
    match &options.resource_version {
        Some(v) => r.push((String::from_str("resourceVersion"), v.clone())),
        None => (),
    }
    match &options.allow_watch_bookmarks {
        Some(true) => r.push(
            (String::from_str("allowWatchBookmarks"), String::from_str("true")),
        ),
        Some(false) => r.push(
            (String::from_str("allowWatchBookmarks"), String::from_str("false")),
        ),
        None => (),
    }
    proof {
        assert(r.deep_view() =~= spec_watch_query_pairs(options@));
    }
    r
}

/// Prepares watch requests over the pods of one node, holding the selectors
/// the requests carry and the resume point of the next one.
pub struct PodsWatcher {
    field_selector: Option<String>,
    label_selector: Option<String>,
    resource_version: Option<String>,
}

/// Mathematical model of a [`PodsWatcher`].
pub struct PodsWatcherModel {
    pub field_selector: Option<Seq<char>>,
    pub label_selector: Option<Seq<char>>,
    pub resource_version: Option<Seq<char>>,
}

impl View for PodsWatcher {
    type V = PodsWatcherModel;

    closed spec fn view(&self) -> PodsWatcherModel {
        PodsWatcherModel {
            field_selector: self.field_selector.deep_view(),
            label_selector: self.label_selector.deep_view(),
            resource_version: self.resource_version.deep_view(),
        }
    }
}

impl PodsWatcher {
    /// Creates a watcher over the given selectors, with no resume point yet.
    pub fn new(field_selector: Option<String>, label_selector: Option<String>) -> (r: PodsWatcher)
        ensures
            r@.field_selector == field_selector.deep_view(),
            r@.label_selector == label_selector.deep_view(),
            r@.resource_version is None,
    {
        PodsWatcher { field_selector, label_selector, resource_version: None }
    }

    /// Records the resume point of the next watch request.
    pub fn set_resource_version(&mut self, resource_version: Option<String>)
        ensures
            final(self)@.field_selector == old(self)@.field_selector,
            final(self)@.label_selector == old(self)@.label_selector,
            final(self)@.resource_version == resource_version.deep_view(),
    {
        self.resource_version = resource_version;
    }

    /// The options of the next watch request: the selectors, the resume
    /// point, and bookmarks requested.
    pub fn watch_options(&self) -> (r: WatchOptional)
        ensures
            r@.allow_watch_bookmarks == Some(true),
            r@.field_selector == self@.field_selector,
            r@.label_selector == self@.label_selector,
            r@.pretty is None,
            r@.resource_version == self@.resource_version,
            r@.timeout_seconds is None,
    {
        WatchOptional {
            allow_watch_bookmarks: Some(true),
            field_selector: clone_opt_string(&self.field_selector),
            label_selector: clone_opt_string(&self.label_selector),
            pretty: None,
            resource_version: clone_opt_string(&self.resource_version),
            timeout_seconds: None,
        }
    }
}

} // verus!
