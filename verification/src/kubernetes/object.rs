//! Plain-value models of the Kubernetes API objects the pipeline consumes.
//!
//! Only the fields the core reads are carried: a pod's UID, namespace, name
//! and resource version. Everything is optional, as it is on the wire; events
//! whose required fields are absent are skipped by the consumers.

use crate::event::clone_opt_string;
use vstd::prelude::*;

verus! {

/// Mathematical model of [`PodMeta`].
pub struct PodMetaModel {
    pub uid: Option<Seq<char>>,
    pub namespace: Option<Seq<char>>,
    pub name: Option<Seq<char>>,
    pub resource_version: Option<Seq<char>>,
}

/// The object metadata of a pod: the part of the API object the core reads.
pub struct PodMeta {
    pub uid: Option<String>,
    pub namespace: Option<String>,
    pub name: Option<String>,
    pub resource_version: Option<String>,
}

impl View for PodMeta {
    type V = PodMetaModel;

    open spec fn view(&self) -> PodMetaModel {
        PodMetaModel {
            uid: self.uid.deep_view(),
            namespace: self.namespace.deep_view(),
            name: self.name.deep_view(),
            resource_version: self.resource_version.deep_view(),
        }
    }
}

impl PodMeta {
    /// An exact copy of the metadata.
    pub fn duplicate(&self) -> (r: PodMeta)
        ensures
            r@ == self@,
    {
        PodMeta {
            uid: clone_opt_string(&self.uid),
            namespace: clone_opt_string(&self.namespace),
            name: clone_opt_string(&self.name),
            resource_version: clone_opt_string(&self.resource_version),
        }
    }
}

/// Mathematical model of [`Pod`].
pub struct PodModel {
    pub metadata: Option<PodMetaModel>,
}

/// A pod object, reduced to the metadata the core consumes.
pub struct Pod {
    pub metadata: Option<PodMeta>,
}

impl View for Pod {
    type V = PodModel;

    open spec fn view(&self) -> PodModel {
        PodModel {
            metadata: match self.metadata {
                Some(ref m) => Some(m@),
                None => None,
            },
        }
    }
}

impl PodModel {
    /// The stable identifier of the pod, when present.
    pub open spec fn uid(self) -> Option<Seq<char>> {
        match self.metadata {
            Some(m) => m.uid,
            None => None,
        }
    }

    /// The resource version carried by the pod, when present.
    pub open spec fn resource_version(self) -> Option<Seq<char>> {
        match self.metadata {
            Some(m) => m.resource_version,
            None => None,
        }
    }
}

impl Pod {
    /// The stable identifier of the pod, when present.
    pub fn uid(&self) -> (r: Option<&String>)
        ensures
            r.deep_view() == self@.uid(),
    {
        match &self.metadata {
            Some(m) => match &m.uid {
                Some(u) => Some(u),
                None => None,
            },
            None => None,
        }
    }

    /// An exact copy of the pod.
    pub fn duplicate(&self) -> (r: Pod)
        ensures
            r@ == self@,
    {
        Pod {
            metadata: match &self.metadata {
                Some(m) => Some(m.duplicate()),
                None => None,
            },
        }
    }
}

/// Mathematical model of [`Status`].
pub struct StatusModel {
    pub code: Option<i32>,
    pub message: Option<Seq<char>>,
    pub reason: Option<Seq<char>>,
}

/// The status object the API server sends with an error event.
pub struct Status {
    pub code: Option<i32>,
    pub message: Option<String>,
    pub reason: Option<String>,
}

impl View for Status {
    type V = StatusModel;

    open spec fn view(&self) -> StatusModel {
        StatusModel {
            code: self.code,
            message: self.message.deep_view(),
            reason: self.reason.deep_view(),
        }
    }
}

/// Mathematical model of [`WatchEvent`].
pub enum WatchEventModel {
    Added(PodModel),
    Modified(PodModel),
    Deleted(PodModel),
    Bookmark(PodMetaModel),
    ErrorStatus(StatusModel),
    ErrorOther,
}

/// One event of a watch stream.
///
/// A `Bookmark` carries only metadata with an updated resource version, no
/// object data. The error variants carry a status object, or nothing when the
/// payload was unrecognized.
pub enum WatchEvent {
    Added(Pod),
    Modified(Pod),
    Deleted(Pod),
    Bookmark(PodMeta),
    ErrorStatus(Status),
    ErrorOther,
}

impl View for WatchEvent {
    type V = WatchEventModel;

    open spec fn view(&self) -> WatchEventModel {
        match self {
            WatchEvent::Added(p) => WatchEventModel::Added(p@),
            WatchEvent::Modified(p) => WatchEventModel::Modified(p@),
            WatchEvent::Deleted(p) => WatchEventModel::Deleted(p@),
            WatchEvent::Bookmark(m) => WatchEventModel::Bookmark(m@),
            WatchEvent::ErrorStatus(s) => WatchEventModel::ErrorStatus(s@),
            WatchEvent::ErrorOther => WatchEventModel::ErrorOther,
        }
    }
}

/// The resource version carried by an event: the one of its pod or bookmark
/// metadata. Error events and events without one yield `None`.
pub open spec fn rv_of_event(ev: WatchEventModel) -> Option<Seq<char>> {
    match ev {
        WatchEventModel::Added(p) => p.resource_version(),
        WatchEventModel::Modified(p) => p.resource_version(),
        WatchEventModel::Deleted(p) => p.resource_version(),
        WatchEventModel::Bookmark(m) => m.resource_version,
        WatchEventModel::ErrorStatus(_) => None,
        WatchEventModel::ErrorOther => None,
    }
}

/// The resource version carried by an event, to be recorded before the next
/// resume. Mirrors [`rv_of_event`].
pub fn event_resource_version(event: &WatchEvent) -> (r: Option<&String>)
    ensures
        r.deep_view() == rv_of_event(event@),
{
    let metadata = match event {
        WatchEvent::Added(pod) => &pod.metadata,
        WatchEvent::Modified(pod) => &pod.metadata,
        WatchEvent::Deleted(pod) => &pod.metadata,
        WatchEvent::Bookmark(meta) => {
            return match &meta.resource_version {
                Some(rv) => Some(rv),
                None => None,
            };
        },
        WatchEvent::ErrorStatus(_) => {
            return None;
        },
        WatchEvent::ErrorOther => {
            return None;
        },
    };
    match metadata {
        Some(meta) => match &meta.resource_version {
            Some(rv) => Some(rv),
            None => None,
        },
        None => None,
    }
}

/// Mathematical model of [`WatchResponse`].
pub enum WatchResponseModel {
    Event(WatchEventModel),
    Other,
}

/// One decoded frame of a watch stream: a recognized event, or a well-formed
/// envelope whose payload is an unrecognized variant.
pub enum WatchResponse {
    Event(WatchEvent),
    Other,
}

impl View for WatchResponse {
    type V = WatchResponseModel;

    open spec fn view(&self) -> WatchResponseModel {
        match self {
            WatchResponse::Event(ev) => WatchResponseModel::Event(ev@),
            WatchResponse::Other => WatchResponseModel::Other,
        }
    }
}

/// The options of one watch request.
pub struct WatchOptional {
    pub allow_watch_bookmarks: Option<bool>,
    pub field_selector: Option<String>,
    pub label_selector: Option<String>,
    pub pretty: Option<String>,
    pub resource_version: Option<String>,
    pub timeout_seconds: Option<i64>,
}

/// Mathematical model of [`WatchOptional`].
pub struct WatchOptionalModel {
    pub allow_watch_bookmarks: Option<bool>,
    pub field_selector: Option<Seq<char>>,
    pub label_selector: Option<Seq<char>>,
    pub pretty: Option<Seq<char>>,
    pub resource_version: Option<Seq<char>>,
    pub timeout_seconds: Option<i64>,
}

impl View for WatchOptional {
    type V = WatchOptionalModel;

    open spec fn view(&self) -> WatchOptionalModel {
        WatchOptionalModel {
            allow_watch_bookmarks: self.allow_watch_bookmarks,
            field_selector: self.field_selector.deep_view(),
            label_selector: self.label_selector.deep_view(),
            pretty: self.pretty.deep_view(),
            resource_version: self.resource_version.deep_view(),
            timeout_seconds: self.timeout_seconds,
        }
    }
}

} // verus!
