use kubernetes_logs::kubernetes::fake_watcher::{Error, FakeWatcher, WatchItem};
use kubernetes_logs::kubernetes::object::{Pod, PodMeta, WatchEvent, WatchResponse};
use kubernetes_logs::kubernetes::reflector;
use kubernetes_logs::kubernetes::reflector::{Reflector, SessionEnd};
use kubernetes_logs::kubernetes::watcher::{classify_watch_status, InvocationError};

fn meta(uid: Option<&str>, rv: Option<&str>) -> PodMeta {
    PodMeta {
        uid: uid.map(|s| s.to_string()),
        namespace: Some("ns".to_string()),
        name: Some("name".to_string()),
        resource_version: rv.map(|s| s.to_string()),
    }
}

fn pod(uid: &str, rv: &str) -> Pod {
    Pod { metadata: Some(meta(Some(uid), Some(rv))) }
}

fn added(uid: &str, rv: &str) -> WatchItem {
    Ok(WatchResponse::Event(WatchEvent::Added(pod(uid, rv))))
}

fn deleted(uid: &str, rv: &str) -> WatchItem {
    Ok(WatchResponse::Event(WatchEvent::Deleted(pod(uid, rv))))
}

fn bookmark(rv: &str) -> WatchItem {
    Ok(WatchResponse::Event(WatchEvent::Bookmark(meta(None, Some(rv)))))
}

#[test]
fn reflector_folds_one_stream() {
    let items = vec![added("A", "1"), added("B", "2"), deleted("A", "3"), bookmark("4")];
    let mut reflector = Reflector::new(FakeWatcher::new(items), None, None, 1000);
    assert_eq!(reflector.run(), Ok(()));
    let snapshot = reflector.store().read();
    assert_eq!(snapshot.len(), 1);
    assert!(snapshot.get("A").is_none());
    let b = snapshot.get("B").expect("B must be mirrored");
    assert_eq!(
        b.metadata.as_ref().unwrap().resource_version,
        Some("2".to_string())
    );
    assert_eq!(reflector.resource_version(), Some("4"));
}

#[test]
fn reflector_desync_purges_and_resumes() {
    let items = vec![
        added("A", "1"),
        Err(Error::Desync),
        added("C", "10"),
    ];
    let mut reflector = Reflector::new(FakeWatcher::new(items), None, None, 1000);
    assert_eq!(reflector.run(), Ok(()));
    let snapshot = reflector.store().read();
    assert_eq!(snapshot.len(), 1);
    assert!(snapshot.get("A").is_none());
    assert!(snapshot.get("C").is_some());
    assert_eq!(reflector.resource_version(), Some("10"));
}

#[test]
fn desync_is_observable_as_an_empty_snapshot_between_sessions() {
    let mut reflector = Reflector::new(FakeWatcher::new(Vec::new()), None, None, 1000);
    let end = reflector.drain_session(vec![added("A", "1"), Err(Error::Desync)]);
    assert_eq!(end, SessionEnd::Desynced);
    assert_eq!(reflector.store().read().len(), 0);
    assert_eq!(reflector.resource_version(), None);
    let end = reflector.drain_session(vec![added("C", "10")]);
    assert_eq!(end, SessionEnd::Completed);
    assert_eq!(reflector.store().read().len(), 1);
    assert_eq!(reflector.resource_version(), Some("10"));
}

#[test]
fn stream_fault_is_fatal() {
    let items = vec![added("A", "1"), Err(Error::Other), added("C", "10")];
    let mut reflector = Reflector::new(FakeWatcher::new(items), None, None, 1000);
    assert_eq!(reflector.run(), Err(reflector::Error::Streaming));
    assert_eq!(reflector.store().read().len(), 1);
    assert!(reflector.store().read().get("A").is_some());
    assert_eq!(reflector.resource_version(), Some("1"));
}

#[test]
fn unrecognized_envelopes_and_events_without_a_version_are_skipped() {
    let no_rv = Ok(WatchResponse::Event(WatchEvent::Added(Pod {
        metadata: Some(meta(Some("X"), None)),
    })));
    let items = vec![added("A", "1"), Ok(WatchResponse::Other), no_rv];
    let mut reflector = Reflector::new(FakeWatcher::new(items), None, None, 1000);
    assert_eq!(reflector.run(), Ok(()));
    assert_eq!(reflector.store().read().len(), 1);
    assert!(reflector.store().read().get("X").is_none());
    assert_eq!(reflector.resource_version(), Some("1"));
}

#[test]
fn pods_without_a_uid_are_not_mirrored_but_advance_the_version() {
    let no_uid = Ok(WatchResponse::Event(WatchEvent::Added(Pod {
        metadata: Some(meta(None, Some("7"))),
    })));
    let mut reflector = Reflector::new(FakeWatcher::new(vec![no_uid]), None, None, 1000);
    assert_eq!(reflector.run(), Ok(()));
    assert_eq!(reflector.store().read().len(), 0);
    assert_eq!(reflector.resource_version(), Some("7"));
}

#[test]
fn redelivered_events_are_idempotent() {
    let items = vec![added("A", "1"), added("A", "1"), deleted("B", "2"), deleted("B", "2")];
    let mut reflector = Reflector::new(FakeWatcher::new(items), None, None, 1000);
    assert_eq!(reflector.run(), Ok(()));
    assert_eq!(reflector.store().read().len(), 1);
    assert!(reflector.store().read().get("A").is_some());
    assert_eq!(reflector.resource_version(), Some("2"));
}

#[test]
fn fake_watcher_serves_streams_up_to_each_error() {
    let items = vec![added("A", "1"), Err(Error::Desync), added("C", "10")];
    let mut watcher = FakeWatcher::new(items);
    let options = kubernetes_logs::kubernetes::object::WatchOptional {
        allow_watch_bookmarks: Some(true),
        field_selector: None,
        label_selector: None,
        pretty: None,
        resource_version: None,
        timeout_seconds: None,
    };
    let first = watcher.watch(&options).unwrap();
    assert_eq!(first.len(), 2);
    assert!(matches!(first[1], Err(Error::Desync)));
    assert_eq!(watcher.remaining(), 1);
    let second = watcher.watch(&options).unwrap();
    assert_eq!(second.len(), 1);
    assert_eq!(watcher.remaining(), 0);
    let third = watcher.watch(&options).unwrap();
    assert!(third.is_empty());
}

#[test]
fn http_statuses_classify_to_invocation_outcomes() {
    assert!(classify_watch_status(200).is_ok());
    assert_eq!(classify_watch_status(410), Err(InvocationError::Desync));
    assert_eq!(classify_watch_status(403), Err(InvocationError::Other));
    assert_eq!(classify_watch_status(500), Err(InvocationError::Other));
    assert_eq!(
        InvocationError::Desync.message(),
        "watch resume point too old, server discarded its history"
    );
}

#[test]
fn reflector_errors_describe_themselves() {
    assert_eq!(reflector::Error::Streaming.message(), "watch stream failed");
    assert_eq!(reflector::Error::Invocation.message(), "watch invocation failed");
    assert_eq!(
        reflector::Error::InvalidDataOnStream.message(),
        "got unexpected data in the watch response"
    );
}
