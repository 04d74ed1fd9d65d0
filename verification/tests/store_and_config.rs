use kubernetes_logs::kubernetes::object::{Pod, PodMeta, WatchOptional};
use kubernetes_logs::kubernetes::pods_watcher::{watch_query_pairs, watch_request_path, PodsWatcher};
use kubernetes_logs::kubernetes::store::Store;
use kubernetes_logs::kubernetes_logs::k8s_paths_provider::K8sPathsProvider;
use kubernetes_logs::kubernetes_logs::{
    create_event, emit_event, file_server_settings, resolve_self_node_name,
    self_node_field_selector, BuildError, Config,
};

fn pod(ns: &str, name: &str, uid: &str) -> Pod {
    Pod {
        metadata: Some(PodMeta {
            uid: Some(uid.to_string()),
            namespace: Some(ns.to_string()),
            name: Some(name.to_string()),
            resource_version: Some("1".to_string()),
        }),
    }
}

#[test]
fn readers_see_only_flushed_state() {
    let mut store = Store::new();
    store.insert("u1".to_string(), pod("ns", "a", "u1"));
    assert_eq!(store.read().len(), 0);
    store.flush();
    assert_eq!(store.read().len(), 1);
    store.remove("u1");
    assert_eq!(store.read().len(), 1);
    store.flush();
    assert_eq!(store.read().len(), 0);
}

#[test]
fn purge_publishes_an_empty_snapshot_at_once() {
    let mut store = Store::new();
    store.insert("u1".to_string(), pod("ns", "a", "u1"));
    store.flush();
    assert_eq!(store.read().len(), 1);
    store.purge();
    assert_eq!(store.read().len(), 0);
}

#[test]
fn inserting_an_existing_uid_replaces_the_pod() {
    let mut store = Store::new();
    store.insert("u1".to_string(), pod("ns", "old", "u1"));
    store.update("u1".to_string(), pod("ns", "new", "u1"));
    store.flush();
    assert_eq!(store.read().len(), 1);
    let stored = store.read().get("u1").unwrap();
    assert_eq!(stored.metadata.as_ref().unwrap().name, Some("new".to_string()));
}

#[test]
fn paths_provider_derives_one_glob_per_complete_pod() {
    let mut store = Store::new();
    store.insert("u1".to_string(), pod("ns", "a", "u1"));
    store.insert(
        "u2".to_string(),
        Pod {
            metadata: Some(PodMeta {
                uid: Some("u2".to_string()),
                namespace: None,
                name: Some("b".to_string()),
                resource_version: None,
            }),
        },
    );
    store.flush();
    let provider = K8sPathsProvider::new(store.read().duplicate());
    let patterns = provider.glob_patterns();
    assert_eq!(patterns, vec!["/var/log/pods/ns_a_u1/**/*.log".to_string()]);
}

#[test]
fn node_name_comes_from_config_or_environment() {
    let configured = Config { self_node_name: "node-1".to_string(), ..Config::default() };
    assert_eq!(
        resolve_self_node_name(&configured, Some("ignored".to_string())),
        Ok("node-1".to_string())
    );
    let empty = Config::default();
    assert_eq!(
        resolve_self_node_name(&empty, Some("from-env".to_string())),
        Ok("from-env".to_string())
    );
    assert_eq!(
        resolve_self_node_name(&empty, None),
        Err(BuildError::MissingSelfNodeName)
    );
}

#[test]
fn field_selector_names_the_node() {
    assert_eq!(self_node_field_selector("node-1"), "spec.nodeName=node-1");
}

#[test]
fn watch_requests_carry_the_selectors_and_resume_point() {
    assert_eq!(watch_request_path(), "/api/v1/pods");
    let mut watcher = PodsWatcher::new(Some("spec.nodeName=node-1".to_string()), None);
    watcher.set_resource_version(Some("42".to_string()));
    let options: WatchOptional = watcher.watch_options();
    let pairs = watch_query_pairs(&options);
    let expected = vec![
        ("watch".to_string(), "true".to_string()),
        ("fieldSelector".to_string(), "spec.nodeName=node-1".to_string()),
        ("resourceVersion".to_string(), "42".to_string()),
        ("allowWatchBookmarks".to_string(), "true".to_string()),
    ];
    assert_eq!(pairs, expected);
}

#[test]
fn created_events_carry_the_source_type() {
    let event = create_event("raw line".to_string(), Some("/f".to_string()));
    assert_eq!(event.message, "raw line");
    assert_eq!(event.source_type, Some("kubernetes_logs".to_string()));
    assert_eq!(event.file, Some("/f".to_string()));
    assert!(event.timestamp.is_none());
}

#[test]
fn emitted_records_always_carry_the_source_type() {
    let mut event = create_event("m".to_string(), Some("/f".to_string()));
    event.source_type = None;
    let out = emit_event(event);
    assert_eq!(out.source_type, Some("kubernetes_logs".to_string()));
    assert_eq!(out.message, "m");
    assert_eq!(out.file, Some("/f".to_string()));
}

#[test]
fn file_server_defaults_match_the_source() {
    let config = Config::default();
    assert!(config.partial_events_merger_enabled);
    let settings = file_server_settings(&config);
    assert_eq!(settings.max_line_bytes, 102400);
    assert_eq!(settings.max_read_bytes, 2048);
    assert_eq!(settings.glob_minimum_cooldown_ms, 1000);
    assert_eq!(settings.fingerprint_bytes, 256);
    assert_eq!(settings.ignored_header_bytes, 0);
    assert!(!settings.oldest_first);
    assert!(settings.start_at_beginning);
}
