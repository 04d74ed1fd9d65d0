//! The `kubernetes_logs` source: consumes the log files that the kubelet
//! keeps under `/var/log/pods` on the host of a cluster node.

pub mod k8s_paths_provider;
pub mod parser;
pub mod partial_events_merger;
pub mod path_helpers;
pub mod stream_table;

use crate::event::LogEvent;
use vstd::prelude::*;
use vstd::string::StringExecFns;

verus! {

/// The name under which every record leaves this source.
pub const COMPONENT_NAME: &'static str = "kubernetes_logs";

/// Configuration for the `kubernetes_logs` source.
#[derive(Debug)]
pub struct Config {
    /// The name of the node to collect the logs of; empty to fall back to the
    /// `VECTOR_SELF_NODE_NAME` environment value.
    pub self_node_name: String,
    /// Whether fragment-tagged lines are merged into whole records.
    pub partial_events_merger_enabled: bool,
    /// How long at least between two glob rediscoveries, in milliseconds.
    pub glob_minimum_cooldown_ms: u64,
    /// The longest line kept; longer ones are truncated.
    pub max_line_bytes: usize,
    /// The largest chunk taken from one file before moving to the next.
    pub max_read_bytes: usize,
    /// How many leading bytes identify a file across renames.
    pub fingerprint_bytes: usize,
    /// How many bytes to skip before fingerprinting.
    pub ignored_header_bytes: usize,
}

impl Default for Config {
    /// The source's defaults: no node name, merging on, a one-second
    /// rediscovery cooldown, lines up to 100 KiB, 2048-byte reads, and a
    /// checksum of the first 256 bytes as a file's identity.
    fn default() -> (r: Config)
        ensures
            r.self_node_name@ == Seq::<char>::empty(),
            r.partial_events_merger_enabled == true,
            r.glob_minimum_cooldown_ms == 1000,
            r.max_line_bytes == 102400,
            r.max_read_bytes == 2048,
            r.fingerprint_bytes == 256,
            r.ignored_header_bytes == 0,
    {
        Config {
            self_node_name: String::new(),
            partial_events_merger_enabled: true,
            glob_minimum_cooldown_ms: 1000,
            max_line_bytes: 102400,
            max_read_bytes: 2048,
            fingerprint_bytes: 256,
            ignored_header_bytes: 0,
        }
    }
}

/// Why the source could not be built.
#[derive(Clone, Copy, Debug, PartialEq, Eq, Structural)]
pub enum BuildError {
    /// Neither the configuration nor the environment names the node.
    MissingSelfNodeName,
}

/// The node name to use: the configured one where it is non-empty, else
/// whatever the environment offers.
pub open spec fn spec_resolve_node_name(
    configured: Seq<char>,
    env: Option<Seq<char>>,
) -> Option<Seq<char>> {
    if configured.len() > 0 {
        Some(configured)
    } else {
        env
    }
}

/// Resolves the node name to collect logs for: the configured name, or the
/// value of the `VECTOR_SELF_NODE_NAME` environment variable — read by the
/// caller — where the configured one is empty. With neither, starting up
/// fails.
pub fn resolve_self_node_name(config: &Config, env_value: Option<String>) -> (r: Result<
    String,
    BuildError,
>)
    ensures
        match r {
            Result::Ok(name) => spec_resolve_node_name(
                config.self_node_name@,
                env_value.deep_view(),
            ) == Some(name@),
            Result::Err(e) => {
                &&& spec_resolve_node_name(config.self_node_name@, env_value.deep_view()) is None
                &&& e == BuildError::MissingSelfNodeName
            },
        },
{
    if !config.self_node_name.as_str().is_empty() {
        Result::Ok(config.self_node_name.clone())
    } else {
        match env_value {
            Some(v) => Result::Ok(v),
            None => Result::Err(BuildError::MissingSelfNodeName),
        }
    }
}

/// The field selector that restricts a pod watch to the pods scheduled on one
/// node.
pub fn self_node_field_selector(node_name: &str) -> (r: String)
    ensures
        r@ == "spec.nodeName="@ + node_name@,
{
    let mut r = String::from_str("spec.nodeName=");
    r.append(node_name);
    r
}

/// Makes the record for one raw line read from a log file: the line becomes
/// the message, the path is recorded, and the source type is set to
/// `kubernetes_logs`. Parsing fills the remaining fields later.
pub fn create_event(line: String, file: Option<String>) -> (r: LogEvent)
    ensures
        r@.message == line@,
        r@.timestamp is None,
        r@.stream is None,
        r@.multiline_tag is None,
        r@.source_type == Some("kubernetes_logs"@),
        r@.file == file.deep_view(),
{
    LogEvent {
        message: line,
        timestamp: None,
        stream: None,
        multiline_tag: None,
        source_type: Some(String::from_str("kubernetes_logs")),
        file,
    }
}

/// Attaches the source's metadata to a record on its way out: the source type
/// is set, everything else is kept.
pub fn emit_event(event: LogEvent) -> (r: LogEvent)
    ensures
        r@.message == event@.message,
        r@.timestamp == event@.timestamp,
        r@.stream == event@.stream,
        r@.multiline_tag == event@.multiline_tag,
        r@.source_type == Some("kubernetes_logs"@),
        r@.file == event@.file,
{
    LogEvent {
        message: event.message,
        timestamp: event.timestamp,
        stream: event.stream,
        multiline_tag: event.multiline_tag,
        source_type: Some(String::from_str("kubernetes_logs")),
        file: event.file,
    }
}

/// The tuning of the file-tailing service that reads the log files.
pub struct FileServerSettings {
    /// The longest line kept; longer ones are truncated.
    pub max_line_bytes: usize,
    /// The largest chunk taken from one file before moving to the next.
    pub max_read_bytes: usize,
    /// How long at least between two glob rediscoveries, in milliseconds.
    pub glob_minimum_cooldown_ms: u64,
    /// How many leading bytes identify a file across renames.
    pub fingerprint_bytes: usize,
    /// How many bytes to skip before fingerprinting.
    pub ignored_header_bytes: usize,
    /// Whether to favor the oldest files over the most recently written.
    pub oldest_first: bool,
    /// Whether newly discovered files are read from their beginning.
    pub start_at_beginning: bool,
}

/// The tuning of the file-tailing service under a configuration: the
/// configured knobs carried over; files are not favored by age and newly
/// discovered ones are read from their beginning.
pub fn file_server_settings(config: &Config) -> (r: FileServerSettings)
    ensures
        r.max_line_bytes == config.max_line_bytes,
        r.max_read_bytes == config.max_read_bytes,
        r.glob_minimum_cooldown_ms == config.glob_minimum_cooldown_ms,
        r.fingerprint_bytes == config.fingerprint_bytes,
        r.ignored_header_bytes == config.ignored_header_bytes,
        r.oldest_first == false,
        r.start_at_beginning == true,
{
    FileServerSettings {
        max_line_bytes: config.max_line_bytes,
        max_read_bytes: config.max_read_bytes,
        glob_minimum_cooldown_ms: config.glob_minimum_cooldown_ms,
        fingerprint_bytes: config.fingerprint_bytes,
        ignored_header_bytes: config.ignored_header_bytes,
        oldest_first: false,
        start_at_beginning: true,
    }
}

} // verus!
