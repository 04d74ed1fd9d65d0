//! Watching the Kubernetes API and mirroring the remote pod set locally.

pub mod fake_watcher;
pub mod object;
pub mod pods_watcher;
pub mod reflector;
pub mod store;
pub mod watch_state;
pub mod watcher;
