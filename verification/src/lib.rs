//! Core of a Kubernetes pod-log ingestion pipeline.
//!
//! The crate mirrors the set of pods scheduled on one cluster node by folding
//! a stream of watch events into a snapshot store, derives the on-disk log
//! paths the kubelet keeps for those pods, and parses the tailed log lines
//! (Docker JSON lines or CRI text), merging fragment-tagged lines into whole
//! records.

pub mod event;
pub mod kubernetes;
pub mod kubernetes_logs;
pub mod strutil;
pub mod transforms;
