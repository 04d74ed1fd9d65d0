//! A paths provider for the pod logs: derives, from a snapshot of the pod
//! set, the glob patterns whose expansion is the set of expected log files.
//!
//! Expanding the globs touches the file system and is the tailing service's
//! business; errors of single entries are dropped there, never surfaced.

use crate::kubernetes::object::{Pod, PodModel};
use crate::kubernetes::store::PodTable;
use crate::kubernetes_logs::path_helpers::{build_pod_logs_directory, spec_pod_logs_directory};
use vstd::prelude::*;
use vstd::string::StringExecFns;

verus! {

/// The log directory of a pod, when its namespace, name and UID are all
/// present; a pod missing one of them has no log directory.
pub open spec fn spec_extract_pod_logs_directory(p: PodModel) -> Option<Seq<char>> {
    match p.metadata {
        Some(m) => match (m.namespace, m.name, m.uid) {
            (Some(ns), Some(n), Some(u)) => Some(spec_pod_logs_directory(ns, n, u)),
            _ => None,
        },
        None => None,
    }
}

/// The glob that matches every log file below a pod's log directory.
pub open spec fn spec_pod_log_glob(dir: Seq<char>) -> Seq<char> {
    dir + "/**/*.log"@
}

/// The glob patterns of a snapshot's pods, in snapshot order, skipping pods
/// without a log directory.
pub open spec fn spec_glob_patterns(entries: Seq<(Seq<char>, PodModel)>) -> Seq<Seq<char>>
    decreases entries.len(),
{
    if entries.len() == 0 {
        Seq::empty()
    } else {
        let rest = spec_glob_patterns(entries.drop_first());
        match spec_extract_pod_logs_directory(entries[0].1) {
            Some(dir) => seq![spec_pod_log_glob(dir)] + rest,
            None => rest,
        }
    }
}

/// The log directory of a pod, as [`spec_extract_pod_logs_directory`] says.
pub fn extract_pod_logs_directory(pod: &Pod) -> (r: Option<String>)
    ensures
        r.deep_view() == spec_extract_pod_logs_directory(pod@),
{
    let metadata = match &pod.metadata {
        Some(m) => m,
        None => {
            return None;
        },
    };
    let namespace = match &metadata.namespace {
        Some(v) => v,
        None => {
            return None;
        },
    };
    let name = match &metadata.name {
        Some(v) => v,
        None => {
            return None;
        },
    };
    let uid = match &metadata.uid {
        Some(v) => v,
        None => {
            return None;
        },
    };
    Some(build_pod_logs_directory(namespace.as_str(), name.as_str(), uid.as_str()))
}

/// A paths provider over a snapshot of the pod set obtained from the
/// Kubernetes API.
pub struct K8sPathsProvider {
    pods_state_reader: PodTable,
}

impl K8sPathsProvider {
    /// The snapshot the provider reads.
    pub closed spec fn snapshot(&self) -> PodTable {
        self.pods_state_reader
    }

    /// Creates a provider over a snapshot of the pod set.
    pub fn new(pods_state_reader: PodTable) -> (r: K8sPathsProvider)
        ensures
            r.snapshot() == pods_state_reader,
    {
        K8sPathsProvider { pods_state_reader }
    }

    /// The glob patterns of the expected log files at this time: one
    /// `<dir>/**/*.log` per pod of the snapshot that has a log directory.
    pub fn glob_patterns(&self) -> (r: Vec<String>)
        ensures
            r.deep_view() == spec_glob_patterns(self.snapshot().entries_view()),
    {
        let n = self.pods_state_reader.entry_count();
        let mut r: Vec<String> = Vec::new();
        let mut i: usize = 0;
        proof {
            assert(r.deep_view() =~= Seq::<Seq<char>>::empty());
            assert(self.pods_state_reader.entries_view().skip(0)
                =~= self.pods_state_reader.entries_view());
            assert(r.deep_view() + spec_glob_patterns(
                self.pods_state_reader.entries_view().skip(0),
            ) =~= spec_glob_patterns(self.pods_state_reader.entries_view()));
        }
        while i < n
            invariant
                0 <= i <= n,
                n == self.pods_state_reader.entries_view().len(),
                r.deep_view() + spec_glob_patterns(
                    self.pods_state_reader.entries_view().skip(i as int),
                ) =~= spec_glob_patterns(self.pods_state_reader.entries_view()),
            decreases n - i,
        {
            let ghost suffix = self.pods_state_reader.entries_view().skip(i as int);
            proof {
                assert(suffix[0] == self.pods_state_reader.entries_view()[i as int]);
                assert(suffix.drop_first() =~= self.pods_state_reader.entries_view().skip(
                    i as int + 1,
                ));
            }
            let pod = self.pods_state_reader.pod_at(i);
            match extract_pod_logs_directory(pod) {
                Some(dir) => {
                    let ghost r_pre = r.deep_view();
                    let ghost dirv = dir@;
                    let pattern = dir.concat("/**/*.log");
                    r.push(pattern);
                    proof {
                        assert(spec_extract_pod_logs_directory(suffix[0].1) == Some(dirv));
                        assert(r.deep_view() =~= r_pre.push(spec_pod_log_glob(dirv)));
                        assert(r.deep_view() + spec_glob_patterns(suffix.drop_first())
                            =~= r_pre + spec_glob_patterns(suffix));
                    }
                },
                None => (),
            }
            i = i + 1;
        }
        proof {
            assert(spec_glob_patterns(self.pods_state_reader.entries_view().skip(n as int))
                =~= Seq::<Seq<char>>::empty());
            assert(r.deep_view() =~= spec_glob_patterns(self.pods_state_reader.entries_view()));
        }
        r
    }
}

} // verus!
