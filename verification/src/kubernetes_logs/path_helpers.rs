//! Helpers for building and parsing the kubelet's pod log directory paths.
//!
//! The kubelet keeps the log files of a pod under
//! `/var/log/pods/<namespace>_<name>_<uid>`; the delimiter is exactly `_`.

use crate::strutil::{
    rfind_char, rfind_char_in, spec_starts_with, starts_with_str, substring_owned,
    lemma_rfind_below_hit,
};
use vstd::prelude::*;
use vstd::string::StrSliceExecFns;
use vstd::string::StringExecFns;

verus! {

/// The directory that holds one pod's log files:
/// `/var/log/pods/<namespace>_<name>_<uid>`.
pub open spec fn spec_pod_logs_directory(
    pod_namespace: Seq<char>,
    pod_name: Seq<char>,
    pod_uid: Seq<char>,
) -> Seq<char> {
    "/var/log/pods/"@ + pod_namespace + "_"@ + pod_name + "_"@ + pod_uid
}

/// The pod UID recovered from a pod logs directory path: the part after the
/// last `_`. A path without the delimiter is returned unchanged, and a path
/// outside the pod logs root yields the empty string.
pub open spec fn spec_pod_uid_of_logs_directory(path: Seq<char>) -> Seq<char> {
    if spec_starts_with(path, "/var/log/pods/"@) {
        match rfind_char(path, '_') {
            Some(i) => path.subrange(i + 1, path.len() as int),
            None => path,
        }
    } else {
        Seq::empty()
    }
}

/// Builds the absolute log directory path for a pod sandbox.
pub fn build_pod_logs_directory(pod_namespace: &str, pod_name: &str, pod_uid: &str) -> (r: String)
    ensures
        r@ == spec_pod_logs_directory(pod_namespace@, pod_name@, pod_uid@),
{
    let mut r = String::from_str("/var/log/pods/");
    r.append(pod_namespace);
    r.append("_");
    r.append(pod_name);
    r.append("_");
    r.append(pod_uid);
    proof {
        assert(r@ =~= spec_pod_logs_directory(pod_namespace@, pod_name@, pod_uid@));
    }
    r
}

/// Parses a pod logs directory path and returns the pod UID.
pub fn parse_pod_uid_from_logs_directory(path: &str) -> (r: String)
    ensures
        r@ == spec_pod_uid_of_logs_directory(path@),
{
    if !starts_with_str(path, "/var/log/pods/") {
        return String::new();
    }
    let n = path.unicode_len();
    match rfind_char_in(path, '_') {
        Some(i) => substring_owned(path, i + 1, n),
        None => path.to_owned(),
    }
}

/// Parsing inverts building: for every namespace and name, and every UID that
/// does not contain the `_` delimiter, the UID is recovered from the built
/// directory path.
pub proof fn lemma_pod_uid_round_trip(ns: Seq<char>, name: Seq<char>, uid: Seq<char>)
    requires
        forall|k: int| 0 <= k < uid.len() ==> uid[k] != '_',
    ensures
        spec_pod_uid_of_logs_directory(spec_pod_logs_directory(ns, name, uid)) == uid,
{
    reveal_strlit("/var/log/pods/");
    reveal_strlit("_");
    let built = spec_pod_logs_directory(ns, name, uid);
    let prefix = "/var/log/pods/"@;
    assert(built.subrange(0, prefix.len() as int) =~= prefix);
    let k: int = prefix.len() as int + ns.len() as int + 1 + name.len() as int;
    assert(built[k as int] == '_');
    assert forall|j: int| k < j < built.len() implies built[j] != '_' by {
        assert(built[j] == uid[j - (k + 1)]);
    }
    lemma_rfind_below_hit(built, '_', k as int, built.len() as int);
    assert(built.subrange(k + 1, built.len() as int) =~= uid);
}

} // verus!
