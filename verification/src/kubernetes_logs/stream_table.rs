//! A small map from stream keys (file paths) to per-stream state, used by the
//! format picker and the partial merger.

use crate::strutil::str_eq;
use vstd::prelude::*;

verus! {

/// One entry: a per-stream value keyed by the stream's file path.
pub struct StreamEntry<T> {
    pub key: String,
    pub value: T,
}

/// The map held by the entries of `s`; later entries shadow earlier ones.
pub open spec fn stream_map<T: View>(s: Seq<StreamEntry<T>>) -> Map<Seq<char>, T::V>
    decreases s.len(),
{
    if s.len() == 0 {
        Map::empty()
    } else {
        stream_map(s.drop_last()).insert(s.last().key@, s.last().value@)
    }
}

/// No two entries of `s` share a key.
pub open spec fn stream_keys_distinct<T>(s: Seq<StreamEntry<T>>) -> bool {
    forall|i: int, j: int| 0 <= i < j < s.len() ==> s[i].key@ != s[j].key@
}

/// A key is in the map exactly when some entry holds it.
pub proof fn lemma_stream_map_domain<T: View>(s: Seq<StreamEntry<T>>, k: Seq<char>)
    ensures
        stream_map(s).contains_key(k) <==> exists|i: int| 0 <= i < s.len() && s[i].key@ == k,
    decreases s.len(),
{
    if s.len() > 0 {
        lemma_stream_map_domain(s.drop_last(), k);
        if s.last().key@ == k {
            assert(s[s.len() - 1].key@ == k);
        } else {
            if exists|i: int| 0 <= i < s.len() && s[i].key@ == k {
                let i = choose|i: int| 0 <= i < s.len() && s[i].key@ == k;
                assert(s.drop_last()[i].key@ == k);
            }
        }
    }
}

/// With distinct keys, the map sends each entry's key to its value.
pub proof fn lemma_stream_map_at<T: View>(s: Seq<StreamEntry<T>>, i: int)
    requires
        stream_keys_distinct(s),
        0 <= i < s.len(),
    ensures
        stream_map(s).contains_key(s[i].key@),
        stream_map(s)[s[i].key@] == s[i].value@,
    decreases s.len(),
{
    if i < s.len() - 1 {
        assert(stream_keys_distinct(s.drop_last()));
        lemma_stream_map_at(s.drop_last(), i);
        assert(s[i].key@ != s.last().key@);
    }
}

/// Appending an entry inserts its pair into the map.
pub proof fn lemma_stream_map_push<T: View>(s: Seq<StreamEntry<T>>, e: StreamEntry<T>)
    ensures
        stream_map(s.push(e)) == stream_map(s).insert(e.key@, e.value@),
{
    assert(s.push(e).drop_last() =~= s);
    assert(s.push(e).last() == e);
}

/// Replacing the entry that holds a key updates that key in the map.
pub proof fn lemma_stream_map_update<T: View>(s: Seq<StreamEntry<T>>, i: int, e: StreamEntry<T>)
    requires
        stream_keys_distinct(s),
        0 <= i < s.len(),
        e.key@ == s[i].key@,
    ensures
        stream_map(s.update(i, e)) == stream_map(s).insert(e.key@, e.value@),
    decreases s.len(),
{
    let s2 = s.update(i, e);
    if i == s.len() - 1 {
        assert(s2.drop_last() =~= s.drop_last());
        assert(s2.last() == e);
        assert(stream_map(s2) =~= stream_map(s).insert(e.key@, e.value@));
    } else {
        assert(stream_keys_distinct(s.drop_last()));
        lemma_stream_map_update(s.drop_last(), i, e);
        assert(s2.drop_last() =~= s.drop_last().update(i, e));
        assert(s2.last() == s.last());
        assert(s.last().key@ != e.key@);
        assert(stream_map(s2) =~= stream_map(s).insert(e.key@, e.value@));
    }
}

/// Removing the entry that holds a key removes that key from the map.
pub proof fn lemma_stream_map_remove<T: View>(s: Seq<StreamEntry<T>>, i: int)
    requires
        stream_keys_distinct(s),
        0 <= i < s.len(),
    ensures
        stream_map(s.remove(i)) == stream_map(s).remove(s[i].key@),
    decreases s.len(),
{
    let k = s[i].key@;
    if i == s.len() - 1 {
        assert(s.remove(i) =~= s.drop_last());
        lemma_stream_map_domain(s.drop_last(), k);
        assert(forall|j: int| 0 <= j < s.drop_last().len() ==> s.drop_last()[j].key@ != k);
        assert(!stream_map(s.drop_last()).contains_key(k));
        assert(stream_map(s.drop_last()) =~= stream_map(s).remove(k));
    } else {
        assert(stream_keys_distinct(s.drop_last()));
        lemma_stream_map_remove(s.drop_last(), i);
        assert(s.remove(i).drop_last() =~= s.drop_last().remove(i));
        assert(s.remove(i).last() == s.last());
        assert(s.last().key@ != k);
        assert(stream_map(s.remove(i)) =~= stream_map(s).remove(k));
    }
}

/// Per-stream state keyed by the stream's file path, one entry per stream.
pub struct StreamTable<T> {
    entries: Vec<StreamEntry<T>>,
}

impl<T: View> View for StreamTable<T> {
    type V = Map<Seq<char>, T::V>;

    closed spec fn view(&self) -> Map<Seq<char>, T::V> {
        stream_map(self.entries@)
    }
}

impl<T: View> StreamTable<T> {
    /// The table holds each key at most once.
    pub closed spec fn wf(&self) -> bool {
        stream_keys_distinct(self.entries@)
    }

    /// Creates an empty table.
    pub fn new() -> (r: StreamTable<T>)
        ensures
            r.wf(),
            r@ == Map::<Seq<char>, T::V>::empty(),
    {
        StreamTable { entries: Vec::new() }
    }

    /// The index of the entry that holds `key`, if any.
    fn find_index(&self, key: &str) -> (r: Option<usize>)
        ensures
            match r {
                Some(i) => i < self.entries@.len() && self.entries@[i as int].key@ == key@,
                None => forall|i: int|
                    0 <= i < self.entries@.len() ==> self.entries@[i].key@ != key@,
            },
    {
        let n = self.entries.len();
        let mut i: usize = 0;
        while i < n
            invariant
                0 <= i <= n,
                n == self.entries@.len(),
                forall|j: int| 0 <= j < i ==> self.entries@[j].key@ != key@,
            decreases n - i,
        {
            if str_eq(self.entries[i].key.as_str(), key) {
                return Some(i);
            }
            i = i + 1;
        }
        None
    }

    /// The state stored for `key`, if any.
    pub fn get(&self, key: &str) -> (r: Option<&T>)
        requires
            self.wf(),
        ensures
            match r {
                Some(v) => self@.contains_key(key@) && self@[key@] == v@,
                None => !self@.contains_key(key@),
            },
    {
        proof {
            lemma_stream_map_domain(self.entries@, key@);
        }
        match self.find_index(key) {
            Some(i) => {
                proof {
                    lemma_stream_map_at(self.entries@, i as int);
                }
                Some(&self.entries[i].value)
            },
            None => None,
        }
    }

    /// Stores `value` under `key`, replacing any state already there.
    pub fn set(&mut self, key: String, value: T)
        requires
            old(self).wf(),
        ensures
            final(self).wf(),
            final(self)@ == old(self)@.insert(key@, value@),
    {
        let entry = StreamEntry { key, value };
        match self.find_index(entry.key.as_str()) {
            Some(i) => {
                proof {
                    lemma_stream_map_update(self.entries@, i as int, entry);
                    let s2 = self.entries@.update(i as int, entry);
                    assert forall|p: int, q: int| 0 <= p < q < s2.len() implies s2[p].key@
                        != s2[q].key@ by {
                        assert(self.entries@[p].key@ != self.entries@[q].key@);
                    }
                }
                self.entries.set(i, entry);
            },
            None => {
                proof {
                    lemma_stream_map_push(self.entries@, entry);
                    let s2 = self.entries@.push(entry);
                    assert forall|p: int, q: int| 0 <= p < q < s2.len() implies s2[p].key@
                        != s2[q].key@ by {
                        if q < s2.len() - 1 {
                            assert(self.entries@[p].key@ != self.entries@[q].key@);
                        }
                    }
                }
                self.entries.push(entry);
            },
        }
    }

    /// Removes the state stored for `key`, if any.
    pub fn remove(&mut self, key: &str)
        requires
            old(self).wf(),
        ensures
            final(self).wf(),
            final(self)@ == old(self)@.remove(key@),
    {
        match self.find_index(key) {
            Some(i) => {
                proof {
                    lemma_stream_map_remove(self.entries@, i as int);
                    let s2 = self.entries@.remove(i as int);
                    assert forall|p: int, q: int| 0 <= p < q < s2.len() implies s2[p].key@
                        != s2[q].key@ by {
                        let p0 = if p < i as int {
                            p
                        } else {
                            p + 1
                        };
                        let q0 = if q < i as int {
                            q
                        } else {
                            q + 1
                        };
                        assert(self.entries@[p0].key@ != self.entries@[q0].key@);
                    }
                }
                self.entries.remove(i);
            },
            None => {
                proof {
                    lemma_stream_map_domain(self.entries@, key@);
                    assert(self@ =~= self@.remove(key@));
                }
            },
        }
    }
}

} // verus!
