//! The local mirror of the pod set: a single-writer map keyed by pod UID,
//! with batched publication.
//!
//! The writer mutates a live table; `flush` publishes the live table as the
//! snapshot that readers see. Readers therefore never observe intermediate
//! states between two flushes, and `purge` atomically publishes an empty
//! snapshot.

use crate::kubernetes::object::{Pod, PodModel};
use crate::strutil::str_eq;
use vstd::prelude::*;

verus! {

/// One entry of the table: a pod keyed by its UID.
pub struct PodEntry {
    pub key: String,
    pub pod: Pod,
}

/// The entries of `s` as pairs of views, in table order.
pub open spec fn entry_views(s: Seq<PodEntry>) -> Seq<(Seq<char>, PodModel)> {
    s.map(|i: int, e: PodEntry| (e.key@, e.pod@))
}

/// The map held by the entries of `s`; later entries shadow earlier ones.
pub open spec fn table_map(s: Seq<PodEntry>) -> Map<Seq<char>, PodModel>
    decreases s.len(),
{
    if s.len() == 0 {
        Map::empty()
    } else {
        table_map(s.drop_last()).insert(s.last().key@, s.last().pod@)
    }
}

/// No two entries of `s` share a key.
pub open spec fn distinct_keys(s: Seq<PodEntry>) -> bool {
    forall|i: int, j: int| 0 <= i < j < s.len() ==> s[i].key@ != s[j].key@
}

/// A key is in the table map exactly when some entry holds it.
pub proof fn lemma_table_map_domain(s: Seq<PodEntry>, k: Seq<char>)
    ensures
        table_map(s).contains_key(k) <==> exists|i: int| 0 <= i < s.len() && s[i].key@ == k,
    decreases s.len(),
{
    if s.len() > 0 {
        lemma_table_map_domain(s.drop_last(), k);
        if s.last().key@ == k {
            assert(s[s.len() - 1].key@ == k);
        } else {
            if exists|i: int| 0 <= i < s.len() && s[i].key@ == k {
                let i = choose|i: int| 0 <= i < s.len() && s[i].key@ == k;
                assert(s.drop_last()[i].key@ == k);
            }
        }
    }
}

/// With distinct keys, the table map sends each entry's key to its pod.
pub proof fn lemma_table_map_at(s: Seq<PodEntry>, i: int)
    requires
        distinct_keys(s),
        0 <= i < s.len(),
    ensures
        table_map(s).contains_key(s[i].key@),
        table_map(s)[s[i].key@] == s[i].pod@,
    decreases s.len(),
{
    if i < s.len() - 1 {
        assert(distinct_keys(s.drop_last()));
        lemma_table_map_at(s.drop_last(), i);
        assert(s[i].key@ != s.last().key@);
    }
}

/// With distinct keys, the table map has exactly one key per entry.
pub proof fn lemma_table_map_len(s: Seq<PodEntry>)
    requires
        distinct_keys(s),
    ensures
        table_map(s).dom().finite(),
        table_map(s).dom().len() == s.len(),
    decreases s.len(),
{
    if s.len() == 0 {
        assert(table_map(s).dom() =~= Set::<Seq<char>>::empty());
    } else {
        assert(distinct_keys(s.drop_last()));
        lemma_table_map_len(s.drop_last());
        lemma_table_map_domain(s.drop_last(), s.last().key@);
        assert(forall|i: int|
            0 <= i < s.drop_last().len() ==> s.drop_last()[i].key@ != s.last().key@);
        assert(!table_map(s.drop_last()).contains_key(s.last().key@));
        assert(table_map(s).dom() =~= table_map(s.drop_last()).dom().insert(s.last().key@));
        vstd::set::axiom_set_insert_len(table_map(s.drop_last()).dom(), s.last().key@);
    }
}

/// Appending an entry inserts its pair into the table map.
pub proof fn lemma_table_map_push(s: Seq<PodEntry>, e: PodEntry)
    ensures
        table_map(s.push(e)) == table_map(s).insert(e.key@, e.pod@),
{
    assert(s.push(e).drop_last() =~= s);
    assert(s.push(e).last() == e);
}

/// Replacing the entry that holds a key updates that key in the table map.
pub proof fn lemma_table_map_update(s: Seq<PodEntry>, i: int, e: PodEntry)
    requires
        distinct_keys(s),
        0 <= i < s.len(),
        e.key@ == s[i].key@,
    ensures
        table_map(s.update(i, e)) == table_map(s).insert(e.key@, e.pod@),
    decreases s.len(),
{
    let s2 = s.update(i, e);
    if i == s.len() - 1 {
        assert(s2.drop_last() =~= s.drop_last());
        assert(s2.last() == e);
        assert(table_map(s2) =~= table_map(s).insert(e.key@, e.pod@));
    } else {
        assert(distinct_keys(s.drop_last()));
        lemma_table_map_update(s.drop_last(), i, e);
        assert(s2.drop_last() =~= s.drop_last().update(i, e));
        assert(s2.last() == s.last());
        assert(s.last().key@ != e.key@);
        assert(table_map(s2) =~= table_map(s).insert(e.key@, e.pod@));
    }
}

/// Removing the entry that holds a key removes that key from the table map.
pub proof fn lemma_table_map_remove(s: Seq<PodEntry>, i: int)
    requires
        distinct_keys(s),
        0 <= i < s.len(),
    ensures
        table_map(s.remove(i)) == table_map(s).remove(s[i].key@),
    decreases s.len(),
{
    let k = s[i].key@;
    if i == s.len() - 1 {
        assert(s.remove(i) =~= s.drop_last());
        lemma_table_map_domain(s.drop_last(), k);
        assert(forall|j: int|
            0 <= j < s.drop_last().len() ==> s.drop_last()[j].key@ != k);
        assert(!table_map(s.drop_last()).contains_key(k));
        assert(table_map(s.drop_last()) =~= table_map(s).remove(k));
    } else {
        assert(distinct_keys(s.drop_last()));
        lemma_table_map_remove(s.drop_last(), i);
        assert(s.remove(i).drop_last() =~= s.drop_last().remove(i));
        assert(s.remove(i).last() == s.last());
        assert(s.last().key@ != k);
        assert(table_map(s.remove(i)) =~= table_map(s).remove(k));
    }
}

/// Tables whose entries have equal views have equal table maps.
pub proof fn lemma_table_map_congruent(a: Seq<PodEntry>, b: Seq<PodEntry>)
    requires
        a.len() == b.len(),
        forall|i: int| 0 <= i < a.len() ==> a[i].key@ == b[i].key@ && a[i].pod@ == b[i].pod@,
    ensures
        table_map(a) == table_map(b),
    decreases a.len(),
{
    if a.len() > 0 {
        lemma_table_map_congruent(a.drop_last(), b.drop_last());
        assert(a.last().key@ == b.last().key@ && a.last().pod@ == b.last().pod@);
    }
}

/// A consistent snapshot of the pod set, keyed by pod UID.
pub struct PodTable {
    entries: Vec<PodEntry>,
}

impl View for PodTable {
    type V = Map<Seq<char>, PodModel>;

    closed spec fn view(&self) -> Map<Seq<char>, PodModel> {
        table_map(self.entries@)
    }
}

impl PodTable {
    /// The table holds each key at most once.
    pub closed spec fn wf(&self) -> bool {
        distinct_keys(self.entries@)
    }

    /// The entries as pairs of views, in table order.
    pub closed spec fn entries_view(&self) -> Seq<(Seq<char>, PodModel)> {
        entry_views(self.entries@)
    }

    /// The table map is exactly what the entries hold, one key per entry.
    pub proof fn lemma_view_entries(&self)
        requires
            self.wf(),
        ensures
            self@.dom().finite(),
            self@.dom().len() == self.entries_view().len(),
            forall|i: int|
                0 <= i < self.entries_view().len() ==> #[trigger] self@.contains_key(
                    self.entries_view()[i].0,
                ) && self@[self.entries_view()[i].0] == self.entries_view()[i].1,
            forall|k: Seq<char>|
                self@.contains_key(k) ==> exists|i: int|
                    0 <= i < self.entries_view().len() && #[trigger] self.entries_view()[i].0 == k,
    {
        lemma_table_map_len(self.entries@);
        assert forall|i: int| 0 <= i < self.entries_view().len() implies #[trigger] self@
            .contains_key(self.entries_view()[i].0) && self@[self.entries_view()[i].0]
            == self.entries_view()[i].1 by {
            lemma_table_map_at(self.entries@, i);
        }
        assert forall|k: Seq<char>| self@.contains_key(k) implies exists|i: int|
            0 <= i < self.entries_view().len() && #[trigger] self.entries_view()[i].0 == k by {
            lemma_table_map_domain(self.entries@, k);
            let i = choose|i: int| 0 <= i < self.entries@.len() && self.entries@[i].key@ == k;
            assert(self.entries_view()[i].0 == k);
        }
    }

    /// Creates an empty table.
    pub fn new() -> (r: PodTable)
        ensures
            r.wf(),
            r@ == Map::<Seq<char>, PodModel>::empty(),
            r.entries_view() == Seq::<(Seq<char>, PodModel)>::empty(),
    {
        let r = PodTable { entries: Vec::new() };
        proof {
            assert(r.entries_view() =~= Seq::<(Seq<char>, PodModel)>::empty());
        }
        r
    }

    /// The index of the entry that holds `uid`, if any.
    fn find_index(&self, uid: &str) -> (r: Option<usize>)
        ensures
            match r {
                Some(i) => i < self.entries@.len() && self.entries@[i as int].key@ == uid@,
                None => forall|i: int|
                    0 <= i < self.entries@.len() ==> self.entries@[i].key@ != uid@,
            },
    {
        let n = self.entries.len();
        let mut i: usize = 0;
        while i < n
            invariant
                0 <= i <= n,
                n == self.entries@.len(),
                forall|j: int| 0 <= j < i ==> self.entries@[j].key@ != uid@,
            decreases n - i,
        {
            if str_eq(self.entries[i].key.as_str(), uid) {
                return Some(i);
            }
            i = i + 1;
        }
        None
    }

    /// The pod stored under `uid`, if any.
    pub fn get(&self, uid: &str) -> (r: Option<&Pod>)
        requires
            self.wf(),
        ensures
            match r {
                Some(p) => self@.contains_key(uid@) && self@[uid@] == p@,
                None => !self@.contains_key(uid@),
            },
    {
        proof {
            lemma_table_map_domain(self.entries@, uid@);
        }
        match self.find_index(uid) {
            Some(i) => {
                proof {
                    lemma_table_map_at(self.entries@, i as int);
                }
                Some(&self.entries[i].pod)
            },
            None => None,
        }
    }

    /// Stores `pod` under `uid`, replacing any entry already keyed by `uid`.
    pub fn insert(&mut self, uid: String, pod: Pod)
        requires
            old(self).wf(),
        ensures
            final(self).wf(),
            final(self)@ == old(self)@.insert(uid@, pod@),
    {
        let entry = PodEntry { key: uid, pod };
        match self.find_index(entry.key.as_str()) {
            Some(i) => {
                proof {
                    lemma_table_map_update(self.entries@, i as int, entry);
                    let s2 = self.entries@.update(i as int, entry);
                    assert forall|p: int, q: int| 0 <= p < q < s2.len() implies s2[p].key@
                        != s2[q].key@ by {
                        assert(self.entries@[p].key@ != self.entries@[q].key@);
                    }
                }
                self.entries.set(i, entry);
            },
            None => {
                proof {
                    lemma_table_map_push(self.entries@, entry);
                    let s2 = self.entries@.push(entry);
                    assert forall|p: int, q: int| 0 <= p < q < s2.len() implies s2[p].key@
                        != s2[q].key@ by {
                        if q < s2.len() - 1 {
                            assert(self.entries@[p].key@ != self.entries@[q].key@);
                        }
                    }
                }
                self.entries.push(entry);
            },
        }
    }

    /// Removes the entry keyed by `uid`, if any.
    pub fn remove(&mut self, uid: &str)
        requires
            old(self).wf(),
        ensures
            final(self).wf(),
            final(self)@ == old(self)@.remove(uid@),
    {
        match self.find_index(uid) {
            Some(i) => {
                proof {
                    lemma_table_map_remove(self.entries@, i as int);
                    let s2 = self.entries@.remove(i as int);
                    assert forall|p: int, q: int| 0 <= p < q < s2.len() implies s2[p].key@
                        != s2[q].key@ by {
                        let p0 = if p < i as int { p } else { p + 1 };
                        let q0 = if q < i as int { q } else { q + 1 };
                        assert(self.entries@[p0].key@ != self.entries@[q0].key@);
                    }
                }
                self.entries.remove(i);
            },
            None => {
                proof {
                    lemma_table_map_domain(self.entries@, uid@);
                    assert(!self@.contains_key(uid@));
                    assert(self@ =~= self@.remove(uid@));
                }
            },
        }
    }

    /// Drops every entry.
    pub fn clear_all(&mut self)
        ensures
            final(self).wf(),
            final(self)@ == Map::<Seq<char>, PodModel>::empty(),
    {
        self.entries.clear();
    }

    /// The number of pods held.
    pub fn len(&self) -> (r: usize)
        requires
            self.wf(),
        ensures
            r == self@.dom().len(),
    {
        proof {
            lemma_table_map_len(self.entries@);
        }
        self.entries.len()
    }

    /// The number of entries, equal to `entries_view().len()`.
    pub fn entry_count(&self) -> (r: usize)
        ensures
            r == self.entries_view().len(),
    {
        self.entries.len()
    }

    /// The pod of the entry at position `i`.
    pub fn pod_at(&self, i: usize) -> (r: &Pod)
        requires
            i < self.entries_view().len(),
        ensures
            r@ == self.entries_view()[i as int].1,
    {
        &self.entries[i].pod
    }

    /// The key of the entry at position `i`.
    pub fn key_at(&self, i: usize) -> (r: &String)
        requires
            i < self.entries_view().len(),
        ensures
            r@ == self.entries_view()[i as int].0,
    {
        &self.entries[i].key
    }

    /// An exact copy of the table.
    pub fn duplicate(&self) -> (r: PodTable)
        ensures
            r@ == self@,
            self.wf() ==> r.wf(),
            r.entries_view() == self.entries_view(),
    {
        let n = self.entries.len();
        let mut entries: Vec<PodEntry> = Vec::new();
        let mut i: usize = 0;
        while i < n
            invariant
                0 <= i <= n,
                n == self.entries@.len(),
                entries@.len() == i,
                forall|j: int|
                    0 <= j < i ==> entries@[j].key@ == self.entries@[j].key@ && entries@[j].pod@
                        == self.entries@[j].pod@,
            decreases n - i,
        {
            let e = &self.entries[i];
            entries.push(PodEntry { key: e.key.clone(), pod: e.pod.duplicate() });
            i = i + 1;
        }
        let r = PodTable { entries };
        proof {
            lemma_table_map_congruent(r.entries@, self.entries@);
            assert(r.entries_view() =~= self.entries_view());
            if self.wf() {
                assert forall|p: int, q: int| 0 <= p < q < r.entries@.len() implies r.entries@[p].key@
                    != r.entries@[q].key@ by {
                    assert(self.entries@[p].key@ != self.entries@[q].key@);
                }
            }
        }
        r
    }
}

/// Mathematical model of a [`Store`]: the live map the writer mutates and the
/// published map the readers see.
pub struct StoreModel {
    pub live: Map<Seq<char>, PodModel>,
    pub published: Map<Seq<char>, PodModel>,
}

/// Single-writer store over the pod set with batched publication: mutations
/// accumulate in the live table and become visible to readers on `flush`.
pub struct Store {
    live: PodTable,
    published: PodTable,
}

impl View for Store {
    type V = StoreModel;

    closed spec fn view(&self) -> StoreModel {
        StoreModel { live: self.live@, published: self.published@ }
    }
}

impl Store {
    /// Both tables hold each key at most once.
    pub closed spec fn wf(&self) -> bool {
        self.live.wf() && self.published.wf()
    }

    /// The published snapshot as a table, for iteration.
    pub closed spec fn published_table(&self) -> PodTable {
        self.published
    }

    /// Creates an empty store with an empty published snapshot.
    pub fn new() -> (r: Store)
        ensures
            r.wf(),
            r@.live == Map::<Seq<char>, PodModel>::empty(),
            r@.published == Map::<Seq<char>, PodModel>::empty(),
    {
        Store { live: PodTable::new(), published: PodTable::new() }
    }

    /// Stores `pod` under `uid` in the live table; visible after `flush`.
    pub fn insert(&mut self, uid: String, pod: Pod)
        requires
            old(self).wf(),
        ensures
            final(self).wf(),
            final(self)@.live == old(self)@.live.insert(uid@, pod@),
            final(self)@.published == old(self)@.published,
            final(self).published_table() == old(self).published_table(),
    {
        self.live.insert(uid, pod);
    }

    /// Stores `pod` under `uid` in the live table, inserting or replacing;
    /// visible after `flush`.
    pub fn update(&mut self, uid: String, pod: Pod)
        requires
            old(self).wf(),
        ensures
            final(self).wf(),
            final(self)@.live == old(self)@.live.insert(uid@, pod@),
            final(self)@.published == old(self)@.published,
            final(self).published_table() == old(self).published_table(),
    {
        self.live.insert(uid, pod);
    }

    /// Removes the entry keyed by `uid` from the live table; visible after
    /// `flush`.
    pub fn remove(&mut self, uid: &str)
        requires
            old(self).wf(),
        ensures
            final(self).wf(),
            final(self)@.live == old(self)@.live.remove(uid@),
            final(self)@.published == old(self)@.published,
            final(self).published_table() == old(self).published_table(),
    {
        self.live.remove(uid);
    }

    /// Publishes the live table: readers now see it as their snapshot.
    pub fn flush(&mut self)
        requires
            old(self).wf(),
        ensures
            final(self).wf(),
            final(self)@.live == old(self)@.live,
            final(self)@.published == old(self)@.live,
    {
        self.published = self.live.duplicate();
    }

    /// Drops every entry and publishes the empty snapshot atomically.
    pub fn purge(&mut self)
        ensures
            final(self).wf(),
            final(self)@.live == Map::<Seq<char>, PodModel>::empty(),
            final(self)@.published == Map::<Seq<char>, PodModel>::empty(),
    {
        self.live.clear_all();
        self.published.clear_all();
    }

    /// The published snapshot. A reader iterating over it is never affected
    /// by writer mutations that have not been flushed.
    pub fn read(&self) -> (r: &PodTable)
        ensures
            r@ == self@.published,
            r == self.published_table(),
            self.wf() ==> r.wf(),
    {
        &self.published
    }
}

} // verus!
