//! Memoized sparse profiles, keyed by a fingerprint of a commit and a
//! canonical target set.
use crate::order::{canonical, insert_sorted, lemma_canonical, strictly_sorted, views};
use vstd::prelude::*;

verus! {

/// The version of the profile computation; it is part of every key so that
/// entries made by another version are never reused.
pub const ENGINE_VERSION: u64 = 1;

/// A commit, by its hexadecimal object id.
#[derive(Clone, Debug, PartialEq, Eq)]
pub struct CommitId {
    pub hex: String,
}

/// A cache key: a commit, the target set in ascending order, and the engine
/// version.
#[derive(Clone, Debug, PartialEq, Eq)]
pub struct Fingerprint {
    pub commit: String,
    pub targets: Vec<String>,
    pub version: u64,
}

impl Fingerprint {
    pub open spec fn view_key(&self) -> (Seq<char>, Seq<Seq<char>>, u64) {
        (self.commit@, views(self.targets@), self.version)
    }
}

/// The key of a commit and a set of targets.
pub open spec fn key_for(commit: Seq<char>, targets: Set<Seq<char>>) -> (
    Seq<char>,
    Seq<Seq<char>>,
    u64,
) {
    (commit, canonical(targets), ENGINE_VERSION)
}

/// A copy of a vector of names.
pub fn copy_names(v: &Vec<String>) -> (r: Vec<String>)
    ensures
        views(r@) == views(v@),
{
    let mut r: Vec<String> = Vec::new();
    let n = v.len();
    let mut i: usize = 0;
    while i < n
        invariant
            n == v@.len(),
            i <= n,
            views(r@) == views(v@).take(i as int),
        decreases n - i,
    {
        let c = v[i].clone();
        assert(c@ == v@[i as int]@);
        let ghost before = views(r@);
        r.push(c);
        assert(views(r@) =~= before.push(v@[i as int]@));
        assert(views(r@) =~= views(v@).take(i + 1));
        i = i + 1;
    }
    assert(views(v@).take(n as int) =~= views(v@));
    r
}

/// Whether two vectors hold the same names in the same order.
pub fn same_names(a: &Vec<String>, b: &Vec<String>) -> (r: bool)
    ensures
        r == (views(a@) == views(b@)),
{
    if a.len() != b.len() {
        assert(views(a@).len() != views(b@).len());
        return false;
    }
    let n = a.len();
    let mut i: usize = 0;
    while i < n
        invariant
            n == a@.len(),
            n == b@.len(),
            i <= n,
            forall|k: int| 0 <= k < i ==> (#[trigger] views(a@)[k]) == views(b@)[k],
        decreases n - i,
    {
        if a[i] != b[i] {
            assert(views(a@)[i as int] != views(b@)[i as int]);
            return false;
        }
        i = i + 1;
    }
    assert(views(a@) =~= views(b@));
    true
}

/// The fingerprint of a commit and a target set. Targets given in any
/// order, or more than once, give the same key.
pub fn fingerprint(commit: &CommitId, targets: &Vec<String>) -> (r: Fingerprint)
    ensures
        r.view_key() == key_for(commit.hex@, views(targets@).to_set()),
{
    let mut sorted: Vec<String> = Vec::new();
    let n = targets.len();
    let mut i: usize = 0;
    assert(views(sorted@).to_set() =~= views(targets@).take(0).to_set());
    while i < n
        invariant
            n == targets@.len(),
            i <= n,
            strictly_sorted(views(sorted@)),
            views(sorted@).to_set() == views(targets@).take(i as int).to_set(),
        decreases n - i,
    {
        let ghost t = views(targets@);
        insert_sorted(&mut sorted, targets[i].clone());
        assert(t.take(i + 1).to_set() =~= t.take(i as int).to_set().insert(t[i as int])) by {
            assert forall|x: Seq<char>| #[trigger]
                t.take(i + 1).contains(x) <==> t.take(i as int).contains(x) || x == t[i as int] by {
                if t.take(i + 1).contains(x) {
                    let q = choose|q: int| 0 <= q < i + 1 && #[trigger] t.take(i + 1)[q] == x;
                    if q < i {
                        assert(t.take(i as int)[q] == x);
                    }
                }
                if t.take(i as int).contains(x) {
                    let q = choose|q: int| 0 <= q < i && #[trigger] t.take(i as int)[q] == x;
                    assert(t.take(i + 1)[q] == x);
                }
                if x == t[i as int] {
                    assert(t.take(i + 1)[i as int] == x);
                }
            }
        }
        i = i + 1;
    }
    assert(views(targets@).take(n as int) =~= views(targets@));
    proof {
        lemma_canonical(views(sorted@));
    }
    Fingerprint { commit: commit.hex.clone(), targets: sorted, version: ENGINE_VERSION }
}

/// Target sets that hold the same targets, in whatever order, have the same
/// fingerprint at a commit.
pub proof fn lemma_fingerprint_order_independent(
    commit: Seq<char>,
    t1: Seq<Seq<char>>,
    t2: Seq<Seq<char>>,
)
    requires
        t1.to_set() == t2.to_set(),
    ensures
        key_for(commit, t1.to_set()) == key_for(commit, t2.to_set()),
{
}

/// The value of the latest entry for `key`; a later entry shadows an
/// earlier one.
pub open spec fn lookup_entry(
    entries: Seq<((Seq<char>, Seq<Seq<char>>, u64), Seq<Seq<char>>)>,
    key: (Seq<char>, Seq<Seq<char>>, u64),
) -> Option<Seq<Seq<char>>>
    decreases entries.len(),
{
    if entries.len() == 0 {
        None
    } else if entries.last().0 == key {
        Some(entries.last().1)
    } else {
        lookup_entry(entries.drop_last(), key)
    }
}

/// A store of computed sparse profiles. Entries are never changed once
/// written: a second write for a key adds an entry that shadows the first.
pub struct MemoCache {
    pub entries: Vec<(Fingerprint, Vec<String>)>,
}

impl MemoCache {
    pub open spec fn view_entries(&self) -> Seq<((Seq<char>, Seq<Seq<char>>, u64), Seq<Seq<char>>)> {
        self.entries@.map_values(
            |e: (Fingerprint, Vec<String>)| (e.0.view_key(), views(e.1@)),
        )
    }

    pub fn new() -> (r: MemoCache)
        ensures
            r.view_entries().len() == 0,
    {
        MemoCache { entries: Vec::new() }
    }

    /// The profile stored for `key`, if any.
    pub fn get(&self, key: &Fingerprint) -> (r: Option<Vec<String>>)
        ensures
            match r {
                Some(v) => lookup_entry(self.view_entries(), key.view_key()) == Some(views(v@)),
                None => lookup_entry(self.view_entries(), key.view_key()) is None,
            },
    {
        let ghost es = self.view_entries();
        let mut i: usize = self.entries.len();
        assert(es.take(i as int) =~= es);
        while i > 0
            invariant
                i <= self.entries@.len(),
                es == self.view_entries(),
                lookup_entry(es, key.view_key()) == lookup_entry(es.take(i as int), key.view_key()),
            decreases i,
        {
            let e = &self.entries[i - 1];
            assert(es.take(i as int).last() == es[i - 1]);
            assert(es.take(i as int).drop_last() =~= es.take(i - 1));
            if e.0.commit == key.commit && e.0.version == key.version && same_names(
                &e.0.targets,
                &key.targets,
            ) {
                return Some(copy_names(&e.1));
            }
            i = i - 1;
        }
        None
    }

    /// Stores `value` under `key`.
    pub fn put(&mut self, key: Fingerprint, value: Vec<String>)
        ensures
            final(self).view_entries() == old(self).view_entries().push(
                (key.view_key(), views(value@)),
            ),
    {
        let ghost kv = (key.view_key(), views(value@));
        self.entries.push((key, value));
        assert(self.view_entries() =~= old(self).view_entries().push(kv));
    }
}

/// A value stored under a key is what a lookup of that key returns.
pub proof fn lemma_put_then_get(
    entries: Seq<((Seq<char>, Seq<Seq<char>>, u64), Seq<Seq<char>>)>,
    key: (Seq<char>, Seq<Seq<char>>, u64),
    value: Seq<Seq<char>>,
)
    ensures
        lookup_entry(entries.push((key, value)), key) == Some(value),
{
}

} // verus!
