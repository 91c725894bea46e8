//! Gathering one outcome per input file, keyed by the file's path.
use vstd::prelude::*;

use crate::engine::FileType;

verus! {

/// The invocation names no file.
#[derive(Clone, Copy, Debug, PartialEq, Eq, Structural)]
pub enum UsageError {
    NoInputs,
}

/// Refuses an invocation with no input paths, before any file is touched.
pub fn require_inputs(count: usize) -> (r: Result<(), UsageError>)
    ensures
        r is Err <==> count == 0,
        r matches Err(e) ==> e == UsageError::NoInputs,
{
    if count == 0 {
        Err(UsageError::NoInputs)
    } else {
        Ok(())
    }
}

/// What a file's size alone decides: a file of zero bytes is `Empty`, and no
/// byte of it is read; any other file goes to the classifier (`None`).
pub fn classify_by_size(size: u64) -> (r: Option<FileType>)
    ensures
        r is Some <==> size == 0,
        r matches Some(t) ==> t == FileType::Empty,
{
    if size == 0 {
        Some(FileType::Empty)
    } else {
        None
    }
}

/// The map that recording the outcomes in `s` one after the other gives: each
/// path that occurs, with the outcome of its last occurrence.
pub open spec fn collected<V>(s: Seq<(Vec<u8>, V)>) -> Map<Seq<u8>, V>
    decreases s.len(),
{
    if s.len() == 0 {
        Map::empty()
    } else {
        collected(s.drop_last()).insert(s.last().0@, s.last().1)
    }
}

/// Gathering outcomes gives exactly one entry per distinct path: the paths
/// of the result are those that occur, none lost and none added, and each
/// has the outcome of its last occurrence. This holds of every order in
/// which the outcomes come in.
pub proof fn lemma_one_entry_per_path<V>(s: Seq<(Vec<u8>, V)>)
    ensures
        collected(s).dom() == Set::new(|k: Seq<u8>| exists|i: int| 0 <= i < s.len() && #[trigger] s[i].0@ == k),
        forall|i: int|
            0 <= i < s.len() && (forall|j: int| i < j < s.len() ==> #[trigger] s[j].0@ != s[i].0@)
                ==> collected(s)[#[trigger] s[i].0@] == s[i].1,
    decreases s.len(),
{
    if s.len() > 0 {
        let t = s.drop_last();
        lemma_one_entry_per_path(t);
        assert forall|k: Seq<u8>| #[trigger] collected(s).dom().contains(k) == (exists|i: int|
            0 <= i < s.len() && #[trigger] s[i].0@ == k) by {
            if collected(t).dom().contains(k) {
                let i = choose|i: int| 0 <= i < t.len() && #[trigger] t[i].0@ == k;
                assert(s[i].0@ == k);
            }
            if exists|i: int| 0 <= i < s.len() && #[trigger] s[i].0@ == k {
                let i = choose|i: int| 0 <= i < s.len() && #[trigger] s[i].0@ == k;
                if i < t.len() {
                    assert(t[i].0@ == k);
                }
            }
        }
        assert(collected(s).dom() =~= Set::new(
            |k: Seq<u8>| exists|i: int| 0 <= i < s.len() && #[trigger] s[i].0@ == k,
        ));
        assert forall|i: int|
            0 <= i < s.len() && (forall|j: int| i < j < s.len() ==> #[trigger] s[j].0@ != s[i].0@)
                implies collected(s)[#[trigger] s[i].0@] == s[i].1 by {
            if i < t.len() {
                assert(s[s.len() - 1].0@ != s[i].0@);
                assert(forall|j: int| i < j < t.len() ==> #[trigger] t[j].0@ == s[j].0@);
                assert(t[i] == s[i]);
            }
        }
    }
}

/// The outcomes gathered so far, one per path, in the order in which each
/// path first came in.
pub struct ResultTable<V> {
    entries: Vec<(Vec<u8>, V)>,
}

impl<V> View for ResultTable<V> {
    type V = Map<Seq<u8>, V>;

    closed spec fn view(&self) -> Map<Seq<u8>, V> {
        Map::new(
            |k: Seq<u8>| exists|i: int| 0 <= i < self.entries@.len() && #[trigger] self.key_at(i) == k,
            |k: Seq<u8>| self.entries@[self.index_of(k)].1,
        )
    }
}

impl<V> ResultTable<V> {
    closed spec fn key_at(&self, i: int) -> Seq<u8> {
        self.entries@[i].0@
    }

    closed spec fn index_of(&self, k: Seq<u8>) -> int {
        choose|i: int| 0 <= i < self.entries@.len() && #[trigger] self.key_at(i) == k
    }

    /// No path stands twice.
    pub closed spec fn wf(&self) -> bool {
        forall|i: int, j: int|
            0 <= i < j < self.entries@.len() ==> #[trigger] self.key_at(i) != #[trigger] self.key_at(
                j,
            )
    }

    proof fn lemma_entry(&self, i: int)
        requires
            self.wf(),
            0 <= i < self.entries@.len(),
        ensures
            self@.contains_key(self.key_at(i)),
            self@[self.key_at(i)] == self.entries@[i].1,
    {
        let k = self.key_at(i);
        assert(self@.contains_key(k));
        let j = self.index_of(k);
        assert(0 <= j < self.entries@.len() && self.key_at(j) == k);
        assert(j == i);
    }

    /// Where the path stands, if it does.
    fn position(&self, key: &Vec<u8>) -> (r: Option<usize>)
        requires
            self.wf(),
        ensures
            r matches Some(i) ==> i < self.entries@.len() && self.key_at(i as int) == key@,
            r is None ==> !self@.contains_key(key@),
    {
        let mut i: usize = 0;
        while i < self.entries.len()
            invariant
                i <= self.entries@.len(),
                forall|j: int| 0 <= j < i ==> #[trigger] self.key_at(j) != key@,
            decreases self.entries@.len() - i,
        {
            if self.entries[i].0 == *key {
                assert(self.entries@[i as int].0@ =~= key@);
                return Some(i);
            }
            i = i + 1;
        }
        None
    }

    pub fn new() -> (r: Self)
        ensures
            r.wf(),
            r@ == Map::<Seq<u8>, V>::empty(),
    {
        let r = ResultTable { entries: Vec::new() };
        assert(r@ =~= Map::<Seq<u8>, V>::empty());
        r
    }

    /// Gathers the outcomes in the order given.
    pub fn collect(pairs: Vec<(Vec<u8>, V)>) -> (r: Self)
        ensures
            r.wf(),
            r@ == collected(pairs@),
    {
        let ghost all = pairs@;
        let mut pairs = pairs;
        let mut table = Self::new();
        let ghost mut done: int = 0;
        while pairs.len() > 0
            invariant
                0 <= done <= all.len(),
                pairs@ == all.subrange(done, all.len() as int),
                table.wf(),
                table@ == collected(all.subrange(0, done)),
            decreases pairs@.len(),
        {
            let (key, value) = pairs.remove(0);
            proof {
                assert(all.subrange(0, done + 1).drop_last() =~= all.subrange(0, done));
                assert(pairs@ =~= all.subrange(done + 1, all.len() as int));
                done = done + 1;
            }
            table.insert(key, value);
        }
        assert(all.subrange(0, done) =~= all);
        table
    }

    /// The entries, one per path, in the order in which each path first came
    /// in.
    pub fn into_entries(self) -> (r: Vec<(Vec<u8>, V)>)
        requires
            self.wf(),
        ensures
            forall|i: int| 0 <= i < r@.len() ==> #[trigger] self@.contains_key(r@[i].0@) && self@[r@[i].0@] == r@[i].1,
            forall|i: int, j: int| 0 <= i < j < r@.len() ==> #[trigger] r@[i].0@ != #[trigger] r@[j].0@,
            forall|k: Seq<u8>| #[trigger] self@.contains_key(k) ==> exists|i: int| 0 <= i < r@.len() && r@[i].0@ == k,
    {
        proof {
            assert forall|i: int| 0 <= i < self.entries@.len() implies #[trigger] self@.contains_key(self.entries@[i].0@) && self@[self.entries@[i].0@] == self.entries@[i].1 by {
                self.lemma_entry(i);
            }
            assert forall|i: int, j: int| 0 <= i < j < self.entries@.len() implies #[trigger] self.entries@[i].0@ != #[trigger] self.entries@[j].0@ by {
                assert(self.key_at(i) != self.key_at(j));
            }
            assert forall|k: Seq<u8>| #[trigger] self@.contains_key(k) implies exists|i: int| 0 <= i < self.entries@.len() && self.entries@[i].0@ == k by {
                let i = self.index_of(k);
                assert(self.key_at(i) == k);
            }
        }
        self.entries
    }

    /// Writing the entry at `i` (over the same path, or pushed at the end)
    /// gives the map updated at that path.
    proof fn lemma_write(before: Self, after: Self, i: int, k: Seq<u8>, v: V)
        requires
            before.wf(),
            after.wf(),
            0 <= i < after.entries@.len(),
            i < before.entries@.len() ==> before.key_at(i) == k,
            i < before.entries@.len() ==> after.entries@.len() == before.entries@.len(),
            i >= before.entries@.len() ==> !before@.contains_key(k) && i == before.entries@.len()
                && after.entries@.len() == i + 1,
            after.key_at(i) == k,
            after.entries@[i].1 == v,
            forall|j: int|
                0 <= j < after.entries@.len() && j != i ==> #[trigger] after.key_at(j)
                    == before.key_at(j) && after.entries@[j].1 == before.entries@[j].1,
        ensures
            after@ == before@.insert(k, v),
    {
        after.lemma_entry(i);
        assert forall|k2: Seq<u8>| #[trigger]
            after@.contains_key(k2) == before@.insert(k, v).contains_key(k2) by {
            if after@.contains_key(k2) && k2 != k {
                let j = after.index_of(k2);
                assert(before.key_at(j) == k2);
            }
            if before@.contains_key(k2) && k2 != k {
                let j = before.index_of(k2);
                assert(after.key_at(j) == k2);
            }
        }
        assert forall|k2: Seq<u8>| #[trigger]
            after@.contains_key(k2) && k2 != k implies after@[k2] == before@[k2] by {
            let j = after.index_of(k2);
            assert(before.key_at(j) == k2);
            before.lemma_entry(j);
            after.lemma_entry(j);
        }
        assert(after@ =~= before@.insert(k, v));
    }

    /// Records the outcome for a path; a later outcome for the same path
    /// replaces the earlier one.
    pub fn insert(&mut self, key: Vec<u8>, value: V)
        requires
            old(self).wf(),
        ensures
            final(self).wf(),
            final(self)@ == old(self)@.insert(key@, value),
    {
        let ghost before = *self;
        let ghost k = key@;
        let ghost i: int;
        match self.position(&key) {
            Some(p) => {
                self.entries.set(p, (key, value));
                proof {
                    i = p as int;
                }
            },
            None => {
                self.entries.push((key, value));
                proof {
                    i = before.entries@.len() as int;
                }
            },
        }
        assert(forall|j: int|
            0 <= j < self.entries@.len() && j != i ==> self.entries@[j] == before.entries@[j]);
        assert(forall|j: int|
            0 <= j < self.entries@.len() && j != i ==> #[trigger] self.key_at(j) == before.key_at(
                j,
            ));
        assert(self.key_at(i) == k);
        assert(self.wf());
        proof {
            Self::lemma_write(before, *self, i, k, value);
        }
    }
}

} // verus!
