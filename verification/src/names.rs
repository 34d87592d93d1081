//! The map from cursors to the declarations that they were given.

use vstd::prelude::*;

use crate::clang::CXCursor;
use crate::types::{Global, GlobalView};

verus! {

/// A map from cursors to declarations, in the order in which the cursors were
/// first met.
#[derive(Debug)]
pub struct DeclMap {
    entries: Vec<(CXCursor, Global)>,
}

/// The map that holds the given entries, later ones before earlier ones.
pub open spec fn entries_map(entries: Seq<(CXCursor, Global)>) -> Map<CXCursor, GlobalView>
    decreases entries.len(),
{
    if entries.len() == 0 {
        Map::empty()
    } else {
        entries_map(entries.drop_last()).insert(entries.last().0, entries.last().1@)
    }
}

proof fn lemma_entries_map(entries: Seq<(CXCursor, Global)>)
    requires
        forall|i: int, j: int|
            0 <= i < j < entries.len() ==> (#[trigger] entries[i]).0 != (#[trigger] entries[j]).0,
    ensures
        forall|i: int|
            #![trigger entries[i]]
            0 <= i < entries.len() ==> entries_map(entries).contains_key(entries[i].0)
                && entries_map(entries)[entries[i].0] == entries[i].1@,
        forall|k: CXCursor| #[trigger]
            entries_map(entries).contains_key(k) ==> exists|i: int|
                0 <= i < entries.len() && (#[trigger] entries[i]).0 == k,
    decreases entries.len(),
{
    if entries.len() > 0 {
        let front = entries.drop_last();
        lemma_entries_map(front);
        assert forall|i: int| #![trigger entries[i]] 0 <= i < entries.len() implies entries_map(
            entries,
        ).contains_key(entries[i].0) && entries_map(entries)[entries[i].0] == entries[i].1@ by {
            if i < front.len() {
                assert(front[i] == entries[i]);
            }
        }
        assert forall|k: CXCursor| #[trigger] entries_map(entries).contains_key(k) implies exists|
            i: int,
        |
            0 <= i < entries.len() && (#[trigger] entries[i]).0 == k by {
            if k == entries.last().0 {
                assert(entries[entries.len() - 1].0 == k);
            } else {
                assert(entries_map(front).contains_key(k));
                let i = choose|i: int| 0 <= i < front.len() && (#[trigger] front[i]).0 == k;
                assert(entries[i] == front[i]);
            }
        }
    }
}

impl View for DeclMap {
    type V = Map<CXCursor, GlobalView>;

    closed spec fn view(&self) -> Map<CXCursor, GlobalView> {
        entries_map(self.entries@)
    }
}

impl DeclMap {
    /// No cursor has two entries.
    pub closed spec fn wf(&self) -> bool {
        forall|i: int, j: int|
            0 <= i < j < self.entries@.len() ==> (#[trigger] self.entries@[i]).0 != (
            #[trigger] self.entries@[j]).0
    }

    /// The empty map.
    pub fn new() -> (r: DeclMap)
        ensures
            r.wf(),
            r@ == Map::<CXCursor, GlobalView>::empty(),
    {
        DeclMap { entries: Vec::new() }
    }

    /// The declaration given to `key`, if one was.
    pub fn find(&self, key: &CXCursor) -> (r: Option<Global>)
        requires
            self.wf(),
        ensures
            match r {
                Some(g) => self@.contains_key(*key) && self@[*key] == g@,
                None => !self@.contains_key(*key),
            },
    {
        proof {
            lemma_entries_map(self.entries@);
        }
        let mut i: usize = 0;
        while i < self.entries.len()
            invariant
                i <= self.entries@.len(),
                forall|j: int| 0 <= j < i ==> (#[trigger] self.entries@[j]).0 != *key,
                forall|j: int|
                    #![trigger self.entries@[j]]
                    0 <= j < self.entries@.len() ==> self@.contains_key(self.entries@[j].0)
                        && self@[self.entries@[j].0] == self.entries@[j].1@,
            decreases self.entries@.len() - i,
        {
            if self.entries[i].0 == *key {
                return Some(self.entries[i].1);
            }
            i = i + 1;
        }
        None
    }

    /// Whether `key` was given a declaration.
    pub fn contains_key(&self, key: &CXCursor) -> (r: bool)
        requires
            self.wf(),
        ensures
            r == self@.contains_key(*key),
    {
        self.find(key).is_some()
    }

    /// Gives `key`, which has none yet, a declaration.
    pub fn insert(&mut self, key: CXCursor, value: Global)
        requires
            old(self).wf(),
            !old(self)@.contains_key(key),
        ensures
            final(self).wf(),
            final(self)@ == old(self)@.insert(key, value@),
    {
        proof {
            lemma_entries_map(self.entries@);
        }
        let ghost before = self.entries@;
        self.entries.push((key, value));
        assert(self.entries@.drop_last() =~= before);
        assert(forall|i: int| 0 <= i < before.len() ==> self.entries@[i] == #[trigger] before[i]);
    }
}

} // verus!
