//! The per-turn table of file edits whose results have not arrived yet.
use vstd::prelude::*;
use crate::inputs::{AmpEditFileToolCall, EditModel};
use crate::text::str_eq;

verus! {

/// Pending edits keyed by the id of the tool call that requested them. One
/// table serves one turn; it keeps at most one edit per id.
pub struct ToolCallTracker {
    entries: Vec<(String, AmpEditFileToolCall)>,
    pending: Ghost<Map<Seq<char>, EditModel>>,
}

impl View for ToolCallTracker {
    type V = Map<Seq<char>, EditModel>;

    closed spec fn view(&self) -> Map<Seq<char>, EditModel> {
        self.pending@
    }
}

impl ToolCallTracker {
    /// The table's entries agree with its map of ids to edits, and no id
    /// occurs twice.
    pub closed spec fn wf(&self) -> bool {
        &&& forall|i: int|
            0 <= i < self.entries.len() ==> #[trigger] self.pending@.contains_key(
                self.entries@[i].0@,
            ) && self.pending@[self.entries@[i].0@] == self.entries@[i].1@
        &&& forall|k: Seq<char>|
            #[trigger] self.pending@.contains_key(k) ==> exists|i: int|
                0 <= i < self.entries.len() && #[trigger] self.entries@[i].0@ == k
        &&& forall|i: int, j: int|
            0 <= i < j < self.entries.len() ==> #[trigger] self.entries@[i].0@
                != #[trigger] self.entries@[j].0@
    }

    /// An empty table, for the start of a turn.
    pub fn new() -> (r: ToolCallTracker)
        ensures
            r.wf(),
            r@ == Map::<Seq<char>, EditModel>::empty(),
    {
        ToolCallTracker { entries: Vec::new(), pending: Ghost(Map::empty()) }
    }

    /// The number of pending edits.
    pub fn len(&self) -> (r: usize)
        requires
            self.wf(),
        ensures
            r == self@.len(),
    {
        proof {
            self.lemma_len();
        }
        self.entries.len()
    }

    proof fn lemma_len(&self)
        requires
            self.wf(),
        ensures
            self@.len() == self.entries.len(),
            self@.dom().finite(),
        decreases self.entries.len(),
    {
        let keys = Seq::new(self.entries.len() as nat, |i: int| self.entries@[i].0@);
        assert(self@.dom() =~= keys.to_set()) by {
            assert forall|k: Seq<char>| self@.dom().contains(k) implies keys.to_set().contains(
                k,
            ) by {
                let i = choose|i: int| 0 <= i < self.entries.len() && self.entries@[i].0@ == k;
                assert(keys[i] == k);
            }
            assert forall|k: Seq<char>| keys.to_set().contains(k) implies self@.dom().contains(
                k,
            ) by {
                let i = choose|i: int| 0 <= i < keys.len() && keys[i] == k;
                assert(self.pending@.contains_key(self.entries@[i].0@));
            }
        }
        assert(keys.no_duplicates()) by {
            assert forall|i: int, j: int|
                0 <= i < keys.len() && 0 <= j < keys.len() && i != j implies keys[i]
                != keys[j] by {
                if i < j {
                    assert(self.entries@[i].0@ != self.entries@[j].0@);
                } else {
                    assert(self.entries@[j].0@ != self.entries@[i].0@);
                }
            }
        }
        keys.unique_seq_to_set();
    }

    fn position(&self, id: &str) -> (r: Option<usize>)
        requires
            self.wf(),
        ensures
            r matches Some(i) ==> i < self.entries.len() && self.entries@[i as int].0@ == id@,
            r is None ==> !self@.contains_key(id@),
    {
        let mut i: usize = 0;
        while i < self.entries.len()
            invariant
                i <= self.entries.len(),
                forall|k: int| 0 <= k < i ==> self.entries@[k].0@ != id@,
            decreases self.entries.len() - i,
        {
            if str_eq(self.entries[i].0.as_str(), id) {
                return Some(i);
            }
            i = i + 1;
        }
        proof {
            if self@.contains_key(id@) {
                let k = choose|k: int| 0 <= k < self.entries.len() && self.entries@[k].0@ == id@;
                assert(self.entries@[k].0@ != id@);
            }
        }
        None
    }

    /// Records the edit requested by tool call `id`. Where the table already
    /// holds an edit for `id`, the first one stays and this one is dropped.
    pub fn insert(&mut self, id: String, edit: AmpEditFileToolCall) -> (inserted: bool)
        requires
            old(self).wf(),
        ensures
            final(self).wf(),
            inserted == !old(self)@.contains_key(id@),
            final(self)@ == if inserted {
                old(self)@.insert(id@, edit@)
            } else {
                old(self)@
            },
    {
        if self.position(id.as_str()).is_some() {
            proof {
                let i = choose|i: int|
                    0 <= i < self.entries.len() && self.entries@[i].0@ == id@;
                assert(self.pending@.contains_key(self.entries@[i].0@));
            }
            return false;
        }
        let ghost key = id@;
        let ghost value = edit@;
        let ghost before = self.entries@;
        self.entries.push((id, edit));
        self.pending = Ghost(self.pending@.insert(key, value));
        proof {
            assert(self.entries@[before.len() as int].0@ == key);
            assert forall|k: Seq<char>| #[trigger] self.pending@.contains_key(k) implies exists|
                i: int,
            |
                0 <= i < self.entries.len() && #[trigger] self.entries@[i].0@ == k by {
                if k != key {
                    let i = choose|i: int| 0 <= i < before.len() && before[i].0@ == k;
                    assert(self.entries@[i] == before[i]);
                } else {
                    assert(self.entries@[before.len() as int].0@ == k);
                }
            }
            assert forall|i: int| 0 <= i < self.entries.len() implies #[trigger] self.pending@.contains_key(
                self.entries@[i].0@,
            ) && self.pending@[self.entries@[i].0@] == self.entries@[i].1@ by {
                if i < before.len() {
                    assert(self.entries@[i] == before[i]);
                    assert(before[i].0@ != key);
                }
            }
            assert forall|i: int, j: int|
                0 <= i < j < self.entries.len() implies #[trigger] self.entries@[i].0@
                != #[trigger] self.entries@[j].0@ by {
                if j == before.len() {
                    assert(self.entries@[i] == before[i]);
                    assert(before[i].0@ != key);
                } else {
                    assert(self.entries@[i] == before[i]);
                    assert(self.entries@[j] == before[j]);
                }
            }
        }
        true
    }

    /// Takes out the edit requested by tool call `id`, if the table holds one.
    pub fn remove(&mut self, id: &str) -> (r: Option<AmpEditFileToolCall>)
        requires
            old(self).wf(),
        ensures
            final(self).wf(),
            match r {
                Some(e) => old(self)@.contains_key(id@) && old(self)@[id@] == e@ && final(self)@
                    == old(self)@.remove(id@),
                None => !old(self)@.contains_key(id@) && final(self)@ == old(self)@,
            },
    {
        let i = match self.position(id) {
            Some(i) => i,
            None => return None,
        };
        let ghost before = self.entries@;
        let ghost key = id@;
        proof {
            assert(self.pending@.contains_key(before[i as int].0@));
        }
        let (_, edit) = self.entries.remove(i);
        self.pending = Ghost(self.pending@.remove(key));
        proof {
            assert forall|m: int| 0 <= m < self.entries.len() implies #[trigger] self.pending@.contains_key(
                self.entries@[m].0@,
            ) && self.pending@[self.entries@[m].0@] == self.entries@[m].1@ by {
                if m < i {
                    assert(self.entries@[m] == before[m]);
                    assert(before[m].0@ != before[i as int].0@);
                } else {
                    assert(self.entries@[m] == before[m + 1]);
                    assert(before[i as int].0@ != before[m + 1].0@);
                }
            }
            assert forall|k: Seq<char>| #[trigger] self.pending@.contains_key(k) implies exists|
                m: int,
            |
                0 <= m < self.entries.len() && #[trigger] self.entries@[m].0@ == k by {
                let m = choose|m: int| 0 <= m < before.len() && before[m].0@ == k;
                if m < i {
                    assert(self.entries@[m] == before[m]);
                } else {
                    assert(m != i);
                    assert(self.entries@[m - 1] == before[m]);
                }
            }
            assert forall|a: int, b: int|
                0 <= a < b < self.entries.len() implies #[trigger] self.entries@[a].0@
                != #[trigger] self.entries@[b].0@ by {
                let a0 = if a < i {
                    a
                } else {
                    a + 1
                };
                let b0 = if b < i {
                    b
                } else {
                    b + 1
                };
                assert(self.entries@[a] == before[a0]);
                assert(self.entries@[b] == before[b0]);
                assert(before[a0].0@ != before[b0].0@);
            }
        }
        Some(edit)
    }
}

} // verus!
