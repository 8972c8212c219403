//! The persistence gateway: a task collection with insert and delete-by-id.
//!
//! The collection is a set of independent, unordered records, each addressed
//! by an identifier that the store assigns on insertion. Its abstract content
//! is a finite map from identifier to record content. Deleting removes at
//! most one record; absence is a count of zero, never an error.

use vstd::prelude::*;
use crate::task::Priority;
use crate::task::Task;

verus! {

/// A record as the store holds it: its assigned identifier and its content.
#[derive(Debug, Clone)]
pub struct StoredTask {
    pub id: u64,
    pub name: String,
    pub priority: Priority,
}

/// Failure of an individual persistence operation. The only way this store
/// can fail is by running out of fresh identifiers.
#[derive(Debug, Clone, Copy, PartialEq, Eq, Structural)]
pub enum StoreError {
    IdsExhausted,
}

/// The content of one stored record: its name and its priority.
pub open spec fn row_content(t: StoredTask) -> (Seq<char>, Priority) {
    (t.name@, t.priority)
}

/// The collection that a sequence of rows represents: a map from identifier
/// to record content.
pub open spec fn map_of(s: Seq<StoredTask>) -> Map<u64, (Seq<char>, Priority)>
    decreases s.len(),
{
    if s.len() == 0 {
        Map::empty()
    } else {
        map_of(s.drop_last()).insert(s.last().id, row_content(s.last()))
    }
}

/// Some row of `s` carries identifier `id`.
pub open spec fn has_id(s: Seq<StoredTask>, id: u64) -> bool {
    exists|i: int| 0 <= i < s.len() && s[i].id == id
}

/// No two rows of `s` carry the same identifier.
pub open spec fn distinct_ids(s: Seq<StoredTask>) -> bool {
    forall|i: int, j: int| 0 <= i < j < s.len() ==> s[i].id != s[j].id
}

proof fn lemma_map_of_dom(s: Seq<StoredTask>, id: u64)
    ensures
        map_of(s).dom().contains(id) == has_id(s, id),
    decreases s.len(),
{
    if s.len() == 0 {
        assert(!has_id(s, id));
    } else {
        let dl = s.drop_last();
        lemma_map_of_dom(dl, id);
        if s.last().id == id {
            assert(s[s.len() - 1].id == id);
        } else {
            if has_id(dl, id) {
                let i = choose|i: int| 0 <= i < dl.len() && dl[i].id == id;
                assert(s[i].id == id);
            }
            if has_id(s, id) {
                let i = choose|i: int| 0 <= i < s.len() && s[i].id == id;
                assert(i < s.len() - 1);
                assert(dl[i].id == id);
            }
        }
    }
}

proof fn lemma_map_of_index(s: Seq<StoredTask>, j: int)
    requires
        0 <= j < s.len(),
        distinct_ids(s),
    ensures
        map_of(s).dom().contains(s[j].id),
        map_of(s)[s[j].id] == row_content(s[j]),
    decreases s.len(),
{
    if j == s.len() - 1 {
    } else {
        let dl = s.drop_last();
        assert(distinct_ids(dl)) by {
            assert forall|i1: int, i2: int| 0 <= i1 < i2 < dl.len() implies dl[i1].id
                != dl[i2].id by {
                assert(dl[i1] == s[i1]);
                assert(dl[i2] == s[i2]);
            }
        }
        lemma_map_of_index(dl, j);
        assert(s.last().id != s[j].id);
        assert(dl[j] == s[j]);
    }
}

proof fn lemma_map_of_remove(s: Seq<StoredTask>, j: int)
    requires
        0 <= j < s.len(),
        distinct_ids(s),
    ensures
        map_of(s.remove(j)) == map_of(s).remove(s[j].id),
    decreases s.len(),
{
    let dl = s.drop_last();
    assert(distinct_ids(dl)) by {
        assert forall|i1: int, i2: int| 0 <= i1 < i2 < dl.len() implies dl[i1].id
            != dl[i2].id by {
            assert(dl[i1] == s[i1]);
            assert(dl[i2] == s[i2]);
        }
    }
    if j == s.len() - 1 {
        assert(s.remove(j) =~= dl);
        lemma_map_of_dom(dl, s[j].id);
        assert(!has_id(dl, s[j].id)) by {
            if has_id(dl, s[j].id) {
                let i = choose|i: int| 0 <= i < dl.len() && dl[i].id == s[j].id;
                assert(s[i].id == s[j].id);
                assert(false);
            }
        }
        assert(map_of(s).remove(s[j].id) =~= map_of(dl));
    } else {
        let t = s.remove(j);
        assert(t.len() == s.len() - 1);
        assert(t.last() == s.last()) by {
            assert(t[t.len() - 1] == s[t.len() as int]);
        }
        assert(t.drop_last() =~= dl.remove(j)) by {
            assert forall|k: int| 0 <= k < t.len() - 1 implies t.drop_last()[k] == dl.remove(
                j,
            )[k] by {
                if k < j {
                    assert(t[k] == s[k]);
                    assert(dl.remove(j)[k] == dl[k]);
                    assert(dl[k] == s[k]);
                } else {
                    assert(t[k] == s[k + 1]);
                    assert(dl.remove(j)[k] == dl[k + 1]);
                    assert(dl[k + 1] == s[k + 1]);
                }
            }
        }
        lemma_map_of_remove(dl, j);
        assert(dl[j] == s[j]);
        assert(map_of(t) == map_of(dl).remove(s[j].id).insert(s.last().id, row_content(s.last())));
        assert(s[j].id != s.last().id);
        assert(map_of(dl).remove(s[j].id).insert(s.last().id, row_content(s.last())) =~= map_of(
            dl,
        ).insert(s.last().id, row_content(s.last())).remove(s[j].id));
    }
}

proof fn lemma_map_of_dom_len(s: Seq<StoredTask>)
    requires
        distinct_ids(s),
    ensures
        map_of(s).dom().finite(),
        map_of(s).dom().len() == s.len(),
    decreases s.len(),
{
    broadcast use vstd::set::group_set_axioms;

    if s.len() == 0 {
        assert(map_of(s).dom() =~= Set::<u64>::empty());
    } else {
        let dl = s.drop_last();
        assert(distinct_ids(dl)) by {
            assert forall|i1: int, i2: int| 0 <= i1 < i2 < dl.len() implies dl[i1].id
                != dl[i2].id by {
                assert(dl[i1] == s[i1]);
                assert(dl[i2] == s[i2]);
            }
        }
        lemma_map_of_dom_len(dl);
        lemma_map_of_dom(dl, s.last().id);
        assert(!has_id(dl, s.last().id)) by {
            if has_id(dl, s.last().id) {
                let i = choose|i: int| 0 <= i < dl.len() && dl[i].id == s.last().id;
                assert(s[i].id == s[s.len() - 1].id);
                assert(false);
            }
        }
        assert(map_of(s).dom() =~= map_of(dl).dom().insert(s.last().id));
    }
}

/// The task collection, with fresh-identifier assignment on insertion.
pub struct TaskStore {
    tasks: Vec<StoredTask>,
    next_id: u64,
}

impl View for TaskStore {
    type V = Map<u64, (Seq<char>, Priority)>;

    /// The collection's abstract content: identifier to record content.
    closed spec fn view(&self) -> Map<u64, (Seq<char>, Priority)> {
        map_of(self.tasks@)
    }
}

impl TaskStore {
    /// How many fresh identifiers have been assigned so far.
    pub closed spec fn ids_used(&self) -> int {
        self.next_id as int
    }

    /// The store can still assign a fresh identifier.
    pub open spec fn can_insert(&self) -> bool {
        self.ids_used() < u64::MAX as int
    }

    /// Internal soundness: identifiers are pairwise distinct and every
    /// assigned identifier lies below the fresh-identifier bound.
    pub closed spec fn wf(&self) -> bool {
        &&& distinct_ids(self.tasks@)
        &&& forall|i: int| 0 <= i < self.tasks@.len() ==> self.tasks@[i].id < self.next_id
    }

    /// An empty collection.
    pub fn new() -> (r: TaskStore)
        ensures
            r.wf(),
            r@ == Map::<u64, (Seq<char>, Priority)>::empty(),
            r.ids_used() == 0,
    {
        TaskStore { tasks: Vec::new(), next_id: 0 }
    }

    /// Persists a new record: assigns a fresh identifier — one no record in
    /// the collection carries or ever carried — and adds exactly that one
    /// record. Fails only when the identifier space is exhausted, and then
    /// changes nothing.
    pub fn insert(&mut self, t: Task) -> (r: Result<u64, StoreError>)
        requires
            old(self).wf(),
            t.id is None,
        ensures
            final(self).wf(),
            r is Ok <==> old(self).can_insert(),
            r matches Ok(id) ==> !old(self)@.dom().contains(id) && final(self)@ == old(
                self,
            )@.insert(id, (t.name@, t.priority)) && final(self).ids_used() == old(self).ids_used()
                + 1,
            r is Err ==> final(self)@ == old(self)@ && final(self).ids_used() == old(
                self,
            ).ids_used(),
    {
        if self.next_id == u64::MAX {
            return Err(StoreError::IdsExhausted);
        }
        let id = self.next_id;
        self.next_id = self.next_id + 1;
        let ghost s0 = self.tasks@;
        let row = StoredTask { id, name: t.name, priority: t.priority };
        self.tasks.push(row);
        proof {
            let s1 = self.tasks@;
            assert(s1.drop_last() =~= s0);
            assert(s1.last() == row);
            lemma_map_of_dom(s0, id);
            assert(!has_id(s0, id)) by {
                if has_id(s0, id) {
                    let i = choose|i: int| 0 <= i < s0.len() && s0[i].id == id;
                    assert(false);
                }
            }
            assert(distinct_ids(s1)) by {
                assert forall|i1: int, i2: int| 0 <= i1 < i2 < s1.len() implies s1[i1].id
                    != s1[i2].id by {
                    if i2 < s1.len() - 1 {
                        assert(s1[i1] == s0[i1]);
                        assert(s1[i2] == s0[i2]);
                    } else {
                        assert(s1[i1] == s0[i1]);
                        assert(s0[i1].id < id);
                    }
                }
            }
        }
        Ok(id)
    }

    /// Removes at most one record: the one carrying `id`, if any. Returns the
    /// number of records removed. Absence is a count of zero and leaves the
    /// collection unchanged; it is a normal outcome, not an error.
    pub fn delete_by_id(&mut self, id: u64) -> (r: u64)
        requires
            old(self).wf(),
        ensures
            final(self).wf(),
            r == 0 || r == 1,
            r == 1 <==> old(self)@.dom().contains(id),
            old(self)@.dom().contains(id) ==> final(self)@ == old(self)@.remove(id),
            !old(self)@.dom().contains(id) ==> final(self)@ == old(self)@,
            !final(self)@.dom().contains(id),
            final(self).ids_used() == old(self).ids_used(),
    {
        let ghost s0 = self.tasks@;
        let mut j: usize = 0;
        while j < self.tasks.len()
            invariant
                *self == *old(self),
                self.tasks@ == s0,
                old(self).wf(),
                j <= self.tasks@.len(),
                forall|k: int| 0 <= k < j ==> self.tasks@[k].id != id,
            decreases self.tasks@.len() - j,
        {
            if self.tasks[j].id == id {
                let ghost jj = j as int;
                proof {
                    assert(s0[jj].id == id);
                }
                self.tasks.remove(j);
                proof {
                    lemma_map_of_dom(s0, id);
                    assert(has_id(s0, id)) by {
                        assert(s0[jj].id == id);
                    }
                    lemma_map_of_remove(s0, jj);
                    let s1 = self.tasks@;
                    assert(s1 == s0.remove(jj));
                    assert(distinct_ids(s1)) by {
                        assert forall|i1: int, i2: int| 0 <= i1 < i2 < s1.len() implies s1[i1].id
                            != s1[i2].id by {
                            if i2 < jj {
                                assert(s1[i1] == s0[i1]);
                                assert(s1[i2] == s0[i2]);
                            } else if i1 < jj {
                                assert(s1[i1] == s0[i1]);
                                assert(s1[i2] == s0[i2 + 1]);
                            } else {
                                assert(s1[i1] == s0[i1 + 1]);
                                assert(s1[i2] == s0[i2 + 1]);
                            }
                        }
                    }
                    assert(forall|i: int| 0 <= i < s1.len() ==> s1[i].id < self.next_id) by {
                        assert forall|i: int| 0 <= i < s1.len() implies s1[i].id
                            < self.next_id by {
                            if i < jj {
                                assert(s1[i] == s0[i]);
                            } else {
                                assert(s1[i] == s0[i + 1]);
                            }
                        }
                    }
                    lemma_map_of_dom(s1, id);
                    assert(!has_id(s1, id)) by {
                        if has_id(s1, id) {
                            let i = choose|i: int| 0 <= i < s1.len() && s1[i].id == id;
                            if i < jj {
                                assert(s1[i] == s0[i]);
                                assert(false);
                            } else {
                                assert(s1[i] == s0[i + 1]);
                                assert(false);
                            }
                        }
                    }
                }
                return 1;
            }
            j += 1;
        }
        proof {
            lemma_map_of_dom(s0, id);
            assert(!has_id(s0, id)) by {
                if has_id(s0, id) {
                    let i = choose|i: int| 0 <= i < s0.len() && s0[i].id == id;
                    assert(false);
                }
            }
        }
        0
    }

    /// Whether a record carrying `id` is in the collection.
    pub fn contains_id(&self, id: u64) -> (r: bool)
        ensures
            r == self@.dom().contains(id),
    {
        proof {
            lemma_map_of_dom(self.tasks@, id);
        }
        let mut j: usize = 0;
        while j < self.tasks.len()
            invariant
                j <= self.tasks@.len(),
                forall|k: int| 0 <= k < j ==> self.tasks@[k].id != id,
                self@.dom().contains(id) == has_id(self.tasks@, id),
            decreases self.tasks@.len() - j,
        {
            if self.tasks[j].id == id {
                proof {
                    assert(has_id(self.tasks@, id)) by {
                        assert(self.tasks@[j as int].id == id);
                    }
                }
                return true;
            }
            j += 1;
        }
        proof {
            assert(!has_id(self.tasks@, id)) by {
                if has_id(self.tasks@, id) {
                    let i = choose|i: int|
                        0 <= i < self.tasks@.len() && self.tasks@[i].id == id;
                    assert(false);
                }
            }
        }
        false
    }

    /// The number of records in the collection.
    pub fn len(&self) -> (r: usize)
        requires
            self.wf(),
        ensures
            r == self@.dom().len(),
            self@.dom().finite(),
    {
        proof {
            lemma_map_of_dom_len(self.tasks@);
        }
        self.tasks.len()
    }

    /// The stored content for an identifier, if a record carries it.
    pub fn get(&self, id: u64) -> (r: Option<(String, Priority)>)
        requires
            self.wf(),
        ensures
            r matches Some(v) ==> self@.dom().contains(id) && self@[id] == (v.0@, v.1),
            r is None ==> !self@.dom().contains(id),
    {
        let mut j: usize = 0;
        while j < self.tasks.len()
            invariant
                self.wf(),
                j <= self.tasks@.len(),
                forall|k: int| 0 <= k < j ==> self.tasks@[k].id != id,
            decreases self.tasks@.len() - j,
        {
            if self.tasks[j].id == id {
                proof {
                    lemma_map_of_index(self.tasks@, j as int);
                }
                return Some((self.tasks[j].name.clone(), self.tasks[j].priority));
            }
            j += 1;
        }
        proof {
            lemma_map_of_dom(self.tasks@, id);
            assert(!has_id(self.tasks@, id)) by {
                if has_id(self.tasks@, id) {
                    let i = choose|i: int|
                        0 <= i < self.tasks@.len() && self.tasks@[i].id == id;
                    assert(false);
                }
            }
        }
        None
    }

    /// The identifiers of all records, one for each record.
    pub fn ids(&self) -> (r: Vec<u64>)
        requires
            self.wf(),
        ensures
            r@.len() == self@.dom().len(),
            forall|i: int| 0 <= i < r@.len() ==> self@.dom().contains(#[trigger] r@[i]),
            forall|i: int, j: int| 0 <= i < j < r@.len() ==> r@[i] != r@[j],
    {
        proof {
            lemma_map_of_dom_len(self.tasks@);
        }
        let mut out: Vec<u64> = Vec::new();
        let mut j: usize = 0;
        while j < self.tasks.len()
            invariant
                self.wf(),
                j <= self.tasks@.len(),
                out@.len() == j,
                forall|k: int| 0 <= k < j ==> out@[k] == self.tasks@[k].id,
            decreases self.tasks@.len() - j,
        {
            let id = self.tasks[j].id;
            out.push(id);
            j += 1;
        }
        proof {
            assert forall|i: int| 0 <= i < out@.len() implies self@.dom().contains(
                #[trigger] out@[i],
            ) by {
                lemma_map_of_dom(self.tasks@, self.tasks@[i].id);
                assert(has_id(self.tasks@, self.tasks@[i].id)) by {
                    assert(self.tasks@[i].id == self.tasks@[i].id);
                }
            }
        }
        out
    }
}

} // verus!
