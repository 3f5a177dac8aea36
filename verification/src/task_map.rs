//! Small maps keyed by task identifiers, kept as lists of distinct keys.

use vstd::prelude::*;

use crate::protocol::TaskId;

verus! {

/// Whether some entry holds the key `key`.
pub open spec fn has_key<V>(entries: Seq<(TaskId, V)>, key: Seq<char>) -> bool {
    exists|index: int| 0 <= index < entries.len() && (#[trigger] entries[index]).0@ == key
}

/// Index of the entry that holds `key`.
pub open spec fn key_position<V>(entries: Seq<(TaskId, V)>, key: Seq<char>) -> int {
    choose|index: int| 0 <= index < entries.len() && (#[trigger] entries[index]).0@ == key
}

/// No two entries hold the same key.
pub open spec fn distinct_keys<V>(entries: Seq<(TaskId, V)>) -> bool {
    forall|left: int, right: int|
        0 <= left < entries.len() && 0 <= right < entries.len() && (#[trigger] entries[left]).0@
            == (#[trigger] entries[right]).0@ ==> left == right
}

/// The map that a list of entries with distinct keys stands for.
pub open spec fn entries_map<V>(entries: Seq<(TaskId, V)>) -> Map<Seq<char>, V> {
    Map::new(
        |key: Seq<char>| has_key(entries, key),
        |key: Seq<char>| entries[key_position(entries, key)].1,
    )
}

/// Lemma: in a list of distinct keys, an entry's index is the position of its key.
pub proof fn lemma_position<V>(entries: Seq<(TaskId, V)>, index: int)
    requires
        distinct_keys(entries),
        0 <= index < entries.len(),
    ensures
        has_key(entries, entries[index].0@),
        key_position(entries, entries[index].0@) == index,
        entries_map(entries).contains_key(entries[index].0@),
        entries_map(entries)[entries[index].0@] == entries[index].1,
{
    let key = entries[index].0@;
    assert(has_key(entries, key));
    let chosen = key_position(entries, key);
    assert(entries[chosen].0@ == key);
}

/// A map from task identifiers to values.
#[derive(Debug)]
pub struct TaskMap<V> {
    entries: Vec<(TaskId, V)>,
}

impl<V> View for TaskMap<V> {
    type V = Map<Seq<char>, V>;

    closed spec fn view(&self) -> Map<Seq<char>, V> {
        entries_map(self.entries@)
    }
}

impl<V> TaskMap<V> {
    #[verifier::type_invariant]
    spec fn keys_distinct(self) -> bool {
        distinct_keys(self.entries@)
    }

    /// A map with no entries.
    pub fn new() -> (result: Self)
        ensures
            result@ == Map::<Seq<char>, V>::empty(),
    {
        let result = TaskMap { entries: Vec::new() };
        assert(result@ =~= Map::<Seq<char>, V>::empty());
        result
    }

    /// Index of the entry for `task`.
    fn find(&self, task: &TaskId) -> (result: Option<usize>)
        ensures
            match result {
                Some(index) => index < self.entries@.len() && self.entries@[index as int].0@
                    == task@,
                None => !has_key(self.entries@, task@),
            },
    {
        let mut index: usize = 0;
        while index < self.entries.len()
            invariant
                index <= self.entries@.len(),
                forall|k: int| 0 <= k < index ==> (#[trigger] self.entries@[k]).0@ != task@,
            decreases self.entries@.len() - index,
        {
            if self.entries[index].0.same(task) {
                return Some(index);
            }
            index += 1;
        }
        None
    }

    /// Whether the map holds an entry for `task`.
    pub fn contains(&self, task: &TaskId) -> (result: bool)
        ensures
            result == self@.contains_key(task@),
    {
        self.find(task).is_some()
    }

    /// The value stored for `task`.
    pub fn get(&self, task: &TaskId) -> (result: Option<&V>)
        ensures
            match result {
                Some(value) => self@.contains_key(task@) && *value == self@[task@],
                None => !self@.contains_key(task@),
            },
    {
        proof {
            use_type_invariant(self);
        }
        match self.find(task) {
            Some(index) => {
                proof {
                    lemma_position(self.entries@, index as int);
                }
                Some(&self.entries[index].1)
            },
            None => None,
        }
    }

    /// Stores `value` for `task`, replacing any earlier value.
    pub fn insert(&mut self, task: TaskId, value: V)
        ensures
            final(self)@ == old(self)@.insert(task@, value),
    {
        proof {
            use_type_invariant(&*self);
        }
        let ghost key = task@;
        match self.find(&task) {
            Some(index) => {
                let ghost before = self.entries@;
                let mut entries: Vec<(TaskId, V)> = Vec::new();
                std::mem::swap(&mut entries, &mut self.entries);
                entries.remove(index);
                entries.insert(index, (task, value));
                proof {
                    let after = entries@;
                    assert(after =~= before.update(index as int, after[index as int]));
                    assert(distinct_keys(after)) by {
                        assert forall|left: int, right: int|
                            0 <= left < after.len() && 0 <= right < after.len()
                                && (#[trigger] after[left]).0@ == (#[trigger] after[right]).0@ implies left
                            == right by {
                            if left != index && right != index {
                                assert(after[left] == before[left]);
                                assert(after[right] == before[right]);
                            } else if left == index && right != index {
                                assert(after[right] == before[right]);
                                assert(before[right].0@ == before[index as int].0@);
                            } else if right == index && left != index {
                                assert(after[left] == before[left]);
                                assert(before[left].0@ == before[index as int].0@);
                            }
                        }
                    }
                    lemma_position(before, index as int);
                    assert(entries_map(after) =~= entries_map(before).insert(key, value)) by {
                        assert forall|k: Seq<char>| #[trigger] has_key(after, k) == (has_key(before, k)
                            || k == key) by {
                            if has_key(before, k) {
                                let p = key_position(before, k);
                                assert(after[p].0@ == k);
                            }
                            if has_key(after, k) {
                                let p = key_position(after, k);
                                if p != index {
                                    assert(before[p].0@ == k);
                                }
                            }
                        }
                        assert forall|k: Seq<char>| has_key(after, k) implies entries_map(after)[k]
                            == entries_map(before).insert(key, value)[k] by {
                            let p = key_position(after, k);
                            lemma_position(after, p);
                            if p != index {
                                assert(after[p] == before[p]);
                                lemma_position(before, p);
                            }
                        }
                    }
                }
                self.entries = entries;
            },
            None => {
                let ghost before = self.entries@;
                let mut entries: Vec<(TaskId, V)> = Vec::new();
                std::mem::swap(&mut entries, &mut self.entries);
                entries.push((task, value));
                proof {
                    let after = entries@;
                    assert(distinct_keys(after)) by {
                        assert forall|left: int, right: int|
                            0 <= left < after.len() && 0 <= right < after.len()
                                && (#[trigger] after[left]).0@ == (#[trigger] after[right]).0@ implies left
                            == right by {
                            if left < before.len() && right < before.len() {
                                assert(after[left] == before[left]);
                                assert(after[right] == before[right]);
                            } else if left < before.len() {
                                assert(after[left] == before[left]);
                            } else if right < before.len() {
                                assert(after[right] == before[right]);
                            }
                        }
                    }
                    assert(entries_map(after) =~= entries_map(before).insert(key, value)) by {
                        assert forall|k: Seq<char>| #[trigger] has_key(after, k) == (has_key(before, k)
                            || k == key) by {
                            if has_key(before, k) {
                                let p = key_position(before, k);
                                assert(after[p].0@ == k);
                            }
                            if k == key {
                                assert(after[before.len() as int].0@ == k);
                            }
                            if has_key(after, k) {
                                let p = key_position(after, k);
                                if p < before.len() {
                                    assert(before[p].0@ == k);
                                }
                            }
                        }
                        assert forall|k: Seq<char>| has_key(after, k) implies entries_map(after)[k]
                            == entries_map(before).insert(key, value)[k] by {
                            let p = key_position(after, k);
                            lemma_position(after, p);
                            if p < before.len() {
                                assert(after[p] == before[p]);
                                lemma_position(before, p);
                            }
                        }
                    }
                }
                self.entries = entries;
            },
        }
    }

    /// Removes the entry for `task` and returns its value.
    pub fn take(&mut self, task: &TaskId) -> (result: Option<V>)
        ensures
            result == (if old(self)@.contains_key(task@) {
                Some(old(self)@[task@])
            } else {
                None
            }),
            final(self)@ == old(self)@.remove(task@),
    {
        proof {
            use_type_invariant(&*self);
        }
        let ghost key = task@;
        match self.find(task) {
            Some(index) => {
                let ghost before = self.entries@;
                let mut entries: Vec<(TaskId, V)> = Vec::new();
                std::mem::swap(&mut entries, &mut self.entries);
                let (_, value) = entries.remove(index);
                proof {
                    lemma_position(before, index as int);
                    let after = entries@;
                    assert forall|k: int| 0 <= k < after.len() implies #[trigger] after[k] == before[if k
                        < index {
                        k
                    } else {
                        k + 1
                    }] by {}
                    assert(distinct_keys(after)) by {
                        assert forall|left: int, right: int|
                            0 <= left < after.len() && 0 <= right < after.len()
                                && (#[trigger] after[left]).0@ == (#[trigger] after[right]).0@ implies left
                            == right by {
                            let l = if left < index {
                                left
                            } else {
                                left + 1
                            };
                            let r = if right < index {
                                right
                            } else {
                                right + 1
                            };
                            assert(before[l].0@ == before[r].0@);
                        }
                    }
                    assert(entries_map(after) =~= entries_map(before).remove(key)) by {
                        assert forall|k: Seq<char>| #[trigger] has_key(after, k) == (has_key(before, k)
                            && k != key) by {
                            if has_key(before, k) && k != key {
                                let p = key_position(before, k);
                                assert(p != index);
                                let q = if p < index {
                                    p
                                } else {
                                    p - 1
                                };
                                assert(after[q].0@ == k);
                            }
                            if has_key(after, k) {
                                let p = key_position(after, k);
                                let q = if p < index {
                                    p
                                } else {
                                    p + 1
                                };
                                assert(before[q].0@ == k);
                                assert(q != index);
                            }
                        }
                        assert forall|k: Seq<char>| has_key(after, k) implies entries_map(after)[k]
                            == entries_map(before).remove(key)[k] by {
                            let p = key_position(after, k);
                            lemma_position(after, p);
                            let q = if p < index {
                                p
                            } else {
                                p + 1
                            };
                            lemma_position(before, q);
                        }
                    }
                }
                self.entries = entries;
                Some(value)
            },
            None => {
                assert(self@ =~= self@.remove(key));
                None
            },
        }
    }

    /// Removes the entry for `task`; returns whether there was one.
    pub fn remove(&mut self, task: &TaskId) -> (result: bool)
        ensures
            result == old(self)@.contains_key(task@),
            final(self)@ == old(self)@.remove(task@),
    {
        self.take(task).is_some()
    }

    /// Removes every entry.
    pub fn clear(&mut self)
        ensures
            final(self)@ == Map::<Seq<char>, V>::empty(),
    {
        self.entries = Vec::new();
        assert(self@ =~= Map::<Seq<char>, V>::empty());
    }
}

impl<V: Copy> TaskMap<V> {
    /// The value stored for `task`, copied.
    pub fn get_copy(&self, task: &TaskId) -> (result: Option<V>)
        ensures
            result == (if self@.contains_key(task@) {
                Some(self@[task@])
            } else {
                None
            }),
    {
        match self.get(task) {
            Some(value) => Some(*value),
            None => None,
        }
    }
}

} // verus!
