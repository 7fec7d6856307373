//! A reference-counted dictionary: named slots into a value arena.
//!
//! Keys map to slot entries carrying an element index and a reference
//! count; values live in a flat arena addressed by that index. Adding
//! a reference bumps the count; removing the last one drops the key,
//! while the value slot stays behind for the arena's lifetime.
use vstd::prelude::*;
use vstd::pervasive::VecAdditionalExecFns;
use crate::error::{Error, ErrorKind, REF_DICT_ERROR};

verus! {

/// A slot entry: where the value lives and how many references hold
/// the key.
pub struct RefDictValue {
    pub id: usize,
    pub references: usize,
}

/// First entry index whose key reads `k`, or the entry count when none
/// does.
pub open spec fn find_key(entries: Seq<(String, RefDictValue)>, k: Seq<char>) -> int
    decreases entries.len(),
{
    if entries.len() == 0 {
        0
    } else if entries[0].0@ == k {
        0
    } else {
        1 + find_key(entries.skip(1), k)
    }
}

pub proof fn lemma_find_key(entries: Seq<(String, RefDictValue)>, k: Seq<char>)
    ensures
        0 <= find_key(entries, k) <= entries.len(),
        find_key(entries, k) < entries.len() ==> entries[find_key(entries, k)].0@ == k,
        forall|j: int| 0 <= j < find_key(entries, k) ==> entries[j].0@ != k,
    decreases entries.len(),
{
    if entries.len() > 0 && entries[0].0@ != k {
        lemma_find_key(entries.skip(1), k);
        assert forall|j: int| 0 <= j < find_key(entries, k) implies entries[j].0@ != k by {
            if j > 0 {
                assert(entries.skip(1)[j - 1] == entries[j]);
            }
        }
        if find_key(entries, k) < entries.len() {
            assert(entries.skip(1)[find_key(entries, k) - 1] == entries[find_key(entries, k)]);
        }
    }
}

/// The dictionary: keyed slot entries over a value arena, plus a free
/// list of reusable arena slots.
pub struct RefDict<V> {
    pub indexes: Vec<(String, RefDictValue)>,
    pub elements: Vec<V>,
    pub free_elements: Vec<usize>,
}

impl<V> RefDict<V> {
    /// Keys are unique, every entry's slot lies in the arena, and free
    /// slots lie in the arena without aliasing any entry's slot.
    pub open spec fn wf(&self) -> bool {
        &&& forall|i: int, j: int| 0 <= i < j < self.indexes@.len() ==> self.indexes@[i].0@
            != self.indexes@[j].0@
        &&& forall|i: int| 0 <= i < self.indexes@.len() ==> #[trigger] self.indexes@[i].1.id
            < self.elements@.len()
        &&& forall|f: int| 0 <= f < self.free_elements@.len() ==> #[trigger] self.free_elements@[f]
            < self.elements@.len()
        &&& forall|f: int, i: int| 0 <= f < self.free_elements@.len() && 0 <= i
            < self.indexes@.len() ==> #[trigger] self.free_elements@[f]
            != #[trigger] self.indexes@[i].1.id
        &&& forall|f1: int, f2: int| 0 <= f1 < f2 < self.free_elements@.len()
            ==> self.free_elements@[f1] != self.free_elements@[f2]
    }

    /// Whether some entry carries the key.
    pub open spec fn spec_contains(&self, k: Seq<char>) -> bool {
        find_key(self.indexes@, k) < self.indexes@.len()
    }

    /// The slot index of the key's entry.
    pub open spec fn spec_id_of(&self, k: Seq<char>) -> int {
        self.indexes@[find_key(self.indexes@, k)].1.id as int
    }

    pub fn new() -> (r: Self)
        ensures
            r.wf(),
            r.indexes@.len() == 0,
            r.elements@.len() == 0,
            r.free_elements@.len() == 0,
    {
        Self {
            indexes: Vec::new(),
            elements: Vec::new(),
            free_elements: Vec::new(),
        }
    }

    pub fn get_value(&self, index: usize) -> (r: &V)
        requires
            index < self.elements@.len(),
        ensures
            r == &self.elements@[index as int],
    {
        &self.elements[index]
    }

    /// A mutable borrow of the value in an arena slot.
    pub fn get_mut_value(&mut self, index: usize) -> (r: &mut V)
        requires
            old(self).wf(),
            index < old(self).elements@.len(),
        ensures
            final(self).wf(),
            *r == old(self).elements@[index as int],
            final(self).indexes == old(self).indexes,
            final(self).free_elements == old(self).free_elements,
            final(self).elements@ == old(self).elements@.update(index as int, *final(r)),
    {
        &mut self.elements[index]
    }

    /// Overwrites the value in an arena slot.
    pub fn set_value(&mut self, index: usize, value: V)
        requires
            old(self).wf(),
            index < old(self).elements@.len(),
        ensures
            final(self).wf(),
            final(self).indexes == old(self).indexes,
            final(self).free_elements == old(self).free_elements,
            final(self).elements@ == old(self).elements@.update(index as int, value),
    {
        self.elements.set(index, value);
    }

    /// Scans for the key; the result points at its entry exactly when
    /// one exists.
    fn find_entry(&self, key: &str) -> (r: usize)
        ensures
            r == find_key(self.indexes@, key@),
    {
        let ghost entries = self.indexes@;
        proof {
            lemma_find_key(entries, key@);
        }
        let key_owned = key.to_owned();
        let mut i: usize = 0;
        while i < self.indexes.len()
            invariant
                0 <= i <= entries.len(),
                entries == self.indexes@,
                key_owned@ == key@,
                forall|j: int| 0 <= j < i ==> entries[j].0@ != key@,
                0 <= find_key(entries, key@) <= entries.len(),
                find_key(entries, key@) < entries.len() ==> entries[find_key(entries, key@)].0@
                    == key@,
                forall|j: int| 0 <= j < find_key(entries, key@) ==> entries[j].0@ != key@,
            decreases entries.len() - i,
        {
            if self.indexes[i].0.eq(&key_owned) {
                proof {
                    assert(find_key(entries, key@) == i);
                }
                return i;
            }
            i = i + 1;
        }
        proof {
            assert(find_key(entries, key@) == entries.len());
        }
        i
    }

    pub fn contains(&self, key: &str) -> (r: bool)
        ensures
            r == self.spec_contains(key@),
    {
        self.find_entry(key) < self.indexes.len()
    }

    pub fn get_value_id(&self, key: &str) -> (r: Option<usize>)
        ensures
            self.spec_contains(key@) ==> (r matches Some(id) && id == self.spec_id_of(key@)),
            !self.spec_contains(key@) ==> r is None,
    {
        let at = self.find_entry(key);
        if at < self.indexes.len() {
            Some(self.indexes[at].1.id)
        } else {
            None
        }
    }

    /// Every key, in entry order.
    pub fn get_keys(&self) -> (r: Vec<String>)
        ensures
            r@.len() == self.indexes@.len(),
            forall|i: int| 0 <= i < r@.len() ==> r@[i]@ == self.indexes@[i].0@,
    {
        let mut r: Vec<String> = Vec::new();
        let mut i: usize = 0;
        while i < self.indexes.len()
            invariant
                0 <= i <= self.indexes@.len(),
                r@.len() == i,
                forall|j: int| 0 <= j < i ==> r@[j]@ == self.indexes@[j].0@,
            decreases self.indexes@.len() - i,
        {
            r.push(self.indexes[i].0.clone());
            i = i + 1;
        }
        r
    }

    /// Stores a value under a fresh key, reusing a free arena slot if
    /// one is left, and starts its reference count at zero. A key
    /// already present is refused, with nothing changed.
    pub fn add_value(&mut self, key: &str, value: V) -> (r: Result<(), Error>)
        requires
            old(self).wf(),
        ensures
            final(self).wf(),
            old(self).spec_contains(key@) ==> {
                &&& r == Err::<(), Error>(Error {
                    kind: ErrorKind::ValueAlreadyExists,
                    options: REF_DICT_ERROR,
                })
                &&& *final(self) == *old(self)
            },
            !old(self).spec_contains(key@) ==> {
                &&& r == Ok::<(), Error>(())
                &&& ({
                    let id = if old(self).free_elements@.len() > 0 {
                        old(self).free_elements@.last() as int
                    } else {
                        old(self).elements@.len() as int
                    };
                    &&& final(self).indexes@.len() == old(self).indexes@.len() + 1
                    &&& final(self).indexes@.last().0@ == key@
                    &&& final(self).indexes@.last().1.id == id
                    &&& final(self).indexes@.last().1.references == 0
                    &&& final(self).indexes@.take(old(self).indexes@.len() as int) == old(
                        self,
                    ).indexes@
                    &&& final(self).elements@ == if old(self).free_elements@.len() > 0 {
                        old(self).elements@.update(id, value)
                    } else {
                        old(self).elements@.push(value)
                    }
                })
            },
    {
        if self.contains(key) {
            return Err(Error::value_already_exists());
        }
        proof {
            lemma_find_key(self.indexes@, key@);
        }
        let id: usize;
        if self.free_elements.len() > 0 {
            id = match self.free_elements.pop() {
                Some(id) => id,
                None => 0,
            };
            self.elements.set(id, value);
        } else {
            id = self.elements.len();
            self.elements.push(value);
        }
        self.indexes.push((key.to_owned(), RefDictValue { id, references: 0 }));
        proof {
            assert(final(self).indexes@.take(old(self).indexes@.len() as int) =~= old(
                self,
            ).indexes@);
            assert forall|i: int, j: int| 0 <= i < j < self.indexes@.len() implies self.indexes@[i].0@
                != self.indexes@[j].0@ by {
                if j == self.indexes@.len() - 1 {
                    assert(self.indexes@[i].0@ != key@);
                }
            }
        }
        Ok(())
    }

    /// Bumps the key's reference count (saturating at the machine
    /// limit) and hands back its slot index; a missing key is refused.
    pub fn add_reference(&mut self, key: &str) -> (r: Result<usize, Error>)
        requires
            old(self).wf(),
        ensures
            final(self).wf(),
            !old(self).spec_contains(key@) ==> {
                &&& r == Err::<usize, Error>(Error {
                    kind: ErrorKind::ValueDoesNotExist,
                    options: REF_DICT_ERROR,
                })
                &&& *final(self) == *old(self)
            },
            old(self).spec_contains(key@) ==> {
                &&& r == Ok::<usize, Error>(old(self).spec_id_of(key@) as usize)
                &&& final(self).elements == old(self).elements
                &&& final(self).free_elements == old(self).free_elements
                &&& ({
                    let at = find_key(old(self).indexes@, key@);
                    let entry = old(self).indexes@[at];
                    final(self).indexes@ == old(self).indexes@.update(
                        at,
                        (
                            entry.0,
                            RefDictValue {
                                id: entry.1.id,
                                references: if entry.1.references < usize::MAX {
                                    (entry.1.references + 1) as usize
                                } else {
                                    entry.1.references
                                },
                            },
                        ),
                    )
                })
            },
    {
        let at = self.find_entry(key);
        proof {
            lemma_find_key(self.indexes@, key@);
        }
        if at == self.indexes.len() {
            return Err(Error::value_does_not_exist());
        }
        let id = self.indexes[at].1.id;
        let references = self.indexes[at].1.references;
        let new_references = if references < usize::MAX {
            references + 1
        } else {
            references
        };
        let key_clone = self.indexes[at].0.clone();
        self.indexes.set(at, (key_clone, RefDictValue { id, references: new_references }));
        proof {
            assert forall|i: int, j: int| 0 <= i < j < self.indexes@.len() implies self.indexes@[i].0@
                != self.indexes@[j].0@ by {
                assert(old(self).indexes@[i].0@ != old(self).indexes@[j].0@);
            }
        }
        Ok(id)
    }

    /// Drops one reference from the key's count; at zero the key
    /// leaves the dictionary, though its arena slot stays behind. A
    /// missing key is refused.
    pub fn remove_reference(&mut self, key: &str) -> (r: Result<(), Error>)
        requires
            old(self).wf(),
        ensures
            final(self).wf(),
            !old(self).spec_contains(key@) ==> {
                &&& r == Err::<(), Error>(Error {
                    kind: ErrorKind::ValueDoesNotExist,
                    options: REF_DICT_ERROR,
                })
                &&& *final(self) == *old(self)
            },
            old(self).spec_contains(key@) ==> {
                &&& r == Ok::<(), Error>(())
                &&& final(self).elements == old(self).elements
                &&& final(self).free_elements == old(self).free_elements
                &&& ({
                    let at = find_key(old(self).indexes@, key@);
                    let entry = old(self).indexes@[at];
                    if entry.1.references <= 1 {
                        final(self).indexes@ == old(self).indexes@.remove(at)
                    } else {
                        final(self).indexes@ == old(self).indexes@.update(
                            at,
                            (
                                entry.0,
                                RefDictValue {
                                    id: entry.1.id,
                                    references: (entry.1.references - 1) as usize,
                                },
                            ),
                        )
                    }
                })
            },
    {
        let at = self.find_entry(key);
        proof {
            lemma_find_key(self.indexes@, key@);
        }
        if at == self.indexes.len() {
            return Err(Error::value_does_not_exist());
        }
        let references = self.indexes[at].1.references;
        if references <= 1 {
            let _ = self.indexes.remove(at);
            proof {
                assert forall|i: int, j: int| 0 <= i < j < self.indexes@.len() implies self.indexes@[i].0@
                    != self.indexes@[j].0@ by {
                    let oi = if i < at {
                        i
                    } else {
                        i + 1
                    };
                    let oj = if j < at {
                        j
                    } else {
                        j + 1
                    };
                    assert(self.indexes@[i] == old(self).indexes@[oi]);
                    assert(self.indexes@[j] == old(self).indexes@[oj]);
                }
                assert forall|i: int| 0 <= i < self.indexes@.len() implies #[trigger] self.indexes@[i].1.id
                    < self.elements@.len() by {
                    let oi = if i < at {
                        i
                    } else {
                        i + 1
                    };
                    assert(self.indexes@[i] == old(self).indexes@[oi]);
                }
                assert forall|f: int, i: int|
                    0 <= f < self.free_elements@.len() && 0 <= i < self.indexes@.len() implies #[trigger] self.free_elements@[f]
                    != #[trigger] self.indexes@[i].1.id by {
                    let oi = if i < at {
                        i
                    } else {
                        i + 1
                    };
                    assert(self.indexes@[i] == old(self).indexes@[oi]);
                }
            }
        } else {
            let id = self.indexes[at].1.id;
            let key_clone = self.indexes[at].0.clone();
            self.indexes.set(at, (key_clone, RefDictValue { id, references: references - 1 }));
            proof {
                assert forall|i: int, j: int| 0 <= i < j < self.indexes@.len() implies self.indexes@[i].0@
                    != self.indexes@[j].0@ by {
                    assert(old(self).indexes@[i].0@ != old(self).indexes@[j].0@);
                }
            }
        }
        Ok(())
    }
}

} // verus!
