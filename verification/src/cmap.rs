//! A configuration mapping from attribute ids to option values.
//!
//! Both the snapshot (currently effective values) and the pending overlay
//! are such mappings. The representation is an association vector with
//! unique keys; the mathematical model is a `Map` from id to value.

use vstd::prelude::*;

use crate::options::ModuleOption;
use crate::options::OptionValue;
use crate::text::str_eq;

verus! {

/// The map induced by an association sequence, last writer winning.
pub open spec fn map_of(s: Seq<(Seq<char>, OptionValue)>) -> Map<Seq<char>, OptionValue>
    decreases s.len(),
{
    if s.len() == 0 {
        Map::empty()
    } else {
        map_of(s.drop_last()).insert(s.last().0, s.last().1)
    }
}

/// No key occurs twice.
pub open spec fn unique_keys(s: Seq<(Seq<char>, OptionValue)>) -> bool {
    forall|i: int, j: int|
        0 <= i < j < s.len() ==> (#[trigger] s[i]).0 != (#[trigger] s[j]).0
}

/// A key is in the induced map exactly when some entry carries it.
proof fn lemma_map_of_contains(s: Seq<(Seq<char>, OptionValue)>, k: Seq<char>)
    ensures
        map_of(s).contains_key(k) <==> (exists|i: int|
            0 <= i < s.len() && (#[trigger] s[i]).0 == k),
    decreases s.len(),
{
    if s.len() > 0 {
        lemma_map_of_contains(s.drop_last(), k);
        if s.last().0 == k {
            assert(s[s.len() - 1].0 == k);
        } else if map_of(s).contains_key(k) {
            let i = choose|i: int|
                0 <= i < s.drop_last().len() && (#[trigger] s.drop_last()[i]).0 == k;
            assert(s[i].0 == k);
        } else if exists|i: int| 0 <= i < s.len() && (#[trigger] s[i]).0 == k {
            let i = choose|i: int| 0 <= i < s.len() && (#[trigger] s[i]).0 == k;
            assert(s.drop_last()[i].0 == k);
        }
    }
}

/// With unique keys, the entry at any index gives the mapped value.
proof fn lemma_map_of_index(s: Seq<(Seq<char>, OptionValue)>, i: int)
    requires
        unique_keys(s),
        0 <= i < s.len(),
    ensures
        map_of(s).contains_key(s[i].0),
        map_of(s)[s[i].0] == s[i].1,
    decreases s.len(),
{
    if i == s.len() - 1 {
    } else {
        assert(s[s.len() - 1].0 != s[i].0);
        assert(s.drop_last()[i] == s[i]);
        lemma_map_of_index(s.drop_last(), i);
    }
}

/// Removing the entry at an index removes its key from the map.
proof fn lemma_map_of_remove(s: Seq<(Seq<char>, OptionValue)>, i: int)
    requires
        unique_keys(s),
        0 <= i < s.len(),
    ensures
        map_of(s.remove(i)) == map_of(s).remove(s[i].0),
    decreases s.len(),
{
    let k = s[i].0;
    if i == s.len() - 1 {
        assert(s.remove(i) =~= s.drop_last());
        lemma_map_of_contains(s.drop_last(), k);
        assert(forall|j: int|
            0 <= j < s.drop_last().len() ==> (#[trigger] s.drop_last()[j]).0 != k);
        assert(!map_of(s.drop_last()).contains_key(k));
        assert(map_of(s.remove(i)) =~= map_of(s).remove(k));
    } else {
        assert(s.remove(i).drop_last() =~= s.drop_last().remove(i));
        assert(unique_keys(s.drop_last()));
        lemma_map_of_remove(s.drop_last(), i);
        assert(s.remove(i).last() == s.last());
        assert(s.last().0 != k);
        assert(map_of(s.remove(i)) =~= map_of(s).remove(k));
    }
}

/// A mapping from attribute ids to option values.
#[derive(Debug)]
pub struct ConfigMap {
    entries: Vec<(String, ModuleOption)>,
}

impl View for ConfigMap {
    type V = Map<Seq<char>, OptionValue>;

    open spec fn view(&self) -> Map<Seq<char>, OptionValue> {
        map_of(self.entries())
    }
}

impl ConfigMap {
    /// The entries in insertion order, as views.
    pub closed spec fn entries(&self) -> Seq<(Seq<char>, OptionValue)> {
        Seq::new(self.entries@.len(), |i: int| (self.entries@[i].0@, self.entries@[i].1@))
    }

    /// Well-formed: no attribute id occurs twice.
    pub closed spec fn wf(&self) -> bool {
        unique_keys(self.entries())
    }

    pub fn new() -> (r: ConfigMap)
        ensures
            r.wf(),
            r@ == Map::<Seq<char>, OptionValue>::empty(),
            r.entries() =~= Seq::<(Seq<char>, OptionValue)>::empty(),
    {
        let r = ConfigMap { entries: Vec::new() };
        proof {
            assert(r.entries() =~= Seq::<(Seq<char>, OptionValue)>::empty());
        }
        r
    }

    /// The index holding an id, if any.
    fn find(&self, id: &str) -> (r: Option<usize>)
        ensures
            match r {
                Some(i) => i < self.entries().len() && self.entries()[i as int].0 == id@,
                None => forall|i: int|
                    0 <= i < self.entries().len() ==> (#[trigger] self.entries()[i]).0 != id@,
            },
    {
        let mut i: usize = 0;
        while i < self.entries.len()
            invariant
                0 <= i <= self.entries@.len(),
                forall|j: int| 0 <= j < i ==> (#[trigger] self.entries()[j]).0 != id@,
            decreases self.entries@.len() - i,
        {
            if str_eq(self.entries[i].0.as_str(), id) {
                return Some(i);
            }
            proof {
                assert(self.entries()[i as int].0 == self.entries@[i as int].0@);
            }
            i = i + 1;
        }
        None
    }

    /// Looks an id up.
    pub fn get(&self, id: &str) -> (r: Option<&ModuleOption>)
        requires
            self.wf(),
        ensures
            match r {
                Some(v) => self@.contains_key(id@) && self@[id@] == v@,
                None => !self@.contains_key(id@),
            },
    {
        proof {
            lemma_map_of_contains(self.entries(), id@);
        }
        match self.find(id) {
            Some(i) => {
                proof {
                    lemma_map_of_index(self.entries(), i as int);
                }
                Some(&self.entries[i].1)
            },
            None => None,
        }
    }

    /// Whether an id is present.
    pub fn contains(&self, id: &str) -> (r: bool)
        requires
            self.wf(),
        ensures
            r == self@.contains_key(id@),
    {
        proof {
            lemma_map_of_contains(self.entries(), id@);
        }
        match self.find(id) {
            Some(_) => true,
            None => false,
        }
    }

    /// Inserts or overwrites the value for an id.
    pub fn insert(&mut self, id: String, value: ModuleOption)
        requires
            old(self).wf(),
        ensures
            final(self).wf(),
            final(self)@ == old(self)@.insert(id@, value@),
    {
        let ghost s0 = self.entries();
        match self.find(id.as_str()) {
            Some(i) => {
                proof {
                    lemma_map_of_remove(s0, i as int);
                }
                self.entries.remove(i);
                let ghost s1 = self.entries();
                proof {
                    assert(s1 =~= s0.remove(i as int));
                    assert(unique_keys(s1)) by {
                        assert(forall|a: int, b: int|
                            0 <= a < b < s1.len() ==> (#[trigger] s1[a]).0 != (
                            #[trigger] s1[b]).0) by {
                            assert(forall|a: int|
                                0 <= a < s1.len() ==> s1[a] == (if a < i {
                                    s0[a]
                                } else {
                                    s0[a + 1]
                                }));
                        }
                    }
                    assert(forall|a: int|
                        0 <= a < s1.len() ==> (#[trigger] s1[a]).0 != id@) by {
                        assert(forall|a: int|
                            0 <= a < s1.len() ==> s1[a] == (if a < i {
                                s0[a]
                            } else {
                                s0[a + 1]
                            }));
                        assert(forall|a: int|
                            0 <= a < s0.len() && a != i ==> (#[trigger] s0[a]).0 != id@);
                    }
                }
                proof {
                    assert(s0[i as int].0 == id@);
                }
                self.entries.push((id, value));
                proof {
                    let s2 = self.entries();
                    assert(s2.drop_last() =~= s1);
                    assert(s2.last() == (id@, value@));
                    assert forall|a: int, b: int|
                        0 <= a < b < s2.len() implies (#[trigger] s2[a]).0 != (
                    #[trigger] s2[b]).0 by {
                        if b == s2.len() - 1 {
                            assert(s2[a] == s1[a]);
                            assert(s1[a].0 != id@);
                        } else {
                            assert(s2[a] == s1[a]);
                            assert(s2[b] == s1[b]);
                        }
                    }
                    assert(map_of(s2) == map_of(s1).insert(id@, value@));
                    assert(map_of(s1) == map_of(s0).remove(id@));
                    assert(map_of(s0).remove(id@).insert(id@, value@) =~= map_of(s0).insert(
                        id@,
                        value@,
                    ));
                }
            },
            None => {
                self.entries.push((id, value));
                proof {
                    let s2 = self.entries();
                    assert(s2.drop_last() =~= s0);
                    assert(s2.last() == (id@, value@));
                    assert forall|a: int, b: int|
                        0 <= a < b < s2.len() implies (#[trigger] s2[a]).0 != (
                    #[trigger] s2[b]).0 by {
                        if b == s2.len() - 1 {
                            assert(s2[a] == s0[a]);
                            assert(s0[a].0 != id@);
                        } else {
                            assert(s2[a] == s0[a]);
                            assert(s2[b] == s0[b]);
                        }
                    }
                    assert(map_of(s2) == map_of(s0).insert(id@, value@));
                }
            },
        }
    }

    /// Removes an id; absent ids are left alone.
    pub fn remove(&mut self, id: &str)
        requires
            old(self).wf(),
        ensures
            final(self).wf(),
            final(self)@ == old(self)@.remove(id@),
    {
        let ghost s0 = self.entries();
        match self.find(id) {
            Some(i) => {
                proof {
                    lemma_map_of_remove(s0, i as int);
                }
                self.entries.remove(i);
                proof {
                    let s1 = self.entries();
                    assert(s1 =~= s0.remove(i as int));
                    assert(forall|a: int|
                        0 <= a < s1.len() ==> s1[a] == (if a < i {
                            s0[a]
                        } else {
                            s0[a + 1]
                        }));
                    assert(unique_keys(s1));
                }
            },
            None => {
                proof {
                    lemma_map_of_contains(s0, id@);
                    assert(!map_of(s0).contains_key(id@));
                    assert(map_of(s0) =~= map_of(s0).remove(id@));
                }
            },
        }
    }

    /// The number of entries.
    pub fn len(&self) -> (r: usize)
        ensures
            r == self.entries().len(),
    {
        self.entries.len()
    }

    /// Whether the mapping holds nothing.
    pub fn is_empty(&self) -> (r: bool)
        ensures
            r == (self@ == Map::<Seq<char>, OptionValue>::empty()),
            r == (self.entries().len() == 0),
    {
        proof {
            if self.entries().len() == 0 {
                assert(self@ =~= Map::<Seq<char>, OptionValue>::empty());
            } else {
                let s = self.entries();
                assert(map_of(s).contains_key(s.last().0));
                assert(self@ != Map::<Seq<char>, OptionValue>::empty());
            }
        }
        self.entries.is_empty()
    }

    /// The id at an entry index.
    pub fn key_at(&self, i: usize) -> (r: &String)
        requires
            i < self.entries().len(),
        ensures
            r@ == self.entries()[i as int].0,
    {
        &self.entries[i].0
    }

    /// The value at an entry index.
    pub fn value_at(&self, i: usize) -> (r: &ModuleOption)
        requires
            i < self.entries().len(),
        ensures
            r@ == self.entries()[i as int].1,
    {
        &self.entries[i].1
    }

    /// Entries carry the mapped values.
    pub proof fn lemma_entry_is_mapped(&self, i: int)
        requires
            self.wf(),
            0 <= i < self.entries().len(),
        ensures
            self@.contains_key(self.entries()[i].0),
            self@[self.entries()[i].0] == self.entries()[i].1,
    {
        lemma_map_of_index(self.entries(), i);
    }
}

} // verus!
