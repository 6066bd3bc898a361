use vstd::prelude::*;

use crate::text::{copy_string, owned, str_eq};

verus! {

/// A small string-to-string map that keeps its names unique.
#[derive(Debug)]
pub struct AttributeList {
    entries: Vec<(String, String)>,
}

/// The position of the entry named `k`.
pub closed spec fn name_index(s: Seq<(String, String)>, k: Seq<char>) -> int {
    choose|i: int| 0 <= i < s.len() && s[i].0@ == k
}

pub closed spec fn has_name(s: Seq<(String, String)>, k: Seq<char>) -> bool {
    exists|i: int| 0 <= i < s.len() && s[i].0@ == k
}

pub closed spec fn unique_names(s: Seq<(String, String)>) -> bool {
    forall|i: int, j: int| 0 <= i < s.len() && 0 <= j < s.len() && i != j ==> s[i].0@ != s[j].0@
}

impl View for AttributeList {
    type V = Map<Seq<char>, Seq<char>>;

    closed spec fn view(&self) -> Map<Seq<char>, Seq<char>> {
        Map::new(
            |k: Seq<char>| has_name(self.entries@, k),
            |k: Seq<char>| self.entries@[name_index(self.entries@, k)].1@,
        )
    }
}

impl AttributeList {
    #[verifier::type_invariant]
    closed spec fn names_are_unique(self) -> bool {
        unique_names(self.entries@)
    }

    /// The map with no attribute.
    pub fn new() -> (r: AttributeList)
        ensures
            r@ == Map::<Seq<char>, Seq<char>>::empty(),
    {
        let r = AttributeList { entries: Vec::new() };
        assert(r@ =~= Map::<Seq<char>, Seq<char>>::empty());
        r
    }

    /// The position of the entry named `name`, if any.
    fn find(&self, name: &str) -> (r: Option<usize>)
        ensures
            r is Some <==> self@.contains_key(name@),
            r matches Some(i) ==> i < self.entries@.len() && self.entries@[i as int].0@ == name@
                && i == name_index(self.entries@, name@),
    {
        proof {
            use_type_invariant(self);
        }
        let mut i: usize = 0;
        while i < self.entries.len()
            invariant
                i <= self.entries@.len(),
                unique_names(self.entries@),
                forall|j: int| 0 <= j < i ==> self.entries@[j].0@ != name@,
            decreases self.entries@.len() - i,
        {
            if str_eq(self.entries[i].0.as_str(), name) {
                proof {
                    let w = name_index(self.entries@, name@);
                    assert(has_name(self.entries@, name@));
                }
                return Some(i);
            }
            i = i + 1;
        }
        None
    }

    /// The value of attribute `name`, if it is set.
    pub fn get(&self, name: &str) -> (r: Option<&String>)
        ensures
            r is Some <==> self@.contains_key(name@),
            r matches Some(v) ==> v@ == self@[name@],
    {
        match self.find(name) {
            Some(i) => Some(&self.entries[i].1),
            None => None,
        }
    }

    /// The number of attributes.
    pub fn len(&self) -> (r: usize)
        ensures
            r == self@.len(),
    {
        proof {
            use_type_invariant(self);
            self.lemma_len();
        }
        self.entries.len()
    }

    proof fn lemma_len(&self)
        requires
            unique_names(self.entries@),
        ensures
            self@.dom().finite(),
            self@.len() == self.entries@.len(),
        decreases self.entries@.len(),
    {
        let s = self.entries@;
        let names = s.map_values(|e: (String, String)| e.0@);
        assert(names.no_duplicates()) by {
            assert forall|i: int, j: int| 0 <= i < names.len() && 0 <= j < names.len() && i != j implies names[i] != names[j] by {
                assert(names[i] == s[i].0@);
                assert(names[j] == s[j].0@);
            }
        }
        assert(self@.dom() =~= names.to_set()) by {
            assert forall|k: Seq<char>| self@.dom().contains(k) implies names.to_set().contains(k) by {
                let i = choose|i: int| 0 <= i < s.len() && s[i].0@ == k;
                assert(names[i] == k);
            }
            assert forall|k: Seq<char>| names.to_set().contains(k) implies self@.dom().contains(k) by {
                let i = choose|i: int| 0 <= i < names.len() && names[i] == k;
                assert(s[i].0@ == k);
            }
        }
        names.unique_seq_to_set();
    }

    /// The attribute stored at position `index`, as its name and value;
    /// positions run from 0 to `len()`.
    pub fn entry(&self, index: usize) -> (r: (&String, &String))
        requires
            index < self@.len(),
        ensures
            self@.contains_key(r.0@),
            self@[r.0@] == r.1@,
    {
        proof {
            use_type_invariant(self);
            self.lemma_len();
            let k = self.entries@[index as int].0@;
            assert(has_name(self.entries@, k));
            let j = name_index(self.entries@, k);
            assert(self.entries@[j].0@ == k);
            assert(j == index);
        }
        let e = &self.entries[index];
        (&e.0, &e.1)
    }

    /// Sets attribute `name` to `value`, replacing an earlier value.
    pub fn set(&mut self, name: &str, value: &str)
        ensures
            final(self)@ == old(self)@.insert(name@, value@),
    {
        proof {
            use_type_invariant(&*self);
        }
        let ghost s0 = self.entries@;
        match self.find(name) {
            Some(i) => {
                let mut entries: Vec<(String, String)> = Vec::new();
                std::mem::swap(&mut entries, &mut self.entries);
                entries.set(i, (owned(name), owned(value)));
                let ghost s1 = entries@;
                proof {
                    assert(unique_names(s1)) by {
                        assert forall|a: int, b: int|
                            0 <= a < s1.len() && 0 <= b < s1.len() && a != b implies s1[a].0@
                            != s1[b].0@ by {
                            assert(s0[a].0@ != s0[b].0@);
                        }
                    }
                    let m0 = Map::new(
                        |k: Seq<char>| has_name(s0, k),
                        |k: Seq<char>| s0[name_index(s0, k)].1@,
                    );
                    let m1 = Map::new(
                        |k: Seq<char>| has_name(s1, k),
                        |k: Seq<char>| s1[name_index(s1, k)].1@,
                    );
                    assert forall|k: Seq<char>| has_name(s1, k) <==> #[trigger] has_name(s0, k) || k == name@ by {
                        if has_name(s0, k) && k != name@ {
                            let j = choose|j: int| 0 <= j < s0.len() && s0[j].0@ == k;
                            assert(s1[j].0@ == k);
                        }
                        if k == name@ {
                            assert(s1[i as int].0@ == k);
                        }
                        if has_name(s1, k) {
                            let j = choose|j: int| 0 <= j < s1.len() && s1[j].0@ == k;
                            if j != i {
                                assert(s0[j].0@ == k);
                            }
                        }
                    }
                    assert forall|k: Seq<char>| #[trigger] m1.contains_key(k) implies m1[k] == m0.insert(name@, value@)[k] by {
                        let j1 = name_index(s1, k);
                        assert(0 <= j1 < s1.len() && s1[j1].0@ == k);
                        if k == name@ {
                            assert(j1 == i);
                        } else {
                            let j0 = name_index(s0, k);
                            assert(0 <= j0 < s0.len() && s0[j0].0@ == k);
                            assert(j1 != i);
                            assert(s0[j1].0@ == k);
                            assert(j0 == j1);
                        }
                    }
                    assert(m1 =~= m0.insert(name@, value@));
                }
                self.entries = entries;
            },
            None => {
                let mut entries: Vec<(String, String)> = Vec::new();
                std::mem::swap(&mut entries, &mut self.entries);
                entries.push((owned(name), owned(value)));
                let ghost s1 = entries@;
                proof {
                    assert(unique_names(s1)) by {
                        assert forall|a: int, b: int|
                            0 <= a < s1.len() && 0 <= b < s1.len() && a != b implies s1[a].0@
                            != s1[b].0@ by {
                            if a < s0.len() && b < s0.len() {
                                assert(s0[a].0@ != s0[b].0@);
                            } else if a < s0.len() {
                                assert(!has_name(s0, name@));
                                assert(s0[a].0@ != name@);
                            } else {
                                assert(!has_name(s0, name@));
                                assert(s0[b].0@ != name@);
                            }
                        }
                    }
                    let m0 = Map::new(
                        |k: Seq<char>| has_name(s0, k),
                        |k: Seq<char>| s0[name_index(s0, k)].1@,
                    );
                    let m1 = Map::new(
                        |k: Seq<char>| has_name(s1, k),
                        |k: Seq<char>| s1[name_index(s1, k)].1@,
                    );
                    let last = s0.len() as int;
                    assert forall|k: Seq<char>| has_name(s1, k) <==> #[trigger] has_name(s0, k) || k == name@ by {
                        if has_name(s0, k) {
                            let j = choose|j: int| 0 <= j < s0.len() && s0[j].0@ == k;
                            assert(s1[j].0@ == k);
                        }
                        if k == name@ {
                            assert(s1[last].0@ == k);
                        }
                        if has_name(s1, k) {
                            let j = choose|j: int| 0 <= j < s1.len() && s1[j].0@ == k;
                            if j != last {
                                assert(s0[j].0@ == k);
                            }
                        }
                    }
                    assert forall|k: Seq<char>| #[trigger] m1.contains_key(k) implies m1[k] == m0.insert(name@, value@)[k] by {
                        let j1 = name_index(s1, k);
                        assert(0 <= j1 < s1.len() && s1[j1].0@ == k);
                        if k == name@ {
                            assert(j1 == last);
                        } else {
                            let j0 = name_index(s0, k);
                            assert(0 <= j0 < s0.len() && s0[j0].0@ == k);
                            assert(j1 != last);
                            assert(s1[j0].0@ == k);
                            assert(j0 == j1);
                        }
                    }
                    assert(m1 =~= m0.insert(name@, value@));
                }
                self.entries = entries;
            },
        }
    }

    /// Removes attribute `name`, if it is set.
    pub fn remove(&mut self, name: &str)
        ensures
            final(self)@ == old(self)@.remove(name@),
    {
        proof {
            use_type_invariant(&*self);
        }
        let ghost s0 = self.entries@;
        match self.find(name) {
            Some(i) => {
                let mut entries: Vec<(String, String)> = Vec::new();
                std::mem::swap(&mut entries, &mut self.entries);
                entries.remove(i);
                let ghost s1 = entries@;
                proof {
                    let sh = |a: int| if a < i { a } else { a + 1 };
                    assert forall|a: int| 0 <= a < s1.len() implies #[trigger] s1[a] == s0[sh(a)] by {}
                    assert(unique_names(s1)) by {
                        assert forall|a: int, b: int|
                            0 <= a < s1.len() && 0 <= b < s1.len() && a != b implies s1[a].0@
                            != s1[b].0@ by {
                            assert(s1[a] == s0[sh(a)]);
                            assert(s1[b] == s0[sh(b)]);
                        }
                    }
                    let m0 = Map::new(
                        |k: Seq<char>| has_name(s0, k),
                        |k: Seq<char>| s0[name_index(s0, k)].1@,
                    );
                    let m1 = Map::new(
                        |k: Seq<char>| has_name(s1, k),
                        |k: Seq<char>| s1[name_index(s1, k)].1@,
                    );
                    assert forall|k: Seq<char>| has_name(s1, k) <==> #[trigger] has_name(s0, k) && k != name@ by {
                        if has_name(s0, k) && k != name@ {
                            let j = choose|j: int| 0 <= j < s0.len() && s0[j].0@ == k;
                            assert(j != i);
                            let nj = if j < i { j } else { j - 1 };
                            assert(s1[nj] == s0[sh(nj)]);
                            assert(s1[nj].0@ == k);
                        }
                        if has_name(s1, k) {
                            let j = choose|j: int| 0 <= j < s1.len() && s1[j].0@ == k;
                            assert(s1[j] == s0[sh(j)]);
                            assert(sh(j) != i);
                        }
                    }
                    assert forall|k: Seq<char>| #[trigger] m1.contains_key(k) implies m1[k] == m0.remove(name@)[k] by {
                        let j1 = name_index(s1, k);
                        assert(0 <= j1 < s1.len() && s1[j1].0@ == k);
                        let j0 = name_index(s0, k);
                        assert(0 <= j0 < s0.len() && s0[j0].0@ == k);
                        assert(s1[j1] == s0[sh(j1)]);
                        assert(sh(j1) == j0);
                    }
                    assert(m1 =~= m0.remove(name@));
                }
                self.entries = entries;
            },
            None => {
                assert(self@ =~= old(self)@.remove(name@));
            },
        }
    }

    /// A copy with the same attributes.
    pub fn copy(&self) -> (r: AttributeList)
        ensures
            r@ == self@,
    {
        proof {
            use_type_invariant(self);
        }
        let mut entries: Vec<(String, String)> = Vec::new();
        let mut i: usize = 0;
        while i < self.entries.len()
            invariant
                i <= self.entries@.len(),
                entries@.len() == i,
                forall|j: int| 0 <= j < i ==> (#[trigger] entries@[j]).0@ == self.entries@[j].0@
                    && entries@[j].1@ == self.entries@[j].1@,
            decreases self.entries@.len() - i,
        {
            let e = &self.entries[i];
            entries.push((copy_string(&e.0), copy_string(&e.1)));
            i = i + 1;
        }
        let ghost s0 = self.entries@;
        let ghost s1 = entries@;
        proof {
            assert(unique_names(s0));
            assert(unique_names(s1)) by {
                assert forall|a: int, b: int|
                    0 <= a < s1.len() && 0 <= b < s1.len() && a != b implies s1[a].0@ != s1[b].0@ by {
                    assert(s0[a].0@ != s0[b].0@);
                }
            }
            assert forall|k: Seq<char>| has_name(s1, k) <==> #[trigger] has_name(s0, k) by {
                if has_name(s0, k) {
                    let j = choose|j: int| 0 <= j < s0.len() && s0[j].0@ == k;
                    assert(s1[j].0@ == k);
                }
                if has_name(s1, k) {
                    let j = choose|j: int| 0 <= j < s1.len() && s1[j].0@ == k;
                    assert(s0[j].0@ == k);
                }
            }
        }
        let r = AttributeList { entries };
        proof {
            assert forall|k: Seq<char>| #[trigger] r@.contains_key(k) implies r@[k] == self@[k] by {
                let j1 = name_index(s1, k);
                let j0 = name_index(s0, k);
                assert(0 <= j1 < s1.len() && s1[j1].0@ == k);
                assert(0 <= j0 < s0.len() && s0[j0].0@ == k);
                assert(s0[j1].0@ == k);
                assert(j0 == j1);
            }
            assert(r@ =~= self@);
        }
        r
    }
}

/// Two attribute lists are equal when they map the same names to the same
/// values, whatever order their entries were set in.
impl PartialEq for AttributeList {
    fn eq(&self, other: &Self) -> (r: bool) {
        proof {
            use_type_invariant(self);
            use_type_invariant(other);
            self.lemma_len();
            other.lemma_len();
        }
        if self.entries.len() != other.entries.len() {
            return false;
        }
        let mut i: usize = 0;
        while i < self.entries.len()
            invariant
                i <= self.entries@.len(),
                unique_names(self.entries@),
                forall|j: int|
                    0 <= j < i ==> other@.contains_key(#[trigger] self.entries@[j].0@) && other@[self.entries@[j].0@]
                        == self.entries@[j].1@,
            decreases self.entries@.len() - i,
        {
            let found = match other.get(self.entries[i].0.as_str()) {
                Some(v) => str_eq(v.as_str(), self.entries[i].1.as_str()),
                None => false,
            };
            if !found {
                proof {
                    let k = self.entries@[i as int].0@;
                    assert(has_name(self.entries@, k));
                    let w = name_index(self.entries@, k);
                    assert(w == i);
                }
                return false;
            }
            i = i + 1;
        }
        proof {
            assert forall|k: Seq<char>| self@.contains_key(k) implies other@.contains_key(k)
                && other@[k] == self@[k] by {
                let w = name_index(self.entries@, k);
                assert(self.entries@[w].0@ == k);
            }
            vstd::set_lib::lemma_subset_equality(self@.dom(), other@.dom());
            assert(self@ =~= other@);
        }
        true
    }
}

impl vstd::std_specs::cmp::PartialEqSpecImpl for AttributeList {
    open spec fn obeys_eq_spec() -> bool {
        true
    }

    open spec fn eq_spec(&self, other: &Self) -> bool {
        self@ == other@
    }
}

impl Eq for AttributeList {

}

} // verus!
