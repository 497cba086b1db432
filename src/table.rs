//! A table keyed by strings, seen as a map from each key's characters to the
//! view of its value.
use vstd::prelude::*;

verus! {

/// No two entries of `s` have the same key.
pub open spec fn keys_distinct<V>(s: Seq<(String, V)>) -> bool {
    forall|i: int, j: int|
        0 <= i < s.len() && 0 <= j < s.len() && i != j ==> (#[trigger] s[i]).0@ != (#[trigger] s[j]).0@
}

/// The map that the entries of `s` describe, later entries taking precedence.
pub open spec fn map_of<V: View>(s: Seq<(String, V)>) -> Map<Seq<char>, V::V>
    decreases s.len(),
{
    if s.len() == 0 {
        Map::empty()
    } else {
        map_of(s.drop_last()).insert(s.last().0@, s.last().1@)
    }
}

/// A key is in the map exactly where some entry has it.
proof fn lemma_map_of_dom<V: View>(s: Seq<(String, V)>, k: Seq<char>)
    ensures
        map_of(s).contains_key(k) <==> exists|i: int| 0 <= i < s.len() && (#[trigger] s[i]).0@ == k,
    decreases s.len(),
{
    if s.len() > 0 {
        lemma_map_of_dom(s.drop_last(), k);
        if map_of(s.drop_last()).contains_key(k) {
            let i = choose|i: int| 0 <= i < s.drop_last().len() && (#[trigger] s.drop_last()[i]).0@ == k;
            assert(s[i].0@ == k);
        }
        if exists|i: int| 0 <= i < s.len() && (#[trigger] s[i]).0@ == k {
            let i = choose|i: int| 0 <= i < s.len() && (#[trigger] s[i]).0@ == k;
            if i < s.len() - 1 {
                assert(s.drop_last()[i].0@ == k);
            }
        }
    }
}

/// Where keys are distinct, each entry's key maps to the view of its value.
proof fn lemma_map_of_value<V: View>(s: Seq<(String, V)>, i: int)
    requires
        keys_distinct(s),
        0 <= i < s.len(),
    ensures
        map_of(s).contains_key(s[i].0@),
        map_of(s)[s[i].0@] == s[i].1@,
    decreases s.len(),
{
    if i < s.len() - 1 {
        let d = s.drop_last();
        assert(d[i] == s[i]);
        assert(s[s.len() - 1].0@ != s[i].0@);
        lemma_map_of_value(d, i);
    }
}

/// Removing the entry at `i` removes its key from the map.
proof fn lemma_map_of_remove<V: View>(s: Seq<(String, V)>, i: int)
    requires
        keys_distinct(s),
        0 <= i < s.len(),
    ensures
        keys_distinct(s.remove(i)),
        map_of(s.remove(i)) == map_of(s).remove(s[i].0@),
    decreases s.len(),
{
    let d = s.drop_last();
    let k = s[i].0@;
    assert(keys_distinct(s.remove(i))) by {
        assert forall|a: int, b: int|
            0 <= a < s.remove(i).len() && 0 <= b < s.remove(i).len() && a != b implies
            (#[trigger] s.remove(i)[a]).0@ != (#[trigger] s.remove(i)[b]).0@ by {
            let a0 = if a < i { a } else { a + 1 };
            let b0 = if b < i { b } else { b + 1 };
            assert(s.remove(i)[a] == s[a0]);
            assert(s.remove(i)[b] == s[b0]);
        }
    }
    if i == s.len() - 1 {
        assert(s.remove(i) =~= d);
        lemma_map_of_dom(d, k);
        if map_of(d).contains_key(k) {
            let j = choose|j: int| 0 <= j < d.len() && (#[trigger] d[j]).0@ == k;
            assert(s[j] == d[j]);
        }
        assert(map_of(d) =~= map_of(s).remove(k));
    } else {
        assert(keys_distinct(d));
        lemma_map_of_remove(d, i);
        let r = s.remove(i);
        assert(r.drop_last() =~= d.remove(i));
        assert(r.last() == s.last());
        assert(s.last().0@ != k);
        assert(map_of(r) =~= map_of(s).remove(k));
    }
}

/// A table keyed by strings, with at most one entry for each key.
pub struct Table<V> {
    entries: Vec<(String, V)>,
}

impl<V: View> View for Table<V> {
    type V = Map<Seq<char>, V::V>;

    closed spec fn view(&self) -> Map<Seq<char>, V::V> {
        map_of(self.entries@)
    }
}

impl<V> Table<V> {
    #[verifier::type_invariant]
    spec fn distinct(self) -> bool {
        keys_distinct(self.entries@)
    }
}

impl<V: View> Table<V> {
    /// An empty table.
    pub fn new() -> (r: Self)
        ensures
            r@ == Map::<Seq<char>, V::V>::empty(),
    {
        Table { entries: Vec::new() }
    }

    /// The index of the entry with key `k`, if there is one.
    fn find(&self, k: &String) -> (r: Option<usize>)
        ensures
            r is Some <==> self@.contains_key(k@),
            r matches Some(i) ==> i < self.entries@.len() && self.entries@[i as int].0@ == k@,
    {
        proof {
            use_type_invariant(self);
            lemma_map_of_dom(self.entries@, k@);
        }
        let mut i: usize = 0;
        while i < self.entries.len()
            invariant
                i <= self.entries@.len(),
                forall|j: int| 0 <= j < i ==> (#[trigger] self.entries@[j]).0@ != k@,
            decreases self.entries@.len() - i,
        {
            if self.entries[i].0 == *k {
                proof {
                    lemma_map_of_dom(self.entries@, k@);
                    assert(self.entries@[i as int].0@ == k@);
                }
                return Some(i);
            }
            i = i + 1;
        }
        None
    }

    /// Whether the table has an entry with key `k`.
    pub fn contains(&self, k: &String) -> (r: bool)
        ensures
            r == self@.contains_key(k@),
    {
        self.find(k).is_some()
    }

    /// The value stored under `k`, if any.
    pub fn get(&self, k: &String) -> (r: Option<&V>)
        ensures
            r is Some <==> self@.contains_key(k@),
            r matches Some(v) ==> v@ == self@[k@],
    {
        proof {
            use_type_invariant(self);
        }
        match self.find(k) {
            Some(i) => {
                proof {
                    lemma_map_of_value(self.entries@, i as int);
                }
                Some(&self.entries[i].1)
            },
            None => None,
        }
    }

    /// Takes the entry with key `k` out of the table and returns its value.
    pub fn remove(&mut self, k: &String) -> (r: Option<V>)
        ensures
            r is Some <==> old(self)@.contains_key(k@),
            r matches Some(v) ==> v@ == old(self)@[k@],
            final(self)@ == old(self)@.remove(k@),
    {
        proof {
            use_type_invariant(&*self);
        }
        match self.find(k) {
            Some(i) => {
                let mut entries = Vec::new();
                std::mem::swap(&mut entries, &mut self.entries);
                proof {
                    lemma_map_of_value(entries@, i as int);
                    lemma_map_of_remove(entries@, i as int);
                }
                let (_, v) = entries.remove(i);
                self.entries = entries;
                Some(v)
            },
            None => {
                proof {
                    assert(old(self)@.remove(k@) =~= old(self)@);
                }
                None
            },
        }
    }

    /// Stores `v` under `k`, in place of any value stored there before.
    pub fn insert(&mut self, k: String, v: V)
        ensures
            final(self)@ == old(self)@.insert(k@, v@),
    {
        let _ = self.remove(&k);
        proof {
            use_type_invariant(&*self);
        }
        let mut entries = Vec::new();
        std::mem::swap(&mut entries, &mut self.entries);
        proof {
            lemma_map_of_dom(entries@, k@);
            assert forall|j: int| 0 <= j < entries@.len() implies (#[trigger] entries@[j]).0@ != k@ by {
                if entries@[j].0@ == k@ {
                    assert(map_of(entries@).contains_key(k@));
                }
            }
        }
        let ghost before = entries@;
        entries.push((k, v));
        proof {
            assert(entries@.drop_last() =~= before);
            assert(keys_distinct(entries@));
        }
        self.entries = entries;
    }
}

} // verus!
