//! A small map from text keys to values, kept as a list of entries with
//! distinct keys and viewed as a `Map` from the keys' characters to the
//! values' views. It stands where a `HashMap<String, _>` would: vstd's
//! specification of `HashMap` ties lookups to the map's view only under
//! `obeys_key_model` for the key type, which vstd establishes for integer
//! keys and not for `String`, and which could only be assumed here.
use vstd::prelude::*;

verus! {

/// The map that a list of entries denotes; a later entry wins.
pub open spec fn entries_map<T: View>(s: Seq<(String, T)>) -> Map<Seq<char>, T::V>
    decreases s.len(),
{
    if s.len() == 0 {
        Map::empty()
    } else {
        entries_map(s.drop_last()).insert(s.last().0@, s.last().1@)
    }
}

/// No key occurs twice.
pub open spec fn keys_distinct<T>(s: Seq<(String, T)>) -> bool {
    forall|i: int, j: int| 0 <= i < s.len() && 0 <= j < s.len() && i != j ==> s[i].0@ != s[j].0@
}

proof fn lemma_entries_get<T: View>(s: Seq<(String, T)>, i: int)
    requires
        keys_distinct(s),
        0 <= i < s.len(),
    ensures
        entries_map(s).dom().contains(s[i].0@),
        entries_map(s)[s[i].0@] == s[i].1@,
    decreases s.len(),
{
    if i < s.len() - 1 {
        let d = s.drop_last();
        assert(d[i] == s[i]);
        assert(s.last() == s[s.len() - 1]);
        lemma_entries_get(d, i);
    }
}

proof fn lemma_entries_dom<T: View>(s: Seq<(String, T)>, k: Seq<char>)
    ensures
        entries_map(s).dom().contains(k) <==> exists|i: int| 0 <= i < s.len() && #[trigger] s[i].0@ == k,
    decreases s.len(),
{
    if s.len() > 0 {
        let d = s.drop_last();
        lemma_entries_dom(d, k);
        if entries_map(s).dom().contains(k) {
            if k == s.last().0@ {
                assert(s[s.len() - 1].0@ == k);
            } else {
                let i = choose|i: int| 0 <= i < d.len() && #[trigger] d[i].0@ == k;
                assert(s[i].0@ == k);
            }
        }
        if exists|i: int| 0 <= i < s.len() && #[trigger] s[i].0@ == k {
            let i = choose|i: int| 0 <= i < s.len() && #[trigger] s[i].0@ == k;
            if i < s.len() - 1 {
                assert(d[i].0@ == k);
            }
        }
    }
}

proof fn lemma_entries_update<T: View>(s: Seq<(String, T)>, i: int, e: (String, T))
    requires
        keys_distinct(s),
        0 <= i < s.len(),
        e.0@ == s[i].0@,
    ensures
        entries_map(s.update(i, e)) == entries_map(s).insert(e.0@, e.1@),
        keys_distinct(s.update(i, e)),
    decreases s.len(),
{
    let u = s.update(i, e);
    let d = s.drop_last();
    if i == s.len() - 1 {
        assert(u.drop_last() =~= d);
        assert(entries_map(u) =~= entries_map(s).insert(e.0@, e.1@));
    } else {
        assert(u.drop_last() =~= d.update(i, e));
        lemma_entries_update(d, i, e);
        assert(s.last().0@ != e.0@) by {
            assert(s[s.len() - 1] == s.last());
        }
        assert(u.last() == s.last());
        assert(entries_map(u) =~= entries_map(s).insert(e.0@, e.1@));
    }
    assert forall|a: int, b: int| 0 <= a < u.len() && 0 <= b < u.len() && a != b implies u[a].0@ != u[b].0@ by {
        assert(u[a].0@ == s[a].0@);
        assert(u[b].0@ == s[b].0@);
    }
}

proof fn lemma_entries_remove<T: View>(s: Seq<(String, T)>, i: int)
    requires
        keys_distinct(s),
        0 <= i < s.len(),
    ensures
        entries_map(s.remove(i)) == entries_map(s).remove(s[i].0@),
        keys_distinct(s.remove(i)),
    decreases s.len(),
{
    let r = s.remove(i);
    let d = s.drop_last();
    let k = s[i].0@;
    if i == s.len() - 1 {
        assert(r =~= d);
        lemma_entries_dom(d, k);
        assert(!entries_map(d).dom().contains(k)) by {
            if entries_map(d).dom().contains(k) {
                let j = choose|j: int| 0 <= j < d.len() && #[trigger] d[j].0@ == k;
                assert(s[j].0@ == k);
            }
        }
        assert(entries_map(r) =~= entries_map(s).remove(k));
    } else {
        assert(r.drop_last() =~= d.remove(i));
        assert(d[i] == s[i]);
        lemma_entries_remove(d, i);
        assert(s.last().0@ != k) by {
            assert(s[s.len() - 1] == s.last());
        }
        assert(r.last() == s.last());
        assert(r.len() > 0);
        assert(entries_map(r) =~= entries_map(s).remove(k));
    }
    assert forall|a: int, b: int| 0 <= a < r.len() && 0 <= b < r.len() && a != b implies r[a].0@ != r[b].0@ by {
        let a2 = if a < i { a } else { a + 1 };
        let b2 = if b < i { b } else { b + 1 };
        assert(r[a] == s[a2]);
        assert(r[b] == s[b2]);
    }
}

/// Text-keyed map with distinct keys.
pub struct Registry<T> {
    entries: Vec<(String, T)>,
}

impl<T: View> View for Registry<T> {
    type V = Map<Seq<char>, T::V>;

    closed spec fn view(&self) -> Map<Seq<char>, T::V> {
        entries_map(self.entries@)
    }
}

impl<T: View> Registry<T> {
    /// The registry's keys are distinct.
    pub closed spec fn wf(&self) -> bool {
        keys_distinct(self.entries@)
    }

    /// The stored values in storage order.
    pub closed spec fn values(&self) -> Seq<T> {
        self.entries@.map_values(|e: (String, T)| e.1)
    }

    pub fn new() -> (res: Self)
        ensures
            res.wf(),
            res@ == Map::<Seq<char>, T::V>::empty(),
    {
        Registry { entries: Vec::new() }
    }

    fn index_of(&self, key: &str) -> (res: Option<usize>)
        requires
            self.wf(),
        ensures
            match res {
                Some(i) => i < self.entries@.len() && self.entries@[i as int].0@ == key@,
                None => !self@.dom().contains(key@),
            },
    {
        let k = key.to_owned();
        let mut i: usize = 0;
        while i < self.entries.len()
            invariant
                0 <= i <= self.entries@.len(),
                k@ == key@,
                forall|j: int| 0 <= j < i ==> #[trigger] self.entries@[j].0@ != key@,
            decreases self.entries@.len() - i,
        {
            if self.entries[i].0 == k {
                return Some(i);
            }
            i = i + 1;
        }
        proof {
            lemma_entries_dom(self.entries@, key@);
        }
        None
    }

    pub fn contains_key(&self, key: &str) -> (res: bool)
        requires
            self.wf(),
        ensures
            res == self@.dom().contains(key@),
    {
        match self.index_of(key) {
            Some(i) => {
                proof {
                    lemma_entries_get(self.entries@, i as int);
                }
                true
            },
            None => false,
        }
    }

    pub fn get(&self, key: &str) -> (res: Option<&T>)
        requires
            self.wf(),
        ensures
            match res {
                Some(v) => self@.dom().contains(key@) && v@ == self@[key@],
                None => !self@.dom().contains(key@),
            },
    {
        match self.index_of(key) {
            Some(i) => {
                proof {
                    lemma_entries_get(self.entries@, i as int);
                }
                Some(&self.entries[i].1)
            },
            None => None,
        }
    }

    /// Adds or replaces the value of a key.
    pub fn insert(&mut self, key: String, value: T)
        requires
            old(self).wf(),
        ensures
            final(self).wf(),
            final(self)@ == old(self)@.insert(key@, value@),
    {
        match self.index_of(key.as_str()) {
            Some(i) => {
                let ghost s = self.entries@;
                proof {
                    lemma_entries_update(s, i as int, (key, value));
                }
                self.entries.set(i, (key, value));
            },
            None => {
                proof {
                    lemma_entries_dom(self.entries@, key@);
                }
                let ghost s = self.entries@;
                self.entries.push((key, value));
                assert(self.entries@.drop_last() =~= s);
                assert forall|a: int, b: int|
                    0 <= a < self.entries@.len() && 0 <= b < self.entries@.len() && a != b implies
                    self.entries@[a].0@ != self.entries@[b].0@ by {
                    if a < s.len() && b < s.len() {
                        assert(self.entries@[a] == s[a]);
                        assert(self.entries@[b] == s[b]);
                    } else if a < s.len() {
                        assert(self.entries@[a] == s[a]);
                    } else {
                        assert(self.entries@[b] == s[b]);
                    }
                }
            },
        }
    }

    /// Removes a key, handing back its value.
    pub fn remove(&mut self, key: &str) -> (res: Option<T>)
        requires
            old(self).wf(),
        ensures
            final(self).wf(),
            final(self)@ == old(self)@.remove(key@),
            match res {
                Some(v) => old(self)@.dom().contains(key@) && v@ == old(self)@[key@],
                None => !old(self)@.dom().contains(key@),
            },
    {
        match self.index_of(key) {
            Some(i) => {
                let ghost s = self.entries@;
                proof {
                    lemma_entries_get(s, i as int);
                    lemma_entries_remove(s, i as int);
                }
                let (_, v) = self.entries.remove(i);
                Some(v)
            },
            None => {
                assert(self@.remove(key@) =~= self@);
                None
            },
        }
    }

    /// Number of keys.
    pub fn len(&self) -> (res: usize)
        requires
            self.wf(),
        ensures
            res == self.values().len(),
    {
        self.entries.len()
    }

    /// The `i`-th stored value.
    pub fn value_at(&self, i: usize) -> (res: &T)
        requires
            self.wf(),
            i < self.values().len(),
        ensures
            *res == self.values()[i as int],
    {
        &self.entries[i].1
    }

    /// The stored values are exactly the map's values, one per key.
    pub proof fn lemma_values(&self)
        requires
            self.wf(),
        ensures
            forall|k: Seq<char>|
                #[trigger] self@.dom().contains(k) ==> exists|i: int|
                    0 <= i < self.values().len() && self.values()[i]@ == self@[k],
            forall|i: int, j: int|
                0 <= i < self.values().len() && 0 <= j < self.values().len() && i != j
                    ==> self.key_at(i) != self.key_at(j),
            forall|i: int| 0 <= i < self.values().len() ==> self@.dom().contains(#[trigger] self.key_at(i))
                && self@[self.key_at(i)] == self.values()[i]@,
    {
        let s = self.entries@;
        assert forall|k: Seq<char>| #[trigger] self@.dom().contains(k) implies exists|i: int|
            0 <= i < self.values().len() && self.values()[i]@ == self@[k] by {
            lemma_entries_dom(s, k);
            let i = choose|i: int| 0 <= i < s.len() && #[trigger] s[i].0@ == k;
            lemma_entries_get(s, i);
            assert(self.values()[i] == s[i].1);
        }
        assert forall|i: int| 0 <= i < self.values().len() implies self@.dom().contains(#[trigger] self.key_at(i))
            && self@[self.key_at(i)] == self.values()[i]@ by {
            lemma_entries_get(s, i);
            assert(self.values()[i] == s[i].1);
        }
    }

    /// Key of the `i`-th stored value.
    pub closed spec fn key_at(&self, i: int) -> Seq<char> {
        self.entries@[i].0@
    }
}

} // verus!
