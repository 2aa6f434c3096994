//! A map from text to values, kept as a list without repeated keys.

use crate::text::{first_index, lemma_first_index, lemma_first_index_is};
use vstd::prelude::*;

verus! {

/// The entries of a [`TextMap`], in the order in which their keys first came.
pub struct TextMap<V> {
    entries: Vec<(String, V)>,
}

/// Picks the entries with key `k`.
pub open spec fn key_is<V>(k: Seq<char>) -> spec_fn((Seq<char>, V)) -> bool {
    |e: (Seq<char>, V)| e.0 == k
}

/// The map that a list of entries stands for.
pub open spec fn map_of<V>(p: Seq<(Seq<char>, V)>) -> Map<Seq<char>, V> {
    Map::new(
        |k: Seq<char>| first_index(p, key_is::<V>(k)) < p.len(),
        |k: Seq<char>| p[first_index(p, key_is::<V>(k))].1,
    )
}

/// Whether no key occurs twice.
pub open spec fn distinct_keys<V>(p: Seq<(Seq<char>, V)>) -> bool {
    forall|i: int, j: int| 0 <= i < j < p.len() ==> (#[trigger] p[i]).0 != (#[trigger] p[j]).0
}

/// An entry of a list without repeated keys is what the map holds there.
pub proof fn lemma_map_of_entry<V>(p: Seq<(Seq<char>, V)>, i: int)
    requires
        distinct_keys(p),
        0 <= i < p.len(),
    ensures
        map_of(p).contains_key(p[i].0),
        map_of(p)[p[i].0] == p[i].1,
{
    lemma_first_index_is(p, key_is::<V>(p[i].0), i);
}

/// A key of the map is the key of some entry.
pub proof fn lemma_map_of_key<V>(p: Seq<(Seq<char>, V)>, k: Seq<char>) -> (i: int)
    requires
        map_of(p).contains_key(k),
    ensures
        0 <= i < p.len(),
        p[i].0 == k,
        map_of(p)[k] == p[i].1,
{
    lemma_first_index(p, key_is::<V>(k));
    first_index(p, key_is::<V>(k))
}

impl<V> TextMap<V> {
    /// The entries, in order.
    pub closed spec fn pairs(&self) -> Seq<(Seq<char>, V)> {
        self.entries@.map_values(|e: (String, V)| (e.0@, e.1))
    }

    #[verifier::type_invariant]
    spec fn no_repeats(&self) -> bool {
        distinct_keys(self.pairs())
    }
}

impl<V> View for TextMap<V> {
    type V = Map<Seq<char>, V>;

    open spec fn view(&self) -> Map<Seq<char>, V> {
        map_of(self.pairs())
    }
}

impl<V> TextMap<V> {
    /// The empty map.
    pub fn new() -> (m: Self)
        ensures
            m@ == Map::<Seq<char>, V>::empty(),
            m.pairs().len() == 0,
    {
        let m = TextMap { entries: Vec::new() };
        proof {
            assert(m@ =~= Map::<Seq<char>, V>::empty()) by {
                assert forall|k: Seq<char>| !m@.contains_key(k) by {
                    if m@.contains_key(k) {
                        let i = lemma_map_of_key(m.pairs(), k);
                    }
                }
            }
        }
        m
    }

    /// How many keys there are.
    pub fn len(&self) -> (n: usize)
        ensures
            n == self.pairs().len(),
            distinct_keys(self.pairs()),
    {
        proof {
            use_type_invariant(self);
        }
        self.entries.len()
    }

    /// The `i`-th key.
    pub fn key_at(&self, i: usize) -> (k: &str)
        requires
            i < self.pairs().len(),
        ensures
            k@ == self.pairs()[i as int].0,
    {
        self.entries[i].0.as_str()
    }

    /// The value of the `i`-th key.
    pub fn value_at(&self, i: usize) -> (v: &V)
        requires
            i < self.pairs().len(),
        ensures
            *v == self.pairs()[i as int].1,
    {
        &self.entries[i].1
    }

    fn position(&self, k: &String) -> (i: usize)
        ensures
            i == first_index(self.pairs(), key_is::<V>(k@)),
            i <= self.pairs().len(),
            i < self.pairs().len() ==> self.pairs()[i as int].0 == k@,
            self@.contains_key(k@) <==> i < self.pairs().len(),
    {
        let ghost p = self.pairs();
        let mut i: usize = 0;
        while i < self.entries.len()
            invariant
                p == self.pairs(),
                i <= p.len() == self.entries@.len(),
                forall|j: int| 0 <= j < i ==> (#[trigger] p[j]).0 != k@,
            decreases self.entries.len() - i,
        {
            assert(p[i as int].0 == self.entries@[i as int].0@);
            if self.entries[i].0 == *k {
                proof {
                    lemma_first_index_is(p, key_is::<V>(k@), i as int);
                }
                return i;
            }
            i = i + 1;
        }
        proof {
            lemma_first_index_is(p, key_is::<V>(k@), i as int);
        }
        i
    }

    /// The value at `k`, if there is one.
    pub fn get(&self, k: &String) -> (v: Option<&V>)
        ensures
            v is Some <==> self@.contains_key(k@),
            v matches Some(x) ==> *x == self@[k@],
    {
        let i = self.position(k);
        if i < self.entries.len() {
            Some(&self.entries[i].1)
        } else {
            None
        }
    }

    /// Whether `k` is a key.
    pub fn contains(&self, k: &String) -> (b: bool)
        ensures
            b == self@.contains_key(k@),
    {
        self.position(k) < self.entries.len()
    }

    /// Removes `k` and hands back its value.
    pub fn remove(&mut self, k: &String) -> (v: Option<V>)
        ensures
            final(self)@ == old(self)@.remove(k@),
            v is Some <==> old(self)@.contains_key(k@),
            v matches Some(x) ==> x == old(self)@[k@],
    {
        proof {
            use_type_invariant(&*self);
        }
        let i = self.position(k);
        let ghost p = self.pairs();
        if i >= self.entries.len() {
            assert(self@.remove(k@) =~= self@);
            return None;
        }
        let mut entries: Vec<(String, V)> = Vec::new();
        std::mem::swap(&mut entries, &mut self.entries);
        let e = entries.remove(i);
        proof {
            let q = entries@.map_values(|e: (String, V)| (e.0@, e.1));
            assert(q =~= p.remove(i as int));
            lemma_remove_entry(p, i as int);
        }
        self.entries = entries;
        Some(e.1)
    }

    /// Sets the value at `k`.
    pub fn insert(&mut self, k: String, v: V)
        ensures
            final(self)@ == old(self)@.insert(k@, v),
    {
        let gone = self.remove(&k);
        proof {
            use_type_invariant(&*self);
        }
        let ghost p = self.pairs();
        let mut entries: Vec<(String, V)> = Vec::new();
        std::mem::swap(&mut entries, &mut self.entries);
        entries.push((k, v));
        proof {
            let q = entries@.map_values(|e: (String, V)| (e.0@, e.1));
            assert(q =~= p.push((k@, v)));
            lemma_push_entry(p, k@, v);
            assert(map_of(p) == old(self)@.remove(k@));
            assert(old(self)@.remove(k@).insert(k@, v) =~= old(self)@.insert(k@, v));
        }
        self.entries = entries;
    }
}

/// The part of `m` whose values lie after `now`.
pub open spec fn later_than(m: Map<Seq<char>, u64>, now: u64) -> Map<Seq<char>, u64> {
    Map::new(|k: Seq<char>| m.contains_key(k) && m[k] > now, |k: Seq<char>| m[k])
}

impl TextMap<u64> {
    /// Drops every key whose value does not lie after `now`.
    pub fn keep_later(&mut self, now: u64)
        ensures
            final(self)@ == later_than(old(self)@, now),
    {
        proof {
            use_type_invariant(&*self);
        }
        let ghost m = self@;
        let mut entries: Vec<(String, u64)> = Vec::new();
        std::mem::swap(&mut entries, &mut self.entries);
        let ghost view = |e: (String, u64)| (e.0@, e.1);
        let mut i: usize = 0;
        assert(entries@.map_values(view) =~= old(self).pairs());
        while i < entries.len()
            invariant
                i <= entries@.len(),
                view == (|e: (String, u64)| (e.0@, e.1)),
                distinct_keys(entries@.map_values(view)),
                forall|k: Seq<char>| #[trigger]
                    map_of(entries@.map_values(view)).contains_key(k) ==> m.contains_key(k)
                        && m[k] == map_of(entries@.map_values(view))[k],
                forall|k: Seq<char>| #[trigger]
                    m.contains_key(k) && m[k] > now ==> map_of(
                        entries@.map_values(view),
                    ).contains_key(k),
                forall|j: int| 0 <= j < i ==> (#[trigger] entries@[j]).1 > now,
            decreases entries.len() - i,
        {
            if entries[i].1 > now {
                i = i + 1;
            } else {
                let ghost p = entries@.map_values(view);
                let e = entries.remove(i);
                proof {
                    assert(entries@.map_values(view) =~= p.remove(i as int));
                    lemma_map_of_entry(p, i as int);
                    lemma_remove_entry(p, i as int);
                }
            }
        }
        proof {
            let p = entries@.map_values(view);
            assert forall|k: Seq<char>| #[trigger] map_of(p).contains_key(k) implies m[k]
                > now by {
                let j = lemma_map_of_key(p, k);
                assert(p[j].1 == entries@[j].1);
            }
            assert(map_of(p) =~= later_than(m, now));
        }
        self.entries = entries;
    }
}

/// Taking an entry out of the list takes its key out of the map.
proof fn lemma_remove_entry<V>(p: Seq<(Seq<char>, V)>, i: int)
    requires
        distinct_keys(p),
        0 <= i < p.len(),
    ensures
        distinct_keys(p.remove(i)),
        map_of(p.remove(i)) == map_of(p).remove(p[i].0),
{
    let q = p.remove(i);
    assert(forall|j: int| 0 <= j < q.len() ==> #[trigger] q[j] == p[if j < i {
        j
    } else {
        j + 1
    }]);
    assert forall|k: Seq<char>| #[trigger] map_of(q).contains_key(k) <==> map_of(p).remove(
        p[i].0,
    ).contains_key(k) by {
        if map_of(q).contains_key(k) {
            let j = lemma_map_of_key(q, k);
            let jj = if j < i {
                j
            } else {
                j + 1
            };
            lemma_map_of_entry(p, jj);
            assert(p[jj].0 != p[i].0);
        }
        if map_of(p).contains_key(k) && k != p[i].0 {
            let j = lemma_map_of_key(p, k);
            let jj = if j < i {
                j
            } else {
                j - 1
            };
            assert(q[jj] == p[j]);
            lemma_map_of_entry(q, jj);
        }
    }
    assert forall|k: Seq<char>| #[trigger] map_of(q).contains_key(k) implies map_of(q)[k]
        == map_of(p)[k] by {
        let j = lemma_map_of_key(q, k);
        let jj = if j < i {
            j
        } else {
            j + 1
        };
        lemma_map_of_entry(p, jj);
    }
    assert(map_of(q) =~= map_of(p).remove(p[i].0));
}

/// Appending an entry with a fresh key adds it to the map.
proof fn lemma_push_entry<V>(p: Seq<(Seq<char>, V)>, k: Seq<char>, v: V)
    requires
        distinct_keys(p),
        !map_of(p).contains_key(k),
    ensures
        distinct_keys(p.push((k, v))),
        map_of(p.push((k, v))) == map_of(p).insert(k, v),
{
    let q = p.push((k, v));
    assert forall|i: int| 0 <= i < p.len() implies (#[trigger] p[i]).0 != k by {
        lemma_map_of_entry(p, i);
    }
    assert(distinct_keys(q));
    lemma_map_of_entry(q, p.len() as int);
    assert forall|x: Seq<char>| #[trigger] map_of(q).contains_key(x) <==> map_of(p).insert(
        k,
        v,
    ).contains_key(x) by {
        if map_of(q).contains_key(x) && x != k {
            let i = lemma_map_of_key(q, x);
            lemma_map_of_entry(p, i);
        }
        if map_of(p).contains_key(x) {
            let i = lemma_map_of_key(p, x);
            assert(q[i] == p[i]);
            lemma_map_of_entry(q, i);
        }
    }
    assert forall|x: Seq<char>| #[trigger] map_of(q).contains_key(x) implies map_of(q)[x]
        == map_of(p).insert(k, v)[x] by {
        if x != k {
            let i = lemma_map_of_key(q, x);
            lemma_map_of_entry(p, i);
            lemma_map_of_entry(q, i);
        }
    }
    assert(map_of(q) =~= map_of(p).insert(k, v));
}

} // verus!
