//! A map with text keys that remembers the order in which its keys came.

use vstd::prelude::*;

use crate::text::{same_text, texts};

verus! {

/// A map from texts to values. No key occurs twice, and a key that was put in
/// earlier stands before one that came later.
pub struct KeyedMap<V> {
    entries: Vec<(String, V)>,
}

/// The map that a list of entries stands for; of two entries with one key the later counts.
pub open spec fn map_of<V>(s: Seq<(String, V)>) -> Map<Seq<char>, V>
    decreases s.len(),
{
    if s.len() == 0 {
        Map::empty()
    } else {
        map_of(s.drop_last()).insert(s.last().0@, s.last().1)
    }
}

/// The keys of a list of entries, in order.
pub open spec fn keys_of<V>(s: Seq<(String, V)>) -> Seq<Seq<char>> {
    s.map_values(|e: (String, V)| e.0@)
}

proof fn lemma_map_of<V>(s: Seq<(String, V)>)
    requires
        keys_of(s).no_duplicates(),
    ensures
        map_of(s).dom() == keys_of(s).to_set(),
        forall|i: int| 0 <= i < s.len() ==> map_of(s)[#[trigger] s[i].0@] == s[i].1,
    decreases s.len(),
{
    if s.len() == 0 {
        assert(map_of(s).dom() =~= keys_of(s).to_set());
    } else {
        let t = s.drop_last();
        assert(keys_of(t) =~= keys_of(s).drop_last());
        lemma_map_of(t);
        assert forall|k: Seq<char>| map_of(s).dom().contains(k) <==> keys_of(s).to_set().contains(k) by {
            if keys_of(t).contains(k) {
                let i = choose|i: int| 0 <= i < keys_of(t).len() && keys_of(t)[i] == k;
                assert(keys_of(s)[i] == k);
            }
            if k == s.last().0@ {
                assert(keys_of(s)[s.len() - 1] == k);
            }
            if keys_of(s).contains(k) && k != s.last().0@ {
                let i = choose|i: int| 0 <= i < keys_of(s).len() && keys_of(s)[i] == k;
                assert(keys_of(t)[i] == k);
            }
        }
        assert(map_of(s).dom() =~= keys_of(s).to_set());
        assert forall|i: int| 0 <= i < s.len() implies map_of(s)[#[trigger] s[i].0@] == s[i].1 by {
            if i < s.len() - 1 {
                assert(t[i] == s[i]);
                assert(keys_of(s)[i] != keys_of(s)[s.len() - 1]);
            }
        }
    }
}

proof fn lemma_same_map<V>(s: Seq<(String, V)>, m: Map<Seq<char>, V>)
    requires
        keys_of(s).no_duplicates(),
        m.dom() == keys_of(s).to_set(),
        forall|i: int| 0 <= i < s.len() ==> m[#[trigger] s[i].0@] == s[i].1,
    ensures
        map_of(s) == m,
{
    lemma_map_of(s);
    assert forall|k: Seq<char>| map_of(s).dom().contains(k) implies map_of(s)[k] == m[k] by {
        assert(keys_of(s).contains(k));
        let i = choose|i: int| 0 <= i < keys_of(s).len() && keys_of(s)[i] == k;
        assert(s[i].0@ == k);
    }
    assert(map_of(s) =~= m);
}

/// The keys but for `k`, in the same order.
pub open spec fn without(keys: Seq<Seq<char>>, k: Seq<char>) -> Seq<Seq<char>> {
    keys.filter(|x: Seq<char>| x != k)
}

proof fn lemma_without_absent(keys: Seq<Seq<char>>, k: Seq<char>)
    requires
        !keys.contains(k),
    ensures
        without(keys, k) == keys,
    decreases keys.len(),
{
    reveal(Seq::filter);
    if keys.len() > 0 {
        let rest = keys.drop_last();
        assert(!rest.contains(k)) by {
            assert forall|i: int| 0 <= i < rest.len() implies rest[i] != k by {
                assert(keys[i] != k);
            }
        }
        lemma_without_absent(rest, k);
        assert(keys.last() == keys[keys.len() - 1]);
        assert(rest.push(keys.last()) =~= keys);
    }
}

proof fn lemma_without(keys: Seq<Seq<char>>, at: int)
    requires
        keys.no_duplicates(),
        0 <= at < keys.len(),
    ensures
        without(keys, keys[at]) == keys.remove(at),
    decreases keys.len(),
{
    reveal(Seq::filter);
    let rest = keys.drop_last();
    if at == keys.len() - 1 {
        lemma_without_absent(rest, keys[at]);
        assert(rest =~= keys.remove(at));
    } else {
        assert(keys[keys.len() - 1] != keys[at]);
        lemma_without(rest, at);
        assert(rest.remove(at).push(keys.last()) =~= keys.remove(at));
    }
}

impl<V> View for KeyedMap<V> {
    type V = Map<Seq<char>, V>;

    closed spec fn view(&self) -> Map<Seq<char>, V> {
        map_of(self.entries@)
    }
}

/// The position of `key` in a list of entries.
fn position<V>(entries: &Vec<(String, V)>, key: &str) -> (r: Option<usize>)
    ensures
        match r {
            Some(i) => i < entries.len() && entries@[i as int].0@ == key@,
            None => !keys_of(entries@).contains(key@),
        },
{
    let mut i: usize = 0;
    while i < entries.len()
        invariant
            i <= entries.len(),
            forall|j: int| 0 <= j < i ==> #[trigger] keys_of(entries@)[j] != key@,
        decreases entries.len() - i,
    {
        if same_text(entries[i].0.as_str(), key) {
            return Some(i);
        }
        assert(keys_of(entries@)[i as int] == entries@[i as int].0@);
        i += 1;
    }
    None
}

impl<V> KeyedMap<V> {
    #[verifier::type_invariant]
    spec fn distinct(self) -> bool {
        keys_of(self.entries@).no_duplicates()
    }

    /// The keys, in the order in which they were put in.
    pub closed spec fn key_order(self) -> Seq<Seq<char>> {
        keys_of(self.entries@)
    }

    /// The empty map.
    pub fn new() -> (r: Self)
        ensures
            r@ == Map::<Seq<char>, V>::empty(),
            r.key_order() == Seq::<Seq<char>>::empty(),
    {
        let entries: Vec<(String, V)> = Vec::new();
        assert(keys_of(entries@) =~= Seq::<Seq<char>>::empty());
        KeyedMap { entries }
    }

    /// The number of keys.
    pub fn len(&self) -> (r: usize)
        ensures
            r == self.key_order().len(),
    {
        self.entries.len()
    }

    /// The value that stands under `key`.
    pub fn get(&self, key: &str) -> (r: Option<&V>)
        ensures
            match r {
                Some(v) => self@.dom().contains(key@) && self@[key@] == *v,
                None => !self@.dom().contains(key@),
            },
    {
        proof {
            use_type_invariant(self);
            lemma_map_of(self.entries@);
        }
        match position(&self.entries, key) {
            Some(i) => {
                assert(keys_of(self.entries@)[i as int] == key@);
                Some(&self.entries[i].1)
            },
            None => None,
        }
    }

    /// Whether there is a value under `key`.
    pub fn contains_key(&self, key: &str) -> (r: bool)
        ensures
            r == self@.dom().contains(key@),
    {
        self.get(key).is_some()
    }

    /// Puts `value` under `key`, in the place of what stood there.
    pub fn insert(&mut self, key: String, value: V)
        ensures
            final(self)@ == old(self)@.insert(key@, value),
            final(self).key_order() == if old(self)@.dom().contains(key@) {
                old(self).key_order()
            } else {
                old(self).key_order().push(key@)
            },
    {
        proof {
            use_type_invariant(&*self);
            lemma_map_of(self.entries@);
        }
        let ghost before = self.entries@;
        let mut entries: Vec<(String, V)> = Vec::new();
        std::mem::swap(&mut entries, &mut self.entries);
        match position(&entries, key.as_str()) {
            Some(i) => {
                let ghost k = key@;
                assert(keys_of(before)[i as int] == k);
                entries.set(i, (key, value));
                assert(keys_of(entries@) =~= keys_of(before));
                proof {
                    let m = map_of(before).insert(k, value);
                    assert(m.dom() =~= keys_of(entries@).to_set());
                    assert forall|j: int| 0 <= j < entries@.len() implies m[#[trigger] entries@[j].0@]
                        == entries@[j].1 by {
                        if j != i {
                            assert(keys_of(before)[j] != keys_of(before)[i as int]);
                            assert(entries@[j] == before[j]);
                        }
                    }
                    lemma_same_map(entries@, m);
                }
            },
            None => {
                let ghost k = key@;
                entries.push((key, value));
                proof {
                    assert(keys_of(entries@) =~= keys_of(before).push(k));
                    assert(entries@.drop_last() =~= before);
                    assert forall|a: int, b: int|
                        0 <= a < entries@.len() && 0 <= b < entries@.len() && a != b implies keys_of(
                        entries@,
                    )[a] != keys_of(entries@)[b] by {
                        if a == entries@.len() - 1 {
                            assert(keys_of(before)[b] == keys_of(entries@)[b]);
                        }
                        if b == entries@.len() - 1 {
                            assert(keys_of(before)[a] == keys_of(entries@)[a]);
                        }
                    }
                }
            },
        }
        self.entries = entries;
    }

    /// Takes out the value under `key`.
    pub fn remove(&mut self, key: &str) -> (r: Option<V>)
        ensures
            final(self)@ == old(self)@.remove(key@),
            final(self).key_order() == without(old(self).key_order(), key@),
            match r {
                Some(v) => old(self)@.dom().contains(key@) && old(self)@[key@] == v,
                None => !old(self)@.dom().contains(key@),
            },
    {
        proof {
            use_type_invariant(&*self);
            lemma_map_of(self.entries@);
        }
        let ghost before = self.entries@;
        let mut entries: Vec<(String, V)> = Vec::new();
        std::mem::swap(&mut entries, &mut self.entries);
        let taken = match position(&entries, key) {
            Some(i) => {
                let ghost at = i as int;
                assert(keys_of(before)[at] == key@);
                let (_, v) = entries.remove(i);
                proof {
                    let m = map_of(before).remove(key@);
                    assert(keys_of(entries@) =~= keys_of(before).remove(at));
                    lemma_without(keys_of(before), at);
                    assert forall|a: int, b: int|
                        0 <= a < entries@.len() && 0 <= b < entries@.len() && a != b implies keys_of(
                        entries@,
                    )[a] != keys_of(entries@)[b] by {
                        let x = if a < at { a } else { a + 1 };
                        let y = if b < at { b } else { b + 1 };
                        assert(keys_of(before)[x] != keys_of(before)[y]);
                    }
                    assert forall|k: Seq<char>| m.dom().contains(k) <==> keys_of(entries@).to_set().contains(k) by {
                        if m.dom().contains(k) {
                            let x = choose|x: int| 0 <= x < keys_of(before).len() && keys_of(before)[x] == k;
                            let y = if x < at { x } else { x - 1 };
                            assert(keys_of(entries@)[y] == k);
                        }
                        if keys_of(entries@).contains(k) {
                            let y = choose|y: int| 0 <= y < keys_of(entries@).len() && keys_of(entries@)[y] == k;
                            let x = if y < at { y } else { y + 1 };
                            assert(keys_of(before)[x] == k);
                            assert(keys_of(before)[x] != keys_of(before)[at]);
                        }
                    }
                    assert(m.dom() =~= keys_of(entries@).to_set());
                    assert forall|j: int| 0 <= j < entries@.len() implies m[#[trigger] entries@[j].0@]
                        == entries@[j].1 by {
                        let x = if j < at { j } else { j + 1 };
                        assert(entries@[j] == before[x]);
                        assert(keys_of(before)[x] != keys_of(before)[at]);
                    }
                    lemma_same_map(entries@, m);
                }
                Some(v)
            },
            None => {
                assert(map_of(before).remove(key@) =~= map_of(before));
                proof {
                    lemma_without_absent(keys_of(before), key@);
                }
                None
            },
        };
        self.entries = entries;
        taken
    }

    /// Whether there are no keys.
    pub fn is_empty(&self) -> (r: bool)
        ensures
            r == (self@ == Map::<Seq<char>, V>::empty()),
            r == (self.key_order().len() == 0),
    {
        proof {
            use_type_invariant(self);
            lemma_map_of(self.entries@);
            if self.entries@.len() == 0 {
                assert(self@ =~= Map::<Seq<char>, V>::empty());
            } else {
                assert(keys_of(self.entries@)[0] == self.entries@[0].0@);
                assert(self@.dom().contains(self.entries@[0].0@));
            }
        }
        self.entries.len() == 0
    }

    /// The keys, in the order in which they were put in.
    pub fn keys(&self) -> (r: Vec<String>)
        ensures
            texts(r@) == self.key_order(),
            self.key_order().no_duplicates(),
            self.key_order().to_set() == self@.dom(),
    {
        proof {
            use_type_invariant(self);
            lemma_map_of(self.entries@);
        }
        let mut out: Vec<String> = Vec::new();
        let mut i: usize = 0;
        while i < self.entries.len()
            invariant
                i <= self.entries.len(),
                out@.len() == i,
                forall|j: int| 0 <= j < i ==> (#[trigger] out@[j])@ == self.entries@[j].0@,
            decreases self.entries.len() - i,
        {
            out.push(self.entries[i].0.clone());
            i += 1;
        }
        assert(texts(out@) =~= self.key_order());
        out
    }
}

impl<V: Clone> Clone for KeyedMap<V> {
    fn clone(&self) -> (r: Self)
        ensures
            r.key_order() == self.key_order(),
            r@.dom() == self@.dom(),
            forall|k: Seq<char>| #[trigger] self@.dom().contains(k) ==> cloned(self@[k], r@[k]),
    {
        proof {
            use_type_invariant(self);
            lemma_map_of(self.entries@);
        }
        let mut entries: Vec<(String, V)> = Vec::new();
        let mut i: usize = 0;
        while i < self.entries.len()
            invariant
                i <= self.entries.len(),
                entries@.len() == i,
                forall|j: int|
                    0 <= j < i ==> (#[trigger] entries@[j]).0@ == self.entries@[j].0@ && cloned(
                        self.entries@[j].1,
                        entries@[j].1,
                    ),
            decreases self.entries.len() - i,
        {
            let e = &self.entries[i];
            entries.push((e.0.clone(), e.1.clone()));
            i += 1;
        }
        assert(keys_of(entries@) =~= keys_of(self.entries@));
        proof {
            lemma_map_of(entries@);
            assert forall|k: Seq<char>| #[trigger] self@.dom().contains(k) implies cloned(
                self@[k],
                map_of(entries@)[k],
            ) by {
                let i = choose|i: int| 0 <= i < keys_of(self.entries@).len() && keys_of(self.entries@)[i] == k;
                assert(self.entries@[i].0@ == k);
                assert(entries@[i].0@ == k);
            }
        }
        KeyedMap { entries }
    }
}

} // verus!
