//! Small keyed collections over string keys, kept as insertion-ordered
//! association lists so that their contents and their order have an exact
//! mathematical model.
use vstd::prelude::*;

verus! {

/// A map from string keys to values. Keys are kept in insertion order and
/// never repeat.
#[derive(Debug, Clone)]
pub struct StrMap<V> {
    pub entries: Vec<(String, V)>,
}

impl<V> StrMap<V> {
    /// The keys, in insertion order.
    pub open spec fn key_seq(self) -> Seq<Seq<char>> {
        Seq::new(self.entries@.len(), |i: int| self.entries@[i].0@)
    }

    /// The values, in the order of their keys.
    pub open spec fn value_seq(self) -> Seq<V> {
        Seq::new(self.entries@.len(), |i: int| self.entries@[i].1)
    }

    /// Well-formed: no key occurs twice.
    pub open spec fn wf(self) -> bool {
        self.key_seq().no_duplicates()
    }

    /// Position of key `k` (meaningful when `k` is a key).
    pub open spec fn pos(self, k: Seq<char>) -> int {
        choose|i: int| 0 <= i < self.key_seq().len() && self.key_seq()[i] == k
    }

    /// The mathematical map.
    pub open spec fn map(self) -> Map<Seq<char>, V> {
        Map::new(|k: Seq<char>| self.key_seq().contains(k), |k: Seq<char>| self.value_seq()[self.pos(k)])
    }

    pub proof fn lemma_pos(self, i: int)
        requires
            self.wf(),
            0 <= i < self.key_seq().len(),
        ensures
            self.pos(self.key_seq()[i]) == i,
            self.map().dom().contains(self.key_seq()[i]),
            self.map()[self.key_seq()[i]] == self.value_seq()[i],
    {
        let k = self.key_seq()[i];
        assert(self.key_seq().contains(k));
        let j = self.pos(k);
        assert(0 <= j < self.key_seq().len() && self.key_seq()[j] == k);
    }

    /// An empty map.
    pub fn new() -> (m: Self)
        ensures
            m.wf(),
            m.key_seq() == Seq::<Seq<char>>::empty(),
            m.entries@.len() == 0,
            m.map() == Map::<Seq<char>, V>::empty(),
    {
        let m = StrMap { entries: Vec::new() };
        assert(m.map() =~= Map::<Seq<char>, V>::empty());
        m
    }

    /// Number of keys.
    pub fn len(&self) -> (n: usize)
        ensures
            n == self.key_seq().len(),
    {
        self.entries.len()
    }

    /// Position of `k` among the keys, if present.
    pub fn find(&self, k: &str) -> (r: Option<usize>)
        requires
            self.wf(),
        ensures
            match r {
                Some(i) => i < self.key_seq().len() && self.key_seq()[i as int] == k@ && self.pos(k@) == i,
                None => !self.key_seq().contains(k@),
            },
    {
        let key = k.to_owned();
        let mut i: usize = 0;
        while i < self.entries.len()
            invariant
                i <= self.entries.len(),
                key@ == k@,
                self.wf(),
                forall|j: int| 0 <= j < i ==> self.key_seq()[j] != k@,
            decreases self.entries.len() - i,
        {
            if self.entries[i].0 == key {
                proof { self.lemma_pos(i as int); }
                return Some(i);
            }
            i += 1;
        }
        None
    }

    /// Whether `k` is a key.
    pub fn contains_key(&self, k: &str) -> (b: bool)
        requires
            self.wf(),
        ensures
            b == self.map().dom().contains(k@),
    {
        self.find(k).is_some()
    }

    /// The value stored under `k`, if any.
    pub fn get(&self, k: &str) -> (r: Option<&V>)
        requires
            self.wf(),
        ensures
            r == (if self.map().dom().contains(k@) { Some(&self.map()[k@]) } else { None::<&V> }),
    {
        match self.find(k) {
            Some(i) => {
                proof { self.lemma_pos(i as int); }
                Some(&self.entries[i].1)
            },
            None => None,
        }
    }

    /// Stores `v` under `k`, replacing any earlier value. A new key goes last.
    pub fn insert(&mut self, k: String, v: V)
        requires
            old(self).wf(),
        ensures
            final(self).wf(),
            final(self).map() == old(self).map().insert(k@, v),
            old(self).key_seq().contains(k@) ==> final(self).key_seq() == old(self).key_seq(),
            !old(self).key_seq().contains(k@) ==> final(self).key_seq() == old(self).key_seq().push(k@),
            old(self).key_seq().contains(k@) ==> final(self).value_seq() == old(self).value_seq().update(old(self).pos(k@), v),
            !old(self).key_seq().contains(k@) ==> final(self).value_seq() == old(self).value_seq().push(v),
    {
        let ghost old_self = *self;
        match self.find(k.as_str()) {
            Some(i) => {
                let ghost ks = k@;
                self.entries.set(i, (k, v));
                assert(self.key_seq() =~= old_self.key_seq());
                assert(self.value_seq() =~= old_self.value_seq().update(i as int, v));
                assert(self.map() =~= old_self.map().insert(ks, v)) by {
                    assert forall|key: Seq<char>| self.map().dom().contains(key)
                        implies self.map()[key] == old_self.map().insert(ks, v)[key] by {
                        let j = self.pos(key);
                        self.lemma_pos(j);
                        if j != i { old_self.lemma_pos(j); }
                    }
                }
            },
            None => {
                let ghost ks = k@;
                self.entries.push((k, v));
                assert(self.key_seq() =~= old_self.key_seq().push(ks));
                assert(self.value_seq() =~= old_self.value_seq().push(v));
                assert(self.wf()) by {
                    assert forall|a: int, b: int| 0 <= a < b < self.key_seq().len()
                        implies self.key_seq()[a] != self.key_seq()[b] by {
                        if b == self.key_seq().len() - 1 {
                            assert(old_self.key_seq().contains(self.key_seq()[a]));
                        }
                    }
                }
                assert(self.map() =~= old_self.map().insert(ks, v)) by {
                    assert forall|key: Seq<char>| self.map().dom().contains(key)
                        implies self.map()[key] == old_self.map().insert(ks, v)[key] by {
                        let j = self.pos(key);
                        self.lemma_pos(j);
                        if key != ks { old_self.lemma_pos(j); }
                    }
                    assert forall|key: Seq<char>| old_self.map().insert(ks, v).dom().contains(key)
                        implies self.map().dom().contains(key) by {
                        if key != ks {
                            let j = old_self.pos(key);
                            assert(self.key_seq()[j] == key);
                        } else {
                            assert(self.key_seq()[self.key_seq().len() - 1] == key);
                        }
                    }
                }
            },
        }
    }

    /// Removes `k` and returns its value, if it was a key. Other keys keep their order.
    pub fn remove(&mut self, k: &str) -> (r: Option<V>)
        requires
            old(self).wf(),
        ensures
            final(self).wf(),
            final(self).map() == old(self).map().remove(k@),
            r == (if old(self).map().dom().contains(k@) { Some(old(self).map()[k@]) } else { None::<V> }),
            old(self).key_seq().contains(k@) ==> final(self).key_seq() == old(self).key_seq().remove(old(self).pos(k@)),
            old(self).key_seq().contains(k@) ==> final(self).value_seq() == old(self).value_seq().remove(old(self).pos(k@)),
            !old(self).key_seq().contains(k@) ==> *final(self) == *old(self),
    {
        let ghost old_self = *self;
        match self.find(k) {
            Some(i) => {
                proof { old_self.lemma_pos(i as int); }
                let (_, v) = self.entries.remove(i);
                assert(self.key_seq() =~= old_self.key_seq().remove(i as int));
                assert(self.value_seq() =~= old_self.value_seq().remove(i as int));
                assert(self.wf()) by {
                    assert forall|a: int, b: int| 0 <= a < b < self.key_seq().len()
                        implies self.key_seq()[a] != self.key_seq()[b] by {
                        let oa = if a < i { a } else { a + 1 };
                        let ob = if b < i { b } else { b + 1 };
                        assert(self.key_seq()[a] == old_self.key_seq()[oa]);
                        assert(self.key_seq()[b] == old_self.key_seq()[ob]);
                    }
                }
                assert(self.map() =~= old_self.map().remove(k@)) by {
                    assert forall|key: Seq<char>| self.map().dom().contains(key)
                        implies old_self.map().remove(k@).dom().contains(key)
                            && self.map()[key] == old_self.map().remove(k@)[key] by {
                        let j = self.pos(key);
                        self.lemma_pos(j);
                        let oj = if j < i { j } else { j + 1 };
                        assert(self.key_seq()[j] == old_self.key_seq()[oj]);
                        old_self.lemma_pos(oj);
                    }
                    assert forall|key: Seq<char>| old_self.map().remove(k@).dom().contains(key)
                        implies self.map().dom().contains(key) by {
                        let oj = old_self.pos(key);
                        old_self.lemma_pos(oj);
                        let j = if oj < i { oj } else { oj - 1 };
                        assert(self.key_seq()[j] == key);
                    }
                }
                Some(v)
            },
            None => {
                assert(old_self.map().remove(k@) =~= old_self.map());
                None
            },
        }
    }
}


impl StrMap<String> {
    /// The map with each value taken by its text.
    pub open spec fn text_map(self) -> Map<Seq<char>, Seq<char>> {
        Map::new(|k: Seq<char>| self.map().dom().contains(k), |k: Seq<char>| self.map()[k]@)
    }

    /// Stores a copy of `v` under a copy of `k`.
    pub fn set_text(&mut self, k: &str, v: &str)
        requires
            old(self).wf(),
        ensures
            final(self).wf(),
            final(self).text_map() == old(self).text_map().insert(k@, v@),
            old(self).key_seq().contains(k@) ==> final(self).key_seq() == old(self).key_seq(),
            !old(self).key_seq().contains(k@) ==> final(self).key_seq() == old(self).key_seq().push(k@),
    {
        let ghost o = *self;
        let vv = v.to_owned();
        self.insert(k.to_owned(), vv);
        assert(self.text_map() =~= o.text_map().insert(k@, v@));
    }

    /// Removes `k`.
    pub fn remove_text(&mut self, k: &str)
        requires
            old(self).wf(),
        ensures
            final(self).wf(),
            final(self).text_map() == old(self).text_map().remove(k@),
    {
        let ghost o = *self;
        self.remove(k);
        assert(self.text_map() =~= o.text_map().remove(k@));
    }

    /// The text stored under `k`, if any.
    pub fn get_text(&self, k: &str) -> (r: Option<&String>)
        requires
            self.wf(),
        ensures
            match r {
                Some(s) => self.text_map().dom().contains(k@) && s@ == self.text_map()[k@],
                None => !self.text_map().dom().contains(k@),
            },
    {
        self.get(k)
    }
}


/// The map built from `pairs` in order; a later pair replaces an earlier one with the same key.
pub open spec fn pairs_map<V>(pairs: Seq<(String, V)>) -> Map<Seq<char>, V>
    decreases pairs.len(),
{
    if pairs.len() == 0 {
        Map::empty()
    } else {
        pairs_map(pairs.drop_last()).insert(pairs.last().0@, pairs.last().1)
    }
}

impl<V> StrMap<V> {
    /// The map holding `pairs`; a later pair replaces an earlier one with the same key.
    pub fn from_pairs(pairs: Vec<(String, V)>) -> (m: Self)
        ensures
            m.wf(),
            m.map() == pairs_map(pairs@),
    {
        let mut m = StrMap::new();
        let mut rest = pairs;
        let ghost all = rest@;
        let n = rest.len();
        let mut i: usize = 0;
        while rest.len() > 0
            invariant
                all.len() == n,
                i + rest.len() == n,
                rest@ == all.skip(i as int),
                m.wf(),
                m.map() == pairs_map(all.take(i as int)),
            decreases rest.len(),
        {
            let (k, v) = rest.remove(0);
            proof {
                assert(all.take(i + 1).drop_last() =~= all.take(i as int));
                assert(all[i as int] == (k, v));
                assert(all.skip(i + 1) =~= all.skip(i as int).drop_first());
            }
            m.insert(k, v);
            i += 1;
        }
        assert(all.take(n as int) =~= all);
        m
    }
}

/// A set of strings, kept in insertion order without repeats.
#[derive(Debug, Clone)]
pub struct StrSet {
    pub items: Vec<String>,
}

impl StrSet {
    /// The members, in insertion order.
    pub open spec fn item_seq(self) -> Seq<Seq<char>> {
        Seq::new(self.items@.len(), |i: int| self.items@[i]@)
    }

    /// Well-formed: no member occurs twice.
    pub open spec fn wf(self) -> bool {
        self.item_seq().no_duplicates()
    }

    /// The mathematical set.
    pub open spec fn set(self) -> Set<Seq<char>> {
        self.item_seq().to_set()
    }

    /// An empty set.
    pub fn new() -> (s: Self)
        ensures
            s.wf(),
            s.item_seq() == Seq::<Seq<char>>::empty(),
            s.set() == Set::<Seq<char>>::empty(),
    {
        let s = StrSet { items: Vec::new() };
        assert(s.set() =~= Set::<Seq<char>>::empty());
        s
    }

    /// A copy of the set, members in the same order.
    pub fn copy(&self) -> (r: Self)
        ensures
            r.item_seq() == self.item_seq(),
    {
        let mut items: Vec<String> = Vec::new();
        let mut i: usize = 0;
        while i < self.items.len()
            invariant
                i <= self.items.len(),
                items@.len() == i,
                forall|j: int| 0 <= j < i ==> items@[j]@ == self.items@[j]@,
            decreases self.items.len() - i,
        {
            items.push(self.items[i].clone());
            i += 1;
        }
        let r = StrSet { items };
        assert(r.item_seq() =~= self.item_seq());
        r
    }

    /// Number of members.
    pub fn len(&self) -> (n: usize)
        ensures
            n == self.item_seq().len(),
    {
        self.items.len()
    }

    /// Whether the set is empty.
    pub fn is_empty(&self) -> (b: bool)
        ensures
            b == (self.item_seq().len() == 0),
            b == (self.set() == Set::<Seq<char>>::empty()),
    {
        if self.items.len() == 0 {
            assert(self.set() =~= Set::<Seq<char>>::empty());
            true
        } else {
            assert(self.set().contains(self.item_seq()[0]));
            false
        }
    }

    /// Position of `k`, if it is a member.
    pub fn find(&self, k: &str) -> (r: Option<usize>)
        ensures
            match r {
                Some(i) => i < self.item_seq().len() && self.item_seq()[i as int] == k@,
                None => !self.set().contains(k@),
            },
    {
        let key = k.to_owned();
        let mut i: usize = 0;
        while i < self.items.len()
            invariant
                i <= self.items.len(),
                key@ == k@,
                forall|j: int| 0 <= j < i ==> self.item_seq()[j] != k@,
            decreases self.items.len() - i,
        {
            if self.items[i] == key {
                return Some(i);
            }
            i += 1;
        }
        None
    }

    /// Membership test.
    pub fn contains(&self, k: &str) -> (b: bool)
        ensures
            b == self.set().contains(k@),
    {
        match self.find(k) {
            Some(i) => {
                assert(self.item_seq().contains(k@)) by { assert(self.item_seq()[i as int] == k@); }
                true
            },
            None => false,
        }
    }

    /// Adds `k`; returns whether it was new. A new member goes last.
    pub fn insert(&mut self, k: String) -> (added: bool)
        requires
            old(self).wf(),
        ensures
            final(self).wf(),
            final(self).set() == old(self).set().insert(k@),
            added == !old(self).set().contains(k@),
            added ==> final(self).item_seq() == old(self).item_seq().push(k@),
            !added ==> final(self).item_seq() == old(self).item_seq(),
    {
        let ghost old_self = *self;
        if self.contains(k.as_str()) {
            assert(old_self.set().insert(k@) =~= old_self.set());
            false
        } else {
            let ghost ks = k@;
            self.items.push(k);
            assert(self.item_seq() =~= old_self.item_seq().push(ks));
            assert(self.wf()) by {
                assert forall|a: int, b: int| 0 <= a < b < self.item_seq().len()
                    implies self.item_seq()[a] != self.item_seq()[b] by {
                    if b == self.item_seq().len() - 1 {
                        assert(old_self.item_seq().contains(self.item_seq()[a]));
                    }
                }
            }
            assert(self.set() =~= old_self.set().insert(ks)) by {
                assert forall|x: Seq<char>| self.set().contains(x) implies old_self.set().insert(ks).contains(x) by {
                    let j = choose|j: int| 0 <= j < self.item_seq().len() && self.item_seq()[j] == x;
                    if j < old_self.item_seq().len() { assert(old_self.item_seq()[j] == x); }
                }
                assert forall|x: Seq<char>| old_self.set().insert(ks).contains(x) implies self.set().contains(x) by {
                    if x == ks {
                        assert(self.item_seq()[self.item_seq().len() - 1] == x);
                    } else {
                        let j = choose|j: int| 0 <= j < old_self.item_seq().len() && old_self.item_seq()[j] == x;
                        assert(self.item_seq()[j] == x);
                    }
                }
            }
            true
        }
    }

    /// Removes `k`; returns whether it was a member. Other members keep their order.
    pub fn remove(&mut self, k: &str) -> (removed: bool)
        requires
            old(self).wf(),
        ensures
            final(self).wf(),
            final(self).set() == old(self).set().remove(k@),
            removed == old(self).set().contains(k@),
            !removed ==> final(self).item_seq() == old(self).item_seq(),
    {
        let ghost old_self = *self;
        match self.find(k) {
            Some(i) => {
                self.items.remove(i);
                assert(self.item_seq() =~= old_self.item_seq().remove(i as int));
                assert(self.wf()) by {
                    assert forall|a: int, b: int| 0 <= a < b < self.item_seq().len()
                        implies self.item_seq()[a] != self.item_seq()[b] by {
                        let oa = if a < i { a } else { a + 1 };
                        let ob = if b < i { b } else { b + 1 };
                        assert(self.item_seq()[a] == old_self.item_seq()[oa]);
                        assert(self.item_seq()[b] == old_self.item_seq()[ob]);
                    }
                }
                assert(old_self.set().contains(k@)) by { assert(old_self.item_seq()[i as int] == k@); }
                assert(self.set() =~= old_self.set().remove(k@)) by {
                    assert forall|x: Seq<char>| self.set().contains(x) implies old_self.set().remove(k@).contains(x) by {
                        let j = choose|j: int| 0 <= j < self.item_seq().len() && self.item_seq()[j] == x;
                        let oj = if j < i { j } else { j + 1 };
                        assert(old_self.item_seq()[oj] == x);
                    }
                    assert forall|x: Seq<char>| old_self.set().remove(k@).contains(x) implies self.set().contains(x) by {
                        let oj = choose|j: int| 0 <= j < old_self.item_seq().len() && old_self.item_seq()[j] == x;
                        let j = if oj < i { oj } else { oj - 1 };
                        assert(self.item_seq()[j] == x);
                    }
                }
                true
            },
            None => {
                assert(old_self.set().remove(k@) =~= old_self.set());
                false
            },
        }
    }

    /// The set holding the given strings (repeats dropped, first occurrence kept).
    pub fn from_vec(v: Vec<String>) -> (s: Self)
        ensures
            s.wf(),
            s.set() == Seq::new(v@.len(), |i: int| v@[i]@).to_set(),
    {
        let ghost vs = Seq::new(v@.len(), |i: int| v@[i]@);
        let mut s = StrSet::new();
        let n = v.len();
        let mut i: usize = 0;
        while i < n
            invariant
                n == v.len(),
                vs == Seq::new(v@.len(), |j: int| v@[j]@),
                i <= n,
                s.wf(),
                s.set() == vs.take(i as int).to_set(),
            decreases n - i,
        {
            let x = v[i].clone();
            s.insert(x);
            assert(vs.take(i + 1).to_set() =~= vs.take(i as int).to_set().insert(vs[i as int])) by {
                assert(vs.take(i + 1) =~= vs.take(i as int).push(vs[i as int]));
                vs.take(i as int).lemma_push_to_set_commute(vs[i as int]);
            }
            i += 1;
        }
        assert(vs.take(n as int) =~= vs);
        s
    }
}

} // verus!
