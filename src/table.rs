//! A small map from text keys to values, kept as a vector of slots whose keys
//! are pairwise distinct. Lookups are linear; the abstract view is a `Map`.
use vstd::prelude::*;

verus! {

/// One key together with the value filed under it.
struct Slot<V> {
    key: String,
    value: V,
}

/// A decision on which values a sweep keeps.
pub trait KeepRule<V> {
    spec fn keeps(&self, v: &V) -> bool;

    fn test(&self, v: &V) -> (r: bool)
        ensures
            r == self.keeps(v),
    ;
}

/// A map from text keys to values.
pub struct KeyedTable<V> {
    slots: Vec<Slot<V>>,
}

spec fn has_key<V>(s: Seq<Slot<V>>, k: Seq<char>) -> bool {
    exists|i: int| 0 <= i < s.len() && #[trigger] s[i].key@ == k
}

spec fn distinct_keys<V>(s: Seq<Slot<V>>) -> bool {
    forall|i: int, j: int| 0 <= i < s.len() && 0 <= j < s.len() && i != j ==> s[i].key@ != s[j].key@
}

spec fn map_of<V>(s: Seq<Slot<V>>) -> Map<Seq<char>, V> {
    Map::new(
        |k: Seq<char>| has_key(s, k),
        |k: Seq<char>| s[choose|i: int| 0 <= i < s.len() && #[trigger] s[i].key@ == k].value,
    )
}

/// The slot at index `j` is what the map holds under its key.
proof fn lemma_slot_in_map<V>(s: Seq<Slot<V>>, j: int)
    requires
        distinct_keys(s),
        0 <= j < s.len(),
    ensures
        map_of(s).contains_key(s[j].key@),
        map_of(s)[s[j].key@] == s[j].value,
{
    let k = s[j].key@;
    assert(has_key(s, k));
    let i = choose|i: int| 0 <= i < s.len() && #[trigger] s[i].key@ == k;
    assert(i == j);
}

proof fn lemma_map_of_empty<V>(s: Seq<Slot<V>>)
    requires
        s.len() == 0,
    ensures
        map_of(s) == Map::<Seq<char>, V>::empty(),
{
    assert(map_of(s) =~= Map::<Seq<char>, V>::empty());
}

/// Appending a slot with a fresh key inserts that key into the map.
proof fn lemma_map_of_push<V>(s: Seq<Slot<V>>, x: Slot<V>)
    requires
        distinct_keys(s),
        !has_key(s, x.key@),
    ensures
        distinct_keys(s.push(x)),
        map_of(s.push(x)) == map_of(s).insert(x.key@, x.value),
{
    let t = s.push(x);
    assert(distinct_keys(t)) by {
        assert forall|i: int, j: int|
            0 <= i < t.len() && 0 <= j < t.len() && i != j implies t[i].key@ != t[j].key@ by {
            if i == s.len() as int {
                assert(s[j].key@ == t[j].key@);
            } else if j == s.len() as int {
                assert(s[i].key@ == t[i].key@);
            }
        }
    }
    let m = map_of(s).insert(x.key@, x.value);
    assert forall|k: Seq<char>| #[trigger] map_of(t).contains_key(k) == m.contains_key(k) by {
        if has_key(t, k) {
            let i = choose|i: int| 0 <= i < t.len() && #[trigger] t[i].key@ == k;
            if i < s.len() {
                assert(s[i].key@ == k);
            }
        }
        if has_key(s, k) {
            let i = choose|i: int| 0 <= i < s.len() && #[trigger] s[i].key@ == k;
            assert(t[i].key@ == k);
        }
        if k == x.key@ {
            assert(t[s.len() as int].key@ == k);
        }
    }
    assert forall|k: Seq<char>| #[trigger] map_of(t).contains_key(k) implies map_of(t)[k] == m[k] by {
        let i = choose|i: int| 0 <= i < t.len() && #[trigger] t[i].key@ == k;
        lemma_slot_in_map(t, i);
        if i < s.len() {
            assert(t[i] == s[i]);
            lemma_slot_in_map(s, i);
        }
    }
    assert(map_of(t) =~= m);
}

/// Replacing the value of slot `i`, keeping its key, updates the map there.
proof fn lemma_map_of_update<V>(s: Seq<Slot<V>>, i: int, x: Slot<V>)
    requires
        distinct_keys(s),
        0 <= i < s.len(),
        x.key@ == s[i].key@,
    ensures
        distinct_keys(s.update(i, x)),
        map_of(s.update(i, x)) == map_of(s).insert(x.key@, x.value),
{
    let t = s.update(i, x);
    assert forall|a: int, b: int|
        0 <= a < t.len() && 0 <= b < t.len() && a != b implies t[a].key@ != t[b].key@ by {
        assert(t[a].key@ == s[a].key@);
        assert(t[b].key@ == s[b].key@);
    }
    let m = map_of(s).insert(x.key@, x.value);
    assert forall|k: Seq<char>| #[trigger] map_of(t).contains_key(k) == m.contains_key(k) by {
        if has_key(t, k) {
            let j = choose|j: int| 0 <= j < t.len() && #[trigger] t[j].key@ == k;
            assert(s[j].key@ == k);
        }
        if has_key(s, k) {
            let j = choose|j: int| 0 <= j < s.len() && #[trigger] s[j].key@ == k;
            assert(t[j].key@ == k);
        }
        if k == x.key@ {
            assert(t[i].key@ == k);
        }
    }
    assert forall|k: Seq<char>| #[trigger] map_of(t).contains_key(k) implies map_of(t)[k] == m[k] by {
        let j = choose|j: int| 0 <= j < t.len() && #[trigger] t[j].key@ == k;
        lemma_slot_in_map(t, j);
        if j != i {
            lemma_slot_in_map(s, j);
        }
    }
    assert(map_of(t) =~= m);
}

/// Moving the last slot into index `i` and dropping the last drops the key of slot `i`.
proof fn lemma_map_of_swap_remove<V>(s: Seq<Slot<V>>, i: int)
    requires
        distinct_keys(s),
        0 <= i < s.len(),
    ensures
        distinct_keys(s.update(i, s.last()).drop_last()),
        map_of(s.update(i, s.last()).drop_last()) == map_of(s).remove(s[i].key@),
{
    let n = s.len() as int;
    let t = s.update(i, s.last()).drop_last();
    // Each slot of t is a slot of s at a known index other than i.
    assert forall|a: int| 0 <= a < t.len() implies #[trigger] t[a] == s[if a == i { n - 1 } else { a }]
        && (if a == i { n - 1 } else { a }) != i by {}
    assert forall|a: int, b: int|
        0 <= a < t.len() && 0 <= b < t.len() && a != b implies t[a].key@ != t[b].key@ by {
        let ia = if a == i { n - 1 } else { a };
        let ib = if b == i { n - 1 } else { b };
        assert(t[a] == s[ia]);
        assert(t[b] == s[ib]);
    }
    let m = map_of(s).remove(s[i].key@);
    assert forall|k: Seq<char>| #[trigger] map_of(t).contains_key(k) == m.contains_key(k) by {
        if has_key(t, k) {
            let a = choose|a: int| 0 <= a < t.len() && #[trigger] t[a].key@ == k;
            let ia = if a == i { n - 1 } else { a };
            assert(t[a] == s[ia]);
            assert(s[ia].key@ == k);
        }
        if has_key(s, k) && k != s[i].key@ {
            let a = choose|a: int| 0 <= a < s.len() && #[trigger] s[a].key@ == k;
            if a == n - 1 {
                assert(t[i] == s[a]);
                assert(t[i].key@ == k);
            } else {
                assert(t[a] == s[a]);
                assert(t[a].key@ == k);
            }
        }
    }
    assert forall|k: Seq<char>| #[trigger] map_of(t).contains_key(k) implies map_of(t)[k] == m[k] by {
        let a = choose|a: int| 0 <= a < t.len() && #[trigger] t[a].key@ == k;
        let ia = if a == i { n - 1 } else { a };
        assert(t[a] == s[ia]);
        lemma_slot_in_map(t, a);
        lemma_slot_in_map(s, ia);
    }
    assert(map_of(t) =~= m);
}

/// Distinct keys make the map exactly as large as the vector.
proof fn lemma_map_of_len<V>(s: Seq<Slot<V>>)
    requires
        distinct_keys(s),
    ensures
        map_of(s).dom().finite(),
        map_of(s).len() == s.len(),
    decreases s.len(),
{
    if s.len() == 0 {
        lemma_map_of_empty(s);
    } else {
        let p = s.drop_last();
        assert(distinct_keys(p)) by {
            assert forall|i: int, j: int|
                0 <= i < p.len() && 0 <= j < p.len() && i != j implies p[i].key@ != p[j].key@ by {
                assert(p[i] == s[i]);
                assert(p[j] == s[j]);
            }
        }
        assert(!has_key(p, s.last().key@)) by {
            if has_key(p, s.last().key@) {
                let i = choose|i: int| 0 <= i < p.len() && #[trigger] p[i].key@ == s.last().key@;
                assert(p[i] == s[i]);
            }
        }
        lemma_map_of_len(p);
        lemma_map_of_push(p, s.last());
        assert(p.push(s.last()) =~= s);
    }
}

impl<V> View for KeyedTable<V> {
    type V = Map<Seq<char>, V>;

    closed spec fn view(&self) -> Map<Seq<char>, V> {
        map_of(self.slots@)
    }
}

impl<V> KeyedTable<V> {
    /// The keys of the slots are pairwise distinct.
    pub closed spec fn wf(&self) -> bool {
        distinct_keys(self.slots@)
    }

    pub fn new() -> (r: Self)
        ensures
            r.wf(),
            r@ == Map::<Seq<char>, V>::empty(),
    {
        let r = KeyedTable { slots: Vec::new() };
        proof {
            lemma_map_of_empty(r.slots@);
        }
        r
    }

    /// The number of keys held.
    pub fn len(&self) -> (r: usize)
        requires
            self.wf(),
        ensures
            r == self@.len(),
            self@.dom().finite(),
    {
        proof {
            lemma_map_of_len(self.slots@);
        }
        self.slots.len()
    }

    fn find(&self, key: &String) -> (r: Option<usize>)
        requires
            self.wf(),
        ensures
            match r {
                Some(i) => i < self.slots@.len() && self.slots@[i as int].key@ == key@,
                None => !self@.contains_key(key@),
            },
    {
        let mut i: usize = 0;
        while i < self.slots.len()
            invariant
                i <= self.slots@.len(),
                forall|j: int| 0 <= j < i ==> #[trigger] self.slots@[j].key@ != key@,
            decreases self.slots@.len() - i,
        {
            if self.slots[i].key == *key {
                return Some(i);
            }
            i = i + 1;
        }
        None
    }

    /// The value filed under `key`, if there is one.
    pub fn get(&self, key: &String) -> (r: Option<&V>)
        requires
            self.wf(),
        ensures
            match r {
                Some(v) => self@.contains_key(key@) && *v == self@[key@],
                None => !self@.contains_key(key@),
            },
    {
        match self.find(key) {
            Some(i) => {
                proof {
                    lemma_slot_in_map(self.slots@, i as int);
                }
                Some(&self.slots[i].value)
            },
            None => None,
        }
    }

    /// Files `value` under `key`, replacing what was there.
    pub fn insert(&mut self, key: String, value: V)
        requires
            old(self).wf(),
        ensures
            final(self).wf(),
            final(self)@ == old(self)@.insert(key@, value),
    {
        match self.find(&key) {
            Some(i) => {
                let ghost s = self.slots@;
                let slot = Slot { key, value };
                proof {
                    lemma_map_of_update(s, i as int, slot);
                }
                self.slots.set(i, slot);
            },
            None => {
                let ghost s = self.slots@;
                let slot = Slot { key, value };
                proof {
                    assert(!has_key(s, slot.key@));
                    lemma_map_of_push(s, slot);
                }
                self.slots.push(slot);
            },
        }
    }

    /// Removes every key whose value `rule` does not keep.
    pub fn retain<R: KeepRule<V>>(&mut self, rule: &R)
        requires
            old(self).wf(),
        ensures
            final(self).wf(),
            forall|k: Seq<char>|
                #[trigger] final(self)@.contains_key(k) <==> old(self)@.contains_key(k)
                    && rule.keeps(&old(self)@[k]),
            forall|k: Seq<char>|
                #[trigger] final(self)@.contains_key(k) ==> final(self)@[k] == old(self)@[k],
    {
        let ghost m0 = self@;
        let mut i: usize = 0;
        while i < self.slots.len()
            invariant
                distinct_keys(self.slots@),
                i <= self.slots@.len(),
                forall|j: int| 0 <= j < i ==> rule.keeps(&#[trigger] self.slots@[j].value),
                forall|k: Seq<char>|
                    #[trigger] map_of(self.slots@).contains_key(k) ==> m0.contains_key(k)
                        && map_of(self.slots@)[k] == m0[k],
                forall|k: Seq<char>|
                    #[trigger] m0.contains_key(k) && !map_of(self.slots@).contains_key(k)
                        ==> !rule.keeps(&m0[k]),
            decreases self.slots@.len() - i,
        {
            if rule.test(&self.slots[i].value) {
                i = i + 1;
            } else {
                let ghost s = self.slots@;
                proof {
                    lemma_slot_in_map(s, i as int);
                    lemma_map_of_swap_remove(s, i as int);
                }
                self.slots.swap_remove(i);
                proof {
                    assert forall|j: int| 0 <= j < i implies rule.keeps(
                        &#[trigger] self.slots@[j].value,
                    ) by {
                        assert(self.slots@[j] == s[j]);
                    }
                }
            }
        }
        proof {
            assert forall|k: Seq<char>| #[trigger]
                map_of(self.slots@).contains_key(k) implies rule.keeps(&m0[k]) by {
                let j = choose|j: int| 0 <= j < self.slots@.len() && #[trigger] self.slots@[j].key@ == k;
                lemma_slot_in_map(self.slots@, j);
            }
        }
    }
}

} // verus!
