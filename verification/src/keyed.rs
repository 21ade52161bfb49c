//! A map from strings to values that keeps its entries ordered by key, as a sorted list.
use vstd::prelude::*;

use crate::text::chars_of;

verus! {

/// `a` comes before `b` in the lexicographic order of their characters (by code point, which
/// is also the order of their UTF-8 bytes).
pub open spec fn seq_lt(a: Seq<char>, b: Seq<char>) -> bool
    decreases a.len(),
{
    if a.len() == 0 {
        b.len() > 0
    } else if b.len() == 0 {
        false
    } else if a[0] != b[0] {
        (a[0] as u32) < (b[0] as u32)
    } else {
        seq_lt(a.drop_first(), b.drop_first())
    }
}

/// No character sequence comes before itself.
pub proof fn lemma_lt_irreflexive(a: Seq<char>)
    ensures
        !seq_lt(a, a),
    decreases a.len(),
{
    if a.len() > 0 {
        lemma_lt_irreflexive(a.drop_first());
    }
}

/// The order on character sequences is transitive.
pub proof fn lemma_lt_transitive(a: Seq<char>, b: Seq<char>, c: Seq<char>)
    requires
        seq_lt(a, b),
        seq_lt(b, c),
    ensures
        seq_lt(a, c),
    decreases a.len(),
{
    if a.len() > 0 && b.len() > 0 && c.len() > 0 {
        if a[0] == b[0] && b[0] == c[0] {
            lemma_lt_transitive(a.drop_first(), b.drop_first(), c.drop_first());
        }
    }
}

/// Of two different character sequences, one comes before the other.
pub proof fn lemma_lt_total(a: Seq<char>, b: Seq<char>)
    requires
        a != b,
    ensures
        seq_lt(a, b) || seq_lt(b, a),
    decreases a.len(),
{
    if a.len() > 0 && b.len() > 0 && a[0] == b[0] {
        if a.drop_first() == b.drop_first() {
            assert(a =~= seq![a[0]] + a.drop_first());
            assert(b =~= seq![b[0]] + b.drop_first());
        }
        lemma_lt_total(a.drop_first(), b.drop_first());
    } else if a.len() > 0 && b.len() > 0 {
        let x = a[0] as u32;
        let y = b[0] as u32;
        vstd::utf8::char_u32_cast(a[0], x);
        vstd::utf8::char_u32_cast(b[0], y);
    } else if a.len() == 0 && b.len() == 0 {
        assert(a =~= b);
    }
}

/// The order on character sequences is asymmetric: `a < b` rules out `b < a`.
pub proof fn lemma_lt_asymmetric(a: Seq<char>, b: Seq<char>)
    requires
        seq_lt(a, b),
    ensures
        !seq_lt(b, a),
{
    if seq_lt(b, a) {
        lemma_lt_transitive(a, b, a);
        lemma_lt_irreflexive(a);
    }
}

/// Compares two character sequences: `-1`, `0` or `1` as `a` comes before, equals, or comes
/// after `b`.
pub fn compare_chars(a: &Vec<char>, b: &Vec<char>) -> (r: i8)
    ensures
        r == -1 <==> seq_lt(a@, b@),
        r == 0 <==> a@ == b@,
        r == 1 <==> seq_lt(b@, a@),
        r == -1 || r == 0 || r == 1,
{
    let mut i: usize = 0;
    while i < a.len() && i < b.len()
        invariant
            i <= a@.len(),
            i <= b@.len(),
            a@.take(i as int) == b@.take(i as int),
        decreases a.len() - i,
    {
        if a[i] != b[i] {
            proof {
                lemma_lt_prefix(a@, b@, i as int);
                lemma_lt_prefix(b@, a@, i as int);
                vstd::utf8::char_u32_cast(a@[i as int], a@[i as int] as u32);
                vstd::utf8::char_u32_cast(b@[i as int], b@[i as int] as u32);
            }
            if (a[i] as u32) < (b[i] as u32) {
                return -1;
            } else {
                return 1;
            }
        }
        assert(a@.take(i + 1) =~= a@.take(i as int).push(a@[i as int]));
        assert(b@.take(i + 1) =~= b@.take(i as int).push(b@[i as int]));
        i = i + 1;
    }
    proof {
        lemma_lt_prefix(a@, b@, i as int);
        lemma_lt_prefix(b@, a@, i as int);
    }
    if a.len() == b.len() {
        proof {
            assert(a@ =~= a@.take(i as int));
            assert(b@ =~= b@.take(i as int));
            lemma_lt_irreflexive(a@);
        }
        0
    } else if a.len() < b.len() {
        proof {
            assert(a@ != b@);
        }
        -1
    } else {
        proof {
            assert(a@ != b@);
        }
        1
    }
}

/// With a common prefix of length `i`, the order is decided after it.
proof fn lemma_lt_prefix(a: Seq<char>, b: Seq<char>, i: int)
    requires
        0 <= i <= a.len(),
        i <= b.len(),
        a.take(i) == b.take(i),
    ensures
        seq_lt(a, b) == seq_lt(a.skip(i), b.skip(i)),
    decreases i,
{
    if i > 0 {
        assert(a[0] == a.take(i)[0]);
        assert(b[0] == b.take(i)[0]);
        assert(a.drop_first().take(i - 1) =~= a.take(i).drop_first());
        assert(b.drop_first().take(i - 1) =~= b.take(i).drop_first());
        lemma_lt_prefix(a.drop_first(), b.drop_first(), i - 1);
        assert(a.drop_first().skip(i - 1) =~= a.skip(i));
        assert(b.drop_first().skip(i - 1) =~= b.skip(i));
    } else {
        assert(a.skip(0) =~= a);
        assert(b.skip(0) =~= b);
    }
}

/// Keys strictly increasing.
pub open spec fn sorted_keys(keys: Seq<Seq<char>>) -> bool {
    forall|i: int, j: int| 0 <= i < j < keys.len() ==> seq_lt(#[trigger] keys[i], #[trigger] keys[j])
}

/// Entries ordered by key, each key at most once.
pub struct KeyedList<V> {
    keys: Vec<String>,
    values: Vec<V>,
}

impl<V> KeyedList<V> {
    /// The keys, in order.
    pub closed spec fn key_seq(&self) -> Seq<Seq<char>> {
        self.keys@.map_values(|k: String| k@)
    }

    /// The values, in key order.
    pub closed spec fn value_seq(&self) -> Seq<V> {
        self.values@
    }

    /// Keys and values line up and the keys increase strictly.
    pub closed spec fn wf(&self) -> bool {
        &&& self.keys@.len() == self.values@.len()
        &&& sorted_keys(self.key_seq())
    }

    /// The map the list stands for.
    pub open spec fn as_map(&self) -> Map<Seq<char>, V> {
        Map::new(
            |k: Seq<char>| self.key_seq().contains(k),
            |k: Seq<char>| self.value_seq()[self.key_seq().index_of(k)],
        )
    }

    /// A well-formed list holds as many values as keys, and its keys are sorted.
    pub proof fn lemma_wf_lengths(&self)
        requires
            self.wf(),
        ensures
            self.key_seq().len() == self.value_seq().len(),
            sorted_keys(self.key_seq()),
    {
    }

    pub fn new() -> (m: Self)
        ensures
            m.wf(),
            m.key_seq() == Seq::<Seq<char>>::empty(),
            m.value_seq() == Seq::<V>::empty(),
    {
        let m = KeyedList { keys: Vec::new(), values: Vec::new() };
        assert(m.key_seq() =~= Seq::<Seq<char>>::empty());
        m
    }

    pub fn len(&self) -> (n: usize)
        requires
            self.wf(),
        ensures
            n == self.key_seq().len(),
    {
        self.keys.len()
    }

    /// Position of `key`, or where it would go to keep the order.
    fn find(&self, key: &Vec<char>) -> (r: (usize, bool))
        requires
            self.wf(),
        ensures
            r.0 <= self.key_seq().len(),
            forall|j: int| 0 <= j < r.0 ==> seq_lt(#[trigger] self.key_seq()[j], key@),
            r.1 ==> r.0 < self.key_seq().len() && self.key_seq()[r.0 as int] == key@,
            !r.1 ==> r.0 < self.key_seq().len() ==> seq_lt(key@, self.key_seq()[r.0 as int]),
    {
        let mut i: usize = 0;
        while i < self.keys.len()
            invariant
                self.wf(),
                i <= self.key_seq().len(),
                forall|j: int| 0 <= j < i ==> seq_lt(#[trigger] self.key_seq()[j], key@),
            decreases self.keys.len() - i,
        {
            let k = chars_of(self.keys[i].as_str());
            assert(k@ == self.key_seq()[i as int]);
            let c = compare_chars(&k, key);
            if c == 0 {
                return (i, true);
            }
            if c == 1 {
                return (i, false);
            }
            i = i + 1;
        }
        (i, false)
    }

    /// The value stored under `key`.
    pub fn get(&self, key: &str) -> (r: Option<&V>)
        requires
            self.wf(),
        ensures
            match r {
                Some(v) => self.as_map().dom().contains(key@) && *v == self.as_map()[key@],
                None => !self.as_map().dom().contains(key@),
            },
    {
        let kv = chars_of(key);
        let (i, found) = self.find(&kv);
        if found {
            proof {
                self.lemma_index_of(i as int);
            }
            Some(&self.values[i])
        } else {
            proof {
                if self.key_seq().contains(key@) {
                    let j = choose|j: int| 0 <= j < self.key_seq().len() && self.key_seq()[j] == key@;
                    if j < i {
                        lemma_lt_irreflexive(key@);
                    } else if j > i {
                        lemma_lt_transitive(key@, self.key_seq()[i as int], self.key_seq()[j]);
                        lemma_lt_irreflexive(key@);
                    } else {
                        lemma_lt_irreflexive(key@);
                    }
                }
            }
            None
        }
    }

    /// Each key of the list maps to the value beside it, and each key of the map stands in the
    /// list at its first position.
    pub proof fn lemma_entries(&self)
        requires
            self.wf(),
        ensures
            self.key_seq().len() == self.value_seq().len(),
            forall|j: int| 0 <= j < self.key_seq().len() ==> {
                &&& self.as_map().dom().contains(#[trigger] self.key_seq()[j])
                &&& self.as_map()[self.key_seq()[j]] == self.value_seq()[j]
                &&& self.key_seq().index_of(self.key_seq()[j]) == j
            },
            forall|k: Seq<char>| #[trigger] self.as_map().dom().contains(k) ==> {
                &&& 0 <= self.key_seq().index_of(k) < self.key_seq().len()
                &&& self.key_seq()[self.key_seq().index_of(k)] == k
            },
    {
        assert forall|j: int| 0 <= j < self.key_seq().len() implies {
            &&& self.as_map().dom().contains(#[trigger] self.key_seq()[j])
            &&& self.as_map()[self.key_seq()[j]] == self.value_seq()[j]
            &&& self.key_seq().index_of(self.key_seq()[j]) == j
        } by {
            self.lemma_index_of(j);
        }
        assert forall|k: Seq<char>| #[trigger] self.as_map().dom().contains(k) implies {
            &&& 0 <= self.key_seq().index_of(k) < self.key_seq().len()
            &&& self.key_seq()[self.key_seq().index_of(k)] == k
        } by {
        }
    }

    /// In a sorted key list, the key at `i` is found at `i`.
    proof fn lemma_index_of(&self, i: int)
        requires
            self.wf(),
            0 <= i < self.key_seq().len(),
        ensures
            self.key_seq().contains(self.key_seq()[i]),
            self.key_seq().index_of(self.key_seq()[i]) == i,
    {
        let ks = self.key_seq();
        assert(ks.contains(ks[i]));
        let j = ks.index_of(ks[i]);
        if j != i {
            if j < i {
                assert(seq_lt(ks[j], ks[i]));
            } else {
                assert(seq_lt(ks[i], ks[j]));
            }
            lemma_lt_irreflexive(ks[i]);
        }
    }

    /// Stores `value` under `key`, replacing what was there.
    pub fn insert(&mut self, key: String, value: V)
        requires
            old(self).wf(),
        ensures
            final(self).wf(),
            final(self).as_map() == old(self).as_map().insert(key@, value),
    {
        let kv = chars_of(key.as_str());
        let (i, found) = self.find(&kv);
        let ghost ks0 = self.key_seq();
        let ghost vs0 = self.value_seq();
        if found {
            self.values.set(i, value);
            proof {
                assert(self.key_seq() == ks0);
                assert forall|k: Seq<char>| #[trigger] self.as_map().dom().contains(k) <==> old(self).as_map().insert(key@, value).dom().contains(k) by {
                    if k == key@ {
                        assert(ks0[i as int] == k);
                    }
                }
                assert forall|k: Seq<char>| self.as_map().dom().contains(k) implies #[trigger] self.as_map()[k] == old(self).as_map().insert(key@, value)[k] by {
                    let j = ks0.index_of(k);
                    let jj = choose|jj: int| 0 <= jj < ks0.len() && ks0[jj] == k;
                    self.lemma_index_of(jj);
                    if k == key@ {
                        self.lemma_index_of(i as int);
                    }
                }
                assert(self.as_map() =~= old(self).as_map().insert(key@, value));
            }
        } else {
            self.keys.insert(i, key);
            self.values.insert(i, value);
            proof {
                let ks = self.key_seq();
                assert(ks =~= ks0.insert(i as int, kv@));
                assert forall|a: int, b: int| 0 <= a < b < ks.len() implies seq_lt(#[trigger] ks[a], #[trigger] ks[b]) by {
                    if b == i {
                        assert(ks[a] == ks0[a]);
                    } else if a == i {
                        assert(ks[b] == ks0[b - 1]);
                        if b - 1 > i {
                            lemma_lt_transitive(kv@, ks0[i as int], ks0[b - 1]);
                        }
                    } else {
                        let a0 = if a < i { a } else { a - 1 };
                        let b0 = if b < i { b } else { b - 1 };
                        assert(ks[a] == ks0[a0]);
                        assert(ks[b] == ks0[b0]);
                    }
                }
                assert forall|k: Seq<char>| #[trigger] self.as_map().dom().contains(k) <==> old(self).as_map().insert(key@, value).dom().contains(k) by {
                    if ks.contains(k) {
                        let j = choose|j: int| 0 <= j < ks.len() && ks[j] == k;
                        if j != i {
                            let j0 = if j < i { j } else { j - 1 };
                            assert(ks0[j0] == k);
                        }
                    }
                    if ks0.contains(k) {
                        let j0 = choose|j0: int| 0 <= j0 < ks0.len() && ks0[j0] == k;
                        let j = if j0 < i { j0 } else { j0 + 1 };
                        assert(ks[j] == k);
                    }
                    if k == key@ {
                        assert(ks[i as int] == k);
                    }
                }
                assert forall|k: Seq<char>| self.as_map().dom().contains(k) implies #[trigger] self.as_map()[k] == old(self).as_map().insert(key@, value)[k] by {
                    let j = choose|j: int| 0 <= j < ks.len() && ks[j] == k;
                    self.lemma_index_of(j);
                    if j != i {
                        let j0 = if j < i { j } else { j - 1 };
                        assert(ks0[j0] == k);
                        old(self).lemma_index_of(j0);
                        assert(self.value_seq()[j] == vs0[j0]);
                        assert(k != key@) by {
                            if k == key@ {
                                if j0 < i {
                                    assert(seq_lt(ks0[j0], kv@));
                                } else if j0 > i {
                                    assert(seq_lt(ks0[i as int], ks0[j0]));
                                    lemma_lt_transitive(kv@, ks0[i as int], ks0[j0]);
                                }
                                lemma_lt_irreflexive(k);
                            }
                        }
                    }
                }
                assert(self.as_map() =~= old(self).as_map().insert(key@, value));
            }
        }
    }

    /// Removes the entry for `key`, if any.
    pub fn remove(&mut self, key: &str)
        requires
            old(self).wf(),
        ensures
            final(self).wf(),
            final(self).as_map() == old(self).as_map().remove(key@),
    {
        let kv = chars_of(key);
        let (i, found) = self.find(&kv);
        let ghost ks0 = self.key_seq();
        let ghost vs0 = self.value_seq();
        if found {
            self.keys.remove(i);
            self.values.remove(i);
            proof {
                let ks = self.key_seq();
                assert(ks =~= ks0.remove(i as int));
                assert forall|a: int, b: int| 0 <= a < b < ks.len() implies seq_lt(#[trigger] ks[a], #[trigger] ks[b]) by {
                    let a0 = if a < i { a } else { a + 1 };
                    let b0 = if b < i { b } else { b + 1 };
                    assert(ks[a] == ks0[a0]);
                    assert(ks[b] == ks0[b0]);
                }
                assert forall|k: Seq<char>| #[trigger] self.as_map().dom().contains(k) <==> old(self).as_map().remove(key@).dom().contains(k) by {
                    if ks.contains(k) {
                        let j = choose|j: int| 0 <= j < ks.len() && ks[j] == k;
                        let j0 = if j < i { j } else { j + 1 };
                        assert(ks0[j0] == k);
                        if k == key@ {
                            if j0 < i {
                                lemma_lt_irreflexive(k);
                            } else {
                                lemma_lt_irreflexive(k);
                            }
                        }
                    }
                    if ks0.contains(k) && k != key@ {
                        let j0 = choose|j0: int| 0 <= j0 < ks0.len() && ks0[j0] == k;
                        assert(j0 != i);
                        let j = if j0 < i { j0 } else { j0 - 1 };
                        assert(ks[j] == k);
                    }
                }
                assert forall|k: Seq<char>| self.as_map().dom().contains(k) implies #[trigger] self.as_map()[k] == old(self).as_map().remove(key@)[k] by {
                    let j = choose|j: int| 0 <= j < ks.len() && ks[j] == k;
                    self.lemma_index_of(j);
                    let j0 = if j < i { j } else { j + 1 };
                    assert(ks0[j0] == k);
                    old(self).lemma_index_of(j0);
                }
                assert(self.as_map() =~= old(self).as_map().remove(key@));
            }
        } else {
            proof {
                assert(!ks0.contains(kv@)) by {
                    if ks0.contains(kv@) {
                        let j = choose|j: int| 0 <= j < ks0.len() && ks0[j] == kv@;
                        if j < i {
                            lemma_lt_irreflexive(kv@);
                        } else if j > i {
                            lemma_lt_transitive(kv@, ks0[i as int], ks0[j]);
                            lemma_lt_irreflexive(kv@);
                        } else {
                            lemma_lt_irreflexive(kv@);
                        }
                    }
                }
                assert(self.as_map() =~= old(self).as_map().remove(key@));
            }
        }
    }

    /// The values in key order.
    pub fn values(&self) -> (v: &Vec<V>)
        requires
            self.wf(),
        ensures
            v@ == self.value_seq(),
    {
        &self.values
    }

    /// The keys in order.
    pub fn keys(&self) -> (v: &Vec<String>)
        requires
            self.wf(),
        ensures
            v@.map_values(|k: String| k@) == self.key_seq(),
    {
        &self.keys
    }

    /// Removes every entry.
    pub fn clear(&mut self)
        ensures
            final(self).wf(),
            final(self).key_seq() == Seq::<Seq<char>>::empty(),
            final(self).value_seq() == Seq::<V>::empty(),
    {
        self.keys = Vec::new();
        self.values = Vec::new();
        assert(self.key_seq() =~= Seq::<Seq<char>>::empty());
    }
}

} // verus!
