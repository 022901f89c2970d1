//! A small map keyed by strings, kept as a list of entries sorted by key.

use vstd::prelude::*;
use vstd::utf8::*;

verus! {

/// Whether `a` stands before `b` in the lexicographic order of bytes.
pub open spec fn bytes_before(a: Seq<u8>, b: Seq<u8>) -> bool
    decreases a.len(),
{
    if b.len() == 0 {
        false
    } else if a.len() == 0 {
        true
    } else if a[0] != b[0] {
        a[0] < b[0]
    } else {
        bytes_before(a.drop_first(), b.drop_first())
    }
}

/// Whether the key `a` stands before the key `b`: the order of the keys is
/// that of their bytes in UTF-8.
pub open spec fn key_before(a: Seq<char>, b: Seq<char>) -> bool {
    bytes_before(encode_utf8(a), encode_utf8(b))
}

/// Whether each key of the list stands before those that follow it.
pub open spec fn sorted(keys: Seq<Seq<char>>) -> bool {
    forall|i: int, j: int| 0 <= i < j < keys.len() ==> key_before(keys[i], keys[j])
}

/// Nothing stands before itself.
pub proof fn lemma_bytes_irreflexive(a: Seq<u8>)
    ensures
        !bytes_before(a, a),
    decreases a.len(),
{
    if a.len() > 0 {
        lemma_bytes_irreflexive(a.drop_first());
    }
}

/// What stands before something that stands before a third stands before the third.
pub proof fn lemma_bytes_transitive(a: Seq<u8>, b: Seq<u8>, c: Seq<u8>)
    requires
        bytes_before(a, b),
        bytes_before(b, c),
    ensures
        bytes_before(a, c),
    decreases a.len(),
{
    if a.len() > 0 && a[0] == b[0] && b[0] == c[0] {
        lemma_bytes_transitive(a.drop_first(), b.drop_first(), c.drop_first());
    }
}

/// Of two different sequences one stands before the other.
pub proof fn lemma_bytes_total(a: Seq<u8>, b: Seq<u8>)
    ensures
        a == b || bytes_before(a, b) || bytes_before(b, a),
    decreases a.len(),
{
    if a.len() > 0 && b.len() > 0 && a[0] == b[0] {
        lemma_bytes_total(a.drop_first(), b.drop_first());
        if a.drop_first() == b.drop_first() {
            assert(a =~= seq![a[0]] + a.drop_first());
            assert(b =~= seq![b[0]] + b.drop_first());
        }
    } else if a.len() == 0 && b.len() == 0 {
        assert(a =~= b);
    }
}

/// The order of the keys is a strict total order.
pub proof fn lemma_key_order(a: Seq<char>, b: Seq<char>, c: Seq<char>)
    ensures
        !key_before(a, a),
        key_before(a, b) && key_before(b, c) ==> key_before(a, c),
        a == b || key_before(a, b) || key_before(b, a),
{
    lemma_bytes_irreflexive(encode_utf8(a));
    if key_before(a, b) && key_before(b, c) {
        lemma_bytes_transitive(encode_utf8(a), encode_utf8(b), encode_utf8(c));
    }
    lemma_bytes_total(encode_utf8(a), encode_utf8(b));
    if encode_utf8(a) == encode_utf8(b) {
        encode_utf8_decode_utf8(a);
        encode_utf8_decode_utf8(b);
    }
}

/// Two sorted lists that hold the same keys are the same list.
pub proof fn lemma_sorted_same_keys(a: Seq<Seq<char>>, b: Seq<Seq<char>>)
    requires
        sorted(a),
        sorted(b),
        forall|k: Seq<char>| a.contains(k) <==> b.contains(k),
    ensures
        a == b,
    decreases a.len(),
{
    if a.len() == 0 {
        if b.len() > 0 {
            assert(b.contains(b[0]));
        }
        assert(a =~= b);
    } else {
        let m = a.last();
        assert(a.contains(m));
        assert(b.contains(m));
        let j: int = choose|j: int| 0 <= j < b.len() && b[j] == m;
        if j < b.len() - 1 {
            let x = b[j + 1];
            assert(b.contains(x));
            assert(a.contains(x));
            let i: int = choose|i: int| 0 <= i < a.len() && a[i] == x;
            lemma_key_order(m, x, m);
            if i < a.len() - 1 {
                assert(key_before(a[i], a[a.len() - 1]));
            }
        }
        let front_a = a.drop_last();
        let front_b = b.drop_last();
        assert forall|k: Seq<char>| front_a.contains(k) <==> front_b.contains(k) by {
            lemma_key_order(k, m, k);
            if front_a.contains(k) {
                let i: int = choose|i: int| 0 <= i < front_a.len() && front_a[i] == k;
                assert(key_before(a[i], a[a.len() - 1]));
                assert(a.contains(k));
                let h: int = choose|h: int| 0 <= h < b.len() && b[h] == k;
                assert(front_b[h] == k);
            }
            if front_b.contains(k) {
                let h: int = choose|h: int| 0 <= h < front_b.len() && front_b[h] == k;
                assert(key_before(b[h], b[b.len() - 1]));
                assert(b.contains(k));
                let i: int = choose|i: int| 0 <= i < a.len() && a[i] == k;
                assert(front_a[i] == k);
            }
        }
        assert(sorted(front_a)) by {
            assert forall|i: int, j: int| 0 <= i < j < front_a.len() implies key_before(
                front_a[i],
                front_a[j],
            ) by {
                assert(key_before(a[i], a[j]));
            }
        }
        assert(sorted(front_b)) by {
            assert forall|i: int, j: int| 0 <= i < j < front_b.len() implies key_before(
                front_b[i],
                front_b[j],
            ) by {
                assert(key_before(b[i], b[j]));
            }
        }
        lemma_sorted_same_keys(front_a, front_b);
        assert(a =~= front_a.push(m));
        assert(b =~= front_b.push(m));
    }
}

/// Whether the key `a` stands before the key `b`.
pub fn precedes(a: &String, b: &String) -> (r: bool)
    ensures
        r == key_before(a@, b@),
{
    let x = a.as_str().as_bytes();
    let y = b.as_str().as_bytes();
    let n = x.len();
    let m = y.len();
    let mut i: usize = 0;
    assert(x@.skip(0) =~= x@);
    assert(y@.skip(0) =~= y@);
    while i < n && i < m
        invariant
            n == x@.len(),
            m == y@.len(),
            i <= n,
            i <= m,
            x@ == encode_utf8(a@),
            y@ == encode_utf8(b@),
            bytes_before(x@, y@) == bytes_before(x@.skip(i as int), y@.skip(i as int)),
        decreases n - i,
    {
        assert(x@.skip(i as int)[0] == x@[i as int]);
        assert(y@.skip(i as int)[0] == y@[i as int]);
        if x[i] != y[i] {
            return x[i] < y[i];
        }
        assert(x@.skip(i as int).drop_first() =~= x@.skip(i + 1));
        assert(y@.skip(i as int).drop_first() =~= y@.skip(i + 1));
        i = i + 1;
    }
    i < m
}

/// Map from strings to values. The entries are held in the order of their
/// keys, so that two maps with the same content hold the same list.
#[derive(Debug)]
pub struct StringMap<V> {
    entries: Vec<(String, V)>,
}

impl<V> StringMap<V> {
    /// The entries as a sequence of pairs of key text and value.
    pub closed spec fn entries(self) -> Seq<(Seq<char>, V)> {
        Seq::new(self.entries@.len(), |i: int| (self.entries@[i].0@, self.entries@[i].1))
    }

    /// The keys of the entries, in the order in which they are held.
    pub open spec fn keys(self) -> Seq<Seq<char>> {
        Seq::new(self.entries().len(), |i: int| self.entries()[i].0)
    }

    /// The entries are sorted by key; so no key occurs twice.
    pub open spec fn wf(self) -> bool {
        forall|i: int, j: int|
            0 <= i < j < self.entries().len() ==> key_before(
                self.entries()[i].0,
                self.entries()[j].0,
            )
    }

    /// Whether some entry has the key `key`.
    pub open spec fn has(self, key: Seq<char>) -> bool {
        exists|i: int| 0 <= i < self.entries().len() && #[trigger] self.entries()[i].0 == key
    }

    /// The position of the entry with key `key`, where there is one.
    pub open spec fn index_of(self, key: Seq<char>) -> int {
        choose|i: int| 0 <= i < self.entries().len() && #[trigger] self.entries()[i].0 == key
    }

    /// The map that the entries stand for.
    pub open spec fn view(self) -> Map<Seq<char>, V> {
        Map::new(|k: Seq<char>| self.has(k), |k: Seq<char>| self.entries()[self.index_of(k)].1)
    }

    /// In a well-formed map the entry at position `i` is the one found under its key.
    pub proof fn lemma_entry(self, i: int)
        requires
            self.wf(),
            0 <= i < self.entries().len(),
        ensures
            self.has(self.entries()[i].0),
            self.index_of(self.entries()[i].0) == i,
            self@.contains_key(self.entries()[i].0),
            self@[self.entries()[i].0] == self.entries()[i].1,
    {
        let k = self.entries()[i].0;
        assert(self.has(k));
        let j = self.index_of(k);
        lemma_key_order(k, k, k);
        if j != i {
            if j < i {
                assert(key_before(self.entries()[j].0, self.entries()[i].0));
            } else {
                assert(key_before(self.entries()[i].0, self.entries()[j].0));
            }
        }
    }

    /// Two well-formed maps with the same content hold the same entries in
    /// the same order, in whatever order the entries were put in.
    pub proof fn lemma_canonical(self, other: StringMap<V>)
        requires
            self.wf(),
            other.wf(),
            self@ == other@,
        ensures
            self.entries() == other.entries(),
    {
        assert(sorted(self.keys()));
        assert(sorted(other.keys()));
        assert forall|k: Seq<char>| self.keys().contains(k) <==> other.keys().contains(k) by {
            if self.keys().contains(k) {
                let i: int = choose|i: int| 0 <= i < self.keys().len() && self.keys()[i] == k;
                self.lemma_entry(i);
                assert(other@.contains_key(k));
                assert(other.has(k));
                assert(other.keys()[other.index_of(k)] == k);
            }
            if other.keys().contains(k) {
                let i: int = choose|i: int| 0 <= i < other.keys().len() && other.keys()[i] == k;
                other.lemma_entry(i);
                assert(self@.contains_key(k));
                assert(self.has(k));
                assert(self.keys()[self.index_of(k)] == k);
            }
        }
        lemma_sorted_same_keys(self.keys(), other.keys());
        assert(self.entries().len() == self.keys().len());
        assert(other.entries().len() == other.keys().len());
        assert forall|i: int| 0 <= i < self.entries().len() implies self.entries()[i]
            == other.entries()[i] by {
            self.lemma_entry(i);
            other.lemma_entry(i);
            assert(self.keys()[i] == other.keys()[i]);
        }
        assert(self.entries() =~= other.entries());
    }

    /// An empty map.
    pub fn new() -> (m: Self)
        ensures
            m.wf(),
            m@ == Map::<Seq<char>, V>::empty(),
            m.entries().len() == 0,
    {
        let m = StringMap { entries: Vec::new() };
        assert(m@ =~= Map::<Seq<char>, V>::empty());
        m
    }

    /// Number of entries.
    pub fn len(&self) -> (n: usize)
        ensures
            n == self.entries().len(),
    {
        self.entries.len()
    }

    /// Whether the map holds no entry.
    pub fn is_empty(&self) -> (b: bool)
        ensures
            b == (self.entries().len() == 0),
            self.wf() ==> b == (self@ == Map::<Seq<char>, V>::empty()),
    {
        let b = self.entries.len() == 0;
        proof {
            if self.wf() {
                if b {
                    assert(self@ =~= Map::<Seq<char>, V>::empty());
                } else {
                    self.lemma_entry(0);
                }
            }
        }
        b
    }

    /// The key of the entry at position `i`.
    pub fn key_at(&self, i: usize) -> (k: &String)
        requires
            i < self.entries().len(),
        ensures
            k@ == self.entries()[i as int].0,
    {
        &self.entries[i].0
    }

    /// The value of the entry at position `i`.
    pub fn value_at(&self, i: usize) -> (v: &V)
        requires
            i < self.entries().len(),
        ensures
            *v == self.entries()[i as int].1,
    {
        &self.entries[i].1
    }

    /// The position of the entry with key `key`, or `None` where the map has none.
    pub fn position(&self, key: &String) -> (r: Option<usize>)
        ensures
            match r {
                Some(i) => i < self.entries().len() && self.entries()[i as int].0 == key@
                    && forall|j: int| 0 <= j < i ==> self.entries()[j].0 != key@,
                None => !self.has(key@),
            },
    {
        let n = self.entries.len();
        let mut i: usize = 0;
        while i < n
            invariant
                n == self.entries().len(),
                i <= n,
                forall|j: int| 0 <= j < i ==> self.entries()[j].0 != key@,
            decreases n - i,
        {
            if self.entries[i].0 == *key {
                return Some(i);
            }
            i = i + 1;
        }
        None
    }

    /// Whether the map has an entry under `key`.
    pub fn contains_key(&self, key: &String) -> (b: bool)
        ensures
            b == self@.contains_key(key@),
    {
        self.position(key).is_some()
    }

    /// The value under `key`, or `None` where the map has none.
    pub fn get(&self, key: &String) -> (r: Option<&V>)
        requires
            self.wf(),
        ensures
            match r {
                Some(v) => self@.contains_key(key@) && *v == self@[key@],
                None => !self@.contains_key(key@),
            },
    {
        match self.position(key) {
            Some(i) => {
                proof {
                    self.lemma_entry(i as int);
                }
                Some(&self.entries[i].1)
            },
            None => None,
        }
    }

    /// The position at which `key` stands or would stand: that of the first
    /// entry whose key does not stand before `key`.
    fn slot(&self, key: &String) -> (i: usize)
        ensures
            i <= self.entries().len(),
            forall|j: int| 0 <= j < i ==> key_before(self.entries()[j].0, key@),
            i < self.entries().len() ==> !key_before(self.entries()[i as int].0, key@),
    {
        let n = self.entries.len();
        let mut i: usize = 0;
        while i < n
            invariant
                n == self.entries().len(),
                i <= n,
                forall|j: int| 0 <= j < i ==> key_before(self.entries()[j].0, key@),
            decreases n - i,
        {
            if !precedes(&self.entries[i].0, key) {
                return i;
            }
            i = i + 1;
        }
        i
    }

    /// Puts `value` under `key`, in place of what stood there before.
    pub fn insert(&mut self, key: String, value: V)
        requires
            old(self).wf(),
        ensures
            final(self).wf(),
            final(self)@ == old(self)@.insert(key@, value),
            final(self).entries().len() == if old(self)@.contains_key(key@) {
                old(self).entries().len()
            } else {
                old(self).entries().len() + 1
            },
    {
        let ghost before = *self;
        let ghost k = key@;
        let i = self.slot(&key);
        let n = self.entries.len();
        let found = i < n && self.entries[i].0 == key;
        if found {
            self.entries.set(i, (key, value));
            proof {
                let after = *self;
                assert(after.entries() =~= before.entries().update(i as int, (k, value)));
                assert(before.has(k));
                assert forall|a: int, b: int| 0 <= a < b < after.entries().len() implies key_before(
                    after.entries()[a].0,
                    after.entries()[b].0,
                ) by {
                    assert(key_before(before.entries()[a].0, before.entries()[b].0));
                }
                assert forall|q: Seq<char>| after.has(q) <==> before.has(q) || q == k by {
                    if after.has(q) {
                        let j = after.index_of(q);
                        assert(before.entries()[j].0 == q);
                    }
                    if before.has(q) {
                        let j = before.index_of(q);
                        assert(after.entries()[j].0 == q);
                    }
                }
                assert forall|q: Seq<char>| after.has(q) implies #[trigger] after@[q]
                    == before@.insert(k, value)[q] by {
                    let j = after.index_of(q);
                    after.lemma_entry(j);
                    if q != k {
                        before.lemma_entry(j);
                    }
                }
                assert(after@ =~= before@.insert(k, value));
            }
        } else {
            self.entries.insert(i, (key, value));
            proof {
                let after = *self;
                let at = i as int;
                assert(after.entries() =~= before.entries().insert(at, (k, value)));
                assert(after.entries()[at].0 == k);
                assert forall|j: int| at <= j < before.entries().len() implies key_before(
                    k,
                    #[trigger] before.entries()[j].0,
                ) by {
                    lemma_key_order(k, before.entries()[at].0, before.entries()[j].0);
                    lemma_key_order(before.entries()[at].0, k, k);
                    if at < j {
                        assert(key_before(before.entries()[at].0, before.entries()[j].0));
                    }
                }
                assert(!before.has(k)) by {
                    if before.has(k) {
                        let j = before.index_of(k);
                        lemma_key_order(k, k, k);
                        if j >= at {
                            assert(key_before(k, before.entries()[j].0));
                        }
                    }
                }
                assert forall|a: int, b: int| 0 <= a < b < after.entries().len() implies key_before(
                    after.entries()[a].0,
                    after.entries()[b].0,
                ) by {
                    let aa = if a < at { a } else { a - 1 };
                    let bb = if b < at { b } else { b - 1 };
                    if a == at {
                        assert(key_before(k, before.entries()[bb].0));
                    } else if b == at {
                        assert(key_before(before.entries()[aa].0, k));
                    } else {
                        assert(key_before(before.entries()[aa].0, before.entries()[bb].0));
                    }
                }
                assert forall|q: Seq<char>| after.has(q) <==> before.has(q) || q == k by {
                    if after.has(q) {
                        let j = after.index_of(q);
                        if j != at {
                            let jj = if j < at { j } else { j - 1 };
                            assert(before.entries()[jj].0 == q);
                        }
                    }
                    if before.has(q) {
                        let j = before.index_of(q);
                        let jj = if j < at { j } else { j + 1 };
                        assert(after.entries()[jj].0 == q);
                    }
                }
                assert forall|q: Seq<char>| after.has(q) implies #[trigger] after@[q]
                    == before@.insert(k, value)[q] by {
                    let j = after.index_of(q);
                    after.lemma_entry(j);
                    if q != k {
                        let jj = if j < at { j } else { j - 1 };
                        before.lemma_entry(jj);
                    }
                }
                assert(after@ =~= before@.insert(k, value));
            }
        }
    }

    /// Takes out the entry under `key`, if there is one.
    pub fn remove(&mut self, key: &String)
        requires
            old(self).wf(),
        ensures
            final(self).wf(),
            final(self)@ == old(self)@.remove(key@),
            final(self).entries().len() == if old(self)@.contains_key(key@) {
                old(self).entries().len() - 1
            } else {
                old(self).entries().len() as int
            },
    {
        let ghost before = *self;
        let ghost k = key@;
        match self.position(key) {
            Some(i) => {
                let _ = self.entries.remove(i);
                proof {
                    let after = *self;
                    assert(after.entries() =~= before.entries().remove(i as int));
                    assert(before.has(k));
                    assert forall|a: int, b: int| 0 <= a < b < after.entries().len() implies key_before(
                        after.entries()[a].0,
                        after.entries()[b].0,
                    ) by {
                        let aa = if a < i { a } else { a + 1 };
                        let bb = if b < i { b } else { b + 1 };
                        assert(key_before(before.entries()[aa].0, before.entries()[bb].0));
                    }
                    assert forall|q: Seq<char>| after.has(q) <==> before.has(q) && q != k by {
                        if after.has(q) {
                            let j = after.index_of(q);
                            let jj = if j < i { j } else { j + 1 };
                            assert(before.entries()[jj].0 == q);
                            before.lemma_entry(i as int);
                            before.lemma_entry(jj);
                        }
                        if before.has(q) && q != k {
                            let j = before.index_of(q);
                            let jj = if j < i { j } else { j - 1 };
                            assert(after.entries()[jj].0 == q);
                        }
                    }
                    assert forall|q: Seq<char>| after.has(q) implies #[trigger] after@[q]
                        == before@.remove(k)[q] by {
                        let j = after.index_of(q);
                        let jj = if j < i { j } else { j + 1 };
                        after.lemma_entry(j);
                        before.lemma_entry(jj);
                    }
                    assert(after@ =~= before@.remove(k));
                }
            },
            None => {
                assert(self@ =~= before@.remove(k));
            },
        }
    }
}

} // verus!
