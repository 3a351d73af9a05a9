use vstd::prelude::*;

verus! {

/// The result of comparing two keys.
#[derive(Clone, Copy, Debug, PartialEq, Eq, Structural)]
pub enum KeyOrder {
    Less,
    Equal,
    Greater,
}

/// `a` and `b` agree before position `i`, where `a` holds the smaller byte.
pub open spec fn first_diff_below(a: Seq<u8>, b: Seq<u8>, i: int) -> bool {
    &&& 0 <= i < a.len()
    &&& i < b.len()
    &&& a[i] < b[i]
    &&& forall|j: int| 0 <= j < i ==> a[j] == b[j]
}

/// Lexicographic order on byte strings of one length.
pub open spec fn lex_lt(a: Seq<u8>, b: Seq<u8>) -> bool {
    exists|i: int| #[trigger] first_diff_below(a, b, i)
}

/// The order of two byte strings of one length.
pub open spec fn lex_order(a: Seq<u8>, b: Seq<u8>) -> KeyOrder {
    if lex_lt(a, b) {
        KeyOrder::Less
    } else if a =~= b {
        KeyOrder::Equal
    } else {
        KeyOrder::Greater
    }
}

pub proof fn lemma_lex_irreflexive(a: Seq<u8>)
    ensures
        !lex_lt(a, a),
{
}

pub proof fn lemma_lex_asymmetric(a: Seq<u8>, b: Seq<u8>)
    requires
        lex_lt(a, b),
    ensures
        !lex_lt(b, a),
        !(a =~= b),
{
    let i = choose|i: int| first_diff_below(a, b, i);
    if lex_lt(b, a) {
        let k = choose|k: int| first_diff_below(b, a, k);
        if i < k {
            assert(b[i] == a[i]);
        } else if k < i {
            assert(a[k] == b[k]);
        }
    }
    assert(a[i] != b[i]);
}

pub proof fn lemma_lex_transitive(a: Seq<u8>, b: Seq<u8>, c: Seq<u8>)
    requires
        lex_lt(a, b),
        lex_lt(b, c),
    ensures
        lex_lt(a, c),
{
    let i = choose|i: int| first_diff_below(a, b, i);
    let k = choose|k: int| first_diff_below(b, c, k);
    if i < k {
        assert(first_diff_below(a, c, i));
    } else if k < i {
        assert(first_diff_below(a, c, k));
    } else {
        assert(first_diff_below(a, c, i));
    }
}

/// Compares two byte strings of one length in lexicographic order.
pub fn compare_bytes(a: &[u8], b: &[u8]) -> (r: KeyOrder)
    requires
        a@.len() == b@.len(),
    ensures
        r == lex_order(a@, b@),
        r == KeyOrder::Greater ==> lex_lt(b@, a@),
{
    let mut i: usize = 0;
    while i < a.len()
        invariant
            a@.len() == b@.len(),
            0 <= i <= a@.len(),
            forall|j: int| 0 <= j < i ==> a@[j] == b@[j],
        decreases a@.len() - i,
    {
        if a[i] < b[i] {
            assert(first_diff_below(a@, b@, i as int));
            return KeyOrder::Less;
        }
        if a[i] > b[i] {
            assert(first_diff_below(b@, a@, i as int));
            proof {
                lemma_lex_asymmetric(b@, a@);
            }
            return KeyOrder::Greater;
        }
        i = i + 1;
    }
    assert(a@ =~= b@);
    proof {
        lemma_lex_irreflexive(a@);
    }
    KeyOrder::Equal
}

/// A key whose order is the lexicographic order of a fixed-length byte string.
pub trait OrderedKey: Sized + Copy {
    /// The bytes by which the key is ordered.
    spec fn key_seq(&self) -> Seq<u8>;

    fn compare_key(&self, other: &Self) -> (r: KeyOrder)
        ensures
            r == lex_order(self.key_seq(), other.key_seq()),
            r == KeyOrder::Greater ==> lex_lt(other.key_seq(), self.key_seq()),
    ;

    proof fn lemma_key_injective(a: Self, b: Self)
        requires
            a.key_seq() =~= b.key_seq(),
        ensures
            a == b,
    ;

    proof fn lemma_key_len(a: Self, b: Self)
        ensures
            a.key_seq().len() == b.key_seq().len(),
    ;
}

pub open spec fn key_lt<K: OrderedKey>(a: K, b: K) -> bool {
    lex_lt(a.key_seq(), b.key_seq())
}

/// Keys in strictly increasing order.
pub open spec fn keys_sorted<K: OrderedKey>(keys: Seq<K>) -> bool {
    forall|i: int, j: int| 0 <= i < j < keys.len() ==> key_lt(#[trigger] keys[i], #[trigger] keys[j])
}

/// The position of `k` in `keys`, where it occurs.
pub open spec fn key_index<K>(keys: Seq<K>, k: K) -> int {
    choose|i: int| 0 <= i < keys.len() && keys[i] == k
}

pub proof fn lemma_sorted_unique<K: OrderedKey>(keys: Seq<K>, i: int, j: int)
    requires
        keys_sorted(keys),
        0 <= i < keys.len(),
        0 <= j < keys.len(),
        keys[i] == keys[j],
    ensures
        i == j,
{
    if i < j {
        lemma_lex_irreflexive(keys[i].key_seq());
    } else if j < i {
        lemma_lex_irreflexive(keys[i].key_seq());
    }
}

pub proof fn lemma_key_index<K: OrderedKey>(keys: Seq<K>, i: int)
    requires
        keys_sorted(keys),
        0 <= i < keys.len(),
    ensures
        key_index(keys, keys[i]) == i,
{
    let k = keys[i];
    assert(0 <= i < keys.len() && keys[i] == k);
    let j = key_index(keys, k);
    lemma_sorted_unique(keys, i, j);
}

pub proof fn lemma_key_index_of<K: OrderedKey>(keys: Seq<K>, k: K)
    requires
        keys_sorted(keys),
        keys.contains(k),
    ensures
        0 <= key_index(keys, k) < keys.len(),
        keys[key_index(keys, k)] == k,
{
    let i = choose|i: int| 0 <= i < keys.len() && keys[i] == k;
    lemma_key_index(keys, i);
}

/// A finite map kept as parallel vectors of keys in increasing order and their values.
#[derive(Debug, Clone)]
pub struct SortedMap<K, V> {
    pub keys: Vec<K>,
    pub vals: Vec<V>,
}

impl<K: OrderedKey, V> SortedMap<K, V> {
    pub open spec fn wf(&self) -> bool {
        &&& self.keys@.len() == self.vals@.len()
        &&& keys_sorted(self.keys@)
    }

    pub open spec fn has(&self, k: K) -> bool {
        self.keys@.contains(k)
    }

    /// The value stored under `k`; meaningful where `has(k)`.
    pub open spec fn at(&self, k: K) -> V {
        self.vals@[key_index(self.keys@, k)]
    }

    /// Replacing the value at a position changes only the value of that position's key.
    pub proof fn lemma_at_update(m: Self, n: Self, i: int, v: V, o: K)
        requires
            m.wf(),
            0 <= i < m.keys@.len(),
            n.keys@ == m.keys@,
            n.vals@ == m.vals@.update(i, v),
        ensures
            n.wf(),
            n.has(o) == m.has(o),
            o == m.keys@[i] ==> n.at(o) == v,
            o != m.keys@[i] && m.has(o) ==> n.at(o) == m.at(o),
    {
        lemma_key_index(m.keys@, i);
        if m.has(o) {
            lemma_key_index_of(m.keys@, o);
        }
    }

    /// Inserting a new key gives it its value and keeps every other key's value.
    pub proof fn lemma_at_insert(m: Self, n: Self, p: int, k: K, v: V, o: K)
        requires
            m.wf(),
            n.wf(),
            0 <= p <= m.keys@.len(),
            n.keys@ == m.keys@.insert(p, k),
            n.vals@ == m.vals@.insert(p, v),
        ensures
            n.has(o) == (m.has(o) || o == k),
            o == k ==> n.at(o) == v,
            o != k && m.has(o) ==> n.at(o) == m.at(o),
    {
        assert(n.keys@[p] == k);
        lemma_key_index(n.keys@, p);
        if m.has(o) {
            lemma_key_index_of(m.keys@, o);
            let j = key_index(m.keys@, o);
            if j < p {
                assert(n.keys@[j] == o);
                lemma_key_index(n.keys@, j);
            } else {
                assert(n.keys@[j + 1] == o);
                lemma_key_index(n.keys@, j + 1);
            }
        }
        if n.has(o) && o != k {
            let j = choose|j: int| 0 <= j < n.keys@.len() && n.keys@[j] == o;
            if j < p {
                assert(m.keys@[j] == o);
            } else {
                assert(m.keys@[j - 1] == o);
            }
        }
    }

    /// Removing a position drops its key and keeps every other key's value.
    pub proof fn lemma_at_remove(m: Self, n: Self, i: int, o: K)
        requires
            m.wf(),
            n.wf(),
            0 <= i < m.keys@.len(),
            n.keys@ == m.keys@.remove(i),
            n.vals@ == m.vals@.remove(i),
        ensures
            n.has(o) == (m.has(o) && o != m.keys@[i]),
            o != m.keys@[i] && m.has(o) ==> n.at(o) == m.at(o),
    {
        lemma_key_index(m.keys@, i);
        if m.has(o) && o != m.keys@[i] {
            lemma_key_index_of(m.keys@, o);
            let j = key_index(m.keys@, o);
            if j < i {
                assert(n.keys@[j] == o);
                lemma_key_index(n.keys@, j);
            } else {
                assert(n.keys@[j - 1] == o);
                lemma_key_index(n.keys@, j - 1);
            }
        }
        if n.has(o) {
            let j = choose|j: int| 0 <= j < n.keys@.len() && n.keys@[j] == o;
            if j < i {
                assert(m.keys@[j] == o);
            } else {
                assert(m.keys@[j + 1] == o);
                if o == m.keys@[i] {
                    lemma_sorted_unique(m.keys@, i, j + 1);
                }
            }
        }
    }

    pub fn new() -> (r: Self)
        ensures
            r.wf(),
            r.keys@.len() == 0,
    {
        SortedMap { keys: Vec::new(), vals: Vec::new() }
    }

    pub fn len(&self) -> (r: usize)
        requires
            self.wf(),
        ensures
            r == self.keys@.len(),
    {
        self.keys.len()
    }

    /// The position of `k`, if present.
    pub fn find(&self, k: &K) -> (r: Option<usize>)
        requires
            self.wf(),
        ensures
            match r {
                Some(i) => i < self.keys@.len() && self.keys@[i as int] == *k,
                None => !self.has(*k),
            },
    {
        let mut i: usize = 0;
        while i < self.keys.len()
            invariant
                self.wf(),
                0 <= i <= self.keys@.len(),
                forall|j: int| 0 <= j < i ==> self.keys@[j] != *k,
            decreases self.keys@.len() - i,
        {
            match self.keys[i].compare_key(k) {
                KeyOrder::Equal => {
                    proof {
                        K::lemma_key_injective(self.keys@[i as int], *k);
                    }
                    return Some(i);
                },
                _ => {},
            }
            i = i + 1;
        }
        None
    }

    /// Inserts `k` at its place in the order; `k` must be absent.
    pub fn insert_new(&mut self, k: K, v: V) -> (r: usize)
        requires
            old(self).wf(),
            !old(self).has(k),
        ensures
            final(self).wf(),
            r <= old(self).keys@.len(),
            final(self).keys@ == old(self).keys@.insert(r as int, k),
            final(self).vals@ == old(self).vals@.insert(r as int, v),
    {
        let mut i: usize = 0;
        let mut done = false;
        while i < self.keys.len() && !done
            invariant
                self.wf(),
                !self.has(k),
                0 <= i <= self.keys@.len(),
                forall|j: int| 0 <= j < i ==> key_lt(#[trigger] self.keys@[j], k),
                done ==> i < self.keys@.len() && key_lt(k, self.keys@[i as int]),
            decreases self.keys@.len() - i, (if done { 0int } else { 1int }),
        {
            match self.keys[i].compare_key(&k) {
                KeyOrder::Less => {
                    i = i + 1;
                },
                KeyOrder::Equal => {
                    proof {
                        K::lemma_key_injective(self.keys@[i as int], k);
                        assert(self.keys@.contains(k));
                    }
                    i = i + 1;
                },
                KeyOrder::Greater => {
                    done = true;
                },
            }
        }
        let ghost old_keys = self.keys@;
        self.keys.insert(i, k);
        self.vals.insert(i, v);
        proof {
            let nk = self.keys@;
            assert forall|a: int, b: int| 0 <= a < b < nk.len() implies key_lt(#[trigger] nk[a], #[trigger] nk[b]) by {
                if b < i {
                    assert(nk[a] == old_keys[a] && nk[b] == old_keys[b]);
                } else if b == i {
                    assert(nk[a] == old_keys[a]);
                } else if a == i {
                    assert(nk[b] == old_keys[b - 1]);
                    if b - 1 > i {
                        lemma_lex_transitive(k.key_seq(), old_keys[i as int].key_seq(), old_keys[b - 1].key_seq());
                    }
                } else if a < i {
                    assert(nk[a] == old_keys[a] && nk[b] == old_keys[b - 1]);
                    assert(key_lt(old_keys[a], k));
                    lemma_lex_transitive(old_keys[a].key_seq(), k.key_seq(), old_keys[i as int].key_seq());
                    if b - 1 > i {
                        lemma_lex_transitive(old_keys[a].key_seq(), old_keys[i as int].key_seq(), old_keys[b - 1].key_seq());
                    }
                } else {
                    assert(nk[a] == old_keys[a - 1] && nk[b] == old_keys[b - 1]);
                }
            }
        }
        i
    }

    /// Removes the entry at position `i`.
    pub fn remove_at(&mut self, i: usize) -> (r: (K, V))
        requires
            old(self).wf(),
            i < old(self).keys@.len(),
        ensures
            final(self).wf(),
            final(self).keys@ == old(self).keys@.remove(i as int),
            final(self).vals@ == old(self).vals@.remove(i as int),
            r.0 == old(self).keys@[i as int],
            r.1 == old(self).vals@[i as int],
    {
        let ghost old_keys = self.keys@;
        let k = self.keys.remove(i);
        let v = self.vals.remove(i);
        proof {
            let nk = self.keys@;
            assert forall|a: int, b: int| 0 <= a < b < nk.len() implies key_lt(#[trigger] nk[a], #[trigger] nk[b]) by {
                if b < i {
                    assert(nk[a] == old_keys[a] && nk[b] == old_keys[b]);
                } else if a < i {
                    assert(nk[a] == old_keys[a] && nk[b] == old_keys[b + 1]);
                } else {
                    assert(nk[a] == old_keys[a + 1] && nk[b] == old_keys[b + 1]);
                }
            }
        }
        (k, v)
    }
}

} // verus!
