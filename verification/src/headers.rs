//! An insertion-ordered association list from header names to header
//! values, with unique keys and last-write-wins insertion. An ordered
//! structure keeps the serialized wire output deterministic.

use vstd::prelude::*;

verus! {

/// The entries viewed as a sequence of (name, value) pairs of character
/// sequences.
pub type HeaderSeq = Seq<(Seq<char>, Seq<char>)>;

/// The index of the first entry with key `k`, or `hs.len()` if no entry
/// has that key.
pub open spec fn spec_key_pos(hs: HeaderSeq, k: Seq<char>) -> int
    decreases hs.len(),
{
    if hs.len() == 0 {
        0
    } else if hs[0].0 == k {
        0
    } else {
        1 + spec_key_pos(hs.drop_first(), k)
    }
}

/// Whether some entry has key `k`.
pub open spec fn spec_contains_key(hs: HeaderSeq, k: Seq<char>) -> bool {
    spec_key_pos(hs, k) < hs.len()
}

/// The value mapped to key `k`, if any.
pub open spec fn spec_find(hs: HeaderSeq, k: Seq<char>) -> Option<Seq<char>> {
    if spec_contains_key(hs, k) {
        Some(hs[spec_key_pos(hs, k)].1)
    } else {
        None
    }
}

/// Insertion with last-write-wins semantics: an existing key keeps its
/// position but takes the new value; a new key goes to the end.
pub open spec fn spec_insert(hs: HeaderSeq, k: Seq<char>, v: Seq<char>) -> HeaderSeq {
    if spec_contains_key(hs, k) {
        hs.update(spec_key_pos(hs, k), (k, v))
    } else {
        hs.push((k, v))
    }
}

/// No two entries share a key.
pub open spec fn keys_unique(hs: HeaderSeq) -> bool {
    forall|i: int, j: int| 0 <= i < j < hs.len() ==> hs[i].0 != hs[j].0
}

/// `spec_key_pos` is the first index whose entry has key `k`, and lies
/// between 0 and `hs.len()`.
pub proof fn lemma_key_pos(hs: HeaderSeq, k: Seq<char>)
    ensures
        0 <= spec_key_pos(hs, k) <= hs.len(),
        spec_key_pos(hs, k) < hs.len() ==> hs[spec_key_pos(hs, k)].0 == k,
        forall|i: int| 0 <= i < spec_key_pos(hs, k) ==> hs[i].0 != k,
    decreases hs.len(),
{
    if hs.len() > 0 && hs[0].0 != k {
        lemma_key_pos(hs.drop_first(), k);
        assert forall|i: int| 0 <= i < spec_key_pos(hs, k) implies hs[i].0 != k by {
            if i > 0 {
                assert(hs.drop_first()[i - 1] == hs[i]);
            }
        }
    }
}

/// When none of the first `i` entries holds key `k`, the key's position
/// is `i` plus its position in the remainder.
pub proof fn lemma_key_pos_skip(hs: HeaderSeq, k: Seq<char>, i: int)
    requires
        0 <= i <= hs.len(),
        forall|j: int| 0 <= j < i ==> hs[j].0 != k,
    ensures
        spec_key_pos(hs, k) == i + spec_key_pos(hs.skip(i), k),
    decreases i,
{
    if i == 0 {
        assert(hs.skip(0) =~= hs);
    } else {
        let tl = hs.drop_first();
        assert(tl =~= hs.skip(1));
        assert forall|j: int| 0 <= j < i - 1 implies tl[j].0 != k by {
            assert(tl[j] == hs[j + 1]);
        }
        lemma_key_pos_skip(tl, k, i - 1);
        assert(tl.skip(i - 1) =~= hs.skip(i));
    }
}

/// Inserting a key that no entry holds appends the entry.
pub proof fn lemma_insert_new(hs: HeaderSeq, k: Seq<char>, v: Seq<char>)
    requires
        forall|i: int| 0 <= i < hs.len() ==> hs[i].0 != k,
    ensures
        spec_insert(hs, k, v) == hs.push((k, v)),
{
    lemma_key_pos(hs, k);
}

/// The value found under the key of entry `i`, when no earlier entry
/// holds that key.
pub proof fn lemma_find_at(hs: HeaderSeq, i: int)
    requires
        0 <= i < hs.len(),
        forall|j: int| 0 <= j < i ==> hs[j].0 != hs[i].0,
    ensures
        spec_find(hs, hs[i].0) == Some(hs[i].1),
{
    lemma_key_pos_skip(hs, hs[i].0, i);
    assert(hs.skip(i)[0] == hs[i]);
}

/// Insertion preserves key uniqueness.
pub proof fn lemma_insert_keys_unique(hs: HeaderSeq, k: Seq<char>, v: Seq<char>)
    requires
        keys_unique(hs),
    ensures
        keys_unique(spec_insert(hs, k, v)),
{
    lemma_key_pos(hs, k);
    if !spec_contains_key(hs, k) {
        let pushed = hs.push((k, v));
        assert forall|i: int, j: int| 0 <= i < j < pushed.len() implies pushed[i].0 != pushed[j].0 by {
            if j == hs.len() as int {
                assert(hs[i].0 != k);
            }
        }
    }
}

/// An insertion-ordered map from header names to header values. Keys are
/// unique; inserting a present key overwrites its value in place, so
/// iteration order is the order of first insertion.
#[derive(Debug, Clone)]
pub struct Headers {
    entries: Vec<(String, String)>,
}

impl View for Headers {
    type V = HeaderSeq;

    closed spec fn view(&self) -> HeaderSeq {
        Seq::new(self.entries@.len(), |i: int| (self.entries@[i].0@, self.entries@[i].1@))
    }
}

impl Headers {
    /// Well-formed: no duplicate keys.
    pub open spec fn wf(&self) -> bool {
        keys_unique(self@)
    }

    /// An empty header map.
    pub fn new() -> (r: Headers)
        ensures
            r@ =~= Seq::<(Seq<char>, Seq<char>)>::empty(),
            r.wf(),
    {
        Headers { entries: Vec::new() }
    }

    /// The number of entries.
    pub fn len(&self) -> (n: usize)
        ensures
            n == self@.len(),
    {
        self.entries.len()
    }

    /// The entry at position `i`, in insertion order.
    pub fn entry_at(&self, i: usize) -> (kv: (&String, &String))
        requires
            i < self@.len(),
        ensures
            kv.0@ == self@[i as int].0,
            kv.1@ == self@[i as int].1,
    {
        let e = &self.entries[i];
        (&e.0, &e.1)
    }

    /// The value stored under `key`, if any.
    pub fn get(&self, key: &str) -> (r: Option<&String>)
        ensures
            match r {
                Some(v) => spec_find(self@, key@) == Some(v@),
                None => spec_find(self@, key@) is None,
            },
    {
        proof {
            lemma_key_pos(self@, key@);
        }
        let n = self.entries.len();
        for i in 0..n
            invariant
                n == self@.len(),
                forall|j: int| 0 <= j < i ==> self@[j].0 != key@,
        {
            let e = &self.entries[i];
            if crate::strutil::str_eq(e.0.as_str(), key) {
                proof {
                    lemma_key_pos_skip(self@, key@, i as int);
                    assert(self@.skip(i as int)[0] == self@[i as int]);
                }
                return Some(&e.1);
            }
        }
        proof {
            lemma_key_pos_skip(self@, key@, n as int);
        }
        None
    }

    /// Inserts `value` under `key`; a present key keeps its position and
    /// takes the new value (last write wins).
    pub fn insert(&mut self, key: String, value: String)
        ensures
            final(self)@ =~= spec_insert(old(self)@, key@, value@),
            old(self).wf() ==> final(self).wf(),
    {
        let ghost kv = key@;
        let ghost vv = value@;
        proof {
            lemma_key_pos(self@, key@);
            if old(self).wf() {
                lemma_insert_keys_unique(old(self)@, key@, value@);
            }
        }
        let n = self.entries.len();
        for i in 0..n
            invariant
                n == self@.len(),
                self == old(self),
                forall|j: int| 0 <= j < i ==> self@[j].0 != key@,
        {
            if crate::strutil::str_eq(self.entries[i].0.as_str(), key.as_str()) {
                proof {
                    lemma_key_pos_skip(self@, key@, i as int);
                    assert(self@.skip(i as int)[0] == self@[i as int]);
                }
                self.entries[i] = (key, value);
                return;
            }
        }
        proof {
            lemma_key_pos_skip(self@, key@, n as int);
        }
        self.entries.push((key, value));
        proof {
            assert(self@ =~= old(self)@.push((kv, vv)));
        }
    }
}

} // verus!
