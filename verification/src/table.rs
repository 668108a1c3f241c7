//! Maps keyed by words, kept as lists of pairs in which the first pair with
//! a given key is the one that counts.

use vstd::prelude::*;

use crate::word::Word;

verus! {

/// `i` is the first position of `s` whose key is `k`.
pub open spec fn is_first<T>(s: Seq<(Word, T)>, k: Word, i: int) -> bool {
    &&& 0 <= i < s.len()
    &&& s[i].0 == k
    &&& forall|j: int| 0 <= j < i ==> s[j].0 != k
}

/// What the list holds under `k`: the value of the first pair with that key.
pub open spec fn lookup<T>(s: Seq<(Word, T)>, k: Word) -> Option<T> {
    if exists|i: int| is_first(s, k, i) {
        Some(s[choose|i: int| is_first(s, k, i)].1)
    } else {
        None
    }
}

/// The map that the list stands for.
pub open spec fn as_map<T>(s: Seq<(Word, T)>) -> Map<Word, T> {
    Map::new(|k: Word| lookup(s, k) is Some, |k: Word| lookup(s, k).unwrap())
}

/// The first pair with a key is what the list holds under it.
pub proof fn lemma_lookup_first<T>(s: Seq<(Word, T)>, k: Word, i: int)
    requires
        is_first(s, k, i),
    ensures
        lookup(s, k) == Some(s[i].1),
{
    let c = choose|c: int| is_first(s, k, c);
    assert(is_first(s, k, c));
    if c < i {
        assert(s[c].0 != k);
    }
    if i < c {
        assert(s[i].0 != k);
    }
}

/// A key that no pair has is absent.
pub proof fn lemma_lookup_absent<T>(s: Seq<(Word, T)>, k: Word)
    requires
        forall|j: int| 0 <= j < s.len() ==> s[j].0 != k,
    ensures
        lookup(s, k) is None,
{
    if exists|i: int| is_first(s, k, i) {
        let c = choose|c: int| is_first(s, k, c);
        assert(s[c].0 != k);
    }
}

/// A key that the list holds has a first position.
pub proof fn lemma_lookup_some<T>(s: Seq<(Word, T)>, k: Word) -> (i: int)
    requires
        lookup(s, k) is Some,
    ensures
        is_first(s, k, i),
        lookup(s, k) == Some(s[i].1),
{
    choose|c: int| is_first(s, k, c)
}

/// Replacing the value at the first position of `k` is an insertion.
pub proof fn lemma_update_first<T>(s: Seq<(Word, T)>, k: Word, i: int, v: T)
    requires
        is_first(s, k, i),
    ensures
        as_map(s.update(i, (k, v))) == as_map(s).insert(k, v),
{
    let t = s.update(i, (k, v));
    assert forall|q: Word| #[trigger] lookup(t, q) == (if q == k {
        Some(v)
    } else {
        lookup(s, q)
    }) by {
        if q == k {
            assert(is_first(t, k, i));
            lemma_lookup_first(t, k, i);
        } else if lookup(s, q) is Some {
            let c = lemma_lookup_some(s, q);
            assert(is_first(t, q, c));
            lemma_lookup_first(t, q, c);
        } else {
            if lookup(t, q) is Some {
                let c = lemma_lookup_some(t, q);
                assert(t[c].0 == q);
                assert forall|j: int| 0 <= j < c implies s[j].0 != q by {
                    assert(t[j].0 != q);
                }
                assert(is_first(s, q, c));
                lemma_lookup_first(s, q, c);
            }
        }
    }
    assert(as_map(t) =~= as_map(s).insert(k, v));
}

/// Appending a pair whose key the list does not hold is an insertion.
pub proof fn lemma_push_absent<T>(s: Seq<(Word, T)>, k: Word, v: T)
    requires
        lookup(s, k) is None,
    ensures
        as_map(s.push((k, v))) == as_map(s).insert(k, v),
{
    let t = s.push((k, v));
    assert forall|j: int| 0 <= j < s.len() implies s[j].0 != k by {
        if s[j].0 == k {
            lemma_has_first(s, k, j);
        }
    }
    assert forall|q: Word| #[trigger] lookup(t, q) == (if q == k {
        Some(v)
    } else {
        lookup(s, q)
    }) by {
        if q == k {
            assert(is_first(t, k, s.len() as int));
            lemma_lookup_first(t, k, s.len() as int);
        } else if lookup(s, q) is Some {
            let c = lemma_lookup_some(s, q);
            assert(is_first(t, q, c));
            lemma_lookup_first(t, q, c);
        } else {
            if lookup(t, q) is Some {
                let c = lemma_lookup_some(t, q);
                assert(t[c].0 == q);
                assert(c < s.len());
                assert forall|j: int| 0 <= j < c implies s[j].0 != q by {
                    assert(t[j].0 != q);
                }
                assert(is_first(s, q, c));
                lemma_lookup_first(s, q, c);
            }
        }
    }
    assert(as_map(t) =~= as_map(s).insert(k, v));
}

/// A key that occurs at some position has a first position.
pub proof fn lemma_has_first<T>(s: Seq<(Word, T)>, k: Word, j: int)
    requires
        0 <= j < s.len(),
        s[j].0 == k,
    ensures
        lookup(s, k) is Some,
    decreases j,
{
    if exists|i: int| 0 <= i < j && s[i].0 == k {
        let i = choose|i: int| 0 <= i < j && s[i].0 == k;
        lemma_has_first(s, k, i);
    } else {
        assert(is_first(s, k, j));
    }
}

/// Taking out the first pair of `k` leaves every other key as it was.
pub proof fn lemma_remove_first<T>(s: Seq<(Word, T)>, k: Word, i: int)
    requires
        is_first(s, k, i),
    ensures
        forall|q: Word| q != k ==> lookup(s.remove(i), q) == #[trigger] lookup(s, q),
{
    let t = s.remove(i);
    assert forall|q: Word| q != k implies lookup(t, q) == #[trigger] lookup(s, q) by {
        if lookup(s, q) is Some {
            let c = lemma_lookup_some(s, q);
            let d = if c < i {
                c
            } else {
                c - 1
            };
            assert(is_first(t, q, d)) by {
                assert forall|j: int| 0 <= j < d implies t[j].0 != q by {
                    if j < i {
                        assert(t[j] == s[j]);
                    } else {
                        assert(t[j] == s[j + 1]);
                    }
                }
            }
            lemma_lookup_first(t, q, d);
        } else {
            if lookup(t, q) is Some {
                let d = lemma_lookup_some(t, q);
                let c = if d < i {
                    d
                } else {
                    d + 1
                };
                lemma_has_first(s, q, c);
            }
        }
    }
}

/// The first position of `key`, if the list holds it.
pub fn position<T>(entries: &Vec<(Word, T)>, key: &Word) -> (r: Option<usize>)
    ensures
        match r {
            Some(i) => is_first(entries@, *key, i as int),
            None => lookup(entries@, *key) is None,
        },
{
    let mut i: usize = 0;
    while i < entries.len()
        invariant
            i <= entries.len(),
            forall|j: int| 0 <= j < i ==> entries@[j].0 != *key,
        decreases entries.len() - i,
    {
        if entries[i].0 == *key {
            return Some(i);
        }
        i += 1;
    }
    proof {
        lemma_lookup_absent(entries@, *key);
    }
    None
}

/// The persistent key-value store of one contract. A key that was never
/// written reads as absent.
pub struct Storage {
    entries: Vec<(Word, Word)>,
}

impl View for Storage {
    type V = Map<Word, Word>;

    closed spec fn view(&self) -> Map<Word, Word> {
        as_map(self.entries@)
    }
}

impl Storage {
    /// A storage in which nothing was written.
    pub fn new() -> (r: Storage)
        ensures
            r@ == Map::<Word, Word>::empty(),
    {
        let r = Storage { entries: Vec::new() };
        proof {
            assert forall|k: Word| lookup(r.entries@, k) is None by {
                lemma_lookup_absent(r.entries@, k);
            }
            assert(r@ =~= Map::<Word, Word>::empty());
        }
        r
    }

    /// What was written under `key`, if anything was.
    pub fn get(&self, key: &Word) -> (r: Option<Word>)
        ensures
            r == (if self@.dom().contains(*key) {
                Some(self@[*key])
            } else {
                None
            }),
    {
        match position(&self.entries, key) {
            Some(i) => {
                proof {
                    lemma_lookup_first(self.entries@, *key, i as int);
                }
                Some(self.entries[i].1)
            },
            None => None,
        }
    }

    /// Writes `value` under `key`, in place of what was there.
    pub fn insert(&mut self, key: Word, value: Word)
        ensures
            final(self)@ == old(self)@.insert(key, value),
    {
        match position(&self.entries, &key) {
            Some(i) => {
                proof {
                    lemma_update_first(self.entries@, key, i as int, value);
                }
                self.entries.set(i, (key, value));
            },
            None => {
                proof {
                    lemma_push_absent(self.entries@, key, value);
                }
                self.entries.push((key, value));
            },
        }
    }
}

} // verus!
