//! An association from content keys to byte payloads, and the
//! get-or-compute cache discipline built on it.
//!
//! The store gives no cross-process exactly-once guarantee: two concurrent
//! requests that miss on the same key may both compute.  That is a deliberate
//! trade-off — recomputation is idempotent and correctness-preserving — made
//! to avoid cross-process locking.

use vstd::prelude::*;

use crate::errors::ShapeError;

verus! {

use vstd::string::StringExecFns;

/// The key views of an entry sequence, in order.
spec fn keys_of(s: Seq<(String, Vec<u8>)>) -> Seq<Seq<char>> {
    s.map_values(|p: (String, Vec<u8>)| p.0@)
}

/// The map described by an entry sequence; a later entry wins.
spec fn pairs_map(s: Seq<(String, Vec<u8>)>) -> Map<Seq<char>, Seq<u8>>
    decreases s.len(),
{
    if s.len() == 0 {
        Map::empty()
    } else {
        pairs_map(s.drop_last()).insert(s.last().0@, s.last().1@)
    }
}

/// A key is in the map exactly when some entry holds it, and the domain is
/// finite.
proof fn lemma_pm_contains(s: Seq<(String, Vec<u8>)>)
    ensures
        pairs_map(s).dom().finite(),
        forall|k: Seq<char>| #[trigger] pairs_map(s).contains_key(k) <==> keys_of(s).contains(k),
    decreases s.len(),
{
    if s.len() == 0 {
        assert(forall|k: Seq<char>| !keys_of(s).contains(k));
    } else {
        lemma_pm_contains(s.drop_last());
        assert forall|k: Seq<char>| pairs_map(s).contains_key(k) implies keys_of(s).contains(
            k,
        ) by {
            if k == s.last().0@ {
                assert(keys_of(s)[s.len() - 1] == k);
            } else {
                let j = choose|j: int|
                    0 <= j < keys_of(s.drop_last()).len() && keys_of(s.drop_last())[j] == k;
                assert(keys_of(s)[j] == k);
            }
        }
        assert forall|k: Seq<char>| keys_of(s).contains(k) implies pairs_map(s).contains_key(
            k,
        ) by {
            let j = choose|j: int| 0 <= j < keys_of(s).len() && keys_of(s)[j] == k;
            if j == s.len() - 1 {
                assert(k == s.last().0@);
            } else {
                assert(keys_of(s.drop_last())[j] == k);
            }
        }
    }
}

/// Entry keys distinct on the prefix stay distinct after dropping the last.
proof fn lemma_keys_drop_last(s: Seq<(String, Vec<u8>)>)
    requires
        s.len() > 0,
        keys_of(s).no_duplicates(),
    ensures
        keys_of(s.drop_last()) =~= keys_of(s).drop_last(),
        keys_of(s.drop_last()).no_duplicates(),
{
    assert forall|a: int, b: int|
        0 <= a < b < keys_of(s.drop_last()).len() implies keys_of(s.drop_last())[a] != keys_of(
        s.drop_last(),
    )[b] by {
        assert(keys_of(s.drop_last())[a] == keys_of(s)[a]);
        assert(keys_of(s.drop_last())[b] == keys_of(s)[b]);
    }
}

/// With distinct keys, the map value of each entry's key is that entry's
/// payload.
proof fn lemma_pm_index(s: Seq<(String, Vec<u8>)>, i: int)
    requires
        keys_of(s).no_duplicates(),
        0 <= i < s.len(),
    ensures
        pairs_map(s)[s[i].0@] == s[i].1@,
    decreases s.len(),
{
    lemma_keys_drop_last(s);
    if i == s.len() - 1 {
    } else {
        assert(keys_of(s)[i] != keys_of(s)[s.len() - 1]);
        assert(s[i].0@ != s.last().0@);
        lemma_pm_index(s.drop_last(), i);
        assert(s.drop_last()[i] == s[i]);
    }
}

/// With distinct keys, the map holds exactly as many keys as the sequence.
proof fn lemma_pm_len(s: Seq<(String, Vec<u8>)>)
    requires
        keys_of(s).no_duplicates(),
    ensures
        pairs_map(s).dom().len() == s.len(),
    decreases s.len(),
{
    lemma_pm_contains(s);
    if s.len() > 0 {
        lemma_keys_drop_last(s);
        lemma_pm_len(s.drop_last());
        lemma_pm_contains(s.drop_last());
        assert(keys_of(s)[s.len() - 1] == s.last().0@);
        assert(!keys_of(s.drop_last()).contains(s.last().0@)) by {
            if keys_of(s.drop_last()).contains(s.last().0@) {
                let j = choose|j: int|
                    0 <= j < keys_of(s.drop_last()).len() && keys_of(s.drop_last())[j] == s.last().0@;
                assert(keys_of(s)[j] == keys_of(s)[s.len() - 1]);
            }
        }
        assert(!pairs_map(s.drop_last()).contains_key(s.last().0@));
        assert(pairs_map(s).dom() =~= pairs_map(s.drop_last()).dom().insert(s.last().0@));
    }
}

/// Removing the entry at `i` removes exactly its key from the map.
proof fn lemma_pm_remove(s: Seq<(String, Vec<u8>)>, i: int)
    requires
        keys_of(s).no_duplicates(),
        0 <= i < s.len(),
    ensures
        pairs_map(s.remove(i)) == pairs_map(s).remove(s[i].0@),
    decreases s.len(),
{
    let k = s[i].0@;
    lemma_keys_drop_last(s);
    lemma_pm_contains(s.drop_last());
    if i == s.len() - 1 {
        assert(s.remove(i) =~= s.drop_last());
        assert(!keys_of(s.drop_last()).contains(k)) by {
            if keys_of(s.drop_last()).contains(k) {
                let j = choose|j: int|
                    0 <= j < keys_of(s.drop_last()).len() && keys_of(s.drop_last())[j] == k;
                assert(keys_of(s)[j] == keys_of(s)[s.len() - 1]);
            }
        }
        assert(!pairs_map(s.drop_last()).contains_key(k));
        assert(pairs_map(s).remove(k) =~= pairs_map(s.drop_last()));
    } else {
        let dl = s.drop_last();
        assert(keys_of(s)[i] != keys_of(s)[s.len() - 1]);
        assert(k != s.last().0@);
        assert(s.remove(i).drop_last() =~= dl.remove(i)) by {
            s.remove_ensures(i);
            dl.remove_ensures(i);
        }
        assert(s.remove(i).last() == s.last()) by {
            s.remove_ensures(i);
        }
        assert(s.remove(i).len() == s.len() - 1);
        assert(pairs_map(s.remove(i)) == pairs_map(dl.remove(i)).insert(
            s.last().0@,
            s.last().1@,
        ));
        lemma_pm_remove(dl, i);
        assert(dl[i] == s[i]);
        assert(pairs_map(dl).remove(k).insert(s.last().0@, s.last().1@) =~= pairs_map(
            dl,
        ).insert(s.last().0@, s.last().1@).remove(k));
    }
}

/// A map from content keys to byte payloads, the model of one bucket of the
/// object store.
pub struct ByteMap {
    pairs: Vec<(String, Vec<u8>)>,
}

impl View for ByteMap {
    type V = Map<Seq<char>, Seq<u8>>;

    closed spec fn view(&self) -> Map<Seq<char>, Seq<u8>> {
        pairs_map(self.pairs@)
    }
}

impl ByteMap {
    /// No key occurs twice.  Established by `new` and preserved by every
    /// method; callers carry it between calls.
    pub closed spec fn wf(&self) -> bool {
        keys_of(self.pairs@).no_duplicates()
    }

    /// An empty store.
    pub fn new() -> (r: ByteMap)
        ensures
            r@ == Map::<Seq<char>, Seq<u8>>::empty(),
            r.wf(),
    {
        ByteMap { pairs: Vec::new() }
    }

    /// The index holding `key`, if any.
    fn find(&self, key: &String) -> (r: Option<usize>)
        ensures
            match r {
                Some(i) => i < self.pairs@.len() && self.pairs@[i as int].0@ == key@,
                None => !self@.contains_key(key@),
            },
    {
        let mut i: usize = 0;
        while i < self.pairs.len()
            invariant
                i <= self.pairs@.len(),
                forall|j: int| 0 <= j < i ==> self.pairs@[j].0@ != key@,
            decreases self.pairs@.len() - i,
        {
            if self.pairs[i].0.eq(key) {
                return Some(i);
            }
            i += 1;
        }
        proof {
            lemma_pm_contains(self.pairs@);
            if keys_of(self.pairs@).contains(key@) {
                let j = choose|j: int|
                    0 <= j < keys_of(self.pairs@).len() && keys_of(self.pairs@)[j] == key@;
                assert(self.pairs@[j].0@ == key@);
            }
        }
        None
    }

    /// How many keys the store holds.
    pub fn len(&self) -> (r: usize)
        requires
            self.wf(),
        ensures
            r == self@.dom().len(),
    {
        proof {
            lemma_pm_len(self.pairs@);
        }
        self.pairs.len()
    }

    /// Whether `key` is present.
    pub fn contains_key(&self, key: &String) -> (r: bool)
        requires
            self.wf(),
        ensures
            r == self@.contains_key(key@),
    {
        match self.find(key) {
            Some(i) => {
                proof {
                    lemma_pm_contains(self.pairs@);
                    assert(keys_of(self.pairs@)[i as int] == key@);
                }
                true
            },
            None => false,
        }
    }

    /// A copy of the bytes stored under `key`, if any.
    pub fn get_copy(&self, key: &String) -> (r: Option<Vec<u8>>)
        requires
            self.wf(),
        ensures
            match r {
                Some(v) => self@.contains_key(key@) && v@ == self@[key@],
                None => !self@.contains_key(key@),
            },
    {
        match self.find(key) {
            Some(i) => {
                proof {
                    lemma_pm_contains(self.pairs@);
                    assert(keys_of(self.pairs@)[i as int] == key@);
                    lemma_pm_index(self.pairs@, i as int);
                }
                Some(self.pairs[i].1.clone())
            },
            None => None,
        }
    }

    /// Stores `value` under `key`, replacing any previous payload.
    pub fn insert(&mut self, key: String, value: Vec<u8>)
        requires
            old(self).wf(),
        ensures
            final(self).wf(),
            final(self)@ == old(self)@.insert(key@, value@),
    {
        let found = self.find(&key);
        match found {
            Some(i) => {
                let ghost mid = old(self)@.remove(key@);
                proof {
                    lemma_pm_remove(old(self).pairs@, i as int);
                }
                let _replaced = self.pairs.remove(i);
                proof {
                    assert(self@ == mid);
                    assert(keys_of(self.pairs@) =~= keys_of(old(self).pairs@).remove(i as int));
                    assert forall|a: int, b: int|
                        0 <= a < b < keys_of(self.pairs@).len() implies keys_of(self.pairs@)[a]
                        != keys_of(self.pairs@)[b] by {
                        keys_of(old(self).pairs@).remove_ensures(i as int);
                        let oa = if a < i { a } else { a + 1 };
                        let ob = if b < i { b } else { b + 1 };
                        assert(keys_of(self.pairs@)[a] == keys_of(old(self).pairs@)[oa]);
                        assert(keys_of(self.pairs@)[b] == keys_of(old(self).pairs@)[ob]);
                    }
                    assert(self.wf());
                    lemma_pm_contains(self.pairs@);
                    assert(!self@.contains_key(key@)) by {
                        if keys_of(self.pairs@).contains(key@) {
                            let j = choose|j: int|
                                0 <= j < keys_of(self.pairs@).len() && keys_of(self.pairs@)[j]
                                    == key@;
                            keys_of(old(self).pairs@).remove_ensures(i as int);
                            let oj = if j < i { j } else { j + 1 };
                            assert(keys_of(old(self).pairs@)[oj] == key@);
                            assert(keys_of(old(self).pairs@)[i as int] == key@);
                        }
                    }
                }
                let ghost pre = self.pairs@;
                self.pairs.push((key, value));
                proof {
                    assert(self.pairs@.drop_last() =~= pre);
                    assert(self@ == pairs_map(pre).insert(self.pairs@.last().0@, value@));
                    assert(keys_of(self.pairs@) =~= keys_of(pre).push(self.pairs@.last().0@));
                    assert(!keys_of(pre).contains(self.pairs@.last().0@)) by {
                        lemma_pm_contains(pre);
                    }
                    assert(self.wf());
                    assert(mid.insert(key@, value@) =~= old(self)@.insert(key@, value@));
                }
            },
            None => {
                let ghost pre = self.pairs@;
                self.pairs.push((key, value));
                proof {
                    assert(self.pairs@.drop_last() =~= pre);
                    assert(self@ == pairs_map(pre).insert(self.pairs@.last().0@, value@));
                    assert(keys_of(self.pairs@) =~= keys_of(pre).push(self.pairs@.last().0@));
                    assert(!keys_of(pre).contains(key@)) by {
                        lemma_pm_contains(pre);
                    }
                    assert(self.wf());
                }
            },
        }
    }

    /// Takes the bytes stored under `key` out of the store: once consumed by
    /// one position of a graph, a payload is not implicitly shared with a
    /// second position.
    pub fn remove(&mut self, key: &String) -> (r: Option<Vec<u8>>)
        requires
            old(self).wf(),
        ensures
            final(self).wf(),
            match r {
                Some(v) => old(self)@.contains_key(key@) && v@ == old(self)@[key@]
                    && final(self)@ == old(self)@.remove(key@),
                None => !old(self)@.contains_key(key@) && final(self)@ == old(self)@,
            },
    {
        let found = self.find(key);
        match found {
            Some(i) => {
                proof {
                    lemma_pm_contains(old(self).pairs@);
                    assert(keys_of(old(self).pairs@)[i as int] == key@);
                    lemma_pm_index(old(self).pairs@, i as int);
                    lemma_pm_remove(old(self).pairs@, i as int);
                }
                let pair = self.pairs.remove(i);
                proof {
                    assert(keys_of(self.pairs@) =~= keys_of(old(self).pairs@).remove(i as int));
                    assert forall|a: int, b: int|
                        0 <= a < b < keys_of(self.pairs@).len() implies keys_of(self.pairs@)[a]
                        != keys_of(self.pairs@)[b] by {
                        keys_of(old(self).pairs@).remove_ensures(i as int);
                        let oa = if a < i { a } else { a + 1 };
                        let ob = if b < i { b } else { b + 1 };
                        assert(keys_of(self.pairs@)[a] == keys_of(old(self).pairs@)[oa]);
                        assert(keys_of(self.pairs@)[b] == keys_of(old(self).pairs@)[ob]);
                    }
                    assert(self.wf());
                }
                Some(pair.1)
            },
            None => None,
        }
    }
}

/// Returns the artifact cached under `key`; on a miss, runs `compute`, stores
/// a successful result under `key`, and returns it.  On a hit the compute
/// path is never invoked and the store is untouched, so a second evaluation
/// of an already-cached graph returns byte-identical output.
pub fn get_or_compute<F: FnOnce() -> Result<Vec<u8>, ShapeError>>(
    store: &mut ByteMap,
    key: &String,
    compute: F,
) -> (r: Result<Vec<u8>, ShapeError>)
    requires
        old(store).wf(),
        call_requires(compute, ()),
    ensures
        final(store).wf(),
        old(store)@.contains_key(key@) ==> final(store)@ == old(store)@ && (r matches Ok(v)
            && v@ == old(store)@[key@]),
        !old(store)@.contains_key(key@) ==> call_ensures(compute, (), r) && match r {
            Ok(v) => final(store)@ == old(store)@.insert(key@, v@),
            Err(_) => final(store)@ == old(store)@,
        },
{
    match store.get_copy(key) {
        Some(v) => Ok(v),
        None => {
            let computed = compute();
            match computed {
                Ok(v) => {
                    store.insert(key.clone(), v.clone());
                    Ok(v)
                },
                Err(e) => Err(e),
            }
        },
    }
}

/// Cache idempotence: once an artifact is stored under a key, looking that
/// key up finds exactly the stored bytes; re-evaluating the same canonical
/// graph therefore returns byte-identical output from the store.
pub proof fn lemma_cache_idempotent(m: Map<Seq<char>, Seq<u8>>, k: Seq<char>, v: Seq<u8>)
    ensures
        m.insert(k, v).contains_key(k),
        m.insert(k, v)[k] == v,
{
}

/// The store key of the cached scene bytes of a graph with content key
/// `hash`.
pub fn glb_cache_key(hash: &String) -> (r: String)
    ensures
        r@ == hash@ + ".glb"@,
{
    let mut r = hash.clone();
    r.append(".glb");
    r
}

} // verus!
