//! A small verified association map from channel names to values, backing
//! the per-channel presentation caches.

use vstd::prelude::*;

use crate::strutil::str_eq;

verus! {

/// The value stored under `key`, if any: the first entry whose key matches.
pub open spec fn assoc<V>(entries: Seq<(String, V)>, key: Seq<char>) -> Option<V>
    decreases entries.len(),
{
    if entries.len() == 0 {
        None
    } else if entries[0].0@ == key {
        Some(entries[0].1)
    } else {
        assoc(entries.drop_first(), key)
    }
}

/// A map from strings to values, stored as an entry list with pairwise
/// distinct keys.
pub struct StrMap<V> {
    entries: Vec<(String, V)>,
}

impl<V> StrMap<V> {
    /// Pairwise-distinct keys.
    pub closed spec fn wf(self) -> bool {
        forall|i: int, j: int|
            0 <= i < j < self.entries@.len() ==> (#[trigger] self.entries@[i]).0@ != (
            #[trigger] self.entries@[j]).0@
    }

    /// What the map holds under each key.
    pub closed spec fn spec_get(self, key: Seq<char>) -> Option<V> {
        assoc(self.entries@, key)
    }

    /// The empty map.
    pub fn new() -> (r: Self)
        ensures
            r.wf(),
            forall|k: Seq<char>| r.spec_get(k) is None,
    {
        let r = StrMap { entries: Vec::new() };
        proof {
            assert(forall|k: Seq<char>| r.spec_get(k) is None);
        }
        r
    }

    /// Look up a key.
    pub fn get(&self, key: &str) -> (r: Option<&V>)
        ensures
            match r {
                Some(v) => self.spec_get(key@) == Some(*v),
                None => self.spec_get(key@) is None,
            },
    {
        let mut i: usize = 0;
        proof {
            assert(self.entries@.skip(0) =~= self.entries@);
        }
        while i < self.entries.len()
            invariant
                i <= self.entries.len(),
                assoc(self.entries@, key@) == assoc(self.entries@.skip(i as int), key@),
            decreases self.entries.len() - i,
        {
            let e = &self.entries[i];
            proof {
                assert(self.entries@.skip(i as int)[0] == self.entries@[i as int]);
            }
            if str_eq(e.0.as_str(), key) {
                return Some(&e.1);
            }
            proof {
                assert(self.entries@.skip(i as int).drop_first() =~= self.entries@.skip(
                    i as int + 1,
                ));
            }
            i += 1;
        }
        proof {
            assert(self.entries@.skip(i as int).len() == 0);
        }
        None
    }

    /// Store a value under a key, replacing any previous one.
    #[verifier::loop_isolation(false)]
    pub fn insert(&mut self, key: String, value: V)
        requires
            old(self).wf(),
        ensures
            final(self).wf(),
            final(self).spec_get(key@) == Some(value),
            forall|k: Seq<char>| k != key@ ==> final(self).spec_get(k) == old(self).spec_get(k),
    {
        let ghost entries0 = self.entries@;
        let mut i: usize = 0;
        while i < self.entries.len()
            invariant
                self.entries@ == entries0,
                i <= self.entries@.len(),
                forall|j: int| 0 <= j < i ==> (#[trigger] entries0[j]).0@ != key@,
            decreases self.entries.len() - i,
        {
            let e = &self.entries[i];
            if str_eq(e.0.as_str(), key.as_str()) {
                let ghost iv = i as int;
                self.entries.set(i, (key, value));
                proof {
                    assert(self.entries@ =~= entries0.update(iv, self.entries@[iv]));
                    assert(self.entries@[iv].0@ == entries0[iv].0@);
                    lemma_assoc_update(entries0, self.entries@, iv);
                    assert forall|i2: int, j2: int|
                        0 <= i2 < j2 < self.entries@.len() implies (#[trigger] self.entries@[i2]).0@
                        != (#[trigger] self.entries@[j2]).0@ by {
                        assert(entries0[i2].0@ != entries0[j2].0@);
                    }
                }
                return ;
            }
            i += 1;
        }
        self.entries.push((key, value));
        proof {
            lemma_assoc_push(entries0, self.entries@.last());
            assert(self.entries@.drop_last() =~= entries0);
            assert forall|i2: int, j2: int|
                0 <= i2 < j2 < self.entries@.len() implies (#[trigger] self.entries@[i2]).0@ != (
            #[trigger] self.entries@[j2]).0@ by {
                if j2 < self.entries@.len() - 1 {
                    assert(entries0[i2].0@ != entries0[j2].0@);
                } else {
                    assert(entries0[i2].0@ != key@);
                }
            }
        }
    }
}

/// Updating the entry that holds a key changes that key's binding alone.
proof fn lemma_assoc_update<V>(entries: Seq<(String, V)>, updated: Seq<(String, V)>, i: int)
    requires
        0 <= i < entries.len(),
        updated.len() == entries.len(),
        updated[i].0@ == entries[i].0@,
        forall|j: int| 0 <= j < entries.len() && j != i ==> updated[j] == entries[j],
        forall|j: int| 0 <= j < i ==> (#[trigger] entries[j]).0@ != entries[i].0@,
    ensures
        assoc(updated, entries[i].0@) == Some(updated[i].1),
        forall|k2: Seq<char>| k2 != entries[i].0@ ==> assoc(updated, k2) == assoc(entries, k2),
    decreases entries.len(),
{
    if i > 0 {
        lemma_assoc_update(entries.drop_first(), updated.drop_first(), i - 1);
        assert(entries.drop_first()[i - 1] == entries[i]);
        assert(updated[0] == entries[0]);
        assert forall|k2: Seq<char>| k2 != entries[i].0@ implies assoc(updated, k2) == assoc(
            entries,
            k2,
        ) by {
            if entries[0].0@ != k2 {
                assert(assoc(updated.drop_first(), k2) == assoc(entries.drop_first(), k2));
            }
        }
    } else {
        assert forall|k2: Seq<char>| k2 != entries[i].0@ implies assoc(updated, k2) == assoc(
            entries,
            k2,
        ) by {
            if entries[0].0@ != k2 {
                assert(updated.drop_first() =~= entries.drop_first());
            }
        }
    }
}

/// Appending an entry with a fresh key adds that binding and no other.
proof fn lemma_assoc_push<V>(entries: Seq<(String, V)>, e: (String, V))
    requires
        forall|j: int| 0 <= j < entries.len() ==> (#[trigger] entries[j]).0@ != e.0@,
    ensures
        assoc(entries.push(e), e.0@) == Some(e.1),
        forall|k2: Seq<char>| k2 != e.0@ ==> assoc(entries.push(e), k2) == assoc(entries, k2),
    decreases entries.len(),
{
    if entries.len() == 0 {
        assert(entries.push(e)[0] == e);
        assert forall|k2: Seq<char>| k2 != e.0@ implies assoc(entries.push(e), k2) == assoc(
            entries,
            k2,
        ) by {
            assert(assoc(entries.push(e).drop_first(), k2) == assoc(
                Seq::<(String, V)>::empty(),
                k2,
            )) by {
                assert(entries.push(e).drop_first() =~= Seq::<(String, V)>::empty());
            }
        }
    } else {
        lemma_assoc_push(entries.drop_first(), e);
        assert(entries.push(e).drop_first() =~= entries.drop_first().push(e));
        assert(entries.push(e)[0] == entries[0]);
        assert forall|k2: Seq<char>| k2 != e.0@ implies assoc(entries.push(e), k2) == assoc(
            entries,
            k2,
        ) by {
            if entries[0].0@ != k2 {
                assert(assoc(entries.drop_first().push(e), k2) == assoc(
                    entries.drop_first(),
                    k2,
                ));
            }
        }
    }
}

} // verus!
