//! Persistent contract storage: a string-to-string mapping with unique keys
//! and no ordering, viewed as a `Map<Seq<char>, Seq<char>>`.

use vstd::prelude::*;
use crate::text::str_eq;

verus! {

/// The map denoted by a sequence of key/value pairs.
pub open spec fn pairs_map(s: Seq<(String, String)>) -> Map<Seq<char>, Seq<char>>
    decreases s.len(),
{
    if s.len() == 0 {
        Map::empty()
    } else {
        pairs_map(s.drop_last()).insert(s.last().0@, s.last().1@)
    }
}

/// No two entries share a key.
pub open spec fn unique_keys(s: Seq<(String, String)>) -> bool {
    forall|i: int, j: int| 0 <= i < j < s.len() ==> (#[trigger] s[i]).0@ != (#[trigger] s[j]).0@
}

/// A key matching no entry is not in the map.
proof fn lemma_pairs_map_absent(s: Seq<(String, String)>, k: Seq<char>)
    requires
        forall|i: int| 0 <= i < s.len() ==> (#[trigger] s[i]).0@ != k,
    ensures
        !pairs_map(s).contains_key(k),
    decreases s.len(),
{
    if s.len() > 0 {
        lemma_pairs_map_absent(s.drop_last(), k);
    }
}

/// With unique keys, the entry at `i` gives the map's value at its key.
proof fn lemma_pairs_map_at(s: Seq<(String, String)>, i: int)
    requires
        unique_keys(s),
        0 <= i < s.len(),
    ensures
        pairs_map(s).contains_key(s[i].0@),
        pairs_map(s)[s[i].0@] == s[i].1@,
    decreases s.len(),
{
    if i < s.len() - 1 {
        assert(unique_keys(s.drop_last()));
        lemma_pairs_map_at(s.drop_last(), i);
        assert(s[i].0@ != s.last().0@);
    }
}

/// With unique keys, removing the entry at `i` removes exactly its key.
proof fn lemma_pairs_map_remove(s: Seq<(String, String)>, i: int)
    requires
        unique_keys(s),
        0 <= i < s.len(),
    ensures
        pairs_map(s.remove(i)) == pairs_map(s).remove(s[i].0@),
    decreases s.len(),
{
    let k = s[i].0@;
    if i == s.len() - 1 {
        assert(s.remove(i) =~= s.drop_last());
        lemma_pairs_map_absent(s.drop_last(), k);
        assert(s.last() == s[i]);
        assert(pairs_map(s).remove(k) =~= pairs_map(s.drop_last()));
    } else {
        assert(unique_keys(s.drop_last()));
        lemma_pairs_map_remove(s.drop_last(), i);
        assert(s.remove(i).drop_last() =~= s.drop_last().remove(i));
        assert(s.remove(i).last() == s.last());
        assert(k != s.last().0@);
        assert(pairs_map(s.drop_last()).remove(k).insert(s.last().0@, s.last().1@) =~= pairs_map(
            s.drop_last(),
        ).insert(s.last().0@, s.last().1@).remove(k));
    }
}

/// An address-keyed contract's persistent storage: a mapping from string keys
/// to string values, keys unique, order irrelevant.
pub struct Storage {
    entries: Vec<(String, String)>,
}

impl View for Storage {
    type V = Map<Seq<char>, Seq<char>>;

    closed spec fn view(&self) -> Map<Seq<char>, Seq<char>> {
        pairs_map(self.entries@)
    }
}

impl Storage {
    #[verifier::type_invariant]
    spec fn wf(self) -> bool {
        unique_keys(self.entries@)
    }

    /// An empty storage.
    pub fn new() -> (s: Storage)
        ensures
            s@ == Map::<Seq<char>, Seq<char>>::empty(),
    {
        Storage { entries: Vec::new() }
    }

    /// The stored value for `key`, if any.
    pub fn get<'a>(&'a self, key: &str) -> (r: Option<&'a String>)
        ensures
            match r {
                Some(v) => self@.contains_key(key@) && v@ == self@[key@],
                None => !self@.contains_key(key@),
            },
    {
        proof {
            use_type_invariant(&*self);
        }
        let n = self.entries.len();
        let mut i: usize = 0;
        while i < n
            invariant
                n == self.entries.len(),
                i <= n,
                unique_keys(self.entries@),
                self@ == pairs_map(self.entries@),
                forall|j: int| 0 <= j < i ==> (#[trigger] self.entries@[j]).0@ != key@,
            decreases n - i,
        {
            if str_eq(self.entries[i].0.as_str(), key) {
                proof {
                    lemma_pairs_map_at(self.entries@, i as int);
                }
                return Some(&self.entries[i].1);
            }
            i = i + 1;
        }
        proof {
            lemma_pairs_map_absent(self.entries@, key@);
        }
        None
    }

    /// Inserts or overwrites the mapping for `key`.
    pub fn insert(&mut self, key: String, value: String)
        ensures
            final(self)@ == old(self)@.insert(key@, value@),
    {
        proof {
            use_type_invariant(&*self);
        }
        let mut entries: Vec<(String, String)> = Vec::new();
        core::mem::swap(&mut entries, &mut self.entries);
        let ghost orig = entries@;
        let n = entries.len();
        let mut i: usize = 0;
        while i < n
            invariant
                n == entries.len(),
                i <= n,
                entries@ == orig,
                orig == old(self).entries@,
                unique_keys(orig),
                forall|j: int| 0 <= j < i ==> (#[trigger] orig[j]).0@ != key@,
            decreases n - i,
        {
            if str_eq(entries[i].0.as_str(), key.as_str()) {
                proof {
                    assert(orig[i as int].0@ == key@);
                    lemma_pairs_map_remove(orig, i as int);
                    orig.remove_ensures(i as int);
                }
                let _replaced = entries.remove(i);
                entries.push((key, value));
                proof {
                    let shortened = orig.remove(i as int);
                    assert(entries@.drop_last() =~= shortened);
                    assert(entries@.last() == (key, value));
                    assert(pairs_map(entries@) == pairs_map(shortened).insert(key@, value@));
                    assert(pairs_map(shortened).insert(key@, value@) =~= pairs_map(orig).insert(
                        key@,
                        value@,
                    ));
                    assert forall|a: int, b: int|
                        0 <= a < b < entries@.len() implies (#[trigger] entries@[a]).0@ != (
                    #[trigger] entries@[b]).0@ by {
                        if b == entries@.len() - 1 {
                            assert(entries@[a] == shortened[a]);
                            if a < i {
                                assert(shortened[a] == orig[a]);
                                assert(orig[a].0@ != key@);
                            } else {
                                assert(shortened[a] == orig[a + 1]);
                                assert(orig[a + 1].0@ != orig[i as int].0@);
                            }
                        } else {
                            assert(entries@[a] == shortened[a]);
                            assert(entries@[b] == shortened[b]);
                            if a < i && b < i {
                                assert(shortened[a] == orig[a] && shortened[b] == orig[b]);
                            } else if a < i {
                                assert(shortened[a] == orig[a] && shortened[b] == orig[b + 1]);
                            } else {
                                assert(shortened[a] == orig[a + 1] && shortened[b] == orig[b + 1]);
                            }
                        }
                    }
                }
                self.entries = entries;
                return ;
            }
            i = i + 1;
        }
        entries.push((key, value));
        proof {
            assert(entries@.drop_last() =~= orig);
            assert(unique_keys(entries@));
        }
        self.entries = entries;
    }

    /// A deep copy, denoting the same mapping.
    pub fn duplicate(&self) -> (r: Storage)
        ensures
            r@ == self@,
    {
        proof {
            use_type_invariant(&*self);
        }
        let n = self.entries.len();
        let mut copied: Vec<(String, String)> = Vec::new();
        let mut i: usize = 0;
        while i < n
            invariant
                n == self.entries.len(),
                i <= n,
                unique_keys(self.entries@),
                copied@ =~= self.entries@.subrange(0, i as int),
            decreases n - i,
        {
            copied.push((self.entries[i].0.clone(), self.entries[i].1.clone()));
            proof {
                assert(copied@ =~= self.entries@.subrange(0, i as int + 1));
            }
            i = i + 1;
        }
        proof {
            assert(copied@ =~= self.entries@);
        }
        Storage { entries: copied }
    }
}

} // verus!
