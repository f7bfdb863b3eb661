//! The key-value payload of a bearer token.
//!
//! Claims are a flat, string-keyed mapping rather than a rigid record, so
//! that further claims can be added later without a wire-format break; only
//! `sub` and `exp` carry meaning today. The mapping is held as pairs in
//! insertion order with no key repeated, and is viewed as a `Map` from key
//! characters to value characters.

use vstd::prelude::*;

use crate::text::str_eq;

verus! {

/// An open, extensible set of string-keyed claims.
pub struct Claims {
    pub(crate) pairs: Vec<(String, String)>,
}

/// No two pairs share a key.
pub open spec fn distinct_keys(s: Seq<(String, String)>) -> bool {
    forall|i: int, j: int| 0 <= i < j < s.len() ==> s[i].0@ != s[j].0@
}

/// The map a pair sequence denotes; a later pair with the same key wins.
pub open spec fn pairs_to_map(s: Seq<(String, String)>) -> Map<Seq<char>, Seq<char>>
    decreases s.len(),
{
    if s.len() == 0 {
        Map::empty()
    } else {
        pairs_to_map(s.drop_last()).insert(s.last().0@, s.last().1@)
    }
}

impl View for Claims {
    type V = Map<Seq<char>, Seq<char>>;

    closed spec fn view(&self) -> Map<Seq<char>, Seq<char>> {
        pairs_to_map(self.pairs@)
    }
}

/// A pair's key is in the denoted map.
proof fn lemma_key_present(s: Seq<(String, String)>, i: int)
    requires
        0 <= i < s.len(),
    ensures
        pairs_to_map(s).contains_key(s[i].0@),
    decreases s.len(),
{
    if i < s.len() - 1 {
        lemma_key_present(s.drop_last(), i);
    }
}

/// A key no pair holds is not in the denoted map.
proof fn lemma_key_absent(s: Seq<(String, String)>, k: Seq<char>)
    requires
        forall|i: int| 0 <= i < s.len() ==> s[i].0@ != k,
    ensures
        !pairs_to_map(s).contains_key(k),
    decreases s.len(),
{
    if s.len() > 0 {
        lemma_key_absent(s.drop_last(), k);
    }
}

/// With no key repeated, the denoted map sends each pair's key to its value.
proof fn lemma_value_at(s: Seq<(String, String)>, i: int)
    requires
        distinct_keys(s),
        0 <= i < s.len(),
    ensures
        pairs_to_map(s)[s[i].0@] == s[i].1@,
    decreases s.len(),
{
    if i < s.len() - 1 {
        assert(s[i].0@ != s.last().0@);
        lemma_value_at(s.drop_last(), i);
    }
}

/// Removing the pair at `i` removes exactly its key from the denoted map.
proof fn lemma_map_remove(s: Seq<(String, String)>, i: int)
    requires
        distinct_keys(s),
        0 <= i < s.len(),
    ensures
        pairs_to_map(s.remove(i)) == pairs_to_map(s).remove(s[i].0@),
        distinct_keys(s.remove(i)),
    decreases s.len(),
{
    s.remove_ensures(i);
    assert forall|a: int, b: int| 0 <= a < b < s.remove(i).len() implies s.remove(i)[a].0@
        != s.remove(i)[b].0@ by {
        assert(s.remove(i)[a] == if a < i {
            s[a]
        } else {
            s[a + 1]
        });
        assert(s.remove(i)[b] == if b < i {
            s[b]
        } else {
            s[b + 1]
        });
    }
    if i == s.len() - 1 {
        assert(s.remove(i) =~= s.drop_last());
        lemma_key_absent(s.drop_last(), s[i].0@);
        assert(pairs_to_map(s).remove(s[i].0@) =~= pairs_to_map(s.drop_last()));
    } else {
        let t = s.drop_last();
        assert(s.remove(i).drop_last() =~= t.remove(i));
        assert(s.remove(i).last() == s.last());
        lemma_map_remove(t, i);
        assert(t[i] == s[i]);
        assert(s[i].0@ != s.last().0@);
        assert(pairs_to_map(t).remove(s[i].0@).insert(s.last().0@, s.last().1@) =~= pairs_to_map(
            t,
        ).insert(s.last().0@, s.last().1@).remove(s[i].0@));
    }
}

impl Claims {
    /// No key is held by two pairs.
    pub closed spec fn wf(&self) -> bool {
        distinct_keys(self.pairs@)
    }

    /// An empty claims set.
    pub fn new() -> (c: Claims)
        ensures
            c.wf(),
            c@ == Map::<Seq<char>, Seq<char>>::empty(),
    {
        Claims { pairs: Vec::new() }
    }

    /// The position of the pair holding `key`, if any.
    fn index_of(&self, key: &str) -> (r: Option<usize>)
        ensures
            match r {
                Some(i) => i < self.pairs@.len() && self.pairs@[i as int].0@ == key@,
                None => forall|j: int| 0 <= j < self.pairs@.len() ==> self.pairs@[j].0@ != key@,
            },
    {
        let mut i: usize = 0;
        while i < self.pairs.len()
            invariant
                0 <= i <= self.pairs@.len(),
                forall|j: int| 0 <= j < i ==> self.pairs@[j].0@ != key@,
            decreases self.pairs@.len() - i,
        {
            if str_eq(self.pairs[i].0.as_str(), key) {
                return Some(i);
            }
            i = i + 1;
        }
        None
    }

    /// Bind `key` to `value`, replacing any earlier binding.
    pub fn insert(&mut self, key: &str, value: String)
        requires
            old(self).wf(),
        ensures
            final(self).wf(),
            final(self)@ == old(self)@.insert(key@, value@),
    {
        let k = key.to_owned();
        match self.index_of(key) {
            Some(i) => {
                proof {
                    lemma_map_remove(self.pairs@, i as int);
                }
                self.pairs.remove(i);
                self.pairs.push((k, value));
                proof {
                    let ghost mid = old(self).pairs@.remove(i as int);
                    assert(self.pairs@.drop_last() =~= mid);
                    assert forall|j: int| 0 <= j < mid.len() implies mid[j].0@ != key@ by {
                        old(self).pairs@.remove_ensures(i as int);
                        assert(mid[j] == if j < i {
                            old(self).pairs@[j]
                        } else {
                            old(self).pairs@[j + 1]
                        });
                    }
                    assert(pairs_to_map(old(self).pairs@).remove(key@).insert(key@, value@)
                        =~= pairs_to_map(old(self).pairs@).insert(key@, value@));
                }
            },
            None => {
                self.pairs.push((k, value));
                proof {
                    assert(self.pairs@.drop_last() =~= old(self).pairs@);
                }
            },
        }
    }

    /// The value bound to `key`, if any.
    pub fn get(&self, key: &str) -> (r: Option<&String>)
        requires
            self.wf(),
        ensures
            match r {
                Some(v) => self@.contains_key(key@) && v@ == self@[key@],
                None => !self@.contains_key(key@),
            },
    {
        match self.index_of(key) {
            Some(i) => {
                proof {
                    lemma_key_present(self.pairs@, i as int);
                    lemma_value_at(self.pairs@, i as int);
                }
                Some(&self.pairs[i].1)
            },
            None => {
                proof {
                    lemma_key_absent(self.pairs@, key@);
                }
                None
            },
        }
    }
}

} // verus!
