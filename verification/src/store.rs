//! An in-memory keyed store with an atomic get-and-delete, the shape the
//! flow engine needs for in-flight authorization states and for sessions.
use vstd::prelude::*;

verus! {

/// The value stored under key `k`: the first entry with that key, if any.
pub open spec fn spec_get<V>(s: Seq<(String, V)>, k: Seq<char>) -> Option<V>
    decreases s.len(),
{
    if s.len() == 0 {
        None
    } else if s[0].0@ == k {
        Some(s[0].1)
    } else {
        spec_get(s.skip(1), k)
    }
}

/// No two entries share a key.
pub open spec fn distinct_keys<V>(s: Seq<(String, V)>) -> bool {
    forall|i: int, j: int| 0 <= i < j < s.len() ==> s[i].0@ != s[j].0@
}

/// An entry's key looks it up.
pub proof fn lemma_get_at<V>(s: Seq<(String, V)>, i: int)
    requires
        distinct_keys(s),
        0 <= i < s.len(),
    ensures
        spec_get(s, s[i].0@) == Some(s[i].1),
    decreases i,
{
    if i > 0 {
        assert(s[0].0@ != s[i].0@);
        assert(distinct_keys(s.skip(1))) by {
            assert(forall|a: int, b: int|
                0 <= a < b < s.skip(1).len() ==> s.skip(1)[a] == s[a + 1] && s.skip(1)[b] == s[b
                    + 1]);
        }
        assert(s.skip(1)[i - 1] == s[i]);
        lemma_get_at(s.skip(1), i - 1);
    }
}

/// A key no entry carries looks nothing up.
pub proof fn lemma_get_absent<V>(s: Seq<(String, V)>, k: Seq<char>)
    requires
        forall|i: int| 0 <= i < s.len() ==> (#[trigger] s[i]).0@ != k,
    ensures
        spec_get(s, k) is None,
    decreases s.len(),
{
    if s.len() > 0 {
        assert(forall|i: int|
            0 <= i < s.skip(1).len() ==> (#[trigger] s.skip(1)[i]) == s[i + 1]);
        lemma_get_absent(s.skip(1), k);
    }
}

/// Removing the entry at `i` erases exactly its key.
pub proof fn lemma_get_remove<V>(s: Seq<(String, V)>, i: int, k: Seq<char>)
    requires
        distinct_keys(s),
        0 <= i < s.len(),
    ensures
        spec_get(s.remove(i), k) == if k == s[i].0@ {
            None::<V>
        } else {
            spec_get(s, k)
        },
    decreases s.len(),
{
    let r = s.remove(i);
    if i == 0 {
        assert(r =~= s.skip(1));
        if k == s[0].0@ {
            assert(forall|j: int|
                0 <= j < s.skip(1).len() ==> (#[trigger] s.skip(1)[j]) == s[j + 1]);
            lemma_get_absent(s.skip(1), k);
        }
    } else {
        assert(r[0] == s[0]);
        assert(r.skip(1) =~= s.skip(1).remove(i - 1));
        assert(distinct_keys(s.skip(1))) by {
            assert(forall|a: int, b: int|
                0 <= a < b < s.skip(1).len() ==> s.skip(1)[a] == s[a + 1] && s.skip(1)[b] == s[b
                    + 1]);
        }
        assert(s.skip(1)[i - 1] == s[i]);
        lemma_get_remove(s.skip(1), i - 1, k);
    }
}

/// Appending an entry under a fresh key adds exactly that binding.
pub proof fn lemma_get_push<V>(s: Seq<(String, V)>, e: (String, V), k: Seq<char>)
    requires
        forall|i: int| 0 <= i < s.len() ==> (#[trigger] s[i]).0@ != e.0@,
    ensures
        spec_get(s.push(e), k) == if k == e.0@ {
            Some(e.1)
        } else {
            spec_get(s, k)
        },
    decreases s.len(),
{
    if s.len() == 0 {
        assert(s.push(e)[0] == e);
        assert(s.push(e).skip(1) =~= Seq::<(String, V)>::empty());
        if k != e.0@ {
            lemma_get_absent(s.push(e).skip(1), k);
        }
    } else {
        assert(s.push(e)[0] == s[0]);
        assert(s.push(e).skip(1) =~= s.skip(1).push(e));
        assert(forall|i: int|
            0 <= i < s.skip(1).len() ==> (#[trigger] s.skip(1)[i]) == s[i + 1]);
        lemma_get_push(s.skip(1), e, k);
    }
}

/// Keyed storage backed by a vector of entries with pairwise distinct keys.
pub struct KeyedStore<V> {
    pub entries: Vec<(String, V)>,
}

impl<V> KeyedStore<V> {
    /// The well-formedness every operation preserves.
    pub open spec fn inv(&self) -> bool {
        distinct_keys(self.entries@)
    }

    /// The value bound to `k`.
    pub open spec fn spec_lookup(&self, k: Seq<char>) -> Option<V> {
        spec_get(self.entries@, k)
    }

    pub fn new() -> (r: Self)
        ensures
            r.inv(),
            forall|k: Seq<char>| r.spec_lookup(k) is None,
    {
        let r = KeyedStore { entries: Vec::new() };
        proof {
            assert forall|k: Seq<char>| r.spec_lookup(k) is None by {
                lemma_get_absent(r.entries@, k);
            }
        }
        r
    }

    fn find(&self, key: &String) -> (r: Option<usize>)
        requires
            self.inv(),
        ensures
            match r {
                Some(i) => i < self.entries@.len() && self.entries@[i as int].0@ == key@
                    && self.spec_lookup(key@) == Some(self.entries@[i as int].1),
                None => self.spec_lookup(key@) is None,
            },
    {
        let n = self.entries.len();
        let mut i: usize = 0;
        while i < n
            invariant
                self.inv(),
                n == self.entries@.len(),
                i <= n,
                forall|j: int| 0 <= j < i ==> (#[trigger] self.entries@[j]).0@ != key@,
            decreases n - i,
        {
            if self.entries[i].0 == *key {
                proof {
                    lemma_get_at(self.entries@, i as int);
                }
                return Some(i);
            }
            i = i + 1;
        }
        proof {
            lemma_get_absent(self.entries@, key@);
        }
        None
    }

    /// Whether a value is bound to `key`.
    pub fn contains(&self, key: &String) -> (r: bool)
        requires
            self.inv(),
        ensures
            r == (self.spec_lookup(key@) is Some),
    {
        self.find(key).is_some()
    }

    /// Borrow the value bound to `key`.
    pub fn get(&self, key: &String) -> (r: Option<&V>)
        requires
            self.inv(),
        ensures
            match r {
                Some(v) => self.spec_lookup(key@) == Some(*v),
                None => self.spec_lookup(key@) is None,
            },
    {
        match self.find(key) {
            Some(i) => Some(&self.entries[i].1),
            None => None,
        }
    }

    /// Bind `value` to `key`, replacing any earlier binding.
    pub fn put(&mut self, key: String, value: V)
        requires
            old(self).inv(),
        ensures
            final(self).inv(),
            final(self).spec_lookup(key@) == Some(value),
            forall|k: Seq<char>|
                k != key@ ==> final(self).spec_lookup(k) == old(self).spec_lookup(k),
    {
        self.delete(&key);
        proof {
            assert forall|i: int|
                0 <= i < self.entries@.len() implies (#[trigger] self.entries@[i]).0@
                != key@ by {
                lemma_get_at(self.entries@, i);
            }
            lemma_get_push(self.entries@, (key, value), key@);
        }
        let ghost pre = self.entries@;
        let ghost e = (key, value);
        self.entries.push((key, value));
        proof {
            assert forall|k: Seq<char>|
                k != key@ implies final(self).spec_lookup(k) == spec_get(pre, k) by {
                lemma_get_push(pre, e, k);
            }
            assert(distinct_keys(pre.push(e))) by {
                assert(forall|i: int| 0 <= i < pre.len() ==> pre.push(e)[i] == pre[i]);
            }
        }
    }

    /// Remove any binding of `key`.
    pub fn delete(&mut self, key: &String)
        requires
            old(self).inv(),
        ensures
            final(self).inv(),
            final(self).spec_lookup(key@) is None,
            forall|k: Seq<char>|
                k != key@ ==> final(self).spec_lookup(k) == old(self).spec_lookup(k),
    {
        let _ = self.take_once(key);
    }

    /// Atomically look up and remove the binding of `key`; the single-use
    /// consumption the callback replay defense rests on.
    pub fn take_once(&mut self, key: &String) -> (r: Option<V>)
        requires
            old(self).inv(),
        ensures
            final(self).inv(),
            r == old(self).spec_lookup(key@),
            final(self).spec_lookup(key@) is None,
            forall|k: Seq<char>|
                k != key@ ==> final(self).spec_lookup(k) == old(self).spec_lookup(k),
    {
        match self.find(key) {
            Some(i) => {
                let ghost pre = self.entries@;
                let (_, v) = self.entries.remove(i);
                proof {
                    assert forall|k: Seq<char>| true implies spec_get(pre.remove(i as int), k)
                        == if k == pre[i as int].0@ {
                        None::<V>
                    } else {
                        spec_get(pre, k)
                    } by {
                        lemma_get_remove(pre, i as int, k);
                    }
                    assert(distinct_keys(pre.remove(i as int))) by {
                        assert(forall|a: int|
                            0 <= a < pre.remove(i as int).len() ==> pre.remove(i as int)[a]
                                == (if a < i as int {
                                pre[a]
                            } else {
                                pre[a + 1]
                            }));
                    }
                }
                Some(v)
            },
            None => {
                proof {
                    assert forall|i: int|
                        0 <= i < self.entries@.len() implies (#[trigger] self.entries@[i]).0@
                        != key@ by {
                        lemma_get_at(self.entries@, i);
                    }
                }
                None
            },
        }
    }
}

} // verus!
