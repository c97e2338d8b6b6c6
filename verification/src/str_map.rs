use vstd::prelude::*;

verus! {

/// Interpretation of an entry sequence as a finite map from key text to
/// value text; on duplicate keys the later entry wins.
pub open spec fn str_entries_map(s: Seq<(String, String)>) -> Map<Seq<char>, Seq<char>>
    decreases s.len(),
{
    if s.len() == 0 {
        Map::empty()
    } else {
        str_entries_map(s.drop_last()).insert(s.last().0@, s.last().1@)
    }
}

/// No two entries share a key.
pub open spec fn str_keys_unique(s: Seq<(String, String)>) -> bool {
    forall|i: int, j: int| 0 <= i < j < s.len() ==> (#[trigger] s[i].0@) != (#[trigger] s[j].0@)
}

proof fn lemma_str_entries_map_domain(s: Seq<(String, String)>, k: Seq<char>)
    ensures
        str_entries_map(s).contains_key(k) <==> exists|i: int|
            0 <= i < s.len() && (#[trigger] s[i].0@) == k,
    decreases s.len(),
{
    if s.len() > 0 {
        lemma_str_entries_map_domain(s.drop_last(), k);
        if s.last().0@ == k {
            assert(s[s.len() - 1].0@ == k);
        } else if str_entries_map(s).contains_key(k) {
            let i = choose|i: int| 0 <= i < s.drop_last().len() && (#[trigger] s.drop_last()[i].0@) == k;
            assert(s[i].0@ == k);
        } else {
            assert forall|i: int| 0 <= i < s.len() implies (#[trigger] s[i].0@) != k by {
                if i < s.len() - 1 {
                    assert(s.drop_last()[i].0@ != k);
                }
            }
        }
    }
}

proof fn lemma_str_entries_map_index(s: Seq<(String, String)>, i: int)
    requires
        str_keys_unique(s),
        0 <= i < s.len(),
    ensures
        str_entries_map(s).contains_key(s[i].0@),
        str_entries_map(s)[s[i].0@] == s[i].1@,
    decreases s.len(),
{
    if i == s.len() - 1 {
        assert(s.last() == s[i]);
    } else {
        assert(str_keys_unique(s.drop_last()));
        assert(s.drop_last()[i] == s[i]);
        lemma_str_entries_map_index(s.drop_last(), i);
        assert(s[i].0@ != s.last().0@);
    }
}

proof fn lemma_str_entries_map_absent(s: Seq<(String, String)>, k: Seq<char>)
    requires
        forall|i: int| 0 <= i < s.len() ==> (#[trigger] s[i].0@) != k,
    ensures
        !str_entries_map(s).contains_key(k),
{
    lemma_str_entries_map_domain(s, k);
}

proof fn lemma_str_entries_map_remove_at(s: Seq<(String, String)>, i: int)
    requires
        str_keys_unique(s),
        0 <= i < s.len(),
    ensures
        str_keys_unique(s.remove(i)),
        str_entries_map(s.remove(i)) =~= str_entries_map(s).remove(s[i].0@),
    decreases s.len(),
{
    let k = s[i].0@;
    if i == s.len() - 1 {
        assert(s.remove(i) =~= s.drop_last());
        assert forall|j: int| 0 <= j < s.drop_last().len() implies (#[trigger] s.drop_last()[j].0@) != k by {
            assert(s[j].0@ != s[s.len() - 1].0@);
        }
        lemma_str_entries_map_absent(s.drop_last(), k);
    } else {
        assert(str_keys_unique(s.drop_last()));
        assert(s.drop_last()[i] == s[i]);
        lemma_str_entries_map_remove_at(s.drop_last(), i);
        assert(s.remove(i).drop_last() =~= s.drop_last().remove(i));
        assert(s.remove(i).last() == s.last());
        assert(s.last().0@ != k);
    }
}

/// A string-keyed map of string values with replace-on-insert semantics.
#[derive(Debug)]
pub struct StrMap {
    entries: Vec<(String, String)>,
}

impl View for StrMap {
    type V = Map<Seq<char>, Seq<char>>;

    closed spec fn view(&self) -> Map<Seq<char>, Seq<char>> {
        str_entries_map(self.entries@)
    }
}

impl Default for StrMap {
    /// Creates an empty map.
    fn default() -> (m: StrMap)
        ensures
            m.wf(),
            m@ == Map::<Seq<char>, Seq<char>>::empty(),
    {
        StrMap { entries: Vec::new() }
    }
}

impl StrMap {
    /// Internal invariant: entries carry pairwise distinct keys.
    pub closed spec fn wf(self) -> bool {
        str_keys_unique(self.entries@)
    }

    /// Index of the entry with key `k`, if any.
    fn find_idx(&self, k: &str) -> (r: Option<usize>)
        ensures
            match r {
                Some(i) => 0 <= i < self.entries@.len() && self.entries@[i as int].0@ == k@,
                None => forall|i: int|
                    0 <= i < self.entries@.len() ==> (#[trigger] self.entries@[i].0@) != k@,
            },
    {
        let key: String = k.to_owned();
        let n: usize = self.entries.len();
        let mut i: usize = 0;
        while i < n
            invariant
                key@ == k@,
                n == self.entries@.len(),
                i <= n,
                forall|j: int| 0 <= j < i ==> (#[trigger] self.entries@[j].0@) != k@,
            decreases n - i,
        {
            if self.entries[i].0 == key {
                return Some(i);
            }
            i = i + 1;
        }
        None
    }

    /// Stores `value` under `key`, replacing any value already present for
    /// that key.
    pub fn insert(&mut self, key: String, value: String)
        requires
            old(self).wf(),
        ensures
            final(self).wf(),
            final(self)@ == old(self)@.insert(key@, value@),
    {
        let _ = self.remove(key.as_str());
        let ghost mid = self.entries@;
        proof {
            lemma_str_entries_map_domain(mid, key@);
        }
        let ghost kview = key@;
        let ghost vview = value@;
        self.entries.push((key, value));
        proof {
            assert(self.entries@.drop_last() =~= mid);
            assert(str_entries_map(self.entries@) =~= str_entries_map(mid).insert(kview, vview));
            assert(str_entries_map(mid).insert(kview, vview) =~= old(self)@.insert(kview, vview));
            assert forall|i: int, j: int| 0 <= i < j < self.entries@.len()
                implies (#[trigger] self.entries@[i].0@) != (#[trigger] self.entries@[j].0@) by {
                if j == self.entries@.len() - 1 {
                    assert(mid[i].0@ != kview);
                } else {
                    assert(mid[i].0@ != mid[j].0@);
                }
            }
        }
    }

    /// Returns the value stored under `k`, if any.
    pub fn get(&self, k: &str) -> (r: Option<&String>)
        requires
            self.wf(),
        ensures
            match r {
                Some(v) => self@.contains_key(k@) && v@ == self@[k@],
                None => !self@.contains_key(k@),
            },
    {
        match self.find_idx(k) {
            Some(i) => {
                proof {
                    lemma_str_entries_map_index(self.entries@, i as int);
                }
                Some(&self.entries[i].1)
            },
            None => {
                proof {
                    lemma_str_entries_map_absent(self.entries@, k@);
                }
                None
            },
        }
    }

    /// Whether a value is stored under `k`.
    pub fn contains(&self, k: &str) -> (r: bool)
        requires
            self.wf(),
        ensures
            r == self@.contains_key(k@),
    {
        match self.find_idx(k) {
            Some(i) => {
                proof {
                    lemma_str_entries_map_index(self.entries@, i as int);
                }
                true
            },
            None => {
                proof {
                    lemma_str_entries_map_absent(self.entries@, k@);
                }
                false
            },
        }
    }

    /// Removes and returns the value stored under `k`, if any.
    pub fn remove(&mut self, k: &str) -> (r: Option<String>)
        requires
            old(self).wf(),
        ensures
            final(self).wf(),
            final(self)@ == old(self)@.remove(k@),
            match r {
                Some(v) => old(self)@.contains_key(k@) && v@ == old(self)@[k@],
                None => !old(self)@.contains_key(k@),
            },
    {
        match self.find_idx(k) {
            Some(i) => {
                proof {
                    lemma_str_entries_map_index(self.entries@, i as int);
                    lemma_str_entries_map_remove_at(self.entries@, i as int);
                }
                let e = self.entries.remove(i);
                Some(e.1)
            },
            None => {
                proof {
                    lemma_str_entries_map_absent(self.entries@, k@);
                    assert(old(self)@.remove(k@) =~= old(self)@);
                }
                None
            },
        }
    }

    /// Drops all entries.
    pub fn clear(&mut self)
        ensures
            final(self).wf(),
            final(self)@ == Map::<Seq<char>, Seq<char>>::empty(),
    {
        self.entries.clear();
        proof {
            assert(self.entries@ =~= Seq::<(String, String)>::empty());
        }
    }

    /// Moves all of `other`'s entries into `self`; on a key held by both,
    /// `other`'s value wins.
    pub fn extend(&mut self, other: StrMap)
        requires
            old(self).wf(),
            other.wf(),
        ensures
            final(self).wf(),
            final(self)@ == old(self)@.union_prefer_right(other@),
    {
        let ghost orig = other.entries@;
        let mut rest = other;
        let ghost mut j: int = 0;
        proof {
            assert(orig.take(0) =~= Seq::<(String, String)>::empty());
            assert(old(self)@.union_prefer_right(str_entries_map(orig.take(0))) =~= old(self)@);
        }
        while rest.entries.len() > 0
            invariant
                0 <= j <= orig.len(),
                rest.entries@ =~= orig.skip(j),
                self.wf(),
                self@ == old(self)@.union_prefer_right(str_entries_map(orig.take(j))),
            decreases orig.len() - j,
        {
            let e = rest.entries.remove(0);
            proof {
                assert(e == orig[j]);
            }
            self.insert(e.0, e.1);
            proof {
                assert(orig.take(j + 1).drop_last() =~= orig.take(j));
                assert(orig.take(j + 1).last() == orig[j]);
                assert(str_entries_map(orig.take(j + 1)) =~= str_entries_map(orig.take(j)).insert(
                    orig[j].0@,
                    orig[j].1@,
                ));
                assert(old(self)@.union_prefer_right(str_entries_map(orig.take(j))).insert(
                    orig[j].0@,
                    orig[j].1@,
                ) =~= old(self)@.union_prefer_right(str_entries_map(orig.take(j + 1))));
                j = j + 1;
                assert(rest.entries@ =~= orig.skip(j));
            }
        }
        proof {
            assert(orig.skip(j).len() == 0);
            assert(j == orig.len());
            assert(orig.take(j) =~= orig);
        }
    }
}

} // verus!
