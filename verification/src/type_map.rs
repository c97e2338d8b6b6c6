use vstd::prelude::*;

verus! {

/// Identity token for a stored value's type.
///
/// The store keeps at most one value per token. Because the token is the
/// tag of the corresponding [`Value`] variant, a value retrieved under a
/// token is guaranteed by construction to carry that token's payload type.
#[derive(Clone, Copy, Debug, PartialEq, Eq, Structural)]
pub enum TypeKey {
    I8,
    I16,
    I32,
    I64,
    I128,
    U8,
    U16,
    U32,
    U64,
    U128,
    Bool,
    Text,
}

/// A payload held by the type-erased store: one variant per supported type.
#[derive(Clone, Debug, PartialEq)]
pub enum Value {
    I8(i8),
    I16(i16),
    I32(i32),
    I64(i64),
    I128(i128),
    U8(u8),
    U16(u16),
    U32(u32),
    U64(u64),
    U128(u128),
    Bool(bool),
    Text(String),
}

impl Value {
    /// The identity token of this value's type.
    pub open spec fn key_spec(self) -> TypeKey {
        match self {
            Value::I8(_) => TypeKey::I8,
            Value::I16(_) => TypeKey::I16,
            Value::I32(_) => TypeKey::I32,
            Value::I64(_) => TypeKey::I64,
            Value::I128(_) => TypeKey::I128,
            Value::U8(_) => TypeKey::U8,
            Value::U16(_) => TypeKey::U16,
            Value::U32(_) => TypeKey::U32,
            Value::U64(_) => TypeKey::U64,
            Value::U128(_) => TypeKey::U128,
            Value::Bool(_) => TypeKey::Bool,
            Value::Text(_) => TypeKey::Text,
        }
    }

    /// Computes the identity token of this value's type.
    pub fn key(&self) -> (k: TypeKey)
        ensures
            k == self.key_spec(),
    {
        match self {
            Value::I8(_) => TypeKey::I8,
            Value::I16(_) => TypeKey::I16,
            Value::I32(_) => TypeKey::I32,
            Value::I64(_) => TypeKey::I64,
            Value::I128(_) => TypeKey::I128,
            Value::U8(_) => TypeKey::U8,
            Value::U16(_) => TypeKey::U16,
            Value::U32(_) => TypeKey::U32,
            Value::U64(_) => TypeKey::U64,
            Value::U128(_) => TypeKey::U128,
            Value::Bool(_) => TypeKey::Bool,
            Value::Text(_) => TypeKey::Text,
        }
    }
}

/// Interpretation of an entry sequence as a finite map from type identity
/// to value; on duplicate tokens the later entry wins.
pub open spec fn entries_map(s: Seq<Value>) -> Map<TypeKey, Value>
    decreases s.len(),
{
    if s.len() == 0 {
        Map::empty()
    } else {
        entries_map(s.drop_last()).insert(s.last().key_spec(), s.last())
    }
}

/// No two entries share a type identity token.
pub open spec fn keys_unique(s: Seq<Value>) -> bool {
    forall|i: int, j: int|
        0 <= i < j < s.len() ==> (#[trigger] s[i].key_spec()) != (#[trigger] s[j].key_spec())
}

proof fn lemma_entries_map_domain(s: Seq<Value>, k: TypeKey)
    ensures
        entries_map(s).contains_key(k) <==> exists|i: int|
            0 <= i < s.len() && (#[trigger] s[i].key_spec()) == k,
    decreases s.len(),
{
    if s.len() > 0 {
        lemma_entries_map_domain(s.drop_last(), k);
        if s.last().key_spec() == k {
            assert(s[s.len() - 1].key_spec() == k);
        } else if entries_map(s).contains_key(k) {
            let i = choose|i: int| 0 <= i < s.drop_last().len() && (#[trigger] s.drop_last()[i].key_spec()) == k;
            assert(s[i].key_spec() == k);
        } else {
            assert forall|i: int| 0 <= i < s.len() implies (#[trigger] s[i].key_spec()) != k by {
                if i < s.len() - 1 {
                    assert(s.drop_last()[i].key_spec() != k);
                }
            }
        }
    }
}

proof fn lemma_entries_map_index(s: Seq<Value>, i: int)
    requires
        keys_unique(s),
        0 <= i < s.len(),
    ensures
        entries_map(s).contains_key(s[i].key_spec()),
        entries_map(s)[s[i].key_spec()] == s[i],
    decreases s.len(),
{
    if i == s.len() - 1 {
        assert(s.last() == s[i]);
    } else {
        assert(keys_unique(s.drop_last()));
        assert(s.drop_last()[i] == s[i]);
        lemma_entries_map_index(s.drop_last(), i);
        assert(s[i].key_spec() != s.last().key_spec());
    }
}

proof fn lemma_entries_map_absent(s: Seq<Value>, k: TypeKey)
    requires
        forall|i: int| 0 <= i < s.len() ==> (#[trigger] s[i].key_spec()) != k,
    ensures
        !entries_map(s).contains_key(k),
{
    lemma_entries_map_domain(s, k);
}

proof fn lemma_entries_map_remove_at(s: Seq<Value>, i: int)
    requires
        keys_unique(s),
        0 <= i < s.len(),
    ensures
        keys_unique(s.remove(i)),
        entries_map(s.remove(i)) =~= entries_map(s).remove(s[i].key_spec()),
    decreases s.len(),
{
    let k = s[i].key_spec();
    if i == s.len() - 1 {
        assert(s.remove(i) =~= s.drop_last());
        assert forall|j: int| 0 <= j < s.drop_last().len() implies (#[trigger] s.drop_last()[j].key_spec()) != k by {
            assert(s[j].key_spec() != s[s.len() - 1].key_spec());
        }
        lemma_entries_map_absent(s.drop_last(), k);
    } else {
        assert(keys_unique(s.drop_last()));
        assert(s.drop_last()[i] == s[i]);
        lemma_entries_map_remove_at(s.drop_last(), i);
        assert(s.remove(i).drop_last() =~= s.drop_last().remove(i));
        assert(s.remove(i).last() == s.last());
        assert(s.last().key_spec() != k);
    }
}

/// Stores at most one value per type identity, keyed by the value's own
/// [`TypeKey`].
#[derive(Debug)]
pub struct TypeMap {
    entries: Vec<Value>,
}

impl View for TypeMap {
    type V = Map<TypeKey, Value>;

    closed spec fn view(&self) -> Map<TypeKey, Value> {
        entries_map(self.entries@)
    }
}

impl Default for TypeMap {
    /// Creates an empty store.
    fn default() -> (m: TypeMap)
        ensures
            m.wf(),
            m@ == Map::<TypeKey, Value>::empty(),
    {
        TypeMap { entries: Vec::new() }
    }
}

impl TypeMap {
    /// Internal invariant: entries carry pairwise distinct type identities.
    pub closed spec fn wf(self) -> bool {
        keys_unique(self.entries@)
    }

    /// Index of the entry with identity `k`, if any.
    fn find_idx(&self, k: TypeKey) -> (r: Option<usize>)
        ensures
            match r {
                Some(i) => 0 <= i < self.entries@.len() && self.entries@[i as int].key_spec() == k,
                None => forall|i: int|
                    0 <= i < self.entries@.len() ==> (#[trigger] self.entries@[i].key_spec()) != k,
            },
    {
        let n: usize = self.entries.len();
        let mut i: usize = 0;
        while i < n
            invariant
                n == self.entries@.len(),
                i <= n,
                forall|j: int| 0 <= j < i ==> (#[trigger] self.entries@[j].key_spec()) != k,
            decreases n - i,
        {
            if self.entries[i].key() == k {
                return Some(i);
            }
            i = i + 1;
        }
        None
    }

    /// Stores `v` under its type identity, replacing any value of the same
    /// type already present.
    pub fn insert(&mut self, v: Value)
        requires
            old(self).wf(),
        ensures
            final(self).wf(),
            final(self)@ == old(self)@.insert(v.key_spec(), v),
    {
        let k = v.key();
        let _ = self.remove(k);
        let ghost mid = self.entries@;
        proof {
            lemma_entries_map_domain(mid, k);
        }
        self.entries.push(v);
        proof {
            assert(self.entries@.drop_last() =~= mid);
            assert(entries_map(self.entries@) =~= entries_map(mid).insert(k, v));
            assert(entries_map(mid).insert(k, v) =~= old(self)@.insert(v.key_spec(), v));
            assert forall|i: int, j: int| 0 <= i < j < self.entries@.len()
                implies (#[trigger] self.entries@[i].key_spec()) != (#[trigger] self.entries@[j].key_spec()) by {
                if j == self.entries@.len() - 1 {
                    assert(mid[i].key_spec() != k);
                } else {
                    assert(mid[i].key_spec() != mid[j].key_spec());
                }
            }
        }
    }

    /// Returns the stored value of type identity `k`, if present.
    pub fn get(&self, k: TypeKey) -> (r: Option<&Value>)
        requires
            self.wf(),
        ensures
            match r {
                Some(v) => self@.contains_key(k) && *v == self@[k] && v.key_spec() == k,
                None => !self@.contains_key(k),
            },
    {
        match self.find_idx(k) {
            Some(i) => {
                proof {
                    lemma_entries_map_index(self.entries@, i as int);
                }
                Some(&self.entries[i])
            },
            None => {
                proof {
                    lemma_entries_map_absent(self.entries@, k);
                }
                None
            },
        }
    }

    /// Whether a value of type identity `k` is present.
    pub fn contains(&self, k: TypeKey) -> (r: bool)
        requires
            self.wf(),
        ensures
            r == self@.contains_key(k),
    {
        match self.find_idx(k) {
            Some(i) => {
                proof {
                    lemma_entries_map_index(self.entries@, i as int);
                }
                true
            },
            None => {
                proof {
                    lemma_entries_map_absent(self.entries@, k);
                }
                false
            },
        }
    }

    /// Removes and returns the stored value of type identity `k`, if present.
    pub fn remove(&mut self, k: TypeKey) -> (r: Option<Value>)
        requires
            old(self).wf(),
        ensures
            final(self).wf(),
            final(self)@ == old(self)@.remove(k),
            r == if old(self)@.contains_key(k) {
                Some(old(self)@[k])
            } else {
                None::<Value>
            },
    {
        match self.find_idx(k) {
            Some(i) => {
                proof {
                    lemma_entries_map_index(self.entries@, i as int);
                    lemma_entries_map_remove_at(self.entries@, i as int);
                }
                let v = self.entries.remove(i);
                Some(v)
            },
            None => {
                proof {
                    lemma_entries_map_absent(self.entries@, k);
                    assert(old(self)@.remove(k) =~= old(self)@);
                }
                None
            },
        }
    }

    /// Drops all entries.
    pub fn clear(&mut self)
        ensures
            final(self).wf(),
            final(self)@ == Map::<TypeKey, Value>::empty(),
    {
        self.entries.clear();
        proof {
            assert(self.entries@ =~= Seq::<Value>::empty());
        }
    }

    /// Moves all of `other`'s entries into `self`; on a type identity held
    /// by both, `other`'s value wins.
    pub fn extend(&mut self, other: TypeMap)
        requires
            old(self).wf(),
            other.wf(),
        ensures
            final(self).wf(),
            final(self)@ == old(self)@.union_prefer_right(other@),
    {
        let ghost orig = other.entries@;
        let mut rest = other;
        let ghost mut j: int = 0;
        proof {
            assert(orig.take(0) =~= Seq::<Value>::empty());
            assert(old(self)@.union_prefer_right(entries_map(orig.take(0))) =~= old(self)@);
        }
        while rest.entries.len() > 0
            invariant
                0 <= j <= orig.len(),
                rest.entries@ =~= orig.skip(j),
                self.wf(),
                self@ == old(self)@.union_prefer_right(entries_map(orig.take(j))),
            decreases orig.len() - j,
        {
            let v = rest.entries.remove(0);
            proof {
                assert(v == orig[j]);
            }
            self.insert(v);
            proof {
                assert(orig.take(j + 1).drop_last() =~= orig.take(j));
                assert(orig.take(j + 1).last() == orig[j]);
                assert(entries_map(orig.take(j + 1)) =~= entries_map(orig.take(j)).insert(
                    orig[j].key_spec(),
                    orig[j],
                ));
                assert(old(self)@.union_prefer_right(entries_map(orig.take(j))).insert(
                    orig[j].key_spec(),
                    orig[j],
                ) =~= old(self)@.union_prefer_right(entries_map(orig.take(j + 1))));
                j = j + 1;
                assert(rest.entries@ =~= orig.skip(j));
            }
        }
        proof {
            assert(orig.skip(j).len() == 0);
            assert(j == orig.len());
            assert(orig.take(j) =~= orig);
        }
    }
}

} // verus!
