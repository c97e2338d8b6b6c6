//! A request-scoped metadata carrier for distributed call chains.
//!
//! A [`MetaInfo`] lets a chain of components pass typed and string-keyed
//! values forward without a shared global registry: each scope owns its own
//! entries, derives child scopes that read through to the parent on a miss,
//! and mutates only itself. A [`Node`] carries key-value entries across call
//! hops in independent channels whose names state how long an entry is
//! expected to survive.

mod backward;
mod forward;
mod kv;
mod str_map;
mod type_map;

pub use backward::Backward;
pub use forward::Forward;
pub use kv::{Channel, Node, KV};
pub use str_map::StrMap;
pub use type_map::{TypeKey, TypeMap, Value};

use vstd::prelude::*;

verus! {

use std::sync::Arc;

/// A scope of the context tree: its own typed and string entries, and an
/// optional shared reference to the parent scope.
///
/// Lookups check the current scope first and fall back to the parent chain
/// on a miss; every mutation touches only the current scope. A parent,
/// once shared, is reachable read-only through its children: the intended
/// discipline is single-writer-then-freeze — exactly one owner mutates a
/// scope, and a scope already shared with children is no longer mutated.
#[derive(Debug)]
pub struct MetaInfo {
    /// Parent is read-only: when a key is missing in the current scope it
    /// is searched in the parent scope.
    parent: Option<Arc<MetaInfo>>,
    tmap: Option<TypeMap>,
    smap: Option<StrMap>,
}

impl MetaInfo {
    /// The parent scope, if this scope was derived from one.
    pub closed spec fn parent_view(self) -> Option<MetaInfo> {
        match self.parent {
            Some(p) => Some(*p),
            None => None,
        }
    }

    /// The typed entries this scope itself owns.
    pub closed spec fn local_typed(self) -> Map<TypeKey, Value> {
        match self.tmap {
            Some(t) => t@,
            None => Map::empty(),
        }
    }

    /// The string entries this scope itself owns.
    pub closed spec fn local_strings(self) -> Map<Seq<char>, Seq<char>> {
        match self.smap {
            Some(s) => s@,
            None => Map::empty(),
        }
    }

    /// Every scope of the chain satisfies its maps' invariants.
    pub closed spec fn wf(self) -> bool
        decreases self,
    {
        &&& (match self.tmap {
            Some(t) => t.wf(),
            None => true,
        })
        &&& (match self.smap {
            Some(s) => s.wf(),
            None => true,
        })
        &&& (match self.parent {
            Some(p) => p.wf(),
            None => true,
        })
    }

    /// Fallback lookup of a typed value: the current scope's entry if it
    /// has one, else the nearest ancestor's.
    pub closed spec fn lookup_typed(self, k: TypeKey) -> Option<Value>
        decreases self,
    {
        if self.local_typed().contains_key(k) {
            Some(self.local_typed()[k])
        } else {
            match self.parent {
                Some(p) => p.lookup_typed(k),
                None => None,
            }
        }
    }

    /// Fallback lookup of a string value: the current scope's entry if it
    /// has one, else the nearest ancestor's.
    pub closed spec fn lookup_string(self, k: Seq<char>) -> Option<Seq<char>>
        decreases self,
    {
        if self.local_strings().contains_key(k) {
            Some(self.local_strings()[k])
        } else {
            match self.parent {
                Some(p) => p.lookup_string(k),
                None => None,
            }
        }
    }

    /// Creates an empty root scope.
    pub fn new() -> (m: MetaInfo)
        ensures
            m.wf(),
            m.parent_view() is None,
            m.local_typed() == Map::<TypeKey, Value>::empty(),
            m.local_strings() == Map::<Seq<char>, Seq<char>>::empty(),
    {
        MetaInfo { parent: None, tmap: None, smap: None }
    }

    /// Creates a child scope of the parent given. When a key is not found
    /// in the child, lookup continues in the parent.
    pub fn from(parent: Arc<MetaInfo>) -> (m: MetaInfo)
        requires
            parent.wf(),
        ensures
            m.wf(),
            m.parent_view() == Some(*parent),
            m.local_typed() == Map::<TypeKey, Value>::empty(),
            m.local_strings() == Map::<Seq<char>, Seq<char>>::empty(),
    {
        MetaInfo { parent: Some(parent), tmap: None, smap: None }
    }

    /// Stores a typed value in this scope, shadowing but never altering a
    /// parent entry of the same type.
    pub fn insert(&mut self, val: Value)
        requires
            old(self).wf(),
        ensures
            final(self).wf(),
            final(self).parent_view() == old(self).parent_view(),
            final(self).local_typed() == old(self).local_typed().insert(val.key_spec(), val),
            final(self).local_strings() == old(self).local_strings(),
    {
        let mut t = match self.tmap.take() {
            Some(t) => t,
            None => TypeMap::default(),
        };
        t.insert(val);
        self.tmap = Some(t);
    }

    /// Stores a string value in this scope, shadowing but never altering a
    /// parent entry of the same key.
    pub fn insert_string(&mut self, key: String, val: String)
        requires
            old(self).wf(),
        ensures
            final(self).wf(),
            final(self).parent_view() == old(self).parent_view(),
            final(self).local_typed() == old(self).local_typed(),
            final(self).local_strings() == old(self).local_strings().insert(key@, val@),
    {
        let mut s = match self.smap.take() {
            Some(s) => s,
            None => StrMap::default(),
        };
        s.insert(key, val);
        self.smap = Some(s);
    }

    /// Whether a value of type identity `k` is reachable from this scope,
    /// falling back to the parent chain.
    pub fn contains(&self, k: TypeKey) -> (r: bool)
        requires
            self.wf(),
        ensures
            r == (self.lookup_typed(k) is Some),
        decreases *self,
    {
        let local = match &self.tmap {
            Some(t) => t.contains(k),
            None => false,
        };
        if local {
            true
        } else {
            match &self.parent {
                Some(p) => p.contains(k),
                None => false,
            }
        }
    }

    /// Whether a string value under `key` is reachable from this scope,
    /// falling back to the parent chain.
    pub fn contains_string(&self, key: &str) -> (r: bool)
        requires
            self.wf(),
        ensures
            r == (self.lookup_string(key@) is Some),
        decreases *self,
    {
        let local = match &self.smap {
            Some(s) => s.contains(key),
            None => false,
        };
        if local {
            true
        } else {
            match &self.parent {
                Some(p) => p.contains_string(key),
                None => false,
            }
        }
    }

    /// Returns the typed value reachable from this scope under identity
    /// `k`: this scope's entry if it has one, else the nearest ancestor's.
    /// Whichever scope provides the value, it carries the requested
    /// identity: the cast back to the requested type cannot fail.
    pub fn get(&self, k: TypeKey) -> (r: Option<&Value>)
        requires
            self.wf(),
        ensures
            match r {
                Some(v) => self.lookup_typed(k) == Some(*v) && v.key_spec() == k,
                None => self.lookup_typed(k) is None,
            },
        decreases *self,
    {
        let local = match &self.tmap {
            Some(t) => t.get(k),
            None => None,
        };
        match local {
            Some(v) => Some(v),
            None => match &self.parent {
                Some(p) => p.get(k),
                None => None,
            },
        }
    }

    /// Returns the string value reachable from this scope under `key`:
    /// this scope's entry if it has one, else the nearest ancestor's.
    pub fn get_string(&self, key: &str) -> (r: Option<&String>)
        requires
            self.wf(),
        ensures
            match r {
                Some(v) => self.lookup_string(key@) == Some(v@),
                None => self.lookup_string(key@) is None,
            },
        decreases *self,
    {
        let local = match &self.smap {
            Some(s) => s.get(key),
            None => None,
        };
        match local {
            Some(v) => Some(v),
            None => match &self.parent {
                Some(p) => p.get_string(key),
                None => None,
            },
        }
    }

    /// Removes the typed value of identity `k` from this scope only and
    /// returns it; a parent entry is never touched, so removing a
    /// shadowing entry makes the parent's visible again, and removing from
    /// a scope that never held the type is a silent no-op.
    pub fn remove(&mut self, k: TypeKey) -> (r: Option<Value>)
        requires
            old(self).wf(),
        ensures
            final(self).wf(),
            final(self).parent_view() == old(self).parent_view(),
            final(self).local_typed() == old(self).local_typed().remove(k),
            final(self).local_strings() == old(self).local_strings(),
            r == if old(self).local_typed().contains_key(k) {
                Some(old(self).local_typed()[k])
            } else {
                None::<Value>
            },
    {
        match self.tmap.take() {
            Some(mut t) => {
                let r = t.remove(k);
                self.tmap = Some(t);
                r
            },
            None => {
                proof {
                    assert(old(self).local_typed().remove(k) =~= old(self).local_typed());
                }
                None
            },
        }
    }

    /// Removes the string value under `key` from this scope only and
    /// returns it; a parent entry is never touched.
    pub fn remove_string(&mut self, key: &str) -> (r: Option<String>)
        requires
            old(self).wf(),
        ensures
            final(self).wf(),
            final(self).parent_view() == old(self).parent_view(),
            final(self).local_typed() == old(self).local_typed(),
            final(self).local_strings() == old(self).local_strings().remove(key@),
            match r {
                Some(v) => old(self).local_strings().contains_key(key@) && v@ == old(self).local_strings()[key@],
                None => !old(self).local_strings().contains_key(key@),
            },
    {
        match self.smap.take() {
            Some(mut s) => {
                let r = s.remove(key);
                self.smap = Some(s);
                r
            },
            None => {
                proof {
                    assert(old(self).local_strings().remove(key@) =~= old(self).local_strings());
                }
                None
            },
        }
    }

    /// Empties this scope's own typed and string entries; the parent is
    /// untouched and stays reachable through fallback.
    pub fn clear(&mut self)
        requires
            old(self).wf(),
        ensures
            final(self).wf(),
            final(self).parent_view() == old(self).parent_view(),
            final(self).local_typed() == Map::<TypeKey, Value>::empty(),
            final(self).local_strings() == Map::<Seq<char>, Seq<char>>::empty(),
    {
        match self.tmap.take() {
            Some(mut t) => {
                t.clear();
                self.tmap = Some(t);
            },
            None => {},
        }
        match self.smap.take() {
            Some(mut s) => {
                s.clear();
                self.smap = Some(s);
            },
            None => {},
        }
    }

    /// Merges `other`'s own entries into this scope's own entries, with
    /// `other`'s value winning a collision; `other`'s parent, if any, is
    /// ignored.
    pub fn extend(&mut self, other: MetaInfo)
        requires
            old(self).wf(),
            other.wf(),
        ensures
            final(self).wf(),
            final(self).parent_view() == old(self).parent_view(),
            final(self).local_typed() == old(self).local_typed().union_prefer_right(
                other.local_typed(),
            ),
            final(self).local_strings() == old(self).local_strings().union_prefer_right(
                other.local_strings(),
            ),
    {
        let MetaInfo { parent: _, tmap: other_tmap, smap: other_smap } = other;
        match other_tmap {
            Some(t) => {
                let mut mine = match self.tmap.take() {
                    Some(m) => m,
                    None => TypeMap::default(),
                };
                mine.extend(t);
                self.tmap = Some(mine);
            },
            None => {
                proof {
                    assert(old(self).local_typed().union_prefer_right(other.local_typed())
                        =~= old(self).local_typed());
                }
            },
        }
        match other_smap {
            Some(s) => {
                let mut mine = match self.smap.take() {
                    Some(m) => m,
                    None => StrMap::default(),
                };
                mine.extend(s);
                self.smap = Some(mine);
            },
            None => {
                proof {
                    assert(old(self).local_strings().union_prefer_right(other.local_strings())
                        =~= old(self).local_strings());
                }
            },
        }
    }
}

impl Default for MetaInfo {
    /// Creates an empty root scope.
    fn default() -> (m: MetaInfo)
        ensures
            m.wf(),
            m.parent_view() is None,
            m.local_typed() == Map::<TypeKey, Value>::empty(),
            m.local_strings() == Map::<Seq<char>, Seq<char>>::empty(),
    {
        MetaInfo::new()
    }
}

/// Parent fallback: a child scope that holds no own entry for a type
/// yields the value its parent's lookup yields for that type.
pub proof fn lemma_parent_fallback(r: MetaInfo, c: MetaInfo, k: TypeKey, v: Value)
    requires
        c.parent_view() == Some(r),
        !c.local_typed().contains_key(k),
        r.lookup_typed(k) == Some(v),
    ensures
        c.lookup_typed(k) == Some(v),
{
}

/// Parent fallback for string entries: a child scope that holds no own
/// entry for a key yields the value its parent's lookup yields for that
/// key.
pub proof fn lemma_parent_fallback_string(r: MetaInfo, c: MetaInfo, k: Seq<char>, v: Seq<char>)
    requires
        c.parent_view() == Some(r),
        !c.local_strings().contains_key(k),
        r.lookup_string(k) == Some(v),
    ensures
        c.lookup_string(k) == Some(v),
{
}

/// Shadow then unshadow: a child's own entry shadows the parent's value;
/// once the child removes its own entry again, the parent's value
/// reappears — removal never touches the parent.
pub proof fn lemma_shadow_then_unshadow(
    r: MetaInfo,
    c_shadow: MetaInfo,
    c_unshadow: MetaInfo,
    k: TypeKey,
    v: Value,
    v2: Value,
)
    requires
        c_shadow.parent_view() == Some(r),
        c_shadow.local_typed().contains_key(k),
        c_shadow.local_typed()[k] == v2,
        r.lookup_typed(k) == Some(v),
        c_unshadow.parent_view() == Some(r),
        c_unshadow.local_typed() == c_shadow.local_typed().remove(k),
    ensures
        c_shadow.lookup_typed(k) == Some(v2),
        c_unshadow.lookup_typed(k) == Some(v),
{
    lemma_parent_fallback(r, c_unshadow, k, v);
}

/// No-op removal: removing a type a scope never held locally leaves the
/// scope's own entries untouched, and lookup — including what the parent
/// chain provides — is unchanged.
pub proof fn lemma_noop_removal(d: MetaInfo, d2: MetaInfo, k: TypeKey)
    requires
        !d.local_typed().contains_key(k),
        d2.local_typed() == d.local_typed().remove(k),
        d2.parent_view() == d.parent_view(),
    ensures
        d2.local_typed() == d.local_typed(),
        d2.lookup_typed(k) == d.lookup_typed(k),
{
    assert(d.local_typed().remove(k) =~= d.local_typed());
}

/// Clear isolation: after a child empties its own entries, its lookups
/// coincide with its parent's — a type only the child held is gone, while
/// a type the parent holds is still found through fallback.
pub proof fn lemma_clear_isolation(c: MetaInfo, c2: MetaInfo, p: MetaInfo, k: TypeKey)
    requires
        c.parent_view() == Some(p),
        c2.parent_view() == c.parent_view(),
        c2.local_typed() == Map::<TypeKey, Value>::empty(),
    ensures
        c2.lookup_typed(k) == p.lookup_typed(k),
        p.lookup_typed(k) is None ==> c2.lookup_typed(k) is None,
{
}

/// Extend overwrite: after a scope absorbs another scope's own entries,
/// lookup of any type the other scope held yields the other's value.
pub proof fn lemma_extend_overwrite(a: MetaInfo, a2: MetaInfo, b: MetaInfo, k: TypeKey)
    requires
        a2.local_typed() == a.local_typed().union_prefer_right(b.local_typed()),
        b.local_typed().contains_key(k),
    ensures
        a2.lookup_typed(k) == Some(b.local_typed()[k]),
{
}

} // verus!
