use vstd::prelude::*;

verus! {

/// An immutable key-value pair of a propagation channel; replacement means
/// appending a new pair, never editing one in place.
#[derive(Debug, Clone, PartialEq)]
pub struct KV {
    pub key: String,
    pub value: String,
}

impl KV {
    /// Creates a pair from its key and value.
    pub fn new(key: String, value: String) -> (kv: KV)
        ensures
            kv.key == key,
            kv.value == value,
    {
        KV { key, value }
    }
}

/// The propagation channels carried by a forward-direction [`Node`]; the
/// channel name states how long an entry is expected to survive across
/// call hops.
#[derive(Clone, Copy, Debug, PartialEq, Eq, Structural)]
pub enum Channel {
    Persistent,
    Transient,
    Stale,
}

/// A channel's entries, each abstracted to its key and value text.
pub open spec fn kvs_view(s: Seq<KV>) -> Seq<(Seq<char>, Seq<char>)> {
    s.map_values(|kv: KV| (kv.key@, kv.value@))
}

/// A channel slot abstracted: absent until first written, then the entry
/// sequence in insertion order.
pub open spec fn slot_view(o: Option<Vec<KV>>) -> Option<Seq<(Seq<char>, Seq<char>)>> {
    match o {
        Some(v) => Some(kvs_view(v@)),
        None => None,
    }
}

/// The entries of a possibly absent channel; an absent channel reads as
/// empty.
pub open spec fn or_empty(o: Option<Seq<(Seq<char>, Seq<char>)>>) -> Seq<(Seq<char>, Seq<char>)> {
    match o {
        Some(s) => s,
        None => Seq::empty(),
    }
}

/// The value of the earliest entry whose key matches, if any: later writes
/// to the same key are shadowed by the earliest until it is removed.
pub open spec fn first_match(s: Seq<(Seq<char>, Seq<char>)>, key: Seq<char>) -> Option<Seq<char>>
    decreases s.len(),
{
    if s.len() == 0 {
        None
    } else if s[0].0 == key {
        Some(s[0].1)
    } else {
        first_match(s.drop_first(), key)
    }
}

/// The sequence with the earliest entry of the given key removed; any later
/// entries of the same key stay in place.
pub open spec fn remove_first(
    s: Seq<(Seq<char>, Seq<char>)>,
    key: Seq<char>,
) -> Seq<(Seq<char>, Seq<char>)>
    decreases s.len(),
{
    if s.len() == 0 {
        s
    } else if s[0].0 == key {
        s.drop_first()
    } else {
        seq![s[0]] + remove_first(s.drop_first(), key)
    }
}

proof fn lemma_first_match_at(s: Seq<(Seq<char>, Seq<char>)>, key: Seq<char>, i: int)
    requires
        0 <= i < s.len(),
        forall|j: int| 0 <= j < i ==> (#[trigger] s[j].0) != key,
        s[i].0 == key,
    ensures
        first_match(s, key) == Some(s[i].1),
    decreases i,
{
    if i > 0 {
        assert forall|j: int| 0 <= j < i - 1 implies (#[trigger] s.drop_first()[j].0) != key by {
            assert(s[j + 1].0 != key);
        }
        assert(s.drop_first()[i - 1] == s[i]);
        lemma_first_match_at(s.drop_first(), key, i - 1);
    }
}

proof fn lemma_first_match_none(s: Seq<(Seq<char>, Seq<char>)>, key: Seq<char>)
    requires
        forall|j: int| 0 <= j < s.len() ==> (#[trigger] s[j].0) != key,
    ensures
        first_match(s, key) is None,
    decreases s.len(),
{
    if s.len() > 0 {
        assert forall|j: int| 0 <= j < s.drop_first().len() implies (#[trigger] s.drop_first()[j].0) != key by {
            assert(s[j + 1].0 != key);
        }
        lemma_first_match_none(s.drop_first(), key);
    }
}

proof fn lemma_remove_first_at(s: Seq<(Seq<char>, Seq<char>)>, key: Seq<char>, i: int)
    requires
        0 <= i < s.len(),
        forall|j: int| 0 <= j < i ==> (#[trigger] s[j].0) != key,
        s[i].0 == key,
    ensures
        remove_first(s, key) =~= s.remove(i),
    decreases i,
{
    if i == 0 {
        assert(s.drop_first() =~= s.remove(0));
    } else {
        assert forall|j: int| 0 <= j < i - 1 implies (#[trigger] s.drop_first()[j].0) != key by {
            assert(s[j + 1].0 != key);
        }
        assert(s.drop_first()[i - 1] == s[i]);
        lemma_remove_first_at(s.drop_first(), key, i - 1);
        assert(seq![s[0]] + s.drop_first().remove(i - 1) =~= s.remove(i));
    }
}

proof fn lemma_remove_first_none(s: Seq<(Seq<char>, Seq<char>)>, key: Seq<char>)
    requires
        forall|j: int| 0 <= j < s.len() ==> (#[trigger] s[j].0) != key,
    ensures
        remove_first(s, key) =~= s,
    decreases s.len(),
{
    if s.len() > 0 {
        assert forall|j: int| 0 <= j < s.drop_first().len() implies (#[trigger] s.drop_first()[j].0) != key by {
            assert(s[j + 1].0 != key);
        }
        lemma_remove_first_none(s.drop_first(), key);
        assert(seq![s[0]] + s.drop_first() =~= s);
    }
}

/// Initial room reserved for a channel on its first write.
const DEFAULT_CAPACITY: usize = 10;

fn set_slot(slot: &mut Option<Vec<KV>>, key: String, value: String)
    ensures
        slot_view(*final(slot)) == Some(or_empty(slot_view(*old(slot))).push((key@, value@))),
{
    let ghost kview = key@;
    let ghost vview = value@;
    let kv = KV::new(key, value);
    match slot.take() {
        Some(mut v) => {
            let ghost pre = v@;
            v.push(kv);
            proof {
                assert(kvs_view(v@) =~= kvs_view(pre).push((kview, vview)));
            }
            *slot = Some(v);
        },
        None => {
            let mut v: Vec<KV> = Vec::with_capacity(DEFAULT_CAPACITY);
            v.push(kv);
            proof {
                assert(kvs_view(v@) =~= Seq::<(Seq<char>, Seq<char>)>::empty().push((kview, vview)));
            }
            *slot = Some(v);
        },
    }
}

fn get_slot(slot: &Option<Vec<KV>>, key: &str) -> (r: Option<String>)
    ensures
        match r {
            Some(v) => first_match(or_empty(slot_view(*slot)), key@) == Some(v@),
            None => first_match(or_empty(slot_view(*slot)), key@) is None,
        },
{
    match slot.as_ref() {
        Some(v) => {
            let k: String = key.to_owned();
            let n: usize = v.len();
            let mut i: usize = 0;
            while i < n
                invariant
                    k@ == key@,
                    n == v@.len(),
                    i <= n,
                    slot_view(*slot) == Some(kvs_view(v@)),
                    forall|j: int| 0 <= j < i ==> (#[trigger] kvs_view(v@)[j].0) != key@,
                decreases n - i,
            {
                if v[i].key == k {
                    proof {
                        assert(kvs_view(v@)[i as int] == (v@[i as int].key@, v@[i as int].value@));
                        lemma_first_match_at(kvs_view(v@), key@, i as int);
                    }
                    return Some(v[i].value.clone());
                }
                proof {
                    assert(kvs_view(v@)[i as int].0 == v@[i as int].key@);
                }
                i = i + 1;
            }
            proof {
                lemma_first_match_none(kvs_view(v@), key@);
            }
            None
        },
        None => None,
    }
}

fn del_slot(slot: &mut Option<Vec<KV>>, key: &str)
    ensures
        slot_view(*final(slot)) == match slot_view(*old(slot)) {
            None => None::<Seq<(Seq<char>, Seq<char>)>>,
            Some(s) => Some(remove_first(s, key@)),
        },
{
    match slot.take() {
        Some(mut v) => {
            let ghost pre = v@;
            let k: String = key.to_owned();
            let n: usize = v.len();
            let mut i: usize = 0;
            let mut found: Option<usize> = None;
            while i < n
                invariant
                    k@ == key@,
                    n == v@.len(),
                    i <= n,
                    v@ == pre,
                    match found {
                        Some(f) => 0 <= f < v@.len() && kvs_view(v@)[f as int].0 == key@
                            && (forall|j: int| 0 <= j < f ==> (#[trigger] kvs_view(v@)[j].0) != key@),
                        None => forall|j: int| 0 <= j < i ==> (#[trigger] kvs_view(v@)[j].0) != key@,
                    },
                decreases n - i,
            {
                if found.is_none() && v[i].key == k {
                    found = Some(i);
                }
                proof {
                    assert(kvs_view(v@)[i as int].0 == v@[i as int].key@);
                }
                i = i + 1;
            }
            match found {
                Some(f) => {
                    proof {
                        lemma_remove_first_at(kvs_view(pre), key@, f as int);
                    }
                    v.remove(f);
                    proof {
                        assert(kvs_view(v@) =~= kvs_view(pre).remove(f as int));
                    }
                },
                None => {
                    proof {
                        lemma_remove_first_none(kvs_view(pre), key@);
                    }
                },
            }
            *slot = Some(v);
        },
        None => {},
    }
}

/// One hop's propagation store: an optional ordered entry sequence per
/// channel, created lazily on the channel's first write.
///
/// A channel is an append-only log of writes, not a replace-on-write map:
/// a write never checks whether its key already appears, reads return the
/// earliest entry for a key until that entry is deleted, and every later
/// write stays recorded and inspectable through [`Node::get_all`]. Callers
/// expecting last-write-wins must delete before writing.
#[derive(Debug)]
pub struct Node {
    persistent: Option<Vec<KV>>,
    transient: Option<Vec<KV>>,
    stale: Option<Vec<KV>>,
}

/// Exactly channel `c` of `post` grew by the entry `(key, value)`; every
/// other channel of `pre` is unchanged.
pub open spec fn appended(pre: Node, post: Node, c: Channel, key: Seq<char>, value: Seq<char>) -> bool {
    &&& post.chan(c) == Some(or_empty(pre.chan(c)).push((key, value)))
    &&& forall|d: Channel| d != c ==> post.chan(d) == pre.chan(d)
}

/// Exactly channel `c` of `post` lost the earliest entry with key `key`
/// (a no-op on an absent channel or an unknown key); every other channel
/// of `pre` is unchanged.
pub open spec fn deleted(pre: Node, post: Node, c: Channel, key: Seq<char>) -> bool {
    &&& post.chan(c) == match pre.chan(c) {
        None => None::<Seq<(Seq<char>, Seq<char>)>>,
        Some(s) => Some(remove_first(s, key)),
    }
    &&& forall|d: Channel| d != c ==> post.chan(d) == pre.chan(d)
}

impl Node {
    /// The abstract contents of channel `c`: absent until first written,
    /// then the entries in insertion order.
    pub closed spec fn chan(self, c: Channel) -> Option<Seq<(Seq<char>, Seq<char>)>> {
        match c {
            Channel::Persistent => slot_view(self.persistent),
            Channel::Transient => slot_view(self.transient),
            Channel::Stale => slot_view(self.stale),
        }
    }

    /// The value channel `c` yields for `key`: that of the earliest
    /// matching entry.
    pub open spec fn chan_lookup(self, c: Channel, key: Seq<char>) -> Option<Seq<char>> {
        first_match(or_empty(self.chan(c)), key)
    }

    /// Appends the entry `(key, value)` to channel `c`, whether or not the
    /// key already appears there.
    pub fn set(&mut self, c: Channel, key: String, value: String)
        ensures
            appended(*old(self), *final(self), c, key@, value@),
    {
        match c {
            Channel::Persistent => set_slot(&mut self.persistent, key, value),
            Channel::Transient => set_slot(&mut self.transient, key, value),
            Channel::Stale => set_slot(&mut self.stale, key, value),
        }
    }

    /// Returns the value of the earliest entry of channel `c` whose key is
    /// `key`, or nothing if the channel is absent or never saw the key.
    pub fn get(&self, c: Channel, key: &str) -> (r: Option<String>)
        ensures
            match r {
                Some(v) => self.chan_lookup(c, key@) == Some(v@),
                None => self.chan_lookup(c, key@) is None,
            },
    {
        match c {
            Channel::Persistent => get_slot(&self.persistent, key),
            Channel::Transient => get_slot(&self.transient, key),
            Channel::Stale => get_slot(&self.stale, key),
        }
    }

    /// Removes the earliest entry of channel `c` whose key is `key`; later
    /// entries of the same key stay. A no-op if the channel is absent.
    pub fn del(&mut self, c: Channel, key: &str)
        ensures
            deleted(*old(self), *final(self), c, key@),
    {
        match c {
            Channel::Persistent => del_slot(&mut self.persistent, key),
            Channel::Transient => del_slot(&mut self.transient, key),
            Channel::Stale => del_slot(&mut self.stale, key),
        }
    }

    /// The whole entry sequence of channel `c`, or nothing if the channel
    /// was never written.
    pub fn get_all(&self, c: Channel) -> (r: Option<&Vec<KV>>)
        ensures
            match r {
                Some(v) => self.chan(c) == Some(kvs_view(v@)),
                None => self.chan(c) is None,
            },
    {
        match c {
            Channel::Persistent => self.persistent.as_ref(),
            Channel::Transient => self.transient.as_ref(),
            Channel::Stale => self.stale.as_ref(),
        }
    }

    /// Appends to the `persistent` channel.
    pub fn set_persistent(&mut self, key: String, value: String)
        ensures
            appended(*old(self), *final(self), Channel::Persistent, key@, value@),
    {
        self.set(Channel::Persistent, key, value)
    }

    /// Appends to the `transient` channel.
    pub fn set_transient(&mut self, key: String, value: String)
        ensures
            appended(*old(self), *final(self), Channel::Transient, key@, value@),
    {
        self.set(Channel::Transient, key, value)
    }

    /// Appends to the `stale` channel.
    pub fn set_stale(&mut self, key: String, value: String)
        ensures
            appended(*old(self), *final(self), Channel::Stale, key@, value@),
    {
        self.set(Channel::Stale, key, value)
    }

    /// Reads the `persistent` channel.
    pub fn get_persistent(&self, key: &str) -> (r: Option<String>)
        ensures
            match r {
                Some(v) => self.chan_lookup(Channel::Persistent, key@) == Some(v@),
                None => self.chan_lookup(Channel::Persistent, key@) is None,
            },
    {
        self.get(Channel::Persistent, key)
    }

    /// Reads the `transient` channel.
    pub fn get_transient(&self, key: &str) -> (r: Option<String>)
        ensures
            match r {
                Some(v) => self.chan_lookup(Channel::Transient, key@) == Some(v@),
                None => self.chan_lookup(Channel::Transient, key@) is None,
            },
    {
        self.get(Channel::Transient, key)
    }

    /// Reads the `stale` channel.
    pub fn get_stale(&self, key: &str) -> (r: Option<String>)
        ensures
            match r {
                Some(v) => self.chan_lookup(Channel::Stale, key@) == Some(v@),
                None => self.chan_lookup(Channel::Stale, key@) is None,
            },
    {
        self.get(Channel::Stale, key)
    }

    /// Deletes from the `persistent` channel.
    pub fn del_persistent(&mut self, key: &str)
        ensures
            deleted(*old(self), *final(self), Channel::Persistent, key@),
    {
        self.del(Channel::Persistent, key)
    }

    /// Deletes from the `transient` channel.
    pub fn del_transient(&mut self, key: &str)
        ensures
            deleted(*old(self), *final(self), Channel::Transient, key@),
    {
        self.del(Channel::Transient, key)
    }

    /// Deletes from the `stale` channel.
    pub fn del_stale(&mut self, key: &str)
        ensures
            deleted(*old(self), *final(self), Channel::Stale, key@),
    {
        self.del(Channel::Stale, key)
    }
}

impl Default for Node {
    /// Creates a store with every channel absent.
    fn default() -> (n: Node)
        ensures
            forall|c: Channel| (#[trigger] n.chan(c)) is None,
    {
        Node { persistent: None, transient: None, stale: None }
    }
}

} // verus!
