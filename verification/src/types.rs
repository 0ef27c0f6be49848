//! The plain data of the store: versions, digests, keys, values and usage.

use vstd::prelude::*;

verus! {

/// The sequence number of a committed ledger state.
pub type Version = u64;

/// A 32-byte digest. The store carries digests and never computes one.
#[derive(Clone, Copy, Debug, PartialEq, Eq, Hash)]
pub struct HashValue {
    pub bytes: [u8; 32],
}

impl HashValue {
    pub fn new(bytes: [u8; 32]) -> (hash: Self)
        ensures
            hash.bytes == bytes,
    {
        HashValue { bytes }
    }
}

/// Tells whether two byte strings are the same.
pub fn bytes_equal(a: &Vec<u8>, b: &Vec<u8>) -> (same: bool)
    ensures
        same == (a@ == b@),
{
    if a.len() != b.len() {
        return false;
    }
    let mut i: usize = 0;
    while i < a.len()
        invariant
            a@.len() == b@.len(),
            i <= a@.len(),
            forall|j: int| 0 <= j < i ==> a@[j] == b@[j],
        decreases a@.len() - i,
    {
        if a[i] != b[i] {
            return false;
        }
        i = i + 1;
    }
    proof {
        assert(a@ =~= b@);
    }
    true
}

/// Copies a byte string.
pub fn bytes_clone(a: &Vec<u8>) -> (copy: Vec<u8>)
    ensures
        copy@ == a@,
{
    let mut copy: Vec<u8> = Vec::with_capacity(a.len());
    let mut i: usize = 0;
    while i < a.len()
        invariant
            i <= a@.len(),
            copy@ == a@.subrange(0, i as int),
        decreases a@.len() - i,
    {
        copy.push(a[i]);
        proof {
            assert(copy@ =~= a@.subrange(0, i + 1));
        }
        i = i + 1;
    }
    proof {
        assert(a@.subrange(0, a@.len() as int) =~= a@);
    }
    copy
}

/// The number of shards of the raw store.
pub const NUM_STATE_SHARDS: u8 = 16;

/// An addressable piece of state, identified by its encoded bytes. It
/// carries the shard that it was assigned to when it was made.
#[derive(Debug, PartialEq, Eq, Hash)]
pub struct StateKey {
    pub bytes: Vec<u8>,
    pub shard_id: u8,
}

impl View for StateKey {
    type V = Seq<u8>;

    open spec fn view(&self) -> Seq<u8> {
        self.bytes@
    }
}

impl Clone for StateKey {
    fn clone(&self) -> (copy: Self)
        ensures
            copy@ == self@,
            copy.shard_id == self.shard_id,
    {
        StateKey { bytes: bytes_clone(&self.bytes), shard_id: self.shard_id }
    }
}

impl StateKey {
    pub fn new(bytes: Vec<u8>, shard_id: u8) -> (key: Self)
        ensures
            key@ == bytes@,
            key.shard_id == shard_id,
    {
        StateKey { bytes, shard_id }
    }

    /// The number of bytes that the key accounts for in the usage.
    pub fn size(&self) -> (size: usize)
        ensures
            size == self@.len(),
    {
        self.bytes.len()
    }

    /// The shard that the key is routed to: its assignment, brought into the
    /// range of the shards.
    pub open spec fn spec_get_shard_id(&self) -> u8 {
        (self.shard_id % NUM_STATE_SHARDS) as u8
    }

    #[verifier::when_used_as_spec(spec_get_shard_id)]
    pub fn get_shard_id(&self) -> (shard: u8)
        ensures
            shard == self.spec_get_shard_id(),
            shard < NUM_STATE_SHARDS,
    {
        self.shard_id % NUM_STATE_SHARDS
    }

    /// Tells whether two keys address the same piece of state.
    pub fn same_key(&self, other: &StateKey) -> (same: bool)
        ensures
            same == (self@ == other@),
    {
        bytes_equal(&self.bytes, &other.bytes)
    }
}

/// A byte payload stored under a key.
#[derive(Debug, PartialEq, Eq, Hash)]
pub struct StateValue {
    pub bytes: Vec<u8>,
}

impl View for StateValue {
    type V = Seq<u8>;

    open spec fn view(&self) -> Seq<u8> {
        self.bytes@
    }
}

impl Clone for StateValue {
    fn clone(&self) -> (copy: Self)
        ensures
            copy@ == self@,
    {
        StateValue { bytes: bytes_clone(&self.bytes) }
    }
}

impl StateValue {
    pub fn new(bytes: Vec<u8>) -> (value: Self)
        ensures
            value@ == bytes@,
    {
        StateValue { bytes }
    }

    /// The number of bytes that the value accounts for in the usage.
    pub fn size(&self) -> (size: usize)
        ensures
            size == self@.len(),
    {
        self.bytes.len()
    }
}

/// The view of an optional value: `None` is a tombstone.
pub open spec fn value_view(value: Option<StateValue>) -> Option<Seq<u8>> {
    match value {
        Some(v) => Some(v@),
        None => None,
    }
}

/// Copies an optional value.
pub fn clone_value(value: &Option<StateValue>) -> (copy: Option<StateValue>)
    ensures
        value_view(copy) == value_view(*value),
{
    match value {
        Some(v) => Some(v.clone()),
        None => None,
    }
}

/// The item count and byte size of live state, or the mark that a component
/// does not track them.
#[derive(Clone, Copy, Debug, PartialEq, Eq, Structural)]
pub enum StateStorageUsage {
    Counted { items: usize, bytes: usize },
    Untracked,
}

impl StateStorageUsage {
    /// The usage of an empty state.
    pub fn zero() -> (usage: Self)
        ensures
            usage == Self::spec_new(0, 0),
    {
        StateStorageUsage::Counted { items: 0, bytes: 0 }
    }

    pub open spec fn spec_new(items: usize, bytes: usize) -> Self {
        StateStorageUsage::Counted { items, bytes }
    }

    #[verifier::when_used_as_spec(spec_new)]
    pub fn new(items: usize, bytes: usize) -> (usage: Self)
        ensures
            usage == Self::spec_new(items, bytes),
    {
        StateStorageUsage::Counted { items, bytes }
    }

    pub fn new_untracked() -> (usage: Self)
        ensures
            usage == StateStorageUsage::Untracked,
    {
        StateStorageUsage::Untracked
    }

    pub fn is_untracked(&self) -> (untracked: bool)
        ensures
            untracked == (*self == StateStorageUsage::Untracked),
    {
        match self {
            StateStorageUsage::Untracked => true,
            StateStorageUsage::Counted { .. } => false,
        }
    }

    /// The item count; an untracked usage counts none.
    pub open spec fn spec_items(&self) -> usize {
        match *self {
            StateStorageUsage::Counted { items, .. } => items,
            StateStorageUsage::Untracked => 0,
        }
    }

    #[verifier::when_used_as_spec(spec_items)]
    pub fn items(&self) -> (items: usize)
        ensures
            items == self.spec_items(),
    {
        match self {
            StateStorageUsage::Counted { items, .. } => *items,
            StateStorageUsage::Untracked => 0,
        }
    }

    /// The byte size; an untracked usage counts none.
    pub open spec fn spec_bytes(&self) -> usize {
        match *self {
            StateStorageUsage::Counted { bytes, .. } => bytes,
            StateStorageUsage::Untracked => 0,
        }
    }

    #[verifier::when_used_as_spec(spec_bytes)]
    pub fn bytes(&self) -> (bytes: usize)
        ensures
            bytes == self.spec_bytes(),
    {
        match self {
            StateStorageUsage::Counted { bytes, .. } => *bytes,
            StateStorageUsage::Untracked => 0,
        }
    }

    /// The usage as it is recorded: its counts. An untracked usage, which
    /// counts nothing, is recorded as no items and no bytes.
    pub open spec fn spec_counted(&self) -> Self {
        StateStorageUsage::Counted { items: self.spec_items(), bytes: self.spec_bytes() }
    }

    #[verifier::when_used_as_spec(spec_counted)]
    pub fn counted(&self) -> (usage: Self)
        ensures
            usage == self.spec_counted(),
    {
        StateStorageUsage::Counted { items: self.items(), bytes: self.bytes() }
    }

    /// The usage after one more live item of `bytes_delta` bytes, where the
    /// counters can hold it. An untracked usage stays untracked.
    pub open spec fn spec_add_item(self, bytes_delta: int) -> Option<Self> {
        match self {
            StateStorageUsage::Counted { items, bytes } => {
                if items + 1 <= usize::MAX && 0 <= bytes + bytes_delta <= usize::MAX {
                    Some(
                        StateStorageUsage::Counted {
                            items: (items + 1) as usize,
                            bytes: (bytes + bytes_delta) as usize,
                        },
                    )
                } else {
                    None
                }
            },
            StateStorageUsage::Untracked => Some(StateStorageUsage::Untracked),
        }
    }

    /// The usage after one live item of `bytes_delta` bytes went away, where
    /// the counters hold that much. An untracked usage stays untracked.
    pub open spec fn spec_remove_item(self, bytes_delta: int) -> Option<Self> {
        match self {
            StateStorageUsage::Counted { items, bytes } => {
                if 1 <= items && 0 <= bytes_delta <= bytes {
                    Some(
                        StateStorageUsage::Counted {
                            items: (items - 1) as usize,
                            bytes: (bytes - bytes_delta) as usize,
                        },
                    )
                } else {
                    None
                }
            },
            StateStorageUsage::Untracked => Some(StateStorageUsage::Untracked),
        }
    }

    /// Counts one more live item of `bytes_delta` bytes. Returns whether the
    /// counters could hold it; where they could not, the usage is unchanged.
    pub fn add_item(&mut self, bytes_delta: usize) -> (counted: bool)
        ensures
            counted == old(self).spec_add_item(bytes_delta as int).is_some(),
            counted ==> Some(*final(self)) == old(self).spec_add_item(bytes_delta as int),
            !counted ==> *final(self) == *old(self),
    {
        match *self {
            StateStorageUsage::Counted { items, bytes } => {
                if items == usize::MAX || bytes > usize::MAX - bytes_delta {
                    false
                } else {
                    *self = StateStorageUsage::Counted {
                        items: items + 1,
                        bytes: bytes + bytes_delta,
                    };
                    true
                }
            },
            StateStorageUsage::Untracked => true,
        }
    }

    /// Takes one live item of `bytes_delta` bytes off the count. Returns
    /// whether the counters held that much; where they did not, the usage is
    /// unchanged.
    pub fn remove_item(&mut self, bytes_delta: usize) -> (counted: bool)
        ensures
            counted == old(self).spec_remove_item(bytes_delta as int).is_some(),
            counted ==> Some(*final(self)) == old(self).spec_remove_item(bytes_delta as int),
            !counted ==> *final(self) == *old(self),
    {
        match *self {
            StateStorageUsage::Counted { items, bytes } => {
                if items == 0 || bytes < bytes_delta {
                    false
                } else {
                    *self = StateStorageUsage::Counted {
                        items: items - 1,
                        bytes: bytes - bytes_delta,
                    };
                    true
                }
            },
            StateStorageUsage::Untracked => true,
        }
    }
}

/// How far a restore session has come: the index and the key digest of the
/// last leaf that it applied, and the usage of all leaves applied so far.
#[derive(Clone, Copy, Debug, PartialEq, Eq)]
pub struct StateSnapshotProgress {
    pub last_index: u64,
    pub key_hash: HashValue,
    pub usage: StateStorageUsage,
}

impl StateSnapshotProgress {
    pub fn new(last_index: u64, key_hash: HashValue, usage: StateStorageUsage) -> (progress: Self)
        ensures
            progress == (StateSnapshotProgress { last_index, key_hash, usage }),
    {
        StateSnapshotProgress { last_index, key_hash, usage }
    }
}

/// The record that the value written for `state_key` at `version` is obsolete
/// from `stale_since_version` on.
#[derive(Clone, Debug, PartialEq, Eq)]
pub struct StaleStateValueIndex {
    pub stale_since_version: Version,
    pub version: Version,
    pub state_key: StateKey,
}

/// A stale-index record as a plain value: since when, of which version, of
/// which key.
pub struct StaleIndexView {
    pub stale_since_version: Version,
    pub version: Version,
    pub state_key: Seq<u8>,
}

impl View for StaleStateValueIndex {
    type V = StaleIndexView;

    open spec fn view(&self) -> StaleIndexView {
        StaleIndexView {
            stale_since_version: self.stale_since_version,
            version: self.version,
            state_key: self.state_key@,
        }
    }
}

} // verus!
