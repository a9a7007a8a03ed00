//! The namespaces under which the registry's collections are persisted.

use vstd::prelude::*;

verus! {

/// Names the six collections of the registry. Each one is persisted under a
/// prefix of its own, so that equal identifiers in two collections never
/// meet in one storage key.
#[derive(Debug, Clone, Copy, PartialEq, Eq, Hash, Structural)]
pub enum StorageKey {
    Parties,
    Campaigns,
    Regions,
    Districts,
    Candidates,
    Recommendations,
}

impl StorageKey {
    /// The byte that stands for the collection: its place in the list of
    /// collections, counted from zero.
    pub open spec fn tag(self) -> u8 {
        match self {
            StorageKey::Parties => 0,
            StorageKey::Campaigns => 1,
            StorageKey::Regions => 2,
            StorageKey::Districts => 3,
            StorageKey::Candidates => 4,
            StorageKey::Recommendations => 5,
        }
    }

    /// The prefix of every storage key of the collection: one byte, its tag.
    pub open spec fn prefix(self) -> Seq<u8> {
        seq![self.tag()]
    }

    /// The prefix of the collection as bytes.
    pub fn into_storage_key(self) -> (bytes: Vec<u8>)
        ensures
            bytes@ == self.prefix(),
    {
        let tag: u8 = match self {
            StorageKey::Parties => 0,
            StorageKey::Campaigns => 1,
            StorageKey::Regions => 2,
            StorageKey::Districts => 3,
            StorageKey::Candidates => 4,
            StorageKey::Recommendations => 5,
        };
        let mut bytes: Vec<u8> = Vec::new();
        bytes.push(tag);
        assert(bytes@ =~= self.prefix());
        bytes
    }

    /// Two collections never share a storage key: whatever follows the
    /// prefixes, the keys differ as soon as the collections do.
    pub proof fn lemma_no_collision(self, other: StorageKey, rest: Seq<u8>, other_rest: Seq<u8>)
        requires
            self != other,
        ensures
            self.prefix() + rest != other.prefix() + other_rest,
    {
        assert((self.prefix() + rest)[0] == self.tag());
        assert((other.prefix() + other_rest)[0] == other.tag());
    }
}

} // verus!
