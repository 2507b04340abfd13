//! Content hashes, by which gossiped data is told apart.

use vstd::prelude::*;

verus! {

/// The length of a SHA-256 digest in bytes.
pub const SHA256_LEN: usize = 32;

/// The length in bytes of the hash that a persistable payload carries.
pub const PERSISTENT_HASH_LEN: usize = 20;

/// A copy of a byte string.
pub fn copy_bytes(bytes: &Vec<u8>) -> (copy: Vec<u8>)
    ensures
        copy@ == bytes@,
{
    let copy = bytes.clone();
    assert(copy@ =~= bytes@);
    copy
}

/// The slot under which a byte string is looked for among many: the number
/// that its first eight bytes spell, or nothing where it has fewer.
pub open spec fn slot_of(bytes: Seq<u8>) -> u64 {
    if bytes.len() >= 8 {
        (bytes[0] * 0x100_0000_0000_0000 + bytes[1] * 0x1_0000_0000_0000 + bytes[2]
            * 0x100_0000_0000 + bytes[3] * 0x1_0000_0000 + bytes[4] * 0x100_0000 + bytes[5]
            * 0x1_0000 + bytes[6] * 0x100 + bytes[7]) as u64
    } else {
        0
    }
}

/// The slot under which a byte string is looked for.
pub fn slot(bytes: &Vec<u8>) -> (slot: u64)
    ensures
        slot == slot_of(bytes@),
{
    if bytes.len() >= 8 {
        let b0: u64 = bytes[0] as u64;
        let b1: u64 = bytes[1] as u64;
        let b2: u64 = bytes[2] as u64;
        let b3: u64 = bytes[3] as u64;
        let b4: u64 = bytes[4] as u64;
        let b5: u64 = bytes[5] as u64;
        let b6: u64 = bytes[6] as u64;
        let b7: u64 = bytes[7] as u64;
        b0 * 0x100_0000_0000_0000 + b1 * 0x1_0000_0000_0000 + b2 * 0x100_0000_0000 + b3
            * 0x1_0000_0000 + b4 * 0x100_0000 + b5 * 0x1_0000 + b6 * 0x100 + b7
    } else {
        0
    }
}

/// The hash that a persistable payload carries in itself.
#[derive(Debug, PartialEq)]
pub struct PersistentMessageHash {
    bytes: Vec<u8>,
}

impl View for PersistentMessageHash {
    type V = Seq<u8>;

    closed spec fn view(&self) -> Seq<u8> {
        self.bytes@
    }
}

impl PersistentMessageHash {
    /// The hash with these bytes, where there are twenty of them.
    pub fn from_bytes(bytes: Vec<u8>) -> (hash: Option<Self>)
        ensures
            hash is Some <==> bytes@.len() == PERSISTENT_HASH_LEN,
            hash matches Some(h) ==> h@ == bytes@ && h@.len() == PERSISTENT_HASH_LEN,
    {
        if bytes.len() == PERSISTENT_HASH_LEN {
            Some(Self { bytes })
        } else {
            None
        }
    }

    pub fn bytes(&self) -> (bytes: &Vec<u8>)
        ensures
            bytes@ == self@,
    {
        &self.bytes
    }

    pub fn same(&self, other: &Self) -> (same: bool)
        ensures
            same == (self@ == other@),
    {
        let same = self.bytes == other.bytes;
        assert(same == (self.bytes@ =~= other.bytes@));
        same
    }

    pub fn duplicate(&self) -> (copy: Self)
        ensures
            copy@ == self@,
    {
        Self { bytes: copy_bytes(&self.bytes) }
    }
}

/// The SHA-256 digest of a byte string.
pub uninterp spec fn sha256_digest(data: Seq<u8>) -> Seq<u8>;

/// The SHA-256 digest of `data`, computed by `sha256::Hash::hash` of the
/// crate `bitcoin_hashes`: a function of the bytes alone, 32 bytes long.
#[verifier::external_body]
pub(crate) fn sha256(data: &Vec<u8>) -> (digest: Vec<u8>)
    ensures
        digest@ == sha256_digest(data@),
        digest@.len() == SHA256_LEN,
{
    bitcoin_hashes::sha256::Hash::hash(data).to_byte_array().to_vec()
}

/// The hash by which a gossiped payload is known.
#[derive(Debug, PartialEq)]
pub enum BisqHash {
    /// The SHA-256 digest of the payload's canonical encoding.
    Sha256(Vec<u8>),
    /// The hash that the payload carries in itself.
    Persistent(PersistentMessageHash),
}

/// What a hash holds: its kind and its bytes.
pub enum HashModel {
    Sha256(Seq<u8>),
    Persistent(Seq<u8>),
}

impl HashModel {
    /// Whether the hash has the length of its kind: 32 bytes for a SHA-256
    /// digest, 20 for the hash that a persistable payload carries.
    pub open spec fn wf(self) -> bool {
        match self {
            HashModel::Sha256(bytes) => bytes.len() == SHA256_LEN,
            HashModel::Persistent(bytes) => bytes.len() == PERSISTENT_HASH_LEN,
        }
    }
}

impl HashModel {
    /// The bytes of the hash.
    pub open spec fn bytes(self) -> Seq<u8> {
        match self {
            HashModel::Sha256(bytes) => bytes,
            HashModel::Persistent(bytes) => bytes,
        }
    }
}

impl View for BisqHash {
    type V = HashModel;

    open spec fn view(&self) -> HashModel {
        match self {
            BisqHash::Sha256(bytes) => HashModel::Sha256(bytes@),
            BisqHash::Persistent(hash) => HashModel::Persistent(hash@),
        }
    }
}

impl BisqHash {
    /// The hash with these bytes as a SHA-256 digest, where there are 32 of
    /// them.
    pub fn from_sha256(bytes: Vec<u8>) -> (hash: Option<Self>)
        ensures
            hash is Some <==> bytes@.len() == SHA256_LEN,
            hash matches Some(h) ==> h@ == HashModel::Sha256(bytes@) && h@.wf(),
    {
        if bytes.len() == SHA256_LEN {
            Some(BisqHash::Sha256(bytes))
        } else {
            None
        }
    }

    /// The bytes of the hash.
    pub fn bytes(&self) -> (bytes: &Vec<u8>)
        ensures
            bytes@ == self@.bytes(),
    {
        match self {
            BisqHash::Sha256(bytes) => bytes,
            BisqHash::Persistent(hash) => hash.bytes(),
        }
    }

    pub fn same(&self, other: &Self) -> (same: bool)
        ensures
            same == (self@ == other@),
    {
        match (self, other) {
            (BisqHash::Sha256(mine), BisqHash::Sha256(theirs)) => {
                let same = *mine == *theirs;
                assert(same == (mine@ =~= theirs@));
                same
            },
            (BisqHash::Persistent(mine), BisqHash::Persistent(theirs)) => mine.same(theirs),
            _ => false,
        }
    }

    pub fn duplicate(&self) -> (copy: Self)
        ensures
            copy@ == self@,
    {
        match self {
            BisqHash::Sha256(bytes) => BisqHash::Sha256(copy_bytes(bytes)),
            BisqHash::Persistent(hash) => BisqHash::Persistent(hash.duplicate()),
        }
    }
}

} // verus!
