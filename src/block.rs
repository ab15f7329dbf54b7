use vstd::prelude::*;

use crate::bytes::append_bytes;
use crate::pow::{meets, meets_difficulty};
use crate::transaction::Transaction;

verus! {

/// The SHA-256 digest of a byte string.
pub uninterp spec fn sha256_of(data: Seq<u8>) -> Seq<u8>;

/// Relies on sha2::Sha256::digest: the SHA-256 digest of the bytes, which
/// depends on them alone.
#[verifier::external_body]
fn sha256(data: &[u8]) -> (r: [u8; 32])
    ensures
        r@ == sha256_of(data@),
{
    <sha2::Sha256 as sha2::Digest>::digest(data).into()
}

/// Relies on std::time::SystemTime::now: the system clock, in whole seconds
/// since the Unix epoch (a clock set before the epoch reads as 0). Nothing is
/// known of the value.
#[verifier::external_body]
pub(crate) fn unix_time_now() -> (r: u64) {
    match std::time::SystemTime::now().duration_since(std::time::UNIX_EPOCH) {
        Ok(elapsed) => elapsed.as_secs(),
        Err(_) => 0,
    }
}

/// The eight little-endian bytes of `x`.
pub open spec fn le_bytes(x: u64) -> Seq<u8> {
    seq![
        x as u8,
        (x >> 8) as u8,
        (x >> 16) as u8,
        (x >> 24) as u8,
        (x >> 32) as u8,
        (x >> 40) as u8,
        (x >> 48) as u8,
        (x >> 56) as u8,
    ]
}

/// What a block's identity hash is computed over: index, timestamp, previous
/// hash, content digest and nonce, in that order.
pub open spec fn header_bytes(
    index: u64,
    timestamp: u64,
    prev_hash: Seq<u8>,
    merkle_root: Seq<u8>,
    nonce: u64,
) -> Seq<u8> {
    le_bytes(index) + le_bytes(timestamp) + prev_hash + merkle_root + le_bytes(nonce)
}

/// Thirty-two zero bytes: the genesis block's previous hash and digest.
pub open spec fn zero_hash() -> Seq<u8> {
    Seq::new(32, |i: int| 0u8)
}

/// The placeholder buffer that stands for a block's contents.
pub open spec fn zero_seed() -> Seq<u8> {
    Seq::new(1024, |i: int| 0u8)
}

/// A header and the transactions attached to it. The content digest is taken
/// once, at construction, over a caller-supplied seed, and never over the
/// transactions; the identity hash covers the header alone.
pub struct Block {
    pub index: u64,
    pub timestamp: u64,
    pub prev_hash: [u8; 32],
    pub merkle_root: [u8; 32],
    pub nonce: u64,
    pub data: Vec<Transaction>,
}

fn push_le_bytes(out: &mut Vec<u8>, x: u64)
    ensures
        final(out)@ == old(out)@ + le_bytes(x),
{
    out.push(x as u8);
    out.push((x >> 8) as u8);
    out.push((x >> 16) as u8);
    out.push((x >> 24) as u8);
    out.push((x >> 32) as u8);
    out.push((x >> 40) as u8);
    out.push((x >> 48) as u8);
    out.push((x >> 56) as u8);
    assert(out@ =~= old(out)@ + le_bytes(x));
}

impl Block {
    /// The header bytes of this block with `nonce` in place of its own.
    pub open spec fn header_with_nonce(&self, nonce: u64) -> Seq<u8> {
        header_bytes(self.index, self.timestamp, self.prev_hash@, self.merkle_root@, nonce)
    }

    pub open spec fn header(&self) -> Seq<u8> {
        self.header_with_nonce(self.nonce)
    }

    /// The identity hash: the digest of the header.
    pub open spec fn identity(&self) -> Seq<u8> {
        sha256_of(self.header())
    }

    /// Whether the identity hash meets difficulty `d`.
    pub open spec fn accepts(&self, d: nat) -> bool {
        meets(self.identity(), d)
    }

    /// Whether the header, with `nonce`, hashes to a digest that meets `d`.
    pub open spec fn accepts_nonce(&self, nonce: u64, d: nat) -> bool {
        meets(sha256_of(self.header_with_nonce(nonce)), d)
    }

    /// Two blocks agree on every header field; transactions may differ.
    pub open spec fn same_header(&self, other: &Block) -> bool {
        &&& self.index == other.index
        &&& self.timestamp == other.timestamp
        &&& self.prev_hash == other.prev_hash
        &&& self.merkle_root == other.merkle_root
        &&& self.nonce == other.nonce
    }

    /// A block at `index` after the block hashing to `prev_hash`, stamped at
    /// `timestamp`, whose content digest is taken over `seed`.
    pub fn new_at(index: u64, timestamp: u64, prev_hash: [u8; 32], seed: &[u8; 1024]) -> (r: Self)
        ensures
            r.index == index,
            r.timestamp == timestamp,
            r.prev_hash == prev_hash,
            r.merkle_root@ == sha256_of(seed@),
            r.nonce == 0,
            r.data@ == Seq::<Transaction>::empty(),
    {
        let merkle_root = sha256(seed.as_slice());
        Block { index, timestamp, prev_hash, merkle_root, nonce: 0, data: Vec::new() }
    }

    /// A block at `index` after the block hashing to `prev_hash`, stamped
    /// with the current time, whose content digest is taken over `data`.
    pub fn new(index: u64, prev_hash: [u8; 32], data: [u8; 1024]) -> (r: Self)
        ensures
            r.index == index,
            r.prev_hash == prev_hash,
            r.merkle_root@ == sha256_of(data@),
            r.nonce == 0,
            r.data@ == Seq::<Transaction>::empty(),
    {
        let timestamp = unix_time_now();
        Block::new_at(index, timestamp, prev_hash, &data)
    }

    /// The first block of every chain, stamped with the current time.
    pub fn create_genesis() -> (r: Self)
        ensures
            r.index == 0,
            r.prev_hash@ == zero_hash(),
            r.merkle_root@ == zero_hash(),
            r.nonce == 0,
            r.data@ == Seq::<Transaction>::empty(),
    {
        let timestamp = unix_time_now();
        let r = Block {
            index: 0,
            timestamp,
            prev_hash: [0u8; 32],
            merkle_root: [0u8; 32],
            nonce: 0,
            data: Vec::new(),
        };
        assert(r.prev_hash@ =~= zero_hash());
        assert(r.merkle_root@ =~= zero_hash());
        r
    }

    /// The bytes the identity hash is taken over.
    pub fn header_bytes(&self) -> (r: Vec<u8>)
        ensures
            r@ == self.header(),
    {
        let mut out: Vec<u8> = Vec::new();
        push_le_bytes(&mut out, self.index);
        push_le_bytes(&mut out, self.timestamp);
        append_bytes(&mut out, self.prev_hash.as_slice());
        append_bytes(&mut out, self.merkle_root.as_slice());
        push_le_bytes(&mut out, self.nonce);
        assert(out@ =~= self.header());
        out
    }

    /// The identity hash of this block.
    pub fn hash(&self) -> (r: [u8; 32])
        ensures
            r@ == self.identity(),
    {
        let bytes = self.header_bytes();
        sha256(bytes.as_slice())
    }

    /// Searches the nonces from 0 upwards for the first whose identity hash
    /// meets `difficulty`, and leaves it in the block. Returns false, with
    /// the search space spent, when no 64-bit nonce does.
    pub fn mine(&mut self, difficulty: usize) -> (found: bool)
        ensures
            final(self).index == old(self).index,
            final(self).timestamp == old(self).timestamp,
            final(self).prev_hash == old(self).prev_hash,
            final(self).merkle_root == old(self).merkle_root,
            final(self).data == old(self).data,
            found == exists|n: u64| old(self).accepts_nonce(n, difficulty as nat),
            found ==> old(self).accepts_nonce(final(self).nonce, difficulty as nat),
            found ==> forall|n: u64|
                n < final(self).nonce ==> !old(self).accepts_nonce(n, difficulty as nat),
    {
        self.nonce = 0;
        loop
            invariant
                self.index == old(self).index,
                self.timestamp == old(self).timestamp,
                self.prev_hash == old(self).prev_hash,
                self.merkle_root == old(self).merkle_root,
                self.data == old(self).data,
                forall|n: u64| n < self.nonce ==> !old(self).accepts_nonce(n, difficulty as nat),
            decreases u64::MAX - self.nonce,
        {
            let digest = self.hash();
            if meets_difficulty(digest.as_slice(), difficulty) {
                assert(old(self).accepts_nonce(self.nonce, difficulty as nat));
                return true;
            }
            if self.nonce == u64::MAX {
                assert forall|n: u64| !old(self).accepts_nonce(n, difficulty as nat) by {
                    if n < self.nonce {
                    }
                }
                return false;
            }
            self.nonce = self.nonce + 1;
        }
    }
}

} // verus!
