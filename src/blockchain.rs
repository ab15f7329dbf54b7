//! The ledger: a hash-linked chain of mined blocks, a pool of pending
//! transactions, and the balances that the chain's transactions add up to.
use vstd::prelude::*;

use crate::balances::{amount_in, credit, credited, debit, debited, Balances};
use crate::block::{sha256_of, unix_time_now, zero_hash, zero_seed, header_bytes, Block};
use crate::bytes::bytes_equal;
use crate::pow::{meets, meets_difficulty};
use crate::transaction::Transaction;

verus! {

/// Balances after one transaction: the recipient is credited first, then
/// the sender is debited.
pub open spec fn apply_transaction(m: Map<Seq<u8>, i64>, tx: Transaction) -> Map<Seq<u8>, i64> {
    let credited = m.insert(tx.recipient@, credit(amount_in(m, tx.recipient@), tx.amount));
    credited.insert(tx.sender@, debit(amount_in(credited, tx.sender@), tx.amount))
}

/// Balances after a list of transactions, applied in order.
pub open spec fn apply_transactions(m: Map<Seq<u8>, i64>, txs: Seq<Transaction>) -> Map<
    Seq<u8>,
    i64,
>
    decreases txs.len(),
{
    if txs.len() == 0 {
        m
    } else {
        apply_transaction(apply_transactions(m, txs.drop_last()), txs.last())
    }
}

/// Balances that a list of blocks adds up to, from nothing, block by block.
pub open spec fn ledger_of(blocks: Seq<Block>) -> Map<Seq<u8>, i64>
    decreases blocks.len(),
{
    if blocks.len() == 0 {
        Map::empty()
    } else {
        apply_transactions(ledger_of(blocks.drop_last()), blocks.last().data@)
    }
}

/// The shape of a genesis block.
pub open spec fn is_genesis(b: Block) -> bool {
    &&& b.index == 0
    &&& b.prev_hash@ == zero_hash()
    &&& b.merkle_root@ == zero_hash()
    &&& b.nonce == 0
    &&& b.data@.len() == 0
}

/// `next` may follow `prev` in a chain of difficulty `d`.
pub open spec fn extends(prev: Block, next: Block, d: nat) -> bool {
    &&& next.index == prev.index + 1
    &&& next.prev_hash@ == prev.identity()
    &&& next.accepts(d)
}

proof fn lemma_ledger_push(blocks: Seq<Block>, b: Block)
    ensures
        ledger_of(blocks.push(b)) == apply_transactions(ledger_of(blocks), b.data@),
{
    assert(blocks.push(b).drop_last() =~= blocks);
}

/// Applies `txs`, in order, to `balances`.
fn apply_to_balances(balances: &mut Balances, txs: &Vec<Transaction>)
    requires
        old(balances).wf(),
    ensures
        final(balances).wf(),
        final(balances)@ == apply_transactions(old(balances)@, txs@),
{
    let mut i: usize = 0;
    while i < txs.len()
        invariant
            i <= txs@.len(),
            balances.wf(),
            balances@ == apply_transactions(old(balances)@, txs@.take(i as int)),
        decreases txs@.len() - i,
    {
        let tx = txs[i];
        let r = balances.get(&tx.recipient);
        balances.set(&tx.recipient, credited(r, tx.amount));
        let s = balances.get(&tx.sender);
        balances.set(&tx.sender, debited(s, tx.amount));
        assert(txs@.take(i + 1).drop_last() =~= txs@.take(i as int));
        i = i + 1;
    }
    assert(txs@.take(i as int) =~= txs@);
}

/// A single-node ledger. `chain` is never empty and starts at a genesis
/// block; `mempool` holds submitted transactions, oldest first, that no
/// mined block carries yet; `balances` is what the chain's transactions add
/// up to, and may go negative; `difficulty` is the number of leading hex
/// zeros a block's identity hash needs.
pub struct Blockchain {
    pub chain: Vec<Block>,
    pub mempool: Vec<Transaction>,
    pub balances: Balances,
    pub difficulty: usize,
}

impl Blockchain {
    /// The chain starts at a genesis block, every later block extends its
    /// predecessor, and the balances are what the chain's transactions add
    /// up to.
    pub open spec fn wf(&self) -> bool {
        &&& self.chain@.len() >= 1
        &&& is_genesis(self.chain@[0])
        &&& forall|i: int| 0 < i < self.chain@.len() ==> #[trigger] self.linked_at(i)
        &&& forall|i: int| 0 <= i < self.chain@.len() ==> (#[trigger] self.chain@[i]).index == i
        &&& self.balances.wf()
        &&& self.balances@ == ledger_of(self.chain@)
    }

    /// The block at `i` extends the block before it.
    pub open spec fn linked_at(&self, i: int) -> bool {
        extends(self.chain@[i - 1], self.chain@[i], self.difficulty as nat)
    }

    pub open spec fn tip_block(&self) -> Block {
        self.chain@.last()
    }

    /// The header of the block that mining would try next, stamped at
    /// `timestamp`, with `nonce`.
    pub open spec fn next_header(&self, timestamp: u64, nonce: u64) -> Seq<u8> {
        header_bytes(
            (self.tip_block().index + 1) as u64,
            timestamp,
            self.tip_block().identity(),
            sha256_of(zero_seed()),
            nonce,
        )
    }

    /// Whether that header, with `nonce`, meets the difficulty.
    pub open spec fn next_accepts(&self, timestamp: u64, nonce: u64) -> bool {
        meets(sha256_of(self.next_header(timestamp, nonce)), self.difficulty as nat)
    }

    /// No 64-bit nonce makes the next header, stamped at `timestamp`, meet
    /// the difficulty.
    pub open spec fn nonces_spent(&self, timestamp: u64) -> bool {
        forall|n: u64| !self.next_accepts(timestamp, n)
    }

    /// `after` is `before` with one block mined at `timestamp`: the block
    /// follows the old tip, takes the least nonce that meets the difficulty,
    /// carries the whole pool in order, and its transactions are applied.
    pub open spec fn mined(before: Blockchain, after: Blockchain, timestamp: u64) -> bool {
        let b = after.tip_block();
        &&& after.chain@ == before.chain@.push(b)
        &&& b.index == before.tip_block().index + 1
        &&& b.timestamp == timestamp
        &&& b.prev_hash@ == before.tip_block().identity()
        &&& b.merkle_root@ == sha256_of(zero_seed())
        &&& b.header() == before.next_header(timestamp, b.nonce)
        &&& before.next_accepts(timestamp, b.nonce)
        &&& forall|n: u64| n < b.nonce ==> !before.next_accepts(timestamp, n)
        &&& b.accepts(before.difficulty as nat)
        &&& b.data@ == before.mempool@
        &&& after.mempool@.len() == 0
        &&& after.balances@ == apply_transactions(before.balances@, before.mempool@)
        &&& after.difficulty == before.difficulty
    }

    /// A ledger whose chain holds only a genesis block.
    pub fn new(difficulty: usize) -> (r: Self)
        ensures
            r.wf(),
            r.chain@.len() == 1,
            is_genesis(r.chain@[0]),
            r.mempool@.len() == 0,
            r.balances@ == Map::<Seq<u8>, i64>::empty(),
            r.difficulty == difficulty,
    {
        let genesis = Block::create_genesis();
        let r = Blockchain {
            chain: vec![genesis],
            mempool: Vec::new(),
            balances: Balances::new(),
            difficulty,
        };
        assert(r.chain@ =~= Seq::<Block>::empty().push(genesis));
        proof {
            lemma_ledger_push(Seq::<Block>::empty(), genesis);
        }
        assert(genesis.data@ =~= Seq::<Transaction>::empty());
        r
    }

    /// The last block of the chain.
    pub fn tip(&self) -> (r: &Block)
        requires
            self.wf(),
        ensures
            *r == self.tip_block(),
    {
        &self.chain[self.chain.len() - 1]
    }

    /// The balance of `key`, 0 for a key that no mined transaction names.
    pub fn balance_of(&self, key: &[u8; 33]) -> (r: i64)
        requires
            self.wf(),
        ensures
            r == amount_in(self.balances@, key@),
    {
        self.balances.get(key)
    }

    /// Queues `tx` at the back of the pool; it has no effect on balances
    /// until a block carrying it is mined.
    pub fn add_transaction(&mut self, tx: Transaction)
        requires
            old(self).wf(),
        ensures
            final(self).wf(),
            final(self).mempool@ == old(self).mempool@.push(tx),
            final(self).chain@ == old(self).chain@,
            final(self).balances@ == old(self).balances@,
            final(self).difficulty == old(self).difficulty,
    {
        self.mempool.push(tx);
        assert forall|i: int| 0 < i < self.chain@.len() implies #[trigger] self.linked_at(i) by {
            assert(old(self).linked_at(i));
        }
    }

    /// Appends a block that extends the tip and applies its transactions,
    /// in order, to the balances.
    pub fn add_block(&mut self, block: Block)
        requires
            old(self).wf(),
            extends(old(self).tip_block(), block, old(self).difficulty as nat),
        ensures
            final(self).wf(),
            final(self).chain@ == old(self).chain@.push(block),
            final(self).balances@ == apply_transactions(old(self).balances@, block.data@),
            final(self).mempool@ == old(self).mempool@,
            final(self).difficulty == old(self).difficulty,
    {
        apply_to_balances(&mut self.balances, &block.data);
        proof {
            lemma_ledger_push(self.chain@, block);
        }
        self.chain.push(block);
        assert(self.chain@ == old(self).chain@.push(block));
        assert forall|i: int| 0 < i < self.chain@.len() implies #[trigger] self.linked_at(i) by {
            if i < old(self).chain@.len() {
                assert(old(self).linked_at(i));
            }
        }
    }

    /// Adds a block proposed from outside when it extends the tip: its index
    /// is one past the tip's, its previous hash is the tip's identity hash,
    /// and its own identity hash meets the difficulty. Otherwise the ledger
    /// is left as it was.
    pub fn accept_block(&mut self, block: Block) -> (r: bool)
        requires
            old(self).wf(),
        ensures
            final(self).wf(),
            r == extends(old(self).tip_block(), block, old(self).difficulty as nat),
            r ==> final(self).chain@ == old(self).chain@.push(block),
            r ==> final(self).balances@ == apply_transactions(old(self).balances@, block.data@),
            r ==> final(self).mempool@ == old(self).mempool@,
            r ==> final(self).difficulty == old(self).difficulty,
            !r ==> *final(self) == *old(self),
    {
        let tip = self.tip();
        if tip.index == u64::MAX || block.index != tip.index + 1 {
            return false;
        }
        let tip_hash = tip.hash();
        if !bytes_equal(block.prev_hash.as_slice(), tip_hash.as_slice()) {
            return false;
        }
        let own = block.hash();
        if !meets_difficulty(own.as_slice(), self.difficulty) {
            return false;
        }
        self.add_block(block);
        true
    }

    /// Mines one block stamped at `timestamp`: searches the nonces of the
    /// next header from 0 upwards, and on success moves the whole pool into
    /// the block, appends it and applies its transactions. Fails, changing
    /// nothing, only when no 64-bit nonce meets the difficulty.
    pub fn mine_block_at(&mut self, timestamp: u64) -> (r: bool)
        requires
            old(self).wf(),
        ensures
            final(self).wf(),
            r == exists|n: u64| old(self).next_accepts(timestamp, n),
            r ==> Blockchain::mined(*old(self), *final(self), timestamp),
            !r ==> *final(self) == *old(self),
    {
        let tip = self.tip();
        // The tip's index is one less than the chain's length, a usize, so
        // one more still fits in a u64.
        let height = self.chain.len();
        assert(tip.index == height - 1 && usize::MAX <= u64::MAX);
        // Every mined block takes its content digest over the same zero-filled
        // placeholder, never over its transactions.
        let seed = [0u8; 1024];
        assert(seed@ =~= zero_seed());
        let mut candidate = Block::new_at(tip.index + 1, timestamp, tip.hash(), &seed);
        let ghost fresh = candidate;
        assert forall|n: u64|
            #![trigger fresh.accepts_nonce(n, self.difficulty as nat)]
            #![trigger self.next_accepts(timestamp, n)]
            fresh.accepts_nonce(n, self.difficulty as nat) == self.next_accepts(timestamp, n) by {
            assert(fresh.header_with_nonce(n) == self.next_header(timestamp, n));
        }
        if !candidate.mine(self.difficulty) {
            return false;
        }
        assert(candidate.header() == self.next_header(timestamp, candidate.nonce));
        let mut pool: Vec<Transaction> = Vec::new();
        std::mem::swap(&mut pool, &mut self.mempool);
        assert forall|i: int| 0 < i < self.chain@.len() implies #[trigger] self.linked_at(i) by {
            assert(old(self).linked_at(i));
        }
        candidate.data = pool;
        self.add_block(candidate);
        true
    }

    /// Mines one block stamped with the current time; see `mine_block_at`.
    pub fn mine_block(&mut self) -> (r: bool)
        requires
            old(self).wf(),
        ensures
            final(self).wf(),
            r ==> Blockchain::mined(*old(self), *final(self), final(self).tip_block().timestamp),
            r ==> final(self).tip_block().accepts(final(self).difficulty as nat),
            !r ==> *final(self) == *old(self),
            !r ==> exists|t: u64| #[trigger] old(self).nonces_spent(t),
    {
        let timestamp = unix_time_now();
        let r = self.mine_block_at(timestamp);
        assert(!r ==> self.nonces_spent(timestamp));
        r
    }
}

} // verus!
