//! Properties of chains and balances that hold across calls.
use vstd::prelude::*;

use crate::balances::{amount_in, credit, debit};
use crate::block::Block;
use crate::blockchain::{apply_transaction, apply_transactions, Blockchain};
use crate::pow::{hex_of, zero_prefix};
use crate::transaction::Transaction;

verus! {

/// Every block after genesis in a well-formed ledger has an identity hash
/// whose hex spelling starts with as many zeros as the difficulty asks.
pub proof fn lemma_blocks_meet_difficulty(ledger: Blockchain, i: int)
    requires
        ledger.wf(),
        0 < i < ledger.chain@.len(),
    ensures
        zero_prefix(hex_of(ledger.chain@[i].identity()), ledger.difficulty as nat),
{
    assert(ledger.linked_at(i));
}

/// A freshly mined block's identity hash, hex-encoded, starts with as many
/// zeros as the ledger's difficulty asks.
pub proof fn lemma_mined_block_meets_difficulty(before: Blockchain, after: Blockchain, timestamp: u64)
    requires
        Blockchain::mined(before, after, timestamp),
    ensures
        zero_prefix(hex_of(after.tip_block().identity()), before.difficulty as nat),
{
}

/// In a well-formed ledger each block's previous hash is the identity hash
/// of the block before it.
pub proof fn lemma_chain_linked(ledger: Blockchain, i: int)
    requires
        ledger.wf(),
        0 < i < ledger.chain@.len(),
    ensures
        ledger.chain@[i].prev_hash@ == ledger.chain@[i - 1].identity(),
{
    assert(ledger.linked_at(i));
}

/// Mining keeps the chain linked: the new tip's previous hash is the
/// identity hash of the old tip, and the old blocks stay in place.
pub proof fn lemma_mining_links_tip(before: Blockchain, after: Blockchain, timestamp: u64)
    requires
        Blockchain::mined(before, after, timestamp),
    ensures
        after.chain@.len() == before.chain@.len() + 1,
        after.chain@.subrange(0, before.chain@.len() as int) == before.chain@,
        after.tip_block().prev_hash@ == before.tip_block().identity(),
{
    assert(after.chain@.subrange(0, before.chain@.len() as int) =~= before.chain@);
}

/// The identity hash depends on the header alone: two blocks that agree on
/// index, timestamp, previous hash, content digest and nonce have the same
/// identity hash, whatever transactions they carry.
pub proof fn lemma_identity_depends_on_header(a: Block, b: Block)
    requires
        a.same_header(&b),
    ensures
        a.identity() == b.identity(),
{
}

/// Mining empties the pool, and the mined block carries exactly the
/// transactions that were pending, in the order they were submitted.
pub proof fn lemma_mining_drains_pool(before: Blockchain, after: Blockchain, timestamp: u64)
    requires
        Blockchain::mined(before, after, timestamp),
    ensures
        after.mempool@.len() == 0,
        after.tip_block().data@ == before.mempool@,
{
}

/// At difficulty 0 every digest is acceptable, so mining keeps the first
/// nonce it tries, 0.
pub proof fn lemma_difficulty_zero_first_nonce(before: Blockchain, after: Blockchain, timestamp: u64)
    requires
        Blockchain::mined(before, after, timestamp),
        before.difficulty == 0,
    ensures
        after.tip_block().nonce == 0,
{
    assert(before.next_accepts(timestamp, 0));
}

proof fn lemma_single(m: Map<Seq<u8>, i64>, tx: Transaction)
    ensures
        apply_transactions(m, seq![tx]) == apply_transaction(m, tx),
{
    assert(seq![tx].drop_last() =~= Seq::<Transaction>::empty());
    assert(apply_transactions(m, Seq::<Transaction>::empty()) == m);
    assert(seq![tx].last() == tx);
}

/// Mining a block that carries one transfer between two distinct keys
/// credits the recipient with the amount, debits the sender by it, and
/// leaves every other balance as it was. Away from the ends of the signed
/// 64-bit range the change is exactly plus and minus the amount.
pub proof fn lemma_transfer_moves_amount(
    before: Blockchain,
    after: Blockchain,
    timestamp: u64,
    tx: Transaction,
)
    requires
        Blockchain::mined(before, after, timestamp),
        before.mempool@ == seq![tx],
        tx.sender@ != tx.recipient@,
    ensures
        amount_in(after.balances@, tx.recipient@) == credit(
            amount_in(before.balances@, tx.recipient@),
            tx.amount,
        ),
        amount_in(after.balances@, tx.sender@) == debit(
            amount_in(before.balances@, tx.sender@),
            tx.amount,
        ),
        amount_in(before.balances@, tx.recipient@) + tx.amount <= i64::MAX ==> amount_in(
            after.balances@,
            tx.recipient@,
        ) == amount_in(before.balances@, tx.recipient@) + tx.amount,
        amount_in(before.balances@, tx.sender@) - tx.amount >= i64::MIN ==> amount_in(
            after.balances@,
            tx.sender@,
        ) == amount_in(before.balances@, tx.sender@) - tx.amount,
        forall|k: Seq<u8>|
            k != tx.sender@ && k != tx.recipient@ ==> #[trigger] amount_in(after.balances@, k)
                == amount_in(before.balances@, k),
{
    lemma_single(before.balances@, tx);
}

/// Mining a block that carries one transfer from a key to itself leaves
/// every balance as it was.
pub proof fn lemma_self_transfer_neutral(
    before: Blockchain,
    after: Blockchain,
    timestamp: u64,
    tx: Transaction,
)
    requires
        Blockchain::mined(before, after, timestamp),
        before.mempool@ == seq![tx],
        tx.sender@ == tx.recipient@,
    ensures
        forall|k: Seq<u8>| #[trigger]
            amount_in(after.balances@, k) == amount_in(before.balances@, k),
{
    lemma_single(before.balances@, tx);
}

} // verus!
