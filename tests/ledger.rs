use minichain::balances::{credited, debited, Balances};
use minichain::block::Block;
use minichain::blockchain::Blockchain;
use minichain::transaction::Transaction;

fn key(b: u8) -> [u8; 33] {
    [b; 33]
}

#[test]
fn genesis_block_shape() {
    let ledger = Blockchain::new(3);
    assert_eq!(ledger.chain.len(), 1);
    let g = ledger.tip();
    assert_eq!(g.index, 0);
    assert_eq!(g.prev_hash, [0u8; 32]);
    assert_eq!(g.merkle_root, [0u8; 32]);
    assert_eq!(g.nonce, 0);
    assert!(g.data.is_empty());
    assert!(ledger.mempool.is_empty());
    assert_eq!(ledger.balance_of(&key(1)), 0);
    assert_eq!(ledger.difficulty, 3);
}

#[test]
fn difficulty_zero_takes_first_nonce() {
    let mut ledger = Blockchain::new(0);
    assert!(ledger.mine_block());
    assert_eq!(ledger.chain.len(), 2);
    assert_eq!(ledger.tip().nonce, 0);
    assert_eq!(ledger.tip().index, 1);
}

#[test]
fn mined_block_meets_difficulty() {
    let mut ledger = Blockchain::new(2);
    assert!(ledger.mine_block());
    let spelled = hex::encode(ledger.tip().hash());
    assert!(spelled.starts_with("00"));
}

#[test]
fn mined_nonce_is_the_least_that_meets() {
    let mut ledger = Blockchain::new(1);
    assert!(ledger.mine_block());
    let mut b = Block::new(0, [0u8; 32], [0u8; 1024]);
    let tip = ledger.tip();
    b.index = tip.index;
    b.timestamp = tip.timestamp;
    b.prev_hash = tip.prev_hash;
    b.merkle_root = tip.merkle_root;
    for n in 0..tip.nonce {
        b.nonce = n;
        assert!(!hex::encode(b.hash()).starts_with('0'));
    }
    b.nonce = tip.nonce;
    assert!(hex::encode(b.hash()).starts_with('0'));
}

#[test]
fn mined_chain_is_linked() {
    let mut ledger = Blockchain::new(1);
    for _ in 0..3 {
        assert!(ledger.mine_block());
    }
    assert_eq!(ledger.chain.len(), 4);
    for i in 1..ledger.chain.len() {
        assert_eq!(ledger.chain[i].prev_hash, ledger.chain[i - 1].hash());
        assert_eq!(ledger.chain[i].index, i as u64);
        assert!(hex::encode(ledger.chain[i].hash()).starts_with('0'));
    }
}

#[test]
fn hash_is_stable_and_ignores_transactions() {
    let mut b = Block::new(7, [9u8; 32], [0u8; 1024]);
    let first = b.hash();
    assert_eq!(first, b.hash());
    b.data.push(Transaction::new(key(1), key(2), 5));
    assert_eq!(first, b.hash());
    b.nonce = 1;
    assert_ne!(first, b.hash());
}

#[test]
fn mining_drains_the_pool_in_order() {
    let mut ledger = Blockchain::new(1);
    let txs = [
        Transaction::new(key(1), key(2), 10),
        Transaction::new(key(2), key(3), 20),
        Transaction::new(key(3), key(1), 30),
    ];
    for tx in txs.iter() {
        ledger.add_transaction(*tx);
    }
    assert_eq!(ledger.mempool.len(), 3);
    assert!(ledger.mine_block());
    assert!(ledger.mempool.is_empty());
    let data = &ledger.tip().data;
    assert_eq!(data.len(), 3);
    for (got, want) in data.iter().zip(txs.iter()) {
        assert_eq!(got.recipient, want.recipient);
        assert_eq!(got.sender, want.sender);
        assert_eq!(got.amount, want.amount);
    }
}

#[test]
fn pending_transactions_do_not_move_balances() {
    let mut ledger = Blockchain::new(0);
    ledger.add_transaction(Transaction::new(key(1), key(2), 10));
    assert_eq!(ledger.balance_of(&key(1)), 0);
    assert_eq!(ledger.balance_of(&key(2)), 0);
}

#[test]
fn transfer_moves_amount() {
    let mut ledger = Blockchain::new(1);
    ledger.add_transaction(Transaction::new(key(1), key(2), 100));
    assert!(ledger.mine_block());
    assert_eq!(ledger.balance_of(&key(1)), 100);
    assert_eq!(ledger.balance_of(&key(2)), -100);
    assert_eq!(ledger.balance_of(&key(3)), 0);
    ledger.add_transaction(Transaction::new(key(3), key(1), 40));
    assert!(ledger.mine_block());
    assert_eq!(ledger.balance_of(&key(1)), 60);
    assert_eq!(ledger.balance_of(&key(2)), -100);
    assert_eq!(ledger.balance_of(&key(3)), 40);
}

#[test]
fn self_transfer_is_neutral() {
    let mut ledger = Blockchain::new(0);
    ledger.add_transaction(Transaction::new(key(4), key(5), 7));
    assert!(ledger.mine_block());
    ledger.add_transaction(Transaction::new(key(4), key(4), 1000));
    assert!(ledger.mine_block());
    assert_eq!(ledger.balance_of(&key(4)), 7);
    assert_eq!(ledger.balance_of(&key(5)), -7);
}

#[test]
fn zero_amount_transfer() {
    let mut ledger = Blockchain::new(0);
    ledger.add_transaction(Transaction::new(key(1), key(2), 0));
    assert!(ledger.mine_block());
    assert_eq!(ledger.balance_of(&key(1)), 0);
    assert_eq!(ledger.balance_of(&key(2)), 0);
    assert_eq!(ledger.tip().data.len(), 1);
}

#[test]
fn balances_wrap_at_the_signed_range() {
    let mut ledger = Blockchain::new(0);
    ledger.add_transaction(Transaction::new(key(1), key(2), u64::MAX));
    assert!(ledger.mine_block());
    assert_eq!(ledger.balance_of(&key(1)), -1);
    assert_eq!(ledger.balance_of(&key(2)), 1);
}

#[test]
fn credit_and_debit_values() {
    assert_eq!(credited(5, 10), 15);
    assert_eq!(debited(5, 10), -5);
    assert_eq!(credited(i64::MAX, 1), i64::MIN);
    assert_eq!(debited(i64::MIN, 1), i64::MAX);
    assert_eq!(credited(i64::MIN, u64::MAX), i64::MAX);
    assert_eq!(debited(i64::MAX, u64::MAX), i64::MIN);
}

#[test]
fn balance_book_set_and_get() {
    let mut book = Balances::new();
    assert_eq!(book.get(&key(1)), 0);
    book.set(&key(1), 12);
    book.set(&key(2), -3);
    book.set(&key(1), 20);
    assert_eq!(book.get(&key(1)), 20);
    assert_eq!(book.get(&key(2)), -3);
    assert_eq!(book.get(&key(3)), 0);
}

#[test]
fn accepts_a_valid_successor() {
    let mut ledger = Blockchain::new(1);
    let tip = ledger.tip();
    let mut b = Block::new(tip.index + 1, tip.hash(), [0u8; 1024]);
    assert!(b.mine(1));
    b.data.push(Transaction::new(key(1), key(2), 3));
    assert!(ledger.accept_block(b));
    assert_eq!(ledger.chain.len(), 2);
    assert_eq!(ledger.balance_of(&key(1)), 3);
    assert_eq!(ledger.balance_of(&key(2)), -3);
}

#[test]
fn rejects_a_block_with_the_wrong_index() {
    let mut ledger = Blockchain::new(0);
    let tip = ledger.tip();
    let b = Block::new(tip.index + 2, tip.hash(), [0u8; 1024]);
    assert!(!ledger.accept_block(b));
    assert_eq!(ledger.chain.len(), 1);
}

#[test]
fn rejects_a_block_with_the_wrong_previous_hash() {
    let mut ledger = Blockchain::new(0);
    let b = Block::new(1, [1u8; 32], [0u8; 1024]);
    assert!(!ledger.accept_block(b));
    assert_eq!(ledger.chain.len(), 1);
}

#[test]
fn rejects_a_block_that_misses_the_difficulty() {
    let mut ledger = Blockchain::new(2);
    let tip = ledger.tip();
    let mut b = Block::new(tip.index + 1, tip.hash(), [0u8; 1024]);
    let mut n: u64 = 0;
    loop {
        b.nonce = n;
        if !hex::encode(b.hash()).starts_with("00") {
            break;
        }
        n += 1;
    }
    assert!(!ledger.accept_block(b));
    assert_eq!(ledger.chain.len(), 1);
}

#[test]
fn mine_block_at_uses_the_given_time() {
    let mut ledger = Blockchain::new(1);
    assert!(ledger.mine_block_at(1_700_000_000));
    assert_eq!(ledger.tip().timestamp, 1_700_000_000);
    assert_eq!(ledger.tip().index, 1);
}
