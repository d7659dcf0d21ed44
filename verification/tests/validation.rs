use ledger_core::{Block, Blockchain};

const WIF: &str = "KwDiBf89QgGbjEhKnhXJuH7LrciVrZi3qYjgd9M7rFU73sVHnoWn";
const ADDRESS: &str = "0279be667ef9dcbbac55a06295ce870b07029bfcdb2dce28d959f2815b16f81798";

fn mined_chain(blocks: u64) -> Vec<Block> {
    let mut ledger = Blockchain::empty();
    for i in 0..blocks {
        if i > 0 {
            ledger.create_transaction(ADDRESS, "bob", i, "t1", WIF).unwrap();
            ledger.create_transaction(ADDRESS, "carol", 10 * i, "t2", WIF).unwrap();
        }
        ledger.create_block_at(1700000000 + i);
        ledger.mine_last_block().unwrap();
    }
    ledger.chain
}

#[test]
fn empty_chain_is_valid() {
    assert!(Blockchain::empty().is_valid_chain(&Vec::new()));
}

#[test]
fn mined_chain_is_valid() {
    let ledger = Blockchain::empty();
    let chain = mined_chain(3);
    assert!(ledger.is_valid_chain(&chain));
    assert!(ledger.is_valid_chain(&chain[..1].to_vec()));
    assert!(ledger.is_valid_chain(&chain[..2].to_vec()));
}

#[test]
fn chain_that_does_not_start_at_genesis_is_invalid() {
    let ledger = Blockchain::empty();
    let chain = mined_chain(2);
    assert!(!ledger.is_valid_chain(&chain[1..].to_vec()));
}

#[test]
fn unmined_block_invalidates_the_chain() {
    let ledger = Blockchain::empty();
    let mut chain = mined_chain(2);
    let mut nonce = 0;
    while Blockchain::is_valid_proof(&mut chain[1], nonce) {
        nonce += 1;
    }
    assert!(!ledger.is_valid_chain(&chain));
}

#[test]
fn tampering_with_any_transaction_field_invalidates_the_chain() {
    let ledger = Blockchain::empty();
    let chain = mined_chain(3);

    let mut tampered = chain.clone();
    tampered[1].transactions[0].amount += 1;
    assert!(!ledger.is_valid_chain(&tampered));

    let mut tampered = chain.clone();
    tampered[1].transactions[1].recipient = "mallory".to_string();
    assert!(!ledger.is_valid_chain(&tampered));

    let mut tampered = chain.clone();
    tampered[2].transactions[0].sender = ADDRESS.to_uppercase();
    assert!(!ledger.is_valid_chain(&tampered));

    let mut tampered = chain.clone();
    tampered[2].transactions[1].timestamp = "t3".to_string();
    assert!(!ledger.is_valid_chain(&tampered));

    let mut tampered = chain.clone();
    tampered[2].transactions[1].signature = tampered[2].transactions[0].signature.clone();
    assert!(!ledger.is_valid_chain(&tampered));

    let mut tampered = chain.clone();
    tampered[1].transactions[0].signature = None;
    assert!(!ledger.is_valid_chain(&tampered));
}

#[test]
fn tampering_is_caught_even_when_the_merkle_root_is_recomputed() {
    let ledger = Blockchain::empty();
    let mut chain = mined_chain(2);
    chain[1].transactions[0].amount += 1;
    chain[1].merkle_root = ledger.generate_merkle_root(&chain[1].transactions);
    let mut last = chain.pop().unwrap();
    Blockchain::mine_proof_of_work(&mut last).unwrap();
    chain.push(last);
    assert!(Blockchain::has_valid_proof(&chain[1]));
    assert!(!Blockchain::has_valid_signatures(&chain[1].transactions));
    assert!(!ledger.is_valid_chain(&chain));
}

#[test]
fn dropping_or_reordering_transactions_invalidates_the_chain() {
    let ledger = Blockchain::empty();
    let chain = mined_chain(2);

    let mut tampered = chain.clone();
    tampered[1].transactions.swap(0, 1);
    assert!(!ledger.is_valid_chain(&tampered));

    let mut tampered = chain.clone();
    tampered[1].transactions.pop();
    assert!(!ledger.is_valid_chain(&tampered));
}

#[test]
fn wrong_merkle_root_invalidates_the_chain() {
    let ledger = Blockchain::empty();
    let mut chain = mined_chain(2);
    chain[1].merkle_root = "0".repeat(64);
    let mut last = chain.pop().unwrap();
    Blockchain::mine_proof_of_work(&mut last).unwrap();
    chain.push(last);
    assert!(Blockchain::has_valid_proof(&chain[1]));
    assert!(!ledger.is_valid_chain(&chain));
}

#[test]
fn altering_previous_hash_invalidates_the_chain() {
    let ledger = Blockchain::empty();
    let chain = mined_chain(3);
    for k in 1..chain.len() {
        for forged in ["", "arbitrary", &"0".repeat(64), &"f".repeat(64)] {
            let mut tampered = chain.clone();
            tampered[k].previous_hash = forged.to_string();
            assert!(!ledger.is_valid_chain(&tampered));
        }
    }
}

#[test]
fn forged_link_is_caught_even_when_the_block_is_mined_again() {
    let ledger = Blockchain::empty();
    let mut chain = mined_chain(2);
    let mut last = chain.pop().unwrap();
    last.previous_hash = "0".repeat(64);
    Blockchain::mine_proof_of_work(&mut last).unwrap();
    chain.push(last);
    assert!(Blockchain::has_valid_proof(&chain[1]));
    assert!(!ledger.is_valid_chain(&chain));
}

#[test]
fn genesis_must_point_at_the_sentinel() {
    let ledger = Blockchain::empty();
    let mut chain = mined_chain(1);
    chain[0].previous_hash = "1".repeat(64);
    Blockchain::mine_proof_of_work(&mut chain[0]).unwrap();
    assert!(!ledger.is_valid_chain(&chain));
}

#[test]
fn previous_hash_check_follows_the_position() {
    let ledger = Blockchain::empty();
    let chain = mined_chain(2);
    assert!(ledger.verify_is_valid_previous_hash(&chain[0], &chain[0], true));
    assert!(ledger.verify_is_valid_previous_hash(&chain[1], &chain[0], false));
    assert!(!ledger.verify_is_valid_previous_hash(&chain[1], &chain[0], true));
    assert!(!ledger.verify_is_valid_previous_hash(&chain[0], &chain[0], false));
    assert!(!ledger.verify_is_valid_previous_hash(&chain[1], &chain[1], false));
}

#[test]
fn signature_check_covers_every_transaction() {
    let chain = mined_chain(2);
    assert!(Blockchain::has_valid_signatures(&Vec::new()));
    assert!(Blockchain::has_valid_signatures(&chain[1].transactions));
    let mut txs = chain[1].transactions.clone();
    txs[1].signature = None;
    assert!(!Blockchain::has_valid_signatures(&txs));
}
