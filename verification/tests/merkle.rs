use ledger_core::hashing::zero_hash_string;
use ledger_core::{Blockchain, Transaction};

fn transaction(sender: &str, amount: u64) -> Transaction {
    Transaction {
        sender: sender.to_string(),
        recipient: "bob".to_string(),
        amount,
        timestamp: "t".to_string(),
        signature: Some("00".to_string()),
    }
}

fn leaf(tx: &Transaction) -> String {
    Blockchain::generate_hash(&tx.to_json())
}

fn node(left: &str, right: &str) -> String {
    Blockchain::generate_hash(&format!("{}{}", left, right))
}

#[test]
fn merkle_root_of_no_transactions_is_the_sentinel() {
    let ledger = Blockchain::empty();
    assert_eq!(ledger.generate_merkle_root(&Vec::new()), "0".repeat(64));
    assert_eq!(ledger.generate_merkle_root(&Vec::new()), zero_hash_string());
}

#[test]
fn merkle_root_of_one_transaction_is_its_leaf() {
    let ledger = Blockchain::empty();
    let a = transaction("a", 1);
    assert_eq!(ledger.generate_merkle_root(&vec![a.clone()]), leaf(&a));
}

#[test]
fn merkle_root_of_two_transactions_hashes_the_pair() {
    let ledger = Blockchain::empty();
    let a = transaction("a", 1);
    let b = transaction("b", 2);
    assert_eq!(
        ledger.generate_merkle_root(&vec![a.clone(), b.clone()]),
        node(&leaf(&a), &leaf(&b))
    );
}

#[test]
fn merkle_root_of_three_transactions_duplicates_the_last() {
    let ledger = Blockchain::empty();
    let a = transaction("a", 1);
    let b = transaction("b", 2);
    let c = transaction("c", 3);
    let expected = node(&node(&leaf(&a), &leaf(&b)), &node(&leaf(&c), &leaf(&c)));
    assert_eq!(ledger.generate_merkle_root(&vec![a, b, c]), expected);
}

#[test]
fn merkle_root_of_five_transactions_pads_two_levels() {
    let ledger = Blockchain::empty();
    let txs: Vec<Transaction> = (0..5).map(|i| transaction("s", i)).collect();
    let l: Vec<String> = txs.iter().map(leaf).collect();
    let n01 = node(&l[0], &l[1]);
    let n23 = node(&l[2], &l[3]);
    let n44 = node(&l[4], &l[4]);
    let expected = node(&node(&n01, &n23), &node(&n44, &n44));
    assert_eq!(ledger.generate_merkle_root(&txs), expected);
}

#[test]
fn merkle_root_is_deterministic() {
    let ledger = Blockchain::empty();
    let txs = vec![transaction("a", 1), transaction("b", 2), transaction("c", 3)];
    assert_eq!(ledger.generate_merkle_root(&txs), ledger.generate_merkle_root(&txs.clone()));
}

#[test]
fn merkle_root_changes_when_two_transactions_change_places() {
    let ledger = Blockchain::empty();
    let a = transaction("a", 1);
    let b = transaction("b", 2);
    let c = transaction("c", 3);
    let root = ledger.generate_merkle_root(&vec![a.clone(), b.clone(), c.clone()]);
    assert_ne!(ledger.generate_merkle_root(&vec![b.clone(), a.clone(), c.clone()]), root);
    assert_ne!(ledger.generate_merkle_root(&vec![a.clone(), c.clone(), b.clone()]), root);
    assert_ne!(ledger.generate_merkle_root(&vec![c, b, a]), root);
}

#[test]
fn merkle_root_covers_the_signature() {
    let ledger = Blockchain::empty();
    let signed = transaction("a", 1);
    let mut unsigned = transaction("a", 1);
    unsigned.signature = None;
    assert_ne!(
        ledger.generate_merkle_root(&vec![signed]),
        ledger.generate_merkle_root(&vec![unsigned])
    );
}

#[test]
fn hash_tx_hashes_of_one_leaf_returns_it_unchanged() {
    let mut leaves = vec!["only".to_string()];
    assert_eq!(Blockchain::hash_tx_hashes(&mut leaves), "only");
    assert_eq!(leaves, vec!["only".to_string()]);
}

#[test]
fn hash_tx_hashes_of_a_pair_is_the_digest_of_its_concatenation() {
    let mut leaves = vec!["a".to_string(), "b".to_string()];
    assert_eq!(
        Blockchain::hash_tx_hashes(&mut leaves),
        "fb8e20fc2e4c3f248c60c39bd652f3c1347298bb977b8b4d5903b85055620603"
    );
}

#[test]
fn hash_tx_hashes_of_an_even_level_leaves_it_as_it_was() {
    let mut leaves = vec!["l".to_string(), "r".to_string()];
    assert_eq!(Blockchain::hash_tx_hashes(&mut leaves), Blockchain::generate_hash("lr"));
    assert_eq!(leaves, vec!["l".to_string(), "r".to_string()]);
}

#[test]
fn hash_tx_hashes_of_an_odd_level_duplicates_its_last_leaf() {
    let mut leaves = vec!["x".to_string(), "y".to_string(), "z".to_string()];
    let root = Blockchain::hash_tx_hashes(&mut leaves);
    assert_eq!(root, node(&node("x", "y"), &node("z", "z")));
    assert_eq!(
        leaves,
        vec!["x".to_string(), "y".to_string(), "z".to_string(), "z".to_string()]
    );
}
