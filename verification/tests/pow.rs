use ledger_core::hashing::zero_hash_string;
use ledger_core::pow::{starts_with_zeros, DIFFICULTY};
use ledger_core::{Block, Blockchain};

fn draft(timestamp: u64) -> Block {
    Block {
        index: 0,
        timestamp,
        transactions: Vec::new(),
        merkle_root: zero_hash_string(),
        nonce: 0,
        previous_hash: zero_hash_string(),
    }
}

#[test]
fn difficulty_is_four() {
    assert_eq!(DIFFICULTY, 4);
}

#[test]
fn starts_with_zeros_counts_leading_characters() {
    assert!(starts_with_zeros("0000ab", 4));
    assert!(starts_with_zeros("00000", 4));
    assert!(!starts_with_zeros("000a00", 4));
    assert!(!starts_with_zeros("a0000", 4));
    assert!(starts_with_zeros("abc", 0));
    assert!(starts_with_zeros("0abc", 1));
}

#[test]
fn starts_with_zeros_passes_a_short_text_of_zeros() {
    assert!(starts_with_zeros("", 4));
    assert!(starts_with_zeros("000", 4));
    assert!(!starts_with_zeros("00a", 4));
}

#[test]
fn is_valid_proof_sets_the_nonce_and_tests_the_block_id() {
    let mut block = draft(1700000000);
    for nonce in [0u64, 1, 2, 77, 123456] {
        let valid = Blockchain::is_valid_proof(&mut block, nonce);
        assert_eq!(block.nonce, nonce);
        assert_eq!(valid, Blockchain::get_block_id(&block).starts_with("0000"));
        assert_eq!(valid, Blockchain::has_valid_proof(&block));
    }
}

#[test]
fn mining_finds_the_first_nonce_that_solves_the_block() {
    let mut block = draft(1700000000);
    let before = block.clone();
    let nonce = Blockchain::mine_proof_of_work(&mut block).unwrap();
    assert_eq!(block.nonce, nonce);
    assert!(Blockchain::get_block_id(&block).starts_with("0000"));
    assert!(Blockchain::has_valid_proof(&block));
    let mut probe = before.clone();
    assert!(Blockchain::is_valid_proof(&mut probe, nonce));
    for smaller in 0..nonce {
        assert!(!Blockchain::is_valid_proof(&mut probe, smaller));
    }
    block.nonce = before.nonce;
    assert_eq!(block, before);
}

#[test]
fn mining_a_fixed_draft_gives_a_fixed_nonce() {
    let mut block = draft(1700000000);
    assert_eq!(Blockchain::mine_proof_of_work(&mut block), Some(9314));
    assert_eq!(
        Blockchain::get_block_id(&block),
        "0000a026d5cece1007656177c7ed4592e031faa72b2898834b51de04ad91bc75"
    );
    assert_eq!(
        Blockchain::generate_hash(&block.header_to_json()),
        "0000a026d5cece1007656177c7ed4592e031faa72b2898834b51de04ad91bc75"
    );
}

#[test]
fn mining_starts_again_from_zero() {
    let mut block = draft(1700000001);
    let first = Blockchain::mine_proof_of_work(&mut block).unwrap();
    block.nonce = 999_999_999;
    let second = Blockchain::mine_proof_of_work(&mut block).unwrap();
    assert_eq!(first, second);
}
