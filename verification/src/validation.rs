//! Whole-chain validation: proof of work, signatures, Merkle commitment and
//! linkage of every block.

use crate::block::{
    block_id,
    chain_view,
    with_previous_hash,
    with_transactions,
    Block,
    BlockView,
};
use crate::hashing::{zero_hash, zero_hash_string};
use crate::ledger::Blockchain;
use crate::merkle::{
    commitment_inputs,
    hashes_apart,
    lemma_merkle_root_binds_transactions,
    merkle_root,
};
use crate::pow::{is_mined, starts_with_zeros, DIFFICULTY};
use crate::signature::signature_verifies;
use crate::transaction::{
    transaction_json,
    transactions_view,
    unsigned,
    Transaction,
    TransactionView,
};
use vstd::prelude::*;

verus! {

/// Whether `tx` carries a signature that its sender's key accepts for the
/// transaction's unsigned form.
pub open spec fn is_signed(tx: TransactionView) -> bool {
    match tx.signature {
        Some(signature) => signature_verifies(
            tx.sender,
            signature,
            transaction_json(unsigned(tx)),
        ),
        None => false,
    }
}

/// Whether every transaction of the list is signed.
pub open spec fn all_signed(txs: Seq<TransactionView>) -> bool {
    forall|i: int| 0 <= i < txs.len() ==> is_signed(#[trigger] txs[i])
}

/// Whether `block` points at its predecessor: at the sentinel for the first
/// block of a chain, at the identifier of `previous` for any other.
pub open spec fn link_holds(block: BlockView, previous: BlockView, is_genesis: bool) -> bool {
    if is_genesis {
        block.previous_hash == zero_hash()
    } else {
        block.previous_hash == block_id(previous)
    }
}

/// The block before position `i`; for the first block, the block itself.
pub open spec fn predecessor(chain: Seq<BlockView>, i: int) -> BlockView {
    if i > 0 {
        chain[i - 1]
    } else {
        chain[i]
    }
}

/// Whether the block at position `i` of `chain` passes all four checks: it
/// is mined, its transactions are signed, its Merkle root commits to them,
/// and it points at its predecessor.
pub open spec fn block_valid_at(chain: Seq<BlockView>, i: int) -> bool {
    &&& is_mined(chain[i])
    &&& all_signed(chain[i].transactions)
    &&& chain[i].merkle_root == merkle_root(chain[i].transactions)
    &&& link_holds(chain[i], predecessor(chain, i), i == 0)
}

/// Whether every block of `chain` is valid at its position.
pub open spec fn chain_valid(chain: Seq<BlockView>) -> bool {
    forall|i: int| 0 <= i < chain.len() ==> #[trigger] block_valid_at(chain, i)
}

/// Whether every block of `chain` points at its predecessor, the first one
/// at the sentinel.
pub open spec fn is_linked(chain: Seq<BlockView>) -> bool {
    forall|i: int|
        0 <= i < chain.len() ==> link_holds(#[trigger] chain[i], predecessor(chain, i), i == 0)
}

/// Whether the Merkle root of every block of `chain` commits to the block's
/// transactions.
pub open spec fn is_committed(chain: Seq<BlockView>) -> bool {
    forall|i: int|
        0 <= i < chain.len() ==> (#[trigger] chain[i]).merkle_root == merkle_root(
            chain[i].transactions,
        )
}

/// A valid chain is linked, and each of its blocks commits to its
/// transactions.
pub proof fn lemma_valid_chain_is_linked(chain: Seq<BlockView>)
    requires
        chain_valid(chain),
    ensures
        is_linked(chain),
        is_committed(chain),
{
    assert forall|i: int| 0 <= i < chain.len() implies link_holds(
        #[trigger] chain[i],
        predecessor(chain, i),
        i == 0,
    ) by {
        assert(block_valid_at(chain, i));
    }
    assert forall|i: int| 0 <= i < chain.len() implies (#[trigger] chain[i]).merkle_root
        == merkle_root(chain[i].transactions) by {
        assert(block_valid_at(chain, i));
    }
}

/// A mined block without transactions that points at the sentinel and
/// holds the sentinel as its Merkle root is, alone, a valid chain.
pub proof fn lemma_genesis_alone_is_valid(genesis: BlockView)
    requires
        genesis.transactions.len() == 0,
        genesis.merkle_root == zero_hash(),
        genesis.previous_hash == zero_hash(),
        is_mined(genesis),
    ensures
        chain_valid(seq![genesis]),
{
}

/// Forging the link of any block but the first makes a valid chain
/// invalid: with any other string in place of its `previous_hash`, the
/// block no longer points at its predecessor.
pub proof fn lemma_forged_link_breaks_chain(chain: Seq<BlockView>, k: int, forged: Seq<char>)
    requires
        chain_valid(chain),
        0 < k < chain.len(),
        forged != chain[k].previous_hash,
    ensures
        !chain_valid(chain.update(k, with_previous_hash(chain[k], forged))),
{
    let broken = chain.update(k, with_previous_hash(chain[k], forged));
    assert(block_valid_at(chain, k));
    assert(!block_valid_at(broken, k));
}

/// Tampering with one transaction of any block makes a valid chain
/// invalid: with a different transaction in place of the one at position
/// `p`, whichever field was changed, the block's Merkle root no longer
/// commits to its transactions, as long as the hash keeps the texts it
/// meets while committing to the old and the new list apart.
pub proof fn lemma_tampered_transaction_breaks_chain(
    chain: Seq<BlockView>,
    k: int,
    p: int,
    replacement: TransactionView,
)
    requires
        chain_valid(chain),
        0 <= k < chain.len(),
        0 <= p < chain[k].transactions.len(),
        replacement != chain[k].transactions[p],
        hashes_apart(
            commitment_inputs(chain[k].transactions.update(p, replacement)).union(
                commitment_inputs(chain[k].transactions),
            ),
        ),
    ensures
        !chain_valid(
            chain.update(
                k,
                with_transactions(chain[k], chain[k].transactions.update(p, replacement)),
            ),
        ),
{
    let tampered = chain[k].transactions.update(p, replacement);
    let broken = chain.update(k, with_transactions(chain[k], tampered));
    assert(block_valid_at(chain, k));
    lemma_merkle_root_binds_transactions(tampered, chain[k].transactions, p);
    assert(!block_valid_at(broken, k));
}

impl Blockchain {
    /// Whether `block` is mined at the nonce it holds.
    pub fn has_valid_proof(block: &Block) -> (valid: bool)
        ensures
            valid == is_mined(block@),
    {
        let id = Self::get_block_id(block);
        starts_with_zeros(id.as_str(), DIFFICULTY)
    }

    /// Whether every transaction of the list carries a signature that
    /// verifies against its sender over its unsigned form.
    pub fn has_valid_signatures(transactions: &Vec<Transaction>) -> (valid: bool)
        ensures
            valid == all_signed(transactions_view(transactions@)),
    {
        let mut i: usize = 0;
        while i < transactions.len()
            invariant
                i <= transactions.len(),
                forall|j: int| 0 <= j < i ==> is_signed(#[trigger] transactions[j]@),
            decreases transactions.len() - i,
        {
            let transaction = &transactions[i];
            let verified = match &transaction.signature {
                Some(signature) => {
                    let message = transaction.signing_message();
                    Self::verify_signature(
                        transaction.sender.as_str(),
                        signature.as_str(),
                        message.as_str(),
                    )
                },
                None => false,
            };
            if !verified {
                assert(!is_signed(transactions_view(transactions@)[i as int]));
                return false;
            }
            i += 1;
        }
        assert(all_signed(transactions_view(transactions@)));
        true
    }

    /// The linkage check of one block. The first block of a chain must point
    /// at the sentinel; any other must point at the identifier of
    /// `previous_block`.
    pub fn verify_is_valid_previous_hash(
        &self,
        block: &Block,
        previous_block: &Block,
        is_genesis: bool,
    ) -> (valid: bool)
        ensures
            valid == link_holds(block@, previous_block@, is_genesis),
    {
        if is_genesis {
            block.previous_hash == zero_hash_string()
        } else {
            block.previous_hash == Self::get_block_id(previous_block)
        }
    }

    /// Whether `chain` is valid as a whole: every block is mined, holds only
    /// signed transactions, commits to them with its Merkle root and points
    /// at its predecessor. One failing block fails the chain.
    pub fn is_valid_chain(&self, chain: &Vec<Block>) -> (valid: bool)
        ensures
            valid == chain_valid(chain_view(chain@)),
    {
        let mut i: usize = chain.len();
        while i > 0
            invariant
                i <= chain.len(),
                forall|j: int|
                    i <= j < chain.len() ==> #[trigger] block_valid_at(chain_view(chain@), j),
            decreases i,
        {
            i -= 1;
            let block = &chain[i];
            let previous_block = if i > 0 {
                &chain[i - 1]
            } else {
                block
            };
            let is_genesis = i == 0;
            if !Self::has_valid_proof(block) {
                assert(!block_valid_at(chain_view(chain@), i as int));
                return false;
            }
            if !Self::has_valid_signatures(&block.transactions) {
                assert(!block_valid_at(chain_view(chain@), i as int));
                return false;
            }
            if self.generate_merkle_root(&block.transactions) != block.merkle_root {
                assert(!block_valid_at(chain_view(chain@), i as int));
                return false;
            }
            if !self.verify_is_valid_previous_hash(block, previous_block, is_genesis) {
                assert(!block_valid_at(chain_view(chain@), i as int));
                return false;
            }
        }
        true
    }
}

} // verus!
