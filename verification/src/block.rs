//! Blocks, their headers and their identifiers.

use crate::encoding::{decimal, json_string, json_string_literal, push_decimal};
use crate::hashing::{is_digest, sha256_hex};
use crate::ledger::Blockchain;
use crate::transaction::{clone_transactions, transactions_view, Transaction, TransactionView};
use vstd::prelude::*;
use vstd::string::StringExecFns;

verus! {

/// One link of the chain: an ordered list of transactions, the commitment to
/// them, the proof-of-work counter and the identifier of the predecessor.
#[derive(Debug, PartialEq, Eq)]
pub struct Block {
    pub index: usize,
    pub timestamp: u64,
    pub transactions: Vec<Transaction>,
    pub merkle_root: String,
    pub nonce: u64,
    pub previous_hash: String,
}

/// The mathematical value of a [`Block`].
pub struct BlockView {
    pub index: nat,
    pub timestamp: nat,
    pub transactions: Seq<TransactionView>,
    pub merkle_root: Seq<char>,
    pub nonce: nat,
    pub previous_hash: Seq<char>,
}

impl View for Block {
    type V = BlockView;

    open spec fn view(&self) -> BlockView {
        BlockView {
            index: self.index as nat,
            timestamp: self.timestamp as nat,
            transactions: transactions_view(self.transactions@),
            merkle_root: self.merkle_root@,
            nonce: self.nonce as nat,
            previous_hash: self.previous_hash@,
        }
    }
}

/// The values of a sequence of blocks, in order.
pub open spec fn chain_view(blocks: Seq<Block>) -> Seq<BlockView> {
    Seq::new(blocks.len(), |i: int| blocks[i]@)
}

/// `block` with its proof-of-work counter set to `nonce`.
pub open spec fn with_nonce(block: BlockView, nonce: nat) -> BlockView {
    BlockView { nonce, ..block }
}

/// `block` with `transactions` in place of its own, and nothing else changed.
pub open spec fn with_transactions(
    block: BlockView,
    transactions: Seq<TransactionView>,
) -> BlockView {
    BlockView { transactions, ..block }
}

/// `block` with `previous_hash` in place of its own, and nothing else
/// changed.
pub open spec fn with_previous_hash(block: BlockView, previous_hash: Seq<char>) -> BlockView {
    BlockView { previous_hash, ..block }
}

/// The canonical JSON object of a block's header: every field but the
/// transaction list, keys in alphabetical order, without whitespace.
pub open spec fn header_json(block: BlockView) -> Seq<char> {
    "{\"index\":"@ + decimal(block.index) + ",\"merkle_root\":"@ + json_string_literal(
        block.merkle_root,
    ) + ",\"nonce\":"@ + decimal(block.nonce) + ",\"previous_hash\":"@ + json_string_literal(
        block.previous_hash,
    ) + ",\"timestamp\":"@ + decimal(block.timestamp) + "}"@
}

/// The identifier of a block: the digest of its header.
pub open spec fn block_id(block: BlockView) -> Seq<char> {
    sha256_hex(header_json(block))
}

impl Clone for Block {
    fn clone(&self) -> (copy: Self)
        ensures
            copy@ == self@,
    {
        Block {
            index: self.index,
            timestamp: self.timestamp,
            transactions: clone_transactions(&self.transactions),
            merkle_root: self.merkle_root.clone(),
            nonce: self.nonce,
            previous_hash: self.previous_hash.clone(),
        }
    }
}

impl Block {
    /// The canonical JSON text of the header.
    pub fn header_to_json(&self) -> (json: String)
        ensures
            json@ == header_json(self@),
    {
        let mut json = String::from_str("{\"index\":");
        push_decimal(&mut json, self.index as u64);
        json.append(",\"merkle_root\":");
        json.append(json_string(self.merkle_root.as_str()).as_str());
        json.append(",\"nonce\":");
        push_decimal(&mut json, self.nonce);
        json.append(",\"previous_hash\":");
        json.append(json_string(self.previous_hash.as_str()).as_str());
        json.append(",\"timestamp\":");
        push_decimal(&mut json, self.timestamp);
        json.append("}");
        json
    }
}

impl Blockchain {
    /// The identifier of `block`: the digest of its header, transactions
    /// excluded.
    pub fn get_block_id(block: &Block) -> (id: String)
        ensures
            id@ == block_id(block@),
            is_digest(id@),
    {
        let header = block.header_to_json();
        Self::generate_hash(header.as_str())
    }
}

/// Copies a chain.
pub fn clone_chain(blocks: &Vec<Block>) -> (copy: Vec<Block>)
    ensures
        chain_view(copy@) == chain_view(blocks@),
{
    let mut copy: Vec<Block> = Vec::new();
    let mut i: usize = 0;
    while i < blocks.len()
        invariant
            i <= blocks.len(),
            copy.len() == i,
            forall|j: int| 0 <= j < i ==> copy[j]@ == blocks[j]@,
        decreases blocks.len() - i,
    {
        copy.push(blocks[i].clone());
        i += 1;
    }
    copy
}

} // verus!
