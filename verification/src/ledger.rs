//! The ledger: the chain of blocks and the pool of pending transactions.

use crate::block::{block_id, chain_view, clone_chain, with_nonce, Block, BlockView};
use crate::hashing::{zero_hash, zero_hash_string};
use crate::merkle::merkle_root;
use crate::pow::{has_solution, is_first_solution, lemma_solutions_ignore_nonce};
use crate::signature::{signing_outcome, SigningError};
use crate::transaction::{
    clone_transactions,
    transaction_json,
    transactions_view,
    with_signature,
    Transaction,
    TransactionView,
};
use crate::validation::{chain_valid, is_committed, is_linked};
use vstd::prelude::*;

verus! {

/// The chain and the pool of transactions that wait for the next block.
pub struct Blockchain {
    pub chain: Vec<Block>,
    pub mempool: Vec<Transaction>,
}

/// The mathematical value of a [`Blockchain`].
pub struct LedgerView {
    pub chain: Seq<BlockView>,
    pub mempool: Seq<TransactionView>,
}

impl View for Blockchain {
    type V = LedgerView;

    open spec fn view(&self) -> LedgerView {
        LedgerView { chain: chain_view(self.chain@), mempool: transactions_view(self.mempool@) }
    }
}

/// Why an operation on the ledger could not be carried out.
#[derive(Debug, Clone, Copy, PartialEq, Eq, Structural)]
pub enum LedgerError {
    /// The chain holds no block where one is needed.
    EmptyLedger,
    /// No nonce that the counter can hold solves the block.
    NonceSpaceExhausted,
}

/// The block that a ledger drafts at time `timestamp`: it takes the whole
/// pool, commits to it, starts at nonce 0 and points at the last block of
/// the chain, or at the sentinel where there is none.
pub open spec fn draft_block(ledger: LedgerView, timestamp: nat) -> BlockView {
    BlockView {
        index: ledger.chain.len(),
        timestamp,
        transactions: ledger.mempool,
        merkle_root: merkle_root(ledger.mempool),
        nonce: 0,
        previous_hash: if ledger.chain.len() == 0 {
            zero_hash()
        } else {
            block_id(ledger.chain.last())
        },
    }
}

/// The transaction that a request describes, before it is signed.
pub open spec fn requested_transaction(
    sender: Seq<char>,
    recipient: Seq<char>,
    amount: nat,
    timestamp: Seq<char>,
) -> TransactionView {
    TransactionView { sender, recipient, amount, timestamp, signature: None }
}

/// What submitting `request` with the key encoded by `wif` gives: the
/// request signed over its canonical text, or the reason why it could not
/// be signed.
pub open spec fn submission_outcome(request: TransactionView, wif: Seq<char>) -> Result<
    TransactionView,
    SigningError,
> {
    match signing_outcome(wif, transaction_json(request)) {
        Ok(signature) => Ok(with_signature(request, Some(signature))),
        Err(error) => Err(error),
    }
}

/// The ledger that holds nothing.
pub open spec fn empty_ledger() -> LedgerView {
    LedgerView { chain: Seq::empty(), mempool: Seq::empty() }
}

/// Reads the system clock with `SystemTime::now` and measures it from the
/// Unix epoch with `duration_since`. Nothing is promised of the reading; a
/// clock set before the epoch gives `None`.
#[verifier::external_body]
fn seconds_since_epoch() -> Option<u64> {
    std::time::SystemTime::now().duration_since(std::time::UNIX_EPOCH).ok().map(|d| d.as_secs())
}

/// The current time in seconds since the Unix epoch: what
/// [`timestamp_of_reading`] makes of the clock's reading. Nothing holds of
/// the clock, so nothing is promised of the result.
fn current_timestamp() -> u64 {
    timestamp_of_reading(seconds_since_epoch())
}

/// The timestamp that a reading of the clock stands for: the seconds it
/// counted, or 0 where it counted none.
pub open spec fn reading_timestamp(reading: Option<u64>) -> u64 {
    match reading {
        Some(seconds) => seconds,
        None => 0,
    }
}

/// Turns a reading of the clock into a timestamp: the seconds since the
/// Unix epoch, or 0 for a clock that is set before the epoch.
pub fn timestamp_of_reading(reading: Option<u64>) -> (timestamp: u64)
    ensures
        timestamp == reading_timestamp(reading),
{
    match reading {
        Some(seconds) => seconds,
        None => 0,
    }
}

/// A chain that is linked and committed stays so when the block drafted
/// from it is appended.
pub proof fn lemma_draft_extends_chain(ledger: LedgerView, timestamp: nat)
    requires
        is_linked(ledger.chain),
        is_committed(ledger.chain),
    ensures
        is_linked(ledger.chain.push(draft_block(ledger, timestamp))),
        is_committed(ledger.chain.push(draft_block(ledger, timestamp))),
{
}

/// A chain that is linked and committed stays so when the nonce of its last
/// block changes: no block points at the last one.
pub proof fn lemma_nonce_keeps_chain_linked(chain: Seq<BlockView>, nonce: nat)
    requires
        chain.len() > 0,
        is_linked(chain),
        is_committed(chain),
    ensures
        is_linked(chain.update(chain.len() - 1, with_nonce(chain.last(), nonce))),
        is_committed(chain.update(chain.len() - 1, with_nonce(chain.last(), nonce))),
{
}

impl Clone for Blockchain {
    fn clone(&self) -> (copy: Self)
        ensures
            copy@ == self@,
    {
        Blockchain { chain: clone_chain(&self.chain), mempool: clone_transactions(&self.mempool) }
    }
}

impl Blockchain {
    /// The invariant of the chain: every block points at its predecessor,
    /// the first one at the sentinel, and every block's Merkle root commits
    /// to the block's transactions.
    pub open spec fn well_formed(&self) -> bool {
        is_linked(self@.chain) && is_committed(self@.chain)
    }

    /// Whether every pending transaction carries a signature.
    pub open spec fn pool_is_signed(&self) -> bool {
        forall|i: int|
            0 <= i < self@.mempool.len() ==> (#[trigger] self@.mempool[i]).signature is Some
    }

    /// A ledger without blocks or pending transactions.
    pub fn empty() -> (ledger: Self)
        ensures
            ledger@ == empty_ledger(),
            ledger.well_formed(),
            ledger.pool_is_signed(),
    {
        let ledger = Blockchain { chain: Vec::new(), mempool: Vec::new() };
        assert(ledger@.chain =~= Seq::empty());
        assert(ledger@.mempool =~= Seq::empty());
        ledger
    }

    /// Drafts a block at the given time from the whole pool, appends it to
    /// the chain and empties the pool. The draft is not mined yet.
    pub fn create_block_at(&mut self, timestamp: u64) -> (block: Block)
        ensures
            block@ == draft_block(old(self)@, timestamp as nat),
            final(self)@.chain == old(self)@.chain.push(block@),
            final(self)@.mempool == Seq::<TransactionView>::empty(),
            old(self).well_formed() ==> final(self).well_formed(),
    {
        let merkle_root = self.generate_merkle_root(&self.mempool);
        let previous_hash = if self.chain.len() > 0 {
            Self::get_block_id(&self.chain[self.chain.len() - 1])
        } else {
            zero_hash_string()
        };
        let block = Block {
            index: self.chain.len(),
            timestamp,
            transactions: clone_transactions(&self.mempool),
            merkle_root,
            nonce: 0,
            previous_hash,
        };
        self.mempool.clear();
        self.chain.push(block.clone());
        assert(self@.chain =~= old(self)@.chain.push(block@));
        proof {
            if old(self).well_formed() {
                lemma_draft_extends_chain(old(self)@, timestamp as nat);
            }
        }
        block
    }

    /// Drafts a block at the current time; see [`Blockchain::create_block_at`].
    /// The time that was read is the draft's timestamp.
    pub fn create_block(&mut self) -> (block: Block)
        ensures
            block@ == draft_block(old(self)@, block@.timestamp),
            final(self)@.chain == old(self)@.chain.push(block@),
            final(self)@.mempool == Seq::<TransactionView>::empty(),
            old(self).well_formed() ==> final(self).well_formed(),
    {
        let timestamp = current_timestamp();
        self.create_block_at(timestamp)
    }

    /// A copy of the last block of the chain.
    pub fn last_block(&self) -> (result: Result<Block, LedgerError>)
        ensures
            match result {
                Ok(block) => self@.chain.len() > 0 && block@ == self@.chain.last(),
                Err(error) => self@.chain.len() == 0 && error == LedgerError::EmptyLedger,
            },
    {
        if self.chain.len() == 0 {
            return Err(LedgerError::EmptyLedger);
        }
        Ok(self.chain[self.chain.len() - 1].clone())
    }

    /// Mines the last block of the chain in place and returns the nonce
    /// found, the first that solves the block. No other block and no
    /// pending transaction is touched.
    pub fn mine_last_block(&mut self) -> (result: Result<u64, LedgerError>)
        ensures
            final(self)@.mempool == old(self)@.mempool,
            old(self).well_formed() ==> final(self).well_formed(),
            match result {
                Ok(nonce) => {
                    &&& old(self)@.chain.len() > 0
                    &&& is_first_solution(old(self)@.chain.last(), nonce as nat)
                    &&& final(self)@.chain == old(self)@.chain.update(
                        old(self)@.chain.len() - 1,
                        with_nonce(old(self)@.chain.last(), nonce as nat),
                    )
                },
                Err(LedgerError::EmptyLedger) => {
                    &&& old(self)@.chain.len() == 0
                    &&& final(self)@.chain == old(self)@.chain
                },
                Err(LedgerError::NonceSpaceExhausted) => {
                    &&& old(self)@.chain.len() > 0
                    &&& !has_solution(old(self)@.chain.last())
                    &&& final(self)@.chain == old(self)@.chain.update(
                        old(self)@.chain.len() - 1,
                        with_nonce(old(self)@.chain.last(), u64::MAX as nat),
                    )
                },
            },
    {
        let mut block = match self.chain.pop() {
            Some(block) => block,
            None => return Err(LedgerError::EmptyLedger),
        };
        let found = Self::mine_proof_of_work(&mut block);
        proof {
            if old(self).well_formed() {
                lemma_nonce_keeps_chain_linked(old(self)@.chain, block@.nonce);
            }
        }
        self.chain.push(block);
        match found {
            Some(nonce) => {
                assert(self@.chain =~= old(self)@.chain.update(
                    old(self)@.chain.len() - 1,
                    with_nonce(old(self)@.chain.last(), nonce as nat),
                ));
                Ok(nonce)
            },
            None => {
                assert(self@.chain =~= old(self)@.chain.update(
                    old(self)@.chain.len() - 1,
                    with_nonce(old(self)@.chain.last(), u64::MAX as nat),
                ));
                Err(LedgerError::NonceSpaceExhausted)
            },
        }
    }

    /// Drafts a block and mines it at once; used for the first block.
    /// Returns the draft as it was before mining.
    fn create_genesis_block(&mut self) -> (draft: Block)
        ensures
            draft@ == draft_block(old(self)@, draft@.timestamp),
            final(self)@.mempool == Seq::<TransactionView>::empty(),
            final(self)@.chain.len() == old(self)@.chain.len() + 1,
            final(self)@.chain == old(self)@.chain.push(
                with_nonce(draft@, final(self)@.chain.last().nonce),
            ),
            if has_solution(draft@) {
                is_first_solution(draft@, final(self)@.chain.last().nonce)
            } else {
                final(self)@.chain.last().nonce == u64::MAX
            },
            old(self).well_formed() ==> final(self).well_formed(),
    {
        let genesis_block = self.create_block();
        let _ = self.mine_last_block();
        genesis_block
    }

    /// A ledger whose chain holds the genesis block alone: no transactions,
    /// the sentinel as predecessor and as Merkle root, mined with the first
    /// nonce that solves it. Where no nonce solves it the block is left
    /// unmined at the largest nonce.
    pub fn new() -> (ledger: Self)
        ensures
            ledger.well_formed(),
            ledger@.mempool == Seq::<TransactionView>::empty(),
            ledger@.chain.len() == 1,
            with_nonce(ledger@.chain[0], 0) == draft_block(
                empty_ledger(),
                ledger@.chain[0].timestamp,
            ),
            if has_solution(ledger@.chain[0]) {
                &&& is_first_solution(ledger@.chain[0], ledger@.chain[0].nonce)
                &&& chain_valid(ledger@.chain)
            } else {
                ledger@.chain[0].nonce == u64::MAX
            },
    {
        let mut initial_blockchain = Self::empty();
        let draft = initial_blockchain.create_genesis_block();
        proof {
            lemma_solutions_ignore_nonce(draft@, initial_blockchain@.chain[0].nonce);
        }
        initial_blockchain
    }

    /// Builds a transaction from the request, signs its unsigned form with
    /// the given private key and appends it to the pool. A transaction that
    /// cannot be signed is refused: the error is returned and the pool stays
    /// as it was, so the pool never receives an unsigned transaction here.
    pub fn create_transaction(
        &mut self,
        sender: &str,
        recipient: &str,
        amount: u64,
        timestamp: &str,
        priv_wif_key: &str,
    ) -> (result: Result<Transaction, SigningError>)
        ensures
            final(self)@.chain == old(self)@.chain,
            old(self).well_formed() ==> final(self).well_formed(),
            old(self).pool_is_signed() ==> final(self).pool_is_signed(),
            match result {
                Ok(transaction) => {
                    &&& submission_outcome(
                        requested_transaction(sender@, recipient@, amount as nat, timestamp@),
                        priv_wif_key@,
                    ) == Ok::<TransactionView, SigningError>(transaction@)
                    &&& final(self)@.mempool == old(self)@.mempool.push(transaction@)
                },
                Err(error) => {
                    &&& submission_outcome(
                        requested_transaction(sender@, recipient@, amount as nat, timestamp@),
                        priv_wif_key@,
                    ) == Err::<TransactionView, SigningError>(error)
                    &&& final(self)@.mempool == old(self)@.mempool
                },
            },
    {
        let mut transaction = Transaction {
            sender: sender.to_owned(),
            recipient: recipient.to_owned(),
            amount,
            timestamp: timestamp.to_owned(),
            signature: None,
        };
        let tx_data = transaction.signing_message();
        match Self::sign(priv_wif_key, tx_data.as_str()) {
            Ok(signature) => {
                transaction.signature = Some(signature);
                self.mempool.push(transaction.clone());
                assert(self@.mempool =~= old(self)@.mempool.push(transaction@));
                Ok(transaction)
            },
            Err(error) => Err(error),
        }
    }
}

} // verus!
