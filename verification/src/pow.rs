//! Proof of work: the search for a nonce under which a block's identifier
//! starts with enough zeros.

use crate::block::{block_id, with_nonce, Block, BlockView};
use crate::ledger::Blockchain;
use vstd::prelude::*;
use vstd::string::StrSliceExecFns;

verus! {

/// Number of leading zeros that the identifier of a mined block has.
pub const DIFFICULTY: usize = 4;

/// Whether the first `count` characters of `text`, or all of them where it
/// is shorter, are zeros.
pub open spec fn has_leading_zeros(text: Seq<char>, count: nat) -> bool {
    forall|i: int| 0 <= i < count && i < text.len() ==> text[i] == '0'
}

/// Whether `block` is mined: its identifier, at the nonce it holds, meets
/// the difficulty.
pub open spec fn is_mined(block: BlockView) -> bool {
    has_leading_zeros(block_id(block), DIFFICULTY as nat)
}

/// Whether `block` would be mined with `nonce` in place of its own.
pub open spec fn nonce_solves(block: BlockView, nonce: nat) -> bool {
    is_mined(with_nonce(block, nonce))
}

/// Whether some nonce that the counter can hold solves `block`.
pub open spec fn has_solution(block: BlockView) -> bool {
    exists|nonce: nat| nonce <= u64::MAX && #[trigger] nonce_solves(block, nonce)
}

/// Whether `nonce` solves `block` and no smaller one does.
pub open spec fn is_first_solution(block: BlockView, nonce: nat) -> bool {
    &&& nonce_solves(block, nonce)
    &&& forall|smaller: nat| smaller < nonce ==> !#[trigger] nonce_solves(block, smaller)
}

/// The nonce that a block holds has no bearing on which nonces solve it.
pub proof fn lemma_solutions_ignore_nonce(block: BlockView, nonce: nat)
    ensures
        forall|n: nat|
            #![trigger nonce_solves(with_nonce(block, nonce), n)]
            nonce_solves(with_nonce(block, nonce), n) == nonce_solves(block, n),
        has_solution(with_nonce(block, nonce)) == has_solution(block),
        forall|n: nat|
            #![trigger is_first_solution(with_nonce(block, nonce), n)]
            is_first_solution(with_nonce(block, nonce), n) == is_first_solution(block, n),
{
    let other = with_nonce(block, nonce);
    assert forall|n: nat| #![trigger nonce_solves(other, n)] nonce_solves(other, n)
        == nonce_solves(block, n) by {
        assert(with_nonce(other, n) == with_nonce(block, n));
    }
    assert forall|n: nat| #![trigger is_first_solution(other, n)] is_first_solution(other, n)
        == is_first_solution(block, n) by {
        if is_first_solution(block, n) {
            assert forall|smaller: nat| smaller < n implies !#[trigger] nonce_solves(
                other,
                smaller,
            ) by {
                assert(!nonce_solves(block, smaller));
            }
        }
        if is_first_solution(other, n) {
            assert forall|smaller: nat| smaller < n implies !#[trigger] nonce_solves(
                block,
                smaller,
            ) by {
                assert(!nonce_solves(other, smaller));
            }
        }
    }
    if has_solution(block) {
        let n = choose|n: nat| n <= u64::MAX && #[trigger] nonce_solves(block, n);
        assert(nonce_solves(other, n));
    }
    if has_solution(other) {
        let n = choose|n: nat| n <= u64::MAX && #[trigger] nonce_solves(other, n);
        assert(nonce_solves(block, n));
    }
}

/// Tests whether `text` starts with `count` zeros; a shorter text passes if
/// it holds nothing but zeros.
pub fn starts_with_zeros(text: &str, count: usize) -> (yes: bool)
    ensures
        yes == has_leading_zeros(text@, count as nat),
{
    let length = text.unicode_len();
    let mut i: usize = 0;
    while i < count && i < length
        invariant
            length == text@.len(),
            forall|j: int| 0 <= j < i ==> text@[j] == '0',
        decreases length - i,
    {
        if text.get_char(i) != '0' {
            return false;
        }
        i += 1;
    }
    true
}

impl Blockchain {
    /// Sets the block's nonce to `nonce` and tests whether the block is then
    /// mined.
    pub fn is_valid_proof(block: &mut Block, nonce: u64) -> (valid: bool)
        ensures
            final(block)@ == with_nonce(old(block)@, nonce as nat),
            valid == is_mined(final(block)@),
    {
        block.nonce = nonce;
        let id = Self::get_block_id(block);
        starts_with_zeros(id.as_str(), DIFFICULTY)
    }

    /// Searches the nonces 0, 1, 2, ... in order and stops at the first that
    /// solves the block, which is left in the block and returned. Where no
    /// nonce that the counter can hold solves it, the answer is `None` and
    /// the block is left at the last nonce tried.
    pub fn mine_proof_of_work(block: &mut Block) -> (found: Option<u64>)
        ensures
            match found {
                Some(nonce) => {
                    &&& is_first_solution(old(block)@, nonce as nat)
                    &&& final(block)@ == with_nonce(old(block)@, nonce as nat)
                    &&& is_mined(final(block)@)
                },
                None => {
                    &&& !has_solution(old(block)@)
                    &&& final(block)@ == with_nonce(old(block)@, u64::MAX as nat)
                },
            },
    {
        let mut nonce: u64 = 0;
        loop
            invariant
                with_nonce(block@, 0) == with_nonce(old(block)@, 0),
                forall|smaller: nat|
                    smaller < nonce ==> !#[trigger] nonce_solves(old(block)@, smaller),
            decreases u64::MAX - nonce,
        {
            let valid = Self::is_valid_proof(block, nonce);
            if valid {
                return Some(nonce);
            }
            if nonce == u64::MAX {
                return None;
            }
            nonce += 1;
        }
    }
}

} // verus!
