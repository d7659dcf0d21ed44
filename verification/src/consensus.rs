//! The longest-valid-chain rule: among the chains that peers offer, the
//! ledger adopts the longest valid one that is strictly longer than its own.

use crate::block::{chain_view, Block, BlockView};
use crate::ledger::Blockchain;
use crate::validation::{chain_valid, lemma_valid_chain_is_linked};
use vstd::prelude::*;

verus! {

/// The values of the chains that were offered, in the order of the peers.
pub open spec fn candidates_view(candidates: Seq<Vec<Block>>) -> Seq<Seq<BlockView>> {
    Seq::new(candidates.len(), |i: int| chain_view(candidates[i]@))
}

/// Whether a ledger whose chain has `local_length` blocks may adopt
/// `candidate`: it is valid and strictly longer.
pub open spec fn is_eligible(local_length: nat, candidate: Seq<BlockView>) -> bool {
    candidate.len() > local_length && chain_valid(candidate)
}

/// Whether the candidate at position `k` wins: it is eligible, no eligible
/// candidate is longer, and of the eligible ones of its length it comes
/// first.
pub open spec fn is_winner(local_length: nat, candidates: Seq<Seq<BlockView>>, k: int) -> bool {
    &&& 0 <= k < candidates.len()
    &&& is_eligible(local_length, candidates[k])
    &&& forall|j: int|
        0 <= j < candidates.len() && is_eligible(local_length, #[trigger] candidates[j])
            ==> candidates[j].len() < candidates[k].len() || (candidates[j].len()
            == candidates[k].len() && k <= j)
}

impl Blockchain {
    /// Picks the chain to adopt among `candidates`, the chains fetched from
    /// the peers that answered, in the order of the peers. The answer is the
    /// position of the winner, or `None` where no candidate is valid and
    /// strictly longer than the ledger's own chain.
    pub fn select_chain(&self, candidates: &Vec<Vec<Block>>) -> (winner: Option<usize>)
        ensures
            match winner {
                Some(k) => is_winner(self@.chain.len(), candidates_view(candidates@), k as int),
                None => forall|j: int|
                    0 <= j < candidates.len() ==> !is_eligible(
                        self@.chain.len(),
                        #[trigger] candidates_view(candidates@)[j],
                    ),
            },
    {
        let ghost offered = candidates_view(candidates@);
        let ghost local_length = self@.chain.len();
        let mut best: Option<usize> = None;
        let mut i: usize = 0;
        while i < candidates.len()
            invariant
                i <= candidates.len(),
                offered == candidates_view(candidates@),
                local_length == self.chain.len(),
                match best {
                    Some(k) => {
                        &&& k < i
                        &&& is_eligible(local_length, offered[k as int])
                        &&& forall|j: int|
                            0 <= j < i && is_eligible(local_length, #[trigger] offered[j])
                                ==> offered[j].len() < offered[k as int].len() || (
                            offered[j].len() == offered[k as int].len() && k <= j)
                    },
                    None => forall|j: int|
                        0 <= j < i ==> !is_eligible(local_length, #[trigger] offered[j]),
                },
            decreases candidates.len() - i,
        {
            let incoming_chain = &candidates[i];
            let is_bigger_than_current_chain = incoming_chain.len() > self.chain.len();
            let is_bigger_than_candidate_chain = match best {
                Some(k) => incoming_chain.len() > candidates[k].len(),
                None => true,
            };
            if is_bigger_than_current_chain && is_bigger_than_candidate_chain
                && self.is_valid_chain(incoming_chain) {
                best = Some(i);
            }
            i += 1;
        }
        best
    }

    /// Replaces the chain by the winner among `candidates`, if there is
    /// one, and says which candidate was adopted. A tie with the ledger's
    /// own chain replaces nothing. The pool is not touched.
    pub fn resolve_conflicts(&mut self, candidates: Vec<Vec<Block>>) -> (adopted: Option<usize>)
        ensures
            final(self)@.mempool == old(self)@.mempool,
            old(self).well_formed() ==> final(self).well_formed(),
            match adopted {
                Some(k) => {
                    &&& is_winner(old(self)@.chain.len(), candidates_view(candidates@), k as int)
                    &&& final(self)@.chain == candidates_view(candidates@)[k as int]
                },
                None => {
                    &&& forall|j: int|
                        0 <= j < candidates.len() ==> !is_eligible(
                            old(self)@.chain.len(),
                            #[trigger] candidates_view(candidates@)[j],
                        )
                    &&& final(self)@.chain == old(self)@.chain
                },
            },
    {
        let winner = self.select_chain(&candidates);
        match winner {
            Some(k) => {
                let mut offered = candidates;
                self.chain = offered.swap_remove(k);
                proof {
                    lemma_valid_chain_is_linked(self@.chain);
                }
            },
            None => {},
        }
        winner
    }
}

} // verus!
