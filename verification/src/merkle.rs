//! The Merkle commitment: an ordered list of transactions reduced to one
//! digest, level by level.

use crate::hashing::{sha256_hex, zero_hash, zero_hash_string, HASH_LENGTH};
use crate::ledger::Blockchain;
use crate::transaction::{
    lemma_transaction_json_injective,
    transaction_json,
    transactions_view,
    Transaction,
    TransactionView,
};
use vstd::prelude::*;
use vstd::string::StringExecFns;

verus! {

/// The contents of a list of strings.
pub open spec fn strings_view(strings: Seq<String>) -> Seq<Seq<char>> {
    Seq::new(strings.len(), |i: int| strings[i]@)
}

/// A level made even: one of odd length gets its last entry once more.
pub open spec fn pad_level(level: Seq<Seq<char>>) -> Seq<Seq<char>> {
    if level.len() % 2 == 1 {
        level.push(level.last())
    } else {
        level
    }
}

/// The text that is hashed for the `i`-th pair of a level: the left entry
/// followed by the right one.
pub open spec fn pair_at(level: Seq<Seq<char>>, i: int) -> Seq<char> {
    level[2 * i] + level[2 * i + 1]
}

/// The level above an even one: the digest of each adjacent pair, left
/// before right.
pub open spec fn pair_level(level: Seq<Seq<char>>) -> Seq<Seq<char>> {
    Seq::new(level.len() / 2, |i: int| sha256_hex(pair_at(level, i)))
}

/// The single digest that a non-empty level reduces to.
pub open spec fn merkle_fold(level: Seq<Seq<char>>) -> Seq<char>
    decreases level.len(),
{
    if level.len() <= 1 {
        level[0]
    } else {
        merkle_fold(pair_level(pad_level(level)))
    }
}

/// The leaves of the tree: the digest of each transaction's canonical JSON
/// text, signature included.
pub open spec fn leaf_hashes(txs: Seq<TransactionView>) -> Seq<Seq<char>> {
    Seq::new(txs.len(), |i: int| sha256_hex(transaction_json(txs[i])))
}

/// The commitment to an ordered list of transactions: the sentinel for no
/// transactions, else the reduction of the leaves.
pub open spec fn merkle_root(txs: Seq<TransactionView>) -> Seq<char> {
    if txs.len() == 0 {
        zero_hash()
    } else {
        merkle_fold(leaf_hashes(txs))
    }
}

fn duplicate_last_if_odd(level: &mut Vec<String>)
    ensures
        strings_view(final(level)@) == pad_level(strings_view(old(level)@)),
        final(level).len() == old(level).len() + old(level).len() % 2,
{
    if level.len() % 2 != 0 {
        let last = level[level.len() - 1].clone();
        level.push(last);
    }
}

fn hash_pairs(level: &Vec<String>) -> (next: Vec<String>)
    requires
        level.len() % 2 == 0,
    ensures
        strings_view(next@) == pair_level(strings_view(level@)),
        next.len() == level.len() / 2,
{
    let mut next: Vec<String> = Vec::new();
    let mut i: usize = 0;
    while i < level.len()
        invariant
            level.len() % 2 == 0,
            i % 2 == 0,
            i <= level.len(),
            next.len() == i / 2,
            forall|j: int|
                0 <= j < next.len() ==> (#[trigger] next[j])@ == sha256_hex(
                    pair_at(strings_view(level@), j),
                ),
        decreases level.len() - i,
    {
        let mut concatenated = level[i].clone();
        concatenated.append(level[i + 1].as_str());
        next.push(Blockchain::generate_hash(concatenated.as_str()));
        i += 2;
    }
    next
}

impl Blockchain {
    /// Reduces a non-empty list of leaf digests to the Merkle root. A list of
    /// more than one entry and odd length is left with its last entry
    /// duplicated; any other list is left as it was.
    pub fn hash_tx_hashes(tx_hashes: &mut Vec<String>) -> (root: String)
        requires
            old(tx_hashes).len() >= 1,
        ensures
            root@ == merkle_fold(strings_view(old(tx_hashes)@)),
            strings_view(final(tx_hashes)@) == if old(tx_hashes).len() > 1 {
                pad_level(strings_view(old(tx_hashes)@))
            } else {
                strings_view(old(tx_hashes)@)
            },
    {
        if tx_hashes.len() == 1 {
            return tx_hashes[0].clone();
        }
        duplicate_last_if_odd(tx_hashes);
        let mut level = hash_pairs(tx_hashes);
        while level.len() > 1
            invariant
                level.len() >= 1,
                merkle_fold(strings_view(level@)) == merkle_fold(strings_view(old(tx_hashes)@)),
            decreases level.len(),
        {
            duplicate_last_if_odd(&mut level);
            level = hash_pairs(&level);
        }
        level[0].clone()
    }

    /// The Merkle root of `transactions`: the sentinel for an empty list,
    /// else the reduction of the digests of their canonical JSON texts.
    pub fn generate_merkle_root(&self, transactions: &Vec<Transaction>) -> (root: String)
        ensures
            root@ == merkle_root(transactions_view(transactions@)),
    {
        if transactions.len() == 0 {
            return zero_hash_string();
        }
        let mut tx_hashes: Vec<String> = Vec::new();
        let mut i: usize = 0;
        while i < transactions.len()
            invariant
                i <= transactions.len(),
                tx_hashes.len() == i,
                forall|j: int|
                    0 <= j < i ==> (#[trigger] tx_hashes[j])@ == sha256_hex(
                        transaction_json(transactions[j]@),
                    ),
            decreases transactions.len() - i,
        {
            let serialized = transactions[i].to_json();
            tx_hashes.push(Self::generate_hash(serialized.as_str()));
            i += 1;
        }
        assert(strings_view(tx_hashes@) =~= leaf_hashes(transactions_view(transactions@)));
        Self::hash_tx_hashes(&mut tx_hashes)
    }
}

/// The texts of the pairs of an even level.
pub open spec fn pairs_of(level: Seq<Seq<char>>) -> Set<Seq<char>> {
    Set::new(
        |text: Seq<char>|
            exists|i: int| 0 <= i < level.len() / 2 && text == #[trigger] pair_at(level, i),
    )
}

/// Every text that is hashed while `level` is reduced to one digest.
pub open spec fn hashed_pairs(level: Seq<Seq<char>>) -> Set<Seq<char>>
    decreases level.len(),
{
    if level.len() <= 1 {
        Set::empty()
    } else {
        pairs_of(pad_level(level)).union(hashed_pairs(pair_level(pad_level(level))))
    }
}

/// Every text that is hashed while the commitment to `txs` is computed: the
/// canonical text of each transaction, and every pair above the leaves.
pub open spec fn commitment_inputs(txs: Seq<TransactionView>) -> Set<Seq<char>> {
    Set::new(
        |text: Seq<char>|
            exists|i: int| 0 <= i < txs.len() && text == transaction_json(#[trigger] txs[i]),
    ).union(hashed_pairs(leaf_hashes(txs)))
}

/// Whether the hash behaves on `inputs` as a digest should: every digest has
/// the fixed length, and no two different inputs share one.
pub open spec fn hashes_apart(inputs: Set<Seq<char>>) -> bool {
    &&& forall|x: Seq<char>| inputs.contains(x) ==> (#[trigger] sha256_hex(x)).len() == HASH_LENGTH
    &&& forall|x: Seq<char>, y: Seq<char>|
        #![trigger sha256_hex(x), sha256_hex(y)]
        inputs.contains(x) && inputs.contains(y) && sha256_hex(x) == sha256_hex(y) ==> x == y
}

/// Two levels of equal length, made of entries of digest length, that differ
/// at position `k` reduce to different digests, as long as the hash keeps
/// the texts it meets on the way apart.
pub proof fn lemma_fold_binds_leaves(
    a: Seq<Seq<char>>,
    b: Seq<Seq<char>>,
    inputs: Set<Seq<char>>,
    k: int,
)
    requires
        a.len() == b.len(),
        0 <= k < a.len(),
        a[k] != b[k],
        forall|i: int| 0 <= i < a.len() ==> (#[trigger] a[i]).len() == HASH_LENGTH,
        forall|i: int| 0 <= i < b.len() ==> (#[trigger] b[i]).len() == HASH_LENGTH,
        hashed_pairs(a).subset_of(inputs),
        hashed_pairs(b).subset_of(inputs),
        hashes_apart(inputs),
    ensures
        merkle_fold(a) != merkle_fold(b),
    decreases a.len(),
{
    if a.len() > 1 {
        let pa = pad_level(a);
        let pb = pad_level(b);
        let na = pair_level(pa);
        let nb = pair_level(pb);
        let q = k / 2;
        let xa = pair_at(pa, q);
        let xb = pair_at(pb, q);
        assert(pa[k] == a[k] && pb[k] == b[k]);
        assert(pairs_of(pa).contains(xa));
        assert(pairs_of(pb).contains(xb));
        assert(inputs.contains(xa) && inputs.contains(xb));
        assert(xa != xb) by {
            assert(pa[2 * q].len() == HASH_LENGTH && pb[2 * q].len() == HASH_LENGTH);
            assert(pa[2 * q] =~= xa.subrange(0, HASH_LENGTH as int));
            assert(pb[2 * q] =~= xb.subrange(0, HASH_LENGTH as int));
            assert(pa[2 * q + 1] =~= xa.subrange(HASH_LENGTH as int, xa.len() as int));
            assert(pb[2 * q + 1] =~= xb.subrange(HASH_LENGTH as int, xb.len() as int));
            assert(k == 2 * q || k == 2 * q + 1);
        }
        assert(na[q] != nb[q]);
        assert forall|i: int| 0 <= i < na.len() implies (#[trigger] na[i]).len()
            == HASH_LENGTH by {
            assert(pairs_of(pa).contains(pair_at(pa, i)));
        }
        assert forall|i: int| 0 <= i < nb.len() implies (#[trigger] nb[i]).len()
            == HASH_LENGTH by {
            assert(pairs_of(pb).contains(pair_at(pb, i)));
        }
        lemma_fold_binds_leaves(na, nb, inputs, q);
    }
}

/// The commitment binds the transactions: two non-empty lists of equal
/// length that differ at position `k` have different Merkle roots, as long
/// as the hash keeps the texts it meets while committing to either list
/// apart.
pub proof fn lemma_merkle_root_binds_transactions(
    a: Seq<TransactionView>,
    b: Seq<TransactionView>,
    k: int,
)
    requires
        a.len() == b.len(),
        0 <= k < a.len(),
        a[k] != b[k],
        hashes_apart(commitment_inputs(a).union(commitment_inputs(b))),
    ensures
        merkle_root(a) != merkle_root(b),
{
    if transaction_json(a[k]) == transaction_json(b[k]) {
        lemma_transaction_json_injective(a[k], b[k]);
    }
    let inputs = commitment_inputs(a).union(commitment_inputs(b));
    let la = leaf_hashes(a);
    let lb = leaf_hashes(b);
    assert forall|i: int| 0 <= i < a.len() implies inputs.contains(
        transaction_json(#[trigger] a[i]),
    ) by {
        assert(commitment_inputs(a).contains(transaction_json(a[i])));
    }
    assert forall|i: int| 0 <= i < b.len() implies inputs.contains(
        transaction_json(#[trigger] b[i]),
    ) by {
        assert(commitment_inputs(b).contains(transaction_json(b[i])));
    }
    assert(inputs.contains(transaction_json(a[k])) && inputs.contains(transaction_json(b[k])));
    assert(la[k] != lb[k]);
    assert forall|i: int| 0 <= i < la.len() implies (#[trigger] la[i]).len() == HASH_LENGTH by {
        assert(inputs.contains(transaction_json(a[i])));
    }
    assert forall|i: int| 0 <= i < lb.len() implies (#[trigger] lb[i]).len() == HASH_LENGTH by {
        assert(inputs.contains(transaction_json(b[i])));
    }
    lemma_fold_binds_leaves(la, lb, inputs, k);
}

/// The commitment is sensitive to order: exchanging two different
/// transactions changes the Merkle root, as long as the hash keeps the
/// texts it meets while committing to either order apart.
pub proof fn lemma_merkle_root_order_sensitive(txs: Seq<TransactionView>, i: int, j: int)
    requires
        0 <= i < txs.len(),
        0 <= j < txs.len(),
        txs[i] != txs[j],
        hashes_apart(
            commitment_inputs(txs).union(
                commitment_inputs(txs.update(i, txs[j]).update(j, txs[i])),
            ),
        ),
    ensures
        merkle_root(txs.update(i, txs[j]).update(j, txs[i])) != merkle_root(txs),
{
    lemma_merkle_root_binds_transactions(txs, txs.update(i, txs[j]).update(j, txs[i]), i);
}

/// The commitment is a function of the ordered list alone: equal lists have
/// equal Merkle roots.
pub proof fn lemma_merkle_root_deterministic(a: Seq<TransactionView>, b: Seq<TransactionView>)
    requires
        a.len() == b.len(),
        forall|i: int| 0 <= i < a.len() ==> a[i] == b[i],
    ensures
        merkle_root(a) == merkle_root(b),
{
    assert(a =~= b);
}

} // verus!
