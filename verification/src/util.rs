//! The merkle accumulator.

use crate::cbor::{cbor_array, cbor_encodings, value_array, Encode};
use crate::models::{transaction_hash, transaction_views, Transaction, TransactionView};
use crate::sha256::digest_of;
use vstd::prelude::*;

verus! {

/// The summary hash of an ordered list of transactions.
#[derive(Clone, Copy, Debug, PartialEq, Eq, Structural)]
pub struct MerkleRoot(pub crate::sha256::Hash);

/// Two hashes side by side, as a parent node sees its children.
pub struct HashPair {
    pub left: crate::sha256::Hash,
    pub right: crate::sha256::Hash,
}

impl Encode for HashPair {
    open spec fn encoding(&self) -> Seq<u8> {
        cbor_array(seq![self.left.encoding(), self.right.encoding()])
    }

    fn to_value(&self) -> (v: ciborium::Value) {
        let mut items: Vec<ciborium::Value> = Vec::new();
        items.push(self.left.to_value());
        items.push(self.right.to_value());
        assert(cbor_encodings(items@) =~= seq![self.left.encoding(), self.right.encoding()]);
        value_array(items)
    }
}

impl Encode for MerkleRoot {
    open spec fn encoding(&self) -> Seq<u8> {
        self.0.encoding()
    }

    fn to_value(&self) -> (v: ciborium::Value) {
        self.0.to_value()
    }
}

/// The parent of two nodes: the hash of the pair.
pub open spec fn parent_hash(left: crate::sha256::Hash, right: crate::sha256::Hash) -> crate::sha256::Hash {
    digest_of((HashPair { left, right }).encoding())
}

/// The layer above `layer`: one parent for each consecutive pair, the last
/// node paired with itself where the layer's length is odd.
pub open spec fn merkle_parents(layer: Seq<crate::sha256::Hash>) -> Seq<crate::sha256::Hash> {
    Seq::new(
        ((layer.len() + 1) / 2) as nat,
        |i: int|
            parent_hash(
                layer[2 * i],
                if 2 * i + 1 < layer.len() {
                    layer[2 * i + 1]
                } else {
                    layer[2 * i]
                },
            ),
    )
}

/// The single hash that a non-empty layer folds to.
pub open spec fn merkle_fold(layer: Seq<crate::sha256::Hash>) -> crate::sha256::Hash
    decreases layer.len(),
{
    if layer.len() <= 1 {
        layer[0]
    } else {
        merkle_fold(merkle_parents(layer))
    }
}

/// The merkle root of a non-empty list of transactions.
pub open spec fn merkle_root(transactions: Seq<TransactionView>) -> MerkleRoot {
    MerkleRoot(merkle_fold(transactions.map_values(|t: TransactionView| transaction_hash(t))))
}

fn parents_of(layer: &Vec<crate::sha256::Hash>) -> (r: Vec<crate::sha256::Hash>)
    ensures
        r@ == merkle_parents(layer@),
{
    let n = layer.len();
    let half: usize = n / 2 + n % 2;
    let mut next: Vec<crate::sha256::Hash> = Vec::new();
    let mut k: usize = 0;
    while k < half
        invariant
            n == layer@.len(),
            half == (n + 1) / 2,
            k <= half,
            next@.len() == k,
            forall|j: int| 0 <= j < k ==> next@[j] == #[trigger] merkle_parents(layer@)[j],
        decreases half - k,
    {
        let left = layer[2 * k];
        let right = if 2 * k + 1 < n {
            layer[2 * k + 1]
        } else {
            layer[2 * k]
        };
        let pair = HashPair { left, right };
        next.push(crate::sha256::Hash::new(&pair));
        k += 1;
    }
    assert(next@ =~= merkle_parents(layer@));
    next
}

impl MerkleRoot {
    /// The merkle root of a block's transactions.
    pub fn new(transactions: &[Transaction]) -> (r: MerkleRoot)
        requires
            transactions@.len() > 0,
        ensures
            r == merkle_root(transaction_views(transactions@)),
    {
        let mut layer: Vec<crate::sha256::Hash> = Vec::new();
        let mut i: usize = 0;
        while i < transactions.len()
            invariant
                i <= transactions@.len(),
                layer@ == transaction_views(transactions@).subrange(0, i as int).map_values(
                    |t: TransactionView| transaction_hash(t),
                ),
            decreases transactions@.len() - i,
        {
            layer.push(transactions[i].hash());
            assert(layer@ =~= transaction_views(transactions@).subrange(0, i + 1).map_values(
                |t: TransactionView| transaction_hash(t),
            ));
            i += 1;
        }
        assert(transaction_views(transactions@).subrange(0, i as int) =~= transaction_views(
            transactions@,
        ));
        let ghost leaves = layer@;
        while layer.len() > 1
            invariant
                layer@.len() > 0,
                merkle_fold(layer@) == merkle_fold(leaves),
            decreases layer@.len(),
        {
            layer = parents_of(&layer);
        }
        MerkleRoot(layer[0])
    }
}

} // verus!
