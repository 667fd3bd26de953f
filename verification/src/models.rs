//! The ledger's records: outputs, inputs, transactions, headers and blocks.
//!
//! Records are plain data. Each has a canonical encoding and, through it, a
//! hash that serves as its identity.

use crate::cbor::{
    cbor_array, cbor_bytes, cbor_encoding, cbor_encodings, cbor_uint, value_array, value_bytes,
    value_uint, Encode,
};
use crate::crypto::{PublicKey, Signature};
use crate::sha256::digest_of;
use crate::time::Timestamp;
use crate::uint256::U256;
use crate::util::MerkleRoot;
use vstd::prelude::*;

verus! {

/// An amount of currency made spendable by whoever holds `pubkey`'s private key.
#[derive(Debug)]
pub struct TxOut {
    pub amount: u64,
    /// Tells apart two outputs of the same amount to the same owner.
    pub unique_id: u128,
    pub pubkey: PublicKey,
}

/// A claim on an earlier output, with the owner's signature over its hash.
#[derive(Debug)]
pub struct TxIn {
    pub prev_transaction_output_hash: crate::sha256::Hash,
    pub signature: Signature,
}

#[derive(Debug)]
pub struct Transaction {
    pub inputs: Vec<TxIn>,
    pub outputs: Vec<TxOut>,
}

#[derive(Clone, Copy, Debug, PartialEq, Eq, Structural)]
pub struct BlockHeader {
    /// When the block was made.
    pub timestamp: Timestamp,
    /// The number varied to make the header's hash meet the target.
    pub nonce: u64,
    /// The hash of the previous block's header.
    pub prev_block_hash: crate::sha256::Hash,
    /// The merkle root of the block's transactions.
    pub merkle_root: MerkleRoot,
    /// The number that the header's hash must not exceed.
    pub target: U256,
}

#[derive(Debug)]
pub struct Block {
    pub header: BlockHeader,
    pub transactions: Vec<Transaction>,
}

pub struct TxOutView {
    pub amount: u64,
    pub unique_id: u128,
    pub pubkey: Seq<u8>,
}

pub struct TxInView {
    pub prev_transaction_output_hash: crate::sha256::Hash,
    pub signature: Seq<u8>,
}

pub struct TransactionView {
    pub inputs: Seq<TxInView>,
    pub outputs: Seq<TxOutView>,
}

pub struct BlockView {
    pub header: BlockHeader,
    pub transactions: Seq<TransactionView>,
}

impl View for TxOut {
    type V = TxOutView;

    open spec fn view(&self) -> TxOutView {
        TxOutView { amount: self.amount, unique_id: self.unique_id, pubkey: self.pubkey@ }
    }
}

impl View for TxIn {
    type V = TxInView;

    open spec fn view(&self) -> TxInView {
        TxInView {
            prev_transaction_output_hash: self.prev_transaction_output_hash,
            signature: self.signature@,
        }
    }
}

impl View for Transaction {
    type V = TransactionView;

    open spec fn view(&self) -> TransactionView {
        TransactionView {
            inputs: self.inputs@.map_values(|i: TxIn| i@),
            outputs: self.outputs@.map_values(|o: TxOut| o@),
        }
    }
}

impl View for Block {
    type V = BlockView;

    open spec fn view(&self) -> BlockView {
        BlockView { header: self.header, transactions: transaction_views(self.transactions@) }
    }
}

/// The views of a list of transactions, in order.
pub open spec fn transaction_views(transactions: Seq<Transaction>) -> Seq<TransactionView> {
    transactions.map_values(|t: Transaction| t@)
}

/// An output as four items: amount, the two halves of the discriminator,
/// and the owner's key.
pub open spec fn txout_encoding(o: TxOutView) -> Seq<u8> {
    cbor_array(
        seq![
            cbor_uint(o.amount),
            cbor_uint((o.unique_id / 0x1_0000_0000_0000_0000) as u64),
            cbor_uint((o.unique_id % 0x1_0000_0000_0000_0000) as u64),
            cbor_bytes(o.pubkey),
        ],
    )
}

/// An input as two items: the hash it refers to, and the signature.
pub open spec fn txin_encoding(i: TxInView) -> Seq<u8> {
    cbor_array(seq![i.prev_transaction_output_hash.encoding(), cbor_bytes(i.signature)])
}

/// A transaction as two items: the array of its inputs, the array of its outputs.
pub open spec fn transaction_encoding(t: TransactionView) -> Seq<u8> {
    cbor_array(
        seq![
            cbor_array(t.inputs.map_values(|i: TxInView| txin_encoding(i))),
            cbor_array(t.outputs.map_values(|o: TxOutView| txout_encoding(o))),
        ],
    )
}

/// Seconds since the epoch, moved into the unsigned range.
pub open spec fn biased_seconds(secs: i64) -> u64 {
    (secs + 0x8000_0000_0000_0000) as u64
}

/// A header as six items, in the order of its fields; the timestamp's
/// seconds are biased by 2^63 so that they are never negative.
pub open spec fn header_encoding(h: BlockHeader) -> Seq<u8> {
    cbor_array(
        seq![
            cbor_array(
                seq![cbor_uint(biased_seconds(h.timestamp.secs)), cbor_uint(h.timestamp.nanos as u64)],
            ),
            cbor_uint(h.nonce),
            h.prev_block_hash.encoding(),
            h.merkle_root.encoding(),
            h.target.encoding(),
        ],
    )
}

/// A block as two items: its header, and the array of its transactions.
pub open spec fn block_encoding(b: BlockView) -> Seq<u8> {
    cbor_array(
        seq![
            header_encoding(b.header),
            cbor_array(b.transactions.map_values(|t: TransactionView| transaction_encoding(t))),
        ],
    )
}

pub open spec fn txout_hash(o: TxOutView) -> crate::sha256::Hash {
    digest_of(txout_encoding(o))
}

pub open spec fn transaction_hash(t: TransactionView) -> crate::sha256::Hash {
    digest_of(transaction_encoding(t))
}

pub open spec fn header_hash(h: BlockHeader) -> crate::sha256::Hash {
    digest_of(header_encoding(h))
}

pub open spec fn block_hash(b: BlockView) -> crate::sha256::Hash {
    digest_of(block_encoding(b))
}

impl Clone for TxOut {
    fn clone(&self) -> (r: Self)
        ensures
            r@ == self@,
    {
        TxOut { amount: self.amount, unique_id: self.unique_id, pubkey: self.pubkey.clone() }
    }
}

impl Clone for TxIn {
    fn clone(&self) -> (r: Self)
        ensures
            r@ == self@,
    {
        TxIn {
            prev_transaction_output_hash: self.prev_transaction_output_hash,
            signature: self.signature.clone(),
        }
    }
}

impl Clone for Transaction {
    fn clone(&self) -> (r: Self)
        ensures
            r@ == self@,
    {
        let mut inputs: Vec<TxIn> = Vec::new();
        let mut i: usize = 0;
        while i < self.inputs.len()
            invariant
                i <= self.inputs.len(),
                inputs@.len() == i,
                forall|k: int| 0 <= k < i ==> (#[trigger] inputs@[k])@ == self.inputs@[k]@,
            decreases self.inputs.len() - i,
        {
            inputs.push(self.inputs[i].clone());
            i += 1;
        }
        let mut outputs: Vec<TxOut> = Vec::new();
        let mut j: usize = 0;
        while j < self.outputs.len()
            invariant
                j <= self.outputs.len(),
                outputs@.len() == j,
                forall|k: int| 0 <= k < j ==> (#[trigger] outputs@[k])@ == self.outputs@[k]@,
            decreases self.outputs.len() - j,
        {
            outputs.push(self.outputs[j].clone());
            j += 1;
        }
        let r = Transaction { inputs, outputs };
        assert(r@.inputs =~= self@.inputs);
        assert(r@.outputs =~= self@.outputs);
        r
    }
}

impl Clone for Block {
    fn clone(&self) -> (r: Self)
        ensures
            r@ == self@,
    {
        let mut transactions: Vec<Transaction> = Vec::new();
        let mut i: usize = 0;
        while i < self.transactions.len()
            invariant
                i <= self.transactions.len(),
                transactions@.len() == i,
                forall|k: int| 0 <= k < i ==> (#[trigger] transactions@[k])@ == self.transactions@[k]@,
            decreases self.transactions.len() - i,
        {
            transactions.push(self.transactions[i].clone());
            i += 1;
        }
        let r = Block { header: self.header, transactions };
        assert(r@.transactions =~= self@.transactions);
        r
    }
}

impl Encode for TxOut {
    open spec fn encoding(&self) -> Seq<u8> {
        txout_encoding(self@)
    }

    fn to_value(&self) -> (v: ciborium::Value) {
        let high: u64 = (self.unique_id / 0x1_0000_0000_0000_0000u128) as u64;
        let low: u64 = (self.unique_id % 0x1_0000_0000_0000_0000u128) as u64;
        let mut items: Vec<ciborium::Value> = Vec::new();
        items.push(value_uint(self.amount));
        items.push(value_uint(high));
        items.push(value_uint(low));
        items.push(value_bytes(self.pubkey.0.clone()));
        assert(cbor_encodings(items@) =~= seq![
            cbor_uint(self.amount),
            cbor_uint(high),
            cbor_uint(low),
            cbor_bytes(self.pubkey@),
        ]);
        value_array(items)
    }
}

impl Encode for TxIn {
    open spec fn encoding(&self) -> Seq<u8> {
        txin_encoding(self@)
    }

    fn to_value(&self) -> (v: ciborium::Value) {
        let mut items: Vec<ciborium::Value> = Vec::new();
        items.push(self.prev_transaction_output_hash.to_value());
        items.push(value_bytes(self.signature.0.clone()));
        assert(cbor_encodings(items@) =~= seq![
            self.prev_transaction_output_hash.encoding(),
            cbor_bytes(self.signature@),
        ]);
        value_array(items)
    }
}

impl Encode for Transaction {
    open spec fn encoding(&self) -> Seq<u8> {
        transaction_encoding(self@)
    }

    fn to_value(&self) -> (v: ciborium::Value) {
        let mut inputs: Vec<ciborium::Value> = Vec::new();
        let mut i: usize = 0;
        while i < self.inputs.len()
            invariant
                i <= self.inputs.len(),
                inputs@.len() == i,
                forall|k: int|
                    0 <= k < i ==> cbor_encoding(#[trigger] inputs@[k]) == txin_encoding(
                        self.inputs@[k]@,
                    ),
            decreases self.inputs.len() - i,
        {
            inputs.push(self.inputs[i].to_value());
            i += 1;
        }
        let mut outputs: Vec<ciborium::Value> = Vec::new();
        let mut j: usize = 0;
        while j < self.outputs.len()
            invariant
                j <= self.outputs.len(),
                outputs@.len() == j,
                forall|k: int|
                    0 <= k < j ==> cbor_encoding(#[trigger] outputs@[k]) == txout_encoding(
                        self.outputs@[k]@,
                    ),
            decreases self.outputs.len() - j,
        {
            outputs.push(self.outputs[j].to_value());
            j += 1;
        }
        assert(cbor_encodings(inputs@) =~= self@.inputs.map_values(|x: TxInView| txin_encoding(x)));
        assert(cbor_encodings(outputs@) =~= self@.outputs.map_values(
            |x: TxOutView| txout_encoding(x),
        ));
        let mut items: Vec<ciborium::Value> = Vec::new();
        items.push(value_array(inputs));
        items.push(value_array(outputs));
        assert(cbor_encodings(items@) =~= seq![
            cbor_array(self@.inputs.map_values(|x: TxInView| txin_encoding(x))),
            cbor_array(self@.outputs.map_values(|x: TxOutView| txout_encoding(x))),
        ]);
        value_array(items)
    }
}

impl Encode for BlockHeader {
    open spec fn encoding(&self) -> Seq<u8> {
        header_encoding(*self)
    }

    fn to_value(&self) -> (v: ciborium::Value) {
        let seconds: u64 = (self.timestamp.secs as i128 + 0x8000_0000_0000_0000i128) as u64;
        let mut time: Vec<ciborium::Value> = Vec::new();
        time.push(value_uint(seconds));
        time.push(value_uint(self.timestamp.nanos as u64));
        assert(cbor_encodings(time@) =~= seq![
            cbor_uint(biased_seconds(self.timestamp.secs)),
            cbor_uint(self.timestamp.nanos as u64),
        ]);
        let mut items: Vec<ciborium::Value> = Vec::new();
        items.push(value_array(time));
        items.push(value_uint(self.nonce));
        items.push(self.prev_block_hash.to_value());
        items.push(self.merkle_root.to_value());
        items.push(self.target.to_value());
        assert(cbor_encodings(items@) =~= seq![
            cbor_array(
                seq![
                    cbor_uint(biased_seconds(self.timestamp.secs)),
                    cbor_uint(self.timestamp.nanos as u64),
                ],
            ),
            cbor_uint(self.nonce),
            self.prev_block_hash.encoding(),
            self.merkle_root.encoding(),
            self.target.encoding(),
        ]);
        value_array(items)
    }
}

impl Encode for Block {
    open spec fn encoding(&self) -> Seq<u8> {
        block_encoding(self@)
    }

    fn to_value(&self) -> (v: ciborium::Value) {
        let mut transactions: Vec<ciborium::Value> = Vec::new();
        let mut i: usize = 0;
        while i < self.transactions.len()
            invariant
                i <= self.transactions.len(),
                transactions@.len() == i,
                forall|k: int|
                    0 <= k < i ==> cbor_encoding(#[trigger] transactions@[k])
                        == transaction_encoding(self.transactions@[k]@),
            decreases self.transactions.len() - i,
        {
            transactions.push(self.transactions[i].to_value());
            i += 1;
        }
        assert(cbor_encodings(transactions@) =~= self@.transactions.map_values(
            |t: TransactionView| transaction_encoding(t),
        ));
        let mut items: Vec<ciborium::Value> = Vec::new();
        items.push(self.header.to_value());
        items.push(value_array(transactions));
        assert(cbor_encodings(items@) =~= seq![
            header_encoding(self.header),
            cbor_array(self@.transactions.map_values(|t: TransactionView| transaction_encoding(t))),
        ]);
        value_array(items)
    }
}

impl TxOut {
    /// The output's identity.
    pub fn hash(&self) -> (h: crate::sha256::Hash)
        ensures
            h == txout_hash(self@),
    {
        crate::sha256::Hash::new(self)
    }
}

impl Transaction {
    pub fn new(inputs: Vec<TxIn>, outputs: Vec<TxOut>) -> (r: Transaction)
        ensures
            r.inputs == inputs,
            r.outputs == outputs,
    {
        Transaction { inputs, outputs }
    }

    /// The transaction's identity.
    pub fn hash(&self) -> (h: crate::sha256::Hash)
        ensures
            h == transaction_hash(self@),
    {
        crate::sha256::Hash::new(self)
    }
}

impl BlockHeader {
    pub fn new(
        timestamp: Timestamp,
        nonce: u64,
        prev_block_hash: crate::sha256::Hash,
        merkle_root: MerkleRoot,
        target: U256,
    ) -> (r: BlockHeader)
        ensures
            r == (BlockHeader { timestamp, nonce, prev_block_hash, merkle_root, target }),
    {
        BlockHeader { timestamp, nonce, prev_block_hash, merkle_root, target }
    }

    /// The header's identity, which proof of work constrains.
    pub fn hash(&self) -> (h: crate::sha256::Hash)
        ensures
            h == header_hash(*self),
    {
        crate::sha256::Hash::new(self)
    }
}

impl Block {
    pub fn new(header: BlockHeader, transactions: Vec<Transaction>) -> (r: Block)
        ensures
            r.header == header,
            r.transactions == transactions,
    {
        Block { header, transactions }
    }

    /// The hash of the whole block, header and transactions.
    pub fn hash(&self) -> (h: crate::sha256::Hash)
        ensures
            h == block_hash(self@),
    {
        crate::sha256::Hash::new(self)
    }
}

} // verus!
