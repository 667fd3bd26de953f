//! The rules that the transactions of a block must meet.

use crate::constants::{BASE_UNITS, HALVING_INTERVAL, INITIAL_REWARD};
use crate::crypto::ecdsa_verifies;
use crate::error::BtcError;
use crate::models::{txout_hash, Block, Transaction, TransactionView, TxInView, TxOut, TxOutView};
use crate::utxo::UtxoSet;
use vstd::arithmetic::power2::pow2;
use vstd::prelude::*;

verus! {

/// The newly minted amount that the block at `height` may claim: the initial
/// subsidy, halved once for every full halving interval below `height`.
pub open spec fn subsidy(height: nat) -> nat {
    (INITIAL_REWARD * BASE_UNITS) as nat / pow2(height / (HALVING_INTERVAL as nat))
}

/// The sum of the amounts of a list of outputs.
pub open spec fn output_amounts(outputs: Seq<TxOutView>) -> nat
    decreases outputs.len(),
{
    if outputs.len() == 0 {
        0
    } else {
        output_amounts(outputs.drop_last()) + outputs.last().amount as nat
    }
}

/// The amount that the output under `key` holds; nothing where there is none.
pub open spec fn unspent_amount(utxos: Map<crate::sha256::Hash, TxOutView>, key: crate::sha256::Hash) -> nat {
    if utxos.contains_key(key) {
        utxos[key].amount as nat
    } else {
        0
    }
}

/// The sum of the amounts of the outputs that a list of inputs refers to.
pub open spec fn input_amounts(inputs: Seq<TxInView>, utxos: Map<crate::sha256::Hash, TxOutView>) -> nat
    decreases inputs.len(),
{
    if inputs.len() == 0 {
        0
    } else {
        input_amounts(inputs.drop_last(), utxos) + unspent_amount(
            utxos,
            inputs.last().prev_transaction_output_hash,
        )
    }
}

/// The hashes that a list of inputs refers to, in order.
pub open spec fn input_refs(inputs: Seq<TxInView>) -> Seq<crate::sha256::Hash> {
    inputs.map_values(|i: TxInView| i.prev_transaction_output_hash)
}

/// The hashes of a list of outputs, in order.
pub open spec fn output_hashes(outputs: Seq<TxOutView>) -> Seq<crate::sha256::Hash> {
    outputs.map_values(|o: TxOutView| txout_hash(o))
}

/// All of `list` stands in `utxos`.
pub open spec fn all_unspent(list: Seq<crate::sha256::Hash>, utxos: Map<crate::sha256::Hash, TxOutView>) -> bool {
    forall|k: int| 0 <= k < list.len() ==> utxos.contains_key(#[trigger] list[k])
}

/// The hashes that the inputs of a list of transactions refer to, in order.
pub open spec fn spent_hashes(transactions: Seq<TransactionView>) -> Seq<crate::sha256::Hash>
    decreases transactions.len(),
{
    if transactions.len() == 0 {
        Seq::empty()
    } else {
        spent_hashes(transactions.drop_last()) + input_refs(transactions.last().inputs)
    }
}

/// The hashes of the outputs of a list of transactions, in order.
pub open spec fn produced_hashes(transactions: Seq<TransactionView>) -> Seq<crate::sha256::Hash>
    decreases transactions.len(),
{
    if transactions.len() == 0 {
        Seq::empty()
    } else {
        produced_hashes(transactions.drop_last()) + output_hashes(transactions.last().outputs)
    }
}

/// What a transaction leaves to the miner: inputs less outputs.
pub open spec fn transaction_fee(t: TransactionView, utxos: Map<crate::sha256::Hash, TxOutView>) -> int {
    input_amounts(t.inputs, utxos) - output_amounts(t.outputs)
}

/// The sum of the fees of a list of transactions.
pub open spec fn total_fees(transactions: Seq<TransactionView>, utxos: Map<crate::sha256::Hash, TxOutView>) -> int
    decreases transactions.len(),
{
    if transactions.len() == 0 {
        0
    } else {
        total_fees(transactions.drop_last(), utxos) + transaction_fee(transactions.last(), utxos)
    }
}

/// The transactions of a block but the first, which is the coinbase.
pub open spec fn spending(transactions: Seq<TransactionView>) -> Seq<TransactionView> {
    if transactions.len() == 0 {
        transactions
    } else {
        transactions.subrange(1, transactions.len() as int)
    }
}

/// Whether a list of spending transactions is sound in its references:
/// every input refers to an unspent output, no output is referred to
/// twice, and no two outputs made have the same hash.
pub open spec fn references_sound(
    transactions: Seq<TransactionView>,
    utxos: Map<crate::sha256::Hash, TxOutView>,
) -> bool {
    &&& all_unspent(spent_hashes(transactions), utxos)
    &&& spent_hashes(transactions).no_duplicates()
    &&& produced_hashes(transactions).no_duplicates()
}

/// The fees that a block's coinbase may collect, where the block's spending
/// transactions are sound in their references and the sum of their fees is
/// a 64-bit amount.
pub open spec fn miner_fees(
    transactions: Seq<TransactionView>,
    utxos: Map<crate::sha256::Hash, TxOutView>,
) -> Result<u64, BtcError> {
    let rest = spending(transactions);
    let fees = total_fees(rest, utxos);
    if references_sound(rest, utxos) && 0 <= fees <= u64::MAX {
        Ok(fees as u64)
    } else {
        Err(BtcError::InvalidTransaction)
    }
}

/// Whether the first transaction of a non-empty block is a lawful coinbase
/// at `height`: no inputs, at least one output, and outputs that add up to
/// the subsidy and the block's fees exactly.
pub open spec fn coinbase_check(
    transactions: Seq<TransactionView>,
    height: nat,
    utxos: Map<crate::sha256::Hash, TxOutView>,
) -> Result<(), BtcError> {
    let coinbase = transactions[0];
    if coinbase.inputs.len() != 0 || coinbase.outputs.len() == 0 {
        Err(BtcError::InvalidTransaction)
    } else {
        match miner_fees(transactions, utxos) {
            Err(e) => Err(e),
            Ok(fees) => if output_amounts(coinbase.outputs) == subsidy(height) + fees as nat {
                Ok(())
            } else {
                Err(BtcError::InvalidTransaction)
            },
        }
    }
}

/// Whether every input of `t` carries a signature over the hash it refers
/// to that verifies under the key of the output it refers to.
pub open spec fn signatures_valid(t: TransactionView, utxos: Map<crate::sha256::Hash, TxOutView>) -> bool {
    forall|i: int|
        0 <= i < t.inputs.len() ==> input_signed(#[trigger] t.inputs[i], utxos)
}

pub open spec fn input_signed(input: TxInView, utxos: Map<crate::sha256::Hash, TxOutView>) -> bool {
    ecdsa_verifies(
        utxos[input.prev_transaction_output_hash].pubkey,
        input.prev_transaction_output_hash.0.le_bytes(),
        input.signature,
    )
}

/// The outcome of checking the spending transactions from index `from` on,
/// one after the other: a transaction's signatures first, then that its
/// inputs cover its outputs.
pub open spec fn spending_check(
    transactions: Seq<TransactionView>,
    utxos: Map<crate::sha256::Hash, TxOutView>,
    from: int,
) -> Result<(), BtcError>
    decreases transactions.len() - from,
{
    if from < 0 || from >= transactions.len() {
        Ok(())
    } else if !signatures_valid(transactions[from], utxos) {
        Err(BtcError::InvalidSignature)
    } else if transaction_fee(transactions[from], utxos) < 0 {
        Err(BtcError::InvalidTransaction)
    } else {
        spending_check(transactions, utxos, from + 1)
    }
}

/// The outcome of checking the transactions of a block at `height` against
/// the unspent outputs `utxos`.
///
/// A block without transactions is an `InvalidTransaction`, and so is one
/// whose coinbase fails `coinbase_check`, which covers the soundness of all
/// references. Only then are signatures looked at, transaction by
/// transaction: the first that carries a bad signature is an
/// `InvalidSignature`, the first whose inputs do not cover its outputs an
/// `InvalidTransaction`, whichever comes first.
pub open spec fn transactions_check(
    transactions: Seq<TransactionView>,
    height: nat,
    utxos: Map<crate::sha256::Hash, TxOutView>,
) -> Result<(), BtcError> {
    if transactions.len() == 0 {
        Err(BtcError::InvalidTransaction)
    } else if coinbase_check(transactions, height, utxos) is Err {
        Err(BtcError::InvalidTransaction)
    } else {
        spending_check(transactions, utxos, 1)
    }
}

/// The transactions of a block are refused for a transaction or for a
/// signature, never for anything else.
pub proof fn lemma_transactions_check_errors(
    transactions: Seq<TransactionView>,
    height: nat,
    utxos: Map<crate::sha256::Hash, TxOutView>,
)
    ensures
        match transactions_check(transactions, height, utxos) {
            Ok(_) => true,
            Err(e) => e == BtcError::InvalidTransaction || e == BtcError::InvalidSignature,
        },
{
    lemma_spending_check_errors(transactions, utxos, 1);
}

proof fn lemma_spending_check_errors(
    transactions: Seq<TransactionView>,
    utxos: Map<crate::sha256::Hash, TxOutView>,
    from: int,
)
    ensures
        match spending_check(transactions, utxos, from) {
            Ok(_) => true,
            Err(e) => e == BtcError::InvalidTransaction || e == BtcError::InvalidSignature,
        },
    decreases transactions.len() - from,
{
    if 0 <= from < transactions.len() {
        lemma_spending_check_errors(transactions, utxos, from + 1);
    }
}

/// The subsidy of the block at `height`.
pub fn block_reward(height: u64) -> (r: u64)
    ensures
        r == subsidy(height as nat),
{
    let halvings: u64 = height / HALVING_INTERVAL;
    let initial: u64 = INITIAL_REWARD * BASE_UNITS;
    if halvings >= 64 {
        proof {
            vstd::arithmetic::power2::lemma2_to64();
            if halvings > 64 {
                vstd::arithmetic::power2::lemma_pow2_strictly_increases(64, halvings as nat);
            }
            vstd::arithmetic::div_mod::lemma_basic_div(initial as int, pow2(halvings as nat) as int);
        }
        0
    } else {
        proof {
            vstd::bits::lemma_u64_shr_is_div(initial, halvings);
        }
        initial >> halvings
    }
}

/// Whether `h` occurs in `list`.
pub fn contains_hash(list: &Vec<crate::sha256::Hash>, h: &crate::sha256::Hash) -> (r: bool)
    ensures
        r == list@.contains(*h),
{
    let mut i: usize = 0;
    while i < list.len()
        invariant
            i <= list@.len(),
            forall|k: int| 0 <= k < i ==> list@[k] != *h,
        decreases list@.len() - i,
    {
        if list[i] == *h {
            return true;
        }
        i += 1;
    }
    false
}

/// The sum of the amounts of `outputs`.
fn sum_outputs(outputs: &Vec<TxOut>) -> (r: u128)
    ensures
        r == output_amounts(outputs@.map_values(|o: TxOut| o@)),
{
    let ghost views = outputs@.map_values(|o: TxOut| o@);
    let mut sum: u128 = 0;
    let mut i: usize = 0;
    while i < outputs.len()
        invariant
            i <= outputs@.len(),
            views == outputs@.map_values(|o: TxOut| o@),
            sum == output_amounts(views.subrange(0, i as int)),
            sum <= i * 0xffff_ffff_ffff_ffff,
        decreases outputs@.len() - i,
    {
        assert(views.subrange(0, i + 1).drop_last() =~= views.subrange(0, i as int));
        sum = sum + outputs[i].amount as u128;
        i += 1;
    }
    assert(views.subrange(0, i as int) =~= views);
    sum
}


/// The hashes spent by the first `k` transactions open the list of those
/// spent by all.
proof fn lemma_spent_prefix(transactions: Seq<TransactionView>, k: int)
    requires
        0 <= k <= transactions.len(),
    ensures
        spent_hashes(transactions.subrange(0, k)).is_prefix_of(spent_hashes(transactions)),
    decreases transactions.len(),
{
    if k == transactions.len() {
        assert(transactions.subrange(0, k) =~= transactions);
    } else {
        let shorter = transactions.drop_last();
        lemma_spent_prefix(shorter, k);
        assert(shorter.subrange(0, k) =~= transactions.subrange(0, k));
    }
}

/// The hashes produced by the first `k` transactions open the list of those
/// produced by all.
proof fn lemma_produced_prefix(transactions: Seq<TransactionView>, k: int)
    requires
        0 <= k <= transactions.len(),
    ensures
        produced_hashes(transactions.subrange(0, k)).is_prefix_of(produced_hashes(transactions)),
    decreases transactions.len(),
{
    if k == transactions.len() {
        assert(transactions.subrange(0, k) =~= transactions);
    } else {
        let shorter = transactions.drop_last();
        lemma_produced_prefix(shorter, k);
        assert(shorter.subrange(0, k) =~= transactions.subrange(0, k));
    }
}

/// What holds of a list holds of what opens it.
proof fn lemma_prefix_keeps(
    part: Seq<crate::sha256::Hash>,
    whole: Seq<crate::sha256::Hash>,
    utxos: Map<crate::sha256::Hash, TxOutView>,
)
    requires
        part.is_prefix_of(whole),
    ensures
        whole.no_duplicates() ==> part.no_duplicates(),
        all_unspent(whole, utxos) ==> all_unspent(part, utxos),
{
    if whole.no_duplicates() {
        assert forall|a: int, b: int| 0 <= a < part.len() && 0 <= b < part.len() && a != b implies part[a]
            != part[b] by {
            assert(part[a] == whole[a]);
            assert(part[b] == whole[b]);
        }
    }
    if all_unspent(whole, utxos) {
        assert forall|k: int| 0 <= k < part.len() implies utxos.contains_key(#[trigger] part[k]) by {
            assert(part[k] == whole[k]);
        }
    }
}

/// Input `i` of transaction `t` is among the hashes that the list spends.
proof fn lemma_spent_contains(transactions: Seq<TransactionView>, t: int, i: int)
    requires
        0 <= t < transactions.len(),
        0 <= i < transactions[t].inputs.len(),
    ensures
        spent_hashes(transactions).contains(transactions[t].inputs[i].prev_transaction_output_hash),
    decreases transactions.len(),
{
    let before = spent_hashes(transactions.drop_last());
    let last = input_refs(transactions.last().inputs);
    if t == transactions.len() - 1 {
        assert(spent_hashes(transactions)[before.len() + i] == last[i]);
    } else {
        lemma_spent_contains(transactions.drop_last(), t, i);
        let k = before.index_of(transactions[t].inputs[i].prev_transaction_output_hash);
        assert(spent_hashes(transactions)[k] == before[k]);
    }
}

/// A running sum of 128-bit terms that cannot overflow: `low`, and the
/// number of times that 2^128 was carried out of it.
struct Tally {
    carries: u64,
    low: u128,
}

impl Tally {
    spec fn value(&self) -> nat {
        self.carries as nat * 0x1_0000_0000_0000_0000_0000_0000_0000_0000 + self.low as nat
    }

    fn new() -> (r: Tally)
        ensures
            r.value() == 0,
            r.carries == 0,
    {
        Tally { carries: 0, low: 0 }
    }

    fn add(&mut self, x: u128)
        requires
            old(self).carries < u64::MAX,
        ensures
            final(self).value() == old(self).value() + x as nat,
            final(self).carries <= old(self).carries + 1,
    {
        if x <= u128::MAX - self.low {
            self.low = self.low + x;
        } else {
            self.low = x - (u128::MAX - self.low) - 1;
            self.carries = self.carries + 1;
        }
    }

    /// `self - other`, where that is a 64-bit amount.
    fn minus(&self, other: &Tally) -> (r: Option<u64>)
        ensures
            match r {
                Some(d) => d as int == self.value() - other.value(),
                None => !(0 <= self.value() - other.value() <= u64::MAX),
            },
    {
        if self.carries == other.carries {
            if self.low >= other.low && self.low - other.low <= 0xffff_ffff_ffff_ffffu128 {
                Some((self.low - other.low) as u64)
            } else {
                None
            }
        } else if self.carries > other.carries && self.carries - other.carries == 1 {
            if other.low > self.low && other.low - self.low
                >= 0xffff_ffff_ffff_ffff_0000_0000_0000_0001u128 {
                let gap: u128 = other.low - self.low;
                Some(((u128::MAX - gap) + 1) as u64)
            } else {
                None
            }
        } else {
            None
        }
    }
}

/// Walks the inputs of `transaction`: resolves each in `utxos`, refuses one
/// that `seen` holds already, and adds up the amounts referred to.
fn scan_inputs(transaction: &Transaction, utxos: &UtxoSet, seen: &mut Vec<crate::sha256::Hash>) -> (r:
    Option<u128>)
    requires
        old(seen)@.no_duplicates(),
        all_unspent(old(seen)@, utxos@),
    ensures
        match r {
            Some(sum) => {
                &&& final(seen)@ == old(seen)@ + input_refs(transaction@.inputs)
                &&& final(seen)@.no_duplicates()
                &&& all_unspent(final(seen)@, utxos@)
                &&& sum == input_amounts(transaction@.inputs, utxos@)
            },
            None => {
                let all = old(seen)@ + input_refs(transaction@.inputs);
                !(all.no_duplicates() && all_unspent(all, utxos@))
            },
        },
{
    let ghost inputs = transaction@.inputs;
    let ghost start = seen@;
    let ghost all = start + input_refs(inputs);
    let mut sum: u128 = 0;
    let mut i: usize = 0;
    while i < transaction.inputs.len()
        invariant
            i <= transaction.inputs@.len(),
            inputs == transaction@.inputs,
            inputs.len() == transaction.inputs@.len(),
            start == old(seen)@,
            all == start + input_refs(inputs),
            seen@ == start + input_refs(inputs).subrange(0, i as int),
            seen@.no_duplicates(),
            all_unspent(seen@, utxos@),
            sum == input_amounts(inputs.subrange(0, i as int), utxos@),
            sum <= i * 0xffff_ffff_ffff_ffff,
        decreases transaction.inputs@.len() - i,
    {
        let reference = transaction.inputs[i].prev_transaction_output_hash;
        assert(reference == inputs[i as int].prev_transaction_output_hash);
        assert(all[start.len() + i] == reference);
        let amount: u64 = match utxos.get(&reference) {
            Some(output) => output.amount,
            None => {
                return None;
            },
        };
        if contains_hash(seen, &reference) {
            proof {
                let k = seen@.index_of(reference);
                assert(all[k] == seen@[k]);
            }
            return None;
        }
        proof {
            assert(inputs.subrange(0, i + 1).drop_last() =~= inputs.subrange(0, i as int));
            assert(seen@.push(reference) =~= start + input_refs(inputs).subrange(0, i + 1));
        }
        seen.push(reference);
        sum = sum + amount as u128;
        i += 1;
    }
    proof {
        assert(inputs.subrange(0, i as int) =~= inputs);
        assert(input_refs(inputs).subrange(0, i as int) =~= input_refs(inputs));
    }
    Some(sum)
}

/// Walks the outputs of `transaction`: refuses one whose hash `seen` holds
/// already, and adds up the amounts.
fn scan_outputs(transaction: &Transaction, seen: &mut Vec<crate::sha256::Hash>) -> (r: Option<u128>)
    requires
        old(seen)@.no_duplicates(),
    ensures
        match r {
            Some(sum) => {
                &&& final(seen)@ == old(seen)@ + output_hashes(transaction@.outputs)
                &&& final(seen)@.no_duplicates()
                &&& sum == output_amounts(transaction@.outputs)
            },
            None => !(old(seen)@ + output_hashes(transaction@.outputs)).no_duplicates(),
        },
{
    let ghost outputs = transaction@.outputs;
    let ghost start = seen@;
    let ghost all = start + output_hashes(outputs);
    let mut sum: u128 = 0;
    let mut i: usize = 0;
    while i < transaction.outputs.len()
        invariant
            i <= transaction.outputs@.len(),
            outputs == transaction@.outputs,
            outputs.len() == transaction.outputs@.len(),
            start == old(seen)@,
            all == start + output_hashes(outputs),
            seen@ == start + output_hashes(outputs).subrange(0, i as int),
            seen@.no_duplicates(),
            sum == output_amounts(outputs.subrange(0, i as int)),
            sum <= i * 0xffff_ffff_ffff_ffff,
        decreases transaction.outputs@.len() - i,
    {
        let hash = transaction.outputs[i].hash();
        assert(hash == txout_hash(outputs[i as int]));
        assert(all[start.len() + i] == hash);
        if contains_hash(seen, &hash) {
            proof {
                let k = seen@.index_of(hash);
                assert(all[k] == seen@[k]);
            }
            return None;
        }
        proof {
            assert(outputs.subrange(0, i + 1).drop_last() =~= outputs.subrange(0, i as int));
            assert(seen@.push(hash) =~= start + output_hashes(outputs).subrange(0, i + 1));
        }
        seen.push(hash);
        sum = sum + transaction.outputs[i].amount as u128;
        i += 1;
    }
    proof {
        assert(outputs.subrange(0, i as int) =~= outputs);
        assert(output_hashes(outputs).subrange(0, i as int) =~= output_hashes(outputs));
    }
    Some(sum)
}


/// Checks the signatures of `transaction` against the outputs that its
/// inputs refer to, and adds up the amounts of those outputs.
fn check_signatures(transaction: &Transaction, utxos: &UtxoSet) -> (r: Option<u128>)
    requires
        all_unspent(input_refs(transaction@.inputs), utxos@),
    ensures
        match r {
            Some(sum) => signatures_valid(transaction@, utxos@) && sum == input_amounts(
                transaction@.inputs,
                utxos@,
            ),
            None => !signatures_valid(transaction@, utxos@),
        },
{
    let ghost inputs = transaction@.inputs;
    let mut sum: u128 = 0;
    let mut i: usize = 0;
    while i < transaction.inputs.len()
        invariant
            i <= transaction.inputs@.len(),
            inputs == transaction@.inputs,
            inputs.len() == transaction.inputs@.len(),
            all_unspent(input_refs(inputs), utxos@),
            forall|k: int| 0 <= k < i ==> input_signed(#[trigger] inputs[k], utxos@),
            sum == input_amounts(inputs.subrange(0, i as int), utxos@),
            sum <= i * 0xffff_ffff_ffff_ffff,
        decreases transaction.inputs@.len() - i,
    {
        let input = &transaction.inputs[i];
        assert(input@ == inputs[i as int]);
        assert(input_refs(inputs)[i as int] == input.prev_transaction_output_hash);
        match utxos.get(&input.prev_transaction_output_hash) {
            Some(output) => {
                if !input.signature.verify(&input.prev_transaction_output_hash, &output.pubkey) {
                    assert(!input_signed(inputs[i as int], utxos@));
                    return None;
                }
                assert(inputs.subrange(0, i + 1).drop_last() =~= inputs.subrange(0, i as int));
                sum = sum + output.amount as u128;
            },
            None => {
                assert(false);
            },
        }
        i += 1;
    }
    assert(inputs.subrange(0, i as int) =~= inputs);
    Some(sum)
}

impl Block {
    /// The fees that the block's spending transactions leave to its coinbase.
    ///
    /// Fails where an input refers to no unspent output or to one that an
    /// earlier input of the block refers to, where two outputs made have the
    /// same hash, or where the fees do not add up to a 64-bit amount.
    pub fn compute_miner_fees(&self, utxos: &UtxoSet) -> (r: Result<u64, BtcError>)
        ensures
            r == miner_fees(self@.transactions, utxos@),
    {
        let ghost txs = self@.transactions;
        let ghost rest = spending(txs);
        if self.transactions.len() == 0 {
            return Ok(0);
        }
        let mut seen_inputs: Vec<crate::sha256::Hash> = Vec::new();
        let mut seen_outputs: Vec<crate::sha256::Hash> = Vec::new();
        let mut total_in = Tally::new();
        let mut total_out = Tally::new();
        let mut t: usize = 1;
        assert(rest.subrange(0, 0) =~= Seq::<TransactionView>::empty());
        while t < self.transactions.len()
            invariant
                1 <= t <= self.transactions@.len(),
                txs == self@.transactions,
                rest == spending(txs),
                seen_inputs@ == spent_hashes(rest.subrange(0, t - 1)),
                seen_inputs@.no_duplicates(),
                all_unspent(seen_inputs@, utxos@),
                seen_outputs@ == produced_hashes(rest.subrange(0, t - 1)),
                seen_outputs@.no_duplicates(),
                total_in.value() - total_out.value() == total_fees(rest.subrange(0, t - 1), utxos@),
                total_in.carries <= t - 1,
                total_out.carries <= t - 1,
            decreases self.transactions@.len() - t,
        {
            let transaction = &self.transactions[t];
            let ghost done = rest.subrange(0, t - 1);
            let ghost next = rest.subrange(0, t as int);
            proof {
                assert(next.drop_last() =~= done);
                assert(next.last() == transaction@);
                lemma_spent_prefix(rest, t as int);
                lemma_produced_prefix(rest, t as int);
                lemma_prefix_keeps(spent_hashes(next), spent_hashes(rest), utxos@);
                lemma_prefix_keeps(produced_hashes(next), produced_hashes(rest), utxos@);
            }
            let sum_in = match scan_inputs(transaction, utxos, &mut seen_inputs) {
                Some(sum) => sum,
                None => {
                    return Err(BtcError::InvalidTransaction);
                },
            };
            let sum_out = match scan_outputs(transaction, &mut seen_outputs) {
                Some(sum) => sum,
                None => {
                    return Err(BtcError::InvalidTransaction);
                },
            };
            total_in.add(sum_in);
            total_out.add(sum_out);
            t += 1;
        }
        assert(rest.subrange(0, t - 1) =~= rest);
        match total_in.minus(&total_out) {
            Some(fees) => Ok(fees),
            None => Err(BtcError::InvalidTransaction),
        }
    }

    /// Checks the block's first transaction as the coinbase of a block at
    /// `block_height`: it has no inputs and at least one output, and its
    /// outputs add up to the subsidy and the block's fees.
    pub fn verify_coinbase_tx(&self, block_height: u64, utxos: &UtxoSet) -> (r: Result<(), BtcError>)
        requires
            self.transactions@.len() > 0,
        ensures
            r == coinbase_check(self@.transactions, block_height as nat, utxos@),
    {
        let coinbase = &self.transactions[0];
        assert(coinbase@ == self@.transactions[0]);
        if coinbase.inputs.len() != 0 || coinbase.outputs.len() == 0 {
            return Err(BtcError::InvalidTransaction);
        }
        let fees = match self.compute_miner_fees(utxos) {
            Ok(fees) => fees,
            Err(e) => {
                return Err(e);
            },
        };
        let reward = block_reward(block_height);
        let total = sum_outputs(&coinbase.outputs);
        if total != reward as u128 + fees as u128 {
            return Err(BtcError::InvalidTransaction);
        }
        Ok(())
    }

    /// Checks the block's transactions as those of a block at
    /// `predicted_block_height`, against the unspent outputs as they stand
    /// before the block.
    pub fn verify_txs(&self, predicted_block_height: u64, utxos: &UtxoSet) -> (r: Result<(), BtcError>)
        ensures
            r == transactions_check(self@.transactions, predicted_block_height as nat, utxos@),
    {
        if self.transactions.len() == 0 {
            return Err(BtcError::InvalidTransaction);
        }
        match self.verify_coinbase_tx(predicted_block_height, utxos) {
            Ok(()) => {},
            Err(_) => {
                return Err(BtcError::InvalidTransaction);
            },
        }
        let ghost txs = self@.transactions;
        let ghost rest = spending(txs);
        assert(references_sound(rest, utxos@));
        let mut t: usize = 1;
        while t < self.transactions.len()
            invariant
                1 <= t <= self.transactions@.len(),
                txs == self@.transactions,
                rest == spending(txs),
                references_sound(rest, utxos@),
                coinbase_check(txs, predicted_block_height as nat, utxos@) is Ok,
                spending_check(txs, utxos@, 1) == spending_check(txs, utxos@, t as int),
            decreases self.transactions@.len() - t,
        {
            let transaction = &self.transactions[t];
            assert(transaction@ == txs[t as int]);
            assert(rest[t - 1] == txs[t as int]);
            proof {
                assert forall|k: int| 0 <= k < input_refs(transaction@.inputs).len() implies utxos@.contains_key(
                    #[trigger] input_refs(transaction@.inputs)[k],
                ) by {
                    lemma_spent_contains(rest, t - 1, k);
                    let j = spent_hashes(rest).index_of(input_refs(transaction@.inputs)[k]);
                    assert(utxos@.contains_key(spent_hashes(rest)[j]));
                }
            }
            let sum_in = match check_signatures(transaction, utxos) {
                Some(sum) => sum,
                None => {
                    return Err(BtcError::InvalidSignature);
                },
            };
            let sum_out = sum_outputs(&transaction.outputs);
            if sum_in < sum_out {
                return Err(BtcError::InvalidTransaction);
            }
            t += 1;
        }
        Ok(())
    }
}

} // verus!
