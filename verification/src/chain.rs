//! The consensus engine: the chain of accepted blocks and what follows from it.

use crate::constants::{max_target, min_target, DIFFICULTY_UPDATE_INTERVAL, IDEAL_BLOCK_TIME};
use crate::error::BtcError;
use crate::models::{
    header_hash, transaction_hash, Block, BlockHeader, BlockView, Transaction, TransactionView,
    TxOutView,
};
use crate::time::Timestamp;
use crate::uint256::{Wide, U256};
use crate::util::{merkle_root, MerkleRoot};
use crate::utxo::UtxoSet;
use crate::validation::{contains_hash, input_refs, transactions_check};
use vstd::prelude::*;

verus! {

/// The unspent outputs after a transaction: what its inputs refer to is
/// gone, and its last output stands under the transaction's hash.
pub open spec fn apply_transaction(
    utxos: Map<crate::sha256::Hash, TxOutView>,
    t: TransactionView,
) -> Map<crate::sha256::Hash, TxOutView> {
    let remaining = utxos.remove_keys(input_refs(t.inputs).to_set());
    if t.outputs.len() > 0 {
        remaining.insert(transaction_hash(t), t.outputs.last())
    } else {
        remaining
    }
}

/// The unspent outputs after a list of transactions, applied in order.
pub open spec fn apply_transactions(
    utxos: Map<crate::sha256::Hash, TxOutView>,
    transactions: Seq<TransactionView>,
) -> Map<crate::sha256::Hash, TxOutView>
    decreases transactions.len(),
{
    if transactions.len() == 0 {
        utxos
    } else {
        apply_transaction(apply_transactions(utxos, transactions.drop_last()), transactions.last())
    }
}

/// The unspent outputs that a chain of blocks leaves, starting from none.
pub open spec fn replay(blocks: Seq<BlockView>) -> Map<crate::sha256::Hash, TxOutView>
    decreases blocks.len(),
{
    if blocks.len() == 0 {
        Map::empty()
    } else {
        apply_transactions(replay(blocks.drop_last()), blocks.last().transactions)
    }
}

/// The hashes of a list of transactions, in order.
pub open spec fn transaction_hashes(transactions: Seq<TransactionView>) -> Seq<crate::sha256::Hash> {
    transactions.map_values(|t: TransactionView| transaction_hash(t))
}

/// The pending transactions that are left once those with a hash in
/// `included` are taken out, in their old order.
pub open spec fn pruned(
    mempool: Seq<(Timestamp, TransactionView)>,
    included: Seq<crate::sha256::Hash>,
) -> Seq<(Timestamp, TransactionView)> {
    mempool.filter(|e: (Timestamp, TransactionView)| !included.contains(transaction_hash(e.1)))
}

/// The target that follows `target` when `elapsed` seconds were taken for
/// one retarget interval: `target` scaled by the ratio of `elapsed` to the
/// ideal time and rounded down, held within a factor of four of `target`,
/// and never above the protocol's maximum.
pub open spec fn retarget(target: nat, elapsed: int) -> nat {
    let ideal = (IDEAL_BLOCK_TIME * DIFFICULTY_UPDATE_INTERVAL) as int;
    let scaled = (target as int * elapsed) / ideal;
    let clamped = if scaled < (target / 4) as int {
        (target / 4) as int
    } else if scaled > (target * 4) as int {
        (target * 4) as int
    } else {
        scaled
    };
    if clamped > max_target()@ as int {
        max_target()@
    } else {
        clamped as nat
    }
}

/// The target of a chain that has just grown to `blocks`: set anew where
/// the length is a positive multiple of the retarget interval, from the
/// time that the interval's blocks took, and left alone elsewhere.
pub open spec fn adjusted_target(blocks: Seq<BlockView>, target: U256) -> U256 {
    let interval = DIFFICULTY_UPDATE_INTERVAL as int;
    if blocks.len() == 0 || blocks.len() % (interval as nat) != 0 {
        target
    } else {
        let start = blocks[blocks.len() - interval].header.timestamp;
        let end = blocks.last().header.timestamp;
        U256::from_nat(retarget(target@, start.seconds_until(end)))
    }
}

/// What the engine holds, as mathematical values.
pub struct BlockchainView {
    pub blocks: Seq<BlockView>,
    pub mempool: Seq<(Timestamp, TransactionView)>,
    pub target: U256,
    pub utxos: Map<crate::sha256::Hash, TxOutView>,
}

/// Whether `header` names the tip of `blocks` as its predecessor: the zero
/// hash where there is no block yet, the hash of the last header elsewhere.
pub open spec fn links_to(blocks: Seq<BlockView>, header: BlockHeader) -> bool {
    if blocks.len() == 0 {
        header.prev_block_hash.0@ == 0
    } else {
        header.prev_block_hash == header_hash(blocks.last().header)
    }
}

/// Whether `header` is later than the tip of `blocks`, if there is one.
pub open spec fn later_than_tip(blocks: Seq<BlockView>, header: BlockHeader) -> bool {
    blocks.len() > 0 ==> blocks.last().header.timestamp.total_nanos()
        < header.timestamp.total_nanos()
}

/// The outcome of checking a candidate block against the engine's state:
/// the error of the first of these checks that fails, in this order.
///
/// 1. The block names the tip's header as its predecessor, or none where
///    the chain is empty: `InvalidBlock`.
/// 2. The hash of its header is at most the header's own target: `InvalidBlock`.
/// 3. It holds a transaction: `InvalidTransaction`.
/// 4. Its header carries the merkle root of its transactions: `InvalidMerkleRoot`.
/// 5. It is later than the tip, where there is one: `InvalidBlock`.
/// 6. Its transactions are lawful at the height that is the length of the
///    chain, given the unspent outputs as they stand: the error that
///    `transactions_check` gives.
pub open spec fn block_check(state: BlockchainView, candidate: BlockView) -> Result<(), BtcError> {
    if !links_to(state.blocks, candidate.header) {
        Err(BtcError::InvalidBlock)
    } else if !(header_hash(candidate.header).0@ <= candidate.header.target@) {
        Err(BtcError::InvalidBlock)
    } else if candidate.transactions.len() == 0 {
        Err(BtcError::InvalidTransaction)
    } else if merkle_root(candidate.transactions) != candidate.header.merkle_root {
        Err(BtcError::InvalidMerkleRoot)
    } else if !later_than_tip(state.blocks, candidate.header) {
        Err(BtcError::InvalidBlock)
    } else {
        transactions_check(candidate.transactions, state.blocks.len(), state.utxos)
    }
}

/// The engine's state once `candidate` has been accepted.
pub open spec fn accepted(state: BlockchainView, candidate: BlockView) -> BlockchainView {
    let blocks = state.blocks.push(candidate);
    BlockchainView {
        blocks,
        mempool: pruned(state.mempool, transaction_hashes(candidate.transactions)),
        target: adjusted_target(blocks, state.target),
        utxos: apply_transactions(state.utxos, candidate.transactions),
    }
}

/// The views of a list of blocks, in order.
pub open spec fn block_views(blocks: Seq<Block>) -> Seq<BlockView> {
    blocks.map_values(|b: Block| b@)
}

/// The views of a list of pending transactions, in order.
pub open spec fn mempool_views(mempool: Seq<(Timestamp, Transaction)>) -> Seq<
    (Timestamp, TransactionView),
> {
    mempool.map_values(|e: (Timestamp, Transaction)| (e.0, e.1@))
}

/// The consensus engine's state.
#[derive(Debug)]
pub struct Blockchain {
    /// The accepted blocks, oldest first.
    pub blocks: Vec<Block>,
    /// Transactions seen but not yet in a block, each with its arrival time.
    pub mempool: Vec<(Timestamp, Transaction)>,
    /// The current target.
    pub target: U256,
    /// The unspent outputs.
    pub utxos: UtxoSet,
}

impl View for Blockchain {
    type V = BlockchainView;

    open spec fn view(&self) -> BlockchainView {
        BlockchainView {
            blocks: block_views(self.blocks@),
            mempool: mempool_views(self.mempool@),
            target: self.target,
            utxos: self.utxos@,
        }
    }
}

/// Filtering a list of one keeps the one or nothing.
proof fn lemma_filter_one<A>(x: A, pred: spec_fn(A) -> bool)
    ensures
        seq![x].filter(pred) == if pred(x) {
            seq![x]
        } else {
            Seq::<A>::empty()
        },
{
    reveal_with_fuel(Seq::filter, 2);
    assert(seq![x].drop_last() =~= Seq::<A>::empty());
    assert(seq![x].filter(pred) =~= if pred(x) {
        seq![x]
    } else {
        Seq::<A>::empty()
    });
}

/// Filtering a list with one more item at its end.
proof fn lemma_filter_push<A>(s: Seq<A>, x: A, pred: spec_fn(A) -> bool)
    ensures
        s.push(x).filter(pred) == if pred(x) {
            s.filter(pred).push(x)
        } else {
            s.filter(pred)
        },
{
    lemma_filter_one(x, pred);
    Seq::filter_distributes_over_add(s, seq![x], pred);
    assert(s.push(x) =~= s + seq![x]);
    assert(s.filter(pred) + seq![x] =~= s.filter(pred).push(x));
    assert(s.filter(pred) + Seq::<A>::empty() =~= s.filter(pred));
}

/// The hashes of the transactions of `block`.
fn hashes_of(block: &Block) -> (r: Vec<crate::sha256::Hash>)
    ensures
        r@ == transaction_hashes(block@.transactions),
{
    let mut hashes: Vec<crate::sha256::Hash> = Vec::new();
    let mut i: usize = 0;
    while i < block.transactions.len()
        invariant
            i <= block.transactions@.len(),
            hashes@.len() == i,
            forall|k: int| 0 <= k < i ==> hashes@[k] == transaction_hash(block.transactions@[k]@),
        decreases block.transactions@.len() - i,
    {
        hashes.push(block.transactions[i].hash());
        i += 1;
    }
    assert(hashes@ =~= transaction_hashes(block@.transactions));
    hashes
}

/// Takes out of `mempool` every transaction whose hash is in `included`.
fn prune(mempool: &mut Vec<(Timestamp, Transaction)>, included: &Vec<crate::sha256::Hash>)
    ensures
        mempool_views(final(mempool)@) == pruned(mempool_views(old(mempool)@), included@),
{
    let ghost before = mempool_views(mempool@);
    let ghost keep = |e: (Timestamp, TransactionView)| !included@.contains(transaction_hash(e.1));
    let mut kept: Vec<(Timestamp, Transaction)> = Vec::new();
    let mut i: usize = 0;
    assert(before.subrange(0, 0) =~= Seq::<(Timestamp, TransactionView)>::empty());
    assert(mempool_views(kept@) =~= Seq::<(Timestamp, TransactionView)>::empty());
    proof {
        Seq::<(Timestamp, TransactionView)>::empty().lemma_filter_len(keep);
    }
    while i < mempool.len()
        invariant
            i <= mempool@.len(),
            before == mempool_views(mempool@),
            keep == |e: (Timestamp, TransactionView)| !included@.contains(transaction_hash(e.1)),
            mempool_views(kept@) == before.subrange(0, i as int).filter(keep),
        decreases mempool@.len() - i,
    {
        let hash = mempool[i].1.hash();
        proof {
            lemma_filter_push(before.subrange(0, i as int), before[i as int], keep);
            assert(before.subrange(0, i as int).push(before[i as int]) =~= before.subrange(0, i + 1));
        }
        if !contains_hash(included, &hash) {
            let ghost old_kept = kept@;
            let entry = (mempool[i].0, mempool[i].1.clone());
            kept.push(entry);
            assert(mempool_views(kept@) =~= mempool_views(old_kept).push(before[i as int]));
        }
        i += 1;
    }
    assert(before.subrange(0, i as int) =~= before);
    *mempool = kept;
}

/// Applies the transactions of `block` to `utxos`, in order.
fn apply_block(utxos: &mut UtxoSet, block: &Block)
    ensures
        final(utxos)@ == apply_transactions(old(utxos)@, block@.transactions),
{
    let ghost txs = block@.transactions;
    let ghost start = utxos@;
    let mut t: usize = 0;
    assert(txs.subrange(0, 0) =~= Seq::<TransactionView>::empty());
    while t < block.transactions.len()
        invariant
            t <= block.transactions@.len(),
            txs == block@.transactions,
            utxos@ == apply_transactions(start, txs.subrange(0, t as int)),
        decreases block.transactions@.len() - t,
    {
        let transaction = &block.transactions[t];
        let ghost tv = transaction@;
        let ghost base = utxos@;
        assert(tv == txs[t as int]);
        let mut i: usize = 0;
        assert(input_refs(tv.inputs).subrange(0, 0).to_set() =~= Set::<crate::sha256::Hash>::empty());
        assert(base.remove_keys(Set::<crate::sha256::Hash>::empty()) =~= base);
        while i < transaction.inputs.len()
            invariant
                i <= transaction.inputs@.len(),
                tv == transaction@,
                utxos@ == base.remove_keys(input_refs(tv.inputs).subrange(0, i as int).to_set()),
            decreases transaction.inputs@.len() - i,
        {
            let reference = transaction.inputs[i].prev_transaction_output_hash;
            proof {
                let done = input_refs(tv.inputs).subrange(0, i as int);
                let more = input_refs(tv.inputs).subrange(0, i + 1);
                assert(more =~= done.push(reference));
                assert(more.to_set() =~= done.to_set().insert(reference)) by {
                    assert forall|h: crate::sha256::Hash| more.to_set().contains(h) implies done.to_set().insert(
                        reference,
                    ).contains(h) by {
                        let k = more.index_of(h);
                        if k < i {
                            assert(done[k] == h);
                        }
                    }
                    assert forall|h: crate::sha256::Hash| done.to_set().insert(reference).contains(
                        h,
                    ) implies more.to_set().contains(h) by {
                        if h == reference {
                            assert(more[i as int] == h);
                        } else {
                            let k = done.index_of(h);
                            assert(more[k] == h);
                        }
                    }
                }
                assert(base.remove_keys(done.to_set()).remove(reference) =~= base.remove_keys(
                    more.to_set(),
                ));
            }
            utxos.remove(&reference);
            i += 1;
        }
        assert(input_refs(tv.inputs).subrange(0, i as int) =~= input_refs(tv.inputs));
        let ghost remaining = utxos@;
        if transaction.outputs.len() > 0 {
            let hash = transaction.hash();
            let mut j: usize = 0;
            while j < transaction.outputs.len()
                invariant
                    j <= transaction.outputs@.len(),
                    tv == transaction@,
                    hash == transaction_hash(tv),
                    utxos@ == if j == 0 {
                        remaining
                    } else {
                        remaining.insert(hash, tv.outputs[j - 1])
                    },
                decreases transaction.outputs@.len() - j,
            {
                proof {
                    if j > 0 {
                        assert(remaining.insert(hash, tv.outputs[j - 1]).insert(
                            hash,
                            tv.outputs[j as int],
                        ) =~= remaining.insert(hash, tv.outputs[j as int]));
                    }
                }
                utxos.insert(hash, transaction.outputs[j].clone());
                j += 1;
            }
        }
        proof {
            assert(txs.subrange(0, t + 1).drop_last() =~= txs.subrange(0, t as int));
            assert(utxos@ == apply_transaction(base, tv));
        }
        t += 1;
    }
    assert(txs.subrange(0, t as int) =~= txs);
}


/// The target that follows `target` after an interval of `elapsed` seconds.
pub fn next_target(target: U256, elapsed: i128) -> (r: U256)
    ensures
        r@ == retarget(target@, elapsed as int),
{
    let ideal: u64 = IDEAL_BLOCK_TIME * DIFFICULTY_UPDATE_INTERVAL;
    let lower: Wide = target.widen().div_u64(4);
    let upper: Wide = target.mul_u64(4);
    let ghost t = target@ as int;
    let ghost scaled = (t * elapsed as int) / (ideal as int);
    let clamped: Wide = if elapsed <= 0 {
        proof {
            assert(t * elapsed as int <= 0) by (nonlinear_arith)
                requires
                    t >= 0,
                    elapsed as int <= 0,
            ;
            vstd::arithmetic::div_mod::lemma_div_is_ordered(t * elapsed as int, 0, ideal as int);
        }
        lower
    } else if elapsed >= 5 * (ideal as i128) {
        proof {
            assert(t * elapsed as int >= (5 * t) * ideal as int) by (nonlinear_arith)
                requires
                    t >= 0,
                    ideal as int > 0,
                    elapsed as int >= 5 * ideal as int,
            ;
            vstd::arithmetic::div_mod::lemma_div_is_ordered(
                (5 * t) * ideal as int,
                t * elapsed as int,
                ideal as int,
            );
            vstd::arithmetic::div_mod::lemma_div_multiples_vanish(5 * t, ideal as int);
        }
        upper
    } else {
        let factor: u64 = elapsed as u64;
        let exact: Wide = target.mul_u64(factor).div_u64(ideal);
        if !lower.le(&exact) {
            lower
        } else if !exact.le(&upper) {
            upper
        } else {
            exact
        }
    };
    let cap: Wide = min_target().widen();
    let bounded: Wide = if cap.le(&clamped) {
        cap
    } else {
        clamped
    };
    match bounded.narrow() {
        Some(result) => result,
        None => {
            assert(false);
            target
        },
    }
}

impl Blockchain {
    /// An engine with no blocks, at the protocol's maximum target.
    pub fn new() -> (r: Blockchain)
        ensures
            r@.blocks == Seq::<BlockView>::empty(),
            r@.mempool == Seq::<(Timestamp, TransactionView)>::empty(),
            r@.target == max_target(),
            r@.utxos == Map::<crate::sha256::Hash, TxOutView>::empty(),
    {
        let r = Blockchain {
            blocks: Vec::new(),
            mempool: Vec::new(),
            target: min_target(),
            utxos: UtxoSet::new(),
        };
        assert(r@.blocks =~= Seq::<BlockView>::empty());
        assert(r@.mempool =~= Seq::<(Timestamp, TransactionView)>::empty());
        r
    }

    /// The number of accepted blocks.
    pub fn block_height(&self) -> (r: u64)
        ensures
            r == self@.blocks.len(),
    {
        self.blocks.len() as u64
    }

    /// Whether `block` may extend the chain as it stands, and why not if
    /// it may not.
    pub fn check_block(&self, block: &Block) -> (r: Result<(), BtcError>)
        ensures
            r == block_check(self@, block@),
    {
        let ghost state = self@;
        let count = self.blocks.len();
        if count == 0 {
            let zero = crate::sha256::Hash::zero();
            if block.header.prev_block_hash != zero {
                proof {
                    if block.header.prev_block_hash.0@ == 0 {
                        block.header.prev_block_hash.0.lemma_from_nat_view();
                        zero.0.lemma_from_nat_view();
                    }
                }
                return Err(BtcError::InvalidBlock);
            }
        } else {
            let tip = &self.blocks[count - 1];
            assert(tip@ == state.blocks.last());
            if block.header.prev_block_hash != tip.header.hash() {
                return Err(BtcError::InvalidBlock);
            }
        }
        if !block.header.hash().matches_target(block.header.target) {
            return Err(BtcError::InvalidBlock);
        }
        if block.transactions.len() == 0 {
            return Err(BtcError::InvalidTransaction);
        }
        let root = MerkleRoot::new(block.transactions.as_slice());
        if root != block.header.merkle_root {
            return Err(BtcError::InvalidMerkleRoot);
        }
        if count > 0 {
            let tip = &self.blocks[count - 1];
            assert(tip@ == state.blocks.last());
            if !tip.header.timestamp.lt(&block.header.timestamp) {
                return Err(BtcError::InvalidBlock);
            }
        }
        block.verify_txs(count as u64, &self.utxos)
    }

    /// Adds `block` to the chain if it may extend it, and says why not if
    /// it may not. A block that is refused changes nothing.
    pub fn add_block(&mut self, block: Block) -> (r: Result<(), BtcError>)
        ensures
            r == block_check(old(self)@, block@),
            r is Ok ==> final(self)@ == accepted(old(self)@, block@),
            r is Err ==> *final(self) == *old(self),
    {
        let checked = self.check_block(&block);
        if checked.is_ok() {
            self.append(block);
        }
        checked
    }

    /// Takes `block` into the chain: spends and makes outputs, drops its
    /// transactions from the mempool, and sets the target anew if due.
    fn append(&mut self, block: Block)
        ensures
            final(self)@ == accepted(old(self)@, block@),
    {
        let ghost state = self@;
        let ghost candidate = block@;
        apply_block(&mut self.utxos, &block);
        let included = hashes_of(&block);
        prune(&mut self.mempool, &included);
        self.blocks.push(block);
        assert(block_views(self.blocks@) =~= state.blocks.push(candidate));
        self.try_adjust_target();
    }

    /// Sets the target anew where the chain's length is a positive multiple
    /// of the retarget interval.
    pub fn try_adjust_target(&mut self)
        ensures
            final(self).target == adjusted_target(old(self)@.blocks, old(self).target),
            final(self).blocks == old(self).blocks,
            final(self).mempool == old(self).mempool,
            final(self).utxos == old(self).utxos,
    {
        let count = self.blocks.len();
        let interval: usize = DIFFICULTY_UPDATE_INTERVAL as usize;
        if count == 0 || count % interval != 0 {
            return;
        }
        let start = self.blocks[count - interval].header.timestamp;
        let end = self.blocks[count - 1].header.timestamp;
        let elapsed = start.elapsed_seconds(&end);
        let next = next_target(self.target, elapsed);
        proof {
            next.lemma_from_nat_view();
        }
        self.target = next;
    }

    /// Works out the unspent outputs afresh, by going through every block
    /// of the chain from the first.
    pub fn rebuild_utxos(&mut self)
        ensures
            final(self)@.utxos == replay(old(self)@.blocks),
            final(self).blocks == old(self).blocks,
            final(self).mempool == old(self).mempool,
            final(self).target == old(self).target,
    {
        let ghost blocks = self@.blocks;
        self.utxos.clear();
        let mut b: usize = 0;
        assert(blocks.subrange(0, 0) =~= Seq::<BlockView>::empty());
        while b < self.blocks.len()
            invariant
                b <= self.blocks@.len(),
                blocks == block_views(self.blocks@),
                self.blocks == old(self).blocks,
                self.mempool == old(self).mempool,
                self.target == old(self).target,
                self.utxos@ == replay(blocks.subrange(0, b as int)),
            decreases self.blocks@.len() - b,
        {
            assert(blocks.subrange(0, b + 1).drop_last() =~= blocks.subrange(0, b as int));
            assert(blocks.subrange(0, b + 1).last() == self.blocks@[b as int]@);
            apply_block(&mut self.utxos, &self.blocks[b]);
            b += 1;
        }
        assert(blocks.subrange(0, b as int) =~= blocks);
    }
}

impl Clone for Blockchain {
    fn clone(&self) -> (r: Self)
        ensures
            r@ == self@,
    {
        let mut blocks: Vec<Block> = Vec::new();
        let mut i: usize = 0;
        while i < self.blocks.len()
            invariant
                i <= self.blocks@.len(),
                blocks@.len() == i,
                forall|k: int| 0 <= k < i ==> (#[trigger] blocks@[k])@ == self.blocks@[k]@,
            decreases self.blocks@.len() - i,
        {
            blocks.push(self.blocks[i].clone());
            i += 1;
        }
        let mut mempool: Vec<(Timestamp, Transaction)> = Vec::new();
        let mut j: usize = 0;
        while j < self.mempool.len()
            invariant
                j <= self.mempool@.len(),
                mempool@.len() == j,
                forall|k: int|
                    0 <= k < j ==> (#[trigger] mempool@[k]).0 == self.mempool@[k].0 && mempool@[k].1@
                        == self.mempool@[k].1@,
            decreases self.mempool@.len() - j,
        {
            mempool.push((self.mempool[j].0, self.mempool[j].1.clone()));
            j += 1;
        }
        let r = Blockchain { blocks, mempool, target: self.target, utxos: self.utxos.clone() };
        assert(r@.blocks =~= self@.blocks);
        assert(r@.mempool =~= self@.mempool);
        r
    }
}

impl Default for Blockchain {
    fn default() -> (r: Blockchain)
        ensures
            r@.blocks == Seq::<BlockView>::empty(),
            r@.mempool == Seq::<(Timestamp, TransactionView)>::empty(),
            r@.target == max_target(),
            r@.utxos == Map::<crate::sha256::Hash, TxOutView>::empty(),
    {
        Blockchain::new()
    }
}

} // verus!
