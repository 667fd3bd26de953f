//! What holds of the engine's rules, whatever the blocks.

use crate::chain::{
    accepted, apply_transactions, block_check, links_to, replay, retarget, BlockchainView,
};
use crate::constants::{max_target, BASE_UNITS, HALVING_INTERVAL, INITIAL_REWARD};
use crate::error::BtcError;
use crate::models::{BlockHeader, BlockView, TransactionView, TxOutView};
use crate::util::merkle_root;
use crate::validation::{
    coinbase_check, input_amounts, miner_fees, output_amounts, references_sound, spending,
    spending_check, spent_hashes, subsidy, total_fees, transaction_fee, transactions_check, input_refs,
};
use vstd::arithmetic::power2::pow2;
use vstd::prelude::*;

verus! {

/// The state of an engine that has accepted nothing yet.
pub open spec fn initial_state() -> BlockchainView {
    BlockchainView {
        blocks: Seq::empty(),
        mempool: Seq::empty(),
        target: max_target(),
        utxos: Map::empty(),
    }
}

/// The state after `blocks` were accepted one after the other.
pub open spec fn extended(state: BlockchainView, blocks: Seq<BlockView>) -> BlockchainView
    decreases blocks.len(),
{
    if blocks.len() == 0 {
        state
    } else {
        accepted(extended(state, blocks.drop_last()), blocks.last())
    }
}

/// Accepting a block keeps the unspent outputs equal to what a replay of
/// the chain from its first block gives.
pub proof fn lemma_accept_keeps_replay(state: BlockchainView, candidate: BlockView)
    requires
        state.utxos == replay(state.blocks),
    ensures
        accepted(state, candidate).utxos == replay(accepted(state, candidate).blocks),
{
    let blocks = state.blocks.push(candidate);
    assert(blocks.drop_last() =~= state.blocks);
}

/// After any number of blocks accepted by an engine that started empty,
/// the chain holds those blocks and the unspent outputs are what a replay
/// of the chain gives: rebuilding them changes nothing.
pub proof fn lemma_rebuild_matches_incremental(blocks: Seq<BlockView>)
    ensures
        extended(initial_state(), blocks).blocks == blocks,
        extended(initial_state(), blocks).utxos == replay(blocks),
    decreases blocks.len(),
{
    if blocks.len() == 0 {
        assert(extended(initial_state(), blocks).blocks =~= blocks);
    } else {
        let before = extended(initial_state(), blocks.drop_last());
        lemma_rebuild_matches_incremental(blocks.drop_last());
        lemma_accept_keeps_replay(before, blocks.last());
        assert(before.blocks.push(blocks.last()) =~= blocks);
    }
}

/// A first block that names a predecessor is refused as an invalid block.
pub proof fn lemma_first_block_needs_zero_predecessor(state: BlockchainView, candidate: BlockView)
    requires
        state.blocks.len() == 0,
        candidate.header.prev_block_hash.0@ != 0,
    ensures
        block_check(state, candidate) == Err::<(), BtcError>(BtcError::InvalidBlock),
{
}

/// A first block that names no predecessor, meets its own target, carries
/// the merkle root of its transactions, and whose transactions are lawful
/// at height 0, is accepted.
pub proof fn lemma_first_block_accepted(state: BlockchainView, candidate: BlockView)
    requires
        state.blocks.len() == 0,
        candidate.header.prev_block_hash.0@ == 0,
        crate::models::header_hash(candidate.header).0@ <= candidate.header.target@,
        candidate.transactions.len() > 0,
        merkle_root(candidate.transactions) == candidate.header.merkle_root,
        transactions_check(candidate.transactions, 0, state.utxos) is Ok,
    ensures
        block_check(state, candidate) is Ok,
{
}

/// The number of hashes that the first `k` transactions spend.
pub open spec fn spent_before(transactions: Seq<TransactionView>, k: int) -> int {
    spent_hashes(transactions.subrange(0, k)).len() as int
}

/// Where the hash of input `i` of transaction `t` stands among the hashes
/// that the list spends.
proof fn lemma_spent_position(transactions: Seq<TransactionView>, t: int, i: int)
    requires
        0 <= t < transactions.len(),
        0 <= i < transactions[t].inputs.len(),
    ensures
        spent_before(transactions, t) + i < spent_before(transactions, t + 1),
        spent_before(transactions, t + 1) <= spent_hashes(transactions).len(),
        spent_hashes(transactions)[spent_before(transactions, t) + i]
            == transactions[t].inputs[i].prev_transaction_output_hash,
    decreases transactions.len(),
{
    let upto = transactions.subrange(0, t + 1);
    assert(upto.drop_last() =~= transactions.subrange(0, t));
    assert(upto.last() == transactions[t]);
    assert(spent_hashes(upto)[spent_before(transactions, t) + i] == input_refs(
        transactions[t].inputs,
    )[i]);
    if t + 1 == transactions.len() {
        assert(upto =~= transactions);
    } else {
        let shorter = transactions.drop_last();
        lemma_spent_position(shorter, t, i);
        assert(shorter.subrange(0, t) =~= transactions.subrange(0, t));
        assert(shorter.subrange(0, t + 1) =~= transactions.subrange(0, t + 1));
    }
}

/// The hashes spent up to a transaction are no more than those spent up to
/// a later one.
proof fn lemma_spent_before_grows(transactions: Seq<TransactionView>, a: int, b: int)
    requires
        0 <= a <= b <= transactions.len(),
    ensures
        spent_before(transactions, a) <= spent_before(transactions, b),
    decreases b - a,
{
    if a < b {
        lemma_spent_before_grows(transactions, a, b - 1);
        assert(transactions.subrange(0, b).drop_last() =~= transactions.subrange(0, b - 1));
    }
}

/// Where two inputs of a block's spending transactions refer to the same
/// output, the block's transactions are refused as an invalid transaction,
/// whatever else holds of them.
pub proof fn lemma_double_spend_refused(
    transactions: Seq<TransactionView>,
    height: nat,
    utxos: Map<crate::sha256::Hash, TxOutView>,
    t1: int,
    i1: int,
    t2: int,
    i2: int,
)
    requires
        1 <= t1 < transactions.len(),
        1 <= t2 < transactions.len(),
        0 <= i1 < transactions[t1].inputs.len(),
        0 <= i2 < transactions[t2].inputs.len(),
        t1 != t2 || i1 != i2,
        transactions[t1].inputs[i1].prev_transaction_output_hash
            == transactions[t2].inputs[i2].prev_transaction_output_hash,
    ensures
        transactions_check(transactions, height, utxos) == Err::<(), BtcError>(
            BtcError::InvalidTransaction,
        ),
{
    let rest = spending(transactions);
    assert(rest[t1 - 1] == transactions[t1]);
    assert(rest[t2 - 1] == transactions[t2]);
    lemma_spent_position(rest, t1 - 1, i1);
    lemma_spent_position(rest, t2 - 1, i2);
    let k1 = spent_before(rest, t1 - 1) + i1;
    let k2 = spent_before(rest, t2 - 1) + i2;
    if t1 < t2 {
        lemma_spent_before_grows(rest, t1, t2 - 1);
    } else if t2 < t1 {
        lemma_spent_before_grows(rest, t2, t1 - 1);
    }
    assert(k1 != k2);
    assert(spent_hashes(rest)[k1] == spent_hashes(rest)[k2]);
    assert(!spent_hashes(rest).no_duplicates());
    assert(!references_sound(rest, utxos));
}

/// Where the spending transactions pass from index `from` on, each of
/// them has inputs that cover its outputs.
proof fn lemma_spending_covered(
    transactions: Seq<TransactionView>,
    utxos: Map<crate::sha256::Hash, TxOutView>,
    from: int,
    t: int,
)
    requires
        0 <= from <= t < transactions.len(),
        spending_check(transactions, utxos, from) is Ok,
    ensures
        transaction_fee(transactions[t], utxos) >= 0,
    decreases transactions.len() - from,
{
    if from < t {
        lemma_spending_covered(transactions, utxos, from + 1, t);
    }
}

/// In a block whose transactions are accepted, the inputs of every
/// spending transaction cover its outputs, and the coinbase pays out the
/// subsidy and the fees of the other transactions, no more and no less.
pub proof fn lemma_accepted_amounts(
    transactions: Seq<TransactionView>,
    height: nat,
    utxos: Map<crate::sha256::Hash, TxOutView>,
)
    requires
        transactions_check(transactions, height, utxos) is Ok,
    ensures
        forall|t: int|
            1 <= t < transactions.len() ==> input_amounts(
                (#[trigger] transactions[t]).inputs,
                utxos,
            ) >= output_amounts(transactions[t].outputs),
        transactions.len() > 0,
        transactions[0].inputs.len() == 0,
        transactions[0].outputs.len() > 0,
        output_amounts(transactions[0].outputs) == subsidy(height) + total_fees(
            spending(transactions),
            utxos,
        ),
{
    assert forall|t: int| 1 <= t < transactions.len() implies input_amounts(
        (#[trigger] transactions[t]).inputs,
        utxos,
    ) >= output_amounts(transactions[t].outputs) by {
        lemma_spending_covered(transactions, utxos, 1, t);
    }
    assert(coinbase_check(transactions, height, utxos) is Ok);
    assert(miner_fees(transactions, utxos) is Ok);
}

/// A block that carries the transactions of a valid block in another
/// order, under the same header, is refused wherever the new order has
/// another merkle root: as a bad merkle root, if it gets that far.
pub proof fn lemma_reordering_invalidates(
    state: BlockchainView,
    header: BlockHeader,
    transactions: Seq<TransactionView>,
    reordered: Seq<TransactionView>,
)
    requires
        transactions.len() > 0,
        reordered.len() == transactions.len(),
        header.merkle_root == merkle_root(transactions),
        merkle_root(reordered) != merkle_root(transactions),
    ensures
        block_check(state, BlockView { header, transactions: reordered }) is Err,
        links_to(state.blocks, header) && crate::models::header_hash(header).0@ <= header.target@
            ==> block_check(state, BlockView { header, transactions: reordered }) == Err::<
            (),
            BtcError,
        >(BtcError::InvalidMerkleRoot),
{
}

/// A header that carries the merkle root of the block's transactions, in
/// the order in which the block holds them, is never refused for its
/// merkle root.
pub proof fn lemma_recomputed_root_restores(
    state: BlockchainView,
    header: BlockHeader,
    reordered: Seq<TransactionView>,
)
    requires
        reordered.len() > 0,
    ensures
        ({
            let fixed = BlockHeader { merkle_root: merkle_root(reordered), ..header };
            block_check(state, BlockView { header: fixed, transactions: reordered }) != Err::<
                (),
                BtcError,
            >(BtcError::InvalidMerkleRoot)
        }),
{
    let fixed = BlockHeader { merkle_root: merkle_root(reordered), ..header };
    let candidate = BlockView { header: fixed, transactions: reordered };
    crate::validation::lemma_transactions_check_errors(reordered, state.blocks.len(), state.utxos);
}

/// The target that follows a target within the protocol's maximum lies
/// between a quarter of it and four times it, and within the maximum.
pub proof fn lemma_retarget_bounds(target: nat, elapsed: int)
    requires
        target <= max_target()@,
    ensures
        target / 4 <= retarget(target, elapsed) <= target * 4,
        retarget(target, elapsed) <= max_target()@,
{
}

/// The subsidy starts at the initial reward and halves, rounding down,
/// with every halving interval.
pub proof fn lemma_subsidy_halves(height: nat)
    ensures
        subsidy(0) == INITIAL_REWARD * BASE_UNITS,
        subsidy(height + HALVING_INTERVAL as nat) == subsidy(height) / 2,
{
    let interval = HALVING_INTERVAL as nat;
    let initial = (INITIAL_REWARD * BASE_UNITS) as nat;
    vstd::arithmetic::power2::lemma2_to64();
    assert(0nat / interval == 0);
    assert(initial / 1 == initial);
    assert((height + interval) / interval == height / interval + 1) by {
        vstd::arithmetic::div_mod::lemma_div_plus_one(height as int, interval as int);
    }
    let k = height / interval;
    vstd::arithmetic::power2::lemma_pow2_adds(k, 1);
    vstd::arithmetic::power2::lemma_pow2_pos(k);
    vstd::arithmetic::div_mod::lemma_div_denominator(initial as int, pow2(k) as int, 2);
}

/// The subsidy is the same for all heights of one halving interval.
pub proof fn lemma_subsidy_steady(a: nat, b: nat)
    requires
        a / (HALVING_INTERVAL as nat) == b / (HALVING_INTERVAL as nat),
    ensures
        subsidy(a) == subsidy(b),
{
}


/// What holds of every chain that the engine has built: each block names
/// its predecessor, meets its own target, carries the merkle root of its
/// transactions, is later than its predecessor, and holds transactions
/// that were lawful at its height given the blocks before it.
pub open spec fn chain_sound(blocks: Seq<BlockView>) -> bool {
    forall|i: int|
        0 <= i < blocks.len() ==> block_check(
            BlockchainView {
                blocks: blocks.subrange(0, i),
                mempool: Seq::empty(),
                target: max_target(),
                utxos: replay(blocks.subrange(0, i)),
            },
            #[trigger] blocks[i],
        ) is Ok
}

/// What holds of the engine's state after every block it accepts: its
/// chain is sound, its unspent outputs are those that a replay of the
/// chain gives, and its target is within the protocol's maximum.
pub open spec fn state_sound(state: BlockchainView) -> bool {
    &&& chain_sound(state.blocks)
    &&& state.utxos == replay(state.blocks)
    &&& state.target@ <= max_target()@
}

/// In a sound chain, block `i` names the block before it (the first names
/// none), meets its own target, carries the merkle root of its
/// transactions, is later than the block before it, and holds transactions
/// that are lawful at height `i` given the outputs that the blocks before
/// it left unspent.
pub proof fn lemma_sound_chain_block(blocks: Seq<BlockView>, i: int)
    requires
        chain_sound(blocks),
        0 <= i < blocks.len(),
    ensures
        i == 0 ==> blocks[i].header.prev_block_hash.0@ == 0,
        i > 0 ==> blocks[i].header.prev_block_hash == crate::models::header_hash(
            blocks[i - 1].header,
        ),
        crate::models::header_hash(blocks[i].header).0@ <= blocks[i].header.target@,
        blocks[i].transactions.len() > 0,
        blocks[i].header.merkle_root == merkle_root(blocks[i].transactions),
        i > 0 ==> blocks[i - 1].header.timestamp.total_nanos()
            < blocks[i].header.timestamp.total_nanos(),
        transactions_check(blocks[i].transactions, i as nat, replay(blocks.subrange(0, i))) is Ok,
{
    let before = BlockchainView {
        blocks: blocks.subrange(0, i),
        mempool: Seq::empty(),
        target: max_target(),
        utxos: replay(blocks.subrange(0, i)),
    };
    assert(block_check(before, blocks[i]) is Ok);
    if i > 0 {
        assert(blocks.subrange(0, i).last() == blocks[i - 1]);
    }
}

/// The check of a block looks at the chain and the unspent outputs only.
pub proof fn lemma_check_ignores_rest(a: BlockchainView, b: BlockchainView, candidate: BlockView)
    requires
        a.blocks == b.blocks,
        a.utxos == b.utxos,
    ensures
        block_check(a, candidate) == block_check(b, candidate),
{
}

/// An engine that has accepted nothing is in a sound state.
pub proof fn lemma_initial_state_sound()
    ensures
        state_sound(initial_state()),
{
}

/// Accepting a block that passes the check keeps the state sound.
pub proof fn lemma_accept_keeps_sound(state: BlockchainView, candidate: BlockView)
    requires
        state_sound(state),
        block_check(state, candidate) is Ok,
    ensures
        state_sound(accepted(state, candidate)),
{
    let after = accepted(state, candidate);
    let n = state.blocks.len() as int;
    lemma_accept_keeps_replay(state, candidate);
    assert forall|i: int| 0 <= i < after.blocks.len() implies block_check(
        BlockchainView {
            blocks: after.blocks.subrange(0, i),
            mempool: Seq::empty(),
            target: max_target(),
            utxos: replay(after.blocks.subrange(0, i)),
        },
        #[trigger] after.blocks[i],
    ) is Ok by {
        if i < n {
            assert(after.blocks.subrange(0, i) =~= state.blocks.subrange(0, i));
            assert(after.blocks[i] == state.blocks[i]);
        } else {
            assert(after.blocks.subrange(0, i) =~= state.blocks);
            lemma_check_ignores_rest(
                state,
                BlockchainView {
                    blocks: after.blocks.subrange(0, i),
                    mempool: Seq::empty(),
                    target: max_target(),
                    utxos: replay(after.blocks.subrange(0, i)),
                },
                candidate,
            );
        }
    }
    lemma_adjusted_target_bounded(after.blocks, state.target);
}

/// The target changes only where the chain's length is a positive multiple
/// of the retarget interval, and then by a factor of four at most; it stays
/// within the protocol's maximum.
pub proof fn lemma_adjusted_target_bounded(blocks: Seq<BlockView>, target: crate::uint256::U256)
    requires
        target@ <= max_target()@,
    ensures
        crate::chain::adjusted_target(blocks, target)@ <= max_target()@,
        target@ / 4 <= crate::chain::adjusted_target(blocks, target)@ <= target@ * 4,
        blocks.len() % (crate::constants::DIFFICULTY_UPDATE_INTERVAL as nat) != 0
            ==> crate::chain::adjusted_target(blocks, target) == target,
{
    let interval = crate::constants::DIFFICULTY_UPDATE_INTERVAL as int;
    if !(blocks.len() == 0 || blocks.len() % (interval as nat) != 0) {
        let start = blocks[blocks.len() - interval].header.timestamp;
        let end = blocks.last().header.timestamp;
        let next = retarget(target@, start.seconds_until(end));
        lemma_retarget_bounds(target@, start.seconds_until(end));
        crate::uint256::U256::lemma_from_nat_value(next);
    }
}


/// An output that a block's input refers to is gone once the block is
/// applied, unless that transaction or a later one of the block has put an
/// output under the same hash: what is spent cannot be spent again.
pub proof fn lemma_spent_outputs_gone(
    utxos: Map<crate::sha256::Hash, TxOutView>,
    transactions: Seq<TransactionView>,
    t: int,
    i: int,
)
    requires
        0 <= t < transactions.len(),
        0 <= i < transactions[t].inputs.len(),
    ensures
        apply_transactions(utxos, transactions).contains_key(
            transactions[t].inputs[i].prev_transaction_output_hash,
        ) ==> exists|later: int|
            t <= later < transactions.len() && #[trigger] crate::models::transaction_hash(
                transactions[later],
            ) == transactions[t].inputs[i].prev_transaction_output_hash
                && transactions[later].outputs.len() > 0,
    decreases transactions.len(),
{
    let h = transactions[t].inputs[i].prev_transaction_output_hash;
    let last = transactions.last();
    let before = apply_transactions(utxos, transactions.drop_last());
    if apply_transactions(utxos, transactions).contains_key(h) {
        if crate::models::transaction_hash(last) == h && last.outputs.len() > 0 {
            assert(crate::models::transaction_hash(transactions[transactions.len() - 1]) == h);
        } else if t == transactions.len() - 1 {
            assert(input_refs(last.inputs)[i] == h);
            assert(input_refs(last.inputs).to_set().contains(h));
        } else {
            lemma_spent_outputs_gone(utxos, transactions.drop_last(), t, i);
            let later = choose|later: int|
                t <= later < transactions.drop_last().len() && #[trigger] crate::models::transaction_hash(
                    transactions.drop_last()[later],
                ) == h && transactions.drop_last()[later].outputs.len() > 0;
            assert(crate::models::transaction_hash(transactions[later]) == h);
        }
    }
}

} // verus!
