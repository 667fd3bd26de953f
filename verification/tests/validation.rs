use btclib::crypto::{PrivateKey, PublicKey, Signature};
use btclib::error::BtcError;
use btclib::models::{Block, BlockHeader, Transaction, TxIn, TxOut};
use btclib::time::Timestamp;
use btclib::uint256::U256;
use btclib::util::MerkleRoot;
use btclib::utxo::UtxoSet;
use btclib::validation::contains_hash;

const COIN: u64 = 100_000_000;

fn output(amount: u64, id: u128, key: &PublicKey) -> TxOut {
    TxOut { amount, unique_id: id, pubkey: key.clone() }
}

fn key_of(n: u8) -> PrivateKey {
    PrivateKey(vec![n; 32])
}

fn named(n: u8) -> btclib::sha256::Hash {
    btclib::sha256::Hash(U256::from_u64(n as u64))
}

fn spend(reference: btclib::sha256::Hash, owner: &PrivateKey) -> TxIn {
    TxIn {
        prev_transaction_output_hash: reference,
        signature: Signature::sign(&reference, owner).unwrap(),
    }
}

fn block_of(transactions: Vec<Transaction>) -> Block {
    let header = BlockHeader::new(
        Timestamp::new(0, 0),
        0,
        btclib::sha256::Hash::zero(),
        MerkleRoot(btclib::sha256::Hash::zero()),
        U256::zero(),
    );
    Block::new(header, transactions)
}

/// Two unspent outputs: 30 coins under hash 1 for key 1, 20 coins under hash 2 for key 2.
fn two_unspent() -> UtxoSet {
    let mut utxos = UtxoSet::new();
    utxos.insert(named(1), output(30 * COIN, 1, &key_of(1).pubkey().unwrap()));
    utxos.insert(named(2), output(20 * COIN, 2, &key_of(2).pubkey().unwrap()));
    utxos
}

fn miner() -> PublicKey {
    key_of(9).pubkey().unwrap()
}

#[test]
fn utxo_set_holds_one_output_per_key() {
    let mut utxos = UtxoSet::new();
    assert_eq!(utxos.len(), 0);
    assert!(utxos.get(&named(1)).is_none());
    utxos.insert(named(1), output(5, 1, &miner()));
    utxos.insert(named(2), output(6, 2, &miner()));
    assert_eq!(utxos.len(), 2);
    assert!(utxos.contains_key(&named(1)));
    assert_eq!(utxos.get(&named(2)).unwrap().amount, 6);
    utxos.insert(named(1), output(7, 3, &miner()));
    assert_eq!(utxos.len(), 2);
    assert_eq!(utxos.get(&named(1)).unwrap().amount, 7);
    assert_eq!(utxos.get(&named(1)).unwrap().unique_id, 3);
    utxos.remove(&named(3));
    assert_eq!(utxos.len(), 2);
    utxos.remove(&named(1));
    assert_eq!(utxos.len(), 1);
    assert!(!utxos.contains_key(&named(1)));
    assert_eq!(utxos.get(&named(2)).unwrap().amount, 6);
    let entries = utxos.entries();
    assert_eq!(entries.len(), 1);
    assert_eq!(entries[0].0, named(2));
    assert_eq!(entries[0].1.amount, 6);
    utxos.clear();
    assert_eq!(utxos.len(), 0);
    assert!(utxos.get(&named(2)).is_none());
}

#[test]
fn contains_hash_finds_what_is_there() {
    let list = vec![named(1), named(2)];
    assert!(contains_hash(&list, &named(2)));
    assert!(!contains_hash(&list, &named(3)));
    assert!(!contains_hash(&vec![], &named(1)));
}

#[test]
fn empty_block_is_an_invalid_transaction() {
    let block = block_of(vec![]);
    assert_eq!(block.verify_txs(0, &UtxoSet::new()), Err(BtcError::InvalidTransaction));
    assert_eq!(block.compute_miner_fees(&UtxoSet::new()), Ok(0));
}

#[test]
fn lone_coinbase_must_pay_the_subsidy_exactly() {
    let utxos = UtxoSet::new();
    let exact = block_of(vec![Transaction::new(vec![], vec![output(50 * COIN, 1, &miner())])]);
    assert_eq!(exact.verify_coinbase_tx(0, &utxos), Ok(()));
    assert_eq!(exact.verify_txs(0, &utxos), Ok(()));
    assert_eq!(exact.verify_txs(209, &utxos), Ok(()));
    assert_eq!(exact.verify_txs(210, &utxos), Err(BtcError::InvalidTransaction));
    let over = block_of(vec![Transaction::new(vec![], vec![output(50 * COIN + 1, 1, &miner())])]);
    assert_eq!(over.verify_txs(0, &utxos), Err(BtcError::InvalidTransaction));
    let under = block_of(vec![Transaction::new(vec![], vec![output(50 * COIN - 1, 1, &miner())])]);
    assert_eq!(under.verify_coinbase_tx(0, &utxos), Err(BtcError::InvalidTransaction));
    let halved = block_of(vec![Transaction::new(vec![], vec![output(25 * COIN, 1, &miner())])]);
    assert_eq!(halved.verify_txs(210, &utxos), Ok(()));
    assert_eq!(halved.verify_txs(419, &utxos), Ok(()));
    assert_eq!(halved.verify_txs(420, &utxos), Err(BtcError::InvalidTransaction));
}

#[test]
fn coinbase_may_split_the_subsidy_over_outputs() {
    let utxos = UtxoSet::new();
    let split = block_of(vec![Transaction::new(
        vec![],
        vec![output(20 * COIN, 1, &miner()), output(30 * COIN, 2, &miner())],
    )]);
    assert_eq!(split.verify_txs(0, &utxos), Ok(()));
}

#[test]
fn coinbase_must_have_no_inputs_and_some_output() {
    let utxos = two_unspent();
    let with_input = block_of(vec![Transaction::new(
        vec![spend(named(1), &key_of(1))],
        vec![output(50 * COIN, 1, &miner())],
    )]);
    assert_eq!(with_input.verify_coinbase_tx(0, &utxos), Err(BtcError::InvalidTransaction));
    assert_eq!(with_input.verify_txs(0, &utxos), Err(BtcError::InvalidTransaction));
    let no_output = block_of(vec![Transaction::new(vec![], vec![])]);
    assert_eq!(no_output.verify_coinbase_tx(0, &utxos), Err(BtcError::InvalidTransaction));
    assert_eq!(no_output.verify_txs(210 * 64, &utxos), Err(BtcError::InvalidTransaction));
}

#[test]
fn fees_are_inputs_less_outputs() {
    let utxos = two_unspent();
    let a = Transaction::new(
        vec![spend(named(1), &key_of(1))],
        vec![output(25 * COIN, 10, &miner()), output(4 * COIN, 11, &miner())],
    );
    let b = Transaction::new(vec![spend(named(2), &key_of(2))], vec![output(20 * COIN, 12, &miner())]);
    let coinbase = Transaction::new(vec![], vec![output(51 * COIN, 1, &miner())]);
    let block = block_of(vec![coinbase, a, b]);
    assert_eq!(block.compute_miner_fees(&utxos), Ok(COIN));
    assert_eq!(block.verify_coinbase_tx(0, &utxos), Ok(()));
    assert_eq!(block.verify_txs(0, &utxos), Ok(()));
}

#[test]
fn coinbase_must_pay_subsidy_and_fees_exactly() {
    let utxos = two_unspent();
    let a = Transaction::new(vec![spend(named(1), &key_of(1))], vec![output(29 * COIN, 10, &miner())]);
    let short = block_of(vec![
        Transaction::new(vec![], vec![output(50 * COIN, 1, &miner())]),
        a.clone(),
    ]);
    assert_eq!(short.compute_miner_fees(&utxos), Ok(COIN));
    assert_eq!(short.verify_txs(0, &utxos), Err(BtcError::InvalidTransaction));
    let long = block_of(vec![
        Transaction::new(vec![], vec![output(51 * COIN + 1, 1, &miner())]),
        a.clone(),
    ]);
    assert_eq!(long.verify_txs(0, &utxos), Err(BtcError::InvalidTransaction));
    let exact = block_of(vec![Transaction::new(vec![], vec![output(51 * COIN, 1, &miner())]), a]);
    assert_eq!(exact.verify_txs(0, &utxos), Ok(()));
}

#[test]
fn fees_ignore_the_coinbase() {
    let utxos = two_unspent();
    let block = block_of(vec![Transaction::new(
        vec![spend(named(77), &key_of(1))],
        vec![output(1, 1, &miner())],
    )]);
    assert_eq!(block.compute_miner_fees(&utxos), Ok(0));
}

#[test]
fn input_that_refers_to_no_unspent_output_is_refused() {
    let utxos = two_unspent();
    let a = Transaction::new(vec![spend(named(3), &key_of(1))], vec![output(1, 10, &miner())]);
    let block = block_of(vec![Transaction::new(vec![], vec![output(50 * COIN, 1, &miner())]), a]);
    assert_eq!(block.compute_miner_fees(&utxos), Err(BtcError::InvalidTransaction));
    assert_eq!(block.verify_coinbase_tx(0, &utxos), Err(BtcError::InvalidTransaction));
    assert_eq!(block.verify_txs(0, &utxos), Err(BtcError::InvalidTransaction));
}

#[test]
fn second_reference_to_one_output_is_refused() {
    let utxos = two_unspent();
    let a = Transaction::new(vec![spend(named(1), &key_of(1))], vec![output(10 * COIN, 10, &miner())]);
    let b = Transaction::new(vec![spend(named(1), &key_of(1))], vec![output(10 * COIN, 11, &miner())]);
    let block = block_of(vec![
        Transaction::new(vec![], vec![output(90 * COIN, 1, &miner())]),
        a,
        b,
    ]);
    assert_eq!(block.compute_miner_fees(&utxos), Err(BtcError::InvalidTransaction));
    assert_eq!(block.verify_txs(0, &utxos), Err(BtcError::InvalidTransaction));
    let twice = Transaction::new(
        vec![spend(named(2), &key_of(2)), spend(named(2), &key_of(2))],
        vec![output(40 * COIN, 12, &miner())],
    );
    let block = block_of(vec![
        Transaction::new(vec![], vec![output(50 * COIN, 1, &miner())]),
        twice,
    ]);
    assert_eq!(block.verify_txs(0, &utxos), Err(BtcError::InvalidTransaction));
}

#[test]
fn double_spend_is_an_invalid_transaction_even_with_a_bad_signature_before_it() {
    let utxos = two_unspent();
    let forged = Transaction::new(vec![spend(named(2), &key_of(1))], vec![output(COIN, 10, &miner())]);
    let a = Transaction::new(vec![spend(named(1), &key_of(1))], vec![output(COIN, 11, &miner())]);
    let b = Transaction::new(vec![spend(named(1), &key_of(1))], vec![output(COIN, 12, &miner())]);
    let block = block_of(vec![
        Transaction::new(vec![], vec![output(50 * COIN, 1, &miner())]),
        forged,
        a,
        b,
    ]);
    assert_eq!(block.verify_txs(0, &utxos), Err(BtcError::InvalidTransaction));
}

#[test]
fn two_outputs_with_one_hash_are_refused() {
    let utxos = two_unspent();
    let same = output(10 * COIN, 10, &miner());
    let a = Transaction::new(vec![spend(named(1), &key_of(1))], vec![same.clone(), same.clone()]);
    let block = block_of(vec![
        Transaction::new(vec![], vec![output(60 * COIN, 1, &miner())]),
        a,
    ]);
    assert_eq!(block.compute_miner_fees(&utxos), Err(BtcError::InvalidTransaction));
    assert_eq!(block.verify_txs(0, &utxos), Err(BtcError::InvalidTransaction));
    let a = Transaction::new(vec![spend(named(1), &key_of(1))], vec![same.clone()]);
    let b = Transaction::new(vec![spend(named(2), &key_of(2))], vec![same]);
    let block = block_of(vec![
        Transaction::new(vec![], vec![output(80 * COIN, 1, &miner())]),
        a,
        b,
    ]);
    assert_eq!(block.verify_txs(0, &utxos), Err(BtcError::InvalidTransaction));
}

#[test]
fn signature_by_another_key_is_an_invalid_signature() {
    let utxos = two_unspent();
    let forged = Transaction::new(vec![spend(named(1), &key_of(2))], vec![output(30 * COIN, 10, &miner())]);
    let block = block_of(vec![
        Transaction::new(vec![], vec![output(50 * COIN, 1, &miner())]),
        forged,
    ]);
    assert_eq!(block.compute_miner_fees(&utxos), Ok(0));
    assert_eq!(block.verify_coinbase_tx(0, &utxos), Ok(()));
    assert_eq!(block.verify_txs(0, &utxos), Err(BtcError::InvalidSignature));
}

#[test]
fn signature_over_another_hash_is_an_invalid_signature() {
    let utxos = two_unspent();
    let input = TxIn {
        prev_transaction_output_hash: named(1),
        signature: Signature::sign(&named(2), &key_of(1)).unwrap(),
    };
    let block = block_of(vec![
        Transaction::new(vec![], vec![output(50 * COIN, 1, &miner())]),
        Transaction::new(vec![input], vec![output(30 * COIN, 10, &miner())]),
    ]);
    assert_eq!(block.verify_txs(0, &utxos), Err(BtcError::InvalidSignature));
}

#[test]
fn outputs_above_inputs_are_an_invalid_transaction() {
    let utxos = two_unspent();
    let greedy = Transaction::new(
        vec![spend(named(2), &key_of(2))],
        vec![output(20 * COIN + 1, 10, &miner())],
    );
    let block = block_of(vec![
        Transaction::new(vec![], vec![output(50 * COIN, 1, &miner())]),
        greedy.clone(),
    ]);
    assert_eq!(block.compute_miner_fees(&utxos), Err(BtcError::InvalidTransaction));
    assert_eq!(block.verify_txs(0, &utxos), Err(BtcError::InvalidTransaction));
    let generous = Transaction::new(vec![spend(named(1), &key_of(1))], vec![output(COIN, 11, &miner())]);
    let block = block_of(vec![
        Transaction::new(vec![], vec![output(79 * COIN - 1, 1, &miner())]),
        generous,
        greedy,
    ]);
    assert_eq!(block.compute_miner_fees(&utxos), Ok(29 * COIN - 1));
    assert_eq!(block.verify_coinbase_tx(0, &utxos), Ok(()));
    assert_eq!(block.verify_txs(0, &utxos), Err(BtcError::InvalidTransaction));
}

#[test]
fn bad_signature_comes_before_a_later_shortfall() {
    let utxos = two_unspent();
    let forged = Transaction::new(vec![spend(named(1), &key_of(2))], vec![output(COIN, 11, &miner())]);
    let greedy = Transaction::new(
        vec![spend(named(2), &key_of(2))],
        vec![output(20 * COIN + 1, 10, &miner())],
    );
    let block = block_of(vec![
        Transaction::new(vec![], vec![output(79 * COIN - 1, 1, &miner())]),
        forged.clone(),
        greedy.clone(),
    ]);
    assert_eq!(block.verify_txs(0, &utxos), Err(BtcError::InvalidSignature));
    let block = block_of(vec![
        Transaction::new(vec![], vec![output(79 * COIN - 1, 1, &miner())]),
        greedy,
        forged,
    ]);
    assert_eq!(block.verify_txs(0, &utxos), Err(BtcError::InvalidTransaction));
}

#[test]
fn transaction_without_inputs_or_outputs_is_lawful() {
    let utxos = two_unspent();
    let block = block_of(vec![
        Transaction::new(vec![], vec![output(50 * COIN, 1, &miner())]),
        Transaction::new(vec![], vec![]),
        Transaction::new(vec![], vec![]),
    ]);
    assert_eq!(block.verify_txs(0, &utxos), Ok(()));
}

#[test]
fn sums_beyond_sixty_four_bits_do_not_wrap() {
    let mut utxos = UtxoSet::new();
    utxos.insert(named(1), output(u64::MAX, 1, &key_of(1).pubkey().unwrap()));
    utxos.insert(named(2), output(u64::MAX, 2, &key_of(2).pubkey().unwrap()));
    let a = Transaction::new(
        vec![spend(named(1), &key_of(1)), spend(named(2), &key_of(2))],
        vec![output(u64::MAX, 10, &miner()), output(u64::MAX - 5, 11, &miner())],
    );
    let block = block_of(vec![
        Transaction::new(vec![], vec![output(50 * COIN + 5, 1, &miner())]),
        a,
    ]);
    assert_eq!(block.compute_miner_fees(&utxos), Ok(5));
    assert_eq!(block.verify_txs(0, &utxos), Ok(()));
    let burn = Transaction::new(
        vec![spend(named(1), &key_of(1)), spend(named(2), &key_of(2))],
        vec![],
    );
    let block = block_of(vec![
        Transaction::new(vec![], vec![output(50 * COIN, 1, &miner())]),
        burn,
    ]);
    assert_eq!(block.compute_miner_fees(&utxos), Err(BtcError::InvalidTransaction));
    assert_eq!(block.verify_txs(0, &utxos), Err(BtcError::InvalidTransaction));
}

#[test]
fn each_error_says_what_is_invalid() {
    assert_eq!(BtcError::InvalidTransaction.message(), "This transaction is invalid");
    assert_eq!(BtcError::InvalidBlock.message(), "This block is invalid");
    assert_eq!(BtcError::InvalidBlockHeader.message(), "This block header is invalid");
    assert_eq!(BtcError::InvalidTransactionInput.message(), "This transaction input is invalid");
    assert_eq!(BtcError::InvalidTransactionOutput.message(), "This transaction output is invalid");
    assert_eq!(BtcError::InvalidMerkleRoot.message(), "This merkle root is invalid");
    assert_eq!(BtcError::InvalidHash.message(), "This hash is invalid");
    assert_eq!(BtcError::InvalidSignature.message(), "This signature is invalid");
    assert_eq!(BtcError::InvalidPublicKey.message(), "This public key is invalid");
    assert_eq!(BtcError::InvalidPrivateKey.message(), "This private key is invalid");
}
