use btclib::cbor::encode;
use btclib::crypto::{PrivateKey, PublicKey, Signature};
use btclib::models::{Block, BlockHeader, Transaction, TxIn, TxOut};
use btclib::time::Timestamp;
use btclib::uint256::U256;
use btclib::util::{HashPair, MerkleRoot};

fn limbs(w0: u64, w1: u64, w2: u64, w3: u64) -> U256 {
    U256 { w0, w1, w2, w3 }
}

fn output(amount: u64, id: u128, key: &[u8]) -> TxOut {
    TxOut { amount, unique_id: id, pubkey: PublicKey(key.to_vec()) }
}

fn serialized(value: &ciborium::Value) -> Vec<u8> {
    let mut out = Vec::new();
    ciborium::into_writer(value, &mut out).unwrap();
    out
}

#[test]
fn number_encodes_as_four_integers_in_their_shortest_form() {
    let n = limbs(1, 24, 256, 0x1_0000_0000);
    assert_eq!(
        encode(&n),
        vec![0x84, 0x01, 0x18, 0x18, 0x19, 0x01, 0x00, 0x1b, 0, 0, 0, 1, 0, 0, 0, 0]
    );
    let n = limbs(23, 255, 65535, 0xffff_ffff);
    assert_eq!(
        encode(&n),
        vec![0x84, 0x17, 0x18, 0xff, 0x19, 0xff, 0xff, 0x1a, 0xff, 0xff, 0xff, 0xff]
    );
    let n = limbs(0, 65536, u64::MAX, 0);
    assert_eq!(
        encode(&n),
        vec![
            0x84, 0x00, 0x1a, 0x00, 0x01, 0x00, 0x00, 0x1b, 0xff, 0xff, 0xff, 0xff, 0xff, 0xff,
            0xff, 0xff, 0x00
        ]
    );
}

#[test]
fn hash_encodes_as_its_number() {
    let n = limbs(9, 8, 7, 6);
    assert_eq!(encode(&btclib::sha256::Hash(n)), encode(&n));
    assert_eq!(encode(&MerkleRoot(btclib::sha256::Hash(n))), encode(&n));
}

#[test]
fn output_encodes_as_amount_discriminator_and_key() {
    let o = output(500, (3u128 << 64) | 7, &[0xaa, 0xbb]);
    assert_eq!(encode(&o), vec![0x84, 0x19, 0x01, 0xf4, 0x03, 0x07, 0x42, 0xaa, 0xbb]);
}

#[test]
fn byte_string_head_carries_the_length() {
    let key: Vec<u8> = (0..33u8).collect();
    let o = output(0, 0, &key);
    let bytes = encode(&o);
    assert_eq!(&bytes[0..6], &[0x84, 0x00, 0x00, 0x00, 0x58, 33]);
    assert_eq!(&bytes[6..], &key[..]);
    let long = vec![5u8; 300];
    let bytes = encode(&output(0, 0, &long));
    assert_eq!(&bytes[0..7], &[0x84, 0x00, 0x00, 0x00, 0x59, 0x01, 0x2c]);
    assert_eq!(bytes.len(), 7 + 300);
}

#[test]
fn input_encodes_as_reference_and_signature() {
    let i = TxIn {
        prev_transaction_output_hash: btclib::sha256::Hash(limbs(1, 2, 3, 4)),
        signature: Signature(vec![9, 9, 9]),
    };
    assert_eq!(encode(&i), vec![0x82, 0x84, 1, 2, 3, 4, 0x43, 9, 9, 9]);
}

#[test]
fn transaction_encodes_as_inputs_then_outputs() {
    let empty = Transaction::new(vec![], vec![]);
    assert_eq!(encode(&empty), vec![0x82, 0x80, 0x80]);
    let t = Transaction::new(
        vec![TxIn {
            prev_transaction_output_hash: btclib::sha256::Hash(limbs(1, 2, 3, 4)),
            signature: Signature(vec![]),
        }],
        vec![output(1, 0, &[]), output(2, 1, &[7])],
    );
    assert_eq!(
        encode(&t),
        vec![
            0x82, 0x81, 0x82, 0x84, 1, 2, 3, 4, 0x40, 0x82, 0x84, 1, 0, 0, 0x40, 0x84, 2, 0, 1,
            0x41, 7
        ]
    );
}

#[test]
fn array_head_carries_the_number_of_items() {
    let outputs: Vec<TxOut> = (0..24).map(|_| output(0, 0, &[])).collect();
    let bytes = encode(&Transaction::new(vec![], outputs));
    assert_eq!(&bytes[0..4], &[0x82, 0x80, 0x98, 24]);
    assert_eq!(bytes.len(), 4 + 24 * 5);
}

#[test]
fn header_encodes_its_fields_in_order() {
    let h = BlockHeader::new(
        Timestamp::new(0, 5),
        6,
        btclib::sha256::Hash(limbs(1, 1, 1, 1)),
        MerkleRoot(btclib::sha256::Hash(limbs(2, 2, 2, 2))),
        limbs(3, 3, 3, 3),
    );
    assert_eq!(
        encode(&h),
        vec![
            0x85, 0x82, 0x1b, 0x80, 0, 0, 0, 0, 0, 0, 0, 0x05, 0x06, 0x84, 1, 1, 1, 1, 0x84, 2, 2,
            2, 2, 0x84, 3, 3, 3, 3
        ]
    );
    let early = BlockHeader::new(
        Timestamp::new(i64::MIN, 0),
        0,
        btclib::sha256::Hash::zero(),
        MerkleRoot(btclib::sha256::Hash::zero()),
        U256::zero(),
    );
    assert_eq!(&encode(&early)[0..4], &[0x85, 0x82, 0x00, 0x00]);
    let before_epoch = BlockHeader::new(
        Timestamp::new(-1, 0),
        0,
        btclib::sha256::Hash::zero(),
        MerkleRoot(btclib::sha256::Hash::zero()),
        U256::zero(),
    );
    assert_eq!(
        &encode(&before_epoch)[0..11],
        &[0x85, 0x82, 0x1b, 0x7f, 0xff, 0xff, 0xff, 0xff, 0xff, 0xff, 0xff]
    );
}

#[test]
fn block_encodes_as_header_and_transactions() {
    let h = BlockHeader::new(
        Timestamp::new(0, 0),
        0,
        btclib::sha256::Hash::zero(),
        MerkleRoot(btclib::sha256::Hash::zero()),
        U256::zero(),
    );
    let b = Block::new(h, vec![Transaction::new(vec![], vec![])]);
    let mut expected = vec![0x82];
    expected.extend(encode(&h));
    expected.extend(vec![0x81, 0x82, 0x80, 0x80]);
    assert_eq!(encode(&b), expected);
}

#[test]
fn encoding_is_what_the_serializer_writes_for_the_same_tree() {
    let o = output(70_000, u128::MAX, &[1, 2, 3, 4, 5]);
    let tree = ciborium::Value::Array(vec![
        ciborium::Value::Integer(70_000u64.into()),
        ciborium::Value::Integer(u64::MAX.into()),
        ciborium::Value::Integer(u64::MAX.into()),
        ciborium::Value::Bytes(vec![1, 2, 3, 4, 5]),
    ]);
    assert_eq!(encode(&o), serialized(&tree));
}

#[test]
fn hash_of_bytes_is_the_sha256_digest_as_a_big_endian_number() {
    let h = btclib::sha256::Hash::of_bytes(b"hello");
    let digest =
        hex::decode("2cf24dba5fb0a30e26e83b2ac5b9e29e1b161e5c1fa7425e73043362938b9824").unwrap();
    assert_eq!(h.0, U256::from_big_endian(&digest));
    assert_eq!(
        h.0,
        limbs(0x73043362938b9824, 0x1b161e5c1fa7425e, 0x26e83b2ac5b9e29e, 0x2cf24dba5fb0a30e)
    );
    let empty = btclib::sha256::Hash::of_bytes(&[]);
    assert_eq!(
        empty.0,
        limbs(0xa495991b7852b855, 0x27ae41e4649b934c, 0x9afbf4c8996fb924, 0xe3b0c44298fc1c14)
    );
}

#[test]
fn hash_of_a_record_is_the_hash_of_its_encoding() {
    let o = output(12, 34, &[5, 6]);
    assert_eq!(btclib::sha256::Hash::new(&o), btclib::sha256::Hash::of_bytes(&encode(&o)));
    assert_eq!(o.hash(), btclib::sha256::Hash::new(&o));
    let t = Transaction::new(vec![], vec![o.clone()]);
    assert_eq!(t.hash(), btclib::sha256::Hash::of_bytes(&encode(&t)));
    let h = BlockHeader::new(
        Timestamp::new(1, 2),
        3,
        btclib::sha256::Hash::zero(),
        MerkleRoot(t.hash()),
        U256::from_u64(9),
    );
    assert_eq!(h.hash(), btclib::sha256::Hash::of_bytes(&encode(&h)));
    let b = Block::new(h, vec![t]);
    assert_eq!(b.hash(), btclib::sha256::Hash::of_bytes(&encode(&b)));
    assert_ne!(b.hash(), h.hash());
}

#[test]
fn equal_outputs_with_other_discriminators_have_other_hashes() {
    let a = output(10, 1, &[1]);
    let b = output(10, 2, &[1]);
    assert_ne!(a.hash(), b.hash());
    assert_eq!(a.hash(), a.clone().hash());
}

#[test]
fn hash_bytes_are_little_endian() {
    let h = btclib::sha256::Hash(limbs(0x0102, 0, 0, 0xff00_0000_0000_0000));
    let bytes = h.as_bytes();
    assert_eq!(bytes[0], 0x02);
    assert_eq!(bytes[1], 0x01);
    assert_eq!(bytes[31], 0xff);
    assert_eq!(bytes.len(), 32);
}

#[test]
fn hash_matches_a_target_that_is_not_below_it() {
    let h = btclib::sha256::Hash(limbs(5, 0, 0, 1));
    assert!(h.matches_target(limbs(5, 0, 0, 1)));
    assert!(h.matches_target(limbs(6, 0, 0, 1)));
    assert!(h.matches_target(limbs(0, 0, 0, 2)));
    assert!(!h.matches_target(limbs(4, 0, 0, 1)));
    assert!(!h.matches_target(limbs(u64::MAX, u64::MAX, u64::MAX, 0)));
    assert!(btclib::sha256::Hash::zero().matches_target(U256::zero()));
}

#[test]
fn zero_hash_is_zero() {
    assert_eq!(btclib::sha256::Hash::zero().0, U256::zero());
    assert_eq!(btclib::sha256::Hash::zero().as_bytes(), [0u8; 32]);
}

#[test]
fn merkle_root_of_one_transaction_is_its_hash() {
    let t = Transaction::new(vec![], vec![output(1, 1, &[1])]);
    assert_eq!(MerkleRoot::new(&[t.clone()]), MerkleRoot(t.hash()));
}

#[test]
fn merkle_root_of_two_transactions_is_the_hash_of_the_pair() {
    let a = Transaction::new(vec![], vec![output(1, 1, &[1])]);
    let b = Transaction::new(vec![], vec![output(2, 2, &[2])]);
    let pair = HashPair { left: a.hash(), right: b.hash() };
    assert_eq!(
        MerkleRoot::new(&[a.clone(), b.clone()]),
        MerkleRoot(btclib::sha256::Hash::new(&pair))
    );
    let mut expected = vec![0x82];
    expected.extend(encode(&a.hash()));
    expected.extend(encode(&b.hash()));
    assert_eq!(encode(&pair), expected);
}

#[test]
fn merkle_root_pairs_an_odd_last_node_with_itself() {
    let a = Transaction::new(vec![], vec![output(1, 1, &[1])]);
    let b = Transaction::new(vec![], vec![output(2, 2, &[2])]);
    let c = Transaction::new(vec![], vec![output(3, 3, &[3])]);
    let ab = btclib::sha256::Hash::new(&HashPair { left: a.hash(), right: b.hash() });
    let cc = btclib::sha256::Hash::new(&HashPair { left: c.hash(), right: c.hash() });
    let root = btclib::sha256::Hash::new(&HashPair { left: ab, right: cc });
    assert_eq!(MerkleRoot::new(&[a.clone(), b.clone(), c.clone()]), MerkleRoot(root));
    let d = Transaction::new(vec![], vec![output(4, 4, &[4])]);
    let e = Transaction::new(vec![], vec![output(5, 5, &[5])]);
    let cd = btclib::sha256::Hash::new(&HashPair { left: c.hash(), right: d.hash() });
    let ee = btclib::sha256::Hash::new(&HashPair { left: e.hash(), right: e.hash() });
    let abcd = btclib::sha256::Hash::new(&HashPair { left: ab, right: cd });
    let eeee = btclib::sha256::Hash::new(&HashPair { left: ee, right: ee });
    let root5 = btclib::sha256::Hash::new(&HashPair { left: abcd, right: eeee });
    assert_eq!(MerkleRoot::new(&[a, b, c, d, e]), MerkleRoot(root5));
}

#[test]
fn merkle_root_depends_on_the_order() {
    let a = Transaction::new(vec![], vec![output(1, 1, &[1])]);
    let b = Transaction::new(vec![], vec![output(2, 2, &[2])]);
    assert_ne!(MerkleRoot::new(&[a.clone(), b.clone()]), MerkleRoot::new(&[b, a]));
}

#[test]
fn signature_verifies_under_the_signers_key_only() {
    let key = PrivateKey::new();
    let other = PrivateKey::new();
    let h = btclib::sha256::Hash::of_bytes(b"an output");
    let signature = Signature::sign(&h, &key).unwrap();
    assert!(signature.verify(&h, &key.pubkey().unwrap()));
    assert!(!signature.verify(&h, &other.pubkey().unwrap()));
    assert!(!signature.verify(&btclib::sha256::Hash::of_bytes(b"another"), &key.pubkey().unwrap()));
}

#[test]
fn signature_is_sixty_four_bytes_and_the_same_each_time() {
    let key = PrivateKey(vec![7u8; 32]);
    let h = btclib::sha256::Hash::of_bytes(b"message");
    let first = Signature::sign(&h, &key).unwrap();
    let second = Signature::sign(&h, &key).unwrap();
    assert_eq!(first.0.len(), 64);
    assert_eq!(first.0, second.0);
    assert_ne!(first.0, h.as_bytes().to_vec());
}

#[test]
fn tampered_signature_does_not_verify() {
    let key = PrivateKey::new();
    let h = btclib::sha256::Hash::of_bytes(b"an output");
    let mut signature = Signature::sign(&h, &key).unwrap();
    signature.0[10] ^= 0x01;
    assert!(!signature.verify(&h, &key.pubkey().unwrap()));
    assert!(!Signature(vec![]).verify(&h, &key.pubkey().unwrap()));
    assert!(!Signature(vec![0u8; 64]).verify(&h, &key.pubkey().unwrap()));
}

#[test]
fn malformed_keys_sign_and_verify_nothing() {
    let h = btclib::sha256::Hash::of_bytes(b"an output");
    assert!(Signature::sign(&h, &PrivateKey(vec![])).is_none());
    assert!(Signature::sign(&h, &PrivateKey(vec![0u8; 32])).is_none());
    assert!(Signature::sign(&h, &PrivateKey(vec![0xffu8; 32])).is_none());
    assert!(PrivateKey(vec![1, 2, 3]).pubkey().is_none());
    let key = PrivateKey::new();
    let signature = Signature::sign(&h, &key).unwrap();
    assert!(!signature.verify(&h, &PublicKey(vec![])));
    assert!(!signature.verify(&h, &PublicKey(vec![2u8; 33])));
}

#[test]
fn public_key_is_a_compressed_point_fixed_by_the_private_key() {
    let mut one = vec![0u8; 32];
    one[31] = 1;
    let key = PrivateKey(one);
    let public = key.pubkey().unwrap();
    let generator =
        hex::decode("0279be667ef9dcbbac55a06295ce870b07029bfcdb2dce28d959f2815b16f81798").unwrap();
    assert_eq!(public.0, generator);
    assert_eq!(key.pubkey().unwrap().0, public.0);
}

#[test]
fn fresh_private_keys_are_thirty_two_bytes_and_differ() {
    let a = PrivateKey::new();
    let b = PrivateKey::default();
    assert_eq!(a.0.len(), 32);
    assert_eq!(b.0.len(), 32);
    assert_ne!(a.0, b.0);
    assert!(a.pubkey().is_some());
    assert_eq!(a.clone().0, a.0);
}

#[test]
fn hash_prints_as_the_digest_without_leading_zeros() {
    let h = btclib::sha256::Hash::of_bytes(b"hello");
    assert_eq!(h.to_hex(), "2cf24dba5fb0a30e26e83b2ac5b9e29e1b161e5c1fa7425e73043362938b9824");
    assert_eq!(btclib::sha256::Hash::zero().to_hex(), "0");
    assert_eq!(btclib::sha256::Hash(limbs(0x1f, 0, 0, 0)).to_hex(), "1f");
}
