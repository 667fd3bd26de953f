//! 256-bit content hashes.

use crate::cbor::{encode, Encode};
use crate::uint256::{be_value, le_value, U256};
use vstd::prelude::*;

verus! {

/// `hex::FromHexError`, the reason why `hex::decode` refused a string. Opaque here.
#[verifier::external_type_specification]
#[verifier::external_body]
pub struct ExFromHexError(hex::FromHexError);

/// The SHA-256 digest of `data`, as the text that `sha256::digest` returns.
pub uninterp spec fn sha256_hex(data: Seq<u8>) -> Seq<char>;

/// The value of a hexadecimal digit, of either case.
pub open spec fn hex_digit_value(c: char) -> Option<nat> {
    let n = c as int;
    if 48 <= n <= 57 {
        Some((n - 48) as nat)
    } else if 97 <= n <= 102 {
        Some((n - 87) as nat)
    } else if 65 <= n <= 70 {
        Some((n - 55) as nat)
    } else {
        None
    }
}

/// Whether `c` is one of `0` to `9` or `a` to `f`.
pub open spec fn is_lower_hex_digit(c: char) -> bool {
    48 <= c as int <= 57 || 97 <= c as int <= 102
}

/// Whether `s` is an even number of hexadecimal digits.
pub open spec fn is_hex_string(s: Seq<char>) -> bool {
    &&& s.len() % 2 == 0
    &&& forall|i: int| 0 <= i < s.len() ==> (#[trigger] hex_digit_value(s[i])) is Some
}

/// The bytes that a string of hexadecimal digits spells, two digits a byte.
pub open spec fn hex_decoded(s: Seq<char>) -> Seq<u8> {
    Seq::new(
        s.len() / 2,
        |i: int| (16 * hex_digit_value(s[2 * i]).unwrap() + hex_digit_value(s[2 * i + 1]).unwrap()) as u8,
    )
}

/// The hash of a byte string: its SHA-256 digest read as a big-endian number.
pub open spec fn digest_of(data: Seq<u8>) -> Hash {
    Hash(U256::from_nat(be_value(hex_decoded(sha256_hex(data)))))
}

/// Calls `sha256::digest`, which hex-encodes the 32-byte SHA-256 digest of
/// its input in lower case: 64 digits for any input.
#[verifier::external_body]
fn sha256_digest(data: &[u8]) -> (hex: String)
    ensures
        hex@ == sha256_hex(data@),
        hex@.len() == 64,
        forall|i: int| 0 <= i < 64 ==> is_lower_hex_digit(#[trigger] hex@[i]),
{
    sha256::digest(data)
}

/// Calls `hex::decode`, which accepts exactly the strings made of an even
/// number of hexadecimal digits, upper or lower case, and turns each pair of
/// digits into one byte, the first digit being the high half.
#[verifier::external_body]
fn hex_decode(s: &str) -> (r: Result<Vec<u8>, hex::FromHexError>)
    ensures
        r is Ok <==> is_hex_string(s@),
        r matches Ok(bytes) ==> bytes@ == hex_decoded(s@),
{
    hex::decode(s)
}

/// A 256-bit content hash, ordered as an unsigned integer.
#[derive(Clone, Copy, Debug, PartialEq, Eq, Hash, Structural)]
pub struct Hash(pub U256);

impl Hash {
    /// The hash of a record: the digest of its canonical encoding.
    pub fn new<T: Encode>(data: &T) -> (h: Hash)
        ensures
            h == digest_of(data.encoding()),
    {
        let buffer = encode(data);
        Hash::of_bytes(buffer.as_slice())
    }

    /// The hash of a byte string.
    pub fn of_bytes(data: &[u8]) -> (h: Hash)
        ensures
            h == digest_of(data@),
    {
        let hex = sha256_digest(data);
        assert(is_hex_string(hex@)) by {
            assert forall|i: int| 0 <= i < hex@.len() implies (#[trigger] hex_digit_value(
                hex@[i],
            )) is Some by {
                assert(is_lower_hex_digit(hex@[i]));
            }
        }
        match hex_decode(hex.as_str()) {
            Ok(bytes) => {
                let value = U256::from_big_endian(bytes.as_slice());
                proof {
                    value.lemma_from_nat_view();
                }
                Hash(value)
            },
            // A digest is 64 hexadecimal digits, which always decode.
            Err(_) => Hash::zero(),
        }
    }

    /// The 32 bytes of the hash, least significant first.
    pub fn as_bytes(&self) -> (r: [u8; 32])
        ensures
            r@ == self.0.le_bytes(),
            le_value(r@) == self.0@,
    {
        self.0.to_little_endian()
    }

    /// The hash in hexadecimal, lower case, without leading zeros.
    pub fn to_hex(&self) -> (r: String)
        ensures
            r@ == self.0.lower_hex(),
    {
        self.0.to_hex()
    }

    /// Whether the hash, as a number, is at most `target`.
    pub fn matches_target(&self, target: U256) -> (r: bool)
        ensures
            r == (self.0@ <= target@),
    {
        self.0.le(&target)
    }

    /// The reserved hash that stands for "no predecessor".
    pub fn zero() -> (r: Hash)
        ensures
            r == Hash(U256 { w0: 0, w1: 0, w2: 0, w3: 0 }),
            r.0@ == 0,
    {
        Hash(U256::zero())
    }
}

impl Encode for Hash {
    open spec fn encoding(&self) -> Seq<u8> {
        self.0.encoding()
    }

    fn to_value(&self) -> (v: ciborium::Value) {
        self.0.to_value()
    }
}

} // verus!
