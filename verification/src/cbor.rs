//! The canonical byte encoding of ledger records.
//!
//! Records are laid out as CBOR data items: unsigned integers, byte strings
//! and arrays of definite length. The layout of each record is fixed by the
//! verified code of this crate; the bytes come from the `ciborium` serializer.

use crate::uint256::{pow256, U256};
use vstd::prelude::*;

verus! {

/// `ciborium::Value`, a CBOR data item as a tree. Opaque here: what is known
/// of a value is what the serializer writes for it.
#[verifier::external_type_specification]
#[verifier::external_body]
pub struct ExValue(ciborium::Value);

/// The bytes that `ciborium` writes for a value.
pub uninterp spec fn cbor_encoding(v: ciborium::Value) -> Seq<u8>;

/// The `k` low bytes of `n`, most significant first.
pub open spec fn be_bytes(n: nat, k: nat) -> Seq<u8> {
    Seq::new(k, |i: int| ((n / pow256((k - 1 - i) as nat)) % 256) as u8)
}

/// The head of a data item: its major type and its argument, the argument in
/// the shortest of the five forms that holds it.
pub open spec fn cbor_head(major: nat, n: nat) -> Seq<u8> {
    if n <= 23 {
        seq![(major * 32 + n) as u8]
    } else if n <= 0xff {
        seq![(major * 32 + 24) as u8] + be_bytes(n, 1)
    } else if n <= 0xffff {
        seq![(major * 32 + 25) as u8] + be_bytes(n, 2)
    } else if n <= 0xffff_ffff {
        seq![(major * 32 + 26) as u8] + be_bytes(n, 4)
    } else {
        seq![(major * 32 + 27) as u8] + be_bytes(n, 8)
    }
}

/// An unsigned integer (major type 0).
pub open spec fn cbor_uint(n: u64) -> Seq<u8> {
    cbor_head(0, n as nat)
}

/// A byte string (major type 2): its length, then the bytes.
pub open spec fn cbor_bytes(b: Seq<u8>) -> Seq<u8> {
    cbor_head(2, b.len()) + b
}

/// An array (major type 4): the number of items, then each item in turn.
pub open spec fn cbor_array(items: Seq<Seq<u8>>) -> Seq<u8> {
    cbor_head(4, items.len()) + items.flatten()
}

/// The encodings of a sequence of values, item by item.
pub open spec fn cbor_encodings(items: Seq<ciborium::Value>) -> Seq<Seq<u8>> {
    items.map_values(|v: ciborium::Value| cbor_encoding(v))
}

/// A record that has a canonical encoding.
pub trait Encode {
    /// The canonical bytes of the record.
    spec fn encoding(&self) -> Seq<u8>;

    /// The record as a CBOR value whose serialization is `encoding()`.
    fn to_value(&self) -> (v: ciborium::Value)
        ensures
            cbor_encoding(v) == self.encoding(),
    ;
}

/// Makes `ciborium::Value::Integer` of an unsigned 64-bit number. The
/// serializer writes such a value as a head of major type 0 whose argument
/// is the number.
#[verifier::external_body]
pub(crate) fn value_uint(n: u64) -> (v: ciborium::Value)
    ensures
        cbor_encoding(v) == cbor_uint(n),
{
    ciborium::Value::Integer(n.into())
}

/// Makes `ciborium::Value::Bytes`. The serializer writes it as a head of
/// major type 2 with the length, followed by the bytes themselves.
#[verifier::external_body]
pub(crate) fn value_bytes(b: Vec<u8>) -> (v: ciborium::Value)
    ensures
        cbor_encoding(v) == cbor_bytes(b@),
{
    ciborium::Value::Bytes(b)
}

/// Makes `ciborium::Value::Array`. The serializer writes it as a head of
/// major type 4 with the number of items, followed by each item's own
/// serialization in order.
#[verifier::external_body]
pub(crate) fn value_array(items: Vec<ciborium::Value>) -> (v: ciborium::Value)
    ensures
        cbor_encoding(v) == cbor_array(cbor_encodings(items@)),
{
    ciborium::Value::Array(items)
}

/// Calls `ciborium::into_writer` on a fresh buffer and hands the buffer back.
/// Writing into a `Vec` cannot fail, and values made of integers, byte
/// strings and arrays always serialize.
#[verifier::external_body]
pub(crate) fn serialize(v: &ciborium::Value) -> (out: Vec<u8>)
    ensures
        out@ == cbor_encoding(*v),
{
    let mut out: Vec<u8> = Vec::new();
    ciborium::into_writer(v, &mut out).expect("a CBOR value always serializes into a Vec");
    out
}

/// The canonical bytes of a record.
pub fn encode<T: Encode>(record: &T) -> (out: Vec<u8>)
    ensures
        out@ == record.encoding(),
{
    let value = record.to_value();
    serialize(&value)
}

impl Encode for U256 {
    open spec fn encoding(&self) -> Seq<u8> {
        cbor_array(seq![cbor_uint(self.w0), cbor_uint(self.w1), cbor_uint(self.w2), cbor_uint(self.w3)])
    }

    fn to_value(&self) -> (v: ciborium::Value) {
        let mut items: Vec<ciborium::Value> = Vec::new();
        items.push(value_uint(self.w0));
        items.push(value_uint(self.w1));
        items.push(value_uint(self.w2));
        items.push(value_uint(self.w3));
        assert(cbor_encodings(items@) =~= seq![
            cbor_uint(self.w0),
            cbor_uint(self.w1),
            cbor_uint(self.w2),
            cbor_uint(self.w3),
        ]);
        value_array(items)
    }
}

} // verus!
