//! The ways in which a block or a transaction can be refused.

use vstd::prelude::*;
use vstd::string::StringExecFns;

verus! {

#[derive(Clone, Copy, Debug, PartialEq, Eq, Structural)]
pub enum BtcError {
    InvalidTransaction,
    InvalidBlock,
    InvalidBlockHeader,
    InvalidTransactionInput,
    InvalidTransactionOutput,
    InvalidMerkleRoot,
    InvalidHash,
    InvalidSignature,
    InvalidPublicKey,
    InvalidPrivateKey,
}

impl BtcError {
    /// What the error says, in words.
    pub open spec fn text(&self) -> Seq<char> {
        match self {
            BtcError::InvalidTransaction => "This transaction is invalid"@,
            BtcError::InvalidBlock => "This block is invalid"@,
            BtcError::InvalidBlockHeader => "This block header is invalid"@,
            BtcError::InvalidTransactionInput => "This transaction input is invalid"@,
            BtcError::InvalidTransactionOutput => "This transaction output is invalid"@,
            BtcError::InvalidMerkleRoot => "This merkle root is invalid"@,
            BtcError::InvalidHash => "This hash is invalid"@,
            BtcError::InvalidSignature => "This signature is invalid"@,
            BtcError::InvalidPublicKey => "This public key is invalid"@,
            BtcError::InvalidPrivateKey => "This private key is invalid"@,
        }
    }

    /// What the error says, in words.
    pub fn message(&self) -> (r: String)
        ensures
            r@ == self.text(),
    {
        match self {
            BtcError::InvalidTransaction => String::from_str("This transaction is invalid"),
            BtcError::InvalidBlock => String::from_str("This block is invalid"),
            BtcError::InvalidBlockHeader => String::from_str("This block header is invalid"),
            BtcError::InvalidTransactionInput => String::from_str("This transaction input is invalid"),
            BtcError::InvalidTransactionOutput => String::from_str(
                "This transaction output is invalid",
            ),
            BtcError::InvalidMerkleRoot => String::from_str("This merkle root is invalid"),
            BtcError::InvalidHash => String::from_str("This hash is invalid"),
            BtcError::InvalidSignature => String::from_str("This signature is invalid"),
            BtcError::InvalidPublicKey => String::from_str("This public key is invalid"),
            BtcError::InvalidPrivateKey => String::from_str("This private key is invalid"),
        }
    }
}

} // verus!
