//! The ways in which an operation of this library can fail.

use crate::hexstr::HexError;
use crate::wire::DecodeError;
use vstd::prelude::*;

verus! {

/// What a signing scheme needs beside the transaction.
#[derive(Debug, Clone, Copy, PartialEq, Eq)]
pub enum SigningParameter {
    /// The amount of the output being spent.
    Amount,
    /// The witness script that the output commits to.
    WitnessScript,
}

/// Why a text gives no script for a network.
#[derive(Debug, Clone, Copy, PartialEq, Eq)]
pub enum AddressError {
    /// The text is no address.
    InvalidAddress,
    /// The address belongs to another network.
    WrongNetwork,
}

/// Why an operation gave no result.  No operation gives part of a result.
#[derive(Debug, Clone, Copy, PartialEq, Eq)]
pub enum Error {
    /// A text is not hexadecimal: odd length, or a character that is no digit.
    MalformedHex(HexError),
    /// A transaction identifier does not have exactly 32 bytes.
    InvalidOutpointId,
    /// A secret key has the wrong length or is out of range.
    InvalidKey,
    /// The signing scheme needs a parameter that was not given.
    MissingSigningParameter(SigningParameter),
    /// The name of the signing scheme is none that is known.
    UnsupportedSigningScheme,
    /// The name of the digest is none that is known.
    UnsupportedDigest,
    /// The bytes do not encode a transaction.
    InvalidTransaction(DecodeError),
    /// The transaction has no input at the given position.
    InputIndexOutOfRange,
    /// The script being spent is not of the pay-to-witness-key-hash form.
    NotP2wpkhScript,
    /// A byte string is too long to be pushed by one instruction.
    PushTooLarge,
    /// The bytes are no public key.
    InvalidPublicKey,
    /// The text is no key in wallet import format.
    InvalidWif,
    /// The name of the network is none that is known.
    UnknownNetwork,
    /// The address cannot be used.
    InvalidAddress(AddressError),
}

impl Error {
    /// A description of the failure.
    pub fn message(&self) -> (r: &'static str)
        ensures
            r@ == error_message(*self),
    {
        match self {
            Error::MalformedHex(HexError::OddLength) => "odd number of hexadecimal digits",
            Error::MalformedHex(_) => "invalid hexadecimal digit",
            Error::InvalidOutpointId => "outpoint id is not 32 bytes long",
            Error::InvalidKey => "invalid secret key",
            Error::MissingSigningParameter(SigningParameter::Amount) => "missing commitment amount",
            Error::MissingSigningParameter(SigningParameter::WitnessScript) => {
                "missing witness script"
            },
            Error::UnsupportedSigningScheme => "unsupported signing scheme",
            Error::UnsupportedDigest => "unsupported digest",
            Error::InvalidTransaction(DecodeError::UnexpectedEnd) => "truncated transaction",
            Error::InvalidTransaction(DecodeError::UnsupportedSegwitFlag(_)) => {
                "unsupported segwit flag"
            },
            Error::InvalidTransaction(_) => "invalid transaction encoding",
            Error::InputIndexOutOfRange => "input index out of range",
            Error::NotP2wpkhScript => "script is not pay to witness key hash",
            Error::PushTooLarge => "data too large to push",
            Error::InvalidPublicKey => "invalid public key",
            Error::InvalidWif => "invalid wallet import format",
            Error::UnknownNetwork => "unknown network",
            Error::InvalidAddress(AddressError::InvalidAddress) => "invalid address",
            Error::InvalidAddress(AddressError::WrongNetwork) => "address is for another network",
        }
    }
}

/// The description of each failure.
pub open spec fn error_message(e: Error) -> Seq<char> {
    match e {
        Error::MalformedHex(HexError::OddLength) => "odd number of hexadecimal digits"@,
        Error::MalformedHex(_) => "invalid hexadecimal digit"@,
        Error::InvalidOutpointId => "outpoint id is not 32 bytes long"@,
        Error::InvalidKey => "invalid secret key"@,
        Error::MissingSigningParameter(SigningParameter::Amount) => "missing commitment amount"@,
        Error::MissingSigningParameter(SigningParameter::WitnessScript) => {
            "missing witness script"@
        },
        Error::UnsupportedSigningScheme => "unsupported signing scheme"@,
        Error::UnsupportedDigest => "unsupported digest"@,
        Error::InvalidTransaction(DecodeError::UnexpectedEnd) => "truncated transaction"@,
        Error::InvalidTransaction(DecodeError::UnsupportedSegwitFlag(_)) => {
            "unsupported segwit flag"@
        },
        Error::InvalidTransaction(_) => "invalid transaction encoding"@,
        Error::InputIndexOutOfRange => "input index out of range"@,
        Error::NotP2wpkhScript => "script is not pay to witness key hash"@,
        Error::PushTooLarge => "data too large to push"@,
        Error::InvalidPublicKey => "invalid public key"@,
        Error::InvalidWif => "invalid wallet import format"@,
        Error::UnknownNetwork => "unknown network"@,
        Error::InvalidAddress(AddressError::InvalidAddress) => "invalid address"@,
        Error::InvalidAddress(AddressError::WrongNetwork) => "address is for another network"@,
    }
}

} // verus!
