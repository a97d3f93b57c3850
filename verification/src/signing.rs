//! Signing an input: from the digest to the signature as it stands in a
//! script or a witness, which is the DER form followed by one byte for the
//! signature hash type.

use crate::decode::to_array32;
use crate::editable::{bytes_of_text, text_to_bytes, tx_of_editable, JsTxModel};
use crate::error::{Error, SigningParameter};
use crate::hexstr::hex_text;
use crate::names::{signing_type_of, SigningType};
use crate::primitives::{
    ecdsa_sign_der, ecdsa_signature_der, is_der_integer, is_der_signature, secret_key_accepted,
    secret_key_is_accepted,
};
use crate::sighash::{
    legacy_sighash, legacy_signature_hash, p2wpkh_sighash, p2wpkh_signature_hash, p2wsh_sighash,
    p2wsh_signature_hash, EcdsaSighashType,
};
use crate::tx::{Transaction, TxModel};
use vstd::prelude::*;
use vstd::slice::slice_to_vec;

verus! {

/// A secret key: 32 bytes that the curve library takes for one.
pub struct SecretKey {
    bytes: Vec<u8>,
}

impl View for SecretKey {
    type V = Seq<u8>;

    closed spec fn view(&self) -> Seq<u8> {
        self.bytes@
    }
}

impl SecretKey {
    #[verifier::type_invariant]
    spec fn is_accepted(self) -> bool {
        secret_key_accepted(self.bytes@)
    }

    /// Takes a byte string for a secret key, if it is one.
    pub fn from_slice(data: &[u8]) -> (r: Result<SecretKey, Error>)
        ensures
            match r {
                Ok(key) => secret_key_accepted(data@) && key@ == data@,
                Err(e) => !secret_key_accepted(data@) && e == Error::InvalidKey,
            },
    {
        if secret_key_is_accepted(data) {
            Ok(SecretKey { bytes: slice_to_vec(data) })
        } else {
            Err(Error::InvalidKey)
        }
    }

    /// The bytes of the key.
    pub fn secret_bytes(&self) -> (r: &[u8])
        ensures
            r@ == self@,
            secret_key_accepted(r@),
    {
        proof {
            use_type_invariant(self);
        }
        self.bytes.as_slice()
    }
}

/// Tells whether an integer of a DER signature stands at `at`.
fn has_der_integer(sig: &[u8], at: usize) -> (r: bool)
    requires
        at < sig@.len(),
    ensures
        r == is_der_integer(sig@, at as int),
{
    let len = sig[at] as usize;
    if len < 1 || len > 33 || sig.len() - at <= len {
        return false;
    }
    if sig[at + 1] >= 0x80 {
        return false;
    }
    !(len > 1 && sig[at + 1] == 0 && sig[at + 2] < 0x80)
}

/// Tells whether a byte string has the form of a DER signature.
pub fn has_der_form(sig: &[u8]) -> (r: bool)
    ensures
        r == is_der_signature(sig@),
{
    let n = sig.len();
    if n < 8 || n > 72 {
        return false;
    }
    if sig[0] != 0x30 || sig[1] as usize != n - 2 || sig[2] != 0x02 {
        return false;
    }
    if !has_der_integer(sig, 3) {
        return false;
    }
    let first = sig[3] as usize;
    if 5 + first >= n || sig[4 + first] != 0x02 {
        return false;
    }
    if !has_der_integer(sig, 5 + first) {
        return false;
    }
    6 + first + sig[5 + first] as usize == n
}

/// The byte that stands for a signature hash type behind a signature.
pub open spec fn flag_byte(flag: EcdsaSighashType) -> u8 {
    flag.number() as u8
}

/// The signature as it is written: the DER form and the flag byte.
pub open spec fn flagged_signature(der: Seq<u8>, flag: EcdsaSighashType) -> Seq<u8> {
    der.push(flag_byte(flag))
}

/// Puts the byte for the signature hash type behind a signature.
pub fn append_sighash_flag(signature: Vec<u8>, flag: EcdsaSighashType) -> (r: Vec<u8>)
    ensures
        r@ == flagged_signature(signature@, flag),
        r@.len() == signature@.len() + 1,
        r@.last() == flag_byte(flag),
        r@.drop_last() == signature@,
{
    let mut out = signature;
    let number = flag.to_u32();
    out.push(number as u8);
    assert(out@.drop_last() =~= signature@);
    out
}

/// Returns the bitcoin signature: `(<ecdsa-signature> <sighash-flag>)`
pub fn sign_sighash(sighash: &[u8], secret: &SecretKey, sighash_flag: EcdsaSighashType) -> (r: Vec<
    u8,
>)
    requires
        sighash@.len() == 32,
    ensures
        r@ == flagged_signature(ecdsa_signature_der(sighash@, secret@), sighash_flag),
        r@.last() == flag_byte(sighash_flag),
        is_der_signature(r@.drop_last()),
{
    let digest = to_array32(sighash);
    let signature = ecdsa_sign_der(&digest, secret.secret_bytes());
    append_sighash_flag(signature, sighash_flag)
}

/// What a text, or the failure to give one, stands for.
pub open spec fn text_result_view(r: Result<String, Error>) -> Result<Seq<char>, Error> {
    match r {
        Ok(s) => Ok(s@),
        Err(e) => Err(e),
    }
}

/// The text that an optional string holds.
pub open spec fn option_text_view(s: Option<String>) -> Option<Seq<char>> {
    match s {
        Some(s) => Some(s@),
        None => None,
    }
}

/// The digest to sign under a scheme.  The legacy scheme reads the script
/// being spent and nothing else; the witness key hash scheme needs the
/// amount; the witness script hash scheme needs the witness script, which is
/// read first, and the amount.
pub open spec fn digest_to_sign(
    scheme: SigningType,
    tx: TxModel,
    index: int,
    script_pubkey: Seq<u8>,
    t: EcdsaSighashType,
    witness_script: Option<Seq<char>>,
    amount: Option<u64>,
) -> Result<Seq<u8>, Error> {
    match scheme {
        SigningType::Legacy => legacy_sighash(tx, index, script_pubkey, t.number()),
        SigningType::P2wpkh => match amount {
            None => Err(Error::MissingSigningParameter(SigningParameter::Amount)),
            Some(amount) => p2wpkh_sighash(tx, index, script_pubkey, amount, t),
        },
        SigningType::P2wsh => match witness_script {
            None => Err(Error::MissingSigningParameter(SigningParameter::WitnessScript)),
            Some(text) => match bytes_of_text(text) {
                Err(e) => Err(e),
                Ok(script) => match amount {
                    None => Err(Error::MissingSigningParameter(SigningParameter::Amount)),
                    Some(amount) => p2wsh_sighash(tx, index, script, amount, t),
                },
            },
        },
    }
}

/// The signature of an input of an editable transaction, as hexadecimal
/// text.  What is given is read in this order, and the first that cannot be
/// read decides the failure: the transaction, the script being spent, the
/// secret key, the name of the scheme, and what the scheme needs.
pub open spec fn signed_input(
    tx: JsTxModel,
    index: u32,
    txo_script_pubkey: Seq<char>,
    sighash_type: u32,
    secret_key: Seq<char>,
    witness_script: Option<Seq<char>>,
    amount: Option<u64>,
    signing_type: Seq<char>,
) -> Result<Seq<char>, Error> {
    let t = EcdsaSighashType::of_consensus(sighash_type);
    match tx_of_editable(tx) {
        Err(e) => Err(e),
        Ok(tx) => match bytes_of_text(txo_script_pubkey) {
            Err(e) => Err(e),
            Ok(script_pubkey) => match bytes_of_text(secret_key) {
                Err(e) => Err(e),
                Ok(key) => if !secret_key_accepted(key) {
                    Err(Error::InvalidKey)
                } else {
                    match signing_type_of(signing_type) {
                        None => Err(Error::UnsupportedSigningScheme),
                        Some(scheme) => match digest_to_sign(
                            scheme,
                            tx,
                            index as int,
                            script_pubkey,
                            t,
                            witness_script,
                            amount,
                        ) {
                            Err(e) => Err(e),
                            Ok(digest) => Ok(
                                hex_text(flagged_signature(ecdsa_signature_der(digest, key), t)),
                            ),
                        },
                    }
                },
            },
        },
    }
}

/// Computes the digest to sign under a scheme.
pub fn signature_hash(
    scheme: SigningType,
    tx: &Transaction,
    index: usize,
    script_pubkey: &[u8],
    t: EcdsaSighashType,
    witness_script: &Option<String>,
    amount: Option<u64>,
) -> (r: Result<[u8; 32], Error>)
    ensures
        crate::sighash::digest_result_view(r) == digest_to_sign(
            scheme,
            tx@,
            index as int,
            script_pubkey@,
            t,
            option_text_view(*witness_script),
            amount,
        ),
{
    match scheme {
        SigningType::Legacy => legacy_signature_hash(tx, index, script_pubkey, t.to_u32()),
        SigningType::P2wpkh => match amount {
            None => Err(Error::MissingSigningParameter(SigningParameter::Amount)),
            Some(amount) => p2wpkh_signature_hash(tx, index, script_pubkey, amount, t),
        },
        SigningType::P2wsh => match witness_script {
            None => Err(Error::MissingSigningParameter(SigningParameter::WitnessScript)),
            Some(text) => match text_to_bytes(text.as_str()) {
                Err(e) => Err(e),
                Ok(script) => match amount {
                    None => Err(Error::MissingSigningParameter(SigningParameter::Amount)),
                    Some(amount) => p2wsh_signature_hash(tx, index, script.as_slice(), amount, t),
                },
            },
        },
    }
}

} // verus!
