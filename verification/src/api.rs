//! The operations that the library offers, each from texts to text.
//!
//! Byte strings are given and returned as hexadecimal text; white space in
//! what is given is ignored.  Every operation either gives its whole result
//! or fails.

use crate::decode::{decode, decoding};
use crate::editable::{
    bytes_of_text, bytes_result_view, editable_stack, editable_tx, from_editable,
    stack_from_editable, stack_of_texts, stack_to_editable, text_to_bytes, texts_view,
    to_editable, tx_of_editable, JsTx, JsTxModel,
};
use crate::encode::{encode, tx_bytes};
use crate::error::Error;
use crate::hexstr::{hex_encode, hex_text, string_push};
use crate::names::{digest_type_of, network_of, DigestType, SigningType};
use crate::primitives::{
    address_script, base58_encode_check, base58check_text, decode_wif, derive_public_key,
    derive_public_key_uncompressed, hash160, hash160_digest, p2wsh_address, p2wsh_address_text,
    parse_public_key, public_key_compressed, public_key_parsed, public_key_uncompressed,
    ripemd160, ripemd160_digest, script_asm, script_asm_text, script_of_address,
    secret_key_accepted, sha1, sha1_digest, sha256, sha256_digest, sha256d, sha256d_digest,
    utf8_lossy, utf8_lossy_text, wif_decoded, Network,
};
use crate::script::{
    classify, extract_op_return, new_op_return, new_p2sh, new_p2wsh, op_return_payload,
    op_return_script, p2sh_script, push_data, push_limit, script_type, script_type_name,
    witness_v0_script, Builder, ScriptsBuilderExt,
};
use crate::sighash::EcdsaSighashType;
use crate::signing::{
    option_text_view, sign_sighash, signature_hash, signed_input, text_result_view, SecretKey,
};
use vstd::prelude::*;
use vstd::std_specs::iter::IteratorSpec;
use vstd::string::*;
use vstd::utf8::encode_utf8;

verus! {

/// Operations on byte strings.
pub struct Bitcoin;

/// Operations on transactions, scripts, keys and addresses.
pub struct TxBuilder;

/// What is reported of a script.
#[derive(Debug, Clone, PartialEq, Eq)]
pub struct ScriptInfo {
    /// The name of the form of the script, if it has one of the known forms.
    pub script_type: Option<String>,
    /// The disassembly of the script.
    pub disassembly: String,
    /// The payload of a data-carrier script, read as text.
    pub op_return_data: Option<String>,
}

/// What a [`ScriptInfo`] stands for.
pub struct ScriptInfoModel {
    pub script_type: Option<Seq<char>>,
    pub disassembly: Seq<char>,
    pub op_return_data: Option<Seq<char>>,
}

impl View for ScriptInfo {
    type V = ScriptInfoModel;

    open spec fn view(&self) -> ScriptInfoModel {
        ScriptInfoModel {
            script_type: option_text_view(self.script_type),
            disassembly: self.disassembly@,
            op_return_data: option_text_view(self.op_return_data),
        }
    }
}

/// The disassembly of the script that a text stands for.
pub open spec fn asm_of_text(text: Seq<char>) -> Result<Seq<char>, Error> {
    match bytes_of_text(text) {
        Err(e) => Err(e),
        Ok(script) => Ok(script_asm_text(script)),
    }
}

/// The base58 text, with checksum, of the bytes that a text stands for.
pub open spec fn base58check_of_text(text: Seq<char>) -> Result<Seq<char>, Error> {
    match bytes_of_text(text) {
        Err(e) => Err(e),
        Ok(data) => Ok(base58check_text(data)),
    }
}

/// The digest of a kind of a byte string.
pub open spec fn digest_of(kind: DigestType, data: Seq<u8>) -> Seq<u8> {
    match kind {
        DigestType::Ripemd160 => ripemd160(data),
        DigestType::Sha256 => sha256(data),
        DigestType::Sha256d => sha256d(data),
        DigestType::Hash160 => hash160(data),
        DigestType::Sha1 => sha1(data),
    }
}

/// The digest, as text, of a byte string under the digest of a name.
pub open spec fn named_digest(data: Seq<u8>, name: Seq<char>) -> Result<Seq<char>, Error> {
    match digest_type_of(name) {
        None => Err(Error::UnsupportedDigest),
        Some(kind) => Ok(hex_text(digest_of(kind, data))),
    }
}

impl Bitcoin {
    /// Disassembles the script that a hexadecimal text stands for.
    pub fn parse_script_hex(hex_string: &str) -> (r: Result<String, Error>)
        ensures
            text_result_view(r) == asm_of_text(hex_string@),
    {
        match text_to_bytes(hex_string) {
            Err(e) => Err(e),
            Ok(script) => Ok(script_asm(script.as_slice())),
        }
    }

    /// Writes the bytes that a hexadecimal text stands for in base58 with a
    /// checksum.
    pub fn base58_check(hex: &str) -> (r: Result<String, Error>)
        ensures
            text_result_view(r) == base58check_of_text(hex@),
    {
        match text_to_bytes(hex) {
            Err(e) => Err(e),
            Ok(data) => Ok(base58_encode_check(data.as_slice())),
        }
    }

    /// Reads a hexadecimal text.
    pub fn parse_hex_str(hex: &str) -> (r: Result<Vec<u8>, Error>)
        ensures
            bytes_result_view(r) == bytes_of_text(hex@),
    {
        text_to_bytes(hex)
    }

    /// Computes the digest of a name and writes it as hexadecimal text.
    pub fn digest(data: &[u8], name: &str) -> (r: Result<String, Error>)
        ensures
            text_result_view(r) == named_digest(data@, name@),
    {
        let kind = match DigestType::from_name(name) {
            Some(found) => found,
            None => { return Err(Error::UnsupportedDigest); },
        };
        let text = match kind {
            DigestType::Ripemd160 => hex_encode(ripemd160_digest(data).as_slice()),
            DigestType::Sha256 => hex_encode(sha256_digest(data).as_slice()),
            DigestType::Sha256d => hex_encode(sha256d_digest(data).as_slice()),
            DigestType::Hash160 => hex_encode(hash160_digest(data).as_slice()),
            DigestType::Sha1 => hex_encode(sha1_digest(data).as_slice()),
        };
        Ok(text)
    }
}


/// The encoding, as text, of the transaction that an editable transaction
/// stands for.
pub open spec fn encoded_editable(tx: JsTxModel) -> Result<Seq<char>, Error> {
    match tx_of_editable(tx) {
        Err(e) => Err(e),
        Ok(tx) => Ok(hex_text(tx_bytes(tx))),
    }
}

/// The editable form of the transaction that a text encodes.
pub open spec fn editable_of_text(text: Seq<char>) -> Result<JsTxModel, Error> {
    match bytes_of_text(text) {
        Err(e) => Err(e),
        Ok(bytes) => match decoding(bytes) {
            Err(e) => Err(Error::InvalidTransaction(e)),
            Ok(tx) => Ok(editable_tx(tx)),
        },
    }
}

/// The output script, as text, of an address on the network of a name.
pub open spec fn script_of_address_text(address: Seq<char>, network: Seq<char>) -> Result<
    Seq<char>,
    Error,
> {
    match network_of(network) {
        None => Err(Error::UnknownNetwork),
        Some(network) => match address_script(address, network) {
            Err(e) => Err(Error::InvalidAddress(e)),
            Ok(script) => Ok(hex_text(script)),
        },
    }
}

/// The secret key that a text stands for.
pub open spec fn secret_key_of_text(text: Seq<char>) -> Result<Seq<u8>, Error> {
    match bytes_of_text(text) {
        Err(e) => Err(e),
        Ok(key) => if secret_key_accepted(key) {
            Ok(key)
        } else {
            Err(Error::InvalidKey)
        },
    }
}

/// The compressed public key, as text, of the secret key that a text stands
/// for.
pub open spec fn public_key_of_secret_text(text: Seq<char>) -> Result<Seq<char>, Error> {
    match secret_key_of_text(text) {
        Err(e) => Err(e),
        Ok(key) => Ok(hex_text(public_key_compressed(key))),
    }
}

/// The secret key, as text, that a text in wallet import format holds.
pub open spec fn secret_of_wif(wif: Seq<char>) -> Result<Seq<char>, Error> {
    match wif_decoded(wif) {
        None => Err(Error::InvalidWif),
        Some((key, compressed)) => Ok(hex_text(key)),
    }
}

/// The public key, as text, of the secret key that a text in wallet import
/// format holds, in the form that the text asks for.
pub open spec fn public_key_of_wif(wif: Seq<char>) -> Result<Seq<char>, Error> {
    match wif_decoded(wif) {
        None => Err(Error::InvalidWif),
        Some((key, compressed)) => if compressed {
            Ok(hex_text(public_key_compressed(key)))
        } else {
            Ok(hex_text(public_key_uncompressed(key)))
        },
    }
}

/// The script, as text, that pays to the hash of the redeem script that a
/// text stands for.
pub open spec fn p2sh_of_text(redeem: Seq<char>) -> Result<Seq<char>, Error> {
    match bytes_of_text(redeem) {
        Err(e) => Err(e),
        Ok(script) => Ok(hex_text(p2sh_script(hash160(script)))),
    }
}

/// A signature script followed by the push of a redeem script, as text.
pub open spec fn script_sig_with_redeem(script_sig: Seq<char>, redeem: Seq<char>) -> Result<
    Seq<char>,
    Error,
> {
    match bytes_of_text(script_sig) {
        Err(e) => Err(e),
        Ok(script) => match bytes_of_text(redeem) {
            Err(e) => Err(e),
            Ok(pushed) => if pushed.len() < push_limit() {
                Ok(hex_text(script + push_data(pushed)))
            } else {
                Err(Error::PushTooLarge)
            },
        },
    }
}

/// The address that pays to the witness script that a text stands for, on
/// the network of a name.  The name is read first.
pub open spec fn p2wsh_address_of_text(witness_script: Seq<char>, network: Seq<char>) -> Result<
    Seq<char>,
    Error,
> {
    match network_of(network) {
        None => Err(Error::UnknownNetwork),
        Some(network) => match bytes_of_text(witness_script) {
            Err(e) => Err(e),
            Ok(script) => Ok(p2wsh_address_text(script, network)),
        },
    }
}

/// The script, as text, that pays to the witness script that a text stands
/// for.
pub open spec fn p2wsh_script_of_text(witness_script: Seq<char>) -> Result<Seq<char>, Error> {
    match bytes_of_text(witness_script) {
        Err(e) => Err(e),
        Ok(script) => Ok(hex_text(witness_v0_script(sha256(script)))),
    }
}

/// The push of a signature followed by the push of a public key, as text.
/// The signature is read and pushed before the key is read.
pub open spec fn p2wpkh_script_sig_of_texts(signature: Seq<char>, pubkey: Seq<char>) -> Result<
    Seq<char>,
    Error,
> {
    match bytes_of_text(signature) {
        Err(e) => Err(e),
        Ok(sig) => if sig.len() >= push_limit() {
            Err(Error::PushTooLarge)
        } else {
            match bytes_of_text(pubkey) {
                Err(e) => Err(e),
                Ok(bytes) => match public_key_parsed(bytes) {
                    None => Err(Error::InvalidPublicKey),
                    Some(key) => Ok(hex_text(push_data(sig) + push_data(key))),
                },
            }
        },
    }
}

/// What is reported of the script that a text stands for.
pub open spec fn info_of_text(text: Seq<char>) -> Result<ScriptInfoModel, Error> {
    match bytes_of_text(text) {
        Err(e) => Err(e),
        Ok(script) => Ok(
            ScriptInfoModel {
                script_type: match script_type(script) {
                    Some(t) => Some(script_type_name(t)),
                    None => None,
                },
                disassembly: script_asm_text(script),
                op_return_data: match op_return_payload(script) {
                    Some(data) => Some(utf8_lossy_text(data)),
                    None => None,
                },
            },
        ),
    }
}

/// The data-carrier script, as text, for the bytes of a text.
pub open spec fn op_return_of_text(text: Seq<char>) -> Result<Seq<char>, Error> {
    let data = encode_utf8(text);
    if data.len() < push_limit() {
        Ok(hex_text(op_return_script(data)))
    } else {
        Err(Error::PushTooLarge)
    }
}

/// The pieces of a text between its commas, as they stand after the last
/// character: the pieces that are complete, and the piece that is not.
pub open spec fn split_state(text: Seq<char>) -> (Seq<Seq<char>>, Seq<char>)
    decreases text.len(),
{
    if text.len() == 0 {
        (Seq::empty(), Seq::empty())
    } else {
        let (done, current) = split_state(text.drop_last());
        if text.last() == ',' {
            (done.push(current), Seq::empty())
        } else {
            (done, current.push(text.last()))
        }
    }
}

/// The pieces of a text between its commas.  A text without a comma is one
/// piece, and so is the empty text.
pub open spec fn split_commas(text: Seq<char>) -> Seq<Seq<char>> {
    split_state(text).0.push(split_state(text).1)
}

/// Each piece of a text between its commas, read as hexadecimal and written
/// again.  The first piece that is not hexadecimal decides the failure.
pub open spec fn rewritten_pieces(text: Seq<char>) -> Result<Seq<Seq<char>>, Error> {
    match stack_of_texts(split_commas(text)) {
        Err(e) => Err(e),
        Ok(stack) => Ok(editable_stack(stack)),
    }
}

/// What a list of texts, or the failure to give one, stands for.
pub open spec fn texts_result_view(r: Result<Vec<String>, Error>) -> Result<
    Seq<Seq<char>>,
    Error,
> {
    match r {
        Ok(v) => Ok(texts_view(v@)),
        Err(e) => Err(e),
    }
}

/// Cuts a text at its commas.
pub fn split_at_commas(text: &str) -> (r: Vec<String>)
    ensures
        texts_view(r@) == split_commas(text@),
{
    let mut done: Vec<String> = Vec::new();
    let mut current = String::new();
    let mut chars = text.chars();
    let ghost mut seen: Seq<char> = Seq::empty();
    assert(texts_view(done@) =~= Seq::<Seq<char>>::empty());
    loop
        invariant
            seen + chars.remaining() == text@,
            (texts_view(done@), current@) == split_state(seen),
            chars.obeys_prophetic_iter_laws(),
            chars.decrease() is Some,
        decreases chars.decrease()->0,
    {
        match chars.next() {
            Some(c) => {
                let ghost before = texts_view(done@);
                let ghost piece = current@;
                proof {
                    let grown = seen.push(c);
                    assert(grown.drop_last() =~= seen);
                    assert(grown + chars.remaining() =~= text@);
                    seen = grown;
                }
                if c == ',' {
                    done.push(current);
                    current = String::new();
                    assert(texts_view(done@) =~= before.push(piece));
                } else {
                    string_push(&mut current, c);
                }
            },
            None => {
                let ghost before = texts_view(done@);
                proof {
                    assert(seen =~= text@);
                }
                done.push(current);
                assert(texts_view(done@) =~= before.push(split_state(text@).1));
                return done;
            },
        }
    }
}


/// What an editable transaction, or the failure to give one, stands for.
pub open spec fn editable_result_view(r: Result<JsTx, Error>) -> Result<JsTxModel, Error> {
    match r {
        Ok(tx) => Ok(tx@),
        Err(e) => Err(e),
    }
}

/// What a report on a script, or the failure to give one, stands for.
pub open spec fn info_result_view(r: Result<ScriptInfo, Error>) -> Result<ScriptInfoModel, Error> {
    match r {
        Ok(info) => Ok(info@),
        Err(e) => Err(e),
    }
}

fn secret_key_from_text(text: &str) -> (r: Result<SecretKey, Error>)
    ensures
        match r {
            Ok(key) => secret_key_of_text(text@) == Ok::<Seq<u8>, Error>(key@),
            Err(e) => secret_key_of_text(text@) == Err::<Seq<u8>, Error>(e),
        },
{
    match text_to_bytes(text) {
        Err(e) => Err(e),
        Ok(bytes) => SecretKey::from_slice(bytes.as_slice()),
    }
}

impl TxBuilder {
    /// Encodes an editable transaction and writes the encoding as
    /// hexadecimal text.
    pub fn json_to_tx_hex(tx: &JsTx) -> (r: Result<String, Error>)
        ensures
            text_result_view(r) == encoded_editable(tx@),
    {
        match from_editable(tx) {
            Err(e) => Err(e),
            Ok(tx) => Ok(hex_encode(encode(&tx).as_slice())),
        }
    }

    /// Gives the output script of an address, which must belong to the
    /// network of the given name.
    pub fn address_to_script_pub_key(addr: &str, network: &str) -> (r: Result<String, Error>)
        ensures
            text_result_view(r) == script_of_address_text(addr@, network@),
    {
        let network = match Network::from_name(network) {
            Some(found) => found,
            None => { return Err(Error::UnknownNetwork); },
        };
        match script_of_address(addr, network) {
            Err(e) => Err(Error::InvalidAddress(e)),
            Ok(script) => Ok(hex_encode(script.as_slice())),
        }
    }

    /// Disassembles the script that a hexadecimal text stands for.
    pub fn script_to_asm(hex: &str) -> (r: Result<String, Error>)
        ensures
            text_result_view(r) == asm_of_text(hex@),
    {
        Bitcoin::parse_script_hex(hex)
    }

    /// Signs an input of an editable transaction and gives the signature,
    /// with the byte for the signature hash type behind it, as hexadecimal
    /// text.
    pub fn sign_tx(
        tx: &JsTx,
        index: u32,
        txo_script_pubkey: &str,
        sighash_type: u32,
        secret_key: &str,
        witness_script: Option<String>,
        amount: Option<u64>,
        signing_type: &str,
    ) -> (r: Result<String, Error>)
        ensures
            text_result_view(r) == signed_input(
                tx@,
                index,
                txo_script_pubkey@,
                sighash_type,
                secret_key@,
                option_text_view(witness_script),
                amount,
                signing_type@,
            ),
    {
        let tx = match from_editable(tx) {
            Ok(found) => found,
            Err(e) => { return Err(e); },
        };
        let script_pubkey = match text_to_bytes(txo_script_pubkey) {
            Ok(found) => found,
            Err(e) => { return Err(e); },
        };
        let secret = match secret_key_from_text(secret_key) {
            Ok(found) => found,
            Err(e) => { return Err(e); },
        };
        let t = EcdsaSighashType::from_consensus(sighash_type);
        let scheme = match SigningType::from_name(signing_type) {
            Some(found) => found,
            None => { return Err(Error::UnsupportedSigningScheme); },
        };
        let digest = match signature_hash(
            scheme,
            &tx,
            index as usize,
            script_pubkey.as_slice(),
            t,
            &witness_script,
            amount,
        ) {
            Ok(found) => found,
            Err(e) => { return Err(e); },
        };
        let signature = sign_sighash(digest.as_slice(), &secret, t);
        Ok(hex_encode(signature.as_slice()))
    }

    /// Gives the compressed public key of a secret key.
    pub fn secret_to_public_key_compressed(secret: &str) -> (r: Result<String, Error>)
        ensures
            text_result_view(r) == public_key_of_secret_text(secret@),
    {
        match secret_key_from_text(secret) {
            Err(e) => Err(e),
            Ok(key) => Ok(hex_encode(derive_public_key(key.secret_bytes()).as_slice())),
        }
    }

    /// Gives the secret key that a text in wallet import format holds.
    pub fn wif_to_ec_hex(wif: &str) -> (r: Result<String, Error>)
        ensures
            text_result_view(r) == secret_of_wif(wif@),
    {
        match decode_wif(wif) {
            None => Err(Error::InvalidWif),
            Some((key, compressed)) => Ok(hex_encode(key.as_slice())),
        }
    }

    /// Gives the public key of the secret key that a text in wallet import
    /// format holds, compressed or not as the text asks.
    pub fn wif_to_public_key(wif: &str) -> (r: Result<String, Error>)
        ensures
            text_result_view(r) == public_key_of_wif(wif@),
    {
        match decode_wif(wif) {
            None => Err(Error::InvalidWif),
            Some((key, compressed)) => {
                if compressed {
                    Ok(hex_encode(derive_public_key(key.as_slice()).as_slice()))
                } else {
                    Ok(hex_encode(derive_public_key_uncompressed(key.as_slice()).as_slice()))
                }
            },
        }
    }

    /// Gives the script that pays to the hash of a redeem script.
    pub fn generate_p2sh_pub_key(redeem_hex: &str) -> (r: Result<String, Error>)
        ensures
            text_result_view(r) == p2sh_of_text(redeem_hex@),
    {
        match text_to_bytes(redeem_hex) {
            Err(e) => Err(e),
            Ok(script) => {
                let hash = hash160_digest(script.as_slice());
                Ok(hex_encode(new_p2sh(&hash).as_slice()))
            },
        }
    }

    /// Puts the push of a redeem script behind a signature script.
    pub fn script_sig_for_p2sh(script_sig_hex: &str, redeem_hex: &str) -> (r: Result<
        String,
        Error,
    >)
        ensures
            text_result_view(r) == script_sig_with_redeem(script_sig_hex@, redeem_hex@),
    {
        let script = match text_to_bytes(script_sig_hex) {
            Ok(found) => found,
            Err(e) => { return Err(e); },
        };
        let pushed = match text_to_bytes(redeem_hex) {
            Ok(found) => found,
            Err(e) => { return Err(e); },
        };
        match Builder::from_bytes(script).push_slice_try_from(pushed.as_slice()) {
            Err(_) => Err(Error::PushTooLarge),
            Ok(builder) => Ok(hex_encode(builder.into_bytes().as_slice())),
        }
    }

    /// Decodes a transaction and gives its editable form.
    pub fn tx_hex_to_json(hex: &str) -> (r: Result<JsTx, Error>)
        ensures
            editable_result_view(r) == editable_of_text(hex@),
    {
        let bytes = match text_to_bytes(hex) {
            Ok(found) => found,
            Err(e) => { return Err(e); },
        };
        match decode(bytes.as_slice()) {
            Err(e) => Err(Error::InvalidTransaction(e)),
            Ok(tx) => Ok(to_editable(&tx)),
        }
    }

    /// Gives the address that pays to a witness script.
    pub fn create_p2wsh_address(witness_script: &str, network: &str) -> (r: Result<String, Error>)
        ensures
            text_result_view(r) == p2wsh_address_of_text(witness_script@, network@),
    {
        let network = match Network::from_name(network) {
            Some(found) => found,
            None => { return Err(Error::UnknownNetwork); },
        };
        match text_to_bytes(witness_script) {
            Err(e) => Err(e),
            Ok(script) => Ok(p2wsh_address(script.as_slice(), network)),
        }
    }

    /// Gives the script that pays to a witness script.
    pub fn create_p2wsh_script_pubkey(witness_script: &str) -> (r: Result<String, Error>)
        ensures
            text_result_view(r) == p2wsh_script_of_text(witness_script@),
    {
        match text_to_bytes(witness_script) {
            Err(e) => Err(e),
            Ok(script) => {
                let hash = sha256_digest(script.as_slice());
                Ok(hex_encode(new_p2wsh(&hash).as_slice()))
            },
        }
    }

    /// Gives the script that pushes a signature and a public key.
    pub fn create_p2wpkh_script_sig(signature: &str, pubkey: &str) -> (r: Result<String, Error>)
        ensures
            text_result_view(r) == p2wpkh_script_sig_of_texts(signature@, pubkey@),
    {
        let sig = match text_to_bytes(signature) {
            Ok(found) => found,
            Err(e) => { return Err(e); },
        };
        let builder = match Builder::new().push_slice_try_from(sig.as_slice()) {
            Ok(found) => found,
            Err(_) => { return Err(Error::PushTooLarge); },
        };
        let bytes = match text_to_bytes(pubkey) {
            Ok(found) => found,
            Err(e) => { return Err(e); },
        };
        let key = match parse_public_key(bytes.as_slice()) {
            Some(found) => found,
            None => { return Err(Error::InvalidPublicKey); },
        };
        let script = builder.push_slice(key.as_slice()).into_bytes();
        assert(script@ =~= push_data(sig@) + push_data(key@));
        Ok(hex_encode(script.as_slice()))
    }

    /// Reports the form of a script, its disassembly and, for a data-carrier
    /// script, its payload as text.
    pub fn script_info(script: &str) -> (r: Result<ScriptInfo, Error>)
        ensures
            info_result_view(r) == info_of_text(script@),
    {
        let bytes = match text_to_bytes(script) {
            Ok(found) => found,
            Err(e) => { return Err(e); },
        };
        let script_type = match classify(bytes.as_slice()) {
            Some(t) => Some(String::from_str(t.name())),
            None => None,
        };
        let op_return_data = match extract_op_return(bytes.as_slice()) {
            Some(data) => Some(utf8_lossy(data)),
            None => None,
        };
        Ok(ScriptInfo { script_type, disassembly: script_asm(bytes.as_slice()), op_return_data })
    }

    /// Gives the data-carrier script for the bytes of a text.
    pub fn op_return_script_pubkey(text: &str) -> (r: Result<String, Error>)
        ensures
            text_result_view(r) == op_return_of_text(text@),
    {
        let data = text.as_bytes();
        if (data.len() as u64) < 0x1_0000_0000 {
            Ok(hex_encode(new_op_return(data).as_slice()))
        } else {
            Err(Error::PushTooLarge)
        }
    }

    /// Reads each piece between the commas of a text as hexadecimal and
    /// writes it again.
    pub fn split_comma_hex(text: &str) -> (r: Result<Vec<String>, Error>)
        ensures
            texts_result_view(r) == rewritten_pieces(text@),
    {
        let pieces = split_at_commas(text);
        match stack_from_editable(&pieces) {
            Err(e) => Err(e),
            Ok(stack) => Ok(stack_to_editable(&stack)),
        }
    }
}

} // verus!
