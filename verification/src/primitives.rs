//! The primitives that this library takes from outside: digests, the
//! secp256k1 curve, base58 and bech32 text, and script disassembly.
//!
//! Nothing of what these functions compute is proved here.  Each is a call
//! into the `bitcoin` crate (or, for one, into the standard library), and its
//! contract gives the result a name, so that the contracts of the functions
//! built on it can say exactly how the result is used.

use vstd::prelude::*;

verus! {

/// A network of the ledger.
#[derive(Debug, Clone, Copy, PartialEq, Eq, Structural)]
pub enum Network {
    Bitcoin,
    Testnet,
    Testnet4,
    Signet,
    Regtest,
}

/// The SHA-256 digest of a byte string.
pub uninterp spec fn sha256(data: Seq<u8>) -> Seq<u8>;

/// The SHA-256 digest of the SHA-256 digest of a byte string.
pub uninterp spec fn sha256d(data: Seq<u8>) -> Seq<u8>;

/// The RIPEMD-160 digest of a byte string.
pub uninterp spec fn ripemd160(data: Seq<u8>) -> Seq<u8>;

/// The RIPEMD-160 digest of the SHA-256 digest of a byte string.
pub uninterp spec fn hash160(data: Seq<u8>) -> Seq<u8>;

/// The SHA-1 digest of a byte string.
pub uninterp spec fn sha1(data: Seq<u8>) -> Seq<u8>;

/// Whether the curve library takes a byte string for a secret key.
pub uninterp spec fn secret_key_accepted(key: Seq<u8>) -> bool;

/// The DER form of the deterministic ECDSA signature of a digest under a
/// secret key.
pub uninterp spec fn ecdsa_signature_der(digest: Seq<u8>, key: Seq<u8>) -> Seq<u8>;

/// The compressed form of the public key of a secret key.
pub uninterp spec fn public_key_compressed(key: Seq<u8>) -> Seq<u8>;

/// The uncompressed form of the public key of a secret key.
pub uninterp spec fn public_key_uncompressed(key: Seq<u8>) -> Seq<u8>;

/// The serialised form of the public key that a byte string holds, if it
/// holds one.
pub uninterp spec fn public_key_parsed(bytes: Seq<u8>) -> Option<Seq<u8>>;

/// The secret key that a text in wallet import format holds, and whether its
/// public key is to be compressed.
pub uninterp spec fn wif_decoded(wif: Seq<char>) -> Option<(Seq<u8>, bool)>;

/// The output script of an address on a network.
pub uninterp spec fn address_script(address: Seq<char>, network: Network) -> Result<
    Seq<u8>,
    crate::error::AddressError,
>;

/// The address on a network that pays to a witness script.
pub uninterp spec fn p2wsh_address_text(witness_script: Seq<u8>, network: Network) -> Seq<char>;

/// The base58 text of a byte string followed by its checksum.
pub uninterp spec fn base58check_text(data: Seq<u8>) -> Seq<char>;

/// The disassembly of a script, one token for each opcode or push.
pub uninterp spec fn script_asm_text(script: Seq<u8>) -> Seq<char>;

/// The text of a byte string read as UTF-8, with a replacement character for
/// every part that is not UTF-8.
pub uninterp spec fn utf8_lossy_text(bytes: Seq<u8>) -> Seq<char>;

/// The DER form of a signature: a sequence of two integers, each written
/// with the fewest bytes and not negative.
pub open spec fn is_der_signature(sig: Seq<u8>) -> bool {
    &&& 8 <= sig.len() <= 72
    &&& sig[0] == 0x30
    &&& sig[1] == sig.len() - 2
    &&& sig[2] == 0x02
    &&& is_der_integer(sig, 3)
    &&& 5 + sig[3] < sig.len()
    &&& sig[4 + sig[3]] == 0x02
    &&& is_der_integer(sig, 5 + sig[3])
    &&& 6 + sig[3] + sig[5 + sig[3]] == sig.len()
}

/// At `at` stands the length of an integer that is written with the fewest
/// bytes and is not negative, and the integer behind it.
pub open spec fn is_der_integer(sig: Seq<u8>, at: int) -> bool {
    let len = sig[at] as int;
    &&& 0 <= at
    &&& 1 <= len <= 33
    &&& at + len < sig.len()
    &&& sig[at + 1] < 0x80
    &&& len > 1 && sig[at + 1] == 0 ==> sig[at + 2] >= 0x80
}

/// Calls `sha256::Hash::hash` of `bitcoin::hashes`.
#[verifier::external_body]
pub(crate) fn sha256_digest(data: &[u8]) -> (r: [u8; 32])
    ensures
        r@ == sha256(data@),
{
    bitcoin::hashes::Hash::to_byte_array(
        <bitcoin::hashes::sha256::Hash as bitcoin::hashes::Hash>::hash(data),
    )
}

/// Calls `sha256d::Hash::hash` of `bitcoin::hashes`.
#[verifier::external_body]
pub(crate) fn sha256d_digest(data: &[u8]) -> (r: [u8; 32])
    ensures
        r@ == sha256d(data@),
{
    bitcoin::hashes::Hash::to_byte_array(
        <bitcoin::hashes::sha256d::Hash as bitcoin::hashes::Hash>::hash(data),
    )
}

/// Calls `ripemd160::Hash::hash` of `bitcoin::hashes`.
#[verifier::external_body]
pub(crate) fn ripemd160_digest(data: &[u8]) -> (r: [u8; 20])
    ensures
        r@ == ripemd160(data@),
{
    bitcoin::hashes::Hash::to_byte_array(
        <bitcoin::hashes::ripemd160::Hash as bitcoin::hashes::Hash>::hash(data),
    )
}

/// Calls `hash160::Hash::hash` of `bitcoin::hashes`.
#[verifier::external_body]
pub(crate) fn hash160_digest(data: &[u8]) -> (r: [u8; 20])
    ensures
        r@ == hash160(data@),
{
    bitcoin::hashes::Hash::to_byte_array(
        <bitcoin::hashes::hash160::Hash as bitcoin::hashes::Hash>::hash(data),
    )
}

/// Calls `sha1::Hash::hash` of `bitcoin::hashes`.
#[verifier::external_body]
pub(crate) fn sha1_digest(data: &[u8]) -> (r: [u8; 20])
    ensures
        r@ == sha1(data@),
{
    bitcoin::hashes::Hash::to_byte_array(
        <bitcoin::hashes::sha1::Hash as bitcoin::hashes::Hash>::hash(data),
    )
}

/// Calls `SecretKey::from_slice` of `secp256k1` and tells whether it gave a
/// key.  That function refuses every slice that does not have 32 bytes, and
/// leaves the rest to the curve library.
#[verifier::external_body]
pub(crate) fn secret_key_is_accepted(key: &[u8]) -> (r: bool)
    ensures
        r == secret_key_accepted(key@),
        r ==> key@.len() == 32,
{
    bitcoin::secp256k1::SecretKey::from_slice(key).is_ok()
}

/// Calls `Secp256k1::sign_ecdsa` and `Signature::serialize_der` of
/// `secp256k1`.  The nonce is derived from key and digest, so the signature
/// depends on them alone; the serialisation is DER and takes at most 72
/// bytes.
#[verifier::external_body]
pub(crate) fn ecdsa_sign_der(digest: &[u8; 32], key: &[u8]) -> (r: Vec<u8>)
    requires
        secret_key_accepted(key@),
    ensures
        r@ == ecdsa_signature_der(digest@, key@),
        is_der_signature(r@),
{
    let message = bitcoin::secp256k1::Message::from_digest(*digest);
    let secret = bitcoin::secp256k1::SecretKey::from_slice(key).unwrap();
    let context = bitcoin::secp256k1::Secp256k1::new();
    context.sign_ecdsa(&message, &secret).serialize_der().to_vec()
}

/// Calls `PublicKey::from_secret_key` and `PublicKey::serialize` of
/// `secp256k1`.
#[verifier::external_body]
pub(crate) fn derive_public_key(key: &[u8]) -> (r: [u8; 33])
    requires
        secret_key_accepted(key@),
    ensures
        r@ == public_key_compressed(key@),
{
    let secret = bitcoin::secp256k1::SecretKey::from_slice(key).unwrap();
    let context = bitcoin::secp256k1::Secp256k1::new();
    bitcoin::secp256k1::PublicKey::from_secret_key(&context, &secret).serialize()
}

/// Calls `PublicKey::from_secret_key` and
/// `PublicKey::serialize_uncompressed` of `secp256k1`.
#[verifier::external_body]
pub(crate) fn derive_public_key_uncompressed(key: &[u8]) -> (r: [u8; 65])
    requires
        secret_key_accepted(key@),
    ensures
        r@ == public_key_uncompressed(key@),
{
    let secret = bitcoin::secp256k1::SecretKey::from_slice(key).unwrap();
    let context = bitcoin::secp256k1::Secp256k1::new();
    bitcoin::secp256k1::PublicKey::from_secret_key(&context, &secret).serialize_uncompressed()
}

/// Calls `PublicKey::from_slice` of `bitcoin` and gives the key back as
/// `PublicKey::to_bytes` writes it: 33 bytes where 33 were read, 65 where 65
/// were.  No other length is taken for a key.
#[verifier::external_body]
pub(crate) fn parse_public_key(bytes: &[u8]) -> (r: Option<Vec<u8>>)
    ensures
        match r {
            Some(key) => public_key_parsed(bytes@) == Some(key@) && (key@.len() == 33
                || key@.len() == 65),
            None => public_key_parsed(bytes@) is None,
        },
{
    match bitcoin::PublicKey::from_slice(bytes) {
        Ok(key) => Some(key.to_bytes()),
        Err(_) => None,
    }
}

/// Calls `PrivateKey::from_wif` of `bitcoin`.  The secret key that it gives
/// has passed `SecretKey::from_slice`.
#[verifier::external_body]
pub(crate) fn decode_wif(wif: &str) -> (r: Option<(Vec<u8>, bool)>)
    ensures
        match r {
            Some((key, compressed)) => wif_decoded(wif@) == Some((key@, compressed))
                && secret_key_accepted(key@),
            None => wif_decoded(wif@) is None,
        },
{
    match bitcoin::PrivateKey::from_wif(wif) {
        Ok(key) => Some((key.inner.secret_bytes().to_vec(), key.compressed)),
        Err(_) => None,
    }
}

/// Parses the text as an address, calls `Address::require_network` and
/// `Address::script_pubkey` of `bitcoin`.
#[verifier::external_body]
pub(crate) fn script_of_address(address: &str, network: Network) -> (r: Result<
    Vec<u8>,
    crate::error::AddressError,
>)
    ensures
        match r {
            Ok(script) => address_script(address@, network) == Ok::<
                Seq<u8>,
                crate::error::AddressError,
            >(script@),
            Err(e) => address_script(address@, network) == Err::<
                Seq<u8>,
                crate::error::AddressError,
            >(e),
        },
{
    let network = match network {
        Network::Bitcoin => bitcoin::Network::Bitcoin,
        Network::Testnet => bitcoin::Network::Testnet,
        Network::Testnet4 => bitcoin::Network::Testnet4,
        Network::Signet => bitcoin::Network::Signet,
        Network::Regtest => bitcoin::Network::Regtest,
    };
    let parsed = address.parse::<bitcoin::Address<bitcoin::address::NetworkUnchecked>>();
    let Ok(unchecked) = parsed else { return Err(crate::error::AddressError::InvalidAddress) };
    match unchecked.require_network(network) {
        Ok(checked) => Ok(checked.script_pubkey().into_bytes()),
        Err(_) => Err(crate::error::AddressError::WrongNetwork),
    }
}

/// Calls `Address::p2wsh` of `bitcoin` and writes the address as text.
#[verifier::external_body]
pub(crate) fn p2wsh_address(witness_script: &[u8], network: Network) -> (r: String)
    ensures
        r@ == p2wsh_address_text(witness_script@, network),
{
    let network = match network {
        Network::Bitcoin => bitcoin::Network::Bitcoin,
        Network::Testnet => bitcoin::Network::Testnet,
        Network::Testnet4 => bitcoin::Network::Testnet4,
        Network::Signet => bitcoin::Network::Signet,
        Network::Regtest => bitcoin::Network::Regtest,
    };
    bitcoin::Address::p2wsh(bitcoin::Script::from_bytes(witness_script), network).to_string()
}

/// Calls `base58::encode_check` of `bitcoin`.
#[verifier::external_body]
pub(crate) fn base58_encode_check(data: &[u8]) -> (r: String)
    ensures
        r@ == base58check_text(data@),
{
    bitcoin::base58::encode_check(data)
}

/// Calls `Script::to_asm_string` of `bitcoin`.
#[verifier::external_body]
pub(crate) fn script_asm(script: &[u8]) -> (r: String)
    ensures
        r@ == script_asm_text(script@),
{
    bitcoin::Script::from_bytes(script).to_asm_string()
}

/// Calls `String::from_utf8_lossy`.
#[verifier::external_body]
pub(crate) fn utf8_lossy(bytes: &[u8]) -> (r: String)
    ensures
        r@ == utf8_lossy_text(bytes@),
{
    String::from_utf8_lossy(bytes).to_string()
}

} // verus!
