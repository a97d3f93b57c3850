use btc_tools::decode::decode;
use btc_tools::editable::to_editable;
use btc_tools::error::{Error, SigningParameter};
use btc_tools::hexstr::HexError;
use btc_tools::signing::{append_sighash_flag, has_der_form};
use btc_tools::{sign_sighash, Bitcoin, EcdsaSighashType, JsTx, SecretKey, TxBuilder};

const UNSIGNED: &str = "0100000002fff7f7881a8099afa6940d42d1e7f6362bec38171ea3edf433541db4e4ad969f0000000000eeffffffef51e1b804cc89d182d279655c3aa89e815b1b309fe287d9b2b55d57b90ec68a0100000000ffffffff02202cb206000000001976a9148280b37df378db99f66f85c95a783a76ac7a6d5988ac9093510d000000001976a9143bde42dbee7e4dbe6a21b2d50ce2f0167faa815988ac11000000";
const KEY: &str = "619c335025c7f4012e556c2a58b2506e30b8511b53ade95ea316fd8c3286feb9";
const SCRIPT: &str = "00141d0f172a0ecb48aee1be1f2687d2963ae33f71a1";
const DIGEST: &str = "c37af31116d1b27caf68aae9e3ac82f1477929014d5b917657d0eb49478cb670";
const SIGNATURE: &str = "304402203609e17b84f6a7d30c80bfa610b5b4542f32a8a0d5447a12fb1366d7f01cc44a0220573a954c4518331561406f90300e8f3358f51928d43c212a8caed02de67eebee01";

const TYPES: [EcdsaSighashType; 6] = [
    EcdsaSighashType::All,
    EcdsaSighashType::NoOutputs,
    EcdsaSighashType::Single,
    EcdsaSighashType::AllPlusAnyoneCanPay,
    EcdsaSighashType::NoOutputsPlusAnyoneCanPay,
    EcdsaSighashType::SinglePlusAnyoneCanPay,
];

fn bytes(hex: &str) -> Vec<u8> {
    Bitcoin::parse_hex_str(hex).unwrap()
}

fn editable() -> JsTx {
    to_editable(&decode(&bytes(UNSIGNED)).unwrap())
}

/// Checks the form of a DER signature byte by byte.
fn is_der(sig: &[u8]) -> bool {
    if sig.len() < 8 || sig.len() > 72 || sig[0] != 0x30 || sig[1] as usize != sig.len() - 2 {
        return false;
    }
    let mut at = 2;
    for _ in 0..2 {
        if at + 2 > sig.len() || sig[at] != 0x02 {
            return false;
        }
        let len = sig[at + 1] as usize;
        if len == 0 || len > 33 || at + 2 + len > sig.len() {
            return false;
        }
        let number = &sig[at + 2..at + 2 + len];
        if number[0] >= 0x80 || (len > 1 && number[0] == 0 && number[1] < 0x80) {
            return false;
        }
        at += 2 + len;
    }
    at == sig.len()
}

#[test]
fn flag_is_put_behind_the_signature() {
    assert_eq!(append_sighash_flag(vec![1, 2], EcdsaSighashType::All), vec![1, 2, 0x01]);
    assert_eq!(append_sighash_flag(vec![], EcdsaSighashType::NoOutputs), vec![0x02]);
    assert_eq!(append_sighash_flag(vec![9], EcdsaSighashType::Single), vec![9, 0x03]);
    assert_eq!(append_sighash_flag(vec![9], EcdsaSighashType::AllPlusAnyoneCanPay), vec![9, 0x81]);
    assert_eq!(
        append_sighash_flag(vec![9], EcdsaSighashType::NoOutputsPlusAnyoneCanPay),
        vec![9, 0x82]
    );
    assert_eq!(
        append_sighash_flag(vec![9], EcdsaSighashType::SinglePlusAnyoneCanPay),
        vec![9, 0x83]
    );
}

#[test]
fn signature_of_the_published_example() {
    let secret = SecretKey::from_slice(&bytes(KEY)).unwrap();
    let signature = sign_sighash(&bytes(DIGEST), &secret, EcdsaSighashType::All);
    assert_eq!(signature, bytes(SIGNATURE));
}

#[test]
fn signature_ends_with_the_flag_and_is_der_before_it() {
    let secret = SecretKey::from_slice(&bytes(KEY)).unwrap();
    for seed in 0u8..40 {
        let digest = [seed.wrapping_mul(37).wrapping_add(1); 32];
        for t in TYPES {
            let signature = sign_sighash(&digest, &secret, t);
            assert_eq!(*signature.last().unwrap() as u32, t.to_u32());
            assert!(is_der(&signature[..signature.len() - 1]));
            assert!(has_der_form(&signature[..signature.len() - 1]));
            assert!(!is_der(&signature));
            assert!(!has_der_form(&signature));
        }
    }
}

#[test]
fn signature_is_that_of_the_curve_library() {
    let secret = SecretKey::from_slice(&bytes(KEY)).unwrap();
    let digest = [0x42u8; 32];
    let signature = sign_sighash(&digest, &secret, EcdsaSighashType::Single);
    let context = bitcoin::secp256k1::Secp256k1::new();
    let key = bitcoin::secp256k1::SecretKey::from_slice(&bytes(KEY)).unwrap();
    let message = bitcoin::secp256k1::Message::from_digest(digest);
    let theirs = context.sign_ecdsa(&message, &key);
    let mut expected = theirs.serialize_der().to_vec();
    expected.push(3);
    assert_eq!(signature, expected);
    let public = bitcoin::secp256k1::PublicKey::from_secret_key(&context, &key);
    let read = bitcoin::secp256k1::ecdsa::Signature::from_der(&signature[..signature.len() - 1])
        .unwrap();
    assert!(context.verify_ecdsa(&message, &read, &public).is_ok());
}

#[test]
fn signing_is_deterministic() {
    let secret = SecretKey::from_slice(&bytes(KEY)).unwrap();
    let a = sign_sighash(&[7; 32], &secret, EcdsaSighashType::All);
    let b = sign_sighash(&[7; 32], &secret, EcdsaSighashType::All);
    assert_eq!(a, b);
    assert!(a != sign_sighash(&[8; 32], &secret, EcdsaSighashType::All));
}

#[test]
fn keys_out_of_range_are_refused() {
    assert!(SecretKey::from_slice(&[0; 32]).is_err());
    assert!(SecretKey::from_slice(&[0xff; 32]).is_err());
    assert!(SecretKey::from_slice(&[1; 31]).is_err());
    assert!(SecretKey::from_slice(&[1; 33]).is_err());
    assert!(SecretKey::from_slice(&[]).is_err());
    // The order of the group, and the number before it.
    let order = bytes("fffffffffffffffffffffffffffffffebaaedce6af48a03bbfd25e8cd0364141");
    assert!(SecretKey::from_slice(&order).is_err());
    let last = bytes("fffffffffffffffffffffffffffffffebaaedce6af48a03bbfd25e8cd0364140");
    assert_eq!(SecretKey::from_slice(&last).unwrap().secret_bytes(), &last[..]);
    assert!(SecretKey::from_slice(&[1; 32]).is_ok());
}

#[test]
fn input_of_the_published_example_is_signed() {
    let signed = TxBuilder::sign_tx(
        &editable(),
        1,
        SCRIPT,
        1,
        KEY,
        None,
        Some(600_000_000),
        "p2wpkh",
    );
    assert_eq!(signed, Ok(SIGNATURE.to_string()));
}

#[test]
fn scheme_is_named_in_either_case() {
    for name in ["P2wpkh", "p2wpkh", "P2WPKH", "p2WpKh"] {
        let signed =
            TxBuilder::sign_tx(&editable(), 1, SCRIPT, 1, KEY, None, Some(600_000_000), name);
        assert_eq!(signed, Ok(SIGNATURE.to_string()));
    }
    for name in ["", "p2wpkh ", "segwit", "p2wpk", "legacy1", "P2WSH\u{212a}"] {
        let signed =
            TxBuilder::sign_tx(&editable(), 1, SCRIPT, 1, KEY, None, Some(600_000_000), name);
        assert_eq!(signed, Err(Error::UnsupportedSigningScheme));
    }
}

fn outside_signature(digest: &[u8], flag: u8) -> String {
    let context = bitcoin::secp256k1::Secp256k1::new();
    let key = bitcoin::secp256k1::SecretKey::from_slice(&bytes(KEY)).unwrap();
    let mut array = [0u8; 32];
    array.copy_from_slice(digest);
    let message = bitcoin::secp256k1::Message::from_digest(array);
    let mut sig = context.sign_ecdsa(&message, &key).serialize_der().to_vec();
    sig.push(flag);
    hex::encode(sig)
}

#[test]
fn each_scheme_signs_its_own_digest() {
    let tx = decode(&bytes(UNSIGNED)).unwrap();
    let outside_tx: bitcoin::Transaction = bitcoin::consensus::deserialize(&bytes(UNSIGNED)).unwrap();
    let pkh = "76a9148280b37df378db99f66f85c95a783a76ac7a6d5988ac";
    for number in [1u32, 2, 3, 0x81, 0x82, 0x83, 0, 0x44] {
        let t = EcdsaSighashType::from_consensus(number);
        let outside_t = bitcoin::EcdsaSighashType::from_consensus(number);
        for index in 0..2u32 {
            // The legacy scheme hashes the number of the type, not the
            // number that was given.
            let cache = bitcoin::sighash::SighashCache::new(outside_tx.clone());
            let digest = cache
                .legacy_signature_hash(
                    index as usize,
                    bitcoin::Script::from_bytes(&bytes(pkh)),
                    t.to_u32(),
                )
                .unwrap();
            assert_eq!(
                TxBuilder::sign_tx(&editable(), index, pkh, number, KEY, None, None, "legacy"),
                Ok(outside_signature(digest.as_ref(), t.to_u32() as u8))
            );
            assert_eq!(
                digest.as_ref() as &[u8],
                &btc_tools::sighash::legacy_signature_hash(&tx, index as usize, &bytes(pkh), t.to_u32())
                    .unwrap()[..]
            );
            let mut cache = bitcoin::sighash::SighashCache::new(outside_tx.clone());
            let digest = cache
                .p2wsh_signature_hash(
                    index as usize,
                    bitcoin::Script::from_bytes(&[0x51, 0xac]),
                    bitcoin::Amount::from_sat(77),
                    outside_t,
                )
                .unwrap();
            assert_eq!(
                TxBuilder::sign_tx(
                    &editable(),
                    index,
                    "ff",
                    number,
                    KEY,
                    Some("51 ac".to_string()),
                    Some(77),
                    "P2WSH"
                ),
                Ok(outside_signature(digest.as_ref(), t.to_u32() as u8))
            );
        }
    }
}

#[test]
fn what_is_given_is_read_in_order() {
    let mut broken = editable();
    broken.inputs[1].script_sig = "0".to_string();
    // The transaction comes first.
    assert_eq!(
        TxBuilder::sign_tx(&broken, 9, "zz", 1, "zz", None, None, "nothing"),
        Err(Error::MalformedHex(HexError::OddLength))
    );
    // Then the script being spent.
    assert_eq!(
        TxBuilder::sign_tx(&editable(), 9, "zz", 1, "0", None, None, "nothing"),
        Err(Error::MalformedHex(HexError::InvalidHexCharacter { c: 'z', index: 0 }))
    );
    // Then the key: its text, then its value.
    assert_eq!(
        TxBuilder::sign_tx(&editable(), 9, "", 1, "0", None, None, "nothing"),
        Err(Error::MalformedHex(HexError::OddLength))
    );
    assert_eq!(
        TxBuilder::sign_tx(&editable(), 9, "", 1, "00", None, None, "nothing"),
        Err(Error::InvalidKey)
    );
    assert_eq!(
        TxBuilder::sign_tx(&editable(), 9, "", 1, &"00".repeat(32), None, None, "nothing"),
        Err(Error::InvalidKey)
    );
    // Then the name of the scheme.
    assert_eq!(
        TxBuilder::sign_tx(&editable(), 9, "", 1, KEY, None, None, "nothing"),
        Err(Error::UnsupportedSigningScheme)
    );
    // Then what the scheme needs.
    assert_eq!(
        TxBuilder::sign_tx(&editable(), 9, "", 1, KEY, None, None, "legacy"),
        Err(Error::InputIndexOutOfRange)
    );
    assert_eq!(
        TxBuilder::sign_tx(&editable(), 9, "", 1, KEY, None, None, "p2wpkh"),
        Err(Error::MissingSigningParameter(SigningParameter::Amount))
    );
    assert_eq!(
        TxBuilder::sign_tx(&editable(), 9, "", 1, KEY, None, Some(1), "p2wpkh"),
        Err(Error::NotP2wpkhScript)
    );
    assert_eq!(
        TxBuilder::sign_tx(&editable(), 9, SCRIPT, 1, KEY, None, Some(1), "p2wpkh"),
        Err(Error::InputIndexOutOfRange)
    );
    assert_eq!(
        TxBuilder::sign_tx(&editable(), 9, "", 1, KEY, None, None, "p2wsh"),
        Err(Error::MissingSigningParameter(SigningParameter::WitnessScript))
    );
    assert_eq!(
        TxBuilder::sign_tx(&editable(), 9, "", 1, KEY, Some("5".to_string()), None, "p2wsh"),
        Err(Error::MalformedHex(HexError::OddLength))
    );
    assert_eq!(
        TxBuilder::sign_tx(&editable(), 9, "", 1, KEY, Some("51".to_string()), None, "p2wsh"),
        Err(Error::MissingSigningParameter(SigningParameter::Amount))
    );
    assert_eq!(
        TxBuilder::sign_tx(&editable(), 9, "", 1, KEY, Some("51".to_string()), Some(1), "p2wsh"),
        Err(Error::InputIndexOutOfRange)
    );
}

#[test]
fn legacy_scheme_signs_the_digest_one_where_single_has_no_output() {
    let mut js = editable();
    js.outputs.truncate(1);
    let mut one = [0u8; 32];
    one[0] = 1;
    assert_eq!(
        TxBuilder::sign_tx(&js, 1, "51", 3, KEY, None, None, "Legacy"),
        Ok(outside_signature(&one, 3))
    );
}

#[test]
fn form_of_a_signature_is_judged() {
    let good = bytes(&SIGNATURE[..SIGNATURE.len() - 2]);
    assert!(has_der_form(&good));
    assert!(has_der_form(&[0x30, 6, 2, 1, 0, 2, 1, 0]));
    assert!(has_der_form(&[0x30, 7, 2, 2, 0, 0x80, 2, 1, 0x7f]));
    // Too short, wrong tags, wrong lengths, negative and padded numbers.
    assert!(!has_der_form(&[]));
    assert!(!has_der_form(&[0x30, 5, 2, 1, 0, 2, 0]));
    assert!(!has_der_form(&[0x31, 6, 2, 1, 0, 2, 1, 0]));
    assert!(!has_der_form(&[0x30, 7, 2, 1, 0, 2, 1, 0]));
    assert!(!has_der_form(&[0x30, 6, 3, 1, 0, 2, 1, 0]));
    assert!(!has_der_form(&[0x30, 6, 2, 1, 0, 3, 1, 0]));
    assert!(!has_der_form(&[0x30, 6, 2, 1, 0x80, 2, 1, 0]));
    assert!(!has_der_form(&[0x30, 6, 2, 1, 0, 2, 1, 0xff]));
    assert!(!has_der_form(&[0x30, 7, 2, 2, 0, 0x7f, 2, 1, 0]));
    assert!(!has_der_form(&[0x30, 7, 2, 1, 0, 2, 2, 0, 0x01]));
    assert!(!has_der_form(&[0x30, 6, 2, 2, 0, 2, 1, 0]));
    assert!(!has_der_form(&[0x30, 6, 2, 4, 1, 2, 1, 0]));
    for at in 0..good.len() {
        for change in [1u8, 0x80] {
            let mut changed = good.clone();
            changed[at] ^= change;
            assert_eq!(has_der_form(&changed), is_der(&changed), "byte {}", at);
        }
        assert!(!has_der_form(&good[..at]));
    }
    let read = bitcoin::secp256k1::ecdsa::Signature::from_der(&good);
    assert!(read.is_ok());
}
