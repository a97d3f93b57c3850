use btc_tools::decode::decode;
use btc_tools::error::Error;
use btc_tools::sighash::{
    legacy_signature_hash, p2wpkh_signature_hash, p2wsh_signature_hash, segwit_v0_signature_hash,
    EcdsaSighashType,
};
use btc_tools::{Bitcoin, OutPoint, Transaction, TxIn, TxOut};

const UNSIGNED: &str = "0100000002fff7f7881a8099afa6940d42d1e7f6362bec38171ea3edf433541db4e4ad969f0000000000eeffffffef51e1b804cc89d182d279655c3aa89e815b1b309fe287d9b2b55d57b90ec68a0100000000ffffffff02202cb206000000001976a9148280b37df378db99f66f85c95a783a76ac7a6d5988ac9093510d000000001976a9143bde42dbee7e4dbe6a21b2d50ce2f0167faa815988ac11000000";

const TYPES: [EcdsaSighashType; 6] = [
    EcdsaSighashType::All,
    EcdsaSighashType::NoOutputs,
    EcdsaSighashType::Single,
    EcdsaSighashType::AllPlusAnyoneCanPay,
    EcdsaSighashType::NoOutputsPlusAnyoneCanPay,
    EcdsaSighashType::SinglePlusAnyoneCanPay,
];

fn bytes(hex: &str) -> Vec<u8> {
    Bitcoin::parse_hex_str(hex).unwrap()
}

fn outside(tx: &Transaction) -> bitcoin::Transaction {
    bitcoin::consensus::deserialize(&btc_tools::encode::encode(tx)).unwrap()
}

fn outside_type(t: EcdsaSighashType) -> bitcoin::EcdsaSighashType {
    bitcoin::EcdsaSighashType::from_consensus(t.to_u32())
}

fn sample() -> Transaction {
    let input = |seed: u8| TxIn {
        previous_output: OutPoint { txid: [seed; 32], vout: seed as u32 },
        script_sig: vec![seed; seed as usize],
        sequence: 0xffff_fff0 + seed as u32,
        witness: if seed % 2 == 0 { vec![vec![seed; 3]] } else { vec![] },
    };
    let output = |seed: u8| TxOut { value: 7_000 + seed as u64, script_pubkey: vec![seed; 25] };
    Transaction {
        version: 2,
        lock_time: 99,
        input: vec![input(1), input(2), input(3), input(4)],
        output: vec![output(10), output(11)],
    }
}

#[test]
fn numbers_stand_for_types() {
    assert_eq!(EcdsaSighashType::from_consensus(1), EcdsaSighashType::All);
    assert_eq!(EcdsaSighashType::from_consensus(2), EcdsaSighashType::NoOutputs);
    assert_eq!(EcdsaSighashType::from_consensus(3), EcdsaSighashType::Single);
    assert_eq!(EcdsaSighashType::from_consensus(0x81), EcdsaSighashType::AllPlusAnyoneCanPay);
    assert_eq!(EcdsaSighashType::from_consensus(0x82), EcdsaSighashType::NoOutputsPlusAnyoneCanPay);
    assert_eq!(EcdsaSighashType::from_consensus(0x83), EcdsaSighashType::SinglePlusAnyoneCanPay);
    assert_eq!(EcdsaSighashType::from_consensus(0), EcdsaSighashType::All);
    assert_eq!(EcdsaSighashType::from_consensus(4), EcdsaSighashType::All);
    assert_eq!(EcdsaSighashType::from_consensus(0x80), EcdsaSighashType::AllPlusAnyoneCanPay);
    assert_eq!(EcdsaSighashType::from_consensus(0x23), EcdsaSighashType::Single);
    assert_eq!(EcdsaSighashType::from_consensus(0xffff_ff02), EcdsaSighashType::NoOutputs);
    for t in TYPES {
        assert_eq!(EcdsaSighashType::from_consensus(t.to_u32()), t);
    }
}

#[test]
fn numbers_stand_for_types_as_the_network_has_them() {
    for high in [0u32, 0x100, 0xffff_ff00, 0x8000_0000] {
        for low in 0u32..256 {
            let n = high | low;
            let ours = EcdsaSighashType::from_consensus(n);
            let theirs = bitcoin::EcdsaSighashType::from_consensus(n);
            assert_eq!(ours.to_u32(), theirs.to_u32(), "number {:x}", n);
        }
    }
}

#[test]
fn witness_key_hash_digest_of_the_published_example() {
    let tx = decode(&bytes(UNSIGNED)).unwrap();
    let script_pubkey = bytes("00141d0f172a0ecb48aee1be1f2687d2963ae33f71a1");
    let digest =
        p2wpkh_signature_hash(&tx, 1, &script_pubkey, 600_000_000, EcdsaSighashType::All).unwrap();
    assert_eq!(
        digest.to_vec(),
        bytes("c37af31116d1b27caf68aae9e3ac82f1477929014d5b917657d0eb49478cb670")
    );
}

#[test]
fn witness_key_hash_digest_is_that_of_the_network() {
    let tx = sample();
    let script_pubkey = bytes("00141d0f172a0ecb48aee1be1f2687d2963ae33f71a1");
    for index in 0..tx.input.len() {
        for t in TYPES {
            let ours = p2wpkh_signature_hash(&tx, index, &script_pubkey, 123_456, t).unwrap();
            let mut cache = bitcoin::sighash::SighashCache::new(outside(&tx));
            let theirs = cache
                .p2wpkh_signature_hash(
                    index,
                    bitcoin::Script::from_bytes(&script_pubkey),
                    bitcoin::Amount::from_sat(123_456),
                    outside_type(t),
                )
                .unwrap();
            assert_eq!(&ours[..], AsRef::<[u8]>::as_ref(&theirs), "input {} type {:?}", index, t);
        }
    }
}

#[test]
fn witness_script_hash_digest_is_that_of_the_network() {
    let tx = sample();
    for script in [vec![], vec![0x51], vec![0xac; 300], vec![0xab; 70_000]] {
        for index in 0..tx.input.len() {
            for t in TYPES {
                let ours = p2wsh_signature_hash(&tx, index, &script, u64::MAX, t).unwrap();
                let mut cache = bitcoin::sighash::SighashCache::new(outside(&tx));
                let theirs = cache
                    .p2wsh_signature_hash(
                        index,
                        bitcoin::Script::from_bytes(&script),
                        bitcoin::Amount::from_sat(u64::MAX),
                        outside_type(t),
                    )
                    .unwrap();
                assert_eq!(&ours[..], AsRef::<[u8]>::as_ref(&theirs));
                assert_eq!(
                    ours,
                    segwit_v0_signature_hash(&tx, index, &script, u64::MAX, t).unwrap()
                );
            }
        }
    }
}

#[test]
fn legacy_digest_is_that_of_the_network() {
    let tx = sample();
    let script = bytes("76a9148280b37df378db99f66f85c95a783a76ac7a6d5988ac");
    let numbers = [0u32, 1, 2, 3, 4, 0x1f, 0x21, 0x41, 0x80, 0x81, 0x82, 0x83, 0x84, 0xff, 0x103, 0xffff_ffff];
    for index in 0..tx.input.len() {
        for n in numbers {
            let ours = legacy_signature_hash(&tx, index, &script, n).unwrap();
            let cache = bitcoin::sighash::SighashCache::new(outside(&tx));
            let theirs = cache
                .legacy_signature_hash(index, bitcoin::Script::from_bytes(&script), n)
                .unwrap();
            assert_eq!(&ours[..], AsRef::<[u8]>::as_ref(&theirs), "input {} number {:x}", index, n);
        }
    }
}

#[test]
fn legacy_digest_of_a_plain_spend() {
    // One input, one output, all signed: the hashed bytes are the
    // transaction with the script in place and the type behind it.
    let tx = Transaction {
        version: 1,
        lock_time: 0,
        input: vec![TxIn {
            previous_output: OutPoint { txid: [0x11; 32], vout: 0 },
            script_sig: vec![1, 2, 3],
            sequence: 0xffff_ffff,
            witness: vec![],
        }],
        output: vec![TxOut { value: 50, script_pubkey: vec![0x51] }],
    };
    let script = vec![0x76, 0xa9];
    let mut hashed = vec![1, 0, 0, 0, 1];
    hashed.extend([0x11; 32]);
    hashed.extend([0, 0, 0, 0, 2, 0x76, 0xa9, 0xff, 0xff, 0xff, 0xff]);
    hashed.extend([1, 50, 0, 0, 0, 0, 0, 0, 0, 1, 0x51, 0, 0, 0, 0, 1, 0, 0, 0]);
    let expected = Bitcoin::digest(&hashed, "sha256d").unwrap();
    let digest = legacy_signature_hash(&tx, 0, &script, 1).unwrap();
    assert_eq!(digest.to_vec(), bytes(&expected));
}

#[test]
fn single_without_output_gives_the_digest_one() {
    let tx = sample();
    let mut one = [0u8; 32];
    one[0] = 1;
    for n in [3u32, 0x83, 0x23] {
        assert_eq!(legacy_signature_hash(&tx, 2, &[0x51], n), Ok(one));
        assert_eq!(legacy_signature_hash(&tx, 3, &[0x51], n), Ok(one));
        assert!(legacy_signature_hash(&tx, 1, &[0x51], n).unwrap() != one);
    }
    assert!(legacy_signature_hash(&tx, 3, &[0x51], 1).unwrap() != one);
}

#[test]
fn input_that_is_not_there_is_refused() {
    let tx = sample();
    let script_pubkey = bytes("00141d0f172a0ecb48aee1be1f2687d2963ae33f71a1");
    assert_eq!(legacy_signature_hash(&tx, 4, &[], 1), Err(Error::InputIndexOutOfRange));
    assert_eq!(legacy_signature_hash(&tx, 4, &[], 3), Err(Error::InputIndexOutOfRange));
    assert_eq!(
        p2wpkh_signature_hash(&tx, 4, &script_pubkey, 1, EcdsaSighashType::All),
        Err(Error::InputIndexOutOfRange)
    );
    assert_eq!(
        p2wsh_signature_hash(&tx, usize::MAX, &[], 1, EcdsaSighashType::Single),
        Err(Error::InputIndexOutOfRange)
    );
}

#[test]
fn other_scripts_are_refused_for_the_key_hash_scheme() {
    let tx = sample();
    for script in ["", "51", "76a9148280b37df378db99f66f85c95a783a76ac7a6d5988ac",
        "00201863143c14c5166804bd19203356da136c985678cd4d27a1b8c6329604903262",
        "51141d0f172a0ecb48aee1be1f2687d2963ae33f71a1"]
    {
        assert_eq!(
            p2wpkh_signature_hash(&tx, 0, &bytes(script), 1, EcdsaSighashType::All),
            Err(Error::NotP2wpkhScript)
        );
        // The script is judged before the position is.
        assert_eq!(
            p2wpkh_signature_hash(&tx, 9, &bytes(script), 1, EcdsaSighashType::All),
            Err(Error::NotP2wpkhScript)
        );
    }
}
