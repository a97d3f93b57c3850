use btc_tools::decode::decode;
use btc_tools::editable::{from_editable, to_editable};
use btc_tools::encode::{encode, encode_legacy};
use btc_tools::error::Error;
use btc_tools::hexstr::HexError;
use btc_tools::roundtrip::{compact_size_len, is_readable, witness_fits};
use btc_tools::wire::DecodeError;
use btc_tools::{Bitcoin, JsTx, JsTxIn, JsTxOut, OutPoint, Transaction, TxBuilder, TxIn, TxOut};

const UNSIGNED: &str = "0100000002fff7f7881a8099afa6940d42d1e7f6362bec38171ea3edf433541db4e4ad969f0000000000eeffffffef51e1b804cc89d182d279655c3aa89e815b1b309fe287d9b2b55d57b90ec68a0100000000ffffffff02202cb206000000001976a9148280b37df378db99f66f85c95a783a76ac7a6d5988ac9093510d000000001976a9143bde42dbee7e4dbe6a21b2d50ce2f0167faa815988ac11000000";

fn bytes(hex: &str) -> Vec<u8> {
    Bitcoin::parse_hex_str(hex).unwrap()
}

fn outside(tx: &Transaction) -> bitcoin::Transaction {
    bitcoin::Transaction {
        version: bitcoin::transaction::Version(tx.version),
        lock_time: bitcoin::absolute::LockTime::from_consensus(tx.lock_time),
        input: tx
            .input
            .iter()
            .map(|i| bitcoin::TxIn {
                previous_output: bitcoin::OutPoint {
                    txid: <bitcoin::Txid as bitcoin::hashes::Hash>::from_byte_array(
                        i.previous_output.txid,
                    ),
                    vout: i.previous_output.vout,
                },
                script_sig: bitcoin::ScriptBuf::from_bytes(i.script_sig.clone()),
                sequence: bitcoin::Sequence(i.sequence),
                witness: bitcoin::Witness::from_slice(&i.witness),
            })
            .collect(),
        output: tx
            .output
            .iter()
            .map(|o| bitcoin::TxOut {
                value: bitcoin::Amount::from_sat(o.value),
                script_pubkey: bitcoin::ScriptBuf::from_bytes(o.script_pubkey.clone()),
            })
            .collect(),
    }
}

fn input(seed: u8, script_len: usize, witness: Vec<Vec<u8>>) -> TxIn {
    let mut txid = [0u8; 32];
    for (k, b) in txid.iter_mut().enumerate() {
        *b = seed.wrapping_mul(7).wrapping_add(k as u8);
    }
    TxIn {
        previous_output: OutPoint { txid, vout: seed as u32 * 3 },
        script_sig: vec![seed; script_len],
        sequence: 0xffff_fff0 + seed as u32 % 16,
        witness,
    }
}

fn output(seed: u8, script_len: usize) -> TxOut {
    TxOut { value: 1_000 * seed as u64 + 1, script_pubkey: vec![seed ^ 0x5a; script_len] }
}

fn samples() -> Vec<Transaction> {
    vec![
        Transaction { version: 1, lock_time: 0, input: vec![], output: vec![] },
        Transaction { version: 2, lock_time: 17, input: vec![], output: vec![output(1, 25)] },
        Transaction {
            version: 1,
            lock_time: 500_000,
            input: vec![input(1, 0, vec![])],
            output: vec![output(2, 25)],
        },
        Transaction {
            version: -1,
            lock_time: 0xffff_ffff,
            input: vec![input(1, 107, vec![]), input(2, 0, vec![])],
            output: vec![output(2, 25), output(3, 23), output(4, 0)],
        },
        Transaction {
            version: 2,
            lock_time: 0,
            input: vec![
                input(1, 0, vec![vec![0x30; 71], vec![0x02; 33]]),
                input(2, 23, vec![]),
                input(3, 0, vec![vec![], vec![1], vec![7; 300]]),
            ],
            output: vec![output(9, 34), output(8, 22)],
        },
        Transaction {
            version: i32::MIN,
            lock_time: 1,
            input: (0..300).map(|k| input(k as u8, (k % 5) as usize, vec![])).collect(),
            output: (0..253).map(|k| output(k as u8, 3)).collect(),
        },
        Transaction {
            version: 0x0102_0304,
            lock_time: 0x0a0b_0c0d,
            input: vec![input(5, 70_000, vec![vec![3; 66_000]])],
            output: vec![TxOut { value: u64::MAX, script_pubkey: vec![0x6a; 253] }],
        },
    ]
}

#[test]
fn encoding_has_the_fields_in_order() {
    let tx = Transaction {
        version: 1,
        lock_time: 0x11,
        input: vec![TxIn {
            previous_output: OutPoint { txid: [0xab; 32], vout: 1 },
            script_sig: vec![0x51],
            sequence: 0xffff_ffee,
            witness: vec![],
        }],
        output: vec![TxOut { value: 0x0102, script_pubkey: vec![0x6a, 0x00] }],
    };
    let mut expected = vec![1, 0, 0, 0, 1];
    expected.extend([0xab; 32]);
    expected.extend([1, 0, 0, 0, 1, 0x51, 0xee, 0xff, 0xff, 0xff, 1]);
    expected.extend([0x02, 0x01, 0, 0, 0, 0, 0, 0, 2, 0x6a, 0x00, 0x11, 0, 0, 0]);
    assert_eq!(encode(&tx), expected);
}

#[test]
fn witness_form_has_marker_flag_and_witnesses() {
    let tx = Transaction {
        version: 2,
        lock_time: 0,
        input: vec![TxIn {
            previous_output: OutPoint { txid: [0; 32], vout: 0 },
            script_sig: vec![],
            sequence: 0,
            witness: vec![vec![0xaa, 0xbb], vec![]],
        }],
        output: vec![],
    };
    let mut expected = vec![2, 0, 0, 0, 0, 1, 1];
    expected.extend([0; 32]);
    expected.extend([0, 0, 0, 0, 0, 0, 0, 0, 0, 0]);
    expected.extend([2, 2, 0xaa, 0xbb, 0, 0, 0, 0, 0]);
    assert_eq!(encode(&tx), expected);
    assert_eq!(encode_legacy(&tx).len(), expected.len() - 2 - 5);
}

#[test]
fn encoding_is_that_of_the_network() {
    for tx in samples() {
        assert_eq!(encode(&tx), bitcoin::consensus::serialize(&outside(&tx)));
    }
}

#[test]
fn decoding_gives_back_what_was_encoded() {
    for tx in samples() {
        assert_eq!(decode(&encode(&tx)), Ok(tx));
    }
}

#[test]
fn known_transaction_is_decoded() {
    let tx = decode(&bytes(UNSIGNED)).unwrap();
    assert_eq!(tx.version, 1);
    assert_eq!(tx.lock_time, 17);
    assert_eq!(tx.input.len(), 2);
    assert_eq!(tx.output.len(), 2);
    assert_eq!(tx.input[0].sequence, 0xffff_ffee);
    assert_eq!(tx.input[1].previous_output.vout, 1);
    assert_eq!(tx.output[0].value, 112_340_000);
    assert_eq!(tx.output[1].value, 223_450_000);
    assert_eq!(
        tx.output[0].script_pubkey,
        bytes("76a9148280b37df378db99f66f85c95a783a76ac7a6d5988ac")
    );
    assert_eq!(encode(&tx), bytes(UNSIGNED));
}

fn kind_of(e: &bitcoin::consensus::encode::Error) -> DecodeError {
    match e {
        bitcoin::consensus::encode::Error::Io(_) => DecodeError::UnexpectedEnd,
        bitcoin::consensus::encode::Error::NonMinimalVarInt => DecodeError::NonMinimalVarInt,
        bitcoin::consensus::encode::Error::OversizedVectorAllocation { .. } => {
            DecodeError::OversizedVectorAllocation
        }
        bitcoin::consensus::encode::Error::UnsupportedSegwitFlag(x) => {
            DecodeError::UnsupportedSegwitFlag(*x)
        }
        bitcoin::consensus::encode::Error::ParseFailed(text) => {
            if text.contains("witness") {
                DecodeError::NoWitnesses
            } else {
                DecodeError::TrailingData
            }
        }
        _ => panic!("an error that the reader never gives"),
    }
}

fn agrees(data: &[u8]) {
    let ours = decode(data);
    let theirs: Result<bitcoin::Transaction, _> = bitcoin::consensus::deserialize(data);
    match (ours, theirs) {
        (Ok(a), Ok(b)) => {
            assert_eq!(outside(&a), b);
            // What is read is what was written, and can be read again.
            assert_eq!(encode(&a), data);
            assert!(is_readable(&a));
        }
        (Err(a), Err(b)) => assert_eq!(a, kind_of(&b), "bytes {:?}", data),
        (a, b) => panic!("{:?} against {:?} for {:?}", a, b.is_ok(), data),
    }
}

#[test]
fn every_prefix_is_judged_as_the_network_judges() {
    for tx in samples().into_iter().take(5) {
        let data = encode(&tx);
        for end in 0..data.len() {
            assert!(decode(&data[..end]).is_err());
            agrees(&data[..end]);
        }
    }
}

#[test]
fn every_changed_byte_is_judged_as_the_network_judges() {
    for tx in samples().into_iter().take(5) {
        let data = encode(&tx);
        for at in 0..data.len() {
            for change in [1u8, 0x80, 0xfd, 0xff] {
                let mut changed = data.clone();
                changed[at] ^= change;
                agrees(&changed);
            }
        }
    }
}

#[test]
fn arbitrary_bytes_are_judged_as_the_network_judges() {
    let mut state: u64 = 0x1234_5678_9abc_def0;
    for round in 0..4000 {
        let len = (round % 90) as usize;
        let mut data = Vec::with_capacity(len);
        for _ in 0..len {
            state = state.wrapping_mul(6364136223846793005).wrapping_add(1442695040888963407);
            let b = (state >> 56) as u8;
            // Small numbers are what counts and lengths are made of.
            data.push(if b % 3 == 0 { b % 4 } else { b });
        }
        agrees(&data);
    }
}

#[test]
fn truncated_bytes_are_refused() {
    let data = bytes(UNSIGNED);
    assert_eq!(decode(&data[..data.len() - 1]), Err(DecodeError::UnexpectedEnd));
    assert_eq!(decode(&[]), Err(DecodeError::UnexpectedEnd));
    assert_eq!(decode(&[1, 0, 0]), Err(DecodeError::UnexpectedEnd));
}

#[test]
fn trailing_bytes_are_refused() {
    let mut data = bytes(UNSIGNED);
    data.push(0);
    assert_eq!(decode(&data), Err(DecodeError::TrailingData));
}

#[test]
fn other_flags_are_refused() {
    assert_eq!(
        decode(&[1, 0, 0, 0, 0, 2, 0, 0, 0, 0, 0, 0]),
        Err(DecodeError::UnsupportedSegwitFlag(2))
    );
    assert_eq!(decode(&[1, 0, 0, 0, 0, 0]), Err(DecodeError::UnsupportedSegwitFlag(0)));
}

#[test]
fn long_forms_of_a_count_are_refused() {
    // One input announced as fd 01 00.
    let mut data = vec![1, 0, 0, 0, 0xfd, 1, 0];
    data.extend([0; 41]);
    data.extend([0, 0, 0, 0, 0]);
    assert_eq!(decode(&data), Err(DecodeError::NonMinimalVarInt));
    assert_eq!(decode(&[1, 0, 0, 0, 0xfe, 0xff, 0xff, 0, 0]), Err(DecodeError::NonMinimalVarInt));
    assert_eq!(
        decode(&[1, 0, 0, 0, 0xff, 0xff, 0xff, 0xff, 0xff, 0, 0, 0, 0]),
        Err(DecodeError::NonMinimalVarInt)
    );
}

#[test]
fn witness_form_without_witness_is_refused() {
    let tx = Transaction {
        version: 1,
        lock_time: 0,
        input: vec![input(1, 0, vec![])],
        output: vec![output(1, 1)],
    };
    let legacy = encode(&tx);
    let mut data = legacy[..4].to_vec();
    data.extend([0, 1]);
    data.extend(&legacy[4..legacy.len() - 4]);
    data.push(0);
    data.extend(&legacy[legacy.len() - 4..]);
    assert_eq!(decode(&data), Err(DecodeError::NoWitnesses));
    // The lock time is not looked at before that is found.
    assert_eq!(decode(&data[..data.len() - 4]), Err(DecodeError::NoWitnesses));
}

#[test]
fn oversized_witness_is_refused() {
    let tx = Transaction {
        version: 1,
        lock_time: 0,
        input: vec![input(1, 0, vec![vec![1]])],
        output: vec![],
    };
    let good = encode(&tx);
    // The count of items is the fourth byte from the end of the witness.
    let at = good.len() - 4 - 3;
    assert_eq!(&good[at..at + 3], &[1, 1, 1]);
    let mut many = good[..at].to_vec();
    many.extend([0xfe, 0x01, 0x09, 0x3d, 0x00]);
    assert_eq!(decode(&many), Err(DecodeError::OversizedVectorAllocation));
    agrees(&many);
    let mut large = good[..at + 1].to_vec();
    large.extend([0xfe, 0x00, 0x09, 0x3d, 0x00]);
    assert_eq!(decode(&large), Err(DecodeError::OversizedVectorAllocation));
    agrees(&large);
    let mut fits = good[..at + 1].to_vec();
    fits.extend([0xfe, 0xfb, 0x08, 0x3d, 0x00]);
    assert_eq!(decode(&fits), Err(DecodeError::UnexpectedEnd));
    agrees(&fits);
}

#[test]
fn largest_witness_that_is_read_comes_back() {
    let tx = Transaction {
        version: 1,
        lock_time: 0,
        input: vec![input(1, 0, vec![vec![0x55; 4_000_000 - 5]])],
        output: vec![],
    };
    assert_eq!(decode(&encode(&tx)), Ok(tx));
    let over = Transaction {
        version: 1,
        lock_time: 0,
        input: vec![input(1, 0, vec![vec![0x55; 4_000_000 - 4]])],
        output: vec![],
    };
    assert_eq!(decode(&encode(&over)), Err(DecodeError::OversizedVectorAllocation));
}

#[test]
fn editable_form_writes_identifier_in_display_order() {
    let tx = decode(&bytes(UNSIGNED)).unwrap();
    let js = to_editable(&tx);
    assert_eq!(js.version, 1);
    assert_eq!(js.lock_time, 17);
    assert_eq!(
        js.inputs[0].outpoint_tx_id,
        "9f96ade4b41d5433f4eda31e1738ec2b36f6e7d1420d94a6af99801a88f7f7ff"
    );
    assert_eq!(js.inputs[0].outpoint_tx_id, outside(&tx).input[0].previous_output.txid.to_string());
    assert_eq!(js.inputs[0].outpoint_index, 0);
    assert_eq!(js.inputs[0].sequence, 0xffff_ffee);
    assert_eq!(js.inputs[0].script_sig, "");
    assert_eq!(js.inputs[0].witness, Vec::<String>::new());
    assert_eq!(js.outputs[1].amount, 223_450_000);
    assert_eq!(js.outputs[1].script_pub_key, "76a9143bde42dbee7e4dbe6a21b2d50ce2f0167faa815988ac");
}

#[test]
fn editable_form_stands_for_the_transaction() {
    for tx in samples() {
        assert_eq!(from_editable(&to_editable(&tx)), Ok(tx));
    }
}

#[test]
fn version_is_kept_in_full() {
    // The editable form holds the whole signed version, not its low byte.
    for version in [0, 1, 2, 255, 256, 0x1234_5678, -1, i32::MIN, i32::MAX] {
        let tx = Transaction { version, lock_time: 0, input: vec![input(1, 1, vec![])], output: vec![] };
        let js = to_editable(&tx);
        assert_eq!(js.version, version);
        assert_eq!(from_editable(&js).unwrap().version, version);
    }
}

fn editable() -> JsTx {
    JsTx {
        version: 1,
        lock_time: 0,
        inputs: vec![JsTxIn {
            outpoint_tx_id: "00 01020304050607 08090a0b0c0d0e0f 101112131415161718191a1b1c1d1e1f"
                .to_string(),
            outpoint_index: 2,
            sequence: 3,
            script_sig: "51 52".to_string(),
            witness: vec!["AA".to_string(), "".to_string()],
        }],
        outputs: vec![JsTxOut { amount: 5, script_pub_key: "6A".to_string() }],
    }
}

#[test]
fn editable_form_is_read_with_white_space_and_capitals() {
    let tx = from_editable(&editable()).unwrap();
    let mut txid = [0u8; 32];
    for (k, b) in txid.iter_mut().enumerate() {
        *b = 31 - k as u8;
    }
    assert_eq!(tx.input[0].previous_output, OutPoint { txid, vout: 2 });
    assert_eq!(tx.input[0].script_sig, vec![0x51, 0x52]);
    assert_eq!(tx.input[0].witness, vec![vec![0xaa], vec![]]);
    assert_eq!(tx.output[0], TxOut { value: 5, script_pubkey: vec![0x6a] });
}

#[test]
fn short_identifier_is_refused() {
    let mut js = editable();
    js.inputs[0].outpoint_tx_id = "00".to_string();
    assert_eq!(from_editable(&js), Err(Error::InvalidOutpointId));
    js.inputs[0].outpoint_tx_id = "00".repeat(33);
    assert_eq!(from_editable(&js), Err(Error::InvalidOutpointId));
    js.inputs[0].outpoint_tx_id = "".to_string();
    assert_eq!(from_editable(&js), Err(Error::InvalidOutpointId));
}

#[test]
fn first_unreadable_field_decides() {
    let mut js = editable();
    js.outputs[0].script_pub_key = "6".to_string();
    assert_eq!(from_editable(&js), Err(Error::MalformedHex(HexError::OddLength)));
    js.inputs[0].witness[1] = "zz".to_string();
    assert_eq!(
        from_editable(&js),
        Err(Error::MalformedHex(HexError::InvalidHexCharacter { c: 'z', index: 0 }))
    );
    js.inputs[0].script_sig = "q1".to_string();
    assert_eq!(
        from_editable(&js),
        Err(Error::MalformedHex(HexError::InvalidHexCharacter { c: 'q', index: 0 }))
    );
    js.inputs[0].outpoint_tx_id = "12".to_string();
    assert_eq!(from_editable(&js), Err(Error::InvalidOutpointId));
}

#[test]
fn editable_transaction_is_encoded() {
    let tx = decode(&bytes(UNSIGNED)).unwrap();
    assert_eq!(TxBuilder::json_to_tx_hex(&to_editable(&tx)), Ok(UNSIGNED.to_string()));
    let mut js = editable();
    js.inputs[0].outpoint_tx_id = "xy".to_string();
    assert_eq!(
        TxBuilder::json_to_tx_hex(&js),
        Err(Error::MalformedHex(HexError::InvalidHexCharacter { c: 'x', index: 0 }))
    );
}

#[test]
fn encoded_transaction_is_made_editable() {
    let js = TxBuilder::tx_hex_to_json(UNSIGNED).unwrap();
    assert_eq!(js, to_editable(&decode(&bytes(UNSIGNED)).unwrap()));
    assert_eq!(TxBuilder::json_to_tx_hex(&js), Ok(UNSIGNED.to_string()));
    assert_eq!(
        TxBuilder::tx_hex_to_json(&UNSIGNED[..UNSIGNED.len() - 2]),
        Err(Error::InvalidTransaction(DecodeError::UnexpectedEnd))
    );
    assert_eq!(
        TxBuilder::tx_hex_to_json("0100000000020000000000"),
        Err(Error::InvalidTransaction(DecodeError::UnsupportedSegwitFlag(2)))
    );
    assert_eq!(
        TxBuilder::tx_hex_to_json(&UNSIGNED[..UNSIGNED.len() - 1]),
        Err(Error::MalformedHex(HexError::OddLength))
    );
}

#[test]
fn readable_transactions_are_told_apart() {
    for tx in samples() {
        assert!(is_readable(&tx));
    }
    let with = |witness: Vec<Vec<u8>>| Transaction {
        version: 1,
        lock_time: 0,
        input: vec![input(1, 0, vec![]), input(2, 0, witness)],
        output: vec![],
    };
    for (witness, fits) in [
        (vec![vec![0u8; 4_000_000 - 5]], true),
        (vec![vec![0u8; 4_000_000 - 4]], false),
        (vec![vec![]; 4_000_000], true),
        (vec![vec![]; 4_000_001], false),
        (vec![vec![0u8; 1_999_995], vec![0u8; 1_999_995]], true),
        (vec![vec![0u8; 1_999_995], vec![0u8; 1_999_996]], false),
    ] {
        assert_eq!(witness_fits(&witness), fits);
        let tx = with(witness);
        assert_eq!(is_readable(&tx), fits);
        assert_eq!(decode(&encode(&tx)).is_ok(), fits);
    }
}

#[test]
fn length_of_a_count() {
    for (n, len) in [
        (0u64, 1u64),
        (0xfc, 1),
        (0xfd, 3),
        (0xffff, 3),
        (0x1_0000, 5),
        (0xffff_ffff, 5),
        (0x1_0000_0000, 9),
        (u64::MAX, 9),
    ] {
        assert_eq!(compact_size_len(n), len);
        let mut out = Vec::new();
        btc_tools::wire::put_compact_size(&mut out, n);
        assert_eq!(out.len() as u64, len);
        assert_eq!(btc_tools::wire::get_compact_size(&out, 0), Ok((n, out.len())));
        assert_eq!(out, bitcoin::consensus::serialize(&bitcoin::VarInt(n)));
    }
}

#[test]
fn integers_are_written_low_byte_first() {
    let mut out = Vec::new();
    btc_tools::wire::put_u16(&mut out, 0x0102);
    btc_tools::wire::put_u32(&mut out, 0x0304_0506);
    btc_tools::wire::put_u64(&mut out, 0x0708_090a_0b0c_0d0e);
    btc_tools::wire::put_i32(&mut out, -2);
    assert_eq!(
        out,
        vec![2, 1, 6, 5, 4, 3, 0x0e, 0x0d, 0x0c, 0x0b, 0x0a, 9, 8, 7, 0xfe, 0xff, 0xff, 0xff]
    );
    assert_eq!(btc_tools::wire::get_u16(&out, 0), Ok((0x0102, 2)));
    assert_eq!(btc_tools::wire::get_u32(&out, 2), Ok((0x0304_0506, 6)));
    assert_eq!(btc_tools::wire::get_u64(&out, 6), Ok((0x0708_090a_0b0c_0d0e, 14)));
    assert_eq!(btc_tools::wire::get_i32(&out, 14), Ok((-2, 18)));
    assert_eq!(btc_tools::wire::get_i32(&out, 15), Err(DecodeError::UnexpectedEnd));
    assert_eq!(btc_tools::wire::get_u8(&out, 18), Err(DecodeError::UnexpectedEnd));
    assert_eq!(btc_tools::wire::get_u8(&out, usize::MAX), Err(DecodeError::UnexpectedEnd));
}
