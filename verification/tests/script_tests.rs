use btc_tools::script::{
    new_op_return, new_p2pkh, new_p2sh, new_p2wpkh, new_p2wsh, witness_version_of, Builder,
};
use btc_tools::{classify, extract_op_return, Bitcoin, ScriptType, ScriptsBuilderExt};

fn bytes(hex: &str) -> Vec<u8> {
    Bitcoin::parse_hex_str(hex).unwrap()
}

fn outside_type(script: &[u8]) -> Option<ScriptType> {
    let s = bitcoin::Script::from_bytes(script);
    if s.is_empty() {
        Some(ScriptType::Empty)
    } else if s.is_p2sh() {
        Some(ScriptType::P2sh)
    } else if s.is_p2tr() {
        Some(ScriptType::P2tr)
    } else if s.is_p2wpkh() {
        Some(ScriptType::P2wpkh)
    } else if s.is_p2wsh() {
        Some(ScriptType::P2wsh)
    } else if s.is_p2pkh() {
        Some(ScriptType::P2pkh)
    } else if s.is_p2pk() {
        Some(ScriptType::P2pk)
    } else if s.is_op_return() {
        Some(ScriptType::OpReturn)
    } else if s.is_witness_program() {
        Some(ScriptType::WitnessProgram)
    } else {
        None
    }
}

#[test]
fn empty_script_is_empty() {
    assert_eq!(classify(&[]), Some(ScriptType::Empty));
}

#[test]
fn classifies_each_standard_form() {
    let cases: Vec<(&str, Option<ScriptType>)> = vec![
        ("", Some(ScriptType::Empty)),
        ("a914748284390f9e263a4b766a75d0633c50426eb87587", Some(ScriptType::P2sh)),
        (
            "5120a60869f0dbcf1dc659c9cecbaf8050135ea9e8cdc487053f1dc6880949dc684c",
            Some(ScriptType::P2tr),
        ),
        ("00141d0f172a0ecb48aee1be1f2687d2963ae33f71a1", Some(ScriptType::P2wpkh)),
        (
            "00201863143c14c5166804bd19203356da136c985678cd4d27a1b8c6329604903262",
            Some(ScriptType::P2wsh),
        ),
        ("76a9148280b37df378db99f66f85c95a783a76ac7a6d5988ac", Some(ScriptType::P2pkh)),
        (
            "2102d0de0aaeaefad02b8bdc8a01a1b8b11c696bd3d66a2c5f10780d95b7df42645cac",
            Some(ScriptType::P2pk),
        ),
        ("6a0548656c6c6f", Some(ScriptType::OpReturn)),
        ("6a", Some(ScriptType::OpReturn)),
        ("5210aabbccddeeff00112233445566778899", Some(ScriptType::WitnessProgram)),
        ("51", None),
        ("76a914", None),
    ];
    for (hex, expected) in cases {
        let script = bytes(hex);
        assert_eq!(classify(&script), expected, "script {}", hex);
        assert_eq!(classify(&script), outside_type(&script), "script {}", hex);
    }
}

#[test]
fn classification_agrees_on_every_short_prefix_pattern() {
    // Scripts of the lengths at which the forms live, with each first byte.
    for len in [1usize, 4, 22, 23, 25, 34, 35, 42, 43, 67] {
        for first in 0u16..=255 {
            for second in [0x00u8, 0x02, 0x14, 0x20, 0x21, 0x28, 0x29, 0x41, 0xa9] {
                let mut script = vec![0xacu8; len];
                script[0] = first as u8;
                if len > 1 {
                    script[1] = second;
                }
                if len > 2 {
                    script[2] = 0x14;
                }
                if len == 23 {
                    script[22] = 0x87;
                }
                if len == 25 {
                    script[23] = 0x88;
                }
                assert_eq!(classify(&script), outside_type(&script), "script {:?}", script);
            }
        }
    }
}

#[test]
fn witness_version_is_read() {
    assert_eq!(witness_version_of(&bytes("00141d0f172a0ecb48aee1be1f2687d2963ae33f71a1")), Some(0));
    assert_eq!(witness_version_of(&bytes("5210aabbccddeeff00112233445566778899")), Some(2));
    assert_eq!(witness_version_of(&bytes("6010aabbccddeeff00112233445566778899")), Some(16));
    assert_eq!(witness_version_of(&bytes("6110aabbccddeeff00112233445566778899")), None);
    assert_eq!(witness_version_of(&bytes("0014")), None);
}

#[test]
fn key_hash_witness_script_is_p2wpkh() {
    let script = new_p2wpkh(&[0x11; 20]);
    assert_eq!(script.len(), 22);
    assert_eq!(classify(&script), Some(ScriptType::P2wpkh));
}

#[test]
fn script_hash_witness_script_is_p2wsh() {
    let script = new_p2wsh(&[0x22; 32]);
    assert_eq!(script.len(), 34);
    assert_eq!(classify(&script), Some(ScriptType::P2wsh));
    let made = btc_tools::TxBuilder::create_p2wsh_script_pubkey("51").unwrap();
    assert_eq!(classify(&bytes(&made)), Some(ScriptType::P2wsh));
}

#[test]
fn built_scripts_have_their_forms() {
    assert_eq!(classify(&new_p2sh(&[7; 20])), Some(ScriptType::P2sh));
    assert_eq!(classify(&new_p2pkh(&[7; 20])), Some(ScriptType::P2pkh));
    assert_eq!(classify(&new_op_return(b"abc")), Some(ScriptType::OpReturn));
    assert_eq!(new_p2pkh(&[7; 20]), bytes("76a914070707070707070707070707070707070707070788ac"));
}

#[test]
fn extracts_payload_of_direct_push() {
    let script = bytes("6a0548656c6c6f");
    assert_eq!(extract_op_return(&script), Some(&b"Hello"[..]));
}

#[test]
fn extracts_payload_of_pushdata1() {
    let script = bytes("6a4c0548656c6c6f");
    assert_eq!(extract_op_return(&script), Some(&b"Hello"[..]));
}

#[test]
fn marker_with_zero_push_has_no_payload() {
    assert_eq!(extract_op_return(&bytes("6a00")), None);
}

#[test]
fn bare_marker_has_no_payload() {
    assert_eq!(extract_op_return(&bytes("6a")), None);
}

#[test]
fn short_pushdata1_has_no_payload() {
    assert_eq!(extract_op_return(&bytes("6a4c09aabbcc")), None);
    assert_eq!(extract_op_return(&bytes("6a4c")), None);
}

#[test]
fn short_direct_push_has_no_payload() {
    assert_eq!(extract_op_return(&bytes("6a05486565")), None);
}

#[test]
fn other_push_forms_have_no_payload() {
    assert_eq!(extract_op_return(&bytes("6a4d0500aabbccddee")), None);
    assert_eq!(extract_op_return(&bytes("6a4e05000000aabbccddee")), None);
    assert_eq!(extract_op_return(&bytes("6a51")), None);
}

#[test]
fn script_without_marker_has_no_payload() {
    assert_eq!(extract_op_return(&bytes("0548656c6c6f")), None);
    assert_eq!(extract_op_return(&[]), None);
}

#[test]
fn payload_is_not_trimmed() {
    let script = bytes("6a03000020ffff");
    assert_eq!(extract_op_return(&script), Some(&[0u8, 0, 0x20][..]));
}

#[test]
fn longest_direct_push_is_extracted() {
    let mut script = vec![0x6a, 75];
    script.extend(vec![9u8; 75]);
    assert_eq!(extract_op_return(&script), Some(&vec![9u8; 75][..]));
}

#[test]
fn payload_of_built_script_comes_back() {
    let short = new_op_return(&[5u8; 10]);
    assert_eq!(extract_op_return(&short), Some(&[5u8; 10][..]));
    let long = new_op_return(&[6u8; 200]);
    assert_eq!(long[1], 0x4c);
    assert_eq!(extract_op_return(&long), Some(&[6u8; 200][..]));
    let longer = new_op_return(&[6u8; 300]);
    assert_eq!(longer[1], 0x4d);
    assert_eq!(extract_op_return(&longer), None);
}

#[test]
fn push_uses_the_shortest_form() {
    let cases: Vec<(usize, Vec<u8>)> = vec![
        (0, vec![0x00]),
        (1, vec![0x01]),
        (75, vec![0x4b]),
        (76, vec![0x4c, 76]),
        (255, vec![0x4c, 255]),
        (256, vec![0x4d, 0x00, 0x01]),
        (65535, vec![0x4d, 0xff, 0xff]),
        (65536, vec![0x4e, 0x00, 0x00, 0x01, 0x00]),
    ];
    for (len, prefix) in cases {
        let data = vec![0xabu8; len];
        let script = Builder::new().push_slice(&data).into_bytes();
        let mut expected = prefix.clone();
        expected.extend(&data);
        assert_eq!(script, expected, "push of {} bytes", len);
        let mut outside = bitcoin::ScriptBuf::new();
        outside.push_slice(<&bitcoin::script::PushBytes>::try_from(&data[..]).unwrap());
        assert_eq!(script, outside.into_bytes());
    }
}

#[test]
fn builder_appends_in_order() {
    let b = Builder::from_bytes(vec![1, 2]).push_opcode(0x76).push_slice_try_from(&[9, 9]).unwrap();
    assert_eq!(b.into_bytes(), vec![1, 2, 0x76, 2, 9, 9]);
}
