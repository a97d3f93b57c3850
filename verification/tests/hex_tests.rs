use btc_tools::error::Error;
use btc_tools::hexstr::{is_whitespace, parse_hex_lossy, strip_whitespace, HexError};
use btc_tools::{Bitcoin, TxBuilder};

#[test]
fn spaces_do_not_change_what_is_read() {
    assert_eq!(parse_hex_lossy("4f 4f"), Ok(vec![0x4f, 0x4f]));
    assert_eq!(parse_hex_lossy("4f 4f"), parse_hex_lossy("4f4f"));
}

#[test]
fn every_kind_of_white_space_is_dropped() {
    assert_eq!(parse_hex_lossy(" 0\t1\n0\r2\u{a0}0\u{2003}3\u{3000}"), Ok(vec![1, 2, 3]));
    assert_eq!(strip_whitespace(" a\u{2028}b \u{85}"), "ab");
}

#[test]
fn white_space_is_what_the_standard_library_says() {
    for code in 0u32..0x11_0000 {
        if let Some(c) = char::from_u32(code) {
            assert_eq!(is_whitespace(c), c.is_whitespace(), "character {:x}", code);
        }
    }
}

#[test]
fn both_cases_of_digits_are_read() {
    assert_eq!(parse_hex_lossy("00ff7FaBcD"), Ok(vec![0x00, 0xff, 0x7f, 0xab, 0xcd]));
    assert_eq!(parse_hex_lossy(""), Ok(vec![]));
}

#[test]
fn odd_length_is_refused() {
    assert_eq!(parse_hex_lossy("abc"), Err(HexError::OddLength));
    assert_eq!(parse_hex_lossy("a b c"), Err(HexError::OddLength));
    // The length is judged before the digits are.
    assert_eq!(parse_hex_lossy("zzz"), Err(HexError::OddLength));
}

#[test]
fn first_bad_digit_is_reported() {
    assert_eq!(
        parse_hex_lossy("0g1h"),
        Err(HexError::InvalidHexCharacter { c: 'g', index: 1 })
    );
    assert_eq!(
        parse_hex_lossy("  00 xx"),
        Err(HexError::InvalidHexCharacter { c: 'x', index: 2 })
    );
}

#[test]
fn text_that_is_not_ascii_is_refused() {
    // Two bytes in UTF-8, so the length is even and the first byte is bad.
    assert_eq!(
        parse_hex_lossy("\u{e9}"),
        Err(HexError::InvalidHexCharacter { c: '\u{c3}', index: 0 })
    );
    // Three bytes in UTF-8.
    assert_eq!(parse_hex_lossy("\u{20ac}"), Err(HexError::OddLength));
}

#[test]
fn parse_hex_str_wraps_the_failure() {
    assert_eq!(Bitcoin::parse_hex_str("0a0b"), Ok(vec![10, 11]));
    assert_eq!(Bitcoin::parse_hex_str("0a0"), Err(Error::MalformedHex(HexError::OddLength)));
    assert_eq!(
        Bitcoin::parse_hex_str("0a0q"),
        Err(Error::MalformedHex(HexError::InvalidHexCharacter { c: 'q', index: 3 }))
    );
}

#[test]
fn written_text_is_read_back() {
    let data: Vec<u8> = (0u16..=255).map(|b| b as u8).collect();
    let text = TxBuilder::split_comma_hex(&hex::encode(&data)).unwrap();
    assert_eq!(text.len(), 1);
    assert_eq!(text[0], hex::encode(&data));
    assert_eq!(Bitcoin::parse_hex_str(&text[0]), Ok(data));
}

#[test]
fn comma_separated_pieces_are_rewritten() {
    assert_eq!(
        TxBuilder::split_comma_hex("AB cd, 01 ,,ff"),
        Ok(vec!["abcd".to_string(), "01".to_string(), "".to_string(), "ff".to_string()])
    );
    assert_eq!(TxBuilder::split_comma_hex(""), Ok(vec!["".to_string()]));
    assert_eq!(TxBuilder::split_comma_hex(","), Ok(vec!["".to_string(), "".to_string()]));
    assert_eq!(TxBuilder::split_comma_hex("00"), Ok(vec!["00".to_string()]));
}

#[test]
fn first_bad_piece_decides() {
    assert_eq!(
        TxBuilder::split_comma_hex("00,abc,zz"),
        Err(Error::MalformedHex(HexError::OddLength))
    );
    assert_eq!(
        TxBuilder::split_comma_hex("00,zz,abc"),
        Err(Error::MalformedHex(HexError::InvalidHexCharacter { c: 'z', index: 0 }))
    );
}

#[test]
fn pieces_are_cut_as_the_standard_library_cuts() {
    for text in ["", ",", "a,b", ",a,", "a,,b,", "no comma", ",,,"] {
        let expected: Vec<String> = text.split(',').map(|s| s.to_string()).collect();
        assert_eq!(btc_tools::api::split_at_commas(text), expected, "text {:?}", text);
    }
}

#[test]
fn error_messages_are_not_empty() {
    let errors = vec![
        Error::MalformedHex(HexError::OddLength),
        Error::InvalidOutpointId,
        Error::InvalidKey,
        Error::UnsupportedSigningScheme,
        Error::UnsupportedDigest,
        Error::InputIndexOutOfRange,
        Error::NotP2wpkhScript,
        Error::PushTooLarge,
        Error::InvalidPublicKey,
        Error::InvalidWif,
        Error::UnknownNetwork,
    ];
    for e in errors {
        assert!(!e.message().is_empty());
    }
    assert_eq!(Error::InvalidKey.message(), "invalid secret key");
}
