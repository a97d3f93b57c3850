//! Hexadecimal text: the form in which every byte string crosses the
//! boundary of this library.
//!
//! Reading tolerates white space anywhere in the text and is otherwise strict:
//! an even number of digits, each of `0-9`, `a-f` or `A-F`.  Writing always
//! produces lower-case digits.

use vstd::prelude::*;
use vstd::std_specs::iter::IteratorSpec;
use vstd::utf8::*;

verus! {

/// Why a text is not a hexadecimal byte string.
#[derive(Debug, Clone, Copy, PartialEq, Eq)]
pub enum HexError {
    /// A byte of the text that is no hexadecimal digit, with its position
    /// among the bytes of the text.
    InvalidHexCharacter { c: char, index: usize },
    /// The text has an odd number of bytes.
    OddLength,
    /// The text does not fill a container of fixed size.
    InvalidStringLength,
}

/// The code points that carry the Unicode property `White_Space`.
pub open spec fn is_whitespace_char(c: char) -> bool {
    let n = c as u32;
    ||| 0x09 <= n <= 0x0d
    ||| n == 0x20
    ||| n == 0x85
    ||| n == 0xa0
    ||| n == 0x1680
    ||| 0x2000 <= n <= 0x200a
    ||| n == 0x2028
    ||| n == 0x2029
    ||| n == 0x202f
    ||| n == 0x205f
    ||| n == 0x3000
}

/// The text that is left when every white-space character is taken out.
pub open spec fn without_whitespace(text: Seq<char>) -> Seq<char> {
    text.filter(|c: char| !is_whitespace_char(c))
}

pub open spec fn is_hex_digit(b: u8) -> bool {
    ||| 0x30 <= b <= 0x39
    ||| 0x41 <= b <= 0x46
    ||| 0x61 <= b <= 0x66
}

/// The number that a hexadecimal digit stands for.
pub open spec fn hex_digit_value(b: u8) -> int {
    if 0x30 <= b <= 0x39 {
        b - 0x30
    } else if 0x41 <= b <= 0x46 {
        b - 0x41 + 10
    } else {
        b - 0x61 + 10
    }
}

/// The lower-case digit for a number below 16.
pub open spec fn hex_digit_char(n: int) -> char {
    if n < 10 {
        (0x30 + n) as u8 as char
    } else {
        (0x61 + n - 10) as u8 as char
    }
}

/// The position of the first byte at or after `from` that is no hexadecimal
/// digit; the length of `text` if there is none.
pub open spec fn first_non_hex(text: Seq<u8>, from: int) -> int
    decreases text.len() - from,
{
    if from < 0 || from >= text.len() {
        text.len() as int
    } else if !is_hex_digit(text[from]) {
        from
    } else {
        first_non_hex(text, from + 1)
    }
}

/// The bytes that a text of hexadecimal digits stands for, two digits to a
/// byte, the high one first.
pub open spec fn hex_bytes(text: Seq<u8>) -> Seq<u8> {
    Seq::new(
        text.len() / 2,
        |k: int| (16 * hex_digit_value(text[2 * k]) + hex_digit_value(text[2 * k + 1])) as u8,
    )
}

/// What strict decoding makes of the bytes of a text.  An odd length is
/// reported before any bad digit, and of several bad digits the first.
pub open spec fn hex_decoding(text: Seq<u8>) -> Result<Seq<u8>, HexError> {
    let bad = first_non_hex(text, 0);
    if text.len() % 2 != 0 {
        Err(HexError::OddLength)
    } else if bad < text.len() {
        Err(HexError::InvalidHexCharacter { c: text[bad] as char, index: bad as usize })
    } else {
        Ok(hex_bytes(text))
    }
}

/// The lower-case hexadecimal text of a byte string.
pub open spec fn hex_text(data: Seq<u8>) -> Seq<char> {
    Seq::new(
        2 * data.len(),
        |i: int|
            if i % 2 == 0 {
                hex_digit_char(data[i / 2] as int / 16)
            } else {
                hex_digit_char(data[i / 2] as int % 16)
            },
    )
}

/// What lenient decoding makes of a text: white space is dropped, and the
/// bytes of what is left are decoded strictly.
pub open spec fn parse_hex(text: Seq<char>) -> Result<Seq<u8>, HexError> {
    hex_decoding(encode_utf8(without_whitespace(text)))
}

/// The view of a decoding result.
pub open spec fn hex_result_view(r: Result<Vec<u8>, HexError>) -> Result<Seq<u8>, HexError> {
    match r {
        Ok(v) => Ok(v@),
        Err(e) => Err(e),
    }
}

/// Calls `hex::decode` on the text.  That function looks at the bytes of the
/// text, which are its UTF-8 encoding: an odd number of them is `OddLength`; otherwise the first byte that
/// is no digit is reported with its position; otherwise each pair of digits
/// gives one byte.  Its three error variants are carried over one for one.
#[verifier::external_body]
fn hex_decode(text: &str) -> (r: Result<Vec<u8>, HexError>)
    ensures
        hex_result_view(r) == hex_decoding(encode_utf8(text@)),
{
    match hex::decode(text) {
        Ok(v) => Ok(v),
        Err(hex::FromHexError::InvalidHexCharacter { c, index }) => Err(
            HexError::InvalidHexCharacter { c, index },
        ),
        Err(hex::FromHexError::OddLength) => Err(HexError::OddLength),
        Err(hex::FromHexError::InvalidStringLength) => Err(HexError::InvalidStringLength),
    }
}

/// Calls `hex::encode` on the bytes.  That function writes two lower-case
/// digits for each byte, the high four bits first.
#[verifier::external_body]
pub(crate) fn hex_encode(data: &[u8]) -> (r: String)
    ensures
        r@ == hex_text(data@),
{
    hex::encode(data)
}

/// Calls `String::push`, which appends one character to the string.
#[verifier::external_body]
pub(crate) fn string_push(s: &mut String, c: char)
    ensures
        final(s)@ == old(s)@.push(c),
{
    s.push(c)
}

/// Tells whether a character is white space.
pub fn is_whitespace(c: char) -> (r: bool)
    ensures
        r == is_whitespace_char(c),
{
    let n: u32 = c as u32;
    (0x09 <= n && n <= 0x0d) || n == 0x20 || n == 0x85 || n == 0xa0 || n == 0x1680 || (0x2000 <= n
        && n <= 0x200a) || n == 0x2028 || n == 0x2029 || n == 0x202f || n == 0x205f || n == 0x3000
}

/// Copies a text without its white space.
pub fn strip_whitespace(text: &str) -> (r: String)
    ensures
        r@ == without_whitespace(text@),
{
    let mut out = String::new();
    let mut chars = text.chars();
    let ghost mut seen: Seq<char> = Seq::empty();
    proof {
        reveal(Seq::filter);
    }
    loop
        invariant
            seen + chars.remaining() == text@,
            out@ == without_whitespace(seen),
            chars.obeys_prophetic_iter_laws(),
            chars.decrease() is Some,
        decreases chars.decrease()->0,
    {
        let ghost before = chars;
        match chars.next() {
            Some(c) => {
                proof {
                    reveal(Seq::filter);
                    let grown = seen.push(c);
                    assert(grown.drop_last() == seen);
                    assert(grown + chars.remaining() == text@);
                    seen = grown;
                }
                if !is_whitespace(c) {
                    string_push(&mut out, c);
                }
            },
            None => {
                proof {
                    assert(seen == text@);
                }
                return out;
            },
        }
    }
}

/// Parses hexadecimal text, ignoring all white space.
pub fn parse_hex_lossy(text: &str) -> (r: Result<Vec<u8>, HexError>)
    ensures
        hex_result_view(r) == parse_hex(text@),
{
    let filtered = strip_whitespace(text);
    hex_decode(filtered.as_str())
}


/// A text that holds no white space is left as it is.
pub proof fn lemma_without_whitespace_of_plain(text: Seq<char>)
    requires
        forall|i: int| 0 <= i < text.len() ==> !is_whitespace_char(#[trigger] text[i]),
    ensures
        without_whitespace(text) == text,
    decreases text.len(),
{
    reveal(Seq::filter);
    if text.len() > 0 {
        lemma_without_whitespace_of_plain(text.drop_last());
        assert(text.drop_last().push(text.last()) =~= text);
    }
}

/// Of a text that holds white space only, nothing is left.
pub proof fn lemma_without_whitespace_of_blank(text: Seq<char>)
    requires
        forall|i: int| 0 <= i < text.len() ==> is_whitespace_char(#[trigger] text[i]),
    ensures
        without_whitespace(text) == Seq::<char>::empty(),
    decreases text.len(),
{
    reveal(Seq::filter);
    if text.len() > 0 {
        lemma_without_whitespace_of_blank(text.drop_last());
    }
}

/// The digit for a number below 16 is an ASCII character, is no white space
/// and stands for that number.
pub proof fn lemma_hex_digit_char(n: int)
    requires
        0 <= n < 16,
    ensures
        '\0' <= hex_digit_char(n) <= '\u{7f}',
        !is_whitespace_char(hex_digit_char(n)),
        is_hex_digit(hex_digit_char(n) as u8),
        hex_digit_value(hex_digit_char(n) as u8) == n,
{
}

/// In a text of digits no position holds anything else.
pub proof fn lemma_first_non_hex_of_digits(text: Seq<u8>, from: int)
    requires
        0 <= from <= text.len(),
        forall|i: int| from <= i < text.len() ==> is_hex_digit(#[trigger] text[i]),
    ensures
        first_non_hex(text, from) == text.len(),
    decreases text.len() - from,
{
    if from < text.len() {
        lemma_first_non_hex_of_digits(text, from + 1);
    }
}

/// Reading the text that was written for a byte string gives the byte
/// string back.
pub proof fn lemma_parse_hex_of_hex_text(data: Seq<u8>)
    ensures
        parse_hex(hex_text(data)) == Ok::<Seq<u8>, HexError>(data),
{
    let text = hex_text(data);
    assert forall|i: int| 0 <= i < text.len() implies !is_whitespace_char(#[trigger] text[i])
        && '\0' <= text[i] <= '\u{7f}' && is_hex_digit(text[i] as u8) by {
        lemma_hex_digit_char(data[i / 2] as int / 16);
        lemma_hex_digit_char(data[i / 2] as int % 16);
    }
    lemma_without_whitespace_of_plain(text);
    assert(is_ascii_chars(text));
    is_ascii_chars_encode_utf8(text);
    let bytes = encode_utf8(text);
    assert forall|i: int| 0 <= i < bytes.len() implies is_hex_digit(#[trigger] bytes[i]) by {
        assert(bytes[i] == text[i] as u8);
    }
    lemma_first_non_hex_of_digits(bytes, 0);
    assert forall|k: int| 0 <= k < data.len() implies #[trigger] hex_bytes(bytes)[k] == data[k] by {
        lemma_hex_digit_char(data[k] as int / 16);
        lemma_hex_digit_char(data[k] as int % 16);
        assert(bytes[2 * k] == text[2 * k] as u8);
        assert(bytes[2 * k + 1] == text[2 * k + 1] as u8);
        assert(text[2 * k] == hex_digit_char(data[k] as int / 16));
        assert(text[2 * k + 1] == hex_digit_char(data[k] as int % 16));
    }
    assert(hex_bytes(bytes) =~= data);
}

/// White space changes nothing, wherever in the text it stands.
pub proof fn lemma_parse_hex_ignores_whitespace(head: Seq<char>, gap: Seq<char>, tail: Seq<char>)
    requires
        forall|i: int| 0 <= i < gap.len() ==> is_whitespace_char(#[trigger] gap[i]),
    ensures
        parse_hex(head + gap + tail) == parse_hex(head + tail),
{
    let keep = |c: char| !is_whitespace_char(c);
    Seq::filter_distributes_over_add(head + gap, tail, keep);
    Seq::filter_distributes_over_add(head, gap, keep);
    Seq::filter_distributes_over_add(head, tail, keep);
    lemma_without_whitespace_of_blank(gap);
    assert(head.filter(keep) + Seq::<char>::empty() =~= head.filter(keep));
}

} // verus!
