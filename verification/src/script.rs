//! Scripts as byte strings: recognising the standard output forms, taking
//! the payload out of a data-carrier output, and writing the few scripts
//! that the library builds.  Nothing here runs a script.

use vstd::prelude::*;
use vstd::slice::slice_subrange;

verus! {

pub const OP_0: u8 = 0x00;

pub const OP_PUSHBYTES_1: u8 = 0x01;

pub const OP_PUSHBYTES_2: u8 = 0x02;

pub const OP_PUSHBYTES_20: u8 = 0x14;

pub const OP_PUSHBYTES_32: u8 = 0x20;

pub const OP_PUSHBYTES_33: u8 = 0x21;

pub const OP_PUSHBYTES_40: u8 = 0x28;

pub const OP_PUSHBYTES_65: u8 = 0x41;

pub const OP_PUSHBYTES_75: u8 = 0x4b;

pub const OP_PUSHDATA1: u8 = 0x4c;

pub const OP_PUSHDATA2: u8 = 0x4d;

pub const OP_PUSHDATA4: u8 = 0x4e;

pub const OP_PUSHNUM_1: u8 = 0x51;

pub const OP_PUSHNUM_16: u8 = 0x60;

pub const OP_RETURN: u8 = 0x6a;

pub const OP_DUP: u8 = 0x76;

pub const OP_EQUAL: u8 = 0x87;

pub const OP_EQUALVERIFY: u8 = 0x88;

pub const OP_HASH160: u8 = 0xa9;

pub const OP_CHECKSIG: u8 = 0xac;

/// The standard forms of an output script, in the order in which they are
/// tried.
#[derive(Debug, Clone, Copy, PartialEq, Eq, Structural)]
pub enum ScriptType {
    Empty,
    P2sh,
    P2tr,
    P2wpkh,
    P2wsh,
    P2pkh,
    P2pk,
    OpReturn,
    WitnessProgram,
}

/// The witness version of a script that is a witness program: a version
/// opcode (`OP_0` or `OP_PUSHNUM_1` to `OP_PUSHNUM_16`), then one direct push
/// of 2 to 40 bytes, and nothing else.
pub open spec fn witness_version(s: Seq<u8>) -> Option<u8> {
    if !(4 <= s.len() <= 42) {
        None
    } else if s[1] < OP_PUSHBYTES_2 || s[1] > OP_PUSHBYTES_40 {
        None
    } else if s.len() - 2 != s[1] {
        None
    } else if s[0] == OP_0 {
        Some(0u8)
    } else if OP_PUSHNUM_1 <= s[0] <= OP_PUSHNUM_16 {
        Some((s[0] - OP_PUSHNUM_1 + 1) as u8)
    } else {
        None
    }
}

/// `OP_HASH160 <20 bytes> OP_EQUAL`
pub open spec fn is_p2sh(s: Seq<u8>) -> bool {
    &&& s.len() == 23
    &&& s[0] == OP_HASH160
    &&& s[1] == OP_PUSHBYTES_20
    &&& s[22] == OP_EQUAL
}

/// `OP_DUP OP_HASH160 <20 bytes> OP_EQUALVERIFY OP_CHECKSIG`
pub open spec fn is_p2pkh(s: Seq<u8>) -> bool {
    &&& s.len() == 25
    &&& s[0] == OP_DUP
    &&& s[1] == OP_HASH160
    &&& s[2] == OP_PUSHBYTES_20
    &&& s[23] == OP_EQUALVERIFY
    &&& s[24] == OP_CHECKSIG
}

/// `<65 bytes> OP_CHECKSIG` or `<33 bytes> OP_CHECKSIG`
pub open spec fn is_p2pk(s: Seq<u8>) -> bool {
    ||| s.len() == 67 && s[0] == OP_PUSHBYTES_65 && s[66] == OP_CHECKSIG
    ||| s.len() == 35 && s[0] == OP_PUSHBYTES_33 && s[34] == OP_CHECKSIG
}

/// `OP_0 <20 bytes>`
pub open spec fn is_p2wpkh(s: Seq<u8>) -> bool {
    s.len() == 22 && witness_version(s) == Some(0u8) && s[1] == OP_PUSHBYTES_20
}

/// `OP_0 <32 bytes>`
pub open spec fn is_p2wsh(s: Seq<u8>) -> bool {
    s.len() == 34 && witness_version(s) == Some(0u8) && s[1] == OP_PUSHBYTES_32
}

/// `OP_PUSHNUM_1 <32 bytes>`
pub open spec fn is_p2tr(s: Seq<u8>) -> bool {
    s.len() == 34 && witness_version(s) == Some(1u8) && s[1] == OP_PUSHBYTES_32
}

/// The script starts with `OP_RETURN`.
pub open spec fn is_op_return(s: Seq<u8>) -> bool {
    s.len() > 0 && s[0] == OP_RETURN
}

pub open spec fn is_witness_program(s: Seq<u8>) -> bool {
    witness_version(s) is Some
}

/// The form of a script: the first of the standard forms that it matches,
/// tried in the order of [`ScriptType`]; `None` if it matches none.
pub open spec fn script_type(s: Seq<u8>) -> Option<ScriptType> {
    if s.len() == 0 {
        Some(ScriptType::Empty)
    } else if is_p2sh(s) {
        Some(ScriptType::P2sh)
    } else if is_p2tr(s) {
        Some(ScriptType::P2tr)
    } else if is_p2wpkh(s) {
        Some(ScriptType::P2wpkh)
    } else if is_p2wsh(s) {
        Some(ScriptType::P2wsh)
    } else if is_p2pkh(s) {
        Some(ScriptType::P2pkh)
    } else if is_p2pk(s) {
        Some(ScriptType::P2pk)
    } else if is_op_return(s) {
        Some(ScriptType::OpReturn)
    } else if is_witness_program(s) {
        Some(ScriptType::WitnessProgram)
    } else {
        None
    }
}

/// The payload of a data-carrier script: the bytes of the one push that
/// follows `OP_RETURN`, where that push is a direct push of 1 to 75 bytes or
/// an `OP_PUSHDATA1` push, and all of its bytes are there.
pub open spec fn op_return_payload(s: Seq<u8>) -> Option<Seq<u8>> {
    if !is_op_return(s) || s.len() < 2 {
        None
    } else if OP_PUSHBYTES_1 <= s[1] <= OP_PUSHBYTES_75 {
        if s.len() - 2 < s[1] {
            None
        } else {
            Some(s.subrange(2, 2 + s[1]))
        }
    } else if s[1] == OP_PUSHDATA1 && s.len() >= 3 {
        if s.len() - 3 < s[2] {
            None
        } else {
            Some(s.subrange(3, 3 + s[2]))
        }
    } else {
        None
    }
}

/// The opcodes that announce a push of `n` bytes, in the shortest form.
pub open spec fn push_prefix(n: nat) -> Seq<u8> {
    if n < 0x4c {
        seq![n as u8]
    } else if n < 0x100 {
        seq![OP_PUSHDATA1, n as u8]
    } else if n < 0x10000 {
        seq![OP_PUSHDATA2, (n % 0x100) as u8, (n / 0x100) as u8]
    } else {
        seq![
            OP_PUSHDATA4,
            (n % 0x100) as u8,
            ((n / 0x100) % 0x100) as u8,
            ((n / 0x10000) % 0x100) as u8,
            (n / 0x1000000) as u8,
        ]
    }
}

/// The instruction that pushes `data`.
pub open spec fn push_data(data: Seq<u8>) -> Seq<u8> {
    push_prefix(data.len()) + data
}

/// More bytes than one push can carry.
pub open spec fn push_limit() -> nat {
    0x1_0000_0000
}

/// `OP_HASH160 <hash> OP_EQUAL`
pub open spec fn p2sh_script(hash: Seq<u8>) -> Seq<u8> {
    seq![OP_HASH160] + push_data(hash) + seq![OP_EQUAL]
}

/// `OP_DUP OP_HASH160 <hash> OP_EQUALVERIFY OP_CHECKSIG`
pub open spec fn p2pkh_script(hash: Seq<u8>) -> Seq<u8> {
    seq![OP_DUP, OP_HASH160] + push_data(hash) + seq![OP_EQUALVERIFY, OP_CHECKSIG]
}

/// `OP_0 <program>`
pub open spec fn witness_v0_script(program: Seq<u8>) -> Seq<u8> {
    seq![OP_0] + push_data(program)
}

/// `OP_RETURN <data>`
pub open spec fn op_return_script(data: Seq<u8>) -> Seq<u8> {
    seq![OP_RETURN] + push_data(data)
}

pub fn witness_version_of(s: &[u8]) -> (r: Option<u8>)
    ensures
        r == witness_version(s@),
{
    let n = s.len();
    if n < 4 || n > 42 {
        return None;
    }
    let push: u8 = s[1];
    if push < OP_PUSHBYTES_2 || push > OP_PUSHBYTES_40 {
        return None;
    }
    if n - 2 != push as usize {
        return None;
    }
    let version: u8 = s[0];
    if version == OP_0 {
        Some(0)
    } else if OP_PUSHNUM_1 <= version && version <= OP_PUSHNUM_16 {
        Some(version - OP_PUSHNUM_1 + 1)
    } else {
        None
    }
}

fn has_witness_form(s: &[u8], len: usize, version: u8, push: u8) -> (r: bool)
    ensures
        r == (s@.len() == len && witness_version(s@) == Some(version) && s@.len() > 1 && s@[1]
            == push),
{
    if s.len() != len {
        return false;
    }
    match witness_version_of(s) {
        Some(v) => v == version && s[1] == push,
        None => false,
    }
}

/// Tells the form of a script.  The forms overlap as byte patterns, so the
/// order in which they are tried is part of the answer.
pub fn classify(s: &[u8]) -> (r: Option<ScriptType>)
    ensures
        r == script_type(s@),
        s@.len() == 0 ==> r == Some(ScriptType::Empty),
{
    let n = s.len();
    if n == 0 {
        Some(ScriptType::Empty)
    } else if n == 23 && s[0] == OP_HASH160 && s[1] == OP_PUSHBYTES_20 && s[22] == OP_EQUAL {
        Some(ScriptType::P2sh)
    } else if has_witness_form(s, 34, 1, OP_PUSHBYTES_32) {
        Some(ScriptType::P2tr)
    } else if has_witness_form(s, 22, 0, OP_PUSHBYTES_20) {
        Some(ScriptType::P2wpkh)
    } else if has_witness_form(s, 34, 0, OP_PUSHBYTES_32) {
        Some(ScriptType::P2wsh)
    } else if n == 25 && s[0] == OP_DUP && s[1] == OP_HASH160 && s[2] == OP_PUSHBYTES_20 && s[23]
        == OP_EQUALVERIFY && s[24] == OP_CHECKSIG {
        Some(ScriptType::P2pkh)
    } else if (n == 67 && s[0] == OP_PUSHBYTES_65 && s[66] == OP_CHECKSIG) || (n == 35 && s[0]
        == OP_PUSHBYTES_33 && s[34] == OP_CHECKSIG) {
        Some(ScriptType::P2pk)
    } else if s[0] == OP_RETURN {
        Some(ScriptType::OpReturn)
    } else if witness_version_of(s).is_some() {
        Some(ScriptType::WitnessProgram)
    } else {
        None
    }
}

impl ScriptType {
    /// The name under which the form is reported.
    pub fn name(&self) -> (r: &'static str)
        ensures
            r@ == script_type_name(*self),
    {
        match self {
            ScriptType::Empty => "Empty",
            ScriptType::P2sh => "P2SH",
            ScriptType::P2tr => "P2TR",
            ScriptType::P2wpkh => "P2WPKH",
            ScriptType::P2wsh => "P2WSH",
            ScriptType::P2pkh => "P2PKH",
            ScriptType::P2pk => "P2PK",
            ScriptType::OpReturn => "OP_RETURN",
            ScriptType::WitnessProgram => "Witness Program",
        }
    }
}

pub open spec fn script_type_name(t: ScriptType) -> Seq<char> {
    match t {
        ScriptType::Empty => "Empty"@,
        ScriptType::P2sh => "P2SH"@,
        ScriptType::P2tr => "P2TR"@,
        ScriptType::P2wpkh => "P2WPKH"@,
        ScriptType::P2wsh => "P2WSH"@,
        ScriptType::P2pkh => "P2PKH"@,
        ScriptType::P2pk => "P2PK"@,
        ScriptType::OpReturn => "OP_RETURN"@,
        ScriptType::WitnessProgram => "Witness Program"@,
    }
}

/// Extract the data from an `OP_RETURN` script.
pub fn extract_op_return(script: &[u8]) -> (r: Option<&[u8]>)
    ensures
        match r {
            Some(data) => op_return_payload(script@) == Some(data@),
            None => op_return_payload(script@) is None,
        },
{
    let n = script.len();
    if n == 0 || script[0] != OP_RETURN {
        return None;
    }
    if n < 2 {
        return None;
    }
    let push: u8 = script[1];
    if OP_PUSHBYTES_1 <= push && push <= OP_PUSHBYTES_75 {
        let pushed_len: usize = push as usize;
        if n - 2 < pushed_len {
            return None;
        }
        return Some(slice_subrange(script, 2, 2 + pushed_len));
    }
    if n < 3 {
        return None;
    }
    if push == OP_PUSHDATA1 {
        let len: usize = script[2] as usize;
        if n - 3 < len {
            return None;
        }
        return Some(slice_subrange(script, 3, 3 + len));
    }
    None
}

/// A script under construction.
pub struct Builder {
    bytes: Vec<u8>,
}

impl View for Builder {
    type V = Seq<u8>;

    closed spec fn view(&self) -> Seq<u8> {
        self.bytes@
    }
}

impl Builder {
    /// An empty script.
    pub fn new() -> (r: Builder)
        ensures
            r@ == Seq::<u8>::empty(),
    {
        Builder { bytes: Vec::new() }
    }

    /// Continues an existing script.
    pub fn from_bytes(bytes: Vec<u8>) -> (r: Builder)
        ensures
            r@ == bytes@,
    {
        Builder { bytes }
    }

    /// Appends one opcode.
    pub fn push_opcode(self, opcode: u8) -> (r: Builder)
        ensures
            r@ == self@.push(opcode),
    {
        let mut bytes = self.bytes;
        bytes.push(opcode);
        Builder { bytes }
    }

    /// Appends the instruction that pushes `data`, in the shortest form.
    pub fn push_slice(self, data: &[u8]) -> (r: Builder)
        requires
            data@.len() < push_limit(),
        ensures
            r@ == self@ + push_data(data@),
    {
        let mut bytes = self.bytes;
        let ghost before = bytes@;
        let n: usize = data.len();
        if n < 0x4c {
            bytes.push(n as u8);
        } else if n < 0x100 {
            bytes.push(OP_PUSHDATA1);
            bytes.push(n as u8);
        } else if n < 0x10000 {
            bytes.push(OP_PUSHDATA2);
            bytes.push((n % 0x100) as u8);
            bytes.push((n / 0x100) as u8);
        } else {
            bytes.push(OP_PUSHDATA4);
            bytes.push((n % 0x100) as u8);
            bytes.push(((n / 0x100) % 0x100) as u8);
            bytes.push(((n / 0x10000) % 0x100) as u8);
            bytes.push((n / 0x1000000) as u8);
        }
        assert(bytes@ == before + push_prefix(data@.len()));
        bytes.extend_from_slice(data);
        Builder { bytes }
    }

    /// The script built so far.
    pub fn into_bytes(self) -> (r: Vec<u8>)
        ensures
            r@ == self@,
    {
        self.bytes
    }
}

/// Why a byte string cannot be pushed by one instruction.
#[derive(Debug, Clone, Copy, PartialEq, Eq)]
pub struct PushBytesError {
    /// The length of the byte string.
    pub len: usize,
}

/// Adds to a script builder a push that checks the length of its data.
pub trait ScriptsBuilderExt: Sized {
    fn push_slice_try_from(self, slice: &[u8]) -> Result<Self, PushBytesError>;
}

impl ScriptsBuilderExt for Builder {
    fn push_slice_try_from(self, slice: &[u8]) -> (r: Result<Self, PushBytesError>)
        ensures
            match r {
                Ok(b) => slice@.len() < push_limit() && b@ == self@ + push_data(slice@),
                Err(e) => slice@.len() >= push_limit() && e.len == slice@.len(),
            },
    {
        if (slice.len() as u64) < 0x1_0000_0000 {
            Ok(self.push_slice(slice))
        } else {
            Err(PushBytesError { len: slice.len() })
        }
    }
}

/// The script that pays to the script with the given 20-byte hash.
pub fn new_p2sh(hash: &[u8; 20]) -> (r: Vec<u8>)
    ensures
        r@ == p2sh_script(hash@),
{
    Builder::new().push_opcode(OP_HASH160).push_slice(hash.as_slice()).push_opcode(
        OP_EQUAL,
    ).into_bytes()
}

/// The script that pays to the key with the given 20-byte hash.
pub fn new_p2pkh(hash: &[u8; 20]) -> (r: Vec<u8>)
    ensures
        r@ == p2pkh_script(hash@),
{
    Builder::new().push_opcode(OP_DUP).push_opcode(OP_HASH160).push_slice(
        hash.as_slice(),
    ).push_opcode(OP_EQUALVERIFY).push_opcode(OP_CHECKSIG).into_bytes()
}

/// The version-0 witness script that pays to the witness key with the given
/// 20-byte hash.
pub fn new_p2wpkh(hash: &[u8; 20]) -> (r: Vec<u8>)
    ensures
        r@ == witness_v0_script(hash@),
{
    Builder::new().push_opcode(OP_0).push_slice(hash.as_slice()).into_bytes()
}

/// The version-0 witness script that pays to the witness script with the
/// given 32-byte hash.
pub fn new_p2wsh(hash: &[u8; 32]) -> (r: Vec<u8>)
    ensures
        r@ == witness_v0_script(hash@),
{
    Builder::new().push_opcode(OP_0).push_slice(hash.as_slice()).into_bytes()
}

/// The data-carrier script for `data`.
pub fn new_op_return(data: &[u8]) -> (r: Vec<u8>)
    requires
        data@.len() < push_limit(),
    ensures
        r@ == op_return_script(data@),
{
    Builder::new().push_opcode(OP_RETURN).push_slice(data).into_bytes()
}

/// A witness script for a 20-byte key hash is recognised as pay to witness
/// key hash.
pub proof fn lemma_p2wpkh_is_recognised(hash: Seq<u8>)
    requires
        hash.len() == 20,
    ensures
        script_type(witness_v0_script(hash)) == Some(ScriptType::P2wpkh),
{
    let s = witness_v0_script(hash);
    assert(s.len() == 22);
    assert(s[0] == OP_0);
    assert(s[1] == OP_PUSHBYTES_20);
}

/// A witness script for a 32-byte script hash is recognised as pay to witness
/// script hash.
pub proof fn lemma_p2wsh_is_recognised(hash: Seq<u8>)
    requires
        hash.len() == 32,
    ensures
        script_type(witness_v0_script(hash)) == Some(ScriptType::P2wsh),
{
    let s = witness_v0_script(hash);
    assert(s.len() == 34);
    assert(s[0] == OP_0);
    assert(s[1] == OP_PUSHBYTES_32);
}

/// A pay-to-script-hash script for a 20-byte hash is recognised as such.
pub proof fn lemma_p2sh_is_recognised(hash: Seq<u8>)
    requires
        hash.len() == 20,
    ensures
        script_type(p2sh_script(hash)) == Some(ScriptType::P2sh),
{
    let s = p2sh_script(hash);
    assert(s.len() == 23);
    assert(s[0] == OP_HASH160);
    assert(s[1] == OP_PUSHBYTES_20);
    assert(s[22] == OP_EQUAL);
}

/// The payload of a data-carrier script built for at most 255 bytes of data
/// is that data; for no data, and for more than 255 bytes, there is none.
pub proof fn lemma_op_return_payload_of_built(data: Seq<u8>)
    requires
        data.len() < push_limit(),
    ensures
        0 < data.len() < 0x100 ==> op_return_payload(op_return_script(data)) == Some(data),
        data.len() == 0 || data.len() >= 0x100 ==> op_return_payload(op_return_script(data))
            is None,
{
    let s = op_return_script(data);
    assert(s[0] == OP_RETURN);
    if 0 < data.len() < 0x4c {
        assert(s[1] == data.len());
        assert(s.subrange(2, 2 + s[1]) == data);
    } else if 0x4c <= data.len() < 0x100 {
        assert(s[1] == OP_PUSHDATA1);
        assert(s[2] == data.len());
        assert(s.subrange(3, 3 + s[2]) == data);
    } else if data.len() == 0 {
        assert(s.len() == 2);
        assert(s[1] == 0);
    } else if data.len() < 0x10000 {
        assert(s[1] == OP_PUSHDATA2);
    } else {
        assert(s[1] == OP_PUSHDATA4);
    }
}

} // verus!
