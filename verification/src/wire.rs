//! The building blocks of the binary transaction format: little-endian
//! integers, the compact size prefix and length-prefixed byte strings, each
//! with its writer and its reader.

use vstd::prelude::*;
use vstd::slice::slice_subrange;

verus! {

/// Why a byte string is not the encoding of a transaction.
#[derive(Debug, Clone, Copy, PartialEq, Eq, Structural)]
pub enum DecodeError {
    /// The bytes end before the value does.
    UnexpectedEnd,
    /// A compact size is written in a longer form than its value needs.
    NonMinimalVarInt,
    /// A witness announces more items, or more bytes, than the reader allows.
    OversizedVectorAllocation,
    /// After an empty list of inputs comes a flag other than 1.
    UnsupportedSegwitFlag(u8),
    /// The witness form is used, there are inputs, and every witness is empty.
    NoWitnesses,
    /// Bytes are left over after the transaction.
    TrailingData,
}

/// The most items, and the most bytes, that the reader accepts in one witness.
pub const MAX_WITNESS_SIZE: u64 = 4_000_000;

pub open spec fn u16_le(v: u16) -> Seq<u8> {
    seq![(v % 0x100) as u8, (v / 0x100) as u8]
}

pub open spec fn u32_le(v: u32) -> Seq<u8> {
    seq![
        (v % 0x100) as u8,
        ((v / 0x100) % 0x100) as u8,
        ((v / 0x1_0000) % 0x100) as u8,
        (v / 0x100_0000) as u8,
    ]
}

pub open spec fn u64_le(v: u64) -> Seq<u8> {
    u32_le((v % 0x1_0000_0000) as u32) + u32_le((v / 0x1_0000_0000) as u32)
}

/// The unsigned number with the same 32 bits (two's complement).
pub open spec fn i32_bits(v: i32) -> u32 {
    if v >= 0 {
        v as u32
    } else {
        (v + 0x1_0000_0000) as u32
    }
}

/// The signed number with the same 32 bits (two's complement).
pub open spec fn bits_i32(v: u32) -> i32 {
    if v < 0x8000_0000 {
        v as i32
    } else {
        (v - 0x1_0000_0000) as i32
    }
}

pub open spec fn i32_le(v: i32) -> Seq<u8> {
    u32_le(i32_bits(v))
}

/// The compact size prefix: numbers below `0xfd` take one byte; larger ones
/// a marker byte and 2, 4 or 8 bytes, whichever is the least that holds them.
pub open spec fn compact_size(n: u64) -> Seq<u8> {
    if n < 0xfd {
        seq![n as u8]
    } else if n <= 0xffff {
        seq![0xfdu8] + u16_le(n as u16)
    } else if n <= 0xffff_ffff {
        seq![0xfeu8] + u32_le(n as u32)
    } else {
        seq![0xffu8] + u64_le(n)
    }
}

/// A byte string behind its length.
pub open spec fn var_bytes(data: Seq<u8>) -> Seq<u8> {
    compact_size(data.len() as u64) + data
}

pub open spec fn u16_at(b: Seq<u8>, pos: int) -> u16 {
    (b[pos] + 0x100 * b[pos + 1]) as u16
}

pub open spec fn u32_at(b: Seq<u8>, pos: int) -> u32 {
    (b[pos] + 0x100 * b[pos + 1] + 0x1_0000 * b[pos + 2] + 0x100_0000 * b[pos + 3]) as u32
}

pub open spec fn u64_at(b: Seq<u8>, pos: int) -> u64 {
    (u32_at(b, pos) + 0x1_0000_0000 * u32_at(b, pos + 4)) as u64
}

/// What a reader finds at a position: the value and the position after it,
/// or the reason why there is no value.
pub type Read<T> = Result<(T, int), DecodeError>;

pub open spec fn read_u8(b: Seq<u8>, pos: int) -> Read<u8> {
    if 0 <= pos && pos + 1 <= b.len() {
        Ok((b[pos], pos + 1))
    } else {
        Err(DecodeError::UnexpectedEnd)
    }
}

pub open spec fn read_u16(b: Seq<u8>, pos: int) -> Read<u16> {
    if 0 <= pos && pos + 2 <= b.len() {
        Ok((u16_at(b, pos), pos + 2))
    } else {
        Err(DecodeError::UnexpectedEnd)
    }
}

pub open spec fn read_u32(b: Seq<u8>, pos: int) -> Read<u32> {
    if 0 <= pos && pos + 4 <= b.len() {
        Ok((u32_at(b, pos), pos + 4))
    } else {
        Err(DecodeError::UnexpectedEnd)
    }
}

pub open spec fn read_u64(b: Seq<u8>, pos: int) -> Read<u64> {
    if 0 <= pos && pos + 8 <= b.len() {
        Ok((u64_at(b, pos), pos + 8))
    } else {
        Err(DecodeError::UnexpectedEnd)
    }
}

pub open spec fn read_i32(b: Seq<u8>, pos: int) -> Read<i32> {
    match read_u32(b, pos) {
        Ok((v, next)) => Ok((bits_i32(v), next)),
        Err(e) => Err(e),
    }
}

/// Reads a compact size and refuses every form but the shortest.
pub open spec fn read_compact_size(b: Seq<u8>, pos: int) -> Read<u64> {
    match read_u8(b, pos) {
        Err(e) => Err(e),
        Ok((first, next)) => {
            if first == 0xff {
                match read_u64(b, next) {
                    Err(e) => Err(e),
                    Ok((v, after)) => if v < 0x1_0000_0000 {
                        Err(DecodeError::NonMinimalVarInt)
                    } else {
                        Ok((v, after))
                    },
                }
            } else if first == 0xfe {
                match read_u32(b, next) {
                    Err(e) => Err(e),
                    Ok((v, after)) => if v < 0x1_0000 {
                        Err(DecodeError::NonMinimalVarInt)
                    } else {
                        Ok((v as u64, after))
                    },
                }
            } else if first == 0xfd {
                match read_u16(b, next) {
                    Err(e) => Err(e),
                    Ok((v, after)) => if v < 0xfd {
                        Err(DecodeError::NonMinimalVarInt)
                    } else {
                        Ok((v as u64, after))
                    },
                }
            } else {
                Ok((first as u64, next))
            }
        },
    }
}

/// Reads `n` bytes.
pub open spec fn read_exact(b: Seq<u8>, pos: int, n: int) -> Read<Seq<u8>> {
    if 0 <= pos && 0 <= n && pos + n <= b.len() {
        Ok((b.subrange(pos, pos + n), pos + n))
    } else {
        Err(DecodeError::UnexpectedEnd)
    }
}

/// Reads a byte string behind its length.
pub open spec fn read_var_bytes(b: Seq<u8>, pos: int) -> Read<Seq<u8>> {
    match read_compact_size(b, pos) {
        Err(e) => Err(e),
        Ok((n, next)) => read_exact(b, next, n as int),
    }
}

/// `piece` stands in `b` at `pos`.
#[verifier::opaque]
pub open spec fn has_at(b: Seq<u8>, pos: int, piece: Seq<u8>) -> bool {
    &&& 0 <= pos
    &&& pos + piece.len() <= b.len()
    &&& b.subrange(pos, pos + piece.len()) == piece
}

/// Where `x + y` stands, `x` stands, and `y` behind it.
pub proof fn lemma_has_at_split(b: Seq<u8>, pos: int, x: Seq<u8>, y: Seq<u8>)
    requires
        has_at(b, pos, x + y),
    ensures
        has_at(b, pos, x),
        has_at(b, pos + x.len(), y),
{
    reveal(has_at);
    let whole = b.subrange(pos, pos + (x + y).len());
    assert(b.subrange(pos, pos + x.len()) == whole.subrange(0, x.len() as int));
    assert(whole.subrange(0, x.len() as int) == x);
    assert(b.subrange(pos + x.len(), pos + x.len() + y.len()) == whole.subrange(
        x.len() as int,
        (x + y).len() as int,
    ));
    assert(whole.subrange(x.len() as int, (x + y).len() as int) == y);
}

/// Each byte of a piece that stands in `b` is the byte of `b` at its place.
pub proof fn lemma_has_at_index(b: Seq<u8>, pos: int, piece: Seq<u8>, i: int)
    requires
        has_at(b, pos, piece),
        0 <= i < piece.len(),
    ensures
        b[pos + i] == piece[i],
{
    reveal(has_at);
    assert(b.subrange(pos, pos + piece.len())[i] == b[pos + i]);
}

pub proof fn lemma_read_u16_of_written(b: Seq<u8>, pos: int, v: u16)
    requires
        has_at(b, pos, u16_le(v)),
    ensures
        read_u16(b, pos) == Ok::<(u16, int), DecodeError>((v, pos + 2)),
{
    reveal(has_at);
    lemma_has_at_index(b, pos, u16_le(v), 0);
    lemma_has_at_index(b, pos, u16_le(v), 1);
}

pub proof fn lemma_read_u32_of_written(b: Seq<u8>, pos: int, v: u32)
    requires
        has_at(b, pos, u32_le(v)),
    ensures
        read_u32(b, pos) == Ok::<(u32, int), DecodeError>((v, pos + 4)),
{
    reveal(has_at);
    lemma_has_at_index(b, pos, u32_le(v), 0);
    lemma_has_at_index(b, pos, u32_le(v), 1);
    lemma_has_at_index(b, pos, u32_le(v), 2);
    lemma_has_at_index(b, pos, u32_le(v), 3);
}

pub proof fn lemma_read_u64_of_written(b: Seq<u8>, pos: int, v: u64)
    requires
        has_at(b, pos, u64_le(v)),
    ensures
        read_u64(b, pos) == Ok::<(u64, int), DecodeError>((v, pos + 8)),
{
    reveal(has_at);
    let low = (v % 0x1_0000_0000) as u32;
    let high = (v / 0x1_0000_0000) as u32;
    lemma_has_at_split(b, pos, u32_le(low), u32_le(high));
    lemma_read_u32_of_written(b, pos, low);
    lemma_read_u32_of_written(b, pos + 4, high);
}

pub proof fn lemma_read_i32_of_written(b: Seq<u8>, pos: int, v: i32)
    requires
        has_at(b, pos, i32_le(v)),
    ensures
        read_i32(b, pos) == Ok::<(i32, int), DecodeError>((v, pos + 4)),
{
    reveal(has_at);
    lemma_read_u32_of_written(b, pos, i32_bits(v));
}

pub proof fn lemma_read_compact_size_of_written(b: Seq<u8>, pos: int, n: u64)
    requires
        has_at(b, pos, compact_size(n)),
    ensures
        read_compact_size(b, pos) == Ok::<(u64, int), DecodeError>(
            (n, pos + compact_size(n).len()),
        ),
{
    reveal(has_at);
    lemma_has_at_index(b, pos, compact_size(n), 0);
    if n < 0xfd {
    } else if n <= 0xffff {
        lemma_has_at_split(b, pos, seq![0xfdu8], u16_le(n as u16));
        lemma_read_u16_of_written(b, pos + 1, n as u16);
    } else if n <= 0xffff_ffff {
        lemma_has_at_split(b, pos, seq![0xfeu8], u32_le(n as u32));
        lemma_read_u32_of_written(b, pos + 1, n as u32);
    } else {
        lemma_has_at_split(b, pos, seq![0xffu8], u64_le(n));
        lemma_read_u64_of_written(b, pos + 1, n);
    }
}

pub proof fn lemma_read_var_bytes_of_written(b: Seq<u8>, pos: int, data: Seq<u8>)
    requires
        data.len() <= u64::MAX,
        has_at(b, pos, var_bytes(data)),
    ensures
        read_var_bytes(b, pos) == Ok::<(Seq<u8>, int), DecodeError>(
            (data, pos + var_bytes(data).len()),
        ),
{
    reveal(has_at);
    let prefix = compact_size(data.len() as u64);
    lemma_has_at_split(b, pos, prefix, data);
    lemma_read_compact_size_of_written(b, pos, data.len() as u64);
}


/// What an executable reader returns stands for what the format says.
pub open spec fn read_is<T>(r: Result<(T, usize), DecodeError>, s: Read<T>) -> bool {
    match r {
        Ok((v, next)) => s == Ok::<(T, int), DecodeError>((v, next as int)),
        Err(e) => s == Err::<(T, int), DecodeError>(e),
    }
}

/// The same for a reader of byte strings.
pub open spec fn read_bytes_is(r: Result<(Vec<u8>, usize), DecodeError>, s: Read<Seq<u8>>) -> bool {
    match r {
        Ok((v, next)) => s == Ok::<(Seq<u8>, int), DecodeError>((v@, next as int)),
        Err(e) => s == Err::<(Seq<u8>, int), DecodeError>(e),
    }
}

pub fn put_u16(out: &mut Vec<u8>, v: u16)
    ensures
        final(out)@ == old(out)@ + u16_le(v),
{
    out.push((v % 0x100) as u8);
    out.push((v / 0x100) as u8);
    assert(out@ == old(out)@ + u16_le(v));
}

pub fn put_u32(out: &mut Vec<u8>, v: u32)
    ensures
        final(out)@ == old(out)@ + u32_le(v),
{
    out.push((v % 0x100) as u8);
    out.push(((v / 0x100) % 0x100) as u8);
    out.push(((v / 0x1_0000) % 0x100) as u8);
    out.push((v / 0x100_0000) as u8);
    assert(out@ == old(out)@ + u32_le(v));
}

pub fn put_u64(out: &mut Vec<u8>, v: u64)
    ensures
        final(out)@ == old(out)@ + u64_le(v),
{
    put_u32(out, (v % 0x1_0000_0000) as u32);
    put_u32(out, (v / 0x1_0000_0000) as u32);
    assert(out@ == old(out)@ + u64_le(v));
}

pub fn put_i32(out: &mut Vec<u8>, v: i32)
    ensures
        final(out)@ == old(out)@ + i32_le(v),
{
    let bits: u32 = if v >= 0 {
        v as u32
    } else {
        (v as i64 + 0x1_0000_0000) as u32
    };
    put_u32(out, bits);
}

pub fn put_compact_size(out: &mut Vec<u8>, n: u64)
    ensures
        final(out)@ == old(out)@ + compact_size(n),
{
    if n < 0xfd {
        out.push(n as u8);
    } else if n <= 0xffff {
        out.push(0xfd);
        put_u16(out, n as u16);
    } else if n <= 0xffff_ffff {
        out.push(0xfe);
        put_u32(out, n as u32);
    } else {
        out.push(0xff);
        put_u64(out, n);
    }
    assert(out@ == old(out)@ + compact_size(n));
}

pub fn put_var_bytes(out: &mut Vec<u8>, data: &[u8])
    ensures
        final(out)@ == old(out)@ + var_bytes(data@),
{
    put_compact_size(out, data.len() as u64);
    out.extend_from_slice(data);
    assert(out@ == old(out)@ + var_bytes(data@));
}

pub fn get_u8(b: &[u8], pos: usize) -> (r: Result<(u8, usize), DecodeError>)
    ensures
        read_is(r, read_u8(b@, pos as int)),
{
    if pos < b.len() {
        Ok((b[pos], pos + 1))
    } else {
        Err(DecodeError::UnexpectedEnd)
    }
}

pub fn get_u16(b: &[u8], pos: usize) -> (r: Result<(u16, usize), DecodeError>)
    ensures
        read_is(r, read_u16(b@, pos as int)),
{
    if pos <= b.len() && b.len() - pos >= 2 {
        let v: u16 = b[pos] as u16 + 0x100 * (b[pos + 1] as u16);
        Ok((v, pos + 2))
    } else {
        Err(DecodeError::UnexpectedEnd)
    }
}

pub fn get_u32(b: &[u8], pos: usize) -> (r: Result<(u32, usize), DecodeError>)
    ensures
        read_is(r, read_u32(b@, pos as int)),
{
    if pos <= b.len() && b.len() - pos >= 4 {
        let v: u32 = b[pos] as u32 + 0x100 * (b[pos + 1] as u32) + 0x1_0000 * (b[pos + 2] as u32)
            + 0x100_0000 * (b[pos + 3] as u32);
        Ok((v, pos + 4))
    } else {
        Err(DecodeError::UnexpectedEnd)
    }
}

pub fn get_u64(b: &[u8], pos: usize) -> (r: Result<(u64, usize), DecodeError>)
    ensures
        read_is(r, read_u64(b@, pos as int)),
{
    if pos <= b.len() && b.len() - pos >= 8 {
        let low: u64 = b[pos] as u64 + 0x100 * (b[pos + 1] as u64) + 0x1_0000 * (b[pos + 2] as u64)
            + 0x100_0000 * (b[pos + 3] as u64);
        let high: u64 = b[pos + 4] as u64 + 0x100 * (b[pos + 5] as u64) + 0x1_0000 * (b[pos
            + 6] as u64) + 0x100_0000 * (b[pos + 7] as u64);
        let v: u64 = low + 0x1_0000_0000 * high;
        Ok((v, pos + 8))
    } else {
        Err(DecodeError::UnexpectedEnd)
    }
}

pub fn get_i32(b: &[u8], pos: usize) -> (r: Result<(i32, usize), DecodeError>)
    ensures
        read_is(r, read_i32(b@, pos as int)),
{
    match get_u32(b, pos) {
        Ok((v, next)) => {
            let signed: i32 = if v < 0x8000_0000 {
                v as i32
            } else {
                (v as i64 - 0x1_0000_0000) as i32
            };
            Ok((signed, next))
        },
        Err(e) => Err(e),
    }
}

pub fn get_compact_size(b: &[u8], pos: usize) -> (r: Result<(u64, usize), DecodeError>)
    ensures
        read_is(r, read_compact_size(b@, pos as int)),
{
    let (first, next) = match get_u8(b, pos) {
        Ok(found) => found,
        Err(e) => { return Err(e); },
    };
    if first == 0xff {
        match get_u64(b, next) {
            Err(e) => Err(e),
            Ok((v, after)) => if v < 0x1_0000_0000 {
                Err(DecodeError::NonMinimalVarInt)
            } else {
                Ok((v, after))
            },
        }
    } else if first == 0xfe {
        match get_u32(b, next) {
            Err(e) => Err(e),
            Ok((v, after)) => if v < 0x1_0000 {
                Err(DecodeError::NonMinimalVarInt)
            } else {
                Ok((v as u64, after))
            },
        }
    } else if first == 0xfd {
        match get_u16(b, next) {
            Err(e) => Err(e),
            Ok((v, after)) => if v < 0xfd {
                Err(DecodeError::NonMinimalVarInt)
            } else {
                Ok((v as u64, after))
            },
        }
    } else {
        Ok((first as u64, next))
    }
}

/// Copies `n` bytes out of `b`.
pub fn get_exact(b: &[u8], pos: usize, n: u64) -> (r: Result<(Vec<u8>, usize), DecodeError>)
    ensures
        read_bytes_is(r, read_exact(b@, pos as int, n as int)),
{
    if pos <= b.len() && n <= (b.len() - pos) as u64 {
        let len: usize = n as usize;
        let piece = slice_subrange(b, pos, pos + len);
        let mut v: Vec<u8> = Vec::new();
        v.extend_from_slice(piece);
        assert(v@ == b@.subrange(pos as int, pos + n));
        Ok((v, pos + len))
    } else {
        Err(DecodeError::UnexpectedEnd)
    }
}

pub fn get_var_bytes(b: &[u8], pos: usize) -> (r: Result<(Vec<u8>, usize), DecodeError>)
    ensures
        read_bytes_is(r, read_var_bytes(b@, pos as int)),
{
    match get_compact_size(b, pos) {
        Err(e) => Err(e),
        Ok((n, next)) => get_exact(b, next, n),
    }
}

} // verus!
