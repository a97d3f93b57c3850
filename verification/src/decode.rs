//! Reading a transaction from the binary format.
//!
//! The reader is strict: a count must be written in its shortest form, a
//! witness may not exceed the limit, the witness form must carry a witness,
//! and nothing may follow the transaction.  The reading functions of this
//! module say, for every byte string, what is read or why nothing is.

use crate::tx::{
    inputs_view, lemma_inputs_view_push, lemma_outputs_view_push, lemma_stack_view_push,
    outputs_view, stack_view, OutPoint, OutPointModel, Transaction, TxIn, TxInModel, TxModel,
    TxOut, TxOutModel,
};
use crate::wire::{
    get_compact_size, get_exact, get_i32, get_u32, get_u64, get_u8, get_var_bytes,
    read_compact_size, read_exact, read_i32, read_u32, read_u64, read_u8, read_var_bytes,
    DecodeError, Read, MAX_WITNESS_SIZE,
};
use vstd::prelude::*;

verus! {

/// What has been read so far, followed by what the rest gives.
pub open spec fn prepend<T>(done: Seq<T>, rest: Read<Seq<T>>) -> Read<Seq<T>> {
    match rest {
        Ok((items, next)) => Ok((done + items, next)),
        Err(e) => Err(e),
    }
}

pub open spec fn read_outpoint(b: Seq<u8>, pos: int) -> Read<OutPointModel> {
    match read_exact(b, pos, 32) {
        Err(e) => Err(e),
        Ok((txid, p)) => match read_u32(b, p) {
            Err(e) => Err(e),
            Ok((vout, q)) => Ok((OutPointModel { txid, vout }, q)),
        },
    }
}

/// Reads an input.  Its witness, if it has one, stands elsewhere.
pub open spec fn read_txin(b: Seq<u8>, pos: int) -> Read<TxInModel> {
    match read_outpoint(b, pos) {
        Err(e) => Err(e),
        Ok((previous_output, p)) => match read_var_bytes(b, p) {
            Err(e) => Err(e),
            Ok((script_sig, q)) => match read_u32(b, q) {
                Err(e) => Err(e),
                Ok((sequence, r)) => Ok(
                    (
                        TxInModel {
                            previous_output,
                            script_sig,
                            sequence,
                            witness: Seq::empty(),
                        },
                        r,
                    ),
                ),
            },
        },
    }
}

pub open spec fn read_txout(b: Seq<u8>, pos: int) -> Read<TxOutModel> {
    match read_u64(b, pos) {
        Err(e) => Err(e),
        Ok((value, p)) => match read_var_bytes(b, p) {
            Err(e) => Err(e),
            Ok((script_pubkey, q)) => Ok((TxOutModel { value, script_pubkey }, q)),
        },
    }
}

/// Reads `count` inputs.
pub open spec fn read_txins(b: Seq<u8>, pos: int, count: nat) -> Read<Seq<TxInModel>>
    decreases count,
{
    if count == 0 {
        Ok((Seq::empty(), pos))
    } else {
        match read_txin(b, pos) {
            Err(e) => Err(e),
            Ok((first, p)) => prepend(seq![first], read_txins(b, p, (count - 1) as nat)),
        }
    }
}

/// Reads `count` outputs.
pub open spec fn read_txouts(b: Seq<u8>, pos: int, count: nat) -> Read<Seq<TxOutModel>>
    decreases count,
{
    if count == 0 {
        Ok((Seq::empty(), pos))
    } else {
        match read_txout(b, pos) {
            Err(e) => Err(e),
            Ok((first, p)) => prepend(seq![first], read_txouts(b, p, (count - 1) as nat)),
        }
    }
}

/// Reads `count` items of a witness of which `used` bytes have been read.
/// An item that would take the witness over its limit is refused as soon as
/// its length is known.
pub open spec fn read_items(b: Seq<u8>, pos: int, count: nat, used: int) -> Read<Seq<Seq<u8>>>
    decreases count,
{
    if count == 0 {
        Ok((Seq::empty(), pos))
    } else {
        match read_compact_size(b, pos) {
            Err(e) => Err(e),
            Ok((n, p)) => {
                let used_now = used + (p - pos) + n;
                if used_now > MAX_WITNESS_SIZE {
                    Err(DecodeError::OversizedVectorAllocation)
                } else {
                    match read_exact(b, p, n as int) {
                        Err(e) => Err(e),
                        Ok((item, q)) => prepend(
                            seq![item],
                            read_items(b, q, (count - 1) as nat, used_now),
                        ),
                    }
                }
            },
        }
    }
}

/// Reads a witness: a count and that many items.
pub open spec fn read_witness(b: Seq<u8>, pos: int) -> Read<Seq<Seq<u8>>> {
    match read_compact_size(b, pos) {
        Err(e) => Err(e),
        Ok((count, p)) => if count > MAX_WITNESS_SIZE {
            Err(DecodeError::OversizedVectorAllocation)
        } else {
            read_items(b, p, count as nat, 0)
        },
    }
}

/// The input with another witness.
pub open spec fn with_witness(input: TxInModel, witness: Seq<Seq<u8>>) -> TxInModel {
    TxInModel {
        previous_output: input.previous_output,
        script_sig: input.script_sig,
        sequence: input.sequence,
        witness,
    }
}

/// Reads one witness for each of the inputs and gives the inputs with them.
pub open spec fn read_witnesses(b: Seq<u8>, pos: int, inputs: Seq<TxInModel>) -> Read<
    Seq<TxInModel>,
>
    decreases inputs.len(),
{
    if inputs.len() == 0 {
        Ok((Seq::empty(), pos))
    } else {
        match read_witness(b, pos) {
            Err(e) => Err(e),
            Ok((witness, p)) => prepend(
                seq![with_witness(inputs[0], witness)],
                read_witnesses(b, p, inputs.drop_first()),
            ),
        }
    }
}

/// Every input has an empty witness.
pub open spec fn no_witness(inputs: Seq<TxInModel>) -> bool {
    forall|i: int| 0 <= i < inputs.len() ==> (#[trigger] inputs[i]).witness.len() == 0
}

/// Reads a list of inputs behind its count.
pub open spec fn read_input_list(b: Seq<u8>, pos: int) -> Read<Seq<TxInModel>> {
    match read_compact_size(b, pos) {
        Err(e) => Err(e),
        Ok((count, p)) => read_txins(b, p, count as nat),
    }
}

/// Reads a list of outputs behind its count.
pub open spec fn read_output_list(b: Seq<u8>, pos: int) -> Read<Seq<TxOutModel>> {
    match read_compact_size(b, pos) {
        Err(e) => Err(e),
        Ok((count, p)) => read_txouts(b, p, count as nat),
    }
}

/// Reads what follows marker and flag in the witness form.
pub open spec fn read_witness_form(b: Seq<u8>, pos: int, version: i32) -> Read<TxModel> {
    match read_input_list(b, pos) {
        Err(e) => Err(e),
        Ok((bare, p)) => match read_output_list(b, p) {
            Err(e) => Err(e),
            Ok((output, q)) => match read_witnesses(b, q, bare) {
                Err(e) => Err(e),
                Ok((input, r)) => if input.len() > 0 && no_witness(input) {
                    Err(DecodeError::NoWitnesses)
                } else {
                    match read_u32(b, r) {
                        Err(e) => Err(e),
                        Ok((lock_time, s)) => Ok(
                            (TxModel { version, lock_time, input, output }, s),
                        ),
                    }
                },
            },
        },
    }
}

/// Reads a transaction.  An empty list of inputs after the version is the
/// marker of the witness form, and the byte after it is the flag.
pub open spec fn read_tx(b: Seq<u8>, pos: int) -> Read<TxModel> {
    match read_i32(b, pos) {
        Err(e) => Err(e),
        Ok((version, p)) => match read_input_list(b, p) {
            Err(e) => Err(e),
            Ok((input, q)) => if input.len() == 0 {
                match read_u8(b, q) {
                    Err(e) => Err(e),
                    Ok((flag, r)) => if flag == 1 {
                        read_witness_form(b, r, version)
                    } else {
                        Err(DecodeError::UnsupportedSegwitFlag(flag))
                    },
                }
            } else {
                match read_output_list(b, q) {
                    Err(e) => Err(e),
                    Ok((output, r)) => match read_u32(b, r) {
                        Err(e) => Err(e),
                        Ok((lock_time, s)) => Ok(
                            (TxModel { version, lock_time, input, output }, s),
                        ),
                    },
                }
            },
        },
    }
}

/// The transaction that a byte string encodes, or why it encodes none.  The
/// transaction must take up the whole of the byte string.
pub open spec fn decoding(b: Seq<u8>) -> Result<TxModel, DecodeError> {
    match read_tx(b, 0) {
        Err(e) => Err(e),
        Ok((tx, end)) => if end == b.len() {
            Ok(tx)
        } else {
            Err(DecodeError::TrailingData)
        },
    }
}


/// What an executable reader returns stands for what the format says.
pub open spec fn read_view_is<T: View>(r: Result<(T, usize), DecodeError>, s: Read<T::V>) -> bool {
    match r {
        Ok((v, next)) => s == Ok::<(T::V, int), DecodeError>((v@, next as int)),
        Err(e) => s == Err::<(T::V, int), DecodeError>(e),
    }
}

pub open spec fn read_inputs_is(
    r: Result<(Vec<TxIn>, usize), DecodeError>,
    s: Read<Seq<TxInModel>>,
) -> bool {
    match r {
        Ok((v, next)) => s == Ok::<(Seq<TxInModel>, int), DecodeError>(
            (inputs_view(v@), next as int),
        ),
        Err(e) => s == Err::<(Seq<TxInModel>, int), DecodeError>(e),
    }
}

pub open spec fn read_outputs_is(
    r: Result<(Vec<TxOut>, usize), DecodeError>,
    s: Read<Seq<TxOutModel>>,
) -> bool {
    match r {
        Ok((v, next)) => s == Ok::<(Seq<TxOutModel>, int), DecodeError>(
            (outputs_view(v@), next as int),
        ),
        Err(e) => s == Err::<(Seq<TxOutModel>, int), DecodeError>(e),
    }
}

pub open spec fn read_stack_is(
    r: Result<(Vec<Vec<u8>>, usize), DecodeError>,
    s: Read<Seq<Seq<u8>>>,
) -> bool {
    match r {
        Ok((v, next)) => s == Ok::<(Seq<Seq<u8>>, int), DecodeError>(
            (stack_view(v@), next as int),
        ),
        Err(e) => s == Err::<(Seq<Seq<u8>>, int), DecodeError>(e),
    }
}

/// Copies 32 bytes into an array.
pub fn to_array32(v: &[u8]) -> (r: [u8; 32])
    requires
        v@.len() == 32,
    ensures
        r@ == v@,
{
    let mut a = [0u8; 32];
    let mut k: usize = 0;
    while k < 32
        invariant
            k <= 32,
            v@.len() == 32,
            forall|i: int| 0 <= i < k ==> a@[i] == v@[i],
        decreases 32 - k,
    {
        a[k] = v[k];
        k = k + 1;
    }
    assert(a@ =~= v@);
    a
}

/// Copies 20 bytes into an array.
pub fn to_array20(v: &[u8]) -> (r: [u8; 20])
    requires
        v@.len() == 20,
    ensures
        r@ == v@,
{
    let mut a = [0u8; 20];
    let mut k: usize = 0;
    while k < 20
        invariant
            k <= 20,
            v@.len() == 20,
            forall|i: int| 0 <= i < k ==> a@[i] == v@[i],
        decreases 20 - k,
    {
        a[k] = v[k];
        k = k + 1;
    }
    assert(a@ =~= v@);
    a
}

pub fn get_outpoint(b: &[u8], pos: usize) -> (r: Result<(OutPoint, usize), DecodeError>)
    ensures
        read_view_is(r, read_outpoint(b@, pos as int)),
{
    let (txid, p) = match get_exact(b, pos, 32) {
        Ok(found) => found,
        Err(e) => { return Err(e); },
    };
    let (vout, q) = match get_u32(b, p) {
        Ok(found) => found,
        Err(e) => { return Err(e); },
    };
    Ok((OutPoint { txid: to_array32(txid.as_slice()), vout }, q))
}

pub fn get_txin(b: &[u8], pos: usize) -> (r: Result<(TxIn, usize), DecodeError>)
    ensures
        read_view_is(r, read_txin(b@, pos as int)),
{
    let (previous_output, p) = match get_outpoint(b, pos) {
        Ok(found) => found,
        Err(e) => { return Err(e); },
    };
    let (script_sig, q) = match get_var_bytes(b, p) {
        Ok(found) => found,
        Err(e) => { return Err(e); },
    };
    let (sequence, r) = match get_u32(b, q) {
        Ok(found) => found,
        Err(e) => { return Err(e); },
    };
    let input = TxIn { previous_output, script_sig, sequence, witness: Vec::new() };
    assert(input@.witness =~= Seq::<Seq<u8>>::empty());
    Ok((input, r))
}

pub fn get_txout(b: &[u8], pos: usize) -> (r: Result<(TxOut, usize), DecodeError>)
    ensures
        read_view_is(r, read_txout(b@, pos as int)),
{
    let (value, p) = match get_u64(b, pos) {
        Ok(found) => found,
        Err(e) => { return Err(e); },
    };
    let (script_pubkey, q) = match get_var_bytes(b, p) {
        Ok(found) => found,
        Err(e) => { return Err(e); },
    };
    Ok((TxOut { value, script_pubkey }, q))
}

pub fn get_txins(b: &[u8], pos: usize, count: u64) -> (r: Result<(Vec<TxIn>, usize), DecodeError>)
    ensures
        read_inputs_is(r, read_txins(b@, pos as int, count as nat)),
{
    let mut done: Vec<TxIn> = Vec::new();
    let mut at: usize = pos;
    let mut k: u64 = 0;
    assert(inputs_view(done@) =~= Seq::<TxInModel>::empty());
    while k < count
        invariant
            k <= count,
            read_txins(b@, pos as int, count as nat) == prepend(
                inputs_view(done@),
                read_txins(b@, at as int, (count - k) as nat),
            ),
        decreases count - k,
    {
        let ghost before = inputs_view(done@);
        match get_txin(b, at) {
            Err(e) => { return Err(e); },
            Ok((input, next)) => {
                proof {
                    lemma_inputs_view_push(done@, input);
                    let rest = read_txins(b@, next as int, (count - k - 1) as nat);
                    match rest {
                        Ok((items, end)) => {
                            assert(before + (seq![input@] + items) =~= before.push(input@)
                                + items);
                        },
                        Err(_) => {},
                    }
                }
                done.push(input);
                at = next;
            },
        }
        k = k + 1;
    }
    assert(inputs_view(done@) + Seq::<TxInModel>::empty() =~= inputs_view(done@));
    Ok((done, at))
}

pub fn get_txouts(b: &[u8], pos: usize, count: u64) -> (r: Result<
    (Vec<TxOut>, usize),
    DecodeError,
>)
    ensures
        read_outputs_is(r, read_txouts(b@, pos as int, count as nat)),
{
    let mut done: Vec<TxOut> = Vec::new();
    let mut at: usize = pos;
    let mut k: u64 = 0;
    assert(outputs_view(done@) =~= Seq::<TxOutModel>::empty());
    while k < count
        invariant
            k <= count,
            read_txouts(b@, pos as int, count as nat) == prepend(
                outputs_view(done@),
                read_txouts(b@, at as int, (count - k) as nat),
            ),
        decreases count - k,
    {
        let ghost before = outputs_view(done@);
        match get_txout(b, at) {
            Err(e) => { return Err(e); },
            Ok((output, next)) => {
                proof {
                    lemma_outputs_view_push(done@, output);
                    let rest = read_txouts(b@, next as int, (count - k - 1) as nat);
                    match rest {
                        Ok((items, end)) => {
                            assert(before + (seq![output@] + items) =~= before.push(output@)
                                + items);
                        },
                        Err(_) => {},
                    }
                }
                done.push(output);
                at = next;
            },
        }
        k = k + 1;
    }
    assert(outputs_view(done@) + Seq::<TxOutModel>::empty() =~= outputs_view(done@));
    Ok((done, at))
}

pub fn get_witness(b: &[u8], pos: usize) -> (r: Result<(Vec<Vec<u8>>, usize), DecodeError>)
    ensures
        read_stack_is(r, read_witness(b@, pos as int)),
{
    let (count, start) = match get_compact_size(b, pos) {
        Ok(found) => found,
        Err(e) => { return Err(e); },
    };
    if count > MAX_WITNESS_SIZE {
        return Err(DecodeError::OversizedVectorAllocation);
    }
    let mut done: Vec<Vec<u8>> = Vec::new();
    let mut at: usize = start;
    let mut used: u64 = 0;
    let mut k: u64 = 0;
    assert(stack_view(done@) =~= Seq::<Seq<u8>>::empty());
    while k < count
        invariant
            k <= count,
            count <= MAX_WITNESS_SIZE,
            used <= MAX_WITNESS_SIZE,
            read_compact_size(b@, pos as int) == Ok::<(u64, int), DecodeError>(
                (count, start as int),
            ),
            read_items(b@, start as int, count as nat, 0) == prepend(
                stack_view(done@),
                read_items(b@, at as int, (count - k) as nat, used as int),
            ),
        decreases count - k,
    {
        let ghost before = stack_view(done@);
        let (n, p) = match get_compact_size(b, at) {
            Ok(found) => found,
            Err(e) => { return Err(e); },
        };
        assert(p - at <= 9);
        if n > MAX_WITNESS_SIZE || used + ((p - at) as u64) + n > MAX_WITNESS_SIZE {
            return Err(DecodeError::OversizedVectorAllocation);
        }
        let used_now: u64 = used + ((p - at) as u64) + n;
        match get_exact(b, p, n) {
            Err(e) => { return Err(e); },
            Ok((item, next)) => {
                proof {
                    lemma_stack_view_push(done@, item);
                    let rest = read_items(
                        b@,
                        next as int,
                        (count - k - 1) as nat,
                        used_now as int,
                    );
                    match rest {
                        Ok((items, end)) => {
                            assert(before + (seq![item@] + items) =~= before.push(item@) + items);
                        },
                        Err(_) => {},
                    }
                }
                done.push(item);
                at = next;
                used = used_now;
            },
        }
        k = k + 1;
    }
    assert(stack_view(done@) + Seq::<Seq<u8>>::empty() =~= stack_view(done@));
    Ok((done, at))
}


/// Reads one witness for each input and puts it in its place.
pub fn get_witnesses(b: &[u8], pos: usize, inputs: Vec<TxIn>) -> (r: Result<
    (Vec<TxIn>, usize),
    DecodeError,
>)
    ensures
        read_inputs_is(r, read_witnesses(b@, pos as int, inputs_view(inputs@))),
{
    let ghost bare = inputs_view(inputs@);
    let mut filled = inputs;
    let n = filled.len();
    let mut at: usize = pos;
    let mut k: usize = 0;
    assert(bare.skip(0) =~= bare);
    assert(inputs_view(filled@).take(0) =~= Seq::<TxInModel>::empty());
    while k < n
        invariant
            k <= n,
            n == filled@.len(),
            n == bare.len(),
            bare == inputs_view(inputs@),
            forall|i: int| k <= i < n ==> inputs_view(filled@)[i] == bare[i],
            read_witnesses(b@, pos as int, bare) == prepend(
                inputs_view(filled@).take(k as int),
                read_witnesses(b@, at as int, bare.skip(k as int)),
            ),
        decreases n - k,
    {
        let ghost before = inputs_view(filled@);
        match get_witness(b, at) {
            Err(e) => { return Err(e); },
            Ok((witness, next)) => {
                filled[k].witness = witness;
                proof {
                    let after = inputs_view(filled@);
                    assert(bare.skip(k as int)[0] == bare[k as int]);
                    assert(bare.skip(k as int).drop_first() =~= bare.skip(k + 1));
                    assert(after[k as int] == with_witness(bare[k as int], stack_view(witness@)));
                    assert(after.take(k + 1) =~= before.take(k as int).push(after[k as int]));
                    let rest = read_witnesses(b@, next as int, bare.skip(k + 1));
                    match rest {
                        Ok((items, end)) => {
                            assert(before.take(k as int) + (seq![after[k as int]] + items)
                                =~= after.take(k + 1) + items);
                        },
                        Err(_) => {},
                    }
                }
                at = next;
            },
        }
        k = k + 1;
    }
    proof {
        assert(bare.skip(n as int) =~= Seq::<TxInModel>::empty());
        assert(inputs_view(filled@).take(n as int) =~= inputs_view(filled@));
        assert(inputs_view(filled@) + Seq::<TxInModel>::empty() =~= inputs_view(filled@));
    }
    Ok((filled, at))
}


pub fn get_input_list(b: &[u8], pos: usize) -> (r: Result<(Vec<TxIn>, usize), DecodeError>)
    ensures
        read_inputs_is(r, read_input_list(b@, pos as int)),
{
    match get_compact_size(b, pos) {
        Err(e) => Err(e),
        Ok((count, p)) => get_txins(b, p, count),
    }
}

pub fn get_output_list(b: &[u8], pos: usize) -> (r: Result<(Vec<TxOut>, usize), DecodeError>)
    ensures
        read_outputs_is(r, read_output_list(b@, pos as int)),
{
    match get_compact_size(b, pos) {
        Err(e) => Err(e),
        Ok((count, p)) => get_txouts(b, p, count),
    }
}

/// Tells whether every input has an empty witness.
pub fn all_witnesses_empty(inputs: &Vec<TxIn>) -> (r: bool)
    ensures
        r == no_witness(inputs_view(inputs@)),
{
    let n = inputs.len();
    let mut k: usize = 0;
    while k < n
        invariant
            n == inputs@.len(),
            k <= n,
            forall|i: int| 0 <= i < k ==> (#[trigger] inputs_view(inputs@)[i]).witness.len() == 0,
        decreases n - k,
    {
        if inputs[k].witness.len() > 0 {
            assert(inputs_view(inputs@)[k as int].witness.len() > 0);
            return false;
        }
        k = k + 1;
    }
    true
}

fn get_witness_form(b: &[u8], pos: usize, version: i32) -> (r: Result<
    (Transaction, usize),
    DecodeError,
>)
    ensures
        read_view_is(r, read_witness_form(b@, pos as int, version)),
{
    let (bare, p) = match get_input_list(b, pos) {
        Ok(found) => found,
        Err(e) => { return Err(e); },
    };
    let (output, q) = match get_output_list(b, p) {
        Ok(found) => found,
        Err(e) => { return Err(e); },
    };
    let (input, r) = match get_witnesses(b, q, bare) {
        Ok(found) => found,
        Err(e) => { return Err(e); },
    };
    if input.len() > 0 && all_witnesses_empty(&input) {
        return Err(DecodeError::NoWitnesses);
    }
    let (lock_time, s) = match get_u32(b, r) {
        Ok(found) => found,
        Err(e) => { return Err(e); },
    };
    Ok((Transaction { version, lock_time, input, output }, s))
}

/// Reads a transaction that starts at `pos`, and tells where it ends.
pub fn get_tx(b: &[u8], pos: usize) -> (r: Result<(Transaction, usize), DecodeError>)
    ensures
        read_view_is(r, read_tx(b@, pos as int)),
{
    let (version, p) = match get_i32(b, pos) {
        Ok(found) => found,
        Err(e) => { return Err(e); },
    };
    let (input, q) = match get_input_list(b, p) {
        Ok(found) => found,
        Err(e) => { return Err(e); },
    };
    if input.len() == 0 {
        let (flag, r) = match get_u8(b, q) {
            Ok(found) => found,
            Err(e) => { return Err(e); },
        };
        if flag == 1 {
            get_witness_form(b, r, version)
        } else {
            Err(DecodeError::UnsupportedSegwitFlag(flag))
        }
    } else {
        let (output, r) = match get_output_list(b, q) {
            Ok(found) => found,
            Err(e) => { return Err(e); },
        };
        let (lock_time, s) = match get_u32(b, r) {
            Ok(found) => found,
            Err(e) => { return Err(e); },
        };
        Ok((Transaction { version, lock_time, input, output }, s))
    }
}

/// What a decoded transaction, or the failure to decode one, stands for.
pub open spec fn decoded_view(r: Result<Transaction, DecodeError>) -> Result<
    TxModel,
    DecodeError,
> {
    match r {
        Ok(tx) => Ok(tx@),
        Err(e) => Err(e),
    }
}

/// Reads the transaction that a byte string encodes.
pub fn decode(b: &[u8]) -> (r: Result<Transaction, DecodeError>)
    ensures
        decoded_view(r) == decoding(b@),
{
    match get_tx(b, 0) {
        Err(e) => Err(e),
        Ok((tx, end)) => if end == b.len() {
            Ok(tx)
        } else {
            Err(DecodeError::TrailingData)
        },
    }
}

} // verus!
