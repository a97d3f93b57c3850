//! Reading gives back what was written.
//!
//! The reader refuses a witness of more than [`MAX_WITNESS_SIZE`] items or
//! bytes, so the law holds of the transactions whose witnesses keep to that;
//! [`valid_tx`] says which those are.

use crate::decode::{
    decoding, no_witness, read_input_list, read_items, read_outpoint, read_output_list, read_tx,
    read_txin, read_txins, read_txout, read_txouts, read_witness, read_witness_form,
    read_witnesses, with_witness,
};
use crate::encode::{
    has_witness, items_bytes, lemma_items_bytes_push, outpoint_bytes, tx_bytes, tx_bytes_legacy,
    tx_bytes_witness, txin_bytes, txins_bytes, txout_bytes, txouts_bytes, uses_witness_form,
    witness_bytes, witnesses_bytes,
};
use crate::tx::{stack_view, OutPointModel, Transaction, TxInModel, TxModel, TxOutModel};
use crate::wire::{
    compact_size, has_at, i32_le, lemma_has_at_index, lemma_has_at_split,
    lemma_read_compact_size_of_written, lemma_read_i32_of_written, lemma_read_u32_of_written,
    lemma_read_u64_of_written, lemma_read_var_bytes_of_written, read_compact_size, read_exact,
    read_i32, read_u32, read_u8, u32_le, u64_le, var_bytes, DecodeError, MAX_WITNESS_SIZE,
};
use vstd::prelude::*;

verus! {

/// A witness that the reader accepts.
pub open spec fn valid_witness(items: Seq<Seq<u8>>) -> bool {
    &&& items.len() <= MAX_WITNESS_SIZE
    &&& items_bytes(items).len() <= MAX_WITNESS_SIZE
}

pub open spec fn valid_input(input: TxInModel) -> bool {
    &&& input.previous_output.txid.len() == 32
    &&& input.script_sig.len() <= u64::MAX
    &&& valid_witness(input.witness)
}

pub open spec fn valid_output(output: TxOutModel) -> bool {
    output.script_pubkey.len() <= u64::MAX
}

pub open spec fn valid_inputs(inputs: Seq<TxInModel>) -> bool {
    forall|i: int| 0 <= i < inputs.len() ==> valid_input(#[trigger] inputs[i])
}

pub open spec fn valid_outputs(outputs: Seq<TxOutModel>) -> bool {
    forall|i: int| 0 <= i < outputs.len() ==> valid_output(#[trigger] outputs[i])
}

/// A transaction that can be written and read again: its identifiers have
/// 32 bytes, its lengths fit the format, and its witnesses keep to the limit
/// of the reader.
pub open spec fn valid_tx(tx: TxModel) -> bool {
    &&& tx.input.len() <= u64::MAX
    &&& tx.output.len() <= u64::MAX
    &&& valid_inputs(tx.input)
    &&& valid_outputs(tx.output)
}

/// The inputs without their witnesses.
#[verifier::opaque]
pub open spec fn stripped(inputs: Seq<TxInModel>) -> Seq<TxInModel> {
    Seq::new(inputs.len(), |i: int| with_witness(inputs[i], Seq::empty()))
}

pub proof fn lemma_read_outpoint_of_written(b: Seq<u8>, pos: int, o: OutPointModel)
    requires
        o.txid.len() == 32,
        has_at(b, pos, outpoint_bytes(o)),
    ensures
        read_outpoint(b, pos) == Ok::<(OutPointModel, int), DecodeError>((o, pos + 36)),
{
    reveal(has_at);
    lemma_has_at_split(b, pos, o.txid, u32_le(o.vout));
    lemma_read_u32_of_written(b, pos + 32, o.vout);
}

pub proof fn lemma_read_txin_of_written(b: Seq<u8>, pos: int, input: TxInModel)
    requires
        input.previous_output.txid.len() == 32,
        input.script_sig.len() <= u64::MAX,
        has_at(b, pos, txin_bytes(input)),
    ensures
        read_txin(b, pos) == Ok::<(TxInModel, int), DecodeError>(
            (with_witness(input, Seq::empty()), pos + txin_bytes(input).len()),
        ),
{
    let head = outpoint_bytes(input.previous_output) + var_bytes(input.script_sig);
    lemma_has_at_split(b, pos, head, u32_le(input.sequence));
    lemma_has_at_split(
        b,
        pos,
        outpoint_bytes(input.previous_output),
        var_bytes(input.script_sig),
    );
    lemma_read_outpoint_of_written(b, pos, input.previous_output);
    lemma_read_var_bytes_of_written(b, pos + 36, input.script_sig);
    lemma_read_u32_of_written(b, pos + head.len(), input.sequence);
}

pub proof fn lemma_read_txout_of_written(b: Seq<u8>, pos: int, output: TxOutModel)
    requires
        output.script_pubkey.len() <= u64::MAX,
        has_at(b, pos, txout_bytes(output)),
    ensures
        read_txout(b, pos) == Ok::<(TxOutModel, int), DecodeError>(
            (output, pos + txout_bytes(output).len()),
        ),
{
    lemma_has_at_split(b, pos, u64_le(output.value), var_bytes(output.script_pubkey));
    lemma_read_u64_of_written(b, pos, output.value);
    lemma_read_var_bytes_of_written(b, pos + 8, output.script_pubkey);
}

pub proof fn lemma_read_txins_of_written(b: Seq<u8>, pos: int, inputs: Seq<TxInModel>)
    requires
        valid_inputs(inputs),
        has_at(b, pos, txins_bytes(inputs)),
    ensures
        read_txins(b, pos, inputs.len()) == Ok::<(Seq<TxInModel>, int), DecodeError>(
            (stripped(inputs), pos + txins_bytes(inputs).len()),
        ),
    decreases inputs.len(),
{
    reveal(stripped);
    if inputs.len() == 0 {
        assert(stripped(inputs) =~= Seq::<TxInModel>::empty());
    } else {
        let first = inputs[0];
        let rest = inputs.drop_first();
        assert(valid_input(first));
        assert forall|i: int| 0 <= i < rest.len() implies valid_input(#[trigger] rest[i]) by {
            assert(rest[i] == inputs[i + 1]);
        }
        lemma_has_at_split(b, pos, txin_bytes(first), txins_bytes(rest));
        lemma_read_txin_of_written(b, pos, first);
        lemma_read_txins_of_written(b, pos + txin_bytes(first).len(), rest);
        assert(seq![with_witness(first, Seq::empty())] + stripped(rest) =~= stripped(inputs));
    }
}

pub proof fn lemma_read_txouts_of_written(b: Seq<u8>, pos: int, outputs: Seq<TxOutModel>)
    requires
        valid_outputs(outputs),
        has_at(b, pos, txouts_bytes(outputs)),
    ensures
        read_txouts(b, pos, outputs.len()) == Ok::<(Seq<TxOutModel>, int), DecodeError>(
            (outputs, pos + txouts_bytes(outputs).len()),
        ),
    decreases outputs.len(),
{
    if outputs.len() == 0 {
        assert(outputs =~= Seq::<TxOutModel>::empty());
    } else {
        let first = outputs[0];
        let rest = outputs.drop_first();
        assert(valid_output(first));
        assert forall|i: int| 0 <= i < rest.len() implies valid_output(#[trigger] rest[i]) by {
            assert(rest[i] == outputs[i + 1]);
        }
        lemma_has_at_split(b, pos, txout_bytes(first), txouts_bytes(rest));
        lemma_read_txout_of_written(b, pos, first);
        lemma_read_txouts_of_written(b, pos + txout_bytes(first).len(), rest);
        assert(seq![first] + rest =~= outputs);
    }
}

pub proof fn lemma_read_items_of_written(b: Seq<u8>, pos: int, items: Seq<Seq<u8>>, used: int)
    requires
        0 <= used,
        used + items_bytes(items).len() <= MAX_WITNESS_SIZE,
        has_at(b, pos, items_bytes(items)),
    ensures
        read_items(b, pos, items.len(), used) == Ok::<(Seq<Seq<u8>>, int), DecodeError>(
            (items, pos + items_bytes(items).len()),
        ),
    decreases items.len(),
{
    reveal(has_at);
    if items.len() == 0 {
        assert(items =~= Seq::<Seq<u8>>::empty());
    } else {
        let first = items[0];
        let rest = items.drop_first();
        let prefix = compact_size(first.len() as u64);
        lemma_has_at_split(b, pos, var_bytes(first), items_bytes(rest));
        lemma_has_at_split(b, pos, prefix, first);
        lemma_read_compact_size_of_written(b, pos, first.len() as u64);
        lemma_read_items_of_written(
            b,
            pos + var_bytes(first).len(),
            rest,
            used + var_bytes(first).len(),
        );
        assert(read_exact(b, pos + prefix.len(), first.len() as int) == Ok::<
            (Seq<u8>, int),
            DecodeError,
        >((first, pos + var_bytes(first).len())));
        assert(seq![first] + rest =~= items);
    }
}

pub proof fn lemma_read_witness_of_written(b: Seq<u8>, pos: int, items: Seq<Seq<u8>>)
    requires
        valid_witness(items),
        has_at(b, pos, witness_bytes(items)),
    ensures
        read_witness(b, pos) == Ok::<(Seq<Seq<u8>>, int), DecodeError>(
            (items, pos + witness_bytes(items).len()),
        ),
{
    let prefix = compact_size(items.len() as u64);
    lemma_has_at_split(b, pos, prefix, items_bytes(items));
    lemma_read_compact_size_of_written(b, pos, items.len() as u64);
    lemma_read_items_of_written(b, pos + prefix.len(), items, 0);
}

pub proof fn lemma_read_witnesses_of_written(b: Seq<u8>, pos: int, inputs: Seq<TxInModel>)
    requires
        valid_inputs(inputs),
        has_at(b, pos, witnesses_bytes(inputs)),
    ensures
        read_witnesses(b, pos, stripped(inputs)) == Ok::<(Seq<TxInModel>, int), DecodeError>(
            (inputs, pos + witnesses_bytes(inputs).len()),
        ),
    decreases inputs.len(),
{
    reveal(stripped);
    if inputs.len() == 0 {
        assert(inputs =~= Seq::<TxInModel>::empty());
    } else {
        let first = inputs[0];
        let rest = inputs.drop_first();
        assert(valid_input(first));
        assert forall|i: int| 0 <= i < rest.len() implies valid_input(#[trigger] rest[i]) by {
            assert(rest[i] == inputs[i + 1]);
        }
        lemma_has_at_split(b, pos, witness_bytes(first.witness), witnesses_bytes(rest));
        lemma_read_witness_of_written(b, pos, first.witness);
        lemma_read_witnesses_of_written(b, pos + witness_bytes(first.witness).len(), rest);
        assert(stripped(inputs).drop_first() =~= stripped(rest));
        assert(with_witness(stripped(inputs)[0], first.witness) == first);
        assert(seq![first] + rest =~= inputs);
    }
}

/// Inputs of which none has a witness are their own stripped form.
pub proof fn lemma_stripped_of_bare(inputs: Seq<TxInModel>)
    requires
        no_witness(inputs),
    ensures
        stripped(inputs) == inputs,
{
    reveal(stripped);
    assert forall|i: int| 0 <= i < inputs.len() implies stripped(inputs)[i] == inputs[i] by {
        assert(inputs[i].witness =~= Seq::<Seq<u8>>::empty());
    }
    assert(stripped(inputs) =~= inputs);
}

pub proof fn lemma_read_input_list_of_written(b: Seq<u8>, pos: int, inputs: Seq<TxInModel>)
    requires
        inputs.len() <= u64::MAX,
        valid_inputs(inputs),
        has_at(b, pos, compact_size(inputs.len() as u64) + txins_bytes(inputs)),
    ensures
        read_input_list(b, pos) == Ok::<(Seq<TxInModel>, int), DecodeError>(
            (
                stripped(inputs),
                pos + compact_size(inputs.len() as u64).len() + txins_bytes(inputs).len(),
            ),
        ),
{
    let prefix = compact_size(inputs.len() as u64);
    lemma_has_at_split(b, pos, prefix, txins_bytes(inputs));
    lemma_read_compact_size_of_written(b, pos, inputs.len() as u64);
    lemma_read_txins_of_written(b, pos + prefix.len(), inputs);
}

pub proof fn lemma_read_output_list_of_written(b: Seq<u8>, pos: int, outputs: Seq<TxOutModel>)
    requires
        outputs.len() <= u64::MAX,
        valid_outputs(outputs),
        has_at(b, pos, compact_size(outputs.len() as u64) + txouts_bytes(outputs)),
    ensures
        read_output_list(b, pos) == Ok::<(Seq<TxOutModel>, int), DecodeError>(
            (
                outputs,
                pos + compact_size(outputs.len() as u64).len() + txouts_bytes(outputs).len(),
            ),
        ),
{
    let prefix = compact_size(outputs.len() as u64);
    lemma_has_at_split(b, pos, prefix, txouts_bytes(outputs));
    lemma_read_compact_size_of_written(b, pos, outputs.len() as u64);
    lemma_read_txouts_of_written(b, pos + prefix.len(), outputs);
}


/// Where each of four pieces written one after the other stands.
proof fn lemma_four_pieces(b: Seq<u8>, p0: Seq<u8>, p1: Seq<u8>, p2: Seq<u8>, p3: Seq<u8>)
    requires
        b == p0 + p1 + p2 + p3,
    ensures
        has_at(b, 0, p0),
        has_at(b, p0.len() as int, p1),
        has_at(b, (p0.len() + p1.len()) as int, p2),
        has_at(b, (p0.len() + p1.len() + p2.len()) as int, p3),
        b.len() == p0.len() + p1.len() + p2.len() + p3.len(),
{
    reveal(has_at);
    assert(b.subrange(0, b.len() as int) =~= b);
    lemma_has_at_split(b, 0, p0 + p1 + p2, p3);
    lemma_has_at_split(b, 0, p0 + p1, p2);
    lemma_has_at_split(b, 0, p0, p1);
}

/// Where each of six pieces written one after the other stands.
proof fn lemma_six_pieces(
    b: Seq<u8>,
    p0: Seq<u8>,
    p1: Seq<u8>,
    p2: Seq<u8>,
    p3: Seq<u8>,
    p4: Seq<u8>,
    p5: Seq<u8>,
)
    requires
        b == p0 + p1 + p2 + p3 + p4 + p5,
    ensures
        has_at(b, 0, p0),
        has_at(b, p0.len() as int, p1),
        has_at(b, (p0.len() + p1.len()) as int, p2),
        has_at(b, (p0.len() + p1.len() + p2.len()) as int, p3),
        has_at(b, (p0.len() + p1.len() + p2.len() + p3.len()) as int, p4),
        has_at(b, (p0.len() + p1.len() + p2.len() + p3.len() + p4.len()) as int, p5),
        b.len() == p0.len() + p1.len() + p2.len() + p3.len() + p4.len() + p5.len(),
{
    reveal(has_at);
    assert(b.subrange(0, b.len() as int) =~= b);
    lemma_has_at_split(b, 0, p0 + p1 + p2 + p3 + p4, p5);
    lemma_has_at_split(b, 0, p0 + p1 + p2 + p3, p4);
    lemma_has_at_split(b, 0, p0 + p1 + p2, p3);
    lemma_has_at_split(b, 0, p0 + p1, p2);
    lemma_has_at_split(b, 0, p0, p1);
}

/// A list behind its count is one piece.
pub proof fn lemma_group_lists(
    v: Seq<u8>,
    ci: Seq<u8>,
    ins: Seq<u8>,
    co: Seq<u8>,
    outs: Seq<u8>,
    tail: Seq<u8>,
)
    ensures
        v + ci + ins + co + outs + tail == v + (ci + ins) + (co + outs) + tail,
{
    assert(v + ci + ins + co + outs + tail =~= v + (ci + ins) + (co + outs) + tail);
}

/// A transaction of which no input has a witness has no witness at all.
proof fn lemma_legacy_form_is_bare(tx: TxModel)
    requires
        !uses_witness_form(tx),
    ensures
        no_witness(tx.input),
        tx.input.len() > 0,
{
    assert forall|i: int| 0 <= i < tx.input.len() implies (#[trigger] tx.input[i]).witness.len()
        == 0 by {
        if tx.input[i].witness.len() > 0 {
            assert(has_witness(tx.input));
        }
    }
}

/// The pieces of the form without witnesses.
proof fn lemma_legacy_pieces(tx: TxModel)
    ensures
        ({
            let b = tx_bytes_legacy(tx);
            let ins = compact_size(tx.input.len() as u64) + txins_bytes(tx.input);
            let outs = compact_size(tx.output.len() as u64) + txouts_bytes(tx.output);
            &&& has_at(b, 0, i32_le(tx.version))
            &&& has_at(b, 4, ins)
            &&& has_at(b, (4 + ins.len()) as int, outs)
            &&& has_at(b, (4 + ins.len() + outs.len()) as int, u32_le(tx.lock_time))
            &&& b.len() == 4 + ins.len() + outs.len() + 4
        }),
{
    let b = tx_bytes_legacy(tx);
    let v = i32_le(tx.version);
    let ins = compact_size(tx.input.len() as u64) + txins_bytes(tx.input);
    let outs = compact_size(tx.output.len() as u64) + txouts_bytes(tx.output);
    let lt = u32_le(tx.lock_time);
    lemma_group_lists(
        v,
        compact_size(tx.input.len() as u64),
        txins_bytes(tx.input),
        compact_size(tx.output.len() as u64),
        txouts_bytes(tx.output),
        lt,
    );
    lemma_four_pieces(b, v, ins, outs, lt);
}

/// The pieces of the form with witnesses.
proof fn lemma_witness_pieces(tx: TxModel)
    ensures
        ({
            let b = tx_bytes_witness(tx);
            let ins = compact_size(tx.input.len() as u64) + txins_bytes(tx.input);
            let outs = compact_size(tx.output.len() as u64) + txouts_bytes(tx.output);
            let wits = witnesses_bytes(tx.input);
            &&& has_at(b, 0, i32_le(tx.version))
            &&& 6 <= b.len()
            &&& b[4] == 0
            &&& b[5] == 1
            &&& has_at(b, 6, ins)
            &&& has_at(b, (6 + ins.len()) as int, outs)
            &&& has_at(b, (6 + ins.len() + outs.len()) as int, wits)
            &&& has_at(
                b,
                (6 + ins.len() + outs.len() + wits.len()) as int,
                u32_le(tx.lock_time),
            )
            &&& b.len() == 6 + ins.len() + outs.len() + wits.len() + 4
        }),
{
    let b = tx_bytes_witness(tx);
    let v = i32_le(tx.version);
    let mf = seq![0u8, 1u8];
    let ci = compact_size(tx.input.len() as u64);
    let co = compact_size(tx.output.len() as u64);
    let ins = ci + txins_bytes(tx.input);
    let outs = co + txouts_bytes(tx.output);
    let wits = witnesses_bytes(tx.input);
    let lt = u32_le(tx.lock_time);
    assert(v + mf + ci + txins_bytes(tx.input) + co + txouts_bytes(tx.output) + wits + lt =~= v
        + mf + ins + outs + wits + lt);
    lemma_six_pieces(b, v, mf, ins, outs, wits, lt);
    lemma_has_at_index(b, 4, mf, 0);
    lemma_has_at_index(b, 4, mf, 1);
}

/// What the reader makes of the form without witnesses, given what it makes
/// of each piece.
proof fn lemma_conclude_legacy(b: Seq<u8>, tx: TxModel, p2: int, p3: int)
    requires
        read_i32(b, 0) == Ok::<(i32, int), DecodeError>((tx.version, 4)),
        read_input_list(b, 4) == Ok::<(Seq<TxInModel>, int), DecodeError>((tx.input, p2)),
        tx.input.len() > 0,
        read_output_list(b, p2) == Ok::<(Seq<TxOutModel>, int), DecodeError>((tx.output, p3)),
        read_u32(b, p3) == Ok::<(u32, int), DecodeError>((tx.lock_time, p3 + 4)),
    ensures
        read_tx(b, 0) == Ok::<(TxModel, int), DecodeError>((tx, p3 + 4)),
{
}

/// What the reader makes of the form with witnesses, given what it makes of
/// each piece.
proof fn lemma_conclude_witness(
    b: Seq<u8>,
    tx: TxModel,
    bare: Seq<TxInModel>,
    p2: int,
    p3: int,
    p4: int,
)
    requires
        read_i32(b, 0) == Ok::<(i32, int), DecodeError>((tx.version, 4)),
        6 <= b.len(),
        b[4] == 0,
        b[5] == 1,
        read_input_list(b, 6) == Ok::<(Seq<TxInModel>, int), DecodeError>((bare, p2)),
        read_output_list(b, p2) == Ok::<(Seq<TxOutModel>, int), DecodeError>((tx.output, p3)),
        read_witnesses(b, p3, bare) == Ok::<(Seq<TxInModel>, int), DecodeError>((tx.input, p4)),
        !(tx.input.len() > 0 && no_witness(tx.input)),
        read_u32(b, p4) == Ok::<(u32, int), DecodeError>((tx.lock_time, p4 + 4)),
    ensures
        read_tx(b, 0) == Ok::<(TxModel, int), DecodeError>((tx, p4 + 4)),
{
    assert(read_compact_size(b, 4) == Ok::<(u64, int), DecodeError>((0u64, 5)));
    assert(read_txins(b, 5, 0) == Ok::<(Seq<TxInModel>, int), DecodeError>((Seq::empty(), 5)));
    assert(read_input_list(b, 4) == Ok::<(Seq<TxInModel>, int), DecodeError>(
        (Seq::empty(), 5),
    ));
    assert(read_u8(b, 5) == Ok::<(u8, int), DecodeError>((1u8, 6)));
    assert(read_witness_form(b, 6, tx.version) == Ok::<(TxModel, int), DecodeError>(
        (tx, p4 + 4),
    ));
}

/// Where the outputs start in the form without witnesses.
pub open spec fn legacy_outputs_start(tx: TxModel) -> int {
    (4 + compact_size(tx.input.len() as u64).len() + txins_bytes(tx.input).len()) as int
}

/// Where the lock time starts in the form without witnesses.
pub open spec fn legacy_lock_time_start(tx: TxModel) -> int {
    legacy_outputs_start(tx) + compact_size(tx.output.len() as u64).len() + txouts_bytes(
        tx.output,
    ).len()
}

proof fn lemma_legacy_version(tx: TxModel)
    ensures
        read_i32(tx_bytes_legacy(tx), 0) == Ok::<(i32, int), DecodeError>((tx.version, 4)),
        tx_bytes_legacy(tx).len() == legacy_lock_time_start(tx) + 4,
{
    lemma_legacy_pieces(tx);
    lemma_read_i32_of_written(tx_bytes_legacy(tx), 0, tx.version);
}

proof fn lemma_legacy_inputs(tx: TxModel)
    requires
        valid_tx(tx),
    ensures
        read_input_list(tx_bytes_legacy(tx), 4) == Ok::<(Seq<TxInModel>, int), DecodeError>(
            (stripped(tx.input), legacy_outputs_start(tx)),
        ),
{
    lemma_legacy_pieces(tx);
    lemma_read_input_list_of_written(tx_bytes_legacy(tx), 4, tx.input);
}

proof fn lemma_legacy_outputs(tx: TxModel)
    requires
        valid_tx(tx),
    ensures
        read_output_list(tx_bytes_legacy(tx), legacy_outputs_start(tx)) == Ok::<
            (Seq<TxOutModel>, int),
            DecodeError,
        >((tx.output, legacy_lock_time_start(tx))),
{
    lemma_legacy_pieces(tx);
    lemma_read_output_list_of_written(tx_bytes_legacy(tx), legacy_outputs_start(tx), tx.output);
}

proof fn lemma_legacy_lock_time(tx: TxModel)
    ensures
        read_u32(tx_bytes_legacy(tx), legacy_lock_time_start(tx)) == Ok::<
            (u32, int),
            DecodeError,
        >((tx.lock_time, legacy_lock_time_start(tx) + 4)),
{
    lemma_legacy_pieces(tx);
    lemma_read_u32_of_written(tx_bytes_legacy(tx), legacy_lock_time_start(tx), tx.lock_time);
}

/// What the reader makes of the form without witnesses where the inputs
/// carry none.
proof fn lemma_read_bare_legacy_form(tx: TxModel)
    requires
        valid_tx(tx),
        tx.input.len() > 0,
        stripped(tx.input) == tx.input,
    ensures
        read_tx(tx_bytes_legacy(tx), 0) == Ok::<(TxModel, int), DecodeError>(
            (tx, tx_bytes_legacy(tx).len() as int),
        ),
{
    lemma_legacy_version(tx);
    lemma_legacy_inputs(tx);
    lemma_legacy_outputs(tx);
    lemma_legacy_lock_time(tx);
    lemma_conclude_legacy(
        tx_bytes_legacy(tx),
        tx,
        legacy_outputs_start(tx),
        legacy_lock_time_start(tx),
    );
}

proof fn lemma_read_legacy_form(tx: TxModel)
    requires
        valid_tx(tx),
        !uses_witness_form(tx),
    ensures
        read_tx(tx_bytes_legacy(tx), 0) == Ok::<(TxModel, int), DecodeError>(
            (tx, tx_bytes_legacy(tx).len() as int),
        ),
{
    lemma_legacy_form_is_bare(tx);
    lemma_stripped_of_bare(tx.input);
    lemma_read_bare_legacy_form(tx);
}

/// Where the outputs start in the form with witnesses.
pub open spec fn witness_outputs_start(tx: TxModel) -> int {
    (6 + compact_size(tx.input.len() as u64).len() + txins_bytes(tx.input).len()) as int
}

/// Where the witnesses start in the form with witnesses.
pub open spec fn witnesses_start(tx: TxModel) -> int {
    witness_outputs_start(tx) + compact_size(tx.output.len() as u64).len() + txouts_bytes(
        tx.output,
    ).len()
}

/// Where the lock time starts in the form with witnesses.
pub open spec fn witness_lock_time_start(tx: TxModel) -> int {
    witnesses_start(tx) + witnesses_bytes(tx.input).len()
}

proof fn lemma_witness_version(tx: TxModel)
    ensures
        read_i32(tx_bytes_witness(tx), 0) == Ok::<(i32, int), DecodeError>((tx.version, 4)),
        tx_bytes_witness(tx).len() == witness_lock_time_start(tx) + 4,
        6 <= tx_bytes_witness(tx).len(),
        tx_bytes_witness(tx)[4] == 0,
        tx_bytes_witness(tx)[5] == 1,
{
    lemma_witness_pieces(tx);
    lemma_read_i32_of_written(tx_bytes_witness(tx), 0, tx.version);
}

proof fn lemma_witness_inputs(tx: TxModel)
    requires
        valid_tx(tx),
    ensures
        read_input_list(tx_bytes_witness(tx), 6) == Ok::<(Seq<TxInModel>, int), DecodeError>(
            (stripped(tx.input), witness_outputs_start(tx)),
        ),
{
    lemma_witness_pieces(tx);
    lemma_read_input_list_of_written(tx_bytes_witness(tx), 6, tx.input);
}

proof fn lemma_witness_outputs(tx: TxModel)
    requires
        valid_tx(tx),
    ensures
        read_output_list(tx_bytes_witness(tx), witness_outputs_start(tx)) == Ok::<
            (Seq<TxOutModel>, int),
            DecodeError,
        >((tx.output, witnesses_start(tx))),
{
    lemma_witness_pieces(tx);
    lemma_read_output_list_of_written(tx_bytes_witness(tx), witness_outputs_start(tx), tx.output);
}

proof fn lemma_witness_witnesses(tx: TxModel)
    requires
        valid_tx(tx),
    ensures
        read_witnesses(tx_bytes_witness(tx), witnesses_start(tx), stripped(tx.input)) == Ok::<
            (Seq<TxInModel>, int),
            DecodeError,
        >((tx.input, witness_lock_time_start(tx))),
{
    lemma_witness_pieces(tx);
    lemma_read_witnesses_of_written(tx_bytes_witness(tx), witnesses_start(tx), tx.input);
}

proof fn lemma_witness_lock_time(tx: TxModel)
    ensures
        read_u32(tx_bytes_witness(tx), witness_lock_time_start(tx)) == Ok::<
            (u32, int),
            DecodeError,
        >((tx.lock_time, witness_lock_time_start(tx) + 4)),
{
    lemma_witness_pieces(tx);
    lemma_read_u32_of_written(tx_bytes_witness(tx), witness_lock_time_start(tx), tx.lock_time);
}

/// A transaction in the witness form has a witness or has no input.
proof fn lemma_witness_form_has_witness(tx: TxModel)
    requires
        uses_witness_form(tx),
    ensures
        !(tx.input.len() > 0 && no_witness(tx.input)),
{
}

proof fn lemma_read_witness_form(tx: TxModel)
    requires
        valid_tx(tx),
        uses_witness_form(tx),
    ensures
        read_tx(tx_bytes_witness(tx), 0) == Ok::<(TxModel, int), DecodeError>(
            (tx, tx_bytes_witness(tx).len() as int),
        ),
{
    lemma_witness_version(tx);
    lemma_witness_inputs(tx);
    lemma_witness_outputs(tx);
    lemma_witness_witnesses(tx);
    lemma_witness_lock_time(tx);
    lemma_witness_form_has_witness(tx);
    lemma_conclude_witness(
        tx_bytes_witness(tx),
        tx,
        stripped(tx.input),
        witness_outputs_start(tx),
        witnesses_start(tx),
        witness_lock_time_start(tx),
    );
}

/// Decoding the encoding of a transaction gives the transaction back.
pub proof fn lemma_decode_encode(tx: TxModel)
    requires
        valid_tx(tx),
    ensures
        decoding(tx_bytes(tx)) == Ok::<TxModel, DecodeError>(tx),
{
    if uses_witness_form(tx) {
        lemma_read_witness_form(tx);
    } else {
        lemma_read_legacy_form(tx);
    }
}


/// The items of two lists written one after the other are the items of the
/// lists joined.
pub proof fn lemma_items_bytes_concat(a: Seq<Seq<u8>>, b: Seq<Seq<u8>>)
    ensures
        items_bytes(a + b) == items_bytes(a) + items_bytes(b),
    decreases b.len(),
{
    if b.len() == 0 {
        assert(a + b =~= a);
        assert(items_bytes(a) + items_bytes(b) =~= items_bytes(a));
    } else {
        lemma_items_bytes_concat(a, b.drop_last());
        lemma_items_bytes_push(a + b.drop_last(), b.last());
        lemma_items_bytes_push(b.drop_last(), b.last());
        assert((a + b.drop_last()).push(b.last()) =~= a + b);
        assert(b.drop_last().push(b.last()) =~= b);
        assert(items_bytes(a) + (items_bytes(b.drop_last()) + var_bytes(b.last())) =~= items_bytes(
            a,
        ) + items_bytes(b.drop_last()) + var_bytes(b.last()));
    }
}

/// Tells how many bytes the compact size of a number takes.
pub fn compact_size_len(n: u64) -> (r: u64)
    ensures
        r == compact_size(n).len(),
        1 <= r <= 9,
{
    if n < 0xfd {
        1
    } else if n <= 0xffff {
        3
    } else if n <= 0xffff_ffff {
        5
    } else {
        9
    }
}

/// Tells whether the reader accepts a witness.
pub fn witness_fits(items: &Vec<Vec<u8>>) -> (r: bool)
    ensures
        r == valid_witness(stack_view(items@)),
{
    let ghost all = stack_view(items@);
    let n = items.len();
    if n as u64 > MAX_WITNESS_SIZE {
        return false;
    }
    let mut used: u64 = 0;
    let mut k: usize = 0;
    assert(all.take(0) =~= Seq::<Seq<u8>>::empty());
    while k < n
        invariant
            n == items@.len(),
            n <= MAX_WITNESS_SIZE,
            k <= n,
            all == stack_view(items@),
            used <= MAX_WITNESS_SIZE,
            used == items_bytes(all.take(k as int)).len(),
        decreases n - k,
    {
        let len = items[k].len() as u64;
        proof {
            assert(all.take(k + 1) =~= all.take(k as int).push(all[k as int]));
            lemma_items_bytes_push(all.take(k as int), all[k as int]);
            assert(all.take(k + 1) + all.skip(k + 1) =~= all);
            lemma_items_bytes_concat(all.take(k + 1), all.skip(k + 1));
        }
        if len > MAX_WITNESS_SIZE {
            return false;
        }
        let next = used + compact_size_len(len) + len;
        if next > MAX_WITNESS_SIZE {
            return false;
        }
        used = next;
        k = k + 1;
    }
    assert(all.take(n as int) =~= all);
    true
}

/// Tells whether a transaction can be written and read again.
pub fn is_readable(tx: &Transaction) -> (r: bool)
    ensures
        r == valid_tx(tx@),
{
    let n = tx.input.len();
    let mut k: usize = 0;
    while k < n
        invariant
            n == tx.input@.len(),
            k <= n,
            forall|i: int| 0 <= i < k ==> valid_input(#[trigger] tx@.input[i]),
        decreases n - k,
    {
        let input = &tx.input[k];
        let id_len = input.previous_output.txid.as_slice().len();
        let script_len = input.script_sig.len();
        assert(tx@.input[k as int] == input@);
        if !witness_fits(&input.witness) {
            return false;
        }
        k = k + 1;
    }
    let m = tx.output.len();
    let mut j: usize = 0;
    while j < m
        invariant
            m == tx.output@.len(),
            j <= m,
            forall|i: int| 0 <= i < j ==> valid_output(#[trigger] tx@.output[i]),
        decreases m - j,
    {
        let script_len = tx.output[j].script_pubkey.len();
        assert(tx@.output[j as int] == tx.output@[j as int]@);
        j = j + 1;
    }
    true
}

} // verus!
