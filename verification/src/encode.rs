//! Writing a transaction in the binary format.
//!
//! The fields come in this order: version; the inputs behind their count,
//! each as outpoint, signature script and sequence; the outputs behind their
//! count, each as amount and script; lock time.  Where any input has a
//! witness, or where there is no input at all, a marker byte 0 and a flag
//! byte 1 follow the version, and the witnesses of all inputs stand before
//! the lock time.

use crate::tx::{
    inputs_view, outputs_view, stack_view, OutPoint, OutPointModel, Transaction, TxIn, TxInModel,
    TxModel, TxOut, TxOutModel,
};
use crate::wire::{
    compact_size, i32_le, put_compact_size, put_i32, put_u32, put_u64, put_var_bytes, u32_le,
    u64_le, var_bytes,
};
use vstd::prelude::*;

verus! {

pub open spec fn outpoint_bytes(o: OutPointModel) -> Seq<u8> {
    o.txid + u32_le(o.vout)
}

pub open spec fn txin_bytes(i: TxInModel) -> Seq<u8> {
    outpoint_bytes(i.previous_output) + var_bytes(i.script_sig) + u32_le(i.sequence)
}

pub open spec fn txout_bytes(o: TxOutModel) -> Seq<u8> {
    u64_le(o.value) + var_bytes(o.script_pubkey)
}

/// The inputs one after the other, without their count.
pub open spec fn txins_bytes(inputs: Seq<TxInModel>) -> Seq<u8>
    decreases inputs.len(),
{
    if inputs.len() == 0 {
        Seq::empty()
    } else {
        txin_bytes(inputs[0]) + txins_bytes(inputs.drop_first())
    }
}

/// The outputs one after the other, without their count.
pub open spec fn txouts_bytes(outputs: Seq<TxOutModel>) -> Seq<u8>
    decreases outputs.len(),
{
    if outputs.len() == 0 {
        Seq::empty()
    } else {
        txout_bytes(outputs[0]) + txouts_bytes(outputs.drop_first())
    }
}

/// The items of a witness one after the other, each behind its length.
pub open spec fn items_bytes(items: Seq<Seq<u8>>) -> Seq<u8>
    decreases items.len(),
{
    if items.len() == 0 {
        Seq::empty()
    } else {
        var_bytes(items[0]) + items_bytes(items.drop_first())
    }
}

/// A witness: its items behind their count.
pub open spec fn witness_bytes(items: Seq<Seq<u8>>) -> Seq<u8> {
    compact_size(items.len() as u64) + items_bytes(items)
}

/// The witnesses of the inputs one after the other.
pub open spec fn witnesses_bytes(inputs: Seq<TxInModel>) -> Seq<u8>
    decreases inputs.len(),
{
    if inputs.len() == 0 {
        Seq::empty()
    } else {
        witness_bytes(inputs[0].witness) + witnesses_bytes(inputs.drop_first())
    }
}

/// Some input has a witness that is not empty.
pub open spec fn has_witness(inputs: Seq<TxInModel>) -> bool {
    exists|i: int| 0 <= i < inputs.len() && (#[trigger] inputs[i]).witness.len() > 0
}

/// The transaction is written in the witness form.
pub open spec fn uses_witness_form(tx: TxModel) -> bool {
    has_witness(tx.input) || tx.input.len() == 0
}

/// The transaction without marker, flag and witnesses.
pub open spec fn tx_bytes_legacy(tx: TxModel) -> Seq<u8> {
    i32_le(tx.version) + compact_size(tx.input.len() as u64) + txins_bytes(tx.input)
        + compact_size(tx.output.len() as u64) + txouts_bytes(tx.output) + u32_le(tx.lock_time)
}

/// The transaction with marker, flag and witnesses.
pub open spec fn tx_bytes_witness(tx: TxModel) -> Seq<u8> {
    i32_le(tx.version) + seq![0u8, 1u8] + compact_size(tx.input.len() as u64) + txins_bytes(
        tx.input,
    ) + compact_size(tx.output.len() as u64) + txouts_bytes(tx.output) + witnesses_bytes(tx.input)
        + u32_le(tx.lock_time)
}

/// The binary encoding of a transaction.
pub open spec fn tx_bytes(tx: TxModel) -> Seq<u8> {
    if uses_witness_form(tx) {
        tx_bytes_witness(tx)
    } else {
        tx_bytes_legacy(tx)
    }
}

pub proof fn lemma_txins_bytes_push(inputs: Seq<TxInModel>, last: TxInModel)
    ensures
        txins_bytes(inputs.push(last)) == txins_bytes(inputs) + txin_bytes(last),
    decreases inputs.len(),
{
    let grown = inputs.push(last);
    if inputs.len() == 0 {
        assert(grown.drop_first() =~= Seq::<TxInModel>::empty());
        assert(txins_bytes(grown) =~= txin_bytes(last) + txins_bytes(grown.drop_first()));
        assert(txins_bytes(grown.drop_first()) =~= Seq::<u8>::empty());
        assert(txins_bytes(grown) =~= txins_bytes(inputs) + txin_bytes(last));
    } else {
        assert(grown.drop_first() =~= inputs.drop_first().push(last));
        lemma_txins_bytes_push(inputs.drop_first(), last);
        assert(txins_bytes(grown) =~= txins_bytes(inputs) + txin_bytes(last));
    }
}

pub proof fn lemma_txouts_bytes_push(outputs: Seq<TxOutModel>, last: TxOutModel)
    ensures
        txouts_bytes(outputs.push(last)) == txouts_bytes(outputs) + txout_bytes(last),
    decreases outputs.len(),
{
    let grown = outputs.push(last);
    if outputs.len() == 0 {
        assert(grown.drop_first() =~= Seq::<TxOutModel>::empty());
        assert(txouts_bytes(grown) =~= txout_bytes(last) + txouts_bytes(grown.drop_first()));
        assert(txouts_bytes(grown.drop_first()) =~= Seq::<u8>::empty());
        assert(txouts_bytes(grown) =~= txouts_bytes(outputs) + txout_bytes(last));
    } else {
        assert(grown.drop_first() =~= outputs.drop_first().push(last));
        lemma_txouts_bytes_push(outputs.drop_first(), last);
        assert(txouts_bytes(grown) =~= txouts_bytes(outputs) + txout_bytes(last));
    }
}

pub proof fn lemma_items_bytes_push(items: Seq<Seq<u8>>, last: Seq<u8>)
    ensures
        items_bytes(items.push(last)) == items_bytes(items) + var_bytes(last),
    decreases items.len(),
{
    let grown = items.push(last);
    if items.len() == 0 {
        assert(grown.drop_first() =~= Seq::<Seq<u8>>::empty());
        assert(items_bytes(grown) =~= var_bytes(last) + items_bytes(grown.drop_first()));
        assert(items_bytes(grown.drop_first()) =~= Seq::<u8>::empty());
        assert(items_bytes(grown) =~= items_bytes(items) + var_bytes(last));
    } else {
        assert(grown.drop_first() =~= items.drop_first().push(last));
        lemma_items_bytes_push(items.drop_first(), last);
        assert(items_bytes(grown) =~= items_bytes(items) + var_bytes(last));
    }
}

pub proof fn lemma_witnesses_bytes_push(inputs: Seq<TxInModel>, last: TxInModel)
    ensures
        witnesses_bytes(inputs.push(last)) == witnesses_bytes(inputs) + witness_bytes(
            last.witness,
        ),
    decreases inputs.len(),
{
    let grown = inputs.push(last);
    if inputs.len() == 0 {
        assert(grown.drop_first() =~= Seq::<TxInModel>::empty());
        assert(witnesses_bytes(grown) =~= witness_bytes(last.witness) + witnesses_bytes(
            grown.drop_first(),
        ));
        assert(witnesses_bytes(grown.drop_first()) =~= Seq::<u8>::empty());
        assert(witnesses_bytes(grown) =~= witnesses_bytes(inputs) + witness_bytes(last.witness));
    } else {
        assert(grown.drop_first() =~= inputs.drop_first().push(last));
        lemma_witnesses_bytes_push(inputs.drop_first(), last);
        assert(witnesses_bytes(grown) =~= witnesses_bytes(inputs) + witness_bytes(last.witness));
    }
}

pub fn put_outpoint(out: &mut Vec<u8>, o: &OutPoint)
    ensures
        final(out)@ == old(out)@ + outpoint_bytes(o@),
{
    out.extend_from_slice(o.txid.as_slice());
    put_u32(out, o.vout);
    assert(out@ == old(out)@ + outpoint_bytes(o@));
}

pub fn put_txin(out: &mut Vec<u8>, i: &TxIn)
    ensures
        final(out)@ == old(out)@ + txin_bytes(i@),
{
    put_outpoint(out, &i.previous_output);
    put_var_bytes(out, i.script_sig.as_slice());
    put_u32(out, i.sequence);
    assert(out@ == old(out)@ + txin_bytes(i@));
}

pub fn put_txout(out: &mut Vec<u8>, o: &TxOut)
    ensures
        final(out)@ == old(out)@ + txout_bytes(o@),
{
    put_u64(out, o.value);
    put_var_bytes(out, o.script_pubkey.as_slice());
    assert(out@ == old(out)@ + txout_bytes(o@));
}

pub fn put_txins(out: &mut Vec<u8>, inputs: &Vec<TxIn>)
    ensures
        final(out)@ == old(out)@ + txins_bytes(inputs_view(inputs@)),
{
    let n = inputs.len();
    let mut k: usize = 0;
    assert(inputs_view(inputs@).take(0) =~= Seq::<TxInModel>::empty());
    while k < n
        invariant
            n == inputs@.len(),
            k <= n,
            out@ == old(out)@ + txins_bytes(inputs_view(inputs@).take(k as int)),
        decreases n - k,
    {
        put_txin(out, &inputs[k]);
        proof {
            let all = inputs_view(inputs@);
            assert(all.take(k + 1) =~= all.take(k as int).push(all[k as int]));
            lemma_txins_bytes_push(all.take(k as int), all[k as int]);
        }
        k = k + 1;
    }
    assert(inputs_view(inputs@).take(n as int) =~= inputs_view(inputs@));
}

pub fn put_txouts(out: &mut Vec<u8>, outputs: &Vec<TxOut>)
    ensures
        final(out)@ == old(out)@ + txouts_bytes(outputs_view(outputs@)),
{
    let n = outputs.len();
    let mut k: usize = 0;
    assert(outputs_view(outputs@).take(0) =~= Seq::<TxOutModel>::empty());
    while k < n
        invariant
            n == outputs@.len(),
            k <= n,
            out@ == old(out)@ + txouts_bytes(outputs_view(outputs@).take(k as int)),
        decreases n - k,
    {
        put_txout(out, &outputs[k]);
        proof {
            let all = outputs_view(outputs@);
            assert(all.take(k + 1) =~= all.take(k as int).push(all[k as int]));
            lemma_txouts_bytes_push(all.take(k as int), all[k as int]);
        }
        k = k + 1;
    }
    assert(outputs_view(outputs@).take(n as int) =~= outputs_view(outputs@));
}

pub fn put_witness(out: &mut Vec<u8>, items: &Vec<Vec<u8>>)
    ensures
        final(out)@ == old(out)@ + witness_bytes(stack_view(items@)),
{
    let n = items.len();
    put_compact_size(out, n as u64);
    let ghost start = out@;
    let mut k: usize = 0;
    assert(stack_view(items@).take(0) =~= Seq::<Seq<u8>>::empty());
    while k < n
        invariant
            n == items@.len(),
            k <= n,
            out@ == start + items_bytes(stack_view(items@).take(k as int)),
        decreases n - k,
    {
        put_var_bytes(out, items[k].as_slice());
        proof {
            let all = stack_view(items@);
            assert(all.take(k + 1) =~= all.take(k as int).push(all[k as int]));
            lemma_items_bytes_push(all.take(k as int), all[k as int]);
        }
        k = k + 1;
    }
    assert(stack_view(items@).take(n as int) =~= stack_view(items@));
    assert(out@ == old(out)@ + witness_bytes(stack_view(items@)));
}

pub fn put_witnesses(out: &mut Vec<u8>, inputs: &Vec<TxIn>)
    ensures
        final(out)@ == old(out)@ + witnesses_bytes(inputs_view(inputs@)),
{
    let n = inputs.len();
    let mut k: usize = 0;
    assert(inputs_view(inputs@).take(0) =~= Seq::<TxInModel>::empty());
    while k < n
        invariant
            n == inputs@.len(),
            k <= n,
            out@ == old(out)@ + witnesses_bytes(inputs_view(inputs@).take(k as int)),
        decreases n - k,
    {
        put_witness(out, &inputs[k].witness);
        proof {
            let all = inputs_view(inputs@);
            assert(all.take(k + 1) =~= all.take(k as int).push(all[k as int]));
            lemma_witnesses_bytes_push(all.take(k as int), all[k as int]);
        }
        k = k + 1;
    }
    assert(inputs_view(inputs@).take(n as int) =~= inputs_view(inputs@));
}

/// Tells whether some input has a witness that is not empty.
pub fn any_witness(inputs: &Vec<TxIn>) -> (r: bool)
    ensures
        r == has_witness(inputs_view(inputs@)),
{
    let n = inputs.len();
    let mut k: usize = 0;
    while k < n
        invariant
            n == inputs@.len(),
            k <= n,
            forall|i: int| 0 <= i < k ==> (#[trigger] inputs_view(inputs@)[i]).witness.len() == 0,
        decreases n - k,
    {
        if inputs[k].witness.len() > 0 {
            assert(inputs_view(inputs@)[k as int].witness.len() > 0);
            return true;
        }
        k = k + 1;
    }
    false
}

/// Writes a transaction in the form that takes no account of witnesses.
pub fn encode_legacy(tx: &Transaction) -> (r: Vec<u8>)
    ensures
        r@ == tx_bytes_legacy(tx@),
{
    let mut out: Vec<u8> = Vec::new();
    put_i32(&mut out, tx.version);
    put_compact_size(&mut out, tx.input.len() as u64);
    put_txins(&mut out, &tx.input);
    put_compact_size(&mut out, tx.output.len() as u64);
    put_txouts(&mut out, &tx.output);
    put_u32(&mut out, tx.lock_time);
    assert(out@ == tx_bytes_legacy(tx@));
    out
}

/// Writes a transaction in the binary format.
pub fn encode(tx: &Transaction) -> (r: Vec<u8>)
    ensures
        r@ == tx_bytes(tx@),
{
    if any_witness(&tx.input) || tx.input.len() == 0 {
        let mut out: Vec<u8> = Vec::new();
        put_i32(&mut out, tx.version);
        out.push(0);
        out.push(1);
        assert(out@ == i32_le(tx.version) + seq![0u8, 1u8]);
        put_compact_size(&mut out, tx.input.len() as u64);
        put_txins(&mut out, &tx.input);
        put_compact_size(&mut out, tx.output.len() as u64);
        put_txouts(&mut out, &tx.output);
        put_witnesses(&mut out, &tx.input);
        put_u32(&mut out, tx.lock_time);
        assert(out@ == tx_bytes_witness(tx@));
        out
    } else {
        encode_legacy(tx)
    }
}

} // verus!
