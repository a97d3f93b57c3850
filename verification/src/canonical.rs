//! What is read was written: a byte string that the reader accepts is the
//! encoding of the transaction that it gives, and of no other.

use crate::decode::{
    decoding, no_witness, read_input_list, read_items, read_outpoint, read_output_list, read_tx,
    read_txin, read_txins, read_txout, read_txouts, read_witness, read_witness_form,
    read_witnesses, with_witness,
};
use crate::encode::{
    has_witness, items_bytes, outpoint_bytes, tx_bytes, tx_bytes_legacy, tx_bytes_witness,
    txin_bytes, txins_bytes, txout_bytes, txouts_bytes, uses_witness_form, witness_bytes,
    witnesses_bytes,
};
use crate::roundtrip::{
    lemma_group_lists, valid_input, valid_inputs, valid_output, valid_outputs, valid_tx,
    valid_witness,
};
use crate::tx::{TxInModel, TxModel};
use crate::wire::{
    bits_i32, compact_size, has_at, i32_bits, i32_le, read_compact_size, read_exact, read_i32,
    read_u8, read_var_bytes, u16_at, u16_le, u32_at, u32_le, u64_at, u64_le, var_bytes,
    DecodeError, MAX_WITNESS_SIZE,
};
use vstd::arithmetic::div_mod::lemma_fundamental_div_mod_converse;
use vstd::prelude::*;

verus! {

/// Where `x` stands, and `y` behind it, `x + y` stands.
pub proof fn lemma_has_at_join(b: Seq<u8>, pos: int, x: Seq<u8>, y: Seq<u8>)
    requires
        has_at(b, pos, x),
        has_at(b, pos + x.len(), y),
    ensures
        has_at(b, pos, x + y),
{
    reveal(has_at);
    assert(b.subrange(pos, pos + (x + y).len()) =~= x + y) by {
        assert forall|i: int| 0 <= i < (x + y).len() implies b.subrange(
            pos,
            pos + (x + y).len(),
        )[i] == (x + y)[i] by {
            if i < x.len() {
                assert(b.subrange(pos, pos + x.len())[i] == b[pos + i]);
            } else {
                assert(b.subrange(pos + x.len(), pos + x.len() + y.len())[i - x.len()] == b[pos
                    + i]);
            }
        }
    }
}

/// A piece that stands at the start of a byte string and is as long as it
/// is the byte string.
pub proof fn lemma_has_at_whole(b: Seq<u8>, piece: Seq<u8>)
    requires
        has_at(b, 0, piece),
        piece.len() == b.len(),
    ensures
        piece == b,
{
    reveal(has_at);
    assert(b.subrange(0, b.len() as int) =~= b);
}

/// Nothing stands everywhere.
pub proof fn lemma_has_at_nothing(b: Seq<u8>, pos: int)
    requires
        0 <= pos <= b.len(),
    ensures
        has_at(b, pos, Seq::<u8>::empty()),
{
    reveal(has_at);
    assert(b.subrange(pos, pos) =~= Seq::<u8>::empty());
}

/// The bytes of a number written low byte first are its digits to the base
/// 256.
proof fn lemma_digits_u16(b0: u8, b1: u8)
    ensures
        u16_le((b0 + 0x100 * b1) as u16) == seq![b0, b1],
{
    let v = b0 as int + 0x100 * b1 as int;
    lemma_fundamental_div_mod_converse(v, 0x100, b1 as int, b0 as int);
    assert(u16_le(v as u16) =~= seq![b0, b1]);
}

proof fn lemma_digits_u32(b0: u8, b1: u8, b2: u8, b3: u8)
    ensures
        u32_le((b0 + 0x100 * b1 + 0x1_0000 * b2 + 0x100_0000 * b3) as u32) == seq![b0, b1, b2, b3],
{
    let v = b0 as int + 0x100 * b1 as int + 0x1_0000 * b2 as int + 0x100_0000 * b3 as int;
    let h1 = b1 as int + 0x100 * b2 as int + 0x1_0000 * b3 as int;
    let h2 = b2 as int + 0x100 * b3 as int;
    lemma_fundamental_div_mod_converse(v, 0x100, h1, b0 as int);
    lemma_fundamental_div_mod_converse(h1, 0x100, h2, b1 as int);
    lemma_fundamental_div_mod_converse(v, 0x1_0000, h2, b0 as int + 0x100 * b1 as int);
    lemma_fundamental_div_mod_converse(h2, 0x100, b3 as int, b2 as int);
    lemma_fundamental_div_mod_converse(
        v,
        0x100_0000,
        b3 as int,
        b0 as int + 0x100 * b1 as int + 0x1_0000 * b2 as int,
    );
    assert(u32_le(v as u32) =~= seq![b0, b1, b2, b3]);
}

proof fn lemma_digits_u64(low: u32, high: u32)
    ensures
        u64_le((low + 0x1_0000_0000 * high) as u64) == u32_le(low) + u32_le(high),
{
    let v = low as int + 0x1_0000_0000 * high as int;
    lemma_fundamental_div_mod_converse(v, 0x1_0000_0000, high as int, low as int);
}

pub proof fn lemma_written_u16(b: Seq<u8>, pos: int)
    requires
        0 <= pos,
        pos + 2 <= b.len(),
    ensures
        has_at(b, pos, u16_le(u16_at(b, pos))),
{
    reveal(has_at);
    lemma_digits_u16(b[pos], b[pos + 1]);
    assert(b.subrange(pos, pos + 2) =~= seq![b[pos], b[pos + 1]]);
}

pub proof fn lemma_written_u32(b: Seq<u8>, pos: int)
    requires
        0 <= pos,
        pos + 4 <= b.len(),
    ensures
        has_at(b, pos, u32_le(u32_at(b, pos))),
{
    reveal(has_at);
    lemma_digits_u32(b[pos], b[pos + 1], b[pos + 2], b[pos + 3]);
    assert(b.subrange(pos, pos + 4) =~= seq![b[pos], b[pos + 1], b[pos + 2], b[pos + 3]]);
}

pub proof fn lemma_written_u64(b: Seq<u8>, pos: int)
    requires
        0 <= pos,
        pos + 8 <= b.len(),
    ensures
        has_at(b, pos, u64_le(u64_at(b, pos))),
{
    lemma_written_u32(b, pos);
    lemma_written_u32(b, pos + 4);
    lemma_digits_u64(u32_at(b, pos), u32_at(b, pos + 4));
    lemma_has_at_join(b, pos, u32_le(u32_at(b, pos)), u32_le(u32_at(b, pos + 4)));
}

pub proof fn lemma_written_i32(b: Seq<u8>, pos: int)
    requires
        0 <= pos,
        pos + 4 <= b.len(),
    ensures
        has_at(b, pos, i32_le(bits_i32(u32_at(b, pos)))),
{
    lemma_written_u32(b, pos);
    assert(i32_bits(bits_i32(u32_at(b, pos))) == u32_at(b, pos));
}

/// A compact size that is read stands where it was read.
pub proof fn lemma_written_compact_size(b: Seq<u8>, pos: int)
    requires
        read_compact_size(b, pos) is Ok,
    ensures
        ({
            let (n, next) = read_compact_size(b, pos)->Ok_0;
            &&& has_at(b, pos, compact_size(n))
            &&& next == pos + compact_size(n).len()
        }),
{
    let (n, next) = read_compact_size(b, pos)->Ok_0;
    let first = b[pos];
    assert(has_at(b, pos, seq![first])) by {
        reveal(has_at);
        assert(b.subrange(pos, pos + 1) =~= seq![first]);
    }
    if first == 0xff {
        lemma_written_u64(b, pos + 1);
        lemma_has_at_join(b, pos, seq![first], u64_le(n));
    } else if first == 0xfe {
        lemma_written_u32(b, pos + 1);
        lemma_has_at_join(b, pos, seq![first], u32_le(n as u32));
    } else if first == 0xfd {
        lemma_written_u16(b, pos + 1);
        lemma_has_at_join(b, pos, seq![first], u16_le(n as u16));
    } else {
    }
}

/// A byte string that is read behind its length stands where it was read.
pub proof fn lemma_written_var_bytes(b: Seq<u8>, pos: int)
    requires
        read_var_bytes(b, pos) is Ok,
    ensures
        ({
            let (data, next) = read_var_bytes(b, pos)->Ok_0;
            &&& has_at(b, pos, var_bytes(data))
            &&& next == pos + var_bytes(data).len()
            &&& data.len() <= u64::MAX
        }),
{
    let (n, p) = read_compact_size(b, pos)->Ok_0;
    let (data, next) = read_var_bytes(b, pos)->Ok_0;
    lemma_written_compact_size(b, pos);
    assert(has_at(b, p, data)) by {
        reveal(has_at);
    }
    lemma_has_at_join(b, pos, compact_size(n), data);
}


/// Inputs as they are read before their witnesses: with identifiers of 32
/// bytes, scripts that the format can hold, and no witness.
pub open spec fn bare_inputs(inputs: Seq<TxInModel>) -> bool {
    forall|i: int|
        0 <= i < inputs.len() ==> {
            &&& (#[trigger] inputs[i]).previous_output.txid.len() == 32
            &&& inputs[i].script_sig.len() <= u64::MAX
            &&& inputs[i].witness.len() == 0
        }
}

pub proof fn lemma_written_outpoint(b: Seq<u8>, pos: int)
    requires
        read_outpoint(b, pos) is Ok,
    ensures
        ({
            let (o, next) = read_outpoint(b, pos)->Ok_0;
            &&& has_at(b, pos, outpoint_bytes(o))
            &&& next == pos + outpoint_bytes(o).len()
            &&& o.txid.len() == 32
        }),
{
    let (o, next) = read_outpoint(b, pos)->Ok_0;
    assert(has_at(b, pos, o.txid)) by {
        reveal(has_at);
    }
    lemma_written_u32(b, pos + 32);
    lemma_has_at_join(b, pos, o.txid, u32_le(o.vout));
}

pub proof fn lemma_written_txin(b: Seq<u8>, pos: int)
    requires
        read_txin(b, pos) is Ok,
    ensures
        ({
            let (input, next) = read_txin(b, pos)->Ok_0;
            &&& has_at(b, pos, txin_bytes(input))
            &&& next == pos + txin_bytes(input).len()
            &&& input.previous_output.txid.len() == 32
            &&& input.script_sig.len() <= u64::MAX
            &&& input.witness.len() == 0
        }),
{
    let (input, next) = read_txin(b, pos)->Ok_0;
    let (o, p) = read_outpoint(b, pos)->Ok_0;
    let (script, q) = read_var_bytes(b, p)->Ok_0;
    lemma_written_outpoint(b, pos);
    lemma_written_var_bytes(b, p);
    lemma_written_u32(b, q);
    lemma_has_at_join(b, pos, outpoint_bytes(o), var_bytes(script));
    lemma_has_at_join(b, pos, outpoint_bytes(o) + var_bytes(script), u32_le(input.sequence));
}

pub proof fn lemma_written_txout(b: Seq<u8>, pos: int)
    requires
        read_txout(b, pos) is Ok,
    ensures
        ({
            let (output, next) = read_txout(b, pos)->Ok_0;
            &&& has_at(b, pos, txout_bytes(output))
            &&& next == pos + txout_bytes(output).len()
            &&& output.script_pubkey.len() <= u64::MAX
        }),
{
    let (output, next) = read_txout(b, pos)->Ok_0;
    lemma_written_u64(b, pos);
    lemma_written_var_bytes(b, pos + 8);
    lemma_has_at_join(b, pos, u64_le(output.value), var_bytes(output.script_pubkey));
}

pub proof fn lemma_written_txins(b: Seq<u8>, pos: int, count: nat)
    requires
        0 <= pos <= b.len(),
        read_txins(b, pos, count) is Ok,
    ensures
        ({
            let (inputs, next) = read_txins(b, pos, count)->Ok_0;
            &&& inputs.len() == count
            &&& has_at(b, pos, txins_bytes(inputs))
            &&& next == pos + txins_bytes(inputs).len()
            &&& next <= b.len()
            &&& bare_inputs(inputs)
        }),
    decreases count,
{
    let (inputs, next) = read_txins(b, pos, count)->Ok_0;
    if count == 0 {
        lemma_has_at_nothing(b, pos);
    } else {
        let (first, p) = read_txin(b, pos)->Ok_0;
        lemma_written_txin(b, pos);
        assert(p <= b.len()) by {
            reveal(has_at);
        }
        lemma_written_txins(b, p, (count - 1) as nat);
        let (rest, end) = read_txins(b, p, (count - 1) as nat)->Ok_0;
        assert(inputs == seq![first] + rest);
        assert(inputs.drop_first() =~= rest);
        lemma_has_at_join(b, pos, txin_bytes(first), txins_bytes(rest));
        assert forall|i: int| 0 <= i < inputs.len() implies {
            &&& (#[trigger] inputs[i]).previous_output.txid.len() == 32
            &&& inputs[i].script_sig.len() <= u64::MAX
            &&& inputs[i].witness.len() == 0
        } by {
            if i > 0 {
                assert(inputs[i] == rest[i - 1]);
            }
        }
        assert(next <= b.len()) by {
            reveal(has_at);
        }
    }
}

pub proof fn lemma_written_txouts(b: Seq<u8>, pos: int, count: nat)
    requires
        0 <= pos <= b.len(),
        read_txouts(b, pos, count) is Ok,
    ensures
        ({
            let (outputs, next) = read_txouts(b, pos, count)->Ok_0;
            &&& outputs.len() == count
            &&& has_at(b, pos, txouts_bytes(outputs))
            &&& next == pos + txouts_bytes(outputs).len()
            &&& next <= b.len()
            &&& valid_outputs(outputs)
        }),
    decreases count,
{
    let (outputs, next) = read_txouts(b, pos, count)->Ok_0;
    if count == 0 {
        lemma_has_at_nothing(b, pos);
    } else {
        let (first, p) = read_txout(b, pos)->Ok_0;
        lemma_written_txout(b, pos);
        assert(p <= b.len()) by {
            reveal(has_at);
        }
        lemma_written_txouts(b, p, (count - 1) as nat);
        let (rest, end) = read_txouts(b, p, (count - 1) as nat)->Ok_0;
        assert(outputs == seq![first] + rest);
        assert(outputs.drop_first() =~= rest);
        lemma_has_at_join(b, pos, txout_bytes(first), txouts_bytes(rest));
        assert forall|i: int| 0 <= i < outputs.len() implies valid_output(
            #[trigger] outputs[i],
        ) by {
            if i > 0 {
                assert(outputs[i] == rest[i - 1]);
            }
        }
        assert(next <= b.len()) by {
            reveal(has_at);
        }
    }
}

pub proof fn lemma_written_items(b: Seq<u8>, pos: int, count: nat, used: int)
    requires
        0 <= pos <= b.len(),
        0 <= used <= MAX_WITNESS_SIZE,
        read_items(b, pos, count, used) is Ok,
    ensures
        ({
            let (items, next) = read_items(b, pos, count, used)->Ok_0;
            &&& items.len() == count
            &&& has_at(b, pos, items_bytes(items))
            &&& next == pos + items_bytes(items).len()
            &&& next <= b.len()
            &&& used + items_bytes(items).len() <= MAX_WITNESS_SIZE
        }),
    decreases count,
{
    let (items, next) = read_items(b, pos, count, used)->Ok_0;
    if count == 0 {
        lemma_has_at_nothing(b, pos);
    } else {
        let (n, p) = read_compact_size(b, pos)->Ok_0;
        let used_now = used + (p - pos) + n;
        let (first, q) = read_exact(b, p, n as int)->Ok_0;
        lemma_written_compact_size(b, pos);
        assert(has_at(b, p, first)) by {
            reveal(has_at);
        }
        lemma_has_at_join(b, pos, compact_size(n), first);
        lemma_written_items(b, q, (count - 1) as nat, used_now);
        let (rest, end) = read_items(b, q, (count - 1) as nat, used_now)->Ok_0;
        assert(items == seq![first] + rest);
        assert(items.drop_first() =~= rest);
        lemma_has_at_join(b, pos, var_bytes(first), items_bytes(rest));
        assert(next <= b.len()) by {
            reveal(has_at);
        }
    }
}

pub proof fn lemma_written_witness(b: Seq<u8>, pos: int)
    requires
        0 <= pos <= b.len(),
        read_witness(b, pos) is Ok,
    ensures
        ({
            let (items, next) = read_witness(b, pos)->Ok_0;
            &&& has_at(b, pos, witness_bytes(items))
            &&& next == pos + witness_bytes(items).len()
            &&& next <= b.len()
            &&& valid_witness(items)
        }),
{
    let (count, p) = read_compact_size(b, pos)->Ok_0;
    let (items, next) = read_witness(b, pos)->Ok_0;
    lemma_written_compact_size(b, pos);
    assert(p <= b.len()) by {
        reveal(has_at);
    }
    lemma_written_items(b, p, count as nat, 0);
    lemma_has_at_join(b, pos, compact_size(count), items_bytes(items));
}

/// Each of the inputs is the bare input at its place with a witness that
/// the reader accepts.
pub open spec fn witnessed(inputs: Seq<TxInModel>, bare: Seq<TxInModel>) -> bool {
    &&& inputs.len() == bare.len()
    &&& forall|i: int|
        0 <= i < inputs.len() ==> {
            &&& #[trigger] inputs[i] == with_witness(bare[i], inputs[i].witness)
            &&& valid_witness(inputs[i].witness)
        }
}

pub proof fn lemma_written_witnesses(b: Seq<u8>, pos: int, bare: Seq<TxInModel>)
    requires
        0 <= pos <= b.len(),
        read_witnesses(b, pos, bare) is Ok,
    ensures
        ({
            let (inputs, next) = read_witnesses(b, pos, bare)->Ok_0;
            &&& witnessed(inputs, bare)
            &&& has_at(b, pos, witnesses_bytes(inputs))
            &&& next == pos + witnesses_bytes(inputs).len()
            &&& next <= b.len()
        }),
    decreases bare.len(),
{
    let (inputs, next) = read_witnesses(b, pos, bare)->Ok_0;
    if bare.len() == 0 {
        lemma_has_at_nothing(b, pos);
    } else {
        let (witness, p) = read_witness(b, pos)->Ok_0;
        lemma_written_witness(b, pos);
        lemma_written_witnesses(b, p, bare.drop_first());
        let (rest, end) = read_witnesses(b, p, bare.drop_first())->Ok_0;
        let first = with_witness(bare[0], witness);
        assert(inputs == seq![first] + rest);
        assert(inputs.drop_first() =~= rest);
        lemma_has_at_join(b, pos, witness_bytes(witness), witnesses_bytes(rest));
        assert forall|i: int| 0 <= i < inputs.len() implies {
            &&& #[trigger] inputs[i] == with_witness(bare[i], inputs[i].witness)
            &&& valid_witness(inputs[i].witness)
        } by {
            if i > 0 {
                assert(inputs[i] == rest[i - 1]);
                assert(bare[i] == bare.drop_first()[i - 1]);
            }
        }
        assert(next <= b.len()) by {
            reveal(has_at);
        }
    }
}

/// The witnesses of the inputs are no part of what is written for the
/// inputs themselves.
pub proof fn lemma_txins_bytes_without_witness(inputs: Seq<TxInModel>, bare: Seq<TxInModel>)
    requires
        witnessed(inputs, bare),
    ensures
        txins_bytes(inputs) == txins_bytes(bare),
    decreases inputs.len(),
{
    if inputs.len() > 0 {
        assert(inputs[0] == with_witness(bare[0], inputs[0].witness));
        assert forall|i: int| 0 <= i < inputs.drop_first().len() implies {
            &&& #[trigger] inputs.drop_first()[i] == with_witness(
                bare.drop_first()[i],
                inputs.drop_first()[i].witness,
            )
            &&& valid_witness(inputs.drop_first()[i].witness)
        } by {
            assert(inputs.drop_first()[i] == inputs[i + 1]);
            assert(bare.drop_first()[i] == bare[i + 1]);
        }
        lemma_txins_bytes_without_witness(inputs.drop_first(), bare.drop_first());
    }
}


pub proof fn lemma_written_input_list(b: Seq<u8>, pos: int)
    requires
        0 <= pos <= b.len(),
        read_input_list(b, pos) is Ok,
    ensures
        ({
            let (inputs, next) = read_input_list(b, pos)->Ok_0;
            let written = compact_size(inputs.len() as u64) + txins_bytes(inputs);
            &&& has_at(b, pos, written)
            &&& next == pos + written.len()
            &&& next <= b.len()
            &&& inputs.len() <= u64::MAX
            &&& bare_inputs(inputs)
        }),
{
    let (count, p) = read_compact_size(b, pos)->Ok_0;
    let (inputs, next) = read_input_list(b, pos)->Ok_0;
    lemma_written_compact_size(b, pos);
    assert(p <= b.len()) by {
        reveal(has_at);
    }
    lemma_written_txins(b, p, count as nat);
    lemma_has_at_join(b, pos, compact_size(count), txins_bytes(inputs));
}

pub proof fn lemma_written_output_list(b: Seq<u8>, pos: int)
    requires
        0 <= pos <= b.len(),
        read_output_list(b, pos) is Ok,
    ensures
        ({
            let (outputs, next) = read_output_list(b, pos)->Ok_0;
            let written = compact_size(outputs.len() as u64) + txouts_bytes(outputs);
            &&& has_at(b, pos, written)
            &&& next == pos + written.len()
            &&& next <= b.len()
            &&& outputs.len() <= u64::MAX
            &&& valid_outputs(outputs)
        }),
{
    let (count, p) = read_compact_size(b, pos)->Ok_0;
    let (outputs, next) = read_output_list(b, pos)->Ok_0;
    lemma_written_compact_size(b, pos);
    assert(p <= b.len()) by {
        reveal(has_at);
    }
    lemma_written_txouts(b, p, count as nat);
    lemma_has_at_join(b, pos, compact_size(count), txouts_bytes(outputs));
}

/// Bare inputs are valid inputs, and none of them has a witness.
proof fn lemma_bare_inputs_are_valid(inputs: Seq<TxInModel>)
    requires
        bare_inputs(inputs),
    ensures
        valid_inputs(inputs),
        no_witness(inputs),
        !has_witness(inputs),
{
    assert forall|i: int| 0 <= i < inputs.len() implies valid_input(#[trigger] inputs[i]) by {
        assert(inputs[i].witness.len() == 0);
        assert(items_bytes(inputs[i].witness) =~= Seq::<u8>::empty());
    }
}

/// Bare inputs with accepted witnesses in place are valid inputs.
proof fn lemma_witnessed_inputs_are_valid(inputs: Seq<TxInModel>, bare: Seq<TxInModel>)
    requires
        bare_inputs(bare),
        witnessed(inputs, bare),
    ensures
        valid_inputs(inputs),
{
    assert forall|i: int| 0 <= i < inputs.len() implies valid_input(#[trigger] inputs[i]) by {
        assert(inputs[i] == with_witness(bare[i], inputs[i].witness));
        assert(bare[i].previous_output.txid.len() == 32);
    }
}

/// Four pieces that stand one after the other stand as one.
proof fn lemma_join_four(b: Seq<u8>, p0: Seq<u8>, p1: Seq<u8>, p2: Seq<u8>, p3: Seq<u8>)
    requires
        has_at(b, 0, p0),
        has_at(b, p0.len() as int, p1),
        has_at(b, (p0.len() + p1.len()) as int, p2),
        has_at(b, (p0.len() + p1.len() + p2.len()) as int, p3),
    ensures
        has_at(b, 0, p0 + p1 + p2 + p3),
        (p0 + p1 + p2 + p3).len() == p0.len() + p1.len() + p2.len() + p3.len(),
{
    lemma_has_at_join(b, 0, p0, p1);
    lemma_has_at_join(b, 0, p0 + p1, p2);
    lemma_has_at_join(b, 0, p0 + p1 + p2, p3);
}

/// Six pieces that stand one after the other stand as one.
proof fn lemma_join_six(
    b: Seq<u8>,
    p0: Seq<u8>,
    p1: Seq<u8>,
    p2: Seq<u8>,
    p3: Seq<u8>,
    p4: Seq<u8>,
    p5: Seq<u8>,
)
    requires
        has_at(b, 0, p0),
        has_at(b, p0.len() as int, p1),
        has_at(b, (p0.len() + p1.len()) as int, p2),
        has_at(b, (p0.len() + p1.len() + p2.len()) as int, p3),
        has_at(b, (p0.len() + p1.len() + p2.len() + p3.len()) as int, p4),
        has_at(b, (p0.len() + p1.len() + p2.len() + p3.len() + p4.len()) as int, p5),
    ensures
        has_at(b, 0, p0 + p1 + p2 + p3 + p4 + p5),
        (p0 + p1 + p2 + p3 + p4 + p5).len() == p0.len() + p1.len() + p2.len() + p3.len() + p4.len()
            + p5.len(),
{
    lemma_has_at_join(b, 0, p0, p1);
    lemma_has_at_join(b, 0, p0 + p1, p2);
    lemma_has_at_join(b, 0, p0 + p1 + p2, p3);
    lemma_has_at_join(b, 0, p0 + p1 + p2 + p3, p4);
    lemma_has_at_join(b, 0, p0 + p1 + p2 + p3 + p4, p5);
}

/// What was read in the form without witnesses was written in that form.
proof fn lemma_written_legacy_form(b: Seq<u8>, tx: TxModel, end: int)
    requires
        read_tx(b, 0) == Ok::<(TxModel, int), DecodeError>((tx, end)),
        (read_input_list(b, 4)->Ok_0).0.len() > 0,
    ensures
        has_at(b, 0, tx_bytes_legacy(tx)),
        end == tx_bytes_legacy(tx).len(),
        valid_tx(tx),
        !uses_witness_form(tx),
{
    let v = i32_le(tx.version);
    let ins = compact_size(tx.input.len() as u64) + txins_bytes(tx.input);
    let outs = compact_size(tx.output.len() as u64) + txouts_bytes(tx.output);
    let lt = u32_le(tx.lock_time);
    let p2 = (read_input_list(b, 4)->Ok_0).1;
    let p3 = (read_output_list(b, p2)->Ok_0).1;
    assert(v.len() == 4 && lt.len() == 4);
    lemma_written_i32(b, 0);
    lemma_written_input_list(b, 4);
    lemma_written_output_list(b, p2);
    lemma_written_u32(b, p3);
    lemma_bare_inputs_are_valid(tx.input);
    lemma_join_four(b, v, ins, outs, lt);
    lemma_group_lists(
        v,
        compact_size(tx.input.len() as u64),
        txins_bytes(tx.input),
        compact_size(tx.output.len() as u64),
        txouts_bytes(tx.output),
        lt,
    );
}


/// An empty list of inputs is read from one zero byte.
proof fn lemma_empty_list_is_one_byte(b: Seq<u8>, pos: int)
    requires
        0 <= pos <= b.len(),
        read_input_list(b, pos) is Ok,
        (read_input_list(b, pos)->Ok_0).0.len() == 0,
    ensures
        (read_input_list(b, pos)->Ok_0).1 == pos + 1,
        pos + 1 <= b.len(),
        b[pos] == 0,
{
    let (count, p) = read_compact_size(b, pos)->Ok_0;
    lemma_written_compact_size(b, pos);
    assert(p <= b.len()) by {
        reveal(has_at);
    }
    lemma_written_txins(b, p, count as nat);
    assert(count == 0);
}

/// What the reader has found where it gives a transaction after an empty
/// list of inputs.
proof fn lemma_witness_branch(b: Seq<u8>, tx: TxModel, end: int)
    requires
        read_tx(b, 0) == Ok::<(TxModel, int), DecodeError>((tx, end)),
        (read_input_list(b, 4)->Ok_0).0.len() == 0,
    ensures
        4 <= b.len(),
        read_i32(b, 0) is Ok,
        read_input_list(b, 4) is Ok,
        read_u8(b, (read_input_list(b, 4)->Ok_0).1) is Ok,
        (read_u8(b, (read_input_list(b, 4)->Ok_0).1)->Ok_0).0 == 1,
        read_witness_form(
            b,
            (read_input_list(b, 4)->Ok_0).1 + 1,
            (read_i32(b, 0)->Ok_0).0,
        ) == Ok::<(TxModel, int), DecodeError>((tx, end)),
{
}

/// Marker and flag stand where an empty list of inputs and the flag 1 were
/// read.
proof fn lemma_written_marker_and_flag(b: Seq<u8>)
    requires
        6 <= b.len(),
        b[4] == 0,
        b[5] == 1,
    ensures
        has_at(b, 4, seq![0u8, 1u8]),
{
    reveal(has_at);
    assert(b.subrange(4, 6) =~= seq![0u8, 1u8]);
}

/// What was read behind marker and flag was written there.
proof fn lemma_written_after_flag(b: Seq<u8>, version: i32, tx: TxModel, end: int)
    requires
        6 <= b.len(),
        read_witness_form(b, 6, version) == Ok::<(TxModel, int), DecodeError>((tx, end)),
    ensures
        ({
            let ins = compact_size(tx.input.len() as u64) + txins_bytes(tx.input);
            let outs = compact_size(tx.output.len() as u64) + txouts_bytes(tx.output);
            let wits = witnesses_bytes(tx.input);
            &&& has_at(b, 6, ins)
            &&& has_at(b, (6 + ins.len()) as int, outs)
            &&& has_at(b, (6 + ins.len() + outs.len()) as int, wits)
            &&& has_at(
                b,
                (6 + ins.len() + outs.len() + wits.len()) as int,
                u32_le(tx.lock_time),
            )
            &&& end == 6 + ins.len() + outs.len() + wits.len() + 4
            &&& tx.version == version
            &&& valid_tx(tx)
            &&& uses_witness_form(tx)
        }),
{
    let (bare, p) = read_input_list(b, 6)->Ok_0;
    let (output, q) = read_output_list(b, p)->Ok_0;
    let (input, r) = read_witnesses(b, q, bare)->Ok_0;
    lemma_written_input_list(b, 6);
    lemma_written_output_list(b, p);
    lemma_written_witnesses(b, q, bare);
    lemma_written_u32(b, r);
    lemma_txins_bytes_without_witness(input, bare);
    lemma_witnessed_inputs_are_valid(input, bare);
    assert(uses_witness_form(tx)) by {
        if tx.input.len() > 0 {
            assert(!no_witness(tx.input));
            let i = choose|i: int| 0 <= i < tx.input.len() && tx.input[i].witness.len() != 0;
            assert(tx.input[i].witness.len() > 0);
        }
    }
}

/// What was read in the form with witnesses was written in that form.
proof fn lemma_written_witness_form(b: Seq<u8>, tx: TxModel, end: int)
    requires
        read_tx(b, 0) == Ok::<(TxModel, int), DecodeError>((tx, end)),
        (read_input_list(b, 4)->Ok_0).0.len() == 0,
    ensures
        has_at(b, 0, tx_bytes_witness(tx)),
        end == tx_bytes_witness(tx).len(),
        valid_tx(tx),
        uses_witness_form(tx),
{
    let version = (read_i32(b, 0)->Ok_0).0;
    lemma_witness_branch(b, tx, end);
    lemma_empty_list_is_one_byte(b, 4);
    lemma_written_marker_and_flag(b);
    lemma_written_i32(b, 0);
    lemma_written_after_flag(b, version, tx, end);
    lemma_joined_witness_form(b, tx);
}

/// The pieces of the form with witnesses, each in its place, are the form
/// with witnesses.
proof fn lemma_joined_witness_form(b: Seq<u8>, tx: TxModel)
    requires
        ({
            let ins = compact_size(tx.input.len() as u64) + txins_bytes(tx.input);
            let outs = compact_size(tx.output.len() as u64) + txouts_bytes(tx.output);
            let wits = witnesses_bytes(tx.input);
            &&& has_at(b, 0, i32_le(tx.version))
            &&& has_at(b, 4, seq![0u8, 1u8])
            &&& has_at(b, 6, ins)
            &&& has_at(b, (6 + ins.len()) as int, outs)
            &&& has_at(b, (6 + ins.len() + outs.len()) as int, wits)
            &&& has_at(
                b,
                (6 + ins.len() + outs.len() + wits.len()) as int,
                u32_le(tx.lock_time),
            )
        }),
    ensures
        has_at(b, 0, tx_bytes_witness(tx)),
        tx_bytes_witness(tx).len() == 6 + compact_size(tx.input.len() as u64).len() + txins_bytes(
            tx.input,
        ).len() + compact_size(tx.output.len() as u64).len() + txouts_bytes(tx.output).len()
            + witnesses_bytes(tx.input).len() + 4,
{
    let v = i32_le(tx.version);
    let mf = seq![0u8, 1u8];
    let ci = compact_size(tx.input.len() as u64);
    let co = compact_size(tx.output.len() as u64);
    let ins = ci + txins_bytes(tx.input);
    let outs = co + txouts_bytes(tx.output);
    let wits = witnesses_bytes(tx.input);
    let lt = u32_le(tx.lock_time);
    assert(v.len() == 4 && lt.len() == 4 && mf.len() == 2);
    lemma_join_six(b, v, mf, ins, outs, wits, lt);
    assert(v + mf + ci + txins_bytes(tx.input) + co + txouts_bytes(tx.output) + wits + lt =~= v
        + mf + ins + outs + wits + lt);
}

/// A byte string that decodes to a transaction is the encoding of that
/// transaction, and the transaction is one that can be read again.
pub proof fn lemma_encode_decoded(b: Seq<u8>, tx: TxModel)
    requires
        decoding(b) == Ok::<TxModel, DecodeError>(tx),
    ensures
        tx_bytes(tx) == b,
        valid_tx(tx),
{
    let end = (read_tx(b, 0)->Ok_0).1;
    if (read_input_list(b, 4)->Ok_0).0.len() == 0 {
        lemma_written_witness_form(b, tx, end);
        lemma_has_at_whole(b, tx_bytes_witness(tx));
    } else {
        lemma_written_legacy_form(b, tx, end);
        lemma_has_at_whole(b, tx_bytes_legacy(tx));
    }
}

/// Two byte strings that decode to the same transaction are the same.
pub proof fn lemma_decoding_is_injective(a: Seq<u8>, b: Seq<u8>)
    requires
        decoding(a) is Ok,
        decoding(a) == decoding(b),
    ensures
        a == b,
{
    lemma_encode_decoded(a, decoding(a)->Ok_0);
    lemma_encode_decoded(b, decoding(b)->Ok_0);
}

} // verus!
