//! The transaction: its parts, and what each part stands for in contracts.

use vstd::prelude::*;

verus! {

/// A reference to an output of an earlier transaction.
#[derive(Debug, Clone, PartialEq, Eq)]
pub struct OutPoint {
    /// The transaction's identifier, in the byte order of the encoding.
    pub txid: [u8; 32],
    /// The position of the output in that transaction.
    pub vout: u32,
}

/// An input: the output it spends and what authorises the spending.
#[derive(Debug, Clone, PartialEq, Eq)]
pub struct TxIn {
    pub previous_output: OutPoint,
    pub script_sig: Vec<u8>,
    pub sequence: u32,
    /// The witness stack; empty for a spend that has none.
    pub witness: Vec<Vec<u8>>,
}

/// An output: an amount and the script that guards it.
#[derive(Debug, Clone, PartialEq, Eq)]
pub struct TxOut {
    /// The amount, in the smallest unit.
    pub value: u64,
    pub script_pubkey: Vec<u8>,
}

/// A transaction.  The order of inputs and of outputs is part of its meaning.
#[derive(Debug, Clone, PartialEq, Eq)]
pub struct Transaction {
    pub version: i32,
    pub lock_time: u32,
    pub input: Vec<TxIn>,
    pub output: Vec<TxOut>,
}

/// What an [`OutPoint`] stands for.
pub struct OutPointModel {
    pub txid: Seq<u8>,
    pub vout: u32,
}

/// What a [`TxIn`] stands for.
pub struct TxInModel {
    pub previous_output: OutPointModel,
    pub script_sig: Seq<u8>,
    pub sequence: u32,
    pub witness: Seq<Seq<u8>>,
}

/// What a [`TxOut`] stands for.
pub struct TxOutModel {
    pub value: u64,
    pub script_pubkey: Seq<u8>,
}

/// What a [`Transaction`] stands for.
pub struct TxModel {
    pub version: i32,
    pub lock_time: u32,
    pub input: Seq<TxInModel>,
    pub output: Seq<TxOutModel>,
}

/// The byte strings that a list of byte vectors holds.
pub open spec fn stack_view(stack: Seq<Vec<u8>>) -> Seq<Seq<u8>> {
    Seq::new(stack.len(), |i: int| stack[i]@)
}

/// What a list of inputs stands for.
pub open spec fn inputs_view(inputs: Seq<TxIn>) -> Seq<TxInModel> {
    Seq::new(inputs.len(), |i: int| inputs[i]@)
}

/// What a list of outputs stands for.
pub open spec fn outputs_view(outputs: Seq<TxOut>) -> Seq<TxOutModel> {
    Seq::new(outputs.len(), |i: int| outputs[i]@)
}

impl View for OutPoint {
    type V = OutPointModel;

    open spec fn view(&self) -> OutPointModel {
        OutPointModel { txid: self.txid@, vout: self.vout }
    }
}

impl View for TxIn {
    type V = TxInModel;

    open spec fn view(&self) -> TxInModel {
        TxInModel {
            previous_output: self.previous_output@,
            script_sig: self.script_sig@,
            sequence: self.sequence,
            witness: stack_view(self.witness@),
        }
    }
}

impl View for TxOut {
    type V = TxOutModel;

    open spec fn view(&self) -> TxOutModel {
        TxOutModel { value: self.value, script_pubkey: self.script_pubkey@ }
    }
}

impl View for Transaction {
    type V = TxModel;

    open spec fn view(&self) -> TxModel {
        TxModel {
            version: self.version,
            lock_time: self.lock_time,
            input: inputs_view(self.input@),
            output: outputs_view(self.output@),
        }
    }
}

/// Growing a list of byte vectors by one grows what it holds by that one.
pub proof fn lemma_stack_view_push(stack: Seq<Vec<u8>>, item: Vec<u8>)
    ensures
        stack_view(stack.push(item)) == stack_view(stack).push(item@),
{
    assert(stack_view(stack.push(item)) =~= stack_view(stack).push(item@));
}

pub proof fn lemma_inputs_view_push(inputs: Seq<TxIn>, item: TxIn)
    ensures
        inputs_view(inputs.push(item)) == inputs_view(inputs).push(item@),
{
    assert(inputs_view(inputs.push(item)) =~= inputs_view(inputs).push(item@));
}

pub proof fn lemma_outputs_view_push(outputs: Seq<TxOut>, item: TxOut)
    ensures
        outputs_view(outputs.push(item)) == outputs_view(outputs).push(item@),
{
    assert(outputs_view(outputs.push(item)) =~= outputs_view(outputs).push(item@));
}

} // verus!
