//! The editable form of a transaction: the same fields, with every byte
//! string as hexadecimal text.  A transaction identifier is written in the
//! order in which it is displayed, which is the reverse of the order of the
//! encoding.

use crate::error::Error;
use crate::hexstr::{
    hex_encode, hex_text, lemma_parse_hex_of_hex_text, parse_hex, parse_hex_lossy,
};
use crate::tx::{
    inputs_view, lemma_inputs_view_push, lemma_outputs_view_push, lemma_stack_view_push,
    outputs_view, stack_view, OutPoint, OutPointModel, Transaction, TxIn, TxInModel, TxModel,
    TxOut, TxOutModel,
};
use vstd::prelude::*;

verus! {

/// An input in editable form.
#[derive(Debug, Clone, PartialEq, Eq)]
pub struct JsTxIn {
    pub outpoint_tx_id: String,
    pub outpoint_index: u32,
    pub sequence: u32,
    pub script_sig: String,
    pub witness: Vec<String>,
}

/// An output in editable form.
#[derive(Debug, Clone, PartialEq, Eq)]
pub struct JsTxOut {
    pub amount: u64,
    pub script_pub_key: String,
}

/// A transaction in editable form.
#[derive(Debug, Clone, PartialEq, Eq)]
pub struct JsTx {
    pub version: i32,
    pub lock_time: u32,
    pub inputs: Vec<JsTxIn>,
    pub outputs: Vec<JsTxOut>,
}

/// What a [`JsTxIn`] stands for.
pub struct JsTxInModel {
    pub outpoint_tx_id: Seq<char>,
    pub outpoint_index: u32,
    pub sequence: u32,
    pub script_sig: Seq<char>,
    pub witness: Seq<Seq<char>>,
}

/// What a [`JsTxOut`] stands for.
pub struct JsTxOutModel {
    pub amount: u64,
    pub script_pub_key: Seq<char>,
}

/// What a [`JsTx`] stands for.
pub struct JsTxModel {
    pub version: i32,
    pub lock_time: u32,
    pub inputs: Seq<JsTxInModel>,
    pub outputs: Seq<JsTxOutModel>,
}

/// The texts that a list of strings holds.
pub open spec fn texts_view(texts: Seq<String>) -> Seq<Seq<char>> {
    Seq::new(texts.len(), |i: int| texts[i]@)
}

pub open spec fn js_inputs_view(inputs: Seq<JsTxIn>) -> Seq<JsTxInModel> {
    Seq::new(inputs.len(), |i: int| inputs[i]@)
}

pub open spec fn js_outputs_view(outputs: Seq<JsTxOut>) -> Seq<JsTxOutModel> {
    Seq::new(outputs.len(), |i: int| outputs[i]@)
}

impl View for JsTxIn {
    type V = JsTxInModel;

    open spec fn view(&self) -> JsTxInModel {
        JsTxInModel {
            outpoint_tx_id: self.outpoint_tx_id@,
            outpoint_index: self.outpoint_index,
            sequence: self.sequence,
            script_sig: self.script_sig@,
            witness: texts_view(self.witness@),
        }
    }
}

impl View for JsTxOut {
    type V = JsTxOutModel;

    open spec fn view(&self) -> JsTxOutModel {
        JsTxOutModel { amount: self.amount, script_pub_key: self.script_pub_key@ }
    }
}

impl View for JsTx {
    type V = JsTxModel;

    open spec fn view(&self) -> JsTxModel {
        JsTxModel {
            version: self.version,
            lock_time: self.lock_time,
            inputs: js_inputs_view(self.inputs@),
            outputs: js_outputs_view(self.outputs@),
        }
    }
}

/// The texts of the items of a witness.
pub open spec fn editable_stack(stack: Seq<Seq<u8>>) -> Seq<Seq<char>> {
    Seq::new(stack.len(), |i: int| hex_text(stack[i]))
}

pub open spec fn editable_input(input: TxInModel) -> JsTxInModel {
    JsTxInModel {
        outpoint_tx_id: hex_text(input.previous_output.txid.reverse()),
        outpoint_index: input.previous_output.vout,
        sequence: input.sequence,
        script_sig: hex_text(input.script_sig),
        witness: editable_stack(input.witness),
    }
}

pub open spec fn editable_output(output: TxOutModel) -> JsTxOutModel {
    JsTxOutModel { amount: output.value, script_pub_key: hex_text(output.script_pubkey) }
}

/// The editable form of a transaction.
pub open spec fn editable_tx(tx: TxModel) -> JsTxModel {
    JsTxModel {
        version: tx.version,
        lock_time: tx.lock_time,
        inputs: Seq::new(tx.input.len(), |i: int| editable_input(tx.input[i])),
        outputs: Seq::new(tx.output.len(), |i: int| editable_output(tx.output[i])),
    }
}

/// What has been converted so far, followed by what the rest gives.
pub open spec fn join<T>(done: Seq<T>, rest: Result<Seq<T>, Error>) -> Result<Seq<T>, Error> {
    match rest {
        Ok(items) => Ok(done + items),
        Err(e) => Err(e),
    }
}

/// Nothing followed by what the rest gives is what the rest gives.
pub proof fn lemma_join_nothing<T>(rest: Result<Seq<T>, Error>)
    ensures
        join(Seq::<T>::empty(), rest) == rest,
{
    match rest {
        Ok(items) => {
            assert(Seq::<T>::empty() + items =~= items);
        },
        Err(_) => {},
    }
}

/// The bytes that a hexadecimal text stands for.
pub open spec fn bytes_of_text(text: Seq<char>) -> Result<Seq<u8>, Error> {
    match parse_hex(text) {
        Ok(bytes) => Ok(bytes),
        Err(e) => Err(Error::MalformedHex(e)),
    }
}

/// The transaction identifier that a text stands for: the text must give
/// exactly 32 bytes, which are taken in reverse order.
pub open spec fn txid_of_text(text: Seq<char>) -> Result<Seq<u8>, Error> {
    match bytes_of_text(text) {
        Err(e) => Err(e),
        Ok(bytes) => if bytes.len() == 32 {
            Ok(bytes.reverse())
        } else {
            Err(Error::InvalidOutpointId)
        },
    }
}

/// The witness that a list of texts stands for; the first text that is not
/// hexadecimal decides the failure.
pub open spec fn stack_of_texts(texts: Seq<Seq<char>>) -> Result<Seq<Seq<u8>>, Error>
    decreases texts.len(),
{
    if texts.len() == 0 {
        Ok(Seq::empty())
    } else {
        match bytes_of_text(texts[0]) {
            Err(e) => Err(e),
            Ok(item) => join(seq![item], stack_of_texts(texts.drop_first())),
        }
    }
}

/// The input that an editable input stands for.  Its fields are read in the
/// order identifier, signature script, witness.
pub open spec fn input_of_editable(input: JsTxInModel) -> Result<TxInModel, Error> {
    match txid_of_text(input.outpoint_tx_id) {
        Err(e) => Err(e),
        Ok(txid) => match bytes_of_text(input.script_sig) {
            Err(e) => Err(e),
            Ok(script_sig) => match stack_of_texts(input.witness) {
                Err(e) => Err(e),
                Ok(witness) => Ok(
                    TxInModel {
                        previous_output: OutPointModel { txid, vout: input.outpoint_index },
                        script_sig,
                        sequence: input.sequence,
                        witness,
                    },
                ),
            },
        },
    }
}

pub open spec fn output_of_editable(output: JsTxOutModel) -> Result<TxOutModel, Error> {
    match bytes_of_text(output.script_pub_key) {
        Err(e) => Err(e),
        Ok(script_pubkey) => Ok(TxOutModel { value: output.amount, script_pubkey }),
    }
}

pub open spec fn inputs_of_editable(inputs: Seq<JsTxInModel>) -> Result<Seq<TxInModel>, Error>
    decreases inputs.len(),
{
    if inputs.len() == 0 {
        Ok(Seq::empty())
    } else {
        match input_of_editable(inputs[0]) {
            Err(e) => Err(e),
            Ok(input) => join(seq![input], inputs_of_editable(inputs.drop_first())),
        }
    }
}

pub open spec fn outputs_of_editable(outputs: Seq<JsTxOutModel>) -> Result<Seq<TxOutModel>, Error>
    decreases outputs.len(),
{
    if outputs.len() == 0 {
        Ok(Seq::empty())
    } else {
        match output_of_editable(outputs[0]) {
            Err(e) => Err(e),
            Ok(output) => join(seq![output], outputs_of_editable(outputs.drop_first())),
        }
    }
}

/// The transaction that an editable transaction stands for.  The inputs are
/// read before the outputs, each list from its first entry on, and the first
/// field that cannot be read decides the failure.
pub open spec fn tx_of_editable(tx: JsTxModel) -> Result<TxModel, Error> {
    match inputs_of_editable(tx.inputs) {
        Err(e) => Err(e),
        Ok(input) => match outputs_of_editable(tx.outputs) {
            Err(e) => Err(e),
            Ok(output) => Ok(
                TxModel { version: tx.version, lock_time: tx.lock_time, input, output },
            ),
        },
    }
}


/// What a converted value, or the failure to convert one, stands for.
pub open spec fn bytes_result_view(r: Result<Vec<u8>, Error>) -> Result<Seq<u8>, Error> {
    match r {
        Ok(v) => Ok(v@),
        Err(e) => Err(e),
    }
}

pub open spec fn tx_result_view(r: Result<Transaction, Error>) -> Result<TxModel, Error> {
    match r {
        Ok(tx) => Ok(tx@),
        Err(e) => Err(e),
    }
}

/// Copies a byte string in reverse order.
pub fn reversed(bytes: &[u8]) -> (r: Vec<u8>)
    ensures
        r@ == bytes@.reverse(),
{
    let n = bytes.len();
    let mut out: Vec<u8> = Vec::new();
    let mut k: usize = 0;
    while k < n
        invariant
            n == bytes@.len(),
            k <= n,
            out@.len() == k,
            forall|i: int| 0 <= i < k ==> out@[i] == bytes@[n - 1 - i],
        decreases n - k,
    {
        out.push(bytes[n - 1 - k]);
        k = k + 1;
    }
    assert(out@ =~= bytes@.reverse());
    out
}

/// Reads a hexadecimal text, ignoring white space.
pub fn text_to_bytes(text: &str) -> (r: Result<Vec<u8>, Error>)
    ensures
        bytes_result_view(r) == bytes_of_text(text@),
{
    match parse_hex_lossy(text) {
        Ok(bytes) => Ok(bytes),
        Err(e) => Err(Error::MalformedHex(e)),
    }
}

/// Reads a transaction identifier in display order.
pub fn text_to_txid(text: &str) -> (r: Result<[u8; 32], Error>)
    ensures
        match r {
            Ok(txid) => txid_of_text(text@) == Ok::<Seq<u8>, Error>(txid@),
            Err(e) => txid_of_text(text@) == Err::<Seq<u8>, Error>(e),
        },
{
    let bytes = match text_to_bytes(text) {
        Ok(bytes) => bytes,
        Err(e) => { return Err(e); },
    };
    if bytes.len() != 32 {
        return Err(Error::InvalidOutpointId);
    }
    let turned = reversed(bytes.as_slice());
    Ok(crate::decode::to_array32(turned.as_slice()))
}

/// Writes a transaction identifier in display order.
pub fn txid_to_text(txid: &[u8; 32]) -> (r: String)
    ensures
        r@ == hex_text(txid@.reverse()),
{
    let turned = reversed(txid.as_slice());
    hex_encode(turned.as_slice())
}

/// Writes each item of a list as hexadecimal text.
pub fn stack_to_editable(stack: &Vec<Vec<u8>>) -> (r: Vec<String>)
    ensures
        texts_view(r@) == editable_stack(stack_view(stack@)),
{
    let n = stack.len();
    let mut out: Vec<String> = Vec::new();
    let mut k: usize = 0;
    while k < n
        invariant
            n == stack@.len(),
            k <= n,
            out@.len() == k,
            forall|i: int| 0 <= i < k ==> (#[trigger] out@[i])@ == hex_text(stack@[i]@),
        decreases n - k,
    {
        out.push(hex_encode(stack[k].as_slice()));
        k = k + 1;
    }
    assert(texts_view(out@) =~= editable_stack(stack_view(stack@)));
    out
}

fn input_to_editable(input: &TxIn) -> (r: JsTxIn)
    ensures
        r@ == editable_input(input@),
{
    JsTxIn {
        outpoint_tx_id: txid_to_text(&input.previous_output.txid),
        outpoint_index: input.previous_output.vout,
        sequence: input.sequence,
        script_sig: hex_encode(input.script_sig.as_slice()),
        witness: stack_to_editable(&input.witness),
    }
}

fn output_to_editable(output: &TxOut) -> (r: JsTxOut)
    ensures
        r@ == editable_output(output@),
{
    JsTxOut { amount: output.value, script_pub_key: hex_encode(output.script_pubkey.as_slice()) }
}

/// Gives the editable form of a transaction.
pub fn to_editable(tx: &Transaction) -> (r: JsTx)
    ensures
        r@ == editable_tx(tx@),
{
    let n = tx.input.len();
    let mut inputs: Vec<JsTxIn> = Vec::new();
    let mut k: usize = 0;
    while k < n
        invariant
            n == tx.input@.len(),
            k <= n,
            inputs@.len() == k,
            forall|i: int| 0 <= i < k ==> (#[trigger] inputs@[i])@ == editable_input(tx.input@[i]@),
        decreases n - k,
    {
        inputs.push(input_to_editable(&tx.input[k]));
        k = k + 1;
    }
    let m = tx.output.len();
    let mut outputs: Vec<JsTxOut> = Vec::new();
    let mut j: usize = 0;
    while j < m
        invariant
            m == tx.output@.len(),
            j <= m,
            outputs@.len() == j,
            forall|i: int|
                0 <= i < j ==> (#[trigger] outputs@[i])@ == editable_output(tx.output@[i]@),
        decreases m - j,
    {
        outputs.push(output_to_editable(&tx.output[j]));
        j = j + 1;
    }
    let r = JsTx { version: tx.version, lock_time: tx.lock_time, inputs, outputs };
    assert(r@.inputs =~= editable_tx(tx@).inputs);
    assert(r@.outputs =~= editable_tx(tx@).outputs);
    r
}

/// Reads each text of a list as hexadecimal.
pub fn stack_from_editable(texts: &Vec<String>) -> (r: Result<Vec<Vec<u8>>, Error>)
    ensures
        match r {
            Ok(stack) => stack_of_texts(texts_view(texts@)) == Ok::<Seq<Seq<u8>>, Error>(
                stack_view(stack@),
            ),
            Err(e) => stack_of_texts(texts_view(texts@)) == Err::<Seq<Seq<u8>>, Error>(e),
        },
{
    let ghost all = texts_view(texts@);
    let n = texts.len();
    let mut done: Vec<Vec<u8>> = Vec::new();
    let mut k: usize = 0;
    assert(all.skip(0) =~= all);
    assert(stack_view(done@) =~= Seq::<Seq<u8>>::empty());
    proof {
        lemma_join_nothing(stack_of_texts(all));
    }
    while k < n
        invariant
            n == texts@.len(),
            k <= n,
            all == texts_view(texts@),
            stack_of_texts(all) == join(stack_view(done@), stack_of_texts(all.skip(k as int))),
        decreases n - k,
    {
        let ghost before = stack_view(done@);
        proof {
            assert(all.skip(k as int)[0] == texts@[k as int]@);
            assert(all.skip(k as int).drop_first() =~= all.skip(k + 1));
        }
        match text_to_bytes(texts[k].as_str()) {
            Err(e) => { return Err(e); },
            Ok(item) => {
                proof {
                    lemma_stack_view_push(done@, item);
                    match stack_of_texts(all.skip(k + 1)) {
                        Ok(items) => {
                            assert(before + (seq![item@] + items) =~= before.push(item@) + items);
                        },
                        Err(_) => {},
                    }
                }
                done.push(item);
            },
        }
        k = k + 1;
    }
    proof {
        assert(all.skip(n as int) =~= Seq::<Seq<char>>::empty());
        assert(stack_view(done@) + Seq::<Seq<u8>>::empty() =~= stack_view(done@));
    }
    Ok(done)
}

fn input_from_editable(input: &JsTxIn) -> (r: Result<TxIn, Error>)
    ensures
        match r {
            Ok(found) => input_of_editable(input@) == Ok::<TxInModel, Error>(found@),
            Err(e) => input_of_editable(input@) == Err::<TxInModel, Error>(e),
        },
{
    let txid = match text_to_txid(input.outpoint_tx_id.as_str()) {
        Ok(found) => found,
        Err(e) => { return Err(e); },
    };
    let script_sig = match text_to_bytes(input.script_sig.as_str()) {
        Ok(found) => found,
        Err(e) => { return Err(e); },
    };
    let witness = match stack_from_editable(&input.witness) {
        Ok(found) => found,
        Err(e) => { return Err(e); },
    };
    Ok(
        TxIn {
            previous_output: OutPoint { txid, vout: input.outpoint_index },
            script_sig,
            sequence: input.sequence,
            witness,
        },
    )
}

fn output_from_editable(output: &JsTxOut) -> (r: Result<TxOut, Error>)
    ensures
        match r {
            Ok(found) => output_of_editable(output@) == Ok::<TxOutModel, Error>(found@),
            Err(e) => output_of_editable(output@) == Err::<TxOutModel, Error>(e),
        },
{
    match text_to_bytes(output.script_pub_key.as_str()) {
        Ok(script_pubkey) => Ok(TxOut { value: output.amount, script_pubkey }),
        Err(e) => Err(e),
    }
}

fn inputs_from_editable(inputs: &Vec<JsTxIn>) -> (r: Result<Vec<TxIn>, Error>)
    ensures
        match r {
            Ok(found) => inputs_of_editable(js_inputs_view(inputs@)) == Ok::<
                Seq<TxInModel>,
                Error,
            >(inputs_view(found@)),
            Err(e) => inputs_of_editable(js_inputs_view(inputs@)) == Err::<Seq<TxInModel>, Error>(
                e,
            ),
        },
{
    let ghost all = js_inputs_view(inputs@);
    let n = inputs.len();
    let mut done: Vec<TxIn> = Vec::new();
    let mut k: usize = 0;
    assert(all.skip(0) =~= all);
    assert(inputs_view(done@) =~= Seq::<TxInModel>::empty());
    proof {
        lemma_join_nothing(inputs_of_editable(all));
    }
    while k < n
        invariant
            n == inputs@.len(),
            k <= n,
            all == js_inputs_view(inputs@),
            inputs_of_editable(all) == join(
                inputs_view(done@),
                inputs_of_editable(all.skip(k as int)),
            ),
        decreases n - k,
    {
        let ghost before = inputs_view(done@);
        proof {
            assert(all.skip(k as int)[0] == inputs@[k as int]@);
            assert(all.skip(k as int).drop_first() =~= all.skip(k + 1));
        }
        match input_from_editable(&inputs[k]) {
            Err(e) => { return Err(e); },
            Ok(item) => {
                proof {
                    lemma_inputs_view_push(done@, item);
                    match inputs_of_editable(all.skip(k + 1)) {
                        Ok(items) => {
                            assert(before + (seq![item@] + items) =~= before.push(item@) + items);
                        },
                        Err(_) => {},
                    }
                }
                done.push(item);
            },
        }
        k = k + 1;
    }
    proof {
        assert(all.skip(n as int) =~= Seq::<JsTxInModel>::empty());
        assert(inputs_view(done@) + Seq::<TxInModel>::empty() =~= inputs_view(done@));
    }
    Ok(done)
}

fn outputs_from_editable(outputs: &Vec<JsTxOut>) -> (r: Result<Vec<TxOut>, Error>)
    ensures
        match r {
            Ok(found) => outputs_of_editable(js_outputs_view(outputs@)) == Ok::<
                Seq<TxOutModel>,
                Error,
            >(outputs_view(found@)),
            Err(e) => outputs_of_editable(js_outputs_view(outputs@)) == Err::<
                Seq<TxOutModel>,
                Error,
            >(e),
        },
{
    let ghost all = js_outputs_view(outputs@);
    let n = outputs.len();
    let mut done: Vec<TxOut> = Vec::new();
    let mut k: usize = 0;
    assert(all.skip(0) =~= all);
    assert(outputs_view(done@) =~= Seq::<TxOutModel>::empty());
    proof {
        lemma_join_nothing(outputs_of_editable(all));
    }
    while k < n
        invariant
            n == outputs@.len(),
            k <= n,
            all == js_outputs_view(outputs@),
            outputs_of_editable(all) == join(
                outputs_view(done@),
                outputs_of_editable(all.skip(k as int)),
            ),
        decreases n - k,
    {
        let ghost before = outputs_view(done@);
        proof {
            assert(all.skip(k as int)[0] == outputs@[k as int]@);
            assert(all.skip(k as int).drop_first() =~= all.skip(k + 1));
        }
        match output_from_editable(&outputs[k]) {
            Err(e) => { return Err(e); },
            Ok(item) => {
                proof {
                    lemma_outputs_view_push(done@, item);
                    match outputs_of_editable(all.skip(k + 1)) {
                        Ok(items) => {
                            assert(before + (seq![item@] + items) =~= before.push(item@) + items);
                        },
                        Err(_) => {},
                    }
                }
                done.push(item);
            },
        }
        k = k + 1;
    }
    proof {
        assert(all.skip(n as int) =~= Seq::<JsTxOutModel>::empty());
        assert(outputs_view(done@) + Seq::<TxOutModel>::empty() =~= outputs_view(done@));
    }
    Ok(done)
}

/// Gives the transaction that an editable transaction stands for.
pub fn from_editable(tx: &JsTx) -> (r: Result<Transaction, Error>)
    ensures
        tx_result_view(r) == tx_of_editable(tx@),
{
    let input = match inputs_from_editable(&tx.inputs) {
        Ok(found) => found,
        Err(e) => { return Err(e); },
    };
    let output = match outputs_from_editable(&tx.outputs) {
        Ok(found) => found,
        Err(e) => { return Err(e); },
    };
    Ok(Transaction { version: tx.version, lock_time: tx.lock_time, input, output })
}


/// Every transaction identifier has 32 bytes.
pub open spec fn has_full_txids(inputs: Seq<TxInModel>) -> bool {
    forall|i: int| 0 <= i < inputs.len() ==> (#[trigger] inputs[i]).previous_output.txid.len() == 32
}

pub proof fn lemma_stack_of_editable(stack: Seq<Seq<u8>>)
    ensures
        stack_of_texts(editable_stack(stack)) == Ok::<Seq<Seq<u8>>, Error>(stack),
    decreases stack.len(),
{
    if stack.len() == 0 {
        assert(stack =~= Seq::<Seq<u8>>::empty());
    } else {
        lemma_parse_hex_of_hex_text(stack[0]);
        lemma_stack_of_editable(stack.drop_first());
        assert(editable_stack(stack).drop_first() =~= editable_stack(stack.drop_first()));
        assert(seq![stack[0]] + stack.drop_first() =~= stack);
    }
}

pub proof fn lemma_input_of_editable(input: TxInModel)
    requires
        input.previous_output.txid.len() == 32,
    ensures
        input_of_editable(editable_input(input)) == Ok::<TxInModel, Error>(input),
{
    let txid = input.previous_output.txid;
    lemma_parse_hex_of_hex_text(txid.reverse());
    assert(txid.reverse().reverse() =~= txid);
    lemma_parse_hex_of_hex_text(input.script_sig);
    lemma_stack_of_editable(input.witness);
}

pub proof fn lemma_inputs_of_editable(inputs: Seq<TxInModel>)
    requires
        has_full_txids(inputs),
    ensures
        inputs_of_editable(Seq::new(inputs.len(), |i: int| editable_input(inputs[i]))) == Ok::<
            Seq<TxInModel>,
            Error,
        >(inputs),
    decreases inputs.len(),
{
    let texts = Seq::new(inputs.len(), |i: int| editable_input(inputs[i]));
    if inputs.len() == 0 {
        assert(inputs =~= Seq::<TxInModel>::empty());
    } else {
        let rest = inputs.drop_first();
        assert(inputs[0].previous_output.txid.len() == 32);
        assert forall|i: int| 0 <= i < rest.len() implies (#[trigger] rest[i]).previous_output.txid.len()
            == 32 by {
            assert(rest[i] == inputs[i + 1]);
        }
        lemma_input_of_editable(inputs[0]);
        lemma_inputs_of_editable(rest);
        assert(texts.drop_first() =~= Seq::new(rest.len(), |i: int| editable_input(rest[i])));
        assert(seq![inputs[0]] + rest =~= inputs);
    }
}

pub proof fn lemma_outputs_of_editable(outputs: Seq<TxOutModel>)
    ensures
        outputs_of_editable(Seq::new(outputs.len(), |i: int| editable_output(outputs[i])))
            == Ok::<Seq<TxOutModel>, Error>(outputs),
    decreases outputs.len(),
{
    let texts = Seq::new(outputs.len(), |i: int| editable_output(outputs[i]));
    if outputs.len() == 0 {
        assert(outputs =~= Seq::<TxOutModel>::empty());
    } else {
        let rest = outputs.drop_first();
        lemma_parse_hex_of_hex_text(outputs[0].script_pubkey);
        lemma_outputs_of_editable(rest);
        assert(texts.drop_first() =~= Seq::new(rest.len(), |i: int| editable_output(rest[i])));
        assert(seq![outputs[0]] + rest =~= outputs);
    }
}

/// The editable form of a transaction stands for that transaction: every
/// field comes back as it was, the version in full.
pub proof fn lemma_tx_of_editable(tx: TxModel)
    requires
        has_full_txids(tx.input),
    ensures
        tx_of_editable(editable_tx(tx)) == Ok::<TxModel, Error>(tx),
{
    lemma_inputs_of_editable(tx.input);
    lemma_outputs_of_editable(tx.output);
}

} // verus!
