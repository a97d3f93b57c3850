//! The digest that a signature commits to, under each of the three signing
//! schemes: the legacy scheme, and the two version-0 witness schemes.
//!
//! Each scheme writes a byte string that depends on the transaction, the
//! input being signed, the script being satisfied and the signature hash
//! type, and hashes it twice with SHA-256.

use crate::encode::{
    lemma_txins_bytes_push, lemma_txouts_bytes_push, outpoint_bytes, put_outpoint, put_txout,
    put_txouts, tx_bytes_legacy, txin_bytes, txins_bytes, txout_bytes, txouts_bytes,
};
use crate::error::Error;
use crate::primitives::{sha256d, sha256d_digest};
use crate::script::{is_p2wpkh, new_p2pkh, p2pkh_script};
use crate::tx::{Transaction, TxInModel, TxModel, TxOutModel};
use crate::wire::{
    compact_size, i32_le, put_compact_size, put_i32, put_u32, put_u64, put_var_bytes, u32_le,
    u64_le, var_bytes,
};
use vstd::prelude::*;

verus! {

/// What a signature commits to beside the input it signs.
#[derive(Debug, Clone, Copy, PartialEq, Eq, Structural)]
pub enum EcdsaSighashType {
    /// All inputs and all outputs.
    All,
    /// All inputs and no output.
    NoOutputs,
    /// All inputs and the output at the position of the input.
    Single,
    /// This input alone and all outputs.
    AllPlusAnyoneCanPay,
    /// This input alone and no output.
    NoOutputsPlusAnyoneCanPay,
    /// This input alone and the output at its position.
    SinglePlusAnyoneCanPay,
}

/// The part of a signature hash type that concerns the outputs.
#[derive(Debug, Clone, Copy, PartialEq, Eq, Structural)]
pub enum OutputMode {
    All,
    NoOutputs,
    Single,
}

impl EcdsaSighashType {
    /// The type that a number stands for.  The five low bits choose among
    /// all, none and single, and bit 7 is the anyone-can-pay flag; every
    /// other pattern of the low bits means all.
    pub open spec fn of_consensus(n: u32) -> EcdsaSighashType {
        let low = n % 32;
        let anyone_can_pay = (n / 128) % 2 == 1;
        if anyone_can_pay {
            if low == 2 {
                EcdsaSighashType::NoOutputsPlusAnyoneCanPay
            } else if low == 3 {
                EcdsaSighashType::SinglePlusAnyoneCanPay
            } else {
                EcdsaSighashType::AllPlusAnyoneCanPay
            }
        } else {
            if low == 2 {
                EcdsaSighashType::NoOutputs
            } else if low == 3 {
                EcdsaSighashType::Single
            } else {
                EcdsaSighashType::All
            }
        }
    }

    /// The number of the type.
    pub open spec fn number(self) -> u32 {
        match self {
            EcdsaSighashType::All => 0x01,
            EcdsaSighashType::NoOutputs => 0x02,
            EcdsaSighashType::Single => 0x03,
            EcdsaSighashType::AllPlusAnyoneCanPay => 0x81,
            EcdsaSighashType::NoOutputsPlusAnyoneCanPay => 0x82,
            EcdsaSighashType::SinglePlusAnyoneCanPay => 0x83,
        }
    }

    pub open spec fn output_mode(self) -> OutputMode {
        match self {
            EcdsaSighashType::All | EcdsaSighashType::AllPlusAnyoneCanPay => OutputMode::All,
            EcdsaSighashType::NoOutputs | EcdsaSighashType::NoOutputsPlusAnyoneCanPay => {
                OutputMode::NoOutputs
            },
            EcdsaSighashType::Single | EcdsaSighashType::SinglePlusAnyoneCanPay => {
                OutputMode::Single
            },
        }
    }

    pub open spec fn anyone_can_pay(self) -> bool {
        match self {
            EcdsaSighashType::AllPlusAnyoneCanPay
            | EcdsaSighashType::NoOutputsPlusAnyoneCanPay
            | EcdsaSighashType::SinglePlusAnyoneCanPay => true,
            _ => false,
        }
    }

    /// Gives the type that a number stands for.
    pub fn from_consensus(n: u32) -> (r: EcdsaSighashType)
        ensures
            r == EcdsaSighashType::of_consensus(n),
    {
        let low: u32 = n % 32;
        let anyone_can_pay = (n / 128) % 2 == 1;
        if anyone_can_pay {
            if low == 2 {
                EcdsaSighashType::NoOutputsPlusAnyoneCanPay
            } else if low == 3 {
                EcdsaSighashType::SinglePlusAnyoneCanPay
            } else {
                EcdsaSighashType::AllPlusAnyoneCanPay
            }
        } else {
            if low == 2 {
                EcdsaSighashType::NoOutputs
            } else if low == 3 {
                EcdsaSighashType::Single
            } else {
                EcdsaSighashType::All
            }
        }
    }

    /// Gives the number of the type.
    pub fn to_u32(self) -> (r: u32)
        ensures
            r == self.number(),
    {
        match self {
            EcdsaSighashType::All => 0x01,
            EcdsaSighashType::NoOutputs => 0x02,
            EcdsaSighashType::Single => 0x03,
            EcdsaSighashType::AllPlusAnyoneCanPay => 0x81,
            EcdsaSighashType::NoOutputsPlusAnyoneCanPay => 0x82,
            EcdsaSighashType::SinglePlusAnyoneCanPay => 0x83,
        }
    }

    /// Splits the type into what it says of the outputs and of the inputs.
    pub fn split(self) -> (r: (OutputMode, bool))
        ensures
            r.0 == self.output_mode(),
            r.1 == self.anyone_can_pay(),
    {
        match self {
            EcdsaSighashType::All => (OutputMode::All, false),
            EcdsaSighashType::NoOutputs => (OutputMode::NoOutputs, false),
            EcdsaSighashType::Single => (OutputMode::Single, false),
            EcdsaSighashType::AllPlusAnyoneCanPay => (OutputMode::All, true),
            EcdsaSighashType::NoOutputsPlusAnyoneCanPay => (OutputMode::NoOutputs, true),
            EcdsaSighashType::SinglePlusAnyoneCanPay => (OutputMode::Single, true),
        }
    }
}

/// The number of a type stands for that type.
pub proof fn lemma_of_consensus_of_number(t: EcdsaSighashType)
    ensures
        EcdsaSighashType::of_consensus(t.number()) == t,
{
}

/// The digest that stands for the number one: what the legacy scheme
/// signs where the type is single and there is no output at the position of
/// the input.
pub open spec fn one_digest() -> Seq<u8> {
    Seq::new(32, |i: int| if i == 0 { 1u8 } else { 0u8 })
}

/// Thirty-two zero bytes: what the witness schemes write in place of a
/// digest of what the signature does not commit to.
pub open spec fn zero_digest() -> Seq<u8> {
    Seq::new(32, |i: int| 0u8)
}

/// The output that the legacy scheme writes in place of the outputs before
/// the signed one.
pub open spec fn null_output() -> TxOutModel {
    TxOutModel { value: 0xffff_ffff_ffff_ffff, script_pubkey: Seq::empty() }
}

/// An input as the legacy scheme writes it: the script code in place of
/// the signature script of the signed input, no script in the others, and
/// sequence zero in the others where the type asks for that.
pub open spec fn legacy_input(
    input: TxInModel,
    is_signed: bool,
    script_code: Seq<u8>,
    zero_others: bool,
) -> TxInModel {
    TxInModel {
        previous_output: input.previous_output,
        script_sig: if is_signed {
            script_code
        } else {
            Seq::empty()
        },
        sequence: if !is_signed && zero_others {
            0
        } else {
            input.sequence
        },
        witness: Seq::empty(),
    }
}

/// The inputs that the legacy scheme writes.
pub open spec fn legacy_inputs(
    tx: TxModel,
    index: int,
    script_code: Seq<u8>,
    t: EcdsaSighashType,
) -> Seq<TxInModel> {
    if t.anyone_can_pay() {
        seq![legacy_input(tx.input[index], true, script_code, false)]
    } else {
        Seq::new(
            tx.input.len(),
            |n: int|
                legacy_input(
                    tx.input[n],
                    n == index,
                    script_code,
                    t.output_mode() != OutputMode::All,
                ),
        )
    }
}

/// The outputs that the legacy scheme writes.
pub open spec fn legacy_outputs(tx: TxModel, index: int, t: EcdsaSighashType) -> Seq<TxOutModel> {
    match t.output_mode() {
        OutputMode::All => tx.output,
        OutputMode::NoOutputs => Seq::empty(),
        OutputMode::Single => Seq::new(
            (index + 1) as nat,
            |n: int|
                if n == index {
                    tx.output[n]
                } else {
                    null_output()
                },
        ),
    }
}

/// The transaction that the legacy scheme writes.
pub open spec fn legacy_signing_tx(
    tx: TxModel,
    index: int,
    script_code: Seq<u8>,
    t: EcdsaSighashType,
) -> TxModel {
    TxModel {
        version: tx.version,
        lock_time: tx.lock_time,
        input: legacy_inputs(tx, index, script_code, t),
        output: legacy_outputs(tx, index, t),
    }
}

/// What the legacy scheme hashes: the signing transaction without
/// witnesses, and the number of the type in four bytes.
pub open spec fn legacy_preimage(tx: TxModel, index: int, script_code: Seq<u8>, sighash: u32) -> Seq<
    u8,
> {
    tx_bytes_legacy(
        legacy_signing_tx(tx, index, script_code, EcdsaSighashType::of_consensus(sighash)),
    ) + u32_le(sighash)
}

/// The type is single and there is no output at the position of the input.
pub open spec fn is_single_without_output(tx: TxModel, index: int, t: EcdsaSighashType) -> bool {
    t.output_mode() == OutputMode::Single && index >= tx.output.len()
}

/// The digest of the legacy scheme.
pub open spec fn legacy_sighash(tx: TxModel, index: int, script_code: Seq<u8>, sighash: u32) -> Result<
    Seq<u8>,
    Error,
> {
    if !(0 <= index < tx.input.len()) {
        Err(Error::InputIndexOutOfRange)
    } else if is_single_without_output(tx, index, EcdsaSighashType::of_consensus(sighash)) {
        Ok(one_digest())
    } else {
        Ok(sha256d(legacy_preimage(tx, index, script_code, sighash)))
    }
}

/// The outpoints of the inputs one after the other.
pub open spec fn prevouts_bytes(inputs: Seq<TxInModel>) -> Seq<u8>
    decreases inputs.len(),
{
    if inputs.len() == 0 {
        Seq::empty()
    } else {
        prevouts_bytes(inputs.drop_last()) + outpoint_bytes(inputs.last().previous_output)
    }
}

/// The sequence numbers of the inputs one after the other.
pub open spec fn sequences_bytes(inputs: Seq<TxInModel>) -> Seq<u8>
    decreases inputs.len(),
{
    if inputs.len() == 0 {
        Seq::empty()
    } else {
        sequences_bytes(inputs.drop_last()) + u32_le(inputs.last().sequence)
    }
}

pub open spec fn hash_prevouts(tx: TxModel, t: EcdsaSighashType) -> Seq<u8> {
    if t.anyone_can_pay() {
        zero_digest()
    } else {
        sha256d(prevouts_bytes(tx.input))
    }
}

pub open spec fn hash_sequence(tx: TxModel, t: EcdsaSighashType) -> Seq<u8> {
    if !t.anyone_can_pay() && t.output_mode() == OutputMode::All {
        sha256d(sequences_bytes(tx.input))
    } else {
        zero_digest()
    }
}

pub open spec fn hash_outputs(tx: TxModel, index: int, t: EcdsaSighashType) -> Seq<u8> {
    if t.output_mode() == OutputMode::All {
        sha256d(txouts_bytes(tx.output))
    } else if t.output_mode() == OutputMode::Single && index < tx.output.len() {
        sha256d(txout_bytes(tx.output[index]))
    } else {
        zero_digest()
    }
}

/// What the witness schemes hash.
pub open spec fn segwit_v0_preimage(
    tx: TxModel,
    index: int,
    script_code: Seq<u8>,
    amount: u64,
    t: EcdsaSighashType,
) -> Seq<u8> {
    i32_le(tx.version) + hash_prevouts(tx, t) + hash_sequence(tx, t) + outpoint_bytes(
        tx.input[index].previous_output,
    ) + var_bytes(script_code) + u64_le(amount) + u32_le(tx.input[index].sequence) + hash_outputs(
        tx,
        index,
        t,
    ) + u32_le(tx.lock_time) + u32_le(t.number())
}

/// The digest of the witness schemes for a given script code.
pub open spec fn segwit_v0_sighash(
    tx: TxModel,
    index: int,
    script_code: Seq<u8>,
    amount: u64,
    t: EcdsaSighashType,
) -> Result<Seq<u8>, Error> {
    if !(0 <= index < tx.input.len()) {
        Err(Error::InputIndexOutOfRange)
    } else {
        Ok(sha256d(segwit_v0_preimage(tx, index, script_code, amount, t)))
    }
}

/// The digest of the witness key hash scheme.  The script code is the
/// pay-to-key-hash script for the key hash of the script being spent, which
/// must be of the pay-to-witness-key-hash form.
pub open spec fn p2wpkh_sighash(
    tx: TxModel,
    index: int,
    script_pubkey: Seq<u8>,
    amount: u64,
    t: EcdsaSighashType,
) -> Result<Seq<u8>, Error> {
    if !is_p2wpkh(script_pubkey) {
        Err(Error::NotP2wpkhScript)
    } else {
        segwit_v0_sighash(tx, index, p2pkh_script(script_pubkey.subrange(2, 22)), amount, t)
    }
}

/// The digest of the witness script hash scheme.  The script code is the
/// witness script as it is.
pub open spec fn p2wsh_sighash(
    tx: TxModel,
    index: int,
    witness_script: Seq<u8>,
    amount: u64,
    t: EcdsaSighashType,
) -> Result<Seq<u8>, Error> {
    segwit_v0_sighash(tx, index, witness_script, amount, t)
}

/// What a computed digest, or the failure to compute one, stands for.
pub open spec fn digest_result_view(r: Result<[u8; 32], Error>) -> Result<Seq<u8>, Error> {
    match r {
        Ok(d) => Ok(d@),
        Err(e) => Err(e),
    }
}


/// Writes the inputs of the legacy scheme behind their count.
fn put_legacy_inputs(
    out: &mut Vec<u8>,
    tx: &Transaction,
    index: usize,
    script_code: &[u8],
    t: EcdsaSighashType,
)
    requires
        index < tx.input@.len(),
    ensures
        final(out)@ == old(out)@ + compact_size(
            legacy_inputs(tx@, index as int, script_code@, t).len() as u64,
        ) + txins_bytes(legacy_inputs(tx@, index as int, script_code@, t)),
{
    let ghost written = legacy_inputs(tx@, index as int, script_code@, t);
    let (mode, anyone_can_pay) = t.split();
    if anyone_can_pay {
        put_compact_size(out, 1);
        put_outpoint(out, &tx.input[index].previous_output);
        put_var_bytes(out, script_code);
        put_u32(out, tx.input[index].sequence);
        proof {
            assert(written.drop_first() =~= Seq::<TxInModel>::empty());
            assert(txins_bytes(written.drop_first()) =~= Seq::<u8>::empty());
            assert(txins_bytes(written) =~= txin_bytes(written[0]));
            assert(out@ =~= old(out)@ + compact_size(1) + txin_bytes(written[0]));
        }
    } else {
        let n = tx.input.len();
        let none: Vec<u8> = Vec::new();
        put_compact_size(out, n as u64);
        let ghost start = out@;
        let mut k: usize = 0;
        assert(written.take(0) =~= Seq::<TxInModel>::empty());
        while k < n
            invariant
                n == tx.input@.len(),
                index < n,
                k <= n,
                none@.len() == 0,
                !t.anyone_can_pay(),
                mode == t.output_mode(),
                written == legacy_inputs(tx@, index as int, script_code@, t),
                out@ == start + txins_bytes(written.take(k as int)),
            decreases n - k,
        {
            let ghost before = out@;
            put_outpoint(out, &tx.input[k].previous_output);
            if k == index {
                put_var_bytes(out, script_code);
                put_u32(out, tx.input[k].sequence);
            } else {
                put_var_bytes(out, none.as_slice());
                match mode {
                    OutputMode::All => put_u32(out, tx.input[k].sequence),
                    _ => put_u32(out, 0),
                }
            }
            proof {
                assert(none@ =~= Seq::<u8>::empty());
                assert(tx@.input[k as int] == tx.input@[k as int]@);
                assert(out@ == before + txin_bytes(written[k as int]));
                assert(written.take(k + 1) =~= written.take(k as int).push(written[k as int]));
                lemma_txins_bytes_push(written.take(k as int), written[k as int]);
            }
            k = k + 1;
        }
        assert(written.take(n as int) =~= written);
    }
}

/// Writes the outputs of the legacy scheme behind their count.
fn put_legacy_outputs(out: &mut Vec<u8>, tx: &Transaction, index: usize, t: EcdsaSighashType)
    requires
        t.output_mode() == OutputMode::Single ==> index < tx.output@.len(),
    ensures
        final(out)@ == old(out)@ + compact_size(
            legacy_outputs(tx@, index as int, t).len() as u64,
        ) + txouts_bytes(legacy_outputs(tx@, index as int, t)),
{
    let ghost written = legacy_outputs(tx@, index as int, t);
    let (mode, anyone_can_pay) = t.split();
    match mode {
        OutputMode::All => {
            put_compact_size(out, tx.output.len() as u64);
            put_txouts(out, &tx.output);
        },
        OutputMode::NoOutputs => {
            put_compact_size(out, 0);
            assert(out@ =~= old(out)@ + compact_size(0) + txouts_bytes(written));
        },
        OutputMode::Single => {
            let none: Vec<u8> = Vec::new();
            let m = tx.output.len();
            assert(index < m);
            put_compact_size(out, (index + 1) as u64);
            let ghost start = out@;
            let mut k: usize = 0;
            assert(written.take(0) =~= Seq::<TxOutModel>::empty());
            while k < index
                invariant
                    index < tx.output@.len(),
                    k <= index,
                    none@.len() == 0,
                    t.output_mode() == OutputMode::Single,
                    written == legacy_outputs(tx@, index as int, t),
                    out@ == start + txouts_bytes(written.take(k as int)),
                decreases index - k,
            {
                let ghost before = out@;
                put_u64(out, 0xffff_ffff_ffff_ffff);
                put_var_bytes(out, none.as_slice());
                proof {
                    assert(none@ =~= Seq::<u8>::empty());
                    assert(written[k as int] == null_output());
                    assert(out@ == before + txout_bytes(written[k as int]));
                    assert(written.take(k + 1) =~= written.take(k as int).push(
                        written[k as int],
                    ));
                    lemma_txouts_bytes_push(written.take(k as int), written[k as int]);
                }
                k = k + 1;
            }
            put_txout(out, &tx.output[index]);
            proof {
                assert(tx@.output[index as int] == tx.output@[index as int]@);
                assert(written.take(index + 1) =~= written.take(index as int).push(
                    written[index as int],
                ));
                lemma_txouts_bytes_push(written.take(index as int), written[index as int]);
                assert(written.take(index + 1) =~= written);
            }
        },
    }
}

/// Computes the digest that a signature of the legacy scheme commits to.
///
/// `sighash` is written into the hashed bytes as it is; only the type that
/// it stands for decides what else is written.
pub fn legacy_signature_hash(tx: &Transaction, index: usize, script_code: &[u8], sighash: u32) -> (r:
    Result<[u8; 32], Error>)
    ensures
        digest_result_view(r) == legacy_sighash(tx@, index as int, script_code@, sighash),
{
    if index >= tx.input.len() {
        return Err(Error::InputIndexOutOfRange);
    }
    let t = EcdsaSighashType::from_consensus(sighash);
    let (mode, anyone_can_pay) = t.split();
    let single = match mode {
        OutputMode::Single => true,
        _ => false,
    };
    if single && index >= tx.output.len() {
        let mut one = [0u8; 32];
        one[0] = 1;
        assert(one@ =~= one_digest());
        return Ok(one);
    }
    let mut out: Vec<u8> = Vec::new();
    put_i32(&mut out, tx.version);
    put_legacy_inputs(&mut out, tx, index, script_code, t);
    put_legacy_outputs(&mut out, tx, index, t);
    put_u32(&mut out, tx.lock_time);
    put_u32(&mut out, sighash);
    assert(out@ =~= legacy_preimage(tx@, index as int, script_code@, sighash));
    Ok(sha256d_digest(out.as_slice()))
}

fn digest_of_prevouts(tx: &Transaction) -> (r: [u8; 32])
    ensures
        r@ == sha256d(prevouts_bytes(tx@.input)),
{
    let n = tx.input.len();
    let mut out: Vec<u8> = Vec::new();
    let mut k: usize = 0;
    assert(tx@.input.take(0) =~= Seq::<TxInModel>::empty());
    while k < n
        invariant
            n == tx.input@.len(),
            k <= n,
            out@ == prevouts_bytes(tx@.input.take(k as int)),
        decreases n - k,
    {
        put_outpoint(&mut out, &tx.input[k].previous_output);
        proof {
            let all = tx@.input;
            assert(all.take(k + 1).drop_last() =~= all.take(k as int));
            assert(all.take(k + 1).last() == tx.input@[k as int]@);
        }
        k = k + 1;
    }
    assert(tx@.input.take(n as int) =~= tx@.input);
    sha256d_digest(out.as_slice())
}

fn digest_of_sequences(tx: &Transaction) -> (r: [u8; 32])
    ensures
        r@ == sha256d(sequences_bytes(tx@.input)),
{
    let n = tx.input.len();
    let mut out: Vec<u8> = Vec::new();
    let mut k: usize = 0;
    assert(tx@.input.take(0) =~= Seq::<TxInModel>::empty());
    while k < n
        invariant
            n == tx.input@.len(),
            k <= n,
            out@ == sequences_bytes(tx@.input.take(k as int)),
        decreases n - k,
    {
        put_u32(&mut out, tx.input[k].sequence);
        proof {
            let all = tx@.input;
            assert(all.take(k + 1).drop_last() =~= all.take(k as int));
            assert(all.take(k + 1).last() == tx.input@[k as int]@);
        }
        k = k + 1;
    }
    assert(tx@.input.take(n as int) =~= tx@.input);
    sha256d_digest(out.as_slice())
}

fn digest_of_outputs(tx: &Transaction, index: usize, t: EcdsaSighashType) -> (r: [u8; 32])
    ensures
        r@ == hash_outputs(tx@, index as int, t),
{
    let (mode, anyone_can_pay) = t.split();
    match mode {
        OutputMode::All => {
            let mut out: Vec<u8> = Vec::new();
            put_txouts(&mut out, &tx.output);
            assert(out@ =~= txouts_bytes(tx@.output));
            sha256d_digest(out.as_slice())
        },
        OutputMode::Single => {
            if index < tx.output.len() {
                let mut out: Vec<u8> = Vec::new();
                put_txout(&mut out, &tx.output[index]);
                assert(out@ =~= txout_bytes(tx@.output[index as int]));
                sha256d_digest(out.as_slice())
            } else {
                let zero = [0u8; 32];
                assert(zero@ =~= zero_digest());
                zero
            }
        },
        OutputMode::NoOutputs => {
            let zero = [0u8; 32];
            assert(zero@ =~= zero_digest());
            zero
        },
    }
}

/// Computes the digest that a signature of a witness scheme commits to, for
/// a given script code.
pub fn segwit_v0_signature_hash(
    tx: &Transaction,
    index: usize,
    script_code: &[u8],
    amount: u64,
    t: EcdsaSighashType,
) -> (r: Result<[u8; 32], Error>)
    ensures
        digest_result_view(r) == segwit_v0_sighash(tx@, index as int, script_code@, amount, t),
{
    if index >= tx.input.len() {
        return Err(Error::InputIndexOutOfRange);
    }
    let (mode, anyone_can_pay) = t.split();
    let all = match mode {
        OutputMode::All => true,
        _ => false,
    };
    let zero = [0u8; 32];
    assert(zero@ =~= zero_digest());
    let prevouts = if anyone_can_pay {
        zero
    } else {
        digest_of_prevouts(tx)
    };
    let sequences = if !anyone_can_pay && all {
        digest_of_sequences(tx)
    } else {
        zero
    };
    let outputs = digest_of_outputs(tx, index, t);
    let mut out: Vec<u8> = Vec::new();
    put_i32(&mut out, tx.version);
    out.extend_from_slice(prevouts.as_slice());
    out.extend_from_slice(sequences.as_slice());
    put_outpoint(&mut out, &tx.input[index].previous_output);
    put_var_bytes(&mut out, script_code);
    put_u64(&mut out, amount);
    put_u32(&mut out, tx.input[index].sequence);
    out.extend_from_slice(outputs.as_slice());
    put_u32(&mut out, tx.lock_time);
    put_u32(&mut out, t.to_u32());
    proof {
        assert(tx@.input[index as int] == tx.input@[index as int]@);
        assert(out@ =~= segwit_v0_preimage(tx@, index as int, script_code@, amount, t));
    }
    Ok(sha256d_digest(out.as_slice()))
}

/// Computes the digest of the witness key hash scheme for the output script
/// being spent.
pub fn p2wpkh_signature_hash(
    tx: &Transaction,
    index: usize,
    script_pubkey: &[u8],
    amount: u64,
    t: EcdsaSighashType,
) -> (r: Result<[u8; 32], Error>)
    ensures
        digest_result_view(r) == p2wpkh_sighash(tx@, index as int, script_pubkey@, amount, t),
{
    match crate::script::classify(script_pubkey) {
        Some(crate::script::ScriptType::P2wpkh) => {},
        _ => {
            proof {
                lemma_p2wpkh_comes_first(script_pubkey@);
            }
            return Err(Error::NotP2wpkhScript);
        },
    }
    let key_hash = crate::decode::to_array20(vstd::slice::slice_subrange(script_pubkey, 2, 22));
    let script_code = new_p2pkh(&key_hash);
    segwit_v0_signature_hash(tx, index, script_code.as_slice(), amount, t)
}

/// Computes the digest of the witness script hash scheme for the witness
/// script.
pub fn p2wsh_signature_hash(
    tx: &Transaction,
    index: usize,
    witness_script: &[u8],
    amount: u64,
    t: EcdsaSighashType,
) -> (r: Result<[u8; 32], Error>)
    ensures
        digest_result_view(r) == p2wsh_sighash(tx@, index as int, witness_script@, amount, t),
{
    segwit_v0_signature_hash(tx, index, witness_script, amount, t)
}

/// A script is classified as pay to witness key hash exactly if it has that
/// form: no form that is tried earlier has 22 bytes.
pub proof fn lemma_p2wpkh_comes_first(s: Seq<u8>)
    ensures
        crate::script::script_type(s) == Some(crate::script::ScriptType::P2wpkh) <==> is_p2wpkh(s),
{
}

} // verus!
