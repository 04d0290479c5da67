use vstd::bytes::*;
use vstd::prelude::*;
use vstd::string::StringSliceAdditionalSpecFns;

use crate::compact_size::encode_compact_size;
use crate::error::DecodeError;
use crate::hex_text::{hex_encode, hex_of, parse_hex_transaction};
use crate::types::{Input, Output, Transaction, Witness, WitnessItem};
use crate::wire::{InputModel, OutputModel, TransactionModel, WitnessItemModel, WitnessModel};

verus! {

/// One input, each field as lowercase hexadecimal text.
#[derive(Debug, Clone)]
pub struct RawInput {
    /// Previous transaction id in display order.
    pub txid: String,
    pub vout: String,
    pub scriptsig_size: String,
    pub scriptsig: String,
    pub sequence: String,
}

/// One output, each field as lowercase hexadecimal text.
#[derive(Debug, Clone)]
pub struct RawOutput {
    pub amount: String,
    pub scriptpubkey_size: String,
    pub scriptpubkey: String,
}

/// One witness stack element as lowercase hexadecimal text.
#[derive(Debug, Clone)]
pub struct RawWitnessItem {
    pub size: String,
    pub item: String,
}

/// One witness stack as lowercase hexadecimal text.
#[derive(Debug, Clone)]
pub struct RawWitness {
    pub stack_items: String,
    pub items: Vec<RawWitnessItem>,
}

/// A transaction with every field shown as the lowercase hexadecimal text of
/// its wire bytes. `witness` is empty for a transaction without the marker.
#[derive(Debug, Clone)]
pub struct RawTransactionComponents {
    pub version: String,
    pub marker: Option<String>,
    pub flag: Option<String>,
    pub input_count: String,
    pub inputs: Vec<RawInput>,
    pub output_count: String,
    pub outputs: Vec<RawOutput>,
    pub witness: Vec<RawWitness>,
    pub lock_time: String,
}

pub open spec fn shows_input(r: RawInput, i: InputModel) -> bool {
    &&& r.txid@ == hex_of(i.txid)
    &&& r.vout@ == hex_of(spec_u32_to_le_bytes(i.vout))
    &&& r.scriptsig_size@ == hex_of(encode_compact_size(i.scriptsigsize))
    &&& r.scriptsig@ == hex_of(i.scriptsig)
    &&& r.sequence@ == hex_of(spec_u32_to_le_bytes(i.sequence))
}

pub open spec fn shows_output(r: RawOutput, o: OutputModel) -> bool {
    &&& r.amount@ == hex_of(spec_u64_to_le_bytes(o.amount))
    &&& r.scriptpubkey_size@ == hex_of(encode_compact_size(o.scriptpubkeysize))
    &&& r.scriptpubkey@ == hex_of(o.scriptpubkey)
}

pub open spec fn shows_witness_item(r: RawWitnessItem, w: WitnessItemModel) -> bool {
    &&& r.size@ == hex_of(encode_compact_size(w.size))
    &&& r.item@ == hex_of(w.item)
}

pub open spec fn shows_witness(r: RawWitness, w: WitnessModel) -> bool {
    &&& r.stack_items@ == hex_of(encode_compact_size(w.stackitems))
    &&& r.items@.len() == w.items.len()
    &&& forall|k: int| 0 <= k < w.items.len() ==> shows_witness_item(#[trigger] r.items@[k], w.items[k])
}

pub open spec fn shows_hex_byte(r: Option<String>, b: Option<u8>) -> bool {
    match b {
        Some(x) => r is Some && r->Some_0@ == hex_of(seq![x]),
        None => r is None,
    }
}

/// `r` shows every field of `t`, in order, as the hexadecimal text of its
/// wire bytes.
pub open spec fn shows_transaction(r: RawTransactionComponents, t: TransactionModel) -> bool {
    &&& r.version@ == hex_of(spec_u32_to_le_bytes(t.version as u32))
    &&& shows_hex_byte(r.marker, t.marker)
    &&& shows_hex_byte(r.flag, t.flag)
    &&& r.input_count@ == hex_of(encode_compact_size(t.inputcount))
    &&& r.inputs@.len() == t.inputs.len()
    &&& forall|k: int| 0 <= k < t.inputs.len() ==> shows_input(#[trigger] r.inputs@[k], t.inputs[k])
    &&& r.output_count@ == hex_of(encode_compact_size(t.outputcount))
    &&& r.outputs@.len() == t.outputs.len()
    &&& forall|k: int| 0 <= k < t.outputs.len() ==> shows_output(#[trigger] r.outputs@[k], t.outputs[k])
    &&& match t.witness {
        Some(w) => {
            &&& r.witness@.len() == w.len()
            &&& forall|k: int| 0 <= k < w.len() ==> shows_witness(#[trigger] r.witness@[k], w[k])
        },
        None => r.witness@.len() == 0,
    }
    &&& r.lock_time@ == hex_of(spec_u32_to_le_bytes(t.locktime))
}

fn show_byte(b: Option<u8>) -> (r: Option<String>)
    ensures
        shows_hex_byte(r, b),
{
    match b {
        Some(x) => {
            let v: Vec<u8> = vec![x];
            assert(v@ =~= seq![x]);
            Some(hex_encode(v.as_slice()))
        },
        None => None,
    }
}

fn show_input(i: &Input) -> (r: RawInput)
    ensures
        shows_input(r, i@),
{
    RawInput {
        txid: hex_encode(i.txid.as_slice()),
        vout: hex_encode(u32_to_le_bytes(i.vout).as_slice()),
        scriptsig_size: hex_encode(i.scriptsigsize.to_bytes().as_slice()),
        scriptsig: hex_encode(i.scriptsig.as_slice()),
        sequence: hex_encode(u32_to_le_bytes(i.sequence).as_slice()),
    }
}

fn show_output(o: &Output) -> (r: RawOutput)
    ensures
        shows_output(r, o@),
{
    RawOutput {
        amount: hex_encode(u64_to_le_bytes(o.amount).as_slice()),
        scriptpubkey_size: hex_encode(o.scriptpubkeysize.to_bytes().as_slice()),
        scriptpubkey: hex_encode(o.scriptpubkey.as_slice()),
    }
}

fn show_witness(w: &Witness) -> (r: RawWitness)
    ensures
        shows_witness(r, w@),
{
    let mut items: Vec<RawWitnessItem> = Vec::new();
    let mut k: usize = 0;
    while k < w.items.len()
        invariant
            k <= w.items@.len(),
            items@.len() == k,
            forall|j: int| 0 <= j < k ==> shows_witness_item(#[trigger] items@[j], w.items@[j]@),
        decreases w.items@.len() - k,
    {
        let it: &WitnessItem = &w.items[k];
        items.push(RawWitnessItem {
            size: hex_encode(it.size.to_bytes().as_slice()),
            item: hex_encode(it.item.as_slice()),
        });
        k = k + 1;
    }
    RawWitness { stack_items: hex_encode(w.stackitems.to_bytes().as_slice()), items }
}

impl RawTransactionComponents {
    /// Shows each field of a decoded transaction as hexadecimal text.
    pub fn from_transaction(t: &Transaction) -> (r: RawTransactionComponents)
        ensures
            shows_transaction(r, t@),
    {
        let mut inputs: Vec<RawInput> = Vec::new();
        let mut k: usize = 0;
        while k < t.inputs.len()
            invariant
                k <= t.inputs@.len(),
                inputs@.len() == k,
                forall|j: int| 0 <= j < k ==> shows_input(#[trigger] inputs@[j], t.inputs@[j]@),
            decreases t.inputs@.len() - k,
        {
            inputs.push(show_input(&t.inputs[k]));
            k = k + 1;
        }
        let mut outputs: Vec<RawOutput> = Vec::new();
        let mut k: usize = 0;
        while k < t.outputs.len()
            invariant
                k <= t.outputs@.len(),
                outputs@.len() == k,
                forall|j: int| 0 <= j < k ==> shows_output(#[trigger] outputs@[j], t.outputs@[j]@),
            decreases t.outputs@.len() - k,
        {
            outputs.push(show_output(&t.outputs[k]));
            k = k + 1;
        }
        let mut witness: Vec<RawWitness> = Vec::new();
        match &t.witness {
            Some(ws) => {
                let mut k: usize = 0;
                while k < ws.len()
                    invariant
                        k <= ws@.len(),
                        witness@.len() == k,
                        forall|j: int| 0 <= j < k ==> shows_witness(#[trigger] witness@[j], ws@[j]@),
                    decreases ws@.len() - k,
                {
                    witness.push(show_witness(&ws[k]));
                    k = k + 1;
                }
            },
            None => {},
        }
        RawTransactionComponents {
            version: hex_encode(u32_to_le_bytes(t.version as u32).as_slice()),
            marker: show_byte(t.marker),
            flag: show_byte(t.flag),
            input_count: hex_encode(t.inputcount.to_bytes().as_slice()),
            inputs,
            output_count: hex_encode(t.outputcount.to_bytes().as_slice()),
            outputs,
            witness,
            lock_time: hex_encode(u32_to_le_bytes(t.locktime).as_slice()),
        }
    }
}

/// Decodes transactions from hexadecimal text.
pub struct BitcoinTransactionDecoder;

impl BitcoinTransactionDecoder {
    pub fn new() -> (r: Self) {
        BitcoinTransactionDecoder
    }

    /// Decodes hexadecimal text and shows each field of the transaction as
    /// hexadecimal text.
    pub fn parse_raw_components(&self, hex_string: &str) -> (r: Result<RawTransactionComponents, DecodeError>)
        ensures
            match parse_hex_transaction(hex_string.spec_bytes()) {
                Ok(t) => r is Ok && shows_transaction(r->Ok_0, t),
                Err(e) => r == Err::<RawTransactionComponents, DecodeError>(e),
            },
    {
        let t = Transaction::parse_hex(hex_string)?;
        Ok(RawTransactionComponents::from_transaction(&t))
    }
}

} // verus!
