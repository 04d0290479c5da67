use vstd::prelude::*;

use crate::compact_size::CompactSize;
use crate::wire::{InputModel, OutputModel, TransactionModel, WitnessItemModel, WitnessModel};

verus! {

/// One transaction input.
#[derive(Debug, Clone)]
pub struct Input {
    /// Previous transaction id, in display order (reversed from the wire).
    pub txid: Vec<u8>,
    pub vout: u32,
    pub scriptsigsize: CompactSize,
    /// The signature script; empty, not absent, when its length is zero.
    pub scriptsig: Vec<u8>,
    pub sequence: u32,
}

/// One transaction output.
#[derive(Debug, Clone)]
pub struct Output {
    /// Amount in the smallest currency unit.
    pub amount: u64,
    pub scriptpubkeysize: CompactSize,
    pub scriptpubkey: Vec<u8>,
}

/// One element of a witness stack.
#[derive(Debug, Clone)]
pub struct WitnessItem {
    /// Position of the element in its stack.
    pub index: u64,
    pub size: CompactSize,
    pub item: Vec<u8>,
}

/// The witness stack of one input.
#[derive(Debug, Clone)]
pub struct Witness {
    pub stackitems: CompactSize,
    pub items: Vec<WitnessItem>,
}

/// A decoded transaction. `witness` holds one stack per input, in input order,
/// when the marker and flag were present, and is `None` otherwise.
#[derive(Debug, Clone)]
pub struct Transaction {
    pub version: i32,
    pub marker: Option<u8>,
    pub flag: Option<u8>,
    pub inputcount: CompactSize,
    pub inputs: Vec<Input>,
    pub outputcount: CompactSize,
    pub outputs: Vec<Output>,
    pub witness: Option<Vec<Witness>>,
    pub locktime: u32,
}

impl View for Input {
    type V = InputModel;

    open spec fn view(&self) -> InputModel {
        InputModel {
            txid: self.txid@,
            vout: self.vout,
            scriptsigsize: self.scriptsigsize,
            scriptsig: self.scriptsig@,
            sequence: self.sequence,
        }
    }
}

impl View for Output {
    type V = OutputModel;

    open spec fn view(&self) -> OutputModel {
        OutputModel {
            amount: self.amount,
            scriptpubkeysize: self.scriptpubkeysize,
            scriptpubkey: self.scriptpubkey@,
        }
    }
}

impl View for WitnessItem {
    type V = WitnessItemModel;

    open spec fn view(&self) -> WitnessItemModel {
        WitnessItemModel { index: self.index as nat, size: self.size, item: self.item@ }
    }
}

pub open spec fn items_view(s: Seq<WitnessItem>) -> Seq<WitnessItemModel> {
    s.map_values(|x: WitnessItem| x@)
}

impl View for Witness {
    type V = WitnessModel;

    open spec fn view(&self) -> WitnessModel {
        WitnessModel { stackitems: self.stackitems, items: items_view(self.items@) }
    }
}

pub open spec fn inputs_view(s: Seq<Input>) -> Seq<InputModel> {
    s.map_values(|x: Input| x@)
}

pub open spec fn outputs_view(s: Seq<Output>) -> Seq<OutputModel> {
    s.map_values(|x: Output| x@)
}

pub open spec fn witnesses_view(s: Seq<Witness>) -> Seq<WitnessModel> {
    s.map_values(|x: Witness| x@)
}

impl View for Transaction {
    type V = TransactionModel;

    open spec fn view(&self) -> TransactionModel {
        TransactionModel {
            version: self.version,
            marker: self.marker,
            flag: self.flag,
            inputcount: self.inputcount,
            inputs: inputs_view(self.inputs@),
            outputcount: self.outputcount,
            outputs: outputs_view(self.outputs@),
            witness: match self.witness {
                Some(w) => Some(witnesses_view(w@)),
                None => None,
            },
            locktime: self.locktime,
        }
    }
}

} // verus!
