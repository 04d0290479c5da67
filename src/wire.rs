use vstd::bytes::*;
use vstd::prelude::*;

use crate::compact_size::{encode_compact_size, parse_compact_size, CompactSize};
use crate::cursor::read_bytes;
use crate::error::DecodeError;
use crate::repeat::{encode_many, parse_many, ItemParser};

verus! {

/// An input as decoded: the previous transaction id in display order (the
/// reverse of its wire order), the previous output index, the signature
/// script with its length prefix, and the sequence number.
pub struct InputModel {
    pub txid: Seq<u8>,
    pub vout: u32,
    pub scriptsigsize: CompactSize,
    pub scriptsig: Seq<u8>,
    pub sequence: u32,
}

/// An output as decoded: the amount and the public-key script with its length
/// prefix.
pub struct OutputModel {
    pub amount: u64,
    pub scriptpubkeysize: CompactSize,
    pub scriptpubkey: Seq<u8>,
}

/// One element of a witness stack, with its place in the stack.
pub struct WitnessItemModel {
    pub index: nat,
    pub size: CompactSize,
    pub item: Seq<u8>,
}

/// The witness stack of one input.
pub struct WitnessModel {
    pub stackitems: CompactSize,
    pub items: Seq<WitnessItemModel>,
}

/// A whole transaction as decoded.
pub struct TransactionModel {
    pub version: i32,
    pub marker: Option<u8>,
    pub flag: Option<u8>,
    pub inputcount: CompactSize,
    pub inputs: Seq<InputModel>,
    pub outputcount: CompactSize,
    pub outputs: Seq<OutputModel>,
    pub witness: Option<Seq<WitnessModel>>,
    pub locktime: u32,
}

pub open spec fn reversed(s: Seq<u8>) -> Seq<u8> {
    Seq::new(s.len(), |i: int| s[s.len() - 1 - i])
}

pub open spec fn u32_at(d: Seq<u8>, pos: int) -> Result<(u32, int), DecodeError> {
    match read_bytes(d, pos, 4) {
        Err(e) => Err(e),
        Ok((s, e)) => Ok((spec_u32_from_le_bytes(s), e)),
    }
}

pub open spec fn u64_at(d: Seq<u8>, pos: int) -> Result<(u64, int), DecodeError> {
    match read_bytes(d, pos, 8) {
        Err(e) => Err(e),
        Ok((s, e)) => Ok((spec_u64_from_le_bytes(s), e)),
    }
}

/// A CompactSize length followed by that many bytes.
pub open spec fn sized_at(d: Seq<u8>, pos: int) -> Result<((CompactSize, Seq<u8>), int), DecodeError> {
    match parse_compact_size(d, pos) {
        Err(e) => Err(e),
        Ok((c, p)) => match read_bytes(d, p, c.value as int) {
            Err(e) => Err(e),
            Ok((s, e)) => Ok(((c, s), e)),
        },
    }
}

pub open spec fn parse_input(d: Seq<u8>, pos: int) -> Result<(InputModel, int), DecodeError> {
    match read_bytes(d, pos, 32) {
        Err(e) => Err(e),
        Ok((txid, at1)) => match u32_at(d, at1) {
            Err(e) => Err(e),
            Ok((vout, at2)) => match sized_at(d, at2) {
                Err(e) => Err(e),
                Ok(((size, script), at3)) => match u32_at(d, at3) {
                    Err(e) => Err(e),
                    Ok((sequence, at4)) => Ok((
                        InputModel {
                            txid: reversed(txid),
                            vout,
                            scriptsigsize: size,
                            scriptsig: script,
                            sequence,
                        },
                        at4,
                    )),
                },
            },
        },
    }
}

pub open spec fn parse_output(d: Seq<u8>, pos: int) -> Result<(OutputModel, int), DecodeError> {
    match u64_at(d, pos) {
        Err(e) => Err(e),
        Ok((amount, at1)) => match sized_at(d, at1) {
            Err(e) => Err(e),
            Ok(((size, script), at2)) => Ok((
                OutputModel { amount, scriptpubkeysize: size, scriptpubkey: script },
                at2,
            )),
        },
    }
}

pub open spec fn parse_witness_item(d: Seq<u8>, pos: int, index: nat) -> Result<(WitnessItemModel, int), DecodeError> {
    match sized_at(d, pos) {
        Err(e) => Err(e),
        Ok(((size, item), p)) => Ok((WitnessItemModel { index, size, item }, p)),
    }
}

pub open spec fn input_parser() -> ItemParser<InputModel> {
    |d: Seq<u8>, p: int, i: nat| parse_input(d, p)
}

pub open spec fn output_parser() -> ItemParser<OutputModel> {
    |d: Seq<u8>, p: int, i: nat| parse_output(d, p)
}

pub open spec fn witness_item_parser() -> ItemParser<WitnessItemModel> {
    |d: Seq<u8>, p: int, i: nat| parse_witness_item(d, p, i)
}

pub open spec fn parse_witness(d: Seq<u8>, pos: int) -> Result<(WitnessModel, int), DecodeError> {
    match parse_compact_size(d, pos) {
        Err(e) => Err(e),
        Ok((count, p)) => match parse_many(witness_item_parser(), d, p, count.value as nat) {
            Err(e) => Err(e),
            Ok((items, e)) => Ok((WitnessModel { stackitems: count, items }, e)),
        },
    }
}

pub open spec fn witness_parser() -> ItemParser<WitnessModel> {
    |d: Seq<u8>, p: int, i: nat| parse_witness(d, p)
}

/// Whether the two bytes at `pos` are a witness marker (zero) and a non-zero flag.
pub open spec fn has_marker(d: Seq<u8>, pos: int) -> bool {
    0 <= pos && pos + 2 <= d.len() && d[pos] == 0 && d[pos + 1] != 0
}

/// The witness section: one stack per input when the marker is present,
/// nothing otherwise.
pub open spec fn parse_witness_section(d: Seq<u8>, pos: int, marked: bool, n: nat) -> Result<(Option<Seq<WitnessModel>>, int), DecodeError> {
    if marked {
        match parse_many(witness_parser(), d, pos, n) {
            Err(e) => Err(e),
            Ok((w, e)) => Ok((Some(w), e)),
        }
    } else {
        Ok((None, pos))
    }
}

/// Everything after the version and the marker: counts, inputs, outputs,
/// witness section and locktime, ending at the offset after the locktime.
pub open spec fn parse_body(d: Seq<u8>, pos: int, version: i32, marked: bool) -> Result<(TransactionModel, int), DecodeError> {
    match parse_compact_size(d, pos) {
        Err(e) => Err(e),
        Ok((ic, at1)) => match parse_many(input_parser(), d, at1, ic.value as nat) {
            Err(e) => Err(e),
            Ok((inputs, at2)) => match parse_compact_size(d, at2) {
                Err(e) => Err(e),
                Ok((oc, at3)) => match parse_many(output_parser(), d, at3, oc.value as nat) {
                    Err(e) => Err(e),
                    Ok((outputs, at4)) => match parse_witness_section(d, at4, marked, ic.value as nat) {
                        Err(e) => Err(e),
                        Ok((witness, at5)) => match u32_at(d, at5) {
                            Err(e) => Err(e),
                            Ok((locktime, at6)) => Ok((
                                TransactionModel {
                                    version,
                                    marker: if marked { Some(0u8) } else { None },
                                    flag: if marked { Some(d[pos - 1]) } else { None },
                                    inputcount: ic,
                                    inputs,
                                    outputcount: oc,
                                    outputs,
                                    witness,
                                    locktime,
                                },
                                at6,
                            )),
                        },
                    },
                },
            },
        },
    }
}

/// Decoding a whole buffer as one transaction, which must use every byte.
pub open spec fn parse_transaction(d: Seq<u8>) -> Result<TransactionModel, DecodeError> {
    match u32_at(d, 0) {
        Err(e) => Err(e),
        Ok((v, at1)) => {
            let marked = has_marker(d, at1);
            match parse_body(d, if marked { at1 + 2 } else { at1 }, v as i32, marked) {
                Err(e) => Err(e),
                Ok((t, e)) => if e == d.len() {
                    Ok(t)
                } else {
                    Err(DecodeError::TrailingData)
                },
            }
        },
    }
}

pub open spec fn encode_sized(size: CompactSize, s: Seq<u8>) -> Seq<u8> {
    encode_compact_size(size) + s
}

pub open spec fn encode_input(i: InputModel) -> Seq<u8> {
    reversed(i.txid) + spec_u32_to_le_bytes(i.vout) + encode_sized(i.scriptsigsize, i.scriptsig)
        + spec_u32_to_le_bytes(i.sequence)
}

pub open spec fn encode_output(o: OutputModel) -> Seq<u8> {
    spec_u64_to_le_bytes(o.amount) + encode_sized(o.scriptpubkeysize, o.scriptpubkey)
}

pub open spec fn encode_witness_item(w: WitnessItemModel) -> Seq<u8> {
    encode_sized(w.size, w.item)
}

pub open spec fn witness_item_encoder() -> spec_fn(WitnessItemModel) -> Seq<u8> {
    |x: WitnessItemModel| encode_witness_item(x)
}

pub open spec fn encode_witness(w: WitnessModel) -> Seq<u8> {
    encode_compact_size(w.stackitems) + encode_many(witness_item_encoder(), w.items)
}

pub open spec fn input_encoder() -> spec_fn(InputModel) -> Seq<u8> {
    |x: InputModel| encode_input(x)
}

pub open spec fn output_encoder() -> spec_fn(OutputModel) -> Seq<u8> {
    |x: OutputModel| encode_output(x)
}

pub open spec fn witness_encoder() -> spec_fn(WitnessModel) -> Seq<u8> {
    |x: WitnessModel| encode_witness(x)
}

/// The wire bytes of a transaction, each field re-encoded in its place.
pub open spec fn encode_transaction(t: TransactionModel) -> Seq<u8> {
    let prelude = spec_u32_to_le_bytes(t.version as u32) + match (t.marker, t.flag) {
        (Some(m), Some(f)) => seq![m, f],
        _ => Seq::empty(),
    };
    let witness = match t.witness {
        Some(w) => encode_many(witness_encoder(), w),
        None => Seq::empty(),
    };
    prelude + encode_compact_size(t.inputcount) + encode_many(input_encoder(), t.inputs)
        + encode_compact_size(t.outputcount) + encode_many(output_encoder(), t.outputs)
        + witness + spec_u32_to_le_bytes(t.locktime)
}

} // verus!
