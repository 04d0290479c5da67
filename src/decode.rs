use vstd::bytes::*;
use vstd::prelude::*;
use vstd::slice::{slice_index_get, slice_to_vec};

use crate::compact_size::{parse_compact_size, read_compact_size, CompactSize};
use crate::cursor::ByteCursor;
use crate::error::DecodeError;
use crate::repeat::{lemma_many_err, parse_many};
use crate::types::{inputs_view, items_view, outputs_view, witnesses_view, Input, Output, Transaction, Witness, WitnessItem};
use crate::wire::{
    has_marker, input_parser, output_parser, parse_input, parse_output, parse_transaction,
    parse_witness, parse_witness_item, reversed, sized_at, u32_at, u64_at, witness_item_parser,
    witness_parser, InputModel, OutputModel, WitnessItemModel, WitnessModel,
};

verus! {

fn read_u32_le(cur: &mut ByteCursor) -> (r: Result<u32, DecodeError>)
    requires
        old(cur).wf(),
    ensures
        final(cur).wf(),
        final(cur).bytes() == old(cur).bytes(),
        match u32_at(old(cur).bytes(), old(cur).position()) {
            Ok((v, e)) => r == Ok::<u32, DecodeError>(v) && final(cur).position() == e,
            Err(e) => r == Err::<u32, DecodeError>(e),
        },
{
    let s = cur.take(4)?;
    Ok(u32_from_le_bytes(s))
}

fn read_u64_le(cur: &mut ByteCursor) -> (r: Result<u64, DecodeError>)
    requires
        old(cur).wf(),
    ensures
        final(cur).wf(),
        final(cur).bytes() == old(cur).bytes(),
        match u64_at(old(cur).bytes(), old(cur).position()) {
            Ok((v, e)) => r == Ok::<u64, DecodeError>(v) && final(cur).position() == e,
            Err(e) => r == Err::<u64, DecodeError>(e),
        },
{
    let s = cur.take(8)?;
    Ok(u64_from_le_bytes(s))
}

/// A CompactSize length and the bytes it announces.
fn read_sized(cur: &mut ByteCursor) -> (r: Result<(CompactSize, Vec<u8>), DecodeError>)
    requires
        old(cur).wf(),
    ensures
        final(cur).wf(),
        final(cur).bytes() == old(cur).bytes(),
        match sized_at(old(cur).bytes(), old(cur).position()) {
            Ok(((c, s), e)) => r is Ok && r->Ok_0.0 == c && r->Ok_0.1@ == s && final(cur).position() == e,
            Err(e) => r == Err::<(CompactSize, Vec<u8>), DecodeError>(e),
        },
{
    let size = read_compact_size(cur)?;
    let s = cur.take_len(size.value)?;
    Ok((size, slice_to_vec(s)))
}

/// The bytes of `s` in reverse order.
pub fn reverse_bytes(s: &[u8]) -> (r: Vec<u8>)
    ensures
        r@ == reversed(s@),
{
    let mut r: Vec<u8> = Vec::new();
    let mut i: usize = s.len();
    while i > 0
        invariant
            i <= s@.len(),
            r@ == reversed(s@).subrange(0, s@.len() - i),
        decreases i,
    {
        i = i - 1;
        r.push(*slice_index_get(s, i));
        assert(r@ =~= reversed(s@).subrange(0, s@.len() - i));
    }
    assert(r@ =~= reversed(s@));
    r
}

/// Reads one input: previous id, output index, signature script, sequence.
pub fn read_input(cur: &mut ByteCursor) -> (r: Result<Input, DecodeError>)
    requires
        old(cur).wf(),
    ensures
        final(cur).wf(),
        final(cur).bytes() == old(cur).bytes(),
        match parse_input(old(cur).bytes(), old(cur).position()) {
            Ok((v, e)) => r is Ok && r->Ok_0@ == v && final(cur).position() == e,
            Err(e) => r == Err::<Input, DecodeError>(e),
        },
{
    let wire_id = cur.take(32)?;
    let txid = reverse_bytes(wire_id);
    let vout = read_u32_le(cur)?;
    let (scriptsigsize, scriptsig) = read_sized(cur)?;
    let sequence = read_u32_le(cur)?;
    Ok(Input { txid, vout, scriptsigsize, scriptsig, sequence })
}

/// Reads one output: amount and public-key script.
pub fn read_output(cur: &mut ByteCursor) -> (r: Result<Output, DecodeError>)
    requires
        old(cur).wf(),
    ensures
        final(cur).wf(),
        final(cur).bytes() == old(cur).bytes(),
        match parse_output(old(cur).bytes(), old(cur).position()) {
            Ok((v, e)) => r is Ok && r->Ok_0@ == v && final(cur).position() == e,
            Err(e) => r == Err::<Output, DecodeError>(e),
        },
{
    let amount = read_u64_le(cur)?;
    let (scriptpubkeysize, scriptpubkey) = read_sized(cur)?;
    Ok(Output { amount, scriptpubkeysize, scriptpubkey })
}

fn read_inputs(cur: &mut ByteCursor, n: u64) -> (r: Result<Vec<Input>, DecodeError>)
    requires
        old(cur).wf(),
    ensures
        final(cur).wf(),
        final(cur).bytes() == old(cur).bytes(),
        match parse_many(input_parser(), old(cur).bytes(), old(cur).position(), n as nat) {
            Ok((s, e)) => r is Ok && inputs_view(r->Ok_0@) == s && final(cur).position() == e,
            Err(e) => r == Err::<Vec<Input>, DecodeError>(e),
        },
{
    let ghost d = cur.bytes();
    let ghost at0 = cur.position();
    let mut v: Vec<Input> = Vec::new();
    let mut i: u64 = 0;
    assert(inputs_view(v@) =~= Seq::<InputModel>::empty());
    while i < n
        invariant
            cur.wf(),
            cur.bytes() == d,
            d == old(cur).bytes(),
            at0 == old(cur).position(),
            i <= n,
            parse_many(input_parser(), d, at0, i as nat) == Ok::<(Seq<InputModel>, int), DecodeError>(
                (inputs_view(v@), cur.position()),
            ),
        decreases n - i,
    {
        let ghost p = cur.position();
        let x = match read_input(cur) {
            Ok(x) => x,
            Err(e) => {
                proof {
                    lemma_many_err(input_parser(), d, at0, (i + 1) as nat, n as nat);
                }
                return Err(e);
            },
        };
        let ghost before = v@;
        v.push(x);
        assert(input_parser()(d, p, i as nat) == parse_input(d, p));
        assert(inputs_view(v@) =~= inputs_view(before).push(x@));
        i = i + 1;
    }
    Ok(v)
}

fn read_outputs(cur: &mut ByteCursor, n: u64) -> (r: Result<Vec<Output>, DecodeError>)
    requires
        old(cur).wf(),
    ensures
        final(cur).wf(),
        final(cur).bytes() == old(cur).bytes(),
        match parse_many(output_parser(), old(cur).bytes(), old(cur).position(), n as nat) {
            Ok((s, e)) => r is Ok && outputs_view(r->Ok_0@) == s && final(cur).position() == e,
            Err(e) => r == Err::<Vec<Output>, DecodeError>(e),
        },
{
    let ghost d = cur.bytes();
    let ghost at0 = cur.position();
    let mut v: Vec<Output> = Vec::new();
    let mut i: u64 = 0;
    assert(outputs_view(v@) =~= Seq::<OutputModel>::empty());
    while i < n
        invariant
            cur.wf(),
            cur.bytes() == d,
            d == old(cur).bytes(),
            at0 == old(cur).position(),
            i <= n,
            parse_many(output_parser(), d, at0, i as nat) == Ok::<(Seq<OutputModel>, int), DecodeError>(
                (outputs_view(v@), cur.position()),
            ),
        decreases n - i,
    {
        let ghost p = cur.position();
        let x = match read_output(cur) {
            Ok(x) => x,
            Err(e) => {
                proof {
                    lemma_many_err(output_parser(), d, at0, (i + 1) as nat, n as nat);
                }
                return Err(e);
            },
        };
        let ghost before = v@;
        v.push(x);
        assert(output_parser()(d, p, i as nat) == parse_output(d, p));
        assert(outputs_view(v@) =~= outputs_view(before).push(x@));
        i = i + 1;
    }
    Ok(v)
}

/// Reads one witness stack: an item count, then each item with its length.
pub fn read_witness(cur: &mut ByteCursor) -> (r: Result<Witness, DecodeError>)
    requires
        old(cur).wf(),
    ensures
        final(cur).wf(),
        final(cur).bytes() == old(cur).bytes(),
        match parse_witness(old(cur).bytes(), old(cur).position()) {
            Ok((w, e)) => r is Ok && r->Ok_0@ == w && final(cur).position() == e,
            Err(e) => r == Err::<Witness, DecodeError>(e),
        },
{
    let ghost d = cur.bytes();
    let stackitems = read_compact_size(cur)?;
    let n = stackitems.value;
    let ghost at0 = cur.position();
    let mut items: Vec<WitnessItem> = Vec::new();
    let mut i: u64 = 0;
    assert(items_view(items@) =~= Seq::<WitnessItemModel>::empty());
    while i < n
        invariant
            cur.wf(),
            cur.bytes() == d,
            d == old(cur).bytes(),
            parse_compact_size(d, old(cur).position()) == Ok::<(CompactSize, int), DecodeError>((stackitems, at0)),
            n == stackitems.value,
            i <= n,
            parse_many(witness_item_parser(), d, at0, i as nat) == Ok::<(Seq<WitnessItemModel>, int), DecodeError>(
                (items_view(items@), cur.position()),
            ),
        decreases n - i,
    {
        let ghost p = cur.position();
        assert(witness_item_parser()(d, p, i as nat) == parse_witness_item(d, p, i as nat));
        let (size, item) = match read_sized(cur) {
            Ok(x) => x,
            Err(e) => {
                proof {
                    lemma_many_err(witness_item_parser(), d, at0, (i + 1) as nat, n as nat);
                }
                return Err(e);
            },
        };
        let x = WitnessItem { index: i, size, item };
        let ghost before = items@;
        items.push(x);
        assert(items_view(items@) =~= items_view(before).push(x@));
        i = i + 1;
    }
    Ok(Witness { stackitems, items })
}

/// Reads `n` witness stacks, one per input, in input order.
pub fn read_witnesses(cur: &mut ByteCursor, n: u64) -> (r: Result<Vec<Witness>, DecodeError>)
    requires
        old(cur).wf(),
    ensures
        final(cur).wf(),
        final(cur).bytes() == old(cur).bytes(),
        match parse_many(witness_parser(), old(cur).bytes(), old(cur).position(), n as nat) {
            Ok((s, e)) => r is Ok && witnesses_view(r->Ok_0@) == s && final(cur).position() == e,
            Err(e) => r == Err::<Vec<Witness>, DecodeError>(e),
        },
{
    let ghost d = cur.bytes();
    let ghost at0 = cur.position();
    let mut v: Vec<Witness> = Vec::new();
    let mut i: u64 = 0;
    assert(witnesses_view(v@) =~= Seq::<WitnessModel>::empty());
    while i < n
        invariant
            cur.wf(),
            cur.bytes() == d,
            d == old(cur).bytes(),
            at0 == old(cur).position(),
            i <= n,
            parse_many(witness_parser(), d, at0, i as nat) == Ok::<(Seq<WitnessModel>, int), DecodeError>(
                (witnesses_view(v@), cur.position()),
            ),
        decreases n - i,
    {
        let ghost p = cur.position();
        assert(witness_parser()(d, p, i as nat) == parse_witness(d, p));
        let x = match read_witness(cur) {
            Ok(x) => x,
            Err(e) => {
                proof {
                    lemma_many_err(witness_parser(), d, at0, (i + 1) as nat, n as nat);
                }
                return Err(e);
            },
        };
        let ghost before = v@;
        v.push(x);
        assert(witnesses_view(v@) =~= witnesses_view(before).push(x@));
        i = i + 1;
    }
    Ok(v)
}

/// Looks at the two bytes at the cursor: a zero marker and a non-zero flag
/// mean a witness-carrying transaction, and both are consumed. Otherwise
/// nothing is consumed.
pub fn read_segwit_marker(cur: &mut ByteCursor) -> (r: (Option<u8>, Option<u8>))
    requires
        old(cur).wf(),
    ensures
        final(cur).wf(),
        final(cur).bytes() == old(cur).bytes(),
        ({
            let d = old(cur).bytes();
            let p = old(cur).position();
            if has_marker(d, p) {
                r == (Some(0u8), Some(d[p + 1])) && final(cur).position() == p + 2
            } else {
                r == (None::<u8>, None::<u8>) && final(cur).position() == p
            }
        }),
{
    match (cur.peek(0), cur.peek(1)) {
        (Some(marker), Some(flag)) => {
            if marker == 0 && flag != 0 {
                let _ = cur.take(2);
                (Some(marker), Some(flag))
            } else {
                (None, None)
            }
        },
        _ => (None, None),
    }
}

impl Transaction {
    /// Decodes one serialized transaction that fills the whole buffer.
    pub fn parse(raw: &[u8]) -> (r: Result<Transaction, DecodeError>)
        ensures
            match parse_transaction(raw@) {
                Ok(t) => r is Ok && r->Ok_0@ == t,
                Err(e) => r == Err::<Transaction, DecodeError>(e),
            },
    {
        let mut cur = ByteCursor::new(raw);
        let version = read_u32_le(&mut cur)? as i32;
        let (marker, flag) = read_segwit_marker(&mut cur);
        let inputcount = read_compact_size(&mut cur)?;
        let inputs = read_inputs(&mut cur, inputcount.value)?;
        let outputcount = read_compact_size(&mut cur)?;
        let outputs = read_outputs(&mut cur, outputcount.value)?;
        let witness = if marker.is_some() {
            Some(read_witnesses(&mut cur, inputcount.value)?)
        } else {
            None
        };
        let locktime = read_u32_le(&mut cur)?;
        if !cur.is_exhausted() {
            return Err(DecodeError::TrailingData);
        }
        Ok(Transaction {
            version,
            marker,
            flag,
            inputcount,
            inputs,
            outputcount,
            outputs,
            witness,
            locktime,
        })
    }
}

} // verus!
