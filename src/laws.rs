use vstd::bytes::*;
use vstd::prelude::*;

use crate::compact_size::{lemma_compact_size_round_trip, parse_compact_size, CompactSize};
use crate::cursor::read_bytes;
use crate::compact_size::lemma_compact_size_steady;
use crate::error::{is_short, DecodeError};
use crate::repeat::{
    agree, encode_many, faithful, lemma_many_faithful, lemma_many_len, lemma_many_steady, parse_many,
    steady,
};
use crate::wire::{
    encode_input, encode_output, encode_sized, encode_transaction, encode_witness, has_marker,
    input_encoder, input_parser, output_encoder, output_parser, parse_body, parse_input,
    parse_output, parse_transaction, parse_witness, parse_witness_section, reversed, sized_at,
    u32_at, u64_at, witness_encoder, witness_item_encoder, witness_item_parser, witness_parser,
    InputModel, TransactionModel,
};

verus! {

proof fn lemma_u32_faithful(d: Seq<u8>, pos: int)
    ensures
        u32_at(d, pos) is Ok ==> {
            let (v, e) = u32_at(d, pos)->Ok_0;
            &&& 0 <= pos && e == pos + 4 && e <= d.len()
            &&& spec_u32_to_le_bytes(v) == d.subrange(pos, e)
        },
{
    lemma_auto_spec_u32_to_from_le_bytes();
}

proof fn lemma_u64_faithful(d: Seq<u8>, pos: int)
    ensures
        u64_at(d, pos) is Ok ==> {
            let (v, e) = u64_at(d, pos)->Ok_0;
            &&& 0 <= pos && e == pos + 8 && e <= d.len()
            &&& spec_u64_to_le_bytes(v) == d.subrange(pos, e)
        },
{
    lemma_auto_spec_u64_to_from_le_bytes();
}

proof fn lemma_sized_faithful(d: Seq<u8>, pos: int)
    ensures
        sized_at(d, pos) is Ok ==> {
            let ((c, s), e) = sized_at(d, pos)->Ok_0;
            &&& 0 <= pos < e <= d.len()
            &&& encode_sized(c, s) == d.subrange(pos, e)
        },
{
    if let Ok(((c, s), e)) = sized_at(d, pos) {
        lemma_compact_size_round_trip(d, pos);
        let p = parse_compact_size(d, pos)->Ok_0.1;
        assert(d.subrange(pos, e) =~= d.subrange(pos, p) + d.subrange(p, e));
    }
}

proof fn lemma_input_faithful(d: Seq<u8>, pos: int)
    ensures
        faithful(parse_input(d, pos), input_encoder(), pos, d),
{
    if let Ok((v, e)) = parse_input(d, pos) {
        let at1 = pos + 32;
        let at2 = at1 + 4;
        lemma_u32_faithful(d, at1);
        lemma_sized_faithful(d, at2);
        let at3 = sized_at(d, at2)->Ok_0.1;
        lemma_u32_faithful(d, at3);
        let wire = d.subrange(pos, at1);
        assert(reversed(reversed(wire)) =~= wire);
        assert(d.subrange(pos, e) =~= d.subrange(pos, at1) + d.subrange(at1, at2) + d.subrange(at2, at3)
            + d.subrange(at3, e));
        assert(input_encoder()(v) == encode_input(v));
    }
}

proof fn lemma_output_faithful(d: Seq<u8>, pos: int)
    ensures
        faithful(parse_output(d, pos), output_encoder(), pos, d),
{
    if let Ok((v, e)) = parse_output(d, pos) {
        let at1 = pos + 8;
        lemma_u64_faithful(d, pos);
        lemma_sized_faithful(d, at1);
        assert(d.subrange(pos, e) =~= d.subrange(pos, at1) + d.subrange(at1, e));
        assert(output_encoder()(v) == encode_output(v));
    }
}

proof fn lemma_witness_faithful(d: Seq<u8>, pos: int)
    ensures
        faithful(parse_witness(d, pos), witness_encoder(), pos, d),
{
    if let Ok((w, e)) = parse_witness(d, pos) {
        lemma_compact_size_round_trip(d, pos);
        let (c, p) = parse_compact_size(d, pos)->Ok_0;
        assert forall|q: int, i: nat|
            faithful(#[trigger] witness_item_parser()(d, q, i), witness_item_encoder(), q, d) by {
            lemma_sized_faithful(d, q);
        }
        lemma_many_faithful(witness_item_parser(), witness_item_encoder(), d, p, c.value as nat);
        assert(d.subrange(pos, e) =~= d.subrange(pos, p) + d.subrange(p, e));
        assert(witness_encoder()(w) == encode_witness(w));
    }
}

/// Re-encoding every field of a decoded transaction, in wire order and at the
/// widths it was read with, gives back exactly the decoded bytes.
pub proof fn lemma_round_trip(d: Seq<u8>)
    requires
        parse_transaction(d) is Ok,
    ensures
        encode_transaction(parse_transaction(d)->Ok_0) == d,
{
    let t = parse_transaction(d)->Ok_0;
    lemma_u32_faithful(d, 0);
    lemma_auto_spec_u32_to_from_le_bytes();
    let v = u32_at(d, 0)->Ok_0.0;
    assert((v as i32) as u32 == v) by (bit_vector);
    let marked = has_marker(d, 4);
    let at0: int = if marked { 6 } else { 4 };
    let prelude = spec_u32_to_le_bytes(t.version as u32) + match (t.marker, t.flag) {
        (Some(m), Some(f)) => seq![m, f],
        _ => Seq::empty(),
    };
    assert(prelude =~= d.subrange(0, at0));
    lemma_compact_size_round_trip(d, at0);
    let (ic, at1) = parse_compact_size(d, at0)->Ok_0;
    assert forall|q: int, i: nat| faithful(#[trigger] input_parser()(d, q, i), input_encoder(), q, d) by {
        lemma_input_faithful(d, q);
    }
    lemma_many_faithful(input_parser(), input_encoder(), d, at1, ic.value as nat);
    let at2 = parse_many(input_parser(), d, at1, ic.value as nat)->Ok_0.1;
    lemma_compact_size_round_trip(d, at2);
    let (oc, at3) = parse_compact_size(d, at2)->Ok_0;
    assert forall|q: int, i: nat| faithful(#[trigger] output_parser()(d, q, i), output_encoder(), q, d) by {
        lemma_output_faithful(d, q);
    }
    lemma_many_faithful(output_parser(), output_encoder(), d, at3, oc.value as nat);
    let at4 = parse_many(output_parser(), d, at3, oc.value as nat)->Ok_0.1;
    assert forall|q: int, i: nat| faithful(#[trigger] witness_parser()(d, q, i), witness_encoder(), q, d) by {
        lemma_witness_faithful(d, q);
    }
    lemma_many_faithful(witness_parser(), witness_encoder(), d, at4, ic.value as nat);
    let at5 = parse_witness_section(d, at4, marked, ic.value as nat)->Ok_0.1;
    let witness = match t.witness {
        Some(w) => encode_many(witness_encoder(), w),
        None => Seq::empty(),
    };
    assert(witness =~= d.subrange(at4, at5));
    lemma_u32_faithful(d, at5);
    assert(d =~= d.subrange(0, at0) + d.subrange(at0, at1) + d.subrange(at1, at2) + d.subrange(at2, at3)
        + d.subrange(at3, at4) + d.subrange(at4, at5) + d.subrange(at5, d.len() as int));
}

/// A decoded transaction carries a witness section exactly when it carries
/// the marker, and then holds one witness stack per input: stack `i` belongs
/// to input `i`.
pub proof fn lemma_witness_per_input(d: Seq<u8>)
    requires
        parse_transaction(d) is Ok,
    ensures
        ({
            let t = parse_transaction(d)->Ok_0;
            &&& t.witness is Some <==> t.marker is Some
            &&& t.inputs.len() == t.inputcount.value
            &&& t.witness is Some ==> t.witness->Some_0.len() == t.inputs.len()
        }),
{
    let marked = has_marker(d, 4);
    let at0: int = if marked { 6 } else { 4 };
    let (ic, at1) = parse_compact_size(d, at0)->Ok_0;
    lemma_many_len(input_parser(), d, at1, ic.value as nat);
    let at2 = parse_many(input_parser(), d, at1, ic.value as nat)->Ok_0.1;
    let (oc, at3) = parse_compact_size(d, at2)->Ok_0;
    let at4 = parse_many(output_parser(), d, at3, oc.value as nat)->Ok_0.1;
    if marked {
        lemma_many_len(witness_parser(), d, at4, ic.value as nat);
    }
}

proof fn lemma_read_steady(d: Seq<u8>, d2: Seq<u8>, pos: int, n: int)
    requires
        agree(d, d2),
    ensures
        steady(read_bytes(d, pos, n), read_bytes(d2, pos, n), pos, d2),
{
    if let Ok((s, e)) = read_bytes(d, pos, n) {
        if e <= d2.len() {
            assert(d2.subrange(pos, e) =~= d.subrange(pos, e));
        }
    }
}

proof fn lemma_u32_steady(d: Seq<u8>, d2: Seq<u8>, pos: int)
    requires
        agree(d, d2),
    ensures
        steady(u32_at(d, pos), u32_at(d2, pos), pos, d2),
{
    lemma_read_steady(d, d2, pos, 4);
}

proof fn lemma_u64_steady(d: Seq<u8>, d2: Seq<u8>, pos: int)
    requires
        agree(d, d2),
    ensures
        steady(u64_at(d, pos), u64_at(d2, pos), pos, d2),
{
    lemma_read_steady(d, d2, pos, 8);
}

proof fn lemma_sized_steady(d: Seq<u8>, d2: Seq<u8>, pos: int)
    requires
        agree(d, d2),
    ensures
        steady(sized_at(d, pos), sized_at(d2, pos), pos, d2),
        sized_at(d, pos) is Ok ==> pos < sized_at(d, pos)->Ok_0.1,
{
    lemma_compact_size_steady(d, d2, pos);
    if let Ok((c, p)) = parse_compact_size(d, pos) {
        lemma_read_steady(d, d2, p, c.value as int);
    }
}

proof fn lemma_input_steady(d: Seq<u8>, d2: Seq<u8>, pos: int)
    requires
        agree(d, d2),
    ensures
        steady(parse_input(d, pos), parse_input(d2, pos), pos, d2),
{
    lemma_read_steady(d, d2, pos, 32);
    lemma_u32_steady(d, d2, pos + 32);
    lemma_sized_steady(d, d2, pos + 36);
    if let Ok((_, at3)) = sized_at(d, pos + 36) {
        lemma_u32_steady(d, d2, at3);
    }
}

proof fn lemma_output_steady(d: Seq<u8>, d2: Seq<u8>, pos: int)
    requires
        agree(d, d2),
    ensures
        steady(parse_output(d, pos), parse_output(d2, pos), pos, d2),
{
    lemma_u64_steady(d, d2, pos);
    lemma_sized_steady(d, d2, pos + 8);
}

proof fn lemma_witness_steady(d: Seq<u8>, d2: Seq<u8>, pos: int)
    requires
        agree(d, d2),
    ensures
        steady(parse_witness(d, pos), parse_witness(d2, pos), pos, d2),
{
    lemma_compact_size_steady(d, d2, pos);
    if let Ok((c, p)) = parse_compact_size(d, pos) {
        assert forall|q: int, i: nat|
            steady(#[trigger] witness_item_parser()(d, q, i), witness_item_parser()(d2, q, i), q, d2) by {
            lemma_sized_steady(d, d2, q);
        }
        lemma_many_steady(witness_item_parser(), d, d2, p, c.value as nat);
    }
}

/// The body decodes the same from any buffer that agrees with `d` and holds
/// the bytes it read, and fails as a short buffer otherwise; it reads at
/// least two count bytes and the locktime.
proof fn lemma_body_steady(d: Seq<u8>, d2: Seq<u8>, pos: int, version: i32, marked: bool)
    requires
        agree(d, d2),
        marked ==> 1 <= pos,
    ensures
        steady(parse_body(d, pos, version, marked), parse_body(d2, pos, version, marked), pos, d2),
        parse_body(d, pos, version, marked) is Ok ==> pos + 6 <= parse_body(d, pos, version, marked)->Ok_0.1,
{
    assert forall|q: int, i: nat| steady(#[trigger] input_parser()(d, q, i), input_parser()(d2, q, i), q, d2) by {
        lemma_input_steady(d, d2, q);
    }
    assert forall|q: int, i: nat| steady(#[trigger] output_parser()(d, q, i), output_parser()(d2, q, i), q, d2) by {
        lemma_output_steady(d, d2, q);
    }
    assert forall|q: int, i: nat| steady(#[trigger] witness_parser()(d, q, i), witness_parser()(d2, q, i), q, d2) by {
        lemma_witness_steady(d, d2, q);
    }
    lemma_compact_size_steady(d, d2, pos);
    if let Ok((ic, at1)) = parse_compact_size(d, pos) {
        lemma_many_steady(input_parser(), d, d2, at1, ic.value as nat);
        if let Ok((_, at2)) = parse_many(input_parser(), d, at1, ic.value as nat) {
            lemma_compact_size_steady(d, d2, at2);
            if let Ok((oc, at3)) = parse_compact_size(d, at2) {
                lemma_many_steady(output_parser(), d, d2, at3, oc.value as nat);
                if let Ok((_, at4)) = parse_many(output_parser(), d, at3, oc.value as nat) {
                    lemma_many_steady(witness_parser(), d, d2, at4, ic.value as nat);
                    if let Ok((_, at5)) = parse_witness_section(d, at4, marked, ic.value as nat) {
                        lemma_u32_steady(d, d2, at5);
                    }
                }
            }
        }
    }
}

/// Cutting a well-formed transaction short at any byte boundary makes decoding
/// fail, and fail as a short buffer does: `InsufficientData` or
/// `TruncatedVarInt`, never a shorter transaction.
pub proof fn lemma_truncated_fails(d: Seq<u8>, k: int)
    requires
        parse_transaction(d) is Ok,
        0 <= k < d.len(),
    ensures
        parse_transaction(d.subrange(0, k)) is Err,
        is_short(parse_transaction(d.subrange(0, k))->Err_0),
{
    let d2 = d.subrange(0, k);
    assert(agree(d, d2));
    lemma_u32_steady(d, d2, 0);
    if k >= 4 {
        let v = u32_at(d, 0)->Ok_0.0;
        let marked = has_marker(d, 4);
        let at0: int = if marked { 6 } else { 4 };
        lemma_body_steady(d, d2, at0, v as i32, marked);
        if k == 5 && marked {
            assert(d2[4] == 0);
            assert(parse_compact_size(d2, 4) == Ok::<(CompactSize, int), DecodeError>(
                (CompactSize { value: 0, width: 1 }, 5),
            ));
            assert(parse_many(input_parser(), d2, 5, 0) == Ok::<(Seq<InputModel>, int), DecodeError>(
                (Seq::empty(), 5),
            ));
        }
    }
}

/// One byte appended to a well-formed transaction makes decoding fail with
/// `TrailingData`.
pub proof fn lemma_trailing_byte_fails(d: Seq<u8>, b: u8)
    requires
        parse_transaction(d) is Ok,
    ensures
        parse_transaction(d.push(b)) == Err::<TransactionModel, DecodeError>(DecodeError::TrailingData),
{
    let d2 = d.push(b);
    assert(agree(d, d2));
    lemma_u32_steady(d, d2, 0);
    let v = u32_at(d, 0)->Ok_0.0;
    let marked = has_marker(d, 4);
    let at0: int = if marked { 6 } else { 4 };
    lemma_body_steady(d, d2, at0, v as i32, marked);
    assert(has_marker(d2, 4) == marked);
}

/// A zero byte after the version followed by another zero byte is no witness
/// marker: such a transaction decodes without marker, flag or witness section.
pub proof fn lemma_zero_flag_is_legacy(d: Seq<u8>)
    requires
        parse_transaction(d) is Ok,
        d.len() >= 6,
        d[4] == 0,
        d[5] == 0,
    ensures
        parse_transaction(d)->Ok_0.marker is None,
        parse_transaction(d)->Ok_0.flag is None,
        parse_transaction(d)->Ok_0.witness is None,
{
}

} // verus!
