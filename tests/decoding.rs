use txsplit::compact_size::{read_compact_size, CompactSize};
use txsplit::components::BitcoinTransactionDecoder;
use txsplit::cursor::ByteCursor;
use txsplit::error::DecodeError;
use txsplit::hex_text::decode_hex_text;
use txsplit::types::Transaction;

const SEGWIT_ONE_OUTPUT: &str = "010000000001019d78d88ba7223285a8f238a8b4a4cfa50e5a8bae1c48ab9c9fdba65726f67b7b0d00000000ffffffff018ea003000000000017a9143761107a6ed37e71cfec61275f175446e67c23a6870247304402202c744bd89c0aa12f8434cf442f0c67ab78ad6a7670e5ec770e5a5e8c67be474b022034dece145972f135e02f7bbc17853133c876d4f7d521de438dd5d13a529f1f05012103365db62d9cf4b19e4dcebb6946763e8048f315d84814f507fa3ca38412044ba200000000";

const SEGWIT_TWO_OUTPUTS: &str = "01000000000101d7fc103aeb1e32e125959328597717f83c6de279da205de2cd52472f726171040100000000ffffffff02180114000000000017a914aeb0efc1da63629651dc3322c092c6607937c87c87e8af4d7a000000001600141ce75726e812b2fcaf36d6a178ccbfd58a5efcd602483045022100d91d64b5b0326b83d1cfca891a6df291ba975c43c51abfa0f021d9733fe69d6a02206061089696fb44643c4e6e4311304d6d4c41309c10eba835c2835ced06537e960121021b7f2cb05643404c57d0587b48c8d882a454f1040c47cbd31c73d29b599d040100000000";

/// A legacy transaction: one input with an empty signature script, one
/// output with a 25-byte script.
fn legacy_bytes() -> Vec<u8> {
    let mut b = vec![0x01, 0x00, 0x00, 0x00, 0x01];
    for k in 0..32u8 {
        b.push(k);
    }
    b.extend_from_slice(&[0x02, 0x00, 0x00, 0x00]);
    b.push(0x00);
    b.extend_from_slice(&[0xff, 0xff, 0xff, 0xff]);
    b.push(0x01);
    b.extend_from_slice(&[0x00, 0xf2, 0x05, 0x2a, 0x01, 0x00, 0x00, 0x00]);
    b.push(0x19);
    b.push(0x76);
    b.push(0xa9);
    b.push(0x14);
    for k in 0..20u8 {
        b.push(0xa0 + k);
    }
    b.push(0x88);
    b.push(0xac);
    b.extend_from_slice(&[0x10, 0x20, 0x30, 0x40]);
    b
}

fn compact(bytes: &[u8]) -> Result<CompactSize, DecodeError> {
    let mut cur = ByteCursor::new(bytes);
    read_compact_size(&mut cur)
}

fn hex_bytes(text: &str) -> Vec<u8> {
    decode_hex_text(text).unwrap()
}

#[test]
fn compact_size_canonical_values() {
    let cases: Vec<(Vec<u8>, u64, u8)> = vec![
        (vec![0x00], 0, 1),
        (vec![0xfc], 252, 1),
        (vec![0xfd, 0xfd, 0x00], 253, 3),
        (vec![0xfd, 0xff, 0xff], 65535, 3),
        (vec![0xfe, 0x00, 0x00, 0x01, 0x00], 65536, 5),
        (vec![0xfe, 0xff, 0xff, 0xff, 0xff], 4294967295, 5),
        (vec![0xff, 0x00, 0x00, 0x00, 0x00, 0x01, 0x00, 0x00, 0x00], 4294967296, 9),
    ];
    for (bytes, value, width) in cases {
        let c = compact(&bytes).unwrap();
        assert_eq!(c, CompactSize { value, width });
        assert_eq!(c.to_bytes(), bytes);
    }
}

#[test]
fn compact_size_errors() {
    assert_eq!(compact(&[]), Err(DecodeError::InsufficientData));
    assert_eq!(compact(&[0xfd, 0x01]), Err(DecodeError::TruncatedVarInt));
    assert_eq!(compact(&[0xfe, 0x01, 0x02, 0x03]), Err(DecodeError::TruncatedVarInt));
    assert_eq!(compact(&[0xff]), Err(DecodeError::TruncatedVarInt));
}

#[test]
fn compact_size_non_canonical_keeps_width() {
    let c = compact(&[0xfd, 0x05, 0x00]).unwrap();
    assert_eq!(c, CompactSize { value: 5, width: 3 });
    assert_eq!(c.to_bytes(), vec![0xfd, 0x05, 0x00]);
}

#[test]
fn legacy_single_input_single_output() {
    let bytes = legacy_bytes();
    let t = Transaction::parse(&bytes).unwrap();
    assert_eq!(t.version, 1);
    assert_eq!(t.marker, None);
    assert_eq!(t.flag, None);
    assert!(t.witness.is_none());
    assert_eq!(t.inputs.len(), 1);
    let i = &t.inputs[0];
    assert_eq!(i.txid.len(), 32);
    let expected_id: Vec<u8> = (0..32u8).rev().collect();
    assert_eq!(i.txid, expected_id);
    assert_eq!(i.vout, 2);
    assert_eq!(i.scriptsigsize, CompactSize { value: 0, width: 1 });
    assert!(i.scriptsig.is_empty());
    assert_eq!(i.sequence, 0xffffffff);
    assert_eq!(t.outputs.len(), 1);
    let o = &t.outputs[0];
    assert_eq!(o.amount, 5_000_000_000);
    assert_eq!(o.scriptpubkeysize.value as usize, o.scriptpubkey.len());
    assert_eq!(o.scriptpubkey.len(), 25);
    assert_eq!(t.locktime, 0x40302010);
}

#[test]
fn legacy_fields_re_encode_to_the_same_bytes() {
    let bytes = legacy_bytes();
    let t = Transaction::parse(&bytes).unwrap();
    let mut out: Vec<u8> = Vec::new();
    out.extend_from_slice(&(t.version as u32).to_le_bytes());
    out.extend_from_slice(&t.inputcount.to_bytes());
    for i in &t.inputs {
        let mut id = i.txid.clone();
        id.reverse();
        out.extend_from_slice(&id);
        out.extend_from_slice(&i.vout.to_le_bytes());
        out.extend_from_slice(&i.scriptsigsize.to_bytes());
        out.extend_from_slice(&i.scriptsig);
        out.extend_from_slice(&i.sequence.to_le_bytes());
    }
    out.extend_from_slice(&t.outputcount.to_bytes());
    for o in &t.outputs {
        out.extend_from_slice(&o.amount.to_le_bytes());
        out.extend_from_slice(&o.scriptpubkeysize.to_bytes());
        out.extend_from_slice(&o.scriptpubkey);
    }
    out.extend_from_slice(&t.locktime.to_le_bytes());
    assert_eq!(out, bytes);
}

#[test]
fn segwit_one_stack_per_input() {
    for text in [SEGWIT_ONE_OUTPUT, SEGWIT_TWO_OUTPUTS] {
        let t = Transaction::parse_hex(text).unwrap();
        assert_eq!(t.marker, Some(0x00));
        assert_eq!(t.flag, Some(0x01));
        let w = t.witness.as_ref().unwrap();
        assert_eq!(w.len(), t.inputs.len());
        assert_eq!(w.len(), 1);
        assert_eq!(w[0].stackitems.value, 2);
        assert_eq!(w[0].items.len(), 2);
        assert_eq!(w[0].items[0].index, 0);
        assert_eq!(w[0].items[1].index, 1);
        assert_eq!(w[0].items[1].item.len(), 33);
        assert_eq!(t.locktime, 0);
    }
}

#[test]
fn segwit_sample_fields() {
    let t = Transaction::parse_hex(SEGWIT_TWO_OUTPUTS).unwrap();
    assert_eq!(t.version, 1);
    assert_eq!(t.outputs.len(), 2);
    assert_eq!(t.outputs[0].amount, 0x0000000000140118);
    assert_eq!(t.outputs[0].scriptpubkey.len(), 23);
    assert_eq!(t.outputs[1].scriptpubkey.len(), 22);
    assert_eq!(t.inputs[0].vout, 1);
    assert_eq!(t.inputs[0].txid[0], 0x04);
    assert_eq!(t.inputs[0].txid[31], 0xd7);
    assert_eq!(t.witness.as_ref().unwrap()[0].items[0].item.len(), 0x48);
}

#[test]
fn truncation_fails_short_everywhere() {
    let mut samples = vec![legacy_bytes()];
    samples.push(hex_bytes(SEGWIT_ONE_OUTPUT));
    samples.push(hex_bytes(SEGWIT_TWO_OUTPUTS));
    for bytes in samples {
        for k in 0..bytes.len() {
            let r = Transaction::parse(&bytes[..k]);
            assert!(
                r.as_ref().err() == Some(&DecodeError::InsufficientData)
                    || r.as_ref().err() == Some(&DecodeError::TruncatedVarInt),
                "cut at {k}"
            );
        }
    }
}

#[test]
fn trailing_byte_fails() {
    let mut samples = vec![legacy_bytes()];
    samples.push(hex_bytes(SEGWIT_ONE_OUTPUT));
    for mut bytes in samples {
        bytes.push(0x00);
        assert_eq!(Transaction::parse(&bytes).err(), Some(DecodeError::TrailingData));
    }
}

#[test]
fn zero_flag_is_not_witness() {
    let bytes = vec![0x02, 0x00, 0x00, 0x00, 0x00, 0x00, 0x00, 0x00, 0x00, 0x00];
    let t = Transaction::parse(&bytes).unwrap();
    assert_eq!(t.version, 2);
    assert_eq!(t.marker, None);
    assert_eq!(t.flag, None);
    assert!(t.witness.is_none());
    assert!(t.inputs.is_empty());
    assert!(t.outputs.is_empty());
    assert_eq!(t.locktime, 0);
}

#[test]
fn negative_version() {
    let mut bytes = legacy_bytes();
    bytes[0] = 0xfe;
    bytes[1] = 0xff;
    bytes[2] = 0xff;
    bytes[3] = 0xff;
    assert_eq!(Transaction::parse(&bytes).unwrap().version, -2);
}

#[test]
fn invalid_hex_text() {
    assert_eq!(Transaction::parse_hex("zz").err(), Some(DecodeError::InvalidEncoding));
    assert_eq!(Transaction::parse_hex("abc").err(), Some(DecodeError::InvalidEncoding));
    assert_eq!(Transaction::parse_hex("010203").err(), Some(DecodeError::InvalidEncoding));
    assert_eq!(Transaction::parse_hex("").err(), Some(DecodeError::InvalidEncoding));
}

#[test]
fn short_buffer_is_insufficient() {
    assert_eq!(Transaction::parse(&[0x01, 0x00]).err(), Some(DecodeError::InsufficientData));
    assert_eq!(
        Transaction::parse(&[0x01, 0x00, 0x00, 0x00, 0xfd, 0x01]).err(),
        Some(DecodeError::TruncatedVarInt)
    );
}

#[test]
fn hex_text_is_cleaned() {
    assert_eq!(decode_hex_text("  0a FF 10\n").unwrap(), vec![0x0a, 0xff, 0x10]);
    assert_eq!(decode_hex_text("0A0b").unwrap(), vec![0x0a, 0x0b]);
    assert_eq!(decode_hex_text("0a\t0b").err(), Some(DecodeError::InvalidEncoding));
}

#[test]
fn raw_components_show_wire_hex() {
    let decoder = BitcoinTransactionDecoder::new();
    let c = decoder.parse_raw_components(SEGWIT_TWO_OUTPUTS).unwrap();
    assert_eq!(c.version, "01000000");
    assert_eq!(c.marker.as_deref(), Some("00"));
    assert_eq!(c.flag.as_deref(), Some("01"));
    assert_eq!(c.input_count, "01");
    assert_eq!(
        c.inputs[0].txid,
        "047161722f4752cde25d20da79e26d3cf817775928939525e1321eeb3a10fcd7"
    );
    assert_eq!(c.inputs[0].vout, "01000000");
    assert_eq!(c.inputs[0].scriptsig_size, "00");
    assert_eq!(c.inputs[0].scriptsig, "");
    assert_eq!(c.inputs[0].sequence, "ffffffff");
    assert_eq!(c.output_count, "02");
    assert_eq!(c.outputs[0].amount, "1801140000000000");
    assert_eq!(c.outputs[0].scriptpubkey_size, "17");
    assert_eq!(c.outputs[0].scriptpubkey, "a914aeb0efc1da63629651dc3322c092c6607937c87c87");
    assert_eq!(c.witness.len(), 1);
    assert_eq!(c.witness[0].stack_items, "02");
    assert_eq!(c.witness[0].items[1].size, "21");
    assert_eq!(
        c.witness[0].items[1].item,
        "021b7f2cb05643404c57d0587b48c8d882a454f1040c47cbd31c73d29b599d0401"
    );
    assert_eq!(c.lock_time, "00000000");
}

#[test]
fn raw_components_legacy_has_no_witness() {
    let decoder = BitcoinTransactionDecoder::new();
    let text: String = legacy_bytes().iter().map(|b| format!("{:02x}", b)).collect();
    let c = decoder.parse_raw_components(&text).unwrap();
    assert!(c.marker.is_none());
    assert!(c.witness.is_empty());
    let mut joined = String::new();
    joined.push_str(&c.version);
    joined.push_str(&c.input_count);
    let id: Vec<u8> = decode_hex_text(&c.inputs[0].txid).unwrap().into_iter().rev().collect();
    let id_text: String = id.iter().map(|b| format!("{:02x}", b)).collect();
    joined.push_str(&id_text);
    joined.push_str(&c.inputs[0].vout);
    joined.push_str(&c.inputs[0].scriptsig_size);
    joined.push_str(&c.inputs[0].scriptsig);
    joined.push_str(&c.inputs[0].sequence);
    joined.push_str(&c.output_count);
    joined.push_str(&c.outputs[0].amount);
    joined.push_str(&c.outputs[0].scriptpubkey_size);
    joined.push_str(&c.outputs[0].scriptpubkey);
    joined.push_str(&c.lock_time);
    assert_eq!(joined, text);
}
