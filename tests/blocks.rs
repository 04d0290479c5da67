use txsplit::block_fields::{
    BlockBreaker, BlockField, BlockProcessor, HeaderFields, ProcessingConfig, DEFAULT_VERSION,
};

fn genesis_header() -> HeaderFields {
    let mut merkle = [0u8; 32];
    for (k, b) in merkle.iter_mut().enumerate() {
        *b = k as u8 + 1;
    }
    HeaderFields {
        version: 1,
        prev_blockhash: [0x11; 32],
        merkle_root: merkle,
        time: 1231006505,
        bits: 0x1d00ffff,
        nonce: 2083236893,
    }
}

fn config(fields: Vec<BlockField>, offset: Option<i64>, randomize: bool) -> ProcessingConfig {
    ProcessingConfig {
        fields_to_modify: fields,
        version_override: Some(2),
        timestamp_offset: offset,
        randomize_hashes: randomize,
    }
}

#[test]
fn default_config_selects_all() {
    let c = ProcessingConfig::default();
    assert_eq!(c.fields_to_modify, vec![BlockField::All]);
    assert!(c.randomize_hashes);
    let p = BlockProcessor::with_default_config();
    assert!(p.should_process_field(&BlockField::Nonce));
    assert!(p.should_process_field(&BlockField::MerkleRoot));
}

#[test]
fn selected_fields_only() {
    let p = BlockProcessor::new(config(vec![BlockField::Version, BlockField::Nonce], None, false));
    assert!(p.should_process_field(&BlockField::Version));
    assert!(p.should_process_field(&BlockField::Nonce));
    assert!(!p.should_process_field(&BlockField::Bits));
    assert!(!p.should_process_field(&BlockField::Timestamp));
}

#[test]
fn field_rules() {
    let p = BlockProcessor::new(config(vec![BlockField::All], Some(-86400), false));
    assert_eq!(p.process_version(1), 2);
    assert_eq!(p.process_bits(0x1d00ffff), 0x1dff0000);
    assert_eq!(p.process_nonce(0), u32::MAX);
    assert_eq!(p.process_nonce(2083236893), !2083236893u32);
    assert_eq!(p.process_timestamp(1231006505, 0), 1230920105);
    assert_eq!(p.process_timestamp(100, 0), 0);
    let d = BlockProcessor::with_default_config();
    assert_eq!(d.process_version(7), DEFAULT_VERSION);
    assert_eq!(d.process_timestamp(5, 1_700_000_000), 1_731_536_000);
    assert_eq!(d.process_timestamp(5, u32::MAX - 10), u32::MAX);
}

#[test]
fn header_with_zero_hashes() {
    let h = genesis_header();
    let p = BlockProcessor::new(config(
        vec![BlockField::PrevBlockHash, BlockField::Bits],
        None,
        false,
    ));
    let r = p.process_block_header(&h, 0);
    assert_eq!(r.prev_blockhash, [0u8; 32]);
    assert_eq!(r.merkle_root, h.merkle_root);
    assert_eq!(r.bits, 0x1dff0000);
    assert_eq!(r.version, 1);
    assert_eq!(r.time, h.time);
    assert_eq!(r.nonce, h.nonce);
}

#[test]
fn header_with_given_hashes() {
    let h = genesis_header();
    let p = BlockProcessor::new(config(vec![BlockField::All], Some(60), true));
    let r = p.process_header_with(&h, 0, [0xaa; 32], [0xbb; 32]);
    assert_eq!(r.prev_blockhash, [0xaa; 32]);
    assert_eq!(r.merkle_root, [0xbb; 32]);
    assert_eq!(r.version, 2);
    assert_eq!(r.time, 1231006565);
}

#[test]
fn breaker_shortcuts() {
    let h = genesis_header();
    let all = BlockBreaker::break_all_fields(&h, 1_000);
    assert_eq!(all.version, DEFAULT_VERSION);
    assert_eq!(all.time, 31_537_000);
    assert_eq!(all.nonce, !h.nonce);
    let some = BlockBreaker::break_specific_fields(&h, vec![BlockField::Version, BlockField::Nonce], 0);
    assert_eq!(some.version, DEFAULT_VERSION);
    assert_eq!(some.nonce, !h.nonce);
    assert_eq!(some.bits, h.bits);
    assert_eq!(some.prev_blockhash, h.prev_blockhash);
    let custom = BlockBreaker::break_with_config(
        &h,
        config(vec![BlockField::Timestamp, BlockField::Bits], Some(-86400), false),
        0,
    );
    assert_eq!(custom.time, 1230920105);
    assert_eq!(custom.version, 1);
    let hdr = BlockBreaker::break_header_fields(&h, vec![BlockField::Nonce], 0);
    assert_eq!(hdr.nonce, !h.nonce);
    assert_eq!(hdr.merkle_root, h.merkle_root);
}
