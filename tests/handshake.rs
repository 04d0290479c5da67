use txsplit::handshake::{build_version_payload, is_verack, sha256d, version_message, MAGIC};

#[test]
fn payload_layout() {
    let p = build_version_payload(0x0102030405060708);
    assert_eq!(p.len(), 88);
    assert_eq!(&p[0..4], &70015u32.to_le_bytes());
    assert_eq!(&p[4..12], &1u64.to_le_bytes());
    assert_eq!(&p[12..20], &0x0102030405060708i64.to_le_bytes());
    assert_eq!(&p[40..46], &[0xff, 0xff, 34, 90, 43, 75]);
    assert_eq!(&p[46..48], &8333u16.to_be_bytes());
    assert_eq!(&p[74..82], &123456789u64.to_le_bytes());
    assert_eq!(p[82], 0);
    assert_eq!(*p.last().unwrap(), 1);
}

#[test]
fn double_sha256_of_empty() {
    let d = sha256d(&[]);
    let expected = [
        0x5d, 0xf6, 0xe0, 0xe2, 0x76, 0x13, 0x59, 0xd3, 0x0a, 0x82, 0x75, 0x05, 0x8e, 0x29, 0x9f,
        0xcc, 0x03, 0x81, 0x53, 0x45, 0x45, 0xf5, 0x5c, 0xf4, 0x3e, 0x41, 0x98, 0x3f, 0x5d, 0x4c,
        0x94, 0x56,
    ];
    assert_eq!(d, expected);
}

#[test]
fn framed_message() {
    let m = version_message(1_700_000_000);
    let p = build_version_payload(1_700_000_000);
    assert_eq!(&m[0..4], &MAGIC);
    assert_eq!(&m[4..16], b"version\0\0\0\0\0");
    assert_eq!(&m[16..20], &(p.len() as u32).to_le_bytes());
    assert_eq!(&m[20..24], &sha256d(&p)[0..4]);
    assert_eq!(&m[24..], &p[..]);
}

#[test]
fn verack_detection() {
    let mut buf = vec![0x00, 0x01];
    buf.extend_from_slice(&MAGIC);
    buf.extend_from_slice(b"verack\0\0\0\0\0\0");
    assert!(is_verack(&buf));
    let mut other = MAGIC.to_vec();
    other.extend_from_slice(b"version\0\0\0\0\0");
    other.extend_from_slice(&MAGIC);
    other.extend_from_slice(b"verack");
    assert!(!is_verack(&other));
    assert!(!is_verack(&MAGIC));
    assert!(!is_verack(b"verack"));
}
