use sha2::Digest;
use vstd::bytes::*;
use vstd::prelude::*;
use vstd::slice::slice_index_get;

verus! {

/// Network magic of the main network.
pub const MAGIC: [u8; 4] = [0xF9, 0xBE, 0xB4, 0xD9];

/// Protocol version announced in the version message.
pub const PROTOCOL_VERSION: u32 = 70015;

/// Nonce announced in the version message.
pub const NONCE: u64 = 123456789;

pub open spec fn repeat_byte(b: u8, n: nat) -> Seq<u8> {
    Seq::new(n, |i: int| b)
}

/// The payload of a version message sent at `timestamp` (seconds since the
/// epoch): protocol version, services, timestamp, receiver and sender
/// addresses, nonce, empty user agent, start height and relay flag.
pub open spec fn version_payload(timestamp: i64) -> Seq<u8> {
    spec_u32_to_le_bytes(PROTOCOL_VERSION) + spec_u64_to_le_bytes(1) + spec_u64_to_le_bytes(
        timestamp as u64,
    ) + spec_u64_to_le_bytes(1) + repeat_byte(0, 12) + seq![0xffu8, 0xff, 34, 90, 43, 75, 0x20, 0x8d]
        + spec_u64_to_le_bytes(0) + repeat_byte(0, 18) + spec_u64_to_le_bytes(NONCE) + seq![0u8]
        + spec_u32_to_le_bytes(0) + seq![1u8]
}

fn push_all(v: &mut Vec<u8>, mut s: Vec<u8>)
    ensures
        final(v)@ == old(v)@ + s@,
{
    v.append(&mut s);
}

fn push_zeros(v: &mut Vec<u8>, n: usize)
    ensures
        final(v)@ == old(v)@ + repeat_byte(0, n as nat),
{
    let ghost start = v@;
    let mut k: usize = 0;
    while k < n
        invariant
            k <= n,
            v@ == start + repeat_byte(0, k as nat),
        decreases n - k,
    {
        v.push(0);
        k = k + 1;
        assert(v@ =~= start + repeat_byte(0, k as nat));
    }
}

/// Builds the version message payload for the given send time.
pub fn build_version_payload(timestamp: i64) -> (r: Vec<u8>)
    ensures
        r@ == version_payload(timestamp),
{
    let mut p: Vec<u8> = Vec::new();
    push_all(&mut p, u32_to_le_bytes(PROTOCOL_VERSION));
    push_all(&mut p, u64_to_le_bytes(1));
    push_all(&mut p, u64_to_le_bytes(timestamp as u64));
    push_all(&mut p, u64_to_le_bytes(1));
    push_zeros(&mut p, 12);
    push_all(&mut p, vec![0xff, 0xff, 34, 90, 43, 75, 0x20, 0x8d]);
    push_all(&mut p, u64_to_le_bytes(0));
    push_zeros(&mut p, 18);
    push_all(&mut p, u64_to_le_bytes(NONCE));
    p.push(0);
    push_all(&mut p, u32_to_le_bytes(0));
    p.push(1);
    assert(p@ =~= version_payload(timestamp));
    p
}

/// The SHA-256 digest of a byte string.
pub uninterp spec fn sha256_of(data: Seq<u8>) -> Seq<u8>;

/// Relies on sha2::Sha256::digest: the SHA-256 digest of the bytes.
#[verifier::external_body]
fn sha256(data: &[u8]) -> (r: [u8; 32])
    ensures
        r@ == sha256_of(data@),
{
    sha2::Sha256::digest(data).into()
}

/// SHA-256 applied twice.
pub fn sha256d(data: &[u8]) -> (r: [u8; 32])
    ensures
        r@ == sha256_of(sha256_of(data@)),
{
    let first = sha256(data);
    sha256(first.as_slice())
}

/// The command field of a version message: the name padded with zeros to
/// twelve bytes.
pub open spec fn version_command() -> Seq<u8> {
    seq![0x76u8, 0x65, 0x72, 0x73, 0x69, 0x6f, 0x6e] + repeat_byte(0, 5)
}

/// A framed message: magic, command, payload length, the first four bytes of
/// `digest` as checksum, then the payload.
pub open spec fn framed(payload: Seq<u8>, digest: Seq<u8>) -> Seq<u8> {
    MAGIC@ + version_command() + spec_u32_to_le_bytes(payload.len() as u32) + digest.subrange(0, 4)
        + payload
}

/// Frames a version payload given the double SHA-256 digest of it.
pub fn frame_version_message(payload: &Vec<u8>, digest: &[u8; 32]) -> (r: Vec<u8>)
    requires
        payload@.len() <= u32::MAX,
    ensures
        r@ == framed(payload@, digest@),
{
    let mut m: Vec<u8> = Vec::new();
    let magic = MAGIC;
    let mut k: usize = 0;
    while k < 4
        invariant
            k <= 4,
            magic@ == MAGIC@,
            m@ == MAGIC@.subrange(0, k as int),
        decreases 4 - k,
    {
        m.push(magic[k]);
        k = k + 1;
        assert(m@ =~= MAGIC@.subrange(0, k as int));
    }
    push_all(&mut m, vec![0x76, 0x65, 0x72, 0x73, 0x69, 0x6f, 0x6e]);
    push_zeros(&mut m, 5);
    push_all(&mut m, u32_to_le_bytes(payload.len() as u32));
    let mut k: usize = 0;
    let ghost before = m@;
    while k < 4
        invariant
            k <= 4,
            m@ == before + digest@.subrange(0, k as int),
        decreases 4 - k,
    {
        m.push(digest[k]);
        k = k + 1;
        assert(m@ =~= before + digest@.subrange(0, k as int));
    }
    let mut k: usize = 0;
    let ghost before = m@;
    while k < payload.len()
        invariant
            k <= payload@.len(),
            m@ == before + payload@.subrange(0, k as int),
        decreases payload@.len() - k,
    {
        m.push(payload[k]);
        k = k + 1;
        assert(m@ =~= before + payload@.subrange(0, k as int));
    }
    assert(payload@.subrange(0, payload@.len() as int) =~= payload@);
    assert(m@ =~= framed(payload@, digest@));
    m
}

/// The framed version message for a send time, checksum included.
pub fn version_message(timestamp: i64) -> (r: Vec<u8>)
    ensures
        ({
            let p = version_payload(timestamp);
            r@ == framed(p, sha256_of(sha256_of(p)))
        }),
{
    let payload = build_version_payload(timestamp);
    proof {
        lemma_auto_spec_u32_to_from_le_bytes();
        lemma_auto_spec_u64_to_from_le_bytes();
    }
    let digest = sha256d(payload.as_slice());
    frame_version_message(&payload, &digest)
}

/// Where the magic first occurs in `buf`.
pub open spec fn magic_at(buf: Seq<u8>, i: int) -> bool {
    0 <= i && i + 4 <= buf.len() && buf.subrange(i, i + 4) == MAGIC@
}

/// Whether the first message header in `buf` carries the `verack` command.
pub open spec fn is_verack_spec(buf: Seq<u8>) -> bool {
    exists|i: int|
        #![trigger magic_at(buf, i)]
        magic_at(buf, i) && (forall|j: int| 0 <= j < i ==> !magic_at(buf, j)) && i + 10 <= buf.len()
            && buf.subrange(i + 4, i + 10) == seq![0x76u8, 0x65, 0x72, 0x61, 0x63, 0x6b]
}

fn bytes_equal_at(buf: &[u8], at: usize, expected: &[u8]) -> (r: bool)
    requires
        at + expected@.len() <= buf@.len(),
    ensures
        r == (buf@.subrange(at as int, at + expected@.len()) == expected@),
{
    let n = buf.len();
    let mut k: usize = 0;
    while k < expected.len()
        invariant
            n == buf@.len(),
            k <= expected@.len(),
            at + expected@.len() <= buf@.len(),
            forall|j: int| 0 <= j < k ==> buf@[at + j] == expected@[j],
        decreases expected@.len() - k,
    {
        if *slice_index_get(buf, at + k) != *slice_index_get(expected, k) {
            assert(buf@.subrange(at as int, at + expected@.len())[k as int] != expected@[k as int]);
            return false;
        }
        k = k + 1;
    }
    assert(buf@.subrange(at as int, at + expected@.len()) =~= expected@);
    true
}

/// Whether a received buffer's first message header is a `verack`.
pub fn is_verack(buf: &[u8]) -> (r: bool)
    ensures
        r == is_verack_spec(buf@),
{
    let magic = MAGIC;
    let command = [0x76u8, 0x65, 0x72, 0x61, 0x63, 0x6b];
    assert(command@ =~= seq![0x76u8, 0x65, 0x72, 0x61, 0x63, 0x6b]);
    let n = buf.len();
    let mut i: usize = 0;
    while n >= 4 && i <= n - 4
        invariant
            n == buf@.len(),
            magic@ == MAGIC@,
            command@ == seq![0x76u8, 0x65, 0x72, 0x61, 0x63, 0x6b],
            forall|j: int| 0 <= j < i ==> !magic_at(buf@, j),
        decreases n - i,
    {
        if bytes_equal_at(buf, i, magic.as_slice()) {
            assert(magic_at(buf@, i as int));
            if n - i >= 10 {
                return bytes_equal_at(buf, i + 4, command.as_slice());
            }
            return false;
        }
        i = i + 1;
    }
    assert forall|j: int| !#[trigger] magic_at(buf@, j) by {
        if 0 <= j && j >= i {
            assert(j + 4 > buf@.len());
        }
    }
    false
}

} // verus!
