use vstd::bytes::*;
use vstd::prelude::*;

use crate::cursor::{read_bytes, ByteCursor};
use crate::error::DecodeError;
use crate::repeat::{agree, steady};

verus! {

/// A decoded CompactSize: its value, and how many bytes its encoding took
/// (1, 3, 5 or 9), which a byte-exact re-encoding needs.
#[derive(Debug, Clone, Copy, PartialEq, Eq, Structural)]
pub struct CompactSize {
    pub value: u64,
    pub width: u8,
}

/// Number of continuation bytes announced by a first byte above 0xfc.
pub open spec fn continuation_len(first: u8) -> int {
    if first == 0xfd {
        2
    } else if first == 0xfe {
        4
    } else {
        8
    }
}

/// The little-endian value of 2, 4 or 8 continuation bytes.
pub open spec fn continuation_value(s: Seq<u8>) -> u64 {
    if s.len() == 2 {
        spec_u16_from_le_bytes(s) as u64
    } else if s.len() == 4 {
        spec_u32_from_le_bytes(s) as u64
    } else {
        spec_u64_from_le_bytes(s)
    }
}

/// Decoding one CompactSize at `pos`: the value and the offset after it.
pub open spec fn parse_compact_size(d: Seq<u8>, pos: int) -> Result<(CompactSize, int), DecodeError> {
    match read_bytes(d, pos, 1) {
        Err(e) => Err(e),
        Ok((first, p)) => {
            let b = first[0];
            if b <= 0xfc {
                Ok((CompactSize { value: b as u64, width: 1 }, p))
            } else {
                let k = continuation_len(b);
                match read_bytes(d, p, k) {
                    Err(_) => Err(DecodeError::TruncatedVarInt),
                    Ok((s, e)) => Ok((CompactSize { value: continuation_value(s), width: (k + 1) as u8 }, e)),
                }
            }
        }
    }
}

/// The bytes of a CompactSize at the width it was read with.
pub open spec fn encode_compact_size(c: CompactSize) -> Seq<u8> {
    if c.width == 1 {
        seq![c.value as u8]
    } else if c.width == 3 {
        seq![0xfdu8] + spec_u16_to_le_bytes(c.value as u16)
    } else if c.width == 5 {
        seq![0xfeu8] + spec_u32_to_le_bytes(c.value as u32)
    } else {
        seq![0xffu8] + spec_u64_to_le_bytes(c.value)
    }
}

/// Reads one CompactSize and moves the cursor past it.
pub fn read_compact_size(cur: &mut ByteCursor) -> (r: Result<CompactSize, DecodeError>)
    requires
        old(cur).wf(),
    ensures
        final(cur).wf(),
        final(cur).bytes() == old(cur).bytes(),
        match parse_compact_size(old(cur).bytes(), old(cur).position()) {
            Ok((c, e)) => r == Ok::<CompactSize, DecodeError>(c) && final(cur).position() == e,
            Err(e) => r == Err::<CompactSize, DecodeError>(e),
        },
{
    let first = cur.read_u8()?;
    if first <= 0xfc {
        return Ok(CompactSize { value: first as u64, width: 1 });
    }
    let k: usize = if first == 0xfd {
        2
    } else if first == 0xfe {
        4
    } else {
        8
    };
    let s = match cur.take(k) {
        Ok(s) => s,
        Err(_) => return Err(DecodeError::TruncatedVarInt),
    };
    let value: u64 = if k == 2 {
        u16_from_le_bytes(s) as u64
    } else if k == 4 {
        u32_from_le_bytes(s) as u64
    } else {
        u64_from_le_bytes(s)
    };
    Ok(CompactSize { value, width: (k + 1) as u8 })
}

/// Re-encoding a decoded CompactSize at its width gives back the bytes it was
/// read from.
pub proof fn lemma_compact_size_round_trip(d: Seq<u8>, pos: int)
    requires
        parse_compact_size(d, pos) is Ok,
    ensures
        ({
            let (c, e) = parse_compact_size(d, pos)->Ok_0;
            &&& pos < e <= d.len()
            &&& encode_compact_size(c) == d.subrange(pos, e)
        }),
{
    lemma_auto_spec_u16_to_from_le_bytes();
    lemma_auto_spec_u32_to_from_le_bytes();
    lemma_auto_spec_u64_to_from_le_bytes();
    let (c, e) = parse_compact_size(d, pos)->Ok_0;
    let b = d[pos];
    if b <= 0xfc {
        assert(encode_compact_size(c) =~= d.subrange(pos, e));
    } else {
        let s = d.subrange(pos + 1, e);
        assert(d.subrange(pos, e) =~= seq![b] + s);
        if b == 0xfd {
            assert(spec_u16_to_le_bytes(spec_u16_from_le_bytes(s)) == s);
        } else if b == 0xfe {
            assert(spec_u32_to_le_bytes(spec_u32_from_le_bytes(s)) == s);
        } else {
            assert(spec_u64_to_le_bytes(spec_u64_from_le_bytes(s)) == s);
        }
    }
}

/// A CompactSize decoded from a buffer decodes the same from any buffer that
/// agrees with it and holds its bytes, and fails as a short buffer otherwise.
pub proof fn lemma_compact_size_steady(d: Seq<u8>, d2: Seq<u8>, pos: int)
    requires
        agree(d, d2),
    ensures
        steady(parse_compact_size(d, pos), parse_compact_size(d2, pos), pos, d2),
{
    if let Ok((c, e)) = parse_compact_size(d, pos) {
        if pos < d2.len() {
            assert(d2[pos] == d[pos]);
            assert(d2.subrange(pos, pos + 1) =~= d.subrange(pos, pos + 1));
            if e <= d2.len() {
                assert(d2.subrange(pos + 1, e) =~= d.subrange(pos + 1, e));
            }
        }
    }
}

impl CompactSize {
    /// The bytes of this CompactSize at the width it was read with.
    pub fn to_bytes(&self) -> (r: Vec<u8>)
        ensures
            r@ == encode_compact_size(*self),
    {
        let mut r: Vec<u8> = Vec::new();
        if self.width == 1 {
            r.push(self.value as u8);
            assert(r@ =~= encode_compact_size(*self));
            return r;
        }
        let mut rest = if self.width == 3 {
            r.push(0xfd);
            u16_to_le_bytes(self.value as u16)
        } else if self.width == 5 {
            r.push(0xfe);
            u32_to_le_bytes(self.value as u32)
        } else {
            r.push(0xff);
            u64_to_le_bytes(self.value)
        };
        r.append(&mut rest);
        r
    }
}

} // verus!
