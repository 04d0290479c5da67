use vstd::prelude::*;
use vstd::slice::slice_index_get;
use vstd::string::StringSliceAdditionalSpecFns;

use crate::error::DecodeError;
use crate::types::Transaction;
use crate::wire::parse_transaction;

verus! {

#[verifier::external_type_specification]
#[verifier::external_body]
pub struct ExFromHexError(hex::FromHexError);

/// The value of one hexadecimal digit, in either case.
pub open spec fn hex_value(c: u8) -> Option<u8> {
    if 0x30 <= c <= 0x39 {
        Some((c - 0x30) as u8)
    } else if 0x61 <= c <= 0x66 {
        Some((c - 0x61 + 10) as u8)
    } else if 0x41 <= c <= 0x46 {
        Some((c - 0x41 + 10) as u8)
    } else {
        None
    }
}

/// The bytes spelled by hexadecimal text, two digits per byte with the high
/// digit first; `None` for an odd length or any byte that is not a digit.
pub open spec fn hex_decoded(s: Seq<u8>) -> Option<Seq<u8>>
    decreases s.len(),
{
    if s.len() % 2 != 0 {
        None
    } else if s.len() == 0 {
        Some(Seq::empty())
    } else {
        match (hex_value(s[0]), hex_value(s[1]), hex_decoded(s.subrange(2, s.len() as int))) {
            (Some(h), Some(l), Some(rest)) => Some(seq![(h * 16 + l) as u8] + rest),
            _ => None,
        }
    }
}

/// The lowercase digit for a value below sixteen.
pub open spec fn hex_digit(n: int) -> char {
    if n < 10 {
        ((n + 0x30) as u8) as char
    } else {
        ((n - 10 + 0x61) as u8) as char
    }
}

/// Lowercase hexadecimal text of a byte string, high digit first.
pub open spec fn hex_of(b: Seq<u8>) -> Seq<char> {
    Seq::new(
        2 * b.len(),
        |i: int|
            if i % 2 == 0 {
                hex_digit(b[i / 2] as int / 16)
            } else {
                hex_digit(b[i / 2] as int % 16)
            },
    )
}

/// Relies on hex::decode: each pair of digits of either case, high digit
/// first, gives one byte; an odd length or a byte that is no digit fails.
#[verifier::external_body]
fn hex_decode(text: &[u8]) -> (r: Result<Vec<u8>, hex::FromHexError>)
    ensures
        match hex_decoded(text@) {
            Some(b) => r is Ok && r->Ok_0@ == b,
            None => r is Err,
        },
{
    hex::decode(text)
}

/// Relies on hex::encode: two lowercase digits per byte, high digit first.
#[verifier::external_body]
pub(crate) fn hex_encode(b: &[u8]) -> (r: String)
    ensures
        r@ == hex_of(b@),
{
    hex::encode(b)
}

pub open spec fn is_space(b: u8) -> bool {
    b == 0x20 || b == 0x09 || b == 0x0a || b == 0x0c || b == 0x0d
}

pub open spec fn trim_start(s: Seq<u8>) -> Seq<u8>
    decreases s.len(),
{
    if s.len() > 0 && is_space(s[0]) {
        trim_start(s.drop_first())
    } else {
        s
    }
}

pub open spec fn trim_end(s: Seq<u8>) -> Seq<u8>
    decreases s.len(),
{
    if s.len() > 0 && is_space(s.last()) {
        trim_end(s.drop_last())
    } else {
        s
    }
}

pub open spec fn without_spaces(s: Seq<u8>) -> Seq<u8>
    decreases s.len(),
{
    if s.len() == 0 {
        s
    } else if s.last() == 0x20 {
        without_spaces(s.drop_last())
    } else {
        without_spaces(s.drop_last()).push(s.last())
    }
}

/// Text as accepted for decoding: surrounding whitespace trimmed and inner
/// spaces removed.
pub open spec fn cleaned(s: Seq<u8>) -> Seq<u8> {
    without_spaces(trim_end(trim_start(s)))
}

/// Trims surrounding whitespace and removes inner spaces.
pub fn clean_hex_text(s: &[u8]) -> (r: Vec<u8>)
    ensures
        r@ == cleaned(s@),
{
    let n = s.len();
    let mut i: usize = 0;
    assert(s@.subrange(0, n as int) =~= s@);
    while i < n && (*slice_index_get(s, i) == 0x20 || *slice_index_get(s, i) == 0x09
        || *slice_index_get(s, i) == 0x0a || *slice_index_get(s, i) == 0x0c
        || *slice_index_get(s, i) == 0x0d)
        invariant
            n == s@.len(),
            i <= n,
            trim_start(s@) == trim_start(s@.subrange(i as int, n as int)),
        decreases n - i,
    {
        assert(s@.subrange(i as int, n as int).drop_first() =~= s@.subrange(i + 1, n as int));
        i = i + 1;
    }
    assert(trim_start(s@) == s@.subrange(i as int, n as int));
    let mut j: usize = n;
    while j > i && (*slice_index_get(s, j - 1) == 0x20 || *slice_index_get(s, j - 1) == 0x09
        || *slice_index_get(s, j - 1) == 0x0a || *slice_index_get(s, j - 1) == 0x0c
        || *slice_index_get(s, j - 1) == 0x0d)
        invariant
            n == s@.len(),
            i <= j <= n,
            trim_end(trim_start(s@)) == trim_end(s@.subrange(i as int, j as int)),
        decreases j,
    {
        assert(s@.subrange(i as int, j as int).drop_last() =~= s@.subrange(i as int, j - 1));
        j = j - 1;
    }
    let ghost t = s@.subrange(i as int, j as int);
    assert(trim_end(trim_start(s@)) == t);
    let mut r: Vec<u8> = Vec::new();
    let mut k: usize = i;
    assert(t.subrange(0, 0) =~= Seq::<u8>::empty());
    while k < j
        invariant
            n == s@.len(),
            i <= k <= j <= n,
            t == s@.subrange(i as int, j as int),
            r@ == without_spaces(t.subrange(0, k - i)),
        decreases j - k,
    {
        let b = *slice_index_get(s, k);
        assert(t.subrange(0, k + 1 - i).drop_last() =~= t.subrange(0, k - i));
        if b != 0x20 {
            r.push(b);
        }
        k = k + 1;
    }
    assert(t.subrange(0, j - i) =~= t);
    r
}

/// The bytes spelled by hexadecimal text; `InvalidEncoding` where it is not
/// hexadecimal.
pub fn decode_hex_text(text: &str) -> (r: Result<Vec<u8>, DecodeError>)
    ensures
        match hex_decoded(cleaned(text.spec_bytes())) {
            Some(b) => r is Ok && r->Ok_0@ == b,
            None => r == Err::<Vec<u8>, DecodeError>(DecodeError::InvalidEncoding),
        },
{
    let clean = clean_hex_text(text.as_bytes());
    match hex_decode(clean.as_slice()) {
        Ok(b) => Ok(b),
        Err(_) => Err(DecodeError::InvalidEncoding),
    }
}

/// What decoding a transaction from hexadecimal text gives.
pub open spec fn parse_hex_transaction(text: Seq<u8>) -> Result<crate::wire::TransactionModel, DecodeError> {
    match hex_decoded(cleaned(text)) {
        None => Err(DecodeError::InvalidEncoding),
        Some(b) => if b.len() < 4 {
            Err(DecodeError::InvalidEncoding)
        } else {
            parse_transaction(b)
        },
    }
}

impl Transaction {
    /// Decodes a transaction from hexadecimal text. Text that is not
    /// hexadecimal, or spells fewer than four bytes, is `InvalidEncoding`.
    pub fn parse_hex(text: &str) -> (r: Result<Transaction, DecodeError>)
        ensures
            match parse_hex_transaction(text.spec_bytes()) {
                Ok(t) => r is Ok && r->Ok_0@ == t,
                Err(e) => r == Err::<Transaction, DecodeError>(e),
            },
    {
        let bytes = decode_hex_text(text)?;
        if bytes.len() < 4 {
            return Err(DecodeError::InvalidEncoding);
        }
        Transaction::parse(bytes.as_slice())
    }
}

} // verus!
