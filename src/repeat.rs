use vstd::prelude::*;

use crate::error::{is_short, DecodeError};

verus! {

/// Decodes the item with the given index at an offset: the item and the
/// offset after it.
pub type ItemParser<T> = spec_fn(Seq<u8>, int, nat) -> Result<(T, int), DecodeError>;

/// Decoding `n` items one after another from `pos`.
pub open spec fn parse_many<T>(f: ItemParser<T>, d: Seq<u8>, pos: int, n: nat) -> Result<(Seq<T>, int), DecodeError>
    decreases n,
{
    if n == 0 {
        Ok((Seq::empty(), pos))
    } else {
        match parse_many(f, d, pos, (n - 1) as nat) {
            Err(e) => Err(e),
            Ok((s, p)) => match f(d, p, (n - 1) as nat) {
                Err(e) => Err(e),
                Ok((x, e)) => Ok((s.push(x), e)),
            },
        }
    }
}

/// The concatenated encodings of a sequence of items.
pub open spec fn encode_many<T>(enc: spec_fn(T) -> Seq<u8>, s: Seq<T>) -> Seq<u8>
    decreases s.len(),
{
    if s.len() == 0 {
        Seq::empty()
    } else {
        encode_many(enc, s.drop_last()) + enc(s.last())
    }
}

/// Two buffers agree on every offset that both hold: one is a prefix of the other.
pub open spec fn agree(d: Seq<u8>, d2: Seq<u8>) -> bool {
    forall|i: int| 0 <= i < d.len() && i < d2.len() ==> d[i] == d2[i]
}

/// What a successful decode in `d` says of the same decode in a buffer `d2`
/// that agrees with it: it gives the same result where `d2` holds every byte
/// read, and fails as a short buffer does otherwise.
pub open spec fn steady<T>(r: Result<(T, int), DecodeError>, r2: Result<(T, int), DecodeError>, pos: int, d2: Seq<u8>) -> bool {
    r is Ok ==> {
        let e = r->Ok_0.1;
        &&& pos <= e
        &&& e <= d2.len() ==> r2 == r
        &&& e > d2.len() ==> (r2 is Err && is_short(r2->Err_0))
    }
}

/// A successful decode consumes bytes that exist, encoded as `enc` says.
pub open spec fn faithful<T>(r: Result<(T, int), DecodeError>, enc: spec_fn(T) -> Seq<u8>, pos: int, d: Seq<u8>) -> bool {
    r is Ok ==> {
        let (v, e) = r->Ok_0;
        &&& 0 <= pos <= e <= d.len()
        &&& enc(v) == d.subrange(pos, e)
    }
}

pub proof fn lemma_many_len<T>(f: ItemParser<T>, d: Seq<u8>, pos: int, n: nat)
    requires
        parse_many(f, d, pos, n) is Ok,
    ensures
        parse_many(f, d, pos, n)->Ok_0.0.len() == n,
    decreases n,
{
    if n > 0 {
        lemma_many_len(f, d, pos, (n - 1) as nat);
    }
}

pub proof fn lemma_many_steady<T>(f: ItemParser<T>, d: Seq<u8>, d2: Seq<u8>, pos: int, n: nat)
    requires
        forall|p: int, i: nat| steady(#[trigger] f(d, p, i), f(d2, p, i), p, d2),
    ensures
        parse_many(f, d, pos, n) is Ok ==> pos <= parse_many(f, d, pos, n)->Ok_0.1,
        pos <= d2.len() ==> steady(parse_many(f, d, pos, n), parse_many(f, d2, pos, n), pos, d2),
    decreases n,
{
    if n > 0 {
        let m = (n - 1) as nat;
        lemma_many_steady(f, d, d2, pos, m);
        if let Ok((s, p)) = parse_many(f, d, pos, m) {
            assert(steady(f(d, p, m), f(d2, p, m), p, d2));
        }
    }
}

pub proof fn lemma_many_faithful<T>(f: ItemParser<T>, enc: spec_fn(T) -> Seq<u8>, d: Seq<u8>, pos: int, n: nat)
    requires
        0 <= pos <= d.len(),
        forall|p: int, i: nat| faithful(#[trigger] f(d, p, i), enc, p, d),
    ensures
        ({
            let r = parse_many(f, d, pos, n);
            r is Ok ==> {
                let (s, e) = r->Ok_0;
                &&& pos <= e <= d.len()
                &&& encode_many(enc, s) == d.subrange(pos, e)
            }
        }),
    decreases n,
{
    if n == 0 {
        assert(d.subrange(pos, pos) =~= Seq::<u8>::empty());
    } else {
        let m = (n - 1) as nat;
        lemma_many_faithful(f, enc, d, pos, m);
        if let Ok((s, p)) = parse_many(f, d, pos, m) {
            assert(faithful(f(d, p, m), enc, p, d));
            if let Ok((x, e)) = f(d, p, m) {
                let s2 = s.push(x);
                assert(s2.drop_last() =~= s);
                assert(d.subrange(pos, e) =~= d.subrange(pos, p) + d.subrange(p, e));
            }
        }
    }
}

/// Once a prefix of the items fails, decoding more of them fails the same way.
pub proof fn lemma_many_err<T>(f: ItemParser<T>, d: Seq<u8>, pos: int, m: nat, n: nat)
    requires
        m <= n,
        parse_many(f, d, pos, m) is Err,
    ensures
        parse_many(f, d, pos, n) == parse_many(f, d, pos, m),
    decreases n,
{
    if m < n {
        lemma_many_err(f, d, pos, m, (n - 1) as nat);
    }
}

} // verus!
