//! The setup parameter bundle: the seed, hint and filter blobs a client needs
//! before it can issue private queries, together with the self-describing
//! wire encoding the server sends it in (three length-prefixed fields, in a
//! fixed order, with nothing after them).

use vstd::prelude::*;
use crate::codec::{frame_message, spec_frame, u64_of_le, u64_from_le_at, lemma_le_round_trip};

verus! {

/// Length in bytes of the retrieval engine's seed.
pub const SEED_BYTE_LEN: usize = 32;

/// The immutable record the server builds once at startup and hands
/// identically to every client.
pub struct ClientSetupParams {
    /// The engine's random seed; always exactly `SEED_BYTE_LEN` bytes.
    pub seed: Vec<u8>,
    /// The engine's hint blob, opaque at this layer.
    pub hint: Vec<u8>,
    /// The engine's filter parameter blob, opaque at this layer.
    pub filter: Vec<u8>,
}

impl ClientSetupParams {
    /// The one shape constraint: the seed has its fixed length.
    pub open spec fn wf(self) -> bool {
        self.seed@.len() == SEED_BYTE_LEN
    }
}

/// The bundle's wire encoding: each field framed with its own length word,
/// seed first, then hint, then filter.
pub open spec fn spec_encode_params(seed: Seq<u8>, hint: Seq<u8>, filter: Seq<u8>) -> Seq<u8>
    recommends
        seed.len() <= u64::MAX,
        hint.len() <= u64::MAX,
        filter.len() <= u64::MAX,
{
    spec_frame(seed) + spec_frame(hint) + spec_frame(filter)
}

/// Splits one length-prefixed field off the front of `b`: the field's bytes
/// and the remainder, or nothing if `b` is too short for the header or for
/// the declared length.
pub open spec fn parse_field(b: Seq<u8>) -> Option<(Seq<u8>, Seq<u8>)> {
    if b.len() >= 8 {
        let n = u64_of_le(b.take(8)) as int;
        if b.len() - 8 >= n {
            Some((b.subrange(8, 8 + n), b.skip(8 + n)))
        } else {
            None
        }
    } else {
        None
    }
}

/// The decoding rule: three fields, a seed of exactly `SEED_BYTE_LEN` bytes,
/// a hint and a filter, with no byte left over; anything else is malformed.
pub open spec fn spec_decode_params(b: Seq<u8>) -> Option<(Seq<u8>, Seq<u8>, Seq<u8>)> {
    match parse_field(b) {
        Some((seed, r1)) => match parse_field(r1) {
            Some((hint, r2)) => match parse_field(r2) {
                Some((filter, r3)) => if seed.len() == SEED_BYTE_LEN && r3.len() == 0 {
                    Some((seed, hint, filter))
                } else {
                    None
                },
                None => None,
            },
            None => None,
        },
        None => None,
    }
}

/// Splitting a field off a framed payload followed by anything gives back
/// that payload and the rest.
pub proof fn lemma_parse_field_frame(p: Seq<u8>, rest: Seq<u8>)
    requires
        p.len() <= u64::MAX,
    ensures
        parse_field(spec_frame(p) + rest) == Some((p, rest)),
{
    let b = spec_frame(p) + rest;
    lemma_le_round_trip(p.len() as u64);
    assert(b.take(8) =~= crate::codec::le_bytes_of(p.len() as u64));
    assert(b.subrange(8, 8 + p.len() as int) =~= p);
    assert(b.skip(8 + p.len() as int) =~= rest);
}

/// Law: the bundle encoding round-trips exactly. Decoding what
/// `spec_encode_params` produced gives back the same seed, hint and filter.
pub proof fn lemma_params_round_trip(seed: Seq<u8>, hint: Seq<u8>, filter: Seq<u8>)
    requires
        seed.len() == SEED_BYTE_LEN,
        hint.len() <= u64::MAX,
        filter.len() <= u64::MAX,
    ensures
        spec_decode_params(spec_encode_params(seed, hint, filter)) == Some(
            (seed, hint, filter),
        ),
{
    let b = spec_encode_params(seed, hint, filter);
    assert(b =~= spec_frame(seed) + (spec_frame(hint) + spec_frame(filter)));
    lemma_parse_field_frame(seed, spec_frame(hint) + spec_frame(filter));
    lemma_parse_field_frame(hint, spec_frame(filter));
    assert(spec_frame(filter) =~= spec_frame(filter) + Seq::<u8>::empty());
    lemma_parse_field_frame(filter, Seq::<u8>::empty());
}

/// Encodes the bundle for the wire.
pub fn encode_setup_params(p: &ClientSetupParams) -> (r: Vec<u8>)
    ensures
        r@ == spec_encode_params(p.seed@, p.hint@, p.filter@),
{
    let mut r = frame_message(p.seed.as_slice());
    let mut h = frame_message(p.hint.as_slice());
    let mut f = frame_message(p.filter.as_slice());
    r.append(&mut h);
    r.append(&mut f);
    r
}

/// Reads one length-prefixed field starting at `pos`; returns the field and
/// the position just past it.
fn read_field_at(b: &[u8], pos: usize) -> (r: Option<(Vec<u8>, usize)>)
    requires
        pos <= b@.len(),
    ensures
        r is Some <==> parse_field(b@.skip(pos as int)) is Some,
        r matches Some((field, newpos)) ==> pos <= newpos <= b@.len() && parse_field(
            b@.skip(pos as int),
        ) == Some((field@, b@.skip(newpos as int))),
{
    let ghost s = b@.skip(pos as int);
    if b.len() - pos < 8 {
        return None;
    }
    let declared = u64_from_le_at(b, pos);
    proof {
        assert(s.take(8) =~= b@.subrange(pos as int, pos as int + 8));
    }
    if declared > (b.len() - pos - 8) as u64 {
        return None;
    }
    let n = declared as usize;
    let blen: usize = b.len();
    let mut field: Vec<u8> = Vec::new();
    let mut i: usize = 0;
    while i < n
        invariant
            b@.len() == blen,
            pos + 8 + n <= b@.len(),
            i <= n,
            field@ =~= b@.subrange(pos as int + 8, pos as int + 8 + i as int),
        decreases n - i,
    {
        field.push(b[pos + 8 + i]);
        assert(field@ =~= b@.subrange(pos as int + 8, pos as int + 8 + i as int + 1));
        i = i + 1;
    }
    let newpos = pos + 8 + n;
    proof {
        assert(s.subrange(8, 8 + n as int) =~= b@.subrange(pos as int + 8, pos as int + 8
            + n as int));
        assert(s.skip(8 + n as int) =~= b@.skip(newpos as int));
    }
    Some((field, newpos))
}

/// Decodes a received bundle; `None` exactly on the byte sequences that
/// `spec_decode_params` rejects.
pub fn decode_setup_params(b: &[u8]) -> (r: Option<ClientSetupParams>)
    ensures
        r is Some <==> spec_decode_params(b@) is Some,
        r matches Some(p) ==> spec_decode_params(b@) == Some((p.seed@, p.hint@, p.filter@))
            && p.wf(),
{
    proof {
        assert(b@.skip(0) =~= b@);
    }
    let (seed, p1) = match read_field_at(b, 0) {
        Some(x) => x,
        None => {
            return None;
        },
    };
    let (hint, p2) = match read_field_at(b, p1) {
        Some(x) => x,
        None => {
            return None;
        },
    };
    let (filter, p3) = match read_field_at(b, p2) {
        Some(x) => x,
        None => {
            return None;
        },
    };
    if seed.len() != SEED_BYTE_LEN || p3 != b.len() {
        return None;
    }
    assert(b@.skip(p3 as int) =~= Seq::<u8>::empty());
    Some(ClientSetupParams { seed, hint, filter })
}

} // verus!
