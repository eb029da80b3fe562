//! Shape and capacity checks for what the retrieval engine consumes. The
//! engine sizes its matrices with 32-bit arithmetic and indexes some of them
//! unchecked, so every blob that reaches it from the network is first held,
//! in verified code, to the shape the engine's own serializer produces, and
//! a key-value database is held to a conservative size box; anything else is
//! answered at the protocol level instead.

use vstd::prelude::*;
use crate::codec::u64_of_le;

verus! {

/// The engine's fixed LWE dimension: the row count of every hint matrix.
pub const LWE_DIMENSION: u32 = 1774;

/// Serialized length of the engine's filter parameter blob: a 32-byte hash
/// seed, then arity, segment length and segment count length as
/// little-endian 32-bit words, then fingerprint count, filter size and
/// element bit length as little-endian 64-bit words.
pub const FILTER_BLOB_LEN: usize = 68;

/// The value encoded by four little-endian bytes.
pub open spec fn u32_of_le(s: Seq<u8>) -> u32
    recommends
        s.len() == 4,
{
    (s[0] as u32) | ((s[1] as u32) << 8) | ((s[2] as u32) << 16) | ((s[3] as u32) << 24)
}

/// Reads the four little-endian bytes starting at `pos`.
pub fn u32_from_le_at(b: &[u8], pos: usize) -> (r: u32)
    requires
        pos + 4 <= b@.len(),
    ensures
        r == u32_of_le(b@.subrange(pos as int, pos as int + 4)),
{
    let r = (b[pos] as u32) | ((b[pos + 1] as u32) << 8) | ((b[pos + 2] as u32) << 16)
        | ((b[pos + 3] as u32) << 24);
    assert(b@.subrange(pos as int, pos as int + 4) =~= Seq::new(4, |i: int| b@[pos + i]));
    r
}

/// The row count a serialized matrix declares.
pub open spec fn matrix_rows(b: Seq<u8>) -> u32
    recommends
        b.len() >= 8,
{
    u32_of_le(b.subrange(0, 4))
}

/// The column count a serialized matrix declares.
pub open spec fn matrix_cols(b: Seq<u8>) -> u32
    recommends
        b.len() >= 8,
{
    u32_of_le(b.subrange(4, 8))
}

/// The blob is a well-shaped serialized matrix: a row and a column count of
/// at least one each, their product within the engine's 32-bit element
/// arithmetic, and exactly four bytes per element after the header.
pub open spec fn valid_matrix_bytes(b: Seq<u8>) -> bool {
    &&& b.len() >= 8
    &&& matrix_rows(b) >= 1
    &&& matrix_cols(b) >= 1
    &&& (matrix_rows(b) as int) * (matrix_cols(b) as int) < 0x1_0000_0000
    &&& b.len() - 8 == 4 * (matrix_rows(b) as int) * (matrix_cols(b) as int)
}

/// A query blob must moreover be a row vector, as the engine's respond path
/// expects.
pub open spec fn valid_query_bytes(b: Seq<u8>) -> bool {
    valid_matrix_bytes(b) && matrix_rows(b) == 1
}

/// A hint blob must moreover have the engine's LWE dimension as its row
/// count.
pub open spec fn valid_hint_bytes(b: Seq<u8>) -> bool {
    valid_matrix_bytes(b) && matrix_rows(b) == LWE_DIMENSION
}

/// The arity field of a serialized filter blob.
pub open spec fn filter_arity(b: Seq<u8>) -> u32
    recommends
        b.len() == FILTER_BLOB_LEN,
{
    u32_of_le(b.subrange(32, 36))
}

/// The segment length field of a serialized filter blob.
pub open spec fn filter_segment_length(b: Seq<u8>) -> u32
    recommends
        b.len() == FILTER_BLOB_LEN,
{
    u32_of_le(b.subrange(36, 40))
}

/// The segment count length field of a serialized filter blob.
pub open spec fn filter_segment_count_length(b: Seq<u8>) -> u32
    recommends
        b.len() == FILTER_BLOB_LEN,
{
    u32_of_le(b.subrange(40, 44))
}

/// The fingerprint count field of a serialized filter blob.
pub open spec fn filter_num_fingerprints(b: Seq<u8>) -> u64
    recommends
        b.len() == FILTER_BLOB_LEN,
{
    u64_of_le(b.subrange(44, 52))
}

/// The matrix element bit length field of a serialized filter blob.
pub open spec fn filter_mat_elem_bit_len(b: Seq<u8>) -> u64
    recommends
        b.len() == FILTER_BLOB_LEN,
{
    u64_of_le(b.subrange(60, 68))
}

/// The blob is a filter parameter record the engine's own construction could
/// have produced. These bounds are what keep the engine's query and decode
/// paths inside their buffers: an arity of three or four; an element bit
/// length within the engine's ciphertext range (in particular non-zero, so
/// the decode-side rounding divisor is non-zero); a power-of-two segment
/// length; a segment count length that is a positive multiple of it, so the
/// fingerprint indices the engine derives stay below the fingerprint count;
/// that count equal to segment count length plus (arity - 1) segment
/// lengths, as the construction fixes it; and a public-matrix element count
/// (LWE dimension times fingerprint count) within 32-bit arithmetic.
pub open spec fn valid_filter_blob(b: Seq<u8>) -> bool {
    &&& b.len() == FILTER_BLOB_LEN
    &&& (filter_arity(b) == 3 || filter_arity(b) == 4)
    &&& 4 <= filter_mat_elem_bit_len(b) <= 14
    &&& filter_segment_length(b) >= 1
    &&& (filter_segment_length(b) & ((filter_segment_length(b) - 1) as u32)) == 0
    &&& filter_segment_count_length(b) >= filter_segment_length(b)
    &&& filter_segment_count_length(b) as int % filter_segment_length(b) as int == 0
    &&& filter_num_fingerprints(b) as int == filter_segment_count_length(b) as int + (
    filter_arity(b) - 1) * filter_segment_length(b) as int
    &&& (LWE_DIMENSION as int) * (filter_num_fingerprints(b) as int) < 0x1_0000_0000
}

/// Most entries a key-value database handed to the engine may have.
pub const MAX_DB_ENTRIES: usize = 100000;

/// Longest value, in bytes, a key-value database handed to the engine may
/// hold.
pub const MAX_VALUE_LEN: usize = 4096;

/// The database fits the engine's 32-bit matrix arithmetic, with margin.
/// The engine's encoded database is a fingerprint-count by row-width matrix
/// and its public matrix is LWE-dimension by fingerprint-count, both sized
/// by 32-bit products. Within this box the fingerprint count stays below
/// about 120,000 (the engine's size factor tops out near 1.18 at this scale,
/// its segment length at 2048) and the row width below 8,259 (one 4-bit
/// element per 4 bits of 32-byte key hash, value and terminator), so both
/// products stay under a quarter of the 32-bit range.
pub open spec fn within_engine_capacity(entries: Seq<(Vec<u8>, Vec<u8>)>) -> bool {
    &&& entries.len() <= MAX_DB_ENTRIES
    &&& forall|i: int| 0 <= i < entries.len() ==> #[trigger] entries[i].1@.len() <= MAX_VALUE_LEN
}

/// Checks a key-value database against `within_engine_capacity`.
pub fn check_engine_capacity(entries: &Vec<(Vec<u8>, Vec<u8>)>) -> (r: bool)
    ensures
        r == within_engine_capacity(entries@),
{
    if entries.len() > MAX_DB_ENTRIES {
        return false;
    }
    let mut i: usize = 0;
    while i < entries.len()
        invariant
            i <= entries@.len(),
            entries@.len() <= MAX_DB_ENTRIES,
            forall|j: int| 0 <= j < i ==> #[trigger] entries@[j].1@.len() <= MAX_VALUE_LEN,
        decreases entries@.len() - i,
    {
        if entries[i].1.len() > MAX_VALUE_LEN {
            return false;
        }
        i = i + 1;
    }
    true
}

/// Checks a serialized matrix's shape.
pub fn check_matrix_bytes(b: &[u8]) -> (r: bool)
    ensures
        r == valid_matrix_bytes(b@),
{
    if b.len() < 8 {
        return false;
    }
    let rows = u32_from_le_at(b, 0);
    let cols = u32_from_le_at(b, 4);
    if rows < 1 || cols < 1 {
        return false;
    }
    proof {
        assert((rows as int) * (cols as int) <= 0xffff_ffff * 0xffff_ffff) by (nonlinear_arith)
            requires
                rows as int <= 0xffff_ffff,
                cols as int <= 0xffff_ffff,
        ;
    }
    let elems: u64 = (rows as u64) * (cols as u64);
    if elems >= 0x1_0000_0000 {
        return false;
    }
    let n: usize = b.len();
    let ok = (n as u64) == 8 + 4 * elems;
    proof {
        assert(n == b@.len());
        assert((n as u64) as int == n as int);
        assert(elems as int == (rows as int) * (cols as int));
        assert(4 * (rows as int) * (cols as int) == 4 * ((rows as int) * (cols as int)))
            by (nonlinear_arith);
    }
    ok
}

/// Checks a query blob's shape.
pub fn check_query_bytes(b: &[u8]) -> (r: bool)
    ensures
        r == valid_query_bytes(b@),
{
    if !check_matrix_bytes(b) {
        return false;
    }
    u32_from_le_at(b, 0) == 1
}

/// Checks a hint blob's shape.
pub fn check_hint_bytes(b: &[u8]) -> (r: bool)
    ensures
        r == valid_hint_bytes(b@),
{
    if !check_matrix_bytes(b) {
        return false;
    }
    u32_from_le_at(b, 0) == LWE_DIMENSION
}

/// Checks a filter parameter blob against `valid_filter_blob`.
pub fn check_filter_blob(b: &[u8]) -> (r: bool)
    ensures
        r == valid_filter_blob(b@),
{
    if b.len() != FILTER_BLOB_LEN {
        return false;
    }
    let arity = u32_from_le_at(b, 32);
    if arity != 3 && arity != 4 {
        return false;
    }
    let bit_len = crate::codec::u64_from_le_at(b, 60);
    if bit_len < 4 || bit_len > 14 {
        return false;
    }
    let seg = u32_from_le_at(b, 36);
    if seg < 1 {
        return false;
    }
    if (seg & (seg - 1)) != 0 {
        return false;
    }
    let seg_count_len = u32_from_le_at(b, 40);
    if seg_count_len < seg || seg_count_len % seg != 0 {
        return false;
    }
    let nf = crate::codec::u64_from_le_at(b, 44);
    proof {
        assert(((arity - 1) as int) * (seg as int) <= 3 * 0xffff_ffff) by (nonlinear_arith)
            requires
                arity as int <= 4,
                1 <= arity as int,
                seg as int <= 0xffff_ffff,
        ;
    }
    let expected: u64 = (seg_count_len as u64) + ((arity - 1) as u64) * (seg as u64);
    if nf != expected {
        return false;
    }
    let lwe: u64 = LWE_DIMENSION as u64;
    assert(lwe == 1774);
    lwe * nf < 0x1_0000_0000
}

} // verus!
