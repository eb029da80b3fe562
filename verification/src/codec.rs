//! Framing codec: every message travels as an 8-byte little-endian length
//! word followed by exactly that many payload bytes.

use vstd::prelude::*;

verus! {

/// The `i`-th little-endian byte of `n`.
pub open spec fn le_byte(n: u64, i: int) -> u8 {
    (n >> (8 * i)) as u8
}

/// The eight little-endian bytes of `n`, least significant first.
pub open spec fn le_bytes_of(n: u64) -> Seq<u8> {
    Seq::new(8, |i: int| le_byte(n, i))
}

/// The value encoded by eight little-endian bytes.
pub open spec fn u64_of_le(s: Seq<u8>) -> u64
    recommends
        s.len() == 8,
{
    (s[0] as u64) | ((s[1] as u64) << 8) | ((s[2] as u64) << 16) | ((s[3] as u64) << 24)
        | ((s[4] as u64) << 32) | ((s[5] as u64) << 40) | ((s[6] as u64) << 48)
        | ((s[7] as u64) << 56)
}

/// Decoding the little-endian bytes of `n` gives back `n`.
pub proof fn lemma_le_round_trip(n: u64)
    ensures
        u64_of_le(le_bytes_of(n)) == n,
{
    assert((((n >> 0) as u8) as u64) | ((((n >> 8) as u8) as u64) << 8)
        | ((((n >> 16) as u8) as u64) << 16) | ((((n >> 24) as u8) as u64) << 24)
        | ((((n >> 32) as u8) as u64) << 32) | ((((n >> 40) as u8) as u64) << 40)
        | ((((n >> 48) as u8) as u64) << 48) | ((((n >> 56) as u8) as u64) << 56) == n)
        by (bit_vector);
}

/// The wire form of one message: the length word, then the payload.
pub open spec fn spec_frame(p: Seq<u8>) -> Seq<u8>
    recommends
        p.len() <= u64::MAX,
{
    le_bytes_of(p.len() as u64) + p
}

/// How many further bytes a receiver needs before the message whose bytes so
/// far are `s` is complete.
pub open spec fn bytes_needed(s: Seq<u8>) -> int {
    if s.len() < 8 {
        8 - s.len()
    } else {
        8 + u64_of_le(s.take(8)) - s.len()
    }
}

/// `s` holds one complete message: a full header and exactly the declared
/// number of payload bytes.
pub open spec fn frame_complete(s: Seq<u8>) -> bool {
    s.len() >= 8 && bytes_needed(s) == 0
}

/// The payload of a complete message.
pub open spec fn frame_payload(s: Seq<u8>) -> Seq<u8>
    recommends
        frame_complete(s),
{
    s.skip(8)
}

/// Writes `n` as eight little-endian bytes.
pub fn u64_to_le_vec(n: u64) -> (r: Vec<u8>)
    ensures
        r@ == le_bytes_of(n),
{
    let mut r: Vec<u8> = Vec::new();
    let mut i: usize = 0;
    while i < 8
        invariant
            i <= 8,
            r@.len() == i,
            forall|j: int| 0 <= j < i ==> r@[j] == le_byte(n, j),
        decreases 8 - i,
    {
        r.push((n >> (8 * (i as u64))) as u8);
        i = i + 1;
    }
    assert(r@ =~= le_bytes_of(n));
    r
}

/// Reads the eight little-endian bytes starting at `pos`.
pub fn u64_from_le_at(b: &[u8], pos: usize) -> (r: u64)
    requires
        pos + 8 <= b@.len(),
    ensures
        r == u64_of_le(b@.subrange(pos as int, pos as int + 8)),
{
    let r = (b[pos] as u64) | ((b[pos + 1] as u64) << 8) | ((b[pos + 2] as u64) << 16)
        | ((b[pos + 3] as u64) << 24) | ((b[pos + 4] as u64) << 32)
        | ((b[pos + 5] as u64) << 40) | ((b[pos + 6] as u64) << 48)
        | ((b[pos + 7] as u64) << 56);
    assert(b@.subrange(pos as int, pos as int + 8) =~= Seq::new(8, |i: int| b@[pos + i]));
    r
}

/// Encodes one message for the wire: length word, then the payload bytes.
pub fn frame_message(payload: &[u8]) -> (r: Vec<u8>)
    ensures
        r@ == spec_frame(payload@),
{
    let mut r = u64_to_le_vec(payload.len() as u64);
    let mut i: usize = 0;
    while i < payload.len()
        invariant
            i <= payload@.len(),
            r@ == le_bytes_of(payload@.len() as u64) + payload@.take(i as int),
        decreases payload@.len() - i,
    {
        r.push(payload[i]);
        assert(le_bytes_of(payload@.len() as u64) + payload@.take(i as int + 1)
            =~= (le_bytes_of(payload@.len() as u64) + payload@.take(i as int)).push(
            payload@[i as int]));
        i = i + 1;
    }
    assert(payload@.take(payload@.len() as int) =~= payload@);
    r
}

/// The bytes a receiver keeps after `s` of the message have arrived and the
/// stream offers `c` more: bytes are taken one at a time until the message is
/// complete or `c` runs out.
pub open spec fn consume_all(s: Seq<u8>, c: Seq<u8>) -> Seq<u8>
    decreases c.len(),
{
    if c.len() == 0 || bytes_needed(s) <= 0 {
        s
    } else {
        consume_all(s.push(c[0]), c.skip(1))
    }
}

/// Law: writing any payload through the codec and reading the resulting bytes
/// back yields a complete message carrying exactly that payload.
pub proof fn lemma_frame_round_trip(p: Seq<u8>)
    requires
        p.len() <= u64::MAX,
    ensures
        frame_complete(spec_frame(p)),
        frame_payload(spec_frame(p)) == p,
{
    lemma_le_round_trip(p.len() as u64);
    assert(spec_frame(p).take(8) =~= le_bytes_of(p.len() as u64));
    assert(spec_frame(p).skip(8) =~= p);
}

/// Law: a strict prefix of a framed message is never itself complete, so a
/// stream that closes short of the declared length can only be reported as
/// truncated, never as a successful read of the shorter prefix.
pub proof fn lemma_truncation_detected(p: Seq<u8>, k: int)
    requires
        p.len() <= u64::MAX,
        0 <= k < spec_frame(p).len(),
    ensures
        !frame_complete(spec_frame(p).take(k)),
        bytes_needed(spec_frame(p).take(k)) > 0,
{
    let s = spec_frame(p).take(k);
    if s.len() >= 8 {
        assert(s.take(8) =~= spec_frame(p).take(8));
        assert(spec_frame(p).take(8) =~= le_bytes_of(p.len() as u64));
        lemma_le_round_trip(p.len() as u64);
    }
}

/// Feeding the remainder of a framed message to a receiver that already holds
/// a prefix of it completes the message exactly.
pub proof fn lemma_consume_prefix(p: Seq<u8>, k: int)
    requires
        p.len() <= u64::MAX,
        0 <= k <= spec_frame(p).len(),
    ensures
        consume_all(spec_frame(p).take(k), spec_frame(p).skip(k)) == spec_frame(p),
    decreases spec_frame(p).len() - k,
{
    let f = spec_frame(p);
    if k == f.len() {
        assert(f.skip(k) =~= Seq::<u8>::empty());
        assert(f.take(k) =~= f);
    } else {
        lemma_truncation_detected(p, k);
        let c = f.skip(k);
        assert(c[0] == f[k]);
        assert(f.take(k).push(f[k]) =~= f.take(k + 1));
        assert(c.skip(1) =~= f.skip(k + 1));
        lemma_consume_prefix(p, k + 1);
    }
}

/// Consuming a stream in two pieces is the same as consuming it whole.
pub proof fn lemma_consume_all_append(s: Seq<u8>, a: Seq<u8>, b: Seq<u8>)
    ensures
        consume_all(s, a + b) == consume_all(consume_all(s, a), b),
    decreases a.len(),
{
    if a.len() == 0 {
        assert(a + b =~= b);
    } else if bytes_needed(s) <= 0 {
    } else {
        assert((a + b)[0] == a[0]);
        assert((a + b).skip(1) =~= a.skip(1) + b);
        lemma_consume_all_append(s.push(a[0]), a.skip(1), b);
    }
}

/// The concatenation of a list of chunks.
pub open spec fn concat_chunks(chunks: Seq<Seq<u8>>) -> Seq<u8>
    decreases chunks.len(),
{
    if chunks.len() == 0 {
        Seq::empty()
    } else {
        chunks[0] + concat_chunks(chunks.skip(1))
    }
}

/// The bytes a fresh receiver holds after the chunks are fed to it in order.
pub open spec fn feed_chunks(s: Seq<u8>, chunks: Seq<Seq<u8>>) -> Seq<u8>
    decreases chunks.len(),
{
    if chunks.len() == 0 {
        s
    } else {
        feed_chunks(consume_all(s, chunks[0]), chunks.skip(1))
    }
}

/// Feeding chunks one after another is the same as feeding their
/// concatenation at once.
pub proof fn lemma_feed_chunks_is_concat(s: Seq<u8>, chunks: Seq<Seq<u8>>)
    ensures
        feed_chunks(s, chunks) == consume_all(s, concat_chunks(chunks)),
    decreases chunks.len(),
{
    if chunks.len() == 0 {
    } else {
        lemma_consume_all_append(s, chunks[0], concat_chunks(chunks.skip(1)));
        lemma_feed_chunks_is_concat(consume_all(s, chunks[0]), chunks.skip(1));
    }
}

/// Law: delivering the length word and the payload in chunks of any size,
/// one byte at a time included, decodes to the same message as delivering the
/// framed bytes whole.
pub proof fn lemma_chunked_delivery(p: Seq<u8>, chunks: Seq<Seq<u8>>)
    requires
        p.len() <= u64::MAX,
        concat_chunks(chunks) == spec_frame(p),
    ensures
        feed_chunks(Seq::<u8>::empty(), chunks) == spec_frame(p),
        frame_complete(feed_chunks(Seq::<u8>::empty(), chunks)),
        frame_payload(feed_chunks(Seq::<u8>::empty(), chunks)) == p,
{
    lemma_feed_chunks_is_concat(Seq::<u8>::empty(), chunks);
    assert(spec_frame(p).take(0) =~= Seq::<u8>::empty());
    assert(spec_frame(p).skip(0) =~= spec_frame(p));
    lemma_consume_prefix(p, 0);
    lemma_frame_round_trip(p);
}

/// How one message ends: complete, closed before any byte, or cut short.
#[derive(Debug)]
pub enum FrameEnd {
    /// The message arrived whole; this is its payload.
    Message(Vec<u8>),
    /// The stream closed before a single byte of the message arrived: the
    /// peer disconnected between messages, a normal termination.
    CleanClose,
    /// The stream closed in the middle of a message: the declared length was
    /// never fulfilled. Never to be mistaken for a shorter valid message.
    Truncated,
}

/// Assembles one length-prefixed message from a stream delivered in chunks of
/// arbitrary size.
pub struct FrameDecoder {
    header: Vec<u8>,
    payload: Vec<u8>,
}

impl FrameDecoder {
    /// All bytes accepted so far, header bytes first.
    pub closed spec fn consumed(self) -> Seq<u8> {
        self.header@ + self.payload@
    }

    /// Internal shape: at most eight header bytes, no payload byte before the
    /// header is whole, never more payload than the header declares.
    pub closed spec fn wf(self) -> bool {
        &&& self.header@.len() <= 8
        &&& (self.header@.len() < 8 ==> self.payload@.len() == 0)
        &&& (self.header@.len() == 8 ==> self.payload@.len() <= u64_of_le(self.header@))
    }

    pub proof fn lemma_wf_needed(self)
        requires
            self.wf(),
        ensures
            bytes_needed(self.consumed()) >= 0,
            bytes_needed(self.consumed()) == 0 ==> self.consumed().len() >= 8,
    {
        if self.header@.len() == 8 {
            assert(self.consumed().take(8) =~= self.header@);
        }
    }

    pub fn new() -> (d: FrameDecoder)
        ensures
            d.wf(),
            d.consumed() == Seq::<u8>::empty(),
    {
        let d = FrameDecoder { header: Vec::new(), payload: Vec::new() };
        assert(d.consumed() =~= Seq::<u8>::empty());
        d
    }

    /// Accepts bytes from the stream until the message is complete or the
    /// chunk is exhausted; returns how many bytes were taken. The caller owns
    /// whatever part of the chunk was not taken.
    pub fn feed(&mut self, chunk: &[u8]) -> (n: usize)
        requires
            old(self).wf(),
        ensures
            final(self).wf(),
            n <= chunk@.len(),
            final(self).consumed() == old(self).consumed() + chunk@.take(n as int),
            final(self).consumed() == consume_all(old(self).consumed(), chunk@),
    {
        let mut i: usize = 0;
        proof {
            assert(chunk@.skip(0) =~= chunk@);
            assert(old(self).consumed() + chunk@.take(0) =~= old(self).consumed());
        }
        loop
            invariant
                self.wf(),
                i <= chunk@.len(),
                self.consumed() == old(self).consumed() + chunk@.take(i as int),
                consume_all(old(self).consumed(), chunk@) == consume_all(
                    self.consumed(),
                    chunk@.skip(i as int),
                ),
            ensures
                self.wf(),
                i <= chunk@.len(),
                self.consumed() == old(self).consumed() + chunk@.take(i as int),
                self.consumed() == consume_all(old(self).consumed(), chunk@),
            decreases chunk@.len() - i,
        {
            if i >= chunk.len() {
                assert(chunk@.skip(i as int) =~= Seq::<u8>::empty());
                break;
            }
            let ghost pre = self.consumed();
            let ghost rest = chunk@.skip(i as int);
            assert(rest[0] == chunk@[i as int]);
            assert(rest.skip(1) =~= chunk@.skip(i as int + 1));
            if self.header.len() < 8 {
                assert(bytes_needed(pre) > 0);
                self.header.push(chunk[i]);
                proof {
                    assert(self.consumed() =~= pre.push(chunk@[i as int]));
                    assert(pre.push(chunk@[i as int]) =~= old(self).consumed() + chunk@.take(
                        i as int + 1));
                }
                i = i + 1;
            } else {
                let declared = u64_from_le_at(self.header.as_slice(), 0);
                assert(self.header@.subrange(0, 8) =~= self.header@);
                if (self.payload.len() as u64) < declared {
                    proof {
                        assert(pre.take(8) =~= self.header@);
                        assert(bytes_needed(pre) > 0);
                    }
                    self.payload.push(chunk[i]);
                    proof {
                        assert(self.consumed() =~= pre.push(chunk@[i as int]));
                        assert(pre.push(chunk@[i as int]) =~= old(self).consumed() + chunk@.take(
                            i as int + 1));
                    }
                    i = i + 1;
                } else {
                    proof {
                        assert(pre.take(8) =~= self.header@);
                        assert(bytes_needed(pre) == 0);
                    }
                    break;
                }
            }
        }
        i
    }

    /// True once the header is whole and the declared payload has arrived.
    pub fn is_complete(&self) -> (r: bool)
        requires
            self.wf(),
        ensures
            r == frame_complete(self.consumed()),
    {
        proof {
            self.lemma_wf_needed();
        }
        if self.header.len() < 8 {
            false
        } else {
            let declared = u64_from_le_at(self.header.as_slice(), 0);
            proof {
                assert(self.header@.subrange(0, 8) =~= self.header@);
                assert(self.consumed().take(8) =~= self.header@);
            }
            self.payload.len() as u64 == declared
        }
    }

    /// Hands out the payload of a completely received message.
    pub fn into_message(self) -> (r: Vec<u8>)
        requires
            self.wf(),
            frame_complete(self.consumed()),
        ensures
            r@ == frame_payload(self.consumed()),
    {
        proof {
            assert(self.consumed().skip(8) =~= self.payload@);
        }
        self.payload
    }

    /// What the stream's closing means for the message under assembly: a
    /// whole message, a clean disconnect before it began, or a truncation.
    pub fn close(self) -> (r: FrameEnd)
        requires
            self.wf(),
        ensures
            self.consumed().len() == 0 ==> r is CleanClose,
            frame_complete(self.consumed()) ==> (r matches FrameEnd::Message(m) && m@
                == frame_payload(self.consumed())),
            self.consumed().len() > 0 && !frame_complete(self.consumed()) ==> r is Truncated,
    {
        proof {
            self.lemma_wf_needed();
        }
        if self.header.len() == 0 {
            assert(self.consumed().len() == 0);
            FrameEnd::CleanClose
        } else if self.is_complete() {
            FrameEnd::Message(self.into_message())
        } else {
            FrameEnd::Truncated
        }
    }
}

} // verus!
