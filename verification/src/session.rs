//! The client session: one engine handle built from the received bundle, and
//! a strictly ordered query exchange. A query's keyword is kept beside the
//! in-flight request so that the response is decoded against the same
//! keyword, which the engine requires.

use vstd::prelude::*;
use crate::bundle::decode_setup_params;
use crate::codec::spec_frame;
use crate::dispatch::ascii_lower;
use crate::engine::{engine_client_decode, engine_client_query, engine_client_setup};
use crate::engine_format::{
    check_filter_blob, check_hint_bytes, check_matrix_bytes, valid_filter_blob, valid_hint_bytes,
    valid_matrix_bytes,
};
use crate::errors::{QueryError, SessionSetupError};

verus! {

/// The framed control command that asks the server for the setup bundle.
pub fn setup_request_frame() -> (r: Vec<u8>)
    ensures
        r@ == spec_frame(crate::dispatch::command_word()),
{
    let word = crate::dispatch::command_word_vec();
    crate::codec::frame_message(word.as_slice())
}

/// The received bundle is fit to build a session from: it decodes, its hint
/// is a well-shaped matrix with the engine's LWE dimension, and its filter
/// record is within the bounds the engine's own construction guarantees.
pub open spec fn acceptable_bundle(b: Seq<u8>) -> bool {
    match crate::bundle::spec_decode_params(b) {
        Some(fields) => valid_hint_bytes(fields.1) && valid_filter_blob(fields.2),
        None => false,
    }
}

/// One client's connection-long state: the engine handle and the keyword of
/// the query awaiting its response, if any.
pub struct Session {
    engine: chalamet_pir::client::Client,
    pending: Option<Vec<u8>>,
}

impl Session {
    /// The keyword whose query has been sent and whose response is awaited.
    pub closed spec fn pending_keyword(self) -> Option<Seq<u8>> {
        match self.pending {
            Some(k) => Some(k@),
            None => None,
        }
    }

    /// Builds a session from the bundle bytes the server sent: decodes them,
    /// holds the hint and filter blobs to the shapes the engine can take,
    /// and hands the fields to the engine. The session exists exactly when
    /// the bundle is acceptable: the engine accepts every bundle the shape
    /// checks admit, so nothing else can fail the handshake.
    pub fn new(bundle_bytes: &[u8]) -> (r: Result<Session, SessionSetupError>)
        ensures
            r is Ok <==> acceptable_bundle(bundle_bytes@),
            r matches Ok(s) ==> s.pending_keyword() is None,
    {
        let params = match decode_setup_params(bundle_bytes) {
            Some(p) => p,
            None => {
                return Err(SessionSetupError::MalformedBundle);
            },
        };
        if !check_hint_bytes(params.hint.as_slice()) || !check_filter_blob(
            params.filter.as_slice(),
        ) {
            return Err(SessionSetupError::MalformedBundle);
        }
        let engine = engine_client_setup(
            params.seed.as_slice(),
            params.hint.as_slice(),
            params.filter.as_slice(),
        ).unwrap();
        Ok(Session { engine, pending: None })
    }

    /// Encodes one keyword as a query and frames it for the wire. On success
    /// the keyword becomes the pending one, to be resolved by
    /// `finish_query` before the next query begins; the returned bytes are
    /// always a valid frame. Refused while a query is already in flight, so
    /// the request/response pairing is never lost.
    pub fn begin_query(&mut self, keyword: &[u8]) -> (r: Result<Vec<u8>, QueryError>)
        ensures
            old(self).pending_keyword() is Some ==> (r matches Err(e) && e is QueryInFlight
                && final(self).pending_keyword() == old(self).pending_keyword()),
            old(self).pending_keyword() is None && r is Ok ==> final(self).pending_keyword()
                == Some(keyword@),
            old(self).pending_keyword() is None ==> (r matches Err(e) ==> e is EncodeFailed),
            old(self).pending_keyword() is None && r is Err ==> final(self).pending_keyword()
                is None,
            r matches Ok(frame) ==> frame@.len() >= 8 && frame@ == spec_frame(frame@.skip(8)),
    {
        if self.pending.is_some() {
            return Err(QueryError::QueryInFlight);
        }
        let query = match engine_client_query(&mut self.engine, keyword) {
            Ok(q) => q,
            Err(_) => {
                return Err(QueryError::EncodeFailed);
            },
        };
        let mut kw: Vec<u8> = Vec::new();
        let mut i: usize = 0;
        while i < keyword.len()
            invariant
                i <= keyword@.len(),
                kw@ == keyword@.take(i as int),
            decreases keyword@.len() - i,
        {
            kw.push(keyword[i]);
            assert(kw@ =~= keyword@.take(i as int + 1));
            i = i + 1;
        }
        assert(kw@ =~= keyword@);
        self.pending = Some(kw);
        let framed = crate::codec::frame_message(query.as_slice());
        proof {
            assert(framed@.skip(8) =~= query@);
        }
        Ok(framed)
    }

    /// Decodes the server's reply against the pending keyword. The pending
    /// slot is cleared whether decoding succeeds or fails: the exchange for
    /// that keyword is over either way, and the next query may begin. A
    /// reply that is not even a well-shaped matrix never reaches the engine;
    /// it fails here the same way.
    pub fn finish_query(&mut self, reply: &[u8]) -> (r: Result<Vec<u8>, QueryError>)
        ensures
            old(self).pending_keyword() is None ==> (r matches Err(e) && e is NoQueryInFlight
                && final(self).pending_keyword() is None),
            old(self).pending_keyword() is Some ==> final(self).pending_keyword() is None,
            old(self).pending_keyword() is Some ==> (r matches Err(e) ==> e is DecodeFailed),
            old(self).pending_keyword() is Some && !valid_matrix_bytes(reply@) ==> (r matches Err(
                e,
            ) && e is DecodeFailed),
    {
        let kw = match self.pending.take() {
            Some(k) => k,
            None => {
                return Err(QueryError::NoQueryInFlight);
            },
        };
        if !check_matrix_bytes(reply) {
            return Err(QueryError::DecodeFailed);
        }
        match engine_client_decode(&mut self.engine, kw.as_slice(), reply) {
            Ok(v) => Ok(v),
            Err(_) => Err(QueryError::DecodeFailed),
        }
    }
}

/// A byte of ASCII whitespace: space, tab, line feed or carriage return.
pub open spec fn is_ws(b: u8) -> bool {
    b == 32 || b == 9 || b == 10 || b == 13
}

/// The line with its trailing ASCII whitespace removed.
pub open spec fn trim_end_ws(s: Seq<u8>) -> Seq<u8>
    decreases s.len(),
{
    if s.len() > 0 && is_ws(s.last()) {
        trim_end_ws(s.drop_last())
    } else {
        s
    }
}

/// The session's exit token, the ASCII bytes of "quit".
pub open spec fn quit_word() -> Seq<u8> {
    seq![113u8, 117u8, 105u8, 116u8]
}

/// The trimmed line equals the exit token, letter case aside.
pub open spec fn is_quit(s: Seq<u8>) -> bool {
    s.len() == quit_word().len() && (forall|i: int|
        0 <= i < s.len() ==> ascii_lower(s[i]) == quit_word()[i])
}

/// What one line of user input asks of the session.
#[derive(Debug)]
pub enum InputCmd {
    /// The exit token: end the session cleanly.
    Quit,
    /// Any other line: the keyword to query, trailing whitespace removed.
    Keyword(Vec<u8>),
}

/// Reads one input line's intent: the exit token ends the session; every
/// other line is a query keyword.
pub fn classify_input(line: &[u8]) -> (c: InputCmd)
    ensures
        is_quit(trim_end_ws(line@)) ==> c is Quit,
        !is_quit(trim_end_ws(line@)) ==> (c matches InputCmd::Keyword(k) && k@ == trim_end_ws(
            line@,
        )),
{
    let mut end: usize = line.len();
    proof {
        assert(line@.take(line@.len() as int) =~= line@);
    }
    loop
        invariant
            end <= line@.len(),
            trim_end_ws(line@) == trim_end_ws(line@.take(end as int)),
        ensures
            end <= line@.len(),
            trim_end_ws(line@) == trim_end_ws(line@.take(end as int)),
            end == 0 || !is_ws(line@[end as int - 1]),
        decreases end,
    {
        if end == 0 {
            break;
        }
        let b = line[end - 1];
        if !(b == 32 || b == 9 || b == 10 || b == 13) {
            break;
        }
        assert(line@.take(end as int).last() == line@[end - 1]);
        assert(line@.take(end as int).drop_last() =~= line@.take(end as int - 1));
        end = end - 1;
    }
    proof {
        if end > 0 {
            assert(line@.take(end as int).last() == line@[end as int - 1]);
        }
        assert(trim_end_ws(line@) == line@.take(end as int));
    }
    let mut t: Vec<u8> = Vec::new();
    let mut i: usize = 0;
    while i < end
        invariant
            i <= end <= line@.len(),
            t@ == line@.subrange(0, i as int),
        decreases end - i,
    {
        t.push(line[i]);
        assert(t@ =~= line@.subrange(0, i as int + 1));
        i = i + 1;
    }
    assert(t@ =~= line@.take(end as int));
    if t.len() != 4 {
        return InputCmd::Keyword(t);
    }
    let quit = {
        let mut q: Vec<u8> = Vec::new();
        q.push(113);
        q.push(117);
        q.push(105);
        q.push(116);
        assert(q@ =~= quit_word());
        q
    };
    let mut j: usize = 0;
    while j < 4
        invariant
            t@ == trim_end_ws(line@),
            t@.len() == 4,
            quit@ == quit_word(),
            j <= 4,
            forall|m: int| 0 <= m < j ==> ascii_lower(t@[m]) == quit_word()[m],
        decreases 4 - j,
    {
        if crate::dispatch::lower_byte(t[j]) != quit[j] {
            assert(!is_quit(t@));
            return InputCmd::Keyword(t);
        }
        j = j + 1;
    }
    InputCmd::Quit
}

} // verus!
