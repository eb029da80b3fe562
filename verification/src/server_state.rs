//! The server's shared, read-only state: the setup parameter bundle, its wire
//! encoding computed once at startup, and the engine's server handle. Every
//! connection reads this state; none may change it, which is what makes the
//! concurrent sharing safe.

use vstd::prelude::*;
use crate::bundle::{ClientSetupParams, SEED_BYTE_LEN, encode_setup_params, spec_encode_params};
use crate::codec::{frame_message, spec_frame};
use crate::dispatch::{
    MsgClass, classify, query_reply, spec_classify, spec_reply_payload, unsupported_reply,
    unsupported_reply_vec,
};
use crate::engine::{engine_respond, engine_server_setup};
use crate::engine_format::{
    check_engine_capacity, check_query_bytes, valid_query_bytes, within_engine_capacity,
};
use crate::errors::ServerSetupError;

verus! {

/// Built once before the first connection is accepted, then only read.
pub struct ServerState {
    params: ClientSetupParams,
    setup_reply: Vec<u8>,
    engine: chalamet_pir::server::Server,
}

impl ServerState {
    /// The seed the engine was set up with.
    pub closed spec fn seed_view(self) -> Seq<u8> {
        self.params.seed@
    }

    /// The hint blob the engine produced.
    pub closed spec fn hint_view(self) -> Seq<u8> {
        self.params.hint@
    }

    /// The filter blob the engine produced.
    pub closed spec fn filter_view(self) -> Seq<u8> {
        self.params.filter@
    }

    /// The bundle encoding sent, identically, to every client that asks.
    pub closed spec fn setup_reply_view(self) -> Seq<u8> {
        self.setup_reply@
    }

    /// The stored reply is exactly the encoding of the stored bundle.
    pub open spec fn wf(self) -> bool {
        self.seed_view().len() == SEED_BYTE_LEN && self.setup_reply_view() == spec_encode_params(
            self.seed_view(),
            self.hint_view(),
            self.filter_view(),
        )
    }

    /// Sets up the retrieval engine over the key-value database and fixes the
    /// setup parameter bundle and its encoding once and for all. An empty
    /// database is refused, and so is one beyond the size box within which
    /// the engine's 32-bit matrix arithmetic is known to hold; whether an
    /// admitted one is accepted is the engine's decision.
    pub fn setup(seed: &[u8], entries: &Vec<(Vec<u8>, Vec<u8>)>) -> (r: Result<
        ServerState,
        ServerSetupError,
    >)
        requires
            seed@.len() == SEED_BYTE_LEN,
            forall|i: int, j: int|
                0 <= i < j < entries@.len() ==> entries@[i].0@ != entries@[j].0@,
        ensures
            r matches Err(e) && e is EmptyDatabase <==> entries@.len() == 0,
            r matches Err(e) && e is DatasetTooLarge <==> entries@.len() > 0
                && !within_engine_capacity(entries@),
            r matches Ok(st) ==> st.wf() && st.seed_view() == seed@ && st.setup_reply_view()
                == spec_encode_params(seed@, st.hint_view(), st.filter_view()),
    {
        if entries.len() == 0 {
            return Err(ServerSetupError::EmptyDatabase);
        }
        if !check_engine_capacity(entries) {
            return Err(ServerSetupError::DatasetTooLarge);
        }
        let (engine, hint, filter) = match engine_server_setup(seed, entries) {
            Ok(t) => t,
            Err(_) => {
                return Err(ServerSetupError::EngineFailed);
            },
        };
        let mut seed_copy: Vec<u8> = Vec::new();
        let mut i: usize = 0;
        while i < seed.len()
            invariant
                i <= seed@.len(),
                seed_copy@ == seed@.take(i as int),
            decreases seed@.len() - i,
        {
            seed_copy.push(seed[i]);
            assert(seed_copy@ =~= seed@.take(i as int + 1));
            i = i + 1;
        }
        assert(seed_copy@ =~= seed@);
        let params = ClientSetupParams { seed: seed_copy, hint, filter };
        let setup_reply = encode_setup_params(&params);
        Ok(ServerState { params, setup_reply, engine })
    }

    /// Dispatches one complete inbound message and builds the framed reply:
    /// the bundle encoding for a setup request, the fixed text for an
    /// unsupported command, and the engine's response (or the fixed failure
    /// text) for a query. Every reply is a valid frame; dispatch never drops
    /// the connection.
    pub fn handle_message(&self, msg: &[u8]) -> (reply: Vec<u8>)
        ensures
            spec_classify(msg@) is Setup ==> reply@ == spec_frame(self.setup_reply_view()),
            spec_classify(msg@) is Unsupported ==> reply@ == spec_frame(unsupported_reply()),
            spec_classify(msg@) is Query && !valid_query_bytes(msg@) ==> reply@ == spec_frame(
                crate::dispatch::engine_failure_reply(),
            ),
            reply@.len() >= 8 && reply@ == spec_frame(reply@.skip(8)),
            exists|engine_out: Seq<u8>|
                reply@ == spec_frame(
                    #[trigger] spec_reply_payload(self.setup_reply_view(), engine_out, msg@),
                ),
    {
        let payload: Vec<u8> = match classify(msg) {
            MsgClass::Setup => {
                let mut r: Vec<u8> = Vec::new();
                let mut i: usize = 0;
                while i < self.setup_reply.len()
                    invariant
                        i <= self.setup_reply@.len(),
                        r@ == self.setup_reply@.take(i as int),
                    decreases self.setup_reply@.len() - i,
                {
                    r.push(self.setup_reply[i]);
                    assert(r@ =~= self.setup_reply@.take(i as int + 1));
                    i = i + 1;
                }
                assert(r@ =~= self.setup_reply@);
                r
            },
            MsgClass::Unsupported => unsupported_reply_vec(),
            MsgClass::Query => {
                // The engine deserializes a query with unchecked size
                // arithmetic; a blob of the wrong shape is answered at this
                // layer instead, with the same failure text.
                if check_query_bytes(msg) {
                    query_reply(engine_respond(&self.engine, msg))
                } else {
                    crate::dispatch::engine_failure_reply_vec()
                }
            },
        };
        let reply = frame_message(payload.as_slice());
        proof {
            assert(reply@.skip(8) =~= payload@);
            let engine_out = payload@;
            assert(reply@ == spec_frame(
                spec_reply_payload(self.setup_reply_view(), engine_out, msg@),
            ));
        }
        reply
    }
}

} // verus!
