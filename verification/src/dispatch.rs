//! Server-side request dispatch: telling a control command apart from an
//! opaque query payload, and fixing the reply for each.

use vstd::prelude::*;
use crate::errors::EngineFailure;

verus! {

/// ASCII upper-case letters folded to lower case; every other byte unchanged.
pub open spec fn ascii_lower(b: u8) -> u8 {
    if 65 <= b && b <= 90 {
        (b + 32) as u8
    } else {
        b
    }
}

/// The control command word, the ASCII bytes of "setup".
pub open spec fn command_word() -> Seq<u8> {
    seq![115u8, 101u8, 116u8, 117u8, 112u8]
}

/// The reply payload for a message of the command word's length that is not
/// the command word, the ASCII bytes of "unsupported request".
pub open spec fn unsupported_reply() -> Seq<u8> {
    seq![117u8, 110u8, 115u8, 117u8, 112u8, 112u8, 111u8, 114u8, 116u8, 101u8, 100u8, 32u8, 114u8,
        101u8, 113u8, 117u8, 101u8, 115u8, 116u8]
}

/// The reply payload when the engine refuses a query, the ASCII bytes of
/// "failed to run PIR query".
pub open spec fn engine_failure_reply() -> Seq<u8> {
    seq![102u8, 97u8, 105u8, 108u8, 101u8, 100u8, 32u8, 116u8, 111u8, 32u8, 114u8, 117u8, 110u8,
        32u8, 80u8, 73u8, 82u8, 32u8, 113u8, 117u8, 101u8, 114u8, 121u8]
}

/// The message equals the command word, letter case aside.
pub open spec fn is_setup_request(m: Seq<u8>) -> bool {
    m.len() == command_word().len() && (forall|i: int|
        0 <= i < m.len() ==> ascii_lower(m[i]) == command_word()[i])
}

/// What the dispatcher makes of one complete inbound message.
#[derive(Debug, PartialEq, Eq, Structural, Clone, Copy)]
pub enum MsgClass {
    /// A control command asking for the setup parameter bundle.
    Setup,
    /// A message of the command word's length that is not the command word.
    Unsupported,
    /// An opaque query payload for the retrieval engine.
    Query,
}

/// The dispatch rule: the command word (case-insensitively) asks for setup;
/// any other message of that same length is unsupported; every message of a
/// different length is a query.
///
/// The rule is ambiguous by construction: a legitimate query payload that
/// happens to equal the command word's five bytes, case aside, is misrouted
/// to the setup handler. This layer reproduces the protocol's rule as it
/// stands; a redesign would put an explicit message-type tag ahead of the
/// length-prefixed body and remove the collision.
pub open spec fn spec_classify(m: Seq<u8>) -> MsgClass {
    if is_setup_request(m) {
        MsgClass::Setup
    } else if m.len() == command_word().len() {
        MsgClass::Unsupported
    } else {
        MsgClass::Query
    }
}

/// Law: a message equal to the command word, case aside, always goes to the
/// setup handler, and a message of any other length always goes to the query
/// handler.
pub proof fn lemma_command_disambiguation(m: Seq<u8>)
    ensures
        is_setup_request(m) ==> spec_classify(m) is Setup,
        m.len() != command_word().len() ==> spec_classify(m) is Query,
{
}

/// Folds one byte to ASCII lower case.
pub fn lower_byte(b: u8) -> (r: u8)
    ensures
        r == ascii_lower(b),
{
    if 65 <= b && b <= 90 {
        b + 32
    } else {
        b
    }
}

/// The command word as bytes.
pub fn command_word_vec() -> (r: Vec<u8>)
    ensures
        r@ == command_word(),
{
    let mut r: Vec<u8> = Vec::new();
    r.push(115);
    r.push(101);
    r.push(116);
    r.push(117);
    r.push(112);
    assert(r@ =~= command_word());
    r
}

/// The fixed reply payload for an unsupported command.
pub fn unsupported_reply_vec() -> (r: Vec<u8>)
    ensures
        r@ == unsupported_reply(),
{
    let mut r: Vec<u8> = Vec::new();
    r.push(117);
    r.push(110);
    r.push(115);
    r.push(117);
    r.push(112);
    r.push(112);
    r.push(111);
    r.push(114);
    r.push(116);
    r.push(101);
    r.push(100);
    r.push(32);
    r.push(114);
    r.push(101);
    r.push(113);
    r.push(117);
    r.push(101);
    r.push(115);
    r.push(116);
    assert(r@ =~= unsupported_reply());
    r
}

/// The fixed reply payload for a query the engine refused.
pub fn engine_failure_reply_vec() -> (r: Vec<u8>)
    ensures
        r@ == engine_failure_reply(),
{
    let mut r: Vec<u8> = Vec::new();
    r.push(102);
    r.push(97);
    r.push(105);
    r.push(108);
    r.push(101);
    r.push(100);
    r.push(32);
    r.push(116);
    r.push(111);
    r.push(32);
    r.push(114);
    r.push(117);
    r.push(110);
    r.push(32);
    r.push(80);
    r.push(73);
    r.push(82);
    r.push(32);
    r.push(113);
    r.push(117);
    r.push(101);
    r.push(114);
    r.push(121);
    assert(r@ =~= engine_failure_reply());
    r
}

/// Classifies one complete inbound message.
pub fn classify(msg: &[u8]) -> (c: MsgClass)
    ensures
        c == spec_classify(msg@),
{
    let word = command_word_vec();
    if msg.len() != word.len() {
        return MsgClass::Query;
    }
    let mut i: usize = 0;
    while i < word.len()
        invariant
            msg@.len() == word@.len(),
            word@ == command_word(),
            i <= word@.len(),
            forall|j: int| 0 <= j < i ==> ascii_lower(msg@[j]) == command_word()[j],
        decreases word@.len() - i,
    {
        if lower_byte(msg[i]) != word[i] {
            assert(!is_setup_request(msg@));
            return MsgClass::Unsupported;
        }
        i = i + 1;
    }
    MsgClass::Setup
}

/// The reply payload owed to a successful or failed engine response: the
/// response bytes pass through unchanged; a failure is answered with the
/// fixed failure text, a valid frame rather than a dropped connection.
pub open spec fn spec_query_reply(res: Result<Seq<u8>, EngineFailure>) -> Seq<u8> {
    match res {
        Ok(v) => v,
        Err(_) => engine_failure_reply(),
    }
}

/// Builds the reply payload for the outcome of one engine respond call.
pub fn query_reply(res: Result<Vec<u8>, EngineFailure>) -> (r: Vec<u8>)
    ensures
        r@ == spec_query_reply(match res {
            Ok(v) => Ok::<Seq<u8>, EngineFailure>(v@),
            Err(e) => Err(e),
        }),
{
    match res {
        Ok(v) => v,
        Err(_) => engine_failure_reply_vec(),
    }
}

/// The reply payload for one inbound message, with the engine's contribution
/// for a query abstracted as `engine_out`: the shared setup bundle encoding
/// for the command word, the fixed text for an unsupported command, and the
/// engine's outcome for a query.
pub open spec fn spec_reply_payload(setup_reply: Seq<u8>, engine_out: Seq<u8>, msg: Seq<u8>) -> Seq<
    u8,
> {
    match spec_classify(msg) {
        MsgClass::Setup => setup_reply,
        MsgClass::Unsupported => unsupported_reply(),
        MsgClass::Query => engine_out,
    }
}

/// Law: two setup requests, on any two connections, at any two times, receive
/// byte-identical replies: the reply depends only on the shared bundle
/// encoding, never on the request bytes or on any engine outcome.
pub proof fn lemma_setup_idempotent(
    setup_reply: Seq<u8>,
    m1: Seq<u8>,
    eo1: Seq<u8>,
    m2: Seq<u8>,
    eo2: Seq<u8>,
)
    requires
        is_setup_request(m1),
        is_setup_request(m2),
    ensures
        spec_reply_payload(setup_reply, eo1, m1) == spec_reply_payload(setup_reply, eo2, m2),
{
}

/// One request in an interleaved trace: the connection it came from, its
/// message bytes, and the engine's outcome payload were it a query.
pub type TaggedRequest = (int, Seq<u8>, Seq<u8>);

/// The replies for an interleaved trace of requests, each tagged with its
/// connection: every reply is computed from the shared bundle encoding and
/// that request alone.
pub open spec fn tagged_replies(setup_reply: Seq<u8>, reqs: Seq<TaggedRequest>) -> Seq<
    (int, Seq<u8>),
> {
    reqs.map(|i: int, r: TaggedRequest| (r.0, spec_reply_payload(setup_reply, r.2, r.1)))
}

/// Law: connections are isolated. In any interleaving of requests from many
/// connections against one shared server state, the replies that one
/// connection sees are exactly the replies it would see serving its own
/// requests alone, in its own order: no connection observes another's
/// requests or responses.
pub proof fn lemma_connection_isolation(setup_reply: Seq<u8>, reqs: Seq<TaggedRequest>, c: int)
    ensures
        tagged_replies(setup_reply, reqs).filter(|p: (int, Seq<u8>)| p.0 == c) == tagged_replies(
            setup_reply,
            reqs.filter(|r: TaggedRequest| r.0 == c),
        ),
    decreases reqs.len(),
{
    let pred_rep = |p: (int, Seq<u8>)| p.0 == c;
    let pred_req = |r: TaggedRequest| r.0 == c;
    reveal_with_fuel(Seq::<_>::filter, 2);
    if reqs.len() == 0 {
        assert(tagged_replies(setup_reply, reqs) =~= Seq::<(int, Seq<u8>)>::empty());
        assert(reqs.filter(pred_req) =~= Seq::<TaggedRequest>::empty());
        assert(tagged_replies(setup_reply, reqs.filter(pred_req)) =~= Seq::<
            (int, Seq<u8>),
        >::empty());
    } else {
        let pre = reqs.drop_last();
        let l = reqs.last();
        lemma_connection_isolation(setup_reply, pre, c);
        let g = |r: TaggedRequest| (r.0, spec_reply_payload(setup_reply, r.2, r.1));
        let t = tagged_replies(setup_reply, reqs);
        assert(t =~= tagged_replies(setup_reply, pre).push(g(l)));
        assert(t.drop_last() =~= tagged_replies(setup_reply, pre));
        assert(t.last() == g(l));
        assert(pred_rep(g(l)) == pred_req(l));
        if pred_req(l) {
            assert(reqs.filter(pred_req) == pre.filter(pred_req).push(l));
            assert(t.filter(pred_rep) == t.drop_last().filter(pred_rep).push(g(l)));
            let fpre = pre.filter(pred_req);
            let fall = fpre.push(l);
            assert(fall.drop_last() =~= fpre);
            assert(fall.last() == l);
            if fall.len() > 0 {
                assert(tagged_replies(setup_reply, fall) =~= tagged_replies(setup_reply, fpre).push(
                    g(l)));
            }
        } else {
            assert(reqs.filter(pred_req) == pre.filter(pred_req));
            assert(t.filter(pred_rep) == t.drop_last().filter(pred_rep));
        }
    }
}

/// Every reply in an interleaved trace is a frame of the payload owed to its
/// own request: the `i`-th reply answers the `i`-th request.
pub open spec fn replies_match_requests(setup_reply: Seq<u8>, reqs: Seq<TaggedRequest>) -> bool {
    forall|i: int|
        0 <= i < reqs.len() ==> tagged_replies(setup_reply, reqs)[i] == (
        reqs[i].0,
        spec_reply_payload(setup_reply, reqs[i].2, reqs[i].1),
        )
}

/// Law: within any trace, replies are delivered in request order and each
/// corresponds to its own request.
pub proof fn lemma_replies_in_order(setup_reply: Seq<u8>, reqs: Seq<TaggedRequest>)
    ensures
        tagged_replies(setup_reply, reqs).len() == reqs.len(),
        replies_match_requests(setup_reply, reqs),
{
}

} // verus!
