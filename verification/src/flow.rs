//! The orchestrator's decision logic. The stages run strictly in
//! order — collect, authenticate, resolve identity, submit favourite —
//! and the first fatal failure ends the run. The outside world (the
//! terminal, the network) is represented by plain outcome values that
//! the caller hands in; every decision taken on them is verified here.

use vstd::prelude::*;

use crate::auth::{
    decode_token_envelope, envelope_view, spec_token_envelope, token_request_body,
    token_request_text, TokenEnvelope,
};
use crate::errors::Failure;
use crate::favourite::{favourite_request_body, favourite_request_text};
use crate::identity::{current_account_from_body, spec_account_ids};

verus! {

/// What came of one network call: a response body read in full, or a
/// transport-level failure.
pub enum ServiceReply {
    Reply { body: String },
    TransportFailed,
}

/// The spec-level value of a service reply.
pub enum ReplyV {
    RBody(Seq<char>),
    RFailed,
}

/// The spec-level value of an executable reply.
pub open spec fn reply_view(r: ServiceReply) -> ReplyV {
    match r {
        ServiceReply::Reply { body } => ReplyV::RBody(body@),
        ServiceReply::TransportFailed => ReplyV::RFailed,
    }
}

/// What came of credential collection: the three interactive values,
/// or a closed or unreadable input stream.
pub enum CollectOutcome {
    Collected { username: String, secret: String, item_id: String },
    InputClosed,
}

/// The spec-level value of a collection outcome.
pub enum CollectV {
    VCollected { username: Seq<char>, secret: Seq<char>, item_id: Seq<char> },
    VInputClosed,
}

/// The spec-level value of an executable collection outcome.
pub open spec fn collect_view(c: CollectOutcome) -> CollectV {
    match c {
        CollectOutcome::Collected { username, secret, item_id } => CollectV::VCollected {
            username: username@,
            secret: secret@,
            item_id: item_id@,
        },
        CollectOutcome::InputClosed => CollectV::VInputClosed,
    }
}

/// Exchanges the token-endpoint reply for the token envelope:
/// a transport failure is a `NetworkFailure`, and a body that is not a
/// well-formed envelope — an error-shaped reply included — is a
/// `DecodeFailure`, the signal of rejected credentials.
pub fn authenticate(reply: &ServiceReply) -> (r: Result<TokenEnvelope, Failure>)
    ensures
        reply is TransportFailed ==> r == Err::<TokenEnvelope, Failure>(Failure::NetworkFailure),
        reply matches ServiceReply::Reply { body } ==> match spec_token_envelope(body@) {
            Some(e) => r matches Ok(t) && envelope_view(t) == e,
            None => r == Err::<TokenEnvelope, Failure>(Failure::DecodeFailure),
        },
{
    match reply {
        ServiceReply::TransportFailed => Err(Failure::NetworkFailure),
        ServiceReply::Reply { body } => decode_token_envelope(body.as_str()),
    }
}

/// Exchanges the self-lookup reply for the caller's account id: the
/// first record's id, with a transport failure a `NetworkFailure`, a
/// malformed body a `DecodeFailure`, and an empty record list an
/// `IndexFailure`.
pub fn current_account(reply: &ServiceReply) -> (r: Result<String, Failure>)
    ensures
        reply is TransportFailed ==> r == Err::<String, Failure>(Failure::NetworkFailure),
        reply matches ServiceReply::Reply { body } ==> match spec_account_ids(body@) {
            None => r == Err::<String, Failure>(Failure::DecodeFailure),
            Some(ids) => if ids.len() == 0 {
                r == Err::<String, Failure>(Failure::IndexFailure)
            } else {
                r matches Ok(s) && s@ == ids[0]
            },
        },
{
    match reply {
        ServiceReply::TransportFailed => Err(Failure::NetworkFailure),
        ServiceReply::Reply { body } => current_account_from_body(body.as_str()),
    }
}

/// The bearer authorization header value for a token.
pub fn bearer_header(token: &str) -> (r: String)
    ensures
        r@ == "Bearer "@ + token@,
{
    let b = String::from_str("Bearer ");
    b.concat(token)
}

/// Everything a completed run decided: how it ended, and which request
/// bodies were to go out. Requests that the run never reached are
/// `None`; the favourite submission's own outcome is deliberately not
/// part of this record.
pub struct RunPlan {
    pub exit_ok: bool,
    pub failure: Option<Failure>,
    pub token_request: Option<String>,
    pub account_requested: bool,
    pub favourite_request: Option<String>,
}

/// The spec-level value of a run plan.
pub ghost struct RunPlanV {
    pub exit_ok: bool,
    pub failure: Option<Failure>,
    pub token_request: Option<Seq<char>>,
    pub account_requested: bool,
    pub favourite_request: Option<Seq<char>>,
}

/// The spec-level value of an executable run plan.
pub open spec fn plan_view(p: RunPlan) -> RunPlanV {
    RunPlanV {
        exit_ok: p.exit_ok,
        failure: p.failure,
        token_request: match p.token_request {
            Some(s) => Some(s@),
            None => None,
        },
        account_requested: p.account_requested,
        favourite_request: match p.favourite_request {
            Some(s) => Some(s@),
            None => None,
        },
    }
}

/// The run's complete decision record as a function of the collection
/// outcome and the two replies alone: the stages in order, the first
/// fatal failure ending the run, and the submission stage never gating
/// the reported outcome.
pub open spec fn run_plan(inputs: CollectV, token_reply: ReplyV, account_reply: ReplyV) -> RunPlanV {
    match inputs {
        CollectV::VInputClosed => RunPlanV {
            exit_ok: false,
            failure: Some(Failure::IoFailure),
            token_request: None,
            account_requested: false,
            favourite_request: None,
        },
        CollectV::VCollected { username, secret, item_id } => {
            let treq = token_request_text(username, secret);
            match token_reply {
                ReplyV::RFailed => RunPlanV {
                    exit_ok: false,
                    failure: Some(Failure::NetworkFailure),
                    token_request: Some(treq),
                    account_requested: false,
                    favourite_request: None,
                },
                ReplyV::RBody(tb) => match spec_token_envelope(tb) {
                    None => RunPlanV {
                        exit_ok: false,
                        failure: Some(Failure::DecodeFailure),
                        token_request: Some(treq),
                        account_requested: false,
                        favourite_request: None,
                    },
                    Some(_env) => match account_reply {
                        ReplyV::RFailed => RunPlanV {
                            exit_ok: false,
                            failure: Some(Failure::NetworkFailure),
                            token_request: Some(treq),
                            account_requested: true,
                            favourite_request: None,
                        },
                        ReplyV::RBody(ab) => match spec_account_ids(ab) {
                            None => RunPlanV {
                                exit_ok: false,
                                failure: Some(Failure::DecodeFailure),
                                token_request: Some(treq),
                                account_requested: true,
                                favourite_request: None,
                            },
                            Some(ids) => if ids.len() == 0 {
                                RunPlanV {
                                    exit_ok: false,
                                    failure: Some(Failure::IndexFailure),
                                    token_request: Some(treq),
                                    account_requested: true,
                                    favourite_request: None,
                                }
                            } else {
                                RunPlanV {
                                    exit_ok: true,
                                    failure: None,
                                    token_request: Some(treq),
                                    account_requested: true,
                                    favourite_request: Some(
                                        favourite_request_text(item_id, ids[0]),
                                    ),
                                }
                            },
                        },
                    },
                },
            }
        },
    }
}

/// Runs every decision of the four stages on the given outcomes and
/// returns the complete record. The caller performs the outside work —
/// prompting, sending — exactly where the plan holds a request.
pub fn run_decisions(
    inputs: &CollectOutcome,
    token_reply: &ServiceReply,
    account_reply: &ServiceReply,
) -> (r: RunPlan)
    ensures
        plan_view(r) == run_plan(collect_view(*inputs), reply_view(*token_reply), reply_view(*account_reply)),
{
    match inputs {
        CollectOutcome::InputClosed => RunPlan {
            exit_ok: false,
            failure: Some(Failure::IoFailure),
            token_request: None,
            account_requested: false,
            favourite_request: None,
        },
        CollectOutcome::Collected { username, secret, item_id } => {
            let treq = token_request_body(username.as_str(), secret.as_str());
            match authenticate(token_reply) {
                Err(f) => RunPlan {
                    exit_ok: false,
                    failure: Some(f),
                    token_request: Some(treq),
                    account_requested: false,
                    favourite_request: None,
                },
                Ok(_env) => match current_account(account_reply) {
                    Err(f) => RunPlan {
                        exit_ok: false,
                        failure: Some(f),
                        token_request: Some(treq),
                        account_requested: true,
                        favourite_request: None,
                    },
                    Ok(account_id) => {
                        let fav = favourite_request_body(item_id.as_str(), account_id.as_str());
                        RunPlan {
                            exit_ok: true,
                            failure: None,
                            token_request: Some(treq),
                            account_requested: true,
                            favourite_request: Some(fav),
                        }
                    },
                },
            }
        },
    }
}

/// The three prompts written to the display before any value is read,
/// in order: they are fixed texts, so nothing of the secret can reach
/// the display through them.
pub fn collection_prompts() -> (r: Vec<&'static str>)
    ensures
        r@.len() == 3,
        r@[0]@ == "Input username (url) or email"@,
        r@[1]@ == "Input password"@,
        r@[2]@ == "Input the id of the character you want to add as favourite"@,
{
    let mut v: Vec<&'static str> = Vec::new();
    v.push("Input username (url) or email");
    v.push("Input password");
    v.push("Input the id of the character you want to add as favourite");
    v
}

/// The token endpoint: where the password-grant request is posted.
pub fn token_endpoint() -> (r: &'static str)
    ensures
        r@ == "https://kitsu.io/api/oauth/token"@,
{
    "https://kitsu.io/api/oauth/token"
}

/// The self-lookup endpoint: the users collection filtered to the
/// caller.
pub fn self_lookup_endpoint() -> (r: &'static str)
    ensures
        r@ == "https://kitsu.io/api/edge/users?filter[self]=true"@,
{
    "https://kitsu.io/api/edge/users?filter[self]=true"
}

/// The favourites endpoint: where the create-relationship request is
/// posted.
pub fn favourites_endpoint() -> (r: &'static str)
    ensures
        r@ == "https://kitsu.io/api/edge/favorites"@,
{
    "https://kitsu.io/api/edge/favorites"
}

/// The confirmation printed when the whole run completed.
pub fn success_message() -> (r: &'static str)
    ensures
        r@ == "Success!"@,
{
    "Success!"
}

/// The run's outcome and outbound bodies are a function of the inputs
/// and the two replies alone: two runs over the same outcomes decide
/// identically, there being no hidden state between runs.
pub proof fn lemma_rerun_identical(
    i1: CollectV,
    t1: ReplyV,
    a1: ReplyV,
    i2: CollectV,
    t2: ReplyV,
    a2: ReplyV,
)
    requires
        i1 == i2,
        t1 == t2,
        a1 == a2,
    ensures
        run_plan(i1, t1, a1) == run_plan(i2, t2, a2),
{
}

/// After a token reply that does not decode as an envelope, no further
/// stage runs: the self-lookup is never issued, no favourite request
/// exists, and the run reports a `DecodeFailure`.
pub proof fn lemma_decode_failure_halts(
    username: Seq<char>,
    secret: Seq<char>,
    item_id: Seq<char>,
    token_body: Seq<char>,
    account_reply: ReplyV,
)
    requires
        spec_token_envelope(token_body) is None,
    ensures
        ({
            let p = run_plan(
                CollectV::VCollected { username, secret, item_id },
                ReplyV::RBody(token_body),
                account_reply,
            );
            &&& !p.exit_ok
            &&& p.failure == Some(Failure::DecodeFailure)
            &&& !p.account_requested
            &&& p.favourite_request is None
        }),
{
}

/// The token stage's outcome does not depend on which credentials the
/// request carried: with the same replies, two runs over different
/// credential pairs end the same way and submit the same favourite.
pub proof fn lemma_outcome_uniform_in_credentials(
    u1: Seq<char>,
    s1: Seq<char>,
    u2: Seq<char>,
    s2: Seq<char>,
    item_id: Seq<char>,
    token_reply: ReplyV,
    account_reply: ReplyV,
)
    ensures
        ({
            let p1 = run_plan(
                CollectV::VCollected { username: u1, secret: s1, item_id },
                token_reply,
                account_reply,
            );
            let p2 = run_plan(
                CollectV::VCollected { username: u2, secret: s2, item_id },
                token_reply,
                account_reply,
            );
            &&& p1.exit_ok == p2.exit_ok
            &&& p1.failure == p2.failure
            &&& p1.account_requested == p2.account_requested
            &&& p1.favourite_request == p2.favourite_request
        }),
{
}

} // verus!
