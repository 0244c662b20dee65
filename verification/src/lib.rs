//! Client logic for a media-tracking service's favourites flow:
//! password-grant authentication, self-lookup, and submission of a
//! favourite relationship, as pure decision logic over request and
//! response texts. All I/O lives outside this crate.

pub mod auth;
pub mod errors;
pub mod favourite;
pub mod flow;
pub mod identity;
pub mod json;
pub mod text;

pub use auth::{decode_token_envelope, token_request_body, TokenEnvelope};
pub use errors::Failure;
pub use favourite::favourite_request_body;
pub use flow::{
    authenticate, bearer_header, collection_prompts, current_account, favourites_endpoint,
    run_decisions, self_lookup_endpoint, success_message, token_endpoint, CollectOutcome, RunPlan,
    ServiceReply,
};
pub use identity::{current_account_from_body, decode_account_ids, first_account_id};
pub use text::trimmed;
