//! The favourite submitter's pure half: building the create-relationship
//! request body that binds the target item to the resolved account.
//! The submission's outcome is deliberately not gated: the orchestrator
//! reports success whether or not the service accepted it, so no decode
//! step exists for this stage.

use vstd::prelude::*;

use crate::text::{
    chars_to_string, escape_into, escape_seq, lemma_escape_plain, plain_text, str_chars,
};

verus! {

/// The create-relationship request body: a `favorites` resource
/// relating the target item (a character) to the user, both ids as
/// escaped JSON strings.
pub open spec fn favourite_request_text(item_id: Seq<char>, user_id: Seq<char>) -> Seq<char> {
    "{\"data\":{\"type\":\"favorites\",\"relationships\":{\"item\":{\"data\":{\"id\":\""@
        + escape_seq(item_id) + "\",\"type\":\"characters\"}},\"user\":{\"data\":{\"id\":\""@
        + escape_seq(user_id) + "\",\"type\":\"users\"}}}}}"@
}

/// For ids with no character needing an escape — every service id in
/// practice — the request body holds both verbatim: the item id and
/// the resolved account id stand exactly between the fixed frames.
pub proof fn lemma_favourite_body_embeds_ids(item_id: Seq<char>, user_id: Seq<char>)
    requires
        plain_text(item_id),
        plain_text(user_id),
    ensures
        favourite_request_text(item_id, user_id)
            == "{\"data\":{\"type\":\"favorites\",\"relationships\":{\"item\":{\"data\":{\"id\":\""@
            + item_id + "\",\"type\":\"characters\"}},\"user\":{\"data\":{\"id\":\""@ + user_id
            + "\",\"type\":\"users\"}}}}}"@,
{
    lemma_escape_plain(item_id);
    lemma_escape_plain(user_id);
}

/// Builds the create-relationship request body for the given item and
/// account.
pub fn favourite_request_body(item_id: &str, user_id: &str) -> (r: String)
    ensures
        r@ == favourite_request_text(item_id@, user_id@),
{
    let mut out = str_chars(
        "{\"data\":{\"type\":\"favorites\",\"relationships\":{\"item\":{\"data\":{\"id\":\"",
    );
    let it = str_chars(item_id);
    escape_into(&it, &mut out);
    let mut mid = str_chars("\",\"type\":\"characters\"}},\"user\":{\"data\":{\"id\":\"");
    out.append(&mut mid);
    let us = str_chars(user_id);
    escape_into(&us, &mut out);
    let mut tail = str_chars("\",\"type\":\"users\"}}}}}");
    out.append(&mut tail);
    assert(out@ =~= favourite_request_text(item_id@, user_id@));
    chars_to_string(&out)
}

} // verus!
