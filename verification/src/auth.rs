//! The auth client's pure half: building the password-grant request
//! body and decoding the token envelope the service returns.
//!
//! The accepted envelope text is a JSON object, with any amount of
//! surrounding whitespace; the six required members are
//! `access_token`, `token_type`, `refresh_token` (strings),
//! `expires_in`, `created_at` (unsigned integers) and `scope`
//! (string). Unknown members are ignored whatever the shape of their
//! values; a duplicate of a required member, a required member of the
//! wrong type, a missing required member, or anything outside the
//! grammar of `crate::json` makes decoding fail.

use vstd::prelude::*;

use crate::errors::Failure;
use crate::json::{
    lemma_first_non_space_bounds, lemma_scan_scalar_progress, lemma_scan_string_progress,
    scan_scalar, scan_scalar_exec, scan_string, scan_string_exec, scalar_view, Scalar, ScalarVal,
};
use crate::json::{skip_spaces, skip_value, skip_value_exec};
use crate::text::{
    chars_eq_str, chars_to_string, escape_into, escape_seq, first_non_space, str_chars,
};

verus! {

/// The token envelope produced from a successful password grant. Only
/// `access_token` is consumed downstream; it must be non-empty for the
/// later stages to be meaningful.
#[derive(Debug)]
pub struct TokenEnvelope {
    pub access_token: String,
    pub token_type: String,
    pub refresh_token: String,
    pub expires_in: u64,
    pub created_at: u64,
    pub scope: String,
}

/// The spec-level value of a token envelope.
pub ghost struct TokenEnvelopeV {
    pub access_token: Seq<char>,
    pub token_type: Seq<char>,
    pub refresh_token: Seq<char>,
    pub expires_in: u64,
    pub created_at: u64,
    pub scope: Seq<char>,
}

/// The spec-level value an executable envelope denotes.
pub open spec fn envelope_view(e: TokenEnvelope) -> TokenEnvelopeV {
    TokenEnvelopeV {
        access_token: e.access_token@,
        token_type: e.token_type@,
        refresh_token: e.refresh_token@,
        expires_in: e.expires_in,
        created_at: e.created_at,
        scope: e.scope@,
    }
}

/// The required members seen so far while scanning an envelope object.
pub ghost struct PartialEnvV {
    pub access_token: Option<Seq<char>>,
    pub token_type: Option<Seq<char>>,
    pub refresh_token: Option<Seq<char>>,
    pub expires_in: Option<u64>,
    pub created_at: Option<u64>,
    pub scope: Option<Seq<char>>,
}

/// The partial envelope with no member seen yet.
pub open spec fn empty_partial() -> PartialEnvV {
    PartialEnvV {
        access_token: None,
        token_type: None,
        refresh_token: None,
        expires_in: None,
        created_at: None,
        scope: None,
    }
}

/// Records one object member into the partial envelope: a required
/// member must have the right type and must not repeat; an unknown
/// member is ignored.
pub open spec fn record_member(p: PartialEnvV, key: Seq<char>, val: ScalarVal) -> Option<
    PartialEnvV,
> {
    if key == "access_token"@ {
        match val {
            ScalarVal::SText(x) => if p.access_token is None {
                Some(PartialEnvV { access_token: Some(x), ..p })
            } else {
                None
            },
            _ => None,
        }
    } else if key == "token_type"@ {
        match val {
            ScalarVal::SText(x) => if p.token_type is None {
                Some(PartialEnvV { token_type: Some(x), ..p })
            } else {
                None
            },
            _ => None,
        }
    } else if key == "refresh_token"@ {
        match val {
            ScalarVal::SText(x) => if p.refresh_token is None {
                Some(PartialEnvV { refresh_token: Some(x), ..p })
            } else {
                None
            },
            _ => None,
        }
    } else if key == "expires_in"@ {
        match val {
            ScalarVal::SNum(x) => if p.expires_in is None {
                Some(PartialEnvV { expires_in: Some(x), ..p })
            } else {
                None
            },
            _ => None,
        }
    } else if key == "created_at"@ {
        match val {
            ScalarVal::SNum(x) => if p.created_at is None {
                Some(PartialEnvV { created_at: Some(x), ..p })
            } else {
                None
            },
            _ => None,
        }
    } else if key == "scope"@ {
        match val {
            ScalarVal::SText(x) => if p.scope is None {
                Some(PartialEnvV { scope: Some(x), ..p })
            } else {
                None
            },
            _ => None,
        }
    } else {
        Some(p)
    }
}

/// Whether `key` is one of the envelope's required members.
pub open spec fn known_env_key(key: Seq<char>) -> bool {
    key == "access_token"@ || key == "token_type"@ || key == "refresh_token"@ || key
        == "expires_in"@ || key == "created_at"@ || key == "scope"@
}

/// Scans the members of the envelope object from `i` (at the first
/// key) up to and past the closing brace, folding them into `p`.
/// A required member's value must be a scalar of the right type; an
/// unknown member's value may have any shape and is skipped.
pub open spec fn env_members(s: Seq<char>, i: int, p: PartialEnvV) -> Option<(PartialEnvV, int)>
    decreases s.len() - i,
{
    match scan_string(s, i) {
        None => None,
        Some(kr) => {
            let j = first_non_space(s, kr.1);
            if !(j < s.len() && s[j] == ':') {
                None
            } else {
                let j2 = first_non_space(s, j + 1);
                let stepped: Option<(PartialEnvV, int)> = if known_env_key(kr.0) {
                    match scan_scalar(s, j2) {
                        None => None,
                        Some(vr) => match record_member(p, kr.0, vr.0) {
                            None => None,
                            Some(p2) => Some((p2, vr.1)),
                        },
                    }
                } else {
                    match skip_value(s, j2) {
                        None => None,
                        Some(jv) => if j2 < jv <= s.len() {
                            Some((p, jv))
                        } else {
                            None
                        },
                    }
                };
                match stepped {
                    None => None,
                    Some(st) => {
                        let j3 = first_non_space(s, st.1);
                        if j3 < s.len() && s[j3] == ',' {
                            proof {
                                lemma_scan_string_progress(s, i);
                                lemma_first_non_space_bounds(s, kr.1);
                                lemma_first_non_space_bounds(s, j + 1);
                                lemma_scan_scalar_progress(s, j2);
                                lemma_first_non_space_bounds(s, st.1);
                                lemma_first_non_space_bounds(s, j3 + 1);
                            }
                            env_members(s, first_non_space(s, j3 + 1), st.0)
                        } else if j3 < s.len() && s[j3] == '}' {
                            Some((st.0, j3 + 1))
                        } else {
                            None
                        }
                    },
                }
            }
        },
    }
}

/// The envelope made from a complete set of required members, `None`
/// if one is missing.
pub open spec fn completed(p: PartialEnvV) -> Option<TokenEnvelopeV> {
    match (p.access_token, p.token_type, p.refresh_token, p.expires_in, p.created_at, p.scope) {
        (Some(a), Some(t), Some(r), Some(e), Some(c), Some(sc)) => Some(
            TokenEnvelopeV {
                access_token: a,
                token_type: t,
                refresh_token: r,
                expires_in: e,
                created_at: c,
                scope: sc,
            },
        ),
        _ => None,
    }
}

/// The envelope denoted by the whole text `s`, `None` where `s` is not
/// an envelope of the accepted grammar.
pub open spec fn spec_token_envelope(s: Seq<char>) -> Option<TokenEnvelopeV> {
    let i = first_non_space(s, 0);
    if !(i < s.len() && s[i] == '{') {
        None
    } else {
        match env_members(s, first_non_space(s, i + 1), empty_partial()) {
            None => None,
            Some(r) => {
                if first_non_space(s, r.1) == s.len() {
                    completed(r.0)
                } else {
                    None
                }
            },
        }
    }
}

/// The required members seen so far, as executable data.
struct PartialEnv {
    access_token: Option<Vec<char>>,
    token_type: Option<Vec<char>>,
    refresh_token: Option<Vec<char>>,
    expires_in: Option<u64>,
    created_at: Option<u64>,
    scope: Option<Vec<char>>,
}

/// The spec-level value of an executable partial envelope.
spec fn partial_view(p: PartialEnv) -> PartialEnvV {
    PartialEnvV {
        access_token: match p.access_token {
            Some(v) => Some(v@),
            None => None,
        },
        token_type: match p.token_type {
            Some(v) => Some(v@),
            None => None,
        },
        refresh_token: match p.refresh_token {
            Some(v) => Some(v@),
            None => None,
        },
        expires_in: p.expires_in,
        created_at: p.created_at,
        scope: match p.scope {
            Some(v) => Some(v@),
            None => None,
        },
    }
}

/// Executable mirror of `record_member`.
fn record_member_exec(p: PartialEnv, key: &Vec<char>, val: Scalar) -> (r: Option<PartialEnv>)
    ensures
        match r {
            Some(p2) => record_member(partial_view(p), key@, scalar_view(val)) == Some(
                partial_view(p2),
            ),
            None => record_member(partial_view(p), key@, scalar_view(val)) is None,
        },
{
    if chars_eq_str(key, "access_token") {
        match val {
            Scalar::Text(x) => if p.access_token.is_none() {
                Some(PartialEnv { access_token: Some(x), ..p })
            } else {
                None
            },
            _ => None,
        }
    } else if chars_eq_str(key, "token_type") {
        match val {
            Scalar::Text(x) => if p.token_type.is_none() {
                Some(PartialEnv { token_type: Some(x), ..p })
            } else {
                None
            },
            _ => None,
        }
    } else if chars_eq_str(key, "refresh_token") {
        match val {
            Scalar::Text(x) => if p.refresh_token.is_none() {
                Some(PartialEnv { refresh_token: Some(x), ..p })
            } else {
                None
            },
            _ => None,
        }
    } else if chars_eq_str(key, "expires_in") {
        match val {
            Scalar::Num(x) => if p.expires_in.is_none() {
                Some(PartialEnv { expires_in: Some(x), ..p })
            } else {
                None
            },
            _ => None,
        }
    } else if chars_eq_str(key, "created_at") {
        match val {
            Scalar::Num(x) => if p.created_at.is_none() {
                Some(PartialEnv { created_at: Some(x), ..p })
            } else {
                None
            },
            _ => None,
        }
    } else if chars_eq_str(key, "scope") {
        match val {
            Scalar::Text(x) => if p.scope.is_none() {
                Some(PartialEnv { scope: Some(x), ..p })
            } else {
                None
            },
            _ => None,
        }
    } else {
        Some(p)
    }
}

/// Executable mirror of `env_members`.
fn env_members_exec(v: &Vec<char>, i: usize, p: PartialEnv) -> (r: Option<(PartialEnv, usize)>)
    requires
        i <= v@.len(),
    ensures
        match r {
            Some(q) => env_members(v@, i as int, partial_view(p)) == Some(
                (partial_view(q.0), q.1 as int),
            ) && i < q.1 <= v@.len(),
            None => env_members(v@, i as int, partial_view(p)) is None,
        },
    decreases v@.len() - i,
{
    let n = v.len();
    let kr = match scan_string_exec(v, i) {
        None => {
            return None;
        },
        Some(kr) => kr,
    };
    let j = skip_spaces(v, kr.1);
    if !(j < n && v[j] == ':') {
        return None;
    }
    let j2 = skip_spaces(v, j + 1);
    let known = chars_eq_str(&kr.0, "access_token") || chars_eq_str(&kr.0, "token_type")
        || chars_eq_str(&kr.0, "refresh_token") || chars_eq_str(&kr.0, "expires_in")
        || chars_eq_str(&kr.0, "created_at") || chars_eq_str(&kr.0, "scope");
    let (p2, after): (PartialEnv, usize) = if known {
        let vr = match scan_scalar_exec(v, j2) {
            None => {
                return None;
            },
            Some(vr) => vr,
        };
        match record_member_exec(p, &kr.0, vr.0) {
            None => {
                return None;
            },
            Some(p2) => (p2, vr.1),
        }
    } else {
        match skip_value_exec(v, j2) {
            None => {
                return None;
            },
            Some(jv) => (p, jv),
        }
    };
    let j3 = skip_spaces(v, after);
    if j3 < n && v[j3] == ',' {
        let i2 = skip_spaces(v, j3 + 1);
        env_members_exec(v, i2, p2)
    } else if j3 < n && v[j3] == '}' {
        Some((p2, j3 + 1))
    } else {
        None
    }
}

/// Decodes the token endpoint's response body as a token envelope;
/// every body outside the accepted grammar, including an error-shaped
/// reply from the service, is a `DecodeFailure`.
pub fn decode_token_envelope(body: &str) -> (r: Result<TokenEnvelope, Failure>)
    ensures
        match spec_token_envelope(body@) {
            Some(e) => r matches Ok(t) && envelope_view(t) == e,
            None => r == Err::<TokenEnvelope, Failure>(Failure::DecodeFailure),
        },
{
    let v = str_chars(body);
    let n = v.len();
    let i = skip_spaces(&v, 0);
    if !(i < n && v[i] == '{') {
        return Err(Failure::DecodeFailure);
    }
    let empty = PartialEnv {
        access_token: None,
        token_type: None,
        refresh_token: None,
        expires_in: None,
        created_at: None,
        scope: None,
    };
    let j = skip_spaces(&v, i + 1);
    match env_members_exec(&v, j, empty) {
        None => Err(Failure::DecodeFailure),
        Some((p, k)) => {
            let t = skip_spaces(&v, k);
            if t != n {
                return Err(Failure::DecodeFailure);
            }
            match (p.access_token, p.token_type, p.refresh_token, p.expires_in, p.created_at,
                p.scope) {
                (Some(a), Some(tt), Some(rt), Some(e), Some(c), Some(sc)) => Ok(
                    TokenEnvelope {
                        access_token: chars_to_string(&a),
                        token_type: chars_to_string(&tt),
                        refresh_token: chars_to_string(&rt),
                        expires_in: e,
                        created_at: c,
                        scope: chars_to_string(&sc),
                    },
                ),
                _ => Err(Failure::DecodeFailure),
            }
        },
    }
}

/// The password-grant request body for the given credentials: a JSON
/// object with `grant_type` fixed to `password` and the credentials as
/// escaped JSON strings.
pub open spec fn token_request_text(username: Seq<char>, secret: Seq<char>) -> Seq<char> {
    "{\"grant_type\":\"password\",\"username\":\""@ + escape_seq(username)
        + "\",\"password\":\""@ + escape_seq(secret) + "\"}"@
}

/// For credentials with no character needing an escape, the request
/// body carries both verbatim between the fixed frames: what is sent
/// is exactly what was collected.
pub proof fn lemma_token_body_embeds_credentials(username: Seq<char>, secret: Seq<char>)
    requires
        crate::text::plain_text(username),
        crate::text::plain_text(secret),
    ensures
        token_request_text(username, secret) == "{\"grant_type\":\"password\",\"username\":\""@
            + username + "\",\"password\":\""@ + secret + "\"}"@,
{
    crate::text::lemma_escape_plain(username);
    crate::text::lemma_escape_plain(secret);
}

/// Builds the password-grant request body for the given credentials.
pub fn token_request_body(username: &str, secret: &str) -> (r: String)
    ensures
        r@ == token_request_text(username@, secret@),
{
    let mut out = str_chars("{\"grant_type\":\"password\",\"username\":\"");
    let u = str_chars(username);
    escape_into(&u, &mut out);
    let mut mid = str_chars("\",\"password\":\"");
    out.append(&mut mid);
    let s = str_chars(secret);
    escape_into(&s, &mut out);
    let mut tail = str_chars("\"}");
    out.append(&mut tail);
    assert(out@ =~= token_request_text(username@, secret@));
    chars_to_string(&out)
}

} // verus!
