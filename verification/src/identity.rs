//! The identity resolver's pure half: decoding the self-lookup
//! response — a JSON object whose `data` member is an array of
//! records, each with a string `id` — and the rule that the caller's
//! account is the id of the first record, an empty list being an
//! explicit failure.
//!
//! As in `crate::auth`, members other than the required ones are
//! ignored whatever the shape of their values.

use vstd::prelude::*;

use crate::errors::Failure;
use crate::json::{
    lemma_first_non_space_bounds, lemma_scan_scalar_progress, lemma_scan_string_progress,
    scan_scalar, scan_scalar_exec, scan_string, scan_string_exec, skip_spaces, skip_value,
    skip_value_exec, Scalar, ScalarVal,
};
use crate::text::{chars_eq_str, chars_to_string, first_non_space, str_chars};

verus! {

/// The spec-level values of a vector of strings.
pub open spec fn strings_view(v: Seq<String>) -> Seq<Seq<char>> {
    Seq::new(v.len(), |i: int| v[i]@)
}

/// Scans the members of one record object from `i` (at the first key)
/// up to and past the closing brace. `found` is the `id` seen so far;
/// a duplicate `id`, or an `id` that is not a string, fails; members
/// other than `id` may have values of any shape and are skipped.
pub open spec fn id_members(s: Seq<char>, i: int, found: Option<Seq<char>>) -> Option<
    (Option<Seq<char>>, int),
>
    decreases s.len() - i,
{
    match scan_string(s, i) {
        None => None,
        Some(kr) => {
            let j = first_non_space(s, kr.1);
            if !(j < s.len() && s[j] == ':') {
                None
            } else {
                let j2 = first_non_space(s, j + 1);
                let stepped: Option<(Option<Seq<char>>, int)> = if kr.0 == "id"@ {
                    match scan_scalar(s, j2) {
                        None => None,
                        Some(vr) => match (vr.0, found) {
                            (ScalarVal::SText(x), None) => Some((Some(x), vr.1)),
                            _ => None,
                        },
                    }
                } else {
                    match skip_value(s, j2) {
                        None => None,
                        Some(jv) => if j2 < jv <= s.len() {
                            Some((found, jv))
                        } else {
                            None
                        },
                    }
                };
                match stepped {
                    None => None,
                    Some(st) => {
                        let j3 = first_non_space(s, st.1);
                        if j3 < s.len() && s[j3] == ',' {
                            proof {
                                lemma_scan_string_progress(s, i);
                                lemma_first_non_space_bounds(s, kr.1);
                                lemma_first_non_space_bounds(s, j + 1);
                                lemma_scan_scalar_progress(s, j2);
                                lemma_first_non_space_bounds(s, st.1);
                                lemma_first_non_space_bounds(s, j3 + 1);
                            }
                            id_members(s, first_non_space(s, j3 + 1), st.0)
                        } else if j3 < s.len() && s[j3] == '}' {
                            Some((st.0, j3 + 1))
                        } else {
                            None
                        }
                    },
                }
            }
        },
    }
}

/// Scans one record object starting at `i` (at the opening brace) and
/// yields its `id`; a record without an `id` fails.
pub open spec fn scan_record(s: Seq<char>, i: int) -> Option<(Seq<char>, int)> {
    if !(0 <= i < s.len() && s[i] == '{') {
        None
    } else {
        match id_members(s, first_non_space(s, i + 1), None) {
            Some((Some(x), j)) => Some((x, j)),
            _ => None,
        }
    }
}

/// A successful record-member scan always moves forward and stays in
/// bounds.
pub proof fn lemma_id_members_progress(s: Seq<char>, i: int, found: Option<Seq<char>>)
    ensures
        id_members(s, i, found) matches Some(r) ==> i < r.1 <= s.len(),
    decreases s.len() - i,
{
    match scan_string(s, i) {
        None => {},
        Some(kr) => {
            lemma_scan_string_progress(s, i);
            let j = first_non_space(s, kr.1);
            if j < s.len() && s[j] == ':' {
                lemma_first_non_space_bounds(s, kr.1);
                let j2 = first_non_space(s, j + 1);
                lemma_first_non_space_bounds(s, j + 1);
                lemma_scan_scalar_progress(s, j2);
                let stepped: Option<(Option<Seq<char>>, int)> = if kr.0 == "id"@ {
                    match scan_scalar(s, j2) {
                        None => None,
                        Some(vr) => match (vr.0, found) {
                            (ScalarVal::SText(x), None) => Some((Some(x), vr.1)),
                            _ => None,
                        },
                    }
                } else {
                    match skip_value(s, j2) {
                        None => None,
                        Some(jv) => if j2 < jv <= s.len() {
                            Some((found, jv))
                        } else {
                            None
                        },
                    }
                };
                match stepped {
                    None => {},
                    Some(st) => {
                        let j3 = first_non_space(s, st.1);
                        lemma_first_non_space_bounds(s, st.1);
                        if j3 < s.len() && s[j3] == ',' {
                            lemma_first_non_space_bounds(s, j3 + 1);
                            lemma_id_members_progress(s, first_non_space(s, j3 + 1), st.0);
                        }
                    },
                }
            }
        },
    }
}

/// A successful record scan always moves forward and stays in bounds.
pub proof fn lemma_scan_record_progress(s: Seq<char>, i: int)
    ensures
        scan_record(s, i) matches Some(r) ==> i < r.1 <= s.len(),
{
    if 0 <= i < s.len() && s[i] == '{' {
        lemma_first_non_space_bounds(s, i + 1);
        lemma_id_members_progress(s, first_non_space(s, i + 1), None);
    }
}

/// Scans the records of a non-empty array from `i` (at the first
/// record's opening brace) up to and past the closing bracket,
/// appending their ids to `acc`.
pub open spec fn scan_records(s: Seq<char>, i: int, acc: Seq<Seq<char>>) -> Option<
    (Seq<Seq<char>>, int),
>
    decreases s.len() - i,
{
    match scan_record(s, i) {
        None => None,
        Some(rr) => {
            let j = first_non_space(s, rr.1);
            if j < s.len() && s[j] == ',' {
                proof {
                    lemma_scan_record_progress(s, i);
                    lemma_first_non_space_bounds(s, rr.1);
                    lemma_first_non_space_bounds(s, j + 1);
                }
                scan_records(s, first_non_space(s, j + 1), acc.push(rr.0))
            } else if j < s.len() && s[j] == ']' {
                Some((acc.push(rr.0), j + 1))
            } else {
                None
            }
        },
    }
}

/// Scans an array of records starting at `i` (at the opening bracket).
pub open spec fn scan_id_array(s: Seq<char>, i: int) -> Option<(Seq<Seq<char>>, int)> {
    if !(0 <= i < s.len() && s[i] == '[') {
        None
    } else {
        let j = first_non_space(s, i + 1);
        if j < s.len() && s[j] == ']' {
            Some((Seq::empty(), j + 1))
        } else {
            scan_records(s, j, Seq::empty())
        }
    }
}

/// Scans the members of the top-level object from `i` (at the first
/// key) up to and past the closing brace. The `data` member must be an
/// array of records and must not repeat; other members with scalar
/// values are ignored.
pub open spec fn data_members(s: Seq<char>, i: int, found: Option<Seq<Seq<char>>>) -> Option<
    (Option<Seq<Seq<char>>>, int),
>
    decreases s.len() - i,
{
    match scan_string(s, i) {
        None => None,
        Some(kr) => {
            let j = first_non_space(s, kr.1);
            if !(j < s.len() && s[j] == ':') {
                None
            } else {
                let j2 = first_non_space(s, j + 1);
                let stepped: Option<(Option<Seq<Seq<char>>>, int)> = if kr.0 == "data"@ {
                    if found is Some {
                        None
                    } else {
                        match scan_id_array(s, j2) {
                            None => None,
                            Some(ar) => Some((Some(ar.0), ar.1)),
                        }
                    }
                } else {
                    match skip_value(s, j2) {
                        None => None,
                        Some(jv) => if j2 < jv <= s.len() {
                            Some((found, jv))
                        } else {
                            None
                        },
                    }
                };
                match stepped {
                    None => None,
                    Some(st) => {
                        let j3 = first_non_space(s, st.1);
                        if j3 < s.len() && s[j3] == ',' {
                            proof {
                                lemma_scan_string_progress(s, i);
                                lemma_first_non_space_bounds(s, kr.1);
                                lemma_first_non_space_bounds(s, j + 1);
                                lemma_scan_id_array_progress(s, j2);
                                lemma_first_non_space_bounds(s, st.1);
                                lemma_first_non_space_bounds(s, j3 + 1);
                            }
                            data_members(s, first_non_space(s, j3 + 1), st.0)
                        } else if j3 < s.len() && s[j3] == '}' {
                            Some((st.0, j3 + 1))
                        } else {
                            None
                        }
                    },
                }
            }
        },
    }
}

/// A successful array scan always moves forward and stays in bounds.
pub proof fn lemma_scan_records_progress(s: Seq<char>, i: int, acc: Seq<Seq<char>>)
    ensures
        scan_records(s, i, acc) matches Some(r) ==> i < r.1 <= s.len(),
    decreases s.len() - i,
{
    match scan_record(s, i) {
        None => {},
        Some(rr) => {
            lemma_scan_record_progress(s, i);
            let j = first_non_space(s, rr.1);
            lemma_first_non_space_bounds(s, rr.1);
            if j < s.len() && s[j] == ',' {
                lemma_first_non_space_bounds(s, j + 1);
                lemma_scan_records_progress(s, first_non_space(s, j + 1), acc.push(rr.0));
            }
        },
    }
}

/// A successful array scan always moves forward and stays in bounds.
pub proof fn lemma_scan_id_array_progress(s: Seq<char>, i: int)
    ensures
        scan_id_array(s, i) matches Some(r) ==> i < r.1 <= s.len(),
{
    if 0 <= i < s.len() && s[i] == '[' {
        let j = first_non_space(s, i + 1);
        lemma_first_non_space_bounds(s, i + 1);
        if !(j < s.len() && s[j] == ']') {
            lemma_scan_records_progress(s, j, Seq::empty());
        }
    }
}

/// The account ids denoted by the whole text `s`, in order, `None`
/// where `s` is not a self-lookup reply of the accepted grammar.
pub open spec fn spec_account_ids(s: Seq<char>) -> Option<Seq<Seq<char>>> {
    let i = first_non_space(s, 0);
    if !(i < s.len() && s[i] == '{') {
        None
    } else {
        match data_members(s, first_non_space(s, i + 1), None) {
            Some((Some(ids), j)) => {
                if first_non_space(s, j) == s.len() {
                    Some(ids)
                } else {
                    None
                }
            },
            _ => None,
        }
    }
}

/// Executable mirror of `id_members`.
fn id_members_exec(v: &Vec<char>, i: usize, found: Option<Vec<char>>) -> (r: Option<
    (Option<Vec<char>>, usize),
>)
    requires
        i <= v@.len(),
    ensures
        match r {
            Some(q) => id_members(v@, i as int, opt_chars_view(found)) == Some(
                (opt_chars_view(q.0), q.1 as int),
            ) && i < q.1 <= v@.len(),
            None => id_members(v@, i as int, opt_chars_view(found)) is None,
        },
    decreases v@.len() - i,
{
    let n = v.len();
    let kr = match scan_string_exec(v, i) {
        None => {
            return None;
        },
        Some(kr) => kr,
    };
    let j = skip_spaces(v, kr.1);
    if !(j < n && v[j] == ':') {
        return None;
    }
    let j2 = skip_spaces(v, j + 1);
    let (f2, after): (Option<Vec<char>>, usize) = if chars_eq_str(&kr.0, "id") {
        let vr = match scan_scalar_exec(v, j2) {
            None => {
                return None;
            },
            Some(vr) => vr,
        };
        match (vr.0, found) {
            (Scalar::Text(x), None) => (Some(x), vr.1),
            _ => {
                return None;
            },
        }
    } else {
        match skip_value_exec(v, j2) {
            None => {
                return None;
            },
            Some(jv) => (found, jv),
        }
    };
    let j3 = skip_spaces(v, after);
    if j3 < n && v[j3] == ',' {
        let i2 = skip_spaces(v, j3 + 1);
        id_members_exec(v, i2, f2)
    } else if j3 < n && v[j3] == '}' {
        Some((f2, j3 + 1))
    } else {
        None
    }
}

/// The spec-level value of an optional character vector.
spec fn opt_chars_view(o: Option<Vec<char>>) -> Option<Seq<char>> {
    match o {
        Some(v) => Some(v@),
        None => None,
    }
}

/// Executable mirror of `scan_record`.
fn scan_record_exec(v: &Vec<char>, i: usize) -> (r: Option<(Vec<char>, usize)>)
    requires
        i <= v@.len(),
    ensures
        match r {
            Some((x, j)) => scan_record(v@, i as int) == Some((x@, j as int)) && i < j <= v@.len(),
            None => scan_record(v@, i as int) is None,
        },
{
    let n = v.len();
    if !(i < n && v[i] == '{') {
        return None;
    }
    let j = skip_spaces(v, i + 1);
    match id_members_exec(v, j, None) {
        Some((Some(x), k)) => Some((x, k)),
        _ => None,
    }
}

/// Executable mirror of `scan_records`, accumulating ids as strings.
fn scan_records_exec(v: &Vec<char>, i: usize, acc: Vec<String>) -> (r: Option<(Vec<String>, usize)>)
    requires
        i <= v@.len(),
    ensures
        match r {
            Some((ids, j)) => scan_records(v@, i as int, strings_view(acc@)) == Some(
                (strings_view(ids@), j as int),
            ) && i < j <= v@.len(),
            None => scan_records(v@, i as int, strings_view(acc@)) is None,
        },
    decreases v@.len() - i,
{
    let n = v.len();
    let rr = match scan_record_exec(v, i) {
        None => {
            return None;
        },
        Some(rr) => rr,
    };
    let j = skip_spaces(v, rr.1);
    let mut acc2 = acc;
    acc2.push(chars_to_string(&rr.0));
    assert(strings_view(acc2@) =~= strings_view(acc@).push(rr.0@));
    if j < n && v[j] == ',' {
        let i2 = skip_spaces(v, j + 1);
        scan_records_exec(v, i2, acc2)
    } else if j < n && v[j] == ']' {
        Some((acc2, j + 1))
    } else {
        None
    }
}

/// Executable mirror of `scan_id_array`.
fn scan_id_array_exec(v: &Vec<char>, i: usize) -> (r: Option<(Vec<String>, usize)>)
    requires
        i <= v@.len(),
    ensures
        match r {
            Some((ids, j)) => scan_id_array(v@, i as int) == Some((strings_view(ids@), j as int))
                && i < j <= v@.len(),
            None => scan_id_array(v@, i as int) is None,
        },
{
    let n = v.len();
    if !(i < n && v[i] == '[') {
        return None;
    }
    let j = skip_spaces(v, i + 1);
    if j < n && v[j] == ']' {
        let ids: Vec<String> = Vec::new();
        assert(strings_view(ids@) =~= Seq::<Seq<char>>::empty());
        Some((ids, j + 1))
    } else {
        let ids: Vec<String> = Vec::new();
        assert(strings_view(ids@) =~= Seq::<Seq<char>>::empty());
        scan_records_exec(v, j, ids)
    }
}

/// Executable mirror of `data_members`.
fn data_members_exec(v: &Vec<char>, i: usize, found: Option<Vec<String>>) -> (r: Option<
    (Option<Vec<String>>, usize),
>)
    requires
        i <= v@.len(),
    ensures
        match r {
            Some(q) => data_members(v@, i as int, opt_ids_view(found)) == Some(
                (opt_ids_view(q.0), q.1 as int),
            ) && i < q.1 <= v@.len(),
            None => data_members(v@, i as int, opt_ids_view(found)) is None,
        },
    decreases v@.len() - i,
{
    let n = v.len();
    let kr = match scan_string_exec(v, i) {
        None => {
            return None;
        },
        Some(kr) => kr,
    };
    let j = skip_spaces(v, kr.1);
    if !(j < n && v[j] == ':') {
        return None;
    }
    let j2 = skip_spaces(v, j + 1);
    let (f2, after): (Option<Vec<String>>, usize) = if chars_eq_str(&kr.0, "data") {
        if found.is_some() {
            return None;
        }
        match scan_id_array_exec(v, j2) {
            None => {
                return None;
            },
            Some((ids, k)) => (Some(ids), k),
        }
    } else {
        match skip_value_exec(v, j2) {
            None => {
                return None;
            },
            Some(jv) => (found, jv),
        }
    };
    let j3 = skip_spaces(v, after);
    if j3 < n && v[j3] == ',' {
        let i2 = skip_spaces(v, j3 + 1);
        data_members_exec(v, i2, f2)
    } else if j3 < n && v[j3] == '}' {
        Some((f2, j3 + 1))
    } else {
        None
    }
}

/// The spec-level value of an optional id vector.
spec fn opt_ids_view(o: Option<Vec<String>>) -> Option<Seq<Seq<char>>> {
    match o {
        Some(v) => Some(strings_view(v@)),
        None => None,
    }
}

/// Decodes the self-lookup response body as the list of account ids;
/// every body outside the accepted grammar is a `DecodeFailure`.
pub fn decode_account_ids(body: &str) -> (r: Result<Vec<String>, Failure>)
    ensures
        match spec_account_ids(body@) {
            Some(ids) => r matches Ok(v) && strings_view(v@) == ids,
            None => r == Err::<Vec<String>, Failure>(Failure::DecodeFailure),
        },
{
    let v = str_chars(body);
    let n = v.len();
    let i = skip_spaces(&v, 0);
    if !(i < n && v[i] == '{') {
        return Err(Failure::DecodeFailure);
    }
    let j = skip_spaces(&v, i + 1);
    match data_members_exec(&v, j, None) {
        Some((Some(ids), k)) => {
            let t = skip_spaces(&v, k);
            if t != n {
                return Err(Failure::DecodeFailure);
            }
            Ok(ids)
        },
        _ => Err(Failure::DecodeFailure),
    }
}

/// The id of the first account record: the resolved identity. An
/// empty list is an explicit `IndexFailure`, never a default.
pub fn first_account_id(ids: &Vec<String>) -> (r: Result<String, Failure>)
    ensures
        ids@.len() == 0 <==> r == Err::<String, Failure>(Failure::IndexFailure),
        ids@.len() > 0 ==> (r matches Ok(s) && s@ == ids@[0]@),
{
    if ids.len() == 0 {
        Err(Failure::IndexFailure)
    } else {
        Ok(ids[0].clone())
    }
}

/// Resolves the caller's account id from the self-lookup response
/// body: the first record's id; a body outside the accepted grammar is
/// a `DecodeFailure`, an empty record list an `IndexFailure`.
pub fn current_account_from_body(body: &str) -> (r: Result<String, Failure>)
    ensures
        match spec_account_ids(body@) {
            None => r == Err::<String, Failure>(Failure::DecodeFailure),
            Some(ids) => if ids.len() == 0 {
                r == Err::<String, Failure>(Failure::IndexFailure)
            } else {
                r matches Ok(s) && s@ == ids[0]
            },
        },
{
    match decode_account_ids(body) {
        Err(f) => Err(f),
        Ok(ids) => first_account_id(&ids),
    }
}

} // verus!
