use kitsu_fav::{
    authenticate, bearer_header, collection_prompts, current_account, current_account_from_body,
    decode_account_ids, decode_token_envelope, favourite_request_body, first_account_id,
    run_decisions, success_message, token_request_body, trimmed, CollectOutcome, Failure,
    ServiceReply,
};

fn well_formed_envelope() -> String {
    String::from(
        "{\"access_token\":\"tok-abc\",\"token_type\":\"bearer\",\"refresh_token\":\"r\",\
         \"expires_in\":3600,\"created_at\":0,\"scope\":\"public\"}",
    )
}

#[test]
fn decode_well_formed_envelope() {
    let e = decode_token_envelope(&well_formed_envelope()).unwrap();
    assert_eq!(e.access_token, "tok-abc");
    assert_eq!(e.token_type, "bearer");
    assert_eq!(e.refresh_token, "r");
    assert_eq!(e.expires_in, 3600);
    assert_eq!(e.created_at, 0);
    assert_eq!(e.scope, "public");
}

#[test]
fn decode_envelope_member_order_free() {
    let body = "{\"scope\":\"public\",\"created_at\":7,\"expires_in\":1,\
                \"refresh_token\":\"r2\",\"token_type\":\"bearer\",\"access_token\":\"t2\"}";
    let e = decode_token_envelope(body).unwrap();
    assert_eq!(e.access_token, "t2");
    assert_eq!(e.created_at, 7);
}

#[test]
fn decode_envelope_with_whitespace_and_extras() {
    let body = " {\n  \"access_token\" : \"x\" ,\n  \"token_type\": \"bearer\",\
                \"refresh_token\": \"r\", \"expires_in\": 10, \"created_at\": 2,\
                \"scope\": \"public\", \"extra\": null, \"other\": true }  ";
    let e = decode_token_envelope(body).unwrap();
    assert_eq!(e.access_token, "x");
}

#[test]
fn decode_envelope_with_escapes() {
    let body = "{\"access_token\":\"a\\\"b\\\\c\\nd\",\"token_type\":\"bearer\",\
                \"refresh_token\":\"r\",\"expires_in\":1,\"created_at\":0,\"scope\":\"s\"}";
    let e = decode_token_envelope(body).unwrap();
    assert_eq!(e.access_token, "a\"b\\c\nd");
}

#[test]
fn decode_envelope_with_unicode_escapes() {
    let body = "{\"access_token\":\"a\\u0001\\u0041\\u00e9\",\"token_type\":\"bearer\",\
                \"refresh_token\":\"r\",\"expires_in\":1,\"created_at\":0,\"scope\":\"s\"}";
    let e = decode_token_envelope(body).unwrap();
    assert_eq!(e.access_token, "a\u{1}A\u{e9}");
}

#[test]
fn surrogate_escape_is_decode_failure() {
    let body = "{\"access_token\":\"a\\ud800b\",\"token_type\":\"bearer\",\
                \"refresh_token\":\"r\",\"expires_in\":1,\"created_at\":0,\"scope\":\"s\"}";
    assert_eq!(decode_token_envelope(body).unwrap_err(), Failure::DecodeFailure);
}

#[test]
fn serde_encoded_control_chars_decode() {
    let mut fields = serde_json::Map::new();
    fields.insert(
        "access_token".to_string(),
        serde_json::Value::String("t\u{1}\u{8}\n\"x".to_string()),
    );
    fields.insert("token_type".to_string(), serde_json::Value::String("bearer".to_string()));
    fields.insert("refresh_token".to_string(), serde_json::Value::String("r".to_string()));
    fields.insert(
        "expires_in".to_string(),
        serde_json::Value::Number(serde_json::Number::from(3600u64)),
    );
    fields.insert(
        "created_at".to_string(),
        serde_json::Value::Number(serde_json::Number::from(0u64)),
    );
    fields.insert("scope".to_string(), serde_json::Value::String("public".to_string()));
    let body = serde_json::to_string(&serde_json::Value::Object(fields)).unwrap();
    let e = decode_token_envelope(&body).unwrap();
    assert_eq!(e.access_token, "t\u{1}\u{8}\n\"x");
    assert_eq!(e.expires_in, 3600);
}

#[test]
fn nested_extra_members_are_ignored() {
    let body = "{\"access_token\":\"t\",\"token_type\":\"bearer\",\"refresh_token\":\"r\",\
                \"expires_in\":1,\"created_at\":0,\"scope\":\"s\",\
                \"extra\":{\"a\":[true,null,{\"b\":1e3},-2.5],\"c\":[]},\"more\":[[0],{}]}";
    let e = decode_token_envelope(body).unwrap();
    assert_eq!(e.access_token, "t");
}

#[test]
fn malformed_nested_extra_is_decode_failure() {
    let body = "{\"access_token\":\"t\",\"token_type\":\"bearer\",\"refresh_token\":\"r\",\
                \"expires_in\":1,\"created_at\":0,\"scope\":\"s\",\"extra\":{\"a\":[1,}}";
    assert_eq!(decode_token_envelope(body).unwrap_err(), Failure::DecodeFailure);
    let body = "{\"access_token\":\"t\",\"token_type\":\"bearer\",\"refresh_token\":\"r\",\
                \"expires_in\":1,\"created_at\":0,\"scope\":\"s\",\"extra\":01}";
    assert_eq!(decode_token_envelope(body).unwrap_err(), Failure::DecodeFailure);
}

#[test]
fn error_shaped_body_is_decode_failure() {
    let body = "{\"error\":\"invalid_grant\",\"error_description\":\"bad credentials\"}";
    assert_eq!(decode_token_envelope(body).unwrap_err(), Failure::DecodeFailure);
}

#[test]
fn non_json_body_is_decode_failure() {
    assert_eq!(decode_token_envelope("not json").unwrap_err(), Failure::DecodeFailure);
    assert_eq!(decode_token_envelope("").unwrap_err(), Failure::DecodeFailure);
}

#[test]
fn wrong_member_type_is_decode_failure() {
    let body = "{\"access_token\":5,\"token_type\":\"bearer\",\"refresh_token\":\"r\",\
                \"expires_in\":1,\"created_at\":0,\"scope\":\"s\"}";
    assert_eq!(decode_token_envelope(body).unwrap_err(), Failure::DecodeFailure);
}

#[test]
fn missing_member_is_decode_failure() {
    let body = "{\"access_token\":\"t\",\"token_type\":\"bearer\",\"refresh_token\":\"r\",\
                \"expires_in\":1,\"created_at\":0}";
    assert_eq!(decode_token_envelope(body).unwrap_err(), Failure::DecodeFailure);
}

#[test]
fn duplicate_member_is_decode_failure() {
    let body = "{\"access_token\":\"t\",\"access_token\":\"t\",\"token_type\":\"bearer\",\
                \"refresh_token\":\"r\",\"expires_in\":1,\"created_at\":0,\"scope\":\"s\"}";
    assert_eq!(decode_token_envelope(body).unwrap_err(), Failure::DecodeFailure);
}

#[test]
fn trailing_text_is_decode_failure() {
    let body = "{\"access_token\":\"t\",\"token_type\":\"bearer\",\"refresh_token\":\"r\",\
                \"expires_in\":1,\"created_at\":0,\"scope\":\"s\"} x";
    assert_eq!(decode_token_envelope(body).unwrap_err(), Failure::DecodeFailure);
}

#[test]
fn numeric_overflow_is_decode_failure() {
    let body = "{\"access_token\":\"t\",\"token_type\":\"bearer\",\"refresh_token\":\"r\",\
                \"expires_in\":99999999999999999999999,\"created_at\":0,\"scope\":\"s\"}";
    assert_eq!(decode_token_envelope(body).unwrap_err(), Failure::DecodeFailure);
}

#[test]
fn fractional_number_is_decode_failure() {
    let body = "{\"access_token\":\"t\",\"token_type\":\"bearer\",\"refresh_token\":\"r\",\
                \"expires_in\":3600.5,\"created_at\":0,\"scope\":\"s\"}";
    assert_eq!(decode_token_envelope(body).unwrap_err(), Failure::DecodeFailure);
}

#[test]
fn largest_u64_is_accepted() {
    let body = "{\"access_token\":\"t\",\"token_type\":\"bearer\",\"refresh_token\":\"r\",\
                \"expires_in\":18446744073709551615,\"created_at\":0,\"scope\":\"s\"}";
    let e = decode_token_envelope(body).unwrap();
    assert_eq!(e.expires_in, u64::MAX);
}

#[test]
fn authenticate_transport_failure() {
    let r = authenticate(&ServiceReply::TransportFailed);
    assert_eq!(r.unwrap_err(), Failure::NetworkFailure);
}

#[test]
fn authenticate_reply_roundtrip() {
    let r = authenticate(&ServiceReply::Reply { body: well_formed_envelope() });
    assert_eq!(r.unwrap().access_token, "tok-abc");
}

#[test]
fn empty_data_is_index_failure() {
    assert_eq!(current_account_from_body("{\"data\": []}").unwrap_err(), Failure::IndexFailure);
    assert_eq!(current_account_from_body("{\"data\":[]}").unwrap_err(), Failure::IndexFailure);
}

#[test]
fn single_record_id_is_returned() {
    assert_eq!(current_account_from_body("{\"data\":[{\"id\":\"42\"}]}").unwrap(), "42");
}

#[test]
fn first_of_many_records_is_returned() {
    let body = "{\"data\":[{\"id\":\"1\"},{\"id\":\"2\"},{\"id\":\"3\"}]}";
    assert_eq!(current_account_from_body(body).unwrap(), "1");
    let ids = decode_account_ids(body).unwrap();
    assert_eq!(ids, vec!["1", "2", "3"]);
}

#[test]
fn record_extras_are_ignored() {
    let body = "{\"data\":[{\"type\":\"users\",\"id\":\"9\",\"seen\":true}],\"meta\":null}";
    assert_eq!(current_account_from_body(body).unwrap(), "9");
}

#[test]
fn nested_record_members_are_ignored() {
    let body = "{\"data\":[{\"id\":\"12\",\"type\":\"users\",\
                \"attributes\":{\"name\":\"x\",\"tags\":[1,2.5,-3,{}],\"bio\":null},\
                \"relationships\":{\"waifu\":{\"links\":{\"self\":\"u\"}}},\
                \"links\":{\"self\":\"u\"}}],\
                \"meta\":{\"count\":1},\"links\":{\"first\":\"u\",\"next\":null}}";
    assert_eq!(current_account_from_body(body).unwrap(), "12");
}

#[test]
fn record_without_id_is_decode_failure() {
    let body = "{\"data\":[{\"type\":\"users\"}]}";
    assert_eq!(current_account_from_body(body).unwrap_err(), Failure::DecodeFailure);
}

#[test]
fn account_body_without_data_is_decode_failure() {
    assert_eq!(current_account_from_body("{}").unwrap_err(), Failure::DecodeFailure);
    assert_eq!(current_account_from_body("{\"meta\":null}").unwrap_err(), Failure::DecodeFailure);
}

#[test]
fn current_account_transport_failure() {
    let r = current_account(&ServiceReply::TransportFailed);
    assert_eq!(r.unwrap_err(), Failure::NetworkFailure);
}

#[test]
fn first_account_id_rules() {
    let none: Vec<String> = Vec::new();
    assert_eq!(first_account_id(&none).unwrap_err(), Failure::IndexFailure);
    let some = vec![String::from("7"), String::from("8")];
    assert_eq!(first_account_id(&some).unwrap(), "7");
}

#[test]
fn token_request_body_exact() {
    assert_eq!(
        token_request_body("alice", "s3cret"),
        "{\"grant_type\":\"password\",\"username\":\"alice\",\"password\":\"s3cret\"}",
    );
}

#[test]
fn token_request_body_escapes() {
    assert_eq!(
        token_request_body("a\"b", "p\\q\nr"),
        "{\"grant_type\":\"password\",\"username\":\"a\\\"b\",\"password\":\"p\\\\q\\nr\"}",
    );
}

#[test]
fn request_bodies_parse_as_json() {
    let body = token_request_body("a\"b\u{1}", "p\\q\nr\tz");
    let v: serde_json::Value = serde_json::from_str(&body).unwrap();
    assert_eq!(v.get("grant_type").unwrap().as_str().unwrap(), "password");
    assert_eq!(v.get("username").unwrap().as_str().unwrap(), "a\"b\u{1}");
    assert_eq!(v.get("password").unwrap().as_str().unwrap(), "p\\q\nr\tz");

    let fav = favourite_request_body("7", "99");
    let v: serde_json::Value = serde_json::from_str(&fav).unwrap();
    let data = v.get("data").unwrap();
    assert_eq!(data.get("type").unwrap().as_str().unwrap(), "favorites");
    let rel = data.get("relationships").unwrap();
    let item = rel.get("item").unwrap().get("data").unwrap();
    assert_eq!(item.get("id").unwrap().as_str().unwrap(), "7");
    assert_eq!(item.get("type").unwrap().as_str().unwrap(), "characters");
    let user = rel.get("user").unwrap().get("data").unwrap();
    assert_eq!(user.get("id").unwrap().as_str().unwrap(), "99");
    assert_eq!(user.get("type").unwrap().as_str().unwrap(), "users");
}

#[test]
fn favourite_request_body_exact() {
    assert_eq!(
        favourite_request_body("7", "99"),
        "{\"data\":{\"type\":\"favorites\",\"relationships\":{\"item\":{\"data\":{\"id\":\"7\",\
         \"type\":\"characters\"}},\"user\":{\"data\":{\"id\":\"99\",\"type\":\"users\"}}}}}",
    );
}

#[test]
fn bearer_header_exact() {
    assert_eq!(bearer_header("tok-abc"), "Bearer tok-abc");
}

#[test]
fn trimmed_strips_line_ends() {
    assert_eq!(trimmed("alice\n"), "alice");
    assert_eq!(trimmed("  bob\r\n"), "bob");
    assert_eq!(trimmed("\t x y \t"), "x y");
    assert_eq!(trimmed("   "), "");
    assert_eq!(trimmed(""), "");
}

#[test]
fn trimmed_strips_unicode_whitespace() {
    assert_eq!(trimmed("\u{000B}\n"), "");
    assert_eq!(trimmed("\u{00A0}name\u{3000}"), "name");
    assert_eq!(trimmed("\u{2003}a b\u{2029}\u{0085}"), "a b");
    assert_eq!(trimmed("\u{200B}x"), "\u{200B}x");
}

fn mock_inputs() -> CollectOutcome {
    CollectOutcome::Collected {
        username: String::from("alice"),
        secret: String::from("s3cret"),
        item_id: String::from("7"),
    }
}

fn mock_self_reply() -> ServiceReply {
    ServiceReply::Reply { body: String::from("{\"data\":[{\"id\":\"99\"}]}") }
}

#[test]
fn full_run_succeeds_with_expected_bodies() {
    let plan = run_decisions(
        &mock_inputs(),
        &ServiceReply::Reply { body: well_formed_envelope() },
        &mock_self_reply(),
    );
    assert!(plan.exit_ok);
    assert_eq!(plan.failure, None);
    let token_req = plan.token_request.unwrap();
    assert_eq!(
        token_req,
        "{\"grant_type\":\"password\",\"username\":\"alice\",\"password\":\"s3cret\"}",
    );
    assert!(plan.account_requested);
    let fav = plan.favourite_request.unwrap();
    assert!(fav.contains("\"id\":\"7\""));
    assert!(fav.contains("\"id\":\"99\""));
    assert_eq!(fav, favourite_request_body("7", "99"));
    assert_eq!(success_message(), "Success!");
}

#[test]
fn full_run_twice_is_identical() {
    let run = || {
        run_decisions(
            &mock_inputs(),
            &ServiceReply::Reply { body: well_formed_envelope() },
            &mock_self_reply(),
        )
    };
    let a = run();
    let b = run();
    assert_eq!(a.exit_ok, b.exit_ok);
    assert_eq!(a.failure, b.failure);
    assert_eq!(a.token_request, b.token_request);
    assert_eq!(a.account_requested, b.account_requested);
    assert_eq!(a.favourite_request, b.favourite_request);
}

#[test]
fn decode_failure_stops_the_run() {
    let plan = run_decisions(
        &mock_inputs(),
        &ServiceReply::Reply { body: String::from("{\"error\":\"invalid_grant\"}") },
        &mock_self_reply(),
    );
    assert!(!plan.exit_ok);
    assert_eq!(plan.failure, Some(Failure::DecodeFailure));
    assert!(!plan.account_requested);
    assert_eq!(plan.favourite_request, None);
}

#[test]
fn input_failure_stops_the_run() {
    let plan = run_decisions(
        &CollectOutcome::InputClosed,
        &ServiceReply::TransportFailed,
        &ServiceReply::TransportFailed,
    );
    assert!(!plan.exit_ok);
    assert_eq!(plan.failure, Some(Failure::IoFailure));
    assert_eq!(plan.token_request, None);
    assert!(!plan.account_requested);
    assert_eq!(plan.favourite_request, None);
}

#[test]
fn empty_account_list_ends_with_index_failure() {
    let plan = run_decisions(
        &mock_inputs(),
        &ServiceReply::Reply { body: well_formed_envelope() },
        &ServiceReply::Reply { body: String::from("{\"data\": []}") },
    );
    assert!(!plan.exit_ok);
    assert_eq!(plan.failure, Some(Failure::IndexFailure));
    assert!(plan.account_requested);
    assert_eq!(plan.favourite_request, None);
}

#[test]
fn prompts_never_carry_the_secret() {
    let secret = "s3cret";
    let prompts = collection_prompts();
    assert_eq!(prompts.len(), 3);
    for p in prompts {
        assert!(!p.contains(secret));
    }
}

#[test]
fn failure_messages_are_fixed() {
    assert_eq!(Failure::IoFailure.describe(), "could not read interactive input");
    assert_eq!(Failure::NetworkFailure.describe(), "network request failed");
    assert_eq!(Failure::DecodeFailure.describe(), "response did not match the expected schema");
    assert_eq!(Failure::IndexFailure.describe(), "expected at least one account record");
}
