use marketstate_codex_connector::account::{
    account_identity, bearer_token, curl_arguments, curl_config, load_owner_binding,
    validate_marketstate_token, CurlOutcome, OwnerBinding,
};
use marketstate_codex_connector::codec::parse_json;
use marketstate_codex_connector::owner::{
    authorize_marketstate_user, check_identity, confirmed_identity, owner_record,
    owner_state_unavailable, save_failure, session_identity, signed_out_of_codex, unlink_marketstate_user, IdentityCheck, OwnerState,
    SaveStage,
};
use marketstate_codex_connector::request::Headers;

fn headers(value: &str) -> Headers {
    let mut headers = Headers::new();
    headers.insert("authorization".to_string(), value.to_string());
    headers
}

fn binding(user_id: &str, email: &str) -> OwnerBinding {
    OwnerBinding { user_id: user_id.to_string(), email: email.to_string() }
}

const SECOND: u64 = 1_000_000_000;

#[test]
fn a_bearer_token_is_taken_from_its_header() {
    assert_eq!(bearer_token(&headers("Bearer abc")), Ok("abc"));
    assert_eq!(bearer_token(&headers("bearer  a b ")), Ok("a b"));
    let longest = "a".repeat(16384);
    assert_eq!(bearer_token(&headers(&format!("Bearer {}", longest))), Ok(longest.as_str()));
}

#[test]
fn headers_without_a_token_are_refused() {
    assert_eq!(
        bearer_token(&Headers::new()),
        Err("Sign in to MarketState before using the Codex connector.".to_string())
    );
    for value in ["", "Bearer", "Bearer   ", "BEARER abc", "Basic abc", " Bearer abc"] {
        assert_eq!(
            bearer_token(&headers(value)),
            Err("The MarketState authorization header is invalid.".to_string()),
            "{}",
            value
        );
    }
    for token in ["a\u{1}b", "a\nb", "a\u{85}b", &"a".repeat(16385)] {
        assert_eq!(
            bearer_token(&headers(&format!("Bearer {}", token))),
            Err("The MarketState access token is invalid.".to_string())
        );
    }
}

#[test]
fn the_account_service_is_asked_by_curl() {
    assert_eq!(
        curl_arguments(),
        vec![
            "--silent",
            "--show-error",
            "--fail-with-body",
            "--max-time",
            "10",
            "--header",
            "apikey: sb_publishable_xSXpGiFapUycMFTZzlPBzA_OfcSdvg5",
            "--config",
            "-",
            "https://rlvpjjbaommdeyzmwqqd.supabase.co/auth/v1/user",
        ]
    );
    assert_eq!(curl_config("abc"), "header = \"Authorization: Bearer abc\"\n");
    assert_eq!(
        curl_config("a\"b\\c"),
        "header = \"Authorization: Bearer a\\\"b\\\\c\"\n"
    );
}

#[test]
fn the_account_names_its_user() {
    let identity = |text: &str| {
        account_identity(&parse_json(text.as_bytes()).unwrap())
            .map(|user| (user.user_id, user.email))
    };
    assert_eq!(
        identity(r#"{"id":" u1 ","email":" a@b.c "}"#),
        Ok(("u1".to_string(), "a@b.c".to_string()))
    );
    assert_eq!(identity(r#"{"id":"u1"}"#), Ok(("u1".to_string(), "".to_string())));
    assert_eq!(identity(r#"{"id":"u1","email":5}"#), Ok(("u1".to_string(), "".to_string())));
    for text in [r#"{"id":"  "}"#, r#"{"id":7}"#, r#"{"user_id":"u1"}"#, "[]"] {
        assert_eq!(identity(text), Err("MarketState did not return a user identity.".to_string()));
    }
}

#[test]
fn the_answer_of_the_account_service_is_judged() {
    let judge = |success: bool, output: &[u8]| {
        validate_marketstate_token(CurlOutcome::Finished { success, output: output.to_vec() })
            .map(|user| user.user_id)
    };
    assert_eq!(judge(true, br#"{"id":"u1"}"#), Ok("u1".to_string()));
    assert_eq!(
        judge(false, br#"{"id":"u1"}"#),
        Err("Your MarketState session is invalid or expired. Sign in again and retry.".to_string())
    );
    assert_eq!(
        judge(true, b"oops"),
        Err("MarketState returned an invalid account response.".to_string())
    );
    assert_eq!(
        validate_marketstate_token(CurlOutcome::NotRun("no curl".to_string())).err().unwrap(),
        "Unable to validate the MarketState account: no curl"
    );
    let failure = session_identity(Err("gone".to_string())).err().unwrap();
    assert_eq!(
        (failure.status, failure.reason, failure.code, failure.message.as_str()),
        (401, "Unauthorized", "marketstate_session_invalid", "gone")
    );
    assert_eq!(session_identity(Ok(binding("u", ""))).ok().unwrap().user_id, "u");
}

#[test]
fn a_blank_record_names_no_owner() {
    assert!(load_owner_binding(None).is_none());
    assert!(load_owner_binding(Some(binding("  ", "a@b.c"))).is_none());
    assert_eq!(load_owner_binding(Some(binding(" u ", ""))).unwrap().user_id, " u ");
}

#[test]
fn the_question_who_asks_is_settled() {
    let confirmed = || CurlOutcome::Finished { success: true, output: br#"{"id":"u1"}"#.to_vec() };
    let not_asked = || CurlOutcome::NotRun("".to_string());
    let token = |name: &str| name.to_string();
    let known = IdentityCheck::Known { access_token: token("t"), identity: binding("u2", "b") };
    let (access_token, user) = confirmed_identity(known, not_asked()).ok().unwrap();
    assert_eq!((access_token.as_str(), user.user_id.as_str()), ("t", "u2"));

    let ask = IdentityCheck::Ask { access_token: token("t") };
    let (access_token, user) = confirmed_identity(ask, confirmed()).ok().unwrap();
    assert_eq!((access_token.as_str(), user.user_id.as_str()), ("t", "u1"));

    let ask = IdentityCheck::Ask { access_token: token("t") };
    let failure = confirmed_identity(ask, not_asked()).err().unwrap();
    assert_eq!((failure.status, failure.code), (401, "marketstate_session_invalid"));
    assert_eq!(failure.message, "Unable to validate the MarketState account: ");

    let denied = IdentityCheck::Denied(owner_state_unavailable());
    assert_eq!(confirmed_identity(denied, confirmed()).err().unwrap().status, 500);
}

#[test]
fn the_record_holds_the_identity_and_the_email_address() {
    let bytes = owner_record(&binding("u\"1", "a@b.c")).unwrap();
    assert_eq!(
        String::from_utf8(bytes.clone()).unwrap(),
        "{\n  \"user_id\": \"u\\\"1\",\n  \"email\": \"a@b.c\"\n}"
    );
    let record = parse_json(&bytes).unwrap();
    assert_eq!(record.text_in("user_id"), Some("u\"1"));
    assert_eq!(record.text_in("email"), Some("a@b.c"));
}

#[test]
fn a_confirmed_user_is_loaded_again() {
    let output = br#"{"id":" u1 ","email":"a@b.c"}"#.to_vec();
    let user = validate_marketstate_token(CurlOutcome::Finished { success: true, output }).unwrap();
    let loaded = load_owner_binding(Some(user)).unwrap();
    assert_eq!((loaded.user_id.as_str(), loaded.email.as_str()), ("u1", "a@b.c"));
}

#[test]
fn the_first_user_claims_the_installation() {
    let mut owner = OwnerState::new(None);
    assert!(owner.is_unclaimed());
    let answer = authorize_marketstate_user(&mut owner, "t", binding("u1", "a"), Ok(()), 0);
    assert_eq!(answer.ok().unwrap().user_id, "u1");
    assert!(!owner.is_unclaimed());

    let failure =
        authorize_marketstate_user(&mut owner, "x", binding("u2", "b"), Ok(()), 1).err().unwrap();
    assert_eq!(
        (failure.status, failure.reason, failure.code),
        (403, "Forbidden", "connector_owned_by_another_user")
    );
    assert_eq!(
        failure.message,
        "This connector belongs to a. Open the connector and explicitly unlink that account before changing users."
    );
    assert_eq!(owner.binding.as_ref().unwrap().user_id, "u1");
}

#[test]
fn an_owner_without_email_is_not_named() {
    let mut owner = OwnerState::new(Some(binding("u1", "")));
    let failure =
        authorize_marketstate_user(&mut owner, "x", binding("u2", "b"), Ok(()), 1).err().unwrap();
    assert_eq!(
        failure.message,
        "This connector belongs to another MarketState user. Open the connector and explicitly unlink that account before changing users."
    );
}

#[test]
fn a_claim_that_cannot_be_recorded_fails() {
    let mut owner = OwnerState::new(None);
    let failure = authorize_marketstate_user(
        &mut owner,
        "t",
        binding("u1", "a"),
        Err("disk full".to_string()),
        0,
    )
    .err()
    .unwrap();
    assert_eq!(
        (failure.status, failure.reason, failure.code, failure.message.as_str()),
        (500, "Internal Server Error", "owner_binding_failed", "disk full")
    );
    assert!(owner.is_unclaimed());
    assert!(owner.auth_cache.is_none());
}

#[test]
fn a_confirmed_user_is_known_for_half_a_minute() {
    let mut owner = OwnerState::new(Some(binding("u1", "a")));
    assert!(matches!(check_identity(&owner, &headers("Bearer t"), 0), IdentityCheck::Ask { .. }));
    let answer = authorize_marketstate_user(&mut owner, "t", binding("u1", "a"), Ok(()), 5 * SECOND);
    assert!(answer.is_ok());
    match check_identity(&owner, &headers("Bearer t"), 35 * SECOND - 1) {
        IdentityCheck::Known { access_token, identity } => {
            assert_eq!(access_token, "t");
            assert_eq!(identity.user_id, "u1");
        }
        _ => panic!("expected a known user"),
    }
    match check_identity(&owner, &headers("Bearer t"), 35 * SECOND) {
        IdentityCheck::Ask { access_token } => assert_eq!(access_token, "t"),
        _ => panic!("expected a question"),
    }
    assert!(matches!(
        check_identity(&owner, &headers("Bearer other"), 6 * SECOND),
        IdentityCheck::Ask { .. }
    ));
}

#[test]
fn other_headers_name_no_user() {
    let owner = OwnerState::new(Some(binding("u1", "a")));
    let mut claimed = Headers::new();
    claimed.insert("x-user-id".to_string(), "u1".to_string());
    match check_identity(&owner, &claimed, 0) {
        IdentityCheck::Denied(failure) => {
            assert_eq!(
                (failure.status, failure.reason, failure.code),
                (401, "Unauthorized", "marketstate_login_required")
            );
            assert_eq!(
                failure.message,
                "Sign in to MarketState before using the Codex connector."
            );
        }
        _ => panic!("expected a refusal"),
    }
}

#[test]
fn unlinking_frees_the_installation() {
    let mut owner = OwnerState::new(Some(binding("u1", "a")));
    let signed_out = Some(Ok((true, "".to_string())));
    assert_eq!(unlink_marketstate_user(&mut owner, &signed_out, Ok(())), Ok(()));
    assert!(owner.is_unclaimed());
    let answer = authorize_marketstate_user(&mut owner, "t", binding("u2", "b"), Ok(()), 0);
    assert!(answer.is_ok());
    assert_eq!(unlink_marketstate_user(&mut owner, &signed_out, Ok(())), Ok(()));
    assert!(owner.is_unclaimed() && owner.auth_cache.is_none());
}

#[test]
fn unlinking_needs_the_sign_out() {
    let mut owner = OwnerState::new(Some(binding("u1", "a")));
    let failed = |detail: &str| Some(Ok((false, detail.to_string())));
    assert_eq!(
        unlink_marketstate_user(&mut owner, &failed(""), Ok(())),
        Err("Codex sign-out failed, so the MarketState user was not unlinked.".to_string())
    );
    assert_eq!(
        unlink_marketstate_user(&mut owner, &failed("busy"), Ok(())),
        Err("Codex sign-out failed: busy".to_string())
    );
    assert_eq!(
        signed_out_of_codex(&Some(Err("missing".to_string()))),
        Err("Unable to sign out of Codex: missing".to_string())
    );
    assert_eq!(
        unlink_marketstate_user(&mut owner, &None, Ok(())),
        Err("Codex sign-out failed, so the MarketState user was not unlinked.".to_string())
    );
    let signed_out = Some(Ok((true, "".to_string())));
    assert_eq!(
        unlink_marketstate_user(&mut owner, &signed_out, Err("locked".to_string())),
        Err("Unable to unlink the MarketState account: locked".to_string())
    );
    assert!(!owner.is_unclaimed());
}

#[test]
fn failures_to_record_the_owner_are_told() {
    assert_eq!(save_failure(SaveStage::Locate, "e"), "Owner configuration path is invalid.");
    assert_eq!(
        save_failure(SaveStage::Prepare, "e"),
        "Unable to create connector configuration: e"
    );
    assert_eq!(save_failure(SaveStage::Encode, "e"), "e");
    assert_eq!(save_failure(SaveStage::Write, "e"), "Unable to save connector owner: e");
    assert_eq!(save_failure(SaveStage::Activate, "e"), "Unable to activate connector owner: e");
}

#[test]
fn an_unreachable_state_is_told() {
    let failure = owner_state_unavailable();
    assert_eq!(
        (failure.status, failure.reason, failure.code, failure.message.as_str()),
        (
            500,
            "Internal Server Error",
            "owner_state_unavailable",
            "Connector account state is unavailable."
        )
    );
}
