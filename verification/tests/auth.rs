use pomc::auth::{
    authorize_url, denial_error, denial_page, generate_pkce, http_response, identity_token,
    new_account, parse_callback, pkce_challenge, random_state, remove_account, restore_now,
    rps_ticket, save_account, success_page, try_restore, AuthAccount, CallbackError,
    CallbackOutcome, TOKEN_LIFETIME_SECS,
};

fn account(name: &str, uuid: &str, expires_at: u64) -> AuthAccount {
    AuthAccount {
        username: name.to_string(),
        uuid: uuid.to_string(),
        access_token: format!("token-{name}"),
        expires_at,
    }
}

#[test]
fn try_restore_finds_unexpired_account() {
    let accounts = vec![account("a", "u1", 100), account("b", "u2", 500)];
    let r = try_restore(&accounts, "u2", 200).expect("restored");
    assert_eq!(r.username, "b");
    assert_eq!(r.expires_at, 500);
}

#[test]
fn try_restore_skips_expired_account() {
    let accounts = vec![account("a", "u1", 100)];
    assert!(try_restore(&accounts, "u1", 100).is_none());
    assert!(try_restore(&accounts, "u1", 99).is_some());
    assert!(try_restore(&accounts, "u3", 0).is_none());
}

#[test]
fn try_restore_takes_first_valid_match() {
    let accounts = vec![account("old", "u1", 50), account("new", "u1", 900), account("newer", "u1", 950)];
    assert_eq!(try_restore(&accounts, "u1", 60).unwrap().username, "new");
}

#[test]
fn restore_now_only_returns_accounts_with_that_uuid() {
    let accounts = vec![account("a", "u1", u64::MAX)];
    assert!(restore_now(&accounts, "other").is_none());
    assert_eq!(restore_now(&accounts, "u1").unwrap().username, "a");
}

#[test]
fn save_then_restore_law_example() {
    let mut accounts = vec![account("a", "u1", 10), account("b", "u2", 20)];
    save_account(&mut accounts, account("a2", "u1", 1000));
    assert_eq!(accounts.len(), 2);
    assert_eq!(accounts[0].uuid, "u2");
    assert_eq!(accounts[1].username, "a2");
    assert_eq!(try_restore(&accounts, "u1", 500).unwrap().username, "a2");
}

#[test]
fn save_keeps_one_account_per_uuid() {
    let mut accounts = vec![account("a", "u1", 10), account("b", "u1", 20), account("c", "u3", 30)];
    save_account(&mut accounts, account("d", "u1", 40));
    let with_u1: Vec<_> = accounts.iter().filter(|a| a.uuid == "u1").collect();
    assert_eq!(with_u1.len(), 1);
    assert_eq!(with_u1[0].username, "d");
}

#[test]
fn remove_then_restore_gives_nothing() {
    let mut accounts = vec![account("a", "u1", u64::MAX), account("b", "u2", u64::MAX)];
    remove_account(&mut accounts, "u1");
    assert_eq!(accounts.len(), 1);
    assert_eq!(accounts[0].uuid, "u2");
    assert!(try_restore(&accounts, "u1", 0).is_none());
}

#[test]
fn new_account_expires_a_day_later() {
    let a = new_account("Alex".to_string(), "id".to_string(), "tok".to_string(), 1000);
    assert_eq!(a.expires_at, 1000 + 86400);
    assert_eq!(TOKEN_LIFETIME_SECS, 86400);
    assert_eq!(a.username, "Alex");
    assert_eq!(a.access_token, "tok");
}

fn code_of(o: CallbackOutcome) -> Option<String> {
    match o {
        CallbackOutcome::Code(c) => Some(c),
        _ => None,
    }
}

fn rejection_of(o: CallbackOutcome) -> Option<CallbackError> {
    match o {
        CallbackOutcome::Rejected(e) => Some(e),
        _ => None,
    }
}

#[test]
fn callback_with_code_and_state() {
    let req = "GET /?code=M.abc-123&state=feed HTTP/1.1\r\nHost: localhost:25585\r\n\r\n";
    assert_eq!(code_of(parse_callback(req, "feed")), Some("M.abc-123".to_string()));
}

#[test]
fn callback_later_parameter_wins() {
    let req = "GET /?code=first&state=s&code=second HTTP/1.1\r\n";
    assert_eq!(code_of(parse_callback(req, "s")), Some("second".to_string()));
}

#[test]
fn callback_value_may_contain_equals() {
    let req = "GET /?state=s&code=a=b HTTP/1.1\r\n";
    assert_eq!(code_of(parse_callback(req, "s")), Some("a=b".to_string()));
}

#[test]
fn callback_state_mismatch() {
    let req = "GET /?code=abc&state=other HTTP/1.1\r\n";
    assert_eq!(rejection_of(parse_callback(req, "feed")), Some(CallbackError::StateMismatch));
}

#[test]
fn callback_missing_state() {
    let req = "GET /?code=abc HTTP/1.1\r\n";
    assert_eq!(rejection_of(parse_callback(req, "feed")), Some(CallbackError::MissingState));
}

#[test]
fn callback_missing_code() {
    let req = "GET /?state=feed HTTP/1.1\r\n";
    assert_eq!(rejection_of(parse_callback(req, "feed")), Some(CallbackError::MissingCode));
}

#[test]
fn callback_without_query() {
    let req = "GET /callback HTTP/1.1\r\n";
    assert_eq!(rejection_of(parse_callback(req, "feed")), Some(CallbackError::NoQuery));
}

#[test]
fn callback_invalid_request() {
    assert_eq!(rejection_of(parse_callback("", "feed")), Some(CallbackError::InvalidRequest));
    assert_eq!(rejection_of(parse_callback("GET\r\n", "feed")), Some(CallbackError::InvalidRequest));
}

#[test]
fn callback_denied_with_description() {
    let req = "GET /?error=access_denied&error_description=The%20user%20declined&state=feed HTTP/1.1\r\n";
    match parse_callback(req, "feed") {
        CallbackOutcome::Denied(d) => assert_eq!(d, "The%20user%20declined"),
        _ => panic!("expected a denial"),
    }
}

#[test]
fn callback_denied_without_description() {
    let req = "GET /?error=access_denied HTTP/1.1\r\n";
    match parse_callback(req, "feed") {
        CallbackOutcome::Denied(d) => assert_eq!(d, "access_denied"),
        _ => panic!("expected a denial"),
    }
}

#[test]
fn callback_code_needs_matching_state_example() {
    let req = "GET /?code=abc&error=x&state=feed HTTP/1.1\r\n";
    assert!(code_of(parse_callback(req, "feed")).is_none());
}

#[test]
fn callback_error_messages() {
    assert_eq!(CallbackError::InvalidRequest.message(), "Invalid HTTP request");
    assert_eq!(CallbackError::NoQuery.message(), "No query params");
    assert_eq!(CallbackError::MissingState.message(), "Missing state");
    assert_eq!(CallbackError::StateMismatch.message(), "State mismatch");
    assert_eq!(CallbackError::MissingCode.message(), "Missing auth code");
}

#[test]
fn response_texts() {
    assert_eq!(denial_page("nope"), "Authentication failed: nope");
    assert_eq!(denial_error("nope"), "OAuth error: nope");
    assert_eq!(success_page(), "Signed in successfully! You can close this tab.");
    assert_eq!(rps_ticket("abc"), "d=abc");
    assert_eq!(identity_token("uhs", "xsts"), "XBL3.0 x=uhs;xsts");
}

#[test]
fn http_response_counts_body_bytes() {
    let r = http_response(200, "hé");
    assert_eq!(
        r,
        "HTTP/1.1 200 OK\r\nContent-Type: text/html\r\nContent-Length: 3\r\nConnection: close\r\n\r\nhé"
    );
    let r = http_response(400, "bad");
    assert!(r.starts_with("HTTP/1.1 400 Bad Request\r\n"));
}

#[test]
fn authorize_url_encodes_scope() {
    let u = authorize_url("st", "ch");
    assert_eq!(
        u,
        "https://login.microsoftonline.com/consumers/oauth2/v2.0/authorize?client_id=b2dd2c0f-8a09-4549-9d76-ab43b8572695&response_type=code&redirect_uri=http://localhost:25585&scope=XboxLive.signin%20offline_access&state=st&code_challenge=ch&code_challenge_method=S256"
    );
}

#[test]
fn pkce_challenge_known_value() {
    assert_eq!(
        pkce_challenge("dBjftJeZ4CVP-mJ92K27uhbUJU1p1r_wW1gFWFOEjXk"),
        "ngF5GsXcbwljx6u133FFr3Xht9xooA_DuaX_3QwODtc"
    );
}

#[test]
fn generated_pkce_pair_is_consistent() {
    let (verifier, challenge) = generate_pkce();
    assert_eq!(verifier.len(), 43);
    assert!(verifier.chars().all(|c| c.is_ascii_alphanumeric() || c == '-' || c == '_'));
    assert_eq!(challenge, pkce_challenge(&verifier));
}

#[test]
fn random_state_is_32_hex_digits() {
    let s = random_state();
    assert_eq!(s.len(), 32);
    assert!(s.chars().all(|c| c.is_ascii_digit() || ('a'..='f').contains(&c)));
}
