use squads_cli::auth::{
    issued_token, parse_seconds, poll_outcome, token_answer, AuthError, DevicePoll, PollOutcome, PollStep,
    TokenResponse, DEFAULT_EXPIRES_IN, MAX_POLL_ATTEMPTS,
};
use squads_cli::token::AccessToken;

fn response(token: Option<&str>, expires_in: Option<u64>) -> TokenResponse {
    TokenResponse {
        token: token.map(|t| t.to_string()),
        expires_in,
        body: "{\"error\":\"x\"}".to_string(),
    }
}

#[test]
fn issued_token_uses_given_lifetime() {
    let t = issued_token(response(Some("abc"), Some(120)), 1000).unwrap();
    assert_eq!(t.value, "abc");
    assert_eq!(t.expires, 1120);
}

#[test]
fn issued_token_defaults_lifetime() {
    let t = issued_token(response(Some("abc"), None), 1000).unwrap();
    assert_eq!(t.expires, 1000 + DEFAULT_EXPIRES_IN);
    assert_eq!(t.expires, 4600);
}

#[test]
fn issued_token_saturates() {
    let t = issued_token(response(Some("abc"), Some(u64::MAX)), 5).unwrap();
    assert_eq!(t.expires, u64::MAX);
}

#[test]
fn issued_token_missing_field_is_malformed() {
    let e = issued_token(response(None, Some(10)), 0).unwrap_err();
    assert_eq!(e, AuthError::MalformedResponse("{\"error\":\"x\"}".to_string()));
}

#[test]
fn parse_seconds_cases() {
    assert_eq!(parse_seconds("3600"), Some(3600));
    assert_eq!(parse_seconds("+15"), Some(15));
    assert_eq!(parse_seconds("0"), Some(0));
    assert_eq!(parse_seconds("18446744073709551615"), Some(u64::MAX));
    assert_eq!(parse_seconds("18446744073709551616"), None);
    assert_eq!(parse_seconds(""), None);
    assert_eq!(parse_seconds("+"), None);
    assert_eq!(parse_seconds("12a"), None);
    assert_eq!(parse_seconds("-1"), None);
}

#[test]
fn poll_outcome_classifies() {
    match poll_outcome(true, None, response(Some("r"), Some(60)), 100) {
        PollOutcome::Authorized(t) => {
            assert_eq!(t.value, "r");
            assert_eq!(t.expires, 160);
        }
        other => panic!("unexpected {:?}", other),
    }
    assert!(matches!(
        poll_outcome(false, Some("authorization_pending".to_string()), response(None, None), 0),
        PollOutcome::Pending
    ));
    assert!(matches!(
        poll_outcome(false, Some("authorization_declined".to_string()), response(None, None), 0),
        PollOutcome::Denied
    ));
    match poll_outcome(true, None, response(None, None), 0) {
        PollOutcome::Malformed(body) => assert_eq!(body, "{\"error\":\"x\"}"),
        other => panic!("unexpected {:?}", other),
    }
    assert!(matches!(poll_outcome(false, None, response(Some("r"), None), 0), PollOutcome::Pending));
}

fn refresh() -> AccessToken {
    AccessToken { value: "refresh".to_string(), expires: 99 }
}

#[test]
fn pending_then_authorized_stores_once() {
    let mut poll = DevicePoll::new(MAX_POLL_ATTEMPTS);
    let mut stored = 0;
    let mut outcomes: Vec<PollOutcome> = (0..5).map(|_| PollOutcome::Pending).collect();
    outcomes.push(PollOutcome::Authorized(refresh()));
    let mut last = PollStep::Continue;
    for o in outcomes {
        last = poll.record(o);
        if let PollStep::Store(_) = &last {
            stored += 1;
        }
        if !matches!(last, PollStep::Continue) {
            break;
        }
    }
    assert_eq!(stored, 1);
    assert!(matches!(last, PollStep::Store(ref t) if t.value == "refresh"));
    assert_eq!(poll.attempts, 6);
}

#[test]
fn all_pending_times_out() {
    let mut poll = DevicePoll::new(MAX_POLL_ATTEMPTS);
    let mut steps = Vec::new();
    for _ in 0..MAX_POLL_ATTEMPTS {
        steps.push(poll.record(PollOutcome::Pending));
    }
    assert!(steps[..59].iter().all(|s| matches!(s, PollStep::Continue)));
    assert!(matches!(steps[59], PollStep::Fail(AuthError::AuthorizationTimeout)));
    assert!(!steps.iter().any(|s| matches!(s, PollStep::Store(_))));
}

#[test]
fn denied_ends_polling() {
    let mut poll = DevicePoll::new(3);
    assert!(matches!(poll.record(PollOutcome::Pending), PollStep::Continue));
    assert!(matches!(poll.record(PollOutcome::Denied), PollStep::Fail(AuthError::AuthorizationDenied)));
}

#[test]
fn success_without_token_ends_sign_in() {
    let mut poll = DevicePoll::new(MAX_POLL_ATTEMPTS);
    let outcome = poll_outcome(true, None, response(None, Some(5)), 0);
    match poll.record(outcome) {
        PollStep::Fail(AuthError::MalformedResponse(body)) => assert_eq!(body, "{\"error\":\"x\"}"),
        other => panic!("unexpected {:?}", other),
    }
}

#[test]
fn token_answer_cases() {
    let e = token_answer(false, "400 Bad Request - {}".to_string(), response(Some("t"), None), 7).unwrap_err();
    assert_eq!(e, AuthError::TokenExchangeFailed("400 Bad Request - {}".to_string()));
    let t = token_answer(true, String::new(), response(Some("t"), Some(3)), 7).unwrap();
    assert_eq!(t.value, "t");
    assert_eq!(t.expires, 10);
    let e = token_answer(true, String::new(), response(None, Some(3)), 7).unwrap_err();
    assert!(matches!(e, AuthError::MalformedResponse(_)));
}
