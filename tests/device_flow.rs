use ghnotifier::auth::{
    classify_token_response, stored_token, AccessTokenError, AccessTokenErrorResponse,
    AccessTokenRequest, AccessTokenResponse, DeviceRequest, PollStep, RawTokenResponse,
    TokenPoller, CLIENT_ID, GRANT_TYPE, SCOPE,
};
use ghnotifier::AppError;

const ALL_CODES: [(AccessTokenError, &str); 7] = [
    (AccessTokenError::AuthorizationPending, "authorization_pending"),
    (AccessTokenError::SlowDown, "slow_down"),
    (AccessTokenError::ExpiredToken, "expired_token"),
    (AccessTokenError::UnsupportedGrantType, "unsupported_grant_type"),
    (AccessTokenError::IncorrectClientCredentials, "incorrect_client_credentials"),
    (AccessTokenError::IncorrectDeviceCode, "incorrect_device_code"),
    (AccessTokenError::AccessDenied, "access_denied"),
];

fn failure(error: AccessTokenError) -> AccessTokenResponse {
    AccessTokenResponse::Failure(AccessTokenErrorResponse {
        error,
        error_description: format!("{} described", error.code()),
        error_uri: "https://docs.example/device".to_string(),
    })
}

fn success(token: &str) -> AccessTokenResponse {
    AccessTokenResponse::Success { access_token: token.to_string() }
}

fn raw(
    access_token: Option<&str>,
    error: Option<&str>,
    description: Option<&str>,
    uri: Option<&str>,
) -> RawTokenResponse {
    RawTokenResponse {
        access_token: access_token.map(|s| s.to_string()),
        error: error.map(|s| s.to_string()),
        error_description: description.map(|s| s.to_string()),
        error_uri: uri.map(|s| s.to_string()),
    }
}

#[test]
fn pending_replies_time_out_after_the_budget() {
    let mut poller = TokenPoller::new(5, 20);
    assert_eq!(poller.limit(), 4);
    let mut sleeps = Vec::new();
    let mut calls = 0;
    let last = loop {
        assert!(poller.is_polling());
        calls += 1;
        match poller.on_response(failure(AccessTokenError::AuthorizationPending)) {
            PollStep::Wait(s) => sleeps.push(s),
            other => break other,
        }
    };
    assert!(matches!(last, PollStep::TimedOut));
    assert_eq!(calls, 4);
    assert_eq!(sleeps, vec![5, 5, 5]);
    assert!(!poller.is_polling());
}

#[test]
fn budget_rounds_down() {
    let poller = TokenPoller::new(7, 20);
    assert_eq!(poller.limit(), 2);
    assert_eq!(poller.attempts(), 0);
    assert_eq!(poller.interval(), 7);
}

#[test]
fn window_shorter_than_interval_times_out_on_first_pending_reply() {
    let mut poller = TokenPoller::new(10, 5);
    assert_eq!(poller.limit(), 0);
    assert!(poller.is_polling());
    assert!(matches!(
        poller.on_response(failure(AccessTokenError::AuthorizationPending)),
        PollStep::TimedOut
    ));
}

#[test]
fn slow_down_adds_five_seconds_and_keeps_budget() {
    let mut poller = TokenPoller::new(5, 900);
    assert_eq!(poller.limit(), 180);
    assert!(matches!(poller.on_response(failure(AccessTokenError::SlowDown)), PollStep::Wait(10)));
    assert_eq!(poller.interval(), 10);
    assert!(matches!(poller.on_response(failure(AccessTokenError::SlowDown)), PollStep::Wait(15)));
    assert_eq!(poller.interval(), 15);
    assert_eq!(poller.limit(), 180);
    assert!(matches!(
        poller.on_response(failure(AccessTokenError::AuthorizationPending)),
        PollStep::Wait(15)
    ));
    assert_eq!(poller.attempts(), 3);
}

#[test]
fn slow_down_can_exhaust_budget_before_the_window() {
    // 3 attempts of budget; sleeps of 10 + 15 seconds fit in a 15 second window only on paper.
    let mut poller = TokenPoller::new(5, 15);
    assert!(matches!(poller.on_response(failure(AccessTokenError::SlowDown)), PollStep::Wait(10)));
    assert!(matches!(poller.on_response(failure(AccessTokenError::SlowDown)), PollStep::Wait(15)));
    assert!(matches!(poller.on_response(failure(AccessTokenError::SlowDown)), PollStep::TimedOut));
    assert_eq!(poller.interval(), 15);
}

#[test]
fn large_intervals_grow_without_overflow() {
    let mut poller = TokenPoller::new(u64::MAX / 4, u64::MAX);
    assert_eq!(poller.limit(), 4);
    assert!(matches!(
        poller.on_response(failure(AccessTokenError::SlowDown)),
        PollStep::Wait(s) if s == u64::MAX / 4 + 5
    ));
    let mut single = TokenPoller::new(u64::MAX - 2, u64::MAX);
    assert_eq!(single.limit(), 1);
    assert!(matches!(single.on_response(failure(AccessTokenError::SlowDown)), PollStep::TimedOut));
}

#[test]
fn fatal_codes_end_polling_at_once() {
    for (code, _) in ALL_CODES.iter().skip(2) {
        let mut poller = TokenPoller::new(5, 900);
        match poller.on_response(failure(*code)) {
            PollStep::Denied(e) => {
                assert_eq!(e.error, *code);
                assert_eq!(e.description(), format!("{} described", code.code()));
            }
            _ => panic!("expected the authorization to end"),
        }
        assert_eq!(poller.attempts(), 1);
    }
}

#[test]
fn fatal_code_after_pending_ends_polling() {
    let mut poller = TokenPoller::new(5, 900);
    assert!(matches!(
        poller.on_response(failure(AccessTokenError::AuthorizationPending)),
        PollStep::Wait(5)
    ));
    assert!(matches!(
        poller.on_response(failure(AccessTokenError::ExpiredToken)),
        PollStep::Denied(AccessTokenErrorResponse { error: AccessTokenError::ExpiredToken, .. })
    ));
}

#[test]
fn token_reply_ends_polling_with_its_token() {
    let mut poller = TokenPoller::new(5, 900);
    match poller.on_response(success("gho_first")) {
        PollStep::Granted(t) => assert_eq!(t, "gho_first"),
        _ => panic!("expected a token"),
    }
}

#[test]
fn token_reply_wins_even_past_the_budget() {
    let mut poller = TokenPoller::new(5, 5);
    match poller.on_response(success("gho_late")) {
        PollStep::Granted(t) => assert_eq!(t, "gho_late"),
        _ => panic!("expected a token"),
    }
}

#[test]
fn scripted_flow_with_pending_and_slow_down() {
    let replies = vec![
        failure(AccessTokenError::AuthorizationPending),
        failure(AccessTokenError::AuthorizationPending),
        failure(AccessTokenError::SlowDown),
        success("gho_fourth"),
        success("gho_fifth"),
    ];
    let mut poller = TokenPoller::new(5, 900);
    assert_eq!(poller.limit(), 180);
    let mut calls = 0;
    let mut slept = 0u64;
    let mut token = None;
    for reply in replies {
        calls += 1;
        match poller.on_response(reply) {
            PollStep::Wait(s) => slept += s,
            PollStep::Granted(t) => {
                token = Some(t);
                break;
            }
            _ => panic!("unexpected end of polling"),
        }
    }
    assert_eq!(calls, 4);
    assert_eq!(slept, 20);
    assert_eq!(token.as_deref(), Some("gho_fourth"));
}

#[test]
fn each_code_parses_from_its_wire_name() {
    for (code, name) in ALL_CODES.iter() {
        assert_eq!(AccessTokenError::parse(name), Some(*code));
        assert_eq!(code.code(), *name);
    }
}

#[test]
fn unknown_codes_do_not_parse() {
    assert_eq!(AccessTokenError::parse(""), None);
    assert_eq!(AccessTokenError::parse("Slow_Down"), None);
    assert_eq!(AccessTokenError::parse("slow_down "), None);
    assert_eq!(AccessTokenError::parse("server_error"), None);
}

#[test]
fn success_body_gives_its_token() {
    let r = classify_token_response(raw(Some("SECRET-REDACTED"), None, None, None));
    match r {
        Ok(AccessTokenResponse::Success { access_token }) => {
            assert_eq!(access_token, "SECRET-REDACTED")
        }
        _ => panic!("expected a success"),
    }
}

#[test]
fn token_field_decides_over_error_field() {
    let r = classify_token_response(raw(Some("tok"), Some("slow_down"), Some("d"), Some("u")));
    assert!(matches!(r, Ok(AccessTokenResponse::Success { access_token }) if access_token == "tok"));
}

#[test]
fn error_bodies_give_their_codes() {
    for (code, name) in ALL_CODES.iter() {
        let r = classify_token_response(raw(None, Some(name), Some("why"), Some("where")));
        match r {
            Ok(AccessTokenResponse::Failure(e)) => {
                assert_eq!(e.error, *code);
                assert_eq!(e.error_description, "why");
                assert_eq!(e.error_uri, "where");
            }
            _ => panic!("expected an error reply"),
        }
    }
}

#[test]
fn malformed_bodies_are_refused() {
    let cases = vec![
        raw(None, None, None, None),
        raw(None, Some("not_a_code"), Some("d"), Some("u")),
        raw(None, Some("slow_down"), None, Some("u")),
        raw(None, Some("slow_down"), Some("d"), None),
    ];
    for c in cases {
        assert!(matches!(classify_token_response(c), Err(AppError::MalformedResponse)));
    }
}

#[test]
fn request_bodies_carry_the_client_settings() {
    let d = DeviceRequest::new();
    assert_eq!(d.client_id, CLIENT_ID);
    assert_eq!(d.client_id, "a14deabe89e4f5d2dfb9");
    assert_eq!(d.scope, SCOPE);
    assert_eq!(d.scope, "notifications");
    let t = AccessTokenRequest::new("3584d83530557fdd1f46af8289938c8ef79f9dc5");
    assert_eq!(t.client_id, "a14deabe89e4f5d2dfb9");
    assert_eq!(t.device_code, "3584d83530557fdd1f46af8289938c8ef79f9dc5");
    assert_eq!(t.grant_type, GRANT_TYPE);
    assert_eq!(t.grant_type, "urn:ietf:params:oauth:grant-type:device_code");
}

#[test]
fn empty_store_means_authorizing_anew() {
    assert_eq!(stored_token(String::new()), None);
    assert_eq!(stored_token("gho_saved".to_string()), Some("gho_saved".to_string()));
}

#[test]
fn app_error_messages() {
    assert_eq!(AppError::Timeout.message(), "Timeout while waiting user action");
    assert_eq!(AppError::NoConfigDirectory.message(), "Unable to locate config directory");
    assert_eq!(AppError::MalformedResponse.message(), "Unexpected response from server");
}

#[test]
fn each_sleep_counts_every_slow_down_so_far() {
    let script = [
        AccessTokenError::AuthorizationPending,
        AccessTokenError::SlowDown,
        AccessTokenError::AuthorizationPending,
        AccessTokenError::SlowDown,
        AccessTokenError::AuthorizationPending,
    ];
    let mut poller = TokenPoller::new(5, 900);
    let mut sleeps = Vec::new();
    for code in script {
        match poller.on_response(failure(code)) {
            PollStep::Wait(s) => sleeps.push(s),
            _ => panic!("expected to keep polling"),
        }
    }
    assert_eq!(sleeps, vec![5, 10, 10, 15, 15]);
    assert_eq!(poller.limit(), 180);
}
