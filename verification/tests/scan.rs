//! The scan-token gate.
use unidpp_gateway::reply::Body;
use unidpp_gateway::scan::{refusal, ScanGate, ScanHeaders, ScanPolicy};

fn headers(token: Option<&str>) -> ScanHeaders {
    ScanHeaders { scan: token.map(str::to_string), authorization: None }
}

fn bearer(value: &str) -> ScanHeaders {
    ScanHeaders { scan: None, authorization: Some(value.to_string()) }
}

fn gate(token_ttl_secs: u64, issue_limit_per_minute: usize) -> ScanGate {
    ScanGate::new(ScanPolicy { token_ttl_secs, issue_limit_per_minute })
}

const SECOND: u128 = 1_000_000_000;

#[test]
fn an_off_gate_admits_everything() {
    let mut gate = gate(0, 0);
    assert!(gate.admit_request(&headers(None)).is_ok());
    assert!(gate.issue("src").is_err()); // and issues nothing
}

#[test]
fn the_gate_states_absence_expiry_and_throttle() {
    let mut gate = gate(60, 2);
    // Absent token: states the policy and where to get one.
    let err = gate.admit_request(&headers(None)).unwrap_err();
    assert!(err.contains("scan token required"), "{err}");
    assert!(err.contains("60 s"), "{err}");
    // Unknown token.
    assert!(gate.admit_request(&headers(Some("scan-nope"))).unwrap_err().contains("unknown"));
    // Live token admits.
    let (token, ttl) = gate.issue("source-a").unwrap();
    assert_eq!(ttl, 60);
    assert!(gate.admit_request(&headers(Some(&token))).is_ok());
    // Throttle: two more for the same source refuse (limit 2/min, one
    // already used).
    assert!(gate.issue("source-a").is_ok());
    assert!(gate.issue("source-a").unwrap_err().contains("issuance limit"));
    // A different source has its own window.
    assert!(gate.issue("source-b").is_ok());
    assert_eq!(gate.policy().issue_limit_per_minute, 2);
}

#[test]
fn a_zero_ttl_token_is_born_expired_and_says_so() {
    let mut gate = gate(1, 0);
    let (token, _) = gate.issue_at("src", 5 * SECOND).unwrap();
    let err = gate.admit_request_at(&headers(Some(&token)), 6 * SECOND).unwrap_err();
    assert!(err.contains("scan token expired"), "{err}");
    // And the expired token is gone afterwards.
    assert!(gate.admit_request_at(&headers(Some(&token)), 6 * SECOND).unwrap_err().contains("unknown"));
}

#[test]
fn a_token_lives_exactly_its_lifetime() {
    let mut gate = gate(60, 0);
    let (token, _) = gate.issue_at("src", 0).unwrap();
    assert_eq!(token, "scan-0000000000000001");
    assert!(gate.admit_request_at(&headers(Some(&token)), 60 * SECOND - 1).is_ok());
    assert_eq!(
        gate.admit_request_at(&headers(Some(&token)), 63 * SECOND).unwrap_err(),
        "scan token expired 3 s ago — the policy window is 60 s; obtain a fresh one from POST /scan-tokens"
    );
    assert_eq!(
        gate.admit_request_at(&headers(Some(&token)), 64 * SECOND).unwrap_err(),
        "unknown scan token: this gateway enforces a 60 s scan policy — obtain one from POST /scan-tokens"
    );
    assert_eq!(
        gate.admit_request_at(&headers(None), 64 * SECOND).unwrap_err(),
        "scan token required: this gateway enforces a 60 s scan policy — obtain one from POST /scan-tokens"
    );
}

#[test]
fn tokens_are_distinct_and_leave_each_other_alone() {
    let mut gate = gate(60, 0);
    let mut seen: Vec<String> = Vec::new();
    for i in 0..40 {
        let (token, _) = gate.issue_at("src", i).unwrap();
        assert!(!seen.contains(&token));
        seen.push(token);
    }
    assert_eq!(seen[15], "scan-0000000000000010");
    for token in &seen {
        assert!(gate.admit_request_at(&headers(Some(token)), 40).is_ok());
    }
}

#[test]
fn the_issuance_window_slides() {
    let mut gate = gate(60, 2);
    assert!(gate.issue_at("s", 0).is_ok());
    assert!(gate.issue_at("s", 30 * SECOND).is_ok());
    assert_eq!(
        gate.issue_at("s", 60 * SECOND - 1).unwrap_err(),
        "scan-token issuance limit: at most 2 per source per minute — refused, retry after the window"
    );
    assert!(gate.issue_at("s", 60 * SECOND).is_ok());
    assert!(gate.issue_at("s", 89 * SECOND).is_err());
    assert!(gate.issue_at("s", 90 * SECOND).is_ok());
}

#[test]
fn a_bearer_authorization_presents_a_token_too() {
    let mut gate = gate(60, 0);
    let (token, _) = gate.issue_at("s", 0).unwrap();
    assert!(gate.admit_request_at(&bearer(&format!("Bearer {token}")), 1).is_ok());
    assert!(gate.admit_request_at(&bearer(&token), 1).unwrap_err().contains("required"));
    let both = ScanHeaders {
        scan: Some("scan-nope".to_string()),
        authorization: Some(format!("Bearer {token}")),
    };
    assert!(gate.admit_request_at(&both, 1).unwrap_err().contains("unknown"));
}

#[test]
fn refusals_are_stamped_json_replies() {
    let r = refusal("why", false, "2026-09-07T12:00:00Z");
    assert_eq!(r.status, 401);
    assert_eq!(r.body, Body::Text("{\"error\":\"why\"}".to_string()));
    assert_eq!(
        r.headers,
        vec![
            ("content-type".to_string(), "application/json".to_string()),
            ("x-as-of".to_string(), "2026-09-07T12:00:00Z".to_string()),
        ]
    );
    assert_eq!(refusal("why", true, "t").status, 429);
}
