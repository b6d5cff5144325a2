//! The verdict rules on concrete documents.
use unidpp_gateway::json::Json;
use unidpp_gateway::model::{
    EventLog, EventPayload, EventSignature, Granularity, IdScheme, Passport, ProductIdentifier,
    SafetyFlag, SealedEvent, Status, Timestamp, TrustMarker, Validity,
};
use unidpp_gateway::verdict::{
    assess_freshness, combine_outcome, default_slots, duration_to_ms, marker_at_least,
    outcome_for_freshness, verify_passport, CryptoSlot, CryptoSlots, EcdsaNoneSlot, Finding,
    Freshness, GatewaySlot, Milliseconds, PublicKeyMaterial, Share, SignatureInput, TrustAnchors, VerifyOptions,
    Verdict, MARKER_ORDER,
};

/// A slot that takes a signature for valid when it repeats the payload and
/// then the key.
struct EchoSlot {
    suites: &'static [&'static str],
}

impl CryptoSlot for EchoSlot {
    fn suites(&self) -> &'static [&'static str] {
        self.suites
    }
    fn supported(&self) -> bool {
        true
    }
    fn reason(&self) -> Option<String> {
        None
    }
    fn verify(&self, framing: &SignatureInput<'_>) -> bool {
        let mut expected = framing.payload.to_vec();
        expected.extend_from_slice(&framing.anchor.bytes);
        framing.signature == expected.as_slice()
    }
}

const ED25519: &[&str] = &["ed25519"];

fn slots() -> CryptoSlots<GatewaySlot<EchoSlot>> {
    default_slots(EchoSlot { suites: ED25519 })
}

fn ts(secs: i64, text: &str) -> Timestamp {
    Timestamp { secs, text: text.to_string() }
}

fn now() -> Timestamp {
    ts(1_788_782_400, "2026-09-07T12:00:00Z")
}

fn doc() -> Passport {
    Passport {
        passport_id: "urn:unidpp:passport:v-t".to_string(),
        product_id: ProductIdentifier {
            scheme: IdScheme::Gtin,
            key: "4006381333931".to_string(),
            lot: None,
            serial: None,
            granularity: Granularity::Model,
            display: "01+4006381333931".to_string(),
        },
        eo_id: "eo-t".to_string(),
        type_ref: None,
        capability: "S1".to_string(),
        resolver_uri: String::new(),
        created_at: ts(1_577_836_800, "2020-01-01T00:00:00Z"),
        validity: Validity {
            from: ts(1_577_836_800, "2020-01-01T00:00:00Z"),
            to: Some(ts(2_208_988_800, "2040-01-01T00:00:00Z")),
        },
        log: EventLog {
            sealed: vec![SealedEvent {
                seq: 0,
                occurred_at: ts(1_781_281_860, "2026-06-12T16:31:00Z"),
                trust: TrustMarker::Attested,
                payload: EventPayload::Other,
                canonical_body: Some(b"body".to_vec()),
            }],
            current_status: Status::Issued,
            safety_flag: SafetyFlag::Clear,
            last_event_at: Some(ts(1_781_281_860, "2026-06-12T16:31:00Z")),
            head: Some("00".repeat(32)),
            height: 1,
        },
        event_signatures: vec![],
    }
}

fn signature(seq: u64, suite: &str, key_id: &str, bytes: Option<Vec<u8>>) -> EventSignature {
    EventSignature {
        seq,
        suite: suite.to_string(),
        key_id: key_id.to_string(),
        signature: bytes,
    }
}

/// Verifies with the default registry, an anchor `k-1` and the changes that
/// the caller makes to the options.
fn verified<F>(document: &Passport, change: F) -> Verdict
where
    F: for<'a> Fn(&mut VerifyOptions<'a, GatewaySlot<EchoSlot>>),
{
    let mut anchors = TrustAnchors::new();
    anchors.insert("k-1".to_string(), PublicKeyMaterial { bytes: b"key".to_vec() });
    let registry = slots();
    let mut options = VerifyOptions::current_state(&anchors, &registry, now());
    change(&mut options);
    verify_passport(document, &options)
}

fn has(findings: &[Finding], code: &str, severity: &str) -> bool {
    findings.iter().any(|f| f.code == code && f.severity == severity)
}

fn wire<'a>(j: &'a Json, key: &str) -> &'a Json {
    j.get(key).unwrap_or_else(|| panic!("no member {key}"))
}

#[test]
fn marker_ladder_and_outcomes() {
    assert!(marker_at_least("third-party-attested", "self-declared"));
    assert!(!marker_at_least("unsigned", "self-declared"));
    assert_eq!(combine_outcome(&["pass", "degraded", "pass"]), "degraded");
    assert_eq!(combine_outcome(&["degraded", "fail"]), "fail");
    assert_eq!(combine_outcome(&["pass"]), "pass");
    assert_eq!(outcome_for_freshness(Freshness::Stale), "degraded");
    assert_eq!(outcome_for_freshness(Freshness::Unknown), "pass");
}

#[test]
fn the_ladder_rises_and_unknown_markers_are_weakest() {
    for i in 0..MARKER_ORDER.len() {
        for j in 0..MARKER_ORDER.len() {
            assert_eq!(marker_at_least(MARKER_ORDER[i], MARKER_ORDER[j]), i >= j);
        }
        assert!(marker_at_least(MARKER_ORDER[i], "no-such-marker"));
    }
    assert!(!marker_at_least("no-such-marker", "self-declared"));
    assert!(marker_at_least("no-such-marker", "unsigned"));
}

#[test]
fn outcomes_combine_by_groups_and_in_any_order() {
    assert_eq!(combine_outcome(&[]), "pass");
    assert_eq!(combine_outcome(&["pass", "fail", "degraded"]), "fail");
    assert_eq!(combine_outcome(&["degraded", "pass", "fail"]), "fail");
    let first = combine_outcome(&["pass", "degraded"]);
    let second = combine_outcome(&["pass"]);
    assert_eq!(combine_outcome(&[first, second]), "degraded");
}

fn ms(whole: u128, decimals: &str) -> Milliseconds {
    Milliseconds { whole, decimals: decimals.to_string() }
}

#[test]
fn durations_parse_like_the_py_regex() {
    assert_eq!(duration_to_ms("PT1H"), Some(ms(3_600_000, "")));
    assert_eq!(duration_to_ms("P1D"), Some(ms(86_400_000, "")));
    assert_eq!(duration_to_ms("P2DT3H4M5.5S"), Some(ms(183_845_500, "")));
    assert_eq!(duration_to_ms("P"), None);
    assert_eq!(duration_to_ms("nonsense"), None);
    assert_eq!(duration_to_ms("PT1X"), None);
}

#[test]
fn durations_at_the_edges_of_the_grammar() {
    assert_eq!(duration_to_ms(""), None);
    assert_eq!(duration_to_ms("PT"), None);
    assert_eq!(duration_to_ms("PD"), None);
    assert_eq!(duration_to_ms("PDT1H"), None);
    assert_eq!(duration_to_ms("P0D"), Some(ms(0, "")));
    assert_eq!(duration_to_ms("PT0S"), Some(ms(0, "")));
    assert_eq!(duration_to_ms("P1"), None);
    assert_eq!(duration_to_ms("P1DT"), None);
    assert_eq!(duration_to_ms("PTH"), None);
    assert_eq!(duration_to_ms("PT5M"), Some(ms(300_000, "")));
    assert_eq!(duration_to_ms("PT1M1H"), None);
    assert_eq!(duration_to_ms("PT1S1M"), None);
    assert_eq!(duration_to_ms("PT1H1S"), Some(ms(3_601_000, "")));
    assert_eq!(duration_to_ms("PT.25S"), Some(ms(250, "")));
    assert_eq!(duration_to_ms("PT2.S"), Some(ms(2_000, "")));
    assert_eq!(duration_to_ms("PT.S"), None);
    assert_eq!(duration_to_ms("PT1.2.3S"), None);
    assert_eq!(duration_to_ms("PT0.9999S"), Some(ms(999, "9")));
    assert_eq!(duration_to_ms("PT1H0.00012300S"), Some(ms(3_600_000, "123")));
    assert_eq!(duration_to_ms("P1DT2.5000S"), Some(ms(86_402_500, "")));
    assert_eq!(duration_to_ms("PT-1S"), None);
    let huge = format!("P{}D", "9".repeat(60));
    assert_eq!(duration_to_ms(&huge), Some(ms(u128::MAX, "")));
}

#[test]
fn freshness_ladder() {
    assert_eq!(
        assess_freshness(&Some(ts(now().secs - 3_600, "2026-09-07T11:00:00Z")), Some("PT2H"), &now()),
        Freshness::Fresh
    );
    assert_eq!(
        assess_freshness(&Some(ts(now().secs - 90_000, "2026-09-06T11:00:00Z")), Some("PT2H"), &now()),
        Freshness::Stale
    );
    // Future-dated evidence reads fresh (non-negative age budget).
    assert_eq!(
        assess_freshness(&Some(ts(1_798_761_600, "2027-01-01T00:00:00Z")), Some("PT2H"), &now()),
        Freshness::Fresh
    );
    assert_eq!(assess_freshness(&Some(now()), None, &now()), Freshness::Unknown);
    assert_eq!(assess_freshness(&Some(now()), Some("wat"), &now()), Freshness::Unknown);
}

#[test]
fn dropped_decimals_do_not_change_a_reading() {
    let second_old = Some(ts(now().secs - 1, ""));
    assert_eq!(assess_freshness(&second_old, Some("PT0.9999S"), &now()), Freshness::Stale);
    assert_eq!(assess_freshness(&second_old, Some("PT1.0009S"), &now()), Freshness::Fresh);
    assert_eq!(assess_freshness(&second_old, Some("PT1S"), &now()), Freshness::Fresh);
    assert_eq!(assess_freshness(&None, Some("PT1S"), &now()), Freshness::Unknown);
    let first = Some(ts(i64::MIN, ""));
    let last = ts(i64::MAX, "");
    assert_eq!(assess_freshness(&first, Some("P1D"), &last), Freshness::Stale);
}

#[test]
fn clean_document_passes_with_unknown_freshness() {
    let v = verified(&doc(), |_| {});
    assert_eq!(v.outcome, "pass");
    assert_eq!(v.freshness, Freshness::Unknown);
    assert_eq!(v.achieved_marker, "unsigned");
    assert!(v.findings.is_empty());
    assert_eq!(v.coverage.checks, 3); // schema + validity + freshness
    assert_eq!(v.coverage.passed, 2); // unknown freshness does not count as passed
    assert_eq!(v.coverage.signatures_total, 0);
    assert_eq!(v.coverage.anchor_coverage, Share { part: 0, of: 1 });
}

#[test]
fn stale_evidence_degrades() {
    let v = verified(&doc(), |o| o.required_freshness = Some("PT1H"));
    assert_eq!(v.outcome, "degraded");
    assert_eq!(v.freshness, Freshness::Stale);
    assert!(v.findings.is_empty(), "stale alone is not a finding");
}

#[test]
fn outside_validity_window_fails() {
    let v = verified(&doc(), |o| o.now = ts(2_524_608_000, "2050-01-01T00:00:00Z"));
    assert_eq!(v.outcome, "fail");
    assert!(has(&v.findings, "validity-window", "error"));
    assert_eq!(
        v.findings[0].message,
        "document outside validity window [2020-01-01T00:00:00Z, 2040-01-01T00:00:00Z]"
    );
    let mut open_ended = doc();
    open_ended.validity.to = None;
    let early = verified(&open_ended, |o| o.now = ts(0, "1970-01-01T00:00:00Z"));
    assert_eq!(
        early.findings[0].message,
        "document outside validity window [2020-01-01T00:00:00Z, open]"
    );
}

#[test]
fn taint_fails_under_every_reading() {
    let tainted = ["urn:unidpp:passport:v-t".to_string()];
    let anchors = TrustAnchors::new();
    let registry = slots();
    for reading in ["current-state", "as-issued"] {
        let mut o = VerifyOptions::current_state(&anchors, &registry, now());
        o.reading = reading;
        o.tainted_passport_ids = &tainted;
        let v = verify_passport(&doc(), &o);
        assert_eq!(v.outcome, "fail");
        assert_eq!(v.reading, reading);
        assert!(v.findings.iter().any(|f| f.code == "tainted"));
    }
}

#[test]
fn a_stale_recall_fails_outright() {
    let mut d = doc();
    d.log.safety_flag = SafetyFlag::Raised;
    let stale = verified(&d, |o| o.required_freshness = Some("PT1H"));
    assert_eq!(stale.outcome, "fail");
    assert!(has(&stale.findings, "recall-stale", "error"));
    let fresh = verified(&d, |o| o.required_freshness = Some("P365D"));
    assert_eq!(fresh.outcome, "pass");
    assert_eq!(fresh.coverage.passed, 3);
}

#[test]
fn unanchored_signature_fails_and_unsupported_degrades() {
    let mut d = doc();
    d.event_signatures.push(signature(0, "ed25519", "k-missing", Some(vec![0; 64])));
    let v = verified(&d, |_| {});
    assert_eq!(v.outcome, "fail");
    assert!(v.findings.iter().any(|f| f.code == "key-unanchored"));

    let mut d2 = doc();
    d2.event_signatures.push(signature(0, "ecdsa-p256-sha256", "k-any", Some(vec![0; 64])));
    let v2 = verified(&d2, |_| {});
    assert_eq!(v2.outcome, "degraded");
    assert_eq!(v2.coverage.signatures_unsupported, 1);
    assert!(has(&v2.findings, "suite-unsupported", "warning"));
    assert_eq!(
        v2.findings[0].message,
        "suite ecdsa-p256-sha256 unsupported: ECDSA verification not linked in the stdlib-only \
         core; register a profile-bound suite binding"
    );

    let mut d3 = doc();
    d3.event_signatures.push(signature(0, "sm2-sm3", "k-any", Some(vec![0; 64])));
    let v3 = verified(&d3, |_| {});
    assert_eq!(v3.outcome, "degraded");
    assert_eq!(v3.coverage.signatures_unsupported, 1);
    assert_eq!(v3.coverage.signatures_failed, 0);
}

#[test]
fn minimum_marker_below_warns() {
    let v = verified(&doc(), |o| o.minimum_marker = "third-party-attested");
    assert_eq!(v.outcome, "pass"); // below-minimum is a warning, not a fail
    assert_eq!(v.coverage.trust_coverage, Share { part: 0, of: 1 });
    assert!(has(&v.findings, "below-minimum-marker", "warning"));
    assert_eq!(v.findings[0].message, "achieved unsigned, below required third-party-attested");
}

#[test]
fn ghost_signature_seq_fails() {
    let mut d = doc();
    d.event_signatures.push(signature(9, "ed25519", "k-x", Some(vec![0; 64])));
    let v = verified(&d, |_| {});
    assert_eq!(v.outcome, "fail");
    assert_eq!(v.coverage.signatures_failed, 1);
    assert_eq!(v.findings[0].message, "signature names seq 9 but no such event is sealed");
}

#[test]
fn a_registered_slot_verifies_and_catches_tampering() {
    let mut d = doc();
    d.event_signatures.push(signature(0, "ed25519", "k-1", Some(b"bodykey".to_vec())));
    let v = verified(&d, |_| {});
    assert_eq!(v.outcome, "pass");
    assert_eq!(v.coverage.signatures_verified, 1);
    assert_eq!(v.achieved_marker, "third-party-attested");
    assert_eq!(v.coverage.anchor_coverage, Share { part: 1, of: 1 });

    d.event_signatures[0].signature = Some(vec![0; 64]);
    let v2 = verified(&d, |_| {});
    assert_eq!(v2.outcome, "fail");
    assert_eq!(v2.coverage.signatures_failed, 1);
    assert_eq!(v2.achieved_marker, "unsigned");
    assert_eq!(v2.findings[0].message, "signature by k-1 (ed25519) failed verification");

    d.event_signatures[0].signature = None;
    let v3 = verified(&d, |_| {});
    assert_eq!(v3.findings[0].message, "signature by k-1 (ed25519) is not valid hex");
    assert_eq!(v3.coverage.checks, 3);
}

#[test]
fn symmetric_test_suites_only_self_declare() {
    let mut anchors = TrustAnchors::new();
    anchors.insert("k-1".to_string(), PublicKeyMaterial { bytes: b"key".to_vec() });
    let mut registry = CryptoSlots::new();
    registry.register(EchoSlot { suites: &["hmac-testmac", "ed25519"] });
    let mut d = doc();
    d.event_signatures.push(signature(0, "hmac-testmac", "k-1", Some(b"bodykey".to_vec())));
    let o = VerifyOptions::current_state(&anchors, &registry, now());
    assert_eq!(verify_passport(&d, &o).achieved_marker, "self-declared");
    d.event_signatures.push(signature(0, "ed25519", "k-1", Some(b"bodykey".to_vec())));
    d.event_signatures.push(signature(0, "hmac-testmac", "k-1", Some(b"bodykey".to_vec())));
    let v = verify_passport(&d, &o);
    assert_eq!(v.achieved_marker, "third-party-attested");
    assert_eq!(v.coverage.checks, 6);
    assert_eq!(v.coverage.passed, 5);
}

#[test]
fn an_event_without_a_canonical_form_signs_nothing() {
    let mut d = doc();
    d.log.sealed[0].canonical_body = None;
    d.event_signatures.push(signature(0, "ed25519", "k-1", Some(b"key".to_vec())));
    assert_eq!(verified(&d, |_| {}).coverage.signatures_verified, 1);
}

#[test]
fn the_last_registered_slot_gets_the_suite() {
    let mut registry = CryptoSlots::new();
    registry.register(GatewaySlot::Ed25519(EchoSlot { suites: &["ecdsa-p256-sha256"] }));
    assert!(registry.get("ecdsa-p256-sha256").unwrap().supported());
    registry.register(GatewaySlot::Ecdsa(EcdsaNoneSlot));
    assert!(!registry.get("ecdsa-p256-sha256").unwrap().supported());
    assert!(registry.suits("ecdsa-p384-sha384"));
    assert!(!registry.suits("ml-dsa-65"));
}

#[test]
fn findings_come_in_order_and_counts_add_up() {
    let mut d = doc();
    d.log.safety_flag = SafetyFlag::Raised;
    d.event_signatures.push(signature(0, "sm2", "k-1", Some(vec![1])));
    d.event_signatures.push(signature(4, "ed25519", "k-1", Some(vec![1])));
    d.event_signatures.push(signature(0, "ed25519", "k-1", Some(b"bodykey".to_vec())));
    let v = verified(&d, |o| {
        o.now = ts(2_524_608_000, "2050-01-01T00:00:00Z");
        o.required_freshness = Some("PT1H");
        o.minimum_marker = "log-anchored";
    });
    let codes: Vec<&str> = v.findings.iter().map(|f| f.code).collect();
    assert_eq!(
        codes,
        vec![
            "validity-window",
            "recall-stale",
            "suite-unsupported",
            "signature-invalid",
            "below-minimum-marker"
        ]
    );
    assert_eq!(v.outcome, "fail");
    let c = v.coverage;
    assert_eq!(c.signatures_total, 3);
    assert_eq!(
        c.signatures_total,
        c.signatures_verified + c.signatures_failed + c.signatures_unsupported
    );
    assert_eq!(c.anchor_coverage, Share { part: 1, of: 3 });
    assert!(c.passed <= c.checks);
}

#[test]
fn verdict_wire_shape_matches_the_py_vocabulary() {
    let v = verified(&doc(), |_| {});
    let dict = v.to_dict();
    assert_eq!(dict.str_at("reading"), Some("current-state"));
    assert_eq!(dict.str_at("outcome"), Some("pass"));
    assert_eq!(dict.str_at("freshness"), Some("unknown"));
    assert_eq!(dict.str_at("achievedMarker"), Some("unsigned"));
    assert_eq!(
        wire(wire(wire(&dict, "coverage"), "signatures"), "total").as_u64(),
        Some(0)
    );
    assert!(dict.str_at("asOf").unwrap().ends_with('Z'));
    assert_eq!(wire(wire(&dict, "coverage"), "anchorCoverage"), &Json::Ratio(0, 1));
    assert_eq!(wire(wire(&dict, "coverage"), "trustCoverage"), &Json::Ratio(1, 1));
}
