//! The renders, the import and the replies over the seeded fixtures.
use unidpp_gateway::api::{
    en18222_dpps, en18222_found, en18222_request, guard, healthz, ingest_reply, issuance_reply,
    issue_scan_token, json_body, not_found, resolve_any, untp_found, untp_product, untp_request,
    Config, Environment, NOT_FOUND_BODY,
};
use unidpp_gateway::discovery::discovery;
use unidpp_gateway::en18222::{render, Representation, EN18222_PROFILE};
use unidpp_gateway::fixtures::{all, laptop, tyre, FixturePlan, PlannedPayload};
use unidpp_gateway::ingest::{
    conformity_bindings, derived_passport_id, identity_material, ingest_question, mint_options,
    IngestAnswers, IngestOutcome, IngestStatus, IngestStore,
};
use unidpp_gateway::json::{compact_text, parse_json, text, Json};
use unidpp_gateway::model::{
    EventLog, EventPayload, EventSignature, Granularity, IdScheme, MintOptions, Passport,
    ProductIdentifier, SafetyFlag, SealedEvent, Stamp, Status, Timestamp, TrustMarker, Validity,
};
use unidpp_gateway::reply::{Body, Reply};
use unidpp_gateway::scan::{ScanGate, ScanHeaders, ScanPolicy};
use unidpp_gateway::source::{
    collect_anchors, issuer_passport, issuer_view, keyring_keys, keyring_roles,
    parse_config_profiles, GatewayPassport, Lookup, Origin, PassportSource, ProfileRef,
};
use unidpp_gateway::untp::{
    core_identifier_value, parse_stub, render_triad, scheme_token, scheme_uri, slug,
    stub_commitment_material, stub_identifier, untp_identifier_value, UNTP_PROFILE,
};
use unidpp_gateway::verdict::{
    default_slots, CryptoSlot, CryptoSlots, GatewaySlot, SignatureInput, TrustAnchors,
};

// ---------------------------------------------------------------------------
// A stand-in for the core
// ---------------------------------------------------------------------------

struct EchoSlot;

impl CryptoSlot for EchoSlot {
    fn suites(&self) -> &'static [&'static str] {
        &["ed25519"]
    }
    fn supported(&self) -> bool {
        true
    }
    fn reason(&self) -> Option<String> {
        None
    }
    fn verify(&self, framing: &SignatureInput<'_>) -> bool {
        framing.signature == framing.anchor.bytes.as_slice()
    }
}

fn slots() -> CryptoSlots<GatewaySlot<EchoSlot>> {
    default_slots(EchoSlot)
}

fn ts(secs: i64, text: &str) -> Timestamp {
    Timestamp { secs, text: text.to_string() }
}

fn now() -> Timestamp {
    ts(1_788_782_400, "2026-09-07T12:00:00Z")
}

/// The instants that the tests name.
fn instant(text: &str) -> Option<Timestamp> {
    for (secs, known) in [
        (1_785_748_500, "2026-08-03T09:15:00Z"),
        (2_101_367_700, "2036-08-03T09:15:00Z"),
        (1_768_435_200, "2026-01-15T00:00:00Z"),
        (1_767_225_600, "2026-01-01T00:00:00Z"),
        (1_781_281_860, "2026-06-12T16:31:00Z"),
    ] {
        if known == text {
            return Some(ts(secs, text));
        }
    }
    None
}

/// Reads the identities that the tests use: GS1 element strings and 15459
/// URNs.
fn identity(display: &str) -> Option<ProductIdentifier> {
    let (scheme, key, lot, serial, granularity) = if let Some(key) = display.strip_prefix("cpid:") {
        (IdScheme::Cpid, key.to_string(), None, None, Granularity::Item)
    } else if let Some(rest) = display.strip_prefix("01+") {
        let (rest, serial) = match rest.split_once("+21+") {
            Some((rest, serial)) => (rest, Some(serial.to_string())),
            None => (rest, None),
        };
        let (key, lot) = match rest.split_once("+10+") {
            Some((key, lot)) => (key, Some(lot.to_string())),
            None => (rest, None),
        };
        if serial.is_some() {
            (IdScheme::Sgtin, key.to_string(), lot, serial, Granularity::Item)
        } else if lot.is_some() {
            (IdScheme::Gtin, key.to_string(), lot, None, Granularity::Batch)
        } else {
            (IdScheme::Gtin, key.to_string(), None, None, Granularity::Model)
        }
    } else {
        return None;
    };
    Some(ProductIdentifier {
        scheme,
        key,
        lot,
        serial,
        granularity,
        display: display.to_string(),
    })
}

/// A digest of 64 hexadecimal digits.
fn digest(data: &str) -> String {
    let mut out = String::new();
    for round in 0..4u64 {
        let mut h: u64 = 0xcbf2_9ce4_8422_2325 ^ round;
        for b in data.bytes() {
            h = (h ^ u64::from(b)).wrapping_mul(0x0000_0100_0000_01b3);
        }
        out.push_str(&format!("{h:016x}"));
    }
    out
}

fn mint(options: MintOptions) -> Passport {
    let display = options.id.replace("gtin:", "01+");
    let from = options.valid_from.unwrap_or_else(now);
    Passport {
        passport_id: options.passport_id.unwrap(),
        product_id: identity(&display).unwrap(),
        eo_id: options.eo_id.unwrap(),
        type_ref: options.type_ref,
        capability: options.capability,
        resolver_uri: options.resolver_uri.unwrap_or_default(),
        created_at: from.clone(),
        validity: Validity { from, to: options.valid_to },
        log: EventLog {
            sealed: vec![],
            current_status: Status::Issued,
            safety_flag: SafetyFlag::Clear,
            last_event_at: None,
            head: None,
            height: 0,
        },
        event_signatures: vec![],
    }
}

fn document(plan: FixturePlan) -> GatewayPassport {
    let mut doc = mint(plan.mint);
    for event in plan.events {
        let payload = match event.payload {
            PlannedPayload::InspectionStamp(stamp) => EventPayload::InspectionStamp {
                stamp: Stamp {
                    attester: stamp.attester.to_string(),
                    lens: stamp.lens.to_string(),
                    lens_version: stamp.lens_version.to_string(),
                    mode: "snapshot".to_string(),
                    verdict_summary: Some(stamp.verdict_summary.to_string()),
                    subject_state_commitment: digest(stamp.state_material),
                    log_anchored_at: stamp.log_anchored_at,
                },
            },
            _ => EventPayload::Other,
        };
        doc.log.last_event_at = Some(event.occurred_at.clone());
        doc.log.height += 1;
        doc.log.sealed.push(SealedEvent {
            seq: event.seq,
            occurred_at: event.occurred_at,
            trust: event.trust,
            payload,
            canonical_body: Some(vec![]),
        });
    }
    doc.log.head = Some(digest(&doc.passport_id));
    GatewayPassport::fixture(doc, plan.profiles)
}

fn laptop_passport() -> GatewayPassport {
    document(laptop())
}

fn tyre_passport() -> GatewayPassport {
    document(tyre())
}

fn source(issuer_url: Option<String>) -> PassportSource {
    PassportSource::new(all().into_iter().map(document).collect(), issuer_url)
}

const LAPTOP_PASSPORT_ID: &str = "urn:iso:std:iso-iec:15459:unidpp:passport:84120099012345";
const LAPTOP_PRODUCT_ID: &str = "cpid:urn:iso:std:iso-iec:15459:unidpp:inst:84120099012345";
const TYRE_GTIN: &str = "4006381333931";
const TYRE_PASSPORT_ID: &str = "urn:unidpp:passport:tyre-4006381333931";

// ---------------------------------------------------------------------------
// Reading documents
// ---------------------------------------------------------------------------

/// The value at a path of member names and array positions.
fn at<'a>(j: &'a Json, path: &str) -> &'a Json {
    let mut value = j;
    for step in path.split('/') {
        value = match value {
            Json::Array(items) => &items[step.parse::<usize>().unwrap()],
            _ => value.get(step).unwrap_or_else(|| panic!("no {step} on {path}")),
        };
    }
    value
}

fn str_of<'a>(j: &'a Json, path: &str) -> &'a str {
    at(j, path).as_str().unwrap_or_else(|| panic!("{path} is no text"))
}

fn items<'a>(j: &'a Json, path: &str) -> &'a Vec<Json> {
    at(j, path).as_array().unwrap_or_else(|| panic!("{path} is no array"))
}

fn keys(j: &Json) -> Vec<String> {
    match j {
        Json::Object(members) => {
            let mut names: Vec<String> = members.iter().map(|m| m.0.clone()).collect();
            names.sort();
            names
        }
        other => panic!("no object: {other:?}"),
    }
}

fn body_of(reply: &Reply) -> Json {
    match &reply.body {
        Body::Text(s) => parse_json(s).unwrap(),
        Body::Document(j) => j.copy(),
    }
}

fn header<'a>(reply: &'a Reply, name: &str) -> Option<&'a str> {
    reply.headers.iter().find(|h| h.0 == name).map(|h| h.1.as_str())
}

/// A scan gate without a policy.
fn open_gate() -> ScanGate {
    ScanGate::new(ScanPolicy { token_ttl_secs: 0, issue_limit_per_minute: 0 })
}

/// The headers of a request that presents no token.
fn no_token() -> ScanHeaders {
    ScanHeaders { scan: None, authorization: None }
}

/// The document as it travels: its shares are decimal fractions.
fn on_the_wire(document: &Json) -> Json {
    match document {
        Json::Ratio(part, of) => parse_json(&format!("{:?}", *part as f64 / *of as f64)).unwrap(),
        Json::Array(items) => Json::Array(items.iter().map(on_the_wire).collect()),
        Json::Object(members) => Json::Object(
            members.iter().map(|m| (m.0.clone(), on_the_wire(&m.1))).collect(),
        ),
        other => other.copy(),
    }
}

/// The triad that the service answers a request for an id with.
fn get_untp(source: &PassportSource, id: &str, freshness: Option<&str>) -> Reply {
    let store = IngestStore::new();
    let found = resolve_any(source.resolve(id), None, &store, id);
    untp_product(&mut open_gate(), &no_token(), freshness, found, &slots(), &now())
}

fn get_en(source: &PassportSource, gtin: &str, representation: Option<&str>) -> Reply {
    let found = source.resolve_gtin(gtin).answered(None);
    en18222_dpps(&mut open_gate(), &no_token(), representation, found, &now())
}

/// Ingests a body, the stand-in answering for the core.
fn ingest(store: &mut IngestStore, body: &Json) -> Result<IngestOutcome, String> {
    let question = ingest_question(body)?;
    let read = identity(&question.identifier.display);
    let hash = match &read {
        Some(id) => digest(&identity_material(id)),
        None => digest(""),
    };
    let passport_id = derived_passport_id(&hash);
    let minted = match &read {
        Some(id) if !store.knows(&passport_id) => {
            let from = question.valid_from.as_deref().and_then(instant);
            let to = question.valid_until.as_deref().and_then(instant);
            Ok(mint(mint_options(&question, id, &passport_id, from, to)))
        }
        _ => Err("not asked".to_string()),
    };
    let answers = IngestAnswers {
        identity: read,
        digest: hash,
        credential_dates: question
            .credential_dates
            .iter()
            .map(|d| d.as_deref().and_then(instant))
            .collect(),
        minted,
        commitment: digest(&question.stub_text),
    };
    store.ingest(body, answers, &now())
}

// ---------------------------------------------------------------------------
// Fixtures and the source
// ---------------------------------------------------------------------------

#[test]
fn laptop_fixture_matches_the_pilot_identity() {
    let plan = laptop();
    assert_eq!(
        plan.mint.passport_id.as_deref(),
        Some("urn:iso:std:iso-iec:15459:unidpp:passport:84120099012345")
    );
    assert_eq!(
        plan.mint.id,
        "cpid:urn:iso:std:iso-iec:15459:unidpp:inst:84120099012345"
    );
    assert_eq!(plan.events.len(), 4);
    assert_eq!(
        plan.events[2].payload,
        PlannedPayload::SoftwareUpdate {
            component: "system-firmware",
            version: "1.07",
            unlocked_features: vec![],
        }
    );
    assert_eq!(plan.profiles.len(), 2);
    assert_eq!(plan.profiles[0].id, "urn:unidpp:profile:eu-espr-electronics");
    assert_eq!(plan.profiles[1].version, "2026.2");
    assert_eq!(plan.events[3].occurred_at, ts(1_802_342_640, "2027-02-11T10:44:00Z"));
}

#[test]
fn tyre_fixture_carries_the_e8_event_and_stamp() {
    let plan = tyre();
    assert_eq!(plan.mint.id, "gtin:4006381333931");
    assert_eq!(plan.events.len(), 3);
    assert_eq!(
        plan.events[0].payload,
        PlannedPayload::Issuance { derived: false, inputs: vec![] }
    );
    assert!(matches!(plan.events[1].payload, PlannedPayload::ConsumableReplace { .. }));
    match &plan.events[2].payload {
        PlannedPayload::InspectionStamp(stamp) => {
            assert_eq!(stamp.coverage_report, None);
            assert_eq!(stamp.quantity_context, None);
        }
        other => panic!("no stamp: {other:?}"),
    }
    assert_eq!(plan.profiles.len(), 1);
    assert_eq!(plan.profiles[0].version, "1.0.0");
}

#[test]
fn fixtures_are_deterministic_in_their_evidence() {
    assert_eq!(tyre(), tyre());
    assert_eq!(laptop(), laptop());
    assert_eq!(document(tyre()).document, document(tyre()).document);
}

#[test]
fn fixture_events_stand_in_order() {
    for plan in all() {
        let mut last = i64::MIN;
        for (i, event) in plan.events.iter().enumerate() {
            assert_eq!(event.seq, i as u64);
            assert!(event.occurred_at.secs >= last);
            last = event.occurred_at.secs;
        }
    }
}

#[test]
fn fixtures_resolve_by_passport_id_product_id_and_gtin() {
    let source = source(None);
    let by_passport = source
        .fixture_match("urn:iso:std:iso-iec:15459:unidpp:passport:84120099012345")
        .expect("laptop by passport id");
    assert_eq!(by_passport.origin, Origin::Fixture);
    assert!(source
        .fixture_match("cpid:urn:iso:std:iso-iec:15459:unidpp:inst:84120099012345")
        .is_some());
    assert!(source.fixture_match("4006381333931").is_some());
    assert!(source.fixture_match("urn:unidpp:passport:nope").is_none());
}

#[test]
fn lookups_ask_the_issuer_only_where_no_fixture_answers() {
    let upstream = source(Some("http://127.0.0.1:8091/".into()));
    assert!(matches!(upstream.resolve(LAPTOP_PRODUCT_ID), Lookup::Found(_)));
    assert!(matches!(upstream.resolve("urn:x"), Lookup::Issuer("http://127.0.0.1:8091")));
    assert!(matches!(upstream.resolve_gtin(TYRE_GTIN), Lookup::Found(_)));
    assert!(matches!(upstream.resolve_gtin(TYRE_PASSPORT_ID), Lookup::Issuer(_)));
    assert!(matches!(source(None).resolve("urn:x"), Lookup::Missing));
    assert!(matches!(source(None).resolve_gtin(LAPTOP_PRODUCT_ID), Lookup::Missing));
}

#[test]
fn config_profiles_split_on_version_pin() {
    let view = parse_json(r#"{"config": ["urn:p:a@1.2.3", "urn:p:b", ""]}"#).unwrap();
    let profiles = parse_config_profiles(&view);
    assert_eq!(profiles.len(), 2);
    assert_eq!(profiles[0].id, "urn:p:a");
    assert_eq!(profiles[0].version, "1.2.3");
    assert_eq!(profiles[1].version, "0");
    let odd = parse_json(r#"{"config": [3, " urn:c @ 2@3 ", " "]}"#).unwrap();
    let pinned = parse_config_profiles(&odd);
    assert_eq!(pinned.len(), 1);
    assert_eq!(pinned[0].id, "urn:c");
    assert_eq!(pinned[0].version, "2@3");
    assert!(parse_config_profiles(&text("x")).is_empty());
}

#[test]
fn issuer_url_trims_trailing_slashes() {
    let with_slash = source(Some("http://127.0.0.1:8091/".into()));
    assert_eq!(with_slash.issuer_url(), Some("http://127.0.0.1:8091"));
    assert!(source(Some("   ".into())).issuer_url().is_none());
    assert!(source(None).issuer_url().is_none());
}

#[test]
fn fixture_index_lists_both_fixtures() {
    let source = source(None);
    let index = source.fixture_index();
    assert_eq!(index.len(), 2);
    assert!(index.iter().any(|v| v.get("gtin").is_some()));
}

#[test]
fn an_issuer_answer_becomes_a_passport_with_anchors() {
    assert!(issuer_view(404, "{}").is_none());
    assert!(issuer_view(200, "{").is_none());
    let view = issuer_view(200, r#"{"config": ["urn:unidpp:profile:test-lens@9.9.9"]}"#).unwrap();
    let keyring = parse_json(
        r#"{"roles": {
            "a": {"key_id": "k-1", "public": "0a", "suite": "ed25519"},
            "b": {"key_id": "k-2", "public": "0b", "suite": "sm2"},
            "c": {"key_id": "k-3", "suite": "ed25519"},
            "d": {"key_id": "k-4", "public": "zz", "suite": "ed25519"}
        }}"#,
    )
    .unwrap();
    let keys = keyring_keys(keyring_roles(&keyring).unwrap());
    assert_eq!(keys.len(), 2);
    assert_eq!(keys[0].public_hex, "0a");
    assert_eq!(keys[1].key_id, "k-4");
    assert!(keyring_roles(&text("x")).is_none());
    let anchors = collect_anchors(&keys, vec![Some(vec![10]), None]);
    assert_eq!(anchors.get("k-1").unwrap().bytes, vec![10]);
    assert!(anchors.get("k-4").is_none());

    let mut doc = tyre_passport().document;
    doc.event_signatures.push(EventSignature {
        seq: 0,
        suite: "ed25519".to_string(),
        key_id: "k-1".to_string(),
        signature: Some(vec![10]),
    });
    let p = issuer_passport(&view, doc, anchors);
    let triad = render_triad(&p, &now(), None, &slots());
    assert_eq!(str_of(&triad, "rendering/source"), "issuer");
    assert_eq!(
        str_of(&triad, "passport/standardsConformance/0/standard"),
        "urn:unidpp:profile:test-lens"
    );
    assert_eq!(str_of(&triad, "passport/standardsConformance/0/conformanceVersion"), "9.9.9");
    assert_eq!(str_of(&triad, "verdict/outcome"), "pass");
    assert_eq!(str_of(&triad, "verdict/achievedMarker"), "third-party-attested");
    assert_eq!(at(&triad, "verdict/coverage/signatures/verified").as_u64(), Some(1));
    assert_eq!(at(&triad, "verdict/coverage/anchorCoverage"), &Json::Ratio(1, 1));
}

#[test]
fn issuer_mode_renders_and_verifies_live() {
    // What the issuer answers: the passport view, its document and the keyring.
    let id = "urn:unidpp:passport:iss-gw-1";
    let view = issuer_view(200, r#"{"config": ["urn:unidpp:profile:test-lens@9.9.9"]}"#).unwrap();
    let keyring = issuer_view(
        200,
        r#"{"roles": {"event": {"key_id": "iss-event", "public": "07", "suite": "ed25519"}}}"#,
    )
    .unwrap();
    let keys = keyring_keys(keyring_roles(&keyring).unwrap());
    let anchors = collect_anchors(&keys, vec![Some(vec![7])]);
    let mut doc = mint(MintOptions {
        id: "gtin:5012345100036".to_string(),
        granularity: None,
        type_ref: None,
        capability: "S1".to_string(),
        eo_id: Some("eo-gateway-test".to_string()),
        resolver_uri: None,
        passport_id: Some(id.to_string()),
        valid_from: Some(ts(1_577_836_800, "2020-01-01T00:00:00Z")),
        valid_to: Some(ts(2_208_988_800, "2040-01-01T00:00:00Z")),
    });
    doc.log.sealed.push(SealedEvent {
        seq: 0,
        occurred_at: now(),
        trust: TrustMarker::Attested,
        payload: EventPayload::Other,
        canonical_body: Some(vec![1, 2, 3]),
    });
    doc.log.height = 1;
    doc.event_signatures.push(EventSignature {
        seq: 0,
        suite: "ed25519".to_string(),
        key_id: "iss-event".to_string(),
        signature: Some(vec![7]),
    });
    let issued = issuer_passport(&view, doc, anchors);

    let source = source(Some("http://127.0.0.1:8091".into()));
    let store = IngestStore::new();
    let found = resolve_any(source.resolve(id), Some(&issued), &store, id);
    let reply = untp_product(&mut open_gate(), &no_token(), None, found, &slots(), &now());
    assert_eq!(reply.status, 200);
    let triad = body_of(&reply);
    assert_eq!(str_of(&triad, "rendering/source"), "issuer");
    assert_eq!(str_of(&triad, "passport/id"), id);
    assert_eq!(str_of(&triad, "passport/passportIssuer/id"), "eo-gateway-test");
    // The issuer view's config vector becomes the conformity claim.
    assert_eq!(
        str_of(&triad, "passport/standardsConformance/0/standard"),
        "urn:unidpp:profile:test-lens"
    );
    assert_eq!(str_of(&triad, "passport/standardsConformance/0/conformanceVersion"), "9.9.9");
    // The verdict verified the event signature against the keyring's anchor.
    assert_eq!(str_of(&triad, "verdict/outcome"), "pass");
    assert_eq!(str_of(&triad, "verdict/achievedMarker"), "third-party-attested");
    assert_eq!(at(&triad, "verdict/coverage/signatures/verified").as_u64(), Some(1));
    assert_eq!(at(&triad, "verdict/coverage/anchorCoverage"), &Json::Ratio(1, 1));

    // The EN route renders the issuer passport when addressed by its passport
    // id.
    let by_pid = en18222_dpps(
        &mut open_gate(),
        &no_token(),
        Some("compressed"),
        source.resolve_gtin(id).answered(Some(&issued)),
        &now(),
    );
    assert_eq!(by_pid.status, 200);
    let en = body_of(&by_pid);
    assert_eq!(str_of(&en, "digitalProductPassportId"), id);
    assert_eq!(
        at(&en, "contentSpecificationIds"),
        &Json::Array(vec![text("EN 18223:2026"), text("urn:unidpp:profile:test-lens@9.9.9")])
    );
}

// ---------------------------------------------------------------------------
// UNTP
// ---------------------------------------------------------------------------

#[test]
fn scheme_mapping_round_trips_both_directions() {
    assert_eq!(scheme_uri(&IdScheme::Cpid), "https://unidpp.org/id/");
    assert_eq!(scheme_uri(&IdScheme::Gtin), "https://gs1.org/voc/");
    assert_eq!(scheme_token("https://unidpp.org/id/"), "cpid");
    assert_eq!(scheme_token("https://gs1.org/voc/"), "gtin");
    assert_eq!(scheme_token("https://example.org/other"), "https://example.org/other");
    assert_eq!(scheme_token("urn:epc:id:"), "gtin");
    assert_eq!(scheme_token("https://www.w3.org/ns/"), "cpid");
    assert_eq!(scheme_uri(&IdScheme::Other("x".to_string())), "x");
    assert_eq!(scheme_uri(&IdScheme::Gln), "https://gs1.org/voc/");
}

#[test]
fn gs1_values_use_parenthesized_application_identifiers() {
    let id = identity("01+4006381333931+10+LOT9").unwrap();
    assert_eq!(untp_identifier_value(&id), "(01)4006381333931(10)LOT9");
    let back = core_identifier_value("gtin", "(01)4006381333931(10)LOT9");
    assert_eq!(back, "01+4006381333931+10+LOT9");
    assert_eq!(identity(&back).unwrap(), id);
    assert_eq!(core_identifier_value("gtin", "4006381333931"), "01+4006381333931");
    assert_eq!(core_identifier_value("gtin", "01+1"), "01+1");
    assert_eq!(core_identifier_value("cpid", "cpid:x"), "cpid:x");
    let item = identity("01+4006381333931+10+L+21+S7").unwrap();
    assert_eq!(untp_identifier_value(&item), "(01)4006381333931(10)L(21)S7");
    assert_eq!(core_identifier_value("gtin", "(01)4006381333931(10)L(21)S7"), item.display);
}

#[test]
fn triad_shape_carries_the_stub_fields_the_py_parser_reads() {
    let triad = render_triad(&laptop_passport(), &now(), None, &slots());
    assert_eq!(str_of(&triad, "rendering/profile"), UNTP_PROFILE);
    assert_eq!(str_of(&triad, "rendering/source"), "fixture");
    assert_eq!(
        str_of(&triad, "passport/id"),
        "urn:iso:std:iso-iec:15459:unidpp:passport:84120099012345"
    );
    assert_eq!(
        str_of(&triad, "passport/productIdentifiers/0/scheme"),
        "https://unidpp.org/id/"
    );
    assert_eq!(
        str_of(&triad, "passport/productIdentifiers/0/value"),
        "cpid:urn:iso:std:iso-iec:15459:unidpp:inst:84120099012345"
    );
    assert_eq!(str_of(&triad, "passport/passportIssuer/id"), "urn:unidpp:actor:oem-nordwave");
    assert_eq!(str_of(&triad, "passport/validFrom"), "2026-08-03T09:15:00Z");
    assert_eq!(str_of(&triad, "passport/validUntil"), "2036-08-03T09:15:00Z");
    assert_eq!(items(&triad, "passport/standardsConformance").len(), 2);
    assert_eq!(str_of(&triad, "link/target"), "https://dpp.unidpp.org/r/84120099012345");
    assert_eq!(at(&triad, "link/anchor/height").as_u64(), Some(4));
    assert_eq!(str_of(&triad, "verdict/outcome"), "pass");
    // Laptop has no inspection stamps: conformity = profiles only.
    assert_eq!(items(&triad, "conformity").len(), 2);
}

#[test]
fn tyre_stamp_becomes_a_third_party_conformity_credential() {
    let triad = render_triad(&tyre_passport(), &now(), None, &slots());
    assert_eq!(items(&triad, "conformity").len(), 2); // profile + stamp
    let credential = at(&triad, "conformity/1");
    assert_eq!(str_of(credential, "credentialSubject/assessmentLevel"), "third-party");
    assert_eq!(
        str_of(credential, "credentialSubject/conformity/standard"),
        "urn:unidpp:profile:eu-tyre-label"
    );
    assert_eq!(str_of(credential, "issuer/id"), "urn:unidpp:actor:verifier-tuv");
    assert_eq!(
        str_of(credential, "id"),
        "urn:unidpp:passport:tyre-4006381333931#conformity-stamp-2"
    );
    assert_eq!(
        str_of(&triad, "conformity/0/id"),
        "urn:unidpp:passport:tyre-4006381333931#conformity-profile-eu-tyre-label"
    );
}

#[test]
fn a_weaker_stamp_without_a_summary_is_a_self_assessment() {
    let mut p = tyre_passport();
    p.document.log.sealed[2].trust = TrustMarker::SelfDeclared;
    if let EventPayload::InspectionStamp { stamp } = &mut p.document.log.sealed[2].payload {
        stamp.verdict_summary = None;
    }
    p.document.validity.to = None;
    p.document.log.head = None;
    let triad = render_triad(&p, &now(), None, &slots());
    let subject = at(&triad, "conformity/1/credentialSubject");
    assert_eq!(str_of(subject, "assessmentLevel"), "self-assessment");
    assert_eq!(str_of(subject, "criteria"), "inspection stamp");
    assert!(at(&triad, "passport").get("validUntil").is_none());
    assert_eq!(at(&triad, "link/anchor/logHead"), &Json::Null);
}

#[test]
fn render_then_parse_round_trips_through_the_adapter_semantics() {
    for p in [laptop_passport(), tyre_passport()] {
        let triad = render_triad(&p, &now(), None, &slots());
        let stub = at(&triad, "passport");
        let id = stub_identifier(stub).expect("stub carries an identifier");
        assert_eq!(id.display, p.document.product_id.display);
        let commitment = digest(&stub_commitment_material(stub));
        let read = identity(&id.display).ok_or("unread".to_string());
        let manifest =
            parse_stub(stub, "2026-09-07T12:00:00Z", &read, &commitment).expect("stub parses");
        // The subject identity round-trips to the core form.
        assert_eq!(str_of(&manifest, "subjectId/value"), p.document.product_id.display);
        // The mint rule: a 15459 passport URN over the slug of the stub's
        // identifier value.
        let raw_value = str_of(&triad, "passport/productIdentifiers/0/value");
        assert_eq!(
            str_of(&manifest, "passportId/value"),
            format!("urn:iso:std:iso-iec:15459:unidpp:passport:{}", slug(raw_value))
        );
        assert_eq!(str_of(&manifest, "passportId/state"), "live");
        assert_eq!(str_of(&manifest, "status"), "active");
        // The original passport id rides the stub `id` (log URI).
        assert_eq!(str_of(&manifest, "eventLog/logUri"), p.document.passport_id);
        let profiles = items(&manifest, "profiles");
        assert_eq!(profiles.len(), p.profiles.len());
        for (got, want) in profiles.iter().zip(p.profiles.iter()) {
            assert_eq!(str_of(got, "profileId"), want.id);
            assert_eq!(str_of(got, "version"), want.version);
        }
        // The import receipt: the commitment over the rendered stub.
        assert_eq!(str_of(&manifest, "eventLog/commitment"), commitment);
    }
}

#[test]
fn py_mint_rule_examples() {
    // The value "(01)0950..." slugs to the bare digit run (parentheses are
    // not slug characters).
    assert_eq!(slug("(01)09506000109347"), "0109506000109347");
    // The laptop subject is already slug-clean.
    let subject = "cpid:urn:iso:std:iso-iec:15459:unidpp:inst:84120099012345";
    assert_eq!(slug(subject), subject);
}

#[test]
fn parser_rejects_non_passports_and_missing_identifiers() {
    let parse = |s: &str| {
        let stub = parse_json(s).unwrap();
        let read = match stub_identifier(&stub) {
            Ok(id) => identity(&id.display).ok_or("unread".to_string()),
            Err(e) => Err(e),
        };
        parse_stub(&stub, "now", &read, "c")
    };
    assert!(parse(r#"{"type": "Thing"}"#).is_err());
    assert!(parse(r#"{"type": "ProductPassport"}"#).is_err());
    assert!(parse(r#"{"type": "ProductPassport", "productIdentifiers": [{"scheme": "https://gs1.org/voc/", "value": ""}]}"#).is_err());
    assert!(parse(r#"{"type": "ProductPassport", "productIdentifiers": [{"scheme": "https://gs1.org/voc/", "value": "(01)4006381333931"}], "passportIssuer": "nope"}"#).is_err());
    assert!(parse(r#"{"type": "ProductPassport", "productIdentifiers": [{"scheme": "https://gs1.org/voc/", "value": "(01)4006381333931"}], "passportIssuer": {}}"#).is_ok());
}

#[test]
fn each_refused_stub_says_why() {
    let read: Result<ProductIdentifier, String> = Ok(identity("01+1").unwrap());
    let why = |s: &str| parse_stub(&parse_json(s).unwrap(), "now", &read, "c").unwrap_err();
    assert_eq!(why("[]"), "stub must be a JSON object");
    assert_eq!(why(r#"{"type": "Thing"}"#), "not a passport stub: type=\"Thing\"");
    assert_eq!(
        why(r#"{"type": ["A\"", 3, "B"]}"#),
        "not a passport stub: type=\"A\\\",B\""
    );
    assert_eq!(why(r#"{"type": "PASSPORT"}"#), "stub has no productIdentifiers");
    assert_eq!(why(r#"{"productIdentifiers": []}"#), "stub has no productIdentifiers");
    assert_eq!(why(r#"{"productIdentifiers": ["x"]}"#), "stub has no productIdentifiers");
    assert_eq!(why(r#"{"productIdentifiers": [{}]}"#), "identifier carries no value");
    assert_eq!(
        why(r#"{"productIdentifiers": [{"value": "1"}], "passportIssuer": null}"#),
        "passportIssuer must be an object"
    );
    let unread: Result<ProductIdentifier, String> = Err("no such identity".to_string());
    let stub = parse_json(r#"{"productIdentifiers": [{"value": "1"}]}"#).unwrap();
    assert_eq!(parse_stub(&stub, "now", &unread, "c").unwrap_err(), "no such identity");
}

#[test]
fn a_bare_stub_parses_with_its_defaults() {
    let stub = parse_json(
        r#"{"productIdentifiers": [{"value": "4006381333931"}], "id": "",
            "standardsConformance": [{}, 3, {"standard": "s", "version": "2"},
                                     {"conformanceVersion": 1, "version": "3"}]}"#,
    )
    .unwrap();
    let id = stub_identifier(&stub).unwrap();
    assert_eq!(id.display, "01+4006381333931");
    assert_eq!(id.scheme, "gtin");
    let read: Result<ProductIdentifier, String> = Ok(identity(&id.display).unwrap());
    let manifest = parse_stub(&stub, "2026-09-07T00:00:00Z", &read, "c").unwrap();
    assert_eq!(str_of(&manifest, "eventLog/logUri"), "urn:unidpp:import:01+4006381333931");
    assert_eq!(str_of(&manifest, "subjectId/granularity"), "model");
    assert_eq!(str_of(&manifest, "asOf"), "2026-09-07T00:00:00Z");
    let profiles = items(&manifest, "profiles");
    assert_eq!(profiles.len(), 3);
    assert_eq!(str_of(&profiles[0], "profileId"), "urn:unidpp:profile:untp");
    assert_eq!(str_of(&profiles[0], "version"), "0");
    assert_eq!(str_of(&profiles[1], "version"), "2");
    assert_eq!(str_of(&profiles[2], "version"), "0");
    assert_eq!(str_of(&profiles[2], "effective/from"), "2026-09-07T00:00:00Z");
}

#[test]
fn slug_matches_the_py_normalization() {
    assert_eq!(slug("urn:x-Y_Z.9"), "urn:x-y_z.9");
    assert_eq!(slug("///"), "unknown");
    assert_eq!(slug("ÄÖ İ"), "äöi\u{307}");
}

#[test]
fn freshness_requirement_reaches_the_verdict() {
    let triad = render_triad(&tyre_passport(), &now(), Some("PT1H"), &slots());
    // Tyre evidence is 2026-06-12: stale under a 1-hour budget.
    assert_eq!(str_of(&triad, "verdict/freshness"), "stale");
    assert_eq!(str_of(&triad, "verdict/outcome"), "degraded");
}

#[test]
fn profile_ref_wire_shape() {
    let profile = ProfileRef {
        id: "urn:p".into(),
        version: "2".into(),
        effective_from: instant("2026-01-01T00:00:00Z"),
    };
    assert_eq!(profile.id, "urn:p");
    assert_eq!(profile.clone(), profile);
}

// ---------------------------------------------------------------------------
// EN 18222
// ---------------------------------------------------------------------------

const FULL_KEYS: &[&str] = &[
    "digitalProductPassportId",
    "uniqueProductIdentifier",
    "granularity",
    "dppSchemaVersion",
    "dppStatus",
    "lastUpdated",
    "economicOperatorId",
    "facilityId",
    "contentSpecificationIds",
    "elements",
];

#[test]
fn representation_parameter_rules() {
    assert_eq!(Representation::parse(None).unwrap(), Representation::Compressed);
    assert_eq!(Representation::parse(Some("")).unwrap(), Representation::Compressed);
    assert_eq!(Representation::parse(Some("full")).unwrap(), Representation::Full);
    assert_eq!(Representation::parse(Some("compressed")).unwrap(), Representation::Compressed);
    assert!(Representation::parse(Some("json")).is_err());
}

#[test]
fn representations_by_name() {
    assert_eq!(Representation::parse(Some(" full ")).unwrap(), Representation::Full);
    assert_eq!(
        Representation::parse(Some(" FULL ")).unwrap_err(),
        "unknown representation `FULL` (expected full|compressed)"
    );
    assert_eq!(Representation::Full.as_str(), "full");
    assert_eq!(Representation::Compressed.as_str(), "compressed");
}

#[test]
fn full_render_matches_the_artifact_field_set() {
    let v = render(&tyre_passport(), Representation::Full, &now());
    assert_eq!(keys(&v).len(), FULL_KEYS.len());
    for key in FULL_KEYS {
        assert!(v.get(key).is_some(), "full render misses `{key}`");
    }
    // Header semantics.
    assert_eq!(str_of(&v, "dppSchemaVersion"), "0.1");
    assert_eq!(str_of(&v, "dppStatus"), "active");
    assert_eq!(str_of(&v, "granularity"), "Model");
    assert_eq!(str_of(&v, "uniqueProductIdentifier"), "4006381333931");
    assert_eq!(str_of(&v, "digitalProductPassportId"), "urn:unidpp:passport:tyre-4006381333931");
    assert_eq!(str_of(&v, "economicOperatorId"), "urn:unidpp:actor:tyre-oem-conti");
    assert_eq!(at(&v, "facilityId"), at(&v, "economicOperatorId"));
    // Full prints to the second, no fraction, no Z (artifact form).
    assert_eq!(str_of(&v, "lastUpdated"), "2026-06-12T16:31:00");
    assert_eq!(
        at(&v, "contentSpecificationIds"),
        &Json::Array(vec![text("EN 18223:2026"), text("urn:unidpp:profile:eu-tyre-label@1.0.0")])
    );
    // Element tree: collections of single-valued elements, every value
    // printed as a string.
    let elements = items(&v, "elements");
    assert!(elements.len() >= 4);
    for collection in elements {
        for key in ["elementId", "objectType", "dictionaryReference", "elements"] {
            assert!(collection.get(key).is_some());
        }
        assert_eq!(str_of(collection, "objectType"), "DataElementCollection");
        for element in items(collection, "elements") {
            assert_eq!(
                keys(element),
                vec![
                    "dictionaryReference",
                    "elementId",
                    "objectType",
                    "value",
                    "valueDataType"
                ],
                "the full-form leaf field set is frozen to the artifact's"
            );
            assert_eq!(str_of(element, "objectType"), "SingleValuedDataElement");
            assert!(at(element, "value").as_str().is_some(), "full-form values are strings");
        }
    }
}

#[test]
fn compressed_render_matches_the_artifact_field_set_and_types_natively() {
    let v = render(&tyre_passport(), Representation::Compressed, &now());
    assert!(v.get("elements").is_none(), "compressed drops the element tree");
    assert_eq!(keys(&v).len(), FULL_KEYS.len() - 1 + 4); // header minus elements + 4 collections
    // The .NET "o" form the artifact prints (7-digit fraction).
    assert_eq!(str_of(&v, "lastUpdated"), "2026-06-12T16:31:00.0000000");
    // Native typing: booleans and integers, not strings.
    assert_eq!(at(&v, "caStateSafety/_p_d_RecallActive"), &Json::Bool(false));
    assert_eq!(at(&v, "caStateSafety/_p_d_LogHeight"), &Json::Unsigned(3));
    assert_eq!(str_of(&v, "caStateSafety/_p_d_TrustMarker"), "attested");
    assert!(at(&v, "caStateSafety/_p_d_LogHead").as_str().is_some());
    // Conformity evidence carries the stamp.
    assert!(str_of(&v, "cbConformityEvidence/_p_d_Stamp_2").contains("verifier-tuv"));
}

/// Checks that the string print and the native value agree, leaf by leaf;
/// returns how many leaves there are.
fn leaves_agree(full: &Json, compressed: &Json) -> usize {
    let mut leaves = 0;
    for collection in items(full, "elements") {
        let id = str_of(collection, "elementId");
        let flat = compressed.get(id).unwrap_or_else(|| panic!("compressed misses collection {id}"));
        for element in items(collection, "elements") {
            leaves += 1;
            let printed = str_of(element, "value");
            match flat.get(str_of(element, "elementId")).unwrap() {
                Json::Bool(b) => assert_eq!(printed, b.to_string()),
                Json::Unsigned(n) => assert_eq!(printed, n.to_string()),
                Json::Text(s) => assert_eq!(printed, s),
                other => panic!("unexpected native value {other:?}"),
            }
        }
        assert_eq!(keys(flat).len(), items(collection, "elements").len());
    }
    leaves
}

#[test]
fn full_and_compressed_agree_on_every_leaf() {
    let full = render(&laptop_passport(), Representation::Full, &now());
    let compressed = render(&laptop_passport(), Representation::Compressed, &now());
    assert!(leaves_agree(&full, &compressed) >= 12);
}

#[test]
fn laptop_renders_its_two_profiles_and_no_stamps() {
    let v = render(&laptop_passport(), Representation::Compressed, &now());
    let cb = at(&v, "cbConformityEvidence");
    assert_eq!(
        str_of(cb, "_p_d_Profile_eu-espr-electronics"),
        "urn:unidpp:profile:eu-espr-electronics@1.3.0"
    );
    assert_eq!(str_of(cb, "_p_d_Profile_jp-meti-pse"), "urn:unidpp:profile:jp-meti-pse@2026.2");
    assert_eq!(at(&v, "caStateSafety/_p_d_LogHeight"), &Json::Unsigned(4));
    assert_eq!(at(&v, "caStateSafety/_p_d_RecallActive"), &Json::Bool(false));
}

#[test]
fn render_is_pure_over_the_stamp_instant() {
    let a = render(
        &tyre_passport(),
        Representation::Full,
        &ts(1_767_225_600, "2026-01-01T00:00:00Z"),
    );
    let b = render(
        &tyre_passport(),
        Representation::Full,
        &ts(1_893_456_000, "2030-01-01T00:00:00Z"),
    );
    assert_eq!(a, b, "the EN body is frozen; the as-of stamp rides the header");
}

#[test]
fn profiles_render_distinctly_from_the_untp_profile() {
    assert_ne!(EN18222_PROFILE, UNTP_PROFILE);
    assert_eq!(EN18222_PROFILE, "urn:unidpp:profile:render:en18222");
}

#[test]
fn a_passport_without_claims_says_so() {
    let mut p = laptop_passport();
    p.profiles.clear();
    p.document.type_ref = None;
    p.document.log.last_event_at = None;
    p.document.log.sealed.clear();
    p.document.log.current_status = Status::Other("suspended".to_string());
    p.document.log.safety_flag = SafetyFlag::Raised;
    p.document.log.head = None;
    let v = render(&p, Representation::Compressed, &now());
    assert_eq!(str_of(&v, "cbConformityEvidence/_p_d_NoClaims"), "no profile bound");
    assert_eq!(str_of(&v, "dppStatus"), "suspended");
    assert_eq!(str_of(&v, "granularity"), "Item");
    assert_eq!(str_of(&v, "uniqueProductIdentifier"), LAPTOP_PRODUCT_ID);
    assert_eq!(str_of(&v, "lastUpdated"), "2026-08-03T09:15:00.0000000");
    assert_eq!(at(&v, "caStateSafety/_p_d_RecallActive"), &Json::Bool(true));
    assert_eq!(str_of(&v, "caStateSafety/_p_d_TrustMarker"), "unsigned");
    assert_eq!(str_of(&v, "caStateSafety/_p_d_LogHead"), "");
    let full = render(&p, Representation::Full, &now());
    assert_eq!(str_of(&full, "elements/1/elements/1/value"), "true");
    assert_eq!(
        str_of(&full, "elements/3/elements/1/value"),
        format!("/untp/product/{LAPTOP_PASSPORT_ID}")
    );
}

// ---------------------------------------------------------------------------
// Ingest
// ---------------------------------------------------------------------------

fn stub_text() -> String {
    r#"{
        "@context": ["https://www.w3.org/ns/credentials/v2"],
        "type": ["VerifiableCredential", "DigitalProductPassport"],
        "id": "https://example.org/passports/42",
        "passportIssuer": {"id": "https://example.org/docs/issuer", "name": "Example Issuer"},
        "validFrom": "2026-01-15T00:00:00Z",
        "productIdentifiers": [{
            "scheme": "https://ref.gs1.org/",
            "value": "(01)4006381333931(21)SN7"
        }]
    }"#
    .to_string()
}

fn stub() -> Json {
    parse_json(&stub_text()).unwrap()
}

#[test]
fn triad_ingests_with_profile_bindings_and_receipt() {
    let mut store = IngestStore::new();
    let triad = parse_json(&format!(
        r#"{{
            "passport": {},
            "conformity": [{{
                "type": ["VerifiableCredential", "DigitalConformityCredential"],
                "credentialSubject": {{
                    "type": "ConformityAttestation",
                    "conformity": {{"standard": "urn:unidpp:profile:eu-espr-battery-v3", "version": "3.0"}}
                }},
                "validFrom": "2026-01-15T00:00:00Z"
            }}],
            "link": {{"linkType": "untp-dpp", "target": "https://example.org/r/42"}}
        }}"#,
        stub_text()
    ))
    .unwrap();
    let outcome = ingest(&mut store, &triad).unwrap();
    assert_eq!(outcome.status, IngestStatus::Imported);
    assert_eq!(outcome.profiles.len(), 1);
    assert_eq!(outcome.profiles[0].id, "urn:unidpp:profile:eu-espr-battery-v3");
    assert_eq!(outcome.profiles[0].version, "3.0");
    assert_eq!(outcome.profiles[0].effective_from, instant("2026-01-15T00:00:00Z"));
    assert!(outcome.passport.document.passport_id.starts_with("urn:unidpp:passport:untp-"));
    assert_eq!(outcome.passport.document.product_id.scheme, IdScheme::Sgtin);
    assert_eq!(outcome.passport.document.eo_id, "https://example.org/docs/issuer");
    assert_eq!(outcome.passport.document.resolver_uri, "https://example.org/r/42");
    assert_eq!(at(&outcome.receipt, "conformity_credentials").as_u64(), Some(1));
    assert_eq!(at(&outcome.receipt, "profile_bindings").as_u64(), Some(1));
    assert_eq!(str_of(&outcome.receipt, "commitment").len(), 64);
    assert_eq!(str_of(&outcome.receipt, "source/stub_id"), "https://example.org/passports/42");
    assert_eq!(str_of(&outcome.receipt, "source/identifier_scheme"), "https://ref.gs1.org/");
    assert_eq!(str_of(&outcome.receipt, "source/imported_at"), now().text);
    assert!(items(&outcome.receipt, "warnings").is_empty());
    assert_eq!(store.len(), 1);
}

#[test]
fn re_ingest_matches_and_a_different_stub_for_the_same_subject_matches_too() {
    let mut store = IngestStore::new();
    let outcome = ingest(&mut store, &stub()).unwrap();
    let id = outcome.passport.document.passport_id.clone();
    // Same triad again: matched, no duplicate.
    let again = ingest(&mut store, &stub()).unwrap();
    assert_eq!(again.status, IngestStatus::Matched);
    assert_eq!(again.passport.document.passport_id, id);
    assert_eq!(again.receipt, outcome.receipt);
    assert_eq!(store.len(), 1);
    // A different stub id for the same subject: still the same core identity.
    let other = parse_json(&stub_text().replace(
        "https://example.org/passports/42",
        "https://other.example.org/passport/7",
    ))
    .unwrap();
    let matched = ingest(&mut store, &other).unwrap();
    assert_eq!(matched.status, IngestStatus::Matched);
    assert_eq!(matched.passport.document.passport_id, id);
    assert_eq!(store.len(), 1);
}

#[test]
fn ingest_unknown_scheme_degrades_explicitly() {
    let mut store = IngestStore::new();
    let exotic = parse_json(
        &stub_text()
            .replace("https://ref.gs1.org/", "https://example.org/schemes/exotic/")
            .replace("(01)4006381333931(21)SN7", "XYZ-42"),
    )
    .unwrap();
    let err = match ingest(&mut store, &exotic) {
        Err(e) => e,
        Ok(_) => panic!("an exotic scheme was ingested"),
    };
    assert!(err.contains("no C8 mapping"), "{err}");
    assert!(err.starts_with("identifier scheme `https://example.org/schemes/exotic/` (token `https://example.org/schemes/exotic/`, value `XYZ-42`)"));
    assert!(store.is_empty());
}

#[test]
fn malformed_inputs_are_rejected_with_reasons() {
    let mut store = IngestStore::new();
    let why = |store: &mut IngestStore, s: &str| match ingest(store, &parse_json(s).unwrap()) {
        Err(e) => e,
        Ok(_) => panic!("ingested {s}"),
    };
    assert!(why(&mut store, "{}").starts_with("no UNTP passport VC found"));
    assert_eq!(
        why(&mut store, r#"{"productIdentifiers": []}"#),
        "the passport VC carries no productIdentifiers"
    );
    assert_eq!(
        why(&mut store, r#"{"productIdentifiers": [{"scheme": "https://ref.gs1.org/"}]}"#),
        "the identifier carries no value"
    );
    assert_eq!(
        why(&mut store, r#"{"stub": {"productIdentifiers": [7]}}"#),
        "the first productIdentifier is malformed"
    );
    assert_eq!(why(&mut store, r#"{"stub": 1}"#), "the passport VC carries no productIdentifiers");
    assert!(why(&mut store, r#"{"passport": {}}"#).starts_with("no UNTP passport VC found"));
    assert!(store.is_empty());
}

#[test]
fn resolve_answers_by_passport_id_and_product_id() {
    let mut store = IngestStore::new();
    let outcome = ingest(&mut store, &stub()).unwrap();
    let by_passport = store.resolve(&outcome.passport.document.passport_id).unwrap();
    assert_eq!(
        store
            .resolve(&outcome.passport.document.product_id.display)
            .unwrap()
            .document
            .passport_id,
        by_passport.document.passport_id
    );
    assert!(store.resolve("urn:unidpp:passport:none").is_none());
}

#[test]
fn bare_stub_and_wrapped_stub_shapes_both_ingest() {
    let mut store = IngestStore::new();
    let a = ingest(&mut store, &stub()).unwrap();
    let wrapped = parse_json(&format!("{{\"stub\": {}}}", stub_text())).unwrap();
    // Same subject: matched even via the other shape.
    let b = ingest(&mut store, &wrapped).unwrap();
    assert_eq!(b.status, IngestStatus::Matched);
    assert_eq!(a.passport.document.passport_id, b.passport.document.passport_id);
}

#[test]
fn a_failed_mint_is_refused_and_further_identifiers_warn() {
    let mut store = IngestStore::new();
    let body = parse_json(
        r#"{"productIdentifiers": [{"value": "1"}, {"value": "2"}, {"value": "3"}]}"#,
    )
    .unwrap();
    let answers = |minted| IngestAnswers {
        identity: identity("01+1"),
        digest: "0123456789abcdef".to_string(),
        credential_dates: vec![],
        minted,
        commitment: "c".to_string(),
    };
    let err = match store.ingest(&body, answers(Err("no key".to_string())), &now()) {
        Err(e) => e,
        Ok(_) => panic!("ingested without a mint"),
    };
    assert_eq!(err, "mint failed for the imported identity: no key");
    assert!(store.is_empty());
    let question = ingest_question(&body).unwrap();
    assert_eq!(question.eo_id, "urn:unidpp:import:untp");
    assert_eq!(question.resolver_uri, None);
    assert_eq!(question.stub_text, compact_text(&body));
    let id = identity("01+1").unwrap();
    let options = mint_options(&question, &id, "urn:unidpp:passport:untp-0123456789ab", None, None);
    assert_eq!(options.capability, "S1");
    let outcome = store.ingest(&body, answers(Ok(mint(options))), &now()).unwrap();
    assert_eq!(outcome.passport.document.passport_id, "urn:unidpp:passport:untp-0123456789ab");
    assert_eq!(
        str_of(&outcome.receipt, "warnings/0"),
        "2 additional product identifiers recorded in the receipt only (the core identity is the first, per the render convention)"
    );
    assert_eq!(at(&outcome.receipt, "source/stub_id"), &Json::Null);
    assert_eq!(at(&outcome.receipt, "source/identifier_scheme"), &Json::Null);
}

#[test]
fn the_passport_id_comes_from_the_identity_alone() {
    let id = identity("01+4006381333931+21+SN7").unwrap();
    let material = identity_material(&id);
    assert_eq!(material, "UNIDPP/GATEWAY/UNTP-INGEST|01+4006381333931+21+SN7");
    assert_ne!(material, identity_material(&identity("01+4006381333931").unwrap()));
    assert_eq!(
        derived_passport_id("0123456789abcdef"),
        "urn:unidpp:passport:untp-0123456789ab"
    );
}

#[test]
fn only_credentials_that_name_a_standard_bind() {
    let credentials = parse_json(
        r#"[{}, {"credentialSubject": {}}, {"credentialSubject": {"conformity": {}}},
            {"credentialSubject": {"conformity": {"standard": "  "}}},
            {"credentialSubject": {"conformity": {"standard": " urn:s "}}, "validFrom": "x"},
            {"credentialSubject": {"conformity": {"standard": "t", "version": " 2 "}}}]"#,
    )
    .unwrap();
    let dates = vec![None, None, None, None, instant("2026-01-01T00:00:00Z"), Some(now())];
    let bindings = conformity_bindings(credentials.as_array(), &dates);
    assert_eq!(bindings.len(), 2);
    assert_eq!(bindings[0].id, "urn:s");
    assert_eq!(bindings[0].version, "unversioned");
    assert_eq!(bindings[0].effective_from, instant("2026-01-01T00:00:00Z"));
    assert_eq!(bindings[1].version, "2");
    assert_eq!(bindings[1].effective_from, None);
    assert!(conformity_bindings(None, &vec![]).is_empty());
}

// ---------------------------------------------------------------------------
// Replies
// ---------------------------------------------------------------------------

#[test]
fn discovery_documents_both_bindings_as_c4_renders() {
    let reply = discovery("0.1.0", "dev", &None, &source(None), &now());
    assert_eq!(reply.status, 200);
    assert_eq!(header(&reply, "content-type"), Some("application/json"));
    assert!(header(&reply, "x-as-of").is_some());
    let doc = body_of(&reply);
    assert_eq!(str_of(&doc, "service"), "unidpp-gateway");
    assert_eq!(keys(at(&doc, "bindings")).len(), 2, "exactly the two protocol bindings");
    assert_eq!(str_of(&doc, "bindings/untp/profile"), "urn:unidpp:profile:render:untp");
    assert_eq!(str_of(&doc, "bindings/en18222/profile"), "urn:unidpp:profile:render:en18222");
    assert_eq!(str_of(&doc, "endpoints/untp"), "GET /untp/product/{id}?freshness=");
    assert_eq!(
        str_of(&doc, "endpoints/en18222"),
        "GET /en18222/v1/dppsByProductId/{gtin}?representation=full|compressed"
    );
    assert!(str_of(&doc, "c4").contains("C4"));
    // The fixture index names both seeded passports.
    assert_eq!(items(&doc, "source/fixtures").len(), 2);
    assert_eq!(str_of(&doc, "source/mode"), "fixtures");
    assert_eq!(str_of(&doc, "as_of"), now().text);
    let url = Some("http://i".to_string());
    let upstream = body_of(&discovery("0.1.0", "dev", &url, &source(url.clone()), &now()));
    assert_eq!(str_of(&upstream, "source/mode"), "issuer-upstream-with-fixture-fallback");
    assert_eq!(str_of(&upstream, "source/issuer_url"), "http://i");
}

#[test]
fn healthz_is_ok() {
    let reply = healthz(&now());
    assert_eq!(reply.status, 200);
    assert_eq!(reply.body, Body::Text("ok".to_string()));
    assert!(header(&reply, "x-as-of").is_some());
}

#[test]
fn untp_render_serves_the_vc_triad() {
    let reply = get_untp(&source(None), LAPTOP_PASSPORT_ID, None);
    assert_eq!(reply.status, 200);
    assert!(header(&reply, "x-as-of").is_some());
    let triad = body_of(&reply);
    assert_eq!(Some(str_of(&triad, "as_of")), header(&reply, "x-as-of"));
    assert_eq!(str_of(&triad, "rendering/source"), "fixture");
    assert_eq!(str_of(&triad, "rendering/profile"), "urn:unidpp:profile:render:untp");

    let passport = at(&triad, "passport");
    assert!(items(passport, "@context")
        .iter()
        .any(|c| c.as_str() == Some("https://www.w3.org/ns/credentials/v2")));
    let types = items(passport, "type");
    assert!(types.iter().any(|t| t.as_str() == Some("VerifiableCredential")));
    assert!(types.iter().any(|t| t.as_str() == Some("DigitalProductPassport")));
    assert_eq!(str_of(passport, "id"), LAPTOP_PASSPORT_ID);
    assert_eq!(str_of(passport, "productIdentifiers/0/scheme"), "https://unidpp.org/id/");
    assert_eq!(str_of(passport, "productIdentifiers/0/value"), LAPTOP_PRODUCT_ID);
    assert_eq!(str_of(passport, "passportIssuer/id"), "urn:unidpp:actor:oem-nordwave");
    assert_eq!(str_of(passport, "validFrom"), "2026-08-03T09:15:00Z");
    assert_eq!(str_of(passport, "validUntil"), "2036-08-03T09:15:00Z");
    // Conformity claims: both jurisdiction lenses.
    let conformance = items(passport, "standardsConformance");
    assert_eq!(conformance.len(), 2);
    assert!(conformance
        .iter()
        .any(|c| c.str_at("standard") == Some("urn:unidpp:profile:eu-espr-electronics")));

    // The link resolver entry.
    assert_eq!(str_of(&triad, "link/linkType"), "untp-dpp");
    assert_eq!(str_of(&triad, "link/target"), "https://dpp.unidpp.org/r/84120099012345");
    assert_eq!(at(&triad, "link/anchor/height").as_u64(), Some(4));
    assert_eq!(str_of(&triad, "link/anchor/logHead").len(), 64);

    // The verdict.
    assert_eq!(str_of(&triad, "verdict/outcome"), "pass");
    assert_eq!(str_of(&triad, "verdict/reading"), "current-state");
    assert_eq!(str_of(&triad, "verdict/freshness"), "unknown");
    assert_eq!(str_of(&triad, "verdict/achievedMarker"), "unsigned");
    assert_eq!(at(&triad, "verdict/coverage/checks").as_u64(), Some(3));

    // Conformity credentials: one per profile (the laptop log has no
    // inspection stamps).
    assert_eq!(items(&triad, "conformity").len(), 2);
    assert_eq!(str_of(&triad, "conformity/0/type/1"), "DigitalConformityCredential");
}

#[test]
fn untp_render_resolves_by_product_identity_and_gtin() {
    let source = source(None);
    for id in [LAPTOP_PRODUCT_ID, TYRE_GTIN, TYRE_PASSPORT_ID] {
        let reply = get_untp(&source, id, None);
        assert_eq!(reply.status, 200, "resolve by {id}");
        assert!(at(&body_of(&reply), "passport/id").as_str().is_some());
    }
    // The tyre render carries its inspection-stamp conformity credential.
    let triad = body_of(&get_untp(&source, TYRE_PASSPORT_ID, None));
    assert_eq!(items(&triad, "conformity").len(), 2);
    assert_eq!(
        str_of(&triad, "conformity/1/credentialSubject/assessmentLevel"),
        "third-party"
    );
    assert_eq!(str_of(&triad, "conformity/1/issuer/id"), "urn:unidpp:actor:verifier-tuv");
}

#[test]
fn untp_verdict_freshness_rule_over_http() {
    let source = source(None);
    // Tyre evidence is 2026-06-12: stale under a 1-hour budget; degrades
    // explicitly, never silently passes.
    let reply = get_untp(&source, TYRE_PASSPORT_ID, Some("PT1H"));
    assert_eq!(reply.status, 200);
    let triad = body_of(&reply);
    assert_eq!(str_of(&triad, "verdict/freshness"), "stale");
    assert_eq!(str_of(&triad, "verdict/outcome"), "degraded");
    // The laptop's last event (part replace) is 2027-02-11: future-dated
    // evidence reads fresh under any budget.
    let triad = body_of(&get_untp(&source, LAPTOP_PASSPORT_ID, Some(" PT1H ")));
    assert_eq!(str_of(&triad, "verdict/freshness"), "fresh");
    assert_eq!(str_of(&triad, "verdict/outcome"), "pass");
}

#[test]
fn untp_bad_freshness_budget_is_rejected() {
    let source = source(None);
    let reply = get_untp(&source, TYRE_PASSPORT_ID, Some("soon"));
    assert_eq!(reply.status, 400);
    assert!(str_of(&body_of(&reply), "error").contains("ISO 8601"));
    assert_eq!(get_untp(&source, "nobody", Some("soon")).status, 400);
    assert_eq!(get_untp(&source, TYRE_PASSPORT_ID, Some("  ")).status, 200);
}

#[test]
fn untp_round_trip_through_the_py_adapter_semantics() {
    let triad = body_of(&get_untp(&source(None), TYRE_PASSPORT_ID, None));
    let stub = at(&triad, "passport");
    let id = stub_identifier(stub).expect("rendered stub carries an identifier");
    let read = identity(&id.display).ok_or("unread".to_string());
    let commitment = digest(&stub_commitment_material(stub));
    let manifest = parse_stub(stub, "2026-09-07T00:00:00Z", &read, &commitment)
        .expect("rendered stub parses like a UNTP stub");
    assert_eq!(str_of(&manifest, "subjectId/value"), format!("01+{TYRE_GTIN}"));
    assert_eq!(str_of(&manifest, "subjectId/scheme"), "gtin");
    assert_eq!(str_of(&manifest, "eventLog/logUri"), TYRE_PASSPORT_ID);
    let profiles = items(&manifest, "profiles");
    assert_eq!(profiles.len(), 1);
    assert_eq!(str_of(&profiles[0], "profileId"), "urn:unidpp:profile:eu-tyre-label");
    assert_eq!(str_of(&profiles[0], "version"), "1.0.0");
    assert_eq!(str_of(&manifest, "eventLog/commitment"), commitment);
}

#[test]
fn en18222_full_field_set_matches_the_freedpp_artifact() {
    let reply = get_en(&source(None), TYRE_GTIN, Some("full"));
    assert_eq!(reply.status, 200);
    assert_eq!(header(&reply, "content-type"), Some("application/json"));
    assert!(header(&reply, "x-as-of").is_some(), "the stamp rides the header");
    let v = body_of(&reply);
    assert!(v.get("as_of").is_none());
    let mut expected: Vec<String> = FULL_KEYS.iter().map(|k| k.to_string()).collect();
    expected.sort();
    assert_eq!(keys(&v), expected, "top-level field set == artifact");
    assert_eq!(str_of(&v, "digitalProductPassportId"), TYRE_PASSPORT_ID);
    assert_eq!(str_of(&v, "uniqueProductIdentifier"), TYRE_GTIN);
    assert_eq!(str_of(&v, "granularity"), "Model");
    assert_eq!(str_of(&v, "dppSchemaVersion"), "0.1");
    assert_eq!(str_of(&v, "dppStatus"), "active");
    assert_eq!(str_of(&v, "lastUpdated"), "2026-06-12T16:31:00");
    assert_eq!(str_of(&v, "economicOperatorId"), "urn:unidpp:actor:tyre-oem-conti");
    assert_eq!(at(&v, "facilityId"), at(&v, "economicOperatorId"));
    assert_eq!(
        at(&v, "contentSpecificationIds"),
        &Json::Array(vec![text("EN 18223:2026"), text("urn:unidpp:profile:eu-tyre-label@1.0.0")])
    );
    let elements = items(&v, "elements");
    assert!(elements.len() >= 4);
    for collection in elements {
        assert_eq!(
            keys(collection),
            vec!["dictionaryReference", "elementId", "elements", "objectType"]
        );
        assert_eq!(str_of(collection, "objectType"), "DataElementCollection");
        assert!(str_of(collection, "dictionaryReference").starts_with("https://unidpp.org/dp/"));
        for element in items(collection, "elements") {
            assert_eq!(
                keys(element),
                vec!["dictionaryReference", "elementId", "objectType", "value", "valueDataType"]
            );
            assert_eq!(str_of(element, "objectType"), "SingleValuedDataElement");
            assert!(at(element, "value").as_str().is_some());
            assert!(str_of(element, "valueDataType").starts_with("xsd:"));
        }
    }
}

#[test]
fn en18222_compressed_field_set_matches_the_freedpp_artifact() {
    let reply = get_en(&source(None), TYRE_GTIN, Some("compressed"));
    assert_eq!(reply.status, 200);
    let v = body_of(&reply);
    assert!(v.get("elements").is_none(), "compressed drops the element tree");
    assert_eq!(keys(&v).len(), FULL_KEYS.len() - 1 + 4);
    assert_eq!(str_of(&v, "lastUpdated"), "2026-06-12T16:31:00.0000000");
    assert_eq!(at(&v, "caStateSafety/_p_d_RecallActive"), &Json::Bool(false));
    assert_eq!(at(&v, "caStateSafety/_p_d_LogHeight"), &Json::Unsigned(3));
    assert_eq!(str_of(&v, "caStateSafety/_p_d_TrustMarker"), "attested");
    assert_eq!(str_of(&v, "caStateSafety/_p_d_LogHead").len(), 64);
    assert_eq!(str_of(&v, "c0ProductInformation/_p_d_GTIN"), TYRE_GTIN);
    assert_eq!(
        str_of(&v, "c0ProductInformation/_p_d_ResolverUri"),
        "https://dpp.unidpp.org/r/4006381333931"
    );
    assert!(str_of(&v, "cbConformityEvidence/_p_d_Stamp_2").contains("verifier-tuv"));
}

#[test]
fn en18222_defaults_to_compressed_per_the_en() {
    let source = source(None);
    let defaulted = get_en(&source, TYRE_GTIN, None);
    let explicit = get_en(&source, TYRE_GTIN, Some("compressed"));
    assert_eq!(defaulted.status, 200);
    assert_eq!(defaulted.body, explicit.body);
    assert!(body_of(&defaulted).get("elements").is_none());
}

#[test]
fn en18222_rejects_unknown_representation() {
    let reply = get_en(&source(None), TYRE_GTIN, Some("json"));
    assert_eq!(reply.status, 400);
    assert!(str_of(&body_of(&reply), "error").contains("full|compressed"));
}

#[test]
fn en18222_full_and_compressed_agree_on_every_leaf() {
    let source = source(None);
    let full = body_of(&get_en(&source, TYRE_GTIN, Some("full")));
    let compressed = body_of(&get_en(&source, TYRE_GTIN, Some("compressed")));
    let leaves = leaves_agree(&full, &compressed);
    assert!(leaves >= 15, "the render carries a real element set ({leaves} leaves)");
}

#[test]
fn unknown_ids_are_no_information_404s() {
    let source = source(None);
    let untp = get_untp(&source, "urn:unidpp:passport:does-not-exist", None);
    let en = get_en(&source, "9999999999999", None);
    assert_eq!(untp.status, 404);
    assert_eq!(en.status, 404);
    // Identical bytes for both routes: never vary this reply.
    assert_eq!(untp.body, Body::Text("{\"error\":\"not found\"}".to_string()));
    assert_eq!(untp, en);
    assert_eq!(untp, not_found(&now()));
    assert_eq!(NOT_FOUND_BODY, "{\"error\":\"not found\"}");
}

#[test]
fn unreachable_issuer_degrades_to_fixtures() {
    // The issuer answers nothing: the fixtures still serve.
    let source = source(Some("http://127.0.0.1:1".into()));
    let reply = get_untp(&source, LAPTOP_PASSPORT_ID, None);
    assert_eq!(reply.status, 200);
    assert_eq!(str_of(&body_of(&reply), "rendering/source"), "fixture");
    // An id only the (dead) issuer could know: no-information 404.
    let missing = get_untp(&source, "urn:unidpp:passport:only-issuer", None);
    assert_eq!(missing.status, 404);
    assert_eq!(missing.body, Body::Text("{\"error\":\"not found\"}".to_string()));
}

#[test]
fn what_the_issuer_served_comes_before_the_ingested_store() {
    let mut store = IngestStore::new();
    let outcome = ingest(&mut store, &stub()).unwrap();
    let id = outcome.passport.document.passport_id.clone();
    let issued = tyre_passport();
    let upstream = source(Some("http://i".into()));
    let found = resolve_any(upstream.resolve(&id), Some(&issued), &store, &id).unwrap();
    assert_eq!(found.document.passport_id, TYRE_PASSPORT_ID);
    let found = resolve_any(upstream.resolve(&id), None, &store, &id).unwrap();
    assert_eq!(found.document.passport_id, id);
    let closed = source(None);
    assert!(resolve_any(closed.resolve(&id), None, &store, &id).is_some());
}

#[test]
fn both_bindings_serve_the_same_core_state() {
    let source = source(None);
    let untp = get_untp(&source, TYRE_GTIN, None);
    assert_eq!(untp.status, 200, "the UNTP binding serves the tyre");
    let triad = body_of(&untp);
    let untp_identity = str_of(&triad, "passport/productIdentifiers/0/value");
    let en = get_en(&source, TYRE_GTIN, None);
    assert_eq!(en.status, 200, "the EN 18222 binding serves the tyre");
    let dpp = body_of(&en);
    let en_identity = str_of(&dpp, "uniqueProductIdentifier");
    let bare = untp_identity.rsplit_once(')').map(|(_, rest)| rest).unwrap_or(untp_identity);
    assert_eq!(
        bare, en_identity,
        "both bindings serve the same core state: the identity matches across protocols"
    );
}

#[test]
fn render_ingest_round_trip_identity_matches() {
    let source = source(None);
    let mut store = IngestStore::new();
    let fixture_id = str_of(
        &body_of(&discovery("0.1.0", "dev", &None, &source, &now())),
        "source/fixtures/0/passport_id",
    )
    .to_string();

    // Render the fixture to the UNTP triad.
    let rendered = body_of(&get_untp(&source, &fixture_id, None));
    assert!(str_of(&rendered, "rendering/profile").contains("untp"));
    let source_identity = str_of(&rendered, "passport/productIdentifiers/0/value");

    // Ingest the whole triad back, as it travels.
    let body = on_the_wire(&rendered);
    let outcome = ingest(&mut store, &body);
    let reply = ingest_reply(&outcome, &now());
    assert_eq!(reply.status, 201);
    let doc = body_of(&reply);
    assert_eq!(str_of(&doc, "status"), "imported");
    assert!(str_of(&doc, "passport_id").starts_with("urn:unidpp:passport:untp-"));
    assert_eq!(str_of(&doc, "granularity"), "item");
    assert_eq!(str_of(&doc, "receipt/passport_id"), str_of(&doc, "passport_id"));

    // The identity matches: the rendered identifier value parses back to the
    // same subject.
    let ingested_id = str_of(&doc, "passport_id").to_string();
    let found = resolve_any(source.resolve(&ingested_id), None, &store, &ingested_id);
    let re_rendered = body_of(&untp_product(
        &mut open_gate(),
        &no_token(),
        None,
        found,
        &slots(),
        &now(),
    ));
    assert_eq!(
        str_of(&re_rendered, "passport/productIdentifiers/0/value"),
        source_identity,
        "render, ingest, render must preserve the identity"
    );

    // The conformity claims landed as profile bindings.
    let bound: Vec<&str> = items(&doc, "profiles").iter().map(|p| str_of(p, "id")).collect();
    for claim in items(&rendered, "passport/standardsConformance") {
        let standard = str_of(claim, "standard");
        assert!(
            bound.contains(&standard),
            "conformity standard {standard} must land as a profile binding (bound: {bound:?})"
        );
    }

    // Re-ingest the same triad: matched (idempotent).
    let again = ingest_reply(&ingest(&mut store, &body), &now());
    assert_eq!(again.status, 200);
    assert_eq!(str_of(&body_of(&again), "status"), "matched");
    assert_eq!(str_of(&body_of(&again), "passport_id"), ingested_id);
}

#[test]
fn untp_ingest_unknown_scheme_degrades_explicitly() {
    let mut store = IngestStore::new();
    let exotic = parse_json(
        r#"{
        "passport": {
            "type": ["VerifiableCredential", "DigitalProductPassport"],
            "id": "https://example.org/passports/exotic-1",
            "passportIssuer": {"id": "https://example.org/issuer"},
            "validFrom": "2026-01-01T00:00:00Z",
            "productIdentifiers": [{
                "scheme": "https://example.org/schemes/exotic/",
                "value": "EX-42"
            }]
        },
        "conformity": [],
        "link": {"linkType": "untp-dpp", "target": "https://example.org/r/exotic-1"}
    }"#,
    )
    .unwrap();
    let reply = ingest_reply(&ingest(&mut store, &exotic), &now());
    assert_eq!(reply.status, 422);
    let doc = body_of(&reply);
    assert_eq!(str_of(&doc, "status"), "degraded");
    assert!(str_of(&doc, "reason").contains("no C8 mapping"));
    // Nothing was minted: the passport does not resolve.
    let reply = get_untp(&source(None), "urn:unidpp:passport:anything", None);
    assert_eq!(reply.status, 404);
}

#[test]
fn malformed_body_is_rejected_not_degraded() {
    let mut store = IngestStore::new();
    let unrelated = parse_json(r#"{"unrelated": true}"#).unwrap();
    assert_eq!(ingest_reply(&ingest(&mut store, &unrelated), &now()).status, 422);
    let reply = match json_body("not json", &now()) {
        Err(reply) => reply,
        Ok(_) => panic!("that is no JSON"),
    };
    assert_eq!(reply.status, 400);
    assert!(str_of(&body_of(&reply), "error").starts_with("invalid JSON body: "));
    assert!(json_body("{}", &now()).is_ok());
}

#[test]
fn the_scan_gate_states_itself_and_opens_under_policy() {
    let source = source(None);
    // Policy on: TTL 60 s, 2 issuances per source per minute.
    let mut gate = ScanGate::new(ScanPolicy { token_ttl_secs: 60, issue_limit_per_minute: 2 });
    let none = ScanHeaders { scan: None, authorization: None };

    // No token: a stated 401 naming the policy and where to get one.
    let refused = guard(&mut gate, &none, &now()).unwrap();
    assert_eq!(refused.status, 401);
    let reason = body_of(&refused);
    assert!(str_of(&reason, "error").contains("scan token required"));
    assert!(str_of(&reason, "error").contains("60 s"));

    // The render routes say the same, whatever they are asked for.
    let found = source.resolve(LAPTOP_PRODUCT_ID).answered(None);
    let render = untp_product(&mut gate, &none, Some("soon"), found, &slots(), &now());
    assert_eq!(render.status, 401);
    let said = str_of(&body_of(&render), "error").to_string();
    assert!(said.contains("scan token required") && said.contains("60 s"));
    let found = source.resolve_gtin(TYRE_GTIN).answered(None);
    assert_eq!(en18222_dpps(&mut gate, &none, Some("json"), found, &now()).status, 401);

    // Issuance is throttled and states itself; a live token opens the
    // renders.
    let issued = issue_scan_token(r#"{"source": "test-a"}"#, &mut gate, &now());
    assert_eq!(issued.status, 201);
    let token = str_of(&body_of(&issued), "token").to_string();
    assert!(token.starts_with("scan-"));
    assert_eq!(guard(&mut gate, &none, &now()).unwrap().status, 401); // still gated without it
    let with_token = ScanHeaders { scan: Some(token), authorization: None };
    assert!(guard(&mut gate, &with_token, &now()).is_none());
    let found = source.resolve(LAPTOP_PRODUCT_ID).answered(None);
    assert_eq!(untp_product(&mut gate, &with_token, None, found, &slots(), &now()).status, 200);
    let found = source.resolve_gtin(TYRE_GTIN).answered(None);
    assert_eq!(en18222_dpps(&mut gate, &with_token, None, found, &now()).status, 200);
    assert_eq!(untp_product(&mut gate, &with_token, None, None, &slots(), &now()).status, 404);

    // Throttle: two issuances per source per minute, one already used.
    assert_eq!(issue_scan_token(r#"{"source": "test-a"}"#, &mut gate, &now()).status, 201);
    let limited = issue_scan_token(r#"{"source": "test-a"}"#, &mut gate, &now());
    assert_eq!(limited.status, 429);
    assert!(str_of(&body_of(&limited), "error").contains("issuance limit"));
    // A different source has its own window.
    assert_eq!(issue_scan_token(r#"{"source": "test-b"}"#, &mut gate, &now()).status, 201);
    assert_eq!(issue_scan_token("", &mut gate, &now()).status, 400);

    // Policy off (the default doctrine: public resolution): open.
    let config = Config::default();
    let mut open = ScanGate::new(ScanPolicy {
        token_ttl_secs: config.scan_ttl_secs,
        issue_limit_per_minute: config.scan_limit_per_minute,
    });
    assert!(guard(&mut open, &none, &now()).is_none());
    // And issuance states that the scan gate is open.
    let reply = issue_scan_token(r#"{"source": "x"}"#, &mut open, &now());
    assert_eq!(reply.status, 409);
    assert!(str_of(&body_of(&reply), "error").contains("no scan policy"));
    assert_eq!(str_of(&body_of(&reply), "gate"), "open");
    let limit = issuance_reply(&Err("limit".to_string()), true, &now());
    assert_eq!(limit.status, 429);
}

#[test]
fn configuration_reads_the_environment() {
    let mut env = Environment {
        bind: None,
        issuer_url: None,
        gateway_issuer_url: None,
        feedback_journal: None,
        feedback_rate: None,
        admin_token: None,
        timeout_ms: None,
    };
    let (config, warnings) = Config::from_env(&env, false);
    assert_eq!(config, Config::default());
    assert_eq!(config.bind, "127.0.0.1:8094");
    assert_eq!(config.timeout_ms, 2000);
    assert!(warnings.is_empty());

    env.bind = Some("0.0.0.0:1".to_string());
    env.issuer_url = Some(" ".to_string());
    env.gateway_issuer_url = Some("http://alias".to_string());
    env.feedback_journal = Some("/var/j".to_string());
    env.feedback_rate = Some(" 7 ".to_string());
    env.admin_token = Some("\t".to_string());
    env.timeout_ms = Some("+250".to_string());
    let (config, warnings) = Config::from_env(&env, true);
    assert_eq!(config.bind, "0.0.0.0:1");
    assert_eq!(config.issuer_url.as_deref(), Some("http://alias"));
    assert_eq!(config.feedback_journal.as_deref(), Some("/var/j"));
    assert_eq!(config.feedback_rate_per_minute, 7);
    assert_eq!(config.admin_token, None);
    assert_eq!(config.timeout_ms, 250);
    assert!(warnings.is_empty());

    env.issuer_url = Some("http://main".to_string());
    env.feedback_rate = Some("many".to_string());
    env.timeout_ms = Some("-1".to_string());
    let (config, warnings) = Config::from_env(&env, false);
    assert_eq!(config.bind, "127.0.0.1:8094");
    assert_eq!(config.issuer_url.as_deref(), Some("http://main"));
    assert_eq!(config.feedback_rate_per_minute, 0);
    assert_eq!(config.timeout_ms, 2000);
    assert_eq!(
        warnings,
        vec![
            "unidpp-gateway: ignoring bad UNIDPP_GATEWAY_BIND `0.0.0.0:1`",
            "unidpp-gateway: ignoring bad UNIDPP_GATEWAY_FEEDBACK_RATE `many`",
            "unidpp-gateway: ignoring bad UNIDPP_GATEWAY_TIMEOUT_MS `-1`",
        ]
    );
}

#[test]
fn the_later_role_by_name_counts_for_a_key_id() {
    let keyring = parse_json(
        r#"{"roles": {
            "z": {"key_id": "k", "public": "02", "suite": "ed25519"},
            "a": {"key_id": "k", "public": "01", "suite": "ed25519"}
        }}"#,
    )
    .unwrap();
    let keys = keyring_keys(keyring_roles(&keyring).unwrap());
    assert_eq!(keys[0].public_hex, "01");
    assert_eq!(keys[1].public_hex, "02");
    let anchors = collect_anchors(&keys, vec![Some(vec![1]), Some(vec![2])]);
    assert_eq!(anchors.get("k").unwrap().bytes, vec![2]);
}

#[test]
fn a_request_is_read_before_its_passport_is_looked_up() {
    let mut gate = open_gate();
    assert!(untp_request(&mut gate, &no_token(), Some("PD"), &now()).is_err());
    let required = untp_request(&mut gate, &no_token(), Some(" P1D "), &now());
    assert_eq!(required.unwrap(), Some("P1D"));
    assert!(en18222_request(&mut gate, &no_token(), Some("json"), &now()).is_err());
    let representation = en18222_request(&mut gate, &no_token(), None, &now()).unwrap();
    assert_eq!(representation, Representation::Compressed);
    assert_eq!(en18222_found(representation, None, &now()).status, 404);
    assert_eq!(untp_found(None, None, &slots(), &now()).status, 404);
}

#[test]
fn an_import_resolves_by_both_ids_and_leaves_the_rest() {
    let mut store = IngestStore::new();
    let first = ingest(&mut store, &stub()).unwrap();
    let other = parse_json(&stub_text().replace("(21)SN7", "(21)SN8")).unwrap();
    let second = ingest(&mut store, &other).unwrap();
    for outcome in [&first, &second] {
        let document = &outcome.passport.document;
        for id in [&document.passport_id, &document.product_id.display] {
            assert_eq!(store.resolve(id).unwrap().document, *document);
        }
        assert!(document.log.sealed.is_empty());
    }
    assert_eq!(store.len(), 2);
}

#[test]
fn anchors_are_kept_by_key_id() {
    let mut anchors = TrustAnchors::new();
    assert!(anchors.get("k").is_none());
    anchors.insert("k".to_string(), unidpp_gateway::verdict::PublicKeyMaterial { bytes: vec![1] });
    anchors.insert("k".to_string(), unidpp_gateway::verdict::PublicKeyMaterial { bytes: vec![2] });
    assert_eq!(anchors.get("k").unwrap().bytes, vec![2]);
}

#[test]
fn stamps_of_one_number_share_a_compressed_leaf() {
    let mut p = tyre_passport();
    // Another event that has the stamp's number and is no stamp changes nothing.
    p.document.log.sealed[1].seq = 2;
    leaves_agree(
        &render(&p, Representation::Full, &now()),
        &render(&p, Representation::Compressed, &now()),
    );
    // A second stamp of that number is a second leaf of the full form only.
    let stamps = tyre_passport().document.log.sealed;
    p.document.log.sealed.extend(stamps.into_iter().filter(|e| e.seq == 2));
    let full = render(&p, Representation::Full, &now());
    let compressed = parse_json(&compact_text(&render(&p, Representation::Compressed, &now())))
        .expect("the wire form reads back");
    let listed = items(&full, "elements")
        .iter()
        .find(|c| str_of(c, "elementId") == "cbConformityEvidence")
        .map(|c| items(c, "elements").len());
    assert_eq!(listed, Some(3));
    assert_eq!(keys(at(&compressed, "cbConformityEvidence")).len(), 2);
}

#[test]
fn the_import_commitment_digests_the_stub_under_the_import_salt() {
    let stub = Json::Object(vec![("a".to_string(), Json::Unsigned(1))]);
    assert_eq!(stub_commitment_material(&stub), "untp-import:{\"a\":1}");
}

#[test]
fn discovery_names_its_sources() {
    let reply = discovery("0", "dev", &None, &source(None), &now());
    let v = body_of(&reply);
    assert!(str_of(&v, "description").contains("this service ports them"));
    assert!(str_of(&v, "bindings/untp/semantics").starts_with("port of unidpp-py"));
}
