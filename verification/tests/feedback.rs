//! The consumer report channel.
use unidpp_gateway::api::{
    answer_report, feedback_admin, feedback_citation, report_of, submit_feedback,
};
use unidpp_gateway::feedback::{
    journal_line, Admission, AdmissionControl, FeedbackCategory, FeedbackRecord, FeedbackReport,
    FeedbackStore, Permissive, RateLimited,
};
use unidpp_gateway::json::{parse_json, Json};
use unidpp_gateway::model::Timestamp;
use unidpp_gateway::reply::{Body, Reply};
use unidpp_gateway::window::{SlidingWindows, MINUTE};

fn report(identifier: &str) -> FeedbackReport {
    FeedbackReport {
        identifier: identifier.into(),
        category: FeedbackCategory::GoodsMismatch,
        contact: Some("reporter@example.org".into()),
        details: "the package says 20 Ah, the page says 0.072 kWh".into(),
    }
}

fn store() -> FeedbackStore {
    FeedbackStore::open(&vec![]).0
}

fn at(text: &str) -> Timestamp {
    Timestamp { secs: 0, text: text.to_string() }
}

fn document(reply: &Reply) -> Json {
    match &reply.body {
        Body::Text(s) => parse_json(s).unwrap(),
        Body::Document(j) => j.copy(),
    }
}

fn text_of_body(reply: &Reply) -> String {
    match &reply.body {
        Body::Text(s) => s.clone(),
        Body::Document(j) => unidpp_gateway::json::compact_text(j),
    }
}

#[test]
fn submission_receipts_and_the_public_form_withholds_contact() {
    let mut store = store();
    let rec = store
        .submit(report("gs1:(01)06901234567892"), "2026-09-15T12:00:00Z")
        .unwrap();
    assert_eq!(rec.seq, 1);
    let public = store.get(1).unwrap();
    assert_eq!(public.str_at("contact"), Some("withheld"));
    assert_eq!(public.str_at("category"), Some("goods-mismatch"));
    let admin = store.list_json(10, 0);
    assert_eq!(
        admin.array_at("records").unwrap()[0].str_at("contact"),
        Some("reporter@example.org")
    );
    // Validation refuses the unstated.
    assert!(store
        .submit(
            FeedbackReport {
                identifier: " ".into(),
                category: FeedbackCategory::GoodsMismatch,
                contact: None,
                details: "x".into()
            },
            "2026-09-15T12:00:01Z"
        )
        .is_err());
}

#[test]
fn the_rate_window_refuses_with_a_stated_reason() {
    let mut gate = RateLimited::per_minute(2);
    let r = report("gs1:(01)06901234567892");
    assert!(gate.admit_report(&r).is_ok());
    assert!(gate.admit_report(&r).is_ok());
    let refusal = gate.admit_report(&r).unwrap_err();
    assert!(refusal.contains("rate limit"), "{refusal}");
    // A different identifier is a different window.
    assert!(gate.admit_report(&report("gs1:(01)09506000134352")).is_ok());
}

#[test]
fn the_journal_replays() {
    let mut journal: Vec<String> = Vec::new();
    {
        let mut store = store();
        let first = store
            .submit(report("gs1:(01)06901234567892"), "2026-09-15T12:00:00Z")
            .unwrap();
        journal.push(journal_line(&first));
        let second = store
            .submit(
                FeedbackReport {
                    identifier: "gs1:(01)06901234567892".into(),
                    category: FeedbackCategory::AdvertisingMismatch,
                    contact: None,
                    details: "the ad claims Qi2, the page does not".into(),
                },
                "2026-09-15T12:05:00Z",
            )
            .unwrap();
        journal.push(journal_line(&second));
    }
    let (replayed, faults) = FeedbackStore::open(&journal);
    assert!(faults.is_empty());
    assert_eq!(replayed.list_json(10, 0).get("total").unwrap().as_u64(), Some(2));
    assert_eq!(replayed.get(2).unwrap().str_at("category"), Some("advertising-mismatch"));
}

#[test]
fn a_torn_line_is_reported_and_costs_nothing_else() {
    let record = FeedbackRecord {
        seq: 1,
        recorded_at: "2026-09-15T12:00:00Z".into(),
        report: report("id \"quoted\"\n"),
    };
    let line = journal_line(&record);
    assert!(!line.contains('\n'));
    let journal = vec![
        line.clone(),
        "   ".to_string(),
        "{\"seq\": 2}".to_string(),
        "[]".to_string(),
        line[..line.len() - 4].to_string(),
    ];
    let (replayed, faults) = FeedbackStore::open(&journal);
    assert_eq!(replayed.records, vec![record]);
    assert_eq!(faults.iter().map(|f| f.line).collect::<Vec<_>>(), vec![3, 4, 5]);
    assert_eq!(faults[0].reason, "missing `recorded_at`");
    assert_eq!(faults[1].reason, "feedback record must be an object");
}

#[test]
fn journal_documents_are_checked_field_by_field() {
    let read = |s: &str| FeedbackRecord::from_json(&parse_json(s).unwrap());
    assert_eq!(read("7").unwrap_err(), "feedback record must be an object");
    assert_eq!(read(r#"{"seq": -1}"#).unwrap_err(), "missing `seq`");
    assert_eq!(read(r#"{"seq": 1}"#).unwrap_err(), "missing `recorded_at`");
    assert_eq!(
        read(r#"{"seq": 1, "recorded_at": "t"}"#).unwrap_err(),
        "missing `identifier`"
    );
    let bare = read(r#"{"seq": 1, "recorded_at": "t", "identifier": "i", "contact": ""}"#).unwrap();
    assert_eq!(bare.report.contact, None);
    assert_eq!(bare.report.details, "");
    assert_eq!(bare.report.category, FeedbackCategory::Other(String::new()));
}

#[test]
fn categories_by_name() {
    assert_eq!(FeedbackCategory::parse(" goods-mismatch "), FeedbackCategory::GoodsMismatch);
    assert_eq!(
        FeedbackCategory::parse("advertising-mismatch"),
        FeedbackCategory::AdvertisingMismatch
    );
    let other = FeedbackCategory::parse(" torn label ");
    assert_eq!(other, FeedbackCategory::Other("torn label".to_string()));
    assert_eq!(other.as_str(), "other:torn label");
    assert_eq!(FeedbackCategory::GoodsMismatch.as_str(), "goods-mismatch");
    let stated = FeedbackCategory::parse("other:labelling");
    assert_eq!(stated, FeedbackCategory::Other("labelling".to_string()));
    assert_eq!(stated.as_str(), "other:labelling");
    assert_eq!(FeedbackCategory::parse("other:"), FeedbackCategory::Other(String::new()));
    for name in ["goods-mismatch", "x", "other:other:x", "other:goods-mismatch", "other: y"] {
        let category = FeedbackCategory::parse(name);
        assert_eq!(FeedbackCategory::parse(&category.as_str()), category);
    }
}

#[test]
fn a_stated_category_replays_from_the_journal() {
    let mut store = store();
    let mut r = report("x");
    r.category = FeedbackCategory::parse("other:labelling");
    let record = store.submit(r, "t").unwrap();
    let line = journal_line(&record);
    assert!(line.contains("\"category\":\"other:labelling\""));
    let (replayed, faults) = FeedbackStore::open(&vec![line]);
    assert!(faults.is_empty());
    assert_eq!(replayed.records, vec![record]);
}

#[test]
fn accepted_reports_are_numbered_without_a_gap() {
    let mut store = store();
    let mut seen = Vec::new();
    for details in ["a", " ", "b", "", "c"] {
        let mut r = report("x");
        r.details = details.to_string();
        if let Ok(record) = store.submit(r, "t") {
            seen.push(record.seq);
        }
    }
    assert_eq!(seen, vec![1, 2, 3]);
}

#[test]
fn the_configured_control_answers() {
    let now = at("t");
    let body = r#"{"identifier": "i", "category": "goods-mismatch", "details": "d"}"#;
    let mut store = store();
    let mut limited = Admission::per_minute(1);
    assert_eq!(submit_feedback(body, &mut limited, &mut store, &now).0.status, 201);
    assert_eq!(submit_feedback(body, &mut limited, &mut store, &now).0.status, 429);
    let mut open = Admission::per_minute(0);
    assert_eq!(submit_feedback(body, &mut open, &mut store, &now).0.status, 201);
    assert_eq!(submit_feedback(body, &mut open, &mut store, &now).0.status, 201);
    assert_eq!(store.records.len(), 3);
}

/// Refuses every report, and counts how often it was asked.
struct Closed {
    asked: usize,
}

impl AdmissionControl for Closed {
    fn admit_report(&mut self, report: &FeedbackReport) -> Result<(), String> {
        self.asked += 1;
        Err(format!("closed for {}", report.identifier))
    }
}

#[test]
fn a_report_is_put_to_the_control_once() {
    let now = at("t");
    let mut store = store();
    let mut closed = Closed { asked: 0 };
    let body = r#"{"identifier": "i", "category": "goods-mismatch", "details": " "}"#;
    let (reply, recorded) = submit_feedback(body, &mut closed, &mut store, &now);
    assert_eq!(reply.status, 429);
    assert_eq!(text_of_body(&reply), "{\"error\":\"closed for i\",\"refused\":true}");
    assert!(recorded.is_none());
    assert_eq!(closed.asked, 1);
    assert_eq!(submit_feedback("{", &mut closed, &mut store, &now).0.status, 400);
    assert_eq!(closed.asked, 1);
}

#[test]
fn reports_are_validated() {
    let mut store = store();
    let mut r = report("x");
    r.details = " ".into();
    assert_eq!(
        store.submit(r, "t").unwrap_err(),
        "`details` is required — a report states what did not match"
    );
    let mut r = report("x");
    r.identifier = "\t".into();
    assert_eq!(
        store.submit(r, "t").unwrap_err(),
        "`identifier` is required — a report is about something"
    );
    let mut r = report("x");
    r.details = "é".repeat(501);
    assert_eq!(store.submit(r, "t").unwrap_err(), "`details` exceeds 500 characters");
    let mut r = report("x");
    r.details = "é".repeat(500);
    assert_eq!(store.submit(r, "t").unwrap().seq, 1);
    assert_eq!(store.records.len(), 1);
}

#[test]
fn citations_stay_and_the_listing_is_newest_first() {
    let mut store = store();
    for i in 0..5 {
        let rec = store.submit(report(&format!("id-{i}")), "t").unwrap();
        assert_eq!(rec.seq, i + 1);
    }
    assert_eq!(store.get(2).unwrap().str_at("identifier"), Some("id-1"));
    assert!(store.get(0).is_none());
    assert!(store.get(6).is_none());
    let page = store.list_json(2, 1);
    assert_eq!(page.get("total").unwrap().as_u64(), Some(5));
    assert_eq!(page.get("offset").unwrap().as_u64(), Some(1));
    let ids: Vec<&str> = page
        .array_at("records")
        .unwrap()
        .iter()
        .map(|r| r.str_at("identifier").unwrap())
        .collect();
    assert_eq!(ids, vec!["id-3", "id-2"]);
    assert!(store.list_json(10, 9).array_at("records").unwrap().is_empty());
}

#[test]
fn the_window_slides_and_keys_do_not_share() {
    let mut windows = SlidingWindows::new();
    assert!(windows.admit_at("a", Some(2), 0));
    assert!(windows.admit_at("a", Some(2), 10));
    assert!(!windows.admit_at("a", Some(2), MINUTE - 1));
    assert!(windows.admit_at("b", Some(2), MINUTE - 1));
    assert!(windows.admit_at("a", Some(2), MINUTE));
    assert!(!windows.admit_at("a", Some(2), MINUTE + 9));
    assert!(windows.admit_at("a", Some(2), MINUTE + 10));
    assert!(!windows.admit_at("a", Some(0), 10 * MINUTE));
    assert!(windows.admit_at("a", None, 10 * MINUTE));
}

#[test]
fn a_rate_window_states_its_limit() {
    let mut gate = RateLimited::per_minute(1);
    let r = report("x");
    assert!(gate.admit_at(&r, 5).is_ok());
    assert_eq!(
        gate.admit_at(&r, 6).unwrap_err(),
        "rate limit: at most 1 report(s) per identifier per minute — refused, retry after the window"
    );
    assert!(gate.admit_at(&r, 5 + MINUTE).is_ok());
    assert!(Permissive.admit_report(&r).is_ok());
}

#[test]
fn feedback_is_journaled_receipted_and_rate_gated() {
    let now = at("2026-09-15T12:00:00Z");
    let mut store = store();
    let mut gate = RateLimited::per_minute(2);

    // A typed report is admitted, journaled, and acknowledged with its
    // sequence and instant: the receipt cites without the contact.
    let body = r#"{
        "identifier": "gs1:(01)06901234567892",
        "category": "goods-mismatch",
        "contact": "reporter@example.org",
        "details": "the package says 20 Ah, the page says 0.072 kWh"
    }"#;
    let (resp, recorded) = submit_feedback(body, &mut gate, &mut store, &now);
    assert_eq!(resp.status, 201);
    let receipt = document(&resp);
    assert_eq!(receipt.get("seq").unwrap().as_u64(), Some(1));
    assert_eq!(receipt.str_at("category"), Some("goods-mismatch"));
    assert_eq!(receipt.str_at("contact"), Some("withheld"));
    assert!(receipt.str_at("recorded_at").is_some());
    assert!(journal_line(&recorded.unwrap()).contains("reporter@example.org"));

    // The public citation form serves the report by sequence, contact
    // withheld (stated, never silent).
    let resp = feedback_citation(&store, 1, &now);
    assert_eq!(resp.status, 200);
    assert_eq!(document(&resp).str_at("contact"), Some("withheld"));
    assert_eq!(document(&resp).str_at("identifier"), Some("gs1:(01)06901234567892"));

    // An unstated report is refused with a stated reason.
    let unstated = r#"{"identifier": " ", "category": "goods-mismatch", "details": "x"}"#;
    let (resp, recorded) = submit_feedback(unstated, &mut gate, &mut store, &now);
    assert_eq!(resp.status, 400);
    assert!(recorded.is_none());
    assert!(text_of_body(&resp).contains("`identifier` is required"));

    // The admission gate: at most 2 per identifier per minute; the third is
    // refused with a stated reason, a different identifier is a different
    // window.
    let body2 = r#"{
        "identifier": "gs1:(01)06901234567892",
        "category": "advertising-mismatch",
        "details": "the ad claims Qi2, the page does not"
    }"#;
    assert_eq!(submit_feedback(body2, &mut gate, &mut store, &now).0.status, 201);
    let (resp, _) = submit_feedback(body2, &mut gate, &mut store, &now);
    assert_eq!(resp.status, 429);
    assert!(text_of_body(&resp).contains("rate limit"));
    let other = r#"{
        "identifier": "gs1:(01)09506000134352",
        "category": "other:labelling",
        "details": "the energy label class is unreadable"
    }"#;
    assert_eq!(submit_feedback(other, &mut gate, &mut store, &now).0.status, 201);

    // The admin listing carries the contacts; unguarded access is refused
    // when a token is configured.
    let token = Some("s3cret".to_string());
    let resp = feedback_admin(&store, &token, None, None, None, &now);
    assert_eq!(resp.status, 401);
    let resp = feedback_admin(&store, &token, Some("Bearer s3cret"), Some("10"), None, &now);
    assert_eq!(resp.status, 200);
    let listing = document(&resp);
    assert_eq!(listing.get("total").unwrap().as_u64(), Some(3));
    let records = listing.array_at("records").unwrap();
    assert_eq!(records[0].str_at("identifier"), Some("gs1:(01)09506000134352"));
    assert!(records.iter().any(|r| r.str_at("contact") == Some("reporter@example.org")));

    // An unknown citation is a stated 404.
    let resp = feedback_citation(&store, 99, &now);
    assert_eq!(resp.status, 404);
}

#[test]
fn a_gate_that_refuses_is_answered_with_its_reason() {
    let now = at("t");
    let mut store = store();
    let (resp, recorded) = answer_report(report("x"), &Err("closed".to_string()), &mut store, &now);
    assert_eq!(resp.status, 429);
    assert_eq!(text_of_body(&resp), "{\"error\":\"closed\",\"refused\":true}");
    assert!(recorded.is_none());
    assert!(store.records.is_empty());
    let (resp, recorded) = submit_feedback("{", &mut Permissive, &mut store, &now);
    assert_eq!(resp.status, 400);
    assert!(recorded.is_none());
    assert!(text_of_body(&resp).contains("invalid JSON body: EOF"));
}

#[test]
fn a_report_body_says_what_it_says() {
    let r = report_of(&parse_json(r#"{"identifier": "i", "contact": "  ", "category": 3}"#).unwrap());
    assert_eq!(r.identifier, "i");
    assert_eq!(r.contact, None);
    assert_eq!(r.details, "");
    assert_eq!(r.category, FeedbackCategory::Other(String::new()));
}

#[test]
fn the_listing_is_guarded_and_paged() {
    let now = at("t");
    let mut store = store();
    for i in 0..3 {
        store.submit(report(&format!("id-{i}")), "t").unwrap();
    }
    let token = Some("s3cret".to_string());
    assert_eq!(feedback_admin(&store, &token, Some("s3cret"), None, None, &now).status, 401);
    assert_eq!(feedback_admin(&store, &token, Some("Bearer s3cre"), None, None, &now).status, 401);
    let open = feedback_admin(&store, &None, None, Some("x"), Some("2"), &now);
    assert_eq!(open.status, 200);
    let listing = document(&open);
    assert_eq!(listing.array_at("records").unwrap().len(), 1);
    assert_eq!(listing.get("offset").unwrap().as_u64(), Some(2));
    let one = document(&feedback_admin(&store, &None, None, Some("1"), Some("-1"), &now));
    assert_eq!(one.array_at("records").unwrap()[0].str_at("identifier"), Some("id-2"));
}
