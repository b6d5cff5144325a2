//! The HTTP surface: the configuration, and for each route the reply to what
//! the request says and what the service found for it.
//!
//! Every reply is as-of stamped (`x-as-of` header); not-found replies are
//! no-information: identical bytes for unknown passports and anything
//! deliberately unresolvable. The EN 18222 render carries no `as_of` member,
//! its wire field set being frozen; there the stamp rides the header alone.
//!
//! | endpoint | purpose |
//! |---|---|
//! | `POST /untp/ingest` | the import direction |
//! | `GET /untp/product/{id}` | the UNTP verifiable-credential triad with the verdict |
//! | `GET /en18222/v1/dppsByProductId/{gtin}?representation=full\|compressed` | the EN 18222 REST render |
//! | `POST /feedback` | the consumer report channel |
//! | `GET /feedback/{seq}` | the public citation form of a report |
//! | `GET /admin/feedback` | the full listing of reports |
//! | `POST /scan-tokens` | a scan token, where a scan policy is configured |
//! | `GET /healthz` | liveness |
//! | `GET /` | discovery |
use vstd::prelude::*;

use crate::en18222::{body, header_identifier, law_field_sets, render, selected, Representation};
use crate::feedback::{
    law_record_wire_form, listing, refusal_of, AdmissionControl, CategoryView, FeedbackCategory,
    FeedbackRecord, FeedbackReport, FeedbackStore, RecordView, ReportView,
};
use crate::ingest::{
    are_bindings, binds, body_conformity, body_stub, first_identifier, is_resolution,
    law_named_standards_are_bound, named_standard, IngestOutcome, IngestStatus, IngestStore,
};
use crate::json::{
    compact_json, lemma_array_view, parse_json, put, put_text, read_json, text, views, Json,
    JsonView,
};
use crate::model::Timestamp;
use crate::reply::{
    compact, compact_reply, error_document, error_json, stamped_headers, typed_as_of, Body,
    BodyView, Reply, ReplyView,
};
use crate::scan::{
    absence_refusal, admits_at, expiry_refusal, issues_at, refusal, seconds_dead, unknown_refusal,
    GateView, ScanGate, ScanHeaders,
};
use crate::source::{GatewayPassport, Lookup, ProfileRef};
use crate::text::{
    blank, is_blank, opt_string, opt_text, parse_unsigned, same, starts_with, strings, strip_prefix,
    trim, trimmed, unsigned_number, Text,
};
use crate::untp::{
    claim, conformity_credentials, gs1_display, has_plain_parts, law_rendered_identity,
    law_rendered_identity_reads_back, passport_credential, profile_credential, render_triad,
    text_or, triad, untp_value, uri_of_scheme,
};
use crate::verdict::{
    current_state_view, duration_ms, duration_to_ms, verdict_on, CryptoSlot, CryptoSlots,
    VerifyView,
};
use crate::window::live;

verus! {

/// The no-information 404: identical bytes for unknown passports and anything
/// deliberately unresolvable alike.
pub const NOT_FOUND_BODY: &'static str = "{\"error\":\"not found\"}";

// ---------------------------------------------------------------------------
// Configuration
// ---------------------------------------------------------------------------

/// Deployment configuration.
#[derive(Debug, PartialEq)]
pub struct Config {
    /// Listen address.
    pub bind: String,
    /// Optional issuer upstream base URL.
    pub issuer_url: Option<String>,
    /// Upstream request timeout, in milliseconds.
    pub timeout_ms: u64,
    /// The consumer-report journal path; in-memory only where absent.
    pub feedback_journal: Option<String>,
    /// Reports of an identifier within a minute; zero for no limit.
    pub feedback_rate_per_minute: usize,
    /// The admin bearer token that guards the report listing.
    pub admin_token: Option<String>,
    /// The lifetime of scan tokens, in seconds; zero for an open gate.
    pub scan_ttl_secs: u64,
    /// Scan tokens of a source within a minute; zero for no limit.
    pub scan_limit_per_minute: usize,
}

/// The environment variables that configure the service.
#[derive(Debug)]
pub struct Environment {
    /// `UNIDPP_GATEWAY_BIND`.
    pub bind: Option<String>,
    /// `UNIDPP_ISSUER_URL`.
    pub issuer_url: Option<String>,
    /// `UNIDPP_GATEWAY_ISSUER_URL`.
    pub gateway_issuer_url: Option<String>,
    /// `UNIDPP_GATEWAY_FEEDBACK_JOURNAL`.
    pub feedback_journal: Option<String>,
    /// `UNIDPP_GATEWAY_FEEDBACK_RATE`.
    pub feedback_rate: Option<String>,
    /// `UNIDPP_GATEWAY_ADMIN_TOKEN`.
    pub admin_token: Option<String>,
    /// `UNIDPP_GATEWAY_TIMEOUT_MS`.
    pub timeout_ms: Option<String>,
}

/// What a configuration says.
pub struct ConfigView {
    pub bind: Text,
    pub issuer_url: Option<Text>,
    pub timeout_ms: u64,
    pub feedback_journal: Option<Text>,
    pub feedback_rate_per_minute: usize,
    pub admin_token: Option<Text>,
    pub scan_ttl_secs: u64,
    pub scan_limit_per_minute: usize,
}

/// The text, where there is one that is not blank.
pub open spec fn not_blank(s: Option<String>) -> Option<Text> {
    match s {
        Some(s) => if is_blank(s@) {
            None
        } else {
            Some(s@)
        },
        None => None,
    }
}

/// The text, where there is one that is not blank.
fn unless_blank(s: &Option<String>) -> (r: Option<String>)
    ensures
        opt_string(r) == not_blank(*s),
{
    match s {
        Some(s) => if blank(s.as_str()) {
            None
        } else {
            Some(s.clone())
        },
        None => None,
    }
}

/// The number that a setting denotes, surrounding white space ignored; the
/// default where there is no setting or a bad one.
pub open spec fn setting_number(s: Option<String>, max: nat, default: nat) -> nat {
    match s {
        Some(s) => match unsigned_number(trimmed(s@), max) {
            Some(n) => n,
            None => default,
        },
        None => default,
    }
}

/// The complaint about a bad setting.
pub open spec fn complaint(name: Text, value: Text) -> Text {
    "unidpp-gateway: ignoring bad "@ + name + " `"@ + value + "`"@
}

/// The complaint about a setting that denotes no number.
pub open spec fn number_complaint(s: Option<String>, max: nat, name: Text) -> Seq<Text> {
    match s {
        Some(s) => if unsigned_number(trimmed(s@), max) is None {
            seq![complaint(name, s@)]
        } else {
            Seq::empty()
        },
        None => Seq::empty(),
    }
}

/// The number that a setting denotes, where it denotes one; a bad one is
/// complained about.
fn read_number(s: &Option<String>, max: u64, default: u64, name: &str, warnings: &mut Vec<String>)
    -> (r: u64)
    requires
        default <= max,
    ensures
        r == setting_number(*s, max as nat, default as nat),
        r <= max,
        strings(final(warnings)@) == strings(old(warnings)@)
            + number_complaint(*s, max as nat, name@),
{
    let ghost before = strings(warnings@);
    assert(before + Seq::<Text>::empty() =~= before);
    match s {
        Some(value) => match parse_unsigned(trim(value.as_str()), max) {
            Some(n) => n,
            None => {
                warnings.push(complaint_text(name, value.as_str()));
                assert(strings(warnings@) =~= before + seq![complaint(name@, value@)]);
                default
            },
        },
        None => default,
    }
}

/// The complaint about a bad setting.
fn complaint_text(name: &str, value: &str) -> (r: String)
    ensures
        r@ == complaint(name@, value@),
{
    "unidpp-gateway: ignoring bad ".to_owned().concat(name).concat(" `").concat(value).concat("`")
}

impl Config {
    /// What the configuration says.
    pub open spec fn view(&self) -> ConfigView {
        ConfigView {
            bind: self.bind@,
            issuer_url: opt_string(self.issuer_url),
            timeout_ms: self.timeout_ms,
            feedback_journal: opt_string(self.feedback_journal),
            feedback_rate_per_minute: self.feedback_rate_per_minute,
            admin_token: opt_string(self.admin_token),
            scan_ttl_secs: self.scan_ttl_secs,
            scan_limit_per_minute: self.scan_limit_per_minute,
        }
    }

    /// The configuration of an environment, and the complaints about it: a
    /// bad listen address or a bad number is complained about and ignored, a
    /// blank text counts as absent. `bind_is_address` says whether the listen
    /// address reads as a socket address.
    pub fn from_env(env: &Environment, bind_is_address: bool) -> (r: (Config, Vec<String>))
        ensures
            r.0.view() == configured(*env, bind_is_address),
            strings(r.1@) == complaints(*env, bind_is_address),
    {
        let mut config = Config::default();
        let mut warnings: Vec<String> = Vec::new();
        assert(strings(warnings@) =~= Seq::empty());
        match &env.bind {
            Some(bind) => if bind_is_address {
                config.bind = bind.clone();
            } else {
                warnings.push(complaint_text("UNIDPP_GATEWAY_BIND", bind.as_str()));
            },
            None => {},
        }
        assert(strings(warnings@) =~= bind_complaint(env.bind, bind_is_address));
        config.issuer_url = match unless_blank(&env.issuer_url) {
            Some(url) => Some(url),
            None => unless_blank(&env.gateway_issuer_url),
        };
        config.feedback_journal = unless_blank(&env.feedback_journal);
        let rate: u64 = read_number(
            &env.feedback_rate,
            usize::MAX as u64,
            0,
            "UNIDPP_GATEWAY_FEEDBACK_RATE",
            &mut warnings,
        );
        config.feedback_rate_per_minute = rate as usize;
        config.admin_token = unless_blank(&env.admin_token);
        config.timeout_ms = read_number(
            &env.timeout_ms,
            u64::MAX,
            2000,
            "UNIDPP_GATEWAY_TIMEOUT_MS",
            &mut warnings,
        );
        (config, warnings)
    }
}

impl Default for Config {
    fn default() -> (r: Config)
        ensures
            r.view() == default_config(),
    {
        Config {
            bind: "127.0.0.1:8094".to_owned(),
            issuer_url: None,
            timeout_ms: 2000,
            feedback_journal: None,
            feedback_rate_per_minute: 0,
            admin_token: None,
            scan_ttl_secs: 0,
            scan_limit_per_minute: 0,
        }
    }
}

/// The default configuration.
pub open spec fn default_config() -> ConfigView {
    ConfigView {
        bind: "127.0.0.1:8094"@,
        issuer_url: None,
        timeout_ms: 2000,
        feedback_journal: None,
        feedback_rate_per_minute: 0,
        admin_token: None,
        scan_ttl_secs: 0,
        scan_limit_per_minute: 0,
    }
}

/// The configuration of an environment.
pub open spec fn configured(env: Environment, bind_is_address: bool) -> ConfigView {
    ConfigView {
        bind: match env.bind {
            Some(bind) => if bind_is_address {
                bind@
            } else {
                "127.0.0.1:8094"@
            },
            None => "127.0.0.1:8094"@,
        },
        issuer_url: match not_blank(env.issuer_url) {
            Some(url) => Some(url),
            None => not_blank(env.gateway_issuer_url),
        },
        timeout_ms: setting_number(env.timeout_ms, u64::MAX as nat, 2000) as u64,
        feedback_journal: not_blank(env.feedback_journal),
        feedback_rate_per_minute: setting_number(
            env.feedback_rate,
            usize::MAX as nat,
            0,
        ) as usize,
        admin_token: not_blank(env.admin_token),
        scan_ttl_secs: 0,
        scan_limit_per_minute: 0,
    }
}

/// The complaint about a listen address that is none.
pub open spec fn bind_complaint(bind: Option<String>, bind_is_address: bool) -> Seq<Text> {
    match bind {
        Some(bind) => if bind_is_address {
            Seq::empty()
        } else {
            seq![complaint("UNIDPP_GATEWAY_BIND"@, bind@)]
        },
        None => Seq::empty(),
    }
}

/// The complaints about an environment.
pub open spec fn complaints(env: Environment, bind_is_address: bool) -> Seq<Text> {
    bind_complaint(env.bind, bind_is_address) + number_complaint(
        env.feedback_rate,
        usize::MAX as nat,
        "UNIDPP_GATEWAY_FEEDBACK_RATE"@,
    ) + number_complaint(env.timeout_ms, u64::MAX as nat, "UNIDPP_GATEWAY_TIMEOUT_MS"@)
}

// ---------------------------------------------------------------------------
// Reply helpers
// ---------------------------------------------------------------------------

/// A document reply that carries its stamp in the header alone.
pub open spec fn wire_reply(status: u16, document: JsonView, as_of: Text) -> ReplyView {
    ReplyView {
        status,
        headers: typed_as_of("application/json"@, as_of),
        body: BodyView::Document(document),
    }
}

/// The document with its own as-of stamp, where it is an object.
pub open spec fn with_stamp(document: JsonView, as_of: Text) -> JsonView {
    match document {
        JsonView::Object(m) => JsonView::Object(m.insert("as_of"@, JsonView::Text(as_of))),
        _ => document,
    }
}

/// A document reply that carries its stamp in the header and in the body.
pub open spec fn stamped_reply(status: u16, document: JsonView, as_of: Text) -> ReplyView {
    wire_reply(status, with_stamp(document, as_of), as_of)
}

/// A document reply whose body must not be augmented: the stamp rides the
/// header alone.
pub fn wire_stamped(status: u16, document: Json, as_of: &Timestamp) -> (r: Reply)
    ensures
        r.view() == wire_reply(status, document.view(), as_of.text@),
{
    Reply {
        status,
        headers: stamped_headers("application/json", as_of.text.as_str()),
        body: Body::Document(document),
    }
}

/// A document reply that carries its stamp in the header and in the body.
pub fn stamped(status: u16, document: Json, as_of: &Timestamp) -> (r: Reply)
    ensures
        r.view() == stamped_reply(status, document.view(), as_of.text@),
{
    let stamped_document = match document {
        Json::Object(members) => {
            let mut members = members;
            put_text(&mut members, "as_of", as_of.text.as_str());
            Json::Object(members)
        },
        other => other,
    };
    wire_stamped(status, stamped_document, as_of)
}

/// The reply to a bad request.
pub open spec fn bad_request_reply(reason: Text, as_of: Text) -> ReplyView {
    stamped_reply(400, error_document(reason), as_of)
}

/// The reply to a bad request.
pub fn bad_request(reason: &str, as_of: &Timestamp) -> (r: Reply)
    ensures
        r.view() == bad_request_reply(reason@, as_of.text@),
{
    stamped(400, error_json(reason), as_of)
}

/// A text reply, stamped in its header.
pub open spec fn text_reply(status: u16, content_type: Text, body: Text, as_of: Text) -> ReplyView {
    ReplyView {
        status,
        headers: typed_as_of(content_type, as_of),
        body: BodyView::Text(body),
    }
}

/// The no-information 404.
pub open spec fn not_found_reply(as_of: Text) -> ReplyView {
    text_reply(404, "application/json"@, NOT_FOUND_BODY@, as_of)
}

/// The no-information 404.
pub fn not_found(as_of: &Timestamp) -> (r: Reply)
    ensures
        r.view() == not_found_reply(as_of.text@),
{
    Reply {
        status: 404,
        headers: stamped_headers("application/json", as_of.text.as_str()),
        body: Body::Text(NOT_FOUND_BODY.to_owned()),
    }
}

/// The reply of a live service.
pub fn healthz(as_of: &Timestamp) -> (r: Reply)
    ensures
        r.view() == text_reply(200, "text/plain"@, "ok"@, as_of.text@),
{
    Reply {
        status: 200,
        headers: stamped_headers("text/plain", as_of.text.as_str()),
        body: Body::Text("ok".to_owned()),
    }
}

// ---------------------------------------------------------------------------
// The renders
// ---------------------------------------------------------------------------

/// The passport that an id resolves to, from any serving source: the
/// fixtures, what the issuer served, then the ingested store.
pub fn resolve_any<'a>(
    lookup: Lookup<'a>,
    issued: Option<&'a GatewayPassport>,
    ingested: &'a IngestStore,
    id: &str,
) -> (r: Option<&'a GatewayPassport>)
    ensures
        match lookup.yields(issued) {
            Some(p) => r == Some(p),
            None => is_resolution(ingested.entries@, id@, r),
        },
{
    match lookup.answered(issued) {
        Some(p) => Some(p),
        None => ingested.resolve(id),
    }
}

/// The freshness that a request requires: its parameter, surrounding white
/// space ignored, where anything is left of it.
pub open spec fn required_freshness(param: Option<Text>) -> Option<Text> {
    match param {
        Some(s) => if trimmed(s).len() > 0 {
            Some(trimmed(s))
        } else {
            None
        },
        None => None,
    }
}

/// The reply to a request that the scan gate refuses.
pub open spec fn refused_reply(reason: Text, now: Text) -> ReplyView {
    compact_reply(401, error_document(reason), now)
}

/// Whether a request is answered behind the scan gate: with its answer where
/// that admits it, otherwise with the refusal.
pub open spec fn is_gated(
    before: GateView,
    presented: Option<Text>,
    at: u128,
    after: GateView,
    now: Text,
    answer: ReplyView,
    reply: ReplyView,
) -> bool {
    exists|admitted: Result<(), String>| #[trigger]
        admits_at(before, presented, at, after, admitted) && reply == match admitted {
            Ok(_) => answer,
            Err(reason) => refused_reply(reason@, now),
        }
}

/// Whether a freshness requirement is no duration.
pub open spec fn is_bad_freshness(required: Option<Text>) -> bool {
    required matches Some(freshness) && duration_ms(freshness) is None
}

/// The reply to a freshness requirement that is no duration.
pub open spec fn bad_freshness_reply(now: Text) -> ReplyView {
    bad_request_reply("`freshness` must be an ISO 8601 duration (PnDTnHnMnS)"@, now)
}

/// The reply of the UNTP route to a well-formed request.
pub open spec fn untp_found_reply<S: CryptoSlot>(
    required: Option<Text>,
    found: Option<&GatewayPassport>,
    slots: Seq<S>,
    now: Timestamp,
) -> ReplyView {
    match found {
        None => not_found_reply(now.text@),
        Some(p) => stamped_reply(
            200,
            triad(
                p,
                &now,
                verdict_on(
                    &p.document,
                    current_state_view(p.anchors.view(), slots, required, now),
                ).dict(),
            ),
            now.text@,
        ),
    }
}

/// The reply of the UNTP route to an admitted request.
pub open spec fn untp_reply<S: CryptoSlot>(
    param: Option<Text>,
    found: Option<&GatewayPassport>,
    slots: Seq<S>,
    now: Timestamp,
) -> ReplyView {
    if is_bad_freshness(required_freshness(param)) {
        bad_freshness_reply(now.text@)
    } else {
        untp_found_reply(required_freshness(param), found, slots, now)
    }
}

/// Reads a request for a triad before its passport is looked up: the required
/// freshness, or the reply to a request that the scan gate refuses or whose
/// `freshness` is no duration.
pub fn untp_request<'a>(
    gate: &mut ScanGate,
    headers: &ScanHeaders,
    param: Option<&'a str>,
    now: &Timestamp,
) -> (r: Result<Option<&'a str>, Reply>)
    ensures
        final(gate).read_at() >= old(gate).read_at(),
        exists|admitted: Result<(), String>| #[trigger]
            admits_at(
                old(gate).view(),
                headers.presented(),
                final(gate).read_at(),
                final(gate).view(),
                admitted,
            ) && match admitted {
                Err(reason) => r matches Err(reply) && reply.view() == refused_reply(
                    reason@,
                    now.text@,
                ),
                Ok(_) => if is_bad_freshness(required_freshness(opt_text(param))) {
                    r matches Err(reply) && reply.view() == bad_freshness_reply(now.text@)
                } else {
                    r matches Ok(required) && opt_text(required) == required_freshness(
                        opt_text(param),
                    )
                },
            },
{
    match guard(gate, headers, now) {
        Some(reply) => {
            return Err(reply);
        },
        None => {},
    }
    let required: Option<&'a str> = match param {
        Some(s) => {
            let freshness = trim(s);
            if freshness.is_empty() {
                None
            } else {
                Some(freshness)
            }
        },
        None => None,
    };
    match required {
        Some(freshness) => match duration_to_ms(freshness) {
            Some(_) => {},
            None => {
                return Err(
                    bad_request("`freshness` must be an ISO 8601 duration (PnDTnHnMnS)", now),
                );
            },
        },
        None => {},
    }
    Ok(required)
}

/// The verifiable-credential triad and the verdict, given the required
/// freshness and the passport that the id resolved to.
pub fn untp_found<S: CryptoSlot>(
    required: Option<&str>,
    found: Option<&GatewayPassport>,
    slots: &CryptoSlots<S>,
    now: &Timestamp,
) -> (r: Reply)
    requires
        found matches Some(p) ==> p.document.event_signatures@.len() + 3 <= usize::MAX,
    ensures
        r.view() == untp_found_reply(opt_text(required), found, slots.slots@, *now),
{
    match found {
        None => not_found(now),
        Some(p) => stamped(200, render_triad(p, now, required, slots), now),
    }
}

/// The UNTP route: the refusal of the scan gate, or the triad and the verdict,
/// given the `freshness` parameter and the passport that the id resolved to.
pub fn untp_product<S: CryptoSlot>(
    gate: &mut ScanGate,
    headers: &ScanHeaders,
    param: Option<&str>,
    found: Option<&GatewayPassport>,
    slots: &CryptoSlots<S>,
    now: &Timestamp,
) -> (r: Reply)
    requires
        found matches Some(p) ==> p.document.event_signatures@.len() + 3 <= usize::MAX,
    ensures
        final(gate).read_at() >= old(gate).read_at(),
        is_gated(
            old(gate).view(),
            headers.presented(),
            final(gate).read_at(),
            final(gate).view(),
            now.text@,
            untp_reply(opt_text(param), found, slots.slots@, *now),
            r.view(),
        ),
{
    match untp_request(gate, headers, param, now) {
        Err(reply) => reply,
        Ok(required) => untp_found(required, found, slots, now),
    }
}

/// The reply of the EN 18222 route to a well-formed request.
pub open spec fn en18222_found_reply(
    representation: Representation,
    found: Option<&GatewayPassport>,
    now: Text,
) -> ReplyView {
    match found {
        None => not_found_reply(now),
        Some(p) => wire_reply(200, body(p, representation), now),
    }
}

/// The reply of the EN 18222 route to an admitted request.
pub open spec fn en18222_reply(
    param: Option<Text>,
    found: Option<&GatewayPassport>,
    now: Text,
) -> ReplyView {
    match selected(param) {
        Err(e) => bad_request_reply(e, now),
        Ok(representation) => en18222_found_reply(representation, found, now),
    }
}

/// Reads a request for an EN 18222 render before its passport is looked up:
/// the representation, or the reply to a request that the scan gate refuses or
/// whose `representation` is unknown.
pub fn en18222_request(
    gate: &mut ScanGate,
    headers: &ScanHeaders,
    param: Option<&str>,
    now: &Timestamp,
) -> (r: Result<Representation, Reply>)
    ensures
        final(gate).read_at() >= old(gate).read_at(),
        exists|admitted: Result<(), String>| #[trigger]
            admits_at(
                old(gate).view(),
                headers.presented(),
                final(gate).read_at(),
                final(gate).view(),
                admitted,
            ) && match admitted {
                Err(reason) => r matches Err(reply) && reply.view() == refused_reply(
                    reason@,
                    now.text@,
                ),
                Ok(_) => match selected(opt_text(param)) {
                    Err(e) => r matches Err(reply) && reply.view() == bad_request_reply(
                        e,
                        now.text@,
                    ),
                    Ok(representation) => r == Ok::<Representation, Reply>(representation),
                },
            },
{
    match guard(gate, headers, now) {
        Some(reply) => {
            return Err(reply);
        },
        None => {},
    }
    match Representation::parse(param) {
        Err(e) => Err(bad_request(e.as_str(), now)),
        Ok(representation) => Ok(representation),
    }
}

/// The EN 18222 render, given the representation and the passport that the
/// GTIN resolved to.
pub fn en18222_found(
    representation: Representation,
    found: Option<&GatewayPassport>,
    now: &Timestamp,
) -> (r: Reply)
    ensures
        r.view() == en18222_found_reply(representation, found, now.text@),
{
    match found {
        None => not_found(now),
        Some(p) => wire_stamped(200, render(p, representation, now), now),
    }
}

/// The EN 18222 route: the refusal of the scan gate, or the render, given the
/// `representation` parameter and the passport that the GTIN resolved to.
pub fn en18222_dpps(
    gate: &mut ScanGate,
    headers: &ScanHeaders,
    param: Option<&str>,
    found: Option<&GatewayPassport>,
    now: &Timestamp,
) -> (r: Reply)
    ensures
        final(gate).read_at() >= old(gate).read_at(),
        is_gated(
            old(gate).view(),
            headers.presented(),
            final(gate).read_at(),
            final(gate).view(),
            now.text@,
            en18222_reply(opt_text(param), found, now.text@),
            r.view(),
        ),
{
    match en18222_request(gate, headers, param, now) {
        Err(reply) => reply,
        Ok(representation) => en18222_found(representation, found, now),
    }
}

// ---------------------------------------------------------------------------
// The import
// ---------------------------------------------------------------------------

/// The document of a request body, or the reply to a body that is none.
pub fn json_body(body: &str, now: &Timestamp) -> (r: Result<Json, Reply>)
    ensures
        match read_json(body@) {
            Ok(v) => r matches Ok(j) && j.view() == v && j.plain(),
            Err(e) => r matches Err(reply) && reply.view() == bad_request_reply(
                "invalid JSON body: "@ + e,
                now.text@,
            ),
        },
{
    match parse_json(body) {
        Ok(j) => Ok(j),
        Err(e) => Err(
            bad_request("invalid JSON body: ".to_owned().concat(e.as_str()).as_str(), now),
        ),
    }
}

/// The wire form of a profile binding.
pub open spec fn binding_document(profile: ProfileRef) -> JsonView {
    JsonView::Object(
        map![
            "id"@ => JsonView::Text(profile.id@),
            "version"@ => JsonView::Text(profile.version@),
            "effective_from"@ => match profile.effective_from {
                Some(t) => JsonView::Text(t.text@),
                None => JsonView::Null,
            },
        ],
    )
}

/// The wire form of a profile binding.
fn binding_json(profile: &ProfileRef) -> (j: Json)
    ensures
        j.view() == binding_document(*profile),
{
    let since = match &profile.effective_from {
        Some(t) => text(t.text.as_str()),
        None => Json::Null,
    };
    let mut members: Vec<(String, Json)> = Vec::new();
    put_text(&mut members, "id", profile.id.as_str());
    put_text(&mut members, "version", profile.version.as_str());
    put(&mut members, "effective_from", since);
    Json::Object(members)
}

/// The reply of the ingest route: 201 for an import, 200 for a match, 422
/// with the reason where nothing was ingested.
pub open spec fn ingest_reply_view(r: Result<IngestOutcome, String>, now: Text) -> ReplyView {
    match r {
        Ok(outcome) => stamped_reply(
            match outcome.status {
                IngestStatus::Imported => 201,
                IngestStatus::Matched => 200,
            },
            JsonView::Object(
                map![
                    "status"@ => JsonView::Text(outcome.status.token()),
                    "passport_id"@ => JsonView::Text(outcome.passport.document.passport_id@),
                    "identity"@ => JsonView::Text(outcome.passport.document.product_id.display@),
                    "granularity"@ => JsonView::Text(
                        outcome.passport.document.product_id.granularity.token(),
                    ),
                    "profiles"@ => JsonView::Array(
                        outcome.profiles@.map_values(|p: ProfileRef| binding_document(p)),
                    ),
                    "receipt"@ => outcome.receipt.view(),
                ],
            ),
            now,
        ),
        Err(reason) => stamped_reply(
            422,
            JsonView::Object(
                map![
                    "status"@ => JsonView::Text("degraded"@),
                    "reason"@ => JsonView::Text(reason@),
                ],
            ),
            now,
        ),
    }
}

/// The reply of the ingest route.
pub fn ingest_reply(r: &Result<IngestOutcome, String>, now: &Timestamp) -> (reply: Reply)
    ensures
        reply.view() == ingest_reply_view(*r, now.text@),
{
    broadcast use lemma_array_view;

    match r {
        Ok(outcome) => {
            let status: u16 = match outcome.status {
                IngestStatus::Imported => 201,
                IngestStatus::Matched => 200,
            };
            let n: usize = outcome.profiles.len();
            let mut profiles: Vec<Json> = Vec::new();
            let mut i: usize = 0;
            while i < n
                invariant
                    i <= n == outcome.profiles@.len(),
                    profiles@.len() == i,
                    forall|k: int|
                        0 <= k < i ==> (#[trigger] profiles@[k]).view() == binding_document(
                            outcome.profiles@[k],
                        ),
                decreases n - i,
            {
                profiles.push(binding_json(&outcome.profiles[i]));
                i = i + 1;
            }
            assert(views(profiles@) =~= outcome.profiles@.map_values(
                |p: ProfileRef| binding_document(p),
            ));
            let document = &outcome.passport.document;
            let mut members: Vec<(String, Json)> = Vec::new();
            put_text(&mut members, "status", outcome.status.as_str());
            put_text(&mut members, "passport_id", document.passport_id.as_str());
            put_text(&mut members, "identity", document.product_id.display.as_str());
            put_text(&mut members, "granularity", document.product_id.granularity.as_str());
            put(&mut members, "profiles", Json::Array(profiles));
            put(&mut members, "receipt", outcome.receipt.copy());
            stamped(status, Json::Object(members), now)
        },
        Err(reason) => {
            let mut members: Vec<(String, Json)> = Vec::new();
            put_text(&mut members, "status", "degraded");
            put_text(&mut members, "reason", reason.as_str());
            stamped(422, Json::Object(members), now)
        },
    }
}

// ---------------------------------------------------------------------------
// The consumer report channel
// ---------------------------------------------------------------------------

/// The report that a request body states: what it does not say is empty, a
/// blank contact is none.
pub open spec fn stated_report(v: JsonView) -> ReportView {
    ReportView {
        identifier: text_or(v.text_at("identifier"@), Seq::empty()),
        category: CategoryView::named(text_or(v.text_at("category"@), Seq::empty())),
        contact: match v.text_at("contact"@) {
            Some(contact) => if is_blank(contact) {
                None
            } else {
                Some(contact)
            },
            None => None,
        },
        details: text_or(v.text_at("details"@), Seq::empty()),
    }
}

/// The text of a member, empty where there is none.
fn text_or_empty<'a>(v: &'a Json, key: &str) -> (r: &'a str)
    ensures
        r@ == text_or(v.view().text_at(key@), Seq::empty()),
{
    proof {
        reveal_strlit("");
        assert(""@ =~= Seq::empty());
    }
    match v.str_at(key) {
        Some(s) => s,
        None => "",
    }
}

/// The report that a request body states.
pub fn report_of(v: &Json) -> (r: FeedbackReport)
    ensures
        r.view() == stated_report(v.view()),
{
    let contact = match v.str_at("contact") {
        Some(contact) => if blank(contact) {
            None
        } else {
            Some(contact.to_owned())
        },
        None => None,
    };
    FeedbackReport {
        identifier: text_or_empty(v, "identifier").to_owned(),
        category: FeedbackCategory::parse(text_or_empty(v, "category")),
        contact,
        details: text_or_empty(v, "details").to_owned(),
    }
}

/// The document of a refused report.
pub open spec fn refused_document(reason: Text) -> JsonView {
    JsonView::Object(
        map!["error"@ => JsonView::Text(reason), "refused"@ => JsonView::Bool(true)],
    )
}

/// Whether a report is answered so: a report that was not admitted is refused
/// with the reason stated, one that says too little or too much is a bad
/// request, any other is recorded and acknowledged in its public form.
pub open spec fn is_report_answer(
    report: ReportView,
    admitted: Result<(), String>,
    before: Seq<RecordView>,
    now: Text,
    after: Seq<RecordView>,
    reply: ReplyView,
    recorded: Option<FeedbackRecord>,
) -> bool {
    match admitted {
        Err(reason) => {
            &&& after == before
            &&& recorded is None
            &&& reply == compact_reply(429, refused_document(reason@), now)
        },
        Ok(_) => match refusal_of(report) {
            Some(reason) => {
                &&& after == before
                &&& recorded is None
                &&& reply == bad_request_reply(reason, now)
            },
            None => {
                let record = RecordView {
                    seq: (before.len() + 1) as u64,
                    recorded_at: now,
                    report,
                };
                &&& before.len() < u64::MAX
                &&& after == before.push(record)
                &&& recorded matches Some(r) && r.view() == record
                &&& reply == compact_reply(201, record.dict(false), now)
            },
        },
    }
}

/// Answers a report, given what admission control said of it. What was
/// recorded is returned for the journal.
pub fn answer_report(
    report: FeedbackReport,
    admitted: &Result<(), String>,
    store: &mut FeedbackStore,
    now: &Timestamp,
) -> (r: (Reply, Option<FeedbackRecord>))
    ensures
        is_report_answer(
            report.view(),
            *admitted,
            old(store).view(),
            now.text@,
            final(store).view(),
            r.0.view(),
            r.1,
        ),
{
    match admitted {
        Err(reason) => {
            let mut members: Vec<(String, Json)> = Vec::new();
            put_text(&mut members, "error", reason.as_str());
            put(&mut members, "refused", Json::Bool(true));
            (compact(429, &Json::Object(members), now.text.as_str()), None)
        },
        Ok(_) => match store.submit(report, now.text.as_str()) {
            Ok(record) => {
                assert(store.view() =~= old(store).view().push(record.view()));
                (compact(201, &record.to_json(false), now.text.as_str()), Some(record))
            },
            Err(e) => (bad_request(e.as_str(), now), None),
        },
    }
}

/// Files a report: reads the body, puts the report to admission control, and
/// answers as that decides.
pub fn submit_feedback<A: AdmissionControl>(
    body: &str,
    admission: &mut A,
    store: &mut FeedbackStore,
    now: &Timestamp,
) -> (r: (Reply, Option<FeedbackRecord>))
    ensures
        match read_json(body@) {
            Err(e) => r.0.view() == bad_request_reply("invalid JSON body: "@ + e, now.text@)
                && r.1 is None && *final(store) == *old(store) && *final(admission) == *old(
                admission,
            ),
            Ok(v) => exists|admitted: Result<(), String>|
                A::answers(*old(admission), stated_report(v), *final(admission), admitted)
                    && #[trigger] is_report_answer(
                    stated_report(v),
                    admitted,
                    old(store).view(),
                    now.text@,
                    final(store).view(),
                    r.0.view(),
                    r.1,
                ),
        },
{
    let v = match json_body(body, now) {
        Ok(v) => v,
        Err(reply) => {
            return (reply, None);
        },
    };
    let report = report_of(&v);
    let admitted = admission.admit_report(&report);
    answer_report(report, &admitted, store, now)
}

/// The public citation of a report.
pub fn feedback_citation(store: &FeedbackStore, seq: u64, now: &Timestamp) -> (r: Reply)
    ensures
        r.view() == (if 1 <= seq <= store.view().len() {
            wire_reply(200, store.view()[seq - 1].dict(false), now.text@)
        } else {
            not_found_reply(now.text@)
        }),
{
    match store.get(seq) {
        Some(document) => wire_stamped(200, document, now),
        None => not_found(now),
    }
}

/// Whether a request may see the listing: always where no admin token is
/// configured, otherwise with that token as its bearer authorization.
pub open spec fn is_admin(token: Option<Text>, authorization: Option<Text>) -> bool {
    match token {
        Some(token) => authorization matches Some(value) && value == "Bearer "@ + token,
        None => true,
    }
}

/// Whether a request may see the listing.
fn authorized(token: &Option<String>, authorization: Option<&str>) -> (r: bool)
    ensures
        r == is_admin(opt_string(*token), opt_text(authorization)),
{
    match token {
        Some(token) => match authorization {
            Some(value) => match strip_prefix(value, "Bearer ") {
                Some(got) => {
                    let ghost prefix = "Bearer "@;
                    assert(value@ =~= prefix + got@);
                    assert((prefix + token@).skip(prefix.len() as int) =~= token@);
                    same(got.as_str(), token.as_str())
                },
                None => {
                    let ghost prefix = "Bearer "@;
                    assert((prefix + token@).take(prefix.len() as int) =~= prefix);
                    false
                },
            },
            None => false,
        },
        None => true,
    }
}

/// The largest page of the listing.
pub const LARGEST_PAGE: u64 = 10_000;

/// The page that a request asks for: how many records, and from which on.
pub open spec fn page(limit: Option<Text>, offset: Option<Text>) -> (nat, nat) {
    let asked = match limit {
        Some(s) => match unsigned_number(s, usize::MAX as nat) {
            Some(n) => n,
            None => 100,
        },
        None => 100,
    };
    let from = match offset {
        Some(s) => match unsigned_number(s, usize::MAX as nat) {
            Some(n) => n,
            None => 0,
        },
        None => 0,
    };
    (
        if asked <= LARGEST_PAGE {
            asked
        } else {
            LARGEST_PAGE as nat
        },
        from,
    )
}

/// The full listing of reports, contacts included, newest first; guarded where
/// an admin token is configured.
pub fn feedback_admin(
    store: &FeedbackStore,
    admin_token: &Option<String>,
    authorization: Option<&str>,
    limit: Option<&str>,
    offset: Option<&str>,
    now: &Timestamp,
) -> (r: Reply)
    ensures
        r.view() == (if is_admin(opt_string(*admin_token), opt_text(authorization)) {
            wire_reply(
                200,
                listing(
                    store.view(),
                    page(opt_text(limit), opt_text(offset)).0,
                    page(opt_text(limit), opt_text(offset)).1,
                ),
                now.text@,
            )
        } else {
            text_reply(
                401,
                "application/json"@,
                "{\"error\":\"unauthorized\"}"@,
                now.text@,
            )
        }),
{
    if !authorized(admin_token, authorization) {
        return Reply {
            status: 401,
            headers: stamped_headers("application/json", now.text.as_str()),
            body: Body::Text("{\"error\":\"unauthorized\"}".to_owned()),
        };
    }
    let asked: u64 = match limit {
        Some(s) => match parse_unsigned(s, usize::MAX as u64) {
            Some(n) => n,
            None => 100,
        },
        None => 100,
    };
    let from: u64 = match offset {
        Some(s) => match parse_unsigned(s, usize::MAX as u64) {
            Some(n) => n,
            None => 0,
        },
        None => 0,
    };
    let count: u64 = if asked <= LARGEST_PAGE {
        asked
    } else {
        LARGEST_PAGE
    };
    wire_stamped(200, store.list_json(count as usize, from as usize), now)
}

// ---------------------------------------------------------------------------
// The scan gate
// ---------------------------------------------------------------------------

/// The reply to an issuance: 201 with the token, 409 where the scan gate is
/// open, 429 where the source had its share.
pub open spec fn issuance_reply_view(
    issued: Result<(String, u64), String>,
    gate_is_on: bool,
    now: Text,
) -> ReplyView {
    match issued {
        Ok((token, ttl)) => compact_reply(
            201,
            JsonView::Object(
                map![
                    "token"@ => JsonView::Text(token@),
                    "ttl_secs"@ => JsonView::Unsigned(ttl),
                ],
            ),
            now,
        ),
        Err(reason) => if gate_is_on {
            compact_reply(429, error_document(reason@), now)
        } else {
            compact_reply(
                409,
                JsonView::Object(
                    map![
                        "error"@ => JsonView::Text(reason@),
                        "gate"@ => JsonView::Text("open"@),
                    ],
                ),
                now,
            )
        },
    }
}

/// The reply to an issuance.
pub fn issuance_reply(issued: &Result<(String, u64), String>, gate_is_on: bool, now: &Timestamp)
    -> (r: Reply)
    ensures
        r.view() == issuance_reply_view(*issued, gate_is_on, now.text@),
{
    match issued {
        Ok((token, ttl)) => {
            let mut members: Vec<(String, Json)> = Vec::new();
            put_text(&mut members, "token", token.as_str());
            put(&mut members, "ttl_secs", Json::Unsigned(*ttl));
            compact(201, &Json::Object(members), now.text.as_str())
        },
        Err(reason) => if gate_is_on {
            refusal(reason.as_str(), true, now.text.as_str())
        } else {
            let mut members: Vec<(String, Json)> = Vec::new();
            put_text(&mut members, "error", reason.as_str());
            put_text(&mut members, "gate", "open");
            compact(409, &Json::Object(members), now.text.as_str())
        },
    }
}

/// Issues a scan token to the source that the body names.
pub fn issue_scan_token(body: &str, gate: &mut ScanGate, now: &Timestamp) -> (r: Reply)
    ensures
        match read_json(body@) {
            Err(e) => *final(gate) == *old(gate) && r.view() == bad_request_reply(
                "invalid JSON body: "@ + e,
                now.text@,
            ),
            Ok(v) => final(gate).read_at() >= old(gate).read_at() && (exists|
                issued: Result<(String, u64), String>| #[trigger]
                issues_at(
                    old(gate).view(),
                    text_or(v.text_at("source"@), Seq::empty()),
                    final(gate).read_at(),
                    final(gate).view(),
                    issued,
                ) && r.view() == issuance_reply_view(
                    issued,
                    old(gate).view().policy.on(),
                    now.text@,
                )),
        },
{
    let v = match json_body(body, now) {
        Ok(v) => v,
        Err(reply) => {
            return reply;
        },
    };
    let gate_is_on: bool = gate.policy().is_on();
    let issued = gate.issue(text_or_empty(&v, "source"));
    issuance_reply(&issued, gate_is_on, now)
}

/// The scan gate in front of the render routes: nothing where the request is
/// admitted, otherwise the refusal.
pub fn guard(gate: &mut ScanGate, headers: &ScanHeaders, now: &Timestamp) -> (r: Option<Reply>)
    ensures
        final(gate).read_at() >= old(gate).read_at(),
        exists|admitted: Result<(), String>| #[trigger]
            admits_at(
                old(gate).view(),
                headers.presented(),
                final(gate).read_at(),
                final(gate).view(),
                admitted,
            ) && match admitted {
                Ok(_) => r is None,
                Err(reason) => r matches Some(reply) && reply.view() == refused_reply(
                    reason@,
                    now.text@,
                ),
            },
{
    match gate.admit_request(headers) {
        Ok(_) => None,
        Err(reason) => Some(refusal(reason.as_str(), false, now.text.as_str())),
    }
}

// ---------------------------------------------------------------------------
// Laws
// ---------------------------------------------------------------------------

/// Whether a reply is stamped with the instant.
pub open spec fn is_stamped(reply: ReplyView, now: Text) -> bool {
    reply.headers.contains(("x-as-of"@, now))
}

/// The stamp stands among the headers of every reply.
proof fn lemma_stamp(content_type: Text, now: Text)
    ensures
        typed_as_of(content_type, now).contains(("x-as-of"@, now)),
{
    assert(typed_as_of(content_type, now)[1] == ("x-as-of"@, now));
}

/// Every reply is as-of stamped in its header.
pub proof fn law_every_reply_is_stamped<S: CryptoSlot>(
    param: Option<Text>,
    found: Option<&GatewayPassport>,
    slots: Seq<S>,
    now: Timestamp,
    ingested: Result<IngestOutcome, String>,
    issued: Result<(String, u64), String>,
    gate_is_on: bool,
    status: u16,
    document: JsonView,
)
    ensures
        is_stamped(untp_reply(param, found, slots, now), now.text@),
        is_stamped(en18222_reply(param, found, now.text@), now.text@),
        is_stamped(ingest_reply_view(ingested, now.text@), now.text@),
        is_stamped(issuance_reply_view(issued, gate_is_on, now.text@), now.text@),
        is_stamped(stamped_reply(status, document, now.text@), now.text@),
        is_stamped(wire_reply(status, document, now.text@), now.text@),
        is_stamped(compact_reply(status, document, now.text@), now.text@),
        is_stamped(not_found_reply(now.text@), now.text@),
{
    lemma_stamp("application/json"@, now.text@);
}

/// A not-found reply tells nothing: whatever well-formed request came, on
/// either render route, a passport that is not there is answered by the same
/// reply, and at any instant by the same bytes.
pub proof fn law_not_found_tells_nothing<S: CryptoSlot>(
    freshness: Option<Text>,
    representation: Option<Text>,
    slots: Seq<S>,
    now: Timestamp,
)
    requires
        required_freshness(freshness) matches Some(f) ==> duration_ms(f) is Some,
        selected(representation) is Ok,
    ensures
        untp_reply(freshness, None, slots, now) == not_found_reply(now.text@),
        en18222_reply(representation, None, now.text@) == not_found_reply(now.text@),
        not_found_reply(now.text@).status == 404,
        not_found_reply(now.text@).body == BodyView::Text(NOT_FOUND_BODY@),
{
}

/// Both bindings serve one core state: a GTIN passport without lot and serial
/// is the same product in both, the UNTP form wrapping the key that the EN
/// 18222 form carries bare.
pub proof fn law_bindings_name_one_product(p: &GatewayPassport)
    requires
        p.document.product_id.gs1_keyed(),
        p.document.product_id.lot is None,
        p.document.product_id.serial is None,
    ensures
        untp_value(&p.document.product_id) == "(01)"@ + header_identifier(p),
{
    assert("(01)"@ + p.document.product_id.key@ + Seq::<char>::empty() + Seq::<char>::empty()
        =~= "(01)"@ + p.document.product_id.key@);
}

/// The EN 18222 wire is frozen: its body carries no `as_of` member in either
/// representation. A document that is stamped carries one.
pub proof fn law_stamp_stays_off_the_frozen_wire(
    p: &GatewayPassport,
    representation: Representation,
    m: Map<Text, JsonView>,
    as_of: Text,
)
    ensures
        body(p, representation).member("as_of"@) is None,
        with_stamp(JsonView::Object(m), as_of).text_at("as_of"@) == Some(as_of),
{
    law_field_sets(p);
    reveal_strlit("as_of");
    reveal_strlit("digitalProductPassportId");
    reveal_strlit("uniqueProductIdentifier");
    reveal_strlit("granularity");
    reveal_strlit("dppSchemaVersion");
    reveal_strlit("dppStatus");
    reveal_strlit("lastUpdated");
    reveal_strlit("economicOperatorId");
    reveal_strlit("facilityId");
    reveal_strlit("contentSpecificationIds");
    reveal_strlit("elements");
    reveal_strlit("c0ProductInformation");
    reveal_strlit("caStateSafety");
    reveal_strlit("cbConformityEvidence");
    reveal_strlit("cwDocuments");
    assert("as_of"@.len() == 5);
    assert("digitalProductPassportId"@.len() != 5 && "uniqueProductIdentifier"@.len() != 5);
    assert("granularity"@.len() != 5 && "dppSchemaVersion"@.len() != 5 && "dppStatus"@.len() != 5);
    assert("lastUpdated"@.len() != 5 && "economicOperatorId"@.len() != 5);
    assert("facilityId"@.len() != 5 && "contentSpecificationIds"@.len() != 5);
    assert("elements"@.len() != 5 && "c0ProductInformation"@.len() != 5);
    assert("caStateSafety"@.len() != 5 && "cbConformityEvidence"@.len() != 5);
    assert("cwDocuments"@.len() != 5);
    match body(p, representation) {
        JsonView::Object(fields) => {
            assert(fields.contains_key("as_of"@) == fields.dom().contains("as_of"@));
        },
        _ => {},
    }
}

/// Under a scan policy no render leaves without a token: a request that
/// presents none, or one that the scan gate does not hold, is a 401 that
/// states the policy. Without a policy every request has its answer.
pub proof fn law_no_render_without_a_token(
    before: GateView,
    presented: Option<Text>,
    at: u128,
    after: GateView,
    now: Text,
    answer: ReplyView,
    reply: ReplyView,
)
    requires
        is_gated(before, presented, at, after, now, answer, reply),
    ensures
        !before.policy.on() ==> reply == answer,
        before.policy.on() && presented is None ==> reply == refused_reply(
            absence_refusal(before.policy.token_ttl_secs),
            now,
        ),
        before.policy.on() && (presented matches Some(token) && !before.tokens.contains_key(token))
            ==> reply == refused_reply(unknown_refusal(before.policy.token_ttl_secs), now),
        refused_reply(absence_refusal(before.policy.token_ttl_secs), now).status == 401,
{
}

/// A report that is refused, by admission control or for what it says, is not
/// recorded, and its refusal states a reason; a recorded one is acknowledged
/// in the public form.
pub proof fn law_refused_reports_are_not_recorded(
    report: ReportView,
    admitted: Result<(), String>,
    before: Seq<RecordView>,
    now: Text,
    after: Seq<RecordView>,
    reply: ReplyView,
    recorded: Option<FeedbackRecord>,
)
    requires
        is_report_answer(report, admitted, before, now, after, reply, recorded),
    ensures
        admitted is Err || refusal_of(report) is Some ==> after == before && recorded is None && (
        reply.status == 429 || reply.status == 400),
        admitted is Ok && refusal_of(report) is None ==> after.len() == before.len() + 1
            && reply.status == 201 && (recorded matches Some(r) && r.view() == after.last()),
        is_stamped(reply, now),
{
    lemma_stamp("application/json"@, now);
}

/// The member names of a rendered triad, told apart.
proof fn lemma_triad_names()
    ensures
        "rendering"@.len() == 9,
        "passport"@.len() == 8,
        "conformity"@.len() == 10,
        "link"@.len() == 4 && "link"@[0] == 'l',
        "stub"@.len() == 4 && "stub"@[0] == 's',
        "verdict"@.len() == 7,
        "as_of"@.len() == 5,
        "productIdentifiers"@.len() == 18,
        "credentialSubject"@.len() == 17,
        "@context"@.len() == 8,
        "type"@.len() == 4 && "type"@[0] == 't',
        "id"@.len() == 2,
        "issuer"@.len() == 6,
        "validFrom"@.len() == 9,
        "assessmentLevel"@.len() == 15,
        "criteria"@.len() == 8,
        "standard"@.len() == 8,
        "version"@.len() == 7,
        "scheme"@.len() == 6,
        "value"@.len() == 5,
        "passportIssuer"@.len() == 14,
        "standardsConformance"@.len() == 20,
        "validUntil"@.len() == 10,
{
    reveal_strlit("rendering");
    reveal_strlit("passport");
    reveal_strlit("conformity");
    reveal_strlit("link");
    reveal_strlit("stub");
    reveal_strlit("verdict");
    reveal_strlit("as_of");
    reveal_strlit("productIdentifiers");
    reveal_strlit("credentialSubject");
    reveal_strlit("@context");
    reveal_strlit("type");
    reveal_strlit("id");
    reveal_strlit("issuer");
    reveal_strlit("validFrom");
    reveal_strlit("assessmentLevel");
    reveal_strlit("criteria");
    reveal_strlit("standard");
    reveal_strlit("version");
    reveal_strlit("scheme");
    reveal_strlit("value");
    reveal_strlit("passportIssuer");
    reveal_strlit("standardsConformance");
    reveal_strlit("validUntil");
}

/// Render and ingest are inverse projections. The served triad ingests: its
/// passport credential is what is imported, the identifier that is imported is
/// the rendered one, and reads back to the subject's own display form (for a
/// GTIN whose parts hold no parenthesis, and for an ISO/IEC 15459 identity that
/// is not itself in the parenthesized form). Every profile with an id that is
/// not blank lands as a profile binding.
pub proof fn law_render_then_ingest(
    p: &GatewayPassport,
    now: Timestamp,
    verdict: JsonView,
    bound: Seq<ProfileRef>,
    dates: Seq<Option<Timestamp>>,
)
    requires
        untp_value(&p.document.product_id).len() > 0,
        p.document.product_id.gs1_keyed() || p.document.product_id.scheme is Cpid,
        p.document.product_id.gs1_keyed() ==> has_plain_parts(&p.document.product_id)
            && p.document.product_id.display@ == gs1_display(&p.document.product_id),
        p.document.product_id.scheme is Cpid ==> !starts_with(
            p.document.product_id.display@,
            "(01)"@,
        ),
        are_bindings(
            bound,
            body_conformity(with_stamp(triad(p, &now, verdict), now.text@)),
            dates,
        ),
    ensures
        ({
            let served = with_stamp(triad(p, &now, verdict), now.text@);
            &&& body_stub(served) == Ok::<JsonView, Text>(passport_credential(p))
            &&& first_identifier(passport_credential(p)) matches Ok(id) && id.value == untp_value(
                &p.document.product_id,
            ) && id.display == p.document.product_id.display@ && id.additional == 0
            &&& forall|i: int|
                0 <= i < p.profiles@.len() && !is_blank((#[trigger] p.profiles@[i]).id@)
                    ==> exists|j: int|
                    0 <= j < bound.len() && (#[trigger] bound[j]).id@ == trimmed(
                        p.profiles@[i].id@,
                    ) && bound[j].version@ == trimmed(p.profiles@[i].version@)
        }),
{
    lemma_triad_names();
    let served = with_stamp(triad(p, &now, verdict), now.text@);
    let stub = passport_credential(p);
    assert(served.member("stub"@) is None);
    assert(served.member("productIdentifiers"@) is None);
    assert(served.member("passport"@) == Some(stub));
    let credentials = body_conformity(served);
    assert(credentials == conformity_credentials(p));

    let uri = uri_of_scheme(p.document.product_id.scheme);
    reveal_strlit("https://gs1.org/voc/");
    reveal_strlit("https://unidpp.org/id/");
    assert(uri.len() > 0);
    let ids = stub.items_at("productIdentifiers"@).unwrap();
    assert(ids.len() == 1);
    assert(ids[0].text_at("value"@) == Some(untp_value(&p.document.product_id)));
    assert(ids[0].text_at("scheme"@) == Some(uri));
    law_rendered_identity(p);
    law_rendered_identity_reads_back(p);

    assert forall|i: int|
        0 <= i < p.profiles@.len() && !is_blank((#[trigger] p.profiles@[i]).id@) implies exists|
        j: int,
    |
        0 <= j < bound.len() && (#[trigger] bound[j]).id@ == trimmed(p.profiles@[i].id@)
            && bound[j].version@ == trimmed(p.profiles@[i].version@) by {
        let profile = p.profiles@[i];
        let credential = profile_credential(&p.document, profile);
        assert(credentials[i] == credential);
        let subject = credential.member("credentialSubject"@).unwrap();
        let named = subject.member("conformity"@).unwrap();
        assert(named == claim(profile.id@, profile.version@));
        assert(named.text_at("standard"@) == Some(profile.id@));
        assert(named.text_at("version"@) == Some(profile.version@));
        assert(named_standard(credentials[i]) == Some(trimmed(profile.id@)));
        law_named_standards_are_bound(bound, credentials, dates, i);
        let j = choose|j: int|
            0 <= j < bound.len() && binds(#[trigger] bound[j], credentials[i], dates[i]);
        assert(bound[j].id@ == trimmed(profile.id@));
    }
}

/// What a consumer states is what is recorded: for every admitted request body
/// that states an identifier and details, not blank and not too long, the record
/// carries the texts of the body's `identifier` and `details`, the category that
/// its `category` names and its `contact`, where that is not blank, and the
/// receipt is that record in the public form. A body whose identifier or details
/// are absent or blank, or whose details are too long, is refused whatever else
/// it says.
pub proof fn law_reports_say_what_was_stated(
    v: JsonView,
    admitted: Result<(), String>,
    before: Seq<RecordView>,
    now: Text,
    after: Seq<RecordView>,
    reply: ReplyView,
    recorded: Option<FeedbackRecord>,
)
    requires
        is_report_answer(stated_report(v), admitted, before, now, after, reply, recorded),
    ensures
        ({
            let said = |s: Option<Text>| s matches Some(t) && !is_blank(t);
            let accepted = admitted is Ok && said(v.text_at("identifier"@)) && said(
                v.text_at("details"@),
            ) && v.text_at("details"@).unwrap().len() <= 500;
            &&& !accepted ==> after == before && recorded is None && reply.status != 201
            &&& admitted is Ok && !accepted ==> reply.status == 400
            &&& admitted matches Err(reason) ==> reply.status == 429
            &&& accepted ==> reply.status == 201 && after.len() == before.len() + 1
                && after.drop_last() == before && ({
                let record = after.last();
                &&& record.seq == after.len()
                &&& record.recorded_at == now
                &&& v.text_at("identifier"@) == Some(record.report.identifier)
                &&& v.text_at("details"@) == Some(record.report.details)
                &&& record.report.category == CategoryView::named(
                    match v.text_at("category"@) {
                        Some(category) => category,
                        None => Seq::empty(),
                    },
                )
                &&& record.report.contact == (if said(v.text_at("contact"@)) {
                    v.text_at("contact"@)
                } else {
                    None
                })
                &&& recorded matches Some(r) && r.view() == record
                &&& reply.body == BodyView::Text(compact_json(record.dict(false)))
            })
        }),
{
    lemma_blank_empty();
    assert(before.push(after.last()).drop_last() =~= before);
}

/// An empty text is blank.
proof fn lemma_blank_empty()
    ensures
        is_blank(Seq::empty()),
{
}

/// Two bodies that agree on identifier, category, contact and details state one
/// report, whatever else they say.
pub proof fn law_reports_go_by_their_four_members(a: JsonView, b: JsonView)
    requires
        a.text_at("identifier"@) == b.text_at("identifier"@),
        a.text_at("category"@) == b.text_at("category"@),
        a.text_at("contact"@) == b.text_at("contact"@),
        a.text_at("details"@) == b.text_at("details"@),
    ensures
        stated_report(a) == stated_report(b),
{
}

/// A refused report is answered with the reason: that of admission control,
/// marked as refused, or what the report leaves unsaid.
pub proof fn law_refusals_state_their_reason(
    report: ReportView,
    admitted: Result<(), String>,
    before: Seq<RecordView>,
    now: Text,
    after: Seq<RecordView>,
    reply: ReplyView,
    recorded: Option<FeedbackRecord>,
)
    requires
        is_report_answer(report, admitted, before, now, after, reply, recorded),
    ensures
        admitted matches Err(reason) ==> reply.body == BodyView::Text(
            compact_json(
                JsonView::Object(
                    map!["error"@ => JsonView::Text(reason@), "refused"@ => JsonView::Bool(true)],
                ),
            ),
        ),
        admitted is Ok ==> (refusal_of(report) matches Some(reason) ==> (
        reply.body matches BodyView::Document(d) && d.text_at("error"@) == Some(reason)
            && d.text_at("as_of"@) == Some(now))),
{
    reveal_strlit("error");
    reveal_strlit("as_of");
    assert("error"@[0] == 'e' && "as_of"@[0] == 'a');
}

/// The citation of a report is its public form, and a number that cites none is
/// not found.
pub proof fn law_citations_are_public(store: &FeedbackStore, seq: u64, now: &Timestamp, r: Reply)
    requires
        call_ensures(feedback_citation, (store, seq, now), r),
    ensures
        1 <= seq <= store.records@.len() ==> r.status == 200 && (r.view().body matches BodyView::Document(
            d,
        ) && {
            let record = store.records@[seq - 1];
            &&& d.member("seq"@) == Some(JsonView::Unsigned(record.seq))
            &&& d.text_at("identifier"@) == Some(record.report.identifier@)
            &&& d.text_at("details"@) == Some(record.report.details@)
            &&& d.text_at("recorded_at"@) == Some(record.recorded_at@)
            &&& d.text_at("contact"@) == Some("withheld"@)
        }),
        !(1 <= seq <= store.records@.len()) ==> r.status == 404 && r.view() == not_found_reply(
            now.text@,
        ),
        is_stamped(r.view(), now.text@),
{
    lemma_stamp("application/json"@, now.text@);
    if 1 <= seq <= store.records@.len() {
        let record = store.view()[seq - 1];
        assert(record == store.records@[seq - 1].view());
        law_record_wire_form(record, false);
    }
    assert(r.view().status == r.status);
}

/// The listing is for the admin: where a token is configured, a request without
/// that token as its bearer authorization is unauthorized and sees no record;
/// any other request has the page that it asks for, a hundred records from the
/// newest on where it does not say, and never more than ten thousand.
pub proof fn law_listing_is_guarded(
    store: &FeedbackStore,
    admin_token: &Option<String>,
    authorization: Option<&str>,
    limit: Option<&str>,
    offset: Option<&str>,
    now: &Timestamp,
    r: Reply,
)
    requires
        call_ensures(feedback_admin, (store, admin_token, authorization, limit, offset, now), r),
    ensures
        ({
            let allowed = admin_token matches Some(token) ==> (authorization matches Some(value)
                && value@ == "Bearer "@ + token@);
            let asked = match limit {
                Some(s) => match unsigned_number(s@, usize::MAX as nat) {
                    Some(n) => n,
                    None => 100,
                },
                None => 100,
            };
            let from = match offset {
                Some(s) => match unsigned_number(s@, usize::MAX as nat) {
                    Some(n) => n,
                    None => 0,
                },
                None => 0,
            };
            &&& !allowed ==> r.status == 401 && r.view().body == BodyView::Text(
                "{\"error\":\"unauthorized\"}"@,
            )
            &&& allowed ==> r.status == 200 && r.view().body == BodyView::Document(
                listing(
                    store.view(),
                    if asked <= 10_000 {
                        asked
                    } else {
                        10_000
                    },
                    from,
                ),
            )
            &&& is_stamped(r.view(), now.text@)
        }),
{
    lemma_stamp("application/json"@, now.text@);
    assert(r.view().status == r.status);
}

/// An id resolves to the first source that knows it: the fixture that the lookup
/// found, else what the issuer served where it was asked, else what was ingested
/// under that id.
pub proof fn law_sources_in_order<'a>(
    lookup: Lookup<'a>,
    issued: Option<&'a GatewayPassport>,
    ingested: &'a IngestStore,
    id: &str,
    r: Option<&'a GatewayPassport>,
)
    requires
        call_ensures(resolve_any, (lookup, issued, ingested, id), r),
    ensures
        lookup matches Lookup::Found(p) ==> r == Some(p),
        lookup is Issuer && issued is Some ==> r == issued,
        lookup is Missing || (lookup is Issuer && issued is None) ==> is_resolution(
            ingested.entries@,
            id@,
            r,
        ),
{
}

/// The UNTP route serves what was found, stamped: the triad of the passport with
/// the verdict that the required freshness leads to, or the no-information 404.
pub proof fn law_triads_are_served<S: CryptoSlot>(
    required: Option<&str>,
    found: Option<&GatewayPassport>,
    slots: &CryptoSlots<S>,
    now: &Timestamp,
    r: Reply,
)
    requires
        call_ensures(untp_found::<S>, (required, found, slots, now), r),
    ensures
        found is None ==> r.status == 404 && r.view().body == BodyView::Text(
            "{\"error\":\"not found\"}"@,
        ),
        found matches Some(p) ==> r.status == 200 && (r.view().body matches BodyView::Document(d) && {
            let verdict = verdict_on(
                &p.document,
                VerifyView {
                    anchors: p.anchors.view(),
                    slots: slots.slots@,
                    reading: "current-state"@,
                    tainted: Seq::empty(),
                    required_freshness: match required {
                        Some(s) => Some(s@),
                        None => None,
                    },
                    minimum_marker: "unsigned"@,
                    now: *now,
                },
            );
            &&& d.text_at("as_of"@) == Some(now.text@)
            &&& d.member("verdict"@) == Some(verdict.dict())
            &&& d.member("passport"@) == triad(p, now, verdict.dict()).member("passport"@)
            &&& d.member("conformity"@) == triad(p, now, verdict.dict()).member("conformity"@)
            &&& d.member("link"@) == triad(p, now, verdict.dict()).member("link"@)
            &&& d.member("rendering"@) == triad(p, now, verdict.dict()).member("rendering"@)
        }),
        is_stamped(r.view(), now.text@),
{
    lemma_stamp("application/json"@, now.text@);
    lemma_triad_names();
    assert(r.view().status == r.status);
}

/// The EN 18222 route serves what was found in the asked form, with nothing
/// added to it, or the no-information 404.
pub proof fn law_en_renders_are_served(
    representation: Representation,
    found: Option<&GatewayPassport>,
    now: &Timestamp,
    r: Reply,
)
    requires
        call_ensures(en18222_found, (representation, found, now), r),
    ensures
        found is None ==> r.status == 404 && r.view().body == BodyView::Text(
            "{\"error\":\"not found\"}"@,
        ),
        found matches Some(p) ==> r.status == 200 && r.view().body == BodyView::Document(
            body(p, representation),
        ),
        is_stamped(r.view(), now.text@),
{
    lemma_stamp("application/json"@, now.text@);
    assert(r.view().status == r.status);
}

/// An admitted request is answered by what it asks: a `freshness` that is
/// neither blank nor a duration, and a `representation` that is unknown, are bad
/// requests, whatever was found; a well-formed request is answered by what was
/// found.
pub proof fn law_requests_are_read_first<S: CryptoSlot>(
    freshness: Option<Text>,
    representation: Option<Text>,
    found: Option<&GatewayPassport>,
    slots: Seq<S>,
    now: Timestamp,
)
    ensures
        freshness matches Some(s) && !is_blank(s) && duration_ms(trimmed(s)) is None ==> untp_reply(
            freshness,
            found,
            slots,
            now,
        ).status == 400,
        !(freshness matches Some(s) && !is_blank(s)) ==> untp_reply(freshness, found, slots, now)
            == untp_found_reply(None, found, slots, now),
        freshness matches Some(s) && !is_blank(s) && duration_ms(trimmed(s)) is Some ==> untp_reply(
            freshness,
            found,
            slots,
            now,
        ) == untp_found_reply(Some(trimmed(freshness.unwrap())), found, slots, now),
        freshness matches Some(s) && !is_blank(s) && duration_ms(trimmed(s)) is None ==> (untp_reply(
            freshness,
            found,
            slots,
            now,
        ).body matches BodyView::Document(d) && d.text_at("error"@) == Some(
            "`freshness` must be an ISO 8601 duration (PnDTnHnMnS)"@,
        )),
        selected(representation) is Err ==> en18222_reply(representation, found, now.text@).status
            == 400 && (en18222_reply(representation, found, now.text@).body matches BodyView::Document(
            d,
        ) && d.text_at("error"@) == Some(selected(representation)->Err_0)),
        selected(representation) matches Ok(form) ==> en18222_reply(
            representation,
            found,
            now.text@,
        ) == en18222_found_reply(form, found, now.text@),
{
    reveal_strlit("error");
    reveal_strlit("as_of");
    assert("error"@[0] == 'e' && "as_of"@[0] == 'a');
}

/// The member names of an ingest reply, told apart.
proof fn lemma_ingest_names()
    ensures
        "status"@.len() == 6,
        "passport_id"@.len() == 11 && "passport_id"@[0] == 'p',
        "identity"@.len() == 8 && "identity"@[0] == 'i',
        "granularity"@.len() == 11 && "granularity"@[0] == 'g',
        "profiles"@.len() == 8 && "profiles"@[0] == 'p',
        "receipt"@.len() == 7,
        "reason"@.len() == 6 && "reason"@[0] == 'r' && "status"@[0] == 's',
        "as_of"@.len() == 5,
        "id"@.len() == 2,
        "version"@.len() == 7,
        "effective_from"@.len() == 14,
{
    reveal_strlit("status");
    reveal_strlit("passport_id");
    reveal_strlit("identity");
    reveal_strlit("granularity");
    reveal_strlit("profiles");
    reveal_strlit("receipt");
    reveal_strlit("reason");
    reveal_strlit("as_of");
    reveal_strlit("id");
    reveal_strlit("version");
    reveal_strlit("effective_from");
}

/// The reply to an ingest says what became of it: 201 for an import and 200 for
/// a match, with the passport's id, identity and granularity, its bindings in
/// their order and the receipt; 422 with the reason where nothing was ingested.
pub proof fn law_ingests_are_answered(r: Result<IngestOutcome, String>, now: &Timestamp, reply: Reply, i: int)
    requires
        call_ensures(ingest_reply, (&r, now), reply),
    ensures
        is_stamped(reply.view(), now.text@),
        r matches Err(reason) ==> reply.status == 422 && (reply.view().body matches BodyView::Document(
            d,
        ) && d.text_at("reason"@) == Some(reason@) && d.text_at("status"@) == Some("degraded"@)
            && d.text_at("as_of"@) == Some(now.text@)),
        r matches Ok(outcome) ==> reply.status == (if outcome.status is Imported {
            201int
        } else {
            200int
        }) && (reply.view().body matches BodyView::Document(d) && {
            let document = outcome.passport.document;
            &&& d.text_at("as_of"@) == Some(now.text@)
            &&& d.text_at("status"@) == Some(
                if outcome.status is Imported {
                    "imported"@
                } else {
                    "matched"@
                },
            )
            &&& d.text_at("passport_id"@) == Some(document.passport_id@)
            &&& d.text_at("identity"@) == Some(document.product_id.display@)
            &&& d.text_at("granularity"@) == Some(document.product_id.granularity.token())
            &&& d.member("receipt"@) == Some(outcome.receipt.view())
            &&& d.items_at("profiles"@) matches Some(profiles) && profiles.len()
                == outcome.profiles@.len() && (0 <= i < profiles.len() ==> {
                let profile = outcome.profiles@[i];
                &&& profiles[i].text_at("id"@) == Some(profile.id@)
                &&& profiles[i].text_at("version"@) == Some(profile.version@)
                &&& profiles[i].text_at("effective_from"@) == (match profile.effective_from {
                    Some(t) => Some(t.text@),
                    None => None,
                })
            })
        }),
{
    lemma_stamp("application/json"@, now.text@);
    lemma_ingest_names();
    assert(reply.view().status == reply.status);
    if let Ok(outcome) = r {
        let d = reply.view().body->Document_0;
        let profiles = d.items_at("profiles"@).unwrap();
        if 0 <= i < outcome.profiles@.len() {
            assert(profiles[i] == binding_document(outcome.profiles@[i]));
        }
    }
}

/// The reply to an issuance hands over the token and its lifetime with 201;
/// without a policy it is 409 and says that the scan gate is open, and over the limit
/// 429, both with the reason.
pub proof fn law_issuances_are_answered(
    issued: Result<(String, u64), String>,
    gate_is_on: bool,
    now: &Timestamp,
    r: Reply,
)
    requires
        call_ensures(issuance_reply, (&issued, gate_is_on, now), r),
    ensures
        is_stamped(r.view(), now.text@),
        issued matches Ok(t) ==> r.status == 201 && (exists|d: JsonView|
            r.view().body == BodyView::Text(#[trigger] compact_json(d)) && d.text_at("token"@)
                == Some(t.0@) && d.member("ttl_secs"@) == Some(JsonView::Unsigned(t.1))),
        issued matches Err(reason) ==> r.status == (if gate_is_on {
            429int
        } else {
            409int
        }) && (exists|d: JsonView|
            r.view().body == BodyView::Text(#[trigger] compact_json(d)) && d.text_at("error"@)
                == Some(reason@) && (d.text_at("gate"@) == Some("open"@) <==> !gate_is_on)),
{
    lemma_stamp("application/json"@, now.text@);
    reveal_strlit("token");
    reveal_strlit("ttl_secs");
    reveal_strlit("error");
    reveal_strlit("gate");
    assert("token"@.len() == 5 && "ttl_secs"@.len() == 8 && "gate"@.len() == 4 && "error"@.len() == 5);
    assert(r.view().status == r.status);
    match issued {
        Ok(t) => {
            let d = JsonView::Object(
                map!["token"@ => JsonView::Text(t.0@), "ttl_secs"@ => JsonView::Unsigned(t.1)],
            );
            assert(d.text_at("token"@) == Some(t.0@));
            assert(r.view().body == BodyView::Text(compact_json(d)));
        },
        Err(reason) => {
            let plain = error_document(reason@);
            let open = JsonView::Object(
                map![
                    "error"@ => JsonView::Text(reason@),
                    "gate"@ => JsonView::Text("open"@),
                ],
            );
            if gate_is_on {
                assert(plain.text_at("error"@) == Some(reason@));
                assert(plain.member("gate"@) is None);
                assert(r.view().body == BodyView::Text(compact_json(plain)));
            } else {
                assert(open.text_at("error"@) == Some(reason@));
                assert(open.text_at("gate"@) == Some("open"@));
                assert(r.view().body == BodyView::Text(compact_json(open)));
            }
        },
    }
}

/// What the environment configures: each setting from its own variable, white
/// space around a number ignored; a blank text, a number that is none and a
/// listen address that is none count as absent, the last two with a complaint
/// that names the variable and quotes the value. The issuer comes from its own
/// variable before the gateway's. The scan gate is open.
pub proof fn law_environment_configures(env: &Environment, bind_is_address: bool, r: (Config, Vec<String>))
    requires
        call_ensures(Config::from_env, (env, bind_is_address), r),
    ensures
        ({
            let c = r.0;
            let said = |s: Option<String>| s matches Some(t) && !is_blank(t@);
            let number = |s: Option<String>, max: nat|
                match s {
                    Some(t) => unsigned_number(trimmed(t@), max),
                    None => None,
                };
            let bad_bind = env.bind is Some && !bind_is_address;
            let bad_rate = env.feedback_rate is Some && number(
                env.feedback_rate,
                usize::MAX as nat,
            ) is None;
            let bad_timeout = env.timeout_ms is Some && number(
                env.timeout_ms,
                u64::MAX as nat,
            ) is None;
            let one = |b: bool|
                if b {
                    1int
                } else {
                    0int
                };
            &&& c.bind@ == (if env.bind is Some && bind_is_address {
                env.bind.unwrap()@
            } else {
                "127.0.0.1:8094"@
            })
            &&& opt_string(c.issuer_url) == (if said(env.issuer_url) {
                Some(env.issuer_url.unwrap()@)
            } else if said(env.gateway_issuer_url) {
                Some(env.gateway_issuer_url.unwrap()@)
            } else {
                None
            })
            &&& opt_string(c.feedback_journal) == (if said(env.feedback_journal) {
                Some(env.feedback_journal.unwrap()@)
            } else {
                None
            })
            &&& opt_string(c.admin_token) == (if said(env.admin_token) {
                Some(env.admin_token.unwrap()@)
            } else {
                None
            })
            &&& c.feedback_rate_per_minute == (match number(env.feedback_rate, usize::MAX as nat) {
                Some(n) => n,
                None => 0,
            })
            &&& c.timeout_ms == (match number(env.timeout_ms, u64::MAX as nat) {
                Some(n) => n,
                None => 2000,
            })
            &&& c.scan_ttl_secs == 0
            &&& c.scan_limit_per_minute == 0
            &&& r.1@.len() == one(bad_bind) + one(bad_rate) + one(bad_timeout)
            &&& bad_bind ==> r.1@[0]@ == "unidpp-gateway: ignoring bad "@ + "UNIDPP_GATEWAY_BIND"@
                + " `"@ + env.bind.unwrap()@ + "`"@
            &&& bad_rate ==> r.1@[one(bad_bind)]@ == "unidpp-gateway: ignoring bad "@
                + "UNIDPP_GATEWAY_FEEDBACK_RATE"@ + " `"@ + env.feedback_rate.unwrap()@ + "`"@
            &&& bad_timeout ==> r.1@.last()@ == "unidpp-gateway: ignoring bad "@
                + "UNIDPP_GATEWAY_TIMEOUT_MS"@ + " `"@ + env.timeout_ms.unwrap()@ + "`"@
        }),
{
    let c = r.0.view();
    assert(c.bind == r.0.bind@ && c.issuer_url == opt_string(r.0.issuer_url));
    assert(c.timeout_ms == r.0.timeout_ms);
    let all = strings(r.1@);
    assert(all.len() == r.1@.len());
    assert(forall|i: int| 0 <= i < all.len() ==> #[trigger] all[i] == r.1@[i]@);
    let a = bind_complaint(env.bind, bind_is_address);
    let b = number_complaint(
        env.feedback_rate,
        usize::MAX as nat,
        "UNIDPP_GATEWAY_FEEDBACK_RATE"@,
    );
    let d = number_complaint(env.timeout_ms, u64::MAX as nat, "UNIDPP_GATEWAY_TIMEOUT_MS"@);
    assert(all == a + b + d);
    if a.len() > 0 {
        assert(all[0] == a[0]);
    }
    if b.len() > 0 {
        assert(all[a.len() as int] == b[0]);
    }
    if d.len() > 0 {
        assert(all.last() == d[0]);
    }
}

/// A live service says so in plain text; a body that is no document is a bad
/// request that quotes the reader's complaint.
pub proof fn law_plain_replies(
    now: &Timestamp,
    alive: Reply,
    missing: Reply,
    body: &str,
    read: Result<Json, Reply>,
)
    requires
        call_ensures(healthz, (now,), alive),
        call_ensures(not_found, (now,), missing),
        call_ensures(json_body, (body, now), read),
    ensures
        alive.status == 200,
        alive.view().body == BodyView::Text("ok"@),
        alive.view().headers.contains(("content-type"@, "text/plain"@)),
        is_stamped(alive.view(), now.text@),
        missing.status == 404,
        missing.view().body == BodyView::Text("{\"error\":\"not found\"}"@),
        is_stamped(missing.view(), now.text@),
        read is Ok <==> read_json(body@) is Ok,
        read matches Ok(j) ==> read_json(body@) == Ok::<JsonView, Text>(j.view()),
        read matches Err(reply) ==> reply.status == 400 && is_stamped(reply.view(), now.text@) && (
        reply.view().body matches BodyView::Document(d) && (read_json(body@) matches Err(e)
            && d.text_at("error"@) == Some("invalid JSON body: "@ + e))),
{
    lemma_stamp("text/plain"@, now.text@);
    lemma_stamp("application/json"@, now.text@);
    reveal_strlit("error");
    reveal_strlit("as_of");
    assert("error"@[0] == 'e' && "as_of"@[0] == 'a');
    assert(alive.view().status == alive.status);
    assert(missing.view().status == missing.status);
    assert(alive.view().headers[0] == ("content-type"@, "text/plain"@));
    if let Err(reply) = read {
        assert(reply.view().status == reply.status);
    }
}

/// Filing a report, in one call: the control is asked about the report that the
/// body states, and about nothing else, and what it answers decides. A body that
/// is no document is a bad request that nobody is asked about.
pub proof fn law_filings<A: AdmissionControl>(
    body: &str,
    admission: &mut A,
    store: &mut FeedbackStore,
    now: &Timestamp,
    r: (Reply, Option<FeedbackRecord>),
)
    requires
        call_ensures(submit_feedback::<A>, (body, admission, store, now), r),
    ensures
        read_json(body@) is Err ==> r.0.status == 400 && r.1 is None && *final(store) == *old(store)
            && *final(admission) == *old(admission),
        read_json(body@) matches Ok(v) ==> {
            let contact = v.text_at("contact"@);
            exists|report: ReportView, admitted: Result<(), String>|
                {
                    &&& #[trigger] A::answers(*old(admission), report, *final(admission), admitted)
                    &&& report.identifier == text_or(v.text_at("identifier"@), Seq::empty())
                    &&& report.details == text_or(v.text_at("details"@), Seq::empty())
                    &&& report.category == CategoryView::named(
                        text_or(v.text_at("category"@), Seq::empty()),
                    )
                    &&& report.contact == (if contact matches Some(c) && !is_blank(c) {
                        contact
                    } else {
                        None
                    })
                    &&& admitted is Err ==> r.0.status == 429 && r.1 is None
                        && final(store).view() == old(store).view()
                    &&& admitted is Ok && refusal_of(report) is Some ==> r.0.status == 400
                        && r.1 is None && final(store).view() == old(store).view()
                    &&& admitted is Ok && refusal_of(report) is None ==> r.0.status == 201 && (
                    r.1 matches Some(record) && record.view().report == report
                        && record.recorded_at@ == now.text@ && record.seq
                        == final(store).view().len() && final(store).view() == old(
                        store,
                    ).view().push(record.view()))
                }
        },
{
    assert(r.0.view().status == r.0.status);
    if let Ok(v) = read_json(body@) {
        let report = stated_report(v);
        let admitted = choose|admitted: Result<(), String>|
            A::answers(*old(admission), stated_report(v), *final(admission), admitted)
                && #[trigger] is_report_answer(
                stated_report(v),
                admitted,
                old(store).view(),
                now.text@,
                final(store).view(),
                r.0.view(),
                r.1,
            );
        assert(A::answers(*old(admission), report, *final(admission), admitted));
    }
}

/// Issuing a scan token, in one call: the token goes to the source that the body
/// names, at the instant that the clock of the scan gate then reads, and the
/// reply is that of what was issued.
pub proof fn law_token_calls(body: &str, gate: &mut ScanGate, now: &Timestamp, r: Reply)
    requires
        call_ensures(issue_scan_token, (body, gate, now), r),
    ensures
        read_json(body@) is Err ==> r.status == 400 && *final(gate) == *old(gate),
        read_json(body@) matches Ok(v) ==> {
            let before = old(gate).view();
            let source = match v.text_at("source"@) {
                Some(source) => source,
                None => Seq::empty(),
            };
            let limit = before.policy.issue_limit_per_minute;
            let used = live(before.windows.window(source), final(gate).read_at()).len();
            &&& before.policy.token_ttl_secs == 0 ==> r.status == 409
            &&& before.policy.token_ttl_secs > 0 && limit > 0 && used >= limit ==> r.status == 429
            &&& before.policy.token_ttl_secs > 0 && (limit == 0 || used < limit) ==> r.status == 201
            &&& r.status == 201 ==> final(gate).view().windows.window(source) == live(
                before.windows.window(source),
                final(gate).read_at(),
            ).push(final(gate).read_at())
            &&& r.status != 201 ==> final(gate).view().tokens == before.tokens
        },
        is_stamped(r.view(), now.text@),
{
    lemma_stamp("application/json"@, now.text@);
    assert(r.view().status == r.status);
}

/// Whether the scan gate admits what is presented at an instant.
pub open spec fn is_admitted_at(gate: GateView, presented: Option<Text>, at: u128) -> bool {
    gate.policy.token_ttl_secs == 0 || (presented matches Some(token) && gate.tokens.contains_key(
        token,
    ) && at < gate.tokens[token])
}

/// Asking for a triad, in one call: a request that the scan gate does not admit
/// is a 401; of an admitted one a `freshness` that is neither blank nor a
/// duration is a 400, a passport that was not found a 404, and any other is
/// answered with the triad of that passport, its verdict under the asked
/// freshness.
pub proof fn law_untp_calls<S: CryptoSlot>(
    gate: &mut ScanGate,
    headers: &ScanHeaders,
    param: Option<&str>,
    found: Option<&GatewayPassport>,
    slots: &CryptoSlots<S>,
    now: &Timestamp,
    r: Reply,
)
    requires
        call_ensures(untp_product::<S>, (gate, headers, param, found, slots, now), r),
    ensures
        ({
            let admitted = is_admitted_at(
                old(gate).view(),
                headers.presented(),
                final(gate).read_at(),
            );
            let asked = match param {
                Some(s) => if is_blank(s@) {
                    None
                } else {
                    Some(trimmed(s@))
                },
                None => None,
            };
            let bad = asked matches Some(s) && duration_ms(s) is None;
            &&& !admitted ==> r.status == 401
            &&& admitted && bad ==> r.status == 400
            &&& admitted && !bad && found is None ==> r.status == 404
            &&& admitted && !bad ==> (found matches Some(p) ==> r.status == 200 && (
            r.view().body matches BodyView::Document(d) && ({
                let verdict = verdict_on(
                    &p.document,
                    VerifyView {
                        anchors: p.anchors.view(),
                        slots: slots.slots@,
                        reading: "current-state"@,
                        tainted: Seq::empty(),
                        required_freshness: asked,
                        minimum_marker: "unsigned"@,
                        now: *now,
                    },
                ).dict();
                &&& d.member("verdict"@) == Some(verdict)
                &&& d.member("passport"@) == triad(p, now, verdict).member("passport"@)
                &&& d.member("conformity"@) == triad(p, now, verdict).member("conformity"@)
                &&& d.member("link"@) == triad(p, now, verdict).member("link"@)
                &&& d.text_at("as_of"@) == Some(now.text@)
            })))
        }),
        final(gate).read_at() >= old(gate).read_at(),
{
    lemma_triad_names();
    assert(r.view().status == r.status);
}

/// Asking for an EN 18222 render, in one call: a request that the scan gate does
/// not admit is a 401; of an admitted one an unknown `representation` is a 400, a
/// passport that was not found a 404, and any other is answered with the render
/// of that passport in the asked form.
pub proof fn law_en18222_calls(
    gate: &mut ScanGate,
    headers: &ScanHeaders,
    param: Option<&str>,
    found: Option<&GatewayPassport>,
    now: &Timestamp,
    r: Reply,
)
    requires
        call_ensures(en18222_dpps, (gate, headers, param, found, now), r),
    ensures
        ({
            let admitted = is_admitted_at(
                old(gate).view(),
                headers.presented(),
                final(gate).read_at(),
            );
            let name = match param {
                Some(s) => trimmed(s@),
                None => Seq::empty(),
            };
            let full = name == "full"@;
            let bad = name.len() > 0 && name != "full"@ && name != "compressed"@;
            &&& !admitted ==> r.status == 401
            &&& admitted && bad ==> r.status == 400
            &&& admitted && !bad && found is None ==> r.status == 404
            &&& admitted && !bad ==> (found matches Some(p) ==> r.status == 200 && r.view().body
                == BodyView::Document(
                body(
                    p,
                    if full {
                        Representation::Full
                    } else {
                        Representation::Compressed
                    },
                ),
            ))
        }),
        final(gate).read_at() >= old(gate).read_at(),
{
    reveal_strlit("full");
    reveal_strlit("compressed");
    assert(r.view().status == r.status);
}

/// A request that the scan gate does not admit is a 401 that states why: the
/// token is absent, unknown, or dead since when; an admitted one is let through.
pub proof fn law_gated_requests(
    gate: &mut ScanGate,
    headers: &ScanHeaders,
    now: &Timestamp,
    r: Option<Reply>,
)
    requires
        call_ensures(guard, (gate, headers, now), r),
    ensures
        ({
            let before = old(gate).view();
            let at = final(gate).read_at();
            let ttl = before.policy.token_ttl_secs;
            let presented = headers.presented();
            let admitted = is_admitted_at(before, presented, at);
            let reason = match presented {
                None => absence_refusal(ttl),
                Some(token) => if before.tokens.contains_key(token) {
                    expiry_refusal(ttl, seconds_dead(before.tokens[token], at))
                } else {
                    unknown_refusal(ttl)
                },
            };
            &&& r is None <==> admitted
            &&& r matches Some(reply) ==> reply.status == 401 && reply.view().body == BodyView::Text(
                compact_json(error_document(reason)),
            ) && is_stamped(reply.view(), now.text@)
        }),
{
    lemma_stamp("application/json"@, now.text@);
    if let Some(reply) = r {
        assert(reply.view().status == reply.status);
    }
}

/// What a service without an environment is: on the loopback, without an
/// issuer, a journal, an admin or a rate, with the scan gate open.
pub proof fn law_default_configuration(c: Config)
    requires
        call_ensures(<Config as Default>::default, (), c),
    ensures
        c.bind@ == "127.0.0.1:8094"@,
        c.issuer_url is None,
        c.timeout_ms == 2000,
        c.feedback_journal is None,
        c.feedback_rate_per_minute == 0,
        c.admin_token is None,
        c.scan_ttl_secs == 0,
        c.scan_limit_per_minute == 0,
{
    let v = c.view();
    assert(v.issuer_url == opt_string(c.issuer_url));
    assert(v.feedback_journal == opt_string(c.feedback_journal));
    assert(v.admin_token == opt_string(c.admin_token));
    assert(v.timeout_ms == c.timeout_ms && v.scan_ttl_secs == c.scan_ttl_secs);
}

/// Reading a request for a triad, in one call: what is asked for is its
/// `freshness` without white space around it, or nothing where it is blank; a
/// request that is not admitted is a 401, and one that asks for no duration a
/// 400.
pub proof fn law_untp_requests<'a>(
    gate: &mut ScanGate,
    headers: &ScanHeaders,
    param: Option<&'a str>,
    now: &Timestamp,
    r: Result<Option<&'a str>, Reply>,
)
    requires
        call_ensures(untp_request, (gate, headers, param, now), r),
    ensures
        ({
            let admitted = is_admitted_at(
                old(gate).view(),
                headers.presented(),
                final(gate).read_at(),
            );
            let asked = match param {
                Some(s) => if is_blank(s@) {
                    None
                } else {
                    Some(trimmed(s@))
                },
                None => None,
            };
            let bad = asked matches Some(s) && duration_ms(s) is None;
            &&& r is Ok <==> admitted && !bad
            &&& r matches Ok(required) ==> opt_text(required) == asked
            &&& r matches Err(reply) ==> reply.status == (if admitted {
                400int
            } else {
                401int
            })
        }),
{
    if let Err(reply) = r {
        assert(reply.view().status == reply.status);
    }
}

/// Reading a request for an EN 18222 render, in one call: what is asked for is
/// the form that its `representation` names; a request that is not admitted is a
/// 401, and one that names no form a 400.
pub proof fn law_en18222_requests(
    gate: &mut ScanGate,
    headers: &ScanHeaders,
    param: Option<&str>,
    now: &Timestamp,
    r: Result<Representation, Reply>,
)
    requires
        call_ensures(en18222_request, (gate, headers, param, now), r),
    ensures
        ({
            let admitted = is_admitted_at(
                old(gate).view(),
                headers.presented(),
                final(gate).read_at(),
            );
            let name = match param {
                Some(s) => trimmed(s@),
                None => Seq::empty(),
            };
            let bad = name.len() > 0 && name != "full"@ && name != "compressed"@;
            &&& r is Ok <==> admitted && !bad
            &&& r matches Ok(form) ==> (form is Full <==> name == "full"@)
            &&& r matches Err(reply) ==> reply.status == (if admitted {
                400int
            } else {
                401int
            })
        }),
{
    reveal_strlit("full");
    reveal_strlit("compressed");
    if let Err(reply) = r {
        assert(reply.view().status == reply.status);
    }
}

/// Answering a report, in one call, goes by the report, by what was said of its
/// admission and by the store.
pub proof fn law_answers(
    report: FeedbackReport,
    admitted: Result<(), String>,
    store: &mut FeedbackStore,
    now: &Timestamp,
    r: (Reply, Option<FeedbackRecord>),
)
    requires
        call_ensures(answer_report, (report, &admitted, store, now), r),
    ensures
        ({
            let stated = !is_blank(report.identifier@) && !is_blank(report.details@)
                && report.details@.len() <= 500;
            &&& r.0.status == (if admitted is Err {
                429int
            } else if stated {
                201int
            } else {
                400int
            })
            &&& r.0.status != 201 ==> final(store).view() == old(store).view() && r.1 is None
            &&& r.0.status == 201 ==> (r.1 matches Some(record) && record.report.details@
                == report.details@ && record.report.identifier@ == report.identifier@
                && record.recorded_at@ == now.text@ && final(store).view() == old(
                store,
            ).view().push(record.view()))
        }),
{
    assert(r.0.view().status == r.0.status);
    assert(report.view().identifier == report.identifier@ && report.view().details
        == report.details@);
    if let Some(record) = r.1 {
        assert(record.view().report == record.report.view());
        assert(record.report.view().details == record.report.details@);
        assert(record.report.view().identifier == record.report.identifier@);
    }
}

} // verus!
