//! The discovery document: what the service is, where its endpoints are and
//! what its bindings render.
use vstd::prelude::*;

use crate::api::{stamped, stamped_reply};
use crate::en18222::EN18222_PROFILE;
use crate::json::{lemma_array_view, put, put_text, text, text_or_null, views, Json, JsonView};
use crate::model::Timestamp;
use crate::reply::{BodyView, Reply};
use crate::source::{GatewayPassport, PassportSource};
use crate::text::{opt_string, Text};
use crate::untp::UNTP_PROFILE;

verus! {

pub const DESCRIPTION: &'static str = "UniDPP interop gateway: renders the neutral core in foreign protocol shapes — their format is our profile. The py adapters are the semantics source; this service ports them and serves both renderings from one core.";

pub const ENDPOINT_UNTP: &'static str = "GET /untp/product/{id}?freshness=";

pub const ENDPOINT_UNTP_INGEST: &'static str = "POST /untp/ingest (import direction: a UNTP passport VC or triad mints a core passport with a deterministic identity; idempotent per subject)";

pub const ENDPOINT_EN18222: &'static str = "GET /en18222/v1/dppsByProductId/{gtin}?representation=full|compressed";

pub const ENDPOINT_FEEDBACK: &'static str = "POST /feedback {identifier, category: goods-mismatch|advertising-mismatch|other:<stated>, contact?, details<=500} — the consumer report channel: journaled, sequenced, receipted; admission control is deployment-pluggable (rate window via UNIDPP_GATEWAY_FEEDBACK_RATE; refusals state their reason)";

pub const ENDPOINT_FEEDBACK_CITATION: &'static str = "GET /feedback/{seq} — the public citation form (contact withheld, stated)";

pub const ENDPOINT_FEEDBACK_ADMIN: &'static str = "GET /admin/feedback?limit=&offset= — the full listing, admin-guarded when UNIDPP_GATEWAY_ADMIN_TOKEN is set";

pub const ENDPOINT_HEALTH: &'static str = "GET /healthz";

pub const UNTP_ROUTE: &'static str = "GET /untp/product/{id}";

pub const UNTP_RENDERING: &'static str = "UNTP verifiable-credential triad: DigitalProductPassport VC (the py stub shape) + DigitalConformityCredentials (profile bindings + E14 inspection stamps) + link-resolver entry (log-head anchored)";

pub const UNTP_SEMANTICS: &'static str = "port of unidpp-py/unidpp/adapters/untp.py (parse_stub kept for round-trip) with the verify.py verdict rules over the evidence";

pub const UNTP_IDENTIFIER_MAPPING: &'static str = "core cpid <-> https://unidpp.org/id/ (py iso-15459); gs1 family <-> https://gs1.org/voc/ with (01)/(10)/(21) application identifiers";

pub const EN18222_ROUTE: &'static str = "GET /en18222/v1/dppsByProductId/{gtin}";

pub const EN18222_RENDERING: &'static str = "the EN 18222 REST shape: full (element tree, string-printed values) or compressed (collection-keyed, native JSON values); default compressed per the EN";

pub const EN18222_SEMANTICS: &'static str = "wire field set mirrored from the freeDPP live-endpoint artifacts (unidpp-py/conformance/competitors/freedpp/artifacts/*-api-{full,compressed}.json)";

pub const C4: &'static str = "both bindings are C4 protocol renderings of one neutral core — no region is the universal envelope; adding a protocol adds a render profile, never a fork";

pub const CONVENTION_STAMPS: &'static str = "as-of stamped responses (x-as-of header; as_of body member except on the frozen EN 18222 wire)";

pub const CONVENTION_NOT_FOUND: &'static str = "no-information 404s: identical bytes for unknown and deliberately unresolvable ids (I12)";

pub const CONVENTION_IMPORT: &'static str = "the gateway renders core passports in foreign shapes, and imports them back with a deterministic identity (render and ingest are inverse projections; imported documents carry an empty log — their events live in the source regime, the receipt records the origin)";

/// The endpoints.
pub open spec fn endpoints() -> JsonView {
    JsonView::Object(
        map![
            "untp"@ => JsonView::Text(ENDPOINT_UNTP@),
            "untp_ingest"@ => JsonView::Text(ENDPOINT_UNTP_INGEST@),
            "en18222"@ => JsonView::Text(ENDPOINT_EN18222@),
            "feedback"@ => JsonView::Text(ENDPOINT_FEEDBACK@),
            "feedback_citation"@ => JsonView::Text(ENDPOINT_FEEDBACK_CITATION@),
            "feedback_admin"@ => JsonView::Text(ENDPOINT_FEEDBACK_ADMIN@),
            "health"@ => JsonView::Text(ENDPOINT_HEALTH@),
        ],
    )
}

/// The bindings: the two protocol renderings of the core.
pub open spec fn bindings() -> JsonView {
    JsonView::Object(
        map![
            "untp"@ => JsonView::Object(
                map![
                    "endpoint"@ => JsonView::Text(UNTP_ROUTE@),
                    "profile"@ => JsonView::Text(UNTP_PROFILE@),
                    "rendering"@ => JsonView::Text(UNTP_RENDERING@),
                    "semantics"@ => JsonView::Text(UNTP_SEMANTICS@),
                    "identifier_mapping"@ => JsonView::Text(UNTP_IDENTIFIER_MAPPING@),
                ],
            ),
            "en18222"@ => JsonView::Object(
                map![
                    "endpoint"@ => JsonView::Text(EN18222_ROUTE@),
                    "profile"@ => JsonView::Text(EN18222_PROFILE@),
                    "rendering"@ => JsonView::Text(EN18222_RENDERING@),
                    "semantics"@ => JsonView::Text(EN18222_SEMANTICS@),
                ],
            ),
        ],
    )
}

/// The data source: the configured issuer, the mode and the fixtures.
pub open spec fn data_source(
    issuer_url: Option<Text>,
    fixtures: Seq<GatewayPassport>,
) -> JsonView {
    JsonView::Object(
        map![
            "issuer_url"@ => match issuer_url {
                Some(url) => JsonView::Text(url),
                None => JsonView::Null,
            },
            "mode"@ => JsonView::Text(
                if issuer_url is Some {
                    "issuer-upstream-with-fixture-fallback"@
                } else {
                    "fixtures"@
                },
            ),
            "fixtures"@ => JsonView::Array(
                fixtures.map_values(|p: GatewayPassport| p.index_entry()),
            ),
        ],
    )
}

/// The discovery document.
pub open spec fn discovery_document(
    version: Text,
    build_id: Text,
    issuer_url: Option<Text>,
    fixtures: Seq<GatewayPassport>,
) -> JsonView {
    JsonView::Object(
        map![
            "service"@ => JsonView::Text("unidpp-gateway"@),
            "version"@ => JsonView::Text(version),
            "build_id"@ => JsonView::Text(build_id),
            "description"@ => JsonView::Text(DESCRIPTION@),
            "endpoints"@ => endpoints(),
            "bindings"@ => bindings(),
            "c4"@ => JsonView::Text(C4@),
            "source"@ => data_source(issuer_url, fixtures),
            "conventions"@ => JsonView::Array(
                seq![
                    JsonView::Text(CONVENTION_STAMPS@),
                    JsonView::Text(CONVENTION_NOT_FOUND@),
                    JsonView::Text(CONVENTION_IMPORT@),
                ],
            ),
        ],
    )
}

/// The endpoints.
fn endpoints_json() -> (j: Json)
    ensures
        j.view() == endpoints(),
{
    let mut members: Vec<(String, Json)> = Vec::new();
    put_text(&mut members, "untp", ENDPOINT_UNTP);
    put_text(&mut members, "untp_ingest", ENDPOINT_UNTP_INGEST);
    put_text(&mut members, "en18222", ENDPOINT_EN18222);
    put_text(&mut members, "feedback", ENDPOINT_FEEDBACK);
    put_text(&mut members, "feedback_citation", ENDPOINT_FEEDBACK_CITATION);
    put_text(&mut members, "feedback_admin", ENDPOINT_FEEDBACK_ADMIN);
    put_text(&mut members, "health", ENDPOINT_HEALTH);
    Json::Object(members)
}

/// The bindings.
fn bindings_json() -> (j: Json)
    ensures
        j.view() == bindings(),
{
    let mut untp: Vec<(String, Json)> = Vec::new();
    put_text(&mut untp, "endpoint", UNTP_ROUTE);
    put_text(&mut untp, "profile", UNTP_PROFILE);
    put_text(&mut untp, "rendering", UNTP_RENDERING);
    put_text(&mut untp, "semantics", UNTP_SEMANTICS);
    put_text(&mut untp, "identifier_mapping", UNTP_IDENTIFIER_MAPPING);
    let mut en18222: Vec<(String, Json)> = Vec::new();
    put_text(&mut en18222, "endpoint", EN18222_ROUTE);
    put_text(&mut en18222, "profile", EN18222_PROFILE);
    put_text(&mut en18222, "rendering", EN18222_RENDERING);
    put_text(&mut en18222, "semantics", EN18222_SEMANTICS);
    let mut members: Vec<(String, Json)> = Vec::new();
    put(&mut members, "untp", Json::Object(untp));
    put(&mut members, "en18222", Json::Object(en18222));
    Json::Object(members)
}

/// The discovery reply: both bindings documented as renderings of one core.
pub fn discovery(
    version: &str,
    build_id: &str,
    issuer_url: &Option<String>,
    source: &PassportSource,
    now: &Timestamp,
) -> (r: Reply)
    ensures
        r.view() == stamped_reply(
            200,
            discovery_document(version@, build_id@, opt_string(*issuer_url), source.fixtures@),
            now.text@,
        ),
{
    broadcast use lemma_array_view;

    let mode = match issuer_url {
        Some(_) => "issuer-upstream-with-fixture-fallback",
        None => "fixtures",
    };
    let mut origin: Vec<(String, Json)> = Vec::new();
    put(&mut origin, "issuer_url", text_or_null(issuer_url));
    put_text(&mut origin, "mode", mode);
    put(&mut origin, "fixtures", Json::Array(source.fixture_index()));
    let mut conventions: Vec<Json> = Vec::new();
    conventions.push(text(CONVENTION_STAMPS));
    conventions.push(text(CONVENTION_NOT_FOUND));
    conventions.push(text(CONVENTION_IMPORT));
    assert(views(conventions@) =~= seq![
        JsonView::Text(CONVENTION_STAMPS@),
        JsonView::Text(CONVENTION_NOT_FOUND@),
        JsonView::Text(CONVENTION_IMPORT@),
    ]);
    let mut members: Vec<(String, Json)> = Vec::new();
    put_text(&mut members, "service", "unidpp-gateway");
    put_text(&mut members, "version", version);
    put_text(&mut members, "build_id", build_id);
    put_text(&mut members, "description", DESCRIPTION);
    put(&mut members, "endpoints", endpoints_json());
    put(&mut members, "bindings", bindings_json());
    put_text(&mut members, "c4", C4);
    put(&mut members, "source", Json::Object(origin));
    put(&mut members, "conventions", Json::Array(conventions));
    stamped(200, Json::Object(members), now)
}

/// The member names of the discovery document, told apart.
proof fn lemma_discovery_names()
    ensures
        "service"@.len() == 7,
        "version"@.len() == 7 && "version"@[0] == 'v' && "service"@[0] == 's',
        "build_id"@.len() == 8 && "build_id"@[1] == 'u',
        "description"@.len() == 11 && "description"@[0] == 'd',
        "endpoints"@.len() == 9,
        "bindings"@.len() == 8 && "bindings"@[1] == 'i',
        "c4"@.len() == 2,
        "source"@.len() == 6,
        "conventions"@.len() == 11 && "conventions"@[0] == 'c',
        "as_of"@.len() == 5,
        "issuer_url"@.len() == 10,
        "mode"@.len() == 4,
        "fixtures"@.len() == 8,
        "untp"@.len() == 4,
        "en18222"@.len() == 7,
        "endpoint"@.len() == 8,
        "profile"@.len() == 7,
        "rendering"@.len() == 9 && "rendering"@[0] == 'r',
        "semantics"@.len() == 9 && "semantics"@[0] == 's',
        "identifier_mapping"@.len() == 18,
        "untp_ingest"@.len() == 11,
        "feedback"@.len() == 8,
        "feedback_citation"@.len() == 17,
        "feedback_admin"@.len() == 14,
        "health"@.len() == 6,
{
    reveal_strlit("service");
    reveal_strlit("version");
    reveal_strlit("build_id");
    reveal_strlit("description");
    reveal_strlit("endpoints");
    reveal_strlit("bindings");
    reveal_strlit("c4");
    reveal_strlit("source");
    reveal_strlit("conventions");
    reveal_strlit("as_of");
    reveal_strlit("issuer_url");
    reveal_strlit("mode");
    reveal_strlit("fixtures");
    reveal_strlit("untp");
    reveal_strlit("en18222");
    reveal_strlit("endpoint");
    reveal_strlit("profile");
    reveal_strlit("rendering");
    reveal_strlit("semantics");
    reveal_strlit("identifier_mapping");
    reveal_strlit("untp_ingest");
    reveal_strlit("feedback");
    reveal_strlit("feedback_citation");
    reveal_strlit("feedback_admin");
    reveal_strlit("health");
}

/// Discovery says what is served: the service with its version and build, the
/// route and the render profile of each binding, the configured issuer and
/// whether there is one, and every fixture by its ids, in its place.
pub proof fn law_discovery_says_what_is_served(
    version: &str,
    build_id: &str,
    issuer_url: &Option<String>,
    source: &PassportSource,
    now: &Timestamp,
    r: Reply,
    i: int,
)
    requires
        call_ensures(discovery, (version, build_id, issuer_url, source, now), r),
    ensures
        r.status == 200,
        r.view().body matches BodyView::Document(d) && {
            &&& d.text_at("as_of"@) == Some(now.text@)
            &&& d.text_at("service"@) == Some("unidpp-gateway"@)
            &&& d.text_at("version"@) == Some(version@)
            &&& d.text_at("build_id"@) == Some(build_id@)
            &&& d.member("endpoints"@) matches Some(e) && {
                &&& e.text_at("untp"@) == Some("GET /untp/product/{id}?freshness="@)
                &&& e.text_at("en18222"@) == Some(
                    "GET /en18222/v1/dppsByProductId/{gtin}?representation=full|compressed"@,
                )
                &&& e.text_at("feedback_citation"@) == Some(
                    "GET /feedback/{seq} — the public citation form (contact withheld, stated)"@,
                )
                &&& e.text_at("feedback_admin"@) == Some(
                    "GET /admin/feedback?limit=&offset= — the full listing, admin-guarded when UNIDPP_GATEWAY_ADMIN_TOKEN is set"@,
                )
                &&& e.text_at("health"@) == Some("GET /healthz"@)
                &&& e.member("untp_ingest"@) is Some
                &&& e.member("feedback"@) is Some
            }
            &&& d.member("bindings"@) matches Some(bindings) && {
                &&& bindings.member("untp"@) matches Some(untp) && untp.text_at("profile"@) == Some(
                    "urn:unidpp:profile:render:untp"@,
                ) && untp.text_at("endpoint"@) == Some("GET /untp/product/{id}"@)
                &&& bindings.member("en18222"@) matches Some(en) && en.text_at("profile"@) == Some(
                    "urn:unidpp:profile:render:en18222"@,
                ) && en.text_at("endpoint"@) == Some("GET /en18222/v1/dppsByProductId/{gtin}"@)
            }
            &&& d.member("source"@) matches Some(origin) && {
                &&& origin.text_at("issuer_url"@) == opt_string(*issuer_url)
                &&& origin.text_at("mode"@) == Some(
                    if issuer_url is Some {
                        "issuer-upstream-with-fixture-fallback"@
                    } else {
                        "fixtures"@
                    },
                )
                &&& origin.items_at("fixtures"@) matches Some(index) && index.len()
                    == source.fixtures@.len() && (0 <= i < index.len() ==> index[i]
                    == source.fixtures@[i].index_entry())
            }
            &&& d.items_at("conventions"@) matches Some(conventions) && conventions.len() == 3
        },
{
    lemma_discovery_names();
    assert(r.view().status == r.status);
}

} // verus!
