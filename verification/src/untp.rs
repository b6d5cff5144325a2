//! The UNTP binding, in both directions.
//!
//! [`render_triad`] renders a passport as a UNTP verifiable-credential triad:
//! the digital product passport credential, the conformity credentials
//! (profile bindings and the log's inspection stamps) and the link-resolver
//! entry (with the log-head anchor). [`parse_stub`] reads a passport stub
//! into the neutral-core manifest shape.
//!
//! | scheme token | UNTP scheme URI | core scheme |
//! |---|---|---|
//! | `gs1` | `https://gs1.org/voc/` (also `id.gs1.org`/`ref.gs1.org`/`urn:epc:id:`) | `gtin`/`sgtin` |
//! | `iso-15459` | `https://unidpp.org/id/` (also `https://www.w3.org/ns/`) | `cpid` |
//!
//! GS1 values use the parenthesized application-identifier form
//! (`(01)0950…`); the parser accepts both that and the core display form
//! (`01+…`).
use vstd::prelude::*;

use crate::canonical::{commitment_material, material};
use crate::json::{
    compact_json, lemma_array_view, put, put_text, text, text_or_null, views, Json, JsonView,
};
use crate::model::{
    EventPayload, Granularity, IdScheme, Passport, ProductIdentifier, SealedEvent, Stamp, Timestamp,
    TrustMarker,
};
use crate::source::{GatewayPassport, Origin, ProfileRef};
use crate::text::{
    after_last, chars_of, contains_char, contains_text, debug_text, decimal, decimal_text,
    holds_text, is_ascii_char, is_ascii_text, is_word, lower, lower_text, lowercase_char, opt_text, quoted, replace_text, replaced, same, starts_with,
    strip_prefix, tail_after, Text,
};
use crate::verdict::{
    current_state_view, verdict_on, verify_passport, CryptoSlot, CryptoSlots, VerifyOptions,
    VerifyView,
};

verus! {

/// The registered render profile.
pub const UNTP_PROFILE: &'static str = "urn:unidpp:profile:render:untp";

// ---------------------------------------------------------------------------
// Schemes and identifier values
// ---------------------------------------------------------------------------

/// The UNTP scheme URI of a core scheme.
pub open spec fn uri_of_scheme(scheme: IdScheme) -> Text {
    match scheme {
        IdScheme::Gtin => "https://gs1.org/voc/"@,
        IdScheme::Sgtin => "https://gs1.org/voc/"@,
        IdScheme::Gsrn => "https://gs1.org/voc/"@,
        IdScheme::Gln => "https://gs1.org/voc/"@,
        IdScheme::Cpid => "https://unidpp.org/id/"@,
        IdScheme::Other(token) => token@,
    }
}

/// The UNTP scheme URI of a core scheme.
pub fn scheme_uri(scheme: &IdScheme) -> (r: String)
    ensures
        r@ == uri_of_scheme(*scheme),
{
    match scheme {
        IdScheme::Gtin => "https://gs1.org/voc/".to_owned(),
        IdScheme::Sgtin => "https://gs1.org/voc/".to_owned(),
        IdScheme::Gsrn => "https://gs1.org/voc/".to_owned(),
        IdScheme::Gln => "https://gs1.org/voc/".to_owned(),
        IdScheme::Cpid => "https://unidpp.org/id/".to_owned(),
        IdScheme::Other(token) => token.clone(),
    }
}

/// Whether the URI is one of the GS1 vocabulary's.
pub open spec fn is_gs1_uri(uri: Text) -> bool {
    ||| uri == "https://gs1.org/voc/"@
    ||| uri == "https://id.gs1.org/"@
    ||| uri == "https://ref.gs1.org/"@
    ||| uri == "urn:epc:id:"@
}

/// Whether the URI is one of the ISO/IEC 15459 vocabulary's.
pub open spec fn is_15459_uri(uri: Text) -> bool {
    ||| uri == "https://www.w3.org/ns/"@
    ||| uri == "https://unidpp.org/id/"@
}

/// The core scheme token of a UNTP scheme URI; an unknown URI stands for
/// itself.
pub open spec fn token_of_uri(uri: Text) -> Text {
    if is_gs1_uri(uri) {
        "gtin"@
    } else if is_15459_uri(uri) {
        "cpid"@
    } else {
        uri
    }
}

/// The core scheme token of a UNTP scheme URI.
pub fn scheme_token(uri: &str) -> (r: String)
    ensures
        r@ == token_of_uri(uri@),
{
    if same(uri, "https://gs1.org/voc/") || same(uri, "https://id.gs1.org/") || same(
        uri,
        "https://ref.gs1.org/",
    ) || same(uri, "urn:epc:id:") {
        "gtin".to_owned()
    } else if same(uri, "https://www.w3.org/ns/") || same(uri, "https://unidpp.org/id/") {
        "cpid".to_owned()
    } else {
        uri.to_owned()
    }
}

/// A text with a prefix, where there is one; nothing otherwise.
pub open spec fn prefixed(prefix: Text, s: Option<String>) -> Text {
    match s {
        Some(s) => prefix + s@,
        None => Seq::empty(),
    }
}

/// The UNTP identifier value: a GTIN in the parenthesized
/// application-identifier form, everything else in the core display form.
pub open spec fn untp_value(id: &ProductIdentifier) -> Text {
    if id.gs1_keyed() {
        "(01)"@ + id.key@ + prefixed("(10)"@, id.lot) + prefixed("(21)"@, id.serial)
    } else {
        id.display@
    }
}

/// The UNTP identifier value.
pub fn untp_identifier_value(id: &ProductIdentifier) -> (r: String)
    ensures
        r@ == untp_value(id),
{
    if !id.is_gs1_keyed() {
        return id.display.clone();
    }
    let mut value = "(01)".to_owned().concat(id.key.as_str());
    let ghost base = value@;
    match &id.lot {
        Some(lot) => {
            value.append("(10)");
            value.append(lot.as_str());
        },
        None => {},
    }
    assert(value@ =~= base + prefixed("(10)"@, id.lot));
    let ghost base = value@;
    match &id.serial {
        Some(serial) => {
            value.append("(21)");
            value.append(serial.as_str());
        },
        None => {},
    }
    assert(value@ =~= base + prefixed("(21)"@, id.serial));
    value
}

/// The core display form of a UNTP identifier value: `(01)x` element strings
/// become `01+x` ones, a bare GTIN key gets its application identifier, and
/// everything else stands as it is.
pub open spec fn core_value(scheme: Text, value: Text) -> Text {
    if starts_with(value, "(01)"@) {
        replaced(replaced("01+"@ + value.skip(4), "(10)"@, "+10+"@), "(21)"@, "+21+"@)
    } else if scheme == "gtin"@ && !value.contains('+') {
        "01+"@ + value
    } else {
        value
    }
}

/// The core display form of a UNTP identifier value.
pub fn core_identifier_value(scheme_token: &str, value: &str) -> (r: String)
    ensures
        r@ == core_value(scheme_token@, value@),
{
    proof {
        reveal_strlit("(01)");
        reveal_strlit("(10)");
        reveal_strlit("(21)");
    }
    match strip_prefix(value, "(01)") {
        Some(key) => {
            let display = "01+".to_owned().concat(key.as_str());
            let display = replace_text(display.as_str(), "(10)", "+10+");
            replace_text(display.as_str(), "(21)", "+21+")
        },
        None => if same(scheme_token, "gtin") && !contains_char(value, '+') {
            "01+".to_owned().concat(value)
        } else {
            value.to_owned()
        },
    }
}

/// The tail of a URN after the last `:`.
pub fn slug_tail(id: &str) -> (r: String)
    ensures
        r@ == after_last(id@, ':'),
{
    tail_after(id, ':')
}

// ---------------------------------------------------------------------------
// Slugs
// ---------------------------------------------------------------------------

/// What a slug keeps of a character: letters and numbers in lowercase, the
/// separators `:-_.` as they are, nothing of any other.
pub open spec fn slug_char(c: char) -> Text {
    if is_word(c) {
        lower(c)
    } else if c == ':' || c == '-' || c == '_' || c == '.' {
        seq![c]
    } else {
        Seq::empty()
    }
}

/// What a slug keeps of a text.
pub open spec fn slug_body(s: Text) -> Text
    decreases s.len(),
{
    if s.len() == 0 {
        Seq::empty()
    } else {
        slug_body(s.drop_last()) + slug_char(s.last())
    }
}

/// The slug of a text; `unknown` where nothing is left of it.
pub open spec fn slugged(s: Text) -> Text {
    if slug_body(s).len() == 0 {
        "unknown"@
    } else {
        slug_body(s)
    }
}

/// The slug of a text: lowercase letters and numbers and `:-_.`, everything
/// else dropped.
pub fn slug(value: &str) -> (r: String)
    ensures
        r@ == slugged(value@),
{
    let v = chars_of(value);
    let n: usize = v.len();
    let mut out = String::new();
    let mut empty: bool = true;
    let mut i: usize = 0;
    assert(v@.take(0) =~= Seq::empty());
    while i < n
        invariant
            i <= n == v@.len(),
            out@ == slug_body(v@.take(i as int)),
            empty == (out@.len() == 0),
        decreases n - i,
    {
        let c: char = v[i];
        let ghost before = out@;
        assert(v@.take(i + 1).drop_last() =~= v@.take(i as int));
        if c.is_alphanumeric() {
            let low = lowercase_char(c);
            let m: usize = low.len();
            let mut k: usize = 0;
            assert(before + low@.take(0) =~= before);
            while k < m
                invariant
                    k <= m == low@.len(),
                    out@ == before + low@.take(k as int),
                decreases m - k,
            {
                out.push(low[k]);
                assert(out@ =~= before + low@.take(k + 1));
                k = k + 1;
            }
            assert(low@.take(m as int) =~= low@);
            if m > 0 {
                empty = false;
            }
        } else if c == ':' || c == '-' || c == '_' || c == '.' {
            out.push(c);
            assert(out@ =~= before + seq![c]);
            empty = false;
        } else {
            assert(before + Seq::<char>::empty() =~= before);
        }
        i = i + 1;
    }
    assert(v@.take(n as int) =~= v@);
    if empty {
        "unknown".to_owned()
    } else {
        out
    }
}

// ---------------------------------------------------------------------------
// The render
// ---------------------------------------------------------------------------

/// The contexts of a credential.
pub open spec fn contexts() -> JsonView {
    JsonView::Array(
        seq![
            JsonView::Text("https://www.w3.org/ns/credentials/v2"@),
            JsonView::Text("https://ref.gs1.org/gs1/voc/"@),
        ],
    )
}

/// The types of a credential of that kind.
pub open spec fn credential_types(kind: Text) -> JsonView {
    JsonView::Array(seq![JsonView::Text("VerifiableCredential"@), JsonView::Text(kind)])
}

/// A party that goes by its id.
pub open spec fn party(id: Text) -> JsonView {
    JsonView::Object(map!["id"@ => JsonView::Text(id), "name"@ => JsonView::Text(id)])
}

/// Two texts as an array.
fn text_pair(a: &str, b: &str) -> (j: Json)
    ensures
        j.view() == JsonView::Array(seq![JsonView::Text(a@), JsonView::Text(b@)]),
        j.plain(),
{
    broadcast use lemma_array_view;

    let mut items: Vec<Json> = Vec::new();
    items.push(text(a));
    items.push(text(b));
    assert(views(items@) =~= seq![JsonView::Text(a@), JsonView::Text(b@)]);
    Json::Array(items)
}

/// The contexts of a credential.
fn contexts_json() -> (j: Json)
    ensures
        j.view() == contexts(),
        j.plain(),
{
    text_pair("https://www.w3.org/ns/credentials/v2", "https://ref.gs1.org/gs1/voc/")
}

/// A party that goes by its id.
fn party_json(id: &str) -> (j: Json)
    ensures
        j.view() == party(id@),
        j.plain(),
{
    let mut members: Vec<(String, Json)> = Vec::new();
    put_text(&mut members, "id", id);
    put_text(&mut members, "name", id);
    Json::Object(members)
}

/// Since when a profile is effective: its own date, or the passport's.
pub open spec fn effective_from(document: &Passport, profile: ProfileRef) -> Text {
    match profile.effective_from {
        Some(t) => t.text@,
        None => document.created_at.text@,
    }
}

/// The conformance entry of a profile.
pub open spec fn conformance_entry(document: &Passport, profile: ProfileRef) -> JsonView {
    JsonView::Object(
        map![
            "standard"@ => JsonView::Text(profile.id@),
            "conformanceVersion"@ => JsonView::Text(profile.version@),
            "effectiveFrom"@ => JsonView::Text(effective_from(document, profile)),
        ],
    )
}

/// The conformance entry of a profile.
fn conformance_entry_json(document: &Passport, profile: &ProfileRef) -> (j: Json)
    ensures
        j.view() == conformance_entry(document, *profile),
        j.plain(),
{
    let since = match &profile.effective_from {
        Some(t) => t.text.as_str(),
        None => document.created_at.text.as_str(),
    };
    let mut members: Vec<(String, Json)> = Vec::new();
    put_text(&mut members, "standard", profile.id.as_str());
    put_text(&mut members, "conformanceVersion", profile.version.as_str());
    put_text(&mut members, "effectiveFrom", since);
    Json::Object(members)
}

/// The conformance entries of the profiles, in their order.
pub open spec fn conformance_entries(p: &GatewayPassport) -> Seq<JsonView> {
    p.profiles@.map_values(|profile: ProfileRef| conformance_entry(&p.document, profile))
}

/// The digital product passport credential.
pub open spec fn passport_credential(p: &GatewayPassport) -> JsonView {
    let document = &p.document;
    let base = map![
        "@context"@ => contexts(),
        "type"@ => credential_types("DigitalProductPassport"@),
        "id"@ => JsonView::Text(document.passport_id@),
        "issuer"@ => party(document.eo_id@),
        "validFrom"@ => JsonView::Text(document.validity.from.text@),
        "productIdentifiers"@ => JsonView::Array(
            seq![
                JsonView::Object(
                    map![
                        "scheme"@ => JsonView::Text(uri_of_scheme(document.product_id.scheme)),
                        "value"@ => JsonView::Text(untp_value(&document.product_id)),
                    ],
                ),
            ],
        ),
        "passportIssuer"@ => party(document.eo_id@),
        "standardsConformance"@ => JsonView::Array(conformance_entries(p)),
    ];
    JsonView::Object(
        match document.validity.to {
            Some(to) => base.insert("validUntil"@, JsonView::Text(to.text@)),
            None => base,
        },
    )
}

/// The digital product passport credential.
fn passport_credential_json(p: &GatewayPassport) -> (j: Json)
    ensures
        j.view() == passport_credential(p),
        j.plain(),
{
    broadcast use lemma_array_view;

    let document = &p.document;
    let n: usize = p.profiles.len();
    let mut entries: Vec<Json> = Vec::new();
    let mut i: usize = 0;
    while i < n
        invariant
            i <= n == p.profiles@.len(),
            document == p.document,
            entries@.len() == i,
            forall|k: int|
                0 <= k < i ==> (#[trigger] entries@[k]).view() == conformance_entry(
                    &p.document,
                    p.profiles@[k],
                ) && entries@[k].plain(),
        decreases n - i,
    {
        entries.push(conformance_entry_json(document, &p.profiles[i]));
        i = i + 1;
    }
    assert(views(entries@) =~= conformance_entries(p));

    let mut identifier: Vec<(String, Json)> = Vec::new();
    put_text(&mut identifier, "scheme", scheme_uri(&document.product_id.scheme).as_str());
    put_text(&mut identifier, "value", untp_identifier_value(&document.product_id).as_str());
    let mut identifiers: Vec<Json> = Vec::new();
    identifiers.push(Json::Object(identifier));
    assert(views(identifiers@) =~= seq![Json::Object(identifier).view()]);

    assert(Json::Object(identifier).plain());
    assert(Json::Array(identifiers).plain());
    assert(Json::Array(entries).plain());
    let mut members: Vec<(String, Json)> = Vec::new();
    put(&mut members, "@context", contexts_json());
    put(&mut members, "type", text_pair("VerifiableCredential", "DigitalProductPassport"));
    put_text(&mut members, "id", document.passport_id.as_str());
    put(&mut members, "issuer", party_json(document.eo_id.as_str()));
    put_text(&mut members, "validFrom", document.validity.from.text.as_str());
    put(&mut members, "productIdentifiers", Json::Array(identifiers));
    put(&mut members, "passportIssuer", party_json(document.eo_id.as_str()));
    put(&mut members, "standardsConformance", Json::Array(entries));
    match &document.validity.to {
        Some(to) => put_text(&mut members, "validUntil", to.text.as_str()),
        None => {},
    }
    Json::Object(members)
}

/// What a conformity credential is about.
pub open spec fn claim(standard: Text, version: Text) -> JsonView {
    JsonView::Object(
        map!["standard"@ => JsonView::Text(standard), "version"@ => JsonView::Text(version)],
    )
}

/// What a conformity credential is about.
fn claim_json(standard: &str, version: &str) -> (j: Json)
    ensures
        j.view() == claim(standard@, version@),
{
    let mut members: Vec<(String, Json)> = Vec::new();
    put_text(&mut members, "standard", standard);
    put_text(&mut members, "version", version);
    Json::Object(members)
}

/// A conformity credential.
pub open spec fn conformity_credential(
    id: Text,
    issuer: Text,
    valid_from: Text,
    subject: JsonView,
) -> JsonView {
    JsonView::Object(
        map![
            "@context"@ => contexts(),
            "type"@ => credential_types("DigitalConformityCredential"@),
            "id"@ => JsonView::Text(id),
            "issuer"@ => party(issuer),
            "validFrom"@ => JsonView::Text(valid_from),
            "credentialSubject"@ => subject,
        ],
    )
}

/// A conformity credential.
fn conformity_credential_json(id: &str, issuer: &str, valid_from: &str, subject: Json) -> (j: Json)
    ensures
        j.view() == conformity_credential(id@, issuer@, valid_from@, subject.view()),
{
    let mut members: Vec<(String, Json)> = Vec::new();
    put(&mut members, "@context", contexts_json());
    put(&mut members, "type", text_pair("VerifiableCredential", "DigitalConformityCredential"));
    put_text(&mut members, "id", id);
    put(&mut members, "issuer", party_json(issuer));
    put_text(&mut members, "validFrom", valid_from);
    put(&mut members, "credentialSubject", subject);
    Json::Object(members)
}

/// The conformity credential of a profile binding: the profile is the
/// conformity claim.
pub open spec fn profile_credential(document: &Passport, profile: ProfileRef) -> JsonView {
    conformity_credential(
        document.passport_id@ + "#conformity-profile-"@ + after_last(profile.id@, ':'),
        document.eo_id@,
        document.validity.from.text@,
        JsonView::Object(
            map![
                "type"@ => JsonView::Text("ConformityAttestation"@),
                "assessmentLevel"@ => JsonView::Text("self-assessment"@),
                "conformity"@ => claim(profile.id@, profile.version@),
                "criteria"@ => JsonView::Text("profile binding on the neutral core"@),
            ],
        ),
    )
}

/// The conformity credential of a profile binding.
fn profile_credential_json(document: &Passport, profile: &ProfileRef) -> (j: Json)
    ensures
        j.view() == profile_credential(document, *profile),
{
    let mut subject: Vec<(String, Json)> = Vec::new();
    put_text(&mut subject, "type", "ConformityAttestation");
    put_text(&mut subject, "assessmentLevel", "self-assessment");
    put(
        &mut subject,
        "conformity",
        claim_json(profile.id.as_str(), profile.version.as_str()),
    );
    put_text(&mut subject, "criteria", "profile binding on the neutral core");
    let id = document.passport_id.clone().concat("#conformity-profile-").concat(
        slug_tail(profile.id.as_str()).as_str(),
    );
    conformity_credential_json(
        id.as_str(),
        document.eo_id.as_str(),
        document.validity.from.text.as_str(),
        Json::Object(subject),
    )
}

/// Who assessed an inspection, by the trust of its event.
pub open spec fn assessment_level(trust: TrustMarker) -> Text {
    if trust.rank() >= TrustMarker::Attested.rank() {
        "third-party"@
    } else {
        "self-assessment"@
    }
}

/// The conformity credential of an inspection stamp.
pub open spec fn stamp_credential(document: &Passport, event: SealedEvent, stamp: Stamp) -> JsonView {
    conformity_credential(
        document.passport_id@ + "#conformity-stamp-"@ + decimal(event.seq as nat),
        stamp.attester@,
        event.occurred_at.text@,
        JsonView::Object(
            map![
                "type"@ => JsonView::Text("ConformityAttestation"@),
                "assessmentLevel"@ => JsonView::Text(assessment_level(event.trust)),
                "conformity"@ => claim(stamp.lens@, stamp.lens_version@),
                "criteria"@ => JsonView::Text(stamp.summary()),
                "mode"@ => JsonView::Text(stamp.mode@),
                "stateCommitment"@ => JsonView::Text(stamp.subject_state_commitment@),
                "logAnchoredAt"@ => JsonView::Text(stamp.log_anchored_at.text@),
            ],
        ),
    )
}

/// The conformity credential of an inspection stamp.
fn stamp_credential_json(document: &Passport, event: &SealedEvent, stamp: &Stamp) -> (j: Json)
    ensures
        j.view() == stamp_credential(document, *event, *stamp),
{
    let level = if event.trust.at_least(TrustMarker::Attested) {
        "third-party"
    } else {
        "self-assessment"
    };
    let mut subject: Vec<(String, Json)> = Vec::new();
    put_text(&mut subject, "type", "ConformityAttestation");
    put_text(&mut subject, "assessmentLevel", level);
    put(
        &mut subject,
        "conformity",
        claim_json(stamp.lens.as_str(), stamp.lens_version.as_str()),
    );
    put_text(&mut subject, "criteria", stamp.summary_text());
    put_text(&mut subject, "mode", stamp.mode.as_str());
    put_text(&mut subject, "stateCommitment", stamp.subject_state_commitment.as_str());
    put_text(&mut subject, "logAnchoredAt", stamp.log_anchored_at.text.as_str());
    let id = document.passport_id.clone().concat("#conformity-stamp-").concat(
        decimal_text(event.seq).as_str(),
    );
    conformity_credential_json(
        id.as_str(),
        stamp.attester.as_str(),
        event.occurred_at.text.as_str(),
        Json::Object(subject),
    )
}

/// The conformity credentials of the inspection stamps among the events, in
/// their order.
pub open spec fn stamp_credentials(document: &Passport, events: Seq<SealedEvent>) -> Seq<JsonView>
    decreases events.len(),
{
    if events.len() == 0 {
        Seq::empty()
    } else {
        let before = stamp_credentials(document, events.drop_last());
        match events.last().payload {
            EventPayload::InspectionStamp { stamp } => before.push(
                stamp_credential(document, events.last(), stamp),
            ),
            EventPayload::Other => before,
        }
    }
}

/// The conformity credentials: one for each profile binding, then one for
/// each inspection stamp in the log.
pub open spec fn conformity_credentials(p: &GatewayPassport) -> Seq<JsonView> {
    p.profiles@.map_values(|profile: ProfileRef| profile_credential(&p.document, profile))
        + stamp_credentials(&p.document, p.document.log.sealed@)
}

/// The conformity credentials.
fn conformity_credentials_json(p: &GatewayPassport) -> (r: Vec<Json>)
    ensures
        views(r@) == conformity_credentials(p),
{
    let document = &p.document;
    let mut credentials: Vec<Json> = Vec::new();
    let n: usize = p.profiles.len();
    let mut i: usize = 0;
    while i < n
        invariant
            i <= n == p.profiles@.len(),
            document == p.document,
            credentials@.len() == i,
            forall|k: int|
                0 <= k < i ==> (#[trigger] credentials@[k]).view() == profile_credential(
                    &p.document,
                    p.profiles@[k],
                ),
        decreases n - i,
    {
        credentials.push(profile_credential_json(document, &p.profiles[i]));
        i = i + 1;
    }
    let ghost bindings = p.profiles@.map_values(
        |profile: ProfileRef| profile_credential(&p.document, profile),
    );
    let ghost events = document.log.sealed@;
    assert(events.take(0) =~= Seq::empty());
    assert(views(credentials@) =~= bindings + stamp_credentials(document, events.take(0)));
    let m: usize = document.log.sealed.len();
    let mut k: usize = 0;
    while k < m
        invariant
            k <= m == events.len(),
            document == p.document,
            events == document.log.sealed@,
            views(credentials@) == bindings + stamp_credentials(document, events.take(k as int)),
        decreases m - k,
    {
        let event = &document.log.sealed[k];
        let ghost before = credentials@;
        assert(events.take(k + 1).drop_last() =~= events.take(k as int));
        match &event.payload {
            EventPayload::InspectionStamp { stamp } => {
                credentials.push(stamp_credential_json(document, event, stamp));
                assert(views(credentials@) =~= views(before).push(
                    stamp_credential(document, *event, *stamp),
                ));
                assert(views(credentials@) =~= bindings + stamp_credentials(
                    document,
                    events.take(k + 1),
                ));
            },
            EventPayload::Other => {},
        }
        k = k + 1;
    }
    assert(events.take(m as int) =~= events);
    credentials
}

/// The link-resolver entry: the passport's serving pointer and the offline
/// chain anchor.
pub open spec fn link_entry(document: &Passport) -> JsonView {
    JsonView::Object(
        map![
            "linkType"@ => JsonView::Text("untp-dpp"@),
            "target"@ => JsonView::Text(document.resolver_uri@),
            "relationship"@ => JsonView::Text("document"@),
            "id"@ => JsonView::Text(document.passport_id@),
            "anchor"@ => JsonView::Object(
                map![
                    "logHead"@ => match document.log.head {
                        Some(head) => JsonView::Text(head@),
                        None => JsonView::Null,
                    },
                    "height"@ => JsonView::Unsigned(document.log.height),
                ],
            ),
        ],
    )
}

/// The link-resolver entry.
fn link_entry_json(document: &Passport) -> (j: Json)
    ensures
        j.view() == link_entry(document),
{
    let mut anchor: Vec<(String, Json)> = Vec::new();
    put(&mut anchor, "logHead", text_or_null(&document.log.head));
    put(&mut anchor, "height", Json::Unsigned(document.log.height));
    let mut members: Vec<(String, Json)> = Vec::new();
    put_text(&mut members, "linkType", "untp-dpp");
    put_text(&mut members, "target", document.resolver_uri.as_str());
    put_text(&mut members, "relationship", "document");
    put_text(&mut members, "id", document.passport_id.as_str());
    put(&mut members, "anchor", Json::Object(anchor));
    Json::Object(members)
}

/// The triad around a verdict.
pub open spec fn triad(p: &GatewayPassport, now: &Timestamp, verdict: JsonView) -> JsonView {
    JsonView::Object(
        map![
            "rendering"@ => JsonView::Object(
                map![
                    "profile"@ => JsonView::Text(UNTP_PROFILE@),
                    "binding"@ => JsonView::Text(
                        "UNTP v0.x passport stub shape (unidpp-py/unidpp/adapters/untp.py)"@,
                    ),
                    "source"@ => JsonView::Text(p.origin.token()),
                    "as_of"@ => JsonView::Text(now.text@),
                ],
            ),
            "passport"@ => passport_credential(p),
            "conformity"@ => JsonView::Array(conformity_credentials(p)),
            "link"@ => link_entry(&p.document),
            "verdict"@ => verdict,
        ],
    )
}

/// Renders the verifiable-credential triad and the verdict on the passport.
pub fn render_triad<S: CryptoSlot>(
    p: &GatewayPassport,
    now: &Timestamp,
    required_freshness: Option<&str>,
    slots: &CryptoSlots<S>,
) -> (j: Json)
    requires
        p.document.event_signatures@.len() + 3 <= usize::MAX,
    ensures
        j.view() == triad(
            p,
            now,
            verdict_on(
                &p.document,
                current_state_view(
                    p.anchors.view(),
                    slots.slots@,
                    opt_text(required_freshness),
                    *now,
                ),
            ).dict(),
        ),
{
    broadcast use lemma_array_view;

    let mut options = VerifyOptions::current_state(&p.anchors, slots, now.clone());
    options.required_freshness = required_freshness;
    let verdict = verify_passport(&p.document, &options);

    let mut rendering: Vec<(String, Json)> = Vec::new();
    put_text(&mut rendering, "profile", UNTP_PROFILE);
    put_text(
        &mut rendering,
        "binding",
        "UNTP v0.x passport stub shape (unidpp-py/unidpp/adapters/untp.py)",
    );
    put_text(&mut rendering, "source", p.origin.as_str());
    put_text(&mut rendering, "as_of", now.text.as_str());
    let mut members: Vec<(String, Json)> = Vec::new();
    put(&mut members, "rendering", Json::Object(rendering));
    put(&mut members, "passport", passport_credential_json(p));
    put(&mut members, "conformity", Json::Array(conformity_credentials_json(p)));
    put(&mut members, "link", link_entry_json(&p.document));
    put(&mut members, "verdict", verdict.to_dict());
    Json::Object(members)
}

// ---------------------------------------------------------------------------
// The import
// ---------------------------------------------------------------------------

/// The texts among the items, in their order.
pub open spec fn text_items(items: Seq<JsonView>) -> Seq<Text>
    decreases items.len(),
{
    if items.len() == 0 {
        Seq::empty()
    } else {
        let before = text_items(items.drop_last());
        match items.last() {
            JsonView::Text(s) => before.push(s),
            _ => before,
        }
    }
}

/// The texts with commas between them.
pub open spec fn comma_joined(parts: Seq<Text>) -> Text
    decreases parts.len(),
{
    if parts.len() == 0 {
        Seq::empty()
    } else if parts.len() == 1 {
        parts[0]
    } else {
        comma_joined(parts.drop_last()) + ","@ + parts.last()
    }
}

/// The `type` member as one text: a stub carries a bare text, a credential
/// an array of them.
pub open spec fn stub_type(stub: JsonView) -> Option<Text> {
    match stub.member("type"@) {
        Some(JsonView::Text(s)) => Some(s),
        Some(JsonView::Array(items)) => Some(comma_joined(text_items(items))),
        _ => None,
    }
}

/// The `type` member as one text.
pub fn stub_type_string(stub: &Json) -> (r: Option<String>)
    ensures
        match r {
            Some(s) => stub_type(stub.view()) == Some(s@),
            None => stub_type(stub.view()) is None,
        },
{
    broadcast use lemma_array_view;

    match stub.get("type") {
        Some(Json::Text(s)) => Some(s.clone()),
        Some(Json::Array(items)) => {
            let n: usize = items.len();
            let ghost all = views(items@);
            let mut joined = String::new();
            let mut first: bool = true;
            let mut i: usize = 0;
            assert(all.take(0) =~= Seq::empty());
            while i < n
                invariant
                    i <= n == items@.len(),
                    all == views(items@),
                    first == (text_items(all.take(i as int)).len() == 0),
                    joined@ == comma_joined(text_items(all.take(i as int))),
                decreases n - i,
            {
                let ghost parts = text_items(all.take(i as int));
                assert(all.take(i + 1).drop_last() =~= all.take(i as int));
                assert(all.take(i + 1).last() == items@[i as int].view());
                match items[i].as_str() {
                    Some(s) => {
                        assert(parts.push(s@).drop_last() =~= parts);
                        if first {
                            joined = s.to_owned();
                        } else {
                            joined.append(",");
                            joined.append(s);
                        }
                        first = false;
                    },
                    None => {},
                }
                i = i + 1;
            }
            assert(all.take(n as int) =~= all);
            Some(joined)
        },
        _ => None,
    }
}

/// The identifier that a stub carries: its value as it stands, its core
/// scheme token and its core display form.
#[derive(Debug, PartialEq)]
pub struct StubIdentifier {
    pub value: String,
    pub scheme: String,
    pub display: String,
}

/// What the identifier of a stub says.
pub struct StubIdentifierView {
    pub value: Text,
    pub scheme: Text,
    pub display: Text,
}

impl StubIdentifier {
    /// What the identifier says.
    pub open spec fn view(&self) -> StubIdentifierView {
        StubIdentifierView {
            value: self.value@,
            scheme: self.scheme@,
            display: self.display@,
        }
    }
}

/// A text, or another where there is none.
pub open spec fn text_or(s: Option<Text>, other: Text) -> Text {
    match s {
        Some(s) => s,
        None => other,
    }
}

/// The identifier that a stub carries, or why it carries none.
pub open spec fn stub_identity(stub: JsonView) -> Result<StubIdentifierView, Text> {
    let kind = text_or(stub_type(stub), "ProductPassport"@);
    if !(stub is Object) {
        Err("stub must be a JSON object"@)
    } else if !holds_text(lower_text(kind), "passport"@) {
        Err("not a passport stub: type="@ + debug_text(kind))
    } else {
        match stub.items_at("productIdentifiers"@) {
            Some(ids) => if ids.len() == 0 || !(ids[0] is Object) {
                Err("stub has no productIdentifiers"@)
            } else {
                match ids[0].text_at("value"@) {
                    Some(value) => if value.len() == 0 {
                        Err("identifier carries no value"@)
                    } else {
                        let scheme = token_of_uri(
                            text_or(ids[0].text_at("scheme"@), "https://gs1.org/voc/"@),
                        );
                        Ok(
                            StubIdentifierView {
                                value,
                                scheme,
                                display: core_value(scheme, value),
                            },
                        )
                    },
                    None => Err("identifier carries no value"@),
                }
            },
            None => Err("stub has no productIdentifiers"@),
        }
    }
}

/// The identifier that a stub carries, whose display form is to be read as a
/// product identity, or why it carries none.
pub fn stub_identifier(stub: &Json) -> (r: Result<StubIdentifier, String>)
    ensures
        match r {
            Ok(id) => stub_identity(stub.view()) == Ok::<StubIdentifierView, Text>(id.view()),
            Err(e) => stub_identity(stub.view()) == Err::<StubIdentifierView, Text>(e@),
        },
{
    if !stub.is_object() {
        return Err("stub must be a JSON object".to_owned());
    }
    let kind = match stub_type_string(stub) {
        Some(kind) => kind,
        None => "ProductPassport".to_owned(),
    };
    if !contains_text(kind.as_str().to_lowercase().as_str(), "passport") {
        return Err("not a passport stub: type=".to_owned().concat(quoted(kind.as_str()).as_str()));
    }
    let ids = match stub.array_at("productIdentifiers") {
        Some(ids) => ids,
        None => {
            return Err("stub has no productIdentifiers".to_owned());
        },
    };
    if ids.len() == 0 || !ids[0].is_object() {
        return Err("stub has no productIdentifiers".to_owned());
    }
    let raw = &ids[0];
    let value = match raw.str_at("value") {
        Some(value) => value,
        None => {
            return Err("identifier carries no value".to_owned());
        },
    };
    if value.is_empty() {
        return Err("identifier carries no value".to_owned());
    }
    let uri = match raw.str_at("scheme") {
        Some(uri) => uri,
        None => "https://gs1.org/voc/",
    };
    let scheme = scheme_token(uri);
    let display = core_identifier_value(scheme.as_str(), value);
    Ok(StubIdentifier { value: value.to_owned(), scheme, display })
}

/// The profile binding that a conformance entry makes in a manifest.
pub open spec fn manifest_profile(entry: JsonView, valid_from: Text) -> JsonView {
    let version = match entry.member("conformanceVersion"@) {
        Some(v) => v.as_text(),
        None => entry.text_at("version"@),
    };
    JsonView::Object(
        map![
            "profileId"@ => JsonView::Text(
                text_or(entry.text_at("standard"@), "urn:unidpp:profile:untp"@),
            ),
            "version"@ => JsonView::Text(text_or(version, "0"@)),
            "effective"@ => JsonView::Object(map!["from"@ => JsonView::Text(valid_from)]),
        ],
    )
}

/// The profile bindings that conformance entries make; entries that are no
/// object are skipped.
pub open spec fn manifest_profiles(entries: Seq<JsonView>, valid_from: Text) -> Seq<JsonView>
    decreases entries.len(),
{
    if entries.len() == 0 {
        Seq::empty()
    } else {
        let before = manifest_profiles(entries.drop_last(), valid_from);
        if entries.last() is Object {
            before.push(manifest_profile(entries.last(), valid_from))
        } else {
            before
        }
    }
}

/// The profile binding that a conformance entry makes in a manifest.
fn manifest_profile_json(entry: &Json, valid_from: &str) -> (j: Json)
    ensures
        j.view() == manifest_profile(entry.view(), valid_from@),
{
    let version = match entry.get("conformanceVersion") {
        Some(v) => v.as_str(),
        None => entry.str_at("version"),
    };
    let version = match version {
        Some(v) => v,
        None => "0",
    };
    let profile_id = match entry.str_at("standard") {
        Some(id) => id,
        None => "urn:unidpp:profile:untp",
    };
    let mut effective: Vec<(String, Json)> = Vec::new();
    put_text(&mut effective, "from", valid_from);
    let mut members: Vec<(String, Json)> = Vec::new();
    put_text(&mut members, "profileId", profile_id);
    put_text(&mut members, "version", version);
    put(&mut members, "effective", Json::Object(effective));
    Json::Object(members)
}

/// The profile bindings that a stub makes.
fn manifest_profiles_json(stub: &Json, valid_from: &str) -> (r: Vec<Json>)
    ensures
        views(r@) == (match stub.view().items_at("standardsConformance"@) {
            Some(entries) => manifest_profiles(entries, valid_from@),
            None => Seq::empty(),
        }),
{
    let mut profiles: Vec<Json> = Vec::new();
    assert(views(profiles@) =~= Seq::empty());
    let entries = match stub.array_at("standardsConformance") {
        Some(entries) => entries,
        None => {
            return profiles;
        },
    };
    let n: usize = entries.len();
    let ghost all = views(entries@);
    assert(all.take(0) =~= Seq::empty());
    let mut i: usize = 0;
    while i < n
        invariant
            i <= n == entries@.len(),
            all == views(entries@),
            views(profiles@) == manifest_profiles(all.take(i as int), valid_from@),
        decreases n - i,
    {
        let ghost before = profiles@;
        assert(all.take(i + 1).drop_last() =~= all.take(i as int));
        assert(all.take(i + 1).last() == entries@[i as int].view());
        if entries[i].is_object() {
            let profile = manifest_profile_json(&entries[i], valid_from);
            profiles.push(profile);
            assert(views(profiles@) =~= views(before).push(profile.view()));
        }
        i = i + 1;
    }
    assert(all.take(n as int) =~= all);
    profiles
}

/// An identity of a manifest.
pub open spec fn manifest_identity(scheme: Text, value: Text, granularity: Text) -> JsonView {
    JsonView::Object(
        map![
            "scheme"@ => JsonView::Text(scheme),
            "value"@ => JsonView::Text(value),
            "granularity"@ => JsonView::Text(granularity),
            "state"@ => JsonView::Text("live"@),
        ],
    )
}

/// An identity of a manifest.
fn manifest_identity_json(scheme: &str, value: &str, granularity: &str) -> (j: Json)
    ensures
        j.view() == manifest_identity(scheme@, value@, granularity@),
{
    let mut members: Vec<(String, Json)> = Vec::new();
    put_text(&mut members, "scheme", scheme);
    put_text(&mut members, "value", value);
    put_text(&mut members, "granularity", granularity);
    put_text(&mut members, "state", "live");
    Json::Object(members)
}

/// Where the event log of an imported stub is: the stub's own id, or an
/// import URN over the subject.
pub open spec fn stub_log_uri(stub: JsonView, subject: ProductIdentifier) -> Text {
    match stub.text_at("id"@) {
        Some(id) => if id.len() > 0 {
            id
        } else {
            "urn:unidpp:import:"@ + subject.display@
        },
        None => "urn:unidpp:import:"@ + subject.display@,
    }
}

/// The manifest of a stub whose identifier and subject are known. The
/// passport id is minted over the slug of the stub's identifier value; the
/// stub's own id is where its event log is.
pub open spec fn manifest(
    stub: JsonView,
    as_of: Text,
    id: StubIdentifierView,
    subject: ProductIdentifier,
    commitment: Text,
) -> JsonView {
    let valid_from = text_or(stub.text_at("validFrom"@), as_of);
    let granularity = subject.granularity.token();
    JsonView::Object(
        map![
            "passportId"@ => manifest_identity(
                id.scheme,
                "urn:iso:std:iso-iec:15459:unidpp:passport:"@ + slugged(id.value),
                granularity,
            ),
            "subjectId"@ => manifest_identity(id.scheme, subject.display@, granularity),
            "status"@ => JsonView::Text("active"@),
            "profiles"@ => JsonView::Array(
                match stub.items_at("standardsConformance"@) {
                    Some(entries) => manifest_profiles(entries, valid_from),
                    None => Seq::empty(),
                },
            ),
            "children"@ => JsonView::Array(Seq::empty()),
            "eventLog"@ => JsonView::Object(
                map![
                    "logUri"@ => JsonView::Text(stub_log_uri(stub, subject)),
                    "commitment"@ => JsonView::Text(commitment),
                    "height"@ => JsonView::Unsigned(0),
                ],
            ),
            "capabilityClass"@ => JsonView::Text("S0"@),
            "asOf"@ => JsonView::Text(as_of),
        ],
    )
}

/// What the core reads of an identifier: a product identity or a complaint.
pub open spec fn subject_reading(
    subject: Result<ProductIdentifier, String>,
) -> Result<ProductIdentifier, Text> {
    match subject {
        Ok(id) => Ok(id),
        Err(e) => Err(e@),
    }
}

/// The manifest that a stub denotes, or why it denotes none.
pub open spec fn stub_manifest(
    stub: JsonView,
    as_of: Text,
    subject: Result<ProductIdentifier, Text>,
    commitment: Text,
) -> Result<JsonView, Text> {
    match stub_identity(stub) {
        Err(e) => Err(e),
        Ok(id) => match subject {
            Err(e) => Err(e),
            Ok(subject) => match stub.member("passportIssuer"@) {
                Some(issuer) => if issuer is Object {
                    Ok(manifest(stub, as_of, id, subject, commitment))
                } else {
                    Err("passportIssuer must be an object"@)
                },
                None => Ok(manifest(stub, as_of, id, subject, commitment)),
            },
        },
    }
}

/// What the commitment of an import receipt digests: the stub itself, under the
/// salt of imports.
pub fn stub_commitment_material(stub: &Json) -> (r: String)
    requires
        stub.plain(),
    ensures
        r@ == material(stub.view(), "untp-import"@),
{
    commitment_material(stub, "untp-import")
}

/// Reads a UNTP passport stub into the neutral-core manifest shape.
///
/// `subject` is what the core reads of the stub's identifier (see
/// [`stub_identifier`]); `commitment` is the core's digest of
/// [`stub_commitment_material`], an import receipt.
pub fn parse_stub(
    stub: &Json,
    as_of: &str,
    subject: &Result<ProductIdentifier, String>,
    commitment: &str,
) -> (r: Result<Json, String>)
    ensures
        match r {
            Ok(j) => stub_manifest(stub.view(), as_of@, subject_reading(*subject), commitment@)
                == Ok::<JsonView, Text>(j.view()),
            Err(e) => stub_manifest(stub.view(), as_of@, subject_reading(*subject), commitment@)
                == Err::<JsonView, Text>(e@),
        },
{
    broadcast use lemma_array_view;

    let id = match stub_identifier(stub) {
        Ok(id) => id,
        Err(e) => {
            return Err(e);
        },
    };
    let subject = match subject {
        Ok(subject) => subject,
        Err(e) => {
            return Err(e.clone());
        },
    };
    match stub.get("passportIssuer") {
        Some(issuer) => if !issuer.is_object() {
            return Err("passportIssuer must be an object".to_owned());
        },
        None => {},
    }
    let import_id = "urn:unidpp:import:".to_owned().concat(subject.display.as_str());
    let log_uri = match stub.str_at("id") {
        Some(stub_id) => if stub_id.is_empty() {
            import_id.as_str()
        } else {
            stub_id
        },
        None => import_id.as_str(),
    };
    let valid_from = match stub.str_at("validFrom") {
        Some(from) => from,
        None => as_of,
    };
    let granularity = subject.granularity.as_str();
    let minted = "urn:iso:std:iso-iec:15459:unidpp:passport:".to_owned().concat(
        slug(id.value.as_str()).as_str(),
    );
    let mut event_log: Vec<(String, Json)> = Vec::new();
    put_text(&mut event_log, "logUri", log_uri);
    put_text(&mut event_log, "commitment", commitment);
    put(&mut event_log, "height", Json::Unsigned(0));
    let children: Vec<Json> = Vec::new();
    assert(views(children@) =~= Seq::empty());
    let mut members: Vec<(String, Json)> = Vec::new();
    put(
        &mut members,
        "passportId",
        manifest_identity_json(id.scheme.as_str(), minted.as_str(), granularity),
    );
    put(
        &mut members,
        "subjectId",
        manifest_identity_json(id.scheme.as_str(), subject.display.as_str(), granularity),
    );
    put_text(&mut members, "status", "active");
    put(&mut members, "profiles", Json::Array(manifest_profiles_json(stub, valid_from)));
    put(&mut members, "children", Json::Array(children));
    put(&mut members, "eventLog", Json::Object(event_log));
    put_text(&mut members, "capabilityClass", "S0");
    put_text(&mut members, "asOf", as_of);
    Ok(Json::Object(members))
}

// ---------------------------------------------------------------------------
// Laws
// ---------------------------------------------------------------------------

/// The scheme URIs and tokens are pairwise different texts, as far as the
/// mapping tells them apart.
proof fn lemma_scheme_literals()
    ensures
        "https://unidpp.org/id/"@ != "https://gs1.org/voc/"@,
        "https://unidpp.org/id/"@ != "https://id.gs1.org/"@,
        "https://unidpp.org/id/"@ != "https://ref.gs1.org/"@,
        "https://unidpp.org/id/"@ != "urn:epc:id:"@,
        "cpid"@ != "gtin"@,
{
    reveal_strlit("https://unidpp.org/id/");
    reveal_strlit("https://gs1.org/voc/");
    reveal_strlit("https://id.gs1.org/");
    reveal_strlit("https://ref.gs1.org/");
    reveal_strlit("urn:epc:id:");
    reveal_strlit("cpid");
    reveal_strlit("gtin");
    assert("https://unidpp.org/id/"@.len() == 22);
    assert("https://gs1.org/voc/"@.len() == 20);
    assert("https://id.gs1.org/"@.len() == 19);
    assert("https://ref.gs1.org/"@.len() == 20);
    assert("urn:epc:id:"@.len() == 11);
    assert("cpid"@[0] == 'c' && "gtin"@[0] == 'g');
}

/// The scheme mapping goes both ways: a scheme's URI maps back to the token
/// of its family, and any other token that is not itself a mapped URI stands
/// for itself in both directions.
pub proof fn law_schemes_round_trip(scheme: IdScheme)
    ensures
        match scheme {
            IdScheme::Gtin | IdScheme::Sgtin | IdScheme::Gsrn | IdScheme::Gln => token_of_uri(
                uri_of_scheme(scheme),
            ) == "gtin"@,
            IdScheme::Cpid => token_of_uri(uri_of_scheme(scheme)) == "cpid"@,
            IdScheme::Other(token) => !is_gs1_uri(token@) && !is_15459_uri(token@)
                ==> token_of_uri(uri_of_scheme(scheme)) == token@,
        },
{
    lemma_scheme_literals();
}

/// Replacing leaves a part alone that the pattern cannot start in.
proof fn lemma_replace_behind(a: Text, b: Text, from: Text, to: Text)
    requires
        from.len() > 0,
        !a.contains(from[0]),
    ensures
        replaced(a + b, from, to) == a + replaced(b, from, to),
    decreases a.len(),
{
    if a.len() == 0 {
        assert(a + b =~= b);
        assert(a + replaced(b, from, to) =~= replaced(b, from, to));
    } else {
        let s = a + b;
        assert(s[0] == a[0]);
        assert(a.contains(a[0]));
        if starts_with(s, from) {
            assert(s.take(from.len() as int)[0] == from[0]);
        }
        let rest = a.skip(1);
        assert(!rest.contains(from[0])) by {
            if rest.contains(from[0]) {
                let k = choose|k: int| 0 <= k < rest.len() && rest[k] == from[0];
                assert(a[k + 1] == from[0]);
            }
        }
        lemma_replace_behind(rest, b, from, to);
        assert(s.skip(1) =~= rest + b);
        assert(seq![s[0]] + (rest + replaced(b, from, to)) =~= a + replaced(b, from, to));
    }
}

/// Replacing leaves a text alone that the pattern cannot start in.
proof fn lemma_replace_nothing(a: Text, from: Text, to: Text)
    requires
        from.len() > 0,
        !a.contains(from[0]),
    ensures
        replaced(a, from, to) == a,
{
    lemma_replace_behind(a, Seq::empty(), from, to);
    assert(a + Seq::<char>::empty() =~= a);
}

/// Replacing a pattern that stands at the front.
proof fn lemma_replace_front(b: Text, from: Text, to: Text)
    requires
        from.len() > 0,
    ensures
        replaced(from + b, from, to) == to + replaced(b, from, to),
{
    let s = from + b;
    assert(s.take(from.len() as int) =~= from);
    assert(s.skip(from.len() as int) =~= b);
}

/// The core display form of a GTIN identity: element strings with `+`.
pub open spec fn gs1_display(id: &ProductIdentifier) -> Text {
    "01+"@ + id.key@ + prefixed("+10+"@, id.lot) + prefixed("+21+"@, id.serial)
}

/// Whether no part of the identity holds an opening parenthesis, which the
/// parenthesized form could not tell from an application identifier.
pub open spec fn has_plain_parts(id: &ProductIdentifier) -> bool {
    &&& !id.key@.contains('(')
    &&& id.lot matches Some(lot) ==> !lot@.contains('(')
    &&& id.serial matches Some(serial) ==> !serial@.contains('(')
}

/// A concatenation holds a character where one of its parts does.
proof fn lemma_concat_contains(a: Text, b: Text, c: char)
    ensures
        (a + b).contains(c) == (a.contains(c) || b.contains(c)),
{
    if a.contains(c) {
        let k = choose|k: int| 0 <= k < a.len() && a[k] == c;
        assert((a + b)[k] == c);
    }
    if b.contains(c) {
        let k = choose|k: int| 0 <= k < b.len() && b[k] == c;
        assert((a + b)[a.len() + k] == c);
    }
    if (a + b).contains(c) {
        let k = choose|k: int| 0 <= k < (a + b).len() && (a + b)[k] == c;
        if k < a.len() {
            assert(a[k] == c);
        } else {
            assert(b[k - a.len()] == c);
        }
    }
}

/// The parenthesized form of a GTIN identity reads back as its core display
/// form.
pub proof fn law_gs1_values_round_trip(id: &ProductIdentifier, scheme: Text)
    requires
        id.gs1_keyed(),
        has_plain_parts(id),
    ensures
        core_value(scheme, untp_value(id)) == gs1_display(id),
{
    reveal_strlit("(01)");
    reveal_strlit("(10)");
    reveal_strlit("(21)");
    reveal_strlit("01+");
    reveal_strlit("+10+");
    reveal_strlit("+21+");
    let key = id.key@;
    let lot = prefixed("(10)"@, id.lot);
    let serial = prefixed("(21)"@, id.serial);
    let head = "01+"@ + key;
    let value = untp_value(id);
    assert(value.take(4) =~= "(01)"@);
    assert("01+"@ + value.skip(4) =~= head + (lot + serial));
    lemma_concat_contains("01+"@, key, '(');
    assert(!"01+"@.contains('('));
    assert(!head.contains('('));

    // The first replacement turns the lot's application identifier.
    let lot_core = prefixed("+10+"@, id.lot);
    assert(replaced(lot + serial, "(10)"@, "+10+"@) == lot_core + serial) by {
        assert(replaced(serial, "(10)"@, "+10+"@) == serial) by {
            match id.serial {
                Some(text) => {
                    let tail = serial.skip(1);
                    assert(tail =~= seq!['2', '1', ')'] + text@);
                    lemma_concat_contains(seq!['2', '1', ')'], text@, '(');
                    assert(!seq!['2', '1', ')'].contains('('));
                    lemma_replace_nothing(tail, "(10)"@, "+10+"@);
                    assert(serial[1] == '2');
                    if starts_with(serial, "(10)"@) {
                        assert(serial.take(4)[1] == '1');
                    }
                    assert(seq![serial[0]] + tail =~= serial);
                },
                None => {},
            }
        }
        match id.lot {
            Some(text) => {
                assert(lot + serial =~= "(10)"@ + (text@ + serial));
                lemma_replace_front(text@ + serial, "(10)"@, "+10+"@);
                lemma_replace_behind(text@, serial, "(10)"@, "+10+"@);
                assert("+10+"@ + (text@ + serial) =~= lot_core + serial);
            },
            None => {
                assert(lot + serial =~= serial);
                assert(lot_core + serial =~= serial);
            },
        }
    }
    lemma_replace_behind(head, lot + serial, "(10)"@, "+10+"@);
    let middle = head + (lot_core + serial);
    assert(middle =~= (head + lot_core) + serial);

    // The second one turns the serial's.
    let serial_core = prefixed("+21+"@, id.serial);
    lemma_concat_contains(head, lot_core, '(');
    assert(!lot_core.contains('(')) by {
        match id.lot {
            Some(text) => {
                lemma_concat_contains("+10+"@, text@, '(');
                assert(!"+10+"@.contains('('));
            },
            None => {},
        }
    }
    lemma_replace_behind(head + lot_core, serial, "(21)"@, "+21+"@);
    assert(replaced(serial, "(21)"@, "+21+"@) == serial_core) by {
        match id.serial {
            Some(text) => {
                lemma_replace_front(text@, "(21)"@, "+21+"@);
                lemma_replace_nothing(text@, "(21)"@, "+21+"@);
            },
            None => {},
        }
    }
}

/// The member names of a rendered passport are pairwise different texts.
proof fn lemma_credential_names()
    ensures
        "@context"@.len() == 8,
        "type"@.len() == 4,
        "id"@.len() == 2,
        "issuer"@.len() == 6,
        "validFrom"@.len() == 9,
        "productIdentifiers"@.len() == 18,
        "passportIssuer"@.len() == 14,
        "standardsConformance"@.len() == 20,
        "validUntil"@.len() == 10,
        "scheme"@.len() == 6,
        "value"@.len() == 5,
        "standard"@.len() == 8,
        "conformanceVersion"@.len() == 18,
        "effectiveFrom"@.len() == 13,
{
    reveal_strlit("@context");
    reveal_strlit("type");
    reveal_strlit("id");
    reveal_strlit("issuer");
    reveal_strlit("validFrom");
    reveal_strlit("productIdentifiers");
    reveal_strlit("passportIssuer");
    reveal_strlit("standardsConformance");
    reveal_strlit("validUntil");
    reveal_strlit("scheme");
    reveal_strlit("value");
    reveal_strlit("standard");
    reveal_strlit("conformanceVersion");
    reveal_strlit("effectiveFrom");
}

/// The types of a rendered passport name a passport.
proof fn lemma_passport_type(p: &GatewayPassport)
    ensures
        stub_type(passport_credential(p)) == Some(
            "VerifiableCredential"@ + ","@ + "DigitalProductPassport"@,
        ),
        holds_text(
            lower_text("VerifiableCredential"@ + ","@ + "DigitalProductPassport"@),
            "passport"@,
        ),
{
    lemma_credential_names();
    let a = JsonView::Text("VerifiableCredential"@);
    let b = JsonView::Text("DigitalProductPassport"@);
    let items = seq![a, b];
    assert(items.drop_last() =~= seq![a]);
    assert(seq![a].drop_last() =~= Seq::empty());
    reveal_with_fuel(text_items, 3);
    reveal_with_fuel(comma_joined, 3);
    let parts = text_items(items);
    assert(parts =~= seq!["VerifiableCredential"@, "DigitalProductPassport"@]);
    assert(parts.drop_last() =~= seq!["VerifiableCredential"@]);

    reveal_strlit("VerifiableCredential");
    reveal_strlit(",");
    reveal_strlit("DigitalProductPassport");
    reveal_strlit("passport");
    let s = "VerifiableCredential"@ + ","@ + "DigitalProductPassport"@;
    assert(s.len() == 43);
    assert(is_ascii_text(s)) by {
        assert forall|i: int| 0 <= i < s.len() implies is_ascii_char(#[trigger] s[i]) by {
            if i < 20 {
                assert(s[i] == "VerifiableCredential"@[i]);
                lemma_ascii_prefix(i);
            } else if i == 20 {
                assert(s[i] == ',');
            } else {
                assert(s[i] == "DigitalProductPassport"@[i - 21]);
                lemma_ascii_suffix(i - 21);
            }
        }
    }
    let low = lower_text(s);
    let found = low.subrange(35, 43);
    assert(s[35] == 'P' && s[36] == 'a' && s[37] == 's' && s[38] == 's' && s[39] == 'p' && s[40]
        == 'o' && s[41] == 'r' && s[42] == 't');
    assert(found =~= "passport"@);
    assert(low.subrange(35, 35int + "passport"@.len()) == "passport"@);
}

proof fn lemma_ascii_prefix(i: int)
    requires
        0 <= i < 20,
    ensures
        is_ascii_char("VerifiableCredential"@[i]),
{
    reveal_strlit("VerifiableCredential");
    assert(i == 0 || i == 1 || i == 2 || i == 3 || i == 4 || i == 5 || i == 6 || i == 7 || i == 8
        || i == 9 || i == 10 || i == 11 || i == 12 || i == 13 || i == 14 || i == 15 || i == 16 || i
        == 17 || i == 18 || i == 19);
}

proof fn lemma_ascii_suffix(i: int)
    requires
        0 <= i < 22,
    ensures
        is_ascii_char("DigitalProductPassport"@[i]),
{
    reveal_strlit("DigitalProductPassport");
    assert(i == 0 || i == 1 || i == 2 || i == 3 || i == 4 || i == 5 || i == 6 || i == 7 || i == 8
        || i == 9 || i == 10 || i == 11 || i == 12 || i == 13 || i == 14 || i == 15 || i == 16 || i
        == 17 || i == 18 || i == 19 || i == 20 || i == 21);
}

/// A rendered passport carries the identifier of its subject: in the UNTP
/// form as the value, and under the token of its scheme's URI.
pub proof fn law_rendered_identity(p: &GatewayPassport)
    requires
        untp_value(&p.document.product_id).len() > 0,
    ensures
        stub_identity(passport_credential(p)) == Ok::<StubIdentifierView, Text>(
            StubIdentifierView {
                value: untp_value(&p.document.product_id),
                scheme: token_of_uri(uri_of_scheme(p.document.product_id.scheme)),
                display: core_value(
                    token_of_uri(uri_of_scheme(p.document.product_id.scheme)),
                    untp_value(&p.document.product_id),
                ),
            },
        ),
{
    lemma_credential_names();
    lemma_passport_type(p);
    let ids = passport_credential(p).items_at("productIdentifiers"@).unwrap();
    assert(ids.len() == 1);
    assert(ids[0].text_at("value"@) == Some(untp_value(&p.document.product_id)));
    assert(ids[0].text_at("scheme"@) == Some(uri_of_scheme(p.document.product_id.scheme)));
}

/// The display form that a rendered passport's identifier reads back to is
/// the subject's own: for a GTIN whose parts hold no parenthesis, and for an
/// ISO/IEC 15459 identity that is not itself in the parenthesized form.
pub proof fn law_rendered_identity_reads_back(p: &GatewayPassport)
    requires
        untp_value(&p.document.product_id).len() > 0,
        p.document.product_id.gs1_keyed() || p.document.product_id.scheme is Cpid,
        p.document.product_id.gs1_keyed() ==> has_plain_parts(&p.document.product_id)
            && p.document.product_id.display@ == gs1_display(&p.document.product_id),
        p.document.product_id.scheme is Cpid ==> !starts_with(
            p.document.product_id.display@,
            "(01)"@,
        ),
    ensures
        stub_identity(passport_credential(p)) matches Ok(id) && id.display
            == p.document.product_id.display@,
{
    law_rendered_identity(p);
    lemma_scheme_literals();
    if p.document.product_id.gs1_keyed() {
        law_gs1_values_round_trip(
            &p.document.product_id,
            token_of_uri(uri_of_scheme(p.document.product_id.scheme)),
        );
    }
}

/// The manifest profiles of rendered conformance entries pin the passport's
/// profiles, in their order.
proof fn lemma_rendered_profiles(p: &GatewayPassport, n: int, valid_from: Text)
    requires
        0 <= n <= p.profiles@.len(),
    ensures
        ({
            let bound = manifest_profiles(conformance_entries(p).take(n), valid_from);
            &&& bound.len() == n
            &&& forall|i: int|
                0 <= i < n ==> (#[trigger] bound[i]).text_at("profileId"@) == Some(
                    p.profiles@[i].id@,
                ) && bound[i].text_at("version"@) == Some(p.profiles@[i].version@)
        }),
    decreases n,
{
    let entries = conformance_entries(p);
    if n == 0 {
        assert(entries.take(0) =~= Seq::empty());
    } else {
        lemma_rendered_profiles(p, n - 1, valid_from);
        lemma_credential_names();
        reveal_strlit("profileId");
        reveal_strlit("version");
        reveal_strlit("effective");
        assert("profileId"@[0] == 'p' && "effective"@[0] == 'e');
        assert("version"@.len() == 7);
        assert(entries.take(n).drop_last() =~= entries.take(n - 1));
        let entry = conformance_entry(&p.document, p.profiles@[n - 1]);
        assert(entries.take(n).last() == entry);
        assert(entry.member("conformanceVersion"@) == Some(
            JsonView::Text(p.profiles@[n - 1].version@),
        ));
        assert(entry.text_at("standard"@) == Some(p.profiles@[n - 1].id@));
        let last = manifest_profile(entry, valid_from);
        assert(last.text_at("profileId"@) == Some(p.profiles@[n - 1].id@));
        assert(last.text_at("version"@) == Some(p.profiles@[n - 1].version@));
    }
}

/// A rendered passport parses: the manifest's subject is the one that the
/// core read, its log is where the passport is, it carries the commitment,
/// and it pins the passport's profiles in their order.
pub proof fn law_render_then_parse(
    p: &GatewayPassport,
    as_of: Text,
    subject: ProductIdentifier,
    commitment: Text,
)
    requires
        untp_value(&p.document.product_id).len() > 0,
        p.document.passport_id@.len() > 0,
    ensures
        ({
            let parsed = stub_manifest(passport_credential(p), as_of, Ok(subject), commitment);
            &&& parsed is Ok
            &&& parsed->Ok_0.member("subjectId"@) matches Some(id) && id.text_at("value"@) == Some(
                subject.display@,
            )
            &&& parsed->Ok_0.member("passportId"@) matches Some(id) && id.text_at("value"@) == Some(
                "urn:iso:std:iso-iec:15459:unidpp:passport:"@ + slugged(
                    untp_value(&p.document.product_id),
                ),
            )
            &&& parsed->Ok_0.member("eventLog"@) matches Some(log) && log.text_at("logUri"@) == Some(
                p.document.passport_id@,
            ) && log.text_at("commitment"@) == Some(commitment)
            &&& parsed->Ok_0.items_at("profiles"@) matches Some(profiles) && profiles.len()
                == p.profiles@.len() && (forall|i: int|
                0 <= i < profiles.len() ==> (#[trigger] profiles[i]).text_at("profileId"@) == Some(
                    p.profiles@[i].id@,
                ) && profiles[i].text_at("version"@) == Some(p.profiles@[i].version@))
        }),
{
    law_rendered_identity(p);
    lemma_credential_names();
    let stub = passport_credential(p);
    let id = stub_identity(stub)->Ok_0;
    assert(stub.member("passportIssuer"@) == Some(party(p.document.eo_id@)));
    assert(stub.text_at("id"@) == Some(p.document.passport_id@));
    assert(stub.items_at("standardsConformance"@) == Some(conformance_entries(p)));
    assert(stub.text_at("validFrom"@) == Some(p.document.validity.from.text@));
    lemma_rendered_profiles(p, p.profiles@.len() as int, p.document.validity.from.text@);
    assert(conformance_entries(p).take(p.profiles@.len() as int) =~= conformance_entries(p));
    let m = manifest(stub, as_of, id, subject, commitment);
    assert(stub_manifest(stub, as_of, Ok(subject), commitment) == Ok::<JsonView, Text>(m));
    lemma_manifest_names();
    assert(m.member("subjectId"@).unwrap().text_at("value"@) == Some(subject.display@));
    assert(m.member("eventLog"@).unwrap().text_at("logUri"@) == Some(p.document.passport_id@));
}

/// The member names of a manifest are pairwise different texts.
proof fn lemma_manifest_names()
    ensures
        "passportId"@.len() == 10,
        "subjectId"@.len() == 9,
        "status"@.len() == 6,
        "profiles"@.len() == 8 && "profiles"@[0] == 'p',
        "children"@.len() == 8 && "children"@[0] == 'c',
        "eventLog"@.len() == 8 && "eventLog"@[0] == 'e',
        "capabilityClass"@.len() == 15,
        "asOf"@.len() == 4,
        "scheme"@.len() == 6,
        "value"@.len() == 5 && "value"@[0] == 'v',
        "granularity"@.len() == 11,
        "state"@.len() == 5 && "state"@[0] == 's',
        "logUri"@.len() == 6 && "logUri"@[0] == 'l',
        "commitment"@.len() == 10,
        "height"@.len() == 6 && "height"@[0] == 'h',
{
    reveal_strlit("passportId");
    reveal_strlit("subjectId");
    reveal_strlit("status");
    reveal_strlit("profiles");
    reveal_strlit("children");
    reveal_strlit("eventLog");
    reveal_strlit("capabilityClass");
    reveal_strlit("asOf");
    reveal_strlit("scheme");
    reveal_strlit("value");
    reveal_strlit("granularity");
    reveal_strlit("state");
    reveal_strlit("logUri");
    reveal_strlit("commitment");
    reveal_strlit("height");
}

/// The member names of a triad, told apart.
proof fn lemma_triad_members()
    ensures
        "rendering"@.len() == 9,
        "passport"@.len() == 8,
        "conformity"@.len() == 10,
        "link"@.len() == 4,
        "verdict"@.len() == 7,
        "profile"@.len() == 7,
        "binding"@.len() == 7 && "binding"@[0] == 'b' && "profile"@[0] == 'p',
        "source"@.len() == 6,
        "as_of"@.len() == 5,
        "linkType"@.len() == 8,
        "target"@.len() == 6 && "target"@[0] == 't',
        "relationship"@.len() == 12,
        "anchor"@.len() == 6 && "anchor"@[0] == 'a',
        "logHead"@.len() == 7,
        "height"@.len() == 6,
        "name"@.len() == 4,
        "credentialSubject"@.len() == 17,
        "assessmentLevel"@.len() == 15 && "assessmentLevel"@[0] == 'a',
        "criteria"@.len() == 8,
        "mode"@.len() == 4 && "mode"@[0] == 'm' && "type"@[0] == 't',
        "stateCommitment"@.len() == 15 && "stateCommitment"@[0] == 's',
        "logAnchoredAt"@.len() == 13,
        "version"@.len() == 7,
{
    reveal_strlit("rendering");
    reveal_strlit("passport");
    reveal_strlit("conformity");
    reveal_strlit("link");
    reveal_strlit("verdict");
    reveal_strlit("profile");
    reveal_strlit("binding");
    reveal_strlit("source");
    reveal_strlit("as_of");
    reveal_strlit("linkType");
    reveal_strlit("target");
    reveal_strlit("relationship");
    reveal_strlit("anchor");
    reveal_strlit("logHead");
    reveal_strlit("height");
    reveal_strlit("name");
    reveal_strlit("credentialSubject");
    reveal_strlit("assessmentLevel");
    reveal_strlit("criteria");
    reveal_strlit("mode");
    reveal_strlit("type");
    reveal_strlit("stateCommitment");
    reveal_strlit("logAnchoredAt");
    reveal_strlit("version");
}

/// Whether the document is a party of that id: it goes by it in id and name.
pub open spec fn is_party(document: Option<JsonView>, id: Text) -> bool {
    document matches Some(d) && d.text_at("id"@) == Some(id) && d.text_at("name"@) == Some(id)
}

/// One party stands behind a rendered passport: the issuer of the passport
/// credential is its passport issuer, both are the document's economic
/// operator, and so is the issuer of each profile's conformity credential.
pub proof fn law_the_operator_issues(p: &GatewayPassport, now: &Timestamp, verdict: JsonView, i: int)
    ensures
        triad(p, now, verdict).member("passport"@) matches Some(credential) && credential.member(
            "issuer"@,
        ) == credential.member("passportIssuer"@) && is_party(
            credential.member("issuer"@),
            p.document.eo_id@,
        ),
        triad(p, now, verdict).items_at("conformity"@) matches Some(credentials)
            && credentials.len() >= p.profiles@.len() && (0 <= i < p.profiles@.len() ==> is_party(
            credentials[i].member("issuer"@),
            p.document.eo_id@,
        )),
{
    lemma_credential_names();
    lemma_triad_members();
    let credentials = triad(p, now, verdict).items_at("conformity"@).unwrap();
    if 0 <= i < p.profiles@.len() {
        assert(credentials[i] == profile_credential(&p.document, p.profiles@[i]));
    }
}

/// A triad is about one passport: its passport credential, its link and the
/// ids of its conformity credentials carry the document's passport id, the
/// credential holds for the document's validity window, names its product as
/// its only identifier, and the link serves the document's log at its height.
/// The rendering says where the passport came from and when it was rendered.
pub proof fn law_a_triad_is_about_its_passport(p: &GatewayPassport, now: &Timestamp, verdict: JsonView)
    ensures
        triad(p, now, verdict).member("verdict"@) == Some(verdict),
        triad(p, now, verdict).member("passport"@) matches Some(c) && {
            &&& c.text_at("id"@) == Some(p.document.passport_id@)
            &&& c.text_at("validFrom"@) == Some(p.document.validity.from.text@)
            &&& c.text_at("validUntil"@) == (match p.document.validity.to {
                Some(to) => Some(to.text@),
                None => None,
            })
            &&& c.member("validUntil"@) is Some <==> p.document.validity.to is Some
            &&& c.items_at("type"@) matches Some(types) && types.len() == 2 && types[0]
                == JsonView::Text("VerifiableCredential"@) && types[1] == JsonView::Text(
                "DigitalProductPassport"@,
            )
            &&& c.items_at("@context"@) matches Some(uris) && uris.len() == 2 && uris[0]
                == JsonView::Text("https://www.w3.org/ns/credentials/v2"@) && uris[1]
                == JsonView::Text("https://ref.gs1.org/gs1/voc/"@)
            &&& c.items_at("productIdentifiers"@) matches Some(ids) && ids.len() == 1
                && ids[0].text_at("scheme"@) == Some(uri_of_scheme(p.document.product_id.scheme))
                && ids[0].text_at("value"@) == Some(untp_value(&p.document.product_id))
            &&& c.items_at("standardsConformance"@) matches Some(entries) && entries.len()
                == p.profiles@.len()
        },
        triad(p, now, verdict).member("link"@) matches Some(l) && {
            &&& l.text_at("id"@) == Some(p.document.passport_id@)
            &&& l.text_at("target"@) == Some(p.document.resolver_uri@)
            &&& l.text_at("linkType"@) == Some("untp-dpp"@)
            &&& l.text_at("relationship"@) == Some("document"@)
            &&& l.member("anchor"@) matches Some(a) && a.member("height"@) == Some(
                JsonView::Unsigned(p.document.log.height),
            ) && a.member("logHead"@) == Some(
                match p.document.log.head {
                    Some(head) => JsonView::Text(head@),
                    None => JsonView::Null,
                },
            )
        },
        triad(p, now, verdict).member("rendering"@) matches Some(r) && {
            &&& r.text_at("as_of"@) == Some(now.text@)
            &&& r.text_at("profile"@) == Some("urn:unidpp:profile:render:untp"@)
            &&& r.text_at("binding"@) == Some(
                "UNTP v0.x passport stub shape (unidpp-py/unidpp/adapters/untp.py)"@,
            )
            &&& r.text_at("source"@) == Some(
                match p.origin {
                    Origin::Fixture => "fixture"@,
                    Origin::Issuer => "issuer"@,
                },
            )
        },
{
    lemma_credential_names();
    lemma_triad_members();
}

/// Every profile of a passport is rendered twice under its own id and version:
/// as an entry of the standards that the passport conforms to, effective since
/// the profile's own date or the passport's creation, and as a self-assessed
/// conformity credential that holds since the document does.
pub proof fn law_profiles_are_rendered(
    p: &GatewayPassport,
    now: &Timestamp,
    verdict: JsonView,
    i: int,
)
    requires
        0 <= i < p.profiles@.len(),
    ensures
        ({
            let profile = p.profiles@[i];
            let c = triad(p, now, verdict).member("passport"@).unwrap();
            &&& c.items_at("standardsConformance"@) matches Some(entries) && {
                &&& entries[i].text_at("standard"@) == Some(profile.id@)
                &&& entries[i].text_at("conformanceVersion"@) == Some(profile.version@)
                &&& entries[i].text_at("effectiveFrom"@) == Some(
                    match profile.effective_from {
                        Some(t) => t.text@,
                        None => p.document.created_at.text@,
                    },
                )
            }
            &&& triad(p, now, verdict).items_at("conformity"@) matches Some(credentials) && {
                let credential = credentials[i];
                &&& credential.text_at("id"@) == Some(
                    p.document.passport_id@ + "#conformity-profile-"@ + after_last(profile.id@, ':'),
                )
                &&& credential.text_at("validFrom"@) == Some(p.document.validity.from.text@)
                &&& credential.items_at("type"@) matches Some(types) && types.len() == 2 && types[0]
                    == JsonView::Text("VerifiableCredential"@) && types[1] == JsonView::Text(
                    "DigitalConformityCredential"@,
                )
                &&& credential.member("@context"@) == c.member("@context"@)
                &&& credential.member("credentialSubject"@) matches Some(subject) && {
                    &&& subject.text_at("type"@) == Some("ConformityAttestation"@)
                    &&& subject.text_at("assessmentLevel"@) == Some("self-assessment"@)
                    &&& subject.text_at("criteria"@) == Some(
                        "profile binding on the neutral core"@,
                    )
                    &&& subject.member("conformity"@) matches Some(claim) && claim.text_at(
                        "standard"@,
                    ) == Some(profile.id@) && claim.text_at("version"@) == Some(profile.version@)
                }
            }
        }),
{
    lemma_credential_names();
    lemma_triad_members();
    let credentials = triad(p, now, verdict).items_at("conformity"@).unwrap();
    assert(credentials[i] == profile_credential(&p.document, p.profiles@[i]));
    let c = triad(p, now, verdict).member("passport"@).unwrap();
    let entries = c.items_at("standardsConformance"@).unwrap();
    assert(entries[i] == conformance_entry(&p.document, p.profiles@[i]));
}

/// What one more sealed event adds to a triad's conformity credentials: nothing
/// where it is no inspection stamp; for a stamp one credential, behind all
/// others, that its attester issues at the instant of the event, that names the
/// stamp's lens as the standard, and that is a third party's assessment exactly
/// where the event is attested or better. Without events there is one credential
/// for each profile.
pub proof fn law_stamps_are_rendered(
    p: &GatewayPassport,
    q: &GatewayPassport,
    now: &Timestamp,
    verdict: JsonView,
    event: SealedEvent,
)
    requires
        q.document.log.sealed@ == p.document.log.sealed@.push(event),
        q.profiles@ == p.profiles@,
        q.document.passport_id == p.document.passport_id,
        q.document.eo_id == p.document.eo_id,
        q.document.validity == p.document.validity,
    ensures
        triad(p, now, verdict).items_at("conformity"@) matches Some(before) && triad(
            q,
            now,
            verdict,
        ).items_at("conformity"@) matches Some(after) && match event.payload {
            EventPayload::Other => after == before,
            EventPayload::InspectionStamp { stamp } => {
                let c = after.last();
                &&& after.len() == before.len() + 1
                &&& after.drop_last() == before
                &&& c.text_at("id"@) == Some(
                    p.document.passport_id@ + "#conformity-stamp-"@ + decimal(event.seq as nat),
                )
                &&& is_party(c.member("issuer"@), stamp.attester@)
                &&& c.items_at("type"@) matches Some(types) && types.len() == 2 && types[0]
                    == JsonView::Text("VerifiableCredential"@) && types[1] == JsonView::Text(
                    "DigitalConformityCredential"@,
                )
                &&& c.member("@context"@) == triad(q, now, verdict).member(
                    "passport"@,
                ).unwrap().member("@context"@)
                &&& c.text_at("validFrom"@) == Some(event.occurred_at.text@)
                &&& c.member("credentialSubject"@) matches Some(subject) && {
                    &&& subject.text_at("type"@) == Some("ConformityAttestation"@)
                    &&& subject.text_at("assessmentLevel"@) == Some(
                        match event.trust {
                            TrustMarker::Unsigned => "self-assessment"@,
                            TrustMarker::SelfDeclared => "self-assessment"@,
                            _ => "third-party"@,
                        },
                    )
                    &&& subject.member("conformity"@) matches Some(claim) && claim.text_at(
                        "standard"@,
                    ) == Some(stamp.lens@) && claim.text_at("version"@) == Some(stamp.lens_version@)
                    &&& subject.text_at("criteria"@) == Some(
                        match stamp.verdict_summary {
                            Some(summary) => summary@,
                            None => "inspection stamp"@,
                        },
                    )
                    &&& subject.text_at("mode"@) == Some(stamp.mode@)
                    &&& subject.text_at("stateCommitment"@) == Some(stamp.subject_state_commitment@)
                    &&& subject.text_at("logAnchoredAt"@) == Some(stamp.log_anchored_at.text@)
                }
            },
        },
        p.document.log.sealed@.len() == 0 ==> (triad(p, now, verdict).items_at(
            "conformity"@,
        ) matches Some(before) && before.len() == p.profiles@.len()),
{
    lemma_credential_names();
    lemma_triad_members();
    let events = p.document.log.sealed@;
    assert(q.document.log.sealed@.drop_last() =~= events);
    lemma_same_stamps(&p.document, &q.document, events);
    let before = conformity_credentials(p);
    let after = conformity_credentials(q);
    let ours = p.profiles@.map_values(|profile: ProfileRef| profile_credential(&p.document, profile));
    let theirs = q.profiles@.map_values(
        |profile: ProfileRef| profile_credential(&q.document, profile),
    );
    assert(ours =~= theirs);
    match event.payload {
        EventPayload::InspectionStamp { stamp } => {
            assert(after.drop_last() =~= before);
            assert(after.last() == stamp_credential(&q.document, event, stamp));
        },
        EventPayload::Other => {
            assert(after =~= before);
        },
    }
}

/// The credentials of stamps go by the passport id and the events alone.
proof fn lemma_same_stamps(a: &Passport, b: &Passport, events: Seq<SealedEvent>)
    requires
        a.passport_id == b.passport_id,
    ensures
        stamp_credentials(a, events) == stamp_credentials(b, events),
    decreases events.len(),
{
    if events.len() > 0 {
        lemma_same_stamps(a, b, events.drop_last());
    }
}

/// The schemes and values of the two vocabularies: every GS1 scheme renders
/// under the GS1 vocabulary and every ISO/IEC 15459 one under the gateway's own,
/// each of the URIs of a vocabulary reads as its token, and any other scheme
/// stands for itself. A GTIN renders with its application identifiers, any other
/// identity in its display form.
pub proof fn law_identifier_vocabulary(id: &ProductIdentifier, uri: Text)
    ensures
        id.scheme is Gtin || id.scheme is Sgtin || id.scheme is Gsrn || id.scheme is Gln
            ==> uri_of_scheme(id.scheme) == "https://gs1.org/voc/"@,
        id.scheme is Cpid ==> uri_of_scheme(id.scheme) == "https://unidpp.org/id/"@,
        id.scheme matches IdScheme::Other(token) ==> uri_of_scheme(id.scheme) == token@,
        token_of_uri("https://gs1.org/voc/"@) == "gtin"@,
        token_of_uri("https://id.gs1.org/"@) == "gtin"@,
        token_of_uri("https://ref.gs1.org/"@) == "gtin"@,
        token_of_uri("urn:epc:id:"@) == "gtin"@,
        token_of_uri("https://www.w3.org/ns/"@) == "cpid"@,
        token_of_uri("https://unidpp.org/id/"@) == "cpid"@,
        token_of_uri(uri) == "gtin"@ || token_of_uri(uri) == "cpid"@ || token_of_uri(uri) == uri,
        id.scheme is Gtin || id.scheme is Sgtin ==> untp_value(id) == "(01)"@ + id.key@ + (
        match id.lot {
            Some(lot) => "(10)"@ + lot@,
            None => Seq::empty(),
        }) + (match id.serial {
            Some(serial) => "(21)"@ + serial@,
            None => Seq::empty(),
        }),
        !(id.scheme is Gtin || id.scheme is Sgtin) ==> untp_value(id) == id.display@,
{
    reveal_strlit("https://gs1.org/voc/");
    reveal_strlit("https://id.gs1.org/");
    reveal_strlit("https://ref.gs1.org/");
    reveal_strlit("urn:epc:id:");
    reveal_strlit("https://www.w3.org/ns/");
    reveal_strlit("https://unidpp.org/id/");
    assert("https://www.w3.org/ns/"@[8] == 'w');
    assert("https://unidpp.org/id/"@[8] == 'u');
    assert("https://gs1.org/voc/"@[8] == 'g');
    assert("https://ref.gs1.org/"@[8] == 'r');
    assert("https://id.gs1.org/"@[8] == 'i');
    assert("urn:epc:id:"@.len() == 11);
    assert("https://www.w3.org/ns/"@.len() == 22 && "https://unidpp.org/id/"@.len() == 22);
}

/// A bare GTIN is read with its application identifier before it, and a value
/// in the core form, or of another scheme, as it stands.
pub proof fn law_core_values(scheme: Text, value: Text)
    requires
        !starts_with(value, "(01)"@),
    ensures
        scheme == "gtin"@ && !value.contains('+') ==> core_value(scheme, value) == "01+"@ + value,
        scheme != "gtin"@ || value.contains('+') ==> core_value(scheme, value) == value,
{
}

/// A rendered triad carries the verdict of the current-state reading of its own
/// document at the instant of the render: under the anchors pinned to the
/// passport, the registered slots and the freshness that was required, with no
/// taint and no required marker.
pub proof fn law_a_triad_carries_its_verdict<S: CryptoSlot>(
    p: &GatewayPassport,
    now: &Timestamp,
    required_freshness: Option<&str>,
    slots: &CryptoSlots<S>,
    j: Json,
)
    requires
        call_ensures(render_triad::<S>, (p, now, required_freshness, slots), j),
    ensures
        j.view().member("verdict"@) == Some(
            verdict_on(
                &p.document,
                VerifyView {
                    anchors: p.anchors.view(),
                    slots: slots.slots@,
                    reading: "current-state"@,
                    tainted: Seq::empty(),
                    required_freshness: match required_freshness {
                        Some(s) => Some(s@),
                        None => None,
                    },
                    minimum_marker: "unsigned"@,
                    now: *now,
                },
            ).dict(),
        ),
        j.view().member("rendering"@) matches Some(r) && r.text_at("as_of"@) == Some(now.text@),
{
    lemma_triad_members();
}

/// The subject of a stub is its first identifier: its value is that object's
/// `value`, under the vocabulary of its `scheme`, or of GS1 where it names none.
/// Two stubs of a passport whose lists begin with one object have one subject,
/// whatever follows.
pub proof fn law_the_first_identifier_is_the_subject(a: JsonView, b: JsonView)
    requires
        a.items_at("productIdentifiers"@) matches Some(ids) && ids.len() > 0 && (b.items_at(
            "productIdentifiers"@,
        ) matches Some(others) && others.len() > 0 && others[0] == ids[0]),
        stub_identity(a) is Ok,
        stub_identity(b) is Ok,
    ensures
        stub_identity(a) == stub_identity(b),
        ({
            let first = a.items_at("productIdentifiers"@).unwrap()[0];
            let id = stub_identity(a)->Ok_0;
            &&& first.text_at("value"@) == Some(id.value)
            &&& id.value.len() > 0
            &&& id.scheme == token_of_uri(
                match first.text_at("scheme"@) {
                    Some(uri) => uri,
                    None => "https://gs1.org/voc/"@,
                },
            )
            &&& id.display == core_value(id.scheme, id.value)
        }),
{
}

/// A stub has an identifier exactly where it is an object whose type, if it
/// states one, names a passport, and whose first identifier is an object with a
/// value.
pub proof fn law_stubs_with_an_identifier(stub: JsonView)
    ensures
        stub_identity(stub) is Ok <==> stub is Object && (stub_type(stub) matches Some(kind)
            ==> holds_text(lower_text(kind), "passport"@)) && (stub_type(stub) is None
            ==> holds_text(lower_text("ProductPassport"@), "passport"@)) && (stub.items_at(
            "productIdentifiers"@,
        ) matches Some(ids) && ids.len() > 0 && ids[0] is Object && (ids[0].text_at(
            "value"@,
        ) matches Some(value) && value.len() > 0)),
{
}

/// The type of a stub: a text as it stands, or the texts of a list with commas
/// between them, anything that is no text passed over.
pub proof fn law_stub_types(a: JsonView, b: JsonView, items: Seq<JsonView>, item: JsonView)
    requires
        a.member("type"@) == Some(JsonView::Array(items)),
        b.member("type"@) == Some(JsonView::Array(items.push(item))),
    ensures
        stub_type(a) is Some,
        stub_type(b) == Some(
            match item {
                JsonView::Text(s) => if text_items(items).len() == 0 {
                    s
                } else {
                    stub_type(a).unwrap() + ","@ + s
                },
                _ => stub_type(a).unwrap(),
            },
        ),
        text_items(Seq::empty()).len() == 0,
        text_items(items.push(item)).len() == text_items(items).len() + (if item is Text {
            1int
        } else {
            0int
        }),
{
    assert(items.push(item).drop_last() =~= items);
    if let JsonView::Text(s) = item {
        assert(text_items(items.push(item)).drop_last() =~= text_items(items));
    }
}

/// What the manifest of a stub says: the subject in the core's display form and
/// the passport id over the slug of the stub's own value, both at the subject's
/// granularity and under the stub's scheme; the log where the stub is, or at an
/// import of the subject, with the commitment and no height; the instant of the
/// reading. A stub whose issuer is no object has no manifest.
pub proof fn law_manifests(
    stub: JsonView,
    as_of: Text,
    subject: ProductIdentifier,
    commitment: Text,
)
    requires
        stub_identity(stub) is Ok,
    ensures
        stub_manifest(stub, as_of, Ok(subject), commitment) is Err <==> (stub.member(
            "passportIssuer"@,
        ) matches Some(issuer) && !(issuer is Object)),
        stub_manifest(stub, as_of, Ok(subject), commitment) matches Ok(m) ==> {
            let id = stub_identity(stub)->Ok_0;
            let granularity = match subject.granularity {
                Granularity::Model => "model"@,
                Granularity::Batch => "batch"@,
                Granularity::Item => "item"@,
            };
            &&& m.member("subjectId"@) matches Some(s) && s.text_at("value"@) == Some(
                subject.display@,
            ) && s.text_at("scheme"@) == Some(id.scheme) && s.text_at("granularity"@) == Some(
                granularity,
            ) && s.text_at("state"@) == Some("live"@)
            &&& m.member("passportId"@) matches Some(s) && s.text_at("value"@) == Some(
                "urn:iso:std:iso-iec:15459:unidpp:passport:"@ + slugged(id.value),
            ) && s.text_at("scheme"@) == Some(id.scheme) && s.text_at("granularity"@) == Some(
                granularity,
            ) && s.text_at("state"@) == Some("live"@)
            &&& m.member("eventLog"@) matches Some(log) && log.text_at("logUri"@) == Some(
                match stub.text_at("id"@) {
                    Some(uri) => if uri.len() > 0 {
                        uri
                    } else {
                        "urn:unidpp:import:"@ + subject.display@
                    },
                    None => "urn:unidpp:import:"@ + subject.display@,
                },
            ) && log.text_at("commitment"@) == Some(commitment) && log.member("height"@) == Some(
                JsonView::Unsigned(0),
            )
            &&& m.text_at("status"@) == Some("active"@)
            &&& m.text_at("capabilityClass"@) == Some("S0"@)
            &&& m.text_at("asOf"@) == Some(as_of)
            &&& m.items_at("children"@) == Some(Seq::<JsonView>::empty())
            &&& m.items_at("profiles"@) is Some
            &&& stub.items_at("standardsConformance"@) is None ==> m.items_at("profiles"@) == Some(
                Seq::<JsonView>::empty(),
            )
        },
{
    lemma_manifest_names();
}

/// What one more conformance entry adds to a manifest's profiles: a binding of
/// the standard and the version that the entry names, effective since the stub
/// is valid, or since it was read where it does not say; nothing where the entry
/// is no object.
pub proof fn law_conformance_becomes_profiles(
    a: JsonView,
    b: JsonView,
    entries: Seq<JsonView>,
    entry: JsonView,
    as_of: Text,
    subject: ProductIdentifier,
    commitment: Text,
)
    requires
        a.items_at("standardsConformance"@) == Some(entries),
        b.items_at("standardsConformance"@) == Some(entries.push(entry)),
        a.text_at("validFrom"@) == b.text_at("validFrom"@),
        stub_manifest(a, as_of, Ok(subject), commitment) is Ok,
        stub_manifest(b, as_of, Ok(subject), commitment) is Ok,
    ensures
        ({
            let m = stub_manifest(a, as_of, Ok(subject), commitment)->Ok_0;
            let n = stub_manifest(b, as_of, Ok(subject), commitment)->Ok_0;
            m.items_at("profiles"@) matches Some(before) && n.items_at("profiles"@) matches Some(
                after,
            ) && if entry is Object {
                let profile = after.last();
                &&& after.len() == before.len() + 1
                &&& after.drop_last() == before
                &&& profile.text_at("profileId"@) == Some(
                    match entry.text_at("standard"@) {
                        Some(standard) => standard,
                        None => "urn:unidpp:profile:untp"@,
                    },
                )
                &&& entry.text_at("conformanceVersion"@) is Some ==> profile.text_at("version"@)
                    == entry.text_at("conformanceVersion"@)
                &&& entry.member("conformanceVersion"@) is None && entry.text_at("version"@) is Some
                    ==> profile.text_at("version"@) == entry.text_at("version"@)
                &&& entry.member("conformanceVersion"@) is None && entry.text_at("version"@) is None
                    ==> profile.text_at("version"@) == Some("0"@)
                &&& profile.member("effective"@) matches Some(effective) && effective.text_at(
                    "from"@,
                ) == Some(
                    match a.text_at("validFrom"@) {
                        Some(since) => since,
                        None => as_of,
                    },
                )
            } else {
                after == before
            }
        }),
{
    lemma_manifest_names();
    reveal_strlit("profileId");
    reveal_strlit("version");
    reveal_strlit("effective");
    assert("profileId"@[0] == 'p' && "effective"@[0] == 'e' && "profileId"@.len() == 9);
    assert("version"@.len() == 7 && "effective"@.len() == 9);
    assert(entries.push(entry).drop_last() =~= entries);
    let valid_from = text_or(a.text_at("validFrom"@), as_of);
    let before = manifest_profiles(entries, valid_from);
    let after = manifest_profiles(entries.push(entry), valid_from);
    if entry is Object {
        assert(after.drop_last() =~= before);
        assert(after.last() == manifest_profile(entry, valid_from));
    }
}

/// A slug is made character by character: of a letter or a number its lowercase,
/// of `:`, `-`, `_` and `.` itself, of anything else nothing; what leaves nothing
/// is `unknown`.
pub proof fn law_slugs(s: Text, c: char)
    ensures
        slug_body(s.push(c)) == slug_body(s) + slug_body(seq![c]),
        c == ':' || c == '-' || c == '_' || c == '.' ==> slug_body(seq![c]) == (if is_word(c) {
            lower(c)
        } else {
            seq![c]
        }),
        is_word(c) ==> slug_body(seq![c]) == lower(c),
        !is_word(c) && c != ':' && c != '-' && c != '_' && c != '.' ==> slug_body(seq![c]).len()
            == 0,
        slug_body(Seq::empty()).len() == 0,
        slug_body(s).len() > 0 ==> slugged(s) == slug_body(s),
        slug_body(s).len() == 0 ==> slugged(s) == "unknown"@,
{
    assert(s.push(c).drop_last() =~= s);
    assert(seq![c].drop_last() =~= Seq::empty());
    reveal_with_fuel(slug_body, 2);
    assert(slug_body(seq![c]) =~= slug_char(c));
}

/// A stub parses to the manifest of what it says, of what the core read of its
/// identifier and of the commitment over it; what the core could not read is
/// refused with its complaint.
pub proof fn law_stubs_parse(
    stub: &Json,
    as_of: &str,
    subject: Result<ProductIdentifier, String>,
    commitment: &str,
    r: Result<Json, String>,
)
    requires
        call_ensures(parse_stub, (stub, as_of, &subject, commitment), r),
    ensures
        stub_identity(stub.view()) matches Err(e) ==> (r matches Err(m) && m@ == e),
        stub_identity(stub.view()) is Ok ==> (subject matches Err(e) ==> (r matches Err(m) && m@
            == e@)),
        stub_identity(stub.view()) is Ok && subject is Ok ==> (r is Err <==> (stub.view().member(
            "passportIssuer"@,
        ) matches Some(issuer) && !(issuer is Object))),
        r matches Ok(m) ==> subject is Ok && stub_manifest(
            stub.view(),
            as_of@,
            Ok(subject->Ok_0),
            commitment@,
        ) == Ok::<JsonView, Text>(m.view()),
{
}

/// The commitment of an import is taken of the stub's own canonical form behind
/// the salt of imports.
pub proof fn law_import_commitments(stub: &Json, r: String)
    requires
        call_ensures(stub_commitment_material, (stub,), r),
    ensures
        r@ == "untp-import"@ + ":"@ + compact_json(stub.view()),
{
}

/// A stub without an identifier is refused for the first thing that is wrong
/// with it: it is no object, its type names no passport, it lists no identifier,
/// or its first one carries no value.
pub proof fn law_stubs_without_an_identifier(stub: JsonView)
    ensures
        !(stub is Object) ==> stub_identity(stub) == Err::<StubIdentifierView, Text>(
            "stub must be a JSON object"@,
        ),
        stub is Object ==> (stub_type(stub) matches Some(kind) ==> (!holds_text(
            lower_text(kind),
            "passport"@,
        ) ==> stub_identity(stub) == Err::<StubIdentifierView, Text>(
            "not a passport stub: type="@ + debug_text(kind),
        ))),
        stub is Object && (stub_type(stub) matches Some(kind) && holds_text(
            lower_text(kind),
            "passport"@,
        )) && !(stub.items_at("productIdentifiers"@) matches Some(ids) && ids.len() > 0
            && ids[0] is Object) ==> stub_identity(stub) == Err::<StubIdentifierView, Text>(
            "stub has no productIdentifiers"@,
        ),
        stub is Object && (stub_type(stub) matches Some(kind) && holds_text(
            lower_text(kind),
            "passport"@,
        )) && (stub.items_at("productIdentifiers"@) matches Some(ids) && ids.len() > 0
            && ids[0] is Object && !(ids[0].text_at("value"@) matches Some(value) && value.len()
            > 0)) ==> stub_identity(stub) == Err::<StubIdentifierView, Text>(
            "identifier carries no value"@,
        ),
{
}

} // verus!
