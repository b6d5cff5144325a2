//! UNTP ingest: the import direction.
//!
//! A UNTP passport credential (bare, or wrapped in the triad this gateway
//! itself renders) is read with the render's identifier rules and becomes a
//! neutral-core passport with a deterministic identity: one subject, one
//! identity, so that importing the same triad again matches instead of
//! duplicating. Its conformity credentials land as profile bindings.
//!
//! An identifier scheme without a mapping degrades explicitly: nothing is
//! minted under a guessed scheme. Warnings are reported, never swallowed.
//!
//! What only the core can compute (reading an identity or an instant,
//! digests, minting) is asked of it between [`ingest_question`] and
//! [`IngestStore::ingest`].
use std::sync::Arc;

use vstd::prelude::*;

use crate::json::{
    compact_json, compact_text, lemma_array_view, put, put_text, text_or_null, views, Json,
    JsonView,
};
use crate::model::{MintOptions, Passport, ProductIdentifier, Timestamp};
use crate::source::{GatewayPassport, ProfileRef};
use crate::text::{
    chars_of, decimal, decimal_text, is_blank, opt_string, opt_text, same, text_of, trim, trimmed,
    Text,
};
use crate::untp::{core_identifier_value, core_value, scheme_token, text_or, token_of_uri};

verus! {

// ---------------------------------------------------------------------------
// Reading the body
// ---------------------------------------------------------------------------

/// Why a body holds no passport credential.
pub open spec fn no_stub_message() -> Text {
    "no UNTP passport VC found (expected {passport: {...productIdentifiers...}}, a bare passport VC, or {stub: {...}})"@
}

/// The passport credential inside any accepted body shape.
pub open spec fn body_stub(body: JsonView) -> Result<JsonView, Text> {
    match body.member("stub"@) {
        Some(stub) => Ok(stub),
        None => if body.member("productIdentifiers"@) is Some {
            Ok(body)
        } else {
            match body.member("passport"@) {
                Some(passport) => if passport.member("productIdentifiers"@) is Some {
                    Ok(passport)
                } else {
                    Err(no_stub_message())
                },
                None => Err(no_stub_message()),
            }
        },
    }
}

/// The passport credential inside any accepted body shape.
pub fn extract_stub(body: &Json) -> (r: Result<&Json, String>)
    ensures
        match r {
            Ok(stub) => body_stub(body.view()) == Ok::<JsonView, Text>(stub.view()) && (body.plain()
                ==> stub.plain()),
            Err(e) => body_stub(body.view()) == Err::<JsonView, Text>(e@),
        },
{
    match body.get("stub") {
        Some(stub) => {
            return Ok(stub);
        },
        None => {},
    }
    match body.get("productIdentifiers") {
        Some(_) => {
            return Ok(body);
        },
        None => {},
    }
    match body.get("passport") {
        Some(passport) => match passport.get("productIdentifiers") {
            Some(_) => {
                return Ok(passport);
            },
            None => {},
        },
        None => {},
    }
    Err(
        "no UNTP passport VC found (expected {passport: {...productIdentifiers...}}, a bare passport VC, or {stub: {...}})".to_owned(),
    )
}

/// The conformity credentials of a body.
pub open spec fn body_conformity(body: JsonView) -> Seq<JsonView> {
    match body.items_at("conformity"@) {
        Some(items) => items,
        None => Seq::empty(),
    }
}

/// The conformity credentials of a body.
pub fn extract_conformity(body: &Json) -> (r: Option<&Vec<Json>>)
    ensures
        match r {
            Some(items) => body_conformity(body.view()) == views(items@),
            None => body_conformity(body.view()).len() == 0,
        },
{
    body.array_at("conformity")
}

/// The text, where there is one that is not empty.
pub open spec fn filled(s: Option<Text>) -> Option<Text> {
    match s {
        Some(s) => if s.len() > 0 {
            Some(s)
        } else {
            None
        },
        None => None,
    }
}

/// The text of the member of that name, where it is not empty.
fn filled_str_at<'a>(json: &'a Json, key: &str) -> (r: Option<&'a str>)
    ensures
        match r {
            Some(s) => filled(json.view().text_at(key@)) == Some(s@),
            None => filled(json.view().text_at(key@)) is None,
        },
{
    match json.str_at(key) {
        Some(s) => if s.is_empty() {
            None
        } else {
            Some(s)
        },
        None => None,
    }
}

/// The identifier that an imported credential carries first.
#[derive(Debug, PartialEq)]
pub struct ImportedIdentifier {
    /// The scheme URI; the GS1 vocabulary where none is given.
    pub scheme: String,
    pub token: String,
    pub value: String,
    /// The core display form.
    pub display: String,
    /// How many more identifiers the credential carries.
    pub additional: usize,
}

/// What the first identifier says.
pub struct ImportedIdentifierView {
    pub scheme: Text,
    pub token: Text,
    pub value: Text,
    pub display: Text,
    pub additional: nat,
}

impl ImportedIdentifier {
    /// What the identifier says.
    pub open spec fn view(&self) -> ImportedIdentifierView {
        ImportedIdentifierView {
            scheme: self.scheme@,
            token: self.token@,
            value: self.value@,
            display: self.display@,
            additional: self.additional as nat,
        }
    }
}

/// The identifier that an imported credential carries first, or why it
/// carries none.
pub open spec fn first_identifier(stub: JsonView) -> Result<ImportedIdentifierView, Text> {
    match stub.items_at("productIdentifiers"@) {
        Some(ids) => if ids.len() == 0 {
            Err("the passport VC carries no productIdentifiers"@)
        } else if !(ids[0] is Object) {
            Err("the first productIdentifier is malformed"@)
        } else {
            match filled(ids[0].text_at("value"@)) {
                Some(value) => {
                    let scheme = text_or(
                        filled(ids[0].text_at("scheme"@)),
                        "https://gs1.org/voc/"@,
                    );
                    let token = token_of_uri(scheme);
                    Ok(
                        ImportedIdentifierView {
                            scheme,
                            token,
                            value,
                            display: core_value(token, value),
                            additional: (ids.len() - 1) as nat,
                        },
                    )
                },
                None => Err("the identifier carries no value"@),
            }
        },
        None => Err("the passport VC carries no productIdentifiers"@),
    }
}

/// The identifier that an imported credential carries first, whose display
/// form is to be read as a product identity.
fn read_identifier(stub: &Json) -> (r: Result<ImportedIdentifier, String>)
    ensures
        match r {
            Ok(id) => first_identifier(stub.view()) == Ok::<ImportedIdentifierView, Text>(
                id.view(),
            ),
            Err(e) => first_identifier(stub.view()) == Err::<ImportedIdentifierView, Text>(e@),
        },
{
    let ids = match stub.array_at("productIdentifiers") {
        Some(ids) => ids,
        None => {
            return Err("the passport VC carries no productIdentifiers".to_owned());
        },
    };
    if ids.len() == 0 {
        return Err("the passport VC carries no productIdentifiers".to_owned());
    }
    let raw = &ids[0];
    if !raw.is_object() {
        return Err("the first productIdentifier is malformed".to_owned());
    }
    let value = match filled_str_at(raw, "value") {
        Some(value) => value,
        None => {
            return Err("the identifier carries no value".to_owned());
        },
    };
    let scheme = match filled_str_at(raw, "scheme") {
        Some(scheme) => scheme,
        None => "https://gs1.org/voc/",
    };
    let token = scheme_token(scheme);
    let display = core_identifier_value(token.as_str(), value);
    Ok(
        ImportedIdentifier {
            scheme: scheme.to_owned(),
            token,
            value: value.to_owned(),
            display,
            additional: ids.len() - 1,
        },
    )
}

/// Why nothing is minted for an identifier that the core cannot read.
pub open spec fn no_mapping_message(id: ImportedIdentifierView) -> Text {
    "identifier scheme `"@ + id.scheme + "` (token `"@ + id.token + "`, value `"@ + id.value
        + "`) has no C8 mapping onto the core identity table: nothing is minted under a guessed scheme (record the scheme in the registry, then re-ingest)"@
}

/// The warnings on an identifier.
pub open spec fn identifier_warnings(id: ImportedIdentifierView) -> Seq<JsonView> {
    if id.additional > 0 {
        seq![
            JsonView::Text(
                decimal(id.additional)
                    + " additional product identifiers recorded in the receipt only (the core identity is the first, per the render convention)"@,
            ),
        ]
    } else {
        Seq::empty()
    }
}

/// The identity and the warnings of an imported identifier, given what the
/// core reads of its display form; an identifier that the core cannot read
/// degrades explicitly.
pub fn parse_identity(id: &ImportedIdentifier, read: Option<ProductIdentifier>) -> (r: Result<
    (ProductIdentifier, Vec<Json>),
    String,
>)
    ensures
        match r {
            Ok((identity, warnings)) => read == Some(identity) && views(warnings@)
                == identifier_warnings(id.view()),
            Err(e) => read is None && e@ == no_mapping_message(id.view()),
        },
{
    match read {
        Some(identity) => {
            let mut warnings: Vec<Json> = Vec::new();
            if id.additional > 0 {
                warnings.push(
                    Json::Text(
                        decimal_text(id.additional as u64).concat(
                            " additional product identifiers recorded in the receipt only (the core identity is the first, per the render convention)",
                        ),
                    ),
                );
            }
            assert(views(warnings@) =~= identifier_warnings(id.view()));
            Ok((identity, warnings))
        },
        None => Err(
            "identifier scheme `".to_owned().concat(id.scheme.as_str()).concat(
                "` (token `",
            ).concat(id.token.as_str()).concat("`, value `").concat(id.value.as_str()).concat(
                "`) has no C8 mapping onto the core identity table: nothing is minted under a guessed scheme (record the scheme in the registry, then re-ingest)",
            ),
        ),
    }
}

/// What the digest of an identity is taken of.
pub open spec fn digested_identity(display: Text) -> Text {
    "UNIDPP/GATEWAY/UNTP-INGEST|"@ + display
}

/// What the digest of an identity is taken of: its core display form behind
/// the domain of the import.
pub fn identity_material(identity: &ProductIdentifier) -> (r: String)
    ensures
        r@ == digested_identity(identity.display@),
{
    "UNIDPP/GATEWAY/UNTP-INGEST|".to_owned().concat(identity.display.as_str())
}

/// The passport id of a subject whose identity has that digest: the same
/// subject maps to the same passport id forever.
pub open spec fn derived_id(digest: Text) -> Text {
    "urn:unidpp:passport:untp-"@ + digest.take(12)
}

/// The passport id of a subject whose identity has that digest, in
/// hexadecimal.
pub fn derived_passport_id(digest: &str) -> (r: String)
    requires
        digest@.len() >= 12,
    ensures
        r@ == derived_id(digest@),
{
    let v = chars_of(digest);
    assert(v@.subrange(0, 12) =~= digest@.take(12));
    "urn:unidpp:passport:untp-".to_owned().concat(text_of(&v, 0, 12).as_str())
}

// ---------------------------------------------------------------------------
// Conformity credentials
// ---------------------------------------------------------------------------

/// What a conformity credential names: a standard and its version.
pub open spec fn named_conformity(credential: JsonView) -> Option<JsonView> {
    match credential.member("credentialSubject"@) {
        Some(subject) => subject.member("conformity"@),
        None => None,
    }
}

/// The standard that a conformity credential names, where it names one.
pub open spec fn named_standard(credential: JsonView) -> Option<Text> {
    match named_conformity(credential) {
        Some(named) => match named.text_at("standard"@) {
            Some(id) => if is_blank(id) {
                None
            } else {
                Some(trimmed(id))
            },
            None => None,
        },
        None => None,
    }
}

/// The version that a conformity credential names.
pub open spec fn named_version(credential: JsonView) -> Text {
    match named_conformity(credential) {
        Some(named) => trimmed(text_or(named.text_at("version"@), "unversioned"@)),
        None => "unversioned"@,
    }
}

/// Whether the profile is the binding of that credential, dated as read.
pub open spec fn binds(
    profile: ProfileRef,
    credential: JsonView,
    date: Option<Timestamp>,
) -> bool {
    &&& named_standard(credential) == Some(profile.id@)
    &&& profile.version@ == named_version(credential)
    &&& profile.effective_from == (if credential.text_at("validFrom"@) is Some {
        date
    } else {
        None
    })
}

/// Whether the profiles are the bindings of the credentials, in their order:
/// one for each credential that names a conformity standard.
pub open spec fn are_bindings(
    profiles: Seq<ProfileRef>,
    credentials: Seq<JsonView>,
    dates: Seq<Option<Timestamp>>,
) -> bool
    decreases credentials.len(),
{
    if credentials.len() == 0 {
        profiles.len() == 0
    } else if named_standard(credentials.last()) is Some {
        &&& profiles.len() > 0
        &&& binds(profiles.last(), credentials.last(), dates[credentials.len() - 1])
        &&& are_bindings(profiles.drop_last(), credentials.drop_last(), dates)
    } else {
        are_bindings(profiles, credentials.drop_last(), dates)
    }
}

/// The binding of one conformity credential.
fn conformity_binding(credential: &Json, date: &Option<Timestamp>) -> (r: Option<ProfileRef>)
    ensures
        match r {
            Some(profile) => binds(profile, credential.view(), *date),
            None => named_standard(credential.view()) is None,
        },
{
    let subject = match credential.get("credentialSubject") {
        Some(subject) => subject,
        None => {
            return None;
        },
    };
    let named = match subject.get("conformity") {
        Some(named) => named,
        None => {
            return None;
        },
    };
    let id = match named.str_at("standard") {
        Some(id) => trim(id),
        None => {
            return None;
        },
    };
    if id.is_empty() {
        return None;
    }
    let version = match named.str_at("version") {
        Some(version) => version,
        None => "unversioned",
    };
    let effective_from = match credential.str_at("validFrom") {
        Some(_) => match date {
            Some(t) => Some(t.clone()),
            None => None,
        },
        None => None,
    };
    Some(ProfileRef { id: id.to_owned(), version: trim(version).to_owned(), effective_from })
}

/// The profile bindings of the conformity credentials: one for each that
/// names a conformity standard. `dates` holds, credential by credential, what
/// the core reads of its `validFrom`.
pub fn conformity_bindings(
    credentials: Option<&Vec<Json>>,
    dates: &Vec<Option<Timestamp>>,
) -> (r: Vec<ProfileRef>)
    requires
        credentials matches Some(items) ==> dates@.len() == items@.len(),
    ensures
        are_bindings(
            r@,
            match credentials {
                Some(items) => views(items@),
                None => Seq::empty(),
            },
            dates@,
        ),
{
    let mut bindings: Vec<ProfileRef> = Vec::new();
    let items = match credentials {
        Some(items) => items,
        None => {
            return bindings;
        },
    };
    let ghost all = views(items@);
    let n: usize = items.len();
    let mut i: usize = 0;
    assert(all.take(0) =~= Seq::empty());
    while i < n
        invariant
            i <= n == items@.len(),
            dates@.len() == items@.len(),
            all == views(items@),
            are_bindings(bindings@, all.take(i as int), dates@),
        decreases n - i,
    {
        assert(all.take(i + 1).drop_last() =~= all.take(i as int));
        assert(all.take(i + 1).last() == items@[i as int].view());
        match conformity_binding(&items[i], &dates[i]) {
            Some(profile) => {
                let ghost before = bindings@;
                bindings.push(profile);
                assert(bindings@.drop_last() =~= before);
            },
            None => {},
        }
        i = i + 1;
    }
    assert(all.take(n as int) =~= all);
    bindings
}

// ---------------------------------------------------------------------------
// What is asked of the core
// ---------------------------------------------------------------------------

/// What an ingest asks of the core.
#[derive(Debug)]
pub struct IngestQuestion {
    /// The identifier, whose display form is to be read as an identity.
    pub identifier: ImportedIdentifier,
    /// Who is to be the economic operator.
    pub eo_id: String,
    /// Where the passport is served, where the link says so.
    pub resolver_uri: Option<String>,
    /// The texts to be read as the validity window.
    pub valid_from: Option<String>,
    pub valid_until: Option<String>,
    /// Credential by credential, the text to be read as its date.
    pub credential_dates: Vec<Option<String>>,
    /// The text of the stub, to be digested as the commitment over it.
    pub stub_text: String,
}

/// The economic operator of an imported passport: its issuer, or the import
/// itself.
pub open spec fn importing_operator(stub: JsonView) -> Text {
    text_or(
        match stub.member("passportIssuer"@) {
            Some(issuer) => filled(issuer.text_at("id"@)),
            None => None,
        },
        "urn:unidpp:import:untp"@,
    )
}

/// Where an imported passport is served.
pub open spec fn link_target(body: JsonView) -> Option<Text> {
    match body.member("link"@) {
        Some(link) => filled(link.text_at("target"@)),
        None => None,
    }
}

/// An owned copy of an optional text.
fn owned(s: Option<&str>) -> (r: Option<String>)
    ensures
        opt_string(r) == opt_text(s),
{
    match s {
        Some(s) => Some(s.to_owned()),
        None => None,
    }
}

/// Reads a UNTP body (the rendered triad, a bare passport credential, or a
/// wrapped stub) into what is asked of the core, or says why it cannot be
/// ingested.
pub fn ingest_question(body: &Json) -> (r: Result<IngestQuestion, String>)
    requires
        body.plain(),
    ensures
        match body_stub(body.view()) {
            Err(e) => r matches Err(m) && m@ == e,
            Ok(stub) => match first_identifier(stub) {
                Err(e) => r matches Err(m) && m@ == e,
                Ok(id) => r matches Ok(q) && q.identifier.view() == id && q.eo_id@
                    == importing_operator(stub) && opt_string(q.resolver_uri) == link_target(
                    body.view(),
                ) && opt_string(q.valid_from) == stub.text_at("validFrom"@) && opt_string(
                    q.valid_until,
                ) == stub.text_at("validUntil"@) && q.credential_dates@.map_values(
                    |d: Option<String>| opt_string(d),
                ) == body_conformity(body.view()).map_values(
                    |c: JsonView| c.text_at("validFrom"@),
                ) && q.stub_text@ == compact_json(stub),
            },
        },
{
    let stub = match extract_stub(body) {
        Ok(stub) => stub,
        Err(e) => {
            return Err(e);
        },
    };
    let identifier = match read_identifier(stub) {
        Ok(identifier) => identifier,
        Err(e) => {
            return Err(e);
        },
    };
    let issuer_id = match stub.get("passportIssuer") {
        Some(issuer) => filled_str_at(issuer, "id"),
        None => None,
    };
    let eo_id = match issuer_id {
        Some(id) => id,
        None => "urn:unidpp:import:untp",
    };
    let target = match body.get("link") {
        Some(link) => filled_str_at(link, "target"),
        None => None,
    };
    let mut credential_dates: Vec<Option<String>> = Vec::new();
    let ghost dated = body_conformity(body.view()).map_values(
        |c: JsonView| c.text_at("validFrom"@),
    );
    match extract_conformity(body) {
        Some(items) => {
            let n: usize = items.len();
            let mut i: usize = 0;
            while i < n
                invariant
                    i <= n == items@.len(),
                    body_conformity(body.view()) == views(items@),
                    credential_dates@.len() == i,
                    forall|k: int|
                        0 <= k < i ==> opt_string(#[trigger] credential_dates@[k])
                            == items@[k].view().text_at("validFrom"@),
                decreases n - i,
            {
                credential_dates.push(owned(items[i].str_at("validFrom")));
                i = i + 1;
            }
        },
        None => {},
    }
    assert(credential_dates@.map_values(|d: Option<String>| opt_string(d)) =~= dated);
    Ok(
        IngestQuestion {
            identifier,
            eo_id: eo_id.to_owned(),
            resolver_uri: owned(target),
            valid_from: owned(stub.str_at("validFrom")),
            valid_until: owned(stub.str_at("validUntil")),
            credential_dates,
            stub_text: compact_text(stub),
        },
    )
}

/// What the passport of an imported identity is minted from.
pub fn mint_options(
    question: &IngestQuestion,
    identity: &ProductIdentifier,
    passport_id: &str,
    valid_from: Option<Timestamp>,
    valid_to: Option<Timestamp>,
) -> (r: MintOptions)
    ensures
        r.id@ == identity.display@,
        r.granularity is None,
        r.type_ref is None,
        r.capability@ == "S1"@,
        opt_string(r.eo_id) == Some(question.eo_id@),
        opt_string(r.resolver_uri) == opt_string(question.resolver_uri),
        opt_string(r.passport_id) == Some(passport_id@),
        r.valid_from == valid_from,
        r.valid_to == valid_to,
{
    let resolver_uri = match &question.resolver_uri {
        Some(uri) => Some(uri.clone()),
        None => None,
    };
    MintOptions {
        id: identity.display.clone(),
        granularity: None,
        type_ref: None,
        capability: "S1".to_owned(),
        eo_id: Some(question.eo_id.clone()),
        resolver_uri,
        passport_id: Some(passport_id.to_owned()),
        valid_from,
        valid_to,
    }
}

/// What the core answers.
pub struct IngestAnswers {
    /// The identity that the identifier's display form reads as, where the
    /// core can read it.
    pub identity: Option<ProductIdentifier>,
    /// The digest of [`identity_material`], in hexadecimal.
    pub digest: String,
    /// Credential by credential, the instant its date reads as.
    pub credential_dates: Vec<Option<Timestamp>>,
    /// The passport minted from [`mint_options`], or why minting failed.
    pub minted: Result<Passport, String>,
    /// The digest of the stub's text, in hexadecimal.
    pub commitment: String,
}

// ---------------------------------------------------------------------------
// The store
// ---------------------------------------------------------------------------

/// Whether an ingest minted or matched.
#[derive(Debug, Clone, Copy, PartialEq, Eq, Structural)]
pub enum IngestStatus {
    /// First import of this subject identity: a core passport was minted.
    Imported,
    /// The subject identity was imported before: the existing core passport
    /// is returned unchanged.
    Matched,
}

impl IngestStatus {
    /// The wire token.
    pub open spec fn token(self) -> Text {
        match self {
            IngestStatus::Imported => "imported"@,
            IngestStatus::Matched => "matched"@,
        }
    }

    /// The wire token.
    pub fn as_str(self) -> (r: &'static str)
        ensures
            r@ == self.token(),
    {
        match self {
            IngestStatus::Imported => "imported",
            IngestStatus::Matched => "matched",
        }
    }
}

/// The outcome of one ingest.
pub struct IngestOutcome {
    pub status: IngestStatus,
    /// The minted (or earlier minted) core passport.
    pub passport: Arc<GatewayPassport>,
    /// The profile bindings of that passport.
    pub profiles: Vec<ProfileRef>,
    /// The import receipt.
    pub receipt: Arc<Json>,
}

/// An ingested passport with its receipt, under the passport id derived from
/// its subject.
pub struct IngestEntry {
    pub passport_id: String,
    pub passport: Arc<GatewayPassport>,
    pub receipt: Arc<Json>,
}

/// The store of ingested passports, in the order of their import.
pub struct IngestStore {
    pub entries: Vec<IngestEntry>,
}

/// Whether a passport of that id was ingested.
pub open spec fn ingested_as(entries: Seq<IngestEntry>, passport_id: Text) -> bool {
    exists|i: int| 0 <= i < entries.len() && (#[trigger] entries[i]).passport_id@ == passport_id
}

/// The scheme that a receipt records: the first identifier's, as it stands.
pub open spec fn recorded_scheme(stub: JsonView) -> Option<Text> {
    match stub.items_at("productIdentifiers"@) {
        Some(ids) => if ids.len() > 0 {
            ids[0].text_at("scheme"@)
        } else {
            None
        },
        None => None,
    }
}

/// A text, or `null`.
pub open spec fn text_json(s: Option<Text>) -> JsonView {
    match s {
        Some(s) => JsonView::Text(s),
        None => JsonView::Null,
    }
}

/// The receipt of an import.
pub open spec fn receipt(
    body: JsonView,
    stub: JsonView,
    id: ImportedIdentifierView,
    passport_id: Text,
    bindings: nat,
    now: Text,
    commitment: Text,
) -> JsonView {
    JsonView::Object(
        map![
            "passport_id"@ => JsonView::Text(passport_id),
            "source"@ => JsonView::Object(
                map![
                    "regime"@ => JsonView::Text("untp"@),
                    "stub_id"@ => text_json(stub.text_at("id"@)),
                    "identifier_scheme"@ => text_json(recorded_scheme(stub)),
                    "imported_at"@ => JsonView::Text(now),
                ],
            ),
            "conformity_credentials"@ => JsonView::Unsigned(body_conformity(body).len() as u64),
            "profile_bindings"@ => JsonView::Unsigned(bindings as u64),
            "warnings"@ => JsonView::Array(identifier_warnings(id)),
            "commitment"@ => JsonView::Text(commitment),
        ],
    )
}

/// The receipt that a match returns: the recorded one of that passport, or
/// its id alone where none is recorded.
pub open spec fn is_recorded_receipt(
    entries: Seq<IngestEntry>,
    passport_id: Text,
    receipt: JsonView,
) -> bool {
    ||| exists|i: int|
        0 <= i < entries.len() && (#[trigger] entries[i]).passport.document.passport_id@
            == passport_id && entries[i].receipt.view() == receipt
    ||| (forall|i: int|
        0 <= i < entries.len() ==> (#[trigger] entries[i]).passport.document.passport_id@
            != passport_id) && receipt == JsonView::Object(
        map!["passport_id"@ => JsonView::Text(passport_id)],
    )
}

/// Whether an ingest is answered by that outcome and leaves those entries.
pub open spec fn is_ingest(
    before: Seq<IngestEntry>,
    body: JsonView,
    answers: IngestAnswers,
    now: Text,
    after: Seq<IngestEntry>,
    r: Result<IngestOutcome, String>,
) -> bool {
    match body_stub(body) {
        Err(e) => after == before && (r matches Err(m) && m@ == e),
        Ok(stub) => match first_identifier(stub) {
            Err(e) => after == before && (r matches Err(m) && m@ == e),
            Ok(id) => match answers.identity {
                None => after == before && (r matches Err(m) && m@ == no_mapping_message(id)),
                Some(_) => {
                    let passport_id = derived_id(answers.digest@);
                    if ingested_as(before, passport_id) {
                        after == before && (r matches Ok(outcome) && is_match(
                            before,
                            passport_id,
                            outcome,
                        ))
                    } else {
                        match answers.minted {
                            Err(e) => after == before && (r matches Err(m) && m@
                                == "mint failed for the imported identity: "@ + e@),
                            Ok(document) => r matches Ok(outcome) && is_import(
                                before,
                                body,
                                stub,
                                id,
                                answers,
                                document,
                                now,
                                after,
                                outcome,
                            ),
                        }
                    }
                },
            },
        },
    }
}

/// Whether the outcome is a match with an earlier import.
pub open spec fn is_match(
    entries: Seq<IngestEntry>,
    passport_id: Text,
    outcome: IngestOutcome,
) -> bool {
    &&& outcome.status is Matched
    &&& exists|i: int|
        0 <= i < entries.len() && (#[trigger] entries[i]).passport_id@ == passport_id
            && entries[i].passport == outcome.passport
    &&& outcome.profiles@ == outcome.passport.profiles@
    &&& is_recorded_receipt(entries, passport_id, outcome.receipt.view())
}

/// Whether the outcome is a fresh import of that document.
pub open spec fn is_import(
    before: Seq<IngestEntry>,
    body: JsonView,
    stub: JsonView,
    id: ImportedIdentifierView,
    answers: IngestAnswers,
    document: Passport,
    now: Text,
    after: Seq<IngestEntry>,
    outcome: IngestOutcome,
) -> bool {
    let passport_id = derived_id(answers.digest@);
    &&& outcome.status is Imported
    &&& outcome.passport.document == document
    &&& outcome.passport.origin is Fixture
    &&& outcome.passport.anchors.view() == Map::<Text, Seq<u8>>::empty()
    &&& are_bindings(
        outcome.passport.profiles@,
        body_conformity(body),
        answers.credential_dates@,
    )
    &&& outcome.profiles@ == outcome.passport.profiles@
    &&& outcome.receipt.view() == receipt(
        body,
        stub,
        id,
        passport_id,
        outcome.passport.profiles@.len(),
        now,
        answers.commitment@,
    )
    &&& after.len() == before.len() + 1
    &&& after.drop_last() == before
    &&& after.last().passport_id@ == passport_id
    &&& after.last().passport == outcome.passport
    &&& after.last().receipt == outcome.receipt
}

/// Whether an id resolves so: to an ingested passport that goes by it as its
/// passport id or product identity, or to none where none does.
pub open spec fn is_resolution(
    entries: Seq<IngestEntry>,
    id: Text,
    r: Option<&GatewayPassport>,
) -> bool {
    match r {
        Some(p) => (p.document.passport_id@ == id || p.document.product_id.display@ == id)
            && exists|i: int| 0 <= i < entries.len() && *(#[trigger] entries[i]).passport == *p,
        None => forall|i: int|
            0 <= i < entries.len() ==> (#[trigger] entries[i]).passport.document.passport_id@ != id
                && entries[i].passport.document.product_id.display@ != id,
    }
}

/// A copy of a passport's profile bindings.
fn profiles_of(passport: &GatewayPassport) -> (r: Vec<ProfileRef>)
    ensures
        r@ == passport.profiles@,
{
    let n: usize = passport.profiles.len();
    let mut copy: Vec<ProfileRef> = Vec::new();
    let mut i: usize = 0;
    while i < n
        invariant
            i <= n == passport.profiles@.len(),
            copy@ == passport.profiles@.take(i as int),
        decreases n - i,
    {
        copy.push(passport.profiles[i].clone());
        assert(copy@ =~= passport.profiles@.take(i + 1));
        i = i + 1;
    }
    assert(passport.profiles@.take(n as int) =~= passport.profiles@);
    copy
}

/// The scheme that a receipt records.
fn scheme_uri_of(stub: &Json) -> (r: Option<&str>)
    ensures
        opt_text(r) == recorded_scheme(stub.view()),
{
    match stub.array_at("productIdentifiers") {
        Some(ids) => if ids.len() > 0 {
            ids[0].str_at("scheme")
        } else {
            None
        },
        None => None,
    }
}

/// The receipt of an import.
fn receipt_json(
    body: &Json,
    stub: &Json,
    passport_id: &str,
    warnings: Vec<Json>,
    bindings: usize,
    now: &Timestamp,
    commitment: &str,
    Ghost(id): Ghost<ImportedIdentifierView>,
) -> (j: Json)
    requires
        views(warnings@) == identifier_warnings(id),
    ensures
        j.view() == receipt(
            body.view(),
            stub.view(),
            id,
            passport_id@,
            bindings as nat,
            now.text@,
            commitment@,
        ),
{
    broadcast use lemma_array_view;

    let credentials: usize = match extract_conformity(body) {
        Some(items) => items.len(),
        None => 0,
    };
    let mut source: Vec<(String, Json)> = Vec::new();
    put_text(&mut source, "regime", "untp");
    put(&mut source, "stub_id", text_or_null(&owned(stub.str_at("id"))));
    put(&mut source, "identifier_scheme", text_or_null(&owned(scheme_uri_of(stub))));
    put_text(&mut source, "imported_at", now.text.as_str());
    let mut members: Vec<(String, Json)> = Vec::new();
    put_text(&mut members, "passport_id", passport_id);
    put(&mut members, "source", Json::Object(source));
    put(&mut members, "conformity_credentials", Json::Unsigned(credentials as u64));
    put(&mut members, "profile_bindings", Json::Unsigned(bindings as u64));
    put(&mut members, "warnings", Json::Array(warnings));
    put_text(&mut members, "commitment", commitment);
    Json::Object(members)
}

impl IngestStore {
    /// The empty store.
    pub fn new() -> (r: IngestStore)
        ensures
            r.entries@.len() == 0,
    {
        IngestStore { entries: Vec::new() }
    }

    /// The entry of a passport id.
    fn find(&self, passport_id: &str) -> (r: Option<&IngestEntry>)
        ensures
            match r {
                Some(entry) => entry.passport_id@ == passport_id@ && exists|i: int|
                    0 <= i < self.entries@.len() && (#[trigger] self.entries@[i]) == *entry,
                None => !ingested_as(self.entries@, passport_id@),
            },
    {
        let n: usize = self.entries.len();
        let mut i: usize = 0;
        while i < n
            invariant
                i <= n == self.entries@.len(),
                forall|j: int|
                    0 <= j < i ==> (#[trigger] self.entries@[j]).passport_id@ != passport_id@,
            decreases n - i,
        {
            if same(self.entries[i].passport_id.as_str(), passport_id) {
                assert(self.entries@[i as int] == self.entries[i as int]);
                return Some(&self.entries[i]);
            }
            i = i + 1;
        }
        None
    }

    /// Whether a passport of that id was ingested.
    pub fn knows(&self, passport_id: &str) -> (r: bool)
        ensures
            r == ingested_as(self.entries@, passport_id@),
    {
        match self.find(passport_id) {
            Some(entry) => true,
            None => false,
        }
    }

    /// The recorded receipt of a passport id, or the id alone.
    fn recorded_receipt(&self, passport_id: &str) -> (r: Arc<Json>)
        ensures
            is_recorded_receipt(self.entries@, passport_id@, r.view()),
    {
        let mut i: usize = self.entries.len();
        while i > 0
            invariant
                i <= self.entries@.len(),
                forall|j: int|
                    i <= j < self.entries@.len() ==> (
                    #[trigger] self.entries@[j]).passport.document.passport_id@ != passport_id@,
            decreases i,
        {
            i = i - 1;
            let entry = &self.entries[i];
            if same(entry.passport.document.passport_id.as_str(), passport_id) {
                assert(self.entries@[i as int].receipt.view() == entry.receipt.view());
                return entry.receipt.clone();
            }
        }
        let mut members: Vec<(String, Json)> = Vec::new();
        put_text(&mut members, "passport_id", passport_id);
        Arc::new(Json::Object(members))
    }

    /// Ingests a UNTP body, given what the core answered. A subject that was
    /// ingested before matches, whatever the core minted; every refusal
    /// leaves the store as it was.
    pub fn ingest(&mut self, body: &Json, answers: IngestAnswers, now: &Timestamp) -> (r: Result<
        IngestOutcome,
        String,
    >)
        requires
            answers.digest@.len() >= 12,
            answers.credential_dates@.len() == body_conformity(body.view()).len(),
        ensures
            is_ingest(
                old(self).entries@,
                body.view(),
                answers,
                now.text@,
                final(self).entries@,
                r,
            ),
    {
        let ghost given = answers;
        let stub = match extract_stub(body) {
            Ok(stub) => stub,
            Err(e) => {
                return Err(e);
            },
        };
        let identifier = match read_identifier(stub) {
            Ok(identifier) => identifier,
            Err(e) => {
                return Err(e);
            },
        };
        let warnings = match parse_identity(&identifier, answers.identity) {
            Ok((_, warnings)) => warnings,
            Err(e) => {
                return Err(e);
            },
        };
        let passport_id = derived_passport_id(answers.digest.as_str());
        match self.find(passport_id.as_str()) {
            Some(entry) => {
                let outcome = IngestOutcome {
                    status: IngestStatus::Matched,
                    passport: entry.passport.clone(),
                    profiles: profiles_of(&entry.passport),
                    receipt: self.recorded_receipt(passport_id.as_str()),
                };
                assert(is_match(self.entries@, passport_id@, outcome));
                return Ok(outcome);
            },
            None => {},
        }
        let document = match answers.minted {
            Ok(document) => document,
            Err(e) => {
                return Err(
                    "mint failed for the imported identity: ".to_owned().concat(e.as_str()),
                );
            },
        };
        let profiles = conformity_bindings(extract_conformity(body), &answers.credential_dates);
        let passport = Arc::new(GatewayPassport::fixture(document, profiles));
        let receipt = Arc::new(
            receipt_json(
                body,
                stub,
                passport_id.as_str(),
                warnings,
                passport.profiles.len(),
                now,
                answers.commitment.as_str(),
                Ghost(identifier.view()),
            ),
        );
        self.entries.push(
            IngestEntry { passport_id, passport: passport.clone(), receipt: receipt.clone() },
        );
        assert(self.entries@.drop_last() =~= old(self).entries@);
        Ok(
            IngestOutcome {
                status: IngestStatus::Imported,
                profiles: profiles_of(&passport),
                passport,
                receipt,
            },
        )
    }

    /// Resolves an ingested passport by passport id or product identity.
    pub fn resolve(&self, id: &str) -> (r: Option<&GatewayPassport>)
        ensures
            is_resolution(self.entries@, id@, r),
    {
        let n: usize = self.entries.len();
        let mut i: usize = 0;
        while i < n
            invariant
                i <= n == self.entries@.len(),
                forall|j: int|
                    0 <= j < i ==> (#[trigger] self.entries@[j]).passport.document.passport_id@
                        != id@ && self.entries@[j].passport.document.product_id.display@ != id@,
            decreases n - i,
        {
            let entry = &self.entries[i];
            if same(entry.passport.document.passport_id.as_str(), id) || same(
                entry.passport.document.product_id.display.as_str(),
                id,
            ) {
                assert(*self.entries@[i as int].passport == *entry.passport);
                return Some(&entry.passport);
            }
            i = i + 1;
        }
        None
    }

    /// How many ingested passports the store holds.
    pub fn len(&self) -> (r: usize)
        ensures
            r == self.entries@.len(),
    {
        self.entries.len()
    }

    /// Whether the store holds no passport.
    pub fn is_empty(&self) -> (r: bool)
        ensures
            r == (self.entries@.len() == 0),
    {
        self.entries.len() == 0
    }
}

// ---------------------------------------------------------------------------
// Laws
// ---------------------------------------------------------------------------

/// Whether no two entries share a passport id.
pub open spec fn distinct_ids(entries: Seq<IngestEntry>) -> bool {
    forall|i: int, j: int|
        0 <= i < j < entries.len() ==> (#[trigger] entries[i]).passport_id@ != (
        #[trigger] entries[j]).passport_id@
}

/// One subject, one identity: no ingest ever puts two passports under one
/// passport id.
pub proof fn law_one_identity_per_subject(
    before: Seq<IngestEntry>,
    body: JsonView,
    answers: IngestAnswers,
    now: Text,
    after: Seq<IngestEntry>,
    r: Result<IngestOutcome, String>,
)
    requires
        distinct_ids(before),
        is_ingest(before, body, answers, now, after, r),
    ensures
        distinct_ids(after),
{
    if after != before {
        assert forall|i: int, j: int| 0 <= i < j < after.len() implies (
        #[trigger] after[i]).passport_id@ != (#[trigger] after[j]).passport_id@ by {
            assert(before[i] == after[i]);
            if j < before.len() {
                assert(before[j] == after[j]);
            }
        }
    }
}

/// What is refused leaves the store as it was, and so does what matches; only
/// an import adds an entry. An identifier without a mapping, a body without a
/// passport credential and a failed mint are all refused.
pub proof fn law_only_an_import_changes_the_store(
    before: Seq<IngestEntry>,
    body: JsonView,
    answers: IngestAnswers,
    now: Text,
    after: Seq<IngestEntry>,
    r: Result<IngestOutcome, String>,
)
    requires
        is_ingest(before, body, answers, now, after, r),
    ensures
        r is Err ==> after == before,
        r matches Ok(outcome) ==> (outcome.status is Matched ==> after == before) && (
        outcome.status is Imported ==> after.len() == before.len() + 1),
        answers.identity is None ==> r is Err,
{
}

/// Importing again matches: once an ingest succeeded, every later body for
/// the same subject returns the same passport and leaves the store as it is,
/// whatever else it says and whatever the core minted for it.
pub proof fn law_reingest_matches(
    before: Seq<IngestEntry>,
    body: JsonView,
    answers: IngestAnswers,
    now: Text,
    middle: Seq<IngestEntry>,
    first: IngestOutcome,
    other_body: JsonView,
    other_answers: IngestAnswers,
    later: Text,
    after: Seq<IngestEntry>,
    r: Result<IngestOutcome, String>,
)
    requires
        distinct_ids(before),
        is_ingest(before, body, answers, now, middle, Ok(first)),
        is_ingest(middle, other_body, other_answers, later, after, r),
        body_stub(other_body) is Ok,
        first_identifier(body_stub(other_body)->Ok_0) is Ok,
        other_answers.identity is Some,
        other_answers.digest@ == answers.digest@,
    ensures
        r matches Ok(again) && again.status is Matched && again.passport == first.passport,
        after == middle,
{
    let passport_id = derived_id(answers.digest@);
    law_one_identity_per_subject(before, body, answers, now, middle, Ok(first));
    let outcome: Result<IngestOutcome, String> = Ok(first);
    if first.status is Matched {
        let i = choose|i: int|
            0 <= i < before.len() && (#[trigger] before[i]).passport_id@ == passport_id
                && before[i].passport == first.passport;
        assert(middle[i].passport_id@ == passport_id && middle[i].passport == first.passport);
    } else {
        assert(middle[middle.len() - 1].passport_id@ == passport_id);
    }
    assert(ingested_as(middle, passport_id));
    let again = r->Ok_0;
    let i = choose|i: int|
        0 <= i < middle.len() && (#[trigger] middle[i]).passport_id@ == passport_id
            && middle[i].passport == again.passport;
    let j = choose|j: int|
        0 <= j < middle.len() && (#[trigger] middle[j]).passport_id@ == passport_id
            && middle[j].passport == first.passport;
    if i < j {
        assert(middle[i].passport_id@ != middle[j].passport_id@);
    } else if j < i {
        assert(middle[j].passport_id@ != middle[i].passport_id@);
    }
}

/// The passport id comes from the digest of the subject's identity alone.
pub proof fn law_identity_comes_from_the_digest(a: Text, b: Text)
    requires
        a.len() >= 12,
        b.len() >= 12,
    ensures
        derived_id(a) == derived_id(b) <==> a.take(12) == b.take(12),
{
    let prefix = "urn:unidpp:passport:untp-"@;
    if derived_id(a) == derived_id(b) {
        assert(a.take(12) =~= derived_id(a).skip(prefix.len() as int));
        assert(b.take(12) =~= derived_id(b).skip(prefix.len() as int));
    }
}

/// The digests of two identities are taken of one text exactly when the
/// identities have one display form.
pub proof fn law_identities_digest_apart(a: Text, b: Text)
    ensures
        digested_identity(a) == digested_identity(b) <==> a == b,
{
    let domain = "UNIDPP/GATEWAY/UNTP-INGEST|"@;
    if digested_identity(a) == digested_identity(b) {
        assert(a =~= digested_identity(a).skip(domain.len() as int));
        assert(b =~= digested_identity(b).skip(domain.len() as int));
    }
}

/// There are at most as many bindings as conformity credentials.
pub proof fn law_bindings_come_from_credentials(
    profiles: Seq<ProfileRef>,
    credentials: Seq<JsonView>,
    dates: Seq<Option<Timestamp>>,
)
    requires
        are_bindings(profiles, credentials, dates),
    ensures
        profiles.len() <= credentials.len(),
    decreases credentials.len(),
{
    if credentials.len() > 0 {
        if named_standard(credentials.last()) is Some {
            law_bindings_come_from_credentials(
                profiles.drop_last(),
                credentials.drop_last(),
                dates,
            );
        } else {
            law_bindings_come_from_credentials(profiles, credentials.drop_last(), dates);
        }
    }
}

/// Every conformity credential that names a standard lands as a binding of
/// that standard.
pub proof fn law_named_standards_are_bound(
    profiles: Seq<ProfileRef>,
    credentials: Seq<JsonView>,
    dates: Seq<Option<Timestamp>>,
    c: int,
)
    requires
        are_bindings(profiles, credentials, dates),
        0 <= c < credentials.len(),
        named_standard(credentials[c]) is Some,
    ensures
        exists|j: int|
            0 <= j < profiles.len() && binds(#[trigger] profiles[j], credentials[c], dates[c]),
    decreases credentials.len(),
{
    let last = credentials.len() - 1;
    if named_standard(credentials.last()) is Some {
        let init = profiles.drop_last();
        if c == last {
            assert(binds(profiles[profiles.len() - 1], credentials[c], dates[c]));
        } else {
            law_named_standards_are_bound(init, credentials.drop_last(), dates, c);
            let j = choose|j: int|
                0 <= j < init.len() && binds(#[trigger] init[j], credentials[c], dates[c]);
            assert(binds(profiles[j], credentials[c], dates[c]));
        }
    } else {
        law_named_standards_are_bound(profiles, credentials.drop_last(), dates, c);
    }
}

/// Whether a passport goes by the id: as its passport id or as its product
/// identity.
pub open spec fn goes_by(p: &GatewayPassport, id: Text) -> bool {
    p.document.passport_id@ == id || p.document.product_id.display@ == id
}

/// After an import every id that the new passport does not go by resolves as
/// before, and every id that it goes by resolves to it or as before; so that it
/// resolves to the new passport alone where it resolved to none.
pub proof fn law_import_resolves(
    before: Seq<IngestEntry>,
    body: JsonView,
    answers: IngestAnswers,
    now: Text,
    after: Seq<IngestEntry>,
    outcome: IngestOutcome,
    id: Text,
    r: Option<&GatewayPassport>,
)
    requires
        is_ingest(before, body, answers, now, after, Ok(outcome)),
        outcome.status is Imported,
    ensures
        after.len() == before.len() + 1,
        !goes_by(&outcome.passport, id) ==> (is_resolution(after, id, r) <==> is_resolution(
            before,
            id,
            r,
        )),
        goes_by(&outcome.passport, id) ==> (is_resolution(after, id, r) <==> (r matches Some(p) && (
        *p == *outcome.passport || is_resolution(before, id, r)))),
{
    let n = before.len() as int;
    assert(after[n] == after.last());
    assert forall|i: int| 0 <= i < n implies #[trigger] before[i] == after[i] by {
        assert(after.drop_last()[i] == before[i]);
    }
    if let Some(p) = r {
        assert(after[n].passport == outcome.passport);
        if is_resolution(after, id, r) {
            let i = choose|i: int| 0 <= i < after.len() && *(#[trigger] after[i]).passport == *p;
            if i < n {
                assert(before[i] == after[i]);
                assert(*before[i].passport == *p);
            }
        }
        if is_resolution(before, id, r) {
            let i = choose|i: int| 0 <= i < before.len() && *(#[trigger] before[i]).passport == *p;
            assert(before[i] == after[i]);
            assert(*after[i].passport == *p);
        }
    } else {
        if is_resolution(before, id, None) && !goes_by(&outcome.passport, id) {
            assert forall|i: int| 0 <= i < after.len() implies (
            #[trigger] after[i]).passport.document.passport_id@ != id
                && after[i].passport.document.product_id.display@ != id by {
                if i < n {
                    assert(before[i] == after[i]);
                }
            }
        }
        if is_resolution(after, id, None) {
            assert forall|i: int| 0 <= i < before.len() implies (
            #[trigger] before[i]).passport.document.passport_id@ != id
                && before[i].passport.document.product_id.display@ != id by {
                assert(before[i] == after[i]);
            }
            assert(!goes_by(&after[n].passport, id));
        }
    }
}

/// Whether the core answers as it is asked: the digest is that of the
/// identity, and what it mints has that identity, the derived passport id and
/// an empty log.
pub open spec fn answers_as_asked(answers: IngestAnswers, digest: spec_fn(Text) -> Text) -> bool {
    answers.identity matches Some(identity) ==> {
        &&& answers.digest@ == digest(digested_identity(identity.display@))
        &&& answers.minted matches Ok(document) ==> {
            &&& document.product_id.display@ == identity.display@
            &&& document.passport_id@ == derived_id(answers.digest@)
            &&& document.log.sealed@.len() == 0
        }
    }
}

/// Whether every entry stands under the passport id that its subject's
/// identity derives, and holds a passport of that id with an empty log.
pub open spec fn derives_ids(entries: Seq<IngestEntry>, digest: spec_fn(Text) -> Text) -> bool {
    forall|i: int|
        0 <= i < entries.len() ==> {
            let document = (#[trigger] entries[i]).passport.document;
            &&& entries[i].passport_id@ == derived_id(
                digest(digested_identity(document.product_id.display@)),
            )
            &&& document.passport_id@ == entries[i].passport_id@
            &&& document.log.sealed@.len() == 0
        }
}

/// Whether the stores are those of a run of ingests on an empty store.
pub open spec fn is_ingest_history(
    bodies: Seq<JsonView>,
    answers: Seq<IngestAnswers>,
    instants: Seq<Text>,
    results: Seq<Result<IngestOutcome, String>>,
    stores: Seq<Seq<IngestEntry>>,
) -> bool {
    &&& stores.len() == bodies.len() + 1
    &&& stores[0].len() == 0
    &&& forall|i: int|
        0 <= i < bodies.len() ==> is_ingest(
            stores[i],
            #[trigger] bodies[i],
            answers[i],
            instants[i],
            stores[i + 1],
            results[i],
        )
}

/// Over any history of ingests, with a core that answers as it is asked: no
/// two passports share a passport id or a product identity, each stands under
/// the id that its identity derives, and each has an empty log.
pub proof fn law_one_passport_per_identity(
    bodies: Seq<JsonView>,
    answers: Seq<IngestAnswers>,
    instants: Seq<Text>,
    results: Seq<Result<IngestOutcome, String>>,
    stores: Seq<Seq<IngestEntry>>,
    digest: spec_fn(Text) -> Text,
)
    requires
        is_ingest_history(bodies, answers, instants, results, stores),
        forall|i: int| 0 <= i < bodies.len() ==> answers_as_asked(#[trigger] answers[i], digest),
    ensures
        distinct_ids(stores.last()),
        derives_ids(stores.last(), digest),
        forall|i: int, j: int|
            0 <= i < j < stores.last().len() ==> (
            #[trigger] stores.last()[i]).passport.document.product_id.display@ != (
            #[trigger] stores.last()[j]).passport.document.product_id.display@,
    decreases bodies.len(),
{
    if bodies.len() > 0 {
        let n = bodies.len() - 1;
        let earlier = stores.drop_last();
        assert forall|i: int| 0 <= i < bodies.drop_last().len() implies is_ingest(
            earlier[i],
            #[trigger] bodies.drop_last()[i],
            answers[i],
            instants[i],
            earlier[i + 1],
            results[i],
        ) by {
            assert(bodies[i] == bodies.drop_last()[i]);
        }
        law_one_passport_per_identity(
            bodies.drop_last(),
            answers,
            instants,
            results,
            earlier,
            digest,
        );
        let before = stores[n];
        let after = stores[n + 1];
        assert(earlier.last() == before && stores.last() == after);
        assert(is_ingest(before, bodies[n], answers[n], instants[n], after, results[n]));
        assert(answers_as_asked(answers[n], digest));
        law_one_identity_per_subject(
            before,
            bodies[n],
            answers[n],
            instants[n],
            after,
            results[n],
        );
        assert forall|i: int| 0 <= i < after.len() implies {
            let document = (#[trigger] after[i]).passport.document;
            &&& after[i].passport_id@ == derived_id(
                digest(digested_identity(document.product_id.display@)),
            )
            &&& document.passport_id@ == after[i].passport_id@
            &&& document.log.sealed@.len() == 0
        } by {
            if i < before.len() {
                assert(before[i] == after[i]);
            } else {
                assert(after[i] == after.last());
            }
        }
        assert forall|i: int, j: int| 0 <= i < j < after.len() implies (
        #[trigger] after[i]).passport.document.product_id.display@ != (
        #[trigger] after[j]).passport.document.product_id.display@ by {
            assert(after[i].passport_id@ != after[j].passport_id@);
        }
    }
}

/// Whether a passport of the store goes by the id, and has it as the other of
/// its two ids than the given passport.
pub open spec fn goes_crosswise(entries: Seq<IngestEntry>, p: &GatewayPassport, id: Text) -> bool {
    exists|i: int|
        0 <= i < entries.len() && goes_by(&(#[trigger] entries[i]).passport, id) && (
        entries[i].passport.document.passport_id@ == id <==> p.document.passport_id@ != id)
}

/// Over any history of ingests, with a core that answers as it is asked, an
/// import adds one passport, which has an empty log and resolves by its
/// passport id and by its product identity: to it alone, exactly where no
/// earlier passport has that id as the other of its two. What is refused or
/// matches changes no resolution, and an import none by another id.
pub proof fn law_imports_resolve_by_both_ids(
    bodies: Seq<JsonView>,
    answers: Seq<IngestAnswers>,
    instants: Seq<Text>,
    results: Seq<Result<IngestOutcome, String>>,
    stores: Seq<Seq<IngestEntry>>,
    digest: spec_fn(Text) -> Text,
    k: int,
    id: Text,
    r: Option<&GatewayPassport>,
)
    requires
        is_ingest_history(bodies, answers, instants, results, stores),
        forall|i: int| 0 <= i < bodies.len() ==> answers_as_asked(#[trigger] answers[i], digest),
        0 <= k < bodies.len(),
    ensures
        match results[k] {
            Ok(outcome) if outcome.status is Imported => {
                let new = outcome.passport;
                &&& stores[k + 1].len() == stores[k].len() + 1
                &&& new.document.log.sealed@.len() == 0
                &&& is_resolution(stores[k + 1], id, Some(&*new)) <==> goes_by(&new, id)
                &&& !goes_by(&new, id) ==> (is_resolution(stores[k + 1], id, r) <==> is_resolution(
                    stores[k],
                    id,
                    r,
                ))
                &&& goes_by(&new, id) && !goes_crosswise(stores[k], &new, id) ==> (is_resolution(
                    stores[k + 1],
                    id,
                    r,
                ) <==> (r matches Some(p) && *p == *new))
                &&& goes_by(&new, id) && goes_crosswise(stores[k], &new, id) ==> exists|
                    other: &GatewayPassport|
                    *other != *new && #[trigger] is_resolution(stores[k + 1], id, Some(other))
            },
            _ => stores[k + 1] == stores[k],
        },
{
    let before = stores[k];
    let after = stores[k + 1];
    assert(is_ingest(before, bodies[k], answers[k], instants[k], after, results[k]));
    assert(answers_as_asked(answers[k], digest));
    assert forall|i: int| 0 <= i < bodies.take(k).len() implies is_ingest(
        stores.take(k + 1)[i],
        #[trigger] bodies.take(k)[i],
        answers[i],
        instants[i],
        stores.take(k + 1)[i + 1],
        results[i],
    ) by {
        assert(bodies[i] == bodies.take(k)[i]);
    }
    law_one_passport_per_identity(
        bodies.take(k),
        answers,
        instants,
        results,
        stores.take(k + 1),
        digest,
    );
    assert(stores.take(k + 1).last() == before);
    if let Ok(outcome) = results[k] {
        if outcome.status is Imported {
            let new = outcome.passport;
            let passport_id = derived_id(answers[k].digest@);
            assert(new.document.passport_id@ == passport_id);
            // No earlier passport shares either id with the new one.
            assert forall|i: int| 0 <= i < before.len() implies (
            #[trigger] before[i]).passport.document.passport_id@ != new.document.passport_id@
                && before[i].passport.document.product_id.display@
                != new.document.product_id.display@ by {
                assert(before[i].passport_id@ != passport_id);
            }
            law_import_resolves(
                before,
                bodies[k],
                answers[k],
                instants[k],
                after,
                outcome,
                id,
                Some(&*new),
            );
            law_import_resolves(
                before,
                bodies[k],
                answers[k],
                instants[k],
                after,
                outcome,
                id,
                r,
            );
            if goes_by(&new, id) && goes_crosswise(before, &new, id) {
                let i = choose|i: int|
                    0 <= i < before.len() && goes_by(&(#[trigger] before[i]).passport, id) && (
                    before[i].passport.document.passport_id@ == id <==> new.document.passport_id@
                        != id);
                let other: &GatewayPassport = &before[i].passport;
                assert(is_resolution(before, id, Some(other)));
                law_import_resolves(
                    before,
                    bodies[k],
                    answers[k],
                    instants[k],
                    after,
                    outcome,
                    id,
                    Some(other),
                );
                assert(*other != *new && is_resolution(after, id, Some(other)));
            }
            if goes_by(&new, id) && !goes_crosswise(before, &new, id) {
                if let Some(p) = r {
                    if is_resolution(before, id, r) {
                        let i = choose|i: int|
                            0 <= i < before.len() && *(#[trigger] before[i]).passport == *p;
                        assert(goes_by(&before[i].passport, id));
                    }
                }
            }
        }
    }
}

/// The identity that is imported is the first identifier of the list: its value
/// is that object's `value`, under its `scheme`, or the GS1 vocabulary where that
/// is absent or empty. Two stubs whose lists begin with one object import one
/// identity, whatever identifiers follow; how many follow is counted.
pub proof fn law_the_first_identifier_is_imported(a: JsonView, b: JsonView)
    requires
        a.items_at("productIdentifiers"@) matches Some(ids) && ids.len() > 0 && ids[0] is Object
            && (b.items_at("productIdentifiers"@) matches Some(others) && others.len() > 0
            && others[0] == ids[0]),
    ensures
        ({
            let ids = a.items_at("productIdentifiers"@).unwrap();
            let others = b.items_at("productIdentifiers"@).unwrap();
            match (first_identifier(a), first_identifier(b)) {
                (Ok(x), Ok(y)) => {
                    &&& x.scheme == y.scheme
                    &&& x.token == y.token
                    &&& x.value == y.value
                    &&& x.display == y.display
                    &&& x.additional == ids.len() - 1
                    &&& y.additional == others.len() - 1
                    &&& ids[0].text_at("value"@) == Some(x.value)
                    &&& x.value.len() > 0
                    &&& x.scheme == (match ids[0].text_at("scheme"@) {
                        Some(uri) => if uri.len() > 0 {
                            uri
                        } else {
                            "https://gs1.org/voc/"@
                        },
                        None => "https://gs1.org/voc/"@,
                    })
                    &&& x.token == token_of_uri(x.scheme)
                    &&& x.display == core_value(x.token, x.value)
                },
                (Err(x), Err(y)) => x == y && x == "the identifier carries no value"@ && !(
                ids[0].text_at("value"@) matches Some(value) && value.len() > 0),
                _ => false,
            }
        }),
{
}

/// A stub has an identity to import exactly where its list of identifiers opens
/// with an object that has a value; otherwise the refusal says what is missing.
pub proof fn law_stubs_without_an_identity(stub: JsonView)
    ensures
        first_identifier(stub) is Ok <==> (stub.items_at("productIdentifiers"@) matches Some(ids)
            && ids.len() > 0 && ids[0] is Object && (ids[0].text_at("value"@) matches Some(value)
            && value.len() > 0)),
        !(stub.items_at("productIdentifiers"@) matches Some(ids) && ids.len() > 0)
            ==> first_identifier(stub) == Err::<ImportedIdentifierView, Text>(
            "the passport VC carries no productIdentifiers"@,
        ),
        (stub.items_at("productIdentifiers"@) matches Some(ids) && ids.len() > 0 && !(
        ids[0] is Object)) ==> first_identifier(stub) == Err::<ImportedIdentifierView, Text>(
            "the first productIdentifier is malformed"@,
        ),
{
}

/// What is ingested of a body: its `stub` where it has one; else the body itself
/// where it has identifiers; else its `passport` where that has identifiers; else
/// nothing. Its conformity credentials are the items of its `conformity`.
pub proof fn law_body_shapes(body: JsonView)
    ensures
        body.member("stub"@) is Some ==> body_stub(body) == Ok::<JsonView, Text>(
            body.member("stub"@).unwrap(),
        ),
        body.member("stub"@) is None && body.member("productIdentifiers"@) is Some ==> body_stub(
            body,
        ) == Ok::<JsonView, Text>(body),
        body.member("stub"@) is None && body.member("productIdentifiers"@) is None && (body.member(
            "passport"@,
        ) matches Some(passport) && passport.member("productIdentifiers"@) is Some) ==> body_stub(
            body,
        ) == Ok::<JsonView, Text>(body.member("passport"@).unwrap()),
        body.member("stub"@) is None && body.member("productIdentifiers"@) is None && !(
        body.member("passport"@) matches Some(passport) && passport.member(
            "productIdentifiers"@,
        ) is Some) ==> body_stub(body) == Err::<JsonView, Text>(
            "no UNTP passport VC found (expected {passport: {...productIdentifiers...}}, a bare passport VC, or {stub: {...}})"@,
        ),
        body.items_at("conformity"@) matches Some(items) ==> body_conformity(body) == items,
        body.items_at("conformity"@) is None ==> body_conformity(body).len() == 0,
{
}

/// What one more conformity credential binds: where its subject names a standard
/// that is not blank, that standard, trimmed, in the version it names, or
/// `unversioned`, since the instant its `validFrom` reads as, behind the bindings
/// of the credentials before it; otherwise nothing. No credential binds nothing.
pub proof fn law_one_more_credential(
    profiles: Seq<ProfileRef>,
    credentials: Seq<JsonView>,
    credential: JsonView,
    dates: Seq<Option<Timestamp>>,
)
    requires
        are_bindings(profiles, credentials.push(credential), dates),
    ensures
        ({
            let named = match credential.member("credentialSubject"@) {
                Some(subject) => subject.member("conformity"@),
                None => None,
            };
            let standard = match named {
                Some(named) => named.text_at("standard"@),
                None => None,
            };
            if standard matches Some(id) && !is_blank(id) {
                let profile = profiles.last();
                &&& profiles.len() > 0
                &&& are_bindings(profiles.drop_last(), credentials, dates)
                &&& profile.id@ == trimmed(standard.unwrap())
                &&& profile.version@ == trimmed(
                    match named.unwrap().text_at("version"@) {
                        Some(version) => version,
                        None => "unversioned"@,
                    },
                )
                &&& credential.text_at("validFrom"@) is Some ==> profile.effective_from
                    == dates[credentials.len() as int]
                &&& credential.text_at("validFrom"@) is None ==> profile.effective_from is None
            } else {
                are_bindings(profiles, credentials, dates)
            }
        }),
        are_bindings(Seq::empty(), Seq::empty(), dates),
        credentials.len() == 0 && are_bindings(profiles, credentials, dates) ==> profiles.len()
            == 0,
{
    assert(credentials.push(credential).drop_last() =~= credentials);
}

/// The member names of a receipt, told apart.
proof fn lemma_receipt_names()
    ensures
        "passport_id"@.len() == 11,
        "source"@.len() == 6,
        "conformity_credentials"@.len() == 22,
        "profile_bindings"@.len() == 16,
        "warnings"@.len() == 8,
        "commitment"@.len() == 10,
        "regime"@.len() == 6,
        "stub_id"@.len() == 7,
        "identifier_scheme"@.len() == 17,
        "imported_at"@.len() == 11,
{
    reveal_strlit("passport_id");
    reveal_strlit("source");
    reveal_strlit("conformity_credentials");
    reveal_strlit("profile_bindings");
    reveal_strlit("warnings");
    reveal_strlit("commitment");
    reveal_strlit("regime");
    reveal_strlit("stub_id");
    reveal_strlit("identifier_scheme");
    reveal_strlit("imported_at");
}

/// What an import yields: the passport that the core minted, under the passport
/// id that the digest of its subject derives, with the bindings of the body's
/// conformity credentials and no trust anchor; and a receipt of it, which says
/// where the passport came from and when, how many credentials and bindings
/// there were, the commitment over the stub, and a warning exactly where the
/// stub carries more identifiers than the one that was imported.
pub proof fn law_imports(
    before: Seq<IngestEntry>,
    body: JsonView,
    answers: IngestAnswers,
    now: Text,
    after: Seq<IngestEntry>,
    outcome: IngestOutcome,
)
    requires
        is_ingest(before, body, answers, now, after, Ok(outcome)),
        outcome.status is Imported,
    ensures
        ({
            let stub = body_stub(body)->Ok_0;
            let ids = stub.items_at("productIdentifiers"@).unwrap();
            let r = outcome.receipt.view();
            let passport_id = "urn:unidpp:passport:untp-"@ + answers.digest@.take(12);
            &&& answers.minted matches Ok(document) && outcome.passport.document == document
            &&& outcome.passport.anchors.view() == Map::<Text, Seq<u8>>::empty()
            &&& outcome.passport.origin is Fixture
            &&& outcome.profiles@ == outcome.passport.profiles@
            &&& are_bindings(
                outcome.profiles@,
                body_conformity(body),
                answers.credential_dates@,
            )
            &&& after == before.push(after.last())
            &&& after.last().passport_id@ == passport_id
            &&& after.last().passport == outcome.passport
            &&& after.last().receipt == outcome.receipt
            &&& forall|i: int|
                0 <= i < before.len() ==> (#[trigger] before[i]).passport_id@ != passport_id
            &&& r.text_at("passport_id"@) == Some(passport_id)
            &&& r.text_at("commitment"@) == Some(answers.commitment@)
            &&& r.member("conformity_credentials"@) == Some(
                JsonView::Unsigned(body_conformity(body).len() as u64),
            )
            &&& r.member("profile_bindings"@) == Some(
                JsonView::Unsigned(outcome.profiles@.len() as u64),
            )
            &&& r.member("source"@) matches Some(source) && {
                &&& source.text_at("regime"@) == Some("untp"@)
                &&& source.text_at("stub_id"@) == stub.text_at("id"@)
                &&& source.text_at("identifier_scheme"@) == ids[0].text_at("scheme"@)
                &&& source.text_at("imported_at"@) == Some(now)
            }
            &&& r.items_at("warnings"@) matches Some(warnings) && warnings.len() == (if ids.len()
                > 1 {
                1int
            } else {
                0int
            }) && (ids.len() > 1 ==> warnings[0] == JsonView::Text(
                decimal((ids.len() - 1) as nat)
                    + " additional product identifiers recorded in the receipt only (the core identity is the first, per the render convention)"@,
            ))
        }),
{
    lemma_receipt_names();
    assert(after =~= before.push(after.last()));
}

/// What an ingest does goes by the body, the core's answers and the store: it is
/// refused exactly where the body holds no passport, the passport no identity,
/// the core reads none of it, or, for a subject that is new, minting fails, with
/// the reason stated; a subject that was imported before matches, and is given
/// back with its receipt; any other is imported.
pub proof fn law_ingests(
    before: Seq<IngestEntry>,
    body: JsonView,
    answers: IngestAnswers,
    now: Text,
    after: Seq<IngestEntry>,
    r: Result<IngestOutcome, String>,
)
    requires
        is_ingest(before, body, answers, now, after, r),
    ensures
        ({
            let passport_id = "urn:unidpp:passport:untp-"@ + answers.digest@.take(12);
            let readable = body_stub(body) is Ok && first_identifier(body_stub(body)->Ok_0) is Ok
                && answers.identity is Some;
            let known = exists|i: int|
                0 <= i < before.len() && (#[trigger] before[i]).passport_id@ == passport_id;
            &&& r is Err <==> !readable || (!known && answers.minted is Err)
            &&& r matches Ok(outcome) ==> (outcome.status is Matched <==> known)
            &&& r matches Ok(outcome) ==> (known ==> after == before && (exists|i: int|
                0 <= i < before.len() && (#[trigger] before[i]).passport_id@ == passport_id
                    && before[i].passport == outcome.passport))
            &&& r is Err ==> after == before
            &&& readable && !known ==> (answers.minted matches Err(reason) ==> (r matches Err(e)
                && e@ == "mint failed for the imported identity: "@ + reason@))
            &&& body_stub(body) is Ok && first_identifier(body_stub(body)->Ok_0) is Ok
                && answers.identity is None ==> (r matches Err(e) && ({
                let id = first_identifier(body_stub(body)->Ok_0)->Ok_0;
                e@ == "identifier scheme `"@ + id.scheme + "` (token `"@ + id.token
                    + "`, value `"@ + id.value
                    + "`) has no C8 mapping onto the core identity table: nothing is minted under a guessed scheme (record the scheme in the registry, then re-ingest)"@
            }))
        }),
{
}

/// A match gives back what was recorded: the passport's own bindings and the
/// receipt of an entry of that passport id.
pub proof fn law_matches(
    before: Seq<IngestEntry>,
    body: JsonView,
    answers: IngestAnswers,
    now: Text,
    after: Seq<IngestEntry>,
    outcome: IngestOutcome,
)
    requires
        is_ingest(before, body, answers, now, after, Ok(outcome)),
        outcome.status is Matched,
    ensures
        outcome.profiles@ == outcome.passport.profiles@,
        ({
            let passport_id = "urn:unidpp:passport:untp-"@ + answers.digest@.take(12);
            &&& (exists|i: int|
                0 <= i < before.len() && (
                #[trigger] before[i]).passport.document.passport_id@ == passport_id) ==> exists|
                i: int|
                0 <= i < before.len() && (
                #[trigger] before[i]).passport.document.passport_id@ == passport_id
                    && before[i].receipt.view() == outcome.receipt.view()
            &&& (forall|i: int|
                0 <= i < before.len() ==> (
                #[trigger] before[i]).passport.document.passport_id@ != passport_id)
                ==> outcome.receipt.view().text_at("passport_id"@) == Some(passport_id)
        }),
{
}

/// What an import asks of the core: the display form of the first identifier
/// read as an identity, under the issuer that the stub names as economic
/// operator, or the import itself; served where the link of the body points; with
/// the validity and the dates that the stub and the credentials state, and the
/// stub's own text to be committed to.
pub proof fn law_import_questions(body: &Json, question: IngestQuestion, i: int)
    requires
        call_ensures(ingest_question, (body,), Ok(question)),
    ensures
        body_stub(body.view()) is Ok,
        ({
            let stub = body_stub(body.view())->Ok_0;
            let issuer = match stub.member("passportIssuer"@) {
                Some(issuer) => issuer.text_at("id"@),
                None => None,
            };
            let target = match body.view().member("link"@) {
                Some(link) => link.text_at("target"@),
                None => None,
            };
            let credentials = body_conformity(body.view());
            &&& first_identifier(stub) == Ok::<ImportedIdentifierView, Text>(
                question.identifier.view(),
            )
            &&& question.eo_id@ == (if issuer matches Some(id) && id.len() > 0 {
                issuer.unwrap()
            } else {
                "urn:unidpp:import:untp"@
            })
            &&& opt_string(question.resolver_uri) == (if target matches Some(uri) && uri.len() > 0 {
                target
            } else {
                None
            })
            &&& opt_string(question.valid_from) == stub.text_at("validFrom"@)
            &&& opt_string(question.valid_until) == stub.text_at("validUntil"@)
            &&& question.credential_dates@.len() == credentials.len()
            &&& 0 <= i < credentials.len() ==> opt_string(question.credential_dates@[i])
                == credentials[i].text_at("validFrom"@)
            &&& question.stub_text@ == compact_json(stub)
        }),
{
    let dates = question.credential_dates@.map_values(|d: Option<String>| opt_string(d));
    let stated = body_conformity(body.view()).map_values(|c: JsonView| c.text_at("validFrom"@));
    assert(dates == stated);
    assert(dates.len() == stated.len());
    if 0 <= i < stated.len() {
        assert(dates[i] == stated[i]);
    }
}

/// What an imported passport is minted from: the identity that was read, the
/// derived passport id and what the question states, in the class of imports,
/// with no type and no granularity of its own.
pub proof fn law_imports_are_minted(
    question: &IngestQuestion,
    identity: &ProductIdentifier,
    passport_id: &str,
    valid_from: Option<Timestamp>,
    valid_to: Option<Timestamp>,
    options: MintOptions,
)
    requires
        call_ensures(
            mint_options,
            (question, identity, passport_id, valid_from, valid_to),
            options,
        ),
    ensures
        options.id@ == identity.display@,
        opt_string(options.passport_id) == Some(passport_id@),
        opt_string(options.eo_id) == Some(question.eo_id@),
        opt_string(options.resolver_uri) == opt_string(question.resolver_uri),
        options.valid_from == valid_from,
        options.valid_to == valid_to,
        options.capability@ == "S1"@,
        options.type_ref is None,
        options.granularity is None,
{
}

/// The passport id of an import is its domain and the first twelve characters of
/// the digest, which is taken of the domain of the import and the display form.
pub proof fn law_derived_ids(identity: &ProductIdentifier, digest: &str, material: String, id: String)
    requires
        digest@.len() >= 12,
        call_ensures(identity_material, (identity,), material),
        call_ensures(derived_passport_id, (digest,), id),
    ensures
        material@ == "UNIDPP/GATEWAY/UNTP-INGEST|"@ + identity.display@,
        id@ == "urn:unidpp:passport:untp-"@ + digest@.take(12),
        derived_id(digest@) == id@,
        digested_identity(identity.display@) == material@,
{
}

/// A resolution goes by a passport's own ids: what resolves has the id as its
/// passport id or as its product identity and was ingested, and what is missing
/// was not.
pub proof fn law_resolutions(entries: Seq<IngestEntry>, id: Text, r: Option<&GatewayPassport>, i: int)
    requires
        is_resolution(entries, id, r),
    ensures
        r matches Some(p) ==> (p.document.passport_id@ == id || p.document.product_id.display@ == id)
            && exists|k: int| 0 <= k < entries.len() && *(#[trigger] entries[k]).passport == *p,
        r is None && 0 <= i < entries.len() ==> entries[i].passport.document.passport_id@ != id
            && entries[i].passport.document.product_id.display@ != id,
{
}

/// An ingest in one call is told of its body, the core's answers and its instant,
/// and changes the store as these say.
pub proof fn law_ingest_calls(
    store: &mut IngestStore,
    body: &Json,
    answers: IngestAnswers,
    now: &Timestamp,
    r: Result<IngestOutcome, String>,
)
    requires
        call_ensures(IngestStore::ingest, (store, body, answers, now), r),
    ensures
        is_ingest(
            old(store).entries@,
            body.view(),
            answers,
            now.text@,
            final(store).entries@,
            r,
        ),
        r is Err ==> final(store).entries@ == old(store).entries@,
        r matches Ok(outcome) ==> (outcome.status is Imported ==> final(store).entries@.len() == old(
            store,
        ).entries@.len() + 1 && (answers.minted matches Ok(document)
            && outcome.passport.document == document) && (outcome.receipt.view().member(
            "source"@,
        ) matches Some(source) && source.text_at("imported_at"@) == Some(now.text@))),
{
    lemma_receipt_names();
}

} // verus!
