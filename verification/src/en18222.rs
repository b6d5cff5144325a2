//! The EN 18222 binding: the REST render in the EN's JSON shape.
//!
//! | field | source in the neutral core |
//! |---|---|
//! | `digitalProductPassportId` | the passport URN |
//! | `uniqueProductIdentifier` | the GS1 key the route addressed |
//! | `granularity` | core granularity, capitalized (`Model`/`Batch`/`Item`) |
//! | `dppSchemaVersion` | `"0.1"` |
//! | `dppStatus` | replayed status (`issued` renders as `active`) |
//! | `lastUpdated` | last event time (full: seconds; compressed: `.0000000` fraction) |
//! | `economicOperatorId` / `facilityId` | the economic operator |
//! | `contentSpecificationIds` | `EN 18223:2026` and the bound profiles (`id@version`) |
//!
//! The full form carries `elements`: collections of single-valued elements,
//! every value printed as a string. The compressed form, which is the EN's
//! default, keys the collections directly, each leaf a member with a native
//! JSON value.
use vstd::prelude::*;

use crate::json::{lemma_array_view, members_view, put, put_text, text, views, Json, JsonView};
use crate::model::{
    EventPayload, Granularity, SafetyFlag, SealedEvent, Stamp, Status, Timestamp, TrustMarker,
};
use crate::source::{GatewayPassport, ProfileRef};
use crate::text::{
    after_last, decimal, decimal_text, is_blank, lemma_decimal_distinct, opt_text, same, strip_trailing,
    tail_after, trim, trimmed, without_trailing, Text,
};

verus! {

/// The registered render profile.
pub const EN18222_PROFILE: &'static str = "urn:unidpp:profile:render:en18222";

/// The serialization the EN 18222 API serves.
#[derive(Debug, Clone, Copy, PartialEq, Eq, Structural)]
pub enum Representation {
    Full,
    Compressed,
}

/// What a `representation` parameter selects: nothing, or a blank text, the
/// EN default; anything that is no representation is a client error.
pub open spec fn selected(param: Option<Text>) -> Result<Representation, Text> {
    match param {
        None => Ok(Representation::Compressed),
        Some(s) => {
            let name = trimmed(s);
            if name.len() == 0 || name == "compressed"@ {
                Ok(Representation::Compressed)
            } else if name == "full"@ {
                Ok(Representation::Full)
            } else {
                Err("unknown representation `"@ + name + "` (expected full|compressed)"@)
            }
        },
    }
}

impl Representation {
    /// Parses the `representation` parameter.
    pub fn parse(param: Option<&str>) -> (r: Result<Representation, String>)
        ensures
            match r {
                Ok(representation) => selected(opt_text(param)) == Ok::<
                    Representation,
                    Text,
                >(representation),
                Err(e) => selected(opt_text(param)) == Err::<Representation, Text>(
                    e@,
                ),
            },
    {
        proof {
            reveal_strlit("full");
            reveal_strlit("compressed");
        }
        match param {
            None => Ok(Representation::Compressed),
            Some(s) => {
                let name = trim(s);
                if name.is_empty() || same(name, "compressed") {
                    Ok(Representation::Compressed)
                } else if same(name, "full") {
                    Ok(Representation::Full)
                } else {
                    Err(
                        "unknown representation `".to_owned().concat(name).concat(
                            "` (expected full|compressed)",
                        ),
                    )
                }
            },
        }
    }

    /// The parameter value.
    pub open spec fn token(self) -> Text {
        match self {
            Representation::Full => "full"@,
            Representation::Compressed => "compressed"@,
        }
    }

    /// The parameter value.
    pub fn as_str(self) -> (r: &'static str)
        ensures
            r@ == self.token(),
    {
        match self {
            Representation::Full => "full",
            Representation::Compressed => "compressed",
        }
    }
}

// ---------------------------------------------------------------------------
// Leaves
// ---------------------------------------------------------------------------

/// A typed leaf value.
#[derive(Debug, PartialEq)]
pub enum Leaf {
    Str(String),
    Bool(bool),
    Num(u64),
}

/// One leaf data element; the wire typing happens per representation.
#[derive(Debug, PartialEq)]
pub struct LeafSpec {
    pub element_id: String,
    pub value: Leaf,
    pub xsd: &'static str,
}

/// What a leaf value says.
pub enum LeafValue {
    Str(Text),
    Bool(bool),
    Num(u64),
}

/// What a leaf says.
pub struct LeafView {
    pub element_id: Text,
    pub value: LeafValue,
    pub xsd: Text,
}

impl LeafValue {
    /// The value printed as a text.
    pub open spec fn printed(self) -> Text {
        match self {
            LeafValue::Str(s) => s,
            LeafValue::Bool(b) => if b {
                "true"@
            } else {
                "false"@
            },
            LeafValue::Num(n) => decimal(n as nat),
        }
    }

    /// The value in its native JSON type.
    pub open spec fn native(self) -> JsonView {
        match self {
            LeafValue::Str(s) => JsonView::Text(s),
            LeafValue::Bool(b) => JsonView::Bool(b),
            LeafValue::Num(n) => JsonView::Unsigned(n),
        }
    }
}

impl Leaf {
    /// What the value says.
    pub open spec fn view(&self) -> LeafValue {
        match self {
            Leaf::Str(s) => LeafValue::Str(s@),
            Leaf::Bool(b) => LeafValue::Bool(*b),
            Leaf::Num(n) => LeafValue::Num(*n),
        }
    }
}

impl LeafSpec {
    /// What the leaf says.
    pub open spec fn view(&self) -> LeafView {
        LeafView { element_id: self.element_id@, value: self.value.view(), xsd: self.xsd@ }
    }
}

/// What the leaves of a list say.
pub open spec fn leaf_views(leaves: Seq<LeafSpec>) -> Seq<LeafView> {
    leaves.map_values(|l: LeafSpec| l.view())
}

/// A text leaf.
pub open spec fn str_leaf(element_id: Text, value: Text, xsd: Text) -> LeafView {
    LeafView { element_id, value: LeafValue::Str(value), xsd }
}

/// Adds a leaf.
fn add_leaf(leaves: &mut Vec<LeafSpec>, element_id: &str, value: Leaf, xsd: &'static str)
    ensures
        leaf_views(final(leaves)@) == leaf_views(old(leaves)@).push(
            LeafView { element_id: element_id@, value: value.view(), xsd: xsd@ },
        ),
{
    leaves.push(LeafSpec { element_id: element_id.to_owned(), value, xsd });
    assert(leaf_views(leaves@) =~= leaf_views(old(leaves)@).push(
        LeafView { element_id: element_id@, value: value.view(), xsd: xsd@ },
    ));
}

/// Adds a text leaf.
fn add_text_leaf(leaves: &mut Vec<LeafSpec>, element_id: &str, value: &str, xsd: &'static str)
    ensures
        leaf_views(final(leaves)@) == leaf_views(old(leaves)@).push(
            str_leaf(element_id@, value@, xsd@),
        ),
{
    add_leaf(leaves, element_id, Leaf::Str(value.to_owned()), xsd);
}

/// The wire form of a leaf in the full serialization: every value printed as
/// a string.
pub open spec fn full_form(leaf: LeafView) -> JsonView {
    JsonView::Object(
        map![
            "elementId"@ => JsonView::Text(leaf.element_id),
            "objectType"@ => JsonView::Text("SingleValuedDataElement"@),
            "dictionaryReference"@ => JsonView::Text("https://unidpp.org/dp/"@ + leaf.element_id),
            "valueDataType"@ => JsonView::Text(leaf.xsd),
            "value"@ => JsonView::Text(leaf.value.printed()),
        ],
    )
}

/// The wire form of a leaf in the full serialization.
fn full_leaf(spec: &LeafSpec) -> (j: Json)
    ensures
        j.view() == full_form(spec.view()),
{
    let wire_value = match &spec.value {
        Leaf::Str(s) => s.clone(),
        Leaf::Bool(b) => if *b {
            "true".to_owned()
        } else {
            "false".to_owned()
        },
        Leaf::Num(n) => decimal_text(*n),
    };
    let reference = "https://unidpp.org/dp/".to_owned().concat(spec.element_id.as_str());
    let mut members: Vec<(String, Json)> = Vec::new();
    put_text(&mut members, "elementId", spec.element_id.as_str());
    put_text(&mut members, "objectType", "SingleValuedDataElement");
    put_text(&mut members, "dictionaryReference", reference.as_str());
    put_text(&mut members, "valueDataType", spec.xsd);
    put_text(&mut members, "value", wire_value.as_str());
    Json::Object(members)
}

/// The native value of a leaf in the compressed serialization.
fn compressed_value(spec: &LeafSpec) -> (j: Json)
    ensures
        j.view() == spec.view().value.native(),
{
    match &spec.value {
        Leaf::Str(s) => Json::Text(s.clone()),
        Leaf::Bool(b) => Json::Bool(*b),
        Leaf::Num(n) => Json::Unsigned(*n),
    }
}

// ---------------------------------------------------------------------------
// Tokens
// ---------------------------------------------------------------------------

/// The EN token of a granularity.
pub open spec fn en_granularity(granularity: Granularity) -> Text {
    match granularity {
        Granularity::Model => "Model"@,
        Granularity::Batch => "Batch"@,
        Granularity::Item => "Item"@,
    }
}

/// The EN token of a granularity.
fn granularity_token(granularity: Granularity) -> (r: &'static str)
    ensures
        r@ == en_granularity(granularity),
{
    match granularity {
        Granularity::Model => "Model",
        Granularity::Batch => "Batch",
        Granularity::Item => "Item",
    }
}

/// The EN token of a status: an issued passport is active.
pub open spec fn en_status(status: Status) -> Text {
    match status {
        Status::Issued => "active"@,
        Status::Other(token) => token@,
    }
}

/// The EN token of a status.
fn status_token(status: &Status) -> (r: &str)
    ensures
        r@ == en_status(*status),
{
    match status {
        Status::Issued => "active",
        Status::Other(token) => token.as_str(),
    }
}

/// The strongest trust marker among the events; unsigned where there is none.
pub open spec fn strongest_trust(events: Seq<SealedEvent>) -> TrustMarker
    decreases events.len(),
{
    if events.len() == 0 {
        TrustMarker::Unsigned
    } else {
        let before = strongest_trust(events.drop_last());
        if events.last().trust.rank() >= before.rank() {
            events.last().trust
        } else {
            before
        }
    }
}

/// The strongest trust marker in the log.
fn strongest_marker(p: &GatewayPassport) -> (r: &'static str)
    ensures
        r@ == strongest_trust(p.document.log.sealed@).token(),
{
    let ghost events = p.document.log.sealed@;
    let n: usize = p.document.log.sealed.len();
    let mut strongest = TrustMarker::Unsigned;
    let mut i: usize = 0;
    assert(events.take(0) =~= Seq::empty());
    while i < n
        invariant
            i <= n == events.len(),
            events == p.document.log.sealed@,
            strongest == strongest_trust(events.take(i as int)),
        decreases n - i,
    {
        assert(events.take(i + 1).drop_last() =~= events.take(i as int));
        let trust = p.document.log.sealed[i].trust;
        if trust.at_least(strongest) {
            strongest = trust;
        }
        i = i + 1;
    }
    assert(events.take(n as int) =~= events);
    strongest.as_str()
}

// ---------------------------------------------------------------------------
// Collections
// ---------------------------------------------------------------------------

/// A collection of the element tree.
#[derive(Debug, PartialEq)]
pub struct Collection {
    pub element_id: &'static str,
    pub leaves: Vec<LeafSpec>,
}

/// What a collection says.
pub struct CollectionView {
    pub element_id: Text,
    pub leaves: Seq<LeafView>,
}

impl Collection {
    /// What the collection says.
    pub open spec fn view(&self) -> CollectionView {
        CollectionView { element_id: self.element_id@, leaves: leaf_views(self.leaves@) }
    }
}

/// What the collections of a list say.
pub open spec fn collection_views(collections: Seq<Collection>) -> Seq<CollectionView> {
    collections.map_values(|c: Collection| c.view())
}

/// Identity and serving pointers.
pub open spec fn product_leaves(p: &GatewayPassport) -> Seq<LeafView> {
    let document = p.document;
    let gtin = if document.product_id.gs1_keyed() {
        seq![str_leaf("_p_d_GTIN"@, document.product_id.key@, "xsd:string"@)]
    } else {
        Seq::empty()
    };
    let type_ref = match document.type_ref {
        Some(type_ref) => seq![str_leaf("_p_d_TypeRef"@, type_ref@, "xsd:string"@)],
        None => Seq::empty(),
    };
    gtin + seq![
        str_leaf(
            "_p_d_UniqueProductIdentifier"@,
            document.product_id.display@,
            "xsd:string"@,
        ),
        str_leaf("_p_d_PassportId"@, document.passport_id@, "xsd:anyURI"@),
    ] + type_ref + seq![
        str_leaf("_p_d_CapabilityClass"@, document.capability@, "xsd:string"@),
        str_leaf("_p_d_ResolverUri"@, document.resolver_uri@, "xsd:anyURI"@),
    ]
}

/// The replayed governance state.
pub open spec fn state_leaves(p: &GatewayPassport) -> Seq<LeafView> {
    let log = p.document.log;
    seq![
        str_leaf("_p_d_DppStatus"@, en_status(log.current_status), "xsd:string"@),
        LeafView {
            element_id: "_p_d_RecallActive"@,
            value: LeafValue::Bool(log.safety_flag is Raised),
            xsd: "xsd:boolean"@,
        },
        str_leaf(
            "_p_d_LogHead"@,
            match log.head {
                Some(head) => head@,
                None => Seq::empty(),
            },
            "xsd:string"@,
        ),
        LeafView {
            element_id: "_p_d_LogHeight"@,
            value: LeafValue::Num(log.height),
            xsd: "xsd:integer"@,
        },
        str_leaf("_p_d_TrustMarker"@, strongest_trust(log.sealed@).token(), "xsd:string"@),
    ]
}

/// A profile and its version in one text.
pub open spec fn pinned(profile: ProfileRef) -> Text {
    profile.id@ + "@"@ + profile.version@
}

/// The leaf of a profile binding.
pub open spec fn profile_leaf(profile: ProfileRef) -> LeafView {
    str_leaf("_p_d_Profile_"@ + after_last(profile.id@, ':'), pinned(profile), "xsd:string"@)
}

/// The leaf of an inspection stamp.
pub open spec fn stamp_leaf(event: SealedEvent, stamp: Stamp) -> LeafView {
    str_leaf(
        "_p_d_Stamp_"@ + decimal(event.seq as nat),
        stamp.attester@ + "|"@ + stamp.lens@ + "@"@ + stamp.lens_version@ + "|"@ + stamp.mode@
            + "|"@ + stamp.summary(),
        "xsd:string"@,
    )
}

/// The leaves of the inspection stamps among the events, in their order.
pub open spec fn stamp_leaves(events: Seq<SealedEvent>) -> Seq<LeafView>
    decreases events.len(),
{
    if events.len() == 0 {
        Seq::empty()
    } else {
        let before = stamp_leaves(events.drop_last());
        match events.last().payload {
            EventPayload::InspectionStamp { stamp } => before.push(
                stamp_leaf(events.last(), stamp),
            ),
            EventPayload::Other => before,
        }
    }
}

/// Profile bindings and inspection stamps, or a word on their absence.
pub open spec fn evidence_leaves(p: &GatewayPassport) -> Seq<LeafView> {
    let claims = p.profiles@.map_values(|profile: ProfileRef| profile_leaf(profile))
        + stamp_leaves(p.document.log.sealed@);
    if claims.len() == 0 {
        seq![str_leaf("_p_d_NoClaims"@, "no profile bound"@, "xsd:string"@)]
    } else {
        claims
    }
}

/// The render cross-links.
pub open spec fn document_leaves(p: &GatewayPassport) -> Seq<LeafView> {
    seq![
        str_leaf("_p_d_LinkResolverUri"@, p.document.resolver_uri@, "xsd:anyURI"@),
        str_leaf(
            "_p_d_UntpRender"@,
            "/untp/product/"@ + p.document.passport_id@,
            "xsd:anyURI"@,
        ),
    ]
}

/// The element tree.
pub open spec fn element_tree(p: &GatewayPassport) -> Seq<CollectionView> {
    seq![
        CollectionView { element_id: "c0ProductInformation"@, leaves: product_leaves(p) },
        CollectionView { element_id: "caStateSafety"@, leaves: state_leaves(p) },
        CollectionView { element_id: "cbConformityEvidence"@, leaves: evidence_leaves(p) },
        CollectionView { element_id: "cwDocuments"@, leaves: document_leaves(p) },
    ]
}

/// Identity and serving pointers.
fn product_collection(p: &GatewayPassport) -> (leaves: Vec<LeafSpec>)
    ensures
        leaf_views(leaves@) == product_leaves(p),
{
    let document = &p.document;
    let mut leaves: Vec<LeafSpec> = Vec::new();
    if document.product_id.is_gs1_keyed() {
        add_text_leaf(&mut leaves, "_p_d_GTIN", document.product_id.key.as_str(), "xsd:string");
    }
    add_text_leaf(
        &mut leaves,
        "_p_d_UniqueProductIdentifier",
        document.product_id.display.as_str(),
        "xsd:string",
    );
    add_text_leaf(&mut leaves, "_p_d_PassportId", document.passport_id.as_str(), "xsd:anyURI");
    match &document.type_ref {
        Some(type_ref) => add_text_leaf(
            &mut leaves,
            "_p_d_TypeRef",
            type_ref.as_str(),
            "xsd:string",
        ),
        None => {},
    }
    add_text_leaf(&mut leaves, "_p_d_CapabilityClass", document.capability.as_str(), "xsd:string");
    add_text_leaf(&mut leaves, "_p_d_ResolverUri", document.resolver_uri.as_str(), "xsd:anyURI");
    assert(leaf_views(leaves@) =~= product_leaves(p));
    leaves
}

/// The replayed governance state.
fn state_collection(p: &GatewayPassport) -> (leaves: Vec<LeafSpec>)
    ensures
        leaf_views(leaves@) == state_leaves(p),
{
    let log = &p.document.log;
    let recall: bool = match log.safety_flag {
        SafetyFlag::Raised => true,
        SafetyFlag::Clear => false,
    };
    let head = match &log.head {
        Some(head) => head.clone(),
        None => String::new(),
    };
    let mut leaves: Vec<LeafSpec> = Vec::new();
    add_text_leaf(&mut leaves, "_p_d_DppStatus", status_token(&log.current_status), "xsd:string");
    add_leaf(&mut leaves, "_p_d_RecallActive", Leaf::Bool(recall), "xsd:boolean");
    add_leaf(&mut leaves, "_p_d_LogHead", Leaf::Str(head), "xsd:string");
    add_leaf(&mut leaves, "_p_d_LogHeight", Leaf::Num(log.height), "xsd:integer");
    add_text_leaf(&mut leaves, "_p_d_TrustMarker", strongest_marker(p), "xsd:string");
    assert(leaf_views(leaves@) =~= state_leaves(p));
    leaves
}

/// Profile bindings and inspection stamps, or a word on their absence.
fn evidence_collection(p: &GatewayPassport) -> (leaves: Vec<LeafSpec>)
    ensures
        leaf_views(leaves@) == evidence_leaves(p),
{
    let mut leaves: Vec<LeafSpec> = Vec::new();
    let ghost bindings = p.profiles@.map_values(|profile: ProfileRef| profile_leaf(profile));
    let n: usize = p.profiles.len();
    let mut i: usize = 0;
    assert(leaf_views(leaves@) =~= bindings.take(0));
    while i < n
        invariant
            i <= n == p.profiles@.len(),
            bindings == p.profiles@.map_values(|profile: ProfileRef| profile_leaf(profile)),
            leaf_views(leaves@) == bindings.take(i as int),
        decreases n - i,
    {
        let profile = &p.profiles[i];
        let element_id = "_p_d_Profile_".to_owned().concat(
            tail_after(profile.id.as_str(), ':').as_str(),
        );
        let value = profile.id.clone().concat("@").concat(profile.version.as_str());
        add_leaf(&mut leaves, element_id.as_str(), Leaf::Str(value), "xsd:string");
        assert(bindings.take(i + 1) =~= bindings.take(i as int).push(bindings[i as int]));
        i = i + 1;
    }
    assert(bindings.take(n as int) =~= bindings);
    let ghost events = p.document.log.sealed@;
    let m: usize = p.document.log.sealed.len();
    let mut k: usize = 0;
    assert(events.take(0) =~= Seq::empty());
    assert(leaf_views(leaves@) =~= bindings + stamp_leaves(events.take(0)));
    while k < m
        invariant
            k <= m == events.len(),
            events == p.document.log.sealed@,
            leaf_views(leaves@) == bindings + stamp_leaves(events.take(k as int)),
        decreases m - k,
    {
        let event = &p.document.log.sealed[k];
        assert(events.take(k + 1).drop_last() =~= events.take(k as int));
        match &event.payload {
            EventPayload::InspectionStamp { stamp } => {
                let element_id = "_p_d_Stamp_".to_owned().concat(decimal_text(event.seq).as_str());
                let value = stamp.attester.clone().concat("|").concat(stamp.lens.as_str()).concat(
                    "@",
                ).concat(stamp.lens_version.as_str()).concat("|").concat(
                    stamp.mode.as_str(),
                ).concat("|").concat(stamp.summary_text());
                let ghost before = leaf_views(leaves@);
                add_leaf(&mut leaves, element_id.as_str(), Leaf::Str(value), "xsd:string");
                assert(before.push(stamp_leaf(*event, *stamp)) =~= bindings + stamp_leaves(
                    events.take(k + 1),
                ));
            },
            EventPayload::Other => {},
        }
        k = k + 1;
    }
    assert(events.take(m as int) =~= events);
    if leaves.len() == 0 {
        add_text_leaf(&mut leaves, "_p_d_NoClaims", "no profile bound", "xsd:string");
        assert(leaf_views(leaves@) =~= evidence_leaves(p));
    } else {
        assert(leaf_views(leaves@).len() == leaves@.len());
    }
    leaves
}

/// The render cross-links.
fn document_collection(p: &GatewayPassport) -> (leaves: Vec<LeafSpec>)
    ensures
        leaf_views(leaves@) == document_leaves(p),
{
    let mut leaves: Vec<LeafSpec> = Vec::new();
    let render = "/untp/product/".to_owned().concat(p.document.passport_id.as_str());
    add_text_leaf(
        &mut leaves,
        "_p_d_LinkResolverUri",
        p.document.resolver_uri.as_str(),
        "xsd:anyURI",
    );
    add_text_leaf(&mut leaves, "_p_d_UntpRender", render.as_str(), "xsd:anyURI");
    assert(leaf_views(leaves@) =~= document_leaves(p));
    leaves
}

/// The element tree.
pub fn collections(p: &GatewayPassport) -> (r: Vec<Collection>)
    ensures
        collection_views(r@) == element_tree(p),
{
    let mut r: Vec<Collection> = Vec::new();
    r.push(Collection { element_id: "c0ProductInformation", leaves: product_collection(p) });
    r.push(Collection { element_id: "caStateSafety", leaves: state_collection(p) });
    r.push(Collection { element_id: "cbConformityEvidence", leaves: evidence_collection(p) });
    r.push(Collection { element_id: "cwDocuments", leaves: document_collection(p) });
    assert(collection_views(r@) =~= element_tree(p));
    r
}

// ---------------------------------------------------------------------------
// The render
// ---------------------------------------------------------------------------

/// The product identifier of the header: the GS1 key, or the core form.
pub open spec fn header_identifier(p: &GatewayPassport) -> Text {
    if p.document.product_id.gs1_keyed() {
        p.document.product_id.key@
    } else {
        p.document.product_id.display@
    }
}

/// The instant of the last event, without its zone; creation where there is
/// no event. The compressed form prints a seven-digit fraction.
pub open spec fn last_updated(p: &GatewayPassport, representation: Representation) -> Text {
    let instant = match p.document.log.last_event_at {
        Some(t) => t.text@,
        None => p.document.created_at.text@,
    };
    match representation {
        Representation::Full => without_trailing(instant, 'Z'),
        Representation::Compressed => without_trailing(instant, 'Z') + ".0000000"@,
    }
}

/// The content specifications: the EN and the bound profiles.
pub open spec fn content_specifications(p: &GatewayPassport) -> Seq<JsonView> {
    seq![JsonView::Text("EN 18223:2026"@)] + p.profiles@.map_values(
        |profile: ProfileRef| JsonView::Text(pinned(profile)),
    )
}

/// The header that both representations share.
pub open spec fn header(p: &GatewayPassport, representation: Representation) -> Map<
    Text,
    JsonView,
> {
    map![
        "digitalProductPassportId"@ => JsonView::Text(p.document.passport_id@),
        "uniqueProductIdentifier"@ => JsonView::Text(header_identifier(p)),
        "granularity"@ => JsonView::Text(en_granularity(p.document.product_id.granularity)),
        "dppSchemaVersion"@ => JsonView::Text("0.1"@),
        "dppStatus"@ => JsonView::Text(en_status(p.document.log.current_status)),
        "lastUpdated"@ => JsonView::Text(last_updated(p, representation)),
        "economicOperatorId"@ => JsonView::Text(p.document.eo_id@),
        "facilityId"@ => JsonView::Text(p.document.eo_id@),
        "contentSpecificationIds"@ => JsonView::Array(content_specifications(p)),
    ]
}

/// The wire form of a collection in the full serialization.
pub open spec fn full_collection(collection: CollectionView) -> JsonView {
    JsonView::Object(
        map![
            "elementId"@ => JsonView::Text(collection.element_id),
            "objectType"@ => JsonView::Text("DataElementCollection"@),
            "dictionaryReference"@ => JsonView::Text(
                "https://unidpp.org/dp/"@ + collection.element_id,
            ),
            "elements"@ => JsonView::Array(collection.leaves.map_values(|l: LeafView| full_form(l))),
        ],
    )
}

/// The members of a collection in the compressed serialization; of two
/// leaves with one id the later one counts.
pub open spec fn compressed_leaves(leaves: Seq<LeafView>) -> Map<Text, JsonView>
    decreases leaves.len(),
{
    if leaves.len() == 0 {
        Map::empty()
    } else {
        compressed_leaves(leaves.drop_last()).insert(
            leaves.last().element_id,
            leaves.last().value.native(),
        )
    }
}

/// The header with collections as members.
pub open spec fn with_collections(
    base: Map<Text, JsonView>,
    collections: Seq<CollectionView>,
) -> Map<Text, JsonView>
    decreases collections.len(),
{
    if collections.len() == 0 {
        base
    } else {
        with_collections(base, collections.drop_last()).insert(
            collections.last().element_id,
            JsonView::Object(compressed_leaves(collections.last().leaves)),
        )
    }
}

/// The EN 18222 body of a passport.
pub open spec fn body(p: &GatewayPassport, representation: Representation) -> JsonView {
    match representation {
        Representation::Full => JsonView::Object(
            header(p, representation).insert(
                "elements"@,
                JsonView::Array(
                    element_tree(p).map_values(|c: CollectionView| full_collection(c)),
                ),
            ),
        ),
        Representation::Compressed => JsonView::Object(
            with_collections(header(p, representation), element_tree(p)),
        ),
    }
}

/// The wire form of a collection in the full serialization.
fn full_collection_json(collection: &Collection) -> (j: Json)
    ensures
        j.view() == full_collection(collection.view()),
{
    broadcast use lemma_array_view;

    let n: usize = collection.leaves.len();
    let mut leaves: Vec<Json> = Vec::new();
    let mut i: usize = 0;
    while i < n
        invariant
            i <= n == collection.leaves@.len(),
            leaves@.len() == i,
            forall|k: int|
                0 <= k < i ==> (#[trigger] leaves@[k]).view() == full_form(
                    collection.leaves@[k].view(),
                ),
        decreases n - i,
    {
        leaves.push(full_leaf(&collection.leaves[i]));
        i = i + 1;
    }
    assert(views(leaves@) =~= collection.view().leaves.map_values(|l: LeafView| full_form(l)));
    let reference = "https://unidpp.org/dp/".to_owned().concat(collection.element_id);
    let mut members: Vec<(String, Json)> = Vec::new();
    put_text(&mut members, "elementId", collection.element_id);
    put_text(&mut members, "objectType", "DataElementCollection");
    put_text(&mut members, "dictionaryReference", reference.as_str());
    put(&mut members, "elements", Json::Array(leaves));
    Json::Object(members)
}

/// The wire form of a collection in the compressed serialization.
fn compressed_collection_json(collection: &Collection) -> (j: Json)
    ensures
        j.view() == JsonView::Object(compressed_leaves(collection.view().leaves)),
{
    let ghost all = collection.view().leaves;
    let n: usize = collection.leaves.len();
    let mut members: Vec<(String, Json)> = Vec::new();
    let mut i: usize = 0;
    assert(all.take(0) =~= Seq::empty());
    while i < n
        invariant
            i <= n == collection.leaves@.len(),
            all == collection.view().leaves,
            members_view(members@) == compressed_leaves(all.take(i as int)),
        decreases n - i,
    {
        assert(all.take(i + 1).drop_last() =~= all.take(i as int));
        assert(all.take(i + 1).last() == collection.leaves@[i as int].view());
        put(
            &mut members,
            collection.leaves[i].element_id.as_str(),
            compressed_value(&collection.leaves[i]),
        );
        i = i + 1;
    }
    assert(all.take(n as int) =~= all);
    Json::Object(members)
}

/// The content specifications.
fn content_specifications_json(p: &GatewayPassport) -> (r: Vec<Json>)
    ensures
        views(r@) == content_specifications(p),
{
    let mut specs: Vec<Json> = Vec::new();
    specs.push(text("EN 18223:2026"));
    let n: usize = p.profiles.len();
    let mut i: usize = 0;
    while i < n
        invariant
            i <= n == p.profiles@.len(),
            specs@.len() == i + 1,
            specs@[0].view() == JsonView::Text("EN 18223:2026"@),
            forall|k: int|
                1 <= k <= i ==> (#[trigger] specs@[k]).view() == JsonView::Text(
                    pinned(p.profiles@[k - 1]),
                ),
        decreases n - i,
    {
        let profile = &p.profiles[i];
        specs.push(Json::Text(profile.id.clone().concat("@").concat(profile.version.as_str())));
        i = i + 1;
    }
    assert(views(specs@) =~= content_specifications(p));
    specs
}

/// Renders the passport in the requested EN 18222 representation.
///
/// The body is frozen: the instant of the render has no part in it and rides
/// a header of the reply.
pub fn render(p: &GatewayPassport, representation: Representation, now: &Timestamp) -> (j: Json)
    ensures
        j.view() == body(p, representation),
{
    broadcast use lemma_array_view;

    let document = &p.document;
    let subject = &document.product_id;
    let instant = match &document.log.last_event_at {
        Some(t) => t.text.as_str(),
        None => document.created_at.text.as_str(),
    };
    let seconds = strip_trailing(instant, 'Z');
    let updated = match representation {
        Representation::Full => seconds.to_owned(),
        Representation::Compressed => seconds.to_owned().concat(".0000000"),
    };
    let identifier = if subject.is_gs1_keyed() {
        subject.key.as_str()
    } else {
        subject.display.as_str()
    };
    let mut root: Vec<(String, Json)> = Vec::new();
    put_text(&mut root, "digitalProductPassportId", document.passport_id.as_str());
    put_text(&mut root, "uniqueProductIdentifier", identifier);
    put_text(&mut root, "granularity", granularity_token(subject.granularity));
    put_text(&mut root, "dppSchemaVersion", "0.1");
    put_text(&mut root, "dppStatus", status_token(&document.log.current_status));
    put_text(&mut root, "lastUpdated", updated.as_str());
    put_text(&mut root, "economicOperatorId", document.eo_id.as_str());
    put_text(&mut root, "facilityId", document.eo_id.as_str());
    put(&mut root, "contentSpecificationIds", Json::Array(content_specifications_json(p)));
    assert(members_view(root@) == header(p, representation));

    let tree = collections(p);
    let n: usize = tree.len();
    let ghost all = element_tree(p);
    assert(all == collection_views(tree@));
    match representation {
        Representation::Full => {
            let mut elements: Vec<Json> = Vec::new();
            let mut i: usize = 0;
            while i < n
                invariant
                    i <= n == tree@.len(),
                    elements@.len() == i,
                    forall|k: int|
                        0 <= k < i ==> (#[trigger] elements@[k]).view() == full_collection(
                            tree@[k].view(),
                        ),
                decreases n - i,
            {
                elements.push(full_collection_json(&tree[i]));
                i = i + 1;
            }
            assert(views(elements@) =~= all.map_values(|c: CollectionView| full_collection(c)));
            put(&mut root, "elements", Json::Array(elements));
        },
        Representation::Compressed => {
            let ghost base = header(p, representation);
            let mut i: usize = 0;
            assert(all.take(0) =~= Seq::empty());
            while i < n
                invariant
                    i <= n == tree@.len(),
                    all == collection_views(tree@),
                    members_view(root@) == with_collections(base, all.take(i as int)),
                decreases n - i,
            {
                assert(all.take(i + 1).drop_last() =~= all.take(i as int));
                assert(all.take(i + 1).last() == tree@[i as int].view());
                put(&mut root, tree[i].element_id, compressed_collection_json(&tree[i]));
                i = i + 1;
            }
            assert(all.take(n as int) =~= all);
        },
    }
    Json::Object(root)
}

// ---------------------------------------------------------------------------
// Laws
// ---------------------------------------------------------------------------

/// The member names of the wire forms, told apart.
proof fn lemma_wire_names()
    ensures
        "elements"@.len() == 8,
        "elementId"@.len() == 9,
        "objectType"@.len() == 10,
        "dictionaryReference"@.len() == 19,
        "valueDataType"@.len() == 13,
        "value"@.len() == 5,
        "c0ProductInformation"@.len() == 20 && "c0ProductInformation"@[1] == '0',
        "caStateSafety"@.len() == 13,
        "cbConformityEvidence"@.len() == 20 && "cbConformityEvidence"@[1] == 'b',
        "cwDocuments"@.len() == 11,
{
    reveal_strlit("elements");
    reveal_strlit("elementId");
    reveal_strlit("objectType");
    reveal_strlit("dictionaryReference");
    reveal_strlit("valueDataType");
    reveal_strlit("value");
    reveal_strlit("c0ProductInformation");
    reveal_strlit("caStateSafety");
    reveal_strlit("cbConformityEvidence");
    reveal_strlit("cwDocuments");
}

/// The four collections become members of the compressed form.
proof fn lemma_compressed_members(p: &GatewayPassport)
    ensures
        body(p, Representation::Compressed) == JsonView::Object(
            header(p, Representation::Compressed).insert(
                "c0ProductInformation"@,
                JsonView::Object(compressed_leaves(product_leaves(p))),
            ).insert(
                "caStateSafety"@,
                JsonView::Object(compressed_leaves(state_leaves(p))),
            ).insert(
                "cbConformityEvidence"@,
                JsonView::Object(compressed_leaves(evidence_leaves(p))),
            ).insert("cwDocuments"@, JsonView::Object(compressed_leaves(document_leaves(p)))),
        ),
{
    let t = element_tree(p);
    assert(t.drop_last() =~= t.take(3));
    assert(t.take(3).drop_last() =~= t.take(2));
    assert(t.take(2).drop_last() =~= t.take(1));
    assert(t.take(1).drop_last() =~= Seq::empty());
    reveal_with_fuel(with_collections, 5);
}

/// The field sets are frozen: the full form has the header and `elements`,
/// the compressed form the header and the four collections.
pub proof fn law_field_sets(p: &GatewayPassport)
    ensures
        body(p, Representation::Full) matches JsonView::Object(full) && full.dom() =~= set![
            "digitalProductPassportId"@,
            "uniqueProductIdentifier"@,
            "granularity"@,
            "dppSchemaVersion"@,
            "dppStatus"@,
            "lastUpdated"@,
            "economicOperatorId"@,
            "facilityId"@,
            "contentSpecificationIds"@,
            "elements"@,
        ],
        body(p, Representation::Compressed) matches JsonView::Object(compressed)
            && compressed.dom() =~= set![
            "digitalProductPassportId"@,
            "uniqueProductIdentifier"@,
            "granularity"@,
            "dppSchemaVersion"@,
            "dppStatus"@,
            "lastUpdated"@,
            "economicOperatorId"@,
            "facilityId"@,
            "contentSpecificationIds"@,
            "c0ProductInformation"@,
            "caStateSafety"@,
            "cbConformityEvidence"@,
            "cwDocuments"@,
        ],
{
    lemma_compressed_members(p);
}

/// The leaves of the compressed form: exactly the ids that occur, each with
/// the value of the last leaf of that id.
proof fn lemma_compressed_leaves(leaves: Seq<LeafView>)
    ensures
        forall|k: Text| #[trigger]
            compressed_leaves(leaves).contains_key(k) <==> exists|i: int|
                0 <= i < leaves.len() && (#[trigger] leaves[i]).element_id == k,
        forall|i: int|
            #![trigger leaves[i]]
            0 <= i < leaves.len() && (forall|j: int|
                i < j < leaves.len() ==> (#[trigger] leaves[j]).element_id != leaves[i].element_id)
                ==> compressed_leaves(leaves)[leaves[i].element_id] == leaves[i].value.native(),
    decreases leaves.len(),
{
    if leaves.len() > 0 {
        let init = leaves.drop_last();
        let n = leaves.len() - 1;
        lemma_compressed_leaves(init);
        let m = compressed_leaves(leaves);
        assert forall|k: Text| #[trigger] m.contains_key(k) <==> exists|i: int|
            0 <= i < leaves.len() && (#[trigger] leaves[i]).element_id == k by {
            if m.contains_key(k) {
                if k == leaves.last().element_id {
                    assert(leaves[n].element_id == k);
                } else {
                    assert(compressed_leaves(init).contains_key(k));
                    let i = choose|i: int| 0 <= i < init.len() && (#[trigger] init[i]).element_id == k;
                    assert(leaves[i].element_id == k);
                }
            }
            if exists|i: int| 0 <= i < leaves.len() && (#[trigger] leaves[i]).element_id == k {
                let i = choose|i: int| 0 <= i < leaves.len() && (#[trigger] leaves[i]).element_id == k;
                if i < n {
                    assert(init[i].element_id == k);
                    assert(compressed_leaves(init).contains_key(k));
                }
            }
        }
        assert forall|i: int|
            #![trigger leaves[i]]
            0 <= i < leaves.len() && (forall|j: int|
                i < j < leaves.len() ==> (#[trigger] leaves[j]).element_id
                    != leaves[i].element_id) implies m[leaves[i].element_id]
            == leaves[i].value.native() by {
            if i < n {
                assert(leaves[n].element_id != leaves[i].element_id);
                assert(init[i] == leaves[i]);
                assert forall|j: int| i < j < init.len() implies (#[trigger] init[j]).element_id
                    != init[i].element_id by {
                    assert(leaves[j].element_id != leaves[i].element_id);
                }
            }
        }
    }
}

/// Both representations say the same of every leaf of a collection in which
/// no two leaves share an id: the full form prints the value that the
/// compressed form carries natively, and the compressed form has no other
/// member.
pub proof fn law_representations_agree(p: &GatewayPassport, c: int, l: int)
    requires
        0 <= c < 4,
        0 <= l < element_tree(p)[c].leaves.len(),
        forall|i: int, j: int|
            0 <= i < j < element_tree(p)[c].leaves.len() ==> (
            #[trigger] element_tree(p)[c].leaves[i]).element_id != (
            #[trigger] element_tree(p)[c].leaves[j]).element_id,
    ensures
        ({
            let collection = element_tree(p)[c];
            let leaf = collection.leaves[l];
            &&& body(p, Representation::Full).items_at("elements"@) matches Some(elements)
                && elements.len() == 4 && elements[c].text_at("elementId"@) == Some(
                collection.element_id,
            ) && (elements[c].items_at("elements"@) matches Some(leaves) && leaves.len()
                == collection.leaves.len() && leaves[l].text_at("elementId"@) == Some(
                leaf.element_id,
            ) && leaves[l].text_at("value"@) == Some(leaf.value.printed()))
            &&& body(p, Representation::Compressed).member(collection.element_id) matches Some(flat)
                && flat.member(leaf.element_id) == Some(leaf.value.native()) && (forall|k: Text|
                (#[trigger] flat.member(k)) is Some ==> exists|i: int|
                    0 <= i < collection.leaves.len() && (
                    #[trigger] collection.leaves[i]).element_id == k)
        }),
{
    lemma_wire_names();
    lemma_compressed_members(p);
    let collection = element_tree(p)[c];
    let leaves = collection.leaves;
    let leaf = leaves[l];
    let elements = body(p, Representation::Full).items_at("elements"@).unwrap();
    assert(elements.len() == 4);
    assert(elements[c] == full_collection(collection));
    let wired = elements[c].items_at("elements"@).unwrap();
    assert(wired[l] == full_form(leaf));
    assert(wired[l].text_at("value"@) == Some(leaf.value.printed()));
    assert(wired[l].text_at("elementId"@) == Some(leaf.element_id));
    let flat = body(p, Representation::Compressed).member(collection.element_id).unwrap();
    assert(flat == JsonView::Object(compressed_leaves(leaves)));
    lemma_compressed_leaves(leaves);
    assert forall|j: int| l < j < leaves.len() implies (#[trigger] leaves[j]).element_id
        != leaf.element_id by {
        assert(element_tree(p)[c].leaves[l].element_id != element_tree(p)[c].leaves[j].element_id);
    }
    assert(compressed_leaves(leaves).contains_key(leaf.element_id));
}

/// Whether no two leaves share an id.
pub open spec fn distinct_leaves(leaves: Seq<LeafView>) -> bool {
    forall|i: int, j: int|
        0 <= i < j < leaves.len() ==> (#[trigger] leaves[i]).element_id != (
        #[trigger] leaves[j]).element_id
}

/// Whether no two profiles share the tail of their id.
pub open spec fn distinct_tails(profiles: Seq<ProfileRef>) -> bool {
    forall|i: int, j: int|
        0 <= i < j < profiles.len() ==> after_last((#[trigger] profiles[i]).id@, ':')
            != after_last((#[trigger] profiles[j]).id@, ':')
}

/// The numbers of the events that are inspection stamps, in their order.
pub open spec fn stamp_numbers(events: Seq<SealedEvent>) -> Seq<u64>
    decreases events.len(),
{
    if events.len() == 0 {
        Seq::empty()
    } else if events.last().payload is InspectionStamp {
        stamp_numbers(events.drop_last()).push(events.last().seq)
    } else {
        stamp_numbers(events.drop_last())
    }
}

/// Whether no two inspection stamps share the number of their event.
pub open spec fn distinct_stamps(events: Seq<SealedEvent>) -> bool {
    let numbers = stamp_numbers(events);
    forall|i: int, j: int|
        0 <= i < j < numbers.len() ==> #[trigger] numbers[i] != #[trigger] numbers[j]
}

/// The id of the leaf of a stamp.
spec fn stamp_id(seq: u64) -> Text {
    "_p_d_Stamp_"@ + decimal(seq as nat)
}

/// Every stamp has one leaf, which is named after its event.
proof fn lemma_stamp_leaves(events: Seq<SealedEvent>)
    ensures
        stamp_leaves(events).len() == stamp_numbers(events).len(),
        forall|l: int|
            0 <= l < stamp_leaves(events).len() ==> (
            #[trigger] stamp_leaves(events)[l]).element_id == stamp_id(stamp_numbers(events)[l]),
    decreases events.len(),
{
    if events.len() > 0 {
        lemma_stamp_leaves(events.drop_last());
    }
}

/// Stamps have one leaf id exactly where they have one number.
proof fn lemma_stamp_id(a: u64, b: u64)
    ensures
        stamp_id(a) == stamp_id(b) <==> a == b,
{
    if stamp_id(a) == stamp_id(b) {
        let prefix = "_p_d_Stamp_"@;
        let x = decimal(a as nat);
        let y = decimal(b as nat);
        assert((prefix + x).skip(prefix.len() as int) =~= x);
        assert((prefix + y).skip(prefix.len() as int) =~= y);
        lemma_decimal_distinct(a as nat, b as nat);
    }
}

/// The leaves of the stamps are distinct exactly where their numbers are.
proof fn lemma_stamp_ids(events: Seq<SealedEvent>)
    ensures
        distinct_leaves(stamp_leaves(events)) <==> distinct_stamps(events),
{
    lemma_stamp_leaves(events);
    let leaves = stamp_leaves(events);
    let numbers = stamp_numbers(events);
    if distinct_leaves(leaves) {
        assert forall|i: int, j: int| 0 <= i < j < numbers.len() implies #[trigger] numbers[i]
            != #[trigger] numbers[j] by {
            assert(leaves[i].element_id != leaves[j].element_id);
            lemma_stamp_id(numbers[i], numbers[j]);
        }
    }
    if distinct_stamps(events) {
        assert forall|i: int, j: int| 0 <= i < j < leaves.len() implies (
        #[trigger] leaves[i]).element_id != (#[trigger] leaves[j]).element_id by {
            assert(numbers[i] != numbers[j]);
            lemma_stamp_id(numbers[i], numbers[j]);
        }
    }
}

/// The leaves of the profiles are distinct where the tails of their ids are.
proof fn lemma_profile_ids(profiles: Seq<ProfileRef>)
    ensures
        distinct_leaves(profiles.map_values(|profile: ProfileRef| profile_leaf(profile)))
            <==> distinct_tails(profiles),
{
    let leaves = profiles.map_values(|profile: ProfileRef| profile_leaf(profile));
    let prefix = "_p_d_Profile_"@;
    assert forall|i: int, j: int| 0 <= i < j < profiles.len() implies ((
    #[trigger] leaves[i]).element_id == (#[trigger] leaves[j]).element_id <==> after_last(
        profiles[i].id@,
        ':',
    ) == after_last(profiles[j].id@, ':')) by {
        let a = after_last(profiles[i].id@, ':');
        let b = after_last(profiles[j].id@, ':');
        assert((prefix + a).skip(prefix.len() as int) =~= a);
        assert((prefix + b).skip(prefix.len() as int) =~= b);
    }
    if distinct_leaves(leaves) {
        assert forall|i: int, j: int| 0 <= i < j < profiles.len() implies after_last(
            (#[trigger] profiles[i]).id@,
            ':',
        ) != after_last((#[trigger] profiles[j]).id@, ':') by {
            assert(leaves[i].element_id != leaves[j].element_id);
        }
    }
}

/// Leaves of which no id occurs in both parts are distinct exactly where those
/// of each part are.
proof fn lemma_distinct_parts(a: Seq<LeafView>, b: Seq<LeafView>)
    requires
        forall|i: int, j: int|
            0 <= i < a.len() && 0 <= j < b.len() ==> (#[trigger] a[i]).element_id != (
            #[trigger] b[j]).element_id,
    ensures
        distinct_leaves(a + b) <==> distinct_leaves(a) && distinct_leaves(b),
{
    let n = a.len() as int;
    let all = a + b;
    if distinct_leaves(all) {
        assert forall|i: int, j: int| 0 <= i < j < a.len() implies (#[trigger] a[i]).element_id != (
        #[trigger] a[j]).element_id by {
            assert(all[i].element_id != all[j].element_id);
        }
        assert forall|i: int, j: int| 0 <= i < j < b.len() implies (#[trigger] b[i]).element_id != (
        #[trigger] b[j]).element_id by {
            assert(all[n + i].element_id != all[n + j].element_id);
        }
    }
    if distinct_leaves(a) && distinct_leaves(b) {
        assert forall|i: int, j: int| 0 <= i < j < all.len() implies (
        #[trigger] all[i]).element_id != (#[trigger] all[j]).element_id by {
            if j < n {
                assert(a[i].element_id != a[j].element_id);
            } else if i < n {
                assert(a[i].element_id != b[j - n].element_id);
            } else {
                assert(b[i - n].element_id != b[j - n].element_id);
            }
        }
    }
}

/// The conformity evidence has distinct leaves exactly where the tails of its
/// profiles and the numbers of its stamps are distinct.
proof fn lemma_evidence_ids(p: &GatewayPassport)
    ensures
        distinct_leaves(evidence_leaves(p)) <==> distinct_tails(p.profiles@) && distinct_stamps(
            p.document.log.sealed@,
        ),
{
    let events = p.document.log.sealed@;
    let profiles = p.profiles@.map_values(|profile: ProfileRef| profile_leaf(profile));
    let stamps = stamp_leaves(events);
    lemma_stamp_ids(events);
    lemma_stamp_leaves(events);
    lemma_profile_ids(p.profiles@);
    reveal_strlit("_p_d_Profile_");
    reveal_strlit("_p_d_Stamp_");
    assert("_p_d_Profile_"@[5] == 'P' && "_p_d_Stamp_"@[5] == 'S');
    assert forall|i: int, j: int| 0 <= i < profiles.len() && 0 <= j < stamps.len() implies (
    #[trigger] profiles[i]).element_id != (#[trigger] stamps[j]).element_id by {
        assert(profiles[i].element_id[5] == 'P');
        assert(stamps[j].element_id == stamp_id(stamp_numbers(events)[j]));
        assert(stamps[j].element_id[5] == 'S');
    }
    lemma_distinct_parts(profiles, stamps);
}

/// The collections of fixed leaves have distinct ones.
proof fn lemma_fixed_ids(p: &GatewayPassport)
    ensures
        distinct_leaves(product_leaves(p)),
        distinct_leaves(state_leaves(p)),
        distinct_leaves(document_leaves(p)),
{
    reveal_strlit("_p_d_GTIN");
    reveal_strlit("_p_d_UniqueProductIdentifier");
    reveal_strlit("_p_d_PassportId");
    reveal_strlit("_p_d_TypeRef");
    reveal_strlit("_p_d_CapabilityClass");
    reveal_strlit("_p_d_ResolverUri");
    reveal_strlit("_p_d_DppStatus");
    reveal_strlit("_p_d_RecallActive");
    reveal_strlit("_p_d_LogHead");
    reveal_strlit("_p_d_LogHeight");
    reveal_strlit("_p_d_TrustMarker");
    reveal_strlit("_p_d_LinkResolverUri");
    reveal_strlit("_p_d_UntpRender");
    assert("_p_d_DppStatus"@[5] == 'D' && "_p_d_LogHeight"@[5] == 'L');
    assert("_p_d_GTIN"@.len() == 9 && "_p_d_UniqueProductIdentifier"@.len() == 28);
    assert("_p_d_PassportId"@.len() == 15 && "_p_d_TypeRef"@.len() == 12);
    assert("_p_d_CapabilityClass"@.len() == 20 && "_p_d_ResolverUri"@.len() == 16);
    assert("_p_d_DppStatus"@.len() == 14 && "_p_d_RecallActive"@.len() == 17);
    assert("_p_d_LogHead"@.len() == 12 && "_p_d_LogHeight"@.len() == 14);
    assert("_p_d_TrustMarker"@.len() == 16 && "_p_d_LinkResolverUri"@.len() == 20);
    assert("_p_d_UntpRender"@.len() == 15);
    let leaves = product_leaves(p);
    let g: int = if p.document.product_id.gs1_keyed() {
        1
    } else {
        0
    };
    let t: int = if p.document.type_ref is Some {
        1
    } else {
        0
    };
    assert(leaves.len() == g + t + 4);
    assert(g == 1 ==> leaves[0].element_id == "_p_d_GTIN"@);
    assert(leaves[g].element_id == "_p_d_UniqueProductIdentifier"@);
    assert(leaves[g + 1].element_id == "_p_d_PassportId"@);
    assert(t == 1 ==> leaves[g + 2].element_id == "_p_d_TypeRef"@);
    assert(leaves[g + t + 2].element_id == "_p_d_CapabilityClass"@);
    assert(leaves[g + t + 3].element_id == "_p_d_ResolverUri"@);
}

/// Leaves become at most as many members, and as many where they are distinct.
proof fn lemma_member_count(leaves: Seq<LeafView>)
    ensures
        compressed_leaves(leaves).dom().finite(),
        compressed_leaves(leaves).dom().len() <= leaves.len(),
        compressed_leaves(leaves).dom().len() == leaves.len() <==> distinct_leaves(leaves),
    decreases leaves.len(),
{
    if leaves.len() > 0 {
        let init = leaves.drop_last();
        let n = leaves.len() - 1;
        lemma_member_count(init);
        lemma_compressed_leaves(init);
        let last = leaves.last().element_id;
        let known = compressed_leaves(init).dom();
        assert(compressed_leaves(leaves).dom() =~= known.insert(last));
        if distinct_leaves(leaves) {
            assert forall|i: int, j: int| 0 <= i < j < init.len() implies (
            #[trigger] init[i]).element_id != (#[trigger] init[j]).element_id by {
                assert(leaves[i].element_id != leaves[j].element_id);
            }
            if compressed_leaves(init).contains_key(last) {
                let i = choose|i: int|
                    0 <= i < init.len() && (#[trigger] init[i]).element_id == last;
                assert(leaves[i].element_id != leaves[n].element_id);
            }
        }
        if known.insert(last).len() == leaves.len() {
            assert(!known.contains(last));
            assert forall|i: int, j: int| 0 <= i < j < leaves.len() implies (
            #[trigger] leaves[i]).element_id != (#[trigger] leaves[j]).element_id by {
                if j < n {
                    assert(init[i].element_id != init[j].element_id);
                } else {
                    assert(init[i].element_id == leaves[i].element_id);
                    assert(compressed_leaves(init).contains_key(init[i].element_id));
                }
            }
        }
    }
}

/// Whether both representations agree on a collection: the full form lists its
/// leaves, and the compressed form has exactly as many members and carries
/// natively, under each leaf's id, the value that the full form prints.
pub open spec fn agree_on(p: &GatewayPassport, c: int) -> bool {
    let collection = element_tree(p)[c];
    &&& body(p, Representation::Full).items_at("elements"@) matches Some(elements)
        && elements.len() == 4 && elements[c].text_at("elementId"@) == Some(collection.element_id)
        && (elements[c].items_at("elements"@) matches Some(leaves) && leaves.len()
        == collection.leaves.len() && forall|l: int|
        #![trigger collection.leaves[l]]
        0 <= l < collection.leaves.len() ==> leaves[l].text_at("elementId"@) == Some(
            collection.leaves[l].element_id,
        ) && leaves[l].text_at("value"@) == Some(collection.leaves[l].value.printed()))
    &&& body(p, Representation::Compressed).member(collection.element_id) matches Some(
        JsonView::Object(flat),
    ) && flat.dom().finite() && flat.dom().len() == collection.leaves.len() && forall|l: int|
        #![trigger collection.leaves[l]]
        0 <= l < collection.leaves.len() ==> flat.contains_key(collection.leaves[l].element_id)
            && flat[collection.leaves[l].element_id] == collection.leaves[l].value.native()
}

/// Both representations agree throughout. They agree on every collection but
/// the conformity evidence whatever the passport holds, and on that one exactly
/// where no two profiles share the tail of their id and no two stamps the
/// number of their event: otherwise the full form lists two leaves of one id,
/// and the compressed form has a member less. The headers differ in nothing
/// but the form of `lastUpdated`.
pub proof fn law_representations_agree_throughout(p: &GatewayPassport, c: int, name: Text)
    requires
        0 <= c < 4,
    ensures
        agree_on(p, c) <==> (element_tree(p)[c].element_id == "cbConformityEvidence"@
            ==> distinct_tails(p.profiles@) && distinct_stamps(p.document.log.sealed@)),
        header(p, Representation::Full).contains_key(name) <==> header(
            p,
            Representation::Compressed,
        ).contains_key(name),
        header(p, Representation::Full).contains_key(name) && name != "lastUpdated"@ ==> body(
            p,
            Representation::Full,
        ).member(name) == body(p, Representation::Compressed).member(name),
{
    lemma_fixed_ids(p);
    lemma_evidence_ids(p);
    lemma_compressed_members(p);
    lemma_header_names();
    lemma_wire_names();
    let collection = element_tree(p)[c];
    let leaves = collection.leaves;
    lemma_member_count(leaves);
    assert(body(p, Representation::Compressed).member(collection.element_id) == Some(
        JsonView::Object(compressed_leaves(leaves)),
    ));
    if distinct_leaves(leaves) {
        let elements = body(p, Representation::Full).items_at("elements"@).unwrap();
        assert(elements.len() == 4);
        assert(elements[c] == full_collection(collection));
        let wired = elements[c].items_at("elements"@).unwrap();
        assert(wired.len() == leaves.len());
        assert forall|l: int| #![trigger leaves[l]] 0 <= l < leaves.len() implies wired[l].text_at(
            "elementId"@,
        ) == Some(leaves[l].element_id) && wired[l].text_at("value"@) == Some(
            leaves[l].value.printed(),
        ) && compressed_leaves(leaves).contains_key(leaves[l].element_id) && compressed_leaves(
            leaves,
        )[leaves[l].element_id] == leaves[l].value.native() by {
            law_representations_agree(p, c, l);
        }
    }
}

/// No header member is named like a collection or the element tree.
proof fn lemma_header_names()
    ensures
        "digitalProductPassportId"@.len() == 24,
        "uniqueProductIdentifier"@.len() == 23,
        "granularity"@.len() == 11 && "granularity"@[0] == 'g',
        "dppSchemaVersion"@.len() == 16,
        "dppStatus"@.len() == 9,
        "lastUpdated"@.len() == 11 && "lastUpdated"@[0] == 'l',
        "economicOperatorId"@.len() == 18,
        "facilityId"@.len() == 10,
        "contentSpecificationIds"@.len() == 23,
        "cwDocuments"@.len() == 11 && "cwDocuments"@[0] == 'c',
{
    reveal_strlit("digitalProductPassportId");
    reveal_strlit("uniqueProductIdentifier");
    reveal_strlit("granularity");
    reveal_strlit("dppSchemaVersion");
    reveal_strlit("dppStatus");
    reveal_strlit("lastUpdated");
    reveal_strlit("economicOperatorId");
    reveal_strlit("facilityId");
    reveal_strlit("contentSpecificationIds");
    reveal_strlit("cwDocuments");
}

/// The facility is the economic operator in both representations.
pub proof fn law_facility_is_the_operator(p: &GatewayPassport, representation: Representation)
    ensures
        body(p, representation).text_at("facilityId"@) == body(p, representation).text_at(
            "economicOperatorId"@,
        ),
        body(p, representation).text_at("facilityId"@) == Some(p.document.eo_id@),
{
    lemma_wire_names();
    lemma_compressed_members(p);
    reveal_strlit("facilityId");
    reveal_strlit("economicOperatorId");
    reveal_strlit("contentSpecificationIds");
    assert("facilityId"@.len() == 10 && "economicOperatorId"@.len() == 18);
    assert("contentSpecificationIds"@.len() == 23);
}

/// The header product identifier of a GTIN-keyed passport is the key that
/// the route addresses.
pub proof fn law_header_carries_the_gtin(p: &GatewayPassport, representation: Representation)
    requires
        p.gtin() is Some,
    ensures
        header(p, representation)["uniqueProductIdentifier"@] == JsonView::Text(p.gtin().unwrap()),
{
    reveal_strlit("uniqueProductIdentifier");
    reveal_strlit("granularity");
    reveal_strlit("dppSchemaVersion");
    reveal_strlit("dppStatus");
    reveal_strlit("lastUpdated");
    reveal_strlit("economicOperatorId");
    reveal_strlit("facilityId");
    reveal_strlit("contentSpecificationIds");
    assert("uniqueProductIdentifier"@.len() == 23 && "uniqueProductIdentifier"@[0] == 'u');
    assert("contentSpecificationIds"@[0] == 'c');
    assert("granularity"@.len() == 11 && "dppSchemaVersion"@.len() == 16);
    assert("dppStatus"@.len() == 9 && "lastUpdated"@.len() == 11);
    assert("economicOperatorId"@.len() == 18 && "facilityId"@.len() == 10);
}

/// The strongest marker bounds the markers of the events and is one of them.
proof fn lemma_strongest(events: Seq<SealedEvent>)
    ensures
        forall|i: int|
            0 <= i < events.len() ==> (#[trigger] events[i]).trust.rank() <= strongest_trust(
                events,
            ).rank(),
        events.len() == 0 ==> strongest_trust(events) is Unsigned,
        events.len() > 0 ==> exists|i: int|
            0 <= i < events.len() && (#[trigger] events[i]).trust == strongest_trust(events),
    decreases events.len(),
{
    if events.len() > 0 {
        let init = events.drop_last();
        let n = events.len() - 1;
        lemma_strongest(init);
        assert forall|i: int| 0 <= i < events.len() implies (#[trigger] events[i]).trust.rank()
            <= strongest_trust(events).rank() by {
            if i < n {
                assert(init[i].trust.rank() <= strongest_trust(init).rank());
            }
        }
        if events.last().trust.rank() >= strongest_trust(init).rank() {
            assert(events[n].trust == strongest_trust(events));
        } else {
            let i = choose|i: int|
                0 <= i < init.len() && (#[trigger] init[i]).trust == strongest_trust(init);
            assert(events[i].trust == strongest_trust(events));
        }
    }
}

/// A leaf of a collection of distinct ones is a member of its compressed form.
proof fn lemma_leaf_member(leaves: Seq<LeafView>, i: int)
    requires
        distinct_leaves(leaves),
        0 <= i < leaves.len(),
    ensures
        JsonView::Object(compressed_leaves(leaves)).member(leaves[i].element_id) == Some(
            leaves[i].value.native(),
        ),
{
    lemma_compressed_leaves(leaves);
    assert forall|j: int| i < j < leaves.len() implies (#[trigger] leaves[j]).element_id
        != leaves[i].element_id by {}
    assert(compressed_leaves(leaves).contains_key(leaves[i].element_id));
}

/// The rendered trust marker is the strongest in the log: no sealed event is
/// vouched for better, and where there is an event, some event is vouched for
/// so; without events it is unsigned.
pub proof fn law_the_strongest_marker_is_rendered(p: &GatewayPassport)
    ensures
        exists|marker: TrustMarker|
            {
                let events = p.document.log.sealed@;
                &&& body(p, Representation::Compressed).member("caStateSafety"@) matches Some(state)
                    && state.text_at("_p_d_TrustMarker"@) == Some(#[trigger] marker.token())
                &&& forall|i: int|
                    0 <= i < events.len() ==> (#[trigger] events[i]).trust.rank() <= marker.rank()
                &&& events.len() > 0 ==> exists|i: int|
                    0 <= i < events.len() && (#[trigger] events[i]).trust == marker
                &&& events.len() == 0 ==> marker is Unsigned
            },
{
    lemma_wire_names();
    lemma_compressed_members(p);
    lemma_fixed_ids(p);
    let events = p.document.log.sealed@;
    lemma_strongest(events);
    let marker = strongest_trust(events);
    let leaves = state_leaves(p);
    lemma_leaf_member(leaves, 4);
    assert(leaves[4].element_id == "_p_d_TrustMarker"@);
    assert(body(p, Representation::Compressed).member("caStateSafety"@).unwrap().text_at(
        "_p_d_TrustMarker"@,
    ) == Some(marker.token()));
}

/// What the state of a passport renders as: its status, with `active` for an
/// issued one, in the header and in the collection alike; whether a recall
/// stands; the head of its log, empty where there is none, and its height.
pub proof fn law_state_is_rendered(p: &GatewayPassport, representation: Representation)
    ensures
        body(p, Representation::Compressed).member("caStateSafety"@) matches Some(state) && {
            &&& state.text_at("_p_d_DppStatus"@) == body(p, representation).text_at("dppStatus"@)
            &&& state.text_at("_p_d_DppStatus"@) == Some(
                match p.document.log.current_status {
                    Status::Issued => "active"@,
                    Status::Other(token) => token@,
                },
            )
            &&& state.member("_p_d_RecallActive"@) == Some(
                JsonView::Bool(p.document.log.safety_flag is Raised),
            )
            &&& state.text_at("_p_d_LogHead"@) == Some(
                match p.document.log.head {
                    Some(head) => head@,
                    None => Seq::empty(),
                },
            )
            &&& state.member("_p_d_LogHeight"@) == Some(JsonView::Unsigned(p.document.log.height))
        },
{
    lemma_wire_names();
    lemma_header_names();
    lemma_compressed_members(p);
    lemma_fixed_ids(p);
    let leaves = state_leaves(p);
    lemma_leaf_member(leaves, 0);
    lemma_leaf_member(leaves, 1);
    lemma_leaf_member(leaves, 2);
    lemma_leaf_member(leaves, 3);
    assert(leaves[0].element_id == "_p_d_DppStatus"@);
    assert(leaves[1].element_id == "_p_d_RecallActive"@);
    assert(leaves[2].element_id == "_p_d_LogHead"@);
    assert(leaves[3].element_id == "_p_d_LogHeight"@);
}

/// What identifies a passport in a render: the header carries its passport id,
/// its GTIN, or its display form where it has none, its granularity, its
/// operator and the instant of its last event, or of its creation, without the
/// zone; the collection carries its passport id, its display form, its GTIN
/// where it has one, its type where it has one, its class and where it is
/// served; the documents link to where it is served and to its UNTP render.
pub proof fn law_identity_is_rendered(p: &GatewayPassport, representation: Representation)
    ensures
        ({
            let b = body(p, representation);
            let document = p.document;
            let id = document.product_id;
            let keyed = id.scheme is Gtin || id.scheme is Sgtin;
            let instant = match document.log.last_event_at {
                Some(t) => t.text@,
                None => document.created_at.text@,
            };
            &&& b.text_at("digitalProductPassportId"@) == Some(document.passport_id@)
            &&& b.text_at("uniqueProductIdentifier"@) == Some(
                if keyed {
                    id.key@
                } else {
                    id.display@
                },
            )
            &&& b.text_at("granularity"@) == Some(
                match id.granularity {
                    Granularity::Model => "Model"@,
                    Granularity::Batch => "Batch"@,
                    Granularity::Item => "Item"@,
                },
            )
            &&& b.text_at("dppSchemaVersion"@) == Some("0.1"@)
            &&& b.text_at("economicOperatorId"@) == Some(document.eo_id@)
            &&& b.text_at("facilityId"@) == Some(document.eo_id@)
            &&& b.text_at("lastUpdated"@) == Some(
                match representation {
                    Representation::Full => without_trailing(instant, 'Z'),
                    Representation::Compressed => without_trailing(instant, 'Z') + ".0000000"@,
                },
            )
            &&& body(p, Representation::Compressed).member("c0ProductInformation"@) matches Some(
                product,
            ) && {
                &&& product.text_at("_p_d_PassportId"@) == Some(document.passport_id@)
                &&& product.text_at("_p_d_UniqueProductIdentifier"@) == Some(id.display@)
                &&& keyed ==> product.text_at("_p_d_GTIN"@) == Some(id.key@)
                &&& product.member("_p_d_GTIN"@) is Some <==> keyed
                &&& product.member("_p_d_TypeRef"@) is Some <==> document.type_ref is Some
                &&& document.type_ref matches Some(type_ref) ==> product.text_at("_p_d_TypeRef"@)
                    == Some(type_ref@)
                &&& product.text_at("_p_d_CapabilityClass"@) == Some(document.capability@)
                &&& product.text_at("_p_d_ResolverUri"@) == Some(document.resolver_uri@)
            }
            &&& body(p, Representation::Compressed).member("cwDocuments"@) matches Some(links) && {
                &&& links.text_at("_p_d_LinkResolverUri"@) == Some(document.resolver_uri@)
                &&& links.text_at("_p_d_UntpRender"@) == Some(
                    "/untp/product/"@ + document.passport_id@,
                )
            }
        }),
{
    lemma_wire_names();
    lemma_header_names();
    lemma_compressed_members(p);
    lemma_fixed_ids(p);
    assert("uniqueProductIdentifier"@[0] == 'u' && "contentSpecificationIds"@[0] == 'c') by {
        reveal_strlit("uniqueProductIdentifier");
        reveal_strlit("contentSpecificationIds");
    }
    let leaves = product_leaves(p);
    let g: int = if p.document.product_id.gs1_keyed() {
        1
    } else {
        0
    };
    let t: int = if p.document.type_ref is Some {
        1
    } else {
        0
    };
    assert(leaves.len() == g + t + 4);
    assert(leaves[g].element_id == "_p_d_UniqueProductIdentifier"@);
    assert(leaves[g + 1].element_id == "_p_d_PassportId"@);
    assert(leaves[g + t + 2].element_id == "_p_d_CapabilityClass"@);
    assert(leaves[g + t + 3].element_id == "_p_d_ResolverUri"@);
    lemma_leaf_member(leaves, g);
    lemma_leaf_member(leaves, g + 1);
    lemma_leaf_member(leaves, g + t + 2);
    lemma_leaf_member(leaves, g + t + 3);
    if g == 1 {
        assert(leaves[0].element_id == "_p_d_GTIN"@);
        lemma_leaf_member(leaves, 0);
    }
    if t == 1 {
        assert(leaves[g + 2].element_id == "_p_d_TypeRef"@);
        lemma_leaf_member(leaves, g + 2);
    }
    lemma_compressed_leaves(leaves);
    lemma_product_ids(p);
    let links = document_leaves(p);
    assert(links[0].element_id == "_p_d_LinkResolverUri"@);
    assert(links[1].element_id == "_p_d_UntpRender"@);
    lemma_leaf_member(links, 0);
    lemma_leaf_member(links, 1);
}

/// A GTIN leaf is there where the subject has one, and a type leaf likewise.
proof fn lemma_product_ids(p: &GatewayPassport)
    ensures
        !p.document.product_id.gs1_keyed() ==> forall|i: int|
            0 <= i < product_leaves(p).len() ==> (#[trigger] product_leaves(p)[i]).element_id
                != "_p_d_GTIN"@,
        p.document.type_ref is None ==> forall|i: int|
            0 <= i < product_leaves(p).len() ==> (#[trigger] product_leaves(p)[i]).element_id
                != "_p_d_TypeRef"@,
{
    reveal_strlit("_p_d_GTIN");
    reveal_strlit("_p_d_UniqueProductIdentifier");
    reveal_strlit("_p_d_PassportId");
    reveal_strlit("_p_d_TypeRef");
    reveal_strlit("_p_d_CapabilityClass");
    reveal_strlit("_p_d_ResolverUri");
    assert("_p_d_GTIN"@.len() == 9 && "_p_d_UniqueProductIdentifier"@.len() == 28);
    assert("_p_d_PassportId"@.len() == 15 && "_p_d_TypeRef"@.len() == 12);
    assert("_p_d_CapabilityClass"@.len() == 20 && "_p_d_ResolverUri"@.len() == 16);
}

/// The content specifications of a render are the EN and every bound profile
/// with its version, in their order, in both representations.
pub proof fn law_specifications_are_rendered(
    p: &GatewayPassport,
    representation: Representation,
    i: int,
)
    ensures
        body(p, representation).items_at("contentSpecificationIds"@) matches Some(ids) && {
            &&& ids.len() == p.profiles@.len() + 1
            &&& ids[0] == JsonView::Text("EN 18223:2026"@)
            &&& 0 <= i < p.profiles@.len() ==> ids[i + 1] == JsonView::Text(
                p.profiles@[i].id@ + "@"@ + p.profiles@[i].version@,
            )
        },
{
    lemma_wire_names();
    lemma_header_names();
    lemma_compressed_members(p);
}

/// The conformity evidence of a render, in the order of the full form: a leaf
/// for each profile, named after the tail of its id and carrying the profile
/// with its version, before all leaves of stamps; one leaf that says so where
/// there is neither.
pub proof fn law_profiles_are_evidence(p: &GatewayPassport, i: int)
    requires
        0 <= i < p.profiles@.len(),
    ensures
        evidence_of(p) matches Some(leaves) && leaves.len() >= p.profiles@.len() && {
            &&& leaves[i].text_at("elementId"@) == Some(
                "_p_d_Profile_"@ + after_last(p.profiles@[i].id@, ':'),
            )
            &&& leaves[i].text_at("value"@) == Some(
                p.profiles@[i].id@ + "@"@ + p.profiles@[i].version@,
            )
        },
{
    lemma_wire_names();
    let leaves = evidence_of(p).unwrap();
    let claims = evidence_leaves(p);
    lemma_evidence_wire(p);
    assert(claims[i] == profile_leaf(p.profiles@[i]));
    assert(leaves[i] == full_form(claims[i]));
}

/// The leaves of the conformity evidence in the full form.
pub open spec fn evidence_of(p: &GatewayPassport) -> Option<Seq<JsonView>> {
    match body(p, Representation::Full).items_at("elements"@) {
        Some(collections) => if collections.len() == 4 && collections[2].text_at("elementId"@)
            == Some("cbConformityEvidence"@) {
            collections[2].items_at("elements"@)
        } else {
            None
        },
        None => None,
    }
}

/// The conformity evidence of the full form lists its leaves.
proof fn lemma_evidence_wire(p: &GatewayPassport)
    ensures
        evidence_of(p) == Some(evidence_leaves(p).map_values(|l: LeafView| full_form(l))),
{
    lemma_wire_names();
    let collections = body(p, Representation::Full).items_at("elements"@).unwrap();
    assert(collections.len() == 4);
    assert(collections[2] == full_collection(element_tree(p)[2]));
    assert(collections[2].text_at("elementId"@) == Some("cbConformityEvidence"@));
    assert(collections[2].items_at("elements"@) == Some(
        evidence_leaves(p).map_values(|l: LeafView| full_form(l)),
    ));
}

/// What one more sealed event adds to the conformity evidence: nothing where it
/// is no inspection stamp; for a stamp one leaf, behind all others, named after
/// the event's number and carrying the attester, the lens with its version, the
/// mode and the summary. Without profiles and stamps there is one leaf, which
/// says that no profile is bound, and which the first stamp takes the place of.
pub proof fn law_stamps_are_evidence(p: &GatewayPassport, q: &GatewayPassport, event: SealedEvent)
    requires
        q.document.log.sealed@ == p.document.log.sealed@.push(event),
        q.profiles@ == p.profiles@,
    ensures
        evidence_of(p) matches Some(before) && evidence_of(q) matches Some(after) && {
            let none = before.len() == 1 && before[0].text_at("elementId"@) == Some(
                "_p_d_NoClaims"@,
            );
            match event.payload {
                EventPayload::Other => after == before,
                EventPayload::InspectionStamp { stamp } => {
                    &&& none ==> after.len() == 1
                    &&& !none ==> after.len() == before.len() + 1 && after.drop_last() == before
                    &&& after.last().text_at("elementId"@) == Some(
                        "_p_d_Stamp_"@ + decimal(event.seq as nat),
                    )
                    &&& after.last().text_at("value"@) == Some(
                        stamp.attester@ + "|"@ + stamp.lens@ + "@"@ + stamp.lens_version@ + "|"@
                            + stamp.mode@ + "|"@ + (match stamp.verdict_summary {
                            Some(summary) => summary@,
                            None => "inspection stamp"@,
                        }),
                    )
                },
            }
        },
        p.profiles@.len() == 0 && p.document.log.sealed@.len() == 0 ==> (evidence_of(
            p,
        ) matches Some(leaves) && leaves.len() == 1 && leaves[0].text_at("elementId"@) == Some(
            "_p_d_NoClaims"@,
        ) && leaves[0].text_at("value"@) == Some("no profile bound"@)),
{
    lemma_wire_names();
    lemma_evidence_wire(p);
    lemma_evidence_wire(q);
    reveal_strlit("_p_d_NoClaims");
    reveal_strlit("_p_d_Profile_");
    reveal_strlit("_p_d_Stamp_");
    assert("_p_d_NoClaims"@[5] == 'N' && "_p_d_Profile_"@[5] == 'P' && "_p_d_Stamp_"@[5] == 'S');
    let events = p.document.log.sealed@;
    assert(q.document.log.sealed@.drop_last() =~= events);
    lemma_stamp_leaves(events);
    let profiles = p.profiles@.map_values(|profile: ProfileRef| profile_leaf(profile));
    let claims = profiles + stamp_leaves(events);
    let wire = |l: LeafView| full_form(l);
    let before = evidence_of(p).unwrap();
    let after = evidence_of(q).unwrap();
    if claims.len() > 0 {
        assert(evidence_leaves(p) == claims);
        assert(before[0] == full_form(claims[0]));
        assert(claims[0].element_id[5] != 'N') by {
            if profiles.len() > 0 {
                assert(claims[0] == profile_leaf(p.profiles@[0]));
                assert(claims[0].element_id[5] == 'P');
            } else {
                assert(claims[0] == stamp_leaves(events)[0]);
                assert(claims[0].element_id == stamp_id(stamp_numbers(events)[0]));
                assert(claims[0].element_id[5] == 'S');
            }
        }
        assert(before[0].text_at("elementId"@) == Some(claims[0].element_id));
    } else {
        assert(before[0] == full_form(evidence_leaves(p)[0]));
        assert(before[0].text_at("elementId"@) == Some("_p_d_NoClaims"@));
        assert(before[0].text_at("value"@) == Some("no profile bound"@));
    }
    match event.payload {
        EventPayload::Other => {},
        EventPayload::InspectionStamp { stamp } => {
            let leaf = stamp_leaf(event, stamp);
            let theirs = profiles + stamp_leaves(q.document.log.sealed@);
            assert(theirs =~= claims.push(leaf));
            assert(evidence_leaves(q) == theirs);
            assert(after.last() == full_form(leaf));
            if claims.len() > 0 {
                assert(after.drop_last() =~= before);
            }
        },
    }
}

/// The print of a value and its native form say the same: a text is printed as
/// it is, a truth value as `true` or `false`, a number in decimal. In the full
/// form every leaf is a single-valued element with a reference into the
/// dictionary under its own id.
pub proof fn law_values_are_printed(leaf: LeafView)
    ensures
        leaf.value.native() matches JsonView::Text(s) ==> leaf.value.printed() == s,
        leaf.value.native() matches JsonView::Bool(b) ==> leaf.value.printed() == (if b {
            "true"@
        } else {
            "false"@
        }),
        leaf.value.native() matches JsonView::Unsigned(n) ==> leaf.value.printed() == decimal(
            n as nat,
        ),
        leaf.value.native() is Text <==> leaf.value is Str,
        leaf.value.native() is Bool <==> leaf.value is Bool,
        leaf.value.native() is Unsigned <==> leaf.value is Num,
        full_form(leaf).text_at("elementId"@) == Some(leaf.element_id),
        full_form(leaf).text_at("objectType"@) == Some("SingleValuedDataElement"@),
        full_form(leaf).text_at("dictionaryReference"@) == Some(
            "https://unidpp.org/dp/"@ + leaf.element_id,
        ),
        full_form(leaf).text_at("valueDataType"@) == Some(leaf.xsd),
        full_form(leaf).text_at("value"@) == Some(leaf.value.printed()),
{
    lemma_wire_names();
}

/// The four collections of the full form are data element collections with a
/// reference into the dictionary under their own id, and each leaf has the type
/// of its value.
pub proof fn law_collections_are_typed(p: &GatewayPassport, c: int, l: int)
    requires
        0 <= c < 4,
        0 <= l < element_tree(p)[c].leaves.len(),
    ensures
        body(p, Representation::Full).items_at("elements"@) matches Some(collections)
            && collections.len() == 4 && collections[c].text_at("elementId"@) == Some(
            if c == 0 {
                "c0ProductInformation"@
            } else if c == 1 {
                "caStateSafety"@
            } else if c == 2 {
                "cbConformityEvidence"@
            } else {
                "cwDocuments"@
            },
        ) && collections[c].text_at("objectType"@) == Some("DataElementCollection"@)
            && collections[c].text_at("dictionaryReference"@) == Some(
            "https://unidpp.org/dp/"@ + collections[c].text_at("elementId"@).unwrap(),
        ),
        element_tree(p)[c].leaves[l].value is Bool ==> element_tree(p)[c].leaves[l].xsd
            == "xsd:boolean"@,
        element_tree(p)[c].leaves[l].value is Num ==> element_tree(p)[c].leaves[l].xsd
            == "xsd:integer"@,
        element_tree(p)[c].leaves[l].value is Str ==> element_tree(p)[c].leaves[l].xsd
            == "xsd:string"@ || element_tree(p)[c].leaves[l].xsd == "xsd:anyURI"@,
{
    lemma_wire_names();
    let collections = body(p, Representation::Full).items_at("elements"@).unwrap();
    assert(collections[c] == full_collection(element_tree(p)[c]));
    if c == 2 {
        lemma_stamp_types(p.document.log.sealed@);
        let profiles = p.profiles@.map_values(|profile: ProfileRef| profile_leaf(profile));
        let stamps = stamp_leaves(p.document.log.sealed@);
        if (profiles + stamps).len() > 0 && l >= profiles.len() {
            assert(evidence_leaves(p)[l] == stamps[l - profiles.len()]);
        }
    }
}

/// Every stamp leaf is a text.
proof fn lemma_stamp_types(events: Seq<SealedEvent>)
    ensures
        forall|l: int|
            0 <= l < stamp_leaves(events).len() ==> (#[trigger] stamp_leaves(
                events,
            )[l]).value is Str && stamp_leaves(events)[l].xsd == "xsd:string"@,
    decreases events.len(),
{
    if events.len() > 0 {
        lemma_stamp_types(events.drop_last());
    }
}

/// The `representation` parameter, white space around it ignored: `full` and
/// `compressed` select the form of that name, nothing or a blank one the
/// compressed form, and anything else is refused by its name.
pub proof fn law_representations_are_selected(param: Text)
    ensures
        Representation::Full.token() == "full"@,
        Representation::Compressed.token() == "compressed"@,
        selected(None) == Ok::<Representation, Text>(Representation::Compressed),
        is_blank(param) || trimmed(param) == "compressed"@ ==> selected(Some(param)) == Ok::<
            Representation,
            Text,
        >(Representation::Compressed),
        trimmed(param) == "full"@ ==> selected(Some(param)) == Ok::<Representation, Text>(
            Representation::Full,
        ),
        !is_blank(param) && trimmed(param) != "compressed"@ && trimmed(param) != "full"@
            ==> selected(Some(param)) == Err::<Representation, Text>(
            "unknown representation `"@ + trimmed(param) + "` (expected full|compressed)"@,
        ),
{
    reveal_strlit("full");
    reveal_strlit("compressed");
}

/// A render is the body of its passport in the asked form at any instant.
pub proof fn law_renders_are_timeless(
    p: &GatewayPassport,
    representation: Representation,
    now: &Timestamp,
    later: &Timestamp,
    a: Json,
    b: Json,
)
    requires
        call_ensures(render, (p, representation, now), a),
        call_ensures(render, (p, representation, later), b),
    ensures
        a.view() == b.view(),
        a.view() == body(p, representation),
{
}

/// The leaves that are addresses are typed as such: the passport id, where the
/// passport is served and its other render. Every other text is a string.
pub proof fn law_addresses_are_typed(p: &GatewayPassport, c: int, l: int)
    requires
        0 <= c < 4,
        0 <= l < element_tree(p)[c].leaves.len(),
        element_tree(p)[c].leaves[l].value is Str,
    ensures
        ({
            let leaf = element_tree(p)[c].leaves[l];
            let address = leaf.element_id == "_p_d_PassportId"@ || leaf.element_id
                == "_p_d_ResolverUri"@ || leaf.element_id == "_p_d_LinkResolverUri"@
                || leaf.element_id == "_p_d_UntpRender"@;
            leaf.xsd == (if address {
                "xsd:anyURI"@
            } else {
                "xsd:string"@
            })
        }),
{
    reveal_strlit("_p_d_GTIN");
    reveal_strlit("_p_d_UniqueProductIdentifier");
    reveal_strlit("_p_d_PassportId");
    reveal_strlit("_p_d_TypeRef");
    reveal_strlit("_p_d_CapabilityClass");
    reveal_strlit("_p_d_ResolverUri");
    reveal_strlit("_p_d_DppStatus");
    reveal_strlit("_p_d_LogHead");
    reveal_strlit("_p_d_TrustMarker");
    reveal_strlit("_p_d_LinkResolverUri");
    reveal_strlit("_p_d_UntpRender");
    reveal_strlit("_p_d_NoClaims");
    reveal_strlit("_p_d_Profile_");
    reveal_strlit("_p_d_Stamp_");
    let leaf = element_tree(p)[c].leaves[l];
    assert("_p_d_PassportId"@.len() == 15 && "_p_d_PassportId"@[5] == 'P' && "_p_d_PassportId"@[6]
        == 'a');
    assert("_p_d_ResolverUri"@.len() == 16 && "_p_d_ResolverUri"@[5] == 'R');
    assert("_p_d_LinkResolverUri"@.len() == 20 && "_p_d_LinkResolverUri"@[5] == 'L');
    assert("_p_d_UntpRender"@.len() == 15 && "_p_d_UntpRender"@[5] == 'U');
    assert("_p_d_GTIN"@.len() == 9 && "_p_d_UniqueProductIdentifier"@.len() == 28);
    assert("_p_d_TypeRef"@.len() == 12);
    assert("_p_d_CapabilityClass"@.len() == 20 && "_p_d_CapabilityClass"@[5] == 'C');
    assert("_p_d_DppStatus"@.len() == 14 && "_p_d_LogHead"@.len() == 12);
    assert("_p_d_TrustMarker"@.len() == 16 && "_p_d_TrustMarker"@[5] == 'T');
    assert("_p_d_NoClaims"@.len() == 13);
    assert("_p_d_Profile_"@[5] == 'P' && "_p_d_Profile_"@[6] == 'r' && "_p_d_Profile_"@.len() == 13);
    assert("_p_d_Stamp_"@[5] == 'S' && "_p_d_Stamp_"@.len() == 11);
    if c == 2 {
        let events = p.document.log.sealed@;
        lemma_stamp_types(events);
        lemma_stamp_leaves(events);
        let profiles = p.profiles@.map_values(|profile: ProfileRef| profile_leaf(profile));
        let stamps = stamp_leaves(events);
        if (profiles + stamps).len() > 0 {
            if l < profiles.len() {
                assert(leaf == profile_leaf(p.profiles@[l]));
                assert(leaf.element_id[5] == 'P' && leaf.element_id[6] == 'r');
            } else {
                assert(leaf == stamps[l - profiles.len()]);
                assert(leaf.element_id == stamp_id(stamp_numbers(events)[l - profiles.len()]));
                assert(leaf.element_id[5] == 'S');
            }
        }
    }
}

} // verus!
