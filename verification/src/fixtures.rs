//! The seeded fixture passports: the fallback data source when no issuer is
//! configured.
//!
//! A fixture is a plan: what the passport is minted from, the events of its
//! log and its profiles. The service mints it with the core's own machinery,
//! so that the fixtures are the documents a deployment produces.
//!
//! - the laptop: one neutral core under two jurisdiction lenses (EU ESPR
//!   electronics and JP METI PSE), custody transfer, firmware update, part
//!   replacement;
//! - the tyre: the consumable loop under a GTIN identity, which is what the
//!   EN 18222 route keys on, with an inspection stamp as conformity evidence.
//!
//! Instants are fixed, so that renders are deterministic.
use vstd::prelude::*;

use crate::model::{MintOptions, Timestamp, TrustMarker};
use crate::source::ProfileRef;
use crate::text::{opt_string, Text};

verus! {

/// How an inspection relates to time.
#[derive(Debug, Clone, Copy, PartialEq, Eq, Structural)]
pub enum StampMode {
    Snapshot,
}

/// The inspection stamp of a plan.
#[derive(Debug, PartialEq)]
pub struct PlannedStamp {
    pub attester: &'static str,
    pub subject: &'static str,
    /// What the commitment to the inspected state digests.
    pub state_material: &'static str,
    pub lens: &'static str,
    pub lens_version: &'static str,
    pub mode: StampMode,
    pub verdict_summary: &'static str,
    pub coverage_report: Option<&'static str>,
    pub log_anchored_at: Timestamp,
    pub quantity_context: Option<&'static str>,
}

/// The payload of a planned event.
#[derive(Debug, PartialEq)]
pub enum PlannedPayload {
    /// The issuance, and the passports that it is derived from.
    Issuance { derived: bool, inputs: Vec<&'static str> },
    CustodyTransfer { from: &'static str, to: &'static str, counterparty_signed: bool },
    SoftwareUpdate {
        component: &'static str,
        version: &'static str,
        unlocked_features: Vec<&'static str>,
    },
    PartReplace { removed: &'static str, added: &'static str, like_for_like: bool },
    ConsumableReplace { removed: &'static str, added: &'static str },
    InspectionStamp(PlannedStamp),
}

/// A planned event.
#[derive(Debug, PartialEq)]
pub struct PlannedEvent {
    pub seq: u64,
    pub occurred_at: Timestamp,
    pub role: &'static str,
    pub actor: &'static str,
    pub payload: PlannedPayload,
    pub trust: TrustMarker,
}

/// A fixture: what its passport is minted from, its events and its profiles.
#[derive(Debug, PartialEq)]
pub struct FixturePlan {
    pub mint: MintOptions,
    pub events: Vec<PlannedEvent>,
    pub profiles: Vec<ProfileRef>,
}

/// A fixed instant.
pub open spec fn is_at(t: Timestamp, secs: i64, text: Text) -> bool {
    t.secs == secs && t.text@ == text
}

/// A fixed instant.
fn at(secs: i64, text: &str) -> (t: Timestamp)
    ensures
        is_at(t, secs, text@),
{
    Timestamp { secs, text: text.to_owned() }
}

/// Whether an event is planned so.
pub open spec fn is_event(
    event: PlannedEvent,
    seq: u64,
    secs: i64,
    text: Text,
    role: Text,
    actor: Text,
    trust: TrustMarker,
) -> bool {
    &&& event.seq == seq
    &&& is_at(event.occurred_at, secs, text)
    &&& event.role@ == role
    &&& event.actor@ == actor
    &&& event.trust == trust
}

/// Whether a profile is bound so.
pub open spec fn is_profile(
    profile: ProfileRef,
    id: Text,
    version: Text,
    secs: i64,
    text: Text,
) -> bool {
    &&& profile.id@ == id
    &&& profile.version@ == version
    &&& profile.effective_from matches Some(t) && is_at(t, secs, text)
}

/// A bound profile.
fn profile(id: &str, version: &str, effective_from: Timestamp) -> (r: ProfileRef)
    ensures
        r.id@ == id@,
        r.version@ == version@,
        r.effective_from == Some(effective_from),
{
    ProfileRef {
        id: id.to_owned(),
        version: version.to_owned(),
        effective_from: Some(effective_from),
    }
}

/// Whether a passport is minted so.
pub open spec fn is_mint(
    mint: MintOptions,
    id: Text,
    type_ref: Text,
    capability: Text,
    eo_id: Text,
    resolver_uri: Text,
    passport_id: Text,
) -> bool {
    &&& mint.id@ == id
    &&& mint.granularity is None
    &&& opt_string(mint.type_ref) == Some(type_ref)
    &&& mint.capability@ == capability
    &&& opt_string(mint.eo_id) == Some(eo_id)
    &&& opt_string(mint.resolver_uri) == Some(resolver_uri)
    &&& opt_string(mint.passport_id) == Some(passport_id)
}

/// Whether the plan is the laptop's.
pub open spec fn is_laptop(plan: FixturePlan) -> bool {
    let events = plan.events@;
    &&& is_mint(
        plan.mint,
        "cpid:urn:iso:std:iso-iec:15459:unidpp:inst:84120099012345"@,
        "urn:iso:std:iso-iec:15459:unidpp:type:lat-7@hw-rev-b"@,
        "S0"@,
        "urn:unidpp:actor:oem-nordwave"@,
        "https://dpp.unidpp.org/r/84120099012345"@,
        "urn:iso:std:iso-iec:15459:unidpp:passport:84120099012345"@,
    )
    &&& plan.mint.valid_from matches Some(t) && is_at(t, 1785748500, "2026-08-03T09:15:00Z"@)
    &&& plan.mint.valid_to matches Some(t) && is_at(t, 2101367700, "2036-08-03T09:15:00Z"@)
    &&& events.len() == 4
    &&& is_event(
        events[0],
        0,
        1785748500,
        "2026-08-03T09:15:00Z"@,
        "issuing authority"@,
        "urn:unidpp:actor:oem-nordwave"@,
        TrustMarker::Attested,
    )
    &&& events[0].payload matches PlannedPayload::Issuance { derived, inputs } && !derived
        && inputs@.len() == 0
    &&& is_event(
        events[1],
        1,
        1787234520,
        "2026-08-20T14:02:00Z"@,
        "custodian"@,
        "urn:unidpp:actor:retailer-kyoto-denshi"@,
        TrustMarker::SelfDeclared,
    )
    &&& events[1].payload matches PlannedPayload::CustodyTransfer { from, to, counterparty_signed }
        && from@ == "urn:unidpp:actor:oem-nordwave"@ && to@ == "urn:unidpp:actor:consumer-anon-1"@
        && counterparty_signed
    &&& is_event(
        events[2],
        2,
        1793845800,
        "2026-11-05T02:30:00Z"@,
        "economic operator"@,
        "urn:unidpp:actor:oem-nordwave"@,
        TrustMarker::SelfDeclared,
    )
    &&& events[2].payload matches PlannedPayload::SoftwareUpdate {
        component,
        version,
        unlocked_features,
    } && component@ == "system-firmware"@ && version@ == "1.07"@ && unlocked_features@.len() == 0
    &&& is_event(
        events[3],
        3,
        1802342640,
        "2027-02-11T10:44:00Z"@,
        "repairer"@,
        "urn:unidpp:actor:repair-shibuya"@,
        TrustMarker::Attested,
    )
    &&& events[3].payload matches PlannedPayload::PartReplace { removed, added, like_for_like }
        && removed@ == "urn:unidpp:passport:sodimm-16g-aa117-0042"@ && added@
        == "urn:unidpp:passport:sodimm-32g-aa119-0007"@ && !like_for_like
    &&& plan.profiles@.len() == 2
    &&& is_profile(
        plan.profiles@[0],
        "urn:unidpp:profile:eu-espr-electronics"@,
        "1.3.0"@,
        1798761600,
        "2027-01-01T00:00:00Z"@,
    )
    &&& is_profile(
        plan.profiles@[1],
        "urn:unidpp:profile:jp-meti-pse"@,
        "2026.2"@,
        1790812800,
        "2026-10-01T00:00:00Z"@,
    )
}

/// The laptop fixture: EU and JP lenses on one neutral core.
pub fn laptop() -> (plan: FixturePlan)
    ensures
        is_laptop(plan),
{
    let mint = MintOptions {
        id: "cpid:urn:iso:std:iso-iec:15459:unidpp:inst:84120099012345".to_owned(),
        granularity: None,
        type_ref: Some("urn:iso:std:iso-iec:15459:unidpp:type:lat-7@hw-rev-b".to_owned()),
        capability: "S0".to_owned(),
        eo_id: Some("urn:unidpp:actor:oem-nordwave".to_owned()),
        resolver_uri: Some("https://dpp.unidpp.org/r/84120099012345".to_owned()),
        passport_id: Some("urn:iso:std:iso-iec:15459:unidpp:passport:84120099012345".to_owned()),
        valid_from: Some(at(1785748500, "2026-08-03T09:15:00Z")),
        valid_to: Some(at(2101367700, "2036-08-03T09:15:00Z")),
    };
    let mut events: Vec<PlannedEvent> = Vec::new();
    events.push(
        PlannedEvent {
            seq: 0,
            occurred_at: at(1785748500, "2026-08-03T09:15:00Z"),
            role: "issuing authority",
            actor: "urn:unidpp:actor:oem-nordwave",
            payload: PlannedPayload::Issuance { derived: false, inputs: Vec::new() },
            trust: TrustMarker::Attested,
        },
    );
    events.push(
        PlannedEvent {
            seq: 1,
            occurred_at: at(1787234520, "2026-08-20T14:02:00Z"),
            role: "custodian",
            actor: "urn:unidpp:actor:retailer-kyoto-denshi",
            payload: PlannedPayload::CustodyTransfer {
                from: "urn:unidpp:actor:oem-nordwave",
                to: "urn:unidpp:actor:consumer-anon-1",
                counterparty_signed: true,
            },
            trust: TrustMarker::SelfDeclared,
        },
    );
    events.push(
        PlannedEvent {
            seq: 2,
            occurred_at: at(1793845800, "2026-11-05T02:30:00Z"),
            role: "economic operator",
            actor: "urn:unidpp:actor:oem-nordwave",
            payload: PlannedPayload::SoftwareUpdate {
                component: "system-firmware",
                version: "1.07",
                unlocked_features: Vec::new(),
            },
            trust: TrustMarker::SelfDeclared,
        },
    );
    events.push(
        PlannedEvent {
            seq: 3,
            occurred_at: at(1802342640, "2027-02-11T10:44:00Z"),
            role: "repairer",
            actor: "urn:unidpp:actor:repair-shibuya",
            payload: PlannedPayload::PartReplace {
                removed: "urn:unidpp:passport:sodimm-16g-aa117-0042",
                added: "urn:unidpp:passport:sodimm-32g-aa119-0007",
                like_for_like: false,
            },
            trust: TrustMarker::Attested,
        },
    );
    let mut profiles: Vec<ProfileRef> = Vec::new();
    profiles.push(
        profile(
            "urn:unidpp:profile:eu-espr-electronics",
            "1.3.0",
            at(1798761600, "2027-01-01T00:00:00Z"),
        ),
    );
    profiles.push(
        profile(
            "urn:unidpp:profile:jp-meti-pse",
            "2026.2",
            at(1790812800, "2026-10-01T00:00:00Z"),
        ),
    );
    FixturePlan { mint, events, profiles }
}

/// Whether the plan is the tyre's.
pub open spec fn is_tyre(plan: FixturePlan) -> bool {
    let events = plan.events@;
    &&& is_mint(
        plan.mint,
        "gtin:4006381333931"@,
        "tyre-205-55-r16"@,
        "S1"@,
        "urn:unidpp:actor:tyre-oem-conti"@,
        "https://dpp.unidpp.org/r/4006381333931"@,
        "urn:unidpp:passport:tyre-4006381333931"@,
    )
    &&& plan.mint.valid_from matches Some(t) && is_at(t, 1777881600, "2026-05-04T08:00:00Z"@)
    &&& plan.mint.valid_to matches Some(t) && is_at(t, 2093500800, "2036-05-04T08:00:00Z"@)
    &&& events.len() == 3
    &&& is_event(
        events[0],
        0,
        1777881600,
        "2026-05-04T08:00:00Z"@,
        "issuing authority"@,
        "urn:unidpp:actor:tyre-oem-conti"@,
        TrustMarker::Attested,
    )
    &&& events[0].payload matches PlannedPayload::Issuance { derived, inputs } && !derived
        && inputs@.len() == 0
    &&& is_event(
        events[1],
        1,
        1781281800,
        "2026-06-12T16:30:00Z"@,
        "repairer"@,
        "urn:unidpp:actor:garage-muc-42"@,
        TrustMarker::Attested,
    )
    &&& events[1].payload matches PlannedPayload::ConsumableReplace { removed, added } && removed@
        == "urn:unidpp:passport:tyre-worn-0091"@ && added@
        == "urn:unidpp:passport:tyre-4006381333931"@
    &&& is_event(
        events[2],
        2,
        1781281860,
        "2026-06-12T16:31:00Z"@,
        "verifier"@,
        "urn:unidpp:actor:verifier-tuv"@,
        TrustMarker::Attested,
    )
    &&& events[2].payload matches PlannedPayload::InspectionStamp(stamp) && is_tyre_stamp(stamp)
    &&& plan.profiles@.len() == 1
    &&& is_profile(
        plan.profiles@[0],
        "urn:unidpp:profile:eu-tyre-label"@,
        "1.0.0"@,
        1780272000,
        "2026-06-01T00:00:00Z"@,
    )
}

/// Whether the stamp is the tyre's.
pub open spec fn is_tyre_stamp(stamp: PlannedStamp) -> bool {
    &&& stamp.attester@ == "urn:unidpp:actor:verifier-tuv"@
    &&& stamp.subject@ == "urn:unidpp:passport:tyre-4006381333931"@
    &&& stamp.state_material@ == "fixture|tyre-state|0"@
    &&& stamp.lens@ == "urn:unidpp:profile:eu-tyre-label"@
    &&& stamp.lens_version@ == "1.0.0"@
    &&& stamp.mode is Snapshot
    &&& stamp.verdict_summary@
        == "conformity: eu-tyre-label@1.0.0 — wear indicator present, DOT week 22/2026, rolling resistance class B"@
    &&& stamp.coverage_report is None
    &&& is_at(stamp.log_anchored_at, 1781281860, "2026-06-12T16:31:00Z"@)
    &&& stamp.quantity_context is None
}

/// The tyre fixture: the consumable loop and an inspection stamp.
pub fn tyre() -> (plan: FixturePlan)
    ensures
        is_tyre(plan),
{
    let mint = MintOptions {
        id: "gtin:4006381333931".to_owned(),
        granularity: None,
        type_ref: Some("tyre-205-55-r16".to_owned()),
        capability: "S1".to_owned(),
        eo_id: Some("urn:unidpp:actor:tyre-oem-conti".to_owned()),
        resolver_uri: Some("https://dpp.unidpp.org/r/4006381333931".to_owned()),
        passport_id: Some("urn:unidpp:passport:tyre-4006381333931".to_owned()),
        valid_from: Some(at(1777881600, "2026-05-04T08:00:00Z")),
        valid_to: Some(at(2093500800, "2036-05-04T08:00:00Z")),
    };
    let mut events: Vec<PlannedEvent> = Vec::new();
    events.push(
        PlannedEvent {
            seq: 0,
            occurred_at: at(1777881600, "2026-05-04T08:00:00Z"),
            role: "issuing authority",
            actor: "urn:unidpp:actor:tyre-oem-conti",
            payload: PlannedPayload::Issuance { derived: false, inputs: Vec::new() },
            trust: TrustMarker::Attested,
        },
    );
    events.push(
        PlannedEvent {
            seq: 1,
            occurred_at: at(1781281800, "2026-06-12T16:30:00Z"),
            role: "repairer",
            actor: "urn:unidpp:actor:garage-muc-42",
            payload: PlannedPayload::ConsumableReplace {
                removed: "urn:unidpp:passport:tyre-worn-0091",
                added: "urn:unidpp:passport:tyre-4006381333931",
            },
            trust: TrustMarker::Attested,
        },
    );
    let stamp = PlannedStamp {
        attester: "urn:unidpp:actor:verifier-tuv",
        subject: "urn:unidpp:passport:tyre-4006381333931",
        state_material: "fixture|tyre-state|0",
        lens: "urn:unidpp:profile:eu-tyre-label",
        lens_version: "1.0.0",
        mode: StampMode::Snapshot,
        verdict_summary: "conformity: eu-tyre-label@1.0.0 — wear indicator present, DOT week 22/2026, rolling resistance class B",
        coverage_report: None,
        log_anchored_at: at(1781281860, "2026-06-12T16:31:00Z"),
        quantity_context: None,
    };
    events.push(
        PlannedEvent {
            seq: 2,
            occurred_at: at(1781281860, "2026-06-12T16:31:00Z"),
            role: "verifier",
            actor: "urn:unidpp:actor:verifier-tuv",
            payload: PlannedPayload::InspectionStamp(stamp),
            trust: TrustMarker::Attested,
        },
    );
    let mut profiles: Vec<ProfileRef> = Vec::new();
    profiles.push(
        profile(
            "urn:unidpp:profile:eu-tyre-label",
            "1.0.0",
            at(1780272000, "2026-06-01T00:00:00Z"),
        ),
    );
    FixturePlan { mint, events, profiles }
}

/// The full seeded fixture set, in stable order.
pub fn all() -> (r: Vec<FixturePlan>)
    ensures
        r@.len() == 2,
        is_laptop(r@[0]),
        is_tyre(r@[1]),
{
    let mut plans: Vec<FixturePlan> = Vec::new();
    plans.push(laptop());
    plans.push(tyre());
    plans
}

/// Whether a plan is in order: its events are numbered from zero, none before
/// the one before it, the first is the issuance of an underived passport by the
/// authority that is its operator, at the instant from which it is valid.
pub open spec fn is_in_order(plan: FixturePlan) -> bool {
    let events = plan.events@;
    &&& events.len() > 0
    &&& forall|i: int| 0 <= i < events.len() ==> (#[trigger] events[i]).seq == i
    &&& forall|i: int, j: int|
        0 <= i <= j < events.len() ==> (#[trigger] events[i]).occurred_at.secs <= (
        #[trigger] events[j]).occurred_at.secs
    &&& events[0].payload matches PlannedPayload::Issuance { derived, inputs } && !derived
        && inputs@.len() == 0
    &&& events[0].role@ == "issuing authority"@
    &&& opt_string(plan.mint.eo_id) == Some(events[0].actor@)
    &&& plan.mint.valid_from matches Some(from) && from.secs == events[0].occurred_at.secs
        && from.text@ == events[0].occurred_at.text@
    &&& plan.mint.valid_to matches Some(to) && (plan.mint.valid_from matches Some(from) && from.secs
        < to.secs)
}

/// The seeded fixtures are the laptop and the tyre, in that order, and both are
/// in order. The laptop has an ISO/IEC 15459 identity and two profiles; the tyre
/// has a GTIN, one profile, and an inspection of itself under that profile, in
/// its version, that is anchored when it happened.
pub proof fn law_fixtures_are_in_order(plans: Vec<FixturePlan>)
    requires
        call_ensures(all, (), plans),
    ensures
        plans@.len() == 2,
        is_in_order(plans@[0]),
        is_in_order(plans@[1]),
        plans@[0].mint.id@ == "cpid:urn:iso:std:iso-iec:15459:unidpp:inst:84120099012345"@,
        plans@[0].profiles@.len() == 2,
        plans@[0].profiles@[0].id@ == "urn:unidpp:profile:eu-espr-electronics"@,
        plans@[0].profiles@[0].version@ == "1.3.0"@,
        plans@[0].profiles@[1].id@ == "urn:unidpp:profile:jp-meti-pse"@,
        plans@[0].profiles@[1].version@ == "2026.2"@,
        plans@[0].mint.capability@ == "S0"@,
        opt_string(plans@[0].mint.passport_id) == Some(
            "urn:iso:std:iso-iec:15459:unidpp:passport:84120099012345"@,
        ),
        opt_string(plans@[0].mint.resolver_uri) == Some("https://dpp.unidpp.org/r/84120099012345"@),
        plans@[0].events@.len() == 4,
        plans@[0].events@[1].payload is CustodyTransfer,
        plans@[0].events@[2].payload is SoftwareUpdate,
        plans@[0].events@[3].payload is PartReplace,
        plans@[1].mint.id@ == "gtin:4006381333931"@,
        plans@[1].profiles@.len() == 1,
        plans@[1].profiles@[0].id@ == "urn:unidpp:profile:eu-tyre-label"@,
        plans@[1].profiles@[0].version@ == "1.0.0"@,
        plans@[1].mint.capability@ == "S1"@,
        opt_string(plans@[1].mint.passport_id) == Some("urn:unidpp:passport:tyre-4006381333931"@),
        opt_string(plans@[1].mint.resolver_uri) == Some("https://dpp.unidpp.org/r/4006381333931"@),
        plans@[1].events@.len() == 3,
        plans@[1].events@[1].payload matches PlannedPayload::ConsumableReplace { removed, added }
            && opt_string(plans@[1].mint.passport_id) == Some(added@) && removed@ != added@,
        ({
            let tyre = plans@[1];
            let event = tyre.events@.last();
            event.payload matches PlannedPayload::InspectionStamp(stamp) && {
                &&& opt_string(tyre.mint.passport_id) == Some(stamp.subject@)
                &&& stamp.attester@ == event.actor@
                &&& stamp.lens@ == tyre.profiles@[0].id@
                &&& stamp.lens_version@ == tyre.profiles@[0].version@
                &&& stamp.log_anchored_at.secs == event.occurred_at.secs
                &&& stamp.log_anchored_at.text@ == event.occurred_at.text@
            }
        }),
{
    reveal_strlit("urn:unidpp:passport:tyre-worn-0091");
    reveal_strlit("urn:unidpp:passport:tyre-4006381333931");
    assert("urn:unidpp:passport:tyre-worn-0091"@.len()
        != "urn:unidpp:passport:tyre-4006381333931"@.len());
}

} // verus!
