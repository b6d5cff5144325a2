//! The neutral core as the gateway reads it: a passport document, its event
//! log and the vocabulary of both, held as plain values.
//!
//! The service fills these from the core's own types; what only the core can
//! compute (the printed form of an identifier or an instant, the head of the
//! hash chain, the replayed status) arrives here already computed.
use vstd::prelude::*;

use crate::text::Text;

verus! {

/// An instant: seconds since the Unix epoch, and the core's printed form.
#[derive(Debug, PartialEq)]
pub struct Timestamp {
    pub secs: i64,
    /// The printed form, `2026-06-12T16:31:00Z`.
    pub text: String,
}

impl Clone for Timestamp {
    fn clone(&self) -> (r: Self)
        ensures
            r == *self,
    {
        Timestamp { secs: self.secs, text: self.text.clone() }
    }
}

/// What identity a passport is about: a whole model, a batch or one item.
#[derive(Debug, Clone, Copy, PartialEq, Eq, Structural)]
pub enum Granularity {
    Model,
    Batch,
    Item,
}

impl Granularity {
    /// The core token of the granularity.
    pub open spec fn token(self) -> Text {
        match self {
            Granularity::Model => "model"@,
            Granularity::Batch => "batch"@,
            Granularity::Item => "item"@,
        }
    }

    /// The core token of the granularity.
    pub fn as_str(self) -> (r: &'static str)
        ensures
            r@ == self.token(),
    {
        match self {
            Granularity::Model => "model",
            Granularity::Batch => "batch",
            Granularity::Item => "item",
        }
    }
}

/// The scheme of a product identifier.
#[derive(Debug, PartialEq)]
pub enum IdScheme {
    Gtin,
    Sgtin,
    Gsrn,
    Gln,
    Cpid,
    /// Any other scheme, by its core token.
    Other(String),
}

/// A product identity.
#[derive(Debug, PartialEq)]
pub struct ProductIdentifier {
    pub scheme: IdScheme,
    pub key: String,
    pub lot: Option<String>,
    pub serial: Option<String>,
    pub granularity: Granularity,
    /// The core display form, `01+4006381333931+10+LOT9`.
    pub display: String,
}

impl ProductIdentifier {
    /// Whether the identity is keyed by a GTIN.
    pub open spec fn gs1_keyed(&self) -> bool {
        self.scheme is Gtin || self.scheme is Sgtin
    }

    /// Whether the identity is keyed by a GTIN.
    pub fn is_gs1_keyed(&self) -> (r: bool)
        ensures
            r == self.gs1_keyed(),
    {
        match self.scheme {
            IdScheme::Gtin => true,
            IdScheme::Sgtin => true,
            _ => false,
        }
    }
}

/// How far a record is vouched for, weakest first.
#[derive(Debug, Clone, Copy, PartialEq, Eq, Structural)]
pub enum TrustMarker {
    Unsigned,
    SelfDeclared,
    Attested,
    MultiSigned,
    LogAnchored,
}

impl TrustMarker {
    /// The place of the marker in the order, weakest first.
    pub open spec fn rank(self) -> int {
        match self {
            TrustMarker::Unsigned => 0,
            TrustMarker::SelfDeclared => 1,
            TrustMarker::Attested => 2,
            TrustMarker::MultiSigned => 3,
            TrustMarker::LogAnchored => 4,
        }
    }

    /// The core token of the marker.
    pub open spec fn token(self) -> Text {
        match self {
            TrustMarker::Unsigned => "unsigned"@,
            TrustMarker::SelfDeclared => "self-declared"@,
            TrustMarker::Attested => "attested"@,
            TrustMarker::MultiSigned => "multi-signed"@,
            TrustMarker::LogAnchored => "log-anchored"@,
        }
    }

    /// Whether the marker is at least as strong as the other.
    pub fn at_least(self, other: TrustMarker) -> (r: bool)
        ensures
            r == (self.rank() >= other.rank()),
    {
        self.place() >= other.place()
    }

    fn place(self) -> (r: u8)
        ensures
            r == self.rank(),
    {
        match self {
            TrustMarker::Unsigned => 0,
            TrustMarker::SelfDeclared => 1,
            TrustMarker::Attested => 2,
            TrustMarker::MultiSigned => 3,
            TrustMarker::LogAnchored => 4,
        }
    }

    /// The core token of the marker.
    pub fn as_str(self) -> (r: &'static str)
        ensures
            r@ == self.token(),
    {
        match self {
            TrustMarker::Unsigned => "unsigned",
            TrustMarker::SelfDeclared => "self-declared",
            TrustMarker::Attested => "attested",
            TrustMarker::MultiSigned => "multi-signed",
            TrustMarker::LogAnchored => "log-anchored",
        }
    }
}

/// The replayed status of a passport.
#[derive(Debug, PartialEq)]
pub enum Status {
    Issued,
    /// Any other status, by its core token.
    Other(String),
}

/// The replayed safety flag of a passport.
#[derive(Debug, Clone, Copy, PartialEq, Eq, Structural)]
pub enum SafetyFlag {
    Clear,
    /// A recall or another safety measure stands.
    Raised,
}

/// An inspection stamp: one attester's finding under one lens.
#[derive(Debug, PartialEq)]
pub struct Stamp {
    pub attester: String,
    pub lens: String,
    pub lens_version: String,
    pub mode: String,
    pub verdict_summary: Option<String>,
    /// The commitment to the inspected state, in hexadecimal.
    pub subject_state_commitment: String,
    pub log_anchored_at: Timestamp,
}

impl Stamp {
    /// The stamp's summary, or the words that stand for a missing one.
    pub open spec fn summary(&self) -> Text {
        match self.verdict_summary {
            Some(s) => s@,
            None => "inspection stamp"@,
        }
    }

    /// The stamp's summary, or the words that stand for a missing one.
    pub fn summary_text(&self) -> (r: &str)
        ensures
            r@ == self.summary(),
    {
        match &self.verdict_summary {
            Some(s) => s.as_str(),
            None => "inspection stamp",
        }
    }
}

/// What an event records, as far as the renders read it.
#[derive(Debug, PartialEq)]
pub enum EventPayload {
    InspectionStamp { stamp: Stamp },
    Other,
}

/// One sealed event of a passport's log.
#[derive(Debug, PartialEq)]
pub struct SealedEvent {
    pub seq: u64,
    pub occurred_at: Timestamp,
    pub trust: TrustMarker,
    pub payload: EventPayload,
    /// The signed payload; absent where the event has no canonical form.
    pub canonical_body: Option<Vec<u8>>,
}

/// A passport's event log with what its replay yields.
#[derive(Debug, PartialEq)]
pub struct EventLog {
    pub sealed: Vec<SealedEvent>,
    pub current_status: Status,
    pub safety_flag: SafetyFlag,
    pub last_event_at: Option<Timestamp>,
    /// The head of the hash chain, in hexadecimal.
    pub head: Option<String>,
    /// The number of events in the log.
    pub height: u64,
}

/// A recorded event signature.
#[derive(Debug, PartialEq)]
pub struct EventSignature {
    pub seq: u64,
    pub suite: String,
    pub key_id: String,
    /// The signature; absent where its recorded text is not hexadecimal.
    pub signature: Option<Vec<u8>>,
}

/// The window in which a document is valid.
#[derive(Debug, PartialEq)]
pub struct Validity {
    pub from: Timestamp,
    pub to: Option<Timestamp>,
}

/// A passport document.
#[derive(Debug, PartialEq)]
pub struct Passport {
    pub passport_id: String,
    pub product_id: ProductIdentifier,
    pub eo_id: String,
    pub type_ref: Option<String>,
    /// The code of the capability class.
    pub capability: String,
    pub resolver_uri: String,
    pub created_at: Timestamp,
    pub validity: Validity,
    pub log: EventLog,
    pub event_signatures: Vec<EventSignature>,
}

/// What a passport is minted from.
#[derive(Debug, PartialEq)]
pub struct MintOptions {
    pub id: String,
    pub granularity: Option<Granularity>,
    pub type_ref: Option<String>,
    pub capability: String,
    pub eo_id: Option<String>,
    pub resolver_uri: Option<String>,
    pub passport_id: Option<String>,
    pub valid_from: Option<Timestamp>,
    pub valid_to: Option<Timestamp>,
}

/// The trust markers are a ladder: unsigned, self-declared, attested,
/// multi-signed, log-anchored, each above the one before it.
pub proof fn law_trust_ladder()
    ensures
        TrustMarker::Unsigned.rank() < TrustMarker::SelfDeclared.rank(),
        TrustMarker::SelfDeclared.rank() < TrustMarker::Attested.rank(),
        TrustMarker::Attested.rank() < TrustMarker::MultiSigned.rank(),
        TrustMarker::MultiSigned.rank() < TrustMarker::LogAnchored.rank(),
        TrustMarker::Unsigned.token() == "unsigned"@,
        TrustMarker::SelfDeclared.token() == "self-declared"@,
        TrustMarker::Attested.token() == "attested"@,
        TrustMarker::MultiSigned.token() == "multi-signed"@,
        TrustMarker::LogAnchored.token() == "log-anchored"@,
        Granularity::Model.token() == "model"@,
        Granularity::Batch.token() == "batch"@,
        Granularity::Item.token() == "item"@,
{
}

} // verus!
