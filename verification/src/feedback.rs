//! The consumer report channel: a stated report path on the public edge.
//!
//! A consumer who finds the goods or the advertising not matching the page
//! files a typed report; the report is journaled, sequenced and acknowledged
//! with a receipt that names its sequence and instant. It is information
//! about an identifier from a weakly-authenticated party, never a passport
//! event.
//!
//! Admission control is pluggable ([`AdmissionControl`]); whatever refuses,
//! refuses with a stated reason.
use vstd::prelude::*;

use crate::clock::Clock;
use crate::json::{
    compact_json, compact_text, is_flat, lemma_array_view, parse_json, plain_members, put, put_text,
    read_json, reads_as, reserved_name, text_or_null, views, Json, JsonView,
};
use crate::text::{
    blank, chars_of, decimal, decimal_text, is_blank, is_space, lemma_opens_visibly,
    lemma_trimmed_already, lemma_trimmed_end, opt_string, same, starts_with, strip_prefix, trim, trimmed, Text,
};
use crate::untp::text_or;
use crate::window::{
    come_in_order, has_room, law_admitted_while_few_are_recent, live, recent, stepped,
    windows_after, SlidingWindows, MINUTE,
};

verus! {

/// What a report is about: the goods or the advertising not matching the
/// page, or a stated other.
#[derive(Debug, PartialEq)]
pub enum FeedbackCategory {
    GoodsMismatch,
    AdvertisingMismatch,
    Other(String),
}

/// What a category says.
pub enum CategoryView {
    GoodsMismatch,
    AdvertisingMismatch,
    Other(Text),
}

impl CategoryView {
    /// The category that a text names: one of the two mismatches, or a stated
    /// other, with or without the `other:` before it.
    pub open spec fn named(s: Text) -> CategoryView {
        let name = trimmed(s);
        if name == "goods-mismatch"@ {
            CategoryView::GoodsMismatch
        } else if name == "advertising-mismatch"@ {
            CategoryView::AdvertisingMismatch
        } else if starts_with(name, "other:"@) {
            CategoryView::Other(name.skip("other:"@.len() as int))
        } else {
            CategoryView::Other(name)
        }
    }

    /// The wire token.
    pub open spec fn token(self) -> Text {
        match self {
            CategoryView::GoodsMismatch => "goods-mismatch"@,
            CategoryView::AdvertisingMismatch => "advertising-mismatch"@,
            CategoryView::Other(free) => "other:"@ + free,
        }
    }
}

impl Clone for FeedbackCategory {
    fn clone(&self) -> (r: Self)
        ensures
            r == *self,
    {
        match self {
            FeedbackCategory::GoodsMismatch => FeedbackCategory::GoodsMismatch,
            FeedbackCategory::AdvertisingMismatch => FeedbackCategory::AdvertisingMismatch,
            FeedbackCategory::Other(free) => FeedbackCategory::Other(free.clone()),
        }
    }
}

impl FeedbackCategory {
    /// What the category says.
    pub open spec fn view(&self) -> CategoryView {
        match self {
            FeedbackCategory::GoodsMismatch => CategoryView::GoodsMismatch,
            FeedbackCategory::AdvertisingMismatch => CategoryView::AdvertisingMismatch,
            FeedbackCategory::Other(free) => CategoryView::Other(free@),
        }
    }

    /// The category that a text names.
    pub fn parse(s: &str) -> (r: FeedbackCategory)
        ensures
            r.view() == CategoryView::named(s@),
    {
        let name = trim(s);
        if same(name, "goods-mismatch") {
            FeedbackCategory::GoodsMismatch
        } else if same(name, "advertising-mismatch") {
            FeedbackCategory::AdvertisingMismatch
        } else {
            match strip_prefix(name, "other:") {
                Some(stated) => FeedbackCategory::Other(stated),
                None => FeedbackCategory::Other(name.to_owned()),
            }
        }
    }

    /// The wire token.
    pub fn as_str(&self) -> (r: String)
        ensures
            r@ == self.view().token(),
    {
        match self {
            FeedbackCategory::GoodsMismatch => "goods-mismatch".to_owned(),
            FeedbackCategory::AdvertisingMismatch => "advertising-mismatch".to_owned(),
            FeedbackCategory::Other(free) => "other:".to_owned().concat(free.as_str()),
        }
    }
}

/// One consumer report: what it is about, its category, an optional contact
/// and the details.
#[derive(Debug, PartialEq)]
pub struct FeedbackReport {
    pub identifier: String,
    pub category: FeedbackCategory,
    pub contact: Option<String>,
    pub details: String,
}

/// What a report says.
pub struct ReportView {
    pub identifier: Text,
    pub category: CategoryView,
    pub contact: Option<Text>,
    pub details: Text,
}

impl Clone for FeedbackReport {
    fn clone(&self) -> (r: Self)
        ensures
            r == *self,
    {
        FeedbackReport {
            identifier: self.identifier.clone(),
            category: self.category.clone(),
            contact: match &self.contact {
                Some(contact) => Some(contact.clone()),
                None => None,
            },
            details: self.details.clone(),
        }
    }
}

impl FeedbackReport {
    /// What the report says.
    pub open spec fn view(&self) -> ReportView {
        ReportView {
            identifier: self.identifier@,
            category: self.category.view(),
            contact: opt_string(self.contact),
            details: self.details@,
        }
    }
}

/// A journaled report with its sequence and instant.
#[derive(Debug, PartialEq)]
pub struct FeedbackRecord {
    pub seq: u64,
    pub recorded_at: String,
    pub report: FeedbackReport,
}

/// What a record says.
pub struct RecordView {
    pub seq: u64,
    pub recorded_at: Text,
    pub report: ReportView,
}

impl RecordView {
    /// The wire form. The public form withholds the contact, and says so.
    pub open spec fn dict(self, include_contact: bool) -> JsonView {
        JsonView::Object(
            map![
                "seq"@ => JsonView::Unsigned(self.seq),
                "recorded_at"@ => JsonView::Text(self.recorded_at),
                "identifier"@ => JsonView::Text(self.report.identifier),
                "category"@ => JsonView::Text(self.report.category.token()),
                "details"@ => JsonView::Text(self.report.details),
                "contact"@ => if include_contact {
                    match self.report.contact {
                        Some(contact) => JsonView::Text(contact),
                        None => JsonView::Null,
                    }
                } else {
                    JsonView::Text("withheld"@)
                },
            ],
        )
    }
}

/// The record that a journal document denotes, or why it denotes none.
pub open spec fn record_of(v: JsonView) -> Result<RecordView, Text> {
    if !(v is Object) {
        Err("feedback record must be an object"@)
    } else {
        match (v.member("seq"@), v.text_at("recorded_at"@), v.text_at("identifier"@)) {
            (Some(JsonView::Unsigned(seq)), Some(recorded_at), Some(identifier)) => Ok(
                RecordView {
                    seq,
                    recorded_at,
                    report: ReportView {
                        identifier,
                        category: CategoryView::named(
                            text_or(v.text_at("category"@), Seq::empty()),
                        ),
                        contact: match v.text_at("contact"@) {
                            Some(contact) => if contact.len() > 0 {
                                Some(contact)
                            } else {
                                None
                            },
                            None => None,
                        },
                        details: text_or(v.text_at("details"@), Seq::empty()),
                    },
                },
            ),
            (Some(JsonView::Unsigned(_)), Some(_), None) => Err("missing `identifier`"@),
            (Some(JsonView::Unsigned(_)), None, _) => Err("missing `recorded_at`"@),
            _ => Err("missing `seq`"@),
        }
    }
}

impl Clone for FeedbackRecord {
    fn clone(&self) -> (r: Self)
        ensures
            r == *self,
    {
        FeedbackRecord {
            seq: self.seq,
            recorded_at: self.recorded_at.clone(),
            report: self.report.clone(),
        }
    }
}

impl FeedbackRecord {
    /// What the record says.
    pub open spec fn view(&self) -> RecordView {
        RecordView {
            seq: self.seq,
            recorded_at: self.recorded_at@,
            report: self.report.view(),
        }
    }

    /// The wire form, with the contact or with a word on its omission.
    pub fn to_json(&self, include_contact: bool) -> (j: Json)
        ensures
            j.view() == self.view().dict(include_contact),
            j.plain(),
    {
        let mut members: Vec<(String, Json)> = Vec::new();
        put(&mut members, "seq", Json::Unsigned(self.seq));
        put_text(&mut members, "recorded_at", self.recorded_at.as_str());
        put_text(&mut members, "identifier", self.report.identifier.as_str());
        put_text(&mut members, "category", self.report.category.as_str().as_str());
        put_text(&mut members, "details", self.report.details.as_str());
        if include_contact {
            put(&mut members, "contact", text_or_null(&self.report.contact));
        } else {
            put_text(&mut members, "contact", "withheld");
        }
        assert(plain_members(members@));
        Json::Object(members)
    }

    /// The record that a journal document denotes.
    pub fn from_json(v: &Json) -> (r: Result<FeedbackRecord, String>)
        ensures
            match r {
                Ok(record) => record_of(v.view()) == Ok::<RecordView, Text>(record.view()),
                Err(e) => record_of(v.view()) == Err::<RecordView, Text>(e@),
            },
    {
        if !v.is_object() {
            return Err("feedback record must be an object".to_owned());
        }
        let number = match v.get("seq") {
            Some(n) => n.as_u64(),
            None => None,
        };
        let seq: u64 = match number {
            Some(seq) => seq,
            None => {
                return Err("missing `seq`".to_owned());
            },
        };
        let recorded_at = match v.str_at("recorded_at") {
            Some(s) => s,
            None => {
                return Err("missing `recorded_at`".to_owned());
            },
        };
        let identifier = match v.str_at("identifier") {
            Some(s) => s,
            None => {
                return Err("missing `identifier`".to_owned());
            },
        };
        proof {
            reveal_strlit("");
            assert(""@ =~= Seq::empty());
        }
        let category = match v.str_at("category") {
            Some(s) => s,
            None => "",
        };
        let details = match v.str_at("details") {
            Some(s) => s,
            None => "",
        };
        let contact = match v.str_at("contact") {
            Some(s) => if s.is_empty() {
                None
            } else {
                Some(s.to_owned())
            },
            None => None,
        };
        Ok(
            FeedbackRecord {
                seq,
                recorded_at: recorded_at.to_owned(),
                report: FeedbackReport {
                    identifier: identifier.to_owned(),
                    category: FeedbackCategory::parse(category),
                    contact,
                    details: details.to_owned(),
                },
            },
        )
    }
}

/// The journal line of a record: its wire form with the contact, in compact
/// text. Read back, it denotes that document.
pub fn journal_line(record: &FeedbackRecord) -> (line: String)
    ensures
        line@ == compact_json(record.view().dict(true)),
        !line@.contains('\n'),
        is_journal_line(line@, record.view()),
{
    let j = record.to_json(true);
    proof {
        lemma_record_names();
        reveal_strlit("$serde_json::private::RawValue");
        assert(reserved_name().len() == 30);
    }
    assert(is_flat(j.view()));
    let line = compact_text(&j);
    proof {
        lemma_opens_visibly(line@);
    }
    line
}

/// Whether the text is a journal line of the record.
pub open spec fn is_journal_line(line: Text, record: RecordView) -> bool {
    !is_blank(line) && reads_as(line, record.dict(true))
}

// ---------------------------------------------------------------------------
// The store
// ---------------------------------------------------------------------------

/// What a journal line reads as: nothing where it is blank, a record, or a
/// complaint.
pub open spec fn line_reading(line: Text) -> Option<Result<RecordView, Text>> {
    if is_blank(line) {
        None
    } else {
        match read_json(line) {
            Ok(v) => Some(record_of(v)),
            Err(e) => Some(Err(e)),
        }
    }
}

/// The records that journal lines replay, in their order.
pub open spec fn replayed(lines: Seq<String>) -> Seq<RecordView>
    decreases lines.len(),
{
    if lines.len() == 0 {
        Seq::empty()
    } else {
        let before = replayed(lines.drop_last());
        match line_reading(lines.last()@) {
            Some(Ok(record)) => before.push(record),
            _ => before,
        }
    }
}

/// The lines that could not be replayed: each with its number, counted from
/// one, and the complaint.
pub open spec fn journal_faults(lines: Seq<String>) -> Seq<(nat, Text)>
    decreases lines.len(),
{
    if lines.len() == 0 {
        Seq::empty()
    } else {
        let before = journal_faults(lines.drop_last());
        match line_reading(lines.last()@) {
            Some(Err(e)) => before.push((lines.len(), e)),
            _ => before,
        }
    }
}

/// A journal line that could not be replayed.
#[derive(Debug, PartialEq)]
pub struct JournalFault {
    /// The line's number, counted from one.
    pub line: usize,
    pub reason: String,
}

/// What the records of a list say.
pub open spec fn record_views(records: Seq<FeedbackRecord>) -> Seq<RecordView> {
    records.map_values(|r: FeedbackRecord| r.view())
}

/// The line and the complaint of each fault.
pub open spec fn fault_views(faults: Seq<JournalFault>) -> Seq<(nat, Text)> {
    faults.map_values(|f: JournalFault| (f.line as nat, f.reason@))
}

/// The longest details a report may have.
pub const DETAILS_LIMIT: usize = 500;

/// Why a report is refused, where it is.
pub open spec fn refusal_of(report: ReportView) -> Option<Text> {
    if is_blank(report.identifier) {
        Some("`identifier` is required — a report is about something"@)
    } else if is_blank(report.details) {
        Some("`details` is required — a report states what did not match"@)
    } else if report.details.len() > DETAILS_LIMIT {
        Some("`details` exceeds 500 characters"@)
    } else {
        None
    }
}

/// Whether submitting a report leaves those records: a refused one changes
/// nothing, any other is recorded behind them under the next number, which is
/// never too large to be one.
pub open spec fn is_submission(
    before: Seq<RecordView>,
    report: ReportView,
    now: Text,
    after: Seq<RecordView>,
) -> bool {
    if refusal_of(report) is Some {
        after == before
    } else {
        &&& before.len() < u64::MAX
        &&& after == before.push(
            RecordView { seq: (before.len() + 1) as u64, recorded_at: now, report },
        )
    }
}

/// The reports received, in the order of their sequence.
pub struct FeedbackStore {
    pub records: Vec<FeedbackRecord>,
}

impl FeedbackStore {
    /// What the records say.
    pub open spec fn view(&self) -> Seq<RecordView> {
        record_views(self.records@)
    }

    /// Replays a journal, given its lines. A line that cannot be replayed (a
    /// torn final one, say) is skipped and reported.
    pub fn open(journal: &Vec<String>) -> (r: (FeedbackStore, Vec<JournalFault>))
        ensures
            r.0.view() == replayed(journal@),
            fault_views(r.1@) == journal_faults(journal@),
    {
        let mut records: Vec<FeedbackRecord> = Vec::new();
        let mut faults: Vec<JournalFault> = Vec::new();
        let n: usize = journal.len();
        let mut i: usize = 0;
        assert(journal@.take(0) =~= Seq::empty());
        assert(record_views(records@) =~= Seq::empty());
        assert(fault_views(faults@) =~= Seq::empty());
        while i < n
            invariant
                i <= n == journal@.len(),
                record_views(records@) == replayed(journal@.take(i as int)),
                fault_views(faults@) == journal_faults(journal@.take(i as int)),
            decreases n - i,
        {
            let line = journal[i].as_str();
            let ghost records_before = records@;
            let ghost faults_before = faults@;
            assert(journal@.take(i + 1).drop_last() =~= journal@.take(i as int));
            if !blank(line) {
                let read = match parse_json(line) {
                    Ok(v) => FeedbackRecord::from_json(&v),
                    Err(e) => Err(e),
                };
                match read {
                    Ok(record) => {
                        records.push(record);
                        assert(record_views(records@) =~= record_views(records_before).push(
                            record.view(),
                        ));
                    },
                    Err(e) => {
                        let fault = JournalFault { line: i + 1, reason: e };
                        faults.push(fault);
                        assert(fault_views(faults@) =~= fault_views(faults_before).push(
                            ((i + 1) as nat, e@),
                        ));
                    },
                }
            }
            i = i + 1;
        }
        assert(journal@.take(n as int) =~= journal@);
        (FeedbackStore { records }, faults)
    }

    /// Validates and records a report; the receipt is the record.
    pub fn submit(&mut self, report: FeedbackReport, now: &str) -> (r: Result<
        FeedbackRecord,
        String,
    >)
        ensures
            match refusal_of(report.view()) {
                Some(reason) => r matches Err(e) && e@ == reason && final(self).records@ == old(
                    self,
                ).records@,
                None => r matches Ok(record) && record.seq == old(self).records@.len() + 1
                    && record.recorded_at@ == now@ && record.report.view() == report.view()
                    && final(self).records@ == old(self).records@.push(record),
            },
            is_submission(old(self).view(), report.view(), now@, final(self).view()),
    {
        if blank(report.identifier.as_str()) {
            return Err("`identifier` is required — a report is about something".to_owned());
        }
        if blank(report.details.as_str()) {
            return Err("`details` is required — a report states what did not match".to_owned());
        }
        if chars_of(report.details.as_str()).len() > DETAILS_LIMIT {
            return Err("`details` exceeds 500 characters".to_owned());
        }
        self.records.push(FeedbackRecord { seq: 0, recorded_at: now.to_owned(), report });
        // The number of a record is its place in the list, so that it fits.
        let count: usize = self.records.len();
        self.records[count - 1].seq = count as u64;
        let record = self.records[count - 1].clone();
        assert(self.records@ =~= old(self).records@.push(record));
        assert(self.view() =~= old(self).view().push(record.view()));
        Ok(record)
    }

    /// The public citation form: by sequence, contact withheld.
    pub fn get(&self, seq: u64) -> (r: Option<Json>)
        ensures
            match r {
                Some(j) => 1 <= seq <= self.records@.len() && j.view() == self.view()[seq
                    - 1].dict(false),
                None => seq == 0 || seq > self.records@.len(),
            },
    {
        let n: usize = self.records.len();
        if seq == 0 || seq > n as u64 {
            None
        } else {
            Some(self.records[(seq - 1) as usize].to_json(false))
        }
    }

    /// The admin listing: contacts included, newest first.
    pub fn list_json(&self, limit: usize, offset: usize) -> (j: Json)
        ensures
            j.view() == listing(self.view(), limit as nat, offset as nat),
    {
        broadcast use lemma_array_view;

        let n: usize = self.records.len();
        let start: usize = if offset < n {
            n - offset
        } else {
            0
        };
        let count: usize = if start < limit {
            start
        } else {
            limit
        };
        let mut items: Vec<Json> = Vec::new();
        let mut i: usize = 0;
        while i < count
            invariant
                i <= count <= start <= n == self.records@.len(),
                items@.len() == i,
                forall|k: int|
                    0 <= k < i ==> (#[trigger] items@[k]).view() == self.view()[start - 1
                        - k].dict(true),
            decreases count - i,
        {
            items.push(self.records[start - 1 - i].to_json(true));
            i = i + 1;
        }
        assert(views(items@) =~= listed_records(self.view(), limit as nat, offset as nat));
        let mut members: Vec<(String, Json)> = Vec::new();
        put(&mut members, "total", Json::Unsigned(n as u64));
        put(&mut members, "offset", Json::Unsigned(offset as u64));
        put(&mut members, "records", Json::Array(items));
        Json::Object(members)
    }
}

/// The records of a page of the listing: newest first, from the offset on, at
/// most as many as the limit.
pub open spec fn listed_records(records: Seq<RecordView>, limit: nat, offset: nat) -> Seq<
    JsonView,
> {
    let remaining = if offset < records.len() {
        (records.len() - offset) as nat
    } else {
        0
    };
    Seq::new(
        if remaining < limit {
            remaining
        } else {
            limit
        },
        |i: int| records[records.len() - 1 - offset - i].dict(true),
    )
}

/// The admin listing.
pub open spec fn listing(records: Seq<RecordView>, limit: nat, offset: nat) -> JsonView {
    JsonView::Object(
        map![
            "total"@ => JsonView::Unsigned(records.len() as u64),
            "offset"@ => JsonView::Unsigned(offset as u64),
            "records"@ => JsonView::Array(listed_records(records, limit, offset)),
        ],
    )
}

// ---------------------------------------------------------------------------
// Admission
// ---------------------------------------------------------------------------

/// The control that a deployment puts in front of the report path. A refusal
/// states its reason.
///
/// The spec function says which answers a control may give and what becomes of
/// it. A control in plain Rust does not state it: it is then some relation, of
/// which nothing is known.
pub trait AdmissionControl: Send + Sync + Sized {
    /// Whether the control, as it was, may answer the report so and be left
    /// as it then is.
    open spec fn answers(
        before: Self,
        report: ReportView,
        after: Self,
        r: Result<(), String>,
    ) -> bool {
        arbitrary::<spec_fn(Self, ReportView, Self, Result<(), String>) -> bool>()(
            before,
            report,
            after,
            r,
        )
    }

    /// Admits the report, or states why not.
    fn admit_report(&mut self, report: &FeedbackReport) -> (r: Result<(), String>)
        ensures
            Self::answers(*old(self), report.view(), *final(self), r),
    ;
}

/// The development default: everything stated is admitted.
pub struct Permissive;

impl AdmissionControl for Permissive {
    open spec fn answers(
        before: Self,
        report: ReportView,
        after: Self,
        r: Result<(), String>,
    ) -> bool {
        r is Ok
    }

    fn admit_report(&mut self, report: &FeedbackReport) -> (r: Result<(), String>) {
        Ok(())
    }
}

/// A sliding window for each identifier: at most so many reports of it within
/// a minute.
pub struct RateLimited {
    limit: usize,
    windows: SlidingWindows,
    clock: Clock,
}

/// The refusal of a rate window.
pub open spec fn rate_refusal(limit: usize) -> Text {
    "rate limit: at most "@ + decimal(limit as nat)
        + " report(s) per identifier per minute — refused, retry after the window"@
}

impl RateLimited {
    /// How many reports of an identifier the window admits.
    pub closed spec fn limit(&self) -> usize {
        self.limit
    }

    /// The windows by identifier.
    pub closed spec fn windows(&self) -> SlidingWindows {
        self.windows
    }

    /// The latest reading of the clock; zero before the first.
    pub closed spec fn read_at(&self) -> u128 {
        self.clock.latest()
    }

    /// At most `limit` reports of an identifier within a minute.
    pub fn per_minute(limit: usize) -> (r: RateLimited)
        ensures
            r.limit() == limit,
            r.read_at() == 0,
            r.windows().view() == Map::<Text, Seq<u128>>::empty(),
    {
        RateLimited { limit, windows: SlidingWindows::new(), clock: Clock::start() }
    }

    /// Whether a report at that instant is answered so, and leaves that gate.
    pub open spec fn admits_at(
        before: RateLimited,
        identifier: Text,
        now: u128,
        after: RateLimited,
        r: Result<(), String>,
    ) -> bool {
        let window = before.windows().window(identifier);
        &&& after.limit() == before.limit()
        &&& after.windows().view() == before.windows().view().insert(
            identifier,
            stepped(window, Some(before.limit()), now),
        )
        &&& if has_room(live(window, now), Some(before.limit())) {
            r is Ok
        } else {
            r matches Err(e) && e@ == rate_refusal(before.limit())
        }
    }

    /// Admits a report at an instant, while its identifier's window has room.
    pub fn admit_at(&mut self, report: &FeedbackReport, now: u128) -> (r: Result<(), String>)
        ensures
            RateLimited::admits_at(*old(self), report.identifier@, now, *final(self), r),
            final(self).read_at() == old(self).read_at(),
    {
        if self.windows.admit_at(report.identifier.as_str(), Some(self.limit), now) {
            Ok(())
        } else {
            Err(
                "rate limit: at most ".to_owned().concat(
                    decimal_text(self.limit as u64).as_str(),
                ).concat(
                    " report(s) per identifier per minute — refused, retry after the window",
                ),
            )
        }
    }
}

impl AdmissionControl for RateLimited {
    open spec fn answers(
        before: Self,
        report: ReportView,
        after: Self,
        r: Result<(), String>,
    ) -> bool {
        &&& after.read_at() >= before.read_at()
        &&& RateLimited::admits_at(before, report.identifier, after.read_at(), after, r)
    }

    /// Admits a report at the instant that the clock now reads, which is not
    /// before any that it read.
    fn admit_report(&mut self, report: &FeedbackReport) -> (r: Result<(), String>) {
        let now: u128 = self.clock.now();
        self.admit_at(report, now)
    }
}

/// The control that a deployment's configuration selects.
pub enum Admission {
    Permissive(Permissive),
    RateLimited(RateLimited),
}

impl Admission {
    /// A rate window of so many reports of an identifier within a minute; none
    /// where the number is zero.
    pub fn per_minute(limit: usize) -> (r: Admission)
        ensures
            match r {
                Admission::Permissive(_) => limit == 0,
                Admission::RateLimited(control) => limit > 0 && control.limit() == limit
                    && control.windows().view() == Map::<Text, Seq<u128>>::empty()
                    && control.read_at() == 0,
            },
    {
        if limit > 0 {
            Admission::RateLimited(RateLimited::per_minute(limit))
        } else {
            Admission::Permissive(Permissive)
        }
    }
}

impl AdmissionControl for Admission {
    open spec fn answers(
        before: Self,
        report: ReportView,
        after: Self,
        r: Result<(), String>,
    ) -> bool {
        match (before, after) {
            (Admission::Permissive(a), Admission::Permissive(b)) => Permissive::answers(
                a,
                report,
                b,
                r,
            ),
            (Admission::RateLimited(a), Admission::RateLimited(b)) => RateLimited::answers(
                a,
                report,
                b,
                r,
            ),
            _ => false,
        }
    }

    fn admit_report(&mut self, report: &FeedbackReport) -> (r: Result<(), String>) {
        match self {
            Admission::Permissive(control) => control.admit_report(report),
            Admission::RateLimited(control) => control.admit_report(report),
        }
    }
}

// ---------------------------------------------------------------------------
// Laws
// ---------------------------------------------------------------------------

/// The member names of a record, told apart.
proof fn lemma_record_names()
    ensures
        "seq"@.len() == 3,
        "recorded_at"@.len() == 11,
        "identifier"@.len() == 10,
        "category"@.len() == 8,
        "details"@.len() == 7 && "details"@[0] == 'd',
        "contact"@.len() == 7 && "contact"@[0] == 'c',
{
    reveal_strlit("seq");
    reveal_strlit("recorded_at");
    reveal_strlit("identifier");
    reveal_strlit("category");
    reveal_strlit("details");
    reveal_strlit("contact");
}

/// The public form says that the contact is withheld, and tells nothing of
/// it: reports that differ in their contact alone have one public form.
pub proof fn law_public_form_withholds_contact(a: RecordView, b: RecordView)
    requires
        a.seq == b.seq,
        a.recorded_at == b.recorded_at,
        a.report.identifier == b.report.identifier,
        a.report.category == b.report.category,
        a.report.details == b.report.details,
    ensures
        a.dict(false) == b.dict(false),
        a.dict(false).text_at("contact"@) == Some("withheld"@),
{
    lemma_record_names();
}

/// A receipt's sequence cites its report, then and after every later one.
pub proof fn law_receipt_cites_its_report(
    before: Seq<RecordView>,
    record: RecordView,
    later: Seq<RecordView>,
)
    requires
        record.seq == before.len() + 1,
    ensures
        (before.push(record) + later)[record.seq - 1] == record,
        forall|seq: int|
            1 <= seq <= before.len() ==> #[trigger] (before.push(record) + later)[seq - 1]
                == before[seq - 1],
{
}

/// The listing is newest first: what it lists first at no offset is the last
/// record, and each item is older than the one before it.
pub proof fn law_listing_is_newest_first(records: Seq<RecordView>, limit: nat, offset: nat, i: int)
    requires
        0 <= i < listed_records(records, limit, offset).len(),
    ensures
        listed_records(records, limit, offset)[i] == records[records.len() - 1 - offset - i].dict(
            true,
        ),
        listed_records(records, limit, offset).len() <= limit,
        offset + limit <= records.len() ==> listed_records(records, limit, offset).len() == limit,
{
}

/// Whether a category says in its wire form all that it says: a stated other
/// does not end in white space.
pub open spec fn writes_whole(category: CategoryView) -> bool {
    category matches CategoryView::Other(stated) ==> stated.len() > 0 ==> !is_space(stated.last())
}

/// Every category that a text names writes whole, and every category that
/// writes whole is the one that its wire form names.
pub proof fn law_categories_read_back(s: Text, category: CategoryView)
    ensures
        writes_whole(CategoryView::named(s)),
        writes_whole(category) ==> CategoryView::named(category.token()) == category,
{
    reveal_strlit("goods-mismatch");
    reveal_strlit("advertising-mismatch");
    reveal_strlit("other:");
    assert("goods-mismatch"@[0] == 'g' && "goods-mismatch"@.last() == 'h');
    assert("advertising-mismatch"@[0] == 'a' && "advertising-mismatch"@.last() == 'h');
    lemma_trimmed_already("goods-mismatch"@);
    lemma_trimmed_already("advertising-mismatch"@);
    let prefix = "other:"@;
    assert(prefix.len() == 6 && prefix[0] == 'o' && prefix.last() == ':');
    lemma_trimmed_end(s);
    let name = trimmed(s);
    if starts_with(name, prefix) && name.len() > 6 {
        assert(name.skip(6).last() == name.last());
    }
    if let CategoryView::Other(stated) = category {
        if writes_whole(category) {
            let token = prefix + stated;
            assert(token[0] == 'o');
            assert(stated.len() > 0 ==> token.last() == stated.last());
            assert(stated.len() == 0 ==> token =~= prefix);
            lemma_trimmed_already(token);
            assert(token.take(6) =~= prefix);
            assert(token.skip(6) =~= stated);
            assert(token[0] != "goods-mismatch"@[0] && token[0] != "advertising-mismatch"@[0]);
        }
    }
}

/// Whether a record says in its journal form all that it says: its category
/// does, and its contact, where there is one, is not empty. (An empty contact
/// reads back as none.)
pub open spec fn journals_whole(record: RecordView) -> bool {
    &&& writes_whole(record.report.category)
    &&& record.report.contact matches Some(contact) ==> contact.len() > 0
}

/// A record reads back from its journal form.
proof fn lemma_record_reads_back(record: RecordView)
    requires
        journals_whole(record),
    ensures
        record_of(record.dict(true)) == Ok::<RecordView, Text>(record),
{
    lemma_record_names();
    law_categories_read_back(Seq::empty(), record.report.category);
    let v = record.dict(true);
    assert(v.member("seq"@) == Some(JsonView::Unsigned(record.seq)));
    assert(v.text_at("recorded_at"@) == Some(record.recorded_at));
    assert(v.text_at("identifier"@) == Some(record.report.identifier));
    assert(v.text_at("category"@) == Some(record.report.category.token()));
    assert(v.text_at("details"@) == Some(record.report.details));
}

/// The journal replays: the lines of a run of records that say in their
/// journal form all that they say give back those records, in their order and
/// without a fault.
pub proof fn law_journal_replays(lines: Seq<String>, records: Seq<RecordView>)
    requires
        lines.len() == records.len(),
        forall|i: int|
            0 <= i < lines.len() ==> is_journal_line((#[trigger] lines[i])@, records[i]),
        forall|i: int| 0 <= i < records.len() ==> journals_whole(#[trigger] records[i]),
    ensures
        replayed(lines) == records,
        journal_faults(lines).len() == 0,
    decreases lines.len(),
{
    if lines.len() > 0 {
        let n = lines.len() - 1;
        let init = lines.drop_last();
        let known = records.drop_last();
        assert forall|i: int| 0 <= i < init.len() implies is_journal_line(
            (#[trigger] init[i])@,
            known[i],
        ) by {
            assert(lines[i] == init[i]);
        }
        law_journal_replays(init, known);
        assert(is_journal_line(lines[n]@, records[n]));
        lemma_record_reads_back(records[n]);
        assert(known.push(records[n]) =~= records);
    } else {
        assert(records =~= Seq::empty());
    }
}

/// A torn line is skipped and reported, and costs no other record: what the
/// lines before it replay stays.
pub proof fn law_torn_line_costs_nothing_else(lines: Seq<String>, torn: String)
    requires
        line_reading(torn@) matches Some(r) && r is Err,
    ensures
        replayed(lines.push(torn)) == replayed(lines),
        journal_faults(lines.push(torn)).len() == journal_faults(lines).len() + 1,
{
    assert(lines.push(torn).drop_last() =~= lines);
}

/// The reports of a run that are accepted, in their order.
pub open spec fn accepted(submitted: Seq<(ReportView, Text)>) -> Seq<(ReportView, Text)>
    decreases submitted.len(),
{
    if submitted.len() == 0 {
        Seq::empty()
    } else if refusal_of(submitted.last().0) is Some {
        accepted(submitted.drop_last())
    } else {
        accepted(submitted.drop_last()).push(submitted.last())
    }
}

/// Whether the stores are those of a run of reports that are submitted one
/// after another to a store that held none.
pub open spec fn is_submission_history(
    submitted: Seq<(ReportView, Text)>,
    stores: Seq<Seq<RecordView>>,
) -> bool {
    &&& stores.len() == submitted.len() + 1
    &&& stores[0].len() == 0
    &&& forall|i: int|
        0 <= i < submitted.len() ==> is_submission(
            stores[i],
            (#[trigger] submitted[i]).0,
            submitted[i].1,
            stores[i + 1],
        )
}

/// The k-th accepted report of a fresh store has number k, refusals leaving no
/// gap: the store holds one record for each accepted report, numbered from
/// one, with its report and its instant.
pub proof fn law_accepted_reports_are_numbered(
    submitted: Seq<(ReportView, Text)>,
    stores: Seq<Seq<RecordView>>,
    k: int,
)
    requires
        is_submission_history(submitted, stores),
    ensures
        stores.last().len() == accepted(submitted).len(),
        0 <= k < accepted(submitted).len() ==> {
            let record = stores.last()[k];
            &&& record.seq == k + 1
            &&& record.recorded_at == accepted(submitted)[k].1
            &&& record.report == accepted(submitted)[k].0
        },
    decreases submitted.len(),
{
    if submitted.len() > 0 {
        let n = submitted.len() - 1;
        let init = submitted.drop_last();
        let earlier = stores.drop_last();
        assert forall|i: int| 0 <= i < init.len() implies is_submission(
            earlier[i],
            (#[trigger] init[i]).0,
            init[i].1,
            earlier[i + 1],
        ) by {
            assert(submitted[i] == init[i]);
        }
        law_accepted_reports_are_numbered(init, earlier, k);
        assert(is_submission(stores[n], submitted[n].0, submitted[n].1, stores[n + 1]));
        assert(earlier.last() == stores[n]);
    }
}

/// Whether the controls are those of a run of reports that are put, one after
/// another, to a rate window that has seen none.
pub open spec fn is_report_history(
    limit: usize,
    reports: Seq<ReportView>,
    answers: Seq<Result<(), String>>,
    controls: Seq<RateLimited>,
) -> bool {
    &&& controls.len() == reports.len() + 1
    &&& answers.len() == reports.len()
    &&& controls[0].limit() == limit
    &&& controls[0].windows().view() == Map::<Text, Seq<u128>>::empty()
    &&& forall|i: int|
        0 <= i < reports.len() ==> RateLimited::answers(
            controls[i],
            #[trigger] reports[i],
            controls[i + 1],
            answers[i],
        )
}

/// How many of the first `n` reports of a history were admitted, were about the
/// identifier and came less than a minute before `now`.
pub open spec fn recent_reports(
    reports: Seq<ReportView>,
    answers: Seq<Result<(), String>>,
    controls: Seq<RateLimited>,
    n: int,
    identifier: Text,
    now: u128,
) -> nat
    decreases n,
{
    if n <= 0 {
        0
    } else {
        recent_reports(reports, answers, controls, n - 1, identifier, now) + if reports[n
            - 1].identifier == identifier && answers[n - 1] is Ok && controls[n].read_at()
            + MINUTE > now {
            1nat
        } else {
            0nat
        }
    }
}

/// The requests of the first `n` reports of a history.
spec fn report_requests(reports: Seq<ReportView>, controls: Seq<RateLimited>, n: int) -> Seq<
    (Text, u128),
> {
    Seq::new(n as nat, |i: int| (reports[i].identifier, controls[i + 1].read_at()))
}

/// The windows of a history are those of its requests.
proof fn lemma_report_windows(
    limit: usize,
    reports: Seq<ReportView>,
    answers: Seq<Result<(), String>>,
    controls: Seq<RateLimited>,
    n: int,
    identifier: Text,
    now: u128,
)
    requires
        is_report_history(limit, reports, answers, controls),
        0 <= n <= reports.len(),
        controls[n].read_at() <= now,
    ensures
        controls[n].limit() == limit,
        controls[n].windows().view() == windows_after(
            report_requests(reports, controls, n),
            Some(limit),
        ),
        come_in_order(report_requests(reports, controls, n), now),
        recent(report_requests(reports, controls, n), Some(limit), identifier, now)
            == recent_reports(reports, answers, controls, n, identifier, now),
    decreases n,
{
    let requests = report_requests(reports, controls, n);
    if n > 0 {
        let m = n - 1;
        let before = report_requests(reports, controls, m);
        assert(requests.drop_last() =~= before);
        assert(RateLimited::answers(controls[m], reports[m], controls[n], answers[m]));
        lemma_report_windows(
            limit,
            reports,
            answers,
            controls,
            m,
            identifier,
            controls[n].read_at(),
        );
        lemma_report_windows(limit, reports, answers, controls, m, identifier, now);
        assert forall|i: int, j: int| 0 <= i <= j < requests.len() implies (
        #[trigger] requests[i]).1 <= (#[trigger] requests[j]).1 <= now by {
            if j < m {
                assert(before[i].1 <= before[j].1);
            } else if i < m {
                assert(before[i].1 <= before[i].1 <= controls[n].read_at());
            }
        }
    } else {
        assert(requests =~= Seq::empty());
    }
}

/// Over any history of reports a rate window admits a report exactly while
/// fewer than its limit of reports of that identifier were admitted within the
/// last minute; refused reports and reports of other identifiers do not count,
/// and a refusal names the limit.
pub proof fn law_reports_within_the_rate(
    limit: usize,
    reports: Seq<ReportView>,
    answers: Seq<Result<(), String>>,
    controls: Seq<RateLimited>,
    i: int,
)
    requires
        is_report_history(limit, reports, answers, controls),
        0 <= i < reports.len(),
    ensures
        ({
            let few = recent_reports(
                reports,
                answers,
                controls,
                i,
                reports[i].identifier,
                controls[i + 1].read_at(),
            ) < limit;
            &&& answers[i] is Ok <==> few
            &&& answers[i] matches Err(e) ==> e@ == rate_refusal(limit)
        }),
{
    let identifier = reports[i].identifier;
    let now = controls[i + 1].read_at();
    assert(RateLimited::answers(controls[i], reports[i], controls[i + 1], answers[i]));
    lemma_report_windows(limit, reports, answers, controls, i, identifier, now);
    law_admitted_while_few_are_recent(
        report_requests(reports, controls, i),
        Some(limit),
        identifier,
        now,
    );
}

/// The wire form of a record says what the record says, member by member; the
/// contact stands in the full form alone.
pub proof fn law_record_wire_form(record: RecordView, include_contact: bool)
    ensures
        ({
            let j = record.dict(include_contact);
            &&& j.member("seq"@) == Some(JsonView::Unsigned(record.seq))
            &&& j.text_at("recorded_at"@) == Some(record.recorded_at)
            &&& j.text_at("identifier"@) == Some(record.report.identifier)
            &&& j.text_at("details"@) == Some(record.report.details)
            &&& j.text_at("category"@) == Some(
                match record.report.category {
                    CategoryView::GoodsMismatch => "goods-mismatch"@,
                    CategoryView::AdvertisingMismatch => "advertising-mismatch"@,
                    CategoryView::Other(stated) => "other:"@ + stated,
                },
            )
            &&& include_contact ==> j.text_at("contact"@) == record.report.contact
            &&& include_contact && record.report.contact is None ==> j.member("contact"@) == Some(
                JsonView::Null,
            )
            &&& !include_contact ==> j.text_at("contact"@) == Some("withheld"@)
        }),
{
    lemma_record_names();
}

/// The category that a text names, white space around it ignored: each of the
/// two mismatches by its name alone, anything else as stated, without the
/// `other:` before it.
pub proof fn law_categories_by_name(s: Text)
    ensures
        CategoryView::named(s) is GoodsMismatch <==> trimmed(s) == "goods-mismatch"@,
        CategoryView::named(s) is AdvertisingMismatch <==> trimmed(s) == "advertising-mismatch"@,
        CategoryView::named(s) matches CategoryView::Other(stated) ==> trimmed(s) == stated
            || trimmed(s) == "other:"@ + stated,
        CategoryView::named(s) matches CategoryView::Other(stated) ==> (starts_with(
            trimmed(s),
            "other:"@,
        ) ==> trimmed(s) == "other:"@ + stated),
{
    reveal_strlit("goods-mismatch");
    reveal_strlit("advertising-mismatch");
    reveal_strlit("other:");
    assert("goods-mismatch"@.len() != "advertising-mismatch"@.len());
    let name = trimmed(s);
    if starts_with(name, "other:"@) {
        assert("other:"@ + name.skip("other:"@.len() as int) =~= name);
        assert(name[0] == "other:"@[0]);
    }
}

/// A report is recorded exactly where it is about something, states what did
/// not match, and does so in at most five hundred characters. What is recorded
/// is the report as it is, at its instant, under the number of its place; the
/// records before it stay.
pub proof fn law_submissions(
    before: Seq<RecordView>,
    report: ReportView,
    now: Text,
    after: Seq<RecordView>,
)
    requires
        is_submission(before, report, now, after),
    ensures
        ({
            let stated = !is_blank(report.identifier) && !is_blank(report.details)
                && report.details.len() <= 500;
            &&& !stated ==> after == before
            &&& stated ==> after.len() == before.len() + 1 && after.drop_last() == before
                && after.last().seq == after.len() && after.last().recorded_at == now
                && after.last().report == report
        }),
        is_blank(report.identifier) ==> refusal_of(report) == Some(
            "`identifier` is required — a report is about something"@,
        ),
        !is_blank(report.identifier) && is_blank(report.details) ==> refusal_of(report) == Some(
            "`details` is required — a report states what did not match"@,
        ),
        !is_blank(report.identifier) && !is_blank(report.details) && report.details.len() > 500
            ==> refusal_of(report) == Some("`details` exceeds 500 characters"@),
{
    assert(before.push(after.last()).drop_last() =~= before);
}

/// A number cites the record at that place, and no other: what it says without
/// its contact.
pub proof fn law_citations(store: &FeedbackStore, seq: u64, r: Option<Json>)
    requires
        call_ensures(FeedbackStore::get, (store, seq), r),
    ensures
        r is Some <==> 1 <= seq <= store.records@.len(),
        r matches Some(j) ==> {
            let record = store.records@[seq - 1];
            &&& j.view().member("seq"@) == Some(JsonView::Unsigned(record.seq))
            &&& j.view().text_at("identifier"@) == Some(record.report.identifier@)
            &&& j.view().text_at("details"@) == Some(record.report.details@)
            &&& j.view().text_at("recorded_at"@) == Some(record.recorded_at@)
            &&& j.view().text_at("contact"@) == Some("withheld"@)
        },
{
    lemma_record_names();
    if 1 <= seq <= store.records@.len() {
        assert(store.view()[seq - 1] == store.records@[seq - 1].view());
    }
}

/// The listing counts all records and names the offset; its page opens with the
/// newest record behind the offset, each next one is older, contacts are in it,
/// and it ends at its limit or at the oldest record.
pub proof fn law_listings(records: Seq<RecordView>, limit: nat, offset: nat, i: int)
    ensures
        listing(records, limit, offset).member("total"@) == Some(
            JsonView::Unsigned(records.len() as u64),
        ),
        listing(records, limit, offset).member("offset"@) == Some(
            JsonView::Unsigned(offset as u64),
        ),
        listing(records, limit, offset).items_at("records"@) matches Some(page) && {
            &&& page.len() <= limit
            &&& page.len() + offset <= records.len() || page.len() == 0
            &&& page.len() < limit ==> page.len() + offset >= records.len()
            &&& 0 <= i < page.len() ==> {
                let record = records[records.len() - 1 - (offset + i)];
                &&& page[i].member("seq"@) == Some(JsonView::Unsigned(record.seq))
                &&& page[i].text_at("identifier"@) == Some(record.report.identifier)
                &&& page[i].text_at("details"@) == Some(record.report.details)
                &&& page[i].text_at("contact"@) == record.report.contact
            }
        },
{
    reveal_strlit("total");
    reveal_strlit("offset");
    reveal_strlit("records");
    assert("total"@.len() == 5 && "offset"@.len() == 6 && "records"@.len() == 7);
    lemma_record_names();
    let page = listing(records, limit, offset).items_at("records"@).unwrap();
    if 0 <= i < page.len() {
        assert(page[i] == records[records.len() - 1 - offset - i].dict(true));
    }
}

/// What a journal document denotes: it has a number, an instant and an
/// identifier or it denotes nothing, and the record carries them; its category,
/// details and contact are those of the document, the last where it is not
/// empty.
pub proof fn law_journal_documents(v: JsonView)
    ensures
        record_of(v) is Ok <==> ((v.member("seq"@) matches Some(JsonView::Unsigned(_))) && v.text_at(
            "recorded_at"@,
        ) is Some && v.text_at("identifier"@) is Some),
        !(v is Object) ==> record_of(v) == Err::<RecordView, Text>(
            "feedback record must be an object"@,
        ),
        v is Object && !(v.member("seq"@) matches Some(JsonView::Unsigned(_))) ==> record_of(v)
            == Err::<RecordView, Text>("missing `seq`"@),
        (v.member("seq"@) matches Some(JsonView::Unsigned(_))) && v.text_at("recorded_at"@) is None
            ==> record_of(v) == Err::<RecordView, Text>("missing `recorded_at`"@),
        (v.member("seq"@) matches Some(JsonView::Unsigned(_))) && v.text_at("recorded_at"@) is Some
            && v.text_at("identifier"@) is None ==> record_of(v) == Err::<RecordView, Text>(
            "missing `identifier`"@,
        ),
        record_of(v) matches Ok(record) ==> {
            &&& v.member("seq"@) == Some(JsonView::Unsigned(record.seq))
            &&& v.text_at("recorded_at"@) == Some(record.recorded_at)
            &&& v.text_at("identifier"@) == Some(record.report.identifier)
            &&& record.report.details == (match v.text_at("details"@) {
                Some(details) => details,
                None => Seq::empty(),
            })
            &&& record.report.category == CategoryView::named(
                match v.text_at("category"@) {
                    Some(category) => category,
                    None => Seq::empty(),
                },
            )
            &&& record.report.contact matches Some(contact) ==> v.text_at("contact"@) == Some(
                contact,
            )
            &&& record.report.contact is None <==> !(v.text_at("contact"@) matches Some(contact)
                && contact.len() > 0)
        },
{
}

/// What one more journal line replays: its record behind those of the lines
/// before it, or its number and complaint behind the faults of those, or, where
/// it is blank, nothing.
pub proof fn law_one_more_line(lines: Seq<String>, line: String)
    ensures
        is_blank(line@) ==> replayed(lines.push(line)) == replayed(lines) && journal_faults(
            lines.push(line),
        ) == journal_faults(lines),
        !is_blank(line@) ==> match read_json(line@) {
            Ok(v) => match record_of(v) {
                Ok(record) => replayed(lines.push(line)) == replayed(lines).push(record)
                    && journal_faults(lines.push(line)) == journal_faults(lines),
                Err(e) => replayed(lines.push(line)) == replayed(lines) && journal_faults(
                    lines.push(line),
                ) == journal_faults(lines).push((lines.len() + 1, e)),
            },
            Err(e) => replayed(lines.push(line)) == replayed(lines) && journal_faults(
                lines.push(line),
            ) == journal_faults(lines).push((lines.len() + 1, e)),
        },
        replayed(Seq::empty()).len() == 0,
        journal_faults(Seq::empty()).len() == 0,
{
    assert(lines.push(line).drop_last() =~= lines);
}

/// Submitting a report, in one call: the receipt is the record that was added
/// under the next number, with the report as it was given, at its instant; or
/// the reason why none was.
pub proof fn law_receipts(
    store: &mut FeedbackStore,
    report: FeedbackReport,
    now: &str,
    r: Result<FeedbackRecord, String>,
)
    requires
        call_ensures(FeedbackStore::submit, (store, report, now), r),
    ensures
        r is Ok <==> !is_blank(report.identifier@) && !is_blank(report.details@)
            && report.details@.len() <= 500,
        r is Err ==> final(store).records@ == old(store).records@,
        r matches Ok(record) ==> final(store).records@ == old(store).records@.push(record)
            && record.seq == final(store).records@.len() && record.recorded_at@ == now@
            && record.report.identifier@ == report.identifier@ && record.report.details@
            == report.details@ && opt_string(record.report.contact) == opt_string(report.contact)
            && record.report.category.view() == report.category.view(),
{
    assert(report.view().identifier == report.identifier@);
    assert(report.view().details == report.details@);
}

/// A rate window is asked in one call: it admits a report exactly while fewer
/// than its limit of its identifier's reports are less than a minute old, takes
/// the admitted one into that identifier's window, and leaves every other
/// window alone.
pub proof fn law_rate_windows(
    control: &mut RateLimited,
    report: &FeedbackReport,
    now: u128,
    r: Result<(), String>,
    other: Text,
)
    requires
        call_ensures(RateLimited::admit_at, (control, report, now), r),
    ensures
        ({
            let window = live(old(control).windows().window(report.identifier@), now);
            let after = final(control).windows();
            &&& r is Ok <==> window.len() < old(control).limit()
            &&& r matches Err(e) ==> e@ == "rate limit: at most "@ + decimal(
                old(control).limit() as nat,
            ) + " report(s) per identifier per minute — refused, retry after the window"@
            &&& final(control).limit() == old(control).limit()
            &&& after.window(report.identifier@) == (if r is Ok {
                window.push(now)
            } else {
                window
            })
            &&& other != report.identifier@ ==> after.window(other) == old(
                control,
            ).windows().window(other)
        }),
{
}

/// The configured control admits the first report: without a rate it admits
/// everything, with one it is a rate window of that limit, which then holds that
/// report alone.
pub proof fn law_configured_admission(
    limit: usize,
    control: Admission,
    report: ReportView,
    after: Admission,
    r: Result<(), String>,
)
    requires
        call_ensures(Admission::per_minute, (limit,), control),
        Admission::answers(control, report, after, r),
    ensures
        r is Ok,
        limit == 0 ==> control is Permissive,
        limit > 0 ==> (after matches Admission::RateLimited(window) && window.limit() == limit
            && window.windows().window(report.identifier) == seq![window.read_at()]),
{
    if let Admission::RateLimited(window) = control {
        assert(live(Seq::empty(), 0) =~= Seq::empty());
        if let Admission::RateLimited(then) = after {
            assert(then.windows().window(report.identifier) =~= seq![then.read_at()]);
        }
    }
}

/// Without a rate, no report is ever refused.
pub proof fn law_permissive_admits(
    before: Permissive,
    report: ReportView,
    after: Permissive,
    r: Result<(), String>,
)
    requires
        Permissive::answers(before, report, after, r),
    ensures
        r is Ok,
{
}

/// A store opens with the records that its journal replays, and reports the
/// lines that it could not.
pub proof fn law_stores_open(journal: &Vec<String>, r: (FeedbackStore, Vec<JournalFault>), i: int)
    requires
        call_ensures(FeedbackStore::open, (journal,), r),
    ensures
        r.0.view() == replayed(journal@),
        r.1@.len() == journal_faults(journal@).len(),
        0 <= i < r.1@.len() ==> r.1@[i].line == journal_faults(journal@)[i].0 && r.1@[i].reason@
            == journal_faults(journal@)[i].1,
{
    let faults = fault_views(r.1@);
    assert(faults.len() == r.1@.len());
    if 0 <= i < r.1@.len() {
        assert(faults[i] == (r.1@[i].line as nat, r.1@[i].reason@));
    }
}

} // verus!
