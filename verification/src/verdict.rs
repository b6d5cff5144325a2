//! The verdict rules: what a reader may conclude of a passport document.
//!
//! The freshness of the evidence, the ladder of trust markers, the
//! combination of outcomes (`fail` over `degraded` over `pass`), the registry
//! of crypto slots (a suite nobody can verify degrades the verdict, it never
//! passes for verified), the coverage report and the findings.
use vstd::hash_map::StringHashMap;
use vstd::prelude::*;

use crate::json::{lemma_array_view, put, put_text, views, Json, JsonView};
use crate::model::{EventSignature, Passport, SafetyFlag, SealedEvent, Timestamp};
use crate::text::{
    after_first, all_digits, before_first, capped, capped_add, capped_mul, chars_of,
    contains_text, decimal, decimal_text, digits_number, digits_value, find_char, holds_text,
    is_digit, law_decimal_reads_back, law_splitting, opt_string, opt_text, same, split_once, strings, text_of, texts, Text,
};

verus! {

// ---------------------------------------------------------------------------
// The marker ladder and the combination of outcomes
// ---------------------------------------------------------------------------

/// Graded trust markers, weakest to strongest.
pub const MARKER_ORDER: [&'static str; 5] = [
    "unsigned",
    "self-declared",
    "third-party-attested",
    "multi-signed",
    "log-anchored",
];

/// The grade of a marker; an unknown marker has the weakest.
pub open spec fn grade(marker: Text) -> int {
    if marker == "self-declared"@ {
        1
    } else if marker == "third-party-attested"@ {
        2
    } else if marker == "multi-signed"@ {
        3
    } else if marker == "log-anchored"@ {
        4
    } else {
        0
    }
}

/// The markers are pairwise different texts.
proof fn lemma_marker_literals()
    ensures
        "unsigned"@ != "self-declared"@,
        "unsigned"@ != "third-party-attested"@,
        "unsigned"@ != "multi-signed"@,
        "unsigned"@ != "log-anchored"@,
        "self-declared"@ != "third-party-attested"@,
        "self-declared"@ != "multi-signed"@,
        "self-declared"@ != "log-anchored"@,
        "third-party-attested"@ != "multi-signed"@,
        "third-party-attested"@ != "log-anchored"@,
        "multi-signed"@ != "log-anchored"@,
{
    reveal_strlit("unsigned");
    reveal_strlit("self-declared");
    reveal_strlit("third-party-attested");
    reveal_strlit("multi-signed");
    reveal_strlit("log-anchored");
    assert("multi-signed"@[0] == 'm');
    assert("log-anchored"@[0] == 'l');
    assert("self-declared"@[0] == 's');
    assert("unsigned"@[0] == 'u');
    assert("third-party-attested"@[0] == 't');
}

/// The position of a marker in [`MARKER_ORDER`]; an unknown marker has the
/// weakest one.
fn grade_of(marker: &str) -> (r: usize)
    ensures
        r == grade(marker@),
{
    proof {
        lemma_marker_literals();
    }
    let mut i: usize = 0;
    while i < 5
        invariant
            i <= 5,
            forall|j: int| 0 <= j < i ==> (#[trigger] MARKER_ORDER@[j])@ != marker@,
            "unsigned"@ != "self-declared"@,
            "unsigned"@ != "third-party-attested"@,
            "unsigned"@ != "multi-signed"@,
            "unsigned"@ != "log-anchored"@,
        decreases 5 - i,
    {
        if same(MARKER_ORDER[i], marker) {
            assert(i > 0 ==> MARKER_ORDER@[0]@ != marker@);
            assert(i > 1 ==> MARKER_ORDER@[1]@ != marker@);
            assert(i > 2 ==> MARKER_ORDER@[2]@ != marker@);
            assert(i > 3 ==> MARKER_ORDER@[3]@ != marker@);
            return i;
        }
        i = i + 1;
    }
    assert(MARKER_ORDER@[1]@ != marker@);
    assert(MARKER_ORDER@[2]@ != marker@);
    assert(MARKER_ORDER@[3]@ != marker@);
    assert(MARKER_ORDER@[4]@ != marker@);
    0
}

/// Whether the marker is at least as strong as the minimum.
pub fn marker_at_least(marker: &str, minimum: &str) -> (r: bool)
    ensures
        r == (grade(marker@) >= grade(minimum@)),
{
    grade_of(marker) >= grade_of(minimum)
}

/// The outcome of a list of outcomes: `fail` over `degraded` over `pass`.
pub open spec fn combined(outcomes: Seq<Text>) -> Text {
    if outcomes.contains("fail"@) {
        "fail"@
    } else if outcomes.contains("degraded"@) {
        "degraded"@
    } else {
        "pass"@
    }
}

/// Whether the text stands in the list.
fn listed(list: &[&str], text: &str) -> (r: bool)
    ensures
        r == texts(list@).contains(text@),
{
    let n: usize = list.len();
    let mut i: usize = 0;
    while i < n
        invariant
            i <= n == list@.len(),
            forall|j: int| 0 <= j < i ==> (#[trigger] list@[j])@ != text@,
        decreases n - i,
    {
        if same(list[i], text) {
            assert(texts(list@)[i as int] == text@);
            return true;
        }
        i = i + 1;
    }
    assert forall|j: int| 0 <= j < texts(list@).len() implies texts(list@)[j] != text@ by {
        assert(list@[j]@ != text@);
    }
    false
}

/// `fail` over `degraded` over `pass`.
pub fn combine_outcome(outcomes: &[&str]) -> (r: &'static str)
    ensures
        r@ == combined(texts(outcomes@)),
{
    if listed(outcomes, "fail") {
        "fail"
    } else if listed(outcomes, "degraded") {
        "degraded"
    } else {
        "pass"
    }
}

// ---------------------------------------------------------------------------
// Freshness
// ---------------------------------------------------------------------------

/// Freshness of the evidence's as-of stamp relative to an instant.
#[derive(Debug, Clone, Copy, PartialEq, Eq, Structural)]
pub enum Freshness {
    Fresh,
    Stale,
    Unknown,
}

impl Freshness {
    /// The wire token.
    pub open spec fn token(self) -> Text {
        match self {
            Freshness::Fresh => "fresh"@,
            Freshness::Stale => "stale"@,
            Freshness::Unknown => "unknown"@,
        }
    }

    /// The wire token.
    pub fn as_str(self) -> (r: &'static str)
        ensures
            r@ == self.token(),
    {
        match self {
            Freshness::Fresh => "fresh",
            Freshness::Stale => "stale",
            Freshness::Unknown => "unknown",
        }
    }
}

/// What freshness alone allows to conclude: stale data degrades, it never
/// passes. Unknown freshness (no requirement declared) is informational.
pub open spec fn freshness_outcome(freshness: Freshness) -> Text {
    match freshness {
        Freshness::Fresh => "pass"@,
        Freshness::Stale => "degraded"@,
        Freshness::Unknown => "pass"@,
    }
}

/// What freshness alone allows to conclude.
pub fn outcome_for_freshness(freshness: Freshness) -> (r: &'static str)
    ensures
        r@ == freshness_outcome(freshness),
{
    match freshness {
        Freshness::Fresh => "pass",
        Freshness::Stale => "degraded",
        Freshness::Unknown => "pass",
    }
}

/// The milliseconds of a day component: nothing, or a number and a `D`.
pub open spec fn days_ms(days: Text) -> Option<nat> {
    if days.len() == 0 {
        Some(0)
    } else if days.last() == 'D' && days.len() > 1 && all_digits(days.drop_last()) {
        Some(digits_value(days.drop_last()) * 86_400_000)
    } else {
        None
    }
}

/// Whether the text starts with a component of digits and that unit.
pub open spec fn has_unit(rest: Text, unit: char) -> bool {
    rest.contains(unit) && before_first(rest, unit).len() > 0 && all_digits(
        before_first(rest, unit),
    )
}

/// The number before the unit, where the component is there.
pub open spec fn unit_count(rest: Text, unit: char) -> nat {
    if has_unit(rest, unit) {
        digits_value(before_first(rest, unit))
    } else {
        0
    }
}

/// What follows the component, where it is there.
pub open spec fn unit_rest(rest: Text, unit: char) -> Text {
    if has_unit(rest, unit) {
        after_first(rest, unit)
    } else {
        rest
    }
}

/// The digits before the decimal point.
pub open spec fn whole_part(number: Text) -> Text {
    before_first(number, '.')
}

/// The digits after the decimal point.
pub open spec fn fraction_part(number: Text) -> Text {
    if number.contains('.') {
        after_first(number, '.')
    } else {
        Seq::empty()
    }
}

/// Whether the text is a decimal number: digits, at most one point, at least
/// one digit.
pub open spec fn is_decimal_number(number: Text) -> bool {
    &&& all_digits(whole_part(number))
    &&& all_digits(fraction_part(number))
    &&& whole_part(number).len() + fraction_part(number).len() > 0
}

/// The first three decimals, as a number of thousandths.
pub open spec fn thousandths(fraction: Text) -> nat {
    digits_value((fraction + seq!['0', '0', '0']).take(3))
}

/// The whole milliseconds of a seconds component: nothing, or a decimal
/// number and an `S`.
pub open spec fn seconds_ms(seconds: Text) -> Option<nat> {
    if seconds.len() == 0 {
        Some(0)
    } else if seconds.last() == 'S' && is_decimal_number(seconds.drop_last()) {
        Some(
            digits_value(whole_part(seconds.drop_last())) * 1000 + thousandths(
                fraction_part(seconds.drop_last()),
            ),
        )
    } else {
        None
    }
}

/// The whole milliseconds of a time component, `nHnMn(.s)S` in order: each
/// unit at most once, and at least one of them.
pub open spec fn time_ms(time: Text) -> Option<nat> {
    let after_hours = unit_rest(time, 'H');
    let after_minutes = unit_rest(after_hours, 'M');
    if time.len() == 0 {
        None
    } else {
        match seconds_ms(after_minutes) {
            Some(ms) => Some(
                unit_count(time, 'H') * 3_600_000 + unit_count(after_hours, 'M') * 60_000 + ms,
            ),
            None => None,
        }
    }
}

/// The whole milliseconds of an ISO 8601 duration of the form
/// `PnDTnHnMnS`; none where it is malformed.
pub open spec fn duration_ms(duration: Text) -> Option<nat> {
    if duration.len() == 0 || duration[0] != 'P' {
        None
    } else {
        let body = duration.skip(1);
        if body.contains('T') {
            match (days_ms(before_first(body, 'T')), time_ms(after_first(body, 'T'))) {
                (Some(days), Some(time)) => Some(days + time),
                _ => None,
            }
        } else if body.len() == 0 {
            None
        } else {
            days_ms(body)
        }
    }
}

/// The digits without the zeros at their end.
pub open spec fn significant(digits: Text) -> Text
    decreases digits.len(),
{
    if digits.len() > 0 && digits.last() == '0' {
        significant(digits.drop_last())
    } else {
        digits
    }
}

/// The decimals that a seconds component has beyond its whole milliseconds.
pub open spec fn seconds_decimals(seconds: Text) -> Text {
    let fraction = fraction_part(seconds.drop_last());
    if seconds.len() > 0 && fraction.len() > 3 {
        significant(fraction.skip(3))
    } else {
        Seq::empty()
    }
}

/// The decimals that a duration has beyond its whole milliseconds: those of
/// its seconds.
pub open spec fn duration_decimals(duration: Text) -> Text {
    let body = duration.skip(1);
    if body.contains('T') {
        seconds_decimals(unit_rest(unit_rest(after_first(body, 'T'), 'H'), 'M'))
    } else {
        Seq::empty()
    }
}

/// A number of milliseconds, as a decimal number: `999.9` has 999 whole ones
/// and the decimals `9`.
#[derive(Debug, PartialEq, Eq)]
pub struct Milliseconds {
    /// The whole milliseconds, capped.
    pub whole: u128,
    /// The decimals, without zeros at their end.
    pub decimals: String,
}

/// The number, capped, where there is one.
pub open spec fn capped_opt(n: Option<nat>) -> Option<u128> {
    match n {
        Some(n) => Some(capped(n)),
        None => None,
    }
}

/// The milliseconds of a day component, capped.
fn days_of(days: &str) -> (r: Option<u128>)
    ensures
        r == capped_opt(days_ms(days@)),
{
    let v = chars_of(days);
    let n: usize = v.len();
    if n == 0 {
        return Some(0);
    }
    if n == 1 || v[n - 1] != 'D' {
        return None;
    }
    assert(v@.subrange(0, n - 1) =~= days@.drop_last());
    match digits_number(&v, 0, n - 1) {
        Some(count) => Some(
            capped_mul(count, 86_400_000, Ghost(digits_value(days@.drop_last()))),
        ),
        None => None,
    }
}

/// The number before the unit, capped, and what follows the component.
fn take_unit(rest: &str, unit: char) -> (r: (u128, String))
    ensures
        r.0 == capped(unit_count(rest@, unit)),
        r.1@ == unit_rest(rest@, unit),
{
    match split_once(rest, unit) {
        Some((count, after)) => {
            let v = chars_of(count.as_str());
            let n: usize = v.len();
            assert(v@.subrange(0, n as int) =~= v@);
            if n > 0 {
                match digits_number(&v, 0, n) {
                    Some(k) => {
                        return (k, after);
                    },
                    None => {},
                }
            }
            (0, rest.to_owned())
        },
        None => (0, rest.to_owned()),
    }
}

/// The first three decimals of `v[from..]`, as a number of thousandths.
fn thousandths_of(v: &Vec<char>, from: usize) -> (r: u128)
    requires
        from <= v@.len(),
        all_digits(v@.skip(from as int)),
    ensures
        r == capped(thousandths(v@.skip(from as int))),
{
    let n: usize = v.len();
    let ghost padded = v@.skip(from as int) + seq!['0', '0', '0'];
    let mut three: Vec<char> = Vec::new();
    let mut j: usize = 0;
    while j < 3
        invariant
            j <= 3,
            from <= n == v@.len(),
            three@.len() == j,
            padded == v@.skip(from as int) + seq!['0', '0', '0'],
            forall|i: int| 0 <= i < j ==> three@[i] == padded[i],
        decreases 3 - j,
    {
        if j < n - from {
            three.push(v[from + j]);
        } else {
            three.push('0');
        }
        j = j + 1;
    }
    assert(three@ =~= padded.take(3));
    assert(three@.subrange(0, 3) =~= three@);
    assert forall|i: int| 0 <= i < 3 implies is_digit(#[trigger] three@[i]) by {
        if i < v@.len() - from {
            assert(is_digit(v@.skip(from as int)[i]));
        }
    }
    match digits_number(&three, 0, 3) {
        Some(k) => k,
        None => 0,
    }
}

/// The whole milliseconds of a seconds component, capped.
fn seconds_of(seconds: &str) -> (r: Option<u128>)
    ensures
        r == capped_opt(seconds_ms(seconds@)),
{
    let v = chars_of(seconds);
    let n: usize = v.len();
    if n == 0 {
        return Some(0);
    }
    if v[n - 1] != 'S' {
        return None;
    }
    assert(v@.subrange(0, n - 1) =~= seconds@.drop_last());
    let number_text = text_of(&v, 0, n - 1);
    let number = chars_of(number_text.as_str());
    let ghost whole = whole_part(number@);
    let ghost fraction = fraction_part(number@);
    let m: usize = number.len();
    let k = find_char(&number, '.');
    let from: usize = if k < m {
        k + 1
    } else {
        m
    };
    assert(number@.subrange(0, k as int) =~= whole);
    assert(number@.subrange(from as int, m as int) =~= fraction);
    assert(number@.skip(from as int) =~= fraction);
    match (digits_number(&number, 0, k), digits_number(&number, from, m)) {
        (Some(units), Some(_)) => {
            if k == 0 && from == m {
                return None;
            }
            let ms: u128 = thousandths_of(&number, from);
            let units_ms: u128 = capped_mul(units, 1000, Ghost(digits_value(whole)));
            Some(
                capped_add(
                    units_ms,
                    ms,
                    Ghost(digits_value(whole) * 1000),
                    Ghost(thousandths(fraction)),
                ),
            )
        },
        _ => None,
    }
}

/// The decimals that a seconds component has beyond its whole milliseconds.
fn decimals_of(seconds: &str) -> (r: String)
    ensures
        r@ == seconds_decimals(seconds@),
{
    let v = chars_of(seconds);
    let n: usize = v.len();
    if n == 0 {
        return String::new();
    }
    assert(v@.subrange(0, n - 1) =~= seconds@.drop_last());
    let number_text = text_of(&v, 0, n - 1);
    let number = chars_of(number_text.as_str());
    let ghost fraction = fraction_part(number@);
    let m: usize = number.len();
    let k = find_char(&number, '.');
    let from: usize = if k < m {
        k + 1
    } else {
        m
    };
    assert(number@.subrange(from as int, m as int) =~= fraction);
    if m - from <= 3 {
        return String::new();
    }
    let start: usize = from + 3;
    let mut end: usize = m;
    assert(number@.subrange(start as int, m as int) =~= fraction.skip(3));
    while end > start && number[end - 1] == '0'
        invariant
            start <= end <= m == number@.len(),
            significant(number@.subrange(start as int, end as int)) == significant(
                fraction.skip(3),
            ),
        ensures
            end == start || number@[end - 1] != '0',
        decreases end,
    {
        assert(number@.subrange(start as int, end as int).drop_last() =~= number@.subrange(
            start as int,
            end - 1,
        ));
        end = end - 1;
    }
    assert(significant(number@.subrange(start as int, end as int)) == number@.subrange(
        start as int,
        end as int,
    ));
    text_of(&number, start, end)
}

/// The milliseconds of a time component, the whole ones capped.
fn time_of(time: &str) -> (r: Option<Milliseconds>)
    ensures
        match r {
            Some(ms) => time_ms(time@) is Some && ms.whole == capped(time_ms(time@).unwrap())
                && ms.decimals@ == seconds_decimals(unit_rest(unit_rest(time@, 'H'), 'M')),
            None => time_ms(time@) is None,
        },
{
    if time.is_empty() {
        return None;
    }
    let (hours, after_hours) = take_unit(time, 'H');
    let (minutes, after_minutes) = take_unit(after_hours.as_str(), 'M');
    match seconds_of(after_minutes.as_str()) {
        Some(ms) => {
            let ghost h = unit_count(time@, 'H');
            let ghost m = unit_count(after_hours@, 'M');
            let hours_ms: u128 = capped_mul(hours, 3_600_000, Ghost(h));
            let minutes_ms: u128 = capped_mul(minutes, 60_000, Ghost(m));
            let sum: u128 = capped_add(
                hours_ms,
                minutes_ms,
                Ghost(h * 3_600_000),
                Ghost(m * 60_000),
            );
            let whole: u128 = capped_add(
                sum,
                ms,
                Ghost(h * 3_600_000 + m * 60_000),
                Ghost(seconds_ms(after_minutes@).unwrap()),
            );
            Some(Milliseconds { whole, decimals: decimals_of(after_minutes.as_str()) })
        },
        None => None,
    }
}

/// The milliseconds of an ISO 8601 duration of the form `PnDTnHnMnS`, the whole
/// ones capped; none where it is malformed.
pub fn duration_to_ms(duration: &str) -> (r: Option<Milliseconds>)
    ensures
        match r {
            Some(ms) => duration_ms(duration@) is Some && ms.whole == capped(
                duration_ms(duration@).unwrap(),
            ) && ms.decimals@ == duration_decimals(duration@),
            None => duration_ms(duration@) is None,
        },
{
    let v = chars_of(duration);
    let n: usize = v.len();
    if n == 0 || v[0] != 'P' {
        return None;
    }
    let body = text_of(&v, 1, n);
    assert(body@ =~= duration@.skip(1));
    match split_once(body.as_str(), 'T') {
        Some((days, time)) => match (days_of(days.as_str()), time_of(time.as_str())) {
            (Some(d), Some(t)) => {
                let whole: u128 = capped_add(
                    d,
                    t.whole,
                    Ghost(days_ms(days@).unwrap()),
                    Ghost(time_ms(time@).unwrap()),
                );
                Some(Milliseconds { whole, decimals: t.decimals })
            },
            _ => None,
        },
        None => if n == 1 {
            None
        } else {
            match days_of(body.as_str()) {
                Some(whole) => Some(Milliseconds { whole, decimals: String::new() }),
                None => None,
            }
        },
    }
}

/// The reading of an as-of stamp: no requirement declared, or a malformed
/// one, reads as unknown; otherwise fresh while the age stays in the budget.
/// The decimals of the budget make no difference to an age in whole seconds
/// (see [`law_decimals_never_matter`]).
pub open spec fn freshness_reading(
    as_of: Option<i64>,
    required: Option<Text>,
    now: i64,
) -> Freshness {
    match (as_of, required) {
        (Some(as_of), Some(required)) => match duration_ms(required) {
            Some(budget) => if (now - as_of) * 1000 <= budget {
                Freshness::Fresh
            } else {
                Freshness::Stale
            },
            None => Freshness::Unknown,
        },
        _ => Freshness::Unknown,
    }
}

/// The seconds of an optional instant.
pub open spec fn opt_secs(t: Option<Timestamp>) -> Option<i64> {
    match t {
        Some(t) => Some(t.secs),
        None => None,
    }
}

/// Freshness of the evidence's as-of stamp relative to `now`.
pub fn assess_freshness(
    as_of: &Option<Timestamp>,
    required: Option<&str>,
    now: &Timestamp,
) -> (r: Freshness)
    ensures
        r == freshness_reading(opt_secs(*as_of), opt_text(required), now.secs),
{
    match (as_of, required) {
        (Some(as_of), Some(required)) => match duration_to_ms(required) {
            Some(budget) => {
                let age: i128 = (now.secs as i128 - as_of.secs as i128) * 1000;
                if age <= 0 || age as u128 <= budget.whole {
                    Freshness::Fresh
                } else {
                    Freshness::Stale
                }
            },
            None => Freshness::Unknown,
        },
        _ => Freshness::Unknown,
    }
}

// ---------------------------------------------------------------------------
// Findings and coverage
// ---------------------------------------------------------------------------

/// One finding: severity (`info`, `warning` or `error`), code, message.
#[derive(Debug, PartialEq)]
pub struct Finding {
    pub severity: &'static str,
    pub code: &'static str,
    pub message: String,
}

/// What a finding says.
pub struct FindingView {
    pub severity: Text,
    pub code: Text,
    pub message: Text,
}

impl FindingView {
    /// The wire form of the finding.
    pub open spec fn dict(self) -> JsonView {
        JsonView::Object(
            map![
                "severity"@ => JsonView::Text(self.severity),
                "code"@ => JsonView::Text(self.code),
                "message"@ => JsonView::Text(self.message),
            ],
        )
    }
}

impl Finding {
    /// What the finding says.
    pub open spec fn view(&self) -> FindingView {
        FindingView { severity: self.severity@, code: self.code@, message: self.message@ }
    }

    /// The wire form.
    fn to_dict(&self) -> (j: Json)
        ensures
            j.view() == self.view().dict(),
    {
        let mut members: Vec<(String, Json)> = Vec::new();
        put_text(&mut members, "severity", self.severity);
        put_text(&mut members, "code", self.code);
        put_text(&mut members, "message", self.message.as_str());
        Json::Object(members)
    }
}

/// What the findings of a list say.
pub open spec fn finding_views(findings: Seq<Finding>) -> Seq<FindingView> {
    findings.map_values(|f: Finding| f.view())
}

/// A share: so many of so many.
#[derive(Debug, Clone, Copy, PartialEq, Eq, Structural)]
pub struct Share {
    pub part: usize,
    pub of: usize,
}

/// What a verification covered: verification is a report of coverage, not a
/// yes or no.
#[derive(Debug, Clone, Copy, PartialEq, Eq, Structural)]
pub struct CoverageReport {
    pub checks: usize,
    pub passed: usize,
    pub signatures_total: usize,
    pub signatures_verified: usize,
    pub signatures_failed: usize,
    pub signatures_unsupported: usize,
    /// The share of signatures whose key is anchored; none of one where
    /// there is no signature.
    pub anchor_coverage: Share,
    /// All or nothing: whether the required marker was achieved.
    pub trust_coverage: Share,
}

impl CoverageReport {
    /// The wire form of the report.
    pub open spec fn dict(self) -> JsonView {
        JsonView::Object(
            map![
                "checks"@ => JsonView::Unsigned(self.checks as u64),
                "passed"@ => JsonView::Unsigned(self.passed as u64),
                "signatures"@ => JsonView::Object(
                    map![
                        "total"@ => JsonView::Unsigned(self.signatures_total as u64),
                        "verified"@ => JsonView::Unsigned(self.signatures_verified as u64),
                        "failed"@ => JsonView::Unsigned(self.signatures_failed as u64),
                        "unsupported"@ => JsonView::Unsigned(self.signatures_unsupported as u64),
                    ],
                ),
                "anchorCoverage"@ => JsonView::Ratio(
                    self.anchor_coverage.part as u64,
                    self.anchor_coverage.of as u64,
                ),
                "trustCoverage"@ => JsonView::Ratio(
                    self.trust_coverage.part as u64,
                    self.trust_coverage.of as u64,
                ),
            ],
        )
    }

    /// The wire form of the report.
    pub fn to_dict(&self) -> (j: Json)
        ensures
            j.view() == self.dict(),
    {
        let mut signatures: Vec<(String, Json)> = Vec::new();
        put(&mut signatures, "total", Json::Unsigned(self.signatures_total as u64));
        put(&mut signatures, "verified", Json::Unsigned(self.signatures_verified as u64));
        put(&mut signatures, "failed", Json::Unsigned(self.signatures_failed as u64));
        put(&mut signatures, "unsupported", Json::Unsigned(self.signatures_unsupported as u64));
        let mut members: Vec<(String, Json)> = Vec::new();
        put(&mut members, "checks", Json::Unsigned(self.checks as u64));
        put(&mut members, "passed", Json::Unsigned(self.passed as u64));
        put(&mut members, "signatures", Json::Object(signatures));
        put(
            &mut members,
            "anchorCoverage",
            Json::Ratio(self.anchor_coverage.part as u64, self.anchor_coverage.of as u64),
        );
        put(
            &mut members,
            "trustCoverage",
            Json::Ratio(self.trust_coverage.part as u64, self.trust_coverage.of as u64),
        );
        Json::Object(members)
    }
}

/// The verdict on a document.
#[derive(Debug)]
pub struct Verdict {
    pub reading: &'static str,
    pub outcome: &'static str,
    pub freshness: Freshness,
    pub coverage: CoverageReport,
    pub findings: Vec<Finding>,
    pub as_of: Timestamp,
    pub achieved_marker: &'static str,
}

/// What a verdict says.
#[verifier::ext_equal]
pub struct VerdictView {
    pub reading: Text,
    pub outcome: Text,
    pub freshness: Freshness,
    pub coverage: CoverageReport,
    pub findings: Seq<FindingView>,
    pub as_of: Timestamp,
    pub achieved_marker: Text,
}

impl VerdictView {
    /// The wire form of the verdict.
    pub open spec fn dict(self) -> JsonView {
        JsonView::Object(
            map![
                "reading"@ => JsonView::Text(self.reading),
                "outcome"@ => JsonView::Text(self.outcome),
                "freshness"@ => JsonView::Text(self.freshness.token()),
                "coverage"@ => self.coverage.dict(),
                "findings"@ => JsonView::Array(
                    self.findings.map_values(|f: FindingView| f.dict()),
                ),
                "asOf"@ => JsonView::Text(self.as_of.text@),
                "achievedMarker"@ => JsonView::Text(self.achieved_marker),
            ],
        )
    }
}

impl Verdict {
    /// What the verdict says.
    pub open spec fn view(&self) -> VerdictView {
        VerdictView {
            reading: self.reading@,
            outcome: self.outcome@,
            freshness: self.freshness,
            coverage: self.coverage,
            findings: finding_views(self.findings@),
            as_of: self.as_of,
            achieved_marker: self.achieved_marker@,
        }
    }

    /// The wire form of the verdict.
    pub fn to_dict(&self) -> (j: Json)
        ensures
            j.view() == self.view().dict(),
    {
        broadcast use lemma_array_view;

        let n: usize = self.findings.len();
        let mut findings: Vec<Json> = Vec::new();
        let mut i: usize = 0;
        while i < n
            invariant
                i <= n == self.findings@.len(),
                findings@.len() == i,
                forall|k: int|
                    0 <= k < i ==> (#[trigger] findings@[k]).view() == self.findings@[k].view().dict(),
            decreases n - i,
        {
            findings.push(self.findings[i].to_dict());
            i = i + 1;
        }
        assert(views(findings@) =~= self.view().findings.map_values(|f: FindingView| f.dict()));
        let mut members: Vec<(String, Json)> = Vec::new();
        put_text(&mut members, "reading", self.reading);
        put_text(&mut members, "outcome", self.outcome);
        put_text(&mut members, "freshness", self.freshness.as_str());
        put(&mut members, "coverage", self.coverage.to_dict());
        put(&mut members, "findings", Json::Array(findings));
        put_text(&mut members, "asOf", self.as_of.text.as_str());
        put_text(&mut members, "achievedMarker", self.achieved_marker);
        Json::Object(members)
    }
}

// ---------------------------------------------------------------------------
// Crypto slots
// ---------------------------------------------------------------------------

/// A raw public key, as trust anchors carry it.
#[derive(Debug)]
pub struct PublicKeyMaterial {
    pub bytes: Vec<u8>,
}

/// The public keys a verifier trusts, by key id.
pub struct TrustAnchors {
    keys: StringHashMap<PublicKeyMaterial>,
}

impl TrustAnchors {
    /// The keys by key id.
    pub closed spec fn view(&self) -> Map<Text, Seq<u8>> {
        self.keys@.map_values(|k: PublicKeyMaterial| k.bytes@)
    }

    /// No trusted key.
    pub fn new() -> (r: Self)
        ensures
            r.view() == Map::<Text, Seq<u8>>::empty(),
    {
        let r = TrustAnchors { keys: StringHashMap::new() };
        assert(r.view() =~= Map::empty());
        r
    }

    /// Trusts a key; of two keys under one id the later one counts.
    pub fn insert(&mut self, key_id: String, key: PublicKeyMaterial)
        ensures
            final(self).view() == old(self).view().insert(key_id@, key.bytes@),
    {
        self.keys.insert(key_id, key);
        assert(self.view() =~= old(self).view().insert(key_id@, key.bytes@));
    }

    /// The key under that id.
    pub fn get(&self, key_id: &str) -> (r: Option<&PublicKeyMaterial>)
        ensures
            match r {
                Some(key) => self.view().contains_key(key_id@) && key.bytes@
                    == self.view()[key_id@],
                None => !self.view().contains_key(key_id@),
            },
    {
        self.keys.get(key_id)
    }
}

/// The input to one signature verification. The payload is the event's
/// canonical body.
pub struct SignatureInput<'a> {
    pub suite: &'a str,
    pub payload: &'a [u8],
    pub signature: &'a [u8],
    pub key_id: &'a str,
    pub anchor: &'a PublicKeyMaterial,
}

/// What is verified: a signature over a payload under a suite and a key.
pub struct SignatureCheck {
    pub suite: Text,
    pub payload: Seq<u8>,
    pub signature: Seq<u8>,
    pub key_id: Text,
    pub anchor: Seq<u8>,
}

impl<'a> SignatureInput<'a> {
    /// What is verified.
    pub open spec fn view(&self) -> SignatureCheck {
        SignatureCheck {
            suite: self.suite@,
            payload: self.payload@,
            signature: self.signature@,
            key_id: self.key_id@,
            anchor: self.anchor.bytes@,
        }
    }
}

/// A pluggable verifier of signature suites. A slot that is not `supported`
/// is a placeholder: it advertises its suites so that signatures route to it,
/// and each of them reports unsupported; the verdict degrades, it never
/// silently passes.
///
/// The spec functions name what the methods return. A slot in plain Rust does
/// not state them: they are then some functions of the slot and the
/// signature, of which nothing is known but that two calls on the same values
/// have one answer.
pub trait CryptoSlot: Send + Sync {
    /// The suites that route to the slot.
    open spec fn suite_tokens(&self) -> Seq<Text> {
        arbitrary::<spec_fn(&Self) -> Seq<Text>>()(self)
    }

    /// Whether the slot verifies at all.
    open spec fn can_verify(&self) -> bool {
        arbitrary::<spec_fn(&Self) -> bool>()(self)
    }

    /// Why it does not.
    open spec fn stated_reason(&self) -> Option<Text> {
        arbitrary::<spec_fn(&Self) -> Option<Text>>()(self)
    }

    /// Whether the slot takes the signature for valid.
    open spec fn accepts(&self, check: SignatureCheck) -> bool {
        arbitrary::<spec_fn(&Self, SignatureCheck) -> bool>()(self, check)
    }

    /// The suites that route to the slot.
    fn suites(&self) -> (r: &'static [&'static str])
        ensures
            texts(r@) == self.suite_tokens(),
    ;

    /// Whether the slot verifies at all.
    fn supported(&self) -> (r: bool)
        ensures
            r == self.can_verify(),
    ;

    /// Why it does not.
    fn reason(&self) -> (r: Option<String>)
        ensures
            opt_string(r) == self.stated_reason(),
    ;

    /// Whether the slot takes the signature for valid.
    fn verify(&self, framing: &SignatureInput<'_>) -> (r: bool)
        ensures
            r == self.accepts(framing.view()),
    ;
}

/// The ECDSA placeholder: no profile-bound ECDSA binding is registered, so
/// that ECDSA signatures degrade the verdict.
pub struct EcdsaNoneSlot;

/// The reason the ECDSA placeholder states.
pub open spec fn ecdsa_reason() -> Text {
    "ECDSA verification not linked in the stdlib-only core; register a profile-bound suite binding"@
}

impl CryptoSlot for EcdsaNoneSlot {
    open spec fn suite_tokens(&self) -> Seq<Text> {
        seq!["ecdsa-p256-sha256"@, "ecdsa-p384-sha384"@]
    }

    open spec fn can_verify(&self) -> bool {
        false
    }

    open spec fn stated_reason(&self) -> Option<Text> {
        Some(ecdsa_reason())
    }

    open spec fn accepts(&self, check: SignatureCheck) -> bool {
        false
    }

    fn suites(&self) -> (r: &'static [&'static str]) {
        let r: &'static [&'static str] = &["ecdsa-p256-sha256", "ecdsa-p384-sha384"];
        assert(texts(r@) =~= seq!["ecdsa-p256-sha256"@, "ecdsa-p384-sha384"@]);
        r
    }

    fn supported(&self) -> (r: bool) {
        false
    }

    fn reason(&self) -> (r: Option<String>) {
        Some(
            "ECDSA verification not linked in the stdlib-only core; register a profile-bound suite binding".to_owned(),
        )
    }

    fn verify(&self, framing: &SignatureInput<'_>) -> (r: bool) {
        false
    }
}

/// A slot of the gateway's default registry: the ECDSA placeholder, or the
/// verifier that the service links.
pub enum GatewaySlot<V: CryptoSlot> {
    Ecdsa(EcdsaNoneSlot),
    Ed25519(V),
}

impl<V: CryptoSlot> CryptoSlot for GatewaySlot<V> {
    open spec fn suite_tokens(&self) -> Seq<Text> {
        match self {
            GatewaySlot::Ecdsa(s) => s.suite_tokens(),
            GatewaySlot::Ed25519(s) => s.suite_tokens(),
        }
    }

    open spec fn can_verify(&self) -> bool {
        match self {
            GatewaySlot::Ecdsa(s) => s.can_verify(),
            GatewaySlot::Ed25519(s) => s.can_verify(),
        }
    }

    open spec fn stated_reason(&self) -> Option<Text> {
        match self {
            GatewaySlot::Ecdsa(s) => s.stated_reason(),
            GatewaySlot::Ed25519(s) => s.stated_reason(),
        }
    }

    open spec fn accepts(&self, check: SignatureCheck) -> bool {
        match self {
            GatewaySlot::Ecdsa(s) => s.accepts(check),
            GatewaySlot::Ed25519(s) => s.accepts(check),
        }
    }

    fn suites(&self) -> (r: &'static [&'static str]) {
        match self {
            GatewaySlot::Ecdsa(s) => s.suites(),
            GatewaySlot::Ed25519(s) => s.suites(),
        }
    }

    fn supported(&self) -> (r: bool) {
        match self {
            GatewaySlot::Ecdsa(s) => s.supported(),
            GatewaySlot::Ed25519(s) => s.supported(),
        }
    }

    fn reason(&self) -> (r: Option<String>) {
        match self {
            GatewaySlot::Ecdsa(s) => s.reason(),
            GatewaySlot::Ed25519(s) => s.reason(),
        }
    }

    fn verify(&self, framing: &SignatureInput<'_>) -> (r: bool) {
        match self {
            GatewaySlot::Ecdsa(s) => s.verify(framing),
            GatewaySlot::Ed25519(s) => s.verify(framing),
        }
    }
}

/// The slot that a suite routes to: the one registered last among those that
/// advertise it.
pub open spec fn routed<S: CryptoSlot>(slots: Seq<S>, suite: Text) -> Option<S>
    decreases slots.len(),
{
    if slots.len() == 0 {
        None
    } else if slots.last().suite_tokens().contains(suite) {
        Some(slots.last())
    } else {
        routed(slots.drop_last(), suite)
    }
}

/// The registry of crypto slots, in the order of their registration.
pub struct CryptoSlots<S: CryptoSlot> {
    pub slots: Vec<S>,
}

impl<S: CryptoSlot> CryptoSlots<S> {
    /// No slot.
    pub fn new() -> (r: Self)
        ensures
            r.slots@ == Seq::<S>::empty(),
    {
        CryptoSlots { slots: Vec::new() }
    }

    /// Routes the slot's suites to it.
    pub fn register(&mut self, slot: S)
        ensures
            final(self).slots@ == old(self).slots@.push(slot),
    {
        self.slots.push(slot);
    }

    /// Whether a suite routes to a slot.
    pub fn suits(&self, suite: &str) -> (r: bool)
        ensures
            r == (routed(self.slots@, suite@) is Some),
    {
        match self.get(suite) {
            Some(_) => true,
            None => false,
        }
    }

    /// The slot that a suite routes to.
    pub fn get(&self, suite: &str) -> (r: Option<&S>)
        ensures
            match r {
                Some(slot) => routed(self.slots@, suite@) == Some(*slot),
                None => routed(self.slots@, suite@) is None,
            },
    {
        let mut i: usize = self.slots.len();
        assert(self.slots@.take(i as int) =~= self.slots@);
        while i > 0
            invariant
                i <= self.slots@.len(),
                routed(self.slots@, suite@) == routed(self.slots@.take(i as int), suite@),
            decreases i,
        {
            assert(self.slots@.take(i as int).drop_last() =~= self.slots@.take(i - 1));
            if listed(self.slots[i - 1].suites(), suite) {
                return Some(&self.slots[i - 1]);
            }
            i = i - 1;
        }
        None
    }
}

/// Once a slot is registered, its suites route to it, and every other suite
/// routes where it did before.
pub proof fn law_registration_routes<S: CryptoSlot>(slots: Seq<S>, slot: S, suite: Text)
    ensures
        routed(slots.push(slot), suite) == (if slot.suite_tokens().contains(suite) {
            Some(slot)
        } else {
            routed(slots, suite)
        }),
{
    assert(slots.push(slot).drop_last() =~= slots);
}

/// The gateway's default registry: the ECDSA placeholder and the Ed25519
/// verifier. A suite with no registered binding routes nowhere.
pub fn default_slots<V: CryptoSlot>(ed25519: V) -> (r: CryptoSlots<GatewaySlot<V>>)
    ensures
        r.slots@ == seq![GatewaySlot::Ecdsa(EcdsaNoneSlot), GatewaySlot::Ed25519(ed25519)],
{
    let mut slots = CryptoSlots::new();
    slots.register(GatewaySlot::Ecdsa(EcdsaNoneSlot));
    slots.register(GatewaySlot::Ed25519(ed25519));
    slots
}

// ---------------------------------------------------------------------------
// The verification of a passport document
// ---------------------------------------------------------------------------

/// What a verification is asked to apply.
pub struct VerifyOptions<'a, S: CryptoSlot> {
    /// Pre-cached trust anchors by key id.
    pub anchors: &'a TrustAnchors,
    /// The slot registry.
    pub slots: &'a CryptoSlots<S>,
    /// The verification reading.
    pub reading: &'static str,
    /// Tainted passport ids; taint fails under every reading.
    pub tainted_passport_ids: &'a [String],
    /// Required freshness (ISO 8601 duration), where one is declared.
    pub required_freshness: Option<&'a str>,
    /// Minimum trust marker (`unsigned` for no requirement).
    pub minimum_marker: &'static str,
    /// The verification instant.
    pub now: Timestamp,
}

/// What a verification is asked to apply, as values.
pub struct VerifyView<S: CryptoSlot> {
    pub anchors: Map<Text, Seq<u8>>,
    pub slots: Seq<S>,
    pub reading: Text,
    pub tainted: Seq<Text>,
    pub required_freshness: Option<Text>,
    pub minimum_marker: Text,
    pub now: Timestamp,
}

impl<'a, S: CryptoSlot> VerifyOptions<'a, S> {
    /// What the verification applies.
    pub open spec fn view(&self) -> VerifyView<S> {
        VerifyView {
            anchors: self.anchors.view(),
            slots: self.slots.slots@,
            reading: self.reading@,
            tainted: strings(self.tainted_passport_ids@),
            required_freshness: opt_text(self.required_freshness),
            minimum_marker: self.minimum_marker@,
            now: self.now,
        }
    }
}

/// The current-state reading at an instant: no taint, no required marker.
pub open spec fn current_state_view<S: CryptoSlot>(
    anchors: Map<Text, Seq<u8>>,
    slots: Seq<S>,
    required_freshness: Option<Text>,
    now: Timestamp,
) -> VerifyView<S> {
    VerifyView {
        anchors,
        slots,
        reading: "current-state"@,
        tainted: Seq::empty(),
        required_freshness,
        minimum_marker: "unsigned"@,
        now,
    }
}

impl<'a, S: CryptoSlot> VerifyOptions<'a, S> {
    /// The current-state reading at an instant: no taint, no requirement on
    /// freshness or marker.
    pub fn current_state(
        anchors: &'a TrustAnchors,
        slots: &'a CryptoSlots<S>,
        now: Timestamp,
    ) -> (r: Self)
        ensures
            r.view() == current_state_view(anchors.view(), slots.slots@, None, now),
    {
        let r = VerifyOptions {
            anchors,
            slots,
            reading: "current-state",
            tainted_passport_ids: &[],
            required_freshness: None,
            minimum_marker: "unsigned",
            now,
        };
        assert(r.view().tainted =~= Seq::empty());
        r
    }
}

/// Whether the passport is tainted.
pub open spec fn is_tainted(tainted: Seq<Text>, passport_id: Text) -> bool {
    tainted.contains(passport_id)
}

/// Whether the instant lies outside the document's validity window.
pub open spec fn outside_window(document: &Passport, now: i64) -> bool {
    now < document.validity.from.secs || (document.validity.to matches Some(to) && now > to.secs)
}

/// The freshness of a document's evidence.
pub open spec fn evidence_freshness<S: CryptoSlot>(
    document: &Passport,
    options: VerifyView<S>,
) -> Freshness {
    freshness_reading(
        opt_secs(document.log.last_event_at),
        options.required_freshness,
        options.now.secs,
    )
}

/// Whether a recall stands on evidence that is stale.
pub open spec fn recall_is_stale<S: CryptoSlot>(
    document: &Passport,
    options: VerifyView<S>,
) -> bool {
    document.log.safety_flag is Raised && evidence_freshness(document, options) is Stale
}

/// What becomes of one recorded signature.
#[derive(Debug, Clone, Copy, PartialEq, Eq, Structural)]
pub enum FramingResult {
    /// No event of that number is sealed.
    NoEvent,
    /// The recorded signature is not hexadecimal.
    NotHex,
    /// The suite routes to no slot.
    NoSlot,
    /// The suite routes to a placeholder.
    Unsupported,
    /// The key is not among the trust anchors.
    Unanchored,
    Verified,
    Rejected,
}

impl FramingResult {
    /// Whether the signature counts as failed.
    pub open spec fn failed(self) -> bool {
        self is NoEvent || self is NotHex || self is Unanchored || self is Rejected
    }

    /// Whether the signature counts as unsupported.
    pub open spec fn unsupported(self) -> bool {
        self is NoSlot || self is Unsupported
    }

    /// Whether the signature was put to a verifier under an anchored key.
    pub open spec fn anchored(self) -> bool {
        self is Verified || self is Rejected
    }
}

/// The sealed event that a signature names, where there is one.
pub open spec fn signed_event(sealed: Seq<SealedEvent>, seq: u64) -> Option<SealedEvent> {
    if seq < sealed.len() && sealed[seq as int].seq == seq {
        Some(sealed[seq as int])
    } else {
        None
    }
}

/// The signed payload of an event; empty where it has no canonical form.
pub open spec fn payload_of(event: SealedEvent) -> Seq<u8> {
    match event.canonical_body {
        Some(body) => body@,
        None => Seq::empty(),
    }
}

/// What becomes of one recorded signature.
pub open spec fn framing_result<S: CryptoSlot>(
    document: &Passport,
    options: VerifyView<S>,
    framing: EventSignature,
) -> FramingResult {
    match (signed_event(document.log.sealed@, framing.seq), framing.signature) {
        (None, _) => FramingResult::NoEvent,
        (_, None) => FramingResult::NotHex,
        (Some(event), Some(signature)) => match routed(options.slots, framing.suite@) {
            None => FramingResult::NoSlot,
            Some(slot) => if !slot.can_verify() {
                FramingResult::Unsupported
            } else if !options.anchors.contains_key(framing.key_id@) {
                FramingResult::Unanchored
            } else if slot.accepts(
                SignatureCheck {
                    suite: framing.suite@,
                    payload: payload_of(event),
                    signature: signature@,
                    key_id: framing.key_id@,
                    anchor: options.anchors[framing.key_id@],
                },
            ) {
                FramingResult::Verified
            } else {
                FramingResult::Rejected
            },
        },
    }
}

/// Why a placeholder does not verify.
pub open spec fn placeholder_reason<S: CryptoSlot>(options: VerifyView<S>, suite: Text) -> Text {
    match routed(options.slots, suite) {
        Some(slot) => match slot.stated_reason() {
            Some(reason) => reason,
            None => "slot reports unsupported"@,
        },
        None => "slot reports unsupported"@,
    }
}

/// An error finding.
pub open spec fn error(code: Text, message: Text) -> FindingView {
    FindingView { severity: "error"@, code, message }
}

/// A warning finding.
pub open spec fn warning(code: Text, message: Text) -> FindingView {
    FindingView { severity: "warning"@, code, message }
}

/// The finding on one recorded signature; none where it verified.
pub open spec fn framing_finding<S: CryptoSlot>(
    document: &Passport,
    options: VerifyView<S>,
    framing: EventSignature,
) -> Option<FindingView> {
    let by_key = "signature by "@ + framing.key_id@ + " ("@ + framing.suite@;
    match framing_result(document, options, framing) {
        FramingResult::NoEvent => Some(
            error(
                "signature-invalid"@,
                "signature names seq "@ + decimal(framing.seq as nat)
                    + " but no such event is sealed"@,
            ),
        ),
        FramingResult::NotHex => Some(
            error("signature-invalid"@, by_key + ") is not valid hex"@),
        ),
        FramingResult::NoSlot => Some(
            warning(
                "suite-unsupported"@,
                "no crypto slot for suite "@ + framing.suite@
                    + " (profile-bound suite; register the binding)"@,
            ),
        ),
        FramingResult::Unsupported => Some(
            warning(
                "suite-unsupported"@,
                "suite "@ + framing.suite@ + " unsupported: "@ + placeholder_reason(
                    options,
                    framing.suite@,
                ),
            ),
        ),
        FramingResult::Unanchored => Some(
            error(
                "key-unanchored"@,
                "keyId "@ + framing.key_id@ + " not in cached trust anchors"@,
            ),
        ),
        FramingResult::Verified => None,
        FramingResult::Rejected => Some(
            error("signature-invalid"@, by_key + ") failed verification"@),
        ),
    }
}

/// What is counted over the recorded signatures.
pub enum Tally {
    Verified,
    Failed,
    Unsupported,
    Anchored,
    /// Verified under a suite that is not a symmetric test suite.
    Attested,
}

/// Whether the signature counts.
pub open spec fn counts<S: CryptoSlot>(
    document: &Passport,
    options: VerifyView<S>,
    framing: EventSignature,
    tally: Tally,
) -> bool {
    let result = framing_result(document, options, framing);
    match tally {
        Tally::Verified => result is Verified,
        Tally::Failed => result.failed(),
        Tally::Unsupported => result.unsupported(),
        Tally::Anchored => result.anchored(),
        Tally::Attested => result is Verified && !holds_text(framing.suite@, "testmac"@),
    }
}

/// How many of the signatures count.
pub open spec fn tallied<S: CryptoSlot>(
    document: &Passport,
    options: VerifyView<S>,
    framings: Seq<EventSignature>,
    tally: Tally,
) -> nat
    decreases framings.len(),
{
    if framings.len() == 0 {
        0
    } else {
        tallied(document, options, framings.drop_last(), tally) + if counts(
            document,
            options,
            framings.last(),
            tally,
        ) {
            1nat
        } else {
            0nat
        }
    }
}

/// A finding as a list.
pub open spec fn finding_list(finding: Option<FindingView>) -> Seq<FindingView> {
    match finding {
        Some(f) => seq![f],
        None => Seq::empty(),
    }
}

/// The findings on the signatures, in their order.
pub open spec fn framing_findings<S: CryptoSlot>(
    document: &Passport,
    options: VerifyView<S>,
    framings: Seq<EventSignature>,
) -> Seq<FindingView>
    decreases framings.len(),
{
    if framings.len() == 0 {
        Seq::empty()
    } else {
        framing_findings(document, options, framings.drop_last()) + finding_list(
            framing_finding(document, options, framings.last()),
        )
    }
}

/// The strongest marker that the signatures achieve: a signature under a
/// symmetric test suite self-declares, every other one third-party-attests.
pub open spec fn strongest_achieved(verified: nat, attested: nat) -> Text {
    if attested > 0 {
        "third-party-attested"@
    } else if verified > 0 {
        "self-declared"@
    } else {
        "unsigned"@
    }
}

/// The marker that a document achieves.
pub open spec fn achieved<S: CryptoSlot>(document: &Passport, options: VerifyView<S>) -> Text {
    let framings = document.event_signatures@;
    strongest_achieved(
        tallied(document, options, framings, Tally::Verified),
        tallied(document, options, framings, Tally::Attested),
    )
}

/// Whether the marker meets the requirement.
pub open spec fn meets(marker: Text, minimum: Text) -> bool {
    minimum == "unsigned"@ || grade(marker) >= grade(minimum)
}

/// The finding on taint.
pub open spec fn taint_finding<S: CryptoSlot>(
    document: &Passport,
    options: VerifyView<S>,
) -> Option<FindingView> {
    if is_tainted(options.tainted, document.passport_id@) {
        Some(error("tainted"@, "passport "@ + document.passport_id@ + " is tainted"@))
    } else {
        None
    }
}

/// The finding on the validity window.
pub open spec fn window_finding<S: CryptoSlot>(
    document: &Passport,
    options: VerifyView<S>,
) -> Option<FindingView> {
    if outside_window(document, options.now.secs) {
        Some(
            error(
                "validity-window"@,
                "document outside validity window ["@ + document.validity.from.text@ + ", "@ + (
                match document.validity.to {
                    Some(to) => to.text@,
                    None => "open"@,
                }) + "]"@,
            ),
        )
    } else {
        None
    }
}

/// The finding on a recall.
pub open spec fn recall_finding<S: CryptoSlot>(
    document: &Passport,
    options: VerifyView<S>,
) -> Option<FindingView> {
    if recall_is_stale(document, options) {
        Some(error("recall-stale"@, "recall flag present but data is stale — cannot pass"@))
    } else {
        None
    }
}

/// The finding on the required marker.
pub open spec fn marker_finding<S: CryptoSlot>(
    document: &Passport,
    options: VerifyView<S>,
) -> Option<FindingView> {
    if meets(achieved(document, options), options.minimum_marker) {
        None
    } else {
        Some(
            warning(
                "below-minimum-marker"@,
                "achieved "@ + achieved(document, options) + ", below required "@
                    + options.minimum_marker,
            ),
        )
    }
}

/// Whether anything about the document fails.
pub open spec fn fails<S: CryptoSlot>(document: &Passport, options: VerifyView<S>) -> bool {
    ||| is_tainted(options.tainted, document.passport_id@)
    ||| outside_window(document, options.now.secs)
    ||| recall_is_stale(document, options)
    ||| tallied(document, options, document.event_signatures@, Tally::Failed) > 0
}

/// Whether anything about the document degrades.
pub open spec fn degrades<S: CryptoSlot>(document: &Passport, options: VerifyView<S>) -> bool {
    ||| evidence_freshness(document, options) is Stale
    ||| tallied(document, options, document.event_signatures@, Tally::Unsupported) > 0
}

/// The verdict on a document.
pub open spec fn verdict_on<S: CryptoSlot>(
    document: &Passport,
    options: VerifyView<S>,
) -> VerdictView {
    let framings = document.event_signatures@;
    let verified = tallied(document, options, framings, Tally::Verified);
    let anchored = tallied(document, options, framings, Tally::Anchored);
    let freshness = evidence_freshness(document, options);
    VerdictView {
        reading: options.reading,
        outcome: if fails(document, options) {
            "fail"@
        } else if degrades(document, options) {
            "degraded"@
        } else {
            "pass"@
        },
        freshness,
        coverage: CoverageReport {
            checks: (3 + anchored) as usize,
            passed: (1 + (if outside_window(document, options.now.secs) {
                0int
            } else {
                1int
            }) + (if freshness is Fresh {
                1int
            } else {
                0int
            }) + verified) as usize,
            signatures_total: framings.len() as usize,
            signatures_verified: verified as usize,
            signatures_failed: tallied(document, options, framings, Tally::Failed) as usize,
            signatures_unsupported: tallied(
                document,
                options,
                framings,
                Tally::Unsupported,
            ) as usize,
            anchor_coverage: if framings.len() == 0 {
                Share { part: 0, of: 1 }
            } else {
                Share { part: anchored as usize, of: framings.len() as usize }
            },
            trust_coverage: if meets(achieved(document, options), options.minimum_marker) {
                Share { part: 1, of: 1 }
            } else {
                Share { part: 0, of: 1 }
            },
        },
        findings: finding_list(taint_finding(document, options)) + finding_list(
            window_finding(document, options),
        ) + finding_list(recall_finding(document, options)) + framing_findings(
            document,
            options,
            framings,
        ) + finding_list(marker_finding(document, options)),
        as_of: options.now,
        achieved_marker: achieved(document, options),
    }
}

/// Each signature counts as exactly one of verified, failed and unsupported;
/// what verified was anchored, and what attests verified.
proof fn lemma_tallies<S: CryptoSlot>(
    document: &Passport,
    options: VerifyView<S>,
    framings: Seq<EventSignature>,
)
    ensures
        tallied(document, options, framings, Tally::Verified) + tallied(
            document,
            options,
            framings,
            Tally::Failed,
        ) + tallied(document, options, framings, Tally::Unsupported) == framings.len(),
        tallied(document, options, framings, Tally::Verified) <= tallied(
            document,
            options,
            framings,
            Tally::Anchored,
        ) <= framings.len(),
        tallied(document, options, framings, Tally::Attested) <= tallied(
            document,
            options,
            framings,
            Tally::Verified,
        ),
    decreases framings.len(),
{
    if framings.len() > 0 {
        lemma_tallies(document, options, framings.drop_last());
    }
}

/// Whether the passport is tainted.
fn tainted(ids: &[String], passport_id: &str) -> (r: bool)
    ensures
        r == is_tainted(strings(ids@), passport_id@),
{
    let n: usize = ids.len();
    let mut i: usize = 0;
    while i < n
        invariant
            i <= n == ids@.len(),
            forall|j: int| 0 <= j < i ==> (#[trigger] ids@[j])@ != passport_id@,
        decreases n - i,
    {
        if same(ids[i].as_str(), passport_id) {
            assert(strings(ids@)[i as int] == passport_id@);
            return true;
        }
        i = i + 1;
    }
    assert forall|j: int| 0 <= j < strings(ids@).len() implies strings(ids@)[j] != passport_id@ by {
        assert(ids@[j]@ != passport_id@);
    }
    false
}

/// Adds a finding.
fn report(
    findings: &mut Vec<Finding>,
    severity: &'static str,
    code: &'static str,
    message: String,
)
    ensures
        finding_views(final(findings)@) == finding_views(old(findings)@) + finding_list(
            Some(FindingView { severity: severity@, code: code@, message: message@ }),
        ),
{
    findings.push(Finding { severity, code, message });
    assert(finding_views(findings@) =~= finding_views(old(findings)@) + seq![
        FindingView { severity: severity@, code: code@, message: message@ },
    ]);
}

/// Adds an outcome.
fn conclude(outcomes: &mut Vec<&'static str>, outcome: &'static str)
    ensures
        forall|t: Text| #[trigger]
            texts(final(outcomes)@).contains(t) == (texts(old(outcomes)@).contains(t) || t
                == outcome@),
{
    outcomes.push(outcome);
    let ghost before = texts(old(outcomes)@);
    assert(texts(outcomes@) =~= before.push(outcome@));
    assert forall|t: Text| #[trigger]
        texts(outcomes@).contains(t) == (before.contains(t) || t == outcome@) by {
        if before.contains(t) {
            let k = choose|k: int| 0 <= k < before.len() && before[k] == t;
            assert(texts(outcomes@)[k] == t);
        }
        if t == outcome@ {
            assert(texts(outcomes@)[before.len() as int] == t);
        }
    }
}

/// Puts one recorded signature to the slot its suite routes to, and reports
/// what it finds.
fn assess_framing<S: CryptoSlot>(
    document: &Passport,
    options: &VerifyOptions<S>,
    framing: &EventSignature,
    findings: &mut Vec<Finding>,
) -> (r: FramingResult)
    ensures
        r == framing_result(document, options.view(), *framing),
        finding_views(final(findings)@) == finding_views(old(findings)@) + finding_list(
            framing_finding(document, options.view(), *framing),
        ),
{
    let ghost before = finding_views(findings@);
    assert(before + Seq::<FindingView>::empty() =~= before);
    let height: usize = document.log.sealed.len();
    if framing.seq >= height as u64 || document.log.sealed[framing.seq as usize].seq != framing.seq {
        report(
            findings,
            "error",
            "signature-invalid",
            "signature names seq ".to_owned().concat(decimal_text(framing.seq).as_str()).concat(
                " but no such event is sealed",
            ),
        );
        return FramingResult::NoEvent;
    }
    let event = &document.log.sealed[framing.seq as usize];
    let empty: Vec<u8> = Vec::new();
    let payload: &[u8] = match &event.canonical_body {
        Some(body) => body.as_slice(),
        None => empty.as_slice(),
    };
    assert(payload@ == payload_of(*event));
    let signature: &[u8] = match &framing.signature {
        Some(signature) => signature.as_slice(),
        None => {
            report(
                findings,
                "error",
                "signature-invalid",
                "signature by ".to_owned().concat(framing.key_id.as_str()).concat(" (").concat(
                    framing.suite.as_str(),
                ).concat(") is not valid hex"),
            );
            return FramingResult::NotHex;
        },
    };
    let slot = match options.slots.get(framing.suite.as_str()) {
        Some(slot) => slot,
        None => {
            report(
                findings,
                "warning",
                "suite-unsupported",
                "no crypto slot for suite ".to_owned().concat(framing.suite.as_str()).concat(
                    " (profile-bound suite; register the binding)",
                ),
            );
            return FramingResult::NoSlot;
        },
    };
    if !slot.supported() {
        let reason = match slot.reason() {
            Some(reason) => reason,
            None => "slot reports unsupported".to_owned(),
        };
        report(
            findings,
            "warning",
            "suite-unsupported",
            "suite ".to_owned().concat(framing.suite.as_str()).concat(" unsupported: ").concat(
                reason.as_str(),
            ),
        );
        return FramingResult::Unsupported;
    }
    let anchor = match options.anchors.get(framing.key_id.as_str()) {
        Some(anchor) => anchor,
        None => {
            report(
                findings,
                "error",
                "key-unanchored",
                "keyId ".to_owned().concat(framing.key_id.as_str()).concat(
                    " not in cached trust anchors",
                ),
            );
            return FramingResult::Unanchored;
        },
    };
    let input = SignatureInput {
        suite: framing.suite.as_str(),
        payload,
        signature,
        key_id: framing.key_id.as_str(),
        anchor,
    };
    if slot.verify(&input) {
        FramingResult::Verified
    } else {
        report(
            findings,
            "error",
            "signature-invalid",
            "signature by ".to_owned().concat(framing.key_id.as_str()).concat(" (").concat(
                framing.suite.as_str(),
            ).concat(") failed verification"),
        );
        FramingResult::Rejected
    }
}

/// The outcomes are pairwise different texts.
proof fn lemma_outcome_literals()
    ensures
        "fail"@ != "degraded"@,
        "fail"@ != "pass"@,
        "degraded"@ != "pass"@,
{
    reveal_strlit("fail");
    reveal_strlit("degraded");
    reveal_strlit("pass");
    assert("fail"@.len() == 4 && "degraded"@.len() == 8 && "pass"@.len() == 4);
    assert("fail"@[0] == 'f' && "pass"@[0] == 'p');
}

/// Validates the document's evidence against the trust anchors, checks
/// validity and freshness, applies taint, and produces a verdict with a
/// coverage report. Stale data degrades explicitly, it never silently passes.
pub fn verify_passport<S: CryptoSlot>(document: &Passport, options: &VerifyOptions<S>) -> (v:
    Verdict)
    requires
        document.event_signatures@.len() + 3 <= usize::MAX,
    ensures
        v.view() == verdict_on(document, options.view()),
{
    proof {
        lemma_outcome_literals();
        lemma_marker_literals();
        lemma_tallies(document, options.view(), document.event_signatures@);
    }
    let mut findings: Vec<Finding> = Vec::new();
    let mut outcomes: Vec<&'static str> = Vec::new();
    assert(finding_views(findings@) =~= Seq::empty());
    assert(texts(outcomes@) =~= Seq::empty());
    assert(Seq::<FindingView>::empty() + Seq::<FindingView>::empty() =~= Seq::<
        FindingView,
    >::empty());

    let is_tainted_document: bool = tainted(
        options.tainted_passport_ids,
        document.passport_id.as_str(),
    );
    if is_tainted_document {
        report(
            &mut findings,
            "error",
            "tainted",
            "passport ".to_owned().concat(document.passport_id.as_str()).concat(" is tainted"),
        );
        conclude(&mut outcomes, "fail");
    }
    assert(finding_views(findings@) =~= finding_list(taint_finding(document, options.view())));

    let ended: bool = match &document.validity.to {
        Some(to) => options.now.secs > to.secs,
        None => false,
    };
    let outside: bool = options.now.secs < document.validity.from.secs || ended;
    let mut checks: usize = 2;
    let mut passed: usize = 1;
    if outside {
        let to_text = match &document.validity.to {
            Some(to) => to.text.as_str(),
            None => "open",
        };
        report(
            &mut findings,
            "error",
            "validity-window",
            "document outside validity window [".to_owned().concat(
                document.validity.from.text.as_str(),
            ).concat(", ").concat(to_text).concat("]"),
        );
        conclude(&mut outcomes, "fail");
    } else {
        passed = passed + 1;
    }
    assert(finding_views(findings@) =~= finding_list(taint_finding(document, options.view()))
        + finding_list(window_finding(document, options.view())));

    let freshness = assess_freshness(
        &document.log.last_event_at,
        options.required_freshness,
        &options.now,
    );
    let recall: bool = match document.log.safety_flag {
        SafetyFlag::Raised => true,
        SafetyFlag::Clear => false,
    };
    let stale: bool = match freshness {
        Freshness::Stale => true,
        _ => false,
    };
    if recall && stale {
        report(
            &mut findings,
            "error",
            "recall-stale",
            "recall flag present but data is stale — cannot pass".to_owned(),
        );
        conclude(&mut outcomes, "fail");
    }
    let ghost head = finding_list(taint_finding(document, options.view())) + finding_list(
        window_finding(document, options.view()),
    ) + finding_list(recall_finding(document, options.view()));
    assert(finding_views(findings@) =~= head);
    conclude(&mut outcomes, outcome_for_freshness(freshness));
    checks = checks + 1;
    let fresh: bool = match freshness {
        Freshness::Fresh => true,
        _ => false,
    };
    if fresh {
        passed = passed + 1;
    }
    let ghost passed_before = passed;
    let ghost fails_before = is_tainted_document || outside || (recall && stale);

    let total: usize = document.event_signatures.len();
    let mut verified: usize = 0;
    let mut failed: usize = 0;
    let mut unsupported: usize = 0;
    let mut anchored_keys: usize = 0;
    let mut strongest: &'static str = "unsigned";
    let ghost framings = document.event_signatures@;
    assert(framings.take(0) =~= Seq::empty());
    assert(head + Seq::<FindingView>::empty() =~= head);
    let mut i: usize = 0;
    while i < total
        invariant
            i <= total == framings.len(),
            framings == document.event_signatures@,
            total + 3 <= usize::MAX,
            checks == 3 + anchored_keys,
            passed == passed_before + verified,
            passed_before <= 3,
            verified == tallied(document, options.view(), framings.take(i as int), Tally::Verified),
            failed == tallied(document, options.view(), framings.take(i as int), Tally::Failed),
            unsupported == tallied(document, options.view(), framings.take(i as int), Tally::Unsupported),
            anchored_keys == tallied(document, options.view(), framings.take(i as int), Tally::Anchored),
            strongest@ == strongest_achieved(
                tallied(document, options.view(), framings.take(i as int), Tally::Verified),
                tallied(document, options.view(), framings.take(i as int), Tally::Attested),
            ),
            finding_views(findings@) == head + framing_findings(document, options.view(),
                framings.take(i as int),
            ),
            texts(outcomes@).contains("fail"@) == (fails_before || failed > 0),
            texts(outcomes@).contains("degraded"@) == (stale || unsupported > 0),
            "fail"@ != "degraded"@,
            "unsigned"@ != "self-declared"@,
            "unsigned"@ != "third-party-attested"@,
            "self-declared"@ != "third-party-attested"@,
        decreases total - i,
    {
        let framing = &document.event_signatures[i];
        let ghost next = framings.take(i + 1);
        assert(next.drop_last() =~= framings.take(i as int));
        assert(next.last() == *framing);
        proof {
            lemma_tallies(document, options.view(), framings.take(i as int));
            assert(finding_views(findings@) + finding_list(
                framing_finding(document, options.view(), *framing),
            ) =~= head + framing_findings(document, options.view(), next));
        }
        match assess_framing(document, options, framing, &mut findings) {
            FramingResult::Verified => {
                anchored_keys = anchored_keys + 1;
                checks = checks + 1;
                verified = verified + 1;
                passed = passed + 1;
                let marker: &'static str = if contains_text(framing.suite.as_str(), "testmac") {
                    "self-declared"
                } else {
                    "third-party-attested"
                };
                if same(strongest, "unsigned") || marker_at_least(marker, strongest) {
                    strongest = marker;
                }
            },
            FramingResult::Rejected => {
                anchored_keys = anchored_keys + 1;
                checks = checks + 1;
                failed = failed + 1;
                conclude(&mut outcomes, "fail");
            },
            FramingResult::NoSlot | FramingResult::Unsupported => {
                unsupported = unsupported + 1;
                conclude(&mut outcomes, "degraded");
            },
            _ => {
                failed = failed + 1;
                conclude(&mut outcomes, "fail");
            },
        }
        i = i + 1;
    }
    assert(framings.take(total as int) =~= framings);

    let minimum: &'static str = options.minimum_marker;
    let met: bool = same(minimum, "unsigned") || marker_at_least(strongest, minimum);
    if !met {
        report(
            &mut findings,
            "warning",
            "below-minimum-marker",
            "achieved ".to_owned().concat(strongest).concat(", below required ").concat(minimum),
        );
    }
    assert(finding_views(findings@) =~= verdict_on(document, options.view()).findings);
    let coverage = CoverageReport {
        checks,
        passed,
        signatures_total: total,
        signatures_verified: verified,
        signatures_failed: failed,
        signatures_unsupported: unsupported,
        anchor_coverage: if total == 0 {
            Share { part: 0, of: 1 }
        } else {
            Share { part: anchored_keys, of: total }
        },
        trust_coverage: if met {
            Share { part: 1, of: 1 }
        } else {
            Share { part: 0, of: 1 }
        },
    };
    Verdict {
        reading: options.reading,
        outcome: combine_outcome(outcomes.as_slice()),
        freshness,
        coverage,
        findings,
        as_of: options.now.clone(),
        achieved_marker: strongest,
    }
}

// ---------------------------------------------------------------------------
// Laws
// ---------------------------------------------------------------------------

/// The markers of the ladder have strictly rising grades, and no marker is
/// weaker than an unknown one.
pub proof fn law_marker_ladder(i: int, marker: Text)
    requires
        0 <= i < 5,
    ensures
        grade(MARKER_ORDER@[i]@) == i,
        0 <= grade(marker) <= 4,
        (forall|j: int| 0 <= j < 5 ==> (#[trigger] MARKER_ORDER@[j])@ != marker) ==> grade(marker)
            == 0,
{
    lemma_marker_literals();
    assert(MARKER_ORDER@[0]@ == "unsigned"@);
    assert(MARKER_ORDER@[1]@ == "self-declared"@);
    assert(MARKER_ORDER@[2]@ == "third-party-attested"@);
    assert(MARKER_ORDER@[3]@ == "multi-signed"@);
    assert(MARKER_ORDER@[4]@ == "log-anchored"@);
}

/// The combination of outcomes goes by what occurs, not by where or how
/// often: two lists of the same outcomes combine to the same one.
pub proof fn law_combination_ignores_order(a: Seq<Text>, b: Seq<Text>)
    requires
        forall|t: Text| a.contains(t) <==> b.contains(t),
    ensures
        combined(a) == combined(b),
{
}

/// Outcomes combine group by group: the outcome of two lists together is the
/// combination of their outcomes.
pub proof fn law_combination_by_groups(a: Seq<Text>, b: Seq<Text>)
    ensures
        combined(a + b) == combined(seq![combined(a), combined(b)]),
{
    lemma_outcome_literals();
    let both = seq![combined(a), combined(b)];
    assert(both[0] == combined(a) && both[1] == combined(b));
    assert forall|t: Text| (a + b).contains(t) == (a.contains(t) || b.contains(t)) by {
        if a.contains(t) {
            let k = choose|k: int| 0 <= k < a.len() && a[k] == t;
            assert((a + b)[k] == t);
        }
        if b.contains(t) {
            let k = choose|k: int| 0 <= k < b.len() && b[k] == t;
            assert((a + b)[a.len() + k] == t);
        }
    }
    assert((a + b).contains("fail"@) == (a.contains("fail"@) || b.contains("fail"@)));
    assert((a + b).contains("degraded"@) == (a.contains("degraded"@) || b.contains("degraded"@)));
    assert(both.contains(combined(a)) && both.contains(combined(b)));
}

/// Ten to the power of `n`.
pub open spec fn ten_to(n: nat) -> nat
    decreases n,
{
    if n == 0 {
        1
    } else {
        10 * ten_to((n - 1) as nat)
    }
}

/// The number of a run of digits behind another one.
proof fn lemma_digits_concat(a: Text, b: Text)
    ensures
        digits_value(a + b) == digits_value(a) * ten_to(b.len()) + digits_value(b),
    decreases b.len(),
{
    if b.len() == 0 {
        assert(a + b =~= a);
        assert(ten_to(0) == 1);
        assert(digits_value(a) * 1 == digits_value(a));
    } else {
        let c = b.drop_last();
        assert((a + b).last() == b.last());
        lemma_digits_concat(a, c);
        assert((a + b).drop_last() =~= a + c);
        let d = (b.last() as int - '0' as int) as nat;
        let x = digits_value(a);
        let t = ten_to(c.len());
        assert((x * t + digits_value(c)) * 10 + d == x * (10 * t) + (digits_value(c) * 10 + d))
            by (nonlinear_arith);
    }
}

/// A run of digits denotes a number below the power of ten of its length.
proof fn lemma_digits_bound(s: Text)
    requires
        all_digits(s),
    ensures
        digits_value(s) < ten_to(s.len()),
    decreases s.len(),
{
    if s.len() > 0 {
        assert(is_digit(s.last()));
        assert forall|i: int| 0 <= i < s.drop_last().len() implies is_digit(
            #[trigger] s.drop_last()[i],
        ) by {
            assert(is_digit(s[i]));
        }
        lemma_digits_bound(s.drop_last());
    }
}

/// The decimals beyond the third.
spec fn beyond_thousandths(fraction: Text) -> Text {
    if fraction.len() > 3 {
        fraction.skip(3)
    } else {
        Seq::empty()
    }
}

/// The thousandths of a fraction are its exact thousandfold, rounded down; what
/// is missing stands in the decimals beyond the third.
proof fn lemma_thousandths(fraction: Text)
    requires
        all_digits(fraction),
    ensures
        thousandths(fraction) * ten_to(fraction.len()) <= 1000 * digits_value(fraction),
        1000 * digits_value(fraction) < (thousandths(fraction) + 1) * ten_to(fraction.len()),
        1000 * digits_value(fraction) == thousandths(fraction) * ten_to(fraction.len()) + 1000
            * digits_value(beyond_thousandths(fraction)),
{
    let k = fraction.len();
    let zeros: Text = seq!['0', '0', '0'];
    reveal_with_fuel(ten_to, 4);
    reveal_with_fuel(digits_value, 4);
    if k <= 3 {
        let pad = zeros.take(3 - k);
        assert((fraction + zeros).take(3) =~= fraction + pad);
        lemma_digits_concat(fraction, pad);
        assert(digits_value(pad) == 0) by {
            if k < 3 {
                assert(pad.drop_last() =~= zeros.take(2 - k));
                if k < 2 {
                    assert(zeros.take(2 - k).drop_last() =~= zeros.take(1 - k));
                    if k < 1 {
                        assert(zeros.take(1 - k).drop_last() =~= Seq::empty());
                    } else {
                        assert(zeros.take(1 - k) =~= Seq::empty());
                    }
                } else {
                    assert(zeros.take(2 - k) =~= Seq::empty());
                }
            } else {
                assert(pad =~= Seq::empty());
            }
        }
        let d = digits_value(fraction);
        assert(ten_to(0) == 1 && ten_to(1) == 10 && ten_to(2) == 100 && ten_to(3) == 1000);
        let m = ten_to(k);
        let pad_scale = ten_to(pad.len());
        let t = thousandths(fraction);
        assert(m * pad_scale == 1000) by (nonlinear_arith)
            requires
                (m == 1 && pad_scale == 1000) || (m == 10 && pad_scale == 100) || (m == 100
                    && pad_scale == 10) || (m == 1000 && pad_scale == 1),
        ;
        assert(t * m == 1000 * d) by (nonlinear_arith)
            requires
                t == d * pad_scale,
                m * pad_scale == 1000,
        ;
        assert((t + 1) * m == t * m + m) by (nonlinear_arith);
    } else {
        let head = fraction.take(3);
        let tail = fraction.skip(3);
        assert((fraction + zeros).take(3) =~= head);
        assert(head + tail =~= fraction);
        lemma_digits_concat(head, tail);
        assert forall|i: int| 0 <= i < tail.len() implies is_digit(#[trigger] tail[i]) by {
            assert(is_digit(fraction[i + 3]));
        }
        lemma_digits_bound(tail);
        let t = ten_to(tail.len());
        assert(ten_to(k) == 1000 * t) by {
            assert(ten_to(k) == 10 * ten_to((k - 1) as nat));
            assert(ten_to((k - 1) as nat) == 10 * ten_to((k - 2) as nat));
            assert(ten_to((k - 2) as nat) == 10 * ten_to((k - 3) as nat));
        }
        let p = digits_value(head);
        let q = digits_value(tail);
        let m = ten_to(k);
        assert(p * m <= 1000 * (p * t + q)) by (nonlinear_arith)
            requires
                m == 1000 * t,
        ;
        assert(1000 * (p * t + q) < (p + 1) * m) by (nonlinear_arith)
            requires
                q < t,
                m == 1000 * t,
        ;
        assert(1000 * (p * t + q) == p * m + 1000 * q) by (nonlinear_arith)
            requires
                m == 1000 * t,
        ;
        assert(digits_value(fraction) == p * t + q);
        assert(thousandths(fraction) == p);
    }
}

/// The zeros at the end of a run of digits are a power of ten.
proof fn lemma_significant(digits: Text)
    ensures
        significant(digits).len() <= digits.len(),
        digits_value(digits) == digits_value(significant(digits)) * ten_to(
            (digits.len() - significant(digits).len()) as nat,
        ),
    decreases digits.len(),
{
    if digits.len() > 0 && digits.last() == '0' {
        let init = digits.drop_last();
        lemma_significant(init);
        let v = digits_value(significant(init));
        let t = ten_to((init.len() - significant(init).len()) as nat);
        assert(ten_to((digits.len() - significant(init).len()) as nat) == 10 * t);
        assert((v * t) * 10 == v * (10 * t)) by (nonlinear_arith);
    } else {
        assert(digits_value(digits) * 1 == digits_value(digits));
    }
}

/// Powers of ten multiply.
proof fn lemma_ten_to_sum(a: nat, b: nat)
    ensures
        ten_to(a + b) == ten_to(a) * ten_to(b),
    decreases a,
{
    if a > 0 {
        lemma_ten_to_sum((a - 1) as nat, b);
        let x = ten_to((a - 1) as nat);
        let y = ten_to(b);
        assert(10 * (x * y) == (10 * x) * y) by (nonlinear_arith);
    } else {
        assert(1 * ten_to(b) == ten_to(b));
    }
}

/// The milliseconds of a seconds component are exact: the whole ones and the
/// decimals behind them denote the thousandfold of the number. (With `k`
/// decimals a number denotes `digits / 10^k`, `digits` being all of its digits
/// in a row.)
pub proof fn law_milliseconds_are_exact(number: Text)
    requires
        is_decimal_number(number),
    ensures
        ({
            let digits = digits_value(whole_part(number) + fraction_part(number));
            let scale = ten_to(fraction_part(number).len());
            let decimals = seconds_decimals(number.push('S'));
            &&& seconds_ms(number.push('S')) matches Some(ms) && 1000 * digits * ten_to(
                decimals.len(),
            ) == (ms * ten_to(decimals.len()) + digits_value(decimals)) * scale
        }),
{
    let seconds = number.push('S');
    assert(seconds.drop_last() =~= number);
    let whole = digits_value(whole_part(number));
    let fraction = fraction_part(number);
    let beyond = beyond_thousandths(fraction);
    let decimals = seconds_decimals(seconds);
    lemma_digits_concat(whole_part(number), fraction);
    lemma_thousandths(fraction);
    lemma_significant(beyond);
    assert(decimals == significant(beyond));
    let z = (beyond.len() - decimals.len()) as nat;
    lemma_ten_to_sum(decimals.len(), z);
    let scale = ten_to(fraction.len());
    let f = digits_value(fraction);
    let t = thousandths(fraction);
    let v = digits_value(decimals);
    let d = ten_to(decimals.len());
    let zeros = ten_to(z);
    let digits = whole * scale + f;
    let ms = whole * 1000 + t;
    if fraction.len() > 3 {
        lemma_ten_to_sum(3, beyond.len());
        reveal_with_fuel(ten_to, 4);
        assert(ten_to(3) == 1000);
        assert(scale == 1000 * (d * zeros));
        assert(1000 * digits * d == (ms * d + v) * scale) by (nonlinear_arith)
            requires
                scale == 1000 * (d * zeros),
                1000 * f == t * scale + 1000 * (v * zeros),
                digits == whole * scale + f,
                ms == whole * 1000 + t,
        ;
    } else {
        assert(v == 0 && d == 1);
        assert(1000 * digits * d == (ms * d + v) * scale) by (nonlinear_arith)
            requires
                v == 0,
                d == 1,
                1000 * f == t * scale,
                digits == whole * scale + f,
                ms == whole * 1000 + t,
        ;
    }
    assert(seconds.last() == 'S');
    assert(seconds_ms(seconds) == Some((whole * 1000 + t) as nat));
}

/// The decimals that a budget has beyond its whole milliseconds never change
/// a reading. With `k` decimals, a seconds component denotes exactly
/// `digits / 10^k` seconds, `digits` being all of its digits in a row; an age
/// of whole seconds stays in the budget of `other_ms` milliseconds and that
/// component exactly when it stays in the budget of the whole milliseconds.
pub proof fn law_decimals_never_matter(number: Text, other_ms: nat, age_secs: int)
    requires
        is_decimal_number(number),
    ensures
        ({
            let digits = digits_value(whole_part(number) + fraction_part(number));
            let scale = ten_to(fraction_part(number).len());
            let ms = digits_value(whole_part(number)) * 1000 + thousandths(fraction_part(number));
            age_secs * 1000 * scale <= other_ms * scale + 1000 * digits <==> age_secs * 1000
                <= other_ms + ms
        }),
{
    let whole = digits_value(whole_part(number));
    let fraction = fraction_part(number);
    let scale = ten_to(fraction.len());
    let f = digits_value(fraction);
    let t = thousandths(fraction);
    lemma_digits_concat(whole_part(number), fraction);
    lemma_thousandths(fraction);
    lemma_digits_bound(fraction);
    let digits = whole * scale + f;
    let a = age_secs * 1000;
    let floor = other_ms + whole * 1000 + t;
    let exact = other_ms * scale + 1000 * digits;
    assert(floor * scale <= exact) by (nonlinear_arith)
        requires
            t * scale <= 1000 * f,
            digits == whole * scale + f,
            floor == other_ms + whole * 1000 + t,
            exact == other_ms * scale + 1000 * digits,
    ;
    assert(exact < (floor + 1) * scale) by (nonlinear_arith)
        requires
            1000 * f < (t + 1) * scale,
            digits == whole * scale + f,
            floor == other_ms + whole * 1000 + t,
            exact == other_ms * scale + 1000 * digits,
    ;
    if a <= floor {
        assert(a * scale <= floor * scale) by (nonlinear_arith)
            requires
                a <= floor,
        ;
    } else {
        assert((floor + 1) * scale <= a * scale) by (nonlinear_arith)
            requires
                floor + 1 <= a,
        ;
    }
}

/// Evidence that is dated ahead of the instant reads fresh under every
/// well-formed budget, and evidence only ever turns from fresh to stale as
/// time passes.
pub proof fn law_freshness_over_time(as_of: i64, required: Text, now: i64, later: i64)
    requires
        now <= later,
    ensures
        now <= as_of && duration_ms(required) is Some ==> freshness_reading(
            Some(as_of),
            Some(required),
            now,
        ) is Fresh,
        freshness_reading(Some(as_of), Some(required), later) is Fresh ==> freshness_reading(
            Some(as_of),
            Some(required),
            now,
        ) is Fresh,
{
}

/// Only what is neither tainted, nor outside its validity window, nor stale,
/// and whose every signature verified, passes; a taint, a window missed, a
/// stale recall and a failed signature fail under every reading; stale
/// evidence and an unsupported suite never pass.
pub proof fn law_outcomes<S: CryptoSlot>(document: &Passport, options: VerifyView<S>)
    ensures
        ({
            let v = verdict_on(document, options);
            &&& v.outcome == "fail"@ <==> fails(document, options)
            &&& v.outcome == "degraded"@ <==> !fails(document, options) && degrades(
                document,
                options,
            )
            &&& v.outcome == "pass"@ <==> !fails(document, options) && !degrades(document, options)
            &&& is_tainted(options.tainted, document.passport_id@) ==> v.outcome
                == "fail"@
            &&& outside_window(document, options.now.secs) ==> v.outcome == "fail"@
            &&& v.freshness is Stale ==> v.outcome != "pass"@
            &&& v.freshness is Stale && document.log.safety_flag is Raised ==> v.outcome == "fail"@
            &&& v.outcome == "pass"@ ==> tallied(
                document,
                options,
                document.event_signatures@,
                Tally::Verified,
            ) == document.event_signatures@.len()
        }),
{
    lemma_outcome_literals();
    lemma_tallies(document, options, document.event_signatures@);
}

/// The coverage adds up: every signature is verified, failed or unsupported;
/// no more checks pass than were made; the shares are at most one.
pub proof fn law_coverage_adds_up<S: CryptoSlot>(document: &Passport, options: VerifyView<S>)
    requires
        document.event_signatures@.len() + 3 <= usize::MAX,
    ensures
        ({
            let c = verdict_on(document, options).coverage;
            &&& c.signatures_total == document.event_signatures@.len()
            &&& c.signatures_total == c.signatures_verified + c.signatures_failed
                + c.signatures_unsupported
            &&& c.passed <= c.checks
            &&& c.anchor_coverage.part <= c.anchor_coverage.of
            &&& c.trust_coverage.part <= c.trust_coverage.of == 1
        }),
{
    lemma_tallies(document, options, document.event_signatures@);
}

/// A signature under a suite that routes nowhere, or to a placeholder, never
/// counts as verified: it degrades the verdict, whatever it signs.
pub proof fn law_unsupported_degrades<S: CryptoSlot>(
    document: &Passport,
    options: VerifyView<S>,
    i: int,
)
    requires
        0 <= i < document.event_signatures@.len(),
        signed_event(document.log.sealed@, document.event_signatures@[i].seq) is Some,
        document.event_signatures@[i].signature is Some,
        routed(options.slots, document.event_signatures@[i].suite@) matches Some(slot)
            ==> !slot.can_verify(),
    ensures
        !counts(document, options, document.event_signatures@[i], Tally::Verified),
        verdict_on(document, options).outcome != "pass"@,
{
    lemma_outcome_literals();
    lemma_tally_member(document, options, document.event_signatures@, i, Tally::Unsupported);
}

/// One signature that counts makes the tally positive.
proof fn lemma_tally_member<S: CryptoSlot>(
    document: &Passport,
    options: VerifyView<S>,
    framings: Seq<EventSignature>,
    i: int,
    tally: Tally,
)
    requires
        0 <= i < framings.len(),
        counts(document, options, framings[i], tally),
    ensures
        tallied(document, options, framings, tally) > 0,
    decreases framings.len(),
{
    if i < framings.len() - 1 {
        lemma_tally_member(document, options, framings.drop_last(), i, tally);
    }
}

/// Two verifications with the same slots and anchors treat every signature
/// alike.
proof fn lemma_same_framings<S: CryptoSlot>(
    document: &Passport,
    a: VerifyView<S>,
    b: VerifyView<S>,
    framings: Seq<EventSignature>,
    tally: Tally,
)
    requires
        a.slots == b.slots,
        a.anchors == b.anchors,
    ensures
        tallied(document, a, framings, tally) == tallied(document, b, framings, tally),
        framing_findings(document, a, framings) == framing_findings(document, b, framings),
    decreases framings.len(),
{
    if framings.len() > 0 {
        lemma_same_framings(document, a, b, framings.drop_last(), tally);
    }
}

/// A marker below the required one is a warning and no more: whatever marker
/// is required, the outcome, the freshness and the marker achieved stay.
pub proof fn law_minimum_marker_only_warns<S: CryptoSlot>(
    document: &Passport,
    a: VerifyView<S>,
    b: VerifyView<S>,
)
    requires
        a.slots == b.slots,
        a.anchors == b.anchors,
        a.tainted == b.tainted,
        a.required_freshness == b.required_freshness,
        a.now == b.now,
    ensures
        verdict_on(document, a).outcome == verdict_on(document, b).outcome,
        verdict_on(document, a).freshness == verdict_on(document, b).freshness,
        verdict_on(document, a).achieved_marker == verdict_on(document, b).achieved_marker,
{
    let framings = document.event_signatures@;
    lemma_same_framings(document, a, b, framings, Tally::Verified);
    lemma_same_framings(document, a, b, framings, Tally::Failed);
    lemma_same_framings(document, a, b, framings, Tally::Unsupported);
    lemma_same_framings(document, a, b, framings, Tally::Attested);
}

/// The verdict on a document without signatures: it fails where the document is
/// tainted, where the instant lies before or after its validity window, or
/// where a recall stands on stale evidence; otherwise it is degraded where the
/// evidence is stale, and passes where it is not. Evidence is fresh while its
/// age, in milliseconds, stays in the required duration, and unknown where
/// either of them is missing or the duration is malformed. Nothing is achieved
/// but the schema, the window and the freshness, each a check.
pub proof fn law_verdict_without_signatures<S: CryptoSlot>(
    document: &Passport,
    options: VerifyView<S>,
)
    requires
        document.event_signatures@.len() == 0,
    ensures
        ({
            let v = verdict_on(document, options);
            let tainted = options.tainted.contains(document.passport_id@);
            let early = options.now.secs < document.validity.from.secs;
            let late = document.validity.to matches Some(to) && to.secs < options.now.secs;
            let stale = document.log.last_event_at matches Some(last) && (
            options.required_freshness matches Some(required) && (duration_ms(
                required,
            ) matches Some(budget) && budget < (options.now.secs - last.secs) * 1000));
            let fresh = document.log.last_event_at matches Some(last) && (
            options.required_freshness matches Some(required) && (duration_ms(
                required,
            ) matches Some(budget) && (options.now.secs - last.secs) * 1000 <= budget));
            let recalled = stale && document.log.safety_flag is Raised;
            &&& v.outcome == (if tainted || early || late || recalled {
                "fail"@
            } else if stale {
                "degraded"@
            } else {
                "pass"@
            })
            &&& v.freshness == (if stale {
                Freshness::Stale
            } else if fresh {
                Freshness::Fresh
            } else {
                Freshness::Unknown
            })
            &&& v.reading == options.reading
            &&& v.as_of == options.now
            &&& v.achieved_marker == "unsigned"@
            &&& v.coverage.checks == 3
            &&& v.coverage.passed == 1 + (if early || late {
                0int
            } else {
                1int
            }) + (if fresh {
                1int
            } else {
                0int
            })
            &&& v.coverage.signatures_total == 0
            &&& v.coverage.signatures_verified == 0
            &&& v.coverage.signatures_failed == 0
            &&& v.coverage.signatures_unsupported == 0
            &&& v.coverage.anchor_coverage.part == 0
            &&& v.coverage.anchor_coverage.of == 1
            &&& v.coverage.trust_coverage.of == 1
            &&& v.coverage.trust_coverage.part == 1 <==> grade(options.minimum_marker) == 0
            &&& v.findings.len() == (if tainted {
                1int
            } else {
                0int
            }) + (if early || late {
                1int
            } else {
                0int
            }) + (if recalled {
                1int
            } else {
                0int
            }) + (if grade(options.minimum_marker) > 0 {
                1int
            } else {
                0int
            })
            &&& tainted ==> v.findings[0].severity == "error"@ && v.findings[0].code == "tainted"@
                && v.findings[0].message == "passport "@ + document.passport_id@ + " is tainted"@
            &&& (early || late) ==> ({
                let f = v.findings[if tainted {
                    1int
                } else {
                    0int
                }];
                &&& f.severity == "error"@
                &&& f.code == "validity-window"@
                &&& f.message == "document outside validity window ["@
                    + document.validity.from.text@ + ", "@ + (match document.validity.to {
                    Some(to) => to.text@,
                    None => "open"@,
                }) + "]"@
            })
            &&& recalled && grade(options.minimum_marker) == 0 ==> v.findings.last().severity
                == "error"@ && v.findings.last().code == "recall-stale"@
                && v.findings.last().message
                == "recall flag present but data is stale — cannot pass"@
            &&& grade(options.minimum_marker) > 0 ==> v.findings.last().severity == "warning"@
                && v.findings.last().code == "below-minimum-marker"@ && v.findings.last().message
                == "achieved "@ + "unsigned"@ + ", below required "@ + options.minimum_marker
        }),
{
    lemma_marker_literals();
    assert(framing_findings(document, options, document.event_signatures@) =~= Seq::empty());
}

/// What one more recorded signature changes of a verdict. It is put to the slot
/// that its suite routes to exactly where its event is sealed under the number
/// that it names, its bytes are read, the slot verifies and its key is anchored.
/// It then counts as verified exactly where the slot accepts those bytes over
/// the canonical body of that event under that key. A suite without a verifier
/// counts as unsupported and degrades, anything else that is not accepted counts
/// as failed and fails; each is a finding. An accepted signature raises the
/// achieved marker: to third-party-attested, or to self-declared under a test
/// suite. Nothing else changes.
pub proof fn law_one_more_signature<S: CryptoSlot>(
    document: &Passport,
    signed: &Passport,
    options: VerifyView<S>,
    f: EventSignature,
)
    requires
        signed.event_signatures@ == document.event_signatures@.push(f),
        signed.passport_id == document.passport_id,
        signed.validity == document.validity,
        signed.log == document.log,
        signed.event_signatures@.len() + 3 <= usize::MAX,
    ensures
        ({
            let v = verdict_on(document, options);
            let w = verdict_on(signed, options);
            let sealed = document.log.sealed@;
            let read = f.seq < sealed.len() && sealed[f.seq as int].seq == f.seq
                && f.signature is Some;
            let verifier = routed(options.slots, f.suite@) matches Some(slot) && slot.can_verify();
            let checked = read && verifier && options.anchors.contains_key(f.key_id@);
            let accepted = checked && routed(options.slots, f.suite@).unwrap().accepts(
                SignatureCheck {
                    suite: f.suite@,
                    payload: match sealed[f.seq as int].canonical_body {
                        Some(body) => body@,
                        None => Seq::empty(),
                    },
                    signature: f.signature.unwrap()@,
                    key_id: f.key_id@,
                    anchor: options.anchors[f.key_id@],
                },
            );
            let unsupported = read && !verifier;
            let failed = !accepted && !unsupported;
            let one = |b: bool|
                if b {
                    1int
                } else {
                    0int
                };
            &&& w.coverage.signatures_total == v.coverage.signatures_total + 1
            &&& w.coverage.signatures_verified == v.coverage.signatures_verified + one(accepted)
            &&& w.coverage.signatures_failed == v.coverage.signatures_failed + one(failed)
            &&& w.coverage.signatures_unsupported == v.coverage.signatures_unsupported + one(
                unsupported,
            )
            &&& w.coverage.checks == v.coverage.checks + one(checked)
            &&& w.coverage.passed == v.coverage.passed + one(accepted)
            &&& w.coverage.anchor_coverage.part == v.coverage.anchor_coverage.part + one(checked)
            &&& w.coverage.anchor_coverage.of == w.coverage.signatures_total
            &&& w.outcome == (if v.outcome == "fail"@ || failed {
                "fail"@
            } else if v.outcome == "degraded"@ || unsupported {
                "degraded"@
            } else {
                "pass"@
            })
            &&& w.achieved_marker == (if !accepted {
                v.achieved_marker
            } else if !holds_text(f.suite@, "testmac"@) {
                "third-party-attested"@
            } else if v.achieved_marker == "unsigned"@ {
                "self-declared"@
            } else {
                v.achieved_marker
            })
            &&& w.freshness == v.freshness
            &&& w.reading == v.reading
            &&& w.as_of == v.as_of
            &&& options.minimum_marker == "unsigned"@ && accepted ==> w.findings == v.findings
            &&& options.minimum_marker == "unsigned"@ && !accepted ==> w.findings.len()
                == v.findings.len() + 1 && w.findings.drop_last() == v.findings
                && w.findings.last().severity == (if unsupported {
                "warning"@
            } else {
                "error"@
            }) && w.findings.last().code == (if unsupported {
                "suite-unsupported"@
            } else if read && !checked {
                "key-unanchored"@
            } else {
                "signature-invalid"@
            })
            &&& options.minimum_marker == "unsigned"@ && !accepted ==> w.findings.last().message
                == (if !(f.seq < sealed.len() && sealed[f.seq as int].seq == f.seq) {
                "signature names seq "@ + decimal(f.seq as nat) + " but no such event is sealed"@
            } else if f.signature is None {
                "signature by "@ + f.key_id@ + " ("@ + f.suite@ + ") is not valid hex"@
            } else if unsupported {
                match routed(options.slots, f.suite@) {
                    Some(slot) => "suite "@ + f.suite@ + " unsupported: "@ + (
                    match slot.stated_reason() {
                        Some(reason) => reason,
                        None => "slot reports unsupported"@,
                    }),
                    None => "no crypto slot for suite "@ + f.suite@
                        + " (profile-bound suite; register the binding)"@,
                }
            } else if !checked {
                "keyId "@ + f.key_id@ + " not in cached trust anchors"@
            } else {
                "signature by "@ + f.key_id@ + " ("@ + f.suite@ + ") failed verification"@
            })
        }),
{
    let before = document.event_signatures@;
    let after = signed.event_signatures@;
    assert(after.drop_last() =~= before);
    assert(after.last() == f);
    lemma_outcome_literals();
    lemma_marker_literals();
    lemma_tallies(document, options, before);
    lemma_tallies(signed, options, after);
    lemma_same_document(document, signed, options, before, Tally::Verified);
    lemma_same_document(document, signed, options, before, Tally::Failed);
    lemma_same_document(document, signed, options, before, Tally::Unsupported);
    lemma_same_document(document, signed, options, before, Tally::Anchored);
    lemma_same_document(document, signed, options, before, Tally::Attested);
    let v = verdict_on(document, options);
    let w = verdict_on(signed, options);
    let head = finding_list(taint_finding(document, options)) + finding_list(
        window_finding(document, options),
    ) + finding_list(recall_finding(document, options));
    let found = framing_findings(document, options, before);
    let last = finding_list(framing_finding(signed, options, f));
    if options.minimum_marker == "unsigned"@ {
        assert(v.findings =~= head + found);
        assert(w.findings =~= head + found + last);
        if last.len() == 1 {
            assert(w.findings.drop_last() =~= v.findings);
            assert(w.findings.last() == last[0]);
        }
    }
}

/// Documents with one log treat every signature alike.
proof fn lemma_same_document<S: CryptoSlot>(
    a: &Passport,
    b: &Passport,
    options: VerifyView<S>,
    framings: Seq<EventSignature>,
    tally: Tally,
)
    requires
        a.log == b.log,
    ensures
        tallied(a, options, framings, tally) == tallied(b, options, framings, tally),
        framing_findings(a, options, framings) == framing_findings(b, options, framings),
    decreases framings.len(),
{
    if framings.len() > 0 {
        lemma_same_document(a, b, options, framings.drop_last(), tally);
    }
}

/// A signature is bound to the event that it names: where two logs hold one
/// event under that number, whatever else they hold, one of them verifies it
/// exactly where the other does, and a signature verifies only over the body of
/// that event.
pub proof fn law_signature_is_bound_to_its_event<S: CryptoSlot>(
    a: &Passport,
    b: &Passport,
    options: VerifyView<S>,
    f: EventSignature,
)
    requires
        a.event_signatures@ == seq![f],
        b.event_signatures@ == seq![f],
        f.seq < a.log.sealed@.len(),
        f.seq < b.log.sealed@.len(),
        a.log.sealed@[f.seq as int].seq == f.seq,
        b.log.sealed@[f.seq as int].seq == f.seq,
        a.log.sealed@[f.seq as int].canonical_body == b.log.sealed@[f.seq as int].canonical_body,
    ensures
        verdict_on(a, options).coverage.signatures_verified == verdict_on(
            b,
            options,
        ).coverage.signatures_verified,
        verdict_on(a, options).coverage.signatures_failed == verdict_on(
            b,
            options,
        ).coverage.signatures_failed,
        verdict_on(a, options).achieved_marker == verdict_on(b, options).achieved_marker,
        a.log.sealed@[f.seq as int].canonical_body matches Some(body) && (forall|check: SignatureCheck|
            check.payload == body@ ==> !(#[trigger] routed(
                options.slots,
                f.suite@,
            ).unwrap().accepts(check))) ==> verdict_on(a, options).coverage.signatures_verified
            == 0,
{
    assert(seq![f].drop_last() =~= Seq::<EventSignature>::empty());
    assert(seq![f].last() == f);
    reveal_with_fuel(tallied, 2);
}

/// The wire form of a verdict says what the verdict says, member by member.
pub proof fn law_verdict_wire_form(v: VerdictView, i: int)
    ensures
        v.dict().text_at("reading"@) == Some(v.reading),
        v.dict().text_at("outcome"@) == Some(v.outcome),
        v.dict().text_at("achievedMarker"@) == Some(v.achieved_marker),
        v.dict().text_at("asOf"@) == Some(v.as_of.text@),
        v.dict().text_at("freshness"@) == Some(
            match v.freshness {
                Freshness::Fresh => "fresh"@,
                Freshness::Stale => "stale"@,
                Freshness::Unknown => "unknown"@,
            },
        ),
        v.dict().items_at("findings"@) matches Some(findings) && findings.len() == v.findings.len()
            && (0 <= i < findings.len() ==> findings[i].text_at("severity"@) == Some(
            v.findings[i].severity,
        ) && findings[i].text_at("code"@) == Some(v.findings[i].code) && findings[i].text_at(
            "message"@,
        ) == Some(v.findings[i].message)),
        v.dict().member("coverage"@) matches Some(c) && c.member("checks"@) == Some(
            JsonView::Unsigned(v.coverage.checks as u64),
        ) && c.member("passed"@) == Some(JsonView::Unsigned(v.coverage.passed as u64)) && c.member(
            "anchorCoverage"@,
        ) == Some(
            JsonView::Ratio(
                v.coverage.anchor_coverage.part as u64,
                v.coverage.anchor_coverage.of as u64,
            ),
        ) && c.member("trustCoverage"@) == Some(
            JsonView::Ratio(
                v.coverage.trust_coverage.part as u64,
                v.coverage.trust_coverage.of as u64,
            ),
        ) && (c.member("signatures"@) matches Some(s) && s.member("total"@) == Some(
            JsonView::Unsigned(v.coverage.signatures_total as u64),
        ) && s.member("verified"@) == Some(
            JsonView::Unsigned(v.coverage.signatures_verified as u64),
        ) && s.member("failed"@) == Some(
            JsonView::Unsigned(v.coverage.signatures_failed as u64),
        ) && s.member("unsupported"@) == Some(
            JsonView::Unsigned(v.coverage.signatures_unsupported as u64),
        )),
{
    lemma_verdict_names();
    let findings = v.dict().items_at("findings"@).unwrap();
    if 0 <= i < findings.len() {
        assert(findings[i] == v.findings[i].dict());
    }
}

/// The member names of a verdict, told apart.
proof fn lemma_verdict_names()
    ensures
        "reading"@.len() == 7,
        "outcome"@.len() == 7 && "outcome"@[0] == 'o' && "reading"@[0] == 'r',
        "freshness"@.len() == 9,
        "coverage"@.len() == 8 && "coverage"@[0] == 'c',
        "findings"@.len() == 8 && "findings"@[0] == 'f',
        "asOf"@.len() == 4,
        "achievedMarker"@.len() == 14 && "achievedMarker"@[0] == 'a',
        "severity"@.len() == 8,
        "code"@.len() == 4,
        "message"@.len() == 7,
        "checks"@.len() == 6 && "checks"@[0] == 'c',
        "passed"@.len() == 6 && "passed"@[0] == 'p',
        "signatures"@.len() == 10,
        "anchorCoverage"@.len() == 14,
        "trustCoverage"@.len() == 13,
        "total"@.len() == 5,
        "verified"@.len() == 8,
        "failed"@.len() == 6,
        "unsupported"@.len() == 11,
{
    reveal_strlit("reading");
    reveal_strlit("outcome");
    reveal_strlit("freshness");
    reveal_strlit("coverage");
    reveal_strlit("findings");
    reveal_strlit("asOf");
    reveal_strlit("achievedMarker");
    reveal_strlit("severity");
    reveal_strlit("code");
    reveal_strlit("message");
    reveal_strlit("checks");
    reveal_strlit("passed");
    reveal_strlit("signatures");
    reveal_strlit("anchorCoverage");
    reveal_strlit("trustCoverage");
    reveal_strlit("total");
    reveal_strlit("verified");
    reveal_strlit("failed");
    reveal_strlit("unsupported");
}

/// A component of digits and a unit at the front of a text is read off whole.
proof fn lemma_unit(n: nat, unit: char, rest: Text)
    requires
        !is_digit(unit),
    ensures
        unit_count(decimal(n) + seq![unit] + rest, unit) == n,
        unit_rest(decimal(n) + seq![unit] + rest, unit) == rest,
{
    law_decimal_reads_back(n, n);
    let count = decimal(n);
    assert(!count.contains(unit)) by {
        if count.contains(unit) {
            let k = choose|k: int| 0 <= k < count.len() && count[k] == unit;
            assert(is_digit(count[k]));
        }
    }
    law_splitting(count, unit, rest);
}

/// A duration is the sum of its parts: `PnDTnHnMnS` has as many milliseconds as
/// its days, hours, minutes and seconds have.
pub proof fn law_durations_add_up(days: nat, hours: nat, minutes: nat, seconds: nat)
    ensures
        duration_ms(
            "P"@ + decimal(days) + "DT"@ + decimal(hours) + "H"@ + decimal(minutes) + "M"@
                + decimal(seconds) + "S"@,
        ) == Some(
            (((days * 24 + hours) * 60 + minutes) * 60 + seconds) * 1000,
        ),
        duration_ms("P"@ + decimal(days) + "D"@) == Some(days * 24 * 60 * 60 * 1000),
        duration_ms("PT"@ + decimal(hours) + "H"@) == Some(hours * 60 * 60 * 1000),
        duration_ms("PT"@ + decimal(minutes) + "M"@) == Some(minutes * 60 * 1000),
        duration_ms("PT"@ + decimal(seconds) + "S"@) == Some(seconds * 1000),
{
    lemma_whole_duration(days, hours, minutes, seconds);
    lemma_time(hours, minutes, seconds);
    lemma_days(days);
    lemma_alone(decimal(days), decimal(hours), decimal(minutes), decimal(seconds));
    lemma_only_time(decimal(hours) + seq!['H'], "PT"@ + decimal(hours) + "H"@);
    lemma_only_time(decimal(minutes) + seq!['M'], "PT"@ + decimal(minutes) + "M"@);
    lemma_only_time(decimal(seconds) + seq!['S'], "PT"@ + decimal(seconds) + "S"@);
}

/// A duration with all its parts.
proof fn lemma_whole_duration(days: nat, hours: nat, minutes: nat, seconds: nat)
    ensures
        duration_ms(
            "P"@ + decimal(days) + "DT"@ + decimal(hours) + "H"@ + decimal(minutes) + "M"@
                + decimal(seconds) + "S"@,
        ) == Some(
            (((days * 24 + hours) * 60 + minutes) * 60 + seconds) * 1000,
        ),
{
    lemma_time(hours, minutes, seconds);
    lemma_days(days);
    let day_part = decimal(days) + seq!['D'];
    let time = decimal(hours) + seq!['H'] + (decimal(minutes) + seq!['M'] + (decimal(seconds) + seq![
        'S',
    ]));
    lemma_assembled(decimal(days), decimal(hours), decimal(minutes), decimal(seconds));
    lemma_days_and_time(
        day_part,
        time,
        "P"@ + decimal(days) + "DT"@ + decimal(hours) + "H"@ + decimal(minutes) + "M"@ + decimal(
            seconds,
        ) + "S"@,
    );
    assert((((days * 24 + hours) * 60 + minutes) * 60 + seconds) * 1000 == days * 86_400_000 + (hours
        * 3_600_000 + minutes * 60_000 + seconds * 1000)) by (nonlinear_arith);
}

/// The text of a duration with all its parts.
proof fn lemma_assembled(d: Text, h: Text, m: Text, s: Text)
    ensures
        ({
            let whole = "P"@ + d + "DT"@ + h + "H"@ + m + "M"@ + s + "S"@;
            &&& whole.len() > 0
            &&& whole[0] == 'P'
            &&& whole.skip(1) == (d + seq!['D']) + seq!['T'] + (h + seq!['H'] + (m + seq!['M'] + (s
                + seq!['S'])))
        }),
{
    reveal_strlit("P");
    reveal_strlit("DT");
    reveal_strlit("H");
    reveal_strlit("M");
    reveal_strlit("S");
    let whole = "P"@ + d + "DT"@ + h + "H"@ + m + "M"@ + s + "S"@;
    assert(whole.skip(1) =~= (d + seq!['D']) + seq!['T'] + (h + seq!['H'] + (m + seq!['M'] + (s
        + seq!['S']))));
}

/// The texts of durations with one part.
proof fn lemma_alone(d: Text, h: Text, m: Text, s: Text)
    ensures
        ("P"@ + d + "D"@)[0] == 'P',
        ("P"@ + d + "D"@).len() == d.len() + 2,
        ("P"@ + d + "D"@).skip(1) == d + seq!['D'],
        ("PT"@ + h + "H"@).len() == h.len() + 3,
        ("PT"@ + h + "H"@)[0] == 'P' && ("PT"@ + h + "H"@)[1] == 'T',
        ("PT"@ + h + "H"@).skip(2) == h + seq!['H'],
        ("PT"@ + m + "M"@).len() == m.len() + 3,
        ("PT"@ + m + "M"@)[0] == 'P' && ("PT"@ + m + "M"@)[1] == 'T',
        ("PT"@ + m + "M"@).skip(2) == m + seq!['M'],
        ("PT"@ + s + "S"@).len() == s.len() + 3,
        ("PT"@ + s + "S"@)[0] == 'P' && ("PT"@ + s + "S"@)[1] == 'T',
        ("PT"@ + s + "S"@).skip(2) == s + seq!['S'],
{
    reveal_strlit("P");
    reveal_strlit("PT");
    reveal_strlit("D");
    reveal_strlit("H");
    reveal_strlit("M");
    reveal_strlit("S");
    assert(("P"@ + d + "D"@).skip(1) =~= d + seq!['D']);
    assert(("PT"@ + h + "H"@).skip(2) =~= h + seq!['H']);
    assert(("PT"@ + m + "M"@).skip(2) =~= m + seq!['M']);
    assert(("PT"@ + s + "S"@).skip(2) =~= s + seq!['S']);
}

/// A duration of days and a time.
proof fn lemma_days_and_time(days: Text, time: Text, duration: Text)
    requires
        duration.len() > 0,
        duration[0] == 'P',
        duration.skip(1) == days + seq!['T'] + time,
        !days.contains('T'),
        days_ms(days) is Some,
        time_ms(time) is Some,
    ensures
        duration_ms(duration) == Some(days_ms(days).unwrap() + time_ms(time).unwrap()),
{
    law_splitting(days, 'T', time);
}

/// A duration of a time alone.
proof fn lemma_only_time(time: Text, duration: Text)
    requires
        duration.len() == time.len() + 2,
        duration[0] == 'P',
        duration[1] == 'T',
        duration.skip(2) == time,
        !time.contains('T'),
    ensures
        duration_ms(duration) == time_ms(time),
{
    let empty = Seq::<char>::empty();
    law_splitting(empty, 'T', time);
    assert(!empty.contains('T'));
    assert(duration.skip(1) =~= empty + seq!['T'] + time) by {
        assert(duration.skip(1).skip(1) =~= time);
    }
}

/// The milliseconds of a time of hours, minutes and seconds, and of each alone.
proof fn lemma_time(hours: nat, minutes: nat, seconds: nat)
    ensures
        time_ms(
            decimal(hours) + seq!['H'] + (decimal(minutes) + seq!['M'] + (decimal(seconds) + seq![
                'S',
            ])),
        ) == Some((hours * 3_600_000 + minutes * 60_000 + seconds * 1000) as nat),
        time_ms(decimal(hours) + seq!['H']) == Some((hours * 3_600_000) as nat),
        time_ms(decimal(minutes) + seq!['M']) == Some((minutes * 60_000) as nat),
        time_ms(decimal(seconds) + seq!['S']) == Some((seconds * 1000) as nat),
        !(decimal(hours) + seq!['H']).contains('T'),
        !(decimal(minutes) + seq!['M']).contains('T'),
        !(decimal(seconds) + seq!['S']).contains('T'),
{
    law_decimal_reads_back(hours, hours);
    law_decimal_reads_back(minutes, minutes);
    law_decimal_reads_back(seconds, seconds);
    lemma_seconds(seconds);
    let h = decimal(hours);
    let m = decimal(minutes);
    let s = decimal(seconds);
    let empty = Seq::<char>::empty();
    let seconds_part = s + seq!['S'];
    let minutes_part = m + seq!['M'] + seconds_part;
    lemma_unit(hours, 'H', minutes_part);
    lemma_unit(minutes, 'M', seconds_part);
    lemma_unit(hours, 'H', empty);
    assert(h + seq!['H'] + empty =~= h + seq!['H']);
    assert(!has_unit(empty, 'M'));
    lemma_unit(minutes, 'M', empty);
    assert(m + seq!['M'] + empty =~= m + seq!['M']);
    lemma_without(m, 'M', 'H');
    lemma_without(s, 'S', 'H');
    lemma_without(s, 'S', 'M');
    lemma_without(h, 'H', 'T');
    lemma_without(m, 'M', 'T');
    lemma_without(s, 'S', 'T');
}

/// Digits and a unit hold no other letter.
proof fn lemma_without(digits: Text, unit: char, other: char)
    requires
        all_digits(digits),
        unit != other,
        !is_digit(other),
    ensures
        !(digits + seq![unit]).contains(other),
{
    let s = digits + seq![unit];
    if s.contains(other) {
        let k = choose|k: int| 0 <= k < s.len() && s[k] == other;
        if k < digits.len() {
            assert(is_digit(digits[k]));
        }
    }
}

/// A number of whole seconds.
proof fn lemma_seconds(seconds: nat)
    ensures
        seconds_ms(decimal(seconds) + seq!['S']) == Some((seconds * 1000) as nat),
{
    law_decimal_reads_back(seconds, seconds);
    let s = decimal(seconds);
    let part = s + seq!['S'];
    assert(part.drop_last() =~= s);
    assert(!s.contains('.')) by {
        if s.contains('.') {
            let k = choose|k: int| 0 <= k < s.len() && s[k] == '.';
            assert(is_digit(s[k]));
        }
    }
    law_splitting(Seq::empty(), '.', s);
    lemma_no_thousandths();
}

/// No decimals are no thousandths.
proof fn lemma_no_thousandths()
    ensures
        thousandths(Seq::empty()) == 0,
{
    let zeros = (Seq::<char>::empty() + seq!['0', '0', '0']).take(3);
    assert(zeros =~= seq!['0', '0', '0']);
    assert(zeros.drop_last() =~= seq!['0', '0']);
    assert(zeros.drop_last().drop_last() =~= seq!['0']);
    assert(zeros.drop_last().drop_last().drop_last() =~= Seq::empty());
    reveal_with_fuel(digits_value, 4);
}

/// A number of days.
proof fn lemma_days(days: nat)
    ensures
        days_ms(decimal(days) + seq!['D']) == Some((days * 86_400_000) as nat),
        !(decimal(days) + seq!['D']).contains('T'),
{
    law_decimal_reads_back(days, days);
    let part = decimal(days) + seq!['D'];
    assert(part.drop_last() =~= decimal(days));
    lemma_without(decimal(days), 'D', 'T');
}

/// A duration opens with a `P` and ends in a unit, with a number between them.
pub proof fn law_durations_are_well_formed(duration: Text)
    requires
        duration_ms(duration) is Some,
    ensures
        duration.len() >= 3,
        duration[0] == 'P',
        duration.last() == 'D' || duration.last() == 'H' || duration.last() == 'M'
            || duration.last() == 'S',
{
    let body = duration.skip(1);
    assert(body.len() > 0 ==> body.last() == duration.last());
    if body.contains('T') {
        lemma_first_place(body, 'T');
        let time = after_first(body, 'T');
        assert(time.len() > 0);
        assert(time.last() == body.last());
        let after_hours = unit_rest(time, 'H');
        let after_minutes = unit_rest(after_hours, 'M');
        lemma_unit_end(time, 'H');
        if after_hours.len() > 0 {
            lemma_unit_end(after_hours, 'M');
        }
    }
}

/// What is read off the front of a text leaves its end, or is that end.
proof fn lemma_unit_end(rest: Text, unit: char)
    requires
        rest.len() > 0,
    ensures
        unit_rest(rest, unit).len() > 0 ==> unit_rest(rest, unit).last() == rest.last(),
        unit_rest(rest, unit).len() == 0 ==> rest.last() == unit,
{
    if has_unit(rest, unit) {
        let a = before_first(rest, unit);
        lemma_first_place(rest, unit);
        assert(rest[a.len() as int] == unit);
    }
}

/// The first of a character stands behind what is before it.
proof fn lemma_first_place(s: Text, c: char)
    requires
        s.contains(c),
    ensures
        before_first(s, c).len() < s.len(),
        s[before_first(s, c).len() as int] == c,
    decreases s.len(),
{
    if s[0] != c {
        let k = choose|k: int| 0 <= k < s.len() && s[k] == c;
        assert(s.skip(1)[k - 1] == c);
        lemma_first_place(s.skip(1), c);
    }
}

/// The worst outcome of a list decides: one failure fails it, one degradation
/// keeps it from passing, and a list of neither passes.
pub proof fn law_the_worst_outcome_decides(outcomes: Seq<Text>, i: int)
    requires
        0 <= i < outcomes.len(),
    ensures
        outcomes[i] == "fail"@ ==> combined(outcomes) == "fail"@,
        outcomes[i] == "degraded"@ ==> combined(outcomes) != "pass"@,
        combined(outcomes) == "fail"@ ==> outcomes.contains("fail"@),
        combined(outcomes) == "degraded"@ ==> outcomes.contains("degraded"@),
        combined(outcomes) == "fail"@ || combined(outcomes) == "degraded"@ || combined(outcomes)
            == "pass"@,
{
    lemma_outcome_literals();
}

/// In the default registry the suites of the linked verifier route to it, the
/// ECDSA suites to a slot that does not verify and says why, and every other
/// suite nowhere.
pub proof fn law_default_registry<V: CryptoSlot>(
    ed25519: V,
    registry: CryptoSlots<GatewaySlot<V>>,
    suite: Text,
)
    requires
        call_ensures(default_slots::<V>, (ed25519,), registry),
    ensures
        ({
            let ecdsa = suite == "ecdsa-p256-sha256"@ || suite == "ecdsa-p384-sha384"@;
            let slot = routed(registry.slots@, suite);
            &&& ed25519.suite_tokens().contains(suite) ==> slot == Some(
                GatewaySlot::Ed25519(ed25519),
            ) && slot.unwrap().can_verify() == ed25519.can_verify()
            &&& !ed25519.suite_tokens().contains(suite) && ecdsa ==> slot is Some
                && !slot.unwrap().can_verify() && slot.unwrap().stated_reason() == Some(
                "ECDSA verification not linked in the stdlib-only core; register a profile-bound suite binding"@,
            )
            &&& !ed25519.suite_tokens().contains(suite) && !ecdsa ==> slot is None
        }),
{
    let slots = registry.slots@;
    assert(slots.drop_last() =~= seq![GatewaySlot::Ecdsa(EcdsaNoneSlot)]);
    assert(slots.drop_last().drop_last() =~= Seq::empty());
    reveal_with_fuel(routed, 3);
    let suites = seq!["ecdsa-p256-sha256"@, "ecdsa-p384-sha384"@];
    assert(suites[0] == "ecdsa-p256-sha256"@ && suites[1] == "ecdsa-p384-sha384"@);
    assert(slots[0].suite_tokens() == suites);
}

/// A verification applies what it is asked to: the given anchors, slots, taint,
/// freshness and marker, at the given instant, to the given document; and its
/// verdict says so.
pub proof fn law_verifications<S: CryptoSlot>(
    document: &Passport,
    options: &VerifyOptions<'_, S>,
    v: Verdict,
)
    requires
        call_ensures(verify_passport::<S>, (document, options), v),
    ensures
        ({
            let asked = VerifyView {
                anchors: options.anchors.view(),
                slots: options.slots.slots@,
                reading: options.reading@,
                tainted: options.tainted_passport_ids@.map_values(|id: String| id@),
                required_freshness: match options.required_freshness {
                    Some(s) => Some(s@),
                    None => None,
                },
                minimum_marker: options.minimum_marker@,
                now: options.now,
            };
            let w = verdict_on(document, asked);
            &&& v.outcome@ == w.outcome
            &&& v.freshness == w.freshness
            &&& v.coverage == w.coverage
            &&& v.achieved_marker@ == w.achieved_marker
            &&& v.reading@ == w.reading
            &&& v.as_of == w.as_of
            &&& v.findings@.len() == w.findings.len()
            &&& forall|i: int|
                0 <= i < v.findings@.len() ==> (#[trigger] v.findings@[i]).code@
                    == w.findings[i].code && v.findings@[i].severity@ == w.findings[i].severity
                    && v.findings@[i].message@ == w.findings[i].message
        }),
{
    let asked = options.view();
    assert(asked.tainted =~= options.tainted_passport_ids@.map_values(|id: String| id@));
    let w = verdict_on(document, asked);
    assert(v.view() == w);
    assert(w.findings == finding_views(v.findings@));
    assert forall|i: int| 0 <= i < v.findings@.len() implies (#[trigger] v.findings@[i]).code@
        == w.findings[i].code && v.findings@[i].severity@ == w.findings[i].severity
        && v.findings@[i].message@ == w.findings[i].message by {
        assert(w.findings[i] == v.findings@[i].view());
    }
}

/// The age of evidence is held against its budget: an instant is fresh while the
/// budget, in whole milliseconds, is not exceeded.
pub proof fn law_freshness_is_age_against_budget(
    as_of: &Option<Timestamp>,
    required: Option<&str>,
    now: &Timestamp,
    r: Freshness,
)
    requires
        call_ensures(assess_freshness, (as_of, required, now), r),
    ensures
        as_of is None || required is None ==> r is Unknown,
        as_of matches Some(t) ==> (required matches Some(s) ==> match duration_ms(s@) {
            None => r is Unknown,
            Some(budget) => (r is Fresh <==> (now.secs - t.secs) * 1000 <= budget) && (r is Stale
                <==> (now.secs - t.secs) * 1000 > budget),
        }),
{
}

/// A registry gives out the slot that a suite routes to, and suits a suite
/// exactly where there is one.
pub proof fn law_registry_calls<S: CryptoSlot>(
    slots: &CryptoSlots<S>,
    suite: &str,
    slot: Option<&S>,
    suited: bool,
)
    requires
        call_ensures(CryptoSlots::<S>::get, (slots, suite), slot),
        call_ensures(CryptoSlots::<S>::suits, (slots, suite), suited),
    ensures
        slot matches Some(s) ==> s.suite_tokens().contains(suite@) && slots.slots@.contains(*s),
        slot is None ==> forall|i: int|
            0 <= i < slots.slots@.len() ==> !(
            #[trigger] slots.slots@[i]).suite_tokens().contains(suite@),
        suited <==> slot is Some,
{
    lemma_routed(slots.slots@, suite@);
}

/// The slot that a suite routes to is registered and advertises it.
proof fn lemma_routed<S: CryptoSlot>(slots: Seq<S>, suite: Text)
    ensures
        match routed(slots, suite) {
            Some(s) => s.suite_tokens().contains(suite) && slots.contains(s),
            None => forall|i: int|
                0 <= i < slots.len() ==> !(#[trigger] slots[i]).suite_tokens().contains(suite),
        },
    decreases slots.len(),
{
    if slots.len() > 0 {
        let init = slots.drop_last();
        lemma_routed(init, suite);
        assert(slots[slots.len() - 1] == slots.last());
        if let Some(s) = routed(init, suite) {
            let k = choose|k: int| 0 <= k < init.len() && init[k] == s;
            assert(slots[k] == s);
        }
        assert(forall|i: int| 0 <= i < init.len() ==> #[trigger] slots[i] == init[i]);
    }
}

} // verus!
