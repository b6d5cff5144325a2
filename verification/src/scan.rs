//! The scan-token gate: a deployment's policy at the edge, never
//! architecture.
//!
//! Where a scan policy is configured, the render routes require a short-lived
//! token, issued per source and throttled. Without a policy the scan gate is
//! open. An absent, unknown or expired token is a stated refusal that names the
//! policy and, for an expired one, when it died; an issuance over the limit is
//! a stated refusal too. The scan gate's state is ephemeral.
use vstd::hash_map::StringHashMap;
use vstd::prelude::*;

use crate::clock::Clock;
use crate::reply::{compact, compact_reply, error_document, error_json, Reply};
use crate::text::{
    decimal, decimal_text, digit, hex16_text, hexadecimal, opt_string, starts_with, strip_prefix,
    Text,
};
use crate::window::{
    come_in_order, has_room, law_admitted_while_few_are_recent, live, recent, stepped,
    windows_after, SlidingWindows, MINUTE,
};

verus! {

/// The configured scan policy; off where tokens have no lifetime.
#[derive(Debug, Clone, Copy, PartialEq, Eq, Structural)]
pub struct ScanPolicy {
    pub token_ttl_secs: u64,
    /// How many tokens a source gets within a minute; zero for no limit.
    pub issue_limit_per_minute: usize,
}

impl ScanPolicy {
    /// Whether the policy is on.
    pub open spec fn on(&self) -> bool {
        self.token_ttl_secs > 0
    }

    /// Whether the policy is on.
    pub fn is_on(&self) -> (r: bool)
        ensures
            r == self.on(),
    {
        self.token_ttl_secs > 0
    }

    /// The limit on issuance, where there is one.
    pub open spec fn limit(&self) -> Option<usize> {
        if self.issue_limit_per_minute > 0 {
            Some(self.issue_limit_per_minute)
        } else {
            None
        }
    }
}

/// What a request presents: the text of each header that may carry a token,
/// where it is there and is text.
#[derive(Debug)]
pub struct ScanHeaders {
    /// `x-unidpp-scan`.
    pub scan: Option<String>,
    /// `authorization`.
    pub authorization: Option<String>,
}

impl ScanHeaders {
    /// The token that the request presents, its own header before a bearer
    /// authorization.
    pub open spec fn presented(&self) -> Option<Text> {
        match self.scan {
            Some(token) => Some(token@),
            None => match self.authorization {
                Some(value) => if starts_with(value@, "Bearer "@) {
                    Some(value@.skip("Bearer "@.len() as int))
                } else {
                    None
                },
                None => None,
            },
        }
    }

    /// The token that the request presents.
    fn token(&self) -> (r: Option<String>)
        ensures
            opt_string(r) == self.presented(),
    {
        match &self.scan {
            Some(token) => Some(token.clone()),
            None => match &self.authorization {
                Some(value) => strip_prefix(value.as_str(), "Bearer "),
                None => None,
            },
        }
    }
}

/// The name of the token with that number.
pub open spec fn token_name(seq: nat) -> Text {
    "scan-"@ + hexadecimal(seq, 16)
}

/// The number of the next token; the numbers start again behind the last one.
pub open spec fn next_number(issued: u64) -> u64 {
    if issued < u64::MAX {
        (issued + 1) as u64
    } else {
        0
    }
}

/// When a token dies that is issued at that instant, in nanoseconds; at the
/// end of the clock where its lifetime reaches beyond.
pub open spec fn expiry(now: u128, ttl_secs: u64) -> u128 {
    if now + ttl_secs * 1_000_000_000 <= u128::MAX {
        (now + ttl_secs * 1_000_000_000) as u128
    } else {
        u128::MAX
    }
}

/// The refusals of the scan gate.
pub open spec fn open_gate_message() -> Text {
    "no scan policy is configured — the scan gate is open, no token needed"@
}

pub open spec fn issuance_refusal(limit: usize) -> Text {
    "scan-token issuance limit: at most "@ + decimal(limit as nat)
        + " per source per minute — refused, retry after the window"@
}

pub open spec fn absence_refusal(ttl_secs: u64) -> Text {
    "scan token required: this gateway enforces a "@ + decimal(ttl_secs as nat)
        + " s scan policy — obtain one from POST /scan-tokens"@
}

pub open spec fn unknown_refusal(ttl_secs: u64) -> Text {
    "unknown scan token: this gateway enforces a "@ + decimal(ttl_secs as nat)
        + " s scan policy — obtain one from POST /scan-tokens"@
}

/// The whole seconds since a token died.
pub open spec fn seconds_dead(died_at: u128, now: u128) -> u64 {
    let seconds = (now - died_at) / 1_000_000_000;
    if seconds <= u64::MAX {
        seconds as u64
    } else {
        u64::MAX
    }
}

pub open spec fn expiry_refusal(ttl_secs: u64, seconds_dead: u64) -> Text {
    "scan token expired "@ + decimal(seconds_dead as nat) + " s ago — the policy window is "@
        + decimal(ttl_secs as nat) + " s; obtain a fresh one from POST /scan-tokens"@
}

/// The scan gate: the policy, the live tokens with their deaths, the issuance
/// windows by source, and the number of the last token.
pub struct ScanGate {
    policy: ScanPolicy,
    tokens: StringHashMap<u128>,
    windows: SlidingWindows,
    seq: u64,
    clock: Clock,
}

/// What the scan gate holds.
pub struct GateView {
    pub policy: ScanPolicy,
    /// When each token dies.
    pub tokens: Map<Text, u128>,
    pub windows: SlidingWindows,
    /// The number of the last token; zero before the first.
    pub issued: u64,
}

/// Whether every token of the scan gate is one that it issued.
pub open spec fn holds_issued_tokens(gate: GateView) -> bool {
    forall|t: Text| #[trigger]
        gate.tokens.contains_key(t) ==> exists|k: nat|
            1 <= k <= gate.issued && t == #[trigger] token_name(k)
}

/// Whether an issuance at that instant is answered so, and leaves that gate.
pub open spec fn issues_at(
    before: GateView,
    source: Text,
    now: u128,
    after: GateView,
    r: Result<(String, u64), String>,
) -> bool {
    if !before.policy.on() {
        after == before && (r matches Err(e) && e@ == open_gate_message())
    } else {
        let window = before.windows.window(source);
        &&& after.policy == before.policy
        &&& after.windows.view() == before.windows.view().insert(
            source,
            stepped(window, before.policy.limit(), now),
        )
        &&& if has_room(live(window, now), before.policy.limit()) {
            &&& after.issued == next_number(before.issued)
            &&& r matches Ok((token, ttl)) && token@ == token_name(after.issued as nat) && ttl
                == before.policy.token_ttl_secs && after.tokens == before.tokens.insert(
                token@,
                expiry(now, ttl),
            )
        } else {
            &&& after.issued == before.issued
            &&& after.tokens == before.tokens
            &&& r matches Err(e) && e@ == issuance_refusal(before.policy.issue_limit_per_minute)
        }
    }
}

/// Whether a request at that instant is answered so, and leaves that gate.
pub open spec fn admits_at(
    before: GateView,
    presented: Option<Text>,
    now: u128,
    after: GateView,
    r: Result<(), String>,
) -> bool {
    if !before.policy.on() {
        after == before && r is Ok
    } else {
        match presented {
            None => after == before && (r matches Err(e) && e@ == absence_refusal(
                before.policy.token_ttl_secs,
            )),
            Some(token) => if !before.tokens.contains_key(token) {
                after == before && (r matches Err(e) && e@ == unknown_refusal(
                    before.policy.token_ttl_secs,
                ))
            } else if now >= before.tokens[token] {
                after == (GateView { tokens: before.tokens.remove(token), ..before }) && (
                r matches Err(e) && e@ == expiry_refusal(
                    before.policy.token_ttl_secs,
                    seconds_dead(before.tokens[token], now),
                ))
            } else {
                after == before && r is Ok
            },
        }
    }
}

impl ScanGate {
    /// What the scan gate holds.
    pub closed spec fn view(&self) -> GateView {
        GateView {
            policy: self.policy,
            tokens: self.tokens@,
            windows: self.windows,
            issued: self.seq,
        }
    }

    /// The latest reading of the clock; zero before the first.
    pub closed spec fn read_at(&self) -> u128 {
        self.clock.latest()
    }

    /// The scan gate under a policy, with no token issued.
    pub fn new(policy: ScanPolicy) -> (r: ScanGate)
        ensures
            r.read_at() == 0,
            r.view().policy == policy,
            r.view().tokens == Map::<Text, u128>::empty(),
            r.view().windows.view() == Map::<Text, Seq<u128>>::empty(),
            r.view().issued == 0,
            holds_issued_tokens(r.view()),
    {
        ScanGate {
            policy,
            tokens: StringHashMap::new(),
            windows: SlidingWindows::new(),
            seq: 0,
            clock: Clock::start(),
        }
    }

    /// The policy of the scan gate.
    pub fn policy(&self) -> (r: ScanPolicy)
        ensures
            r == self.view().policy,
    {
        self.policy
    }

    /// Issues a token to a source at an instant. The throttle is per source
    /// per minute; the refusal states the limit.
    pub fn issue_at(&mut self, source: &str, now: u128) -> (r: Result<(String, u64), String>)
        ensures
            issues_at(old(self).view(), source@, now, final(self).view(), r),
            final(self).read_at() == old(self).read_at(),
    {
        if !self.policy.is_on() {
            return Err(
                "no scan policy is configured — the scan gate is open, no token needed".to_owned(),
            );
        }
        let limit: Option<usize> = if self.policy.issue_limit_per_minute > 0 {
            Some(self.policy.issue_limit_per_minute)
        } else {
            None
        };
        if !self.windows.admit_at(source, limit, now) {
            return Err(
                "scan-token issuance limit: at most ".to_owned().concat(
                    decimal_text(self.policy.issue_limit_per_minute as u64).as_str(),
                ).concat(" per source per minute — refused, retry after the window"),
            );
        }
        self.seq = self.seq.wrapping_add(1);
        let token = "scan-".to_owned().concat(hex16_text(self.seq).as_str());
        let ttl: u64 = self.policy.token_ttl_secs;
        let lifetime: u128 = ttl as u128 * 1_000_000_000;
        self.tokens.insert(token.clone(), now.saturating_add(lifetime));
        Ok((token, ttl))
    }

    /// Issues a token to a source at the instant that the clock now reads,
    /// which is not before any that it read.
    pub fn issue(&mut self, source: &str) -> (r: Result<(String, u64), String>)
        ensures
            final(self).read_at() >= old(self).read_at(),
            issues_at(old(self).view(), source@, final(self).read_at(), final(self).view(), r),
    {
        let now: u128 = self.clock.now();
        self.issue_at(source, now)
    }

    /// Admits a request at an instant, or states the refusal: the token is
    /// absent, unknown or expired. An expired token is forgotten.
    pub fn admit_request_at(&mut self, headers: &ScanHeaders, now: u128) -> (r: Result<(), String>)
        ensures
            admits_at(old(self).view(), headers.presented(), now, final(self).view(), r),
            final(self).read_at() == old(self).read_at(),
    {
        if !self.policy.is_on() {
            return Ok(());
        }
        let token = match headers.token() {
            Some(token) => token,
            None => {
                return Err(
                    "scan token required: this gateway enforces a ".to_owned().concat(
                        decimal_text(self.policy.token_ttl_secs).as_str(),
                    ).concat(" s scan policy — obtain one from POST /scan-tokens"),
                );
            },
        };
        let expires_at: u128 = match self.tokens.get(token.as_str()) {
            Some(t) => *t,
            None => {
                return Err(
                    "unknown scan token: this gateway enforces a ".to_owned().concat(
                        decimal_text(self.policy.token_ttl_secs).as_str(),
                    ).concat(" s scan policy — obtain one from POST /scan-tokens"),
                );
            },
        };
        if now >= expires_at {
            self.tokens.remove(token.as_str());
            let seconds: u128 = (now - expires_at) / 1_000_000_000;
            let ago: u64 = if seconds <= u64::MAX as u128 {
                seconds as u64
            } else {
                u64::MAX
            };
            Err(
                "scan token expired ".to_owned().concat(decimal_text(ago).as_str()).concat(
                    " s ago — the policy window is ",
                ).concat(decimal_text(self.policy.token_ttl_secs).as_str()).concat(
                    " s; obtain a fresh one from POST /scan-tokens",
                ),
            )
        } else {
            Ok(())
        }
    }

    /// Admits a request at the instant that the clock now reads, which is not
    /// before any that it read, or states the refusal.
    pub fn admit_request(&mut self, headers: &ScanHeaders) -> (r: Result<(), String>)
        ensures
            final(self).read_at() >= old(self).read_at(),
            admits_at(
                old(self).view(),
                headers.presented(),
                final(self).read_at(),
                final(self).view(),
                r,
            ),
    {
        let now: u128 = self.clock.now();
        self.admit_request_at(headers, now)
    }
}

/// The scan gate's refusal as a reply: 429 for an issuance over the limit, 401
/// for a token.
pub fn refusal(reason: &str, too_many: bool, as_of: &str) -> (r: Reply)
    ensures
        r.view() == compact_reply(
            if too_many {
                429
            } else {
                401
            },
            error_document(reason@),
            as_of@,
        ),
{
    let status: u16 = if too_many {
        429
    } else {
        401
    };
    compact(status, &error_json(reason), as_of)
}

// ---------------------------------------------------------------------------
// Laws
// ---------------------------------------------------------------------------

/// Numbers that fit the width have different hexadecimal forms.
proof fn lemma_hexadecimal_distinct(a: nat, b: nat, width: nat)
    requires
        hexadecimal(a, width) == hexadecimal(b, width),
        a < sixteen_to(width),
        b < sixteen_to(width),
    ensures
        a == b,
    decreases width,
{
    if width > 0 {
        let x = hexadecimal(a / 16, (width - 1) as nat);
        let y = hexadecimal(b / 16, (width - 1) as nat);
        let da = digit((a % 16) as int);
        let db = digit((b % 16) as int);
        assert(x.push(da).drop_last() =~= x);
        assert(y.push(db).drop_last() =~= y);
        assert(x.push(da).last() == da && y.push(db).last() == db);
        assert(a / 16 < sixteen_to((width - 1) as nat));
        assert(b / 16 < sixteen_to((width - 1) as nat));
        lemma_hexadecimal_distinct(a / 16, b / 16, (width - 1) as nat);
    }
}

/// Sixteen to the power of `n`.
pub open spec fn sixteen_to(n: nat) -> nat
    decreases n,
{
    if n == 0 {
        1
    } else {
        16 * sixteen_to((n - 1) as nat)
    }
}

/// Tokens with different numbers have different names.
pub proof fn law_token_names_are_distinct(a: u64, b: u64)
    requires
        token_name(a as nat) == token_name(b as nat),
    ensures
        a == b,
{
    let prefix = "scan-"@;
    assert(hexadecimal(a as nat, 16) =~= token_name(a as nat).skip(prefix.len() as int));
    assert(hexadecimal(b as nat, 16) =~= token_name(b as nat).skip(prefix.len() as int));
    assert(sixteen_to(16) == 0x1_0000_0000_0000_0000) by {
        reveal_with_fuel(sixteen_to, 17);
    }
    lemma_hexadecimal_distinct(a as nat, b as nat, 16);
}

/// A gate that is off admits every request and issues no token.
pub proof fn law_open_gate(
    before: GateView,
    presented: Option<Text>,
    source: Text,
    now: u128,
    after_request: GateView,
    admitted: Result<(), String>,
    after_issue: GateView,
    issued: Result<(String, u64), String>,
)
    requires
        !before.policy.on(),
        admits_at(before, presented, now, after_request, admitted),
        issues_at(before, source, now, after_issue, issued),
    ensures
        admitted is Ok,
        after_request == before,
        issued is Err,
        after_issue == before,
{
}

/// The scan gate only ever holds tokens that it issued, as long as their
/// numbers do not start again.
pub proof fn law_gate_holds_issued_tokens(
    before: GateView,
    source: Text,
    presented: Option<Text>,
    now: u128,
    after_issue: GateView,
    issued: Result<(String, u64), String>,
    after_request: GateView,
    admitted: Result<(), String>,
)
    requires
        holds_issued_tokens(before),
        before.issued < u64::MAX,
        issues_at(before, source, now, after_issue, issued),
        admits_at(before, presented, now, after_request, admitted),
    ensures
        holds_issued_tokens(after_issue),
        holds_issued_tokens(after_request),
{
    assert forall|t: Text| #[trigger] after_issue.tokens.contains_key(t) implies exists|k: nat|
        1 <= k <= after_issue.issued && t == #[trigger] token_name(k) by {
        if before.tokens.contains_key(t) {
            let k = choose|k: nat| 1 <= k <= before.issued && t == #[trigger] token_name(k);
            assert(1 <= k <= after_issue.issued && t == token_name(k));
        } else {
            assert(t == token_name(after_issue.issued as nat));
        }
    }
    assert forall|t: Text| #[trigger] after_request.tokens.contains_key(t) implies exists|k: nat|
        1 <= k <= after_request.issued && t == #[trigger] token_name(k) by {
        assert(before.tokens.contains_key(t));
    }
}

/// As long as the numbers do not start again, no token is issued twice, and an
/// issuance leaves every other token as it was.
pub proof fn law_issued_token_is_fresh(
    before: GateView,
    source: Text,
    now: u128,
    after: GateView,
    token: String,
    ttl: u64,
)
    requires
        holds_issued_tokens(before),
        before.issued < u64::MAX,
        issues_at(before, source, now, after, Ok((token, ttl))),
    ensures
        !before.tokens.contains_key(token@),
        forall|t: Text| #[trigger]
            before.tokens.contains_key(t) ==> after.tokens.contains_key(t) && after.tokens[t]
                == before.tokens[t],
{
    if before.tokens.contains_key(token@) {
        let k = choose|k: nat| 1 <= k <= before.issued && token@ == #[trigger] token_name(k);
        law_token_names_are_distinct(k as u64, after.issued);
    }
}

/// A token opens the scan gate from its issuance until it dies, and not after:
/// then the refusal says that it expired, and from then on that it is unknown.
pub proof fn law_token_lifetime(
    before: GateView,
    source: Text,
    issued_at: u128,
    gate: GateView,
    token: String,
    ttl: u64,
    now: u128,
    after: GateView,
    r: Result<(), String>,
    later: u128,
    last: GateView,
    again: Result<(), String>,
)
    requires
        issues_at(before, source, issued_at, gate, Ok((token, ttl))),
        admits_at(gate, Some(token@), now, after, r),
        admits_at(after, Some(token@), later, last, again),
    ensures
        now < expiry(issued_at, ttl) ==> r is Ok && after == gate,
        now >= expiry(issued_at, ttl) ==> (r matches Err(e) && e@ == expiry_refusal(
            ttl,
            seconds_dead(expiry(issued_at, ttl), now),
        )) && (again matches Err(e) && e@ == unknown_refusal(ttl)),
{
}
// ---------------------------------------------------------------------------
// Histories
// ---------------------------------------------------------------------------

/// A call on the scan gate, with its answer.
pub enum GateCall {
    Issue { source: Text, issued: Result<(String, u64), String> },
    Admit { presented: Option<Text>, admitted: Result<(), String> },
}

/// Whether a call takes the scan gate from the one to the other, at the instant
/// that its clock then reads.
pub open spec fn is_gate_step(before: ScanGate, call: GateCall, after: ScanGate) -> bool {
    &&& after.read_at() >= before.read_at()
    &&& match call {
        GateCall::Issue { source, issued } => issues_at(
            before.view(),
            source,
            after.read_at(),
            after.view(),
            issued,
        ),
        GateCall::Admit { presented, admitted } => admits_at(
            before.view(),
            presented,
            after.read_at(),
            after.view(),
            admitted,
        ),
    }
}

/// Whether the gates are those of a run of calls on a new scan gate under the
/// policy.
pub open spec fn is_gate_history(
    policy: ScanPolicy,
    calls: Seq<GateCall>,
    gates: Seq<ScanGate>,
) -> bool {
    &&& gates.len() == calls.len() + 1
    &&& gates[0].view().policy == policy
    &&& gates[0].view().tokens == Map::<Text, u128>::empty()
    &&& gates[0].view().windows.view() == Map::<Text, Seq<u128>>::empty()
    &&& gates[0].view().issued == 0
    &&& forall|i: int|
        0 <= i < calls.len() ==> is_gate_step(gates[i], #[trigger] calls[i], gates[i + 1])
}

/// The token that a call issued, where it issued one.
pub open spec fn issued_token(call: GateCall) -> Option<Text> {
    match call {
        GateCall::Issue { issued: Ok((token, _)), .. } => Some(token@),
        _ => None,
    }
}

/// Whether a call issued a token to the source.
pub open spec fn issued_to(call: GateCall, to: Text) -> bool {
    call matches GateCall::Issue { source, issued } && source == to && issued is Ok
}

/// How many of the first `n` calls of a history issued a token to the source
/// less than a minute before `now`.
pub open spec fn recent_issues(
    calls: Seq<GateCall>,
    gates: Seq<ScanGate>,
    n: int,
    source: Text,
    now: u128,
) -> nat
    decreases n,
{
    if n <= 0 {
        0
    } else {
        recent_issues(calls, gates, n - 1, source, now) + if issued_to(calls[n - 1], source)
            && gates[n].read_at() + MINUTE > now {
            1nat
        } else {
            0nat
        }
    }
}

/// The issuances that the first `n` calls ask for.
spec fn issue_requests(calls: Seq<GateCall>, gates: Seq<ScanGate>, n: int) -> Seq<(Text, u128)>
    decreases n,
{
    if n <= 0 {
        Seq::empty()
    } else {
        let before = issue_requests(calls, gates, n - 1);
        match calls[n - 1] {
            GateCall::Issue { source, .. } => before.push((source, gates[n].read_at())),
            GateCall::Admit { .. } => before,
        }
    }
}

/// The policy never changes, and the windows of a history are those of the
/// issuances it asks for.
proof fn lemma_gate_windows(
    policy: ScanPolicy,
    calls: Seq<GateCall>,
    gates: Seq<ScanGate>,
    n: int,
    source: Text,
    now: u128,
)
    requires
        is_gate_history(policy, calls, gates),
        0 <= n <= calls.len(),
        gates[n].read_at() <= now,
    ensures
        gates[n].view().policy == policy,
        policy.on() ==> gates[n].view().windows.view() == windows_after(
            issue_requests(calls, gates, n),
            policy.limit(),
        ),
        come_in_order(issue_requests(calls, gates, n), now),
        policy.on() ==> recent(issue_requests(calls, gates, n), policy.limit(), source, now)
            == recent_issues(calls, gates, n, source, now),
    decreases n,
{
    if n > 0 {
        let m = n - 1;
        let before = issue_requests(calls, gates, m);
        let requests = issue_requests(calls, gates, n);
        let at = gates[n].read_at();
        assert(is_gate_step(gates[m], calls[m], gates[n]));
        lemma_gate_windows(policy, calls, gates, m, source, at);
        lemma_gate_windows(policy, calls, gates, m, source, now);
        if let GateCall::Issue { source: asked, issued } = calls[m] {
            assert(requests.drop_last() =~= before);
            assert(requests.last() == (asked, at));
            assert forall|i: int, j: int| 0 <= i <= j < requests.len() implies (
            #[trigger] requests[i]).1 <= (#[trigger] requests[j]).1 <= now by {
                if j < before.len() {
                    assert(before[i].1 <= before[j].1 <= now);
                } else if i < before.len() {
                    assert(before[i].1 <= before[i].1 <= at);
                }
            }
        }
    }
}

/// Over any history of calls, an issuance is refused exactly where there is no
/// policy, or where as many tokens as the limit were issued to its source
/// within the last minute: refused calls, other sources and requests do not
/// count, without a limit nothing is refused under a policy, a refusal by the
/// limit names it, and the policy never changes.
pub proof fn law_issuance_within_the_limit(
    policy: ScanPolicy,
    calls: Seq<GateCall>,
    gates: Seq<ScanGate>,
    i: int,
)
    requires
        is_gate_history(policy, calls, gates),
        0 <= i < calls.len(),
    ensures
        gates[i].view().policy == policy,
        gates[i + 1].view().policy == policy,
        calls[i] matches GateCall::Issue { source, issued } ==> ({
            let used_up = policy.issue_limit_per_minute > 0 && recent_issues(
                calls,
                gates,
                i,
                source,
                gates[i + 1].read_at(),
            ) >= policy.issue_limit_per_minute;
            &&& issued is Err <==> !policy.on() || used_up
            &&& issued matches Err(e) ==> e@ == (if policy.on() {
                issuance_refusal(policy.issue_limit_per_minute)
            } else {
                open_gate_message()
            })
        }),
{
    assert(is_gate_step(gates[i], calls[i], gates[i + 1]));
    let now = gates[i + 1].read_at();
    lemma_gate_windows(policy, calls, gates, i, Seq::empty(), now);
    lemma_gate_windows(policy, calls, gates, i + 1, Seq::empty(), now);
    if let GateCall::Issue { source, issued } = calls[i] {
        lemma_gate_windows(policy, calls, gates, i, source, now);
        law_admitted_while_few_are_recent(
            issue_requests(calls, gates, i),
            policy.limit(),
            source,
            now,
        );
    }
}

/// What the scan gate holds after the first `n` calls: every token it holds was
/// issued by one of them and dies a lifetime later, and every token that one of
/// them issued is held until then at least.
spec fn tokens_accounted(
    policy: ScanPolicy,
    calls: Seq<GateCall>,
    gates: Seq<ScanGate>,
    n: int,
) -> bool {
    let gate = gates[n].view();
    &&& forall|t: Text| #[trigger]
        gate.tokens.contains_key(t) ==> exists|j: int|
            0 <= j < n && issued_token(#[trigger] calls[j]) == Some(t) && gate.tokens[t] == expiry(
                gates[j + 1].read_at(),
                policy.token_ttl_secs,
            )
    &&& forall|j: int|
        0 <= j < n ==> gates[j + 1].read_at() <= gates[n].read_at() && (issued_token(
            #[trigger] calls[j],
        ) matches Some(t) ==> {
            let death = expiry(gates[j + 1].read_at(), policy.token_ttl_secs);
            &&& gate.tokens.contains_key(t) ==> gate.tokens[t] >= death
            &&& gate.tokens.contains_key(t) || gates[n].read_at() >= death
        })
}

/// Every history accounts for its tokens.
proof fn lemma_tokens_accounted(
    policy: ScanPolicy,
    calls: Seq<GateCall>,
    gates: Seq<ScanGate>,
    n: int,
)
    requires
        is_gate_history(policy, calls, gates),
        0 <= n <= calls.len(),
    ensures
        gates[n].view().policy == policy,
        tokens_accounted(policy, calls, gates, n),
    decreases n,
{
    if n > 0 {
        let m = n - 1;
        lemma_tokens_accounted(policy, calls, gates, m);
        assert(is_gate_step(gates[m], calls[m], gates[n]));
        let before = gates[m].view();
        let gate = gates[n].view();
        let at = gates[n].read_at();
        assert forall|t: Text| #[trigger] gate.tokens.contains_key(t) implies exists|j: int|
            0 <= j < n && issued_token(#[trigger] calls[j]) == Some(t) && gate.tokens[t] == expiry(
                gates[j + 1].read_at(),
                policy.token_ttl_secs,
            ) by {
            if issued_token(calls[m]) == Some(t) {
                assert(gate.tokens[t] == expiry(gates[m + 1].read_at(), policy.token_ttl_secs));
            } else {
                assert(before.tokens.contains_key(t));
                let j = choose|j: int|
                    0 <= j < m && issued_token(#[trigger] calls[j]) == Some(t) && before.tokens[t]
                        == expiry(gates[j + 1].read_at(), policy.token_ttl_secs);
                assert(issued_token(calls[j]) == Some(t));
            }
        }
        assert forall|j: int| 0 <= j < n implies gates[j + 1].read_at() <= at && (issued_token(
            #[trigger] calls[j],
        ) matches Some(t) ==> {
            let death = expiry(gates[j + 1].read_at(), policy.token_ttl_secs);
            &&& gate.tokens.contains_key(t) ==> gate.tokens[t] >= death
            &&& gate.tokens.contains_key(t) || at >= death
        }) by {
            if j < m {
                assert(gates[j + 1].read_at() <= gates[m].read_at());
            }
        }
    }
}

/// Over any history of calls under a policy, a request is admitted exactly
/// where it presents a token that an earlier call issued and that has not died;
/// an admitted request changes nothing, so that a live token serves again and
/// again. A request without a token, or with one that no call issued, is told
/// so. Without a policy every request is admitted.
pub proof fn law_live_tokens_are_admitted(
    policy: ScanPolicy,
    calls: Seq<GateCall>,
    gates: Seq<ScanGate>,
    i: int,
)
    requires
        is_gate_history(policy, calls, gates),
        0 <= i < calls.len(),
    ensures
        calls[i] matches GateCall::Admit { presented, admitted } ==> {
            &&& !policy.on() ==> admitted is Ok
            &&& policy.on() ==> (admitted is Ok <==> exists|j: int|
                0 <= j < i && issued_token(#[trigger] calls[j]) is Some && issued_token(calls[j])
                    == presented && gates[i + 1].read_at() < expiry(
                    gates[j + 1].read_at(),
                    policy.token_ttl_secs,
                ))
            &&& admitted is Ok ==> gates[i + 1].view() == gates[i].view()
            &&& policy.on() && presented is None ==> (admitted matches Err(e) && e@
                == absence_refusal(policy.token_ttl_secs))
            &&& policy.on() && (presented is Some && forall|j: int|
                0 <= j < i ==> issued_token(#[trigger] calls[j]) != presented) ==> (
            admitted matches Err(e) && e@ == unknown_refusal(policy.token_ttl_secs))
        },
{
    lemma_tokens_accounted(policy, calls, gates, i);
    assert(is_gate_step(gates[i], calls[i], gates[i + 1]));
    if let GateCall::Admit { presented, admitted } = calls[i] {
        if let Some(t) = presented {
            let held = gates[i].view().tokens;
            let now = gates[i + 1].read_at();
            if policy.on() && admitted is Ok {
                assert(held.contains_key(t));
                let j = choose|j: int|
                    0 <= j < i && issued_token(#[trigger] calls[j]) == Some(t) && held[t] == expiry(
                        gates[j + 1].read_at(),
                        policy.token_ttl_secs,
                    );
                assert(issued_token(calls[j]) == presented);
            }
            if policy.on() && held.contains_key(t) {
                let j = choose|j: int|
                    0 <= j < i && issued_token(#[trigger] calls[j]) == Some(t) && held[t] == expiry(
                        gates[j + 1].read_at(),
                        policy.token_ttl_secs,
                    );
                assert(issued_token(calls[j]) == presented);
            }
        }
    }
}

/// A policy is on where its tokens live at all. A request presents the token of
/// its own header, and only without one the text behind `Bearer ` of its
/// authorization.
pub proof fn law_presented_tokens(policy: ScanPolicy, headers: &ScanHeaders, token: Text)
    ensures
        policy.on() <==> policy.token_ttl_secs > 0,
        headers.scan matches Some(own) ==> headers.presented() == Some(own@),
        headers.scan is None && headers.authorization is None ==> headers.presented() is None,
        headers.scan is None ==> (headers.authorization matches Some(value) ==> (
        headers.presented() == Some(token) <==> value@ == "Bearer "@ + token)),
{
    let prefix = "Bearer "@;
    if let Some(value) = headers.authorization {
        if starts_with(value@, prefix) {
            assert(value@ =~= prefix + value@.skip(prefix.len() as int));
        }
        if value@ == prefix + token {
            assert(value@.take(prefix.len() as int) =~= prefix);
            assert(value@.skip(prefix.len() as int) =~= token);
        }
    }
}

/// What an issuance hands over: a token of the next number in sixteen
/// hexadecimal digits, with the policy's lifetime, which the scan gate then holds
/// until that lifetime is over; every other token stays as it was.
pub proof fn law_issuances(
    before: GateView,
    source: Text,
    now: u128,
    after: GateView,
    token: String,
    ttl: u64,
    other: Text,
)
    requires
        issues_at(before, source, now, after, Ok((token, ttl))),
        before.issued < u64::MAX,
        now + ttl * 1_000_000_000 <= u128::MAX,
    ensures
        before.policy.token_ttl_secs > 0,
        after.policy == before.policy,
        ttl == before.policy.token_ttl_secs,
        after.issued == before.issued + 1,
        token@ == "scan-"@ + hexadecimal((before.issued + 1) as nat, 16),
        after.tokens.contains_key(token@),
        after.tokens[token@] == now + ttl * 1_000_000_000,
        other != token@ ==> after.tokens.contains_key(other) == before.tokens.contains_key(other)
            && (after.tokens.contains_key(other) ==> after.tokens[other] == before.tokens[other]),
{
}

/// Every refusal of the scan gate names its policy: the lifetime of its tokens
/// and where to obtain one, or the limit of issuance; that of an expired token
/// says since when it is dead.
pub proof fn law_refusals_name_the_policy(policy: ScanPolicy, died_at: u128, now: u128)
    requires
        died_at <= now,
        (now - died_at) / 1_000_000_000 <= u64::MAX,
    ensures
        absence_refusal(policy.token_ttl_secs) == "scan token required: this gateway enforces a "@
            + decimal(policy.token_ttl_secs as nat)
            + " s scan policy — obtain one from POST /scan-tokens"@,
        unknown_refusal(policy.token_ttl_secs) == "unknown scan token: this gateway enforces a "@
            + decimal(policy.token_ttl_secs as nat)
            + " s scan policy — obtain one from POST /scan-tokens"@,
        issuance_refusal(policy.issue_limit_per_minute) == "scan-token issuance limit: at most "@
            + decimal(policy.issue_limit_per_minute as nat)
            + " per source per minute — refused, retry after the window"@,
        expiry_refusal(policy.token_ttl_secs, seconds_dead(died_at, now))
            == "scan token expired "@ + decimal(((now - died_at) / 1_000_000_000) as nat)
            + " s ago — the policy window is "@ + decimal(policy.token_ttl_secs as nat)
            + " s; obtain a fresh one from POST /scan-tokens"@,
        policy.limit() == (if policy.issue_limit_per_minute > 0 {
            Some(policy.issue_limit_per_minute)
        } else {
            None
        }),
{
}

/// Issuing in one call, at an instant: a token goes to a source exactly where the
/// policy is on and fewer than its limit of that source's tokens, if it has one,
/// are less than a minute old.
pub proof fn law_issue_calls(
    gate: &mut ScanGate,
    source: &str,
    now: u128,
    r: Result<(String, u64), String>,
)
    requires
        call_ensures(ScanGate::issue_at, (gate, source, now), r),
    ensures
        ({
            let before = old(gate).view();
            let after = final(gate).view();
            let limit = before.policy.issue_limit_per_minute;
            let used = live(before.windows.window(source@), now).len();
            &&& r is Ok <==> before.policy.token_ttl_secs > 0 && (limit == 0 || used < limit)
            &&& after.policy == before.policy
            &&& r is Ok && before.issued < u64::MAX ==> after.issued == before.issued + 1
            &&& r matches Ok(t) ==> t.1 == before.policy.token_ttl_secs
                && after.tokens.contains_key(t.0@)
            &&& r is Err ==> after.tokens == before.tokens && after.issued == before.issued
            &&& before.policy.token_ttl_secs == 0 ==> after == before
        }),
{
}

/// Admitting in one call, at an instant: a request is admitted exactly where no
/// policy is on, or where it presents a token that is held and not dead; a dead
/// one is forgotten, and nothing else changes.
pub proof fn law_admit_calls(
    gate: &mut ScanGate,
    headers: &ScanHeaders,
    now: u128,
    r: Result<(), String>,
)
    requires
        call_ensures(ScanGate::admit_request_at, (gate, headers, now), r),
    ensures
        ({
            let before = old(gate).view();
            let after = final(gate).view();
            &&& r is Ok <==> before.policy.token_ttl_secs == 0 || (
            headers.presented() matches Some(token) && before.tokens.contains_key(token) && now
                < before.tokens[token])
            &&& r is Ok ==> after == before
            &&& after.policy == before.policy
            &&& after.issued == before.issued
            &&& after.windows == before.windows
            &&& forall|t: Text| #[trigger]
                after.tokens.contains_key(t) ==> before.tokens.contains_key(t) && after.tokens[t]
                    == before.tokens[t]
            &&& forall|t: Text| #[trigger]
                before.tokens.contains_key(t) && !after.tokens.contains_key(t) ==> now
                    >= before.tokens[t] && headers.presented() == Some(t)
        }),
{
}

/// A call that reads the clock is a call at that reading, which is not before the
/// last one.
pub proof fn law_clocked_calls(
    gate: &mut ScanGate,
    source: &str,
    issued: Result<(String, u64), String>,
    other: &mut ScanGate,
    headers: &ScanHeaders,
    admitted: Result<(), String>,
)
    requires
        call_ensures(ScanGate::issue, (gate, source), issued),
        call_ensures(ScanGate::admit_request, (other, headers), admitted),
    ensures
        final(gate).read_at() >= old(gate).read_at(),
        issues_at(
            old(gate).view(),
            source@,
            final(gate).read_at(),
            final(gate).view(),
            issued,
        ),
        final(other).read_at() >= old(other).read_at(),
        admits_at(
            old(other).view(),
            headers.presented(),
            final(other).read_at(),
            final(other).view(),
            admitted,
        ),
{
}

} // verus!
