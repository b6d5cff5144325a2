//! Sliding windows: how often something was admitted within the last minute,
//! key by key.
//!
//! Instants are nanoseconds of one monotonic clock.
use vstd::hash_map::StringHashMap;
use vstd::prelude::*;

use crate::text::Text;

verus! {

/// One minute in nanoseconds.
pub const MINUTE: u128 = 60_000_000_000;

/// The part of a window that is still live: what stands at its front and is a
/// minute old is dropped.
pub open spec fn live(window: Seq<u128>, now: u128) -> Seq<u128>
    decreases window.len(),
{
    if window.len() > 0 && window[0] + MINUTE <= now {
        live(window.skip(1), now)
    } else {
        window
    }
}

/// Whether there is room in a window: always, where there is no limit.
pub open spec fn has_room(window: Seq<u128>, limit: Option<usize>) -> bool {
    match limit {
        Some(limit) => window.len() < limit,
        None => true,
    }
}

/// The window after a request: what is live, and the request where it was
/// admitted.
pub open spec fn stepped(window: Seq<u128>, limit: Option<usize>, now: u128) -> Seq<u128> {
    if has_room(live(window, now), limit) {
        live(window, now).push(now)
    } else {
        live(window, now)
    }
}

/// The windows by key.
pub struct SlidingWindows {
    seen: StringHashMap<Vec<u128>>,
}

impl SlidingWindows {
    /// The windows by key.
    pub closed spec fn view(&self) -> Map<Text, Seq<u128>> {
        self.seen@.map_values(|v: Vec<u128>| v@)
    }

    /// The window of a key; empty where nothing was admitted under it.
    pub open spec fn window(&self, key: Text) -> Seq<u128> {
        if self.view().contains_key(key) {
            self.view()[key]
        } else {
            Seq::empty()
        }
    }

    /// No window.
    pub fn new() -> (r: Self)
        ensures
            r.view() == Map::<Text, Seq<u128>>::empty(),
    {
        let r = SlidingWindows { seen: StringHashMap::new() };
        assert(r.view() =~= Map::empty());
        r
    }

    /// The live part of a key's window.
    fn live_window(&self, key: &str, now: u128) -> (r: Vec<u128>)
        ensures
            r@ == live(self.window(key@), now),
    {
        let mut kept: Vec<u128> = Vec::new();
        match self.seen.get(key) {
            Some(window) => {
                let n: usize = window.len();
                let mut i: usize = 0;
                assert(self.window(key@) == window@);
                assert(window@.skip(0) =~= window@);
                while i < n && now >= MINUTE && window[i] <= now - MINUTE
                    invariant
                        i <= n == window@.len(),
                        live(window@, now) == live(window@.skip(i as int), now),
                    decreases n - i,
                {
                    assert(window@.skip(i as int).skip(1) =~= window@.skip(i + 1));
                    i = i + 1;
                }
                let ghost from = i as int;
                assert(live(window@, now) == window@.skip(from));
                while i < n
                    invariant
                        0 <= from <= i <= n == window@.len(),
                        kept@ == window@.subrange(from, i as int),
                    decreases n - i,
                {
                    kept.push(window[i]);
                    assert(kept@ =~= window@.subrange(from, i + 1));
                    i = i + 1;
                }
                assert(window@.subrange(from, n as int) =~= window@.skip(from));
            },
            None => {},
        }
        kept
    }

    /// Admits a request under a key at an instant, where the key's window has
    /// room for it.
    pub fn admit_at(&mut self, key: &str, limit: Option<usize>, now: u128) -> (r: bool)
        ensures
            r == has_room(live(old(self).window(key@), now), limit),
            final(self).view() == old(self).view().insert(
                key@,
                stepped(old(self).window(key@), limit, now),
            ),
    {
        let mut window = self.live_window(key, now);
        let room: bool = match limit {
            Some(limit) => window.len() < limit,
            None => true,
        };
        if room {
            window.push(now);
        }
        let ghost after = window@;
        self.seen.insert(key.to_owned(), window);
        assert(self.view() =~= old(self).view().insert(key@, after));
        room
    }
}

// ---------------------------------------------------------------------------
// Laws
// ---------------------------------------------------------------------------

/// The window after a run of requests under one key.
pub open spec fn window_after(times: Seq<u128>, limit: usize) -> Seq<u128>
    decreases times.len(),
{
    if times.len() == 0 {
        Seq::empty()
    } else {
        stepped(window_after(times.drop_last(), limit), Some(limit), times.last())
    }
}

/// The requests of a run that were admitted.
pub open spec fn admitted(times: Seq<u128>, limit: usize) -> Seq<u128>
    decreases times.len(),
{
    if times.len() == 0 {
        Seq::empty()
    } else {
        let before = admitted(times.drop_last(), limit);
        if has_room(live(window_after(times.drop_last(), limit), times.last()), Some(limit)) {
            before.push(times.last())
        } else {
            before
        }
    }
}

/// Whether the instants do not go back.
pub open spec fn in_order(times: Seq<u128>) -> bool {
    forall|i: int, j: int| 0 <= i <= j < times.len() ==> times[i] <= times[j]
}

/// The live part of a window is a tail of it; what it drops is a minute old.
proof fn lemma_live(window: Seq<u128>, now: u128) -> (k: int)
    ensures
        0 <= k <= window.len(),
        live(window, now) == window.skip(k),
        forall|i: int| 0 <= i < k ==> #[trigger] window[i] + MINUTE <= now,
        k < window.len() ==> window[k] + MINUTE > now,
    decreases window.len(),
{
    if window.len() > 0 && window[0] + MINUTE <= now {
        let k = lemma_live(window.skip(1), now);
        assert(window.skip(1).skip(k) =~= window.skip(k + 1));
        assert forall|i: int| 0 <= i < k + 1 implies #[trigger] window[i] + MINUTE <= now by {
            if i > 0 {
                assert(window.skip(1)[i - 1] + MINUTE <= now);
            }
        }
        k + 1
    } else {
        assert(window.skip(0) =~= window);
        0
    }
}

/// The window of a run is a tail of what was admitted, in order; what it has
/// dropped was a minute old by the last request.
proof fn lemma_run(times: Seq<u128>, limit: usize) -> (k: int)
    requires
        in_order(times),
    ensures
        0 <= k <= admitted(times, limit).len(),
        window_after(times, limit) == admitted(times, limit).skip(k),
        window_after(times, limit).len() <= limit,
        in_order(admitted(times, limit)),
        forall|i: int|
            0 <= i < k ==> #[trigger] admitted(times, limit)[i] + MINUTE <= times.last(),
        forall|i: int|
            0 <= i < admitted(times, limit).len() ==> #[trigger] admitted(times, limit)[i]
                <= times.last(),
        forall|i: int, j: int|
            0 <= i && i + limit <= j < admitted(times, limit).len() ==> #[trigger] admitted(
                times,
                limit,
            )[i] + MINUTE <= #[trigger] admitted(times, limit)[j],
    decreases times.len(),
{
    if times.len() == 0 {
        assert(admitted(times, limit).skip(0) =~= Seq::empty());
        0
    } else {
        let init = times.drop_last();
        let now = times.last();
        assert forall|i: int, j: int| 0 <= i <= j < init.len() implies init[i] <= init[j] by {
            assert(times[i] <= times[j]);
        }
        let k = lemma_run(init, limit);
        let all = admitted(init, limit);
        let window = window_after(init, limit);
        if init.len() > 0 {
            assert(times[init.len() - 1] <= times[init.len() as int]);
            assert(init.last() <= now);
        }
        let d = lemma_live(window, now);
        assert(window.skip(d) =~= all.skip(k + d));
        assert forall|i: int| 0 <= i < k + d implies #[trigger] all[i] + MINUTE <= now by {
            if i >= k {
                assert(window[i - k] == all[i]);
            }
        }
        if has_room(live(window, now), Some(limit)) {
            let more = all.push(now);
            assert(admitted(times, limit) == more);
            assert(window_after(times, limit) =~= more.skip(k + d));
            assert forall|i: int, j: int|
                0 <= i && i + limit <= j < more.len() implies #[trigger] more[i] + MINUTE
                <= #[trigger] more[j] by {
                if j == all.len() {
                    assert(i < k + d);
                    assert(all[i] + MINUTE <= now);
                } else {
                    assert(all[i] + MINUTE <= all[j]);
                }
            }
            assert forall|i: int, j: int| 0 <= i <= j < more.len() implies more[i] <= more[j] by {
                if j < all.len() {
                    assert(all[i] <= all[j]);
                } else if i < all.len() {
                    assert(all[i] <= init.last());
                }
            }
            assert forall|i: int| 0 <= i < more.len() implies #[trigger] more[i] <= now by {
                if i < all.len() {
                    assert(all[i] <= init.last());
                }
            }
            assert forall|i: int| 0 <= i < k + d implies #[trigger] more[i] + MINUTE <= now by {
                assert(all[i] + MINUTE <= now);
            }
        } else {
            assert forall|i: int| 0 <= i < all.len() implies #[trigger] all[i] <= now by {
                assert(all[i] <= init.last());
            }
        }
        k + d
    }
}

/// However the requests under a key come, at most `limit` of them are
/// admitted within any minute: of the admitted ones, each is at least a minute
/// after the one `limit` places before it.
pub proof fn law_at_most_limit_per_minute(times: Seq<u128>, limit: usize, i: int, j: int)
    requires
        in_order(times),
        0 <= i,
        i + limit <= j < admitted(times, limit).len(),
    ensures
        admitted(times, limit)[i] + MINUTE <= admitted(times, limit)[j],
{
    let k = lemma_run(times, limit);
}

/// A request is refused only while `limit` admitted ones are less than a
/// minute old.
pub proof fn law_refused_only_when_full(times: Seq<u128>, limit: usize, now: u128)
    requires
        in_order(times.push(now)),
        admitted(times.push(now), limit) == admitted(times, limit),
    ensures
        admitted(times, limit).len() >= limit,
        forall|i: int|
            admitted(times, limit).len() - limit <= i < admitted(times, limit).len()
                ==> #[trigger] admitted(times, limit)[i] + MINUTE > now,
{
    let all = admitted(times, limit);
    assert forall|i: int, j: int| 0 <= i <= j < times.len() implies times[i] <= times[j] by {
        assert(times.push(now)[i] <= times.push(now)[j]);
    }
    let k = lemma_run(times, limit);
    assert(times.push(now).drop_last() =~= times);
    let window = window_after(times, limit);
    let d = lemma_live(window, now);
    if has_room(live(window, now), Some(limit)) {
        assert(all.push(now).len() == all.len() + 1);
    }
    assert forall|i: int| all.len() - limit <= i < all.len() implies #[trigger] all[i] + MINUTE
        > now by {
        assert(window.len() - d >= limit);
        assert(d == 0);
        assert(window[0] == all[k]);
        assert(all[k] <= all[i]);
    }
}

// ---------------------------------------------------------------------------
// Histories of requests under many keys
// ---------------------------------------------------------------------------

/// The window of a key; empty where nothing was admitted under it.
pub open spec fn window_of(windows: Map<Text, Seq<u128>>, key: Text) -> Seq<u128> {
    if windows.contains_key(key) {
        windows[key]
    } else {
        Seq::empty()
    }
}

/// The windows after a run of requests, each with its key and its instant.
pub open spec fn windows_after(requests: Seq<(Text, u128)>, limit: Option<usize>) -> Map<
    Text,
    Seq<u128>,
>
    decreases requests.len(),
{
    if requests.len() == 0 {
        Map::empty()
    } else {
        let before = windows_after(requests.drop_last(), limit);
        let (key, now) = requests.last();
        before.insert(key, stepped(window_of(before, key), limit, now))
    }
}

/// Whether a request behind a run of requests is admitted.
pub open spec fn is_admitted(
    requests: Seq<(Text, u128)>,
    limit: Option<usize>,
    key: Text,
    now: u128,
) -> bool {
    has_room(live(window_of(windows_after(requests, limit), key), now), limit)
}

/// How many requests of a run were admitted under the key and are less than a
/// minute old.
pub open spec fn recent(
    requests: Seq<(Text, u128)>,
    limit: Option<usize>,
    key: Text,
    now: u128,
) -> nat
    decreases requests.len(),
{
    if requests.len() == 0 {
        0
    } else {
        let before = requests.drop_last();
        let (k, t) = requests.last();
        recent(before, limit, key, now) + if k == key && is_admitted(before, limit, k, t) && t
            + MINUTE > now {
            1nat
        } else {
            0nat
        }
    }
}

/// Whether the requests come in the order of their instants, none after `now`.
pub open spec fn come_in_order(requests: Seq<(Text, u128)>, now: u128) -> bool {
    forall|i: int, j: int|
        0 <= i <= j < requests.len() ==> (#[trigger] requests[i]).1 <= (#[trigger] requests[j]).1
            <= now
}

/// What is live later is live of what is live now.
proof fn lemma_live_later(window: Seq<u128>, now: u128, later: u128)
    requires
        now <= later,
    ensures
        live(live(window, now), later) == live(window, later),
    decreases window.len(),
{
    if window.len() > 0 && window[0] + MINUTE <= now {
        lemma_live_later(window.skip(1), now, later);
    }
}

/// A request stays live behind what is live.
proof fn lemma_live_push(window: Seq<u128>, t: u128, now: u128)
    ensures
        live(window.push(t), now) == (if live(window, now).len() > 0 || t + MINUTE > now {
            live(window, now).push(t)
        } else {
            Seq::empty()
        }),
    decreases window.len(),
{
    if window.len() > 0 {
        assert(window.push(t)[0] == window[0]);
        if window[0] + MINUTE <= now {
            assert(window.push(t).skip(1) =~= window.skip(1).push(t));
            lemma_live_push(window.skip(1), t, now);
        }
    } else {
        assert(window.push(t).skip(1) =~= Seq::empty());
        assert(window.push(t) =~= seq![t]);
        assert(live(Seq::empty(), now) == Seq::<u128>::empty());
        assert(window.push(t)[0] == t);
        assert(live(window, now).push(t) =~= seq![t]);
    }
}

/// Nothing is live of a window that is a minute old.
proof fn lemma_all_old(window: Seq<u128>, now: u128)
    requires
        forall|i: int| 0 <= i < window.len() ==> #[trigger] window[i] + MINUTE <= now,
    ensures
        live(window, now).len() == 0,
    decreases window.len(),
{
    if window.len() > 0 {
        assert(window[0] + MINUTE <= now);
        assert forall|i: int| 0 <= i < window.skip(1).len() implies #[trigger] window.skip(1)[i]
            + MINUTE <= now by {
            assert(window[i + 1] + MINUTE <= now);
        }
        lemma_all_old(window.skip(1), now);
    }
}

/// The window of a key holds no instant after the last request, and what is
/// live of it are the recent requests.
proof fn lemma_window_is_recent(
    requests: Seq<(Text, u128)>,
    limit: Option<usize>,
    key: Text,
    now: u128,
)
    requires
        come_in_order(requests, now),
    ensures
        forall|i: int|
            0 <= i < window_of(windows_after(requests, limit), key).len() ==> (
            #[trigger] window_of(windows_after(requests, limit), key)[i]) <= now && (
            requests.len() > 0 ==> window_of(windows_after(requests, limit), key)[i]
                <= requests.last().1),
        live(window_of(windows_after(requests, limit), key), now).len() == recent(
            requests,
            limit,
            key,
            now,
        ),
    decreases requests.len(),
{
    if requests.len() > 0 {
        let init = requests.drop_last();
        let (k, t) = requests.last();
        let n = requests.len() - 1;
        assert(requests[n] == (k, t));
        assert(t <= now);
        assert(come_in_order(init, now)) by {
            assert forall|i: int, j: int| 0 <= i <= j < init.len() implies (#[trigger] init[i]).1
                <= (#[trigger] init[j]).1 <= now by {
                assert(requests[i].1 <= requests[j].1);
            }
        }
        assert(come_in_order(init, t)) by {
            assert forall|i: int, j: int| 0 <= i <= j < init.len() implies (#[trigger] init[i]).1
                <= (#[trigger] init[j]).1 <= t by {
                assert(requests[i].1 <= requests[j].1);
                assert(requests[j].1 <= requests[n].1);
            }
        }
        lemma_window_is_recent(init, limit, key, now);
        lemma_window_is_recent(init, limit, key, t);
        let w = window_of(windows_after(init, limit), key);
        let after = window_of(windows_after(requests, limit), key);
        if k == key {
            let kept = live(w, t);
            assert(after == stepped(w, limit, t));
            let d = lemma_live(w, t);
            lemma_live_later(w, t, now);
            assert forall|i: int| 0 <= i < kept.len() implies #[trigger] kept[i] <= t by {
                assert(w[i + d] <= t);
            }
            if has_room(kept, limit) {
                lemma_live_push(kept, t, now);
                if t + MINUTE <= now {
                    assert forall|i: int| 0 <= i < kept.len() implies #[trigger] kept[i] + MINUTE
                        <= now by {
                        assert(kept[i] <= t);
                    }
                    lemma_all_old(kept, now);
                }
                assert forall|i: int| 0 <= i < after.len() implies #[trigger] after[i] <= t by {
                    if i < kept.len() {
                        assert(kept[i] <= t);
                    }
                }
            }
        } else {
            assert(after == w);
            assert forall|i: int| 0 <= i < after.len() implies #[trigger] after[i] <= t by {
                assert(w[i] <= t);
            }
        }
    }
}

/// Over any history of requests a request is admitted exactly while fewer than
/// the limit were admitted under its key within the last minute: refused
/// requests and requests under other keys do not count. Without a limit every
/// request is admitted.
pub proof fn law_admitted_while_few_are_recent(
    requests: Seq<(Text, u128)>,
    limit: Option<usize>,
    key: Text,
    now: u128,
)
    requires
        come_in_order(requests, now),
    ensures
        is_admitted(requests, limit, key, now) <==> (limit matches Some(limit) ==> recent(
            requests,
            Some(limit),
            key,
            now,
        ) < limit),
{
    lemma_window_is_recent(requests, limit, key, now);
}

/// A minute is sixty seconds of a thousand million nanoseconds. A request frees
/// the instants of its window that are a minute old, keeps the others, and takes
/// a place exactly where it is admitted.
pub proof fn law_windows_step(window: Seq<u128>, limit: Option<usize>, now: u128)
    requires
        in_order(window),
    ensures
        MINUTE == 60 * 1_000_000_000,
        forall|t: u128| #[trigger]
            live(window, now).contains(t) <==> window.contains(t) && t + 60_000_000_000 > now,
        has_room(live(window, now), limit) ==> stepped(window, limit, now) == live(
            window,
            now,
        ).push(now),
        !has_room(live(window, now), limit) ==> stepped(window, limit, now) == live(window, now),
        limit matches Some(n) ==> (has_room(live(window, now), limit) <==> live(window, now).len()
            < n),
        limit is None ==> has_room(live(window, now), limit),
{
    let k = lemma_live(window, now);
    let kept = live(window, now);
    assert forall|t: u128| #[trigger] kept.contains(t) <==> window.contains(t) && t
        + 60_000_000_000 > now by {
        if kept.contains(t) {
            let i = choose|i: int| 0 <= i < kept.len() && kept[i] == t;
            assert(window[k + i] == t);
            assert(window[k] <= window[k + i]);
        }
        if window.contains(t) && t + 60_000_000_000 > now {
            let i = choose|i: int| 0 <= i < window.len() && window[i] == t;
            if i < k {
                assert(window[i] + MINUTE <= now);
            }
            assert(kept[i - k] == t);
        }
    }
}

} // verus!
