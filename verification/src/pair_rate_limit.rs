//! Per-client counting of failed pairing attempts, with a lockout window.
//!
//! A client that fails [`FAILURE_THRESHOLD`] times inside one window of
//! [`FAILURE_WINDOW_NANOS`] is refused until that window has run out.
//! Time is a monotonic clock reading in nanoseconds, supplied by the caller.

use vstd::prelude::*;
use crate::net::IpAddr;
use crate::assoc::{assoc_map, has_key, keys_distinct, lemma_entry, lemma_len, lemma_push, lemma_remove, lemma_set};

verus! {

/// Failures inside one window after which a client is locked out.
pub const FAILURE_THRESHOLD: u32 = 5;

/// Another name for [`FAILURE_THRESHOLD`].
pub const MAX_FAILURES_PER_WINDOW: u32 = FAILURE_THRESHOLD;

/// Length of a failure window: five minutes, in nanoseconds.
pub const FAILURE_WINDOW_NANOS: u64 = 300_000_000_000;

/// Length of a failure window in whole seconds (what a `Retry-After` reports).
pub const FAILURE_WINDOW_SECS: u64 = 300;

/// Another name for [`FAILURE_WINDOW_NANOS`].
pub const WINDOW_DURATION_NANOS: u64 = FAILURE_WINDOW_NANOS;

/// The failures counted for one client since `window_start`.
#[derive(Clone, Copy, Debug, PartialEq, Eq, Structural)]
pub struct FailureWindow {
    /// Failures in this window, the first one included; it stops growing at
    /// [`FAILURE_THRESHOLD`].
    pub count: u32,
    /// Monotonic time (nanoseconds) of the failure that opened the window.
    pub window_start: u64,
}

/// A window has run out once `FAILURE_WINDOW_NANOS` have passed since it
/// opened; a clock reading before the start counts as no time passed.
pub open spec fn window_expired(w: FailureWindow, now: u64) -> bool {
    now >= w.window_start && now - w.window_start >= FAILURE_WINDOW_NANOS
}

/// The window that one more failure at `now` leaves behind.
pub open spec fn next_window(prev: Option<FailureWindow>, now: u64) -> FailureWindow {
    match prev {
        None => FailureWindow { count: 1, window_start: now },
        Some(w) => if window_expired(w, now) {
            FailureWindow { count: 1, window_start: now }
        } else if w.count < FAILURE_THRESHOLD {
            FailureWindow { count: (w.count + 1) as u32, window_start: w.window_start }
        } else {
            w
        },
    }
}

/// Whether a client with window `w` (if any) is refused at `now`.
pub open spec fn limited(w: Option<FailureWindow>, now: u64) -> bool {
    match w {
        Some(w) => !window_expired(w, now) && w.count >= FAILURE_THRESHOLD,
        None => false,
    }
}

impl FailureWindow {
    /// The window opened by a first failure at `now`.
    pub fn started_now(now: u64) -> (w: FailureWindow)
        ensures
            w == (FailureWindow { count: 1, window_start: now }),
    {
        FailureWindow { count: 1, window_start: now }
    }

    /// Whether the window has run out at `now`.
    pub fn is_expired(&self, now: u64) -> (b: bool)
        ensures
            b == window_expired(*self, now),
    {
        now >= self.window_start && now - self.window_start >= FAILURE_WINDOW_NANOS
    }
}

/// Failure windows of every client that has failed recently.
#[derive(Debug)]
pub struct PairRateLimiter {
    failures: Vec<(IpAddr, FailureWindow)>,
}

impl View for PairRateLimiter {
    type V = Map<IpAddr, FailureWindow>;

    /// The failure window of each tracked client.
    closed spec fn view(&self) -> Map<IpAddr, FailureWindow> {
        assoc_map(self.failures@)
    }
}

impl PairRateLimiter {
    /// Each client appears once, and every count lies in `1..=FAILURE_THRESHOLD`.
    pub closed spec fn wf(&self) -> bool {
        &&& keys_distinct(self.failures@)
        &&& forall|i: int|
            0 <= i < self.failures@.len() ==> 1 <= #[trigger] self.failures@[i].1.count
                <= FAILURE_THRESHOLD
    }

    /// Every window of a well-formed limiter counts between one and the threshold.
    pub proof fn lemma_counts_bounded(&self)
        requires
            self.wf(),
        ensures
            forall|ip: IpAddr|
                #[trigger] self@.contains_key(ip) ==> 1 <= self@[ip].count <= FAILURE_THRESHOLD,
    {
        assert forall|ip: IpAddr| #[trigger] self@.contains_key(ip) implies 1 <= self@[ip].count
            <= FAILURE_THRESHOLD by {
            let j = choose|j: int| 0 <= j < self.failures@.len() && self.failures@[j].0 == ip;
            lemma_entry(self.failures@, j);
        }
    }

    /// Position of `ip` in the entry list, if tracked.
    fn find(&self, ip: IpAddr) -> (r: Option<usize>)
        requires
            self.wf(),
        ensures
            r is None <==> !self@.contains_key(ip),
            r matches Some(i) ==> i < self.failures@.len() && self.failures@[i as int].0 == ip,
    {
        let n = self.failures.len();
        let mut i: usize = 0;
        while i < n
            invariant
                n == self.failures@.len(),
                i <= n,
                forall|k: int| 0 <= k < i ==> self.failures@[k].0 != ip,
            decreases n - i,
        {
            if self.failures[i].0 == ip {
                return Some(i);
            }
            i = i + 1;
        }
        proof {
            if has_key(self.failures@, ip) {
                let k = choose|k: int| 0 <= k < self.failures@.len() && self.failures@[k].0 == ip;
                assert(self.failures@[k].0 == ip);
            }
        }
        None
    }

    /// An empty limiter.
    pub fn new() -> (r: PairRateLimiter)
        ensures
            r.wf(),
            r@ == Map::<IpAddr, FailureWindow>::empty(),
    {
        let r = PairRateLimiter { failures: Vec::new() };
        assert(r@ =~= Map::<IpAddr, FailureWindow>::empty());
        r
    }

    /// Counts one failure of `ip` at `now`: opens a window if there is none or
    /// the old one ran out, otherwise adds one up to the threshold.
    pub fn record_failure(&mut self, ip: IpAddr, now: u64)
        requires
            old(self).wf(),
        ensures
            final(self).wf(),
            final(self)@ == old(self)@.insert(ip, next_window(old(self)@.get(ip), now)),
            final(self)@.contains_key(ip),
            old(self)@.get(ip) is None ==> final(self)@[ip] == (FailureWindow { count: 1, window_start: now }),
            old(self)@.get(ip) matches Some(w) ==> (window_expired(w, now) ==> final(self)@[ip] == (
            FailureWindow { count: 1, window_start: now })),
            old(self)@.get(ip) matches Some(w) ==> (!window_expired(w, now) ==> final(self)@[ip] == (
            FailureWindow {
                count: if w.count < FAILURE_THRESHOLD {
                    (w.count + 1) as u32
                } else {
                    w.count
                },
                window_start: w.window_start,
            })),
            forall|other: IpAddr| other != ip ==> #[trigger] final(self)@.get(other) == old(self)@.get(other),
    {
        match self.find(ip) {
            Some(i) => {
                let w = self.failures[i].1;
                proof {
                    lemma_entry(self.failures@, i as int);
                }
                let nw = if w.is_expired(now) {
                    FailureWindow::started_now(now)
                } else if w.count < FAILURE_THRESHOLD {
                    FailureWindow { count: w.count + 1, window_start: w.window_start }
                } else {
                    w
                };
                proof {
                    lemma_set(self.failures@, i as int, nw);
                }
                self.failures.set(i, (ip, nw));
            },
            None => {
                proof {
                    lemma_push(self.failures@, ip, FailureWindow { count: 1, window_start: now });
                }
                self.failures.push((ip, FailureWindow::started_now(now)));
            },
        }
    }

    /// Whether `ip` is refused at `now`: it has an open window whose count
    /// reached the threshold.
    pub fn is_rate_limited(&self, ip: IpAddr, now: u64) -> (r: bool)
        requires
            self.wf(),
        ensures
            r == limited(self@.get(ip), now),
    {
        match self.find(ip) {
            Some(i) => {
                proof {
                    lemma_entry(self.failures@, i as int);
                }
                let w = self.failures[i].1;
                !w.is_expired(now) && w.count >= FAILURE_THRESHOLD
            },
            None => false,
        }
    }

    /// Drops every window that has run out at `now`; the others stay as they are.
    pub fn reset_after_window(&mut self, now: u64)
        requires
            old(self).wf(),
        ensures
            final(self).wf(),
            forall|ip: IpAddr|
                #[trigger] final(self)@.contains_key(ip) <==> old(self)@.contains_key(ip)
                    && !window_expired(old(self)@[ip], now),
            forall|ip: IpAddr| #[trigger]
                final(self)@.contains_key(ip) ==> final(self)@[ip] == old(self)@[ip],
    {
        let ghost s0 = self.failures@;
        let mut i: usize = 0;
        while i < self.failures.len()
            invariant
                self.wf(),
                i <= self.failures@.len(),
                forall|k: int| 0 <= k < i ==> !window_expired(#[trigger] self.failures@[k].1, now),
                forall|ip: IpAddr|
                    #[trigger] self@.contains_key(ip) <==> assoc_map(s0).contains_key(ip)
                        && !window_expired(assoc_map(s0)[ip], now) || (assoc_map(s0).contains_key(ip)
                        && exists|k: int| i <= k < self.failures@.len() && self.failures@[k].0 == ip),
                forall|ip: IpAddr| #[trigger]
                    self@.contains_key(ip) ==> self@[ip] == assoc_map(s0)[ip],
            decreases self.failures@.len() - i,
        {
            proof {
                lemma_entry(self.failures@, i as int);
            }
            if self.failures[i].1.is_expired(now) {
                let ghost before = self.failures@;
                let ghost m_before = self@;
                assert(m_before == assoc_map(before));
                assert(forall|ip: IpAddr| #[trigger] m_before.contains_key(ip) ==> m_before[ip] == assoc_map(s0)[ip]);
                proof {
                    lemma_remove(before, i as int);
                }
                self.failures.remove(i);
                assert(self@ == m_before.remove(before[i as int].0));
                assert forall|ip: IpAddr| #[trigger] self@.contains_key(ip) implies self@[ip]
                    == assoc_map(s0)[ip] by {
                    assert(m_before.contains_key(ip));
                }
                assert forall|ip: IpAddr| #[trigger] self@.contains_key(ip) <==> assoc_map(
                    s0,
                ).contains_key(ip) && !window_expired(assoc_map(s0)[ip], now) || (assoc_map(
                    s0,
                ).contains_key(ip) && exists|k: int|
                    i <= k < self.failures@.len() && self.failures@[k].0 == ip) by {
                    if ip == before[i as int].0 {
                        lemma_entry(before, i as int);
                        assert(assoc_map(before).contains_key(ip));
                        if exists|k: int| i <= k < self.failures@.len() && self.failures@[k].0 == ip {
                            let k = choose|k: int| i <= k < self.failures@.len() && self.failures@[k].0 == ip;
                            assert(before[k + 1].0 == ip);
                        }
                    }
                    if ip != before[i as int].0 && assoc_map(s0).contains_key(ip) && exists|k: int|
                        i <= k < before.len() && before[k].0 == ip {
                        let k = choose|k: int| i <= k < before.len() && before[k].0 == ip;
                        assert(k != i);
                        assert(self.failures@[k - 1].0 == ip);
                    }
                    if exists|k: int| i <= k < self.failures@.len() && self.failures@[k].0 == ip {
                        let k = choose|k: int| i <= k < self.failures@.len() && self.failures@[k].0 == ip;
                        assert(before[k + 1].0 == ip);
                    }
                }
            } else {
                let ghost before = self.failures@;
                i = i + 1;
                assert forall|ip: IpAddr| #[trigger] self@.contains_key(ip) <==> assoc_map(
                    s0,
                ).contains_key(ip) && !window_expired(assoc_map(s0)[ip], now) || (assoc_map(
                    s0,
                ).contains_key(ip) && exists|k: int|
                    i <= k < self.failures@.len() && self.failures@[k].0 == ip) by {
                    if assoc_map(s0).contains_key(ip) && exists|k: int|
                        i - 1 <= k < before.len() && before[k].0 == ip {
                        let k = choose|k: int| i - 1 <= k < before.len() && before[k].0 == ip;
                        if k == i - 1 {
                            lemma_entry(before, k);
                        } else {
                            assert(self.failures@[k].0 == ip);
                        }
                    }
                }
            }
        }
        assert forall|ip: IpAddr| #[trigger] self@.contains_key(ip) implies !window_expired(
            assoc_map(s0)[ip],
            now,
        ) by {
            let k = choose|k: int| 0 <= k < self.failures@.len() && self.failures@[k].0 == ip;
            lemma_entry(self.failures@, k);
        }
    }

    /// Forgets the window of `ip`, if any.
    pub fn clear(&mut self, ip: IpAddr)
        requires
            old(self).wf(),
        ensures
            final(self).wf(),
            final(self)@ == old(self)@.remove(ip),
    {
        match self.find(ip) {
            Some(i) => {
                proof {
                    lemma_remove(self.failures@, i as int);
                }
                self.failures.remove(i);
            },
            None => {
                assert(self@ =~= self@.remove(ip));
            },
        }
    }

    /// A successful pairing of `ip`: its failure count starts over.
    pub fn record_success(&mut self, ip: IpAddr)
        requires
            old(self).wf(),
        ensures
            final(self).wf(),
            final(self)@ == old(self)@.remove(ip),
    {
        self.clear(ip);
    }

    /// The window currently held for `ip`.
    pub fn window_for(&self, ip: IpAddr) -> (r: Option<FailureWindow>)
        requires
            self.wf(),
        ensures
            r == self@.get(ip),
    {
        match self.find(ip) {
            Some(i) => {
                proof {
                    lemma_entry(self.failures@, i as int);
                }
                Some(self.failures[i].1)
            },
            None => None,
        }
    }

    /// How many clients currently have a window.
    pub fn tracked_ip_count(&self) -> (r: usize)
        requires
            self.wf(),
        ensures
            r == self@.dom().len(),
    {
        proof {
            lemma_len(self.failures@);
        }
        self.failures.len()
    }
}

impl Default for PairRateLimiter {
    /// The same as `new`.
    fn default() -> (r: Self)
        ensures
            r.wf(),
            r@ == Map::<IpAddr, FailureWindow>::empty(),
    {
        PairRateLimiter::new()
    }
}


/// The window a client has after failures at each of `times`, in order,
/// starting from `prev`.
pub open spec fn after_failures(prev: Option<FailureWindow>, times: Seq<u64>) -> Option<FailureWindow>
    decreases times.len(),
{
    if times.len() == 0 {
        prev
    } else {
        Some(next_window(after_failures(prev, times.drop_last()), times.last()))
    }
}

/// Failures of a client with no record, at times that do not go backwards
/// and all fall within one window of the first: after `k` of them the
/// window counts `min(k, FAILURE_THRESHOLD)` from the first failure, so the
/// client is refused from the fifth failure on, until the first failure is a
/// whole window old (the boundary itself no longer refused).
pub proof fn lemma_threshold_within_window(times: Seq<u64>, probe: u64)
    requires
        times.len() >= 1,
        forall|i: int, j: int| 0 <= i <= j < times.len() ==> times[i] <= times[j],
        forall|i: int| 0 <= i < times.len() ==> #[trigger] times[i] - times[0] < FAILURE_WINDOW_NANOS,
    ensures
        after_failures(None, times) == Some(
            FailureWindow {
                count: if times.len() >= FAILURE_THRESHOLD {
                    FAILURE_THRESHOLD
                } else {
                    times.len() as u32
                },
                window_start: times[0],
            },
        ),
        limited(after_failures(None, times), probe) <==> (times.len() >= FAILURE_THRESHOLD && !(probe
            >= times[0] && probe - times[0] >= FAILURE_WINDOW_NANOS)),
    decreases times.len(),
{
    let init = times.drop_last();
    let last = times.last();
    assert(last == times[times.len() - 1]);
    assert(times[times.len() - 1] - times[0] < FAILURE_WINDOW_NANOS);
    assert(times[0] <= times[times.len() - 1]);
    if times.len() > 1 {
        assert forall|i: int, j: int| 0 <= i <= j < init.len() implies init[i] <= init[j] by {
            assert(init[i] == times[i] && init[j] == times[j]);
        }
        assert forall|i: int| 0 <= i < init.len() implies #[trigger] init[i] - init[0] < FAILURE_WINDOW_NANOS by {
            assert(init[i] == times[i]);
        }
        lemma_threshold_within_window(init, probe);
        assert(init[0] == times[0]);
        let w = after_failures(None, init)->0;
        assert(!window_expired(w, last));
        assert(after_failures(None, times) == Some(next_window(Some(w), last)));
    } else {
        assert(init.len() == 0);
        assert(after_failures(None, init) == None::<FailureWindow>);
        assert(after_failures(None, times) == Some(next_window(None, last)));
    }
}

/// Where the window left by failures at `times` (from no record) opened:
/// the first failure that came a whole window or more after the start of
/// the window before it.
spec fn burst_start(times: Seq<u64>) -> int
    decreases times.len(),
{
    if times.len() <= 1 {
        0
    } else {
        let k = burst_start(times.drop_last());
        if times.last() >= times[k] && times.last() - times[k] >= FAILURE_WINDOW_NANOS {
            times.len() - 1
        } else {
            k
        }
    }
}

/// The window after failures at non-decreasing `times` counts the failures
/// since `burst_start` (up to the threshold), all of which lie within one
/// window of that start.
proof fn lemma_window_after_failures(times: Seq<u64>)
    requires
        times.len() >= 1,
        forall|i: int, j: int| 0 <= i <= j < times.len() ==> times[i] <= times[j],
    ensures
        0 <= burst_start(times) < times.len(),
        after_failures(None, times) == Some(
            FailureWindow {
                count: if times.len() - burst_start(times) >= FAILURE_THRESHOLD {
                    FAILURE_THRESHOLD
                } else {
                    (times.len() - burst_start(times)) as u32
                },
                window_start: times[burst_start(times)],
            },
        ),
        forall|j: int|
            burst_start(times) <= j < times.len() ==> #[trigger] times[j] - times[burst_start(times)]
                < FAILURE_WINDOW_NANOS,
    decreases times.len(),
{
    let n = times.len();
    let init = times.drop_last();
    let last = times.last();
    assert(last == times[n - 1]);
    if n == 1 {
        assert(init.len() == 0);
        assert(after_failures(None, init) == None::<FailureWindow>);
    } else {
        assert forall|i: int, j: int| 0 <= i <= j < init.len() implies init[i] <= init[j] by {
            assert(init[i] == times[i] && init[j] == times[j]);
        }
        lemma_window_after_failures(init);
        let k = burst_start(init);
        assert(init[k] == times[k]);
        assert(times[k] <= last);
        assert forall|j: int| k <= j < init.len() implies #[trigger] times[j] - times[k] < FAILURE_WINDOW_NANOS by {
            assert(init[j] == times[j]);
            assert(init[j] - init[k] < FAILURE_WINDOW_NANOS);
        }
    }
}

/// A client is refused only after a burst: if failures at non-decreasing
/// times leave it refused at any moment, then `FAILURE_THRESHOLD` of those
/// failures, one after another, lie within one window of the earliest of
/// them. Failures spread out more thinly, however many, never lock a
/// client out, since a failure after the window ran out starts the count
/// over at one.
pub proof fn lemma_limited_needs_burst(times: Seq<u64>, probe: u64)
    requires
        forall|i: int, j: int| 0 <= i <= j < times.len() ==> times[i] <= times[j],
    ensures
        limited(after_failures(None, times), probe) ==> exists|k: int|
            #![trigger times[k]]
            0 <= k && k + FAILURE_THRESHOLD <= times.len() && forall|j: int|
                k <= j < k + FAILURE_THRESHOLD ==> #[trigger] times[j] - times[k] < FAILURE_WINDOW_NANOS,
{
    if times.len() == 0 {
        assert(after_failures(None, times) == None::<FailureWindow>);
    } else {
        lemma_window_after_failures(times);
        let k = burst_start(times);
        if limited(after_failures(None, times), probe) {
            assert(k + FAILURE_THRESHOLD <= times.len());
            assert(times[k] - times[k] < FAILURE_WINDOW_NANOS);
            assert(forall|j: int| k <= j < k + FAILURE_THRESHOLD ==> #[trigger] times[j] - times[k] < FAILURE_WINDOW_NANOS);
        }
    }
}

/// A failure after the client's window has run out starts a new window at
/// that moment with a count of one, whatever the old count was.
pub proof fn lemma_expired_window_restarts(w: FailureWindow, now: u64)
    requires
        window_expired(w, now),
    ensures
        next_window(Some(w), now) == (FailureWindow { count: 1, window_start: now }),
        !limited(Some(next_window(Some(w), now)), now),
{
}

} // verus!
