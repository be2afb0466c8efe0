//! Bounded-concurrency fetch pipeline.
//!
//! The scheduler decides which transfer starts when a slot frees and
//! collects one outcome per source, in completion order; the runner
//! performs the transfers themselves. A transfer's failure occupies its
//! result slot like a success does, so one lost source never aborts the
//! round. `Progress` is the per-transfer byte counter an observer may read.

use vstd::prelude::*;

use vstd::arithmetic::div_mod::lemma_fundamental_div_mod;
use vstd::arithmetic::div_mod::lemma_mod_bound;

verus! {

/// The outcome of retrieving one source: the raw bytes, or the source's
/// URL together with the cause of its failure.
#[derive(Debug, Clone)]
pub enum FetchOutcome {
    Success(Vec<u8>),
    Failure(String, String),
}

/// Per-transfer progress: bytes received so far, and the total the server
/// announced — zero when unknown, progress then reports bytes only. Each
/// transfer owns its own counter; observers only read it.
#[derive(Debug, Clone, Copy, PartialEq, Eq, Structural)]
pub struct Progress {
    pub received: u64,
    pub total: u64,
}

impl Progress {
    /// A fresh counter for a transfer expecting `total` bytes (zero when
    /// the size is unknown).
    pub fn new(total: u64) -> (p: Progress)
        ensures
            p.received == 0,
            p.total == total,
    {
        Progress { received: 0, total }
    }

    /// Accounts one received chunk. The count never moves backwards, and
    /// saturates at the top of the range rather than wrapping.
    pub fn record_chunk(&mut self, n: u64)
        ensures
            final(self).total == old(self).total,
            final(self).received == (if old(self).received + n <= u64::MAX {
                old(self).received + n
            } else {
                u64::MAX as int
            }),
            final(self).received >= old(self).received,
    {
        if n <= u64::MAX - self.received {
            self.received = self.received + n;
        } else {
            self.received = u64::MAX;
        }
    }
}

/// The work queue of one fetch round: which sources have started, how
/// many transfers are in flight under the concurrency cap, and the
/// outcomes collected so far. The runner owns the transfers; every
/// mutation of the shared result set goes through `complete`, one append
/// at a time.
pub struct FetchScheduler {
    pub sources: Vec<String>,
    pub cap: usize,
    pub started: usize,
    pub in_flight: usize,
    pub results: Vec<FetchOutcome>,
}

impl FetchScheduler {
    /// Every transfer is accounted for: each started source is either
    /// still in flight or has delivered exactly one outcome, no more than
    /// `cap` are in flight, and no source starts twice.
    pub open spec fn wf(&self) -> bool {
        &&& self.cap >= 1
        &&& self.started <= self.sources@.len()
        &&& self.in_flight <= self.cap
        &&& self.in_flight + self.results@.len() == self.started
    }

    /// A scheduler over `sources` allowing at most `cap` simultaneous
    /// transfers.
    pub fn new(sources: Vec<String>, cap: usize) -> (s: FetchScheduler)
        requires
            cap >= 1,
        ensures
            s.wf(),
            s.sources == sources,
            s.cap == cap,
            s.started == 0,
            s.in_flight == 0,
            s.results@.len() == 0,
    {
        FetchScheduler { sources, cap, started: 0, in_flight: 0, results: Vec::new() }
    }

    /// Starts the next queued source if a slot is free, handing its URL to
    /// the runner; `None` exactly when all sources have started or the cap
    /// is reached, so sources beyond the cap queue until a slot frees.
    pub fn start_next(&mut self) -> (r: Option<String>)
        requires
            old(self).wf(),
        ensures
            final(self).wf(),
            final(self).sources == old(self).sources,
            final(self).cap == old(self).cap,
            final(self).results == old(self).results,
            r is Some <==> (old(self).started < old(self).sources@.len() && old(self).in_flight
                < old(self).cap),
            r matches Some(url) ==> {
                &&& final(self).started == old(self).started + 1
                &&& final(self).in_flight == old(self).in_flight + 1
                &&& url == old(self).sources@[old(self).started as int]
            },
            r is None ==> *final(self) == *old(self),
    {
        if self.started < self.sources.len() && self.in_flight < self.cap {
            let url = self.sources[self.started].clone();
            self.started = self.started + 1;
            self.in_flight = self.in_flight + 1;
            Some(url)
        } else {
            None
        }
    }

    /// Records the outcome of one in-flight transfer, freeing its slot.
    /// Outcomes are appended as they complete, in any order.
    pub fn complete(&mut self, outcome: FetchOutcome)
        requires
            old(self).wf(),
            old(self).in_flight >= 1,
        ensures
            final(self).wf(),
            final(self).sources == old(self).sources,
            final(self).cap == old(self).cap,
            final(self).started == old(self).started,
            final(self).in_flight == old(self).in_flight - 1,
            final(self).results@ == old(self).results@.push(outcome),
    {
        self.in_flight = self.in_flight - 1;
        self.results.push(outcome);
    }

    /// Whether every configured source has delivered its outcome.
    pub fn is_finished(&self) -> (r: bool)
        requires
            self.wf(),
        ensures
            r == (self.results@.len() == self.sources@.len() && self.in_flight == 0),
    {
        self.results.len() == self.sources.len() && self.in_flight == 0
    }

    /// Hands the collected outcomes over, exactly one per source.
    pub fn into_results(self) -> (r: Vec<FetchOutcome>)
        requires
            self.wf(),
            self.in_flight == 0,
            self.results@.len() == self.sources@.len(),
        ensures
            r == self.results,
            r@.len() == self.sources@.len(),
    {
        self.results
    }
}

/// Law: the round's completion policy. Once every source has started and
/// no transfer is left in flight, the scheduler holds exactly one outcome
/// per source — a failed transfer fills its slot just as a success does,
/// so no failure can short-circuit the others out of the result set.
pub proof fn lemma_one_outcome_per_source(s: FetchScheduler)
    requires
        s.wf(),
        s.started == s.sources@.len(),
        s.in_flight == 0,
    ensures
        s.results@.len() == s.sources@.len(),
{
}

/// The number of full rounds of transfers that `k` sources need under a
/// concurrency cap of `cap`: the ceiling of `k / cap`.
pub open spec fn rounds_needed(k: nat, cap: nat) -> nat
    recommends
        cap >= 1,
{
    (((k + cap - 1) as int) / (cap as int)) as nat
}

/// Law: latency is bounded by ⌈k/cap⌉ sequential rounds, not by k. With
/// at most `cap` transfers in flight, ⌈k/cap⌉ rounds of up to `cap`
/// completions cover all `k` sources, and (for k > 0) one round fewer
/// cannot.
pub proof fn lemma_latency_bound(k: nat, cap: nat)
    requires
        cap >= 1,
    ensures
        rounds_needed(k, cap) * cap >= k,
        k > 0 ==> (rounds_needed(k, cap) - 1) * cap < k,
        k == 0 ==> rounds_needed(k, cap) == 0,
{
    let x = (k + cap - 1) as int;
    let d = cap as int;
    let q = x / d;
    lemma_fundamental_div_mod(x, d);
    lemma_mod_bound(x, d);
    assert(x == d * q + (x % d));
    assert(d * q == q * d) by (nonlinear_arith);
    assert(q * d >= x - (d - 1));
    assert((q - 1) * d == q * d - d) by (nonlinear_arith);
    if k == 0 {
        assert(x < d);
        assert(x >= 0);
        assert(q == 0) by {
            if q >= 1 {
                assert(q * d >= d) by (nonlinear_arith)
                    requires q >= 1 && d >= 1;
            }
            if q < 0 {
                assert(q * d <= -d) by (nonlinear_arith)
                    requires q <= -1 && d >= 1;
            }
            assert(d * q == x - (x % d));
        }
    } else {
        assert(q >= 0) by {
            if q < 0 {
                assert(q * d <= -d) by (nonlinear_arith)
                    requires q <= -1 && d >= 1;
            }
        }
        assert(rounds_needed(k, cap) == q);
    }
}

/// Sources accounted for after `rounds` full rounds against a fresh
/// scheduler. A full round starts transfers with `start_next` until the
/// cap refuses, then completes each: with nothing left in flight and
/// `done` outcomes collected, that starts exactly `cap` more sources, or
/// all that remain.
pub open spec fn sources_done_after(k: nat, cap: nat, rounds: nat) -> nat
    decreases rounds,
{
    if rounds == 0 {
        0
    } else {
        let before = sources_done_after(k, cap, (rounds - 1) as nat);
        if k - before >= cap {
            (before + cap) as nat
        } else {
            k
        }
    }
}

proof fn lemma_sources_done_bound(k: nat, cap: nat, r: nat)
    requires
        cap >= 1,
    ensures
        sources_done_after(k, cap, r) == (if k <= r * cap {
            k as int
        } else {
            (r * cap) as int
        }),
    decreases r,
{
    if r == 0 {
    } else {
        lemma_sources_done_bound(k, cap, (r - 1) as nat);
        assert(r * cap == (r - 1) * cap + cap) by (nonlinear_arith);
    }
}

/// Law: the round bound is achieved. Starting from a fresh scheduler over
/// `k` sources, ⌈k/cap⌉ full rounds — each starting what the cap allows
/// and completing it — account for every source; no source waits for k
/// sequential rounds.
pub proof fn lemma_rounds_drain_all(k: nat, cap: nat)
    requires
        cap >= 1,
    ensures
        sources_done_after(k, cap, rounds_needed(k, cap)) == k,
{
    lemma_latency_bound(k, cap);
    lemma_sources_done_bound(k, cap, rounds_needed(k, cap));
}

} // verus!
