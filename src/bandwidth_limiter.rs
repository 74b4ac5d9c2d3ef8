use vstd::prelude::*;
use std::collections::VecDeque;
use crate::settings::ConfigError;
use crate::time::{after, spec_after, MonotonicClock};

verus! {

/// Sum of the weights of a list of `(timestamp, weight)` records.
pub open spec fn sum_weights(s: Seq<(u64, usize)>) -> nat
    decreases s.len(),
{
    if s.len() == 0 {
        0
    } else {
        sum_weights(s.drop_last()) + s.last().1 as nat
    }
}

/// Number of leading entries of `s` whose key lies below `bound`.
pub open spec fn leading_below<X>(s: Seq<(u64, X)>, bound: int) -> nat
    decreases s.len(),
{
    if s.len() == 0 || s[0].0 >= bound {
        0
    } else {
        1 + leading_below(s.drop_first(), bound)
    }
}

/// The records once a request of weight `w` at `now` has come in and the
/// window has moved up to `now`.
pub open spec fn with_request(s: Seq<(u64, usize)>, w: usize, now: u64, window: u64) -> Seq<(u64, usize)> {
    let grown = s.push((now, w));
    grown.skip(leading_below(grown, now - window) as int)
}

proof fn lemma_sum_drop_first(s: Seq<(u64, usize)>)
    requires
        s.len() > 0,
    ensures
        sum_weights(s) == s[0].1 + sum_weights(s.drop_first()),
    decreases s.len(),
{
    if s.len() > 1 {
        lemma_sum_drop_first(s.drop_last());
        assert(s.drop_last().drop_first() =~= s.drop_first().drop_last());
    } else {
        assert(s.drop_last() =~= Seq::<(u64, usize)>::empty());
        assert(s.drop_first() =~= Seq::<(u64, usize)>::empty());
    }
}

/// Leaving out the oldest records never adds weight.
pub proof fn lemma_sum_skip(s: Seq<(u64, usize)>, k: int)
    requires
        0 <= k <= s.len(),
    ensures
        sum_weights(s.skip(k)) <= sum_weights(s),
    decreases k,
{
    if k > 0 {
        lemma_sum_drop_first(s);
        lemma_sum_skip(s.drop_first(), k - 1);
        assert(s.drop_first().skip(k - 1) =~= s.skip(k));
    } else {
        assert(s.skip(0) =~= s);
    }
}

proof fn lemma_sum_bound(s: Seq<(u64, usize)>)
    ensures
        sum_weights(s) <= s.len() * (usize::MAX as nat),
    decreases s.len(),
{
    if s.len() > 0 {
        lemma_sum_bound(s.drop_last());
        let m = usize::MAX as nat;
        let n = s.drop_last().len();
        assert(n * m + m == (n + 1) * m) by (nonlinear_arith);
    }
}

pub proof fn lemma_leading_below_bound<X>(s: Seq<(u64, X)>, bound: int)
    ensures
        leading_below(s, bound) <= s.len(),
        forall|j: int| 0 <= j < leading_below(s, bound) ==> s[j].0 < bound,
    decreases s.len(),
{
    if s.len() > 0 && s[0].0 < bound {
        lemma_leading_below_bound(s.drop_first(), bound);
        assert forall|j: int| 0 <= j < leading_below(s, bound) implies s[j].0 < bound by {
            if j > 0 {
                assert(s[j] == s.drop_first()[j - 1]);
            }
        }
    }
}

/// A window of recent requests, each a timestamp and a weight, that answers
/// whether their total weight has reached a limit.
///
/// The limiter is permissive: it records requests beyond the limit, and the
/// caller decides what to do when [`BandwidthLimiter::limit_reached`] says so.
pub struct BandwidthLimiter {
    limit: usize,
    current_burden: u128,
    requests: VecDeque<(u64, usize)>,
    window: u64,
    clock: MonotonicClock,
}

impl BandwidthLimiter {
    /// The records still in the window, oldest first.
    pub closed spec fn records(&self) -> Seq<(u64, usize)> {
        self.requests@
    }

    /// The total weight still in the window.
    pub open spec fn burden(&self) -> nat {
        sum_weights(self.records())
    }

    pub closed spec fn spec_limit(&self) -> nat {
        self.limit as nat
    }

    /// Window length, in nanoseconds.
    pub closed spec fn spec_window(&self) -> u64 {
        self.window
    }

    pub closed spec fn wf(&self) -> bool {
        &&& self.current_burden as nat == sum_weights(self.requests@)
        &&& self.window > 0
    }

    /// What [`BandwidthLimiter::capacity_left`] returns.
    pub open spec fn spec_capacity_left(&self) -> nat {
        if self.burden() >= self.spec_limit() {
            0
        } else {
            (self.spec_limit() - self.burden()) as nat
        }
    }

    /// Records dropped by an update at `now`: those older than `now - window`.
    pub open spec fn spec_stale(&self, now: u64) -> nat {
        leading_below(self.records(), now - self.spec_window())
    }

    /// Makes a limiter for `limit` units per window of `window` nanoseconds;
    /// a window of zero length is refused.
    pub fn new(limit: usize, window: u64) -> (r: Result<Self, ConfigError>)
        ensures
            window == 0 <==> r is Err,
            r is Err ==> r == Err::<Self, ConfigError>(ConfigError::ZeroWindow),
            r matches Ok(l) ==> {
                &&& l.wf()
                &&& l.spec_limit() == limit
                &&& l.spec_window() == window
                &&& l.records() == Seq::<(u64, usize)>::empty()
            },
    {
        if window == 0 {
            return Err(ConfigError::ZeroWindow);
        }
        let l = BandwidthLimiter {
            limit,
            current_burden: 0,
            requests: VecDeque::new(),
            window,
            clock: MonotonicClock::new(),
        };
        proof {
            assert(l.requests@.len() == 0);
        }
        Ok(l)
    }

    pub fn limit_reached(&self) -> (r: bool)
        requires
            self.wf(),
        ensures
            r == (self.burden() >= self.spec_limit()),
    {
        self.capacity_left() == 0
    }

    /// `limit - burden`, or zero where the burden has reached the limit.
    pub fn capacity_left(&self) -> (r: usize)
        requires
            self.wf(),
        ensures
            r == self.spec_capacity_left(),
    {
        if self.current_burden >= self.limit as u128 {
            0
        } else {
            (self.limit as u128 - self.current_burden) as usize
        }
    }

    /// When the oldest record leaves the window.
    pub fn deadline(&self) -> (r: Option<u64>)
        requires
            self.wf(),
        ensures
            self.records().len() == 0 ==> r is None,
            self.records().len() > 0 ==> r == Some(spec_after(self.records()[0].0, self.spec_window())),
    {
        if self.requests.len() == 0 {
            None
        } else {
            Some(after(self.requests[0].0, self.window))
        }
    }

    /// Time from `now` until the oldest record leaves the window; none when
    /// there is no record or that moment has passed.
    pub fn deadline_duration(&self, now: u64) -> (r: Option<u64>)
        requires
            self.wf(),
        ensures
            match r {
                None => self.records().len() == 0 || spec_after(
                    self.records()[0].0,
                    self.spec_window(),
                ) < now,
                Some(d) => self.records().len() > 0 && d == spec_after(
                    self.records()[0].0,
                    self.spec_window(),
                ) - now,
            },
    {
        match self.deadline() {
            None => None,
            Some(deadline) => {
                if deadline >= now {
                    Some(deadline - now)
                } else {
                    None
                }
            },
        }
    }

    /// Drops every record older than `now - window`.
    pub fn update_at(&mut self, now: u64)
        requires
            old(self).wf(),
        ensures
            final(self).wf(),
            final(self).spec_limit() == old(self).spec_limit(),
            final(self).spec_window() == old(self).spec_window(),
            final(self).records() == old(self).records().skip(old(self).spec_stale(now) as int),
    {
        let cutoff: u64 = now.saturating_sub(self.window);
        let ghost bound: int = now - self.window;
        let ghost s0 = self.requests@;
        let ghost i: int = 0;
        proof {
            assert(s0.skip(0) =~= s0);
        }
        while self.requests.len() > 0 && self.requests[0].0 < cutoff
            invariant
                self.window == old(self).window,
                self.limit == old(self).limit,
                self.wf(),
                0 <= i <= s0.len(),
                self.requests@ == s0.skip(i),
                leading_below(s0, bound) == i + leading_below(self.requests@, bound),
                cutoff as int == if bound < 0 { 0 } else { bound },
            decreases self.requests@.len(),
        {
            let ghost before = self.requests@;
            proof {
                lemma_sum_drop_first(before);
            }
            let front = self.requests.pop_front();
            match front {
                Some((_, weight)) => {
                    self.current_burden = self.current_burden - weight as u128;
                },
                None => {},
            }
            proof {
                assert(self.requests@ =~= before.drop_first());
                assert(s0.skip(i + 1) =~= s0.skip(i).drop_first());
                i = i + 1;
            }
        }
    }

    /// The current reading of the limiter's own clock, which started when the
    /// limiter was made. Callers that mix [`BandwidthLimiter::add_request`]
    /// with the `_at` operations take their instants from here, so that all
    /// records share one timeline.
    pub fn now(&self) -> u64 {
        self.clock.now()
    }

    /// Records a request of `weight` at the limiter's own clock reading (see
    /// [`BandwidthLimiter::now`]).
    pub fn add_request(&mut self, weight: usize)
        requires
            old(self).wf(),
        ensures
            final(self).wf(),
            final(self).spec_limit() == old(self).spec_limit(),
            final(self).spec_window() == old(self).spec_window(),
            exists|now: u64|
                final(self).records() == #[trigger] with_request(
                    old(self).records(),
                    weight,
                    now,
                    old(self).spec_window(),
                ),
    {
        let now = self.clock.now();
        self.add_request_at(weight, now)
    }

    /// Records a request of `weight` at `now`, then updates the window to `now`.
    pub fn add_request_at(&mut self, weight: usize, now: u64)
        requires
            old(self).wf(),
        ensures
            final(self).wf(),
            final(self).spec_limit() == old(self).spec_limit(),
            final(self).spec_window() == old(self).spec_window(),
            final(self).records() == with_request(old(self).records(), weight, now, old(self).spec_window()),
    {
        let ghost before = self.requests@;
        self.requests.push_back((now, weight));
        proof {
            let s = self.requests@;
            assert(s.drop_last() =~= before);
            lemma_sum_bound(s);
            let m = usize::MAX as nat;
            assert(self.requests.len() == s.len());
            assert(s.len() <= m);
            assert(s.len() * m <= m * m) by (nonlinear_arith)
                requires s.len() <= m;
            assert(m * m < u128::MAX) by (nonlinear_arith)
                requires m == usize::MAX as nat;
        }
        self.current_burden = self.current_burden + weight as u128;
        self.update_at(now);
    }
}

} // verus!
