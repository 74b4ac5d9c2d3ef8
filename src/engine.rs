use vstd::prelude::*;
use crate::bandwidth_limiter::{with_request, BandwidthLimiter};
use crate::item::ChokeItem;
use crate::queue::{Queue, QueueView};
use crate::random::{chance, PROBABILITY_ONE};
use crate::settings::{BandwidthLimit, ChokeSettings, ChokeSettingsOrder, ConfigError, ONE_SECOND};
use crate::time::{after, spec_after};

verus! {

/// How long the shaper waits before it looks again when items are held and
/// nothing tells it when one ripens: 20 ms, in nanoseconds.
pub const FALLBACK_TICK: u64 = 20_000_000;

/// The queue once `item`, and then `copy` with no delay, have come in.
pub open spec fn spec_take_in<T>(
    q: QueueView<T>,
    item: T,
    copy: Option<T>,
    delay: Option<u64>,
    now: u64,
) -> QueueView<T> {
    let q1 = q.spec_push_back(item, delay, now);
    match copy {
        Some(c) => q1.spec_push_back(c, None, now),
        None => q1,
    }
}

/// The records of `l` once the window has moved up to `now`.
pub open spec fn updated_records(l: BandwidthLimiter, now: u64) -> Seq<(u64, usize)> {
    l.records().skip(l.spec_stale(now) as int)
}

/// `count + 1`, held at the largest value.
pub open spec fn bumped(count: usize) -> usize {
    if count < usize::MAX {
        (count + 1) as usize
    } else {
        count
    }
}

/// The earlier of two optional instants.
pub open spec fn earliest(a: Option<u64>, b: Option<u64>) -> Option<u64> {
    match (a, b) {
        (Some(x), Some(y)) => Some(if x <= y { x } else { y }),
        (Some(x), None) => Some(x),
        (None, y) => y,
    }
}

/// A bandwidth limit in force, with its window of recent emissions.
pub struct Throttle {
    pub limit: BandwidthLimit,
    pub window: BandwidthLimiter,
}

/// The throttle that a configured limit starts with: none for a zero rate.
pub open spec fn fresh_throttle(limit: Option<BandwidthLimit>, t: Option<Throttle>) -> bool {
    match limit {
        Some(c) if c.bytes_per_second > 0 => t matches Some(th) && {
            &&& th.limit == c
            &&& th.window.wf()
            &&& th.window.spec_limit() == c.bytes_per_second
            &&& th.window.spec_window() == ONE_SECOND
            &&& th.window.records().len() == 0
        },
        _ => t is None,
    }
}

/// The empty queue that an ordering policy starts with: ordered for
/// [`ChokeSettingsOrder::Ordered`], unordered for the two others.
pub open spec fn empty_queue_for<T>(ordering: ChokeSettingsOrder) -> QueueView<T> {
    if ordering == ChokeSettingsOrder::Ordered {
        QueueView::Ordered(Seq::empty())
    } else {
        QueueView::Unordered(Seq::empty(), Seq::empty())
    }
}

/// The shaping engine: takes items in, holds them by the ordering policy and
/// their delays, and lets them out within the bandwidth limit.
///
/// An outer loop drives it. For each upstream item, while
/// [`ShapingEngine::intake_open`] holds, the loop asks
/// [`ShapingEngine::screen`] whether the item survives, samples the latency
/// for a survivor and hands both to [`ShapingEngine::enqueue`]. Then it asks
/// [`ShapingEngine::emit`] for an item to pass on, and otherwise sleeps until
/// [`ShapingEngine::wake_at`].
pub struct ShapingEngine<T> {
    queue: Queue<T>,
    drop_probability: u32,
    corrupt_probability: u32,
    duplicate_probability: u32,
    throttle: Option<Throttle>,
    ordering: ChokeSettingsOrder,
    has_dropped_item: bool,
    total_packets: usize,
    dropped_packets: usize,
}

impl<T: ChokeItem> ShapingEngine<T> {
    pub closed spec fn queue_view(&self) -> QueueView<T> {
        self.queue.view()
    }

    /// Every item held.
    pub open spec fn held(&self) -> Seq<T> {
        self.queue_view().held()
    }

    pub closed spec fn spec_ordering(&self) -> ChokeSettingsOrder {
        self.ordering
    }

    pub closed spec fn spec_drop_probability(&self) -> u32 {
        self.drop_probability
    }

    pub closed spec fn spec_corrupt_probability(&self) -> u32 {
        self.corrupt_probability
    }

    pub closed spec fn spec_duplicate_probability(&self) -> u32 {
        self.duplicate_probability
    }

    pub closed spec fn spec_throttle(&self) -> Option<Throttle> {
        self.throttle
    }

    pub closed spec fn spec_has_dropped_item(&self) -> bool {
        self.has_dropped_item
    }

    pub closed spec fn spec_total_packets(&self) -> usize {
        self.total_packets
    }

    pub closed spec fn spec_dropped_packets(&self) -> usize {
        self.dropped_packets
    }

    pub closed spec fn wf(&self) -> bool {
        &&& self.queue.wf()
        &&& (self.ordering == ChokeSettingsOrder::Ordered <==> self.queue is Ordered)
        &&& self.drop_probability <= PROBABILITY_ONE
        &&& self.corrupt_probability <= PROBABILITY_ONE
        &&& self.duplicate_probability <= PROBABILITY_ONE
        &&& (self.throttle matches Some(t) ==> {
            &&& t.window.wf()
            &&& t.limit.drop_ratio <= PROBABILITY_ONE
            &&& t.limit.bytes_per_second > 0
            &&& t.window.spec_limit() == t.limit.bytes_per_second
            &&& t.window.spec_window() == ONE_SECOND
        })
    }

    /// A well-formed engine holds the queue of its ordering policy, and its
    /// throttle's window is a well-formed one-second window at the configured rate.
    pub proof fn lemma_wf_parts(&self)
        requires
            self.wf(),
        ensures
            self.spec_ordering() == ChokeSettingsOrder::Ordered <==> self.queue_view() is Ordered,
            self.queue_view().wf(),
            self.spec_throttle() matches Some(t) ==> {
                &&& t.window.wf()
                &&& t.limit.bytes_per_second > 0
                &&& t.window.spec_limit() == t.limit.bytes_per_second
                &&& t.window.spec_window() == ONE_SECOND
            },
    {
    }

    /// Whether the bandwidth limit may drop an incoming item now.
    pub open spec fn spec_bandwidth_gate(&self) -> bool {
        match self.spec_throttle() {
            Some(t) => !t.limit.only_drop_when_bandwidth_limit_reached || t.window.burden()
                >= t.window.spec_limit(),
            None => false,
        }
    }

    /// Whether an upstream item may be taken now.
    pub open spec fn spec_intake_open(&self) -> bool {
        !(self.spec_ordering() == ChokeSettingsOrder::Backpressure && self.held().len() > 0)
    }

    /// Everything but the queue, the limiter and the counters is as in `old`.
    pub open spec fn same_settings(&self, old: &Self) -> bool {
        &&& self.spec_ordering() == old.spec_ordering()
        &&& self.spec_drop_probability() == old.spec_drop_probability()
        &&& self.spec_corrupt_probability() == old.spec_corrupt_probability()
        &&& self.spec_duplicate_probability() == old.spec_duplicate_probability()
    }

    /// An engine with nothing held, configured by `settings` over the defaults
    /// (no loss, corruption, duplication or limit, ordered); settings with a
    /// probability above one are refused.
    pub fn new(settings: ChokeSettings) -> (r: Result<Self, ConfigError>)
        ensures
            r is Ok <==> settings.valid(),
            r is Err ==> r == Err::<Self, ConfigError>(ConfigError::InvalidProbability),
            r matches Ok(e) ==> {
                &&& e.wf()
                &&& e.queue_view() == empty_queue_for::<T>(e.spec_ordering())
                &&& e.spec_ordering() == match settings.ordering {
                    Some(o) => o,
                    None => ChokeSettingsOrder::Ordered,
                }
                &&& e.spec_drop_probability() == match settings.drop_probability {
                    Some(p) => p,
                    None => 0,
                }
                &&& e.spec_corrupt_probability() == match settings.corrupt_probability {
                    Some(p) => p,
                    None => 0,
                }
                &&& e.spec_duplicate_probability() == match settings.duplicate_probability {
                    Some(p) => p,
                    None => 0,
                }
                &&& fresh_throttle(
                    match settings.bandwidth_limit {
                        Some(l) => l,
                        None => None,
                    },
                    e.spec_throttle(),
                )
                &&& !e.spec_has_dropped_item()
                &&& e.spec_total_packets() == 0
                &&& e.spec_dropped_packets() == 0
            },
    {
        let ordering = match settings.ordering {
            Some(o) => o,
            None => ChokeSettingsOrder::Ordered,
        };
        let mut engine = ShapingEngine {
            queue: Queue::queue_for_ordering(ordering),
            drop_probability: 0,
            corrupt_probability: 0,
            duplicate_probability: 0,
            throttle: None,
            ordering,
            has_dropped_item: false,
            total_packets: 0,
            dropped_packets: 0,
        };
        match engine.apply_settings(settings) {
            Ok(()) => Ok(engine),
            Err(e) => Err(e),
        }
    }

    /// Replaces each setting that `settings` gives and keeps the others. A
    /// new ordering starts over with an empty queue of its kind, and the
    /// items held are discarded. Settings with a probability above one are
    /// refused, and nothing changes.
    pub fn apply_settings(&mut self, settings: ChokeSettings) -> (r: Result<(), ConfigError>)
        requires
            old(self).wf(),
        ensures
            final(self).wf(),
            r is Ok <==> settings.valid(),
            r is Err ==> r == Err::<(), ConfigError>(ConfigError::InvalidProbability) && *final(self)
                == *old(self),
            r is Ok ==> {
                &&& final(self).spec_drop_probability() == match settings.drop_probability {
                    Some(p) => p,
                    None => old(self).spec_drop_probability(),
                }
                &&& final(self).spec_corrupt_probability() == match settings.corrupt_probability {
                    Some(p) => p,
                    None => old(self).spec_corrupt_probability(),
                }
                &&& final(self).spec_duplicate_probability() == match settings.duplicate_probability {
                    Some(p) => p,
                    None => old(self).spec_duplicate_probability(),
                }
                &&& match settings.bandwidth_limit {
                    Some(l) => fresh_throttle(l, final(self).spec_throttle()),
                    None => final(self).spec_throttle() == old(self).spec_throttle(),
                }
                &&& match settings.ordering {
                    Some(o) => final(self).spec_ordering() == o && final(self).queue_view()
                        == empty_queue_for::<T>(o),
                    None => final(self).spec_ordering() == old(self).spec_ordering()
                        && final(self).queue_view() == old(self).queue_view(),
                }
                &&& final(self).spec_has_dropped_item() == old(self).spec_has_dropped_item()
                &&& final(self).spec_total_packets() == old(self).spec_total_packets()
                &&& final(self).spec_dropped_packets() == old(self).spec_dropped_packets()
            },
    {
        match settings.validate() {
            Ok(()) => {},
            Err(e) => {
                return Err(e);
            },
        }
        let ChokeSettings {
            drop_probability,
            corrupt_probability,
            duplicate_probability,
            bandwidth_limit,
            ordering,
        } = settings;
        match drop_probability {
            Some(p) => self.drop_probability = p,
            None => {},
        }
        match corrupt_probability {
            Some(p) => self.corrupt_probability = p,
            None => {},
        }
        match duplicate_probability {
            Some(p) => self.duplicate_probability = p,
            None => {},
        }
        match ordering {
            Some(o) => {
                self.ordering = o;
                self.queue = Queue::queue_for_ordering(o);
            },
            None => {},
        }
        match bandwidth_limit {
            Some(Some(limit)) => {
                if limit.bytes_per_second > 0 {
                    match BandwidthLimiter::new(limit.bytes_per_second, ONE_SECOND) {
                        Ok(window) => self.throttle = Some(Throttle { limit, window }),
                        Err(_) => self.throttle = None,
                    }
                } else {
                    self.throttle = None;
                }
            },
            Some(None) => self.throttle = None,
            None => {},
        }
        Ok(())
    }

    /// Whether any item is held.
    pub fn pending(&self) -> (r: bool)
        ensures
            r == (self.held().len() > 0),
    {
        self.queue.pending()
    }

    /// Whether an item was dropped since the flag was last cleared.
    pub fn has_dropped_item(&self) -> (r: bool)
        ensures
            r == self.spec_has_dropped_item(),
    {
        self.has_dropped_item
    }

    pub fn reset_dropped_item(&mut self)
        ensures
            !final(self).spec_has_dropped_item(),
            final(self).queue_view() == old(self).queue_view(),
            final(self).same_settings(old(self)),
            final(self).spec_throttle() == old(self).spec_throttle(),
            final(self).spec_total_packets() == old(self).spec_total_packets(),
            final(self).spec_dropped_packets() == old(self).spec_dropped_packets(),
            final(self).wf() == old(self).wf(),
    {
        self.has_dropped_item = false;
    }

    /// Clears the dropped-item flag and says whether it was set: a flush that
    /// finds nothing to let out is complete when the item it waited for was
    /// dropped.
    pub fn take_dropped_item(&mut self) -> (r: bool)
        ensures
            r == old(self).spec_has_dropped_item(),
            !final(self).spec_has_dropped_item(),
            final(self).queue_view() == old(self).queue_view(),
            final(self).same_settings(old(self)),
            final(self).spec_throttle() == old(self).spec_throttle(),
            final(self).spec_total_packets() == old(self).spec_total_packets(),
            final(self).spec_dropped_packets() == old(self).spec_dropped_packets(),
            final(self).wf() == old(self).wf(),
    {
        let r = self.has_dropped_item;
        self.has_dropped_item = false;
        r
    }

    /// Whether the stream has ended: upstream is done and nothing is held.
    pub fn finished(&self, upstream_done: bool) -> (r: bool)
        ensures
            r == (upstream_done && self.held().len() == 0),
    {
        upstream_done && !self.pending()
    }

    pub fn backpressure(&self) -> (r: bool)
        ensures
            r == (self.spec_ordering() == ChokeSettingsOrder::Backpressure),
    {
        self.ordering == ChokeSettingsOrder::Backpressure
    }

    /// Whether an upstream item may be taken now: always, but under
    /// backpressure only while nothing is held.
    pub fn intake_open(&self) -> (r: bool)
        ensures
            r == self.spec_intake_open(),
    {
        !(self.backpressure() && self.pending())
    }

    /// How many items have been let out.
    pub fn total_packets(&self) -> (r: usize)
        ensures
            r == self.spec_total_packets(),
    {
        self.total_packets
    }

    /// How many items have been dropped.
    pub fn dropped_packets(&self) -> (r: usize)
        ensures
            r == self.spec_dropped_packets(),
    {
        self.dropped_packets
    }

    /// Decides on an incoming item from two draws: the bandwidth draw drops it
    /// where the bandwidth limit may drop, the loss draw drops it in any case.
    /// Returns whether the item survives; a drop is counted and flagged.
    pub fn screen_with(&mut self, bandwidth_draw: bool, loss_draw: bool) -> (r: bool)
        requires
            old(self).wf(),
        ensures
            final(self).wf(),
            r == !((old(self).spec_bandwidth_gate() && bandwidth_draw) || loss_draw),
            final(self).queue_view() == old(self).queue_view(),
            final(self).same_settings(old(self)),
            final(self).spec_throttle() == old(self).spec_throttle(),
            final(self).spec_total_packets() == old(self).spec_total_packets(),
            r ==> final(self).spec_has_dropped_item() == old(self).spec_has_dropped_item()
                && final(self).spec_dropped_packets() == old(self).spec_dropped_packets(),
            !r ==> final(self).spec_has_dropped_item() && final(self).spec_dropped_packets()
                == bumped(old(self).spec_dropped_packets()),
    {
        let gate = match &self.throttle {
            Some(t) => !t.limit.only_drop_when_bandwidth_limit_reached || t.window.limit_reached(),
            None => false,
        };
        if (gate && bandwidth_draw) || loss_draw {
            self.dropped_packets = self.dropped_packets.saturating_add(1);
            self.has_dropped_item = true;
            false
        } else {
            true
        }
    }

    /// Decides on an incoming item by random draws: the bandwidth limit's
    /// drop ratio and the drop probability. Returns whether it survives.
    pub fn screen(&mut self) -> (r: bool)
        requires
            old(self).wf(),
        ensures
            final(self).wf(),
            ({
                let ratio = match old(self).spec_throttle() {
                    Some(t) => t.limit.drop_ratio,
                    None => 0,
                };
                &&& old(self).spec_drop_probability() == 0 && (!old(self).spec_bandwidth_gate() || ratio
                    == 0) ==> r
                &&& old(self).spec_drop_probability() == PROBABILITY_ONE ==> !r
                &&& old(self).spec_bandwidth_gate() && ratio == PROBABILITY_ONE ==> !r
            }),
            final(self).queue_view() == old(self).queue_view(),
            final(self).same_settings(old(self)),
            final(self).spec_throttle() == old(self).spec_throttle(),
            final(self).spec_total_packets() == old(self).spec_total_packets(),
            r ==> final(self).spec_has_dropped_item() == old(self).spec_has_dropped_item()
                && final(self).spec_dropped_packets() == old(self).spec_dropped_packets(),
            !r ==> final(self).spec_has_dropped_item() && final(self).spec_dropped_packets()
                == bumped(old(self).spec_dropped_packets()),
    {
        let bandwidth_draw = match &self.throttle {
            Some(t) => chance(t.limit.drop_ratio),
            None => false,
        };
        let loss_draw = chance(self.drop_probability);
        self.screen_with(bandwidth_draw, loss_draw)
    }

    /// Takes in an item that survived screening, with its delay, and a copy
    /// of it that goes in right behind it with no delay.
    pub fn take_in(&mut self, item: T, copy: Option<T>, delay: Option<u64>, now: u64)
        requires
            old(self).wf(),
        ensures
            final(self).wf(),
            final(self).queue_view() == spec_take_in(old(self).queue_view(), item, copy, delay, now),
            final(self).same_settings(old(self)),
            final(self).spec_throttle() == old(self).spec_throttle(),
            final(self).spec_has_dropped_item() == old(self).spec_has_dropped_item(),
            final(self).spec_total_packets() == old(self).spec_total_packets(),
            final(self).spec_dropped_packets() == old(self).spec_dropped_packets(),
    {
        self.queue.push_back(item, delay, now);
        match copy {
            Some(c) => self.queue.push_back(c, None, now),
            None => {},
        }
    }

    /// Takes in an item that survived screening, with its sampled delay:
    /// corrupts it if the corruption draw says so, asks it for a copy if the
    /// duplication draw says so, and queues it, then the copy. Returns
    /// whether a copy went in.
    pub fn enqueue_with(
        &mut self,
        item: T,
        delay: Option<u64>,
        corrupt_draw: bool,
        duplicate_draw: bool,
        now: u64,
    ) -> (duplicated: bool)
        requires
            old(self).wf(),
        ensures
            final(self).wf(),
            exists|x: T, copy: Option<T>|
                {
                    &&& final(self).queue_view() == spec_take_in(old(self).queue_view(), x, copy, delay, now)
                    &&& (copy is Some <==> duplicated)
                    &&& (!corrupt_draw && !duplicate_draw ==> x == item)
                },
            duplicated ==> duplicate_draw,
            final(self).same_settings(old(self)),
            final(self).spec_throttle() == old(self).spec_throttle(),
            final(self).spec_has_dropped_item() == old(self).spec_has_dropped_item(),
            final(self).spec_total_packets() == old(self).spec_total_packets(),
            final(self).spec_dropped_packets() == old(self).spec_dropped_packets(),
    {
        let mut item = item;
        if corrupt_draw {
            item.corrupt();
        }
        let copy = if duplicate_draw {
            item.duplicate()
        } else {
            None
        };
        let duplicated = copy.is_some();
        let ghost x = item;
        let ghost c = copy;
        self.take_in(item, copy, delay, now);
        assert(self.queue_view() == spec_take_in(old(self).queue_view(), x, c, delay, now));
        duplicated
    }

    /// Takes in an item that survived screening, with its sampled delay,
    /// drawing corruption and duplication by their probabilities.
    pub fn enqueue(&mut self, item: T, delay: Option<u64>, now: u64) -> (duplicated: bool)
        requires
            old(self).wf(),
        ensures
            final(self).wf(),
            exists|x: T, copy: Option<T>|
                {
                    &&& final(self).queue_view() == spec_take_in(old(self).queue_view(), x, copy, delay, now)
                    &&& (copy is Some <==> duplicated)
                    &&& (old(self).spec_corrupt_probability() == 0
                        && old(self).spec_duplicate_probability() == 0 ==> x == item)
                },
            old(self).spec_duplicate_probability() == 0 ==> !duplicated,
            final(self).same_settings(old(self)),
            final(self).spec_throttle() == old(self).spec_throttle(),
            final(self).spec_has_dropped_item() == old(self).spec_has_dropped_item(),
            final(self).spec_total_packets() == old(self).spec_total_packets(),
            final(self).spec_dropped_packets() == old(self).spec_dropped_packets(),
    {
        let corrupt_draw = chance(self.corrupt_probability);
        let duplicate_draw = chance(self.duplicate_probability);
        self.enqueue_with(item, delay, corrupt_draw, duplicate_draw, now)
    }

    /// Lets out the next item at `now`, if one is due and the bandwidth limit
    /// allows it. Delayed items that have ripened join the ready line first.
    /// An item that the limit holds back goes back to the front, with no
    /// delay, and the limiter records each item let out.
    pub fn emit(&mut self, now: u64) -> (r: Option<T>)
        requires
            old(self).wf(),
        ensures
            final(self).wf(),
            final(self).same_settings(old(self)),
            final(self).spec_has_dropped_item() == old(self).spec_has_dropped_item(),
            final(self).spec_dropped_packets() == old(self).spec_dropped_packets(),
            ({
                let q = old(self).queue_view().spec_expire(now);
                match q.spec_head(now) {
                    None => {
                        &&& r is None
                        &&& final(self).queue_view() == q
                        &&& final(self).spec_throttle() == old(self).spec_throttle()
                        &&& final(self).spec_total_packets() == old(self).spec_total_packets()
                    },
                    Some(x) => match old(self).spec_throttle() {
                        None => {
                            &&& r == Some(x)
                            &&& final(self).queue_view() == q.spec_pop(now)
                            &&& final(self).spec_throttle() is None
                            &&& final(self).spec_total_packets() == bumped(old(self).spec_total_packets())
                        },
                        Some(l) => {
                            let kept = updated_records(l.window, now);
                            &&& final(self).spec_throttle() matches Some(l2) && {
                                &&& l2.limit == l.limit
                                &&& l2.window.spec_limit() == l.window.spec_limit()
                                &&& l2.window.spec_window() == l.window.spec_window()
                                &&& if crate::bandwidth_limiter::sum_weights(kept) < l.window.spec_limit() {
                                    &&& r == Some(x)
                                    &&& final(self).queue_view() == q.spec_pop(now)
                                    &&& final(self).spec_total_packets() == bumped(
                                        old(self).spec_total_packets(),
                                    )
                                    &&& exists|w: usize|
                                        l2.window.records() == #[trigger] with_request(
                                            kept,
                                            w,
                                            now,
                                            l.window.spec_window(),
                                        )
                                } else {
                                    &&& r is None
                                    &&& final(self).queue_view() == q.spec_pop(now).spec_push_front(
                                        x,
                                        None,
                                        now,
                                    )
                                    &&& l2.window.records() == kept
                                    &&& final(self).spec_total_packets() == old(
                                        self,
                                    ).spec_total_packets()
                                }
                            }
                        },
                    },
                }
            }),
    {
        self.queue.expire(now);
        let popped = self.queue.pop_front(now);
        match popped {
            None => None,
            Some(item) => {
                let refused = match &mut self.throttle {
                    Some(l) => {
                        l.window.update_at(now);
                        if !l.window.limit_reached() {
                            l.window.add_request_at(item.byte_len(), now);
                            false
                        } else {
                            true
                        }
                    },
                    None => false,
                };
                if refused {
                    self.queue.push_front(item, None, now);
                    None
                } else {
                    self.total_packets = self.total_packets.saturating_add(1);
                    Some(item)
                }
            },
        }
    }

    /// When the outer loop should look again, while items are held: the
    /// earlier of the instant the next delayed item ripens and the instant
    /// the oldest bandwidth record leaves the window, or `now` plus
    /// [`FALLBACK_TICK`] where neither is known. None when nothing is held.
    pub fn wake_at(&self, now: u64) -> (r: Option<u64>)
        requires
            self.wf(),
        ensures
            self.held().len() == 0 ==> r is None,
            self.held().len() > 0 ==> {
                let limiter_deadline = match self.spec_throttle() {
                    Some(l) => if l.window.records().len() > 0 {
                        Some(spec_after(l.window.records()[0].0, l.window.spec_window()))
                    } else {
                        None
                    },
                    None => None,
                };
                let e = earliest(self.queue_view().spec_deadline(), limiter_deadline);
                r == if e is Some {
                    e
                } else {
                    Some(spec_after(now, FALLBACK_TICK))
                }
            },
    {
        if !self.pending() {
            return None;
        }
        let queue_deadline = self.queue.deadline();
        let limiter_deadline = match &self.throttle {
            Some(l) => l.window.deadline(),
            None => None,
        };
        let e = match (queue_deadline, limiter_deadline) {
            (Some(x), Some(y)) => Some(
                if x <= y {
                    x
                } else {
                    y
                },
            ),
            (Some(x), None) => Some(x),
            (None, y) => y,
        };
        match e {
            Some(t) => Some(t),
            None => Some(after(now, FALLBACK_TICK)),
        }
    }
}

} // verus!
