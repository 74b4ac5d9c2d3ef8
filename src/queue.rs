use vstd::prelude::*;
use std::collections::VecDeque;
use crate::bandwidth_limiter::leading_below;
use crate::settings::ChokeSettingsOrder;
use crate::time::{after, spec_after};

verus! {

/// Keys never decrease along `s`.
pub open spec fn keys_sorted<X>(s: Seq<(u64, X)>) -> bool {
    forall|i: int, j: int| 0 <= i < j < s.len() ==> s[i].0 <= s[j].0
}

/// The items of a list of entries, keys left out.
pub open spec fn values_of<K, X>(s: Seq<(K, X)>) -> Seq<X> {
    s.map_values(|e: (K, X)| e.1)
}

/// `s` with `(key, x)` placed after every entry whose key is at most `key`.
pub open spec fn insert_by_key<X>(s: Seq<(u64, X)>, key: u64, x: X) -> Seq<(u64, X)> {
    s.insert(leading_below(s, key + 1) as int, (key, x))
}

/// How many entries of an ordered queue carry a deadline.
pub open spec fn count_delayed<X>(s: Seq<(Option<u64>, X)>) -> nat
    decreases s.len(),
{
    if s.len() == 0 {
        0
    } else {
        (if s[0].0 is Some { 1nat } else { 0nat }) + count_delayed(s.drop_first())
    }
}

/// The deadline of an entry made at `now` with an optional `delay`.
pub open spec fn deadline_of(delay: Option<u64>, now: u64) -> Option<u64> {
    match delay {
        Some(d) => Some(spec_after(now, d)),
        None => None,
    }
}

proof fn lemma_count_delayed_push<X>(s: Seq<(Option<u64>, X)>, e: (Option<u64>, X))
    ensures
        count_delayed(s.push(e)) == count_delayed(s) + (if e.0 is Some { 1nat } else { 0nat }),
        count_delayed(s) <= s.len(),
    decreases s.len(),
{
    if s.len() > 0 {
        lemma_count_delayed_push(s.drop_first(), e);
        assert(s.push(e).drop_first() =~= s.drop_first().push(e));
    } else {
        assert(s.push(e).drop_first() =~= s);
    }
}

pub proof fn lemma_leading_below_exact<X>(s: Seq<(u64, X)>, bound: int, i: int)
    requires
        0 <= i <= s.len(),
        forall|j: int| 0 <= j < i ==> s[j].0 < bound,
        i == s.len() || s[i].0 >= bound,
    ensures
        leading_below(s, bound) == i,
    decreases i,
{
    if i > 0 {
        let t = s.drop_first();
        assert forall|j: int| 0 <= j < i - 1 implies t[j].0 < bound by {
            assert(t[j] == s[j + 1]);
        }
        if i < s.len() {
            assert(t[i - 1] == s[i]);
        }
        lemma_leading_below_exact(t, bound, i - 1);
    }
}

/// Ready items in arrival order, and delayed items ordered by release instant.
pub struct UnorderedQueue<T> {
    queue: VecDeque<T>,
    delay_queue: VecDeque<(u64, T)>,
}

impl<T> UnorderedQueue<T> {
    /// Items that may leave now, first out first.
    pub closed spec fn ready(&self) -> Seq<T> {
        self.queue@
    }

    /// Items that wait for their release instant, earliest first.
    pub closed spec fn waiting(&self) -> Seq<(u64, T)> {
        self.delay_queue@
    }

    pub open spec fn wf(&self) -> bool {
        keys_sorted(self.waiting())
    }

    pub fn new() -> (r: Self)
        ensures
            r.wf(),
            r.ready() == Seq::<T>::empty(),
            r.waiting() == Seq::<(u64, T)>::empty(),
    {
        UnorderedQueue { queue: VecDeque::new(), delay_queue: VecDeque::new() }
    }

    pub fn queued(&self) -> (r: usize)
        ensures
            r == self.ready().len(),
    {
        self.queue.len()
    }

    pub fn delayed(&self) -> (r: usize)
        ensures
            r == self.waiting().len(),
    {
        self.delay_queue.len()
    }

    pub fn pending(&self) -> (r: bool)
        ensures
            r == (self.ready().len() > 0 || self.waiting().len() > 0),
    {
        self.queue.len() > 0 || self.delay_queue.len() > 0
    }

    /// The earliest release instant among the delayed items.
    pub fn deadline(&self) -> (r: Option<u64>)
        ensures
            self.waiting().len() == 0 ==> r is None,
            self.waiting().len() > 0 ==> r == Some(self.waiting()[0].0),
    {
        if self.delay_queue.len() == 0 {
            None
        } else {
            Some(self.delay_queue[0].0)
        }
    }

    /// Moves every delayed item whose instant is at most `now` to the end of
    /// the ready items, earliest first.
    pub fn expire(&mut self, now: u64)
        requires
            old(self).wf(),
        ensures
            final(self).wf(),
            ({
                let k = leading_below(old(self).waiting(), now + 1) as int;
                &&& final(self).ready() == old(self).ready() + values_of(old(self).waiting().take(k))
                &&& final(self).waiting() == old(self).waiting().skip(k)
            }),
    {
        let ghost w0 = self.delay_queue@;
        let ghost r0 = self.queue@;
        let ghost bound: int = now + 1;
        let ghost i: int = 0;
        proof {
            assert(w0.skip(0) =~= w0);
            assert(values_of(w0.take(0)) =~= Seq::<T>::empty());
            assert(r0 + Seq::<T>::empty() =~= r0);
        }
        while self.delay_queue.len() > 0 && self.delay_queue[0].0 <= now
            invariant
                0 <= i <= w0.len(),
                bound == now + 1,
                keys_sorted(w0),
                self.delay_queue@ == w0.skip(i),
                self.queue@ == r0 + values_of(w0.take(i)),
                leading_below(w0, bound) == i + leading_below(self.delay_queue@, bound),
            decreases self.delay_queue@.len(),
        {
            let ghost before = self.delay_queue@;
            let front = self.delay_queue.pop_front();
            match front {
                Some((_, item)) => {
                    self.queue.push_back(item);
                },
                None => {},
            }
            proof {
                assert(self.delay_queue@ =~= before.drop_first());
                assert(w0.skip(i + 1) =~= w0.skip(i).drop_first());
                assert(before[0] == w0[i]);
                assert(leading_below(before, bound) == 1 + leading_below(before.drop_first(), bound));
                assert(values_of(w0.take(i + 1)) =~= values_of(w0.take(i)).push(w0[i].1));
                i = i + 1;
            }
        }
        proof {
            let k = leading_below(w0, bound) as int;
            assert(k == i);
        }
    }

    pub fn pop_front(&mut self) -> (r: Option<T>)
        requires
            old(self).wf(),
        ensures
            final(self).wf(),
            final(self).waiting() == old(self).waiting(),
            old(self).ready().len() == 0 ==> r is None && final(self).ready() == old(self).ready(),
            old(self).ready().len() > 0 ==> r == Some(old(self).ready()[0])
                && final(self).ready() == old(self).ready().drop_first(),
    {
        let r = self.queue.pop_front();
        proof {
            if old(self).ready().len() > 0 {
                assert(self.queue@ =~= old(self).ready().drop_first());
            }
        }
        r
    }

    fn insert_delayed(&mut self, key: u64, item: T)
        requires
            old(self).wf(),
        ensures
            final(self).wf(),
            final(self).ready() == old(self).ready(),
            final(self).waiting() == insert_by_key(old(self).waiting(), key, item),
    {
        let ghost s = self.delay_queue@;
        let mut i: usize = 0;
        while i < self.delay_queue.len() && self.delay_queue[i].0 <= key
            invariant
                s == self.delay_queue@,
                keys_sorted(s),
                0 <= i <= s.len(),
                forall|j: int| 0 <= j < i ==> s[j].0 <= key,
            decreases s.len() - i,
        {
            i = i + 1;
        }
        proof {
            lemma_leading_below_exact(s, key + 1, i as int);
        }
        self.delay_queue.insert(i, (key, item));
        proof {
            let t = self.delay_queue@;
            assert forall|a: int, b: int| 0 <= a < b < t.len() implies t[a].0 <= t[b].0 by {
                if b < i {
                } else if b == i {
                } else if a < i {
                    assert(t[b] == s[b - 1]);
                    if i < s.len() {
                        assert(s[i as int].0 > key);
                    }
                } else if a == i {
                    assert(t[b] == s[b - 1]);
                    assert(s[i as int].0 > key);
                } else {
                    assert(t[a] == s[a - 1]);
                    assert(t[b] == s[b - 1]);
                }
            }
        }
    }

    /// A delayed item goes in by its release instant `now + delay`; another
    /// goes to the front of the ready items.
    pub fn push_front(&mut self, item: T, delay: Option<u64>, now: u64)
        requires
            old(self).wf(),
        ensures
            final(self).wf(),
            match delay {
                Some(d) => final(self).ready() == old(self).ready() && final(self).waiting()
                    == insert_by_key(old(self).waiting(), spec_after(now, d), item),
                None => final(self).ready() == seq![item] + old(self).ready() && final(self).waiting()
                    == old(self).waiting(),
            },
    {
        match delay {
            Some(d) => self.insert_delayed(after(now, d), item),
            None => self.queue.push_front(item),
        }
    }

    /// A delayed item goes in by its release instant `now + delay`; another
    /// goes to the back of the ready items.
    pub fn push_back(&mut self, item: T, delay: Option<u64>, now: u64)
        requires
            old(self).wf(),
        ensures
            final(self).wf(),
            match delay {
                Some(d) => final(self).ready() == old(self).ready() && final(self).waiting()
                    == insert_by_key(old(self).waiting(), spec_after(now, d), item),
                None => final(self).ready() == old(self).ready().push(item) && final(self).waiting()
                    == old(self).waiting(),
            },
    {
        match delay {
            Some(d) => self.insert_delayed(after(now, d), item),
            None => self.queue.push_back(item),
        }
    }
}

/// One line of items, each with an optional release instant; only the head
/// may leave, and only once its instant has come.
pub struct OrderedQueue<T> {
    queue: VecDeque<(Option<u64>, T)>,
    delayed: usize,
}

impl<T> OrderedQueue<T> {
    pub closed spec fn entries(&self) -> Seq<(Option<u64>, T)> {
        self.queue@
    }

    pub closed spec fn wf(&self) -> bool {
        self.delayed as nat == count_delayed(self.queue@)
    }

    pub fn new() -> (r: Self)
        ensures
            r.wf(),
            r.entries() == Seq::<(Option<u64>, T)>::empty(),
    {
        let r = OrderedQueue { queue: VecDeque::new(), delayed: 0 };
        proof {
            assert(count_delayed(r.queue@) == 0);
        }
        r
    }

    pub fn queued(&self) -> (r: usize)
        ensures
            r == self.entries().len(),
    {
        self.queue.len()
    }

    pub fn delayed(&self) -> (r: usize)
        requires
            self.wf(),
        ensures
            r == count_delayed(self.entries()),
    {
        self.delayed
    }

    pub fn pending(&self) -> (r: bool)
        ensures
            r == (self.entries().len() > 0),
    {
        self.queue.len() > 0
    }

    /// The release instant of the head, if it has one.
    pub fn deadline(&self) -> (r: Option<u64>)
        ensures
            self.entries().len() == 0 ==> r is None,
            self.entries().len() > 0 ==> r == self.entries()[0].0,
    {
        if self.queue.len() == 0 {
            None
        } else {
            self.queue[0].0
        }
    }

    /// The head, unless its release instant is still after `now`; items
    /// behind the head wait in any case.
    pub fn pop_front(&mut self, now: u64) -> (r: Option<T>)
        requires
            old(self).wf(),
        ensures
            final(self).wf(),
            ({
                let s = old(self).entries();
                if s.len() > 0 && !(s[0].0 matches Some(t) && t > now) {
                    r == Some(s[0].1) && final(self).entries() == s.drop_first()
                } else {
                    r is None && final(self).entries() == s
                }
            }),
    {
        if self.queue.len() == 0 {
            return None;
        }
        let head = self.queue[0].0;
        match head {
            Some(t) => {
                if t > now {
                    return None;
                }
            },
            None => {},
        }
        let ghost s = self.queue@;
        let front = self.queue.pop_front();
        proof {
            assert(self.queue@ =~= s.drop_first());
        }
        match front {
            Some((deadline, item)) => {
                if deadline.is_some() {
                    self.delayed = self.delayed - 1;
                }
                Some(item)
            },
            None => None,
        }
    }

    /// Puts `item` at the front or the back, with release instant
    /// `now + delay` where there is a delay.
    pub fn push(&mut self, front: bool, item: T, delay: Option<u64>, now: u64)
        requires
            old(self).wf(),
        ensures
            final(self).wf(),
            front ==> final(self).entries() == seq![(deadline_of(delay, now), item)] + old(self).entries(),
            !front ==> final(self).entries() == old(self).entries().push((deadline_of(delay, now), item)),
    {
        let deadline = match delay {
            Some(d) => Some(after(now, d)),
            None => None,
        };
        let ghost s = self.queue@;
        let ghost e = (deadline, item);
        proof {
            lemma_count_delayed_push(s, e);
            assert((seq![e] + s).drop_first() =~= s);
        }
        if front {
            self.queue.push_front((deadline, item));
        } else {
            self.queue.push_back((deadline, item));
        }
        proof {
            lemma_count_delayed_push(self.queue@, e);
            assert(self.queue.len() == self.queue@.len());
        }
        if deadline.is_some() {
            self.delayed = self.delayed + 1;
        }
    }
}

/// What a [`Queue`] holds.
pub enum QueueView<T> {
    /// Ready items, first out first; delayed items with their release instants.
    Unordered(Seq<T>, Seq<(u64, T)>),
    /// Entries in line, each with an optional release instant.
    Ordered(Seq<(Option<u64>, T)>),
}

impl<T> QueueView<T> {
    pub open spec fn wf(self) -> bool {
        match self {
            QueueView::Unordered(_, w) => keys_sorted(w),
            QueueView::Ordered(_) => true,
        }
    }

    /// Every item held, ready ones first.
    pub open spec fn held(self) -> Seq<T> {
        match self {
            QueueView::Unordered(r, w) => r + values_of(w),
            QueueView::Ordered(e) => values_of(e),
        }
    }

    pub open spec fn spec_push_back(self, item: T, delay: Option<u64>, now: u64) -> Self {
        match self {
            QueueView::Unordered(r, w) => match delay {
                Some(d) => QueueView::Unordered(r, insert_by_key(w, spec_after(now, d), item)),
                None => QueueView::Unordered(r.push(item), w),
            },
            QueueView::Ordered(e) => QueueView::Ordered(e.push((deadline_of(delay, now), item))),
        }
    }

    pub open spec fn spec_push_front(self, item: T, delay: Option<u64>, now: u64) -> Self {
        match self {
            QueueView::Unordered(r, w) => match delay {
                Some(d) => QueueView::Unordered(r, insert_by_key(w, spec_after(now, d), item)),
                None => QueueView::Unordered(seq![item] + r, w),
            },
            QueueView::Ordered(e) => QueueView::Ordered(seq![(deadline_of(delay, now), item)] + e),
        }
    }

    pub open spec fn spec_expire(self, now: u64) -> Self {
        match self {
            QueueView::Unordered(r, w) => {
                let k = leading_below(w, now + 1) as int;
                QueueView::Unordered(r + values_of(w.take(k)), w.skip(k))
            },
            QueueView::Ordered(e) => QueueView::Ordered(e),
        }
    }

    /// The item that may leave at `now`, if any.
    pub open spec fn spec_head(self, now: u64) -> Option<T> {
        match self {
            QueueView::Unordered(r, _) => if r.len() > 0 {
                Some(r[0])
            } else {
                None
            },
            QueueView::Ordered(e) => if e.len() > 0 && !(e[0].0 matches Some(t) && t > now) {
                Some(e[0].1)
            } else {
                None
            },
        }
    }

    /// The queue once the item that may leave at `now` has left.
    pub open spec fn spec_pop(self, now: u64) -> Self {
        match self {
            QueueView::Unordered(r, w) => if r.len() > 0 {
                QueueView::Unordered(r.drop_first(), w)
            } else {
                self
            },
            QueueView::Ordered(e) => if e.len() > 0 && !(e[0].0 matches Some(t) && t > now) {
                QueueView::Ordered(e.drop_first())
            } else {
                self
            },
        }
    }

    /// The earliest instant at which a held item ripens.
    pub open spec fn spec_deadline(self) -> Option<u64> {
        match self {
            QueueView::Unordered(_, w) => if w.len() > 0 {
                Some(w[0].0)
            } else {
                None
            },
            QueueView::Ordered(e) => if e.len() > 0 {
                e[0].0
            } else {
                None
            },
        }
    }
}

/// The queue of the shaper: one kind per ordering policy.
pub enum Queue<T> {
    Unordered(UnorderedQueue<T>),
    Ordered(OrderedQueue<T>),
}

impl<T> Queue<T> {
    pub open spec fn view(&self) -> QueueView<T> {
        match self {
            Queue::Unordered(q) => QueueView::Unordered(q.ready(), q.waiting()),
            Queue::Ordered(q) => QueueView::Ordered(q.entries()),
        }
    }

    pub open spec fn wf(&self) -> bool {
        match self {
            Queue::Unordered(q) => q.wf(),
            Queue::Ordered(q) => q.wf(),
        }
    }

    /// An empty queue: ordered for [`ChokeSettingsOrder::Ordered`], unordered
    /// for the two other policies.
    pub fn queue_for_ordering(ordering: ChokeSettingsOrder) -> (r: Self)
        ensures
            r.wf(),
            ordering == ChokeSettingsOrder::Ordered ==> r.view() == QueueView::<T>::Ordered(Seq::empty()),
            ordering != ChokeSettingsOrder::Ordered ==> r.view() == QueueView::<T>::Unordered(
                Seq::empty(),
                Seq::empty(),
            ),
    {
        match ordering {
            ChokeSettingsOrder::Ordered => Queue::Ordered(OrderedQueue::new()),
            ChokeSettingsOrder::Unordered | ChokeSettingsOrder::Backpressure => Queue::Unordered(
                UnorderedQueue::new(),
            ),
        }
    }

    /// How many items wait in line (ready ones, for the unordered queue).
    pub fn queued(&self) -> (r: usize)
        ensures
            r == match self.view() {
                QueueView::Unordered(rd, _) => rd.len(),
                QueueView::Ordered(e) => e.len(),
            },
    {
        match self {
            Queue::Unordered(q) => q.queued(),
            Queue::Ordered(q) => q.queued(),
        }
    }

    /// How many held items carry a release instant.
    pub fn delayed(&self) -> (r: usize)
        requires
            self.wf(),
        ensures
            r == match self.view() {
                QueueView::Unordered(_, w) => w.len(),
                QueueView::Ordered(e) => count_delayed(e),
            },
    {
        match self {
            Queue::Unordered(q) => q.delayed(),
            Queue::Ordered(q) => q.delayed(),
        }
    }

    pub fn pending(&self) -> (r: bool)
        ensures
            r == (self.view().held().len() > 0),
    {
        match self {
            Queue::Unordered(q) => q.pending(),
            Queue::Ordered(q) => q.pending(),
        }
    }

    pub fn deadline(&self) -> (r: Option<u64>)
        ensures
            r == self.view().spec_deadline(),
    {
        match self {
            Queue::Unordered(q) => q.deadline(),
            Queue::Ordered(q) => q.deadline(),
        }
    }

    pub fn expire(&mut self, now: u64)
        requires
            old(self).wf(),
        ensures
            final(self).wf(),
            final(self).view() == old(self).view().spec_expire(now),
    {
        match self {
            Queue::Unordered(q) => q.expire(now),
            Queue::Ordered(_) => {},
        }
    }

    pub fn pop_front(&mut self, now: u64) -> (r: Option<T>)
        requires
            old(self).wf(),
        ensures
            final(self).wf(),
            r == old(self).view().spec_head(now),
            final(self).view() == old(self).view().spec_pop(now),
    {
        match self {
            Queue::Unordered(q) => q.pop_front(),
            Queue::Ordered(q) => q.pop_front(now),
        }
    }

    pub fn push_front(&mut self, item: T, delay: Option<u64>, now: u64)
        requires
            old(self).wf(),
        ensures
            final(self).wf(),
            final(self).view() == old(self).view().spec_push_front(item, delay, now),
    {
        match self {
            Queue::Unordered(q) => q.push_front(item, delay, now),
            Queue::Ordered(q) => q.push(true, item, delay, now),
        }
    }

    pub fn push_back(&mut self, item: T, delay: Option<u64>, now: u64)
        requires
            old(self).wf(),
        ensures
            final(self).wf(),
            final(self).view() == old(self).view().spec_push_back(item, delay, now),
    {
        match self {
            Queue::Unordered(q) => q.push_back(item, delay, now),
            Queue::Ordered(q) => q.push(false, item, delay, now),
        }
    }
}

} // verus!
