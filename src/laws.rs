//! What holds of runs of the shaper's queue: sequences of intakes and
//! emissions, as [`crate::ShapingEngine::take_in`] and
//! [`crate::ShapingEngine::emit`] perform them when no bandwidth limit holds an
//! item back.
use vstd::prelude::*;
use crate::bandwidth_limiter::{leading_below, lemma_leading_below_bound, lemma_sum_skip, sum_weights, with_request};
use crate::engine::spec_take_in;
use crate::queue::{insert_by_key, keys_sorted, lemma_leading_below_exact, values_of, QueueView};
use crate::time::spec_after;

verus! {

/// One step of a run.
pub enum QueueOp<T> {
    /// An item comes in with an optional copy, a delay and the current instant.
    TakeIn(T, Option<T>, Option<u64>, u64),
    /// An emission is asked for at an instant.
    Emit(u64),
}

/// The queue after one step, and the item that left, if any.
pub open spec fn step<T>(v: QueueView<T>, op: QueueOp<T>) -> (QueueView<T>, Option<T>) {
    match op {
        QueueOp::TakeIn(x, copy, delay, now) => (spec_take_in(v, x, copy, delay, now), None),
        QueueOp::Emit(now) => {
            let e = v.spec_expire(now);
            (e.spec_pop(now), e.spec_head(now))
        },
    }
}

/// The queue after a run of steps from `v`, and the items that left, in order.
pub open spec fn run<T>(v: QueueView<T>, ops: Seq<QueueOp<T>>) -> (QueueView<T>, Seq<T>)
    decreases ops.len(),
{
    if ops.len() == 0 {
        (v, Seq::empty())
    } else {
        let (v1, out) = run(v, ops.drop_last());
        let (v2, o) = step(v1, ops.last());
        (
            v2,
            match o {
                Some(x) => out.push(x),
                None => out,
            },
        )
    }
}

/// The items that came in during a run, copies right behind their originals.
pub open spec fn taken_in<T>(ops: Seq<QueueOp<T>>) -> Seq<T>
    decreases ops.len(),
{
    if ops.len() == 0 {
        Seq::empty()
    } else {
        let before = taken_in(ops.drop_last());
        match ops.last() {
            QueueOp::TakeIn(x, Some(c), _, _) => before.push(x).push(c),
            QueueOp::TakeIn(x, None, _, _) => before.push(x),
            QueueOp::Emit(_) => before,
        }
    }
}

/// How many steps of a run take an item in.
pub open spec fn intakes<T>(ops: Seq<QueueOp<T>>) -> nat
    decreases ops.len(),
{
    if ops.len() == 0 {
        0
    } else {
        intakes(ops.drop_last()) + if ops.last() is TakeIn {
            1nat
        } else {
            0nat
        }
    }
}

proof fn lemma_values_push<K, X>(s: Seq<(K, X)>, e: (K, X))
    ensures
        values_of(s.push(e)) == values_of(s).push(e.1),
{
    assert(values_of(s.push(e)) =~= values_of(s).push(e.1));
}

proof fn lemma_values_drop_first<K, X>(s: Seq<(K, X)>)
    requires
        s.len() > 0,
    ensures
        values_of(s) == seq![s[0].1] + values_of(s.drop_first()),
{
    assert(values_of(s) =~= seq![s[0].1] + values_of(s.drop_first()));
}

proof fn lemma_out_then_rest<X>(out: Seq<X>, held: Seq<X>)
    requires
        held.len() > 0,
    ensures
        out.push(held[0]) + held.drop_first() == out + held,
{
    assert(out.push(held[0]) + held.drop_first() =~= out + held);
}

/// Expiry moves items between the two parts of the queue and changes the
/// number held by nothing.
proof fn lemma_expire_len<T>(v: QueueView<T>, now: u64)
    ensures
        v.spec_expire(now).held().len() == v.held().len(),
        v.wf() ==> v.spec_expire(now).wf(),
{
    match v {
        QueueView::Unordered(r, w) => {
            let k = leading_below(w, now + 1) as int;
            lemma_leading_below_bound(w, now + 1);
            assert(w.take(k) + w.skip(k) =~= w);
        },
        QueueView::Ordered(_) => {},
    }
}

proof fn lemma_pop_len<T>(v: QueueView<T>, now: u64)
    ensures
        v.spec_head(now) is Some ==> v.held().len() > 0 && v.spec_pop(now).held().len() == v.held().len() - 1,
        v.spec_head(now) is None ==> v.spec_pop(now) == v,
        v.wf() ==> v.spec_pop(now).wf(),
{
}

proof fn lemma_push_len<T>(v: QueueView<T>, x: T, delay: Option<u64>, now: u64)
    ensures
        v.spec_push_back(x, delay, now).held().len() == v.held().len() + 1,
{
    match v {
        QueueView::Unordered(r, w) => {
            if let Some(d) = delay {
                lemma_leading_below_bound(w, spec_after(now, d) + 1);
            }
        },
        QueueView::Ordered(_) => {},
    }
}

/// However a run goes, every item that came in has either left or is still
/// held: none is lost and none appears from nowhere.
pub proof fn lemma_run_conserves_items<T>(v: QueueView<T>, ops: Seq<QueueOp<T>>)
    ensures
        run(v, ops).1.len() + run(v, ops).0.held().len() == v.held().len() + taken_in(ops).len(),
    decreases ops.len(),
{
    if ops.len() > 0 {
        lemma_run_conserves_items(v, ops.drop_last());
        let (v1, out) = run(v, ops.drop_last());
        match ops.last() {
            QueueOp::TakeIn(x, copy, delay, now) => {
                lemma_push_len(v1, x, delay, now);
                if let Some(c) = copy {
                    lemma_push_len(v1.spec_push_back(x, delay, now), c, None, now);
                }
            },
            QueueOp::Emit(now) => {
                lemma_expire_len(v1, now);
                lemma_pop_len(v1.spec_expire(now), now);
            },
        }
    }
}

/// An emission that the bandwidth limit refuses puts the item back where it
/// was: what is held, and its order, stay as they were.
pub proof fn lemma_refused_emission_keeps_items<T>(v: QueueView<T>, now: u64)
    requires
        v.spec_head(now) is Some,
    ensures
        v.spec_pop(now).spec_push_front(v.spec_head(now)->Some_0, None, now).held() == v.held(),
{
    match v {
        QueueView::Unordered(r, w) => {
            assert(seq![r[0]] + r.drop_first() =~= r);
        },
        QueueView::Ordered(e) => {
            let e1 = seq![(None::<u64>, e[0].1)] + e.drop_first();
            assert(values_of(e1) =~= values_of(e));
        },
    }
}

/// Under the ordered policy items leave in the order they came in, whatever
/// their delays: what has left, followed by what is still held, is exactly
/// what came in.
pub proof fn lemma_ordered_keeps_order<T>(ops: Seq<QueueOp<T>>)
    ensures
        run(QueueView::Ordered(Seq::empty()), ops).0 is Ordered,
        run(QueueView::Ordered(Seq::empty()), ops).1 + run(QueueView::Ordered(Seq::empty()), ops).0.held()
            == taken_in(ops),
    decreases ops.len(),
{
    let v0 = QueueView::<T>::Ordered(Seq::empty());
    if ops.len() == 0 {
        assert(Seq::<T>::empty() + v0.held() =~= Seq::<T>::empty());
    } else {
        lemma_ordered_keeps_order(ops.drop_last());
        let (v1, out) = run(v0, ops.drop_last());
        let e = v1->Ordered_0;
        match ops.last() {
            QueueOp::TakeIn(x, copy, delay, now) => {
                let e1 = e.push((crate::queue::deadline_of(delay, now), x));
                lemma_values_push(e, (crate::queue::deadline_of(delay, now), x));
                assert(out + values_of(e).push(x) =~= (out + values_of(e)).push(x));
                if let Some(c) = copy {
                    lemma_values_push(e1, (None::<u64>, c));
                    assert(out + values_of(e1).push(c) =~= (out + values_of(e1)).push(c));
                }
            },
            QueueOp::Emit(now) => {
                if e.len() > 0 && !(e[0].0 matches Some(t) && t > now) {
                    lemma_values_drop_first(e);
                    assert(values_of(e)[0] == e[0].1);
                    assert(values_of(e).drop_first() =~= values_of(e.drop_first()));
                    lemma_out_then_rest(out, values_of(e));
                }
            },
        }
    }
}

/// No step of the run delays an item.
pub open spec fn undelayed<T>(ops: Seq<QueueOp<T>>) -> bool {
    forall|i: int| 0 <= i < ops.len() ==> !(#[trigger] ops[i] matches QueueOp::TakeIn(_, _, Some(_), _))
}

/// Every item held may leave at once.
pub open spec fn all_ready<T>(v: QueueView<T>) -> bool {
    match v {
        QueueView::Unordered(_, w) => w.len() == 0,
        QueueView::Ordered(e) => forall|i: int| 0 <= i < e.len() ==> (#[trigger] e[i]).0 is None,
    }
}

/// An empty queue of either kind.
pub open spec fn empty_queue<T>(v: QueueView<T>) -> bool {
    v == QueueView::<T>::Ordered(Seq::empty()) || v == QueueView::<T>::Unordered(Seq::empty(), Seq::empty())
}

proof fn lemma_all_ready_emit<T>(v: QueueView<T>, now: u64)
    requires
        all_ready(v),
    ensures
        v.spec_expire(now) == v,
        v.held().len() > 0 ==> v.spec_head(now) == Some(v.held()[0]),
        all_ready(v.spec_pop(now)),
{
    match v {
        QueueView::Unordered(r, w) => {
            assert(w.take(0) =~= Seq::<(u64, T)>::empty());
            assert(w.skip(0) =~= w);
            assert(values_of(Seq::<(u64, T)>::empty()) =~= Seq::<T>::empty());
            assert(r + Seq::<T>::empty() =~= r);
            assert(values_of(w) =~= Seq::<T>::empty());
        },
        QueueView::Ordered(e) => {
            if e.len() > 0 {
                assert(e[0].0 is None);
                assert(values_of(e)[0] == e[0].1);
                assert forall|i: int| 0 <= i < e.drop_first().len() implies (#[trigger] e.drop_first()[i]).0 is None by {
                    assert(e.drop_first()[i] == e[i + 1]);
                }
            }
        },
    }
}

proof fn lemma_all_ready_push<T>(v: QueueView<T>, x: T, now: u64)
    requires
        all_ready(v),
    ensures
        all_ready(v.spec_push_back(x, None, now)),
        v.spec_push_back(x, None, now).held() == v.held().push(x),
{
    match v {
        QueueView::Unordered(r, w) => {
            assert(values_of(w) =~= Seq::<T>::empty());
            assert(r.push(x) + Seq::<T>::empty() =~= r.push(x));
            assert(r + Seq::<T>::empty() =~= r);
        },
        QueueView::Ordered(e) => {
            lemma_values_push(e, (None::<u64>, x));
            let e1 = e.push((None::<u64>, x));
            assert forall|i: int| 0 <= i < e1.len() implies (#[trigger] e1[i]).0 is None by {
                if i < e.len() {
                    assert(e1[i] == e[i]);
                }
            }
        },
    }
}

/// With no delays, the queue of either kind passes items on unchanged and in
/// order: what has left, followed by what is held, is what came in, and the
/// next emission lets out the first item held.
pub proof fn lemma_undelayed_identity<T>(v0: QueueView<T>, ops: Seq<QueueOp<T>>)
    requires
        empty_queue(v0),
        undelayed(ops),
    ensures
        run(v0, ops).1 + run(v0, ops).0.held() == taken_in(ops),
        all_ready(run(v0, ops).0),
        forall|now: u64| #![trigger step(run(v0, ops).0, QueueOp::Emit(now))]
            run(v0, ops).0.held().len() > 0 ==> step(run(v0, ops).0, QueueOp::<T>::Emit(now)).1 == Some(
                run(v0, ops).0.held()[0],
            ),
    decreases ops.len(),
{
    let (v, out) = run(v0, ops);
    if ops.len() == 0 {
        assert(values_of(Seq::<(u64, T)>::empty()) =~= Seq::<T>::empty());
        assert(values_of(Seq::<(Option<u64>, T)>::empty()) =~= Seq::<T>::empty());
        assert(Seq::<T>::empty() + v0.held() =~= Seq::<T>::empty());
    } else {
        let prefix = ops.drop_last();
        assert forall|i: int| 0 <= i < prefix.len() implies !(#[trigger] prefix[i] matches QueueOp::TakeIn(
            _,
            _,
            Some(_),
            _,
        )) by {
            assert(prefix[i] == ops[i]);
        }
        lemma_undelayed_identity(v0, prefix);
        let (v1, out1) = run(v0, prefix);
        assert(ops.last() == ops[ops.len() - 1]);
        match ops.last() {
            QueueOp::TakeIn(x, copy, delay, now) => {
                lemma_all_ready_push(v1, x, now);
                let v2 = v1.spec_push_back(x, None, now);
                assert(out1 + v1.held().push(x) =~= (out1 + v1.held()).push(x));
                if let Some(c) = copy {
                    lemma_all_ready_push(v2, c, now);
                    assert(out1 + v2.held().push(c) =~= (out1 + v2.held()).push(c));
                }
            },
            QueueOp::Emit(now) => {
                lemma_all_ready_emit(v1, now);
                if v1.held().len() > 0 {
                    match v1 {
                        QueueView::Unordered(r, w) => {
                            assert(values_of(w) =~= Seq::<T>::empty());
                            assert(r + Seq::<T>::empty() =~= r);
                            assert(r.drop_first() + Seq::<T>::empty() =~= r.drop_first());
                            lemma_out_then_rest(out1, r);
                        },
                        QueueView::Ordered(e) => {
                            lemma_values_drop_first(e);
                            assert(values_of(e).drop_first() =~= values_of(e.drop_first()));
                            lemma_out_then_rest(out1, values_of(e));
                        },
                    }
                }
            },
        }
    }
    assert forall|now: u64| #![trigger step(v, QueueOp::Emit(now))]
        v.held().len() > 0 implies step(v, QueueOp::<T>::Emit(now)).1 == Some(v.held()[0]) by {
        lemma_all_ready_emit(v, now);
    }
}

/// The queue after `items` came in at `now`, one by one, with `delays`.
pub open spec fn take_in_delayed<T>(v: QueueView<T>, items: Seq<T>, delays: Seq<u64>, now: u64) -> QueueView<T>
    decreases items.len(),
{
    if items.len() == 0 || delays.len() == 0 {
        v
    } else {
        take_in_delayed(v, items.drop_last(), delays.drop_last(), now).spec_push_back(
            items.last(),
            Some(delays.last()),
            now,
        )
    }
}

/// Delays that shrink from each item to the next.
pub open spec fn strictly_decreasing(delays: Seq<u64>) -> bool {
    forall|i: int, j: int| 0 <= i < j < delays.len() ==> delays[i] > delays[j]
}

proof fn lemma_decreasing_waiting<T>(items: Seq<T>, delays: Seq<u64>, now: u64)
    requires
        items.len() == delays.len(),
        strictly_decreasing(delays),
        delays.len() > 0 ==> now + delays[0] <= u64::MAX,
    ensures
        take_in_delayed(QueueView::Unordered(Seq::empty(), Seq::empty()), items, delays, now)
            == QueueView::Unordered(
            Seq::<T>::empty(),
            Seq::new(items.len(), |i: int| ((now + delays[items.len() - 1 - i]) as u64, items[items.len() - 1 - i])),
        ),
    decreases items.len(),
{
    let n = items.len() as int;
    let w = Seq::new(items.len(), |i: int| ((now + delays[n - 1 - i]) as u64, items[n - 1 - i]));
    if n == 0 {
        assert(w =~= Seq::<(u64, T)>::empty());
    } else {
        let its = items.drop_last();
        let ds = delays.drop_last();
        assert forall|i: int, j: int| 0 <= i < j < ds.len() implies ds[i] > ds[j] by {
            assert(ds[i] == delays[i] && ds[j] == delays[j]);
        }
        if ds.len() > 0 {
            assert(ds[0] == delays[0]);
        }
        lemma_decreasing_waiting(its, ds, now);
        let w1 = Seq::new(its.len(), |i: int| ((now + ds[its.len() - 1 - i]) as u64, its[its.len() - 1 - i]));
        let k = spec_after(now, delays.last());
        if n > 1 {
            assert(delays[0] >= delays[n - 1]);
            assert(delays[n - 2] > delays[n - 1]);
        }
        assert(k == now + delays[n - 1]);
        if w1.len() > 0 {
            assert(w1[0].0 == now + delays[n - 2]);
            assert(w1[0].0 >= k + 1);
        }
        assert(leading_below(w1, k + 1) == 0);
        assert(insert_by_key(w1, k, items.last()) =~= w);
    }
}

/// Under the unordered policy, items that come in at one instant with
/// shrinking delays all ripen by the largest delay, and then stand ready in
/// the reverse of the order they came in.
pub proof fn lemma_decreasing_delays_reverse<T>(items: Seq<T>, delays: Seq<u64>, now: u64, later: u64)
    requires
        items.len() == delays.len(),
        strictly_decreasing(delays),
        delays.len() > 0 ==> now + delays[0] <= later,
    ensures
        take_in_delayed(QueueView::Unordered(Seq::empty(), Seq::empty()), items, delays, now).spec_expire(later)
            == QueueView::Unordered(items.reverse(), Seq::empty()),
{
    lemma_decreasing_waiting(items, delays, now);
    let n = items.len() as int;
    let w = Seq::new(items.len(), |i: int| ((now + delays[n - 1 - i]) as u64, items[n - 1 - i]));
    assert forall|j: int| 0 <= j < n implies w[j].0 < later + 1 by {
        if j < n - 1 {
            assert(delays[0] >= delays[n - 1 - j]);
        }
    }
    lemma_leading_below_exact(w, later + 1, n);
    assert(w.take(n) =~= w);
    assert(w.skip(n) =~= Seq::<(u64, T)>::empty());
    assert(Seq::<T>::empty() + values_of(w) =~= items.reverse());
}

/// Every intake of the run brings a copy along.
pub open spec fn all_copied<T>(ops: Seq<QueueOp<T>>) -> bool {
    forall|i: int| 0 <= i < ops.len() ==> !(#[trigger] ops[i] matches QueueOp::TakeIn(_, None, _, _))
}

/// Where every item comes with a copy, twice as many items leave or stay
/// held as came in.
pub proof fn lemma_copies_double<T>(v0: QueueView<T>, ops: Seq<QueueOp<T>>)
    requires
        v0.held().len() == 0,
        all_copied(ops),
    ensures
        run(v0, ops).1.len() + run(v0, ops).0.held().len() == 2 * intakes(ops),
    decreases ops.len(),
{
    lemma_run_conserves_items(v0, ops);
    lemma_taken_in_copied(ops);
}

proof fn lemma_taken_in_copied<T>(ops: Seq<QueueOp<T>>)
    requires
        all_copied(ops),
    ensures
        taken_in(ops).len() == 2 * intakes(ops),
    decreases ops.len(),
{
    if ops.len() > 0 {
        let prefix = ops.drop_last();
        assert forall|i: int| 0 <= i < prefix.len() implies !(#[trigger] prefix[i] matches QueueOp::TakeIn(
            _,
            None,
            _,
            _,
        )) by {
            assert(prefix[i] == ops[i]);
        }
        lemma_taken_in_copied(prefix);
        assert(ops.last() == ops[ops.len() - 1]);
    }
}

/// A run under backpressure: an intake is refused while anything is held.
/// Returns the queue, the items that left, and how many intakes went in.
pub open spec fn run_gated<T>(v: QueueView<T>, ops: Seq<QueueOp<T>>) -> (QueueView<T>, Seq<T>, nat)
    decreases ops.len(),
{
    if ops.len() == 0 {
        (v, Seq::empty(), 0)
    } else {
        let (v1, out, n) = run_gated(v, ops.drop_last());
        match ops.last() {
            QueueOp::TakeIn(x, copy, delay, now) => if v1.held().len() == 0 {
                (spec_take_in(v1, x, copy, delay, now), out, n + 1)
            } else {
                (v1, out, n)
            },
            QueueOp::Emit(now) => {
                let (v2, o) = step(v1, QueueOp::Emit(now));
                (
                    v2,
                    match o {
                        Some(x) => out.push(x),
                        None => out,
                    },
                    n,
                )
            },
        }
    }
}

/// Under backpressure, the items taken in from upstream never outnumber the
/// items let out by more than one, and by none once nothing is held.
pub proof fn lemma_backpressure_one_in_flight<T>(v0: QueueView<T>, ops: Seq<QueueOp<T>>)
    requires
        v0.held().len() == 0,
    ensures
        run_gated(v0, ops).2 <= run_gated(v0, ops).1.len() + 1,
        run_gated(v0, ops).0.held().len() == 0 ==> run_gated(v0, ops).2 <= run_gated(v0, ops).1.len(),
    decreases ops.len(),
{
    if ops.len() > 0 {
        lemma_backpressure_one_in_flight(v0, ops.drop_last());
        let (v1, out, n) = run_gated(v0, ops.drop_last());
        match ops.last() {
            QueueOp::TakeIn(x, copy, delay, now) => {
                lemma_push_len(v1, x, delay, now);
                if let Some(c) = copy {
                    lemma_push_len(v1.spec_push_back(x, delay, now), c, None, now);
                }
            },
            QueueOp::Emit(now) => {
                lemma_expire_len(v1, now);
                lemma_pop_len(v1.spec_expire(now), now);
            },
        }
    }
}

/// The bandwidth limit holds over every window: an item is let out only while
/// the window holds less than the limit, so once it is recorded the window
/// holds less than the limit plus that item's weight.
pub proof fn lemma_window_within_limit(kept: Seq<(u64, usize)>, w: usize, now: u64, window: u64, limit: nat)
    requires
        sum_weights(kept) < limit,
    ensures
        sum_weights(with_request(kept, w, now, window)) < limit + w,
{
    let grown = kept.push((now, w));
    assert(grown.drop_last() =~= kept);
    lemma_leading_below_bound(grown, now - window);
    lemma_sum_skip(grown, leading_below(grown, now - window) as int);
}

} // verus!
