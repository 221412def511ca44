//! Coalescing a storm of notifications into single synchronization passes.
//!
//! Significant events are appended to a pending set under one lock; each
//! append schedules a delayed flush signal. A flush drains the *entire*
//! pending set in one critical section and starts one pass over it; flushing
//! an empty pending set is a no-op, so redundant flush signals are harmless.

use vstd::prelude::*;

use crate::events::ChangeEvent;
use crate::events::spec_significant;

verus! {

/// What the debouncer observes: an event arriving from the notification
/// source, or a flush signal from an elapsed timer.
pub enum DebounceInput {
    Arrive(ChangeEvent),
    Flush,
}

/// The pending set of events accumulated between flushes.
pub struct Debouncer {
    pub pending: Vec<ChangeEvent>,
}

/// The significant events of a sequence, in arrival order.
pub open spec fn spec_significant_of(events: Seq<ChangeEvent>) -> Seq<ChangeEvent>
    decreases events.len(),
{
    if events.len() == 0 {
        Seq::empty()
    } else if spec_significant(events[0]) {
        seq![events[0]] + spec_significant_of(events.skip(1))
    } else {
        spec_significant_of(events.skip(1))
    }
}

/// The pending set after one arriving event: significant events are
/// appended, advisory ones leave it unchanged.
pub open spec fn spec_handle(pending: Seq<ChangeEvent>, e: ChangeEvent) -> Seq<ChangeEvent> {
    if spec_significant(e) {
        pending.push(e)
    } else {
        pending
    }
}

/// One debouncer run: the pending set after consuming all inputs, and the
/// sequence of synchronization passes started along the way, each pass
/// carrying the entire pending set its flush drained.
pub open spec fn spec_run(pending: Seq<ChangeEvent>, inputs: Seq<DebounceInput>) -> (
    Seq<ChangeEvent>,
    Seq<Seq<ChangeEvent>>,
)
    decreases inputs.len(),
{
    if inputs.len() == 0 {
        (pending, Seq::empty())
    } else {
        let stepped = match inputs[0] {
            DebounceInput::Arrive(e) => (spec_handle(pending, e), Seq::<Seq<ChangeEvent>>::empty()),
            DebounceInput::Flush => if pending.len() == 0 {
                (pending, Seq::<Seq<ChangeEvent>>::empty())
            } else {
                (Seq::<ChangeEvent>::empty(), seq![pending])
            },
        };
        let rest = spec_run(stepped.0, inputs.skip(1));
        (rest.0, stepped.1 + rest.1)
    }
}

impl Debouncer {
    /// A debouncer with nothing pending.
    pub fn new() -> (d: Debouncer)
        ensures
            d.pending@ == Seq::<ChangeEvent>::empty(),
    {
        Debouncer { pending: Vec::new() }
    }

    /// Observes one event: a significant one joins the pending set and asks
    /// the caller to schedule a delayed flush signal; an advisory one is
    /// dropped.
    pub fn handle_event(&mut self, event: ChangeEvent) -> (schedule_flush: bool)
        ensures
            final(self).pending@ == spec_handle(old(self).pending@, event),
            schedule_flush == spec_significant(event),
    {
        if event.significant() {
            self.pending.push(event);
            true
        } else {
            false
        }
    }

    /// Drains the entire pending set and hands it to one synchronization
    /// pass; a flush with nothing pending is a no-op.
    pub fn flush(&mut self) -> (pass: Option<Vec<ChangeEvent>>)
        ensures
            final(self).pending@ == Seq::<ChangeEvent>::empty(),
            old(self).pending@.len() == 0 ==> pass is None,
            old(self).pending@.len() > 0 ==> (pass matches Some(events) && events@ == old(
                self,
            ).pending@),
    {
        if self.pending.is_empty() {
            None
        } else {
            let mut drained: Vec<ChangeEvent> = Vec::new();
            core::mem::swap(&mut drained, &mut self.pending);
            Some(drained)
        }
    }
}

/// The inputs of a window in which `events` arrive, in order.
pub open spec fn spec_arrivals(events: Seq<ChangeEvent>) -> Seq<DebounceInput> {
    events.map(|i: int, e: ChangeEvent| DebounceInput::Arrive(e))
}

/// `count` flush signals in a row.
pub open spec fn spec_flushes(count: nat) -> Seq<DebounceInput> {
    Seq::new(count, |i: int| DebounceInput::Flush)
}

/// A run splits over concatenated inputs: the second half starts from the
/// pending set the first half leaves behind, and the passes concatenate.
proof fn lemma_run_concat(pending: Seq<ChangeEvent>, a: Seq<DebounceInput>, b: Seq<DebounceInput>)
    ensures
        spec_run(pending, a + b).0 == spec_run(spec_run(pending, a).0, b).0,
        spec_run(pending, a + b).1 == spec_run(pending, a).1 + spec_run(
            spec_run(pending, a).0,
            b,
        ).1,
    decreases a.len(),
{
    if a.len() == 0 {
        assert(a + b =~= b);
        assert(spec_run(pending, a).1 + spec_run(spec_run(pending, a).0, b).1 =~= spec_run(
            pending,
            b,
        ).1);
    } else {
        let stepped = match (a + b)[0] {
            DebounceInput::Arrive(e) => (spec_handle(pending, e), Seq::<Seq<ChangeEvent>>::empty()),
            DebounceInput::Flush => if pending.len() == 0 {
                (pending, Seq::<Seq<ChangeEvent>>::empty())
            } else {
                (Seq::<ChangeEvent>::empty(), seq![pending])
            },
        };
        assert((a + b)[0] == a[0]);
        assert((a + b).skip(1) =~= a.skip(1) + b);
        lemma_run_concat(stepped.0, a.skip(1), b);
        assert(stepped.1 + (spec_run(stepped.0, a.skip(1)).1 + spec_run(
            spec_run(stepped.0, a.skip(1)).0,
            b,
        ).1) =~= (stepped.1 + spec_run(stepped.0, a.skip(1)).1) + spec_run(
            spec_run(stepped.0, a.skip(1)).0,
            b,
        ).1);
    }
}

/// Arrivals alone start no pass: they only extend the pending set with the
/// significant events, in order.
proof fn lemma_run_arrivals(pending: Seq<ChangeEvent>, events: Seq<ChangeEvent>)
    ensures
        spec_run(pending, spec_arrivals(events)).0 == pending + spec_significant_of(events),
        spec_run(pending, spec_arrivals(events)).1 == Seq::<Seq<ChangeEvent>>::empty(),
    decreases events.len(),
{
    let inputs = spec_arrivals(events);
    if events.len() == 0 {
        assert(pending + spec_significant_of(events) =~= pending);
    } else {
        let e = events[0];
        assert(inputs[0] == DebounceInput::Arrive(e));
        assert(inputs.skip(1) =~= spec_arrivals(events.skip(1)));
        lemma_run_arrivals(spec_handle(pending, e), events.skip(1));
        if spec_significant(e) {
            assert(pending.push(e) + spec_significant_of(events.skip(1)) =~= pending + (seq![e]
                + spec_significant_of(events.skip(1))));
        }
    }
}

/// Flush signals after the first are no-ops: one or more flushes on a
/// nonempty pending set start exactly one pass, over the whole set; on an
/// empty set they start none.
proof fn lemma_run_flushes(pending: Seq<ChangeEvent>, count: nat)
    requires
        count >= 1,
    ensures
        spec_run(pending, spec_flushes(count)).0 == Seq::<ChangeEvent>::empty(),
        pending.len() == 0 ==> spec_run(pending, spec_flushes(count)).1 == Seq::<
            Seq<ChangeEvent>,
        >::empty(),
        pending.len() > 0 ==> spec_run(pending, spec_flushes(count)).1 == seq![pending],
    decreases count,
{
    let inputs = spec_flushes(count);
    assert(inputs[0] == DebounceInput::Flush);
    assert(inputs.skip(1) =~= spec_flushes((count - 1) as nat));
    let after = if pending.len() == 0 {
        pending
    } else {
        Seq::<ChangeEvent>::empty()
    };
    if count == 1 {
        assert(spec_run(after, inputs.skip(1)).1 =~= Seq::<Seq<ChangeEvent>>::empty());
        if pending.len() > 0 {
            assert(seq![pending] + Seq::<Seq<ChangeEvent>>::empty() =~= seq![pending]);
        } else {
            assert(Seq::<Seq<ChangeEvent>>::empty() + Seq::<Seq<ChangeEvent>>::empty() =~= Seq::<
                Seq<ChangeEvent>,
            >::empty());
        }
    } else {
        lemma_run_flushes(after, (count - 1) as nat);
        assert(after.len() == 0);
        if pending.len() > 0 {
            assert(seq![pending] + Seq::<Seq<ChangeEvent>>::empty() =~= seq![pending]);
        } else {
            assert(Seq::<Seq<ChangeEvent>>::empty() + Seq::<Seq<ChangeEvent>>::empty() =~= Seq::<
                Seq<ChangeEvent>,
            >::empty());
        }
    }
}

/// Within one debounce window — any events arriving, then one or more flush
/// signals — exactly one synchronization pass starts when any of the events
/// were significant, and none otherwise. The pass carries exactly the
/// significant events enqueued before the flush, in arrival order; the extra
/// flush signals are no-ops.
pub proof fn lemma_one_pass_per_window(events: Seq<ChangeEvent>, flushes: nat)
    requires
        flushes >= 1,
    ensures
        spec_significant_of(events).len() > 0 ==> spec_run(
            Seq::<ChangeEvent>::empty(),
            spec_arrivals(events) + spec_flushes(flushes),
        ).1 == seq![spec_significant_of(events)],
        spec_significant_of(events).len() == 0 ==> spec_run(
            Seq::<ChangeEvent>::empty(),
            spec_arrivals(events) + spec_flushes(flushes),
        ).1 == Seq::<Seq<ChangeEvent>>::empty(),
        spec_run(
            Seq::<ChangeEvent>::empty(),
            spec_arrivals(events) + spec_flushes(flushes),
        ).0 == Seq::<ChangeEvent>::empty(),
{
    let empty = Seq::<ChangeEvent>::empty();
    lemma_run_concat(empty, spec_arrivals(events), spec_flushes(flushes));
    lemma_run_arrivals(empty, events);
    assert(empty + spec_significant_of(events) =~= spec_significant_of(events));
    lemma_run_flushes(spec_significant_of(events), flushes);
    if spec_significant_of(events).len() > 0 {
        assert(Seq::<Seq<ChangeEvent>>::empty() + seq![spec_significant_of(events)]
            =~= seq![spec_significant_of(events)]);
    } else {
        assert(spec_significant_of(events) =~= empty);
        assert(Seq::<Seq<ChangeEvent>>::empty() + Seq::<Seq<ChangeEvent>>::empty() =~= Seq::<
            Seq<ChangeEvent>,
        >::empty());
    }
}

/// The significant events of an all-significant sequence are the sequence
/// itself.
proof fn lemma_significant_of_identity(events: Seq<ChangeEvent>)
    requires
        forall|k: int| 0 <= k < events.len() ==> spec_significant(events[k]),
    ensures
        spec_significant_of(events) == events,
    decreases events.len(),
{
    if events.len() == 0 {
        assert(spec_significant_of(events) =~= events);
    } else {
        lemma_significant_of_identity(events.skip(1));
        assert(seq![events[0]] + events.skip(1) =~= events);
    }
}

/// For any sequence of significant events arriving within one debounce
/// window, exactly one synchronization pass is triggered — however many
/// flush signals the window's timers emit — and the pass carries exactly
/// the events enqueued before the flush, in order.
pub proof fn lemma_window_of_significant_events(events: Seq<ChangeEvent>, flushes: nat)
    requires
        flushes >= 1,
        events.len() > 0,
        forall|k: int| 0 <= k < events.len() ==> spec_significant(events[k]),
    ensures
        spec_run(Seq::<ChangeEvent>::empty(), spec_arrivals(events) + spec_flushes(flushes)).1
            == seq![events],
{
    lemma_significant_of_identity(events);
    lemma_one_pass_per_window(events, flushes);
}

} // verus!
