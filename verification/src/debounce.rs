//! The debounce aggregator: change events are buffered, and the buffer is
//! released as one batch once no event has arrived for longer than the wait
//! threshold.
//!
//! Time is whatever monotonic count the caller supplies; the threshold is in
//! the same unit.

use crate::watch::ChangeEvent;
use vstd::prelude::*;

verus! {

/// The aggregator's state as a mathematical value. It is idle when
/// `pending` is empty and accumulating otherwise.
pub struct Debounce {
    /// How long the buffer is held after the last event.
    pub threshold: nat,
    /// The events buffered since the last release, oldest first.
    pub pending: Seq<ChangeEvent>,
    /// When the most recent event was observed.
    pub last_event: nat,
}

/// Whether a check at time `now` releases the buffer: it holds something and
/// more than the threshold has passed since the last event.
pub open spec fn due(state: Debounce, now: nat) -> bool {
    state.pending.len() > 0 && now - state.last_event > state.threshold
}

/// The state after `event` was observed at time `now`.
pub open spec fn observed(state: Debounce, event: ChangeEvent, now: nat) -> Debounce {
    Debounce { threshold: state.threshold, pending: state.pending.push(event), last_event: now }
}

/// The state after a check at time `now`.
pub open spec fn checked(state: Debounce, now: nat) -> Debounce {
    if due(state, now) {
        Debounce {
            threshold: state.threshold,
            pending: Seq::empty(),
            last_event: state.last_event,
        }
    } else {
        state
    }
}

/// The batch that a check at time `now` releases, if any.
pub open spec fn release(state: Debounce, now: nat) -> Option<Seq<ChangeEvent>> {
    if due(state, now) {
        Some(state.pending)
    } else {
        None
    }
}

/// Buffers change events and releases them in batches.
pub struct Aggregator {
    threshold: u64,
    pending: Vec<ChangeEvent>,
    last_event: u64,
}

impl View for Aggregator {
    type V = Debounce;

    closed spec fn view(&self) -> Debounce {
        Debounce {
            threshold: self.threshold as nat,
            pending: self.pending@,
            last_event: self.last_event as nat,
        }
    }
}

impl Aggregator {
    /// An idle aggregator that waits for `threshold` units of inactivity.
    pub fn new(threshold: u64) -> (r: Aggregator)
        ensures
            r@ == (Debounce { threshold: threshold as nat, pending: Seq::empty(), last_event: 0 }),
    {
        Aggregator { threshold, pending: Vec::new(), last_event: 0 }
    }

    /// Whether nothing is buffered.
    pub fn is_idle(&self) -> (r: bool)
        ensures
            r == (self@.pending.len() == 0),
    {
        self.pending.len() == 0
    }

    /// Number of buffered events.
    pub fn pending_len(&self) -> (n: usize)
        ensures
            n == self@.pending.len(),
    {
        self.pending.len()
    }

    /// Buffers `event`, seen at time `now`, and restarts the wait.
    pub fn observe(&mut self, event: ChangeEvent, now: u64)
        ensures
            final(self)@ == observed(old(self)@, event, now as nat),
    {
        self.pending.push(event);
        self.last_event = now;
    }

    /// The check made on every polling tick, at time `now`: releases the
    /// whole buffer as one batch if it is due, and leaves it alone otherwise.
    pub fn poll(&mut self, now: u64) -> (r: Option<Vec<ChangeEvent>>)
        ensures
            final(self)@ == checked(old(self)@, now as nat),
            match r {
                Some(batch) => Some(batch@) == release(old(self)@, now as nat),
                None => release(old(self)@, now as nat) is None,
            },
    {
        if self.pending.len() > 0 && now > self.last_event && now - self.last_event
            > self.threshold {
            let mut batch: Vec<ChangeEvent> = Vec::new();
            std::mem::swap(&mut self.pending, &mut batch);
            Some(batch)
        } else {
            None
        }
    }
}

/// One step of the polling loop: an event taken off the notification
/// channel, or a check of the buffer, each with the time at which it
/// happens.
pub enum Step {
    Arrival(ChangeEvent, nat),
    Check(nat),
}

/// When `step` happens.
pub open spec fn time_of(step: Step) -> nat {
    match step {
        Step::Arrival(_, at) => at,
        Step::Check(at) => at,
    }
}

/// The state that `step` leads to from `state`.
pub open spec fn step_state(state: Debounce, step: Step) -> Debounce {
    match step {
        Step::Arrival(event, at) => observed(state, event, at),
        Step::Check(at) => checked(state, at),
    }
}

/// The state after `steps` were taken in order from `state`.
pub open spec fn state_after(state: Debounce, steps: Seq<Step>) -> Debounce
    decreases steps.len(),
{
    if steps.len() == 0 {
        state
    } else {
        step_state(state_after(state, steps.drop_last()), steps.last())
    }
}

/// The batches released while `steps` were taken in order from `state`.
pub open spec fn batches_of(state: Debounce, steps: Seq<Step>) -> Seq<Seq<ChangeEvent>>
    decreases steps.len(),
{
    if steps.len() == 0 {
        Seq::empty()
    } else {
        let earlier = batches_of(state, steps.drop_last());
        match steps.last() {
            Step::Arrival(_, _) => earlier,
            Step::Check(at) => match release(state_after(state, steps.drop_last()), at) {
                Some(batch) => earlier.push(batch),
                None => earlier,
            },
        }
    }
}

/// The events that arrive during `steps`, in order.
pub open spec fn events_of(steps: Seq<Step>) -> Seq<ChangeEvent>
    decreases steps.len(),
{
    if steps.len() == 0 {
        Seq::empty()
    } else {
        match steps.last() {
            Step::Arrival(event, _) => events_of(steps.drop_last()).push(event),
            Step::Check(_) => events_of(steps.drop_last()),
        }
    }
}

/// Position of the last arrival among `steps`, or `-1`.
pub open spec fn latest_arrival(steps: Seq<Step>) -> int
    decreases steps.len(),
{
    if steps.len() == 0 {
        -1
    } else if steps.last() is Arrival {
        steps.len() - 1
    } else {
        latest_arrival(steps.drop_last())
    }
}

/// Time never runs backwards along `steps`.
pub open spec fn ordered(steps: Seq<Step>) -> bool {
    forall|i: int, j: int|
        0 <= i <= j < steps.len() ==> time_of(#[trigger] steps[i]) <= time_of(#[trigger] steps[j])
}

/// Every arrival but the first follows the arrival before it by at most
/// `threshold`.
pub open spec fn close_arrivals(steps: Seq<Step>, threshold: nat) -> bool {
    forall|j: int|
        0 <= j < steps.len() && (#[trigger] steps[j]) is Arrival && latest_arrival(steps.take(j))
            >= 0 ==> time_of(steps[j]) - time_of(steps[latest_arrival(steps.take(j))])
            <= threshold
}

/// A burst that has been waited out: time is ordered, the arrivals are close
/// to each other, there is at least one, and the last step is a check made
/// more than `threshold` after the last arrival.
pub open spec fn settled_burst(steps: Seq<Step>, threshold: nat) -> bool {
    &&& ordered(steps)
    &&& close_arrivals(steps, threshold)
    &&& latest_arrival(steps) >= 0
    &&& steps.last() is Check
    &&& time_of(steps.last()) - time_of(steps[latest_arrival(steps)]) > threshold
}

proof fn lemma_latest_arrival(steps: Seq<Step>)
    ensures
        -1 <= latest_arrival(steps) < steps.len(),
        latest_arrival(steps) >= 0 ==> steps[latest_arrival(steps)] is Arrival,
        forall|i: int| latest_arrival(steps) < i < steps.len() ==> (#[trigger] steps[i]) is Check,
        latest_arrival(steps) >= 0 <==> events_of(steps).len() > 0,
    decreases steps.len(),
{
    if steps.len() > 0 {
        lemma_latest_arrival(steps.drop_last());
        if steps.last() is Check {
            assert forall|i: int| latest_arrival(steps) < i < steps.len() implies (
            #[trigger] steps[i]) is Check by {
                if i < steps.len() - 1 {
                    assert(steps.drop_last()[i] is Check);
                }
            }
        }
    }
}

proof fn lemma_latest_arrival_unique(steps: Seq<Step>, k: int)
    requires
        -1 <= k < steps.len(),
        k >= 0 ==> steps[k] is Arrival,
        forall|i: int| k < i < steps.len() ==> (#[trigger] steps[i]) is Check,
    ensures
        latest_arrival(steps) == k,
    decreases steps.len(),
{
    if steps.len() > 0 {
        if steps.last() is Arrival {
            if k < steps.len() - 1 {
                assert(steps[steps.len() - 1] is Check);
            }
        } else {
            let rest = steps.drop_last();
            assert forall|i: int| k < i < rest.len() implies (#[trigger] rest[i]) is Check by {
                assert(steps[i] is Check);
            }
            if k >= 0 {
                assert(rest[k] == steps[k]);
            }
            lemma_latest_arrival_unique(rest, k);
        }
    }
}

/// No step changes the threshold.
pub proof fn lemma_threshold_is_kept(state: Debounce, steps: Seq<Step>)
    ensures
        state_after(state, steps).threshold == state.threshold,
    decreases steps.len(),
{
    if steps.len() > 0 {
        lemma_threshold_is_kept(state, steps.drop_last());
    }
}

/// Taking `first` and then `second` is taking `first + second`.
pub proof fn lemma_steps_compose(state: Debounce, first: Seq<Step>, second: Seq<Step>)
    ensures
        state_after(state, first + second) == state_after(state_after(state, first), second),
        batches_of(state, first + second) == batches_of(state, first) + batches_of(
            state_after(state, first),
            second,
        ),
        events_of(first + second) == events_of(first) + events_of(second),
    decreases second.len(),
{
    if second.len() == 0 {
        assert(first + second == first);
        assert(batches_of(state, first) + Seq::<Seq<ChangeEvent>>::empty() == batches_of(
            state,
            first,
        ));
        assert(events_of(first) + Seq::<ChangeEvent>::empty() == events_of(first));
    } else {
        let whole = first + second;
        assert(whole.drop_last() == first + second.drop_last());
        assert(whole.last() == second.last());
        lemma_steps_compose(state, first, second.drop_last());
        let middle = state_after(state, first);
        assert(batches_of(state, whole) =~= batches_of(state, first) + batches_of(middle, second));
        assert(events_of(whole) =~= events_of(first) + events_of(second));
    }
}

/// Position of the first arrival at or after `from`, or the length of
/// `steps` when none follows.
spec fn next_arrival(steps: Seq<Step>, from: int) -> int
    decreases steps.len() - from,
{
    if from < 0 || from >= steps.len() {
        steps.len() as int
    } else if steps[from] is Arrival {
        from
    } else {
        next_arrival(steps, from + 1)
    }
}

proof fn lemma_next_arrival(steps: Seq<Step>, from: int)
    requires
        0 <= from <= steps.len(),
    ensures
        from <= next_arrival(steps, from) <= steps.len(),
        next_arrival(steps, from) < steps.len() ==> steps[next_arrival(steps, from)] is Arrival,
        forall|i: int| from <= i < next_arrival(steps, from) ==> (#[trigger] steps[i]) is Check,
        latest_arrival(steps.take(next_arrival(steps, from))) == latest_arrival(steps.take(from)),
    decreases steps.len() - from,
{
    if from < steps.len() && steps[from] is Check {
        lemma_next_arrival(steps, from + 1);
        assert(steps.take(from + 1).drop_last() == steps.take(from));
    }
}

/// While the arrivals of a burst are still coming in, nothing is released:
/// up to and including its last arrival, every event stays buffered.
pub proof fn lemma_burst_is_held(state: Debounce, steps: Seq<Step>, upto: int)
    requires
        state.pending.len() == 0,
        ordered(steps),
        close_arrivals(steps, state.threshold),
        0 <= upto <= latest_arrival(steps) + 1,
    ensures
        batches_of(state, steps.take(upto)).len() == 0,
        state_after(state, steps.take(upto)).pending == events_of(steps.take(upto)),
        latest_arrival(steps.take(upto)) >= 0 ==> state_after(state, steps.take(upto)).last_event
            == time_of(steps[latest_arrival(steps.take(upto))]),
    decreases upto,
{
    lemma_latest_arrival(steps);
    if upto == 0 {
        assert(steps.take(0) =~= Seq::<Step>::empty());
    } else {
        let m = upto - 1;
        let before = steps.take(m);
        let now = steps.take(upto);
        assert(now.drop_last() == before);
        assert(now.last() == steps[m]);
        lemma_burst_is_held(state, steps, m);
        lemma_threshold_is_kept(state, before);
        lemma_latest_arrival(before);
        let held = state_after(state, before);
        match steps[m] {
            Step::Arrival(_, _) => {},
            Step::Check(at) => {
                if held.pending.len() > 0 {
                    let i = latest_arrival(before);
                    let n = next_arrival(steps, m);
                    lemma_next_arrival(steps, m);
                    if n >= steps.len() {
                        assert(steps[latest_arrival(steps)] is Check);
                    }
                    assert(steps[n] is Arrival);
                    assert(time_of(steps[m]) <= time_of(steps[n]));
                    assert(before[i] == steps[i]);
                    assert(!due(held, at));
                }
            },
        }
    }
}

/// From a state that holds a buffer, checks alone release that buffer once,
/// at the first check that finds it due, and nothing after.
proof fn lemma_checks_release_once(state: Debounce, steps: Seq<Step>)
    requires
        state.pending.len() > 0,
        forall|i: int| 0 <= i < steps.len() ==> (#[trigger] steps[i]) is Check,
    ensures
        state_after(state, steps).last_event == state.last_event,
        ({
            &&& batches_of(state, steps).len() == 0
            &&& state_after(state, steps).pending == state.pending
            &&& forall|i: int|
                0 <= i < steps.len() ==> time_of(#[trigger] steps[i]) - state.last_event
                    <= state.threshold
        }) || ({
            &&& batches_of(state, steps) == seq![state.pending]
            &&& state_after(state, steps).pending.len() == 0
        }),
    decreases steps.len(),
{
    if steps.len() > 0 {
        let rest = steps.drop_last();
        assert forall|i: int| 0 <= i < rest.len() implies (#[trigger] rest[i]) is Check by {
            assert(steps[i] is Check);
        }
        lemma_checks_release_once(state, rest);
        lemma_threshold_is_kept(state, rest);
        if batches_of(state, rest).len() == 0 {
            let at = time_of(steps.last());
            if due(state_after(state, rest), at) {
                assert(batches_of(state, steps) =~= seq![state.pending]);
            } else {
                assert forall|i: int| 0 <= i < steps.len() implies time_of(#[trigger] steps[i])
                    - state.last_event <= state.threshold by {
                    if i < rest.len() {
                        assert(rest[i] == steps[i]);
                    }
                }
            }
        }
    }
}

/// A burst of events whose inter-arrival gaps stay within the threshold is
/// released as exactly one batch that holds all of its events, in order,
/// once a check finds that more than the threshold has passed since the
/// last of them.
pub proof fn lemma_burst_gives_one_batch(state: Debounce, steps: Seq<Step>)
    requires
        state.pending.len() == 0,
        settled_burst(steps, state.threshold),
    ensures
        batches_of(state, steps) == seq![events_of(steps)],
        state_after(state, steps).pending.len() == 0,
{
    let k = latest_arrival(steps);
    lemma_latest_arrival(steps);
    let head = steps.take(k + 1);
    let tail = steps.skip(k + 1);
    assert(steps == head + tail);
    lemma_burst_is_held(state, steps, k + 1);
    lemma_threshold_is_kept(state, head);
    lemma_latest_arrival_unique(head, k);
    let held = state_after(state, head);
    lemma_latest_arrival(head);
    assert(held.last_event == time_of(steps[k]));
    assert forall|i: int| 0 <= i < tail.len() implies (#[trigger] tail[i]) is Check by {
        assert(steps[k + 1 + i] is Check);
    }
    lemma_checks_release_once(held, tail);
    lemma_steps_compose(state, head, tail);
    lemma_latest_arrival_unique(tail, -1);
    lemma_latest_arrival(tail);
    assert(events_of(tail) =~= Seq::<ChangeEvent>::empty());
    assert(events_of(steps) =~= events_of(head));
    assert(tail.len() > 0);
    assert(tail[tail.len() - 1] == steps.last());
    assert(batches_of(state, steps) =~= seq![events_of(steps)]);
}

/// Two bursts, the second starting only after the first has been waited
/// out, are released as two batches: the events of the first, then the
/// events of the second.
pub proof fn lemma_separate_bursts_give_two_batches(
    state: Debounce,
    first: Seq<Step>,
    second: Seq<Step>,
)
    requires
        state.pending.len() == 0,
        settled_burst(first, state.threshold),
        settled_burst(second, state.threshold),
    ensures
        batches_of(state, first + second) == seq![events_of(first), events_of(second)],
        state_after(state, first + second).pending.len() == 0,
{
    lemma_burst_gives_one_batch(state, first);
    lemma_threshold_is_kept(state, first);
    lemma_burst_gives_one_batch(state_after(state, first), second);
    lemma_steps_compose(state, first, second);
    assert(seq![events_of(first)] + seq![events_of(second)] =~= seq![
        events_of(first),
        events_of(second),
    ]);
}

/// Once a batch has been released, further checks release nothing until a
/// new event is observed: a file that was already handed on is not handed
/// on again.
pub proof fn lemma_idle_stays_idle(state: Debounce, steps: Seq<Step>)
    requires
        state.pending.len() == 0,
        forall|i: int| 0 <= i < steps.len() ==> (#[trigger] steps[i]) is Check,
    ensures
        batches_of(state, steps).len() == 0,
        state_after(state, steps) == state,
    decreases steps.len(),
{
    if steps.len() > 0 {
        let rest = steps.drop_last();
        assert forall|i: int| 0 <= i < rest.len() implies (#[trigger] rest[i]) is Check by {
            assert(steps[i] is Check);
        }
        lemma_idle_stays_idle(state, rest);
    }
}

} // verus!
