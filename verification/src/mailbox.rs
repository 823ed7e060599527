//! The bounded FIFO mailbox in front of each sink worker, and how push outcomes of
//! several sinks are combined.

use vstd::prelude::*;
use std::collections::VecDeque;

use crate::queue::{OverflowPolicy, PushOutcome};

verus! {

/// Why a sink refused an item.
#[derive(Debug, Clone, PartialEq, Eq)]
pub enum SinkError {
    Io(String),
    FailEngine,
    DeadlineExceeded,
    UnsupportedPolicy(OverflowPolicy),
}

/// Combines the outcome of one more sink into the outcome of a fan-out: the first
/// non-accepting outcome wins, and `DroppedOldest` counts add up (saturating).
pub fn merge_outcome(aggregate: &mut PushOutcome, next: PushOutcome)
    ensures
        *final(aggregate) == merged_outcome(*old(aggregate), next),
{
    match (*aggregate, next) {
        (PushOutcome::Accepted, non_accepted) => *aggregate = non_accepted,
        (PushOutcome::DroppedOldest { dropped: total }, PushOutcome::DroppedOldest { dropped }) => {
            *aggregate = PushOutcome::DroppedOldest { dropped: total.saturating_add(dropped) };
        },
        _ => {},
    }
}

pub open spec fn merged_outcome(aggregate: PushOutcome, next: PushOutcome) -> PushOutcome {
    match (aggregate, next) {
        (PushOutcome::Accepted, n) => n,
        (PushOutcome::DroppedOldest { dropped: total }, PushOutcome::DroppedOldest { dropped }) =>
            PushOutcome::DroppedOldest {
                dropped: if total + dropped > usize::MAX { usize::MAX } else { (total + dropped) as usize },
            },
        (a, _) => a,
    }
}

/// Folds one sink's result into the fan-out: outcomes merge, and the first error is kept.
pub fn merge_result<E>(aggregate: &mut PushOutcome, first_error: &mut Option<E>, result: Result<PushOutcome, E>)
    ensures
        match result {
            Ok(o) => *final(aggregate) == merged_outcome(*old(aggregate), o)
                && *final(first_error) == *old(first_error),
            Err(e) => *final(aggregate) == *old(aggregate)
                && *final(first_error) == (if old(first_error).is_none() { Some(e) } else { *old(first_error) }),
        },
{
    match result {
        Ok(outcome) => merge_outcome(aggregate, outcome),
        Err(error) => {
            if first_error.is_none() {
                *first_error = Some(error);
            }
        },
    }
}

/// The outcome of a fan-out over the results of its sinks, taken in order: the merged
/// outcome of the sinks that accepted, or the first error.
pub open spec fn fanout_spec<E>(results: Seq<Result<PushOutcome, E>>) -> Result<PushOutcome, E> {
    match first_error(results) {
        Some(e) => Err(e),
        None => Ok(outcome_over(results)),
    }
}

/// The merged outcome of the `Ok` results.
pub open spec fn outcome_over<E>(results: Seq<Result<PushOutcome, E>>) -> PushOutcome
    decreases results.len(),
{
    if results.len() == 0 {
        PushOutcome::Accepted
    } else {
        match results.last() {
            Ok(o) => merged_outcome(outcome_over(results.drop_last()), o),
            Err(_) => outcome_over(results.drop_last()),
        }
    }
}

/// The first `Err` of the results.
pub open spec fn first_error<E>(results: Seq<Result<PushOutcome, E>>) -> Option<E>
    decreases results.len(),
{
    if results.len() == 0 {
        None
    } else {
        match first_error(results.drop_last()) {
            Some(e) => Some(e),
            None => match results.last() {
                Ok(_) => None,
                Err(e) => Some(e),
            },
        }
    }
}

/// Combines the results of pushing one item to every sink, in the order the sinks were
/// tried.
pub fn fan_out<E>(results: Vec<Result<PushOutcome, E>>) -> (r: Result<PushOutcome, E>)
    ensures
        r == fanout_spec(results@),
{
    let ghost all = results@;
    let mut outcome = PushOutcome::Accepted;
    let mut first: Option<E> = None;
    for res in it: results
        invariant
            it.seq() == all,
            outcome == outcome_over(all.take(it.index() as int)),
            first == first_error(all.take(it.index() as int)),
    {
        let ghost k = it.index() as int;
        proof {
            assert(all.take(k + 1).drop_last() =~= all.take(k));
            assert(all.take(k + 1).last() == all[k]);
        }
        merge_result(&mut outcome, &mut first, res);
    }
    assert(all.take(all.len() as int) =~= all);
    match first {
        Some(e) => Err(e),
        None => Ok(outcome),
    }
}

/// A fan-out fails exactly when one of its sinks failed, with the error of the first
/// sink that did; otherwise every sink was tried and their outcomes merged.
pub proof fn lemma_fanout_fails_iff_a_sink_failed<E>(results: Seq<Result<PushOutcome, E>>)
    ensures
        fanout_spec(results) is Err <==> exists|i: int| 0 <= i < results.len() && (#[trigger] results[i]) is Err,
        fanout_spec(results) matches Err(e) ==> exists|i: int|
            0 <= i < results.len() && results[i] == Err::<PushOutcome, E>(e) && forall|j: int|
                0 <= j < i ==> (#[trigger] results[j]) is Ok,
    decreases results.len(),
{
    if results.len() > 0 {
        let init = results.drop_last();
        lemma_fanout_fails_iff_a_sink_failed(init);
        assert forall|i: int| 0 <= i < init.len() implies init[i] == results[i] by {}
        if first_error(init) is None {
            assert(forall|i: int| 0 <= i < init.len() ==> (#[trigger] init[i]) is Ok);
            if results.last() is Err {
                let n = results.len() - 1;
                assert(results[n] is Err);
                assert forall|j: int| 0 <= j < n implies (#[trigger] results[j]) is Ok by {
                    assert(init[j] is Ok);
                }
            } else {
                assert forall|i: int| 0 <= i < results.len() implies !((#[trigger] results[i]) is Err) by {
                    if i < results.len() - 1 {
                        assert(init[i] is Ok);
                    }
                }
            }
        } else {
            let i0 = choose|i: int| 0 <= i < init.len() && (#[trigger] init[i]) is Err;
            assert(results[i0] is Err);
        }
    }
}

/// What one sink worker reports about itself.
/// Whether a sink's result is an overflow: it took the batch, but not as is.
pub open spec fn overflowed<E>(r: Result<PushOutcome, E>) -> bool {
    r matches Ok(o) && o != PushOutcome::Accepted
}

/// The entries a result's sink dropped as oldest, 0 for any other result.
pub open spec fn oldest_dropped<E>(r: Result<PushOutcome, E>) -> nat {
    match r {
        Ok(PushOutcome::DroppedOldest { dropped }) => dropped as nat,
        _ => 0,
    }
}

/// The entries dropped as oldest by the sinks from position `i` on, as a plain number.
pub open spec fn oldest_dropped_from<E>(results: Seq<Result<PushOutcome, E>>, i: int) -> nat
    decreases results.len(),
{
    if results.len() <= i || results.len() == 0 {
        0
    } else {
        oldest_dropped_from(results.drop_last(), i) + oldest_dropped(results.last())
    }
}

proof fn lemma_no_overflow_accepted<E>(results: Seq<Result<PushOutcome, E>>)
    requires
        forall|j: int| 0 <= j < results.len() ==> !overflowed(#[trigger] results[j]),
    ensures
        outcome_over(results) == PushOutcome::Accepted,
    decreases results.len(),
{
    if results.len() > 0 {
        let init = results.drop_last();
        assert forall|j: int| 0 <= j < init.len() implies !overflowed(#[trigger] init[j]) by {
            assert(init[j] == results[j]);
        }
        lemma_no_overflow_accepted(init);
        assert(!overflowed(results[results.len() - 1]));
    }
}

proof fn lemma_first_overflow_sets_outcome<E>(results: Seq<Result<PushOutcome, E>>, i: int)
    requires
        0 <= i < results.len(),
        overflowed(results[i]),
        forall|j: int| 0 <= j < i ==> !overflowed(#[trigger] results[j]),
    ensures
        results[i] == Ok::<PushOutcome, E>(PushOutcome::DroppedNewest) ==> outcome_over(results) == PushOutcome::DroppedNewest,
        results[i] is Ok && results[i]->Ok_0 is DroppedOldest ==> outcome_over(results) == (PushOutcome::DroppedOldest {
            dropped: if oldest_dropped_from(results, i) > usize::MAX { usize::MAX } else { oldest_dropped_from(results, i) as usize },
        }),
    decreases results.len(),
{
    let init = results.drop_last();
    let n = results.len() - 1;
    if i == n {
        assert forall|j: int| 0 <= j < init.len() implies !overflowed(#[trigger] init[j]) by {
            assert(init[j] == results[j]);
        }
        lemma_no_overflow_accepted(init);
        assert(oldest_dropped_from(init, i) == 0);
    } else {
        assert forall|j: int| 0 <= j < i implies !overflowed(#[trigger] init[j]) by {
            assert(init[j] == results[j]);
        }
        assert(init[i] == results[i]);
        lemma_first_overflow_sets_outcome(init, i);
    }
}

/// When every sink took the batch, the fan-out reports the first overflow among them:
/// `Accepted` when none overflowed; `DroppedNewest` when the first that overflowed
/// dropped the newest; and when it dropped the oldest, `DroppedOldest` with the entries
/// dropped as oldest by it and every later sink, added up and stopping at `usize::MAX`.
pub proof fn lemma_fanout_reports_first_overflow<E>(results: Seq<Result<PushOutcome, E>>, i: int)
    requires
        forall|j: int| 0 <= j < results.len() ==> (#[trigger] results[j]) is Ok,
    ensures
        (forall|j: int| 0 <= j < results.len() ==> !overflowed(#[trigger] results[j])) ==> fanout_spec(results)
            == Ok::<PushOutcome, E>(PushOutcome::Accepted),
        0 <= i < results.len() && overflowed(results[i]) && (forall|j: int| 0 <= j < i ==> !overflowed(#[trigger] results[j]))
            ==> {
            &&& results[i] == Ok::<PushOutcome, E>(PushOutcome::DroppedNewest) ==> fanout_spec(results) == Ok::<
                PushOutcome,
                E,
            >(PushOutcome::DroppedNewest)
            &&& results[i]->Ok_0 is DroppedOldest ==> fanout_spec(results) == Ok::<PushOutcome, E>(
                PushOutcome::DroppedOldest {
                    dropped: if oldest_dropped_from(results, i) > usize::MAX {
                        usize::MAX
                    } else {
                        oldest_dropped_from(results, i) as usize
                    },
                },
            )
        },
{
    lemma_fanout_fails_iff_a_sink_failed(results);
    if forall|j: int| 0 <= j < results.len() ==> !overflowed(#[trigger] results[j]) {
        lemma_no_overflow_accepted(results);
    }
    if 0 <= i < results.len() && overflowed(results[i]) && (forall|j: int| 0 <= j < i ==> !overflowed(#[trigger] results[j])) {
        lemma_first_overflow_sets_outcome(results, i);
    }
}

#[derive(Debug, Clone, PartialEq, Eq)]
pub struct SinkSnapshot {
    pub id: String,
    pub kind: &'static str,
    pub required: bool,
    pub healthy: bool,
    pub queue_len: usize,
    pub queue_capacity: usize,
    pub in_flight: u64,
    pub enqueued: u64,
    pub dropped: u64,
    pub errors: u64,
    pub last_error: Option<String>,
}

/// Whether every required sink is healthy.
pub open spec fn required_sinks_healthy(snapshots: Seq<SinkSnapshot>) -> bool {
    forall|i: int| 0 <= i < snapshots.len() ==> (!#[trigger] snapshots[i].required || snapshots[i].healthy)
}

pub fn required_healthy(snapshots: &Vec<SinkSnapshot>) -> (b: bool)
    ensures
        b == required_sinks_healthy(snapshots@),
{
    let mut i: usize = 0;
    while i < snapshots.len()
        invariant
            i <= snapshots.len(),
            forall|k: int| 0 <= k < i ==> (!#[trigger] snapshots@[k].required || snapshots@[k].healthy),
        decreases snapshots.len() - i,
    {
        if snapshots[i].required && !snapshots[i].healthy {
            return false;
        }
        i += 1;
    }
    true
}

/// How a sink worker books one enqueue: the counters it adds to, and what it reports.
pub struct EnqueueAccounting {
    pub enqueued: u64,
    pub dropped: u64,
    pub result: Result<PushOutcome, SinkError>,
}

/// Health accounting of one enqueue into a sink worker's mailbox. An optional sink that
/// refuses with an I/O error (it has closed) drops the item instead of failing.
pub fn account_enqueue(result: Result<PushOutcome, SinkError>, required: bool) -> (a: EnqueueAccounting)
    ensures
        match result {
            Ok(PushOutcome::Accepted) => a.enqueued == 1 && a.dropped == 0 && a.result == result,
            Ok(PushOutcome::DroppedNewest) => a.enqueued == 0 && a.dropped == 1 && a.result == result,
            Ok(PushOutcome::DroppedOldest { dropped }) => a.enqueued == 1 && a.dropped == dropped
                && a.result == result,
            Err(SinkError::Io(_)) => if required {
                a.enqueued == 0 && a.dropped == 0 && a.result == result
            } else {
                a.enqueued == 0 && a.dropped == 1 && a.result == Ok::<PushOutcome, SinkError>(PushOutcome::DroppedNewest)
            },
            Err(_) => a.enqueued == 0 && a.dropped == 0 && a.result == result,
        },
{
    match result {
        Ok(PushOutcome::Accepted) => EnqueueAccounting { enqueued: 1, dropped: 0, result },
        Ok(PushOutcome::DroppedNewest) => EnqueueAccounting { enqueued: 0, dropped: 1, result },
        Ok(PushOutcome::DroppedOldest { dropped }) => EnqueueAccounting { enqueued: 1, dropped: dropped as u64, result },
        Err(SinkError::Io(msg)) => {
            if required {
                EnqueueAccounting { enqueued: 0, dropped: 0, result: Err(SinkError::Io(msg)) }
            } else {
                EnqueueAccounting { enqueued: 0, dropped: 1, result: Ok(PushOutcome::DroppedNewest) }
            }
        },
        Err(e) => EnqueueAccounting { enqueued: 0, dropped: 0, result: Err(e) },
    }
}

/// State behind a sink worker's lock: one FIFO for both event kinds, whether the worker
/// has closed, and how many popped items it has not finished yet.
pub struct MailboxState<T> {
    capacity: usize,
    policy: OverflowPolicy,
    items: VecDeque<T>,
    closed: bool,
    in_flight: u64,
}

impl<T> MailboxState<T> {
    pub closed spec fn items(&self) -> Seq<T> {
        self.items@
    }

    pub closed spec fn spec_capacity(&self) -> nat {
        self.capacity as nat
    }

    pub closed spec fn spec_policy(&self) -> OverflowPolicy {
        self.policy
    }

    pub closed spec fn is_closed(&self) -> bool {
        self.closed
    }

    pub closed spec fn spec_in_flight(&self) -> u64 {
        self.in_flight
    }

    pub closed spec fn wf(&self) -> bool {
        0 < self.capacity && self.items@.len() <= self.capacity
    }

    /// A well-formed mailbox has room for at least one item and never holds more items than
    /// its capacity.
    pub proof fn lemma_within_capacity(&self)
        requires
            self.wf(),
        ensures
            self.spec_capacity() > 0,
            self.items().len() <= self.spec_capacity(),
    {
    }

    pub fn new(capacity: usize, policy: OverflowPolicy) -> (m: Self)
        requires
            capacity > 0,
        ensures
            m.wf(),
            m.items() == Seq::<T>::empty(),
            m.spec_capacity() == capacity,
            m.spec_policy() == policy,
            !m.is_closed(),
            m.spec_in_flight() == 0,
    {
        MailboxState { capacity, policy, items: VecDeque::with_capacity(capacity), closed: false, in_flight: 0 }
    }

    /// Appends an item, applying the overflow policy when the mailbox is full.
    /// A closed mailbox refuses every item.
    pub fn push(&mut self, item: T) -> (r: Result<PushOutcome, SinkError>)
        requires
            old(self).wf(),
        ensures
            final(self).wf(),
            final(self).spec_capacity() == old(self).spec_capacity(),
            final(self).spec_policy() == old(self).spec_policy(),
            final(self).is_closed() == old(self).is_closed(),
            final(self).spec_in_flight() == old(self).spec_in_flight(),
            old(self).is_closed() ==> (r matches Err(SinkError::Io(m)) && m@ == "sink worker is closed"@)
                && final(self).items() == old(self).items(),
            !old(self).is_closed() ==> r == mailbox_push_result(old(self).items().len(), old(self).spec_capacity(), old(self).spec_policy())
                && final(self).items() == crate::queue::pushed_items(old(self).items(), old(self).spec_capacity(), old(self).spec_policy(), item),
    {
        if self.closed {
            return Err(SinkError::Io(String::from_str("sink worker is closed")));
        }
        if self.items.len() < self.capacity {
            self.items.push_back(item);
            return Ok(PushOutcome::Accepted);
        }
        match self.policy {
            OverflowPolicy::DropNewest => Ok(PushOutcome::DroppedNewest),
            OverflowPolicy::DropOldest => {
                let _ = self.items.pop_front();
                self.items.push_back(item);
                Ok(PushOutcome::DroppedOldest { dropped: 1 })
            },
            OverflowPolicy::FailEngine => Err(SinkError::FailEngine),
            OverflowPolicy::BlockWithDeadline => Err(SinkError::DeadlineExceeded),
            OverflowPolicy::SpillToDisk => Err(SinkError::UnsupportedPolicy(OverflowPolicy::SpillToDisk)),
        }
    }

    /// The worker's non-blocking pop: the oldest item, now counted as in flight.
    /// `None` means the worker must wait (open) or stop (closed).
    pub fn pop_for_worker(&mut self) -> (r: Option<T>)
        requires
            old(self).wf(),
        ensures
            final(self).wf(),
            final(self).spec_capacity() == old(self).spec_capacity(),
            final(self).spec_policy() == old(self).spec_policy(),
            final(self).is_closed() == old(self).is_closed(),
            old(self).items().len() == 0 ==> r is None && final(self).items() == old(self).items()
                && final(self).spec_in_flight() == old(self).spec_in_flight(),
            old(self).items().len() > 0 ==> r == Some(old(self).items()[0])
                && final(self).items() == old(self).items().drop_first()
                && final(self).spec_in_flight() == (if old(self).spec_in_flight() == u64::MAX { u64::MAX } else { (old(self).spec_in_flight() + 1) as u64 }),
    {
        match self.items.pop_front() {
            Some(item) => {
                self.in_flight = self.in_flight.saturating_add(1);
                Some(item)
            },
            None => None,
        }
    }

    /// Removes the oldest item without touching the in-flight count.
    pub fn pop(&mut self) -> (r: Option<T>)
        requires
            old(self).wf(),
        ensures
            final(self).wf(),
            final(self).spec_capacity() == old(self).spec_capacity(),
            final(self).spec_policy() == old(self).spec_policy(),
            final(self).is_closed() == old(self).is_closed(),
            final(self).spec_in_flight() == old(self).spec_in_flight(),
            old(self).items().len() == 0 ==> r is None && final(self).items() == old(self).items(),
            old(self).items().len() > 0 ==> r == Some(old(self).items()[0])
                && final(self).items() == old(self).items().drop_first(),
    {
        self.items.pop_front()
    }

    pub fn len(&self) -> (n: usize)
        ensures
            n == self.items().len(),
    {
        self.items.len()
    }

    pub fn capacity(&self) -> (c: usize)
        ensures
            c == self.spec_capacity(),
    {
        self.capacity
    }

    /// Queue length and in-flight count.
    pub fn status(&self) -> (r: (usize, u64))
        ensures
            r.0 == self.items().len(),
            r.1 == self.spec_in_flight(),
    {
        (self.items.len(), self.in_flight)
    }

    /// The worker finished its in-flight item. After a failure it also closes the mailbox
    /// and discards the backlog, returning how many items it discarded.
    pub fn finish_item(&mut self, close_and_discard: bool) -> (discarded: usize)
        requires
            old(self).wf(),
            old(self).spec_in_flight() > 0,
        ensures
            final(self).wf(),
            final(self).spec_capacity() == old(self).spec_capacity(),
            final(self).spec_policy() == old(self).spec_policy(),
            final(self).spec_in_flight() == old(self).spec_in_flight() - 1,
            close_and_discard ==> final(self).is_closed() && final(self).items() == Seq::<T>::empty()
                && discarded == old(self).items().len(),
            !close_and_discard ==> final(self).is_closed() == old(self).is_closed()
                && final(self).items() == old(self).items() && discarded == 0,
    {
        let discarded = if close_and_discard {
            self.closed = true;
            let n = self.items.len();
            self.items.clear();
            n
        } else {
            0
        };
        self.in_flight = self.in_flight - 1;
        discarded
    }

    /// Refuses every later push; queued items stay for the worker to drain.
    pub fn close(&mut self)
        requires
            old(self).wf(),
        ensures
            final(self).wf(),
            final(self).is_closed(),
            final(self).items() == old(self).items(),
            final(self).spec_capacity() == old(self).spec_capacity(),
            final(self).spec_policy() == old(self).spec_policy(),
            final(self).spec_in_flight() == old(self).spec_in_flight(),
    {
        self.closed = true;
    }
}

/// What a push into an open mailbox holding `len` items returns.
pub open spec fn mailbox_push_result(len: nat, capacity: nat, policy: OverflowPolicy) -> Result<PushOutcome, SinkError> {
    if len < capacity {
        Ok(PushOutcome::Accepted)
    } else {
        match policy {
            OverflowPolicy::DropNewest => Ok(PushOutcome::DroppedNewest),
            OverflowPolicy::DropOldest => Ok(PushOutcome::DroppedOldest { dropped: 1 }),
            OverflowPolicy::FailEngine => Err(SinkError::FailEngine),
            OverflowPolicy::BlockWithDeadline => Err(SinkError::DeadlineExceeded),
            OverflowPolicy::SpillToDisk => Err(SinkError::UnsupportedPolicy(OverflowPolicy::SpillToDisk)),
        }
    }
}

} // verus!
