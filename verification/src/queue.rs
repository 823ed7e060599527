//! Bounded queues for the data plane, each with an explicit overflow policy.
//! Unbounded queues are never built here.

use vstd::prelude::*;
use std::collections::VecDeque;

verus! {

/// What a bounded queue does when a push finds it full.
#[derive(Debug, Clone, Copy, PartialEq, Eq, Structural)]
pub enum OverflowPolicy {
    DropNewest,
    DropOldest,
    FailEngine,
    BlockWithDeadline,
    SpillToDisk,
}

/// Successful result of a push: the item went in, or something was dropped.
#[derive(Debug, Clone, Copy, PartialEq, Eq, Structural)]
pub enum PushOutcome {
    Accepted,
    DroppedNewest,
    DroppedOldest { dropped: usize },
}

/// Why a push into a full queue failed.
#[derive(Debug, Clone, Copy, PartialEq, Eq, Structural)]
pub enum DispatchError {
    FailEngine,
    DeadlineExceeded,
    UnsupportedPolicy(OverflowPolicy),
}

impl DispatchError {
    /// The human-readable text of the error.
    pub fn message(&self) -> (s: String)
        ensures
            s@ == self.spec_message(),
    {
        match self {
            DispatchError::FailEngine => String::from_str("queue full under FailEngine policy"),
            DispatchError::DeadlineExceeded => String::from_str(
                "queue full and BlockWithDeadline timed out",
            ),
            DispatchError::UnsupportedPolicy(p) => {
                let mut s = String::from_str("overflow policy not implemented for this queue: ");
                s.append(p.name());
                s
            },
        }
    }

    pub open spec fn spec_message(&self) -> Seq<char> {
        match self {
            DispatchError::FailEngine => "queue full under FailEngine policy"@,
            DispatchError::DeadlineExceeded => "queue full and BlockWithDeadline timed out"@,
            DispatchError::UnsupportedPolicy(p) => "overflow policy not implemented for this queue: "@
                + p.spec_name(),
        }
    }
}

impl OverflowPolicy {
    pub open spec fn spec_name(&self) -> Seq<char> {
        match self {
            OverflowPolicy::DropNewest => "DropNewest"@,
            OverflowPolicy::DropOldest => "DropOldest"@,
            OverflowPolicy::FailEngine => "FailEngine"@,
            OverflowPolicy::BlockWithDeadline => "BlockWithDeadline"@,
            OverflowPolicy::SpillToDisk => "SpillToDisk"@,
        }
    }

    /// The variant's name, as `Debug` prints it.
    pub fn name(&self) -> (s: &'static str)
        ensures
            s@ == self.spec_name(),
    {
        match self {
            OverflowPolicy::DropNewest => "DropNewest",
            OverflowPolicy::DropOldest => "DropOldest",
            OverflowPolicy::FailEngine => "FailEngine",
            OverflowPolicy::BlockWithDeadline => "BlockWithDeadline",
            OverflowPolicy::SpillToDisk => "SpillToDisk",
        }
    }
}

/// The contents after pushing `item` into a queue holding `items`, bounded by `capacity`
/// under `policy`, when the push does not fail.
pub open spec fn pushed_items<T>(items: Seq<T>, capacity: nat, policy: OverflowPolicy, item: T) -> Seq<T> {
    if items.len() < capacity {
        items.push(item)
    } else {
        match policy {
            OverflowPolicy::DropOldest => items.drop_first().push(item),
            _ => items,
        }
    }
}

/// What a push returns, given the contents and policy it found.
pub open spec fn push_result<T>(items: Seq<T>, capacity: nat, policy: OverflowPolicy) -> Result<PushOutcome, DispatchError> {
    if items.len() < capacity {
        Ok(PushOutcome::Accepted)
    } else {
        match policy {
            OverflowPolicy::DropNewest => Ok(PushOutcome::DroppedNewest),
            OverflowPolicy::DropOldest => Ok(PushOutcome::DroppedOldest { dropped: 1 }),
            OverflowPolicy::FailEngine => Err(DispatchError::FailEngine),
            OverflowPolicy::BlockWithDeadline => Err(DispatchError::DeadlineExceeded),
            OverflowPolicy::SpillToDisk => Err(DispatchError::UnsupportedPolicy(OverflowPolicy::SpillToDisk)),
        }
    }
}

/// How many items a push outcome reports as dropped.
pub open spec fn dropped_by(r: Result<PushOutcome, DispatchError>) -> nat {
    match r {
        Ok(PushOutcome::DroppedNewest) => 1,
        Ok(PushOutcome::DroppedOldest { dropped }) => dropped as nat,
        _ => 0,
    }
}

/// The contents after pushing every item of `xs`, in order, into `items`.
pub open spec fn pushed_all<T>(items: Seq<T>, capacity: nat, policy: OverflowPolicy, xs: Seq<T>) -> Seq<T>
    decreases xs.len(),
{
    if xs.len() == 0 {
        items
    } else {
        pushed_all(pushed_items(items, capacity, policy, xs[0]), capacity, policy, xs.drop_first())
    }
}

/// A push keeps the bound, loses nothing silently and never reorders: an accepted item
/// joins the back; otherwise the outcome reports every dropped item, or the push failed
/// and the queue is unchanged.
pub proof fn lemma_push_accounts_for_every_item<T>(items: Seq<T>, capacity: nat, policy: OverflowPolicy, item: T)
    requires
        0 < capacity,
        items.len() <= capacity,
    ensures
        ({
            let after = pushed_items(items, capacity, policy, item);
            let r = push_result(items, capacity, policy);
            &&& after.len() <= capacity
            &&& r is Ok ==> after.len() + dropped_by(r) == items.len() + 1
            &&& r is Err ==> after == items
            &&& (after == items.push(item) || after == items.push(item).drop_first() || after == items)
        }),
{
    let after = pushed_items(items, capacity, policy, item);
    if items.len() >= capacity && policy == OverflowPolicy::DropOldest {
        assert(items.drop_first().push(item) =~= items.push(item).drop_first());
    }
}

/// Filling an empty queue past its capacity under `DropNewest` keeps the first
/// `capacity` items that were pushed.
pub proof fn lemma_drop_newest_keeps_oldest<T>(items: Seq<T>, capacity: nat, xs: Seq<T>)
    requires
        0 < capacity,
        items.len() <= capacity,
    ensures
        pushed_all(items, capacity, OverflowPolicy::DropNewest, xs)
            == (items + xs).take(if items.len() + xs.len() <= capacity { (items.len() + xs.len()) as int } else { capacity as int }),
    decreases xs.len(),
{
    if xs.len() == 0 {
        assert((items + xs) =~= items);
        assert(items.take(items.len() as int) =~= items);
    } else {
        let next = pushed_items(items, capacity, OverflowPolicy::DropNewest, xs[0]);
        lemma_drop_newest_keeps_oldest(next, capacity, xs.drop_first());
        if items.len() < capacity {
            assert(next + xs.drop_first() =~= items + xs);
        } else {
            assert((next + xs.drop_first()).take(capacity as int) =~= (items + xs).take(capacity as int));
        }
    }
}

/// Filling an empty queue past its capacity under `DropOldest` keeps the last
/// `capacity` items that were pushed.
pub proof fn lemma_drop_oldest_keeps_newest<T>(items: Seq<T>, capacity: nat, xs: Seq<T>)
    requires
        0 < capacity,
        items.len() <= capacity,
    ensures
        pushed_all(items, capacity, OverflowPolicy::DropOldest, xs)
            == (items + xs).skip(if items.len() + xs.len() <= capacity { 0int } else { items.len() + xs.len() - capacity }),
    decreases xs.len(),
{
    if xs.len() == 0 {
        assert((items + xs) =~= items);
        assert(items.skip(0) =~= items);
    } else {
        let next = pushed_items(items, capacity, OverflowPolicy::DropOldest, xs[0]);
        lemma_drop_oldest_keeps_newest(next, capacity, xs.drop_first());
        if items.len() < capacity {
            assert(next + xs.drop_first() =~= items + xs);
        } else {
            assert(next =~= items.drop_first().push(xs[0]));
            let k = items.len() + xs.len() - capacity;
            assert((next + xs.drop_first()).skip(k - 1) =~= (items + xs).skip(k));
        }
    }
}

/// Single-shard bounded dispatcher queue (session to consumer).
#[derive(Debug)]
pub struct BoundedQueue<T> {
    capacity: usize,
    policy: OverflowPolicy,
    items: VecDeque<T>,
    pub dropped_total: u64,
}

impl<T> BoundedQueue<T> {
    /// The queued items, oldest first.
    pub closed spec fn items(&self) -> Seq<T> {
        self.items@
    }

    pub closed spec fn dropped(&self) -> u64 {
        self.dropped_total
    }

    pub closed spec fn spec_capacity(&self) -> nat {
        self.capacity as nat
    }

    pub closed spec fn spec_policy(&self) -> OverflowPolicy {
        self.policy
    }

    /// The queue never holds more than its capacity, which is positive.
    pub closed spec fn wf(&self) -> bool {
        &&& 0 < self.capacity
        &&& self.items@.len() <= self.capacity
    }

    /// A well-formed queue has room for at least one item and never holds more items than
    /// its capacity.
    pub proof fn lemma_within_capacity(&self)
        requires
            self.wf(),
        ensures
            self.spec_capacity() > 0,
            self.items().len() <= self.spec_capacity(),
    {
    }

    pub fn new(capacity: usize, policy: OverflowPolicy) -> (q: Self)
        requires
            capacity > 0,
        ensures
            q.wf(),
            q.items() == Seq::<T>::empty(),
            q.spec_capacity() == capacity,
            q.spec_policy() == policy,
            q.dropped() == 0,
    {
        BoundedQueue { capacity, policy, items: VecDeque::with_capacity(capacity), dropped_total: 0 }
    }

    /// How many items the queue has dropped.
    pub fn dropped_count(&self) -> (n: u64)
        ensures
            n == self.dropped(),
    {
        self.dropped_total
    }

    pub fn len(&self) -> (n: usize)
        ensures
            n == self.items().len(),
    {
        self.items.len()
    }

    pub fn is_empty(&self) -> (b: bool)
        ensures
            b == (self.items().len() == 0),
    {
        self.items.len() == 0
    }

    pub fn capacity(&self) -> (c: usize)
        ensures
            c == self.spec_capacity(),
    {
        self.capacity
    }

    pub fn policy(&self) -> (p: OverflowPolicy)
        ensures
            p == self.spec_policy(),
    {
        self.policy
    }

    /// Removes and returns the oldest item.
    pub fn pop_front(&mut self) -> (r: Option<T>)
        requires
            old(self).wf(),
        ensures
            final(self).wf(),
            final(self).spec_capacity() == old(self).spec_capacity(),
            final(self).spec_policy() == old(self).spec_policy(),
            final(self).dropped() == old(self).dropped(),
            old(self).items().len() == 0 ==> r is None && final(self).items() == old(self).items(),
            old(self).items().len() > 0 ==> r == Some(old(self).items()[0])
                && final(self).items() == old(self).items().drop_first(),
    {
        self.items.pop_front()
    }

    /// The oldest item, if any.
    pub fn front(&self) -> (r: Option<&T>)
        ensures
            self.items().len() == 0 ==> r is None,
            self.items().len() > 0 ==> r == Some(&self.items()[0]),
    {
        if self.items.len() > 0 {
            Some(&self.items[0])
        } else {
            None
        }
    }

    /// Non-blocking push respecting the overflow policy.
    pub fn try_push(&mut self, item: T) -> (r: Result<PushOutcome, DispatchError>)
        requires
            old(self).wf(),
            old(self).dropped() < u64::MAX || dropped_by(push_result(old(self).items(), old(self).spec_capacity(), old(self).spec_policy())) == 0,
        ensures
            final(self).wf(),
            final(self).spec_capacity() == old(self).spec_capacity(),
            final(self).spec_policy() == old(self).spec_policy(),
            r == push_result(old(self).items(), old(self).spec_capacity(), old(self).spec_policy()),
            final(self).items() == pushed_items(
                old(self).items(),
                old(self).spec_capacity(),
                old(self).spec_policy(),
                item,
            ),
            final(self).dropped() == old(self).dropped() + dropped_by(r),
    {
        if self.items.len() < self.capacity {
            self.items.push_back(item);
            return Ok(PushOutcome::Accepted);
        }
        match self.policy {
            OverflowPolicy::DropNewest => {
                self.dropped_total = self.dropped_total + 1;
                Ok(PushOutcome::DroppedNewest)
            },
            OverflowPolicy::DropOldest => {
                let _ = self.items.pop_front();
                self.items.push_back(item);
                self.dropped_total = self.dropped_total + 1;
                Ok(PushOutcome::DroppedOldest { dropped: 1 })
            },
            OverflowPolicy::FailEngine => Err(DispatchError::FailEngine),
            OverflowPolicy::BlockWithDeadline => Err(DispatchError::DeadlineExceeded),
            OverflowPolicy::SpillToDisk => Err(DispatchError::UnsupportedPolicy(OverflowPolicy::SpillToDisk)),
        }
    }

    /// One step of a push that may wait for room (`BlockWithDeadline`).
    ///
    /// Under any other policy this is `try_push`. Under `BlockWithDeadline` a queue with
    /// room accepts the item; a full queue fails once `deadline_reached` holds, and
    /// otherwise hands the item back (`Err`) so that the caller can wait and try again.
    pub fn push_with_deadline_step(&mut self, item: T, deadline_reached: bool) -> (r: Result<Result<PushOutcome, DispatchError>, T>)
        requires
            old(self).wf(),
            old(self).dropped() < u64::MAX || dropped_by(push_result(old(self).items(), old(self).spec_capacity(), old(self).spec_policy())) == 0,
        ensures
            final(self).wf(),
            final(self).spec_capacity() == old(self).spec_capacity(),
            final(self).spec_policy() == old(self).spec_policy(),
            old(self).spec_policy() != OverflowPolicy::BlockWithDeadline ==> {
                &&& r == Ok::<Result<PushOutcome, DispatchError>, T>(push_result(old(self).items(), old(self).spec_capacity(), old(self).spec_policy()))
                &&& final(self).items() == pushed_items(old(self).items(), old(self).spec_capacity(), old(self).spec_policy(), item)
                &&& final(self).dropped() == old(self).dropped() + dropped_by(push_result(old(self).items(), old(self).spec_capacity(), old(self).spec_policy()))
            },
            old(self).spec_policy() == OverflowPolicy::BlockWithDeadline ==> {
                &&& final(self).dropped() == old(self).dropped()
                &&& if old(self).items().len() < old(self).spec_capacity() {
                    &&& r == Ok::<Result<PushOutcome, DispatchError>, T>(Ok(PushOutcome::Accepted))
                    &&& final(self).items() == old(self).items().push(item)
                } else if deadline_reached {
                    &&& r == Ok::<Result<PushOutcome, DispatchError>, T>(Err(DispatchError::DeadlineExceeded))
                    &&& final(self).items() == old(self).items()
                } else {
                    &&& r == Err::<Result<PushOutcome, DispatchError>, T>(item)
                    &&& final(self).items() == old(self).items()
                }
            },
    {
        if self.policy != OverflowPolicy::BlockWithDeadline {
            return Ok(self.try_push(item));
        }
        if self.items.len() < self.capacity {
            self.items.push_back(item);
            return Ok(Ok(PushOutcome::Accepted));
        }
        if deadline_reached {
            return Ok(Err(DispatchError::DeadlineExceeded));
        }
        Err(item)
    }

    /// Removes every item, oldest first.
    pub fn drain(&mut self) -> (out: Vec<T>)
        requires
            old(self).wf(),
        ensures
            final(self).wf(),
            out@ == old(self).items(),
            final(self).items() == Seq::<T>::empty(),
            final(self).spec_capacity() == old(self).spec_capacity(),
            final(self).spec_policy() == old(self).spec_policy(),
            final(self).dropped() == old(self).dropped(),
    {
        let mut out: Vec<T> = Vec::with_capacity(self.items.len());
        let ghost orig = self.items@;
        while self.items.len() > 0
            invariant
                self.wf(),
                out@ + self.items@ == orig,
                self.capacity == old(self).capacity,
                self.policy == old(self).policy,
                self.dropped_total == old(self).dropped(),
                orig == old(self).items@,
            decreases self.items@.len(),
        {
            let ghost before = self.items@;
            match self.items.pop_front() {
                Some(x) => {
                    out.push(x);
                    assert(out@ + self.items@ =~= orig);
                },
                None => {},
            }
        }
        assert(out@ =~= orig);
        out
    }
}

/// Dispatch lane for market event batches and system events.
#[derive(Debug)]
pub struct EventDispatcher<B, S> {
    batches: BoundedQueue<B>,
    systems: BoundedQueue<S>,
}

impl<B, S> EventDispatcher<B, S> {
    pub closed spec fn batch_queue(&self) -> BoundedQueue<B> {
        self.batches
    }

    pub closed spec fn system_queue(&self) -> BoundedQueue<S> {
        self.systems
    }

    pub open spec fn wf(&self) -> bool {
        self.batch_queue().wf() && self.system_queue().wf()
    }

    pub fn new(batch_capacity: usize, system_capacity: usize, policy: OverflowPolicy) -> (d: Self)
        requires
            batch_capacity > 0,
            system_capacity > 0,
        ensures
            d.wf(),
            d.batch_queue().items() == Seq::<B>::empty(),
            d.system_queue().items() == Seq::<S>::empty(),
            d.batch_queue().spec_capacity() == batch_capacity,
            d.system_queue().spec_capacity() == system_capacity,
            d.batch_queue().spec_policy() == policy,
            d.system_queue().spec_policy() == policy,
            d.batch_queue().dropped() == 0,
            d.system_queue().dropped() == 0,
    {
        EventDispatcher {
            batches: BoundedQueue::new(batch_capacity, policy),
            systems: BoundedQueue::new(system_capacity, policy),
        }
    }

    pub fn push_batch(&mut self, batch: B) -> (r: Result<PushOutcome, DispatchError>)
        requires
            old(self).wf(),
            old(self).batch_queue().dropped() < u64::MAX || dropped_by(push_result(old(self).batch_queue().items(), old(self).batch_queue().spec_capacity(), old(self).batch_queue().spec_policy())) == 0,
        ensures
            final(self).wf(),
            final(self).system_queue() == old(self).system_queue(),
            final(self).batch_queue().spec_capacity() == old(self).batch_queue().spec_capacity(),
            final(self).batch_queue().spec_policy() == old(self).batch_queue().spec_policy(),
            r == push_result(old(self).batch_queue().items(), old(self).batch_queue().spec_capacity(), old(self).batch_queue().spec_policy()),
            final(self).batch_queue().items() == pushed_items(old(self).batch_queue().items(), old(self).batch_queue().spec_capacity(), old(self).batch_queue().spec_policy(), batch),
            final(self).batch_queue().dropped() == old(self).batch_queue().dropped() + dropped_by(r),
    {
        self.batches.try_push(batch)
    }

    pub fn push_system(&mut self, event: S) -> (r: Result<PushOutcome, DispatchError>)
        requires
            old(self).wf(),
            old(self).system_queue().dropped() < u64::MAX || dropped_by(push_result(old(self).system_queue().items(), old(self).system_queue().spec_capacity(), old(self).system_queue().spec_policy())) == 0,
        ensures
            final(self).wf(),
            final(self).batch_queue() == old(self).batch_queue(),
            final(self).system_queue().spec_capacity() == old(self).system_queue().spec_capacity(),
            final(self).system_queue().spec_policy() == old(self).system_queue().spec_policy(),
            r == push_result(old(self).system_queue().items(), old(self).system_queue().spec_capacity(), old(self).system_queue().spec_policy()),
            final(self).system_queue().items() == pushed_items(old(self).system_queue().items(), old(self).system_queue().spec_capacity(), old(self).system_queue().spec_policy(), event),
            final(self).system_queue().dropped() == old(self).system_queue().dropped() + dropped_by(r),
    {
        self.systems.try_push(event)
    }

    pub fn pop_batch(&mut self) -> (r: Option<B>)
        requires
            old(self).wf(),
        ensures
            final(self).wf(),
            final(self).system_queue() == old(self).system_queue(),
            final(self).batch_queue().spec_capacity() == old(self).batch_queue().spec_capacity(),
            final(self).batch_queue().spec_policy() == old(self).batch_queue().spec_policy(),
            final(self).batch_queue().dropped() == old(self).batch_queue().dropped(),
            old(self).batch_queue().items().len() == 0 ==> r is None
                && final(self).batch_queue().items() == old(self).batch_queue().items(),
            old(self).batch_queue().items().len() > 0 ==> r == Some(old(self).batch_queue().items()[0])
                && final(self).batch_queue().items() == old(self).batch_queue().items().drop_first(),
    {
        self.batches.pop_front()
    }

    pub fn pop_system(&mut self) -> (r: Option<S>)
        requires
            old(self).wf(),
        ensures
            final(self).wf(),
            final(self).batch_queue() == old(self).batch_queue(),
            final(self).system_queue().spec_capacity() == old(self).system_queue().spec_capacity(),
            final(self).system_queue().spec_policy() == old(self).system_queue().spec_policy(),
            final(self).system_queue().dropped() == old(self).system_queue().dropped(),
            old(self).system_queue().items().len() == 0 ==> r is None
                && final(self).system_queue().items() == old(self).system_queue().items(),
            old(self).system_queue().items().len() > 0 ==> r == Some(old(self).system_queue().items()[0])
                && final(self).system_queue().items() == old(self).system_queue().items().drop_first(),
    {
        self.systems.pop_front()
    }

    pub fn batches(&self) -> (q: &BoundedQueue<B>)
        ensures
            *q == self.batch_queue(),
    {
        &self.batches
    }

    pub fn systems(&self) -> (q: &BoundedQueue<S>)
        ensures
            *q == self.system_queue(),
    {
        &self.systems
    }

    /// Removes every queued batch, oldest first.
    pub fn drain_batches(&mut self) -> (out: Vec<B>)
        requires
            old(self).wf(),
        ensures
            final(self).wf(),
            out@ == old(self).batch_queue().items(),
            final(self).batch_queue().items() == Seq::<B>::empty(),
            final(self).system_queue() == old(self).system_queue(),
            final(self).batch_queue().spec_capacity() == old(self).batch_queue().spec_capacity(),
            final(self).batch_queue().spec_policy() == old(self).batch_queue().spec_policy(),
            final(self).batch_queue().dropped() == old(self).batch_queue().dropped(),
    {
        self.batches.drain()
    }

    /// Removes every queued system event, oldest first.
    pub fn drain_systems(&mut self) -> (out: Vec<S>)
        requires
            old(self).wf(),
        ensures
            final(self).wf(),
            out@ == old(self).system_queue().items(),
            final(self).system_queue().items() == Seq::<S>::empty(),
            final(self).batch_queue() == old(self).batch_queue(),
            final(self).system_queue().spec_capacity() == old(self).system_queue().spec_capacity(),
            final(self).system_queue().spec_policy() == old(self).system_queue().spec_policy(),
            final(self).system_queue().dropped() == old(self).system_queue().dropped(),
    {
        self.systems.drain()
    }
}

} // verus!
