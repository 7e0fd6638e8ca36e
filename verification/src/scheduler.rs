//! Per-unit priority scheduler.
//!
//! Each unit owns one bounded queue, ordered by priority tier: an admitted
//! entry stands behind the queued entries of its own and higher tiers and
//! ahead of the lower ones, and admission order within a tier is FIFO.  A unit is dispatched only while
//! its busy flag is clear — the flag is the whole synchronization story of a
//! unit, so one unit never runs two operations at once while distinct units
//! stay fully independent.

use vstd::prelude::*;

use crate::errors::AccelError;
use crate::executor::{OperationContext, OperationExecutor};
use crate::protocol::wf_operation;
use crate::types::{Operation, OperationStatus, Priority, UnitId, UNIT_COUNT};

verus! {

/// Capacity of one unit's queue.
pub const MAX_QUEUE_SIZE: usize = 256;

/// Poll interval of the dispatch loop, in milliseconds.
pub const SCHEDULING_INTERVAL_MS: u64 = 10;

/// A queued entry older than this is discarded instead of dispatched, in
/// milliseconds.
pub const QUEUE_TIMEOUT_MS: u64 = 60000;

/// One queued operation with its priority and enqueue timestamp.
#[derive(Debug, Clone, Copy)]
pub struct OperationEntry {
    /// The operation context created at submission time.
    pub context: OperationContext,
    /// Queue priority.
    pub priority: Priority,
    /// Enqueue timestamp in milliseconds.
    pub queued_at: u64,
}

/// Scheduler status events, emitted once per finished or discarded entry.
#[derive(Debug, Clone)]
pub enum SchedulerStatus {
    /// An operation completed with a terminal status.
    OperationComplete { unit: UnitId, status: OperationStatus },
    /// An error occurred.
    Error { unit: UnitId, error: String },
}

/// Read-only projection of one unit's queue, computed on demand.
#[derive(Debug, Clone, Copy)]
pub struct QueueStatus {
    /// Unit id.
    pub unit: UnitId,
    /// Total number of queued operations.
    pub queued_operations: usize,
    /// Number of high-priority entries.
    pub high_priority: usize,
    /// Number of normal-priority entries.
    pub normal_priority: usize,
    /// Number of low-priority entries.
    pub low_priority: usize,
    /// Waiting time of the oldest entry in milliseconds, if any is queued.
    pub oldest_operation: Option<u64>,
}

/// Waiting time of an entry queued at `then`, read at `now`; zero when the
/// clock reads earlier than the enqueue time.
pub open spec fn spec_age(now: u64, then: u64) -> u64 {
    if now >= then {
        (now - then) as u64
    } else {
        0
    }
}

/// Number of entries of one priority in a queue.
pub open spec fn count_priority(q: Seq<OperationEntry>, p: Priority) -> int
    decreases q.len(),
{
    if q.len() == 0 {
        0
    } else {
        count_priority(q.drop_last(), p) + if q.last().priority == p {
            1int
        } else {
            0int
        }
    }
}

/// Longest waiting time over a queue, if it is non-empty.
pub open spec fn oldest_age(q: Seq<OperationEntry>, now: u64) -> Option<u64>
    decreases q.len(),
{
    if q.len() == 0 {
        None
    } else {
        match oldest_age(q.drop_last(), now) {
            None => Some(spec_age(now, q.last().queued_at)),
            Some(m) => if spec_age(now, q.last().queued_at) >= m {
                Some(spec_age(now, q.last().queued_at))
            } else {
                Some(m)
            },
        }
    }
}

/// The head of this queue would be dispatched: the unit is not busy, the
/// queue is non-empty, and the head has not waited out its timeout.
pub open spec fn spec_dispatches(busy: bool, q: Seq<OperationEntry>, now: u64) -> bool {
    !busy && q.len() > 0 && spec_age(now, q[0].queued_at) <= QUEUE_TIMEOUT_MS
}

/// Per-unit exclusivity law: while a unit is marked busy, nothing more is
/// dispatched to it.  Dispatching sets the busy flag — see `poll_unit` — and
/// only completion clears it, so no two executor invocations for one unit
/// are ever concurrently in flight: for all units, whatever the unit's
/// queue holds and whenever it is polled, a busy unit yields no dispatch.
pub proof fn lemma_per_unit_exclusivity(q: Seq<OperationEntry>, now: u64)
    ensures
        !spec_dispatches(true, q, now),
{
}

/// Cross-unit parallelism law: dispatching on one unit changes neither the
/// queue nor the busy flag of any other unit, so whether another unit
/// dispatches is unaffected — units proceed independently and are never
/// serialized against each other.
pub proof fn lemma_cross_unit_independence(
    busy: Seq<bool>,
    queues: Seq<Seq<OperationEntry>>,
    u1: int,
    u2: int,
    q1: Seq<OperationEntry>,
    now: u64,
)
    requires
        0 <= u1 < busy.len(),
        0 <= u2 < busy.len(),
        busy.len() == queues.len(),
        u1 != u2,
    ensures
        spec_dispatches(
            busy.update(u1, true)[u2],
            queues.update(u1, q1)[u2],
            now,
        ) == spec_dispatches(busy[u2], queues[u2], now),
{
}

/// The unit a scheduler event speaks of.
pub open spec fn event_unit(ev: SchedulerStatus) -> UnitId {
    match ev {
        SchedulerStatus::OperationComplete { unit, .. } => unit,
        SchedulerStatus::Error { unit, .. } => unit,
    }
}

/// What polling one unit produced.
#[derive(Debug, Clone)]
pub enum PollOutcome {
    /// Nothing to do: the unit is busy or its queue is empty.
    Idle,
    /// The head entry waited out its timeout and was discarded.
    Expired(SchedulerStatus),
    /// The head entry was dequeued and the unit marked busy; the caller
    /// hands this context to the executor and then reports completion.
    Dispatch(OperationContext),
}

/// Dispatch rank of a priority: lower ranks dispatch first.
pub open spec fn rank(p: Priority) -> int {
    match p {
        Priority::High => 0,
        Priority::Normal => 1,
        Priority::Low => 2,
    }
}

/// Dispatch rank of a priority: lower ranks dispatch first.
fn rank_of(p: Priority) -> (r: u8)
    ensures
        r == rank(p),
{
    match p {
        Priority::High => 0,
        Priority::Normal => 1,
        Priority::Low => 2,
    }
}

/// Position a new entry of priority `p` is inserted at: behind every entry
/// of its own or higher priority, ahead of the lower tiers.
pub open spec fn insert_position(q: Seq<OperationEntry>, p: Priority) -> int
    decreases q.len(),
{
    if q.len() == 0 {
        0
    } else if rank(q[0].priority) <= rank(p) {
        1 + insert_position(q.drop_first(), p)
    } else {
        0
    }
}

/// Queue ordering law: an admitted entry stands behind exactly the queued
/// entries of its own or higher priority and ahead of every lower-priority
/// entry, so a high-priority submission jumps the line once while admission
/// order within one tier stays FIFO.  With the contract of `schedule`, the
/// submissions Low, Normal, High to an empty queue therefore dispatch as
/// High, Normal, Low.
pub proof fn lemma_queue_ordering(q: Seq<OperationEntry>, p: Priority)
    ensures
        0 <= insert_position(q, p) <= q.len(),
        forall|j: int|
            0 <= j < insert_position(q, p) ==> rank((#[trigger] q[j]).priority) <= rank(p),
        insert_position(q, p) < q.len() ==> rank(q[insert_position(q, p)].priority) > rank(p),
    decreases q.len(),
{
    if q.len() > 0 && rank(q[0].priority) <= rank(p) {
        lemma_queue_ordering(q.drop_first(), p);
        let ip = insert_position(q, p);
        assert(ip == 1 + insert_position(q.drop_first(), p));
        assert forall|j: int| 0 <= j < ip implies rank((#[trigger] q[j]).priority) <= rank(p) by {
            if j > 0 {
                assert(q[j] == q.drop_first()[j - 1]);
            }
        }
        if ip < q.len() {
            assert(q[ip] == q.drop_first()[ip - 1]);
        }
    }
}

/// Mutable access to one inner vector.
fn queue_mut(queues: &mut Vec<Vec<OperationEntry>>, i: usize) -> (q: &mut Vec<OperationEntry>)
    requires
        i < old(queues)@.len(),
    ensures
        *q == old(queues)@[i as int],
        final(queues)@ == old(queues)@.update(i as int, *final(q)),
{
    &mut queues[i]
}

/// The scheduler: one bounded queue and one busy flag per unit, and the
/// executor operations are handed to.
pub struct Scheduler<E: OperationExecutor> {
    executor: E,
    queues: Vec<Vec<OperationEntry>>,
    busy: Vec<bool>,
}

impl<E: OperationExecutor> Scheduler<E> {
    /// The executor owned by this scheduler.
    pub closed spec fn executor(&self) -> E {
        self.executor
    }

    /// The queue of one unit.
    pub closed spec fn queue(&self, u: int) -> Seq<OperationEntry> {
        self.queues@[u]@
    }

    /// The busy flag of one unit.
    pub closed spec fn busy(&self, u: int) -> bool {
        self.busy@[u]
    }

    /// All queues, outermost sequence indexed by unit.
    pub closed spec fn queues_view(&self) -> Seq<Seq<OperationEntry>> {
        self.queues@.map_values(|q: Vec<OperationEntry>| q@)
    }

    /// All busy flags, indexed by unit.
    pub closed spec fn busy_view(&self) -> Seq<bool> {
        self.busy@
    }

    /// Well-formedness: one bounded queue and one flag per unit, every
    /// queued context valid, and a healthy executor.
    pub open spec fn wf(&self) -> bool {
        &&& self.executor().inv()
        &&& self.queues_view().len() == UNIT_COUNT
        &&& self.busy_view().len() == UNIT_COUNT
        &&& forall|u: int| 0 <= u < UNIT_COUNT ==> (#[trigger] self.queue(u)).len() <= MAX_QUEUE_SIZE
        &&& forall|u: int, i: int|
            0 <= u < UNIT_COUNT && 0 <= i < self.queue(u).len() ==> (#[trigger] self.queue(
                u,
            )[i]).context.wf()
    }

    /// Create a new scheduler around an executor: empty queues, all units
    /// idle.
    pub fn new(executor: E) -> (r: Scheduler<E>)
        requires
            executor.inv(),
        ensures
            r.wf(),
            r.executor() == executor,
            forall|u: int| 0 <= u < UNIT_COUNT ==> (#[trigger] r.queue(u)).len() == 0,
            forall|u: int| 0 <= u < UNIT_COUNT ==> !(#[trigger] r.busy(u)),
    {
        let mut queues: Vec<Vec<OperationEntry>> = Vec::new();
        let mut busy: Vec<bool> = Vec::new();
        let mut i: usize = 0;
        while i < UNIT_COUNT
            invariant
                i <= UNIT_COUNT,
                queues@.len() == i,
                busy@.len() == i,
                forall|u: int| 0 <= u < i ==> (#[trigger] queues@[u])@.len() == 0,
                forall|u: int| 0 <= u < i ==> !(#[trigger] busy@[u]),
            decreases UNIT_COUNT - i,
        {
            queues.push(Vec::new());
            busy.push(false);
            i = i + 1;
        }
        Scheduler { executor, queues, busy }
    }

    /// Borrow the underlying executor.
    pub fn executor_ref(&self) -> (r: &E)
        ensures
            *r == self.executor(),
    {
        &self.executor
    }

    /// Admit one operation into a unit's queue.
    ///
    /// Fails with a resource-exhaustion error — and changes nothing — when
    /// the unit's queue is at capacity.  The entry is inserted behind every
    /// queued entry of its own or higher priority and ahead of the lower
    /// tiers: a high-priority entry jumps to the head of the non-high part
    /// of the queue, and admission order within one tier is FIFO.  The entry
    /// records the submission time as both the context's start time and the
    /// enqueue time.
    pub fn schedule(
        &mut self,
        operation: Operation,
        unit: UnitId,
        priority: Priority,
        now: u64,
    ) -> (r: Result<(), AccelError>)
        requires
            old(self).wf(),
            unit.wf(),
            wf_operation(operation),
        ensures
            final(self).wf(),
            final(self).executor() == old(self).executor(),
            final(self).busy_view() == old(self).busy_view(),
            forall|u: int|
                0 <= u < UNIT_COUNT ==> #[trigger] final(self).busy(u) == old(self).busy(u),
            old(self).queue(unit.0 as int).len() >= MAX_QUEUE_SIZE ==> (r is Err && *final(self)
                == *old(self)),
            old(self).queue(unit.0 as int).len() < MAX_QUEUE_SIZE ==> {
                let entry = OperationEntry {
                    context: OperationContext {
                        operation,
                        unit,
                        block: None,
                        retries: 0,
                        start_time: now,
                    },
                    priority,
                    queued_at: now,
                };
                let q = old(self).queue(unit.0 as int);
                let pos = insert_position(q, priority);
                &&& r is Ok
                &&& final(self).queue(unit.0 as int) =~= q.take(pos) + seq![entry] + q.skip(pos)
                &&& forall|u: int|
                    0 <= u < UNIT_COUNT && u != unit.0 as int ==> #[trigger] final(self).queue(u)
                        == old(self).queue(u)
            },
    {
        let idx = unit.raw();
        let entry = OperationEntry {
            context: OperationContext { operation, unit, block: None, retries: 0, start_time: now },
            priority,
            queued_at: now,
        };
        if self.queues[idx].len() >= MAX_QUEUE_SIZE {
            return Err(AccelError::Resource("operation queue full".to_owned()));
        }
        let q = queue_mut(&mut self.queues, idx);
        let ghost q0 = q@;
        let mut pos: usize = 0;
        proof {
            assert(q0.skip(0) =~= q0);
        }
        while pos < q.len() && rank_of(q[pos].priority) <= rank_of(priority)
            invariant
                pos <= q0.len(),
                q@ == q0,
                insert_position(q0, priority) == insert_position(q0.skip(pos as int), priority)
                    + pos,
            decreases q0.len() - pos,
        {
            proof {
                assert(q0.skip(pos as int)[0] == q0[pos as int]);
                assert(q0.skip(pos as int).drop_first() =~= q0.skip(pos + 1));
            }
            pos = pos + 1;
        }
        proof {
            if pos < q0.len() {
                assert(rank(q0[pos as int].priority) > rank(priority));
                assert(q0.skip(pos as int)[0] == q0[pos as int]);
                assert(insert_position(q0.skip(pos as int), priority) == 0);
            } else {
                assert(q0.skip(pos as int).len() == 0);
            }
            assert(insert_position(q0, priority) == pos as int);
        }
        q.insert(pos, entry);
        proof {
            assert(q@ =~= q0.take(pos as int) + seq![entry] + q0.skip(pos as int));
        }
        proof {
            let u0 = idx as int;
            assert(self.queues@ == old(self).queues@.update(u0, self.queues@[u0]));
            assert forall|u: int| 0 <= u < UNIT_COUNT && u != u0 implies #[trigger] self.queue(u)
                == old(self).queue(u) by {
                assert(self.queues@[u] == old(self).queues@[u]);
            }
            assert(self.queue(u0) =~= q0.take(pos as int) + seq![entry] + q0.skip(pos as int));
            assert forall|u: int, i: int|
                0 <= u < UNIT_COUNT && 0 <= i < self.queue(u).len() implies (#[trigger] self.queue(
                u,
            )[i]).context.wf() by {
                if u != u0 {
                    assert(self.queue(u) == old(self).queue(u));
                } else {
                    if i < pos {
                        assert(self.queue(u)[i] == q0[i]);
                    } else if i == pos {
                        assert(self.queue(u)[i] == entry);
                    } else {
                        assert(self.queue(u)[i] == q0[i - 1]);
                    }
                }
            }
        }
        Ok(())
    }
}

} // verus!

verus! {

impl<E: OperationExecutor> Scheduler<E> {
    /// Poll one unit: when it is idle and its queue is non-empty, pop the
    /// head entry; a head that waited out the queue timeout is discarded
    /// with an error event, otherwise the unit is marked busy and the
    /// context returned for execution.
    pub fn poll_unit(&mut self, unit: UnitId, now: u64) -> (r: PollOutcome)
        requires
            old(self).wf(),
            unit.wf(),
        ensures
            final(self).wf(),
            final(self).executor() == old(self).executor(),
            forall|u: int|
                0 <= u < UNIT_COUNT && u != unit.0 as int ==> #[trigger] final(self).queue(u)
                    == old(self).queue(u),
            forall|u: int|
                0 <= u < UNIT_COUNT && u != unit.0 as int ==> #[trigger] final(self).busy(u)
                    == old(self).busy(u),
            old(self).busy(unit.0 as int) || old(self).queue(unit.0 as int).len() == 0 ==> (r
                is Idle && *final(self) == *old(self)),
            r is Idle ==> *final(self) == *old(self),
            r is Expired ==> forall|u: int|
                0 <= u < UNIT_COUNT ==> #[trigger] final(self).busy(u) == old(self).busy(u),
            !old(self).busy(unit.0 as int) && old(self).queue(unit.0 as int).len() > 0 ==> final(self).queue(unit.0 as int) =~= old(self).queue(unit.0 as int).drop_first(),
            !old(self).busy(unit.0 as int) && old(self).queue(unit.0 as int).len() > 0 && spec_age(
                now,
                old(self).queue(unit.0 as int)[0].queued_at,
            ) > QUEUE_TIMEOUT_MS ==> (r matches PollOutcome::Expired(SchedulerStatus::Error {
                unit: u,
                ..
            }) && u == unit && final(self).busy_view() == old(self).busy_view()),
            spec_dispatches(
                old(self).busy(unit.0 as int),
                old(self).queue(unit.0 as int),
                now,
            ) ==> (r == PollOutcome::Dispatch(old(self).queue(unit.0 as int)[0].context) && final(self).busy_view() =~= old(self).busy_view().update(unit.0 as int, true)),
            r is Dispatch ==> !old(self).busy(unit.0 as int) && final(self).busy(unit.0 as int),
            r matches PollOutcome::Dispatch(c) ==> c.wf(),
    {
        let idx = unit.raw();
        if self.busy[idx] {
            return PollOutcome::Idle;
        }
        if self.queues[idx].len() == 0 {
            return PollOutcome::Idle;
        }
        let q = queue_mut(&mut self.queues, idx);
        let entry = q.remove(0);
        let age = if now >= entry.queued_at {
            now - entry.queued_at
        } else {
            0
        };
        proof {
            let u0 = idx as int;
            assert(self.queues@ == old(self).queues@.update(u0, self.queues@[u0]));
            assert(self.queues@.len() == old(self).queues@.len());
            assert(self.queues_view().len() == UNIT_COUNT);
            assert forall|u: int| 0 <= u < UNIT_COUNT && u != u0 implies #[trigger] self.queue(u)
                == old(self).queue(u) by {
                assert(self.queues@[u] == old(self).queues@[u]);
            }
            assert(self.queue(u0) =~= old(self).queue(u0).drop_first());
            lemma_queues_wf_after_pop(old(self), self, u0);
            assert(self.wf());
        }
        if age > QUEUE_TIMEOUT_MS {
            PollOutcome::Expired(
                SchedulerStatus::Error { unit, error: "queue wait time exceeded".to_owned() },
            )
        } else {
            let ghost mid = *self;
            self.busy.set(idx, true);
            proof {
                lemma_wf_same_queues(&mid, self);
            }
            PollOutcome::Dispatch(entry.context)
        }
    }

    /// Clear a unit's busy flag and build the status event for the outcome
    /// the executor reported.
    pub fn complete_unit(&mut self, unit: UnitId, outcome: &Result<OperationStatus, AccelError>)
        -> (r: SchedulerStatus)
        requires
            old(self).wf(),
            unit.wf(),
        ensures
            final(self).wf(),
            final(self).executor() == old(self).executor(),
            final(self).queues_view() == old(self).queues_view(),
            forall|u: int|
                0 <= u < UNIT_COUNT ==> #[trigger] final(self).queue(u) == old(self).queue(u),
            final(self).busy_view() =~= old(self).busy_view().update(unit.0 as int, false),
            !final(self).busy(unit.0 as int),
            forall|u: int|
                0 <= u < UNIT_COUNT && u != unit.0 as int ==> #[trigger] final(self).busy(u)
                    == old(self).busy(u),
            outcome matches Ok(st) ==> r == (SchedulerStatus::OperationComplete {
                unit,
                status: *st,
            }),
            outcome is Err ==> (r matches SchedulerStatus::Error { unit: u, .. } && u == unit),
    {
        self.busy.set(unit.raw(), false);
        proof {
            lemma_wf_same_queues(old(self), self);
        }
        match outcome {
            Ok(status) => SchedulerStatus::OperationComplete { unit, status: *status },
            Err(e) => SchedulerStatus::Error { unit, error: e.message() },
        }
    }

    /// Run one dispatch round on one unit: poll it, execute the popped
    /// context if one was dispatched, and report the resulting event.  The
    /// busy flag is set for the duration of the execution and cleared with
    /// the completion event, so at most one execution per unit is ever in
    /// flight.
    pub fn run_unit_once(&mut self, unit: UnitId, now: u64) -> (r: Option<SchedulerStatus>)
        requires
            old(self).wf(),
            unit.wf(),
        ensures
            final(self).wf(),
            old(self).busy(unit.0 as int) || old(self).queue(unit.0 as int).len() == 0 ==> (r
                is None && *final(self) == *old(self)),
            !old(self).busy(unit.0 as int) && old(self).queue(unit.0 as int).len() > 0 ==> (final(self).queue(unit.0 as int) =~= old(self).queue(unit.0 as int).drop_first() && final(self).busy_view() =~= old(self).busy_view() && (r matches Some(ev) && event_unit(ev) == unit)),
            forall|u: int|
                0 <= u < UNIT_COUNT && u != unit.0 as int ==> #[trigger] final(self).queue(u)
                    == old(self).queue(u),
    {
        match self.poll_unit(unit, now) {
            PollOutcome::Idle => None,
            PollOutcome::Expired(event) => {
                Some(event)
            },
            PollOutcome::Dispatch(context) => {
                let ghost mid = *self;
                let outcome = self.executor.execute(context);
                proof {
                    lemma_wf_same_queues(&mid, self);
                }
                let ghost mid2 = *self;
                let event = self.complete_unit(unit, &outcome);
                proof {
                    let u0 = unit.0 as int;
                    assert forall|u: int| 0 <= u < UNIT_COUNT && u != u0 implies #[trigger] self.queue(u) == old(self).queue(u) by {
                        assert(self.queue(u) == mid2.queue(u));
                        assert(mid2.queue(u) == mid.queue(u));
                        assert(mid.queue(u) == old(self).queue(u));
                    }
                    assert(self.queue(u0) == mid2.queue(u0));
                    assert(mid2.queue(u0) == mid.queue(u0));
                    assert(mid.busy_view().len() == UNIT_COUNT);
                    assert forall|u: int| 0 <= u < UNIT_COUNT implies mid.busy_view()[u] == old(
                        self,
                    ).busy_view().update(u0, true)[u] by {
                        if u != u0 {
                            assert(mid.busy(u) == old(self).busy(u));
                        } else {
                            assert(mid.busy(u0));
                        }
                    }
                    assert(mid.busy_view() =~= old(self).busy_view().update(u0, true));
                    assert(self.busy_view() =~= old(self).busy_view().update(
                        unit.0 as int,
                        true,
                    ).update(unit.0 as int, false));
                    assert(old(self).busy_view().update(unit.0 as int, true).update(
                        unit.0 as int,
                        false,
                    ) =~= old(self).busy_view().update(unit.0 as int, false));
                    assert(old(self).busy_view().update(unit.0 as int, false) =~= old(
                        self,
                    ).busy_view());
                }
                Some(event)
            },
        }
    }

    /// Compute the read-only queue projection of one unit.
    pub fn queue_status(&self, unit: UnitId, now: u64) -> (r: QueueStatus)
        requires
            self.wf(),
            unit.wf(),
        ensures
            r.unit == unit,
            r.queued_operations == self.queue(unit.0 as int).len(),
            r.high_priority == count_priority(self.queue(unit.0 as int), Priority::High),
            r.normal_priority == count_priority(self.queue(unit.0 as int), Priority::Normal),
            r.low_priority == count_priority(self.queue(unit.0 as int), Priority::Low),
            r.oldest_operation == oldest_age(self.queue(unit.0 as int), now),
    {
        let idx = unit.raw();
        let ghost s = self.queue(idx as int);
        let q_len = self.queues[idx].len();
        let mut high: usize = 0;
        let mut normal: usize = 0;
        let mut low: usize = 0;
        let mut oldest: Option<u64> = None;
        let mut i: usize = 0;
        while i < q_len
            invariant
                i <= s.len(),
                q_len == s.len(),
                self.wf(),
                unit.0 < UNIT_COUNT,
                idx == unit.0,
                s == self.queue(idx as int),
                s == self.queues@[idx as int]@,
                idx < self.queues@.len(),
                high == count_priority(s.take(i as int), Priority::High),
                normal == count_priority(s.take(i as int), Priority::Normal),
                low == count_priority(s.take(i as int), Priority::Low),
                oldest == oldest_age(s.take(i as int), now),
                high + normal + low <= i,
            decreases s.len() - i,
        {
            proof {
                assert(s.take(i + 1).drop_last() =~= s.take(i as int));
                assert(s.take(i + 1).last() == s[i as int]);
            }
            let entry = self.queues[idx][i];
            match entry.priority {
                Priority::High => high = high + 1,
                Priority::Normal => normal = normal + 1,
                Priority::Low => low = low + 1,
            }
            let age = if now >= entry.queued_at {
                now - entry.queued_at
            } else {
                0
            };
            oldest = match oldest {
                None => Some(age),
                Some(m) => if age >= m {
                    Some(age)
                } else {
                    Some(m)
                },
            };
            i = i + 1;
        }
        proof {
            assert(s.take(s.len() as int) =~= s);
        }
        QueueStatus {
            unit,
            queued_operations: q_len,
            high_priority: high,
            normal_priority: normal,
            low_priority: low,
            oldest_operation: oldest,
        }
    }

    /// Cancel all operations of one unit: the queued entries are dropped
    /// without ever reaching the executor, and the executor is told to
    /// cancel the in-flight operation, if any.
    pub fn cancel_all(&mut self, unit: UnitId) -> (r: Result<(), AccelError>)
        requires
            old(self).wf(),
            unit.wf(),
        ensures
            final(self).wf(),
            final(self).queue(unit.0 as int).len() == 0,
            final(self).busy_view() == old(self).busy_view(),
            forall|u: int|
                0 <= u < UNIT_COUNT ==> #[trigger] final(self).busy(u) == old(self).busy(u),
            forall|u: int|
                0 <= u < UNIT_COUNT && u != unit.0 as int ==> #[trigger] final(self).queue(u)
                    == old(self).queue(u),
    {
        let idx = unit.raw();
        let q = queue_mut(&mut self.queues, idx);
        q.clear();
        proof {
            let u0 = idx as int;
            assert(self.queues@ == old(self).queues@.update(u0, self.queues@[u0]));
            assert(self.queues@.len() == old(self).queues@.len());
            assert(self.queues_view().len() == UNIT_COUNT);
            assert forall|u: int| 0 <= u < UNIT_COUNT && u != u0 implies #[trigger] self.queue(u)
                == old(self).queue(u) by {
                assert(self.queues@[u] == old(self).queues@[u]);
            }
            assert(self.queue(u0) =~= Seq::<OperationEntry>::empty());
            lemma_queues_wf_after_pop(old(self), self, u0);
        }
        let ghost mid = *self;
        let r = self.executor.cancel(unit);
        proof {
            lemma_wf_same_queues(&mid, self);
        }
        r
    }
}

/// Shrinking one queue to a subset of its entries preserves context
/// well-formedness everywhere.
proof fn lemma_queues_wf_after_pop<E: OperationExecutor>(
    before: &Scheduler<E>,
    after: &Scheduler<E>,
    u0: int,
)
    requires
        before.wf(),
        0 <= u0 < UNIT_COUNT,
        after.queues_view().len() == UNIT_COUNT,
        after.busy_view().len() == before.busy_view().len(),
        after.executor() == before.executor(),
        forall|u: int|
            0 <= u < UNIT_COUNT && u != u0 ==> #[trigger] after.queue(u) == before.queue(u),
        (before.queue(u0).len() > 0 && after.queue(u0) =~= before.queue(u0).drop_first())
            || after.queue(u0) =~= Seq::<OperationEntry>::empty(),
    ensures
        after.wf(),
{
    assert forall|u: int, i: int|
        0 <= u < UNIT_COUNT && 0 <= i < after.queue(u).len() implies (#[trigger] after.queue(
        u,
    )[i]).context.wf() by {
        if u == u0 {
            if before.queue(u0).len() > 0 && after.queue(u0) =~= before.queue(u0).drop_first() {
                assert(after.queue(u0).len() == before.queue(u0).len() - 1);
                assert(after.queue(u)[i] == before.queue(u0).drop_first()[i]);
                assert(before.queue(u0).drop_first()[i] == before.queue(u0)[i + 1]);
                assert(before.queue(u)[i + 1].context.wf());
            } else {
                assert(after.queue(u0) =~= Seq::<OperationEntry>::empty());
                assert(false);
            }
        } else {
            assert(after.queue(u) == before.queue(u));
        }
    }
    assert forall|u: int| 0 <= u < UNIT_COUNT implies (#[trigger] after.queue(u)).len()
        <= MAX_QUEUE_SIZE by {
        if u == u0 {
            if before.queue(u0).len() > 0 && after.queue(u0) =~= before.queue(u0).drop_first() {
                assert(after.queue(u0).len() == before.queue(u0).len() - 1);
            } else {
                assert(after.queue(u0) =~= Seq::<OperationEntry>::empty());
            }
        } else {
            assert(after.queue(u) == before.queue(u));
        }
    }
}

/// A state with the same queues, the same number of busy flags and a
/// healthy executor stays well-formed.
proof fn lemma_wf_same_queues<E: OperationExecutor>(before: &Scheduler<E>, after: &Scheduler<E>)
    requires
        before.wf(),
        after.executor().inv(),
        after.queues_view() == before.queues_view(),
        after.busy_view().len() == before.busy_view().len(),
    ensures
        after.wf(),
{
    assert forall|u: int, i: int|
        0 <= u < UNIT_COUNT && 0 <= i < after.queue(u).len() implies (#[trigger] after.queue(
        u,
    )[i]).context.wf() by {
        assert(after.queues_view()[u] == after.queue(u));
        assert(before.queues_view()[u] == before.queue(u));
        assert(after.queue(u) == before.queue(u));
        assert(before.queue(u)[i].context.wf());
    }
    assert forall|u: int| 0 <= u < UNIT_COUNT implies (#[trigger] after.queue(u)).len()
        <= MAX_QUEUE_SIZE by {
        assert(after.queues_view()[u] == after.queue(u));
        assert(before.queues_view()[u] == before.queue(u));
        assert(after.queue(u) == before.queue(u));
    }
}

} // verus!
