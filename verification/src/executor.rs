//! Retrying executor.
//!
//! One operation runs as `Prepared -> Sent -> (Success | Retrying -> Sent |
//! Failed | TimedOut)`: the executor acquires the context's memory lock,
//! drives request/response cycles over the hardware link within a budget of
//! `MAX_RETRIES` attempts in all on reported failures — the lock is retained
//! across retries, not re-acquired — and releases the lock on a terminal
//! status.
//! Timeouts and protocol-level errors are never retried.

use vstd::prelude::*;

use crate::errors::{AccelError, HardwareError, UnitError};
use crate::link::FpgaInterface;
use crate::memory::{
    entry_of, has_id, set_status, BlockId, BlockStatus, LockReason, MemoryManager, MemoryUsage,
};
use crate::protocol::{wf_operation, Command, Response};
use crate::types::{Operation, OperationStatus, UnitId};

verus! {

/// Retry budget of one operation: the total number of request/response
/// attempts a run may make on reported failures.
pub const MAX_RETRIES: u32 = 3;

/// Flat delay between retries, in milliseconds.
pub const RETRY_DELAY_MS: u64 = 100;

/// Bound on one request/response cycle, in milliseconds.
pub const OPERATION_TIMEOUT_MS: u64 = 10000;

/// One in-flight request: the operation, its target unit, an optional owned
/// memory block, the retry counter and the start timestamp in milliseconds.
#[derive(Debug, Clone, Copy)]
pub struct OperationContext {
    /// Operation to execute.
    pub operation: Operation,
    /// Target unit.
    pub unit: UnitId,
    /// Associated memory block, if the operation owns one.
    pub block: Option<BlockId>,
    /// Number of retry attempts made so far.
    pub retries: u32,
    /// Start timestamp in milliseconds; the creator records the clock here.
    pub start_time: u64,
}

impl OperationContext {
    /// The context targets a real unit and carries a well-formed operation.
    pub open spec fn wf(self) -> bool {
        self.unit.wf() && wf_operation(self.operation)
    }

    /// Create a new operation context with no block, no retries, and a zero
    /// start timestamp.
    pub fn new(operation: Operation, unit: UnitId) -> (r: OperationContext)
        ensures
            r == (OperationContext { operation, unit, block: None, retries: 0, start_time: 0 }),
    {
        OperationContext { operation, unit, block: None, retries: 0, start_time: 0 }
    }

    /// The operation has exhausted its retry budget: counting the initial
    /// attempt, it has already been attempted `MAX_RETRIES` times.
    pub fn exceeded_retries(&self) -> (r: bool)
        ensures
            r == (self.retries >= MAX_RETRIES - 1),
    {
        self.retries >= MAX_RETRIES - 1
    }

    /// Milliseconds elapsed since the operation started, given the clock
    /// reading `now_ms`; zero when the clock reads earlier than the start.
    pub fn duration(&self, now_ms: u64) -> (r: u64)
        ensures
            r == if now_ms >= self.start_time {
                now_ms - self.start_time
            } else {
                0
            },
    {
        if now_ms >= self.start_time {
            now_ms - self.start_time
        } else {
            0
        }
    }
}

/// What one request/response attempt produced: a response from the link, or
/// the operation timeout elapsing first.
#[derive(Debug, Clone)]
pub enum AttemptOutcome {
    /// The link answered.
    Response(Response),
    /// The operation timeout elapsed without a response.
    TimedOut,
}

/// What the executor decides after one attempt.
#[derive(Debug, Clone)]
pub enum Resolution {
    /// The operation reached a terminal status; release the lock.
    Complete(OperationStatus),
    /// Retry with this context after the backoff delay.
    Retry(OperationContext),
    /// Surface this error immediately; never retried.
    Fault(AccelError),
}

/// Decide what follows one attempt.
///
/// A success, an in-progress report, and a failure with the retry budget
/// exhausted — the attempt just resolved was the `MAX_RETRIES`th — are
/// terminal; a failure within budget retries with the counter incremented
/// and everything else unchanged; a timeout is never retried and
/// surfaces a timeout error; a protocol-level error response is never
/// retried and surfaces the reported message; an unsolicited system-status
/// response is a protocol fault.
pub fn resolve_attempt(context: OperationContext, outcome: AttemptOutcome) -> (r: Resolution)
    requires
        context.wf(),
    ensures
        outcome matches AttemptOutcome::Response(Response::Status { status, .. }) ==> (match status {
            OperationStatus::Success => r == Resolution::Complete(OperationStatus::Success),
            OperationStatus::InProgress => r == Resolution::Complete(OperationStatus::InProgress),
            OperationStatus::Failed { code } => if context.retries >= MAX_RETRIES - 1 {
                r == Resolution::Complete(OperationStatus::Failed { code })
            } else {
                r == Resolution::Retry(
                    OperationContext { retries: (context.retries + 1) as u32, ..context },
                )
            },
        }),
        outcome matches AttemptOutcome::Response(Response::Error { code, message }) ==> (r
            matches Resolution::Fault(AccelError::Unit(UnitError::Failed { unit, reason }))
            && unit == context.unit && reason == message),
        outcome matches AttemptOutcome::Response(Response::SystemStatus { .. }) ==> (r matches
            Resolution::Fault(AccelError::Hardware(HardwareError::Protocol(..)))),
        outcome is TimedOut ==> r == Resolution::Fault(
            AccelError::Hardware(HardwareError::Timeout(OPERATION_TIMEOUT_MS)),
        ),
        r matches Resolution::Retry(c) ==> c == (OperationContext {
            retries: (context.retries + 1) as u32,
            ..context
        }) && context.retries < MAX_RETRIES - 1,
{
    match outcome {
        AttemptOutcome::Response(response) => match response {
            Response::Status { status, .. } => match status {
                OperationStatus::Success => Resolution::Complete(OperationStatus::Success),
                OperationStatus::InProgress => Resolution::Complete(OperationStatus::InProgress),
                OperationStatus::Failed { code } => {
                    if context.retries >= MAX_RETRIES - 1 {
                        Resolution::Complete(OperationStatus::Failed { code })
                    } else {
                        Resolution::Retry(
                            OperationContext { retries: context.retries + 1, ..context },
                        )
                    }
                },
            },
            Response::Error { code: _, message } => Resolution::Fault(
                AccelError::Unit(UnitError::Failed { unit: context.unit, reason: message }),
            ),
            Response::SystemStatus { .. } => Resolution::Fault(
                AccelError::Hardware(
                    HardwareError::Protocol("unsolicited system status".to_owned()),
                ),
            ),
        },
        AttemptOutcome::TimedOut => Resolution::Fault(
            AccelError::Hardware(HardwareError::Timeout(OPERATION_TIMEOUT_MS)),
        ),
    }
}

/// Number of request/response attempts a run makes when every attempt
/// reports `Failed`, starting from retry counter `r`: one for the attempt
/// that resolves now, and one more for each further retry the budget still
/// allows.
pub open spec fn attempts_until_failed(r: nat) -> nat
    decreases
            if r <= MAX_RETRIES {
                (MAX_RETRIES - r) as nat
            } else {
                0nat
            },
{
    if r >= MAX_RETRIES - 1 {
        1
    } else {
        1 + attempts_until_failed(r + 1)
    }
}

/// A run that keeps failing makes exactly `MAX_RETRIES - r` attempts from
/// retry counter `r`.
proof fn lemma_attempts_linear(r: nat)
    requires
        r <= MAX_RETRIES - 1,
    ensures
        attempts_until_failed(r) == MAX_RETRIES - r,
    decreases MAX_RETRIES - r,
{
    if r < MAX_RETRIES - 1 {
        lemma_attempts_linear(r + 1);
    }
}

/// Retry bound law: an operation whose hardware always reports `Failed`
/// reaches the terminal `Failed` status after exactly `MAX_RETRIES`
/// attempts in all — the initial attempt and `MAX_RETRIES - 1` retries —
/// and never loops indefinitely.  By the contract of `resolve_attempt`,
/// each failed attempt below the budget yields `Retry` with the counter
/// incremented, and the attempt that exhausts the budget yields
/// `Complete(Failed)`.
pub proof fn lemma_retry_bound()
    ensures
        attempts_until_failed(0) == MAX_RETRIES,
{
    lemma_attempts_linear(0);
}

} // verus!

verus! {

/// There is an active operation targeting this unit.
pub open spec fn has_unit(s: Seq<OperationContext>, u: UnitId) -> bool {
    exists|i: int| 0 <= i < s.len() && s[i].unit == u
}

/// The first active operation targeting this unit, if any.
pub open spec fn first_with_unit(s: Seq<OperationContext>, u: UnitId) -> Option<OperationContext>
    decreases s.len(),
{
    if s.len() == 0 {
        None
    } else if s[0].unit == u {
        Some(s[0])
    } else {
        first_with_unit(s.drop_first(), u)
    }
}

/// The active set with every operation of this unit removed.
pub open spec fn without_unit(s: Seq<OperationContext>, u: UnitId) -> Seq<OperationContext> {
    s.filter(|o: OperationContext| o.unit != u)
}

/// Find the position of the first active operation targeting `unit`.
fn find_unit_index(ops: &Vec<OperationContext>, unit: UnitId) -> (r: Option<usize>)
    ensures
        match r {
            Some(i) => i < ops@.len() && ops@[i as int].unit == unit && first_with_unit(
                ops@,
                unit,
            ) == Some(ops@[i as int]),
            None => first_with_unit(ops@, unit) is None,
        },
{
    let ghost s = ops@;
    let mut i: usize = 0;
    proof {
        assert(s.skip(0) =~= s);
    }
    while i < ops.len()
        invariant
            i <= s.len(),
            s == ops@,
            first_with_unit(s, unit) == first_with_unit(s.skip(i as int), unit),
            forall|j: int| 0 <= j < i ==> s[j].unit != unit,
        decreases s.len() - i,
    {
        if ops[i].unit.0 == unit.0 {
            proof {
                assert(s.skip(i as int)[0] == s[i as int]);
                assert(s[i as int].unit.0 == unit.0);
                assert(s[i as int].unit == unit);
            }
            return Some(i);
        }
        proof {
            assert(s.skip(i as int).drop_first() =~= s.skip(i + 1));
            assert(s.skip(i as int)[0] == s[i as int]);
        }
        i = i + 1;
    }
    proof {
        assert(s.skip(s.len() as int) =~= Seq::<OperationContext>::empty());
    }
    None
}

/// Remove every active operation targeting `unit`.
fn retain_other_units(ops: &mut Vec<OperationContext>, unit: UnitId)
    ensures
        final(ops)@ =~= without_unit(old(ops)@, unit),
{
    let ghost s = old(ops)@;
    let mut out: Vec<OperationContext> = Vec::new();
    let mut i: usize = 0;
    proof {
        assert(s.take(0).filter(|o: OperationContext| o.unit != unit) =~= Seq::<
            OperationContext,
        >::empty());
    }
    while i < ops.len()
        invariant
            i <= s.len(),
            s == ops@,
            out@ =~= s.take(i as int).filter(|o: OperationContext| o.unit != unit),
        decreases s.len() - i,
    {
        proof {
            broadcast use vstd::seq::Seq::lemma_filter_push;

            assert(s.take(i + 1) =~= s.take(i as int).push(s[i as int]));
        }
        if ops[i].unit.0 != unit.0 {
            proof {
                assert(s[i as int].unit != unit);
            }
            out.push(ops[i]);
        } else {
            proof {
                assert(s[i as int].unit.0 == unit.0);
                assert(s[i as int].unit == unit);
            }
        }
        i = i + 1;
    }
    proof {
        assert(s.take(s.len() as int) =~= s);
    }
    *ops = out;
}

/// Removing the operations of one unit keeps every remaining context
/// well-formed.
proof fn lemma_without_unit_wf(s: Seq<OperationContext>, u: UnitId)
    requires
        forall|i: int| 0 <= i < s.len() ==> (#[trigger] s[i]).wf(),
    ensures
        forall|i: int|
            0 <= i < without_unit(s, u).len() ==> (#[trigger] without_unit(s, u)[i]).wf(),
    decreases s.len(),
{
    reveal(Seq::filter);
    if s.len() == 0 {
        assert(without_unit(s, u) =~= Seq::<OperationContext>::empty());
    } else {
        assert(forall|i: int| 0 <= i < s.drop_last().len() ==> (#[trigger] s.drop_last()[i]).wf());
        lemma_without_unit_wf(s.drop_last(), u);
        let f0 = without_unit(s.drop_last(), u);
        assert(s.last().wf());
        assert forall|i: int|
            0 <= i < without_unit(s, u).len() implies (#[trigger] without_unit(s, u)[i]).wf() by {
            if s.last().unit != u {
                assert(without_unit(s, u) == f0.push(s.last()));
                if i < f0.len() {
                    assert(without_unit(s, u)[i] == f0[i]);
                } else {
                    assert(without_unit(s, u)[i] == s.last());
                }
            } else {
                assert(without_unit(s, u) == f0);
            }
        }
    }
}

/// Appending a context of the removed unit does not change the remainder.
proof fn lemma_without_unit_push_same(s: Seq<OperationContext>, c: OperationContext)
    ensures
        without_unit(s.push(c), c.unit) =~= without_unit(s, c.unit),
{
    reveal(Seq::filter);
    let t = s.push(c);
    assert(t.drop_last() =~= s);
    assert(t.last() == c);
    assert(without_unit(t, c.unit) == without_unit(t.drop_last(), c.unit));
}

/// Contexts that are all well-formed stay so in an equal sequence.
proof fn lemma_all_wf_transfer(a: Seq<OperationContext>, b: Seq<OperationContext>)
    requires
        a == b,
        forall|i: int| 0 <= i < a.len() ==> (#[trigger] a[i]).wf(),
    ensures
        forall|i: int| 0 <= i < b.len() ==> (#[trigger] b[i]).wf(),
{
}

/// Main executor: drives operations over a hardware link, locking blocks in
/// the shared pool and tracking the set of active operations.
pub struct Executor<F: FpgaInterface> {
    fpga: F,
    memory: MemoryManager,
    active_operations: Vec<OperationContext>,
}

impl<F: FpgaInterface> Executor<F> {
    /// The memory pool owned by this executor.
    pub closed spec fn memory(&self) -> MemoryManager {
        self.memory
    }

    /// The link owned by this executor.
    pub closed spec fn fpga(&self) -> F {
        self.fpga
    }

    /// The set of active operations, in registration order.
    pub closed spec fn active(&self) -> Seq<OperationContext> {
        self.active_operations@
    }

    /// Well-formedness: a well-formed pool, and every active context valid.
    pub open spec fn wf(&self) -> bool {
        &&& self.memory().wf()
        &&& forall|i: int| 0 <= i < self.active().len() ==> (#[trigger] self.active()[i]).wf()
    }

    /// Create a new executor over a link and a memory pool.
    pub fn new(fpga: F, memory: MemoryManager) -> (r: Executor<F>)
        requires
            memory.wf(),
        ensures
            r.wf(),
            r.memory() == memory,
            r.fpga() == fpga,
            r.active() =~= Seq::<OperationContext>::empty(),
    {
        Executor { fpga, memory, active_operations: Vec::new() }
    }

    /// Initialize the underlying link.
    pub fn initialize(&mut self, config: &crate::link::FpgaConfig) -> (r: Result<(), AccelError>)
        requires
            old(self).wf(),
        ensures
            final(self).wf(),
            final(self).memory() == old(self).memory(),
            final(self).active() == old(self).active(),
            r is Ok ==> final(self).fpga().ready(),
    {
        let r = self.fpga.initialize(config);
        proof {
            lemma_all_wf_transfer(old(self).active(), self.active());
        }
        r
    }

    /// Current memory usage of the pool.
    pub fn memory_usage(&self) -> (r: MemoryUsage)
        requires
            self.wf(),
        ensures
            r.total_size == self.memory().total_size(),
            r.used_size == crate::memory::sum_sizes(self.memory().blocks()),
            r.block_size == self.memory().block_size(),
    {
        self.memory.usage()
    }

    /// Allocate a block from the pool, with the pool's exact contract.
    pub fn allocate_block(
        &mut self,
        size: usize,
        unit: UnitId,
        strategy: crate::memory::AllocationStrategy,
    ) -> (r: Result<BlockId, crate::memory::MemoryError>)
        requires
            old(self).wf(),
            old(self).memory().next_id() < u64::MAX,
        ensures
            final(self).wf(),
            final(self).active() == old(self).active(),
            (size != 0 && size as int % old(self).memory().block_size() == 0 && crate::memory::sum_sizes(
                old(self).memory().blocks(),
            ) / old(self).memory().block_size() + size as int / old(self).memory().block_size()
                <= old(self).memory().total_size() / old(self).memory().block_size()) ==> (r
                == Ok::<
                BlockId,
                crate::memory::MemoryError,
            >(BlockId(old(self).memory().next_id())) && final(self).memory().blocks()
                =~= old(self).memory().blocks().push(
                crate::memory::BlockEntry {
                    id: old(self).memory().next_id(),
                    status: BlockStatus::Allocated { unit },
                    size,
                },
            )),
            r is Err ==> final(self).memory() == old(self).memory(),
    {
        let r = self.memory.allocate(size, unit, strategy);
        proof {
            lemma_all_wf_transfer(old(self).active(), self.active());
        }
        r
    }

    /// Free a block in the pool, with the pool's exact contract.
    pub fn free_block(&mut self, block_id: BlockId) -> (r: Result<
        (),
        crate::memory::MemoryError,
    >)
        requires
            old(self).wf(),
        ensures
            final(self).wf(),
            final(self).active() == old(self).active(),
            (has_id(old(self).memory().blocks(), block_id.0) && !(entry_of(
                old(self).memory().blocks(),
                block_id.0,
            ).status is Locked)) ==> (r is Ok && final(self).memory().blocks()
                =~= crate::memory::remove_id(old(self).memory().blocks(), block_id.0)),
            r is Err ==> final(self).memory() == old(self).memory(),
    {
        let r = self.memory.free(block_id);
        proof {
            lemma_all_wf_transfer(old(self).active(), self.active());
        }
        r
    }

    /// Borrow the underlying link.
    pub fn fpga_ref(&self) -> (r: &F)
        ensures
            *r == self.fpga(),
    {
        &self.fpga
    }

    /// Get the status of one block in the pool, with the pool's exact
    /// contract.
    pub fn block_status(&self, block_id: BlockId) -> (r: Result<
        BlockStatus,
        crate::memory::MemoryError,
    >)
        requires
            self.wf(),
        ensures
            has_id(self.memory().blocks(), block_id.0) ==> r == Ok::<
                BlockStatus,
                crate::memory::MemoryError,
            >(entry_of(self.memory().blocks(), block_id.0).status),
            !has_id(self.memory().blocks(), block_id.0) ==> r == Err::<
                BlockStatus,
                crate::memory::MemoryError,
            >(crate::memory::MemoryError::BlockNotFound(block_id)),
    {
        self.memory.status(block_id)
    }

    /// Release the lock of a completed operation and deregister it.
    ///
    /// The lock, when the context owns a block, is released — restoring the
    /// allocated state with the owner recorded at lock time — and every
    /// active entry of the context's unit is removed.  The call fails, and
    /// changes nothing, only when the context names a block the pool does
    /// not hold.
    pub fn complete_operation(&mut self, context: &OperationContext) -> (r: Result<
        (),
        AccelError,
    >)
        requires
            old(self).wf(),
        ensures
            final(self).wf(),
            final(self).fpga() == old(self).fpga(),
            final(self).memory().next_id() == old(self).memory().next_id(),
            final(self).memory().total_size() == old(self).memory().total_size(),
            final(self).memory().block_size() == old(self).memory().block_size(),
            context.block is None ==> (r is Ok && final(self).memory() == old(self).memory()
                && final(self).active() =~= without_unit(old(self).active(), context.unit)),
            context.block matches Some(b) ==> {
                let blocks = old(self).memory().blocks();
                &&& !has_id(blocks, b.0) ==> (r == Err::<(), AccelError>(
                    AccelError::Memory(crate::memory::MemoryError::BlockNotFound(b)),
                ) && *final(self) == *old(self))
                &&& has_id(blocks, b.0) ==> (r is Ok && final(self).active() =~= without_unit(
                    old(self).active(),
                    context.unit,
                ) && if entry_of(blocks, b.0).status is Locked {
                    final(self).memory().blocks() =~= set_status(
                        blocks,
                        b.0,
                        BlockStatus::Allocated { unit: entry_of(blocks, b.0).status->Locked_unit },
                    )
                } else {
                    final(self).memory() == old(self).memory()
                })
            },
    {
        if let Some(block_id) = context.block {
            match self.memory.unlock(block_id) {
                Ok(()) => {},
                Err(e) => {
                    proof {
                        lemma_all_wf_transfer(old(self).active(), self.active());
                    }
                    return Err(AccelError::Memory(e));
                },
            }
        }
        retain_other_units(&mut self.active_operations, context.unit);
        proof {
            lemma_without_unit_wf(old(self).active(), context.unit);
            lemma_all_wf_transfer(without_unit(old(self).active(), context.unit), self.active());
        }
        Ok(())
    }

    /// Prepare one operation: acquire a writing lock on the context's block,
    /// when it owns one, and register the context in the active set.  Memory
    /// pool errors propagate verbatim and leave everything unchanged.
    pub fn begin_operation(&mut self, context: OperationContext) -> (r: Result<(), AccelError>)
        requires
            old(self).wf(),
            context.wf(),
        ensures
            final(self).wf(),
            final(self).fpga() == old(self).fpga(),
            final(self).memory().next_id() == old(self).memory().next_id(),
            final(self).memory().total_size() == old(self).memory().total_size(),
            final(self).memory().block_size() == old(self).memory().block_size(),
            context.block is None ==> (r is Ok && final(self).memory() == old(self).memory()
                && final(self).active() =~= old(self).active().push(context)),
            context.block matches Some(b) ==> {
                let blocks = old(self).memory().blocks();
                &&& !has_id(blocks, b.0) ==> (r == Err::<(), AccelError>(
                    AccelError::Memory(crate::memory::MemoryError::BlockNotFound(b)),
                ) && *final(self) == *old(self))
                &&& has_id(blocks, b.0) && entry_of(blocks, b.0).status is Locked ==> (r == Err::<
                    (),
                    AccelError,
                >(AccelError::Memory(crate::memory::MemoryError::BlockLocked(b))) && *final(self)
                    == *old(self))
                &&& has_id(blocks, b.0) && !(entry_of(blocks, b.0).status is Locked) ==> (r is Ok
                    && final(self).memory().blocks() =~= set_status(
                    blocks,
                    b.0,
                    BlockStatus::Locked { unit: context.unit, reason: LockReason::Writing },
                ) && final(self).active() =~= old(self).active().push(context))
            },
    {
        if let Some(block_id) = context.block {
            match self.memory.lock(block_id, context.unit, LockReason::Writing) {
                Ok(()) => {},
                Err(e) => {
                    proof {
                        lemma_all_wf_transfer(old(self).active(), self.active());
                    }
                    return Err(AccelError::Memory(e));
                },
            }
        }
        self.active_operations.push(context);
        proof {
            assert forall|i: int| 0 <= i < self.active().len() implies (#[trigger] self.active()[i]).wf() by {
                if i < old(self).active().len() {
                    assert(self.active()[i] == old(self).active()[i]);
                } else {
                    assert(self.active()[i] == context);
                }
            }
        }
        Ok(())
    }

    /// Send one execute command for the context over the link.  The memory
    /// pool and the active set are untouched; a link that is not ready
    /// fails.
    pub fn send_attempt(&mut self, context: &OperationContext) -> (r: Result<(), AccelError>)
        requires
            old(self).wf(),
            context.wf(),
        ensures
            final(self).wf(),
            final(self).memory() == old(self).memory(),
            final(self).active() == old(self).active(),
            !old(self).fpga().ready() ==> r is Err,
            final(self).fpga().ready() == old(self).fpga().ready(),
    {
        let r = self.fpga.send_command(
            Command::Execute { unit_id: context.unit, operation: context.operation },
        );
        proof {
            lemma_all_wf_transfer(old(self).active(), self.active());
        }
        r
    }

    /// Wait for the next response on the link.  The memory pool and the
    /// active set are untouched; whatever arrives is well-formed, and a link
    /// that is not ready fails.
    pub fn receive_attempt(&mut self) -> (r: Result<Response, AccelError>)
        requires
            old(self).wf(),
        ensures
            final(self).wf(),
            final(self).memory() == old(self).memory(),
            final(self).active() == old(self).active(),
            !old(self).fpga().ready() ==> r is Err,
            final(self).fpga().ready() == old(self).fpga().ready(),
            r matches Ok(resp) ==> crate::protocol::wf_response(resp),
    {
        let r = self.fpga.receive_response();
        proof {
            lemma_all_wf_transfer(old(self).active(), self.active());
        }
        r
    }
}

} // verus!

verus! {

/// Operation execution capability, implemented by the executor and by test
/// doubles.
pub trait OperationExecutor: Sized {
    /// Invariant an implementation maintains across calls.
    spec fn inv(&self) -> bool;

    /// Execute one operation to a terminal status.
    fn execute(&mut self, context: OperationContext) -> (r: Result<OperationStatus, AccelError>)
        requires
            old(self).inv(),
            context.wf(),
        ensures
            final(self).inv(),
    ;

    /// Cancel the active operation of one unit, best-effort.
    fn cancel(&mut self, unit: UnitId) -> (r: Result<(), AccelError>)
        requires
            old(self).inv(),
            unit.wf(),
        ensures
            final(self).inv(),
    ;
}

impl<F: FpgaInterface> OperationExecutor for Executor<F> {
    open spec fn inv(&self) -> bool {
        self.wf()
    }

    /// Execute one operation: lock its block, drive request/response cycles
    /// with bounded retries, release the lock on a terminal status.
    ///
    /// Memory pool errors from the lock step propagate verbatim and leave
    /// everything unchanged.  On a terminal status the context's block ends
    /// allocated to the context's unit and the context is deregistered; on a
    /// link error, a timeout or a protocol-level error the lock is retained
    /// — `cancel` releases it — and the context stays registered.
    fn execute(&mut self, context: OperationContext) -> (r: Result<OperationStatus, AccelError>)
        ensures
            final(self).memory().next_id() == old(self).memory().next_id(),
            final(self).memory().total_size() == old(self).memory().total_size(),
            final(self).memory().block_size() == old(self).memory().block_size(),
            context.block is None ==> final(self).memory() == old(self).memory(),
            context.block is None && r is Ok ==> final(self).active() =~= without_unit(
                old(self).active(),
                context.unit,
            ),
            context.block is None && r is Err ==> final(self).active() =~= old(
                self,
            ).active().push(context),
            context.block is Some ==> {
                let b = context.block->0;
                let blocks = old(self).memory().blocks();
                &&& !has_id(blocks, b.0) ==> (r == Err::<OperationStatus, AccelError>(
                    AccelError::Memory(crate::memory::MemoryError::BlockNotFound(b)),
                ) && final(self).memory() == old(self).memory() && final(self).active() == old(
                    self,
                ).active())
                &&& has_id(blocks, b.0) && entry_of(blocks, b.0).status is Locked ==> (r == Err::<
                    OperationStatus,
                    AccelError,
                >(AccelError::Memory(crate::memory::MemoryError::BlockLocked(b))) && final(self).memory() == old(self).memory() && final(self).active() == old(self).active())
                &&& has_id(blocks, b.0) && !(entry_of(blocks, b.0).status is Locked) && r is Ok
                    ==> (final(self).memory().blocks() =~= set_status(
                    blocks,
                    b.0,
                    BlockStatus::Allocated { unit: context.unit },
                ) && final(self).active() =~= without_unit(old(self).active(), context.unit))
                &&& has_id(blocks, b.0) && !(entry_of(blocks, b.0).status is Locked) && r is Err
                    ==> (final(self).memory().blocks() =~= set_status(
                    blocks,
                    b.0,
                    BlockStatus::Locked { unit: context.unit, reason: LockReason::Writing },
                ) && final(self).active() =~= old(self).active().push(context))
            },
    {
        match self.begin_operation(context) {
            Ok(()) => {},
            Err(e) => {
                return Err(e);
            },
        }
        proof {
            if context.block is Some {
                let b = context.block->0;
                crate::memory::lemma_set_status_again(
                    old(self).memory().blocks(),
                    b.0,
                    BlockStatus::Locked { unit: context.unit, reason: LockReason::Writing },
                    BlockStatus::Allocated { unit: context.unit },
                );
            }
        }
        let ghost mem_prepared = self.memory;
        let ghost active_prepared = self.active();
        let mut ctx = context;
        loop
            invariant
                self.wf(),
                self.memory == mem_prepared,
                self.active() == active_prepared,
                active_prepared =~= old(self).active().push(context),
                ctx.wf(),
                ctx.unit == context.unit,
                ctx.block == context.block,
                ctx.operation == context.operation,
                context.block is None ==> self.memory == old(self).memory(),
                context.block matches Some(b) ==> {
                    &&& has_id(old(self).memory().blocks(), b.0)
                    &&& !(entry_of(old(self).memory().blocks(), b.0).status is Locked)
                    &&& self.memory().blocks() =~= set_status(
                        old(self).memory().blocks(),
                        b.0,
                        BlockStatus::Locked { unit: context.unit, reason: LockReason::Writing },
                    )
                    &&& has_id(self.memory().blocks(), b.0)
                    &&& entry_of(self.memory().blocks(), b.0).status == (BlockStatus::Locked {
                        unit: context.unit,
                        reason: LockReason::Writing,
                    })
                    &&& set_status(
                        self.memory().blocks(),
                        b.0,
                        BlockStatus::Allocated { unit: context.unit },
                    ) =~= set_status(
                        old(self).memory().blocks(),
                        b.0,
                        BlockStatus::Allocated { unit: context.unit },
                    )
                },
                self.memory().next_id() == old(self).memory().next_id(),
                self.memory().total_size() == old(self).memory().total_size(),
                self.memory().block_size() == old(self).memory().block_size(),
            decreases
                    if ctx.retries <= MAX_RETRIES {
                        (MAX_RETRIES - ctx.retries) as int
                    } else {
                        0
                    },
        {
            match self.send_attempt(&ctx) {
                Ok(()) => {},
                Err(e) => {
                    return Err(e);
                },
            }
            let response = match self.receive_attempt() {
                Ok(resp) => resp,
                Err(e) => {
                    return Err(e);
                },
            };
            match resolve_attempt(ctx, AttemptOutcome::Response(response)) {
                Resolution::Complete(status) => {
                    proof {
                        lemma_without_unit_push_same(old(self).active(), context);
                    }
                    match self.complete_operation(&ctx) {
                        Ok(()) => {},
                        Err(e) => {
                            return Err(e);
                        },
                    }
                    return Ok(status);
                },
                Resolution::Retry(next) => {
                    ctx = next;
                },
                Resolution::Fault(e) => {
                    return Err(e);
                },
            }
        }
    }

    /// Cancel the active operation of one unit: send a reset command,
    /// release the memory lock the first active operation of the unit
    /// holds, and deregister every context of the unit — regardless of
    /// whether an in-flight run has observed the cancellation.
    fn cancel(&mut self, unit: UnitId) -> (r: Result<(), AccelError>)
        ensures
            final(self).memory().next_id() == old(self).memory().next_id(),
            final(self).memory().total_size() == old(self).memory().total_size(),
            final(self).memory().block_size() == old(self).memory().block_size(),
            r is Err ==> final(self).memory() == old(self).memory() && final(self).active() == old(
                self,
            ).active(),
            r is Ok ==> final(self).active() =~= without_unit(old(self).active(), unit),
            r is Ok ==> {
                let first = first_with_unit(old(self).active(), unit);
                if first is Some && first->0.block is Some {
                    let b = first->0.block->0;
                    if entry_of(old(self).memory().blocks(), b.0).status is Locked {
                        final(self).memory().blocks() =~= set_status(
                            old(self).memory().blocks(),
                            b.0,
                            BlockStatus::Allocated {
                                unit: entry_of(
                                    old(self).memory().blocks(),
                                    b.0,
                                ).status->Locked_unit,
                            },
                        )
                    } else {
                        final(self).memory() == old(self).memory()
                    }
                } else {
                    final(self).memory() == old(self).memory()
                }
            },
    {
        match self.fpga.send_command(Command::Reset { unit_id: unit }) {
            Ok(()) => {},
            Err(e) => {
                proof {
                    lemma_all_wf_transfer(old(self).active(), self.active());
                }
                return Err(e);
            },
        }
        if let Some(i) = find_unit_index(&self.active_operations, unit) {
            let op = self.active_operations[i];
            if let Some(b) = op.block {
                match self.memory.unlock(b) {
                    Ok(()) => {},
                    Err(e) => {
                        proof {
                            lemma_all_wf_transfer(old(self).active(), self.active());
                        }
                        return Err(AccelError::Memory(e));
                    },
                }
            }
        }
        retain_other_units(&mut self.active_operations, unit);
        proof {
            lemma_without_unit_wf(old(self).active(), unit);
            lemma_all_wf_transfer(without_unit(old(self).active(), unit), self.active());
        }
        Ok(())
    }
}

} // verus!
