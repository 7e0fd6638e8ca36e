//! Locked block memory pool.
//!
//! The manager owns a fixed-capacity pool of fixed-granularity blocks.  Each
//! allocation is recorded as one entry holding its identifier, its state and
//! its size; the entry table is the single source of truth, and the capacity
//! invariant — allocated sizes never exceed the pool — is part of the type's
//! well-formedness.

use vstd::prelude::*;

use crate::types::UnitId;

verus! {

/// Opaque handle to one allocated memory block.
#[derive(Debug, Clone, Copy, PartialEq, Eq, Structural, Hash)]
pub struct BlockId(pub u64);

impl BlockId {
    /// Create a new block id from its raw value.
    pub fn new(id: u64) -> (r: BlockId)
        ensures
            r == BlockId(id),
    {
        BlockId(id)
    }

    /// Get the raw block id value.
    pub fn raw(&self) -> (r: u64)
        ensures
            r == self.0,
    {
        self.0
    }
}

/// Memory allocation strategy.
#[derive(Debug, Clone, Copy, PartialEq, Eq, Structural)]
pub enum AllocationStrategy {
    /// Allocate contiguous blocks.
    Contiguous,
    /// Allow fragmented allocation.
    Fragmented,
}

/// Why a block is locked.  Recorded for diagnostics only; the lock reason
/// does not change any transition rule.
#[derive(Debug, Clone, Copy, PartialEq, Eq, Structural)]
pub enum LockReason {
    /// Block is being written.
    Writing,
    /// Block is being read.
    Reading,
    /// Block is being transferred.
    Transferring,
}

/// State of one memory block.
#[derive(Debug, Clone, Copy, PartialEq, Eq, Structural)]
pub enum BlockStatus {
    /// Block is free.
    Free,
    /// Block is allocated to a unit.
    Allocated { unit: UnitId },
    /// Block is locked by a unit.
    Locked { unit: UnitId, reason: LockReason },
}

/// Memory-specific errors.
#[derive(Debug, Clone, Copy, PartialEq, Eq, Structural)]
pub enum MemoryError {
    /// The pool cannot satisfy the request.
    InsufficientMemory { requested: usize, available: usize },
    /// No live block carries this id.
    BlockNotFound(BlockId),
    /// The block is already allocated.
    BlockAlreadyAllocated(BlockId),
    /// The block is locked.
    BlockLocked(BlockId),
    /// The size is zero or not a multiple of the block granularity.
    InvalidBlockSize(usize),
}

/// One live allocation: its id, its state, and its size in bytes.
#[derive(Debug, Clone, Copy, PartialEq, Eq, Structural)]
pub struct BlockEntry {
    /// Identifier handed to the caller.
    pub id: u64,
    /// Current state; never `Free` while the entry is live.
    pub status: BlockStatus,
    /// Size of the allocation in bytes.
    pub size: usize,
}

/// Sum of the sizes of all live allocations.
pub open spec fn sum_sizes(s: Seq<BlockEntry>) -> int
    decreases s.len(),
{
    if s.len() == 0 {
        0
    } else {
        sum_sizes(s.drop_last()) + s.last().size
    }
}

/// Sum of the sizes of the locked allocations.
pub open spec fn locked_sizes(s: Seq<BlockEntry>) -> int
    decreases s.len(),
{
    if s.len() == 0 {
        0
    } else {
        locked_sizes(s.drop_last()) + if s.last().status is Locked {
            s.last().size as int
        } else {
            0
        }
    }
}

/// Some live entry carries this id.
pub open spec fn has_id(s: Seq<BlockEntry>, id: u64) -> bool {
    exists|i: int| 0 <= i < s.len() && s[i].id == id
}

/// Index of the entry carrying this id (meaningful only when `has_id` holds
/// and ids are unique).
pub open spec fn idx_of(s: Seq<BlockEntry>, id: u64) -> int {
    choose|i: int| 0 <= i < s.len() && s[i].id == id
}

/// The entry carrying this id.
pub open spec fn entry_of(s: Seq<BlockEntry>, id: u64) -> BlockEntry {
    s[idx_of(s, id)]
}

/// The table with the entry of this id removed (the table itself when no
/// entry carries the id).
pub open spec fn remove_id(s: Seq<BlockEntry>, id: u64) -> Seq<BlockEntry> {
    if has_id(s, id) {
        s.remove(idx_of(s, id))
    } else {
        s
    }
}

/// The table with the status of this id's entry replaced.
pub open spec fn set_status(s: Seq<BlockEntry>, id: u64, st: BlockStatus) -> Seq<BlockEntry> {
    s.update(idx_of(s, id), BlockEntry { id, status: st, size: entry_of(s, id).size })
}

/// No two live entries share an id.
pub open spec fn unique_ids(s: Seq<BlockEntry>) -> bool {
    forall|i: int, j: int| 0 <= i < j < s.len() ==> s[i].id != s[j].id
}

/// Memory usage statistics, always derived from the live entry table.
#[derive(Debug, Clone, Copy, PartialEq, Eq, Structural)]
pub struct MemoryUsage {
    /// Total memory size in bytes.
    pub total_size: usize,
    /// Used memory size in bytes.
    pub used_size: usize,
    /// Block size in bytes.
    pub block_size: usize,
    /// Total number of blocks.
    pub total_blocks: usize,
    /// Number of used blocks.
    pub used_blocks: usize,
    /// Number of locked blocks.
    pub locked_blocks: usize,
}

/// Manager of the fixed-capacity block pool.
pub struct MemoryManager {
    total_size: usize,
    block_size: usize,
    next_block_id: u64,
    entries: Vec<BlockEntry>,
}

impl MemoryManager {
    /// Total pool size in bytes.
    pub closed spec fn total_size(self) -> int {
        self.total_size as int
    }

    /// Block granularity in bytes.
    pub closed spec fn block_size(self) -> int {
        self.block_size as int
    }

    /// Next identifier the monotonic counter will mint.
    pub closed spec fn next_id(self) -> u64 {
        self.next_block_id
    }

    /// The live entry table.
    pub closed spec fn blocks(self) -> Seq<BlockEntry> {
        self.entries@
    }

    /// Well-formedness: valid granularity, unique ids below the counter,
    /// no `Free` entry, sizes positive multiples of the granularity, and
    /// the capacity invariant.
    pub open spec fn wf(self) -> bool {
        &&& self.block_size() > 0
        &&& self.block_size() % 16 == 0
        &&& unique_ids(self.blocks())
        &&& forall|i: int|
            0 <= i < self.blocks().len() ==> (#[trigger] self.blocks()[i]).id < self.next_id()
        &&& forall|i: int| 0 <= i < self.blocks().len() ==> !((#[trigger] self.blocks()[i]).status is Free)
        &&& forall|i: int|
            0 <= i < self.blocks().len() ==> (#[trigger] self.blocks()[i]).size > 0
                && self.blocks()[i].size as int % self.block_size() == 0
        &&& sum_sizes(self.blocks()) <= self.total_size()
    }

    /// Create a new memory manager.
    pub fn new(total_size: usize, block_size: usize) -> (r: Result<MemoryManager, MemoryError>)
        ensures
            (block_size == 0 || block_size % 16 != 0) ==> r == Err::<MemoryManager, MemoryError>(
                MemoryError::InvalidBlockSize(block_size),
            ),
            (block_size != 0 && block_size % 16 == 0) ==> (r matches Ok(m) && m.wf()
                && m.blocks() =~= Seq::<BlockEntry>::empty() && m.total_size() == total_size
                && m.block_size() == block_size && m.next_id() == 0),
    {
        if block_size == 0 || block_size % 16 != 0 {
            return Err(MemoryError::InvalidBlockSize(block_size));
        }
        Ok(MemoryManager { total_size, block_size, next_block_id: 0, entries: Vec::new() })
    }

    /// Find the position of the entry carrying `id`.
    fn find_index(&self, id: u64) -> (r: Option<usize>)
        ensures
            match r {
                Some(i) => i < self.blocks().len() && self.blocks()[i as int].id == id && has_id(
                    self.blocks(),
                    id,
                ) && (unique_ids(self.blocks()) ==> idx_of(self.blocks(), id) == i),
                None => !has_id(self.blocks(), id),
            },
    {
        let ghost s = self.blocks();
        let mut i: usize = 0;
        while i < self.entries.len()
            invariant
                i <= s.len(),
                s == self.blocks(),
                forall|j: int| 0 <= j < i ==> s[j].id != id,
            decreases s.len() - i,
        {
            if self.entries[i].id == id {
                proof {
                    assert(has_id(s, id));
                    if unique_ids(s) {
                        let k = idx_of(s, id);
                        assert(0 <= k < s.len() && s[k].id == id);
                        assert(k == i);
                    }
                }
                return Some(i);
            }
            i = i + 1;
        }
        assert(forall|j: int| 0 <= j < s.len() ==> s[j].id != id);
        None
    }

    /// Bytes currently allocated.
    fn used_bytes(&self) -> (r: usize)
        requires
            self.wf(),
        ensures
            r == sum_sizes(self.blocks()),
    {
        let ghost s = self.blocks();
        let mut total: usize = 0;
        let mut i: usize = 0;
        proof {
            lemma_sum_sizes_prefix_bound(s, self.total_size());
        }
        while i < self.entries.len()
            invariant
                i <= s.len(),
                s == self.blocks(),
                self.wf(),
                total == sum_sizes(s.take(i as int)),
                total <= self.total_size(),
            decreases s.len() - i,
        {
            proof {
                assert(s.take(i + 1).drop_last() =~= s.take(i as int));
                assert(s.take(i + 1).last() == s[i as int]);
                lemma_sum_sizes_prefix_bound(s, self.total_size());
                assert(sum_sizes(s.take(i + 1)) <= self.total_size());
            }
            total = total + self.entries[i].size;
            i = i + 1;
        }
        proof {
            assert(s.take(s.len() as int) =~= s);
        }
        total
    }

    /// Allocate a memory block of `size` bytes for `unit`.
    ///
    /// Fails with `InvalidBlockSize` when `size` is zero or not a multiple of
    /// the block granularity, and with `InsufficientMemory` when the pool
    /// cannot satisfy the request; a failed allocation leaves the pool
    /// unchanged.
    pub fn allocate(
        &mut self,
        size: usize,
        unit: UnitId,
        strategy: AllocationStrategy,
    ) -> (r: Result<BlockId, MemoryError>)
        requires
            old(self).wf(),
            old(self).next_id() < u64::MAX,
        ensures
            final(self).wf(),
            final(self).total_size() == old(self).total_size(),
            final(self).block_size() == old(self).block_size(),
            (size == 0 || size as int % old(self).block_size() != 0) ==> (r == Err::<
                BlockId,
                MemoryError,
            >(MemoryError::InvalidBlockSize(size)) && *final(self) == *old(self)),
            (size != 0 && size as int % old(self).block_size() == 0 && sum_sizes(old(self).blocks())
                / old(self).block_size() + size as int / old(self).block_size() > old(
                self,
            ).total_size() / old(self).block_size()) ==> (r == Err::<BlockId, MemoryError>(
                MemoryError::InsufficientMemory {
                    requested: size,
                    available: ((old(self).total_size() / old(self).block_size() - sum_sizes(
                        old(self).blocks(),
                    ) / old(self).block_size()) * old(self).block_size()) as usize,
                },
            ) && *final(self) == *old(self)),
            (size != 0 && size as int % old(self).block_size() == 0 && sum_sizes(old(self).blocks())
                / old(self).block_size() + size as int / old(self).block_size() <= old(
                self,
            ).total_size() / old(self).block_size()) ==> (r == Ok::<BlockId, MemoryError>(
                BlockId(old(self).next_id()),
            ) && !has_id(old(self).blocks(), old(self).next_id()) && final(self).blocks()
                =~= old(self).blocks().push(
                BlockEntry {
                    id: old(self).next_id(),
                    status: BlockStatus::Allocated { unit },
                    size,
                },
            ) && final(self).next_id() == old(self).next_id() + 1),
    {
        let _ = strategy;
        if size == 0 || size % self.block_size != 0 {
            return Err(MemoryError::InvalidBlockSize(size));
        }
        let used = self.used_bytes();
        let max_blocks = self.total_size / self.block_size;
        let used_blocks = used / self.block_size;
        let num_blocks = size / self.block_size;
        proof {
            vstd::arithmetic::div_mod::lemma_div_is_ordered(
                sum_sizes(self.blocks()),
                self.total_size(),
                self.block_size(),
            );
            vstd::arithmetic::div_mod::lemma_fundamental_div_mod(
                self.total_size(),
                self.block_size(),
            );
            vstd::arithmetic::mul::lemma_mul_inequality(
                self.total_size() / self.block_size() - sum_sizes(self.blocks())
                    / self.block_size(),
                self.total_size() / self.block_size(),
                self.block_size(),
            );
        }
        if num_blocks > max_blocks - used_blocks {
            let available = (max_blocks - used_blocks) * self.block_size;
            return Err(MemoryError::InsufficientMemory { requested: size, available });
        }
        let id = self.next_block_id;
        let entry = BlockEntry { id, status: BlockStatus::Allocated { unit }, size };
        proof {
            let s = self.blocks();
            let b = self.block_size();
            assert forall|i: int| 0 <= i < s.len() implies s[i].id != id by {
                assert(s[i].id < self.next_id());
            }
            assert(s.push(entry).drop_last() =~= s);
            assert(sum_sizes(s.push(entry)) == sum_sizes(s) + size);
            lemma_sum_sizes_mod(s, b);
            vstd::arithmetic::div_mod::lemma_fundamental_div_mod(sum_sizes(s), b);
            vstd::arithmetic::div_mod::lemma_fundamental_div_mod(size as int, b);
            assert(sum_sizes(s) + size == (sum_sizes(s) / b + size as int / b) * b) by (
            nonlinear_arith)
                requires
                    sum_sizes(s) == b * (sum_sizes(s) / b),
                    size as int == b * (size as int / b),
            ;
            vstd::arithmetic::mul::lemma_mul_inequality(
                sum_sizes(s) / b + size as int / b,
                self.total_size() / b,
                b,
            );
        }
        self.entries.push(entry);
        self.next_block_id = self.next_block_id + 1;
        Ok(BlockId(id))
    }

    /// Free a memory block.
    ///
    /// Fails with `BlockNotFound` for an unknown id and with `BlockLocked`
    /// for a locked block, which must be unlocked first.
    pub fn free(&mut self, block_id: BlockId) -> (r: Result<(), MemoryError>)
        requires
            old(self).wf(),
        ensures
            final(self).wf(),
            final(self).total_size() == old(self).total_size(),
            final(self).block_size() == old(self).block_size(),
            final(self).next_id() == old(self).next_id(),
            !has_id(old(self).blocks(), block_id.0) ==> (r == Err::<(), MemoryError>(
                MemoryError::BlockNotFound(block_id),
            ) && *final(self) == *old(self)),
            (has_id(old(self).blocks(), block_id.0) && entry_of(old(self).blocks(), block_id.0).status
                is Locked) ==> (r == Err::<(), MemoryError>(MemoryError::BlockLocked(block_id))
                && *final(self) == *old(self)),
            (has_id(old(self).blocks(), block_id.0) && !(entry_of(old(self).blocks(), block_id.0).status
                is Locked)) ==> (r == Ok::<(), MemoryError>(()) && final(self).blocks()
                =~= remove_id(old(self).blocks(), block_id.0)),
    {
        let ghost s = self.blocks();
        match self.find_index(block_id.0) {
            None => Err(MemoryError::BlockNotFound(block_id)),
            Some(i) => {
                match self.entries[i].status {
                    BlockStatus::Locked { .. } => Err(MemoryError::BlockLocked(block_id)),
                    _ => {
                        proof {
                            lemma_sum_sizes_remove(s, i as int);
                            lemma_unique_remove(s, i as int);
                        }
                        self.entries.remove(i);
                        Ok(())
                    },
                }
            },
        }
    }

    /// Lock a memory block for `unit`.
    ///
    /// Fails with `BlockNotFound` for an unknown id and with `BlockLocked`
    /// for a block that is already locked; locking is not reentrant.
    pub fn lock(&mut self, block_id: BlockId, unit: UnitId, reason: LockReason) -> (r: Result<
        (),
        MemoryError,
    >)
        requires
            old(self).wf(),
        ensures
            final(self).wf(),
            final(self).total_size() == old(self).total_size(),
            final(self).block_size() == old(self).block_size(),
            final(self).next_id() == old(self).next_id(),
            !has_id(old(self).blocks(), block_id.0) ==> (r == Err::<(), MemoryError>(
                MemoryError::BlockNotFound(block_id),
            ) && *final(self) == *old(self)),
            (has_id(old(self).blocks(), block_id.0) && entry_of(old(self).blocks(), block_id.0).status
                is Locked) ==> (r == Err::<(), MemoryError>(MemoryError::BlockLocked(block_id))
                && *final(self) == *old(self)),
            (has_id(old(self).blocks(), block_id.0) && !(entry_of(old(self).blocks(), block_id.0).status
                is Locked)) ==> (r == Ok::<(), MemoryError>(()) && final(self).blocks()
                =~= set_status(
                old(self).blocks(),
                block_id.0,
                BlockStatus::Locked { unit, reason },
            )),
    {
        let ghost s = self.blocks();
        match self.find_index(block_id.0) {
            None => Err(MemoryError::BlockNotFound(block_id)),
            Some(i) => {
                match self.entries[i].status {
                    BlockStatus::Locked { .. } => Err(MemoryError::BlockLocked(block_id)),
                    _ => {
                        let size = self.entries[i].size;
                        let new_entry = BlockEntry {
                            id: block_id.0,
                            status: BlockStatus::Locked { unit, reason },
                            size,
                        };
                        proof {
                            lemma_sum_sizes_update(s, i as int, new_entry);
                            lemma_unique_update_same_id(s, i as int, new_entry);
                        }
                        self.entries.set(i, new_entry);
                        Ok(())
                    },
                }
            },
        }
    }

    /// Unlock a memory block, restoring the `Allocated` state and preserving
    /// the owner recorded at lock time.  Unlocking a non-locked block is a
    /// no-op success.
    pub fn unlock(&mut self, block_id: BlockId) -> (r: Result<(), MemoryError>)
        requires
            old(self).wf(),
        ensures
            final(self).wf(),
            final(self).total_size() == old(self).total_size(),
            final(self).block_size() == old(self).block_size(),
            final(self).next_id() == old(self).next_id(),
            !has_id(old(self).blocks(), block_id.0) ==> (r == Err::<(), MemoryError>(
                MemoryError::BlockNotFound(block_id),
            ) && *final(self) == *old(self)),
            (has_id(old(self).blocks(), block_id.0) && entry_of(old(self).blocks(), block_id.0).status
                matches BlockStatus::Locked { unit, .. }) ==> (r == Ok::<(), MemoryError>(())
                && final(self).blocks() =~= set_status(
                old(self).blocks(),
                block_id.0,
                BlockStatus::Allocated {
                    unit: entry_of(old(self).blocks(), block_id.0).status->Locked_unit,
                },
            )),
            (has_id(old(self).blocks(), block_id.0) && !(entry_of(old(self).blocks(), block_id.0).status
                is Locked)) ==> (r == Ok::<(), MemoryError>(()) && *final(self) == *old(self)),
    {
        let ghost s = self.blocks();
        match self.find_index(block_id.0) {
            None => Err(MemoryError::BlockNotFound(block_id)),
            Some(i) => {
                match self.entries[i].status {
                    BlockStatus::Locked { unit, .. } => {
                        let size = self.entries[i].size;
                        let new_entry = BlockEntry {
                            id: block_id.0,
                            status: BlockStatus::Allocated { unit },
                            size,
                        };
                        proof {
                            lemma_sum_sizes_update(s, i as int, new_entry);
                            lemma_unique_update_same_id(s, i as int, new_entry);
                        }
                        self.entries.set(i, new_entry);
                        Ok(())
                    },
                    _ => Ok(()),
                }
            },
        }
    }

    /// Get the status of one block.
    pub fn status(&self, block_id: BlockId) -> (r: Result<BlockStatus, MemoryError>)
        requires
            self.wf(),
        ensures
            has_id(self.blocks(), block_id.0) ==> r == Ok::<BlockStatus, MemoryError>(
                entry_of(self.blocks(), block_id.0).status,
            ),
            !has_id(self.blocks(), block_id.0) ==> r == Err::<BlockStatus, MemoryError>(
                MemoryError::BlockNotFound(block_id),
            ),
    {
        match self.find_index(block_id.0) {
            None => Err(MemoryError::BlockNotFound(block_id)),
            Some(i) => Ok(self.entries[i].status),
        }
    }

    /// Get memory usage statistics, always consistent with the live entry
    /// table.
    pub fn usage(&self) -> (r: MemoryUsage)
        requires
            self.wf(),
        ensures
            r.total_size == self.total_size(),
            r.used_size == sum_sizes(self.blocks()),
            r.block_size == self.block_size(),
            r.total_blocks == self.total_size() / self.block_size(),
            r.used_blocks == sum_sizes(self.blocks()) / self.block_size(),
            r.locked_blocks == locked_sizes(self.blocks()) / self.block_size(),
    {
        let used = self.used_bytes();
        let locked = self.locked_bytes();
        MemoryUsage {
            total_size: self.total_size,
            used_size: used,
            block_size: self.block_size,
            total_blocks: self.total_size / self.block_size,
            used_blocks: used / self.block_size,
            locked_blocks: locked / self.block_size,
        }
    }

    /// Bytes currently locked.
    fn locked_bytes(&self) -> (r: usize)
        requires
            self.wf(),
        ensures
            r == locked_sizes(self.blocks()),
    {
        let ghost s = self.blocks();
        let mut total: usize = 0;
        let mut i: usize = 0;
        while i < self.entries.len()
            invariant
                i <= s.len(),
                s == self.blocks(),
                self.wf(),
                total == locked_sizes(s.take(i as int)),
                total <= sum_sizes(s.take(i as int)),
            decreases s.len() - i,
        {
            proof {
                assert(s.take(i + 1).drop_last() =~= s.take(i as int));
                assert(s.take(i + 1).last() == s[i as int]);
                lemma_sum_sizes_prefix_bound(s, self.total_size());
            }
            match self.entries[i].status {
                BlockStatus::Locked { .. } => {
                    total = total + self.entries[i].size;
                },
                _ => {},
            }
            i = i + 1;
        }
        proof {
            assert(s.take(s.len() as int) =~= s);
        }
        total
    }
}

/// Every prefix sum is bounded by the bound on the whole table, and sums are
/// never negative.
proof fn lemma_sum_sizes_prefix_bound(s: Seq<BlockEntry>, bound: int)
    requires
        sum_sizes(s) <= bound,
    ensures
        forall|i: int| 0 <= i <= s.len() ==> sum_sizes(#[trigger] s.take(i)) <= bound,
        forall|i: int| 0 <= i <= s.len() ==> sum_sizes(#[trigger] s.take(i)) >= 0,
    decreases s.len(),
{
    lemma_sum_sizes_nonneg(s);
    if s.len() > 0 {
        assert(s.drop_last() =~= s.take(s.len() - 1));
        lemma_sum_sizes_prefix_bound(s.drop_last(), bound - s.last().size);
        assert forall|i: int| 0 <= i <= s.len() implies sum_sizes(#[trigger] s.take(i)) <= bound by {
            if i < s.len() {
                assert(s.take(i) =~= s.drop_last().take(i));
            } else {
                assert(s.take(i) =~= s);
            }
        }
        assert forall|i: int| 0 <= i <= s.len() implies sum_sizes(#[trigger] s.take(i)) >= 0 by {
            lemma_sum_sizes_nonneg(s.take(i));
        }
    }
}

/// Sums of sizes are non-negative.
proof fn lemma_sum_sizes_nonneg(s: Seq<BlockEntry>)
    ensures
        sum_sizes(s) >= 0,
    decreases s.len(),
{
    if s.len() > 0 {
        lemma_sum_sizes_nonneg(s.drop_last());
    }
}

/// A table of granularity-multiple sizes sums to a granularity multiple.
proof fn lemma_sum_sizes_mod(s: Seq<BlockEntry>, b: int)
    requires
        b > 0,
        forall|i: int| 0 <= i < s.len() ==> (#[trigger] s[i]).size as int % b == 0,
    ensures
        sum_sizes(s) % b == 0,
    decreases s.len(),
{
    if s.len() > 0 {
        assert(forall|i: int|
            0 <= i < s.drop_last().len() ==> (#[trigger] s.drop_last()[i]).size as int % b == 0);
        lemma_sum_sizes_mod(s.drop_last(), b);
        assert(s.last().size as int % b == 0);
        vstd::arithmetic::div_mod::lemma_add_mod_noop(
            sum_sizes(s.drop_last()),
            s.last().size as int,
            b,
        );
        assert(0int % b == 0) by (nonlinear_arith)
            requires
                b > 0,
        ;
    }
}

/// Removing one entry subtracts exactly its size from the sum.
proof fn lemma_sum_sizes_remove(s: Seq<BlockEntry>, i: int)
    requires
        0 <= i < s.len(),
    ensures
        sum_sizes(s.remove(i)) == sum_sizes(s) - s[i].size,
    decreases s.len(),
{
    if i == s.len() - 1 {
        assert(s.remove(i) =~= s.drop_last());
    } else {
        assert(s.remove(i).drop_last() =~= s.drop_last().remove(i));
        assert(s.remove(i).last() == s.last());
        lemma_sum_sizes_remove(s.drop_last(), i);
    }
}

/// Replacing one entry adjusts the sum by the difference of the sizes.
proof fn lemma_sum_sizes_update(s: Seq<BlockEntry>, i: int, e: BlockEntry)
    requires
        0 <= i < s.len(),
    ensures
        sum_sizes(s.update(i, e)) == sum_sizes(s) - s[i].size + e.size,
    decreases s.len(),
{
    if i == s.len() - 1 {
        assert(s.update(i, e).drop_last() =~= s.drop_last());
        assert(s.update(i, e).last() == e);
    } else {
        assert(s.update(i, e).drop_last() =~= s.drop_last().update(i, e));
        assert(s.update(i, e).last() == s.last());
        lemma_sum_sizes_update(s.drop_last(), i, e);
    }
}

/// Removing an entry keeps ids unique.
proof fn lemma_unique_remove(s: Seq<BlockEntry>, i: int)
    requires
        0 <= i < s.len(),
        unique_ids(s),
    ensures
        unique_ids(s.remove(i)),
{
    assert forall|a: int, b: int| 0 <= a < b < s.remove(i).len() implies s.remove(i)[a].id != s.remove(
        i,
    )[b].id by {
        let a0 = if a < i { a } else { a + 1 };
        let b0 = if b < i { b } else { b + 1 };
        assert(s.remove(i)[a] == s[a0]);
        assert(s.remove(i)[b] == s[b0]);
    }
}

/// Replacing an entry with one carrying the same id keeps ids unique.
proof fn lemma_unique_update_same_id(s: Seq<BlockEntry>, i: int, e: BlockEntry)
    requires
        0 <= i < s.len(),
        unique_ids(s),
        e.id == s[i].id,
    ensures
        unique_ids(s.update(i, e)),
{
}

/// Replacing the status of an entry keeps its index, its id and its size,
/// and a second replacement collapses into one.
pub proof fn lemma_set_status_again(s: Seq<BlockEntry>, id: u64, st1: BlockStatus, st2: BlockStatus)
    requires
        unique_ids(s),
        has_id(s, id),
    ensures
        idx_of(set_status(s, id, st1), id) == idx_of(s, id),
        has_id(set_status(s, id, st1), id),
        unique_ids(set_status(s, id, st1)),
        entry_of(set_status(s, id, st1), id) == (BlockEntry {
            id,
            status: st1,
            size: entry_of(s, id).size,
        }),
        set_status(set_status(s, id, st1), id, st2) =~= set_status(s, id, st2),
{
    let i = idx_of(s, id);
    assert(0 <= i < s.len() && s[i].id == id);
    let e1 = BlockEntry { id, status: st1, size: entry_of(s, id).size };
    let t = s.update(i, e1);
    lemma_unique_update_same_id(s, i, e1);
    assert(t[i].id == id);
    assert(has_id(t, id));
    let j = idx_of(t, id);
    assert(0 <= j < t.len() && t[j].id == id);
    if j != i {
        assert(t[j] == s[j]);
        assert(false);
    }
}

/// Block lifecycle law: once a block is freed its id disappears from the
/// live table, so — with the contracts of `free` and `lock` — a `lock` after
/// a successful `free` (without an intervening `allocate`) fails with
/// `BlockNotFound`; `free` of a locked block fails with `BlockLocked`; and
/// `unlock` of a non-locked allocated block is a no-op success.
pub proof fn lemma_block_lifecycle(s: Seq<BlockEntry>, id: u64)
    requires
        unique_ids(s),
    ensures
        !has_id(remove_id(s, id), id),
{
    if has_id(s, id) {
        let i = idx_of(s, id);
        assert(0 <= i < s.len() && s[i].id == id);
        let t = s.remove(i);
        assert forall|j: int| 0 <= j < t.len() implies t[j].id != id by {
            let j0 = if j < i { j } else { j + 1 };
            assert(t[j] == s[j0]);
            assert(j0 != i);
        }
    }
}

/// Capacity law: in every well-formed pool state the sum of allocated block
/// sizes is bounded by the total pool size, and — by the contract of
/// `allocate` — an allocation that would overflow the pool fails with
/// `InsufficientMemory` and leaves the pool unchanged.
pub proof fn lemma_capacity_invariant(m: MemoryManager)
    requires
        m.wf(),
    ensures
        sum_sizes(m.blocks()) <= m.total_size(),
{
}

} // verus!
