use nn_accel::memory::{
    AllocationStrategy, BlockStatus, LockReason, MemoryError, MemoryManager,
};
use nn_accel::types::UnitId;

#[test]
fn test_memory_allocation() {
    let mut manager = MemoryManager::new(1024, 16).unwrap();
    let unit = UnitId::new(0).unwrap();

    let block_id = manager
        .allocate(32, unit, AllocationStrategy::Contiguous)
        .unwrap();

    let status = manager.status(block_id).unwrap();
    assert!(matches!(status, BlockStatus::Allocated { unit: u } if u == unit));

    manager.lock(block_id, unit, LockReason::Writing).unwrap();
    let status = manager.status(block_id).unwrap();
    assert!(matches!(
        status,
        BlockStatus::Locked { unit: u, reason: LockReason::Writing } if u == unit
    ));

    manager.unlock(block_id).unwrap();
    manager.free(block_id).unwrap();

    assert!(manager.status(block_id).is_err());
}

#[test]
fn test_memory_limits() {
    let mut manager = MemoryManager::new(32, 16).unwrap();
    let unit = UnitId::new(0).unwrap();

    let result = manager.allocate(64, unit, AllocationStrategy::Contiguous);
    assert!(matches!(
        result,
        Err(MemoryError::InsufficientMemory { .. })
    ));

    let result = manager.allocate(10, unit, AllocationStrategy::Contiguous);
    assert!(matches!(result, Err(MemoryError::InvalidBlockSize(10))));
}

#[test]
fn test_invalid_granularity() {
    assert!(matches!(
        MemoryManager::new(1024, 0),
        Err(MemoryError::InvalidBlockSize(0))
    ));
    assert!(matches!(
        MemoryManager::new(1024, 24),
        Err(MemoryError::InvalidBlockSize(24))
    ));
}

#[test]
fn test_memory_usage_counts() {
    let mut manager = MemoryManager::new(1024, 16).unwrap();
    let unit = UnitId::new(0).unwrap();

    let usage = manager.usage();
    assert_eq!(usage.total_size, 1024);
    assert_eq!(usage.used_size, 0);
    assert_eq!(usage.block_size, 16);
    assert_eq!(usage.total_blocks, 64);

    let block_id = manager
        .allocate(32, unit, AllocationStrategy::Contiguous)
        .unwrap();
    manager.lock(block_id, unit, LockReason::Reading).unwrap();

    let usage = manager.usage();
    assert_eq!(usage.used_size, 32);
    assert_eq!(usage.used_blocks, 2);
    assert_eq!(usage.locked_blocks, 2);
}

#[test]
fn test_block_lifecycle_scenario() {
    let mut manager = MemoryManager::new(256, 16).unwrap();
    let unit = UnitId::new(5).unwrap();

    let block = manager
        .allocate(16, unit, AllocationStrategy::Fragmented)
        .unwrap();

    // A locked block cannot be freed until unlocked.
    manager.lock(block, unit, LockReason::Transferring).unwrap();
    assert!(matches!(manager.free(block), Err(MemoryError::BlockLocked(b)) if b == block));

    // Locking is not reentrant.
    assert!(matches!(
        manager.lock(block, unit, LockReason::Reading),
        Err(MemoryError::BlockLocked(b)) if b == block
    ));

    // Unlock restores the allocated state; a second unlock is a no-op success.
    manager.unlock(block).unwrap();
    manager.unlock(block).unwrap();
    assert!(matches!(
        manager.status(block),
        Ok(BlockStatus::Allocated { unit: u }) if u == unit
    ));

    // Lock after free, without an intervening allocate, fails with not-found.
    manager.free(block).unwrap();
    assert!(matches!(
        manager.lock(block, unit, LockReason::Writing),
        Err(MemoryError::BlockNotFound(b)) if b == block
    ));
    assert!(matches!(
        manager.free(block),
        Err(MemoryError::BlockNotFound(b)) if b == block
    ));
}

#[test]
fn test_capacity_invariant_scenario() {
    let mut manager = MemoryManager::new(64, 16).unwrap();
    let unit = UnitId::new(0).unwrap();

    manager.allocate(32, unit, AllocationStrategy::Contiguous).unwrap();
    manager.allocate(16, unit, AllocationStrategy::Contiguous).unwrap();

    // The allocation that would overflow the pool fails and leaves it unchanged.
    let result = manager.allocate(32, unit, AllocationStrategy::Contiguous);
    assert!(matches!(
        result,
        Err(MemoryError::InsufficientMemory { requested: 32, available: 16 })
    ));
    assert_eq!(manager.usage().used_size, 48);

    // The remaining block still fits.
    manager.allocate(16, unit, AllocationStrategy::Contiguous).unwrap();
    assert_eq!(manager.usage().used_size, 64);
}

#[test]
fn test_block_ids_are_fresh() {
    let mut manager = MemoryManager::new(256, 16).unwrap();
    let unit = UnitId::new(0).unwrap();
    let a = manager.allocate(16, unit, AllocationStrategy::Contiguous).unwrap();
    let b = manager.allocate(16, unit, AllocationStrategy::Contiguous).unwrap();
    manager.free(a).unwrap();
    let c = manager.allocate(16, unit, AllocationStrategy::Contiguous).unwrap();
    assert_ne!(a.raw(), b.raw());
    assert_ne!(b.raw(), c.raw());
    assert_ne!(a.raw(), c.raw());
}
