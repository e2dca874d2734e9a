//! Setting a pool up and giving it up.

use pool::{ConstructionError, Path, Placement, PoolAllocator};

#[test]
fn untouched_pool_is_torn_down_whole() {
    let pool = PoolAllocator::new(64, 16);
    assert_eq!(pool.blocks_issued(), 0);
    assert_eq!(pool.teardown(), 1024);
}

#[test]
fn pool_with_every_block_back_is_torn_down_whole() {
    let mut pool = PoolAllocator::new(64, 16);
    let a = pool.allocate(8, 8);
    let b = pool.allocate(8, 8);
    assert_eq!(pool.deallocate(a, 8, 8), Path::Pool);
    assert_eq!(pool.deallocate(b, 8, 8), Path::Pool);
    assert_eq!(pool.blocks_issued(), 0);
    assert_eq!(pool.teardown(), 1024);
}

#[test]
fn geometry_is_what_the_pool_was_made_with() {
    let pool = PoolAllocator::new(1024, 7);
    assert_eq!(pool.block_size(), 1024);
    assert_eq!(pool.num_blocks(), 7);
    assert_eq!(pool.pool_size(), 7168);
    assert_eq!(pool.blocks_free(), 7);
}

#[test]
fn single_byte_single_block_pool() {
    let mut pool = PoolAllocator::new(1, 1);
    assert_eq!(pool.pool_size(), 1);
    assert_eq!(pool.allocate(1, 1), Placement::Pool { offset: 0, len: 1 });
    assert_eq!(pool.allocate(1, 1), Placement::Fallback { size: 1, align: 1 });
    assert_eq!(pool.allocate(2, 1), Placement::Fallback { size: 2, align: 1 });
}

#[test]
fn try_new_accepts_a_valid_geometry() {
    let pool = PoolAllocator::try_new(64, 16);
    assert!(pool.is_ok());
    let mut pool = pool.ok().unwrap();
    assert_eq!(pool.pool_size(), 1024);
    assert_eq!(pool.allocate(8, 8), Placement::Pool { offset: 0, len: 8 });
}

#[test]
fn try_new_refuses_a_block_size_of_zero() {
    assert_eq!(PoolAllocator::try_new(0, 16).err(), Some(ConstructionError::InvalidLayout));
}

#[test]
fn try_new_refuses_a_pool_without_blocks() {
    assert_eq!(PoolAllocator::try_new(64, 0).err(), Some(ConstructionError::InvalidLayout));
}

#[test]
fn try_new_refuses_a_buffer_too_large_to_address() {
    assert_eq!(
        PoolAllocator::try_new(usize::MAX, 2).err(),
        Some(ConstructionError::InvalidLayout)
    );
    assert_eq!(
        PoolAllocator::try_new(usize::MAX / 2 + 1, 2).err(),
        Some(ConstructionError::InvalidLayout)
    );
    assert!(PoolAllocator::try_new(usize::MAX / 2, 2).is_ok());
    assert!(PoolAllocator::try_new(usize::MAX, 1).is_ok());
}

#[test]
fn free_list_is_built_by_the_first_request_that_fits() {
    let mut pool = PoolAllocator::new(64, 16);
    assert!(!pool.is_built());
    assert_eq!(pool.allocate(65, 8), Placement::Fallback { size: 65, align: 8 });
    assert!(!pool.is_built());
    assert_eq!(pool.blocks_free(), 16);
    assert_eq!(pool.allocate(8, 8), Placement::Pool { offset: 0, len: 8 });
    assert!(pool.is_built());
    assert_eq!(pool.blocks_free(), 15);
}
