//! Requests that the pool serves itself: which block they get, and what
//! giving a block back does.

use pool::{Path, Placement, PoolAllocator};

fn offset_of(placement: Placement) -> usize {
    match placement {
        Placement::Pool { offset, .. } => offset,
        Placement::Fallback { .. } => panic!("the request was forwarded"),
    }
}

fn fill(pool: &mut PoolAllocator, count: usize, size: usize, align: usize) -> Vec<Placement> {
    let mut out = Vec::new();
    for _ in 0..count {
        out.push(pool.allocate(size, align));
    }
    out
}

#[test]
fn sixteen_requests_each_get_a_block_of_their_own() {
    let mut pool = PoolAllocator::new(64, 16);
    assert_eq!(pool.pool_size(), 1024);
    let sizes = [1usize, 8, 16, 24, 32, 40, 48, 56, 64, 64, 7, 3, 63, 2, 33, 64];
    let aligns = [1usize, 8, 16, 8, 32, 8, 16, 8, 64, 1, 1, 2, 1, 2, 1, 64];
    let mut got = Vec::new();
    for k in 0..16 {
        let placement = pool.allocate(sizes[k], aligns[k]);
        assert_eq!(placement, Placement::Pool { offset: k * 64, len: sizes[k] });
        got.push(placement);
    }
    for a in 0..16 {
        for b in 0..16 {
            if a != b {
                assert_ne!(offset_of(got[a]), offset_of(got[b]));
            }
        }
    }
    assert_eq!(pool.blocks_free(), 0);
    assert_eq!(pool.blocks_issued(), 16);
}

#[test]
fn freed_block_is_the_next_one_handed_out() {
    let mut pool = PoolAllocator::new(64, 16);
    let got = fill(&mut pool, 16, 32, 8);
    let freed = got[5];
    assert_eq!(freed, Placement::Pool { offset: 320, len: 32 });
    assert_eq!(pool.deallocate(freed, 32, 8), Path::Pool);
    let again = pool.allocate(8, 8);
    assert_eq!(again, Placement::Pool { offset: 320, len: 8 });
    assert_eq!(offset_of(again), offset_of(freed));
}

#[test]
fn giving_back_and_asking_again_restores_the_depth() {
    let mut pool = PoolAllocator::new(32, 8);
    let got = fill(&mut pool, 3, 32, 4);
    let depth = pool.blocks_free();
    assert_eq!(depth, 5);
    assert_eq!(pool.deallocate(got[1], 32, 4), Path::Pool);
    assert_eq!(pool.blocks_free(), depth + 1);
    let again = pool.allocate(16, 4);
    assert_eq!(again, Placement::Pool { offset: 32, len: 16 });
    assert_eq!(pool.blocks_free(), depth);
    let next = pool.allocate(16, 4);
    assert_eq!(next, Placement::Pool { offset: 96, len: 16 });
}

#[test]
fn blocks_come_back_last_in_first_out() {
    let mut pool = PoolAllocator::new(16, 4);
    let got = fill(&mut pool, 4, 16, 16);
    pool.deallocate(got[0], 16, 16);
    pool.deallocate(got[2], 16, 16);
    pool.deallocate(got[1], 16, 16);
    assert_eq!(pool.allocate(1, 1), Placement::Pool { offset: 16, len: 1 });
    assert_eq!(pool.allocate(1, 1), Placement::Pool { offset: 32, len: 1 });
    assert_eq!(pool.allocate(1, 1), Placement::Pool { offset: 0, len: 1 });
    assert_eq!(pool.allocate(1, 1), Placement::Fallback { size: 1, align: 1 });
}

#[test]
fn first_request_gets_the_start_of_the_buffer() {
    let mut pool = PoolAllocator::new(64, 16);
    assert_eq!(pool.blocks_free(), 16);
    assert_eq!(pool.blocks_issued(), 0);
    assert_eq!(pool.allocate(8, 8), Placement::Pool { offset: 0, len: 8 });
    assert_eq!(pool.blocks_free(), 15);
    assert_eq!(pool.allocate(8, 8), Placement::Pool { offset: 64, len: 8 });
}

#[test]
fn small_request_takes_a_whole_block_and_reports_its_size() {
    let mut pool = PoolAllocator::new(64, 2);
    assert_eq!(pool.allocate(1, 1), Placement::Pool { offset: 0, len: 1 });
    assert_eq!(pool.allocate(1, 1), Placement::Pool { offset: 64, len: 1 });
    assert_eq!(pool.blocks_free(), 0);
}

#[test]
fn request_as_large_and_as_aligned_as_a_block_is_served() {
    let mut pool = PoolAllocator::new(64, 2);
    assert_eq!(pool.allocate(64, 64), Placement::Pool { offset: 0, len: 64 });
    assert_eq!(pool.allocate(0, 1), Placement::Pool { offset: 64, len: 0 });
}

#[test]
fn free_and_issued_blocks_add_up_after_every_call() {
    let mut pool = PoolAllocator::new(8, 5);
    let mut out: Vec<Placement> = Vec::new();
    let script = [true, true, false, true, true, true, true, true, false, false, true, false];
    for &ask in script.iter() {
        if ask {
            let placement = pool.allocate(8, 8);
            if placement.path() == Path::Pool {
                out.push(placement);
            }
        } else {
            let placement = out.remove(0);
            assert!(pool.is_releasable(placement, 8, 8));
            assert_eq!(pool.deallocate(placement, 8, 8), Path::Pool);
        }
        assert_eq!(pool.blocks_free() + pool.blocks_issued(), pool.num_blocks());
        assert_eq!(pool.blocks_issued(), out.len());
    }
}

#[test]
fn placements_that_are_out_never_overlap() {
    let mut pool = PoolAllocator::new(24, 6);
    let mut out: Vec<Placement> = Vec::new();
    let sizes = [24usize, 1, 13, 24, 7, 20];
    for round in 0..4 {
        for &size in sizes.iter() {
            let placement = pool.allocate(size, 1);
            if let Placement::Pool { offset, len } = placement {
                assert!(offset + len <= pool.pool_size());
                for other in out.iter() {
                    if let Placement::Pool { offset: o, len: l } = *other {
                        assert!(offset + len <= o || o + l <= offset);
                    }
                }
                out.push(placement);
            }
        }
        let back = out.remove(round);
        let len = match back {
            Placement::Pool { len, .. } => len,
            Placement::Fallback { size, .. } => size,
        };
        pool.deallocate(back, len, 1);
    }
    assert_eq!(out.len(), 5);
}

#[test]
fn only_an_issued_block_is_releasable() {
    let mut pool = PoolAllocator::new(64, 4);
    let block = Placement::Pool { offset: 64, len: 8 };
    assert!(!pool.is_releasable(block, 8, 8));
    pool.allocate(8, 8);
    assert!(!pool.is_releasable(block, 8, 8));
    assert_eq!(pool.allocate(8, 8), block);
    assert!(pool.is_releasable(block, 8, 8));
    assert!(!pool.is_releasable(block, 9, 8));
    assert!(!pool.is_releasable(Placement::Pool { offset: 65, len: 8 }, 8, 8));
    assert!(!pool.is_releasable(Placement::Pool { offset: 256, len: 8 }, 8, 8));
    assert!(!pool.is_releasable(Placement::Pool { offset: 64, len: 128 }, 128, 8));
    pool.deallocate(block, 8, 8);
    assert!(!pool.is_releasable(block, 8, 8));
    assert!(pool.is_releasable(Placement::Pool { offset: 0, len: 8 }, 8, 8));
}
