//! What holds of every well-formed pool, whatever requests it has served.

use vstd::prelude::*;
use vstd::set_lib::*;
use crate::model::{returns_block, PoolModel, Request};
use crate::placement::{Path, Placement};

verus! {

/// A pool on which no request has been made is well formed, and has every
/// block free: block `k` at position `k` of its free list.
pub proof fn lemma_fresh_pool_is_wf(block_size: nat, num_blocks: nat)
    requires
        block_size > 0,
        num_blocks > 0,
        block_size * num_blocks <= usize::MAX,
    ensures
        PoolModel::fresh(block_size, num_blocks).wf(),
        PoolModel::fresh(block_size, num_blocks).blocks_free() == num_blocks,
        PoolModel::fresh(block_size, num_blocks).blocks_issued() == 0,
        forall|k: int|
            0 <= k < num_blocks ==> #[trigger] PoolModel::fresh(block_size, num_blocks).free[k]
                == k,
{
    lemma_free_and_issued_add_up(PoolModel::fresh(block_size, num_blocks));
}

/// A request that a well-formed pool admits leaves it well formed, with the
/// geometry it had.
pub proof fn lemma_step_keeps_wf(m: PoolModel, request: Request)
    requires
        m.wf(),
        m.admits(request),
    ensures
        m.step(request).wf(),
        m.step(request).block_size == m.block_size,
        m.step(request).num_blocks == m.num_blocks,
{
    match request {
        Request::Allocate { size, align } => {},
        Request::Deallocate { placement, size, align } => {
            match placement {
                Placement::Pool { offset, len } => {
                    let block = m.block_at(offset as nat);
                    if !m.built {
                        assert(m.free[block as int] == block);
                    }
                },
                Placement::Fallback { .. } => {},
            }
        },
    }
}

/// So does any sequence of requests, each admitted when its turn comes.
pub proof fn lemma_run_keeps_wf(m: PoolModel, requests: Seq<Request>)
    requires
        m.wf(),
        m.admits_all(requests),
    ensures
        m.run(requests).wf(),
        m.run(requests).block_size == m.block_size,
        m.run(requests).num_blocks == m.num_blocks,
    decreases requests.len(),
{
    if requests.len() > 0 {
        lemma_run_keeps_wf(m, requests.drop_last());
        lemma_step_keeps_wf(m.run(requests.drop_last()), requests.last());
    }
}

/// If every request of a sequence is admitted in its turn, so is every
/// request of each of its prefixes.
pub proof fn lemma_prefix_is_admitted(m: PoolModel, requests: Seq<Request>, k: int)
    requires
        m.admits_all(requests),
        0 <= k <= requests.len(),
    ensures
        m.admits_all(requests.take(k)),
    decreases requests.len(),
{
    if k == requests.len() {
        assert(requests.take(k) =~= requests);
    } else {
        assert(requests.take(k) =~= requests.drop_last().take(k));
        lemma_prefix_is_admitted(m, requests.drop_last(), k);
    }
}

/// Every block of a well-formed pool is either free or issued, never both:
/// the free blocks and the issued blocks together number `num_blocks`.
pub proof fn lemma_free_and_issued_add_up(m: PoolModel)
    requires
        m.wf(),
    ensures
        m.issued().finite(),
        m.blocks_free() + m.blocks_issued() == m.num_blocks,
        forall|block: nat| block < m.num_blocks ==> (m.is_free(block) <==> !m.is_issued(block)),
{
    let all = Set::<nat>::range(0, m.num_blocks);
    let free = m.free.to_set();
    range_set_properties::<nat>(0, m.num_blocks);
    m.free.unique_seq_to_set();
    vstd::seq_lib::seq_to_set_is_finite(m.free);
    lemma_set_difference_len(all, free);
    assert(all.intersect(free) =~= free);
    assert(m.issued() =~= all.difference(free));
}

/// The count holds at every point of any sequence of requests made on a
/// well-formed pool, each admitted when its turn comes: after the first `k`
/// of them, for every `k`.
pub proof fn lemma_free_and_issued_add_up_throughout(
    m: PoolModel,
    requests: Seq<Request>,
    k: int,
)
    requires
        m.wf(),
        m.admits_all(requests),
        0 <= k <= requests.len(),
    ensures
        m.run(requests.take(k)).wf(),
        m.run(requests.take(k)).num_blocks == m.num_blocks,
        m.run(requests.take(k)).blocks_free() + m.run(requests.take(k)).blocks_issued()
            == m.num_blocks,
{
    lemma_prefix_is_admitted(m, requests, k);
    lemma_run_keeps_wf(m, requests.take(k));
    lemma_free_and_issued_add_up(m.run(requests.take(k)));
}

/// Every block lies within the buffer.
pub proof fn lemma_block_lies_in_buffer(m: PoolModel, block: nat)
    requires
        block < m.num_blocks,
    ensures
        m.offset_of(block) + m.block_size <= m.pool_size(),
{
    let bs = m.block_size;
    let n = m.num_blocks;
    assert(block * bs + bs <= bs * n) by (nonlinear_arith)
        requires
            block < n,
    ;
}

/// Two different blocks share no byte.
pub proof fn lemma_blocks_do_not_overlap(m: PoolModel, a: nat, b: nat)
    requires
        a != b,
    ensures
        m.offset_of(a) + m.block_size <= m.offset_of(b) || m.offset_of(b) + m.block_size
            <= m.offset_of(a),
{
    let bs = m.block_size;
    assert(a * bs + bs <= b * bs || b * bs + bs <= a * bs) by (nonlinear_arith)
        requires
            a != b,
    ;
}

/// What a request gets from the pool is a whole block that was free and is
/// issued afterwards, while every other block is as before; the bytes
/// reported lie within that block, and so share nothing with any block that
/// was issued already.
pub proof fn lemma_placement_is_fresh(m: PoolModel, size: usize, align: usize, other: nat)
    requires
        m.wf(),
        m.placement(size, align) is Pool,
        m.is_issued(other),
    ensures
        ({
            let offset = m.placement(size, align)->offset;
            let len = m.placement(size, align)->len;
            let block = m.block_at(offset as nat);
            &&& offset == m.offset_of(block)
            &&& len == size
            &&& len <= m.block_size
            &&& m.is_free(block)
            &&& m.allocate(size, align).is_issued(block)
            &&& m.allocate(size, align).is_issued(other)
            &&& m.allocate(size, align).issued() == m.issued().insert(block)
            &&& offset + len <= m.offset_of(other) || m.offset_of(other) + m.block_size <= offset
        }),
{
    let head = m.free[0];
    let after = m.allocate(size, align);
    lemma_head_offset(m);
    lemma_blocks_do_not_overlap(m, head, other);
    assert forall|block: nat| after.is_issued(block) <==> m.is_issued(block) || block
        == head by {
        if m.free.contains(block) && block != head {
            let i = choose|i: int| 0 <= i < m.free.len() && m.free[i] == block;
            assert(after.free[i - 1] == block);
        }
    }
}

/// The head of the free list starts inside the buffer, where its number says.
proof fn lemma_head_offset(m: PoolModel)
    requires
        m.wf(),
        m.free.len() > 0,
    ensures
        m.offset_of(m.free[0]) + m.block_size <= m.pool_size(),
        m.block_at(m.offset_of(m.free[0])) == m.free[0],
        m.offset_of(m.free[0]) % m.block_size == 0,
{
    let head = m.free[0];
    let bs = m.block_size;
    lemma_block_lies_in_buffer(m, head);
    vstd::arithmetic::div_mod::lemma_div_multiples_vanish(head as int, bs as int);
    vstd::arithmetic::div_mod::lemma_mod_multiples_basic(head as int, bs as int);
}

/// A block that starts at a multiple of the block size is found again from
/// where it starts.
proof fn lemma_block_start(m: PoolModel, offset: nat)
    requires
        m.block_size > 0,
        offset % m.block_size == 0,
    ensures
        m.offset_of(m.block_at(offset)) == offset,
{
    vstd::arithmetic::div_mod::lemma_fundamental_div_mod(offset as int, m.block_size as int);
    assert(m.block_size * (offset / m.block_size) == (offset / m.block_size) * m.block_size)
        by (nonlinear_arith);
}

/// The pool after the first `k + 1` requests is the pool after the first `k`,
/// stepped by the request at position `k`.
proof fn lemma_run_unfolds(m: PoolModel, requests: Seq<Request>, k: int)
    requires
        0 <= k < requests.len(),
    ensures
        m.run(requests.take(k + 1)) == m.run(requests.take(k)).step(requests[k]),
{
    assert(requests.take(k + 1).drop_last() =~= requests.take(k));
}

/// A block that is issued stays issued as long as no request gives it back.
proof fn lemma_stays_issued(m: PoolModel, requests: Seq<Request>, i: int, k: int, block: nat)
    requires
        m.wf(),
        m.admits_all(requests),
        0 <= i <= k <= requests.len(),
        m.run(requests.take(i)).is_issued(block),
        m.offset_of(block) <= usize::MAX,
        forall|t: int| i <= t < k ==> !returns_block(requests[t], m.offset_of(block) as usize),
    ensures
        m.run(requests.take(k)).is_issued(block),
    decreases k - i,
{
    if i < k {
        lemma_stays_issued(m, requests, i, k - 1, block);
        lemma_prefix_is_admitted(m, requests, k - 1);
        lemma_prefix_is_admitted(m, requests, k);
        lemma_run_keeps_wf(m, requests.take(k - 1));
        lemma_run_unfolds(m, requests, k - 1);
        let before = m.run(requests.take(k - 1));
        let request = requests[k - 1];
        assert(requests.take(k).drop_last() =~= requests.take(k - 1));
        if let Request::Deallocate { placement: Placement::Pool { offset, .. }, .. } = request {
            lemma_block_start(before, offset as nat);
        }
    }
}

/// No two placements that are out at the same time share a byte: if two
/// requests of a sequence both got a block of the pool, and the block of the
/// earlier one was not given back before the later one was served, then the
/// bytes reported to the one and to the other are apart.
pub proof fn lemma_live_placements_do_not_overlap(
    m: PoolModel,
    requests: Seq<Request>,
    i: int,
    j: int,
)
    requires
        m.wf(),
        m.admits_all(requests),
        0 <= i < j < requests.len(),
        m.outcome(requests, i) matches Some(Placement::Pool { .. }),
        m.outcome(requests, j) matches Some(Placement::Pool { .. }),
        forall|t: int|
            i < t < j ==> !returns_block(requests[t], m.outcome(requests, i).unwrap()->offset),
    ensures
        ({
            let first = m.outcome(requests, i).unwrap();
            let second = m.outcome(requests, j).unwrap();
            first->offset + first->len <= second->offset || second->offset + second->len
                <= first->offset
        }),
{
    let at_i = m.run(requests.take(i));
    let after_i = m.run(requests.take(i + 1));
    let at_j = m.run(requests.take(j));
    lemma_prefix_is_admitted(m, requests, i);
    lemma_prefix_is_admitted(m, requests, j);
    lemma_run_keeps_wf(m, requests.take(i));
    lemma_run_keeps_wf(m, requests.take(j));
    lemma_run_unfolds(m, requests, i);
    let block = at_i.free[0];
    lemma_head_offset(at_i);
    assert(after_i.is_issued(block));
    lemma_stays_issued(m, requests, i + 1, j, block);
    lemma_head_offset(at_j);
    lemma_blocks_do_not_overlap(at_j, at_j.free[0], block);
}

/// A block that is given back is the next one handed out: the request that
/// follows, if it fits a block, gets the same offset, and the free list is
/// then what it was before the block came back.
pub proof fn lemma_returned_block_is_reused(
    m: PoolModel,
    placement: Placement,
    size: usize,
    align: usize,
    next_size: usize,
    next_align: usize,
)
    requires
        m.wf(),
        placement is Pool,
        m.releasable(placement, size, align),
        m.serves(next_size, next_align),
    ensures
        m.deallocate(placement).blocks_free() == m.blocks_free() + 1,
        m.deallocate(placement).placement(next_size, next_align) == (Placement::Pool {
            offset: placement->offset,
            len: next_size,
        }),
        m.deallocate(placement).allocate(next_size, next_align).free == m.free,
        m.deallocate(placement).allocate(next_size, next_align).blocks_free() == m.blocks_free(),
{
    lemma_block_start(m, placement->offset as nat);
    let back = m.deallocate(placement);
}

/// A request larger than a block, or aligned more strictly than a block is
/// long, never touches the pool: it is forwarded as it came, whatever blocks
/// are free, and what may be given back for it is that forwarded request,
/// which again leaves the pool as it is.
pub proof fn lemma_oversized_request_bypasses_pool(
    m: PoolModel,
    size: usize,
    align: usize,
    placement: Placement,
)
    requires
        m.wf(),
        size > m.block_size || align > m.block_size,
    ensures
        m.placement(size, align) == (Placement::Fallback { size, align }),
        m.placement(size, align).spec_path() == Path::Fallback,
        m.allocate(size, align) == m,
        m.releasable(placement, size, align) <==> placement == m.placement(size, align),
        m.releasable(placement, size, align) ==> m.deallocate(placement) == m,
{
}

/// The pool after `requests`, all of them requests for memory that fit a
/// block and no more of them than blocks are free, has lost that many blocks
/// from the head of its free list.
proof fn lemma_requests_drain_free_list(m: PoolModel, requests: Seq<Request>)
    requires
        m.wf(),
        requests.len() <= m.blocks_free(),
        forall|i: int| 0 <= i < requests.len() ==> m.asks_for_block(#[trigger] requests[i]),
    ensures
        m.admits_all(requests),
        m.run(requests).free == m.free.skip(requests.len() as int),
        m.run(requests).block_size == m.block_size,
        m.run(requests).num_blocks == m.num_blocks,
        requests.len() > 0 ==> m.run(requests).built,
        requests.len() == 0 ==> m.run(requests) == m,
    decreases requests.len(),
{
    if requests.len() == 0 {
    } else {
        let k = requests.len() - 1;
        lemma_requests_drain_free_list(m, requests.drop_last());
        let before = m.run(requests.drop_last());
    }
}

/// A pool runs dry and then falls back. Of as many requests for memory as
/// the pool has free blocks, each fitting a block and none given back, every
/// one gets a block of its own: the request at position `k` the block that
/// was at position `k` of the free list. The next request that fits a block
/// is forwarded, and the pool stays as it is.
pub proof fn lemma_exhausted_pool_falls_back(
    m: PoolModel,
    requests: Seq<Request>,
    size: usize,
    align: usize,
)
    requires
        m.wf(),
        requests.len() == m.blocks_free(),
        forall|i: int| 0 <= i < requests.len() ==> m.asks_for_block(#[trigger] requests[i]),
        m.serves(size, align),
    ensures
        m.admits_all(requests),
        forall|k: int|
            0 <= k < requests.len() ==> #[trigger] m.outcome(requests, k) == Some(
                Placement::Pool {
                    offset: m.offset_of(m.free[k]) as usize,
                    len: requests[k]->Allocate_size,
                },
            ),
        m.run(requests).blocks_free() == 0,
        m.run(requests).blocks_issued() == m.num_blocks,
        m.run(requests).placement(size, align) == (Placement::Fallback { size, align }),
        m.run(requests).allocate(size, align).free == m.run(requests).free,
{
    lemma_requests_drain_free_list(m, requests);
    lemma_run_keeps_wf(m, requests);
    lemma_free_and_issued_add_up(m.run(requests));
    assert forall|k: int| 0 <= k < requests.len() implies #[trigger] m.outcome(requests, k)
        == Some(
        Placement::Pool {
            offset: m.offset_of(m.free[k]) as usize,
            len: requests[k]->Allocate_size,
        },
    ) by {
        lemma_requests_drain_free_list(m, requests.take(k));
    }
}

/// Memory that a block of the pool resolved to is located as that block
/// again, for any buffer that lies within the address space.
pub proof fn lemma_resolved_block_is_located(
    m: PoolModel,
    base: usize,
    block: nat,
    size: usize,
    align: usize,
)
    requires
        m.wf(),
        block < m.num_blocks,
        base + m.pool_size() <= usize::MAX,
    ensures
        ({
            let placement = Placement::Pool { offset: m.offset_of(block) as usize, len: size };
            let memory = placement.spec_resolve(base, None).unwrap();
            Placement::spec_locate(base, m.pool_size() as usize, memory.address, memory.len, align)
                == placement
        }),
{
    lemma_block_lies_in_buffer(m, block);
}

} // verus!
