//! The pool itself: a stack of free block numbers beside the geometry of the
//! buffer they stand for.

use vstd::prelude::*;
use crate::laws::lemma_free_and_issued_add_up;
use crate::model::PoolModel;
use crate::placement::{fits, Path, Placement};

verus! {

/// Why a pool could not be set up.
#[derive(Clone, Copy, Debug, PartialEq, Eq, Structural)]
pub enum ConstructionError {
    /// A block size or block count of zero, or a buffer whose size in bytes
    /// does not fit `usize`.
    InvalidLayout,
}

/// A pool of `num_blocks` blocks of `block_size` bytes each.
pub struct PoolAllocator {
    block_size: usize,
    num_blocks: usize,
    pool_size: usize,
    /// Set by the first request that fits a block, when the stack is filled.
    initialized: bool,
    /// Numbers of the free blocks. The last one is the head of the free list.
    free: Vec<usize>,
}

/// A block size and a block count that a pool can be made of.
pub open spec fn valid_geometry(block_size: usize, num_blocks: usize) -> bool {
    block_size > 0 && num_blocks > 0 && block_size * num_blocks <= usize::MAX
}

/// The free list that a stack stands for: its entries from the top down.
spec fn head_first(stack: Seq<usize>) -> Seq<nat> {
    Seq::new(stack.len(), |i: int| stack[stack.len() - 1 - i] as nat)
}

impl View for PoolAllocator {
    type V = PoolModel;

    closed spec fn view(&self) -> PoolModel {
        PoolModel {
            block_size: self.block_size as nat,
            num_blocks: self.num_blocks as nat,
            built: self.initialized,
            free: if self.initialized {
                head_first(self.free@)
            } else {
                PoolModel::initial_free(self.num_blocks as nat)
            },
        }
    }
}

impl PoolAllocator {
    /// What holds of the fields beyond what the view shows: the stored buffer
    /// size is the product, and the stack is empty until it is filled.
    pub closed spec fn inv(&self) -> bool {
        &&& self.pool_size == self.block_size * self.num_blocks
        &&& !self.initialized ==> self.free@.len() == 0
    }

    /// A pool is well formed when its fields agree and its view is well formed.
    pub open spec fn wf(&self) -> bool {
        self.inv() && self@.wf()
    }

    /// A pool of `num_blocks` blocks of `block_size` bytes with every block
    /// free. The free list is not built yet.
    pub fn new(block_size: usize, num_blocks: usize) -> (pool: Self)
        requires
            valid_geometry(block_size, num_blocks),
        ensures
            pool.wf(),
            pool@ == PoolModel::fresh(block_size as nat, num_blocks as nat),
    {
        let pool_size: usize = block_size * num_blocks;
        PoolAllocator { block_size, num_blocks, pool_size, initialized: false, free: Vec::new() }
    }

    /// As [`PoolAllocator::new`], for any arguments: a geometry that no pool
    /// can have is answered with [`ConstructionError::InvalidLayout`].
    pub fn try_new(block_size: usize, num_blocks: usize) -> (r: Result<Self, ConstructionError>)
        ensures
            match r {
                Ok(pool) => {
                    &&& valid_geometry(block_size, num_blocks)
                    &&& pool.wf()
                    &&& pool@ == PoolModel::fresh(block_size as nat, num_blocks as nat)
                },
                Err(e) => !valid_geometry(block_size, num_blocks) && e
                    == ConstructionError::InvalidLayout,
            },
    {
        if block_size == 0 || num_blocks == 0 {
            return Err(ConstructionError::InvalidLayout);
        }
        match block_size.checked_mul(num_blocks) {
            Some(_) => Ok(Self::new(block_size, num_blocks)),
            None => Err(ConstructionError::InvalidLayout),
        }
    }

    /// Bytes per block.
    pub fn block_size(&self) -> (r: usize)
        requires
            self.wf(),
        ensures
            r == self@.block_size,
            r > 0,
    {
        self.block_size
    }

    /// Number of blocks in the buffer.
    pub fn num_blocks(&self) -> (r: usize)
        requires
            self.wf(),
        ensures
            r == self@.num_blocks,
            r > 0,
    {
        self.num_blocks
    }

    /// Size in bytes of the buffer that the pool stands for.
    pub fn pool_size(&self) -> (r: usize)
        requires
            self.wf(),
        ensures
            r == self@.pool_size(),
    {
        self.pool_size
    }

    /// Builds the free list: every block of the pool, block 0 at the head and
    /// the others behind it in ascending order. Which blocks are free does not
    /// change by it, as an unbuilt pool has them all free.
    fn init(&mut self)
        requires
            old(self).wf(),
            !old(self)@.built,
        ensures
            final(self).wf(),
            final(self)@ == (PoolModel { built: true, ..old(self)@ }),
    {
        let mut block: usize = self.num_blocks;
        while block > 0
            invariant
                self.block_size == old(self).block_size,
                self.num_blocks == old(self).num_blocks,
                self.pool_size == old(self).pool_size,
                !self.initialized,
                block <= self.num_blocks,
                self.free@.len() == self.num_blocks - block,
                forall|k: int| 0 <= k < self.free@.len() ==> self.free@[k] == self.num_blocks - 1 - k,
            decreases block,
        {
            block = block - 1;
            self.free.push(block);
        }
        self.initialized = true;
        assert(head_first(self.free@) =~= PoolModel::initial_free(self.num_blocks as nat));
    }

    /// Decides where a request of `size` bytes aligned to `align` is served.
    ///
    /// A request larger than a block, or aligned more strictly than a block is
    /// long, is forwarded and the pool is not touched. Any other request has
    /// the free list built, if it never was, and gets the block at its head,
    /// reported with `size` usable bytes. When no block is free the request is
    /// forwarded; the list is not built a second time.
    pub fn allocate(&mut self, size: usize, align: usize) -> (placement: Placement)
        requires
            old(self).wf(),
        ensures
            final(self).wf(),
            final(self)@ == old(self)@.allocate(size, align),
            placement == old(self)@.placement(size, align),
    {
        if !fits(self.block_size, size, align) {
            return Placement::Fallback { size, align };
        }
        if !self.initialized {
            self.init();
        }
        let ghost stack = self.free@;
        match self.free.pop() {
            Some(block) => {
                proof {
                    assert(head_first(self.free@) =~= head_first(stack).skip(1));
                    assert(block * self.block_size <= self.block_size * self.num_blocks)
                        by (nonlinear_arith)
                        requires
                            block < self.num_blocks,
                    ;
                }
                Placement::Pool { offset: block * self.block_size, len: size }
            },
            None => Placement::Fallback { size, align },
        }
    }

    /// Takes back `placement`, which was handed out for `size` bytes aligned
    /// to `align`, and tells through which path it is released.
    ///
    /// A block of the pool becomes the head of the free list, so that the next
    /// request that fits a block gets it. A forwarded request leaves the pool
    /// as it is: its memory goes back to the general-purpose allocator.
    pub fn deallocate(&mut self, placement: Placement, size: usize, align: usize) -> (path: Path)
        requires
            old(self).wf(),
            old(self)@.releasable(placement, size, align),
        ensures
            final(self).wf(),
            final(self)@ == old(self)@.deallocate(placement),
            path == placement.spec_path(),
    {
        if !fits(self.block_size, size, align) {
            return Path::Fallback;
        }
        match placement {
            Placement::Pool { offset, .. } => {
                let block: usize = offset / self.block_size;
                let ghost stack = self.free@;
                proof {
                    if !self.initialized {
                        let all = PoolModel::initial_free(self.num_blocks as nat);
                        assert(all[block as int] == block as nat);
                    }
                }
                self.free.push(block);
                proof {
                    assert(head_first(self.free@) =~= seq![block as nat] + head_first(stack));
                }
                Path::Pool
            },
            Placement::Fallback { .. } => Path::Fallback,
        }
    }

    /// Whether the free list has been built, which the first request that
    /// fits a block does.
    pub fn is_built(&self) -> (r: bool)
        requires
            self.wf(),
        ensures
            r == self@.built,
    {
        self.initialized
    }

    /// Number of blocks that are free. Before the free list is built these
    /// are all the blocks of the pool.
    pub fn blocks_free(&self) -> (r: usize)
        requires
            self.wf(),
        ensures
            r == self@.blocks_free(),
            r <= self@.num_blocks,
    {
        proof {
            lemma_free_and_issued_add_up(self@);
        }
        if self.initialized {
            self.free.len()
        } else {
            self.num_blocks
        }
    }

    /// Number of blocks that are handed out.
    pub fn blocks_issued(&self) -> (r: usize)
        requires
            self.wf(),
        ensures
            r == self@.blocks_issued(),
            r + self@.blocks_free() == self@.num_blocks,
    {
        proof {
            lemma_free_and_issued_add_up(self@);
        }
        self.num_blocks - self.blocks_free()
    }

    /// Tells whether `placement` may be given back by
    /// [`PoolAllocator::deallocate`] as one handed out for `size` bytes
    /// aligned to `align`. For a block of the pool this walks the free list.
    pub fn is_releasable(&self, placement: Placement, size: usize, align: usize) -> (r: bool)
        requires
            self.wf(),
        ensures
            r == self@.releasable(placement, size, align),
    {
        match placement {
            Placement::Pool { offset, len } => {
                if len != size || !fits(self.block_size, size, align) || offset % self.block_size
                    != 0 {
                    return false;
                }
                let block: usize = offset / self.block_size;
                if block >= self.num_blocks {
                    return false;
                }
                if !self.initialized {
                    assert(PoolModel::initial_free(self.num_blocks as nat)[block as int]
                        == block as nat);
                    return false;
                }
                let depth: usize = self.free.len();
                let mut i: usize = 0;
                while i < depth
                    invariant
                        depth == self.free@.len(),
                        i <= depth,
                        forall|k: int| 0 <= k < i ==> self.free@[k] != block,
                        self@.releasable(placement, size, align) <==> !head_first(
                            self.free@,
                        ).contains(block as nat),
                    decreases depth - i,
                {
                    if self.free[i] == block {
                        assert(head_first(self.free@)[depth - 1 - i] == block as nat);
                        return false;
                    }
                    i = i + 1;
                }
                true
            },
            Placement::Fallback { size: s, align: a } => s == size && a == align,
        }
    }

    /// Gives the pool up and tells the size in bytes of the buffer that is to
    /// be released with it, in one piece. The pool is gone after the call, so
    /// this happens once. No block may be out.
    pub fn teardown(self) -> (released: usize)
        requires
            self.wf(),
            self@.blocks_issued() == 0,
        ensures
            released == self@.pool_size(),
    {
        self.pool_size
    }
}

} // verus!
