//! The pool as a mathematical value, and what a request does to it.
//!
//! Blocks are numbered `0 .. num_blocks`; block `i` covers the bytes
//! `i * block_size .. (i + 1) * block_size` of the buffer. A block is free
//! when its number is in the free list and issued otherwise.

use vstd::prelude::*;
use crate::placement::Placement;

verus! {

/// The state of a pool: its geometry, whether its free list has been built,
/// and the free list itself.
pub struct PoolModel {
    /// Bytes per block.
    pub block_size: nat,
    /// Number of blocks in the buffer.
    pub num_blocks: nat,
    /// Whether the free list has been built. It is built by the first request
    /// that fits a block, and never again.
    pub built: bool,
    /// The numbers of the free blocks, the head of the free list first.
    /// Until the list is built this is the list that will be built.
    pub free: Seq<nat>,
}

/// One call made on a pool.
pub enum Request {
    /// A request for `size` bytes aligned to `align`.
    Allocate { size: usize, align: usize },
    /// The return of `placement`, which had been handed out for `size` bytes
    /// aligned to `align`.
    Deallocate { placement: Placement, size: usize, align: usize },
}

/// Whether `request` gives back the block of the pool that starts at `offset`.
pub open spec fn returns_block(request: Request, offset: usize) -> bool {
    request matches Request::Deallocate { placement: Placement::Pool { offset: o, .. }, .. } && o
        == offset
}

impl PoolModel {
    /// The free list as it is first built: every block, in ascending order.
    pub open spec fn initial_free(num_blocks: nat) -> Seq<nat> {
        Seq::new(num_blocks, |i: int| i as nat)
    }

    /// A pool on which no request has been made.
    pub open spec fn fresh(block_size: nat, num_blocks: nat) -> PoolModel {
        PoolModel { block_size, num_blocks, built: false, free: Self::initial_free(num_blocks) }
    }

    /// Size of the buffer in bytes.
    pub open spec fn pool_size(self) -> nat {
        self.block_size * self.num_blocks
    }

    /// The free list names blocks of the pool, each at most once, and an
    /// unbuilt pool has all its blocks free.
    pub open spec fn wf(self) -> bool {
        &&& self.block_size > 0
        &&& self.num_blocks > 0
        &&& self.pool_size() <= usize::MAX
        &&& self.free.no_duplicates()
        &&& forall|i: int| 0 <= i < self.free.len() ==> self.free[i] < self.num_blocks
        &&& !self.built ==> self.free == Self::initial_free(self.num_blocks)
    }

    /// Whether the pool may serve a request of `size` bytes aligned to `align`.
    pub open spec fn serves(self, size: usize, align: usize) -> bool {
        size <= self.block_size && align <= self.block_size
    }

    /// Where block `block` starts in the buffer.
    pub open spec fn offset_of(self, block: nat) -> nat {
        block * self.block_size
    }

    /// The block that holds the byte at `offset`.
    pub open spec fn block_at(self, offset: nat) -> nat {
        offset / self.block_size
    }

    /// Whether `block` is in the free list.
    pub open spec fn is_free(self, block: nat) -> bool {
        self.free.contains(block)
    }

    /// Whether `block` is a block of the pool that is handed out.
    pub open spec fn is_issued(self, block: nat) -> bool {
        block < self.num_blocks && !self.free.contains(block)
    }

    /// The blocks that are handed out.
    pub open spec fn issued(self) -> Set<nat> {
        Set::new(|block: nat| self.is_issued(block))
    }

    /// Number of free blocks: the depth of the free list.
    pub open spec fn blocks_free(self) -> nat {
        self.free.len()
    }

    /// Number of blocks that are handed out.
    pub open spec fn blocks_issued(self) -> nat {
        self.issued().len()
    }

    /// What a request of `size` bytes aligned to `align` gets: the block at the
    /// head of the free list, reported with `size` usable bytes, if the request
    /// fits a block and a block is free; otherwise the request is forwarded
    /// unchanged.
    pub open spec fn placement(self, size: usize, align: usize) -> Placement {
        if self.serves(size, align) && self.free.len() > 0 {
            Placement::Pool { offset: self.offset_of(self.free[0]) as usize, len: size }
        } else {
            Placement::Fallback { size, align }
        }
    }

    /// The pool after a request of `size` bytes aligned to `align`. A request
    /// that does not fit a block leaves the pool as it is. One that fits has
    /// the free list built and takes its head, if it has one.
    pub open spec fn allocate(self, size: usize, align: usize) -> PoolModel {
        if !self.serves(size, align) {
            self
        } else if self.free.len() > 0 {
            PoolModel { built: true, free: self.free.skip(1), ..self }
        } else {
            PoolModel { built: true, ..self }
        }
    }

    /// Whether `placement` may be given back as one handed out for `size`
    /// bytes aligned to `align`: a block of the pool must start where it says,
    /// be issued, and have been able to serve such a request; a forwarded
    /// request must be the one named.
    pub open spec fn releasable(self, placement: Placement, size: usize, align: usize) -> bool {
        match placement {
            Placement::Pool { offset, len } => {
                &&& len == size
                &&& self.serves(size, align)
                &&& offset as nat % self.block_size == 0
                &&& self.is_issued(self.block_at(offset as nat))
            },
            Placement::Fallback { size: s, align: a } => s == size && a == align,
        }
    }

    /// The pool after `placement` is given back: a block of the pool becomes
    /// the head of the free list, anything else leaves the pool as it is.
    pub open spec fn deallocate(self, placement: Placement) -> PoolModel {
        match placement {
            Placement::Pool { offset, .. } => PoolModel {
                free: seq![self.block_at(offset as nat)] + self.free,
                ..self
            },
            Placement::Fallback { .. } => self,
        }
    }

    /// Whether `request` asks for memory that fits a block.
    pub open spec fn asks_for_block(self, request: Request) -> bool {
        request matches Request::Allocate { size, align } && self.serves(size, align)
    }

    /// Whether `request` may be made in this state. Any request for memory
    /// may; a return must be of something that is out.
    pub open spec fn admits(self, request: Request) -> bool {
        match request {
            Request::Allocate { .. } => true,
            Request::Deallocate { placement, size, align } => self.releasable(
                placement,
                size,
                align,
            ),
        }
    }

    /// The pool after `request`.
    pub open spec fn step(self, request: Request) -> PoolModel {
        match request {
            Request::Allocate { size, align } => self.allocate(size, align),
            Request::Deallocate { placement, .. } => self.deallocate(placement),
        }
    }

    /// The pool after the requests of `requests`, made in order.
    pub open spec fn run(self, requests: Seq<Request>) -> PoolModel
        decreases requests.len(),
    {
        if requests.len() == 0 {
            self
        } else {
            self.run(requests.drop_last()).step(requests.last())
        }
    }

    /// Whether each request of `requests` may be made when its turn comes.
    pub open spec fn admits_all(self, requests: Seq<Request>) -> bool
        decreases requests.len(),
    {
        requests.len() == 0 || (self.admits_all(requests.drop_last()) && self.run(
            requests.drop_last(),
        ).admits(requests.last()))
    }

    /// What the request at position `i` of `requests` gets, if it is a request
    /// for memory: its placement by the pool as the requests before it left it.
    pub open spec fn outcome(self, requests: Seq<Request>, i: int) -> Option<Placement> {
        match requests[i] {
            Request::Allocate { size, align } => Some(
                self.run(requests.take(i)).placement(size, align),
            ),
            Request::Deallocate { .. } => None,
        }
    }
}

} // verus!
