//! Where a request is placed: in a block of the pool, or with the
//! general-purpose allocator.

use vstd::prelude::*;

verus! {

/// A request of `size` bytes aligned to `align` fits a block of `block_size`
/// bytes when neither its size nor its alignment exceeds the block size.
pub open spec fn spec_fits(block_size: usize, size: usize, align: usize) -> bool {
    size <= block_size && align <= block_size
}

/// Tells whether the pool may serve a request, or whether it has to go to the
/// general-purpose allocator whatever the state of the pool.
#[verifier::when_used_as_spec(spec_fits)]
pub fn fits(block_size: usize, size: usize, align: usize) -> (r: bool)
    ensures
        r == spec_fits(block_size, size, align),
{
    size <= block_size && align <= block_size
}

/// The two ways a request can be served and released.
#[derive(Clone, Copy, Debug, PartialEq, Eq, Structural)]
pub enum Path {
    /// Through the free list of the pool.
    Pool,
    /// Through the general-purpose allocator.
    Fallback,
}

/// What the pool decided for one request.
#[derive(Clone, Copy, Debug, PartialEq, Eq, Structural)]
pub enum Placement {
    /// The request got the block that starts `offset` bytes into the buffer.
    /// The whole block is taken, `len` bytes of it are reported as usable.
    Pool { offset: usize, len: usize },
    /// The request is forwarded, as it came, to the general-purpose allocator.
    Fallback { size: usize, align: usize },
}

/// Memory as the one who asked for it holds it: where it starts, and how many
/// bytes from there may be used.
#[derive(Clone, Copy, Debug, PartialEq, Eq, Structural)]
pub struct Allocation {
    pub address: usize,
    pub len: usize,
}

/// No memory could be had for a request: the pool did not serve it, and the
/// general-purpose allocator, to which it was forwarded, failed.
#[derive(Clone, Copy, Debug, PartialEq, Eq, Structural)]
pub struct AllocationFailure;

impl Placement {
    /// The path that served this placement, and through which it is released.
    pub open spec fn spec_path(self) -> Path {
        match self {
            Placement::Pool { .. } => Path::Pool,
            Placement::Fallback { .. } => Path::Fallback,
        }
    }

    #[verifier::when_used_as_spec(spec_path)]
    pub fn path(self) -> (r: Path)
        ensures
            r == self.spec_path(),
    {
        match self {
            Placement::Pool { .. } => Path::Pool,
            Placement::Fallback { .. } => Path::Fallback,
        }
    }

    /// What the one who asked finally gets, for a buffer that starts at
    /// address `base`. A block of the pool is always memory: it starts
    /// `offset` bytes behind `base`. A forwarded request is whatever the
    /// general-purpose allocator answered: memory at the address in `answer`,
    /// with the length asked for, or a failure where it gave none.
    pub open spec fn spec_resolve(self, base: usize, answer: Option<usize>) -> Result<
        Allocation,
        AllocationFailure,
    > {
        match self {
            Placement::Pool { offset, len } => Ok(
                Allocation { address: (base + offset) as usize, len },
            ),
            Placement::Fallback { size, .. } => match answer {
                Some(address) => Ok(Allocation { address, len: size }),
                None => Err(AllocationFailure),
            },
        }
    }

    /// Turns a placement into what the one who asked gets. `answer` is what
    /// the general-purpose allocator returned for a forwarded request; for a
    /// block of the pool it is not looked at.
    #[verifier::when_used_as_spec(spec_resolve)]
    pub fn resolve(self, base: usize, answer: Option<usize>) -> (r: Result<
        Allocation,
        AllocationFailure,
    >)
        requires
            self matches Placement::Pool { offset, .. } ==> base + offset <= usize::MAX,
        ensures
            r == self.spec_resolve(base, answer),
    {
        match self {
            Placement::Pool { offset, len } => Ok(Allocation { address: base + offset, len }),
            Placement::Fallback { size, .. } => match answer {
                Some(address) => Ok(Allocation { address, len: size }),
                None => Err(AllocationFailure),
            },
        }
    }

    /// The placement that memory at `address`, handed out for `size` bytes
    /// aligned to `align`, has with respect to a buffer of `pool_size` bytes
    /// at `base`: inside the buffer it is in the pool, at its distance from
    /// `base`; anywhere else it is a forwarded request.
    pub open spec fn spec_locate(
        base: usize,
        pool_size: usize,
        address: usize,
        size: usize,
        align: usize,
    ) -> Placement {
        if base <= address && address - base < pool_size {
            Placement::Pool { offset: (address - base) as usize, len: size }
        } else {
            Placement::Fallback { size, align }
        }
    }

    /// Finds the placement to give back for memory at `address`.
    #[verifier::when_used_as_spec(spec_locate)]
    pub fn locate(base: usize, pool_size: usize, address: usize, size: usize, align: usize) -> (r:
        Placement)
        ensures
            r == Self::spec_locate(base, pool_size, address, size, align),
    {
        if base <= address && address - base < pool_size {
            Placement::Pool { offset: address - base, len: size }
        } else {
            Placement::Fallback { size, align }
        }
    }
}

} // verus!
