use vstd::prelude::*;

verus! {

/// The kinds of failure that the execution core reports to its callers.
#[derive(Clone, Copy, Debug, PartialEq, Eq, Structural)]
pub enum ErrorKind {
    /// A required argument was not supplied, or has the wrong shape.
    ArgumentError,
    /// The requested code is not stored.
    NotFound,
    /// The module cache failed (compilation, storage).
    CacheError,
    /// The gas budget does not cover the cost.
    OutOfGas,
    /// The callee does not declare the requested callable point.
    UnknownCallablePoint,
    /// A read-only caller asked for a read-write callable point.
    PermissionEscalation,
    /// The call chain handed to the callee is not the caller's chain plus the caller.
    MalformedCallstack,
    /// Marshaled values exceed the configured budget.
    RegionOverflow,
    /// A region descriptor points outside of its memory.
    RegionOutOfBounds,
    /// The destination memory has no room for the value.
    AllocationFailure,
    /// The guest export failed or does not exist with the expected signature.
    GuestTrap,
    /// The host could not resolve the callee.
    HostResolutionFailure,
    /// An unexpected fault was caught at a boundary.
    ForeignFault,
}

} // verus!
