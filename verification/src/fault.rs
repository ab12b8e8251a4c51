//! The two classes of failure and the status each one is answered with.

use vstd::prelude::*;

verus! {

/// Status of a request that was answered in full.
pub const STATUS_OK: u16 = 200;

/// Status of a request whose body could not be understood.
pub const STATUS_BAD_REQUEST: u16 = 400;

/// Status of a request whose body is longer than the service accepts.
pub const STATUS_PAYLOAD_TOO_LARGE: u16 = 413;

/// Status of a request that failed on the service's side.
pub const STATUS_INTERNAL: u16 = 500;

/// What was wrong with a request, as far as the client caused it.
#[derive(Clone, Copy, Debug, PartialEq, Eq, Structural)]
pub enum InputFault {
    /// The body is longer than the ceiling.
    Oversized,
    /// The body is no JSON object of the expected shape.
    Malformed,
    /// The body names no package.
    MissingName,
    /// The body names the package by an empty string.
    EmptyName,
}

/// What went wrong on the service's side.
#[derive(Clone, Copy, Debug, PartialEq, Eq, Structural)]
pub enum InternalFault {
    /// No connection could be borrowed from the pool.
    PoolUnavailable,
    /// The store refused or failed the query.
    QueryFailed,
    /// The worker pool did not run the work.
    WorkerUnavailable,
    /// The store's rows are no time series.
    RowMapping,
    /// The handler was told of something that cannot follow what it last asked for.
    OutOfTurn,
}

/// A failure of either class.
#[derive(Clone, Copy, Debug, PartialEq, Eq, Structural)]
pub enum Fault {
    /// Caused by the client: answered in the 400 range.
    Input(InputFault),
    /// Caused by the service or its store: answered with 500.
    Internal(InternalFault),
}

/// The status that a fault is answered with.
pub open spec fn fault_status(fault: Fault) -> int {
    match fault {
        Fault::Input(InputFault::Oversized) => 413,
        Fault::Input(_) => 400,
        Fault::Internal(_) => 500,
    }
}

impl Fault {
    /// The status that this fault is answered with.
    pub fn status(&self) -> (status: u16)
        ensures
            status as int == fault_status(*self),
    {
        match self {
            Fault::Input(InputFault::Oversized) => STATUS_PAYLOAD_TOO_LARGE,
            Fault::Input(_) => STATUS_BAD_REQUEST,
            Fault::Internal(_) => STATUS_INTERNAL,
        }
    }

    /// Whether the client caused the fault.
    pub fn is_input(&self) -> (input: bool)
        ensures
            input == (*self is Input),
    {
        match self {
            Fault::Input(_) => true,
            Fault::Internal(_) => false,
        }
    }
}

/// A client's fault is answered in the 400 range and a fault of the service
/// with 500, so the status alone tells the two classes apart.
pub proof fn lemma_status_tells_class(fault: Fault)
    ensures
        fault is Input <==> 400 <= fault_status(fault) < 500,
        fault is Internal <==> fault_status(fault) == 500,
{
}

} // verus!
