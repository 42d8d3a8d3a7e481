use vstd::prelude::*;

verus! {

/// Why a vector or matrix operation did not produce a value.
#[derive(Debug, Clone, Copy, PartialEq, Eq, Structural)]
pub enum MatrixError {
    /// The operands' shapes do not fit each other.
    DimensionMismatch,
    /// A product or a partial sum is outside what the element type can hold.
    Overflow,
    /// A channel closed before the reply that was awaited on it arrived.
    ChannelClosed,
    /// A worker could not hand its result back: nobody waits for it any more.
    SendFailure,
    /// A result names a cell that the output matrix does not have.
    IndexOutOfRange,
}

/// Why a counter was not raised.
#[derive(Debug, Clone, Copy, PartialEq, Eq, Structural)]
pub enum MetricsError {
    /// The counter already holds the largest count it can.
    CounterOverflow,
    /// The table has no counter of that name.
    KeyNotFound,
}

} // verus!
