//! Expiration policies for persistent state cells.

use vstd::prelude::*;

verus! {

/// Specifies when the time-to-live timer of a state cell is reset.
#[derive(Clone, Copy, Debug, PartialEq, Eq, Structural)]
pub enum ExpirationType {
    /// The timer resets after each read or write.
    AfterInvoke,
    /// The timer resets after each write.
    AfterWrite,
}

/// Specifies the expiration policy and time to live for a state cell.
///
/// The policy is metadata reported to the coordinator during state
/// registration; the worker itself never expires anything. Durations are
/// millisecond-precision.
#[derive(Clone, Copy, Debug, PartialEq, Eq, Structural)]
pub struct Expiration {
    /// The expiration policy; `None` means the cell never expires.
    pub expiration_type: Option<ExpirationType>,
    /// Time to live in milliseconds.
    pub time_to_live_ms: u64,
}

impl View for Expiration {
    type V = Expiration;

    open spec fn view(&self) -> Expiration {
        *self
    }
}

impl Expiration {
    /// Creates an expiration policy of the given type and time to live.
    pub fn new(expiration_type: ExpirationType, time_to_live_ms: u64) -> (r: Expiration)
        ensures
            r == (Expiration {
                expiration_type: Some(expiration_type),
                time_to_live_ms,
            }),
    {
        Expiration { expiration_type: Some(expiration_type), time_to_live_ms }
    }

    /// Creates the expiration policy of a cell that never expires.
    pub fn never() -> (r: Expiration)
        ensures
            r == (Expiration { expiration_type: None::<ExpirationType>, time_to_live_ms: 0u64 }),
    {
        Expiration { expiration_type: None, time_to_live_ms: 0 }
    }
}

} // verus!
