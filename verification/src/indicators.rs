//! Technical indicator labels. The indicators themselves are computed from
//! floating-point closes by the caller.
use vstd::prelude::*;

verus! {

/// Signal read from the RSI.
#[derive(Clone, Copy, Debug, PartialEq, Eq, Structural)]
pub enum RsiSignal {
    Buy,
    Sell,
    Hold,
}

/// Volatility read from the Bollinger band width.
#[derive(Clone, Copy, Debug, PartialEq, Eq, Structural)]
pub enum Volatility {
    Low,
    High,
}

} // verus!
