use vstd::prelude::*;

verus! {

/// Every failure a quote call can produce.
///
/// All variants are local, non-retryable outcomes of a single call: no
/// partial results accompany them.
#[derive(Clone, Copy, Debug, PartialEq, Eq, Structural)]
pub enum DrvError {
    /// A checked numeric operation overflowed, or a bounds guard such as the
    /// maximum-notional check tripped.
    ArithmeticOverflow,
    /// A fill mode other than exact-input was requested.
    UnsupportedMode,
    /// The simulation produced a zero net transfer on either side.
    SwapFailed,
    /// A snapshot buffer was shorter than its declared record size, or a
    /// decoded field violated a validity bound.
    InvalidAccount,
}

} // verus!
