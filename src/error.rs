use vstd::prelude::*;

verus! {

/// Every way an operation of the market can be refused.
///
/// An error aborts the whole operation: no state is changed.
#[derive(Clone, Copy, Debug, PartialEq, Eq, Structural)]
pub enum MarketError {
    InvalidInstructionData,
    InvalidAccountData,
    /// The caller does not hold the role the operation requires.
    IllegalOwner,
    MissingRequiredSignature,
    /// A market or price feed with that key exists already.
    AccountAlreadyInitialized,
    /// A bad argument: a stake that is zero or under the market's minimum,
    /// an out-of-range fee or period, an unknown direction, or a fee recipient
    /// that is not the market's.
    InvalidArgument,
    /// The betting window of the round is closed.
    InvalidTime,
    /// No market with that id, or the round belongs to another market.
    InvalidMarket,
    /// Unknown price feed, or a feed id that does not name the market's feed.
    InvalidPriceFeed,
    /// The market is paused.
    MarketPaused,
    /// The oracle price is not positive or its update is not verified enough.
    InvalidPythPrice,
    /// The oracle price is older than the caller allows.
    PriceStale,
    /// The oracle's confidence interval is wider than the caller allows.
    ConfidenceTooHigh,
}

} // verus!
