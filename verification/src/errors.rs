use vstd::prelude::*;

verus! {

/// Every way a call into the engine can fail.
///
/// Each operation checks its preconditions in a fixed order before touching
/// any state; the first failing check aborts the call with its variant and
/// leaves all state untouched.
#[derive(Clone, Copy, Debug, PartialEq, Eq, Structural)]
pub enum SolscoreError {
    /// The outcome list or the odds list has fewer than two entries.
    EmptyTeamsOrOdds,
    /// The outcome list and the odds list differ in length.
    TeamsAndOddsLengthMismatch,
    /// A market with the same (league, season) identity already exists.
    MarketAlreadyExists,
    /// The market has no remaining participant slots.
    MarketAllowedBettorsLimitExceeded,
    /// The market has already been resolved.
    MarketResolved,
    /// The market has not been resolved yet.
    MarketNotResolved,
    /// The market has already been closed.
    MarketClosed,
    /// The stake is zero or exceeds the market's maximum single stake.
    InvalidBetAmount,
    /// A bet keyed to the same (participant, market) pair already exists.
    BetAlreadyExists,
    /// The bet's payout has already been claimed.
    BetClaimed,
    /// The bet's outcome index does not equal the market's winning index.
    BetNotWon,
    /// The caller does not own the referenced market or bet.
    Unauthorized,
    /// The caller's available balance does not cover the transfer.
    InsufficientBalance,
    /// The outcome index is not a valid index into the market's lists.
    InvalidTeamIndex,
    /// A checked multiplication or addition overflowed.
    MathOverflow,
    /// A checked subtraction underflowed.
    MathUnderflow,
}

} // verus!
