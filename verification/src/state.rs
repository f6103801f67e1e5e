use vstd::prelude::*;

verus! {

/// One bettable event: a fixed set of outcomes with fixed payout odds.
///
/// A market is identified by its (league, season) pair; the host derives a
/// collision-free storage key from that identity, so at most one market can
/// exist per pair.  Caller identities and the key-derivation salt (`bump`)
/// are opaque values the host hands in; the engine only stores and compares
/// them.
pub struct Market {
    /// Identity of the administrator who opened the market and alone may
    /// resolve and close it.
    pub admin: u64,
    /// League name: first half of the market's immutable identity.
    pub league_name: String,
    /// Season name: second half of the market's immutable identity.
    pub season: String,
    /// Ordered outcome names; parallel to `odds`.
    pub teams: Vec<String>,
    /// Fixed payout multiplier per outcome; parallel to `teams`.
    pub odds: Vec<u64>,
    /// Set once by `resolve_market`, never unset.
    pub is_resolved: bool,
    /// Present exactly once the market is resolved; a valid index into
    /// `teams` and `odds`.
    pub winning_team_index: Option<u8>,
    /// Largest stake a single bet may carry.
    pub max_stake_amount: u64,
    /// Remaining participant slots; one is consumed per bet.
    pub allowed_bettors: u64,
    /// Set once by `close_market`, never unset; a closed market accepts no
    /// further stakes, resolutions or claims.
    pub is_closed: bool,
    /// Host clock reading at creation.
    pub created_at: i64,
    /// Host clock reading at resolution; present exactly once resolved.
    pub resolved_at: Option<i64>,
    /// Key-derivation salt for the market's own signing authority over its
    /// escrow account.
    pub bump: u8,
}

impl Market {
    /// Structural well-formedness of a single market record.
    pub open spec fn wf(self) -> bool {
        &&& self.teams@.len() == self.odds@.len()
        &&& self.teams@.len() >= 2
        &&& self.is_resolved <==> self.winning_team_index is Some
        &&& self.is_resolved <==> self.resolved_at is Some
        &&& self.winning_team_index is Some ==> (self.winning_team_index->0 as int)
            < self.teams@.len()
        &&& self.is_closed ==> self.is_resolved
    }

    /// Two markets collide exactly when both halves of their identity match.
    pub open spec fn same_identity(self, other: Market) -> bool {
        self.league_name@ == other.league_name@ && self.season@ == other.season@
    }
}

/// One participant's stake on one outcome of one market.
///
/// A bet is identified by its (participant, market) pair; the host derives a
/// collision-free storage key from that identity, so at most one bet can
/// exist per pair.
pub struct Bet {
    /// Identity of the participant who placed the bet and alone may claim
    /// its payout.
    pub user: u64,
    /// The market the bet is on.
    pub market: usize,
    /// The outcome the stake backs; a valid index into the market's lists.
    pub team_index: u8,
    /// Staked amount; positive and at most the market's maximum stake.
    pub amount: u64,
    /// Set once by `claim_payout`, never unset.
    pub claimed: bool,
    /// Payout fixed at stake time: `amount * odds[team_index]`.
    pub payout_amount: Option<u64>,
    /// Host clock reading at stake time.
    pub timestamp: i64,
    /// Host clock reading at claim time; present exactly once claimed.
    pub claimed_at: Option<i64>,
    /// Key-derivation salt of the bet record.
    pub bump: u8,
}

impl Bet {
    /// Well-formedness of a bet record relative to its market.
    pub open spec fn wf(self, m: Market) -> bool {
        &&& (self.team_index as int) < m.odds@.len()
        &&& self.amount > 0
        &&& self.amount <= m.max_stake_amount
        &&& self.payout_amount is Some
        &&& (self.payout_amount->0 as int) == (self.amount as int) * (m.odds@[
            self.team_index as int] as int)
        &&& self.claimed <==> self.claimed_at is Some
    }

    /// The payout owed to the bet if it wins, as a mathematical integer.
    pub open spec fn payout(self) -> int {
        self.payout_amount->0 as int
    }
}

} // verus!
