use vstd::prelude::*;

use crate::errors::SolscoreError;
use crate::escrow::contributes;
use crate::escrow::lemma_max_odds_ge;
use crate::escrow::lemma_max_odds_nonneg;
use crate::escrow::lemma_owed_absent;
use crate::escrow::lemma_owed_ge_contrib;
use crate::escrow::lemma_owed_push;
use crate::escrow::lemma_owed_update;
use crate::escrow::lemma_owed_winning_le_all;
use crate::escrow::max_odds;
use crate::escrow::owed;
use crate::state::Bet;
use crate::state::Market;

verus! {

/// The market escrow engine: every market, every bet, and each market's
/// escrow balance, as one verified state machine.
///
/// The host environment runs each call as a serialized, all-or-nothing unit
/// of work: it authenticates the caller identity it hands in, locates
/// records by their compound keys, reads the caller's ledger balance, and
/// performs the value transfer a successful call returns.  Markets and bets
/// are addressed by the position the engine assigned at creation, standing
/// for the host's derived storage keys.
pub struct Solscore {
    /// All market records, in order of creation.
    pub markets: Vec<Market>,
    /// `vaults[i]` is the escrow balance held for `markets[i]`.
    pub vaults: Vec<u64>,
    /// All bet records, in order of creation.
    pub bets: Vec<Bet>,
}

/// Whether a market with the identity (league, season) already exists: the
/// host's answer to a compound-key collision at market creation.
pub open spec fn market_exists(markets: Seq<Market>, league: Seq<char>, season: Seq<char>) -> bool {
    exists|i: int|
        0 <= i < markets.len() && (#[trigger] markets[i]).league_name@ == league
            && markets[i].season@ == season
}

/// Whether a bet keyed to (participant, market) already exists: the host's
/// answer to a compound-key collision at stake time.
pub open spec fn bet_exists(bets: Seq<Bet>, user: u64, mid: int) -> bool {
    exists|k: int|
        0 <= k < bets.len() && (#[trigger] bets[k]).user == user && bets[k].market as int == mid
}

/// The first check `close_market` fails on, or `None` when it succeeds.
pub open spec fn close_error(m: Market, caller: u64) -> Option<SolscoreError> {
    if caller != m.admin {
        Some(SolscoreError::Unauthorized)
    } else if !m.is_resolved {
        Some(SolscoreError::MarketNotResolved)
    } else if m.is_closed {
        Some(SolscoreError::MarketClosed)
    } else {
        None
    }
}

/// The upfront escrow reserve the bounded funding policy demands: one
/// maximal stake at the highest odds for every participant slot, the worst
/// case a full market can owe.
pub open spec fn init_reserve(odds: Seq<u64>, max_stake_amount: u64, allowed_bettors: u64) -> int {
    (max_stake_amount as int) * max_odds(odds) * (allowed_bettors as int)
}

/// The first check `initialize_market` fails on, or `None` when it
/// succeeds.
///
/// The reserve is computed stepwise with checked multiplication, so an
/// overflow of the intermediate `max_stake * max_odds` product is an error
/// even when a zero slot count would bring the full product back in range.
pub open spec fn init_error(
    s: Solscore,
    league_name: String,
    season: String,
    teams: Vec<String>,
    odds: Vec<u64>,
    max_stake_amount: u64,
    allowed_bettors: u64,
    admin_balance: u64,
) -> Option<SolscoreError> {
    if teams@.len() < 2 || odds@.len() < 2 {
        Some(SolscoreError::EmptyTeamsOrOdds)
    } else if teams@.len() != odds@.len() {
        Some(SolscoreError::TeamsAndOddsLengthMismatch)
    } else if market_exists(s.markets@, league_name@, season@) {
        Some(SolscoreError::MarketAlreadyExists)
    } else if (max_stake_amount as int) * max_odds(odds@) > u64::MAX || init_reserve(
        odds@,
        max_stake_amount,
        allowed_bettors,
    ) > u64::MAX {
        Some(SolscoreError::MathOverflow)
    } else if (admin_balance as int) < init_reserve(odds@, max_stake_amount, allowed_bettors) {
        Some(SolscoreError::InsufficientBalance)
    } else {
        None
    }
}

/// The payout a stake of `amount` on outcome `team_index` of market `m`
/// fixes at stake time: the stake times the odds at the chosen index.
pub open spec fn stake_payout(m: Market, team_index: u8, amount: u64) -> int {
    (amount as int) * (m.odds@[team_index as int] as int)
}

/// The first check `place_bet` fails on, or `None` when it succeeds.
///
/// The checks run in this order, so the first failing one names the error:
/// market still open for stakes, stake positive, a participant slot left,
/// stake within the market's cap, the participant's balance sufficient, the
/// outcome index valid for both lists, no bet yet for this (participant,
/// market) pair, and both the payout and the grown vault balance
/// representable.
pub open spec fn place_error(
    s: Solscore,
    market_id: int,
    user: u64,
    team_index: u8,
    amount: u64,
    user_balance: u64,
) -> Option<SolscoreError> {
    let m = s.markets@[market_id];
    if m.is_resolved {
        Some(SolscoreError::MarketResolved)
    } else if m.is_closed {
        Some(SolscoreError::MarketClosed)
    } else if amount == 0 {
        Some(SolscoreError::InvalidBetAmount)
    } else if m.allowed_bettors == 0 {
        Some(SolscoreError::MarketAllowedBettorsLimitExceeded)
    } else if amount > m.max_stake_amount {
        Some(SolscoreError::InvalidBetAmount)
    } else if user_balance < amount {
        Some(SolscoreError::InsufficientBalance)
    } else if m.teams@.len() <= team_index as int || m.odds@.len() <= team_index as int {
        Some(SolscoreError::InvalidTeamIndex)
    } else if bet_exists(s.bets@, user, market_id) {
        Some(SolscoreError::BetAlreadyExists)
    } else if stake_payout(m, team_index, amount) > u64::MAX {
        Some(SolscoreError::MathOverflow)
    } else if s.vaults@[market_id] as int + amount > u64::MAX {
        Some(SolscoreError::MathOverflow)
    } else {
        None
    }
}

/// The first check `claim_payout` fails on, or `None` when it succeeds.
pub open spec fn claim_error(m: Market, b: Bet, caller: u64) -> Option<SolscoreError> {
    if caller != b.user {
        Some(SolscoreError::Unauthorized)
    } else if !m.is_resolved {
        Some(SolscoreError::MarketNotResolved)
    } else if m.is_closed {
        Some(SolscoreError::MarketClosed)
    } else if b.claimed {
        Some(SolscoreError::BetClaimed)
    } else if b.team_index != m.winning_team_index->0 {
        Some(SolscoreError::BetNotWon)
    } else {
        None
    }
}

/// The first check `resolve_market` fails on, or `None` when it succeeds.
pub open spec fn resolve_error(m: Market, caller: u64, winning_team_index: u8) -> Option<
    SolscoreError,
> {
    if caller != m.admin {
        Some(SolscoreError::Unauthorized)
    } else if m.teams@.len() <= winning_team_index as int {
        Some(SolscoreError::InvalidTeamIndex)
    } else if m.is_resolved {
        Some(SolscoreError::MarketResolved)
    } else {
        None
    }
}

impl Solscore {
    /// The escrow sufficiency invariant for market `i`.
    ///
    /// Before resolution the vault covers everything the market's unclaimed
    /// bets could win, plus the worst case of every still-open participant
    /// slot; after resolution and until close it covers every unclaimed
    /// winning bet.  A closed market owes nothing: claims end at close.
    pub open spec fn vault_covers(self, i: int) -> bool {
        let m = self.markets@[i];
        if !m.is_resolved {
            self.vaults@[i] as int >= owed(self.bets@, i, None) + (m.allowed_bettors as int) * (
            m.max_stake_amount as int) * max_odds(m.odds@)
        } else if !m.is_closed {
            self.vaults@[i] as int >= owed(self.bets@, i, m.winning_team_index)
        } else {
            true
        }
    }

    /// Well-formedness of the whole engine state: every record is
    /// structurally sound, compound keys are collision-free, and every
    /// vault covers what its market owes.
    pub open spec fn wf(self) -> bool {
        &&& self.vaults@.len() == self.markets@.len()
        &&& forall|i: int|
            0 <= i < self.markets@.len() ==> (#[trigger] self.markets@[i]).wf()
        &&& forall|i: int, j: int|
            0 <= i < j < self.markets@.len() ==> !#[trigger] self.markets@[i].same_identity(
                self.markets@[j])
        &&& forall|k: int|
            0 <= k < self.bets@.len() ==> (#[trigger] self.bets@[k]).market < self.markets@.len()
        &&& forall|k: int|
            0 <= k < self.bets@.len() ==> (#[trigger] self.bets@[k]).wf(
                self.markets@[self.bets@[k].market as int])
        &&& forall|k: int, l: int|
            0 <= k < l < self.bets@.len() ==> !(#[trigger] self.bets@[k].user == #[trigger] self
                .bets@[l].user && self.bets@[k].market == self.bets@[l].market)
        &&& forall|i: int| 0 <= i < self.markets@.len() ==> #[trigger] self.vault_covers(i)
    }

    /// A fresh engine holds no markets, no vaults and no bets.
    pub fn new() -> (s: Solscore)
        ensures
            s.wf(),
            s.markets@.len() == 0,
            s.vaults@.len() == 0,
            s.bets@.len() == 0,
    {
        Solscore { markets: Vec::new(), vaults: Vec::new(), bets: Vec::new() }
    }

    /// Declare the winning outcome of a market.
    ///
    /// Only the market's administrator may resolve it, the index must name
    /// one of its outcomes, and a market can be resolved only once; the
    /// first failing check is the error, and an error leaves the engine
    /// untouched.  On success the market is marked resolved with the given
    /// winning index and resolution time; no value moves.
    pub fn resolve_market(
        &mut self,
        caller: u64,
        market_id: usize,
        winning_team_index: u8,
        now: i64,
    ) -> (r: Result<(), SolscoreError>)
        requires
            old(self).wf(),
            market_id < old(self).markets@.len(),
        ensures
            final(self).wf(),
            match r {
                Err(e) => {
                    &&& Some(e) == resolve_error(
                        old(self).markets@[market_id as int],
                        caller,
                        winning_team_index,
                    )
                    &&& *final(self) == *old(self)
                },
                Ok(_) => {
                    &&& resolve_error(
                        old(self).markets@[market_id as int],
                        caller,
                        winning_team_index,
                    ) is None
                    &&& final(self).markets@ == old(self).markets@.update(
                        market_id as int,
                        (Market {
                            is_resolved: true,
                            winning_team_index: Some(winning_team_index),
                            resolved_at: Some(now),
                            ..old(self).markets@[market_id as int]
                        }),
                    )
                    &&& final(self).vaults@ == old(self).vaults@
                    &&& final(self).bets@ == old(self).bets@
                },
            },
    {
        let m = &self.markets[market_id];
        if caller != m.admin {
            return Err(SolscoreError::Unauthorized);
        }
        if !((winning_team_index as usize) < m.teams.len()) {
            return Err(SolscoreError::InvalidTeamIndex);
        }
        if m.is_resolved {
            return Err(SolscoreError::MarketResolved);
        }
        let mslot = &mut self.markets[market_id];
        mslot.is_resolved = true;
        mslot.winning_team_index = Some(winning_team_index);
        mslot.resolved_at = Some(now);
        proof {
            let mid = market_id as int;
            let oldm = old(self).markets@[mid];
            assert forall|i: int| 0 <= i < self.markets@.len() implies (#[trigger] self.markets@[
            i]).wf() by {
                assert(old(self).markets@[i].wf());
            }
            assert forall|i: int, j: int|
                0 <= i < j < self.markets@.len() implies !#[trigger] self.markets@[
            i].same_identity(self.markets@[j]) by {
                assert(!old(self).markets@[i].same_identity(old(self).markets@[j]));
            }
            assert forall|k: int|
                0 <= k < self.bets@.len() implies (#[trigger] self.bets@[k]).wf(
                self.markets@[self.bets@[k].market as int],
            ) by {
                assert(old(self).bets@[k].wf(old(self).markets@[old(self).bets@[k].market as int]));
            }
            assert forall|i: int| 0 <= i < self.markets@.len() implies #[trigger] self.vault_covers(
                i,
            ) by {
                assert(old(self).vault_covers(i));
                if i == mid {
                    lemma_owed_winning_le_all(self.bets@, i, winning_team_index);
                    lemma_max_odds_nonneg(oldm.odds@);
                    assert((oldm.allowed_bettors as int) * (oldm.max_stake_amount as int)
                        * max_odds(oldm.odds@) >= 0) by (nonlinear_arith)
                        requires
                            max_odds(oldm.odds@) >= 0,
                    ;
                }
            }
        }
        Ok(())
    }

    /// Close a resolved market and drain its remaining escrow.
    ///
    /// Only the market's administrator may close it, only after resolution,
    /// and only once; the first failing check is the error, and an error
    /// leaves the engine untouched.  On success the whole remaining vault
    /// balance is returned for the host to credit to the administrator, the
    /// vault drops to zero, and the market is marked closed; no further
    /// stake, resolution or claim can touch it.
    pub fn close_market(&mut self, caller: u64, market_id: usize) -> (r: Result<
        u64,
        SolscoreError,
    >)
        requires
            old(self).wf(),
            market_id < old(self).markets@.len(),
        ensures
            final(self).wf(),
            match r {
                Err(e) => {
                    &&& Some(e) == close_error(old(self).markets@[market_id as int], caller)
                    &&& *final(self) == *old(self)
                },
                Ok(residual) => {
                    &&& close_error(old(self).markets@[market_id as int], caller) is None
                    &&& residual == old(self).vaults@[market_id as int]
                    &&& final(self).markets@ == old(self).markets@.update(
                        market_id as int,
                        (Market { is_closed: true, ..old(self).markets@[market_id as int] }),
                    )
                    &&& final(self).vaults@ == old(self).vaults@.update(market_id as int, 0u64)
                    &&& final(self).bets@ == old(self).bets@
                },
            },
    {
        let m = &self.markets[market_id];
        if caller != m.admin {
            return Err(SolscoreError::Unauthorized);
        }
        if !m.is_resolved {
            return Err(SolscoreError::MarketNotResolved);
        }
        if m.is_closed {
            return Err(SolscoreError::MarketClosed);
        }
        let residual = self.vaults[market_id];
        let vslot = &mut self.vaults[market_id];
        *vslot = 0;
        let mslot = &mut self.markets[market_id];
        mslot.is_closed = true;
        proof {
            assert forall|i: int| 0 <= i < self.markets@.len() implies (#[trigger] self.markets@[
            i]).wf() by {
                assert(old(self).markets@[i].wf());
            }
            assert forall|i: int, j: int|
                0 <= i < j < self.markets@.len() implies !#[trigger] self.markets@[
            i].same_identity(self.markets@[j]) by {
                assert(!old(self).markets@[i].same_identity(old(self).markets@[j]));
            }
            assert forall|k: int|
                0 <= k < self.bets@.len() implies (#[trigger] self.bets@[k]).wf(
                self.markets@[self.bets@[k].market as int],
            ) by {
                assert(old(self).bets@[k].wf(old(self).markets@[old(self).bets@[k].market as int]));
            }
            assert forall|i: int| 0 <= i < self.markets@.len() implies #[trigger] self.vault_covers(
                i,
            ) by {
                assert(old(self).vault_covers(i));
            }
        }
        Ok(residual)
    }

    /// Open a new market together with its pre-funded escrow account.
    ///
    /// The outcome and odds lists must both hold at least two entries and
    /// be of equal length, and no market with the same (league, season)
    /// identity may exist yet; the first failing check is the error, and an
    /// error leaves the engine untouched.  On success the worst-case
    /// reserve `max_stake * max(odds) * slots` is computed with checked
    /// multiplication, the administrator's balance must cover it, and the
    /// host moves that reserve into the new vault: a later winning claim
    /// can then never exceed the escrow.  Returns the new market's
    /// identifier and the reserve that was escrowed.
    #[verifier::loop_isolation(false)]
    pub fn initialize_market(
        &mut self,
        admin: u64,
        league_name: String,
        season: String,
        teams: Vec<String>,
        odds: Vec<u64>,
        max_stake_amount: u64,
        allowed_bettors: u64,
        admin_balance: u64,
        now: i64,
        bump: u8,
    ) -> (r: Result<(usize, u64), SolscoreError>)
        requires
            old(self).wf(),
        ensures
            final(self).wf(),
            match r {
                Err(e) => {
                    &&& Some(e) == init_error(
                        *old(self),
                        league_name,
                        season,
                        teams,
                        odds,
                        max_stake_amount,
                        allowed_bettors,
                        admin_balance,
                    )
                    &&& *final(self) == *old(self)
                },
                Ok((mid, reserve)) => {
                    &&& init_error(
                        *old(self),
                        league_name,
                        season,
                        teams,
                        odds,
                        max_stake_amount,
                        allowed_bettors,
                        admin_balance,
                    ) is None
                    &&& mid == old(self).markets@.len()
                    &&& reserve as int == init_reserve(odds@, max_stake_amount, allowed_bettors)
                    &&& final(self).markets@ == old(self).markets@.push(
                        (Market {
                            admin,
                            league_name,
                            season,
                            teams,
                            odds,
                            is_resolved: false,
                            winning_team_index: None,
                            max_stake_amount,
                            allowed_bettors,
                            is_closed: false,
                            created_at: now,
                            resolved_at: None,
                            bump,
                        }),
                    )
                    &&& final(self).vaults@ == old(self).vaults@.push(reserve)
                    &&& final(self).bets@ == old(self).bets@
                },
            },
    {
        if teams.len() < 2 || odds.len() < 2 {
            return Err(SolscoreError::EmptyTeamsOrOdds);
        }
        if teams.len() != odds.len() {
            return Err(SolscoreError::TeamsAndOddsLengthMismatch);
        }
        let nm = self.markets.len();
        let mut i: usize = 0;
        while i < nm
            invariant
                i <= nm,
                forall|j: int|
                    0 <= j < i ==> !((#[trigger] self.markets@[j]).league_name@ == league_name@
                        && self.markets@[j].season@ == season@),
            decreases nm - i,
        {
            let mi = &self.markets[i];
            if mi.league_name == league_name && mi.season == season {
                return Err(SolscoreError::MarketAlreadyExists);
            }
            i += 1;
        }
        let mut highest: u64 = 0;
        let mut j: usize = 0;
        while j < odds.len()
            invariant
                j <= odds@.len(),
                highest as int == max_odds(odds@.take(j as int)),
            decreases odds@.len() - j,
        {
            let o = odds[j];
            proof {
                assert(odds@.take(j as int + 1).drop_last() =~= odds@.take(j as int));
            }
            if o > highest {
                highest = o;
            }
            j += 1;
        }
        proof {
            assert(odds@.take(odds@.len() as int) =~= odds@);
        }
        let r1 = match max_stake_amount.checked_mul(highest) {
            Some(v) => v,
            None => {
                return Err(SolscoreError::MathOverflow);
            },
        };
        let reserve = match r1.checked_mul(allowed_bettors) {
            Some(v) => v,
            None => {
                return Err(SolscoreError::MathOverflow);
            },
        };
        if admin_balance < reserve {
            return Err(SolscoreError::InsufficientBalance);
        }
        let mid = self.markets.len();
        let market = Market {
            admin,
            league_name,
            season,
            teams,
            odds,
            is_resolved: false,
            winning_team_index: None,
            max_stake_amount,
            allowed_bettors,
            is_closed: false,
            created_at: now,
            resolved_at: None,
            bump,
        };
        self.markets.push(market);
        self.vaults.push(reserve);
        proof {
            let midi = mid as int;
            let newm = self.markets@[midi];
            assert forall|i2: int| 0 <= i2 < self.markets@.len() implies (#[trigger] self.markets@[
            i2]).wf() by {
                if i2 < old(self).markets@.len() {
                    assert(old(self).markets@[i2].wf());
                }
            }
            assert forall|i2: int, j2: int|
                0 <= i2 < j2 < self.markets@.len() implies !#[trigger] self.markets@[
            i2].same_identity(self.markets@[j2]) by {
                if j2 < old(self).markets@.len() {
                    assert(!old(self).markets@[i2].same_identity(old(self).markets@[j2]));
                }
            }
            assert forall|k: int|
                0 <= k < self.bets@.len() implies (#[trigger] self.bets@[k]).wf(
                self.markets@[self.bets@[k].market as int],
            ) by {
                assert(old(self).bets@[k].wf(old(self).markets@[old(self).bets@[k].market as int]));
            }
            assert forall|i2: int|
                0 <= i2 < self.markets@.len() implies #[trigger] self.vault_covers(i2) by {
                if i2 < old(self).markets@.len() {
                    assert(old(self).vault_covers(i2));
                } else {
                    lemma_owed_absent(self.bets@, midi, None);
                    let ms = max_stake_amount as int;
                    let mo = max_odds(odds@);
                    let ab = allowed_bettors as int;
                    assert(ms * mo * ab == ab * ms * mo) by (nonlinear_arith);
                }
            }
        }
        Ok((mid, reserve))
    }

    /// Stake `amount` on outcome `team_index` of a market.
    ///
    /// The stake is accepted only while the market is unresolved and open,
    /// for a positive amount within the market's cap, while a participant
    /// slot remains, when the participant's ledger balance covers the
    /// stake, for a valid outcome index, and when no bet for this
    /// (participant, market) pair exists yet; the first failing check is
    /// the error, and an error leaves the engine untouched.  On success a
    /// bet record is created with its payout fixed at `amount *
    /// odds[team_index]` (checked multiplication), the host moves the stake
    /// into the vault, and one participant slot is consumed.
    #[verifier::loop_isolation(false)]
    pub fn place_bet(
        &mut self,
        user: u64,
        market_id: usize,
        team_index: u8,
        amount: u64,
        user_balance: u64,
        now: i64,
        bump: u8,
    ) -> (r: Result<usize, SolscoreError>)
        requires
            old(self).wf(),
            market_id < old(self).markets@.len(),
        ensures
            final(self).wf(),
            match r {
                Err(e) => {
                    &&& Some(e) == place_error(
                        *old(self),
                        market_id as int,
                        user,
                        team_index,
                        amount,
                        user_balance,
                    )
                    &&& *final(self) == *old(self)
                },
                Ok(bid) => {
                    &&& place_error(
                        *old(self),
                        market_id as int,
                        user,
                        team_index,
                        amount,
                        user_balance,
                    ) is None
                    &&& bid == old(self).bets@.len()
                    &&& final(self).bets@ == old(self).bets@.push(
                        (Bet {
                            user,
                            market: market_id,
                            team_index,
                            amount,
                            claimed: false,
                            payout_amount: Some(
                                stake_payout(
                                    old(self).markets@[market_id as int],
                                    team_index,
                                    amount,
                                ) as u64,
                            ),
                            timestamp: now,
                            claimed_at: None,
                            bump,
                        }),
                    )
                    &&& final(self).vaults@ == old(self).vaults@.update(
                        market_id as int,
                        (old(self).vaults@[market_id as int] + amount) as u64,
                    )
                    &&& final(self).markets@ == old(self).markets@.update(
                        market_id as int,
                        (Market {
                            allowed_bettors: (old(self).markets@[market_id as int].allowed_bettors
                                - 1) as u64,
                            ..old(self).markets@[market_id as int]
                        }),
                    )
                },
            },
    {
        let m = &self.markets[market_id];
        if m.is_resolved {
            return Err(SolscoreError::MarketResolved);
        }
        if m.is_closed {
            return Err(SolscoreError::MarketClosed);
        }
        if amount == 0 {
            return Err(SolscoreError::InvalidBetAmount);
        }
        if m.allowed_bettors == 0 {
            return Err(SolscoreError::MarketAllowedBettorsLimitExceeded);
        }
        if amount > m.max_stake_amount {
            return Err(SolscoreError::InvalidBetAmount);
        }
        if user_balance < amount {
            return Err(SolscoreError::InsufficientBalance);
        }
        if !((team_index as usize) < m.teams.len()) {
            return Err(SolscoreError::InvalidTeamIndex);
        }
        if !((team_index as usize) < m.odds.len()) {
            return Err(SolscoreError::InvalidTeamIndex);
        }
        let odds_val = m.odds[team_index as usize];
        let n = self.bets.len();
        let mut k: usize = 0;
        while k < n
            invariant
                k <= n,
                forall|j: int|
                    0 <= j < k ==> !((#[trigger] self.bets@[j]).user == user && self.bets@[
                    j].market == market_id),
            decreases n - k,
        {
            let b = &self.bets[k];
            if b.user == user && b.market == market_id {
                return Err(SolscoreError::BetAlreadyExists);
            }
            k += 1;
        }
        let payout = match amount.checked_mul(odds_val) {
            Some(p) => p,
            None => {
                return Err(SolscoreError::MathOverflow);
            },
        };
        let vault = self.vaults[market_id];
        let new_vault = match vault.checked_add(amount) {
            Some(v) => v,
            None => {
                return Err(SolscoreError::MathOverflow);
            },
        };
        let bet_id = self.bets.len();
        let bet = Bet {
            user,
            market: market_id,
            team_index,
            amount,
            claimed: false,
            payout_amount: Some(payout),
            timestamp: now,
            claimed_at: None,
            bump,
        };
        self.bets.push(bet);
        let vslot = &mut self.vaults[market_id];
        *vslot = new_vault;
        let mslot = &mut self.markets[market_id];
        mslot.allowed_bettors = mslot.allowed_bettors - 1;
        proof {
            let mid = market_id as int;
            let oldm = old(self).markets@[mid];
            let newb = self.bets@[bet_id as int];
            assert forall|i: int| 0 <= i < self.markets@.len() implies (#[trigger] self.markets@[
            i]).wf() by {
                assert(old(self).markets@[i].wf());
            }
            assert forall|i: int, j: int|
                0 <= i < j < self.markets@.len() implies !#[trigger] self.markets@[
            i].same_identity(self.markets@[j]) by {
                assert(!old(self).markets@[i].same_identity(old(self).markets@[j]));
            }
            assert forall|k2: int|
                0 <= k2 < self.bets@.len() implies (#[trigger] self.bets@[k2]).wf(
                self.markets@[self.bets@[k2].market as int],
            ) by {
                if k2 < old(self).bets@.len() {
                    assert(old(self).bets@[k2].wf(
                        old(self).markets@[old(self).bets@[k2].market as int],
                    ));
                }
            }
            assert forall|k2: int, l: int|
                0 <= k2 < l < self.bets@.len() implies !(#[trigger] self.bets@[k2].user
                == #[trigger] self.bets@[l].user && self.bets@[k2].market
                == self.bets@[l].market) by {
                if l < old(self).bets@.len() {
                    assert(!(old(self).bets@[k2].user == old(self).bets@[l].user && old(
                        self,
                    ).bets@[k2].market == old(self).bets@[l].market));
                }
            }
            assert forall|i: int| 0 <= i < self.markets@.len() implies #[trigger] self.vault_covers(
                i,
            ) by {
                assert(old(self).vault_covers(i));
                lemma_owed_push(old(self).bets@, newb, i, None);
                lemma_owed_push(old(self).bets@, newb, i, self.markets@[i].winning_team_index);
                if i == mid {
                    lemma_max_odds_ge(oldm.odds@, team_index as int);
                    lemma_max_odds_nonneg(oldm.odds@);
                    let a = oldm.allowed_bettors as int;
                    let ms = oldm.max_stake_amount as int;
                    let mo = max_odds(oldm.odds@);
                    let od = oldm.odds@[team_index as int] as int;
                    let ow = owed(old(self).bets@, mid, None);
                    let ow2 = owed(self.bets@, mid, None);
                    assert(new_vault as int >= ow2 + (a - 1) * ms * mo) by (nonlinear_arith)
                        requires
                            new_vault as int == vault as int + amount as int,
                            vault as int >= ow + a * ms * mo,
                            ow2 == ow + amount as int * od,
                            amount as int <= ms,
                            od <= mo,
                            0 <= amount as int,
                            0 <= od,
                            0 <= mo,
                            0 <= ms,
                            1 <= a,
                    ;
                }
            }
        }
        Ok(bet_id)
    }

    /// Pay out a winning bet from its market's escrow.
    ///
    /// Only the bet's owner may claim, only once the market is resolved and
    /// not yet closed, only once per bet, and only when the bet backed the
    /// winning outcome; the first failing check is the error, and an error
    /// leaves the engine untouched.  On success the bet's pre-computed
    /// payout is returned for the host to move from the vault to the
    /// participant, and the bet is marked claimed.  The escrow sufficiency
    /// invariant guarantees the vault can always fund the payout, so the
    /// subtraction needs no further check.
    pub fn claim_payout(&mut self, caller: u64, market_id: usize, bet_id: usize, now: i64) -> (r:
        Result<u64, SolscoreError>)
        requires
            old(self).wf(),
            market_id < old(self).markets@.len(),
            bet_id < old(self).bets@.len(),
            old(self).bets@[bet_id as int].market == market_id,
        ensures
            final(self).wf(),
            match r {
                Err(e) => {
                    &&& Some(e) == claim_error(
                        old(self).markets@[market_id as int],
                        old(self).bets@[bet_id as int],
                        caller,
                    )
                    &&& *final(self) == *old(self)
                },
                Ok(p) => {
                    &&& claim_error(
                        old(self).markets@[market_id as int],
                        old(self).bets@[bet_id as int],
                        caller,
                    ) is None
                    &&& p as int == old(self).bets@[bet_id as int].payout()
                    &&& final(self).bets@ == old(self).bets@.update(
                        bet_id as int,
                        (Bet {
                            claimed: true,
                            claimed_at: Some(now),
                            ..old(self).bets@[bet_id as int]
                        }),
                    )
                    &&& final(self).vaults@ == old(self).vaults@.update(
                        market_id as int,
                        (old(self).vaults@[market_id as int] - p) as u64,
                    )
                    &&& final(self).markets@ == old(self).markets@
                },
            },
    {
        let b = &self.bets[bet_id];
        let m = &self.markets[market_id];
        if caller != b.user {
            return Err(SolscoreError::Unauthorized);
        }
        if !m.is_resolved {
            return Err(SolscoreError::MarketNotResolved);
        }
        if m.is_closed {
            return Err(SolscoreError::MarketClosed);
        }
        if b.claimed {
            return Err(SolscoreError::BetClaimed);
        }
        let w = m.winning_team_index.unwrap();
        if b.team_index != w {
            return Err(SolscoreError::BetNotWon);
        }
        let payout = b.payout_amount.unwrap();
        proof {
            let mid = market_id as int;
            let sel = old(self).markets@[mid].winning_team_index;
            assert(self.vault_covers(mid));
            assert(contributes(self.bets@[bet_id as int], mid, sel));
            lemma_owed_ge_contrib(self.bets@, bet_id as int, mid, sel);
        }
        let vault = self.vaults[market_id];
        let vslot = &mut self.vaults[market_id];
        *vslot = vault - payout;
        let bslot = &mut self.bets[bet_id];
        bslot.claimed = true;
        bslot.claimed_at = Some(now);
        proof {
            let mid = market_id as int;
            let bid = bet_id as int;
            let newb = self.bets@[bid];
            assert forall|k: int|
                0 <= k < self.bets@.len() implies (#[trigger] self.bets@[k]).wf(
                self.markets@[self.bets@[k].market as int],
            ) by {
                assert(old(self).bets@[k].wf(old(self).markets@[old(self).bets@[k].market as int]));
            }
            assert forall|k: int, l: int|
                0 <= k < l < self.bets@.len() implies !(#[trigger] self.bets@[k].user
                == #[trigger] self.bets@[l].user && self.bets@[k].market
                == self.bets@[l].market) by {
                assert(!(old(self).bets@[k].user == old(self).bets@[l].user && old(self).bets@[
                k].market == old(self).bets@[l].market));
            }
            assert forall|i: int| 0 <= i < self.markets@.len() implies #[trigger] self.vault_covers(
                i,
            ) by {
                assert(old(self).vault_covers(i));
                lemma_owed_update(old(self).bets@, bid, newb, i, None);
                lemma_owed_update(old(self).bets@, bid, newb, i, self.markets@[
                    i].winning_team_index);
            }
        }
        Ok(payout)
    }
}

} // verus!
