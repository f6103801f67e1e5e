use vstd::prelude::*;

use crate::engine::claim_error;
use crate::engine::resolve_error;
use crate::engine::Solscore;
use crate::escrow::lemma_max_odds_nonneg;
use crate::escrow::max_odds;
use crate::escrow::owed;
use crate::state::Bet;
use crate::state::Market;

verus! {

/// Every market of a well-formed engine carries exactly one odds entry per
/// outcome, and at least two of each; `initialize_market` rejects anything
/// else, so no other market can ever be observed.
pub proof fn lemma_market_lists_well_formed(s: Solscore, i: int)
    requires
        s.wf(),
        0 <= i < s.markets@.len(),
    ensures
        s.markets@[i].teams@.len() == s.markets@[i].odds@.len(),
        s.markets@[i].teams@.len() >= 2,
{
    assert(s.markets@[i].wf());
}

/// Every bet of a well-formed engine carries the payout that was fixed at
/// stake time: its amount times the market's odds at its chosen outcome.
pub proof fn lemma_bet_payout_fixed(s: Solscore, k: int)
    requires
        s.wf(),
        0 <= k < s.bets@.len(),
    ensures
        s.bets@[k].payout_amount is Some,
        s.bets@[k].payout() == (s.bets@[k].amount as int) * (s.markets@[s.bets@[k].market as int].odds@[s.bets@[k].team_index as int] as int),
{
    assert(s.bets@[k].wf(s.markets@[s.bets@[k].market as int]));
}

/// At most one bet exists per (participant, market) pair: two distinct bet
/// records never share both their owner and their market.
pub proof fn lemma_one_bet_per_pair(s: Solscore, k: int, l: int)
    requires
        s.wf(),
        0 <= k < s.bets@.len(),
        0 <= l < s.bets@.len(),
        k != l,
    ensures
        !(s.bets@[k].user == s.bets@[l].user && s.bets@[k].market == s.bets@[l].market),
{
    if k < l {
        assert(!(s.bets@[k].user == s.bets@[l].user && s.bets@[k].market == s.bets@[l].market));
    } else {
        assert(!(s.bets@[l].user == s.bets@[k].user && s.bets@[l].market == s.bets@[k].market));
    }
}

/// Once a market is resolved and until it is closed, its vault covers every
/// payout still owed to its unclaimed winning bets, so `claim_payout` can
/// always fund a rightful claim out of escrow.
pub proof fn lemma_escrow_covers_winning_claims(s: Solscore, i: int)
    requires
        s.wf(),
        0 <= i < s.markets@.len(),
        s.markets@[i].is_resolved,
        !s.markets@[i].is_closed,
    ensures
        s.vaults@[i] as int >= owed(s.bets@, i, s.markets@[i].winning_team_index),
{
    assert(s.vault_covers(i));
}

/// Before resolution, a market's vault already covers every payout its
/// unclaimed bets could win, whichever outcome is later declared: the
/// pre-funded reserve never lets the pool fall behind the stakes it
/// accepted.
pub proof fn lemma_escrow_covers_open_market(s: Solscore, i: int)
    requires
        s.wf(),
        0 <= i < s.markets@.len(),
        !s.markets@[i].is_resolved,
    ensures
        s.vaults@[i] as int >= owed(s.bets@, i, None),
{
    let m = s.markets@[i];
    assert(s.vault_covers(i));
    lemma_max_odds_nonneg(m.odds@);
    assert((m.allowed_bettors as int) * (m.max_stake_amount as int) * max_odds(m.odds@) >= 0)
        by (nonlinear_arith)
        requires
            max_odds(m.odds@) >= 0,
    ;
}

/// A bet can be claimed at most once: as soon as its claimed flag is set,
/// every further claim attempt fails, whoever makes it, so value is never
/// transferred for the same bet twice.
pub proof fn lemma_claimed_bet_stays_rejected(m: Market, b: Bet, caller: u64)
    requires
        b.claimed,
    ensures
        claim_error(m, b, caller) is Some,
{
}

/// A losing bet can never be claimed for value, even after resolution:
/// when the bet's outcome differs from the winning one, every claim
/// attempt fails, whoever makes it.
pub proof fn lemma_losing_bet_never_claimable(m: Market, b: Bet, caller: u64)
    requires
        m.winning_team_index is Some,
        b.team_index != m.winning_team_index->0,
    ensures
        claim_error(m, b, caller) is Some,
{
}

/// A market can be resolved at most once: a resolved market rejects every
/// further resolution attempt, whoever makes it and whatever the index.
pub proof fn lemma_resolved_market_stays_resolved(m: Market, caller: u64, winning_team_index: u8)
    requires
        m.is_resolved,
    ensures
        resolve_error(m, caller, winning_team_index) is Some,
{
}

} // verus!
