use vstd::prelude::*;

use crate::state::Bet;

verus! {

/// Largest odds multiplier in the list, or 0 for an empty list.
///
/// Under the bounded funding policy a market's escrow is pre-funded with
/// `max_stake * max_odds * slots`, the worst case a full market can owe.
pub open spec fn max_odds(odds: Seq<u64>) -> int
    decreases odds.len(),
{
    if odds.len() == 0 {
        0
    } else {
        let rest = max_odds(odds.drop_last());
        if odds.last() as int > rest {
            odds.last() as int
        } else {
            rest
        }
    }
}

/// Every entry of the list is at most its maximum.
pub proof fn lemma_max_odds_ge(odds: Seq<u64>, i: int)
    requires
        0 <= i < odds.len(),
    ensures
        odds[i] as int <= max_odds(odds),
    decreases odds.len(),
{
    if i < odds.len() - 1 {
        lemma_max_odds_ge(odds.drop_last(), i);
    }
}

/// The maximum of a list of unsigned values is never negative.
pub proof fn lemma_max_odds_nonneg(odds: Seq<u64>)
    ensures
        max_odds(odds) >= 0,
    decreases odds.len(),
{
    if odds.len() > 0 {
        lemma_max_odds_nonneg(odds.drop_last());
    }
}

/// Whether bet `b` is part of what market `mid` still owes: a bet on that
/// market, not yet claimed, and — when `sel` names the winning outcome of a
/// resolved market — a bet backing that outcome.  `sel` of `None` selects
/// the unclaimed bets of every outcome, the relevant notion before
/// resolution.
pub open spec fn contributes(b: Bet, mid: int, sel: Option<u8>) -> bool {
    &&& b.market as int == mid
    &&& !b.claimed
    &&& sel is Some ==> b.team_index == sel->0
}

/// What bet `b` adds to the amount market `mid` still owes.
pub open spec fn share(b: Bet, mid: int, sel: Option<u8>) -> int {
    if contributes(b, mid, sel) {
        b.payout()
    } else {
        0
    }
}

/// Total payout still owed by market `mid` to the bets that `sel` selects.
pub open spec fn owed(bets: Seq<Bet>, mid: int, sel: Option<u8>) -> int
    decreases bets.len(),
{
    if bets.len() == 0 {
        0
    } else {
        owed(bets.drop_last(), mid, sel) + share(bets.last(), mid, sel)
    }
}

/// An owed total is a sum of unsigned payouts, so never negative.
pub proof fn lemma_owed_nonneg(bets: Seq<Bet>, mid: int, sel: Option<u8>)
    ensures
        owed(bets, mid, sel) >= 0,
    decreases bets.len(),
{
    if bets.len() > 0 {
        lemma_owed_nonneg(bets.drop_last(), mid, sel);
    }
}

/// Appending a bet adds exactly that bet's contribution to the owed total.
pub proof fn lemma_owed_push(bets: Seq<Bet>, b: Bet, mid: int, sel: Option<u8>)
    ensures
        owed(bets.push(b), mid, sel) == owed(bets, mid, sel) + share(b, mid, sel),
{
    assert(bets.push(b).drop_last() =~= bets);
}

/// Replacing the bet at `k` shifts the owed total by the difference of the
/// two contributions.
pub proof fn lemma_owed_update(bets: Seq<Bet>, k: int, b2: Bet, mid: int, sel: Option<u8>)
    requires
        0 <= k < bets.len(),
    ensures
        owed(bets.update(k, b2), mid, sel) == owed(bets, mid, sel) - share(bets[k], mid, sel)
            + share(b2, mid, sel),
    decreases bets.len(),
{
    let s2 = bets.update(k, b2);
    if k == bets.len() - 1 {
        assert(s2.drop_last() =~= bets.drop_last());
    } else {
        assert(s2.drop_last() =~= bets.drop_last().update(k, b2));
        lemma_owed_update(bets.drop_last(), k, b2, mid, sel);
    }
}

/// A market no bet refers to owes nothing.
pub proof fn lemma_owed_absent(bets: Seq<Bet>, mid: int, sel: Option<u8>)
    requires
        forall|k: int| 0 <= k < bets.len() ==> (#[trigger] bets[k]).market as int != mid,
    ensures
        owed(bets, mid, sel) == 0,
    decreases bets.len(),
{
    if bets.len() > 0 {
        lemma_owed_absent(bets.drop_last(), mid, sel);
    }
}

/// Restricting the owed total to one outcome can only shrink it.
pub proof fn lemma_owed_winning_le_all(bets: Seq<Bet>, mid: int, w: u8)
    ensures
        owed(bets, mid, Some(w)) <= owed(bets, mid, None),
    decreases bets.len(),
{
    if bets.len() > 0 {
        lemma_owed_winning_le_all(bets.drop_last(), mid, w);
    }
}

/// A single selected bet never exceeds the owed total it is part of.
pub proof fn lemma_owed_ge_contrib(bets: Seq<Bet>, k: int, mid: int, sel: Option<u8>)
    requires
        0 <= k < bets.len(),
        contributes(bets[k], mid, sel),
    ensures
        owed(bets, mid, sel) >= bets[k].payout(),
    decreases bets.len(),
{
    if k == bets.len() - 1 {
        lemma_owed_nonneg(bets.drop_last(), mid, sel);
    } else {
        lemma_owed_ge_contrib(bets.drop_last(), k, mid, sel);
    }
}

} // verus!
