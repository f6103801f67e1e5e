use solscore::engine::Solscore;
use solscore::errors::SolscoreError;

const ADMIN: u64 = 7;
const ALICE: u64 = 10;
const BOB: u64 = 11;
const CAROL: u64 = 12;

/// Opens the market of the reference scenario: outcomes ["A", "B"], odds
/// [2, 3], bounded policy with max_stake = 100 and 2 participant slots, so
/// the upfront reserve is 100 * 3 * 2 = 600.
fn open_reference_market(s: &mut Solscore) -> usize {
    let r = s.initialize_market(
        ADMIN,
        "NBA".to_string(),
        "2024".to_string(),
        vec!["A".to_string(), "B".to_string()],
        vec![2, 3],
        100,
        2,
        600,
        0,
        255,
    );
    let (mid, reserve) = r.expect("opening the reference market must succeed");
    assert_eq!(reserve, 600);
    mid
}

#[test]
fn open_returns_fresh_market_id_and_reserve() {
    let mut s = Solscore::new();
    let mid = open_reference_market(&mut s);
    assert_eq!(mid, 0);
    assert_eq!(s.markets.len(), 1);
    assert_eq!(s.vaults[0], 600);
    assert!(!s.markets[0].is_resolved);
    assert!(!s.markets[0].is_closed);
    assert_eq!(s.markets[0].allowed_bettors, 2);
    assert_eq!(s.markets[0].winning_team_index, None);
}

#[test]
fn open_rejects_empty_lists() {
    let mut s = Solscore::new();
    let r = s.initialize_market(
        ADMIN,
        "L".to_string(),
        "S".to_string(),
        vec![],
        vec![],
        100,
        2,
        600,
        0,
        255,
    );
    assert_eq!(r, Err(SolscoreError::EmptyTeamsOrOdds));
    let r = s.initialize_market(
        ADMIN,
        "L".to_string(),
        "S".to_string(),
        vec!["A".to_string()],
        vec![2],
        100,
        2,
        600,
        0,
        255,
    );
    assert_eq!(r, Err(SolscoreError::EmptyTeamsOrOdds));
    assert_eq!(s.markets.len(), 0);
}

#[test]
fn open_rejects_mismatched_lists() {
    let mut s = Solscore::new();
    let r = s.initialize_market(
        ADMIN,
        "L".to_string(),
        "S".to_string(),
        vec!["A".to_string(), "B".to_string()],
        vec![2, 3, 4],
        100,
        2,
        1000,
        0,
        255,
    );
    assert_eq!(r, Err(SolscoreError::TeamsAndOddsLengthMismatch));
    assert_eq!(s.markets.len(), 0);
}

#[test]
fn open_rejects_duplicate_identity() {
    let mut s = Solscore::new();
    open_reference_market(&mut s);
    let r = s.initialize_market(
        ADMIN,
        "NBA".to_string(),
        "2024".to_string(),
        vec!["X".to_string(), "Y".to_string()],
        vec![5, 5],
        1,
        1,
        5,
        0,
        255,
    );
    assert_eq!(r, Err(SolscoreError::MarketAlreadyExists));
    assert_eq!(s.markets.len(), 1);
    let r = s.initialize_market(
        ADMIN,
        "NBA".to_string(),
        "2025".to_string(),
        vec!["X".to_string(), "Y".to_string()],
        vec![5, 5],
        1,
        1,
        5,
        0,
        255,
    );
    assert_eq!(r, Ok((1, 5)));
}

#[test]
fn open_rejects_underfunded_admin() {
    let mut s = Solscore::new();
    let r = s.initialize_market(
        ADMIN,
        "NBA".to_string(),
        "2024".to_string(),
        vec!["A".to_string(), "B".to_string()],
        vec![2, 3],
        100,
        2,
        599,
        0,
        255,
    );
    assert_eq!(r, Err(SolscoreError::InsufficientBalance));
    assert_eq!(s.markets.len(), 0);
}

#[test]
fn open_rejects_reserve_overflow() {
    let mut s = Solscore::new();
    let r = s.initialize_market(
        ADMIN,
        "NBA".to_string(),
        "2024".to_string(),
        vec!["A".to_string(), "B".to_string()],
        vec![1, 2],
        u64::MAX,
        1,
        u64::MAX,
        0,
        255,
    );
    assert_eq!(r, Err(SolscoreError::MathOverflow));
    assert_eq!(s.markets.len(), 0);
}

#[test]
fn payout_is_amount_times_odds() {
    let mut s = Solscore::new();
    let mid = open_reference_market(&mut s);
    let bid = s.place_bet(ALICE, mid, 1, 100, 100, 1, 254).expect("stake must be accepted");
    assert_eq!(s.bets[bid].payout_amount, Some(300));
    assert_eq!(s.bets[bid].amount, 100);
    assert_eq!(s.vaults[mid], 700);
    assert_eq!(s.markets[mid].allowed_bettors, 1);
}

#[test]
fn stake_rejected_when_vault_cannot_grow() {
    let mut s = Solscore::new();
    let r = s.initialize_market(
        ADMIN,
        "NBA".to_string(),
        "2024".to_string(),
        vec!["A".to_string(), "B".to_string()],
        vec![1, 1],
        u64::MAX,
        1,
        u64::MAX,
        0,
        255,
    );
    assert_eq!(r, Ok((0, u64::MAX)));
    let r = s.place_bet(ALICE, 0, 0, 1, 1, 1, 254);
    assert_eq!(r, Err(SolscoreError::MathOverflow));
    assert_eq!(s.bets.len(), 0);
    assert_eq!(s.vaults[0], u64::MAX);
}

#[test]
fn stake_rejected_after_resolution() {
    let mut s = Solscore::new();
    let mid = open_reference_market(&mut s);
    s.resolve_market(ADMIN, mid, 0, 5).expect("resolution must succeed");
    let r = s.place_bet(ALICE, mid, 0, 10, 10, 6, 254);
    assert_eq!(r, Err(SolscoreError::MarketResolved));
    assert_eq!(s.bets.len(), 0);
}

#[test]
fn stake_rejected_when_amount_invalid() {
    let mut s = Solscore::new();
    let mid = open_reference_market(&mut s);
    let r = s.place_bet(ALICE, mid, 0, 0, 100, 1, 254);
    assert_eq!(r, Err(SolscoreError::InvalidBetAmount));
    let r = s.place_bet(ALICE, mid, 0, 101, 101, 1, 254);
    assert_eq!(r, Err(SolscoreError::InvalidBetAmount));
    assert_eq!(s.bets.len(), 0);
}

#[test]
fn stake_rejected_when_slots_exhausted() {
    let mut s = Solscore::new();
    let mid = open_reference_market(&mut s);
    s.place_bet(ALICE, mid, 0, 100, 100, 1, 254).expect("first stake fits a slot");
    s.place_bet(BOB, mid, 1, 50, 50, 2, 253).expect("second stake fits a slot");
    assert_eq!(s.markets[mid].allowed_bettors, 0);
    let r = s.place_bet(CAROL, mid, 0, 10, 10, 3, 252);
    assert_eq!(r, Err(SolscoreError::MarketAllowedBettorsLimitExceeded));
    assert_eq!(s.bets.len(), 2);
}

#[test]
fn stake_rejected_on_insufficient_balance() {
    let mut s = Solscore::new();
    let mid = open_reference_market(&mut s);
    let r = s.place_bet(ALICE, mid, 0, 100, 99, 1, 254);
    assert_eq!(r, Err(SolscoreError::InsufficientBalance));
    assert_eq!(s.bets.len(), 0);
}

#[test]
fn stake_rejected_on_invalid_outcome_index() {
    let mut s = Solscore::new();
    let mid = open_reference_market(&mut s);
    let r = s.place_bet(ALICE, mid, 2, 10, 10, 1, 254);
    assert_eq!(r, Err(SolscoreError::InvalidTeamIndex));
    assert_eq!(s.bets.len(), 0);
}

#[test]
fn second_bet_per_pair_rejected() {
    let mut s = Solscore::new();
    let mid = open_reference_market(&mut s);
    s.place_bet(ALICE, mid, 0, 10, 10, 1, 254).expect("first stake must be accepted");
    let r = s.place_bet(ALICE, mid, 1, 20, 20, 2, 253);
    assert_eq!(r, Err(SolscoreError::BetAlreadyExists));
    assert_eq!(s.bets.len(), 1);
    assert_eq!(s.markets[mid].allowed_bettors, 1);
}

#[test]
fn resolve_rejects_wrong_caller_and_bad_index() {
    let mut s = Solscore::new();
    let mid = open_reference_market(&mut s);
    let r = s.resolve_market(ALICE, mid, 0, 5);
    assert_eq!(r, Err(SolscoreError::Unauthorized));
    let r = s.resolve_market(ADMIN, mid, 2, 5);
    assert_eq!(r, Err(SolscoreError::InvalidTeamIndex));
    assert!(!s.markets[mid].is_resolved);
    assert_eq!(s.markets[mid].winning_team_index, None);
    assert_eq!(s.markets[mid].resolved_at, None);
}

#[test]
fn resolve_twice_rejected() {
    let mut s = Solscore::new();
    let mid = open_reference_market(&mut s);
    s.resolve_market(ADMIN, mid, 1, 5).expect("first resolution must succeed");
    assert!(s.markets[mid].is_resolved);
    assert_eq!(s.markets[mid].winning_team_index, Some(1));
    assert_eq!(s.markets[mid].resolved_at, Some(5));
    let r = s.resolve_market(ADMIN, mid, 0, 6);
    assert_eq!(r, Err(SolscoreError::MarketResolved));
    assert_eq!(s.markets[mid].winning_team_index, Some(1));
    assert_eq!(s.markets[mid].resolved_at, Some(5));
}

#[test]
fn claim_requires_resolution_and_ownership() {
    let mut s = Solscore::new();
    let mid = open_reference_market(&mut s);
    let bid = s.place_bet(ALICE, mid, 0, 100, 100, 1, 254).expect("stake must be accepted");
    let r = s.claim_payout(BOB, mid, bid, 2);
    assert_eq!(r, Err(SolscoreError::Unauthorized));
    let r = s.claim_payout(ALICE, mid, bid, 2);
    assert_eq!(r, Err(SolscoreError::MarketNotResolved));
    s.resolve_market(ADMIN, mid, 0, 3).expect("resolution must succeed");
    let r = s.claim_payout(ALICE, mid, bid, 4);
    assert_eq!(r, Ok(200));
    assert!(s.bets[bid].claimed);
    assert_eq!(s.bets[bid].claimed_at, Some(4));
    assert_eq!(s.vaults[mid], 500);
}

#[test]
fn claim_twice_rejected() {
    let mut s = Solscore::new();
    let mid = open_reference_market(&mut s);
    let bid = s.place_bet(ALICE, mid, 0, 100, 100, 1, 254).expect("stake must be accepted");
    s.resolve_market(ADMIN, mid, 0, 3).expect("resolution must succeed");
    assert_eq!(s.claim_payout(ALICE, mid, bid, 4), Ok(200));
    let vault_after_first = s.vaults[mid];
    let r = s.claim_payout(ALICE, mid, bid, 5);
    assert_eq!(r, Err(SolscoreError::BetClaimed));
    assert_eq!(s.vaults[mid], vault_after_first);
}

#[test]
fn losing_bet_cannot_be_claimed() {
    let mut s = Solscore::new();
    let mid = open_reference_market(&mut s);
    let bid = s.place_bet(ALICE, mid, 1, 50, 50, 1, 254).expect("stake must be accepted");
    s.resolve_market(ADMIN, mid, 0, 3).expect("resolution must succeed");
    let vault_before = s.vaults[mid];
    let r = s.claim_payout(ALICE, mid, bid, 4);
    assert_eq!(r, Err(SolscoreError::BetNotWon));
    assert!(!s.bets[bid].claimed);
    assert_eq!(s.vaults[mid], vault_before);
}

#[test]
fn close_requires_resolution_and_happens_once() {
    let mut s = Solscore::new();
    let mid = open_reference_market(&mut s);
    let r = s.close_market(ALICE, mid);
    assert_eq!(r, Err(SolscoreError::Unauthorized));
    let r = s.close_market(ADMIN, mid);
    assert_eq!(r, Err(SolscoreError::MarketNotResolved));
    s.resolve_market(ADMIN, mid, 0, 3).expect("resolution must succeed");
    let r = s.close_market(ADMIN, mid);
    assert_eq!(r, Ok(600));
    assert!(s.markets[mid].is_closed);
    assert_eq!(s.vaults[mid], 0);
    let r = s.close_market(ADMIN, mid);
    assert_eq!(r, Err(SolscoreError::MarketClosed));
}

#[test]
fn claim_rejected_after_close() {
    let mut s = Solscore::new();
    let mid = open_reference_market(&mut s);
    let bid = s.place_bet(ALICE, mid, 0, 100, 100, 1, 254).expect("stake must be accepted");
    s.resolve_market(ADMIN, mid, 0, 3).expect("resolution must succeed");
    s.close_market(ADMIN, mid).expect("close must succeed");
    let r = s.claim_payout(ALICE, mid, bid, 4);
    assert_eq!(r, Err(SolscoreError::MarketClosed));
}

#[test]
fn reference_scenario_end_to_end() {
    let mut s = Solscore::new();
    let mid = open_reference_market(&mut s);
    assert_eq!(s.vaults[mid], 600);
    let b1 = s.place_bet(ALICE, mid, 0, 100, 100, 1, 254).expect("bettor 1 stakes 100 on A");
    assert_eq!(s.bets[b1].payout_amount, Some(200));
    let b2 = s.place_bet(BOB, mid, 1, 50, 50, 2, 253).expect("bettor 2 stakes 50 on B");
    assert_eq!(s.bets[b2].payout_amount, Some(150));
    assert_eq!(s.markets[mid].allowed_bettors, 0);
    let r = s.place_bet(CAROL, mid, 0, 10, 10, 3, 252);
    assert_eq!(r, Err(SolscoreError::MarketAllowedBettorsLimitExceeded));
    s.resolve_market(ADMIN, mid, 0, 4).expect("admin resolves with winning index 0");
    assert_eq!(s.claim_payout(ALICE, mid, b1, 5), Ok(200));
    assert_eq!(s.claim_payout(BOB, mid, b2, 6), Err(SolscoreError::BetNotWon));
    // The vault holds the 600 reserve plus the 150 of stakes, minus the
    // 200 paid out, when the administrator drains it.
    assert_eq!(s.close_market(ADMIN, mid), Ok(550));
    assert_eq!(s.vaults[mid], 0);
}
