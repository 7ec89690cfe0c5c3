use raven_market::admin::{
    add_price_feed, authorized, Roles, create_market, init_state, pause_market, remove_price_feed, resume_market, AddPriceFeedArgs,
    CreateMarketArgs,
};
use raven_market::bet::{
    check_bet, close_round, process_round, process_round_with_oracle, refund_round, round_window, user_bet,
    ProcessRoundArgs, UserBetArgs,
};
use raven_market::error::MarketError;
use raven_market::oracle::{accept_price, read_oracle, OraclePrice, PriceFault};
use raven_market::settlement::plan_settlement;
use raven_market::state::{Direction, Market, PriceFeedConfig, Pubkey, Round, State};

use pyth_solana_receiver_sdk::price_update::{PriceFeedMessage, PriceUpdateV2, VerificationLevel};

const FEED_HEX: &str = "ef0d8b6fda2ceba41da15d4095d1da392a0d2f8ed0c6c7bc0f4cfac8c280b56d";

fn key(b: u8) -> Pubkey {
    Pubkey::new([b; 32])
}

fn admin() -> Pubkey {
    key(1)
}

fn creator() -> Pubkey {
    key(2)
}

fn feed_bytes() -> [u8; 32] {
    let mut out = [0u8; 32];
    for k in 0..32 {
        out[k] = u8::from_str_radix(&FEED_HEX[2 * k..2 * k + 2], 16).unwrap();
    }
    out
}

fn base_state() -> State {
    State {
        admin_pubkey: admin(),
        escrow_pubkey: key(9),
        escrow_bump: 255,
        creator_fee_percent: 40,
        allowed_pricefeeds: vec![PriceFeedConfig {
            symbol: "SOL".to_string(),
            pyth_feed_id: FEED_HEX.to_string(),
            create_market_lamports: 7,
            min_betting_lamports: 10,
            min_betting_period: 30,
            max_betting_period: 600,
            min_settling_period: 30,
            max_settling_period: 600,
        }],
        markets: vec![],
    }
}

fn market_args(id: &str, fee_rate: u8) -> CreateMarketArgs {
    CreateMarketArgs {
        fee_rate,
        betting_period: 60,
        settling_period: 120,
        market_id: id.to_string(),
        symbol: "SOL".to_string(),
    }
}

/// A state with market "m1" (fee 5%, created at 1000, betting 60 s, settling
/// 120 s) and its first round, open over [1060, 1180], taking bets until 1120.
fn setup() -> (State, Round) {
    let mut state = base_state();
    let created = create_market(&mut state, &creator(), &admin(), &market_args("m1", 5), 1000).unwrap();
    (state, created.first_round)
}

fn bet_args(direction: u8, amount: u64) -> UserBetArgs {
    UserBetArgs { market_id: "m1".to_string(), round_index: 1, direction, amount }
}

fn process_args() -> ProcessRoundArgs {
    ProcessRoundArgs {
        market_id: "m1".to_string(),
        round_index: 1,
        maximum_age: 60,
        feed_id: FEED_HEX.to_string(),
        max_confidence: 50,
    }
}

fn reading(price: i64) -> Result<OraclePrice, PriceFault> {
    Ok(OraclePrice { price, conf: 1, exponent: -2, publish_time: 0 })
}

fn update(price: i64, conf: u64, publish_time: i64) -> PriceUpdateV2 {
    PriceUpdateV2 {
        write_authority: Default::default(),
        verification_level: VerificationLevel::Full,
        price_message: PriceFeedMessage {
            feed_id: feed_bytes(),
            price,
            conf,
            exponent: -2,
            publish_time,
            prev_publish_time: publish_time - 1,
            ema_price: price,
            ema_conf: conf,
        },
        posted_slot: 1,
    }
}

/// Locks the start price at 1100 and the end price at 1180.
fn run_round(state: &mut State, round: &mut Round, start: i64, end: i64) -> Option<raven_market::settlement::Settlement> {
    let first = process_round(state, round, &process_args(), &admin(), &creator(), 1100, &reading(start)).unwrap();
    assert!(first.start_locked);
    assert!(!first.end_locked);
    assert!(first.settlement.is_none());
    let second = process_round(state, round, &process_args(), &admin(), &creator(), 1180, &reading(end)).unwrap();
    assert!(second.end_locked);
    second.settlement
}

#[test]
fn worked_example_settlement() {
    let (mut state, mut round) = setup();
    user_bet(&state, &mut round, key(10), &bet_args(1, 1000), 1000).unwrap();
    user_bet(&state, &mut round, key(11), &bet_args(2, 4000), 1000).unwrap();
    assert_eq!(round.total_up, 1000);
    assert_eq!(round.total_down, 4000);
    let s = run_round(&mut state, &mut round, 100, 110).unwrap();
    assert_eq!(s.winner, Some(Direction::Up));
    assert_eq!(s.loser_pool, 4000);
    assert_eq!(s.total_fee, 200);
    assert_eq!(s.distributable, 3800);
    assert_eq!(s.fee_creator, 80);
    assert_eq!(s.fee_admin, 120);
    assert_eq!(round.bets[0].result, 4800);
    assert_eq!(round.bets[1].result, 0);
    assert_eq!(s.fee_creator + s.fee_admin + round.bets[0].result, 5000);
    assert!(round.settled);
}

#[test]
fn worked_example_plan_alone() {
    let s = plan_settlement(100, 110, 1000, 4000, 5, 40);
    assert_eq!((s.total_fee, s.distributable, s.fee_creator, s.fee_admin), (200, 3800, 80, 120));
}

#[test]
fn bet_at_deadline_is_accepted() {
    let (state, mut round) = setup();
    assert_eq!(user_bet(&state, &mut round, key(10), &bet_args(1, 100), 1120), Ok(()));
    assert_eq!(round.bets.len(), 1);
}

#[test]
fn bet_after_deadline_is_rejected() {
    let (state, mut round) = setup();
    assert_eq!(user_bet(&state, &mut round, key(10), &bet_args(1, 100), 1121), Err(MarketError::InvalidTime));
    assert_eq!(round.bets.len(), 0);
    assert_eq!(round.total_up, 0);
}

#[test]
fn push_refunds_every_stake() {
    let (mut state, mut round) = setup();
    user_bet(&state, &mut round, key(10), &bet_args(1, 300), 1000).unwrap();
    user_bet(&state, &mut round, key(11), &bet_args(2, 700), 1000).unwrap();
    let s = run_round(&mut state, &mut round, 100, 100).unwrap();
    assert_eq!(s.winner, None);
    assert_eq!((s.total_fee, s.fee_creator, s.fee_admin), (0, 0, 0));
    assert_eq!(round.bets[0].result, 300);
    assert_eq!(round.bets[1].result, 700);
}

#[test]
fn empty_loser_pool_refunds_winners() {
    let (mut state, mut round) = setup();
    user_bet(&state, &mut round, key(10), &bet_args(2, 300), 1000).unwrap();
    user_bet(&state, &mut round, key(11), &bet_args(2, 500), 1000).unwrap();
    let s = run_round(&mut state, &mut round, 120, 90).unwrap();
    assert_eq!(s.winner, Some(Direction::Down));
    assert_eq!((s.total_fee, s.fee_creator, s.fee_admin), (0, 0, 0));
    assert_eq!(round.bets[0].result, 300);
    assert_eq!(round.bets[1].result, 500);
}

#[test]
fn empty_winner_pool_pays_nobody() {
    let (mut state, mut round) = setup();
    user_bet(&state, &mut round, key(10), &bet_args(2, 1000), 1000).unwrap();
    let s = run_round(&mut state, &mut round, 100, 110).unwrap();
    assert_eq!(s.winner_pool, 0);
    assert_eq!((s.total_fee, s.distributable), (50, 950));
    assert_eq!(round.bets[0].result, 0);
}

#[test]
fn rounding_remainder_stays_in_escrow() {
    let (mut state, mut round) = setup();
    state.markets[0].fee_rate = 0;
    for b in 0..3u8 {
        user_bet(&state, &mut round, key(20 + b), &bet_args(1, 10), 1000).unwrap();
    }
    user_bet(&state, &mut round, key(30), &bet_args(2, 10), 1000).unwrap();
    let s = run_round(&mut state, &mut round, 1, 2).unwrap();
    assert_eq!(s.distributable, 10);
    let winners: u64 = round.bets.iter().filter(|b| b.direction == Direction::Up).map(|b| b.result).sum();
    assert_eq!(round.bets[0].result, 13);
    assert_eq!(winners, 39);
    assert_eq!(winners + 1, 30 + 10);
}

#[test]
fn settlement_advances_market_and_opens_next_round() {
    let (mut state, mut round) = setup();
    user_bet(&state, &mut round, key(10), &bet_args(1, 100), 1000).unwrap();
    process_round(&mut state, &mut round, &process_args(), &admin(), &creator(), 1100, &reading(5)).unwrap();
    let p = process_round(&mut state, &mut round, &process_args(), &admin(), &creator(), 1180, &reading(6)).unwrap();
    assert_eq!(state.markets[0].round_index, 2);
    let next = p.next_round.unwrap();
    assert_eq!(next.round_index, 2);
    assert_eq!(next.market_id, "m1");
    assert_eq!((next.start_time, next.end_time), (1240, 1360));
    assert!(next.bets.is_empty());
    assert!(!next.start_price_set && !next.end_price_set && !next.settled);
}

#[test]
fn second_process_on_settled_round_changes_nothing() {
    let (mut state, mut round) = setup();
    user_bet(&state, &mut round, key(10), &bet_args(1, 1000), 1000).unwrap();
    user_bet(&state, &mut round, key(11), &bet_args(2, 4000), 1000).unwrap();
    run_round(&mut state, &mut round, 100, 110).unwrap();
    let results: Vec<u64> = round.bets.iter().map(|b| b.result).collect();
    let again = process_round(
        &mut state,
        &mut round,
        &process_args(),
        &admin(),
        &creator(),
        5000,
        &Err(PriceFault::PriceTooOld),
    )
    .unwrap();
    assert!(again.settlement.is_none());
    assert!(again.next_round.is_none());
    assert!(!again.start_locked && !again.end_locked);
    assert_eq!(round.bets.iter().map(|b| b.result).collect::<Vec<u64>>(), results);
    assert_eq!(state.markets[0].round_index, 2);
    assert_eq!((round.start_price, round.end_price), (100, 110));
}

#[test]
fn start_price_locks_once() {
    let (mut state, mut round) = setup();
    process_round(&mut state, &mut round, &process_args(), &admin(), &creator(), 1000, &reading(100)).unwrap();
    let p = process_round(&mut state, &mut round, &process_args(), &admin(), &creator(), 1010, &reading(999)).unwrap();
    assert!(!p.start_locked);
    assert_eq!(round.start_price, 100);
    assert!(!round.end_price_set);
}

#[test]
fn redeem_twice_pays_once() {
    let (mut state, mut round) = setup();
    user_bet(&state, &mut round, key(10), &bet_args(1, 1000), 1000).unwrap();
    user_bet(&state, &mut round, key(11), &bet_args(2, 4000), 1000).unwrap();
    run_round(&mut state, &mut round, 100, 110).unwrap();
    let list = vec![key(10), key(11)];
    let first = refund_round(&mut round, &list);
    assert_eq!(first.len(), 1);
    assert_eq!(first[0].bet_index, 0);
    assert_eq!(first[0].user, key(10));
    assert_eq!(first[0].amount, 4800);
    assert!(round.bets[0].redeemed);
    assert!(!round.bets[1].redeemed);
    let second = refund_round(&mut round, &list);
    assert!(second.is_empty());
}

#[test]
fn redeem_skips_unlisted_and_unsettled() {
    let (mut state, mut round) = setup();
    user_bet(&state, &mut round, key(10), &bet_args(1, 100), 1000).unwrap();
    assert!(refund_round(&mut round, &vec![key(10)]).is_empty());
    run_round(&mut state, &mut round, 100, 100).unwrap();
    assert!(refund_round(&mut round, &vec![key(12)]).is_empty());
    assert_eq!(refund_round(&mut round, &vec![key(12), key(10)]).len(), 1);
}

#[test]
fn close_round_needs_every_payout_made() {
    let (mut state, mut round) = setup();
    user_bet(&state, &mut round, key(10), &bet_args(1, 100), 1000).unwrap();
    assert_eq!(close_round(&state, &round, &creator()), Err(MarketError::InvalidArgument));
    run_round(&mut state, &mut round, 100, 100).unwrap();
    assert_eq!(close_round(&state, &round, &creator()), Err(MarketError::InvalidArgument));
    refund_round(&mut round, &vec![key(10)]);
    assert_eq!(close_round(&state, &round, &key(10)), Err(MarketError::IllegalOwner));
    assert_eq!(close_round(&state, &round, &creator()), Ok(()));
}

#[test]
fn bet_errors() {
    let (mut state, mut round) = setup();
    assert_eq!(check_bet(&state, &round, &bet_args(1, 0), 1000), Err(MarketError::InvalidArgument));
    assert_eq!(check_bet(&state, &round, &bet_args(1, 9), 1000), Err(MarketError::InvalidArgument));
    assert_eq!(check_bet(&state, &round, &bet_args(3, 100), 1000), Err(MarketError::InvalidArgument));
    let mut other = bet_args(1, 100);
    other.market_id = "m2".to_string();
    assert_eq!(check_bet(&state, &round, &other, 1000), Err(MarketError::InvalidMarket));
    let mut wrong_round = bet_args(1, 100);
    wrong_round.round_index = 2;
    assert_eq!(check_bet(&state, &round, &wrong_round, 1000), Err(MarketError::InvalidMarket));
    assert_eq!(check_bet(&state, &round, &bet_args(2, 100), 1000), Ok(Direction::Down));
    pause_market(&mut state, &creator(), &"m1".to_string()).unwrap();
    assert_eq!(user_bet(&state, &mut round, key(10), &bet_args(1, 100), 1000), Err(MarketError::MarketPaused));
    resume_market(&mut state, &admin(), &"m1".to_string()).unwrap();
    assert_eq!(user_bet(&state, &mut round, key(10), &bet_args(1, 100), 1000), Ok(()));
}

#[test]
fn bet_that_would_overflow_the_pools_is_refused() {
    let (state, mut round) = setup();
    user_bet(&state, &mut round, key(10), &bet_args(1, u64::MAX - 5), 1000).unwrap();
    assert_eq!(user_bet(&state, &mut round, key(11), &bet_args(2, 10), 1000), Err(MarketError::InvalidArgument));
    assert_eq!(user_bet(&state, &mut round, key(11), &bet_args(2, 5), 1000), Err(MarketError::InvalidArgument));
}

#[test]
fn bet_on_settled_round_is_refused() {
    let (mut state, mut round) = setup();
    state.markets[0].betting_period = 600;
    run_round(&mut state, &mut round, 1, 2).unwrap();
    assert_eq!(user_bet(&state, &mut round, key(10), &bet_args(1, 100), 1150), Err(MarketError::InvalidTime));
}

#[test]
fn process_account_errors() {
    let (mut state, mut round) = setup();
    let r = process_round(&mut state, &mut round, &process_args(), &key(7), &creator(), 1100, &reading(5));
    assert_eq!(r.unwrap_err(), MarketError::InvalidArgument);
    let r = process_round(&mut state, &mut round, &process_args(), &admin(), &key(7), 1100, &reading(5));
    assert_eq!(r.unwrap_err(), MarketError::InvalidArgument);
    let mut a = process_args();
    a.market_id = "nope".to_string();
    let r = process_round(&mut state, &mut round, &a, &admin(), &creator(), 1100, &reading(5));
    assert_eq!(r.unwrap_err(), MarketError::InvalidMarket);
    let mut a = process_args();
    a.feed_id = "00".repeat(32);
    let r = process_round(&mut state, &mut round, &a, &admin(), &creator(), 1100, &reading(5));
    assert_eq!(r.unwrap_err(), MarketError::InvalidPriceFeed);
    assert!(!round.start_price_set);
}

#[test]
fn oracle_reading_errors_change_nothing() {
    let (mut state, mut round) = setup();
    let cases: Vec<(Result<OraclePrice, PriceFault>, MarketError)> = vec![
        (reading(0), MarketError::InvalidPythPrice),
        (reading(-4), MarketError::InvalidPythPrice),
        (Ok(OraclePrice { price: 5, conf: 51, exponent: 0, publish_time: 0 }), MarketError::ConfidenceTooHigh),
        (Err(PriceFault::PriceTooOld), MarketError::PriceStale),
        (Err(PriceFault::MismatchedFeedId), MarketError::InvalidPriceFeed),
        (Err(PriceFault::InsufficientVerificationLevel), MarketError::InvalidPythPrice),
    ];
    for (reading, expected) in cases {
        let r = process_round(&mut state, &mut round, &process_args(), &admin(), &creator(), 1100, &reading);
        assert_eq!(r.unwrap_err(), expected);
        assert!(!round.start_price_set);
    }
}

#[test]
fn accept_price_checks_sign_and_confidence() {
    assert_eq!(accept_price(&reading(42), 1), Ok(42));
    assert_eq!(accept_price(&reading(42), 0), Err(MarketError::ConfidenceTooHigh));
    assert_eq!(accept_price(&Err(PriceFault::FeedIdMustBe32Bytes), 9), Err(MarketError::InvalidPriceFeed));
}

#[test]
fn read_oracle_decodes_feed_id_and_reads_price() {
    let u = update(12345, 3, 990);
    let p = read_oracle(&u, 1000, 60, &FEED_HEX.to_string()).unwrap();
    assert_eq!((p.price, p.conf, p.exponent, p.publish_time), (12345, 3, -2, 990));
    let prefixed = format!("0x{}", FEED_HEX);
    assert_eq!(read_oracle(&u, 1000, 60, &prefixed).unwrap().price, 12345);
    let upper = FEED_HEX.to_uppercase();
    assert_eq!(read_oracle(&u, 1000, 60, &upper).unwrap().price, 12345);
}

#[test]
fn read_oracle_errors() {
    let u = update(12345, 3, 900);
    assert_eq!(read_oracle(&u, 1000, 60, &FEED_HEX.to_string()), Err(PriceFault::PriceTooOld));
    assert_eq!(read_oracle(&u, 960, 60, &FEED_HEX.to_string()).unwrap().price, 12345);
    assert_eq!(read_oracle(&u, 1000, 60, &"ab".to_string()), Err(PriceFault::FeedIdMustBe32Bytes));
    let bad = format!("{}zz", &FEED_HEX[..62]);
    assert_eq!(read_oracle(&u, 1000, 60, &bad), Err(PriceFault::FeedIdNonHexCharacter));
    let other = "11".repeat(32);
    assert_eq!(read_oracle(&u, 1000, 60, &other), Err(PriceFault::MismatchedFeedId));
    let accented = format!("{}é", &FEED_HEX[..62]);
    assert_eq!(read_oracle(&u, 1000, 60, &accented), Err(PriceFault::FeedIdNonHexCharacter));
    let mut partial = update(12345, 3, 1000);
    partial.verification_level = VerificationLevel::Partial { num_signatures: 5 };
    assert_eq!(read_oracle(&partial, 1000, 60, &FEED_HEX.to_string()), Err(PriceFault::InsufficientVerificationLevel));
}

#[test]
fn process_with_oracle_settles_round() {
    let (mut state, mut round) = setup();
    user_bet(&state, &mut round, key(10), &bet_args(1, 1000), 1000).unwrap();
    user_bet(&state, &mut round, key(11), &bet_args(2, 4000), 1000).unwrap();
    let a = process_args();
    let p = process_round_with_oracle(&mut state, &mut round, &a, &admin(), &creator(), 1100, &update(100, 1, 1090))
        .unwrap();
    assert!(p.start_locked);
    let stale = process_round_with_oracle(&mut state, &mut round, &a, &admin(), &creator(), 1180, &update(110, 1, 1000));
    assert_eq!(stale.unwrap_err(), MarketError::PriceStale);
    assert!(!round.end_price_set);
    let p = process_round_with_oracle(&mut state, &mut round, &a, &admin(), &creator(), 1180, &update(110, 1, 1170))
        .unwrap();
    assert_eq!(p.settlement.unwrap().fee_admin, 120);
    assert_eq!(round.bets[0].result, 4800);
}

#[test]
fn round_window_follows_schedule() {
    let m = Market {
        market_id: "m".to_string(),
        pyth_feed_id: FEED_HEX.to_string(),
        creation_time: 1000,
        paused: false,
        fee_rate: 5,
        min_betting_price: 1,
        betting_period: 60,
        settling_period: 120,
        creator_pubkey: creator(),
        round_index: 1,
    };
    assert_eq!(round_window(&m, 1), (1060, 1180));
    assert_eq!(round_window(&m, 3), (1060 + 2 * 180, 1060 + 2 * 180 + 120));
    let far = round_window(&Market { creation_time: u32::MAX, betting_period: u16::MAX, settling_period: u16::MAX, ..m }, u32::MAX);
    assert_eq!(far.0, u32::MAX as u64 + 65535 + (u32::MAX as u64 - 1) * 131070);
}

#[test]
fn create_market_rules() {
    let mut state = base_state();
    let created = create_market(&mut state, &creator(), &admin(), &market_args("m1", 5), 1000).unwrap();
    assert_eq!(created.creation_fee, 7);
    assert_eq!(state.markets.len(), 1);
    assert_eq!(state.markets[0].round_index, 1);
    assert_eq!(state.markets[0].min_betting_price, 10);
    assert_eq!(state.markets[0].pyth_feed_id, FEED_HEX);
    assert_eq!((created.first_round.start_time, created.first_round.end_time), (1060, 1180));
    let again = create_market(&mut state, &creator(), &admin(), &market_args("m1", 5), 1000);
    assert_eq!(again.unwrap_err(), MarketError::AccountAlreadyInitialized);
    let r = create_market(&mut state, &creator(), &admin(), &market_args("m2", 101), 1000);
    assert_eq!(r.unwrap_err(), MarketError::InvalidArgument);
    let mut unknown = market_args("m2", 5);
    unknown.symbol = "BTC".to_string();
    assert_eq!(create_market(&mut state, &creator(), &admin(), &unknown, 1000).unwrap_err(), MarketError::InvalidPriceFeed);
    let mut short = market_args("m2", 5);
    short.betting_period = 29;
    assert_eq!(create_market(&mut state, &creator(), &admin(), &short, 1000).unwrap_err(), MarketError::InvalidArgument);
    let r = create_market(&mut state, &creator(), &key(8), &market_args("m2", 5), 1000);
    assert_eq!(r.unwrap_err(), MarketError::InvalidArgument);
    assert_eq!(state.markets.len(), 1);
}

#[test]
fn pause_and_resume_roles() {
    let (mut state, _) = setup();
    let id = "m1".to_string();
    assert_eq!(pause_market(&mut state, &key(8), &id), Err(MarketError::IllegalOwner));
    assert_eq!(pause_market(&mut state, &admin(), &"x".to_string()), Err(MarketError::InvalidMarket));
    assert_eq!(pause_market(&mut state, &admin(), &id), Ok(()));
    assert!(state.markets[0].paused);
    assert_eq!(resume_market(&mut state, &creator(), &id), Err(MarketError::IllegalOwner));
    assert_eq!(resume_market(&mut state, &admin(), &"x".to_string()), Err(MarketError::InvalidMarket));
    assert_eq!(resume_market(&mut state, &admin(), &id), Ok(()));
    assert!(!state.markets[0].paused);
}

#[test]
fn price_feed_whitelist() {
    let mut state = base_state();
    let args = AddPriceFeedArgs {
        symbol: "BTC".to_string(),
        pyth_feed_id: "e6".repeat(32),
        min_bet_period: 10,
        max_bet_period: 20,
        min_settle_period: 10,
        max_settle_period: 20,
        create_market_lamports: 0,
        min_betting_lamports: 1,
    };
    assert_eq!(add_price_feed(&mut state, &key(8), args.clone()), Err(MarketError::IllegalOwner));
    let mut inverted = args.clone();
    inverted.max_bet_period = 9;
    assert_eq!(add_price_feed(&mut state, &admin(), inverted), Err(MarketError::InvalidArgument));
    assert_eq!(add_price_feed(&mut state, &admin(), args.clone()), Ok(()));
    assert_eq!(state.allowed_pricefeeds.len(), 2);
    assert_eq!(state.allowed_pricefeeds[1].max_betting_period, 20);
    assert_eq!(add_price_feed(&mut state, &admin(), args), Err(MarketError::AccountAlreadyInitialized));
    assert_eq!(remove_price_feed(&mut state, &key(8), &"SOL".to_string()), Err(MarketError::IllegalOwner));
    assert_eq!(remove_price_feed(&mut state, &admin(), &"ETH".to_string()), Err(MarketError::InvalidArgument));
    assert_eq!(remove_price_feed(&mut state, &admin(), &"SOL".to_string()), Ok(()));
    assert_eq!(state.allowed_pricefeeds.len(), 1);
    assert_eq!(state.allowed_pricefeeds[0].symbol, "BTC");
}

#[test]
fn init_state_sets_up_escrow() {
    assert_eq!(init_state(admin(), 101, [3u8; 32]).unwrap_err(), MarketError::InvalidArgument);
    let st = init_state(admin(), 40, [3u8; 32]).unwrap();
    assert_eq!(st.admin_pubkey, admin());
    assert_eq!(st.creator_fee_percent, 40);
    assert!(st.markets.is_empty() && st.allowed_pricefeeds.is_empty());
    let expected = anchor_lang::prelude::Pubkey::find_program_address(
        &[b"escrow_vault".as_ref()],
        &anchor_lang::prelude::Pubkey::new_from_array([3u8; 32]),
    );
    assert_eq!(st.escrow_pubkey.bytes, expected.0.to_bytes());
    assert_eq!(st.escrow_bump, expected.1);
    assert_ne!(st.escrow_pubkey.bytes, [3u8; 32]);
}

#[test]
fn invariant_checks_catch_tampering() {
    let (state, mut round) = setup();
    assert!(state.check_wf());
    user_bet(&state, &mut round, key(10), &bet_args(1, 100), 1000).unwrap();
    assert!(round.check_wf());
    let mut tampered = round.clone();
    tampered.total_up = 99;
    assert!(!tampered.check_wf());
    let mut paid_early = round.clone();
    paid_early.bets[0].result = 5;
    assert!(!paid_early.check_wf());
    let mut duplicate = state.clone();
    let copy = duplicate.markets[0].clone();
    duplicate.markets.push(copy);
    assert!(!duplicate.check_wf());
    let mut greedy = state.clone();
    greedy.creator_fee_percent = 101;
    assert!(!greedy.check_wf());
}

#[test]
fn roles() {
    let both = Roles { admin: true, creator: true };
    let admin_only = Roles { admin: true, creator: false };
    assert!(authorized(&admin(), &admin(), &creator(), both));
    assert!(authorized(&creator(), &admin(), &creator(), both));
    assert!(!authorized(&creator(), &admin(), &creator(), admin_only));
    assert!(!authorized(&key(8), &admin(), &creator(), both));
}

#[test]
fn process_with_oracle_needing_no_price_succeeds() {
    let (mut state, mut round) = setup();
    let a = process_args();
    process_round_with_oracle(&mut state, &mut round, &a, &admin(), &creator(), 1100, &update(100, 1, 1090)).unwrap();
    let stale = update(555, 1, 0);
    let p = process_round_with_oracle(&mut state, &mut round, &a, &admin(), &creator(), 1150, &stale).unwrap();
    assert!(!p.start_locked && !p.end_locked);
    assert!(p.settlement.is_none() && p.next_round.is_none());
    assert_eq!(round.start_price, 100);
    assert!(!round.end_price_set && !round.settled);
}

#[test]
fn admin_operations_keep_escrow() {
    let mut state = base_state();
    let args = AddPriceFeedArgs {
        symbol: "ETH".to_string(),
        pyth_feed_id: "ff".repeat(32),
        min_bet_period: 1,
        max_bet_period: 2,
        min_settle_period: 1,
        max_settle_period: 2,
        create_market_lamports: 0,
        min_betting_lamports: 1,
    };
    add_price_feed(&mut state, &admin(), args).unwrap();
    create_market(&mut state, &creator(), &admin(), &market_args("m9", 5), 1000).unwrap();
    remove_price_feed(&mut state, &admin(), &"ETH".to_string()).unwrap();
    assert_eq!(state.escrow_pubkey, key(9));
    assert_eq!(state.escrow_bump, 255);
}
