use vstd::prelude::*;

use crate::constants::{DIRECTION_DOWN, DIRECTION_UP};
use crate::error::MarketError;
use crate::oracle::{accept_price, price_verdict, read_oracle, OraclePrice, PriceFault};

use pyth_solana_receiver_sdk::price_update::PriceUpdateV2;
use crate::settlement::{pay_out, plan_settlement, settled_bets, settlement_plan, Settlement};
use crate::state::{
    find_market, lemma_market_from, lemma_pool_push, market_index, pool_of, same_schedule, Bet, Direction,
    Market, Pubkey, Round, State,
};

verus! {

/// The arguments of a bet: the market and round, the side (1 for Up, 2 for
/// Down) and the stake in lamports.
#[derive(Clone, Debug)]
pub struct UserBetArgs {
    pub market_id: String,
    pub round_index: u32,
    pub direction: u8,
    pub amount: u64,
}

/// The arguments of a round's processing: the market and round, the oldest
/// oracle price accepted (in seconds), the feed id in hex and the widest
/// confidence interval accepted.
#[derive(Clone, Debug)]
pub struct ProcessRoundArgs {
    pub market_id: String,
    pub round_index: u32,
    pub maximum_age: u32,
    pub feed_id: String,
    pub max_confidence: u64,
}

/// The side named by a direction code.
pub open spec fn direction_of(code: u8) -> Option<Direction> {
    if code == DIRECTION_UP {
        Some(Direction::Up)
    } else if code == DIRECTION_DOWN {
        Some(Direction::Down)
    } else {
        None
    }
}

/// Reads a direction code.
pub fn parse_direction(code: u8) -> (r: Option<Direction>)
    ensures
        r == direction_of(code),
{
    if code == DIRECTION_UP {
        Some(Direction::Up)
    } else if code == DIRECTION_DOWN {
        Some(Direction::Down)
    } else {
        None
    }
}

/// The last moment at which `round` takes bets: its start plus the market's betting period.
pub open spec fn betting_deadline(round: Round, market: Market) -> int {
    round.start_time + market.betting_period
}

/// Whether `round` still takes bets at time `now`: it is not settled and its deadline has not passed.
pub open spec fn window_open(round: Round, market: Market, now: i64) -> bool {
    !round.settled && now <= betting_deadline(round, market)
}

/// The decision on a bet: the side it is on, or why it is refused.
///
/// In this order: a zero stake, an unknown market, a round of another market
/// or index, a paused market, a stake under the market's minimum, a closed
/// betting window (after the deadline, or a settled round), an unknown
/// direction, and pools that would no longer fit in a `u64`.
pub open spec fn bet_verdict(state: State, round: Round, args: UserBetArgs, now: i64) -> Result<
    Direction,
    MarketError,
> {
    if args.amount == 0 {
        Err(MarketError::InvalidArgument)
    } else {
        match market_index(state.markets@, args.market_id@) {
            None => Err(MarketError::InvalidMarket),
            Some(i) => {
                let mk = state.markets@[i];
                if round.market_id@ != args.market_id@ || round.round_index != args.round_index {
                    Err(MarketError::InvalidMarket)
                } else if mk.paused {
                    Err(MarketError::MarketPaused)
                } else if args.amount < mk.min_betting_price {
                    Err(MarketError::InvalidArgument)
                } else if !window_open(round, mk, now) {
                    Err(MarketError::InvalidTime)
                } else if direction_of(args.direction) is None {
                    Err(MarketError::InvalidArgument)
                } else if round.total_up + round.total_down + args.amount > u64::MAX {
                    Err(MarketError::InvalidArgument)
                } else {
                    Ok(direction_of(args.direction)->Some_0)
                }
            },
        }
    }
}

/// Decides whether a bet is accepted, without recording it.
pub fn check_bet(state: &State, round: &Round, args: &UserBetArgs, now: i64) -> (r: Result<
    Direction,
    MarketError,
>)
    requires
        round.wf(),
    ensures
        r == bet_verdict(*state, *round, *args, now),
{
    if args.amount == 0 {
        return Err(MarketError::InvalidArgument);
    }
    let found = find_market(&state.markets, &args.market_id);
    let i = match found {
        None => {
            return Err(MarketError::InvalidMarket);
        },
        Some(i) => i,
    };
    let mk = &state.markets[i];
    if round.market_id != args.market_id || round.round_index != args.round_index {
        return Err(MarketError::InvalidMarket);
    }
    if mk.paused {
        return Err(MarketError::MarketPaused);
    }
    if args.amount < mk.min_betting_price {
        return Err(MarketError::InvalidArgument);
    }
    let deadline: u64 = round.start_time.saturating_add(mk.betting_period as u64);
    let past_deadline = now >= 0 && (now as u64) > deadline;
    if round.settled || past_deadline {
        return Err(MarketError::InvalidTime);
    }
    let dir = match parse_direction(args.direction) {
        None => {
            return Err(MarketError::InvalidArgument);
        },
        Some(d) => d,
    };
    if args.amount > u64::MAX - round.total_up - round.total_down {
        return Err(MarketError::InvalidArgument);
    }
    Ok(dir)
}

/// Places a bet of `args.amount` lamports by `user` on `round`.
///
/// On success the bet is appended with result 0 and not redeemed, and its
/// stake is added to the pool of its side; the caller moves the stake from
/// the bettor to escrow. On refusal nothing changes.
pub fn user_bet(state: &State, round: &mut Round, user: Pubkey, args: &UserBetArgs, now: i64) -> (r: Result<
    (),
    MarketError,
>)
    requires
        old(round).wf(),
    ensures
        final(round).wf(),
        r is Err <==> bet_verdict(*state, *old(round), *args, now) is Err,
        r matches Err(e) ==> bet_verdict(*state, *old(round), *args, now) == Err::<Direction, MarketError>(e)
            && *final(round) == *old(round),
        bet_verdict(*state, *old(round), *args, now) matches Ok(d) ==> {
            &&& same_schedule(*final(round), *old(round))
            &&& final(round).bets@ == old(round).bets@.push(
                Bet { user, amount: args.amount, result: 0, direction: d, redeemed: false },
            )
            &&& final(round).total_up == old(round).total_up + if d == Direction::Up {
                args.amount as int
            } else {
                0
            }
            &&& final(round).total_down == old(round).total_down + if d == Direction::Down {
                args.amount as int
            } else {
                0
            }
        },
{
    let dir = match check_bet(state, round, args, now) {
        Err(e) => {
            return Err(e);
        },
        Ok(d) => d,
    };
    let bet = Bet { user, amount: args.amount, result: 0, direction: dir, redeemed: false };
    proof {
        lemma_pool_push(round.bets@, bet, Direction::Up);
        lemma_pool_push(round.bets@, bet, Direction::Down);
    }
    match dir {
        Direction::Up => {
            round.total_up = round.total_up + args.amount;
        },
        Direction::Down => {
            round.total_down = round.total_down + args.amount;
        },
    }
    let ghost before = round.bets@;
    round.bets.push(bet);
    proof {
        assert(round.bets@ == before.push(bet));
        assert forall|i: int| 0 <= i < round.bets@.len() implies #[trigger] round.bets@[i].amount > 0
            && (!round.settled ==> round.bets@[i].result == 0 && !round.bets@[i].redeemed) by {
            if i < before.len() {
                assert(round.bets@[i] == before[i]);
                assert(before[i].amount > 0);
                assert(!old(round).settled ==> before[i].result == 0 && !before[i].redeemed);
            } else {
                assert(round.bets@[i] == bet);
            }
        }
    }
    Ok(())
}

/// What one processing of a round did: whether it locked the start and the
/// end price, the settlement it made (whose two fee parts the caller pays out
/// of escrow to the creator and the admin), and the round it opened next.
#[derive(Debug)]
pub struct RoundProgress {
    pub start_locked: bool,
    pub end_locked: bool,
    pub settlement: Option<Settlement>,
    pub next_round: Option<Round>,
}

/// The start time of round `index` (counted from 1) of a market: the first
/// round starts one betting period after the market's creation, and each
/// further round one betting period plus one settling period later.
pub open spec fn round_start(market: Market, index: u32) -> int {
    market.creation_time + market.betting_period + (index - 1) * (market.betting_period
        + market.settling_period)
}

/// The end time of round `index` of a market: its start plus the settling period.
pub open spec fn round_end(market: Market, index: u32) -> int {
    round_start(market, index) + market.settling_period
}

/// Computes the window `[start, end]` of round `index` of `market`.
pub fn round_window(market: &Market, index: u32) -> (r: (u64, u64))
    requires
        index >= 1,
    ensures
        r.0 == round_start(*market, index),
        r.1 == round_end(*market, index),
{
    let step: u64 = market.betting_period as u64 + market.settling_period as u64;
    let rounds_before: u64 = (index - 1) as u64;
    proof {
        assert(rounds_before * step <= 0x1_0000_0000u64 * 0x2_0000u64) by (nonlinear_arith)
            requires
                rounds_before < 0x1_0000_0000u64,
                step < 0x2_0000u64,
        ;
    }
    let start: u64 = market.creation_time as u64 + market.betting_period as u64 + rounds_before * step;
    (start, start + market.settling_period as u64)
}

/// Whether processing has to lock the start price of `round`: it is not locked yet.
pub open spec fn needs_start(round: Round) -> bool {
    !round.start_price_set
}

/// Whether processing at `now` has to lock the end price of `round`: its end time has come.
pub open spec fn needs_end(round: Round, now: i64) -> bool {
    !round.end_price_set && now >= round.end_time
}

/// Whether processing at `now` has to read the oracle.
pub open spec fn needs_price(round: Round, now: i64) -> bool {
    needs_start(round) || needs_end(round, now)
}

/// Whether processing at `now` settles `round`: its end price is, or is about to be, locked.
pub open spec fn will_settle(round: Round, now: i64) -> bool {
    round.end_price_set || needs_end(round, now)
}

/// The checks on the accounts of a processing, which come before anything
/// else: the fee recipients are the admin and the market's creator, the
/// market exists, the round is this market's round of that index, and the
/// feed is the market's. On success, the market's position.
pub open spec fn process_accounts(
    state: State,
    round: Round,
    args: ProcessRoundArgs,
    admin: Pubkey,
    creator: Pubkey,
) -> Result<int, MarketError> {
    if admin@ != state.admin_pubkey@ {
        Err(MarketError::InvalidArgument)
    } else {
        match market_index(state.markets@, args.market_id@) {
            None => Err(MarketError::InvalidMarket),
            Some(i) => {
                let mk = state.markets@[i];
                if creator@ != mk.creator_pubkey@ {
                    Err(MarketError::InvalidArgument)
                } else if round.market_id@ != args.market_id@ || round.round_index != args.round_index {
                    Err(MarketError::InvalidMarket)
                } else if args.feed_id@ != mk.pyth_feed_id@ {
                    Err(MarketError::InvalidPriceFeed)
                } else {
                    Ok(i)
                }
            },
        }
    }
}

/// Whether processing fails, and why: a failed account check; then, on a
/// round that is not settled yet, an oracle reading that was needed and is
/// refused, or a settlement that would open a round past the last index.
pub open spec fn process_verdict(
    state: State,
    round: Round,
    args: ProcessRoundArgs,
    admin: Pubkey,
    creator: Pubkey,
    now: i64,
    reading: Result<OraclePrice, PriceFault>,
) -> Result<(), MarketError> {
    match process_accounts(state, round, args, admin, creator) {
        Err(e) => Err(e),
        Ok(_) => if round.settled {
            Ok(())
        } else if needs_price(round, now) && price_verdict(reading, args.max_confidence) is Err {
            Err(price_verdict(reading, args.max_confidence)->Err_0)
        } else if will_settle(round, now) && round.round_index == u32::MAX {
            Err(MarketError::InvalidArgument)
        } else {
            Ok(())
        },
    }
}

/// Whether `a` is `b` with only its round index changed, to `index`.
pub open spec fn market_advanced(a: Market, b: Market, index: int) -> bool {
    &&& a.market_id@ == b.market_id@
    &&& a.pyth_feed_id@ == b.pyth_feed_id@
    &&& a.creation_time == b.creation_time
    &&& a.paused == b.paused
    &&& a.fee_rate == b.fee_rate
    &&& a.min_betting_price == b.min_betting_price
    &&& a.betting_period == b.betting_period
    &&& a.settling_period == b.settling_period
    &&& a.creator_pubkey == b.creator_pubkey
    &&& a.round_index == index
}

/// A copy of `m` whose round index is `index`.
fn advanced_market(m: &Market, index: u32) -> (r: Market)
    ensures
        market_advanced(r, *m, index as int),
{
    Market {
        market_id: m.market_id.clone(),
        pyth_feed_id: m.pyth_feed_id.clone(),
        creation_time: m.creation_time,
        paused: m.paused,
        fee_rate: m.fee_rate,
        min_betting_price: m.min_betting_price,
        betting_period: m.betting_period,
        settling_period: m.settling_period,
        creator_pubkey: m.creator_pubkey,
        round_index: index,
    }
}

/// Whether `r` is a fresh round `index` of `market`: empty, with no price and
/// its window from the market's schedule.
pub open spec fn fresh_round(r: Round, market: Market, index: int) -> bool {
    &&& r.wf()
    &&& r.market_id@ == market.market_id@
    &&& r.round_index == index
    &&& r.start_time == round_start(market, index as u32)
    &&& r.end_time == round_end(market, index as u32)
    &&& !r.start_price_set && !r.end_price_set && !r.settled
    &&& r.bets@.len() == 0
}

/// Processes a round at time `now`, given the oracle's reading of the
/// market's feed. Anyone may call it, any number of times.
///
/// After the account checks, a settled round is left as it is and nothing is
/// paid. Otherwise the start price is locked if it is not yet, the end price
/// is locked once the round's end time has come, and when the end price is
/// locked the round is settled: every bet gets its payout, the market moves
/// on to the next round, whose window follows from the market's schedule, and
/// the fee parts are handed back for payment. A refused reading, when one was
/// needed, changes nothing.
pub fn process_round(
    state: &mut State,
    round: &mut Round,
    args: &ProcessRoundArgs,
    admin: &Pubkey,
    creator: &Pubkey,
    now: i64,
    reading: &Result<OraclePrice, PriceFault>,
) -> (r: Result<RoundProgress, MarketError>)
    requires
        old(state).wf(),
        old(round).wf(),
    ensures
        final(state).wf(),
        final(round).wf(),
        r is Err <==> process_verdict(*old(state), *old(round), *args, *admin, *creator, now, *reading) is Err,
        process_accounts(*old(state), *old(round), *args, *admin, *creator) is Ok && old(round).settled ==> (
        r matches Ok(p) && p.settlement is None && p.next_round is None && *final(state) == *old(state)
            && *final(round) == *old(round)),
        r matches Err(e) ==> process_verdict(*old(state), *old(round), *args, *admin, *creator, now, *reading)
            == Err::<(), MarketError>(e) && *final(state) == *old(state) && *final(round) == *old(round),
        r matches Ok(p) ==> {
            let price = price_verdict(*reading, args.max_confidence)->Ok_0;
            let i = process_accounts(*old(state), *old(round), *args, *admin, *creator)->Ok_0;
            let mk = old(state).markets@[i];
            if old(round).settled {
                &&& *final(state) == *old(state)
                &&& *final(round) == *old(round)
                &&& !p.start_locked && !p.end_locked
                &&& p.settlement is None
                &&& p.next_round is None
            } else {
                &&& p.start_locked == needs_start(*old(round))
                &&& p.end_locked == needs_end(*old(round), now)
                &&& final(round).start_price_set
                &&& final(round).start_price == if needs_start(*old(round)) {
                    price
                } else {
                    old(round).start_price
                }
                &&& final(round).end_price_set == will_settle(*old(round), now)
                &&& final(round).end_price == if needs_end(*old(round), now) {
                    price
                } else {
                    old(round).end_price
                }
                &&& final(round).settled == will_settle(*old(round), now)
                &&& final(round).market_id@ == old(round).market_id@
                &&& final(round).round_index == old(round).round_index
                &&& final(round).start_time == old(round).start_time
                &&& final(round).end_time == old(round).end_time
                &&& final(round).total_up == old(round).total_up
                &&& final(round).total_down == old(round).total_down
                &&& if will_settle(*old(round), now) {
                    let plan = settlement_plan(
                        final(round).start_price,
                        final(round).end_price,
                        old(round).total_up,
                        old(round).total_down,
                        mk.fee_rate,
                        old(state).creator_fee_percent,
                    );
                    &&& final(round).bets@ == settled_bets(old(round).bets@, plan)
                    &&& p.settlement == Some(plan)
                    &&& final(state).admin_pubkey == old(state).admin_pubkey
                    &&& final(state).escrow_pubkey == old(state).escrow_pubkey
                    &&& final(state).escrow_bump == old(state).escrow_bump
                    &&& final(state).creator_fee_percent == old(state).creator_fee_percent
                    &&& final(state).allowed_pricefeeds == old(state).allowed_pricefeeds
                    &&& final(state).markets@.len() == old(state).markets@.len()
                    &&& forall|j: int|
                        0 <= j < old(state).markets@.len() && j != i ==> #[trigger] final(state).markets@[j]
                            == old(state).markets@[j]
                    &&& market_advanced(final(state).markets@[i], mk, old(round).round_index + 1)
                    &&& p.next_round matches Some(nr) && fresh_round(nr, mk, old(round).round_index + 1)
                } else {
                    &&& final(round).bets@ == old(round).bets@
                    &&& *final(state) == *old(state)
                    &&& p.settlement is None
                    &&& p.next_round is None
                }
            }
        },
{
    if !(*admin == state.admin_pubkey) {
        return Err(MarketError::InvalidArgument);
    }
    let i = match find_market(&state.markets, &args.market_id) {
        None => {
            return Err(MarketError::InvalidMarket);
        },
        Some(i) => i,
    };
    proof {
        lemma_market_from(state.markets@, args.market_id@, 0);
    }
    if !(*creator == state.markets[i].creator_pubkey) {
        return Err(MarketError::InvalidArgument);
    }
    if round.market_id != args.market_id || round.round_index != args.round_index {
        return Err(MarketError::InvalidMarket);
    }
    if args.feed_id != state.markets[i].pyth_feed_id {
        return Err(MarketError::InvalidPriceFeed);
    }
    if round.settled {
        return Ok(RoundProgress { start_locked: false, end_locked: false, settlement: None, next_round: None });
    }
    let lock_start = !round.start_price_set;
    let lock_end = !round.end_price_set && now >= 0 && (now as u64) >= round.end_time;
    let mut price: u64 = 0;
    if lock_start || lock_end {
        price = match accept_price(reading, args.max_confidence) {
            Err(e) => {
                return Err(e);
            },
            Ok(p) => p,
        };
    }
    let settles = round.end_price_set || lock_end;
    if settles && round.round_index == u32::MAX {
        return Err(MarketError::InvalidArgument);
    }
    if lock_start {
        round.start_price = price;
        round.start_price_set = true;
    }
    if lock_end {
        round.end_price = price;
        round.end_price_set = true;
    }
    if !settles {
        return Ok(RoundProgress { start_locked: lock_start, end_locked: lock_end, settlement: None, next_round: None });
    }
    let plan = plan_settlement(
        round.start_price,
        round.end_price,
        round.total_up,
        round.total_down,
        state.markets[i].fee_rate,
        state.creator_fee_percent,
    );
    proof {
        crate::settlement::lemma_settling_keeps_stakes(round.bets@, plan, Direction::Up);
        crate::settlement::lemma_settling_keeps_stakes(round.bets@, plan, Direction::Down);
    }
    pay_out(&mut round.bets, &plan);
    round.settled = true;
    let next_index: u32 = round.round_index + 1;
    let (start, end) = round_window(&state.markets[i], next_index);
    let next = Round::new(args.market_id.clone(), next_index, start, end);
    let advanced = advanced_market(&state.markets[i], next_index);
    let ghost before = state.markets@;
    state.markets.set(i, advanced);
    proof {
        lemma_market_ids_kept(before, state.markets@, i as int);
    }
    Ok(RoundProgress { start_locked: lock_start, end_locked: lock_end, settlement: Some(plan), next_round: Some(next) })
}

/// Replacing a market by one with the same id and fee rate keeps the catalog invariant.
proof fn lemma_market_ids_kept(before: Seq<Market>, after: Seq<Market>, i: int)
    requires
        0 <= i < before.len(),
        after == before.update(i, after[i]),
        after[i].market_id@ == before[i].market_id@,
        after[i].fee_rate == before[i].fee_rate,
    ensures
        forall|j: int| 0 <= j < after.len() ==> #[trigger] after[j].market_id@ == before[j].market_id@
            && after[j].fee_rate == before[j].fee_rate,
{
}

/// Once a round is settled, processing it again depends neither on the oracle
/// nor on the time: it fails exactly when an account check fails, and
/// otherwise (by `process_round`) changes nothing and pays nothing.
pub proof fn lemma_settled_round_is_final(
    state: State,
    round: Round,
    args: ProcessRoundArgs,
    admin: Pubkey,
    creator: Pubkey,
    now: i64,
    reading: Result<OraclePrice, PriceFault>,
    later: i64,
    other_reading: Result<OraclePrice, PriceFault>,
)
    requires
        round.settled,
    ensures
        process_verdict(state, round, args, admin, creator, now, reading) == process_verdict(
            state,
            round,
            args,
            admin,
            creator,
            later,
            other_reading,
        ),
        process_verdict(state, round, args, admin, creator, now, reading) is Err
            <==> process_accounts(state, round, args, admin, creator) is Err,
{
}

/// Processes a round at time `now`, reading the price of the feed named in
/// `args` from a Pyth price update.
///
/// Whatever the update holds: a failed account check fails with its error
/// and a settled round is left as it is, with nothing paid; any refusal
/// changes nothing; and a settlement, when one is made, is the one that the
/// locked prices and the round's pools call for.
pub fn process_round_with_oracle(
    state: &mut State,
    round: &mut Round,
    args: &ProcessRoundArgs,
    admin: &Pubkey,
    creator: &Pubkey,
    now: i64,
    update: &PriceUpdateV2,
) -> (r: Result<RoundProgress, MarketError>)
    requires
        old(state).wf(),
        old(round).wf(),
    ensures
        final(state).wf(),
        final(round).wf(),
        process_accounts(*old(state), *old(round), *args, *admin, *creator) matches Err(e) ==> r
            == Err::<RoundProgress, MarketError>(e),
        r is Err ==> *final(state) == *old(state) && *final(round) == *old(round),
        process_accounts(*old(state), *old(round), *args, *admin, *creator) is Ok && old(round).settled ==> (
        r matches Ok(p) && p.settlement is None && p.next_round is None && *final(state) == *old(state)
            && *final(round) == *old(round)),
        r matches Ok(p) ==> p.settlement is Some ==> {
            let i = process_accounts(*old(state), *old(round), *args, *admin, *creator)->Ok_0;
            &&& final(round).settled
            &&& p.settlement == Some(
                settlement_plan(
                    final(round).start_price,
                    final(round).end_price,
                    old(round).total_up,
                    old(round).total_down,
                    old(state).markets@[i].fee_rate,
                    old(state).creator_fee_percent,
                ),
            )
            &&& final(round).bets@ == settled_bets(old(round).bets@, p.settlement->Some_0)
        },
        r matches Ok(p) ==> !old(round).settled ==> {
            &&& p.start_locked == needs_start(*old(round))
            &&& p.end_locked == needs_end(*old(round), now)
            &&& final(round).start_price_set
            &&& (old(round).start_price_set ==> final(round).start_price == old(round).start_price)
            &&& final(round).end_price_set == will_settle(*old(round), now)
            &&& (old(round).end_price_set ==> final(round).end_price == old(round).end_price)
            &&& final(round).settled == will_settle(*old(round), now)
            &&& (p.settlement is Some <==> will_settle(*old(round), now))
            &&& (p.next_round is Some <==> will_settle(*old(round), now))
            &&& final(round).market_id@ == old(round).market_id@
            &&& final(round).round_index == old(round).round_index
            &&& final(round).start_time == old(round).start_time
            &&& final(round).end_time == old(round).end_time
            &&& final(round).total_up == old(round).total_up
            &&& final(round).total_down == old(round).total_down
            &&& (!will_settle(*old(round), now) ==> final(round).bets@ == old(round).bets@
                && *final(state) == *old(state))
        },
        process_accounts(*old(state), *old(round), *args, *admin, *creator) is Ok && !old(round).settled
            && !needs_price(*old(round), now) && !(will_settle(*old(round), now) && old(round).round_index
            == u32::MAX) ==> r is Ok,
{
    let reading = read_oracle(update, now, args.maximum_age, &args.feed_id);
    process_round(state, round, args, admin, creator, now, &reading)
}

/// A payment owed out of escrow: bet `bet_index` of the round pays `amount` to `user`.
#[derive(Clone, Copy, Debug)]
pub struct Payout {
    pub bet_index: usize,
    pub user: Pubkey,
    pub amount: u64,
}

/// Whether `user` is one of `bettors`.
pub open spec fn listed(bettors: Seq<Pubkey>, user: Pubkey) -> bool {
    exists|j: int| 0 <= j < bettors.len() && #[trigger] bettors[j]@ == user@
}

/// Whether bet `b` is paid by a redemption for `bettors`: its bettor is
/// listed, it has a payout and it has not been paid yet.
pub open spec fn claimable(b: Bet, bettors: Seq<Pubkey>) -> bool {
    listed(bettors, b.user) && !b.redeemed && b.result > 0
}

/// `b` after a redemption for `bettors`.
pub open spec fn redeemed_bet(b: Bet, bettors: Seq<Pubkey>) -> Bet {
    if claimable(b, bettors) {
        Bet { user: b.user, amount: b.amount, result: b.result, direction: b.direction, redeemed: true }
    } else {
        b
    }
}

/// The ledger `bets` after a redemption for `bettors`.
pub open spec fn redeem_all(bets: Seq<Bet>, bettors: Seq<Pubkey>) -> Seq<Bet> {
    Seq::new(bets.len(), |i: int| redeemed_bet(bets[i], bettors))
}

/// The payments a redemption for `bettors` owes on `bets`, in ledger order.
pub open spec fn payouts_of(bets: Seq<Bet>, bettors: Seq<Pubkey>) -> Seq<Payout>
    decreases bets.len(),
{
    if bets.len() == 0 {
        Seq::empty()
    } else {
        let before = payouts_of(bets.drop_last(), bettors);
        let b = bets.last();
        if claimable(b, bettors) {
            before.push(Payout { bet_index: (bets.len() - 1) as usize, user: b.user, amount: b.result })
        } else {
            before
        }
    }
}

/// The total of a list of payments.
pub open spec fn paid_total(payouts: Seq<Payout>) -> nat
    decreases payouts.len(),
{
    if payouts.len() == 0 {
        0
    } else {
        paid_total(payouts.drop_last()) + payouts.last().amount as nat
    }
}

/// Whether `user` is one of `bettors`.
pub fn is_listed(bettors: &Vec<Pubkey>, user: &Pubkey) -> (r: bool)
    ensures
        r == listed(bettors@, *user),
{
    let mut j: usize = 0;
    while j < bettors.len()
        invariant
            j <= bettors@.len(),
            forall|k: int| 0 <= k < j ==> #[trigger] bettors@[k]@ != user@,
        decreases bettors@.len() - j,
    {
        if bettors[j] == *user {
            return true;
        }
        j = j + 1;
    }
    false
}

/// Redeems the bets of `bettors` on `round`: each listed bettor's bet that has
/// a payout and was not paid yet is marked redeemed, and its payment is
/// handed back for the caller to make out of escrow. Bets already redeemed,
/// bets without a payout and unlisted bettors are left alone, so calling it
/// again, with the same or an overlapping list, never pays a bet twice.
pub fn refund_round(round: &mut Round, bettors: &Vec<Pubkey>) -> (payouts: Vec<Payout>)
    requires
        old(round).wf(),
    ensures
        final(round).wf(),
        same_schedule(*final(round), *old(round)),
        final(round).total_up == old(round).total_up,
        final(round).total_down == old(round).total_down,
        final(round).bets@ == redeem_all(old(round).bets@, bettors@),
        payouts@ == payouts_of(old(round).bets@, bettors@),
{
    let ghost orig = round.bets@;
    let n = round.bets.len();
    let mut payouts: Vec<Payout> = Vec::new();
    let mut i: usize = 0;
    while i < n
        invariant
            n == orig.len(),
            round.bets@.len() == n,
            i <= n,
            old(round).wf(),
            orig == old(round).bets@,
            same_schedule(*round, *old(round)),
            round.total_up == old(round).total_up,
            round.total_down == old(round).total_down,
            forall|j: int| 0 <= j < i ==> #[trigger] round.bets@[j] == redeemed_bet(orig[j], bettors@),
            forall|j: int| i <= j < n ==> #[trigger] round.bets@[j] == orig[j],
            payouts@ == payouts_of(orig.subrange(0, i as int), bettors@),
        decreases n - i,
    {
        let b = round.bets[i];
        assert(orig.subrange(0, i + 1).drop_last() =~= orig.subrange(0, i as int));
        if !b.redeemed && b.result > 0 && is_listed(bettors, &b.user) {
            round.bets.set(
                i,
                Bet { user: b.user, amount: b.amount, result: b.result, direction: b.direction, redeemed: true },
            );
            payouts.push(Payout { bet_index: i, user: b.user, amount: b.result });
        }
        i = i + 1;
    }
    proof {
        assert(orig.subrange(0, n as int) =~= orig);
        assert(round.bets@ =~= redeem_all(orig, bettors@));
        lemma_redeem_keeps_stakes(orig, bettors@, Direction::Up);
        lemma_redeem_keeps_stakes(orig, bettors@, Direction::Down);
    }
    payouts
}

/// Redemption changes no stake, so it keeps the pools and the stake facts.
proof fn lemma_redeem_keeps_stakes(bets: Seq<Bet>, bettors: Seq<Pubkey>, d: Direction)
    ensures
        pool_of(redeem_all(bets, bettors), d) == pool_of(bets, d),
        crate::state::stakes_positive(bets) ==> crate::state::stakes_positive(redeem_all(bets, bettors)),
    decreases bets.len(),
{
    if bets.len() > 0 {
        assert(redeem_all(bets, bettors).drop_last() =~= redeem_all(bets.drop_last(), bettors));
        lemma_redeem_keeps_stakes(bets.drop_last(), bettors, d);
    }
}

/// A redemption leaves nothing more to pay to the bettors it was for: a
/// second redemption with the same list owes no payment, for a total of zero.
pub proof fn lemma_no_double_redemption(bets: Seq<Bet>, bettors: Seq<Pubkey>)
    ensures
        payouts_of(redeem_all(bets, bettors), bettors).len() == 0,
        paid_total(payouts_of(redeem_all(bets, bettors), bettors)) == 0,
    decreases bets.len(),
{
    if bets.len() > 0 {
        assert(redeem_all(bets, bettors).drop_last() =~= redeem_all(bets.drop_last(), bettors));
        lemma_no_double_redemption(bets.drop_last(), bettors);
    }
}

/// Whether every bet with a payout has been paid.
pub open spec fn fully_redeemed(bets: Seq<Bet>) -> bool {
    forall|i: int| 0 <= i < bets.len() ==> #[trigger] bets[i].result == 0 || bets[i].redeemed
}

/// The decision on closing a round: its market must exist, the signer must be
/// the market's creator, and the round must be settled with every payout made.
pub open spec fn close_verdict(state: State, round: Round, signer: Pubkey) -> Result<(), MarketError> {
    match market_index(state.markets@, round.market_id@) {
        None => Err(MarketError::InvalidMarket),
        Some(i) => if signer@ != state.markets@[i].creator_pubkey@ {
            Err(MarketError::IllegalOwner)
        } else if !round.settled || !fully_redeemed(round.bets@) {
            Err(MarketError::InvalidArgument)
        } else {
            Ok(())
        },
    }
}

/// Decides whether `signer` may reclaim the storage of `round`. Closing has no
/// financial effect.
pub fn close_round(state: &State, round: &Round, signer: &Pubkey) -> (r: Result<(), MarketError>)
    ensures
        r == close_verdict(*state, *round, *signer),
{
    let i = match find_market(&state.markets, &round.market_id) {
        None => {
            return Err(MarketError::InvalidMarket);
        },
        Some(i) => i,
    };
    if !(*signer == state.markets[i].creator_pubkey) {
        return Err(MarketError::IllegalOwner);
    }
    if !round.settled {
        return Err(MarketError::InvalidArgument);
    }
    let mut k: usize = 0;
    while k < round.bets.len()
        invariant
            k <= round.bets@.len(),
            round.settled,
            market_index(state.markets@, round.market_id@) == Some(i as int),
            signer@ == state.markets@[i as int].creator_pubkey@,
            forall|j: int| 0 <= j < k ==> #[trigger] round.bets@[j].result == 0 || round.bets@[j].redeemed,
        decreases round.bets@.len() - k,
    {
        if round.bets[k].result > 0 && !round.bets[k].redeemed {
            assert(!(round.bets@[k as int].result == 0 || round.bets@[k as int].redeemed));
            return Err(MarketError::InvalidArgument);
        }
        k = k + 1;
    }
    Ok(())
}

} // verus!
