use vstd::prelude::*;

use vstd::arithmetic::div_mod::{
    lemma_div_by_multiple, lemma_div_is_ordered, lemma_fundamental_div_mod, lemma_mod_bound,
};

use crate::constants::FEE_DENOMINATOR;
use crate::state::{count_on, pool_of, results_on, results_total, stakes_positive, staked_total, Bet, Direction};

verus! {

/// The figures of one settlement, fixed before any bet is touched.
///
/// In a push (`winner == None`) every figure is zero. Otherwise `loser_pool`
/// and `winner_pool` are the stakes of the two sides, `total_fee` is the fee
/// on the losing pool, `distributable` what of the losing pool goes to the
/// winners, and the fee is split between the market's creator and the admin.
#[derive(Clone, Copy, Debug, PartialEq, Eq, Structural)]
pub struct Settlement {
    pub winner: Option<Direction>,
    pub loser_pool: u64,
    pub winner_pool: u64,
    pub total_fee: u64,
    pub distributable: u64,
    pub fee_creator: u64,
    pub fee_admin: u64,
}

/// The side that wins when the price moves from `start_price` to `end_price`;
/// `None` when it did not move (a push).
pub open spec fn winner_of(start_price: u64, end_price: u64) -> Option<Direction> {
    if start_price < end_price {
        Some(Direction::Up)
    } else if start_price > end_price {
        Some(Direction::Down)
    } else {
        None
    }
}

/// The side other than `d`.
pub open spec fn other_side(d: Direction) -> Direction {
    match d {
        Direction::Up => Direction::Down,
        Direction::Down => Direction::Up,
    }
}

/// The pool staked on side `d`, given the two pool totals.
pub open spec fn side_total(d: Direction, total_up: u64, total_down: u64) -> u64 {
    match d {
        Direction::Up => total_up,
        Direction::Down => total_down,
    }
}

/// The protocol fee on a losing pool: `floor(loser_pool * fee_rate / 100)`.
pub open spec fn fee_on(loser_pool: int, fee_rate: int) -> int {
    loser_pool * fee_rate / FEE_DENOMINATOR as int
}

/// The creator's part of a fee: `floor(total_fee * creator_fee_percent / 100)`.
pub open spec fn creator_part(total_fee: int, creator_fee_percent: int) -> int {
    total_fee * creator_fee_percent / 100
}

/// The settlement of a round whose prices and pools are the given ones.
pub open spec fn settlement_plan(
    start_price: u64,
    end_price: u64,
    total_up: u64,
    total_down: u64,
    fee_rate: u8,
    creator_fee_percent: u8,
) -> Settlement {
    match winner_of(start_price, end_price) {
        None => Settlement {
            winner: None,
            loser_pool: 0,
            winner_pool: 0,
            total_fee: 0,
            distributable: 0,
            fee_creator: 0,
            fee_admin: 0,
        },
        Some(w) => {
            let loser_pool = side_total(other_side(w), total_up, total_down);
            let total_fee = fee_on(loser_pool as int, fee_rate as int);
            let fee_creator = creator_part(total_fee, creator_fee_percent as int);
            Settlement {
                winner: Some(w),
                loser_pool,
                winner_pool: side_total(w, total_up, total_down),
                total_fee: total_fee as u64,
                distributable: (loser_pool - total_fee) as u64,
                fee_creator: fee_creator as u64,
                fee_admin: (total_fee - fee_creator) as u64,
            }
        },
    }
}

/// The final payout of bet `b` under settlement `s`.
///
/// A push refunds every stake. Otherwise a losing bet gets nothing; a winning
/// bet gets its stake back, plus, when the losing pool is not empty, its
/// pro-rata share `floor(distributable * amount / winner_pool)` of what the
/// losers left after the fee.
pub open spec fn payout_of(b: Bet, s: Settlement) -> int {
    match s.winner {
        None => b.amount as int,
        Some(w) => if b.direction != w {
            0
        } else if s.loser_pool == 0 {
            b.amount as int
        } else {
            b.amount + s.distributable * b.amount / s.winner_pool as int
        },
    }
}

/// `b` with its result set to its payout under `s`.
pub open spec fn settled_bet(b: Bet, s: Settlement) -> Bet {
    Bet {
        user: b.user,
        amount: b.amount,
        result: payout_of(b, s) as u64,
        direction: b.direction,
        redeemed: b.redeemed,
    }
}

/// Every bet of `bets` with its result set to its payout under `s`.
pub open spec fn settled_bets(bets: Seq<Bet>, s: Settlement) -> Seq<Bet> {
    Seq::new(bets.len(), |i: int| settled_bet(bets[i], s))
}

/// The settlement that `bets` calls for under the given prices and fee rates.
pub open spec fn plan_for(
    bets: Seq<Bet>,
    start_price: u64,
    end_price: u64,
    fee_rate: u8,
    creator_fee_percent: u8,
) -> Settlement {
    settlement_plan(
        start_price,
        end_price,
        pool_of(bets, Direction::Up) as u64,
        pool_of(bets, Direction::Down) as u64,
        fee_rate,
        creator_fee_percent,
    )
}

/// Computes the settlement of a round from its prices and pools.
///
/// The fee never exceeds the losing pool and the creator's part never exceeds
/// the fee, so the two fee parts together are the fee exactly.
pub fn plan_settlement(
    start_price: u64,
    end_price: u64,
    total_up: u64,
    total_down: u64,
    fee_rate: u8,
    creator_fee_percent: u8,
) -> (s: Settlement)
    requires
        fee_rate <= 100,
        creator_fee_percent <= 100,
    ensures
        s == settlement_plan(start_price, end_price, total_up, total_down, fee_rate, creator_fee_percent),
        s.total_fee + s.distributable == s.loser_pool,
        s.fee_creator + s.fee_admin == s.total_fee,
{
    let winner: Direction;
    if start_price < end_price {
        winner = Direction::Up;
    } else if start_price > end_price {
        winner = Direction::Down;
    } else {
        return Settlement {
            winner: None,
            loser_pool: 0,
            winner_pool: 0,
            total_fee: 0,
            distributable: 0,
            fee_creator: 0,
            fee_admin: 0,
        };
    }
    let (loser_pool, winner_pool) = match winner {
        Direction::Up => (total_down, total_up),
        Direction::Down => (total_up, total_down),
    };
    proof {
        lemma_product_fits_u128(loser_pool as int, fee_rate as int);
        assert((loser_pool as int) * (fee_rate as int) <= (loser_pool as int) * 100) by (nonlinear_arith)
            requires
                fee_rate <= 100,
                loser_pool >= 0,
        ;
        lemma_div_is_ordered((loser_pool as int) * (fee_rate as int), (loser_pool as int) * 100, 100);
        lemma_div_by_multiple(loser_pool as int, 100);
    }
    let wide_fee: u128 = (loser_pool as u128) * (fee_rate as u128) / (FEE_DENOMINATOR as u128);
    let total_fee: u64 = wide_fee as u64;
    proof {
        lemma_product_fits_u128(total_fee as int, creator_fee_percent as int);
        assert((total_fee as int) * (creator_fee_percent as int) <= (total_fee as int) * 100) by (nonlinear_arith)
            requires
                creator_fee_percent <= 100,
                total_fee >= 0,
        ;
        lemma_div_is_ordered((total_fee as int) * (creator_fee_percent as int), (total_fee as int) * 100, 100);
        lemma_div_by_multiple(total_fee as int, 100);
    }
    let wide_creator: u128 = (total_fee as u128) * (creator_fee_percent as u128) / 100;
    let fee_creator: u64 = wide_creator as u64;
    Settlement {
        winner: Some(winner),
        loser_pool,
        winner_pool,
        total_fee,
        distributable: loser_pool - total_fee,
        fee_creator,
        fee_admin: total_fee - fee_creator,
    }
}

/// The pro-rata share of a winning stake: `floor(distributable * amount / winner_pool)`,
/// computed in 128 bits. It never exceeds `distributable`.
pub fn winner_share(distributable: u64, amount: u64, winner_pool: u64) -> (share: u64)
    requires
        0 < winner_pool,
        amount <= winner_pool,
    ensures
        share == distributable * amount / winner_pool as int,
        share <= distributable,
{
    proof {
        lemma_share_bounded(distributable as int, amount as int, winner_pool as int);
        lemma_product_fits_u128(distributable as int, amount as int);
    }
    let wide: u128 = (distributable as u128) * (amount as u128) / (winner_pool as u128);
    wide as u64
}

/// The product of two `u64` values fits in a `u128`.
proof fn lemma_product_fits_u128(a: int, b: int)
    requires
        0 <= a <= u64::MAX,
        0 <= b <= u64::MAX,
    ensures
        0 <= a * b <= u128::MAX,
{
    assert(0 <= a * b <= u64::MAX * u64::MAX) by (nonlinear_arith)
        requires
            0 <= a <= u64::MAX,
            0 <= b <= u64::MAX,
    ;
}

/// `floor(d * a / w) <= d` when `a <= w`.
proof fn lemma_share_bounded(d: int, a: int, w: int)
    requires
        0 <= d,
        0 <= a <= w,
        0 < w,
    ensures
        0 <= d * a / w <= d,
{
    assert(0 <= d * a <= d * w) by (nonlinear_arith)
        requires
            0 <= d,
            0 <= a <= w,
    ;
    lemma_div_is_ordered(d * a, d * w, w);
    lemma_div_is_ordered(0, d * a, w);
    lemma_div_by_multiple(d, w);
}

/// What settling needs of a plan and a ledger: the stakes are positive, the
/// stakes on the winning side are within the plan's winning pool, the pools
/// fit in a `u64` together, and the losers' part left after the fee is at
/// most the losing pool.
pub open spec fn plan_fits(bets: Seq<Bet>, s: Settlement) -> bool {
    &&& stakes_positive(bets)
    &&& s.winner is Some ==> {
        &&& pool_of(bets, s.winner->Some_0) <= s.winner_pool
        &&& s.distributable <= s.loser_pool
        &&& s.winner_pool + s.loser_pool <= u64::MAX
    }
}

/// Each payout under a fitting plan fits in a `u64`.
proof fn lemma_payout_fits(bets: Seq<Bet>, s: Settlement, i: int)
    requires
        plan_fits(bets, s),
        0 <= i < bets.len(),
    ensures
        0 <= payout_of(bets[i], s) <= u64::MAX,
        s.winner is Some && bets[i].direction == s.winner->Some_0 ==> bets[i].amount <= s.winner_pool,
{
    if let Some(w) = s.winner {
        if bets[i].direction == w {
            crate::state::lemma_stake_within_pool(bets, i);
            if s.loser_pool != 0 {
                lemma_share_bounded(s.distributable as int, bets[i].amount as int, s.winner_pool as int);
            }
        }
    }
}

/// Sets the result of every bet of `bets` to its payout under `s`.
pub fn pay_out(bets: &mut Vec<Bet>, s: &Settlement)
    requires
        plan_fits(old(bets)@, *s),
    ensures
        final(bets)@ == settled_bets(old(bets)@, *s),
{
    let ghost orig = bets@;
    let n = bets.len();
    let mut i: usize = 0;
    while i < n
        invariant
            n == orig.len(),
            bets@.len() == n,
            plan_fits(orig, *s),
            i <= n,
            forall|j: int| 0 <= j < i ==> bets@[j] == settled_bet(orig[j], *s),
            forall|j: int| i <= j < n ==> bets@[j] == orig[j],
        decreases n - i,
    {
        let b = bets[i];
        proof {
            lemma_payout_fits(orig, *s, i as int);
        }
        let result: u64 = match s.winner {
            None => b.amount,
            Some(w) => {
                if b.direction != w {
                    0
                } else if s.loser_pool == 0 {
                    b.amount
                } else {
                    let share = winner_share(s.distributable, b.amount, s.winner_pool);
                    b.amount + share
                }
            },
        };
        bets.set(
            i,
            Bet {
                user: b.user,
                amount: b.amount,
                result,
                direction: b.direction,
                redeemed: b.redeemed,
            },
        );
        i = i + 1;
    }
    assert(bets@ =~= settled_bets(orig, *s));
}

/// Settling changes no stake, so it keeps the pools and the ledger invariant's stake facts.
pub proof fn lemma_settling_keeps_stakes(bets: Seq<Bet>, s: Settlement, d: Direction)
    ensures
        pool_of(settled_bets(bets, s), d) == pool_of(bets, d),
        stakes_positive(bets) ==> stakes_positive(settled_bets(bets, s)),
    decreases bets.len(),
{
    if bets.len() > 0 {
        assert(settled_bets(bets, s).drop_last() =~= settled_bets(bets.drop_last(), s));
        lemma_settling_keeps_stakes(bets.drop_last(), s, d);
    }
}

/// Bounds on the winners' payouts, over every prefix of the ledger: with `W`
/// the winning pool and `D` the distributable amount,
/// `W * results <= (W + D) * stakes` and
/// `W * results + W * count >= (W + D) * stakes + count`.
proof fn lemma_winner_sums(bets: Seq<Bet>, s: Settlement, w: Direction)
    requires
        plan_fits(bets, s),
        s.winner == Some(w),
        s.loser_pool > 0,
    ensures
        s.winner_pool * results_on(settled_bets(bets, s), w)
            <= (s.winner_pool + s.distributable) * pool_of(bets, w),
        s.winner_pool * results_on(settled_bets(bets, s), w) + s.winner_pool * count_on(bets, w)
            >= (s.winner_pool + s.distributable) * pool_of(bets, w) + count_on(bets, w),
        results_on(settled_bets(bets, s), other_side(w)) == 0,
        count_on(bets, w) == 0 ==> pool_of(bets, w) == 0,
    decreases bets.len(),
{
    let sb = settled_bets(bets, s);
    if bets.len() > 0 {
        let prefix = bets.drop_last();
        let n = bets.len() - 1;
        assert(plan_fits(prefix, s)) by {
            assert forall|i: int| 0 <= i < prefix.len() implies #[trigger] prefix[i].amount > 0 by {
                assert(prefix[i] == bets[i]);
            }
        }
        lemma_winner_sums(prefix, s, w);
        assert(sb.drop_last() =~= settled_bets(prefix, s));
        lemma_payout_fits(bets, s, n);
        let b = bets[n];
        let wp = s.winner_pool as int;
        let d = s.distributable as int;
        let r_prev = results_on(settled_bets(prefix, s), w) as int;
        let p_prev = pool_of(prefix, w) as int;
        let c_prev = count_on(prefix, w) as int;
        if b.direction == w {
            let a = b.amount as int;
            let share = d * a / wp;
            lemma_fundamental_div_mod(d * a, wp);
            lemma_mod_bound(d * a, wp);
            assert(sb.last().result == a + share);
            assert(wp * (r_prev + a + share) <= (wp + d) * (p_prev + a)) by (nonlinear_arith)
                requires
                    wp * r_prev <= (wp + d) * p_prev,
                    d * a == wp * share + (d * a) % wp,
                    0 <= (d * a) % wp,
            ;
            assert(wp * (r_prev + a + share) + wp * (c_prev + 1) >= (wp + d) * (p_prev + a) + c_prev + 1)
                by (nonlinear_arith)
                requires
                    wp * r_prev + wp * c_prev >= (wp + d) * p_prev + c_prev,
                    d * a == wp * share + (d * a) % wp,
                    (d * a) % wp < wp,
                    wp > 0,
            ;
            assert(results_on(sb, w) == r_prev + a + share);
            assert(pool_of(bets, w) == p_prev + a);
            assert(count_on(bets, w) == c_prev + 1);
        } else {
            assert(sb.last().result == 0);
            assert(results_on(sb, w) == r_prev);
            assert(pool_of(bets, w) == p_prev);
            assert(count_on(bets, w) == c_prev);
        }
    } else {
        assert(results_on(sb, w) == 0);
        assert(pool_of(bets, w) == 0);
        assert(count_on(bets, w) == 0);
        assert(results_on(sb, other_side(w)) == 0);
    }
}

/// The balance of a settled round.
///
/// For any ledger of positive stakes whose two pools fit in a `u64`, settled
/// under any prices and fee rates up to 100%:
/// - the fee and the distributable amount together are the losing pool, and
///   the creator's and the admin's fee parts together are the fee;
/// - when one side wins and neither pool is empty, the winners' results sum
///   to `winner_pool + distributable` less a rounding remainder that is under
///   the number of winning bets (it stays in escrow), and the losers get nothing;
/// - the payouts and the fee never exceed what was staked.
pub proof fn lemma_settlement_balance(
    bets: Seq<Bet>,
    start_price: u64,
    end_price: u64,
    fee_rate: u8,
    creator_fee_percent: u8,
)
    requires
        stakes_positive(bets),
        staked_total(bets) <= u64::MAX,
        fee_rate <= 100,
        creator_fee_percent <= 100,
    ensures
        ({
            let s = plan_for(bets, start_price, end_price, fee_rate, creator_fee_percent);
            let sb = settled_bets(bets, s);
            &&& s.total_fee + s.distributable == s.loser_pool
            &&& s.fee_creator + s.fee_admin == s.total_fee
            &&& s.winner is Some && s.loser_pool > 0 && s.winner_pool > 0 ==> {
                let w = s.winner->Some_0;
                &&& results_on(sb, w) <= s.winner_pool + s.distributable
                &&& results_on(sb, w) + count_on(bets, w) > s.winner_pool + s.distributable
                &&& results_on(sb, other_side(w)) == 0
            }
            &&& results_total(sb) + s.fee_creator + s.fee_admin <= staked_total(bets)
        }),
{
    let s = plan_for(bets, start_price, end_price, fee_rate, creator_fee_percent);
    lemma_plan_fees(pool_of(bets, Direction::Up) as u64, pool_of(bets, Direction::Down) as u64,
        start_price, end_price, fee_rate, creator_fee_percent);
    let sb = settled_bets(bets, s);
    match s.winner {
        None => {
            lemma_push_refunds(bets, s);
        },
        Some(w) => {
            if s.loser_pool == 0 {
                lemma_empty_losers_refund(bets, s, w);
            } else {
                assert(plan_fits(bets, s));
                lemma_winner_sums(bets, s, w);
                let wp = s.winner_pool as int;
                let d = s.distributable as int;
                let r = results_on(sb, w) as int;
                let c = count_on(bets, w) as int;
                if wp == 0 {
                    lemma_no_stakes_no_bets(bets, w);
                    lemma_nothing_staked_nothing_paid(bets, s, w);
                } else {
                    assert(c >= 1);
                    assert(r <= wp + d) by (nonlinear_arith)
                        requires
                            wp * r <= (wp + d) * wp,
                            wp > 0,
                    ;
                    assert(r + c > wp + d) by (nonlinear_arith)
                        requires
                            wp * r + wp * c >= (wp + d) * wp + c,
                            wp > 0,
                            c >= 1,
                    ;
                }
                match w {
                    Direction::Up => {},
                    Direction::Down => {},
                }
            }
        },
    }
}

/// The fee figures of a plan: the fee is within the losing pool and its two
/// parts add up to it.
proof fn lemma_plan_fees(
    total_up: u64,
    total_down: u64,
    start_price: u64,
    end_price: u64,
    fee_rate: u8,
    creator_fee_percent: u8,
)
    requires
        fee_rate <= 100,
        creator_fee_percent <= 100,
    ensures
        ({
            let s = settlement_plan(start_price, end_price, total_up, total_down, fee_rate, creator_fee_percent);
            &&& s.total_fee + s.distributable == s.loser_pool
            &&& s.fee_creator + s.fee_admin == s.total_fee
            &&& s.winner is Some ==> s.loser_pool == side_total(other_side(s.winner->Some_0), total_up, total_down)
                && s.winner_pool == side_total(s.winner->Some_0, total_up, total_down)
            &&& s.loser_pool == 0 ==> s.total_fee == 0
        }),
{
    if let Some(w) = winner_of(start_price, end_price) {
        let l = side_total(other_side(w), total_up, total_down) as int;
        let f = fee_on(l, fee_rate as int);
        assert(0 <= l * fee_rate <= l * 100) by (nonlinear_arith)
            requires
                fee_rate <= 100,
                l >= 0,
        ;
        lemma_div_is_ordered(l * fee_rate, l * 100, 100);
        lemma_div_is_ordered(0, l * fee_rate, 100);
        lemma_div_by_multiple(l, 100);
        assert(0 <= f * creator_fee_percent <= f * 100) by (nonlinear_arith)
            requires
                creator_fee_percent <= 100,
                f >= 0,
        ;
        lemma_div_is_ordered(f * creator_fee_percent, f * 100, 100);
        lemma_div_is_ordered(0, f * creator_fee_percent, 100);
        lemma_div_by_multiple(f, 100);
    }
}

/// A side that nobody staked on has no bets.
proof fn lemma_no_stakes_no_bets(bets: Seq<Bet>, d: Direction)
    requires
        stakes_positive(bets),
        pool_of(bets, d) == 0,
    ensures
        count_on(bets, d) == 0,
        forall|i: int| 0 <= i < bets.len() ==> #[trigger] bets[i].direction != d,
    decreases bets.len(),
{
    if bets.len() > 0 {
        let prefix = bets.drop_last();
        assert(stakes_positive(prefix)) by {
            assert forall|i: int| 0 <= i < prefix.len() implies #[trigger] prefix[i].amount > 0 by {
                assert(prefix[i] == bets[i]);
            }
        }
        assert(bets.last().amount > 0);
        lemma_no_stakes_no_bets(prefix, d);
        assert forall|i: int| 0 <= i < bets.len() implies #[trigger] bets[i].direction != d by {
            if i < bets.len() - 1 {
                assert(prefix[i] == bets[i]);
            }
        }
    }
}

/// A ledger with no bet on side `d` has nothing staked, no bet and no result on `d`.
proof fn lemma_nothing_staked_nothing_paid(bets: Seq<Bet>, s: Settlement, d: Direction)
    requires
        forall|i: int| 0 <= i < bets.len() ==> #[trigger] bets[i].direction != d,
    ensures
        results_on(settled_bets(bets, s), d) == 0,
        pool_of(bets, d) == 0,
        count_on(bets, d) == 0,
    decreases bets.len(),
{
    if bets.len() > 0 {
        let prefix = bets.drop_last();
        assert(settled_bets(bets, s).drop_last() =~= settled_bets(prefix, s));
        assert forall|i: int| 0 <= i < prefix.len() implies #[trigger] prefix[i].direction != d by {
            assert(prefix[i] == bets[i]);
        }
        lemma_nothing_staked_nothing_paid(prefix, s, d);
        assert(bets[bets.len() - 1].direction != d);
    }
}

/// A ledger whose every result equals its stake pays out exactly what was staked.
proof fn lemma_refund_sums(bets: Seq<Bet>, s: Settlement, d: Direction)
    requires
        forall|i: int| 0 <= i < bets.len() ==> #[trigger] payout_of(bets[i], s) == bets[i].amount,
    ensures
        results_on(settled_bets(bets, s), d) == pool_of(bets, d),
    decreases bets.len(),
{
    if bets.len() > 0 {
        let prefix = bets.drop_last();
        assert(settled_bets(bets, s).drop_last() =~= settled_bets(prefix, s));
        assert forall|i: int| 0 <= i < prefix.len() implies #[trigger] payout_of(prefix[i], s) == prefix[i].amount by {
            assert(prefix[i] == bets[i]);
        }
        lemma_refund_sums(prefix, s, d);
        assert(payout_of(bets[bets.len() - 1], s) == bets[bets.len() - 1].amount);
    }
}

/// In a push every result is the bet's stake, so the results sum to the stakes.
proof fn lemma_push_refunds(bets: Seq<Bet>, s: Settlement)
    requires
        s.winner is None,
    ensures
        results_total(settled_bets(bets, s)) == staked_total(bets),
{
    lemma_refund_sums(bets, s, Direction::Up);
    lemma_refund_sums(bets, s, Direction::Down);
}

/// When nobody bet on the losing side every bet is a winner and gets its stake back.
proof fn lemma_empty_losers_refund(bets: Seq<Bet>, s: Settlement, w: Direction)
    requires
        stakes_positive(bets),
        s.winner == Some(w),
        s.loser_pool == 0,
        pool_of(bets, other_side(w)) == 0,
    ensures
        results_total(settled_bets(bets, s)) == staked_total(bets),
{
    lemma_no_stakes_no_bets(bets, other_side(w));
    assert forall|i: int| 0 <= i < bets.len() implies #[trigger] payout_of(bets[i], s) == bets[i].amount by {
        assert(bets[i].direction != other_side(w));
    }
    lemma_refund_sums(bets, s, Direction::Up);
    lemma_refund_sums(bets, s, Direction::Down);
}

/// A push refunds every bettor's stake exactly and collects no fee.
pub proof fn lemma_push_outcome(
    bets: Seq<Bet>,
    price: u64,
    total_up: u64,
    total_down: u64,
    fee_rate: u8,
    creator_fee_percent: u8,
)
    ensures
        ({
            let s = settlement_plan(price, price, total_up, total_down, fee_rate, creator_fee_percent);
            &&& s.total_fee == 0 && s.fee_creator == 0 && s.fee_admin == 0
            &&& forall|i: int| 0 <= i < bets.len() ==> #[trigger] settled_bets(bets, s)[i].result
                == bets[i].amount
        }),
{
}

/// When the losing side has no stake, every winner receives exactly its stake
/// and no fee is collected.
pub proof fn lemma_empty_loser_pool_outcome(
    bets: Seq<Bet>,
    start_price: u64,
    end_price: u64,
    fee_rate: u8,
    creator_fee_percent: u8,
)
    requires
        fee_rate <= 100,
        creator_fee_percent <= 100,
        start_price != end_price,
        ({
            let w = winner_of(start_price, end_price)->Some_0;
            pool_of(bets, other_side(w)) == 0
        }),
    ensures
        ({
            let s = plan_for(bets, start_price, end_price, fee_rate, creator_fee_percent);
            let w = s.winner->Some_0;
            &&& s.total_fee == 0 && s.fee_creator == 0 && s.fee_admin == 0
            &&& forall|i: int|
                0 <= i < bets.len() && #[trigger] bets[i].direction == w ==> settled_bets(bets, s)[i].result
                    == bets[i].amount
        }),
{
    lemma_plan_fees(pool_of(bets, Direction::Up) as u64, pool_of(bets, Direction::Down) as u64,
        start_price, end_price, fee_rate, creator_fee_percent);
    let w = winner_of(start_price, end_price)->Some_0;
    match w {
        Direction::Up => {},
        Direction::Down => {},
    }
}

} // verus!
