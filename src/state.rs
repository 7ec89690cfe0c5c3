use vstd::prelude::*;

verus! {

/// A 32-byte account identity: a bettor, a market creator, the admin or the escrow.
#[derive(Clone, Copy, Debug)]
pub struct Pubkey {
    pub bytes: [u8; 32],
}

impl View for Pubkey {
    type V = Seq<u8>;

    open spec fn view(&self) -> Seq<u8> {
        self.bytes@
    }
}

impl PartialEq for Pubkey {
    fn eq(&self, o: &Pubkey) -> (r: bool)
        ensures
            r == (self@ == o@),
    {
        let mut i: usize = 0;
        while i < 32
            invariant
                i <= 32,
                forall|j: int| 0 <= j < i ==> self.bytes@[j] == o.bytes@[j],
            decreases 32 - i,
        {
            if self.bytes[i] != o.bytes[i] {
                return false;
            }
            i = i + 1;
        }
        assert(self@ =~= o@);
        true
    }
}

impl vstd::std_specs::cmp::PartialEqSpecImpl for Pubkey {
    open spec fn obeys_eq_spec() -> bool {
        true
    }

    open spec fn eq_spec(&self, o: &Pubkey) -> bool {
        self@ == o@
    }
}

impl Pubkey {
    pub fn new(bytes: [u8; 32]) -> (r: Pubkey)
        ensures
            r.bytes == bytes,
    {
        Pubkey { bytes }
    }
}

/// The side of a wager.
#[derive(Clone, Copy, Debug, PartialEq, Eq, Structural)]
pub enum Direction {
    Up,
    Down,
}

/// One wager of a round.
///
/// `result` is 0 until the round settles and then holds the final payout;
/// `redeemed` latches once that payout has left escrow.
#[derive(Clone, Copy, Debug)]
pub struct Bet {
    pub user: Pubkey,
    pub amount: u64,
    pub result: u64,
    pub direction: Direction,
    pub redeemed: bool,
}

/// A whitelisted price feed, with the bounds that markets on it must respect.
#[derive(Clone, Debug)]
pub struct PriceFeedConfig {
    pub symbol: String,
    pub pyth_feed_id: String,
    pub create_market_lamports: u64,
    pub min_betting_lamports: u64,
    pub min_betting_period: u16,
    pub max_betting_period: u16,
    pub min_settling_period: u16,
    pub max_settling_period: u16,
}

/// The configuration of one market. `round_index` is the round currently open.
#[derive(Clone, Debug)]
pub struct Market {
    pub market_id: String,
    pub pyth_feed_id: String,
    pub creation_time: u32,
    pub paused: bool,
    /// Protocol fee on the losing pool, in percent.
    pub fee_rate: u8,
    pub min_betting_price: u64,
    pub betting_period: u16,
    pub settling_period: u16,
    pub creator_pubkey: Pubkey,
    pub round_index: u32,
}

/// One betting epoch of a market.
///
/// `start_price_set`, `end_price_set` and `settled` are one-way latches.
#[derive(Clone, Debug)]
pub struct Round {
    pub market_id: String,
    pub round_index: u32,
    pub start_time: u64,
    pub end_time: u64,
    pub start_price: u64,
    pub end_price: u64,
    pub start_price_set: bool,
    pub end_price_set: bool,
    pub total_up: u64,
    pub total_down: u64,
    pub bets: Vec<Bet>,
    pub settled: bool,
}

/// The program-wide record: admin, escrow, fee split, feed whitelist and market catalog.
#[derive(Clone, Debug)]
pub struct State {
    pub admin_pubkey: Pubkey,
    pub escrow_pubkey: Pubkey,
    pub escrow_bump: u8,
    /// Share of each protocol fee that goes to the market's creator, in percent.
    pub creator_fee_percent: u8,
    pub allowed_pricefeeds: Vec<PriceFeedConfig>,
    pub markets: Vec<Market>,
}

/// Total staked on side `d` by the bets of `bets`.
pub open spec fn pool_of(bets: Seq<Bet>, d: Direction) -> nat
    decreases bets.len(),
{
    if bets.len() == 0 {
        0
    } else {
        pool_of(bets.drop_last(), d) + if bets.last().direction == d {
            bets.last().amount as nat
        } else {
            0
        }
    }
}

/// Total staked by the bets of `bets`, on both sides.
pub open spec fn staked_total(bets: Seq<Bet>) -> nat {
    pool_of(bets, Direction::Up) + pool_of(bets, Direction::Down)
}

/// Sum of the results of the bets of `bets` on side `d`.
pub open spec fn results_on(bets: Seq<Bet>, d: Direction) -> nat
    decreases bets.len(),
{
    if bets.len() == 0 {
        0
    } else {
        results_on(bets.drop_last(), d) + if bets.last().direction == d {
            bets.last().result as nat
        } else {
            0
        }
    }
}

/// Sum of the results of all bets of `bets`.
pub open spec fn results_total(bets: Seq<Bet>) -> nat {
    results_on(bets, Direction::Up) + results_on(bets, Direction::Down)
}

/// Number of bets of `bets` on side `d`.
pub open spec fn count_on(bets: Seq<Bet>, d: Direction) -> nat
    decreases bets.len(),
{
    if bets.len() == 0 {
        0
    } else {
        count_on(bets.drop_last(), d) + if bets.last().direction == d {
            1nat
        } else {
            0
        }
    }
}

/// Each bet of `bets` staked something.
pub open spec fn stakes_positive(bets: Seq<Bet>) -> bool {
    forall|i: int| 0 <= i < bets.len() ==> #[trigger] bets[i].amount > 0
}

/// A stake on side `d` is part of the pool of `d`, so it is at most that pool.
pub proof fn lemma_stake_within_pool(bets: Seq<Bet>, i: int)
    requires
        0 <= i < bets.len(),
    ensures
        bets[i].amount <= pool_of(bets, bets[i].direction),
    decreases bets.len(),
{
    if i < bets.len() - 1 {
        lemma_stake_within_pool(bets.drop_last(), i);
    }
}

/// Appending a bet adds its stake to the pool of its side only.
pub proof fn lemma_pool_push(bets: Seq<Bet>, b: Bet, d: Direction)
    ensures
        pool_of(bets.push(b), d) == pool_of(bets, d) + if b.direction == d {
            b.amount as nat
        } else {
            0
        },
{
    assert(bets.push(b).drop_last() =~= bets);
}

impl Round {
    /// The ledger invariant of a round: the pool totals are the sums of the
    /// stakes, the two pools together fit in a `u64`, every stake is positive,
    /// no bet has a result before settlement and a settled round has both prices.
    pub open spec fn wf(&self) -> bool {
        &&& self.total_up == pool_of(self.bets@, Direction::Up)
        &&& self.total_down == pool_of(self.bets@, Direction::Down)
        &&& self.total_up + self.total_down <= u64::MAX
        &&& stakes_positive(self.bets@)
        &&& forall|i: int|
            #![trigger self.bets@[i]]
            0 <= i < self.bets@.len() && !self.settled ==> self.bets@[i].result == 0
                && !self.bets@[i].redeemed
        &&& self.settled ==> self.start_price_set && self.end_price_set
    }

    /// Checks the ledger invariant.
    pub fn check_wf(&self) -> (r: bool)
        ensures
            r == self.wf(),
    {
        let n = self.bets.len();
        let mut up: u128 = 0;
        let mut down: u128 = 0;
        let mut i: usize = 0;
        while i < n
            invariant
                n == self.bets@.len(),
                i <= n,
                up == pool_of(self.bets@.subrange(0, i as int), Direction::Up),
                down == pool_of(self.bets@.subrange(0, i as int), Direction::Down),
                up <= i * u64::MAX,
                down <= i * u64::MAX,
                forall|j: int| 0 <= j < i ==> #[trigger] self.bets@[j].amount > 0,
                forall|j: int|
                    #![trigger self.bets@[j]]
                    0 <= j < i && !self.settled ==> self.bets@[j].result == 0 && !self.bets@[j].redeemed,
            decreases n - i,
        {
            let b = self.bets[i];
            assert(self.bets@.subrange(0, i + 1).drop_last() =~= self.bets@.subrange(0, i as int));
            if b.amount == 0 {
                assert(!stakes_positive(self.bets@));
                return false;
            }
            if !self.settled && (b.result != 0 || b.redeemed) {
                assert(!(self.bets@[i as int].result == 0 && !self.bets@[i as int].redeemed));
                return false;
            }
            proof {
                assert((i + 1) * u64::MAX == i * u64::MAX + u64::MAX) by (nonlinear_arith);
                assert((i + 1) * u64::MAX <= usize::MAX as int * u64::MAX) by (nonlinear_arith)
                    requires
                        i + 1 <= usize::MAX,
                ;
            }
            match b.direction {
                Direction::Up => {
                    up = up + b.amount as u128;
                },
                Direction::Down => {
                    down = down + b.amount as u128;
                },
            }
            i = i + 1;
        }
        assert(self.bets@.subrange(0, n as int) =~= self.bets@);
        up == self.total_up as u128 && down == self.total_down as u128 && (self.total_up as u128
            + self.total_down as u128) <= u64::MAX as u128 && (!self.settled || (self.start_price_set
            && self.end_price_set))
    }

    /// An empty round of market `market_id` open over `[start_time, end_time]`.
    pub fn new(market_id: String, round_index: u32, start_time: u64, end_time: u64) -> (r: Round)
        ensures
            r.wf(),
            r.market_id@ == market_id@,
            r.round_index == round_index,
            r.start_time == start_time,
            r.end_time == end_time,
            !r.start_price_set,
            !r.end_price_set,
            !r.settled,
            r.total_up == 0,
            r.total_down == 0,
            r.bets@.len() == 0,
    {
        Round {
            market_id,
            round_index,
            start_time,
            end_time,
            start_price: 0,
            end_price: 0,
            start_price_set: false,
            end_price_set: false,
            total_up: 0,
            total_down: 0,
            bets: Vec::new(),
            settled: false,
        }
    }
}

/// Whether two rounds agree on everything but their ledger and pool totals:
/// market, index, window, prices and latches.
pub open spec fn same_schedule(a: Round, b: Round) -> bool {
    &&& a.market_id@ == b.market_id@
    &&& a.round_index == b.round_index
    &&& a.start_time == b.start_time
    &&& a.end_time == b.end_time
    &&& a.start_price == b.start_price
    &&& a.end_price == b.end_price
    &&& a.start_price_set == b.start_price_set
    &&& a.end_price_set == b.end_price_set
    &&& a.settled == b.settled
}

/// The position of the first market of `ms`, from position `i` on, whose id is `id`.
pub open spec fn market_from(ms: Seq<Market>, id: Seq<char>, i: int) -> Option<int>
    decreases ms.len() - i,
{
    if i < 0 || i >= ms.len() {
        None
    } else if ms[i].market_id@ == id {
        Some(i)
    } else {
        market_from(ms, id, i + 1)
    }
}

/// The position of the market of `ms` whose id is `id`, if there is one.
pub open spec fn market_index(ms: Seq<Market>, id: Seq<char>) -> Option<int> {
    market_from(ms, id, 0)
}

/// What `market_from` finds is a market of that id, and it finds one whenever there is one.
pub proof fn lemma_market_from(ms: Seq<Market>, id: Seq<char>, i: int)
    requires
        0 <= i,
    ensures
        market_from(ms, id, i) matches Some(k) ==> i <= k < ms.len() && ms[k].market_id@ == id,
        market_from(ms, id, i) is None ==> forall|k: int|
            i <= k < ms.len() ==> #[trigger] ms[k].market_id@ != id,
    decreases ms.len() - i,
{
    if i < ms.len() && ms[i].market_id@ != id {
        lemma_market_from(ms, id, i + 1);
    }
}

/// Finds the market whose id is `id`.
pub fn find_market(markets: &Vec<Market>, id: &String) -> (r: Option<usize>)
    ensures
        r matches Some(k) ==> market_index(markets@, id@) == Some(k as int) && k < markets@.len(),
        r is None ==> market_index(markets@, id@) is None,
{
    let mut i: usize = 0;
    while i < markets.len()
        invariant
            i <= markets@.len(),
            market_index(markets@, id@) == market_from(markets@, id@, i as int),
        decreases markets@.len() - i,
    {
        if markets[i].market_id == *id {
            return Some(i);
        }
        i = i + 1;
    }
    None
}

impl State {
    /// Checks the catalog invariant.
    pub fn check_wf(&self) -> (r: bool)
        ensures
            r == self.wf(),
    {
        if self.creator_fee_percent > 100 {
            return false;
        }
        let n = self.markets.len();
        let mut i: usize = 0;
        while i < n
            invariant
                n == self.markets@.len(),
                i <= n,
                forall|k: int| 0 <= k < i ==> #[trigger] self.markets@[k].fee_rate <= 100,
                forall|k: int, j: int|
                    0 <= k < j < n && k < i ==> #[trigger] self.markets@[k].market_id@
                        != #[trigger] self.markets@[j].market_id@,
            decreases n - i,
        {
            if self.markets[i].fee_rate > 100 {
                return false;
            }
            let mut j: usize = i + 1;
            while j < n
                invariant
                    n == self.markets@.len(),
                    i < n,
                    i + 1 <= j <= n,
                    forall|k: int| 0 <= k <= i ==> #[trigger] self.markets@[k].fee_rate <= 100,
                    forall|k: int, l: int|
                        0 <= k < l < n && k < i ==> #[trigger] self.markets@[k].market_id@
                            != #[trigger] self.markets@[l].market_id@,
                    forall|l: int| i < l < j ==> self.markets@[i as int].market_id@ != #[trigger] self.markets@[l].market_id@,
                decreases n - j,
            {
                if self.markets[i].market_id == self.markets[j].market_id {
                    return false;
                }
                j = j + 1;
            }
            i = i + 1;
        }
        let m = self.allowed_pricefeeds.len();
        let mut i: usize = 0;
        while i < m
            invariant
                m == self.allowed_pricefeeds@.len(),
                i <= m,
                forall|k: int, j: int|
                    0 <= k < j < m && k < i ==> #[trigger] self.allowed_pricefeeds@[k].symbol@
                        != #[trigger] self.allowed_pricefeeds@[j].symbol@,
            decreases m - i,
        {
            let mut j: usize = i + 1;
            while j < m
                invariant
                    m == self.allowed_pricefeeds@.len(),
                    i < m,
                    i + 1 <= j <= m,
                    forall|k: int, l: int|
                        0 <= k < l < m && k < i ==> #[trigger] self.allowed_pricefeeds@[k].symbol@
                            != #[trigger] self.allowed_pricefeeds@[l].symbol@,
                    forall|l: int| i < l < j ==> self.allowed_pricefeeds@[i as int].symbol@ != #[trigger] self.allowed_pricefeeds@[l].symbol@,
                decreases m - j,
            {
                if self.allowed_pricefeeds[i].symbol == self.allowed_pricefeeds[j].symbol {
                    return false;
                }
                j = j + 1;
            }
            i = i + 1;
        }
        true
    }

    /// The catalog invariant: fee shares are percents, market ids and feed
    /// symbols are unique.
    pub open spec fn wf(&self) -> bool {
        &&& self.creator_fee_percent <= 100
        &&& forall|i: int| 0 <= i < self.markets@.len() ==> #[trigger] self.markets@[i].fee_rate <= 100
        &&& forall|i: int, j: int|
            0 <= i < j < self.markets@.len() ==> #[trigger] self.markets@[i].market_id@
                != #[trigger] self.markets@[j].market_id@
        &&& forall|i: int, j: int|
            0 <= i < j < self.allowed_pricefeeds@.len() ==> #[trigger] self.allowed_pricefeeds@[i].symbol@
                != #[trigger] self.allowed_pricefeeds@[j].symbol@
    }
}

} // verus!
