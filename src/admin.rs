use vstd::prelude::*;

use crate::bet::round_window;
use crate::error::MarketError;
use crate::state::{
    find_market, lemma_market_from, market_index, Market, PriceFeedConfig, Pubkey, Round, State,
};

verus! {

/// Seed of the escrow vault's program-derived address: the bytes of `escrow_vault`.
pub open spec fn escrow_seed_bytes() -> Seq<u8> {
    seq![101u8, 115u8, 99u8, 114u8, 111u8, 119u8, 95u8, 118u8, 97u8, 117u8, 108u8, 116u8]
}

/// The escrow vault's seed.
pub fn escrow_seed() -> (r: Vec<u8>)
    ensures
        r@ == escrow_seed_bytes(),
{
    let r = vec![101u8, 115u8, 99u8, 114u8, 111u8, 119u8, 95u8, 118u8, 97u8, 117u8, 108u8, 116u8];
    assert(r@ =~= escrow_seed_bytes());
    r
}

/// The program-derived address and bump seed of `seed` under the program
/// `program_id`, if one exists: a function of the two alone.
pub uninterp spec fn program_address(seed: Seq<u8>, program_id: Seq<u8>) -> Option<(Seq<u8>, u8)>;

/// Relies on `Pubkey::try_find_program_address`: the program-derived address
/// and bump seed of `seed` under `program_id`, a function of the two alone,
/// or `None` when no bump seed gives an address off the curve.
#[verifier::external_body]
fn find_program_address(seed: &[u8], program_id: [u8; 32]) -> (r: Option<([u8; 32], u8)>)
    ensures
        r matches Some(found) ==> program_address(seed@, program_id@) == Some((found.0@, found.1)),
        r is None <==> program_address(seed@, program_id@) is None,
{
    let id = anchor_lang::prelude::Pubkey::new_from_array(program_id);
    anchor_lang::prelude::Pubkey::try_find_program_address(&[seed], &id).map(|(a, b)| (a.to_bytes(), b))
}

/// The roles an operation accepts.
#[derive(Clone, Copy, Debug, PartialEq, Eq, Structural)]
pub struct Roles {
    pub admin: bool,
    pub creator: bool,
}

/// Whether `caller` holds one of `roles`, given who the admin and the creator are.
pub open spec fn holds_role(caller: Pubkey, admin: Pubkey, creator: Pubkey, roles: Roles) -> bool {
    (roles.admin && caller@ == admin@) || (roles.creator && caller@ == creator@)
}

/// Checks that `caller` holds one of `roles`.
pub fn authorized(caller: &Pubkey, admin: &Pubkey, creator: &Pubkey, roles: Roles) -> (r: bool)
    ensures
        r == holds_role(*caller, *admin, *creator, roles),
{
    (roles.admin && *caller == *admin) || (roles.creator && *caller == *creator)
}

/// Sets up the program-wide record: the admin, the creator's share of fees
/// (a percent, at most 100) and the escrow vault's address and bump seed,
/// derived from its seed under `program_id`. Refused when the share is over
/// 100 or no address can be derived.
pub fn init_state(admin_pubkey: Pubkey, creator_fee_percent: u8, program_id: [u8; 32]) -> (r: Result<
    State,
    MarketError,
>)
    ensures
        creator_fee_percent > 100 ==> r == Err::<State, MarketError>(MarketError::InvalidArgument),
        creator_fee_percent <= 100 ==> (r is Ok <==> program_address(escrow_seed_bytes(), program_id@) is Some),
        r is Err ==> r == Err::<State, MarketError>(MarketError::InvalidArgument),
        r matches Ok(st) ==> {
            &&& st.wf()
            &&& st.admin_pubkey == admin_pubkey
            &&& st.creator_fee_percent == creator_fee_percent
            &&& program_address(escrow_seed_bytes(), program_id@) == Some((st.escrow_pubkey@, st.escrow_bump))
            &&& st.allowed_pricefeeds@.len() == 0
            &&& st.markets@.len() == 0
        },
{
    if creator_fee_percent > 100 {
        return Err(MarketError::InvalidArgument);
    }
    let seed = escrow_seed();
    match find_program_address(seed.as_slice(), program_id) {
        None => Err(MarketError::InvalidArgument),
        Some((escrow, bump)) => Ok(
            State {
                admin_pubkey,
                escrow_pubkey: Pubkey { bytes: escrow },
                escrow_bump: bump,
                creator_fee_percent,
                allowed_pricefeeds: Vec::new(),
                markets: Vec::new(),
            },
        ),
    }
}

/// The arguments of a price feed's whitelisting.
#[derive(Clone, Debug)]
pub struct AddPriceFeedArgs {
    pub symbol: String,
    pub pyth_feed_id: String,
    pub min_bet_period: u16,
    pub max_bet_period: u16,
    pub min_settle_period: u16,
    pub max_settle_period: u16,
    pub create_market_lamports: u64,
    pub min_betting_lamports: u64,
}

/// The position of the first feed of `fs`, from position `i` on, whose symbol is `symbol`.
pub open spec fn feed_from(fs: Seq<PriceFeedConfig>, symbol: Seq<char>, i: int) -> Option<int>
    decreases fs.len() - i,
{
    if i < 0 || i >= fs.len() {
        None
    } else if fs[i].symbol@ == symbol {
        Some(i)
    } else {
        feed_from(fs, symbol, i + 1)
    }
}

/// The position of the whitelisted feed whose symbol is `symbol`, if there is one.
pub open spec fn feed_index(fs: Seq<PriceFeedConfig>, symbol: Seq<char>) -> Option<int> {
    feed_from(fs, symbol, 0)
}

/// What `feed_from` finds is a feed of that symbol, and it finds one whenever there is one.
pub proof fn lemma_feed_from(fs: Seq<PriceFeedConfig>, symbol: Seq<char>, i: int)
    requires
        0 <= i,
    ensures
        feed_from(fs, symbol, i) matches Some(k) ==> i <= k < fs.len() && fs[k].symbol@ == symbol,
        feed_from(fs, symbol, i) is None ==> forall|k: int|
            i <= k < fs.len() ==> #[trigger] fs[k].symbol@ != symbol,
    decreases fs.len() - i,
{
    if i < fs.len() && fs[i].symbol@ != symbol {
        lemma_feed_from(fs, symbol, i + 1);
    }
}

/// Finds the whitelisted feed whose symbol is `symbol`.
pub fn find_feed(feeds: &Vec<PriceFeedConfig>, symbol: &String) -> (r: Option<usize>)
    ensures
        r matches Some(k) ==> feed_index(feeds@, symbol@) == Some(k as int) && k < feeds@.len(),
        r is None ==> feed_index(feeds@, symbol@) is None,
{
    let mut i: usize = 0;
    while i < feeds.len()
        invariant
            i <= feeds@.len(),
            feed_index(feeds@, symbol@) == feed_from(feeds@, symbol@, i as int),
        decreases feeds@.len() - i,
    {
        if feeds[i].symbol == *symbol {
            return Some(i);
        }
        i = i + 1;
    }
    None
}

/// The decision on whitelisting a feed: only the admin may, each maximum
/// period must be at least its minimum, and the symbol must be new.
pub open spec fn add_feed_verdict(state: State, signer: Pubkey, args: AddPriceFeedArgs) -> Result<
    (),
    MarketError,
> {
    if signer@ != state.admin_pubkey@ {
        Err(MarketError::IllegalOwner)
    } else if args.max_bet_period < args.min_bet_period || args.max_settle_period < args.min_settle_period {
        Err(MarketError::InvalidArgument)
    } else if feed_index(state.allowed_pricefeeds@, args.symbol@) is Some {
        Err(MarketError::AccountAlreadyInitialized)
    } else {
        Ok(())
    }
}

/// Whitelists a price feed, with the bounds that markets on it must respect.
pub fn add_price_feed(state: &mut State, signer: &Pubkey, args: AddPriceFeedArgs) -> (r: Result<
    (),
    MarketError,
>)
    requires
        old(state).wf(),
    ensures
        final(state).wf(),
        r == add_feed_verdict(*old(state), *signer, args),
        r is Err ==> *final(state) == *old(state),
        r is Ok ==> {
            &&& final(state).allowed_pricefeeds@.len() == old(state).allowed_pricefeeds@.len() + 1
            &&& final(state).allowed_pricefeeds@.drop_last() == old(state).allowed_pricefeeds@
            &&& feed_matches_args(final(state).allowed_pricefeeds@.last(), args)
            &&& final(state).markets == old(state).markets
            &&& final(state).admin_pubkey == old(state).admin_pubkey
            &&& final(state).creator_fee_percent == old(state).creator_fee_percent
            &&& final(state).escrow_pubkey == old(state).escrow_pubkey
            &&& final(state).escrow_bump == old(state).escrow_bump
        },
{
    if !(*signer == state.admin_pubkey) {
        return Err(MarketError::IllegalOwner);
    }
    if args.max_bet_period < args.min_bet_period || args.max_settle_period < args.min_settle_period {
        return Err(MarketError::InvalidArgument);
    }
    if find_feed(&state.allowed_pricefeeds, &args.symbol).is_some() {
        return Err(MarketError::AccountAlreadyInitialized);
    }
    proof {
        lemma_feed_from(state.allowed_pricefeeds@, args.symbol@, 0);
    }
    let ghost before = state.allowed_pricefeeds@;
    let config = PriceFeedConfig {
        symbol: args.symbol,
        pyth_feed_id: args.pyth_feed_id,
        create_market_lamports: args.create_market_lamports,
        min_betting_lamports: args.min_betting_lamports,
        min_betting_period: args.min_bet_period,
        max_betting_period: args.max_bet_period,
        min_settling_period: args.min_settle_period,
        max_settling_period: args.max_settle_period,
    };
    state.allowed_pricefeeds.push(config);
    proof {
        assert(state.allowed_pricefeeds@.drop_last() =~= before);
        assert forall|i: int, j: int|
            0 <= i < j < state.allowed_pricefeeds@.len() implies #[trigger] state.allowed_pricefeeds@[i].symbol@
            != #[trigger] state.allowed_pricefeeds@[j].symbol@ by {
            if j == before.len() {
                assert(state.allowed_pricefeeds@[i] == before[i]);
            } else {
                assert(state.allowed_pricefeeds@[i] == before[i]);
                assert(state.allowed_pricefeeds@[j] == before[j]);
            }
        }
    }
    Ok(())
}

/// Whether the feed `f` is the one `args` describes.
pub open spec fn feed_matches_args(f: PriceFeedConfig, args: AddPriceFeedArgs) -> bool {
    &&& f.symbol@ == args.symbol@
    &&& f.pyth_feed_id@ == args.pyth_feed_id@
    &&& f.create_market_lamports == args.create_market_lamports
    &&& f.min_betting_lamports == args.min_betting_lamports
    &&& f.min_betting_period == args.min_bet_period
    &&& f.max_betting_period == args.max_bet_period
    &&& f.min_settling_period == args.min_settle_period
    &&& f.max_settling_period == args.max_settle_period
}

/// The decision on removing a feed from the whitelist: only the admin may,
/// and the feed must be there.
pub open spec fn remove_feed_verdict(state: State, signer: Pubkey, symbol: Seq<char>) -> Result<(), MarketError> {
    if signer@ != state.admin_pubkey@ {
        Err(MarketError::IllegalOwner)
    } else if feed_index(state.allowed_pricefeeds@, symbol) is None {
        Err(MarketError::InvalidArgument)
    } else {
        Ok(())
    }
}

/// Removes the feed of symbol `symbol` from the whitelist. Markets already
/// created on it are not touched.
pub fn remove_price_feed(state: &mut State, signer: &Pubkey, symbol: &String) -> (r: Result<(), MarketError>)
    requires
        old(state).wf(),
    ensures
        final(state).wf(),
        r == remove_feed_verdict(*old(state), *signer, symbol@),
        r is Err ==> *final(state) == *old(state),
        r is Ok ==> {
            let k = feed_index(old(state).allowed_pricefeeds@, symbol@)->Some_0;
            &&& final(state).allowed_pricefeeds@ == old(state).allowed_pricefeeds@.remove(k)
            &&& final(state).markets == old(state).markets
            &&& final(state).admin_pubkey == old(state).admin_pubkey
            &&& final(state).creator_fee_percent == old(state).creator_fee_percent
            &&& final(state).escrow_pubkey == old(state).escrow_pubkey
            &&& final(state).escrow_bump == old(state).escrow_bump
        },
{
    if !(*signer == state.admin_pubkey) {
        return Err(MarketError::IllegalOwner);
    }
    let k = match find_feed(&state.allowed_pricefeeds, symbol) {
        None => {
            return Err(MarketError::InvalidArgument);
        },
        Some(k) => k,
    };
    let ghost before = state.allowed_pricefeeds@;
    let _removed = state.allowed_pricefeeds.remove(k);
    proof {
        let after = state.allowed_pricefeeds@;
        assert forall|i: int, j: int| 0 <= i < j < after.len() implies #[trigger] after[i].symbol@
            != #[trigger] after[j].symbol@ by {
            let oi = if i < k { i } else { i + 1 };
            let oj = if j < k { j } else { j + 1 };
            assert(after[i] == before[oi]);
            assert(after[j] == before[oj]);
        }
    }
    Ok(())
}

/// The arguments of a market's creation.
#[derive(Clone, Debug)]
pub struct CreateMarketArgs {
    pub fee_rate: u8,
    pub betting_period: u16,
    pub settling_period: u16,
    pub market_id: String,
    pub symbol: String,
}

/// A market just created: the creation fee the creator owes the admin, and
/// the market's first round.
#[derive(Debug)]
pub struct CreatedMarket {
    pub creation_fee: u64,
    pub first_round: Round,
}

/// The decision on creating a market, in this order: a fee rate over 100%, an
/// unknown feed symbol, periods outside the feed's bounds, an admin account
/// that is not the admin, and a market id already taken.
pub open spec fn create_verdict(state: State, admin: Pubkey, args: CreateMarketArgs) -> Result<int, MarketError> {
    if args.fee_rate > 100 {
        Err(MarketError::InvalidArgument)
    } else {
        match feed_index(state.allowed_pricefeeds@, args.symbol@) {
            None => Err(MarketError::InvalidPriceFeed),
            Some(f) => {
                let pf = state.allowed_pricefeeds@[f];
                if !(pf.min_betting_period <= args.betting_period <= pf.max_betting_period
                    && pf.min_settling_period <= args.settling_period <= pf.max_settling_period) {
                    Err(MarketError::InvalidArgument)
                } else if admin@ != state.admin_pubkey@ {
                    Err(MarketError::InvalidArgument)
                } else if market_index(state.markets@, args.market_id@) is Some {
                    Err(MarketError::AccountAlreadyInitialized)
                } else {
                    Ok(f)
                }
            },
        }
    }
}

/// Creates a market of `creator` on a whitelisted feed at time
/// `creation_time`, with its first round open.
///
/// The market takes the feed's id and minimum stake, is not paused and is at
/// round 1, whose window follows from the market's schedule. The caller
/// moves the feed's creation fee from the creator to the admin.
pub fn create_market(
    state: &mut State,
    creator: &Pubkey,
    admin: &Pubkey,
    args: &CreateMarketArgs,
    creation_time: u32,
) -> (r: Result<CreatedMarket, MarketError>)
    requires
        old(state).wf(),
    ensures
        final(state).wf(),
        r is Err <==> create_verdict(*old(state), *admin, *args) is Err,
        r matches Err(e) ==> create_verdict(*old(state), *admin, *args) == Err::<int, MarketError>(e)
            && *final(state) == *old(state),
        r matches Ok(c) ==> {
            let pf = old(state).allowed_pricefeeds@[create_verdict(*old(state), *admin, *args)->Ok_0];
            let mk = final(state).markets@.last();
            &&& final(state).markets@.len() == old(state).markets@.len() + 1
            &&& final(state).markets@.drop_last() == old(state).markets@
            &&& final(state).allowed_pricefeeds == old(state).allowed_pricefeeds
            &&& final(state).admin_pubkey == old(state).admin_pubkey
            &&& final(state).creator_fee_percent == old(state).creator_fee_percent
            &&& final(state).escrow_pubkey == old(state).escrow_pubkey
            &&& final(state).escrow_bump == old(state).escrow_bump
            &&& mk.market_id@ == args.market_id@
            &&& mk.pyth_feed_id@ == pf.pyth_feed_id@
            &&& mk.creation_time == creation_time
            &&& !mk.paused
            &&& mk.fee_rate == args.fee_rate
            &&& mk.min_betting_price == pf.min_betting_lamports
            &&& mk.betting_period == args.betting_period
            &&& mk.settling_period == args.settling_period
            &&& mk.creator_pubkey == *creator
            &&& mk.round_index == 1
            &&& c.creation_fee == pf.create_market_lamports
            &&& crate::bet::fresh_round(c.first_round, mk, 1)
        },
{
    if args.fee_rate > 100 {
        return Err(MarketError::InvalidArgument);
    }
    let f = match find_feed(&state.allowed_pricefeeds, &args.symbol) {
        None => {
            return Err(MarketError::InvalidPriceFeed);
        },
        Some(f) => f,
    };
    let pf = &state.allowed_pricefeeds[f];
    if !(pf.min_betting_period <= args.betting_period && args.betting_period <= pf.max_betting_period
        && pf.min_settling_period <= args.settling_period && args.settling_period
        <= pf.max_settling_period) {
        return Err(MarketError::InvalidArgument);
    }
    if !(*admin == state.admin_pubkey) {
        return Err(MarketError::InvalidArgument);
    }
    if find_market(&state.markets, &args.market_id).is_some() {
        return Err(MarketError::AccountAlreadyInitialized);
    }
    proof {
        lemma_market_from(state.markets@, args.market_id@, 0);
    }
    let market = Market {
        market_id: args.market_id.clone(),
        pyth_feed_id: pf.pyth_feed_id.clone(),
        creation_time,
        paused: false,
        fee_rate: args.fee_rate,
        min_betting_price: pf.min_betting_lamports,
        betting_period: args.betting_period,
        settling_period: args.settling_period,
        creator_pubkey: *creator,
        round_index: 1,
    };
    let creation_fee = pf.create_market_lamports;
    let (start, end) = round_window(&market, 1);
    let first_round = Round::new(args.market_id.clone(), 1, start, end);
    let ghost before = state.markets@;
    state.markets.push(market);
    proof {
        assert(state.markets@.drop_last() =~= before);
        assert forall|i: int| 0 <= i < state.markets@.len() implies #[trigger] state.markets@[i].fee_rate <= 100 by {
            if i < before.len() {
                assert(state.markets@[i] == before[i]);
            }
        }
        assert forall|i: int, j: int|
            0 <= i < j < state.markets@.len() implies #[trigger] state.markets@[i].market_id@
            != #[trigger] state.markets@[j].market_id@ by {
            assert(state.markets@[i] == before[i]);
            if j < before.len() {
                assert(state.markets@[j] == before[j]);
            }
        }
    }
    Ok(CreatedMarket { creation_fee, first_round })
}

/// A copy of `m` whose pause flag is `paused`.
fn with_paused(m: &Market, paused: bool) -> (r: Market)
    ensures
        r.market_id@ == m.market_id@,
        r.pyth_feed_id@ == m.pyth_feed_id@,
        r.creation_time == m.creation_time,
        r.paused == paused,
        r.fee_rate == m.fee_rate,
        r.min_betting_price == m.min_betting_price,
        r.betting_period == m.betting_period,
        r.settling_period == m.settling_period,
        r.creator_pubkey == m.creator_pubkey,
        r.round_index == m.round_index,
{
    Market {
        market_id: m.market_id.clone(),
        pyth_feed_id: m.pyth_feed_id.clone(),
        creation_time: m.creation_time,
        paused,
        fee_rate: m.fee_rate,
        min_betting_price: m.min_betting_price,
        betting_period: m.betting_period,
        settling_period: m.settling_period,
        creator_pubkey: m.creator_pubkey,
        round_index: m.round_index,
    }
}

/// Whether `after` is `before` with market `i` now paused (or resumed) as
/// `paused` and nothing else changed.
pub open spec fn pause_set(before: State, after: State, i: int, paused: bool) -> bool {
    &&& after.markets@.len() == before.markets@.len()
    &&& forall|j: int| 0 <= j < before.markets@.len() && j != i ==> #[trigger] after.markets@[j] == before.markets@[j]
    &&& after.markets@[i].paused == paused
    &&& after.markets@[i].market_id@ == before.markets@[i].market_id@
    &&& after.markets@[i].pyth_feed_id@ == before.markets@[i].pyth_feed_id@
    &&& after.markets@[i].creation_time == before.markets@[i].creation_time
    &&& after.markets@[i].fee_rate == before.markets@[i].fee_rate
    &&& after.markets@[i].min_betting_price == before.markets@[i].min_betting_price
    &&& after.markets@[i].betting_period == before.markets@[i].betting_period
    &&& after.markets@[i].settling_period == before.markets@[i].settling_period
    &&& after.markets@[i].creator_pubkey == before.markets@[i].creator_pubkey
    &&& after.markets@[i].round_index == before.markets@[i].round_index
    &&& after.allowed_pricefeeds == before.allowed_pricefeeds
    &&& after.admin_pubkey == before.admin_pubkey
    &&& after.escrow_pubkey == before.escrow_pubkey
    &&& after.escrow_bump == before.escrow_bump
    &&& after.creator_fee_percent == before.creator_fee_percent
}

/// Sets the pause flag of market `i`.
fn set_paused(state: &mut State, i: usize, paused: bool)
    requires
        old(state).wf(),
        i < old(state).markets@.len(),
    ensures
        final(state).wf(),
        pause_set(*old(state), *final(state), i as int, paused),
{
    let m = with_paused(&state.markets[i], paused);
    let ghost before = state.markets@;
    state.markets.set(i, m);
    proof {
        assert forall|j: int| 0 <= j < state.markets@.len() implies #[trigger] state.markets@[j].market_id@
            == before[j].market_id@ && state.markets@[j].fee_rate == before[j].fee_rate by {
            if j != i {
                assert(state.markets@[j] == before[j]);
            }
        }
    }
}

/// The decision on pausing a market: it must exist, and the signer must be
/// the admin or the market's creator. On success, the market's position.
pub open spec fn pause_verdict(state: State, signer: Pubkey, market_id: Seq<char>) -> Result<int, MarketError> {
    match market_index(state.markets@, market_id) {
        None => Err(MarketError::InvalidMarket),
        Some(i) => if !holds_role(
            signer,
            state.admin_pubkey,
            state.markets@[i].creator_pubkey,
            Roles { admin: true, creator: true },
        ) {
            Err(MarketError::IllegalOwner)
        } else {
            Ok(i)
        },
    }
}

/// Pauses a market: it takes no bets until resumed.
pub fn pause_market(state: &mut State, signer: &Pubkey, market_id: &String) -> (r: Result<(), MarketError>)
    requires
        old(state).wf(),
    ensures
        final(state).wf(),
        r is Err <==> pause_verdict(*old(state), *signer, market_id@) is Err,
        r matches Err(e) ==> pause_verdict(*old(state), *signer, market_id@) == Err::<int, MarketError>(e)
            && *final(state) == *old(state),
        r is Ok ==> pause_set(*old(state), *final(state), pause_verdict(*old(state), *signer, market_id@)->Ok_0, true),
{
    let i = match find_market(&state.markets, market_id) {
        None => {
            return Err(MarketError::InvalidMarket);
        },
        Some(i) => i,
    };
    let roles = Roles { admin: true, creator: true };
    if !authorized(signer, &state.admin_pubkey, &state.markets[i].creator_pubkey, roles) {
        return Err(MarketError::IllegalOwner);
    }
    set_paused(state, i, true);
    Ok(())
}

/// The decision on resuming a market: the signer must be the admin, and the
/// market must exist. On success, the market's position.
pub open spec fn resume_verdict(state: State, signer: Pubkey, market_id: Seq<char>) -> Result<int, MarketError> {
    if signer@ != state.admin_pubkey@ {
        Err(MarketError::IllegalOwner)
    } else {
        match market_index(state.markets@, market_id) {
            None => Err(MarketError::InvalidMarket),
            Some(i) => Ok(i),
        }
    }
}

/// Resumes a paused market.
pub fn resume_market(state: &mut State, signer: &Pubkey, market_id: &String) -> (r: Result<(), MarketError>)
    requires
        old(state).wf(),
    ensures
        final(state).wf(),
        r is Err <==> resume_verdict(*old(state), *signer, market_id@) is Err,
        r matches Err(e) ==> resume_verdict(*old(state), *signer, market_id@) == Err::<int, MarketError>(e)
            && *final(state) == *old(state),
        r is Ok ==> pause_set(*old(state), *final(state), resume_verdict(*old(state), *signer, market_id@)->Ok_0, false),
{
    let roles = Roles { admin: true, creator: false };
    if !authorized(signer, &state.admin_pubkey, &state.admin_pubkey, roles) {
        return Err(MarketError::IllegalOwner);
    }
    let i = match find_market(&state.markets, market_id) {
        None => {
            return Err(MarketError::InvalidMarket);
        },
        Some(i) => i,
    };
    set_paused(state, i, false);
    Ok(())
}

} // verus!
