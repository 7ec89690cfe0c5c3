use vstd::prelude::*;

use pyth_solana_receiver_sdk::error::GetPriceError;
use pyth_solana_receiver_sdk::price_update::PriceUpdateV2;

use crate::error::MarketError;

verus! {

/// A price read from the oracle: `(price ± conf) * 10^exponent`, published at `publish_time`.
#[derive(Clone, Copy, Debug, PartialEq, Eq, Structural)]
pub struct OraclePrice {
    pub price: i64,
    pub conf: u64,
    pub exponent: i32,
    pub publish_time: i64,
}

/// Why the oracle gave no price.
#[derive(Clone, Copy, Debug, PartialEq, Eq, Structural)]
pub enum PriceFault {
    /// The update is older than the maximum age asked for.
    PriceTooOld,
    InvalidWindowSize,
    /// The update is for another feed.
    MismatchedFeedId,
    /// The update is not fully verified.
    InsufficientVerificationLevel,
    /// The feed id is not 64 hex digits, with or without a two-character prefix.
    FeedIdMustBe32Bytes,
    /// The feed id holds a character that is not a hex digit.
    FeedIdNonHexCharacter,
}

#[verifier::external_type_specification]
#[verifier::external_body]
pub struct ExPriceUpdateV2(PriceUpdateV2);

#[verifier::external_type_specification]
#[verifier::external_body]
pub struct ExGetPriceError(GetPriceError);

/// Whether `c` is a hex digit, in either case.
pub open spec fn is_hex_digit(c: char) -> bool {
    ('0' <= c && c <= '9') || ('a' <= c && c <= 'f') || ('A' <= c && c <= 'F')
}

/// The value of the hex digit `c`.
pub open spec fn hex_value(c: char) -> int {
    if '0' <= c && c <= '9' {
        c as int - '0' as int
    } else if 'a' <= c && c <= 'f' {
        c as int - 'a' as int + 10
    } else {
        c as int - 'A' as int + 10
    }
}

/// The 64 digits of a feed id written with 64 characters, or with 66 of which
/// the first two are a prefix.
pub open spec fn feed_digits(s: Seq<char>) -> Seq<char> {
    if s.len() == 66 {
        s.subrange(2, 66)
    } else {
        s
    }
}

/// Whether `s` has a length that a feed id may have.
pub open spec fn feed_id_length_ok(s: Seq<char>) -> bool {
    s.len() == 64 || s.len() == 66
}

/// Whether every digit of the feed id `s` is a hex digit.
pub open spec fn feed_id_digits_ok(s: Seq<char>) -> bool {
    forall|i: int| 0 <= i < 64 ==> #[trigger] is_hex_digit(feed_digits(s)[i])
}

/// Byte `k` of the feed id written `s`: the value of its digits `2k` and `2k + 1`.
pub open spec fn feed_id_byte(s: Seq<char>, k: int) -> int {
    hex_value(feed_digits(s)[2 * k]) * 16 + hex_value(feed_digits(s)[2 * k + 1])
}

/// Relies on pyth_solana_receiver_sdk's `get_feed_id_from_hex`, which takes 64
/// hex digits, or 66 characters whose first two it skips, and decodes them
/// with `hex::decode` into 32 bytes, the first digit of each pair being the
/// high one.
///
/// The input is ASCII: on other text the function may slice inside a character.
#[verifier::external_body]
fn feed_id_from_hex(s: &str) -> (r: Result<[u8; 32], PriceFault>)
    requires
        s.is_ascii(),
    ensures
        !feed_id_length_ok(s@) ==> (r is Err && r->Err_0 == PriceFault::FeedIdMustBe32Bytes),
        feed_id_length_ok(s@) ==> (r is Ok <==> feed_id_digits_ok(s@)),
        feed_id_length_ok(s@) && r is Err ==> (r is Err && r->Err_0 == PriceFault::FeedIdNonHexCharacter),
        r matches Ok(id) ==> forall|k: int| 0 <= k < 32 ==> id@[k] as int == #[trigger] feed_id_byte(s@, k),
{
    match pyth_solana_receiver_sdk::price_update::get_feed_id_from_hex(s) {
        Ok(id) => Ok(id),
        Err(GetPriceError::PriceTooOld) => Err(PriceFault::PriceTooOld),
        Err(GetPriceError::InvalidWindowSize) => Err(PriceFault::InvalidWindowSize),
        Err(GetPriceError::MismatchedFeedId) => Err(PriceFault::MismatchedFeedId),
        Err(GetPriceError::InsufficientVerificationLevel) => Err(PriceFault::InsufficientVerificationLevel),
        Err(GetPriceError::FeedIdMustBe32Bytes) => Err(PriceFault::FeedIdMustBe32Bytes),
        Err(GetPriceError::FeedIdNonHexCharacter) => Err(PriceFault::FeedIdNonHexCharacter),
    }
}

/// Relies on `PriceUpdateV2::get_price_no_older_than` of pyth_solana_receiver_sdk
/// at the clock time `now`: it fails unless the update is fully verified and for
/// `feed_id`, and fails with `PriceTooOld` unless the price's publish time
/// plus `maximum_age` (saturating) reaches `now`.
#[verifier::external_body]
fn price_no_older_than(update: &PriceUpdateV2, now: i64, maximum_age: u64, feed_id: &[u8; 32]) -> (r:
    Result<OraclePrice, PriceFault>)
    requires
        maximum_age <= i64::MAX,
    ensures
        r matches Ok(p) ==> p.publish_time + maximum_age >= now,
        r matches Err(f) ==> f == PriceFault::PriceTooOld || f == PriceFault::MismatchedFeedId || f
            == PriceFault::InsufficientVerificationLevel,
{
    let clock = anchor_lang::prelude::Clock { unix_timestamp: now, ..Default::default() };
    match update.get_price_no_older_than(&clock, maximum_age, feed_id) {
        Ok(p) => Ok(
            OraclePrice { price: p.price, conf: p.conf, exponent: p.exponent, publish_time: p.publish_time },
        ),
        Err(GetPriceError::PriceTooOld) => Err(PriceFault::PriceTooOld),
        Err(GetPriceError::InvalidWindowSize) => Err(PriceFault::InvalidWindowSize),
        Err(GetPriceError::MismatchedFeedId) => Err(PriceFault::MismatchedFeedId),
        Err(GetPriceError::InsufficientVerificationLevel) => Err(PriceFault::InsufficientVerificationLevel),
        Err(GetPriceError::FeedIdMustBe32Bytes) => Err(PriceFault::FeedIdMustBe32Bytes),
        Err(GetPriceError::FeedIdNonHexCharacter) => Err(PriceFault::FeedIdNonHexCharacter),
    }
}

/// The market error that stands for an oracle fault.
pub open spec fn fault_error(f: PriceFault) -> MarketError {
    match f {
        PriceFault::PriceTooOld => MarketError::PriceStale,
        PriceFault::InvalidWindowSize => MarketError::InvalidPythPrice,
        PriceFault::MismatchedFeedId => MarketError::InvalidPriceFeed,
        PriceFault::InsufficientVerificationLevel => MarketError::InvalidPythPrice,
        PriceFault::FeedIdMustBe32Bytes => MarketError::InvalidPriceFeed,
        PriceFault::FeedIdNonHexCharacter => MarketError::InvalidPriceFeed,
    }
}

/// The price a reading locks, or why it cannot: the oracle failed, the price
/// is not positive, or its confidence interval is wider than `max_confidence`.
pub open spec fn price_verdict(reading: Result<OraclePrice, PriceFault>, max_confidence: u64) -> Result<
    u64,
    MarketError,
> {
    match reading {
        Err(f) => Err(fault_error(f)),
        Ok(p) => if p.price <= 0 {
            Err(MarketError::InvalidPythPrice)
        } else if p.conf > max_confidence {
            Err(MarketError::ConfidenceTooHigh)
        } else {
            Ok(p.price as u64)
        },
    }
}

/// Checks an oracle reading and returns the price it locks.
pub fn accept_price(reading: &Result<OraclePrice, PriceFault>, max_confidence: u64) -> (r: Result<
    u64,
    MarketError,
>)
    ensures
        r == price_verdict(*reading, max_confidence),
{
    match reading {
        Err(f) => Err(
            match f {
                PriceFault::PriceTooOld => MarketError::PriceStale,
                PriceFault::InvalidWindowSize => MarketError::InvalidPythPrice,
                PriceFault::MismatchedFeedId => MarketError::InvalidPriceFeed,
                PriceFault::InsufficientVerificationLevel => MarketError::InvalidPythPrice,
                PriceFault::FeedIdMustBe32Bytes => MarketError::InvalidPriceFeed,
                PriceFault::FeedIdNonHexCharacter => MarketError::InvalidPriceFeed,
            },
        ),
        Ok(p) => {
            if p.price <= 0 {
                Err(MarketError::InvalidPythPrice)
            } else if p.conf > max_confidence {
                Err(MarketError::ConfidenceTooHigh)
            } else {
                Ok(p.price as u64)
            }
        },
    }
}

/// Reads the price of the feed written `feed_id` from a Pyth price update at
/// time `now`, no older than `maximum_age` seconds.
///
/// A feed id that is not ASCII, not 64 digits (with or without a two-character
/// prefix) or not all hex digits is refused before the update is read; a price
/// handed back was published at most `maximum_age` seconds before `now`.
pub fn read_oracle(update: &PriceUpdateV2, now: i64, maximum_age: u32, feed_id: &String) -> (r: Result<
    OraclePrice,
    PriceFault,
>)
    ensures
        !vstd::utf8::is_ascii_chars(feed_id@) ==> (r is Err && r->Err_0 == PriceFault::FeedIdNonHexCharacter),
        vstd::utf8::is_ascii_chars(feed_id@) && !feed_id_length_ok(feed_id@) ==> (r is Err && r->Err_0 == PriceFault::FeedIdMustBe32Bytes),
        vstd::utf8::is_ascii_chars(feed_id@) && feed_id_length_ok(feed_id@) && !feed_id_digits_ok(feed_id@) ==> (r is Err && r->Err_0 == PriceFault::FeedIdNonHexCharacter),
        vstd::utf8::is_ascii_chars(feed_id@) && feed_id_length_ok(feed_id@) && feed_id_digits_ok(feed_id@) ==> (
        r matches Err(f) ==> f == PriceFault::PriceTooOld || f == PriceFault::MismatchedFeedId || f
            == PriceFault::InsufficientVerificationLevel),
        r matches Ok(p) ==> p.publish_time + maximum_age >= now,
{
    let s: &str = feed_id.as_str();
    if !s.is_ascii() {
        return Err(PriceFault::FeedIdNonHexCharacter);
    }
    match feed_id_from_hex(s) {
        Err(f) => Err(f),
        Ok(id) => price_no_older_than(update, now, maximum_age as u64, &id),
    }
}

} // verus!
