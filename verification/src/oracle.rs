//! The oracle adapter: price lookups with a staleness rule, and the relative
//! price between the pool's two assets.
//!
//! The price feed itself is an external collaborator; here it is modelled as
//! a table holding the latest record per asset. Every load re-reads the
//! table; nothing is cached.

use vstd::prelude::*;
use std::collections::HashMap;

verus! {

broadcast use vstd::std_specs::hash::group_hash_axioms;

/// One price record: a scaled price and the second it was observed at.
#[derive(Clone, Copy, Debug, PartialEq, Eq, Structural)]
pub struct PriceData {
    pub price: i128,
    pub timestamp: u64,
}

/// Seconds after which a price record no longer counts as fresh.
pub const PRICE_MAX_AGE: u64 = 86400;

/// The latest price record per asset.
pub struct OracleState {
    records: HashMap<u64, PriceData>,
}

impl View for OracleState {
    type V = Map<u64, PriceData>;

    closed spec fn view(&self) -> Map<u64, PriceData> {
        self.records@
    }
}

impl OracleState {
    /// Whether the feed holds a record for the asset.
    pub open spec fn has_price(self, asset: u64) -> bool {
        self@.contains_key(asset)
    }

    /// The recorded price of the asset.
    pub open spec fn price_of(self, asset: u64) -> int {
        self@[asset].price as int
    }

    /// The second the asset's record was observed at.
    pub open spec fn timestamp_of(self, asset: u64) -> int {
        self@[asset].timestamp as int
    }

    /// Whether the asset's record is still fresh at time `now`.
    pub open spec fn fresh_at(self, asset: u64, now: u64) -> bool {
        self.timestamp_of(asset) + PRICE_MAX_AGE >= now
    }

    /// An empty feed.
    pub fn new() -> (r: OracleState)
        ensures
            r@ == Map::<u64, PriceData>::empty(),
    {
        OracleState { records: HashMap::new() }
    }

    /// Record the latest price of an asset.
    pub fn set_price(&mut self, asset: u64, price: i128, timestamp: u64)
        ensures
            final(self)@ == old(self)@.insert(asset, (PriceData { price, timestamp })),
    {
        self.records.insert(asset, PriceData { price, timestamp });
    }

    /// The latest record of an asset, if one was ever set.
    pub fn lastprice(&self, asset: u64) -> (r: Option<PriceData>)
        ensures
            r is Some <==> self.has_price(asset),
            r is Some ==> r->Some_0 == self@[asset],
    {
        match self.records.get(&asset) {
            Some(data) => Some(*data),
            None => None,
        }
    }
}

/// The asset a relative price is denominated in: the pool's other asset.
pub open spec fn counter_asset(token: u64, token_a: u64, token_b: u64) -> u64 {
    if token == token_a {
        token_b
    } else {
        token_a
    }
}

/// The price of `token` denominated in the counter asset, floored at the
/// seven-digit scale.
pub open spec fn relative_price_of(
    oracle: OracleState,
    token: u64,
    token_a: u64,
    token_b: u64,
) -> int {
    crate::fixed::div_floor(
        oracle.price_of(token),
        oracle.price_of(counter_asset(token, token_a, token_b)),
        crate::fixed::SCALAR_7 as int,
    )
}

/// Load the latest price of an asset, rejecting stale data.
///
/// Returns `None` exactly when the record's timestamp lies more than a day
/// before `now`.
pub fn load_price(oracle: &OracleState, asset: u64, now: u64) -> (r: Option<i128>)
    requires
        oracle.has_price(asset),
    ensures
        r is Some <==> oracle.fresh_at(asset, now),
        r is Some ==> r->Some_0 == oracle.price_of(asset),
{
    match oracle.lastprice(asset) {
        Some(data) => {
            if (data.timestamp as u128) + (PRICE_MAX_AGE as u128) < (now as u128) {
                None
            } else {
                Some(data.price)
            }
        },
        None => vstd::pervasive::unreached(),
    }
}

/// Load the price of `token` denominated in the pool's other asset.
///
/// Returns `None` exactly when either asset's record is stale.
pub fn load_relative_price(
    oracle: &OracleState,
    token: u64,
    token_a: u64,
    token_b: u64,
    now: u64,
) -> (r: Option<i128>)
    requires
        oracle.has_price(token),
        oracle.has_price(counter_asset(token, token_a, token_b)),
        oracle.price_of(counter_asset(token, token_a, token_b)) > 0,
        crate::fixed::fits_i128(oracle.price_of(token) * crate::fixed::SCALAR_7),
    ensures
        r is Some <==> oracle.fresh_at(token, now) && oracle.fresh_at(
            counter_asset(token, token_a, token_b),
            now,
        ),
        r is Some ==> r->Some_0 == relative_price_of(*oracle, token, token_a, token_b),
{
    let other = if token == token_a {
        token_b
    } else {
        token_a
    };
    let token_price = match load_price(oracle, token, now) {
        Some(p) => p,
        None => {
            return None;
        },
    };
    let other_price = match load_price(oracle, other, now) {
        Some(p) => p,
        None => {
            return None;
        },
    };
    Some(crate::fixed::fixed_div_floor(token_price, other_price, crate::fixed::SCALAR_7))
}

} // verus!
