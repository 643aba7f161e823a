//! Per-position math: the impact fee charged at open and fill, the
//! settlement computation shared by close, forced fill and liquidation, and
//! the settlement helper that repays the pool and returns the rest to the
//! trader.
//!
//! Fee-direction roundings are all upward; value-direction roundings are all
//! downward. The settlement fee's final scaling by the borrowed amount is
//! part of the rule, kept exactly as stated.

use vstd::prelude::*;
use crate::errors::PositionManagerError;
use crate::fixed::{
    SCALAR_7,
    mul_floor,
    div_floor,
    mul_ceil,
    div_ceil,
    fits_i128,
    fixed_mul_floor,
    fixed_div_floor,
    fixed_mul_ceil,
    fixed_div_ceil,
};
use crate::ledger::Ledger;
use crate::oracle::{OracleState, counter_asset, relative_price_of, load_relative_price};
use crate::pool::PoolContract;

verus! {

/// The fixed part of the impact fee, in scaled units.
pub const BASE_FEE: i128 = 6000;

/// The hourly funding-fee coefficient, in scaled units.
pub const HOURLY_BASE_FEE: i128 = 800;

/// The notional divisor of the impact fee's proportional part.
pub const IMPACT_FEE_SCALAR: i128 = 7_600_000_000_000_000;

/// The maximum-leverage normalization constant: 100, scaled.
pub const MAX_LEVERAGE: i128 = 100 * SCALAR_7;

/// One trader's leveraged position.
#[derive(Clone, Copy, Debug, PartialEq, Eq, Structural)]
pub struct Position {
    /// Whether the borrow has happened; a resting limit order is unfilled.
    pub filled: bool,
    /// The borrowed asset.
    pub token: u64,
    /// The relative price the position was (or is to be) opened at.
    pub entry_price: i128,
    /// Forced-close threshold below; zero when unset.
    pub stop_loss: i128,
    /// Forced-close threshold above; zero when unset.
    pub take_profit: i128,
    /// The amount borrowed from the pool; zero while unfilled.
    pub borrowed: i128,
    /// The trader's posted collateral.
    pub collateral: i128,
    /// The leverage multiplier, scaled.
    pub leverage: u32,
    /// When the position was opened or filled.
    pub timestamp: u64,
}

/// The field bounds every stored position satisfies.
pub open spec fn valid_position(p: Position) -> bool {
    &&& p.borrowed >= 0
    &&& p.collateral >= 0
    &&& p.entry_price >= 0
    &&& !p.filled ==> p.borrowed == 0
}

/// The impact fee on a trade of `size` at `price`: a fixed base fee plus a
/// share of the trade's notional value, each rounding upward.
pub open spec fn impact_fee(size: int, price: int) -> int {
    BASE_FEE + div_ceil(
        mul_ceil(size, price, SCALAR_7 as int),
        IMPACT_FEE_SCALAR as int,
        SCALAR_7 as int,
    )
}

/// The machine-limit conditions of the impact fee's fixed-point steps.
pub open spec fn impact_fee_in_range(size: int, price: int) -> bool {
    &&& fits_i128(size * price)
    &&& fits_i128(mul_ceil(size, price, SCALAR_7 as int) * SCALAR_7)
    &&& fits_i128(impact_fee(size, price))
}

/// The impact fee charged when a position opens or fills.
pub fn calculate_impact_fee(borrow_size: i128, current_price: i128) -> (r: i128)
    requires
        impact_fee_in_range(borrow_size as int, current_price as int),
    ensures
        r == impact_fee(borrow_size as int, current_price as int),
{
    let trade_notional_size = fixed_mul_ceil(borrow_size, current_price, SCALAR_7);
    let trading_coefficient = fixed_div_ceil(trade_notional_size, IMPACT_FEE_SCALAR, SCALAR_7);
    BASE_FEE + trading_coefficient
}

/// The debt repaid on settlement: the borrowed amount valued at the entry
/// price, revalued at the current price; both roundings downward.
pub open spec fn repay_amount(position: Position, current_price: int) -> int {
    div_floor(
        mul_floor(position.borrowed as int, position.entry_price as int, SCALAR_7 as int),
        current_price,
        SCALAR_7 as int,
    )
}

/// The hours a position has been open, rounded up.
pub open spec fn hours_elapsed(position: Position, now: int) -> int {
    div_ceil((now - position.timestamp) * SCALAR_7, 3600 * SCALAR_7 as int, SCALAR_7 as int)
}

/// The settlement fee: the pool-utilization-scaled hourly funding fee for
/// the hours elapsed, plus the impact fee at the current price, the sum
/// scaled once more by the borrowed amount; every rounding upward.
pub open spec fn settlement_fee(
    supply: int,
    pool_balance: int,
    position: Position,
    current_price: int,
    now: int,
) -> int {
    let util = div_ceil(supply, pool_balance, SCALAR_7 as int);
    let temp = mul_ceil(util, position.borrowed as int, SCALAR_7 as int);
    let hourly = mul_ceil(temp, HOURLY_BASE_FEE as int, SCALAR_7 as int);
    let f = mul_ceil(hourly, hours_elapsed(position, now), SCALAR_7 as int) + impact_fee(
        position.borrowed as int,
        current_price,
    );
    mul_ceil(f, position.borrowed as int, SCALAR_7 as int)
}

/// The machine-limit conditions under which the settlement computation
/// neither overflows `i128` nor divides by zero: the position's asset must
/// be a pool asset with a positive held balance, its relative price must be
/// positive, and time must not run backwards.
pub open spec fn settlement_in_range(
    pool: PoolContract,
    ledger: Ledger,
    oracle: OracleState,
    token_a: u64,
    token_b: u64,
    now: u64,
    position: Position,
) -> bool {
    let token = position.token;
    let cp = relative_price_of(oracle, token, token_a, token_b);
    let supply = pool.supply_of(token);
    let held = ledger.bal(token, pool.address);
    let util = div_ceil(supply, held, SCALAR_7 as int);
    let temp = mul_ceil(util, position.borrowed as int, SCALAR_7 as int);
    let hourly = mul_ceil(temp, HOURLY_BASE_FEE as int, SCALAR_7 as int);
    let hours = hours_elapsed(position, now as int);
    let f = mul_ceil(hourly, hours, SCALAR_7 as int) + impact_fee(
        position.borrowed as int,
        cp,
    );
    &&& pool.is_pool_token(token)
    &&& oracle.has_price(token)
    &&& oracle.has_price(counter_asset(token, token_a, token_b))
    &&& oracle.price_of(token) >= 0
    &&& oracle.price_of(counter_asset(token, token_a, token_b)) > 0
    &&& fits_i128(oracle.price_of(token) * SCALAR_7)
    &&& cp > 0
    &&& supply >= 0
    &&& held > 0
    &&& now >= position.timestamp
    &&& fits_i128(position.borrowed * position.entry_price)
    &&& fits_i128(
        mul_floor(position.borrowed as int, position.entry_price as int, SCALAR_7 as int)
            * SCALAR_7,
    )
    &&& fits_i128(supply * SCALAR_7)
    &&& fits_i128(util * position.borrowed)
    &&& fits_i128(temp * HOURLY_BASE_FEE)
    &&& fits_i128(hourly * hours)
    &&& impact_fee_in_range(position.borrowed as int, cp)
    &&& fits_i128(f)
    &&& fits_i128(f * position.borrowed)
}

/// The settlement pair of an open position: what is repaid to the pool and
/// what fee is charged, at the current relative price.
///
/// Fails `StalePriceData` exactly when either asset's price record is
/// outdated.
pub fn calculate_repay_and_fee(
    pool: &PoolContract,
    ledger: &Ledger,
    oracle: &OracleState,
    token_a: u64,
    token_b: u64,
    now: u64,
    position: Position,
) -> (r: Result<(i128, i128), PositionManagerError>)
    requires
        pool.initialized,
        valid_position(position),
        oracle.has_price(position.token),
        oracle.has_price(counter_asset(position.token, token_a, token_b)),
        oracle.price_of(counter_asset(position.token, token_a, token_b)) > 0,
        fits_i128(oracle.price_of(position.token) * SCALAR_7),
        oracle.fresh_at(position.token, now) && oracle.fresh_at(
            counter_asset(position.token, token_a, token_b),
            now,
        ) ==> settlement_in_range(*pool, *ledger, *oracle, token_a, token_b, now, position),
    ensures
        r is Err <==> !(oracle.fresh_at(position.token, now) && oracle.fresh_at(
            counter_asset(position.token, token_a, token_b),
            now,
        )),
        r is Err ==> r == Err::<(i128, i128), PositionManagerError>(
            PositionManagerError::StalePriceData,
        ),
        r is Ok ==> {
            let cp = relative_price_of(*oracle, position.token, token_a, token_b);
            &&& r->Ok_0.0 == repay_amount(position, cp)
            &&& r->Ok_0.1 == settlement_fee(
                pool.supply_of(position.token),
                ledger.bal(position.token, pool.address),
                position,
                cp,
                now as int,
            )
            &&& r->Ok_0.0 >= 0
            &&& r->Ok_0.1 >= 0
        },
{
    let current_price = match load_relative_price(oracle, position.token, token_a, token_b, now) {
        Some(p) => p,
        None => {
            return Err(PositionManagerError::StalePriceData);
        },
    };
    proof {
        crate::fixed::lemma_mul_nonneg(position.borrowed as int, position.entry_price as int);
        crate::fixed::lemma_floor_div_in_range(
            position.borrowed as int * position.entry_price as int,
            SCALAR_7 as int,
        );
    }
    let borrowed_value = fixed_mul_floor(position.borrowed, position.entry_price, SCALAR_7);
    proof {
        crate::fixed::lemma_mul_nonneg(borrowed_value as int, SCALAR_7 as int);
        crate::fixed::lemma_floor_div_in_range(
            borrowed_value as int * SCALAR_7 as int,
            current_price as int,
        );
    }
    let to_repay = fixed_div_floor(borrowed_value, current_price, SCALAR_7);

    // Hourly funding fee, scaled by the pool's utilization of the asset.
    let supply = if position.token == pool.token_a.address {
        pool.token_a.total_supply
    } else {
        pool.token_b.total_supply
    };
    let pool_balance = ledger.balance(position.token, pool.address);
    proof {
        crate::fixed::lemma_mul_nonneg(supply as int, SCALAR_7 as int);
        crate::fixed::lemma_ceil_div_in_range(supply as int * SCALAR_7 as int, pool_balance as int);
    }
    let token_util = fixed_div_ceil(supply, pool_balance, SCALAR_7);
    proof {
        crate::fixed::lemma_mul_nonneg(token_util as int, position.borrowed as int);
        crate::fixed::lemma_ceil_div_in_range(
            token_util as int * position.borrowed as int,
            SCALAR_7 as int,
        );
    }
    let temp_calc = fixed_mul_ceil(token_util, position.borrowed, SCALAR_7);
    proof {
        crate::fixed::lemma_mul_nonneg(temp_calc as int, HOURLY_BASE_FEE as int);
        crate::fixed::lemma_ceil_div_in_range(
            temp_calc as int * HOURLY_BASE_FEE as int,
            SCALAR_7 as int,
        );
    }
    let hourly_fee = fixed_mul_ceil(temp_calc, HOURLY_BASE_FEE, SCALAR_7);

    let seconds_elapsed = now - position.timestamp;
    proof {
        assert((seconds_elapsed as int) * (SCALAR_7 as int) <= 0xffff_ffff_ffff_ffffu64 as int
            * SCALAR_7 as int) by (nonlinear_arith)
            requires
                0 <= seconds_elapsed as int <= 0xffff_ffff_ffff_ffffu64 as int,
        ;
        crate::fixed::lemma_mul_nonneg(seconds_elapsed as int, SCALAR_7 as int);
    }
    let scaled_seconds = (seconds_elapsed as i128) * SCALAR_7;
    proof {
        assert((scaled_seconds as int) * (SCALAR_7 as int) <= 0xffff_ffff_ffff_ffffu64 as int
            * SCALAR_7 as int * SCALAR_7 as int) by (nonlinear_arith)
            requires
                0 <= scaled_seconds as int <= 0xffff_ffff_ffff_ffffu64 as int * SCALAR_7 as int,
        ;
        crate::fixed::lemma_mul_nonneg(scaled_seconds as int, SCALAR_7 as int);
        crate::fixed::lemma_ceil_div_in_range(
            scaled_seconds as int * SCALAR_7 as int,
            3600 * SCALAR_7 as int,
        );
    }
    let hours_count = fixed_div_ceil(scaled_seconds, 3600 * SCALAR_7, SCALAR_7);

    proof {
        crate::fixed::lemma_mul_nonneg(hourly_fee as int, hours_count as int);
        crate::fixed::lemma_ceil_div_in_range(
            hourly_fee as int * hours_count as int,
            SCALAR_7 as int,
        );
    }
    let mut fee = fixed_mul_ceil(hourly_fee, hours_count, SCALAR_7);
    proof {
        crate::fixed::lemma_mul_nonneg(position.borrowed as int, current_price as int);
        crate::fixed::lemma_ceil_div_in_range(
            position.borrowed as int * current_price as int,
            SCALAR_7 as int,
        );
        crate::fixed::lemma_mul_nonneg(
            mul_ceil(position.borrowed as int, current_price as int, SCALAR_7 as int),
            SCALAR_7 as int,
        );
        crate::fixed::lemma_ceil_div_in_range(
            mul_ceil(position.borrowed as int, current_price as int, SCALAR_7 as int) * SCALAR_7,
            IMPACT_FEE_SCALAR as int,
        );
    }
    fee = fee + calculate_impact_fee(position.borrowed, current_price);
    proof {
        crate::fixed::lemma_mul_nonneg(fee as int, position.borrowed as int);
        crate::fixed::lemma_ceil_div_in_range(
            fee as int * position.borrowed as int,
            SCALAR_7 as int,
        );
    }
    fee = fixed_mul_ceil(fee, position.borrowed, SCALAR_7);

    Ok((to_repay, fee))
}

/// Settle an open position: repay the pool its due under a scoped permit,
/// return the remainder to the trader, and drop the position.
///
/// The permit covers exactly what the pool pulls. The `fee` accompanies the
/// settlement for the record but stays with the engine as its revenue: the
/// pool is repaid the principal alone.
pub fn repay(
    manager: &mut crate::manager::PositionManagerContract,
    pool: &mut PoolContract,
    ledger: &mut Ledger,
    token: u64,
    user: u64,
    to_repay_user: i128,
    to_repay: i128,
    fee: i128,
)
    requires
        old(manager).wf(),
        old(pool).wf(),
        old(ledger).wf(),
        old(pool).initialized,
        old(pool).is_pool_token(token),
        old(pool).position_manager == old(manager).address,
        user != old(manager).address,
        user != old(pool).address,
        fee >= 0,
        to_repay >= 0,
        to_repay_user >= 0,
        fits_i128(to_repay + to_repay_user),
        old(ledger).bal(token, old(manager).address) >= to_repay + to_repay_user,
        old(ledger).bal(token, old(pool).address) + to_repay <= i128::MAX,
        old(ledger).bal(token, user) + to_repay_user <= i128::MAX,
        fits_i128(old(pool).supply_of(token)),
    ensures
        final(manager).wf(),
        final(pool).wf(),
        final(ledger).wf(),
        crate::manager::same_mgr_refs(*final(manager), *old(manager)),
        final(manager).open_positions() == old(manager).open_positions().remove(user),
        *final(pool) == *old(pool),
        final(ledger).bal(token, old(manager).address) == old(ledger).bal(
            token,
            old(manager).address,
        ) - (to_repay + to_repay_user),
        final(ledger).bal(token, old(pool).address) == old(ledger).bal(token, old(pool).address)
            + to_repay,
        final(ledger).bal(token, user) == old(ledger).bal(token, user) + to_repay_user,
        forall|t: u64, h: u64|
            !(t == token && (h == user || h == old(manager).address || h == old(
                pool,
            ).address)) ==> final(ledger).bal(t, h) == old(ledger).bal(t, h),
{
    // The scoped, single-use grant for exactly what the pool will pull.
    let permit = crate::ledger::TransferPermit {
        token,
        from: manager.address,
        to: pool.address,
        amount: to_repay,
    };
    let repay_result = pool.repay(ledger, permit, token, to_repay, 0);
    proof {
        assert(repay_result is Ok);
    }

    // Return the rest of the position to the trader.
    ledger.transfer(token, manager.address, user, to_repay_user);

    manager.remove_position(user);
    proof {
        lemma_pool_unchanged_by_zero_fee(*old(pool), *pool, token);
    }
}

/// A repayment with a zero fee leaves the pool's state exactly as it was.
proof fn lemma_pool_unchanged_by_zero_fee(
    before: PoolContract,
    after: PoolContract,
    token: u64,
)
    requires
        before.is_pool_token(token),
        before.token_a.address != before.token_b.address,
        after.supply_of(token) == before.supply_of(token) + 0,
        token == before.token_a.address ==> after.token_b == before.token_b,
        token != before.token_a.address ==> after.token_a == before.token_a,
        after.slp_supply == before.slp_supply,
        crate::pool::same_refs(after, before),
    ensures
        after == before,
{
}

} // verus!
