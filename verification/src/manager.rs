//! The position engine: per-trader leveraged positions, opened immediately
//! or as resting limit orders, and later filled, closed or liquidated.
//!
//! The engine borrows from the pool engine when a position opens or fills
//! and repays it on settlement; the pool pulls its repayment under a scoped,
//! single-use [`crate::ledger::TransferPermit`]. Each trader has at most one
//! position at a time.

use vstd::prelude::*;
use std::collections::HashMap;
use crate::errors::PositionManagerError;
use crate::fixed::{SCALAR_7, mul_floor, fits_i128, fixed_mul_floor, fixed_div_floor};
use crate::ledger::Ledger;
use crate::oracle::{OracleState, counter_asset, relative_price_of, load_relative_price};
use crate::pool::PoolContract;
use crate::position::{
    Position,
    valid_position,
    impact_fee,
    impact_fee_in_range,
    calculate_impact_fee,
    repay_amount,
    settlement_fee,
    settlement_in_range,
    calculate_repay_and_fee,
    MAX_LEVERAGE,
};

verus! {

broadcast use vstd::std_specs::hash::group_hash_axioms;

/// The position engine's state.
pub struct PositionManagerContract {
    /// The engine's own account identity on the ledger.
    pub address: u64,
    pub oracle: u64,
    pub pool_contract: u64,
    pub token_a: u64,
    pub token_b: u64,
    pub initialized: bool,
    /// The open positions, one per trader.
    pub positions: HashMap<u64, Position>,
}

/// Whether two engine states agree on everything but the position table.
pub open spec fn same_mgr_refs(a: PositionManagerContract, b: PositionManagerContract) -> bool {
    &&& a.address == b.address
    &&& a.oracle == b.oracle
    &&& a.pool_contract == b.pool_contract
    &&& a.token_a == b.token_a
    &&& a.token_b == b.token_b
    &&& a.initialized == b.initialized
}

impl PositionManagerContract {
    /// The open positions, one per trader.
    pub open spec fn open_positions(self) -> Map<u64, Position> {
        self.positions@
    }

    /// Whether the trader has a position open.
    pub open spec fn has_position_spec(self, user: u64) -> bool {
        self.open_positions().contains_key(user)
    }

    /// The trader's open position.
    pub open spec fn position_of(self, user: u64) -> Position {
        self.open_positions()[user]
    }

    /// Every stored position satisfies the field bounds.
    pub open spec fn wf(self) -> bool {
        forall|u: u64|
            #[trigger] self.open_positions().contains_key(u) ==> valid_position(
                self.open_positions()[u],
            )
    }

    /// A fresh, never-initialized engine bound to its ledger identity.
    pub fn new(address: u64) -> (r: PositionManagerContract)
        ensures
            r.wf(),
            !r.initialized,
            r.address == address,
            r.open_positions() == Map::<u64, Position>::empty(),
    {
        PositionManagerContract {
            address,
            oracle: 0,
            pool_contract: 0,
            token_a: 0,
            token_b: 0,
            initialized: false,
            positions: HashMap::new(),
        }
    }

    /// One-time setup of the engine's collaborators.
    ///
    /// Fails `AlreadyInitialized` on a second run.
    pub fn initialize(
        &mut self,
        pool_contract: u64,
        oracle: u64,
        token_a: u64,
        token_b: u64,
    ) -> (r: Result<(), PositionManagerError>)
        requires
            old(self).wf(),
        ensures
            final(self).wf(),
            final(self).open_positions() == old(self).open_positions(),
            final(self).address == old(self).address,
            old(self).initialized ==> r == Err::<(), PositionManagerError>(
                PositionManagerError::AlreadyInitialized,
            ) && same_mgr_refs(*final(self), *old(self)),
            !old(self).initialized ==> {
                &&& r == Ok::<(), PositionManagerError>(())
                &&& final(self).initialized
                &&& final(self).pool_contract == pool_contract
                &&& final(self).oracle == oracle
                &&& final(self).token_a == token_a
                &&& final(self).token_b == token_b
            },
    {
        if self.initialized {
            return Err(PositionManagerError::AlreadyInitialized);
        }
        self.oracle = oracle;
        self.token_a = token_a;
        self.token_b = token_b;
        self.pool_contract = pool_contract;
        self.initialized = true;
        proof {
            assert(self.open_positions() =~= old(self).open_positions());
        }
        Ok(())
    }

    /// Whether the trader has a position open.
    pub(crate) fn has_position(&self, user: u64) -> (r: bool)
        ensures
            r == self.has_position_spec(user),
    {
        self.positions.contains_key(&user)
    }

    /// The trader's open position.
    pub(crate) fn get_pos(&self, user: u64) -> (r: Position)
        requires
            self.has_position_spec(user),
        ensures
            r == self.position_of(user),
    {
        match self.positions.get(&user) {
            Some(p) => *p,
            None => vstd::pervasive::unreached(),
        }
    }

    /// Store or replace the trader's position, as the storage layer does
    /// when it rehydrates the engine's state.
    pub fn set_position(&mut self, user: u64, position: Position)
        ensures
            final(self).open_positions() == old(self).open_positions().insert(user, position),
            same_mgr_refs(*final(self), *old(self)),
    {
        self.positions.insert(user, position);
    }

    /// Drop the trader's position.
    pub fn remove_position(&mut self, user: u64)
        ensures
            final(self).open_positions() == old(self).open_positions().remove(user),
            same_mgr_refs(*final(self), *old(self)),
    {
        self.positions.remove(&user);
    }

    /// The trader's current position.
    ///
    /// Fails `NoPositionExists` when none is open.
    pub fn get_position(&self, user: u64) -> (r: Result<Position, PositionManagerError>)
        ensures
            self.has_position_spec(user) ==> r == Ok::<Position, PositionManagerError>(
                self.position_of(user),
            ),
            !self.has_position_spec(user) ==> r == Err::<Position, PositionManagerError>(
                PositionManagerError::NoPositionExists,
            ),
    {
        if !self.has_position(user) {
            return Err(PositionManagerError::NoPositionExists);
        }
        Ok(self.get_pos(user))
    }

    /// Set the trader's stop-loss threshold.
    ///
    /// The trader's authorization is the application's edge. Fails
    /// `NoPositionExists` when no position is open.
    pub fn add_stop_loss(&mut self, user: u64, stop_loss: i128) -> (r: Result<
        (),
        PositionManagerError,
    >)
        requires
            old(self).wf(),
        ensures
            final(self).wf(),
            same_mgr_refs(*final(self), *old(self)),
            !old(self).has_position_spec(user) ==> r == Err::<(), PositionManagerError>(
                PositionManagerError::NoPositionExists,
            ) && final(self).open_positions() == old(self).open_positions(),
            old(self).has_position_spec(user) ==> {
                &&& r == Ok::<(), PositionManagerError>(())
                &&& final(self).open_positions() == old(self).open_positions().insert(
                    user,
                    (Position { stop_loss, ..old(self).position_of(user) }),
                )
            },
    {
        if !self.has_position(user) {
            return Err(PositionManagerError::NoPositionExists);
        }
        let mut position = self.get_pos(user);
        position.stop_loss = stop_loss;
        self.set_position(user, position);
        Ok(())
    }

    /// Set the trader's take-profit threshold.
    ///
    /// The trader's authorization is the application's edge. Fails
    /// `NoPositionExists` when no position is open.
    pub fn add_take_profit(&mut self, user: u64, take_profit: i128) -> (r: Result<
        (),
        PositionManagerError,
    >)
        requires
            old(self).wf(),
        ensures
            final(self).wf(),
            same_mgr_refs(*final(self), *old(self)),
            !old(self).has_position_spec(user) ==> r == Err::<(), PositionManagerError>(
                PositionManagerError::NoPositionExists,
            ) && final(self).open_positions() == old(self).open_positions(),
            old(self).has_position_spec(user) ==> {
                &&& r == Ok::<(), PositionManagerError>(())
                &&& final(self).open_positions() == old(self).open_positions().insert(
                    user,
                    (Position { take_profit, ..old(self).position_of(user) }),
                )
            },
    {
        if !self.has_position(user) {
            return Err(PositionManagerError::NoPositionExists);
        }
        let mut position = self.get_pos(user);
        position.take_profit = take_profit;
        self.set_position(user, position);
        Ok(())
    }

    /// The price of `token` denominated in the pool's other asset.
    pub open spec fn rel_price(self, oracle: OracleState, token: u64) -> int {
        relative_price_of(oracle, token, self.token_a, self.token_b)
    }

    /// Whether both records behind `token`'s relative price are fresh.
    pub open spec fn pos_fresh(self, oracle: OracleState, token: u64, now: u64) -> bool {
        oracle.fresh_at(token, now) && oracle.fresh_at(
            counter_asset(token, self.token_a, self.token_b),
            now,
        )
    }

    /// Open a position at the market: read the entry price, borrow the
    /// leveraged notional from the pool, and pull the collateral plus the
    /// impact fee from the trader. Returns the fee charged.
    ///
    /// The trader's authorization is the application's edge; the scoped
    /// grant toward the pool covers exactly this call. Fails
    /// `PositionAlreadyExists` when the trader already has a position,
    /// `StalePriceData` on an outdated price record, and
    /// `PoolOperationFailed` when the pool refuses the borrow. A refused
    /// borrow leaves no movement behind, so the pool is asked before the
    /// trader's collateral is pulled.
    pub fn open_position(
        &mut self,
        pool: &mut PoolContract,
        ledger: &mut Ledger,
        oracle: &OracleState,
        now: u64,
        user: u64,
        input: i128,
        size: u32,
        token: u64,
    ) -> (r: Result<i128, PositionManagerError>)
        requires
            old(self).wf(),
            old(pool).wf(),
            old(ledger).wf(),
            old(self).initialized,
            old(pool).initialized,
            old(pool).position_manager == old(self).address,
            user != old(self).address,
            user != old(pool).address,
            input >= 0,
            !old(self).has_position_spec(user) ==> {
                &&& oracle.has_price(token)
                &&& oracle.has_price(counter_asset(token, old(self).token_a, old(self).token_b))
                &&& oracle.price_of(token) >= 0
                &&& oracle.price_of(counter_asset(token, old(self).token_a, old(self).token_b))
                    > 0
                &&& fits_i128(oracle.price_of(token) * SCALAR_7)
            },
            !old(self).has_position_spec(user) && oracle.fresh_at(token, now) && oracle.fresh_at(
                counter_asset(token, old(self).token_a, old(self).token_b),
                now,
            ) ==> {
                let entry = relative_price_of(*oracle, token, old(self).token_a, old(self).token_b);
                let to_borrow = mul_floor(input as int, size as int, SCALAR_7 as int);
                let fee = impact_fee(to_borrow, entry);
                &&& fits_i128(input * size)
                &&& impact_fee_in_range(to_borrow, entry)
                &&& (old(pool).is_pool_token(token) ==> {
                    &&& old(pool).supply_of(token) >= 0
                    &&& fits_i128(old(pool).supply_of(token) + fee)
                    &&& old(ledger).bal(token, old(self).address) + to_borrow + (input + fee)
                        <= i128::MAX
                })
                &&& (old(pool).borrow_ok(*old(ledger), token, (to_borrow) as i128) ==> {
                    &&& fits_i128(input + fee)
                    &&& old(ledger).bal(token, user) >= input + fee
                })
            },
        ensures
            final(self).wf(),
            final(pool).wf(),
            final(ledger).wf(),
            same_mgr_refs(*final(self), *old(self)),
            old(self).has_position_spec(user) ==> r == Err::<i128, PositionManagerError>(
                PositionManagerError::PositionAlreadyExists,
            ),
            !old(self).has_position_spec(user) && !(oracle.fresh_at(token, now)
                && oracle.fresh_at(
                counter_asset(token, old(self).token_a, old(self).token_b),
                now,
            )) ==> r == Err::<i128, PositionManagerError>(PositionManagerError::StalePriceData),
            !old(self).has_position_spec(user) && oracle.fresh_at(token, now) && oracle.fresh_at(
                counter_asset(token, old(self).token_a, old(self).token_b),
                now,
            ) && !old(pool).borrow_ok(
                *old(ledger),
                token,
                (mul_floor(input as int, size as int, SCALAR_7 as int)) as i128,
            ) ==> r == Err::<i128, PositionManagerError>(PositionManagerError::PoolOperationFailed),
            !old(self).has_position_spec(user) && oracle.fresh_at(token, now) && oracle.fresh_at(
                counter_asset(token, old(self).token_a, old(self).token_b),
                now,
            ) && old(pool).borrow_ok(
                *old(ledger),
                token,
                (mul_floor(input as int, size as int, SCALAR_7 as int)) as i128,
            ) ==> {
                let entry = relative_price_of(*oracle, token, old(self).token_a, old(self).token_b);
                let to_borrow = mul_floor(input as int, size as int, SCALAR_7 as int);
                let fee = impact_fee(to_borrow, entry);
                &&& r is Ok
                &&& r->Ok_0 == fee
                &&& final(self).open_positions() == old(self).open_positions().insert(
                    user,
                    (Position {
                        filled: true,
                        token,
                        stop_loss: 0,
                        take_profit: 0,
                        entry_price: (entry) as i128,
                        borrowed: (to_borrow) as i128,
                        leverage: size,
                        collateral: input,
                        timestamp: now,
                    }),
                )
                &&& final(pool).supply_of(token) == old(pool).supply_of(token) + fee
                &&& final(pool).slp_supply == old(pool).slp_supply
                &&& crate::pool::same_refs(*final(pool), *old(pool))
                &&& final(ledger).bal(token, old(pool).address) == old(ledger).bal(
                    token,
                    old(pool).address,
                ) - to_borrow
                &&& final(ledger).bal(token, old(self).address) == old(ledger).bal(
                    token,
                    old(self).address,
                ) + to_borrow + (input + fee)
                &&& final(ledger).bal(token, user) == old(ledger).bal(token, user) - (input + fee)
                &&& forall|t: u64, h: u64|
                    !(t == token && (h == user || h == old(self).address || h == old(
                        pool,
                    ).address)) ==> final(ledger).bal(t, h) == old(ledger).bal(t, h)
            },
            r is Err ==> final(self).open_positions() == old(self).open_positions() && *final(pool)
                == *old(pool) && *final(ledger) == *old(ledger),
    {
        if self.has_position(user) {
            return Err(PositionManagerError::PositionAlreadyExists);
        }
        let entry_price = match load_relative_price(oracle, token, self.token_a, self.token_b, now) {
            Some(p) => p,
            None => {
                return Err(PositionManagerError::StalePriceData);
            },
        };
        proof {
            crate::fixed::lemma_mul_nonneg(input as int, size as int);
            crate::fixed::lemma_floor_div_in_range(input as int * size as int, SCALAR_7 as int);
        }
        let to_borrow = fixed_mul_floor(input, size as i128, SCALAR_7);
        proof {
            lemma_impact_fee_nonneg(to_borrow as int, entry_price as int);
        }
        let fee = calculate_impact_fee(to_borrow, entry_price);

        // Ask the pool first: a refused borrow must leave nothing moved.
        match pool.borrow(ledger, token, to_borrow, fee) {
            Ok(()) => (),
            Err(_) => {
                return Err(PositionManagerError::PoolOperationFailed);
            },
        }

        // Pull the collateral and the fee from the trader.
        ledger.transfer(token, user, self.address, input + fee);

        let position = Position {
            filled: true,
            token,
            stop_loss: 0,
            take_profit: 0,
            entry_price,
            borrowed: to_borrow,
            leverage: size,
            collateral: input,
            timestamp: now,
        };
        self.set_position(user, position);
        Ok(fee)
    }

    /// Open a resting limit order: the collateral and the impact fee at the
    /// limit price are pulled in at once, but nothing is borrowed until the
    /// order fills.
    ///
    /// The trader's authorization is the application's edge. Fails
    /// `PositionAlreadyExists` when the trader already has a position.
    pub fn open_limit_position(
        &mut self,
        ledger: &mut Ledger,
        now: u64,
        user: u64,
        input: i128,
        size: u32,
        token: u64,
        entry_price: i128,
    ) -> (r: Result<i128, PositionManagerError>)
        requires
            old(self).wf(),
            old(ledger).wf(),
            old(self).initialized,
            user != old(self).address,
            input >= 0,
            entry_price >= 0,
            !old(self).has_position_spec(user) ==> {
                let to_borrow = mul_floor(input as int, size as int, SCALAR_7 as int);
                let fee = impact_fee(to_borrow, entry_price as int);
                &&& fits_i128(input * size)
                &&& impact_fee_in_range(to_borrow, entry_price as int)
                &&& fits_i128(input + fee)
                &&& old(ledger).bal(token, user) >= input + fee
                &&& old(ledger).bal(token, old(self).address) + (input + fee) <= i128::MAX
            },
        ensures
            final(self).wf(),
            final(ledger).wf(),
            same_mgr_refs(*final(self), *old(self)),
            old(self).has_position_spec(user) ==> r == Err::<i128, PositionManagerError>(
                PositionManagerError::PositionAlreadyExists,
            ) && final(self).open_positions() == old(self).open_positions() && *final(ledger)
                == *old(ledger),
            !old(self).has_position_spec(user) ==> {
                let to_borrow = mul_floor(input as int, size as int, SCALAR_7 as int);
                let fee = impact_fee(to_borrow, entry_price as int);
                &&& r is Ok
                &&& r->Ok_0 == fee
                &&& final(self).open_positions() == old(self).open_positions().insert(
                    user,
                    (Position {
                        filled: false,
                        token,
                        stop_loss: 0,
                        take_profit: 0,
                        entry_price,
                        borrowed: 0,
                        leverage: size,
                        collateral: input,
                        timestamp: now,
                    }),
                )
                &&& final(ledger).bal(token, user) == old(ledger).bal(token, user) - (input + fee)
                &&& final(ledger).bal(token, old(self).address) == old(ledger).bal(
                    token,
                    old(self).address,
                ) + (input + fee)
                &&& forall|t: u64, h: u64|
                    !(t == token && (h == user || h == old(self).address)) ==> final(ledger).bal(
                        t,
                        h,
                    ) == old(ledger).bal(t, h)
            },
    {
        if self.has_position(user) {
            return Err(PositionManagerError::PositionAlreadyExists);
        }
        let position = Position {
            filled: false,
            token,
            stop_loss: 0,
            take_profit: 0,
            entry_price,
            borrowed: 0,
            leverage: size,
            collateral: input,
            timestamp: now,
        };
        proof {
            crate::fixed::lemma_mul_nonneg(input as int, size as int);
            crate::fixed::lemma_floor_div_in_range(input as int * size as int, SCALAR_7 as int);
        }
        let to_borrow = fixed_mul_floor(input, size as i128, SCALAR_7);
        proof {
            lemma_impact_fee_nonneg(to_borrow as int, entry_price as int);
        }
        let fee = calculate_impact_fee(to_borrow, entry_price);
        ledger.transfer(token, user, self.address, input + fee);
        self.set_position(user, position);
        Ok(fee)
    }

    /// Close the trader's position at the current price: repay the pool the
    /// entry-valued debt revalued at the current price, keep the settlement
    /// fee, and return the rest to the trader. Returns that remainder and
    /// the fee.
    ///
    /// The trader's authorization is the application's edge. Fails
    /// `NoPositionExists` when no position is open and `StalePriceData` on
    /// an outdated price record.
    pub fn close_position(
        &mut self,
        pool: &mut PoolContract,
        ledger: &mut Ledger,
        oracle: &OracleState,
        now: u64,
        user: u64,
    ) -> (r: Result<(i128, i128), PositionManagerError>)
        requires
            old(self).wf(),
            old(pool).wf(),
            old(ledger).wf(),
            old(pool).initialized,
            old(pool).position_manager == old(self).address,
            user != old(self).address,
            user != old(pool).address,
            old(self).has_position_spec(user) ==> {
                let position = old(self).position_of(user);
                &&& oracle.has_price(position.token)
                &&& oracle.has_price(
                    counter_asset(position.token, old(self).token_a, old(self).token_b),
                )
                &&& oracle.price_of(
                    counter_asset(position.token, old(self).token_a, old(self).token_b),
                ) > 0
                &&& fits_i128(oracle.price_of(position.token) * SCALAR_7)
                &&& fits_i128(position.borrowed + position.collateral)
                &&& (old(self).pos_fresh(*oracle, position.token, now) ==> {
                    let cp = old(self).rel_price(*oracle, position.token);
                    let to_repay = repay_amount(position, cp);
                    let fee = settlement_fee(
                        old(pool).supply_of(position.token),
                        old(ledger).bal(position.token, old(pool).address),
                        position,
                        cp,
                        now as int,
                    );
                    let to_user = position.borrowed + position.collateral - to_repay - fee;
                    &&& settlement_in_range(
                        *old(pool),
                        *old(ledger),
                        *oracle,
                        old(self).token_a,
                        old(self).token_b,
                        now,
                        position,
                    )
                    &&& to_user >= 0
                    &&& old(ledger).bal(position.token, old(self).address) >= to_repay + to_user
                    &&& old(ledger).bal(position.token, old(pool).address) + to_repay
                        <= i128::MAX
                    &&& old(ledger).bal(position.token, user) + to_user <= i128::MAX
                })
            },
        ensures
            final(self).wf(),
            final(pool).wf(),
            final(ledger).wf(),
            same_mgr_refs(*final(self), *old(self)),
            !old(self).has_position_spec(user) ==> r == Err::<(i128, i128), PositionManagerError>(
                PositionManagerError::NoPositionExists,
            ),
            old(self).has_position_spec(user) && !old(self).pos_fresh(
                *oracle,
                old(self).position_of(user).token,
                now,
            ) ==> r == Err::<(i128, i128), PositionManagerError>(
                PositionManagerError::StalePriceData,
            ),
            old(self).has_position_spec(user) && old(self).pos_fresh(
                *oracle,
                old(self).position_of(user).token,
                now,
            ) ==> {
                let position = old(self).position_of(user);
                let cp = old(self).rel_price(*oracle, position.token);
                let to_repay = repay_amount(position, cp);
                let fee = settlement_fee(
                    old(pool).supply_of(position.token),
                    old(ledger).bal(position.token, old(pool).address),
                    position,
                    cp,
                    now as int,
                );
                let to_user = position.borrowed + position.collateral - to_repay - fee;
                &&& r is Ok
                &&& r->Ok_0.0 == to_user
                &&& r->Ok_0.1 == fee
                &&& final(self).open_positions() == old(self).open_positions().remove(user)
                &&& *final(pool) == *old(pool)
                &&& final(ledger).bal(position.token, old(self).address) == old(ledger).bal(
                    position.token,
                    old(self).address,
                ) - (to_repay + to_user)
                &&& final(ledger).bal(position.token, old(pool).address) == old(ledger).bal(
                    position.token,
                    old(pool).address,
                ) + to_repay
                &&& final(ledger).bal(position.token, user) == old(ledger).bal(
                    position.token,
                    user,
                ) + to_user
                &&& forall|t: u64, h: u64|
                    !(t == position.token && (h == user || h == old(self).address || h == old(
                        pool,
                    ).address)) ==> final(ledger).bal(t, h) == old(ledger).bal(t, h)
            },
            r is Err ==> final(self).open_positions() == old(self).open_positions() && *final(pool)
                == *old(pool) && *final(ledger) == *old(ledger),
    {
        if !self.has_position(user) {
            return Err(PositionManagerError::NoPositionExists);
        }
        let position = self.get_pos(user);
        let total_position = position.borrowed + position.collateral;
        let settled = calculate_repay_and_fee(
            pool,
            ledger,
            oracle,
            self.token_a,
            self.token_b,
            now,
            position,
        );
        let (to_repay, fee) = match settled {
            Ok(v) => v,
            Err(e) => {
                return Err(e);
            },
        };
        let to_repay_user = total_position - to_repay - fee;
        crate::position::repay(self, pool, ledger, position.token, user, to_repay_user, to_repay, fee);
        Ok((to_repay_user, fee))
    }

    /// Permissionless maintenance of the trader's position, the system's
    /// only mutator not started by the trader.
    ///
    /// A filled position whose stop-loss or take-profit threshold the
    /// current price has crossed is force-closed by the shared settlement;
    /// one whose thresholds are unset or uncrossed is left exactly as it
    /// was, without failure. A resting limit order fills once the current
    /// price has fallen to its limit: the leveraged notional is borrowed and
    /// the position becomes filled at the current price; before that it
    /// fails `PositionNotFilled`. Fails `NoPositionExists` without a
    /// position, `StalePriceData` on an outdated record, and
    /// `PoolOperationFailed` when the pool refuses the fill's borrow.
    #[allow(unused_variables)]
    pub fn fill_position(
        &mut self,
        pool: &mut PoolContract,
        ledger: &mut Ledger,
        oracle: &OracleState,
        now: u64,
        user: u64,
        fee_taker: u64,
    ) -> (r: Result<(), PositionManagerError>)
        requires
            old(self).wf(),
            old(pool).wf(),
            old(ledger).wf(),
            old(pool).initialized,
            old(pool).position_manager == old(self).address,
            user != old(self).address,
            user != old(pool).address,
            old(self).has_position_spec(user) ==> {
                let position = old(self).position_of(user);
                &&& oracle.has_price(position.token)
                &&& oracle.has_price(
                    counter_asset(position.token, old(self).token_a, old(self).token_b),
                )
                &&& oracle.price_of(position.token) >= 0
                &&& oracle.price_of(
                    counter_asset(position.token, old(self).token_a, old(self).token_b),
                ) > 0
                &&& fits_i128(oracle.price_of(position.token) * SCALAR_7)
            },
            old(self).has_position_spec(user) && old(self).pos_fresh(
                *oracle,
                old(self).position_of(user).token,
                now,
            ) ==> {
                let position = old(self).position_of(user);
                let cp = old(self).rel_price(*oracle, position.token);
                &&& (position.filled && fill_triggered(position, cp) ==> {
                    let to_repay = repay_amount(position, cp);
                    let fee = settlement_fee(
                        old(pool).supply_of(position.token),
                        old(ledger).bal(position.token, old(pool).address),
                        position,
                        cp,
                        now as int,
                    );
                    let to_user = position.borrowed + position.collateral - to_repay - fee;
                    &&& settlement_in_range(
                        *old(pool),
                        *old(ledger),
                        *oracle,
                        old(self).token_a,
                        old(self).token_b,
                        now,
                        position,
                    )
                    &&& fits_i128(position.borrowed + position.collateral)
                    &&& to_user >= 0
                    &&& old(ledger).bal(position.token, old(self).address) >= to_repay + to_user
                    &&& old(ledger).bal(position.token, old(pool).address) + to_repay
                        <= i128::MAX
                    &&& old(ledger).bal(position.token, user) + to_user <= i128::MAX
                })
                &&& (!position.filled && cp <= position.entry_price ==> {
                    let to_borrow = mul_floor(
                        position.collateral as int,
                        position.leverage as int,
                        SCALAR_7 as int,
                    );
                    let fee = impact_fee(to_borrow, cp);
                    &&& fits_i128(position.collateral * position.leverage)
                    &&& impact_fee_in_range(to_borrow, cp)
                    &&& (old(pool).is_pool_token(position.token) ==> {
                        &&& old(pool).supply_of(position.token) >= 0
                        &&& fits_i128(old(pool).supply_of(position.token) + fee)
                        &&& old(ledger).bal(position.token, old(self).address) + to_borrow
                            <= i128::MAX
                    })
                })
            },
        ensures
            final(self).wf(),
            final(pool).wf(),
            final(ledger).wf(),
            same_mgr_refs(*final(self), *old(self)),
            !old(self).has_position_spec(user) ==> r == Err::<(), PositionManagerError>(
                PositionManagerError::NoPositionExists,
            ),
            old(self).has_position_spec(user) && !old(self).pos_fresh(
                *oracle,
                old(self).position_of(user).token,
                now,
            ) ==> r == Err::<(), PositionManagerError>(PositionManagerError::StalePriceData),
            old(self).has_position_spec(user) && old(self).pos_fresh(
                *oracle,
                old(self).position_of(user).token,
                now,
            ) ==> {
                let position = old(self).position_of(user);
                let cp = old(self).rel_price(*oracle, position.token);
                &&& (position.filled && !fill_triggered(position, cp) ==> {
                    &&& r == Ok::<(), PositionManagerError>(())
                    &&& final(self).open_positions() == old(self).open_positions()
                    &&& *final(pool) == *old(pool)
                    &&& *final(ledger) == *old(ledger)
                })
                &&& (position.filled && fill_triggered(position, cp) ==> {
                    let to_repay = repay_amount(position, cp);
                    let fee = settlement_fee(
                        old(pool).supply_of(position.token),
                        old(ledger).bal(position.token, old(pool).address),
                        position,
                        cp,
                        now as int,
                    );
                    let to_user = position.borrowed + position.collateral - to_repay - fee;
                    &&& r == Ok::<(), PositionManagerError>(())
                    &&& final(self).open_positions() == old(self).open_positions().remove(user)
                    &&& *final(pool) == *old(pool)
                    &&& final(ledger).bal(position.token, old(self).address) == old(ledger).bal(
                        position.token,
                        old(self).address,
                    ) - (to_repay + to_user)
                    &&& final(ledger).bal(position.token, old(pool).address) == old(ledger).bal(
                        position.token,
                        old(pool).address,
                    ) + to_repay
                    &&& final(ledger).bal(position.token, user) == old(ledger).bal(
                        position.token,
                        user,
                    ) + to_user
                    &&& forall|t: u64, h: u64|
                        !(t == position.token && (h == user || h == old(self).address || h == old(
                            pool,
                        ).address)) ==> final(ledger).bal(t, h) == old(ledger).bal(t, h)
                })
                &&& (!position.filled && position.entry_price < cp ==> r == Err::<
                    (),
                    PositionManagerError,
                >(PositionManagerError::PositionNotFilled))
                &&& (!position.filled && cp <= position.entry_price && !old(pool).borrow_ok(
                    *old(ledger),
                    position.token,
                    (mul_floor(
                        position.collateral as int,
                        position.leverage as int,
                        SCALAR_7 as int,
                    )) as i128,
                ) ==> r == Err::<(), PositionManagerError>(
                    PositionManagerError::PoolOperationFailed,
                ))
                &&& (!position.filled && cp <= position.entry_price && old(pool).borrow_ok(
                    *old(ledger),
                    position.token,
                    (mul_floor(
                        position.collateral as int,
                        position.leverage as int,
                        SCALAR_7 as int,
                    )) as i128,
                ) ==> {
                    let to_borrow = mul_floor(
                        position.collateral as int,
                        position.leverage as int,
                        SCALAR_7 as int,
                    );
                    let fee = impact_fee(to_borrow, cp);
                    &&& r == Ok::<(), PositionManagerError>(())
                    &&& final(self).open_positions() == old(self).open_positions().insert(
                        user,
                        (Position {
                            filled: true,
                            token: position.token,
                            stop_loss: position.stop_loss,
                            take_profit: position.take_profit,
                            entry_price: (cp) as i128,
                            borrowed: (to_borrow) as i128,
                            leverage: position.leverage,
                            collateral: position.collateral,
                            timestamp: now,
                        }),
                    )
                    &&& final(pool).supply_of(position.token) == old(pool).supply_of(
                        position.token,
                    ) + fee
                    &&& final(pool).slp_supply == old(pool).slp_supply
                    &&& crate::pool::same_refs(*final(pool), *old(pool))
                    &&& final(ledger).bal(position.token, old(pool).address) == old(ledger).bal(
                        position.token,
                        old(pool).address,
                    ) - to_borrow
                    &&& final(ledger).bal(position.token, old(self).address) == old(ledger).bal(
                        position.token,
                        old(self).address,
                    ) + to_borrow
                    &&& forall|t: u64, h: u64|
                        !(t == position.token && (h == old(self).address || h == old(
                            pool,
                        ).address)) ==> final(ledger).bal(t, h) == old(ledger).bal(t, h)
                })
            },
            r is Err ==> final(self).open_positions() == old(self).open_positions() && *final(pool)
                == *old(pool) && *final(ledger) == *old(ledger),
    {
        if !self.has_position(user) {
            return Err(PositionManagerError::NoPositionExists);
        }
        let position = self.get_pos(user);
        let token = position.token;
        let current_price = match load_relative_price(oracle, token, self.token_a, self.token_b, now) {
            Some(p) => p,
            None => {
                return Err(PositionManagerError::StalePriceData);
            },
        };
        if position.filled {
            if (position.take_profit != 0 && current_price >= position.take_profit) || (
            position.stop_loss != 0 && current_price <= position.stop_loss) {
                // A crossed threshold force-closes through the shared
                // settlement.
                let total_position = position.borrowed + position.collateral;
                let settled = calculate_repay_and_fee(
                    pool,
                    ledger,
                    oracle,
                    self.token_a,
                    self.token_b,
                    now,
                    position,
                );
                let (to_repay, fee) = match settled {
                    Ok(v) => v,
                    Err(e) => {
                        return Err(e);
                    },
                };
                let to_repay_user = total_position - to_repay - fee;
                crate::position::repay(
                    self,
                    pool,
                    ledger,
                    token,
                    user,
                    to_repay_user,
                    to_repay,
                    fee,
                );
            }
            // No threshold crossed: deliberately a no-op.
            Ok(())
        } else {
            if position.entry_price < current_price {
                return Err(PositionManagerError::PositionNotFilled);
            }
            proof {
                crate::fixed::lemma_mul_nonneg(
                    position.collateral as int,
                    position.leverage as int,
                );
                crate::fixed::lemma_floor_div_in_range(
                    position.collateral as int * position.leverage as int,
                    SCALAR_7 as int,
                );
            }
            let to_borrow = fixed_mul_floor(position.collateral, position.leverage as i128, SCALAR_7);
            proof {
                lemma_impact_fee_nonneg(to_borrow as int, current_price as int);
            }
            let fee = calculate_impact_fee(to_borrow, current_price);
            match pool.borrow(ledger, token, to_borrow, fee) {
                Ok(()) => (),
                Err(_) => {
                    return Err(PositionManagerError::PoolOperationFailed);
                },
            }
            let new_position = Position {
                filled: true,
                token,
                stop_loss: position.stop_loss,
                take_profit: position.take_profit,
                entry_price: current_price,
                borrowed: to_borrow,
                leverage: position.leverage,
                collateral: position.collateral,
                timestamp: now,
            };
            self.set_position(user, new_position);
            Ok(())
        }
    }

    /// Liquidate the trader's position if the current price has moved
    /// through its liquidation threshold against it. The whole remaining
    /// margin is surrendered to the pool; the trader receives nothing, and
    /// the liquidator takes no direct cut in this model.
    ///
    /// Fails `NoPositionExists` without a position, `StalePriceData` on an
    /// outdated record, and `PositionNotLiquidatable` while the threshold is
    /// uncrossed.
    #[allow(unused_variables)]
    pub fn liquidate(
        &mut self,
        pool: &mut PoolContract,
        ledger: &mut Ledger,
        oracle: &OracleState,
        now: u64,
        user: u64,
        liquidator: u64,
    ) -> (r: Result<(), PositionManagerError>)
        requires
            old(self).wf(),
            old(pool).wf(),
            old(ledger).wf(),
            old(pool).initialized,
            old(pool).position_manager == old(self).address,
            user != old(self).address,
            user != old(pool).address,
            old(self).has_position_spec(user) ==> {
                let position = old(self).position_of(user);
                &&& oracle.has_price(position.token)
                &&& oracle.has_price(
                    counter_asset(position.token, old(self).token_a, old(self).token_b),
                )
                &&& oracle.price_of(position.token) >= 0
                &&& oracle.price_of(
                    counter_asset(position.token, old(self).token_a, old(self).token_b),
                ) > 0
                &&& fits_i128(oracle.price_of(position.token) * SCALAR_7)
            },
            old(self).has_position_spec(user) && old(self).pos_fresh(
                *oracle,
                old(self).position_of(user).token,
                now,
            ) ==> {
                let position = old(self).position_of(user);
                let cp = old(self).rel_price(*oracle, position.token);
                &&& settlement_in_range(
                    *old(pool),
                    *old(ledger),
                    *oracle,
                    old(self).token_a,
                    old(self).token_b,
                    now,
                    position,
                )
                &&& liquidation_in_range(
                    *old(pool),
                    *old(ledger),
                    *oracle,
                    old(self).token_a,
                    old(self).token_b,
                    now,
                    position,
                )
                &&& (cp <= liquidation_price(
                    *old(pool),
                    *old(ledger),
                    *oracle,
                    old(self).token_a,
                    old(self).token_b,
                    now,
                    position,
                ) ==> {
                    &&& old(ledger).bal(position.token, old(self).address) >= position.borrowed
                        + position.collateral
                    &&& old(ledger).bal(position.token, old(pool).address) + (position.borrowed
                        + position.collateral) <= i128::MAX
                    &&& fits_i128(
                        old(pool).supply_of(position.token) + (position.borrowed
                            + position.collateral - repay_amount(position, cp)),
                    )
                })
            },
        ensures
            final(self).wf(),
            final(pool).wf(),
            final(ledger).wf(),
            same_mgr_refs(*final(self), *old(self)),
            !old(self).has_position_spec(user) ==> r == Err::<(), PositionManagerError>(
                PositionManagerError::NoPositionExists,
            ),
            old(self).has_position_spec(user) && !old(self).pos_fresh(
                *oracle,
                old(self).position_of(user).token,
                now,
            ) ==> r == Err::<(), PositionManagerError>(PositionManagerError::StalePriceData),
            old(self).has_position_spec(user) && old(self).pos_fresh(
                *oracle,
                old(self).position_of(user).token,
                now,
            ) && old(self).rel_price(*oracle, old(self).position_of(user).token)
                > liquidation_price(
                *old(pool),
                *old(ledger),
                *oracle,
                old(self).token_a,
                old(self).token_b,
                now,
                old(self).position_of(user),
            ) ==> r == Err::<(), PositionManagerError>(PositionManagerError::PositionNotLiquidatable),
            old(self).has_position_spec(user) && old(self).pos_fresh(
                *oracle,
                old(self).position_of(user).token,
                now,
            ) && old(self).rel_price(*oracle, old(self).position_of(user).token)
                <= liquidation_price(
                *old(pool),
                *old(ledger),
                *oracle,
                old(self).token_a,
                old(self).token_b,
                now,
                old(self).position_of(user),
            ) ==> {
                let position = old(self).position_of(user);
                let cp = old(self).rel_price(*oracle, position.token);
                let to_repay = repay_amount(position, cp);
                let liq_fee = position.borrowed + position.collateral - to_repay;
                &&& r == Ok::<(), PositionManagerError>(())
                &&& final(self).open_positions() == old(self).open_positions().remove(user)
                &&& final(pool).supply_of(position.token) == old(pool).supply_of(position.token)
                    + liq_fee
                &&& final(pool).slp_supply == old(pool).slp_supply
                &&& crate::pool::same_refs(*final(pool), *old(pool))
                &&& final(ledger).bal(position.token, old(self).address) == old(ledger).bal(
                    position.token,
                    old(self).address,
                ) - (position.borrowed + position.collateral)
                &&& final(ledger).bal(position.token, old(pool).address) == old(ledger).bal(
                    position.token,
                    old(pool).address,
                ) + (position.borrowed + position.collateral)
                &&& forall|t: u64, h: u64|
                    !(t == position.token && (h == old(self).address || h == old(
                        pool,
                    ).address)) ==> final(ledger).bal(t, h) == old(ledger).bal(t, h)
            },
            r is Err ==> final(self).open_positions() == old(self).open_positions() && *final(pool)
                == *old(pool) && *final(ledger) == *old(ledger),
    {
        if !self.has_position(user) {
            return Err(PositionManagerError::NoPositionExists);
        }
        let position = self.get_pos(user);
        let current_price = match load_relative_price(
            oracle,
            position.token,
            self.token_a,
            self.token_b,
            now,
        ) {
            Some(p) => p,
            None => {
                return Err(PositionManagerError::StalePriceData);
            },
        };
        let borrowed_value = fixed_mul_floor(position.borrowed, current_price, SCALAR_7);
        let collateral_value = fixed_mul_floor(position.collateral, current_price, SCALAR_7);
        let settled = calculate_repay_and_fee(
            pool,
            ledger,
            oracle,
            self.token_a,
            self.token_b,
            now,
            position,
        );
        let fee = match settled {
            Ok(v) => v.1,
            Err(e) => {
                return Err(e);
            },
        };

        // The threshold: the entry price plus the residual margin after
        // fees and the maximum-leverage normalization, per borrowed unit.
        let size_ratio = fixed_div_floor(borrowed_value, MAX_LEVERAGE, SCALAR_7);
        let premium_base = collateral_value - fee - size_ratio;
        let premium_scaled = fixed_mul_floor(premium_base, current_price, SCALAR_7);
        let liquidation_premium = fixed_div_floor(premium_scaled, position.borrowed, SCALAR_7);
        let threshold = position.entry_price + liquidation_premium;

        if current_price <= threshold {
            // Forced close at a loss: the entry-valued debt is repaid and
            // the whole remaining margin goes to the pool as the fee.
            proof {
                crate::fixed::lemma_mul_nonneg(
                    position.borrowed as int,
                    position.entry_price as int,
                );
                crate::fixed::lemma_floor_div_in_range(
                    position.borrowed as int * position.entry_price as int,
                    SCALAR_7 as int,
                );
            }
            let borrowed_entry_value = fixed_mul_floor(
                position.borrowed,
                position.entry_price,
                SCALAR_7,
            );
            proof {
                crate::fixed::lemma_mul_nonneg(borrowed_entry_value as int, SCALAR_7 as int);
                crate::fixed::lemma_floor_div_in_range(
                    borrowed_entry_value as int * SCALAR_7 as int,
                    current_price as int,
                );
            }
            let to_repay = fixed_div_floor(borrowed_entry_value, current_price, SCALAR_7);
            let liquidation_fee = position.borrowed + position.collateral - to_repay;
            let permit = crate::ledger::TransferPermit {
                token: position.token,
                from: self.address,
                to: pool.address,
                amount: to_repay + liquidation_fee,
            };
            let res = pool.repay(ledger, permit, position.token, to_repay, liquidation_fee);
            proof {
                assert(res is Ok);
            }
            self.remove_position(user);
            Ok(())
        } else {
            Err(PositionManagerError::PositionNotLiquidatable)
        }
    }
}

/// The price at which a position's remaining margin no longer covers its
/// risk: the entry price plus the residual margin after fees and the
/// maximum-leverage normalization, per borrowed unit.
pub open spec fn liquidation_price(
    pool: PoolContract,
    ledger: Ledger,
    oracle: OracleState,
    token_a: u64,
    token_b: u64,
    now: u64,
    position: Position,
) -> int {
    let cp = relative_price_of(oracle, position.token, token_a, token_b);
    let bv = mul_floor(position.borrowed as int, cp, SCALAR_7 as int);
    let cv = mul_floor(position.collateral as int, cp, SCALAR_7 as int);
    let fee = settlement_fee(
        pool.supply_of(position.token),
        ledger.bal(position.token, pool.address),
        position,
        cp,
        now as int,
    );
    let sr = crate::fixed::div_floor(bv, MAX_LEVERAGE as int, SCALAR_7 as int);
    let scaled = mul_floor(cv - fee - sr, cp, SCALAR_7 as int);
    let premium = crate::fixed::div_floor(scaled, position.borrowed as int, SCALAR_7 as int);
    position.entry_price + premium
}

/// The machine-limit conditions of the liquidation-threshold computation;
/// the position must also carry a positive debt, since the premium is per
/// borrowed unit.
pub open spec fn liquidation_in_range(
    pool: PoolContract,
    ledger: Ledger,
    oracle: OracleState,
    token_a: u64,
    token_b: u64,
    now: u64,
    position: Position,
) -> bool {
    let cp = relative_price_of(oracle, position.token, token_a, token_b);
    let bv = mul_floor(position.borrowed as int, cp, SCALAR_7 as int);
    let cv = mul_floor(position.collateral as int, cp, SCALAR_7 as int);
    let fee = settlement_fee(
        pool.supply_of(position.token),
        ledger.bal(position.token, pool.address),
        position,
        cp,
        now as int,
    );
    let sr = crate::fixed::div_floor(bv, MAX_LEVERAGE as int, SCALAR_7 as int);
    let scaled = mul_floor(cv - fee - sr, cp, SCALAR_7 as int);
    let premium = crate::fixed::div_floor(scaled, position.borrowed as int, SCALAR_7 as int);
    &&& position.borrowed > 0
    &&& fits_i128(position.borrowed * cp)
    &&& fits_i128(position.collateral * cp)
    &&& fits_i128(bv * SCALAR_7)
    &&& fits_i128(cv - fee - sr)
    &&& fits_i128((cv - fee - sr) * cp)
    &&& fits_i128(scaled * SCALAR_7)
    &&& fits_i128(position.entry_price + premium)
    &&& fits_i128(position.borrowed + position.collateral)
}

/// Whether the current price has crossed a set stop-loss or take-profit
/// threshold of a filled position.
pub open spec fn fill_triggered(position: Position, cp: int) -> bool {
    (position.take_profit != 0 && cp >= position.take_profit) || (position.stop_loss != 0 && cp
        <= position.stop_loss)
}

/// The impact fee of a nonnegative trade at a nonnegative price is at least
/// the base fee.
pub proof fn lemma_impact_fee_nonneg(size: int, price: int)
    requires
        size >= 0,
        price >= 0,
    ensures
        impact_fee(size, price) >= crate::position::BASE_FEE,
{
    crate::fixed::lemma_mul_nonneg(size, price);
    crate::fixed::lemma_ceil_div_in_range(size * price, SCALAR_7 as int);
    crate::fixed::lemma_mul_nonneg(
        crate::fixed::mul_ceil(size, price, SCALAR_7 as int),
        SCALAR_7 as int,
    );
    crate::fixed::lemma_ceil_div_in_range(
        crate::fixed::mul_ceil(size, price, SCALAR_7 as int) * SCALAR_7,
        crate::position::IMPACT_FEE_SCALAR as int,
    );
}

} // verus!
