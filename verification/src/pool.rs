//! The liquidity pool engine: two asset ledgers, a proportional share token,
//! and deposit / withdraw / borrow / repay accounting.
//!
//! The pool's recorded supply of an asset is its own bookkeeping of the
//! asset's economic size (principal plus accrued fees); it is not necessarily
//! the raw token balance held, since fees raise it without moving tokens and
//! borrows move tokens without lowering it.

use vstd::prelude::*;
use crate::errors::PoolError;
use crate::fixed::{
    SCALAR_7,
    floor_div,
    mul_floor,
    div_floor,
    fits_i128,
    fixed_mul_floor,
    fixed_div_floor,
    lemma_floor_div_in_range,
};
use crate::ledger::{Ledger, TransferPermit};
use crate::oracle::OracleState;
use crate::oracle::load_price;

verus! {

/// One pool asset's ledger entry: its identity, the pool's recorded supply
/// of it, and the targeted fraction of the pool's value it should hold.
#[derive(Clone, Copy, Debug, PartialEq, Eq, Structural)]
pub struct TokenInfo {
    pub address: u64,
    pub total_supply: i128,
    pub target_ratio: u32,
}

/// The pool engine's state.
#[derive(Clone, Copy, Debug, PartialEq, Eq, Structural)]
pub struct PoolContract {
    /// The pool's own account identity on the ledger.
    pub address: u64,
    pub admin: u64,
    pub oracle: u64,
    pub position_manager: u64,
    /// The share token's identity on the ledger.
    pub slp_token: u64,
    /// The share token's recorded total supply.
    pub slp_supply: i128,
    pub token_a: TokenInfo,
    pub token_b: TokenInfo,
    pub initialized: bool,
}

/// The scaled value of `amount` units priced at `price`, rounded down.
pub open spec fn value_of(amount: int, price: int) -> int {
    mul_floor(amount, price, SCALAR_7 as int)
}

/// Whether two pool states agree on everything but recorded supplies and the
/// share supply.
pub open spec fn same_refs(a: PoolContract, b: PoolContract) -> bool {
    &&& a.address == b.address
    &&& a.admin == b.admin
    &&& a.oracle == b.oracle
    &&& a.position_manager == b.position_manager
    &&& a.slp_token == b.slp_token
    &&& a.initialized == b.initialized
    &&& a.token_a.address == b.token_a.address
    &&& a.token_a.target_ratio == b.token_a.target_ratio
    &&& a.token_b.address == b.token_b.address
    &&& a.token_b.target_ratio == b.token_b.target_ratio
}

impl PoolContract {
    /// Well-formedness: an initialized pool's target ratios sum exactly to
    /// 1.0 scaled, and the identities that later accounting distinguishes
    /// are distinct.
    pub open spec fn wf(self) -> bool {
        self.initialized ==> {
            &&& self.token_a.target_ratio + self.token_b.target_ratio == SCALAR_7
            &&& self.token_a.address != self.token_b.address
            &&& self.slp_token != self.token_a.address
            &&& self.slp_token != self.token_b.address
            &&& self.position_manager != self.address
        }
    }

    /// Whether `token` is one of the pool's two assets.
    pub open spec fn is_pool_token(self, token: u64) -> bool {
        token == self.token_a.address || token == self.token_b.address
    }

    /// The recorded supply of a pool asset.
    pub open spec fn supply_of(self, token: u64) -> int {
        if token == self.token_a.address {
            self.token_a.total_supply as int
        } else {
            self.token_b.total_supply as int
        }
    }

    /// The scaled value of the recorded supply of asset A at price `pa`.
    pub open spec fn a_value(self, pa: int) -> int {
        value_of(self.token_a.total_supply as int, pa)
    }

    /// The scaled value of the recorded supply of asset B at price `pb`.
    pub open spec fn b_value(self, pb: int) -> int {
        value_of(self.token_b.total_supply as int, pb)
    }

    /// The pool's total recorded value at the given prices.
    pub open spec fn total_value(self, pa: int, pb: int) -> int {
        self.a_value(pa) + self.b_value(pb)
    }

    /// The oracle's price for asset A.
    pub open spec fn price_a(self, oracle: OracleState) -> int {
        oracle.price_of(self.token_a.address)
    }

    /// The oracle's price for asset B.
    pub open spec fn price_b(self, oracle: OracleState) -> int {
        oracle.price_of(self.token_b.address)
    }

    /// Whether the oracle holds a record for both pool assets.
    pub open spec fn prices_known(self, oracle: OracleState) -> bool {
        oracle.has_price(self.token_a.address) && oracle.has_price(self.token_b.address)
    }

    /// Whether both assets' records are fresh at time `now`.
    pub open spec fn prices_fresh(self, oracle: OracleState, now: u64) -> bool {
        oracle.fresh_at(self.token_a.address, now) && oracle.fresh_at(self.token_b.address, now)
    }

    /// Whether a deposit is accepted. For a non-empty pool the deposit must
    /// not widen either asset's absolute distance to its target ratio; for
    /// an empty pool the deposit's own ratio must already equal the target
    /// exactly.
    pub open spec fn deposit_accepted(self, pa: int, pb: int, da: int, db: int) -> bool {
        let av = self.a_value(pa);
        let tv = self.total_value(pa, pb);
        let dva = value_of(da, pa);
        let dvb = value_of(db, pb);
        let dvt = dva + dvb;
        let ta = self.token_a.target_ratio as int;
        let tb = self.token_b.target_ratio as int;
        if tv == 0 {
            let ar = div_floor(dva, dvt, SCALAR_7 as int);
            ar == ta && SCALAR_7 - ar == tb
        } else {
            let ar = div_floor(av, tv, SCALAR_7 as int);
            let nar = div_floor(av + dva, tv + dvt, SCALAR_7 as int);
            vstd::math::abs(nar - ta) <= vstd::math::abs(ar - ta) && vstd::math::abs(
                (SCALAR_7 - nar) - tb,
            ) <= vstd::math::abs((SCALAR_7 - ar) - tb)
        }
    }

    /// The shares minted for a deposit: its whole value for the first mint,
    /// else the deposit value's proportional share of the supply, floored in
    /// two fixed-point steps.
    pub open spec fn minted_shares(self, pa: int, pb: int, da: int, db: int) -> int {
        let tv = self.total_value(pa, pb);
        let dvt = value_of(da, pa) + value_of(db, pb);
        if self.slp_supply == 0 {
            dvt
        } else {
            floor_div(floor_div(dvt * self.slp_supply, SCALAR_7 as int) * SCALAR_7, tv)
        }
    }

    /// The machine-limit conditions under which a deposit's fixed-point
    /// steps neither overflow `i128` nor divide by zero.
    pub open spec fn deposit_in_range(self, pa: int, pb: int, da: int, db: int) -> bool {
        let av = self.a_value(pa);
        let tv = self.total_value(pa, pb);
        let dva = value_of(da, pa);
        let dvb = value_of(db, pb);
        let dvt = dva + dvb;
        &&& fits_i128(self.token_a.total_supply * pa)
        &&& fits_i128(self.token_b.total_supply * pb)
        &&& fits_i128(da * pa)
        &&& fits_i128(db * pb)
        &&& fits_i128(tv)
        &&& fits_i128(dvt)
        &&& fits_i128(tv + dvt)
        &&& (tv == 0 ==> dvt > 0)
        &&& (tv == 0 ==> fits_i128(dva * SCALAR_7))
        &&& (tv != 0 ==> fits_i128(av * SCALAR_7))
        &&& (tv != 0 ==> fits_i128((av + dva) * SCALAR_7))
        &&& (tv == 0 && self.deposit_accepted(pa, pb, da, db) ==> self.slp_supply == 0)
        &&& (self.slp_supply != 0 ==> fits_i128(dvt * self.slp_supply) && fits_i128(
            floor_div(dvt * self.slp_supply, SCALAR_7 as int) * SCALAR_7,
        ))
        &&& fits_i128(self.token_a.total_supply + da)
        &&& fits_i128(self.token_b.total_supply + db)
        &&& fits_i128(self.slp_supply + self.minted_shares(pa, pb, da, db))
    }

    /// Whether a borrow goes through: the token must be a pool asset, the
    /// amount at most the held balance, and the balance left behind at
    /// least a tenth of the recorded supply.
    pub open spec fn borrow_ok(self, ledger: Ledger, token: u64, amount: i128) -> bool {
        &&& self.is_pool_token(token)
        &&& amount <= ledger.bal(token, self.address)
        &&& ledger.bal(token, self.address) - amount >= floor_div(self.supply_of(token), 10)
    }

    /// The fraction of the share supply being withdrawn, floored.
    pub open spec fn withdraw_ratio(self, slp_amount: int) -> int {
        div_floor(slp_amount, self.slp_supply as int, SCALAR_7 as int)
    }

    /// The scaled value leaving the pool for `slp_amount` shares.
    pub open spec fn withdraw_value(self, pa: int, pb: int, slp_amount: int) -> int {
        mul_floor(self.total_value(pa, pb), self.withdraw_ratio(slp_amount), SCALAR_7 as int)
    }

    /// The value of asset A leaving the pool, under the rebalancing split
    /// rule: a pool at its target ratio splits proportionally; an
    /// over-weighted asset gives up disproportionately more, scaled by the
    /// excess over its current share.
    pub open spec fn withdraw_a_share(self, pa: int, pb: int, slp_amount: int) -> int {
        let wv = self.withdraw_value(pa, pb, slp_amount);
        let av = self.a_value(pa);
        let tv = self.total_value(pa, pb);
        let ar = div_floor(av, tv, SCALAR_7 as int);
        let ta = self.token_a.target_ratio as int;
        if ar == ta {
            mul_floor(wv, ar, SCALAR_7 as int)
        } else if ar > ta {
            let adjust = div_floor(ar - ta, ar, SCALAR_7 as int);
            mul_floor(mul_floor(wv, ar, SCALAR_7 as int), SCALAR_7 + adjust, SCALAR_7 as int)
        } else {
            let br = SCALAR_7 - ar;
            let adjust = div_floor(ta - ar, br, SCALAR_7 as int);
            wv - mul_floor(mul_floor(wv, br, SCALAR_7 as int), SCALAR_7 + adjust, SCALAR_7 as int)
        }
    }

    /// The value of asset B leaving the pool: the rest of the withdrawal.
    pub open spec fn withdraw_b_share(self, pa: int, pb: int, slp_amount: int) -> int {
        self.withdraw_value(pa, pb, slp_amount) - self.withdraw_a_share(pa, pb, slp_amount)
    }

    /// The token amount of asset A leaving the pool.
    pub open spec fn withdraw_a_amount(self, pa: int, pb: int, slp_amount: int) -> int {
        div_floor(self.withdraw_a_share(pa, pb, slp_amount), pa, SCALAR_7 as int)
    }

    /// The token amount of asset B leaving the pool.
    pub open spec fn withdraw_b_amount(self, pa: int, pb: int, slp_amount: int) -> int {
        div_floor(self.withdraw_b_share(pa, pb, slp_amount), pb, SCALAR_7 as int)
    }

    /// The machine-limit conditions under which a withdrawal's fixed-point
    /// steps neither overflow `i128` nor divide by zero, and its split
    /// leaves both assets a nonnegative part (a negative part would be an
    /// impossible token movement).
    pub open spec fn withdraw_in_range(self, pa: int, pb: int, slp_amount: int) -> bool {
        let tv = self.total_value(pa, pb);
        let wv = self.withdraw_value(pa, pb, slp_amount);
        &&& fits_i128(self.token_a.total_supply * pa)
        &&& fits_i128(self.token_b.total_supply * pb)
        &&& fits_i128(tv)
        &&& tv > 0
        &&& fits_i128(slp_amount * SCALAR_7)
        &&& fits_i128(tv * self.withdraw_ratio(slp_amount))
        &&& fits_i128(self.a_value(pa) * SCALAR_7)
        &&& fits_i128(2 * SCALAR_7 * wv)
        &&& 0 <= self.withdraw_a_share(pa, pb, slp_amount) <= wv
    }

    /// Whether a withdrawal goes through: it must carry positive value, at
    /// most the pool's whole value, and ask no more of either asset than the
    /// pool actually holds.
    pub open spec fn withdraw_succeeds(
        self,
        ledger: Ledger,
        pa: int,
        pb: int,
        slp_amount: int,
    ) -> bool {
        let wv = self.withdraw_value(pa, pb, slp_amount);
        &&& wv > 0
        &&& wv <= self.total_value(pa, pb)
        &&& self.withdraw_a_amount(pa, pb, slp_amount) <= ledger.bal(
            self.token_a.address,
            self.address,
        )
        &&& self.withdraw_b_amount(pa, pb, slp_amount) <= ledger.bal(
            self.token_b.address,
            self.address,
        )
    }

    /// A fresh, never-initialized pool bound to its ledger identity.
    pub fn new(address: u64) -> (r: PoolContract)
        ensures
            r.wf(),
            !r.initialized,
            r.address == address,
    {
        PoolContract {
            address,
            admin: 0,
            oracle: 0,
            position_manager: 0,
            slp_token: 0,
            slp_supply: 0,
            token_a: TokenInfo { address: 0, total_supply: 0, target_ratio: 0 },
            token_b: TokenInfo { address: 0, total_supply: 0, target_ratio: 0 },
            initialized: false,
        }
    }

    /// One-time setup of the pool's collaborators and the two asset entries.
    ///
    /// Fails `AlreadyInitialized` on a second run, `InvalidTokenSupply`
    /// unless both entries start with a zero recorded supply, and
    /// `InvalidTargetRatio` unless the target ratios sum exactly to 1.0
    /// scaled. The distinctness demands below are the model's: the ledger
    /// identities that the accounting tells apart must differ.
    pub fn initialize(
        &mut self,
        admin: u64,
        oracle: u64,
        position_manager: u64,
        spl: u64,
        token_a: TokenInfo,
        token_b: TokenInfo,
    ) -> (r: Result<(), PoolError>)
        requires
            old(self).wf(),
            token_a.target_ratio + token_b.target_ratio <= u32::MAX,
            token_a.address != token_b.address,
            spl != token_a.address,
            spl != token_b.address,
            position_manager != old(self).address,
        ensures
            final(self).wf(),
            old(self).initialized ==> r == Err::<(), PoolError>(PoolError::AlreadyInitialized)
                && *final(self) == *old(self),
            !old(self).initialized && !(token_a.total_supply == 0 && token_b.total_supply == 0)
                ==> r == Err::<(), PoolError>(PoolError::InvalidTokenSupply) && *final(self)
                == *old(self),
            !old(self).initialized && token_a.total_supply == 0 && token_b.total_supply == 0
                && token_a.target_ratio + token_b.target_ratio != SCALAR_7 ==> r == Err::<
                (),
                PoolError,
            >(PoolError::InvalidTargetRatio) && *final(self) == *old(self),
            !old(self).initialized && token_a.total_supply == 0 && token_b.total_supply == 0
                && token_a.target_ratio + token_b.target_ratio == SCALAR_7 ==> {
                &&& r == Ok::<(), PoolError>(())
                &&& *final(self) == (PoolContract {
                    address: old(self).address,
                    admin,
                    oracle,
                    position_manager,
                    slp_token: spl,
                    slp_supply: 0,
                    token_a,
                    token_b,
                    initialized: true,
                })
            },
    {
        if self.initialized {
            return Err(PoolError::AlreadyInitialized);
        }
        if token_a.total_supply != 0 || token_b.total_supply != 0 {
            return Err(PoolError::InvalidTokenSupply);
        }
        if (token_a.target_ratio + token_b.target_ratio) as i128 != SCALAR_7 {
            return Err(PoolError::InvalidTargetRatio);
        }
        self.slp_token = spl;
        self.slp_supply = 0;
        self.token_a = token_a;
        self.token_b = token_b;
        self.position_manager = position_manager;
        self.oracle = oracle;
        self.admin = admin;
        self.initialized = true;
        Ok(())
    }

    /// Deposit `token_a_amount` and `token_b_amount` into the pool, minting
    /// proportional shares to `user`.
    ///
    /// The user's authorization is the application's edge. Fails
    /// `NotInitialized` before setup, `StalePriceData` on an outdated price
    /// record, and `DepositDoesNotImproveRatio` when the deposit would widen
    /// either asset's distance to its target ratio (for an empty pool: when
    /// the deposit's own ratio is not exactly the target). On success the
    /// recorded supplies grow by the deposited amounts, both amounts move
    /// from the user to the pool, and the minted shares are credited to the
    /// user and to the share supply.
    pub fn deposit(
        &mut self,
        ledger: &mut Ledger,
        oracle: &OracleState,
        now: u64,
        user: u64,
        token_a_amount: i128,
        token_b_amount: i128,
    ) -> (r: Result<i128, PoolError>)
        requires
            old(self).wf(),
            old(ledger).wf(),
            user != old(self).address,
            token_a_amount >= 0,
            token_b_amount >= 0,
            old(self).initialized ==> {
                &&& old(self).prices_known(*oracle)
                &&& old(self).token_a.total_supply >= 0
                &&& old(self).token_b.total_supply >= 0
                &&& old(self).slp_supply >= 0
                &&& (old(self).prices_fresh(*oracle, now) ==> {
                    let pa = old(self).price_a(*oracle);
                    let pb = old(self).price_b(*oracle);
                    &&& pa >= 0
                    &&& pb >= 0
                    &&& old(self).deposit_in_range(
                        pa,
                        pb,
                        token_a_amount as int,
                        token_b_amount as int,
                    )
                    &&& (old(self).deposit_accepted(
                        pa,
                        pb,
                        token_a_amount as int,
                        token_b_amount as int,
                    ) ==> {
                        &&& old(ledger).bal(old(self).token_a.address, user) >= token_a_amount
                        &&& old(ledger).bal(old(self).token_b.address, user) >= token_b_amount
                        &&& old(ledger).bal(old(self).token_a.address, old(self).address)
                            + token_a_amount <= i128::MAX
                        &&& old(ledger).bal(old(self).token_b.address, old(self).address)
                            + token_b_amount <= i128::MAX
                        &&& old(ledger).bal(old(self).slp_token, user) + old(self).minted_shares(
                            pa,
                            pb,
                            token_a_amount as int,
                            token_b_amount as int,
                        ) <= i128::MAX
                    })
                })
            },
        ensures
            final(self).wf(),
            final(ledger).wf(),
            !old(self).initialized ==> r == Err::<i128, PoolError>(PoolError::NotInitialized),
            old(self).initialized && !old(self).prices_fresh(*oracle, now) ==> r == Err::<
                i128,
                PoolError,
            >(PoolError::StalePriceData),
            old(self).initialized && old(self).prices_fresh(*oracle, now) && !old(
                self,
            ).deposit_accepted(
                old(self).price_a(*oracle),
                old(self).price_b(*oracle),
                token_a_amount as int,
                token_b_amount as int,
            ) ==> r == Err::<i128, PoolError>(PoolError::DepositDoesNotImproveRatio),
            old(self).initialized && old(self).prices_fresh(*oracle, now) && old(
                self,
            ).deposit_accepted(
                old(self).price_a(*oracle),
                old(self).price_b(*oracle),
                token_a_amount as int,
                token_b_amount as int,
            ) ==> {
                let pa = old(self).price_a(*oracle);
                let pb = old(self).price_b(*oracle);
                let da = token_a_amount as int;
                let db = token_b_amount as int;
                let minted = old(self).minted_shares(pa, pb, da, db);
                &&& r is Ok
                &&& r->Ok_0 == minted
                &&& final(self).token_a.total_supply == old(self).token_a.total_supply + da
                &&& final(self).token_b.total_supply == old(self).token_b.total_supply + db
                &&& final(self).slp_supply == old(self).slp_supply + minted
                &&& same_refs(*final(self), *old(self))
                &&& final(ledger).bal(old(self).token_a.address, user) == old(ledger).bal(
                    old(self).token_a.address,
                    user,
                ) - da
                &&& final(ledger).bal(old(self).token_a.address, old(self).address) == old(
                    ledger,
                ).bal(old(self).token_a.address, old(self).address) + da
                &&& final(ledger).bal(old(self).token_b.address, user) == old(ledger).bal(
                    old(self).token_b.address,
                    user,
                ) - db
                &&& final(ledger).bal(old(self).token_b.address, old(self).address) == old(
                    ledger,
                ).bal(old(self).token_b.address, old(self).address) + db
                &&& final(ledger).bal(old(self).slp_token, user) == old(ledger).bal(
                    old(self).slp_token,
                    user,
                ) + minted
                &&& forall|t: u64, h: u64|
                    !((t == old(self).token_a.address || t == old(self).token_b.address) && (h
                        == user || h == old(self).address)) && !(t == old(self).slp_token && h
                        == user) ==> final(ledger).bal(t, h) == old(ledger).bal(t, h)
                &&& old(ledger).bal(old(self).token_a.address, old(self).address) == old(
                    self,
                ).token_a.total_supply ==> final(ledger).bal(
                    old(self).token_a.address,
                    old(self).address,
                ) == final(self).token_a.total_supply
                &&& old(ledger).bal(old(self).token_b.address, old(self).address) == old(
                    self,
                ).token_b.total_supply ==> final(ledger).bal(
                    old(self).token_b.address,
                    old(self).address,
                ) == final(self).token_b.total_supply
            },
            r is Err ==> *final(self) == *old(self) && *final(ledger) == *old(ledger),
    {
        if !self.initialized {
            return Err(PoolError::NotInitialized);
        }
        let price_a = match load_price(oracle, self.token_a.address, now) {
            Some(p) => p,
            None => {
                return Err(PoolError::StalePriceData);
            },
        };
        let price_b = match load_price(oracle, self.token_b.address, now) {
            Some(p) => p,
            None => {
                return Err(PoolError::StalePriceData);
            },
        };
        proof {
            crate::fixed::lemma_mul_nonneg(self.token_a.total_supply as int, price_a as int);
            crate::fixed::lemma_mul_nonneg(self.token_b.total_supply as int, price_b as int);
            crate::fixed::lemma_mul_nonneg(token_a_amount as int, price_a as int);
            crate::fixed::lemma_mul_nonneg(token_b_amount as int, price_b as int);
            lemma_floor_div_in_range(
                self.token_a.total_supply as int * price_a as int,
                SCALAR_7 as int,
            );
            lemma_floor_div_in_range(
                self.token_b.total_supply as int * price_b as int,
                SCALAR_7 as int,
            );
            lemma_floor_div_in_range(token_a_amount as int * price_a as int, SCALAR_7 as int);
            lemma_floor_div_in_range(token_b_amount as int * price_b as int, SCALAR_7 as int);
        }

        // Current pool value and the deposit's value, floored per asset.
        let a_value = fixed_mul_floor(self.token_a.total_supply, price_a, SCALAR_7);
        let b_value = fixed_mul_floor(self.token_b.total_supply, price_b, SCALAR_7);
        let total_value = a_value + b_value;
        let deposit_a_value = fixed_mul_floor(token_a_amount, price_a, SCALAR_7);
        let deposit_b_value = fixed_mul_floor(token_b_amount, price_b, SCALAR_7);
        let deposit_total_value = deposit_a_value + deposit_b_value;

        // The pre-deposit share of asset A; for an empty pool, the share of
        // A in the deposit itself.
        let a_ratio: i128;
        if total_value == 0 {
            proof {
                crate::fixed::lemma_mul_nonneg(deposit_a_value as int, SCALAR_7 as int);
                lemma_floor_div_in_range(
                    deposit_a_value as int * SCALAR_7 as int,
                    deposit_total_value as int,
                );
            }
            a_ratio = fixed_div_floor(deposit_a_value, deposit_total_value, SCALAR_7);
        } else {
            proof {
                crate::fixed::lemma_mul_nonneg(a_value as int, SCALAR_7 as int);
                lemma_floor_div_in_range(a_value as int * SCALAR_7 as int, total_value as int);
            }
            a_ratio = fixed_div_floor(a_value, total_value, SCALAR_7);
        }
        let b_ratio = SCALAR_7 - a_ratio;

        // Acceptance: the deposit must move the pool toward its target.
        if total_value != 0 {
            let target_a = self.token_a.target_ratio as i128;
            let target_b = self.token_b.target_ratio as i128;
            let new_total_value = total_value + deposit_total_value;
            let new_a_value = a_value + deposit_a_value;
            proof {
                crate::fixed::lemma_mul_nonneg(new_a_value as int, SCALAR_7 as int);
                lemma_floor_div_in_range(
                    new_a_value as int * SCALAR_7 as int,
                    new_total_value as int,
                );
            }
            let new_a_ratio = fixed_div_floor(new_a_value, new_total_value, SCALAR_7);
            let new_b_ratio = SCALAR_7 - new_a_ratio;
            let a_diff = crate::fixed::abs_i128(a_ratio - target_a);
            let new_a_diff = crate::fixed::abs_i128(new_a_ratio - target_a);
            let b_diff = crate::fixed::abs_i128(b_ratio - target_b);
            let new_b_diff = crate::fixed::abs_i128(new_b_ratio - target_b);
            if new_a_diff > a_diff || new_b_diff > b_diff {
                return Err(PoolError::DepositDoesNotImproveRatio);
            }
        } else {
            if a_ratio != self.token_a.target_ratio as i128 || b_ratio
                != self.token_b.target_ratio as i128 {
                return Err(PoolError::DepositDoesNotImproveRatio);
            }
        }

        // Accepted: record the amounts and pull them from the user.
        self.token_a.total_supply = self.token_a.total_supply + token_a_amount;
        self.token_b.total_supply = self.token_b.total_supply + token_b_amount;
        ledger.transfer(self.token_a.address, user, self.address, token_a_amount);
        ledger.transfer(self.token_b.address, user, self.address, token_b_amount);

        // Mint shares: the whole deposit value for the first mint, else its
        // proportional share of the supply.
        let current_slp_supply = self.slp_supply;
        let slp_to_mint: i128;
        if current_slp_supply == 0 {
            slp_to_mint = deposit_total_value;
        } else {
            proof {
                crate::fixed::lemma_mul_nonneg(
                    deposit_total_value as int,
                    current_slp_supply as int,
                );
                lemma_floor_div_in_range(
                    deposit_total_value as int * current_slp_supply as int,
                    SCALAR_7 as int,
                );
            }
            let step = fixed_mul_floor(deposit_total_value, current_slp_supply, SCALAR_7);
            proof {
                crate::fixed::lemma_mul_nonneg(step as int, SCALAR_7 as int);
                lemma_floor_div_in_range(step as int * SCALAR_7 as int, total_value as int);
            }
            slp_to_mint = fixed_div_floor(step, total_value, SCALAR_7);
        }
        self.slp_supply = current_slp_supply + slp_to_mint;
        ledger.mint(self.slp_token, user, slp_to_mint);
        Ok(slp_to_mint)
    }

    /// The oracle reference.
    pub fn get_oracle(&self) -> (r: u64)
        requires
            self.initialized,
        ensures
            r == self.oracle,
    {
        self.oracle
    }

    /// The share token's recorded total supply.
    pub fn get_slp_supply(&self) -> (r: i128)
        requires
            self.initialized,
        ensures
            r == self.slp_supply,
    {
        self.slp_supply
    }

    /// The ledger entry of one of the pool's assets.
    ///
    /// Fails `InvalidTokenAddress` for any other token.
    pub fn get_token_info(&self, token: u64) -> (r: Result<TokenInfo, PoolError>)
        requires
            self.initialized,
        ensures
            token == self.token_a.address ==> r == Ok::<TokenInfo, PoolError>(self.token_a),
            token != self.token_a.address && token == self.token_b.address ==> r == Ok::<
                TokenInfo,
                PoolError,
            >(self.token_b),
            !self.is_pool_token(token) ==> r == Err::<TokenInfo, PoolError>(
                PoolError::InvalidTokenAddress,
            ),
    {
        if token == self.token_a.address {
            return Ok(self.token_a);
        }
        if token == self.token_b.address {
            return Ok(self.token_b);
        }
        Err(PoolError::InvalidTokenAddress)
    }

    /// Burn `slp_amount` shares and pay out the matching slice of the
    /// pool's value, split between the two assets by the rebalancing rule.
    ///
    /// The user's authorization is the application's edge. Fails
    /// `NotInitialized` before setup, `StalePriceData` on an outdated price
    /// record, and `InsufficientFundsForWithdrawal` when the withdrawal
    /// carries no value or asks more of an asset than the pool holds. On
    /// success the recorded supplies fall by the amounts paid out, the
    /// shares are burned, and both amounts move from the pool to the user.
    pub fn withdraw(
        &mut self,
        ledger: &mut Ledger,
        oracle: &OracleState,
        now: u64,
        user: u64,
        slp_amount: i128,
    ) -> (r: Result<(i128, i128), PoolError>)
        requires
            old(self).wf(),
            old(ledger).wf(),
            user != old(self).address,
            slp_amount >= 0,
            old(self).initialized ==> {
                &&& old(self).prices_known(*oracle)
                &&& old(self).token_a.total_supply >= 0
                &&& old(self).token_b.total_supply >= 0
                &&& old(self).slp_supply > 0
                &&& slp_amount <= old(self).slp_supply
                &&& (old(self).prices_fresh(*oracle, now) ==> {
                    let pa = old(self).price_a(*oracle);
                    let pb = old(self).price_b(*oracle);
                    &&& pa > 0
                    &&& pb > 0
                    &&& old(self).withdraw_in_range(pa, pb, slp_amount as int)
                    &&& (old(self).withdraw_succeeds(*old(ledger), pa, pb, slp_amount as int)
                        ==> {
                        &&& old(ledger).bal(old(self).slp_token, user) >= slp_amount
                        &&& old(ledger).bal(old(self).token_a.address, user) + old(
                            self,
                        ).withdraw_a_amount(pa, pb, slp_amount as int) <= i128::MAX
                        &&& old(ledger).bal(old(self).token_b.address, user) + old(
                            self,
                        ).withdraw_b_amount(pa, pb, slp_amount as int) <= i128::MAX
                    })
                })
            },
        ensures
            final(self).wf(),
            final(ledger).wf(),
            !old(self).initialized ==> r == Err::<(i128, i128), PoolError>(
                PoolError::NotInitialized,
            ),
            old(self).initialized && !old(self).prices_fresh(*oracle, now) ==> r == Err::<
                (i128, i128),
                PoolError,
            >(PoolError::StalePriceData),
            old(self).initialized && old(self).prices_fresh(*oracle, now) && !old(
                self,
            ).withdraw_succeeds(
                *old(ledger),
                old(self).price_a(*oracle),
                old(self).price_b(*oracle),
                slp_amount as int,
            ) ==> r == Err::<(i128, i128), PoolError>(PoolError::InsufficientFundsForWithdrawal),
            old(self).initialized && old(self).prices_fresh(*oracle, now) && old(
                self,
            ).withdraw_succeeds(
                *old(ledger),
                old(self).price_a(*oracle),
                old(self).price_b(*oracle),
                slp_amount as int,
            ) ==> {
                let pa = old(self).price_a(*oracle);
                let pb = old(self).price_b(*oracle);
                let wa = old(self).withdraw_a_amount(pa, pb, slp_amount as int);
                let wb = old(self).withdraw_b_amount(pa, pb, slp_amount as int);
                &&& r is Ok
                &&& r->Ok_0.0 == wa
                &&& r->Ok_0.1 == wb
                &&& 0 <= wa <= old(ledger).bal(old(self).token_a.address, old(self).address)
                &&& 0 <= wb <= old(ledger).bal(old(self).token_b.address, old(self).address)
                &&& final(self).token_a.total_supply == old(self).token_a.total_supply - wa
                &&& final(self).token_b.total_supply == old(self).token_b.total_supply - wb
                &&& final(self).slp_supply == old(self).slp_supply - slp_amount
                &&& same_refs(*final(self), *old(self))
                &&& final(ledger).bal(old(self).slp_token, user) == old(ledger).bal(
                    old(self).slp_token,
                    user,
                ) - slp_amount
                &&& final(ledger).bal(old(self).token_a.address, old(self).address) == old(
                    ledger,
                ).bal(old(self).token_a.address, old(self).address) - wa
                &&& final(ledger).bal(old(self).token_a.address, user) == old(ledger).bal(
                    old(self).token_a.address,
                    user,
                ) + wa
                &&& final(ledger).bal(old(self).token_b.address, old(self).address) == old(
                    ledger,
                ).bal(old(self).token_b.address, old(self).address) - wb
                &&& final(ledger).bal(old(self).token_b.address, user) == old(ledger).bal(
                    old(self).token_b.address,
                    user,
                ) + wb
                &&& forall|t: u64, h: u64|
                    !((t == old(self).token_a.address || t == old(self).token_b.address) && (h
                        == user || h == old(self).address)) && !(t == old(self).slp_token && h
                        == user) ==> final(ledger).bal(t, h) == old(ledger).bal(t, h)
                &&& old(ledger).bal(old(self).token_a.address, old(self).address) == old(
                    self,
                ).token_a.total_supply ==> final(ledger).bal(
                    old(self).token_a.address,
                    old(self).address,
                ) == final(self).token_a.total_supply
                &&& old(ledger).bal(old(self).token_b.address, old(self).address) == old(
                    self,
                ).token_b.total_supply ==> final(ledger).bal(
                    old(self).token_b.address,
                    old(self).address,
                ) == final(self).token_b.total_supply
            },
            r is Err ==> *final(self) == *old(self) && *final(ledger) == *old(ledger),
    {
        if !self.initialized {
            return Err(PoolError::NotInitialized);
        }
        let price_a = match load_price(oracle, self.token_a.address, now) {
            Some(p) => p,
            None => {
                return Err(PoolError::StalePriceData);
            },
        };
        let price_b = match load_price(oracle, self.token_b.address, now) {
            Some(p) => p,
            None => {
                return Err(PoolError::StalePriceData);
            },
        };
        proof {
            crate::fixed::lemma_mul_nonneg(self.token_a.total_supply as int, price_a as int);
            crate::fixed::lemma_mul_nonneg(self.token_b.total_supply as int, price_b as int);
            lemma_floor_div_in_range(
                self.token_a.total_supply as int * price_a as int,
                SCALAR_7 as int,
            );
            lemma_floor_div_in_range(
                self.token_b.total_supply as int * price_b as int,
                SCALAR_7 as int,
            );
        }

        // Current pool value, floored per asset.
        let a_value = fixed_mul_floor(self.token_a.total_supply, price_a, SCALAR_7);
        let b_value = fixed_mul_floor(self.token_b.total_supply, price_b, SCALAR_7);
        let total_value = a_value + b_value;

        // The slice of the pool's value that `slp_amount` shares claim.
        let current_slp_supply = self.slp_supply;
        proof {
            crate::fixed::lemma_mul_nonneg(slp_amount as int, SCALAR_7 as int);
            lemma_floor_div_in_range(
                slp_amount as int * SCALAR_7 as int,
                current_slp_supply as int,
            );
            crate::fixed::lemma_mul_le(
                slp_amount as int,
                current_slp_supply as int,
                SCALAR_7 as int,
                SCALAR_7 as int,
            );
            crate::fixed::lemma_floor_div_le(
                slp_amount as int * SCALAR_7 as int,
                current_slp_supply as int,
                SCALAR_7 as int,
            );
        }
        let withdraw_ratio = fixed_div_floor(slp_amount, current_slp_supply, SCALAR_7);
        proof {
            crate::fixed::lemma_mul_nonneg(total_value as int, withdraw_ratio as int);
            lemma_floor_div_in_range(total_value as int * withdraw_ratio as int, SCALAR_7 as int);
            crate::fixed::lemma_mul_le(
                total_value as int,
                total_value as int,
                withdraw_ratio as int,
                SCALAR_7 as int,
            );
            crate::fixed::lemma_floor_div_le(
                total_value as int * withdraw_ratio as int,
                SCALAR_7 as int,
                total_value as int,
            );
        }
        let withdraw_value = fixed_mul_floor(total_value, withdraw_ratio, SCALAR_7);
        if withdraw_value == 0 || withdraw_value > total_value {
            return Err(PoolError::InsufficientFundsForWithdrawal);
        }

        // The current share of asset A, and the rebalancing split.
        proof {
            crate::fixed::lemma_mul_nonneg(a_value as int, SCALAR_7 as int);
            lemma_floor_div_in_range(a_value as int * SCALAR_7 as int, total_value as int);
            crate::fixed::lemma_mul_le(
                a_value as int,
                total_value as int,
                SCALAR_7 as int,
                SCALAR_7 as int,
            );
            crate::fixed::lemma_floor_div_le(
                a_value as int * SCALAR_7 as int,
                total_value as int,
                SCALAR_7 as int,
            );
        }
        let a_ratio = fixed_div_floor(a_value, total_value, SCALAR_7);
        let target_a = self.token_a.target_ratio as i128;
        let withdraw_a_value: i128;
        let withdraw_b_value: i128;
        if a_ratio == target_a {
            // At target: split proportionally.
            proof {
                crate::fixed::lemma_mul_nonneg(withdraw_value as int, a_ratio as int);
                crate::fixed::lemma_mul_le(
                    withdraw_value as int,
                    withdraw_value as int,
                    a_ratio as int,
                    2 * SCALAR_7 as int,
                );
                lemma_floor_div_in_range(
                    withdraw_value as int * a_ratio as int,
                    SCALAR_7 as int,
                );
                crate::fixed::lemma_mul_le(
                    withdraw_value as int,
                    withdraw_value as int,
                    a_ratio as int,
                    SCALAR_7 as int,
                );
                crate::fixed::lemma_floor_div_le(
                    withdraw_value as int * a_ratio as int,
                    SCALAR_7 as int,
                    withdraw_value as int,
                );
            }
            withdraw_a_value = fixed_mul_floor(withdraw_value, a_ratio, SCALAR_7);
            withdraw_b_value = withdraw_value - withdraw_a_value;
        } else if a_ratio > target_a {
            // Asset A over-weighted: remove disproportionately more of A.
            let excess_a_ratio = a_ratio - target_a;
            proof {
                crate::fixed::lemma_mul_nonneg(excess_a_ratio as int, SCALAR_7 as int);
                lemma_floor_div_in_range(
                    excess_a_ratio as int * SCALAR_7 as int,
                    a_ratio as int,
                );
                crate::fixed::lemma_mul_le(
                    excess_a_ratio as int,
                    a_ratio as int,
                    SCALAR_7 as int,
                    SCALAR_7 as int,
                );
                crate::fixed::lemma_floor_div_le(
                    excess_a_ratio as int * SCALAR_7 as int,
                    a_ratio as int,
                    SCALAR_7 as int,
                );
            }
            let adjust_factor = fixed_div_floor(excess_a_ratio, a_ratio, SCALAR_7);
            proof {
                crate::fixed::lemma_mul_nonneg(withdraw_value as int, a_ratio as int);
                crate::fixed::lemma_mul_le(
                    withdraw_value as int,
                    withdraw_value as int,
                    a_ratio as int,
                    2 * SCALAR_7 as int,
                );
                lemma_floor_div_in_range(
                    withdraw_value as int * a_ratio as int,
                    SCALAR_7 as int,
                );
                crate::fixed::lemma_mul_le(
                    withdraw_value as int,
                    withdraw_value as int,
                    a_ratio as int,
                    SCALAR_7 as int,
                );
                crate::fixed::lemma_floor_div_le(
                    withdraw_value as int * a_ratio as int,
                    SCALAR_7 as int,
                    withdraw_value as int,
                );
            }
            let step = fixed_mul_floor(withdraw_value, a_ratio, SCALAR_7);
            proof {
                crate::fixed::lemma_mul_nonneg(step as int, SCALAR_7 as int + adjust_factor as int);
                crate::fixed::lemma_mul_le(
                    step as int,
                    withdraw_value as int,
                    SCALAR_7 as int + adjust_factor as int,
                    2 * SCALAR_7 as int,
                );
                lemma_floor_div_in_range(
                    step as int * (SCALAR_7 as int + adjust_factor as int),
                    SCALAR_7 as int,
                );
            }
            withdraw_a_value = fixed_mul_floor(step, SCALAR_7 + adjust_factor, SCALAR_7);
            withdraw_b_value = withdraw_value - withdraw_a_value;
        } else {
            // Asset A under-weighted: remove disproportionately more of B.
            let excess_b_ratio = target_a - a_ratio;
            let b_ratio = SCALAR_7 - a_ratio;
            proof {
                crate::fixed::lemma_mul_nonneg(excess_b_ratio as int, SCALAR_7 as int);
                lemma_floor_div_in_range(
                    excess_b_ratio as int * SCALAR_7 as int,
                    b_ratio as int,
                );
                crate::fixed::lemma_mul_le(
                    excess_b_ratio as int,
                    b_ratio as int,
                    SCALAR_7 as int,
                    SCALAR_7 as int,
                );
                crate::fixed::lemma_floor_div_le(
                    excess_b_ratio as int * SCALAR_7 as int,
                    b_ratio as int,
                    SCALAR_7 as int,
                );
            }
            let adjust_factor = fixed_div_floor(excess_b_ratio, b_ratio, SCALAR_7);
            proof {
                crate::fixed::lemma_mul_nonneg(withdraw_value as int, b_ratio as int);
                crate::fixed::lemma_mul_le(
                    withdraw_value as int,
                    withdraw_value as int,
                    b_ratio as int,
                    2 * SCALAR_7 as int,
                );
                lemma_floor_div_in_range(
                    withdraw_value as int * b_ratio as int,
                    SCALAR_7 as int,
                );
                crate::fixed::lemma_mul_le(
                    withdraw_value as int,
                    withdraw_value as int,
                    b_ratio as int,
                    SCALAR_7 as int,
                );
                crate::fixed::lemma_floor_div_le(
                    withdraw_value as int * b_ratio as int,
                    SCALAR_7 as int,
                    withdraw_value as int,
                );
            }
            let step = fixed_mul_floor(withdraw_value, b_ratio, SCALAR_7);
            proof {
                crate::fixed::lemma_mul_nonneg(step as int, SCALAR_7 as int + adjust_factor as int);
                crate::fixed::lemma_mul_le(
                    step as int,
                    withdraw_value as int,
                    SCALAR_7 as int + adjust_factor as int,
                    2 * SCALAR_7 as int,
                );
                lemma_floor_div_in_range(
                    step as int * (SCALAR_7 as int + adjust_factor as int),
                    SCALAR_7 as int,
                );
            }
            let wb = fixed_mul_floor(step, SCALAR_7 + adjust_factor, SCALAR_7);
            withdraw_a_value = withdraw_value - wb;
            withdraw_b_value = wb;
        }

        // Convert each value slice to a token amount at its price.
        proof {
            crate::fixed::lemma_mul_nonneg(withdraw_a_value as int, SCALAR_7 as int);
            crate::fixed::lemma_mul_nonneg(withdraw_b_value as int, SCALAR_7 as int);
            crate::fixed::lemma_mul_le(
                withdraw_a_value as int,
                withdraw_value as int,
                SCALAR_7 as int,
                2 * SCALAR_7 as int,
            );
            crate::fixed::lemma_mul_le(
                withdraw_b_value as int,
                withdraw_value as int,
                SCALAR_7 as int,
                2 * SCALAR_7 as int,
            );
            lemma_floor_div_in_range(withdraw_a_value as int * SCALAR_7 as int, price_a as int);
            lemma_floor_div_in_range(withdraw_b_value as int * SCALAR_7 as int, price_b as int);
        }
        let withdraw_a_amount = fixed_div_floor(withdraw_a_value, price_a, SCALAR_7);
        let withdraw_b_amount = fixed_div_floor(withdraw_b_value, price_b, SCALAR_7);

        // The pool must actually hold what the split asks of it.
        let available_a = ledger.balance(self.token_a.address, self.address);
        let available_b = ledger.balance(self.token_b.address, self.address);
        if withdraw_a_amount > available_a || withdraw_b_amount > available_b {
            return Err(PoolError::InsufficientFundsForWithdrawal);
        }

        // Settle: shrink the records, burn the shares, pay the user.
        self.token_a.total_supply = self.token_a.total_supply - withdraw_a_amount;
        self.token_b.total_supply = self.token_b.total_supply - withdraw_b_amount;
        self.slp_supply = current_slp_supply - slp_amount;
        ledger.burn(self.slp_token, user, slp_amount);
        ledger.transfer(self.token_a.address, self.address, user, withdraw_a_amount);
        ledger.transfer(self.token_b.address, self.address, user, withdraw_b_amount);
        Ok((withdraw_a_amount, withdraw_b_amount))
    }

    /// Lend `amount` of a pool asset to the position engine and credit `fee`
    /// to the asset's recorded supply.
    ///
    /// Only the position engine may call this; the caller's authorization is
    /// the application's edge. Fails `InvalidTokenAddress` for a foreign
    /// token, `InsufficientLiquidity` when `amount` exceeds the held
    /// balance, and `ExcessiveBorrowing` when the balance left behind would
    /// fall below a tenth of the recorded supply.
    pub fn borrow(&mut self, ledger: &mut Ledger, token: u64, amount: i128, fee: i128) -> (r:
        Result<(), PoolError>)
        requires
            old(self).wf(),
            old(ledger).wf(),
            old(self).initialized,
            old(self).is_pool_token(token) ==> {
                &&& amount >= 0
                &&& old(self).supply_of(token) >= 0
                &&& fits_i128(old(self).supply_of(token) + fee)
                &&& old(ledger).bal(token, old(self).position_manager) + amount <= i128::MAX
            },
        ensures
            final(self).wf(),
            final(ledger).wf(),
            !old(self).is_pool_token(token) ==> r == Err::<(), PoolError>(
                PoolError::InvalidTokenAddress,
            ),
            old(self).is_pool_token(token) && amount > old(ledger).bal(token, old(self).address)
                ==> r == Err::<(), PoolError>(PoolError::InsufficientLiquidity),
            old(self).is_pool_token(token) && amount <= old(ledger).bal(token, old(self).address)
                && old(ledger).bal(token, old(self).address) - amount < floor_div(
                old(self).supply_of(token),
                10,
            ) ==> r == Err::<(), PoolError>(PoolError::ExcessiveBorrowing),
            old(self).is_pool_token(token) && amount <= old(ledger).bal(token, old(self).address)
                && old(ledger).bal(token, old(self).address) - amount >= floor_div(
                old(self).supply_of(token),
                10,
            ) ==> {
                &&& r == Ok::<(), PoolError>(())
                &&& final(ledger).bal(token, old(self).address) == old(ledger).bal(
                    token,
                    old(self).address,
                ) - amount
                &&& final(ledger).bal(token, old(self).position_manager) == old(ledger).bal(
                    token,
                    old(self).position_manager,
                ) + amount
                &&& forall|t: u64, h: u64|
                    !(t == token && (h == old(self).address || h == old(
                        self,
                    ).position_manager)) ==> final(ledger).bal(t, h) == old(ledger).bal(t, h)
                &&& final(self).supply_of(token) == old(self).supply_of(token) + fee
                &&& token == old(self).token_a.address ==> final(self).token_b == old(
                    self,
                ).token_b
                &&& token != old(self).token_a.address ==> final(self).token_a == old(
                    self,
                ).token_a
                &&& final(self).slp_supply == old(self).slp_supply
                &&& same_refs(*final(self), *old(self))
                &&& final(ledger).bal(token, old(self).address) >= floor_div(
                    old(self).supply_of(token),
                    10,
                )
            },
            r is Err ==> *final(self) == *old(self) && *final(ledger) == *old(ledger),
    {
        if token != self.token_a.address && token != self.token_b.address {
            return Err(PoolError::InvalidTokenAddress);
        }
        let current_balance = ledger.balance(token, self.address);
        if amount > current_balance {
            return Err(PoolError::InsufficientLiquidity);
        }
        let supply = if token == self.token_a.address {
            self.token_a.total_supply
        } else {
            self.token_b.total_supply
        };
        let min_required_balance = div_by_ten(supply);
        if current_balance - amount < min_required_balance {
            return Err(PoolError::ExcessiveBorrowing);
        }
        ledger.transfer(token, self.address, self.position_manager, amount);
        if token == self.token_a.address {
            self.token_a.total_supply = self.token_a.total_supply + fee;
        } else {
            self.token_b.total_supply = self.token_b.total_supply + fee;
        }
        Ok(())
    }

    /// Take `amount + fee` of a pool asset back from the position engine
    /// under a scoped permit, and credit `fee` to the asset's recorded
    /// supply.
    ///
    /// Fails `InvalidTokenAddress` for a foreign token; a failed call still
    /// consumes the permit, as the grant dies with its unit of work.
    pub fn repay(
        &mut self,
        ledger: &mut Ledger,
        permit: TransferPermit,
        token: u64,
        amount: i128,
        fee: i128,
    ) -> (r: Result<(), PoolError>)
        requires
            old(self).wf(),
            old(ledger).wf(),
            old(self).initialized,
            old(self).is_pool_token(token) ==> {
                &&& fits_i128(amount + fee)
                &&& 0 <= amount + fee <= old(ledger).bal(token, old(self).position_manager)
                &&& old(ledger).bal(token, old(self).address) + (amount + fee) <= i128::MAX
                &&& fits_i128(old(self).supply_of(token) + fee)
                &&& permit.token == token
                &&& permit.from == old(self).position_manager
                &&& permit.to == old(self).address
                &&& permit.amount == amount + fee
            },
        ensures
            final(self).wf(),
            final(ledger).wf(),
            !old(self).is_pool_token(token) ==> r == Err::<(), PoolError>(
                PoolError::InvalidTokenAddress,
            ) && *final(self) == *old(self) && *final(ledger) == *old(ledger),
            old(self).is_pool_token(token) ==> {
                &&& r == Ok::<(), PoolError>(())
                &&& final(ledger).bal(token, old(self).position_manager) == old(ledger).bal(
                    token,
                    old(self).position_manager,
                ) - (amount + fee)
                &&& final(ledger).bal(token, old(self).address) == old(ledger).bal(
                    token,
                    old(self).address,
                ) + (amount + fee)
                &&& forall|t: u64, h: u64|
                    !(t == token && (h == old(self).address || h == old(
                        self,
                    ).position_manager)) ==> final(ledger).bal(t, h) == old(ledger).bal(t, h)
                &&& final(self).supply_of(token) == old(self).supply_of(token) + fee
                &&& token == old(self).token_a.address ==> final(self).token_b == old(
                    self,
                ).token_b
                &&& token != old(self).token_a.address ==> final(self).token_a == old(
                    self,
                ).token_a
                &&& final(self).slp_supply == old(self).slp_supply
                &&& same_refs(*final(self), *old(self))
            },
    {
        if token != self.token_a.address && token != self.token_b.address {
            return Err(PoolError::InvalidTokenAddress);
        }
        ledger.transfer_with_permit(permit, token, self.position_manager, self.address, amount
            + fee);
        if token == self.token_a.address {
            self.token_a.total_supply = self.token_a.total_supply + fee;
        } else {
            self.token_b.total_supply = self.token_b.total_supply + fee;
        }
        Ok(())
    }
}

/// Ratio-sum law: every initialized well-formed pool's target ratios sum
/// exactly to 1.0 scaled. Initialization enforces it; nothing later touches
/// the ratios.
pub proof fn lemma_target_ratios_sum(pool: PoolContract)
    requires
        pool.wf(),
        pool.initialized,
    ensures
        pool.token_a.target_ratio + pool.token_b.target_ratio == SCALAR_7,
{
}

/// Deposit-monotonicity law: a deposit accepted by a non-empty pool leaves
/// neither asset's share of the pool's value further from its target ratio
/// than it was.
pub proof fn lemma_deposit_monotonic(pool: PoolContract, pa: int, pb: int, da: int, db: int)
    requires
        pool.deposit_accepted(pa, pb, da, db),
        pool.total_value(pa, pb) != 0,
    ensures
        ({
            let tv = pool.total_value(pa, pb);
            let av = pool.a_value(pa);
            let dva = value_of(da, pa);
            let dvt = dva + value_of(db, pb);
            let ta = pool.token_a.target_ratio as int;
            let tb = pool.token_b.target_ratio as int;
            let ar = div_floor(av, tv, SCALAR_7 as int);
            let nar = div_floor(av + dva, tv + dvt, SCALAR_7 as int);
            &&& vstd::math::abs(nar - ta) <= vstd::math::abs(ar - ta)
            &&& vstd::math::abs((SCALAR_7 - nar) - tb) <= vstd::math::abs((SCALAR_7 - ar) - tb)
        }),
{
}

/// `floor(x / 10)` for a nonnegative `x`.
fn div_by_ten(x: i128) -> (r: i128)
    requires
        x >= 0,
    ensures
        r == floor_div(x as int, 10),
{
    proof {
        lemma_floor_div_in_range(x as int, 10);
    }
    ((x as u128) / 10u128) as i128
}

} // verus!
