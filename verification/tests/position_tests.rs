use lever_pool::errors::PositionManagerError;
use lever_pool::fixed::SCALAR_7;
use lever_pool::ledger::Ledger;
use lever_pool::manager::PositionManagerContract;
use lever_pool::oracle::OracleState;
use lever_pool::pool::{PoolContract, TokenInfo};

// Ledger identities: 1 admin, 2 frodo, 4 ben, 5 the maintenance caller,
// 10 USDC, 11 XLM, 12 the share token, 20 the pool, 21 the position
// engine, 30 the oracle reference.

struct Fix {
    pool: PoolContract,
    manager: PositionManagerContract,
    ledger: Ledger,
    oracle: OracleState,
    now: u64,
}

fn fixture() -> Fix {
    let mut now: u64 = 1441065600;
    let mut pool = PoolContract::new(20);
    let mut manager = PositionManagerContract::new(21);
    let mut ledger = Ledger::new();
    let mut oracle = OracleState::new();

    now += 7 * 24 * 60 * 60;
    oracle.set_price(10, 1_0000000, now); // USDC at 1.0
    oracle.set_price(11, 0_1000000, now); // XLM at 0.1

    let token_a = TokenInfo {
        address: 10,
        total_supply: 0,
        target_ratio: (SCALAR_7 / 2) as u32,
    };
    let token_b = TokenInfo {
        address: 11,
        total_supply: 0,
        target_ratio: (SCALAR_7 / 2) as u32,
    };
    pool.initialize(1, 30, 21, 12, token_a, token_b).unwrap();
    manager.initialize(20, 30, 10, 11).unwrap();

    ledger.mint(11, 2, 10_000_000_000 * SCALAR_7);
    ledger.mint(10, 2, 10_000_000_000 * SCALAR_7);
    pool.deposit(&mut ledger, &oracle, now, 2, 1_000 * SCALAR_7, 10_000 * SCALAR_7)
        .unwrap();

    Fix { pool, manager, ledger, oracle, now }
}

#[test]
fn testing() {
    let mut fix = fixture();
    let ben: u64 = 4;

    fix.ledger.mint(11, ben, 10_000 * SCALAR_7);

    // 2x leverage on 1,000 XLM of collateral.
    fix.manager
        .open_position(&mut fix.pool, &mut fix.ledger, &fix.oracle, fix.now, ben, 1_000 * SCALAR_7, 2_0000000, 11)
        .unwrap();

    let position = fix.manager.get_position(ben).unwrap();

    // The whole input stays posted as collateral; the impact fee was
    // charged on top of it, so the trader paid input plus fee.
    assert_eq!(position.collateral, 1_000 * SCALAR_7);
    assert_eq!(position.borrowed, 2_000 * SCALAR_7);
    assert_eq!(position.entry_price, 0_1000000);
    assert_eq!(fix.ledger.balance(11, ben), 9_000 * SCALAR_7 - 6003);

    fix.manager
        .close_position(&mut fix.pool, &mut fix.ledger, &fix.oracle, fix.now, ben)
        .unwrap();

    // Closing at an unmoved price in the same second returns the collateral
    // minus the borrow-scaled impact fee.
    assert_eq!(
        fix.ledger.balance(11, ben),
        9_000 * SCALAR_7 - 6003 + (1_000 * SCALAR_7 - 12_006_000)
    );
}

#[test]
fn impact_fee_charged_on_open() {
    let mut fix = fixture();
    let ben: u64 = 4;
    fix.ledger.mint(11, ben, 10_000 * SCALAR_7);

    // Borrowing 2,000 XLM at 0.1 is a 200 USD notional: the fee is the
    // 6,000-stroop base plus ceil(200 / 760,000,000) scaled, 6,003 in all.
    let fee = fix
        .manager
        .open_position(&mut fix.pool, &mut fix.ledger, &fix.oracle, fix.now, ben, 1_000 * SCALAR_7, 2_0000000, 11)
        .unwrap();
    assert_eq!(fee, 6003);

    // The fee was credited to the asset's recorded supply.
    assert_eq!(fix.pool.token_b.total_supply, 10_000 * SCALAR_7 + 6003);
}

#[test]
fn one_position_per_trader() {
    let mut fix = fixture();
    let ben: u64 = 4;
    fix.ledger.mint(11, ben, 10_000 * SCALAR_7);

    fix.manager
        .open_position(&mut fix.pool, &mut fix.ledger, &fix.oracle, fix.now, ben, 1_000 * SCALAR_7, 2_0000000, 11)
        .unwrap();

    // A second open of either kind fails while the first position lives.
    let r = fix.manager.open_position(
        &mut fix.pool,
        &mut fix.ledger,
        &fix.oracle,
        fix.now,
        ben,
        500 * SCALAR_7,
        2_0000000,
        11,
    );
    assert_eq!(r, Err(PositionManagerError::PositionAlreadyExists));
    let r = fix
        .manager
        .open_limit_position(&mut fix.ledger, fix.now, ben, 500 * SCALAR_7, 2_0000000, 11, 0_0900000);
    assert_eq!(r, Err(PositionManagerError::PositionAlreadyExists));

    // Closing removes it; a later open succeeds again.
    fix.manager
        .close_position(&mut fix.pool, &mut fix.ledger, &fix.oracle, fix.now, ben)
        .unwrap();
    assert_eq!(
        fix.manager.get_position(ben),
        Err(PositionManagerError::NoPositionExists)
    );
    fix.manager
        .open_position(&mut fix.pool, &mut fix.ledger, &fix.oracle, fix.now, ben, 500 * SCALAR_7, 2_0000000, 11)
        .unwrap();
    assert!(fix.manager.get_position(ben).is_ok());
}

#[test]
fn fill_is_a_noop_without_crossed_thresholds() {
    let mut fix = fixture();
    let ben: u64 = 4;
    fix.ledger.mint(11, ben, 10_000 * SCALAR_7);

    fix.manager
        .open_position(&mut fix.pool, &mut fix.ledger, &fix.oracle, fix.now, ben, 1_000 * SCALAR_7, 2_0000000, 11)
        .unwrap();
    let before = fix.manager.get_position(ben).unwrap();
    let ben_balance = fix.ledger.balance(11, ben);
    let pool_balance = fix.ledger.balance(11, 20);

    // No thresholds set: the maintenance call must change nothing and not
    // fail.
    let r = fix
        .manager
        .fill_position(&mut fix.pool, &mut fix.ledger, &fix.oracle, fix.now, ben, 5);
    assert_eq!(r, Ok(()));
    assert_eq!(fix.manager.get_position(ben).unwrap(), before);
    assert_eq!(fix.ledger.balance(11, ben), ben_balance);
    assert_eq!(fix.ledger.balance(11, 20), pool_balance);

    // Thresholds set but uncrossed: still a no-op.
    fix.manager.add_stop_loss(ben, 0_0500000).unwrap();
    fix.manager.add_take_profit(ben, 0_2000000).unwrap();
    let r = fix
        .manager
        .fill_position(&mut fix.pool, &mut fix.ledger, &fix.oracle, fix.now, ben, 5);
    assert_eq!(r, Ok(()));
    assert_eq!(fix.manager.get_position(ben).unwrap().collateral, before.collateral);
    assert_eq!(fix.ledger.balance(11, ben), ben_balance);
}

#[test]
fn stop_loss_forces_the_close() {
    let mut fix = fixture();
    let ben: u64 = 4;
    fix.ledger.mint(11, ben, 10_000 * SCALAR_7);

    fix.manager
        .open_position(&mut fix.pool, &mut fix.ledger, &fix.oracle, fix.now, ben, 1_000 * SCALAR_7, 2_0000000, 11)
        .unwrap();
    fix.manager.add_stop_loss(ben, 0_0900000).unwrap();

    // The price falls through the stop-loss: the maintenance call settles
    // and removes the position.
    fix.oracle.set_price(11, 0_0800000, fix.now);
    let r = fix
        .manager
        .fill_position(&mut fix.pool, &mut fix.ledger, &fix.oracle, fix.now, ben, 5);
    assert_eq!(r, Ok(()));
    assert_eq!(
        fix.manager.get_position(ben),
        Err(PositionManagerError::NoPositionExists)
    );

    // The debt grew with the fallen price: 2,000 XLM at entry 0.1 revalued
    // at 0.08 is 2,500 XLM repaid to the pool.
    assert_eq!(fix.ledger.balance(11, 20), 8_000 * SCALAR_7 + 2_500 * SCALAR_7);
}

#[test]
fn limit_order_fills_at_or_below_its_price() {
    let mut fix = fixture();
    let ben: u64 = 4;
    fix.ledger.mint(11, ben, 10_000 * SCALAR_7);

    // A resting order at 0.09 while the market is at 0.1.
    fix.manager
        .open_limit_position(&mut fix.ledger, fix.now, ben, 1_000 * SCALAR_7, 2_0000000, 11, 0_0900000)
        .unwrap();
    let resting = fix.manager.get_position(ben).unwrap();
    assert!(!resting.filled);
    assert_eq!(resting.borrowed, 0);

    // Above the limit: not fillable yet.
    let r = fix
        .manager
        .fill_position(&mut fix.pool, &mut fix.ledger, &fix.oracle, fix.now, ben, 5);
    assert_eq!(r, Err(PositionManagerError::PositionNotFilled));

    // The price falls to 0.085: the order fills at the current price.
    fix.oracle.set_price(11, 0_0850000, fix.now);
    let r = fix
        .manager
        .fill_position(&mut fix.pool, &mut fix.ledger, &fix.oracle, fix.now, ben, 5);
    assert_eq!(r, Ok(()));
    let filled = fix.manager.get_position(ben).unwrap();
    assert!(filled.filled);
    assert_eq!(filled.entry_price, 0_0850000);
    assert_eq!(filled.borrowed, 2_000 * SCALAR_7);
}

#[test]
fn leverage_open_close_settles_price_move_and_funding() {
    let mut fix = fixture();
    let ben: u64 = 4;
    fix.ledger.mint(11, ben, 10_000 * SCALAR_7);

    let fee = fix
        .manager
        .open_position(&mut fix.pool, &mut fix.ledger, &fix.oracle, fix.now, ben, 1_000 * SCALAR_7, 2_0000000, 11)
        .unwrap();
    assert_eq!(fee, 6003);

    // An hour passes and the price rises to 0.12.
    let later = fix.now + 3600;
    fix.oracle.set_price(10, 1_0000000, later);
    fix.oracle.set_price(11, 0_1200000, later);

    let (to_user, close_fee) = fix
        .manager
        .close_position(&mut fix.pool, &mut fix.ledger, &fix.oracle, later, ben)
        .unwrap();

    // The debt shrank with the risen price: 2,000 XLM at entry 0.1
    // revalued at 0.12 repays 1,666.6666666 XLM. One hour of funding at
    // the pool's utilization plus the impact fee at the current price,
    // scaled by the borrowed amount, is the closing fee.
    assert_eq!(close_fee, 4_012_010_000);
    assert_eq!(to_user, 3_000 * SCALAR_7 - 16_666_666_666 - 4_012_010_000);

    // The trader ends with the price gain minus both fees.
    assert_eq!(
        fix.ledger.balance(11, ben),
        9_000 * SCALAR_7 - 6003 + to_user
    );
}

#[test]
fn liquidation_takes_the_whole_margin() {
    let mut fix = fixture();
    let ben: u64 = 4;
    let liquidator: u64 = 5;
    fix.ledger.mint(11, ben, 10_000 * SCALAR_7);

    fix.manager
        .open_position(&mut fix.pool, &mut fix.ledger, &fix.oracle, fix.now, ben, 1_000 * SCALAR_7, 2_0000000, 11)
        .unwrap();

    // The price collapses to 0.05: far through the liquidation threshold.
    fix.oracle.set_price(11, 0_0500000, fix.now);

    let ben_before = fix.ledger.balance(11, ben);
    let r = fix.manager.liquidate(
        &mut fix.pool,
        &mut fix.ledger,
        &fix.oracle,
        fix.now,
        ben,
        liquidator,
    );
    assert_eq!(r, Ok(()));
    assert_eq!(
        fix.manager.get_position(ben),
        Err(PositionManagerError::NoPositionExists)
    );

    // The whole position, borrowed plus collateral, went back to the pool;
    // the trader and the liquidator received nothing.
    assert_eq!(fix.ledger.balance(11, 20), 8_000 * SCALAR_7 + 3_000 * SCALAR_7);
    assert_eq!(fix.ledger.balance(11, ben), ben_before);
    assert_eq!(fix.ledger.balance(11, liquidator), 0);
}

#[test]
fn liquidation_requires_a_crossed_threshold() {
    let mut fix = fixture();
    let ben: u64 = 4;
    fix.ledger.mint(11, ben, 10_000 * SCALAR_7);

    fix.manager
        .open_position(&mut fix.pool, &mut fix.ledger, &fix.oracle, fix.now, ben, 1_000 * SCALAR_7, 2_0000000, 11)
        .unwrap();

    // The price rises: the position is healthy and cannot be liquidated.
    fix.oracle.set_price(11, 0_1200000, fix.now);
    let r = fix
        .manager
        .liquidate(&mut fix.pool, &mut fix.ledger, &fix.oracle, fix.now, ben, 5);
    assert_eq!(r, Err(PositionManagerError::PositionNotLiquidatable));
    assert!(fix.manager.get_position(ben).is_ok());
}

#[test]
fn thresholds_require_a_position() {
    let mut fix = fixture();
    assert_eq!(
        fix.manager.add_stop_loss(4, 0_0900000),
        Err(PositionManagerError::NoPositionExists)
    );
    assert_eq!(
        fix.manager.add_take_profit(4, 0_2000000),
        Err(PositionManagerError::NoPositionExists)
    );
    let r = fix
        .manager
        .close_position(&mut fix.pool, &mut fix.ledger, &fix.oracle, fix.now, 4);
    assert_eq!(r, Err(PositionManagerError::NoPositionExists));
    let r = fix
        .manager
        .liquidate(&mut fix.pool, &mut fix.ledger, &fix.oracle, fix.now, 4, 5);
    assert_eq!(r, Err(PositionManagerError::NoPositionExists));
}

#[test]
fn manager_initialize_rejects_second_run() {
    let mut manager = PositionManagerContract::new(21);
    assert_eq!(manager.initialize(20, 30, 10, 11), Ok(()));
    assert_eq!(
        manager.initialize(20, 30, 10, 11),
        Err(PositionManagerError::AlreadyInitialized)
    );
}

#[test]
fn open_position_rejects_stale_price() {
    let mut fix = fixture();
    let ben: u64 = 4;
    fix.ledger.mint(11, ben, 10_000 * SCALAR_7);

    let later = fix.now + 2 * 24 * 60 * 60;
    let r = fix.manager.open_position(
        &mut fix.pool,
        &mut fix.ledger,
        &fix.oracle,
        later,
        ben,
        1_000 * SCALAR_7,
        2_0000000,
        11,
    );
    assert_eq!(r, Err(PositionManagerError::StalePriceData));
}

#[test]
fn open_position_reports_a_refused_borrow() {
    let mut fix = fixture();
    let ben: u64 = 4;
    fix.ledger.mint(11, ben, 100_000 * SCALAR_7);

    // 20x leverage on 1,000 XLM asks for 20,000 XLM: more than the pool
    // holds, so the pool refuses and nothing moves.
    let ben_before = fix.ledger.balance(11, ben);
    let r = fix.manager.open_position(
        &mut fix.pool,
        &mut fix.ledger,
        &fix.oracle,
        fix.now,
        ben,
        1_000 * SCALAR_7,
        20_0000000,
        11,
    );
    assert_eq!(r, Err(PositionManagerError::PoolOperationFailed));
    assert_eq!(fix.ledger.balance(11, ben), ben_before);
    assert_eq!(
        fix.manager.get_position(ben),
        Err(PositionManagerError::NoPositionExists)
    );
}
