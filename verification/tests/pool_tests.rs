use lever_pool::errors::PoolError;
use lever_pool::fixed::SCALAR_7;
use lever_pool::ledger::Ledger;
use lever_pool::manager::PositionManagerContract;
use lever_pool::oracle::OracleState;
use lever_pool::pool::{PoolContract, TokenInfo};

// Ledger identities used throughout: 1 admin, 2 frodo, 3 henk, 10 USDC,
// 11 XLM, 12 the share token, 20 the pool, 21 the position engine,
// 30 the oracle reference.

struct Fix {
    pool: PoolContract,
    manager: PositionManagerContract,
    ledger: Ledger,
    oracle: OracleState,
    now: u64,
}

fn assert_approx_eq_abs(a: i128, b: i128, delta: i128) {
    assert!(
        (a - b).abs() <= delta,
        "{} is not approximately {} within {}",
        a,
        b,
        delta
    );
}

fn create_fixture_with_data() -> Fix {
    let mut now: u64 = 1441065600;
    let mut pool = PoolContract::new(20);
    let mut manager = PositionManagerContract::new(21);
    let mut ledger = Ledger::new();
    let mut oracle = OracleState::new();

    now += 7 * 24 * 60 * 60;
    oracle.set_price(10, 1_0000000, now); // USDC at 1.0
    oracle.set_price(11, 0_1000000, now); // XLM at 0.1

    let token_a = TokenInfo {
        address: 10,
        total_supply: 0,
        target_ratio: (SCALAR_7 / 2) as u32,
    };
    let token_b = TokenInfo {
        address: 11,
        total_supply: 0,
        target_ratio: (SCALAR_7 / 2) as u32,
    };
    pool.initialize(1, 30, 21, 12, token_a, token_b).unwrap();
    manager.initialize(20, 30, 10, 11).unwrap();

    // Frodo is a big whale, he is rich.
    ledger.mint(11, 2, 10_000_000_000 * SCALAR_7);
    ledger.mint(10, 2, 10_000_000_000 * SCALAR_7);
    pool.deposit(&mut ledger, &oracle, now, 2, 1_000 * SCALAR_7, 10_000 * SCALAR_7)
        .unwrap();

    Fix { pool, manager, ledger, oracle, now }
}

#[test]
fn test_create_fixture_with_data() {
    let fix = create_fixture_with_data();

    // Frodo deposited 10,000 XLM = 1,000 USD and 1,000 USDC, 2,000 USD in all.
    assert_eq!(fix.ledger.balance(12, 2), 2_000 * SCALAR_7);

    // Confirm the pool's balances.
    assert_eq!(fix.ledger.balance(11, 20), 10_000 * SCALAR_7);
    assert_eq!(fix.ledger.balance(10, 20), 1_000 * SCALAR_7);
}

#[test]
fn test_pool() {
    let mut fix = create_fixture_with_data();
    let henk: u64 = 3;

    // Mint initial tokens for Henk.
    fix.ledger.mint(11, henk, 10_000 * SCALAR_7);
    fix.ledger.mint(10, henk, 1_000 * SCALAR_7);

    // Initial deposit.
    fix.pool
        .deposit(&mut fix.ledger, &fix.oracle, fix.now, henk, 1_000 * SCALAR_7, 10_000 * SCALAR_7)
        .unwrap();

    // Henk deposited 10,000 XLM (1,000 USD) and 1,000 USDC, total 2,000 USD.
    assert_eq!(fix.ledger.balance(12, henk), 2_000 * SCALAR_7);

    // Confirm the pool's balance after the deposit.
    assert_eq!(fix.ledger.balance(11, 20), 20_000 * SCALAR_7);
    assert_eq!(fix.ledger.balance(10, 20), 2_000 * SCALAR_7);

    // The price of XLM goes down to 0.09.
    fix.oracle.set_price(11, 0_0900000, fix.now);

    // The pool holds 20,000 XLM * 0.09 = 1,800 USD and 2,000 USDC, so the
    // ratio is 47.37% XLM and 52.63% USDC; 2,222.22 XLM correct it.
    fix.ledger.mint(11, henk, 2_222 * SCALAR_7);
    fix.pool
        .deposit(&mut fix.ledger, &fix.oracle, fix.now, henk, 0, 2_222 * SCALAR_7)
        .unwrap();

    // The deposit value is 2,222 XLM * 0.09 = 199.98 USD, and the minted
    // shares are 199.98 * 4,000 / 3,800 = 210.505263, rounded down.
    let expected_new_slp: i128 = 210_5052631;
    assert_eq!(fix.ledger.balance(12, henk), 2_000 * SCALAR_7 + expected_new_slp);

    // Confirm the updated pool balance.
    assert_eq!(fix.ledger.balance(11, 20), 22_222 * SCALAR_7);
    assert_eq!(fix.ledger.balance(10, 20), 2_000 * SCALAR_7);

    // Henk withdraws 1,000 share tokens: the pool is balanced, so the 950
    // USD slice splits evenly, 475 USDC and 475 / 0.09 = 5,277.77 XLM.
    let (withdrawn_usdc, withdrawn_xlm) = fix
        .pool
        .withdraw(&mut fix.ledger, &fix.oracle, fix.now, henk, 1_000 * SCALAR_7)
        .unwrap();

    assert_approx_eq_abs(withdrawn_usdc, 475 * SCALAR_7, 1000_000);
    assert_approx_eq_abs(withdrawn_xlm, 5277_777_0000, 1000_000);

    let new_xlm_amount = 22_222 * SCALAR_7 - 5277_777_0000;
    let new_usdc_amount = 2_000 * SCALAR_7 - 475 * SCALAR_7;
    assert_approx_eq_abs(fix.ledger.balance(11, 20), new_xlm_amount, 1000_000);
    assert_approx_eq_abs(fix.ledger.balance(10, 20), new_usdc_amount, 1000_000);

    // The price of XLM goes back up to 0.10: XLM is now over-weighted
    // (52.63% against the 50% target), so the split skews toward XLM:
    // 1,002.78 USD out, of which 554.16 USD as XLM (5,541.6 XLM).
    fix.oracle.set_price(11, 0_1000000, fix.now);

    let (withdrawn_usdc, withdrawn_xlm) = fix
        .pool
        .withdraw(&mut fix.ledger, &fix.oracle, fix.now, henk, 1_000 * SCALAR_7)
        .unwrap();

    assert_approx_eq_abs(withdrawn_usdc, 448_617_0000, 1000_000);
    assert_approx_eq_abs(withdrawn_xlm, 5541_600_0000, 1000_000);

    // The price of XLM falls to 0.08: now USDC is over-weighted (54.13%),
    // so the split skews toward USDC: 179.92 USD out, of which 104.81 USD
    // as USDC and 75.11 USD as XLM (938.84 XLM).
    fix.oracle.set_price(11, 0_0800000, fix.now);

    let (withdrawn_usdc, withdrawn_xlm) = fix
        .pool
        .withdraw(&mut fix.ledger, &fix.oracle, fix.now, henk, 200 * SCALAR_7)
        .unwrap();

    assert_approx_eq_abs(withdrawn_usdc, 104_814_8510, 1000_000);
    assert_approx_eq_abs(withdrawn_xlm, 938_839_2500, 1000_000);
}

#[test]
fn test_unbalanced_deposit() {
    let mut fix = create_fixture_with_data();
    let henk: u64 = 3;

    // Equal raw amounts are far from the 50/50 value split: rejected.
    let r = fix
        .pool
        .deposit(&mut fix.ledger, &fix.oracle, fix.now, henk, 1_000 * SCALAR_7, 1_000 * SCALAR_7);
    assert_eq!(r, Err(PoolError::DepositDoesNotImproveRatio));
}

#[test]
fn test_balanced_deposit() {
    let mut fix = create_fixture_with_data();
    let henk: u64 = 3;

    // Mint initial tokens for Henk.
    fix.ledger.mint(11, henk, 10_000 * SCALAR_7);
    fix.ledger.mint(10, henk, 1_000 * SCALAR_7);

    // Initial deposit.
    let r = fix
        .pool
        .deposit(&mut fix.ledger, &fix.oracle, fix.now, henk, 1_000 * SCALAR_7, 10_000 * SCALAR_7);
    assert!(r.is_ok());
}

#[test]
fn initialize_rejects_second_run() {
    let mut fix = create_fixture_with_data();
    let token_a = TokenInfo { address: 10, total_supply: 0, target_ratio: (SCALAR_7 / 2) as u32 };
    let token_b = TokenInfo { address: 11, total_supply: 0, target_ratio: (SCALAR_7 / 2) as u32 };
    let r = fix.pool.initialize(1, 30, 21, 12, token_a, token_b);
    assert_eq!(r, Err(PoolError::AlreadyInitialized));
}

#[test]
fn initialize_rejects_nonzero_supply() {
    let mut pool = PoolContract::new(20);
    let token_a = TokenInfo { address: 10, total_supply: 5, target_ratio: (SCALAR_7 / 2) as u32 };
    let token_b = TokenInfo { address: 11, total_supply: 0, target_ratio: (SCALAR_7 / 2) as u32 };
    let r = pool.initialize(1, 30, 21, 12, token_a, token_b);
    assert_eq!(r, Err(PoolError::InvalidTokenSupply));
}

#[test]
fn initialize_rejects_bad_ratio_sum() {
    let mut pool = PoolContract::new(20);
    let token_a = TokenInfo { address: 10, total_supply: 0, target_ratio: 4_000_000 };
    let token_b = TokenInfo { address: 11, total_supply: 0, target_ratio: 5_000_000 };
    let r = pool.initialize(1, 30, 21, 12, token_a, token_b);
    assert_eq!(r, Err(PoolError::InvalidTargetRatio));
}

#[test]
fn deposit_requires_initialization() {
    let mut pool = PoolContract::new(20);
    let mut ledger = Ledger::new();
    let oracle = OracleState::new();
    let r = pool.deposit(&mut ledger, &oracle, 0, 2, 100, 100);
    assert_eq!(r, Err(PoolError::NotInitialized));
}

#[test]
fn deposit_rejects_stale_price() {
    let mut fix = create_fixture_with_data();
    let henk: u64 = 3;
    fix.ledger.mint(11, henk, 10_000 * SCALAR_7);
    fix.ledger.mint(10, henk, 1_000 * SCALAR_7);

    // Two days pass without a new price record.
    let later = fix.now + 2 * 24 * 60 * 60;
    let r = fix
        .pool
        .deposit(&mut fix.ledger, &fix.oracle, later, henk, 1_000 * SCALAR_7, 10_000 * SCALAR_7);
    assert_eq!(r, Err(PoolError::StalePriceData));
}

#[test]
fn empty_pool_deposit_must_match_target_exactly() {
    let mut pool = PoolContract::new(20);
    let mut ledger = Ledger::new();
    let mut oracle = OracleState::new();
    let now: u64 = 1000;
    oracle.set_price(10, 1_0000000, now);
    oracle.set_price(11, 0_1000000, now);
    let token_a = TokenInfo { address: 10, total_supply: 0, target_ratio: (SCALAR_7 / 2) as u32 };
    let token_b = TokenInfo { address: 11, total_supply: 0, target_ratio: (SCALAR_7 / 2) as u32 };
    pool.initialize(1, 30, 21, 12, token_a, token_b).unwrap();
    ledger.mint(10, 2, 10_000 * SCALAR_7);
    ledger.mint(11, 2, 10_000 * SCALAR_7);

    // 100 USDC against 100 XLM is 100 USD against 10 USD: not 50/50.
    let r = pool.deposit(&mut ledger, &oracle, now, 2, 100 * SCALAR_7, 100 * SCALAR_7);
    assert_eq!(r, Err(PoolError::DepositDoesNotImproveRatio));

    // 100 USDC against 1,000 XLM is exactly 50/50: accepted, and the first
    // mint equals the whole deposit value, 200 USD.
    let minted = pool
        .deposit(&mut ledger, &oracle, now, 2, 100 * SCALAR_7, 1_000 * SCALAR_7)
        .unwrap();
    assert_eq!(minted, 200 * SCALAR_7);
}

#[test]
fn borrow_respects_ten_percent_floor() {
    let mut fix = create_fixture_with_data();

    // The pool holds 10,000 XLM with a recorded supply of 10,000: the floor
    // is 1,000 XLM.
    let r = fix.pool.borrow(&mut fix.ledger, 11, 9_500 * SCALAR_7, 0);
    assert_eq!(r, Err(PoolError::ExcessiveBorrowing));

    // Borrowing down to exactly the floor is allowed.
    let r = fix.pool.borrow(&mut fix.ledger, 11, 9_000 * SCALAR_7, 0);
    assert!(r.is_ok());
    assert_eq!(fix.ledger.balance(11, 20), 1_000 * SCALAR_7);
    assert_eq!(fix.ledger.balance(11, 21), 9_000 * SCALAR_7);
}

#[test]
fn borrow_rejects_foreign_token_and_overdraw() {
    let mut fix = create_fixture_with_data();

    let r = fix.pool.borrow(&mut fix.ledger, 99, 1 * SCALAR_7, 0);
    assert_eq!(r, Err(PoolError::InvalidTokenAddress));

    let r = fix.pool.borrow(&mut fix.ledger, 11, 11_000 * SCALAR_7, 0);
    assert_eq!(r, Err(PoolError::InsufficientLiquidity));
}

#[test]
fn borrow_fee_raises_recorded_supply_without_tokens() {
    let mut fix = create_fixture_with_data();

    let held_before = fix.ledger.balance(11, 20);
    fix.pool.borrow(&mut fix.ledger, 11, 1_000 * SCALAR_7, 5 * SCALAR_7).unwrap();

    // The fee is a pure accounting credit: the recorded supply grows while
    // the held balance only falls by the borrowed amount.
    assert_eq!(fix.pool.token_b.total_supply, 10_005 * SCALAR_7);
    assert_eq!(fix.ledger.balance(11, 20), held_before - 1_000 * SCALAR_7);
}

#[test]
fn withdraw_of_zero_value_fails() {
    let mut fix = create_fixture_with_data();
    // One stroop of a share claims less than one scaled unit of value.
    let r = fix.pool.withdraw(&mut fix.ledger, &fix.oracle, fix.now, 2, 1);
    assert_eq!(r, Err(PoolError::InsufficientFundsForWithdrawal));
}

#[test]
fn withdraw_fails_when_tokens_are_lent_out() {
    let mut fix = create_fixture_with_data();

    // Lend out most of the pool's XLM, then ask for everything back.
    fix.pool.borrow(&mut fix.ledger, 11, 8_000 * SCALAR_7, 0).unwrap();
    let r = fix
        .pool
        .withdraw(&mut fix.ledger, &fix.oracle, fix.now, 2, 2_000 * SCALAR_7);
    assert_eq!(r, Err(PoolError::InsufficientFundsForWithdrawal));
}

#[test]
fn skewed_withdrawal_shrinks_ratio_gap() {
    let mut fix = create_fixture_with_data();

    // The price of XLM rises to 0.15: XLM becomes over-weighted, 60% of the
    // pool's value against its 50% target.
    fix.oracle.set_price(11, 0_1500000, fix.now);

    let value_a_before = fix.pool.token_a.total_supply / SCALAR_7; // 1,000 USD
    let value_b_before = fix.pool.token_b.total_supply * 15 / 100 / SCALAR_7; // 1,500 USD
    let gap_before =
        (value_a_before * 10_000 / (value_a_before + value_b_before) - 5_000).abs();

    let (usdc_out, xlm_out) = fix
        .pool
        .withdraw(&mut fix.ledger, &fix.oracle, fix.now, 2, 500 * SCALAR_7)
        .unwrap();

    // The over-weighted asset leaves disproportionately: the XLM slice is
    // worth more than the USDC slice.
    assert!(xlm_out * 15 / 100 > usdc_out);

    let value_a_after = fix.pool.token_a.total_supply / SCALAR_7;
    let value_b_after = fix.pool.token_b.total_supply * 15 / 100 / SCALAR_7;
    let gap_after = (value_a_after * 10_000 / (value_a_after + value_b_after) - 5_000).abs();
    assert!(gap_after < gap_before);
}

#[test]
fn get_token_info_reports_entries_and_rejects_strangers() {
    let fix = create_fixture_with_data();
    let info_a = fix.pool.get_token_info(10).unwrap();
    assert_eq!(info_a.address, 10);
    assert_eq!(info_a.total_supply, 1_000 * SCALAR_7);
    let info_b = fix.pool.get_token_info(11).unwrap();
    assert_eq!(info_b.total_supply, 10_000 * SCALAR_7);
    assert_eq!(fix.pool.get_token_info(99), Err(PoolError::InvalidTokenAddress));
    assert_eq!(fix.pool.get_oracle(), 30);
    assert_eq!(fix.pool.get_slp_supply(), 2_000 * SCALAR_7);
}

#[test]
fn withdraw_requires_initialization() {
    let mut pool = PoolContract::new(20);
    let mut ledger = Ledger::new();
    let oracle = OracleState::new();
    let r = pool.withdraw(&mut ledger, &oracle, 0, 2, 100);
    assert_eq!(r, Err(PoolError::NotInitialized));
}

#[test]
fn tokens_are_conserved_across_operations() {
    let mut fix = create_fixture_with_data();
    let henk: u64 = 3;
    fix.ledger.mint(11, henk, 10_000 * SCALAR_7);
    fix.ledger.mint(10, henk, 1_000 * SCALAR_7);

    // Every operation but the share mint and burn only moves tokens: the
    // sum over all holders of each pool asset never changes.
    let xlm_total = fix.ledger.balance(11, 2) + fix.ledger.balance(11, henk)
        + fix.ledger.balance(11, 20) + fix.ledger.balance(11, 21);
    let usdc_total = fix.ledger.balance(10, 2) + fix.ledger.balance(10, henk)
        + fix.ledger.balance(10, 20) + fix.ledger.balance(10, 21);

    fix.pool
        .deposit(&mut fix.ledger, &fix.oracle, fix.now, henk, 1_000 * SCALAR_7, 10_000 * SCALAR_7)
        .unwrap();
    fix.pool
        .withdraw(&mut fix.ledger, &fix.oracle, fix.now, henk, 500 * SCALAR_7)
        .unwrap();
    fix.pool.borrow(&mut fix.ledger, 11, 1_000 * SCALAR_7, 0).unwrap();

    let xlm_after = fix.ledger.balance(11, 2) + fix.ledger.balance(11, henk)
        + fix.ledger.balance(11, 20) + fix.ledger.balance(11, 21);
    let usdc_after = fix.ledger.balance(10, 2) + fix.ledger.balance(10, henk)
        + fix.ledger.balance(10, 20) + fix.ledger.balance(10, 21);
    assert_eq!(xlm_total, xlm_after);
    assert_eq!(usdc_total, usdc_after);
}
