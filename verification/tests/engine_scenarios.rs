use percolator::engine::state::RiskEngine;
use percolator::engine::types::{
    MatchingEngine, RiskError, RiskParams, RiskResult, TradeExecution, MAX_ACCOUNTS,
    MAX_ORACLE_PRICE,
};
use percolator::num::{I128, U128};

const E6: u64 = 1_000_000;
const ORACLE_100K: u64 = 100_000 * E6;
const ONE_BASE: i128 = 1_000_000;

fn params_for_tests() -> RiskParams {
    RiskParams {
        warmup_period_slots: 1000,
        maintenance_margin_bps: 0,
        initial_margin_bps: 0,
        trading_fee_bps: 0,
        max_accounts: MAX_ACCOUNTS as u64,
        new_account_fee: U128::new(0),
        risk_reduction_threshold: U128::new(0),
        maintenance_fee_per_slot: U128::new(0),
        max_crank_staleness_slots: u64::MAX,
        liquidation_fee_bps: 0,
        liquidation_fee_cap: U128::new(0),
        liquidation_buffer_bps: 0,
        min_liquidation_abs: U128::new(0),
        min_initial_deposit: U128::new(2),
        min_nonzero_mm_req: 1,
        min_nonzero_im_req: 2,
        insurance_floor: U128::new(0),
        funding_premium_weight_bps: 0,
        funding_settlement_interval_slots: 0,
        funding_premium_dampening_e6: 1_000_000,
        funding_premium_max_bps_per_slot: 5,
        partial_liquidation_bps: 0,
        partial_liquidation_cooldown_slots: 0,
        use_mark_price_for_liquidation: false,
        emergency_liquidation_margin_bps: 0,
        fee_tier2_bps: 0,
        fee_tier3_bps: 0,
        fee_tier2_threshold: 0,
        fee_tier3_threshold: 0,
        fee_split_lp_bps: 0,
        fee_split_protocol_bps: 0,
        fee_split_creator_bps: 10_000,
        fee_utilization_surge_bps: 0,
    }
}

struct PriceBelowOracleMatcher;
impl MatchingEngine for PriceBelowOracleMatcher {
    fn execute_match(
        &self,
        _lp_program: &[u8; 32],
        _lp_context: &[u8; 32],
        _lp_account_id: u64,
        oracle_price: u64,
        size: i128,
    ) -> RiskResult<TradeExecution> {
        let exec_price = oracle_price - (1_000 * E6);
        Ok(TradeExecution { price: exec_price, size })
    }
}

struct OppositeSignMatcher;
impl MatchingEngine for OppositeSignMatcher {
    fn execute_match(
        &self,
        _lp_program: &[u8; 32],
        _lp_context: &[u8; 32],
        _lp_account_id: u64,
        oracle_price: u64,
        size: i128,
    ) -> RiskResult<TradeExecution> {
        Ok(TradeExecution { price: oracle_price, size: -size })
    }
}

struct OversizeFillMatcher;
impl MatchingEngine for OversizeFillMatcher {
    fn execute_match(
        &self,
        _lp_program: &[u8; 32],
        _lp_context: &[u8; 32],
        _lp_account_id: u64,
        oracle_price: u64,
        size: i128,
    ) -> RiskResult<TradeExecution> {
        Ok(TradeExecution { price: oracle_price, size: size.checked_mul(2).unwrap() })
    }
}

struct P90kMatcher;
impl MatchingEngine for P90kMatcher {
    fn execute_match(
        &self,
        _lp_program: &[u8; 32],
        _lp_context: &[u8; 32],
        _lp_account_id: u64,
        oracle_price: u64,
        size: i128,
    ) -> RiskResult<TradeExecution> {
        Ok(TradeExecution { price: oracle_price - (10_000 * E6), size })
    }
}

struct AtOracleMatcher;
impl MatchingEngine for AtOracleMatcher {
    fn execute_match(
        &self,
        _lp_program: &[u8; 32],
        _lp_context: &[u8; 32],
        _lp_account_id: u64,
        oracle_price: u64,
        size: i128,
    ) -> RiskResult<TradeExecution> {
        Ok(TradeExecution { price: oracle_price, size })
    }
}

#[test]
fn test_execute_trade_sets_current_slot_and_resets_warmup_start() {
    let mut engine = RiskEngine::new(params_for_tests());
    let lp_idx = engine.add_lp([1u8; 32], [2u8; 32], 0).unwrap();
    let user_idx = engine.add_user(0).unwrap();
    engine.deposit(lp_idx, 1_000_000_000_000, 1).unwrap();
    engine.deposit(user_idx, 1_000_000_000_000, 1).unwrap();
    let matcher = PriceBelowOracleMatcher;
    engine
        .execute_trade(&matcher, lp_idx, user_idx, 100, ORACLE_100K, ONE_BASE)
        .unwrap();
    assert_eq!(engine.current_slot, 100);
    assert_eq!(engine.accounts[user_idx as usize].warmup_started_at_slot, 100);
    assert_eq!(engine.accounts[lp_idx as usize].warmup_started_at_slot, 100);
}

#[test]
fn test_execute_trade_rejects_matcher_opposite_sign() {
    let mut engine = RiskEngine::new(params_for_tests());
    let lp_idx = engine.add_lp([1u8; 32], [2u8; 32], 0).unwrap();
    let user_idx = engine.add_user(0).unwrap();
    engine.deposit(lp_idx, 1_000_000_000_000, 1).unwrap();
    engine.deposit(user_idx, 1_000_000_000_000, 1).unwrap();
    let matcher = OppositeSignMatcher;
    let res = engine.execute_trade(&matcher, lp_idx, user_idx, 10, ORACLE_100K, ONE_BASE);
    assert_eq!(res, Err(RiskError::InvalidMatchingEngine));
}

#[test]
fn test_execute_trade_rejects_matcher_oversize_fill() {
    let mut engine = RiskEngine::new(params_for_tests());
    let lp_idx = engine.add_lp([1u8; 32], [2u8; 32], 0).unwrap();
    let user_idx = engine.add_user(0).unwrap();
    engine.deposit(lp_idx, 1_000_000_000_000, 1).unwrap();
    engine.deposit(user_idx, 1_000_000_000_000, 1).unwrap();
    let matcher = OversizeFillMatcher;
    let res = engine.execute_trade(&matcher, lp_idx, user_idx, 10, ORACLE_100K, ONE_BASE);
    assert_eq!(res, Err(RiskError::InvalidMatchingEngine));
}

#[test]
fn test_check_conservation_fails_on_mark_overflow() {
    let mut engine = RiskEngine::new(params_for_tests());
    let user_idx = engine.add_user(0).unwrap();
    engine.accounts[user_idx as usize].position_size = i128::MAX;
    engine.accounts[user_idx as usize].entry_price = MAX_ORACLE_PRICE;
    engine.accounts[user_idx as usize].pnl = 0;
    engine.accounts[user_idx as usize].capital = U128::new(0);
    engine.vault = U128::new(0);
    engine.insurance_fund.balance = U128::new(0);
    assert!(!engine.check_conservation(1));
}

#[test]
fn test_cross_lp_close_no_pnl_teleport_simple() {
    let mut engine = RiskEngine::new(params_for_tests());
    let lp1 = engine.add_lp([1u8; 32], [2u8; 32], 0).unwrap();
    let lp2 = engine.add_lp([3u8; 32], [4u8; 32], 0).unwrap();
    let user = engine.add_user(0).unwrap();
    engine.deposit(lp1, 50_000 * (E6 as u128), 1).unwrap();
    engine.deposit(lp2, 50_000 * (E6 as u128), 1).unwrap();
    engine.deposit(user, 50_000 * (E6 as u128), 1).unwrap();

    engine
        .execute_trade(&P90kMatcher, lp1, user, 100, ORACLE_100K, ONE_BASE)
        .unwrap();
    engine
        .execute_trade(&AtOracleMatcher, lp2, user, 101, ORACLE_100K, -ONE_BASE)
        .unwrap();

    assert_eq!(engine.accounts[user as usize].position_size, 0);
    let ten_k_e6: u128 = (10_000 * E6) as u128;
    let user_pnl = engine.accounts[user as usize].pnl as u128;
    let user_cap = engine.accounts[user as usize].capital.get();
    let initial_cap = 50_000 * (E6 as u128);
    assert_eq!(
        user_pnl + user_cap,
        initial_cap + ten_k_e6,
        "user total value must be initial_capital + trade profit"
    );
    assert_eq!(engine.accounts[lp1 as usize].pnl, 0);
    assert_eq!(engine.accounts[lp1 as usize].capital.get(), initial_cap - ten_k_e6);
    assert_eq!(engine.accounts[lp2 as usize].pnl, 0);
    assert_eq!(engine.accounts[lp2 as usize].capital.get(), initial_cap);
    assert!(engine.check_conservation(ORACLE_100K));
}

#[test]
fn test_idle_user_drains_and_gc_closes() {
    let mut params = params_for_tests();
    params.maintenance_fee_per_slot = U128::new(1);
    let mut engine = RiskEngine::new(params);
    let user_idx = engine.add_user(0).unwrap();
    engine.deposit(user_idx, 10, 1).unwrap();
    assert!(engine.is_used(user_idx as usize));
    let outcome = engine.keeper_crank(1001, ORACLE_100K, &[], 0, 0).unwrap();
    assert_eq!(outcome.num_gc_closed, 1, "expected GC to close the drained account");
    assert!(!engine.is_used(user_idx as usize), "account should be freed");
}

#[test]
fn test_dust_stale_funding_gc() {
    let mut engine = RiskEngine::new(params_for_tests());
    let user_idx = engine.add_user(0).unwrap();
    engine.accounts[user_idx as usize].capital = U128::new(0);
    engine.accounts[user_idx as usize].pnl = 0;
    engine.accounts[user_idx as usize].position_size = 0;
    engine.accounts[user_idx as usize].reserved_pnl = 0;
    engine.accounts[user_idx as usize].funding_index = 999;
    assert_ne!(
        engine.accounts[user_idx as usize].funding_index,
        engine.funding_index_qpb_e6
    );
    assert!(engine.is_used(user_idx as usize));
    let outcome = engine.keeper_crank(10, ORACLE_100K, &[], 0, 0).unwrap();
    assert_eq!(outcome.num_gc_closed, 1, "expected GC to close stale-funding dust");
    assert!(!engine.is_used(user_idx as usize), "account should be freed");
}

#[test]
fn test_dust_negative_fee_credits_gc() {
    let mut engine = RiskEngine::new(params_for_tests());
    let user_idx = engine.add_user(0).unwrap();
    engine.accounts[user_idx as usize].capital = U128::new(0);
    engine.accounts[user_idx as usize].pnl = 0;
    engine.accounts[user_idx as usize].position_size = 0;
    engine.accounts[user_idx as usize].reserved_pnl = 0;
    engine.accounts[user_idx as usize].fee_credits = I128::new(-123);
    assert!(engine.is_used(user_idx as usize));
    let outcome = engine.keeper_crank(10, ORACLE_100K, &[], 0, 0).unwrap();
    assert_eq!(
        outcome.num_gc_closed, 1,
        "expected GC to close account with negative fee_credits"
    );
    assert!(!engine.is_used(user_idx as usize), "account should be freed");
}

#[test]
fn test_lp_never_gc() {
    let mut params = params_for_tests();
    params.maintenance_fee_per_slot = U128::new(1);
    let mut engine = RiskEngine::new(params);
    let lp_idx = engine.add_lp([1u8; 32], [2u8; 32], 0).unwrap();
    engine.accounts[lp_idx as usize].capital = U128::new(0);
    engine.accounts[lp_idx as usize].pnl = 0;
    engine.accounts[lp_idx as usize].position_size = 0;
    engine.accounts[lp_idx as usize].reserved_pnl = 0;
    assert!(engine.is_used(lp_idx as usize));
    for slot in 1..=10u64 {
        let outcome = engine.keeper_crank(slot * 100, ORACLE_100K, &[], 0, 0).unwrap();
        assert_eq!(
            outcome.num_gc_closed, 0,
            "LP must not be garbage collected (slot {})",
            slot * 100
        );
    }
    assert!(engine.is_used(lp_idx as usize), "LP account must still exist");
}

#[test]
fn test_maintenance_fee_paid_from_fee_credits_is_coupon_not_revenue() {
    let mut params = params_for_tests();
    params.maintenance_fee_per_slot = U128::new(10);
    let mut engine = RiskEngine::new(params);
    let user_idx = engine.add_user(0).unwrap();
    engine.deposit(user_idx, 1_000_000, 1).unwrap();
    engine.add_fee_credits(user_idx, 100).unwrap();
    assert_eq!(engine.accounts[user_idx as usize].fee_credits.get(), 100);
    let rev_before = engine.insurance_fund.fee_revenue.get();
    let bal_before = engine.insurance_fund.balance.get();
    engine.settle_maintenance_fee(user_idx, 6, ORACLE_100K).unwrap();
    assert_eq!(
        engine.accounts[user_idx as usize].fee_credits.get(),
        50,
        "fee_credits should decrease by 50"
    );
    assert_eq!(
        engine.insurance_fund.fee_revenue.get() - rev_before,
        0,
        "insurance fee_revenue must NOT change (coupon semantics)"
    );
    assert_eq!(
        engine.insurance_fund.balance.get() - bal_before,
        0,
        "insurance balance must NOT change (coupon semantics)"
    );
}

#[test]
fn test_maintenance_fee_splits_credits_coupon_capital_to_insurance() {
    let mut params = params_for_tests();
    params.maintenance_fee_per_slot = U128::new(10);
    let mut engine = RiskEngine::new(params);
    let user_idx = engine.add_user(0).unwrap();
    engine.deposit(user_idx, 50, 1).unwrap();
    assert_eq!(engine.accounts[user_idx as usize].capital.get(), 40);
    engine.add_fee_credits(user_idx, 30).unwrap();
    let rev_before = engine.insurance_fund.fee_revenue.get();
    engine.settle_maintenance_fee(user_idx, 11, ORACLE_100K).unwrap();
    let rev_increase = engine.insurance_fund.fee_revenue.get() - rev_before;
    let cap_after = engine.accounts[user_idx as usize].capital.get();
    assert_eq!(
        rev_increase, 40,
        "insurance revenue should be 40 (capital only; credits are coupon)"
    );
    assert_eq!(cap_after, 0, "capital should be fully drained");
    assert_eq!(
        engine.accounts[user_idx as usize].fee_credits.get(),
        -30,
        "fee_credits should reflect unpaid debt"
    );
}

#[test]
fn test_deposit_fee_credits_updates_vault_and_insurance() {
    let mut engine = RiskEngine::new(params_for_tests());
    let user_idx = engine.add_user(0).unwrap();
    let vault_before = engine.vault.get();
    let ins_before = engine.insurance_fund.balance.get();
    let rev_before = engine.insurance_fund.fee_revenue.get();
    engine.deposit_fee_credits(user_idx, 500, 10).unwrap();
    assert_eq!(engine.vault.get() - vault_before, 500, "vault must increase");
    assert_eq!(
        engine.insurance_fund.balance.get() - ins_before,
        500,
        "insurance balance must increase"
    );
    assert_eq!(
        engine.insurance_fund.fee_revenue.get() - rev_before,
        500,
        "insurance fee_revenue must increase"
    );
    assert_eq!(
        engine.accounts[user_idx as usize].fee_credits.get(),
        500,
        "fee_credits must increase"
    );
}

#[test]
fn test_warmup_matured_not_lost_on_trade() {
    let mut params = params_for_tests();
    params.warmup_period_slots = 100;
    params.max_crank_staleness_slots = u64::MAX;
    let mut engine = RiskEngine::new(params);
    let lp_idx = engine.add_lp([1u8; 32], [2u8; 32], 0).unwrap();
    let user_idx = engine.add_user(0).unwrap();
    engine.deposit(lp_idx, 1_000_000_000, 1).unwrap();
    engine.deposit(user_idx, 1_000_000_000, 1).unwrap();
    engine.insurance_fund.balance = U128::new(engine.insurance_fund.balance.get() + 1_000_000);
    engine.accounts[user_idx as usize].pnl = 10_000;
    engine.accounts[user_idx as usize].warmup_started_at_slot = 1;
    engine.accounts[user_idx as usize].warmup_slope_per_step = 100;
    let cap_before = engine.accounts[user_idx as usize].capital.get();
    engine
        .execute_trade(&AtOracleMatcher, lp_idx, user_idx, 200, ORACLE_100K, ONE_BASE)
        .unwrap();
    let cap_after = engine.accounts[user_idx as usize].capital.get();
    assert!(
        cap_after > cap_before,
        "capital must increase from matured warmup: before={}, after={}",
        cap_before,
        cap_after
    );
    assert!(
        cap_after >= cap_before + 10_000,
        "capital should have increased by at least 10000 (matured warmup): before={}, after={}",
        cap_before,
        cap_after
    );
}

#[test]
fn test_abandoned_with_stale_last_fee_slot_eventually_closed() {
    let mut params = params_for_tests();
    params.maintenance_fee_per_slot = U128::new(1);
    let mut engine = RiskEngine::new(params);
    let user_idx = engine.add_user(0).unwrap();
    engine.deposit(user_idx, 5, 1).unwrap();
    assert!(engine.is_used(user_idx as usize));
    let _ = engine.keeper_crank(10_000, ORACLE_100K, &[], 0, 0).unwrap();
    let _outcome = engine.keeper_crank(10_001, ORACLE_100K, &[], 0, 0).unwrap();
    assert!(
        !engine.is_used(user_idx as usize),
        "abandoned account with stale last_fee_slot must eventually be GC'd"
    );
}

#[test]
fn trade_value_moves_between_parties_only() {
    let mut engine = RiskEngine::new(params_for_tests());
    let lp = engine.add_lp([1u8; 32], [2u8; 32], 0).unwrap();
    let user = engine.add_user(0).unwrap();
    let init = 50_000 * (E6 as u128);
    engine.deposit(lp, init, 1).unwrap();
    engine.deposit(user, init, 1).unwrap();
    engine
        .execute_trade(&P90kMatcher, lp, user, 100, ORACLE_100K, ONE_BASE)
        .unwrap();
    let total = |i: u16| {
        engine.accounts[i as usize].capital.get() as i128 + engine.accounts[i as usize].pnl
    };
    assert_eq!(total(user) + total(lp), 2 * init as i128);
    assert_eq!(engine.accounts[user as usize].position_size, ONE_BASE);
    assert_eq!(engine.accounts[lp as usize].position_size, -ONE_BASE);
    assert!(engine.check_conservation(ORACLE_100K));
}
