use percolator::engine::market::compute_trade_pnl;
use percolator::engine::state::RiskEngine;
use percolator::engine::types::{RiskError, RiskParams, MAX_ACCOUNTS};
use percolator::num::U128;
use percolator::v14::{
    PermissionlessRecoveryReasonV14, ProvenanceHeaderV14, V14Error,
    V14OptionalRecoveryReasonAccount, V14PodI128, V14PodU128, V14PodU16, V14PodU32, V14PodU64,
    V14_ACCOUNT_VERSION, V14_LAYOUT_DISCRIMINATOR,
};

fn test_engine() -> RiskEngine {
    let params = RiskParams {
        warmup_period_slots: 10,
        maintenance_margin_bps: 500,
        initial_margin_bps: 1000,
        trading_fee_bps: 10,
        max_accounts: MAX_ACCOUNTS as u64,
        new_account_fee: U128::new(0),
        risk_reduction_threshold: U128::new(0),
        maintenance_fee_per_slot: U128::new(0),
        max_crank_staleness_slots: u64::MAX,
        liquidation_fee_bps: 50,
        liquidation_fee_cap: U128::new(1_000_000),
        liquidation_buffer_bps: 100,
        min_liquidation_abs: U128::new(0),
        funding_premium_weight_bps: 0,
        funding_settlement_interval_slots: 0,
        funding_premium_dampening_e6: 1_000_000,
        funding_premium_max_bps_per_slot: 5,
        partial_liquidation_bps: 0,
        partial_liquidation_cooldown_slots: 0,
        use_mark_price_for_liquidation: false,
        emergency_liquidation_margin_bps: 0,
        fee_tier2_bps: 0,
        fee_tier3_bps: 0,
        fee_tier2_threshold: 0,
        fee_tier3_threshold: 0,
        fee_split_lp_bps: 0,
        fee_split_protocol_bps: 0,
        fee_split_creator_bps: 10_000,
        fee_utilization_surge_bps: 0,
        min_nonzero_mm_req: 1,
        min_nonzero_im_req: 2,
        insurance_floor: U128::new(0),
        min_initial_deposit: U128::new(2),
    };
    RiskEngine::new(params)
}

#[test]
fn test_trade_improves_skew_reduces_net() {
    assert!(!RiskEngine::trade_improves_skew(-100, -10));
    assert!(RiskEngine::trade_improves_skew(-100, 10));
}

#[test]
fn test_trade_improves_skew_from_zero() {
    assert!(!RiskEngine::trade_improves_skew(0, 10));
    assert!(!RiskEngine::trade_improves_skew(0, -10));
}

#[test]
fn test_fund_balance_reserve() {
    let mut engine = test_engine();
    engine.fund_balance_reserve(10_000, 500);
    assert_eq!(engine.insurance_fund.balance_incentive_reserve, 500);
    engine.fund_balance_reserve(10_000, 0);
    assert_eq!(engine.insurance_fund.balance_incentive_reserve, 500);
}

#[test]
fn test_pay_skew_rebate_capped() {
    let mut engine = test_engine();
    engine.insurance_fund.balance_incentive_reserve = 100;
    let paid = engine.pay_skew_rebate(0, 200);
    assert_eq!(paid, 100);
    assert_eq!(engine.insurance_fund.balance_incentive_reserve, 0);
}

#[test]
fn test_pay_skew_rebate_exact() {
    let mut engine = test_engine();
    engine.insurance_fund.balance_incentive_reserve = 100;
    let paid = engine.pay_skew_rebate(0, 50);
    assert_eq!(paid, 50);
    assert_eq!(engine.insurance_fund.balance_incentive_reserve, 50);
}

#[test]
fn fresh_engine_conserves_value() {
    let engine = test_engine();
    assert!(engine.check_conservation(1));
}

#[test]
fn deposit_then_conservation_holds() {
    let mut engine = test_engine();
    let u = engine.add_user(0).unwrap();
    engine.deposit(u, 1_000, 1).unwrap();
    assert_eq!(engine.accounts[u as usize].capital.get(), 1_000);
    assert_eq!(engine.vault.get(), 1_000);
    assert!(engine.check_conservation(1));
}

#[test]
fn vault_surplus_beyond_slack_breaks_conservation() {
    let mut engine = test_engine();
    engine.vault = U128::new(1_000);
    assert!(!engine.check_conservation(1));
}

#[test]
fn deposit_to_unused_slot_is_rejected() {
    let mut engine = test_engine();
    assert_eq!(engine.deposit(3, 100, 1), Err(RiskError::AccountNotFound));
}

#[test]
fn withdraw_more_than_capital_is_rejected() {
    let mut engine = test_engine();
    let u = engine.add_user(0).unwrap();
    engine.deposit(u, 1_000, 1).unwrap();
    assert!(engine.withdraw(u, 2_000, 2, 1_000_000).is_err());
    assert_eq!(engine.accounts[u as usize].capital.get(), 1_000);
}

#[test]
fn add_user_assigns_distinct_slots() {
    let mut engine = test_engine();
    let a = engine.add_user(0).unwrap();
    let b = engine.add_user(0).unwrap();
    assert_ne!(a, b);
    assert!(engine.is_used(a as usize));
    assert!(engine.is_used(b as usize));
    assert_eq!(engine.num_used_accounts, 2);
}

#[test]
fn pod_u16_is_little_endian() {
    let p = V14PodU16::new(0x1234);
    assert_eq!(p.bytes, [0x34, 0x12]);
    assert_eq!(p.get(), 0x1234);
}

#[test]
fn pod_u32_u64_roundtrip() {
    assert_eq!(V14PodU32::new(0xDEAD_BEEF).get(), 0xDEAD_BEEF);
    assert_eq!(V14PodU32::new(0xDEAD_BEEF).bytes, [0xEF, 0xBE, 0xAD, 0xDE]);
    assert_eq!(V14PodU64::new(u64::MAX).get(), u64::MAX);
    assert_eq!(V14PodU64::new(1).bytes, [1, 0, 0, 0, 0, 0, 0, 0]);
}

#[test]
fn pod_u128_roundtrip() {
    let v: u128 = 0x0102_0304_0506_0708_090A_0B0C_0D0E_0F10;
    let p = V14PodU128::new(v);
    assert_eq!(p.bytes[0], 0x10);
    assert_eq!(p.bytes[15], 0x01);
    assert_eq!(p.get(), v);
    assert_eq!(V14PodU128::new(u128::MAX).get(), u128::MAX);
}

#[test]
fn pod_i128_twos_complement() {
    assert_eq!(V14PodI128::new(-1).bytes, [0xFF; 16]);
    assert_eq!(V14PodI128::new(-1).get(), -1);
    assert_eq!(V14PodI128::new(i128::MIN).get(), i128::MIN);
    assert_eq!(V14PodI128::new(i128::MAX).get(), i128::MAX);
    assert_eq!(V14PodI128::new(42).bytes[0], 42);
}

#[test]
fn pod_i128_store_of_read_keeps_bytes() {
    let mut raw = [0u8; 16];
    let mut k: usize = 0;
    while k < 16 {
        raw[k] = (k as u8).wrapping_mul(37).wrapping_add(200);
        k += 1;
    }
    let p = V14PodI128 { bytes: raw };
    assert_eq!(V14PodI128::new(p.get()), p);
    let top = V14PodI128 { bytes: [0x80; 16] };
    assert_eq!(V14PodI128::new(top.get()).bytes, [0x80; 16]);
}

#[test]
fn recovery_reason_roundtrip_and_rejects() {
    let none = V14OptionalRecoveryReasonAccount::from_runtime(None);
    assert_eq!((none.present, none.value), (0, 0));
    assert_eq!(none.try_to_runtime(), Ok(None));
    let r = PermissionlessRecoveryReasonV14::BIndexHeadroomExhausted;
    let some = V14OptionalRecoveryReasonAccount::from_runtime(Some(r));
    assert_eq!((some.present, some.value), (1, 3));
    assert_eq!(some.try_to_runtime(), Ok(Some(r)));
    let bad_code = V14OptionalRecoveryReasonAccount { present: 1, value: 8 };
    assert_eq!(bad_code.try_to_runtime(), Err(V14Error::InvalidConfig));
    let bad_flag = V14OptionalRecoveryReasonAccount { present: 0, value: 1 };
    assert_eq!(bad_flag.try_to_runtime(), Err(V14Error::InvalidConfig));
}

#[test]
fn provenance_header_carries_layout_tags() {
    let h = ProvenanceHeaderV14::new([1; 32], [2; 32], [3; 32]);
    assert_eq!(h.version, V14_ACCOUNT_VERSION);
    assert_eq!(h.layout_discriminator, V14_LAYOUT_DISCRIMINATOR);
    assert_eq!(h.owner, [3; 32]);
}

#[test]
fn touch_account_full_refreshes_and_rejects() {
    let mut engine = test_engine();
    assert_eq!(
        engine.touch_account_full_not_atomic(5, 1_000_000, 1),
        Err(RiskError::AccountNotFound)
    );
    let u = engine.add_user(0).unwrap();
    engine.deposit(u, 1_000, 1).unwrap();
    assert_eq!(
        engine.touch_account_full_not_atomic(u as usize, 0, 2),
        Err(RiskError::Overflow)
    );
    assert_eq!(engine.touch_account_full_not_atomic(u as usize, 1_000_000, 7), Ok(()));
    assert_eq!(engine.current_slot, 7);
    assert_eq!(engine.accounts[u as usize].capital.get(), 1_000);
    assert_eq!(
        engine.touch_account_full_not_atomic(u as usize, 1_000_000, 3),
        Err(RiskError::Overflow)
    );
}

#[test]
fn trade_pnl_formula_is_floor_of_size_times_diff() {
    assert_eq!(compute_trade_pnl(1_000_000, 10_000_000_000), Ok(10_000_000_000));
    assert_eq!(compute_trade_pnl(1, -1), Ok(-1));
    assert_eq!(compute_trade_pnl(3, 1), Ok(0));
}

#[test]
fn deposit_error_leaves_engine_unchanged() {
    let mut engine = test_engine();
    let slot_before = engine.current_slot;
    assert_eq!(engine.deposit(9, 100, 77), Err(RiskError::AccountNotFound));
    assert_eq!(engine.current_slot, slot_before);
    let u = engine.add_user(0).unwrap();
    assert_eq!(engine.deposit_fee_credits(u, u128::MAX, 55), Err(RiskError::Overflow));
    assert_eq!(engine.current_slot, slot_before);
}

#[test]
fn settle_maintenance_fee_returns_fee_due() {
    let mut params = test_engine().params;
    params.maintenance_fee_per_slot = U128::new(3);
    let mut engine = RiskEngine::new(params);
    let u = engine.add_user(0).unwrap();
    engine.deposit(u, 2, 1).unwrap();
    engine.add_fee_credits(u, 100).unwrap();
    assert_eq!(engine.settle_maintenance_fee(u, 11, 1_000_000), Ok(30));
    assert_eq!(engine.accounts[u as usize].fee_credits.get(), 69);
    assert_eq!(engine.settle_maintenance_fee(u, 11, 1_000_000), Ok(0));
}

#[test]
fn close_account_refuses_outstanding_fee_debt() {
    let mut engine = test_engine();
    let u = engine.add_user(0).unwrap();
    engine.accounts[u as usize].fee_credits = percolator::num::I128::new(-5);
    assert_eq!(engine.close_account(u, 1, 1_000_000), Err(RiskError::InsufficientBalance));
    assert!(engine.is_used(u as usize));
}

#[test]
fn dust_with_negative_pnl_is_absorbed_and_collected() {
    let mut engine = test_engine();
    let u = engine.add_user(0).unwrap();
    engine.insurance_fund.balance = U128::new(1_000);
    engine.vault = U128::new(1_000);
    engine.accounts[u as usize].pnl = -40;
    let freed = engine.garbage_collect_dust();
    assert_eq!(freed, 1);
    assert!(!engine.is_used(u as usize));
    assert_eq!(engine.insurance_fund.balance.get(), 960);
}

#[test]
fn backed_skew_rebate_keeps_conservation() {
    let mut engine = test_engine();
    let u = engine.add_user(0).unwrap();
    engine.vault = U128::new(1_000);
    engine.insurance_fund.balance = U128::new(1_000);
    engine.insurance_fund.balance_incentive_reserve = 300;
    let paid = engine.pay_skew_rebate(u, 200);
    assert_eq!(paid, 200);
    assert_eq!(engine.insurance_fund.balance.get(), 800);
    assert_eq!(engine.accounts[u as usize].capital.get(), 200);
    assert_eq!(engine.c_tot.get(), 200);
    assert!(engine.vault.get() >= engine.c_tot.get() + engine.insurance_fund.balance.get());
}

#[test]
fn withdraw_not_atomic_checks_and_pays() {
    let mut engine = test_engine();
    assert_eq!(engine.withdraw_not_atomic(0, 10, 1_000_000, 1, 0), Err(RiskError::AccountNotFound));
    let u = engine.add_user(0).unwrap();
    engine.deposit(u, 1_000, 1).unwrap();
    assert_eq!(engine.withdraw_not_atomic(u, 10, 1_000_000, 2, 20_000), Err(RiskError::Overflow));
    assert_eq!(
        engine.withdraw_not_atomic(u, 2_000, 1_000_000, 2, 0),
        Err(RiskError::InsufficientBalance)
    );
    assert_eq!(
        engine.withdraw_not_atomic(u, 999, 1_000_000, 3, 0),
        Err(RiskError::InsufficientBalance)
    );
    assert_eq!(engine.withdraw_not_atomic(u, 400, 1_000_000, 4, 0), Ok(()));
    assert_eq!(engine.accounts[u as usize].capital.get(), 600);
    assert_eq!(engine.vault.get(), 600);
}

#[test]
fn close_account_not_atomic_pays_capital_and_frees() {
    let mut engine = test_engine();
    let u = engine.add_user(0).unwrap();
    engine.deposit(u, 1_000, 1).unwrap();
    assert_eq!(engine.close_account_not_atomic(u, 2, 1_000_000, 0), Ok(1_000));
    assert!(!engine.is_used(u as usize));
    assert_eq!(engine.vault.get(), 0);
    assert_eq!(engine.c_tot.get(), 0);
    assert_eq!(
        engine.close_account_not_atomic(u, 3, 1_000_000, 0),
        Err(RiskError::AccountNotFound)
    );
}

#[test]
fn init_in_place_rejects_bad_params_and_chains_slots() {
    let mut engine = test_engine();
    let mut bad = engine.params;
    bad.maintenance_margin_bps = 0;
    assert_eq!(engine.init_in_place(bad), Err(RiskError::Overflow));
    let mut good = engine.params;
    good.max_crank_staleness_slots = 77;
    assert_eq!(engine.init_in_place(good), Ok(()));
    assert_eq!(engine.max_crank_staleness_slots, 77);
    assert_eq!(engine.next_free[0], 1);
    assert_eq!(engine.next_free[MAX_ACCOUNTS - 1], u16::MAX);
}

#[test]
fn reclaim_empty_account_frees_dust_and_refuses_live_accounts() {
    let mut engine = test_engine();
    assert_eq!(engine.reclaim_empty_account_not_atomic(3, 1), Err(RiskError::AccountNotFound));
    let u = engine.add_user(0).unwrap();
    engine.deposit(u, 1_000, 1).unwrap();
    assert_eq!(engine.reclaim_empty_account_not_atomic(u, 2), Err(RiskError::Undercollateralized));
    engine.accounts[u as usize].capital = U128::new(1);
    engine.c_tot = U128::new(1);
    assert_eq!(engine.reclaim_empty_account_not_atomic(u, 0), Err(RiskError::Overflow));
    assert_eq!(engine.reclaim_empty_account_not_atomic(u, 3), Ok(()));
    assert!(!engine.is_used(u as usize));
    assert_eq!(engine.insurance_fund.balance.get(), 1);
    assert_eq!(engine.c_tot.get(), 0);
}

#[test]
fn force_close_resolved_not_atomic_anchors_slot_and_frees() {
    let mut engine = test_engine();
    let u = engine.add_user(0).unwrap();
    engine.deposit(u, 700, 5).unwrap();
    assert_eq!(engine.force_close_resolved_not_atomic(u, 3), Err(RiskError::Overflow));
    assert_eq!(engine.force_close_resolved_not_atomic(u, 9), Ok(700));
    assert_eq!(engine.current_slot, 9);
    assert!(!engine.is_used(u as usize));
    assert_eq!(engine.vault.get(), 0);
    assert_eq!(engine.force_close_resolved_not_atomic(u, 9), Err(RiskError::AccountNotFound));
}

#[test]
fn convert_released_pnl_on_flat_account_only_runs_lifecycle() {
    let mut engine = test_engine();
    let u = engine.add_user(0).unwrap();
    engine.deposit(u, 1_000, 1).unwrap();
    assert_eq!(engine.convert_released_pnl_not_atomic(u, 5, 1_000_000, 2, 0), Ok(()));
    assert_eq!(engine.accounts[u as usize].capital.get(), 1_000);
    assert_eq!(
        engine.convert_released_pnl_not_atomic(u, 5, 0, 2, 0),
        Err(RiskError::Overflow)
    );
    assert_eq!(
        engine.convert_released_pnl_not_atomic(40, 5, 1_000_000, 2, 0),
        Err(RiskError::AccountNotFound)
    );
}

#[test]
fn execute_trade_not_atomic_moves_positions_and_pnl() {
    let mut engine = test_engine();
    let a = engine.add_user(0).unwrap();
    let b = engine.add_user(0).unwrap();
    engine.deposit(a, 1_000_000_000, 1).unwrap();
    engine.deposit(b, 1_000_000_000, 1).unwrap();
    let vault_before = engine.vault;
    let insurance_before = engine.insurance_fund.balance.get();
    assert_eq!(
        engine.execute_trade_not_atomic(a, a, 1_000_000, 2, 1_000_000, 1_000_000, 0),
        Err(RiskError::Overflow)
    );
    assert_eq!(
        engine.execute_trade_not_atomic(a, b, 1_000_000, 2, 0, 1_000_000, 0),
        Err(RiskError::Overflow)
    );
    assert_eq!(
        engine.execute_trade_not_atomic(a, 50, 1_000_000, 2, 1_000_000, 1_000_000, 0),
        Err(RiskError::AccountNotFound)
    );
    assert_eq!(
        engine.execute_trade_not_atomic(a, b, 1_000_000, 2, 1_000_000, 900_000, 0),
        Ok(())
    );
    assert_eq!(engine.effective_pos_q(a as usize), 1_000_000);
    assert_eq!(engine.effective_pos_q(b as usize), -1_000_000);
    assert_eq!(engine.oi_eff_long_q, 1_000_000);
    assert_eq!(engine.oi_eff_short_q, 1_000_000);
    let total = |i: u16| {
        engine.accounts[i as usize].capital.get() as i128 + engine.accounts[i as usize].pnl
    };
    assert_eq!(total(a) + total(b), 2_000_000_000 - 2 * 900);
    assert_eq!(engine.vault, vault_before);
    assert!(
        engine.vault.get()
            >= engine.c_tot.get()
                + engine.insurance_fund.balance.get()
                + engine.insurance_fund.isolated_balance.get()
    );
    assert_eq!(engine.insurance_fund.balance.get(), insurance_before + 2 * 900);
}
