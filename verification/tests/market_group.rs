use percolator::v14::{
    HLockLaneV14, MarketModeV14, ProvenanceHeaderV14, SideModeV14, SideV14, V14Error,
};
use percolator::v14_market::{
    AssetStateV14, CloseProgressLedgerV14, HealthCertV14, MarketGroupV14, PortfolioAccountV14,
    PortfolioLegV14, V14Config,
};

fn config() -> V14Config {
    V14Config {
        max_portfolio_assets: 4,
        min_nonzero_mm_req: 1,
        min_nonzero_im_req: 2,
        h_min: 10,
        h_max: 500,
        maintenance_margin_bps: 10_000,
        initial_margin_bps: 10_000,
        max_trading_fee_bps: 0,
        liquidation_fee_bps: 0,
        liquidation_fee_cap: 0,
        min_liquidation_abs: 0,
        max_accrual_dt_slots: 1,
        max_abs_funding_e9_per_slot: 0,
        min_funding_lifetime_slots: 1,
        max_price_move_bps_per_slot: 10_000,
        max_account_b_settlement_chunks: 1,
        max_bankrupt_close_chunks: 1,
        public_b_chunk_atoms: 1,
        permissionless_recovery_enabled: true,
        stale_certificate_penalty_enabled: true,
        full_refresh_required_for_favorable_actions: true,
        public_liveness_profile_crank_forward: true,
    }
}

fn asset() -> AssetStateV14 {
    AssetStateV14 {
        raw_oracle_target_price: 1,
        effective_price: 1,
        fund_px_last: 1,
        slot_last: 0,
        a_long: 1_000_000,
        a_short: 1_000_000,
        k_long: 0,
        k_short: 0,
        f_long_num: 0,
        f_short_num: 0,
        k_epoch_start_long: 0,
        k_epoch_start_short: 0,
        f_epoch_start_long_num: 0,
        f_epoch_start_short_num: 0,
        b_long_num: 0,
        b_short_num: 0,
        b_epoch_start_long_num: 0,
        b_epoch_start_short_num: 0,
        oi_eff_long_q: 0,
        oi_eff_short_q: 0,
        stored_pos_count_long: 0,
        stored_pos_count_short: 0,
        stale_account_count_long: 0,
        stale_account_count_short: 0,
        loss_weight_sum_long: 0,
        loss_weight_sum_short: 0,
        social_loss_remainder_long_num: 0,
        social_loss_remainder_short_num: 0,
        social_loss_dust_long_num: 0,
        social_loss_dust_short_num: 0,
        explicit_unallocated_loss_long: 0,
        explicit_unallocated_loss_short: 0,
        epoch_long: 0,
        epoch_short: 0,
        mode_long: SideModeV14::Normal,
        mode_short: SideModeV14::Normal,
    }
}

fn group() -> MarketGroupV14 {
    MarketGroupV14 {
        market_group_id: [7; 32],
        config: config(),
        vault: 0,
        insurance: 0,
        c_tot: 0,
        pnl_pos_tot: 0,
        pnl_pos_bound_tot: 0,
        pnl_matured_pos_tot: 0,
        insurance_domain_budget: [0; 32],
        insurance_domain_spent: [0; 32],
        pending_domain_loss_barriers: [0; 32],
        materialized_portfolio_count: 0,
        stale_certificate_count: 0,
        b_stale_account_count: 0,
        negative_pnl_account_count: 0,
        risk_epoch: 0,
        oracle_epoch: 0,
        funding_epoch: 0,
        slot_last: 0,
        current_slot: 0,
        assets: [asset(); 16],
        bankruptcy_hlock_active: false,
        threshold_stress_active: false,
        active_bankrupt_close_present: false,
        loss_stale_active: false,
        recovery_reason: None,
        mode: MarketModeV14::Live,
        resolved_slot: 0,
        payout_snapshot: 0,
        payout_snapshot_pnl_pos_tot: 0,
        payout_snapshot_captured: false,
    }
}

fn leg() -> PortfolioLegV14 {
    PortfolioLegV14 {
        active: false,
        side: SideV14::Long,
        basis_pos_q: 0,
        a_basis: 1_000_000,
        k_snap: 0,
        f_snap: 0,
        epoch_snap: 0,
        loss_weight: 0,
        b_snap: 0,
        b_rem: 0,
        b_epoch_snap: 0,
        b_stale: false,
        stale: false,
    }
}

fn account() -> PortfolioAccountV14 {
    PortfolioAccountV14 {
        provenance_header: ProvenanceHeaderV14::new([7; 32], [8; 32], [9; 32]),
        owner: [9; 32],
        capital: 0,
        pnl: 0,
        reserved_pnl: 0,
        fee_credits: 0,
        last_fee_slot: 0,
        active_bitmap: 0,
        legs: [leg(); 16],
        health_cert: HealthCertV14 {
            certified_equity: 0,
            certified_initial_req: 0,
            certified_maintenance_req: 0,
            certified_liq_deficit: 0,
            certified_worst_case_loss: 0,
            cert_oracle_epoch: 0,
            cert_funding_epoch: 0,
            cert_risk_epoch: 0,
            active_bitmap_at_cert: 0,
            valid: false,
        },
        stale_state: false,
        b_stale_state: false,
        rebalance_lock: false,
        liquidation_lock: false,
        close_progress: CloseProgressLedgerV14 {
            active: false,
            finalized: false,
            close_id: 0,
            asset_index: 0,
            domain_side: SideV14::Long,
            gross_loss_at_close_start: 0,
            drift_reference_slot: 0,
            max_close_slot: 0,
            support_consumed: 0,
            junior_face_burned: 0,
            insurance_spent: 0,
            b_loss_booked: 0,
            explicit_loss_assigned: 0,
            quantity_adl_applied_q: 0,
            drift_consumed: 0,
            residual_remaining: 0,
        },
    }
}

#[test]
fn provenance_accepts_own_account_and_rejects_others() {
    let g = group();
    let a = account();
    assert_eq!(g.validate_portfolio_account_provenance(&a), Ok(()));
    let mut foreign = a;
    foreign.provenance_header.market_group_id = [1; 32];
    assert_eq!(g.validate_portfolio_account_provenance(&foreign), Err(V14Error::ProvenanceMismatch));
    let mut wrong_owner = a;
    wrong_owner.owner = [0; 32];
    assert_eq!(g.validate_portfolio_account_provenance(&wrong_owner), Err(V14Error::ProvenanceMismatch));
}

#[test]
fn h_lock_is_h_min_for_a_calm_market_and_fresh_account() {
    let g = group();
    let a = account();
    assert_eq!(g.select_h_lock(Some(&a), false), Ok(10));
    assert_eq!(g.select_h_lock(None, false), Ok(10));
    assert_eq!(g.h_lock_lane(None, false), Ok(HLockLaneV14::HMin));
}

#[test]
fn h_lock_widens_under_stress_staleness_and_barriers() {
    let mut g = group();
    let mut a = account();
    assert_eq!(g.select_h_lock(None, true), Ok(500));
    a.stale_state = true;
    assert_eq!(g.select_h_lock(Some(&a), false), Ok(500));
    a.stale_state = false;
    a.legs[2].active = true;
    a.legs[2].side = SideV14::Short;
    g.pending_domain_loss_barriers[5] = 1;
    assert_eq!(g.pending_domain_loss_barrier_count(2, SideV14::Short), Ok(1));
    assert_eq!(g.select_h_lock(Some(&a), false), Ok(500));
    g.pending_domain_loss_barriers[5] = 0;
    g.threshold_stress_active = true;
    assert_eq!(g.select_h_lock(Some(&a), false), Ok(500));
    assert_eq!(g.pending_domain_loss_barrier_count(9, SideV14::Long), Err(V14Error::InvalidLeg));
}

#[test]
fn h_lock_rejects_foreign_account() {
    let g = group();
    let mut a = account();
    a.provenance_header.version = 2;
    assert_eq!(g.select_h_lock(Some(&a), false), Err(V14Error::ProvenanceMismatch));
}
