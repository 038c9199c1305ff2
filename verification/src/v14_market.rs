//! Account-local market group: portfolio accounts, per-asset state, and the
//! selection of the H-lock horizon from an account's and the market's state.
use vstd::prelude::*;
use crate::v14::{
    HLockLaneV14, MarketModeV14, PermissionlessRecoveryReasonV14, ProvenanceHeaderV14, SideModeV14,
    SideV14, V14Error, V14Result, V14_ACCOUNT_VERSION, V14_DOMAIN_COUNT, V14_LAYOUT_DISCRIMINATOR,
    V14_MAX_PORTFOLIO_ASSETS_N,
};

verus! {

/// One asset leg of a portfolio account.
#[derive(Clone, Copy, Debug, PartialEq, Eq, Structural)]
pub struct PortfolioLegV14 {
    pub active: bool,
    pub side: SideV14,
    pub basis_pos_q: i128,
    pub a_basis: u128,
    pub k_snap: i128,
    pub f_snap: i128,
    pub epoch_snap: u64,
    pub loss_weight: u128,
    pub b_snap: u128,
    pub b_rem: u128,
    pub b_epoch_snap: u64,
    pub b_stale: bool,
    pub stale: bool,
}

/// The last certified health of a portfolio account.
#[derive(Clone, Copy, Debug, PartialEq, Eq, Structural)]
pub struct HealthCertV14 {
    pub certified_equity: i128,
    pub certified_initial_req: u128,
    pub certified_maintenance_req: u128,
    pub certified_liq_deficit: u128,
    pub certified_worst_case_loss: u128,
    pub cert_oracle_epoch: u64,
    pub cert_funding_epoch: u64,
    pub cert_risk_epoch: u64,
    pub active_bitmap_at_cert: u32,
    pub valid: bool,
}

/// Progress of a bankrupt close of one asset leg.
#[derive(Clone, Copy, Debug, PartialEq, Eq, Structural)]
pub struct CloseProgressLedgerV14 {
    pub active: bool,
    pub finalized: bool,
    pub close_id: u64,
    pub asset_index: u8,
    pub domain_side: SideV14,
    pub gross_loss_at_close_start: u128,
    pub drift_reference_slot: u64,
    pub max_close_slot: u64,
    pub support_consumed: u128,
    pub junior_face_burned: u128,
    pub insurance_spent: u128,
    pub b_loss_booked: u128,
    pub explicit_loss_assigned: u128,
    pub quantity_adl_applied_q: u128,
    pub drift_consumed: u128,
    pub residual_remaining: u128,
}

impl CloseProgressLedgerV14 {
    /// An active, unfinalized close with loss still to book.
    pub open spec fn pending_residual(self) -> bool {
        self.active && !self.finalized && self.residual_remaining != 0
    }

    /// Whether the close still has residual loss to book.
    pub fn has_pending_residual(self) -> (r: bool)
        ensures
            r == self.pending_residual(),
    {
        self.active && !self.finalized && self.residual_remaining != 0
    }
}

/// A portfolio account of the account-local engine.
#[derive(Clone, Copy, Debug, PartialEq, Eq)]
pub struct PortfolioAccountV14 {
    pub provenance_header: ProvenanceHeaderV14,
    pub owner: [u8; 32],
    pub capital: u128,
    pub pnl: i128,
    pub reserved_pnl: u128,
    pub fee_credits: i128,
    pub last_fee_slot: u64,
    pub active_bitmap: u32,
    pub legs: [PortfolioLegV14; 16],
    pub health_cert: HealthCertV14,
    pub stale_state: bool,
    pub b_stale_state: bool,
    pub rebalance_lock: bool,
    pub liquidation_lock: bool,
    pub close_progress: CloseProgressLedgerV14,
}

/// Configuration of a market group.
#[derive(Clone, Copy, Debug, PartialEq, Eq, Structural)]
pub struct V14Config {
    pub max_portfolio_assets: u8,
    pub min_nonzero_mm_req: u128,
    pub min_nonzero_im_req: u128,
    pub h_min: u64,
    pub h_max: u64,
    pub maintenance_margin_bps: u64,
    pub initial_margin_bps: u64,
    pub max_trading_fee_bps: u64,
    pub liquidation_fee_bps: u64,
    pub liquidation_fee_cap: u128,
    pub min_liquidation_abs: u128,
    pub max_accrual_dt_slots: u64,
    pub max_abs_funding_e9_per_slot: u64,
    pub min_funding_lifetime_slots: u64,
    pub max_price_move_bps_per_slot: u64,
    pub max_account_b_settlement_chunks: u64,
    pub max_bankrupt_close_chunks: u64,
    pub public_b_chunk_atoms: u128,
    pub permissionless_recovery_enabled: bool,
    pub stale_certificate_penalty_enabled: bool,
    pub full_refresh_required_for_favorable_actions: bool,
    pub public_liveness_profile_crank_forward: bool,
}

/// Per-asset state of a market group.
#[derive(Clone, Copy, Debug, PartialEq, Eq, Structural)]
pub struct AssetStateV14 {
    pub raw_oracle_target_price: u64,
    pub effective_price: u64,
    pub fund_px_last: u64,
    pub slot_last: u64,
    pub a_long: u128,
    pub a_short: u128,
    pub k_long: i128,
    pub k_short: i128,
    pub f_long_num: i128,
    pub f_short_num: i128,
    pub k_epoch_start_long: i128,
    pub k_epoch_start_short: i128,
    pub f_epoch_start_long_num: i128,
    pub f_epoch_start_short_num: i128,
    pub b_long_num: u128,
    pub b_short_num: u128,
    pub b_epoch_start_long_num: u128,
    pub b_epoch_start_short_num: u128,
    pub oi_eff_long_q: u128,
    pub oi_eff_short_q: u128,
    pub stored_pos_count_long: u64,
    pub stored_pos_count_short: u64,
    pub stale_account_count_long: u64,
    pub stale_account_count_short: u64,
    pub loss_weight_sum_long: u128,
    pub loss_weight_sum_short: u128,
    pub social_loss_remainder_long_num: u128,
    pub social_loss_remainder_short_num: u128,
    pub social_loss_dust_long_num: u128,
    pub social_loss_dust_short_num: u128,
    pub explicit_unallocated_loss_long: u128,
    pub explicit_unallocated_loss_short: u128,
    pub epoch_long: u64,
    pub epoch_short: u64,
    pub mode_long: SideModeV14,
    pub mode_short: SideModeV14,
}

/// A market group: shared balances, insurance domains, assets and stress flags.
#[derive(Clone, Copy, Debug, PartialEq, Eq)]
pub struct MarketGroupV14 {
    pub market_group_id: [u8; 32],
    pub config: V14Config,
    pub vault: u128,
    pub insurance: u128,
    pub c_tot: u128,
    pub pnl_pos_tot: u128,
    pub pnl_pos_bound_tot: u128,
    pub pnl_matured_pos_tot: u128,
    pub insurance_domain_budget: [u128; 32],
    pub insurance_domain_spent: [u128; 32],
    pub pending_domain_loss_barriers: [u64; 32],
    pub materialized_portfolio_count: u64,
    pub stale_certificate_count: u64,
    pub b_stale_account_count: u64,
    pub negative_pnl_account_count: u64,
    pub risk_epoch: u64,
    pub oracle_epoch: u64,
    pub funding_epoch: u64,
    pub slot_last: u64,
    pub current_slot: u64,
    pub assets: [AssetStateV14; 16],
    pub bankruptcy_hlock_active: bool,
    pub threshold_stress_active: bool,
    pub active_bankrupt_close_present: bool,
    pub loss_stale_active: bool,
    pub recovery_reason: Option<PermissionlessRecoveryReasonV14>,
    pub mode: MarketModeV14,
    pub resolved_slot: u64,
    pub payout_snapshot: u128,
    pub payout_snapshot_pnl_pos_tot: u128,
    pub payout_snapshot_captured: bool,
}

/// Wire code of a side: long 0, short 1.
pub open spec fn side_code(s: SideV14) -> int {
    match s {
        SideV14::Long => 0,
        SideV14::Short => 1,
    }
}

/// The account's header names this market group, its owner, and the
/// current version and layout.
pub open spec fn provenance_ok(g: MarketGroupV14, a: PortfolioAccountV14) -> bool {
    &&& a.provenance_header.market_group_id@ == g.market_group_id@
    &&& a.provenance_header.owner@ == a.owner@
    &&& a.provenance_header.version == V14_ACCOUNT_VERSION
    &&& a.provenance_header.layout_discriminator == V14_LAYOUT_DISCRIMINATOR
}

/// Some active leg of the account, among the group's configured assets, sits
/// on an insurance domain with a pending loss barrier.
pub open spec fn touches_barrier(g: MarketGroupV14, a: PortfolioAccountV14) -> bool {
    exists|i: int|
        0 <= i < g.config.max_portfolio_assets && i < V14_MAX_PORTFOLIO_ASSETS_N && #[trigger] a.legs@[i].active
            && g.pending_domain_loss_barriers@[2 * i + side_code(a.legs@[i].side)] != 0
}

/// The wide horizon H_max applies: the account (if any) is stale, B-stale,
/// has a pending close residual or touches a loss barrier, or the market is
/// under stress, bankruptcy H-lock, loss staleness or an active bankrupt close,
/// or the instruction is itself a bankruptcy candidate.
pub open spec fn hmax_condition(g: MarketGroupV14, account: Option<PortfolioAccountV14>, ibc: bool) -> bool {
    ||| (account matches Some(a) && (a.stale_state || a.b_stale_state
        || a.close_progress.pending_residual() || touches_barrier(g, a)))
    ||| g.threshold_stress_active
    ||| g.bankruptcy_hlock_active
    ||| ibc
    ||| g.loss_stale_active
    ||| g.active_bankrupt_close_present
}

fn bytes32_eq(a: &[u8; 32], b: &[u8; 32]) -> (r: bool)
    ensures
        r == (a@ == b@),
{
    let mut i: usize = 0;
    while i < 32
        invariant
            i <= 32,
            a@.len() == 32,
            b@.len() == 32,
            forall|j: int| 0 <= j < i ==> a@[j] == b@[j],
        decreases 32 - i,
    {
        if a[i] != b[i] {
            return false;
        }
        i = i + 1;
    }
    proof {
        assert(a@ =~= b@);
    }
    true
}

impl MarketGroupV14 {
    /// Checks that `account` belongs to this market group and has the current
    /// layout; `ProvenanceMismatch` otherwise.
    pub fn validate_portfolio_account_provenance(&self, account: &PortfolioAccountV14) -> (r:
        V14Result<()>)
        ensures
            r == (if provenance_ok(*self, *account) {
                Ok::<(), V14Error>(())
            } else {
                Err(V14Error::ProvenanceMismatch)
            }),
    {
        let h = account.provenance_header;
        if !bytes32_eq(&h.market_group_id, &self.market_group_id) || !bytes32_eq(
            &h.owner,
            &account.owner,
        ) || h.version != V14_ACCOUNT_VERSION || h.layout_discriminator
            != V14_LAYOUT_DISCRIMINATOR {
            return Err(V14Error::ProvenanceMismatch);
        }
        Ok(())
    }

    /// Number of pending loss barriers on the insurance domain of
    /// (`asset_index`, `side`); `InvalidLeg` for an asset outside the group.
    pub fn pending_domain_loss_barrier_count(&self, asset_index: usize, side: SideV14) -> (r:
        V14Result<u64>)
        ensures
            asset_index >= self.config.max_portfolio_assets || asset_index * 2 + side_code(side)
                >= V14_DOMAIN_COUNT ==> r == Err::<u64, V14Error>(V14Error::InvalidLeg),
            asset_index < self.config.max_portfolio_assets && asset_index * 2 + side_code(side)
                < V14_DOMAIN_COUNT ==> r == Ok::<u64, V14Error>(
                self.pending_domain_loss_barriers@[asset_index * 2 + side_code(side)],
            ),
    {
        if asset_index >= self.config.max_portfolio_assets as usize {
            return Err(V14Error::InvalidLeg);
        }
        let code: usize = match side {
            SideV14::Long => 0,
            SideV14::Short => 1,
        };
        let domain = asset_index * 2 + code;
        if domain >= V14_DOMAIN_COUNT {
            return Err(V14Error::InvalidLeg);
        }
        Ok(self.pending_domain_loss_barriers[domain])
    }

    fn account_touches_pending_domain_loss_barrier(&self, account: &PortfolioAccountV14) -> (r: bool)
        ensures
            r == touches_barrier(*self, *account),
    {
        let limit: usize = if (self.config.max_portfolio_assets as usize) < V14_MAX_PORTFOLIO_ASSETS_N {
            self.config.max_portfolio_assets as usize
        } else {
            V14_MAX_PORTFOLIO_ASSETS_N
        };
        let mut i: usize = 0;
        while i < limit
            invariant
                i <= limit,
                limit <= V14_MAX_PORTFOLIO_ASSETS_N,
                limit <= self.config.max_portfolio_assets,
                limit == self.config.max_portfolio_assets || limit == V14_MAX_PORTFOLIO_ASSETS_N,
                forall|j: int|
                    0 <= j < i ==> !(#[trigger] account.legs@[j].active
                        && self.pending_domain_loss_barriers@[2 * j + side_code(account.legs@[j].side)]
                        != 0),
            decreases limit - i,
        {
            let leg = account.legs[i];
            if leg.active {
                match self.pending_domain_loss_barrier_count(i, leg.side) {
                    Ok(n) => {
                        if n != 0 {
                            proof {
                                assert(account.legs@[i as int].active);
                            }
                            return true;
                        }
                    },
                    Err(_) => {},
                }
            }
            i = i + 1;
        }
        false
    }

    /// The H-lock lane for an instruction: `HMax` when the wide horizon
    /// applies (see `hmax_condition`), else `HMin`; a given account must pass
    /// the provenance check.
    pub fn h_lock_lane(&self, account: Option<&PortfolioAccountV14>, instruction_bankruptcy_candidate: bool) -> (r:
        V14Result<HLockLaneV14>)
        ensures
            (account matches Some(a) && !provenance_ok(*self, *a)) ==> r == Err::<
                HLockLaneV14,
                V14Error,
            >(V14Error::ProvenanceMismatch),
            !(account matches Some(a) && !provenance_ok(*self, *a)) ==> r == Ok::<
                HLockLaneV14,
                V14Error,
            >(
                if hmax_condition(
                    *self,
                    match account {
                        Some(a) => Some(*a),
                        None => None,
                    },
                    instruction_bankruptcy_candidate,
                ) {
                    HLockLaneV14::HMax
                } else {
                    HLockLaneV14::HMin
                },
            ),
    {
        match account {
            Some(a) => {
                match self.validate_portfolio_account_provenance(a) {
                    Ok(()) => {},
                    Err(e) => {
                        return Err(e);
                    },
                }
                if a.stale_state || a.b_stale_state {
                    return Ok(HLockLaneV14::HMax);
                }
                if a.close_progress.has_pending_residual() {
                    return Ok(HLockLaneV14::HMax);
                }
                if self.account_touches_pending_domain_loss_barrier(a) {
                    return Ok(HLockLaneV14::HMax);
                }
            },
            None => {},
        }
        if self.threshold_stress_active || self.bankruptcy_hlock_active
            || instruction_bankruptcy_candidate || self.loss_stale_active
            || self.active_bankrupt_close_present {
            return Ok(HLockLaneV14::HMax);
        }
        Ok(HLockLaneV14::HMin)
    }

    /// The H-lock horizon: `h_max` when the wide horizon applies, else `h_min`.
    pub fn select_h_lock(&self, account: Option<&PortfolioAccountV14>, instruction_bankruptcy_candidate: bool) -> (r:
        V14Result<u64>)
        ensures
            (account matches Some(a) && !provenance_ok(*self, *a)) ==> r == Err::<u64, V14Error>(
                V14Error::ProvenanceMismatch,
            ),
            !(account matches Some(a) && !provenance_ok(*self, *a)) ==> r == Ok::<u64, V14Error>(
                if hmax_condition(
                    *self,
                    match account {
                        Some(a) => Some(*a),
                        None => None,
                    },
                    instruction_bankruptcy_candidate,
                ) {
                    self.config.h_max
                } else {
                    self.config.h_min
                },
            ),
    {
        match self.h_lock_lane(account, instruction_bankruptcy_candidate) {
            Ok(HLockLaneV14::HMin) => Ok(self.config.h_min),
            Ok(HLockLaneV14::HMax) => Ok(self.config.h_max),
            Err(e) => Err(e),
        }
    }
}

} // verus!
