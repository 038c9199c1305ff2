//! The engine state, its well-formedness, construction and the slot bitmap.
use vstd::prelude::*;
use crate::num::{I128, U128};
use crate::engine::types::{
    
    empty_account, is_empty_account, Account, InsuranceFund, RiskParams, SideMode, ADL_ONE,
    BITMAP_WORDS, MAX_ACCOUNTS, MAX_MAINTENANCE_FEE_PER_SLOT, MAX_ORACLE_PRICE,
    MAX_PROTOCOL_FEE_ABS, MAX_VAULT_TVL,
};

verus! {

/// Main risk engine state.
#[derive(Clone, Debug, PartialEq, Eq)]
pub struct RiskEngine {
    pub vault: U128,
    pub insurance_fund: InsuranceFund,
    pub params: RiskParams,
    pub current_slot: u64,
    /// Funding rate stored for the next interval.
    pub funding_rate_bps_per_slot_last: i64,
    pub last_crank_slot: u64,
    pub max_crank_staleness_slots: u64,
    pub c_tot: U128,
    pub pnl_pos_tot: u128,
    pub pnl_matured_pos_tot: u128,
    pub liq_cursor: u16,
    pub gc_cursor: u16,
    pub last_full_sweep_start_slot: u64,
    pub last_full_sweep_completed_slot: u64,
    pub crank_cursor: u16,
    pub sweep_start_idx: u16,
    pub lifetime_liquidations: u64,
    pub adl_mult_long: u128,
    pub adl_mult_short: u128,
    pub adl_coeff_long: i128,
    pub adl_coeff_short: i128,
    pub adl_epoch_long: u64,
    pub adl_epoch_short: u64,
    pub adl_epoch_start_k_long: i128,
    pub adl_epoch_start_k_short: i128,
    pub oi_eff_long_q: u128,
    pub oi_eff_short_q: u128,
    pub side_mode_long: SideMode,
    pub side_mode_short: SideMode,
    pub stored_pos_count_long: u64,
    pub stored_pos_count_short: u64,
    pub stale_account_count_long: u64,
    pub stale_account_count_short: u64,
    pub phantom_dust_bound_long_q: u128,
    pub phantom_dust_bound_short_q: u128,
    pub materialized_account_count: u64,
    pub last_oracle_price: u64,
    pub last_market_slot: u64,
    pub funding_price_sample_last: u64,
    pub total_open_interest: U128,
    pub long_oi: U128,
    pub short_oi: U128,
    pub net_lp_pos: I128,
    pub lp_sum_abs: U128,
    pub lp_max_abs: U128,
    pub lp_max_abs_sweep: U128,
    pub mark_price_e6: u64,
    pub funding_index_qpb_e6: i64,
    pub last_funding_slot: u64,
    pub funding_frozen: bool,
    pub funding_frozen_rate_snapshot: i64,
    pub emergency_oi_mode: u8,
    pub emergency_start_slot: u64,
    pub last_breaker_slot: u64,
    pub trade_twap_e6: u64,
    pub twap_last_slot: u64,
    pub lifetime_force_realize_closes: u64,
    pub used: Vec<u64>,
    pub num_used_accounts: u16,
    pub next_account_id: u64,
    pub free_head: u16,
    pub next_free: Vec<u16>,
    pub accounts: Vec<Account>,
}

/// Mathematical view of the engine: the slab vectors become sequences.
pub struct EngineModel {
    pub vault: U128,
    pub insurance_fund: InsuranceFund,
    pub params: RiskParams,
    pub current_slot: u64,
    pub funding_rate_bps_per_slot_last: i64,
    pub last_crank_slot: u64,
    pub max_crank_staleness_slots: u64,
    pub c_tot: U128,
    pub pnl_pos_tot: u128,
    pub pnl_matured_pos_tot: u128,
    pub liq_cursor: u16,
    pub gc_cursor: u16,
    pub last_full_sweep_start_slot: u64,
    pub last_full_sweep_completed_slot: u64,
    pub crank_cursor: u16,
    pub sweep_start_idx: u16,
    pub lifetime_liquidations: u64,
    pub adl_mult_long: u128,
    pub adl_mult_short: u128,
    pub adl_coeff_long: i128,
    pub adl_coeff_short: i128,
    pub adl_epoch_long: u64,
    pub adl_epoch_short: u64,
    pub adl_epoch_start_k_long: i128,
    pub adl_epoch_start_k_short: i128,
    pub oi_eff_long_q: u128,
    pub oi_eff_short_q: u128,
    pub side_mode_long: SideMode,
    pub side_mode_short: SideMode,
    pub stored_pos_count_long: u64,
    pub stored_pos_count_short: u64,
    pub stale_account_count_long: u64,
    pub stale_account_count_short: u64,
    pub phantom_dust_bound_long_q: u128,
    pub phantom_dust_bound_short_q: u128,
    pub materialized_account_count: u64,
    pub last_oracle_price: u64,
    pub last_market_slot: u64,
    pub funding_price_sample_last: u64,
    pub total_open_interest: U128,
    pub long_oi: U128,
    pub short_oi: U128,
    pub net_lp_pos: I128,
    pub lp_sum_abs: U128,
    pub lp_max_abs: U128,
    pub lp_max_abs_sweep: U128,
    pub mark_price_e6: u64,
    pub funding_index_qpb_e6: i64,
    pub last_funding_slot: u64,
    pub funding_frozen: bool,
    pub funding_frozen_rate_snapshot: i64,
    pub emergency_oi_mode: u8,
    pub emergency_start_slot: u64,
    pub last_breaker_slot: u64,
    pub trade_twap_e6: u64,
    pub twap_last_slot: u64,
    pub lifetime_force_realize_closes: u64,
    pub used: Seq<u64>,
    pub num_used_accounts: u16,
    pub next_account_id: u64,
    pub free_head: u16,
    pub next_free: Seq<u16>,
    pub accounts: Seq<Account>,
}

impl EngineModel {
    pub open spec fn wf(self) -> bool {
        &&& self.accounts.len() == MAX_ACCOUNTS
        &&& self.next_free.len() == MAX_ACCOUNTS
        &&& self.used.len() == BITMAP_WORDS
        &&& link_ok(self.free_head)
        &&& forall|i: int| 0 <= i < MAX_ACCOUNTS ==> link_ok(#[trigger] self.next_free[i])
        &&& self.params.max_accounts <= MAX_ACCOUNTS
        &&& self.crank_cursor < MAX_ACCOUNTS
    }

    pub open spec fn is_used(self, i: int) -> bool {
        used_bit(self.used, i)
    }
}

impl View for RiskEngine {
    type V = EngineModel;

    open spec fn view(&self) -> EngineModel {
        EngineModel {
            vault: self.vault,
            insurance_fund: self.insurance_fund,
            params: self.params,
            current_slot: self.current_slot,
            funding_rate_bps_per_slot_last: self.funding_rate_bps_per_slot_last,
            last_crank_slot: self.last_crank_slot,
            max_crank_staleness_slots: self.max_crank_staleness_slots,
            c_tot: self.c_tot,
            pnl_pos_tot: self.pnl_pos_tot,
            pnl_matured_pos_tot: self.pnl_matured_pos_tot,
            liq_cursor: self.liq_cursor,
            gc_cursor: self.gc_cursor,
            last_full_sweep_start_slot: self.last_full_sweep_start_slot,
            last_full_sweep_completed_slot: self.last_full_sweep_completed_slot,
            crank_cursor: self.crank_cursor,
            sweep_start_idx: self.sweep_start_idx,
            lifetime_liquidations: self.lifetime_liquidations,
            adl_mult_long: self.adl_mult_long,
            adl_mult_short: self.adl_mult_short,
            adl_coeff_long: self.adl_coeff_long,
            adl_coeff_short: self.adl_coeff_short,
            adl_epoch_long: self.adl_epoch_long,
            adl_epoch_short: self.adl_epoch_short,
            adl_epoch_start_k_long: self.adl_epoch_start_k_long,
            adl_epoch_start_k_short: self.adl_epoch_start_k_short,
            oi_eff_long_q: self.oi_eff_long_q,
            oi_eff_short_q: self.oi_eff_short_q,
            side_mode_long: self.side_mode_long,
            side_mode_short: self.side_mode_short,
            stored_pos_count_long: self.stored_pos_count_long,
            stored_pos_count_short: self.stored_pos_count_short,
            stale_account_count_long: self.stale_account_count_long,
            stale_account_count_short: self.stale_account_count_short,
            phantom_dust_bound_long_q: self.phantom_dust_bound_long_q,
            phantom_dust_bound_short_q: self.phantom_dust_bound_short_q,
            materialized_account_count: self.materialized_account_count,
            last_oracle_price: self.last_oracle_price,
            last_market_slot: self.last_market_slot,
            funding_price_sample_last: self.funding_price_sample_last,
            total_open_interest: self.total_open_interest,
            long_oi: self.long_oi,
            short_oi: self.short_oi,
            net_lp_pos: self.net_lp_pos,
            lp_sum_abs: self.lp_sum_abs,
            lp_max_abs: self.lp_max_abs,
            lp_max_abs_sweep: self.lp_max_abs_sweep,
            mark_price_e6: self.mark_price_e6,
            funding_index_qpb_e6: self.funding_index_qpb_e6,
            last_funding_slot: self.last_funding_slot,
            funding_frozen: self.funding_frozen,
            funding_frozen_rate_snapshot: self.funding_frozen_rate_snapshot,
            emergency_oi_mode: self.emergency_oi_mode,
            emergency_start_slot: self.emergency_start_slot,
            last_breaker_slot: self.last_breaker_slot,
            trade_twap_e6: self.trade_twap_e6,
            twap_last_slot: self.twap_last_slot,
            lifetime_force_realize_closes: self.lifetime_force_realize_closes,
            used: self.used@,
            num_used_accounts: self.num_used_accounts,
            next_account_id: self.next_account_id,
            free_head: self.free_head,
            next_free: self.next_free@,
            accounts: self.accounts@,
        }
    }
}

/// Parameter bounds that construction relies on.
pub open spec fn spec_engine_params_ok(p: RiskParams) -> bool {
    &&& p.max_accounts <= MAX_ACCOUNTS && p.max_accounts > 0
    &&& p.maintenance_margin_bps <= p.initial_margin_bps
    &&& p.initial_margin_bps <= 10_000
    &&& p.trading_fee_bps <= 10_000
    &&& p.liquidation_fee_bps <= 10_000
    &&& p.min_nonzero_mm_req > 0
    &&& p.min_nonzero_mm_req < p.min_nonzero_im_req
    &&& p.min_nonzero_im_req <= p.min_initial_deposit.0
    &&& p.min_initial_deposit.0 > 0
    &&& p.min_initial_deposit.0 <= MAX_VAULT_TVL
    &&& p.min_liquidation_abs.0 <= p.liquidation_fee_cap.0
    &&& p.liquidation_fee_cap.0 <= MAX_PROTOCOL_FEE_ABS
    &&& p.maintenance_fee_per_slot.0 <= MAX_MAINTENANCE_FEE_PER_SLOT
    &&& p.insurance_floor.0 <= MAX_VAULT_TVL
}

/// A free-list link: a slot index or the end marker.
pub open spec fn link_ok(l: u16) -> bool {
    l == u16::MAX || l < MAX_ACCOUNTS
}

/// Slot `i` is marked used in the bitmap `u`.
pub open spec fn used_bit(u: Seq<u64>, i: int) -> bool {
    0 <= i < MAX_ACCOUNTS && bit_set(u[i / 64], i % 64)
}

pub open spec fn bit_set(w: u64, b: int) -> bool {
    ((w >> (b as u64)) & 1u64) == 1u64
}

impl RiskEngine {
    /// Shape of the slab: one account, one free-list link, one bitmap word each, and a crank cursor inside the slab.
    pub open spec fn wf(&self) -> bool {
        self@.wf()
    }

    pub open spec fn acct(&self, i: int) -> Account {
        self.accounts@[i]
    }

    pub open spec fn spec_is_used(&self, i: int) -> bool {
        used_bit(self.used@, i)
    }

    /// The state of a fresh engine: every slot free and chained in index
    /// order, every balance, aggregate, counter and cursor zero, both sides
    /// normal with unit A, anchored at `init_slot` and `init_oracle_price`.
    pub open spec fn is_fresh(r: RiskEngine, params: RiskParams, init_slot: u64, init_oracle_price: u64) -> bool {
        &&& r.params == params
        &&& r.current_slot == init_slot
        &&& r.last_market_slot == init_slot
        &&& r.last_funding_slot == init_slot
        &&& r.last_oracle_price == init_oracle_price
        &&& r.funding_price_sample_last == init_oracle_price
        &&& r.max_crank_staleness_slots == params.max_crank_staleness_slots
        &&& r.vault == U128(0)
        &&& r.c_tot == U128(0)
        &&& r.insurance_fund.balance == U128(0)
        &&& r.insurance_fund.fee_revenue == U128(0)
        &&& r.insurance_fund.isolated_balance == U128(0)
        &&& r.insurance_fund.balance_incentive_reserve == 0
        &&& r.insurance_fund.insurance_isolation_bps == 0
        &&& r.pnl_pos_tot == 0
        &&& r.pnl_matured_pos_tot == 0
        &&& r.liq_cursor == 0
        &&& r.gc_cursor == 0
        &&& r.last_full_sweep_start_slot == 0
        &&& r.last_full_sweep_completed_slot == 0
        &&& r.crank_cursor == 0
        &&& r.sweep_start_idx == 0
        &&& r.lifetime_liquidations == 0
        &&& r.adl_mult_long == ADL_ONE
        &&& r.adl_mult_short == ADL_ONE
        &&& r.adl_coeff_long == 0
        &&& r.adl_coeff_short == 0
        &&& r.adl_epoch_long == 0
        &&& r.adl_epoch_short == 0
        &&& r.adl_epoch_start_k_long == 0
        &&& r.adl_epoch_start_k_short == 0
        &&& r.oi_eff_long_q == 0
        &&& r.oi_eff_short_q == 0
        &&& r.side_mode_long == SideMode::Normal
        &&& r.side_mode_short == SideMode::Normal
        &&& r.stored_pos_count_long == 0
        &&& r.stored_pos_count_short == 0
        &&& r.stale_account_count_long == 0
        &&& r.stale_account_count_short == 0
        &&& r.phantom_dust_bound_long_q == 0
        &&& r.phantom_dust_bound_short_q == 0
        &&& r.materialized_account_count == 0
        &&& r.total_open_interest == U128(0)
        &&& r.long_oi == U128(0)
        &&& r.short_oi == U128(0)
        &&& r.net_lp_pos == I128(0)
        &&& r.lp_sum_abs == U128(0)
        &&& r.lp_max_abs == U128(0)
        &&& r.lp_max_abs_sweep == U128(0)
        &&& r.mark_price_e6 == 0
        &&& r.funding_index_qpb_e6 == 0
        &&& r.funding_rate_bps_per_slot_last == 0
        &&& r.last_crank_slot == 0
        &&& !r.funding_frozen
        &&& r.funding_frozen_rate_snapshot == 0
        &&& r.emergency_oi_mode == 0
        &&& r.emergency_start_slot == 0
        &&& r.last_breaker_slot == 0
        &&& r.trade_twap_e6 == 0
        &&& r.twap_last_slot == 0
        &&& r.lifetime_force_realize_closes == 0
        &&& r.num_used_accounts == 0
        &&& r.next_account_id == 0
        &&& r.free_head == 0
        &&& forall|i: int| 0 <= i < MAX_ACCOUNTS - 1 ==> r.next_free@[i] == i + 1
        &&& r.next_free@[MAX_ACCOUNTS - 1] == u16::MAX
        &&& forall|i: int| 0 <= i < MAX_ACCOUNTS ==> !r.spec_is_used(i)
        &&& forall|i: int| 0 <= i < MAX_ACCOUNTS ==> is_empty_account(#[trigger] r.acct(i))
    }

    /// A fresh engine for tests: slot 0, oracle price 1.
    pub fn new(params: RiskParams) -> (r: Self)
        requires
            spec_engine_params_ok(params),
        ensures
            r.wf(),
            Self::is_fresh(r, params, 0, 1),
    {
        Self::new_with_market(params, 0, 1)
    }

    /// A fresh engine anchored at `init_slot` and `init_oracle_price`.
    pub fn new_with_market(params: RiskParams, init_slot: u64, init_oracle_price: u64) -> (r: Self)
        requires
            spec_engine_params_ok(params),
            0 < init_oracle_price <= MAX_ORACLE_PRICE,
        ensures
            r.wf(),
            Self::is_fresh(r, params, init_slot, init_oracle_price),
    {
        let mut accounts: Vec<Account> = Vec::new();
        let mut next_free: Vec<u16> = Vec::new();
        let mut i: usize = 0;
        while i < MAX_ACCOUNTS
            invariant
                i <= MAX_ACCOUNTS,
                accounts@.len() == i,
                next_free@.len() == i,
                forall|j: int| 0 <= j < i ==> is_empty_account(#[trigger] accounts@[j]),
                forall|j: int| 0 <= j < i ==> (#[trigger] next_free@[j]) == (if j
                    == MAX_ACCOUNTS - 1 {
                    u16::MAX as int
                } else {
                    j + 1
                }),
            decreases MAX_ACCOUNTS - i,
        {
            accounts.push(empty_account());
            if i == MAX_ACCOUNTS - 1 {
                next_free.push(u16::MAX);
            } else {
                next_free.push((i + 1) as u16);
            }
            i = i + 1;
        }
        let mut used: Vec<u64> = Vec::new();
        used.push(0u64);
        let r = RiskEngine {
            vault: U128(0),
            insurance_fund: InsuranceFund {
                balance: U128(0),
                fee_revenue: U128(0),
                balance_incentive_reserve: 0,
                _rebate_pad: [0u8; 8],
                isolated_balance: U128(0),
                insurance_isolation_bps: 0,
                _isolation_padding: [0u8; 14],
            },
            params,
            current_slot: init_slot,
            funding_rate_bps_per_slot_last: 0,
            last_crank_slot: 0,
            max_crank_staleness_slots: params.max_crank_staleness_slots,
            c_tot: U128(0),
            pnl_pos_tot: 0,
            pnl_matured_pos_tot: 0,
            liq_cursor: 0,
            gc_cursor: 0,
            last_full_sweep_start_slot: 0,
            last_full_sweep_completed_slot: 0,
            crank_cursor: 0,
            sweep_start_idx: 0,
            lifetime_liquidations: 0,
            adl_mult_long: ADL_ONE,
            adl_mult_short: ADL_ONE,
            adl_coeff_long: 0,
            adl_coeff_short: 0,
            adl_epoch_long: 0,
            adl_epoch_short: 0,
            adl_epoch_start_k_long: 0,
            adl_epoch_start_k_short: 0,
            oi_eff_long_q: 0,
            oi_eff_short_q: 0,
            side_mode_long: SideMode::Normal,
            side_mode_short: SideMode::Normal,
            stored_pos_count_long: 0,
            stored_pos_count_short: 0,
            stale_account_count_long: 0,
            stale_account_count_short: 0,
            phantom_dust_bound_long_q: 0,
            phantom_dust_bound_short_q: 0,
            materialized_account_count: 0,
            last_oracle_price: init_oracle_price,
            last_market_slot: init_slot,
            funding_price_sample_last: init_oracle_price,
            total_open_interest: U128(0),
            long_oi: U128(0),
            short_oi: U128(0),
            net_lp_pos: I128(0),
            lp_sum_abs: U128(0),
            lp_max_abs: U128(0),
            lp_max_abs_sweep: U128(0),
            mark_price_e6: 0,
            funding_index_qpb_e6: 0,
            last_funding_slot: init_slot,
            funding_frozen: false,
            funding_frozen_rate_snapshot: 0,
            emergency_oi_mode: 0,
            emergency_start_slot: 0,
            last_breaker_slot: 0,
            trade_twap_e6: 0,
            twap_last_slot: 0,
            lifetime_force_realize_closes: 0,
            used,
            num_used_accounts: 0,
            next_account_id: 0,
            free_head: 0,
            next_free,
            accounts,
        };
        proof {
            assert forall|i: int| 0 <= i < MAX_ACCOUNTS implies !r.spec_is_used(i) by {
                let b = i % 64;
                assert(i / 64 == 0);
                lemma_zero_word_bits(b as u64);
            }
        }
        r
    }

    /// Whether slot `idx` holds an account.
    pub fn is_used(&self, idx: usize) -> (r: bool)
        requires
            self.wf(),
        ensures
            r == self.spec_is_used(idx as int),
    {
        if idx >= MAX_ACCOUNTS {
            return false;
        }
        let w = idx >> 6;
        let b = idx & 63;
        proof {
            lemma_index_split(idx);
        }
        ((self.used[w] >> (b as u64)) & 1) == 1
    }

    pub(crate) fn set_used(&mut self, idx: usize)
        requires
            old(self).wf(),
            idx < MAX_ACCOUNTS,
        ensures
            final(self).wf(),
            final(self)@ == (EngineModel { used: final(self)@.used, ..old(self)@ }),
            final(self)@.used == old(self)@.used.update(0, old(self)@.used[0] | (1u64 << (idx as u64))),
            forall|j: int|
                0 <= j < MAX_ACCOUNTS ==> #[trigger] used_bit(final(self).used@, j) == (j == idx
                    || used_bit(old(self).used@, j)),
    {
        let w = idx >> 6;
        let b = idx & 63;
        proof {
            lemma_index_split(idx);
        }
        let old_w = self.used[w];
        let new_w = old_w | (1u64 << (b as u64));
        self.used.set(w, new_w);
        proof {
            assert forall|j: int| 0 <= j < MAX_ACCOUNTS implies #[trigger] used_bit(self.used@, j)
                == (j == idx || used_bit(old(self).used@, j)) by {
                assert(j / 64 == 0);
                lemma_set_bit(old_w, b as u64, (j % 64) as u64);
            }
        }
    }

    pub(crate) fn clear_used(&mut self, idx: usize)
        requires
            old(self).wf(),
            idx < MAX_ACCOUNTS,
        ensures
            final(self).wf(),
            final(self)@ == (EngineModel { used: final(self)@.used, ..old(self)@ }),
            final(self)@.used == old(self)@.used.update(0, old(self)@.used[0] & !(1u64 << (idx as u64))),
            forall|j: int|
                0 <= j < MAX_ACCOUNTS ==> #[trigger] used_bit(final(self).used@, j) == (j != idx
                    && used_bit(old(self).used@, j)),
    {
        let w = idx >> 6;
        let b = idx & 63;
        proof {
            lemma_index_split(idx);
        }
        let old_w = self.used[w];
        let new_w = old_w & !(1u64 << (b as u64));
        self.used.set(w, new_w);
        proof {
            assert forall|j: int| 0 <= j < MAX_ACCOUNTS implies #[trigger] used_bit(self.used@, j)
                == (j != idx && used_bit(old(self).used@, j)) by {
                assert(j / 64 == 0);
                lemma_clear_bit(old_w, b as u64, (j % 64) as u64);
            }
        }
    }
}

proof fn lemma_index_split(idx: usize)
    requires
        idx < MAX_ACCOUNTS,
    ensures
        idx >> 6 == 0,
        idx & 63 == idx,
        idx / 64 == 0,
        idx % 64 == idx,
{
    assert(idx >> 6 == 0) by (bit_vector)
        requires
            idx < 64,
    ;
    assert(idx & 63 == idx) by (bit_vector)
        requires
            idx < 64,
    ;
}

proof fn lemma_zero_word_bits(b: u64)
    requires
        b < 64,
    ensures
        !bit_set(0u64, b as int),
{
    assert(((0u64 >> b) & 1u64) == 0u64) by (bit_vector);
}

proof fn lemma_set_bit(w: u64, b: u64, c: u64)
    requires
        b < 64,
        c < 64,
    ensures
        bit_set(w | (1u64 << b), c as int) == (c == b || bit_set(w, c as int)),
{
    assert((((w | (1u64 << b)) >> c) & 1u64) == 1u64 <==> (c == b || ((w >> c) & 1u64) == 1u64))
        by (bit_vector)
        requires
            b < 64,
            c < 64,
    ;
}

proof fn lemma_clear_bit(w: u64, b: u64, c: u64)
    requires
        b < 64,
        c < 64,
    ensures
        bit_set(w & !(1u64 << b), c as int) == (c != b && bit_set(w, c as int)),
{
    assert((((w & !(1u64 << b)) >> c) & 1u64) == 1u64 <==> (c != b && ((w >> c) & 1u64) == 1u64))
        by (bit_vector)
        requires
            b < 64,
            c < 64,
    ;
}

} // verus!
