//! Administrative setters, emergency mode, crank freshness, insurance
//! top-ups, fee credits, fee tiers and rebates.
use vstd::prelude::*;
use crate::num::{i128_sat, u128_sat, I128, U128};
use crate::wide_math::floor_div;
use crate::engine::types::{
    Account, InsuranceFund, RiskError, RiskParams, RiskResult, EMERGENCY_RECOVERY_SLOTS,
    MAX_ACCOUNTS, MAX_VAULT_TVL,
};
use crate::engine::state::{EngineModel, RiskEngine};
use crate::engine::conservation::conserves;
use crate::engine::ledger::{m_put, min_int};
use crate::engine::positions::abs_int;

verus! {

/// `amount as i128` (two's-complement reinterpretation).
pub open spec fn wrap_i128(amount: u128) -> int {
    if amount > i128::MAX {
        amount - 0x1_0000_0000_0000_0000_0000_0000_0000_0000int
    } else {
        amount as int
    }
}

pub(crate) fn cast_u128_to_i128(amount: u128) -> (r: i128)
    ensures
        r == wrap_i128(amount),
{
    if amount > i128::MAX as u128 {
        let m = u128::MAX - amount;
        -(m as i128) - 1
    } else {
        amount as i128
    }
}

/// Fee tier selected by notional, before any surge.
pub open spec fn base_fee_bps(p: RiskParams, notional: u128) -> u64 {
    if p.fee_tier2_threshold == 0 {
        p.trading_fee_bps
    } else if notional >= p.fee_tier3_threshold && p.fee_tier3_threshold > 0 {
        p.fee_tier3_bps
    } else if notional >= p.fee_tier2_threshold {
        p.fee_tier2_bps
    } else {
        p.trading_fee_bps
    }
}

/// Utilization in bps: OI / (2 * vault), capped at 10_000.
pub open spec fn util_bps(vault: u128, oi: u128) -> int {
    let v2 = u128_sat(vault * 2);
    if oi >= v2 {
        10_000
    } else {
        (u128_sat(oi * 10_000) as int) / (v2 as int)
    }
}

pub open spec fn dynamic_fee_spec(m: EngineModel, notional: u128) -> int {
    let base = base_fee_bps(m.params, notional);
    if m.params.fee_utilization_surge_bps == 0 || m.vault.0 == 0 {
        base as int
    } else {
        let surge = (m.params.fee_utilization_surge_bps * util_bps(m.vault.0, m.total_open_interest.0))
            / 10_000;
        min_int(base + surge, u64::MAX as int)
    }
}

proof fn lemma_div_below(n: int, d: int, k: int)
    requires
        0 <= n < d * k,
        d > 0,
    ensures
        n / d < k,
{
    vstd::arithmetic::div_mod::lemma_fundamental_div_mod(n, d);
    vstd::arithmetic::div_mod::lemma_mod_pos_bound(n, d);
    if n / d >= k {
        assert(d * (n / d) >= d * k) by (nonlinear_arith)
            requires
                n / d >= k,
                d > 0,
        ;
    }
}

impl RiskEngine {
    /// Whether emergency OI mode is on.
    pub fn is_emergency_oi_mode(&self) -> (r: bool)
        ensures
            r == (self.emergency_oi_mode != 0),
    {
        self.emergency_oi_mode != 0
    }

    /// Turns emergency OI mode on (the start slot is kept if it already was).
    pub fn enter_emergency_oi_mode(&mut self, current_slot: u64)
        ensures
            final(self)@ == (EngineModel {
                emergency_oi_mode: 1,
                emergency_start_slot: if old(self).emergency_oi_mode == 0 {
                    current_slot
                } else {
                    old(self).emergency_start_slot
                },
                last_breaker_slot: current_slot,
                ..old(self)@
            }),
    {
        if self.emergency_oi_mode == 0 {
            self.emergency_start_slot = current_slot;
        }
        self.emergency_oi_mode = 1;
        self.last_breaker_slot = current_slot;
    }

    /// Leaves emergency OI mode once the oracle was stable for the recovery window.
    pub fn check_emergency_recovery(&mut self, current_slot: u64)
        ensures
            (old(self).emergency_oi_mode != 0 && current_slot >= min_int(
                old(self).last_breaker_slot + EMERGENCY_RECOVERY_SLOTS,
                u64::MAX as int,
            )) ==> final(self)@ == (EngineModel {
                emergency_oi_mode: 0,
                emergency_start_slot: 0,
                last_breaker_slot: 0,
                ..old(self)@
            }),
            !(old(self).emergency_oi_mode != 0 && current_slot >= min_int(
                old(self).last_breaker_slot + EMERGENCY_RECOVERY_SLOTS,
                u64::MAX as int,
            )) ==> final(self)@ == old(self)@,
    {
        if self.emergency_oi_mode != 0 && current_slot >= crate::num::sat_add_u64(
            self.last_breaker_slot,
            EMERGENCY_RECOVERY_SLOTS,
        ) {
            self.emergency_oi_mode = 0;
            self.emergency_start_slot = 0;
            self.last_breaker_slot = 0;
        }
    }

    /// `Unauthorized` when the last crank is older than the staleness bound.
    pub fn require_fresh_crank(&self, now_slot: u64) -> (r: RiskResult<()>)
        ensures
            r is Ok <==> (if now_slot < self.last_crank_slot {
                0
            } else {
                now_slot - self.last_crank_slot
            }) <= self.max_crank_staleness_slots,
            r is Err ==> r == Err::<(), RiskError>(RiskError::Unauthorized),
    {
        if crate::num::sat_sub_u64(now_slot, self.last_crank_slot) > self.max_crank_staleness_slots {
            return Err(RiskError::Unauthorized);
        }
        Ok(())
    }

    /// `Unauthorized` when the last full sweep started too long ago.
    pub fn require_recent_full_sweep(&self, now_slot: u64) -> (r: RiskResult<()>)
        ensures
            r is Ok <==> (if now_slot < self.last_full_sweep_start_slot {
                0
            } else {
                now_slot - self.last_full_sweep_start_slot
            }) <= self.max_crank_staleness_slots,
            r is Err ==> r == Err::<(), RiskError>(RiskError::Unauthorized),
    {
        if crate::num::sat_sub_u64(now_slot, self.last_full_sweep_start_slot)
            > self.max_crank_staleness_slots {
            return Err(RiskError::Unauthorized);
        }
        Ok(())
    }

    /// Force-realize mode: insurance at or below the risk-reduction threshold.
    pub(crate) fn force_realize_active(&self) -> (r: bool)
        ensures
            r == (self.insurance_fund.balance.0 <= self.params.risk_reduction_threshold.0),
    {
        self.insurance_fund.balance.0 <= self.params.risk_reduction_threshold.0
    }

    /// Sets the owner key of a used account.
    pub fn set_owner(&mut self, idx: u16, owner: [u8; 32]) -> (r: RiskResult<()>)
        requires
            old(self).wf(),
        ensures
            final(self).wf(),
            !(idx < MAX_ACCOUNTS && old(self).spec_is_used(idx as int)) ==> r == Err::<
                (),
                RiskError,
            >(RiskError::Unauthorized) && final(self)@ == old(self)@,
            (idx < MAX_ACCOUNTS && old(self).spec_is_used(idx as int)) ==> r is Ok && final(self)@
                == m_put(
                old(self)@,
                idx as int,
                Account { owner, ..old(self)@.accounts[idx as int] },
            ),
    {
        if idx as usize >= MAX_ACCOUNTS || !self.is_used(idx as usize) {
            return Err(RiskError::Unauthorized);
        }
        let mut acc = self.accounts[idx as usize];
        acc.owner = owner;
        self.put_account(idx as usize, acc);
        Ok(())
    }

    /// Pre-funds fee credits: the amount enters the vault and the insurance
    /// fund (as revenue) and is credited to the account's fee credits.
    pub fn deposit_fee_credits(&mut self, idx: u16, amount: u128, now_slot: u64) -> (r: RiskResult<
        (),
    >)
        requires
            old(self).wf(),
        ensures
            final(self).wf(),
            !(idx < MAX_ACCOUNTS && old(self).spec_is_used(idx as int)) ==> r == Err::<
                (),
                RiskError,
            >(RiskError::Unauthorized) && final(self)@ == old(self)@,
            (idx < MAX_ACCOUNTS && old(self).spec_is_used(idx as int)) && old(self).vault.0 + amount
                > MAX_VAULT_TVL ==> r == Err::<(), RiskError>(RiskError::Overflow) && final(self)@
                == old(self)@,
            (idx < MAX_ACCOUNTS && old(self).spec_is_used(idx as int)) && old(self).vault.0 + amount
                <= MAX_VAULT_TVL ==> r is Ok && final(self)@ == (EngineModel {
                current_slot: now_slot,
                vault: U128((old(self).vault.0 + amount) as u128),
                insurance_fund: InsuranceFund {
                    balance: U128(u128_sat(old(self).insurance_fund.balance.0 + amount)),
                    fee_revenue: U128(u128_sat(old(self).insurance_fund.fee_revenue.0 + amount)),
                    ..old(self)@.insurance_fund
                },
                accounts: old(self)@.accounts.update(
                    idx as int,
                    Account {
                        fee_credits: I128(
                            i128_sat(old(self)@.accounts[idx as int].fee_credits.0 + amount),
                        ),
                        ..old(self)@.accounts[idx as int]
                    },
                ),
                ..old(self)@
            }),
            conserves(old(self)@) ==> conserves(final(self)@),
    {
        if idx as usize >= MAX_ACCOUNTS || !self.is_used(idx as usize) {
            return Err(RiskError::Unauthorized);
        }
        let new_vault = match self.vault.0.checked_add(amount) {
            Some(v) => v,
            None => {
                return Err(RiskError::Overflow);
            },
        };
        if new_vault > MAX_VAULT_TVL {
            return Err(RiskError::Overflow);
        }
        self.current_slot = now_slot;
        self.vault = U128(new_vault);
        self.insurance_fund.balance = U128(
            crate::num::sat_add_u128(self.insurance_fund.balance.0, amount),
        );
        self.insurance_fund.fee_revenue = U128(
            crate::num::sat_add_u128(self.insurance_fund.fee_revenue.0, amount),
        );
        let mut acc = self.accounts[idx as usize];
        acc.fee_credits = I128(crate::num::sat_add_i128(acc.fee_credits.0, amount as i128));
        self.put_account(idx as usize, acc);
        Ok(())
    }

    /// Adds fee credits without vault or insurance accounting (test setup).
    pub fn add_fee_credits(&mut self, idx: u16, amount: u128) -> (r: RiskResult<()>)
        requires
            old(self).wf(),
        ensures
            final(self).wf(),
            !(idx < MAX_ACCOUNTS && old(self).spec_is_used(idx as int)) ==> r == Err::<
                (),
                RiskError,
            >(RiskError::Unauthorized) && final(self)@ == old(self)@,
            (idx < MAX_ACCOUNTS && old(self).spec_is_used(idx as int)) ==> r is Ok && final(self)@
                == m_put(
                old(self)@,
                idx as int,
                Account {
                    fee_credits: I128(
                        i128_sat(old(self)@.accounts[idx as int].fee_credits.0 + wrap_i128(amount)),
                    ),
                    ..old(self)@.accounts[idx as int]
                },
            ),
    {
        if idx as usize >= MAX_ACCOUNTS || !self.is_used(idx as usize) {
            return Err(RiskError::Unauthorized);
        }
        let mut acc = self.accounts[idx as usize];
        acc.fee_credits = I128(crate::num::sat_add_i128(acc.fee_credits.0, cast_u128_to_i128(amount)));
        self.put_account(idx as usize, acc);
        Ok(())
    }

    /// Sets the insurance level at or below which force-realize runs.
    pub fn set_risk_reduction_threshold(&mut self, new_threshold: u128)
        ensures
            final(self)@ == (EngineModel {
                params: RiskParams {
                    risk_reduction_threshold: U128(new_threshold),
                    ..old(self)@.params
                },
                ..old(self)@
            }),
    {
        self.params.risk_reduction_threshold = U128(new_threshold);
    }

    /// The force-realize threshold.
    pub fn risk_reduction_threshold(&self) -> (r: u128)
        ensures
            r == self.params.risk_reduction_threshold.0,
    {
        self.params.risk_reduction_threshold.0
    }

    /// Updates both margin ratios; both must be in (0, 10_000] with IM >= MM.
    pub fn set_margin_params(&mut self, initial_margin_bps: u64, maintenance_margin_bps: u64) -> (r:
        RiskResult<()>)
        requires
            old(self).wf(),
        ensures
            final(self).wf(),
            (0 < maintenance_margin_bps <= initial_margin_bps <= 10_000) ==> r is Ok
                && final(self)@ == (EngineModel {
                params: RiskParams { initial_margin_bps, maintenance_margin_bps, ..old(self)@.params },
                ..old(self)@
            }),
            !(0 < maintenance_margin_bps <= initial_margin_bps <= 10_000) ==> r == Err::<
                (),
                RiskError,
            >(RiskError::Overflow) && final(self)@ == old(self)@,
    {
        if maintenance_margin_bps == 0 || initial_margin_bps == 0 {
            return Err(RiskError::Overflow);
        }
        if initial_margin_bps > 10_000 || maintenance_margin_bps > 10_000 {
            return Err(RiskError::Overflow);
        }
        if initial_margin_bps < maintenance_margin_bps {
            return Err(RiskError::Overflow);
        }
        self.params.initial_margin_bps = initial_margin_bps;
        self.params.maintenance_margin_bps = maintenance_margin_bps;
        Ok(())
    }

    /// Adds `amount` to the vault and the insurance fund; reports whether the
    /// fund is now above the risk-reduction threshold.
    pub fn top_up_insurance_fund(&mut self, amount: u128) -> (r: RiskResult<bool>)
        requires
            old(self).vault.0 + amount <= u128::MAX,
            old(self).insurance_fund.balance.0 + amount <= u128::MAX,
        ensures
            final(self)@ == (EngineModel {
                vault: U128((old(self).vault.0 + amount) as u128),
                insurance_fund: InsuranceFund {
                    balance: U128((old(self).insurance_fund.balance.0 + amount) as u128),
                    ..old(self)@.insurance_fund
                },
                ..old(self)@
            }),
            r == Ok::<bool, RiskError>(
                old(self).insurance_fund.balance.0 + amount > old(
                    self,
                ).params.risk_reduction_threshold.0,
            ),
            conserves(old(self)@) ==> conserves(final(self)@),
    {
        self.vault = U128(self.vault.0 + amount);
        self.insurance_fund.balance = U128(self.insurance_fund.balance.0 + amount);
        Ok(self.insurance_fund.balance.0 > self.params.risk_reduction_threshold.0)
    }

    /// Moves `reserve_bps` of a fee into the skew-rebate reserve (skipped
    /// when the portion exceeds `u64::MAX`).
    pub fn fund_balance_reserve(&mut self, fee_amount: u128, reserve_bps: u16)
        ensures
            ({
                let portion = u128_sat(fee_amount * reserve_bps) / 10_000;
                if reserve_bps == 0 || fee_amount == 0 || portion > u64::MAX {
                    final(self)@ == old(self)@
                } else {
                    final(self)@ == (EngineModel {
                        insurance_fund: InsuranceFund {
                            balance_incentive_reserve: min_int(
                                old(self).insurance_fund.balance_incentive_reserve + portion,
                                u64::MAX as int,
                            ) as u64,
                            ..old(self)@.insurance_fund
                        },
                        ..old(self)@
                    })
                }
            }),
    {
        if reserve_bps == 0 || fee_amount == 0 {
            return;
        }
        let portion = crate::num::sat_mul_u128(fee_amount, reserve_bps as u128) / 10_000;
        if portion > u64::MAX as u128 {
            return;
        }
        self.insurance_fund.balance_incentive_reserve = crate::num::sat_add_u64(
            self.insurance_fund.balance_incentive_reserve,
            portion as u64,
        );
    }

    /// Pays up to `rebate_amount` from the rebate reserve into the user's
    /// capital; returns what was paid. The reserve is an earmarked part of
    /// the insurance balance (it is funded from fees booked to insurance), so
    /// the payment leaves the insurance balance too (saturating at zero).
    pub fn pay_skew_rebate(&mut self, user_idx: u16, rebate_amount: u64) -> (r: u64)
        requires
            old(self).wf(),
            user_idx < MAX_ACCOUNTS,
        ensures
            final(self).wf(),
            r == min_int(rebate_amount as int, old(self).insurance_fund.balance_incentive_reserve as int),
            r == 0 ==> final(self)@ == old(self)@,
            conserves(old(self)@) && old(self).insurance_fund.balance_incentive_reserve
                <= old(self).insurance_fund.balance.0 ==> conserves(final(self)@)
                && final(self).insurance_fund.balance_incentive_reserve
                <= final(self).insurance_fund.balance.0,
            r > 0 ==> final(self)@ == (EngineModel {
                insurance_fund: InsuranceFund {
                    balance_incentive_reserve: (old(self).insurance_fund.balance_incentive_reserve
                        - r) as u64,
                    balance: U128(u128_sat(old(self).insurance_fund.balance.0 - r)),
                    ..old(self)@.insurance_fund
                },
                accounts: old(self)@.accounts.update(
                    user_idx as int,
                    Account {
                        capital: U128(
                            u128_sat(old(self)@.accounts[user_idx as int].capital.0 + r),
                        ),
                        ..old(self)@.accounts[user_idx as int]
                    },
                ),
                c_tot: U128(u128_sat(old(self).c_tot.0 + r)),
                ..old(self)@
            }),
    {
        if rebate_amount == 0 {
            return 0;
        }
        let reserve = self.insurance_fund.balance_incentive_reserve;
        let actual = if rebate_amount <= reserve {
            rebate_amount
        } else {
            reserve
        };
        if actual == 0 {
            return 0;
        }
        self.insurance_fund.balance_incentive_reserve = reserve - actual;
        self.insurance_fund.balance = U128(
            crate::num::sat_sub_u128(self.insurance_fund.balance.0, actual as u128),
        );
        let mut acc = self.accounts[user_idx as usize];
        acc.capital = U128(crate::num::sat_add_u128(acc.capital.0, actual as u128));
        self.put_account(user_idx as usize, acc);
        self.c_tot = U128(crate::num::sat_add_u128(self.c_tot.0, actual as u128));
        actual
    }

    /// Whether the LP's position change shrinks |net LP position|.
    pub fn trade_improves_skew(net_lp_before: i128, lp_delta: i128) -> (r: bool)
        ensures
            r == (abs_int(i128_sat(net_lp_before + lp_delta) as int) < abs_int(net_lp_before as int)),
    {
        let abs_before = crate::num::abs_i128(net_lp_before);
        let after = crate::num::sat_add_i128(net_lp_before, lp_delta);
        let abs_after = crate::num::abs_i128(after);
        abs_after < abs_before
    }

    /// Adds `amount` to the vault and to the market's isolated insurance.
    pub fn fund_market_insurance(&mut self, amount: u128) -> (r: RiskResult<()>)
        requires
            old(self).vault.0 + amount <= u128::MAX,
            old(self).insurance_fund.isolated_balance.0 + amount <= u128::MAX,
        ensures
            r is Ok,
            final(self)@ == (EngineModel {
                vault: U128((old(self).vault.0 + amount) as u128),
                insurance_fund: InsuranceFund {
                    isolated_balance: U128(
                        (old(self).insurance_fund.isolated_balance.0 + amount) as u128,
                    ),
                    ..old(self)@.insurance_fund
                },
                ..old(self)@
            }),
    {
        self.vault = U128(self.vault.0 + amount);
        self.insurance_fund.isolated_balance = U128(self.insurance_fund.isolated_balance.0 + amount);
        Ok(())
    }

    /// Sets the share of the global fund this market may use.
    pub fn set_insurance_isolation_bps(&mut self, bps: u16)
        ensures
            final(self)@ == (EngineModel {
                insurance_fund: InsuranceFund {
                    insurance_isolation_bps: bps,
                    ..old(self)@.insurance_fund
                },
                ..old(self)@
            }),
    {
        self.insurance_fund.insurance_isolation_bps = bps;
    }

    /// Moves the clock forward by `slots` (saturating).
    pub fn advance_slot(&mut self, slots: u64)
        ensures
            final(self)@ == (EngineModel {
                current_slot: min_int(old(self).current_slot + slots, u64::MAX as int) as u64,
                ..old(self)@
            }),
    {
        self.current_slot = crate::num::sat_add_u64(self.current_slot, slots);
    }

    /// Trading fee in bps: the notional tier plus a utilization surge.
    pub fn compute_dynamic_fee_bps(&self, notional: u128) -> (r: u64)
        ensures
            r == dynamic_fee_spec(self@, notional),
    {
        let base_fee = if self.params.fee_tier2_threshold == 0 {
            self.params.trading_fee_bps
        } else if notional >= self.params.fee_tier3_threshold && self.params.fee_tier3_threshold
            > 0 {
            self.params.fee_tier3_bps
        } else if notional >= self.params.fee_tier2_threshold {
            self.params.fee_tier2_bps
        } else {
            self.params.trading_fee_bps
        };
        if self.params.fee_utilization_surge_bps == 0 {
            return base_fee;
        }
        let vault = self.vault.0;
        if vault == 0 {
            return base_fee;
        }
        let oi = self.total_open_interest.0;
        let vault_2x = crate::num::sat_mul_u128(vault, 2);
        let util: u128 = if oi >= vault_2x {
            10_000
        } else {
            let n = crate::num::sat_mul_u128(oi, 10_000);
            proof {
                if oi * 10_000 <= u128::MAX {
                    assert(n < vault_2x * 10_000);
                } else {
                    assert(n < vault_2x * 10_000) by (nonlinear_arith)
                        requires
                            n == u128::MAX,
                            oi * 10_000 > u128::MAX,
                            vault_2x > oi,
                    ;
                }
                lemma_div_below(n as int, vault_2x as int, 10_000);
            }
            n / vault_2x
        };
        assert(util <= 10_000);
        let sb = self.params.fee_utilization_surge_bps as u128;
        proof {
            assert(sb * util <= sb * 10_000) by (nonlinear_arith)
                requires
                    util <= 10_000,
            ;
            assert(sb * 10_000 <= u64::MAX * 10_000) by (nonlinear_arith)
                requires
                    sb <= u64::MAX,
            ;
            vstd::arithmetic::div_mod::lemma_div_is_ordered((sb * util) as int, (sb * 10_000) as int, 10_000);
            vstd::arithmetic::div_mod::lemma_div_multiples_vanish(sb as int, 10_000);
            assert(sb * 10_000 == 10_000 * sb) by (nonlinear_arith);
        }
        let surge = sb * util / 10_000;
        crate::num::sat_add_u64(base_fee, surge as u64)
    }

    /// Splits a fee into (LP, protocol, creator); the creator takes the
    /// rounding remainder, and the LP takes everything when no split is set.
    pub fn compute_fee_split(&self, total_fee: u128) -> (r: (u128, u128, u128))
        ensures
            (self.params.fee_split_lp_bps == 0 && self.params.fee_split_protocol_bps == 0
                && self.params.fee_split_creator_bps == 0) ==> r == (total_fee, 0u128, 0u128),
            !(self.params.fee_split_lp_bps == 0 && self.params.fee_split_protocol_bps == 0
                && self.params.fee_split_creator_bps == 0) ==> {
                &&& r.0 == crate::engine::margin::sat_fd(
                    total_fee as int,
                    self.params.fee_split_lp_bps as int,
                    10_000,
                )
                &&& r.1 == crate::engine::margin::sat_fd(
                    total_fee as int,
                    self.params.fee_split_protocol_bps as int,
                    10_000,
                )
                &&& r.2 == u128_sat(u128_sat(total_fee - r.0) - r.1)
            },
    {
        if self.params.fee_split_lp_bps == 0 && self.params.fee_split_protocol_bps == 0
            && self.params.fee_split_creator_bps == 0 {
            return (total_fee, 0, 0);
        }
        let lp = crate::wide_math::mul_div_floor_u128(
            total_fee,
            self.params.fee_split_lp_bps as u128,
            10_000,
        );
        let protocol = crate::wide_math::mul_div_floor_u128(
            total_fee,
            self.params.fee_split_protocol_bps as u128,
            10_000,
        );
        let creator = crate::num::sat_sub_u128(crate::num::sat_sub_u128(total_fee, lp), protocol);
        (lp, protocol, creator)
    }
}

} // verus!
