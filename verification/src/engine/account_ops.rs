//! Account-level operations: loss and warmup settlement, maintenance fees,
//! the full touch, deposits and withdrawals.
use vstd::prelude::*;
use crate::num::{i128_sat, u128_sat, I128, U128};
use crate::wide_math::floor_div;
use crate::engine::types::{
    Account, InsuranceFund, RiskError, RiskResult, MAX_ACCOUNTS, MAX_ORACLE_PRICE, MAX_VAULT_TVL,
};
use crate::engine::state::{EngineModel, RiskEngine};
use crate::engine::ledger::{
    haircut_spec, m_put, m_set_capital, m_set_pnl, max_int, min_int, pos_part,
};
use crate::engine::settle::{fee_debt, m_pay_fee_debt};
use crate::engine::margin::{mtm_equity_spec, mtm_required};
use crate::engine::funding::{settle_funding_spec, settle_mark_spec, warmup_slope_spec};
use crate::engine::admin::wrap_i128;

verus! {

/// Negative PnL is paid from capital; whatever remains is written off.
pub open spec fn m_loss_writeoff(m: EngineModel, i: int) -> EngineModel {
    let a = m.accounts[i];
    if a.pnl >= 0 {
        m
    } else {
        let pay = min_int(-a.pnl, a.capital.0 as int);
        let m2 = if pay > 0 {
            let m1 = m_set_capital(m, i, (a.capital.0 - pay) as u128);
            m_set_pnl(m1, i, (a.pnl + min_int(pay, i128::MAX as int)) as i128)
        } else {
            m
        };
        if m2.accounts[i].pnl < 0 {
            m_set_pnl(m2, i, 0)
        } else {
            m2
        }
    }
}

/// Loss write-off, then conversion of warmed profit to capital at the haircut.
pub open spec fn m_settle_warmup(m: EngineModel, i: int) -> EngineModel {
    let m1 = m_loss_writeoff(m, i);
    let a = m1.accounts[i];
    if a.pnl <= 0 {
        m1
    } else {
        let elapsed = max_int(m1.current_slot - a.warmup_started_at_slot, 0);
        let x = min_int(a.pnl as int, a.warmup_slope_per_step * elapsed);
        let m3 = if x > 0 {
            let h = haircut_spec(m1);
            let y = floor_div(x, h.0, h.1);
            let m2 = m_set_pnl(m1, i, (a.pnl - x) as i128);
            m_set_capital(m2, i, u128_sat(m2.accounts[i].capital.0 + y))
        } else {
            m1
        };
        let a3 = m3.accounts[i];
        m_put(
            m3,
            i,
            Account {
                warmup_started_at_slot: m1.current_slot,
                warmup_slope_per_step: warmup_slope_spec(
                    pos_part(a3.pnl),
                    m1.params.warmup_period_slots,
                ) as u128,
                ..a3
            },
        )
    }
}

/// Existing fee debt is paid from capital into insurance (as revenue).
pub open spec fn m_pay_debt_from_capital(m: EngineModel, i: int) -> EngineModel {
    let a = m.accounts[i];
    if a.fee_credits.0 < 0 && a.capital.0 != 0 {
        m_pay_fee_debt(m, i, min_int(fee_debt(a.fee_credits.0), a.capital.0 as int), true)
    } else {
        m
    }
}

/// Coupon-style maintenance charge for the slots since the last fee slot:
/// the engine and the amount paid from capital.
pub open spec fn m_maint_coupon(m: EngineModel, i: int, now: u64) -> (EngineModel, int) {
    let a = m.accounts[i];
    let dt = max_int(now - a.last_fee_slot, 0);
    if dt == 0 {
        (m, 0)
    } else {
        let due = u128_sat(m.params.maintenance_fee_per_slot.0 * dt);
        let fc = i128_sat(a.fee_credits.0 - wrap_i128(due));
        let m1 = m_put(m, i, Account { last_fee_slot: now, fee_credits: I128(fc), ..a });
        let pay = if fc < 0 {
            min_int(-fc, a.capital.0 as int)
        } else {
            0
        };
        if pay > 0 {
            (m_pay_fee_debt(m1, i, pay, true), pay)
        } else {
            (m1, 0)
        }
    }
}

pub open spec fn mtm_ok(m: EngineModel, a: Account, price: u64) -> bool {
    mtm_equity_spec(m, a, price) > mtm_required(m, a, price, m.params.maintenance_margin_bps)
}

/// Maintenance fee settlement with the post-charge MTM check; on success the
/// result is the fee due for the elapsed slots (saturating).
pub open spec fn maint_fee_spec(m: EngineModel, i: int, now: u64, price: u64) -> (
    EngineModel,
    RiskResult<u128>,
) {
    if !m.is_used(i) {
        (m, Err(RiskError::Unauthorized))
    } else {
        let (m1, paid) = m_maint_coupon(m, i, now);
        if max_int(now - m.accounts[i].last_fee_slot, 0) == 0 {
            (m, Ok(0))
        } else if m1.accounts[i].position_size != 0 && !mtm_ok(m1, m1.accounts[i], price) {
            (m1, Err(RiskError::Undercollateralized))
        } else {
            (
                m1,
                Ok(
                    u128_sat(
                        m.params.maintenance_fee_per_slot.0 * max_int(
                            now - m.accounts[i].last_fee_slot,
                            0,
                        ),
                    ),
                ),
            )
        }
    }
}

pub open spec fn m_update_slope(m: EngineModel, i: int) -> EngineModel {
    m_put(
        m,
        i,
        Account {
            warmup_slope_per_step: warmup_slope_spec(
                pos_part(m.accounts[i].pnl),
                m.params.warmup_period_slots,
            ) as u128,
            warmup_started_at_slot: m.current_slot,
            ..m.accounts[i]
        },
    )
}

/// First half of the full touch: slot, funding, mark and warmup restart.
pub open spec fn touch_front_spec(m: EngineModel, i: int, now: u64, price: u64) -> (
    EngineModel,
    RiskResult<()>,
) {
    let m0 = EngineModel { current_slot: now, ..m };
    if !m0.is_used(i) {
        (m0, Err(RiskError::AccountNotFound))
    } else {
        match settle_funding_spec(m0, i) {
            Err(e) => (m0, Err(e)),
            Ok(m1) => {
                let old_av = pos_part(m1.accounts[i].pnl);
                match settle_mark_spec(m1, i, price, false) {
                    Err(e) => (m1, Err(e)),
                    Ok(m2) => {
                        let m3 = if pos_part(m2.accounts[i].pnl) > old_av {
                            m_update_slope(m2, i)
                        } else {
                            m2
                        };
                        (m3, Ok(()))
                    },
                }
            },
        }
    }
}

/// Second half: maintenance fee, warmup conversion, fee-debt sweep and the
/// final MTM check.
pub open spec fn touch_back_spec(m3: EngineModel, i: int, now: u64, price: u64) -> (
    EngineModel,
    RiskResult<()>,
) {
    let (m4, r4) = maint_fee_spec(m3, i, now, price);
    match r4 {
        Err(e) => (m4, Err(e)),
        Ok(_) => {
            let m6 = m_pay_debt_from_capital(m_settle_warmup(m4, i), i);
            if m6.accounts[i].position_size != 0 && !mtm_ok(m6, m6.accounts[i], price) {
                (m6, Err(RiskError::Undercollateralized))
            } else {
                (m6, Ok(()))
            }
        },
    }
}

/// The full touch of account `i`.
pub open spec fn touch_full_spec(m: EngineModel, i: int, now: u64, price: u64) -> (
    EngineModel,
    RiskResult<()>,
) {
    let f = touch_front_spec(m, i, now, price);
    match f.1 {
        Err(e) => (f.0, Err(e)),
        Ok(_) => touch_back_spec(f.0, i, now, price),
    }
}

/// Deposit: the outcome and the engine after it.
pub open spec fn deposit_spec(m: EngineModel, i: int, amount: u128, now: u64) -> (
    EngineModel,
    RiskResult<()>,
) {
    let m0 = EngineModel { current_slot: now, ..m };
    let a = m0.accounts[i];
    let min_dep = m0.params.new_account_fee.0;
    if !m0.is_used(i) {
        (m, Err(RiskError::AccountNotFound))
    } else if m0.vault.0 + amount > MAX_VAULT_TVL {
        (m, Err(RiskError::Overflow))
    } else if min_dep > 0 && a.capital.0 == 0 && amount < min_dep {
        (m, Err(RiskError::InsufficientBalance))
    } else {
        let (m1, rem) = m_deposit_fees(m0, i, amount, now);
        let m2 = m_set_capital(m1, i, u128_sat(m1.accounts[i].capital.0 + rem));
        (m_pay_debt_from_capital(m_settle_warmup(m2, i), i), Ok(()))
    }
}

/// Fees accrued since the last fee slot are charged to fee credits and any
/// debt is paid from the deposit first: the engine and what is left of it.
pub open spec fn m_deposit_fees(m0: EngineModel, i: int, amount: u128, now: u64) -> (EngineModel, int) {
    let a = m0.accounts[i];
    let dt = max_int(now - a.last_fee_slot, 0);
    let a1 = if dt > 0 {
        Account {
            last_fee_slot: now,
            fee_credits: I128(
                i128_sat(
                    a.fee_credits.0 - wrap_i128(u128_sat(m0.params.maintenance_fee_per_slot.0 * dt)),
                ),
            ),
            ..a
        }
    } else {
        a
    };
    let pay = if a1.fee_credits.0 < 0 {
        min_int(fee_debt(a1.fee_credits.0), amount as int)
    } else {
        0
    };
    let a2 = Account {
        fee_credits: I128(i128_sat(a1.fee_credits.0 + min_int(pay, i128::MAX as int))),
        ..a1
    };
    (
        EngineModel {
            accounts: m0.accounts.update(i, a2),
            insurance_fund: InsuranceFund {
                balance: U128(u128_sat(m0.insurance_fund.balance.0 + pay)),
                fee_revenue: U128(u128_sat(m0.insurance_fund.fee_revenue.0 + pay)),
                ..m0.insurance_fund
            },
            vault: U128((m0.vault.0 + amount) as u128),
            ..m0
        },
        amount - pay,
    )
}

impl RiskEngine {
    /// Pays negative PnL from capital and writes off the rest.
    pub fn settle_loss_only(&mut self, idx: u16) -> (r: RiskResult<()>)
        requires
            old(self).wf(),
        ensures
            final(self).wf(),
            !old(self).spec_is_used(idx as int) ==> r == Err::<(), RiskError>(
                RiskError::AccountNotFound,
            ) && final(self)@ == old(self)@,
            old(self).spec_is_used(idx as int) ==> r is Ok && final(self)@ == m_loss_writeoff(
                old(self)@,
                idx as int,
            ),
    {
        if !self.is_used(idx as usize) {
            return Err(RiskError::AccountNotFound);
        }
        self.loss_writeoff(idx as usize);
        Ok(())
    }

    fn loss_writeoff(&mut self, idx: usize)
        requires
            old(self).wf(),
            idx < MAX_ACCOUNTS,
        ensures
            final(self).wf(),
            final(self)@ == m_loss_writeoff(old(self)@, idx as int),
    {
        let pnl = self.accounts[idx].pnl;
        if pnl < 0 {
            let need = crate::num::neg_i128_to_u128(pnl);
            let capital = self.accounts[idx].capital.0;
            let pay = crate::num::min_u128(need, capital);
            if pay > 0 {
                self.set_capital(idx, capital - pay);
                self.set_pnl(idx, crate::num::sat_add_i128(pnl, crate::num::u128_to_i128_clamped(pay)));
            }
            if self.accounts[idx].pnl < 0 {
                self.set_pnl(idx, 0);
            }
        }
    }

    /// Settles losses, then converts warmed profit to capital at the haircut
    /// ratio and restarts the warmup on what remains.
    pub fn settle_warmup_to_capital(&mut self, idx: u16) -> (r: RiskResult<()>)
        requires
            old(self).wf(),
        ensures
            final(self).wf(),
            !old(self).spec_is_used(idx as int) ==> r == Err::<(), RiskError>(
                RiskError::AccountNotFound,
            ) && final(self)@ == old(self)@,
            old(self).spec_is_used(idx as int) ==> r is Ok && final(self)@ == m_settle_warmup(
                old(self)@,
                idx as int,
            ),
    {
        if !self.is_used(idx as usize) {
            return Err(RiskError::AccountNotFound);
        }
        let i = idx as usize;
        self.loss_writeoff(i);
        let pnl = self.accounts[i].pnl;
        if pnl > 0 {
            let positive_pnl = pnl as u128;
            let started_at = self.accounts[i].warmup_started_at_slot;
            let elapsed = crate::num::sat_sub_u64(self.current_slot, started_at);
            let slope = self.accounts[i].warmup_slope_per_step;
            let cap = crate::num::sat_mul_u128(slope, elapsed as u128);
            let x = crate::num::min_u128(positive_pnl, cap);
            if x > 0 {
                let (h_num, h_den) = self.haircut_ratio();
                proof {
                    let h = haircut_spec(self@);
                    assert(0 <= h.0 <= h.1 && h.1 >= 1);
                    assert(x * h_num <= x * h_den) by (nonlinear_arith)
                        requires
                            h_num <= h_den,
                    ;
                    assert(x * h_den == h_den * x) by (nonlinear_arith);
                    vstd::arithmetic::div_mod::lemma_div_is_ordered(
                        (x * h_num) as int,
                        (x * h_den) as int,
                        h_den as int,
                    );
                    vstd::arithmetic::div_mod::lemma_div_multiples_vanish(x as int, h_den as int);
                }
                let y = crate::wide_math::mul_div_floor_u128(x, h_num, h_den);
                self.set_pnl(i, pnl - (x as i128));
                let new_cap = crate::num::sat_add_u128(self.accounts[i].capital.0, y);
                self.set_capital(i, new_cap);
            }
            let mut acc = self.accounts[i];
            acc.warmup_started_at_slot = self.current_slot;
            let new_avail = crate::num::clamp_pos_i128(acc.pnl);
            let t = self.params.warmup_period_slots;
            acc.warmup_slope_per_step = if new_avail == 0 {
                0
            } else if t > 0 {
                crate::num::max_u128(1, new_avail / (t as u128))
            } else {
                new_avail
            };
            self.put_account(i, acc);
        }
        Ok(())
    }

    /// Crank variant: ignores the result.
    pub(crate) fn settle_warmup_to_capital_for_crank(&mut self, idx: u16)
        requires
            old(self).wf(),
        ensures
            final(self)@.adl_epoch_long == old(self)@.adl_epoch_long && final(self)@.adl_epoch_short == old(self)@.adl_epoch_short,
            final(self)@.used == old(self)@.used,
            final(self).wf(),
            !old(self).spec_is_used(idx as int) ==> final(self)@ == old(self)@,
            old(self).spec_is_used(idx as int) ==> final(self)@ == m_settle_warmup(
                old(self)@,
                idx as int,
            ),
    {
        let _ = self.settle_warmup_to_capital(idx);
    }

    /// Sweeps capital into insurance against existing fee debt.
    pub(crate) fn pay_fee_debt_from_capital(&mut self, idx: u16)
        requires
            old(self).wf(),
            idx < MAX_ACCOUNTS,
        ensures
            final(self).wf(),
            final(self)@ == m_pay_debt_from_capital(old(self)@, idx as int),
    {
        let i = idx as usize;
        let acc = self.accounts[i];
        if acc.fee_credits.0 < 0 && acc.capital.0 != 0 {
            let owed = crate::num::neg_i128_to_u128(acc.fee_credits.0);
            let pay = crate::num::min_u128(owed, acc.capital.0);
            if pay > 0 {
                self.pay_fee_debt(i, pay, true);
            }
        }
    }

    fn charge_maint_coupon(&mut self, idx: usize, now_slot: u64) -> (paid: u128)
        requires
            old(self).wf(),
            idx < MAX_ACCOUNTS,
        ensures
            final(self).wf(),
            final(self)@ == m_maint_coupon(old(self)@, idx as int, now_slot).0,
            paid == m_maint_coupon(old(self)@, idx as int, now_slot).1,
    {
        let acc = self.accounts[idx];
        let dt = crate::num::sat_sub_u64(now_slot, acc.last_fee_slot);
        if dt == 0 {
            return 0;
        }
        let due = crate::num::sat_mul_u128(self.params.maintenance_fee_per_slot.0, dt as u128);
        let fc = crate::num::sat_sub_i128(acc.fee_credits.0, crate::engine::admin::cast_u128_to_i128(due));
        let mut a1 = acc;
        a1.last_fee_slot = now_slot;
        a1.fee_credits = I128(fc);
        self.put_account(idx, a1);
        if fc < 0 {
            let owed = crate::num::neg_i128_to_u128(fc);
            let pay = crate::num::min_u128(owed, acc.capital.0);
            if pay > 0 {
                self.pay_fee_debt(idx, pay, true);
            }
            return pay;
        }
        0
    }

    /// Charges maintenance fees since the last fee slot (fee credits first,
    /// then capital); `Undercollateralized` if a position is then below
    /// MTM maintenance. Returns the fee due for the elapsed slots.
    pub fn settle_maintenance_fee(&mut self, idx: u16, now_slot: u64, oracle_price: u64) -> (r:
        RiskResult<u128>)
        requires
            old(self).wf(),
        ensures
            final(self).wf(),
            final(self)@ == maint_fee_spec(old(self)@, idx as int, now_slot, oracle_price).0,
            r == maint_fee_spec(old(self)@, idx as int, now_slot, oracle_price).1,
    {
        if idx as usize >= MAX_ACCOUNTS || !self.is_used(idx as usize) {
            return Err(RiskError::Unauthorized);
        }
        let i = idx as usize;
        if crate::num::sat_sub_u64(now_slot, self.accounts[i].last_fee_slot) == 0 {
            return Ok(0);
        }
        let dt = crate::num::sat_sub_u64(now_slot, self.accounts[i].last_fee_slot);
        let due = crate::num::sat_mul_u128(self.params.maintenance_fee_per_slot.0, dt as u128);
        let _ = self.charge_maint_coupon(i, now_slot);
        let acc = self.accounts[i];
        if acc.position_size != 0 && !self.is_above_maintenance_margin_mtm(&acc, oracle_price) {
            return Err(RiskError::Undercollateralized);
        }
        Ok(due)
    }

    /// Crank variant: always advances the fee slot and never checks margin.
    pub(crate) fn settle_maintenance_fee_best_effort_for_crank(&mut self, idx: u16, now_slot: u64) -> (r:
        RiskResult<u128>)
        requires
            old(self).wf(),
        ensures
            final(self)@.adl_epoch_long == old(self)@.adl_epoch_long && final(self)@.adl_epoch_short == old(self)@.adl_epoch_short,
            final(self)@.used == old(self)@.used,
            final(self).wf(),
            !old(self).spec_is_used(idx as int) ==> r == Err::<u128, RiskError>(
                RiskError::Unauthorized,
            ) && final(self)@ == old(self)@,
            old(self).spec_is_used(idx as int) ==> final(self)@ == m_maint_coupon(
                old(self)@,
                idx as int,
                now_slot,
            ).0 && r == Ok::<u128, RiskError>(
                m_maint_coupon(old(self)@, idx as int, now_slot).1 as u128,
            ),
    {
        if idx as usize >= MAX_ACCOUNTS || !self.is_used(idx as usize) {
            return Err(RiskError::Unauthorized);
        }
        let paid = self.charge_maint_coupon(idx as usize, now_slot);
        Ok(paid)
    }

    fn touch_front(&mut self, idx: u16, now_slot: u64, oracle_price: u64) -> (r: RiskResult<()>)
        requires
            old(self).wf(),
        ensures
            final(self).wf(),
            final(self)@ == touch_front_spec(old(self)@, idx as int, now_slot, oracle_price).0,
            r == touch_front_spec(old(self)@, idx as int, now_slot, oracle_price).1,
            r is Ok ==> idx < MAX_ACCOUNTS && final(self)@.is_used(idx as int),
    {
        self.current_slot = now_slot;
        match self.touch_account(idx) {
            Ok(()) => {},
            Err(e) => {
                return Err(e);
            },
        }
        let i = idx as usize;
        let old_avail = crate::num::clamp_pos_i128(self.accounts[i].pnl);
        match self.settle_mark_to_oracle(idx, oracle_price) {
            Ok(()) => {},
            Err(e) => {
                return Err(e);
            },
        }
        let new_avail = crate::num::clamp_pos_i128(self.accounts[i].pnl);
        if new_avail > old_avail {
            let _ = self.update_warmup_slope(idx);
        }
        Ok(())
    }

    fn touch_back(&mut self, idx: u16, now_slot: u64, oracle_price: u64) -> (r: RiskResult<()>)
        requires
            old(self).wf(),
            idx < MAX_ACCOUNTS,
            old(self)@.is_used(idx as int),
        ensures
            final(self).wf(),
            final(self)@ == touch_back_spec(old(self)@, idx as int, now_slot, oracle_price).0,
            r == touch_back_spec(old(self)@, idx as int, now_slot, oracle_price).1,
    {
        match self.settle_maintenance_fee(idx, now_slot, oracle_price) {
            Ok(_) => {},
            Err(e) => {
                return Err(e);
            },
        }
        let _ = self.settle_warmup_to_capital(idx);
        self.pay_fee_debt_from_capital(idx);
        let acc = self.accounts[idx as usize];
        if acc.position_size != 0 && !self.is_above_maintenance_margin_mtm(&acc, oracle_price) {
            return Err(RiskError::Undercollateralized);
        }
        Ok(())
    }

    /// Full settlement of one account before a user operation.
    pub fn touch_account_full(&mut self, idx: u16, now_slot: u64, oracle_price: u64) -> (r:
        RiskResult<()>)
        requires
            old(self).wf(),
        ensures
            final(self).wf(),
            final(self)@ == touch_full_spec(old(self)@, idx as int, now_slot, oracle_price).0,
            r == touch_full_spec(old(self)@, idx as int, now_slot, oracle_price).1,
    {
        match self.touch_front(idx, now_slot, oracle_price) {
            Ok(()) => {},
            Err(e) => {
                return Err(e);
            },
        }
        self.touch_back(idx, now_slot, oracle_price)
    }

    fn deposit_fee_step(&mut self, i: usize, amount: u128, now_slot: u64, new_vault: u128) -> (rem:
        u128)
        requires
            old(self).wf(),
            i < MAX_ACCOUNTS,
            new_vault == old(self).vault.0 + amount,
        ensures
            final(self).wf(),
            final(self)@ == m_deposit_fees(old(self)@, i as int, amount, now_slot).0,
            rem == m_deposit_fees(old(self)@, i as int, amount, now_slot).1,
    {
        let mut acc = self.accounts[i];
        let mut deposit_remaining = amount;
        let dt = crate::num::sat_sub_u64(now_slot, acc.last_fee_slot);
        if dt > 0 {
            let due = crate::num::sat_mul_u128(self.params.maintenance_fee_per_slot.0, dt as u128);
            acc.last_fee_slot = now_slot;
            acc.fee_credits = I128(
                crate::num::sat_sub_i128(acc.fee_credits.0, crate::engine::admin::cast_u128_to_i128(due)),
            );
        }
        let mut pay: u128 = 0;
        if acc.fee_credits.0 < 0 {
            let owed = crate::num::neg_i128_to_u128(acc.fee_credits.0);
            pay = crate::num::min_u128(owed, deposit_remaining);
            deposit_remaining = deposit_remaining - pay;
        }
        acc.fee_credits = I128(
            crate::num::sat_add_i128(acc.fee_credits.0, crate::num::u128_to_i128_clamped(pay)),
        );
        self.put_account(i, acc);
        self.insurance_fund.balance = U128(crate::num::sat_add_u128(self.insurance_fund.balance.0, pay));
        self.insurance_fund.fee_revenue = U128(
            crate::num::sat_add_u128(self.insurance_fund.fee_revenue.0, pay),
        );
        self.vault = U128(new_vault);
        deposit_remaining
    }

    /// Deposit: pays accrued fee debt from the deposit first, credits the
    /// rest to capital, then settles warmup and sweeps remaining debt. The
    /// checks come first: an error leaves the engine unchanged.
    pub fn deposit(&mut self, idx: u16, amount: u128, now_slot: u64) -> (r: RiskResult<()>)
        requires
            old(self).wf(),
        ensures
            final(self).wf(),
            final(self)@ == deposit_spec(old(self)@, idx as int, amount, now_slot).0,
            r == deposit_spec(old(self)@, idx as int, amount, now_slot).1,
            idx < MAX_ACCOUNTS && crate::engine::conservation::conserves(old(self)@)
                && crate::engine::guarantees::covered(old(self)@, idx as int) && pos_part(
                old(self)@.accounts[idx as int].pnl,
            ) <= old(self)@.pnl_matured_pos_tot ==> crate::engine::conservation::conserves(
                final(self)@,
            ),
    {
        proof {
            if idx < MAX_ACCOUNTS && crate::engine::conservation::conserves(self@)
                && crate::engine::guarantees::covered(self@, idx as int) && pos_part(
                self@.accounts[idx as int].pnl,
            ) <= self@.pnl_matured_pos_tot {
                crate::engine::guarantees::lemma_deposit_conserves(self@, idx as int, amount, now_slot);
            }
        }
        if !self.is_used(idx as usize) {
            return Err(RiskError::AccountNotFound);
        }
        let i = idx as usize;
        let new_vault = match self.vault.0.checked_add(amount) {
            Some(v) => v,
            None => {
                return Err(RiskError::Overflow);
            },
        };
        if new_vault > MAX_VAULT_TVL {
            return Err(RiskError::Overflow);
        }
        let min_deposit = self.params.new_account_fee.0;
        if min_deposit > 0 && self.accounts[i].capital.0 == 0 && amount < min_deposit {
            return Err(RiskError::InsufficientBalance);
        }
        self.current_slot = now_slot;
        let deposit_remaining = self.deposit_fee_step(i, amount, now_slot, new_vault);
        let new_cap = crate::num::sat_add_u128(self.accounts[i].capital.0, deposit_remaining);
        self.set_capital(i, new_cap);
        let _ = self.settle_warmup_to_capital(idx);
        self.pay_fee_debt_from_capital(idx);
        Ok(())
    }

    /// Withdraws capital from a flat account after full settlement.
    pub fn withdraw(&mut self, idx: u16, amount: u128, now_slot: u64, oracle_price: u64) -> (r:
        RiskResult<()>)
        requires
            old(self).wf(),
        ensures
            final(self).wf(),
            ({
                let m0 = EngineModel { current_slot: now_slot, ..old(self)@ };
                if oracle_price == 0 || oracle_price > MAX_ORACLE_PRICE {
                    r == Err::<(), RiskError>(RiskError::Overflow) && final(self)@ == m0
                } else if !m0.is_used(idx as int) {
                    r == Err::<(), RiskError>(RiskError::AccountNotFound) && final(self)@ == m0
                } else {
                    let t = touch_full_spec(m0, idx as int, now_slot, oracle_price);
                    let a = t.0.accounts[idx as int];
                    match t.1 {
                        Err(e) => r == Err::<(), RiskError>(e) && final(self)@ == t.0,
                        Ok(_) => if a.position_size != 0 {
                            r == Err::<(), RiskError>(RiskError::Undercollateralized)
                                && final(self)@ == t.0
                        } else if a.capital.0 < amount {
                            r == Err::<(), RiskError>(RiskError::InsufficientBalance)
                                && final(self)@ == t.0
                        } else {
                            r is Ok && final(self)@ == (EngineModel {
                                vault: U128(u128_sat(t.0.vault.0 - amount)),
                                ..m_set_capital(t.0, idx as int, (a.capital.0 - amount) as u128)
                            })
                        },
                    }
                }
            }),
    {
        self.current_slot = now_slot;
        if oracle_price == 0 || oracle_price > MAX_ORACLE_PRICE {
            return Err(RiskError::Overflow);
        }
        if !self.is_used(idx as usize) {
            return Err(RiskError::AccountNotFound);
        }
        match self.touch_account_full(idx, now_slot, oracle_price) {
            Ok(()) => {},
            Err(e) => {
                return Err(e);
            },
        }
        let i = idx as usize;
        if self.accounts[i].position_size != 0 {
            return Err(RiskError::Undercollateralized);
        }
        let old_capital = self.accounts[i].capital.0;
        if old_capital < amount {
            return Err(RiskError::InsufficientBalance);
        }
        self.set_capital(i, old_capital - amount);
        self.vault = U128(crate::num::sat_sub_u128(self.vault.0, amount));
        Ok(())
    }
}

} // verus!
