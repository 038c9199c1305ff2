//! Per-account settlement steps: insurance use, warmup, losses, profit
//! conversion, fee debt and maintenance fees.
use vstd::prelude::*;
use crate::num::{u128_sat, I128, U128};
use crate::wide_math::floor_div;
use crate::engine::types::{Account, InsuranceFund, MAX_ACCOUNTS, MAX_PROTOCOL_FEE_ABS};
use crate::engine::state::{EngineModel, RiskEngine};
use crate::engine::ledger::{
    haircut_spec, m_consume_released, m_put, m_set_capital, m_set_pnl, m_set_reserved, max_int,
    min_int, released_of,
};
use crate::engine::positions::eff_pos_spec;

verus! {

/// Insurance above the floor that may absorb a loss.
pub open spec fn ins_available(m: EngineModel) -> int {
    max_int(m.insurance_fund.balance.0 - m.params.insurance_floor.0, 0)
}

/// Part of `loss` the insurance fund pays.
pub open spec fn ins_pay(m: EngineModel, loss: u128) -> int {
    min_int(loss as int, ins_available(m))
}

pub open spec fn m_use_insurance(m: EngineModel, loss: u128) -> EngineModel {
    EngineModel {
        insurance_fund: InsuranceFund {
            balance: U128((m.insurance_fund.balance.0 - ins_pay(m, loss)) as u128),
            ..m.insurance_fund
        },
        ..m
    }
}

/// Warmup restart: slope = max(R / T, 1) (0 when R or T is 0; R is cleared when T is 0).
pub open spec fn m_restart_warmup(m: EngineModel, i: int) -> EngineModel {
    let t = m.params.warmup_period_slots;
    let m1 = if t == 0 {
        m_set_reserved(m, i, 0)
    } else {
        m
    };
    let a = m1.accounts[i];
    let slope: u128 = if t == 0 || a.reserved_pnl == 0 {
        0
    } else if a.reserved_pnl / (t as u128) == 0 {
        1
    } else {
        a.reserved_pnl / (t as u128)
    };
    m_put(
        m1,
        i,
        Account { warmup_slope_per_step: slope, warmup_started_at_slot: m.current_slot, ..a },
    )
}

/// Warmup advance: releases min(R, slope * elapsed) of the reserve.
#[verifier::opaque]
pub open spec fn m_advance_warmup(m: EngineModel, i: int) -> EngineModel {
    let a = m.accounts[i];
    let r = a.reserved_pnl;
    let t = m.params.warmup_period_slots;
    if r == 0 {
        m_put(
            m,
            i,
            Account { warmup_slope_per_step: 0, warmup_started_at_slot: m.current_slot, ..a },
        )
    } else if t == 0 {
        let m1 = m_set_reserved(m, i, 0);
        m_put(
            m1,
            i,
            Account {
                warmup_slope_per_step: 0,
                warmup_started_at_slot: m.current_slot,
                ..m1.accounts[i]
            },
        )
    } else {
        let elapsed = max_int(m.current_slot - a.warmup_started_at_slot, 0);
        let cap = u128_sat(a.warmup_slope_per_step * elapsed);
        let release = min_int(r as int, cap as int);
        let m1 = if release > 0 {
            m_set_reserved(m, i, (r - release) as u128)
        } else {
            m
        };
        let a1 = m1.accounts[i];
        m_put(
            m1,
            i,
            Account {
                warmup_slope_per_step: if a1.reserved_pnl == 0 {
                    0
                } else {
                    a1.warmup_slope_per_step
                },
                warmup_started_at_slot: m.current_slot,
                ..a1
            },
        )
    }
}

/// Negative PnL is paid from capital as far as capital goes.
pub open spec fn m_settle_losses(m: EngineModel, i: int) -> EngineModel {
    let a = m.accounts[i];
    if a.pnl >= 0 {
        m
    } else {
        let pay = min_int(-a.pnl, a.capital.0 as int);
        if pay > 0 {
            let m1 = m_set_capital(m, i, (a.capital.0 - pay) as u128);
            m_set_pnl(m1, i, (a.pnl + pay) as i128)
        } else {
            m
        }
    }
}

/// A flat account's negative PnL goes to the insurance fund and is zeroed.
pub open spec fn m_resolve_flat_negative(m: EngineModel, i: int) -> EngineModel {
    let a = m.accounts[i];
    if eff_pos_spec(m, i) != 0 || a.pnl >= 0 {
        m
    } else {
        m_set_pnl(m_use_insurance(m, (-a.pnl) as u128), i, 0)
    }
}

/// floor(x * h_num / h_den), saturating.
pub open spec fn haircut_of(m: EngineModel, x: int) -> int {
    let h = haircut_spec(m);
    if floor_div(x, h.0, h.1) > u128::MAX {
        u128::MAX as int
    } else {
        floor_div(x, h.0, h.1)
    }
}

/// Released profit becomes capital at the haircut ratio.
pub open spec fn m_profit_conversion(m: EngineModel, i: int) -> EngineModel {
    let a = m.accounts[i];
    let x = released_of(a.pnl, a.reserved_pnl);
    if x == 0 {
        m
    } else {
        let y = haircut_of(m, x);
        let m1 = m_consume_released(m, i, x as u128);
        let m2 = m_set_capital(m1, i, u128_sat(m1.accounts[i].capital.0 + y));
        let a2 = m2.accounts[i];
        if a2.reserved_pnl == 0 {
            m_put(
                m2,
                i,
                Account { warmup_slope_per_step: 0, warmup_started_at_slot: m.current_slot, ..a2 },
            )
        } else {
            m2
        }
    }
}

pub open spec fn fee_debt(fc: i128) -> int {
    if fc < 0 {
        -fc
    } else {
        0
    }
}

/// Pays `pay` of fee debt from capital into the insurance fund.
pub open spec fn m_pay_fee_debt(m: EngineModel, i: int, pay: int, book_revenue: bool) -> EngineModel {
    let a = m.accounts[i];
    let m1 = m_set_capital(m, i, (a.capital.0 - pay) as u128);
    let a1 = m1.accounts[i];
    EngineModel {
        accounts: m1.accounts.update(
            i,
            Account {
                fee_credits: I128((a1.fee_credits.0 + min_int(pay, i128::MAX as int)) as i128),
                ..a1
            },
        ),
        insurance_fund: InsuranceFund {
            balance: U128(u128_sat(m1.insurance_fund.balance.0 + pay)),
            fee_revenue: if book_revenue {
                U128(u128_sat(m1.insurance_fund.fee_revenue.0 + pay))
            } else {
                m1.insurance_fund.fee_revenue
            },
            ..m1.insurance_fund
        },
        ..m1
    }
}

/// Fee debt is swept from capital into the insurance fund.
pub open spec fn m_fee_debt_sweep(m: EngineModel, i: int) -> EngineModel {
    let a = m.accounts[i];
    let pay = min_int(fee_debt(a.fee_credits.0), a.capital.0 as int);
    if pay > 0 {
        m_pay_fee_debt(m, i, pay, false)
    } else {
        m
    }
}

/// Maintenance fee settlement: the new engine and whether it succeeded.
pub open spec fn m_maint_fee(m: EngineModel, i: int, now: u64) -> (EngineModel, bool) {
    let fee = m.params.maintenance_fee_per_slot.0;
    let a = m.accounts[i];
    if fee == 0 {
        (m_put(m, i, Account { last_fee_slot: now, ..a }), true)
    } else if now < a.last_fee_slot {
        (m, false)
    } else if now == a.last_fee_slot {
        (m, true)
    } else {
        let due = fee * (now - a.last_fee_slot);
        if due > MAX_PROTOCOL_FEE_ABS {
            (m, false)
        } else {
            let m1 = m_put(m, i, Account { last_fee_slot: now, ..a });
            let new_fc = a.fee_credits.0 - due;
            if new_fc < i128::MIN {
                (m1, false)
            } else {
                let m2 = m_put(m1, i, Account { fee_credits: I128(new_fc as i128), ..m1.accounts[i] });
                let pay = min_int(fee_debt(new_fc as i128), a.capital.0 as int);
                if pay > 0 {
                    (m_pay_fee_debt(m2, i, pay, true), true)
                } else {
                    (m2, true)
                }
            }
        }
    }
}

impl RiskEngine {
    /// Replaces account `idx` wholesale.
    pub(crate) fn put_account(&mut self, idx: usize, a: Account)
        requires
            old(self).wf(),
            idx < MAX_ACCOUNTS,
        ensures
            final(self).wf(),
            final(self)@ == m_put(old(self)@, idx as int, a),
    {
        self.accounts.set(idx, a);
    }

    /// Pays as much of `loss` as the insurance fund holds above its floor;
    /// returns the unpaid remainder.
    pub(crate) fn use_insurance_buffer(&mut self, loss: u128) -> (rem: u128)
        ensures
            final(self)@ == m_use_insurance(old(self)@, loss),
            rem == loss - ins_pay(old(self)@, loss),
    {
        if loss == 0 {
            return 0;
        }
        let ins_bal = self.insurance_fund.balance.0;
        let floor = self.params.insurance_floor.0;
        let available = crate::num::sat_sub_u128(ins_bal, floor);
        let pay = crate::num::min_u128(loss, available);
        if pay > 0 {
            self.insurance_fund.balance = U128(ins_bal - pay);
        }
        loss - pay
    }

    /// Protocol loss: the insurance buffer pays what it can; the rest is
    /// borne implicitly through the haircut.
    pub(crate) fn absorb_protocol_loss(&mut self, loss: u128)
        ensures
            final(self)@ == m_use_insurance(old(self)@, loss),
    {
        if loss == 0 {
            return;
        }
        let _rem = self.use_insurance_buffer(loss);
    }

    pub(crate) fn restart_warmup_after_reserve_increase(&mut self, idx: usize)
        requires
            old(self).wf(),
            idx < MAX_ACCOUNTS,
        ensures
            final(self).wf(),
            final(self)@ == m_restart_warmup(old(self)@, idx as int),
    {
        let t = self.params.warmup_period_slots;
        if t == 0 {
            self.set_reserved_pnl(idx, 0);
        }
        let mut acc = self.accounts[idx];
        let r = acc.reserved_pnl;
        if t == 0 || r == 0 {
            acc.warmup_slope_per_step = 0;
        } else {
            let base = r / (t as u128);
            acc.warmup_slope_per_step = if base == 0 {
                1
            } else {
                base
            };
        }
        acc.warmup_started_at_slot = self.current_slot;
        self.put_account(idx, acc);
    }

    pub(crate) fn advance_profit_warmup(&mut self, idx: usize)
        requires
            old(self).wf(),
            idx < MAX_ACCOUNTS,
        ensures
            final(self)@.adl_epoch_long == old(self)@.adl_epoch_long && final(self)@.adl_epoch_short == old(self)@.adl_epoch_short,
            final(self).wf(),
            final(self)@ == m_advance_warmup(old(self)@, idx as int),
    {
        proof {
            reveal(m_advance_warmup);
        }
        let r = self.accounts[idx].reserved_pnl;
        if r == 0 {
            let mut acc = self.accounts[idx];
            acc.warmup_slope_per_step = 0;
            acc.warmup_started_at_slot = self.current_slot;
            self.put_account(idx, acc);
            return;
        }
        let t = self.params.warmup_period_slots;
        if t == 0 {
            self.set_reserved_pnl(idx, 0);
            let mut acc = self.accounts[idx];
            acc.warmup_slope_per_step = 0;
            acc.warmup_started_at_slot = self.current_slot;
            self.put_account(idx, acc);
            return;
        }
        let elapsed = crate::num::sat_sub_u64(
            self.current_slot,
            self.accounts[idx].warmup_started_at_slot,
        );
        let cap = crate::num::sat_mul_u128(self.accounts[idx].warmup_slope_per_step, elapsed as u128);
        let release = crate::num::min_u128(r, cap);
        if release > 0 {
            self.set_reserved_pnl(idx, r - release);
        }
        let mut acc = self.accounts[idx];
        if acc.reserved_pnl == 0 {
            acc.warmup_slope_per_step = 0;
        }
        acc.warmup_started_at_slot = self.current_slot;
        self.put_account(idx, acc);
    }

    pub(crate) fn settle_losses(&mut self, idx: usize)
        requires
            old(self).wf(),
            idx < MAX_ACCOUNTS,
            old(self)@.accounts[idx as int].pnl != i128::MIN,
        ensures
            final(self)@.adl_epoch_long == old(self)@.adl_epoch_long && final(self)@.adl_epoch_short == old(self)@.adl_epoch_short,
            final(self).wf(),
            final(self)@ == m_settle_losses(old(self)@, idx as int),
    {
        let pnl = self.accounts[idx].pnl;
        if pnl >= 0 {
            return;
        }
        let need = crate::num::neg_i128_to_u128(pnl);
        let cap = self.accounts[idx].capital.0;
        let pay = crate::num::min_u128(need, cap);
        if pay > 0 {
            self.set_capital(idx, cap - pay);
            // pay <= -pnl, so pnl + pay lies in [pnl, 0].
            let new_pnl = pnl + (pay as i128);
            self.set_pnl(idx, new_pnl);
        }
    }

    pub(crate) fn resolve_flat_negative(&mut self, idx: usize)
        requires
            old(self).wf(),
            idx < MAX_ACCOUNTS,
            old(self)@.accounts[idx as int].pnl != i128::MIN,
        ensures
            final(self)@.adl_epoch_long == old(self)@.adl_epoch_long && final(self)@.adl_epoch_short == old(self)@.adl_epoch_short,
            final(self).wf(),
            final(self)@ == m_resolve_flat_negative(old(self)@, idx as int),
    {
        let eff = self.effective_pos_q(idx);
        if eff != 0 {
            return;
        }
        let pnl = self.accounts[idx].pnl;
        if pnl < 0 {
            let loss = crate::num::neg_i128_to_u128(pnl);
            self.absorb_protocol_loss(loss);
            self.set_pnl(idx, 0);
        }
    }

    pub(crate) fn do_profit_conversion(&mut self, idx: usize)
        requires
            old(self).wf(),
            idx < MAX_ACCOUNTS,
        ensures
            final(self)@.adl_epoch_long == old(self)@.adl_epoch_long && final(self)@.adl_epoch_short == old(self)@.adl_epoch_short,
            final(self).wf(),
            final(self)@ == m_profit_conversion(old(self)@, idx as int),
    {
        let x = self.released_pos(idx);
        if x == 0 {
            return;
        }
        let (h_num, h_den) = self.haircut_ratio();
        let y: u128 = crate::wide_math::wide_mul_div_floor_u128(x, h_num, h_den);
        self.consume_released_pnl(idx, x);
        let new_cap = crate::num::sat_add_u128(self.accounts[idx].capital.0, y);
        self.set_capital(idx, new_cap);
        if self.accounts[idx].reserved_pnl == 0 {
            let mut acc = self.accounts[idx];
            acc.warmup_slope_per_step = 0;
            acc.warmup_started_at_slot = self.current_slot;
            self.put_account(idx, acc);
        }
    }

    /// Pays `pay` of fee debt from capital into insurance (and optionally revenue).
    pub(crate) fn pay_fee_debt(&mut self, idx: usize, pay: u128, book_revenue: bool)
        requires
            old(self).wf(),
            idx < MAX_ACCOUNTS,
            0 < pay <= old(self)@.accounts[idx as int].capital.0,
            pay <= fee_debt(old(self)@.accounts[idx as int].fee_credits.0),
        ensures
            final(self).wf(),
            final(self)@ == m_pay_fee_debt(old(self)@, idx as int, pay as int, book_revenue),
    {
        let cap = self.accounts[idx].capital.0;
        self.set_capital(idx, cap - pay);
        let mut acc = self.accounts[idx];
        let pay_i128: i128 = if pay > i128::MAX as u128 {
            i128::MAX
        } else {
            pay as i128
        };
        // fee_credits <= -pay, so adding at most pay stays in range.
        acc.fee_credits = I128(acc.fee_credits.0 + pay_i128);
        self.put_account(idx, acc);
        self.insurance_fund.balance = U128(
            crate::num::sat_add_u128(self.insurance_fund.balance.0, pay),
        );
        if book_revenue {
            self.insurance_fund.fee_revenue = U128(
                crate::num::sat_add_u128(self.insurance_fund.fee_revenue.0, pay),
            );
        }
    }

    pub(crate) fn fee_debt_sweep(&mut self, idx: usize)
        requires
            old(self).wf(),
            idx < MAX_ACCOUNTS,
        ensures
            final(self)@.adl_epoch_long == old(self)@.adl_epoch_long && final(self)@.adl_epoch_short == old(self)@.adl_epoch_short,
            final(self).wf(),
            final(self)@ == m_fee_debt_sweep(old(self)@, idx as int),
    {
        let fc = self.accounts[idx].fee_credits.0;
        let debt = crate::num::clamp_neg_i128(fc);
        if debt == 0 {
            return;
        }
        let cap = self.accounts[idx].capital.0;
        let pay = crate::num::min_u128(debt, cap);
        if pay > 0 {
            self.pay_fee_debt(idx, pay, false);
        }
    }

    /// Charges maintenance fees accrued since the account's last fee slot.
    pub(crate) fn settle_maintenance_fee_internal(&mut self, idx: usize, now_slot: u64) -> (r:
        crate::engine::types::RiskResult<()>)
        requires
            old(self).wf(),
            idx < MAX_ACCOUNTS,
        ensures
            final(self)@.adl_epoch_long == old(self)@.adl_epoch_long && final(self)@.adl_epoch_short == old(self)@.adl_epoch_short,
            final(self).wf(),
            final(self)@ == m_maint_fee(old(self)@, idx as int, now_slot).0,
            r is Ok <==> m_maint_fee(old(self)@, idx as int, now_slot).1,
            r is Err ==> r == Err::<(), _>(crate::engine::types::RiskError::Overflow),
    {
        let fee_per_slot = self.params.maintenance_fee_per_slot.0;
        if fee_per_slot == 0 {
            let mut acc = self.accounts[idx];
            acc.last_fee_slot = now_slot;
            self.put_account(idx, acc);
            return Ok(());
        }
        let last_slot = self.accounts[idx].last_fee_slot;
        if now_slot < last_slot {
            return Err(crate::engine::types::RiskError::Overflow);
        }
        let dt = now_slot - last_slot;
        if dt == 0 {
            return Ok(());
        }
        let fee_due = match fee_per_slot.checked_mul(dt as u128) {
            Some(v) => v,
            None => {
                return Err(crate::engine::types::RiskError::Overflow);
            },
        };
        if fee_due > MAX_PROTOCOL_FEE_ABS {
            return Err(crate::engine::types::RiskError::Overflow);
        }
        let mut acc = self.accounts[idx];
        acc.last_fee_slot = now_slot;
        self.put_account(idx, acc);
        let fc = self.accounts[idx].fee_credits.0;
        let new_fc = match fc.checked_sub(fee_due as i128) {
            Some(v) => v,
            None => {
                return Err(crate::engine::types::RiskError::Overflow);
            },
        };
        let mut acc = self.accounts[idx];
        acc.fee_credits = I128(new_fc);
        self.put_account(idx, acc);
        if new_fc < 0 {
            let debt = crate::num::neg_i128_to_u128(new_fc);
            let cap = self.accounts[idx].capital.0;
            let pay = crate::num::min_u128(debt, cap);
            if pay > 0 {
                self.pay_fee_debt(idx, pay, true);
            }
        }
        Ok(())
    }
}

} // verus!
