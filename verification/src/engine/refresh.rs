//! The full refresh of one account: accrue the market to the current slot,
//! then bring the account up to date step by step.
use vstd::prelude::*;
use crate::num::{u128_sat, I128, U128};
use crate::engine::types::{
    Account, InstructionContext, InsuranceFund, RiskError, RiskResult, MAX_ABS_FUNDING_BPS_PER_SLOT, MAX_ACCOUNTS,
    MAX_ORACLE_PRICE, POS_SCALE,
};
use crate::engine::ledger::{haircut_spec, m_consume_released, m_put, m_set_capital, released_of};
use crate::wide_math::floor_div;
use crate::engine::slots::m_free;
use crate::engine::positions::abs_int;
use crate::engine::margin::{clamp_i128_sym, equity_net_spec, im_req, init_raw, mm_req, req_i128, sat_fd};
use crate::engine::crank::lifecycle_spec;
use crate::engine::state::{EngineModel, RiskEngine};
use crate::engine::positions::eff_pos_spec;
use crate::engine::settle::{
    m_advance_warmup, m_fee_debt_sweep, m_maint_fee, m_profit_conversion, m_resolve_flat_negative,
    m_settle_losses,
};
use crate::engine::sides::settle_side_spec;
use crate::engine::market::accrue_spec;

verus! {

/// The account steps after the market accrual: warmup, A/K side effects,
/// losses from principal, a flat negative remainder, maintenance fees, the
/// conversion of released profit when flat, and the fee-debt sweep.
#[verifier::opaque]
pub open spec fn refresh_steps(m1: EngineModel, i: int, now: u64) -> (EngineModel, RiskResult<()>) {
    let m2 = m_advance_warmup(m1, i);
    match settle_side_spec(m2, i) {
        Err(e) => (m2, Err(e)),
        Ok(m3) => {
            let m4 = if m3.accounts[i].pnl != i128::MIN {
                m_settle_losses(m3, i)
            } else {
                m3
            };
            let m5 = if eff_pos_spec(m4, i) == 0 && m4.accounts[i].pnl < 0 && m4.accounts[i].pnl
                != i128::MIN {
                m_resolve_flat_negative(m4, i)
            } else {
                m4
            };
            let (m6, ok) = m_maint_fee(m5, i, now);
            if !ok {
                (m6, Err(RiskError::Overflow))
            } else {
                let m7 = if m6.accounts[i].position_basis_q == 0 {
                    m_profit_conversion(m6, i)
                } else {
                    m6
                };
                (m_fee_debt_sweep(m7, i), Ok(()))
            }
        },
    }
}

/// Full refresh of account `i` at `now` and `price`: the engine after it and
/// the result. On an error after the accrual the steps already taken stay.
pub open spec fn touch_full_spec(m: EngineModel, i: int, price: u64, now: u64) -> (
    EngineModel,
    RiskResult<()>,
) {
    if i >= MAX_ACCOUNTS || !m.is_used(i) {
        (m, Err(RiskError::AccountNotFound))
    } else if now < m.current_slot || now < m.last_market_slot || price == 0 || price
        > MAX_ORACLE_PRICE {
        (m, Err(RiskError::Overflow))
    } else {
        let m0 = EngineModel { current_slot: now, ..m };
        match accrue_spec(m0, now, price) {
            None => (m0, Err(RiskError::Overflow)),
            Some(m1) => refresh_steps(m1, i, now),
        }
    }
}

impl RiskEngine {
    #[verifier::spinoff_prover]
    fn refresh_account_steps(&mut self, idx: usize, now_slot: u64) -> (r: RiskResult<()>)
        requires
            old(self).wf(),
            idx < MAX_ACCOUNTS,
        ensures
            final(self).wf(),
            final(self)@.adl_epoch_long == old(self)@.adl_epoch_long,
            final(self)@.adl_epoch_short == old(self)@.adl_epoch_short,
            (final(self)@, r) == refresh_steps(old(self)@, idx as int, now_slot),
    {
        proof {
            reveal(refresh_steps);
        }
        self.advance_profit_warmup(idx);
        match self.settle_side_effects(idx) {
            Ok(()) => {},
            Err(e) => {
                return Err(e);
            },
        }
        if self.accounts[idx].pnl != i128::MIN {
            self.settle_losses(idx);
        }
        let eff = self.effective_pos_q(idx);
        let pnl = self.accounts[idx].pnl;
        if eff == 0 && pnl < 0 && pnl != i128::MIN {
            self.resolve_flat_negative(idx);
        }
        match self.settle_maintenance_fee_internal(idx, now_slot) {
            Ok(()) => {},
            Err(e) => {
                return Err(e);
            },
        }
        if self.accounts[idx].position_basis_q == 0 {
            self.do_profit_conversion(idx);
        }
        self.fee_debt_sweep(idx);
        Ok(())
    }

    /// Brings account `idx` fully up to date at `now_slot` and
    /// `oracle_price`; steps already taken stay when a later one fails.
    pub fn touch_account_full_not_atomic(&mut self, idx: usize, oracle_price: u64, now_slot: u64) -> (r:
        RiskResult<()>)
        requires
            old(self).wf(),
        ensures
            final(self).wf(),
            final(self)@.adl_epoch_long == old(self)@.adl_epoch_long,
            final(self)@.adl_epoch_short == old(self)@.adl_epoch_short,
            (final(self)@, r) == touch_full_spec(old(self)@, idx as int, oracle_price, now_slot),
    {
        if idx >= MAX_ACCOUNTS || !self.is_used(idx) {
            return Err(RiskError::AccountNotFound);
        }
        if now_slot < self.current_slot {
            return Err(RiskError::Overflow);
        }
        if now_slot < self.last_market_slot {
            return Err(RiskError::Overflow);
        }
        if oracle_price == 0 || oracle_price > MAX_ORACLE_PRICE {
            return Err(RiskError::Overflow);
        }
        self.current_slot = now_slot;
        match self.accrue_market_to(now_slot, oracle_price) {
            Ok(()) => {},
            Err(e) => {
                return Err(e);
            },
        }
        self.refresh_account_steps(idx, now_slot)
    }
}


/// Initial-margin test of account `i` in state `m` at `price`.
pub open spec fn im_ok(m: EngineModel, i: int, price: u64) -> bool {
    let a = m.accounts[i];
    if eff_pos_spec(m, i) == 0 {
        clamp_i128_sym(init_raw(m, a)) >= 0
    } else {
        clamp_i128_sym(init_raw(m, a)) >= req_i128(
            im_req(m, sat_fd(abs_int(eff_pos_spec(m, i)), price as int, POS_SCALE as int)),
        )
    }
}

/// The withdrawal after the full refresh: capital and dust checks, the
/// initial-margin check on the state with the withdrawal applied, the
/// commit (capital and vault), then the end-of-instruction lifecycle.
#[verifier::opaque]
pub open spec fn withdraw_tail(m1: EngineModel, i: int, amount: u128, price: u64, rate: i64) -> (
    EngineModel,
    RiskResult<()>,
) {
    let c = m1.accounts[i].capital.0;
    if c < amount {
        (m1, Err(RiskError::InsufficientBalance))
    } else {
        let post = (c - amount) as u128;
        let m2 = EngineModel {
            vault: U128(u128_sat(m1.vault.0 - amount)),
            ..m_set_capital(m1, i, post)
        };
        if post != 0 && post < m1.params.min_initial_deposit.0 {
            (m1, Err(RiskError::InsufficientBalance))
        } else if eff_pos_spec(m1, i) != 0 && !im_ok(m2, i, price) {
            (m1, Err(RiskError::Undercollateralized))
        } else {
            match lifecycle_spec(m2, rate) {
                None => (m2, Err(RiskError::CorruptState)),
                Some(m3) => (m3, Ok(())),
            }
        }
    }
}

/// Withdrawal of `amount` from account `idx` after its full refresh; steps
/// already taken stay when a later one fails.
pub open spec fn withdraw_na_spec(
    m: EngineModel,
    idx: u16,
    amount: u128,
    price: u64,
    now: u64,
    rate: i64,
) -> (EngineModel, RiskResult<()>) {
    if !(-MAX_ABS_FUNDING_BPS_PER_SLOT <= rate <= MAX_ABS_FUNDING_BPS_PER_SLOT) {
        (m, Err(RiskError::Overflow))
    } else if price == 0 || price > MAX_ORACLE_PRICE {
        (m, Err(RiskError::Overflow))
    } else if idx >= MAX_ACCOUNTS || !m.is_used(idx as int) {
        (m, Err(RiskError::AccountNotFound))
    } else {
        match touch_full_spec(m, idx as int, price, now) {
            (m1, Err(e)) => (m1, Err(e)),
            (m1, Ok(_)) => withdraw_tail(m1, idx as int, amount, price, rate),
        }
    }
}

impl RiskEngine {
    #[verifier::spinoff_prover]
    fn withdraw_after_refresh(&mut self, i: usize, amount: u128, oracle_price: u64, funding_rate: i64) -> (r:
        RiskResult<()>)
        requires
            old(self).wf(),
            i < MAX_ACCOUNTS,
            old(self)@.adl_epoch_long < u64::MAX,
            old(self)@.adl_epoch_short < u64::MAX,
            -MAX_ABS_FUNDING_BPS_PER_SLOT <= funding_rate <= MAX_ABS_FUNDING_BPS_PER_SLOT,
        ensures
            final(self).wf(),
            (final(self)@, r) == withdraw_tail(old(self)@, i as int, amount, oracle_price, funding_rate),
    {
        proof {
            reveal(withdraw_tail);
        }
        let c = self.accounts[i].capital.0;
        if c < amount {
            return Err(RiskError::InsufficientBalance);
        }
        let post = c - amount;
        if post != 0 && post < self.params.min_initial_deposit.0 {
            return Err(RiskError::InsufficientBalance);
        }
        let eff = self.effective_pos_q(i);
        let saved_account = self.accounts[i];
        let saved_c_tot = self.c_tot;
        let saved_vault = self.vault;
        let ghost m1 = self@;
        self.set_capital(i, post);
        self.vault = U128(crate::num::sat_sub_u128(self.vault.0, amount));
        if eff != 0 {
            let acc = self.accounts[i];
            let passes = self.is_above_initial_margin(&acc, i, oracle_price);
            if !passes {
                self.put_account(i, saved_account);
                self.c_tot = saved_c_tot;
                self.vault = saved_vault;
                proof {
                    assert(self@.accounts =~= m1.accounts);
                    assert(self@ == m1);
                }
                return Err(RiskError::Undercollateralized);
            }
        }
        let mut ctx = InstructionContext { pending_reset_long: false, pending_reset_short: false };
        match self.run_end_of_instruction_lifecycle(&mut ctx, funding_rate) {
            Ok(()) => Ok(()),
            Err(e) => Err(e),
        }
    }

    /// Withdraws `amount` from account `idx` after its full refresh: capital
    /// must cover it, what stays must be zero or at least the minimum initial
    /// deposit, an open position must still meet initial margin, then the
    /// end-of-instruction lifecycle runs. Steps already taken stay on an error.
    pub fn withdraw_not_atomic(
        &mut self,
        idx: u16,
        amount: u128,
        oracle_price: u64,
        now_slot: u64,
        funding_rate: i64,
    ) -> (r: RiskResult<()>)
        requires
            old(self).wf(),
            old(self)@.adl_epoch_long < u64::MAX,
            old(self)@.adl_epoch_short < u64::MAX,
        ensures
            final(self).wf(),
            (final(self)@, r) == withdraw_na_spec(
                old(self)@,
                idx,
                amount,
                oracle_price,
                now_slot,
                funding_rate,
            ),
    {
        match Self::validate_funding_rate(funding_rate) {
            Ok(()) => {},
            Err(e) => {
                return Err(e);
            },
        }
        if oracle_price == 0 || oracle_price > MAX_ORACLE_PRICE {
            return Err(RiskError::Overflow);
        }
        if idx as usize >= MAX_ACCOUNTS || !self.is_used(idx as usize) {
            return Err(RiskError::AccountNotFound);
        }
        match self.touch_account_full_not_atomic(idx as usize, oracle_price, now_slot) {
            Ok(()) => {},
            Err(e) => {
                return Err(e);
            },
        }
        self.withdraw_after_refresh(idx as usize, amount, oracle_price, funding_rate)
    }
}


/// The close after the full refresh: flat and zero-PnL checks, fee debt
/// forgiven, capital paid out of the vault, the end-of-instruction lifecycle,
/// then the slot is freed; the result is the capital paid.
#[verifier::opaque]
pub open spec fn close_na_tail(m1: EngineModel, i: int, rate: i64) -> (EngineModel, RiskResult<u128>) {
    let a = m1.accounts[i];
    if eff_pos_spec(m1, i) != 0 {
        (m1, Err(RiskError::Undercollateralized))
    } else if a.pnl > 0 {
        (m1, Err(RiskError::PnlNotWarmedUp))
    } else if a.pnl < 0 {
        (m1, Err(RiskError::Undercollateralized))
    } else {
        let m2 = if a.fee_credits.0 < 0 {
            m_put(m1, i, Account { fee_credits: I128(0), ..a })
        } else {
            m1
        };
        let cap = m2.accounts[i].capital.0;
        if cap > m2.vault.0 {
            (m2, Err(RiskError::InsufficientBalance))
        } else {
            let m3 = m_set_capital(EngineModel { vault: U128((m2.vault.0 - cap) as u128), ..m2 }, i, 0);
            match lifecycle_spec(m3, rate) {
                None => (m3, Err(RiskError::CorruptState)),
                Some(m4) => (m_free(m4, i), Ok(cap)),
            }
        }
    }
}

/// Close of account `idx` after its full refresh; steps already taken stay
/// when a later one fails.
pub open spec fn close_na_spec(m: EngineModel, idx: u16, now: u64, price: u64, rate: i64) -> (
    EngineModel,
    RiskResult<u128>,
) {
    if !(-MAX_ABS_FUNDING_BPS_PER_SLOT <= rate <= MAX_ABS_FUNDING_BPS_PER_SLOT) {
        (m, Err(RiskError::Overflow))
    } else if idx >= MAX_ACCOUNTS || !m.is_used(idx as int) {
        (m, Err(RiskError::AccountNotFound))
    } else {
        match touch_full_spec(m, idx as int, price, now) {
            (m1, Err(e)) => (m1, Err(e)),
            (m1, Ok(_)) => close_na_tail(m1, idx as int, rate),
        }
    }
}

impl RiskEngine {
    #[verifier::spinoff_prover]
    fn close_after_refresh(&mut self, idx: u16, funding_rate: i64) -> (r: RiskResult<u128>)
        requires
            old(self).wf(),
            idx < MAX_ACCOUNTS,
            old(self)@.adl_epoch_long < u64::MAX,
            old(self)@.adl_epoch_short < u64::MAX,
            -MAX_ABS_FUNDING_BPS_PER_SLOT <= funding_rate <= MAX_ABS_FUNDING_BPS_PER_SLOT,
        ensures
            final(self).wf(),
            (final(self)@, r) == close_na_tail(old(self)@, idx as int, funding_rate),
    {
        proof {
            reveal(close_na_tail);
        }
        let i = idx as usize;
        if self.effective_pos_q(i) != 0 {
            return Err(RiskError::Undercollateralized);
        }
        let a = self.accounts[i];
        if a.pnl > 0 {
            return Err(RiskError::PnlNotWarmedUp);
        }
        if a.pnl < 0 {
            return Err(RiskError::Undercollateralized);
        }
        if a.fee_credits.0 < 0 {
            let mut a2 = a;
            a2.fee_credits = I128(0);
            self.put_account(i, a2);
        }
        let cap = self.accounts[i].capital.0;
        if cap > self.vault.0 {
            return Err(RiskError::InsufficientBalance);
        }
        self.vault = U128(self.vault.0 - cap);
        self.set_capital(i, 0);
        let mut ctx = InstructionContext { pending_reset_long: false, pending_reset_short: false };
        match self.run_end_of_instruction_lifecycle(&mut ctx, funding_rate) {
            Ok(()) => {},
            Err(e) => {
                return Err(e);
            },
        }
        self.free_slot(idx);
        Ok(cap)
    }

    /// Closes account `idx` after its full refresh: it must be flat with zero
    /// PnL; remaining fee debt is forgiven, the capital is paid out of the
    /// vault and returned, and the slot is freed after the end-of-instruction
    /// lifecycle. Steps already taken stay on an error.
    pub fn close_account_not_atomic(&mut self, idx: u16, now_slot: u64, oracle_price: u64, funding_rate: i64) -> (r:
        RiskResult<u128>)
        requires
            old(self).wf(),
            old(self)@.adl_epoch_long < u64::MAX,
            old(self)@.adl_epoch_short < u64::MAX,
        ensures
            final(self).wf(),
            (final(self)@, r) == close_na_spec(old(self)@, idx, now_slot, oracle_price, funding_rate),
    {
        match Self::validate_funding_rate(funding_rate) {
            Ok(()) => {},
            Err(e) => {
                return Err(e);
            },
        }
        if idx as usize >= MAX_ACCOUNTS || !self.is_used(idx as usize) {
            return Err(RiskError::AccountNotFound);
        }
        match self.touch_account_full_not_atomic(idx as usize, oracle_price, now_slot) {
            Ok(()) => {},
            Err(e) => {
                return Err(e);
            },
        }
        self.close_after_refresh(idx, funding_rate)
    }
}

/// Reclaim of an empty account: it must be flat with zero PnL, no reserve
/// and no positive fee credits; the slot is anchored at `now`, maintenance
/// fees are realized, the remaining capital must be zero or below the
/// minimum initial deposit (dust capital goes to insurance), fee debt is
/// forgiven and the slot is freed.
pub open spec fn reclaim_spec(m: EngineModel, idx: u16, now: u64) -> (EngineModel, RiskResult<()>) {
    let i = idx as int;
    if idx >= MAX_ACCOUNTS || !m.is_used(i) {
        (m, Err(RiskError::AccountNotFound))
    } else if now < m.current_slot {
        (m, Err(RiskError::Overflow))
    } else if m.accounts[i].position_basis_q != 0 || m.accounts[i].pnl != 0
        || m.accounts[i].reserved_pnl != 0 || m.accounts[i].fee_credits.0 > 0 {
        (m, Err(RiskError::Undercollateralized))
    } else {
        let (m1, ok) = m_maint_fee(EngineModel { current_slot: now, ..m }, i, now);
        let c = m1.accounts[i].capital.0;
        if !ok {
            (m1, Err(RiskError::Overflow))
        } else if c >= m1.params.min_initial_deposit.0 && c != 0 {
            (m1, Err(RiskError::Undercollateralized))
        } else {
            let m2 = if c > 0 {
                let t = m_set_capital(m1, i, 0);
                EngineModel {
                    insurance_fund: InsuranceFund {
                        balance: U128(u128_sat(t.insurance_fund.balance.0 + c)),
                        ..t.insurance_fund
                    },
                    ..t
                }
            } else {
                m1
            };
            let a2 = m2.accounts[i];
            let m3 = if a2.fee_credits.0 < 0 {
                m_put(m2, i, Account { fee_credits: I128(0), ..a2 })
            } else {
                m2
            };
            (m_free(m3, i), Ok(()))
        }
    }
}

impl RiskEngine {
    /// Reclaims an empty account (see `reclaim_spec`); steps already taken
    /// stay on an error.
    pub fn reclaim_empty_account_not_atomic(&mut self, idx: u16, now_slot: u64) -> (r: RiskResult<()>)
        requires
            old(self).wf(),
        ensures
            final(self).wf(),
            (final(self)@, r) == reclaim_spec(old(self)@, idx, now_slot),
            idx < MAX_ACCOUNTS && crate::engine::conservation::conserves(old(self)@)
                && crate::engine::guarantees::covered(old(self)@, idx as int)
                ==> crate::engine::conservation::conserves(final(self)@),
    {
        proof {
            if idx < MAX_ACCOUNTS && crate::engine::conservation::conserves(self@)
                && crate::engine::guarantees::covered(self@, idx as int) {
                crate::engine::guarantees::lemma_reclaim_conserves(self@, idx, now_slot);
            }
        }
        if idx as usize >= MAX_ACCOUNTS || !self.is_used(idx as usize) {
            return Err(RiskError::AccountNotFound);
        }
        if now_slot < self.current_slot {
            return Err(RiskError::Overflow);
        }
        let i = idx as usize;
        let a = self.accounts[i];
        if a.position_basis_q != 0 || a.pnl != 0 || a.reserved_pnl != 0 || a.fee_credits.0 > 0 {
            return Err(RiskError::Undercollateralized);
        }
        self.current_slot = now_slot;
        match self.settle_maintenance_fee_internal(i, now_slot) {
            Ok(()) => {},
            Err(e) => {
                return Err(e);
            },
        }
        let c = self.accounts[i].capital.0;
        if c >= self.params.min_initial_deposit.0 && c != 0 {
            return Err(RiskError::Undercollateralized);
        }
        if c > 0 {
            self.set_capital(i, 0);
            self.insurance_fund.balance = U128(crate::num::sat_add_u128(self.insurance_fund.balance.0, c));
        }
        let a2 = self.accounts[i];
        if a2.fee_credits.0 < 0 {
            let mut a3 = a2;
            a3.fee_credits = I128(0);
            self.put_account(i, a3);
        }
        self.free_slot(idx);
        Ok(())
    }
}

/// Maintenance-margin test of account `i` in state `m` at `price`.
pub open spec fn mm_ok(m: EngineModel, i: int, price: u64) -> bool {
    let a = m.accounts[i];
    if eff_pos_spec(m, i) == 0 {
        equity_net_spec(a) > 0
    } else {
        equity_net_spec(a) > req_i128(
            mm_req(m, sat_fd(abs_int(eff_pos_spec(m, i)), price as int, POS_SCALE as int)),
        )
    }
}

/// The conversion proper on a non-flat account: `x` must be positive and at
/// most the released profit, which is consumed and credited to capital at
/// the haircut; fee debt is swept and the position must stay above
/// maintenance margin.
#[verifier::opaque]
pub open spec fn convert_core(m1: EngineModel, i: int, x: u128, price: u64) -> (
    EngineModel,
    RiskResult<()>,
) {
    let a = m1.accounts[i];
    if x == 0 || x > released_of(a.pnl, a.reserved_pnl) {
        (m1, Err(RiskError::Overflow))
    } else {
        let h = haircut_spec(m1);
        let y = if floor_div(x as int, h.0, h.1) > u128::MAX {
            u128::MAX as int
        } else {
            floor_div(x as int, h.0, h.1)
        };
        let m2 = m_consume_released(m1, i, x);
        let m3 = m_set_capital(m2, i, u128_sat(m2.accounts[i].capital.0 + y));
        let m4 = m_fee_debt_sweep(m3, i);
        if eff_pos_spec(m4, i) != 0 && !mm_ok(m4, i, price) {
            (m4, Err(RiskError::Undercollateralized))
        } else {
            (m4, Ok(()))
        }
    }
}

/// The explicit conversion after the full refresh: a flat account (its
/// released profit was converted by the refresh) only runs the lifecycle;
/// otherwise the conversion proper, then the lifecycle.
pub open spec fn convert_tail(m1: EngineModel, i: int, x: u128, price: u64, rate: i64) -> (
    EngineModel,
    RiskResult<()>,
) {
    let m4 = if m1.accounts[i].position_basis_q == 0 {
        Ok(m1)
    } else {
        match convert_core(m1, i, x, price) {
            (m, Err(e)) => Err((m, e)),
            (m, Ok(_)) => Ok(m),
        }
    };
    match m4 {
        Err((m, e)) => (m, Err(e)),
        Ok(m) => match lifecycle_spec(m, rate) {
            None => (m, Err(RiskError::CorruptState)),
            Some(m5) => (m5, Ok(())),
        },
    }
}

/// Conversion of `x` released profit of account `idx` after its full
/// refresh; steps already taken stay when a later one fails.
pub open spec fn convert_na_spec(
    m: EngineModel,
    idx: u16,
    x: u128,
    price: u64,
    now: u64,
    rate: i64,
) -> (EngineModel, RiskResult<()>) {
    if !(-MAX_ABS_FUNDING_BPS_PER_SLOT <= rate <= MAX_ABS_FUNDING_BPS_PER_SLOT) {
        (m, Err(RiskError::Overflow))
    } else if price == 0 || price > MAX_ORACLE_PRICE {
        (m, Err(RiskError::Overflow))
    } else if idx >= MAX_ACCOUNTS || !m.is_used(idx as int) {
        (m, Err(RiskError::AccountNotFound))
    } else {
        match touch_full_spec(m, idx as int, price, now) {
            (m1, Err(e)) => (m1, Err(e)),
            (m1, Ok(_)) => convert_tail(m1, idx as int, x, price, rate),
        }
    }
}

impl RiskEngine {
    #[verifier::spinoff_prover]
    fn convert_step(&mut self, i: usize, x_req: u128, oracle_price: u64) -> (r: RiskResult<()>)
        requires
            old(self).wf(),
            i < MAX_ACCOUNTS,
        ensures
            final(self).wf(),
            final(self)@.adl_epoch_long == old(self)@.adl_epoch_long,
            final(self)@.adl_epoch_short == old(self)@.adl_epoch_short,
            (final(self)@, r) == convert_core(old(self)@, i as int, x_req, oracle_price),
    {
        proof {
            reveal(convert_core);
        }
        let released = self.released_pos(i);
        if x_req == 0 || x_req > released {
            return Err(RiskError::Overflow);
        }
        let (h_num, h_den) = self.haircut_ratio();
        proof {
            crate::engine::guarantees::lemma_haircut_is_fraction(self@);
        }
        let y: u128 = crate::wide_math::wide_mul_div_floor_u128(x_req, h_num, h_den);
        self.consume_released_pnl(i, x_req);
        let new_cap = crate::num::sat_add_u128(self.accounts[i].capital.0, y);
        self.set_capital(i, new_cap);
        self.fee_debt_sweep(i);
        let eff = self.effective_pos_q(i);
        if eff != 0 {
            let acc = self.accounts[i];
            if !self.is_above_maintenance_margin(&acc, i, oracle_price) {
                return Err(RiskError::Undercollateralized);
            }
        }
        Ok(())
    }

    fn convert_after_refresh(&mut self, i: usize, x_req: u128, oracle_price: u64, funding_rate: i64) -> (r:
        RiskResult<()>)
        requires
            old(self).wf(),
            i < MAX_ACCOUNTS,
            old(self)@.adl_epoch_long < u64::MAX,
            old(self)@.adl_epoch_short < u64::MAX,
            -MAX_ABS_FUNDING_BPS_PER_SLOT <= funding_rate <= MAX_ABS_FUNDING_BPS_PER_SLOT,
        ensures
            final(self).wf(),
            (final(self)@, r) == convert_tail(old(self)@, i as int, x_req, oracle_price, funding_rate),
    {
        if self.accounts[i].position_basis_q != 0 {
            match self.convert_step(i, x_req, oracle_price) {
                Ok(()) => {},
                Err(e) => {
                    return Err(e);
                },
            }
        }
        let mut ctx = InstructionContext { pending_reset_long: false, pending_reset_short: false };
        match self.run_end_of_instruction_lifecycle(&mut ctx, funding_rate) {
            Ok(()) => Ok(()),
            Err(e) => Err(e),
        }
    }

    /// Converts `x_req` of released profit of account `idx` to capital at
    /// the haircut after its full refresh (see `convert_tail`); steps already
    /// taken stay on an error.
    pub fn convert_released_pnl_not_atomic(
        &mut self,
        idx: u16,
        x_req: u128,
        oracle_price: u64,
        now_slot: u64,
        funding_rate: i64,
    ) -> (r: RiskResult<()>)
        requires
            old(self).wf(),
            old(self)@.adl_epoch_long < u64::MAX,
            old(self)@.adl_epoch_short < u64::MAX,
        ensures
            final(self).wf(),
            (final(self)@, r) == convert_na_spec(
                old(self)@,
                idx,
                x_req,
                oracle_price,
                now_slot,
                funding_rate,
            ),
    {
        match Self::validate_funding_rate(funding_rate) {
            Ok(()) => {},
            Err(e) => {
                return Err(e);
            },
        }
        if oracle_price == 0 || oracle_price > MAX_ORACLE_PRICE {
            return Err(RiskError::Overflow);
        }
        if idx as usize >= MAX_ACCOUNTS || !self.is_used(idx as usize) {
            return Err(RiskError::AccountNotFound);
        }
        match self.touch_account_full_not_atomic(idx as usize, oracle_price, now_slot) {
            Ok(()) => {},
            Err(e) => {
                return Err(e);
            },
        }
        self.convert_after_refresh(idx as usize, x_req, oracle_price, funding_rate)
    }
}
} // verus!
