//! Funding: the global funding index, per-account funding settlement,
//! premium/inventory/adaptive rates, mark price and the trade TWAP.
use vstd::prelude::*;
use crate::num::{i128_sat, u128_sat};
use crate::engine::types::{
    Account, RiskError, RiskResult, MAX_ABS_FUNDING_BPS_PER_SLOT, MAX_ACCOUNTS, MAX_ORACLE_PRICE,
};
use crate::engine::state::{EngineModel, RiskEngine};
use crate::engine::ledger::{m_put, m_set_pnl, max_int, min_int, pos_part};
use crate::engine::positions::abs_int;
use crate::engine::margin::{mark_pnl_spec, trunc_div};
use crate::engine::admin::wrap_i128;

verus! {

/// Rust's truncating `/` for any non-zero divisor.
pub open spec fn trunc_div_any(a: int, d: int) -> int {
    let q = abs_int(a) / abs_int(d);
    if (a < 0) != (d < 0) {
        -q
    } else {
        q
    }
}

pub open spec fn clamp_int(v: int, lo: int, hi: int) -> int {
    if v < lo {
        lo
    } else if v > hi {
        hi
    } else {
        v
    }
}

/// Funding settlement of account `i` against the global index.
pub open spec fn settle_funding_spec(m: EngineModel, i: int) -> Result<EngineModel, RiskError> {
    let a = m.accounts[i];
    let g = m.funding_index_qpb_e6;
    let d = g - a.funding_index;
    if !(i64::MIN <= d <= i64::MAX) {
        Err(RiskError::Overflow)
    } else if d != 0 && a.position_size != 0 {
        let raw = a.position_size * d;
        if !(i128::MIN <= raw <= i128::MAX) {
            Err(RiskError::Overflow)
        } else {
            let new_pnl = a.pnl - trunc_div(raw, 1_000_000);
            if !(i128::MIN <= new_pnl <= i128::MAX) {
                Err(RiskError::Overflow)
            } else {
                let m1 = m_set_pnl(m, i, new_pnl as i128);
                Ok(m_put(m1, i, Account { funding_index: g, ..m1.accounts[i] }))
            }
        }
    } else {
        Ok(m_put(m, i, Account { funding_index: g, ..a }))
    }
}

/// Mark settlement of account `i` at `price` (saturating when `best_effort`).
pub open spec fn settle_mark_spec(m: EngineModel, i: int, price: u64, best_effort: bool) -> Result<
    EngineModel,
    RiskError,
> {
    let a = m.accounts[i];
    if a.position_size == 0 {
        Ok(m_put(m, i, Account { entry_price: price, ..a }))
    } else {
        match mark_pnl_spec(a.position_size, a.entry_price, price) {
            None => Err(RiskError::Overflow),
            Some(mark) => {
                let sum = a.pnl + mark;
                if !best_effort && !(i128::MIN <= sum <= i128::MAX) {
                    Err(RiskError::Overflow)
                } else {
                    let new_pnl: i128 = if best_effort {
                        i128_sat(sum)
                    } else {
                        sum as i128
                    };
                    let m1 = m_set_pnl(m, i, new_pnl);
                    Ok(m_put(m1, i, Account { entry_price: price, ..m1.accounts[i] }))
                }
            },
        }
    }
}

/// Warmup slope for positive PnL `avail` over `t` slots (instant when `t` is 0).
pub open spec fn warmup_slope_spec(avail: int, t: u64) -> int {
    if t > 0 {
        if avail > 0 {
            max_int(1, avail / (t as int))
        } else {
            0
        }
    } else {
        avail
    }
}

/// Global funding accrual: the engine, or the error.
pub open spec fn accrue_funding_spec(m: EngineModel, now: u64, price: u64) -> Result<
    EngineModel,
    RiskError,
> {
    let dt = max_int(now - m.last_funding_slot, 0);
    let rate = if m.funding_frozen {
        m.funding_frozen_rate_snapshot
    } else {
        m.funding_rate_bps_per_slot_last
    };
    if dt == 0 {
        Ok(m)
    } else if price == 0 || price > MAX_ORACLE_PRICE {
        Err(RiskError::Overflow)
    } else if abs_int(rate as int) > 10_000 {
        Ok(EngineModel { funding_rate_bps_per_slot_last: 0, last_funding_slot: now, ..m })
    } else if dt > 31_536_000 {
        Err(RiskError::Overflow)
    } else {
        let delta = trunc_div(price * rate * dt, 10_000);
        let fi = m.funding_index_qpb_e6 + delta;
        if !(i64::MIN <= delta <= i64::MAX) || !(i64::MIN <= fi <= i64::MAX) {
            Err(RiskError::Overflow)
        } else {
            Ok(EngineModel { funding_index_qpb_e6: fi as i64, last_funding_slot: now, ..m })
        }
    }
}

pub open spec fn premium_rate_spec(mark: u64, index: u64, damp: u64, max_bps: i64) -> i64 {
    if mark == 0 || index == 0 || damp == 0 {
        0
    } else {
        let num = (mark - index) * 10_000_000_000;
        let prod = index * damp;
        let den = if prod > i128::MAX {
            1
        } else {
            max_int(prod, 1)
        };
        let lim = abs_int(max_bps as int);
        clamp_int(trunc_div(num, den), -lim, lim) as i64
    }
}

pub open spec fn combined_rate_spec(inv: i64, prem: i64, w: u64) -> i64 {
    if w == 0 {
        inv
    } else if w >= 10_000 {
        prem
    } else {
        clamp_int(
            trunc_div(inv * (10_000 - w) + prem * w, 10_000),
            i64::MIN as int,
            i64::MAX as int,
        ) as i64
    }
}

pub open spec fn adaptive_rate_spec(
    prev: i64,
    long_oi: u128,
    short_oi: u128,
    total_oi: u128,
    scale: u16,
    max_bps: u64,
) -> i64 {
    if total_oi == 0 || scale == 0 {
        clamp_int(prev as int, -(max_bps as int), max_bps as int) as i64
    } else {
        let delta = trunc_div_any(
            (wrap_i128(long_oi) - wrap_i128(short_oi)) * scale,
            wrap_i128(total_oi),
        );
        clamp_int(i128_sat(prev + delta) as int, -(max_bps as int), max_bps as int) as i64
    }
}

/// Trade TWAP after a fill at `exec` of `notional` at `now`.
pub open spec fn twap_spec(twap: u64, last: u64, exec: u64, notional: u128, now: u64) -> (u64, u64) {
    if exec == 0 || notional < 1_000_000 {
        (twap, last)
    } else if twap == 0 {
        (exec, now)
    } else {
        let dt = max_int(max_int(now - last, 0), 1);
        let scale = min_int(notional as int, 10_000_000_000) * 1_000_000 / 10_000_000_000;
        let alpha = min_int((u128_sat(u128_sat(347 * dt) * scale) as int) / 1_000_000, 1_000_000);
        let new_twap = (exec * alpha + twap * (1_000_000 - alpha)) / 1_000_000;
        (min_int(new_twap, u64::MAX as int) as u64, now)
    }
}

/// Truncating signed division with a non-zero divisor (no `MIN / -1`).
pub(crate) fn trunc_div_i128(a: i128, d: i128) -> (r: i128)
    requires
        d != 0,
        !(a == i128::MIN && d == -1),
    ensures
        r == trunc_div_any(a as int, d as int),
{
    let ua = crate::num::abs_i128(a);
    let ud = crate::num::abs_i128(d);
    let q = ua / ud;
    proof {
        vstd::arithmetic::div_mod::lemma_div_is_ordered_by_denominator(ua as int, 1, ud as int);
        if ud >= 2 {
            vstd::arithmetic::div_mod::lemma_div_is_ordered_by_denominator(ua as int, 2, ud as int);
        }
    }
    if (a < 0) != (d < 0) {
        if q > i128::MAX as u128 {
            i128::MIN
        } else {
            -(q as i128)
        }
    } else {
        q as i128
    }
}

impl RiskEngine {
    /// Settles funding owed since the account's last index snapshot.
    pub(crate) fn settle_account_funding(&mut self, idx: usize) -> (r: RiskResult<()>)
        requires
            old(self).wf(),
            idx < MAX_ACCOUNTS,
        ensures
            final(self).wf(),
            settle_funding_spec(old(self)@, idx as int) matches Ok(m) ==> r is Ok && final(self)@
                == m,
            settle_funding_spec(old(self)@, idx as int) matches Err(e) ==> r == Err::<(), RiskError>(
                e,
            ) && final(self)@ == old(self)@,
    {
        let global_fi = self.funding_index_qpb_e6;
        let acc = self.accounts[idx];
        let delta_f = match global_fi.checked_sub(acc.funding_index) {
            Some(v) => v,
            None => {
                return Err(RiskError::Overflow);
            },
        };
        if delta_f != 0 && acc.position_size != 0 {
            let raw = match acc.position_size.checked_mul(delta_f as i128) {
                Some(v) => v,
                None => {
                    return Err(RiskError::Overflow);
                },
            };
            let payment = trunc_div_i128(raw, 1_000_000);
            let new_pnl = match acc.pnl.checked_sub(payment) {
                Some(v) => v,
                None => {
                    return Err(RiskError::Overflow);
                },
            };
            self.set_pnl(idx, new_pnl);
        }
        let mut a2 = self.accounts[idx];
        a2.funding_index = global_fi;
        self.put_account(idx, a2);
        Ok(())
    }

    /// Settles funding for a used account.
    pub fn touch_account(&mut self, idx: u16) -> (r: RiskResult<()>)
        requires
            old(self).wf(),
        ensures
            final(self)@.adl_epoch_long == old(self)@.adl_epoch_long && final(self)@.adl_epoch_short == old(self)@.adl_epoch_short,
            final(self)@.used == old(self)@.used,
            final(self).wf(),
            !old(self).spec_is_used(idx as int) ==> r == Err::<(), RiskError>(
                RiskError::AccountNotFound,
            ) && final(self)@ == old(self)@,
            old(self).spec_is_used(idx as int) ==> match settle_funding_spec(
                old(self)@,
                idx as int,
            ) {
                Ok(m) => r is Ok && final(self)@ == m,
                Err(e) => r == Err::<(), RiskError>(e) && final(self)@ == old(self)@,
            },
    {
        if !self.is_used(idx as usize) {
            return Err(RiskError::AccountNotFound);
        }
        self.settle_account_funding(idx as usize)
    }

    fn settle_mark_core(&mut self, idx: u16, oracle_price: u64, best_effort: bool) -> (r:
        RiskResult<()>)
        requires
            old(self).wf(),
        ensures
            final(self).wf(),
            !(idx < MAX_ACCOUNTS && old(self).spec_is_used(idx as int)) ==> r == Err::<
                (),
                RiskError,
            >(RiskError::AccountNotFound) && final(self)@ == old(self)@,
            (idx < MAX_ACCOUNTS && old(self).spec_is_used(idx as int)) ==> match settle_mark_spec(
                old(self)@,
                idx as int,
                oracle_price,
                best_effort,
            ) {
                Ok(m) => r is Ok && final(self)@ == m,
                Err(e) => r == Err::<(), RiskError>(e) && final(self)@ == old(self)@,
            },
    {
        if idx as usize >= MAX_ACCOUNTS || !self.is_used(idx as usize) {
            return Err(RiskError::AccountNotFound);
        }
        let acc = self.accounts[idx as usize];
        if acc.position_size == 0 {
            let mut a2 = acc;
            a2.entry_price = oracle_price;
            self.put_account(idx as usize, a2);
            return Ok(());
        }
        let mark = match Self::mark_pnl_for_position(acc.position_size, acc.entry_price, oracle_price) {
            Ok(v) => v,
            Err(e) => {
                return Err(e);
            },
        };
        let new_pnl = if best_effort {
            crate::num::sat_add_i128(acc.pnl, mark)
        } else {
            match acc.pnl.checked_add(mark) {
                Some(v) => v,
                None => {
                    return Err(RiskError::Overflow);
                },
            }
        };
        self.set_pnl(idx as usize, new_pnl);
        let mut a2 = self.accounts[idx as usize];
        a2.entry_price = oracle_price;
        self.put_account(idx as usize, a2);
        Ok(())
    }

    /// Realizes the mark PnL at `oracle_price` and moves the entry there.
    pub fn settle_mark_to_oracle(&mut self, idx: u16, oracle_price: u64) -> (r: RiskResult<()>)
        requires
            old(self).wf(),
        ensures
            final(self).wf(),
            !(idx < MAX_ACCOUNTS && old(self).spec_is_used(idx as int)) ==> r == Err::<
                (),
                RiskError,
            >(RiskError::AccountNotFound) && final(self)@ == old(self)@,
            (idx < MAX_ACCOUNTS && old(self).spec_is_used(idx as int)) ==> match settle_mark_spec(
                old(self)@,
                idx as int,
                oracle_price,
                false,
            ) {
                Ok(m) => r is Ok && final(self)@ == m,
                Err(e) => r == Err::<(), RiskError>(e) && final(self)@ == old(self)@,
            },
    {
        self.settle_mark_core(idx, oracle_price, false)
    }

    /// As `settle_mark_to_oracle`, but the PnL sum saturates instead of failing.
    pub(crate) fn settle_mark_to_oracle_best_effort(&mut self, idx: u16, oracle_price: u64) -> (r:
        RiskResult<()>)
        requires
            old(self).wf(),
        ensures
            final(self).wf(),
            !(idx < MAX_ACCOUNTS && old(self).spec_is_used(idx as int)) ==> r == Err::<
                (),
                RiskError,
            >(RiskError::AccountNotFound) && final(self)@ == old(self)@,
            (idx < MAX_ACCOUNTS && old(self).spec_is_used(idx as int)) ==> match settle_mark_spec(
                old(self)@,
                idx as int,
                oracle_price,
                true,
            ) {
                Ok(m) => r is Ok && final(self)@ == m,
                Err(e) => r == Err::<(), RiskError>(e) && final(self)@ == old(self)@,
            },
    {
        self.settle_mark_core(idx, oracle_price, true)
    }

    /// min(max(PNL, 0), slope * elapsed slots).
    pub fn withdrawable_pnl(&self, account: &Account) -> (r: u128)
        ensures
            r == min_int(
                pos_part(account.pnl),
                account.warmup_slope_per_step * max_int(
                    self.current_slot - account.warmup_started_at_slot,
                    0,
                ),
            ),
    {
        let positive_pnl = crate::num::clamp_pos_i128(account.pnl);
        let elapsed = crate::num::sat_sub_u64(self.current_slot, account.warmup_started_at_slot);
        let cap = crate::num::sat_mul_u128(account.warmup_slope_per_step, elapsed as u128);
        crate::num::min_u128(positive_pnl, cap)
    }

    /// Restarts the warmup of a used account at slope max(PNL, 0) / T (at least 1).
    pub fn update_warmup_slope(&mut self, idx: u16) -> (r: RiskResult<()>)
        requires
            old(self).wf(),
        ensures
            final(self).wf(),
            !old(self).spec_is_used(idx as int) ==> r == Err::<(), RiskError>(
                RiskError::AccountNotFound,
            ) && final(self)@ == old(self)@,
            old(self).spec_is_used(idx as int) ==> r is Ok && final(self)@ == m_put(
                old(self)@,
                idx as int,
                Account {
                    warmup_slope_per_step: warmup_slope_spec(
                        pos_part(old(self)@.accounts[idx as int].pnl),
                        old(self).params.warmup_period_slots,
                    ) as u128,
                    warmup_started_at_slot: old(self).current_slot,
                    ..old(self)@.accounts[idx as int]
                },
            ),
    {
        if !self.is_used(idx as usize) {
            return Err(RiskError::AccountNotFound);
        }
        let mut acc = self.accounts[idx as usize];
        let avail = crate::num::clamp_pos_i128(acc.pnl);
        let t = self.params.warmup_period_slots;
        let slope = if t > 0 {
            let base = avail / (t as u128);
            if avail > 0 {
                crate::num::max_u128(1, base)
            } else {
                0
            }
        } else {
            avail
        };
        acc.warmup_slope_per_step = slope;
        acc.warmup_started_at_slot = self.current_slot;
        self.put_account(idx as usize, acc);
        Ok(())
    }

    /// Advances the global funding index at the stored (or frozen) rate.
    pub fn accrue_funding(&mut self, now_slot: u64, oracle_price: u64) -> (r: RiskResult<()>)
        ensures
            accrue_funding_spec(old(self)@, now_slot, oracle_price) matches Ok(m) ==> r is Ok
                && final(self)@ == m,
            accrue_funding_spec(old(self)@, now_slot, oracle_price) matches Err(e) ==> r == Err::<
                (),
                RiskError,
            >(e) && final(self)@ == old(self)@,
    {
        let dt = crate::num::sat_sub_u64(now_slot, self.last_funding_slot);
        if dt == 0 {
            return Ok(());
        }
        if oracle_price == 0 || oracle_price > MAX_ORACLE_PRICE {
            return Err(RiskError::Overflow);
        }
        let funding_rate = if self.funding_frozen {
            self.funding_frozen_rate_snapshot
        } else {
            self.funding_rate_bps_per_slot_last
        };
        if funding_rate > 10_000 || funding_rate < -10_000 {
            self.funding_rate_bps_per_slot_last = 0;
            self.last_funding_slot = now_slot;
            return Ok(());
        }
        if dt > 31_536_000 {
            return Err(RiskError::Overflow);
        }
        let price = oracle_price as i128;
        let rate = funding_rate as i128;
        let dt_i = dt as i128;
        proof {
            assert(-10_000_000_000_000_000 <= price * rate <= 10_000_000_000_000_000)
                by (nonlinear_arith)
                requires
                    0 <= price <= 1_000_000_000_000,
                    -10_000 <= rate <= 10_000,
            ;
            assert(-400_000_000_000_000_000_000_000 <= price * rate * dt_i
                <= 400_000_000_000_000_000_000_000) by (nonlinear_arith)
                requires
                    -10_000_000_000_000_000 <= price * rate <= 10_000_000_000_000_000,
                    0 <= dt_i <= 31_536_000,
            ;
        }
        let prod = price * rate * dt_i;
        let delta = trunc_div_i128(prod, 10_000);
        if delta > i64::MAX as i128 || delta < i64::MIN as i128 {
            return Err(RiskError::Overflow);
        }
        let new_fi = match self.funding_index_qpb_e6.checked_add(delta as i64) {
            Some(v) => v,
            None => {
                return Err(RiskError::Overflow);
            },
        };
        self.funding_index_qpb_e6 = new_fi;
        self.last_funding_slot = now_slot;
        Ok(())
    }

    /// Stores the rate for the next interval (ignored while frozen).
    pub fn set_funding_rate_for_next_interval(&mut self, new_rate_bps_per_slot: i64) -> (r:
        RiskResult<()>)
        ensures
            !(-MAX_ABS_FUNDING_BPS_PER_SLOT <= new_rate_bps_per_slot
                <= MAX_ABS_FUNDING_BPS_PER_SLOT) ==> r == Err::<(), RiskError>(RiskError::Overflow)
                && final(self)@ == old(self)@,
            (-MAX_ABS_FUNDING_BPS_PER_SLOT <= new_rate_bps_per_slot <= MAX_ABS_FUNDING_BPS_PER_SLOT)
                ==> r is Ok && final(self)@ == (if old(self).funding_frozen {
                old(self)@
            } else {
                EngineModel { funding_rate_bps_per_slot_last: new_rate_bps_per_slot, ..old(self)@ }
            }),
    {
        match Self::validate_funding_rate(new_rate_bps_per_slot) {
            Ok(()) => {},
            Err(e) => {
                return Err(e);
            },
        }
        if self.funding_frozen {
            return Ok(());
        }
        self.funding_rate_bps_per_slot_last = new_rate_bps_per_slot;
        Ok(())
    }

    /// Sets the rate, then accrues.
    pub fn accrue_funding_with_rate(
        &mut self,
        now_slot: u64,
        oracle_price: u64,
        funding_rate_bps_per_slot: i64,
    ) -> (r: RiskResult<()>)
        ensures
            !(-MAX_ABS_FUNDING_BPS_PER_SLOT <= funding_rate_bps_per_slot
                <= MAX_ABS_FUNDING_BPS_PER_SLOT) ==> r == Err::<(), RiskError>(RiskError::Overflow)
                && final(self)@ == old(self)@,
            (-MAX_ABS_FUNDING_BPS_PER_SLOT <= funding_rate_bps_per_slot
                <= MAX_ABS_FUNDING_BPS_PER_SLOT) ==> ({
                let m0 = if old(self).funding_frozen {
                    old(self)@
                } else {
                    EngineModel {
                        funding_rate_bps_per_slot_last: funding_rate_bps_per_slot,
                        ..old(self)@
                    }
                };
                match accrue_funding_spec(m0, now_slot, oracle_price) {
                    Ok(m) => r is Ok && final(self)@ == m,
                    Err(e) => r == Err::<(), RiskError>(e) && final(self)@ == m0,
                }
            }),
    {
        match self.set_funding_rate_for_next_interval(funding_rate_bps_per_slot) {
            Ok(()) => {},
            Err(e) => {
                return Err(e);
            },
        }
        self.accrue_funding(now_slot, oracle_price)
    }

    /// Sets the mark price.
    pub fn set_mark_price(&mut self, mark_price_e6: u64)
        ensures
            final(self)@ == (EngineModel { mark_price_e6, ..old(self)@ }),
    {
        self.mark_price_e6 = mark_price_e6;
    }

    /// Sets the mark to the oracle/TWAP blend.
    pub fn set_mark_price_blended(&mut self, oracle_e6: u64, oracle_weight_bps: u64)
        ensures
            final(self)@ == (EngineModel {
                mark_price_e6: blended_mark_spec(oracle_e6, old(self).trade_twap_e6, oracle_weight_bps),
                ..old(self)@
            }),
    {
        let twap = self.trade_twap_e6;
        let mark = Self::compute_blended_mark_price(oracle_e6, twap, oracle_weight_bps);
        self.mark_price_e6 = mark;
    }

    /// (oracle * w + twap * (10_000 - w)) / 10_000 with w clamped to 10_000;
    /// whichever price is non-zero when the other is zero.
    pub fn compute_blended_mark_price(oracle_e6: u64, twap_e6: u64, oracle_weight_bps: u64) -> (r:
        u64)
        ensures
            r == blended_mark_spec(oracle_e6, twap_e6, oracle_weight_bps),
    {
        if twap_e6 == 0 {
            return oracle_e6;
        }
        if oracle_e6 == 0 {
            return twap_e6;
        }
        let w: u64 = if oracle_weight_bps < 10_000 {
            oracle_weight_bps
        } else {
            10_000
        };
        let tw = 10_000 - w;
        proof {
            lemma_blend_bound(oracle_e6 as int, twap_e6 as int, w as int);
        }
        let blended = ((oracle_e6 as u128) * (w as u128) + (twap_e6 as u128) * (tw as u128))
            / 10_000;
        blended as u64
    }

    /// EMA of execution prices weighted by time and notional (dust trades ignored).
    pub fn update_trade_twap(&mut self, exec_price_e6: u64, notional: u128, now_slot: u64)
        ensures
            final(self)@ == (EngineModel {
                trade_twap_e6: twap_spec(
                    old(self).trade_twap_e6,
                    old(self).twap_last_slot,
                    exec_price_e6,
                    notional,
                    now_slot,
                ).0,
                twap_last_slot: twap_spec(
                    old(self).trade_twap_e6,
                    old(self).twap_last_slot,
                    exec_price_e6,
                    notional,
                    now_slot,
                ).1,
                ..old(self)@
            }),
    {
        if exec_price_e6 == 0 || notional < 1_000_000 {
            return;
        }
        if self.trade_twap_e6 == 0 {
            self.trade_twap_e6 = exec_price_e6;
            self.twap_last_slot = now_slot;
            return;
        }
        let d0 = crate::num::sat_sub_u64(now_slot, self.twap_last_slot);
        let dt: u64 = if d0 < 1 {
            1
        } else {
            d0
        };
        let capped = crate::num::min_u128(notional, 10_000_000_000);
        let notional_scale_e6 = capped * 1_000_000 / 10_000_000_000;
        let a1 = crate::num::sat_mul_u128(347, dt as u128);
        let a2 = crate::num::sat_mul_u128(a1, notional_scale_e6) / 1_000_000;
        let eff_alpha: u128 = crate::num::min_u128(a2, 1_000_000);
        let one_minus = 1_000_000 - eff_alpha;
        let old_twap = self.trade_twap_e6;
        proof {
            lemma_blend_e6_bound(exec_price_e6 as int, old_twap as int, eff_alpha as int);
        }
        let new_twap = ((exec_price_e6 as u128) * eff_alpha + (old_twap as u128) * one_minus)
            / 1_000_000;
        self.trade_twap_e6 = new_twap as u64;
        self.twap_last_slot = now_slot;
    }

    /// (mark - index) * 1e10 / (index * dampening), clamped to |max_bps_per_slot|.
    pub fn compute_premium_funding_bps_per_slot(
        mark_price_e6: u64,
        index_price_e6: u64,
        dampening_e6: u64,
        max_bps_per_slot: i64,
    ) -> (r: i64)
        ensures
            r == premium_rate_spec(mark_price_e6, index_price_e6, dampening_e6, max_bps_per_slot),
    {
        if mark_price_e6 == 0 || index_price_e6 == 0 || dampening_e6 == 0 {
            return 0;
        }
        let mark = mark_price_e6 as i128;
        let index = index_price_e6 as i128;
        let damp = dampening_e6 as i128;
        proof {
            assert(-200_000_000_000_000_000_000_000_000_000 <= (mark - index) * 10_000_000_000
                <= 200_000_000_000_000_000_000_000_000_000) by (nonlinear_arith)
                requires
                    0 <= mark <= u64::MAX,
                    0 <= index <= u64::MAX,
            ;
        }
        let numerator = (mark - index) * 10_000_000_000i128;
        let denominator: i128 = match index.checked_mul(damp) {
            Some(v) => if v < 1 {
                1
            } else {
                v
            },
            None => 1,
        };
        let rate = trunc_div_i128(numerator, denominator);
        let max_abs = crate::num::abs_i128(max_bps_per_slot as i128) as i128;
        let clamped = if rate < -max_abs {
            -max_abs
        } else if rate > max_abs {
            max_abs
        } else {
            rate
        };
        proof {
            assert(trunc_div(numerator as int, denominator as int) == trunc_div_any(
                numerator as int,
                denominator as int,
            ));
        }
        clamped as i64
    }

    /// inventory * (1 - w) + premium * w, with w in bps.
    pub fn compute_combined_funding_rate(
        inventory_rate_bps: i64,
        premium_rate_bps: i64,
        premium_weight_bps: u64,
    ) -> (r: i64)
        ensures
            r == combined_rate_spec(inventory_rate_bps, premium_rate_bps, premium_weight_bps),
    {
        if premium_weight_bps == 0 {
            return inventory_rate_bps;
        }
        if premium_weight_bps >= 10_000 {
            return premium_rate_bps;
        }
        let inv = inventory_rate_bps as i128;
        let prem = premium_rate_bps as i128;
        let w = premium_weight_bps as i128;
        let inv_w = 10_000i128 - w;
        proof {
            assert(-100_000_000_000_000_000_000_000 <= inv * inv_w <= 100_000_000_000_000_000_000_000)
                by (nonlinear_arith)
                requires
                    i64::MIN <= inv <= i64::MAX,
                    0 < inv_w < 10_000,
            ;
            assert(-100_000_000_000_000_000_000_000 <= prem * w <= 100_000_000_000_000_000_000_000)
                by (nonlinear_arith)
                requires
                    i64::MIN <= prem <= i64::MAX,
                    0 < w < 10_000,
            ;
        }
        let s = inv * inv_w + prem * w;
        let blended = trunc_div_i128(s, 10_000);
        proof {
            assert(trunc_div(s as int, 10_000) == trunc_div_any(s as int, 10_000));
        }
        let c = if blended < i64::MIN as i128 {
            i64::MIN as i128
        } else if blended > i64::MAX as i128 {
            i64::MAX as i128
        } else {
            blended
        };
        c as i64
    }

    /// prev + (long - short) * scale / total, clamped to ±max_funding_bps.
    pub fn compute_adaptive_funding_rate(
        prev_rate_bps: i64,
        long_oi: u128,
        short_oi: u128,
        total_oi: u128,
        adaptive_scale_bps: u16,
        max_funding_bps: u64,
    ) -> (r: i64)
        requires
            total_oi == 0 || adaptive_scale_bps == 0 || (i128::MIN <= (wrap_i128(long_oi)
                - wrap_i128(short_oi)) * adaptive_scale_bps <= i128::MAX && !((wrap_i128(long_oi)
                - wrap_i128(short_oi)) * adaptive_scale_bps == i128::MIN && wrap_i128(total_oi)
                == -1)),
        ensures
            r == adaptive_rate_spec(
                prev_rate_bps,
                long_oi,
                short_oi,
                total_oi,
                adaptive_scale_bps,
                max_funding_bps,
            ),
    {
        let max = max_funding_bps as i128;
        let prev = prev_rate_bps as i128;
        if total_oi == 0 || adaptive_scale_bps == 0 {
            let c = if prev < -max {
                -max
            } else if prev > max {
                max
            } else {
                prev
            };
            return c as i64;
        }
        let long = crate::engine::admin::cast_u128_to_i128(long_oi);
        let short = crate::engine::admin::cast_u128_to_i128(short_oi);
        let total = crate::engine::admin::cast_u128_to_i128(total_oi);
        let scale = adaptive_scale_bps as i128;
        proof {
            if total == 0 {
                assert(total_oi == 0);
            }
            assert(i128::MIN <= long - short <= i128::MAX) by (nonlinear_arith)
                requires
                    i128::MIN <= (long - short) * scale <= i128::MAX,
                    scale >= 1,
            ;
        }
        let diff = long - short;
        let delta_bps = trunc_div_i128(diff * scale, total);
        let new_rate = crate::num::sat_add_i128(prev, delta_bps);
        let c = if new_rate < -max {
            -max
        } else if new_rate > max {
            max
        } else {
            new_rate
        };
        c as i64
    }

    /// Freezes funding at the current rate (`Overflow` if already frozen).
    pub fn freeze_funding(&mut self) -> (r: RiskResult<()>)
        ensures
            old(self).funding_frozen ==> r == Err::<(), RiskError>(RiskError::Overflow)
                && final(self)@ == old(self)@,
            !old(self).funding_frozen ==> r is Ok && final(self)@ == (EngineModel {
                funding_frozen: true,
                funding_frozen_rate_snapshot: old(self).funding_rate_bps_per_slot_last,
                ..old(self)@
            }),
    {
        if self.funding_frozen {
            return Err(RiskError::Overflow);
        }
        self.funding_frozen = true;
        self.funding_frozen_rate_snapshot = self.funding_rate_bps_per_slot_last;
        Ok(())
    }

    /// Unfreezes funding (`Overflow` if not frozen).
    pub fn unfreeze_funding(&mut self) -> (r: RiskResult<()>)
        ensures
            !old(self).funding_frozen ==> r == Err::<(), RiskError>(RiskError::Overflow)
                && final(self)@ == old(self)@,
            old(self).funding_frozen ==> r is Ok && final(self)@ == (EngineModel {
                funding_frozen: false,
                funding_frozen_rate_snapshot: 0,
                ..old(self)@
            }),
    {
        if !self.funding_frozen {
            return Err(RiskError::Overflow);
        }
        self.funding_frozen = false;
        self.funding_frozen_rate_snapshot = 0;
        Ok(())
    }

    /// Whether funding is frozen.
    pub fn is_funding_frozen(&self) -> (r: bool)
        ensures
            r == self.funding_frozen,
    {
        self.funding_frozen
    }

    /// Batched funding: accrue at the stored rate, then store the blend of
    /// the inventory rate and the premium rate for the next interval.
    pub fn accrue_funding_combined(
        &mut self,
        now_slot: u64,
        index_price_e6: u64,
        inventory_rate_bps: i64,
    ) -> (r: RiskResult<()>)
        ensures
            ({
                let m = old(self)@;
                let dt = max_int(now_slot - m.last_funding_slot, 0);
                let interval = m.params.funding_settlement_interval_slots;
                if interval > 0 && dt < interval {
                    r is Ok && final(self)@ == m
                } else {
                    match accrue_funding_spec(m, now_slot, index_price_e6) {
                        Err(e) => r == Err::<(), RiskError>(e) && final(self)@ == m,
                        Ok(m1) => {
                            let combined = combined_rate_spec(
                                inventory_rate_bps,
                                premium_rate_spec(
                                    m1.mark_price_e6,
                                    index_price_e6,
                                    m1.params.funding_premium_dampening_e6,
                                    m1.params.funding_premium_max_bps_per_slot,
                                ),
                                m1.params.funding_premium_weight_bps,
                            );
                            if !(-MAX_ABS_FUNDING_BPS_PER_SLOT <= combined
                                <= MAX_ABS_FUNDING_BPS_PER_SLOT) {
                                r == Err::<(), RiskError>(RiskError::Overflow) && final(self)@ == m1
                            } else {
                                r is Ok && final(self)@ == (if m1.funding_frozen {
                                    m1
                                } else {
                                    EngineModel { funding_rate_bps_per_slot_last: combined, ..m1 }
                                })
                            }
                        },
                    }
                }
            }),
    {
        let dt = crate::num::sat_sub_u64(now_slot, self.last_funding_slot);
        let interval = self.params.funding_settlement_interval_slots;
        if interval > 0 && dt < interval {
            return Ok(());
        }
        match self.accrue_funding(now_slot, index_price_e6) {
            Ok(()) => {},
            Err(e) => {
                return Err(e);
            },
        }
        let premium_rate = Self::compute_premium_funding_bps_per_slot(
            self.mark_price_e6,
            index_price_e6,
            self.params.funding_premium_dampening_e6,
            self.params.funding_premium_max_bps_per_slot,
        );
        let combined = Self::compute_combined_funding_rate(
            inventory_rate_bps,
            premium_rate,
            self.params.funding_premium_weight_bps,
        );
        self.set_funding_rate_for_next_interval(combined)
    }
}

pub open spec fn blended_mark_spec(oracle: u64, twap: u64, w: u64) -> u64 {
    if twap == 0 {
        oracle
    } else if oracle == 0 {
        twap
    } else {
        let wc = min_int(w as int, 10_000);
        ((oracle * wc + twap * (10_000 - wc)) / 10_000) as u64
    }
}

proof fn lemma_blend_bound(a: int, b: int, w: int)
    requires
        0 <= a <= u64::MAX,
        0 <= b <= u64::MAX,
        0 <= w <= 10_000,
    ensures
        0 <= a * w + b * (10_000 - w) <= u64::MAX * 10_000,
        0 <= (a * w + b * (10_000 - w)) / 10_000 <= u64::MAX,
{
    assert(0 <= a * w + b * (10_000 - w) <= u64::MAX * 10_000) by (nonlinear_arith)
        requires
            0 <= a <= u64::MAX,
            0 <= b <= u64::MAX,
            0 <= w <= 10_000,
    ;
    vstd::arithmetic::div_mod::lemma_div_is_ordered(a * w + b * (10_000 - w), u64::MAX * 10_000, 10_000);
    vstd::arithmetic::div_mod::lemma_div_pos_is_pos(a * w + b * (10_000 - w), 10_000);
}

proof fn lemma_blend_e6_bound(a: int, b: int, w: int)
    requires
        0 <= a <= u64::MAX,
        0 <= b <= u64::MAX,
        0 <= w <= 1_000_000,
    ensures
        0 <= a * w + b * (1_000_000 - w) <= u64::MAX * 1_000_000,
        0 <= (a * w + b * (1_000_000 - w)) / 1_000_000 <= u64::MAX,
{
    assert(0 <= a * w + b * (1_000_000 - w) <= u64::MAX * 1_000_000) by (nonlinear_arith)
        requires
            0 <= a <= u64::MAX,
            0 <= b <= u64::MAX,
            0 <= w <= 1_000_000,
    ;
    vstd::arithmetic::div_mod::lemma_div_is_ordered(
        a * w + b * (1_000_000 - w),
        u64::MAX * 1_000_000,
        1_000_000,
    );
    vstd::arithmetic::div_mod::lemma_div_pos_is_pos(a * w + b * (1_000_000 - w), 1_000_000);
}

} // verus!
