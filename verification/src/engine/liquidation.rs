//! Liquidation at the oracle price (optionally triggered at the mark price),
//! the position-close helpers and the close-amount rule.
use vstd::prelude::*;
use crate::num::{i128_sat, u128_sat, I128, U128};
use crate::wide_math::{ceil_div, floor_div};
use crate::engine::types::{
    Account, ClosedOutcome, InsuranceFund, RiskError, RiskResult, KIND_LP, MAX_ACCOUNTS,
    MAX_ORACLE_PRICE,
};
use crate::engine::state::{EngineModel, RiskEngine};
use crate::engine::ledger::{m_put, m_set_capital, m_set_pnl, max_int, min_int, released_of};
use crate::engine::margin::{mark_pnl_spec, mtm_equity_spec, mtm_required, sat_fd, trunc_div};
use crate::engine::funding::{settle_funding_spec, settle_mark_spec};
use crate::engine::account_ops::{m_maint_coupon, m_settle_warmup, m_update_slope, mtm_ok};
use crate::engine::trade::sat_abs;

verus! {

/// ceil(a * b / d), saturating at `u128::MAX`.
pub open spec fn sat_cd(a: int, b: int, d: int) -> int {
    min_int(ceil_div(a, b, d), u128::MAX as int)
}

/// Close amount for a liquidation: enough to bring the account back to the
/// target margin (one unit conservative), or all of it when the rest would
/// be dust. Returns (close_abs, full_close).
pub open spec fn liq_close_spec(m: EngineModel, a: Account, price: u64) -> (u128, bool) {
    let abs_pos = sat_abs(a.position_size);
    if abs_pos == 0 {
        (0, false)
    } else {
        let equity = mtm_equity_spec(m, a, price);
        let target = min_int(
            m.params.maintenance_margin_bps + m.params.liquidation_buffer_bps,
            u64::MAX as int,
        );
        let den = price * target;
        let safe0 = if den == 0 {
            0
        } else {
            (equity * 10_000_000_000) / den
        };
        let safe = max_int(min_int(safe0, abs_pos) - 1, 0);
        let close = abs_pos - safe;
        if abs_pos - close < m.params.min_liquidation_abs.0 {
            (abs_pos as u128, true)
        } else {
            (close as u128, close == abs_pos)
        }
    }
}

pub open spec fn mtm_above(m: EngineModel, a: Account, price: u64, bps: u64) -> bool {
    mtm_equity_spec(m, a, price) > mtm_required(m, a, price, bps)
}

/// Aggregates after `amount` of a position `pos` of account `a` is closed
/// (leaving `new_pos`).
pub open spec fn m_close_aggregates(m: EngineModel, a: Account, pos: i128, new_pos: i128, amount: int) -> EngineModel {
    EngineModel {
        total_open_interest: U128(u128_sat(m.total_open_interest.0 - amount)),
        long_oi: if pos > 0 {
            U128(u128_sat(m.long_oi.0 - amount))
        } else {
            m.long_oi
        },
        short_oi: if pos > 0 {
            m.short_oi
        } else {
            U128(u128_sat(m.short_oi.0 - amount))
        },
        net_lp_pos: if a.kind == KIND_LP {
            I128(i128_sat(i128_sat(m.net_lp_pos.0 - pos) + new_pos))
        } else {
            m.net_lp_pos
        },
        lp_sum_abs: if a.kind == KIND_LP {
            U128(u128_sat(m.lp_sum_abs.0 - amount))
        } else {
            m.lp_sum_abs
        },
        ..m
    }
}

/// Warmup settlement and write-off after a close.
pub open spec fn m_after_close(m: EngineModel, i: int) -> EngineModel {
    let m4 = m_settle_warmup(m, i);
    if m4.accounts[i].pnl < 0 {
        m_set_pnl(m4, i, 0)
    } else {
        m4
    }
}

/// Full close of account `i`'s position at `price`.
#[verifier::opaque]
pub open spec fn close_core_spec(m: EngineModel, i: int, price: u64) -> (EngineModel, ClosedOutcome) {
    let a = m.accounts[i];
    let cap = a.capital.0;
    if a.position_size == 0 {
        (
            m,
            ClosedOutcome {
                abs_pos: 0,
                mark_pnl: 0,
                cap_before: cap,
                cap_after: cap,
                position_was_closed: false,
            },
        )
    } else {
        let pos = a.position_size;
        let abs_pos = sat_abs(pos);
        let mark = match mark_pnl_spec(pos, a.entry_price, price) {
            Some(v) => v,
            None => -min_int(cap as int, i128::MAX as int),
        };
        let m1 = m_set_pnl(m, i, i128_sat(a.pnl + mark));
        let m2 = m_put(m1, i, Account { position_size: 0, entry_price: price, ..m1.accounts[i] });
        let m5 = m_after_close(m_close_aggregates(m2, a, pos, 0, abs_pos), i);
        (
            m5,
            ClosedOutcome {
                abs_pos: abs_pos as u128,
                mark_pnl: mark as i128,
                cap_before: cap,
                cap_after: m5.accounts[i].capital.0,
                position_was_closed: true,
            },
        )
    }
}

/// Close of `close_abs` units of account `i`'s position at `price`.
pub open spec fn close_slice_spec(m: EngineModel, i: int, price: u64, close_abs: u128) -> (
    EngineModel,
    ClosedOutcome,
) {
    let a = m.accounts[i];
    let cap = a.capital.0;
    let pos = a.position_size;
    let cur = sat_abs(pos);
    if close_abs == 0 || cur == 0 {
        (
            m,
            ClosedOutcome {
                abs_pos: 0,
                mark_pnl: 0,
                cap_before: cap,
                cap_after: cap,
                position_was_closed: false,
            },
        )
    } else if close_abs >= cur {
        close_core_spec(m, i, price)
    } else {
        let diff = if pos > 0 {
            price - a.entry_price
        } else {
            a.entry_price - price
        };
        let prod = diff * close_abs;
        let mark = if i128::MIN <= prod <= i128::MAX && price != 0 {
            trunc_div(prod, price as int)
        } else {
            -min_int(cap as int, i128::MAX as int)
        };
        let m1 = m_set_pnl(m, i, i128_sat(a.pnl + mark));
        let new_abs = cur - close_abs;
        let new_pos: i128 = if pos > 0 {
            new_abs as i128
        } else {
            (-new_abs) as i128
        };
        let m2 = m_put(m1, i, Account { position_size: new_pos, ..m1.accounts[i] });
        let m5 = m_after_close(m_close_aggregates(m2, a, pos, new_pos, close_abs as int), i);
        (
            m5,
            ClosedOutcome {
                abs_pos: close_abs,
                mark_pnl: mark as i128,
                cap_before: cap,
                cap_after: m5.accounts[i].capital.0,
                position_was_closed: true,
            },
        )
    }
}

/// Liquidation fee on `abs_closed` at `price`, paid from capital as far as it goes.
pub open spec fn m_liq_fee(m: EngineModel, i: int, price: u64, abs_closed: int) -> EngineModel {
    let notional = sat_fd(abs_closed, price as int, 1_000_000);
    let fee_raw = if notional > 0 && m.params.liquidation_fee_bps > 0 {
        sat_cd(notional, m.params.liquidation_fee_bps as int, 10_000)
    } else {
        0
    };
    let fee = min_int(fee_raw, m.params.liquidation_fee_cap.0 as int);
    let cap = m.accounts[i].capital.0;
    let pay = min_int(fee, cap as int);
    let m1 = m_set_capital(m, i, (cap - pay) as u128);
    EngineModel {
        insurance_fund: InsuranceFund {
            balance: U128(u128_sat(m1.insurance_fund.balance.0 + pay)),
            fee_revenue: U128(u128_sat(m1.insurance_fund.fee_revenue.0 + pay)),
            ..m1.insurance_fund
        },
        lifetime_liquidations: min_int(m1.lifetime_liquidations + 1, u64::MAX as int) as u64,
        ..m1
    }
}

/// The settlement made before a liquidation: funding, best-effort mark,
/// warmup restart when the released profit grew, best-effort fees.
pub open spec fn touch_liq_spec(m: EngineModel, i: int, now: u64, price: u64) -> (
    EngineModel,
    RiskResult<()>,
) {
    match settle_funding_spec(m, i) {
        Err(e) => (m, Err(e)),
        Ok(m1) => {
            let old_av = released_of(m1.accounts[i].pnl, m1.accounts[i].reserved_pnl);
            match settle_mark_spec(m1, i, price, true) {
                Err(e) => (m1, Err(e)),
                Ok(m2) => {
                    let m3 = if released_of(m2.accounts[i].pnl, m2.accounts[i].reserved_pnl)
                        > old_av {
                        m_update_slope(m2, i)
                    } else {
                        m2
                    };
                    (m_maint_coupon(m3, i, now).0, Ok(()))
                },
            }
        },
    }
}

/// The liquidation close itself (full or slice), with the partial-close stamp.
pub open spec fn liq_close_step_spec(
    m1: EngineModel,
    i: int,
    price: u64,
    close: u128,
    full: bool,
    partial_stamp: Option<u64>,
) -> (EngineModel, ClosedOutcome) {
    let (m2, out) = if full {
        close_core_spec(m1, i, price)
    } else {
        close_slice_spec(m1, i, price, close)
    };
    if !out.position_was_closed {
        (m2, out)
    } else {
        let m2b = match partial_stamp {
            Some(s) => if !full {
                m_put(m2, i, Account { last_partial_liquidation_slot: s, ..m2.accounts[i] })
            } else {
                m2
            },
            None => m2,
        };
        (m2b, out)
    }
}

/// Safety full close when the target margin is still not met, then the fee.
pub open spec fn liq_finish_spec(m2b: EngineModel, i: int, price: u64, check_price: u64, closed: u128) -> EngineModel {
    let target = min_int(
        m2b.params.maintenance_margin_bps + m2b.params.liquidation_buffer_bps,
        u64::MAX as int,
    ) as u64;
    let (m3, abs_total) = if m2b.accounts[i].position_size != 0 && !mtm_above(
        m2b,
        m2b.accounts[i],
        check_price,
        target,
    ) {
        let (m3, fb) = close_core_spec(m2b, i, price);
        (
            m3,
            if fb.position_was_closed {
                u128_sat(closed + fb.abs_pos) as int
            } else {
                closed as int
            },
        )
    } else {
        (m2b, closed as int)
    };
    m_liq_fee(m3, i, price, abs_total)
}

/// The close, the safety full close and the fee of a liquidation whose close
/// amount is `close` (`full` when the whole position goes); the margin check
/// of the safety close is at `check_price`.
#[verifier::opaque]
pub open spec fn liq_execute_spec(
    m1: EngineModel,
    i: int,
    price: u64,
    check_price: u64,
    close: u128,
    full: bool,
    partial_stamp: Option<u64>,
) -> (EngineModel, RiskResult<bool>) {
    let (m2b, out) = liq_close_step_spec(m1, i, price, close, full, partial_stamp);
    if !out.position_was_closed {
        (m2b, Ok(false))
    } else {
        (liq_finish_spec(m2b, i, price, check_price, out.abs_pos), Ok(true))
    }
}

/// Liquidation at the oracle price.
#[verifier::opaque]
pub open spec fn liquidate_spec(m: EngineModel, idx: u16, now: u64, price: u64) -> (
    EngineModel,
    RiskResult<bool>,
) {
    let m0 = EngineModel { current_slot: now, ..m };
    let i = idx as int;
    if idx >= MAX_ACCOUNTS || !m0.is_used(i) {
        (m0, Ok(false))
    } else if price == 0 || price > MAX_ORACLE_PRICE {
        (m0, Err(RiskError::Overflow))
    } else if m0.accounts[i].position_size == 0 {
        (m0, Ok(false))
    } else {
        let (m1, r1) = touch_liq_spec(m0, i, now, price);
        match r1 {
            Err(e) => (m1, Err(e)),
            Ok(_) => {
                if mtm_ok(m1, m1.accounts[i], price) {
                    (m1, Ok(false))
                } else {
                    let (close, full) = liq_close_spec(m1, m1.accounts[i], price);
                    if close == 0 {
                        (m1, Ok(false))
                    } else {
                        liq_execute_spec(m1, i, price, price, close, full, None)
                    }
                }
            },
        }
    }
}

/// Close amount and full-close flag chosen by the mark-price liquidation,
/// or `None` when the cooldown holds and the account is not in emergency.
pub open spec fn mark_liq_close_spec(m1: EngineModel, i: int, now: u64, mark: u64) -> Option<(u128, bool)> {
    let a = m1.accounts[i];
    let cooldown = m1.params.partial_liquidation_cooldown_slots;
    let since = if now < a.last_partial_liquidation_slot {
        0
    } else {
        now - a.last_partial_liquidation_slot
    };
    let can_partial = m1.params.partial_liquidation_bps > 0 && (cooldown == 0 || since >= cooldown);
    let pos_abs = sat_abs(a.position_size);
    if can_partial {
        let b0 = max_int(
            sat_fd(pos_abs, m1.params.partial_liquidation_bps as int, 10_000),
            m1.params.min_liquidation_abs.0 as int,
        );
        let batch = if pos_abs > 0 {
            max_int(b0, 1)
        } else {
            b0
        };
        if batch >= pos_abs {
            Some((pos_abs as u128, true))
        } else {
            Some((batch as u128, false))
        }
    } else if cooldown > 0 && since < cooldown {
        let eb = if m1.params.emergency_liquidation_margin_bps > 0 {
            m1.params.emergency_liquidation_margin_bps
        } else {
            (m1.params.maintenance_margin_bps / 2) as u64
        };
        if !mtm_above(m1, a, mark, eb) {
            Some((pos_abs as u128, true))
        } else {
            None
        }
    } else {
        Some((pos_abs as u128, true))
    }
}

/// Liquidation triggered at the mark price and settled at the oracle.
pub open spec fn mark_liquidate_spec(m: EngineModel, idx: u16, now: u64, price: u64) -> (
    EngineModel,
    RiskResult<bool>,
) {
    if !m.params.use_mark_price_for_liquidation || m.mark_price_e6 == 0 {
        liquidate_spec(m, idx, now, price)
    } else {
        let m0 = EngineModel { current_slot: now, ..m };
        let i = idx as int;
        if idx >= MAX_ACCOUNTS || !m0.is_used(i) {
            (m0, Ok(false))
        } else if price == 0 || price > MAX_ORACLE_PRICE {
            (m0, Err(RiskError::Overflow))
        } else if m0.accounts[i].position_size == 0 {
            (m0, Ok(false))
        } else {
            let (m1, r1) = touch_liq_spec(m0, i, now, price);
            let mark = m1.mark_price_e6;
            match r1 {
                Err(e) => (m1, Err(e)),
                Ok(_) => if mtm_ok(m1, m1.accounts[i], mark) {
                    (m1, Ok(false))
                } else {
                    match mark_liq_close_spec(m1, i, now, mark) {
                        None => (m1, Ok(false)),
                        Some((close, full)) => if close == 0 {
                            (m1, Ok(false))
                        } else {
                            liq_execute_spec(m1, i, price, mark, close, full, Some(now))
                        },
                    }
                },
            }
        }
    }
}

/// The ADL close: all of the position when its PnL is within `excess`,
/// else the share excess / PnL of it (at least one unit).
pub open spec fn adl_close_spec(m1: EngineModel, i: int, price: u64, excess: u128) -> (EngineModel, int) {
    let a = m1.accounts[i];
    let tpp = a.pnl as int;
    let abs_pos = sat_abs(a.position_size);
    if tpp <= excess || abs_pos == 0 {
        (close_core_spec(m1, i, price).0, abs_pos)
    } else {
        let c0 = if abs_pos * excess > u128::MAX {
            abs_pos
        } else {
            (abs_pos * excess) / tpp
        };
        let c = max_int(c0, 1);
        (close_slice_spec(m1, i, price, c as u128).0, c)
    }
}

/// Auto-deleverage of a profitable account: the engine and the result.
pub open spec fn execute_adl_spec(m: EngineModel, idx: u16, now: u64, price: u64, excess: u128) -> (
    EngineModel,
    RiskResult<u128>,
) {
    let i = idx as int;
    let m0 = EngineModel { current_slot: now, ..m };
    if idx >= MAX_ACCOUNTS || !m.is_used(i) {
        (m, Err(RiskError::AccountNotFound))
    } else if m0.accounts[i].position_size == 0 {
        (m0, Err(RiskError::AccountNotFound))
    } else {
        match settle_mark_spec(m0, i, price, true) {
            Err(e) => (m0, Err(e)),
            Ok(m1) => {
                let a = m1.accounts[i];
                if a.pnl <= 0 {
                    (m1, Err(RiskError::Undercollateralized))
                } else {
                    let (m2, result) = adl_close_spec(m1, i, price, excess);
                    let (m3, r3) = crate::engine::trade::end_of_instruction_spec(m2);
                    match r3 {
                        Err(e) => (m3, Err(e)),
                        Ok(_) => (m3, Ok(result as u128)),
                    }
                }
            },
        }
    }
}

impl RiskEngine {
    /// Close amount for a liquidation and whether it closes everything.
    pub fn compute_liquidation_close_amount(&self, account: &Account, oracle_price: u64) -> (r: (
        u128,
        bool,
    ))
        ensures
            r == liq_close_spec(self@, *account, oracle_price),
    {
        let abs_pos = crate::num::saturating_abs_i128(account.position_size) as u128;
        if abs_pos == 0 {
            return (0, false);
        }
        let equity = self.account_equity_mtm_at_oracle(account, oracle_price);
        let target_bps = crate::num::sat_add_u64(
            self.params.maintenance_margin_bps,
            self.params.liquidation_buffer_bps,
        );
        proof {
            assert(oracle_price * target_bps <= u64::MAX * u64::MAX) by (nonlinear_arith)
                requires
                    oracle_price <= u64::MAX,
                    target_bps <= u64::MAX,
            ;
        }
        let denominator = (oracle_price as u128) * (target_bps as u128);
        let safe0: u128 = if denominator == 0 {
            0
        } else {
            crate::wide_math::mul_div_floor_u128(equity, 10_000_000_000, denominator)
        };
        let safe = crate::num::sat_sub_u128(crate::num::min_u128(safe0, abs_pos), 1);
        let close_abs = abs_pos - safe;
        let remaining = abs_pos - close_abs;
        if remaining < self.params.min_liquidation_abs.0 {
            return (abs_pos, true);
        }
        (close_abs, close_abs == abs_pos)
    }

    fn close_aggregates(&mut self, a: Account, pos: i128, new_pos: i128, amount: u128)
        ensures
            final(self)@ == m_close_aggregates(old(self)@, a, pos, new_pos, amount as int),
    {
        self.total_open_interest = U128(crate::num::sat_sub_u128(self.total_open_interest.0, amount));
        if pos > 0 {
            self.long_oi = U128(crate::num::sat_sub_u128(self.long_oi.0, amount));
        } else {
            self.short_oi = U128(crate::num::sat_sub_u128(self.short_oi.0, amount));
        }
        if a.kind == KIND_LP {
            self.net_lp_pos = I128(
                crate::num::sat_add_i128(crate::num::sat_sub_i128(self.net_lp_pos.0, pos), new_pos),
            );
            self.lp_sum_abs = U128(crate::num::sat_sub_u128(self.lp_sum_abs.0, amount));
        }
    }

    fn after_close(&mut self, idx: u16)
        requires
            old(self).wf(),
            idx < MAX_ACCOUNTS,
            old(self)@.is_used(idx as int),
        ensures
            final(self).wf(),
            final(self)@ == m_after_close(old(self)@, idx as int),
    {
        let _ = self.settle_warmup_to_capital(idx);
        if self.accounts[idx as usize].pnl < 0 {
            self.set_pnl(idx as usize, 0);
        }
    }

    /// Closes the whole position of `idx` at `oracle_price`.
    #[verifier::rlimit(100)]
    #[verifier::spinoff_prover]
    pub(crate) fn oracle_close_position_core(&mut self, idx: u16, oracle_price: u64) -> (r:
        RiskResult<ClosedOutcome>)
        requires
            old(self).wf(),
            idx < MAX_ACCOUNTS,
            old(self)@.is_used(idx as int),
        ensures
            final(self)@.adl_epoch_long == old(self)@.adl_epoch_long && final(self)@.adl_epoch_short == old(self)@.adl_epoch_short,
            final(self)@.used == old(self)@.used,
            final(self).wf(),
            final(self)@ == close_core_spec(old(self)@, idx as int, oracle_price).0,
            r == Ok::<ClosedOutcome, RiskError>(close_core_spec(old(self)@, idx as int, oracle_price).1),
    {
        proof {
            reveal(close_core_spec);
        }
        let i = idx as usize;
        let a = self.accounts[i];
        if a.position_size == 0 {
            return Ok(
                ClosedOutcome {
                    abs_pos: 0,
                    mark_pnl: 0,
                    cap_before: a.capital.0,
                    cap_after: a.capital.0,
                    position_was_closed: false,
                },
            );
        }
        let pos = a.position_size;
        let abs_pos = crate::num::saturating_abs_i128(pos) as u128;
        let cap_before = a.capital.0;
        let mark_pnl = match Self::mark_pnl_for_position(pos, a.entry_price, oracle_price) {
            Ok(v) => v,
            Err(_) => -crate::num::u128_to_i128_clamped(cap_before),
        };
        self.set_pnl(i, crate::num::sat_add_i128(a.pnl, mark_pnl));
        let mut a1 = self.accounts[i];
        a1.position_size = 0;
        a1.entry_price = oracle_price;
        self.put_account(i, a1);
        self.close_aggregates(a, pos, 0, abs_pos);
        self.after_close(idx);
        Ok(
            ClosedOutcome {
                abs_pos,
                mark_pnl,
                cap_before,
                cap_after: self.accounts[i].capital.0,
                position_was_closed: true,
            },
        )
    }

    /// Closes `close_abs` units of the position of `idx` at `oracle_price`.
    #[verifier::rlimit(100)]
    #[verifier::spinoff_prover]
    pub(crate) fn oracle_close_position_slice_core(&mut self, idx: u16, oracle_price: u64, close_abs: u128) -> (r:
        RiskResult<ClosedOutcome>)
        requires
            old(self).wf(),
            idx < MAX_ACCOUNTS,
            old(self)@.is_used(idx as int),
        ensures
            final(self).wf(),
            final(self)@ == close_slice_spec(old(self)@, idx as int, oracle_price, close_abs).0,
            r == Ok::<ClosedOutcome, RiskError>(
                close_slice_spec(old(self)@, idx as int, oracle_price, close_abs).1,
            ),
    {
        let i = idx as usize;
        let a = self.accounts[i];
        let pos = a.position_size;
        let cur = crate::num::saturating_abs_i128(pos) as u128;
        if close_abs == 0 || cur == 0 {
            return Ok(
                ClosedOutcome {
                    abs_pos: 0,
                    mark_pnl: 0,
                    cap_before: a.capital.0,
                    cap_after: a.capital.0,
                    position_was_closed: false,
                },
            );
        }
        if close_abs >= cur {
            return self.oracle_close_position_core(idx, oracle_price);
        }
        let cap_before = a.capital.0;
        let diff: i128 = if pos > 0 {
            (oracle_price as i128) - (a.entry_price as i128)
        } else {
            (a.entry_price as i128) - (oracle_price as i128)
        };
        let mark_pnl: i128 = match diff.checked_mul(close_abs as i128) {
            Some(p) => if oracle_price != 0 {
                crate::engine::funding::trunc_div_i128(p, oracle_price as i128)
            } else {
                -crate::num::u128_to_i128_clamped(cap_before)
            },
            None => -crate::num::u128_to_i128_clamped(cap_before),
        };
        self.set_pnl(i, crate::num::sat_add_i128(a.pnl, mark_pnl));
        let new_abs = cur - close_abs;
        let new_pos: i128 = if pos > 0 {
            new_abs as i128
        } else {
            -(new_abs as i128)
        };
        let mut a1 = self.accounts[i];
        a1.position_size = new_pos;
        self.put_account(i, a1);
        self.close_aggregates(a, pos, new_pos, close_abs);
        self.after_close(idx);
        Ok(
            ClosedOutcome {
                abs_pos: close_abs,
                mark_pnl,
                cap_before,
                cap_after: self.accounts[i].capital.0,
                position_was_closed: true,
            },
        )
    }

    fn charge_liquidation_fee(&mut self, idx: u16, oracle_price: u64, abs_closed: u128)
        requires
            old(self).wf(),
            idx < MAX_ACCOUNTS,
        ensures
            final(self).wf(),
            final(self)@ == m_liq_fee(old(self)@, idx as int, oracle_price, abs_closed as int),
    {
        let i = idx as usize;
        let notional = crate::wide_math::mul_div_floor_u128(abs_closed, oracle_price as u128, 1_000_000);
        let fee_raw = if notional > 0 && self.params.liquidation_fee_bps > 0 {
            crate::wide_math::mul_div_ceil_u128(notional, self.params.liquidation_fee_bps as u128, 10_000)
        } else {
            0
        };
        let fee = crate::num::min_u128(fee_raw, self.params.liquidation_fee_cap.0);
        let account_capital = self.accounts[i].capital.0;
        let pay = crate::num::min_u128(fee, account_capital);
        self.set_capital(i, account_capital - pay);
        self.insurance_fund.balance = U128(crate::num::sat_add_u128(self.insurance_fund.balance.0, pay));
        self.insurance_fund.fee_revenue = U128(
            crate::num::sat_add_u128(self.insurance_fund.fee_revenue.0, pay),
        );
        self.lifetime_liquidations = crate::num::sat_add_u64(self.lifetime_liquidations, 1);
    }

    /// Settles funding, mark (best effort) and fees (best effort) before a liquidation.
    pub(crate) fn touch_account_for_liquidation(&mut self, idx: u16, now_slot: u64, oracle_price: u64) -> (r:
        RiskResult<()>)
        requires
            old(self).wf(),
            idx < MAX_ACCOUNTS,
            old(self)@.is_used(idx as int),
        ensures
            final(self)@.adl_epoch_long == old(self)@.adl_epoch_long && final(self)@.adl_epoch_short == old(self)@.adl_epoch_short,
            final(self)@.used == old(self)@.used,
            final(self).wf(),
            final(self)@ == touch_liq_spec(old(self)@, idx as int, now_slot, oracle_price).0,
            r == touch_liq_spec(old(self)@, idx as int, now_slot, oracle_price).1,
    {
        match self.touch_account(idx) {
            Ok(()) => {},
            Err(e) => {
                return Err(e);
            },
        }
        let old_avail = self.released_pos(idx as usize);
        match self.settle_mark_to_oracle_best_effort(idx, oracle_price) {
            Ok(()) => {},
            Err(e) => {
                return Err(e);
            },
        }
        let new_avail = self.released_pos(idx as usize);
        if new_avail > old_avail {
            let _ = self.update_warmup_slope(idx);
        }
        let _ = self.settle_maintenance_fee_best_effort_for_crank(idx, now_slot);
        Ok(())
    }

    /// Settles funding, mark and fees (best effort) before a force-realize close.
    pub(crate) fn touch_account_for_force_realize(&mut self, idx: u16, now_slot: u64, oracle_price: u64) -> (r:
        RiskResult<()>)
        requires
            old(self).wf(),
            idx < MAX_ACCOUNTS,
            old(self)@.is_used(idx as int),
        ensures
            final(self)@.adl_epoch_long == old(self)@.adl_epoch_long && final(self)@.adl_epoch_short == old(self)@.adl_epoch_short,
            final(self)@.used == old(self)@.used,
            final(self).wf(),
            ({
                match settle_funding_spec(old(self)@, idx as int) {
                    Err(e) => r == Err::<(), RiskError>(e) && final(self)@ == old(self)@,
                    Ok(m1) => match settle_mark_spec(m1, idx as int, oracle_price, false) {
                        Err(e) => r == Err::<(), RiskError>(e) && final(self)@ == m1,
                        Ok(m2) => r is Ok && final(self)@ == m_maint_coupon(m2, idx as int, now_slot).0,
                    },
                }
            }),
    {
        match self.touch_account(idx) {
            Ok(()) => {},
            Err(e) => {
                return Err(e);
            },
        }
        match self.settle_mark_to_oracle(idx, oracle_price) {
            Ok(()) => {},
            Err(e) => {
                return Err(e);
            },
        }
        let _ = self.settle_maintenance_fee_best_effort_for_crank(idx, now_slot);
        Ok(())
    }

    #[verifier::rlimit(100)]
    #[verifier::spinoff_prover]
    fn liq_close_step(
        &mut self,
        idx: u16,
        oracle_price: u64,
        close_abs: u128,
        full: bool,
        partial_stamp: Option<u64>,
    ) -> (out: ClosedOutcome)
        requires
            old(self).wf(),
            idx < MAX_ACCOUNTS,
            old(self)@.is_used(idx as int),
        ensures
            final(self).wf(),
            final(self)@.is_used(idx as int),
            (final(self)@, out) == liq_close_step_spec(
                old(self)@,
                idx as int,
                oracle_price,
                close_abs,
                full,
                partial_stamp,
            ),
    {
        proof {
            reveal(close_core_spec);
        }
        let i = idx as usize;
        let outcome = if full {
            match self.oracle_close_position_core(idx, oracle_price) {
                Ok(o) => o,
                Err(_) => {
                    proof {
                        assert(false);
                    }
                    return ClosedOutcome {
                        abs_pos: 0,
                        mark_pnl: 0,
                        cap_before: 0,
                        cap_after: 0,
                        position_was_closed: false,
                    };
                },
            }
        } else {
            match self.oracle_close_position_slice_core(idx, oracle_price, close_abs) {
                Ok(o) => o,
                Err(_) => {
                    proof {
                        assert(false);
                    }
                    return ClosedOutcome {
                        abs_pos: 0,
                        mark_pnl: 0,
                        cap_before: 0,
                        cap_after: 0,
                        position_was_closed: false,
                    };
                },
            }
        };
        if outcome.position_was_closed {
            match partial_stamp {
                Some(s) => {
                    if !full {
                        let mut a = self.accounts[i];
                        a.last_partial_liquidation_slot = s;
                        self.put_account(i, a);
                    }
                },
                None => {},
            }
        }
        outcome
    }

    #[verifier::rlimit(100)]
    #[verifier::spinoff_prover]
    fn liq_finish(&mut self, idx: u16, oracle_price: u64, check_price: u64, closed: u128)
        requires
            old(self).wf(),
            idx < MAX_ACCOUNTS,
            old(self)@.is_used(idx as int),
        ensures
            final(self).wf(),
            final(self)@ == liq_finish_spec(old(self)@, idx as int, oracle_price, check_price, closed),
    {
        let i = idx as usize;
        let mut abs_total = closed;
        if self.accounts[i].position_size != 0 {
            let target_bps = crate::num::sat_add_u64(
                self.params.maintenance_margin_bps,
                self.params.liquidation_buffer_bps,
            );
            let acc = self.accounts[i];
            if !self.is_above_margin_bps_mtm(&acc, check_price, target_bps) {
                let fallback = match self.oracle_close_position_core(idx, oracle_price) {
                    Ok(o) => o,
                    Err(_) => {
                        proof {
                            assert(false);
                        }
                        return;
                    },
                };
                if fallback.position_was_closed {
                    abs_total = crate::num::sat_add_u128(abs_total, fallback.abs_pos);
                }
            }
        }
        self.charge_liquidation_fee(idx, oracle_price, abs_total);
    }

    fn liq_execute(
        &mut self,
        idx: u16,
        oracle_price: u64,
        check_price: u64,
        close_abs: u128,
        full: bool,
        partial_stamp: Option<u64>,
    ) -> (r: RiskResult<bool>)
        requires
            old(self).wf(),
            idx < MAX_ACCOUNTS,
            old(self)@.is_used(idx as int),
        ensures
            final(self).wf(),
            final(self)@ == liq_execute_spec(
                old(self)@,
                idx as int,
                oracle_price,
                check_price,
                close_abs,
                full,
                partial_stamp,
            ).0,
            r == liq_execute_spec(
                old(self)@,
                idx as int,
                oracle_price,
                check_price,
                close_abs,
                full,
                partial_stamp,
            ).1,
    {
        proof {
            reveal(liq_execute_spec);
        }
        let outcome = self.liq_close_step(idx, oracle_price, close_abs, full, partial_stamp);
        if !outcome.position_was_closed {
            return Ok(false);
        }
        self.liq_finish(idx, oracle_price, check_price, outcome.abs_pos);
        Ok(true)
    }

    /// Liquidates `idx` at the oracle price when it is below MTM maintenance:
    /// closes the amount needed (all of it when the rest would be dust),
    /// closes the rest if the target margin is still not met, and charges the
    /// liquidation fee. `Ok(false)` when nothing was liquidated.
    #[verifier::rlimit(100)]
    #[verifier::spinoff_prover]
    pub fn liquidate_at_oracle(&mut self, idx: u16, now_slot: u64, oracle_price: u64) -> (r:
        RiskResult<bool>)
        requires
            old(self).wf(),
        ensures
            final(self)@.adl_epoch_long == old(self)@.adl_epoch_long && final(self)@.adl_epoch_short == old(self)@.adl_epoch_short,
            final(self)@.used == old(self)@.used,
            final(self).wf(),
            final(self)@ == liquidate_spec(old(self)@, idx, now_slot, oracle_price).0,
            r == liquidate_spec(old(self)@, idx, now_slot, oracle_price).1,
    {
        proof {
            reveal(liq_execute_spec);
        }
        proof {
            reveal(close_core_spec);
        }
        proof {
            reveal(liquidate_spec);
        }
        self.current_slot = now_slot;
        if idx as usize >= MAX_ACCOUNTS || !self.is_used(idx as usize) {
            return Ok(false);
        }
        if oracle_price == 0 || oracle_price > MAX_ORACLE_PRICE {
            return Err(RiskError::Overflow);
        }
        let i = idx as usize;
        if self.accounts[i].position_size == 0 {
            return Ok(false);
        }
        match self.touch_account_for_liquidation(idx, now_slot, oracle_price) {
            Ok(()) => {},
            Err(e) => {
                return Err(e);
            },
        }
        let acc = self.accounts[i];
        if self.is_above_maintenance_margin_mtm(&acc, oracle_price) {
            return Ok(false);
        }
        let (close_abs, is_full_close) = self.compute_liquidation_close_amount(&acc, oracle_price);
        if close_abs == 0 {
            return Ok(false);
        }
        self.liq_execute(idx, oracle_price, oracle_price, close_abs, is_full_close, None)
    }

    fn mark_liq_close(&self, idx: u16, now_slot: u64, mark_price: u64) -> (r: Option<(u128, bool)>)
        requires
            self.wf(),
            idx < MAX_ACCOUNTS,
        ensures
            r == mark_liq_close_spec(self@, idx as int, now_slot, mark_price),
    {
        let a = self.accounts[idx as usize];
        let cooldown = self.params.partial_liquidation_cooldown_slots;
        let since = crate::num::sat_sub_u64(now_slot, a.last_partial_liquidation_slot);
        let can_partial = self.params.partial_liquidation_bps > 0 && (cooldown == 0 || since
            >= cooldown);
        let pos_abs = crate::num::saturating_abs_i128(a.position_size) as u128;
        if can_partial {
            let b0 = crate::num::max_u128(
                crate::wide_math::mul_div_floor_u128(
                    pos_abs,
                    self.params.partial_liquidation_bps as u128,
                    10_000,
                ),
                self.params.min_liquidation_abs.0,
            );
            let batch = if pos_abs > 0 {
                crate::num::max_u128(b0, 1)
            } else {
                b0
            };
            if batch >= pos_abs {
                Some((pos_abs, true))
            } else {
                Some((batch, false))
            }
        } else if cooldown > 0 && since < cooldown {
            let eb = self.params.effective_emergency_margin_bps();
            if !self.is_above_margin_bps_mtm(&a, mark_price, eb) {
                Some((pos_abs, true))
            } else {
                None
            }
        } else {
            Some((pos_abs, true))
        }
    }

    /// Liquidation triggered at the mark price (partial, with cooldown) and
    /// settled at the oracle price; plain oracle liquidation when mark-price
    /// liquidation is off or no mark is set.
    #[verifier::rlimit(100)]
    #[verifier::spinoff_prover]
    pub fn liquidate_with_mark_price(&mut self, idx: u16, now_slot: u64, oracle_price: u64) -> (r:
        RiskResult<bool>)
        requires
            old(self).wf(),
        ensures
            final(self).wf(),
            final(self)@ == mark_liquidate_spec(old(self)@, idx, now_slot, oracle_price).0,
            r == mark_liquidate_spec(old(self)@, idx, now_slot, oracle_price).1,
    {
        if !self.params.use_mark_price_for_liquidation || self.mark_price_e6 == 0 {
            return self.liquidate_at_oracle(idx, now_slot, oracle_price);
        }
        self.current_slot = now_slot;
        if idx as usize >= MAX_ACCOUNTS || !self.is_used(idx as usize) {
            return Ok(false);
        }
        if oracle_price == 0 || oracle_price > MAX_ORACLE_PRICE {
            return Err(RiskError::Overflow);
        }
        if self.accounts[idx as usize].position_size == 0 {
            return Ok(false);
        }
        match self.touch_account_for_liquidation(idx, now_slot, oracle_price) {
            Ok(()) => {},
            Err(e) => {
                return Err(e);
            },
        }
        let mark_price = self.mark_price_e6;
        let acc = self.accounts[idx as usize];
        if self.is_above_maintenance_margin_mtm(&acc, mark_price) {
            return Ok(false);
        }
        let (close_abs, is_full_close) = match self.mark_liq_close(idx, now_slot, mark_price) {
            Some(p) => p,
            None => {
                return Ok(false);
            },
        };
        if close_abs == 0 {
            return Ok(false);
        }
        self.liq_execute(idx, oracle_price, mark_price, close_abs, is_full_close, Some(now_slot))
    }

    /// Closes the position of a used account at the oracle price without any
    /// margin check (mark settled best effort first).
    pub fn admin_force_close(&mut self, idx: u16, now_slot: u64, oracle_price: u64) -> (r: RiskResult<()>)
        requires
            old(self).wf(),
        ensures
            final(self).wf(),
            ({
                let i = idx as int;
                let m0 = EngineModel { current_slot: now_slot, ..old(self)@ };
                if idx >= MAX_ACCOUNTS || !old(self)@.is_used(i) {
                    r == Err::<(), RiskError>(RiskError::AccountNotFound) && final(self)@ == old(self)@
                } else if m0.accounts[i].position_size == 0 {
                    r is Ok && final(self)@ == m0
                } else {
                    match settle_mark_spec(m0, i, oracle_price, true) {
                        Err(e) => r == Err::<(), RiskError>(e) && final(self)@ == m0,
                        Ok(m1) => r is Ok && final(self)@ == close_core_spec(m1, i, oracle_price).0,
                    }
                }
            }),
    {
        if idx as usize >= MAX_ACCOUNTS {
            return Err(RiskError::AccountNotFound);
        }
        if !self.is_used(idx as usize) {
            return Err(RiskError::AccountNotFound);
        }
        self.current_slot = now_slot;
        if self.accounts[idx as usize].position_size == 0 {
            return Ok(());
        }
        match self.settle_mark_to_oracle_best_effort(idx, oracle_price) {
            Ok(()) => {},
            Err(e) => {
                return Err(e);
            },
        }
        match self.oracle_close_position_core(idx, oracle_price) {
            Ok(_) => {},
            Err(e) => {
                return Err(e);
            },
        }
        Ok(())
    }

    /// Auto-deleverage: closes all (when its PnL does not exceed `excess`) or
    /// the proportional share excess / PnL of a profitable position, then
    /// runs the end-of-instruction lifecycle. Returns the amount closed.
    #[verifier::rlimit(100)]
    #[verifier::spinoff_prover]
    pub fn execute_adl(&mut self, idx: u16, now_slot: u64, oracle_price: u64, excess: u128) -> (r:
        RiskResult<u128>)
        requires
            old(self).wf(),
            old(self)@.adl_epoch_long < u64::MAX,
            old(self)@.adl_epoch_short < u64::MAX,
        ensures
            final(self).wf(),
            final(self)@ == execute_adl_spec(old(self)@, idx, now_slot, oracle_price, excess).0,
            r == execute_adl_spec(old(self)@, idx, now_slot, oracle_price, excess).1,
    {
        proof {
            reveal(close_core_spec);
        }
        if idx as usize >= MAX_ACCOUNTS {
            return Err(RiskError::AccountNotFound);
        }
        if !self.is_used(idx as usize) {
            return Err(RiskError::AccountNotFound);
        }
        self.current_slot = now_slot;
        let pos = self.accounts[idx as usize].position_size;
        if pos == 0 {
            return Err(RiskError::AccountNotFound);
        }
        match self.settle_mark_to_oracle_best_effort(idx, oracle_price) {
            Ok(()) => {},
            Err(e) => {
                return Err(e);
            },
        }
        let target_pnl = self.accounts[idx as usize].pnl;
        if target_pnl <= 0 {
            return Err(RiskError::Undercollateralized);
        }
        let result = self.adl_close(idx, oracle_price, excess);
        match self.end_of_instruction() {
            Ok(()) => {},
            Err(e) => {
                return Err(e);
            },
        }
        Ok(result)
    }

    #[verifier::rlimit(60)]
    fn adl_close(&mut self, idx: u16, oracle_price: u64, excess: u128) -> (result: u128)
        requires
            old(self).wf(),
            idx < MAX_ACCOUNTS,
            old(self)@.is_used(idx as int),
            old(self)@.accounts[idx as int].pnl > 0,
        ensures
            final(self).wf(),
            final(self)@ == adl_close_spec(old(self)@, idx as int, oracle_price, excess).0,
            result == adl_close_spec(old(self)@, idx as int, oracle_price, excess).1,
    {
        let tpp = self.accounts[idx as usize].pnl as u128;
        let abs_pos = crate::num::saturating_abs_i128(self.accounts[idx as usize].position_size) as u128;
        if tpp <= excess || abs_pos == 0 {
            let _ = self.oracle_close_position_core(idx, oracle_price);
            abs_pos
        } else {
            let c0 = match abs_pos.checked_mul(excess) {
                Some(v) => v / tpp,
                None => abs_pos,
            };
            let c = crate::num::max_u128(c0, 1);
            let _ = self.oracle_close_position_slice_core(idx, oracle_price, c);
            c
        }
    }
}

} // verus!
