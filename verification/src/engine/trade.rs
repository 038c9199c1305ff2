//! Bilateral trades between a user and an LP at a matcher's execution.
use vstd::prelude::*;
use crate::num::{i128_sat, u128_sat, I128, U128};
use crate::wide_math::{ceil_div, floor_div, I256};
use crate::engine::types::{
    Account, InsuranceFund, InstructionContext, MatchingEngine, RiskError, RiskResult,
    TradeExecution, KIND_LP, KIND_USER, MAX_ACCOUNTS, MAX_ORACLE_PRICE, MAX_POSITION_ABS_Q,
    POS_SCALE,
};
use crate::engine::state::{EngineModel, RiskEngine};
use crate::engine::ledger::{max_int, min_int, pos_part};
use crate::engine::positions::abs_int;
use crate::engine::margin::{maint_raw, mm_req, one_side_ok, sat_fd};
use crate::engine::settle::fee_debt;
use crate::engine::funding::{settle_funding_spec, settle_mark_spec, twap_spec};
use crate::engine::account_ops::{
    m_loss_writeoff, m_settle_warmup, m_update_slope, maint_fee_spec,
};
use crate::engine::admin::dynamic_fee_spec;
use crate::engine::sides::{m_finalize_resets, resets_startable, sched_spec};

verus! {

/// |v| as the engine's saturating absolute value.
pub open spec fn sat_abs(v: i128) -> int {
    min_int(abs_int(v as int), i128::MAX as int)
}

/// Checks on a requested trade, made before the matcher is called.
pub open spec fn trade_precheck(
    m: EngineModel,
    lp: u16,
    user: u16,
    now: u64,
    oracle: u64,
    size: i128,
) -> Option<RiskError> {
    let ou = m.accounts[user as int].position_size;
    let ol = m.accounts[lp as int].position_size;
    let inc = sat_abs(i128_sat(ou + size)) > sat_abs(ou) || sat_abs(i128_sat(ol - size)) > sat_abs(
        ol,
    );
    let sweep_age = max_int(now - m.last_full_sweep_start_slot, 0);
    if !m.is_used(lp as int) || !m.is_used(user as int) {
        Some(RiskError::AccountNotFound)
    } else if oracle == 0 || oracle > MAX_ORACLE_PRICE {
        Some(RiskError::Overflow)
    } else if size == 0 || size == i128::MIN || sat_abs(size) > MAX_POSITION_ABS_Q {
        Some(RiskError::Overflow)
    } else if m.accounts[lp as int].kind != KIND_LP || m.accounts[user as int].kind != KIND_USER {
        Some(RiskError::AccountKindMismatch)
    } else if inc && sweep_age > m.max_crank_staleness_slots {
        Some(RiskError::Unauthorized)
    } else {
        None
    }
}

/// Checks on the matcher's execution: `Some(Ok)` for a no-fill, `Some(Err)`
/// for a rejected execution, `None` to go on.
pub open spec fn execution_check(ex: TradeExecution, size: i128) -> Option<RiskResult<()>> {
    if ex.price == 0 || ex.price > MAX_ORACLE_PRICE {
        Some(Err(RiskError::InvalidMatchingEngine))
    } else if ex.size == 0 {
        Some(Ok(()))
    } else if ex.size == i128::MIN || sat_abs(ex.size) > MAX_POSITION_ABS_Q || (ex.size > 0) != (
    size > 0) || sat_abs(ex.size) > sat_abs(size) {
        Some(Err(RiskError::InvalidMatchingEngine))
    } else {
        None
    }
}

/// Funding, mark and warmup restarts for both parties: the engine, or the
/// engine where it stopped and the error.
pub open spec fn pre_front_spec(m: EngineModel, u: int, l: int, oracle: u64) -> Result<
    EngineModel,
    (EngineModel, RiskError),
> {
    match settle_funding_spec(m, u) {
        Err(e) => Err((m, e)),
        Ok(f1) => match settle_funding_spec(f1, l) {
            Err(e) => Err((f1, e)),
            Ok(f2) => {
                let old_u = pos_part(f2.accounts[u].pnl);
                let old_l = pos_part(f2.accounts[l].pnl);
                match settle_mark_spec(f2, u, oracle, false) {
                    Err(e) => Err((f2, e)),
                    Ok(k1) => match settle_mark_spec(k1, l, oracle, false) {
                        Err(e) => Err((k1, e)),
                        Ok(k2) => {
                            let s1 = if pos_part(k2.accounts[u].pnl) > old_u {
                                m_update_slope(k2, u)
                            } else {
                                k2
                            };
                            Ok(
                                if pos_part(k2.accounts[l].pnl) > old_l {
                                    m_update_slope(s1, l)
                                } else {
                                    s1
                                },
                            )
                        },
                    },
                }
            },
        },
    }
}

/// Funding, mark, warmup restarts and maintenance fees for both parties.
pub open spec fn pre_settle_spec(m: EngineModel, u: int, l: int, now: u64, oracle: u64) -> (
    EngineModel,
    RiskResult<()>,
) {
    match pre_front_spec(m, u, l, oracle) {
        Err(p) => (p.0, Err(p.1)),
        Ok(s2) => {
            let (f3, r3) = maint_fee_spec(s2, u, now, oracle);
            match r3 {
                Err(e) => (f3, Err(e)),
                Ok(_) => {
                    let (f4, r4) = maint_fee_spec(f3, l, now, oracle);
                    match r4 {
                        Err(e) => (f4, Err(e)),
                        Ok(_) => (f4, Ok(())),
                    }
                },
            }
        },
    }
}

/// Trading fee: ceil(|size| * fee_bps / 10_000) at the dynamic fee rate.
pub open spec fn trade_fee_spec(m: EngineModel, ex: TradeExecution) -> int {
    let abs_size = sat_abs(ex.size);
    let notional = (abs_size * ex.price) / 1_000_000;
    let bps = dynamic_fee_spec(m, notional as u128);
    if abs_size > 0 && bps > 0 {
        ceil_div(abs_size, bps, 10_000)
    } else {
        0
    }
}

/// Maintenance buffer before the trade: Eq_maint_raw - MM_req(position).
pub open spec fn buffer_pre_spec(m: EngineModel, a: Account, oracle: u64) -> int {
    let req = if a.position_size == 0 {
        0
    } else {
        mm_req(m, sat_fd(abs_int(a.position_size as int), oracle as int, POS_SCALE as int))
    };
    maint_raw(a) - req
}

/// Haircut on the pnl_pos_tot projected after the trade's PnL changes.
pub open spec fn projected_haircut(m: EngineModel, pos_tot: int) -> (int, int) {
    if pos_tot == 0 {
        (1, 1)
    } else {
        let residual = max_int(
            max_int(m.vault.0 - m.c_tot.0, 0) - (m.insurance_fund.balance.0
                + m.insurance_fund.isolated_balance.0),
            0,
        );
        (min_int(residual, pos_tot), pos_tot)
    }
}

/// The margin rule applied inline to one party of a trade.
pub open spec fn party_margin_ok(
    m: EngineModel,
    h: (int, int),
    old_pos: i128,
    new_pos: i128,
    capital: int,
    new_pnl: i128,
    fee_credits: i128,
    oracle: u64,
    check_capital: bool,
) -> bool {
    if new_pos == 0 {
        true
    } else {
        let eff_pos = if new_pnl <= 0 {
            0
        } else {
            floor_div(new_pnl as int, h.0, h.1)
        };
        let e = i128_sat(
            i128_sat(min_int(capital, i128::MAX as int) + min_int(new_pnl as int, 0)) + min_int(
                eff_pos,
                i128::MAX as int,
            ),
        );
        let eq = max_int(max_int(e as int, 0) - fee_debt(fee_credits), 0);
        let value = (sat_abs(new_pos) * oracle) / 1_000_000;
        let inc = sat_abs(new_pos) > sat_abs(old_pos) || (old_pos > 0 && new_pos < 0) || (old_pos
            < 0 && new_pos > 0);
        let bps = if inc {
            m.params.initial_margin_bps
        } else {
            m.params.maintenance_margin_bps
        };
        let floor = if inc {
            m.params.min_nonzero_im_req
        } else {
            m.params.min_nonzero_mm_req
        };
        let req = max_int(sat_fd(value, bps as int, 10_000), floor as int);
        eq > req && (!check_capital || capital >= (sat_abs(new_pos) * bps) / 10_000)
    }
}

/// The trade's new positions, PnLs and user capital. The user's trade PnL is
/// floor(size * (oracle - price) / POS_SCALE); the LP takes its negation.
#[derive(Clone, Copy)]
pub struct TradeFill {
    pub new_user_pos: i128,
    pub new_lp_pos: i128,
    pub new_user_pnl: i128,
    pub new_lp_pnl: i128,
    pub new_user_capital: u128,
}

pub open spec fn fill_spec(
    m: EngineModel,
    u: int,
    l: int,
    oracle: u64,
    ex: TradeExecution,
    fee: int,
) -> Result<TradeFill, RiskError> {
    let ua = m.accounts[u];
    let la = m.accounts[l];
    let nup = ua.position_size + ex.size;
    let nlp = la.position_size - ex.size;
    if !(i128::MIN <= nup <= i128::MAX) || !(i128::MIN <= nlp <= i128::MAX) {
        Err(RiskError::Overflow)
    } else if sat_abs(nup as i128) > MAX_POSITION_ABS_Q || sat_abs(nlp as i128)
        > MAX_POSITION_ABS_Q {
        Err(RiskError::Overflow)
    } else {
        let tp = (ex.size * (oracle - ex.price)) / (POS_SCALE as int);
        let nupnl = ua.pnl + tp;
        let nlpnl = la.pnl - tp;
        if !(i128::MIN <= nupnl <= i128::MAX) || !(i128::MIN <= nlpnl <= i128::MAX) {
            Err(RiskError::Overflow)
        } else if ua.capital.0 < fee {
            Err(RiskError::InsufficientBalance)
        } else {
            let pos_tot = u128_sat(
                u128_sat(
                    u128_sat(u128_sat(m.pnl_pos_tot + pos_part(nupnl as i128)) - pos_part(ua.pnl))
                        + pos_part(nlpnl as i128),
                ) - pos_part(la.pnl),
            );
            let h = projected_haircut(m, pos_tot as int);
            if !party_margin_ok(
                m,
                h,
                ua.position_size,
                nup as i128,
                ua.capital.0 - fee,
                nupnl as i128,
                ua.fee_credits.0,
                oracle,
                true,
            ) || !party_margin_ok(
                m,
                h,
                la.position_size,
                nlp as i128,
                la.capital.0 as int,
                nlpnl as i128,
                la.fee_credits.0,
                oracle,
                false,
            ) {
                Err(RiskError::Undercollateralized)
            } else {
                Ok(
                    TradeFill {
                        new_user_pos: nup as i128,
                        new_lp_pos: nlp as i128,
                        new_user_pnl: nupnl as i128,
                        new_lp_pnl: nlpnl as i128,
                        new_user_capital: (ua.capital.0 - fee) as u128,
                    },
                )
            }
        }
    }
}

/// Reserve bookkeeping of one party: the entry marker on opening, cleared
/// on closing, clamped to max(PNL, 0).
pub open spec fn trade_reserve(a: Account, new_pos: i128, new_pnl: i128, oracle: u64) -> u128 {
    let r = if a.position_size == 0 && new_pos != 0 {
        oracle as u128
    } else if new_pos == 0 {
        0
    } else {
        a.reserved_pnl
    };
    min_int(r as int, pos_part(new_pnl)) as u128
}

pub open spec fn long_part(p: i128) -> int {
    if p > 0 {
        p as int
    } else {
        0
    }
}

pub open spec fn short_part(p: i128) -> int {
    if p > 0 {
        0
    } else {
        sat_abs(p)
    }
}

/// Applies a signed change to a saturating `U128` aggregate.
pub open spec fn sat_shift(v: u128, old: int, new: int) -> u128 {
    if new > old {
        u128_sat(v + (new - old))
    } else {
        u128_sat(v - (old - new))
    }
}

/// Commits the fill: fee to insurance and fee credits, positions, PnLs,
/// reserves, capital and the O(1) aggregates.
pub open spec fn m_trade_commit(
    m: EngineModel,
    u: int,
    l: int,
    oracle: u64,
    f: TradeFill,
    fee: int,
) -> EngineModel {
    let ua = m.accounts[u];
    let la = m.accounts[l];
    let ua2 = Account {
        fee_credits: I128(i128_sat(ua.fee_credits.0 + fee)),
        pnl: f.new_user_pnl,
        reserved_pnl: trade_reserve(ua, f.new_user_pos, f.new_user_pnl, oracle),
        position_size: f.new_user_pos,
        entry_price: oracle,
        capital: U128(f.new_user_capital),
        ..ua
    };
    let la2 = Account {
        pnl: f.new_lp_pnl,
        reserved_pnl: trade_reserve(la, f.new_lp_pos, f.new_lp_pnl, oracle),
        position_size: f.new_lp_pos,
        entry_price: oracle,
        ..la
    };
    let old_oi = sat_abs(ua.position_size) + sat_abs(la.position_size);
    let new_oi = sat_abs(f.new_user_pos) + sat_abs(f.new_lp_pos);
    EngineModel {
        insurance_fund: InsuranceFund {
            fee_revenue: U128(u128_sat(m.insurance_fund.fee_revenue.0 + fee)),
            balance: U128(u128_sat(m.insurance_fund.balance.0 + fee)),
            ..m.insurance_fund
        },
        accounts: m.accounts.update(u, ua2).update(l, la2),
        c_tot: U128(u128_sat(m.c_tot.0 - fee)),
        pnl_pos_tot: u128_sat(
            u128_sat(
                u128_sat(u128_sat(m.pnl_pos_tot + pos_part(f.new_user_pnl)) - pos_part(ua.pnl))
                    + pos_part(f.new_lp_pnl),
            ) - pos_part(la.pnl),
        ),
        total_open_interest: U128(sat_shift(m.total_open_interest.0, old_oi, new_oi)),
        long_oi: U128(
            sat_shift(
                m.long_oi.0,
                long_part(ua.position_size) + long_part(la.position_size),
                long_part(f.new_user_pos) + long_part(f.new_lp_pos),
            ),
        ),
        short_oi: U128(
            sat_shift(
                m.short_oi.0,
                short_part(ua.position_size) + short_part(la.position_size),
                short_part(f.new_user_pos) + short_part(f.new_lp_pos),
            ),
        ),
        net_lp_pos: I128(i128_sat(i128_sat(m.net_lp_pos.0 - la.position_size) + f.new_lp_pos)),
        lp_sum_abs: U128(sat_shift(m.lp_sum_abs.0, sat_abs(la.position_size), sat_abs(f.new_lp_pos))),
        lp_max_abs: U128(max_int(m.lp_max_abs.0 as int, sat_abs(f.new_lp_pos)) as u128),
        ..m
    }
}

/// Loss settlement for both, then warmup conversion for both, then slopes.
pub open spec fn m_post_trade_settle(m: EngineModel, u: int, l: int) -> EngineModel {
    let m1 = m_loss_writeoff(m_loss_writeoff(m, u), l);
    let m2 = m_settle_warmup(m_settle_warmup(m1, u), l);
    m_update_slope(m_update_slope(m2, u), l)
}

/// The end-of-instruction lifecycle run with a fresh context and the stored rate.
pub open spec fn end_of_instruction_spec(m: EngineModel) -> (EngineModel, RiskResult<()>) {
    let rate = m.funding_rate_bps_per_slot_last;
    let c = InstructionContext { pending_reset_long: false, pending_reset_short: false };
    if !(-crate::engine::types::MAX_ABS_FUNDING_BPS_PER_SLOT <= rate
        <= crate::engine::types::MAX_ABS_FUNDING_BPS_PER_SLOT) {
        (m, Err(RiskError::Overflow))
    } else {
        match sched_spec(m, c) {
            None => (m, Err(RiskError::CorruptState)),
            Some((m4, c4)) => (
                EngineModel { funding_rate_bps_per_slot_last: rate, ..m_finalize_resets(m4, c4) },
                Ok(()),
            ),
        }
    }
}

/// The whole trade after the matcher's execution `ex`.
pub open spec fn trade_with_execution_spec(
    m0: EngineModel,
    u: int,
    l: int,
    now: u64,
    oracle: u64,
    size: i128,
    ex: TradeExecution,
) -> (EngineModel, RiskResult<()>) {
    match execution_check(ex, size) {
        Some(r) => (m0, r),
        None => {
            let t = twap_spec(
                m0.trade_twap_e6,
                m0.twap_last_slot,
                ex.price,
                ((sat_abs(ex.size) * ex.price) / 1_000_000) as u128,
                now,
            );
            let m1 = EngineModel { trade_twap_e6: t.0, twap_last_slot: t.1, ..m0 };
            let (m2, r2) = pre_settle_spec(m1, u, l, now, oracle);
            match r2 {
                Err(e) => (m2, Err(e)),
                Ok(_) => fill_phase_spec(m2, u, l, oracle, ex),
            }
        },
    }
}

/// After both parties are settled: fee, fill, commit, post-trade settlement,
/// the post-trade margin gate and the end-of-instruction lifecycle.
pub open spec fn fill_phase_spec(m2: EngineModel, u: int, l: int, oracle: u64, ex: TradeExecution) -> (
    EngineModel,
    RiskResult<()>,
) {
    let fee = trade_fee_spec(m2, ex);
    let buf_u = buffer_pre_spec(m2, m2.accounts[u], oracle);
    let buf_l = buffer_pre_spec(m2, m2.accounts[l], oracle);
    let pre_u = m2.accounts[u].position_size;
    let pre_l = m2.accounts[l].position_size;
    match fill_spec(m2, u, l, oracle, ex, fee) {
        Err(e) => (m2, Err(e)),
        Ok(f) => finish_trade_spec(
            m_trade_commit(m2, u, l, oracle, f, fee),
            u,
            l,
            oracle,
            pre_u,
            f.new_user_pos,
            pre_l,
            f.new_lp_pos,
            buf_u,
            buf_l,
            fee as u128,
        ),
    }
}

/// Post-trade settlement, the margin gate and the lifecycle.
pub open spec fn finish_trade_spec(
    m: EngineModel,
    u: int,
    l: int,
    oracle: u64,
    pre_u: i128,
    new_u: i128,
    pre_l: i128,
    new_l: i128,
    buf_u: int,
    buf_l: int,
    fee: u128,
) -> (EngineModel, RiskResult<()>) {
    gate_spec(m_post_trade_settle(m, u, l), u, l, oracle, pre_u, new_u, pre_l, new_l, buf_u, buf_l, fee)
}

/// The post-trade margin gate, then the lifecycle.
pub open spec fn gate_spec(
    m3: EngineModel,
    u: int,
    l: int,
    oracle: u64,
    pre_u: i128,
    new_u: i128,
    pre_l: i128,
    new_l: i128,
    buf_u: int,
    buf_l: int,
    fee: u128,
) -> (EngineModel, RiskResult<()>) {
    if !(one_side_ok(m3, u, oracle, pre_u, new_u, buf_u, fee) && one_side_ok(
        m3,
        l,
        oracle,
        pre_l,
        new_l,
        buf_l,
        0,
    )) {
        (m3, Err(RiskError::Undercollateralized))
    } else {
        end_of_instruction_spec(m3)
    }
}

impl RiskEngine {
    fn pre_settle_front(&mut self, user_idx: u16, lp_idx: u16, oracle_price: u64) -> (r:
        RiskResult<()>)
        requires
            old(self).wf(),
            user_idx < MAX_ACCOUNTS,
            lp_idx < MAX_ACCOUNTS,
            old(self)@.is_used(user_idx as int),
            old(self)@.is_used(lp_idx as int),
        ensures
            final(self).wf(),
            final(self)@.is_used(user_idx as int) && final(self)@.is_used(lp_idx as int),
            pre_front_spec(old(self)@, user_idx as int, lp_idx as int, oracle_price) matches Ok(m)
                ==> r is Ok && final(self)@ == m,
            pre_front_spec(old(self)@, user_idx as int, lp_idx as int, oracle_price) matches Err(
                p,
            ) ==> r == Err::<(), RiskError>(p.1) && final(self)@ == p.0,
    {
        match self.touch_account(user_idx) {
            Ok(()) => {},
            Err(e) => {
                return Err(e);
            },
        }
        match self.touch_account(lp_idx) {
            Ok(()) => {},
            Err(e) => {
                return Err(e);
            },
        }
        let user_old = crate::num::clamp_pos_i128(self.accounts[user_idx as usize].pnl);
        let lp_old = crate::num::clamp_pos_i128(self.accounts[lp_idx as usize].pnl);
        match self.settle_mark_to_oracle(user_idx, oracle_price) {
            Ok(()) => {},
            Err(e) => {
                return Err(e);
            },
        }
        match self.settle_mark_to_oracle(lp_idx, oracle_price) {
            Ok(()) => {},
            Err(e) => {
                return Err(e);
            },
        }
        let user_new = crate::num::clamp_pos_i128(self.accounts[user_idx as usize].pnl);
        let lp_new = crate::num::clamp_pos_i128(self.accounts[lp_idx as usize].pnl);
        if user_new > user_old {
            let _ = self.update_warmup_slope(user_idx);
        }
        if lp_new > lp_old {
            let _ = self.update_warmup_slope(lp_idx);
        }
        Ok(())
    }

    fn pre_settle_parties(&mut self, user_idx: u16, lp_idx: u16, now_slot: u64, oracle_price: u64) -> (r:
        RiskResult<()>)
        requires
            old(self).wf(),
            user_idx < MAX_ACCOUNTS,
            lp_idx < MAX_ACCOUNTS,
            old(self)@.is_used(user_idx as int),
            old(self)@.is_used(lp_idx as int),
        ensures
            final(self).wf(),
            final(self)@ == pre_settle_spec(
                old(self)@,
                user_idx as int,
                lp_idx as int,
                now_slot,
                oracle_price,
            ).0,
            r == pre_settle_spec(old(self)@, user_idx as int, lp_idx as int, now_slot, oracle_price).1,
    {
        match self.pre_settle_front(user_idx, lp_idx, oracle_price) {
            Ok(()) => {},
            Err(e) => {
                return Err(e);
            },
        }
        match self.settle_maintenance_fee(user_idx, now_slot, oracle_price) {
            Ok(_) => {},
            Err(e) => {
                return Err(e);
            },
        }
        match self.settle_maintenance_fee(lp_idx, now_slot, oracle_price) {
            Ok(_) => {},
            Err(e) => {
                return Err(e);
            },
        }
        Ok(())
    }

    fn buffer_pre(&self, a: &Account, oracle_price: u64) -> (r: I256)
        ensures
            r.value() == buffer_pre_spec(self@, *a, oracle_price),
    {
        proof {
            assert(crate::wide_math::two_pow_128() == 0x1_0000_0000_0000_0000_0000_0000_0000_0000);
        }
        let req: u128 = if a.position_size == 0 {
            0
        } else {
            let not = crate::wide_math::mul_div_floor_u128(
                crate::num::abs_i128(a.position_size),
                oracle_price as u128,
                POS_SCALE,
            );
            crate::num::max_u128(
                crate::wide_math::mul_div_floor_u128(
                    not,
                    self.params.maintenance_margin_bps as u128,
                    10_000,
                ),
                self.params.min_nonzero_mm_req,
            )
        };
        let raw = self.account_equity_maint_raw_wide(a);
        match raw.checked_sub(I256::from_u128(req)) {
            Some(v) => v,
            None => {
                proof {
                    assert(false);
                }
                I256::zero()
            },
        }
    }

    fn trade_fee(&self, ex: TradeExecution) -> (r: u128)
        requires
            sat_abs(ex.size) <= MAX_POSITION_ABS_Q,
            ex.price <= MAX_ORACLE_PRICE,
        ensures
            r == trade_fee_spec(self@, ex),
            r <= 2_000_000_000_000_000_000_000_000_000_000_000,
    {
        let abs_size = crate::num::saturating_abs_i128(ex.size) as u128;
        proof {
            assert(abs_size * ex.price <= 100_000_000_000_000 * 1_000_000_000_000) by (nonlinear_arith)
                requires
                    abs_size <= 100_000_000_000_000,
                    ex.price <= 1_000_000_000_000,
            ;
        }
        let notional = abs_size * (ex.price as u128) / 1_000_000;
        let fee_bps = self.compute_dynamic_fee_bps(notional);
        if abs_size > 0 && fee_bps > 0 {
            proof {
                assert(abs_size * fee_bps <= 100_000_000_000_000 * u64::MAX) by (nonlinear_arith)
                    requires
                        abs_size <= 100_000_000_000_000,
                        fee_bps <= u64::MAX,
                ;
            }
            let p = abs_size * (fee_bps as u128);
            proof {
                vstd::arithmetic::div_mod::lemma_div_is_ordered((p + 9_999) as int, 20_000_000_000_000_000_000_000_000_000_000_000_000int, 10_000);
            }
            (p + 9_999) / 10_000
        } else {
            0
        }
    }

    fn party_margin(
        &self,
        h_num: u128,
        h_den: u128,
        old_pos: i128,
        new_pos: i128,
        capital: u128,
        new_pnl: i128,
        fee_credits: i128,
        oracle_price: u64,
        check_capital: bool,
    ) -> (r: bool)
        requires
            0 <= h_num <= h_den,
            h_den >= 1,
            sat_abs(new_pos) <= MAX_POSITION_ABS_Q,
            oracle_price <= MAX_ORACLE_PRICE,
        ensures
            r == party_margin_ok(
                self@,
                (h_num as int, h_den as int),
                old_pos,
                new_pos,
                capital as int,
                new_pnl,
                fee_credits,
                oracle_price,
                check_capital,
            ),
    {
        if new_pos == 0 {
            return true;
        }
        let eff_pos: u128 = if new_pnl <= 0 {
            0
        } else {
            proof {
                let x = new_pnl as int;
                assert(x * h_num <= x * h_den) by (nonlinear_arith)
                    requires
                        x >= 0,
                        h_num <= h_den,
                ;
                assert(x * h_den == h_den * x) by (nonlinear_arith);
                vstd::arithmetic::div_mod::lemma_div_is_ordered(x * h_num, x * h_den, h_den as int);
                vstd::arithmetic::div_mod::lemma_div_multiples_vanish(x, h_den as int);
            }
            crate::wide_math::mul_div_floor_u128(new_pnl as u128, h_num, h_den)
        };
        let cap_i = crate::num::u128_to_i128_clamped(capital);
        let e = crate::num::sat_add_i128(
            crate::num::sat_add_i128(cap_i, crate::num::min_i128(new_pnl, 0)),
            crate::num::u128_to_i128_clamped(eff_pos),
        );
        let eq0: u128 = if e > 0 {
            e as u128
        } else {
            0
        };
        let eq = crate::num::sat_sub_u128(eq0, crate::num::clamp_neg_i128(fee_credits));
        let abs_new = crate::num::saturating_abs_i128(new_pos) as u128;
        let abs_old = crate::num::saturating_abs_i128(old_pos) as u128;
        proof {
            assert(abs_new * oracle_price <= 100_000_000_000_000 * 1_000_000_000_000)
                by (nonlinear_arith)
                requires
                    abs_new <= 100_000_000_000_000,
                    oracle_price <= 1_000_000_000_000,
            ;
        }
        let value = abs_new * (oracle_price as u128) / 1_000_000;
        let inc = abs_new > abs_old || (old_pos > 0 && new_pos < 0) || (old_pos < 0 && new_pos > 0);
        let bps = if inc {
            self.params.initial_margin_bps
        } else {
            self.params.maintenance_margin_bps
        };
        let floor = if inc {
            self.params.min_nonzero_im_req
        } else {
            self.params.min_nonzero_mm_req
        };
        let req = crate::num::max_u128(
            crate::wide_math::mul_div_floor_u128(value, bps as u128, 10_000),
            floor,
        );
        if eq <= req {
            return false;
        }
        if check_capital {
            proof {
                assert(abs_new * bps <= 100_000_000_000_000 * u64::MAX) by (nonlinear_arith)
                    requires
                        abs_new <= 100_000_000_000_000,
                        bps <= u64::MAX,
                ;
            }
            let pos_margin = abs_new * (bps as u128) / 10_000;
            if capital < pos_margin {
                return false;
            }
        }
        true
    }

    fn compute_fill(
        &self,
        u: usize,
        l: usize,
        oracle_price: u64,
        ex: TradeExecution,
        fee: u128,
    ) -> (r: RiskResult<TradeFill>)
        requires
            self.wf(),
            u < MAX_ACCOUNTS,
            l < MAX_ACCOUNTS,
            0 < oracle_price <= MAX_ORACLE_PRICE,
            0 < ex.price <= MAX_ORACLE_PRICE,
            sat_abs(ex.size) <= MAX_POSITION_ABS_Q,
            ex.size != i128::MIN,
        ensures
            r == fill_spec(self@, u as int, l as int, oracle_price, ex, fee as int),
    {
        let ua = self.accounts[u];
        let la = self.accounts[l];
        let nup = match ua.position_size.checked_add(ex.size) {
            Some(v) => v,
            None => {
                return Err(RiskError::Overflow);
            },
        };
        let nlp = match la.position_size.checked_sub(ex.size) {
            Some(v) => v,
            None => {
                return Err(RiskError::Overflow);
            },
        };
        if crate::num::saturating_abs_i128(nup) as u128 > MAX_POSITION_ABS_Q
            || crate::num::saturating_abs_i128(nlp) as u128 > MAX_POSITION_ABS_Q {
            return Err(RiskError::Overflow);
        }
        let price_diff = (oracle_price as i128) - (ex.price as i128);
        proof {
            assert(-1_000_000_000_000 * 100_000_000_000_000 <= price_diff * ex.size
                <= 1_000_000_000_000 * 100_000_000_000_000) by (nonlinear_arith)
                requires
                    -1_000_000_000_000 <= price_diff <= 1_000_000_000_000,
                    -100_000_000_000_000 <= ex.size <= 100_000_000_000_000,
            ;
        }
        proof {
            assert(ex.size * price_diff == price_diff * ex.size) by (nonlinear_arith);
            assert(crate::engine::market::mul_fits((ex.size * price_diff) / (POS_SCALE as int)));
        }
        let trade_pnl = match crate::engine::market::compute_trade_pnl(ex.size, price_diff) {
            Ok(v) => v,
            Err(e) => {
                return Err(e);
            },
        };
        let nupnl = match ua.pnl.checked_add(trade_pnl) {
            Some(v) => v,
            None => {
                return Err(RiskError::Overflow);
            },
        };
        let nlpnl = match la.pnl.checked_sub(trade_pnl) {
            Some(v) => v,
            None => {
                return Err(RiskError::Overflow);
            },
        };
        if ua.capital.0 < fee {
            return Err(RiskError::InsufficientBalance);
        }
        let new_user_capital = ua.capital.0 - fee;
        let p1 = crate::num::sat_sub_u128(
            crate::num::sat_add_u128(self.pnl_pos_tot, crate::num::clamp_pos_i128(nupnl)),
            crate::num::clamp_pos_i128(ua.pnl),
        );
        let pos_tot = crate::num::sat_sub_u128(
            crate::num::sat_add_u128(p1, crate::num::clamp_pos_i128(nlpnl)),
            crate::num::clamp_pos_i128(la.pnl),
        );
        let (h_num, h_den): (u128, u128) = if pos_tot == 0 {
            (1, 1)
        } else {
            let total_insurance = crate::num::sat_add_u128(
                self.insurance_fund.balance.0,
                self.insurance_fund.isolated_balance.0,
            );
            let residual = crate::num::sat_sub_u128(
                crate::num::sat_sub_u128(self.vault.0, self.c_tot.0),
                total_insurance,
            );
            proof {
                if self.insurance_fund.balance.0 + self.insurance_fund.isolated_balance.0
                    > u128::MAX {
                    assert(max_int(self.vault.0 - self.c_tot.0, 0) <= u128::MAX);
                }
            }
            (crate::num::min_u128(residual, pos_tot), pos_tot)
        };
        if !self.party_margin(
            h_num,
            h_den,
            ua.position_size,
            nup,
            new_user_capital,
            nupnl,
            ua.fee_credits.0,
            oracle_price,
            true,
        ) || !self.party_margin(
            h_num,
            h_den,
            la.position_size,
            nlp,
            la.capital.0,
            nlpnl,
            la.fee_credits.0,
            oracle_price,
            false,
        ) {
            return Err(RiskError::Undercollateralized);
        }
        Ok(
            TradeFill {
                new_user_pos: nup,
                new_lp_pos: nlp,
                new_user_pnl: nupnl,
                new_lp_pnl: nlpnl,
                new_user_capital,
            },
        )
    }

    /// Runs the end-of-instruction lifecycle with a fresh context at the stored rate.
    pub(crate) fn end_of_instruction(&mut self) -> (r: RiskResult<()>)
        requires
            old(self)@.adl_epoch_long < u64::MAX,
            old(self)@.adl_epoch_short < u64::MAX,
        ensures
            final(self)@ == end_of_instruction_spec(old(self)@).0,
            r == end_of_instruction_spec(old(self)@).1,
    {
        let mut ctx = InstructionContext::new();
        let stored_rate = self.funding_rate_bps_per_slot_last;
        match self.run_end_of_instruction_lifecycle(&mut ctx, stored_rate) {
            Ok(()) => Ok(()),
            Err(e) => Err(e),
        }
    }

    fn commit_trade(&mut self, u: usize, l: usize, oracle_price: u64, f: TradeFill, fee: u128)
        requires
            old(self).wf(),
            u < MAX_ACCOUNTS,
            l < MAX_ACCOUNTS,
            u != l,
            fee <= i128::MAX,
        ensures
            final(self).wf(),
            final(self)@ == m_trade_commit(old(self)@, u as int, l as int, oracle_price, f, fee as int),
    {
        let ghost m = self@;
        let user0 = self.accounts[u];
        let lp0 = self.accounts[l];
        self.commit_trade_accounts(u, l, oracle_price, f, fee);
        self.commit_trade_aggregates(user0, lp0, f, fee);
        proof {
            assert(self@ == m_trade_commit(m, u as int, l as int, oracle_price, f, fee as int));
        }
    }

    fn commit_trade_accounts(&mut self, u: usize, l: usize, oracle_price: u64, f: TradeFill, fee: u128)
        requires
            old(self).wf(),
            u < MAX_ACCOUNTS,
            l < MAX_ACCOUNTS,
            u != l,
            fee <= i128::MAX,
        ensures
            final(self).wf(),
            final(self)@ == (EngineModel {
                accounts: final(self)@.accounts,
                insurance_fund: m_trade_commit(old(self)@, u as int, l as int, oracle_price, f, fee as int).insurance_fund,
                ..old(self)@
            }),
            final(self)@.accounts == m_trade_commit(old(self)@, u as int, l as int, oracle_price, f, fee as int).accounts,
    {
        let mut user = self.accounts[u];
        let mut lp = self.accounts[l];
        self.insurance_fund.fee_revenue = U128(
            crate::num::sat_add_u128(self.insurance_fund.fee_revenue.0, fee),
        );
        self.insurance_fund.balance = U128(crate::num::sat_add_u128(self.insurance_fund.balance.0, fee));
        user.fee_credits = I128(crate::num::sat_add_i128(user.fee_credits.0, fee as i128));
        user.pnl = f.new_user_pnl;
        user.reserved_pnl = Self::trade_reserve_of(&self.accounts[u], f.new_user_pos, f.new_user_pnl, oracle_price);
        user.position_size = f.new_user_pos;
        user.entry_price = oracle_price;
        user.capital = U128(f.new_user_capital);
        lp.pnl = f.new_lp_pnl;
        lp.reserved_pnl = Self::trade_reserve_of(&self.accounts[l], f.new_lp_pos, f.new_lp_pnl, oracle_price);
        lp.position_size = f.new_lp_pos;
        lp.entry_price = oracle_price;
        self.accounts.set(u, user);
        self.accounts.set(l, lp);
    }

    #[verifier::rlimit(80)]
    #[verifier::spinoff_prover]
    fn commit_trade_aggregates(&mut self, user0: Account, lp0: Account, f: TradeFill, fee: u128)
        ensures
            final(self)@ == (EngineModel {
                c_tot: U128(u128_sat(old(self)@.c_tot.0 - fee)),
                pnl_pos_tot: u128_sat(
                    u128_sat(
                        u128_sat(u128_sat(old(self)@.pnl_pos_tot + pos_part(f.new_user_pnl)) - pos_part(user0.pnl))
                            + pos_part(f.new_lp_pnl),
                    ) - pos_part(lp0.pnl),
                ),
                total_open_interest: U128(
                    sat_shift(
                        old(self)@.total_open_interest.0,
                        sat_abs(user0.position_size) + sat_abs(lp0.position_size),
                        sat_abs(f.new_user_pos) + sat_abs(f.new_lp_pos),
                    ),
                ),
                long_oi: U128(
                    sat_shift(
                        old(self)@.long_oi.0,
                        long_part(user0.position_size) + long_part(lp0.position_size),
                        long_part(f.new_user_pos) + long_part(f.new_lp_pos),
                    ),
                ),
                short_oi: U128(
                    sat_shift(
                        old(self)@.short_oi.0,
                        short_part(user0.position_size) + short_part(lp0.position_size),
                        short_part(f.new_user_pos) + short_part(f.new_lp_pos),
                    ),
                ),
                net_lp_pos: I128(i128_sat(i128_sat(old(self)@.net_lp_pos.0 - lp0.position_size) + f.new_lp_pos)),
                lp_sum_abs: U128(sat_shift(old(self)@.lp_sum_abs.0, sat_abs(lp0.position_size), sat_abs(f.new_lp_pos))),
                lp_max_abs: U128(max_int(old(self)@.lp_max_abs.0 as int, sat_abs(f.new_lp_pos)) as u128),
                ..old(self)@
            }),
    {
        let old_user_pos = user0.position_size;
        let old_lp_pos = lp0.position_size;
        self.c_tot = U128(crate::num::sat_sub_u128(self.c_tot.0, fee));
        self.pnl_pos_tot = crate::num::sat_sub_u128(
            crate::num::sat_add_u128(
                crate::num::sat_sub_u128(
                    crate::num::sat_add_u128(self.pnl_pos_tot, crate::num::clamp_pos_i128(f.new_user_pnl)),
                    crate::num::clamp_pos_i128(user0.pnl),
                ),
                crate::num::clamp_pos_i128(f.new_lp_pnl),
            ),
            crate::num::clamp_pos_i128(lp0.pnl),
        );
        let old_oi = (crate::num::saturating_abs_i128(old_user_pos) as u128) + (
        crate::num::saturating_abs_i128(old_lp_pos) as u128);
        let new_oi = (crate::num::saturating_abs_i128(f.new_user_pos) as u128) + (
        crate::num::saturating_abs_i128(f.new_lp_pos) as u128);
        self.total_open_interest = U128(Self::shift_u128(self.total_open_interest.0, old_oi, new_oi));
        let old_long = Self::long_of(old_user_pos) + Self::long_of(old_lp_pos);
        let new_long = Self::long_of(f.new_user_pos) + Self::long_of(f.new_lp_pos);
        self.long_oi = U128(Self::shift_u128(self.long_oi.0, old_long, new_long));
        let old_short = Self::short_of(old_user_pos) + Self::short_of(old_lp_pos);
        let new_short = Self::short_of(f.new_user_pos) + Self::short_of(f.new_lp_pos);
        self.short_oi = U128(Self::shift_u128(self.short_oi.0, old_short, new_short));
        let old_lp_abs = crate::num::saturating_abs_i128(old_lp_pos) as u128;
        let new_lp_abs = crate::num::saturating_abs_i128(f.new_lp_pos) as u128;
        self.net_lp_pos = I128(
            crate::num::sat_add_i128(crate::num::sat_sub_i128(self.net_lp_pos.0, old_lp_pos), f.new_lp_pos),
        );
        self.lp_sum_abs = U128(Self::shift_u128(self.lp_sum_abs.0, old_lp_abs, new_lp_abs));
        self.lp_max_abs = U128(crate::num::max_u128(self.lp_max_abs.0, new_lp_abs));
    }

    fn trade_reserve_of(a: &Account, new_pos: i128, new_pnl: i128, oracle_price: u64) -> (r: u128)
        ensures
            r == trade_reserve(*a, new_pos, new_pnl, oracle_price),
    {
        let r: u128 = if a.position_size == 0 && new_pos != 0 {
            oracle_price as u128
        } else if new_pos == 0 {
            0
        } else {
            a.reserved_pnl
        };
        crate::num::min_u128(r, crate::num::clamp_pos_i128(new_pnl))
    }

    fn shift_u128(v: u128, old: u128, new: u128) -> (r: u128)
        ensures
            r == sat_shift(v, old as int, new as int),
    {
        if new > old {
            crate::num::sat_add_u128(v, new - old)
        } else {
            crate::num::sat_sub_u128(v, old - new)
        }
    }

    fn long_of(p: i128) -> (r: u128)
        ensures
            r == long_part(p),
            r <= i128::MAX,
    {
        if p > 0 {
            p as u128
        } else {
            0
        }
    }

    fn short_of(p: i128) -> (r: u128)
        ensures
            r == short_part(p),
            r <= i128::MAX,
    {
        if p > 0 {
            0
        } else {
            crate::num::saturating_abs_i128(p) as u128
        }
    }

    #[verifier::rlimit(80)]
    #[verifier::spinoff_prover]
    fn post_trade_losses(&mut self, user_idx: u16, lp_idx: u16)
        requires
            old(self).wf(),
            user_idx < MAX_ACCOUNTS,
            lp_idx < MAX_ACCOUNTS,
            old(self)@.is_used(user_idx as int),
            old(self)@.is_used(lp_idx as int),
        ensures
            final(self).wf(),
            final(self)@ == m_settle_warmup(
                m_settle_warmup(
                    m_loss_writeoff(m_loss_writeoff(old(self)@, user_idx as int), lp_idx as int),
                    user_idx as int,
                ),
                lp_idx as int,
            ),
            final(self)@.is_used(user_idx as int) && final(self)@.is_used(lp_idx as int),
    {
        let _ = self.settle_loss_only(user_idx);
        let _ = self.settle_loss_only(lp_idx);
        let _ = self.settle_warmup_to_capital(user_idx);
        let _ = self.settle_warmup_to_capital(lp_idx);
    }

    fn post_trade_settle(&mut self, user_idx: u16, lp_idx: u16)
        requires
            old(self).wf(),
            user_idx < MAX_ACCOUNTS,
            lp_idx < MAX_ACCOUNTS,
            old(self)@.is_used(user_idx as int),
            old(self)@.is_used(lp_idx as int),
        ensures
            final(self).wf(),
            final(self)@ == m_post_trade_settle(old(self)@, user_idx as int, lp_idx as int),
    {
        self.post_trade_losses(user_idx, lp_idx);
        let _ = self.update_warmup_slope(user_idx);
        let _ = self.update_warmup_slope(lp_idx);
    }

    /// Settles both parties and applies the matcher's execution `execution`
    /// of the requested `size`, with the margin checks and the
    /// end-of-instruction lifecycle.
    #[verifier::rlimit(100)]
    #[verifier::spinoff_prover]
    pub fn apply_trade_execution(
        &mut self,
        lp_idx: u16,
        user_idx: u16,
        now_slot: u64,
        oracle_price: u64,
        size: i128,
        execution: TradeExecution,
    ) -> (r: RiskResult<()>)
        requires
            old(self).wf(),
            old(self)@.adl_epoch_long < u64::MAX,
            old(self)@.adl_epoch_short < u64::MAX,
            trade_precheck(old(self)@, lp_idx, user_idx, now_slot, oracle_price, size) is None,
        ensures
            final(self).wf(),
            final(self)@ == trade_with_execution_spec(
                old(self)@,
                user_idx as int,
                lp_idx as int,
                now_slot,
                oracle_price,
                size,
                execution,
            ).0,
            r == trade_with_execution_spec(
                old(self)@,
                user_idx as int,
                lp_idx as int,
                now_slot,
                oracle_price,
                size,
                execution,
            ).1,
    {
        let ex_price = execution.price;
        let ex_size = execution.size;
        if ex_price == 0 || ex_price > MAX_ORACLE_PRICE {
            return Err(RiskError::InvalidMatchingEngine);
        }
        if ex_size == 0 {
            return Ok(());
        }
        if ex_size == i128::MIN {
            return Err(RiskError::InvalidMatchingEngine);
        }
        if crate::num::saturating_abs_i128(ex_size) as u128 > MAX_POSITION_ABS_Q {
            return Err(RiskError::InvalidMatchingEngine);
        }
        if (ex_size > 0) != (size > 0) {
            return Err(RiskError::InvalidMatchingEngine);
        }
        if crate::num::saturating_abs_i128(ex_size) > crate::num::saturating_abs_i128(size) {
            return Err(RiskError::InvalidMatchingEngine);
        }
        let abs_ex = crate::num::saturating_abs_i128(ex_size) as u128;
        proof {
            assert(abs_ex * ex_price <= 100_000_000_000_000 * 1_000_000_000_000) by (nonlinear_arith)
                requires
                    abs_ex <= 100_000_000_000_000,
                    ex_price <= 1_000_000_000_000,
            ;
        }
        let twap_notional = abs_ex * (ex_price as u128) / 1_000_000;
        self.update_trade_twap(ex_price, twap_notional, now_slot);
        match self.pre_settle_parties(user_idx, lp_idx, now_slot, oracle_price) {
            Ok(()) => {},
            Err(e) => {
                return Err(e);
            },
        }
        self.apply_fill_phase(user_idx, lp_idx, oracle_price, execution)
    }

    #[verifier::rlimit(50)]
    fn apply_fill_phase(&mut self, user_idx: u16, lp_idx: u16, oracle_price: u64, execution: TradeExecution) -> (r:
        RiskResult<()>)
        requires
            old(self).wf(),
            old(self)@.adl_epoch_long < u64::MAX,
            old(self)@.adl_epoch_short < u64::MAX,
            user_idx < MAX_ACCOUNTS,
            lp_idx < MAX_ACCOUNTS,
            user_idx != lp_idx,
            old(self)@.is_used(user_idx as int),
            old(self)@.is_used(lp_idx as int),
            0 < oracle_price <= MAX_ORACLE_PRICE,
            0 < execution.price <= MAX_ORACLE_PRICE,
            sat_abs(execution.size) <= MAX_POSITION_ABS_Q,
            execution.size != i128::MIN,
        ensures
            final(self).wf(),
            final(self)@ == fill_phase_spec(old(self)@, user_idx as int, lp_idx as int, oracle_price, execution).0,
            r == fill_phase_spec(old(self)@, user_idx as int, lp_idx as int, oracle_price, execution).1,
    {
        let fee = self.trade_fee(execution);
        let u = user_idx as usize;
        let l = lp_idx as usize;
        let ua = self.accounts[u];
        let la = self.accounts[l];
        let pre_eff_user = ua.position_size;
        let pre_eff_lp = la.position_size;
        let buffer_pre_user = self.buffer_pre(&ua, oracle_price);
        let buffer_pre_lp = self.buffer_pre(&la, oracle_price);
        let f = match self.compute_fill(u, l, oracle_price, execution, fee) {
            Ok(f) => f,
            Err(e) => {
                return Err(e);
            },
        };
        let new_eff_user = f.new_user_pos;
        let new_eff_lp = f.new_lp_pos;
        self.commit_trade(u, l, oracle_price, f, fee);
        self.finish_trade(
            user_idx,
            lp_idx,
            oracle_price,
            pre_eff_user,
            new_eff_user,
            pre_eff_lp,
            new_eff_lp,
            buffer_pre_user,
            buffer_pre_lp,
            fee,
        )
    }

    #[verifier::rlimit(100)]
    #[verifier::spinoff_prover]
    fn finish_trade(
        &mut self,
        user_idx: u16,
        lp_idx: u16,
        oracle_price: u64,
        pre_eff_user: i128,
        new_eff_user: i128,
        pre_eff_lp: i128,
        new_eff_lp: i128,
        buffer_pre_user: I256,
        buffer_pre_lp: I256,
        fee: u128,
    ) -> (r: RiskResult<()>)
        requires
            old(self).wf(),
            old(self)@.adl_epoch_long < u64::MAX,
            old(self)@.adl_epoch_short < u64::MAX,
            user_idx < MAX_ACCOUNTS,
            lp_idx < MAX_ACCOUNTS,
            old(self)@.is_used(user_idx as int),
            old(self)@.is_used(lp_idx as int),
            -0x1_0000_0000_0000_0000_0000_0000_0000_0000_0000 <= buffer_pre_user.value()
                <= 0x1_0000_0000_0000_0000_0000_0000_0000_0000_0000,
            -0x1_0000_0000_0000_0000_0000_0000_0000_0000_0000 <= buffer_pre_lp.value()
                <= 0x1_0000_0000_0000_0000_0000_0000_0000_0000_0000,
        ensures
            final(self).wf(),
            final(self)@ == finish_trade_spec(
                old(self)@,
                user_idx as int,
                lp_idx as int,
                oracle_price,
                pre_eff_user,
                new_eff_user,
                pre_eff_lp,
                new_eff_lp,
                buffer_pre_user.value(),
                buffer_pre_lp.value(),
                fee,
            ).0,
            r == finish_trade_spec(
                old(self)@,
                user_idx as int,
                lp_idx as int,
                oracle_price,
                pre_eff_user,
                new_eff_user,
                pre_eff_lp,
                new_eff_lp,
                buffer_pre_user.value(),
                buffer_pre_lp.value(),
                fee,
            ).1,
    {
        self.post_trade_settle(user_idx, lp_idx);
        self.gate_and_finish(
            user_idx,
            lp_idx,
            oracle_price,
            pre_eff_user,
            new_eff_user,
            pre_eff_lp,
            new_eff_lp,
            buffer_pre_user,
            buffer_pre_lp,
            fee,
        )
    }

    fn gate_and_finish(
        &mut self,
        user_idx: u16,
        lp_idx: u16,
        oracle_price: u64,
        pre_eff_user: i128,
        new_eff_user: i128,
        pre_eff_lp: i128,
        new_eff_lp: i128,
        buffer_pre_user: I256,
        buffer_pre_lp: I256,
        fee: u128,
    ) -> (r: RiskResult<()>)
        requires
            old(self).wf(),
            old(self)@.adl_epoch_long < u64::MAX,
            old(self)@.adl_epoch_short < u64::MAX,
            user_idx < MAX_ACCOUNTS,
            lp_idx < MAX_ACCOUNTS,
            -0x1_0000_0000_0000_0000_0000_0000_0000_0000_0000 <= buffer_pre_user.value()
                <= 0x1_0000_0000_0000_0000_0000_0000_0000_0000_0000,
            -0x1_0000_0000_0000_0000_0000_0000_0000_0000_0000 <= buffer_pre_lp.value()
                <= 0x1_0000_0000_0000_0000_0000_0000_0000_0000_0000,
        ensures
            final(self).wf(),
            final(self)@ == gate_spec(
                old(self)@,
                user_idx as int,
                lp_idx as int,
                oracle_price,
                pre_eff_user,
                new_eff_user,
                pre_eff_lp,
                new_eff_lp,
                buffer_pre_user.value(),
                buffer_pre_lp.value(),
                fee,
            ).0,
            r == gate_spec(
                old(self)@,
                user_idx as int,
                lp_idx as int,
                oracle_price,
                pre_eff_user,
                new_eff_user,
                pre_eff_lp,
                new_eff_lp,
                buffer_pre_user.value(),
                buffer_pre_lp.value(),
                fee,
            ).1,
    {
        proof {
            assert(crate::wide_math::two_pow_128() == 0x1_0000_0000_0000_0000_0000_0000_0000_0000);
        }
        match self.enforce_post_trade_margin(
            user_idx as usize,
            lp_idx as usize,
            oracle_price,
            &pre_eff_user,
            &new_eff_user,
            &pre_eff_lp,
            &new_eff_lp,
            buffer_pre_user,
            buffer_pre_lp,
            fee,
        ) {
            Ok(()) => {},
            Err(e) => {
                return Err(e);
            },
        }
        self.end_of_instruction()
    }

    /// Trade between a user and an LP: validates the request, asks the
    /// matcher for an execution, then applies it (see `apply_trade_execution`).
    pub fn execute_trade<M: MatchingEngine>(
        &mut self,
        matcher: &M,
        lp_idx: u16,
        user_idx: u16,
        now_slot: u64,
        oracle_price: u64,
        size: i128,
    ) -> (r: RiskResult<()>)
        requires
            old(self).wf(),
            old(self)@.adl_epoch_long < u64::MAX,
            old(self)@.adl_epoch_short < u64::MAX,
        ensures
            final(self).wf(),
            ({
                let m0 = EngineModel { current_slot: now_slot, ..old(self)@ };
                match trade_precheck(m0, lp_idx, user_idx, now_slot, oracle_price, size) {
                    Some(e) => r == Err::<(), RiskError>(e) && final(self)@ == m0,
                    None => {
                        let lp = m0.accounts[lp_idx as int];
                        exists|res: RiskResult<TradeExecution>|
                            #[trigger] matcher.match_ok(
                                lp.matcher_program,
                                lp.matcher_context,
                                lp.account_id,
                                oracle_price,
                                size,
                                res,
                            ) && match res {
                                Err(e) => r == Err::<(), RiskError>(e) && final(self)@ == m0,
                                Ok(ex) => (final(self)@, r) == trade_with_execution_spec(
                                    m0,
                                    user_idx as int,
                                    lp_idx as int,
                                    now_slot,
                                    oracle_price,
                                    size,
                                    ex,
                                ),
                            }
                    },
                }
            }),
    {
        self.current_slot = now_slot;
        if !self.is_used(lp_idx as usize) || !self.is_used(user_idx as usize) {
            return Err(RiskError::AccountNotFound);
        }
        if oracle_price == 0 || oracle_price > MAX_ORACLE_PRICE {
            return Err(RiskError::Overflow);
        }
        if size == 0 || size == i128::MIN {
            return Err(RiskError::Overflow);
        }
        if crate::num::saturating_abs_i128(size) as u128 > MAX_POSITION_ABS_Q {
            return Err(RiskError::Overflow);
        }
        let lp = self.accounts[lp_idx as usize];
        if !lp.is_lp() {
            return Err(RiskError::AccountKindMismatch);
        }
        if !self.accounts[user_idx as usize].is_user() {
            return Err(RiskError::AccountKindMismatch);
        }
        let old_user_pos = self.accounts[user_idx as usize].position_size;
        let old_lp_pos = lp.position_size;
        let new_user_pos = crate::num::sat_add_i128(old_user_pos, size);
        let new_lp_pos = crate::num::sat_sub_i128(old_lp_pos, size);
        let user_inc = crate::num::saturating_abs_i128(new_user_pos) > crate::num::saturating_abs_i128(
            old_user_pos,
        );
        let lp_inc = crate::num::saturating_abs_i128(new_lp_pos) > crate::num::saturating_abs_i128(
            old_lp_pos,
        );
        if user_inc || lp_inc {
            match self.require_recent_full_sweep(now_slot) {
                Ok(()) => {},
                Err(e) => {
                    return Err(e);
                },
            }
        }
        let res = matcher.execute_match(
            &lp.matcher_program,
            &lp.matcher_context,
            lp.account_id,
            oracle_price,
            size,
        );
        proof {
            assert(matcher.match_ok(
                lp.matcher_program,
                lp.matcher_context,
                lp.account_id,
                oracle_price,
                size,
                res,
            ));
        }
        let execution = match res {
            Ok(x) => x,
            Err(e) => {
                return Err(e);
            },
        };
        let r = self.apply_trade_execution(lp_idx, user_idx, now_slot, oracle_price, size, execution);
        r
    }
}

} // verus!
