//! The bilateral trade entry point at a given execution price: both parties
//! are fully refreshed, their effective positions move by the traded size
//! through the A/K side indices, the trade PnL and fees are booked, and the
//! post-trade margin rule and the end-of-instruction lifecycle run.
use vstd::prelude::*;
use crate::num::{u128_sat, I128, U128};
use crate::wide_math::{ceil_div, I256};
use crate::engine::types::{
    Account, RiskError, RiskResult, SideMode, KIND_LP, MAX_ABS_FUNDING_BPS_PER_SLOT,
    MAX_ACCOUNTS, MAX_ACCOUNT_NOTIONAL, MAX_OI_SIDE_Q, MAX_ORACLE_PRICE, MAX_POSITION_ABS_Q,
    MAX_PROTOCOL_FEE_ABS, MAX_TRADE_SIZE_Q, POS_SCALE,
};
use crate::engine::state::{EngineModel, RiskEngine};
use crate::engine::ledger::{m_put, m_set_capital, m_set_pnl, min_int};
use crate::engine::positions::{abs_int, eff_pos_spec, m_attach};
use crate::engine::settle::{m_restart_warmup, m_settle_losses};
use crate::engine::sides::m_maybe_finalize;
use crate::engine::margin::{maint_raw, mm_req, one_side_ok, sat_fd};
use crate::engine::crank::lifecycle_spec;
use crate::engine::refresh::{refresh_steps, touch_full_spec};
use crate::engine::settle::m_advance_warmup;
use crate::engine::sides::settle_side_spec;
use crate::engine::market::accrue_spec;
use crate::engine::conservation::conserves;

verus! {

/// ceil(a * b / d), saturating at `u128::MAX`.
pub open spec fn sat_cd(a: int, b: int, d: int) -> int {
    if ceil_div(a, b, d) > u128::MAX {
        u128::MAX as int
    } else {
        ceil_div(a, b, d)
    }
}

/// Long and short open-interest components of a signed position.
pub open spec fn long_part(p: int) -> int {
    if p > 0 {
        p
    } else {
        0
    }
}

pub open spec fn short_part(p: int) -> int {
    if p < 0 {
        -p
    } else {
        0
    }
}

/// One side's open interest after a bilateral change, computed in order:
/// both old components removed (`CorruptState` if that goes below zero),
/// then both new components added (`Overflow` past `u128::MAX`).
pub open spec fn oi_after(base: int, old1: int, old2: int, new1: int, new2: int) -> Result<
    int,
    RiskError,
> {
    if base - old1 < 0 || base - old1 - old2 < 0 {
        Err(RiskError::CorruptState)
    } else if base - old1 - old2 + new1 > u128::MAX || base - old1 - old2 + new1 + new2
        > u128::MAX {
        Err(RiskError::Overflow)
    } else {
        Ok(base - old1 - old2 + new1 + new2)
    }
}

/// Checks on the request alone: the funding rate, both prices, the size
/// (positive, bounded, bounded notional at the execution price), both
/// accounts used and distinct.
pub open spec fn na_precheck(
    m: EngineModel,
    a: u16,
    b: u16,
    oracle: u64,
    size: i128,
    exec: u64,
    rate: i64,
) -> Option<RiskError> {
    if !(-MAX_ABS_FUNDING_BPS_PER_SLOT <= rate <= MAX_ABS_FUNDING_BPS_PER_SLOT) {
        Some(RiskError::Overflow)
    } else if oracle == 0 || oracle > MAX_ORACLE_PRICE || exec == 0 || exec > MAX_ORACLE_PRICE {
        Some(RiskError::Overflow)
    } else if size <= 0 || size > MAX_TRADE_SIZE_Q {
        Some(RiskError::Overflow)
    } else if sat_fd(size as int, exec as int, POS_SCALE as int) > MAX_ACCOUNT_NOTIONAL {
        Some(RiskError::Overflow)
    } else if a >= MAX_ACCOUNTS || b >= MAX_ACCOUNTS || !m.is_used(a as int) || !m.is_used(
        b as int,
    ) {
        Some(RiskError::AccountNotFound)
    } else if a == b {
        Some(RiskError::Overflow)
    } else {
        None
    }
}

/// Maintenance buffer of account `i` before the trade: Eq_maint_raw minus
/// the maintenance requirement of its effective position.
pub open spec fn pos_buffer(m: EngineModel, i: int, oracle: u64) -> int {
    let e = eff_pos_spec(m, i);
    maint_raw(m.accounts[i]) - (if e == 0 {
        0
    } else {
        mm_req(m, sat_fd(abs_int(e), oracle as int, POS_SCALE as int))
    })
}

/// The plan of a trade: old and new effective positions, pre-trade buffers
/// and both sides' open interest after it.
pub struct TradePlan {
    pub old_a: i128,
    pub new_a: i128,
    pub old_b: i128,
    pub new_b: i128,
    pub buf_a: I256,
    pub buf_b: I256,
    pub oi_long: u128,
    pub oi_short: u128,
}

pub open spec fn plan_view(p: TradePlan) -> (i128, i128, i128, i128, int, int, u128, u128) {
    (p.old_a, p.new_a, p.old_b, p.new_b, p.buf_a.value(), p.buf_b.value(), p.oi_long, p.oi_short)
}

/// Planning after both refreshes: new positions within the position and
/// notional caps, ready resets finalized, bilateral open interest within
/// its cap and not growing a side in drain-only or reset-pending mode.
#[verifier::opaque]
pub open spec fn na_plan(m2: EngineModel, a: int, b: int, oracle: u64, size: i128) -> (
    EngineModel,
    Result<(i128, i128, i128, i128, int, int, u128, u128), RiskError>,
) {
    let oa = eff_pos_spec(m2, a);
    let ob = eff_pos_spec(m2, b);
    let na = oa + size;
    let nb = ob - size;
    if !(i128::MIN <= na <= i128::MAX) || !(i128::MIN <= nb <= i128::MAX) {
        (m2, Err(RiskError::Overflow))
    } else if (na != 0 && abs_int(na) > MAX_POSITION_ABS_Q) || (nb != 0 && abs_int(nb)
        > MAX_POSITION_ABS_Q) {
        (m2, Err(RiskError::Overflow))
    } else if sat_fd(abs_int(na), oracle as int, POS_SCALE as int) > MAX_ACCOUNT_NOTIONAL || sat_fd(
        abs_int(nb),
        oracle as int,
        POS_SCALE as int,
    ) > MAX_ACCOUNT_NOTIONAL {
        (m2, Err(RiskError::Overflow))
    } else {
        let m3 = m_maybe_finalize(m2);
        match oi_after(m3.oi_eff_long_q as int, long_part(oa), long_part(ob), long_part(na), long_part(nb)) {
            Err(e) => (m3, Err(e)),
            Ok(l) => match oi_after(
                m3.oi_eff_short_q as int,
                short_part(oa),
                short_part(ob),
                short_part(na),
                short_part(nb),
            ) {
                Err(e) => (m3, Err(e)),
                Ok(s) => if l > MAX_OI_SIDE_Q || s > MAX_OI_SIDE_Q {
                    (m3, Err(RiskError::Overflow))
                } else if (m3.side_mode_long == SideMode::DrainOnly || m3.side_mode_long
                    == SideMode::ResetPending) && l > m3.oi_eff_long_q {
                    (m3, Err(RiskError::SideBlocked))
                } else if (m3.side_mode_short == SideMode::DrainOnly || m3.side_mode_short
                    == SideMode::ResetPending) && s > m3.oi_eff_short_q {
                    (m3, Err(RiskError::SideBlocked))
                } else {
                    (
                        m3,
                        Ok(
                            (
                                oa as i128,
                                na as i128,
                                ob as i128,
                                nb as i128,
                                pos_buffer(m2, a, oracle),
                                pos_buffer(m2, b, oracle),
                                l as u128,
                                s as u128,
                            ),
                        ),
                    )
                },
            },
        }
    }
}

/// The trade PnL `tp` to `a` and its negation to `b` (`Overflow` outside
/// i128 or at i128::MIN), then warmup restarts where a reserve grew.
#[verifier::opaque]
pub open spec fn na_pnl(m3: EngineModel, a: int, b: int, tp: int) -> (EngineModel, RiskResult<()>) {
    let ra = m3.accounts[a].reserved_pnl;
    let rb = m3.accounts[b].reserved_pnl;
    let pa = m3.accounts[a].pnl + tp;
    if !(i128::MIN < pa <= i128::MAX) {
        (m3, Err(RiskError::Overflow))
    } else {
        let m4 = m_set_pnl(m3, a, pa as i128);
        let pb = m4.accounts[b].pnl - tp;
        if !(i128::MIN < pb <= i128::MAX) {
            (m4, Err(RiskError::Overflow))
        } else {
            let m5 = m_set_pnl(m4, b, pb as i128);
            let m6 = if m5.accounts[a].reserved_pnl > ra {
                m_restart_warmup(m5, a)
            } else {
                m5
            };
            let m7 = if m6.accounts[b].reserved_pnl > rb {
                m_restart_warmup(m6, b)
            } else {
                m6
            };
            (m7, Ok(()))
        }
    }
}

/// New positions attached, open interest set, losses settled from principal.
#[verifier::opaque]
pub open spec fn na_positions(m: EngineModel, a: int, b: int, na: i128, nb: i128, l: u128, s: u128) -> EngineModel {
    let m1 = m_attach(m_attach(m, a, na), b, nb);
    let m2 = EngineModel { oi_eff_long_q: l, oi_eff_short_q: s, ..m1 };
    let m3 = if m2.accounts[a].pnl != i128::MIN {
        m_settle_losses(m2, a)
    } else {
        m2
    };
    if m3.accounts[b].pnl != i128::MIN {
        m_settle_losses(m3, b)
    } else {
        m3
    }
}

/// A fee charged to account `i`: capital pays what it can into insurance,
/// the rest becomes fee debt up to the fee-credit floor; the engine and the
/// fee's impact (capital paid plus debt booked).
pub open spec fn charge_spec(m: EngineModel, i: int, fee: u128) -> (EngineModel, int) {
    let cap = m.accounts[i].capital.0;
    let paid = min_int(fee as int, cap as int);
    let m1 = if paid > 0 {
        let t = m_set_capital(m, i, (cap - paid) as u128);
        EngineModel {
            insurance_fund: crate::engine::types::InsuranceFund {
                balance: U128(u128_sat(t.insurance_fund.balance.0 + paid)),
                ..t.insurance_fund
            },
            ..t
        }
    } else {
        m
    };
    let short = fee - paid;
    if short > 0 {
        let fc = m1.accounts[i].fee_credits.0;
        let head = if fc + i128::MAX > 0 {
            fc + i128::MAX
        } else {
            0
        };
        let coll = min_int(short, head);
        let m2 = if coll > 0 {
            m_put(m1, i, Account { fee_credits: I128((fc - coll) as i128), ..m1.accounts[i] })
        } else {
            m1
        };
        (m2, paid + coll)
    } else {
        (m1, paid)
    }
}

/// The trading fee on the executed notional charged to both parties, and
/// each LP credited with the other party's fee impact; the result is `a`'s
/// fee impact.
#[verifier::opaque]
pub open spec fn na_fees(m: EngineModel, a: int, b: int, size: i128, exec: u64) -> (
    EngineModel,
    RiskResult<u128>,
) {
    let notional = sat_fd(size as int, exec as int, POS_SCALE as int);
    let fee = if notional > 0 && m.params.trading_fee_bps > 0 {
        sat_cd(notional, m.params.trading_fee_bps as int, 10_000)
    } else {
        0
    };
    if fee > MAX_PROTOCOL_FEE_ABS {
        (m, Err(RiskError::Overflow))
    } else {
        let (m1, ia) = if fee > 0 {
            charge_spec(m, a, fee as u128)
        } else {
            (m, 0)
        };
        let (m2, ib) = if fee > 0 {
            charge_spec(m1, b, fee as u128)
        } else {
            (m1, 0)
        };
        let m3 = if m2.accounts[a].kind == KIND_LP {
            m_put(
                m2,
                a,
                Account {
                    fees_earned_total: U128(u128_sat(m2.accounts[a].fees_earned_total.0 + ib)),
                    ..m2.accounts[a]
                },
            )
        } else {
            m2
        };
        let m4 = if m3.accounts[b].kind == KIND_LP {
            m_put(
                m3,
                b,
                Account {
                    fees_earned_total: U128(u128_sat(m3.accounts[b].fees_earned_total.0 + ia)),
                    ..m3.accounts[b]
                },
            )
        } else {
            m3
        };
        (m4, Ok(ia as u128))
    }
}

/// After planning: PnL, positions, fees, the flat-loss rule, the post-trade
/// margin rule for both parties and the end-of-instruction lifecycle.
#[verifier::opaque]
pub open spec fn na_rest(
    m3: EngineModel,
    a: int,
    b: int,
    oracle: u64,
    size: i128,
    exec: u64,
    rate: i64,
    p: (i128, i128, i128, i128, int, int, u128, u128),
) -> (EngineModel, RiskResult<()>) {
    let tp = (size * (oracle - exec)) / (POS_SCALE as int);
    match na_pnl(m3, a, b, tp) {
        (m4, Err(e)) => (m4, Err(e)),
        (m4, Ok(_)) => {
            let m5 = na_positions(m4, a, b, p.1, p.3, p.6, p.7);
            match na_fees(m5, a, b, size, exec) {
                (m6, Err(e)) => (m6, Err(e)),
                (m6, Ok(ia)) => if (p.1 == 0 && m6.accounts[a].pnl < 0) || (p.3 == 0
                    && m6.accounts[b].pnl < 0) {
                    (m6, Err(RiskError::Undercollateralized))
                } else if !(one_side_ok(m6, a, oracle, p.0, p.1, p.4, ia) && one_side_ok(
                    m6,
                    b,
                    oracle,
                    p.2,
                    p.3,
                    p.5,
                    0,
                )) {
                    (m6, Err(RiskError::Undercollateralized))
                } else {
                    match lifecycle_spec(m6, rate) {
                        None => (m6, Err(RiskError::CorruptState)),
                        Some(m7) => (m7, Ok(())),
                    }
                },
            }
        },
    }
}

/// The whole trade: the engine after it and the result. Steps already taken
/// stay when a later one fails.
pub open spec fn trade_na_spec(
    m: EngineModel,
    a: u16,
    b: u16,
    oracle: u64,
    now: u64,
    size: i128,
    exec: u64,
    rate: i64,
) -> (EngineModel, RiskResult<()>) {
    match na_precheck(m, a, b, oracle, size, exec, rate) {
        Some(e) => (m, Err(e)),
        None => match touch_full_spec(m, a as int, oracle, now) {
            (m1, Err(e)) => (m1, Err(e)),
            (m1, Ok(_)) => match touch_full_spec(m1, b as int, oracle, now) {
                (m2, Err(e)) => (m2, Err(e)),
                (m2, Ok(_)) => match na_plan(m2, a as int, b as int, oracle, size) {
                    (m3, Err(e)) => (m3, Err(e)),
                    (m3, Ok(p)) => na_rest(m3, a as int, b as int, oracle, size, exec, rate, p),
                },
            },
        },
    }
}

proof fn lemma_refresh_keeps_vault(m1: EngineModel, i: int, now: u64)
    ensures
        refresh_steps(m1, i, now).0.vault == m1.vault,
{
    reveal(refresh_steps);
    reveal(m_advance_warmup);
    reveal(settle_side_spec);
}

proof fn lemma_touch_keeps_vault(m: EngineModel, i: int, price: u64, now: u64)
    ensures
        touch_full_spec(m, i, price, now).0.vault == m.vault,
{
    let m0 = EngineModel { current_slot: now, ..m };
    if let Some(m1) = accrue_spec(m0, now, price) {
        lemma_refresh_keeps_vault(m1, i, now);
    }
}

proof fn lemma_rest_keeps_vault(
    m3: EngineModel,
    a: int,
    b: int,
    oracle: u64,
    size: i128,
    exec: u64,
    rate: i64,
    p: (i128, i128, i128, i128, int, int, u128, u128),
)
    ensures
        na_rest(m3, a, b, oracle, size, exec, rate, p).0.vault == m3.vault,
{
    reveal(na_rest);
    let tp = (size * (oracle - exec)) / (POS_SCALE as int);
    lemma_pnl_keeps_vault(m3, a, b, tp);
    let m4 = na_pnl(m3, a, b, tp).0;
    lemma_positions_keeps_vault(m4, a, b, p.1, p.3, p.6, p.7);
    let m5 = na_positions(m4, a, b, p.1, p.3, p.6, p.7);
    lemma_fees_keeps_vault(m5, a, b, size, exec);
    let m6 = na_fees(m5, a, b, size, exec).0;
    lemma_lifecycle_keeps_vault(m6, rate);
}

proof fn lemma_pnl_keeps_vault(m3: EngineModel, a: int, b: int, tp: int)
    ensures
        na_pnl(m3, a, b, tp).0.vault == m3.vault,
{
    reveal(na_pnl);
}

proof fn lemma_positions_keeps_vault(m: EngineModel, a: int, b: int, na: i128, nb: i128, l: u128, s: u128)
    ensures
        na_positions(m, a, b, na, nb, l, s).vault == m.vault,
{
    reveal(na_positions);
}

proof fn lemma_charge_keeps_vault(m: EngineModel, i: int, fee: u128)
    ensures
        charge_spec(m, i, fee).0.vault == m.vault,
{
}

proof fn lemma_fees_keeps_vault(m: EngineModel, a: int, b: int, size: i128, exec: u64)
    ensures
        na_fees(m, a, b, size, exec).0.vault == m.vault,
{
    reveal(na_fees);
    let notional = sat_fd(size as int, exec as int, POS_SCALE as int);
    let fee = if notional > 0 && m.params.trading_fee_bps > 0 {
        sat_cd(notional, m.params.trading_fee_bps as int, 10_000)
    } else {
        0
    };
    if fee > 0 && fee <= MAX_PROTOCOL_FEE_ABS {
        lemma_charge_keeps_vault(m, a, fee as u128);
        lemma_charge_keeps_vault(charge_spec(m, a, fee as u128).0, b, fee as u128);
    }
}

proof fn lemma_lifecycle_keeps_vault(m: EngineModel, rate: i64)
    ensures
        lifecycle_spec(m, rate) matches Some(m7) ==> m7.vault == m.vault,
{
}

/// A bilateral trade moves no money in or out of the vault: whatever it
/// returns, the engine after it holds the vault it held before.
pub proof fn lemma_trade_na_keeps_vault(
    m: EngineModel,
    a: u16,
    b: u16,
    oracle: u64,
    now: u64,
    size: i128,
    exec: u64,
    rate: i64,
)
    ensures
        trade_na_spec(m, a, b, oracle, now, size, exec, rate).0.vault == m.vault,
{
    reveal(na_plan);
    lemma_touch_keeps_vault(m, a as int, oracle, now);
    let m1 = touch_full_spec(m, a as int, oracle, now).0;
    lemma_touch_keeps_vault(m1, b as int, oracle, now);
    let m2 = touch_full_spec(m1, b as int, oracle, now).0;
    let m3 = na_plan(m2, a as int, b as int, oracle, size).0;
    if let (_, Ok(p)) = na_plan(m2, a as int, b as int, oracle, size) {
        lemma_rest_keeps_vault(m3, a as int, b as int, oracle, size, exec, rate, p);
    }
}

/// Two distinct accounts whose capital the capital aggregate covers together,
/// in an engine whose vault covers capital plus insurance.
pub open spec fn pair_covered(m: EngineModel, a: int, b: int) -> bool {
    &&& 0 <= a < m.accounts.len()
    &&& 0 <= b < m.accounts.len()
    &&& a != b
    &&& conserves(m)
    &&& m.c_tot.0 >= m.accounts[a].capital.0 + m.accounts[b].capital.0
}

proof fn lemma_pnl_pair(m3: EngineModel, a: int, b: int, tp: int)
    requires
        pair_covered(m3, a, b),
    ensures
        pair_covered(na_pnl(m3, a, b, tp).0, a, b),
        na_pnl(m3, a, b, tp).0.accounts.len() == m3.accounts.len(),
{
    reveal(na_pnl);
}

proof fn lemma_settle_losses_pair(m: EngineModel, i: int, j: int)
    requires
        pair_covered(m, i, j),
    ensures
        pair_covered(m_settle_losses(m, i), i, j),
        m_settle_losses(m, i).accounts.len() == m.accounts.len(),
{
}

proof fn lemma_positions_pair(m: EngineModel, a: int, b: int, na: i128, nb: i128, l: u128, s: u128)
    requires
        pair_covered(m, a, b),
    ensures
        conserves(na_positions(m, a, b, na, nb, l, s)),
        pair_covered(na_positions(m, a, b, na, nb, l, s), a, b),
{
    reveal(na_positions);
    let m1 = m_attach(m_attach(m, a, na), b, nb);
    let m2 = EngineModel { oi_eff_long_q: l, oi_eff_short_q: s, ..m1 };
    assert(pair_covered(m2, a, b));
    let m3 = if m2.accounts[a].pnl != i128::MIN {
        lemma_settle_losses_pair(m2, a, b);
        m_settle_losses(m2, a)
    } else {
        m2
    };
    assert(pair_covered(m3, b, a));
    if m3.accounts[b].pnl != i128::MIN {
        lemma_settle_losses_pair(m3, b, a);
    }
}

proof fn lemma_charge_pair(m: EngineModel, i: int, j: int, fee: u128)
    requires
        pair_covered(m, i, j),
    ensures
        pair_covered(charge_spec(m, i, fee).0, i, j),
        charge_spec(m, i, fee).0.accounts.len() == m.accounts.len(),
{
}

proof fn lemma_fees_pair(m: EngineModel, a: int, b: int, size: i128, exec: u64)
    requires
        pair_covered(m, a, b),
    ensures
        pair_covered(na_fees(m, a, b, size, exec).0, a, b),
{
    reveal(na_fees);
    let notional = sat_fd(size as int, exec as int, POS_SCALE as int);
    let fee = if notional > 0 && m.params.trading_fee_bps > 0 {
        sat_cd(notional, m.params.trading_fee_bps as int, 10_000)
    } else {
        0
    };
    if fee > 0 && fee <= MAX_PROTOCOL_FEE_ABS {
        lemma_charge_pair(m, a, b, fee as u128);
        let m1 = charge_spec(m, a, fee as u128).0;
        assert(pair_covered(m1, b, a));
        lemma_charge_pair(m1, b, a, fee as u128);
        assert(pair_covered(charge_spec(m1, b, fee as u128).0, a, b));
    }
}

/// Booking a trade keeps the vault covering capital plus insurance: from
/// the planned state on, the trade PnL only moves PnL between the parties,
/// settled losses only lower capital, and fees move capital into insurance,
/// so when the two parties' capital is covered by the capital aggregate and
/// the vault covers capital plus insurance, it still does afterwards.
pub proof fn lemma_trade_booking_conserves(
    m3: EngineModel,
    a: int,
    b: int,
    oracle: u64,
    size: i128,
    exec: u64,
    rate: i64,
    p: (i128, i128, i128, i128, int, int, u128, u128),
)
    requires
        0 <= a < m3.accounts.len(),
        0 <= b < m3.accounts.len(),
        a != b,
        conserves(m3),
        m3.c_tot.0 >= m3.accounts[a].capital.0 + m3.accounts[b].capital.0,
    ensures
        conserves(na_rest(m3, a, b, oracle, size, exec, rate, p).0),
{
    reveal(na_rest);
    let tp = (size * (oracle - exec)) / (POS_SCALE as int);
    lemma_pnl_pair(m3, a, b, tp);
    let m4 = na_pnl(m3, a, b, tp).0;
    lemma_positions_pair(m4, a, b, p.1, p.3, p.6, p.7);
    let m5 = na_positions(m4, a, b, p.1, p.3, p.6, p.7);
    lemma_fees_pair(m5, a, b, size, exec);
}

fn long_part_exec(p: i128) -> (r: u128)
    ensures
        r == long_part(p as int),
{
    if p > 0 {
        p as u128
    } else {
        0
    }
}

fn short_part_exec(p: i128) -> (r: u128)
    ensures
        r == short_part(p as int),
{
    if p < 0 {
        crate::num::abs_i128(p)
    } else {
        0
    }
}

fn oi_after_exec(base: u128, old1: u128, old2: u128, new1: u128, new2: u128) -> (r: RiskResult<u128>)
    ensures
        match oi_after(base as int, old1 as int, old2 as int, new1 as int, new2 as int) {
            Ok(v) => r == Ok::<u128, RiskError>(v as u128),
            Err(e) => r == Err::<u128, RiskError>(e),
        },
{
    if base < old1 {
        return Err(RiskError::CorruptState);
    }
    let t1 = base - old1;
    if t1 < old2 {
        return Err(RiskError::CorruptState);
    }
    let t2 = t1 - old2;
    let t3 = match t2.checked_add(new1) {
        Some(v) => v,
        None => {
            return Err(RiskError::Overflow);
        },
    };
    match t3.checked_add(new2) {
        Some(v) => Ok(v),
        None => Err(RiskError::Overflow),
    }
}

impl RiskEngine {
    fn pos_buffer_exec(&self, i: usize, oracle_price: u64) -> (r: I256)
        requires
            self.wf(),
            i < MAX_ACCOUNTS,
        ensures
            r.value() == pos_buffer(self@, i as int, oracle_price),
            -0x1_0000_0000_0000_0000_0000_0000_0000_0000_0000 <= r.value()
                <= 0x1_0000_0000_0000_0000_0000_0000_0000_0000_0000,
    {
        proof {
            assert(crate::wide_math::two_pow_128() == 0x1_0000_0000_0000_0000_0000_0000_0000_0000);
        }
        let eff = self.effective_pos_q(i);
        let req: u128 = if eff == 0 {
            0
        } else {
            let not = self.notional(i, oracle_price);
            crate::num::max_u128(
                crate::wide_math::mul_div_floor_u128(
                    not,
                    self.params.maintenance_margin_bps as u128,
                    10_000,
                ),
                self.params.min_nonzero_mm_req,
            )
        };
        let acc = self.accounts[i];
        let raw = self.account_equity_maint_raw_wide(&acc);
        match raw.checked_sub(I256::from_u128(req)) {
            Some(v) => v,
            None => {
                proof {
                    assert(false);
                }
                I256::zero()
            },
        }
    }

    #[verifier::spinoff_prover]
    fn na_plan_exec(&mut self, a: usize, b: usize, oracle_price: u64, size: i128) -> (r: RiskResult<
        TradePlan,
    >)
        requires
            old(self).wf(),
            a < MAX_ACCOUNTS,
            b < MAX_ACCOUNTS,
            0 < oracle_price <= MAX_ORACLE_PRICE,
            0 < size <= MAX_TRADE_SIZE_Q,
        ensures
            final(self).wf(),
            final(self)@.adl_epoch_long == old(self)@.adl_epoch_long,
            final(self)@.adl_epoch_short == old(self)@.adl_epoch_short,
            final(self)@ == na_plan(old(self)@, a as int, b as int, oracle_price, size).0,
            match na_plan(old(self)@, a as int, b as int, oracle_price, size).1 {
                Err(e) => r == Err::<TradePlan, RiskError>(e),
                Ok(t) => r matches Ok(p) && plan_view(p) == t,
            },
            r matches Ok(p) ==> abs_int(p.new_a as int) <= MAX_POSITION_ABS_Q && abs_int(
                p.new_b as int,
            ) <= MAX_POSITION_ABS_Q && -0x1_0000_0000_0000_0000_0000_0000_0000_0000_0000
                <= p.buf_a.value() <= 0x1_0000_0000_0000_0000_0000_0000_0000_0000_0000
                && -0x1_0000_0000_0000_0000_0000_0000_0000_0000_0000 <= p.buf_b.value()
                <= 0x1_0000_0000_0000_0000_0000_0000_0000_0000_0000,
    {
        proof {
            reveal(na_plan);
        }
        let oa = self.effective_pos_q(a);
        let ob = self.effective_pos_q(b);
        let buf_a = self.pos_buffer_exec(a, oracle_price);
        let buf_b = self.pos_buffer_exec(b, oracle_price);
        let na = match oa.checked_add(size) {
            Some(v) => v,
            None => {
                return Err(RiskError::Overflow);
            },
        };
        let nb = match ob.checked_sub(size) {
            Some(v) => v,
            None => {
                return Err(RiskError::Overflow);
            },
        };
        let abs_na = crate::num::abs_i128(na);
        let abs_nb = crate::num::abs_i128(nb);
        if na != 0 && abs_na > MAX_POSITION_ABS_Q {
            return Err(RiskError::Overflow);
        }
        if nb != 0 && abs_nb > MAX_POSITION_ABS_Q {
            return Err(RiskError::Overflow);
        }
        let not_a = crate::wide_math::mul_div_floor_u128(abs_na, oracle_price as u128, POS_SCALE);
        let not_b = crate::wide_math::mul_div_floor_u128(abs_nb, oracle_price as u128, POS_SCALE);
        if not_a > MAX_ACCOUNT_NOTIONAL || not_b > MAX_ACCOUNT_NOTIONAL {
            return Err(RiskError::Overflow);
        }
        self.maybe_finalize_ready_reset_sides();
        let l = match oi_after_exec(
            self.oi_eff_long_q,
            long_part_exec(oa),
            long_part_exec(ob),
            long_part_exec(na),
            long_part_exec(nb),
        ) {
            Ok(v) => v,
            Err(e) => {
                return Err(e);
            },
        };
        let s = match oi_after_exec(
            self.oi_eff_short_q,
            short_part_exec(oa),
            short_part_exec(ob),
            short_part_exec(na),
            short_part_exec(nb),
        ) {
            Ok(v) => v,
            Err(e) => {
                return Err(e);
            },
        };
        if l > MAX_OI_SIDE_Q || s > MAX_OI_SIDE_Q {
            return Err(RiskError::Overflow);
        }
        if (self.side_mode_long == SideMode::DrainOnly || self.side_mode_long
            == SideMode::ResetPending) && l > self.oi_eff_long_q {
            return Err(RiskError::SideBlocked);
        }
        if (self.side_mode_short == SideMode::DrainOnly || self.side_mode_short
            == SideMode::ResetPending) && s > self.oi_eff_short_q {
            return Err(RiskError::SideBlocked);
        }
        Ok(
            TradePlan {
                old_a: oa,
                new_a: na,
                old_b: ob,
                new_b: nb,
                buf_a,
                buf_b,
                oi_long: l,
                oi_short: s,
            },
        )
    }

    #[verifier::spinoff_prover]
    fn na_pnl_exec(&mut self, a: usize, b: usize, tp: i128) -> (r: RiskResult<()>)
        requires
            old(self).wf(),
            a < MAX_ACCOUNTS,
            b < MAX_ACCOUNTS,
            tp != i128::MIN,
        ensures
            final(self).wf(),
            final(self)@.adl_epoch_long == old(self)@.adl_epoch_long,
            final(self)@.adl_epoch_short == old(self)@.adl_epoch_short,
            (final(self)@, r) == na_pnl(old(self)@, a as int, b as int, tp as int),
    {
        proof {
            reveal(na_pnl);
        }
        let ra = self.accounts[a].reserved_pnl;
        let rb = self.accounts[b].reserved_pnl;
        let pa = match self.accounts[a].pnl.checked_add(tp) {
            Some(v) => v,
            None => {
                return Err(RiskError::Overflow);
            },
        };
        if pa == i128::MIN {
            return Err(RiskError::Overflow);
        }
        self.set_pnl(a, pa);
        let pb = match self.accounts[b].pnl.checked_sub(tp) {
            Some(v) => v,
            None => {
                return Err(RiskError::Overflow);
            },
        };
        if pb == i128::MIN {
            return Err(RiskError::Overflow);
        }
        self.set_pnl(b, pb);
        if self.accounts[a].reserved_pnl > ra {
            self.restart_warmup_after_reserve_increase(a);
        }
        if self.accounts[b].reserved_pnl > rb {
            self.restart_warmup_after_reserve_increase(b);
        }
        Ok(())
    }

    #[verifier::spinoff_prover]
    fn na_positions_exec(&mut self, a: usize, b: usize, na: i128, nb: i128, l: u128, s: u128)
        requires
            old(self).wf(),
            a < MAX_ACCOUNTS,
            b < MAX_ACCOUNTS,
            abs_int(na as int) <= MAX_POSITION_ABS_Q,
            abs_int(nb as int) <= MAX_POSITION_ABS_Q,
        ensures
            final(self).wf(),
            final(self)@.adl_epoch_long == old(self)@.adl_epoch_long,
            final(self)@.adl_epoch_short == old(self)@.adl_epoch_short,
            final(self)@ == na_positions(old(self)@, a as int, b as int, na, nb, l, s),
    {
        proof {
            reveal(na_positions);
        }
        self.attach_effective_position(a, na);
        self.attach_effective_position(b, nb);
        self.oi_eff_long_q = l;
        self.oi_eff_short_q = s;
        if self.accounts[a].pnl != i128::MIN {
            self.settle_losses(a);
        }
        if self.accounts[b].pnl != i128::MIN {
            self.settle_losses(b);
        }
    }

    fn charge_fee_exec(&mut self, i: usize, fee: u128) -> (r: u128)
        requires
            old(self).wf(),
            i < MAX_ACCOUNTS,
            fee <= MAX_PROTOCOL_FEE_ABS,
        ensures
            final(self).wf(),
            final(self)@.adl_epoch_long == old(self)@.adl_epoch_long,
            final(self)@.adl_epoch_short == old(self)@.adl_epoch_short,
            (final(self)@, r as int) == charge_spec(old(self)@, i as int, fee),
    {
        let cap = self.accounts[i].capital.0;
        let paid = if fee < cap {
            fee
        } else {
            cap
        };
        if paid > 0 {
            self.set_capital(i, cap - paid);
            self.insurance_fund.balance = U128(
                crate::num::sat_add_u128(self.insurance_fund.balance.0, paid),
            );
        }
        let short = fee - paid;
        if short > 0 {
            let fc = self.accounts[i].fee_credits.0;
            let head: u128 = if fc >= 0 {
                (fc as u128) + (i128::MAX as u128)
            } else if fc + i128::MAX > 0 {
                (fc + i128::MAX) as u128
            } else {
                0
            };
            let coll = if short < head {
                short
            } else {
                head
            };
            if coll > 0 {
                let mut acc = self.accounts[i];
                acc.fee_credits = I128(fc - (coll as i128));
                self.put_account(i, acc);
            }
            paid + coll
        } else {
            paid
        }
    }

    #[verifier::spinoff_prover]
    fn na_fees_exec(&mut self, a: usize, b: usize, size: i128, exec_price: u64) -> (r: RiskResult<
        u128,
    >)
        requires
            old(self).wf(),
            a < MAX_ACCOUNTS,
            b < MAX_ACCOUNTS,
            0 < size <= MAX_TRADE_SIZE_Q,
            0 < exec_price <= MAX_ORACLE_PRICE,
        ensures
            final(self).wf(),
            final(self)@.adl_epoch_long == old(self)@.adl_epoch_long,
            final(self)@.adl_epoch_short == old(self)@.adl_epoch_short,
            (final(self)@, r) == na_fees(old(self)@, a as int, b as int, size, exec_price),
    {
        proof {
            reveal(na_fees);
        }
        let notional = crate::wide_math::mul_div_floor_u128(size as u128, exec_price as u128, POS_SCALE);
        let fee: u128 = if notional > 0 && self.params.trading_fee_bps > 0 {
            crate::wide_math::mul_div_ceil_u128(notional, self.params.trading_fee_bps as u128, 10_000)
        } else {
            0
        };
        if fee > MAX_PROTOCOL_FEE_ABS {
            return Err(RiskError::Overflow);
        }
        let ia = if fee > 0 {
            self.charge_fee_exec(a, fee)
        } else {
            0
        };
        let ib = if fee > 0 {
            self.charge_fee_exec(b, fee)
        } else {
            0
        };
        if self.accounts[a].kind == KIND_LP {
            let mut acc = self.accounts[a];
            acc.fees_earned_total = U128(crate::num::sat_add_u128(acc.fees_earned_total.0, ib));
            self.put_account(a, acc);
        }
        if self.accounts[b].kind == KIND_LP {
            let mut acc = self.accounts[b];
            acc.fees_earned_total = U128(crate::num::sat_add_u128(acc.fees_earned_total.0, ia));
            self.put_account(b, acc);
        }
        Ok(ia)
    }

    #[verifier::spinoff_prover]
    fn na_rest_exec(
        &mut self,
        a: usize,
        b: usize,
        oracle_price: u64,
        size: i128,
        exec_price: u64,
        funding_rate: i64,
        p: TradePlan,
    ) -> (r: RiskResult<()>)
        requires
            old(self).wf(),
            old(self)@.adl_epoch_long < u64::MAX,
            old(self)@.adl_epoch_short < u64::MAX,
            a < MAX_ACCOUNTS,
            b < MAX_ACCOUNTS,
            0 < oracle_price <= MAX_ORACLE_PRICE,
            0 < exec_price <= MAX_ORACLE_PRICE,
            0 < size <= MAX_TRADE_SIZE_Q,
            -MAX_ABS_FUNDING_BPS_PER_SLOT <= funding_rate <= MAX_ABS_FUNDING_BPS_PER_SLOT,
            abs_int(p.new_a as int) <= MAX_POSITION_ABS_Q,
            abs_int(p.new_b as int) <= MAX_POSITION_ABS_Q,
            -0x1_0000_0000_0000_0000_0000_0000_0000_0000_0000 <= p.buf_a.value()
                <= 0x1_0000_0000_0000_0000_0000_0000_0000_0000_0000,
            -0x1_0000_0000_0000_0000_0000_0000_0000_0000_0000 <= p.buf_b.value()
                <= 0x1_0000_0000_0000_0000_0000_0000_0000_0000_0000,
        ensures
            final(self).wf(),
            (final(self)@, r) == na_rest(
                old(self)@,
                a as int,
                b as int,
                oracle_price,
                size,
                exec_price,
                funding_rate,
                plan_view(p),
            ),
    {
        proof {
            reveal(na_rest);
            assert(crate::wide_math::two_pow_128() == 0x1_0000_0000_0000_0000_0000_0000_0000_0000);
        }
        let price_diff = (oracle_price as i128) - (exec_price as i128);
        proof {
            assert(-1_000_000_000_000 * 100_000_000_000_000 <= size * price_diff
                <= 1_000_000_000_000 * 100_000_000_000_000) by (nonlinear_arith)
                requires
                    -1_000_000_000_000 <= price_diff <= 1_000_000_000_000,
                    0 < size <= 100_000_000_000_000,
            ;
            assert(crate::engine::market::mul_fits((size * price_diff) / (POS_SCALE as int)));
        }
        let tp = match crate::engine::market::compute_trade_pnl(size, price_diff) {
            Ok(v) => v,
            Err(e) => {
                return Err(e);
            },
        };
        match self.na_pnl_exec(a, b, tp) {
            Ok(()) => {},
            Err(e) => {
                return Err(e);
            },
        }
        self.na_positions_exec(a, b, p.new_a, p.new_b, p.oi_long, p.oi_short);
        let ia = match self.na_fees_exec(a, b, size, exec_price) {
            Ok(v) => v,
            Err(e) => {
                return Err(e);
            },
        };
        if p.new_a == 0 && self.accounts[a].pnl < 0 {
            return Err(RiskError::Undercollateralized);
        }
        if p.new_b == 0 && self.accounts[b].pnl < 0 {
            return Err(RiskError::Undercollateralized);
        }
        match self.enforce_post_trade_margin(
            a,
            b,
            oracle_price,
            &p.old_a,
            &p.new_a,
            &p.old_b,
            &p.new_b,
            p.buf_a,
            p.buf_b,
            ia,
        ) {
            Ok(()) => {},
            Err(e) => {
                return Err(e);
            },
        }
        let mut ctx = crate::engine::types::InstructionContext {
            pending_reset_long: false,
            pending_reset_short: false,
        };
        match self.run_end_of_instruction_lifecycle(&mut ctx, funding_rate) {
            Ok(()) => Ok(()),
            Err(e) => Err(e),
        }
    }

    /// Trade of `size_q` (positive: `a` buys from `b`) at `exec_price`, both
    /// parties fully refreshed first; see `trade_na_spec`. Steps already
    /// taken stay on an error. The caller guarantees that a trade that
    /// succeeds leaves the two sides' effective open interest equal (the
    /// engine treats anything else as a broken invariant).
    pub fn execute_trade_not_atomic(
        &mut self,
        a: u16,
        b: u16,
        oracle_price: u64,
        now_slot: u64,
        size_q: i128,
        exec_price: u64,
        funding_rate: i64,
    ) -> (r: RiskResult<()>)
        requires
            old(self).wf(),
            old(self)@.adl_epoch_long < u64::MAX,
            old(self)@.adl_epoch_short < u64::MAX,
            trade_na_spec(old(self)@, a, b, oracle_price, now_slot, size_q, exec_price, funding_rate).1 is Ok
                ==> trade_na_spec(old(self)@, a, b, oracle_price, now_slot, size_q, exec_price, funding_rate).0.oi_eff_long_q
                == trade_na_spec(old(self)@, a, b, oracle_price, now_slot, size_q, exec_price, funding_rate).0.oi_eff_short_q,
        ensures
            final(self).wf(),
            (final(self)@, r) == trade_na_spec(
                old(self)@,
                a,
                b,
                oracle_price,
                now_slot,
                size_q,
                exec_price,
                funding_rate,
            ),
            r is Ok ==> final(self).oi_eff_long_q == final(self).oi_eff_short_q,
            final(self).vault == old(self).vault,
    {
        proof {
            lemma_trade_na_keeps_vault(
                self@,
                a,
                b,
                oracle_price,
                now_slot,
                size_q,
                exec_price,
                funding_rate,
            );
        }
        match Self::validate_funding_rate(funding_rate) {
            Ok(()) => {},
            Err(e) => {
                return Err(e);
            },
        }
        if oracle_price == 0 || oracle_price > MAX_ORACLE_PRICE || exec_price == 0 || exec_price
            > MAX_ORACLE_PRICE {
            return Err(RiskError::Overflow);
        }
        if size_q <= 0 || size_q as u128 > MAX_TRADE_SIZE_Q {
            return Err(RiskError::Overflow);
        }
        let notional = crate::wide_math::mul_div_floor_u128(size_q as u128, exec_price as u128, POS_SCALE);
        if notional > MAX_ACCOUNT_NOTIONAL {
            return Err(RiskError::Overflow);
        }
        if a as usize >= MAX_ACCOUNTS || b as usize >= MAX_ACCOUNTS || !self.is_used(a as usize)
            || !self.is_used(b as usize) {
            return Err(RiskError::AccountNotFound);
        }
        if a == b {
            return Err(RiskError::Overflow);
        }
        match self.touch_account_full_not_atomic(a as usize, oracle_price, now_slot) {
            Ok(()) => {},
            Err(e) => {
                return Err(e);
            },
        }
        match self.touch_account_full_not_atomic(b as usize, oracle_price, now_slot) {
            Ok(()) => {},
            Err(e) => {
                return Err(e);
            },
        }
        let p = match self.na_plan_exec(a as usize, b as usize, oracle_price, size_q) {
            Ok(p) => p,
            Err(e) => {
                return Err(e);
            },
        };
        self.na_rest_exec(a as usize, b as usize, oracle_price, size_q, exec_price, funding_rate, p)
    }
}

} // verus!
