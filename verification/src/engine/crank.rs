//! The keeper crank: market accrual, candidate revalidation or a windowed
//! sweep with liquidation and force-realize, lifecycle and dust collection.
use vstd::prelude::*;
use crate::num::{u128_sat, U128};
use crate::engine::types::{
    CrankOutcome, InstructionContext, LiquidationPolicy, RiskError, RiskResult, KIND_LP,
    MAX_ACCOUNTS, MAX_ABS_FUNDING_BPS_PER_SLOT, MAX_ORACLE_PRICE,
};
use crate::engine::state::{EngineModel, RiskEngine};
use crate::engine::ledger::{max_int, min_int};
use crate::engine::positions::{abs_int, eff_pos_spec};
use crate::engine::settle::{
    m_advance_warmup, m_fee_debt_sweep, m_maint_fee, m_profit_conversion,
    m_resolve_flat_negative, m_settle_losses,
};
use crate::engine::sides::{m_finalize_resets, sched_spec, settle_side_spec};
use crate::engine::market::accrue_spec;
use crate::engine::margin::mtm_equity_spec;
use crate::engine::funding::{accrue_funding_spec, settle_funding_spec, settle_mark_spec};
use crate::engine::account_ops::{m_maint_coupon, m_settle_warmup};
use crate::engine::liquidation::{close_core_spec, liquidate_spec, touch_liq_spec};
use crate::engine::closing::gc_spec;

verus! {

/// Crank tallies: liquidations, liquidation errors, remaining liquidation
/// budget, force-realize closes, force-realize errors, remaining
/// force-realize budget.
#[derive(Clone, Copy)]
pub struct CrankTally {
    pub liqs: u32,
    pub liq_errors: u16,
    pub liq_budget: u16,
    pub fr_closed: u16,
    pub fr_errors: u16,
    pub fr_budget: u16,
}

/// The refresh of a candidate before its liquidation check: warmup, A/K side
/// effects, losses, a flat negative remainder, maintenance fees, profit
/// conversion when flat and the fee-debt sweep, each best-effort.
#[verifier::opaque]
pub open spec fn candidate_refresh(m: EngineModel, i: int, now: u64) -> EngineModel {
    let m1 = m_advance_warmup(m, i);
    let m2 = match settle_side_spec(m1, i) {
        Ok(x) => x,
        Err(_) => m1,
    };
    let m3 = if m2.accounts[i].pnl != i128::MIN {
        m_settle_losses(m2, i)
    } else {
        m2
    };
    let m4 = if eff_pos_spec(m3, i) == 0 && m3.accounts[i].pnl < 0 && m3.accounts[i].pnl
        != i128::MIN {
        m_resolve_flat_negative(m3, i)
    } else {
        m3
    };
    let m5 = m_maint_fee(m4, i, now).0;
    let m6 = if eff_pos_spec(m5, i) == 0 {
        m_profit_conversion(m5, i)
    } else {
        m5
    };
    m_fee_debt_sweep(m6, i)
}

/// Revalidation of one candidate account.
pub open spec fn candidate_step(m: EngineModel, cidx: u16, now: u64, price: u64, t: CrankTally) -> (
    EngineModel,
    CrankTally,
) {
    let i = cidx as int;
    if cidx >= MAX_ACCOUNTS || !m.is_used(i) {
        (m, t)
    } else {
        let m7 = candidate_refresh(m, i, now);
        if t.liq_budget > 0 && m7.accounts[i].position_size != 0 {
            let (m8, r) = liquidate_spec(m7, cidx, now, price);
            match r {
                Ok(true) => (
                    m8,
                    CrankTally {
                        liqs: (t.liqs + 1) as u32,
                        liq_budget: (t.liq_budget - 1) as u16,
                        ..t
                    },
                ),
                Ok(false) => (m8, t),
                Err(_) => (m8, CrankTally { liq_errors: (t.liq_errors + 1) as u16, ..t }),
            }
        } else {
            (m7, t)
        }
    }
}

/// Revalidation of candidates `k..limit`.
pub open spec fn candidate_loop(
    m: EngineModel,
    cands: Seq<(u16, Option<LiquidationPolicy>)>,
    k: int,
    limit: int,
    now: u64,
    price: u64,
    t: CrankTally,
) -> (EngineModel, CrankTally)
    decreases limit - k,
{
    if k >= limit {
        (m, t)
    } else {
        let (m1, t1) = candidate_step(m, cands[k].0, now, price, t);
        candidate_loop(m1, cands, k + 1, limit, now, price, t1)
    }
}

/// Fee, funding and warmup settlement at the start of a sweep slot.
#[verifier::opaque]
pub open spec fn sweep_pre(m: EngineModel, i: int, now: u64) -> EngineModel {
    let m1 = m_maint_coupon(m, i, now).0;
    let m2 = match settle_funding_spec(m1, i) {
        Ok(x) => x,
        Err(_) => m1,
    };
    m_settle_warmup(m2, i)
}

/// Liquidation of a sweep slot, then force close when it is worthless or dust.
#[verifier::opaque]
pub open spec fn sweep_liq(m3: EngineModel, i: int, now: u64, price: u64, t: CrankTally) -> (
    EngineModel,
    CrankTally,
) {
    let (m4, t1) = if m3.accounts[i].position_size != 0 {
        let (m4, r) = liquidate_spec(m3, i as u16, now, price);
        match r {
            Ok(true) => (
                m4,
                CrankTally { liqs: (t.liqs + 1) as u32, liq_budget: (t.liq_budget - 1) as u16, ..t },
            ),
            Ok(false) => (m4, t),
            Err(_) => (m4, CrankTally { liq_errors: (t.liq_errors + 1) as u16, ..t }),
        }
    } else {
        (m3, t)
    };
    let a4 = m4.accounts[i];
    if a4.position_size != 0 && (mtm_equity_spec(m4, a4, price) == 0 || abs_int(
        a4.position_size as int,
    ) < m4.params.min_liquidation_abs.0) {
        let m4b = touch_liq_spec(m4, i, now, price).0;
        let m4c = close_core_spec(m4b, i, price).0;
        (
            EngineModel {
                lifetime_force_realize_closes: min_int(
                    m4c.lifetime_force_realize_closes + 1,
                    u64::MAX as int,
                ) as u64,
                ..m4c
            },
            t1,
        )
    } else {
        (m4, t1)
    }
}

/// Force-realize close of a sweep slot.
#[verifier::opaque]
pub open spec fn sweep_fr(m5: EngineModel, i: int, now: u64, price: u64, t2: CrankTally) -> (
    EngineModel,
    CrankTally,
) {
    match settle_funding_spec(m5, i) {
        Err(_) => (m5, CrankTally { fr_errors: (t2.fr_errors + 1) as u16, ..t2 }),
        Ok(f1) => match settle_mark_spec(f1, i, price, false) {
            Err(_) => (f1, CrankTally { fr_errors: (t2.fr_errors + 1) as u16, ..t2 }),
            Ok(f2) => {
                let m6 = close_core_spec(m_maint_coupon(f2, i, now).0, i, price).0;
                (
                    EngineModel {
                        lifetime_force_realize_closes: min_int(
                            m6.lifetime_force_realize_closes + 1,
                            u64::MAX as int,
                        ) as u64,
                        ..m6
                    },
                    CrankTally {
                        fr_closed: (t2.fr_closed + 1) as u16,
                        fr_budget: (t2.fr_budget - 1) as u16,
                        ..t2
                    },
                )
            },
        },
    }
}

/// LP tracking of the sweep's largest LP position.
#[verifier::opaque]
pub open spec fn sweep_lp(m7: EngineModel, i: int) -> EngineModel {
    let a7 = m7.accounts[i];
    if a7.kind == KIND_LP {
        EngineModel {
            lp_max_abs_sweep: U128(
                max_int(m7.lp_max_abs_sweep.0 as int, abs_int(a7.position_size as int)) as u128,
            ),
            ..m7
        }
    } else {
        m7
    }
}

/// One occupied slot of the sweep.
pub open spec fn sweep_slot(m: EngineModel, i: int, now: u64, price: u64, fr_active: bool, t: CrankTally) -> (
    EngineModel,
    CrankTally,
) {
    let m3 = sweep_pre(m, i, now);
    let (m5, t2) = if !fr_active && t.liq_budget > 0 {
        sweep_liq(m3, i, now, price, t)
    } else {
        (m3, t)
    };
    let (m7, t3) = if fr_active && t2.fr_budget > 0 && m5.accounts[i].position_size != 0 {
        sweep_fr(m5, i, now, price, t2)
    } else {
        (m5, t2)
    };
    (sweep_lp(m7, i), t3)
}

/// The sweep from slot `idx` after `scanned` slots: engine, tally, the
/// slot where it stopped and whether the sweep completed.
pub open spec fn sweep_loop(
    m: EngineModel,
    idx: int,
    scanned: int,
    now: u64,
    price: u64,
    fr_active: bool,
    t: CrankTally,
) -> (EngineModel, CrankTally, int, bool)
    decreases MAX_ACCOUNTS - scanned,
{
    if scanned >= MAX_ACCOUNTS {
        (m, t, idx, false)
    } else {
        let (m1, t1) = if m.is_used(idx) {
            sweep_slot(m, idx, now, price, fr_active, t)
        } else {
            (m, t)
        };
        let next = (idx + 1) % (MAX_ACCOUNTS as int);
        if next == m1.sweep_start_idx {
            (m1, t1, next, true)
        } else {
            sweep_loop(m1, next, scanned + 1, now, price, fr_active, t1)
        }
    }
}

pub open spec fn lifecycle_spec(m: EngineModel, rate: i64) -> Option<EngineModel> {
    let c = InstructionContext { pending_reset_long: false, pending_reset_short: false };
    match sched_spec(m, c) {
        None => None,
        Some((m4, c4)) => Some(
            EngineModel { funding_rate_bps_per_slot_last: rate, ..m_finalize_resets(m4, c4) },
        ),
    }
}

pub open spec fn fresh_tally() -> CrankTally {
    CrankTally { liqs: 0, liq_errors: 0, liq_budget: 64, fr_closed: 0, fr_errors: 0, fr_budget: 16 }
}

/// Candidate path of the crank after the accrual.
#[verifier::opaque]
pub open spec fn crank_cand_tail(
    mb: EngineModel,
    now: u64,
    price: u64,
    cands: Seq<(u16, Option<LiquidationPolicy>)>,
    max_reval: u16,
    rate: i64,
    advanced: bool,
    failures: u8,
) -> (EngineModel, RiskResult<CrankOutcome>) {
    let limit = min_int(cands.len() as int, max_reval as int);
    let (mc, t) = candidate_loop(mb, cands, 0, limit, now, price, fresh_tally());
    match lifecycle_spec(mc, rate) {
        None => (mc, Err(RiskError::CorruptState)),
        Some(md) => {
            let (me, gc) = gc_spec(md);
            (
                me,
                Ok(
                    CrankOutcome {
                        advanced,
                        slots_forgiven: 0,
                        caller_settle_ok: true,
                        force_realize_needed: me.insurance_fund.balance.0
                            <= me.params.risk_reduction_threshold.0,
                        panic_needed: false,
                        num_liquidations: t.liqs,
                        num_liq_errors: t.liq_errors,
                        num_gc_closed: gc as u32,
                        last_cursor: me.crank_cursor,
                        sweep_complete: false,
                        adl_accrue_failures: failures,
                        force_realize_closed: 0,
                        force_realize_errors: 0,
                    },
                ),
            )
        },
    }
}

/// First half of the sweep path: start-of-sweep bookkeeping, funding accrual,
/// the rate for the next interval, the sweep itself and the cursor update.
#[verifier::opaque]
pub open spec fn sweep_mid(mb: EngineModel, now: u64, price: u64, rate: i64) -> (
    EngineModel,
    RiskResult<(CrankTally, bool)>,
) {
    let new_sweep = mb.crank_cursor == mb.sweep_start_idx;
    let mc = if new_sweep {
        EngineModel { last_full_sweep_start_slot: now, lp_max_abs_sweep: U128(0), ..mb }
    } else {
        mb
    };
    match accrue_funding_spec(mc, now, price) {
        Err(e) => (mc, Err(e)),
        Ok(md) => {
            let me = if md.funding_frozen {
                md
            } else {
                EngineModel { funding_rate_bps_per_slot_last: rate, ..md }
            };
            let fr_active = me.insurance_fund.balance.0 <= me.params.risk_reduction_threshold.0;
            let (mf, t, stop, complete) = sweep_loop(
                me,
                me.crank_cursor as int,
                0,
                now,
                price,
                fr_active,
                fresh_tally(),
            );
            let mg0 = EngineModel { crank_cursor: stop as u16, ..mf };
            let mg = if complete {
                EngineModel {
                    last_full_sweep_completed_slot: now,
                    lp_max_abs: mg0.lp_max_abs_sweep,
                    sweep_start_idx: stop as u16,
                    ..mg0
                }
            } else {
                mg0
            };
            (mg, Ok((t, complete)))
        },
    }
}

/// Second half of the sweep path: the lifecycle, dust collection and the outcome.
#[verifier::opaque]
pub open spec fn sweep_finish(
    mg: EngineModel,
    t: CrankTally,
    complete: bool,
    rate: i64,
    advanced: bool,
    failures: u8,
) -> (EngineModel, RiskResult<CrankOutcome>) {
    match lifecycle_spec(mg, rate) {
        None => (mg, Err(RiskError::CorruptState)),
        Some(mh) => {
            let (mi, gc) = gc_spec(mh);
            (
                mi,
                Ok(
                    CrankOutcome {
                        advanced,
                        slots_forgiven: 0,
                        caller_settle_ok: true,
                        force_realize_needed: mi.insurance_fund.balance.0
                            <= mi.params.risk_reduction_threshold.0,
                        panic_needed: false,
                        num_liquidations: t.liqs,
                        num_liq_errors: t.liq_errors,
                        num_gc_closed: gc as u32,
                        last_cursor: mi.crank_cursor,
                        sweep_complete: complete,
                        adl_accrue_failures: failures,
                        force_realize_closed: t.fr_closed,
                        force_realize_errors: t.fr_errors,
                    },
                ),
            )
        },
    }
}

proof fn lemma_sweep_tail_split(mb: EngineModel, now: u64, price: u64, rate: i64, advanced: bool, failures: u8)
    ensures
        crank_sweep_tail(mb, now, price, rate, advanced, failures) == (match sweep_mid(mb, now, price, rate) {
            (mc, Err(e)) => (mc, Err(e)),
            (mg, Ok((t, complete))) => sweep_finish(mg, t, complete, rate, advanced, failures),
        }),
{
    reveal(crank_sweep_tail);
    reveal(sweep_mid);
    reveal(sweep_finish);
}

/// Sweep path of the crank after the accrual.
#[verifier::opaque]
pub open spec fn crank_sweep_tail(
    mb: EngineModel,
    now: u64,
    price: u64,
    rate: i64,
    advanced: bool,
    failures: u8,
) -> (EngineModel, RiskResult<CrankOutcome>) {
    let new_sweep = mb.crank_cursor == mb.sweep_start_idx;
    let mc = if new_sweep {
        EngineModel { last_full_sweep_start_slot: now, lp_max_abs_sweep: U128(0), ..mb }
    } else {
        mb
    };
    match accrue_funding_spec(mc, now, price) {
        Err(e) => (mc, Err(e)),
        Ok(md) => {
            let me = if md.funding_frozen {
                md
            } else {
                EngineModel { funding_rate_bps_per_slot_last: rate, ..md }
            };
            let fr_active = me.insurance_fund.balance.0 <= me.params.risk_reduction_threshold.0;
            let (mf, t, stop, complete) = sweep_loop(
                me,
                me.crank_cursor as int,
                0,
                now,
                price,
                fr_active,
                fresh_tally(),
            );
            let mg0 = EngineModel { crank_cursor: stop as u16, ..mf };
            let mg = if complete {
                EngineModel {
                    last_full_sweep_completed_slot: now,
                    lp_max_abs: mg0.lp_max_abs_sweep,
                    sweep_start_idx: stop as u16,
                    ..mg0
                }
            } else {
                mg0
            };
            match lifecycle_spec(mg, rate) {
                None => (mg, Err(RiskError::CorruptState)),
                Some(mh) => {
                    let (mi, gc) = gc_spec(mh);
                    (
                        mi,
                        Ok(
                            CrankOutcome {
                                advanced,
                                slots_forgiven: 0,
                                caller_settle_ok: true,
                                force_realize_needed: mi.insurance_fund.balance.0
                                    <= mi.params.risk_reduction_threshold.0,
                                panic_needed: false,
                                num_liquidations: t.liqs,
                                num_liq_errors: t.liq_errors,
                                num_gc_closed: gc as u32,
                                last_cursor: mi.crank_cursor,
                                sweep_complete: complete,
                                adl_accrue_failures: failures,
                                force_realize_closed: t.fr_closed,
                                force_realize_errors: t.fr_errors,
                            },
                        ),
                    )
                },
            }
        },
    }
}

/// The crank: the engine after it and its outcome.
pub open spec fn crank_spec(
    m: EngineModel,
    now: u64,
    price: u64,
    cands: Seq<(u16, Option<LiquidationPolicy>)>,
    max_reval: u16,
    rate: i64,
) -> (EngineModel, RiskResult<CrankOutcome>) {
    if !(-MAX_ABS_FUNDING_BPS_PER_SLOT <= rate <= MAX_ABS_FUNDING_BPS_PER_SLOT) {
        (m, Err(RiskError::Overflow))
    } else if price == 0 || price > MAX_ORACLE_PRICE {
        (m, Err(RiskError::Overflow))
    } else {
        let (ma, failures) = match accrue_spec(m, now, price) {
            Some(x) => (x, 0u8),
            None => (m, 1u8),
        };
        let advanced = now > ma.last_crank_slot;
        let mb = EngineModel {
            current_slot: now,
            last_crank_slot: if advanced {
                now
            } else {
                ma.last_crank_slot
            },
            ..ma
        };
        if cands.len() > 0 {
            crank_cand_tail(mb, now, price, cands, max_reval, rate, advanced, failures)
        } else {
            crank_sweep_tail(mb, now, price, rate, advanced, failures)
        }
    }
}

impl RiskEngine {
    #[verifier::spinoff_prover]
    fn refresh_candidate(&mut self, i: usize, now_slot: u64)
        requires
            old(self).wf(),
            i < MAX_ACCOUNTS,
        ensures
            final(self)@.adl_epoch_long == old(self)@.adl_epoch_long && final(self)@.adl_epoch_short == old(self)@.adl_epoch_short,
            final(self).wf(),
            final(self)@ == candidate_refresh(old(self)@, i as int, now_slot),
    {
        proof {
            reveal(candidate_refresh);
        }
        self.advance_profit_warmup(i);
        let _ = self.settle_side_effects(i);
        if self.accounts[i].pnl != i128::MIN {
            self.settle_losses(i);
        }
        let eff = self.effective_pos_q(i);
        let pnl = self.accounts[i].pnl;
        if eff == 0 && pnl < 0 && pnl != i128::MIN {
            self.resolve_flat_negative(i);
        }
        let _ = self.settle_maintenance_fee_internal(i, now_slot);
        let eff2 = self.effective_pos_q(i);
        if eff2 == 0 {
            self.do_profit_conversion(i);
        }
        self.fee_debt_sweep(i);
    }

    #[verifier::rlimit(100)]
    #[verifier::spinoff_prover]
    fn crank_candidate(&mut self, cidx: u16, now_slot: u64, oracle_price: u64, t: CrankTally) -> (r:
        CrankTally)
        requires
            old(self).wf(),
            t.liqs < u32::MAX,
            t.liq_errors < u16::MAX,
        ensures
            final(self)@.adl_epoch_long == old(self)@.adl_epoch_long && final(self)@.adl_epoch_short == old(self)@.adl_epoch_short,
            r.liqs <= t.liqs + 1 && r.liq_errors <= t.liq_errors + 1,
            final(self).wf(),
            (final(self)@, r) == candidate_step(old(self)@, cidx, now_slot, oracle_price, t),
    {
        let i = cidx as usize;
        if i >= MAX_ACCOUNTS || !self.is_used(i) {
            return t;
        }
        self.refresh_candidate(i, now_slot);
        let mut t2 = t;
        if t.liq_budget > 0 && self.accounts[i].position_size != 0 {
            match self.liquidate_at_oracle(cidx, now_slot, oracle_price) {
                Ok(true) => {
                    t2.liqs = t.liqs + 1;
                    t2.liq_budget = t.liq_budget - 1;
                },
                Ok(false) => {},
                Err(_) => {
                    t2.liq_errors = t.liq_errors + 1;
                },
            }
        }
        t2
    }

    #[verifier::rlimit(100)]
    #[verifier::spinoff_prover]
    fn crank_liq_phase(&mut self, i: usize, now_slot: u64, oracle_price: u64, t: CrankTally) -> (r:
        CrankTally)
        requires
            old(self).wf(),
            i < MAX_ACCOUNTS,
            old(self)@.is_used(i as int),
            t.liq_budget > 0,
            t.liqs < u32::MAX,
            t.liq_errors < u16::MAX,
        ensures
            final(self)@.adl_epoch_long == old(self)@.adl_epoch_long && final(self)@.adl_epoch_short == old(self)@.adl_epoch_short,
            r.liqs <= t.liqs + 1 && r.liq_errors <= t.liq_errors + 1 && r.fr_closed == t.fr_closed && r.fr_errors == t.fr_errors,
            final(self).wf(),
            final(self)@.used == old(self)@.used,
            (final(self)@, r) == sweep_liq(old(self)@, i as int, now_slot, oracle_price, t),
    {
        proof {
            reveal(sweep_liq);
        }
        let mut t1 = t;
        if self.accounts[i].position_size != 0 {
            match self.liquidate_at_oracle(i as u16, now_slot, oracle_price) {
                Ok(true) => {
                    t1.liqs = t.liqs + 1;
                    t1.liq_budget = t.liq_budget - 1;
                },
                Ok(false) => {},
                Err(_) => {
                    t1.liq_errors = t.liq_errors + 1;
                },
            }
        }
        if self.accounts[i].position_size != 0 {
            let acc = self.accounts[i];
            let equity = self.account_equity_mtm_at_oracle(&acc, oracle_price);
            let abs_pos = crate::num::abs_i128(acc.position_size);
            let is_dust = abs_pos < self.params.min_liquidation_abs.0;
            if equity == 0 || is_dust {
                let _ = self.touch_account_for_liquidation(i as u16, now_slot, oracle_price);
                let _ = self.oracle_close_position_core(i as u16, oracle_price);
                self.lifetime_force_realize_closes = crate::num::sat_add_u64(
                    self.lifetime_force_realize_closes,
                    1,
                );
            }
        }
        t1
    }

    fn crank_sweep_pre(&mut self, i: usize, now_slot: u64)
        requires
            old(self).wf(),
            i < MAX_ACCOUNTS,
            old(self)@.is_used(i as int),
        ensures
            final(self)@.adl_epoch_long == old(self)@.adl_epoch_long && final(self)@.adl_epoch_short == old(self)@.adl_epoch_short,
            final(self).wf(),
            final(self)@.used == old(self)@.used,
            final(self)@ == sweep_pre(old(self)@, i as int, now_slot),
    {
        proof {
            reveal(sweep_pre);
        }
        let _ = self.settle_maintenance_fee_best_effort_for_crank(i as u16, now_slot);
        let _ = self.touch_account(i as u16);
        self.settle_warmup_to_capital_for_crank(i as u16);
    }

    #[verifier::rlimit(80)]
    #[verifier::spinoff_prover]
    fn crank_fr_phase(&mut self, i: usize, now_slot: u64, oracle_price: u64, t2: CrankTally) -> (r:
        CrankTally)
        requires
            old(self).wf(),
            i < MAX_ACCOUNTS,
            old(self)@.is_used(i as int),
            t2.fr_closed < u16::MAX,
            t2.fr_errors < u16::MAX,
            t2.fr_budget > 0,
        ensures
            final(self)@.adl_epoch_long == old(self)@.adl_epoch_long && final(self)@.adl_epoch_short == old(self)@.adl_epoch_short,
            r.fr_closed <= t2.fr_closed + 1 && r.fr_errors <= t2.fr_errors + 1 && r.liqs == t2.liqs && r.liq_errors == t2.liq_errors,
            final(self).wf(),
            final(self)@.used == old(self)@.used,
            (final(self)@, r) == sweep_fr(old(self)@, i as int, now_slot, oracle_price, t2),
    {
        proof {
            reveal(sweep_fr);
        }
        let mut t3 = t2;
        match self.touch_account_for_force_realize(i as u16, now_slot, oracle_price) {
            Ok(()) => {
                match self.oracle_close_position_core(i as u16, oracle_price) {
                    Ok(_) => {
                        t3.fr_closed = t2.fr_closed + 1;
                        t3.fr_budget = t2.fr_budget - 1;
                        self.lifetime_force_realize_closes = crate::num::sat_add_u64(
                            self.lifetime_force_realize_closes,
                            1,
                        );
                    },
                    Err(_) => {
                        t3.fr_errors = t2.fr_errors + 1;
                    },
                }
            },
            Err(_) => {
                t3.fr_errors = t2.fr_errors + 1;
            },
        }
        t3
    }

    fn crank_sweep_slot(
        &mut self,
        i: usize,
        now_slot: u64,
        oracle_price: u64,
        fr_active: bool,
        t: CrankTally,
    ) -> (r: CrankTally)
        requires
            old(self).wf(),
            i < MAX_ACCOUNTS,
            old(self)@.is_used(i as int),
            t.liqs < u32::MAX,
            t.liq_errors < u16::MAX,
            t.fr_closed < u16::MAX,
            t.fr_errors < u16::MAX,
        ensures
            final(self)@.adl_epoch_long == old(self)@.adl_epoch_long && final(self)@.adl_epoch_short == old(self)@.adl_epoch_short,
            r.liqs <= t.liqs + 1 && r.liq_errors <= t.liq_errors + 1 && r.fr_closed <= t.fr_closed + 1 && r.fr_errors <= t.fr_errors + 1,
            final(self).wf(),
            final(self)@.used == old(self)@.used,
            (final(self)@, r) == sweep_slot(old(self)@, i as int, now_slot, oracle_price, fr_active, t),
    {
        self.crank_sweep_pre(i, now_slot);
        let mut t2 = t;
        if !fr_active && t.liq_budget > 0 {
            t2 = self.crank_liq_phase(i, now_slot, oracle_price, t);
        }
        let mut t3 = t2;
        if fr_active && t2.fr_budget > 0 && self.accounts[i].position_size != 0 {
            t3 = self.crank_fr_phase(i, now_slot, oracle_price, t2);
        }
        let acc = self.accounts[i];
        if acc.is_lp() {
            let abs_pos = crate::num::abs_i128(acc.position_size);
            self.lp_max_abs_sweep = U128(crate::num::max_u128(self.lp_max_abs_sweep.0, abs_pos));
        }
        proof {
            reveal(sweep_lp);
        }
        t3
    }

    #[verifier::rlimit(100)]
    #[verifier::spinoff_prover]
    fn crank_candidates_path(
        &mut self,
        now_slot: u64,
        oracle_price: u64,
        ordered_candidates: &[(u16, Option<LiquidationPolicy>)],
        max_revalidations: u16,
        funding_rate: i64,
        advanced: bool,
        adl_accrue_failures: u8,
    ) -> (r: RiskResult<CrankOutcome>)
        requires
            old(self).wf(),
            old(self)@.adl_epoch_long < u64::MAX,
            old(self)@.adl_epoch_short < u64::MAX,
            -MAX_ABS_FUNDING_BPS_PER_SLOT <= funding_rate <= MAX_ABS_FUNDING_BPS_PER_SLOT,
        ensures
            final(self).wf(),
            (final(self)@, r) == crank_cand_tail(
                old(self)@,
                now_slot,
                oracle_price,
                ordered_candidates@,
                max_revalidations,
                funding_rate,
                advanced,
                adl_accrue_failures,
            ),
    {
        proof {
            reveal(crank_cand_tail);
        }
        let mut ctx = InstructionContext { pending_reset_long: false, pending_reset_short: false };
        let mut t = CrankTally {
            liqs: 0,
            liq_errors: 0,
            liq_budget: 64,
            fr_closed: 0,
            fr_errors: 0,
            fr_budget: 16,
        };
        let limit: usize = if ordered_candidates.len() < max_revalidations as usize {
            ordered_candidates.len()
        } else {
            max_revalidations as usize
        };
        let ghost target = candidate_loop(
            self@,
            ordered_candidates@,
            0,
            limit as int,
            now_slot,
            oracle_price,
            t,
        );
        let mut k: usize = 0;
        while k < limit
            invariant
                self.wf(),
                k <= limit,
                limit <= ordered_candidates@.len(),
                limit <= u16::MAX,
                t.liqs <= k,
                t.liq_errors <= k,
                self@.adl_epoch_long == old(self)@.adl_epoch_long,
                self@.adl_epoch_short == old(self)@.adl_epoch_short,
                target == candidate_loop(
                    self@,
                    ordered_candidates@,
                    k as int,
                    limit as int,
                    now_slot,
                    oracle_price,
                    t,
                ),
            decreases limit - k,
        {
            let (cidx, _policy) = ordered_candidates[k];
            t = self.crank_candidate(cidx, now_slot, oracle_price, t);
            k = k + 1;
        }
        match self.run_end_of_instruction_lifecycle(&mut ctx, funding_rate) {
            Ok(()) => {},
            Err(e) => {
                return Err(e);
            },
        }
        let num_gc_closed = self.garbage_collect_dust();
        let force_realize_needed = self.force_realize_active();
        Ok(
            CrankOutcome {
                advanced,
                slots_forgiven: 0,
                caller_settle_ok: true,
                force_realize_needed,
                panic_needed: false,
                num_liquidations: t.liqs,
                num_liq_errors: t.liq_errors,
                num_gc_closed,
                last_cursor: self.crank_cursor,
                sweep_complete: false,
                adl_accrue_failures,
                force_realize_closed: 0,
                force_realize_errors: 0,
            },
        )
    }

    #[verifier::rlimit(100)]
    #[verifier::spinoff_prover]
    fn run_sweep(&mut self, now_slot: u64, oracle_price: u64, fr_active: bool) -> (r: (CrankTally, usize, bool))
        requires
            old(self).wf(),
        ensures
            final(self).wf(),
            r.1 < MAX_ACCOUNTS,
            final(self)@.adl_epoch_long == old(self)@.adl_epoch_long,
            final(self)@.adl_epoch_short == old(self)@.adl_epoch_short,
            sweep_loop(old(self)@, old(self)@.crank_cursor as int, 0, now_slot, oracle_price, fr_active, fresh_tally())
                == (final(self)@, r.0, r.1 as int, r.2),
    {
        let mut t = CrankTally {
            liqs: 0,
            liq_errors: 0,
            liq_budget: 64,
            fr_closed: 0,
            fr_errors: 0,
            fr_budget: 16,
        };
        let mut idx: usize = self.crank_cursor as usize;
        let mut slots_scanned: usize = 0;
        let mut sweep_complete = false;
        let ghost target = sweep_loop(self@, idx as int, 0, now_slot, oracle_price, fr_active, t);
        while slots_scanned < MAX_ACCOUNTS
            invariant_except_break
                target == sweep_loop(
                    self@,
                    idx as int,
                    slots_scanned as int,
                    now_slot,
                    oracle_price,
                    fr_active,
                    t,
                ),
                !sweep_complete,
            invariant
                self.wf(),
                idx < MAX_ACCOUNTS,
                slots_scanned <= MAX_ACCOUNTS,
                t.liqs <= slots_scanned,
                t.liq_errors <= slots_scanned,
                t.fr_closed <= slots_scanned,
                t.fr_errors <= slots_scanned,
                self@.adl_epoch_long == old(self)@.adl_epoch_long,
                self@.adl_epoch_short == old(self)@.adl_epoch_short,
            ensures
                self.wf(),
                idx < MAX_ACCOUNTS,
                target == (self@, t, idx as int, sweep_complete),
                self@.adl_epoch_long == old(self)@.adl_epoch_long,
                self@.adl_epoch_short == old(self)@.adl_epoch_short,
            decreases MAX_ACCOUNTS - slots_scanned,
        {
            slots_scanned = slots_scanned + 1;
            if self.is_used(idx) {
                t = self.crank_sweep_slot(idx, now_slot, oracle_price, fr_active, t);
            }
            idx = (idx + 1) % MAX_ACCOUNTS;
            if idx == self.sweep_start_idx as usize {
                sweep_complete = true;
                break;
            }
        }
        (t, idx, sweep_complete)
    }

    #[verifier::rlimit(100)]
    #[verifier::spinoff_prover]
    fn crank_sweep_mid(&mut self, now_slot: u64, oracle_price: u64, funding_rate: i64) -> (r:
        RiskResult<(CrankTally, bool)>)
        requires
            old(self).wf(),
            -MAX_ABS_FUNDING_BPS_PER_SLOT <= funding_rate <= MAX_ABS_FUNDING_BPS_PER_SLOT,
        ensures
            final(self).wf(),
            final(self)@.adl_epoch_long == old(self)@.adl_epoch_long,
            final(self)@.adl_epoch_short == old(self)@.adl_epoch_short,
            (final(self)@, r) == sweep_mid(old(self)@, now_slot, oracle_price, funding_rate),
    {
        proof {
            reveal(sweep_mid);
        }
        if self.crank_cursor == self.sweep_start_idx {
            self.last_full_sweep_start_slot = now_slot;
            self.lp_max_abs_sweep = U128(0);
        }
        match self.accrue_funding(now_slot, oracle_price) {
            Ok(()) => {},
            Err(e) => {
                return Err(e);
            },
        }
        let _ = self.set_funding_rate_for_next_interval(funding_rate);
        let fr_active = self.force_realize_active();
        let (t, idx, sweep_complete) = self.run_sweep(now_slot, oracle_price, fr_active);
        self.crank_cursor = idx as u16;
        if sweep_complete {
            self.last_full_sweep_completed_slot = now_slot;
            self.lp_max_abs = self.lp_max_abs_sweep;
            self.sweep_start_idx = self.crank_cursor;
        }
        Ok((t, sweep_complete))
    }

    #[verifier::rlimit(100)]
    #[verifier::spinoff_prover]
    fn crank_sweep_finish(
        &mut self,
        t: CrankTally,
        sweep_complete: bool,
        funding_rate: i64,
        advanced: bool,
        adl_accrue_failures: u8,
    ) -> (r: RiskResult<CrankOutcome>)
        requires
            old(self).wf(),
            old(self)@.adl_epoch_long < u64::MAX,
            old(self)@.adl_epoch_short < u64::MAX,
            -MAX_ABS_FUNDING_BPS_PER_SLOT <= funding_rate <= MAX_ABS_FUNDING_BPS_PER_SLOT,
        ensures
            final(self).wf(),
            (final(self)@, r) == sweep_finish(
                old(self)@,
                t,
                sweep_complete,
                funding_rate,
                advanced,
                adl_accrue_failures,
            ),
    {
        proof {
            reveal(sweep_finish);
        }
        let mut ctx = InstructionContext { pending_reset_long: false, pending_reset_short: false };
        match self.run_end_of_instruction_lifecycle(&mut ctx, funding_rate) {
            Ok(()) => {},
            Err(e) => {
                return Err(e);
            },
        }
        let num_gc_closed = self.garbage_collect_dust();
        let force_realize_needed = self.force_realize_active();
        Ok(
            CrankOutcome {
                advanced,
                slots_forgiven: 0,
                caller_settle_ok: true,
                force_realize_needed,
                panic_needed: false,
                num_liquidations: t.liqs,
                num_liq_errors: t.liq_errors,
                num_gc_closed,
                last_cursor: self.crank_cursor,
                sweep_complete,
                adl_accrue_failures,
                force_realize_closed: t.fr_closed,
                force_realize_errors: t.fr_errors,
            },
        )
    }

    fn crank_sweep_path(
        &mut self,
        now_slot: u64,
        oracle_price: u64,
        funding_rate: i64,
        advanced: bool,
        adl_accrue_failures: u8,
    ) -> (r: RiskResult<CrankOutcome>)
        requires
            old(self).wf(),
            old(self)@.adl_epoch_long < u64::MAX,
            old(self)@.adl_epoch_short < u64::MAX,
            -MAX_ABS_FUNDING_BPS_PER_SLOT <= funding_rate <= MAX_ABS_FUNDING_BPS_PER_SLOT,
        ensures
            final(self).wf(),
            (final(self)@, r) == crank_sweep_tail(
                old(self)@,
                now_slot,
                oracle_price,
                funding_rate,
                advanced,
                adl_accrue_failures,
            ),
    {
        proof {
            lemma_sweep_tail_split(
                self@,
                now_slot,
                oracle_price,
                funding_rate,
                advanced,
                adl_accrue_failures,
            );
        }
        match self.crank_sweep_mid(now_slot, oracle_price, funding_rate) {
            Err(e) => Err(e),
            Ok((t, sweep_complete)) => self.crank_sweep_finish(
                t,
                sweep_complete,
                funding_rate,
                advanced,
                adl_accrue_failures,
            ),
        }
    }

    /// The keeper crank: accrues the market, then either revalidates the
    /// given candidates (liquidating where needed) or sweeps a window of
    /// slots (fees, funding, warmup, liquidation or force-realize), runs the
    /// end-of-instruction lifecycle and collects dust.
    #[verifier::rlimit(100)]
    #[verifier::spinoff_prover]
    pub fn keeper_crank(
        &mut self,
        now_slot: u64,
        oracle_price: u64,
        ordered_candidates: &[(u16, Option<LiquidationPolicy>)],
        max_revalidations: u16,
        funding_rate: i64,
    ) -> (r: RiskResult<CrankOutcome>)
        requires
            old(self).wf(),
            old(self)@.adl_epoch_long < u64::MAX,
            old(self)@.adl_epoch_short < u64::MAX,
        ensures
            final(self).wf(),
            final(self)@ == crank_spec(
                old(self)@,
                now_slot,
                oracle_price,
                ordered_candidates@,
                max_revalidations,
                funding_rate,
            ).0,
            r == crank_spec(
                old(self)@,
                now_slot,
                oracle_price,
                ordered_candidates@,
                max_revalidations,
                funding_rate,
            ).1,
    {
        match Self::validate_funding_rate(funding_rate) {
            Ok(()) => {},
            Err(e) => {
                return Err(e);
            },
        }
        if oracle_price == 0 || oracle_price > MAX_ORACLE_PRICE {
            return Err(RiskError::Overflow);
        }
        let adl_accrue_failures: u8 = if self.accrue_market_to(now_slot, oracle_price).is_err() {
            1
        } else {
            0
        };
        self.current_slot = now_slot;
        let advanced = now_slot > self.last_crank_slot;
        if advanced {
            self.last_crank_slot = now_slot;
        }
        if ordered_candidates.len() > 0 {
            return self.crank_candidates_path(
                now_slot,
                oracle_price,
                ordered_candidates,
                max_revalidations,
                funding_rate,
                advanced,
                adl_accrue_failures,
            );
        }
        self.crank_sweep_path(now_slot, oracle_price, funding_rate, advanced, adl_accrue_failures)
    }
}

} // verus!
