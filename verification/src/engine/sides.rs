//! Side-level A/K lifecycle: settling an account against its side, ADL
//! after a liquidation deficit, and the drain/reset cycle of a side.
use vstd::prelude::*;
use crate::num::u128_sat;
use crate::wide_math::{ceil_div, floor_div};
use crate::engine::types::{
    spec_opposite, Account, InstructionContext, RiskError, RiskResult, Side, SideMode, ADL_ONE,
    MAX_ACCOUNTS, MIN_A_SIDE, POS_SCALE,
};
use crate::engine::state::{EngineModel, RiskEngine};
use crate::engine::ledger::{
    m_put, m_set_pnl, side_a, side_epoch, side_k, side_k_epoch_start, side_mode, side_oi,
    side_pos_count, side_stale,
};
use crate::engine::positions::{abs_int, basis_side, m_inc_dust, m_set_basis};
use crate::engine::settle::{ins_pay, m_restart_warmup, m_use_insurance};

verus! {

pub open spec fn m_set_oi(m: EngineModel, s: Side, v: u128) -> EngineModel {
    match s {
        Side::Long => EngineModel { oi_eff_long_q: v, ..m },
        Side::Short => EngineModel { oi_eff_short_q: v, ..m },
    }
}

pub open spec fn m_set_a(m: EngineModel, s: Side, v: u128) -> EngineModel {
    match s {
        Side::Long => EngineModel { adl_mult_long: v, ..m },
        Side::Short => EngineModel { adl_mult_short: v, ..m },
    }
}

pub open spec fn m_set_k(m: EngineModel, s: Side, v: i128) -> EngineModel {
    match s {
        Side::Long => EngineModel { adl_coeff_long: v, ..m },
        Side::Short => EngineModel { adl_coeff_short: v, ..m },
    }
}

pub open spec fn m_set_mode(m: EngineModel, s: Side, v: SideMode) -> EngineModel {
    match s {
        Side::Long => EngineModel { side_mode_long: v, ..m },
        Side::Short => EngineModel { side_mode_short: v, ..m },
    }
}

pub open spec fn m_set_stale(m: EngineModel, s: Side, v: u64) -> EngineModel {
    match s {
        Side::Long => EngineModel { stale_account_count_long: v, ..m },
        Side::Short => EngineModel { stale_account_count_short: v, ..m },
    }
}

pub open spec fn m_inc_dust_by(m: EngineModel, s: Side, amt: u128) -> EngineModel {
    match s {
        Side::Long => EngineModel {
            phantom_dust_bound_long_q: u128_sat(m.phantom_dust_bound_long_q + amt),
            ..m
        },
        Side::Short => EngineModel {
            phantom_dust_bound_short_q: u128_sat(m.phantom_dust_bound_short_q + amt),
            ..m
        },
    }
}

pub open spec fn ctx_pending(c: InstructionContext, s: Side) -> InstructionContext {
    match s {
        Side::Long => InstructionContext { pending_reset_long: true, ..c },
        Side::Short => InstructionContext { pending_reset_short: true, ..c },
    }
}

/// Settlement of account `i` against its side: the new engine, or the error.
#[verifier::opaque]
pub open spec fn settle_side_spec(m: EngineModel, i: int) -> Result<EngineModel, RiskError> {
    let a = m.accounts[i];
    let basis = a.position_basis_q;
    if basis == 0 {
        Ok(m)
    } else if a.adl_a_basis == 0 {
        Err(RiskError::CorruptState)
    } else {
        let side = basis_side(basis);
        let absb = abs_int(basis as int);
        let den = a.adl_a_basis * 1_000_000;
        let same_epoch = a.adl_epoch_snap == side_epoch(m, side);
        if !same_epoch && side_mode(m, side) != SideMode::ResetPending {
            Err(RiskError::CorruptState)
        } else if !same_epoch && a.adl_epoch_snap + 1 != side_epoch(m, side) {
            Err(RiskError::CorruptState)
        } else if den > u128::MAX {
            Err(RiskError::Overflow)
        } else {
            let k_to = if same_epoch {
                side_k(m, side)
            } else {
                side_k_epoch_start(m, side)
            };
            let delta = (absb * (k_to - a.adl_k_snap)) / den;
            let new_pnl = a.pnl + delta;
            if !(i128::MIN < delta <= i128::MAX) || !(i128::MIN < new_pnl <= i128::MAX) {
                Err(RiskError::Overflow)
            } else if !same_epoch && side_stale(m, side) == 0 {
                Err(RiskError::CorruptState)
            } else {
                let m1 = m_set_pnl(m, i, new_pnl as i128);
                let m2 = if m1.accounts[i].reserved_pnl > a.reserved_pnl {
                    m_restart_warmup(m1, i)
                } else {
                    m1
                };
                if same_epoch {
                    if floor_div(absb, side_a(m, side) as int, a.adl_a_basis as int) == 0 {
                        let m3 = m_set_basis(m_inc_dust(m2, side), i, 0);
                        Ok(
                            m_put(
                                m3,
                                i,
                                Account {
                                    adl_a_basis: ADL_ONE,
                                    adl_k_snap: 0,
                                    adl_epoch_snap: 0,
                                    ..m3.accounts[i]
                                },
                            ),
                        )
                    } else {
                        Ok(
                            m_put(
                                m2,
                                i,
                                Account {
                                    adl_k_snap: side_k(m, side),
                                    adl_epoch_snap: side_epoch(m, side),
                                    ..m2.accounts[i]
                                },
                            ),
                        )
                    }
                } else {
                    let m3 = m_set_stale(
                        m_set_basis(m2, i, 0),
                        side,
                        (side_stale(m, side) - 1) as u64,
                    );
                    Ok(
                        m_put(
                            m3,
                            i,
                            Account {
                                adl_a_basis: ADL_ONE,
                                adl_k_snap: 0,
                                adl_epoch_snap: 0,
                                ..m3.accounts[i]
                            },
                        ),
                    )
                }
            }
        }
    }
}

/// Start of a full drain reset of side `s`.
pub open spec fn m_begin_reset(m: EngineModel, s: Side) -> EngineModel {
    match s {
        Side::Long => EngineModel {
            adl_epoch_start_k_long: m.adl_coeff_long,
            adl_epoch_long: (m.adl_epoch_long + 1) as u64,
            adl_mult_long: ADL_ONE,
            stale_account_count_long: m.stored_pos_count_long,
            phantom_dust_bound_long_q: 0,
            side_mode_long: SideMode::ResetPending,
            ..m
        },
        Side::Short => EngineModel {
            adl_epoch_start_k_short: m.adl_coeff_short,
            adl_epoch_short: (m.adl_epoch_short + 1) as u64,
            adl_mult_short: ADL_ONE,
            stale_account_count_short: m.stored_pos_count_short,
            phantom_dust_bound_short_q: 0,
            side_mode_short: SideMode::ResetPending,
            ..m
        },
    }
}

/// A reset-pending side with no OI, stale or stored positions is ready to reopen.
pub open spec fn side_ready(m: EngineModel, s: Side) -> bool {
    &&& side_mode(m, s) == SideMode::ResetPending
    &&& side_oi(m, s) == 0
    &&& side_stale(m, s) == 0
    &&& side_pos_count(m, s) == 0
}

pub open spec fn m_maybe_finalize(m: EngineModel) -> EngineModel {
    let m1 = if side_ready(m, Side::Long) {
        m_set_mode(m, Side::Long, SideMode::Normal)
    } else {
        m
    };
    if side_ready(m1, Side::Short) {
        m_set_mode(m1, Side::Short, SideMode::Normal)
    } else {
        m1
    }
}

/// Residual OI that the end-of-instruction dust rule may clear, if any.
pub open spec fn sched_clear(m: EngineModel) -> Option<bool> {
    let pl = m.stored_pos_count_long;
    let ps = m.stored_pos_count_short;
    let dl = m.phantom_dust_bound_long_q;
    let ds = m.phantom_dust_bound_short_q;
    let ol = m.oi_eff_long_q;
    let os = m.oi_eff_short_q;
    if pl == 0 && ps == 0 {
        if dl + ds > u128::MAX {
            None
        } else if ol != 0 || os != 0 || dl != 0 || ds != 0 {
            if ol != os || ol > dl + ds {
                None
            } else {
                Some(true)
            }
        } else {
            Some(false)
        }
    } else if pl == 0 && ps > 0 {
        if ol != 0 || os != 0 || dl != 0 {
            if ol != os || ol > dl {
                None
            } else {
                Some(true)
            }
        } else {
            Some(false)
        }
    } else if ps == 0 && pl > 0 {
        if ol != 0 || os != 0 || ds != 0 {
            if ol != os || os > ds {
                None
            } else {
                Some(true)
            }
        } else {
            Some(false)
        }
    } else {
        Some(false)
    }
}

/// End-of-instruction reset scheduling: engine and context, or `None` on
/// `CorruptState` (nothing changes then).
pub open spec fn sched_spec(m: EngineModel, c: InstructionContext) -> Option<
    (EngineModel, InstructionContext),
> {
    match sched_clear(m) {
        None => None,
        Some(clear) => {
            let m1 = if clear {
                EngineModel { oi_eff_long_q: 0, oi_eff_short_q: 0, ..m }
            } else {
                m
            };
            let c1 = if clear {
                InstructionContext { pending_reset_long: true, pending_reset_short: true }
            } else {
                c
            };
            let c2 = if m1.side_mode_long == SideMode::DrainOnly && m1.oi_eff_long_q == 0 {
                ctx_pending(c1, Side::Long)
            } else {
                c1
            };
            let c3 = if m1.side_mode_short == SideMode::DrainOnly && m1.oi_eff_short_q == 0 {
                ctx_pending(c2, Side::Short)
            } else {
                c2
            };
            Some((m1, c3))
        },
    }
}

/// Pending resets may start: each pending side has zero OI and room in its epoch.
pub open spec fn resets_startable(m: EngineModel, c: InstructionContext) -> bool {
    &&& m.adl_epoch_long < u64::MAX
    &&& m.adl_epoch_short < u64::MAX
    &&& (c.pending_reset_long && m.side_mode_long != SideMode::ResetPending) ==> m.oi_eff_long_q
        == 0
    &&& (c.pending_reset_short && m.side_mode_short != SideMode::ResetPending)
        ==> m.oi_eff_short_q == 0
}

pub open spec fn m_finalize_resets(m: EngineModel, c: InstructionContext) -> EngineModel {
    let m1 = if c.pending_reset_long && m.side_mode_long != SideMode::ResetPending {
        m_begin_reset(m, Side::Long)
    } else {
        m
    };
    let m2 = if c.pending_reset_short && m1.side_mode_short != SideMode::ResetPending {
        m_begin_reset(m1, Side::Short)
    } else {
        m1
    };
    m_maybe_finalize(m2)
}

/// The deficit share charged to the opposite side's K, when it fits;
/// `None` when A * POS_SCALE overflows.
pub open spec fn adl_k_spec(m: EngineModel, opp: Side, d_rem: int, oi: u128) -> Option<EngineModel> {
    let a_old = side_a(m, opp);
    if d_rem == 0 {
        Some(m)
    } else if a_old * POS_SCALE > u128::MAX {
        None
    } else {
        let dk = ceil_div(d_rem, a_old * POS_SCALE, oi as int);
        let k_new = side_k(m, opp) - dk;
        if dk <= i128::MAX && k_new >= i128::MIN {
            Some(m_set_k(m, opp, k_new as i128))
        } else {
            Some(m)
        }
    }
}

/// The opposite side after its OI drops from `oi` to `oi_post` (A shrinks
/// proportionally; a side whose A truncates to zero is drained).
pub open spec fn adl_a_spec(
    m: EngineModel,
    c: InstructionContext,
    liq: Side,
    opp: Side,
    a_old: u128,
    oi: u128,
    oi_post: u128,
    n: u64,
) -> (EngineModel, InstructionContext) {
    if oi_post == 0 {
        let m4 = m_set_oi(m, opp, 0);
        let c0 = ctx_pending(c, opp);
        let c1 = if side_oi(m4, liq) == 0 {
            ctx_pending(c0, liq)
        } else {
            c0
        };
        (m4, c1)
    } else {
        let a_cand = (a_old * oi_post) / (oi as int);
        let a_rem = (a_old * oi_post) % (oi as int);
        if a_cand > 0 {
            let m4 = m_set_oi(m_set_a(m, opp, a_cand as u128), opp, oi_post);
            let bound = u128_sat(n + (oi + n + a_old - 1) / (a_old as int));
            let m5 = if a_rem != 0 {
                m_inc_dust_by(m4, opp, bound)
            } else {
                m4
            };
            let m6 = if a_cand < MIN_A_SIDE {
                m_set_mode(m5, opp, SideMode::DrainOnly)
            } else {
                m5
            };
            (m6, c)
        } else {
            let m4 = m_set_oi(m_set_oi(m, opp, 0), liq, 0);
            (m4, ctx_pending(ctx_pending(c, opp), liq))
        }
    }
}

/// ADL after closing `q` on `liq` with deficit `d`: engine, context and result.
#[verifier::opaque]
pub open spec fn enqueue_adl_spec(
    m: EngineModel,
    c: InstructionContext,
    liq: Side,
    q: u128,
    d: u128,
) -> (EngineModel, InstructionContext, RiskResult<()>) {
    let opp = spec_opposite(liq);
    if q != 0 && side_oi(m, liq) < q {
        (m, c, Err(RiskError::CorruptState))
    } else {
        let m1 = if q != 0 {
            m_set_oi(m, liq, (side_oi(m, liq) - q) as u128)
        } else {
            m
        };
        let m2 = if d > 0 {
            m_use_insurance(m1, d)
        } else {
            m1
        };
        let d_rem = if d > 0 {
            d - ins_pay(m1, d)
        } else {
            0
        };
        let oi = side_oi(m2, opp);
        if oi == 0 {
            let c1 = if side_oi(m2, liq) == 0 {
                ctx_pending(ctx_pending(c, liq), opp)
            } else {
                c
            };
            (m2, c1, Ok(()))
        } else if q > oi {
            (m2, c, Err(RiskError::CorruptState))
        } else if side_pos_count(m2, opp) == 0 {
            let oi_post = (oi - q) as u128;
            let m3 = m_set_oi(m2, opp, oi_post);
            let c1 = if oi_post == 0 {
                let c0 = ctx_pending(c, opp);
                if side_oi(m3, liq) == 0 {
                    ctx_pending(c0, liq)
                } else {
                    c0
                }
            } else {
                c
            };
            (m3, c1, Ok(()))
        } else {
            match adl_k_spec(m2, opp, d_rem, oi) {
                None => (m2, c, Err(RiskError::Overflow)),
                Some(m3) => {
                    let t = adl_a_spec(
                        m3,
                        c,
                        liq,
                        opp,
                        side_a(m2, opp),
                        oi,
                        (oi - q) as u128,
                        side_pos_count(m2, opp),
                    );
                    (t.0, t.1, Ok(()))
                },
            }
        }
    }
}

proof fn lemma_a_cand_fits(a_old: int, oi_post: int, oi: int)
    requires
        0 <= a_old <= u128::MAX,
        0 <= oi_post <= oi,
        oi > 0,
    ensures
        0 <= (a_old * oi_post) / oi <= a_old,
{
    assert(a_old * oi_post <= a_old * oi) by (nonlinear_arith)
        requires
            0 <= a_old,
            oi_post <= oi,
    ;
    assert(a_old * oi_post >= 0) by (nonlinear_arith)
        requires
            0 <= a_old,
            0 <= oi_post,
    ;
    assert(a_old * oi == oi * a_old) by (nonlinear_arith);
    vstd::arithmetic::div_mod::lemma_div_is_ordered(a_old * oi_post, a_old * oi, oi);
    vstd::arithmetic::div_mod::lemma_div_multiples_vanish(a_old, oi);
    vstd::arithmetic::div_mod::lemma_div_pos_is_pos(a_old * oi_post, oi);
}

impl RiskEngine {
    /// Settles the A/K gains of account `idx` since its snapshot; the state
    /// is untouched when an error is returned.
    pub fn settle_side_effects(&mut self, idx: usize) -> (r: RiskResult<()>)
        requires
            old(self).wf(),
            idx < MAX_ACCOUNTS,
        ensures
            final(self)@.adl_epoch_long == old(self)@.adl_epoch_long && final(self)@.adl_epoch_short == old(self)@.adl_epoch_short,
            final(self).wf(),
            settle_side_spec(old(self)@, idx as int) matches Ok(m) ==> r is Ok && final(self)@
                == m,
            settle_side_spec(old(self)@, idx as int) matches Err(e) ==> r == Err::<(), RiskError>(
                e,
            ) && final(self)@ == old(self)@,
    {
        proof {
            reveal(settle_side_spec);
        }
        let acc = self.accounts[idx];
        let basis = acc.position_basis_q;
        if basis == 0 {
            return Ok(());
        }
        let side = if basis > 0 {
            Side::Long
        } else {
            Side::Short
        };
        let epoch_snap = acc.adl_epoch_snap;
        let epoch_side = self.get_epoch_side(side);
        let a_basis = acc.adl_a_basis;
        if a_basis == 0 {
            return Err(RiskError::CorruptState);
        }
        let abs_basis = crate::num::abs_i128(basis);
        let same_epoch = epoch_snap == epoch_side;
        if !same_epoch {
            if self.get_side_mode(side) != SideMode::ResetPending {
                return Err(RiskError::CorruptState);
            }
            if epoch_snap == u64::MAX || epoch_snap + 1 != epoch_side {
                return Err(RiskError::CorruptState);
            }
        }
        let den = match a_basis.checked_mul(1_000_000u128) {
            Some(v) => v,
            None => {
                return Err(RiskError::Overflow);
            },
        };
        let k_to = if same_epoch {
            self.get_k_side(side)
        } else {
            self.get_k_epoch_start(side)
        };
        let pnl_delta = match crate::wide_math::wide_signed_mul_div_floor_from_k_pair(
            abs_basis,
            acc.adl_k_snap,
            k_to,
            den,
        ) {
            Some(v) => v,
            None => {
                return Err(RiskError::Overflow);
            },
        };
        let old_pnl = acc.pnl;
        let new_pnl = match old_pnl.checked_add(pnl_delta) {
            Some(v) => v,
            None => {
                return Err(RiskError::Overflow);
            },
        };
        if new_pnl == i128::MIN {
            return Err(RiskError::Overflow);
        }
        let old_r = acc.reserved_pnl;
        if same_epoch {
            let a_side = self.get_a_side(side);
            let k_side = self.get_k_side(side);
            let q_eff_new = crate::wide_math::mul_div_floor_u128(abs_basis, a_side, a_basis);
            self.set_pnl(idx, new_pnl);
            if self.accounts[idx].reserved_pnl > old_r {
                self.restart_warmup_after_reserve_increase(idx);
            }
            if q_eff_new == 0 {
                self.inc_phantom_dust_bound(side);
                self.set_position_basis_q(idx, 0);
                let mut a2 = self.accounts[idx];
                a2.adl_a_basis = ADL_ONE;
                a2.adl_k_snap = 0;
                a2.adl_epoch_snap = 0;
                self.put_account(idx, a2);
            } else {
                let mut a2 = self.accounts[idx];
                a2.adl_k_snap = k_side;
                a2.adl_epoch_snap = epoch_side;
                self.put_account(idx, a2);
            }
        } else {
            let old_stale = self.get_stale_count(side);
            if old_stale == 0 {
                return Err(RiskError::CorruptState);
            }
            self.set_pnl(idx, new_pnl);
            if self.accounts[idx].reserved_pnl > old_r {
                self.restart_warmup_after_reserve_increase(idx);
            }
            self.set_position_basis_q(idx, 0);
            self.set_stale_count(side, old_stale - 1);
            let mut a2 = self.accounts[idx];
            a2.adl_a_basis = ADL_ONE;
            a2.adl_k_snap = 0;
            a2.adl_epoch_snap = 0;
            self.put_account(idx, a2);
        }
        Ok(())
    }

    /// Routes a liquidation deficit: insurance first, then the opposite
    /// side's K (ADL), shrinking its A in proportion to the closed OI.
    #[verifier::rlimit(60)]
    #[verifier::spinoff_prover]
    pub(crate) fn enqueue_adl(
        &mut self,
        ctx: &mut InstructionContext,
        liq_side: Side,
        q_close_q: u128,
        d: u128,
    ) -> (r: RiskResult<()>)
        ensures
            final(self)@ == enqueue_adl_spec(old(self)@, *old(ctx), liq_side, q_close_q, d).0,
            *final(ctx) == enqueue_adl_spec(old(self)@, *old(ctx), liq_side, q_close_q, d).1,
            r == enqueue_adl_spec(old(self)@, *old(ctx), liq_side, q_close_q, d).2,
    {
        proof {
            reveal(enqueue_adl_spec);
        }
        let opp = crate::engine::types::opposite_side(liq_side);
        if q_close_q != 0 {
            let old_oi = self.get_oi_eff(liq_side);
            if old_oi < q_close_q {
                return Err(RiskError::CorruptState);
            }
            self.set_oi_eff(liq_side, old_oi - q_close_q);
        }
        let d_rem = if d > 0 {
            self.use_insurance_buffer(d)
        } else {
            0u128
        };
        let oi = self.get_oi_eff(opp);
        if oi == 0 {
            if self.get_oi_eff(liq_side) == 0 {
                crate::engine::types::set_pending_reset(ctx, liq_side);
                crate::engine::types::set_pending_reset(ctx, opp);
            }
            return Ok(());
        }
        if q_close_q > oi {
            return Err(RiskError::CorruptState);
        }
        if self.get_stored_pos_count(opp) == 0 {
            let oi_post = oi - q_close_q;
            self.set_oi_eff(opp, oi_post);
            if oi_post == 0 {
                crate::engine::types::set_pending_reset(ctx, opp);
                if self.get_oi_eff(liq_side) == 0 {
                    crate::engine::types::set_pending_reset(ctx, liq_side);
                }
            }
            return Ok(());
        }
        let a_old = self.get_a_side(opp);
        let n_opp = self.get_stored_pos_count(opp);
        let oi_post = oi - q_close_q;
        match self.adl_charge_k(opp, d_rem, oi) {
            Ok(()) => {},
            Err(e) => {
                return Err(e);
            },
        }
        self.adl_shrink_a(ctx, liq_side, opp, a_old, oi, oi_post, n_opp);
        Ok(())
    }

    /// Charges the uninsured deficit to the opposite side's K when it fits.
    fn adl_charge_k(&mut self, opp: Side, d_rem: u128, oi: u128) -> (r: RiskResult<()>)
        requires
            oi > 0,
        ensures
            adl_k_spec(old(self)@, opp, d_rem as int, oi) matches Some(m) ==> r is Ok
                && final(self)@ == m,
            adl_k_spec(old(self)@, opp, d_rem as int, oi) is None ==> r == Err::<(), RiskError>(
                RiskError::Overflow,
            ) && final(self)@ == old(self)@,
    {
        if d_rem == 0 {
            return Ok(());
        }
        let a_old = self.get_a_side(opp);
        let a_ps = match a_old.checked_mul(POS_SCALE) {
            Some(v) => v,
            None => {
                return Err(RiskError::Overflow);
            },
        };
        match crate::wide_math::wide_mul_div_ceil_u128_or_over_i128max(d_rem, a_ps, oi) {
            Ok(delta_k_abs) => {
                let k_opp = self.get_k_side(opp);
                match k_opp.checked_sub(delta_k_abs as i128) {
                    Some(new_k) => {
                        self.set_k_side(opp, new_k);
                    },
                    None => {},
                }
            },
            Err(_) => {},
        }
        Ok(())
    }

    /// Shrinks the opposite side's A and OI after the close.
    fn adl_shrink_a(
        &mut self,
        ctx: &mut InstructionContext,
        liq: Side,
        opp: Side,
        a_old: u128,
        oi: u128,
        oi_post: u128,
        n_opp: u64,
    )
        requires
            oi > 0,
            oi_post <= oi,
            a_old == side_a(old(self)@, opp),
        ensures
            (final(self)@, *final(ctx)) == adl_a_spec(
                old(self)@,
                *old(ctx),
                liq,
                opp,
                a_old,
                oi,
                oi_post,
                n_opp,
            ),
    {
        if oi_post == 0 {
            self.set_oi_eff(opp, 0);
            crate::engine::types::set_pending_reset(ctx, opp);
            if self.get_oi_eff(liq) == 0 {
                crate::engine::types::set_pending_reset(ctx, liq);
            }
            return;
        }
        proof {
            lemma_a_cand_fits(a_old as int, oi_post as int, oi as int);
        }
        let (a_candidate, a_trunc_rem) = crate::wide_math::mul_div_floor_with_rem(
            a_old,
            oi_post,
            oi,
        );
        if a_candidate != 0 {
            self.set_a_side(opp, a_candidate);
            self.set_oi_eff(opp, oi_post);
            if a_trunc_rem != 0 {
                let n = n_opp as u128;
                let ceil_term = crate::wide_math::ceil_div_sum_saturating(oi, n, a_old);
                let bound = crate::num::sat_add_u128(n, ceil_term);
                self.inc_phantom_dust_bound_by(opp, bound);
            }
            if a_candidate < MIN_A_SIDE {
                self.set_side_mode(opp, SideMode::DrainOnly);
            }
            return;
        }
        self.set_oi_eff(opp, 0);
        self.set_oi_eff(liq, 0);
        crate::engine::types::set_pending_reset(ctx, opp);
        crate::engine::types::set_pending_reset(ctx, liq);
    }

    /// Opens a new epoch for `side`: snapshots K, resets A, marks every
    /// stored position stale and sets the side reset-pending.
    pub(crate) fn begin_full_drain_reset(&mut self, side: Side)
        requires
            side_oi(old(self)@, side) == 0,
            side_epoch(old(self)@, side) < u64::MAX,
        ensures
            final(self)@ == m_begin_reset(old(self)@, side),
    {
        match side {
            Side::Long => {
                self.adl_epoch_start_k_long = self.adl_coeff_long;
                self.adl_epoch_long = self.adl_epoch_long + 1;
                self.adl_mult_long = ADL_ONE;
                self.stale_account_count_long = self.stored_pos_count_long;
                self.phantom_dust_bound_long_q = 0;
                self.side_mode_long = SideMode::ResetPending;
            },
            Side::Short => {
                self.adl_epoch_start_k_short = self.adl_coeff_short;
                self.adl_epoch_short = self.adl_epoch_short + 1;
                self.adl_mult_short = ADL_ONE;
                self.stale_account_count_short = self.stored_pos_count_short;
                self.phantom_dust_bound_short_q = 0;
                self.side_mode_short = SideMode::ResetPending;
            },
        }
    }

    /// Reopens a reset-pending side once it holds nothing.
    pub(crate) fn finalize_side_reset(&mut self, side: Side) -> (r: RiskResult<()>)
        ensures
            side_ready(old(self)@, side) ==> r is Ok && final(self)@ == m_set_mode(
                old(self)@,
                side,
                SideMode::Normal,
            ),
            !side_ready(old(self)@, side) ==> r == Err::<(), RiskError>(RiskError::CorruptState)
                && final(self)@ == old(self)@,
    {
        if self.get_side_mode(side) != SideMode::ResetPending {
            return Err(RiskError::CorruptState);
        }
        if self.get_oi_eff(side) != 0 {
            return Err(RiskError::CorruptState);
        }
        if self.get_stale_count(side) != 0 {
            return Err(RiskError::CorruptState);
        }
        if self.get_stored_pos_count(side) != 0 {
            return Err(RiskError::CorruptState);
        }
        self.set_side_mode(side, SideMode::Normal);
        Ok(())
    }

    /// Clears residual dust OI of emptied sides and schedules their resets.
    pub(crate) fn schedule_end_of_instruction_resets(&mut self, ctx: &mut InstructionContext) -> (r:
        RiskResult<()>)
        ensures
            sched_spec(old(self)@, *old(ctx)) matches Some((m, c)) ==> r is Ok && final(self)@
                == m && *final(ctx) == c,
            sched_spec(old(self)@, *old(ctx)) is None ==> r == Err::<(), RiskError>(
                RiskError::CorruptState,
            ) && final(self)@ == old(self)@ && *final(ctx) == *old(ctx),
    {
        let pl = self.stored_pos_count_long;
        let ps = self.stored_pos_count_short;
        let dl = self.phantom_dust_bound_long_q;
        let ds = self.phantom_dust_bound_short_q;
        let ol = self.oi_eff_long_q;
        let os = self.oi_eff_short_q;
        let mut clear = false;
        if pl == 0 && ps == 0 {
            let clear_bound_q = match dl.checked_add(ds) {
                Some(v) => v,
                None => {
                    return Err(RiskError::CorruptState);
                },
            };
            if ol != 0 || os != 0 || dl != 0 || ds != 0 {
                if ol != os || ol > clear_bound_q {
                    return Err(RiskError::CorruptState);
                }
                clear = true;
            }
        } else if pl == 0 && ps > 0 {
            if ol != 0 || os != 0 || dl != 0 {
                if ol != os || ol > dl {
                    return Err(RiskError::CorruptState);
                }
                clear = true;
            }
        } else if ps == 0 && pl > 0 {
            if ol != 0 || os != 0 || ds != 0 {
                if ol != os || os > ds {
                    return Err(RiskError::CorruptState);
                }
                clear = true;
            }
        }
        if clear {
            self.oi_eff_long_q = 0;
            self.oi_eff_short_q = 0;
            ctx.pending_reset_long = true;
            ctx.pending_reset_short = true;
        }
        if self.side_mode_long == SideMode::DrainOnly && self.oi_eff_long_q == 0 {
            ctx.pending_reset_long = true;
        }
        if self.side_mode_short == SideMode::DrainOnly && self.oi_eff_short_q == 0 {
            ctx.pending_reset_short = true;
        }
        Ok(())
    }

    /// Starts the resets that were scheduled and reopens sides that are ready.
    pub(crate) fn finalize_end_of_instruction_resets(&mut self, ctx: &InstructionContext)
        requires
            resets_startable(old(self)@, *ctx),
        ensures
            final(self)@ == m_finalize_resets(old(self)@, *ctx),
    {
        if ctx.pending_reset_long && self.side_mode_long != SideMode::ResetPending {
            self.begin_full_drain_reset(Side::Long);
        }
        if ctx.pending_reset_short && self.side_mode_short != SideMode::ResetPending {
            self.begin_full_drain_reset(Side::Short);
        }
        self.maybe_finalize_ready_reset_sides();
    }

    /// Reopens each reset-pending side that holds no OI, stale or stored positions.
    pub(crate) fn maybe_finalize_ready_reset_sides(&mut self)
        ensures
            final(self)@ == m_maybe_finalize(old(self)@),
    {
        if self.side_mode_long == SideMode::ResetPending && self.get_oi_eff(Side::Long) == 0
            && self.get_stale_count(Side::Long) == 0 && self.get_stored_pos_count(Side::Long)
            == 0 {
            self.set_side_mode(Side::Long, SideMode::Normal);
        }
        if self.side_mode_short == SideMode::ResetPending && self.get_oi_eff(Side::Short) == 0
            && self.get_stale_count(Side::Short) == 0 && self.get_stored_pos_count(Side::Short)
            == 0 {
            self.set_side_mode(Side::Short, SideMode::Normal);
        }
    }

    /// End of every instruction: schedule and run side resets, then store
    /// the funding rate for the next interval.
    pub fn run_end_of_instruction_lifecycle(&mut self, ctx: &mut InstructionContext, funding_rate: i64) -> (r: RiskResult<()>)
        requires
            resets_startable(old(self)@, *old(ctx)),
        ensures
            !(-crate::engine::types::MAX_ABS_FUNDING_BPS_PER_SLOT <= funding_rate
                <= crate::engine::types::MAX_ABS_FUNDING_BPS_PER_SLOT) ==> r == Err::<(), RiskError>(
                RiskError::Overflow,
            ) && final(self)@ == old(self)@ && *final(ctx) == *old(ctx),
            (-crate::engine::types::MAX_ABS_FUNDING_BPS_PER_SLOT <= funding_rate
                <= crate::engine::types::MAX_ABS_FUNDING_BPS_PER_SLOT) ==> match sched_spec(
                old(self)@,
                *old(ctx),
            ) {
                None => r == Err::<(), RiskError>(RiskError::CorruptState) && final(self)@ == old(
                    self,
                )@ && *final(ctx) == *old(ctx),
                Some((m, c)) => r is Ok && *final(ctx) == c && final(self)@ == (EngineModel {
                    funding_rate_bps_per_slot_last: funding_rate,
                    ..m_finalize_resets(m, c)
                }),
            },
    {
        match Self::validate_funding_rate(funding_rate) {
            Ok(()) => {},
            Err(e) => {
                return Err(e);
            },
        }
        match self.schedule_end_of_instruction_resets(ctx) {
            Ok(()) => {},
            Err(e) => {
                return Err(e);
            },
        }
        self.finalize_end_of_instruction_resets(ctx);
        match self.recompute_r_last_from_final_state(funding_rate) {
            Ok(()) => {},
            Err(e) => {
                return Err(e);
            },
        }
        Ok(())
    }
}

} // verus!
