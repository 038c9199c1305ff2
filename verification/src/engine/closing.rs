//! Account closing paths: user close, resolved-market force close, empty
//! account reclaim and the dust collector.
use vstd::prelude::*;
use crate::num::{u128_sat, I128, U128};
use crate::wide_math::floor_div;
use crate::engine::types::{
    Account, InsuranceFund, RiskError, RiskResult, Side, ADL_ONE, KIND_LP, MAX_ACCOUNTS,
    POS_SCALE,
};
use crate::engine::state::{EngineModel, RiskEngine};
use crate::engine::ledger::{
    haircut_spec, m_consume_released, m_put, m_set_capital, m_set_pnl, m_set_reserved, released_of,
    side_epoch, side_k, side_k_epoch_start, side_stale,
};
use crate::engine::positions::{abs_int, basis_side, eff_pos_spec, m_set_basis};
use crate::engine::settle::{
    m_fee_debt_sweep, m_maint_fee, m_resolve_flat_negative, m_restart_warmup, m_settle_losses,
};
use crate::engine::sides::{m_set_oi, m_set_stale};
use crate::engine::account_ops::{m_maint_coupon, touch_full_spec};
use crate::engine::slots::m_free;

verus! {

/// One slot visited by the dust collector: the engine and whether the slot
/// was queued for freeing. A used non-LP account is dust when, after its
/// maintenance fee, it is flat with no capital, no reserve and PnL <= 0; a
/// negative PnL is first absorbed through the flat-negative resolution, and
/// the slot is queued only once its PnL is zero.
pub open spec fn gc_visit(m: EngineModel, idx: int) -> (EngineModel, bool) {
    if !m.is_used(idx) || m.accounts[idx].kind == KIND_LP {
        (m, false)
    } else {
        let m1 = m_maint_coupon(m, idx, m.current_slot).0;
        let a = m1.accounts[idx];
        if a.position_size != 0 || a.capital.0 != 0 || a.reserved_pnl != 0 || a.pnl > 0 || a.pnl
            == i128::MIN {
            (m1, false)
        } else {
            let m2 = if a.pnl < 0 {
                m_resolve_flat_negative(m1, idx)
            } else {
                m1
            };
            let a2 = m2.accounts[idx];
            if a2.pnl != 0 {
                (m2, false)
            } else {
                (
                    m_put(
                        m2,
                        idx,
                        Account {
                            funding_index: m2.funding_index_qpb_e6,
                            fee_credits: if a2.fee_credits.0 < 0 {
                                I128(0)
                            } else {
                                a2.fee_credits
                            },
                            ..a2
                        },
                    ),
                    true,
                )
            }
        }
    }
}

/// The collector's scan from `offset` on: engine, offsets scanned, queue.
pub open spec fn gc_scan(m: EngineModel, start: int, offset: int, queue: Seq<u16>) -> (
    EngineModel,
    int,
    Seq<u16>,
)
    decreases MAX_ACCOUNTS - offset,
{
    if offset >= MAX_ACCOUNTS || queue.len() >= 32 {
        (m, offset, queue)
    } else {
        let idx = (start + offset) % (MAX_ACCOUNTS as int);
        let (m1, q) = gc_visit(m, idx);
        gc_scan(
            m1,
            start,
            offset + 1,
            if q {
                queue.push(idx as u16)
            } else {
                queue
            },
        )
    }
}

/// Frees the queued slots in order.
pub open spec fn gc_free_all(m: EngineModel, q: Seq<u16>) -> EngineModel
    decreases q.len(),
{
    if q.len() == 0 {
        m
    } else {
        gc_free_all(m_free(m, q[0] as int), q.drop_first())
    }
}

/// The dust collector: the engine after it and the number of slots freed.
pub open spec fn gc_spec(m: EngineModel) -> (EngineModel, int) {
    let start = m.gc_cursor as int;
    let (m1, scanned, q) = gc_scan(m, start, 0, Seq::empty());
    let m2 = EngineModel { gc_cursor: ((start + scanned) % (MAX_ACCOUNTS as int)) as u16, ..m1 };
    (gc_free_all(m2, q), q.len() as int)
}

/// Fee-debt forgiveness and the capital payout that end a close.
pub open spec fn m_payout(m: EngineModel, i: int) -> EngineModel {
    let a = m.accounts[i];
    let m1 = if a.fee_credits.0 < 0 {
        m_put(m, i, Account { fee_credits: I128(0), ..a })
    } else {
        m
    };
    let cap = m1.accounts[i].capital.0;
    m_set_capital(EngineModel { vault: U128((m1.vault.0 - cap) as u128), ..m1 }, i, 0)
}

/// User account close: full touch, then the flat, zero-PnL and no-fee-debt
/// checks (`InsufficientBalance` while fees are owed), payout and release of
/// the slot.
pub open spec fn close_account_spec(m: EngineModel, idx: u16, now: u64, price: u64) -> (
    EngineModel,
    RiskResult<u128>,
) {
    let m0 = EngineModel { current_slot: now, ..m };
    let i = idx as int;
    if idx >= MAX_ACCOUNTS || !m0.is_used(i) {
        (m0, Err(RiskError::AccountNotFound))
    } else {
        let (m1, r1) = touch_full_spec(m0, i, now, price);
        let a = m1.accounts[i];
        match r1 {
            Err(e) => (m1, Err(e)),
            Ok(_) => if a.position_size != 0 {
                (m1, Err(RiskError::Undercollateralized))
            } else if a.pnl > 0 {
                (m1, Err(RiskError::PnlNotWarmedUp))
            } else if a.pnl < 0 {
                (m1, Err(RiskError::Undercollateralized))
            } else if a.fee_credits.0 < 0 {
                (m1, Err(RiskError::InsufficientBalance))
            } else if a.capital.0 > m1.vault.0 {
                (m1, Err(RiskError::InsufficientBalance))
            } else {
                (m_free(m_payout(m1, i), i), Ok(a.capital.0))
            },
        }
    }
}

/// Position settlement of a resolved-market close: the K-pair PnL is
/// realized, the OI released and the position zeroed.
pub open spec fn resolved_position_spec(m: EngineModel, i: int) -> Result<EngineModel, RiskError> {
    let a = m.accounts[i];
    let basis = a.position_basis_q;
    if basis == 0 {
        Ok(m)
    } else if a.adl_a_basis == 0 {
        Err(RiskError::CorruptState)
    } else {
        let side = basis_side(basis);
        let same = a.adl_epoch_snap == side_epoch(m, side);
        let k_end = if same {
            side_k(m, side)
        } else {
            side_k_epoch_start(m, side)
        };
        let den = a.adl_a_basis * POS_SCALE;
        if den > u128::MAX {
            Err(RiskError::Overflow)
        } else {
            let delta = (abs_int(basis as int) * (k_end - a.adl_k_snap)) / den;
            let new_pnl = a.pnl + delta;
            let eff = eff_pos_spec(m, i);
            if !(i128::MIN < delta <= i128::MAX) || !(i128::MIN < new_pnl <= i128::MAX) {
                Err(RiskError::Overflow)
            } else if (eff > 0 && m.oi_eff_long_q < eff) || (eff < 0 && m.oi_eff_short_q < -eff) {
                Err(RiskError::CorruptState)
            } else if !same && (a.adl_epoch_snap + 1 != side_epoch(m, side) || side_stale(m, side)
                == 0) {
                Err(RiskError::CorruptState)
            } else {
                let m1 = if delta != 0 {
                    let t = m_set_pnl(m, i, new_pnl as i128);
                    if t.accounts[i].reserved_pnl > a.reserved_pnl {
                        m_restart_warmup(t, i)
                    } else {
                        t
                    }
                } else {
                    m
                };
                let m2 = if !same {
                    m_set_stale(m1, side, (side_stale(m, side) - 1) as u64)
                } else {
                    m1
                };
                let m3 = if eff > 0 {
                    m_set_oi(m2, Side::Long, (m.oi_eff_long_q - eff) as u128)
                } else if eff < 0 {
                    m_set_oi(m2, Side::Short, (m.oi_eff_short_q + eff) as u128)
                } else {
                    m2
                };
                let m4 = m_set_basis(m3, i, 0);
                Ok(
                    m_put(
                        m4,
                        i,
                        Account {
                            adl_a_basis: ADL_ONE,
                            adl_k_snap: 0,
                            adl_epoch_snap: 0,
                            ..m4.accounts[i]
                        },
                    ),
                )
            }
        }
    }
}

/// Profit conversion of a resolved-market close, bypassing warmup.
pub open spec fn m_resolved_profit(m: EngineModel, i: int) -> EngineModel {
    if m.accounts[i].pnl <= 0 {
        m
    } else {
        let m1 = m_set_reserved(m, i, 0);
        let rel = released_of(m1.accounts[i].pnl, m1.accounts[i].reserved_pnl);
        if rel > 0 {
            let h = haircut_spec(m1);
            let y = floor_div(rel, h.0, h.1);
            let m2 = m_consume_released(m1, i, rel as u128);
            m_set_capital(m2, i, u128_sat(m2.accounts[i].capital.0 + y))
        } else {
            m1
        }
    }
}

/// The resolved-market force close after the position is settled: losses,
/// flat-negative absorption, maintenance fees through `slot`, profit,
/// fee-debt sweep and forgiveness, payout and slot release.
pub open spec fn resolved_tail_spec(m: EngineModel, i: int, slot: u64) -> (
    EngineModel,
    RiskResult<u128>,
) {
    let m1 = m_resolve_flat_negative(m_settle_losses(m, i), i);
    let (m2, ok) = m_maint_fee(m1, i, slot);
    if !ok {
        (m2, Err(RiskError::Overflow))
    } else {
        let m3 = m_fee_debt_sweep(m_resolved_profit(m2, i), i);
        let a = m3.accounts[i];
        let m4 = if a.fee_credits.0 < 0 {
            m_put(m3, i, Account { fee_credits: I128(0), ..a })
        } else {
            m3
        };
        if a.capital.0 > m4.vault.0 {
            (m4, Err(RiskError::InsufficientBalance))
        } else {
            (m_free(m_payout(m3, i), i), Ok(a.capital.0))
        }
    }
}

pub open spec fn force_close_resolved_spec(m: EngineModel, idx: u16) -> (
    EngineModel,
    RiskResult<u128>,
) {
    let i = idx as int;
    if idx >= MAX_ACCOUNTS || !m.is_used(i) {
        (m, Err(RiskError::AccountNotFound))
    } else {
        match resolved_position_spec(m, i) {
            Err(e) => (m, Err(e)),
            Ok(m1) => resolved_tail_spec(m1, i, m.current_slot),
        }
    }
}

impl RiskEngine {
    fn gc_visit_slot(&mut self, idx: usize) -> (queued: bool)
        requires
            old(self).wf(),
            idx < MAX_ACCOUNTS,
        ensures
            final(self).wf(),
            (final(self)@, queued) == gc_visit(old(self)@, idx as int),
    {
        if !self.is_used(idx) {
            return false;
        }
        if self.accounts[idx].is_lp() {
            return false;
        }
        let now = self.current_slot;
        let _ = self.settle_maintenance_fee_best_effort_for_crank(idx as u16, now);
        let a = self.accounts[idx];
        if a.position_size != 0 || a.capital.0 != 0 || a.reserved_pnl != 0 {
            return false;
        }
        if a.pnl > 0 || a.pnl == i128::MIN {
            return false;
        }
        if a.pnl < 0 {
            self.resolve_flat_negative(idx);
        }
        if self.accounts[idx].pnl != 0 {
            return false;
        }
        let mut a2 = self.accounts[idx];
        a2.funding_index = self.funding_index_qpb_e6;
        if a2.fee_credits.0 < 0 {
            a2.fee_credits = I128(0);
        }
        self.put_account(idx, a2);
        true
    }

    /// Frees up to 32 non-LP dust accounts (flat, no capital, no reserve,
    /// PnL <= 0 with a negative PnL absorbed first) found scanning from the
    /// cursor; fee debt is forgiven. Returns how many were freed.
    pub fn garbage_collect_dust(&mut self) -> (r: u32)
        requires
            old(self).wf(),
        ensures
            final(self).wf(),
            final(self)@ == gc_spec(old(self)@).0,
            r == gc_spec(old(self)@).1,
    {
        let start = self.gc_cursor as usize;
        let ghost m_init = self@;
        let ghost target = gc_scan(self@, start as int, 0, Seq::empty());
        let mut to_free: Vec<u16> = Vec::new();
        let mut offset: usize = 0;
        while offset < MAX_ACCOUNTS && to_free.len() < 32
            invariant
                self.wf(),
                offset <= MAX_ACCOUNTS,
                to_free@.len() <= 32,
                target == gc_scan(self@, start as int, offset as int, to_free@),
                start == m_init.gc_cursor,
                self@.gc_cursor == m_init.gc_cursor,
                forall|k: int| 0 <= k < to_free@.len() ==> #[trigger] to_free@[k] < MAX_ACCOUNTS,
            decreases MAX_ACCOUNTS - offset,
        {
            let idx = (start + offset) % MAX_ACCOUNTS;
            let q = self.gc_visit_slot(idx);
            if q {
                to_free.push(idx as u16);
            }
            offset = offset + 1;
        }
        let ghost q_all = to_free@;
        let ghost m_scanned = self@;
        proof {
            assert(target == (m_scanned, offset as int, q_all));
        }
        self.gc_cursor = ((start + offset) % MAX_ACCOUNTS) as u16;
        proof {
            assert(self@ == (EngineModel {
                gc_cursor: ((start + offset) % (MAX_ACCOUNTS as int)) as u16,
                ..m_scanned
            }));
            assert(q_all.skip(0) =~= q_all);
        }
        let mut k: usize = 0;
        let n = to_free.len();
        while k < n
            invariant
                self.wf(),
                k <= n,
                n == to_free@.len(),
                to_free@ == q_all,
                forall|j: int| 0 <= j < to_free@.len() ==> #[trigger] to_free@[j] < MAX_ACCOUNTS,
                gc_free_all(self@, q_all.skip(k as int)) == gc_spec(m_init).0,
            decreases n - k,
        {
            proof {
                assert(q_all.skip(k as int).drop_first() =~= q_all.skip(k + 1));
            }
            self.free_slot(to_free[k]);
            k = k + 1;
        }
        proof {
            assert(q_all.skip(n as int) =~= Seq::<u16>::empty());
        }
        n as u32
    }

    fn payout(&mut self, i: usize) -> (cap: u128)
        requires
            old(self).wf(),
            i < MAX_ACCOUNTS,
            old(self)@.accounts[i as int].capital.0 <= old(self)@.vault.0,
        ensures
            final(self).wf(),
            final(self)@ == m_payout(old(self)@, i as int),
            cap == old(self)@.accounts[i as int].capital.0,
    {
        let mut a = self.accounts[i];
        if a.fee_credits.0 < 0 {
            a.fee_credits = I128(0);
            self.put_account(i, a);
        }
        let capital = self.accounts[i].capital.0;
        self.vault = U128(self.vault.0 - capital);
        self.set_capital(i, 0);
        capital
    }

    /// Closes a flat, fully settled account with zero PnL: forgives fee
    /// debt, pays out its capital and frees the slot.
    pub fn close_account(&mut self, idx: u16, now_slot: u64, oracle_price: u64) -> (r: RiskResult<u128>)
        requires
            old(self).wf(),
        ensures
            final(self).wf(),
            final(self)@ == close_account_spec(old(self)@, idx, now_slot, oracle_price).0,
            r == close_account_spec(old(self)@, idx, now_slot, oracle_price).1,
    {
        self.current_slot = now_slot;
        if idx as usize >= MAX_ACCOUNTS || !self.is_used(idx as usize) {
            return Err(RiskError::AccountNotFound);
        }
        match self.touch_account_full(idx, now_slot, oracle_price) {
            Ok(()) => {},
            Err(e) => {
                return Err(e);
            },
        }
        let i = idx as usize;
        let a = self.accounts[i];
        if a.position_size != 0 {
            return Err(RiskError::Undercollateralized);
        }
        if a.pnl > 0 {
            return Err(RiskError::PnlNotWarmedUp);
        }
        if a.pnl < 0 {
            return Err(RiskError::Undercollateralized);
        }
        if a.fee_credits.0 < 0 {
            return Err(RiskError::InsufficientBalance);
        }
        if a.capital.0 > self.vault.0 {
            return Err(RiskError::InsufficientBalance);
        }
        let capital = self.payout(i);
        self.free_slot(idx);
        Ok(capital)
    }

    /// Position settlement of a resolved-market close.
    #[verifier::rlimit(100)]
    #[verifier::spinoff_prover]
    fn settle_resolved_position(&mut self, i: usize) -> (r: RiskResult<()>)
        requires
            old(self).wf(),
            i < MAX_ACCOUNTS,
        ensures
            final(self).wf(),
            resolved_position_spec(old(self)@, i as int) matches Ok(m) ==> r is Ok && final(self)@ == m,
            resolved_position_spec(old(self)@, i as int) matches Err(e) ==> r == Err::<(), RiskError>(e)
                && final(self)@ == old(self)@,
            r is Ok && old(self)@.accounts[i as int].position_basis_q != 0 ==> final(self)@.accounts[i as int].pnl
                != i128::MIN,
    {
        let a = self.accounts[i];
        let basis = a.position_basis_q;
        if basis == 0 {
            return Ok(());
        }
        let abs_basis = crate::num::abs_i128(basis);
        let a_basis = a.adl_a_basis;
        let side = if basis > 0 {
            Side::Long
        } else {
            Side::Short
        };
        let epoch_snap = a.adl_epoch_snap;
        let epoch_side = self.get_epoch_side(side);
        if a_basis == 0 {
            return Err(RiskError::CorruptState);
        }
        let k_end = if epoch_snap == epoch_side {
            self.get_k_side(side)
        } else {
            self.get_k_epoch_start(side)
        };
        let den = match a_basis.checked_mul(POS_SCALE) {
            Some(v) => v,
            None => {
                return Err(RiskError::Overflow);
            },
        };
        let pnl_delta = match crate::wide_math::wide_signed_mul_div_floor_from_k_pair(
            abs_basis,
            a.adl_k_snap,
            k_end,
            den,
        ) {
            Some(v) => v,
            None => {
                return Err(RiskError::Overflow);
            },
        };
        let new_pnl = match a.pnl.checked_add(pnl_delta) {
            Some(v) => v,
            None => {
                return Err(RiskError::Overflow);
            },
        };
        if new_pnl == i128::MIN {
            return Err(RiskError::Overflow);
        }
        let eff = self.effective_pos_q(i);
        if eff > 0 {
            if self.oi_eff_long_q < eff as u128 {
                return Err(RiskError::CorruptState);
            }
        } else if eff < 0 {
            if self.oi_eff_short_q < crate::num::abs_i128(eff) {
                return Err(RiskError::CorruptState);
            }
        }
        if epoch_snap != epoch_side {
            if epoch_snap == u64::MAX || epoch_snap + 1 != epoch_side {
                return Err(RiskError::CorruptState);
            }
            if self.get_stale_count(side) == 0 {
                return Err(RiskError::CorruptState);
            }
        }
        if pnl_delta != 0 {
            let old_r = a.reserved_pnl;
            self.set_pnl(i, new_pnl);
            if self.accounts[i].reserved_pnl > old_r {
                self.restart_warmup_after_reserve_increase(i);
            }
        }
        if epoch_snap != epoch_side {
            let old_stale = self.get_stale_count(side);
            self.set_stale_count(side, old_stale - 1);
        }
        if eff > 0 {
            self.oi_eff_long_q = self.oi_eff_long_q - (eff as u128);
        } else if eff < 0 {
            self.oi_eff_short_q = self.oi_eff_short_q - crate::num::abs_i128(eff);
        }
        self.set_position_basis_q(i, 0);
        let mut a2 = self.accounts[i];
        a2.adl_a_basis = ADL_ONE;
        a2.adl_k_snap = 0;
        a2.adl_epoch_snap = 0;
        self.put_account(i, a2);
        Ok(())
    }

    fn resolved_profit(&mut self, i: usize)
        requires
            old(self).wf(),
            i < MAX_ACCOUNTS,
        ensures
            final(self).wf(),
            final(self)@ == m_resolved_profit(old(self)@, i as int),
    {
        if self.accounts[i].pnl > 0 {
            self.set_reserved_pnl(i, 0);
            let released = self.released_pos(i);
            if released > 0 {
                let (h_num, h_den) = self.haircut_ratio();
                proof {
                    let h = haircut_spec(self@);
                    assert(0 <= h.0 <= h.1 && h.1 >= 1);
                    assert(released * h_num <= released * h_den) by (nonlinear_arith)
                        requires
                            h_num <= h_den,
                    ;
                    assert(released * h_den == h_den * released) by (nonlinear_arith);
                    vstd::arithmetic::div_mod::lemma_div_is_ordered(
                        (released * h_num) as int,
                        (released * h_den) as int,
                        h_den as int,
                    );
                    vstd::arithmetic::div_mod::lemma_div_multiples_vanish(released as int, h_den as int);
                }
                let y = crate::wide_math::wide_mul_div_floor_u128(released, h_num, h_den);
                self.consume_released_pnl(i, released);
                let new_cap = crate::num::sat_add_u128(self.accounts[i].capital.0, y);
                self.set_capital(i, new_cap);
            }
        }
    }

    #[verifier::rlimit(60)]
    fn resolved_tail(&mut self, idx: u16, slot: u64) -> (r: RiskResult<u128>)
        requires
            old(self).wf(),
            idx < MAX_ACCOUNTS,
            old(self)@.accounts[idx as int].pnl != i128::MIN,
        ensures
            final(self).wf(),
            final(self)@ == resolved_tail_spec(old(self)@, idx as int, slot).0,
            r == resolved_tail_spec(old(self)@, idx as int, slot).1,
    {
        let i = idx as usize;
        self.settle_losses(i);
        self.resolve_flat_negative(i);
        match self.settle_maintenance_fee_internal(i, slot) {
            Ok(()) => {},
            Err(e) => {
                return Err(e);
            },
        }
        self.resolved_profit(i);
        self.fee_debt_sweep(i);
        let a = self.accounts[i];
        if a.capital.0 > self.vault.0 {
            if a.fee_credits.0 < 0 {
                let mut a2 = a;
                a2.fee_credits = I128(0);
                self.put_account(i, a2);
            }
            return Err(RiskError::InsufficientBalance);
        }
        let capital = self.payout(i);
        self.free_slot(idx);
        Ok(capital)
    }

    /// Force-closes an account of a resolved market: settles its K-pair PnL
    /// and zeroes the position, settles losses and fees, converts profit
    /// without warmup, forgives remaining fee debt, pays out and frees it.
    pub fn force_close_resolved(&mut self, idx: u16) -> (r: RiskResult<u128>)
        requires
            old(self).wf(),
            idx < MAX_ACCOUNTS && old(self)@.accounts[idx as int].position_basis_q == 0 ==> old(
                self,
            )@.accounts[idx as int].pnl != i128::MIN,
        ensures
            final(self).wf(),
            final(self)@ == force_close_resolved_spec(old(self)@, idx).0,
            r == force_close_resolved_spec(old(self)@, idx).1,
    {
        if idx as usize >= MAX_ACCOUNTS || !self.is_used(idx as usize) {
            return Err(RiskError::AccountNotFound);
        }
        let slot = self.current_slot;
        match self.settle_resolved_position(idx as usize) {
            Ok(()) => {},
            Err(e) => {
                return Err(e);
            },
        }
        self.resolved_tail(idx, slot)
    }
}


/// Force close on a resolved market anchored at `resolved_slot`: the slot
/// moves to the resolution slot (which may not lie before the current slot),
/// then the resolved-market close runs with fees realized through it.
pub open spec fn force_close_na_spec(m: EngineModel, idx: u16, resolved_slot: u64) -> (
    EngineModel,
    RiskResult<u128>,
) {
    if idx >= MAX_ACCOUNTS || !m.is_used(idx as int) {
        (m, Err(RiskError::AccountNotFound))
    } else if resolved_slot < m.current_slot {
        (m, Err(RiskError::Overflow))
    } else {
        force_close_resolved_spec(EngineModel { current_slot: resolved_slot, ..m }, idx)
    }
}

impl RiskEngine {
    /// Force-closes an account of a resolved market anchored at
    /// `resolved_slot`; on success the slot is free.
    pub fn force_close_resolved_not_atomic(&mut self, idx: u16, resolved_slot: u64) -> (r:
        RiskResult<u128>)
        requires
            old(self).wf(),
            idx < MAX_ACCOUNTS && old(self)@.accounts[idx as int].position_basis_q == 0 ==> old(
                self,
            )@.accounts[idx as int].pnl != i128::MIN,
        ensures
            final(self).wf(),
            (final(self)@, r) == force_close_na_spec(old(self)@, idx, resolved_slot),
            r matches Ok(c) ==> !final(self)@.is_used(idx as int),
    {
        if idx as usize >= MAX_ACCOUNTS || !self.is_used(idx as usize) {
            return Err(RiskError::AccountNotFound);
        }
        if resolved_slot < self.current_slot {
            return Err(RiskError::Overflow);
        }
        self.current_slot = resolved_slot;
        let ghost m0 = self@;
        let r = self.force_close_resolved(idx);
        proof {
            if r is Ok {
                let m1 = match resolved_position_spec(m0, idx as int) {
                    Ok(x) => x,
                    Err(_) => m0,
                };
                let m3 = m_fee_debt_sweep(
                    m_resolved_profit(
                        m_maint_fee(
                            m_resolve_flat_negative(m_settle_losses(m1, idx as int), idx as int),
                            idx as int,
                            m0.current_slot,
                        ).0,
                        idx as int,
                    ),
                    idx as int,
                );
                crate::engine::slots::lemma_free_clears_slot(m_payout(m3, idx as int), idx as int);
            }
        }
        r
    }
}
} // verus!
