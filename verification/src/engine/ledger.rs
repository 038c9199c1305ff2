//! Aggregate-maintaining setters, side-state accessors and the haircut.
use vstd::prelude::*;
use crate::num::{u128_sat, I128, U128};
use crate::engine::types::{Account, Side, SideMode, ADL_ONE, MAX_ACCOUNTS};
use crate::engine::state::{EngineModel, RiskEngine};

verus! {

pub open spec fn pos_part(v: i128) -> int {
    if v > 0 {
        v as int
    } else {
        0
    }
}

pub open spec fn min_int(a: int, b: int) -> int {
    if a <= b {
        a
    } else {
        b
    }
}

pub open spec fn max_int(a: int, b: int) -> int {
    if a >= b {
        a
    } else {
        b
    }
}

/// Matured (released) part of positive PnL: max(PNL, 0) - R, floored at zero.
pub open spec fn released_of(pnl: i128, r: u128) -> int {
    max_int(pos_part(pnl) - r, 0)
}

/// Reserve after a PnL change: gains go to the reserve first, losses drain
/// the released part first and then the reserve.
pub open spec fn reserve_after_pnl(old_pnl: i128, old_r: u128, new_pnl: i128) -> int {
    let old_pos = pos_part(old_pnl);
    let new_pos = pos_part(new_pnl);
    if new_pos > old_pos {
        min_int(old_r + (new_pos - old_pos), new_pos)
    } else {
        let loss = old_pos - new_pos;
        let rel_loss = min_int(loss, released_of(old_pnl, old_r));
        min_int(max_int(old_r - (loss - rel_loss), 0), new_pos)
    }
}

pub open spec fn side_a(e: EngineModel, s: Side) -> u128 {
    match s {
        Side::Long => e.adl_mult_long,
        Side::Short => e.adl_mult_short,
    }
}

pub open spec fn side_k(e: EngineModel, s: Side) -> i128 {
    match s {
        Side::Long => e.adl_coeff_long,
        Side::Short => e.adl_coeff_short,
    }
}

pub open spec fn side_epoch(e: EngineModel, s: Side) -> u64 {
    match s {
        Side::Long => e.adl_epoch_long,
        Side::Short => e.adl_epoch_short,
    }
}

pub open spec fn side_k_epoch_start(e: EngineModel, s: Side) -> i128 {
    match s {
        Side::Long => e.adl_epoch_start_k_long,
        Side::Short => e.adl_epoch_start_k_short,
    }
}

pub open spec fn side_mode(e: EngineModel, s: Side) -> SideMode {
    match s {
        Side::Long => e.side_mode_long,
        Side::Short => e.side_mode_short,
    }
}

pub open spec fn side_oi(e: EngineModel, s: Side) -> u128 {
    match s {
        Side::Long => e.oi_eff_long_q,
        Side::Short => e.oi_eff_short_q,
    }
}

pub open spec fn side_stale(e: EngineModel, s: Side) -> u64 {
    match s {
        Side::Long => e.stale_account_count_long,
        Side::Short => e.stale_account_count_short,
    }
}

pub open spec fn side_pos_count(e: EngineModel, s: Side) -> u64 {
    match s {
        Side::Long => e.stored_pos_count_long,
        Side::Short => e.stored_pos_count_short,
    }
}

/// Haircut numerator: min(Residual, matured total) where
/// Residual = max(0, V - C_tot - I - I_isolated); (1, 1) when nothing matured.
pub open spec fn haircut_spec(e: EngineModel) -> (int, int) {
    if e.pnl_matured_pos_tot == 0 {
        (1, 1)
    } else {
        let residual = max_int(
            max_int(e.vault.0 - e.c_tot.0, 0) - (e.insurance_fund.balance.0
                + e.insurance_fund.isolated_balance.0),
            0,
        );
        (min_int(residual, e.pnl_matured_pos_tot as int), e.pnl_matured_pos_tot as int)
    }
}

pub open spec fn m_set_pnl(m: EngineModel, i: int, new_pnl: i128) -> EngineModel {
    let a = m.accounts[i];
    let new_r = reserve_after_pnl(a.pnl, a.reserved_pnl, new_pnl);
    EngineModel {
        accounts: m.accounts.update(i, Account { pnl: new_pnl, reserved_pnl: new_r as u128, ..a }),
        pnl_pos_tot: u128_sat(m.pnl_pos_tot + pos_part(new_pnl) - pos_part(a.pnl)),
        pnl_matured_pos_tot: u128_sat(
            m.pnl_matured_pos_tot + (pos_part(new_pnl) - new_r) - released_of(a.pnl, a.reserved_pnl),
        ),
        ..m
    }
}

pub open spec fn m_set_reserved(m: EngineModel, i: int, new_r: u128) -> EngineModel {
    let a = m.accounts[i];
    let r = min_int(new_r as int, pos_part(a.pnl));
    EngineModel {
        accounts: m.accounts.update(i, Account { reserved_pnl: r as u128, ..a }),
        pnl_matured_pos_tot: u128_sat(
            m.pnl_matured_pos_tot + (pos_part(a.pnl) - r) - released_of(a.pnl, a.reserved_pnl),
        ),
        ..m
    }
}

pub open spec fn m_consume_released(m: EngineModel, i: int, x: u128) -> EngineModel {
    let a = m.accounts[i];
    let xc = min_int(x as int, released_of(a.pnl, a.reserved_pnl));
    EngineModel {
        accounts: m.accounts.update(i, Account { pnl: (a.pnl - xc) as i128, ..a }),
        pnl_pos_tot: u128_sat(m.pnl_pos_tot - xc),
        pnl_matured_pos_tot: u128_sat(m.pnl_matured_pos_tot - xc),
        ..m
    }
}

pub open spec fn m_set_capital(m: EngineModel, i: int, c: u128) -> EngineModel {
    let a = m.accounts[i];
    EngineModel {
        accounts: m.accounts.update(i, Account { capital: U128(c), ..a }),
        c_tot: U128(u128_sat(m.c_tot.0 + c - a.capital.0)),
        ..m
    }
}

/// Replaces account `i` wholesale.
pub open spec fn m_put(m: EngineModel, i: int, a: Account) -> EngineModel {
    EngineModel { accounts: m.accounts.update(i, a), ..m }
}

impl RiskEngine {
    pub(crate) fn get_a_side(&self, s: Side) -> (r: u128)
        ensures
            r == side_a(self@, s),
    {
        match s {
            Side::Long => self.adl_mult_long,
            Side::Short => self.adl_mult_short,
        }
    }

    pub(crate) fn get_k_side(&self, s: Side) -> (r: i128)
        ensures
            r == side_k(self@, s),
    {
        match s {
            Side::Long => self.adl_coeff_long,
            Side::Short => self.adl_coeff_short,
        }
    }

    pub(crate) fn get_epoch_side(&self, s: Side) -> (r: u64)
        ensures
            r == side_epoch(self@, s),
    {
        match s {
            Side::Long => self.adl_epoch_long,
            Side::Short => self.adl_epoch_short,
        }
    }

    pub(crate) fn get_k_epoch_start(&self, s: Side) -> (r: i128)
        ensures
            r == side_k_epoch_start(self@, s),
    {
        match s {
            Side::Long => self.adl_epoch_start_k_long,
            Side::Short => self.adl_epoch_start_k_short,
        }
    }

    pub(crate) fn get_side_mode(&self, s: Side) -> (r: SideMode)
        ensures
            r == side_mode(self@, s),
    {
        match s {
            Side::Long => self.side_mode_long,
            Side::Short => self.side_mode_short,
        }
    }

    pub(crate) fn get_oi_eff(&self, s: Side) -> (r: u128)
        ensures
            r == side_oi(self@, s),
    {
        match s {
            Side::Long => self.oi_eff_long_q,
            Side::Short => self.oi_eff_short_q,
        }
    }

    pub(crate) fn get_stale_count(&self, s: Side) -> (r: u64)
        ensures
            r == side_stale(self@, s),
    {
        match s {
            Side::Long => self.stale_account_count_long,
            Side::Short => self.stale_account_count_short,
        }
    }

    pub(crate) fn get_stored_pos_count(&self, s: Side) -> (r: u64)
        ensures
            r == side_pos_count(self@, s),
    {
        match s {
            Side::Long => self.stored_pos_count_long,
            Side::Short => self.stored_pos_count_short,
        }
    }

    pub(crate) fn set_oi_eff(&mut self, s: Side, v: u128)
        ensures
            s == Side::Long ==> final(self)@ == (EngineModel { oi_eff_long_q: v, ..old(self)@ }),
            s == Side::Short ==> final(self)@ == (EngineModel { oi_eff_short_q: v, ..old(self)@ }),
    {
        match s {
            Side::Long => self.oi_eff_long_q = v,
            Side::Short => self.oi_eff_short_q = v,
        }
    }

    pub(crate) fn set_side_mode(&mut self, s: Side, m: SideMode)
        ensures
            s == Side::Long ==> final(self)@ == (EngineModel { side_mode_long: m, ..old(self)@ }),
            s == Side::Short ==> final(self)@ == (EngineModel { side_mode_short: m, ..old(self)@ }),
    {
        match s {
            Side::Long => self.side_mode_long = m,
            Side::Short => self.side_mode_short = m,
        }
    }

    pub(crate) fn set_a_side(&mut self, s: Side, v: u128)
        ensures
            s == Side::Long ==> final(self)@ == (EngineModel { adl_mult_long: v, ..old(self)@ }),
            s == Side::Short ==> final(self)@ == (EngineModel { adl_mult_short: v, ..old(self)@ }),
    {
        match s {
            Side::Long => self.adl_mult_long = v,
            Side::Short => self.adl_mult_short = v,
        }
    }

    pub(crate) fn set_k_side(&mut self, s: Side, v: i128)
        ensures
            s == Side::Long ==> final(self)@ == (EngineModel { adl_coeff_long: v, ..old(self)@ }),
            s == Side::Short ==> final(self)@ == (EngineModel { adl_coeff_short: v, ..old(self)@ }),
    {
        match s {
            Side::Long => self.adl_coeff_long = v,
            Side::Short => self.adl_coeff_short = v,
        }
    }

    pub(crate) fn set_stale_count(&mut self, s: Side, v: u64)
        ensures
            s == Side::Long ==> final(self)@ == (EngineModel {
                stale_account_count_long: v,
                ..old(self)@
            }),
            s == Side::Short ==> final(self)@ == (EngineModel {
                stale_account_count_short: v,
                ..old(self)@
            }),
    {
        match s {
            Side::Long => self.stale_account_count_long = v,
            Side::Short => self.stale_account_count_short = v,
        }
    }

    /// Adds one quantity unit to the side's phantom-dust bound (saturating).
    pub(crate) fn inc_phantom_dust_bound(&mut self, s: Side)
        ensures
            s == Side::Long ==> final(self)@ == (EngineModel {
                phantom_dust_bound_long_q: u128_sat(old(self).phantom_dust_bound_long_q + 1),
                ..old(self)@
            }),
            s == Side::Short ==> final(self)@ == (EngineModel {
                phantom_dust_bound_short_q: u128_sat(old(self).phantom_dust_bound_short_q + 1),
                ..old(self)@
            }),
    {
        match s {
            Side::Long => {
                self.phantom_dust_bound_long_q = crate::num::sat_add_u128(
                    self.phantom_dust_bound_long_q,
                    1,
                );
            },
            Side::Short => {
                self.phantom_dust_bound_short_q = crate::num::sat_add_u128(
                    self.phantom_dust_bound_short_q,
                    1,
                );
            },
        }
    }

    /// Adds `amount_q` to the side's phantom-dust bound (saturating).
    pub(crate) fn inc_phantom_dust_bound_by(&mut self, s: Side, amount_q: u128)
        ensures
            s == Side::Long ==> final(self)@ == (EngineModel {
                phantom_dust_bound_long_q: u128_sat(old(self).phantom_dust_bound_long_q + amount_q),
                ..old(self)@
            }),
            s == Side::Short ==> final(self)@ == (EngineModel {
                phantom_dust_bound_short_q: u128_sat(
                    old(self).phantom_dust_bound_short_q + amount_q,
                ),
                ..old(self)@
            }),
    {
        match s {
            Side::Long => {
                self.phantom_dust_bound_long_q = crate::num::sat_add_u128(
                    self.phantom_dust_bound_long_q,
                    amount_q,
                );
            },
            Side::Short => {
                self.phantom_dust_bound_short_q = crate::num::sat_add_u128(
                    self.phantom_dust_bound_short_q,
                    amount_q,
                );
            },
        }
    }

    /// Sets PnL of `idx`, keeping the reserve rule and both positive-PnL totals.
    pub fn set_pnl(&mut self, idx: usize, new_pnl: i128)
        requires
            old(self).wf(),
            idx < MAX_ACCOUNTS,
        ensures
            final(self).wf(),
            final(self)@ == m_set_pnl(old(self)@, idx as int, new_pnl),
    {
        let mut acc = self.accounts[idx];
        let old_pnl = acc.pnl;
        let old_pos: u128 = if old_pnl > 0 {
            old_pnl as u128
        } else {
            0
        };
        let old_r = acc.reserved_pnl;
        let old_rel = crate::num::sat_sub_u128(old_pos, old_r);
        let new_pos: u128 = if new_pnl > 0 {
            new_pnl as u128
        } else {
            0
        };
        let new_r: u128 = if new_pos > old_pos {
            let gain = new_pos - old_pos;
            crate::num::min_u128(crate::num::sat_add_u128(old_r, gain), new_pos)
        } else {
            let loss = crate::num::sat_sub_u128(old_pos, new_pos);
            let released_loss = crate::num::min_u128(loss, old_rel);
            let remaining_loss = crate::num::sat_sub_u128(loss, released_loss);
            crate::num::min_u128(crate::num::sat_sub_u128(old_r, remaining_loss), new_pos)
        };
        let new_rel = crate::num::sat_sub_u128(new_pos, new_r);
        if new_pos > old_pos {
            self.pnl_pos_tot = crate::num::sat_add_u128(self.pnl_pos_tot, new_pos - old_pos);
        } else if old_pos > new_pos {
            self.pnl_pos_tot = crate::num::sat_sub_u128(self.pnl_pos_tot, old_pos - new_pos);
        }
        if new_rel > old_rel {
            self.pnl_matured_pos_tot = crate::num::sat_add_u128(
                self.pnl_matured_pos_tot,
                new_rel - old_rel,
            );
        } else if old_rel > new_rel {
            self.pnl_matured_pos_tot = crate::num::sat_sub_u128(
                self.pnl_matured_pos_tot,
                old_rel - new_rel,
            );
        }
        acc.pnl = new_pnl;
        acc.reserved_pnl = new_r;
        self.accounts.set(idx, acc);
    }

    /// Sets the reserve of `idx` (clamped to max(PNL, 0)), keeping the matured total.
    pub fn set_reserved_pnl(&mut self, idx: usize, new_r: u128)
        requires
            old(self).wf(),
            idx < MAX_ACCOUNTS,
        ensures
            final(self).wf(),
            final(self)@ == m_set_reserved(old(self)@, idx as int, new_r),
    {
        let mut acc = self.accounts[idx];
        let pos: u128 = if acc.pnl > 0 {
            acc.pnl as u128
        } else {
            0
        };
        let new_r = crate::num::min_u128(new_r, pos);
        let old_r = acc.reserved_pnl;
        let old_rel = crate::num::sat_sub_u128(pos, old_r);
        let new_rel = crate::num::sat_sub_u128(pos, new_r);
        if new_rel > old_rel {
            self.pnl_matured_pos_tot = crate::num::sat_add_u128(
                self.pnl_matured_pos_tot,
                new_rel - old_rel,
            );
        } else if old_rel > new_rel {
            self.pnl_matured_pos_tot = crate::num::sat_sub_u128(
                self.pnl_matured_pos_tot,
                old_rel - new_rel,
            );
        }
        acc.reserved_pnl = new_r;
        self.accounts.set(idx, acc);
    }

    /// Removes `x` (clamped to the released part) of matured positive PnL,
    /// leaving the reserve unchanged.
    pub fn consume_released_pnl(&mut self, idx: usize, x: u128)
        requires
            old(self).wf(),
            idx < MAX_ACCOUNTS,
        ensures
            final(self).wf(),
            final(self)@ == m_consume_released(old(self)@, idx as int, x),
    {
        let mut acc = self.accounts[idx];
        let old_pos: u128 = if acc.pnl > 0 {
            acc.pnl as u128
        } else {
            0
        };
        let old_rel = crate::num::sat_sub_u128(old_pos, acc.reserved_pnl);
        let x = crate::num::min_u128(x, old_rel);
        self.pnl_pos_tot = crate::num::sat_sub_u128(self.pnl_pos_tot, x);
        self.pnl_matured_pos_tot = crate::num::sat_sub_u128(self.pnl_matured_pos_tot, x);
        // x <= max(PNL, 0) <= i128::MAX, so the subtraction is exact.
        acc.pnl = acc.pnl - (x as i128);
        self.accounts.set(idx, acc);
    }

    /// Sets capital of `idx`, keeping `c_tot` (saturating).
    pub fn set_capital(&mut self, idx: usize, new_capital: u128)
        requires
            old(self).wf(),
            idx < MAX_ACCOUNTS,
        ensures
            final(self).wf(),
            final(self)@ == m_set_capital(old(self)@, idx as int, new_capital),
    {
        let mut acc = self.accounts[idx];
        let old = acc.capital.0;
        if new_capital >= old {
            self.c_tot = U128(crate::num::sat_add_u128(self.c_tot.0, new_capital - old));
        } else {
            self.c_tot = U128(crate::num::sat_sub_u128(self.c_tot.0, old - new_capital));
        }
        acc.capital = U128(new_capital);
        self.accounts.set(idx, acc);
    }

    /// ReleasedPos = max(PNL, 0) - R, floored at zero.
    pub fn released_pos(&self, idx: usize) -> (r: u128)
        requires
            self.wf(),
            idx < MAX_ACCOUNTS,
        ensures
            r == released_of(self@.accounts[idx as int].pnl, self@.accounts[idx as int].reserved_pnl),
    {
        let pnl = self.accounts[idx].pnl;
        let pos_pnl = crate::num::i128_clamp_pos(pnl);
        crate::num::sat_sub_u128(pos_pnl, self.accounts[idx].reserved_pnl)
    }

    /// Haircut ratio (h_num, h_den) over matured positive PnL.
    pub fn haircut_ratio(&self) -> (r: (u128, u128))
        ensures
            r.0 == haircut_spec(self@).0,
            r.1 == haircut_spec(self@).1,
    {
        let pnl_matured = self.pnl_matured_pos_tot;
        if pnl_matured == 0 {
            return (1, 1);
        }
        let total_insurance = crate::num::sat_add_u128(
            self.insurance_fund.balance.0,
            self.insurance_fund.isolated_balance.0,
        );
        let residual = crate::num::sat_sub_u128(
            crate::num::sat_sub_u128(self.vault.0, self.c_tot.0),
            total_insurance,
        );
        proof {
            // Insurance totals beyond u128::MAX already exceed any u128 vault.
            if self.insurance_fund.balance.0 + self.insurance_fund.isolated_balance.0
                > u128::MAX {
                assert(max_int(self.vault.0 - self.c_tot.0, 0) <= u128::MAX);
            }
        }
        (crate::num::min_u128(residual, pnl_matured), pnl_matured)
    }
}

} // verus!
