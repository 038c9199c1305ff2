//! Lazy A/K position bookkeeping: effective positions and attachment.
use vstd::prelude::*;
use crate::num::u128_sat;
use crate::wide_math::{floor_div, mul_div_floor_u128, mul_mod};
use crate::engine::types::{spec_side_of, Account, Side, ADL_ONE, MAX_ACCOUNTS, MAX_POSITION_ABS_Q};
use crate::engine::state::{EngineModel, RiskEngine};
use crate::engine::ledger::{side_a, side_epoch, side_k, min_int};

verus! {

pub open spec fn abs_int(v: int) -> int {
    if v < 0 {
        -v
    } else {
        v
    }
}

pub open spec fn basis_side(b: i128) -> Side {
    if b > 0 {
        Side::Long
    } else {
        Side::Short
    }
}

/// Effective position of account `i` (floor(|basis| * A_side / a_basis),
/// signed, zero on an epoch mismatch or a zero snapshot, clamped to i128::MAX).
pub open spec fn eff_pos_spec(e: EngineModel, i: int) -> int {
    let a = e.accounts[i];
    let basis = a.position_basis_q;
    if basis == 0 {
        0
    } else {
        let side = basis_side(basis);
        if a.adl_epoch_snap != side_epoch(e, side) || a.adl_a_basis == 0 {
            0
        } else {
            let m = min_int(
                floor_div(abs_int(basis as int), side_a(e, side) as int, a.adl_a_basis as int),
                i128::MAX as int,
            );
            if basis < 0 {
                -m
            } else {
                m
            }
        }
    }
}

/// Stored-position count after replacing basis `old_b` by `new_b` (saturating).
pub open spec fn count_after(count: u64, side: Side, old_b: i128, new_b: i128) -> u64 {
    let dec = if spec_side_of(old_b) == Some(side) {
        1int
    } else {
        0
    };
    let inc = if spec_side_of(new_b) == Some(side) {
        1int
    } else {
        0
    };
    let c1 = if count - dec < 0 {
        0
    } else {
        count - dec
    };
    if c1 + inc > u64::MAX {
        u64::MAX
    } else {
        (c1 + inc) as u64
    }
}

pub open spec fn m_set_basis(m: EngineModel, i: int, b: i128) -> EngineModel {
    let a = m.accounts[i];
    EngineModel {
        accounts: m.accounts.update(i, Account { position_basis_q: b, ..a }),
        stored_pos_count_long: count_after(m.stored_pos_count_long, Side::Long, a.position_basis_q, b),
        stored_pos_count_short: count_after(
            m.stored_pos_count_short,
            Side::Short,
            a.position_basis_q,
            b,
        ),
        ..m
    }
}

/// The side whose dust bound grows when `i`'s same-epoch basis is replaced.
pub open spec fn dust_side(e: EngineModel, i: int) -> Option<Side> {
    let a = e.accounts[i];
    let b = a.position_basis_q;
    if b == 0 {
        None
    } else {
        let s = basis_side(b);
        if a.adl_epoch_snap != side_epoch(e, s) || a.adl_a_basis == 0 {
            None
        } else if (abs_int(b as int) * side_a(e, s)) % (a.adl_a_basis as int) != 0 {
            Some(s)
        } else {
            None
        }
    }
}

pub open spec fn m_inc_dust(e: EngineModel, s: Side) -> EngineModel {
    match s {
        Side::Long => EngineModel {
            phantom_dust_bound_long_q: u128_sat(e.phantom_dust_bound_long_q + 1),
            ..e
        },
        Side::Short => EngineModel {
            phantom_dust_bound_short_q: u128_sat(e.phantom_dust_bound_short_q + 1),
            ..e
        },
    }
}

/// The engine after the dust accounting that precedes a re-attachment.
pub open spec fn dust_after(e: EngineModel, i: int) -> EngineModel {
    match dust_side(e, i) {
        Some(s) => m_inc_dust(e, s),
        None => e,
    }
}

/// Attachment of effective position `eff` to account `i`.
pub open spec fn m_attach(m: EngineModel, i: int, eff: i128) -> EngineModel {
    let d = dust_after(m, i);
    let b = m_set_basis(d, i, eff);
    let a = b.accounts[i];
    let s = basis_side(eff);
    let a2 = if eff == 0 {
        Account { adl_a_basis: ADL_ONE, adl_k_snap: 0, adl_epoch_snap: 0, ..a }
    } else {
        Account {
            adl_a_basis: side_a(d, s),
            adl_k_snap: side_k(d, s),
            adl_epoch_snap: side_epoch(d, s),
            ..a
        }
    };
    EngineModel { accounts: b.accounts.update(i, a2), ..b }
}

impl RiskEngine {
    /// Replaces the stored basis of `idx`, keeping the per-side position counts.
    pub fn set_position_basis_q(&mut self, idx: usize, new_basis: i128)
        requires
            old(self).wf(),
            idx < MAX_ACCOUNTS,
        ensures
            final(self).wf(),
            final(self)@ == m_set_basis(old(self)@, idx as int, new_basis),
    {
        let mut acc = self.accounts[idx];
        let old_b = acc.position_basis_q;
        if old_b > 0 {
            self.stored_pos_count_long = crate::num::sat_sub_u64(self.stored_pos_count_long, 1);
        } else if old_b < 0 {
            self.stored_pos_count_short = crate::num::sat_sub_u64(self.stored_pos_count_short, 1);
        }
        if new_basis > 0 {
            self.stored_pos_count_long = crate::num::sat_add_u64(self.stored_pos_count_long, 1);
        } else if new_basis < 0 {
            self.stored_pos_count_short = crate::num::sat_add_u64(self.stored_pos_count_short, 1);
        }
        acc.position_basis_q = new_basis;
        self.accounts.set(idx, acc);
    }

    /// Effective position quantity of account `idx`.
    pub fn effective_pos_q(&self, idx: usize) -> (r: i128)
        requires
            self.wf(),
            idx < MAX_ACCOUNTS,
        ensures
            r == eff_pos_spec(self@, idx as int),
    {
        let basis = self.accounts[idx].position_basis_q;
        if basis == 0 {
            return 0;
        }
        let side = if basis > 0 {
            Side::Long
        } else {
            Side::Short
        };
        let epoch_snap = self.accounts[idx].adl_epoch_snap;
        let epoch_side = self.get_epoch_side(side);
        if epoch_snap != epoch_side {
            return 0;
        }
        let a_side = self.get_a_side(side);
        let a_basis = self.accounts[idx].adl_a_basis;
        if a_basis == 0 {
            return 0;
        }
        let abs_basis = crate::num::abs_i128(basis);
        let effective_abs = mul_div_floor_u128(abs_basis, a_side, a_basis);
        let m: i128 = if effective_abs > i128::MAX as u128 {
            i128::MAX
        } else {
            effective_abs as i128
        };
        if basis < 0 {
            -m
        } else {
            m
        }
    }

    /// The side whose dust bound grows if `idx`'s basis is replaced now.
    fn orphans_remainder(&self, idx: usize) -> (r: Option<Side>)
        requires
            self.wf(),
            idx < MAX_ACCOUNTS,
        ensures
            r == dust_side(self@, idx as int),
    {
        let old_basis = self.accounts[idx].position_basis_q;
        if old_basis == 0 {
            return None;
        }
        let old_side = if old_basis > 0 {
            Side::Long
        } else {
            Side::Short
        };
        if self.accounts[idx].adl_epoch_snap != self.get_epoch_side(old_side) {
            return None;
        }
        let a_basis = self.accounts[idx].adl_a_basis;
        if a_basis == 0 {
            return None;
        }
        let a_side = self.get_a_side(old_side);
        let abs_basis = crate::num::abs_i128(old_basis);
        if mul_mod(abs_basis, a_side, a_basis) != 0 {
            Some(old_side)
        } else {
            None
        }
    }

    /// Attaches a new effective position to `idx` at the current side snapshots.
    pub fn attach_effective_position(&mut self, idx: usize, new_eff_pos_q: i128)
        requires
            old(self).wf(),
            idx < MAX_ACCOUNTS,
            abs_int(new_eff_pos_q as int) <= MAX_POSITION_ABS_Q,
        ensures
            final(self).wf(),
            final(self)@ == m_attach(old(self)@, idx as int, new_eff_pos_q),
    {
        match self.orphans_remainder(idx) {
            Some(s) => self.inc_phantom_dust_bound(s),
            None => {},
        }
        let ghost d = self@;
        if new_eff_pos_q == 0 {
            self.set_position_basis_q(idx, 0);
            let mut acc = self.accounts[idx];
            acc.adl_a_basis = ADL_ONE;
            acc.adl_k_snap = 0;
            acc.adl_epoch_snap = 0;
            self.accounts.set(idx, acc);
        } else {
            self.set_position_basis_q(idx, new_eff_pos_q);
            let mut acc = self.accounts[idx];
            if new_eff_pos_q > 0 {
                acc.adl_a_basis = self.adl_mult_long;
                acc.adl_k_snap = self.adl_coeff_long;
                acc.adl_epoch_snap = self.adl_epoch_long;
            } else {
                acc.adl_a_basis = self.adl_mult_short;
                acc.adl_k_snap = self.adl_coeff_short;
                acc.adl_epoch_snap = self.adl_epoch_short;
            }
            self.accounts.set(idx, acc);
        }
    }
}

} // verus!
