//! The conservation check: the vault covers capital, insurance and the
//! PnL that every open position would realise at a given oracle price.
use vstd::prelude::*;
use crate::num::{i128_sat, u128_sat};
use crate::engine::types::{Account, MAX_ACCOUNTS, MAX_ROUNDING_SLACK};
use crate::engine::state::{EngineModel, RiskEngine};
use crate::engine::margin::mark_pnl_spec;
use crate::engine::funding::{trunc_div_any, trunc_div_i128};

verus! {

/// `v` clamped to the range of `i64`.
pub open spec fn i64_sat(v: int) -> int {
    if v > i64::MAX {
        i64::MAX as int
    } else if v < i64::MIN {
        i64::MIN as int
    } else {
        v
    }
}

/// PnL of `a` as if its funding were settled against the global index `g`,
/// every step saturating and the payment truncated toward zero.
pub open spec fn settled_pnl_view(g: i64, a: Account) -> i128 {
    if a.position_size != 0 {
        let d = i64_sat(g - a.funding_index);
        if d != 0 {
            let raw = i128_sat(a.position_size * d);
            i128_sat(a.pnl - trunc_div_any(raw as int, 1_000_000))
        } else {
            a.pnl
        }
    } else {
        a.pnl
    }
}

/// Sums over the used slots below `n`, in index order: total capital, settled
/// PnL and mark PnL (each saturating), and whether every mark was computable.
pub open spec fn cons_sums(m: EngineModel, oracle: u64, n: int) -> (u128, i128, i128, bool)
    decreases n,
{
    if n <= 0 {
        (0, 0, 0, true)
    } else {
        let s = cons_sums(m, oracle, n - 1);
        if m.is_used(n - 1) {
            let a = m.accounts[n - 1];
            let cap = u128_sat(s.0 + a.capital.0);
            let pnl = i128_sat(s.1 + settled_pnl_view(m.funding_index_qpb_e6, a));
            if a.position_size != 0 {
                match mark_pnl_spec(a.position_size, a.entry_price, oracle) {
                    Some(v) => (cap, pnl, i128_sat(s.2 + v), s.3),
                    None => (cap, pnl, s.2, false),
                }
            } else {
                (cap, pnl, s.2, s.3)
            }
        } else {
            s
        }
    }
}

/// The primary conservation inequality V >= C_tot + I (global and isolated).
pub open spec fn conserves(m: EngineModel) -> bool {
    m.vault.0 >= m.c_tot.0 + m.insurance_fund.balance.0 + m.insurance_fund.isolated_balance.0
}

/// Conservation holds: every mark is computable, the vault covers capital plus
/// insurance (global and isolated), and it exceeds capital + insurance + total
/// PnL by no more than the rounding slack.
pub open spec fn conservation_spec(m: EngineModel, oracle: u64) -> bool {
    let s = cons_sums(m, oracle, MAX_ACCOUNTS as int);
    let ins = u128_sat(m.insurance_fund.balance.0 + m.insurance_fund.isolated_balance.0);
    let base = u128_sat(s.0 + ins);
    let expected = u128_sat(base + i128_sat(s.1 + s.2));
    &&& s.3
    &&& m.vault.0 >= base
    &&& m.vault.0 >= expected
    &&& m.vault.0 - expected <= MAX_ROUNDING_SLACK
}

impl RiskEngine {
    /// Checks the conservation of value at `oracle_price`.
    pub fn check_conservation(&self, oracle_price: u64) -> (r: bool)
        requires
            self.wf(),
        ensures
            r == conservation_spec(self@, oracle_price),
    {
        let mut total_capital: u128 = 0;
        let mut net_pnl: i128 = 0;
        let mut net_mark: i128 = 0;
        let mut mark_ok = true;
        let g = self.funding_index_qpb_e6;
        let mut idx: usize = 0;
        while idx < MAX_ACCOUNTS
            invariant
                idx <= MAX_ACCOUNTS,
                self.wf(),
                g == self@.funding_index_qpb_e6,
                (total_capital, net_pnl, net_mark, mark_ok) == cons_sums(
                    self@,
                    oracle_price,
                    idx as int,
                ),
            decreases MAX_ACCOUNTS - idx,
        {
            if self.is_used(idx) {
                let a = self.accounts[idx];
                total_capital = crate::num::sat_add_u128(total_capital, a.capital.0);
                let settled = settled_pnl_of(g, &a);
                net_pnl = crate::num::sat_add_i128(net_pnl, settled);
                if a.position_size != 0 {
                    match Self::mark_pnl_for_position(a.position_size, a.entry_price, oracle_price) {
                        Ok(mark) => {
                            net_mark = crate::num::sat_add_i128(net_mark, mark);
                        },
                        Err(_) => {
                            mark_ok = false;
                        },
                    }
                }
            }
            idx = idx + 1;
        }
        if !mark_ok {
            return false;
        }
        let ins = crate::num::sat_add_u128(
            self.insurance_fund.balance.0,
            self.insurance_fund.isolated_balance.0,
        );
        let base = crate::num::sat_add_u128(total_capital, ins);
        if self.vault.0 < base {
            return false;
        }
        let total_pnl = crate::num::sat_add_i128(net_pnl, net_mark);
        let expected = if total_pnl >= 0 {
            crate::num::sat_add_u128(base, total_pnl as u128)
        } else {
            crate::num::sat_sub_u128(base, crate::num::neg_i128_to_u128(total_pnl))
        };
        let actual = self.vault.0;
        if actual < expected {
            return false;
        }
        actual - expected <= MAX_ROUNDING_SLACK
    }
}

/// Settled PnL of `a` against the global funding index `g`.
fn settled_pnl_of(g: i64, a: &Account) -> (r: i128)
    ensures
        r == settled_pnl_view(g, *a),
{
    if a.position_size == 0 {
        return a.pnl;
    }
    let d_wide: i128 = (g as i128) - (a.funding_index as i128);
    let d: i64 = if d_wide > i64::MAX as i128 {
        i64::MAX
    } else if d_wide < i64::MIN as i128 {
        i64::MIN
    } else {
        d_wide as i64
    };
    if d == 0 {
        return a.pnl;
    }
    let raw = crate::num::sat_mul_i128(a.position_size, d as i128);
    let payment = trunc_div_i128(raw, 1_000_000);
    crate::num::sat_sub_i128(a.pnl, payment)
}

} // verus!
