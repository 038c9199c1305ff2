//! Market accrual (mark and funding into the K coefficients), signed
//! products, the haircut applied to equity and aggregate recomputation.
use vstd::prelude::*;
use vstd::arithmetic::div_mod::{lemma_fundamental_div_mod, lemma_fundamental_div_mod_converse};
use crate::num::{i128_sat, u128_sat, U128};
use crate::wide_math::floor_div;
use crate::engine::types::{
    Account, RiskError, RiskResult, MAX_ABS_FUNDING_BPS_PER_SLOT, MAX_ACCOUNTS, MAX_FUNDING_DT,
    MAX_ORACLE_PRICE, POS_SCALE,
};
use crate::engine::state::{EngineModel, RiskEngine};
use crate::engine::ledger::{haircut_spec, min_int, pos_part, released_of};

verus! {

/// a * b as an `i128` when |a * b| <= i128::MAX.
pub open spec fn mul_fits(v: int) -> bool {
    -(i128::MAX as int) <= v <= i128::MAX
}

/// Exact product of a `u128` and an `i128`, or `Overflow` when its
/// magnitude exceeds `i128::MAX`.
pub fn checked_u128_mul_i128(a: u128, b: i128) -> (r: RiskResult<i128>)
    ensures
        mul_fits(a * b) ==> r == Ok::<i128, RiskError>((a * b) as i128),
        !mul_fits(a * b) ==> r == Err::<i128, RiskError>(RiskError::Overflow),
{
    if a == 0 || b == 0 {
        proof {
            assert(a * b == 0) by (nonlinear_arith)
                requires
                    a == 0 || b == 0,
            ;
        }
        return Ok(0i128);
    }
    let abs_b = crate::num::abs_i128(b);
    proof {
        if b < 0 {
            assert(a * b == -(a * abs_b)) by (nonlinear_arith)
                requires
                    abs_b == -b,
            ;
        } else {
            assert(a * b == a * abs_b);
        }
    }
    match a.checked_mul(abs_b) {
        None => Err(RiskError::Overflow),
        Some(v) => {
            if v > i128::MAX as u128 {
                Err(RiskError::Overflow)
            } else if b < 0 {
                Ok(-(v as i128))
            } else {
                Ok(v as i128)
            }
        },
    }
}

proof fn lemma_neg_floor_q(x: int, d: int, q: int, r: int)
    requires
        d > 0,
        x == q * d + r,
        0 <= r < d,
    ensures
        r == 0 ==> (-x) / d == -q,
        r != 0 ==> (-x) / d == -q - 1,
{
    if r == 0 {
        assert(-x == (-q) * d) by (nonlinear_arith)
            requires
                x == q * d,
        ;
        lemma_fundamental_div_mod_converse(-x, d, -q, 0);
    } else {
        assert(-x == (-q - 1) * d + (d - r)) by (nonlinear_arith)
            requires
                x == q * d + r,
        ;
        lemma_fundamental_div_mod_converse(-x, d, -q - 1, d - r);
    }
}

/// floor(size_q * price_diff / POS_SCALE), or `Overflow` when its magnitude
/// exceeds `i128::MAX`.
pub fn compute_trade_pnl(size_q: i128, price_diff: i128) -> (r: RiskResult<i128>)
    ensures
        mul_fits((size_q * price_diff) / (POS_SCALE as int)) ==> r == Ok::<i128, RiskError>(
            ((size_q * price_diff) / (POS_SCALE as int)) as i128,
        ),
        !mul_fits((size_q * price_diff) / (POS_SCALE as int)) ==> r == Err::<i128, RiskError>(
            RiskError::Overflow,
        ),
{
    if size_q == 0 || price_diff == 0 {
        proof {
            assert(size_q * price_diff == 0) by (nonlinear_arith)
                requires
                    size_q == 0 || price_diff == 0,
            ;
        }
        return Ok(0i128);
    }
    let result_negative = (size_q < 0) != (price_diff < 0);
    let abs_size = crate::num::abs_i128(size_q);
    let abs_price = crate::num::abs_i128(price_diff);
    let ghost p: int = abs_size * abs_price;
    proof {
        if result_negative {
            assert(size_q * price_diff == -p) by (nonlinear_arith)
                requires
                    p == abs_size * abs_price,
                    abs_size == (if size_q < 0 { -size_q } else { size_q as int }),
                    abs_price == (if price_diff < 0 { -price_diff } else { price_diff as int }),
                    (size_q < 0) != (price_diff < 0),
            ;
        } else {
            assert(size_q * price_diff == p) by (nonlinear_arith)
                requires
                    p == abs_size * abs_price,
                    abs_size == (if size_q < 0 { -size_q } else { size_q as int }),
                    abs_price == (if price_diff < 0 { -price_diff } else { price_diff as int }),
                    (size_q < 0) == (price_diff < 0),
            ;
        }
        assert(p >= 0) by (nonlinear_arith)
            requires
                p == abs_size * abs_price,
        ;
        lemma_fundamental_div_mod(p, POS_SCALE as int);
    }
    match crate::wide_math::mul_div_rem_checked(abs_size, abs_price, POS_SCALE) {
        None => {
            proof {
                if result_negative {
                    lemma_neg_floor_q(p, POS_SCALE as int, p / (POS_SCALE as int), p % (POS_SCALE as int));
                }
            }
            Err(RiskError::Overflow)
        },
        Some((q, rem)) => {
            proof {
                lemma_fundamental_div_mod_converse(p, POS_SCALE as int, q as int, rem as int);
            }
            if result_negative {
                proof {
                    lemma_neg_floor_q(p, POS_SCALE as int, q as int, rem as int);
                }
                let mag: u128 = if rem != 0 {
                    if q == u128::MAX {
                        return Err(RiskError::Overflow);
                    }
                    q + 1
                } else {
                    q
                };
                if mag > i128::MAX as u128 {
                    Err(RiskError::Overflow)
                } else {
                    Ok(-(mag as i128))
                }
            } else {
                if q > i128::MAX as u128 {
                    Err(RiskError::Overflow)
                } else {
                    Ok(q as i128)
                }
            }
        },
    }
}

/// Funding applied in chunks of at most `MAX_FUNDING_DT` slots; `None` when
/// any step leaves the `i128` range.
pub open spec fn funding_steps(
    k_long: int,
    k_short: int,
    a_long: u128,
    a_short: u128,
    px: u64,
    rate: i64,
    dt: nat,
) -> Option<(int, int)>
    decreases dt,
{
    if dt == 0 {
        Some((k_long, k_short))
    } else {
        let dt_sub: int = if dt < MAX_FUNDING_DT {
            dt as int
        } else {
            MAX_FUNDING_DT as int
        };
        let num = px * rate * dt_sub;
        if !(i128::MIN <= num <= i128::MAX) {
            None
        } else {
            let term = num / 10_000;
            if term == 0 {
                funding_steps(k_long, k_short, a_long, a_short, px, rate, (dt - dt_sub) as nat)
            } else {
                let dl = a_long * term;
                let ds = a_short * term;
                if !mul_fits(dl) || !mul_fits(ds) || !(i128::MIN <= k_long - dl <= i128::MAX)
                    || !(i128::MIN <= k_short + ds <= i128::MAX) {
                    None
                } else {
                    funding_steps(
                        k_long - dl,
                        k_short + ds,
                        a_long,
                        a_short,
                        px,
                        rate,
                        (dt - dt_sub) as nat,
                    )
                }
            }
        }
    }
}

/// K coefficients after the mark move from `last_oracle_price` to `price`.
pub open spec fn mark_k(m: EngineModel, price: u64) -> Option<(int, int)> {
    let dp = price - m.last_oracle_price;
    let kl = if dp != 0 && m.oi_eff_long_q != 0 {
        m.adl_coeff_long + m.adl_mult_long * dp
    } else {
        m.adl_coeff_long as int
    };
    let ks = if dp != 0 && m.oi_eff_short_q != 0 {
        m.adl_coeff_short - m.adl_mult_short * dp
    } else {
        m.adl_coeff_short as int
    };
    let ok_l = !(dp != 0 && m.oi_eff_long_q != 0) || (mul_fits(m.adl_mult_long * dp) && i128::MIN
        <= kl <= i128::MAX);
    let ok_s = !(dp != 0 && m.oi_eff_short_q != 0) || (mul_fits(m.adl_mult_short * dp)
        && i128::MIN <= ks <= i128::MAX);
    if ok_l && ok_s {
        Some((kl, ks))
    } else {
        None
    }
}

/// Market accrual to (`now`, `price`): the new engine, or `None` on `Overflow`.
pub open spec fn accrue_spec(m: EngineModel, now: u64, price: u64) -> Option<EngineModel> {
    if price == 0 || price > MAX_ORACLE_PRICE || now < m.current_slot || now
        < m.last_market_slot {
        None
    } else if now == m.last_market_slot && m.last_oracle_price == price {
        Some(EngineModel { current_slot: now, ..m })
    } else {
        match mark_k(m, price) {
            None => None,
            Some((kl, ks)) => {
                let funded = if m.funding_rate_bps_per_slot_last != 0 && now > m.last_market_slot
                    && m.oi_eff_long_q != 0 && m.oi_eff_short_q != 0
                    && m.funding_price_sample_last > 0 {
                    funding_steps(
                        kl,
                        ks,
                        m.adl_mult_long,
                        m.adl_mult_short,
                        m.funding_price_sample_last,
                        m.funding_rate_bps_per_slot_last,
                        (now - m.last_market_slot) as nat,
                    )
                } else {
                    Some((kl, ks))
                };
                match funded {
                    None => None,
                    Some((fl, fs)) => Some(
                        EngineModel {
                            adl_coeff_long: fl as i128,
                            adl_coeff_short: fs as i128,
                            current_slot: now,
                            last_market_slot: now,
                            last_oracle_price: price,
                            funding_price_sample_last: price,
                            ..m
                        },
                    ),
                }
            },
        }
    }
}

/// Aggregate of capital over used slots below `n` (saturating).
pub open spec fn agg_capital(m: EngineModel, n: int) -> u128
    decreases n,
{
    if n <= 0 {
        0
    } else if m.is_used(n - 1) {
        u128_sat(agg_capital(m, n - 1) + m.accounts[n - 1].capital.0)
    } else {
        agg_capital(m, n - 1)
    }
}

/// Aggregate of positive PnL over used slots below `n` (saturating).
pub open spec fn agg_pnl_pos(m: EngineModel, n: int) -> u128
    decreases n,
{
    if n <= 0 {
        0
    } else if m.is_used(n - 1) && m.accounts[n - 1].pnl > 0 {
        u128_sat(agg_pnl_pos(m, n - 1) + m.accounts[n - 1].pnl)
    } else {
        agg_pnl_pos(m, n - 1)
    }
}

/// Aggregate of released positive PnL over used slots below `n` (saturating).
pub open spec fn agg_matured(m: EngineModel, n: int) -> u128
    decreases n,
{
    if n <= 0 {
        0
    } else if m.is_used(n - 1) && m.accounts[n - 1].pnl > 0 {
        u128_sat(
            agg_matured(m, n - 1) + released_of(
                m.accounts[n - 1].pnl,
                m.accounts[n - 1].reserved_pnl,
            ),
        )
    } else {
        agg_matured(m, n - 1)
    }
}

/// floor(max(pnl, 0) * h_num / h_den).
pub open spec fn eff_pos_pnl_spec(m: EngineModel, pnl: i128) -> int {
    let h = haircut_spec(m);
    if pnl <= 0 {
        0
    } else {
        floor_div(pnl as int, h.0, h.1)
    }
}

/// max(0, C + min(PNL, 0) + PNL_eff_pos), each step clamped to `i128`.
pub open spec fn eff_equity_spec(m: EngineModel, a: Account) -> int {
    let cap = min_int(a.capital.0 as int, i128::MAX as int);
    let neg = min_int(a.pnl as int, 0);
    let e = i128_sat(i128_sat(cap + neg) + min_int(eff_pos_pnl_spec(m, a.pnl), i128::MAX as int));
    if e > 0 {
        e as int
    } else {
        0
    }
}

proof fn lemma_haircut_bounds(m: EngineModel)
    ensures
        0 <= haircut_spec(m).0 <= haircut_spec(m).1,
        haircut_spec(m).1 >= 1,
{
}

proof fn lemma_floor_le(x: int, n: int, d: int)
    requires
        x >= 0,
        0 <= n <= d,
        d >= 1,
    ensures
        0 <= (x * n) / d <= x,
{
    assert(x * n <= x * d) by (nonlinear_arith)
        requires
            x >= 0,
            n <= d,
    ;
    assert(x * n >= 0) by (nonlinear_arith)
        requires
            x >= 0,
            n >= 0,
    ;
    assert(x * d == d * x) by (nonlinear_arith);
    vstd::arithmetic::div_mod::lemma_div_is_ordered(x * n, x * d, d);
    vstd::arithmetic::div_mod::lemma_div_multiples_vanish(x, d);
    vstd::arithmetic::div_mod::lemma_div_pos_is_pos(x * n, d);
}

impl RiskEngine {
    /// Rejects funding rates whose magnitude exceeds the per-slot bound.
    pub(crate) fn validate_funding_rate(rate: i64) -> (r: RiskResult<()>)
        ensures
            r is Ok <==> -MAX_ABS_FUNDING_BPS_PER_SLOT <= rate <= MAX_ABS_FUNDING_BPS_PER_SLOT,
            r is Err ==> r == Err::<(), RiskError>(RiskError::Overflow),
    {
        if rate > MAX_ABS_FUNDING_BPS_PER_SLOT || rate < -MAX_ABS_FUNDING_BPS_PER_SLOT {
            return Err(RiskError::Overflow);
        }
        Ok(())
    }

    /// Stores the (bounded) funding rate for the next interval.
    pub(crate) fn recompute_r_last_from_final_state(&mut self, externally_computed_rate: i64) -> (r:
        RiskResult<()>)
        ensures
            r is Ok <==> -MAX_ABS_FUNDING_BPS_PER_SLOT <= externally_computed_rate
                <= MAX_ABS_FUNDING_BPS_PER_SLOT,
            r is Ok ==> final(self)@ == (EngineModel {
                funding_rate_bps_per_slot_last: externally_computed_rate,
                ..old(self)@
            }),
            r is Err ==> final(self)@ == old(self)@ && r == Err::<(), RiskError>(
                RiskError::Overflow,
            ),
    {
        if externally_computed_rate > MAX_ABS_FUNDING_BPS_PER_SLOT || externally_computed_rate
            < -MAX_ABS_FUNDING_BPS_PER_SLOT {
            return Err(RiskError::Overflow);
        }
        self.funding_rate_bps_per_slot_last = externally_computed_rate;
        Ok(())
    }

    /// Advances the K coefficients for the mark move and the funding owed
    /// since the last market slot; nothing changes on error.
    #[verifier::loop_isolation(false)]
    pub(crate) fn accrue_market_to(&mut self, now_slot: u64, oracle_price: u64) -> (r: RiskResult<
        (),
    >)
        ensures
            accrue_spec(old(self)@, now_slot, oracle_price) matches Some(m) ==> r is Ok
                && final(self)@ == m,
            accrue_spec(old(self)@, now_slot, oracle_price) is None ==> r == Err::<(), RiskError>(
                RiskError::Overflow,
            ) && final(self)@ == old(self)@,
    {
        if oracle_price == 0 || oracle_price > MAX_ORACLE_PRICE {
            return Err(RiskError::Overflow);
        }
        if now_slot < self.current_slot {
            return Err(RiskError::Overflow);
        }
        if now_slot < self.last_market_slot {
            return Err(RiskError::Overflow);
        }
        let long_live = self.oi_eff_long_q != 0;
        let short_live = self.oi_eff_short_q != 0;
        let total_dt = now_slot - self.last_market_slot;
        if total_dt == 0 && self.last_oracle_price == oracle_price {
            self.current_slot = now_slot;
            return Ok(());
        }
        let mut k_long = self.adl_coeff_long;
        let mut k_short = self.adl_coeff_short;
        let delta_p: i128 = (oracle_price as i128) - (self.last_oracle_price as i128);
        if delta_p != 0 {
            if long_live {
                let dk = match checked_u128_mul_i128(self.adl_mult_long, delta_p) {
                    Ok(v) => v,
                    Err(e) => {
                        return Err(e);
                    },
                };
                k_long = match k_long.checked_add(dk) {
                    Some(v) => v,
                    None => {
                        return Err(RiskError::Overflow);
                    },
                };
            }
            if short_live {
                let dk = match checked_u128_mul_i128(self.adl_mult_short, delta_p) {
                    Ok(v) => v,
                    Err(e) => {
                        return Err(e);
                    },
                };
                k_short = match k_short.checked_sub(dk) {
                    Some(v) => v,
                    None => {
                        return Err(RiskError::Overflow);
                    },
                };
            }
        }
        assert(mark_k(self@, oracle_price) == Some((k_long as int, k_short as int)));
        let r_last = self.funding_rate_bps_per_slot_last;
        if r_last != 0 && total_dt > 0 && long_live && short_live {
            let fund_px_0 = self.funding_price_sample_last;
            if fund_px_0 > 0 {
                let a_long = self.adl_mult_long;
                let a_short = self.adl_mult_short;
                let ghost target = funding_steps(
                    k_long as int,
                    k_short as int,
                    a_long,
                    a_short,
                    fund_px_0,
                    r_last,
                    total_dt as nat,
                );
                let mut dt_remaining = total_dt;
                while dt_remaining > 0
                    invariant
                        target == funding_steps(
                            k_long as int,
                            k_short as int,
                            a_long,
                            a_short,
                            fund_px_0,
                            r_last,
                            dt_remaining as nat,
                        ),
                    decreases dt_remaining,
                {
                    let dt_sub = crate::num::min_u64(dt_remaining, MAX_FUNDING_DT);
                    let ghost rem_before = dt_remaining;
                    dt_remaining = dt_remaining - dt_sub;
                    proof {
                        assert(fund_px_0 * r_last <= i128::MAX && fund_px_0 * r_last >= i128::MIN)
                            by (nonlinear_arith)
                            requires
                                0 <= fund_px_0 <= u64::MAX,
                                i64::MIN <= r_last <= i64::MAX,
                        ;
                    }
                    let n1: i128 = (fund_px_0 as i128) * (r_last as i128);
                    let fund_num = match n1.checked_mul(dt_sub as i128) {
                        Some(v) => v,
                        None => {
                            proof {
                                assert(fund_px_0 * r_last * dt_sub == n1 * dt_sub);
                            }
                            return Err(RiskError::Overflow);
                        },
                    };
                    proof {
                        assert(fund_px_0 * r_last * dt_sub == n1 * dt_sub);
                    }
                    let fund_term = crate::wide_math::floor_div_signed_conservative_i128(
                        fund_num,
                        10_000u128,
                    );
                    if fund_term != 0 {
                        let dk_long = match checked_u128_mul_i128(a_long, fund_term) {
                            Ok(v) => v,
                            Err(e) => {
                                return Err(e);
                            },
                        };
                        let dk_short = match checked_u128_mul_i128(a_short, fund_term) {
                            Ok(v) => v,
                            Err(e) => {
                                return Err(e);
                            },
                        };
                        k_long = match k_long.checked_sub(dk_long) {
                            Some(v) => v,
                            None => {
                                return Err(RiskError::Overflow);
                            },
                        };
                        k_short = match k_short.checked_add(dk_short) {
                            Some(v) => v,
                            None => {
                                return Err(RiskError::Overflow);
                            },
                        };
                    }
                }
            }
        }
        self.adl_coeff_long = k_long;
        self.adl_coeff_short = k_short;
        self.current_slot = now_slot;
        self.last_market_slot = now_slot;
        self.last_oracle_price = oracle_price;
        self.funding_price_sample_last = oracle_price;
        Ok(())
    }

    /// Recomputes `c_tot`, `pnl_pos_tot` and `pnl_matured_pos_tot` from the
    /// used accounts (saturating sums).
    pub fn recompute_aggregates(&mut self)
        requires
            old(self).wf(),
        ensures
            final(self).wf(),
            final(self)@ == (EngineModel {
                c_tot: U128(agg_capital(old(self)@, MAX_ACCOUNTS as int)),
                pnl_pos_tot: agg_pnl_pos(old(self)@, MAX_ACCOUNTS as int),
                pnl_matured_pos_tot: agg_matured(old(self)@, MAX_ACCOUNTS as int),
                ..old(self)@
            }),
    {
        let mut c_tot: u128 = 0;
        let mut pnl_pos_tot: u128 = 0;
        let mut pnl_matured_pos_tot: u128 = 0;
        let mut idx: usize = 0;
        while idx < MAX_ACCOUNTS
            invariant
                idx <= MAX_ACCOUNTS,
                self.wf(),
                c_tot == agg_capital(self@, idx as int),
                pnl_pos_tot == agg_pnl_pos(self@, idx as int),
                pnl_matured_pos_tot == agg_matured(self@, idx as int),
            decreases MAX_ACCOUNTS - idx,
        {
            if self.is_used(idx) {
                let account = self.accounts[idx];
                c_tot = crate::num::sat_add_u128(c_tot, account.capital.0);
                let pnl = account.pnl;
                if pnl > 0 {
                    let pos = pnl as u128;
                    pnl_pos_tot = crate::num::sat_add_u128(pnl_pos_tot, pos);
                    let released = crate::num::sat_sub_u128(pos, account.reserved_pnl);
                    pnl_matured_pos_tot = crate::num::sat_add_u128(pnl_matured_pos_tot, released);
                }
            }
            idx = idx + 1;
        }
        self.c_tot = U128(c_tot);
        self.pnl_pos_tot = pnl_pos_tot;
        self.pnl_matured_pos_tot = pnl_matured_pos_tot;
    }

    /// Positive PnL after the haircut: floor(max(pnl, 0) * h_num / h_den).
    pub fn effective_pos_pnl(&self, pnl: i128) -> (r: u128)
        ensures
            r == eff_pos_pnl_spec(self@, pnl),
            r <= pos_part(pnl),
    {
        if pnl <= 0 {
            return 0;
        }
        let pos_pnl = pnl as u128;
        let (h_num, h_den) = self.haircut_ratio();
        proof {
            lemma_haircut_bounds(self@);
            lemma_floor_le(pos_pnl as int, h_num as int, h_den as int);
        }
        crate::wide_math::mul_div_floor_u128(pos_pnl, h_num, h_den)
    }

    /// Realized equity: max(0, C + min(PNL, 0) + PNL_eff_pos).
    pub fn effective_equity(&self, account: &Account) -> (r: u128)
        ensures
            r == eff_equity_spec(self@, *account),
    {
        let cap_i = crate::num::u128_to_i128_clamped(account.capital.0);
        let neg_pnl = crate::num::min_i128(account.pnl, 0);
        let eff_pos = self.effective_pos_pnl(account.pnl);
        let eq_i = crate::num::sat_add_i128(
            crate::num::sat_add_i128(cap_i, neg_pnl),
            crate::num::u128_to_i128_clamped(eff_pos),
        );
        if eq_i > 0 {
            eq_i as u128
        } else {
            0
        }
    }

    /// Released profit of `idx` after the haircut.
    pub fn effective_matured_pnl(&self, idx: usize) -> (r: u128)
        requires
            self.wf(),
            idx < MAX_ACCOUNTS,
        ensures
            r == floor_div(
                released_of(self@.accounts[idx as int].pnl, self@.accounts[idx as int].reserved_pnl),
                haircut_spec(self@).0,
                haircut_spec(self@).1,
            ),
    {
        let released = self.released_pos(idx);
        if released == 0 {
            return 0;
        }
        let (h_num, h_den) = self.haircut_ratio();
        proof {
            lemma_haircut_bounds(self@);
            lemma_floor_le(released as int, h_num as int, h_den as int);
        }
        crate::wide_math::wide_mul_div_floor_u128(released, h_num, h_den)
    }
}

} // verus!
