//! Equity measures, margin predicates and the post-trade margin gate.
use vstd::prelude::*;
use crate::num::{i128_sat, u128_sat};
use crate::wide_math::{floor_div, I256};
use crate::engine::types::{Account, RiskError, RiskResult, MAX_ACCOUNTS, POS_SCALE};
use crate::engine::state::{EngineModel, RiskEngine};
use crate::engine::ledger::{haircut_spec, max_int, min_int, released_of};
use crate::engine::positions::{abs_int, eff_pos_spec};
use crate::engine::market::eff_pos_pnl_spec;
use crate::engine::settle::fee_debt;

verus! {

/// floor(a * b / d), saturating at `u128::MAX`.
pub open spec fn sat_fd(a: int, b: int, d: int) -> int {
    if floor_div(a, b, d) > u128::MAX {
        u128::MAX as int
    } else {
        floor_div(a, b, d)
    }
}

/// A `u128` requirement compared in the `i128` domain.
pub open spec fn req_i128(v: int) -> int {
    min_int(v, i128::MAX as int)
}

/// Signed value clamped to `i128` with the negative end at `i128::MIN + 1`.
pub open spec fn clamp_i128_sym(v: int) -> int {
    if v > i128::MAX {
        i128::MAX as int
    } else if v < i128::MIN {
        i128::MIN + 1
    } else {
        v
    }
}

/// Truncating division toward zero, as Rust's `/` on signed values.
pub open spec fn trunc_div(a: int, d: int) -> int {
    if a >= 0 {
        a / d
    } else {
        -((-a) / d)
    }
}

/// Eq_maint_raw = C + PNL - FeeDebt.
pub open spec fn maint_raw(a: Account) -> int {
    a.capital.0 + a.pnl - fee_debt(a.fee_credits.0)
}

/// Eq_init_raw = C + min(PNL, 0) + haircut(released) - FeeDebt.
pub open spec fn init_raw(m: EngineModel, a: Account) -> int {
    let h = haircut_spec(m);
    a.capital.0 + min_int(a.pnl as int, 0) + floor_div(released_of(a.pnl, a.reserved_pnl), h.0, h.1)
        - fee_debt(a.fee_credits.0)
}

pub open spec fn equity_net_spec(a: Account) -> int {
    max_int(clamp_i128_sym(maint_raw(a)), 0)
}

/// MM requirement for a notional: max(notional * mm_bps / 10_000, floor).
pub open spec fn mm_req(m: EngineModel, notional: int) -> int {
    max_int(sat_fd(notional, m.params.maintenance_margin_bps as int, 10_000), m.params.min_nonzero_mm_req as int)
}

/// IM requirement for a notional: max(notional * im_bps / 10_000, floor).
pub open spec fn im_req(m: EngineModel, notional: int) -> int {
    max_int(sat_fd(notional, m.params.initial_margin_bps as int, 10_000), m.params.min_nonzero_im_req as int)
}

pub open spec fn maint_ok_from_notional(m: EngineModel, a: Account, notional: int) -> bool {
    if notional == 0 {
        equity_net_spec(a) > 0
    } else {
        equity_net_spec(a) > req_i128(mm_req(m, notional))
    }
}

/// The post-trade margin rule for one side.
pub open spec fn one_side_ok(
    m: EngineModel,
    i: int,
    price: u64,
    old_eff: i128,
    new_eff: i128,
    buf_pre: int,
    fee: u128,
) -> bool {
    let a = m.accounts[i];
    if new_eff == 0 {
        maint_raw(a) >= 0
    } else {
        let abs_old = abs_int(old_eff as int);
        let abs_new = abs_int(new_eff as int);
        let risk_inc = abs_new > abs_old || (old_eff > 0 && new_eff < 0) || (old_eff < 0 && new_eff
            > 0) || old_eff == 0;
        let strict_red = old_eff != 0 && ((old_eff > 0 && new_eff > 0) || (old_eff < 0 && new_eff
            < 0)) && abs_new < abs_old;
        let not_new = sat_fd(abs_new, price as int, POS_SCALE as int);
        if risk_inc {
            clamp_i128_sym(init_raw(m, a)) >= req_i128(im_req(m, not_new))
        } else if strict_red {
            let mm_post = mm_req(m, not_new);
            let fee_neutral = maint_raw(a) + fee;
            let mm_pre = mm_req(m, sat_fd(abs_old, price as int, POS_SCALE as int));
            let raw_pre = buf_pre + mm_pre;
            let cond1 = fee_neutral - mm_post > buf_pre;
            let cond2 = min_int(fee_neutral, 0) >= min_int(raw_pre, 0);
            (cond1 && cond2) || equity_net_spec(a) > req_i128(mm_post)
        } else {
            maint_ok_from_notional(m, a, not_new)
        }
    }
}

/// Coin-margined mark PnL: trunc((oracle - entry) * |pos| / oracle) for a
/// long (entry - oracle for a short); `None` on overflow or a zero oracle.
pub open spec fn mark_pnl_spec(pos: i128, entry: u64, oracle: u64) -> Option<int> {
    if pos == 0 {
        Some(0)
    } else {
        let abs_pos = min_int(abs_int(pos as int), i128::MAX as int);
        let diff = if pos > 0 {
            oracle - entry
        } else {
            entry - oracle
        };
        let p = diff * abs_pos;
        if !(i128::MIN <= p <= i128::MAX) || oracle == 0 {
            None
        } else {
            Some(trunc_div(p, oracle as int))
        }
    }
}

/// MTM equity: max(0, C + min(PNL, 0) + PNL_eff_pos + mark) - FeeDebt
/// (each sum clamped to `i128`), or 0 when the mark overflows.
pub open spec fn mtm_equity_spec(m: EngineModel, a: Account, oracle: u64) -> int {
    match mark_pnl_spec(a.position_size, a.entry_price, oracle) {
        None => 0,
        Some(mark) => {
            let cap = min_int(a.capital.0 as int, i128::MAX as int);
            let e = i128_sat(
                i128_sat(
                    i128_sat(cap + min_int(a.pnl as int, 0)) + min_int(
                        eff_pos_pnl_spec(m, a.pnl),
                        i128::MAX as int,
                    ),
                ) + mark,
            );
            let eq = if e > 0 {
                e as int
            } else {
                0
            };
            max_int(eq - fee_debt(a.fee_credits.0), 0)
        },
    }
}

/// Required MTM margin at `bps`: the larger of the price-based (with the
/// maintenance floor) and the position-based requirement.
pub open spec fn mtm_required(m: EngineModel, a: Account, oracle: u64, bps: u64) -> int {
    let abs_pos = min_int(abs_int(a.position_size as int), i128::MAX as int);
    let value = sat_fd(abs_pos, oracle as int, 1_000_000);
    let proportional = sat_fd(value, bps as int, 10_000);
    let margin = max_int(proportional, m.params.min_nonzero_mm_req as int);
    let pos_margin = sat_fd(abs_pos, bps as int, 10_000);
    max_int(pos_margin, margin)
}

proof fn lemma_haircut_le(m: EngineModel, x: int)
    requires
        x >= 0,
    ensures
        0 <= floor_div(x, haircut_spec(m).0, haircut_spec(m).1) <= x,
{
    let h = haircut_spec(m);
    assert(0 <= h.0 <= h.1 && h.1 >= 1);
    assert(x * h.0 <= x * h.1) by (nonlinear_arith)
        requires
            x >= 0,
            h.0 <= h.1,
    ;
    assert(x * h.0 >= 0) by (nonlinear_arith)
        requires
            x >= 0,
            h.0 >= 0,
    ;
    assert(x * h.1 == h.1 * x) by (nonlinear_arith);
    vstd::arithmetic::div_mod::lemma_div_is_ordered(x * h.0, x * h.1, h.1);
    vstd::arithmetic::div_mod::lemma_div_multiples_vanish(x, h.1);
    vstd::arithmetic::div_mod::lemma_div_pos_is_pos(x * h.0, h.1);
}

proof fn lemma_two_pow_128()
    ensures
        crate::wide_math::two_pow_128() == 0x1_0000_0000_0000_0000_0000_0000_0000_0000,
{
}

impl RiskEngine {
    /// Coin-margined mark PnL of a position opened at `entry`.
    pub fn mark_pnl_for_position(pos: i128, entry: u64, oracle: u64) -> (r: RiskResult<i128>)
        ensures
            mark_pnl_spec(pos, entry, oracle) matches Some(v) ==> r == Ok::<i128, RiskError>(
                v as i128,
            ),
            mark_pnl_spec(pos, entry, oracle) is None ==> r == Err::<i128, RiskError>(
                RiskError::Overflow,
            ),
    {
        if pos == 0 {
            return Ok(0);
        }
        let abs_pos: i128 = crate::num::saturating_abs_i128(pos);
        let diff: i128 = if pos > 0 {
            (oracle as i128) - (entry as i128)
        } else {
            (entry as i128) - (oracle as i128)
        };
        let p = match diff.checked_mul(abs_pos) {
            Some(v) => v,
            None => {
                return Err(RiskError::Overflow);
            },
        };
        if oracle == 0 {
            return Err(RiskError::Overflow);
        }
        let o = oracle as u128;
        if p >= 0 {
            let q = (p as u128) / o;
            proof {
                assert(q <= p);
            }
            Ok(q as i128)
        } else {
            let mag = crate::num::neg_i128_to_u128(p);
            let q = mag / o;
            proof {
                vstd::arithmetic::div_mod::lemma_div_is_ordered_by_denominator(mag as int, 1, o as int);
                assert(q <= mag);
            }
            if q > i128::MAX as u128 {
                Ok(i128::MIN)
            } else {
                Ok(-(q as i128))
            }
        }
    }

    /// max(0, C + PNL), each clamped to `i128`.
    pub fn account_equity(&self, account: &Account) -> (r: u128)
        ensures
            r == max_int(
                i128_sat(min_int(account.capital.0 as int, i128::MAX as int) + account.pnl) as int,
                0,
            ),
    {
        let cap_i = crate::num::u128_to_i128_clamped(account.capital.0);
        let eq_i = crate::num::sat_add_i128(cap_i, account.pnl);
        if eq_i > 0 {
            eq_i as u128
        } else {
            0
        }
    }

    /// floor(|effective position| * oracle_price / POS_SCALE), saturating.
    pub fn notional(&self, idx: usize, oracle_price: u64) -> (r: u128)
        requires
            self.wf(),
            idx < MAX_ACCOUNTS,
        ensures
            r == sat_fd(abs_int(eff_pos_spec(self@, idx as int)), oracle_price as int, POS_SCALE as int),
    {
        let eff = self.effective_pos_q(idx);
        if eff == 0 {
            proof {
                assert(floor_div(0, oracle_price as int, POS_SCALE as int) == 0);
            }
            return 0;
        }
        let abs_eff = crate::num::abs_i128(eff);
        crate::wide_math::mul_div_floor_u128(abs_eff, oracle_price as u128, POS_SCALE)
    }

    /// Eq_maint_raw = C + PNL - FeeDebt, exact.
    pub fn account_equity_maint_raw_wide(&self, account: &Account) -> (r: I256)
        ensures
            r.value() == maint_raw(*account),
    {
        proof {
            lemma_two_pow_128();
        }
        let cap = I256::from_u128(account.capital.0);
        let pnl = I256::from_i128(account.pnl);
        let debt = if account.fee_credits.0 < 0 {
            I256::from_u128(crate::num::neg_i128_to_u128(account.fee_credits.0))
        } else {
            I256::zero()
        };
        let s = match cap.checked_add(pnl) {
            Some(v) => v,
            None => {
                proof {
                    assert(false);
                }
                I256::zero()
            },
        };
        match s.checked_sub(debt) {
            Some(v) => v,
            None => {
                proof {
                    assert(false);
                }
                I256::zero()
            },
        }
    }

    /// Eq_maint_raw clamped to `i128` (negative side at `i128::MIN + 1`).
    pub fn account_equity_maint_raw(&self, account: &Account) -> (r: i128)
        ensures
            r == clamp_i128_sym(maint_raw(*account)),
    {
        let wide = self.account_equity_maint_raw_wide(account);
        match wide.try_into_i128() {
            Some(v) => v,
            None => {
                if wide.is_negative() {
                    i128::MIN + 1
                } else {
                    i128::MAX
                }
            },
        }
    }

    /// Eq_init_raw = C + min(PNL, 0) + haircut(released) - FeeDebt, clamped.
    pub fn account_equity_init_raw(&self, account: &Account) -> (r: i128)
        ensures
            r == clamp_i128_sym(init_raw(self@, *account)),
    {
        proof {
            lemma_two_pow_128();
        }
        let cap = I256::from_u128(account.capital.0);
        let neg_pnl_val: i128 = if account.pnl < 0 {
            account.pnl
        } else {
            0
        };
        let neg_pnl = I256::from_i128(neg_pnl_val);
        let pos: u128 = if account.pnl > 0 {
            account.pnl as u128
        } else {
            0
        };
        let released = crate::num::sat_sub_u128(pos, account.reserved_pnl);
        let (h_num, h_den) = self.haircut_ratio();
        proof {
            lemma_haircut_le(self@, released as int);
        }
        let eff_matured = crate::wide_math::mul_div_floor_u128(released, h_num, h_den);
        let eff_mat_wide = I256::from_u128(eff_matured);
        let debt = if account.fee_credits.0 < 0 {
            I256::from_u128(crate::num::neg_i128_to_u128(account.fee_credits.0))
        } else {
            I256::zero()
        };
        let s1 = match cap.checked_add(neg_pnl) {
            Some(v) => v,
            None => {
                proof {
                    assert(false);
                }
                I256::zero()
            },
        };
        let s2 = match s1.checked_add(eff_mat_wide) {
            Some(v) => v,
            None => {
                proof {
                    assert(false);
                }
                I256::zero()
            },
        };
        let sum = match s2.checked_sub(debt) {
            Some(v) => v,
            None => {
                proof {
                    assert(false);
                }
                I256::zero()
            },
        };
        match sum.try_into_i128() {
            Some(v) => v,
            None => {
                if sum.is_negative() {
                    i128::MIN + 1
                } else {
                    i128::MAX
                }
            },
        }
    }

    /// max(0, Eq_init_raw).
    pub fn account_equity_init_net(&self, account: &Account) -> (r: i128)
        ensures
            r == max_int(clamp_i128_sym(init_raw(self@, *account)), 0),
    {
        let raw = self.account_equity_init_raw(account);
        if raw < 0 {
            0
        } else {
            raw
        }
    }

    /// max(0, Eq_maint_raw).
    pub fn account_equity_net(&self, account: &Account, _oracle_price: u64) -> (r: i128)
        ensures
            r == equity_net_spec(*account),
    {
        let raw = self.account_equity_maint_raw(account);
        if raw < 0 {
            0
        } else {
            raw
        }
    }

    fn u128_req_to_i128(v: u128) -> (r: i128)
        ensures
            r == req_i128(v as int),
    {
        if v > i128::MAX as u128 {
            i128::MAX
        } else {
            v as i128
        }
    }

    /// Eq_net > MM requirement of the current effective position (> 0 when flat).
    pub fn is_above_maintenance_margin(&self, account: &Account, idx: usize, oracle_price: u64) -> (r:
        bool)
        requires
            self.wf(),
            idx < MAX_ACCOUNTS,
        ensures
            eff_pos_spec(self@, idx as int) == 0 ==> r == (equity_net_spec(*account) > 0),
            eff_pos_spec(self@, idx as int) != 0 ==> r == (equity_net_spec(*account) > req_i128(
                mm_req(
                    self@,
                    sat_fd(
                        abs_int(eff_pos_spec(self@, idx as int)),
                        oracle_price as int,
                        POS_SCALE as int,
                    ),
                ),
            )),
    {
        let eq_net = self.account_equity_net(account, oracle_price);
        let eff = self.effective_pos_q(idx);
        if eff == 0 {
            return eq_net > 0;
        }
        let not = self.notional(idx, oracle_price);
        let proportional = crate::wide_math::mul_div_floor_u128(
            not,
            self.params.maintenance_margin_bps as u128,
            10_000,
        );
        let req = crate::num::max_u128(proportional, self.params.min_nonzero_mm_req);
        eq_net > Self::u128_req_to_i128(req)
    }

    /// Maintenance check against a given notional.
    fn is_above_maintenance_margin_from_notional(
        &self,
        account: &Account,
        notional: u128,
        oracle_price: u64,
    ) -> (r: bool)
        ensures
            r == maint_ok_from_notional(self@, *account, notional as int),
    {
        let eq_net = self.account_equity_net(account, oracle_price);
        if notional == 0 {
            return eq_net > 0;
        }
        let proportional = crate::wide_math::mul_div_floor_u128(
            notional,
            self.params.maintenance_margin_bps as u128,
            10_000,
        );
        let req = crate::num::max_u128(proportional, self.params.min_nonzero_mm_req);
        eq_net > Self::u128_req_to_i128(req)
    }

    /// Eq_init_raw >= IM requirement of the current effective position (>= 0 when flat).
    pub fn is_above_initial_margin(&self, account: &Account, idx: usize, oracle_price: u64) -> (r:
        bool)
        requires
            self.wf(),
            idx < MAX_ACCOUNTS,
        ensures
            eff_pos_spec(self@, idx as int) == 0 ==> r == (clamp_i128_sym(init_raw(self@, *account))
                >= 0),
            eff_pos_spec(self@, idx as int) != 0 ==> r == (clamp_i128_sym(init_raw(self@, *account))
                >= req_i128(
                im_req(
                    self@,
                    sat_fd(
                        abs_int(eff_pos_spec(self@, idx as int)),
                        oracle_price as int,
                        POS_SCALE as int,
                    ),
                ),
            )),
    {
        let eq_init_raw = self.account_equity_init_raw(account);
        let eff = self.effective_pos_q(idx);
        if eff == 0 {
            return eq_init_raw >= 0;
        }
        let not = self.notional(idx, oracle_price);
        let proportional = crate::wide_math::mul_div_floor_u128(
            not,
            self.params.initial_margin_bps as u128,
            10_000,
        );
        let req = crate::num::max_u128(proportional, self.params.min_nonzero_im_req);
        eq_init_raw >= Self::u128_req_to_i128(req)
    }

    /// Post-trade margin gate for both parties; `b` (the LP) pays no fee.
    pub fn enforce_post_trade_margin(
        &self,
        a: usize,
        b: usize,
        oracle_price: u64,
        old_eff_a: &i128,
        new_eff_a: &i128,
        old_eff_b: &i128,
        new_eff_b: &i128,
        buffer_pre_a: I256,
        buffer_pre_b: I256,
        fee: u128,
    ) -> (r: RiskResult<()>)
        requires
            self.wf(),
            a < MAX_ACCOUNTS,
            b < MAX_ACCOUNTS,
            crate::wide_math::i256_in_range(buffer_pre_a.value() + u128::MAX),
            crate::wide_math::i256_in_range(buffer_pre_b.value() + u128::MAX),
        ensures
            r is Ok <==> one_side_ok(
                self@,
                a as int,
                oracle_price,
                *old_eff_a,
                *new_eff_a,
                buffer_pre_a.value(),
                fee,
            ) && one_side_ok(
                self@,
                b as int,
                oracle_price,
                *old_eff_b,
                *new_eff_b,
                buffer_pre_b.value(),
                0,
            ),
            r is Err ==> r == Err::<(), RiskError>(RiskError::Undercollateralized),
    {
        match self.enforce_one_side_margin(a, oracle_price, old_eff_a, new_eff_a, buffer_pre_a, fee) {
            Ok(()) => {},
            Err(e) => {
                return Err(e);
            },
        }
        self.enforce_one_side_margin(b, oracle_price, old_eff_b, new_eff_b, buffer_pre_b, 0)
    }

    /// Post-trade margin gate for one account.
    pub fn enforce_one_side_margin_pub(
        &self,
        idx: usize,
        oracle_price: u64,
        old_eff: &i128,
        new_eff: &i128,
        buffer_pre: I256,
        fee: u128,
    ) -> (r: RiskResult<()>)
        requires
            self.wf(),
            idx < MAX_ACCOUNTS,
            crate::wide_math::i256_in_range(buffer_pre.value() + u128::MAX),
        ensures
            r is Ok <==> one_side_ok(
                self@,
                idx as int,
                oracle_price,
                *old_eff,
                *new_eff,
                buffer_pre.value(),
                fee,
            ),
            r is Err ==> r == Err::<(), RiskError>(RiskError::Undercollateralized),
    {
        self.enforce_one_side_margin(idx, oracle_price, old_eff, new_eff, buffer_pre, fee)
    }

    fn mm_req_of(&self, notional: u128) -> (r: u128)
        ensures
            r == mm_req(self@, notional as int),
    {
        let proportional = crate::wide_math::mul_div_floor_u128(
            notional,
            self.params.maintenance_margin_bps as u128,
            10_000,
        );
        crate::num::max_u128(proportional, self.params.min_nonzero_mm_req)
    }

    fn enforce_one_side_margin(
        &self,
        idx: usize,
        oracle_price: u64,
        old_eff: &i128,
        new_eff: &i128,
        buffer_pre: I256,
        fee: u128,
    ) -> (r: RiskResult<()>)
        requires
            self.wf(),
            idx < MAX_ACCOUNTS,
            crate::wide_math::i256_in_range(buffer_pre.value() + u128::MAX),
        ensures
            r is Ok <==> one_side_ok(
                self@,
                idx as int,
                oracle_price,
                *old_eff,
                *new_eff,
                buffer_pre.value(),
                fee,
            ),
            r is Err ==> r == Err::<(), RiskError>(RiskError::Undercollateralized),
    {
        proof {
            lemma_two_pow_128();
        }
        let acc = self.accounts[idx];
        if *new_eff == 0 {
            let maint_raw = self.account_equity_maint_raw_wide(&acc);
            if maint_raw.is_negative() {
                return Err(RiskError::Undercollateralized);
            }
            return Ok(());
        }
        let abs_old = crate::num::abs_i128(*old_eff);
        let abs_new = crate::num::abs_i128(*new_eff);
        let risk_increasing = abs_new > abs_old || (*old_eff > 0 && *new_eff < 0) || (*old_eff < 0
            && *new_eff > 0) || *old_eff == 0;
        let strictly_reducing = *old_eff != 0 && *new_eff != 0 && ((*old_eff > 0 && *new_eff > 0)
            || (*old_eff < 0 && *new_eff < 0)) && abs_new < abs_old;
        let notional_new = crate::wide_math::mul_div_floor_u128(
            abs_new,
            oracle_price as u128,
            POS_SCALE,
        );
        if risk_increasing {
            let proportional = crate::wide_math::mul_div_floor_u128(
                notional_new,
                self.params.initial_margin_bps as u128,
                10_000,
            );
            let req = crate::num::max_u128(proportional, self.params.min_nonzero_im_req);
            let eq_init_raw = self.account_equity_init_raw(&acc);
            if eq_init_raw < Self::u128_req_to_i128(req) {
                return Err(RiskError::Undercollateralized);
            }
        } else if strictly_reducing {
            let post = self.account_equity_maint_raw_wide(&acc);
            let fee_neutral = match post.checked_add(I256::from_u128(fee)) {
                Some(v) => v,
                None => {
                    proof {
                        assert(false);
                    }
                    I256::zero()
                },
            };
            let mm_post = self.mm_req_of(notional_new);
            let buffer_post = match fee_neutral.checked_sub(I256::from_u128(mm_post)) {
                Some(v) => v,
                None => {
                    proof {
                        assert(false);
                    }
                    I256::zero()
                },
            };
            let not_pre = crate::wide_math::mul_div_floor_u128(
                abs_old,
                oracle_price as u128,
                POS_SCALE,
            );
            let mm_pre = self.mm_req_of(not_pre);
            let raw_pre = match buffer_pre.checked_add(I256::from_u128(mm_pre)) {
                Some(v) => v,
                None => {
                    proof {
                        assert(false);
                    }
                    I256::zero()
                },
            };
            let cond1 = buffer_pre.is_lt(&buffer_post);
            let zero = I256::zero();
            let shortfall_post = if fee_neutral.is_lt(&zero) {
                fee_neutral
            } else {
                zero
            };
            let shortfall_pre = if raw_pre.is_lt(&zero) {
                raw_pre
            } else {
                zero
            };
            let cond2 = shortfall_pre.is_le(&shortfall_post);
            if !(cond1 && cond2) {
                let eq_net = self.account_equity_net(&acc, oracle_price);
                if eq_net <= Self::u128_req_to_i128(mm_post) {
                    return Err(RiskError::Undercollateralized);
                }
            }
        } else if self.is_above_maintenance_margin_from_notional(&acc, notional_new, oracle_price) {
        } else {
            return Err(RiskError::Undercollateralized);
        }
        Ok(())
    }

    /// MTM equity at the oracle price after the haircut, net of fee debt;
    /// 0 when the mark overflows.
    pub fn account_equity_mtm_at_oracle(&self, account: &Account, oracle_price: u64) -> (r: u128)
        ensures
            r == mtm_equity_spec(self@, *account, oracle_price),
    {
        let mark = match Self::mark_pnl_for_position(
            account.position_size,
            account.entry_price,
            oracle_price,
        ) {
            Ok(m) => m,
            Err(_) => {
                return 0;
            },
        };
        let cap_i = crate::num::u128_to_i128_clamped(account.capital.0);
        let neg_pnl = crate::num::min_i128(account.pnl, 0);
        let eff_pos = self.effective_pos_pnl(account.pnl);
        let e1 = crate::num::sat_add_i128(cap_i, neg_pnl);
        let e2 = crate::num::sat_add_i128(e1, crate::num::u128_to_i128_clamped(eff_pos));
        let eq_i = crate::num::sat_add_i128(e2, mark);
        let eq: u128 = if eq_i > 0 {
            eq_i as u128
        } else {
            0
        };
        let debt = crate::num::clamp_neg_i128(account.fee_credits.0);
        crate::num::sat_sub_u128(eq, debt)
    }

    fn mtm_required_of(&self, account: &Account, oracle_price: u64, bps: u64) -> (r: u128)
        ensures
            r == mtm_required(self@, *account, oracle_price, bps),
    {
        let abs_pos = crate::num::saturating_abs_i128(account.position_size) as u128;
        let value = crate::wide_math::mul_div_floor_u128(abs_pos, oracle_price as u128, 1_000_000);
        let proportional = crate::wide_math::mul_div_floor_u128(value, bps as u128, 10_000);
        let margin = crate::num::max_u128(proportional, self.params.min_nonzero_mm_req);
        let pos_margin = crate::wide_math::mul_div_floor_u128(abs_pos, bps as u128, 10_000);
        crate::num::max_u128(pos_margin, margin)
    }

    /// MTM equity strictly above the requirement at `bps`.
    pub fn is_above_margin_bps_mtm(&self, account: &Account, oracle_price: u64, bps: u64) -> (r:
        bool)
        ensures
            r == (mtm_equity_spec(self@, *account, oracle_price) > mtm_required(
                self@,
                *account,
                oracle_price,
                bps,
            )),
    {
        let equity = self.account_equity_mtm_at_oracle(account, oracle_price);
        equity > self.mtm_required_of(account, oracle_price, bps)
    }

    /// MTM equity strictly above the maintenance requirement.
    pub fn is_above_maintenance_margin_mtm(&self, account: &Account, oracle_price: u64) -> (r: bool)
        ensures
            r == (mtm_equity_spec(self@, *account, oracle_price) > mtm_required(
                self@,
                *account,
                oracle_price,
                self@.params.maintenance_margin_bps,
            )),
    {
        self.is_above_margin_bps_mtm(account, oracle_price, self.params.maintenance_margin_bps)
    }

    /// Liquidation ranking: how far MTM equity falls short of maintenance.
    fn liq_priority_score(&self, a: &Account, oracle_price: u64) -> (r: u128)
        ensures
            a.position_size == 0 ==> r == 0,
            a.position_size != 0 ==> r == max_int(
                max_int(
                    sat_fd(
                        min_int(abs_int(a.position_size as int), i128::MAX as int),
                        self@.params.maintenance_margin_bps as int,
                        10_000,
                    ),
                    sat_fd(
                        sat_fd(
                            min_int(abs_int(a.position_size as int), i128::MAX as int),
                            oracle_price as int,
                            1_000_000,
                        ),
                        self@.params.maintenance_margin_bps as int,
                        10_000,
                    ),
                ) - mtm_equity_spec(self@, *a, oracle_price),
                0,
            ),
    {
        if a.position_size == 0 {
            return 0;
        }
        let equity = self.account_equity_mtm_at_oracle(a, oracle_price);
        let abs_pos = crate::num::saturating_abs_i128(a.position_size) as u128;
        let pos_value = crate::wide_math::mul_div_floor_u128(abs_pos, oracle_price as u128, 1_000_000);
        let bps = self.params.maintenance_margin_bps as u128;
        let price_maint = crate::wide_math::mul_div_floor_u128(pos_value, bps, 10_000);
        let pos_maint = crate::wide_math::mul_div_floor_u128(abs_pos, bps, 10_000);
        let maint = crate::num::max_u128(pos_maint, price_maint);
        crate::num::sat_sub_u128(maint, equity)
    }
}

} // verus!
