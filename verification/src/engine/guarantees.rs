//! Properties of the engine that hold across operations and states.
use vstd::prelude::*;
use crate::engine::types::{TradeExecution, MAX_ACCOUNTS};
use crate::engine::state::EngineModel;
use crate::engine::ledger::{haircut_spec, m_put, max_int, min_int, pos_part, reserve_after_pnl};
use crate::engine::trade::fill_spec;
use crate::engine::conservation::{cons_sums, conservation_spec, conserves};
use crate::engine::ledger::{m_set_capital, m_set_pnl};
use crate::num::u128_sat;
use crate::engine::settle::{m_pay_fee_debt, fee_debt};
use crate::engine::account_ops::{deposit_spec, m_deposit_fees, m_settle_warmup, m_loss_writeoff, m_pay_debt_from_capital};
use crate::wide_math::floor_div;
use crate::engine::settle::m_maint_fee;
use crate::engine::refresh::reclaim_spec;
use crate::engine::closing::{close_account_spec, m_payout};
use crate::engine::account_ops::touch_full_spec;
use crate::engine::slots::m_free;
use crate::engine::types::{Account, RiskError, MAX_ORACLE_PRICE};
use crate::num::{I128, U128};

verus! {

/// The haircut applied to matured profit is a ratio in [0, 1] with a
/// positive denominator, in every engine state.
pub proof fn lemma_haircut_is_fraction(m: EngineModel)
    ensures
        0 <= haircut_spec(m).0 <= haircut_spec(m).1,
        haircut_spec(m).1 >= 1,
{
}

/// Whatever PnL an account moves to, its reserve stays between zero and the
/// positive part of the new PnL.
pub proof fn lemma_reserve_within_positive_pnl(old_pnl: i128, old_r: u128, new_pnl: i128)
    ensures
        0 <= reserve_after_pnl(old_pnl, old_r, new_pnl) <= pos_part(new_pnl),
{
}

/// A fill moves PnL between the two parties only: the user's and the LP's
/// PnL sum is the same before and after, and the positions move by opposite
/// amounts.
pub proof fn lemma_fill_is_zero_sum(
    m: EngineModel,
    u: int,
    l: int,
    oracle: u64,
    ex: TradeExecution,
    fee: int,
)
    requires
        fill_spec(m, u, l, oracle, ex, fee) is Ok,
    ensures
        ({
            let f = fill_spec(m, u, l, oracle, ex, fee)->Ok_0;
            &&& f.new_user_pnl + f.new_lp_pnl == m.accounts[u].pnl + m.accounts[l].pnl
            &&& f.new_user_pos - m.accounts[u].position_size == -(f.new_lp_pos
                - m.accounts[l].position_size)
        }),
{
}

proof fn lemma_no_used_sums_zero(m: EngineModel, oracle: u64, n: int)
    requires
        forall|i: int| 0 <= i < MAX_ACCOUNTS ==> !#[trigger] m.is_used(i),
        n <= MAX_ACCOUNTS,
    ensures
        cons_sums(m, oracle, n) == (0u128, 0i128, 0i128, true),
    decreases n,
{
    if n > 0 {
        lemma_no_used_sums_zero(m, oracle, n - 1);
    }
}

/// An engine with no used slot conserves value exactly when its vault holds
/// its insurance (global plus isolated, saturating) up to the rounding slack.
pub proof fn lemma_empty_engine_conservation(m: EngineModel, oracle: u64)
    requires
        forall|i: int| 0 <= i < MAX_ACCOUNTS ==> !#[trigger] m.is_used(i),
    ensures
        conservation_spec(m, oracle) <==> ({
            let ins = crate::num::u128_sat(
                m.insurance_fund.balance.0 + m.insurance_fund.isolated_balance.0,
            );
            m.vault.0 >= ins && m.vault.0 - ins <= crate::engine::types::MAX_ROUNDING_SLACK
        }),
{
    lemma_no_used_sums_zero(m, oracle, MAX_ACCOUNTS as int);
}

/// The capital aggregate covers account `i`'s capital.
pub open spec fn covered(m: EngineModel, i: int) -> bool {
    m.c_tot.0 >= m.accounts[i].capital.0
}

proof fn lemma_set_capital(m: EngineModel, i: int, c: u128)
    requires
        0 <= i < m.accounts.len(),
        covered(m, i),
        m.c_tot.0 + c - m.accounts[i].capital.0 <= u128::MAX,
    ensures
        m_set_capital(m, i, c).c_tot.0 == m.c_tot.0 + c - m.accounts[i].capital.0,
        m_set_capital(m, i, c).accounts[i].capital.0 == c,
        covered(m_set_capital(m, i, c), i),
        m_set_capital(m, i, c).vault == m.vault,
        m_set_capital(m, i, c).insurance_fund == m.insurance_fund,
        m_set_capital(m, i, c).accounts.len() == m.accounts.len(),
{
}

proof fn lemma_pay_fee_debt(m: EngineModel, i: int, pay: int, book: bool)
    requires
        0 <= i < m.accounts.len(),
        conserves(m),
        covered(m, i),
        0 <= pay <= m.accounts[i].capital.0,
    ensures
        conserves(m_pay_fee_debt(m, i, pay, book)),
        covered(m_pay_fee_debt(m, i, pay, book), i),
        m_pay_fee_debt(m, i, pay, book).accounts.len() == m.accounts.len(),
{
    lemma_set_capital(m, i, (m.accounts[i].capital.0 - pay) as u128);
}

proof fn lemma_warmup_conserves(m: EngineModel, i: int)
    requires
        0 <= i < m.accounts.len(),
        conserves(m),
        covered(m, i),
        pos_part(m.accounts[i].pnl) <= m.pnl_matured_pos_tot,
    ensures
        conserves(m_settle_warmup(m, i)),
        covered(m_settle_warmup(m, i), i),
        m_settle_warmup(m, i).accounts.len() == m.accounts.len(),
{
    let a = m.accounts[i];
    if a.pnl < 0 {
        let pay = min_int(-a.pnl, a.capital.0 as int);
        if pay > 0 {
            lemma_set_capital(m, i, (a.capital.0 - pay) as u128);
        }
    } else if a.pnl > 0 {
        let m1 = m_loss_writeoff(m, i);
        assert(m1 == m);
        let elapsed = max_int(m1.current_slot - a.warmup_started_at_slot, 0);
        let x = min_int(a.pnl as int, a.warmup_slope_per_step * elapsed);
        if x > 0 {
            let h = haircut_spec(m1);
            let y = floor_div(x, h.0, h.1);
            let res = m.vault.0 - m.c_tot.0 - (m.insurance_fund.balance.0
                + m.insurance_fund.isolated_balance.0);
            assert(h.1 == m.pnl_matured_pos_tot && h.0 <= res && 0 <= h.0 <= h.1 && h.1 >= 1);
            assert(x <= h.1);
            assert(0 <= y <= h.0) by {
                assert(x * h.0 <= h.1 * h.0) by (nonlinear_arith)
                    requires
                        0 < x <= h.1,
                        0 <= h.0,
                ;
                assert(x * h.0 >= 0) by (nonlinear_arith)
                    requires
                        0 < x,
                        0 <= h.0,
                ;
                vstd::arithmetic::div_mod::lemma_div_is_ordered(x * h.0, h.1 * h.0, h.1);
                vstd::arithmetic::div_mod::lemma_div_by_multiple(h.0, h.1);
                assert(h.1 * h.0 == h.0 * h.1) by (nonlinear_arith);
                vstd::arithmetic::div_mod::lemma_div_pos_is_pos(x * h.0, h.1);
            }
            let m2 = m_set_pnl(m1, i, (a.pnl - x) as i128);
            assert(m2.c_tot == m.c_tot && m2.vault == m.vault && m2.insurance_fund
                == m.insurance_fund);
            assert(m2.accounts[i].capital == a.capital);
            lemma_set_capital(m2, i, u128_sat(m2.accounts[i].capital.0 + y));
        }
    }
}

/// Conservation across a deposit: when the vault covers capital plus
/// insurance, the capital aggregate covers the depositor's capital and the
/// matured-profit total covers the depositor's positive PnL (what the warmup
/// may convert), the vault still covers capital plus insurance afterwards.
pub proof fn lemma_deposit_conserves(m: EngineModel, i: int, amount: u128, now: u64)
    requires
        m.wf(),
        0 <= i < MAX_ACCOUNTS,
        conserves(m),
        covered(m, i),
        pos_part(m.accounts[i].pnl) <= m.pnl_matured_pos_tot,
    ensures
        conserves(deposit_spec(m, i, amount, now).0),
{
    let m0 = EngineModel { current_slot: now, ..m };
    let a = m0.accounts[i];
    let min_dep = m0.params.new_account_fee.0;
    if m0.is_used(i) && m0.vault.0 + amount <= crate::engine::types::MAX_VAULT_TVL && !(min_dep > 0
        && a.capital.0 == 0 && amount < min_dep) {
        let (m1, rem) = m_deposit_fees(m0, i, amount, now);
        assert(m1.accounts[i].capital == a.capital);
        assert(m1.accounts[i].pnl == a.pnl);
        assert(m1.c_tot == m.c_tot);
        assert(m1.accounts.len() == m.accounts.len());
        lemma_set_capital(m1, i, u128_sat(m1.accounts[i].capital.0 + rem));
        let m2 = m_set_capital(m1, i, u128_sat(m1.accounts[i].capital.0 + rem));
        assert(conserves(m2));
        assert(m2.accounts[i].pnl == a.pnl);
        lemma_warmup_conserves(m2, i);
        let m3 = m_settle_warmup(m2, i);
        let b = m3.accounts[i];
        if b.fee_credits.0 < 0 && b.capital.0 != 0 {
            lemma_pay_fee_debt(m3, i, min_int(fee_debt(b.fee_credits.0), b.capital.0 as int), true);
        }
    }
}

proof fn lemma_maint_fee_conserves(m: EngineModel, i: int, now: u64)
    requires
        0 <= i < m.accounts.len(),
        conserves(m),
        covered(m, i),
    ensures
        conserves(m_maint_fee(m, i, now).0),
        covered(m_maint_fee(m, i, now).0, i),
        m_maint_fee(m, i, now).0.accounts.len() == m.accounts.len(),
{
    let fee = m.params.maintenance_fee_per_slot.0;
    let a = m.accounts[i];
    if fee != 0 && now > a.last_fee_slot {
        let due = fee * (now - a.last_fee_slot);
        let new_fc = a.fee_credits.0 - due;
        if due <= crate::engine::types::MAX_PROTOCOL_FEE_ABS && new_fc >= i128::MIN {
            let m1 = m_put(m, i, Account { last_fee_slot: now, ..a });
            let m2 = m_put(m1, i, Account { fee_credits: I128(new_fc as i128), ..m1.accounts[i] });
            let pay = min_int(fee_debt(new_fc as i128), a.capital.0 as int);
            if pay > 0 {
                assert(m2.accounts[i].capital == a.capital);
                lemma_pay_fee_debt(m2, i, pay, true);
            }
        }
    }
}

/// Conservation across the reclaim of an empty account: when the vault
/// covers capital plus insurance and the capital aggregate covers the
/// account's capital, the vault still covers them afterwards (the fee and the
/// dust capital move from capital to insurance).
pub proof fn lemma_reclaim_conserves(m: EngineModel, idx: u16, now: u64)
    requires
        m.wf(),
        idx < MAX_ACCOUNTS,
        conserves(m),
        covered(m, idx as int),
    ensures
        conserves(reclaim_spec(m, idx, now).0),
{
    let i = idx as int;
    if m.is_used(i) && now >= m.current_slot && !(m.accounts[i].position_basis_q != 0
        || m.accounts[i].pnl != 0 || m.accounts[i].reserved_pnl != 0
        || m.accounts[i].fee_credits.0 > 0) {
        let m0 = EngineModel { current_slot: now, ..m };
        lemma_maint_fee_conserves(m0, i, now);
        let (m1, ok) = m_maint_fee(m0, i, now);
        let c = m1.accounts[i].capital.0;
        if ok && !(c >= m1.params.min_initial_deposit.0 && c != 0) && c > 0 {
            lemma_set_capital(m1, i, 0);
        }
    }
}

/// Conservation across the withdrawal step: when the engine after the full
/// refresh conserves value and its capital aggregate covers the account,
/// paying `amount` out of the vault and the capital keeps it so.
pub proof fn lemma_withdraw_step_conserves(m: EngineModel, idx: u16, amount: u128, now: u64, price: u64)
    requires
        m.wf(),
        idx < MAX_ACCOUNTS,
        0 < price <= MAX_ORACLE_PRICE,
        m.is_used(idx as int),
        ({
            let t = touch_full_spec(EngineModel { current_slot: now, ..m }, idx as int, now, price);
            conserves(t.0) && covered(t.0, idx as int) && t.0.accounts.len() == MAX_ACCOUNTS
        }),
    ensures
        ({
            let t = touch_full_spec(EngineModel { current_slot: now, ..m }, idx as int, now, price);
            let a = t.0.accounts[idx as int];
            t.1 is Ok && a.position_size == 0 && a.capital.0 >= amount ==> conserves(
                EngineModel {
                    vault: U128(u128_sat(t.0.vault.0 - amount)),
                    ..m_set_capital(t.0, idx as int, (a.capital.0 - amount) as u128)
                },
            )
        }),
{
    let t = touch_full_spec(EngineModel { current_slot: now, ..m }, idx as int, now, price);
    let a = t.0.accounts[idx as int];
    if a.capital.0 >= amount {
        lemma_set_capital(t.0, idx as int, (a.capital.0 - amount) as u128);
    }
}

/// Conservation across the payout that ends a close: when the engine after
/// the full refresh conserves value and its capital aggregate covers the
/// account, paying the capital out of the vault and freeing the slot keeps it so.
pub proof fn lemma_close_payout_conserves(m: EngineModel, i: int)
    requires
        0 <= i < MAX_ACCOUNTS,
        m.accounts.len() == MAX_ACCOUNTS,
        conserves(m),
        covered(m, i),
    ensures
        conserves(m_free(m_payout(m, i), i)),
{
    let a = m.accounts[i];
    let m1 = if a.fee_credits.0 < 0 {
        m_put(m, i, Account { fee_credits: I128(0), ..a })
    } else {
        m
    };
    let cap = m1.accounts[i].capital.0;
    let mv = EngineModel { vault: U128((m1.vault.0 - cap) as u128), ..m1 };
    lemma_set_capital(mv, i, 0);
}

/// Warmup bounds how fast profit reaches capital: settling the warmup of
/// account `i` raises its capital by at most its warmup slope times the
/// slots elapsed since the warmup started, so profit booked in the current
/// slot cannot become withdrawable capital in that slot.
pub proof fn lemma_warmup_rate_bounded(m: EngineModel, i: int)
    requires
        0 <= i < m.accounts.len(),
    ensures
        m_settle_warmup(m, i).accounts[i].capital.0 <= m.accounts[i].capital.0 + m.accounts[i].warmup_slope_per_step
            * max_int(m.current_slot - m.accounts[i].warmup_started_at_slot, 0),
        m.accounts[i].warmup_started_at_slot == m.current_slot ==> m_settle_warmup(
            m,
            i,
        ).accounts[i].capital.0 <= m.accounts[i].capital.0,
{
    let a = m.accounts[i];
    let elapsed = max_int(m.current_slot - a.warmup_started_at_slot, 0);
    assert(a.warmup_slope_per_step * elapsed >= 0) by (nonlinear_arith)
        requires
            elapsed >= 0,
    ;
    assert(elapsed == 0 ==> a.warmup_slope_per_step * elapsed == 0) by (nonlinear_arith);
    if a.pnl > 0 {
        let m1 = m_loss_writeoff(m, i);
        assert(m1 == m);
        let x = min_int(a.pnl as int, a.warmup_slope_per_step * elapsed);
        if x > 0 {
            let h = haircut_spec(m1);
            let y = floor_div(x, h.0, h.1);
            assert(0 <= h.0 <= h.1 && h.1 >= 1);
            assert(y <= x) by {
                assert(x * h.0 <= x * h.1) by (nonlinear_arith)
                    requires
                        0 < x,
                        0 <= h.0 <= h.1,
                ;
                vstd::arithmetic::div_mod::lemma_div_is_ordered(x * h.0, x * h.1, h.1);
                vstd::arithmetic::div_mod::lemma_div_multiples_vanish(x, h.1);
            }
        }
    }
}

} // verus!
