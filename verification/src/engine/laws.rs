//! What the pricing operations compute, stated against their inputs: the
//! trading fee, the liquidation close amount, the funding accrual and the
//! mark PnL.
use vstd::prelude::*;
use crate::engine::types::{Account, TradeExecution};
use crate::engine::state::EngineModel;
use crate::engine::ledger::min_int;
use crate::engine::trade::{sat_abs, trade_fee_spec};
use crate::engine::admin::dynamic_fee_spec;
use crate::engine::liquidation::liq_close_spec;
use crate::engine::margin::{mark_pnl_spec, mtm_equity_spec};
use crate::engine::funding::accrue_funding_spec;
use crate::engine::types::{KIND_LP, MAX_ACCOUNTS};
use crate::engine::account_ops::m_maint_coupon;
use crate::engine::closing::{gc_free_all, gc_scan, gc_spec, gc_visit};
use crate::engine::slots::m_free;

verus! {

/// `q` is `x / d` rounded toward zero.
pub open spec fn is_trunc_quotient(q: int, x: int, d: int) -> bool {
    &&& x >= 0 ==> 0 <= q && q * d <= x < (q + 1) * d
    &&& x < 0 ==> q <= 0 && (-q) * d <= -x < (-q + 1) * d
}

proof fn lemma_trunc_quotient(x: int, d: int)
    requires
        d > 0,
    ensures
        is_trunc_quotient(if x >= 0 { x / d } else { -((-x) / d) }, x, d),
{
    if x >= 0 {
        vstd::arithmetic::div_mod::lemma_fundamental_div_mod(x, d);
        vstd::arithmetic::div_mod::lemma_div_pos_is_pos(x, d);
        assert(x / d * d <= x < (x / d + 1) * d) by (nonlinear_arith)
            requires
                x == d * (x / d) + x % d,
                0 <= x % d < d,
        ;
    } else {
        let y = -x;
        vstd::arithmetic::div_mod::lemma_fundamental_div_mod(y, d);
        vstd::arithmetic::div_mod::lemma_div_pos_is_pos(y, d);
        assert(y / d * d <= y < (y / d + 1) * d) by (nonlinear_arith)
            requires
                y == d * (y / d) + y % d,
                0 <= y % d < d,
        ;
    }
}

/// The trading fee is the basis-point fraction of the filled size, rounded
/// up: with `s` the absolute filled size and `bps` the fee rate in force,
/// `fee * 10_000 >= s * bps > (fee - 1) * 10_000`, and no fee when either
/// is zero. Without fee tiers and utilization surge the rate in force is
/// the configured trading fee; without tiers, a surge only raises it.
pub proof fn lemma_trade_fee_is_bps_of_size(m: EngineModel, ex: TradeExecution)
    ensures
        ({
            let f = trade_fee_spec(m, ex);
            let s = sat_abs(ex.size);
            let bps = dynamic_fee_spec(m, ((s * ex.price) / 1_000_000) as u128);
            &&& (s == 0 || bps <= 0) ==> f == 0
            &&& (s > 0 && bps > 0) ==> f * 10_000 >= s * bps && (f - 1) * 10_000 < s * bps
            &&& (m.params.fee_tier2_threshold == 0 && m.params.fee_utilization_surge_bps == 0)
                ==> bps == m.params.trading_fee_bps
            &&& bps >= m.params.trading_fee_bps || m.params.fee_tier2_threshold != 0
        }),
{
    let f = trade_fee_spec(m, ex);
    let s = sat_abs(ex.size);
    let bps = dynamic_fee_spec(m, ((s * ex.price) / 1_000_000) as u128);
    if s > 0 && bps > 0 {
        let x = s * bps;
        assert(x > 0) by (nonlinear_arith)
            requires
                x == s * bps,
                s > 0,
                bps > 0,
        ;
        let y = x + 9_999;
        vstd::arithmetic::div_mod::lemma_fundamental_div_mod(y, 10_000);
        assert(f == y / 10_000);
        assert(f * 10_000 >= x && (f - 1) * 10_000 < x) by (nonlinear_arith)
            requires
                y == 10_000 * f + y % 10_000,
                0 <= y % 10_000 < 10_000,
                y == x + 9_999,
        ;
    }
}

/// A liquidation closes just enough: with `E` the account's MTM equity,
/// `P` the oracle price, `t` the target margin (maintenance plus buffer,
/// in bps) and `rest` the size left open,
/// - the close is at most the position, and `full` means all of it;
/// - what stays open is carried by the equity with one unit to spare,
///   `(rest + 1) * P * t <= E * 10^10`;
/// - a partial close leaves at least the minimum liquidation size, and
///   closes no more than needed: either only one unit stays below the
///   whole position, or one more unit left open would not be carried,
///   `(rest + 2) * P * t > E * 10^10`.
pub proof fn lemma_liquidation_closes_just_enough(m: EngineModel, a: Account, price: u64)
    ensures
        ({
            let r = liq_close_spec(m, a, price);
            let abs_pos = sat_abs(a.position_size);
            let e = mtm_equity_spec(m, a, price);
            let den = price * min_int(
                m.params.maintenance_margin_bps + m.params.liquidation_buffer_bps,
                u64::MAX as int,
            );
            let rest = abs_pos - r.0;
            &&& abs_pos == 0 ==> r == (0u128, false)
            &&& abs_pos > 0 ==> {
                &&& 0 < r.0 <= abs_pos
                &&& r.1 <==> r.0 == abs_pos
                &&& rest > 0 ==> den > 0 && (rest + 1) * den <= e * 10_000_000_000
                &&& !r.1 ==> rest >= m.params.min_liquidation_abs.0
                &&& !r.1 ==> (rest + 1 == abs_pos || (rest + 2) * den > e
                    * 10_000_000_000)
            }
        }),
{
    let abs_pos = sat_abs(a.position_size);
    let e = mtm_equity_spec(m, a, price);
    let target = min_int(
        m.params.maintenance_margin_bps + m.params.liquidation_buffer_bps,
        u64::MAX as int,
    );
    let den = price * target;
    assert(den >= 0) by (nonlinear_arith)
        requires
            den == price * target,
            price >= 0,
            target >= 0,
    ;
    if abs_pos > 0 && den > 0 {
        let n = e * 10_000_000_000;
        let q = n / den;
        vstd::arithmetic::div_mod::lemma_fundamental_div_mod(n, den);
        assert(q * den <= n < (q + 1) * den) by (nonlinear_arith)
            requires
                n == den * q + n % den,
                0 <= n % den < den,
        ;
        let safe = if min_int(q, abs_pos) - 1 > 0 {
            min_int(q, abs_pos) - 1
        } else {
            0
        };
        if safe > 0 {
            assert((safe + 1) * den <= q * den) by (nonlinear_arith)
                requires
                    safe + 1 <= q,
                    den > 0,
            ;
            if q < abs_pos {
                assert((safe + 2) * den > n) by (nonlinear_arith)
                    requires
                        safe + 2 == q + 1,
                        n < (q + 1) * den,
                ;
            }
        }
    }
}

/// The funding index advances by `P * r * dt / 10_000` rounded toward
/// zero, where `dt` is the time since the last accrual, `P` the oracle
/// price and `r` the rate in force, and the accrual time moves to `now`.
pub proof fn lemma_funding_accrues_over_elapsed_slots(m: EngineModel, now: u64, price: u64)
    ensures
        ({
            let rate = if m.funding_frozen {
                m.funding_frozen_rate_snapshot
            } else {
                m.funding_rate_bps_per_slot_last
            };
            now > m.last_funding_slot && -10_000 <= rate <= 10_000 ==> (accrue_funding_spec(
                m,
                now,
                price,
            ) matches Ok(m2) ==> {
                &&& m2.last_funding_slot == now
                &&& is_trunc_quotient(
                    m2.funding_index_qpb_e6 - m.funding_index_qpb_e6,
                    price * rate * (now - m.last_funding_slot),
                    10_000,
                )
            })
        }),
{
    let rate = if m.funding_frozen {
        m.funding_frozen_rate_snapshot
    } else {
        m.funding_rate_bps_per_slot_last
    };
    let dt = now - m.last_funding_slot;
    if dt > 0 {
        lemma_trunc_quotient(price * rate * dt, 10_000);
    }
}

/// The mark PnL of a position `pos` entered at `e` and marked at `o` is
/// `(o - e) * pos / o` rounded toward zero: a long gains when the price
/// rises, a short gains when it falls.
pub proof fn lemma_mark_pnl_is_signed_move(pos: i128, e: u64, o: u64)
    requires
        pos > i128::MIN,
    ensures
        mark_pnl_spec(pos, e, o) matches Some(v) ==> (o > 0 ==> is_trunc_quotient(
            v,
            (o - e) * pos,
            o as int,
        )),
        mark_pnl_spec(pos, e, o) matches Some(v) ==> (pos < 0 && o < e ==> v >= 0) && (pos < 0
            && o > e ==> v <= 0) && (pos > 0 && o > e ==> v >= 0) && (pos > 0 && o < e ==> v <= 0),
{
    if pos != 0 && o != 0 {
        let abs_pos = min_int(if pos < 0 { -pos } else { pos as int }, i128::MAX as int);
        let diff = if pos > 0 {
            o - e
        } else {
            e - o
        };
        assert(diff * abs_pos == (o - e) * pos) by (nonlinear_arith)
            requires
                pos != 0,
                pos > 0 ==> abs_pos == pos && diff == o - e,
                pos < 0 ==> abs_pos == -pos && diff == e - o,
        ;
        lemma_trunc_quotient((o - e) * pos, o as int);
        let x = (o - e) * pos;
        assert((pos < 0 && o < e) || (pos > 0 && o > e) ==> x > 0) by (nonlinear_arith)
            requires
                x == (o - e) * pos,
        ;
        assert((pos < 0 && o > e) || (pos > 0 && o < e) ==> x < 0) by (nonlinear_arith)
            requires
                x == (o - e) * pos,
        ;
    }
}

/// Long and short are mirror images: the mark PnL of `-pos` is the
/// negation of that of `pos` whenever both are representable.
pub proof fn lemma_mark_pnl_mirror(pos: i128, e: u64, o: u64)
    requires
        pos > i128::MIN,
    ensures
        mark_pnl_spec(pos, e, o) matches Some(v) ==> (mark_pnl_spec((-pos) as i128, e, o) matches Some(
            w,
        ) ==> w == -v),
{
    lemma_mark_pnl_is_signed_move(pos, e, o);
    lemma_mark_pnl_is_signed_move((-pos) as i128, e, o);
    if o > 0 {
        let x = (o - e) * pos;
        let np: int = -pos;
        assert(((-pos) as i128) as int == np);
        assert((o - e) * np == -x) by (nonlinear_arith)
            requires
                x == (o - e) * pos,
                np == -pos,
        ;
        if mark_pnl_spec(pos, e, o) is Some && mark_pnl_spec((-pos) as i128, e, o) is Some {
            let v = mark_pnl_spec(pos, e, o)->0;
            let w = mark_pnl_spec((-pos) as i128, e, o)->0;
            let d = o as int;
            assert(w == -v) by (nonlinear_arith)
                requires
                    x >= 0 ==> 0 <= v && v * d <= x && x < (v + 1) * d,
                    x < 0 ==> v <= 0 && (-v) * d <= -x && -x < (-v + 1) * d,
                    -x >= 0 ==> 0 <= w && w * d <= -x && -x < (w + 1) * d,
                    -x < 0 ==> w <= 0 && (-w) * d <= x && x < (-w + 1) * d,
                    d > 0,
            ;
        }
    }
}

/// What the dust collector may free: a used non-LP account that is flat,
/// has no reserve and no positive PnL, and whose capital its maintenance fee
/// settlement at the current slot takes to zero.
pub open spec fn gc_may_free(m: EngineModel, i: int) -> bool {
    let a = m.accounts[i];
    &&& m.is_used(i)
    &&& a.kind != KIND_LP
    &&& a.position_size == 0
    &&& a.reserved_pnl == 0
    &&& a.pnl <= 0
    &&& m_maint_coupon(m, i, m.current_slot).0.accounts[i].capital.0 == 0
}

proof fn lemma_gc_visit_frame(m: EngineModel, idx: int)
    requires
        0 <= idx < MAX_ACCOUNTS,
        m.accounts.len() == MAX_ACCOUNTS,
    ensures
        gc_visit(m, idx).0.used == m.used,
        gc_visit(m, idx).0.params == m.params,
        gc_visit(m, idx).0.current_slot == m.current_slot,
        gc_visit(m, idx).0.accounts.len() == MAX_ACCOUNTS,
        forall|j: int| 0 <= j < MAX_ACCOUNTS && j != idx ==> #[trigger] gc_visit(m, idx).0.accounts[j] == m.accounts[j],
        gc_visit(m, idx).1 ==> gc_may_free(m, idx),
{
}

proof fn lemma_gc_may_free_local(m: EngineModel, m0: EngineModel, i: int)
    requires
        0 <= i < MAX_ACCOUNTS,
        m.accounts.len() == MAX_ACCOUNTS,
        m0.accounts.len() == MAX_ACCOUNTS,
        m.used == m0.used,
        m.params == m0.params,
        m.current_slot == m0.current_slot,
        m.accounts[i] == m0.accounts[i],
        gc_may_free(m, i),
    ensures
        gc_may_free(m0, i),
{
    assert(m_maint_coupon(m, i, m.current_slot).0.accounts[i] == m_maint_coupon(
        m0,
        i,
        m0.current_slot,
    ).0.accounts[i]);
}

proof fn lemma_mod_distinct(start: int, offset: int, k: int)
    requires
        start >= 0,
        0 <= offset < k < MAX_ACCOUNTS,
    ensures
        (start + k) % (MAX_ACCOUNTS as int) != (start + offset) % (MAX_ACCOUNTS as int),
{
    let a = start + offset;
    let b = start + k;
    vstd::arithmetic::div_mod::lemma_fundamental_div_mod(a, 64);
    vstd::arithmetic::div_mod::lemma_fundamental_div_mod(b, 64);
    if a % 64 == b % 64 {
        let d = b / 64 - a / 64;
        assert(b - a == 64 * d);
        assert(false);
    }
}

proof fn lemma_gc_scan_queues_dust(m0: EngineModel, m: EngineModel, start: int, offset: int, queue: Seq<u16>)
    requires
        start >= 0,
        0 <= offset <= MAX_ACCOUNTS,
        m.used == m0.used,
        m.params == m0.params,
        m.current_slot == m0.current_slot,
        m.accounts.len() == MAX_ACCOUNTS,
        m0.accounts.len() == MAX_ACCOUNTS,
        forall|k: int| offset <= k < MAX_ACCOUNTS ==> #[trigger] m.accounts[(start + k) % (MAX_ACCOUNTS as int)]
            == m0.accounts[(start + k) % (MAX_ACCOUNTS as int)],
        forall|j: int| 0 <= j < queue.len() ==> (#[trigger] queue[j]) < MAX_ACCOUNTS && gc_may_free(m0, queue[j] as int),
    ensures
        gc_scan(m, start, offset, queue).0.used == m0.used,
        forall|j: int| 0 <= j < gc_scan(m, start, offset, queue).2.len() ==> (#[trigger] gc_scan(m, start, offset, queue).2[j])
            < MAX_ACCOUNTS && gc_may_free(m0, gc_scan(m, start, offset, queue).2[j] as int),
    decreases MAX_ACCOUNTS - offset,
{
    if offset >= MAX_ACCOUNTS || queue.len() >= 32 {
    } else {
        let idx = (start + offset) % (MAX_ACCOUNTS as int);
        lemma_gc_visit_frame(m, idx);
        let (m1, q) = gc_visit(m, idx);
        assert(m.accounts[idx] == m0.accounts[idx]);
        if q {
            lemma_gc_may_free_local(m, m0, idx);
        }
        let nq = if q {
            queue.push(idx as u16)
        } else {
            queue
        };
        assert forall|k: int| offset + 1 <= k < MAX_ACCOUNTS implies #[trigger] m1.accounts[(start + k) % (
        MAX_ACCOUNTS as int)] == m0.accounts[(start + k) % (MAX_ACCOUNTS as int)] by {
            lemma_mod_distinct(start, offset, k);
            assert(m.accounts[(start + k) % (MAX_ACCOUNTS as int)] == m0.accounts[(start + k) % (
            MAX_ACCOUNTS as int)]);
        }
        assert forall|j: int| 0 <= j < nq.len() implies (#[trigger] nq[j]) < MAX_ACCOUNTS && gc_may_free(
            m0,
            nq[j] as int,
        ) by {
            if j < queue.len() {
                assert(nq[j] == queue[j]);
            }
        }
        lemma_gc_scan_queues_dust(m0, m1, start, offset + 1, nq);
    }
}

proof fn lemma_free_keeps_other_bit(m: EngineModel, idx: int, i: int)
    requires
        0 <= idx < MAX_ACCOUNTS,
        0 <= i < MAX_ACCOUNTS,
        idx != i,
        m.used.len() == 1,
    ensures
        m_free(m, idx).is_used(i) == m.is_used(i),
        m_free(m, idx).used.len() == 1,
{
    let w = m.used[0];
    let b = idx as u64;
    let c = i as u64;
    assert(i / 64 == 0 && i % 64 == i);
    assert((((w & !(1u64 << b)) >> c) & 1u64) == ((w >> c) & 1u64)) by (bit_vector)
        requires
            b < 64,
            c < 64,
            b != c,
    ;
}

proof fn lemma_gc_free_all_keeps_others(m: EngineModel, q: Seq<u16>, i: int)
    requires
        0 <= i < MAX_ACCOUNTS,
        m.used.len() == 1,
        forall|j: int| 0 <= j < q.len() ==> (#[trigger] q[j]) < MAX_ACCOUNTS && q[j] as int != i,
    ensures
        gc_free_all(m, q).is_used(i) == m.is_used(i),
    decreases q.len(),
{
    if q.len() > 0 {
        lemma_free_keeps_other_bit(m, q[0] as int, i);
        let r = q.drop_first();
        assert forall|j: int| 0 <= j < r.len() implies (#[trigger] r[j]) < MAX_ACCOUNTS && r[j] as int != i by {
            assert(r[j] == q[j + 1]);
        }
        lemma_gc_free_all_keeps_others(m_free(m, q[0] as int), r, i);
    }
}

/// The dust collector frees only dust: a slot it frees held a used non-LP
/// account that was flat, with no reserve and no positive PnL, and whose
/// capital the maintenance fee settlement at the current slot takes to
/// zero. In particular, with no maintenance fee accruing on it and no fee
/// debt, a funded account is never freed: its capital was zero.
pub proof fn lemma_gc_frees_only_dust(m: EngineModel, i: int)
    requires
        m.wf(),
        0 <= i < MAX_ACCOUNTS,
        m.is_used(i),
        !gc_spec(m).0.is_used(i),
    ensures
        gc_may_free(m, i),
        (m.params.maintenance_fee_per_slot.0 == 0 && m.accounts[i].fee_credits.0 >= 0)
            || m.accounts[i].last_fee_slot >= m.current_slot ==> m.accounts[i].capital.0 == 0,
{
    let start = m.gc_cursor as int;
    lemma_gc_scan_queues_dust(m, m, start, 0, Seq::empty());
    let (m1, scanned, q) = gc_scan(m, start, 0, Seq::empty());
    let m2 = EngineModel { gc_cursor: ((start + scanned) % (MAX_ACCOUNTS as int)) as u16, ..m1 };
    if !gc_may_free(m, i) {
        assert forall|j: int| 0 <= j < q.len() implies (#[trigger] q[j]) < MAX_ACCOUNTS && q[j] as int != i by {
            assert(gc_may_free(m, q[j] as int));
        }
        lemma_gc_free_all_keeps_others(m2, q, i);
        assert(false);
    }
}

} // verus!
