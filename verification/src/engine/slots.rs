//! Slot allocation: the free list, account creation and release.
use vstd::prelude::*;
use crate::num::{u128_sat, I128, U128};
use crate::engine::types::{
    canonical_empty, zero_bytes32, empty_account, is_empty_account, Account, InsuranceFund, RiskError, RiskResult, ADL_ONE,
    KIND_LP, KIND_USER, MAX_ACCOUNTS, MAX_MATERIALIZED_ACCOUNTS, MAX_VAULT_TVL, RiskParams,
    spec_params_valid,
};
use crate::engine::state::{link_ok, used_bit, EngineModel, RiskEngine};

verus! {

pub open spec fn sat_inc_u64(v: u64) -> u64 {
    if v == u64::MAX {
        u64::MAX
    } else {
        (v + 1) as u64
    }
}

pub open spec fn sat_inc_u16(v: u16) -> u16 {
    if v == u16::MAX {
        u16::MAX
    } else {
        (v + 1) as u16
    }
}

/// A freshly opened account (matcher fields aside).
pub open spec fn is_fresh_account(
    a: Account,
    kind: u8,
    id: u64,
    capital: u128,
    slot: u64,
    funding_index: i64,
) -> bool {
    &&& a.account_id == id
    &&& a.capital == U128(capital)
    &&& a.kind == kind
    &&& a.pnl == 0
    &&& a.reserved_pnl == 0
    &&& a.warmup_started_at_slot == slot
    &&& a.warmup_slope_per_step == 0
    &&& a.position_basis_q == 0
    &&& a.adl_a_basis == ADL_ONE
    &&& a.adl_k_snap == 0
    &&& a.adl_epoch_snap == 0
    &&& zero_bytes32(a.owner)
    &&& a.fee_credits == I128(0)
    &&& a.last_fee_slot == slot
    &&& a.fees_earned_total == U128(0)
    &&& a.entry_price == 0
    &&& a.funding_index == funding_index
    &&& a.position_size == 0
    &&& a.last_partial_liquidation_slot == 0
}

/// Checks made before an account is opened with `fee`.
pub open spec fn open_precheck(m: EngineModel, fee: u128) -> Option<RiskError> {
    if m.num_used_accounts >= m.params.max_accounts {
        Some(RiskError::Overflow)
    } else if fee < m.params.new_account_fee.0 {
        Some(RiskError::InsufficientBalance)
    } else if m.vault.0 + fee > MAX_VAULT_TVL {
        Some(RiskError::Overflow)
    } else {
        None
    }
}

/// The whole fee enters the vault; the required part is insurance revenue.
pub open spec fn m_take_open_fee(m: EngineModel, fee: u128) -> EngineModel {
    let req = m.params.new_account_fee.0;
    EngineModel {
        vault: U128((m.vault.0 + fee) as u128),
        insurance_fund: InsuranceFund {
            balance: U128(u128_sat(m.insurance_fund.balance.0 + req)),
            fee_revenue: U128(u128_sat(m.insurance_fund.fee_revenue.0 + req)),
            ..m.insurance_fund
        },
        ..m
    }
}

/// Engine after opening account `acct` in slot `idx` (bitmap aside).
pub open spec fn m_open(m1: EngineModel, used: Seq<u64>, idx: int, acct: Account) -> EngineModel {
    let excess = acct.capital.0;
    EngineModel {
        used,
        free_head: m1.next_free[idx],
        num_used_accounts: sat_inc_u16(m1.num_used_accounts),
        next_account_id: sat_inc_u64(m1.next_account_id),
        accounts: m1.accounts.update(idx, acct),
        c_tot: U128(u128_sat(m1.c_tot.0 + excess)),
        ..m1
    }
}

/// The opened account: fresh, of `kind`, holding the fee excess as capital.
pub open spec fn opened_ok(m: EngineModel, fee: u128, a: Account, kind: u8) -> bool {
    is_fresh_account(
        a,
        kind,
        m.next_account_id,
        (fee - m.params.new_account_fee.0) as u128,
        m.current_slot,
        m.funding_index_qpb_e6,
    )
}

/// The engine after slot `idx` is emptied and pushed on the free list.
pub open spec fn m_free(m: EngineModel, idx: int) -> EngineModel {
    EngineModel {
        used: m.used.update(0, m.used[0] & !(1u64 << (idx as u64))),
        accounts: m.accounts.update(idx, canonical_empty()),
        next_free: m.next_free.update(idx, m.free_head),
        free_head: idx as u16,
        num_used_accounts: if m.num_used_accounts == 0 {
            0
        } else {
            (m.num_used_accounts - 1) as u16
        },
        ..m
    }
}

impl RiskEngine {
    /// Takes the head of the free list and marks it used.
    fn alloc_slot(&mut self) -> (r: RiskResult<u16>)
        requires
            old(self).wf(),
        ensures
            final(self).wf(),
            old(self).free_head == u16::MAX ==> r == Err::<u16, RiskError>(RiskError::Overflow)
                && final(self)@ == old(self)@,
            old(self).free_head != u16::MAX ==> r == Ok::<u16, RiskError>(old(self).free_head)
                && final(self)@ == (EngineModel {
                used: final(self)@.used,
                free_head: old(self)@.next_free[old(self).free_head as int],
                num_used_accounts: sat_inc_u16(old(self).num_used_accounts),
                ..old(self)@
            }) && forall|j: int|
                0 <= j < MAX_ACCOUNTS ==> #[trigger] used_bit(final(self).used@, j) == (j
                    == old(self).free_head || used_bit(old(self).used@, j)),
    {
        if self.free_head == u16::MAX {
            return Err(RiskError::Overflow);
        }
        let idx = self.free_head;
        self.free_head = self.next_free[idx as usize];
        self.set_used(idx as usize);
        self.num_used_accounts = if self.num_used_accounts == u16::MAX {
            u16::MAX
        } else {
            self.num_used_accounts + 1
        };
        Ok(idx)
    }

    /// Returns slot `idx` to the head of the free list, emptied.
    pub(crate) fn free_slot(&mut self, idx: u16)
        requires
            old(self).wf(),
            idx < MAX_ACCOUNTS,
        ensures
            final(self).wf(),
            final(self)@ == m_free(old(self)@, idx as int),
            forall|j: int|
                0 <= j < MAX_ACCOUNTS ==> #[trigger] used_bit(final(self).used@, j) == (j != idx
                    && used_bit(old(self).used@, j)),
    {
        self.accounts.set(idx as usize, empty_account());
        self.clear_used(idx as usize);
        let fh = self.free_head;
        self.next_free.set(idx as usize, fh);
        self.free_head = idx;
        self.num_used_accounts = if self.num_used_accounts == 0 {
            0
        } else {
            self.num_used_accounts - 1
        };
    }

    /// Number of used slots.
    fn count_used(&self) -> (r: u64)
        requires
            self.wf(),
        ensures
            r <= MAX_ACCOUNTS,
            r == Set::new(|j: int| 0 <= j < MAX_ACCOUNTS && self.spec_is_used(j)).len(),
    {
        let mut count: u64 = 0;
        let mut idx: usize = 0;
        let ghost mut s: Set<int> = Set::empty();
        while idx < MAX_ACCOUNTS
            invariant
                idx <= MAX_ACCOUNTS,
                self.wf(),
                s == Set::new(|j: int| 0 <= j < idx && self.spec_is_used(j)),
                s.finite(),
                count == s.len(),
                count <= idx,
            decreases MAX_ACCOUNTS - idx,
        {
            let ghost s_old = s;
            if self.is_used(idx) {
                count = count + 1;
                proof {
                    s = s.insert(idx as int);
                }
            }
            proof {
                assert(s =~= Set::new(|j: int| 0 <= j < idx + 1 && self.spec_is_used(j)));
            }
            idx = idx + 1;
        }
        count
    }

    /// Opens a user account, paying `fee_payment` (the excess over the
    /// account fee becomes its capital).
    pub fn add_user(&mut self, fee_payment: u128) -> (r: RiskResult<u16>)
        requires
            old(self).wf(),
        ensures
            final(self).wf(),
            open_precheck(old(self)@, fee_payment) matches Some(e) ==> r == Err::<u16, RiskError>(
                e,
            ) && final(self)@ == old(self)@,
            open_precheck(old(self)@, fee_payment) is None && old(self).free_head == u16::MAX
                ==> r == Err::<u16, RiskError>(RiskError::Overflow) && final(self)@
                == m_take_open_fee(old(self)@, fee_payment),
            open_precheck(old(self)@, fee_payment) is None && old(self).free_head != u16::MAX
                ==> r == Ok::<u16, RiskError>(old(self).free_head) && final(self)@ == m_open(m_take_open_fee(old(self)@, fee_payment), final(self)@.used, old(self).free_head as int, final(self)@.accounts[old(self).free_head as int]) && opened_ok(old(self)@, fee_payment, final(self)@.accounts[old(self).free_head as int], KIND_USER) && zero_bytes32(final(self)@.accounts[old(self).free_head as int].matcher_program) && zero_bytes32(final(self)@.accounts[old(self).free_head as int].matcher_context) && forall|j: int|
                0 <= j < MAX_ACCOUNTS ==> #[trigger] used_bit(final(self).used@, j) == (j
                    == old(self).free_head || used_bit(old(self).used@, j)),
    {
        self.add_account_of_kind(KIND_USER, [0u8; 32], [0u8; 32], fee_payment)
    }

    /// Opens an LP account bound to a matching engine, paying `fee_payment`.
    pub fn add_lp(
        &mut self,
        matching_engine_program: [u8; 32],
        matching_engine_context: [u8; 32],
        fee_payment: u128,
    ) -> (r: RiskResult<u16>)
        requires
            old(self).wf(),
        ensures
            final(self).wf(),
            open_precheck(old(self)@, fee_payment) matches Some(e) ==> r == Err::<u16, RiskError>(
                e,
            ) && final(self)@ == old(self)@,
            open_precheck(old(self)@, fee_payment) is None && old(self).free_head == u16::MAX
                ==> r == Err::<u16, RiskError>(RiskError::Overflow) && final(self)@
                == m_take_open_fee(old(self)@, fee_payment),
            open_precheck(old(self)@, fee_payment) is None && old(self).free_head != u16::MAX
                ==> r == Ok::<u16, RiskError>(old(self).free_head) && final(self)@ == m_open(m_take_open_fee(old(self)@, fee_payment), final(self)@.used, old(self).free_head as int, final(self)@.accounts[old(self).free_head as int]) && opened_ok(old(self)@, fee_payment, final(self)@.accounts[old(self).free_head as int], KIND_LP) && final(self)@.accounts[old(self).free_head as int].matcher_program == matching_engine_program && final(self)@.accounts[old(self).free_head as int].matcher_context == matching_engine_context && forall|j: int|
                0 <= j < MAX_ACCOUNTS ==> #[trigger] used_bit(final(self).used@, j) == (j
                    == old(self).free_head || used_bit(old(self).used@, j)),
    {
        self.add_account_of_kind(
            KIND_LP,
            matching_engine_program,
            matching_engine_context,
            fee_payment,
        )
    }

    fn add_account_of_kind(
        &mut self,
        kind: u8,
        program: [u8; 32],
        context: [u8; 32],
        fee_payment: u128,
    ) -> (r: RiskResult<u16>)
        requires
            old(self).wf(),
        ensures
            final(self).wf(),
            open_precheck(old(self)@, fee_payment) matches Some(e) ==> r == Err::<u16, RiskError>(
                e,
            ) && final(self)@ == old(self)@,
            open_precheck(old(self)@, fee_payment) is None && old(self).free_head == u16::MAX
                ==> r == Err::<u16, RiskError>(RiskError::Overflow) && final(self)@
                == m_take_open_fee(old(self)@, fee_payment),
            open_precheck(old(self)@, fee_payment) is None && old(self).free_head != u16::MAX
                ==> r == Ok::<u16, RiskError>(old(self).free_head) && final(self)@ == m_open(m_take_open_fee(old(self)@, fee_payment), final(self)@.used, old(self).free_head as int, final(self)@.accounts[old(self).free_head as int]) && opened_ok(old(self)@, fee_payment, final(self)@.accounts[old(self).free_head as int], kind) && final(self)@.accounts[old(self).free_head as int].matcher_program == program && final(self)@.accounts[old(self).free_head as int].matcher_context == context && forall|j: int|
                0 <= j < MAX_ACCOUNTS ==> #[trigger] used_bit(final(self).used@, j) == (j
                    == old(self).free_head || used_bit(old(self).used@, j)),
    {
        let used_count = self.num_used_accounts as u64;
        if used_count >= self.params.max_accounts {
            return Err(RiskError::Overflow);
        }
        let required_fee = self.params.new_account_fee.0;
        if fee_payment < required_fee {
            return Err(RiskError::InsufficientBalance);
        }
        let new_vault = match self.vault.0.checked_add(fee_payment) {
            Some(v) => v,
            None => {
                return Err(RiskError::Overflow);
            },
        };
        if new_vault > MAX_VAULT_TVL {
            return Err(RiskError::Overflow);
        }
        let excess = fee_payment - required_fee;
        self.vault = U128(new_vault);
        self.insurance_fund.balance = U128(
            crate::num::sat_add_u128(self.insurance_fund.balance.0, required_fee),
        );
        self.insurance_fund.fee_revenue = U128(
            crate::num::sat_add_u128(self.insurance_fund.fee_revenue.0, required_fee),
        );
        let idx = match self.alloc_slot() {
            Ok(i) => i,
            Err(e) => {
                return Err(e);
            },
        };
        let account_id = self.next_account_id;
        self.next_account_id = if self.next_account_id == u64::MAX {
            u64::MAX
        } else {
            self.next_account_id + 1
        };
        let acc = Account {
            account_id,
            capital: U128(excess),
            kind,
            pnl: 0,
            reserved_pnl: 0,
            warmup_started_at_slot: self.current_slot,
            warmup_slope_per_step: 0,
            position_basis_q: 0,
            adl_a_basis: ADL_ONE,
            adl_k_snap: 0,
            adl_epoch_snap: 0,
            matcher_program: program,
            matcher_context: context,
            owner: [0u8; 32],
            fee_credits: I128(0),
            last_fee_slot: self.current_slot,
            fees_earned_total: U128(0),
            entry_price: 0,
            funding_index: self.funding_index_qpb_e6,
            position_size: 0,
            last_partial_liquidation_slot: 0,
        };
        self.accounts.set(idx as usize, acc);
        if excess > 0 {
            self.c_tot = U128(crate::num::sat_add_u128(self.c_tot.0, excess));
        }
        Ok(idx)
    }

    /// Claims the specific free slot `idx` for a new user account anchored
    /// at `slot_anchor`.
    pub(crate) fn materialize_at(&mut self, idx: u16, slot_anchor: u64) -> (r: RiskResult<()>)
        requires
            old(self).wf(),
        ensures
            final(self).wf(),
            idx >= MAX_ACCOUNTS ==> r == Err::<(), RiskError>(RiskError::AccountNotFound)
                && final(self)@ == old(self)@,
            idx < MAX_ACCOUNTS && old(self).num_used_accounts >= old(self).params.max_accounts
                ==> r == Err::<(), RiskError>(RiskError::Overflow) && final(self)@ == old(self)@,
            idx < MAX_ACCOUNTS && old(self).num_used_accounts < old(self).params.max_accounts
                && old(self).materialized_account_count >= MAX_MATERIALIZED_ACCOUNTS ==> r
                == Err::<(), RiskError>(RiskError::Overflow) && final(self)@ == old(self)@,
            r is Ok ==> is_fresh_account(
                final(self).accounts@[idx as int],
                KIND_USER,
                old(self).next_account_id,
                0,
                slot_anchor,
                0,
            ) && zero_bytes32(final(self).accounts@[idx as int].matcher_program) && zero_bytes32(
                final(self).accounts@[idx as int].matcher_context,
            ) && final(self).materialized_account_count == old(self).materialized_account_count
                + 1 && final(self).num_used_accounts == old(self).num_used_accounts + 1
                && final(self).next_account_id == sat_inc_u64(old(self).next_account_id)
                && (forall|j: int|
                0 <= j < MAX_ACCOUNTS ==> #[trigger] used_bit(final(self).used@, j) == (j == idx
                    || used_bit(old(self).used@, j))) && (forall|j: int|
                0 <= j < MAX_ACCOUNTS && j != idx ==> #[trigger] final(self).accounts@[j] == old(
                    self,
                ).accounts@[j]),
            r is Err ==> final(self)@ == old(self)@,
    {
        if idx as usize >= MAX_ACCOUNTS {
            return Err(RiskError::AccountNotFound);
        }
        let used_count = self.num_used_accounts as u64;
        if used_count >= self.params.max_accounts {
            return Err(RiskError::Overflow);
        }
        if self.materialized_account_count >= MAX_MATERIALIZED_ACCOUNTS {
            return Err(RiskError::Overflow);
        }
        let mut found = false;
        if self.free_head == idx {
            self.free_head = self.next_free[idx as usize];
            found = true;
        } else {
            let mut prev = self.free_head;
            let mut steps: usize = 0;
            while prev != u16::MAX && steps < MAX_ACCOUNTS
                invariant_except_break
                    !found,
                    self@ == old(self)@,
                invariant
                    self.wf(),
                    idx < MAX_ACCOUNTS,
                    link_ok(prev),
                ensures
                    self.wf(),
                    !found ==> self@ == old(self)@,
                    found ==> self@ == (EngineModel { next_free: self@.next_free, ..old(self)@ }),
                decreases MAX_ACCOUNTS - steps,
            {
                if self.next_free[prev as usize] == idx {
                    let nxt = self.next_free[idx as usize];
                    self.next_free.set(prev as usize, nxt);
                    found = true;
                    break;
                }
                prev = self.next_free[prev as usize];
                steps = steps + 1;
            }
        }
        if !found {
            return Err(RiskError::CorruptState);
        }
        self.materialized_account_count = self.materialized_account_count + 1;
        self.set_used(idx as usize);
        self.num_used_accounts = self.num_used_accounts + 1;
        let account_id = self.next_account_id;
        self.next_account_id = if self.next_account_id == u64::MAX {
            u64::MAX
        } else {
            self.next_account_id + 1
        };
        let acc = Account {
            account_id,
            capital: U128(0),
            kind: KIND_USER,
            pnl: 0,
            reserved_pnl: 0,
            warmup_started_at_slot: slot_anchor,
            warmup_slope_per_step: 0,
            position_basis_q: 0,
            adl_a_basis: ADL_ONE,
            adl_k_snap: 0,
            adl_epoch_snap: 0,
            matcher_program: [0u8; 32],
            matcher_context: [0u8; 32],
            owner: [0u8; 32],
            fee_credits: I128(0),
            last_fee_slot: slot_anchor,
            fees_earned_total: U128(0),
            entry_price: 0,
            funding_index: 0,
            position_size: 0,
            last_partial_liquidation_slot: 0,
        };
        self.accounts.set(idx as usize, acc);
        Ok(())
    }
}


/// The free-list chain of a fresh slab: slot i links to i + 1, the last slot
/// to the end marker.
pub open spec fn fresh_chain(nf: Seq<u16>) -> bool {
    &&& nf.len() == MAX_ACCOUNTS
    &&& forall|i: int| 0 <= i < MAX_ACCOUNTS - 1 ==> nf[i] == i + 1
    &&& nf[MAX_ACCOUNTS - 1] == u16::MAX
}

impl RiskEngine {
    /// Initialises a zeroed engine in place: validates `params`, stores them
    /// and the crank staleness bound, and chains every slot into the free
    /// list in index order. Invalid params leave the engine unchanged.
    pub fn init_in_place(&mut self, params: RiskParams) -> (r: RiskResult<()>)
        requires
            old(self).wf(),
        ensures
            final(self).wf(),
            !spec_params_valid(params) ==> r == Err::<(), RiskError>(RiskError::Overflow)
                && final(self)@ == old(self)@,
            spec_params_valid(params) ==> r is Ok && final(self)@ == (EngineModel {
                params,
                max_crank_staleness_slots: params.max_crank_staleness_slots,
                next_free: final(self)@.next_free,
                ..old(self)@
            }) && fresh_chain(final(self)@.next_free),
    {
        match params.validate() {
            Ok(()) => {},
            Err(e) => {
                return Err(e);
            },
        }
        self.params = params;
        self.max_crank_staleness_slots = params.max_crank_staleness_slots;
        let mut i: usize = 0;
        while i < MAX_ACCOUNTS - 1
            invariant
                i <= MAX_ACCOUNTS - 1,
                self.wf(),
                self@ == (EngineModel {
                    params,
                    max_crank_staleness_slots: params.max_crank_staleness_slots,
                    next_free: self@.next_free,
                    ..old(self)@
                }),
                forall|j: int| 0 <= j < i ==> self.next_free@[j] == j + 1,
            decreases MAX_ACCOUNTS - 1 - i,
        {
            self.next_free.set(i, (i + 1) as u16);
            i = i + 1;
        }
        self.next_free.set(MAX_ACCOUNTS - 1, u16::MAX);
        Ok(())
    }
}

/// A freed slot is no longer marked used.
pub proof fn lemma_free_clears_slot(m: EngineModel, idx: int)
    requires
        0 <= idx < MAX_ACCOUNTS,
        m.used.len() == 1,
    ensures
        !m_free(m, idx).is_used(idx),
{
    let w = m.used[0];
    let b = idx as u64;
    assert(idx / 64 == 0 && idx % 64 == idx);
    assert((((w & !(1u64 << b)) >> b) & 1u64) == 0u64) by (bit_vector)
        requires
            b < 64,
    ;
}
} // verus!
