//! Data types, constants and small pure helpers of the risk engine.
use vstd::prelude::*;
use crate::num::{I128, U128};

verus! {

pub const MAX_ACCOUNTS: usize = 64;
pub const BITMAP_WORDS: usize = 1;
pub const MAX_ROUNDING_SLACK: u128 = 64;
pub const ACCOUNT_IDX_MASK: usize = 63;

/// Consecutive stable slots before emergency OI mode clears.
pub const EMERGENCY_RECOVERY_SLOTS: u64 = 1000;

pub const GC_CLOSE_BUDGET: u32 = 32;
pub const ACCOUNTS_PER_CRANK: u16 = 128;
pub const LIQ_BUDGET_PER_CRANK: u16 = 64;
pub const FORCE_REALIZE_BUDGET_PER_CRANK: u16 = 16;

pub const POS_SCALE: u128 = 1_000_000;
pub const ADL_ONE: u128 = 1_000_000;
pub const MIN_A_SIDE: u128 = 1_000;
pub const MAX_ORACLE_PRICE: u64 = 1_000_000_000_000;
pub const MAX_FUNDING_DT: u64 = 65535;
pub const MAX_ABS_FUNDING_BPS_PER_SLOT: i64 = 10_000;

pub const MAX_VAULT_TVL: u128 = 10_000_000_000_000_000;
pub const MAX_POSITION_ABS_Q: u128 = 100_000_000_000_000;
pub const MAX_ACCOUNT_NOTIONAL: u128 = 100_000_000_000_000_000_000;
pub const MAX_TRADE_SIZE_Q: u128 = 100_000_000_000_000;
pub const MAX_OI_SIDE_Q: u128 = 100_000_000_000_000;
pub const MAX_MATERIALIZED_ACCOUNTS: u64 = 1_000_000;
pub const MAX_ACCOUNT_POSITIVE_PNL: u128 = 100_000_000_000_000_000_000_000_000_000_000;
pub const MAX_PNL_POS_TOT: u128 = 100_000_000_000_000_000_000_000_000_000_000_000_000;
pub const MAX_TRADING_FEE_BPS: u64 = 10_000;
pub const MAX_MARGIN_BPS: u64 = 10_000;
pub const MAX_LIQUIDATION_FEE_BPS: u64 = 10_000;
pub const MAX_PROTOCOL_FEE_ABS: u128 = 1_000_000_000_000_000_000_000_000_000_000_000_000;
pub const MAX_MAINTENANCE_FEE_PER_SLOT: u128 = 10_000_000_000_000_000;

pub const KIND_USER: u8 = 0;
pub const KIND_LP: u8 = 1;

/// Mode of one open-interest side.
#[derive(Clone, Copy, Debug, PartialEq, Eq, Structural)]
pub enum SideMode {
    Normal,
    DrainOnly,
    ResetPending,
}

/// Deferred side resets requested while an instruction runs.
#[derive(Clone, Copy, Debug, PartialEq, Eq, Structural)]
pub struct InstructionContext {
    pub pending_reset_long: bool,
    pub pending_reset_short: bool,
}

impl InstructionContext {
    pub fn new() -> (r: Self)
        ensures
            !r.pending_reset_long,
            !r.pending_reset_short,
    {
        InstructionContext { pending_reset_long: false, pending_reset_short: false }
    }
}

/// One account slot: a user or a liquidity provider.
#[derive(Clone, Copy, Debug, PartialEq, Eq)]
pub struct Account {
    pub account_id: u64,
    pub capital: U128,
    /// 0 = user, 1 = LP.
    pub kind: u8,
    pub pnl: i128,
    pub reserved_pnl: u128,
    pub warmup_started_at_slot: u64,
    pub warmup_slope_per_step: u128,
    pub position_basis_q: i128,
    pub adl_a_basis: u128,
    pub adl_k_snap: i128,
    pub adl_epoch_snap: u64,
    pub matcher_program: [u8; 32],
    pub matcher_context: [u8; 32],
    pub owner: [u8; 32],
    pub fee_credits: I128,
    pub last_fee_slot: u64,
    pub fees_earned_total: U128,
    pub entry_price: u64,
    pub funding_index: i64,
    pub position_size: i128,
    pub last_partial_liquidation_slot: u64,
}

impl Account {
    pub fn is_lp(&self) -> (r: bool)
        ensures
            r == (self.kind == KIND_LP),
    {
        self.kind == KIND_LP
    }

    pub fn is_user(&self) -> (r: bool)
        ensures
            r == (self.kind == KIND_USER),
    {
        self.kind == KIND_USER
    }
}

pub open spec fn zero_bytes32(a: [u8; 32]) -> bool {
    forall|i: int| 0 <= i < 32 ==> a@[i] == 0u8
}

/// The contents of a free slot.
pub open spec fn is_empty_account(a: Account) -> bool {
    &&& a.account_id == 0
    &&& a.capital == U128(0)
    &&& a.kind == KIND_USER
    &&& a.pnl == 0
    &&& a.reserved_pnl == 0
    &&& a.warmup_started_at_slot == 0
    &&& a.warmup_slope_per_step == 0
    &&& a.position_basis_q == 0
    &&& a.adl_a_basis == ADL_ONE
    &&& a.adl_k_snap == 0
    &&& a.adl_epoch_snap == 0
    &&& zero_bytes32(a.matcher_program)
    &&& zero_bytes32(a.matcher_context)
    &&& zero_bytes32(a.owner)
    &&& a.fee_credits == I128(0)
    &&& a.last_fee_slot == 0
    &&& a.fees_earned_total == U128(0)
    &&& a.entry_price == 0
    &&& a.funding_index == 0
    &&& a.position_size == 0
    &&& a.last_partial_liquidation_slot == 0
}

/// The one account value that `is_empty_account` admits.
pub open spec fn canonical_empty() -> Account {
    choose|a: Account| is_empty_account(a)
}

/// Empty accounts are all equal.
pub proof fn lemma_empty_unique(a: Account)
    requires
        is_empty_account(a),
    ensures
        a == canonical_empty(),
{
    let c = canonical_empty();
    assert(is_empty_account(c));
    assert(a.matcher_program =~= c.matcher_program);
    assert(a.matcher_context =~= c.matcher_context);
    assert(a.owner =~= c.owner);
}

/// A free slot's contents.
pub fn empty_account() -> (r: Account)
    ensures
        is_empty_account(r),
        r == canonical_empty(),
{
    let r = Account {
        account_id: 0,
        capital: U128(0),
        kind: KIND_USER,
        pnl: 0,
        reserved_pnl: 0,
        warmup_started_at_slot: 0,
        warmup_slope_per_step: 0,
        position_basis_q: 0,
        adl_a_basis: ADL_ONE,
        adl_k_snap: 0,
        adl_epoch_snap: 0,
        matcher_program: [0u8; 32],
        matcher_context: [0u8; 32],
        owner: [0u8; 32],
        fee_credits: I128(0),
        last_fee_slot: 0,
        fees_earned_total: U128(0),
        entry_price: 0,
        funding_index: 0,
        position_size: 0,
        last_partial_liquidation_slot: 0,
    };
    proof {
        lemma_empty_unique(r);
    }
    r
}

/// Insurance fund state.
#[derive(Clone, Copy, Debug, PartialEq, Eq)]
pub struct InsuranceFund {
    pub balance: U128,
    /// Accumulated fees booked as revenue.
    pub fee_revenue: U128,
    /// Reserve that pays skew-improvement rebates.
    pub balance_incentive_reserve: u64,
    pub _rebate_pad: [u8; 8],
    /// Per-market isolated insurance balance.
    pub isolated_balance: U128,
    /// Maximum share of the global fund this market may use (0 = unlimited).
    pub insurance_isolation_bps: u16,
    pub _isolation_padding: [u8; 14],
}

/// Risk engine parameters.
#[derive(Clone, Copy, Debug, PartialEq, Eq, Structural)]
pub struct RiskParams {
    pub warmup_period_slots: u64,
    pub maintenance_margin_bps: u64,
    pub initial_margin_bps: u64,
    pub trading_fee_bps: u64,
    pub max_accounts: u64,
    pub new_account_fee: U128,
    pub maintenance_fee_per_slot: U128,
    pub max_crank_staleness_slots: u64,
    pub liquidation_fee_bps: u64,
    pub liquidation_fee_cap: U128,
    pub min_liquidation_abs: U128,
    pub min_initial_deposit: U128,
    pub min_nonzero_mm_req: u128,
    pub min_nonzero_im_req: u128,
    pub insurance_floor: U128,
    pub risk_reduction_threshold: U128,
    pub liquidation_buffer_bps: u64,
    pub funding_premium_weight_bps: u64,
    pub funding_settlement_interval_slots: u64,
    pub funding_premium_dampening_e6: u64,
    pub funding_premium_max_bps_per_slot: i64,
    pub partial_liquidation_bps: u64,
    pub partial_liquidation_cooldown_slots: u64,
    pub use_mark_price_for_liquidation: bool,
    pub emergency_liquidation_margin_bps: u64,
    pub fee_tier2_bps: u64,
    pub fee_tier3_bps: u64,
    pub fee_tier2_threshold: u128,
    pub fee_tier3_threshold: u128,
    pub fee_split_lp_bps: u64,
    pub fee_split_protocol_bps: u64,
    pub fee_split_creator_bps: u64,
    pub fee_utilization_surge_bps: u64,
}

/// Errors of the risk engine.
#[derive(Clone, Copy, Debug, PartialEq, Eq, Structural)]
pub enum RiskError {
    InsufficientBalance,
    Undercollateralized,
    Unauthorized,
    InvalidMatchingEngine,
    PnlNotWarmedUp,
    Overflow,
    AccountNotFound,
    NotAnLPAccount,
    PositionSizeMismatch,
    AccountKindMismatch,
    SideBlocked,
    CorruptState,
    /// Entry price must be positive when opening a position.
    InvalidEntryPrice,
}

pub type RiskResult<T> = core::result::Result<T, RiskError>;

/// Liquidation policy: close everything, or exactly `q_close_q`.
#[derive(Clone, Copy, Debug, PartialEq, Eq, Structural)]
pub enum LiquidationPolicy {
    FullClose,
    ExactPartial(u128),
}

/// Outcome of a keeper crank.
#[derive(Clone, Copy, Debug, PartialEq, Eq, Structural)]
pub struct CrankOutcome {
    pub advanced: bool,
    pub slots_forgiven: u64,
    pub caller_settle_ok: bool,
    pub force_realize_needed: bool,
    pub panic_needed: bool,
    pub num_liquidations: u32,
    pub num_liq_errors: u16,
    pub num_gc_closed: u32,
    pub last_cursor: u16,
    pub sweep_complete: bool,
    /// Number of market accruals that failed during the crank.
    pub adl_accrue_failures: u8,
    pub force_realize_closed: u16,
    pub force_realize_errors: u16,
}

/// Side of a signed position.
#[derive(Clone, Copy, Debug, PartialEq, Eq, Structural)]
pub enum Side {
    Long,
    Short,
}

pub open spec fn spec_side_of(v: i128) -> Option<Side> {
    if v == 0 {
        None
    } else if v > 0 {
        Some(Side::Long)
    } else {
        Some(Side::Short)
    }
}

pub fn side_of_i128(v: i128) -> (r: Option<Side>)
    ensures
        r == spec_side_of(v),
{
    if v == 0 {
        None
    } else if v > 0 {
        Some(Side::Long)
    } else {
        Some(Side::Short)
    }
}

pub open spec fn spec_opposite(s: Side) -> Side {
    match s {
        Side::Long => Side::Short,
        Side::Short => Side::Long,
    }
}

pub fn opposite_side(s: Side) -> (r: Side)
    ensures
        r == spec_opposite(s),
{
    match s {
        Side::Long => Side::Short,
        Side::Short => Side::Long,
    }
}

/// Execution returned by a matching engine.
#[derive(Clone, Copy, Debug, PartialEq, Eq, Structural)]
pub struct TradeExecution {
    pub price: u64,
    pub size: i128,
}

/// Outcome of an oracle-price close.
#[derive(Clone, Copy, Debug, PartialEq, Eq, Structural)]
pub struct ClosedOutcome {
    pub abs_pos: u128,
    pub mark_pnl: i128,
    pub cap_before: u128,
    pub cap_after: u128,
    pub position_was_closed: bool,
}

/// A matching engine that fills LP trades; implemented by integrators.
pub trait MatchingEngine {
    /// Whether `r` is an answer this engine gives to a request for `size` at
    /// `oracle_price` from the LP with the given matcher program, context and
    /// id. An engine that does not define it claims nothing of its answers.
    open spec fn match_ok(
        &self,
        lp_program: [u8; 32],
        lp_context: [u8; 32],
        lp_account_id: u64,
        oracle_price: u64,
        size: i128,
        r: RiskResult<TradeExecution>,
    ) -> bool {
        true
    }

    fn execute_match(
        &self,
        lp_program: &[u8; 32],
        lp_context: &[u8; 32],
        lp_account_id: u64,
        oracle_price: u64,
        size: i128,
    ) -> (r: RiskResult<TradeExecution>)
        ensures
            self.match_ok(*lp_program, *lp_context, lp_account_id, oracle_price, size, r),
    ;
}

/// Matching engine that fills the full size at the oracle price.
pub struct NoopMatchingEngine;

impl MatchingEngine for NoopMatchingEngine {
    open spec fn match_ok(
        &self,
        lp_program: [u8; 32],
        lp_context: [u8; 32],
        lp_account_id: u64,
        oracle_price: u64,
        size: i128,
        r: RiskResult<TradeExecution>,
    ) -> bool {
        r == Ok::<TradeExecution, RiskError>(TradeExecution { price: oracle_price, size })
    }

    fn execute_match(
        &self,
        _lp_program: &[u8; 32],
        _lp_context: &[u8; 32],
        _lp_account_id: u64,
        oracle_price: u64,
        size: i128,
    ) -> RiskResult<TradeExecution> {
        Ok(TradeExecution { price: oracle_price, size })
    }
}

/// Schedule a reset of `side` at the end of the instruction.
pub fn set_pending_reset(ctx: &mut InstructionContext, side: Side)
    ensures
        side == Side::Long ==> final(ctx).pending_reset_long && final(ctx).pending_reset_short
            == old(ctx).pending_reset_short,
        side == Side::Short ==> final(ctx).pending_reset_short && final(ctx).pending_reset_long
            == old(ctx).pending_reset_long,
{
    match side {
        Side::Long => ctx.pending_reset_long = true,
        Side::Short => ctx.pending_reset_short = true,
    }
}

pub open spec fn spec_params_valid(p: RiskParams) -> bool {
    &&& p.maintenance_margin_bps != 0 && p.initial_margin_bps != 0
    &&& p.initial_margin_bps <= 10_000 && p.maintenance_margin_bps <= 10_000
    &&& p.initial_margin_bps >= p.maintenance_margin_bps
    &&& !(p.min_nonzero_mm_req > 0 && p.min_nonzero_im_req > 0 && p.min_nonzero_mm_req
        >= p.min_nonzero_im_req)
    &&& p.max_accounts != 0 && p.max_accounts <= MAX_ACCOUNTS
    &&& p.warmup_period_slots != 0
    &&& p.max_crank_staleness_slots != 0
    &&& p.trading_fee_bps <= 10_000
    &&& p.liquidation_fee_bps <= 10_000
    &&& p.min_liquidation_abs.0 <= p.liquidation_fee_cap.0
    &&& p.liquidation_buffer_bps <= 10_000
    &&& p.funding_premium_weight_bps <= 10_000
    &&& !(p.funding_premium_weight_bps > 0 && p.funding_premium_dampening_e6 == 0)
    &&& p.partial_liquidation_bps <= 10_000
    &&& !(p.emergency_liquidation_margin_bps > 0 && p.emergency_liquidation_margin_bps
        >= p.maintenance_margin_bps)
    &&& p.fee_tier2_bps <= 10_000 && p.fee_tier3_bps <= 10_000
    &&& !(p.fee_tier2_threshold > 0 && p.fee_tier3_threshold > 0 && p.fee_tier3_threshold
        <= p.fee_tier2_threshold)
    &&& ((p.fee_split_lp_bps > 0 || p.fee_split_protocol_bps > 0 || p.fee_split_creator_bps > 0)
        ==> p.fee_split_lp_bps + p.fee_split_protocol_bps + p.fee_split_creator_bps == 10_000)
    &&& p.maintenance_fee_per_slot.0 <= MAX_MAINTENANCE_FEE_PER_SLOT
    &&& p.min_initial_deposit.0 != 0
}

impl RiskParams {
    /// Checks every parameter bound; any violation is `Err(Overflow)`.
    pub fn validate(&self) -> (r: RiskResult<()>)
        ensures
            r is Ok <==> spec_params_valid(*self),
            r is Err ==> r == Err::<(), RiskError>(RiskError::Overflow),
    {
        if self.maintenance_margin_bps == 0 || self.initial_margin_bps == 0 {
            return Err(RiskError::Overflow);
        }
        if self.initial_margin_bps > 10_000 || self.maintenance_margin_bps > 10_000 {
            return Err(RiskError::Overflow);
        }
        if self.initial_margin_bps < self.maintenance_margin_bps {
            return Err(RiskError::Overflow);
        }
        if self.min_nonzero_mm_req > 0 && self.min_nonzero_im_req > 0
            && self.min_nonzero_mm_req >= self.min_nonzero_im_req {
            return Err(RiskError::Overflow);
        }
        if self.max_accounts == 0 || self.max_accounts > MAX_ACCOUNTS as u64 {
            return Err(RiskError::Overflow);
        }
        if self.warmup_period_slots == 0 {
            return Err(RiskError::Overflow);
        }
        if self.max_crank_staleness_slots == 0 {
            return Err(RiskError::Overflow);
        }
        if self.trading_fee_bps > 10_000 {
            return Err(RiskError::Overflow);
        }
        if self.liquidation_fee_bps > 10_000 {
            return Err(RiskError::Overflow);
        }
        if self.min_liquidation_abs.get() > self.liquidation_fee_cap.get() {
            return Err(RiskError::Overflow);
        }
        if self.liquidation_buffer_bps > 10_000 {
            return Err(RiskError::Overflow);
        }
        if self.funding_premium_weight_bps > 10_000 {
            return Err(RiskError::Overflow);
        }
        if self.funding_premium_weight_bps > 0 && self.funding_premium_dampening_e6 == 0 {
            return Err(RiskError::Overflow);
        }
        if self.partial_liquidation_bps > 10_000 {
            return Err(RiskError::Overflow);
        }
        if self.emergency_liquidation_margin_bps > 0
            && self.emergency_liquidation_margin_bps >= self.maintenance_margin_bps {
            return Err(RiskError::Overflow);
        }
        if self.fee_tier2_bps > 10_000 || self.fee_tier3_bps > 10_000 {
            return Err(RiskError::Overflow);
        }
        if self.fee_tier2_threshold > 0 && self.fee_tier3_threshold > 0
            && self.fee_tier3_threshold <= self.fee_tier2_threshold {
            return Err(RiskError::Overflow);
        }
        if self.fee_split_lp_bps > 0 || self.fee_split_protocol_bps > 0
            || self.fee_split_creator_bps > 0 {
            let total = crate::num::sat_add_u64(
                crate::num::sat_add_u64(self.fee_split_lp_bps, self.fee_split_protocol_bps),
                self.fee_split_creator_bps,
            );
            if total != 10_000 {
                return Err(RiskError::Overflow);
            }
        }
        if self.maintenance_fee_per_slot.get() > MAX_MAINTENANCE_FEE_PER_SLOT {
            return Err(RiskError::Overflow);
        }
        if self.min_initial_deposit.get() == 0 {
            return Err(RiskError::Overflow);
        }
        Ok(())
    }

    /// Emergency liquidation margin in bps (0 means half the maintenance margin).
    pub fn effective_emergency_margin_bps(&self) -> (r: u64)
        ensures
            r == (if self.emergency_liquidation_margin_bps > 0 {
                self.emergency_liquidation_margin_bps as int
            } else {
                (self.maintenance_margin_bps / 2) as int
            }),
    {
        if self.emergency_liquidation_margin_bps > 0 {
            self.emergency_liquidation_margin_bps
        } else {
            self.maintenance_margin_bps / 2
        }
    }
}

} // verus!
