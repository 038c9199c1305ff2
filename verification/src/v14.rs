//! Account-local engine layout: errors, modes, provenance headers and the
//! little-endian plain-old-data integer cells that accounts are stored in.
use vstd::prelude::*;

verus! {

broadcast use vstd::array::group_array_axioms;

pub const V14_MAX_PORTFOLIO_ASSETS_N: usize = 16;
pub const V14_DOMAIN_COUNT: usize = 32;
pub const V14_LAYOUT_DISCRIMINATOR: u16 = 14;
pub const V14_ACCOUNT_VERSION: u16 = 1;

#[derive(Clone, Copy, Debug, PartialEq, Eq, Structural)]
pub enum V14Error {
    InvalidConfig,
    ArithmeticOverflow,
    ProvenanceMismatch,
    HiddenLeg,
    InvalidLeg,
    Stale,
    BStale,
    LockActive,
    NonProgress,
    RecoveryRequired,
    CounterOverflow,
    CounterUnderflow,
}

pub type V14Result<T> = core::result::Result<T, V14Error>;

#[derive(Clone, Copy, Debug, PartialEq, Eq, Structural)]
pub enum HLockLaneV14 {
    HMin,
    HMax,
}

#[derive(Clone, Copy, Debug, PartialEq, Eq, Structural)]
pub enum SideV14 {
    Long,
    Short,
}

#[derive(Clone, Copy, Debug, PartialEq, Eq, Structural)]
pub enum SideModeV14 {
    Normal,
    DrainOnly,
    ResetPending,
}

#[derive(Clone, Copy, Debug, PartialEq, Eq, Structural)]
pub enum MarketModeV14 {
    Live,
    Resolved,
    Recovery,
}

#[derive(Clone, Copy, Debug, PartialEq, Eq, Structural)]
pub enum PermissionlessRecoveryReasonV14 {
    BelowProgressFloor,
    BlockedSegmentHeadroomOrRepresentability,
    AccountBSettlementCannotProgress,
    BIndexHeadroomExhausted,
    ActiveBankruptCloseCannotProgress,
    ExplicitLossOrDustAuditOverflow,
    OracleOrTargetUnavailableByAuthenticatedPolicy,
    CounterOrEpochOverflowDeclaredRecovery,
}

/// Identity and layout tag stored at the head of every portfolio account.
#[derive(Clone, Copy, Debug, PartialEq, Eq)]
pub struct ProvenanceHeaderV14 {
    pub market_group_id: [u8; 32],
    pub portfolio_account_id: [u8; 32],
    pub owner: [u8; 32],
    pub version: u16,
    pub layout_discriminator: u16,
}

impl ProvenanceHeaderV14 {
    /// A header for the current account version and layout.
    pub fn new(market_group_id: [u8; 32], portfolio_account_id: [u8; 32], owner: [u8; 32]) -> (r:
        Self)
        ensures
            r == (ProvenanceHeaderV14 {
                market_group_id,
                portfolio_account_id,
                owner,
                version: V14_ACCOUNT_VERSION,
                layout_discriminator: V14_LAYOUT_DISCRIMINATOR,
            }),
    {
        ProvenanceHeaderV14 {
            market_group_id,
            portfolio_account_id,
            owner,
            version: V14_ACCOUNT_VERSION,
            layout_discriminator: V14_LAYOUT_DISCRIMINATOR,
        }
    }
}

/// Wire code of a recovery reason.
pub open spec fn reason_code(r: PermissionlessRecoveryReasonV14) -> u8 {
    match r {
        PermissionlessRecoveryReasonV14::BelowProgressFloor => 0,
        PermissionlessRecoveryReasonV14::BlockedSegmentHeadroomOrRepresentability => 1,
        PermissionlessRecoveryReasonV14::AccountBSettlementCannotProgress => 2,
        PermissionlessRecoveryReasonV14::BIndexHeadroomExhausted => 3,
        PermissionlessRecoveryReasonV14::ActiveBankruptCloseCannotProgress => 4,
        PermissionlessRecoveryReasonV14::ExplicitLossOrDustAuditOverflow => 5,
        PermissionlessRecoveryReasonV14::OracleOrTargetUnavailableByAuthenticatedPolicy => 6,
        PermissionlessRecoveryReasonV14::CounterOrEpochOverflowDeclaredRecovery => 7,
    }
}

fn encode_recovery_reason(value: PermissionlessRecoveryReasonV14) -> (r: u8)
    ensures
        r == reason_code(value),
{
    match value {
        PermissionlessRecoveryReasonV14::BelowProgressFloor => 0,
        PermissionlessRecoveryReasonV14::BlockedSegmentHeadroomOrRepresentability => 1,
        PermissionlessRecoveryReasonV14::AccountBSettlementCannotProgress => 2,
        PermissionlessRecoveryReasonV14::BIndexHeadroomExhausted => 3,
        PermissionlessRecoveryReasonV14::ActiveBankruptCloseCannotProgress => 4,
        PermissionlessRecoveryReasonV14::ExplicitLossOrDustAuditOverflow => 5,
        PermissionlessRecoveryReasonV14::OracleOrTargetUnavailableByAuthenticatedPolicy => 6,
        PermissionlessRecoveryReasonV14::CounterOrEpochOverflowDeclaredRecovery => 7,
    }
}

fn decode_recovery_reason(value: u8) -> (r: V14Result<PermissionlessRecoveryReasonV14>)
    ensures
        reason_of_code(value) matches Some(x) ==> r == Ok::<PermissionlessRecoveryReasonV14, V14Error>(x),
        reason_of_code(value) is None ==> r == Err::<PermissionlessRecoveryReasonV14, V14Error>(
            V14Error::InvalidConfig,
        ),
{
    match value {
        0 => Ok(PermissionlessRecoveryReasonV14::BelowProgressFloor),
        1 => Ok(PermissionlessRecoveryReasonV14::BlockedSegmentHeadroomOrRepresentability),
        2 => Ok(PermissionlessRecoveryReasonV14::AccountBSettlementCannotProgress),
        3 => Ok(PermissionlessRecoveryReasonV14::BIndexHeadroomExhausted),
        4 => Ok(PermissionlessRecoveryReasonV14::ActiveBankruptCloseCannotProgress),
        5 => Ok(PermissionlessRecoveryReasonV14::ExplicitLossOrDustAuditOverflow),
        6 => Ok(PermissionlessRecoveryReasonV14::OracleOrTargetUnavailableByAuthenticatedPolicy),
        7 => Ok(PermissionlessRecoveryReasonV14::CounterOrEpochOverflowDeclaredRecovery),
        _ => Err(V14Error::InvalidConfig),
    }
}

/// The reason with wire code `c`, if any.
pub open spec fn reason_of_code(c: u8) -> Option<PermissionlessRecoveryReasonV14> {
    if c == 0 {
        Some(PermissionlessRecoveryReasonV14::BelowProgressFloor)
    } else if c == 1 {
        Some(PermissionlessRecoveryReasonV14::BlockedSegmentHeadroomOrRepresentability)
    } else if c == 2 {
        Some(PermissionlessRecoveryReasonV14::AccountBSettlementCannotProgress)
    } else if c == 3 {
        Some(PermissionlessRecoveryReasonV14::BIndexHeadroomExhausted)
    } else if c == 4 {
        Some(PermissionlessRecoveryReasonV14::ActiveBankruptCloseCannotProgress)
    } else if c == 5 {
        Some(PermissionlessRecoveryReasonV14::ExplicitLossOrDustAuditOverflow)
    } else if c == 6 {
        Some(PermissionlessRecoveryReasonV14::OracleOrTargetUnavailableByAuthenticatedPolicy)
    } else if c == 7 {
        Some(PermissionlessRecoveryReasonV14::CounterOrEpochOverflowDeclaredRecovery)
    } else {
        None
    }
}

/// An optional recovery reason as stored in an account: a presence flag and a code.
#[derive(Clone, Copy, Debug, PartialEq, Eq, Structural)]
pub struct V14OptionalRecoveryReasonAccount {
    pub present: u8,
    pub value: u8,
}

/// `None` is stored as (0, 0), `Some(r)` as (1, code of r).
pub open spec fn stored_reason(value: Option<PermissionlessRecoveryReasonV14>) -> V14OptionalRecoveryReasonAccount {
    match value {
        Some(x) => V14OptionalRecoveryReasonAccount { present: 1, value: reason_code(x) },
        None => V14OptionalRecoveryReasonAccount { present: 0, value: 0 },
    }
}

/// Decoding of a stored reason; any other flag or code is `InvalidConfig`.
pub open spec fn decoded_reason(s: V14OptionalRecoveryReasonAccount) -> V14Result<Option<PermissionlessRecoveryReasonV14>> {
    if s.present == 0 && s.value == 0 {
        Ok(None)
    } else if s.present == 1 && reason_of_code(s.value) is Some {
        Ok(reason_of_code(s.value))
    } else {
        Err(V14Error::InvalidConfig)
    }
}

impl V14OptionalRecoveryReasonAccount {
    /// Stores an optional reason.
    pub fn from_runtime(value: Option<PermissionlessRecoveryReasonV14>) -> (r: Self)
        ensures
            r == stored_reason(value),
    {
        match value {
            Some(reason) => V14OptionalRecoveryReasonAccount {
                present: 1,
                value: encode_recovery_reason(reason),
            },
            None => V14OptionalRecoveryReasonAccount { present: 0, value: 0 },
        }
    }

    /// Reads a stored reason back.
    pub fn try_to_runtime(self) -> (r: V14Result<Option<PermissionlessRecoveryReasonV14>>)
        ensures
            r == decoded_reason(self),
    {
        if self.present == 0 && self.value == 0 {
            Ok(None)
        } else if self.present == 1 {
            match decode_recovery_reason(self.value) {
                Ok(x) => Ok(Some(x)),
                Err(e) => Err(e),
            }
        } else {
            Err(V14Error::InvalidConfig)
        }
    }
}

/// Reading back what was stored gives the same optional reason.
pub proof fn lemma_recovery_reason_roundtrip(value: Option<PermissionlessRecoveryReasonV14>)
    ensures
        decoded_reason(stored_reason(value)) == Ok::<Option<PermissionlessRecoveryReasonV14>, V14Error>(value),
{
}

/// 256 to the power `n`.
pub open spec fn pow256(n: nat) -> nat
    decreases n,
{
    if n == 0 {
        1
    } else {
        256 * pow256((n - 1) as nat)
    }
}

/// The unsigned number whose little-endian base-256 digits are `b`.
pub open spec fn le_value(b: Seq<u8>) -> nat
    decreases b.len(),
{
    if b.len() == 0 {
        0
    } else {
        (b[0] + 256 * le_value(b.drop_first())) as nat
    }
}

/// A little-endian byte string of length `n` denotes a number below 256^n.
pub proof fn lemma_le_value_bound(b: Seq<u8>)
    ensures
        le_value(b) < pow256(b.len()),
    decreases b.len(),
{
    if b.len() > 0 {
        lemma_le_value_bound(b.drop_first());
    }
}

proof fn lemma_pow256_mono(a: nat, c: nat)
    requires
        a <= c,
    ensures
        1 <= pow256(a) <= pow256(c),
    decreases c,
{
    if c > a {
        lemma_pow256_mono(a, (c - 1) as nat);
    } else if a > 0 {
        lemma_pow256_mono((a - 1) as nat, (a - 1) as nat);
    }
}

proof fn lemma_pow256_16()
    ensures
        pow256(16) == 0x1_0000_0000_0000_0000_0000_0000_0000_0000,
        pow256(8) == 0x1_0000_0000_0000_0000,
        pow256(4) == 0x1_0000_0000,
        pow256(2) == 0x1_0000,
{
    reveal_with_fuel(pow256, 17);
}

/// The `n` little-endian digits of `v`.
fn le_digits(v: u128, n: usize) -> (d: Vec<u8>)
    requires
        1 <= n <= 16,
        v < pow256(n as nat),
    ensures
        d@.len() == n,
        le_value(d@) == v,
    decreases n,
{
    let low = (v % 256) as u8;
    let mut d: Vec<u8>;
    if n == 1 {
        d = Vec::new();
    } else {
        proof {
            let p = pow256((n - 1) as nat);
            assert(v / 256 < p) by (nonlinear_arith)
                requires
                    v < 256 * p,
            ;
        }
        d = le_digits(v / 256, n - 1);
    }
    let ghost rest = d@;
    d.insert(0, low);
    proof {
        assert(d@.drop_first() =~= rest);
        vstd::arithmetic::div_mod::lemma_fundamental_div_mod(v as int, 256);
        assert(d@[0] == v % 256);
        if n == 1 {
            assert(v < 256) by {
                reveal_with_fuel(pow256, 2);
            }
            assert(le_value(rest) == 0);
        }
        assert(le_value(d@) == d@[0] + 256 * le_value(rest));
    }
    d
}

/// The number denoted by the little-endian digits in `b`.
fn le_read(b: &[u8]) -> (r: u128)
    requires
        b@.len() <= 16,
    ensures
        r == le_value(b@),
{
    let len = b.len();
    let mut k = len;
    let mut r: u128 = 0;
    proof {
        assert(b@.subrange(len as int, len as int) =~= Seq::<u8>::empty());
        lemma_pow256_16();
    }
    while k > 0
        invariant
            k <= len == b@.len() <= 16,
            r == le_value(b@.subrange(k as int, len as int)),
            pow256(16) == 0x1_0000_0000_0000_0000_0000_0000_0000_0000,
        decreases k,
    {
        let ghost prev = b@.subrange(k as int, len as int);
        proof {
            lemma_le_value_bound(prev);
            lemma_pow256_mono((len - k + 1) as nat, 16);
            assert(pow256((len - k + 1) as nat) == 256 * pow256(prev.len()));
        }
        let digit = b[k - 1];
        r = r * 256 + digit as u128;
        k = k - 1;
        proof {
            assert(b@.subrange(k as int, len as int).drop_first() =~= prev);
        }
    }
    proof {
        assert(b@.subrange(0, len as int) =~= b@);
    }
    r
}

/// A `u16` stored as 2 little-endian bytes.
#[derive(Clone, Copy, Debug, Default, PartialEq, Eq)]
pub struct V14PodU16 {
    pub bytes: [u8; 2],
}

impl V14PodU16 {
    /// The little-endian bytes of `value`.
    pub fn new(value: u16) -> (r: Self)
        ensures
            r.bytes@.len() == 2,
            le_value(r.bytes@) == value,
    {
        proof {
            lemma_pow256_16();
        }
        let d = le_digits(value as u128, 2);
        let bytes = [d[0], d[1]];
        proof {
            assert(bytes@ =~= d@);
        }
        V14PodU16 { bytes }
    }

    /// The number the bytes denote.
    pub fn get(self) -> (r: u16)
        ensures
            r == le_value(self.bytes@),
    {
        proof {
            lemma_le_value_bound(self.bytes@);
            lemma_pow256_16();
        }
        le_read(vstd::array::array_as_slice(&self.bytes)) as u16
    }
}

/// A `u32` stored as 4 little-endian bytes.
#[derive(Clone, Copy, Debug, Default, PartialEq, Eq)]
pub struct V14PodU32 {
    pub bytes: [u8; 4],
}

impl V14PodU32 {
    /// The little-endian bytes of `value`.
    pub fn new(value: u32) -> (r: Self)
        ensures
            r.bytes@.len() == 4,
            le_value(r.bytes@) == value,
    {
        proof {
            lemma_pow256_16();
        }
        let d = le_digits(value as u128, 4);
        let bytes = [d[0], d[1], d[2], d[3]];
        proof {
            assert(bytes@ =~= d@);
        }
        V14PodU32 { bytes }
    }

    /// The number the bytes denote.
    pub fn get(self) -> (r: u32)
        ensures
            r == le_value(self.bytes@),
    {
        proof {
            lemma_le_value_bound(self.bytes@);
            lemma_pow256_16();
        }
        le_read(vstd::array::array_as_slice(&self.bytes)) as u32
    }
}

/// A `u64` stored as 8 little-endian bytes.
#[derive(Clone, Copy, Debug, Default, PartialEq, Eq)]
pub struct V14PodU64 {
    pub bytes: [u8; 8],
}

impl V14PodU64 {
    /// The little-endian bytes of `value`.
    pub fn new(value: u64) -> (r: Self)
        ensures
            r.bytes@.len() == 8,
            le_value(r.bytes@) == value,
    {
        proof {
            lemma_pow256_16();
        }
        let d = le_digits(value as u128, 8);
        let bytes = [d[0], d[1], d[2], d[3], d[4], d[5], d[6], d[7]];
        proof {
            assert(bytes@ =~= d@);
        }
        V14PodU64 { bytes }
    }

    /// The number the bytes denote.
    pub fn get(self) -> (r: u64)
        ensures
            r == le_value(self.bytes@),
    {
        proof {
            lemma_le_value_bound(self.bytes@);
            lemma_pow256_16();
        }
        le_read(vstd::array::array_as_slice(&self.bytes)) as u64
    }
}

/// A `u128` stored as 16 little-endian bytes.
#[derive(Clone, Copy, Debug, Default, PartialEq, Eq)]
pub struct V14PodU128 {
    pub bytes: [u8; 16],
}

impl V14PodU128 {
    /// The little-endian bytes of `value`.
    pub fn new(value: u128) -> (r: Self)
        ensures
            r.bytes@.len() == 16,
            le_value(r.bytes@) == value,
    {
        proof {
            lemma_pow256_16();
        }
        let d = le_digits(value as u128, 16);
        let bytes = [d[0], d[1], d[2], d[3], d[4], d[5], d[6], d[7], d[8], d[9], d[10], d[11], d[12], d[13], d[14], d[15]];
        proof {
            assert(bytes@ =~= d@);
        }
        V14PodU128 { bytes }
    }

    /// The number the bytes denote.
    pub fn get(self) -> (r: u128)
        ensures
            r == le_value(self.bytes@),
    {
        proof {
            lemma_le_value_bound(self.bytes@);
            lemma_pow256_16();
        }
        le_read(vstd::array::array_as_slice(&self.bytes)) as u128
    }
}

/// An `i128` stored as 16 little-endian two's-complement bytes.
#[derive(Clone, Copy, Debug, Default, PartialEq, Eq)]
pub struct V14PodI128 {
    pub bytes: [u8; 16],
}

/// The two's-complement reading of a 128-bit pattern.
pub open spec fn as_signed_128(u: nat) -> int {
    if u > i128::MAX {
        u - 0x1_0000_0000_0000_0000_0000_0000_0000_0000
    } else {
        u as int
    }
}

/// The 128-bit two's-complement pattern of `v`.
pub open spec fn twos_complement_128(v: i128) -> nat {
    if v < 0 {
        (v + 0x1_0000_0000_0000_0000_0000_0000_0000_0000) as nat
    } else {
        v as nat
    }
}

impl V14PodI128 {
    /// The little-endian two's-complement bytes of `value`.
    pub fn new(value: i128) -> (r: Self)
        ensures
            r.bytes@.len() == 16,
            le_value(r.bytes@) == twos_complement_128(value),
    {
        proof {
            lemma_pow256_16();
        }
        let u: u128 = if value < 0 {
            u128::MAX - ((-(value + 1)) as u128)
        } else {
            value as u128
        };
        let d = le_digits(u, 16);
        let bytes = [d[0], d[1], d[2], d[3], d[4], d[5], d[6], d[7], d[8], d[9], d[10], d[11], d[12], d[13], d[14], d[15]];
        proof {
            assert(bytes@ =~= d@);
        }
        V14PodI128 { bytes }
    }

    /// The signed number the bytes denote.
    pub fn get(self) -> (r: i128)
        ensures
            r == as_signed_128(le_value(self.bytes@)),
    {
        proof {
            lemma_le_value_bound(self.bytes@);
            lemma_pow256_16();
        }
        let u = le_read(vstd::array::array_as_slice(&self.bytes));
        if u <= i128::MAX as u128 {
            u as i128
        } else {
            -((u128::MAX - u) as i128) - 1
        }
    }
}

/// Reading a stored `i128` gives it back.
pub proof fn lemma_pod_i128_roundtrip(v: i128)
    ensures
        as_signed_128(twos_complement_128(v)) == v,
{
}

/// A byte string is determined by its length and the number it denotes:
/// two little-endian strings of one length with one value are equal, so
/// storing what was read from a cell gives back the same bytes.
pub proof fn lemma_le_value_injective(a: Seq<u8>, b: Seq<u8>)
    requires
        a.len() == b.len(),
        le_value(a) == le_value(b),
    ensures
        a == b,
    decreases a.len(),
{
    if a.len() > 0 {
        let ra = le_value(a.drop_first());
        let rb = le_value(b.drop_first());
        let x = a[0] as int;
        let y = b[0] as int;
        assert(x + 256 * ra == y + 256 * rb);
        assert(x == y && ra == rb) by (nonlinear_arith)
            requires
                x + 256 * ra == y + 256 * rb,
                0 <= x < 256,
                0 <= y < 256,
                ra >= 0,
                rb >= 0,
        ;
        lemma_le_value_injective(a.drop_first(), b.drop_first());
        assert(a =~= b) by {
            assert forall|k: int| 0 <= k < a.len() implies a[k] == b[k] by {
                if k > 0 {
                    assert(a[k] == a.drop_first()[k - 1]);
                    assert(b[k] == b.drop_first()[k - 1]);
                }
            }
        }
    } else {
        assert(a =~= b);
    }
}

/// Reading a 128-bit pattern as a signed number and encoding it again gives
/// the same pattern.
pub proof fn lemma_pod_i128_pattern_roundtrip(u: nat)
    requires
        u < 0x1_0000_0000_0000_0000_0000_0000_0000_0000,
    ensures
        twos_complement_128(as_signed_128(u) as i128) == u,
{
}

/// Storing what was read from a cell gives back the same cell: a cell `q`
/// that `new` builds from the number `get` reads out of `p` (that is, `q`
/// holds the encoding of that number, as the contract of `new` states) has
/// exactly the bytes of `p`.
pub proof fn lemma_pod_i128_store_of_read(p: V14PodI128, q: V14PodI128)
    requires
        le_value(q.bytes@) == twos_complement_128(as_signed_128(le_value(p.bytes@)) as i128),
    ensures
        q == p,
{
    broadcast use vstd::array::group_array_axioms;
    lemma_le_value_bound(p.bytes@);
    lemma_pow256_16();
    lemma_pod_i128_pattern_roundtrip(le_value(p.bytes@));
    lemma_le_value_injective(q.bytes@, p.bytes@);
    assert(q.bytes =~= p.bytes);
}

} // verus!
