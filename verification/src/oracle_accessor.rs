//! Reading and writing the oracle account of a pool.
use vstd::prelude::*;
use vstd::bytes::{spec_u16_from_le_bytes, spec_u32_from_le_bytes, spec_u32_to_le_bytes,
    spec_u64_from_le_bytes, spec_u64_to_le_bytes};
use crate::account::{AccountInfo, discriminator_matches, oracle_discriminator, program_id,
    spec_oracle_discriminator, spec_program_id};
use crate::errors::ErrorCode;
use crate::oracle::{AdaptiveFeeConstants, AdaptiveFeeInfo, AdaptiveFeeVariables, Oracle, ORACLE_LEN};
use crate::pubkey::Pubkey;
use crate::whirlpool::WhirlpoolAccount;

verus! {

pub open spec fn u16_at(s: Seq<u8>, i: int) -> u16 {
    spec_u16_from_le_bytes(s.subrange(i, i + 2))
}

pub open spec fn u32_at(s: Seq<u8>, i: int) -> u32 {
    spec_u32_from_le_bytes(s.subrange(i, i + 4))
}

pub open spec fn u64_at(s: Seq<u8>, i: int) -> u64 {
    spec_u64_from_le_bytes(s.subrange(i, i + 8))
}

/// `c` is the adaptive fee constants stored at `s[p..p + 34]`.
pub open spec fn spec_constants_at(s: Seq<u8>, p: int, c: AdaptiveFeeConstants) -> bool {
    &&& c.filter_period == u16_at(s, p)
    &&& c.decay_period == u16_at(s, p + 2)
    &&& c.reduction_factor == u16_at(s, p + 4)
    &&& c.adaptive_fee_control_factor == u32_at(s, p + 6)
    &&& c.max_volatility_accumulator == u32_at(s, p + 10)
    &&& c.tick_group_size == u16_at(s, p + 14)
    &&& c.major_swap_threshold_ticks == u16_at(s, p + 16)
    &&& c.reserved@ == s.subrange(p + 18, p + 34)
}

/// `v` is the adaptive fee variables stored at `s[p..p + 44]`.
pub open spec fn spec_variables_at(s: Seq<u8>, p: int, v: AdaptiveFeeVariables) -> bool {
    &&& v.last_reference_update_timestamp == u64_at(s, p)
    &&& v.last_major_swap_timestamp == u64_at(s, p + 8)
    &&& v.volatility_reference == u32_at(s, p + 16)
    &&& v.tick_group_index_reference == u32_at(s, p + 20) as i32
    &&& v.volatility_accumulator == u32_at(s, p + 24)
    &&& v.reserved@ == s.subrange(p + 28, p + 44)
}

/// `o` is the oracle stored in account data `s` (after its discriminator).
pub open spec fn spec_oracle_at(s: Seq<u8>, o: Oracle) -> bool {
    &&& o.whirlpool.0@ == s.subrange(8, 40)
    &&& o.trade_enable_timestamp == u64_at(s, 40)
    &&& spec_constants_at(s, 48, o.adaptive_fee_constants)
    &&& spec_variables_at(s, 82, o.adaptive_fee_variables)
    &&& o.reserved@ == s.subrange(126, 254)
}

/// Bytes of adaptive fee variables, little-endian, the tick group index in
/// two's complement.
pub open spec fn spec_encode_variables(v: AdaptiveFeeVariables) -> Seq<u8> {
    spec_u64_to_le_bytes(v.last_reference_update_timestamp)
        + spec_u64_to_le_bytes(v.last_major_swap_timestamp)
        + spec_u32_to_le_bytes(v.volatility_reference)
        + spec_u32_to_le_bytes(v.tick_group_index_reference as u32)
        + spec_u32_to_le_bytes(v.volatility_accumulator)
        + v.reserved@
}

fn read_u16(s: &[u8], pos: usize) -> (r: u16)
    requires
        pos + 2 <= s@.len() <= usize::MAX,
    ensures
        r == u16_at(s@, pos as int),
{
    vstd::bytes::u16_from_le_bytes(vstd::slice::slice_subrange(s, pos, pos + 2))
}

fn read_u32(s: &[u8], pos: usize) -> (r: u32)
    requires
        pos + 4 <= s@.len() <= usize::MAX,
    ensures
        r == u32_at(s@, pos as int),
{
    vstd::bytes::u32_from_le_bytes(vstd::slice::slice_subrange(s, pos, pos + 4))
}

fn read_u64(s: &[u8], pos: usize) -> (r: u64)
    requires
        pos + 8 <= s@.len() <= usize::MAX,
    ensures
        r == u64_at(s@, pos as int),
{
    vstd::bytes::u64_from_le_bytes(vstd::slice::slice_subrange(s, pos, pos + 8))
}

fn read_bytes_16(s: &[u8], pos: usize) -> (r: [u8; 16])
    requires
        pos + 16 <= s@.len() <= usize::MAX,
    ensures
        r@ == s@.subrange(pos as int, pos + 16),
{
    let mut a = [0u8; 16];
    let mut i: usize = 0;
    while i < 16
        invariant
            i <= 16,
            pos + 16 <= s@.len() <= usize::MAX,
            forall|j: int| 0 <= j < i ==> a@[j] == s@[pos + j],
        decreases 16 - i,
    {
        a[i] = s[pos + i];
        i = i + 1;
    }
    assert(a@ =~= s@.subrange(pos as int, pos + 16));
    a
}

fn read_bytes_32(s: &[u8], pos: usize) -> (r: [u8; 32])
    requires
        pos + 32 <= s@.len() <= usize::MAX,
    ensures
        r@ == s@.subrange(pos as int, pos + 32),
{
    let mut a = [0u8; 32];
    let mut i: usize = 0;
    while i < 32
        invariant
            i <= 32,
            pos + 32 <= s@.len() <= usize::MAX,
            forall|j: int| 0 <= j < i ==> a@[j] == s@[pos + j],
        decreases 32 - i,
    {
        a[i] = s[pos + i];
        i = i + 1;
    }
    assert(a@ =~= s@.subrange(pos as int, pos + 32));
    a
}

fn read_bytes_128(s: &[u8], pos: usize) -> (r: [u8; 128])
    requires
        pos + 128 <= s@.len() <= usize::MAX,
    ensures
        r@ == s@.subrange(pos as int, pos + 128),
{
    let mut a = [0u8; 128];
    let mut i: usize = 0;
    while i < 128
        invariant
            i <= 128,
            pos + 128 <= s@.len() <= usize::MAX,
            forall|j: int| 0 <= j < i ==> a@[j] == s@[pos + j],
        decreases 128 - i,
    {
        a[i] = s[pos + i];
        i = i + 1;
    }
    assert(a@ =~= s@.subrange(pos as int, pos + 128));
    a
}

impl Oracle {
    /// The oracle stored in account data (discriminator included).
    pub fn decode(s: &[u8]) -> (r: Oracle)
        requires
            ORACLE_LEN <= s@.len() <= usize::MAX,
        ensures
            spec_oracle_at(s@, r),
    {
        let constants = AdaptiveFeeConstants {
            filter_period: read_u16(s, 48),
            decay_period: read_u16(s, 50),
            reduction_factor: read_u16(s, 52),
            adaptive_fee_control_factor: read_u32(s, 54),
            max_volatility_accumulator: read_u32(s, 58),
            tick_group_size: read_u16(s, 62),
            major_swap_threshold_ticks: read_u16(s, 64),
            reserved: read_bytes_16(s, 66),
        };
        let variables = AdaptiveFeeVariables {
            last_reference_update_timestamp: read_u64(s, 82),
            last_major_swap_timestamp: read_u64(s, 90),
            volatility_reference: read_u32(s, 98),
            tick_group_index_reference: #[verifier::truncate] (read_u32(s, 102) as i32),
            volatility_accumulator: read_u32(s, 106),
            reserved: read_bytes_16(s, 110),
        };
        Oracle {
            whirlpool: Pubkey(read_bytes_32(s, 8)),
            trade_enable_timestamp: read_u64(s, 40),
            adaptive_fee_constants: constants,
            adaptive_fee_variables: variables,
            reserved: read_bytes_128(s, 126),
        }
    }
}

impl AdaptiveFeeVariables {
    /// The 44 bytes of these variables.
    pub fn encode(&self) -> (r: Vec<u8>)
        ensures
            r@ == spec_encode_variables(*self),
    {
        let mut out = vstd::bytes::u64_to_le_bytes(self.last_reference_update_timestamp);
        let mut b = vstd::bytes::u64_to_le_bytes(self.last_major_swap_timestamp);
        out.append(&mut b);
        let mut b = vstd::bytes::u32_to_le_bytes(self.volatility_reference);
        out.append(&mut b);
        let mut b = vstd::bytes::u32_to_le_bytes(self.tick_group_index_reference as u32);
        out.append(&mut b);
        let mut b = vstd::bytes::u32_to_le_bytes(self.volatility_accumulator);
        out.append(&mut b);
        let mut b = vstd::slice::slice_to_vec(vstd::array::array_as_slice(&self.reserved));
        out.append(&mut b);
        out
    }
}

/// Written variables read back as the same variables.
pub proof fn lemma_variables_roundtrip(s: Seq<u8>, p: int, v: AdaptiveFeeVariables, v2: AdaptiveFeeVariables)
    requires
        0 <= p,
        p + 44 <= s.len(),
        s.subrange(p, p + 44) == spec_encode_variables(v),
        spec_variables_at(s, p, v2),
    ensures
        v2 == v,
{
    vstd::bytes::lemma_auto_spec_u64_to_from_le_bytes();
    vstd::bytes::lemma_auto_spec_u32_to_from_le_bytes();
    let e = spec_encode_variables(v);
    assert(e.len() == 44);
    assert(s.subrange(p, p + 8) =~= e.subrange(0, 8));
    assert(s.subrange(p + 8, p + 16) =~= e.subrange(8, 16));
    assert(s.subrange(p + 16, p + 20) =~= e.subrange(16, 20));
    assert(s.subrange(p + 20, p + 24) =~= e.subrange(20, 24));
    assert(s.subrange(p + 24, p + 28) =~= e.subrange(24, 28));
    assert(s.subrange(p + 28, p + 44) =~= e.subrange(28, 44));
    assert(e.subrange(0, 8) =~= spec_u64_to_le_bytes(v.last_reference_update_timestamp));
    assert(e.subrange(8, 16) =~= spec_u64_to_le_bytes(v.last_major_swap_timestamp));
    assert(e.subrange(16, 20) =~= spec_u32_to_le_bytes(v.volatility_reference));
    assert(e.subrange(20, 24) =~= spec_u32_to_le_bytes(v.tick_group_index_reference as u32));
    assert(e.subrange(24, 28) =~= spec_u32_to_le_bytes(v.volatility_accumulator));
    assert(e.subrange(28, 44) =~= v.reserved@);
    let x = v.tick_group_index_reference;
    assert((x as u32) as i32 == x) by (bit_vector);
    vstd::array::axiom_array_ext_equal(v2.reserved, v.reserved);
}

/// What checking whether the oracle account is initialized gives: `false`
/// for an empty account of the system program; `AccountOwnedByWrongProgram`
/// for an account of another program; `AccountDiscriminatorNotFound` for
/// data shorter than 8 bytes; `AccountDiscriminatorMismatch` when the data
/// does not start with the oracle discriminator; `true` otherwise.
pub open spec fn spec_is_oracle_account_initialized(info: AccountInfo) -> Result<bool, ErrorCode> {
    if info.owner.is_default() && info.data@.len() == 0 {
        Ok(false)
    } else if info.owner.0@ != spec_program_id() {
        Err(ErrorCode::AccountOwnedByWrongProgram)
    } else if info.data@.len() < 8 {
        Err(ErrorCode::AccountDiscriminatorNotFound)
    } else if info.data@.subrange(0, 8) != spec_oracle_discriminator() {
        Err(ErrorCode::AccountDiscriminatorMismatch)
    } else {
        Ok(true)
    }
}

/// An account that passes the checks holds a whole oracle, and one of this
/// pool (the oracle address derives from the pool address, so any other
/// outcome is a broken invariant of the chain state).
pub open spec fn spec_oracle_account_consistent(info: AccountInfo, whirlpool: Seq<u8>) -> bool {
    spec_is_oracle_account_initialized(info) == Ok::<bool, ErrorCode>(true) ==> {
        &&& info.data@.len() >= ORACLE_LEN
        &&& info.data@.subrange(8, 40) == whirlpool
    }
}

/// Access to the oracle account of a pool, which may not exist yet.
pub struct OracleAccessor {
    oracle_account_info: AccountInfo,
    oracle_account_initialized: bool,
}

impl OracleAccessor {
    pub closed spec fn spec_account(&self) -> AccountInfo {
        self.oracle_account_info
    }

    pub closed spec fn spec_initialized(&self) -> bool {
        self.oracle_account_initialized
    }

    /// The accessor keeps an initialized account whole.
    pub closed spec fn wf(&self) -> bool {
        self.oracle_account_initialized ==> self.oracle_account_info.data@.len() >= ORACLE_LEN
    }

    /// Wrap the oracle account of a pool, checking whether it is initialized.
    pub fn new(whirlpool: &WhirlpoolAccount, oracle_account_info: AccountInfo) -> (r: Result<OracleAccessor, ErrorCode>)
        requires
            spec_oracle_account_consistent(oracle_account_info, whirlpool.key.0@),
        ensures
            match spec_is_oracle_account_initialized(oracle_account_info) {
                Ok(b) => r matches Ok(a) && a.wf() && a.spec_initialized() == b && a.spec_account() == oracle_account_info,
                Err(e) => r == Err::<OracleAccessor, ErrorCode>(e),
            },
    {
        let oracle_account_initialized = match Self::is_oracle_account_initialized(&oracle_account_info, whirlpool.key) {
            Ok(b) => b,
            Err(e) => return Err(e),
        };
        Ok(OracleAccessor { oracle_account_info, oracle_account_initialized })
    }

    /// True when trading has started: always for a pool without an oracle,
    /// otherwise once the current time reaches the oracle's start time.
    pub fn is_trade_enabled(&self, current_timestamp: u64) -> (r: Result<bool, ErrorCode>)
        requires
            self.wf(),
        ensures
            r == Ok::<bool, ErrorCode>(!self.spec_initialized()
                || u64_at(self.spec_account().data@, 40) <= current_timestamp),
    {
        if !self.oracle_account_initialized {
            return Ok(true);
        }
        let oracle = self.load();
        Ok(oracle.trade_enable_timestamp <= current_timestamp)
    }

    /// The adaptive fee constants and variables of the oracle; `None` for a
    /// pool without an oracle.
    pub fn get_adaptive_fee_info(&self) -> (r: Result<Option<AdaptiveFeeInfo>, ErrorCode>)
        requires
            self.wf(),
        ensures
            !self.spec_initialized() ==> r == Ok::<Option<AdaptiveFeeInfo>, ErrorCode>(None),
            self.spec_initialized() ==> (r matches Ok(Some(info))
                && spec_constants_at(self.spec_account().data@, 48, info.constants)
                && spec_variables_at(self.spec_account().data@, 82, info.variables)),
    {
        if !self.oracle_account_initialized {
            return Ok(None);
        }
        let oracle = self.load();
        Ok(Some(AdaptiveFeeInfo {
            constants: oracle.adaptive_fee_constants,
            variables: oracle.adaptive_fee_variables,
        }))
    }

    /// Store the adaptive fee variables of `adaptive_fee_info` in the oracle
    /// account; nothing to do for a pool without an oracle. A read-only oracle
    /// account is `AccountNotMutable`.
    pub fn update_adaptive_fee_variables(&mut self, adaptive_fee_info: &Option<AdaptiveFeeInfo>) -> (r: Result<(), ErrorCode>)
        requires
            old(self).wf(),
            old(self).spec_initialized() == adaptive_fee_info is Some,
        ensures
            final(self).wf(),
            final(self).spec_initialized() == old(self).spec_initialized(),
            final(self).spec_account().key == old(self).spec_account().key,
            final(self).spec_account().owner == old(self).spec_account().owner,
            final(self).spec_account().is_writable == old(self).spec_account().is_writable,
            match adaptive_fee_info {
                Some(info) => if old(self).spec_account().is_writable {
                    r is Ok && final(self).spec_account().data@ == crate::dynamic_tick_layout::spec_overwrite(
                        old(self).spec_account().data@, 82, spec_encode_variables(info.variables))
                } else {
                    r == Err::<(), ErrorCode>(ErrorCode::AccountNotMutable)
                        && final(self).spec_account().data@ == old(self).spec_account().data@
                },
                None => r is Ok && final(self).spec_account().data@ == old(self).spec_account().data@,
            },
    {
        match adaptive_fee_info {
            Some(info) => {
                if !self.oracle_account_info.is_writable {
                    return Err(ErrorCode::AccountNotMutable);
                }
                let bytes = info.variables.encode();
                proof {
                    vstd::bytes::lemma_auto_spec_u64_to_from_le_bytes();
                    vstd::bytes::lemma_auto_spec_u32_to_from_le_bytes();
                    assert(spec_u64_to_le_bytes(info.variables.last_reference_update_timestamp).len() == 8);
                    assert(spec_u64_to_le_bytes(info.variables.last_major_swap_timestamp).len() == 8);
                    assert(spec_u32_to_le_bytes(info.variables.volatility_reference).len() == 4);
                    assert(spec_u32_to_le_bytes(info.variables.tick_group_index_reference as u32).len() == 4);
                    assert(spec_u32_to_le_bytes(info.variables.volatility_accumulator).len() == 4);
                    assert(bytes@.len() == 44);
                }
                let ghost d0 = self.oracle_account_info.data@;
                overwrite_vec(&mut self.oracle_account_info.data, 82, &bytes);
                proof {
                    assert(self.oracle_account_info.data@.len() == d0.len());
                }
                Ok(())
            },
            None => Ok(()),
        }
    }

    /// The oracle account, with any changes made through this accessor.
    pub fn account(&self) -> (r: &AccountInfo)
        ensures
            *r == self.spec_account(),
    {
        &self.oracle_account_info
    }

    fn is_oracle_account_initialized(oracle_account_info: &AccountInfo, whirlpool: Pubkey) -> (r: Result<bool, ErrorCode>)
        requires
            spec_oracle_account_consistent(*oracle_account_info, whirlpool.0@),
        ensures
            r == spec_is_oracle_account_initialized(*oracle_account_info),
    {
        if oracle_account_info.owner.equals(&crate::account::system_program_id())
            && oracle_account_info.data.len() == 0 {
            return Ok(false);
        }
        if !oracle_account_info.owner.equals(&program_id()) {
            return Err(ErrorCode::AccountOwnedByWrongProgram);
        }
        if oracle_account_info.data.len() < 8 {
            return Err(ErrorCode::AccountDiscriminatorNotFound);
        }
        if !discriminator_matches(oracle_account_info.data.as_slice(), oracle_discriminator()) {
            return Err(ErrorCode::AccountDiscriminatorMismatch);
        }
        Ok(true)
    }

    fn load(&self) -> (r: Oracle)
        requires
            self.wf(),
            self.spec_initialized(),
        ensures
            spec_oracle_at(self.spec_account().data@, r),
    {
        let _n = self.oracle_account_info.data.len();
        Oracle::decode(self.oracle_account_info.data.as_slice())
    }
}

/// `data` with `w` written at `pos`.
fn overwrite_vec(data: &mut Vec<u8>, pos: usize, w: &Vec<u8>)
    requires
        pos + w@.len() <= old(data)@.len(),
    ensures
        final(data)@ == crate::dynamic_tick_layout::spec_overwrite(old(data)@, pos as int, w@),
{
    let len = data.len();
    let mut out = vstd::slice::slice_to_vec(vstd::slice::slice_subrange(data.as_slice(), 0, pos));
    let mut mid = vstd::slice::slice_to_vec(w.as_slice());
    let mut rest = vstd::slice::slice_to_vec(vstd::slice::slice_subrange(data.as_slice(), pos + w.len(), len));
    out.append(&mut mid);
    out.append(&mut rest);
    *data = out;
}

} // verus!
