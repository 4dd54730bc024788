use vstd::prelude::*;
use crate::errors::ErrorCode;
use crate::pubkey::Pubkey;
use crate::tick::TICK_ARRAY_SIZE;


verus! {

/// Largest delay, in seconds, between pool creation and the start of trading.
pub const MAX_TRADE_ENABLE_TIMESTAMP_DELTA: u64 = 259200;
/// Scale of one tick group crossed in the volatility accumulator.
pub const VOLATILITY_ACCUMULATOR_SCALE_FACTOR: u16 = 10_000;
/// Denominator of the reduction factor.
pub const REDUCTION_FACTOR_DENOMINATOR: u16 = 10_000;
/// Denominator of the adaptive fee control factor.
pub const ADAPTIVE_FEE_CONTROL_FACTOR_DENOMINATOR: u32 = 100_000;
/// Age, in seconds, after which the volatility reference is reset.
pub const MAX_REFERENCE_AGE: u64 = 3_600;

/// Parameters of the adaptive fee of a pool.
#[derive(Clone, Copy, Debug, PartialEq, Eq)]
pub struct AdaptiveFeeConstants {
    /// Seconds within which swaps count as high-frequency trading.
    pub filter_period: u16,
    /// Seconds after which the volatility reference decays to zero.
    pub decay_period: u16,
    /// Factor, over 10_000, by which the volatility decays.
    pub reduction_factor: u16,
    pub adaptive_fee_control_factor: u32,
    pub max_volatility_accumulator: u32,
    /// Ticks per tick group.
    pub tick_group_size: u16,
    pub major_swap_threshold_ticks: u16,
    pub reserved: [u8; 16],
}

/// Serialized size of `AdaptiveFeeConstants`.
pub const ADAPTIVE_FEE_CONSTANTS_LEN: usize = 2 + 2 + 2 + 4 + 4 + 2 + 2 + 16;

/// The volatility state of the adaptive fee of a pool.
#[derive(Clone, Copy, Debug, PartialEq, Eq)]
pub struct AdaptiveFeeVariables {
    pub last_reference_update_timestamp: u64,
    pub last_major_swap_timestamp: u64,
    pub volatility_reference: u32,
    pub tick_group_index_reference: i32,
    pub volatility_accumulator: u32,
    pub reserved: [u8; 16],
}

/// Serialized size of `AdaptiveFeeVariables`.
pub const ADAPTIVE_FEE_VARIABLES_LEN: usize = 8 + 8 + 4 + 4 + 4 + 16;

/// The adaptive fee constants and variables of a pool.
#[derive(Clone, Copy, Debug)]
pub struct AdaptiveFeeInfo {
    pub constants: AdaptiveFeeConstants,
    pub variables: AdaptiveFeeVariables,
}

/// The constants are acceptable for a pool of this tick spacing:
/// - `filter_period >= 1` and `decay_period > filter_period`,
/// - `adaptive_fee_control_factor < 100_000`,
/// - `max_volatility_accumulator * tick_group_size <= u32::MAX`,
/// - `reduction_factor < 10_000`,
/// - `tick_group_size` is a nonzero divisor of `tick_spacing`,
/// - `1 <= major_swap_threshold_ticks <= 88 * tick_spacing`.
pub open spec fn spec_valid_constants(
    tick_spacing: u16,
    filter_period: u16,
    decay_period: u16,
    reduction_factor: u16,
    adaptive_fee_control_factor: u32,
    max_volatility_accumulator: u32,
    tick_group_size: u16,
    major_swap_threshold_ticks: u16,
) -> bool {
    &&& filter_period != 0
    &&& decay_period != 0 && decay_period > filter_period
    &&& adaptive_fee_control_factor < ADAPTIVE_FEE_CONTROL_FACTOR_DENOMINATOR
    &&& max_volatility_accumulator * tick_group_size <= u32::MAX
    &&& reduction_factor < REDUCTION_FACTOR_DENOMINATOR
    &&& tick_group_size != 0 && tick_group_size <= tick_spacing && tick_spacing % tick_group_size == 0
    &&& major_swap_threshold_ticks != 0 && major_swap_threshold_ticks <= tick_spacing * TICK_ARRAY_SIZE
}

impl AdaptiveFeeConstants {
    /// All-zero constants.
    pub fn default() -> (r: AdaptiveFeeConstants)
        ensures
            r.filter_period == 0 && r.decay_period == 0 && r.reduction_factor == 0,
            r.adaptive_fee_control_factor == 0 && r.max_volatility_accumulator == 0,
            r.tick_group_size == 0 && r.major_swap_threshold_ticks == 0,
            r.reserved@ == Seq::new(16, |i: int| 0u8),
    {
        let r = AdaptiveFeeConstants {
            filter_period: 0,
            decay_period: 0,
            reduction_factor: 0,
            adaptive_fee_control_factor: 0,
            max_volatility_accumulator: 0,
            tick_group_size: 0,
            major_swap_threshold_ticks: 0,
            reserved: [0u8; 16],
        };
        assert(r.reserved@ =~= Seq::new(16, |i: int| 0u8));
        r
    }

    /// True when the constants are acceptable for a pool of this tick spacing.
    #[allow(clippy::too_many_arguments)]
    pub fn validate_constants(
        tick_spacing: u16,
        filter_period: u16,
        decay_period: u16,
        reduction_factor: u16,
        adaptive_fee_control_factor: u32,
        max_volatility_accumulator: u32,
        tick_group_size: u16,
        major_swap_threshold_ticks: u16,
    ) -> (r: bool)
        ensures
            r == spec_valid_constants(tick_spacing, filter_period, decay_period, reduction_factor,
                adaptive_fee_control_factor, max_volatility_accumulator, tick_group_size,
                major_swap_threshold_ticks),
    {
        if filter_period == 0 {
            return false;
        }
        if decay_period == 0 || decay_period <= filter_period {
            return false;
        }
        if adaptive_fee_control_factor >= ADAPTIVE_FEE_CONTROL_FACTOR_DENOMINATOR {
            return false;
        }
        proof {
            assert(max_volatility_accumulator as u64 * tick_group_size as u64 <= u32::MAX as u64 * u16::MAX as u64) by (nonlinear_arith);
        }
        if (max_volatility_accumulator as u64) * (tick_group_size as u64) > u32::MAX as u64 {
            return false;
        }
        if reduction_factor >= REDUCTION_FACTOR_DENOMINATOR {
            return false;
        }
        if tick_group_size == 0 || tick_group_size > tick_spacing || tick_spacing % tick_group_size != 0 {
            return false;
        }
        let ticks_in_tick_array = tick_spacing as i32 * TICK_ARRAY_SIZE;
        if major_swap_threshold_ticks == 0 || major_swap_threshold_ticks as i32 > ticks_in_tick_array {
            return false;
        }
        true
    }
}

/// Volatility after the price moved to tick group `tick_group_index`: the
/// reference plus 10_000 per tick group away from the reference group,
/// capped at the maximum.
pub open spec fn spec_volatility_accumulator(v: AdaptiveFeeVariables, tick_group_index: i32, max: u32) -> u32 {
    let d = v.tick_group_index_reference - tick_group_index;
    let delta = if d >= 0 { d } else { -d };
    let acc = v.volatility_reference + delta * VOLATILITY_ACCUMULATOR_SCALE_FACTOR;
    if acc <= max { acc as u32 } else { max }
}

/// `v` with the references moved to tick group `tick_group_index` at time `now`.
pub open spec fn spec_reset_reference(v: AdaptiveFeeVariables, tick_group_index: i32, volatility_reference: u32, now: u64) -> AdaptiveFeeVariables {
    AdaptiveFeeVariables {
        tick_group_index_reference: tick_group_index,
        volatility_reference,
        last_reference_update_timestamp: now,
        ..v
    }
}

/// The variables after moving the volatility reference for a swap at time
/// `now` in tick group `tick_group_index`; see `update_reference`.
pub open spec fn spec_update_reference(
    v: AdaptiveFeeVariables,
    tick_group_index: i32,
    now: u64,
    c: AdaptiveFeeConstants,
) -> Result<AdaptiveFeeVariables, ErrorCode> {
    let max_ts = if v.last_reference_update_timestamp >= v.last_major_swap_timestamp {
        v.last_reference_update_timestamp } else { v.last_major_swap_timestamp };
    let elapsed = now - max_ts;
    if now < max_ts {
        Err(ErrorCode::InvalidTimestamp)
    } else if now - v.last_reference_update_timestamp > MAX_REFERENCE_AGE {
        Ok(spec_reset_reference(v, tick_group_index, 0, now))
    } else if elapsed < c.filter_period {
        Ok(v)
    } else if elapsed < c.decay_period {
        Ok(spec_reset_reference(v, tick_group_index,
            (v.volatility_accumulator * c.reduction_factor / (REDUCTION_FACTOR_DENOMINATOR as int)) as u32, now))
    } else {
        Ok(spec_reset_reference(v, tick_group_index, 0, now))
    }
}

impl AdaptiveFeeVariables {
    /// All-zero variables.
    pub fn default() -> (r: AdaptiveFeeVariables)
        ensures
            r.last_reference_update_timestamp == 0 && r.last_major_swap_timestamp == 0,
            r.volatility_reference == 0 && r.tick_group_index_reference == 0,
            r.volatility_accumulator == 0,
            r.reserved@ == Seq::new(16, |i: int| 0u8),
    {
        let r = AdaptiveFeeVariables {
            last_reference_update_timestamp: 0,
            last_major_swap_timestamp: 0,
            volatility_reference: 0,
            tick_group_index_reference: 0,
            volatility_accumulator: 0,
            reserved: [0u8; 16],
        };
        assert(r.reserved@ =~= Seq::new(16, |i: int| 0u8));
        r
    }

    /// Recompute the volatility accumulator for the tick group the price is
    /// in: the reference plus 10_000 per group crossed, capped at the maximum.
    pub fn update_volatility_accumulator(
        &mut self,
        tick_group_index: i32,
        adaptive_fee_constants: &AdaptiveFeeConstants,
    ) -> (r: Result<(), ErrorCode>)
        requires
            i32::MIN <= old(self).tick_group_index_reference - tick_group_index <= i32::MAX,
        ensures
            r is Ok,
            *final(self) == (AdaptiveFeeVariables {
                volatility_accumulator: spec_volatility_accumulator(*old(self), tick_group_index,
                    adaptive_fee_constants.max_volatility_accumulator),
                ..*old(self)
            }),
    {
        let d = self.tick_group_index_reference - tick_group_index;
        let index_delta: u32 = if d >= 0 { d as u32 } else { (-(d as i64)) as u32 };
        let volatility_accumulator = self.volatility_reference as u64
            + (index_delta as u64) * (VOLATILITY_ACCUMULATOR_SCALE_FACTOR as u64);
        let max = adaptive_fee_constants.max_volatility_accumulator as u64;
        self.volatility_accumulator = if volatility_accumulator < max { volatility_accumulator as u32 } else { max as u32 };
        Ok(())
    }

    /// Record a major swap at `current_timestamp`. `is_major_swap` is the
    /// outcome of comparing the prices before and after the swap against the
    /// major swap threshold: when it is an error that error is returned and
    /// nothing changes; when the move was major the last major swap time is
    /// set; otherwise nothing changes.
    pub fn update_major_swap_timestamp(
        &mut self,
        is_major_swap: Result<bool, ErrorCode>,
        current_timestamp: u64,
    ) -> (r: Result<(), ErrorCode>)
        ensures
            match is_major_swap {
                Err(e) => r == Err::<(), ErrorCode>(e) && *final(self) == *old(self),
                Ok(true) => r is Ok && *final(self) == (AdaptiveFeeVariables {
                    last_major_swap_timestamp: current_timestamp,
                    ..*old(self)
                }),
                Ok(false) => r is Ok && *final(self) == *old(self),
            },
    {
        let major = match is_major_swap {
            Ok(b) => b,
            Err(e) => return Err(e),
        };
        if major {
            self.last_major_swap_timestamp = current_timestamp;
        }
        Ok(())
    }

    /// Move the volatility reference for a swap at time `current_timestamp`
    /// in tick group `tick_group_index`:
    /// - a time before the last reference update or major swap is `InvalidTimestamp`;
    /// - a reference older than an hour is reset to this group, with zero volatility;
    /// - within the filter period of the last update or major swap nothing changes;
    /// - within the decay period the reference moves to this group and the
    ///   volatility decays by the reduction factor;
    /// - after it, the reference moves to this group with zero volatility.
    pub fn update_reference(
        &mut self,
        tick_group_index: i32,
        current_timestamp: u64,
        adaptive_fee_constants: &AdaptiveFeeConstants,
    ) -> (r: Result<(), ErrorCode>)
        ensures
            match spec_update_reference(*old(self), tick_group_index, current_timestamp, *adaptive_fee_constants) {
                Ok(v) => r is Ok && *final(self) == v,
                Err(e) => r == Err::<(), ErrorCode>(e) && *final(self) == *old(self),
            },
    {
        let max_timestamp = if self.last_reference_update_timestamp >= self.last_major_swap_timestamp {
            self.last_reference_update_timestamp
        } else {
            self.last_major_swap_timestamp
        };
        if current_timestamp < max_timestamp {
            return Err(ErrorCode::InvalidTimestamp);
        }
        let reference_age = current_timestamp - self.last_reference_update_timestamp;
        if reference_age > MAX_REFERENCE_AGE {
            self.tick_group_index_reference = tick_group_index;
            self.volatility_reference = 0;
            self.last_reference_update_timestamp = current_timestamp;
            return Ok(());
        }
        let elapsed = current_timestamp - max_timestamp;
        if elapsed < adaptive_fee_constants.filter_period as u64 {
            // high-frequency trade: no change
        } else if elapsed < adaptive_fee_constants.decay_period as u64 {
            self.tick_group_index_reference = tick_group_index;
            proof {
                let a = self.volatility_accumulator as u64;
                let f = adaptive_fee_constants.reduction_factor as u64;
                assert(a * f <= u32::MAX as u64 * u16::MAX as u64) by (nonlinear_arith)
                    requires a <= u32::MAX, f <= u16::MAX;
            }
            self.volatility_reference = #[verifier::truncate] ((self.volatility_accumulator as u64
                * adaptive_fee_constants.reduction_factor as u64
                / REDUCTION_FACTOR_DENOMINATOR as u64) as u32);
            self.last_reference_update_timestamp = current_timestamp;
        } else {
            self.tick_group_index_reference = tick_group_index;
            self.volatility_reference = 0;
            self.last_reference_update_timestamp = current_timestamp;
        }
        Ok(())
    }
}

/// The oracle of a pool: when trading starts and the adaptive fee state.
#[derive(Clone, Copy, Debug)]
pub struct Oracle {
    pub whirlpool: Pubkey,
    pub trade_enable_timestamp: u64,
    pub adaptive_fee_constants: AdaptiveFeeConstants,
    pub adaptive_fee_variables: AdaptiveFeeVariables,
    pub reserved: [u8; 128],
}

/// Account size of an oracle: discriminator and data.
pub const ORACLE_LEN: usize = 8 + 32 + 8 + ADAPTIVE_FEE_CONSTANTS_LEN + ADAPTIVE_FEE_VARIABLES_LEN + 128;

pub open spec fn spec_variables_zero(v: AdaptiveFeeVariables) -> bool {
    &&& v.last_reference_update_timestamp == 0 && v.last_major_swap_timestamp == 0
    &&& v.volatility_reference == 0 && v.tick_group_index_reference == 0
    &&& v.volatility_accumulator == 0
    &&& v.reserved@ == Seq::new(16, |i: int| 0u8)
}

impl Oracle {
    /// An oracle with every value zero.
    pub fn default() -> (r: Oracle)
        ensures
            r.whirlpool.is_default(),
            r.trade_enable_timestamp == 0,
            spec_variables_zero(r.adaptive_fee_variables),
            r.reserved@ == Seq::new(128, |i: int| 0u8),
    {
        let r = Oracle {
            whirlpool: Pubkey::default_key(),
            trade_enable_timestamp: 0,
            adaptive_fee_constants: AdaptiveFeeConstants::default(),
            adaptive_fee_variables: AdaptiveFeeVariables::default(),
            reserved: [0u8; 128],
        };
        assert(r.reserved@ =~= Seq::new(128, |i: int| 0u8));
        r
    }

    /// Set up the oracle of a pool: its pool, when trading starts (zero when
    /// not given), the adaptive fee constants and zero variables. Constants
    /// that are not acceptable for the tick spacing are
    /// `InvalidAdaptiveFeeConstants`; the pool and start time are set before
    /// that check.
    #[allow(clippy::too_many_arguments)]
    pub fn initialize(
        &mut self,
        whirlpool: Pubkey,
        trade_enable_timestamp: Option<u64>,
        tick_spacing: u16,
        filter_period: u16,
        decay_period: u16,
        reduction_factor: u16,
        adaptive_fee_control_factor: u32,
        max_volatility_accumulator: u32,
        tick_group_size: u16,
        major_swap_threshold_ticks: u16,
    ) -> (r: Result<(), ErrorCode>)
        ensures
            final(self).whirlpool == whirlpool,
            final(self).trade_enable_timestamp == (match trade_enable_timestamp { Some(t) => t, None => 0 }),
            final(self).reserved == old(self).reserved,
            spec_valid_constants(tick_spacing, filter_period, decay_period, reduction_factor,
                adaptive_fee_control_factor, max_volatility_accumulator, tick_group_size,
                major_swap_threshold_ticks) ==> {
                &&& r is Ok
                &&& final(self).adaptive_fee_constants.filter_period == filter_period
                &&& final(self).adaptive_fee_constants.decay_period == decay_period
                &&& final(self).adaptive_fee_constants.reduction_factor == reduction_factor
                &&& final(self).adaptive_fee_constants.adaptive_fee_control_factor == adaptive_fee_control_factor
                &&& final(self).adaptive_fee_constants.max_volatility_accumulator == max_volatility_accumulator
                &&& final(self).adaptive_fee_constants.tick_group_size == tick_group_size
                &&& final(self).adaptive_fee_constants.major_swap_threshold_ticks == major_swap_threshold_ticks
                &&& final(self).adaptive_fee_constants.reserved@ == Seq::new(16, |i: int| 0u8)
                &&& spec_variables_zero(final(self).adaptive_fee_variables)
            },
            !spec_valid_constants(tick_spacing, filter_period, decay_period, reduction_factor,
                adaptive_fee_control_factor, max_volatility_accumulator, tick_group_size,
                major_swap_threshold_ticks) ==> {
                &&& r == Err::<(), ErrorCode>(ErrorCode::InvalidAdaptiveFeeConstants)
                &&& final(self).adaptive_fee_constants == old(self).adaptive_fee_constants
                &&& final(self).adaptive_fee_variables == old(self).adaptive_fee_variables
            },
    {
        self.whirlpool = whirlpool;
        self.trade_enable_timestamp = match trade_enable_timestamp {
            Some(t) => t,
            None => 0,
        };
        let constants = AdaptiveFeeConstants {
            filter_period,
            decay_period,
            reduction_factor,
            adaptive_fee_control_factor,
            max_volatility_accumulator,
            tick_group_size,
            major_swap_threshold_ticks,
            reserved: [0u8; 16],
        };
        proof {
            assert(constants.reserved@ =~= Seq::new(16, |i: int| 0u8));
        }
        match self.initialize_adaptive_fee_constants(constants, tick_spacing) {
            Ok(()) => {},
            Err(e) => return Err(e),
        }
        self.reset_adaptive_fee_variables();
        Ok(())
    }

    /// Store adaptive fee constants that are acceptable for the tick
    /// spacing; otherwise `InvalidAdaptiveFeeConstants` and nothing changes.
    pub fn initialize_adaptive_fee_constants(&mut self, constants: AdaptiveFeeConstants, tick_spacing: u16) -> (r: Result<(), ErrorCode>)
        ensures
            spec_valid_constants(tick_spacing, constants.filter_period, constants.decay_period,
                constants.reduction_factor, constants.adaptive_fee_control_factor,
                constants.max_volatility_accumulator, constants.tick_group_size,
                constants.major_swap_threshold_ticks) ==> r is Ok
                && *final(self) == (Oracle { adaptive_fee_constants: constants, ..*old(self) }),
            !spec_valid_constants(tick_spacing, constants.filter_period, constants.decay_period,
                constants.reduction_factor, constants.adaptive_fee_control_factor,
                constants.max_volatility_accumulator, constants.tick_group_size,
                constants.major_swap_threshold_ticks) ==>
                r == Err::<(), ErrorCode>(ErrorCode::InvalidAdaptiveFeeConstants) && *final(self) == *old(self),
    {
        if !AdaptiveFeeConstants::validate_constants(
            tick_spacing,
            constants.filter_period,
            constants.decay_period,
            constants.reduction_factor,
            constants.adaptive_fee_control_factor,
            constants.max_volatility_accumulator,
            constants.tick_group_size,
            constants.major_swap_threshold_ticks,
        ) {
            return Err(ErrorCode::InvalidAdaptiveFeeConstants);
        }
        self.adaptive_fee_constants = constants;
        Ok(())
    }

    /// Store adaptive fee variables.
    pub fn update_adaptive_fee_variables(&mut self, variables: AdaptiveFeeVariables)
        ensures
            *final(self) == (Oracle { adaptive_fee_variables: variables, ..*old(self) }),
    {
        self.adaptive_fee_variables = variables;
    }

    fn reset_adaptive_fee_variables(&mut self)
        ensures
            spec_variables_zero(final(self).adaptive_fee_variables),
            final(self).whirlpool == old(self).whirlpool,
            final(self).trade_enable_timestamp == old(self).trade_enable_timestamp,
            final(self).adaptive_fee_constants == old(self).adaptive_fee_constants,
            final(self).reserved == old(self).reserved,
    {
        self.adaptive_fee_variables = AdaptiveFeeVariables::default();
    }
}

} // verus!
