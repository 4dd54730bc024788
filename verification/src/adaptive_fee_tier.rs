use vstd::prelude::*;
use crate::errors::ErrorCode;
use crate::math::MAX_FEE_RATE;
use crate::oracle::{spec_valid_constants, AdaptiveFeeConstants};
use crate::pubkey::Pubkey;

verus! {

/// A fee tier with an adaptive fee: the tick spacing, base fee and adaptive
/// fee constants that pools created from it take.
#[derive(Clone, Copy, Debug, Default)]
pub struct AdaptiveFeeTier {
    pub whirlpools_config: Pubkey,
    pub fee_tier_index: u16,
    pub tick_spacing: u16,
    /// The only authority that may create pools from this tier; all-zero
    /// when anyone may.
    pub initialize_pool_authority: Pubkey,
    pub delegated_fee_authority: Pubkey,
    pub default_base_fee_rate: u16,
    pub filter_period: u16,
    pub decay_period: u16,
    pub reduction_factor: u16,
    pub adaptive_fee_control_factor: u32,
    pub max_volatility_accumulator: u32,
    pub tick_group_size: u16,
    pub major_swap_threshold_ticks: u16,
}

/// Account size of an adaptive fee tier.
pub const ADAPTIVE_FEE_TIER_LEN: usize = 8 + 32 + 2 + 2 + 32 + 32 + 2 + 2 + 2 + 2 + 4 + 4 + 2 + 2 + 128;

impl AdaptiveFeeTier {
    /// Set up a fee tier. A fee tier index equal to the tick spacing (reserved
    /// for plain fee tiers) is `InvalidFeeTierIndex`, a zero tick spacing is
    /// `InvalidTickSpacing`; both leave the tier as it was. The config, index
    /// and spacing are then set; a base fee rate above the maximum is
    /// `FeeRateMaxExceeded`; the authorities are set; constants that are not
    /// acceptable for the spacing are `InvalidAdaptiveFeeConstants`.
    #[allow(clippy::too_many_arguments)]
    pub fn initialize(
        &mut self,
        whirlpools_config: &Pubkey,
        fee_tier_index: u16,
        tick_spacing: u16,
        initialize_pool_authority: Pubkey,
        delegated_fee_authority: Pubkey,
        default_base_fee_rate: u16,
        filter_period: u16,
        decay_period: u16,
        reduction_factor: u16,
        adaptive_fee_control_factor: u32,
        max_volatility_accumulator: u32,
        tick_group_size: u16,
        major_swap_threshold_ticks: u16,
    ) -> (r: Result<(), ErrorCode>)
        ensures
            fee_tier_index == tick_spacing ==>
                r == Err::<(), ErrorCode>(ErrorCode::InvalidFeeTierIndex) && *final(self) == *old(self),
            fee_tier_index != tick_spacing && tick_spacing == 0 ==>
                r == Err::<(), ErrorCode>(ErrorCode::InvalidTickSpacing) && *final(self) == *old(self),
            fee_tier_index != tick_spacing && tick_spacing != 0 ==> {
                let placed = AdaptiveFeeTier {
                    whirlpools_config: *whirlpools_config,
                    fee_tier_index,
                    tick_spacing,
                    ..*old(self)
                };
                let authorized = AdaptiveFeeTier {
                    default_base_fee_rate,
                    initialize_pool_authority,
                    delegated_fee_authority,
                    ..placed
                };
                if default_base_fee_rate > MAX_FEE_RATE {
                    r == Err::<(), ErrorCode>(ErrorCode::FeeRateMaxExceeded) && *final(self) == placed
                } else if !spec_valid_constants(tick_spacing, filter_period, decay_period, reduction_factor,
                    adaptive_fee_control_factor, max_volatility_accumulator, tick_group_size,
                    major_swap_threshold_ticks) {
                    r == Err::<(), ErrorCode>(ErrorCode::InvalidAdaptiveFeeConstants) && *final(self) == authorized
                } else {
                    r is Ok && *final(self) == (AdaptiveFeeTier {
                        filter_period,
                        decay_period,
                        reduction_factor,
                        adaptive_fee_control_factor,
                        max_volatility_accumulator,
                        tick_group_size,
                        major_swap_threshold_ticks,
                        ..authorized
                    })
                }
            },
    {
        if fee_tier_index == tick_spacing {
            return Err(ErrorCode::InvalidFeeTierIndex);
        }
        if tick_spacing == 0 {
            return Err(ErrorCode::InvalidTickSpacing);
        }
        self.whirlpools_config = *whirlpools_config;
        self.fee_tier_index = fee_tier_index;
        self.tick_spacing = tick_spacing;
        match self.update_default_base_fee_rate(default_base_fee_rate) {
            Ok(()) => {},
            Err(e) => return Err(e),
        }
        self.update_initialize_pool_authority(initialize_pool_authority);
        self.update_delegated_fee_authority(delegated_fee_authority);
        self.update_adaptive_fee_constants(
            filter_period,
            decay_period,
            reduction_factor,
            adaptive_fee_control_factor,
            max_volatility_accumulator,
            tick_group_size,
            major_swap_threshold_ticks,
        )
    }

    /// Set the authority that may create pools from this tier.
    pub fn update_initialize_pool_authority(&mut self, initialize_pool_authority: Pubkey)
        ensures
            *final(self) == (AdaptiveFeeTier { initialize_pool_authority, ..*old(self) }),
    {
        self.initialize_pool_authority = initialize_pool_authority;
    }

    /// Set the authority to which fee changes are delegated.
    pub fn update_delegated_fee_authority(&mut self, delegated_fee_authority: Pubkey)
        ensures
            *final(self) == (AdaptiveFeeTier { delegated_fee_authority, ..*old(self) }),
    {
        self.delegated_fee_authority = delegated_fee_authority;
    }

    /// Set the base fee rate; a rate above the maximum is
    /// `FeeRateMaxExceeded` and changes nothing.
    pub fn update_default_base_fee_rate(&mut self, default_base_fee_rate: u16) -> (r: Result<(), ErrorCode>)
        ensures
            default_base_fee_rate > MAX_FEE_RATE ==>
                r == Err::<(), ErrorCode>(ErrorCode::FeeRateMaxExceeded) && *final(self) == *old(self),
            default_base_fee_rate <= MAX_FEE_RATE ==>
                r is Ok && *final(self) == (AdaptiveFeeTier { default_base_fee_rate, ..*old(self) }),
    {
        if default_base_fee_rate > MAX_FEE_RATE {
            return Err(ErrorCode::FeeRateMaxExceeded);
        }
        self.default_base_fee_rate = default_base_fee_rate;
        Ok(())
    }

    /// Set the adaptive fee constants; constants that are not acceptable for
    /// this tier's tick spacing are `InvalidAdaptiveFeeConstants` and change
    /// nothing.
    #[allow(clippy::too_many_arguments)]
    pub fn update_adaptive_fee_constants(
        &mut self,
        filter_period: u16,
        decay_period: u16,
        reduction_factor: u16,
        adaptive_fee_control_factor: u32,
        max_volatility_accumulator: u32,
        tick_group_size: u16,
        major_swap_threshold_ticks: u16,
    ) -> (r: Result<(), ErrorCode>)
        ensures
            !spec_valid_constants(old(self).tick_spacing, filter_period, decay_period, reduction_factor,
                adaptive_fee_control_factor, max_volatility_accumulator, tick_group_size,
                major_swap_threshold_ticks) ==>
                r == Err::<(), ErrorCode>(ErrorCode::InvalidAdaptiveFeeConstants) && *final(self) == *old(self),
            spec_valid_constants(old(self).tick_spacing, filter_period, decay_period, reduction_factor,
                adaptive_fee_control_factor, max_volatility_accumulator, tick_group_size,
                major_swap_threshold_ticks) ==> r is Ok && *final(self) == (AdaptiveFeeTier {
                    filter_period,
                    decay_period,
                    reduction_factor,
                    adaptive_fee_control_factor,
                    max_volatility_accumulator,
                    tick_group_size,
                    major_swap_threshold_ticks,
                    ..*old(self)
                }),
    {
        if !AdaptiveFeeConstants::validate_constants(
            self.tick_spacing,
            filter_period,
            decay_period,
            reduction_factor,
            adaptive_fee_control_factor,
            max_volatility_accumulator,
            tick_group_size,
            major_swap_threshold_ticks,
        ) {
            return Err(ErrorCode::InvalidAdaptiveFeeConstants);
        }
        self.filter_period = filter_period;
        self.decay_period = decay_period;
        self.reduction_factor = reduction_factor;
        self.adaptive_fee_control_factor = adaptive_fee_control_factor;
        self.max_volatility_accumulator = max_volatility_accumulator;
        self.tick_group_size = tick_group_size;
        self.major_swap_threshold_ticks = major_swap_threshold_ticks;
        Ok(())
    }

    /// True when anyone may create pools from this tier, or when the given
    /// authority is the tier's authority.
    pub fn is_valid_initialize_pool_authority(&self, initialize_pool_authority: Pubkey) -> (r: bool)
        ensures
            r == (self.initialize_pool_authority.is_default()
                || self.initialize_pool_authority.0@ == initialize_pool_authority.0@),
    {
        if self.initialize_pool_authority.equals(&Pubkey::default_key()) {
            return true;
        }
        self.initialize_pool_authority.equals(&initialize_pool_authority)
    }

    /// True when only a set authority may create pools from this tier.
    pub fn is_permissioned(&self) -> (r: bool)
        ensures
            r == !self.initialize_pool_authority.is_default(),
    {
        !self.initialize_pool_authority.equals(&Pubkey::default_key())
    }
}

} // verus!
