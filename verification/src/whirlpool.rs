use vstd::prelude::*;
use crate::pubkey::Pubkey;
use crate::tick::NUM_REWARDS;

verus! {

/// Emission state of one reward token of a pool.
#[derive(Clone, Copy, Debug)]
pub struct WhirlpoolRewardInfo {
    /// Mint of the reward token; the all-zero address when the reward is unset.
    pub mint: Pubkey,
    pub vault: Pubkey,
    pub authority: Pubkey,
    /// Q64.64 tokens emitted per second.
    pub emissions_per_second_x64: u128,
    /// Q64.64 reward growth per unit of liquidity since the pool began.
    pub growth_global_x64: u128,
}

impl WhirlpoolRewardInfo {
    /// A reward is initialized once its mint is set.
    pub open spec fn spec_initialized(self) -> bool {
        !self.mint.is_default()
    }

    pub fn initialized(&self) -> (r: bool)
        ensures
            r == self.spec_initialized(),
    {
        let zero = Pubkey::default_key();
        proof {
            assert(zero.0@ == crate::pubkey::zero_bytes());
        }
        !self.mint.equals(&zero)
    }

    /// The global reward growths of all rewards, in order.
    pub fn to_reward_growths(reward_infos: &[WhirlpoolRewardInfo; NUM_REWARDS]) -> (r: [u128; NUM_REWARDS])
        ensures
            forall|i: int| 0 <= i < 3 ==> r@[i] == reward_infos@[i].growth_global_x64,
    {
        [
            reward_infos[0].growth_global_x64,
            reward_infos[1].growth_global_x64,
            reward_infos[2].growth_global_x64,
        ]
    }
}

/// The pool state that tick, position and liquidity logic reads and writes.
#[derive(Clone, Copy, Debug)]
pub struct Whirlpool {
    pub tick_spacing: u16,
    pub tick_current_index: i32,
    pub liquidity: u128,
    /// Q64.64 fee growth of token A per unit of liquidity since the pool began.
    pub fee_growth_global_a: u128,
    /// Q64.64 fee growth of token B per unit of liquidity since the pool began.
    pub fee_growth_global_b: u128,
    pub reward_last_updated_timestamp: u64,
    pub reward_infos: [WhirlpoolRewardInfo; NUM_REWARDS],
}

/// A loaded pool account: its address and its state.
#[derive(Clone, Copy, Debug)]
pub struct WhirlpoolAccount {
    pub key: Pubkey,
    pub whirlpool: Whirlpool,
}

impl Whirlpool {
    /// Store the reward state and liquidity that a liquidity change computed.
    pub fn update_rewards_and_liquidity(
        &mut self,
        reward_infos: [WhirlpoolRewardInfo; NUM_REWARDS],
        liquidity: u128,
        reward_last_updated_timestamp: u64,
    )
        ensures
            final(self).reward_infos == reward_infos,
            final(self).liquidity == liquidity,
            final(self).reward_last_updated_timestamp == reward_last_updated_timestamp,
            final(self).tick_spacing == old(self).tick_spacing,
            final(self).tick_current_index == old(self).tick_current_index,
            final(self).fee_growth_global_a == old(self).fee_growth_global_a,
            final(self).fee_growth_global_b == old(self).fee_growth_global_b,
    {
        self.reward_last_updated_timestamp = reward_last_updated_timestamp;
        self.reward_infos = reward_infos;
        self.liquidity = liquidity;
    }
}

} // verus!
