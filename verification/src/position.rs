use vstd::prelude::*;
use crate::errors::ErrorCode;
use crate::math::FULL_RANGE_ONLY_TICK_SPACING_THRESHOLD;
use crate::pubkey::Pubkey;
use crate::tick::{spec_full_range_upper, spec_is_usable_tick, spec_out_of_bounds, Tick, NUM_REWARDS};
use crate::whirlpool::WhirlpoolAccount;

verus! {

/// Bump seed of a position account.
#[derive(Clone, Copy, Debug, Default)]
pub struct OpenPositionBumps {
    pub position_bump: u8,
}

/// Bump seeds of a position account and its metadata account.
#[derive(Clone, Copy, Debug, Default)]
pub struct OpenPositionWithMetadataBumps {
    pub position_bump: u8,
    pub metadata_bump: u8,
}

/// Reward accounting of a position for one reward.
#[derive(Clone, Copy, Debug, Default, PartialEq)]
pub struct PositionRewardInfo {
    /// Q64.64 reward growth inside the range when the position last settled.
    pub growth_inside_checkpoint: u128,
    pub amount_owed: u64,
}

/// A liquidity position between two ticks of a pool.
#[derive(Clone, Copy, Debug, Default)]
pub struct Position {
    pub whirlpool: Pubkey,
    pub position_mint: Pubkey,
    pub liquidity: u128,
    pub tick_lower_index: i32,
    pub tick_upper_index: i32,
    /// Q64.64
    pub fee_growth_checkpoint_a: u128,
    pub fee_owed_a: u64,
    /// Q64.64
    pub fee_growth_checkpoint_b: u128,
    pub fee_owed_b: u64,
    pub reward_infos: [PositionRewardInfo; NUM_REWARDS],
}

/// The new accounting values of a position after an operation.
#[derive(Clone, Copy, Debug, Default, PartialEq)]
pub struct PositionUpdate {
    pub liquidity: u128,
    pub fee_growth_checkpoint_a: u128,
    pub fee_owed_a: u64,
    pub fee_growth_checkpoint_b: u128,
    pub fee_owed_b: u64,
    pub reward_infos: [PositionRewardInfo; NUM_REWARDS],
}

/// Account size of a position.
pub const POSITION_LEN: usize = 8 + 136 + 72;

/// A position is empty when it holds no liquidity and owes no fees and no rewards.
pub open spec fn spec_position_empty(p: Position) -> bool {
    &&& p.liquidity == 0
    &&& p.fee_owed_a == 0
    &&& p.fee_owed_b == 0
    &&& forall|i: int| 0 <= i < 3 ==> #[trigger] p.reward_infos@[i].amount_owed == 0
}

/// What checking a tick range against a pool gives: `InvalidTickIndex` when
/// either bound is unusable or the bounds are not increasing;
/// `FullRangeOnlyPool` when the pool only allows full-range positions and the
/// range is not full; success otherwise.
pub open spec fn spec_validate_tick_range(tick_spacing: u16, lower: i32, upper: i32) -> Result<(), ErrorCode> {
    if !spec_is_usable_tick(lower as int, tick_spacing as int) || !spec_is_usable_tick(upper as int, tick_spacing as int)
        || lower >= upper {
        Err(ErrorCode::InvalidTickIndex)
    } else if tick_spacing >= FULL_RANGE_ONLY_TICK_SPACING_THRESHOLD
        && (lower != -spec_full_range_upper(tick_spacing as int) || upper != spec_full_range_upper(tick_spacing as int)) {
        Err(ErrorCode::FullRangeOnlyPool)
    } else {
        Ok(())
    }
}

/// Checking the usability of both bounds does not divide by a zero spacing.
pub open spec fn spec_tick_range_checkable(tick_spacing: u16, lower: i32, upper: i32) -> bool {
    tick_spacing > 0 || (spec_out_of_bounds(lower as int) && spec_out_of_bounds(upper as int))
}

/// Check that a tick range can hold a position in this pool.
pub fn validate_tick_range_for_whirlpool(whirlpool: &WhirlpoolAccount, tick_lower_index: i32, tick_upper_index: i32) -> (r: Result<(), ErrorCode>)
    requires
        spec_tick_range_checkable(whirlpool.whirlpool.tick_spacing, tick_lower_index, tick_upper_index),
    ensures
        r == spec_validate_tick_range(whirlpool.whirlpool.tick_spacing, tick_lower_index, tick_upper_index),
{
    let tick_spacing = whirlpool.whirlpool.tick_spacing;
    if !Tick::check_is_usable_tick(tick_lower_index, tick_spacing)
        || !Tick::check_is_usable_tick(tick_upper_index, tick_spacing)
        || tick_lower_index >= tick_upper_index
    {
        return Err(ErrorCode::InvalidTickIndex);
    }
    if tick_spacing >= FULL_RANGE_ONLY_TICK_SPACING_THRESHOLD {
        let (full_range_lower_index, full_range_upper_index) = Tick::full_range_indexes(tick_spacing);
        if tick_lower_index != full_range_lower_index || tick_upper_index != full_range_upper_index {
            return Err(ErrorCode::FullRangeOnlyPool);
        }
    }
    Ok(())
}

impl Position {
    /// The position with the accounting values of `u`; the pool, mint and
    /// range stay.
    pub open spec fn spec_updated(self, u: PositionUpdate) -> Position {
        Position {
            liquidity: u.liquidity,
            fee_growth_checkpoint_a: u.fee_growth_checkpoint_a,
            fee_owed_a: u.fee_owed_a,
            fee_growth_checkpoint_b: u.fee_growth_checkpoint_b,
            fee_owed_b: u.fee_owed_b,
            reward_infos: u.reward_infos,
            ..self
        }
    }

    /// True when the position holds no liquidity and owes no fees or rewards.
    pub fn is_position_empty(position: &Position) -> (r: bool)
        ensures
            r == spec_position_empty(*position),
    {
        let fees_not_owed = position.fee_owed_a == 0 && position.fee_owed_b == 0;
        let mut rewards_not_owed = true;
        let mut i: usize = 0;
        while i < NUM_REWARDS
            invariant
                i <= 3,
                rewards_not_owed == (forall|j: int| 0 <= j < i ==> #[trigger] position.reward_infos@[j].amount_owed == 0),
            decreases 3 - i,
        {
            rewards_not_owed = rewards_not_owed && position.reward_infos[i].amount_owed == 0;
            i = i + 1;
        }
        position.liquidity == 0 && fees_not_owed && rewards_not_owed
    }

    /// Store the accounting values of an update; the pool, mint and range stay.
    pub fn update(&mut self, update: &PositionUpdate)
        ensures
            final(self).liquidity == update.liquidity,
            final(self).fee_growth_checkpoint_a == update.fee_growth_checkpoint_a,
            final(self).fee_growth_checkpoint_b == update.fee_growth_checkpoint_b,
            final(self).fee_owed_a == update.fee_owed_a,
            final(self).fee_owed_b == update.fee_owed_b,
            final(self).reward_infos == update.reward_infos,
            final(self).whirlpool == old(self).whirlpool,
            final(self).position_mint == old(self).position_mint,
            final(self).tick_lower_index == old(self).tick_lower_index,
            final(self).tick_upper_index == old(self).tick_upper_index,
            *final(self) == old(self).spec_updated(*update),
    {
        self.liquidity = update.liquidity;
        self.fee_growth_checkpoint_a = update.fee_growth_checkpoint_a;
        self.fee_growth_checkpoint_b = update.fee_growth_checkpoint_b;
        self.fee_owed_a = update.fee_owed_a;
        self.fee_owed_b = update.fee_owed_b;
        self.reward_infos = update.reward_infos;
    }

    /// Open a position on a pool over a tick range; an invalid range is its
    /// error and changes nothing.
    pub fn open_position(
        &mut self,
        whirlpool: &WhirlpoolAccount,
        position_mint: Pubkey,
        tick_lower_index: i32,
        tick_upper_index: i32,
    ) -> (r: Result<(), ErrorCode>)
        requires
            spec_tick_range_checkable(whirlpool.whirlpool.tick_spacing, tick_lower_index, tick_upper_index),
        ensures
            r == spec_validate_tick_range(whirlpool.whirlpool.tick_spacing, tick_lower_index, tick_upper_index),
            r is Err ==> *final(self) == *old(self),
            r is Ok ==> *final(self) == (Position {
                whirlpool: whirlpool.key,
                position_mint,
                tick_lower_index,
                tick_upper_index,
                ..*old(self)
            }),
    {
        match validate_tick_range_for_whirlpool(whirlpool, tick_lower_index, tick_upper_index) {
            Ok(()) => {},
            Err(e) => return Err(e),
        }
        self.whirlpool = whirlpool.key;
        self.position_mint = position_mint;
        self.tick_lower_index = tick_lower_index;
        self.tick_upper_index = tick_upper_index;
        Ok(())
    }

    /// Set both fees owed to zero.
    pub fn reset_fees_owed(&mut self)
        ensures
            *final(self) == (Position { fee_owed_a: 0, fee_owed_b: 0, ..*old(self) }),
    {
        self.fee_owed_a = 0;
        self.fee_owed_b = 0;
    }

    /// Set the amount owed of reward `index`.
    pub fn update_reward_owed(&mut self, index: usize, amount_owed: u64)
        requires
            index < NUM_REWARDS,
        ensures
            final(self).reward_infos@ == old(self).reward_infos@.update(index as int,
                PositionRewardInfo { amount_owed, ..old(self).reward_infos@[index as int] }),
            *final(self) == (Position { reward_infos: final(self).reward_infos, ..*old(self) }),
    {
        let mut info = self.reward_infos[index];
        info.amount_owed = amount_owed;
        self.reward_infos[index] = info;
    }

    /// Move an empty position to a new tick range and reset its growth
    /// checkpoints. A position that is not empty is `ClosePositionNotEmpty`,
    /// the same range is `SameTickRangeNotAllowed`, an invalid range is its
    /// error; on any error nothing changes.
    pub fn reset_position_range(
        &mut self,
        whirlpool: &WhirlpoolAccount,
        new_tick_lower_index: i32,
        new_tick_upper_index: i32,
    ) -> (r: Result<(), ErrorCode>)
        requires
            spec_tick_range_checkable(whirlpool.whirlpool.tick_spacing, new_tick_lower_index, new_tick_upper_index),
        ensures
            !spec_position_empty(*old(self)) ==> r == Err::<(), ErrorCode>(ErrorCode::ClosePositionNotEmpty),
            spec_position_empty(*old(self)) && new_tick_lower_index == old(self).tick_lower_index
                && new_tick_upper_index == old(self).tick_upper_index
                ==> r == Err::<(), ErrorCode>(ErrorCode::SameTickRangeNotAllowed),
            spec_position_empty(*old(self)) && !(new_tick_lower_index == old(self).tick_lower_index
                && new_tick_upper_index == old(self).tick_upper_index)
                ==> r == spec_validate_tick_range(whirlpool.whirlpool.tick_spacing, new_tick_lower_index, new_tick_upper_index),
            r is Err ==> *final(self) == *old(self),
            r is Ok ==> {
                &&& final(self).tick_lower_index == new_tick_lower_index
                &&& final(self).tick_upper_index == new_tick_upper_index
                &&& final(self).fee_growth_checkpoint_a == 0
                &&& final(self).fee_growth_checkpoint_b == 0
                &&& forall|i: int| 0 <= i < 3 ==> #[trigger] final(self).reward_infos@[i] == (PositionRewardInfo {
                    growth_inside_checkpoint: 0, ..old(self).reward_infos@[i] })
                &&& final(self).whirlpool == old(self).whirlpool
                &&& final(self).position_mint == old(self).position_mint
                &&& final(self).liquidity == old(self).liquidity
                &&& final(self).fee_owed_a == old(self).fee_owed_a
                &&& final(self).fee_owed_b == old(self).fee_owed_b
            },
    {
        if !Position::is_position_empty(self) {
            return Err(ErrorCode::ClosePositionNotEmpty);
        }
        if new_tick_lower_index == self.tick_lower_index && new_tick_upper_index == self.tick_upper_index {
            return Err(ErrorCode::SameTickRangeNotAllowed);
        }
        match validate_tick_range_for_whirlpool(whirlpool, new_tick_lower_index, new_tick_upper_index) {
            Ok(()) => {},
            Err(e) => return Err(e),
        }
        self.tick_lower_index = new_tick_lower_index;
        self.tick_upper_index = new_tick_upper_index;
        self.fee_growth_checkpoint_a = 0;
        self.fee_growth_checkpoint_b = 0;
        let mut i: usize = 0;
        while i < NUM_REWARDS
            invariant
                i <= 3,
                forall|j: int| 0 <= j < i ==> #[trigger] self.reward_infos@[j] == (PositionRewardInfo {
                    growth_inside_checkpoint: 0, ..old(self).reward_infos@[j] }),
                forall|j: int| i <= j < 3 ==> #[trigger] self.reward_infos@[j] == old(self).reward_infos@[j],
                self.tick_lower_index == new_tick_lower_index,
                self.tick_upper_index == new_tick_upper_index,
                self.fee_growth_checkpoint_a == 0,
                self.fee_growth_checkpoint_b == 0,
                self.whirlpool == old(self).whirlpool,
                self.position_mint == old(self).position_mint,
                self.liquidity == old(self).liquidity,
                self.fee_owed_a == old(self).fee_owed_a,
                self.fee_owed_b == old(self).fee_owed_b,
            decreases 3 - i,
        {
            let mut info = self.reward_infos[i];
            info.growth_inside_checkpoint = 0;
            self.reward_infos[i] = info;
            i = i + 1;
        }
        Ok(())
    }
}

} // verus!
