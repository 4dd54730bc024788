//! Storing the outcome of a liquidity change in the pool, the position and
//! the tick arrays of its bounds.
use vstd::prelude::*;
use crate::errors::ErrorCode;
use crate::position::{Position, PositionUpdate};
use crate::tick::{Tick, TickUpdate, NUM_REWARDS};
use crate::tick_manager::{
    next_fee_growths_inside, next_reward_growths_inside, next_tick_modify_liquidity_update,
    spec_growth_inside, spec_reward_growth_inside, spec_tick_modify_post,
};
use crate::tick_array::{spec_get_tick, spec_range_fits, spec_tick_slot, TickArrayType};
use crate::whirlpool::{Whirlpool, WhirlpoolRewardInfo};

verus! {

/// The new state of a pool, a position and the ticks of its bounds after a
/// liquidity change.
#[derive(Clone, Copy, Debug)]
pub struct ModifyLiquidityUpdate {
    pub whirlpool_liquidity: u128,
    pub tick_lower_update: TickUpdate,
    pub tick_upper_update: TickUpdate,
    pub reward_infos: [WhirlpoolRewardInfo; NUM_REWARDS],
    pub position_update: PositionUpdate,
}

/// The pool after a liquidity change is stored: new rewards, liquidity and
/// reward timestamp; everything else stays.
pub open spec fn spec_whirlpool_synced(before: Whirlpool, after: Whirlpool, update: ModifyLiquidityUpdate, timestamp: u64) -> bool {
    &&& after.reward_infos == update.reward_infos
    &&& after.liquidity == update.whirlpool_liquidity
    &&& after.reward_last_updated_timestamp == timestamp
    &&& after.tick_spacing == before.tick_spacing
    &&& after.tick_current_index == before.tick_current_index
    &&& after.fee_growth_global_a == before.fee_growth_global_a
    &&& after.fee_growth_global_b == before.fee_growth_global_b
}

/// `after` is the array `before` with `update` stored at tick index
/// `tick_index` when a slot holds it, and with the same ticks otherwise.
pub open spec fn spec_tick_stored<T: TickArrayType>(before: T, after: T, tick_index: int, tick_spacing: int, update: TickUpdate) -> bool {
    &&& after.wf()
    &&& after.spec_start_tick_index() == before.spec_start_tick_index()
    &&& after.spec_whirlpool() == before.spec_whirlpool()
    &&& after.spec_variable_size() == before.spec_variable_size()
    &&& match spec_tick_slot(before.spec_start_tick_index() as int, tick_index, tick_spacing) {
        Some(o) => after.spec_ticks() == before.spec_ticks().update(o, before.spec_stored_tick(update)),
        None => after.spec_ticks() == before.spec_ticks(),
    }
}

/// A slot holds `tick_index` in an array starting at `start`.
pub open spec fn spec_has_slot(start: i32, tick_index: int, tick_spacing: int) -> bool {
    spec_tick_slot(start as int, tick_index, tick_spacing) is Some
}

/// Store a liquidity change: the position takes its update, the lower tick
/// array the lower tick and the upper tick array (the lower one when both
/// bounds share it) the upper tick, then the pool its rewards and liquidity.
/// A bound that no slot of its array holds is `TickNotFound`, and what came
/// before it stays stored.
pub fn sync_modify_liquidity_values<L: TickArrayType, U: TickArrayType>(
    whirlpool: &mut Whirlpool,
    position: &mut Position,
    tick_array_lower: &mut L,
    tick_array_upper: Option<&mut U>,
    modify_liquidity_update: &ModifyLiquidityUpdate,
    reward_last_updated_timestamp: u64,
) -> (r: Result<(), ErrorCode>)
    requires
        old(tick_array_lower).wf(),
        spec_range_fits(old(tick_array_lower).spec_start_tick_index() as int, old(whirlpool).tick_spacing as int),
        match tick_array_upper {
            Some(u) => u.wf() && spec_range_fits(u.spec_start_tick_index() as int, old(whirlpool).tick_spacing as int),
            None => true,
        },
    ensures
        *final(position) == old(position).spec_updated(modify_liquidity_update.position_update),
        ({
            let spacing = old(whirlpool).tick_spacing as int;
            let lower_index = old(position).tick_lower_index as int;
            let upper_index = old(position).tick_upper_index as int;
            let lower_start = old(tick_array_lower).spec_start_tick_index();
            if !spec_has_slot(lower_start, lower_index, spacing) {
                &&& r == Err::<(), ErrorCode>(ErrorCode::TickNotFound)
                &&& *final(whirlpool) == *old(whirlpool)
                &&& spec_tick_stored(*old(tick_array_lower), *final(tick_array_lower), lower_index, spacing,
                    modify_liquidity_update.tick_lower_update)
                &&& match tick_array_upper { Some(u) => *final(u) == *u, None => true }
            } else {
                match tick_array_upper {
                    Some(u) => {
                        &&& spec_tick_stored(*old(tick_array_lower), *final(tick_array_lower), lower_index, spacing,
                            modify_liquidity_update.tick_lower_update)
                        &&& spec_tick_stored(*u, *final(u), upper_index, spacing,
                            modify_liquidity_update.tick_upper_update)
                        &&& if spec_has_slot(u.spec_start_tick_index(), upper_index, spacing) {
                            r is Ok && spec_whirlpool_synced(*old(whirlpool), *final(whirlpool),
                                *modify_liquidity_update, reward_last_updated_timestamp)
                        } else {
                            r == Err::<(), ErrorCode>(ErrorCode::TickNotFound) && *final(whirlpool) == *old(whirlpool)
                        }
                    },
                    None => {
                        &&& exists|mid: L| {
                            &&& spec_tick_stored(*old(tick_array_lower), mid, lower_index, spacing,
                                modify_liquidity_update.tick_lower_update)
                            &&& spec_tick_stored(mid, *final(tick_array_lower), upper_index, spacing,
                                modify_liquidity_update.tick_upper_update)
                        }
                        &&& if spec_has_slot(lower_start, upper_index, spacing) {
                            r is Ok && spec_whirlpool_synced(*old(whirlpool), *final(whirlpool),
                                *modify_liquidity_update, reward_last_updated_timestamp)
                        } else {
                            r == Err::<(), ErrorCode>(ErrorCode::TickNotFound) && *final(whirlpool) == *old(whirlpool)
                        }
                    },
                }
            }
        }),
{
    position.update(&modify_liquidity_update.position_update);
    match tick_array_lower.update_tick(position.tick_lower_index, whirlpool.tick_spacing,
        &modify_liquidity_update.tick_lower_update) {
        Ok(()) => {},
        Err(e) => return Err(e),
    }
    let ghost mid = *tick_array_lower;
    match tick_array_upper {
        Some(upper) => {
            match upper.update_tick(position.tick_upper_index, whirlpool.tick_spacing,
                &modify_liquidity_update.tick_upper_update) {
                Ok(()) => {},
                Err(e) => return Err(e),
            }
        },
        None => {
            let r2 = tick_array_lower.update_tick(position.tick_upper_index, whirlpool.tick_spacing,
                &modify_liquidity_update.tick_upper_update);
            proof {
                assert(spec_tick_stored(mid, *tick_array_lower, position.tick_upper_index as int,
                    whirlpool.tick_spacing as int, modify_liquidity_update.tick_upper_update));
            }
            match r2 {
                Ok(()) => {},
                Err(e) => return Err(e),
            }
        },
    }
    whirlpool.update_rewards_and_liquidity(
        modify_liquidity_update.reward_infos,
        modify_liquidity_update.whirlpool_liquidity,
        reward_last_updated_timestamp,
    );
    Ok(())
}

/// What a liquidity change computes for the pool and the ticks of the
/// position's bounds: the pool's new liquidity and rewards, the two tick
/// updates, and the fee and reward growths inside the range before the
/// change. The position's update is computed from these growths.
#[derive(Clone, Copy, Debug)]
pub struct ModifyLiquidityCalculation {
    pub whirlpool_liquidity: u128,
    pub reward_infos: [WhirlpoolRewardInfo; NUM_REWARDS],
    pub tick_lower_update: TickUpdate,
    pub tick_upper_update: TickUpdate,
    pub fee_growth_inside_a: u128,
    pub fee_growth_inside_b: u128,
    pub reward_growths_inside: [u128; NUM_REWARDS],
}

/// The calculation holds these updates of the bounds and the growths inside
/// the range read from the bounds before the change.
pub open spec fn spec_modify_liquidity_calculation(
    whirlpool: Whirlpool,
    tick_lower: Tick,
    tick_upper: Tick,
    tick_lower_index: i32,
    tick_upper_index: i32,
    next_reward_infos: [WhirlpoolRewardInfo; NUM_REWARDS],
    next_liquidity: u128,
    lower: TickUpdate,
    upper: TickUpdate,
    c: ModifyLiquidityCalculation,
) -> bool {
    let cur = whirlpool.tick_current_index as int;
    &&& c.whirlpool_liquidity == next_liquidity
    &&& c.reward_infos == next_reward_infos
    &&& c.tick_lower_update == lower
    &&& c.tick_upper_update == upper
    &&& c.fee_growth_inside_a == spec_growth_inside(cur, tick_lower.initialized, tick_lower_index as int,
        tick_lower.fee_growth_outside_a, tick_upper.initialized, tick_upper_index as int,
        tick_upper.fee_growth_outside_a, whirlpool.fee_growth_global_a)
    &&& c.fee_growth_inside_b == spec_growth_inside(cur, tick_lower.initialized, tick_lower_index as int,
        tick_lower.fee_growth_outside_b, tick_upper.initialized, tick_upper_index as int,
        tick_upper.fee_growth_outside_b, whirlpool.fee_growth_global_b)
    &&& forall|i: int| 0 <= i < 3 ==> #[trigger] c.reward_growths_inside@[i] == spec_reward_growth_inside(cur,
        tick_lower, tick_lower_index as int, tick_upper, tick_upper_index as int, next_reward_infos@[i], i)
}

/// What the state changes of a liquidity change give; see
/// `calculate_modify_liquidity_update`.
pub open spec fn spec_modify_liquidity_post(
    whirlpool: Whirlpool,
    position_liquidity: u128,
    tick_lower: Tick,
    tick_upper: Tick,
    tick_lower_index: i32,
    tick_upper_index: i32,
    next_reward_infos: [WhirlpoolRewardInfo; NUM_REWARDS],
    next_liquidity: u128,
    liquidity_delta: i128,
    r: Result<ModifyLiquidityCalculation, ErrorCode>,
) -> bool {
    &&& (liquidity_delta == 0 && position_liquidity == 0 ==> r == Err::<ModifyLiquidityCalculation, ErrorCode>(ErrorCode::LiquidityZero))
    &&& (!(liquidity_delta == 0 && position_liquidity == 0) ==> match r {
            Ok(c) => {
                &&& spec_tick_modify_post(tick_lower, tick_lower_index, whirlpool.tick_current_index,
                    whirlpool.fee_growth_global_a, whirlpool.fee_growth_global_b, next_reward_infos,
                    liquidity_delta, false, Ok(c.tick_lower_update))
                &&& spec_tick_modify_post(tick_upper, tick_upper_index, whirlpool.tick_current_index,
                    whirlpool.fee_growth_global_a, whirlpool.fee_growth_global_b, next_reward_infos,
                    liquidity_delta, true, Ok(c.tick_upper_update))
                &&& spec_modify_liquidity_calculation(whirlpool, tick_lower, tick_upper, tick_lower_index,
                    tick_upper_index, next_reward_infos, next_liquidity, c.tick_lower_update, c.tick_upper_update, c)
            },
            Err(e) => {
                ||| spec_tick_modify_post(tick_lower, tick_lower_index, whirlpool.tick_current_index,
                    whirlpool.fee_growth_global_a, whirlpool.fee_growth_global_b, next_reward_infos,
                    liquidity_delta, false, Err(e))
                ||| exists|u: TickUpdate| {
                    &&& spec_tick_modify_post(tick_lower, tick_lower_index, whirlpool.tick_current_index,
                        whirlpool.fee_growth_global_a, whirlpool.fee_growth_global_b, next_reward_infos,
                        liquidity_delta, false, Ok(u))
                    &&& spec_tick_modify_post(tick_upper, tick_upper_index, whirlpool.tick_current_index,
                        whirlpool.fee_growth_global_a, whirlpool.fee_growth_global_b, next_reward_infos,
                        liquidity_delta, true, Err(e))
                }
            },
        })
}

/// The state changes of a liquidity change by `liquidity_delta` on a
/// position, given the pool's rewards and liquidity after it. A zero delta
/// on a position without liquidity is `LiquidityZero`. Then the lower tick
/// is updated as a lower bound and the upper tick as an upper bound (the
/// first error of the two is the result), and the growths inside the range
/// are read from the ticks as they were before.
#[allow(clippy::too_many_arguments)]
pub fn calculate_modify_liquidity_update(
    whirlpool: &Whirlpool,
    position: &Position,
    tick_lower: &Tick,
    tick_upper: &Tick,
    tick_lower_index: i32,
    tick_upper_index: i32,
    next_reward_infos: [WhirlpoolRewardInfo; NUM_REWARDS],
    next_liquidity: u128,
    liquidity_delta: i128,
) -> (r: Result<ModifyLiquidityCalculation, ErrorCode>)
    ensures
        spec_modify_liquidity_post(*whirlpool, position.liquidity, *tick_lower, *tick_upper, tick_lower_index,
            tick_upper_index, next_reward_infos, next_liquidity, liquidity_delta, r),
{
    if liquidity_delta == 0 && position.liquidity == 0 {
        return Err(ErrorCode::LiquidityZero);
    }
    let tick_lower_update = match next_tick_modify_liquidity_update(
        tick_lower,
        tick_lower_index,
        whirlpool.tick_current_index,
        whirlpool.fee_growth_global_a,
        whirlpool.fee_growth_global_b,
        &next_reward_infos,
        liquidity_delta,
        false,
    ) {
        Ok(u) => u,
        Err(e) => return Err(e),
    };
    let tick_upper_update = match next_tick_modify_liquidity_update(
        tick_upper,
        tick_upper_index,
        whirlpool.tick_current_index,
        whirlpool.fee_growth_global_a,
        whirlpool.fee_growth_global_b,
        &next_reward_infos,
        liquidity_delta,
        true,
    ) {
        Ok(u) => u,
        Err(e) => {
            proof {
                assert(spec_tick_modify_post(*tick_lower, tick_lower_index, whirlpool.tick_current_index,
                    whirlpool.fee_growth_global_a, whirlpool.fee_growth_global_b, next_reward_infos,
                    liquidity_delta, false, Ok(tick_lower_update)));
            }
            return Err(e);
        },
    };
    let (fee_growth_inside_a, fee_growth_inside_b) = next_fee_growths_inside(
        whirlpool.tick_current_index,
        tick_lower,
        tick_lower_index,
        tick_upper,
        tick_upper_index,
        whirlpool.fee_growth_global_a,
        whirlpool.fee_growth_global_b,
    );
    let reward_growths_inside = next_reward_growths_inside(
        whirlpool.tick_current_index,
        tick_lower,
        tick_lower_index,
        tick_upper,
        tick_upper_index,
        &next_reward_infos,
    );
    Ok(ModifyLiquidityCalculation {
        whirlpool_liquidity: next_liquidity,
        reward_infos: next_reward_infos,
        tick_lower_update,
        tick_upper_update,
        fee_growth_inside_a,
        fee_growth_inside_b,
        reward_growths_inside,
    })
}

/// What a liquidity change computes when the ticks of the position's bounds
/// are read from their tick arrays: the first lookup error, otherwise as
/// `calculate_modify_liquidity_update` on the two ticks.
pub open spec fn spec_modify_liquidity_from_arrays<L: TickArrayType, U: TickArrayType>(
    whirlpool: Whirlpool,
    position: Position,
    tick_array_lower: L,
    tick_array_upper: U,
    next_reward_infos: [WhirlpoolRewardInfo; NUM_REWARDS],
    next_liquidity: u128,
    liquidity_delta: i128,
    r: Result<ModifyLiquidityCalculation, ErrorCode>,
) -> bool {
    let spacing = whirlpool.tick_spacing as int;
    match spec_get_tick(tick_array_lower.spec_ticks(), tick_array_lower.spec_start_tick_index() as int,
        position.tick_lower_index as int, spacing) {
        Err(e) => r == Err::<ModifyLiquidityCalculation, ErrorCode>(e),
        Ok(tick_lower) => match spec_get_tick(tick_array_upper.spec_ticks(),
            tick_array_upper.spec_start_tick_index() as int, position.tick_upper_index as int, spacing) {
            Err(e) => r == Err::<ModifyLiquidityCalculation, ErrorCode>(e),
            Ok(tick_upper) => spec_modify_liquidity_post(whirlpool, position.liquidity, tick_lower, tick_upper,
                position.tick_lower_index, position.tick_upper_index, next_reward_infos, next_liquidity,
                liquidity_delta, r),
        },
    }
}

/// The state changes of changing a position's liquidity by
/// `liquidity_delta`, with the ticks of its bounds read from their tick
/// arrays; see `calculate_modify_liquidity_update`.
pub fn calculate_modify_liquidity<L: TickArrayType, U: TickArrayType>(
    whirlpool: &Whirlpool,
    position: &Position,
    tick_array_lower: &L,
    tick_array_upper: &U,
    next_reward_infos: [WhirlpoolRewardInfo; NUM_REWARDS],
    next_liquidity: u128,
    liquidity_delta: i128,
) -> (r: Result<ModifyLiquidityCalculation, ErrorCode>)
    requires
        tick_array_lower.wf(),
        tick_array_upper.wf(),
        spec_range_fits(tick_array_lower.spec_start_tick_index() as int, whirlpool.tick_spacing as int),
        spec_range_fits(tick_array_upper.spec_start_tick_index() as int, whirlpool.tick_spacing as int),
    ensures
        spec_modify_liquidity_from_arrays(*whirlpool, *position, *tick_array_lower, *tick_array_upper,
            next_reward_infos, next_liquidity, liquidity_delta, r),
{
    let tick_lower = match tick_array_lower.get_tick(position.tick_lower_index, whirlpool.tick_spacing) {
        Ok(t) => t,
        Err(e) => return Err(e),
    };
    let tick_upper = match tick_array_upper.get_tick(position.tick_upper_index, whirlpool.tick_spacing) {
        Ok(t) => t,
        Err(e) => return Err(e),
    };
    calculate_modify_liquidity_update(
        whirlpool,
        position,
        &tick_lower,
        &tick_upper,
        position.tick_lower_index,
        position.tick_upper_index,
        next_reward_infos,
        next_liquidity,
        liquidity_delta,
    )
}

/// The fee and reward growths inside a position's range and the pool's
/// rewards, computed as a liquidity change of zero: the growths a position's
/// fees and rewards are settled from. A position without liquidity is
/// `LiquidityZero`.
pub fn calculate_fee_and_reward_growths<L: TickArrayType, U: TickArrayType>(
    whirlpool: &Whirlpool,
    position: &Position,
    tick_array_lower: &L,
    tick_array_upper: &U,
    next_reward_infos: [WhirlpoolRewardInfo; NUM_REWARDS],
) -> (r: Result<ModifyLiquidityCalculation, ErrorCode>)
    requires
        tick_array_lower.wf(),
        tick_array_upper.wf(),
        spec_range_fits(tick_array_lower.spec_start_tick_index() as int, whirlpool.tick_spacing as int),
        spec_range_fits(tick_array_upper.spec_start_tick_index() as int, whirlpool.tick_spacing as int),
    ensures
        spec_modify_liquidity_from_arrays(*whirlpool, *position, *tick_array_lower, *tick_array_upper,
            next_reward_infos, whirlpool.liquidity, 0, r),
{
    calculate_modify_liquidity(whirlpool, position, tick_array_lower, tick_array_upper, next_reward_infos,
        whirlpool.liquidity, 0)
}

} // verus!
