use vstd::prelude::*;
use crate::errors::ErrorCode;
use crate::math::{add_liquidity_delta, growth_sub, spec_add_liquidity_delta, wrapping_growth_sub};
use crate::tick::{zero_reward_growths, Tick, TickUpdate, NUM_REWARDS};
use crate::whirlpool::WhirlpoolRewardInfo;

verus! {

/// Reward growth outside a tick after the price crosses it: the reward's
/// global growth minus the growth outside, for an initialized reward; the
/// old value otherwise.
pub open spec fn spec_cross_reward_growth(tick: Tick, info: WhirlpoolRewardInfo, i: int) -> u128 {
    if info.spec_initialized() {
        growth_sub(info.growth_global_x64, tick.reward_growths_outside@[i])
    } else {
        tick.reward_growths_outside@[i]
    }
}

fn cross_reward_growth(tick: &Tick, info: &WhirlpoolRewardInfo, i: usize) -> (r: u128)
    requires
        i < 3,
    ensures
        r == spec_cross_reward_growth(*tick, *info, i as int),
{
    if info.initialized() {
        wrapping_growth_sub(info.growth_global_x64, tick.reward_growths_outside[i])
    } else {
        tick.reward_growths_outside[i]
    }
}

/// The values a tick takes when the price crosses it: the growths outside
/// the tick flip to the other side (global growth minus growth outside, modulo
/// 2^128); liquidity and the initialized flag stay. Never fails.
pub fn next_tick_cross_update(
    tick: &Tick,
    fee_growth_global_a: u128,
    fee_growth_global_b: u128,
    reward_infos: &[WhirlpoolRewardInfo; NUM_REWARDS],
) -> (r: Result<TickUpdate, ErrorCode>)
    ensures
        r matches Ok(u) && {
            &&& u.initialized == tick.initialized
            &&& u.liquidity_net == tick.liquidity_net
            &&& u.liquidity_gross == tick.liquidity_gross
            &&& u.fee_growth_outside_a == growth_sub(fee_growth_global_a, tick.fee_growth_outside_a)
            &&& u.fee_growth_outside_b == growth_sub(fee_growth_global_b, tick.fee_growth_outside_b)
            &&& forall|i: int| 0 <= i < 3 ==> u.reward_growths_outside@[i]
                == spec_cross_reward_growth(*tick, reward_infos@[i], i)
        },
{
    let rewards: [u128; NUM_REWARDS] = [
        cross_reward_growth(tick, &reward_infos[0], 0),
        cross_reward_growth(tick, &reward_infos[1], 1),
        cross_reward_growth(tick, &reward_infos[2], 2),
    ];
    Ok(TickUpdate {
        initialized: tick.initialized,
        liquidity_net: tick.liquidity_net,
        liquidity_gross: tick.liquidity_gross,
        fee_growth_outside_a: wrapping_growth_sub(fee_growth_global_a, tick.fee_growth_outside_a),
        fee_growth_outside_b: wrapping_growth_sub(fee_growth_global_b, tick.fee_growth_outside_b),
        reward_growths_outside: rewards,
    })
}

/// The net liquidity a tick holds after `liquidity_delta` is added to a
/// position that has this tick as its upper (subtract) or lower (add) bound.
pub open spec fn spec_next_liquidity_net(liquidity_net: i128, liquidity_delta: i128, is_upper_tick: bool) -> int {
    if is_upper_tick {
        liquidity_net - liquidity_delta
    } else {
        liquidity_net + liquidity_delta
    }
}

/// What updating a tick for a liquidity change gives; see
/// `next_tick_modify_liquidity_update`.
pub open spec fn spec_tick_modify_post(
    tick: Tick,
    tick_index: i32,
    tick_current_index: i32,
    fee_growth_global_a: u128,
    fee_growth_global_b: u128,
    reward_infos: [WhirlpoolRewardInfo; NUM_REWARDS],
    liquidity_delta: i128,
    is_upper_tick: bool,
    r: Result<TickUpdate, ErrorCode>,
) -> bool {
    &&& (liquidity_delta == 0 ==> r == Ok::<TickUpdate, ErrorCode>(TickUpdate::spec_from_tick(tick)))
    &&& (liquidity_delta != 0 ==> {
            let gross = spec_add_liquidity_delta(tick.liquidity_gross, liquidity_delta);
            let net = spec_next_liquidity_net(tick.liquidity_net, liquidity_delta, is_upper_tick);
            let fresh = tick.liquidity_gross == 0;
            let below = tick_current_index >= tick_index;
            match gross {
                Err(e) => r == Err::<TickUpdate, ErrorCode>(e),
                Ok(g) => if g == 0 {
                    r matches Ok(u) && u.is_zero()
                } else if net < i128::MIN || net > i128::MAX {
                    r == Err::<TickUpdate, ErrorCode>(ErrorCode::LiquidityNetError)
                } else {
                    r matches Ok(u) && {
                        &&& u.initialized
                        &&& u.liquidity_gross == g
                        &&& u.liquidity_net == net
                        &&& u.fee_growth_outside_a == (if !fresh { tick.fee_growth_outside_a }
                            else if below { fee_growth_global_a } else { 0 })
                        &&& u.fee_growth_outside_b == (if !fresh { tick.fee_growth_outside_b }
                            else if below { fee_growth_global_b } else { 0 })
                        &&& forall|i: int| 0 <= i < 3 ==> u.reward_growths_outside@[i] == (
                            if !fresh { tick.reward_growths_outside@[i] }
                            else if below { reward_infos@[i].growth_global_x64 } else { 0 })
                    }
                },
            }
        })
}

/// The values a tick takes when a position bounded by it changes its
/// liquidity by `liquidity_delta`.
///
/// - A zero delta leaves the tick as it is.
/// - The gross liquidity takes the delta; its overflow or underflow is the error.
/// - A gross liquidity of zero leaves an uninitialized, all-zero tick.
/// - A tick that held no liquidity before takes, by convention, all growth
///   as below it: the global growths when the current tick is at or above it,
///   zero otherwise; other ticks keep their growths outside.
/// - The net liquidity subtracts (upper tick) or adds (lower tick) the delta;
///   its overflow is `LiquidityNetError`.
#[allow(clippy::too_many_arguments)]
pub fn next_tick_modify_liquidity_update(
    tick: &Tick,
    tick_index: i32,
    tick_current_index: i32,
    fee_growth_global_a: u128,
    fee_growth_global_b: u128,
    reward_infos: &[WhirlpoolRewardInfo; NUM_REWARDS],
    liquidity_delta: i128,
    is_upper_tick: bool,
) -> (r: Result<TickUpdate, ErrorCode>)
    ensures
        spec_tick_modify_post(*tick, tick_index, tick_current_index, fee_growth_global_a, fee_growth_global_b,
            *reward_infos, liquidity_delta, is_upper_tick, r),
{
    if liquidity_delta == 0 {
        return Ok(TickUpdate::from_tick(*tick));
    }

    let liquidity_gross = match add_liquidity_delta(tick.liquidity_gross, liquidity_delta) {
        Ok(v) => v,
        Err(e) => return Err(e),
    };

    if liquidity_gross == 0 {
        return Ok(TickUpdate::default());
    }

    let (fee_growth_outside_a, fee_growth_outside_b, reward_growths_outside) =
        if tick.liquidity_gross == 0 {
            if tick_current_index >= tick_index {
                (
                    fee_growth_global_a,
                    fee_growth_global_b,
                    WhirlpoolRewardInfo::to_reward_growths(reward_infos),
                )
            } else {
                (0, 0, zero_reward_growths())
            }
        } else {
            (
                tick.fee_growth_outside_a,
                tick.fee_growth_outside_b,
                tick.reward_growths_outside,
            )
        };

    let liquidity_net = if is_upper_tick {
        match tick.liquidity_net.checked_sub(liquidity_delta) {
            Some(v) => v,
            None => return Err(ErrorCode::LiquidityNetError),
        }
    } else {
        match tick.liquidity_net.checked_add(liquidity_delta) {
            Some(v) => v,
            None => return Err(ErrorCode::LiquidityNetError),
        }
    };

    Ok(TickUpdate {
        initialized: true,
        liquidity_net,
        liquidity_gross,
        fee_growth_outside_a,
        fee_growth_outside_b,
        reward_growths_outside,
    })
}

/// Growth below the lower tick: the global growth when the lower tick is
/// uninitialized (all growth is taken as below it); otherwise the growth
/// outside it, flipped when the current tick is below it.
pub open spec fn spec_growth_below(
    lower_initialized: bool,
    current_below_lower: bool,
    global: u128,
    outside_lower: u128,
) -> u128 {
    if !lower_initialized {
        global
    } else if current_below_lower {
        growth_sub(global, outside_lower)
    } else {
        outside_lower
    }
}

/// Growth above the upper tick: zero when the upper tick is uninitialized;
/// otherwise the growth outside it, flipped when the current tick is at or
/// above it.
pub open spec fn spec_growth_above(
    upper_initialized: bool,
    current_below_upper: bool,
    global: u128,
    outside_upper: u128,
) -> u128 {
    if !upper_initialized {
        0
    } else if current_below_upper {
        outside_upper
    } else {
        growth_sub(global, outside_upper)
    }
}

/// Growth inside a range: global minus below minus above, modulo 2^128.
pub open spec fn spec_growth_inside(
    tick_current_index: int,
    lower_initialized: bool,
    tick_lower_index: int,
    outside_lower: u128,
    upper_initialized: bool,
    tick_upper_index: int,
    outside_upper: u128,
    global: u128,
) -> u128 {
    growth_sub(
        growth_sub(global, spec_growth_below(lower_initialized, tick_current_index < tick_lower_index, global, outside_lower)),
        spec_growth_above(upper_initialized, tick_current_index < tick_upper_index, global, outside_upper),
    )
}

fn growth_inside(
    tick_current_index: i32,
    lower_initialized: bool,
    tick_lower_index: i32,
    outside_lower: u128,
    upper_initialized: bool,
    tick_upper_index: i32,
    outside_upper: u128,
    global: u128,
) -> (r: u128)
    ensures
        r == spec_growth_inside(tick_current_index as int, lower_initialized, tick_lower_index as int,
            outside_lower, upper_initialized, tick_upper_index as int, outside_upper, global),
{
    let below = if !lower_initialized {
        global
    } else if tick_current_index < tick_lower_index {
        wrapping_growth_sub(global, outside_lower)
    } else {
        outside_lower
    };
    let above = if !upper_initialized {
        0
    } else if tick_current_index < tick_upper_index {
        outside_upper
    } else {
        wrapping_growth_sub(global, outside_upper)
    };
    wrapping_growth_sub(wrapping_growth_sub(global, below), above)
}

/// Fee growths of tokens A and B inside `[tick_lower_index, tick_upper_index)`
/// given where the current tick lies.
pub fn next_fee_growths_inside(
    tick_current_index: i32,
    tick_lower: &Tick,
    tick_lower_index: i32,
    tick_upper: &Tick,
    tick_upper_index: i32,
    fee_growth_global_a: u128,
    fee_growth_global_b: u128,
) -> (r: (u128, u128))
    ensures
        r.0 == spec_growth_inside(tick_current_index as int, tick_lower.initialized, tick_lower_index as int,
            tick_lower.fee_growth_outside_a, tick_upper.initialized, tick_upper_index as int,
            tick_upper.fee_growth_outside_a, fee_growth_global_a),
        r.1 == spec_growth_inside(tick_current_index as int, tick_lower.initialized, tick_lower_index as int,
            tick_lower.fee_growth_outside_b, tick_upper.initialized, tick_upper_index as int,
            tick_upper.fee_growth_outside_b, fee_growth_global_b),
{
    (
        growth_inside(tick_current_index, tick_lower.initialized, tick_lower_index,
            tick_lower.fee_growth_outside_a, tick_upper.initialized, tick_upper_index,
            tick_upper.fee_growth_outside_a, fee_growth_global_a),
        growth_inside(tick_current_index, tick_lower.initialized, tick_lower_index,
            tick_lower.fee_growth_outside_b, tick_upper.initialized, tick_upper_index,
            tick_upper.fee_growth_outside_b, fee_growth_global_b),
    )
}

/// Reward growth `i` inside the range: zero for an uninitialized reward,
/// otherwise the growth inside as for fees.
pub open spec fn spec_reward_growth_inside(
    tick_current_index: int,
    tick_lower: Tick,
    tick_lower_index: int,
    tick_upper: Tick,
    tick_upper_index: int,
    info: WhirlpoolRewardInfo,
    i: int,
) -> u128 {
    if !info.spec_initialized() {
        0
    } else {
        spec_growth_inside(tick_current_index, tick_lower.initialized, tick_lower_index,
            tick_lower.reward_growths_outside@[i], tick_upper.initialized, tick_upper_index,
            tick_upper.reward_growths_outside@[i], info.growth_global_x64)
    }
}

fn reward_growth_inside(
    tick_current_index: i32,
    tick_lower: &Tick,
    tick_lower_index: i32,
    tick_upper: &Tick,
    tick_upper_index: i32,
    info: &WhirlpoolRewardInfo,
    i: usize,
) -> (r: u128)
    requires
        i < 3,
    ensures
        r == spec_reward_growth_inside(tick_current_index as int, *tick_lower, tick_lower_index as int,
            *tick_upper, tick_upper_index as int, *info, i as int),
{
    if !info.initialized() {
        return 0;
    }
    growth_inside(tick_current_index, tick_lower.initialized, tick_lower_index,
        tick_lower.reward_growths_outside[i], tick_upper.initialized, tick_upper_index,
        tick_upper.reward_growths_outside[i], info.growth_global_x64)
}

/// Reward growths inside `[tick_lower_index, tick_upper_index)`, one per
/// reward; an uninitialized reward has growth zero.
pub fn next_reward_growths_inside(
    tick_current_index: i32,
    tick_lower: &Tick,
    tick_lower_index: i32,
    tick_upper: &Tick,
    tick_upper_index: i32,
    reward_infos: &[WhirlpoolRewardInfo; NUM_REWARDS],
) -> (r: [u128; NUM_REWARDS])
    ensures
        forall|i: int| 0 <= i < 3 ==> r@[i] == spec_reward_growth_inside(tick_current_index as int,
            *tick_lower, tick_lower_index as int, *tick_upper, tick_upper_index as int, reward_infos@[i], i),
{
    [
        reward_growth_inside(tick_current_index, tick_lower, tick_lower_index, tick_upper,
            tick_upper_index, &reward_infos[0], 0),
        reward_growth_inside(tick_current_index, tick_lower, tick_lower_index, tick_upper,
            tick_upper_index, &reward_infos[1], 1),
        reward_growth_inside(tick_current_index, tick_lower, tick_lower_index, tick_upper,
            tick_upper_index, &reward_infos[2], 2),
    ]
}

} // verus!
