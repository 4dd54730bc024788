use whirlpool::errors::ErrorCode;
use whirlpool::math::{add_liquidity_delta, floor_division, unsigned_abs_i128, wrapping_growth_sub};
use whirlpool::pubkey::Pubkey;
use whirlpool::tick::{Tick, TickUpdate, MAX_TICK_INDEX, MIN_TICK_INDEX};
use whirlpool::tick_manager::{
    next_fee_growths_inside, next_reward_growths_inside, next_tick_cross_update,
    next_tick_modify_liquidity_update,
};
use whirlpool::whirlpool::WhirlpoolRewardInfo;

fn reward(mint: u8, growth: u128) -> WhirlpoolRewardInfo {
    WhirlpoolRewardInfo {
        mint: Pubkey([mint; 32]),
        vault: Pubkey::default(),
        authority: Pubkey::default(),
        emissions_per_second_x64: 0,
        growth_global_x64: growth,
    }
}

fn rewards() -> [WhirlpoolRewardInfo; 3] {
    [reward(1, 500), reward(2, 700), reward(0, 900)]
}

fn tick(initialized: bool, net: i128, gross: u128, fa: u128, fb: u128, r: [u128; 3]) -> Tick {
    Tick {
        initialized,
        liquidity_net: net,
        liquidity_gross: gross,
        fee_growth_outside_a: fa,
        fee_growth_outside_b: fb,
        reward_growths_outside: r,
    }
}

#[test]
fn test_check_is_out_of_bounds() {
    assert!(!Tick::check_is_out_of_bounds(MAX_TICK_INDEX));
    assert!(!Tick::check_is_out_of_bounds(MIN_TICK_INDEX));
    assert!(!Tick::check_is_out_of_bounds(0));
    assert!(Tick::check_is_out_of_bounds(MAX_TICK_INDEX + 1));
    assert!(Tick::check_is_out_of_bounds(MIN_TICK_INDEX - 1));
}

#[test]
fn test_check_is_valid_start_tick() {
    // one array spans 88 * 64 = 5632 ticks
    assert!(Tick::check_is_valid_start_tick(0, 64));
    assert!(Tick::check_is_valid_start_tick(5632, 64));
    assert!(Tick::check_is_valid_start_tick(-5632, 64));
    assert!(!Tick::check_is_valid_start_tick(64, 64));
    // the left-most array starts below the smallest tick index
    assert!(Tick::check_is_valid_start_tick(-444928, 64));
    assert!(!Tick::check_is_valid_start_tick(-444928 - 5632, 64));
    // above the largest tick index nothing starts
    assert!(!Tick::check_is_valid_start_tick(450560, 64));
    // spacing 1: arrays of 88 ticks
    assert!(Tick::check_is_valid_start_tick(88, 1));
    assert!(Tick::check_is_valid_start_tick(-443696, 1));
    assert!(!Tick::check_is_valid_start_tick(-443784, 1));
}

#[test]
fn test_check_is_usable_tick() {
    assert!(Tick::check_is_usable_tick(128, 64));
    assert!(Tick::check_is_usable_tick(-128, 64));
    assert!(!Tick::check_is_usable_tick(100, 64));
    assert!(!Tick::check_is_usable_tick(443648, 64));
    assert!(Tick::check_is_usable_tick(443636, 1));
}

#[test]
fn test_full_range_indexes() {
    assert_eq!(Tick::full_range_indexes(64), (-443584, 443584));
    assert_eq!(Tick::full_range_indexes(1), (-443636, 443636));
    assert_eq!(Tick::full_range_indexes(32768), (-425984, 425984));
}

#[test]
fn test_full_range_indexes_are_usable() {
    for spacing in [1u16, 8, 64, 128, 32768, 65535] {
        let (lower, upper) = Tick::full_range_indexes(spacing);
        assert!(Tick::check_is_usable_tick(lower, spacing));
        assert!(Tick::check_is_usable_tick(upper, spacing));
        assert!(Tick::check_is_out_of_bounds(upper + spacing as i32));
    }
}

#[test]
fn test_bound_tick_index() {
    assert_eq!(Tick::bound_tick_index(500000), MAX_TICK_INDEX);
    assert_eq!(Tick::bound_tick_index(-500000), MIN_TICK_INDEX);
    assert_eq!(Tick::bound_tick_index(5), 5);
    let once = Tick::bound_tick_index(i32::MAX);
    assert_eq!(Tick::bound_tick_index(once), once);
}

#[test]
fn test_tick_update_roundtrip() {
    let t = tick(true, -5, 7, 11, 13, [1, 2, 3]);
    let u = TickUpdate::from_tick(t);
    assert_eq!(Tick::from_update(u), t);
    let mut d = Tick::default();
    d.update(&u);
    assert_eq!(d, t);
    assert_eq!(TickUpdate::from_tick(Tick::from_update(u)), u);
}

#[test]
fn test_tick_default_is_zero() {
    assert_eq!(Tick::default(), tick(false, 0, 0, 0, 0, [0, 0, 0]));
    assert_eq!(TickUpdate::default(), TickUpdate::from_tick(Tick::default()));
}

#[test]
fn test_wrapping_growth_sub() {
    assert_eq!(wrapping_growth_sub(10, 3), 7);
    assert_eq!(wrapping_growth_sub(3, 10), u128::MAX - 6);
    // crossing twice restores
    assert_eq!(wrapping_growth_sub(3, wrapping_growth_sub(3, 10)), 10);
}

#[test]
fn test_unsigned_abs() {
    assert_eq!(unsigned_abs_i128(-5), 5);
    assert_eq!(unsigned_abs_i128(i128::MIN), 1u128 << 127);
    assert_eq!(unsigned_abs_i128(9), 9);
}

#[test]
fn test_add_liquidity_delta() {
    assert_eq!(add_liquidity_delta(100, 0), Ok(100));
    assert_eq!(add_liquidity_delta(100, 50), Ok(150));
    assert_eq!(add_liquidity_delta(100, -100), Ok(0));
    assert_eq!(add_liquidity_delta(100, -101), Err(ErrorCode::LiquidityUnderflow));
    assert_eq!(add_liquidity_delta(u128::MAX, 1), Err(ErrorCode::LiquidityOverflow));
}

#[test]
fn test_add_then_remove_liquidity() {
    let added = add_liquidity_delta(12345, 678).unwrap();
    assert_eq!(add_liquidity_delta(added, -678), Ok(12345));
}

#[test]
fn test_floor_division() {
    assert_eq!(floor_division(7, 2), 3);
    assert_eq!(floor_division(-7, 2), -4);
    assert_eq!(floor_division(-8, 2), -4);
    assert_eq!(floor_division(0, 5), 0);
    assert_eq!(floor_division(-1, 5632), -1);
}

#[test]
fn test_next_tick_cross_update() {
    let t = tick(true, 3, 5, 100, 200, [10, 20, 30]);
    let u = next_tick_cross_update(&t, 1000, 150, &rewards()).unwrap();
    assert_eq!(u.fee_growth_outside_a, 900);
    assert_eq!(u.fee_growth_outside_b, 150u128.wrapping_sub(200));
    // the third reward has no mint: its growth stays
    assert_eq!(u.reward_growths_outside, [490, 680, 30]);
    assert_eq!(u.liquidity_net, 3);
    assert_eq!(u.liquidity_gross, 5);
    assert!(u.initialized);
}

#[test]
fn test_cross_twice_restores() {
    let t = tick(true, 3, 5, 100, 200, [10, 20, 30]);
    let u = next_tick_cross_update(&t, 1000, 150, &rewards()).unwrap();
    let crossed = Tick::from_update(u);
    let back = next_tick_cross_update(&crossed, 1000, 150, &rewards()).unwrap();
    assert_eq!(Tick::from_update(back), t);
}

#[test]
fn test_modify_liquidity_zero_delta_keeps_tick() {
    let t = tick(true, 3, 5, 100, 200, [10, 20, 30]);
    let u = next_tick_modify_liquidity_update(&t, 64, 0, 1000, 2000, &rewards(), 0, false).unwrap();
    assert_eq!(u, TickUpdate::from_tick(t));
}

#[test]
fn test_modify_liquidity_fresh_tick_below_current() {
    let t = Tick::default();
    let u = next_tick_modify_liquidity_update(&t, 64, 128, 1000, 2000, &rewards(), 50, false).unwrap();
    assert!(u.initialized);
    assert_eq!(u.liquidity_gross, 50);
    assert_eq!(u.liquidity_net, 50);
    assert_eq!(u.fee_growth_outside_a, 1000);
    assert_eq!(u.fee_growth_outside_b, 2000);
    assert_eq!(u.reward_growths_outside, [500, 700, 900]);
}

#[test]
fn test_modify_liquidity_fresh_tick_above_current() {
    let t = Tick::default();
    let u = next_tick_modify_liquidity_update(&t, 640, 128, 1000, 2000, &rewards(), 50, true).unwrap();
    assert_eq!(u.liquidity_net, -50);
    assert_eq!(u.fee_growth_outside_a, 0);
    assert_eq!(u.fee_growth_outside_b, 0);
    assert_eq!(u.reward_growths_outside, [0, 0, 0]);
}

#[test]
fn test_modify_liquidity_existing_tick_keeps_growths() {
    let t = tick(true, 10, 10, 7, 8, [1, 2, 3]);
    let u = next_tick_modify_liquidity_update(&t, 64, 128, 1000, 2000, &rewards(), 5, true).unwrap();
    assert_eq!(u.liquidity_gross, 15);
    assert_eq!(u.liquidity_net, 5);
    assert_eq!(u.fee_growth_outside_a, 7);
    assert_eq!(u.reward_growths_outside, [1, 2, 3]);
}

#[test]
fn test_modify_liquidity_remove_all_clears_tick() {
    let t = tick(true, 10, 10, 7, 8, [1, 2, 3]);
    let u = next_tick_modify_liquidity_update(&t, 64, 128, 1000, 2000, &rewards(), -10, false).unwrap();
    assert_eq!(u, TickUpdate::default());
}

#[test]
fn test_modify_liquidity_errors() {
    let t = tick(true, 10, 10, 7, 8, [1, 2, 3]);
    assert_eq!(
        next_tick_modify_liquidity_update(&t, 64, 128, 0, 0, &rewards(), -11, false),
        Err(ErrorCode::LiquidityUnderflow)
    );
    let full = tick(true, 0, u128::MAX, 0, 0, [0, 0, 0]);
    assert_eq!(
        next_tick_modify_liquidity_update(&full, 64, 128, 0, 0, &rewards(), 1, false),
        Err(ErrorCode::LiquidityOverflow)
    );
    let net_max = tick(true, i128::MAX, 1, 0, 0, [0, 0, 0]);
    assert_eq!(
        next_tick_modify_liquidity_update(&net_max, 64, 128, 0, 0, &rewards(), 1, false),
        Err(ErrorCode::LiquidityNetError)
    );
}

#[test]
fn test_fee_growths_inside_current_inside() {
    let lower = tick(true, 0, 1, 100, 10, [0, 0, 0]);
    let upper = tick(true, 0, 1, 200, 20, [0, 0, 0]);
    // current between: global - below(lower) - above(upper)
    let (a, b) = next_fee_growths_inside(0, &lower, -64, &upper, 64, 1000, 500);
    assert_eq!(a, 1000 - 100 - 200);
    assert_eq!(b, 500 - 10 - 20);
}

#[test]
fn test_fee_growths_inside_current_below_and_above() {
    let lower = tick(true, 0, 1, 100, 10, [0, 0, 0]);
    let upper = tick(true, 0, 1, 200, 20, [0, 0, 0]);
    // current below the range: below(lower) = global - outside, above(upper) = outside
    let (a, _) = next_fee_growths_inside(-128, &lower, -64, &upper, 64, 1000, 500);
    assert_eq!(a, 1000u128.wrapping_sub(1000 - 100).wrapping_sub(200));
    // current above the range: below(lower) = outside, above(upper) = global - outside
    let (a, _) = next_fee_growths_inside(128, &lower, -64, &upper, 64, 1000, 500);
    assert_eq!(a, 1000u128.wrapping_sub(100).wrapping_sub(1000 - 200));
}

#[test]
fn test_fee_growths_inside_uninitialized_ticks() {
    let lower = Tick::default();
    let upper = Tick::default();
    let (a, b) = next_fee_growths_inside(0, &lower, -64, &upper, 64, 1000, 500);
    assert_eq!((a, b), (0, 0));
}

#[test]
fn test_crossing_lower_tick_keeps_inside() {
    let lower = tick(true, 0, 1, 100, 10, [0, 0, 0]);
    let upper = tick(true, 0, 1, 200, 20, [0, 0, 0]);
    let before = next_fee_growths_inside(-100, &lower, -64, &upper, 64, 1000, 500);
    let crossed = Tick::from_update(next_tick_cross_update(&lower, 1000, 500, &rewards()).unwrap());
    let after = next_fee_growths_inside(-64, &crossed, -64, &upper, 64, 1000, 500);
    assert_eq!(before, after);
}

#[test]
fn test_reward_growths_inside() {
    let lower = tick(true, 0, 1, 0, 0, [10, 20, 30]);
    let upper = tick(true, 0, 1, 0, 0, [40, 50, 60]);
    let r = next_reward_growths_inside(0, &lower, -64, &upper, 64, &rewards());
    // the uninitialized third reward has zero growth inside
    assert_eq!(r, [500 - 10 - 40, 700 - 20 - 50, 0]);
}

#[test]
fn test_every_tick_has_a_valid_array_start() {
    for spacing in [1u16, 64, 32768] {
        let span = 88 * spacing as i32;
        for t in [MIN_TICK_INDEX, -443000, -1, 0, 1, 5631, 5632, 443000, MAX_TICK_INDEX] {
            let start = floor_division(t, span) * span;
            assert!(Tick::check_is_valid_start_tick(start, spacing));
            assert!(start <= t && t < start + span);
        }
    }
}
