//! Properties of the library that relate several operations or hold of
//! every state.
use vstd::prelude::*;
use crate::dynamic_tick_layout::spec_overwrite;
use crate::errors::ErrorCode;
use crate::math::{growth_sub, spec_add_liquidity_delta};
use crate::oracle::{
    spec_update_reference, spec_volatility_accumulator, AdaptiveFeeConstants, AdaptiveFeeVariables,
    ORACLE_LEN, REDUCTION_FACTOR_DENOMINATOR,
};
use crate::oracle_accessor::{lemma_variables_roundtrip, spec_constants_at, spec_encode_variables,
    spec_variables_at};
use crate::position_bundle::{spec_bundle_bit, PositionBundle};
use crate::account::AccountInfo;
use crate::sparse_swap::{
    spec_find_start, spec_first_of_key, spec_first_with_key, spec_has_key, spec_key_lt,
    spec_select_tick_arrays, spec_sorted_by_key, spec_sorted_dedup, spec_start_tick_indexes,
};
use crate::fixed_tick_array::{spec_fixed_array_at, spec_fixed_array_bytes, spec_fixed_flags_ok, TickArray};
use crate::tick_array_loader::LoadedTickArray;
use crate::dynamic_tick_array::{spec_zero_tick, DynamicTickArrayLoader};
use crate::dynamic_tick_layout::{spec_bit, spec_bitmap};
use crate::tick::{
    spec_bound_tick_index, spec_full_range_upper, spec_is_usable_tick, spec_is_valid_start_tick,
    spec_out_of_bounds, spec_ticks_in_array, Tick, TickUpdate,
};
use crate::tick_array::{spec_get_tick, spec_in_search_range, spec_tick_slot, TickArrayType};
use crate::tick_manager::{spec_cross_reward_growth, spec_growth_inside, spec_reward_growth_inside};
use crate::position::{spec_position_empty, spec_validate_tick_range, Position};
use crate::whirlpool::WhirlpoolRewardInfo;

verus! {

/// Subtracting a growth from the same global twice, modulo 2^128, gives the
/// growth back: crossing a tick twice restores its growths outside.
pub proof fn law_cross_twice_restores(global: u128, outside: u128)
    ensures
        growth_sub(global, growth_sub(global, outside)) == outside,
{
}

/// Crossing a tick twice restores each reward growth outside it.
pub proof fn law_cross_twice_restores_rewards(tick: Tick, crossed: Tick, info: WhirlpoolRewardInfo, i: int)
    requires
        0 <= i < 3,
        crossed.reward_growths_outside@[i] == spec_cross_reward_growth(tick, info, i),
    ensures
        spec_cross_reward_growth(crossed, info, i) == tick.reward_growths_outside@[i],
{
}

/// Crossing the lower tick of a range leaves the growth inside the range
/// unchanged: the growth inside computed with the current tick below the
/// lower tick and the old growth outside equals the one computed with the
/// current tick at or above it and the crossed growth outside.
pub proof fn law_cross_lower_keeps_inside(
    before_index: int,
    after_index: int,
    lower_index: int,
    lower_outside: u128,
    upper_initialized: bool,
    upper_index: int,
    upper_outside: u128,
    global: u128,
)
    requires
        before_index < lower_index <= after_index,
        (before_index < upper_index) == (after_index < upper_index),
    ensures
        spec_growth_inside(before_index, true, lower_index, lower_outside, upper_initialized,
            upper_index, upper_outside, global)
        == spec_growth_inside(after_index, true, lower_index, growth_sub(global, lower_outside),
            upper_initialized, upper_index, upper_outside, global),
{
}

/// Crossing the upper tick of a range leaves the growth inside the range
/// unchanged.
pub proof fn law_cross_upper_keeps_inside(
    before_index: int,
    after_index: int,
    lower_initialized: bool,
    lower_index: int,
    lower_outside: u128,
    upper_index: int,
    upper_outside: u128,
    global: u128,
)
    requires
        before_index < upper_index <= after_index,
        (before_index < lower_index) == (after_index < lower_index),
    ensures
        spec_growth_inside(before_index, lower_initialized, lower_index, lower_outside, true,
            upper_index, upper_outside, global)
        == spec_growth_inside(after_index, lower_initialized, lower_index, lower_outside, true,
            upper_index, growth_sub(global, upper_outside), global),
{
}

/// Removing liquidity that was just added restores the liquidity.
pub proof fn law_add_then_remove_liquidity(liquidity: u128, delta: i128)
    requires
        delta > i128::MIN,
        spec_add_liquidity_delta(liquidity, delta) is Ok,
    ensures
        spec_add_liquidity_delta(spec_add_liquidity_delta(liquidity, delta)->Ok_0, (-delta) as i128)
            == Ok::<u128, ErrorCode>(liquidity),
{
}

/// Slots of distinct usable tick indexes differ.
proof fn lemma_slot_injective(start: int, t1: int, t2: int, spacing: int)
    requires
        spacing > 0,
        spec_tick_slot(start, t1, spacing) is Some,
        spec_tick_slot(start, t2, spacing) is Some,
        t1 != t2,
    ensures
        spec_tick_slot(start, t1, spacing) != spec_tick_slot(start, t2, spacing),
{
    let d1 = t1 - start;
    let d2 = t2 - start;
    if d1 / spacing == d2 / spacing {
        let q = d1 / spacing;
        vstd::arithmetic::div_mod::lemma_fundamental_div_mod(d1, spacing);
        vstd::arithmetic::div_mod::lemma_fundamental_div_mod(d2, spacing);
        vstd::arithmetic::div_mod::lemma_mod_bound(d1, spacing);
        vstd::arithmetic::div_mod::lemma_mod_bound(d2, spacing);
        vstd::arithmetic::div_mod::lemma_fundamental_div_mod(t1, spacing);
        vstd::arithmetic::div_mod::lemma_fundamental_div_mod(t2, spacing);
        let k1 = t1 / spacing;
        let k2 = t2 / spacing;
        assert(t1 - t2 == d1 % spacing - d2 % spacing) by (nonlinear_arith)
            requires
                d1 == spacing * q + d1 % spacing,
                d2 == spacing * q + d2 % spacing,
                d1 == t1 - start,
                d2 == t2 - start,
        ;
        assert(t1 - t2 == spacing * (k1 - k2)) by (nonlinear_arith)
            requires
                t1 == spacing * k1 + t1 % spacing,
                t2 == spacing * k2 + t2 % spacing,
                t1 % spacing == 0,
                t2 % spacing == 0,
        ;
        assert(false) by (nonlinear_arith)
            requires
                t1 - t2 == spacing * (k1 - k2),
                -spacing < t1 - t2 < spacing,
                t1 != t2,
                spacing > 0,
        ;
    }
}

/// A slot lies in `[0, 88)`.
proof fn lemma_slot_in_array(start: int, t: int, spacing: int)
    requires
        spacing > 0,
        spec_tick_slot(start, t, spacing) is Some,
    ensures
        0 <= spec_tick_slot(start, t, spacing)->Some_0 < 88,
{
    let d = t - start;
    vstd::arithmetic::div_mod::lemma_div_pos_is_pos(d, spacing);
    vstd::arithmetic::div_mod::lemma_fundamental_div_mod(d, spacing);
    vstd::arithmetic::div_mod::lemma_mod_bound(d, spacing);
    let q = d / spacing;
    assert(q < 88) by (nonlinear_arith)
        requires
            d == spacing * q + d % spacing,
            0 <= d % spacing,
            d < 88 * spacing,
            spacing > 0,
    ;
}

/// Reading a tick after an update was stored at it gives the stored tick;
/// reading any other usable tick index gives what it gave before.
pub proof fn law_get_after_update(
    ticks: Seq<Tick>,
    start: int,
    spacing: int,
    tick_index: int,
    other_index: int,
    stored: Tick,
)
    requires
        ticks.len() == 88,
        0 < spacing <= u16::MAX,
        spec_tick_slot(start, tick_index, spacing) is Some,
    ensures
        spec_get_tick(ticks.update(spec_tick_slot(start, tick_index, spacing)->Some_0, stored),
            start, tick_index, spacing) == Ok::<Tick, ErrorCode>(stored),
        other_index != tick_index ==>
            spec_get_tick(ticks.update(spec_tick_slot(start, tick_index, spacing)->Some_0, stored),
                start, other_index, spacing) == spec_get_tick(ticks, start, other_index, spacing),
{
    lemma_slot_in_array(start, tick_index, spacing);
    if other_index != tick_index && spec_tick_slot(start, other_index, spacing) is Some {
        lemma_slot_injective(start, tick_index, other_index, spacing);
        lemma_slot_in_array(start, other_index, spacing);
    }
}

/// Turning an update into a tick and back gives the same update, and a tick
/// into an update and back gives the same tick.
pub proof fn law_tick_update_roundtrip(u: TickUpdate, t: Tick)
    ensures
        TickUpdate::spec_from_tick(Tick::spec_from_update(u)) == u,
        Tick::spec_from_update(TickUpdate::spec_from_tick(t)) == t,
{
}

/// Clamping gives a tick index in the supported range, leaves one already in
/// it unchanged, and clamping twice is clamping once.
pub proof fn law_bound_tick_index(tick_index: int)
    ensures
        !spec_out_of_bounds(spec_bound_tick_index(tick_index)),
        !spec_out_of_bounds(tick_index) ==> spec_bound_tick_index(tick_index) == tick_index,
        spec_bound_tick_index(spec_bound_tick_index(tick_index)) == spec_bound_tick_index(tick_index),
{
}

/// The full range of a tick spacing runs between two usable tick indexes,
/// and no usable tick index lies above its upper end.
pub proof fn law_full_range_usable(tick_spacing: int)
    requires
        0 < tick_spacing <= u16::MAX,
    ensures
        spec_is_usable_tick(spec_full_range_upper(tick_spacing), tick_spacing),
        spec_is_usable_tick(-spec_full_range_upper(tick_spacing), tick_spacing),
        spec_out_of_bounds(spec_full_range_upper(tick_spacing) + tick_spacing),
{
    let s = tick_spacing;
    let q = 443636int / s;
    vstd::arithmetic::div_mod::lemma_fundamental_div_mod(443636int, s);
    vstd::arithmetic::div_mod::lemma_mod_bound(443636int, s);
    vstd::arithmetic::div_mod::lemma_div_pos_is_pos(443636int, s);
    assert(0 <= q * s <= 443636 < q * s + s) by (nonlinear_arith)
        requires
            443636 == s * q + 443636int % s,
            0 <= 443636int % s < s,
            q >= 0,
            s > 0,
    ;
    vstd::arithmetic::div_mod::lemma_mod_multiples_basic(q, s);
    vstd::arithmetic::div_mod::lemma_mod_multiples_basic(-q, s);
    assert(-(q * s) == (-q) * s) by (nonlinear_arith);
}

/// Every tick index in the supported range lies in the tick array that
/// starts at the multiple of the array span just at or below it, and that
/// start is a valid start tick index.
pub proof fn law_tick_has_valid_array_start(tick_index: int, tick_spacing: int)
    requires
        0 < tick_spacing <= u16::MAX,
        !spec_out_of_bounds(tick_index),
    ensures
        spec_is_valid_start_tick(
            tick_index / spec_ticks_in_array(tick_spacing) * spec_ticks_in_array(tick_spacing),
            tick_spacing,
        ),
        spec_in_search_range(
            tick_index / spec_ticks_in_array(tick_spacing) * spec_ticks_in_array(tick_spacing),
            tick_index,
            tick_spacing,
            false,
        ),
{
    let t = spec_ticks_in_array(tick_spacing);
    let q = tick_index / t;
    let start = q * t;
    vstd::arithmetic::div_mod::lemma_fundamental_div_mod(tick_index, t);
    vstd::arithmetic::div_mod::lemma_mod_bound(tick_index, t);
    assert(start <= tick_index < start + t) by (nonlinear_arith)
        requires
            tick_index == t * q + tick_index % t,
            0 <= tick_index % t < t,
            start == q * t,
    ;
    vstd::arithmetic::div_mod::lemma_mod_multiples_basic(q, t);
    if spec_out_of_bounds(start) {
        let big_q = 443636int / t;
        vstd::arithmetic::div_mod::lemma_fundamental_div_mod(443636int, t);
        vstd::arithmetic::div_mod::lemma_mod_bound(443636int, t);
        assert(q == -big_q - 1) by (nonlinear_arith)
            requires
                443636 == t * big_q + 443636int % t,
                0 <= 443636int % t < t,
                start == q * t,
                start < -443636,
                -443636 <= tick_index < start + t,
                t > 0,
        ;
        assert(start == -(t * (big_q + 1))) by (nonlinear_arith)
            requires
                q == -big_q - 1,
                start == q * t,
        ;
    }
}

/// Opening a bundled position and then closing it succeeds and leaves every
/// bit of the bundle as it was.
pub proof fn law_bundle_open_then_close(
    before: Seq<u8>,
    opened: Seq<u8>,
    closed: Seq<u8>,
    bundle_index: int,
    r_open: Result<(), ErrorCode>,
    r_close: Result<(), ErrorCode>,
)
    requires
        PositionBundle::spec_update_bitmap_post(before, opened, bundle_index, true, r_open),
        r_open is Ok,
        PositionBundle::spec_update_bitmap_post(opened, closed, bundle_index, false, r_close),
    ensures
        r_close is Ok,
        forall|j: int| 0 <= j < 256 ==> #[trigger] spec_bundle_bit(closed, j) == spec_bundle_bit(before, j),
{
}

/// Writing adaptive fee variables into oracle data and reading them back
/// gives the written variables; the adaptive fee constants read the same
/// before and after the write.
pub proof fn law_oracle_variables_write_then_read(
    data: Seq<u8>,
    written: AdaptiveFeeVariables,
    read: AdaptiveFeeVariables,
    constants: AdaptiveFeeConstants,
)
    requires
        data.len() >= ORACLE_LEN,
        spec_variables_at(spec_overwrite(data, 82, spec_encode_variables(written)), 82, read),
    ensures
        read == written,
        spec_constants_at(spec_overwrite(data, 82, spec_encode_variables(written)), 48, constants)
            == spec_constants_at(data, 48, constants),
{
    vstd::bytes::lemma_auto_spec_u64_to_from_le_bytes();
    vstd::bytes::lemma_auto_spec_u32_to_from_le_bytes();
    let e = spec_encode_variables(written);
    assert(e.len() == 44);
    let d2 = spec_overwrite(data, 82, e);
    assert(d2.subrange(82, 126) =~= e);
    lemma_variables_roundtrip(d2, 82, written, read);
    assert(d2.subrange(48, 50) =~= data.subrange(48, 50));
    assert(d2.subrange(50, 52) =~= data.subrange(50, 52));
    assert(d2.subrange(52, 54) =~= data.subrange(52, 54));
    assert(d2.subrange(54, 58) =~= data.subrange(54, 58));
    assert(d2.subrange(58, 62) =~= data.subrange(58, 62));
    assert(d2.subrange(62, 64) =~= data.subrange(62, 64));
    assert(d2.subrange(64, 66) =~= data.subrange(64, 66));
    assert(d2.subrange(66, 82) =~= data.subrange(66, 82));
}

/// The start indexes of the tick arrays of a swap are at most three, and
/// each is a valid start tick index.
pub proof fn law_start_tick_indexes_valid(current: int, tick_spacing: int, a_to_b: bool)
    ensures
        spec_start_tick_indexes(current, tick_spacing, a_to_b).len() <= 3,
        forall|k: int| 0 <= k < spec_start_tick_indexes(current, tick_spacing, a_to_b).len() ==>
            spec_is_valid_start_tick(#[trigger] spec_start_tick_indexes(current, tick_spacing, a_to_b)[k], tick_spacing),
{
    let cands = crate::sparse_swap::spec_start_candidates(current, tick_spacing, a_to_b);
    let pred = |s: int| spec_is_valid_start_tick(s, tick_spacing);
    cands.lemma_filter_len(pred);
    cands.filter_lemma(pred);
}

/// The tick arrays selected for a swap line up with the start indexes: there
/// are no more of them than start indexes, and the `k`-th starts at the
/// `k`-th start index.
pub proof fn law_selected_arrays_follow_starts(
    loaded: Seq<LoadedTickArray>,
    starts: Seq<int>,
    accounts: Seq<AccountInfo>,
    whirlpool: Seq<u8>,
)
    requires
        forall|k: int| 0 <= k < starts.len() ==> i32::MIN <= #[trigger] starts[k] <= i32::MAX,
    ensures
        spec_select_tick_arrays(loaded, starts, accounts, whirlpool) matches Ok(sel) ==> {
            &&& sel.len() <= starts.len()
            &&& forall|k: int| 0 <= k < sel.len() ==> (#[trigger] sel[k]).spec_start_tick_index() as int == starts[k]
        },
    decreases starts.len(),
{
    if starts.len() > 0 {
        let rest = starts.drop_first();
        assert forall|k: int| 0 <= k < rest.len() implies i32::MIN <= #[trigger] rest[k] <= i32::MAX by {
            assert(rest[k] == starts[k + 1]);
        }
        match spec_find_start(loaded, starts[0]) {
            Some(p) => {
                lemma_find_start_found(loaded, starts[0]);
                law_selected_arrays_follow_starts(loaded.remove(p), rest, accounts, whirlpool);
            },
            None => {
                law_selected_arrays_follow_starts(loaded, rest, accounts, whirlpool);
            },
        }
        match spec_select_tick_arrays(loaded, starts, accounts, whirlpool) {
            Ok(sel) => {
                assert forall|k: int| 0 <= k < sel.len() implies (#[trigger] sel[k]).spec_start_tick_index() as int == starts[k] by {
                    if k > 0 {
                        assert(starts[k] == rest[k - 1]);
                    }
                }
            },
            Err(_) => {},
        }
    }
}

/// The position the search for a start index finds holds an array with that
/// start index.
proof fn lemma_find_start_found(loaded: Seq<LoadedTickArray>, start: int)
    ensures
        spec_find_start(loaded, start) matches Some(p) ==> 0 <= p < loaded.len()
            && loaded[p].spec_start_tick_index() == start,
    decreases loaded.len(),
{
    if loaded.len() > 0 {
        lemma_find_start_found(loaded.drop_last(), start);
    }
}

/// Two address-sorted sequences of accounts with the same addresses, in
/// which accounts of equal address are equal, are the same sequence.
proof fn lemma_sorted_same_keys_equal(r1: Seq<AccountInfo>, r2: Seq<AccountInfo>)
    requires
        spec_sorted_by_key(r1),
        spec_sorted_by_key(r2),
        forall|i: int| 0 <= i < r1.len() ==> spec_has_key(r2, #[trigger] r1[i].key.0@),
        forall|j: int| 0 <= j < r2.len() ==> spec_has_key(r1, #[trigger] r2[j].key.0@),
        forall|i: int, j: int| 0 <= i < r1.len() && 0 <= j < r2.len() && #[trigger] r1[i].key.0@ == #[trigger] r2[j].key.0@
            ==> r1[i] == r2[j],
    ensures
        r1 == r2,
    decreases r1.len() + r2.len(),
{
    if r1.len() == 0 {
        if r2.len() > 0 {
            assert(spec_has_key(r1, r2[0].key.0@));
        }
        assert(r1 =~= r2);
    } else if r2.len() == 0 {
        assert(spec_has_key(r2, r1[0].key.0@));
    } else {
        assert(spec_has_key(r2, r1[0].key.0@));
        let j = choose|j: int| 0 <= j < r2.len() && #[trigger] r2[j].key.0@ == r1[0].key.0@;
        assert(spec_has_key(r1, r2[0].key.0@));
        let i = choose|i: int| 0 <= i < r1.len() && #[trigger] r1[i].key.0@ == r2[0].key.0@;
        if j > 0 {
            assert(spec_key_lt(r2[0].key.0@, r2[j].key.0@));
            if i > 0 {
                assert(spec_key_lt(r1[0].key.0@, r1[i].key.0@));
                crate::sparse_swap::lemma_key_lt_asym(r1[0].key.0@, r1[i].key.0@);
            }
            crate::sparse_swap::lemma_key_lt_asym(r2[0].key.0@, r2[j].key.0@);
        }
        assert(r1[0] == r2[0]);
        let t1 = r1.drop_first();
        let t2 = r2.drop_first();
        assert forall|a: int| 0 <= a < t1.len() implies spec_has_key(t2, #[trigger] t1[a].key.0@) by {
            assert(t1[a] == r1[a + 1]);
            assert(spec_has_key(r2, r1[a + 1].key.0@));
            let b = choose|b: int| 0 <= b < r2.len() && #[trigger] r2[b].key.0@ == r1[a + 1].key.0@;
            assert(spec_key_lt(r1[0].key.0@, r1[a + 1].key.0@));
            if b == 0 {
                crate::sparse_swap::lemma_key_lt_asym(r1[0].key.0@, r1[a + 1].key.0@);
            }
            assert(t2[b - 1] == r2[b]);
        }
        assert forall|b: int| 0 <= b < t2.len() implies spec_has_key(t1, #[trigger] t2[b].key.0@) by {
            assert(t2[b] == r2[b + 1]);
            assert(spec_has_key(r1, r2[b + 1].key.0@));
            let a = choose|a: int| 0 <= a < r1.len() && #[trigger] r1[a].key.0@ == r2[b + 1].key.0@;
            assert(spec_key_lt(r2[0].key.0@, r2[b + 1].key.0@));
            if a == 0 {
                crate::sparse_swap::lemma_key_lt_asym(r2[0].key.0@, r2[b + 1].key.0@);
            }
            assert(t1[a - 1] == r1[a]);
        }
        assert forall|a: int, b: int| 0 <= a < t1.len() && 0 <= b < t2.len() && #[trigger] t1[a].key.0@ == #[trigger] t2[b].key.0@
            implies t1[a] == t2[b] by {
            assert(t1[a] == r1[a + 1]);
            assert(t2[b] == r2[b + 1]);
        }
        assert forall|a: int, b: int| 0 <= a < b < t1.len() implies spec_key_lt(#[trigger] t1[a].key.0@, #[trigger] t1[b].key.0@) by {
            assert(t1[a] == r1[a + 1]);
            assert(t1[b] == r1[b + 1]);
        }
        assert forall|a: int, b: int| 0 <= a < b < t2.len() implies spec_key_lt(#[trigger] t2[a].key.0@, #[trigger] t2[b].key.0@) by {
            assert(t2[a] == r2[a + 1]);
            assert(t2[b] == r2[b + 1]);
        }
        lemma_sorted_same_keys_equal(t1, t2);
        assert(r1 =~= r2) by {
            assert forall|a: int| 0 <= a < r1.len() implies r1[a] == r2[a] by {
                if a > 0 {
                    assert(r1[a] == t1[a - 1]);
                    assert(r2[a] == t2[a - 1]);
                }
            }
        }
    }
}

/// The first account of `s` with a given address is unique.
proof fn lemma_first_of_key_unique(s: Seq<AccountInfo>, a: AccountInfo, b: AccountInfo)
    requires
        spec_first_of_key(s, a),
        spec_first_of_key(s, b),
        a.key.0@ == b.key.0@,
    ensures
        a == b,
{
    let ka = choose|k: int| 0 <= k < s.len() && #[trigger] s[k] == a && spec_first_with_key(s, k);
    let kb = choose|k: int| 0 <= k < s.len() && #[trigger] s[k] == b && spec_first_with_key(s, k);
    if ka < kb {
        assert(s[ka].key.0@ != s[kb].key.0@);
    } else if kb < ka {
        assert(s[kb].key.0@ != s[ka].key.0@);
    }
}

/// Merging and deduplicating accounts by address has one outcome.
pub proof fn law_sorted_dedup_unique(s: Seq<AccountInfo>, r1: Seq<AccountInfo>, r2: Seq<AccountInfo>)
    requires
        spec_sorted_dedup(s, r1),
        spec_sorted_dedup(s, r2),
    ensures
        r1 == r2,
{
    assert forall|i: int| 0 <= i < r1.len() implies spec_has_key(r2, #[trigger] r1[i].key.0@) by {
        assert(spec_first_of_key(s, r1[i]));
        let k = choose|k: int| 0 <= k < s.len() && #[trigger] s[k] == r1[i] && spec_first_with_key(s, k);
        assert(spec_has_key(r2, s[k].key.0@));
    }
    assert forall|j: int| 0 <= j < r2.len() implies spec_has_key(r1, #[trigger] r2[j].key.0@) by {
        assert(spec_first_of_key(s, r2[j]));
        let k = choose|k: int| 0 <= k < s.len() && #[trigger] s[k] == r2[j] && spec_first_with_key(s, k);
        assert(spec_has_key(r1, s[k].key.0@));
    }
    assert forall|i: int, j: int| 0 <= i < r1.len() && 0 <= j < r2.len() && #[trigger] r1[i].key.0@ == #[trigger] r2[j].key.0@
        implies r1[i] == r2[j] by {
        lemma_first_of_key_unique(s, r1[i], r2[j]);
    }
    lemma_sorted_same_keys_equal(r1, r2);
}

/// The order in which tick array accounts are given does not matter: two
/// lists with the same accounts, each address once, give the same accounts
/// in the same order.
pub proof fn law_builder_any_order(s1: Seq<AccountInfo>, s2: Seq<AccountInfo>, r1: Seq<AccountInfo>, r2: Seq<AccountInfo>)
    requires
        forall|a: int, b: int| 0 <= a < b < s1.len() ==> #[trigger] s1[a].key.0@ != #[trigger] s1[b].key.0@,
        forall|a: int, b: int| 0 <= a < b < s2.len() ==> #[trigger] s2[a].key.0@ != #[trigger] s2[b].key.0@,
        forall|x: AccountInfo| s1.contains(x) <==> s2.contains(x),
        spec_sorted_dedup(s1, r1),
        spec_sorted_dedup(s2, r2),
    ensures
        r1 == r2,
{
    assert forall|j: int| 0 <= j < r1.len() implies spec_first_of_key(s2, #[trigger] r1[j]) by {
        assert(spec_first_of_key(s1, r1[j]));
        let k = choose|k: int| 0 <= k < s1.len() && #[trigger] s1[k] == r1[j] && spec_first_with_key(s1, k);
        assert(s1.contains(s1[k]));
        assert(s2.contains(r1[j]));
        let k2 = choose|k2: int| 0 <= k2 < s2.len() && s2[k2] == r1[j];
        assert(spec_first_with_key(s2, k2));
    }
    assert forall|k: int| 0 <= k < s2.len() implies spec_has_key(r1, #[trigger] s2[k].key.0@) by {
        assert(s2.contains(s2[k]));
        assert(s1.contains(s2[k]));
        let k1 = choose|k1: int| 0 <= k1 < s1.len() && s1[k1] == s2[k];
        assert(spec_has_key(r1, s1[k1].key.0@));
    }
    law_sorted_dedup_unique(s2, r1, r2);
}

/// The volatility accumulator never exceeds its maximum; in the reference
/// tick group it is the volatility reference, capped at the maximum.
pub proof fn law_volatility_accumulator_capped(v: AdaptiveFeeVariables, tick_group_index: i32, max: u32)
    ensures
        spec_volatility_accumulator(v, tick_group_index, max) <= max,
        tick_group_index == v.tick_group_index_reference ==> spec_volatility_accumulator(v, tick_group_index, max)
            == (if v.volatility_reference <= max { v.volatility_reference } else { max }),
{
}

/// With a reduction factor below its denominator, moving the reference
/// either leaves the variables as they were or sets a volatility reference
/// no larger than the volatility accumulator.
pub proof fn law_reference_decays(v: AdaptiveFeeVariables, tick_group_index: i32, now: u64, c: AdaptiveFeeConstants)
    requires
        c.reduction_factor < REDUCTION_FACTOR_DENOMINATOR,
    ensures
        spec_update_reference(v, tick_group_index, now, c) matches Ok(after) ==>
            after == v || after.volatility_reference <= v.volatility_accumulator,
{
    let a = v.volatility_accumulator as int;
    let f = c.reduction_factor as int;
    assert(a * f / 10000 <= a) by (nonlinear_arith)
        requires 0 <= a, 0 <= f < 10000;
    assert(0 <= a * f / 10000) by (nonlinear_arith)
        requires 0 <= a, 0 <= f;
}

/// Decoding the bytes a fixed tick array encodes to succeeds and gives back
/// its start index, its ticks and its pool.
pub proof fn law_fixed_encode_then_decode(a: TickArray, s: Seq<u8>, b: TickArray)
    requires
        spec_fixed_array_bytes(a, s),
    ensures
        spec_fixed_flags_ok(s),
        spec_fixed_array_at(s, b) ==> {
            &&& b.spec_start_tick_index() == a.spec_start_tick_index()
            &&& b.spec_ticks() == a.spec_ticks()
            &&& b.spec_whirlpool() == a.spec_whirlpool()
        },
{
    assert forall|k: int| 0 <= k < 88 implies (#[trigger] s[4 + 113 * k] == 0 || s[4 + 113 * k] == 1) by {
        let t = a.spec_ticks()[k];
        assert(s.subrange(4 + 113 * k, 4 + 113 * k + 113) == crate::fixed_tick_array::spec_encode_fixed_tick(t));
        assert(s[4 + 113 * k] == s.subrange(4 + 113 * k, 4 + 113 * k + 113)[0]);
    }
    if spec_fixed_array_at(s, b) {
        vstd::bytes::lemma_auto_spec_u32_to_from_le_bytes();
        let x = a.spec_start_tick_index();
        assert(s.subrange(0, 4) == vstd::bytes::spec_u32_to_le_bytes(x as u32));
        assert((x as u32) as i32 == x) by (bit_vector);
        let w = s.subrange(0, 4);
        assert(vstd::bytes::spec_u32_to_le_bytes(x as u32).len() == 4);
        assert(vstd::bytes::spec_u32_from_le_bytes(w) == x as u32);
        assert(crate::oracle_accessor::u32_at(s, 0) == vstd::bytes::spec_u32_from_le_bytes(w));
        assert(b.spec_start_tick_index() == x);
        assert(b.spec_ticks().len() == 88 && a.spec_ticks().len() == 88) by {
            crate::fixed_tick_array::lemma_ticks_len(a);
            crate::fixed_tick_array::lemma_ticks_len(b);
        }
        assert forall|k: int| 0 <= k < 88 implies b.spec_ticks()[k] == a.spec_ticks()[k] by {
            let t = a.spec_ticks()[k];
            let p = 4 + 113 * k;
            let enc = crate::fixed_tick_array::spec_encode_fixed_tick(t);
            assert(s.subrange(p, p + 113) == enc);
            let d = crate::dynamic_tick_array::DynamicTickData {
                liquidity_net: t.liquidity_net,
                liquidity_gross: t.liquidity_gross,
                fee_growth_outside_a: t.fee_growth_outside_a,
                fee_growth_outside_b: t.fee_growth_outside_b,
                reward_growths_outside: t.reward_growths_outside,
            };
            crate::dynamic_tick_array::lemma_decode_encode_data(d);
            assert(s.subrange(p + 1, p + 113) =~= crate::dynamic_tick_array::spec_encode_data(d)) by {
                assert(s.subrange(p + 1, p + 113) =~= enc.subrange(1, 113));
            }
            assert(s[p] == enc[0]);
            let u = b.spec_ticks()[k];
            assert(crate::fixed_tick_array::spec_fixed_tick_at(s, p, u));
        }
        assert(b.spec_ticks() =~= a.spec_ticks());
    }
}

/// Searching down from an offset reads only the initialized flags.
proof fn lemma_search_down_flags(t1: Seq<Tick>, t2: Seq<Tick>, from: int)
    requires
        t1.len() == 88,
        t2.len() == 88,
        from < 88,
        forall|k: int| 0 <= k < 88 ==> #[trigger] t1[k].initialized == t2[k].initialized,
    ensures
        crate::tick_array::spec_search_down(t1, from) == crate::tick_array::spec_search_down(t2, from),
    decreases from + 1,
{
    if from >= 0 {
        assert(t1[from].initialized == t2[from].initialized);
        lemma_search_down_flags(t1, t2, from - 1);
    }
}

/// Searching up from an offset reads only the initialized flags.
proof fn lemma_search_up_flags(t1: Seq<Tick>, t2: Seq<Tick>, from: int)
    requires
        t1.len() == 88,
        t2.len() == 88,
        forall|k: int| 0 <= k < 88 ==> #[trigger] t1[k].initialized == t2[k].initialized,
    ensures
        crate::tick_array::spec_search_up(t1, from) == crate::tick_array::spec_search_up(t2, from),
    decreases 88 - from,
{
    if 0 <= from < 88 {
        assert(t1[from].initialized == t2[from].initialized);
        lemma_search_up_flags(t1, t2, from + 1);
    }
}

/// The search for the next initialized tick reads only which ticks are
/// initialized: two arrays with the same start and the same initialized
/// ticks give the same result for every tick index, spacing and direction.
pub proof fn law_next_init_reads_flags(
    t1: Seq<Tick>,
    t2: Seq<Tick>,
    start: int,
    tick_index: int,
    tick_spacing: int,
    a_to_b: bool,
)
    requires
        t1.len() == 88,
        t2.len() == 88,
        forall|k: int| 0 <= k < 88 ==> #[trigger] t1[k].initialized == t2[k].initialized,
    ensures
        crate::tick_array::spec_next_init_tick_index(t1, start, tick_index, tick_spacing, a_to_b)
            == crate::tick_array::spec_next_init_tick_index(t2, start, tick_index, tick_spacing, a_to_b),
{
    let offset = crate::tick_array::spec_tick_offset(start, tick_index, tick_spacing);
    if spec_in_search_range(start, tick_index, tick_spacing, !a_to_b) {
        if a_to_b {
            if offset < 88 {
                lemma_search_down_flags(t1, t2, offset);
            } else {
                // out of the array: the search reads no flag it could disagree on
                assert(spec_in_search_range(start, tick_index, tick_spacing, false));
                assert(tick_spacing > 0) by {
                    if tick_spacing <= 0 {
                        assert(88 * tick_spacing <= 0) by (nonlinear_arith) requires tick_spacing <= 0;
                    }
                }
                lemma_slot_bound(start, tick_index, tick_spacing);
            }
        } else {
            lemma_search_up_flags(t1, t2, offset + 1);
        }
    }
}

/// Within the unshifted range the offset is below 88.
proof fn lemma_slot_bound(start: int, tick_index: int, tick_spacing: int)
    requires
        tick_spacing > 0,
        spec_in_search_range(start, tick_index, tick_spacing, false),
    ensures
        crate::tick_array::spec_tick_offset(start, tick_index, tick_spacing) < 88,
{
    let d = tick_index - start;
    vstd::arithmetic::div_mod::lemma_fundamental_div_mod(d, tick_spacing);
    vstd::arithmetic::div_mod::lemma_mod_bound(d, tick_spacing);
    let q = d / tick_spacing;
    assert(q < 88) by (nonlinear_arith)
        requires
            d == tick_spacing * q + d % tick_spacing,
            0 <= d % tick_spacing,
            d < 88 * tick_spacing,
            tick_spacing > 0,
    ;
}

/// A variable-size array whose bitmap marks the same ticks initialized as a
/// fixed array with the same start finds the same next initialized tick,
/// for every tick index, spacing and direction.
pub proof fn law_dynamic_and_fixed_search_agree(
    d: DynamicTickArrayLoader,
    f: TickArray,
    tick_index: int,
    tick_spacing: int,
    a_to_b: bool,
)
    requires
        d.wf(),
        d.spec_start_tick_index() == f.spec_start_tick_index(),
        forall|k: int| 0 <= k < 88 ==> #[trigger] spec_bit(spec_bitmap(d.spec_data()), k) == f.spec_ticks()[k].initialized,
    ensures
        crate::tick_array::spec_next_init_tick_index(d.spec_ticks(), d.spec_start_tick_index() as int,
            tick_index, tick_spacing, a_to_b)
        == crate::tick_array::spec_next_init_tick_index(f.spec_ticks(), f.spec_start_tick_index() as int,
            tick_index, tick_spacing, a_to_b),
{
    d.lemma_view();
    crate::fixed_tick_array::lemma_ticks_len(f);
    assert forall|k: int| 0 <= k < 88 implies #[trigger] d.spec_ticks()[k].initialized == f.spec_ticks()[k].initialized by {
        crate::dynamic_tick_layout::lemma_layout_initialized(d.spec_data(), k);
        assert(spec_bit(spec_bitmap(d.spec_data()), k) == f.spec_ticks()[k].initialized);
    }
    law_next_init_reads_flags(d.spec_ticks(), f.spec_ticks(), d.spec_start_tick_index() as int,
        tick_index, tick_spacing, a_to_b);
}

/// A variable-size array stores an initialized update as the tick with its
/// values, and an uninitialized one as the zero tick; a fixed array stores
/// every update as the tick with its values.
pub proof fn law_stored_tick(d: DynamicTickArrayLoader, f: TickArray, u: TickUpdate)
    ensures
        d.spec_stored_tick(u) == (if u.initialized { Tick::spec_from_update(u) } else { spec_zero_tick() }),
        f.spec_stored_tick(u) == Tick::spec_from_update(u),
{
}

/// A range whose bounds are both uninitialized has no growth inside it,
/// wherever the current tick lies: by convention all growth up to now
/// happened below an uninitialized tick.
pub proof fn law_fresh_range_has_no_growth_inside(
    tick_current_index: int,
    tick_lower_index: int,
    outside_lower: u128,
    tick_upper_index: int,
    outside_upper: u128,
    global: u128,
)
    ensures
        spec_growth_inside(tick_current_index, false, tick_lower_index, outside_lower, false,
            tick_upper_index, outside_upper, global) == 0,
{
}

/// Reading growth inside from an uninitialized lower bound gives the same as
/// reading it from that bound once a liquidity change has initialized it
/// (growth outside = global when the current tick is at or above it, zero
/// otherwise); with an upper bound initialized the same way, the growth
/// inside a range the position has just entered is zero either way.
pub proof fn law_uninitialized_lower_counts_all_growth_below(
    tick_current_index: int,
    tick_lower_index: int,
    outside_lower: u128,
    tick_upper_index: int,
    global: u128,
)
    requires
        tick_lower_index < tick_upper_index,
    ensures
        ({
            let fresh_lower = if tick_current_index >= tick_lower_index { global } else { 0 };
            let fresh_upper = if tick_current_index >= tick_upper_index { global } else { 0 };
            &&& spec_growth_inside(tick_current_index, false, tick_lower_index, outside_lower, true,
                    tick_upper_index, fresh_upper, global) == 0
            &&& spec_growth_inside(tick_current_index, true, tick_lower_index, fresh_lower, true,
                    tick_upper_index, fresh_upper, global) == 0
        }),
{
}

/// The same convention for rewards: fresh bounds give no reward growth
/// inside, for every reward.
pub proof fn law_fresh_range_has_no_reward_growth_inside(
    tick_current_index: int,
    tick_lower: Tick,
    tick_lower_index: int,
    tick_upper: Tick,
    tick_upper_index: int,
    info: WhirlpoolRewardInfo,
    i: int,
)
    requires
        !tick_lower.initialized,
        !tick_upper.initialized,
    ensures
        spec_reward_growth_inside(tick_current_index, tick_lower, tick_lower_index, tick_upper,
            tick_upper_index, info, i) == 0,
{
}

/// A swap within the filter period of the later of the last reference
/// update and the last major swap leaves the adaptive fee variables as they
/// are (while the reference is at most an hour old); a time before either of
/// them is `InvalidTimestamp`.
pub proof fn law_update_reference_filter_period(
    v: AdaptiveFeeVariables,
    tick_group_index: i32,
    now: u64,
    c: AdaptiveFeeConstants,
)
    ensures
        now < v.last_reference_update_timestamp || now < v.last_major_swap_timestamp ==>
            spec_update_reference(v, tick_group_index, now, c) == Err::<AdaptiveFeeVariables, ErrorCode>(ErrorCode::InvalidTimestamp),
        (v.last_reference_update_timestamp <= now && v.last_major_swap_timestamp <= now
            && now - v.last_reference_update_timestamp <= 3600
            && (now - v.last_reference_update_timestamp < c.filter_period
                || now - v.last_major_swap_timestamp < c.filter_period))
            ==> spec_update_reference(v, tick_group_index, now, c) == Ok::<AdaptiveFeeVariables, ErrorCode>(v),
{
}

/// The volatility accumulator is the volatility reference plus 10_000 for
/// each tick group between the reference group and the current one, capped
/// at the maximum; it does not depend on the direction of the move and is
/// never below the capped reference.
pub proof fn law_volatility_accumulator_value(v: AdaptiveFeeVariables, tick_group_index: i32, max: u32)
    ensures
        ({
            let d = v.tick_group_index_reference as int - tick_group_index as int;
            let groups = if d >= 0 { d } else { -d };
            let raw = v.volatility_reference as int + groups * 10000;
            spec_volatility_accumulator(v, tick_group_index, max) as int == (if raw <= max { raw } else { max as int })
        }),
        spec_volatility_accumulator(v, tick_group_index, max) >= (if v.volatility_reference <= max {
            v.volatility_reference } else { max }),
{
}

/// Moving k tick groups up or k tick groups down from the reference group
/// gives the same volatility accumulator.
pub proof fn law_volatility_accumulator_symmetric(v: AdaptiveFeeVariables, up: i32, down: i32, max: u32)
    requires
        up as int - v.tick_group_index_reference as int == v.tick_group_index_reference as int - down as int,
    ensures
        spec_volatility_accumulator(v, up, max) == spec_volatility_accumulator(v, down, max),
{
}

/// A tick range accepted for a pool has both bounds in the supported range
/// and multiples of the tick spacing, the lower one below the upper one; and
/// such a range is accepted by a pool that allows any range.
pub proof fn law_valid_tick_range(tick_spacing: u16, lower: i32, upper: i32)
    ensures
        spec_validate_tick_range(tick_spacing, lower, upper) is Ok ==> {
            &&& -443636 <= lower <= 443636
            &&& -443636 <= upper <= 443636
            &&& lower as int % tick_spacing as int == 0
            &&& upper as int % tick_spacing as int == 0
            &&& lower < upper
        },
        (tick_spacing < 32768 && -443636 <= lower < upper <= 443636
            && lower as int % tick_spacing as int == 0 && upper as int % tick_spacing as int == 0)
            ==> spec_validate_tick_range(tick_spacing, lower, upper) is Ok,
{
}

/// A position is empty exactly when it holds no liquidity and owes no fee in
/// either token and no reward.
pub proof fn law_position_empty(p: Position)
    ensures
        spec_position_empty(p) <==> {
            &&& p.liquidity == 0
            &&& p.fee_owed_a == 0
            &&& p.fee_owed_b == 0
            &&& p.reward_infos@[0].amount_owed == 0
            &&& p.reward_infos@[1].amount_owed == 0
            &&& p.reward_infos@[2].amount_owed == 0
        },
{
    if p.reward_infos@[0].amount_owed == 0 && p.reward_infos@[1].amount_owed == 0
        && p.reward_infos@[2].amount_owed == 0 {
        assert forall|i: int| 0 <= i < 3 implies #[trigger] p.reward_infos@[i].amount_owed == 0 by {
            if i == 0 {} else if i == 1 {} else {}
        }
    }
}

/// With both bounds initialized, the growth inside a range is, modulo
/// 2^128: the global growth minus both growths outside when the current
/// tick is inside the range; the lower bound's growth outside minus the
/// upper's when the current tick is below the range; the upper's minus the
/// lower's when it is at or above the upper bound.
pub proof fn law_growth_inside_initialized(
    tick_current_index: int,
    tick_lower_index: int,
    outside_lower: u128,
    tick_upper_index: int,
    outside_upper: u128,
    global: u128,
)
    requires
        tick_lower_index < tick_upper_index,
    ensures
        ({
            let m = 0x1_0000_0000_0000_0000_0000_0000_0000_0000int;
            let inside = spec_growth_inside(tick_current_index, true, tick_lower_index, outside_lower, true,
                tick_upper_index, outside_upper, global) as int;
            &&& tick_lower_index <= tick_current_index < tick_upper_index ==>
                inside == (global - outside_lower - outside_upper) % m
            &&& tick_current_index < tick_lower_index ==> inside == (outside_lower - outside_upper) % m
            &&& tick_upper_index <= tick_current_index ==> inside == (outside_upper - outside_lower) % m
        }),
{
    let m = 0x1_0000_0000_0000_0000_0000_0000_0000_0000int;
    let g = global as int;
    let l = outside_lower as int;
    let u = outside_upper as int;
    if tick_lower_index <= tick_current_index && tick_current_index < tick_upper_index {
        let x = growth_sub(global, outside_lower) as int;
        assert(x == (g - l) % m) by {
            if g >= l { vstd::arithmetic::div_mod::lemma_small_mod((g - l) as nat, m as nat); }
            else { vstd::arithmetic::div_mod::lemma_mod_add_multiples_vanish(g - l, m);
                   vstd::arithmetic::div_mod::lemma_small_mod((g - l + m) as nat, m as nat); }
        }
        lemma_growth_sub_mod(growth_sub(global, outside_lower), outside_upper);
        vstd::arithmetic::div_mod::lemma_sub_mod_noop(g - l, u, m);
        vstd::arithmetic::div_mod::lemma_mod_twice(g - l, m);
    } else if tick_current_index < tick_lower_index {
        // below = global - lower; inside = global - (global - lower) - upper
        let below = growth_sub(global, outside_lower);
        lemma_growth_sub_mod(global, outside_lower);
        lemma_growth_sub_mod(global, below);
        lemma_growth_sub_mod(growth_sub(global, below), outside_upper);
        lemma_mod_sub_chain(g, l, u, m);
    } else {
        let above = growth_sub(global, outside_upper);
        lemma_growth_sub_mod(global, outside_upper);
        lemma_growth_sub_mod(global, outside_lower);
        lemma_growth_sub_mod(growth_sub(global, outside_lower), above);
        lemma_mod_sub_chain2(g, l, u, m);
    }
}

/// `growth_sub` is subtraction modulo 2^128.
proof fn lemma_growth_sub_mod(a: u128, b: u128)
    ensures
        growth_sub(a, b) as int == (a as int - b as int) % 0x1_0000_0000_0000_0000_0000_0000_0000_0000int,
{
    let m = 0x1_0000_0000_0000_0000_0000_0000_0000_0000int;
    if a >= b {
        vstd::arithmetic::div_mod::lemma_small_mod((a - b) as nat, m as nat);
    } else {
        vstd::arithmetic::div_mod::lemma_mod_add_multiples_vanish(a - b, m);
        vstd::arithmetic::div_mod::lemma_small_mod((a - b + m) as nat, m as nat);
    }
}

/// ((g - ((g - l) mod m)) mod m - u) mod m == (l - u) mod m.
proof fn lemma_mod_sub_chain(g: int, l: int, u: int, m: int)
    requires
        m > 0,
    ensures
        ((g - (g - l) % m) % m - u) % m == (l - u) % m,
{
    let x = g - (g - l) % m;
    vstd::arithmetic::div_mod::lemma_sub_mod_noop_right(g, g - l, m);
    assert(g - (g - l) == l);
    assert(x % m == l % m);
    vstd::arithmetic::div_mod::lemma_mod_twice(x, m);
    vstd::arithmetic::div_mod::lemma_sub_mod_noop(x % m, u, m);
    vstd::arithmetic::div_mod::lemma_sub_mod_noop(l, u, m);
}

/// ((g - l) mod m - (g - u) mod m) mod m == (u - l) mod m.
proof fn lemma_mod_sub_chain2(g: int, l: int, u: int, m: int)
    requires
        m > 0,
    ensures
        ((g - l) % m - (g - u) % m) % m == (u - l) % m,
{
    vstd::arithmetic::div_mod::lemma_sub_mod_noop(g - l, g - u, m);
    assert((g - l) - (g - u) == u - l);
}

/// Outside the filter period of the later of the last reference update and
/// the last major swap, and with a reference at most an hour old, a swap
/// moves the reference to the current tick group at the current time: within
/// the decay period the volatility reference becomes the accumulator scaled
/// by the reduction factor over 10_000, after it zero. A reference older
/// than an hour is reset to zero volatility.
pub proof fn law_update_reference_moves(
    v: AdaptiveFeeVariables,
    tick_group_index: i32,
    now: u64,
    c: AdaptiveFeeConstants,
)
    requires
        v.last_reference_update_timestamp <= now,
        v.last_major_swap_timestamp <= now,
        c.reduction_factor < REDUCTION_FACTOR_DENOMINATOR,
    ensures
        now - v.last_reference_update_timestamp > 3600 ==>
            spec_update_reference(v, tick_group_index, now, c) == Ok::<AdaptiveFeeVariables, ErrorCode>(AdaptiveFeeVariables {
                tick_group_index_reference: tick_group_index,
                volatility_reference: 0,
                last_reference_update_timestamp: now,
                ..v
            }),
        now - v.last_reference_update_timestamp <= 3600
            && now - v.last_reference_update_timestamp >= c.filter_period
            && now - v.last_major_swap_timestamp >= c.filter_period
            ==> (spec_update_reference(v, tick_group_index, now, c) matches Ok(after) && {
                &&& after.tick_group_index_reference == tick_group_index
                &&& after.last_reference_update_timestamp == now
                &&& after.last_major_swap_timestamp == v.last_major_swap_timestamp
                &&& after.volatility_accumulator == v.volatility_accumulator
                &&& after.volatility_reference as int == (
                    if now - v.last_reference_update_timestamp < c.decay_period
                        || now - v.last_major_swap_timestamp < c.decay_period {
                        v.volatility_accumulator as int * c.reduction_factor as int / 10000
                    } else {
                        0
                    })
            }),
{
    let a = v.volatility_accumulator as int;
    let f = c.reduction_factor as int;
    assert(0 <= a * f / 10000 <= a) by (nonlinear_arith)
        requires 0 <= a <= u32::MAX, 0 <= f < 10000;
}

/// A pool that only allows full-range positions accepts only the range from
/// the lowest to the highest usable tick: no usable tick lies beyond the
/// accepted upper bound and the lower bound is its negation.
pub proof fn law_full_range_only(tick_spacing: u16, lower: i32, upper: i32)
    requires
        tick_spacing >= 32768,
        spec_validate_tick_range(tick_spacing, lower, upper) is Ok,
    ensures
        upper + tick_spacing > 443636,
        lower == -upper,
{
    law_full_range_usable(tick_spacing as int);
}

} // verus!
