use vstd::prelude::*;

verus! {

/// Largest tick index the protocol supports (price of about 2^64).
pub const MAX_TICK_INDEX: i32 = 443636;
/// Smallest tick index the protocol supports (price of about 2^-64).
pub const MIN_TICK_INDEX: i32 = -443636;
/// Number of reward tokens a pool can emit.
pub const NUM_REWARDS: usize = 3;
/// Number of ticks held by one tick array.
pub const TICK_ARRAY_SIZE: i32 = 88;
/// `TICK_ARRAY_SIZE` as a `usize`.
pub const TICK_ARRAY_SIZE_USIZE: usize = 88;
/// Serialized size of a tick in a fixed tick array.
pub const TICK_LEN: usize = 113;

/// A tick: a price boundary at which liquidity is added or removed.
#[derive(Clone, Copy, Debug, PartialEq)]
pub struct Tick {
    pub initialized: bool,
    pub liquidity_net: i128,
    pub liquidity_gross: u128,
    /// Q64.64 fee growth of token A on the other side of this tick.
    pub fee_growth_outside_a: u128,
    /// Q64.64 fee growth of token B on the other side of this tick.
    pub fee_growth_outside_b: u128,
    /// Q64.64 reward growths on the other side of this tick.
    pub reward_growths_outside: [u128; NUM_REWARDS],
}

/// The new values of a tick after an operation.
#[derive(Clone, Copy, Debug, PartialEq)]
pub struct TickUpdate {
    pub initialized: bool,
    pub liquidity_net: i128,
    pub liquidity_gross: u128,
    pub fee_growth_outside_a: u128,
    pub fee_growth_outside_b: u128,
    pub reward_growths_outside: [u128; NUM_REWARDS],
}

/// Three zero reward growths.
pub open spec fn zero_rewards() -> Seq<u128> {
    seq![0u128, 0u128, 0u128]
}

/// Three zero reward growths.
pub fn zero_reward_growths() -> (r: [u128; NUM_REWARDS])
    ensures
        r@ == zero_rewards(),
{
    let r: [u128; NUM_REWARDS] = [0, 0, 0];
    assert(r@ =~= zero_rewards());
    r
}

impl Tick {
    /// True of the tick that `Tick::default` builds: uninitialized, all zero.
    pub open spec fn is_zero(self) -> bool {
        &&& !self.initialized
        &&& self.liquidity_net == 0
        &&& self.liquidity_gross == 0
        &&& self.fee_growth_outside_a == 0
        &&& self.fee_growth_outside_b == 0
        &&& self.reward_growths_outside@ == zero_rewards()
    }

    /// The tick that holds exactly the values of `u`.
    pub open spec fn spec_from_update(u: TickUpdate) -> Tick {
        Tick {
            initialized: u.initialized,
            liquidity_net: u.liquidity_net,
            liquidity_gross: u.liquidity_gross,
            fee_growth_outside_a: u.fee_growth_outside_a,
            fee_growth_outside_b: u.fee_growth_outside_b,
            reward_growths_outside: u.reward_growths_outside,
        }
    }

    /// An uninitialized tick with every value zero.
    pub fn default() -> (r: Tick)
        ensures
            r.is_zero(),
    {
        Tick {
            initialized: false,
            liquidity_net: 0,
            liquidity_gross: 0,
            fee_growth_outside_a: 0,
            fee_growth_outside_b: 0,
            reward_growths_outside: zero_reward_growths(),
        }
    }

    /// The tick that holds the values of `update`.
    pub fn from_update(update: TickUpdate) -> (r: Tick)
        ensures
            r == Tick::spec_from_update(update),
    {
        Tick {
            initialized: update.initialized,
            liquidity_net: update.liquidity_net,
            liquidity_gross: update.liquidity_gross,
            fee_growth_outside_a: update.fee_growth_outside_a,
            fee_growth_outside_b: update.fee_growth_outside_b,
            reward_growths_outside: update.reward_growths_outside,
        }
    }

    /// Apply an update to this tick: every field takes the value of `update`.
    pub fn update(&mut self, update: &TickUpdate)
        ensures
            *final(self) == Tick::spec_from_update(*update),
    {
        self.initialized = update.initialized;
        self.liquidity_net = update.liquidity_net;
        self.liquidity_gross = update.liquidity_gross;
        self.fee_growth_outside_a = update.fee_growth_outside_a;
        self.fee_growth_outside_b = update.fee_growth_outside_b;
        self.reward_growths_outside = update.reward_growths_outside;
    }

    /// True when the tick index lies outside the range the protocol supports.
    pub fn check_is_out_of_bounds(tick_index: i32) -> (r: bool)
        ensures
            r == spec_out_of_bounds(tick_index as int),
    {
        tick_index < MIN_TICK_INDEX || tick_index > MAX_TICK_INDEX
    }

    /// True when the tick index can start a tick array for this tick spacing:
    /// a multiple of the ticks spanned by one array, within the supported
    /// range, or else the start of the left-most array, which may lie below
    /// the smallest tick index.
    pub fn check_is_valid_start_tick(tick_index: i32, tick_spacing: u16) -> (r: bool)
        requires
            tick_spacing > 0 || tick_index > MAX_TICK_INDEX,
        ensures
            r == spec_is_valid_start_tick(tick_index as int, tick_spacing as int),
    {
        let ticks_in_array = TICK_ARRAY_SIZE * tick_spacing as i32;

        if Tick::check_is_out_of_bounds(tick_index) {
            if tick_index > MIN_TICK_INDEX {
                return false;
            }
            let min_array_start_index =
                MIN_TICK_INDEX - (MIN_TICK_INDEX % ticks_in_array + ticks_in_array);
            proof {
                lemma_min_array_start(ticks_in_array as int);
            }
            return tick_index == min_array_start_index;
        }
        proof {
            lemma_truncated_rem_zero(tick_index as int, ticks_in_array as int);
        }
        tick_index % ticks_in_array == 0
    }

    /// True when the tick index is within the supported range and a multiple
    /// of the tick spacing.
    pub fn check_is_usable_tick(tick_index: i32, tick_spacing: u16) -> (r: bool)
        requires
            tick_spacing > 0 || spec_out_of_bounds(tick_index as int),
        ensures
            r == spec_is_usable_tick(tick_index as int, tick_spacing as int),
    {
        if Tick::check_is_out_of_bounds(tick_index) {
            return false;
        }
        proof {
            lemma_truncated_rem_zero(tick_index as int, tick_spacing as int);
        }
        tick_index % tick_spacing as i32 == 0
    }

    /// The lowest and highest usable tick indexes for this tick spacing.
    pub fn full_range_indexes(tick_spacing: u16) -> (r: (i32, i32))
        requires
            tick_spacing > 0,
        ensures
            r.0 == -spec_full_range_upper(tick_spacing as int),
            r.1 == spec_full_range_upper(tick_spacing as int),
    {
        let s = tick_spacing as i32;
        let lower_quotient = MIN_TICK_INDEX / s;
        let upper_quotient = MAX_TICK_INDEX / s;
        proof {
            let si = s as int;
            assert(0 <= 443636int / si * si <= 443636) by (nonlinear_arith)
                requires si > 0;
            assert(lower_quotient == -upper_quotient);
            assert(lower_quotient * si == -(upper_quotient * si)) by (nonlinear_arith)
                requires lower_quotient == -upper_quotient;
        }
        let lower_index = lower_quotient * s;
        let upper_index = upper_quotient * s;
        (lower_index, upper_index)
    }

    /// The tick index clamped to the supported range.
    pub fn bound_tick_index(tick_index: i32) -> (r: i32)
        ensures
            r == spec_bound_tick_index(tick_index as int),
    {
        if tick_index < MIN_TICK_INDEX {
            MIN_TICK_INDEX
        } else if tick_index > MAX_TICK_INDEX {
            MAX_TICK_INDEX
        } else {
            tick_index
        }
    }
}

impl TickUpdate {
    /// The update that holds exactly the values of `t`.
    pub open spec fn spec_from_tick(t: Tick) -> TickUpdate {
        TickUpdate {
            initialized: t.initialized,
            liquidity_net: t.liquidity_net,
            liquidity_gross: t.liquidity_gross,
            fee_growth_outside_a: t.fee_growth_outside_a,
            fee_growth_outside_b: t.fee_growth_outside_b,
            reward_growths_outside: t.reward_growths_outside,
        }
    }

    /// True of the update that `TickUpdate::default` builds: uninitialized, all zero.
    pub open spec fn is_zero(self) -> bool {
        &&& !self.initialized
        &&& self.liquidity_net == 0
        &&& self.liquidity_gross == 0
        &&& self.fee_growth_outside_a == 0
        &&& self.fee_growth_outside_b == 0
        &&& self.reward_growths_outside@ == zero_rewards()
    }

    /// An uninitialized update with every value zero.
    pub fn default() -> (r: TickUpdate)
        ensures
            r.is_zero(),
    {
        TickUpdate {
            initialized: false,
            liquidity_net: 0,
            liquidity_gross: 0,
            fee_growth_outside_a: 0,
            fee_growth_outside_b: 0,
            reward_growths_outside: zero_reward_growths(),
        }
    }

    /// The update that holds the values of `tick`.
    pub fn from_tick(tick: Tick) -> (r: TickUpdate)
        ensures
            r == TickUpdate::spec_from_tick(tick),
    {
        TickUpdate {
            initialized: tick.initialized,
            liquidity_net: tick.liquidity_net,
            liquidity_gross: tick.liquidity_gross,
            fee_growth_outside_a: tick.fee_growth_outside_a,
            fee_growth_outside_b: tick.fee_growth_outside_b,
            reward_growths_outside: tick.reward_growths_outside,
        }
    }
}

/// The tick index lies outside `[MIN_TICK_INDEX, MAX_TICK_INDEX]`.
pub open spec fn spec_out_of_bounds(tick_index: int) -> bool {
    tick_index < MIN_TICK_INDEX || tick_index > MAX_TICK_INDEX
}

/// Number of tick indexes spanned by one tick array.
pub open spec fn spec_ticks_in_array(tick_spacing: int) -> int {
    (TICK_ARRAY_SIZE as int) * tick_spacing
}

/// Start of the left-most tick array: the largest multiple of the array
/// span that lies strictly below `-(MAX_TICK_INDEX)` rounded down to a
/// multiple of the span.
pub open spec fn spec_min_array_start_index(tick_spacing: int) -> int {
    let t = spec_ticks_in_array(tick_spacing);
    -(t * ((MAX_TICK_INDEX as int) / t + 1))
}

pub open spec fn spec_is_valid_start_tick(tick_index: int, tick_spacing: int) -> bool {
    if spec_out_of_bounds(tick_index) {
        tick_index <= MIN_TICK_INDEX && tick_index == spec_min_array_start_index(tick_spacing)
    } else {
        tick_index % spec_ticks_in_array(tick_spacing) == 0
    }
}

pub open spec fn spec_is_usable_tick(tick_index: int, tick_spacing: int) -> bool {
    !spec_out_of_bounds(tick_index) && tick_index % tick_spacing == 0
}

/// Largest usable tick index for this tick spacing; the smallest is its negation.
pub open spec fn spec_full_range_upper(tick_spacing: int) -> int {
    (MAX_TICK_INDEX as int) / tick_spacing * tick_spacing
}

pub open spec fn spec_bound_tick_index(tick_index: int) -> int {
    if tick_index < MIN_TICK_INDEX {
        MIN_TICK_INDEX as int
    } else if tick_index > MAX_TICK_INDEX {
        MAX_TICK_INDEX as int
    } else {
        tick_index
    }
}

/// Rust's truncating remainder of `a` by a positive `b` is zero exactly
/// when `b` divides `a`.
proof fn lemma_truncated_rem_zero(a: int, b: int)
    requires
        b > 0,
    ensures
        (if a >= 0 { a % b } else { -((-a) % b) }) == 0 <==> a % b == 0,
{
    if a < 0 {
        vstd::arithmetic::div_mod::lemma_fundamental_div_mod(-a, b);
        vstd::arithmetic::div_mod::lemma_fundamental_div_mod(a, b);
        let q1 = (-a) / b;
        let q2 = a / b;
        if (-a) % b == 0 {
            assert(a == (-q1) * b) by (nonlinear_arith)
                requires -a == b * q1;
            vstd::arithmetic::div_mod::lemma_mod_multiples_basic(-q1, b);
        }
        if a % b == 0 {
            assert(-a == (-q2) * b) by (nonlinear_arith)
                requires a == b * q2;
            vstd::arithmetic::div_mod::lemma_mod_multiples_basic(-q2, b);
        }
    }
}

/// The left-most start index computed with truncating arithmetic equals
/// its closed form.
proof fn lemma_min_array_start(t: int)
    requires
        t > 0,
    ensures
        (MIN_TICK_INDEX as int) - (-((-(MIN_TICK_INDEX as int)) % t) + t) == -(t * ((MAX_TICK_INDEX as int) / t + 1)),
{
    vstd::arithmetic::div_mod::lemma_fundamental_div_mod(443636int, t);
    assert(t * (443636int / t + 1) == t * (443636int / t) + t) by (nonlinear_arith);
}

} // verus!
