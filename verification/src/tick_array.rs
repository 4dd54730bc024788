use vstd::prelude::*;
use crate::errors::ErrorCode;
use crate::pubkey::Pubkey;
use crate::tick::{
    spec_is_usable_tick, Tick, TickUpdate, MAX_TICK_INDEX, MIN_TICK_INDEX, TICK_ARRAY_SIZE,
};

verus! {

/// The arithmetic of a search range stays within `i32` for this start index
/// and tick spacing.
pub open spec fn spec_range_fits(start_tick_index: int, tick_spacing: int) -> bool {
    &&& start_tick_index - tick_spacing >= i32::MIN
    &&& start_tick_index + TICK_ARRAY_SIZE * tick_spacing <= i32::MAX
}

/// The tick indexes an array starting at `start_tick_index` searches:
/// `[start, start + 88 * spacing)`, moved down by one spacing when shifted.
pub open spec fn spec_in_search_range(start_tick_index: int, tick_index: int, tick_spacing: int, shifted: bool) -> bool {
    let shift = if shifted { tick_spacing } else { 0 };
    start_tick_index - shift <= tick_index < start_tick_index + TICK_ARRAY_SIZE * tick_spacing - shift
}

/// Offset of a tick index within an array: the floor of
/// `(tick_index - start) / spacing`.
pub open spec fn spec_tick_offset(start_tick_index: int, tick_index: int, tick_spacing: int) -> int {
    (tick_index - start_tick_index) / tick_spacing
}

/// Slot that holds a tick index: its offset, when the index lies in the
/// array and is usable for the spacing.
pub open spec fn spec_tick_slot(start_tick_index: int, tick_index: int, tick_spacing: int) -> Option<int> {
    if spec_in_search_range(start_tick_index, tick_index, tick_spacing, false)
        && spec_is_usable_tick(tick_index, tick_spacing) {
        Some(spec_tick_offset(start_tick_index, tick_index, tick_spacing))
    } else {
        None
    }
}

/// Highest initialized offset at or below `from`.
pub open spec fn spec_search_down(ticks: Seq<Tick>, from: int) -> Option<int>
    decreases from + 1,
{
    if from < 0 {
        None
    } else if ticks[from].initialized {
        Some(from)
    } else {
        spec_search_down(ticks, from - 1)
    }
}

/// Lowest initialized offset at or above `from`, below 88.
pub open spec fn spec_search_up(ticks: Seq<Tick>, from: int) -> Option<int>
    decreases TICK_ARRAY_SIZE - from,
{
    if from >= TICK_ARRAY_SIZE || from < 0 {
        None
    } else if ticks[from].initialized {
        Some(from)
    } else {
        spec_search_up(ticks, from + 1)
    }
}

/// The next initialized tick index in the search direction: for `a_to_b`
/// the highest initialized tick at or below `tick_index`; otherwise the lowest
/// one strictly above it. A zero tick spacing is `InvalidTickSpacing`; a tick
/// index outside the (shifted for `!a_to_b`) search range is
/// `InvalidTickArraySequence`.
pub open spec fn spec_next_init_tick_index(
    ticks: Seq<Tick>,
    start_tick_index: int,
    tick_index: int,
    tick_spacing: int,
    a_to_b: bool,
) -> Result<Option<i32>, ErrorCode> {
    if tick_spacing == 0 {
        Err(ErrorCode::InvalidTickSpacing)
    } else if !spec_in_search_range(start_tick_index, tick_index, tick_spacing, !a_to_b) {
        Err(ErrorCode::InvalidTickArraySequence)
    } else {
        let offset = spec_tick_offset(start_tick_index, tick_index, tick_spacing);
        let found = if a_to_b {
            spec_search_down(ticks, offset)
        } else {
            spec_search_up(ticks, offset + 1)
        };
        match found {
            Some(o) => Ok(Some((o * tick_spacing + start_tick_index) as i32)),
            None => Ok(None),
        }
    }
}

/// The tick stored at a tick index, or `TickNotFound` when no slot holds it.
pub open spec fn spec_get_tick(ticks: Seq<Tick>, start_tick_index: int, tick_index: int, tick_spacing: int) -> Result<Tick, ErrorCode> {
    match spec_tick_slot(start_tick_index, tick_index, tick_spacing) {
        Some(o) => Ok(ticks[o]),
        None => Err(ErrorCode::TickNotFound),
    }
}

/// Floor of `(tick_index - start_tick_index) / tick_spacing`.
fn get_offset(tick_index: i32, start_tick_index: i32, tick_spacing: u16) -> (r: isize)
    requires
        tick_spacing > 0,
        i32::MIN <= tick_index - start_tick_index <= i32::MAX,
    ensures
        r == spec_tick_offset(start_tick_index as int, tick_index as int, tick_spacing as int),
{
    let lhs = tick_index - start_tick_index;
    let rhs = tick_spacing as i32;
    let o = crate::math::floor_division(lhs, rhs);
    o as isize
}

/// An array of 88 consecutive usable ticks, stored with a fixed or a
/// variable size.
pub trait TickArrayType {
    /// The stored ticks can be read: for a variable-size array, every tick's
    /// tag agrees with the bitmap of initialized ticks.
    spec fn wf(&self) -> bool;

    /// The stored bytes have the size of this kind of array, so its start
    /// index and pool can be read.
    spec fn spec_sized(&self) -> bool;

    /// An array whose ticks can be read has the size of its kind.
    proof fn lemma_wf_sized(&self)
        requires
            self.wf(),
        ensures
            self.spec_sized(),
    ;

    spec fn spec_start_tick_index(&self) -> i32;

    /// The address bytes of the pool this array belongs to.
    spec fn spec_whirlpool(&self) -> Seq<u8>;

    /// The 88 ticks held, in order of tick index.
    spec fn spec_ticks(&self) -> Seq<Tick>;

    /// The tick this kind of array holds after it stores `update`.
    spec fn spec_stored_tick(&self, update: TickUpdate) -> Tick;

    spec fn spec_variable_size(&self) -> bool;

    fn is_variable_size(&self) -> (r: bool)
        ensures
            r == self.spec_variable_size(),
    ;

    fn start_tick_index(&self) -> (r: i32)
        requires
            self.spec_sized(),
        ensures
            r == self.spec_start_tick_index(),
    ;

    fn whirlpool(&self) -> (r: Pubkey)
        requires
            self.spec_sized(),
        ensures
            r.0@ == self.spec_whirlpool(),
    ;

    /// Search for the next initialized tick in this array: to the left and
    /// inclusive for `a_to_b`, to the right and exclusive otherwise.
    fn get_next_init_tick_index(&self, tick_index: i32, tick_spacing: u16, a_to_b: bool) -> (r: Result<Option<i32>, ErrorCode>)
        requires
            self.wf(),
            spec_range_fits(self.spec_start_tick_index() as int, tick_spacing as int),
        ensures
            r == spec_next_init_tick_index(self.spec_ticks(), self.spec_start_tick_index() as int,
                tick_index as int, tick_spacing as int, a_to_b),
    ;

    /// The tick stored at the given tick index.
    fn get_tick(&self, tick_index: i32, tick_spacing: u16) -> (r: Result<Tick, ErrorCode>)
        requires
            self.wf(),
            spec_range_fits(self.spec_start_tick_index() as int, tick_spacing as int),
        ensures
            r == spec_get_tick(self.spec_ticks(), self.spec_start_tick_index() as int,
                tick_index as int, tick_spacing as int),
    ;

    /// Store an update at the given tick index; every other tick stays.
    fn update_tick(&mut self, tick_index: i32, tick_spacing: u16, update: &TickUpdate) -> (r: Result<(), ErrorCode>)
        requires
            old(self).wf(),
            spec_range_fits(old(self).spec_start_tick_index() as int, tick_spacing as int),
        ensures
            final(self).wf(),
            final(self).spec_start_tick_index() == old(self).spec_start_tick_index(),
            final(self).spec_whirlpool() == old(self).spec_whirlpool(),
            final(self).spec_variable_size() == old(self).spec_variable_size(),
            match spec_tick_slot(old(self).spec_start_tick_index() as int, tick_index as int, tick_spacing as int) {
                Some(o) => r is Ok
                    && final(self).spec_ticks() == old(self).spec_ticks().update(o, old(self).spec_stored_tick(*update)),
                None => r == Err::<(), ErrorCode>(ErrorCode::TickNotFound)
                    && final(self).spec_ticks() == old(self).spec_ticks(),
            },
    ;

    /// True when the tick index lies in this array's search range, shifted
    /// down by one tick spacing when `shifted`.
    fn in_search_range(&self, tick_index: i32, tick_spacing: u16, shifted: bool) -> (r: bool)
        requires
            self.spec_sized(),
            spec_range_fits(self.spec_start_tick_index() as int, tick_spacing as int),
        ensures
            r == spec_in_search_range(self.spec_start_tick_index() as int, tick_index as int,
                tick_spacing as int, shifted),
    {
        let mut lower = self.start_tick_index();
        let mut upper = self.start_tick_index() + TICK_ARRAY_SIZE * tick_spacing as i32;
        if shifted {
            lower = lower - tick_spacing as i32;
            upper = upper - tick_spacing as i32;
        }
        tick_index >= lower && tick_index < upper
    }

    /// True when the tick index lies in `[start, start + 88 * spacing)`.
    fn check_in_array_bounds(&self, tick_index: i32, tick_spacing: u16) -> (r: bool)
        requires
            self.spec_sized(),
            spec_range_fits(self.spec_start_tick_index() as int, tick_spacing as int),
        ensures
            r == spec_in_search_range(self.spec_start_tick_index() as int, tick_index as int,
                tick_spacing as int, false),
    {
        self.in_search_range(tick_index, tick_spacing, false)
    }

    /// True when this array starts at or below the smallest tick index.
    fn is_min_tick_array(&self) -> (r: bool)
        requires
            self.spec_sized(),
        ensures
            r == (self.spec_start_tick_index() <= MIN_TICK_INDEX),
    {
        self.start_tick_index() <= MIN_TICK_INDEX
    }

    /// True when this array reaches beyond the largest tick index.
    fn is_max_tick_array(&self, tick_spacing: u16) -> (r: bool)
        requires
            self.spec_sized(),
            spec_range_fits(self.spec_start_tick_index() as int, tick_spacing as int),
        ensures
            r == (self.spec_start_tick_index() + TICK_ARRAY_SIZE * tick_spacing > MAX_TICK_INDEX),
    {
        self.start_tick_index() + TICK_ARRAY_SIZE * (tick_spacing as i32) > MAX_TICK_INDEX
    }

    /// Offset of the tick index from the start of this array, in tick
    /// spacings, rounded down; `InvalidTickSpacing` for a zero spacing.
    fn tick_offset(&self, tick_index: i32, tick_spacing: u16) -> (r: Result<isize, ErrorCode>)
        requires
            self.spec_sized(),
            tick_spacing == 0 || i32::MIN <= tick_index - self.spec_start_tick_index() <= i32::MAX,
        ensures
            tick_spacing == 0 ==> r == Err::<isize, ErrorCode>(ErrorCode::InvalidTickSpacing),
            tick_spacing > 0 ==> r == Ok::<isize, ErrorCode>(spec_tick_offset(
                self.spec_start_tick_index() as int, tick_index as int, tick_spacing as int) as isize),
    {
        if tick_spacing == 0 {
            return Err(ErrorCode::InvalidTickSpacing);
        }
        Ok(get_offset(tick_index, self.start_tick_index(), tick_spacing))
    }
}

} // verus!
