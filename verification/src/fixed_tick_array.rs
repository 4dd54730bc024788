use vstd::prelude::*;
use crate::errors::ErrorCode;
use crate::pubkey::Pubkey;
use crate::tick::{Tick, TickUpdate, TICK_ARRAY_SIZE, TICK_ARRAY_SIZE_USIZE, TICK_LEN};
use crate::tick_array::{
    spec_in_search_range, spec_next_init_tick_index, spec_range_fits,
    spec_search_down, spec_search_up, spec_tick_offset, TickArrayType,
};
use crate::whirlpool::WhirlpoolAccount;
use crate::dynamic_tick_array::{spec_decode_data, spec_encode_data, DynamicTickData};

verus! {

/// A tick array that stores all 88 ticks in place.
pub struct TickArray {
    start_tick_index: i32,
    ticks: [Tick; TICK_ARRAY_SIZE_USIZE],
    whirlpool: Pubkey,
}

/// A tick array of fixed size.
pub type FixedTickArray = TickArray;

/// Account size of a fixed tick array: discriminator, start index, pool
/// address and 88 serialized ticks.
pub const FIXED_TICK_ARRAY_LEN: usize = 8 + 36 + TICK_LEN * TICK_ARRAY_SIZE_USIZE;

impl TickArray {
    /// A tick array starting at zero, owned by the all-zero address, with
    /// every tick uninitialized and zero.
    pub fn default() -> (r: TickArray)
        ensures
            r.spec_start_tick_index() == 0,
            r.spec_whirlpool() == crate::pubkey::zero_bytes(),
            r.spec_ticks().len() == TICK_ARRAY_SIZE,
            forall|i: int| 0 <= i < TICK_ARRAY_SIZE ==> (#[trigger] r.spec_ticks()[i]).is_zero(),
    {
        let t = Tick::default();
        let ticks: [Tick; TICK_ARRAY_SIZE_USIZE] = vstd::array::array_fill_for_copy_types(t);
        proof {
            vstd::array::axiom_spec_array_fill_for_copy_type::<Tick, TICK_ARRAY_SIZE_USIZE>(t);
        }
        TickArray { start_tick_index: 0, ticks, whirlpool: Pubkey::default_key() }
    }

    /// A tick array with the given start index, owner and ticks.
    pub fn new(start_tick_index: i32, whirlpool: Pubkey, ticks: [Tick; TICK_ARRAY_SIZE_USIZE]) -> (r: TickArray)
        ensures
            r.spec_start_tick_index() == start_tick_index,
            r.spec_whirlpool() == whirlpool.0@,
            r.spec_ticks() == ticks@,
    {
        TickArray { start_tick_index, ticks, whirlpool }
    }

    /// Bind this array to a pool and a start index; a start index that cannot
    /// start a tick array for the pool's tick spacing is `InvalidStartTick`
    /// and changes nothing.
    pub fn initialize(&mut self, whirlpool: &WhirlpoolAccount, start_tick_index: i32) -> (r: Result<(), ErrorCode>)
        requires
            whirlpool.whirlpool.tick_spacing > 0,
        ensures
            crate::tick::spec_is_valid_start_tick(start_tick_index as int, whirlpool.whirlpool.tick_spacing as int) ==> {
                &&& r is Ok
                &&& final(self).spec_start_tick_index() == start_tick_index
                &&& final(self).spec_whirlpool() == whirlpool.key.0@
                &&& final(self).spec_ticks() == old(self).spec_ticks()
            },
            !crate::tick::spec_is_valid_start_tick(start_tick_index as int, whirlpool.whirlpool.tick_spacing as int) ==> {
                &&& r == Err::<(), ErrorCode>(ErrorCode::InvalidStartTick)
                &&& *final(self) == *old(self)
            },
    {
        if !Tick::check_is_valid_start_tick(start_tick_index, whirlpool.whirlpool.tick_spacing) {
            return Err(ErrorCode::InvalidStartTick);
        }
        self.whirlpool = whirlpool.key;
        self.start_tick_index = start_tick_index;
        Ok(())
    }
}

impl TickArrayType for TickArray {
    open spec fn wf(&self) -> bool {
        true
    }

    open spec fn spec_sized(&self) -> bool {
        true
    }

    proof fn lemma_wf_sized(&self) {
    }

    closed spec fn spec_start_tick_index(&self) -> i32 {
        self.start_tick_index
    }

    closed spec fn spec_whirlpool(&self) -> Seq<u8> {
        self.whirlpool.0@
    }

    closed spec fn spec_ticks(&self) -> Seq<Tick> {
        self.ticks@
    }

    open spec fn spec_stored_tick(&self, update: TickUpdate) -> Tick {
        Tick::spec_from_update(update)
    }

    open spec fn spec_variable_size(&self) -> bool {
        false
    }

    fn is_variable_size(&self) -> (r: bool) {
        false
    }

    fn start_tick_index(&self) -> (r: i32) {
        self.start_tick_index
    }

    fn whirlpool(&self) -> (r: Pubkey) {
        self.whirlpool
    }

    fn get_next_init_tick_index(&self, tick_index: i32, tick_spacing: u16, a_to_b: bool) -> (r: Result<Option<i32>, ErrorCode>) {
        if tick_spacing == 0 {
            return Err(ErrorCode::InvalidTickSpacing);
        }
        if !self.in_search_range(tick_index, tick_spacing, !a_to_b) {
            return Err(ErrorCode::InvalidTickArraySequence);
        }
        let ghost start = self.start_tick_index as int;
        let ghost offset = spec_tick_offset(start, tick_index as int, tick_spacing as int);
        proof {
            lemma_offset_in_range(start, tick_index as int, tick_spacing as int, !a_to_b);
        }
        let mut curr_offset = match self.tick_offset(tick_index, tick_spacing) {
            Ok(value) => value as i32,
            Err(e) => return Err(e),
        };
        if !a_to_b {
            curr_offset = curr_offset + 1;
        }
        let ghost target = if a_to_b { spec_search_down(self.ticks@, offset) } else { spec_search_up(self.ticks@, offset + 1) };

        while 0 <= curr_offset && curr_offset < TICK_ARRAY_SIZE
            invariant
                -1 <= curr_offset <= TICK_ARRAY_SIZE,
                a_to_b ==> curr_offset < TICK_ARRAY_SIZE,
                !a_to_b ==> curr_offset >= 0,
                tick_spacing > 0,
                spec_range_fits(start, tick_spacing as int),
                start == self.start_tick_index,
                spec_in_search_range(start, tick_index as int, tick_spacing as int, !a_to_b),
                offset == spec_tick_offset(start, tick_index as int, tick_spacing as int),
                target == (if a_to_b { spec_search_down(self.ticks@, offset) } else { spec_search_up(self.ticks@, offset + 1) }),
                a_to_b ==> target == spec_search_down(self.ticks@, curr_offset as int),
                !a_to_b ==> target == spec_search_up(self.ticks@, curr_offset as int),
            decreases (if a_to_b { curr_offset + 1 } else { TICK_ARRAY_SIZE - curr_offset }),
        {
            let curr_tick = self.ticks[curr_offset as usize];
            if curr_tick.initialized {
                proof {
                    assert(0 <= curr_offset * tick_spacing <= 87 * tick_spacing) by (nonlinear_arith)
                        requires 0 <= curr_offset < 88, tick_spacing > 0;
                    if a_to_b {
                        assert(spec_search_down(self.ticks@, curr_offset as int) == Some(curr_offset as int));
                    } else {
                        assert(spec_search_up(self.ticks@, curr_offset as int) == Some(curr_offset as int));
                    }
                    assert(target == Some(curr_offset as int));
                    assert(spec_in_search_range(start, tick_index as int, tick_spacing as int, !a_to_b));
                    assert(spec_next_init_tick_index(self.ticks@, start, tick_index as int, tick_spacing as int, a_to_b)
                        == Ok::<Option<i32>, ErrorCode>(Some((curr_offset * tick_spacing + start) as i32)));
                }
                return Ok(Some((curr_offset * tick_spacing as i32) + self.start_tick_index));
            }
            curr_offset = if a_to_b { curr_offset - 1 } else { curr_offset + 1 };
        }
        proof {
            if a_to_b {
                assert(curr_offset < 0);
            } else {
                assert(curr_offset >= TICK_ARRAY_SIZE);
            }
        }
        Ok(None)
    }

    fn get_tick(&self, tick_index: i32, tick_spacing: u16) -> (r: Result<Tick, ErrorCode>) {
        if !self.check_in_array_bounds(tick_index, tick_spacing)
            || !Tick::check_is_usable_tick(tick_index, tick_spacing)
        {
            return Err(ErrorCode::TickNotFound);
        }
        proof {
            lemma_offset_in_range(self.start_tick_index as int, tick_index as int, tick_spacing as int, false);
        }
        let offset = match self.tick_offset(tick_index, tick_spacing) {
            Ok(v) => v,
            Err(e) => return Err(e),
        };
        if offset < 0 {
            return Err(ErrorCode::TickNotFound);
        }
        Ok(self.ticks[offset as usize])
    }

    fn update_tick(&mut self, tick_index: i32, tick_spacing: u16, update: &TickUpdate) -> (r: Result<(), ErrorCode>) {
        if !self.check_in_array_bounds(tick_index, tick_spacing)
            || !Tick::check_is_usable_tick(tick_index, tick_spacing)
        {
            return Err(ErrorCode::TickNotFound);
        }
        proof {
            lemma_offset_in_range(self.start_tick_index as int, tick_index as int, tick_spacing as int, false);
        }
        let offset = match self.tick_offset(tick_index, tick_spacing) {
            Ok(v) => v,
            Err(e) => return Err(e),
        };
        if offset < 0 {
            return Err(ErrorCode::TickNotFound);
        }
        let mut tick = self.ticks[offset as usize];
        tick.update(update);
        self.ticks[offset as usize] = tick;
        Ok(())
    }
}

/// Within a search range, the tick index minus the start fits in `i32`, and
/// its offset lies in `[0, 88)`, or in `[-1, 87)` for the shifted range.
pub proof fn lemma_offset_in_range(start: int, tick_index: int, tick_spacing: int, shifted: bool)
    requires
        tick_spacing <= u16::MAX,
        spec_range_fits(start, tick_spacing),
        spec_in_search_range(start, tick_index, tick_spacing, shifted),
    ensures
        tick_spacing > 0,
        i32::MIN <= tick_index - start <= i32::MAX,
        !shifted ==> 0 <= spec_tick_offset(start, tick_index, tick_spacing) < TICK_ARRAY_SIZE,
        shifted ==> -1 <= spec_tick_offset(start, tick_index, tick_spacing) < TICK_ARRAY_SIZE - 1,
{
    let d = tick_index - start;
    let s = tick_spacing;
    if s <= 0 {
        assert(TICK_ARRAY_SIZE * s <= 0) by (nonlinear_arith) requires s <= 0;
        assert(false);
    }
    if !shifted {
        vstd::arithmetic::div_mod::lemma_div_pos_is_pos(d, s);
        vstd::arithmetic::div_mod::lemma_div_is_ordered(d, 88 * s - 1, s);
        assert((88 * s - 1) / s < 88) by (nonlinear_arith)
            requires s > 0
        {
            vstd::arithmetic::div_mod::lemma_fundamental_div_mod(88 * s - 1, s);
            vstd::arithmetic::div_mod::lemma_mod_pos_bound(88 * s - 1, s);
        }
    } else {
        vstd::arithmetic::div_mod::lemma_div_is_ordered(-s, d, s);
        vstd::arithmetic::div_mod::lemma_div_is_ordered(d, 87 * s - 1, s);
        vstd::arithmetic::div_mod::lemma_div_multiples_vanish(-1, s);
        assert(s * -1 == -s);
        assert((87 * s - 1) / s < 87) by (nonlinear_arith)
            requires s > 0
        {
            vstd::arithmetic::div_mod::lemma_fundamental_div_mod(87 * s - 1, s);
            vstd::arithmetic::div_mod::lemma_mod_pos_bound(87 * s - 1, s);
        }
    }
}

/// Size of a fixed tick array's data after its discriminator.
pub const FIXED_TICK_ARRAY_DATA_LEN: usize = 4 + TICK_LEN * TICK_ARRAY_SIZE_USIZE + 32;

/// `t` is the tick stored in the 113 bytes at `s[p..]`: a flag byte (1 for
/// initialized, 0 for not) and the 112 bytes of tick data.
pub open spec fn spec_fixed_tick_at(s: Seq<u8>, p: int, t: Tick) -> bool {
    let d = spec_decode_data(s.subrange(p + 1, p + 113));
    &&& (s[p] == 0 || s[p] == 1)
    &&& t.initialized == (s[p] == 1)
    &&& t.liquidity_net == d.liquidity_net
    &&& t.liquidity_gross == d.liquidity_gross
    &&& t.fee_growth_outside_a == d.fee_growth_outside_a
    &&& t.fee_growth_outside_b == d.fee_growth_outside_b
    &&& t.reward_growths_outside == d.reward_growths_outside
}

/// `a` is the fixed tick array stored in `s` (the data after the
/// discriminator): start index, 88 ticks, pool address.
pub open spec fn spec_fixed_array_at(s: Seq<u8>, a: TickArray) -> bool {
    &&& s.len() == FIXED_TICK_ARRAY_DATA_LEN
    &&& a.spec_start_tick_index() == crate::oracle_accessor::u32_at(s, 0) as i32
    &&& forall|k: int| 0 <= k < 88 ==> spec_fixed_tick_at(s, 4 + 113 * k, #[trigger] a.spec_ticks()[k])
    &&& a.spec_whirlpool() == s.subrange(9948, 9980)
}

/// `s` holds the bytes of `a` after its discriminator: the start index
/// little-endian, the 88 ticks, then the pool address.
pub open spec fn spec_fixed_array_bytes(a: TickArray, s: Seq<u8>) -> bool {
    &&& s.len() == FIXED_TICK_ARRAY_DATA_LEN
    &&& s.subrange(0, 4) == vstd::bytes::spec_u32_to_le_bytes(a.spec_start_tick_index() as u32)
    &&& forall|k: int| 0 <= k < 88 ==> s.subrange(4 + 113 * k, 4 + 113 * k + 113)
        == spec_encode_fixed_tick(#[trigger] a.spec_ticks()[k])
    &&& s.subrange(9948, 9980) == a.spec_whirlpool()
}

/// A fixed tick array holds 88 ticks.
pub proof fn lemma_ticks_len(a: TickArray)
    ensures
        a.spec_ticks().len() == 88,
{
}

/// Every flag byte of the 88 ticks in the data is 0 or 1.
pub open spec fn spec_fixed_flags_ok(s: Seq<u8>) -> bool {
    forall|k: int| 0 <= k < 88 ==> (#[trigger] s[4 + 113 * k] == 0 || s[4 + 113 * k] == 1)
}

/// Bytes of a tick in a fixed tick array.
pub open spec fn spec_encode_fixed_tick(t: Tick) -> Seq<u8> {
    seq![if t.initialized { 1u8 } else { 0u8 }] + spec_encode_data(DynamicTickData {
        liquidity_net: t.liquidity_net,
        liquidity_gross: t.liquidity_gross,
        fee_growth_outside_a: t.fee_growth_outside_a,
        fee_growth_outside_b: t.fee_growth_outside_b,
        reward_growths_outside: t.reward_growths_outside,
    })
}

fn decode_fixed_tick(s: &[u8], p: usize) -> (r: Tick)
    requires
        p + 113 <= s@.len() <= usize::MAX,
        s@[p as int] == 0 || s@[p as int] == 1,
    ensures
        spec_fixed_tick_at(s@, p as int, r),
{
    let flag = s[p];
    let d = DynamicTickData::decode(s, p + 1);
    Tick {
        initialized: flag == 1,
        liquidity_net: d.liquidity_net,
        liquidity_gross: d.liquidity_gross,
        fee_growth_outside_a: d.fee_growth_outside_a,
        fee_growth_outside_b: d.fee_growth_outside_b,
        reward_growths_outside: d.reward_growths_outside,
    }
}

impl TickArray {
    /// Read a fixed tick array from the account data after its
    /// discriminator. Each initialized flag is a byte 0 or 1: the bytes are
    /// the tick array's own representation, in which no other value is a flag.
    pub fn decode(s: &[u8]) -> (r: TickArray)
        requires
            s@.len() == FIXED_TICK_ARRAY_DATA_LEN,
            spec_fixed_flags_ok(s@),
        ensures
            spec_fixed_array_at(s@, r),
    {
        let start_tick_index = #[verifier::truncate] (vstd::bytes::u32_from_le_bytes(vstd::slice::slice_subrange(s, 0, 4)) as i32);
        let t0 = Tick::default();
        let mut ticks: [Tick; TICK_ARRAY_SIZE_USIZE] = vstd::array::array_fill_for_copy_types(t0);
        let mut k: usize = 0;
        while k < TICK_ARRAY_SIZE_USIZE
            invariant
                k <= 88,
                s@.len() == FIXED_TICK_ARRAY_DATA_LEN,
                spec_fixed_flags_ok(s@),
                forall|j: int| 0 <= j < k ==> spec_fixed_tick_at(s@, 4 + 113 * j, #[trigger] ticks@[j]),
            decreases 88 - k,
        {
            proof {
                assert(s@[4 + 113 * (k as int)] == 0 || s@[4 + 113 * (k as int)] == 1);
            }
            let t = decode_fixed_tick(s, 4 + 113 * k);
            ticks[k] = t;
            k = k + 1;
        }
        let mut key = [0u8; 32];
        let mut i: usize = 0;
        while i < 32
            invariant
                i <= 32,
                s@.len() == FIXED_TICK_ARRAY_DATA_LEN,
                forall|j: int| 0 <= j < i ==> key@[j] == s@[9948 + j],
            decreases 32 - i,
        {
            key[i] = s[9948 + i];
            i = i + 1;
        }
        proof {
            assert(key@ =~= s@.subrange(9948, 9980));
            assert forall|k: int| 0 <= k < 88 implies (#[trigger] s@[4 + 113 * k] == 0 || s@[4 + 113 * k] == 1) by {
                assert(spec_fixed_tick_at(s@, 4 + 113 * k, ticks@[k]));
            }
        }
        TickArray { start_tick_index, ticks, whirlpool: Pubkey(key) }
    }

    /// The bytes of this tick array after its discriminator.
    pub fn encode(&self) -> (r: Vec<u8>)
        ensures
            spec_fixed_array_bytes(*self, r@),
    {
        let mut out = vstd::bytes::u32_to_le_bytes(self.start_tick_index as u32);
        proof {
            vstd::bytes::lemma_auto_spec_u32_to_from_le_bytes();
        }
        let ghost head = out@;
        let mut k: usize = 0;
        while k < TICK_ARRAY_SIZE_USIZE
            invariant
                k <= 88,
                out@.len() == 4 + 113 * k,
                out@.subrange(0, 4) == head,
                forall|j: int| 0 <= j < k ==> out@.subrange(4 + 113 * j, 4 + 113 * j + 113)
                    == spec_encode_fixed_tick(#[trigger] self.ticks@[j]),
            decreases 88 - k,
        {
            let t = self.ticks[k];
            let ghost before = out@;
            out.push(if t.initialized { 1u8 } else { 0u8 });
            let d = DynamicTickData {
                liquidity_net: t.liquidity_net,
                liquidity_gross: t.liquidity_gross,
                fee_growth_outside_a: t.fee_growth_outside_a,
                fee_growth_outside_b: t.fee_growth_outside_b,
                reward_growths_outside: t.reward_growths_outside,
            };
            let mut body = d.encode();
            proof {
                crate::dynamic_tick_array::lemma_decode_encode_data(d);
            }
            out.append(&mut body);
            proof {
                assert(out@.subrange(0, 4) =~= before.subrange(0, 4));
                assert forall|j: int| 0 <= j < k implies out@.subrange(4 + 113 * j, 4 + 113 * j + 113)
                    == spec_encode_fixed_tick(#[trigger] self.ticks@[j]) by {
                    assert(out@.subrange(4 + 113 * j, 4 + 113 * j + 113) =~= before.subrange(4 + 113 * j, 4 + 113 * j + 113));
                }
                assert(out@.subrange(4 + 113 * k, 4 + 113 * k + 113) =~= spec_encode_fixed_tick(t));
            }
            k = k + 1;
        }
        let ghost before = out@;
        let mut key = vstd::slice::slice_to_vec(vstd::array::array_as_slice(&self.whirlpool.0));
        out.append(&mut key);
        proof {
            assert(out@.subrange(0, 4) =~= before.subrange(0, 4));
            assert forall|j: int| 0 <= j < 88 implies out@.subrange(4 + 113 * j, 4 + 113 * j + 113)
                == spec_encode_fixed_tick(#[trigger] self.ticks@[j]) by {
                assert(out@.subrange(4 + 113 * j, 4 + 113 * j + 113) =~= before.subrange(4 + 113 * j, 4 + 113 * j + 113));
            }
            assert(out@.subrange(9948, 9980) =~= self.whirlpool.0@);
        }
        out
    }
}

} // verus!
