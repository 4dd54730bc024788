use vstd::prelude::*;
use vstd::bytes::{spec_u128_from_le_bytes, spec_u128_to_le_bytes};
use crate::errors::ErrorCode;
use crate::pubkey::Pubkey;
use crate::tick::{Tick, TickUpdate, NUM_REWARDS, TICK_ARRAY_SIZE, TICK_ARRAY_SIZE_USIZE};
use crate::dynamic_tick_layout::{
    lemma_byte_offset_bound, lemma_header_change, lemma_layout_initialized, lemma_update_layout,
    spec_bit, spec_bitmap, spec_byte_offset, spec_count, spec_layout_ticks, spec_layout_wf,
    spec_overwrite, spec_rotate_left, spec_rotate_right, spec_update_layout, LOADER_LEN,
    START_TICK_INDEX_OFFSET, TICK_BITMAP_OFFSET, TICK_DATA_OFFSET, WHIRLPOOL_OFFSET,
};
use crate::tick_array::{
    spec_in_search_range, spec_range_fits, spec_search_down, spec_search_up, spec_tick_offset, spec_tick_slot,
    TickArrayType,
};
use crate::fixed_tick_array::lemma_offset_in_range;
use crate::whirlpool::WhirlpoolAccount;

verus! {

/// The values of an initialized tick in a variable-size tick array.
#[derive(Clone, Copy, Debug, PartialEq)]
pub struct DynamicTickData {
    pub liquidity_net: i128,
    pub liquidity_gross: u128,
    /// Q64.64
    pub fee_growth_outside_a: u128,
    /// Q64.64
    pub fee_growth_outside_b: u128,
    /// Q64.64 per reward
    pub reward_growths_outside: [u128; NUM_REWARDS],
}

/// A tick of a variable-size tick array: one tag byte, followed by the tick
/// data when the tick is initialized.
#[derive(Clone, Copy, Debug, PartialEq)]
pub enum DynamicTick {
    Uninitialized,
    Initialized(DynamicTickData),
}

/// Serialized size of `DynamicTickData`.
pub const DYNAMIC_TICK_DATA_LEN: usize = 112;
/// Serialized size of an uninitialized tick.
pub const DYNAMIC_TICK_UNINITIALIZED_LEN: usize = 1;
/// Serialized size of an initialized tick.
pub const DYNAMIC_TICK_INITIALIZED_LEN: usize = 113;

/// Layout of a variable-size tick array account (informational).
pub struct DynamicTickArray {
    pub start_tick_index: i32,
    pub whirlpool: Pubkey,
    /// Bit i is set when tick i is initialized.
    pub tick_bitmap: u128,
    pub ticks: [DynamicTick; TICK_ARRAY_SIZE_USIZE],
}

/// Smallest account size of a variable-size tick array: every tick uninitialized.
pub const DYNAMIC_TICK_ARRAY_MIN_LEN: usize = 8 + 4 + 32 + 16 + DYNAMIC_TICK_UNINITIALIZED_LEN * TICK_ARRAY_SIZE_USIZE;
/// Largest account size of a variable-size tick array: every tick initialized.
pub const DYNAMIC_TICK_ARRAY_MAX_LEN: usize = 8 + 4 + 32 + 16 + DYNAMIC_TICK_INITIALIZED_LEN * TICK_ARRAY_SIZE_USIZE;

/// The `u128` stored little-endian at `s[i..i + 16]`.
pub open spec fn u128_at(s: Seq<u8>, i: int) -> u128 {
    spec_u128_from_le_bytes(s.subrange(i, i + 16))
}

/// Bytes of tick data: net liquidity (two's complement), gross liquidity,
/// both fee growths and the three reward growths, each 16 bytes little-endian.
pub open spec fn spec_encode_data(d: DynamicTickData) -> Seq<u8> {
    spec_u128_to_le_bytes(d.liquidity_net as u128)
        + spec_u128_to_le_bytes(d.liquidity_gross)
        + spec_u128_to_le_bytes(d.fee_growth_outside_a)
        + spec_u128_to_le_bytes(d.fee_growth_outside_b)
        + spec_u128_to_le_bytes(d.reward_growths_outside[0])
        + spec_u128_to_le_bytes(d.reward_growths_outside[1])
        + spec_u128_to_le_bytes(d.reward_growths_outside[2])
}

/// Tick data read from 112 bytes.
pub open spec fn spec_decode_data(s: Seq<u8>) -> DynamicTickData {
    DynamicTickData {
        liquidity_net: u128_at(s, 0) as i128,
        liquidity_gross: u128_at(s, 16),
        fee_growth_outside_a: u128_at(s, 32),
        fee_growth_outside_b: u128_at(s, 48),
        reward_growths_outside: [u128_at(s, 64), u128_at(s, 80), u128_at(s, 96)],
    }
}

/// Bytes of a tick: tag 0 alone, or tag 1 and the tick data.
pub open spec fn spec_encode_tick(t: DynamicTick) -> Seq<u8> {
    match t {
        DynamicTick::Uninitialized => seq![0u8],
        DynamicTick::Initialized(d) => seq![1u8] + spec_encode_data(d),
    }
}

/// A tick read from the bytes at its position; a tag other than 0 or 1 is
/// `InvalidTickData`.
pub open spec fn spec_decode_tick(s: Seq<u8>) -> Result<DynamicTick, ErrorCode> {
    if s[0] == 0 {
        Ok(DynamicTick::Uninitialized)
    } else if s[0] == 1 {
        Ok(DynamicTick::Initialized(spec_decode_data(s.subrange(1, 113))))
    } else {
        Err(ErrorCode::InvalidTickData)
    }
}

/// The uninitialized, all-zero tick.
pub open spec fn spec_zero_tick() -> Tick {
    Tick {
        initialized: false,
        liquidity_net: 0,
        liquidity_gross: 0,
        fee_growth_outside_a: 0,
        fee_growth_outside_b: 0,
        reward_growths_outside: [0u128, 0u128, 0u128],
    }
}

/// The bytes a variable-size tick array holds for account data `data`
/// (after the discriminator): its first `LOADER_LEN` bytes, padded with zeros
/// when there are fewer.
pub open spec fn spec_loader_bytes(data: Seq<u8>) -> Seq<u8> {
    if data.len() >= LOADER_LEN {
        data.subrange(0, LOADER_LEN as int)
    } else {
        data + Seq::new((LOADER_LEN - data.len()) as nat, |i: int| 0u8)
    }
}

/// The tick a dynamic tick stands for.
pub open spec fn spec_tick_of(t: DynamicTick) -> Tick {
    match t {
        DynamicTick::Uninitialized => spec_zero_tick(),
        DynamicTick::Initialized(d) => Tick {
            initialized: true,
            liquidity_net: d.liquidity_net,
            liquidity_gross: d.liquidity_gross,
            fee_growth_outside_a: d.fee_growth_outside_a,
            fee_growth_outside_b: d.fee_growth_outside_b,
            reward_growths_outside: d.reward_growths_outside,
        },
    }
}

/// The dynamic tick stored for an update: its data when initialized.
pub open spec fn spec_dynamic_from_update(u: TickUpdate) -> DynamicTick {
    if u.initialized {
        DynamicTick::Initialized(DynamicTickData {
            liquidity_net: u.liquidity_net,
            liquidity_gross: u.liquidity_gross,
            fee_growth_outside_a: u.fee_growth_outside_a,
            fee_growth_outside_b: u.fee_growth_outside_b,
            reward_growths_outside: u.reward_growths_outside,
        })
    } else {
        DynamicTick::Uninitialized
    }
}

impl DynamicTick {
    /// The dynamic tick that stores an update.
    pub fn from_update(update: &TickUpdate) -> (r: DynamicTick)
        ensures
            r == spec_dynamic_from_update(*update),
    {
        if update.initialized {
            DynamicTick::Initialized(DynamicTickData {
                liquidity_net: update.liquidity_net,
                liquidity_gross: update.liquidity_gross,
                fee_growth_outside_a: update.fee_growth_outside_a,
                fee_growth_outside_b: update.fee_growth_outside_b,
                reward_growths_outside: update.reward_growths_outside,
            })
        } else {
            DynamicTick::Uninitialized
        }
    }

    /// The tick this dynamic tick stands for: uninitialized and zero, or
    /// initialized with its data.
    pub fn into_tick(self) -> (r: Tick)
        ensures
            r == spec_tick_of(self),
    {
        match self {
            DynamicTick::Uninitialized => {
                let t = Tick::default();
                proof { lemma_zero_tick(t); }
                t
            },
            DynamicTick::Initialized(d) => Tick {
                initialized: true,
                liquidity_net: d.liquidity_net,
                liquidity_gross: d.liquidity_gross,
                fee_growth_outside_a: d.fee_growth_outside_a,
                fee_growth_outside_b: d.fee_growth_outside_b,
                reward_growths_outside: d.reward_growths_outside,
            },
        }
    }
}

/// Every zero tick is the zero tick.
pub proof fn lemma_zero_tick(t: Tick)
    requires
        t.is_zero(),
    ensures
        t == spec_zero_tick(),
{
    let z: [u128; 3] = [0u128, 0u128, 0u128];
    assert(z@ =~= t.reward_growths_outside@);
    vstd::array::axiom_array_ext_equal(z, t.reward_growths_outside);
}

/// Reading back the bytes of tick data gives the data.
pub proof fn lemma_decode_encode_data(d: DynamicTickData)
    ensures
        spec_encode_data(d).len() == DYNAMIC_TICK_DATA_LEN,
        spec_decode_data(spec_encode_data(d)) == d,
{
    vstd::bytes::lemma_auto_spec_u128_to_from_le_bytes();
    let s = spec_encode_data(d);
    assert(s.subrange(0, 16) =~= spec_u128_to_le_bytes(d.liquidity_net as u128));
    assert(s.subrange(16, 32) =~= spec_u128_to_le_bytes(d.liquidity_gross));
    assert(s.subrange(32, 48) =~= spec_u128_to_le_bytes(d.fee_growth_outside_a));
    assert(s.subrange(48, 64) =~= spec_u128_to_le_bytes(d.fee_growth_outside_b));
    assert(s.subrange(64, 80) =~= spec_u128_to_le_bytes(d.reward_growths_outside[0]));
    assert(s.subrange(80, 96) =~= spec_u128_to_le_bytes(d.reward_growths_outside[1]));
    assert(s.subrange(96, 112) =~= spec_u128_to_le_bytes(d.reward_growths_outside[2]));
    let net = d.liquidity_net;
    assert((net as u128) as i128 == net) by (bit_vector);
    let r = spec_decode_data(s);
    assert(r.reward_growths_outside@ =~= d.reward_growths_outside@);
    vstd::array::axiom_array_ext_equal(r.reward_growths_outside, d.reward_growths_outside);
}

/// Append the 16 little-endian bytes of `x`.
fn push_u128(out: &mut Vec<u8>, x: u128)
    ensures
        final(out)@ == old(out)@ + spec_u128_to_le_bytes(x),
{
    let mut b = vstd::bytes::u128_to_le_bytes(x);
    out.append(&mut b);
}

/// The `u128` stored little-endian at `s[pos..pos + 16]`.
fn read_u128(s: &[u8], pos: usize) -> (r: u128)
    requires
        pos + 16 <= s@.len() <= usize::MAX,
    ensures
        r == u128_at(s@, pos as int),
{
    vstd::bytes::u128_from_le_bytes(vstd::slice::slice_subrange(s, pos, pos + 16))
}

impl DynamicTickData {
    /// The 112 bytes of this tick data.
    pub fn encode(&self) -> (r: Vec<u8>)
        ensures
            r@ == spec_encode_data(*self),
    {
        let mut out: Vec<u8> = Vec::new();
        push_u128(&mut out, self.liquidity_net as u128);
        push_u128(&mut out, self.liquidity_gross);
        push_u128(&mut out, self.fee_growth_outside_a);
        push_u128(&mut out, self.fee_growth_outside_b);
        push_u128(&mut out, self.reward_growths_outside[0]);
        push_u128(&mut out, self.reward_growths_outside[1]);
        push_u128(&mut out, self.reward_growths_outside[2]);
        proof {
            assert(out@ =~= spec_encode_data(*self));
        }
        out
    }

    /// Tick data read from the 112 bytes at `s[pos..pos + 112]`.
    pub fn decode(s: &[u8], pos: usize) -> (r: DynamicTickData)
        requires
            pos + 112 <= s@.len() <= usize::MAX,
        ensures
            r == spec_decode_data(s@.subrange(pos as int, pos + 112)),
    {
        let r = DynamicTickData {
            liquidity_net: #[verifier::truncate] (read_u128(s, pos) as i128),
            liquidity_gross: read_u128(s, pos + 16),
            fee_growth_outside_a: read_u128(s, pos + 32),
            fee_growth_outside_b: read_u128(s, pos + 48),
            reward_growths_outside: [read_u128(s, pos + 64), read_u128(s, pos + 80), read_u128(s, pos + 96)],
        };
        proof {
            let sub = s@.subrange(pos as int, pos + 112);
            assert forall|i: int| 0 <= i <= 96 implies #[trigger] sub.subrange(i, i + 16) =~= s@.subrange(pos + i, pos + i + 16) by {}
            assert(sub.subrange(0, 16) =~= s@.subrange(pos as int, pos + 16));
            assert(sub.subrange(16, 32) =~= s@.subrange(pos + 16, pos + 32));
            assert(sub.subrange(32, 48) =~= s@.subrange(pos + 32, pos + 48));
            assert(sub.subrange(48, 64) =~= s@.subrange(pos + 48, pos + 64));
            assert(sub.subrange(64, 80) =~= s@.subrange(pos + 64, pos + 80));
            assert(sub.subrange(80, 96) =~= s@.subrange(pos + 80, pos + 96));
            assert(sub.subrange(96, 112) =~= s@.subrange(pos + 96, pos + 112));
        }
        r
    }
}

impl DynamicTick {
    /// The bytes of this tick: tag 0, or tag 1 followed by the tick data.
    pub fn encode(&self) -> (r: Vec<u8>)
        ensures
            r@ == spec_encode_tick(*self),
    {
        match self {
            DynamicTick::Uninitialized => {
                let mut out: Vec<u8> = Vec::new();
                out.push(0u8);
                proof { assert(out@ =~= seq![0u8]); }
                out
            },
            DynamicTick::Initialized(d) => {
                let mut out: Vec<u8> = Vec::new();
                out.push(1u8);
                let mut body = d.encode();
                out.append(&mut body);
                proof { assert(out@ =~= seq![1u8] + spec_encode_data(*d)); }
                out
            },
        }
    }

    /// The tick at `s[pos..]`: tag 0 is uninitialized, tag 1 is followed by
    /// the tick data, any other tag is `InvalidTickData`.
    pub fn decode(s: &[u8], pos: usize) -> (r: Result<DynamicTick, ErrorCode>)
        requires
            pos + DYNAMIC_TICK_INITIALIZED_LEN <= s@.len() <= usize::MAX,
        ensures
            r == spec_decode_tick(s@.subrange(pos as int, pos + 113)),
    {
        let tag = s[pos];
        proof {
            let sub = s@.subrange(pos as int, pos + 113);
            assert(sub[0] == tag);
            assert(sub.subrange(1, 113) =~= s@.subrange(pos + 1, pos + 1 + 112));
        }
        if tag == 0 {
            Ok(DynamicTick::Uninitialized)
        } else if tag == 1 {
            Ok(DynamicTick::Initialized(DynamicTickData::decode(s, pos + 1)))
        } else {
            Err(ErrorCode::InvalidTickData)
        }
    }
}

/// `data` with `data[start..]` rotated right by `n`.
fn rotate_right_from(data: &mut Vec<u8>, start: usize, n: usize)
    requires
        start + n <= old(data)@.len(),
    ensures
        final(data)@ == spec_rotate_right(old(data)@, start as int, n as int),
{
    let len = data.len();
    let mut out = vstd::slice::slice_to_vec(vstd::slice::slice_subrange(data.as_slice(), 0, start));
    let mut tail = vstd::slice::slice_to_vec(vstd::slice::slice_subrange(data.as_slice(), len - n, len));
    let mut mid = vstd::slice::slice_to_vec(vstd::slice::slice_subrange(data.as_slice(), start, len - n));
    out.append(&mut tail);
    out.append(&mut mid);
    *data = out;
}

/// `data` with `data[start..]` rotated left by `n`.
fn rotate_left_from(data: &mut Vec<u8>, start: usize, n: usize)
    requires
        start + n <= old(data)@.len(),
    ensures
        final(data)@ == spec_rotate_left(old(data)@, start as int, n as int),
{
    let len = data.len();
    let mut out = vstd::slice::slice_to_vec(vstd::slice::slice_subrange(data.as_slice(), 0, start));
    let mut rest = vstd::slice::slice_to_vec(vstd::slice::slice_subrange(data.as_slice(), start + n, len));
    let mut head = vstd::slice::slice_to_vec(vstd::slice::slice_subrange(data.as_slice(), start, start + n));
    out.append(&mut rest);
    out.append(&mut head);
    *data = out;
}

/// `data` with `w` written at `pos`.
fn overwrite(data: &mut Vec<u8>, pos: usize, w: &Vec<u8>)
    requires
        pos + w@.len() <= old(data)@.len(),
    ensures
        final(data)@ == spec_overwrite(old(data)@, pos as int, w@),
{
    let len = data.len();
    let mut out = vstd::slice::slice_to_vec(vstd::slice::slice_subrange(data.as_slice(), 0, pos));
    let mut mid = vstd::slice::slice_to_vec(w.as_slice());
    let mut rest = vstd::slice::slice_to_vec(vstd::slice::slice_subrange(data.as_slice(), pos + w.len(), len));
    out.append(&mut mid);
    out.append(&mut rest);
    *data = out;
}

/// A variable-size tick array, kept as the bytes of its account after the
/// discriminator: start tick index (4 bytes), pool address (32), bitmap of
/// initialized ticks (16) and the ticks, 1 byte for an uninitialized tick and
/// 113 for an initialized one.
pub struct DynamicTickArrayLoader {
    data: Vec<u8>,
}

impl DynamicTickArrayLoader {
    pub closed spec fn spec_data(&self) -> Seq<u8> {
        self.data@
    }

    /// How the array's view reads its bytes.
    pub proof fn lemma_view(&self)
        ensures
            self.wf() == spec_layout_wf(self.spec_data()),
            self.spec_sized() == (self.spec_data().len() == LOADER_LEN),
            self.spec_ticks() == spec_layout_ticks(self.spec_data()),
            self.spec_whirlpool() == self.spec_data().subrange(4, 36),
            self.spec_start_tick_index() == vstd::bytes::spec_u32_from_le_bytes(self.spec_data().subrange(0, 4)) as i32,
    {
    }

    /// Read a tick array from account bytes (after the discriminator): its
    /// first `LOADER_LEN` bytes, padded with zeros when there are fewer. The
    /// bytes are taken as they are; its ticks can be read when every tick tag
    /// agrees with the bitmap.
    pub fn load(data: &[u8]) -> (r: DynamicTickArrayLoader)
        ensures
            r.spec_sized(),
            r.spec_data() == spec_loader_bytes(data@),
            r.wf() == spec_layout_wf(r.spec_data()),
    {
        let n = if data.len() < LOADER_LEN { data.len() } else { LOADER_LEN };
        let prefix = vstd::slice::slice_subrange(data, 0, n);
        let mut bytes = vstd::slice::slice_to_vec(prefix);
        let ghost head = data@.subrange(0, n as int);
        while bytes.len() < LOADER_LEN
            invariant
                n <= bytes@.len() <= LOADER_LEN,
                head.len() == n,
                bytes@ == head + Seq::new((bytes@.len() - n) as nat, |i: int| 0u8),
            decreases LOADER_LEN - bytes@.len(),
        {
            bytes.push(0u8);
            proof {
                assert(bytes@ =~= head + Seq::new((bytes@.len() - n) as nat, |i: int| 0u8));
            }
        }
        proof {
            if data@.len() >= LOADER_LEN {
                assert(bytes@ =~= data@.subrange(0, LOADER_LEN as int));
            } else {
                assert(head =~= data@);
            }
        }
        DynamicTickArrayLoader { data: bytes }
    }

    /// The account bytes this array holds (after the discriminator).
    pub fn as_bytes(&self) -> (r: &Vec<u8>)
        ensures
            r@ == self.spec_data(),
    {
        &self.data
    }

    /// Bind this array to a pool and a start index; a start index that cannot
    /// start a tick array for the pool's tick spacing is `InvalidStartTick`
    /// and changes nothing. The ticks stay.
    pub fn initialize(&mut self, whirlpool: &WhirlpoolAccount, start_tick_index: i32) -> (r: Result<(), ErrorCode>)
        requires
            old(self).spec_sized(),
            whirlpool.whirlpool.tick_spacing > 0,
        ensures
            final(self).spec_sized(),
            final(self).wf() == old(self).wf(),
            crate::tick::spec_is_valid_start_tick(start_tick_index as int, whirlpool.whirlpool.tick_spacing as int) ==> {
                &&& r is Ok
                &&& final(self).spec_start_tick_index() == start_tick_index
                &&& final(self).spec_whirlpool() == whirlpool.key.0@
                &&& final(self).spec_ticks() == old(self).spec_ticks()
                &&& final(self).spec_data().subrange(36, LOADER_LEN as int)
                    == old(self).spec_data().subrange(36, LOADER_LEN as int)
            },
            !crate::tick::spec_is_valid_start_tick(start_tick_index as int, whirlpool.whirlpool.tick_spacing as int) ==> {
                &&& r == Err::<(), ErrorCode>(ErrorCode::InvalidStartTick)
                &&& final(self).spec_data() == old(self).spec_data()
            },
    {
        if !Tick::check_is_valid_start_tick(start_tick_index, whirlpool.whirlpool.tick_spacing) {
            return Err(ErrorCode::InvalidStartTick);
        }
        let ghost d0 = self.data@;
        let start_bytes = vstd::bytes::u32_to_le_bytes(start_tick_index as u32);
        overwrite(&mut self.data, START_TICK_INDEX_OFFSET, &start_bytes);
        let key_bytes = vstd::slice::slice_to_vec(vstd::array::array_as_slice(&whirlpool.key.0));
        overwrite(&mut self.data, WHIRLPOOL_OFFSET, &key_bytes);
        proof {
            let d = self.data@;
            assert(d.subrange(36, LOADER_LEN as int) =~= d0.subrange(36, LOADER_LEN as int));
            lemma_header_change(d0, d);
            vstd::bytes::lemma_auto_spec_u32_to_from_le_bytes();
            assert(d.subrange(0, 4) =~= vstd::bytes::spec_u32_to_le_bytes(start_tick_index as u32));
            let x = start_tick_index;
            assert((x as u32) as i32 == x) by (bit_vector);
            assert(d.subrange(4, 36) =~= whirlpool.key.0@);
        }
        Ok(())
    }

    fn tick_bitmap(&self) -> (r: u128)
        requires
            self.data@.len() == LOADER_LEN,
        ensures
            r == spec_bitmap(self.data@),
    {
        read_u128(self.data.as_slice(), TICK_BITMAP_OFFSET)
    }

    fn is_initialized_tick(tick_bitmap: &u128, tick_offset: isize) -> (r: bool)
        requires
            0 <= tick_offset < 128,
        ensures
            r == spec_bit(*tick_bitmap, tick_offset as int),
    {
        (*tick_bitmap & (1u128 << (tick_offset as u128))) != 0
    }

    /// Byte position of tick `tick_offset` within the tick data; a negative
    /// offset is `TickNotFound`.
    fn byte_offset(&self, tick_offset: isize) -> (r: Result<usize, ErrorCode>)
        requires
            self.data@.len() == LOADER_LEN,
            tick_offset < 88,
        ensures
            tick_offset < 0 ==> r == Err::<usize, ErrorCode>(ErrorCode::TickNotFound),
            tick_offset >= 0 ==> r == Ok::<usize, ErrorCode>(spec_byte_offset(spec_bitmap(self.data@), tick_offset as int) as usize),
    {
        if tick_offset < 0 {
            return Err(ErrorCode::TickNotFound);
        }
        let tick_bitmap = self.tick_bitmap();
        let k = tick_offset as usize;
        let mut initialized_ticks: usize = 0;
        let mut j: usize = 0;
        while j < k
            invariant
                k < 88,
                j <= k,
                initialized_ticks == spec_count(tick_bitmap, j as int),
                initialized_ticks <= j,
            decreases k - j,
        {
            if Self::is_initialized_tick(&tick_bitmap, j as isize) {
                initialized_ticks = initialized_ticks + 1;
            }
            j = j + 1;
        }
        let uninitialized_ticks = k - initialized_ticks;
        Ok(initialized_ticks * DYNAMIC_TICK_INITIALIZED_LEN + uninitialized_ticks * DYNAMIC_TICK_UNINITIALIZED_LEN)
    }

    fn update_tick_bitmap(&mut self, tick_offset: isize, initialized: bool)
        requires
            old(self).data@.len() == LOADER_LEN,
            0 <= tick_offset < 88,
        ensures
            final(self).data@ == spec_overwrite(old(self).data@, TICK_BITMAP_OFFSET as int,
                spec_u128_to_le_bytes(if initialized {
                    spec_bitmap(old(self).data@) | (1u128 << (tick_offset as u128))
                } else {
                    spec_bitmap(old(self).data@) & !(1u128 << (tick_offset as u128))
                })),
    {
        let mut tick_bitmap = self.tick_bitmap();
        if initialized {
            tick_bitmap = tick_bitmap | (1u128 << (tick_offset as u128));
        } else {
            tick_bitmap = tick_bitmap & !(1u128 << (tick_offset as u128));
        }
        let bytes = vstd::bytes::u128_to_le_bytes(tick_bitmap);
        overwrite(&mut self.data, TICK_BITMAP_OFFSET, &bytes);
    }
}

impl TickArrayType for DynamicTickArrayLoader {
    closed spec fn wf(&self) -> bool {
        spec_layout_wf(self.data@)
    }

    closed spec fn spec_sized(&self) -> bool {
        self.data@.len() == LOADER_LEN
    }

    proof fn lemma_wf_sized(&self) {
    }

    closed spec fn spec_start_tick_index(&self) -> i32 {
        vstd::bytes::spec_u32_from_le_bytes(self.data@.subrange(0, 4)) as i32
    }

    closed spec fn spec_whirlpool(&self) -> Seq<u8> {
        self.data@.subrange(4, 36)
    }

    closed spec fn spec_ticks(&self) -> Seq<Tick> {
        spec_layout_ticks(self.data@)
    }

    open spec fn spec_stored_tick(&self, update: TickUpdate) -> Tick {
        spec_tick_of(spec_dynamic_from_update(update))
    }

    open spec fn spec_variable_size(&self) -> bool {
        true
    }

    fn is_variable_size(&self) -> (r: bool) {
        true
    }

    fn start_tick_index(&self) -> (r: i32) {
        let v = vstd::bytes::u32_from_le_bytes(vstd::slice::slice_subrange(self.data.as_slice(), 0, 4));
        v as i32
    }

    fn whirlpool(&self) -> (r: Pubkey) {
        let mut key = [0u8; 32];
        let mut i: usize = 0;
        while i < 32
            invariant
                self.data@.len() == LOADER_LEN,
                i <= 32,
                forall|j: int| 0 <= j < i ==> key@[j] == self.data@[4 + j],
            decreases 32 - i,
        {
            key[i] = self.data[WHIRLPOOL_OFFSET + i];
            i = i + 1;
        }
        proof {
            assert(key@ =~= self.data@.subrange(4, 36));
        }
        Pubkey(key)
    }

    fn get_next_init_tick_index(&self, tick_index: i32, tick_spacing: u16, a_to_b: bool) -> (r: Result<Option<i32>, ErrorCode>) {
        if tick_spacing == 0 {
            return Err(ErrorCode::InvalidTickSpacing);
        }
        if !self.in_search_range(tick_index, tick_spacing, !a_to_b) {
            return Err(ErrorCode::InvalidTickArraySequence);
        }
        let ghost start = self.spec_start_tick_index() as int;
        let ghost offset = spec_tick_offset(start, tick_index as int, tick_spacing as int);
        let ghost ticks = self.spec_ticks();
        proof {
            lemma_offset_in_range(start, tick_index as int, tick_spacing as int, !a_to_b);
        }
        let mut curr_offset = match self.tick_offset(tick_index, tick_spacing) {
            Ok(value) => value as i32,
            Err(e) => return Err(e),
        };
        if !a_to_b {
            curr_offset = curr_offset + 1;
        }
        let ghost target = if a_to_b { spec_search_down(ticks, offset) } else { spec_search_up(ticks, offset + 1) };
        let tick_bitmap = self.tick_bitmap();
        let start_tick_index = self.start_tick_index();
        while 0 <= curr_offset && curr_offset < TICK_ARRAY_SIZE
            invariant
                -1 <= curr_offset <= TICK_ARRAY_SIZE,
                a_to_b ==> curr_offset < TICK_ARRAY_SIZE,
                !a_to_b ==> curr_offset >= 0,
                tick_spacing > 0,
                self.wf(),
                ticks == self.spec_ticks(),
                tick_bitmap == spec_bitmap(self.data@),
                spec_range_fits(start, tick_spacing as int),
                start == start_tick_index,
                start == self.spec_start_tick_index(),
                spec_in_search_range(start, tick_index as int, tick_spacing as int, !a_to_b),
                offset == spec_tick_offset(start, tick_index as int, tick_spacing as int),
                target == (if a_to_b { spec_search_down(ticks, offset) } else { spec_search_up(ticks, offset + 1) }),
                a_to_b ==> target == spec_search_down(ticks, curr_offset as int),
                !a_to_b ==> target == spec_search_up(ticks, curr_offset as int),
            decreases (if a_to_b { curr_offset + 1 } else { TICK_ARRAY_SIZE - curr_offset }),
        {
            proof {
                lemma_layout_initialized(self.data@, curr_offset as int);
            }
            let initialized = Self::is_initialized_tick(&tick_bitmap, curr_offset as isize);
            if initialized {
                proof {
                    assert(0 <= curr_offset * tick_spacing <= 87 * tick_spacing) by (nonlinear_arith)
                        requires 0 <= curr_offset < 88, tick_spacing > 0;
                    if a_to_b {
                        assert(spec_search_down(ticks, curr_offset as int) == Some(curr_offset as int));
                    } else {
                        assert(spec_search_up(ticks, curr_offset as int) == Some(curr_offset as int));
                    }
                    assert(target == Some(curr_offset as int));
                    assert(crate::tick_array::spec_next_init_tick_index(ticks, start, tick_index as int, tick_spacing as int, a_to_b)
                        == Ok::<Option<i32>, ErrorCode>(Some((curr_offset * tick_spacing + start) as i32)));
                }
                return Ok(Some((curr_offset * tick_spacing as i32) + start_tick_index));
            }
            curr_offset = if a_to_b { curr_offset - 1 } else { curr_offset + 1 };
        }
        Ok(None)
    }

    fn get_tick(&self, tick_index: i32, tick_spacing: u16) -> (r: Result<Tick, ErrorCode>) {
        if !self.check_in_array_bounds(tick_index, tick_spacing)
            || !Tick::check_is_usable_tick(tick_index, tick_spacing)
        {
            return Err(ErrorCode::TickNotFound);
        }
        proof {
            lemma_offset_in_range(self.spec_start_tick_index() as int, tick_index as int, tick_spacing as int, false);
        }
        let tick_offset = match self.tick_offset(tick_index, tick_spacing) {
            Ok(v) => v,
            Err(e) => return Err(e),
        };
        let byte_offset = match self.byte_offset(tick_offset) {
            Ok(v) => v,
            Err(e) => return Err(e),
        };
        proof {
            lemma_byte_offset_bound(spec_bitmap(self.data@), tick_offset as int);
            lemma_layout_initialized(self.data@, tick_offset as int);
        }
        match DynamicTick::decode(self.data.as_slice(), TICK_DATA_OFFSET + byte_offset) {
            Ok(tick) => Ok(tick.into_tick()),
            Err(e) => Err(e),
        }
    }

    /// Beyond the trait's contract: the bytes become the layout with `update`
    /// stored at the tick's slot, or stay as they were when no slot holds it.
    fn update_tick(&mut self, tick_index: i32, tick_spacing: u16, update: &TickUpdate) -> (r: Result<(), ErrorCode>)
        ensures
            match spec_tick_slot(old(self).spec_start_tick_index() as int, tick_index as int, tick_spacing as int) {
                Some(o) => final(self).spec_data() == spec_update_layout(old(self).spec_data(), o, *update),
                None => final(self).spec_data() == old(self).spec_data(),
            },
    {
        if !self.check_in_array_bounds(tick_index, tick_spacing)
            || !Tick::check_is_usable_tick(tick_index, tick_spacing)
        {
            return Err(ErrorCode::TickNotFound);
        }
        proof {
            lemma_offset_in_range(self.spec_start_tick_index() as int, tick_index as int, tick_spacing as int, false);
        }
        let tick_offset = match self.tick_offset(tick_index, tick_spacing) {
            Ok(v) => v,
            Err(e) => return Err(e),
        };
        let byte_offset = match self.byte_offset(tick_offset) {
            Ok(v) => v,
            Err(e) => return Err(e),
        };
        let ghost d0 = self.data@;
        let ghost o = tick_offset as int;
        proof {
            lemma_byte_offset_bound(spec_bitmap(d0), o);
            lemma_layout_initialized(d0, o);
            lemma_update_layout(d0, o, *update);
        }
        let pos = TICK_DATA_OFFSET + byte_offset;
        let current = match DynamicTick::decode(self.data.as_slice(), pos) {
            Ok(t) => t,
            Err(e) => return Err(e),
        };
        let was_initialized = match current {
            DynamicTick::Initialized(_) => true,
            DynamicTick::Uninitialized => false,
        };
        proof {
            assert(was_initialized == spec_bit(spec_bitmap(d0), o));
        }
        if !was_initialized && update.initialized {
            rotate_right_from(&mut self.data, pos, DYNAMIC_TICK_DATA_LEN);
            proof {
                assert(self.data@.subrange(36, 52) =~= d0.subrange(36, 52));
            }
            self.update_tick_bitmap(tick_offset, true);
        }
        if was_initialized && !update.initialized {
            rotate_left_from(&mut self.data, pos, DYNAMIC_TICK_DATA_LEN);
            proof {
                assert(self.data@.subrange(36, 52) =~= d0.subrange(36, 52));
            }
            self.update_tick_bitmap(tick_offset, false);
        }
        let bytes = DynamicTick::from_update(update).encode();
        proof {
            crate::dynamic_tick_layout::lemma_encode_len(spec_dynamic_from_update(*update));
        }
        overwrite(&mut self.data, pos, &bytes);
        proof {
            assert(self.data@ == spec_update_layout(d0, o, *update));
            assert(self.data@.subrange(0, 4) =~= self.data@.subrange(0, 36).subrange(0, 4));
            assert(d0.subrange(0, 4) =~= d0.subrange(0, 36).subrange(0, 4));
            assert(self.data@.subrange(4, 36) =~= self.data@.subrange(0, 36).subrange(4, 36));
            assert(d0.subrange(4, 36) =~= d0.subrange(0, 36).subrange(4, 36));
        }
        Ok(())
    }
}

} // verus!
