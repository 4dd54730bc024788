//! Byte layout of a variable-size tick array and the facts about it that
//! reading and updating ticks rest on.
use vstd::prelude::*;
use crate::dynamic_tick_array::{
    spec_decode_tick, spec_encode_tick, spec_tick_of, u128_at, DynamicTick,
};
use crate::tick::{Tick, TickUpdate};
use crate::dynamic_tick_array::spec_dynamic_from_update;
use vstd::bytes::spec_u128_to_le_bytes;

verus! {

/// Size of the loader's data: start index, pool address, bitmap and the
/// largest possible tick data.
pub const LOADER_LEN: usize = 10004;
pub const START_TICK_INDEX_OFFSET: usize = 0;
pub const WHIRLPOOL_OFFSET: usize = 4;
pub const TICK_BITMAP_OFFSET: usize = 36;
pub const TICK_DATA_OFFSET: usize = 52;

/// Bit `k` of the bitmap is set.
pub open spec fn spec_bit(b: u128, k: int) -> bool {
    b & (1u128 << (k as u128)) != 0
}

/// Number of set bits below position `k`.
pub open spec fn spec_count(b: u128, k: int) -> int
    decreases k,
{
    if k <= 0 {
        0
    } else {
        spec_count(b, k - 1) + (if spec_bit(b, k - 1) { 1int } else { 0int })
    }
}

/// Byte position, within the tick data, of tick `k`: 113 bytes for each
/// initialized tick below it and 1 byte for each uninitialized one.
pub open spec fn spec_byte_offset(b: u128, k: int) -> int {
    k + 112 * spec_count(b, k)
}

/// The bitmap stored in the data.
pub open spec fn spec_bitmap(d: Seq<u8>) -> u128 {
    u128_at(d, TICK_BITMAP_OFFSET as int)
}

/// The 113 bytes that tick `k` is read from.
pub open spec fn spec_tick_bytes(d: Seq<u8>, k: int) -> Seq<u8> {
    let p = TICK_DATA_OFFSET + spec_byte_offset(spec_bitmap(d), k);
    d.subrange(p, p + 113)
}

/// The dynamic tick stored at position `k`.
pub open spec fn spec_dynamic_tick_at(d: Seq<u8>, k: int) -> DynamicTick {
    match spec_decode_tick(spec_tick_bytes(d, k)) {
        Ok(t) => t,
        Err(_) => DynamicTick::Uninitialized,
    }
}

/// The invariant of the data: 10004 bytes, and the tag of every tick is 1
/// when its bitmap bit is set and 0 otherwise.
pub open spec fn spec_layout_wf(d: Seq<u8>) -> bool {
    &&& d.len() == LOADER_LEN
    &&& forall|k: int| 0 <= k < 88 ==>
        #[trigger] d[TICK_DATA_OFFSET + spec_byte_offset(spec_bitmap(d), k)]
            == (if spec_bit(spec_bitmap(d), k) { 1u8 } else { 0u8 })
}

/// The 88 ticks the data holds.
pub open spec fn spec_layout_ticks(d: Seq<u8>) -> Seq<Tick> {
    Seq::new(88, |k: int| spec_tick_of(spec_dynamic_tick_at(d, k)))
}

/// Setting bit `o` leaves every other bit.
pub proof fn lemma_bit_set(b: u128, o: u128, j: u128)
    by (bit_vector)
    requires
        o < 128,
        j < 128,
    ensures
        ((b | (1u128 << o)) & (1u128 << j) != 0) == (j == o || b & (1u128 << j) != 0),
{
}

/// Clearing bit `o` leaves every other bit.
pub proof fn lemma_bit_clear(b: u128, o: u128, j: u128)
    by (bit_vector)
    requires
        o < 128,
        j < 128,
    ensures
        ((b & !(1u128 << o)) & (1u128 << j) != 0) == (j != o && b & (1u128 << j) != 0),
{
}

/// Counts grow by at most one per position.
pub proof fn lemma_count_bounds(b: u128, j: int, k: int)
    requires
        0 <= j <= k,
    ensures
        spec_count(b, j) <= spec_count(b, k) <= spec_count(b, j) + (k - j),
        0 <= spec_count(b, k) <= k,
    decreases k - j,
{
    if j < k {
        lemma_count_bounds(b, j, k - 1);
    } else {
        lemma_count_nonneg(b, k);
    }
}

proof fn lemma_count_nonneg(b: u128, k: int)
    requires
        k >= 0,
    ensures
        0 <= spec_count(b, k) <= k,
    decreases k,
{
    if k > 0 {
        lemma_count_nonneg(b, k - 1);
    }
}

/// Two bitmaps that agree below `k` count the same below `k`.
pub proof fn lemma_count_agree(b1: u128, b2: u128, k: int)
    requires
        forall|j: int| 0 <= j < k ==> spec_bit(b1, j) == spec_bit(b2, j),
    ensures
        spec_count(b1, k) == spec_count(b2, k),
    decreases k,
{
    if k > 0 {
        lemma_count_agree(b1, b2, k - 1);
    }
}

/// Two bitmaps that differ only at `o < k` differ in count below `k` by
/// what bit `o` contributes.
pub proof fn lemma_count_flip(b1: u128, b2: u128, o: int, k: int)
    requires
        0 <= o < k,
        forall|j: int| 0 <= j < k && j != o ==> spec_bit(b1, j) == spec_bit(b2, j),
    ensures
        spec_count(b2, k) - spec_count(b1, k)
            == (if spec_bit(b2, o) { 1int } else { 0int }) - (if spec_bit(b1, o) { 1int } else { 0int }),
    decreases k,
{
    if k == o + 1 {
        lemma_count_agree(b1, b2, o);
    } else {
        lemma_count_flip(b1, b2, o, k - 1);
    }
}

/// Ticks are laid out in order: tick `j` ends at or before tick `k` starts.
pub proof fn lemma_byte_offset_order(b: u128, j: int, k: int)
    requires
        0 <= j < k,
    ensures
        spec_byte_offset(b, j) + (if spec_bit(b, j) { 113int } else { 1int }) <= spec_byte_offset(b, k),
{
    lemma_count_bounds(b, j + 1, k);
}

/// Every tick of the 88 can be read whole from the tick data.
pub proof fn lemma_byte_offset_bound(b: u128, k: int)
    requires
        0 <= k < 88,
    ensures
        0 <= spec_byte_offset(b, k) <= 87 * 113,
        spec_byte_offset(b, k) <= k * 113,
{
    lemma_count_bounds(b, 0, k);
}

/// With bit `o` clear, a tick above `o` starts at most at byte 9719.
pub proof fn lemma_byte_offset_bound_gap(b: u128, o: int, k: int)
    requires
        0 <= o < k < 88,
        !spec_bit(b, o),
    ensures
        spec_byte_offset(b, k) <= 87 + 112 * 86,
{
    lemma_count_bounds(b, 0, o);
    lemma_count_bounds(b, o + 1, k);
}

/// Under the invariant, a tick is initialized exactly when its bit is set.
pub proof fn lemma_layout_initialized(d: Seq<u8>, k: int)
    requires
        spec_layout_wf(d),
        0 <= k < 88,
    ensures
        spec_layout_ticks(d)[k].initialized == spec_bit(spec_bitmap(d), k),
        spec_decode_tick(spec_tick_bytes(d, k)) is Ok,
{
    let p = TICK_DATA_OFFSET + spec_byte_offset(spec_bitmap(d), k);
    lemma_byte_offset_bound(spec_bitmap(d), k);
    assert(spec_tick_bytes(d, k)[0] == d[p]);
}

/// Reading back the bytes of a tick gives the tick, whatever follows them.
pub proof fn lemma_decode_encode_tick(t: DynamicTick, rest: Seq<u8>)
    requires
        spec_encode_tick(t).len() + rest.len() >= 113,
    ensures
        spec_decode_tick((spec_encode_tick(t) + rest).subrange(0, 113)) == Ok::<DynamicTick, crate::errors::ErrorCode>(t),
{
    let s = (spec_encode_tick(t) + rest).subrange(0, 113);
    match t {
        DynamicTick::Uninitialized => {
            assert(s[0] == 0u8);
        },
        DynamicTick::Initialized(data) => {
            crate::dynamic_tick_array::lemma_decode_encode_data(data);
            assert(s[0] == 1u8);
            assert(s.subrange(1, 113) =~= crate::dynamic_tick_array::spec_encode_data(data));
        },
    }
}

/// `s` with `s[start..]` rotated right by `n`.
pub open spec fn spec_rotate_right(s: Seq<u8>, start: int, n: int) -> Seq<u8> {
    s.subrange(0, start) + s.subrange(s.len() - n, s.len() as int) + s.subrange(start, s.len() - n)
}

/// `s` with `s[start..]` rotated left by `n`.
pub open spec fn spec_rotate_left(s: Seq<u8>, start: int, n: int) -> Seq<u8> {
    s.subrange(0, start) + s.subrange(start + n, s.len() as int) + s.subrange(start, start + n)
}

/// `s` with `w` written at `pos`.
pub open spec fn spec_overwrite(s: Seq<u8>, pos: int, w: Seq<u8>) -> Seq<u8> {
    s.subrange(0, pos) + w + s.subrange(pos + w.len(), s.len() as int)
}

pub proof fn lemma_rotate_right_index(s: Seq<u8>, start: int, n: int, i: int)
    requires
        0 <= start,
        0 <= n,
        start + n <= s.len(),
        0 <= i < s.len(),
    ensures
        spec_rotate_right(s, start, n).len() == s.len(),
        spec_rotate_right(s, start, n)[i] == (if i < start { s[i] } else if i < start + n {
            s[s.len() - n + (i - start)] } else { s[i - n] }),
{
}

pub proof fn lemma_rotate_left_index(s: Seq<u8>, start: int, n: int, i: int)
    requires
        0 <= start,
        0 <= n,
        start + n <= s.len(),
        0 <= i < s.len(),
    ensures
        spec_rotate_left(s, start, n).len() == s.len(),
        spec_rotate_left(s, start, n)[i] == (if i < start { s[i] } else if i < s.len() - n {
            s[i + n] } else { s[start + (i - (s.len() - n))] }),
{
}

pub proof fn lemma_overwrite_index(s: Seq<u8>, pos: int, w: Seq<u8>, i: int)
    requires
        0 <= pos,
        pos + w.len() <= s.len(),
        0 <= i < s.len(),
    ensures
        spec_overwrite(s, pos, w).len() == s.len(),
        spec_overwrite(s, pos, w)[i] == (if i < pos { s[i] } else if i < pos + w.len() {
            w[i - pos] } else { s[i] }),
{
}

/// Two byte strings whose first byte agrees, and whose 113 bytes agree
/// when that byte is 1, decode alike.
pub proof fn lemma_decode_agree(s1: Seq<u8>, s2: Seq<u8>)
    requires
        s1.len() == 113,
        s2.len() == 113,
        s1[0] == s2[0],
        s1[0] == 1 ==> s1 == s2,
    ensures
        spec_decode_tick(s1) == spec_decode_tick(s2),
{
}

/// The data after tick `o` takes update `u`: the bytes after the tick move
/// by 112 when the tick becomes initialized (right) or uninitialized (left),
/// the bitmap bit follows, and the tick's bytes are written in place.
pub open spec fn spec_update_layout(d: Seq<u8>, o: int, u: TickUpdate) -> Seq<u8> {
    let b = spec_bitmap(d);
    let p0 = TICK_DATA_OFFSET + spec_byte_offset(b, o);
    let enc = spec_encode_tick(spec_dynamic_from_update(u));
    let d2 = if !spec_bit(b, o) && u.initialized {
        spec_overwrite(spec_rotate_right(d, p0, 112), TICK_BITMAP_OFFSET as int,
            spec_u128_to_le_bytes(b | (1u128 << (o as u128))))
    } else if spec_bit(b, o) && !u.initialized {
        spec_overwrite(spec_rotate_left(d, p0, 112), TICK_BITMAP_OFFSET as int,
            spec_u128_to_le_bytes(b & !(1u128 << (o as u128))))
    } else {
        d
    };
    spec_overwrite(d2, p0, enc)
}

/// Length of the bytes of a tick: 113 when initialized, 1 otherwise.
pub proof fn lemma_encode_len(t: DynamicTick)
    ensures
        spec_encode_tick(t).len() == (if t is Initialized { 113int } else { 1int }),
        spec_encode_tick(t)[0] == (if t is Initialized { 1u8 } else { 0u8 }),
{
    if let DynamicTick::Initialized(data) = t {
        crate::dynamic_tick_array::lemma_decode_encode_data(data);
    }
}

/// A tick whose bytes moved from `pos` in `d` to `pos2` in `d2`, with the
/// same bit in both bitmaps, reads the same in both.
pub proof fn lemma_region_moved(d: Seq<u8>, d2: Seq<u8>, k: int)
    requires
        d.len() == LOADER_LEN,
        d2.len() == LOADER_LEN,
        0 <= k < 88,
        spec_bit(spec_bitmap(d), k) == spec_bit(spec_bitmap(d2), k),
        d[TICK_DATA_OFFSET + spec_byte_offset(spec_bitmap(d), k)]
            == (if spec_bit(spec_bitmap(d), k) { 1u8 } else { 0u8 }),
        ({
            let p = TICK_DATA_OFFSET + spec_byte_offset(spec_bitmap(d), k);
            let p2 = TICK_DATA_OFFSET + spec_byte_offset(spec_bitmap(d2), k);
            let n = if spec_bit(spec_bitmap(d), k) { 113int } else { 1int };
            d2.subrange(p2, p2 + n) == d.subrange(p, p + n)
        }),
    ensures
        d2[TICK_DATA_OFFSET + spec_byte_offset(spec_bitmap(d2), k)]
            == (if spec_bit(spec_bitmap(d2), k) { 1u8 } else { 0u8 }),
        spec_dynamic_tick_at(d2, k) == spec_dynamic_tick_at(d, k),
{
    let b = spec_bitmap(d);
    let b2 = spec_bitmap(d2);
    lemma_byte_offset_bound(b, k);
    lemma_byte_offset_bound(b2, k);
    let p = TICK_DATA_OFFSET + spec_byte_offset(b, k);
    let p2 = TICK_DATA_OFFSET + spec_byte_offset(b2, k);
    let n = if spec_bit(b, k) { 113int } else { 1int };
    assert(d2.subrange(p2, p2 + n)[0] == d.subrange(p, p + n)[0]);
    let s1 = spec_tick_bytes(d2, k);
    let s2 = spec_tick_bytes(d, k);
    assert(s1[0] == d2[p2]);
    assert(s2[0] == d[p]);
    if spec_bit(b, k) {
        assert forall|i: int| 0 <= i < 113 implies #[trigger] s1[i] == s2[i] by {
            assert(d2.subrange(p2, p2 + n)[i] == d.subrange(p, p + n)[i]);
        }
        assert(s1 =~= s2);
    }
    lemma_decode_agree(s1, s2);
}

/// The bitmap written into bytes 36..52 is read back.
pub proof fn lemma_bitmap_written(d: Seq<u8>, b: u128)
    requires
        d.len() == LOADER_LEN,
    ensures
        spec_bitmap(spec_overwrite(d, TICK_BITMAP_OFFSET as int, spec_u128_to_le_bytes(b))) == b,
{
    vstd::bytes::lemma_auto_spec_u128_to_from_le_bytes();
    let d2 = spec_overwrite(d, TICK_BITMAP_OFFSET as int, spec_u128_to_le_bytes(b));
    assert(d2.subrange(36, 52) =~= spec_u128_to_le_bytes(b));
}

/// What holds of the data after tick `o` takes update `u`: the invariant,
/// the tick at `o` reads as the update and every other tick as before, and
/// the start index and pool address bytes stay.
pub open spec fn spec_update_post(d: Seq<u8>, o: int, u: TickUpdate) -> bool {
    let d3 = spec_update_layout(d, o, u);
    &&& spec_layout_wf(d3)
    &&& spec_layout_ticks(d3) == spec_layout_ticks(d).update(o, spec_tick_of(spec_dynamic_from_update(u)))
    &&& d3.subrange(0, 36) == d.subrange(0, 36)
}

/// The bits of `b2` are those of `b` but at `o`.
pub open spec fn spec_bits_agree_except(b: u128, b2: u128, o: int) -> bool {
    forall|j: int| 0 <= j < 128 && j != o ==> #[trigger] spec_bit(b2, j) == spec_bit(b, j)
}

proof fn lemma_set_bits(b: u128, o: int)
    requires
        0 <= o < 128,
    ensures
        spec_bits_agree_except(b, b | (1u128 << (o as u128)), o),
        spec_bit(b | (1u128 << (o as u128)), o),
{
    assert forall|j: int| 0 <= j < 128 && j != o implies #[trigger] spec_bit(b | (1u128 << (o as u128)), j) == spec_bit(b, j) by {
        lemma_bit_set(b, o as u128, j as u128);
    }
    lemma_bit_set(b, o as u128, o as u128);
}

proof fn lemma_clear_bits(b: u128, o: int)
    requires
        0 <= o < 128,
    ensures
        spec_bits_agree_except(b, b & !(1u128 << (o as u128)), o),
        !spec_bit(b & !(1u128 << (o as u128)), o),
{
    assert forall|j: int| 0 <= j < 128 && j != o implies #[trigger] spec_bit(b & !(1u128 << (o as u128)), j) == spec_bit(b, j) by {
        lemma_bit_clear(b, o as u128, j as u128);
    }
    lemma_bit_clear(b, o as u128, o as u128);
}

/// Ticks below `o` keep their position and bytes.
proof fn lemma_below_unchanged(d: Seq<u8>, d3: Seq<u8>, o: int, k: int)
    requires
        spec_layout_wf(d),
        d3.len() == LOADER_LEN,
        0 <= k < o < 88,
        spec_bits_agree_except(spec_bitmap(d), spec_bitmap(d3), o),
        forall|i: int| TICK_DATA_OFFSET <= i < TICK_DATA_OFFSET + spec_byte_offset(spec_bitmap(d), o)
            ==> #[trigger] d3[i] == d[i],
    ensures
        d3[TICK_DATA_OFFSET + spec_byte_offset(spec_bitmap(d3), k)]
            == (if spec_bit(spec_bitmap(d3), k) { 1u8 } else { 0u8 }),
        spec_dynamic_tick_at(d3, k) == spec_dynamic_tick_at(d, k),
{
    let b = spec_bitmap(d);
    let b3 = spec_bitmap(d3);
    assert forall|j: int| 0 <= j < k implies spec_bit(b, j) == spec_bit(b3, j) by {
        assert(spec_bit(b3, j) == spec_bit(b, j));
    }
    lemma_count_agree(b, b3, k);
    lemma_byte_offset_order(b, k, o);
    lemma_byte_offset_bound(b, k);
    assert(spec_bit(b3, k) == spec_bit(b, k));
    let p = TICK_DATA_OFFSET + spec_byte_offset(b, k);
    let n = if spec_bit(b, k) { 113int } else { 1int };
    assert forall|i: int| 0 <= i < n implies #[trigger] d3.subrange(p, p + n)[i] == d.subrange(p, p + n)[i] by {
        assert(d3[p + i] == d[p + i]);
    }
    assert(d3.subrange(p, p + n) =~= d.subrange(p, p + n));
    lemma_region_moved(d, d3, k);
}

/// Update of a tick that becomes initialized.
proof fn lemma_update_layout_init(d: Seq<u8>, o: int, u: TickUpdate)
    requires
        spec_layout_wf(d),
        0 <= o < 88,
        !spec_bit(spec_bitmap(d), o),
        u.initialized,
    ensures
        spec_update_post(d, o, u),
{
    let b = spec_bitmap(d);
    let bo = spec_byte_offset(b, o);
    let p0 = TICK_DATA_OFFSET + bo;
    let t = spec_dynamic_from_update(u);
    let enc = spec_encode_tick(t);
    lemma_encode_len(t);
    lemma_byte_offset_bound(b, o);
    let b2 = b | (1u128 << (o as u128));
    let d1 = spec_rotate_right(d, p0, 112);
    let d2 = spec_overwrite(d1, TICK_BITMAP_OFFSET as int, spec_u128_to_le_bytes(b2));
    let d3 = spec_overwrite(d2, p0, enc);
    assert(d3 == spec_update_layout(d, o, u));
    vstd::bytes::lemma_auto_spec_u128_to_from_le_bytes();
    assert(d1.len() == LOADER_LEN);
    assert(d2.len() == LOADER_LEN);
    assert(d3.len() == LOADER_LEN);
    // pointwise description of the new data
    assert forall|i: int| 0 <= i < LOADER_LEN implies #[trigger] d3[i] == (
        if i < TICK_BITMAP_OFFSET { d[i] }
        else if i < TICK_DATA_OFFSET { spec_u128_to_le_bytes(b2)[i - TICK_BITMAP_OFFSET] }
        else if i < p0 { d[i] }
        else if i < p0 + 113 { enc[i - p0] }
        else { d[i - 112] }) by {
        lemma_overwrite_index(d2, p0, enc, i);
        if i < p0 || i >= p0 + 113 {
            lemma_overwrite_index(d1, TICK_BITMAP_OFFSET as int, spec_u128_to_le_bytes(b2), i);
            if i < TICK_BITMAP_OFFSET || i >= TICK_DATA_OFFSET {
                lemma_rotate_right_index(d, p0, 112, i);
            }
        }
    }
    // the bitmap
    lemma_bitmap_written(d1, b2);
    assert(d3.subrange(36, 52) =~= d2.subrange(36, 52)) by {
        assert forall|i: int| 0 <= i < 16 implies #[trigger] d3.subrange(36, 52)[i] == d2.subrange(36, 52)[i] by {
            lemma_overwrite_index(d2, p0, enc, 36 + i);
        }
    }
    assert(spec_bitmap(d3) == b2);
    lemma_set_bits(b, o);
    let b3 = spec_bitmap(d3);
    // ticks below o
    assert forall|k: int| #![trigger spec_byte_offset(b3, k)] 0 <= k < o implies
        d3[TICK_DATA_OFFSET + spec_byte_offset(b3, k)] == (if spec_bit(b3, k) { 1u8 } else { 0u8 })
        && spec_dynamic_tick_at(d3, k) == spec_dynamic_tick_at(d, k) by {
        lemma_below_unchanged(d, d3, o, k);
    }
    // tick o
    lemma_count_agree(b, b3, o);
    assert(spec_tick_bytes(d3, o) =~= enc);
    lemma_decode_encode_tick(t, Seq::<u8>::empty());
    assert((enc + Seq::<u8>::empty()).subrange(0, 113) =~= enc);
    assert(spec_dynamic_tick_at(d3, o) == t);
    // ticks above o
    assert forall|k: int| #![trigger spec_byte_offset(b3, k)] o < k < 88 implies
        d3[TICK_DATA_OFFSET + spec_byte_offset(b3, k)] == (if spec_bit(b3, k) { 1u8 } else { 0u8 })
        && spec_dynamic_tick_at(d3, k) == spec_dynamic_tick_at(d, k) by {
        lemma_count_flip(b, b3, o, k);
        lemma_byte_offset_order(b, o, k);
        lemma_byte_offset_bound_gap(b, o, k);
        assert(spec_bit(b3, k) == spec_bit(b, k));
        let p = TICK_DATA_OFFSET + spec_byte_offset(b, k);
        let n = if spec_bit(b, k) { 113int } else { 1int };
        assert forall|i: int| 0 <= i < n implies #[trigger] d3.subrange(p + 112, p + 112 + n)[i] == d.subrange(p, p + n)[i] by {
            assert(d3[p + 112 + i] == d[p + i]);
        }
        assert(d3.subrange(p + 112, p + 112 + n) =~= d.subrange(p, p + n));
        lemma_region_moved(d, d3, k);
    }
    // conclusions
    assert(spec_layout_wf(d3)) by {
        assert forall|k: int| 0 <= k < 88 implies
            #[trigger] d3[TICK_DATA_OFFSET + spec_byte_offset(spec_bitmap(d3), k)]
                == (if spec_bit(spec_bitmap(d3), k) { 1u8 } else { 0u8 }) by {
            if k == o {
                assert(spec_byte_offset(b3, o) == bo);
                assert(spec_bit(b3, o));
                assert(d3[p0] == enc[0]);
            }
        }
    }
    assert(spec_layout_ticks(d3) =~= spec_layout_ticks(d).update(o, spec_tick_of(t)));
    assert(d3.subrange(0, 36) =~= d.subrange(0, 36));
}

/// Update of a tick that becomes uninitialized.
proof fn lemma_update_layout_uninit(d: Seq<u8>, o: int, u: TickUpdate)
    requires
        spec_layout_wf(d),
        0 <= o < 88,
        spec_bit(spec_bitmap(d), o),
        !u.initialized,
    ensures
        spec_update_post(d, o, u),
{
    let b = spec_bitmap(d);
    let bo = spec_byte_offset(b, o);
    let p0 = TICK_DATA_OFFSET + bo;
    let t = spec_dynamic_from_update(u);
    let enc = spec_encode_tick(t);
    lemma_encode_len(t);
    lemma_byte_offset_bound(b, o);
    let b2 = b & !(1u128 << (o as u128));
    let d1 = spec_rotate_left(d, p0, 112);
    let d2 = spec_overwrite(d1, TICK_BITMAP_OFFSET as int, spec_u128_to_le_bytes(b2));
    let d3 = spec_overwrite(d2, p0, enc);
    assert(d3 == spec_update_layout(d, o, u));
    vstd::bytes::lemma_auto_spec_u128_to_from_le_bytes();
    assert(d1.len() == LOADER_LEN);
    assert(d2.len() == LOADER_LEN);
    assert(d3.len() == LOADER_LEN);
    assert forall|i: int| 0 <= i < LOADER_LEN implies #[trigger] d3[i] == (
        if i < TICK_BITMAP_OFFSET { d[i] }
        else if i < TICK_DATA_OFFSET { spec_u128_to_le_bytes(b2)[i - TICK_BITMAP_OFFSET] }
        else if i < p0 { d[i] }
        else if i < p0 + 1 { enc[i - p0] }
        else if i < LOADER_LEN - 112 { d[i + 112] }
        else { d[p0 + (i - (LOADER_LEN - 112))] }) by {
        lemma_overwrite_index(d2, p0, enc, i);
        if i < p0 || i >= p0 + 1 {
            lemma_overwrite_index(d1, TICK_BITMAP_OFFSET as int, spec_u128_to_le_bytes(b2), i);
            if i < TICK_BITMAP_OFFSET || i >= TICK_DATA_OFFSET {
                lemma_rotate_left_index(d, p0, 112, i);
            }
        }
    }
    lemma_bitmap_written(d1, b2);
    assert(d3.subrange(36, 52) =~= d2.subrange(36, 52)) by {
        assert forall|i: int| 0 <= i < 16 implies #[trigger] d3.subrange(36, 52)[i] == d2.subrange(36, 52)[i] by {
            lemma_overwrite_index(d2, p0, enc, 36 + i);
        }
    }
    assert(spec_bitmap(d3) == b2);
    lemma_clear_bits(b, o);
    let b3 = spec_bitmap(d3);
    assert forall|k: int| #![trigger spec_byte_offset(b3, k)] 0 <= k < o implies
        d3[TICK_DATA_OFFSET + spec_byte_offset(b3, k)] == (if spec_bit(b3, k) { 1u8 } else { 0u8 })
        && spec_dynamic_tick_at(d3, k) == spec_dynamic_tick_at(d, k) by {
        lemma_below_unchanged(d, d3, o, k);
    }
    lemma_count_agree(b, b3, o);
    assert(spec_byte_offset(b3, o) == bo);
    assert(spec_tick_bytes(d3, o)[0] == 0u8);
    assert(spec_dynamic_tick_at(d3, o) == t);
    assert forall|k: int| #![trigger spec_byte_offset(b3, k)] o < k < 88 implies
        d3[TICK_DATA_OFFSET + spec_byte_offset(b3, k)] == (if spec_bit(b3, k) { 1u8 } else { 0u8 })
        && spec_dynamic_tick_at(d3, k) == spec_dynamic_tick_at(d, k) by {
        lemma_count_flip(b, b3, o, k);
        lemma_byte_offset_order(b, o, k);
        lemma_byte_offset_bound(b, k);
        assert(spec_bit(b3, k) == spec_bit(b, k));
        let p = TICK_DATA_OFFSET + spec_byte_offset(b, k);
        let n = if spec_bit(b, k) { 113int } else { 1int };
        assert forall|i: int| 0 <= i < n implies #[trigger] d3.subrange(p - 112, p - 112 + n)[i] == d.subrange(p, p + n)[i] by {
            assert(d3[p - 112 + i] == d[p + i]);
        }
        assert(d3.subrange(p - 112, p - 112 + n) =~= d.subrange(p, p + n));
        lemma_region_moved(d, d3, k);
    }
    assert(spec_layout_wf(d3)) by {
        assert forall|k: int| 0 <= k < 88 implies
            #[trigger] d3[TICK_DATA_OFFSET + spec_byte_offset(spec_bitmap(d3), k)]
                == (if spec_bit(spec_bitmap(d3), k) { 1u8 } else { 0u8 }) by {
            if k == o {
                assert(d3[p0] == enc[0]);
            }
        }
    }
    assert(spec_layout_ticks(d3) =~= spec_layout_ticks(d).update(o, spec_tick_of(t)));
    assert(d3.subrange(0, 36) =~= d.subrange(0, 36));
}

/// Update of a tick that stays initialized or stays uninitialized.
proof fn lemma_update_layout_same(d: Seq<u8>, o: int, u: TickUpdate)
    requires
        spec_layout_wf(d),
        0 <= o < 88,
        spec_bit(spec_bitmap(d), o) == u.initialized,
    ensures
        spec_update_post(d, o, u),
{
    let b = spec_bitmap(d);
    let bo = spec_byte_offset(b, o);
    let p0 = TICK_DATA_OFFSET + bo;
    let t = spec_dynamic_from_update(u);
    let enc = spec_encode_tick(t);
    let n0 = enc.len();
    lemma_encode_len(t);
    lemma_byte_offset_bound(b, o);
    let d3 = spec_overwrite(d, p0, enc);
    assert(d3 == spec_update_layout(d, o, u));
    assert forall|i: int| 0 <= i < LOADER_LEN implies #[trigger] d3[i] == (
        if i < p0 { d[i] } else if i < p0 + n0 { enc[i - p0] } else { d[i] }) by {
        lemma_overwrite_index(d, p0, enc, i);
    }
    assert(d3.subrange(36, 52) =~= d.subrange(36, 52));
    assert(spec_bitmap(d3) == b);
    let b3 = spec_bitmap(d3);
    assert(spec_bits_agree_except(b, b3, o));
    assert forall|k: int| #![trigger spec_byte_offset(b3, k)] 0 <= k < o implies
        d3[TICK_DATA_OFFSET + spec_byte_offset(b3, k)] == (if spec_bit(b3, k) { 1u8 } else { 0u8 })
        && spec_dynamic_tick_at(d3, k) == spec_dynamic_tick_at(d, k) by {
        lemma_below_unchanged(d, d3, o, k);
    }
    if u.initialized {
        assert(spec_tick_bytes(d3, o) =~= enc);
        lemma_decode_encode_tick(t, Seq::<u8>::empty());
        assert((enc + Seq::<u8>::empty()).subrange(0, 113) =~= enc);
    } else {
        assert(spec_tick_bytes(d3, o)[0] == 0u8);
    }
    assert(spec_dynamic_tick_at(d3, o) == t);
    assert forall|k: int| #![trigger spec_byte_offset(b3, k)] o < k < 88 implies
        d3[TICK_DATA_OFFSET + spec_byte_offset(b3, k)] == (if spec_bit(b3, k) { 1u8 } else { 0u8 })
        && spec_dynamic_tick_at(d3, k) == spec_dynamic_tick_at(d, k) by {
        lemma_byte_offset_order(b, o, k);
        lemma_byte_offset_bound(b, k);
        let p = TICK_DATA_OFFSET + spec_byte_offset(b, k);
        let n = if spec_bit(b, k) { 113int } else { 1int };
        assert forall|i: int| 0 <= i < n implies #[trigger] d3.subrange(p, p + n)[i] == d.subrange(p, p + n)[i] by {
            assert(d3[p + i] == d[p + i]);
        }
        assert(d3.subrange(p, p + n) =~= d.subrange(p, p + n));
        lemma_region_moved(d, d3, k);
    }
    assert(spec_layout_wf(d3)) by {
        assert forall|k: int| 0 <= k < 88 implies
            #[trigger] d3[TICK_DATA_OFFSET + spec_byte_offset(spec_bitmap(d3), k)]
                == (if spec_bit(spec_bitmap(d3), k) { 1u8 } else { 0u8 }) by {
            if k == o {
                assert(d3[p0] == enc[0]);
            }
        }
    }
    assert(spec_layout_ticks(d3) =~= spec_layout_ticks(d).update(o, spec_tick_of(t)));
    assert(d3.subrange(0, 36) =~= d.subrange(0, 36));
}

/// Updating one tick of well-formed data keeps the invariant, makes that
/// tick read as the update and leaves every other tick and the header.
pub proof fn lemma_update_layout(d: Seq<u8>, o: int, u: TickUpdate)
    requires
        spec_layout_wf(d),
        0 <= o < 88,
    ensures
        spec_update_post(d, o, u),
{
    let b = spec_bitmap(d);
    if !spec_bit(b, o) && u.initialized {
        lemma_update_layout_init(d, o, u);
    } else if spec_bit(b, o) && !u.initialized {
        lemma_update_layout_uninit(d, o, u);
    } else {
        lemma_update_layout_same(d, o, u);
    }
}

/// The invariant and the ticks depend only on the bytes from the bitmap on.
pub proof fn lemma_header_change(d: Seq<u8>, d2: Seq<u8>)
    requires
        d.len() == LOADER_LEN,
        d2.len() == LOADER_LEN,
        d2.subrange(36, LOADER_LEN as int) == d.subrange(36, LOADER_LEN as int),
    ensures
        spec_layout_wf(d2) == spec_layout_wf(d),
        spec_layout_ticks(d2) == spec_layout_ticks(d),
{
    assert forall|i: int| 36 <= i < LOADER_LEN implies #[trigger] d2[i] == d[i] by {
        assert(d2[i] == d2.subrange(36, LOADER_LEN as int)[i - 36]);
        assert(d[i] == d.subrange(36, LOADER_LEN as int)[i - 36]);
    }
    assert(d2.subrange(36, 52) =~= d.subrange(36, 52));
    assert(spec_bitmap(d2) == spec_bitmap(d));
    assert forall|k: int| 0 <= k < 88 implies
        #[trigger] d2[TICK_DATA_OFFSET + spec_byte_offset(spec_bitmap(d2), k)]
            == d[TICK_DATA_OFFSET + spec_byte_offset(spec_bitmap(d), k)] by {
        lemma_byte_offset_bound(spec_bitmap(d), k);
    }
    if spec_layout_wf(d) {
        assert forall|k: int| 0 <= k < 88 implies
            #[trigger] d2[TICK_DATA_OFFSET + spec_byte_offset(spec_bitmap(d2), k)]
                == (if spec_bit(spec_bitmap(d2), k) { 1u8 } else { 0u8 }) by {
            assert(d[TICK_DATA_OFFSET + spec_byte_offset(spec_bitmap(d), k)]
                == (if spec_bit(spec_bitmap(d), k) { 1u8 } else { 0u8 }));
        }
    }
    if spec_layout_wf(d2) {
        assert forall|k: int| 0 <= k < 88 implies
            #[trigger] d[TICK_DATA_OFFSET + spec_byte_offset(spec_bitmap(d), k)]
                == (if spec_bit(spec_bitmap(d), k) { 1u8 } else { 0u8 }) by {
            assert(d2[TICK_DATA_OFFSET + spec_byte_offset(spec_bitmap(d2), k)]
                == (if spec_bit(spec_bitmap(d2), k) { 1u8 } else { 0u8 }));
        }
    }
    assert forall|k: int| 0 <= k < 88 implies #[trigger] spec_tick_bytes(d2, k) == spec_tick_bytes(d, k) by {
        lemma_byte_offset_bound(spec_bitmap(d), k);
        assert(spec_tick_bytes(d2, k) =~= spec_tick_bytes(d, k));
    }
    assert(spec_layout_ticks(d2) =~= spec_layout_ticks(d));
}

} // verus!
