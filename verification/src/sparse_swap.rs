//! Choosing the tick arrays a swap walks through from the accounts a caller
//! supplies, in any order, some of which may not be initialized yet.
use vstd::prelude::*;
use crate::account::{program_id, AccountInfo};
use crate::account::spec_program_id;
use crate::dynamic_tick_array::spec_zero_tick;
use crate::errors::ErrorCode;
use crate::math::floor_division;
use crate::pubkey::Pubkey;
use crate::tick::{
    spec_is_valid_start_tick, spec_ticks_in_array, Tick, TickUpdate, MAX_TICK_INDEX,
    MIN_TICK_INDEX, TICK_ARRAY_SIZE,
};
use crate::tick_array::{
    spec_get_tick, spec_in_search_range, spec_next_init_tick_index, spec_range_fits,
    spec_search_down, spec_search_up, spec_tick_offset, spec_tick_slot, TickArrayType,
};
use crate::tick_array_loader::{
    load_tick_array_mut, spec_load_mut_error, spec_load_tick_array_post,
    spec_tick_array_account_writable_readable, LoadedTickArray,
};
use crate::whirlpool::WhirlpoolAccount;

verus! {

/// Decimal digits of a natural number, most significant first, in ASCII.
pub open spec fn spec_nat_digits(n: nat) -> Seq<u8>
    decreases n,
{
    if n < 10 {
        seq![(48 + n) as u8]
    } else {
        spec_nat_digits(n / 10).push((48 + n % 10) as u8)
    }
}

/// The decimal text of an integer in ASCII, with a leading `-` when negative.
pub open spec fn spec_decimal(x: int) -> Seq<u8> {
    if x < 0 {
        seq![45u8] + spec_nat_digits((-x) as nat)
    } else {
        spec_nat_digits(x as nat)
    }
}

fn nat_digits(n: u64) -> (r: Vec<u8>)
    ensures
        r@ == spec_nat_digits(n as nat),
    decreases n,
{
    if n < 10 {
        let d: u8 = 48 + (n as u8);
        vec![d]
    } else {
        let mut v = nat_digits(n / 10);
        let d: u8 = 48 + ((n % 10) as u8);
        v.push(d);
        v
    }
}

/// The decimal text of `x`, as `to_string` writes it.
pub fn decimal_bytes(x: i32) -> (r: Vec<u8>)
    ensures
        r@ == spec_decimal(x as int),
{
    if x < 0 {
        let abs: u64 = (-(x as i64)) as u64;
        let mut out: Vec<u8> = vec![45u8];
        let mut digits = nat_digits(abs);
        out.append(&mut digits);
        out
    } else {
        nat_digits(x as u64)
    }
}

/// The address and bump seed that `try_find_program_address` finds for
/// these seeds and this program, or `None` when no bump seed gives a valid
/// address.
pub uninterp spec fn try_find_program_address(seeds: Seq<Seq<u8>>, program_id: Seq<u8>) -> Option<(Seq<u8>, u8)>;

/// Calls `Pubkey::try_find_program_address` of the Solana program library,
/// the search behind `Pubkey::find_program_address`. Its result is a
/// function of the seeds and the program id alone (hashes of them with each
/// bump seed from 255 down); the contract names it and says nothing more.
#[verifier::external_body]
fn find_address(seeds: &Vec<Vec<u8>>, program: &Pubkey) -> (r: Option<(Pubkey, u8)>)
    ensures
        match try_find_program_address(seeds.deep_view(), program.0@) {
            Some(found) => r matches Some(p) && p.0.0@ == found.0 && p.1 == found.1,
            None => r is None,
        },
{
    let slices: Vec<&[u8]> = seeds.iter().map(|s| s.as_slice()).collect();
    let id = anchor_lang::solana_program::pubkey::Pubkey::new_from_array(program.0);
    match anchor_lang::solana_program::pubkey::Pubkey::try_find_program_address(&slices, &id) {
        Some((address, bump)) => Some((Pubkey(address.to_bytes()), bump)),
        None => None,
    }
}

/// The ASCII bytes of `tick_array`, the first seed of a tick array address.
pub open spec fn spec_tick_array_seed() -> Seq<u8> {
    seq![116u8, 105, 99, 107, 95, 97, 114, 114, 97, 121]
}

/// The seeds of the address of the tick array of pool `whirlpool` that
/// starts at `start_tick_index`.
pub open spec fn spec_tick_array_seeds(whirlpool: Seq<u8>, start_tick_index: int) -> Seq<Seq<u8>> {
    seq![spec_tick_array_seed(), whirlpool, spec_decimal(start_tick_index)]
}

/// The address of the tick array of pool `whirlpool` that starts at
/// `start_tick_index`, if one can be derived.
pub open spec fn spec_tick_array_pda(whirlpool: Seq<u8>, start_tick_index: int) -> Option<Seq<u8>> {
    match try_find_program_address(spec_tick_array_seeds(whirlpool, start_tick_index), spec_program_id()) {
        Some(found) => Some(found.0),
        None => None,
    }
}

/// The address of the tick array of this pool that starts at
/// `start_tick_index`: derived from the seeds `tick_array`, the pool address
/// and the decimal start index, for this program. `None` in the
/// statistically improbable case where no bump seed gives an address.
pub fn derive_tick_array_pda(whirlpool: &WhirlpoolAccount, start_tick_index: i32) -> (r: Option<Pubkey>)
    ensures
        match spec_tick_array_pda(whirlpool.key.0@, start_tick_index as int) {
            Some(a) => r matches Some(k) && k.0@ == a,
            None => r is None,
        },
{
    let seed: Vec<u8> = vec![116u8, 105, 99, 107, 95, 97, 114, 114, 97, 121];
    let key: Vec<u8> = vstd::slice::slice_to_vec(vstd::array::array_as_slice(&whirlpool.key.0));
    let index = decimal_bytes(start_tick_index);
    proof {
        assert(seed@ =~= spec_tick_array_seed());
        assert(seed.deep_view() =~= seed@);
        assert(key.deep_view() =~= key@);
        assert(index.deep_view() =~= index@);
    }
    let seeds: Vec<Vec<u8>> = vec![seed, key, index];
    proof {
        assert(seeds.deep_view() =~= spec_tick_array_seeds(whirlpool.key.0@, start_tick_index as int));
    }
    match find_address(&seeds, &program_id()) {
        Some(found) => Some(found.0),
        None => None,
    }
}

/// The candidate start indexes of the tick arrays a swap from tick
/// `current` walks: the array holding the current tick and the two beyond it
/// in the swap direction. Swapping up, the arrays start one further on when
/// the next usable tick already lies in the next array.
pub open spec fn spec_start_candidates(current: int, tick_spacing: int, a_to_b: bool) -> Seq<int> {
    let t = spec_ticks_in_array(tick_spacing);
    let base = current / t * t;
    if a_to_b {
        seq![base, base - t, base - 2 * t]
    } else if current + tick_spacing >= base + t {
        seq![base + t, base + 2 * t, base + 3 * t]
    } else {
        seq![base, base + t, base + 2 * t]
    }
}

/// The candidates that are valid start tick indexes, in order.
pub open spec fn spec_start_tick_indexes(current: int, tick_spacing: int, a_to_b: bool) -> Seq<int> {
    spec_start_candidates(current, tick_spacing, a_to_b).filter(|s: int| spec_is_valid_start_tick(s, tick_spacing))
}

/// The arithmetic on the candidate start indexes for a swap in direction
/// `a_to_b` stays within `i32`.
pub open spec fn spec_start_candidates_fit(current: int, tick_spacing: int, a_to_b: bool) -> bool {
    let t = spec_ticks_in_array(tick_spacing);
    let base = current / t * t;
    &&& i32::MIN <= base
    &&& a_to_b ==> i32::MIN <= base - 2 * t
    &&& !a_to_b ==> {
        &&& current + tick_spacing <= i32::MAX
        &&& base + t <= i32::MAX
        &&& if current + tick_spacing >= base + t { base + 3 * t <= i32::MAX } else { base + 2 * t <= i32::MAX }
    }
}

/// The start indexes of the tick arrays a swap in direction `a_to_b` may
/// need, in the order it needs them; see `spec_start_tick_indexes`.
pub fn get_start_tick_indexes(whirlpool: &WhirlpoolAccount, a_to_b: bool) -> (r: Vec<i32>)
    requires
        whirlpool.whirlpool.tick_spacing > 0,
        spec_start_candidates_fit(whirlpool.whirlpool.tick_current_index as int,
            whirlpool.whirlpool.tick_spacing as int, a_to_b),
    ensures
        r@.map_values(|s: i32| s as int) == spec_start_tick_indexes(
            whirlpool.whirlpool.tick_current_index as int, whirlpool.whirlpool.tick_spacing as int, a_to_b),
{
    let tick_current_index = whirlpool.whirlpool.tick_current_index;
    let tick_spacing_u16 = whirlpool.whirlpool.tick_spacing;
    let tick_spacing_i32 = tick_spacing_u16 as i32;
    let ticks_in_array = TICK_ARRAY_SIZE * tick_spacing_i32;
    let quotient = floor_division(tick_current_index, ticks_in_array);
    let ghost t = ticks_in_array as int;
    let ghost base = quotient * t;
    proof {
        let c = tick_current_index as int;
        vstd::arithmetic::div_mod::lemma_fundamental_div_mod(c, t);
        vstd::arithmetic::div_mod::lemma_mod_bound(c, t);
        assert(c - t < quotient * t <= c) by (nonlinear_arith)
            requires
                c == t * quotient + c % t,
                0 <= c % t < t,
        ;
    }
    let start_tick_index_base = quotient * ticks_in_array;
    let shifted = !a_to_b
        && tick_current_index + tick_spacing_i32 >= start_tick_index_base + ticks_in_array;
    let step = if a_to_b { -ticks_in_array } else { ticks_in_array };
    let mut start_tick_index = if shifted {
        start_tick_index_base + ticks_in_array
    } else {
        start_tick_index_base
    };
    let ghost cands = spec_start_candidates(tick_current_index as int, tick_spacing_u16 as int, a_to_b);
    let ghost pred = |s: int| spec_is_valid_start_tick(s, tick_spacing_u16 as int);
    let mut r: Vec<i32> = Vec::new();
    let mut k: usize = 0;
    while k < 3
        invariant
            0 <= k <= 3,
            k < 3 ==> start_tick_index == cands[k as int],
            cands.len() == 3,
            cands[1] == cands[0] + step,
            cands[2] == cands[1] + step,
            forall|j: int| 0 <= j < 3 ==> i32::MIN <= #[trigger] cands[j] <= i32::MAX,
            tick_spacing_u16 > 0,
            pred == (|s: int| spec_is_valid_start_tick(s, tick_spacing_u16 as int)),
            r@.map_values(|s: i32| s as int) == cands.take(k as int).filter(pred),
        decreases 3 - k,
    {
        let valid = Tick::check_is_valid_start_tick(start_tick_index, tick_spacing_u16);
        let ghost before = r@;
        let ghost s1 = cands.take(k as int + 1);
        proof {
            reveal(Seq::filter);
            assert(s1.drop_last() =~= cands.take(k as int));
            assert(s1.last() == start_tick_index as int);
        }
        if valid {
            r.push(start_tick_index);
            proof {
                assert(r@.map_values(|s: i32| s as int) =~= before.map_values(|s: i32| s as int).push(start_tick_index as int));
            }
        }
        if k < 2 {
            start_tick_index = start_tick_index + step;
        }
        k = k + 1;
    }
    proof {
        assert(cands.take(3) =~= cands);
    }
    r
}

/// 88 uninitialized ticks with every value zero.
pub open spec fn spec_zero_ticks() -> Seq<Tick> {
    Seq::new(88, |i: int| spec_zero_tick())
}

/// Searching up from any offset finds no initialized tick of a zeroed array.
proof fn lemma_zero_ticks_search_up(from: int)
    ensures
        spec_search_up(spec_zero_ticks(), from) is None,
    decreases 88 - from,
{
    if 0 <= from < 88 {
        lemma_zero_ticks_search_up(from + 1);
    }
}

/// Searching down from an offset below 88 finds no initialized tick of a
/// zeroed array.
proof fn lemma_zero_ticks_search_down(from: int)
    requires
        from < 88,
    ensures
        spec_search_down(spec_zero_ticks(), from) is None,
    decreases from + 1,
{
    if from >= 0 {
        lemma_zero_ticks_search_down(from - 1);
    }
}

/// A tick array that has no account yet: it reads as 88 zero ticks.
pub struct ZeroedTickArray {
    pub start_tick_index: i32,
}

impl ZeroedTickArray {
    pub fn new(start_tick_index: i32) -> (r: ZeroedTickArray)
        ensures
            r.start_tick_index == start_tick_index,
    {
        ZeroedTickArray { start_tick_index }
    }

    fn in_search_range(&self, tick_index: i32, tick_spacing: u16, shifted: bool) -> (r: bool)
        requires
            spec_range_fits(self.start_tick_index as int, tick_spacing as int),
        ensures
            r == spec_in_search_range(self.start_tick_index as int, tick_index as int,
                tick_spacing as int, shifted),
    {
        let mut lower = self.start_tick_index;
        let mut upper = self.start_tick_index + TICK_ARRAY_SIZE * tick_spacing as i32;
        if shifted {
            lower = lower - tick_spacing as i32;
            upper = upper - tick_spacing as i32;
        }
        tick_index >= lower && tick_index < upper
    }

    /// No tick is initialized: `InvalidTickSpacing` for a zero spacing,
    /// `None` for a tick index in the search range, `InvalidTickArraySequence`
    /// otherwise.
    pub fn get_next_init_tick_index(&self, tick_index: i32, tick_spacing: u16, a_to_b: bool) -> (r: Result<Option<i32>, ErrorCode>)
        requires
            spec_range_fits(self.start_tick_index as int, tick_spacing as int),
        ensures
            r == spec_next_init_tick_index(spec_zero_ticks(), self.start_tick_index as int,
                tick_index as int, tick_spacing as int, a_to_b),
    {
        if tick_spacing == 0 {
            return Err(ErrorCode::InvalidTickSpacing);
        }
        if !self.in_search_range(tick_index, tick_spacing, !a_to_b) {
            return Err(ErrorCode::InvalidTickArraySequence);
        }
        proof {
            let offset = spec_tick_offset(self.start_tick_index as int, tick_index as int, tick_spacing as int);
            crate::fixed_tick_array::lemma_offset_in_range(self.start_tick_index as int,
                tick_index as int, tick_spacing as int, !a_to_b);
            if a_to_b {
                lemma_zero_ticks_search_down(offset);
            } else {
                lemma_zero_ticks_search_up(offset + 1);
            }
        }
        Ok(None)
    }

    /// The zero tick at a usable tick index of this array; `TickNotFound`
    /// otherwise.
    pub fn get_tick(&self, tick_index: i32, tick_spacing: u16) -> (r: Result<Tick, ErrorCode>)
        requires
            spec_range_fits(self.start_tick_index as int, tick_spacing as int),
        ensures
            r == spec_get_tick(spec_zero_ticks(), self.start_tick_index as int, tick_index as int,
                tick_spacing as int),
    {
        if !self.in_search_range(tick_index, tick_spacing, false)
            || !Tick::check_is_usable_tick(tick_index, tick_spacing)
        {
            return Err(ErrorCode::TickNotFound);
        }
        proof {
            crate::fixed_tick_array::lemma_offset_in_range(self.start_tick_index as int,
                tick_index as int, tick_spacing as int, false);
        }
        Ok(Tick {
            initialized: false,
            liquidity_net: 0,
            liquidity_gross: 0,
            fee_growth_outside_a: 0,
            fee_growth_outside_b: 0,
            reward_growths_outside: [0u128, 0u128, 0u128],
        })
    }
}

/// A tick array a swap walks: loaded from its account, or zeroed when its
/// account is not initialized yet.
pub enum ProxiedTickArray {
    Initialized(LoadedTickArray),
    Uninitialized(ZeroedTickArray),
}

impl ProxiedTickArray {
    /// The ticks can be read; see `TickArrayType::wf`.
    pub open spec fn wf(&self) -> bool {
        match self {
            ProxiedTickArray::Initialized(a) => a.wf(),
            ProxiedTickArray::Uninitialized(_) => true,
        }
    }

    /// The start index can be read; see `TickArrayType::spec_sized`.
    pub open spec fn spec_sized(&self) -> bool {
        match self {
            ProxiedTickArray::Initialized(a) => a.spec_sized(),
            ProxiedTickArray::Uninitialized(_) => true,
        }
    }

    pub open spec fn spec_start_tick_index(&self) -> i32 {
        match self {
            ProxiedTickArray::Initialized(a) => a.spec_start_tick_index(),
            ProxiedTickArray::Uninitialized(z) => z.start_tick_index,
        }
    }

    /// The 88 ticks the array reads as.
    pub open spec fn spec_ticks(&self) -> Seq<Tick> {
        match self {
            ProxiedTickArray::Initialized(a) => a.spec_ticks(),
            ProxiedTickArray::Uninitialized(_) => spec_zero_ticks(),
        }
    }

    pub fn new_initialized(array: LoadedTickArray) -> (r: ProxiedTickArray)
        ensures
            r == ProxiedTickArray::Initialized(array),
    {
        ProxiedTickArray::Initialized(array)
    }

    pub fn new_uninitialized(start_tick_index: i32) -> (r: ProxiedTickArray)
        ensures
            r == ProxiedTickArray::Uninitialized(ZeroedTickArray { start_tick_index }),
    {
        ProxiedTickArray::Uninitialized(ZeroedTickArray::new(start_tick_index))
    }

    pub fn start_tick_index(&self) -> (r: i32)
        requires
            self.spec_sized(),
        ensures
            r == self.spec_start_tick_index(),
    {
        match self {
            ProxiedTickArray::Initialized(a) => a.start_tick_index(),
            ProxiedTickArray::Uninitialized(z) => z.start_tick_index,
        }
    }

    /// The next initialized tick in the search direction; see
    /// `TickArrayType::get_next_init_tick_index`.
    pub fn get_next_init_tick_index(&self, tick_index: i32, tick_spacing: u16, a_to_b: bool) -> (r: Result<Option<i32>, ErrorCode>)
        requires
            self.wf(),
            spec_range_fits(self.spec_start_tick_index() as int, tick_spacing as int),
        ensures
            r == spec_next_init_tick_index(self.spec_ticks(), self.spec_start_tick_index() as int,
                tick_index as int, tick_spacing as int, a_to_b),
    {
        match self {
            ProxiedTickArray::Initialized(a) => a.get_next_init_tick_index(tick_index, tick_spacing, a_to_b),
            ProxiedTickArray::Uninitialized(z) => z.get_next_init_tick_index(tick_index, tick_spacing, a_to_b),
        }
    }

    /// The tick at a tick index; see `TickArrayType::get_tick`.
    pub fn get_tick(&self, tick_index: i32, tick_spacing: u16) -> (r: Result<Tick, ErrorCode>)
        requires
            self.wf(),
            spec_range_fits(self.spec_start_tick_index() as int, tick_spacing as int),
        ensures
            r == spec_get_tick(self.spec_ticks(), self.spec_start_tick_index() as int,
                tick_index as int, tick_spacing as int),
    {
        match self {
            ProxiedTickArray::Initialized(a) => a.get_tick(tick_index, tick_spacing),
            ProxiedTickArray::Uninitialized(z) => z.get_tick(tick_index, tick_spacing),
        }
    }

    /// Store an update in a loaded array; see `TickArrayType::update_tick`.
    /// A zeroed array is never updated.
    pub fn update_tick(&mut self, tick_index: i32, tick_spacing: u16, update: &TickUpdate) -> (r: Result<(), ErrorCode>)
        requires
            *old(self) is Initialized,
            old(self).wf(),
            spec_range_fits(old(self).spec_start_tick_index() as int, tick_spacing as int),
        ensures
            *final(self) is Initialized,
            final(self).wf(),
            final(self).spec_start_tick_index() == old(self).spec_start_tick_index(),
            (*final(self))->Initialized_0.spec_whirlpool() == (*old(self))->Initialized_0.spec_whirlpool(),
            (*final(self))->Initialized_0.spec_variable_size() == (*old(self))->Initialized_0.spec_variable_size(),
            match spec_tick_slot(old(self).spec_start_tick_index() as int, tick_index as int, tick_spacing as int) {
                Some(o) => r is Ok && final(self).spec_ticks() == old(self).spec_ticks().update(o,
                    (*old(self))->Initialized_0.spec_stored_tick(*update)),
                None => r == Err::<(), ErrorCode>(ErrorCode::TickNotFound)
                    && final(self).spec_ticks() == old(self).spec_ticks(),
            },
    {
        match self {
            ProxiedTickArray::Initialized(a) => a.update_tick(tick_index, tick_spacing, update),
            ProxiedTickArray::Uninitialized(_) => Err(ErrorCode::TickNotFound),
        }
    }

    pub fn is_min_tick_array(&self) -> (r: bool)
        requires
            self.spec_sized(),
        ensures
            r == (self.spec_start_tick_index() <= MIN_TICK_INDEX),
    {
        self.start_tick_index() <= MIN_TICK_INDEX
    }

    pub fn is_max_tick_array(&self, tick_spacing: u16) -> (r: bool)
        requires
            self.spec_sized(),
            spec_range_fits(self.spec_start_tick_index() as int, tick_spacing as int),
        ensures
            r == (self.spec_start_tick_index() + TICK_ARRAY_SIZE * tick_spacing > MAX_TICK_INDEX),
    {
        self.start_tick_index() + TICK_ARRAY_SIZE * (tick_spacing as i32) > MAX_TICK_INDEX
    }

    /// Offset of the tick index from the start, in tick spacings, rounded
    /// down; `InvalidTickSpacing` for a zero spacing.
    pub fn tick_offset(&self, tick_index: i32, tick_spacing: u16) -> (r: Result<isize, ErrorCode>)
        requires
            self.spec_sized(),
            tick_spacing == 0 || i32::MIN <= tick_index - self.spec_start_tick_index() <= i32::MAX,
        ensures
            tick_spacing == 0 ==> r == Err::<isize, ErrorCode>(ErrorCode::InvalidTickSpacing),
            tick_spacing > 0 ==> r == Ok::<isize, ErrorCode>(spec_tick_offset(
                self.spec_start_tick_index() as int, tick_index as int, tick_spacing as int) as isize),
    {
        match self {
            ProxiedTickArray::Initialized(a) => a.tick_offset(tick_index, tick_spacing),
            ProxiedTickArray::Uninitialized(z) => {
                if tick_spacing == 0 {
                    return Err(ErrorCode::InvalidTickSpacing);
                }
                let d = tick_index - z.start_tick_index;
                let o = floor_division(d, tick_spacing as i32);
                Ok(o as isize)
            },
        }
    }
}

/// `a` is below `b` in byte order, first differing at byte `i`.
pub open spec fn spec_key_lt_at(a: Seq<u8>, b: Seq<u8>, i: int) -> bool {
    &&& 0 <= i < a.len()
    &&& i < b.len()
    &&& forall|m: int| 0 <= m < i ==> a[m] == b[m]
    &&& a[i] < b[i]
}

/// Byte order of addresses: `a` comes first where the two first differ.
pub open spec fn spec_key_lt(a: Seq<u8>, b: Seq<u8>) -> bool {
    exists|i: int| spec_key_lt_at(a, b, i)
}

pub proof fn lemma_key_lt_asym(a: Seq<u8>, b: Seq<u8>)
    requires
        spec_key_lt(a, b),
    ensures
        !spec_key_lt(b, a),
        a != b,
{
    let i = choose|i: int| spec_key_lt_at(a, b, i);
    if spec_key_lt(b, a) {
        let j = choose|j: int| spec_key_lt_at(b, a, j);
        if i < j {
            assert(b[i] == a[i]);
        } else if j < i {
            assert(a[j] == b[j]);
        }
    }
}

pub proof fn lemma_key_lt_trans(a: Seq<u8>, b: Seq<u8>, c: Seq<u8>)
    requires
        spec_key_lt(a, b),
        spec_key_lt(b, c),
    ensures
        spec_key_lt(a, c),
{
    let i = choose|i: int| spec_key_lt_at(a, b, i);
    let j = choose|j: int| spec_key_lt_at(b, c, j);
    let k = if i < j { i } else { j };
    assert(spec_key_lt_at(a, c, k));
}

/// True when `a` comes before `b` in byte order; when false the two are
/// equal or `b` comes first.
fn key_less(a: &Pubkey, b: &Pubkey) -> (r: bool)
    ensures
        r == spec_key_lt(a.0@, b.0@),
        !r ==> a.0@ == b.0@ || spec_key_lt(b.0@, a.0@),
{
    let mut i: usize = 0;
    while i < 32
        invariant
            i <= 32,
            a.0@.len() == 32,
            b.0@.len() == 32,
            forall|m: int| 0 <= m < i ==> a.0@[m] == b.0@[m],
        decreases 32 - i,
    {
        if a.0[i] < b.0[i] {
            proof {
                assert(spec_key_lt_at(a.0@, b.0@, i as int));
            }
            return true;
        }
        if a.0[i] > b.0[i] {
            proof {
                assert(spec_key_lt_at(b.0@, a.0@, i as int));
                lemma_key_lt_asym(b.0@, a.0@);
            }
            return false;
        }
        i = i + 1;
    }
    proof {
        assert(a.0@ =~= b.0@);
        if spec_key_lt(a.0@, b.0@) {
            lemma_key_lt_asym(a.0@, b.0@);
        }
    }
    false
}

/// The addresses of `s` are strictly increasing in byte order.
pub open spec fn spec_sorted_by_key(s: Seq<AccountInfo>) -> bool {
    forall|i: int, j: int| 0 <= i < j < s.len() ==> spec_key_lt(#[trigger] s[i].key.0@, #[trigger] s[j].key.0@)
}

/// Some account of `s` has address `key`.
pub open spec fn spec_has_key(s: Seq<AccountInfo>, key: Seq<u8>) -> bool {
    exists|j: int| 0 <= j < s.len() && #[trigger] s[j].key.0@ == key
}

/// `s[k]` is the first account of `s` with its address.
pub open spec fn spec_first_with_key(s: Seq<AccountInfo>, k: int) -> bool {
    forall|m: int| 0 <= m < k ==> #[trigger] s[m].key.0@ != s[k].key.0@
}

/// `a` is the first account of `s` with its address.
pub open spec fn spec_first_of_key(s: Seq<AccountInfo>, a: AccountInfo) -> bool {
    exists|k: int| 0 <= k < s.len() && #[trigger] s[k] == a && spec_first_with_key(s, k)
}

/// `r` holds, sorted by address, the first account of `s` with each
/// address that occurs in `s`.
pub open spec fn spec_sorted_dedup(s: Seq<AccountInfo>, r: Seq<AccountInfo>) -> bool {
    &&& spec_sorted_by_key(r)
    &&& forall|j: int| 0 <= j < r.len() ==> spec_first_of_key(s, #[trigger] r[j])
    &&& forall|k: int| 0 <= k < s.len() ==> spec_has_key(r, #[trigger] s[k].key.0@)
}

/// The accounts given for a swap, then the supplemental ones.
pub open spec fn spec_merged_accounts(
    static_accounts: Seq<AccountInfo>,
    supplemental_accounts: Option<Seq<AccountInfo>>,
) -> Seq<AccountInfo> {
    match supplemental_accounts {
        Some(s) => static_accounts + s,
        None => static_accounts,
    }
}

/// Insert `x` into sorted `r` unless an account with its address is there.
fn insert_by_key(r: &mut Vec<AccountInfo>, x: AccountInfo) -> (inserted: bool)
    requires
        spec_sorted_by_key(old(r)@),
    ensures
        spec_sorted_by_key(final(r)@),
        inserted == !spec_has_key(old(r)@, x.key.0@),
        !inserted ==> final(r)@ == old(r)@,
        inserted ==> exists|p: int| 0 <= p <= old(r)@.len() && final(r)@ == old(r)@.insert(p, x),
{
    let mut p: usize = 0;
    while p < r.len() && key_less(&r[p].key, &x.key)
        invariant
            p <= r@.len(),
            r@ == old(r)@,
            spec_sorted_by_key(r@),
            forall|j: int| 0 <= j < p ==> spec_key_lt(#[trigger] r@[j].key.0@, x.key.0@),
        decreases r@.len() - p,
    {
        p = p + 1;
    }
    if p < r.len() && r[p].key.equals(&x.key) {
        proof {
            assert(r@[p as int].key.0@ == x.key.0@);
        }
        return false;
    }
    proof {
        let s = r@;
        assert(p < s.len() ==> spec_key_lt(x.key.0@, s[p as int].key.0@));
        assert(forall|j: int| 0 <= j < p ==> spec_key_lt(#[trigger] s[j].key.0@, x.key.0@));
        assert forall|j: int| 0 <= j < s.len() implies #[trigger] s[j].key.0@ != x.key.0@ by {
            if j < p {
                lemma_key_lt_asym(s[j].key.0@, x.key.0@);
            } else {
                if j > p {
                    lemma_key_lt_trans(x.key.0@, s[p as int].key.0@, s[j].key.0@);
                }
                lemma_key_lt_asym(x.key.0@, s[j].key.0@);
            }
        }
        let t = s.insert(p as int, x);
        assert forall|i: int, j: int| 0 <= i < j < t.len() implies spec_key_lt(#[trigger] t[i].key.0@, #[trigger] t[j].key.0@) by {
            if j < p {
                assert(t[i] == s[i] && t[j] == s[j]);
                assert(spec_key_lt(s[i].key.0@, s[j].key.0@));
            } else if j == p {
                assert(t[i] == s[i] && t[j] == x);
                assert(spec_key_lt(s[i].key.0@, x.key.0@));
            } else if i < p {
                assert(t[i] == s[i]);
                assert(t[j] == s[j - 1]);
                assert(spec_key_lt(s[i].key.0@, s[j - 1].key.0@));
            } else if i == p {
                assert(t[i] == x);
                assert(t[j] == s[j - 1]);
                if j - 1 > p {
                    assert(spec_key_lt(s[p as int].key.0@, s[j - 1].key.0@));
                    lemma_key_lt_trans(x.key.0@, s[p as int].key.0@, s[j - 1].key.0@);
                }
            } else {
                assert(t[i] == s[i - 1]);
                assert(t[j] == s[j - 1]);
                assert(spec_key_lt(s[i - 1].key.0@, s[j - 1].key.0@));
            }
        }
    }
    r.insert(p, x);
    true
}

/// The tick array accounts a swap may use, each address once.
pub struct SparseSwapTickSequenceBuilder {
    tick_array_accounts: Vec<AccountInfo>,
}

impl SparseSwapTickSequenceBuilder {
    pub closed spec fn spec_accounts(&self) -> Seq<AccountInfo> {
        self.tick_array_accounts@
    }

    /// Merge the accounts given for a swap with the supplemental ones, keep
    /// the first account of each address and order them by address. Any
    /// number of accounts may be given, in any order; a swap uses at most
    /// three, the others stand by in case the price moves.
    pub fn new(
        static_tick_array_account_infos: Vec<AccountInfo>,
        supplemental_tick_array_account_infos: Option<Vec<AccountInfo>>,
    ) -> (r: SparseSwapTickSequenceBuilder)
        ensures
            spec_sorted_dedup(
                spec_merged_accounts(static_tick_array_account_infos@,
                    match supplemental_tick_array_account_infos { Some(v) => Some(v@), None => None }),
                r.spec_accounts(),
            ),
    {
        let mut merged = static_tick_array_account_infos;
        match supplemental_tick_array_account_infos {
            Some(mut supplemental) => {
                merged.append(&mut supplemental);
            },
            None => {},
        }
        let ghost m = merged@;
        assert(m == spec_merged_accounts(static_tick_array_account_infos@,
            match supplemental_tick_array_account_infos { Some(v) => Some(v@), None => None }));
        let mut result: Vec<AccountInfo> = Vec::new();
        let ghost mut i: int = 0;
        while merged.len() > 0
            invariant
                0 <= i <= m.len(),
                merged@ == m.subrange(i, m.len() as int),
                spec_sorted_by_key(result@),
                forall|j: int| 0 <= j < result@.len() ==> spec_first_of_key(m, #[trigger] result@[j]),
                forall|k: int| 0 <= k < i ==> spec_has_key(result@, #[trigger] m[k].key.0@),
            decreases merged@.len(),
        {
            let x = merged.remove(0);
            let ghost before = result@;
            proof {
                assert(x == m[i]);
            }
            let inserted = insert_by_key(&mut result, x);
            proof {
                if inserted {
                    let p = choose|p: int| 0 <= p <= before.len() && result@ == before.insert(p, x);
                    assert(spec_first_with_key(m, i)) by {
                        assert forall|mm: int| 0 <= mm < i implies #[trigger] m[mm].key.0@ != m[i].key.0@ by {
                            assert(spec_has_key(before, m[mm].key.0@));
                        }
                    }
                    assert(spec_first_of_key(m, x)) by {
                        assert(m[i] == x);
                    }
                    assert forall|j: int| 0 <= j < result@.len() implies spec_first_of_key(m, #[trigger] result@[j]) by {
                        if j < p {
                            assert(result@[j] == before[j]);
                        } else if j == p {
                            assert(x == result@[j]);
                        } else {
                            assert(result@[j] == before[j - 1]);
                        }
                    }
                    assert forall|k: int| 0 <= k < i + 1 implies spec_has_key(result@, #[trigger] m[k].key.0@) by {
                        if k < i {
                            assert(spec_has_key(before, m[k].key.0@));
                            let j = choose|j: int| 0 <= j < before.len() && #[trigger] before[j].key.0@ == m[k].key.0@;
                            if j < p {
                                assert(result@[j] == before[j]);
                                assert(result@[j].key.0@ == m[k].key.0@);
                            } else {
                                assert(result@[j + 1] == before[j]);
                                assert(result@[j + 1].key.0@ == m[k].key.0@);
                            }
                        } else {
                            assert(result@[p] == x);
                            assert(result@[p].key.0@ == m[k].key.0@);
                        }
                    }
                } else {
                    assert forall|k: int| 0 <= k < i + 1 implies spec_has_key(result@, #[trigger] m[k].key.0@) by {
                        if k == i {
                            assert(spec_has_key(before, x.key.0@));
                        }
                    }
                }
                i = i + 1;
                assert(merged@ =~= m.subrange(i, m.len() as int));
            }
        }
        proof {
            assert(i == m.len());
        }
        SparseSwapTickSequenceBuilder { tick_array_accounts: result }
    }
}

/// An account that was never created: owned by the system program, no data.
pub open spec fn spec_uninitialized_account(account: AccountInfo) -> bool {
    account.owner.is_default() && account.data@.len() == 0
}

/// What loading a tick array account of pool `whirlpool` that may not exist
/// yet gives: `None` for an account that was never created, otherwise as
/// loading it for writing.
pub open spec fn spec_maybe_load_post(account: AccountInfo, whirlpool: Seq<u8>, r: Result<Option<LoadedTickArray>, ErrorCode>) -> bool {
    if spec_uninitialized_account(account) {
        r == Ok::<Option<LoadedTickArray>, ErrorCode>(None)
    } else {
        match spec_load_mut_error(account, whirlpool) {
            Some(e) => r == Err::<Option<LoadedTickArray>, ErrorCode>(e),
            None => r matches Ok(Some(t)) && spec_load_tick_array_post(account, whirlpool, Ok(t)),
        }
    }
}

/// Load a tick array account of this pool for writing, or `None` when the
/// account was never created.
pub fn maybe_load_tick_array(account_info: &AccountInfo, whirlpool: &WhirlpoolAccount) -> (r: Result<Option<LoadedTickArray>, ErrorCode>)
    requires
        spec_tick_array_account_writable_readable(*account_info),
    ensures
        spec_maybe_load_post(*account_info, whirlpool.key.0@, r),
{
    if account_info.owner.equals(&crate::account::system_program_id()) && account_info.data.len() == 0 {
        return Ok(None);
    }
    match load_tick_array_mut(account_info, &whirlpool.key) {
        Ok(t) => Ok(Some(t)),
        Err(e) => Err(e),
    }
}

/// The error of the first account in `accounts` that exists but cannot be
/// loaded, if any.
pub open spec fn spec_first_load_error(accounts: Seq<AccountInfo>, whirlpool: Seq<u8>) -> Option<ErrorCode>
    decreases accounts.len(),
{
    if accounts.len() == 0 {
        None
    } else {
        match spec_first_load_error(accounts.drop_last(), whirlpool) {
            Some(e) => Some(e),
            None => if spec_uninitialized_account(accounts.last()) {
                None
            } else {
                spec_load_mut_error(accounts.last(), whirlpool)
            },
        }
    }
}

/// `loaded` holds the tick arrays loaded from the accounts of `accounts`
/// that exist, in the same order.
pub open spec fn spec_loaded_all(accounts: Seq<AccountInfo>, whirlpool: Seq<u8>, loaded: Seq<LoadedTickArray>) -> bool
    decreases accounts.len(),
{
    if accounts.len() == 0 {
        loaded.len() == 0
    } else if spec_uninitialized_account(accounts.last()) {
        spec_loaded_all(accounts.drop_last(), whirlpool, loaded)
    } else {
        &&& loaded.len() > 0
        &&& spec_load_tick_array_post(accounts.last(), whirlpool, Ok(loaded.last()))
        &&& spec_loaded_all(accounts.drop_last(), whirlpool, loaded.drop_last())
    }
}

/// Position of the first array of `loaded` that starts at `start`.
pub open spec fn spec_find_start(loaded: Seq<LoadedTickArray>, start: int) -> Option<int>
    decreases loaded.len(),
{
    if loaded.len() == 0 {
        None
    } else {
        match spec_find_start(loaded.drop_last(), start) {
            Some(p) => Some(p),
            None => if loaded.last().spec_start_tick_index() == start {
                Some(loaded.len() - 1)
            } else {
                None
            },
        }
    }
}

/// `rest` with `first` put in front, when it is `Ok`.
pub open spec fn spec_prepend(first: Seq<ProxiedTickArray>, rest: Result<Seq<ProxiedTickArray>, ErrorCode>) -> Result<Seq<ProxiedTickArray>, ErrorCode> {
    match rest {
        Ok(s) => Ok(first + s),
        Err(e) => Err(e),
    }
}

/// The tick arrays a swap walks, for the start indexes `starts` in order:
/// the first loaded array with that start (taken from `loaded`); otherwise a
/// zeroed array when an account with the derived address of that array was
/// given; otherwise the sequence ends there. When no address can be derived
/// the result is `InvalidTickArraySequence`.
pub open spec fn spec_select_tick_arrays(
    loaded: Seq<LoadedTickArray>,
    starts: Seq<int>,
    accounts: Seq<AccountInfo>,
    whirlpool: Seq<u8>,
) -> Result<Seq<ProxiedTickArray>, ErrorCode>
    decreases starts.len(),
{
    if starts.len() == 0 {
        Ok(Seq::empty())
    } else {
        match spec_find_start(loaded, starts[0]) {
            Some(p) => spec_prepend(seq![ProxiedTickArray::Initialized(loaded[p])],
                spec_select_tick_arrays(loaded.remove(p), starts.drop_first(), accounts, whirlpool)),
            None => match spec_tick_array_pda(whirlpool, starts[0]) {
                None => Err(ErrorCode::InvalidTickArraySequence),
                Some(address) => if spec_has_key(accounts, address) {
                    spec_prepend(seq![ProxiedTickArray::Uninitialized(ZeroedTickArray { start_tick_index: starts[0] as i32 })],
                        spec_select_tick_arrays(loaded, starts.drop_first(), accounts, whirlpool))
                } else {
                    Ok(Seq::empty())
                },
            },
        }
    }
}

/// What building the tick arrays of a swap gives, once the accounts are
/// loaded: the selected arrays, or `InvalidTickArraySequence` when none is.
pub open spec fn spec_build_result(
    loaded: Seq<LoadedTickArray>,
    starts: Seq<int>,
    accounts: Seq<AccountInfo>,
    whirlpool: Seq<u8>,
) -> Result<Seq<ProxiedTickArray>, ErrorCode> {
    match spec_select_tick_arrays(loaded, starts, accounts, whirlpool) {
        Ok(s) => if s.len() == 0 {
            Err(ErrorCode::InvalidTickArraySequence)
        } else {
            Ok(s)
        },
        Err(e) => Err(e),
    }
}

impl SparseSwapTickSequenceBuilder {
    /// The tick arrays a swap in direction `a_to_b` walks, at most three, in
    /// order. Every account that exists is loaded first; the first that
    /// cannot be is the error (`AccountNotMutable`, an owner or discriminator
    /// error, `DifferentWhirlpoolTickArrayAccount`). Then
    /// see `spec_select_tick_arrays`; when no array is selected the result is
    /// `InvalidTickArraySequence`.
    pub fn try_build(&self, whirlpool: &WhirlpoolAccount, a_to_b: bool) -> (r: Result<Vec<ProxiedTickArray>, ErrorCode>)
        requires
            forall|i: int| 0 <= i < self.spec_accounts().len() ==>
                spec_tick_array_account_writable_readable(#[trigger] self.spec_accounts()[i]),
            whirlpool.whirlpool.tick_spacing > 0,
            spec_start_candidates_fit(whirlpool.whirlpool.tick_current_index as int,
                whirlpool.whirlpool.tick_spacing as int, a_to_b),
        ensures
            match spec_first_load_error(self.spec_accounts(), whirlpool.key.0@) {
                Some(e) => r == Err::<Vec<ProxiedTickArray>, ErrorCode>(e),
                None => exists|loaded: Seq<LoadedTickArray>| {
                    &&& spec_loaded_all(self.spec_accounts(), whirlpool.key.0@, loaded)
                    &&& match spec_build_result(loaded,
                        spec_start_tick_indexes(whirlpool.whirlpool.tick_current_index as int,
                            whirlpool.whirlpool.tick_spacing as int, a_to_b),
                        self.spec_accounts(), whirlpool.key.0@) {
                        Ok(s) => r matches Ok(v) && v@ == s,
                        Err(e) => r == Err::<Vec<ProxiedTickArray>, ErrorCode>(e),
                    }
                },
            },
    {
        let accounts = &self.tick_array_accounts;
        let ghost accs = accounts@;
        let ghost key = whirlpool.key.0@;
        let mut loaded: Vec<LoadedTickArray> = Vec::new();
        let mut i: usize = 0;
        while i < accounts.len()
            invariant
                i <= accs.len(),
                accs == accounts@,
                accs == self.spec_accounts(),
                key == whirlpool.key.0@,
                forall|j: int| 0 <= j < accs.len() ==> spec_tick_array_account_writable_readable(#[trigger] accs[j]),
                spec_first_load_error(accs.take(i as int), key) is None,
                spec_loaded_all(accs.take(i as int), key, loaded@),
                forall|j: int| 0 <= j < loaded@.len() ==> (#[trigger] loaded@[j]).spec_sized(),
            decreases accs.len() - i,
        {
            let ghost prefix = accs.take(i as int + 1);
            proof {
                assert(prefix.drop_last() =~= accs.take(i as int));
                assert(prefix.last() == accs[i as int]);
            }
            match maybe_load_tick_array(&accounts[i], whirlpool) {
                Err(e) => {
                    proof {
                        lemma_first_load_error_extends(accs, key, i as int);
                        assert(spec_first_load_error(accs.take(i as int + 1), key) == Some(e));
                        assert(spec_first_load_error(accs, key) == Some(e));
                    }
                    return Err(e);
                },
                Ok(Some(t)) => {
                    let ghost before = loaded@;
                    loaded.push(t);
                    proof {
                        assert(loaded@.drop_last() =~= before);
                    }
                },
                Ok(None) => {},
            }
            i = i + 1;
        }
        proof {
            assert(accs.take(accs.len() as int) =~= accs);
        }
        let ghost loaded0 = loaded@;
        let starts = get_start_tick_indexes(whirlpool, a_to_b);
        let ghost starts_spec = starts@.map_values(|s: i32| s as int);
        let mut required: Vec<ProxiedTickArray> = Vec::new();
        proof {
            assert(starts_spec.skip(0) =~= starts_spec);
            match spec_select_tick_arrays(loaded0, starts_spec, accs, key) {
                Ok(sel) => {
                    assert(Seq::<ProxiedTickArray>::empty() + sel =~= sel);
                },
                Err(_) => {},
            }
        }
        let mut done = false;
        let mut k: usize = 0;
        while k < starts.len() && !done
            invariant
                k <= starts@.len(),
                starts_spec == starts@.map_values(|s: i32| s as int),
                starts_spec == spec_start_tick_indexes(whirlpool.whirlpool.tick_current_index as int,
                    whirlpool.whirlpool.tick_spacing as int, a_to_b),
                accs == accounts@,
                accs == self.spec_accounts(),
                spec_first_load_error(accs, key) is None,
                spec_loaded_all(accs, key, loaded0),
                key == whirlpool.key.0@,
                forall|j: int| 0 <= j < loaded@.len() ==> (#[trigger] loaded@[j]).spec_sized(),
                !done ==> spec_select_tick_arrays(loaded0, starts_spec, accs, key)
                    == spec_prepend(required@, spec_select_tick_arrays(loaded@, starts_spec.skip(k as int), accs, key)),
                done ==> spec_select_tick_arrays(loaded0, starts_spec, accs, key) == Ok::<Seq<ProxiedTickArray>, ErrorCode>(required@),
            decreases starts@.len() - k, if done { 0int } else { 1int },
        {
            let start = starts[k];
            let ghost rest = starts_spec.skip(k as int);
            proof {
                assert(rest[0] == start as int);
                assert(rest.drop_first() =~= starts_spec.skip(k as int + 1));
            }
            let mut p: usize = 0;
            let mut found = false;
            while p < loaded.len() && !found
                invariant
                    p <= loaded@.len(),
                    forall|j: int| 0 <= j < loaded@.len() ==> (#[trigger] loaded@[j]).spec_sized(),
                    !found ==> spec_find_start(loaded@.take(p as int), start as int) is None,
                    found ==> p < loaded@.len() && spec_find_start(loaded@, start as int) == Some(p as int),
                decreases loaded@.len() - p, if found { 0int } else { 1int },
            {
                let ghost tp = loaded@.take(p as int + 1);
                proof {
                    assert(tp.drop_last() =~= loaded@.take(p as int));
                }
                if loaded[p].start_tick_index() == start {
                    found = true;
                    proof {
                        lemma_find_start_prefix(loaded@, start as int, p as int);
                    }
                } else {
                    p = p + 1;
                }
            }
            if found {
                let ghost before_loaded = loaded@;
                let ghost before_required = required@;
                let t = loaded.remove(p);
                required.push(ProxiedTickArray::new_initialized(t));
                proof {
                    assert(required@ =~= before_required + seq![ProxiedTickArray::Initialized(before_loaded[p as int])]);
                    assert(spec_find_start(before_loaded, rest[0]) == Some(p as int));
                    lemma_prepend_assoc(before_required, seq![ProxiedTickArray::Initialized(before_loaded[p as int])],
                        spec_select_tick_arrays(loaded@, starts_spec.skip(k as int + 1), accs, key));
                }
            } else {
                proof {
                    assert(loaded@.take(loaded@.len() as int) =~= loaded@);
                }
                let address = match derive_tick_array_pda(whirlpool, start) {
                    Some(a) => a,
                    None => {
                        proof {
                            assert(spec_select_tick_arrays(loaded@, rest, accs, key)
                                == Err::<Seq<ProxiedTickArray>, ErrorCode>(ErrorCode::InvalidTickArraySequence));
                        }
                        return Err(ErrorCode::InvalidTickArraySequence);
                    },
                };
                let mut has_account = false;
                let mut q: usize = 0;
                while q < accounts.len() && !has_account
                    invariant
                        q <= accs.len(),
                        accs == accounts@,
                        !has_account ==> forall|j: int| 0 <= j < q ==> #[trigger] accs[j].key.0@ != address.0@,
                        has_account ==> spec_has_key(accs, address.0@),
                    decreases accs.len() - q, if has_account { 0int } else { 1int },
                {
                    if accounts[q].key.equals(&address) {
                        has_account = true;
                    } else {
                        q = q + 1;
                    }
                }
                if has_account {
                    let ghost before_required = required@;
                    required.push(ProxiedTickArray::new_uninitialized(start));
                    proof {
                        let z = seq![ProxiedTickArray::Uninitialized(ZeroedTickArray { start_tick_index: start })];
                        assert(required@ =~= before_required + z);
                        lemma_prepend_assoc(before_required, z,
                            spec_select_tick_arrays(loaded@, starts_spec.skip(k as int + 1), accs, key));
                    }
                } else {
                    done = true;
                    proof {
                        assert(!spec_has_key(accs, address.0@));
                        assert(required@ + Seq::<ProxiedTickArray>::empty() =~= required@);
                    }
                }
            }
            k = k + 1;
        }
        proof {
            if !done {
                assert(starts_spec.skip(k as int).len() == 0);
                assert(required@ + Seq::<ProxiedTickArray>::empty() =~= required@);
            }
        }
        if required.len() == 0 {
            return Err(ErrorCode::InvalidTickArraySequence);
        }
        Ok(required)
    }
}

/// Loading the first `i + 1` accounts fails when the first `i` load and
/// account `i` fails.
proof fn lemma_first_load_error_extends(accs: Seq<AccountInfo>, key: Seq<u8>, i: int)
    requires
        0 <= i < accs.len(),
        spec_first_load_error(accs.take(i), key) is None,
    ensures
        spec_first_load_error(accs.take(i + 1), key) == (if spec_uninitialized_account(accs[i]) {
            None
        } else {
            spec_load_mut_error(accs[i], key)
        }),
        spec_first_load_error(accs.take(i + 1), key) is Some ==> spec_first_load_error(accs, key) == spec_first_load_error(accs.take(i + 1), key),
    decreases accs.len() - i,
{
    assert(accs.take(i + 1).drop_last() =~= accs.take(i));
    if spec_first_load_error(accs.take(i + 1), key) is Some {
        lemma_first_load_error_prefix(accs, key, i + 1);
    }
}

/// A load error among the first `n` accounts is the load error of all.
proof fn lemma_first_load_error_prefix(accs: Seq<AccountInfo>, key: Seq<u8>, n: int)
    requires
        0 <= n <= accs.len(),
        spec_first_load_error(accs.take(n), key) is Some,
    ensures
        spec_first_load_error(accs, key) == spec_first_load_error(accs.take(n), key),
    decreases accs.len() - n,
{
    if n < accs.len() {
        assert(accs.take(n + 1).drop_last() =~= accs.take(n));
        lemma_first_load_error_prefix(accs, key, n + 1);
    } else {
        assert(accs.take(n) =~= accs);
    }
}

/// The first array with a start index among the first `p + 1` is the first
/// of all.
proof fn lemma_find_start_prefix(loaded: Seq<LoadedTickArray>, start: int, p: int)
    requires
        0 <= p < loaded.len(),
        spec_find_start(loaded.take(p), start) is None,
        loaded[p].spec_start_tick_index() == start,
    ensures
        spec_find_start(loaded, start) == Some(p),
    decreases loaded.len() - p,
{
    assert(loaded.take(p + 1).drop_last() =~= loaded.take(p));
    lemma_find_start_extend(loaded, start, p + 1, p);
}

proof fn lemma_find_start_extend(loaded: Seq<LoadedTickArray>, start: int, n: int, p: int)
    requires
        0 <= p < n <= loaded.len(),
        spec_find_start(loaded.take(n), start) == Some(p),
    ensures
        spec_find_start(loaded, start) == Some(p),
    decreases loaded.len() - n,
{
    if n < loaded.len() {
        assert(loaded.take(n + 1).drop_last() =~= loaded.take(n));
        lemma_find_start_extend(loaded, start, n + 1, p);
    } else {
        assert(loaded.take(n) =~= loaded);
    }
}

proof fn lemma_prepend_assoc(a: Seq<ProxiedTickArray>, b: Seq<ProxiedTickArray>, rest: Result<Seq<ProxiedTickArray>, ErrorCode>)
    ensures
        spec_prepend(a, spec_prepend(b, rest)) == spec_prepend(a + b, rest),
{
    match rest {
        Ok(s) => {
            assert(a + (b + s) =~= (a + b) + s);
        },
        Err(_) => {},
    }
}

} // verus!
