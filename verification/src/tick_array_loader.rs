//! Loading tick arrays of either kind from their accounts.
use vstd::prelude::*;
use crate::account::{
    discriminator_matches, dynamic_tick_array_discriminator, fixed_tick_array_discriminator,
    program_id, spec_dynamic_tick_array_discriminator, spec_fixed_tick_array_discriminator,
    spec_program_id, AccountInfo,
};
use crate::dynamic_tick_array::{spec_loader_bytes, DynamicTickArrayLoader};
use crate::dynamic_tick_layout::{spec_layout_wf, LOADER_LEN};
use crate::errors::ErrorCode;
use crate::fixed_tick_array::{spec_fixed_array_at, spec_fixed_flags_ok, FixedTickArray, FIXED_TICK_ARRAY_DATA_LEN};
use crate::pubkey::Pubkey;
use crate::tick::{Tick, TickUpdate};
use crate::tick_array::TickArrayType;

verus! {

/// A tick array loaded from its account, of either kind.
pub enum LoadedTickArray {
    Fixed(FixedTickArray),
    Dynamic(DynamicTickArrayLoader),
}

impl TickArrayType for LoadedTickArray {
    open spec fn wf(&self) -> bool {
        match self {
            LoadedTickArray::Fixed(a) => a.wf(),
            LoadedTickArray::Dynamic(a) => a.wf(),
        }
    }

    open spec fn spec_sized(&self) -> bool {
        match self {
            LoadedTickArray::Fixed(a) => a.spec_sized(),
            LoadedTickArray::Dynamic(a) => a.spec_sized(),
        }
    }

    proof fn lemma_wf_sized(&self) {
        match self {
            LoadedTickArray::Fixed(a) => a.lemma_wf_sized(),
            LoadedTickArray::Dynamic(a) => a.lemma_wf_sized(),
        }
    }

    open spec fn spec_start_tick_index(&self) -> i32 {
        match self {
            LoadedTickArray::Fixed(a) => a.spec_start_tick_index(),
            LoadedTickArray::Dynamic(a) => a.spec_start_tick_index(),
        }
    }

    open spec fn spec_whirlpool(&self) -> Seq<u8> {
        match self {
            LoadedTickArray::Fixed(a) => a.spec_whirlpool(),
            LoadedTickArray::Dynamic(a) => a.spec_whirlpool(),
        }
    }

    open spec fn spec_ticks(&self) -> Seq<Tick> {
        match self {
            LoadedTickArray::Fixed(a) => a.spec_ticks(),
            LoadedTickArray::Dynamic(a) => a.spec_ticks(),
        }
    }

    open spec fn spec_stored_tick(&self, update: TickUpdate) -> Tick {
        match self {
            LoadedTickArray::Fixed(a) => a.spec_stored_tick(update),
            LoadedTickArray::Dynamic(a) => a.spec_stored_tick(update),
        }
    }

    open spec fn spec_variable_size(&self) -> bool {
        match self {
            LoadedTickArray::Fixed(a) => a.spec_variable_size(),
            LoadedTickArray::Dynamic(a) => a.spec_variable_size(),
        }
    }

    fn is_variable_size(&self) -> (r: bool) {
        match self {
            LoadedTickArray::Fixed(a) => a.is_variable_size(),
            LoadedTickArray::Dynamic(a) => a.is_variable_size(),
        }
    }

    fn start_tick_index(&self) -> (r: i32) {
        match self {
            LoadedTickArray::Fixed(a) => a.start_tick_index(),
            LoadedTickArray::Dynamic(a) => a.start_tick_index(),
        }
    }

    fn whirlpool(&self) -> (r: Pubkey) {
        match self {
            LoadedTickArray::Fixed(a) => a.whirlpool(),
            LoadedTickArray::Dynamic(a) => a.whirlpool(),
        }
    }

    fn get_next_init_tick_index(&self, tick_index: i32, tick_spacing: u16, a_to_b: bool) -> (r: Result<Option<i32>, ErrorCode>) {
        match self {
            LoadedTickArray::Fixed(a) => a.get_next_init_tick_index(tick_index, tick_spacing, a_to_b),
            LoadedTickArray::Dynamic(a) => a.get_next_init_tick_index(tick_index, tick_spacing, a_to_b),
        }
    }

    fn get_tick(&self, tick_index: i32, tick_spacing: u16) -> (r: Result<Tick, ErrorCode>) {
        match self {
            LoadedTickArray::Fixed(a) => a.get_tick(tick_index, tick_spacing),
            LoadedTickArray::Dynamic(a) => a.get_tick(tick_index, tick_spacing),
        }
    }

    fn update_tick(&mut self, tick_index: i32, tick_spacing: u16, update: &TickUpdate) -> (r: Result<(), ErrorCode>) {
        match self {
            LoadedTickArray::Fixed(a) => a.update_tick(tick_index, tick_spacing, update),
            LoadedTickArray::Dynamic(a) => a.update_tick(tick_index, tick_spacing, update),
        }
    }
}

/// Loading the account reads its data as the kind of tick array its
/// discriminator names: an account of this program with the fixed
/// discriminator has exactly the size of a fixed array and each of its tick
/// flags is a byte 0 or 1 (the only values of a flag in that
/// representation). Accounts of other programs, too short to hold a
/// discriminator or of the variable-size kind are not restricted.
pub open spec fn spec_tick_array_account_readable(account: AccountInfo) -> bool {
    let d = account.data@;
    (account.owner.0@ == spec_program_id() && d.len() >= 8
        && d.subrange(0, 8) == spec_fixed_tick_array_discriminator())
        ==> d.len() == 8 + FIXED_TICK_ARRAY_DATA_LEN && spec_fixed_flags_ok(d.subrange(8, d.len() as int))
}

/// Loading the account for writing reads its data (see
/// `spec_tick_array_account_readable`) only when it is writable.
pub open spec fn spec_tick_array_account_writable_readable(account: AccountInfo) -> bool {
    account.is_writable ==> spec_tick_array_account_readable(account)
}

/// The errors of loading a tick array that do not depend on decoding it:
/// `AccountOwnedByWrongProgram`, `AccountDiscriminatorNotFound`,
/// `AccountDiscriminatorMismatch`, in that order; `None` when none applies.
pub open spec fn spec_tick_array_account_error(account: AccountInfo) -> Option<ErrorCode> {
    let d = account.data@;
    if account.owner.0@ != spec_program_id() {
        Some(ErrorCode::AccountOwnedByWrongProgram)
    } else if d.len() < 8 {
        Some(ErrorCode::AccountDiscriminatorNotFound)
    } else if d.subrange(0, 8) != spec_fixed_tick_array_discriminator()
        && d.subrange(0, 8) != spec_dynamic_tick_array_discriminator() {
        Some(ErrorCode::AccountDiscriminatorMismatch)
    } else {
        None
    }
}

/// The bytes a variable-size tick array holds for account data `d`: those
/// after the discriminator, cut or padded with zeros to the largest size.
pub open spec fn spec_padded_body(d: Seq<u8>) -> Seq<u8> {
    spec_loader_bytes(d.subrange(8, d.len() as int))
}

/// The ticks of the loaded array can be read: always for a fixed array; for
/// a variable one when every tick tag agrees with the bitmap.
pub open spec fn spec_tick_array_well_formed(d: Seq<u8>) -> bool {
    d.subrange(0, 8) == spec_fixed_tick_array_discriminator() || spec_layout_wf(spec_padded_body(d))
}

/// The pool address stored in the tick array account.
pub open spec fn spec_stored_whirlpool(d: Seq<u8>) -> Seq<u8> {
    if d.subrange(0, 8) == spec_fixed_tick_array_discriminator() {
        d.subrange(9956int, 9988int)
    } else {
        spec_padded_body(d).subrange(4, 36)
    }
}

/// What loading a tick array of pool `whirlpool` from `account` gives.
pub open spec fn spec_load_tick_array_post(account: AccountInfo, whirlpool: Seq<u8>, r: Result<LoadedTickArray, ErrorCode>) -> bool {
    let d = account.data@;
    match spec_tick_array_account_error(account) {
        Some(e) => r == Err::<LoadedTickArray, ErrorCode>(e),
        None => if spec_stored_whirlpool(d) != whirlpool {
            r == Err::<LoadedTickArray, ErrorCode>(ErrorCode::DifferentWhirlpoolTickArrayAccount)
        } else {
            r matches Ok(t) && {
                &&& t.spec_sized()
                &&& t.wf() == spec_tick_array_well_formed(d)
                &&& t.spec_variable_size() == (d.subrange(0, 8) == spec_dynamic_tick_array_discriminator())
                &&& spec_loaded_from(account, t)
                &&& t.spec_whirlpool() == whirlpool
            }
        },
    }
}

/// The error of loading a tick array for writing, if any.
pub open spec fn spec_load_mut_error(account: AccountInfo, whirlpool: Seq<u8>) -> Option<ErrorCode> {
    let d = account.data@;
    if !account.is_writable {
        Some(ErrorCode::AccountNotMutable)
    } else {
        match spec_tick_array_account_error(account) {
            Some(e) => Some(e),
            None => if spec_stored_whirlpool(d) != whirlpool {
                Some(ErrorCode::DifferentWhirlpoolTickArrayAccount)
            } else {
                None
            },
        }
    }
}

/// `t` is the tick array stored in the account data: fixed or variable as
/// its discriminator says.
pub open spec fn spec_loaded_from(account: AccountInfo, t: LoadedTickArray) -> bool {
    let d = account.data@;
    match t {
        LoadedTickArray::Fixed(a) => d.subrange(0, 8) == spec_fixed_tick_array_discriminator()
            && spec_fixed_array_at(d.subrange(8, d.len() as int), a),
        LoadedTickArray::Dynamic(a) => d.subrange(0, 8) == spec_dynamic_tick_array_discriminator()
            && a.spec_data() == spec_padded_body(d),
    }
}

/// Load a tick array of this pool from its account. Owner and discriminator
/// errors come first; a tick array of another pool is
/// `DifferentWhirlpoolTickArrayAccount`. The tick data is taken as it is.
pub fn load_tick_array(account: &AccountInfo, whirlpool: &Pubkey) -> (r: Result<LoadedTickArray, ErrorCode>)
    requires
        spec_tick_array_account_readable(*account),
    ensures
        spec_load_tick_array_post(*account, whirlpool.0@, r),
{
    if !account.owner.equals(&program_id()) {
        return Err(ErrorCode::AccountOwnedByWrongProgram);
    }
    let len = account.data.len();
    if len < 8 {
        return Err(ErrorCode::AccountDiscriminatorNotFound);
    }
    let data = account.data.as_slice();
    let body = vstd::slice::slice_subrange(data, 8, len);
    proof {
        assert(body@ =~= account.data@.subrange(8, len as int));
    }
    let tick_array = if discriminator_matches(data, fixed_tick_array_discriminator()) {
        LoadedTickArray::Fixed(FixedTickArray::decode(body))
    } else if discriminator_matches(data, dynamic_tick_array_discriminator()) {
        LoadedTickArray::Dynamic(DynamicTickArrayLoader::load(body))
    } else {
        return Err(ErrorCode::AccountDiscriminatorMismatch);
    };
    proof {
        let d = account.data@;
        match &tick_array {
            LoadedTickArray::Fixed(a) => {
                assert(d.subrange(8, d.len() as int).subrange(9948, 9980) =~= d.subrange(9956int, 9988int));
            },
            LoadedTickArray::Dynamic(a) => {
                a.lemma_view();
            },
        }
    }
    if !tick_array.whirlpool().equals(whirlpool) {
        return Err(ErrorCode::DifferentWhirlpoolTickArrayAccount);
    }
    Ok(tick_array)
}

/// Load a tick array of this pool for writing: a read-only account is
/// `AccountNotMutable`; otherwise as `load_tick_array`.
pub fn load_tick_array_mut(account: &AccountInfo, whirlpool: &Pubkey) -> (r: Result<LoadedTickArray, ErrorCode>)
    requires
        spec_tick_array_account_writable_readable(*account),
    ensures
        !account.is_writable ==> r == Err::<LoadedTickArray, ErrorCode>(ErrorCode::AccountNotMutable),
        account.is_writable ==> spec_load_tick_array_post(*account, whirlpool.0@, r),
{
    if !account.is_writable {
        return Err(ErrorCode::AccountNotMutable);
    }
    load_tick_array(account, whirlpool)
}

/// The lower and upper tick arrays of a position, loaded for writing. When
/// both bounds lie in the same tick array it is loaded once, and the upper
/// one is `None`.
pub struct TickArraysMut {
    lower_tick_array_ref: LoadedTickArray,
    upper_tick_array_ref: Option<LoadedTickArray>,
}

impl TickArraysMut {
    pub closed spec fn spec_lower(&self) -> LoadedTickArray {
        self.lower_tick_array_ref
    }

    pub closed spec fn spec_upper(&self) -> Option<LoadedTickArray> {
        self.upper_tick_array_ref
    }

    /// Load the tick arrays of both bounds of a position; the upper one is
    /// loaded only when its account differs from the lower one.
    pub fn load(
        lower_tick_array_info: &AccountInfo,
        upper_tick_array_info: &AccountInfo,
        whirlpool: &Pubkey,
    ) -> (r: Result<TickArraysMut, ErrorCode>)
        requires
            spec_tick_array_account_writable_readable(*lower_tick_array_info),
            spec_tick_array_account_writable_readable(*upper_tick_array_info),
        ensures
            match spec_load_mut_error(*lower_tick_array_info, whirlpool.0@) {
                Some(e) => r == Err::<TickArraysMut, ErrorCode>(e),
                None => if lower_tick_array_info.key.0@ == upper_tick_array_info.key.0@ {
                    r matches Ok(t) && t.spec_upper() is None
                        && spec_load_tick_array_post(*lower_tick_array_info, whirlpool.0@, Ok(t.spec_lower()))
                } else {
                    match spec_load_mut_error(*upper_tick_array_info, whirlpool.0@) {
                        Some(e) => r == Err::<TickArraysMut, ErrorCode>(e),
                        None => r matches Ok(t) && t.spec_upper() matches Some(u)
                            && spec_load_tick_array_post(*lower_tick_array_info, whirlpool.0@, Ok(t.spec_lower()))
                            && spec_load_tick_array_post(*upper_tick_array_info, whirlpool.0@, Ok(u)),
                    }
                },
            },
    {
        let lower_tick_array = match load_tick_array_mut(lower_tick_array_info, whirlpool) {
            Ok(t) => t,
            Err(e) => return Err(e),
        };
        let upper_tick_array = if lower_tick_array_info.key.equals(&upper_tick_array_info.key) {
            None
        } else {
            match load_tick_array_mut(upper_tick_array_info, whirlpool) {
                Ok(t) => Some(t),
                Err(e) => return Err(e),
            }
        };
        Ok(TickArraysMut { lower_tick_array_ref: lower_tick_array, upper_tick_array_ref: upper_tick_array })
    }

    /// The lower and upper tick arrays; the same array twice when both bounds
    /// share it.
    pub fn deref(&self) -> (r: (&LoadedTickArray, &LoadedTickArray))
        ensures
            *r.0 == self.spec_lower(),
            *r.1 == (match self.spec_upper() { Some(u) => u, None => self.spec_lower() }),
    {
        match &self.upper_tick_array_ref {
            Some(upper) => (&self.lower_tick_array_ref, upper),
            None => (&self.lower_tick_array_ref, &self.lower_tick_array_ref),
        }
    }

    /// Mutable access to the lower tick array and, when it is a different
    /// account, to the upper one.
    pub fn deref_mut(&mut self) -> (r: (&mut LoadedTickArray, Option<&mut LoadedTickArray>))
        ensures
            *r.0 == old(self).spec_lower(),
            final(self).spec_lower() == *final(r.0),
            old(self).spec_upper() is None ==> r.1 is None && final(self).spec_upper() is None,
            old(self).spec_upper() matches Some(u) ==> (r.1 matches Some(m) && *m == u
                && final(self).spec_upper() == Some(*final(m))),
    {
        match &mut self.upper_tick_array_ref {
            Some(upper) => (&mut self.lower_tick_array_ref, Some(upper)),
            None => (&mut self.lower_tick_array_ref, None),
        }
    }

    /// The lower tick array and, when it is a different account, the upper one.
    pub fn into_parts(self) -> (r: (LoadedTickArray, Option<LoadedTickArray>))
        ensures
            r.0 == self.spec_lower(),
            r.1 == self.spec_upper(),
    {
        (self.lower_tick_array_ref, self.upper_tick_array_ref)
    }
}

} // verus!
