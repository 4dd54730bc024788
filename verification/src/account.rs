use vstd::prelude::*;
use crate::pubkey::Pubkey;

verus! {

/// The state of an account as the program sees it: its address, its owner
/// program, whether it may be written, and its data.
#[derive(Clone, Debug)]
pub struct AccountInfo {
    pub key: Pubkey,
    pub owner: Pubkey,
    pub is_writable: bool,
    pub data: Vec<u8>,
}

/// Address of this program.
pub open spec fn spec_program_id() -> Seq<u8> {
    seq![14u8, 3, 104, 95, 142, 144, 144, 83, 228, 88, 18, 28, 102, 245, 167, 106,
        237, 199, 112, 106, 161, 28, 130, 248, 170, 149, 42, 143, 43, 120, 121, 169]
}

/// Address of this program.
pub fn program_id() -> (r: Pubkey)
    ensures
        r.0@ == spec_program_id(),
{
    let r = Pubkey([14u8, 3, 104, 95, 142, 144, 144, 83, 228, 88, 18, 28, 102, 245, 167, 106,
        237, 199, 112, 106, 161, 28, 130, 248, 170, 149, 42, 143, 43, 120, 121, 169]);
    assert(r.0@ =~= spec_program_id());
    r
}

/// Address of the system program: all zero.
pub fn system_program_id() -> (r: Pubkey)
    ensures
        r.is_default(),
{
    Pubkey::default_key()
}

/// Account discriminator of an oracle.
pub open spec fn spec_oracle_discriminator() -> Seq<u8> {
    seq![139u8, 194, 131, 179, 140, 179, 229, 244]
}

/// Account discriminator of a fixed tick array.
pub open spec fn spec_fixed_tick_array_discriminator() -> Seq<u8> {
    seq![69u8, 97, 189, 190, 110, 7, 66, 187]
}

/// Account discriminator of a variable-size tick array.
pub open spec fn spec_dynamic_tick_array_discriminator() -> Seq<u8> {
    seq![17u8, 216, 246, 142, 225, 199, 218, 56]
}

/// The first eight bytes of `data` equal `disc`.
pub fn discriminator_matches(data: &[u8], disc: [u8; 8]) -> (r: bool)
    requires
        data@.len() >= 8,
    ensures
        r == (data@.subrange(0, 8) == disc@),
{
    let mut i: usize = 0;
    while i < 8
        invariant
            i <= 8,
            data@.len() >= 8,
            forall|j: int| 0 <= j < i ==> data@[j] == disc@[j],
        decreases 8 - i,
    {
        if data[i] != disc[i] {
            proof {
                assert(data@.subrange(0, 8)[i as int] != disc@[i as int]);
            }
            return false;
        }
        i = i + 1;
    }
    assert(data@.subrange(0, 8) =~= disc@);
    true
}

pub fn oracle_discriminator() -> (r: [u8; 8])
    ensures
        r@ == spec_oracle_discriminator(),
{
    let r = [139u8, 194, 131, 179, 140, 179, 229, 244];
    assert(r@ =~= spec_oracle_discriminator());
    r
}

pub fn fixed_tick_array_discriminator() -> (r: [u8; 8])
    ensures
        r@ == spec_fixed_tick_array_discriminator(),
{
    let r = [69u8, 97, 189, 190, 110, 7, 66, 187];
    assert(r@ =~= spec_fixed_tick_array_discriminator());
    r
}

pub fn dynamic_tick_array_discriminator() -> (r: [u8; 8])
    ensures
        r@ == spec_dynamic_tick_array_discriminator(),
{
    let r = [17u8, 216, 246, 142, 225, 199, 218, 56];
    assert(r@ =~= spec_dynamic_tick_array_discriminator());
    r
}

} // verus!
