use vstd::prelude::*;
use crate::errors::ErrorCode;
use crate::pubkey::Pubkey;

verus! {

/// Bytes of the bitmap of a position bundle.
pub const POSITION_BITMAP_USIZE: usize = 32;
/// Number of positions a bundle can hold.
pub const POSITION_BUNDLE_SIZE: u16 = 256;
/// Account size of a position bundle.
pub const POSITION_BUNDLE_LEN: usize = 8 + 32 + 32 + 64;

/// A bundle of up to 256 positions; bit `i` of the bitmap is set while
/// bundled position `i` is open.
#[derive(Clone, Copy, Debug, Default)]
pub struct PositionBundle {
    pub position_bundle_mint: Pubkey,
    pub position_bitmap: [u8; POSITION_BITMAP_USIZE],
}

/// Bundled position `i` is open: bit `i % 8` of byte `i / 8` is set.
pub open spec fn spec_bundle_bit(bitmap: Seq<u8>, i: int) -> bool {
    bitmap[i / 8] & (1u8 << ((i % 8) as u8)) != 0
}

/// Toggling bit `off` of a byte flips it and keeps the others.
proof fn lemma_toggle_bit(x: u8, off: u8, j: u8)
    by (bit_vector)
    requires
        off < 8,
        j < 8,
    ensures
        ((x ^ (1u8 << off)) & (1u8 << j) != 0) == (if j == off { x & (1u8 << j) == 0 } else { x & (1u8 << j) != 0 }),
{
}

impl PositionBundle {
    /// Set the mint of the bundle; the bitmap stays.
    pub fn initialize(&mut self, position_bundle_mint: Pubkey) -> (r: Result<(), ErrorCode>)
        ensures
            r is Ok,
            final(self).position_bundle_mint == position_bundle_mint,
            final(self).position_bitmap == old(self).position_bitmap,
    {
        self.position_bundle_mint = position_bundle_mint;
        Ok(())
    }

    /// True when no bundled position is open: every bitmap byte is zero.
    pub fn is_deletable(&self) -> (r: bool)
        ensures
            r == (forall|i: int| 0 <= i < 32 ==> #[trigger] self.position_bitmap@[i] == 0),
    {
        let mut i: usize = 0;
        while i < POSITION_BITMAP_USIZE
            invariant
                i <= 32,
                forall|j: int| 0 <= j < i ==> #[trigger] self.position_bitmap@[j] == 0,
            decreases 32 - i,
        {
            if self.position_bitmap[i] != 0 {
                return false;
            }
            i = i + 1;
        }
        true
    }

    /// Mark bundled position `bundle_index` open; see `update_bitmap`.
    pub fn open_bundled_position(&mut self, bundle_index: u16) -> (r: Result<(), ErrorCode>)
        ensures
            Self::spec_update_bitmap_post(old(self).position_bitmap@, final(self).position_bitmap@, bundle_index as int, true, r),
            final(self).position_bundle_mint == old(self).position_bundle_mint,
    {
        self.update_bitmap(bundle_index, true)
    }

    /// Mark bundled position `bundle_index` closed; see `update_bitmap`.
    pub fn close_bundled_position(&mut self, bundle_index: u16) -> (r: Result<(), ErrorCode>)
        ensures
            Self::spec_update_bitmap_post(old(self).position_bitmap@, final(self).position_bitmap@, bundle_index as int, false, r),
            final(self).position_bundle_mint == old(self).position_bundle_mint,
    {
        self.update_bitmap(bundle_index, false)
    }

    /// What opening (`open`) or closing bundled position `i` does: an index of
    /// 256 or more is `InvalidBundleIndex`; opening an open position is
    /// `BundledPositionAlreadyOpened`; closing a closed one is
    /// `BundledPositionAlreadyClosed`; on error the bitmap stays. Otherwise
    /// bit `i` flips and every other bit stays.
    pub open spec fn spec_update_bitmap_post(before: Seq<u8>, after: Seq<u8>, i: int, open: bool, r: Result<(), ErrorCode>) -> bool {
        if i >= POSITION_BUNDLE_SIZE {
            r == Err::<(), ErrorCode>(ErrorCode::InvalidBundleIndex) && after == before
        } else if open && spec_bundle_bit(before, i) {
            r == Err::<(), ErrorCode>(ErrorCode::BundledPositionAlreadyOpened) && after == before
        } else if !open && !spec_bundle_bit(before, i) {
            r == Err::<(), ErrorCode>(ErrorCode::BundledPositionAlreadyClosed) && after == before
        } else {
            &&& r is Ok
            &&& after.len() == 32
            &&& spec_bundle_bit(after, i) == open
            &&& forall|j: int| 0 <= j < 256 && j != i ==> #[trigger] spec_bundle_bit(after, j) == spec_bundle_bit(before, j)
        }
    }

    fn update_bitmap(&mut self, bundle_index: u16, open: bool) -> (r: Result<(), ErrorCode>)
        ensures
            Self::spec_update_bitmap_post(old(self).position_bitmap@, final(self).position_bitmap@, bundle_index as int, open, r),
            final(self).position_bundle_mint == old(self).position_bundle_mint,
    {
        if !PositionBundle::is_valid_bundle_index(bundle_index) {
            return Err(ErrorCode::InvalidBundleIndex);
        }
        let bitmap_index = bundle_index / 8;
        let bitmap_offset = bundle_index % 8;
        let bitmap = self.position_bitmap[bitmap_index as usize];
        let mask: u8 = 1u8 << (bitmap_offset as u8);
        let bit = bitmap & mask;
        let opened = bit != 0;
        if open && opened {
            return Err(ErrorCode::BundledPositionAlreadyOpened);
        }
        if !open && !opened {
            return Err(ErrorCode::BundledPositionAlreadyClosed);
        }
        let updated_bitmap = bitmap ^ mask;
        let ghost before = self.position_bitmap@;
        self.position_bitmap[bitmap_index as usize] = updated_bitmap;
        proof {
            let after = self.position_bitmap@;
            let i = bundle_index as int;
            lemma_toggle_bit(bitmap, bitmap_offset as u8, bitmap_offset as u8);
            assert forall|j: int| 0 <= j < 256 && j != i implies #[trigger] spec_bundle_bit(after, j) == spec_bundle_bit(before, j) by {
                if j / 8 == i / 8 {
                    lemma_toggle_bit(bitmap, bitmap_offset as u8, (j % 8) as u8);
                }
            }
        }
        Ok(())
    }

    fn is_valid_bundle_index(bundle_index: u16) -> (r: bool)
        ensures
            r == (bundle_index < POSITION_BUNDLE_SIZE),
    {
        bundle_index < POSITION_BUNDLE_SIZE
    }
}

} // verus!
