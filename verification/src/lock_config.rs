use vstd::prelude::*;
use crate::errors::ErrorCode;
use crate::pubkey::Pubkey;

verus! {

/// How a position is locked.
#[derive(Clone, Copy, Debug, PartialEq, Eq)]
pub enum LockType {
    Permanent,
}

/// The label of a lock type as stored in a lock config.
#[derive(Clone, Copy, Debug, PartialEq, Eq)]
pub enum LockTypeLabel {
    Permanent,
}

/// The lock of a position.
#[derive(Clone, Copy, Debug)]
pub struct LockConfig {
    pub position: Pubkey,
    pub position_owner: Pubkey,
    pub whirlpool: Pubkey,
    pub locked_timestamp: u64,
    pub lock_type: LockTypeLabel,
}

/// Account size of a lock config.
pub const LOCK_CONFIG_LEN: usize = 8 + 32 + 32 + 32 + 8 + 1 + 128;

impl LockConfig {
    /// Record the lock of a position.
    pub fn initialize(
        &mut self,
        position: Pubkey,
        position_owner: Pubkey,
        whirlpool: Pubkey,
        locked_timestamp: u64,
        lock_type: LockType,
    ) -> (r: Result<(), ErrorCode>)
        ensures
            r is Ok,
            *final(self) == (LockConfig {
                position,
                position_owner,
                whirlpool,
                locked_timestamp,
                lock_type: match lock_type { LockType::Permanent => LockTypeLabel::Permanent },
            }),
    {
        self.position = position;
        self.position_owner = position_owner;
        self.whirlpool = whirlpool;
        self.locked_timestamp = locked_timestamp;
        match lock_type {
            LockType::Permanent => self.lock_type = LockTypeLabel::Permanent,
        }
        Ok(())
    }

    /// Record a new owner of the locked position.
    pub fn update_position_owner(&mut self, position_owner: Pubkey)
        ensures
            *final(self) == (LockConfig { position_owner, ..*old(self) }),
    {
        self.position_owner = position_owner;
    }
}

} // verus!
