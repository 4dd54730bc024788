use vstd::prelude::*;
use crate::errors::ErrorCode;
use crate::pubkey::Pubkey;

verus! {

/// Extra authorities of a pools config.
#[derive(Clone, Copy, Debug, Default)]
pub struct WhirlpoolsConfigExtension {
    pub whirlpools_config: Pubkey,
    pub config_extension_authority: Pubkey,
    pub token_badge_authority: Pubkey,
}

/// Account size of a config extension.
pub const WHIRLPOOLS_CONFIG_EXTENSION_LEN: usize = 8 + 32 + 32 + 32 + 512;

impl WhirlpoolsConfigExtension {
    /// Bind the extension to a config; both authorities start as `default_authority`.
    pub fn initialize(&mut self, whirlpools_config: Pubkey, default_authority: Pubkey) -> (r: Result<(), ErrorCode>)
        ensures
            r is Ok,
            *final(self) == (WhirlpoolsConfigExtension {
                whirlpools_config,
                config_extension_authority: default_authority,
                token_badge_authority: default_authority,
            }),
    {
        self.whirlpools_config = whirlpools_config;
        self.config_extension_authority = default_authority;
        self.token_badge_authority = default_authority;
        Ok(())
    }

    /// Set the authority of the extension.
    pub fn update_config_extension_authority(&mut self, config_extension_authority: Pubkey)
        ensures
            *final(self) == (WhirlpoolsConfigExtension { config_extension_authority, ..*old(self) }),
    {
        self.config_extension_authority = config_extension_authority;
    }

    /// Set the authority of token badges.
    pub fn update_token_badge_authority(&mut self, token_badge_authority: Pubkey)
        ensures
            *final(self) == (WhirlpoolsConfigExtension { token_badge_authority, ..*old(self) }),
    {
        self.token_badge_authority = token_badge_authority;
    }
}

} // verus!
