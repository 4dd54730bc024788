//! Verified core of a concentrated-liquidity pool: ticks, tick arrays,
//! fee and reward growth accounting, positions, bundles and the adaptive
//! fee oracle.

pub mod errors;
pub mod pubkey;
pub mod math;

pub mod tick;
pub mod whirlpool;
pub mod tick_manager;
pub mod tick_array;
pub mod fixed_tick_array;
pub mod dynamic_tick_array;
pub mod dynamic_tick_layout;
pub mod position;
pub mod position_bundle;
pub mod oracle;
pub mod account;
pub mod oracle_accessor;
pub mod adaptive_fee_tier;
pub mod config_extension;
pub mod lock_config;
pub mod tick_array_loader;
pub mod sparse_swap;
pub mod liquidity_manager;
pub mod laws;
