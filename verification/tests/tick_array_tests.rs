use whirlpool::account::{
    dynamic_tick_array_discriminator, fixed_tick_array_discriminator, program_id, AccountInfo,
};
use whirlpool::dynamic_tick_array::DynamicTickArrayLoader;
use whirlpool::errors::ErrorCode;
use whirlpool::fixed_tick_array::TickArray;
use whirlpool::pubkey::Pubkey;
use whirlpool::tick::{Tick, TickUpdate};
use whirlpool::tick_array::TickArrayType;
use whirlpool::tick_array_loader::{load_tick_array, load_tick_array_mut, LoadedTickArray, TickArraysMut};
use whirlpool::whirlpool::{Whirlpool, WhirlpoolAccount, WhirlpoolRewardInfo};

fn reward_info() -> WhirlpoolRewardInfo {
    WhirlpoolRewardInfo {
        mint: Pubkey::default(),
        vault: Pubkey::default(),
        authority: Pubkey::default(),
        emissions_per_second_x64: 0,
        growth_global_x64: 0,
    }
}

fn pool(key: u8, tick_spacing: u16) -> WhirlpoolAccount {
    WhirlpoolAccount {
        key: Pubkey([key; 32]),
        whirlpool: Whirlpool {
            tick_spacing,
            tick_current_index: 0,
            liquidity: 0,
            fee_growth_global_a: 0,
            fee_growth_global_b: 0,
            reward_last_updated_timestamp: 0,
            reward_infos: [reward_info(), reward_info(), reward_info()],
        },
    }
}

fn some_update() -> TickUpdate {
    TickUpdate {
        initialized: true,
        liquidity_net: -42,
        liquidity_gross: 42,
        fee_growth_outside_a: 1,
        fee_growth_outside_b: 2,
        reward_growths_outside: [3, 4, 5],
    }
}

fn fixed_array(start: i32) -> TickArray {
    let mut a = TickArray::default();
    a.initialize(&pool(7, 64), start).unwrap();
    a
}

fn dynamic_array(start: i32) -> DynamicTickArrayLoader {
    let mut a = DynamicTickArrayLoader::load(&vec![0u8; 140]);
    a.initialize(&pool(7, 64), start).unwrap();
    a
}

fn fixed_account(array: &TickArray, writable: bool) -> AccountInfo {
    let mut data = fixed_tick_array_discriminator().to_vec();
    data.extend(array.encode());
    AccountInfo { key: Pubkey([50; 32]), owner: program_id(), is_writable: writable, data }
}

fn dynamic_account(array: &DynamicTickArrayLoader, key: u8) -> AccountInfo {
    let mut data = dynamic_tick_array_discriminator().to_vec();
    data.extend(array.as_bytes().iter());
    AccountInfo { key: Pubkey([key; 32]), owner: program_id(), is_writable: true, data }
}

#[test]
fn test_fixed_initialize() {
    let mut a = TickArray::default();
    assert_eq!(a.initialize(&pool(7, 64), 100), Err(ErrorCode::InvalidStartTick));
    assert_eq!(a.start_tick_index(), 0);
    assert_eq!(a.initialize(&pool(7, 64), 5632), Ok(()));
    assert_eq!(a.start_tick_index(), 5632);
    assert_eq!(a.whirlpool(), Pubkey([7; 32]));
    assert!(!a.is_variable_size());
}

#[test]
fn test_fixed_get_and_update_tick() {
    let mut a = fixed_array(5632);
    assert_eq!(a.get_tick(5632 + 64, 64), Ok(Tick::default()));
    assert_eq!(a.get_tick(5632 + 10, 64), Err(ErrorCode::TickNotFound));
    assert_eq!(a.get_tick(0, 64), Err(ErrorCode::TickNotFound));
    assert_eq!(a.get_tick(5632 + 88 * 64, 64), Err(ErrorCode::TickNotFound));
    assert_eq!(a.update_tick(5632 + 128, 64, &some_update()), Ok(()));
    assert_eq!(a.get_tick(5632 + 128, 64), Ok(Tick::from_update(some_update())));
    assert_eq!(a.get_tick(5632 + 64, 64), Ok(Tick::default()));
    assert_eq!(a.update_tick(5632 + 129, 64, &some_update()), Err(ErrorCode::TickNotFound));
}

#[test]
fn test_fixed_next_init_tick_index() {
    let mut a = fixed_array(5632);
    a.update_tick(5632 + 128, 64, &some_update()).unwrap();
    // searching down is inclusive of the current tick's slot
    assert_eq!(a.get_next_init_tick_index(5632 + 300, 64, true), Ok(Some(5632 + 128)));
    assert_eq!(a.get_next_init_tick_index(5632 + 128, 64, true), Ok(Some(5632 + 128)));
    assert_eq!(a.get_next_init_tick_index(5632 + 127, 64, true), Ok(None));
    // searching up is exclusive
    assert_eq!(a.get_next_init_tick_index(5632, 64, false), Ok(Some(5632 + 128)));
    assert_eq!(a.get_next_init_tick_index(5632 + 128, 64, false), Ok(None));
    // the upward search range is shifted down by one spacing
    assert_eq!(a.get_next_init_tick_index(5632 - 64, 64, false), Ok(Some(5632 + 128)));
    assert_eq!(a.get_next_init_tick_index(5632 - 64, 64, true), Err(ErrorCode::InvalidTickArraySequence));
    assert_eq!(a.get_next_init_tick_index(5632 + 88 * 64 - 64, 64, false), Err(ErrorCode::InvalidTickArraySequence));
}

#[test]
fn test_fixed_range_helpers() {
    let a = fixed_array(5632);
    assert!(a.check_in_array_bounds(5632, 64));
    assert!(!a.check_in_array_bounds(5631, 64));
    assert!(a.in_search_range(5631, 64, true));
    assert_eq!(a.tick_offset(5632 + 130, 64), Ok(2));
    assert_eq!(a.tick_offset(5632 - 1, 64), Ok(-1));
    assert_eq!(a.tick_offset(5632, 0), Err(ErrorCode::InvalidTickSpacing));
    assert!(!a.is_min_tick_array());
    assert!(!a.is_max_tick_array(64));
    let min = fixed_array(-444928);
    assert!(min.is_min_tick_array());
    let max = fixed_array(439296);
    assert!(max.is_max_tick_array(64));
}

#[test]
fn test_fixed_encode_decode() {
    let mut a = fixed_array(-5632);
    a.update_tick(-64, 64, &some_update()).unwrap();
    let bytes = a.encode();
    assert_eq!(bytes.len(), 9980);
    let b = TickArray::decode(&bytes);
    assert_eq!(b.start_tick_index(), -5632);
    assert_eq!(b.whirlpool(), Pubkey([7; 32]));
    assert_eq!(b.get_tick(-64, 64), Ok(Tick::from_update(some_update())));
    assert_eq!(b.get_tick(64, 64), Err(ErrorCode::TickNotFound));
}

#[test]
fn test_dynamic_update_and_get() {
    let mut a = dynamic_array(5632);
    assert!(a.is_variable_size());
    assert_eq!(a.start_tick_index(), 5632);
    assert_eq!(a.whirlpool(), Pubkey([7; 32]));
    assert_eq!(a.get_tick(5632 + 128, 64), Ok(Tick::default()));
    assert_eq!(a.update_tick(5632 + 128, 64, &some_update()), Ok(()));
    assert_eq!(a.update_tick(5632 + 64, 64, &some_update()), Ok(()));
    assert_eq!(a.get_tick(5632 + 128, 64), Ok(Tick::from_update(some_update())));
    assert_eq!(a.get_tick(5632 + 64, 64), Ok(Tick::from_update(some_update())));
    assert_eq!(a.get_tick(5632 + 192, 64), Ok(Tick::default()));
    assert_eq!(a.get_next_init_tick_index(5632 + 300, 64, true), Ok(Some(5632 + 128)));
    assert_eq!(a.get_next_init_tick_index(5632, 64, false), Ok(Some(5632 + 64)));
    assert_eq!(a.update_tick(5632 + 1, 64, &some_update()), Err(ErrorCode::TickNotFound));
}

#[test]
fn test_dynamic_initialize_then_clear() {
    let mut a = dynamic_array(0);
    let before = a.as_bytes().clone();
    a.update_tick(640, 64, &some_update()).unwrap();
    assert_ne!(a.as_bytes()[..140], before[..140]);
    a.update_tick(640, 64, &TickUpdate::default()).unwrap();
    assert_eq!(a.get_tick(640, 64), Ok(Tick::default()));
    // header, bitmap and the 88 one-byte uninitialized ticks read as before
    assert_eq!(a.as_bytes()[..140], before[..140]);
    assert_eq!(a.initialize(&pool(7, 64), 100), Err(ErrorCode::InvalidStartTick));
}

#[test]
fn test_dynamic_load_takes_bytes_as_they_are() {
    let mut data = vec![0u8; 140];
    data[0..4].copy_from_slice(&5632i32.to_le_bytes());
    data[4..36].copy_from_slice(&[7u8; 32]);
    // a tick tag of 1 while the bitmap says the tick is uninitialized
    data[52] = 1;
    let a = DynamicTickArrayLoader::load(&data);
    assert_eq!(a.start_tick_index(), 5632);
    assert_eq!(a.as_bytes()[..140], data[..]);
    assert_eq!(a.as_bytes().len(), 10004);
    let mut account_data = dynamic_tick_array_discriminator().to_vec();
    account_data.extend(data.iter());
    let account = AccountInfo { key: Pubkey([61; 32]), owner: program_id(), is_writable: true, data: account_data };
    match load_tick_array_mut(&account, &Pubkey([7; 32])) {
        Ok(loaded) => assert_eq!(loaded.start_tick_index(), 5632),
        Err(e) => panic!("{:?}", e),
    }
}

#[test]
fn test_dynamic_update_outside_keeps_bytes() {
    let mut a = dynamic_array(5632);
    a.update_tick(5632 + 64, 64, &some_update()).unwrap();
    let before = a.as_bytes().clone();
    assert_eq!(a.update_tick(5632 + 65, 64, &some_update()), Err(ErrorCode::TickNotFound));
    assert_eq!(a.update_tick(0, 64, &some_update()), Err(ErrorCode::TickNotFound));
    assert_eq!(a.update_tick(5632 + 64, 0, &some_update()), Err(ErrorCode::TickNotFound));
    assert_eq!(a.as_bytes(), &before);
}

#[test]
fn test_load_tick_array_fixed() {
    let mut a = fixed_array(5632);
    a.update_tick(5632 + 128, 64, &some_update()).unwrap();
    let account = fixed_account(&a, true);
    match load_tick_array(&account, &Pubkey([7; 32])) {
        Ok(LoadedTickArray::Fixed(t)) => {
            assert_eq!(t.get_tick(5632 + 128, 64), Ok(Tick::from_update(some_update())));
        },
        _ => panic!("expected a fixed tick array"),
    }
}

#[test]
fn test_load_tick_array_dynamic() {
    let mut a = dynamic_array(-5632);
    a.update_tick(-64, 64, &some_update()).unwrap();
    let account = dynamic_account(&a, 51);
    match load_tick_array(&account, &Pubkey([7; 32])) {
        Ok(loaded) => {
            assert!(loaded.is_variable_size());
            assert_eq!(loaded.start_tick_index(), -5632);
            assert_eq!(loaded.get_tick(-64, 64), Ok(Tick::from_update(some_update())));
        },
        Err(e) => panic!("{:?}", e),
    }
}

#[test]
fn test_load_tick_array_errors() {
    let a = fixed_array(5632);
    let good = fixed_account(&a, true);
    let mut wrong_owner = good.clone();
    wrong_owner.owner = Pubkey([1; 32]);
    assert!(matches!(load_tick_array(&wrong_owner, &Pubkey([7; 32])), Err(ErrorCode::AccountOwnedByWrongProgram)));
    let short = AccountInfo { key: Pubkey([1; 32]), owner: program_id(), is_writable: true, data: vec![1, 2, 3] };
    assert!(matches!(load_tick_array(&short, &Pubkey([7; 32])), Err(ErrorCode::AccountDiscriminatorNotFound)));
    let mut wrong_disc = good.clone();
    wrong_disc.data[0] ^= 0xff;
    assert!(matches!(load_tick_array(&wrong_disc, &Pubkey([7; 32])), Err(ErrorCode::AccountDiscriminatorMismatch)));
    assert!(matches!(load_tick_array(&good, &Pubkey([8; 32])), Err(ErrorCode::DifferentWhirlpoolTickArrayAccount)));
    let read_only = fixed_account(&a, false);
    assert!(matches!(load_tick_array_mut(&read_only, &Pubkey([7; 32])), Err(ErrorCode::AccountNotMutable)));
    assert!(load_tick_array(&read_only, &Pubkey([7; 32])).is_ok());
}

#[test]
fn test_tick_arrays_mut_same_account() {
    let a = fixed_array(5632);
    let account = fixed_account(&a, true);
    let arrays = TickArraysMut::load(&account, &account, &Pubkey([7; 32])).unwrap();
    let (lower, upper) = arrays.into_parts();
    assert!(upper.is_none());
    assert_eq!(lower.start_tick_index(), 5632);
}

#[test]
fn test_tick_arrays_mut_two_accounts() {
    let lower = fixed_array(0);
    let upper = dynamic_array(5632);
    let lower_account = fixed_account(&lower, true);
    let upper_account = dynamic_account(&upper, 60);
    let mut arrays = TickArraysMut::load(&lower_account, &upper_account, &Pubkey([7; 32])).unwrap();
    {
        let (l, u) = arrays.deref();
        assert_eq!(l.start_tick_index(), 0);
        assert_eq!(u.start_tick_index(), 5632);
    }
    {
        let (l, u) = arrays.deref_mut();
        l.update_tick(64, 64, &some_update()).unwrap();
        u.unwrap().update_tick(5632 + 64, 64, &some_update()).unwrap();
    }
    let (l, u) = arrays.into_parts();
    assert_eq!(l.get_tick(64, 64), Ok(Tick::from_update(some_update())));
    assert_eq!(u.unwrap().get_tick(5632 + 64, 64), Ok(Tick::from_update(some_update())));
    let read_only = AccountInfo { is_writable: false, ..upper_account.clone() };
    assert!(matches!(TickArraysMut::load(&lower_account, &read_only, &Pubkey([7; 32])), Err(ErrorCode::AccountNotMutable)));
}

#[test]
fn test_next_init_zero_spacing() {
    let a = fixed_array(5632);
    assert_eq!(a.get_next_init_tick_index(5632, 0, true), Err(ErrorCode::InvalidTickSpacing));
    assert_eq!(a.get_next_init_tick_index(5632, 0, false), Err(ErrorCode::InvalidTickSpacing));
    let d = dynamic_array(5632);
    assert_eq!(d.get_next_init_tick_index(5632, 0, true), Err(ErrorCode::InvalidTickSpacing));
}

#[test]
fn test_load_variable_size_longer_than_largest() {
    let mut a = dynamic_array(5632);
    a.update_tick(5632 + 64, 64, &some_update()).unwrap();
    let mut account = dynamic_account(&a, 62);
    account.data.extend(vec![9u8; 100]);
    match load_tick_array_mut(&account, &Pubkey([7; 32])) {
        Ok(loaded) => {
            assert!(loaded.is_variable_size());
            assert_eq!(loaded.get_tick(5632 + 64, 64), Ok(Tick::from_update(some_update())));
        },
        Err(e) => panic!("{:?}", e),
    }
}

#[test]
fn test_load_checks_before_data() {
    let a = fixed_array(5632);
    let mut short = fixed_account(&a, false);
    short.data.truncate(100);
    assert!(matches!(load_tick_array_mut(&short, &Pubkey([7; 32])), Err(ErrorCode::AccountNotMutable)));
    let mut foreign = fixed_account(&a, true);
    foreign.owner = Pubkey([1; 32]);
    foreign.data.truncate(100);
    assert!(matches!(load_tick_array_mut(&foreign, &Pubkey([7; 32])), Err(ErrorCode::AccountOwnedByWrongProgram)));
    let loaded = load_tick_array(&fixed_account(&a, true), &Pubkey([7; 32])).unwrap();
    assert!(!loaded.is_variable_size());
}
