//! Functional tests of the registry: initialization, minting, queries,
//! admin updates, and the token-style policy stubs.

use stellar_wrap::Error;
use stellar_wrap::MintAuth;
use stellar_wrap::StellarWrapContract;

fn fresh_registry() -> StellarWrapContract {
    StellarWrapContract::new(b"contract-1".to_vec())
}

fn admin_id() -> Vec<u8> {
    b"admin".to_vec()
}

fn user_id() -> Vec<u8> {
    b"user".to_vec()
}

fn admin_pubkey() -> [u8; 32] {
    [1u8; 32]
}

fn admin_auth() -> MintAuth {
    MintAuth::Capability { caller: admin_id() }
}

#[test]
fn test_minting_flow() {
    let mut reg = fresh_registry();
    let admin = admin_id();
    let user = user_id();

    reg.initialize(admin, Some(admin_pubkey())).unwrap();

    let dummy_hash = [42u8; 32];
    let archetype = b"soroban".to_vec();
    let period = 2024_01u64;
    let now = 0u64;

    let ev = reg
        .mint_wrap(&user, &dummy_hash, &archetype, period, now, &admin_auth())
        .unwrap();
    assert_eq!(ev.user, user);
    assert_eq!(ev.period, period);
    assert_eq!(ev.archetype, archetype);

    let wrap_opt = reg.get_wrap(&user, period);
    assert!(wrap_opt.is_some());
    let wrap = wrap_opt.unwrap();

    assert_eq!(wrap.data_hash, dummy_hash);
    assert_eq!(wrap.archetype, archetype);
    assert_eq!(wrap.period, period);
    assert_eq!(wrap.timestamp, now);
}

#[test]
fn test_initialize_twice_fails() {
    let mut reg = fresh_registry();

    reg.initialize(admin_id(), Some(admin_pubkey())).unwrap();

    let result = reg.initialize(admin_id(), Some(admin_pubkey()));
    assert_eq!(result, Err(Error::AlreadyInitialized));
}

#[test]
fn test_mint_wrap_unauthorized() {
    let mut reg = fresh_registry();
    let user = user_id();

    reg.initialize(admin_id(), Some(admin_pubkey())).unwrap();

    let dummy_hash = [42u8; 32];
    let archetype = b"defi".to_vec();
    let period = 2024_01u64;

    // The host did not authenticate the admin, only some other caller.
    let auth = MintAuth::Capability { caller: b"attacker".to_vec() };
    let result = reg.mint_wrap(&user, &dummy_hash, &archetype, period, 0, &auth);
    assert_eq!(result.err(), Some(Error::Unauthorized));
    assert!(reg.get_wrap(&user, period).is_none());
}

#[test]
fn test_multiple_periods() {
    let mut reg = fresh_registry();
    let user = user_id();

    reg.initialize(admin_id(), Some(admin_pubkey())).unwrap();

    let dummy_hash_1 = [42u8; 32];
    let dummy_hash_2 = [99u8; 32];
    let archetype_1 = b"soroban".to_vec();
    let archetype_2 = b"defi".to_vec();
    let period_1 = 2024_01u64;
    let period_2 = 2024_02u64;

    reg.mint_wrap(&user, &dummy_hash_1, &archetype_1, period_1, 0, &admin_auth())
        .unwrap();
    reg.mint_wrap(&user, &dummy_hash_2, &archetype_2, period_2, 0, &admin_auth())
        .unwrap();

    let wrap_1 = reg.get_wrap(&user, period_1).unwrap();
    let wrap_2 = reg.get_wrap(&user, period_2).unwrap();

    assert_eq!(wrap_1.data_hash, dummy_hash_1);
    assert_eq!(wrap_1.archetype, archetype_1);
    assert_eq!(wrap_1.period, period_1);

    assert_eq!(wrap_2.data_hash, dummy_hash_2);
    assert_eq!(wrap_2.archetype, archetype_2);
    assert_eq!(wrap_2.period, period_2);
}

#[test]
fn test_duplicate_period_fails() {
    let mut reg = fresh_registry();
    let user = user_id();

    reg.initialize(admin_id(), Some(admin_pubkey())).unwrap();

    let dummy_hash_1 = [42u8; 32];
    let dummy_hash_2 = [99u8; 32];
    let archetype = b"soroban".to_vec();
    let period = 2024_01u64;

    reg.mint_wrap(&user, &dummy_hash_1, &archetype, period, 0, &admin_auth())
        .unwrap();

    let result = reg.mint_wrap(&user, &dummy_hash_2, &archetype, period, 0, &admin_auth());
    assert_eq!(result.err(), Some(Error::WrapAlreadyExists));
}

#[test]
fn test_verify_signature_not_initialized() {
    let reg = fresh_registry();

    let message = b"Test message".to_vec();
    let signature = [0u8; 64];

    let result = reg.verify_signature(&message, &signature);
    assert_eq!(result, Err(Error::NotInitialized));
}

#[test]
fn test_update_admin_success() {
    let mut reg = fresh_registry();
    let admin = admin_id();
    let new_admin = b"new-admin".to_vec();

    reg.initialize(admin.clone(), Some(admin_pubkey())).unwrap();

    reg.update_admin(&admin, new_admin.clone(), None).unwrap();

    // The new admin can mint, proving the update worked.
    let user = user_id();
    let dummy_hash = [42u8; 32];
    let archetype = b"soroban".to_vec();
    let period = 2024_01u64;

    let auth = MintAuth::Capability { caller: new_admin };
    reg.mint_wrap(&user, &dummy_hash, &archetype, period, 0, &auth)
        .unwrap();

    assert!(reg.get_wrap(&user, period).is_some());
}

#[test]
fn test_update_admin_unauthorized() {
    let mut reg = fresh_registry();
    let new_admin = b"new-admin".to_vec();

    reg.initialize(admin_id(), Some(admin_pubkey())).unwrap();

    // The host authenticated some caller that is not the admin.
    let unauthorized = b"unauthorized".to_vec();
    let result = reg.update_admin(&unauthorized, new_admin, None);
    assert_eq!(result, Err(Error::Unauthorized));
    assert_eq!(reg.get_admin(), Some(admin_id()));
}

#[test]
fn test_get_wrap_existing() {
    let mut reg = fresh_registry();
    let user = user_id();

    reg.initialize(admin_id(), Some(admin_pubkey())).unwrap();

    let dummy_hash = [42u8; 32];
    let archetype = b"soroban".to_vec();
    let period = 2024_01u64;

    reg.mint_wrap(&user, &dummy_hash, &archetype, period, 0, &admin_auth())
        .unwrap();

    let wrap_opt = reg.get_wrap(&user, period);
    assert!(wrap_opt.is_some());

    let wrap = wrap_opt.unwrap();
    assert_eq!(wrap.data_hash, dummy_hash);
    assert_eq!(wrap.archetype, archetype);
    assert_eq!(wrap.period, period);
}

#[test]
fn test_get_wrap_nonexistent() {
    let mut reg = fresh_registry();
    let user = user_id();

    reg.initialize(admin_id(), Some(admin_pubkey())).unwrap();

    let period = 2024_01u64;
    let wrap_opt = reg.get_wrap(&user, period);
    assert!(wrap_opt.is_none());
}

#[test]
fn test_get_wrap_different_user() {
    let mut reg = fresh_registry();
    let user1 = b"user-1".to_vec();
    let user2 = b"user-2".to_vec();

    reg.initialize(admin_id(), Some(admin_pubkey())).unwrap();

    let dummy_hash = [42u8; 32];
    let archetype = b"soroban".to_vec();
    let period = 2024_01u64;

    reg.mint_wrap(&user1, &dummy_hash, &archetype, period, 0, &admin_auth())
        .unwrap();

    let wrap_opt = reg.get_wrap(&user2, period);
    assert!(wrap_opt.is_none());
}

#[test]
fn test_get_count_with_wraps() {
    let mut reg = fresh_registry();
    let user = user_id();

    reg.initialize(admin_id(), Some(admin_pubkey())).unwrap();

    let dummy_hash_1 = [42u8; 32];
    let dummy_hash_2 = [99u8; 32];
    let dummy_hash_3 = [123u8; 32];
    let archetype = b"soroban".to_vec();

    assert_eq!(reg.get_count(&user), 0);

    reg.mint_wrap(&user, &dummy_hash_1, &archetype, 2024_01u64, 0, &admin_auth())
        .unwrap();
    assert_eq!(reg.get_count(&user), 1);

    reg.mint_wrap(&user, &dummy_hash_2, &archetype, 2024_02u64, 0, &admin_auth())
        .unwrap();
    assert_eq!(reg.get_count(&user), 2);

    reg.mint_wrap(&user, &dummy_hash_3, &archetype, 2024_03u64, 0, &admin_auth())
        .unwrap();
    assert_eq!(reg.get_count(&user), 3);
}

#[test]
fn test_get_count_no_wraps() {
    let mut reg = fresh_registry();
    let user = user_id();

    reg.initialize(admin_id(), Some(admin_pubkey())).unwrap();

    assert_eq!(reg.get_count(&user), 0);
}

#[test]
fn test_get_count_multiple_users() {
    let mut reg = fresh_registry();
    let user1 = b"user-1".to_vec();
    let user2 = b"user-2".to_vec();

    reg.initialize(admin_id(), Some(admin_pubkey())).unwrap();

    let dummy_hash = [42u8; 32];
    let archetype = b"soroban".to_vec();

    reg.mint_wrap(&user1, &dummy_hash, &archetype, 2024_01u64, 0, &admin_auth())
        .unwrap();
    reg.mint_wrap(&user1, &dummy_hash, &archetype, 2024_02u64, 0, &admin_auth())
        .unwrap();

    reg.mint_wrap(&user2, &dummy_hash, &archetype, 2024_01u64, 0, &admin_auth())
        .unwrap();

    assert_eq!(reg.get_count(&user1), 2);
    assert_eq!(reg.get_count(&user2), 1);
}

#[test]
fn test_get_admin_initialized() {
    let mut reg = fresh_registry();
    let admin = admin_id();

    reg.initialize(admin.clone(), Some(admin_pubkey())).unwrap();

    let admin_opt = reg.get_admin();
    assert!(admin_opt.is_some());
    assert_eq!(admin_opt.unwrap(), admin);
}

#[test]
fn test_get_admin_not_initialized() {
    let reg = fresh_registry();

    let admin_opt = reg.get_admin();
    assert!(admin_opt.is_none());
}

#[test]
fn test_get_wrap_state_verification() {
    let mut reg = fresh_registry();
    let user = user_id();
    let period = 2024_01u64;

    reg.initialize(admin_id(), Some(admin_pubkey())).unwrap();

    // Mint with an exact clock reading, then read the record back.
    reg.mint_wrap(&user, &[99u8; 32], &b"test".to_vec(), period, 1234567890, &admin_auth())
        .unwrap();

    let retrieved = reg.get_wrap(&user, period);
    assert!(retrieved.is_some());
    let wrap = retrieved.unwrap();
    assert_eq!(wrap.timestamp, 1234567890);
    assert_eq!(wrap.data_hash, [99u8; 32]);
    assert_eq!(wrap.archetype, b"test".to_vec());
    assert_eq!(wrap.period, period);
}

#[test]
fn test_get_count_state_verification() {
    let mut reg = fresh_registry();
    let user = user_id();

    reg.initialize(admin_id(), Some(admin_pubkey())).unwrap();

    // The counter is exactly the number of successful mints for the user.
    let archetype = b"test".to_vec();
    let mut period = 1u64;
    while period <= 5 {
        reg.mint_wrap(&user, &[period as u8; 32], &archetype, period, 0, &admin_auth())
            .unwrap();
        period += 1;
    }

    assert_eq!(reg.get_count(&user), 5);
}

#[test]
fn test_get_admin_state_verification() {
    let mut reg = fresh_registry();
    let admin = admin_id();

    reg.initialize(admin.clone(), None).unwrap();

    let retrieved_admin = reg.get_admin();
    assert!(retrieved_admin.is_some());
    assert_eq!(retrieved_admin.unwrap(), admin);
}

#[test]
fn test_token_metadata() {
    let reg = fresh_registry();

    assert_eq!(reg.decimals(), 0);

    let name = reg.name();
    assert_eq!(name, "Stellar Wrap Registry".to_string());

    let symbol = reg.symbol();
    assert_eq!(symbol, "WRAP".to_string());
}

#[test]
fn test_balance_of() {
    let mut reg = fresh_registry();
    let user = user_id();

    reg.initialize(admin_id(), Some(admin_pubkey())).unwrap();

    assert_eq!(reg.balance_of(&user), 0);

    let archetype = b"soroban".to_vec();

    reg.mint_wrap(&user, &[42u8; 32], &archetype, 2024_01u64, 0, &admin_auth())
        .unwrap();
    assert_eq!(reg.balance_of(&user), 1);

    reg.mint_wrap(&user, &[99u8; 32], &archetype, 2024_02u64, 0, &admin_auth())
        .unwrap();
    assert_eq!(reg.balance_of(&user), 2);

    reg.mint_wrap(&user, &[123u8; 32], &archetype, 2024_03u64, 0, &admin_auth())
        .unwrap();
    assert_eq!(reg.balance_of(&user), 3);

    let other_user = b"other-user".to_vec();
    assert_eq!(reg.balance_of(&other_user), 0);
}

#[test]
fn test_allowance_always_zero() {
    let reg = fresh_registry();
    let user1 = b"user-1".to_vec();
    let user2 = b"user-2".to_vec();

    assert_eq!(reg.allowance(&user1, &user2), 0);
    assert_eq!(reg.allowance(&user1, &user2), 0);
}

#[test]
fn test_transfer_panics() {
    let reg = fresh_registry();
    let from = b"from".to_vec();
    let to = b"to".to_vec();

    let result = reg.transfer(&from, &to, 1);
    assert_eq!(result, Err(Error::TransferNotAllowed));
}

#[test]
fn test_transfer_from_panics() {
    let reg = fresh_registry();
    let spender = b"spender".to_vec();
    let from = b"from".to_vec();
    let to = b"to".to_vec();

    let result = reg.transfer_from(&spender, &from, &to, 1);
    assert_eq!(result, Err(Error::TransferNotAllowed));
}

#[test]
fn test_approve_panics() {
    let reg = fresh_registry();
    let from = b"from".to_vec();
    let spender = b"spender".to_vec();

    let result = reg.approve(&from, &spender, 1, 1000);
    assert_eq!(result, Err(Error::TransferNotAllowed));
}

#[test]
fn test_burn_panics() {
    let reg = fresh_registry();
    let user = user_id();

    let result = reg.burn(&user, 1);
    assert_eq!(result, Err(Error::TransferNotAllowed));
}

#[test]
fn test_balance_increments_on_mint() {
    let mut reg = fresh_registry();
    let user = user_id();

    reg.initialize(admin_id(), Some(admin_pubkey())).unwrap();

    let archetype = b"soroban".to_vec();

    assert_eq!(reg.balance_of(&user), 0);

    let periods = [2024_01u64, 2024_02u64, 2024_03u64, 2024_04u64, 2024_05u64];

    for (i, period) in periods.iter().enumerate() {
        let mut hash_data = [0u8; 32];
        hash_data[0] = (i + 1) as u8;
        reg.mint_wrap(&user, &hash_data, &archetype, *period, 0, &admin_auth())
            .unwrap();
        assert_eq!(reg.balance_of(&user), (i + 1) as i128);
    }

    assert_eq!(reg.balance_of(&user), 5);
}
