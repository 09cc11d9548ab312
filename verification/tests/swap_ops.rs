use stellar_wallet::auth::AuthContext;
use stellar_wallet::ledger::TokenLedger;
use stellar_wallet::swap::SoroswapPlugin;
use stellar_wallet::types::Address;
use stellar_wallet::types::WalletError;

fn owner_auth(owner: Address) -> AuthContext {
    let mut auth = AuthContext::new();
    auth.approve(owner);
    auth
}

#[test]
fn test_initialize_and_owner() {
    let owner = Address::new(1);
    let mut plugin = SoroswapPlugin::new(Address::new(200));
    assert_eq!(plugin.initialize(owner), Ok(()));
    assert_eq!(plugin.owner(), Ok(owner));
}

#[test]
fn test_atomic_swap() {
    let owner = Address::new(1);
    let token_a = Address::new(2);
    let token_b = Address::new(3);
    let from_a = Address::new(4);
    let from_b = Address::new(5);
    let mut plugin = SoroswapPlugin::new(Address::new(200));
    plugin.initialize(owner).unwrap();
    let auth = owner_auth(owner);
    let mut ledger = TokenLedger::new();
    ledger.set_balance(token_a, from_a, 100);
    ledger.set_balance(token_b, from_b, 200);
    let r = plugin.atomic_swap(
        &auth, &mut ledger, token_a, token_b, from_a, from_b, 100, 90, 200, 80,
    );
    assert_eq!(r, Ok(()));
}

#[test]
fn test_swap_settles_exact_amounts() {
    let owner = Address::new(1);
    let token_a = Address::new(2);
    let token_b = Address::new(3);
    let from_a = Address::new(4);
    let from_b = Address::new(5);
    let custody = Address::new(200);
    let mut plugin = SoroswapPlugin::new(custody);
    plugin.initialize(owner).unwrap();
    let auth = owner_auth(owner);
    let mut ledger = TokenLedger::new();
    ledger.set_balance(token_a, from_a, 100);
    ledger.set_balance(token_b, from_b, 200);
    // amount_a = 100, min_a_for_b = 80, amount_b = 200, min_b_for_a = 90.
    let r = plugin.atomic_swap(
        &auth, &mut ledger, token_a, token_b, from_a, from_b, 100, 90, 200, 80,
    );
    assert_eq!(r, Ok(()));
    // from_a paid 100 of token_a and got 20 refunded: net spend exactly 80.
    assert_eq!(ledger.balance_of(token_a, from_a), 20);
    assert_eq!(ledger.balance_of(token_a, from_b), 80);
    // from_b paid 200 of token_b and got 110 refunded: net spend exactly 90.
    assert_eq!(ledger.balance_of(token_b, from_b), 110);
    assert_eq!(ledger.balance_of(token_b, from_a), 90);
    // The escrow custody account ends where it began.
    assert_eq!(ledger.balance_of(token_a, custody), 0);
    assert_eq!(ledger.balance_of(token_b, custody), 0);
}

#[test]
fn test_swap_insufficient_counter_amount() {
    let owner = Address::new(1);
    let token_a = Address::new(2);
    let token_b = Address::new(3);
    let from_a = Address::new(4);
    let from_b = Address::new(5);
    let mut plugin = SoroswapPlugin::new(Address::new(200));
    plugin.initialize(owner).unwrap();
    let auth = owner_auth(owner);
    let mut ledger = TokenLedger::new();
    ledger.set_balance(token_a, from_a, 100);
    ledger.set_balance(token_b, from_b, 50);
    // amount_b = 50 cannot cover min_b_for_a = 90: rejected before any
    // transfer, balances unchanged.
    let r = plugin.atomic_swap(
        &auth, &mut ledger, token_a, token_b, from_a, from_b, 100, 90, 50, 80,
    );
    assert_eq!(r, Err(WalletError::InsufficientCounterAmount));
    assert_eq!(ledger.balance_of(token_a, from_a), 100);
    assert_eq!(ledger.balance_of(token_b, from_b), 50);
}

#[test]
fn test_swap_insufficient_balance_aborts_whole() {
    let owner = Address::new(1);
    let token_a = Address::new(2);
    let token_b = Address::new(3);
    let from_a = Address::new(4);
    let from_b = Address::new(5);
    let mut plugin = SoroswapPlugin::new(Address::new(200));
    plugin.initialize(owner).unwrap();
    let auth = owner_auth(owner);
    let mut ledger = TokenLedger::new();
    ledger.set_balance(token_a, from_a, 100);
    // from_b holds only 150 of token_b but offers 200: the second leg's
    // escrow pull fails and the first leg's movements are rolled back.
    ledger.set_balance(token_b, from_b, 150);
    let r = plugin.atomic_swap(
        &auth, &mut ledger, token_a, token_b, from_a, from_b, 100, 90, 200, 80,
    );
    assert_eq!(r, Err(WalletError::InsufficientBalance));
    assert_eq!(ledger.balance_of(token_a, from_a), 100);
    assert_eq!(ledger.balance_of(token_a, from_b), 0);
    assert_eq!(ledger.balance_of(token_b, from_b), 150);
    assert_eq!(ledger.balance_of(token_b, from_a), 0);
}

#[test]
fn test_swap_negative_amount_rejected() {
    let owner = Address::new(1);
    let token_a = Address::new(2);
    let token_b = Address::new(3);
    let from_a = Address::new(4);
    let from_b = Address::new(5);
    let mut plugin = SoroswapPlugin::new(Address::new(200));
    plugin.initialize(owner).unwrap();
    let auth = owner_auth(owner);
    let mut ledger = TokenLedger::new();
    ledger.set_balance(token_b, from_b, 200);
    // amount_a = -5 passes the minimum checks (min_a_for_b = -10) but the
    // token service rejects moving a negative quantity.
    let r = plugin.atomic_swap(
        &auth, &mut ledger, token_a, token_b, from_a, from_b, -5, 90, 200, -10,
    );
    assert_eq!(r, Err(WalletError::InvalidAmount));
    assert_eq!(ledger.balance_of(token_b, from_b), 200);
}

#[test]
fn test_swap_requires_owner_authorization() {
    let owner = Address::new(1);
    let mut plugin = SoroswapPlugin::new(Address::new(200));
    plugin.initialize(owner).unwrap();
    let stranger_auth = owner_auth(Address::new(9));
    let mut ledger = TokenLedger::new();
    let r = plugin.atomic_swap(
        &stranger_auth,
        &mut ledger,
        Address::new(2),
        Address::new(3),
        Address::new(4),
        Address::new(5),
        100,
        90,
        200,
        80,
    );
    assert_eq!(r, Err(WalletError::Unauthorized));
}

#[test]
fn test_uninitialized_plugin_reads_fail() {
    let plugin = SoroswapPlugin::new(Address::new(200));
    assert_eq!(plugin.owner(), Err(WalletError::NotInitialized));
    let auth = owner_auth(Address::new(1));
    let mut ledger = TokenLedger::new();
    let mut plugin = plugin;
    let r = plugin.atomic_swap(
        &auth,
        &mut ledger,
        Address::new(2),
        Address::new(3),
        Address::new(4),
        Address::new(5),
        100,
        90,
        200,
        80,
    );
    assert_eq!(r, Err(WalletError::NotInitialized));
    assert_eq!(plugin.initialize(Address::new(1)), Ok(()));
    assert_eq!(plugin.initialize(Address::new(1)), Err(WalletError::AlreadyInitialized));
}

#[test]
fn test_ledger_set_balance_overwrites() {
    let token = Address::new(2);
    let holder = Address::new(4);
    let mut ledger = TokenLedger::new();
    assert_eq!(ledger.balance_of(token, holder), 0);
    ledger.set_balance(token, holder, 41);
    ledger.set_balance(token, holder, 42);
    assert_eq!(ledger.balance_of(token, holder), 42);
    assert_eq!(ledger.balance_of(Address::new(3), holder), 0);
}

#[test]
fn test_ledger_self_transfer_keeps_balance() {
    let token = Address::new(2);
    let holder = Address::new(4);
    let mut ledger = TokenLedger::new();
    ledger.set_balance(token, holder, 10);
    assert_eq!(ledger.transfer(token, holder, holder, 7), Ok(()));
    assert_eq!(ledger.balance_of(token, holder), 10);
}
