use stellar_wallet::auth::AuthContext;
use stellar_wallet::ledger::TokenLedger;
use stellar_wallet::types::Address;
use stellar_wallet::types::WalletError;
use stellar_wallet::wallet::Wallet;

fn owner_auth(owner: Address) -> AuthContext {
    let mut auth = AuthContext::new();
    auth.approve(owner);
    auth
}

#[test]
fn test_test_initialize() {
    let owner = Address::new(1);
    let mut wallet = Wallet::new(Address::new(100));
    assert_eq!(wallet.initialize(owner), Ok(()));
    assert_eq!(wallet.owner(), Ok(owner));
    assert_eq!(wallet.agents().unwrap().len(), 0);
    assert_eq!(wallet.plugins().unwrap().len(), 0);
}

#[test]
fn test_add_and_remove_agent() {
    let owner = Address::new(1);
    let agent = Address::new(2);
    let auth = owner_auth(owner);
    let mut wallet = Wallet::new(Address::new(100));
    wallet.initialize(owner).unwrap();
    wallet.add_agent(&auth, agent).unwrap();
    assert!(wallet.agents().unwrap().contains(&agent));
    wallet.remove_agent(&auth, agent).unwrap();
    assert!(!wallet.agents().unwrap().contains(&agent));
}

#[test]
fn test_add_and_remove_plugin() {
    let owner = Address::new(1);
    let plugin = Address::new(3);
    let auth = owner_auth(owner);
    let mut wallet = Wallet::new(Address::new(100));
    wallet.initialize(owner).unwrap();
    wallet.add_plugin(&auth, plugin).unwrap();
    assert!(wallet.plugins().unwrap().contains(&plugin));
    wallet.remove_plugin(&auth, plugin).unwrap();
    assert!(!wallet.plugins().unwrap().contains(&plugin));
}

#[test]
fn test_transfer_token() {
    let owner = Address::new(1);
    let token = Address::new(4);
    let to = Address::new(5);
    let wallet_address = Address::new(100);
    let auth = owner_auth(owner);
    let mut wallet = Wallet::new(wallet_address);
    wallet.initialize(owner).unwrap();
    let mut ledger = TokenLedger::new();
    ledger.set_balance(token, wallet_address, 100);
    assert_eq!(wallet.transfer_token(&auth, &mut ledger, token, to, 100), Ok(()));
    assert_eq!(ledger.balance_of(token, wallet_address), 0);
    assert_eq!(ledger.balance_of(token, to), 100);
}

#[test]
fn test_call_plugin() {
    let owner = Address::new(1);
    let plugin = Address::new(3);
    let auth = owner_auth(owner);
    let mut wallet = Wallet::new(Address::new(100));
    wallet.initialize(owner).unwrap();
    wallet.add_plugin(&auth, plugin).unwrap();
    let args: Vec<u64> = vec![7, 8];
    let call = wallet.call_plugin(&auth, plugin, String::from("test_func"), args).unwrap();
    assert_eq!(call.plugin, plugin);
    assert_eq!(call.function, "test_func");
    assert_eq!(call.args, vec![7, 8]);
}

#[test]
fn test_uninitialized_wallet_reads_fail() {
    let wallet = Wallet::new(Address::new(100));
    assert_eq!(wallet.owner(), Err(WalletError::NotInitialized));
    assert_eq!(wallet.agents(), Err(WalletError::NotInitialized));
    assert_eq!(wallet.plugins(), Err(WalletError::NotInitialized));
}

#[test]
fn test_initialize_twice_fails() {
    let owner = Address::new(1);
    let mut wallet = Wallet::new(Address::new(100));
    assert_eq!(wallet.initialize(owner), Ok(()));
    assert_eq!(wallet.initialize(owner), Err(WalletError::AlreadyInitialized));
    assert_eq!(wallet.initialize(Address::new(2)), Err(WalletError::AlreadyInitialized));
    assert_eq!(wallet.owner(), Ok(owner));
}

#[test]
fn test_unauthorized_mutation_leaves_state() {
    let owner = Address::new(1);
    let plugin = Address::new(3);
    let auth = owner_auth(owner);
    let mut wallet = Wallet::new(Address::new(100));
    wallet.initialize(owner).unwrap();
    wallet.add_plugin(&auth, plugin).unwrap();
    let before = wallet.plugins().unwrap();

    let stranger_auth = owner_auth(Address::new(9));
    assert_eq!(
        wallet.add_plugin(&stranger_auth, Address::new(4)),
        Err(WalletError::Unauthorized)
    );
    assert_eq!(wallet.remove_plugin(&stranger_auth, plugin), Err(WalletError::Unauthorized));
    assert_eq!(wallet.add_agent(&stranger_auth, Address::new(5)), Err(WalletError::Unauthorized));
    assert_eq!(wallet.plugins().unwrap(), before);
    assert_eq!(wallet.agents().unwrap().len(), 0);
}

#[test]
fn test_add_twice_yields_same_set() {
    let owner = Address::new(1);
    let plugin = Address::new(3);
    let agent = Address::new(2);
    let auth = owner_auth(owner);
    let mut wallet = Wallet::new(Address::new(100));
    wallet.initialize(owner).unwrap();
    wallet.add_plugin(&auth, plugin).unwrap();
    let once = wallet.plugins().unwrap();
    wallet.add_plugin(&auth, plugin).unwrap();
    assert_eq!(wallet.plugins().unwrap(), once);
    wallet.add_agent(&auth, agent).unwrap();
    let agents_once = wallet.agents().unwrap();
    wallet.add_agent(&auth, agent).unwrap();
    assert_eq!(wallet.agents().unwrap(), agents_once);
    assert_eq!(agents_once.len(), 1);
}

#[test]
fn test_remove_absent_member_is_noop() {
    let owner = Address::new(1);
    let auth = owner_auth(owner);
    let mut wallet = Wallet::new(Address::new(100));
    wallet.initialize(owner).unwrap();
    wallet.add_plugin(&auth, Address::new(3)).unwrap();
    let before = wallet.plugins().unwrap();
    assert_eq!(wallet.remove_plugin(&auth, Address::new(77)), Ok(()));
    assert_eq!(wallet.plugins().unwrap(), before);
    assert_eq!(wallet.remove_agent(&auth, Address::new(78)), Ok(()));
    assert_eq!(wallet.agents().unwrap().len(), 0);
}

#[test]
fn test_call_plugin_not_authorized() {
    let owner = Address::new(1);
    let auth = owner_auth(owner);
    let mut wallet = Wallet::new(Address::new(100));
    wallet.initialize(owner).unwrap();
    let r = wallet.call_plugin(&auth, Address::new(3), String::from("test_func"), vec![]);
    assert!(matches!(r, Err(WalletError::PluginNotAuthorized)));
}

#[test]
fn test_transfer_token_failures_leave_balances() {
    let owner = Address::new(1);
    let token = Address::new(4);
    let to = Address::new(5);
    let wallet_address = Address::new(100);
    let auth = owner_auth(owner);
    let mut wallet = Wallet::new(wallet_address);
    wallet.initialize(owner).unwrap();
    let mut ledger = TokenLedger::new();
    ledger.set_balance(token, wallet_address, 10);

    assert_eq!(
        wallet.transfer_token(&auth, &mut ledger, token, to, -1),
        Err(WalletError::InvalidAmount)
    );
    assert_eq!(
        wallet.transfer_token(&auth, &mut ledger, token, to, 11),
        Err(WalletError::InsufficientBalance)
    );
    ledger.set_balance(token, to, i128::MAX);
    assert_eq!(
        wallet.transfer_token(&auth, &mut ledger, token, to, 1),
        Err(WalletError::BalanceOverflow)
    );
    assert_eq!(ledger.balance_of(token, wallet_address), 10);
    assert_eq!(ledger.balance_of(token, to), i128::MAX);
}
