use vstd::prelude::*;

verus! {

/// A principal: a cryptographically addressable identity (a user or a
/// contract) capable of authorizing actions. On the ledger such an identity
/// is an opaque address; the library stands for it by a numeric id, and the
/// protocol's logic reads nothing of an address but its identity.
#[derive(Clone, Copy, PartialEq, Eq, Structural, Debug)]
pub struct Address {
    pub id: u64,
}

impl Address {
    pub fn new(id: u64) -> (r: Address)
        ensures
            r.id == id,
    {
        Address { id }
    }
}

/// Why a call was rejected. Every failure aborts the whole enclosing call:
/// no partial mutation is observable from a failed entry point.
#[derive(Clone, Copy, PartialEq, Eq, Structural, Debug)]
pub enum WalletError {
    /// A one-shot `initialize` was attempted a second time.
    AlreadyInitialized,
    /// An entry point was called before `initialize`.
    NotInitialized,
    /// The stored owner (or admin) has not authorized the call.
    Unauthorized,
    /// `call_plugin` named a contract outside the plugin allow-list.
    PluginNotAuthorized,
    /// A swap's counterparty amount falls short of the stated minimum.
    InsufficientCounterAmount,
    /// A swap refund computation would go negative; it must fail rather
    /// than silently wrap.
    ArithmeticUnderflow,
    /// The token service rejected a transfer of a negative quantity.
    InvalidAmount,
    /// The token service rejected a transfer: the payer's balance is short.
    InsufficientBalance,
    /// The token service rejected a transfer: the recipient's balance
    /// cannot hold the credited quantity.
    BalanceOverflow,
}

} // verus!
