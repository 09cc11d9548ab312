//! The atomic-swap plugin: a two-leg escrow settlement between two parties.
//! Each leg pulls an over-provisioned quantity from the payer into the
//! plugin's own custody, settles the agreed quantity to the counterparty,
//! and refunds the excess to the payer
//! (escrow-pull/partial-settle/refund). Both legs commit within one call or
//! neither does, and both parties receive at least their stated minimum or
//! the whole operation aborts before any balance moves.

use vstd::prelude::*;

use crate::auth::AuthContext;
use crate::auth::check_gate;
use crate::auth::gate;
use crate::ledger::TokenLedger;
use crate::ledger::spec_transfer;
use crate::types::Address;
use crate::types::WalletError;
use crate::wallet::init_gate;

verus! {

/// What one escrow leg does to the ledger `m`: pull `max_spend` of `token`
/// from `from` into `custody`, settle `transfer_amount` from custody to
/// `to`, then refund the excess to `from`. A refund that would go negative
/// fails with `ArithmeticUnderflow` rather than wrap, and any rejected
/// movement aborts the leg with its own error.
pub open spec fn spec_move_token(
    m: Map<(Address, Address), int>,
    token: Address,
    from: Address,
    to: Address,
    custody: Address,
    max_spend: int,
    transfer_amount: int,
) -> Result<Map<(Address, Address), int>, WalletError> {
    match spec_transfer(m, token, from, custody, max_spend) {
        Result::Err(e) => Result::Err(e),
        Result::Ok(m1) => match spec_transfer(m1, token, custody, to, transfer_amount) {
            Result::Err(e) => Result::Err(e),
            Result::Ok(m2) => if transfer_amount > max_spend {
                Result::Err(WalletError::ArithmeticUnderflow)
            } else {
                spec_transfer(m2, token, custody, from, max_spend - transfer_amount)
            },
        },
    }
}

/// What one `atomic_swap` call does: the plugin's stored owner must have
/// authorized the call; each party's offered amount must reach the other's
/// stated minimum, else `InsufficientCounterAmount` before any balance
/// moves; then the two escrow legs settle in order, `token_a` from `from_a`
/// to `from_b` and `token_b` from `from_b` to `from_a`.
pub open spec fn spec_atomic_swap(
    owner: Option<Address>,
    auth: AuthContext,
    m: Map<(Address, Address), int>,
    custody: Address,
    token_a: Address,
    token_b: Address,
    from_a: Address,
    from_b: Address,
    amount_a: int,
    min_b_for_a: int,
    amount_b: int,
    min_a_for_b: int,
) -> Result<Map<(Address, Address), int>, WalletError> {
    match gate(owner, auth) {
        Result::Err(e) => Result::Err(e),
        Result::Ok(()) => if amount_b < min_b_for_a {
            Result::Err(WalletError::InsufficientCounterAmount)
        } else if amount_a < min_a_for_b {
            Result::Err(WalletError::InsufficientCounterAmount)
        } else {
            match spec_move_token(m, token_a, from_a, from_b, custody, amount_a, min_a_for_b) {
                Result::Err(e) => Result::Err(e),
                Result::Ok(m1) => spec_move_token(
                    m1,
                    token_b,
                    from_b,
                    from_a,
                    custody,
                    amount_b,
                    min_b_for_a,
                ),
            }
        },
    }
}

/// The swap plugin's persistent state: the wallet contract that installed
/// it, stored once at initialization. Every mutating call delegates trust
/// upward to that single owning wallet, not to arbitrary callers.
pub struct SoroswapPlugin {
    address: Address,
    owner: Option<Address>,
}

impl SoroswapPlugin {
    /// The address under which this plugin instance is deployed; its escrow
    /// custody account.
    pub closed spec fn spec_address(&self) -> Address {
        self.address
    }

    /// The stored owning wallet, absent until `initialize` runs.
    pub closed spec fn spec_owner(&self) -> Option<Address> {
        self.owner
    }

    /// A freshly deployed, not yet initialized plugin instance at `address`.
    pub fn new(address: Address) -> (r: SoroswapPlugin)
        ensures
            r.spec_address() == address,
            r.spec_owner() is None,
    {
        SoroswapPlugin { address, owner: Option::None }
    }

    /// One-shot initialization: store the owning wallet. Fails with
    /// `AlreadyInitialized`, changing nothing, if an owner is already stored.
    pub fn initialize(&mut self, owner: Address) -> (r: Result<(), WalletError>)
        ensures
            r == init_gate(old(self).spec_owner()),
            r is Err ==> *final(self) == *old(self),
            r is Ok ==> final(self).spec_owner() == Some(owner) && final(self).spec_address()
                == old(self).spec_address(),
    {
        if self.owner.is_some() {
            return Result::Err(WalletError::AlreadyInitialized);
        }
        self.owner = Option::Some(owner);
        Result::Ok(())
    }

    /// The stored owning wallet; `NotInitialized` before `initialize`.
    pub fn owner(&self) -> (r: Result<Address, WalletError>)
        ensures
            match self.spec_owner() {
                Option::Some(o) => r == Result::<Address, WalletError>::Ok(o),
                Option::None => r == Result::<Address, WalletError>::Err(
                    WalletError::NotInitialized,
                ),
            },
    {
        match &self.owner {
            Option::Some(o) => Result::Ok(*o),
            Option::None => Result::Err(WalletError::NotInitialized),
        }
    }

    /// The owner's gate: passes exactly when the stored owning wallet has
    /// authorized the current call.
    fn require_owner(&self, auth: &AuthContext) -> (r: Result<(), WalletError>)
        ensures
            r == gate(self.spec_owner(), *auth),
    {
        check_gate(&self.owner, auth)
    }

    /// One escrow leg on a working ledger. On failure the working copy may
    /// hold partial movements; the caller commits it only on success.
    fn move_token(
        &self,
        working: &mut TokenLedger,
        token: Address,
        from: Address,
        to: Address,
        max_spend: i128,
        transfer_amount: i128,
    ) -> (r: Result<(), WalletError>)
        ensures
            match r {
                Result::Ok(()) => spec_move_token(
                    old(working)@,
                    token,
                    from,
                    to,
                    self.spec_address(),
                    max_spend as int,
                    transfer_amount as int,
                ) == Result::<Map<(Address, Address), int>, WalletError>::Ok(final(working)@),
                Result::Err(e) => spec_move_token(
                    old(working)@,
                    token,
                    from,
                    to,
                    self.spec_address(),
                    max_spend as int,
                    transfer_amount as int,
                ) == Result::<Map<(Address, Address), int>, WalletError>::Err(e),
            },
    {
        let custody = self.address;
        match working.transfer(token, from, custody, max_spend) {
            Result::Err(e) => {
                return Result::Err(e);
            },
            Result::Ok(()) => {},
        }
        match working.transfer(token, custody, to, transfer_amount) {
            Result::Err(e) => {
                return Result::Err(e);
            },
            Result::Ok(()) => {},
        }
        if transfer_amount > max_spend {
            return Result::Err(WalletError::ArithmeticUnderflow);
        }
        working.transfer(token, custody, from, max_spend - transfer_amount)
    }

    /// Settle a two-party swap atomically. Callable only with the owning
    /// wallet's authorization. `from_a` offers `amount_a` of `token_a` and
    /// accepts no less than `min_b_for_a` of `token_b`; `from_b` offers
    /// `amount_b` of `token_b` and accepts no less than `min_a_for_b` of
    /// `token_a`. The call commits both legs whole exactly when
    /// [`spec_atomic_swap`] allows it, and a failed call leaves every
    /// balance as it was.
    pub fn atomic_swap(
        &self,
        auth: &AuthContext,
        ledger: &mut TokenLedger,
        token_a: Address,
        token_b: Address,
        from_a: Address,
        from_b: Address,
        amount_a: i128,
        min_b_for_a: i128,
        amount_b: i128,
        min_a_for_b: i128,
    ) -> (r: Result<(), WalletError>)
        ensures
            match r {
                Result::Ok(()) => spec_atomic_swap(
                    self.spec_owner(),
                    *auth,
                    old(ledger)@,
                    self.spec_address(),
                    token_a,
                    token_b,
                    from_a,
                    from_b,
                    amount_a as int,
                    min_b_for_a as int,
                    amount_b as int,
                    min_a_for_b as int,
                ) == Result::<Map<(Address, Address), int>, WalletError>::Ok(final(ledger)@),
                Result::Err(e) => spec_atomic_swap(
                    self.spec_owner(),
                    *auth,
                    old(ledger)@,
                    self.spec_address(),
                    token_a,
                    token_b,
                    from_a,
                    from_b,
                    amount_a as int,
                    min_b_for_a as int,
                    amount_b as int,
                    min_a_for_b as int,
                ) == Result::<Map<(Address, Address), int>, WalletError>::Err(e) && final(ledger)@
                    == old(ledger)@,
            },
    {
        match self.require_owner(auth) {
            Result::Err(e) => {
                return Result::Err(e);
            },
            Result::Ok(()) => {},
        }
        if amount_b < min_b_for_a {
            return Result::Err(WalletError::InsufficientCounterAmount);
        }
        if amount_a < min_a_for_b {
            return Result::Err(WalletError::InsufficientCounterAmount);
        }
        let mut working = ledger.snapshot();
        match self.move_token(&mut working, token_a, from_a, from_b, amount_a, min_a_for_b) {
            Result::Err(e) => {
                return Result::Err(e);
            },
            Result::Ok(()) => {},
        }
        match self.move_token(&mut working, token_b, from_b, from_a, amount_b, min_b_for_a) {
            Result::Err(e) => {
                return Result::Err(e);
            },
            Result::Ok(()) => {},
        }
        *ledger = working;
        Result::Ok(())
    }
}

/// A successful swap settles exactly the agreed quantities: with distinct
/// parties, distinct tokens and a custody account that is neither party,
/// `from_a`'s holding of `token_a` falls by exactly `min_a_for_b` (the
/// over-provisioned excess comes back as a refund) and rises by exactly
/// `min_b_for_a` of `token_b`; symmetrically for `from_b`; and the custody
/// account's holdings of both tokens end where they began.
pub proof fn lemma_atomic_swap_net_settlement(
    owner: Option<Address>,
    auth: AuthContext,
    m: Map<(Address, Address), int>,
    m2: Map<(Address, Address), int>,
    custody: Address,
    token_a: Address,
    token_b: Address,
    from_a: Address,
    from_b: Address,
    amount_a: int,
    min_b_for_a: int,
    amount_b: int,
    min_a_for_b: int,
)
    requires
        spec_atomic_swap(
            owner,
            auth,
            m,
            custody,
            token_a,
            token_b,
            from_a,
            from_b,
            amount_a,
            min_b_for_a,
            amount_b,
            min_a_for_b,
        ) == Result::<Map<(Address, Address), int>, WalletError>::Ok(m2),
        from_a != from_b,
        custody != from_a,
        custody != from_b,
        token_a != token_b,
    ensures
        m2[(token_a, from_a)] == m[(token_a, from_a)] - min_a_for_b,
        m2[(token_a, from_b)] == m[(token_a, from_b)] + min_a_for_b,
        m2[(token_b, from_b)] == m[(token_b, from_b)] - min_b_for_a,
        m2[(token_b, from_a)] == m[(token_b, from_a)] + min_b_for_a,
        m2[(token_a, custody)] == m[(token_a, custody)],
        m2[(token_b, custody)] == m[(token_b, custody)],
{
    let leg_a = spec_move_token(m, token_a, from_a, from_b, custody, amount_a, min_a_for_b);
    assert(leg_a is Ok);
    let m1 = leg_a->Ok_0;
    assert(m1[(token_a, from_a)] == m[(token_a, from_a)] - min_a_for_b);
    assert(m1[(token_a, from_b)] == m[(token_a, from_b)] + min_a_for_b);
    assert(m1[(token_a, custody)] == m[(token_a, custody)]);
    assert(m1[(token_b, from_a)] == m[(token_b, from_a)]);
    assert(m1[(token_b, from_b)] == m[(token_b, from_b)]);
    assert(m1[(token_b, custody)] == m[(token_b, custody)]);
    let leg_b = spec_move_token(m1, token_b, from_b, from_a, custody, amount_b, min_b_for_a);
    assert(leg_b == Result::<Map<(Address, Address), int>, WalletError>::Ok(m2));
    assert(m2[(token_b, from_b)] == m1[(token_b, from_b)] - min_b_for_a);
    assert(m2[(token_b, from_a)] == m1[(token_b, from_a)] + min_b_for_a);
    assert(m2[(token_b, custody)] == m1[(token_b, custody)]);
    assert(m2[(token_a, from_a)] == m1[(token_a, from_a)]);
    assert(m2[(token_a, from_b)] == m1[(token_a, from_b)]);
    assert(m2[(token_a, custody)] == m1[(token_a, custody)]);
}

/// The minimum checks subsume the refund check: a swap either fails before
/// its legs run or settles legs whose agreed quantity never exceeds the
/// escrowed quantity, so the refund computation can never go negative and
/// `ArithmeticUnderflow` never escapes `atomic_swap`.
pub proof fn lemma_atomic_swap_never_underflows(
    owner: Option<Address>,
    auth: AuthContext,
    m: Map<(Address, Address), int>,
    custody: Address,
    token_a: Address,
    token_b: Address,
    from_a: Address,
    from_b: Address,
    amount_a: int,
    min_b_for_a: int,
    amount_b: int,
    min_a_for_b: int,
)
    ensures
        spec_atomic_swap(
            owner,
            auth,
            m,
            custody,
            token_a,
            token_b,
            from_a,
            from_b,
            amount_a,
            min_b_for_a,
            amount_b,
            min_a_for_b,
        ) != Result::<Map<(Address, Address), int>, WalletError>::Err(
            WalletError::ArithmeticUnderflow,
        ),
{
}

/// A swap whose counterparty amounts fall short of a stated minimum is
/// rejected with `InsufficientCounterAmount` before any balance moves.
pub proof fn lemma_atomic_swap_min_not_met(
    owner: Option<Address>,
    auth: AuthContext,
    m: Map<(Address, Address), int>,
    custody: Address,
    token_a: Address,
    token_b: Address,
    from_a: Address,
    from_b: Address,
    amount_a: int,
    min_b_for_a: int,
    amount_b: int,
    min_a_for_b: int,
)
    requires
        gate(owner, auth) is Ok,
        amount_b < min_b_for_a || amount_a < min_a_for_b,
    ensures
        spec_atomic_swap(
            owner,
            auth,
            m,
            custody,
            token_a,
            token_b,
            from_a,
            from_b,
            amount_a,
            min_b_for_a,
            amount_b,
            min_a_for_b,
        ) == Result::<Map<(Address, Address), int>, WalletError>::Err(
            WalletError::InsufficientCounterAmount,
        ),
{
}

} // verus!
