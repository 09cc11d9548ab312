//! The wallet contract: a user-owned account that gates asset movement and
//! delegated actions behind its owner's authorization, tracks a set of
//! agents, and extends itself through an allow-listed set of plugin
//! contracts. The owner is set exactly once; every mutation afterwards
//! demands the owner's authorization, and a rejected call changes nothing.

use vstd::prelude::*;

use crate::auth::AuthContext;
use crate::auth::check_gate;
use crate::auth::gate;
use crate::ledger::TokenLedger;
use crate::ledger::spec_transfer;
use crate::members::add_member;
use crate::members::contains_member;
use crate::members::copy_members;
use crate::members::no_dup;
use crate::members::remove_member;
use crate::members::with_member;
use crate::members::without_member;
use crate::types::Address;
use crate::types::WalletError;

verus! {

/// The verdict of a one-shot initialization: it succeeds exactly once, and a
/// second attempt fails with `AlreadyInitialized`.
pub open spec fn init_gate(stored: Option<Address>) -> Result<(), WalletError> {
    match stored {
        Option::Some(_) => Result::Err(WalletError::AlreadyInitialized),
        Option::None => Result::Ok(()),
    }
}

/// Initialization is one-shot: on an unowned contract it succeeds, and once
/// an owner is stored every further attempt fails with `AlreadyInitialized`,
/// whoever is named.
pub proof fn lemma_init_gate_one_shot(first: Address)
    ensures
        init_gate(Option::None) is Ok,
        init_gate(Some(first)) == Result::<(), WalletError>::Err(WalletError::AlreadyInitialized),
{
}

/// A capability-checked dispatch request: the target plugin was found in the
/// allow-list, and the host substrate may now invoke `function` on it with
/// the opaque argument payload `args`, returning the callee's result
/// unmodified. The wallet never inspects plugin code; it only gates which
/// addresses may be invoked on its behalf.
pub struct PluginCall {
    pub plugin: Address,
    pub function: String,
    pub args: Vec<u64>,
}

/// A wallet instance's persistent state.
pub struct Wallet {
    address: Address,
    owner: Option<Address>,
    agents: Vec<Address>,
    plugins: Vec<Address>,
}

impl Wallet {
    /// The address under which this wallet instance is deployed.
    pub closed spec fn spec_address(&self) -> Address {
        self.address
    }

    /// The stored owner, absent until `initialize` runs.
    pub closed spec fn spec_owner(&self) -> Option<Address> {
        self.owner
    }

    /// The delegated agents, in insertion order.
    pub closed spec fn spec_agents(&self) -> Seq<Address> {
        self.agents@
    }

    /// The allow-listed plugins, in insertion order.
    pub closed spec fn spec_plugins(&self) -> Seq<Address> {
        self.plugins@
    }

    /// Agents and plugins are deduplicated sets; insertion order is kept but
    /// carries no meaning.
    pub open spec fn wf(&self) -> bool {
        no_dup(self.spec_agents()) && no_dup(self.spec_plugins())
    }

    /// A freshly deployed, not yet initialized wallet instance at `address`.
    pub fn new(address: Address) -> (r: Wallet)
        ensures
            r.wf(),
            r.spec_address() == address,
            r.spec_owner() is None,
            r.spec_agents() == Seq::<Address>::empty(),
            r.spec_plugins() == Seq::<Address>::empty(),
    {
        Wallet { address, owner: Option::None, agents: Vec::new(), plugins: Vec::new() }
    }

    /// One-shot initialization: store `owner` and start with no agents and
    /// no plugins. Fails with `AlreadyInitialized`, changing nothing, if an
    /// owner is already stored.
    pub fn initialize(&mut self, owner: Address) -> (r: Result<(), WalletError>)
        requires
            old(self).wf(),
        ensures
            final(self).wf(),
            r == init_gate(old(self).spec_owner()),
            r is Err ==> *final(self) == *old(self),
            r is Ok ==> final(self).spec_owner() == Some(owner) && final(self).spec_agents()
                == Seq::<Address>::empty() && final(self).spec_plugins() == Seq::<
                Address,
            >::empty() && final(self).spec_address() == old(self).spec_address(),
    {
        if self.owner.is_some() {
            return Result::Err(WalletError::AlreadyInitialized);
        }
        self.owner = Option::Some(owner);
        self.agents = Vec::new();
        self.plugins = Vec::new();
        Result::Ok(())
    }

    /// The stored owner; `NotInitialized` before `initialize` has run.
    pub fn owner(&self) -> (r: Result<Address, WalletError>)
        ensures
            match self.spec_owner() {
                Option::Some(o) => r == Result::<Address, WalletError>::Ok(o),
                Option::None => r == Result::<Address, WalletError>::Err(
                    WalletError::NotInitialized,
                ),
            },
    {
        match &self.owner {
            Option::Some(o) => Result::Ok(*o),
            Option::None => Result::Err(WalletError::NotInitialized),
        }
    }

    /// The owner's gate: passes exactly when the stored owner has authorized
    /// the current call.
    fn require_owner(&self, auth: &AuthContext) -> (r: Result<(), WalletError>)
        ensures
            r == gate(self.spec_owner(), *auth),
    {
        check_gate(&self.owner, auth)
    }

    /// Agents are tracked but are not authorization-equivalent to the owner:
    /// this gate, too, accepts only the stored owner's authorization, which
    /// matches the protocol's present behavior for the entry points that
    /// name an owner-or-agent path.
    fn require_owner_or_agent(&self, auth: &AuthContext) -> (r: Result<(), WalletError>)
        ensures
            r == gate(self.spec_owner(), *auth),
    {
        check_gate(&self.owner, auth)
    }

    /// Add a delegated agent. Idempotent: adding a present agent is a no-op,
    /// not an error. Demands the owner's authorization.
    pub fn add_agent(&mut self, auth: &AuthContext, agent: Address) -> (r: Result<
        (),
        WalletError,
    >)
        requires
            old(self).wf(),
        ensures
            final(self).wf(),
            match gate(old(self).spec_owner(), *auth) {
                Result::Err(e) => r == Result::<(), WalletError>::Err(e) && *final(self) == *old(self),
                Result::Ok(()) => {
                    &&& r is Ok
                    &&& final(self).spec_agents() == with_member(old(self).spec_agents(), agent)
                    &&& final(self).spec_plugins() == old(self).spec_plugins()
                    &&& final(self).spec_owner() == old(self).spec_owner()
                    &&& final(self).spec_address() == old(self).spec_address()
                },
            },
    {
        match self.require_owner(auth) {
            Result::Err(e) => Result::Err(e),
            Result::Ok(()) => {
                add_member(&mut self.agents, agent);
                Result::Ok(())
            },
        }
    }

    /// Remove a delegated agent. Removing an absent agent is a no-op, not an
    /// error. Demands the owner's authorization.
    pub fn remove_agent(&mut self, auth: &AuthContext, agent: Address) -> (r: Result<
        (),
        WalletError,
    >)
        requires
            old(self).wf(),
        ensures
            final(self).wf(),
            match gate(old(self).spec_owner(), *auth) {
                Result::Err(e) => r == Result::<(), WalletError>::Err(e) && *final(self) == *old(self),
                Result::Ok(()) => {
                    &&& r is Ok
                    &&& final(self).spec_agents() == without_member(old(self).spec_agents(), agent)
                    &&& final(self).spec_plugins() == old(self).spec_plugins()
                    &&& final(self).spec_owner() == old(self).spec_owner()
                    &&& final(self).spec_address() == old(self).spec_address()
                },
            },
    {
        match self.require_owner(auth) {
            Result::Err(e) => Result::Err(e),
            Result::Ok(()) => {
                let kept = remove_member(&self.agents, agent);
                self.agents = kept;
                Result::Ok(())
            },
        }
    }

    /// The agents, in insertion order; `NotInitialized` before `initialize`.
    pub fn agents(&self) -> (r: Result<Vec<Address>, WalletError>)
        ensures
            match self.spec_owner() {
                Option::Some(_) => r is Ok && r->Ok_0@ == self.spec_agents(),
                Option::None => r == Result::<Vec<Address>, WalletError>::Err(
                    WalletError::NotInitialized,
                ),
            },
    {
        if self.owner.is_none() {
            return Result::Err(WalletError::NotInitialized);
        }
        Result::Ok(copy_members(&self.agents))
    }

    /// Allow-list a plugin contract. Idempotent: adding a present plugin is
    /// a no-op, not an error. Demands the owner's authorization.
    pub fn add_plugin(&mut self, auth: &AuthContext, plugin: Address) -> (r: Result<
        (),
        WalletError,
    >)
        requires
            old(self).wf(),
        ensures
            final(self).wf(),
            match gate(old(self).spec_owner(), *auth) {
                Result::Err(e) => r == Result::<(), WalletError>::Err(e) && *final(self) == *old(self),
                Result::Ok(()) => {
                    &&& r is Ok
                    &&& final(self).spec_plugins() == with_member(old(self).spec_plugins(), plugin)
                    &&& final(self).spec_agents() == old(self).spec_agents()
                    &&& final(self).spec_owner() == old(self).spec_owner()
                    &&& final(self).spec_address() == old(self).spec_address()
                },
            },
    {
        match self.require_owner(auth) {
            Result::Err(e) => Result::Err(e),
            Result::Ok(()) => {
                add_member(&mut self.plugins, plugin);
                Result::Ok(())
            },
        }
    }

    /// Strike a plugin from the allow-list. Removing an absent plugin is a
    /// no-op, not an error. Demands the owner's authorization.
    pub fn remove_plugin(&mut self, auth: &AuthContext, plugin: Address) -> (r: Result<
        (),
        WalletError,
    >)
        requires
            old(self).wf(),
        ensures
            final(self).wf(),
            match gate(old(self).spec_owner(), *auth) {
                Result::Err(e) => r == Result::<(), WalletError>::Err(e) && *final(self) == *old(self),
                Result::Ok(()) => {
                    &&& r is Ok
                    &&& final(self).spec_plugins() == without_member(old(self).spec_plugins(), plugin)
                    &&& final(self).spec_agents() == old(self).spec_agents()
                    &&& final(self).spec_owner() == old(self).spec_owner()
                    &&& final(self).spec_address() == old(self).spec_address()
                },
            },
    {
        match self.require_owner(auth) {
            Result::Err(e) => Result::Err(e),
            Result::Ok(()) => {
                let kept = remove_member(&self.plugins, plugin);
                self.plugins = kept;
                Result::Ok(())
            },
        }
    }

    /// The allow-listed plugins, in insertion order; `NotInitialized` before
    /// `initialize`.
    pub fn plugins(&self) -> (r: Result<Vec<Address>, WalletError>)
        ensures
            match self.spec_owner() {
                Option::Some(_) => r is Ok && r->Ok_0@ == self.spec_plugins(),
                Option::None => r == Result::<Vec<Address>, WalletError>::Err(
                    WalletError::NotInitialized,
                ),
            },
    {
        if self.owner.is_none() {
            return Result::Err(WalletError::NotInitialized);
        }
        Result::Ok(copy_members(&self.plugins))
    }

    /// Move `amount` of `token` from this wallet's own holdings to `to`,
    /// through the token service. Demands the owner's authorization; a
    /// rejected or failed call leaves every balance as it was.
    pub fn transfer_token(
        &self,
        auth: &AuthContext,
        ledger: &mut TokenLedger,
        token: Address,
        to: Address,
        amount: i128,
    ) -> (r: Result<(), WalletError>)
        ensures
            match gate(self.spec_owner(), *auth) {
                Result::Err(e) => r == Result::<(), WalletError>::Err(e) && final(ledger)@ == old(ledger)@,
                Result::Ok(()) => match r {
                    Result::Ok(()) => spec_transfer(
                        old(ledger)@,
                        token,
                        self.spec_address(),
                        to,
                        amount as int,
                    ) == Result::<Map<(Address, Address), int>, WalletError>::Ok(final(ledger)@),
                    Result::Err(e) => spec_transfer(
                        old(ledger)@,
                        token,
                        self.spec_address(),
                        to,
                        amount as int,
                    ) == Result::<Map<(Address, Address), int>, WalletError>::Err(e) && final(ledger)@ == old(ledger)@,
                },
            },
    {
        match self.require_owner_or_agent(auth) {
            Result::Err(e) => Result::Err(e),
            Result::Ok(()) => ledger.transfer(token, self.address, to, amount),
        }
    }

    /// Gate a delegated call: the target must stand in the plugin
    /// allow-list, else the call fails with `PluginNotAuthorized`. On
    /// success the validated dispatch request is handed back for the host
    /// substrate to invoke; the wallet does not interpret the arguments or
    /// the callee's result. Demands the owner's authorization.
    pub fn call_plugin(
        &self,
        auth: &AuthContext,
        plugin: Address,
        function: String,
        args: Vec<u64>,
    ) -> (r: Result<PluginCall, WalletError>)
        ensures
            match gate(self.spec_owner(), *auth) {
                Result::Err(e) => r is Err && r->Err_0 == e,
                Result::Ok(()) => if self.spec_plugins().contains(plugin) {
                    r is Ok && r->Ok_0.plugin == plugin && r->Ok_0.function@ == function@
                        && r->Ok_0.args@ == args@
                } else {
                    r is Err && r->Err_0 == WalletError::PluginNotAuthorized
                },
            },
    {
        match self.require_owner_or_agent(auth) {
            Result::Err(e) => Result::Err(e),
            Result::Ok(()) => {
                if !contains_member(&self.plugins, plugin) {
                    return Result::Err(WalletError::PluginNotAuthorized);
                }
                Result::Ok(PluginCall { plugin, function, args })
            },
        }
    }
}

} // verus!
