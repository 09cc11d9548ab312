//! The wallet factory: deploys wallet instances from a stored template,
//! initializes each with its owner, injects the factory's current global
//! plugin allow-list into it, and keeps an index from owner to the wallets
//! created for that owner. Admin-gated operations maintain the template and
//! the global plugin list; changes to that list never reach wallets already
//! deployed.

use vstd::prelude::*;

use crate::auth::AuthContext;
use crate::auth::check_gate;
use crate::auth::gate;
use crate::members::add_member;
use crate::members::copy_members;
use crate::members::no_dup;
use crate::members::remove_member;
use crate::members::with_member;
use crate::members::without_member;
use crate::types::Address;
use crate::types::WalletError;
use crate::wallet::Wallet;
use crate::wallet::init_gate;

verus! {

/// The wallets that the index `s` records for `owner`, in creation order.
pub open spec fn owned_in(s: Seq<(Address, Address)>, owner: Address) -> Seq<Address>
    decreases s.len(),
{
    if s.len() == 0 {
        Seq::empty()
    } else if s.last().0 == owner {
        owned_in(s.drop_last(), owner).push(s.last().1)
    } else {
        owned_in(s.drop_last(), owner)
    }
}

/// An owner the index never saw holds no wallets.
pub proof fn lemma_owned_in_absent(s: Seq<(Address, Address)>, owner: Address)
    requires
        forall|i: int| 0 <= i < s.len() ==> s[i].0 != owner,
    ensures
        owned_in(s, owner) == Seq::<Address>::empty(),
    decreases s.len(),
{
    if s.len() > 0 {
        assert(forall|i: int| 0 <= i < s.drop_last().len() ==> s.drop_last()[i] == s[i]);
        lemma_owned_in_absent(s.drop_last(), owner);
        assert(s[s.len() - 1].0 != owner);
    }
}

/// The factory's persistent state.
pub struct WalletFactory {
    admin: Option<Address>,
    wallet_template: Vec<u8>,
    plugins: Vec<Address>,
    wallets: Vec<(Address, Address)>,
}

/// How one successful `create_wallet` call relates the factory's state
/// before (`pre`) and after (`post`), the owner it was called for, the fresh
/// wallet's address, and the wallet instance handed back: the address
/// derives from the factory's monotonic creation count (a deterministic
/// deployment takes a distinct salt per wallet), the new wallet is
/// initialized for `owner` and carries the factory's full current plugin
/// set, the (owner, address) pair is appended to the index, and nothing
/// else changes.
pub open spec fn create_wallet_rel(
    pre: WalletFactory,
    post: WalletFactory,
    owner: Address,
    addr: Address,
    w: Wallet,
) -> bool {
    &&& addr.id == pre.spec_wallet_count()
    &&& post.spec_admin() == pre.spec_admin()
    &&& post.spec_template() == pre.spec_template()
    &&& post.spec_plugins() == pre.spec_plugins()
    &&& post.spec_wallet_index() == pre.spec_wallet_index().push((owner, addr))
    &&& w.wf()
    &&& w.spec_address() == addr
    &&& w.spec_owner() == Some(owner)
    &&& w.spec_agents() == Seq::<Address>::empty()
    &&& w.spec_plugins() == pre.spec_plugins()
}

impl WalletFactory {
    /// The stored admin, absent until `initialize` runs.
    pub closed spec fn spec_admin(&self) -> Option<Address> {
        self.admin
    }

    /// The stored wallet template reference (a content hash).
    pub closed spec fn spec_template(&self) -> Seq<u8> {
        self.wallet_template@
    }

    /// The global default plugin allow-list, in insertion order.
    pub closed spec fn spec_plugins(&self) -> Seq<Address> {
        self.plugins@
    }

    /// The owner-to-wallet index: one (owner, wallet address) pair per
    /// created wallet, in creation order.
    pub closed spec fn spec_wallet_index(&self) -> Seq<(Address, Address)> {
        self.wallets@
    }

    /// How many wallets this factory has created.
    pub open spec fn spec_wallet_count(&self) -> nat {
        self.spec_wallet_index().len()
    }

    /// The wallets created for `owner`, in creation order.
    pub open spec fn spec_wallets_of(&self, owner: Address) -> Seq<Address> {
        owned_in(self.spec_wallet_index(), owner)
    }

    /// The global plugin list is a deduplicated set.
    pub open spec fn wf(&self) -> bool {
        no_dup(self.spec_plugins())
    }

    /// A freshly deployed, not yet initialized factory.
    pub fn new() -> (r: WalletFactory)
        ensures
            r.wf(),
            r.spec_admin() is None,
            r.spec_template() == Seq::<u8>::empty(),
            r.spec_plugins() == Seq::<Address>::empty(),
            r.spec_wallet_index() == Seq::<(Address, Address)>::empty(),
    {
        WalletFactory {
            admin: Option::None,
            wallet_template: Vec::new(),
            plugins: Vec::new(),
            wallets: Vec::new(),
        }
    }

    /// One-shot initialization: store the admin and the wallet template
    /// reference, and start with no plugins and an empty index. Fails with
    /// `AlreadyInitialized`, changing nothing, if an admin is already stored.
    pub fn initialize(&mut self, admin: Address, wallet_wasm: Vec<u8>) -> (r: Result<
        (),
        WalletError,
    >)
        requires
            old(self).wf(),
        ensures
            final(self).wf(),
            r == init_gate(old(self).spec_admin()),
            r is Err ==> *final(self) == *old(self),
            r is Ok ==> final(self).spec_admin() == Some(admin) && final(self).spec_template()
                == wallet_wasm@ && final(self).spec_plugins() == Seq::<Address>::empty() && final(self).spec_wallet_index() == Seq::<(Address, Address)>::empty(),
    {
        if self.admin.is_some() {
            return Result::Err(WalletError::AlreadyInitialized);
        }
        self.admin = Option::Some(admin);
        self.wallet_template = wallet_wasm;
        self.plugins = Vec::new();
        self.wallets = Vec::new();
        Result::Ok(())
    }

    /// The stored admin; `NotInitialized` before `initialize`.
    pub fn admin(&self) -> (r: Result<Address, WalletError>)
        ensures
            match self.spec_admin() {
                Option::Some(a) => r == Result::<Address, WalletError>::Ok(a),
                Option::None => r == Result::<Address, WalletError>::Err(
                    WalletError::NotInitialized,
                ),
            },
    {
        match &self.admin {
            Option::Some(a) => Result::Ok(*a),
            Option::None => Result::Err(WalletError::NotInitialized),
        }
    }

    /// The admin's gate: passes exactly when the stored admin has authorized
    /// the current call.
    fn require_admin(&self, auth: &AuthContext) -> (r: Result<(), WalletError>)
        ensures
            r == gate(self.spec_admin(), *auth),
    {
        check_gate(&self.admin, auth)
    }

    /// Replace the stored wallet template reference. Wallets already
    /// deployed keep the code they were deployed from. Demands the admin's
    /// authorization.
    pub fn update_wallet_wasm(&mut self, auth: &AuthContext, wallet_wasm: Vec<u8>) -> (r: Result<
        (),
        WalletError,
    >)
        requires
            old(self).wf(),
        ensures
            final(self).wf(),
            match gate(old(self).spec_admin(), *auth) {
                Result::Err(e) => r == Result::<(), WalletError>::Err(e) && *final(self) == *old(self),
                Result::Ok(()) => {
                    &&& r is Ok
                    &&& final(self).spec_template() == wallet_wasm@
                    &&& final(self).spec_admin() == old(self).spec_admin()
                    &&& final(self).spec_plugins() == old(self).spec_plugins()
                    &&& final(self).spec_wallet_index() == old(self).spec_wallet_index()
                },
            },
    {
        match self.require_admin(auth) {
            Result::Err(e) => Result::Err(e),
            Result::Ok(()) => {
                self.wallet_template = wallet_wasm;
                Result::Ok(())
            },
        }
    }

    /// Add a plugin to the global default allow-list. Idempotent; already
    /// deployed wallets are unaffected. Demands the admin's authorization.
    pub fn register_plugin(&mut self, auth: &AuthContext, plugin: Address) -> (r: Result<
        (),
        WalletError,
    >)
        requires
            old(self).wf(),
        ensures
            final(self).wf(),
            match gate(old(self).spec_admin(), *auth) {
                Result::Err(e) => r == Result::<(), WalletError>::Err(e) && *final(self) == *old(self),
                Result::Ok(()) => {
                    &&& r is Ok
                    &&& final(self).spec_plugins() == with_member(old(self).spec_plugins(), plugin)
                    &&& final(self).spec_admin() == old(self).spec_admin()
                    &&& final(self).spec_template() == old(self).spec_template()
                    &&& final(self).spec_wallet_index() == old(self).spec_wallet_index()
                },
            },
    {
        match self.require_admin(auth) {
            Result::Err(e) => Result::Err(e),
            Result::Ok(()) => {
                add_member(&mut self.plugins, plugin);
                Result::Ok(())
            },
        }
    }

    /// Strike a plugin from the global default allow-list. Removing an
    /// absent plugin is a no-op; already deployed wallets are unaffected.
    /// Demands the admin's authorization.
    pub fn unregister_plugin(&mut self, auth: &AuthContext, plugin: Address) -> (r: Result<
        (),
        WalletError,
    >)
        requires
            old(self).wf(),
        ensures
            final(self).wf(),
            match gate(old(self).spec_admin(), *auth) {
                Result::Err(e) => r == Result::<(), WalletError>::Err(e) && *final(self) == *old(self),
                Result::Ok(()) => {
                    &&& r is Ok
                    &&& final(self).spec_plugins() == without_member(old(self).spec_plugins(), plugin)
                    &&& final(self).spec_admin() == old(self).spec_admin()
                    &&& final(self).spec_template() == old(self).spec_template()
                    &&& final(self).spec_wallet_index() == old(self).spec_wallet_index()
                },
            },
    {
        match self.require_admin(auth) {
            Result::Err(e) => Result::Err(e),
            Result::Ok(()) => {
                let kept = remove_member(&self.plugins, plugin);
                self.plugins = kept;
                Result::Ok(())
            },
        }
    }

    /// The global default plugin allow-list; `NotInitialized` before
    /// `initialize`.
    pub fn plugins(&self) -> (r: Result<Vec<Address>, WalletError>)
        ensures
            match self.spec_admin() {
                Option::Some(_) => r is Ok && r->Ok_0@ == self.spec_plugins(),
                Option::None => r == Result::<Vec<Address>, WalletError>::Err(
                    WalletError::NotInitialized,
                ),
            },
    {
        if self.admin.is_none() {
            return Result::Err(WalletError::NotInitialized);
        }
        Result::Ok(copy_members(&self.plugins))
    }

    /// Deploy a wallet for `owner`: mint a fresh address from the creation
    /// count, initialize the instance for `owner`, inject every plugin
    /// currently on the global allow-list, and record the address under
    /// `owner` in the index. The instance is handed back for the host
    /// substrate to install at the returned address.
    pub fn create_wallet(&mut self, owner: Address) -> (r: Result<(Address, Wallet), WalletError>)
        requires
            old(self).wf(),
        ensures
            final(self).wf(),
            old(self).spec_admin() is None ==> r == Result::<(Address, Wallet), WalletError>::Err(
                WalletError::NotInitialized,
            ) && *final(self) == *old(self),
            old(self).spec_admin() is Some ==> r is Ok && create_wallet_rel(
                *old(self),
                *final(self),
                owner,
                r->Ok_0.0,
                r->Ok_0.1,
            ),
    {
        if self.admin.is_none() {
            return Result::Err(WalletError::NotInitialized);
        }
        let addr = Address { id: self.wallets.len() as u64 };
        let mut w = Wallet::new(addr);
        let mut creation_auth = AuthContext::new();
        creation_auth.approve(owner);
        // A fresh instance is unowned and the creating owner's authorization
        // is attested, so neither the one-shot init nor the plugin injection
        // below can fail: plugin propagation is all-or-nothing by
        // construction, never partial.
        let _init = w.initialize(owner);
        let ghost plugin_list = self.plugins@;
        let n = self.plugins.len();
        let mut i: usize = 0;
        while i < n
            invariant
                n == plugin_list.len(),
                0 <= i <= n,
                self.plugins@ == plugin_list,
                no_dup(plugin_list),
                creation_auth.allows(owner),
                w.wf(),
                w.spec_owner() == Some(owner),
                w.spec_address() == addr,
                w.spec_agents() == Seq::<Address>::empty(),
                w.spec_plugins() == plugin_list.subrange(0, i as int),
            decreases n - i,
        {
            let p = self.plugins[i];
            proof {
                let pre = plugin_list.subrange(0, i as int);
                if pre.contains(p) {
                    let k = choose|k: int| 0 <= k < pre.len() && pre[k] == p;
                    assert(plugin_list[k] == plugin_list[i as int]);
                    assert(false);
                }
                assert(pre.push(p) =~= plugin_list.subrange(0, i as int + 1));
            }
            let _added = w.add_plugin(&creation_auth, p);
            i = i + 1;
        }
        proof {
            assert(plugin_list.subrange(0, n as int) =~= plugin_list);
        }
        self.wallets.push((owner, addr));
        Result::Ok((addr, w))
    }

    /// The wallets created for `owner`, in creation order: an owner with no
    /// wallets gets an empty sequence, never an error. `NotInitialized`
    /// before `initialize`.
    pub fn wallets_by_owner(&self, owner: Address) -> (r: Result<Vec<Address>, WalletError>)
        ensures
            match self.spec_admin() {
                Option::Some(_) => r is Ok && r->Ok_0@ == self.spec_wallets_of(owner),
                Option::None => r == Result::<Vec<Address>, WalletError>::Err(
                    WalletError::NotInitialized,
                ),
            },
    {
        if self.admin.is_none() {
            return Result::Err(WalletError::NotInitialized);
        }
        let mut r: Vec<Address> = Vec::new();
        let n = self.wallets.len();
        let mut i: usize = 0;
        while i < n
            invariant
                n == self.wallets@.len(),
                0 <= i <= n,
                r@ == owned_in(self.wallets@.subrange(0, i as int), owner),
            decreases n - i,
        {
            proof {
                let pre = self.wallets@.subrange(0, i as int);
                let post = self.wallets@.subrange(0, i as int + 1);
                assert(post.drop_last() =~= pre);
                assert(post.last() == self.wallets@[i as int]);
            }
            let entry = self.wallets[i];
            if entry.0 == owner {
                r.push(entry.1);
            }
            i = i + 1;
        }
        proof {
            assert(self.wallets@.subrange(0, n as int) =~= self.wallets@);
        }
        Result::Ok(r)
    }
}

/// Two `create_wallet` calls for the same owner mint two distinct wallet
/// addresses; after the second call both stand in that owner's index, and
/// each wallet carried, at its creation, the factory's full plugin set of
/// that moment.
pub proof fn lemma_create_wallet_twice_distinct(
    f0: WalletFactory,
    f1: WalletFactory,
    f2: WalletFactory,
    owner: Address,
    a1: Address,
    w1: Wallet,
    a2: Address,
    w2: Wallet,
)
    requires
        create_wallet_rel(f0, f1, owner, a1, w1),
        create_wallet_rel(f1, f2, owner, a2, w2),
    ensures
        a1 != a2,
        f2.spec_wallets_of(owner).contains(a1),
        f2.spec_wallets_of(owner).contains(a2),
        w1.spec_plugins() == f0.spec_plugins(),
        w2.spec_plugins() == f0.spec_plugins(),
{
    let s0 = f0.spec_wallet_index();
    let s1 = f1.spec_wallet_index();
    let s2 = f2.spec_wallet_index();
    assert(s1.len() == s0.len() + 1);
    assert(a1.id == s0.len() && a2.id == s1.len());
    assert(s2.drop_last() =~= s1);
    assert(s2.last() == (owner, a2));
    assert(s1.drop_last() =~= s0);
    assert(s1.last() == (owner, a1));
    let o2 = owned_in(s2, owner);
    assert(o2 == owned_in(s1, owner).push(a2));
    assert(owned_in(s1, owner) == owned_in(s0, owner).push(a1));
    let o1 = owned_in(s0, owner).push(a1);
    assert(o1[o1.len() - 1] == a1);
    assert(o1.contains(a1));
    let k = choose|k: int| 0 <= k < o1.len() && o1[k] == a1;
    assert(o2[k] == a1);
    assert(o2[o2.len() - 1] == a2);
    assert(o2.contains(a1));
    assert(o2.contains(a2));
}

} // verus!
