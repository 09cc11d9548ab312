//! The authorization gate. A privileged entry point accepts only a call that
//! the stored owner (or, on the factory, the stored admin) has
//! cryptographically authorized. The host substrate handles the signatures;
//! what reaches the library is the set of principals attested for the
//! current call, and the decision over that set is the library's own.

use vstd::prelude::*;

use crate::members::contains_member;
use crate::types::Address;
use crate::types::WalletError;

verus! {

/// The principals that have authorized the current call, as attested by the
/// host substrate before the call entered the contract.
pub struct AuthContext {
    approved: Vec<Address>,
}

impl AuthContext {
    /// Whether `a` has authorized the current call.
    pub closed spec fn allows(&self, a: Address) -> bool {
        self.approved@.contains(a)
    }

    /// A call that nobody has authorized.
    pub fn new() -> (r: AuthContext)
        ensures
            forall|a: Address| !r.allows(a),
    {
        let r = AuthContext { approved: Vec::new() };
        proof {
            assert(forall|a: Address| !r.approved@.contains(a));
        }
        r
    }

    /// Record that `a` has authorized the current call.
    pub fn approve(&mut self, a: Address)
        ensures
            final(self).allows(a),
            forall|b: Address| old(self).allows(b) ==> final(self).allows(b),
            forall|b: Address| final(self).allows(b) ==> b == a || old(self).allows(b),
    {
        self.approved.push(a);
        proof {
            let s = old(self).approved@;
            assert(s.push(a)[s.len() as int] == a);
            assert forall|b: Address| final(self).allows(b) implies b == a || old(self).allows(
                b,
            ) by {
                if b != a {
                    let i = choose|i: int| 0 <= i < s.push(a).len() && s.push(a)[i] == b;
                    assert(s[i] == b);
                }
            }
            assert forall|b: Address| old(self).allows(b) implies final(self).allows(b) by {
                let i = choose|i: int| 0 <= i < s.len() && s[i] == b;
                assert(s.push(a)[i] == b);
            }
        }
    }

    /// Whether `a` has authorized the current call.
    pub fn is_allowed(&self, a: Address) -> (r: bool)
        ensures
            r == self.allows(a),
    {
        contains_member(&self.approved, a)
    }
}

/// The authorization decision: a call on an uninitialized contract fails
/// with `NotInitialized`; one the stored principal has not authorized fails
/// with `Unauthorized`; only the rest pass. The decision is read-only: a
/// failure aborts the enclosing call with no partial state change.
pub open spec fn gate(stored: Option<Address>, auth: AuthContext) -> Result<(), WalletError> {
    match stored {
        Option::None => Result::Err(WalletError::NotInitialized),
        Option::Some(p) => if auth.allows(p) {
            Result::Ok(())
        } else {
            Result::Err(WalletError::Unauthorized)
        },
    }
}

/// An initialized contract rejects, with `Unauthorized`, every call its
/// stored principal has not authorized; the mutations behind the decision
/// each promise, in turn, that a rejected call leaves their state unchanged.
pub proof fn lemma_gate_rejects_unauthorized(stored: Address, auth: AuthContext)
    requires
        !auth.allows(stored),
    ensures
        gate(Some(stored), auth) == Result::<(), WalletError>::Err(WalletError::Unauthorized),
{
}

/// Decide authorization for the stored principal `stored`.
pub fn check_gate(stored: &Option<Address>, auth: &AuthContext) -> (r: Result<(), WalletError>)
    ensures
        r == gate(*stored, *auth),
{
    match stored {
        Option::None => Result::Err(WalletError::NotInitialized),
        Option::Some(p) => {
            if auth.is_allowed(*p) {
                Result::Ok(())
            } else {
                Result::Err(WalletError::Unauthorized)
            }
        },
    }
}

} // verus!
