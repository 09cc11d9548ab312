//! A balances model of the external token service. The protocol's only
//! demand on that service is authorization-checked, all-or-nothing movement
//! of signed 128-bit quantities between holders, so the model keeps one
//! balance per (token, holder) pair and makes each `transfer` atomic: it
//! either moves the whole quantity or fails with no change.
//!
//! The view of a ledger is a total map from (token, holder) to the held
//! quantity, zero where nothing was ever credited.

use vstd::prelude::*;

use crate::types::Address;
use crate::types::WalletError;

verus! {

/// The balance that `s` assigns to `holder` for `token`: the quantity of the
/// first entry carrying that key, and zero where no entry does.
pub open spec fn bal_in(s: Seq<(Address, Address, i128)>, token: Address, holder: Address) -> int
    decreases s.len(),
{
    if s.len() == 0 {
        0
    } else if s[0].0 == token && s[0].1 == holder {
        s[0].2 as int
    } else {
        bal_in(s.subrange(1, s.len() as int), token, holder)
    }
}

/// The ledger after an unconditional movement of `amount` from `from` to
/// `to`: the payer is debited first, then the recipient credited, so a
/// self-transfer leaves every balance as it was.
pub open spec fn moved(
    m: Map<(Address, Address), int>,
    token: Address,
    from: Address,
    to: Address,
    amount: int,
) -> Map<(Address, Address), int> {
    let debited = m.insert((token, from), m[(token, from)] - amount);
    debited.insert((token, to), debited[(token, to)] + amount)
}

/// What one call of the token service's `transfer` does to the ledger `m`:
/// a negative quantity is rejected, a payer balance short of `amount` is
/// rejected, a credit that the recipient's balance cannot hold is rejected,
/// and otherwise the movement commits whole.
pub open spec fn spec_transfer(
    m: Map<(Address, Address), int>,
    token: Address,
    from: Address,
    to: Address,
    amount: int,
) -> Result<Map<(Address, Address), int>, WalletError> {
    if amount < 0 {
        Result::Err(WalletError::InvalidAmount)
    } else if m[(token, from)] < amount {
        Result::Err(WalletError::InsufficientBalance)
    } else if from != to && m[(token, to)] + amount > i128::MAX as int {
        Result::Err(WalletError::BalanceOverflow)
    } else {
        Result::Ok(moved(m, token, from, to, amount))
    }
}

/// Per-token, per-holder balances.
pub struct TokenLedger {
    entries: Vec<(Address, Address, i128)>,
}

impl View for TokenLedger {
    type V = Map<(Address, Address), int>;

    closed spec fn view(&self) -> Map<(Address, Address), int> {
        Map::new(|k: (Address, Address)| true, |k: (Address, Address)| bal_in(self.entries@, k.0, k.1))
    }
}

proof fn lemma_view_is_bal(l: TokenLedger)
    ensures
        forall|k: (Address, Address)| #[trigger] l@.dom().contains(k),
        forall|k: (Address, Address)| #[trigger] l@[k] == bal_in(l.entries@, k.0, k.1),
{
}

/// Updating the first entry that carries a key changes that key's balance
/// and no other.
proof fn lemma_bal_update(
    s: Seq<(Address, Address, i128)>,
    i: int,
    token: Address,
    holder: Address,
    amount: i128,
)
    requires
        0 <= i < s.len(),
        s[i].0 == token && s[i].1 == holder,
        forall|k: int| 0 <= k < i ==> !(s[k].0 == token && s[k].1 == holder),
    ensures
        forall|t2: Address, h2: Address|
            bal_in(s.update(i, (token, holder, amount)), t2, h2) == if t2 == token && h2
                == holder {
                amount as int
            } else {
                bal_in(s, t2, h2)
            },
    decreases i,
{
    let s2 = s.update(i, (token, holder, amount));
    if i == 0 {
        assert forall|t2: Address, h2: Address|
            bal_in(s2, t2, h2) == if t2 == token && h2 == holder {
                amount as int
            } else {
                bal_in(s, t2, h2)
            } by {
            if !(t2 == token && h2 == holder) {
                assert(s2.subrange(1, s2.len() as int) =~= s.subrange(1, s.len() as int));
            }
        }
    } else {
        let st = s.subrange(1, s.len() as int);
        assert(st.update(i - 1, (token, holder, amount)) =~= s2.subrange(1, s2.len() as int));
        lemma_bal_update(st, i - 1, token, holder, amount);
        assert forall|t2: Address, h2: Address|
            bal_in(s2, t2, h2) == if t2 == token && h2 == holder {
                amount as int
            } else {
                bal_in(s, t2, h2)
            } by {
            assert(s2[0] == s[0]);
            if s[0].0 == t2 && s[0].1 == h2 {
            } else {
                assert(bal_in(s2, t2, h2) == bal_in(st.update(i - 1, (token, holder, amount)), t2, h2));
                assert(bal_in(s, t2, h2) == bal_in(st, t2, h2));
            }
        }
    }
}

/// Appending an entry under a key that no entry carries sets that key's
/// balance and no other.
proof fn lemma_bal_push(
    s: Seq<(Address, Address, i128)>,
    token: Address,
    holder: Address,
    amount: i128,
)
    requires
        forall|k: int| 0 <= k < s.len() ==> !(s[k].0 == token && s[k].1 == holder),
    ensures
        forall|t2: Address, h2: Address|
            bal_in(s.push((token, holder, amount)), t2, h2) == if t2 == token && h2 == holder {
                amount as int
            } else {
                bal_in(s, t2, h2)
            },
    decreases s.len(),
{
    let s2 = s.push((token, holder, amount));
    if s.len() == 0 {
        assert(s2[0] == (token, holder, amount));
        assert forall|t2: Address, h2: Address|
            bal_in(s2, t2, h2) == if t2 == token && h2 == holder {
                amount as int
            } else {
                bal_in(s, t2, h2)
            } by {
            if t2 == token && h2 == holder {
                assert(bal_in(s2, t2, h2) == amount as int);
            } else {
                let emp = s2.subrange(1, s2.len() as int);
                assert(emp =~= Seq::<(Address, Address, i128)>::empty());
                assert(bal_in(emp, t2, h2) == 0);
                assert(bal_in(s2, t2, h2) == 0);
                assert(bal_in(s, t2, h2) == 0);
            }
        }
    } else {
        let st = s.subrange(1, s.len() as int);
        assert(st.push((token, holder, amount)) =~= s2.subrange(1, s2.len() as int));
        lemma_bal_push(st, token, holder, amount);
        assert forall|t2: Address, h2: Address|
            bal_in(s2, t2, h2) == if t2 == token && h2 == holder {
                amount as int
            } else {
                bal_in(s, t2, h2)
            } by {
            assert(s2[0] == s[0]);
            if s[0].0 == t2 && s[0].1 == h2 {
            } else {
                assert(bal_in(s2, t2, h2) == bal_in(st.push((token, holder, amount)), t2, h2));
                assert(bal_in(s, t2, h2) == bal_in(st, t2, h2));
            }
        }
    }
}

impl TokenLedger {
    /// A ledger in which nobody holds anything.
    pub fn new() -> (r: TokenLedger)
        ensures
            forall|k: (Address, Address)| #[trigger] r@[k] == 0,
    {
        let r = TokenLedger { entries: Vec::new() };
        proof {
            lemma_view_is_bal(r);
        }
        r
    }

    /// The balance `holder` holds of `token`.
    pub fn balance_of(&self, token: Address, holder: Address) -> (r: i128)
        ensures
            r as int == self@[(token, holder)],
    {
        proof {
            lemma_view_is_bal(*self);
        }
        let n = self.entries.len();
        proof {
            assert(self.entries@.subrange(0, n as int) =~= self.entries@);
        }
        let mut i: usize = 0;
        while i < n
            invariant
                n == self.entries@.len(),
                0 <= i <= n,
                bal_in(self.entries@.subrange(i as int, n as int), token, holder) == bal_in(
                    self.entries@,
                    token,
                    holder,
                ),
            decreases n - i,
        {
            let e = self.entries[i];
            proof {
                let tail = self.entries@.subrange(i as int, n as int);
                assert(tail[0] == self.entries@[i as int]);
                if !(e.0 == token && e.1 == holder) {
                    assert(tail.subrange(1, tail.len() as int) =~= self.entries@.subrange(
                        i as int + 1,
                        n as int,
                    ));
                }
            }
            if e.0 == token && e.1 == holder {
                return e.2;
            }
            i = i + 1;
        }
        proof {
            assert(self.entries@.subrange(n as int, n as int) =~= Seq::<(
                Address,
                Address,
                i128,
            )>::empty());
        }
        0
    }

    /// Overwrite the balance `holder` holds of `token`.
    pub fn set_balance(&mut self, token: Address, holder: Address, amount: i128)
        ensures
            final(self)@ == old(self)@.insert((token, holder), amount as int),
    {
        let n = self.entries.len();
        let mut i: usize = 0;
        while i < n
            invariant
                n == self.entries@.len(),
                0 <= i <= n,
                self.entries@ == old(self).entries@,
                forall|k: int|
                    0 <= k < i ==> !(self.entries@[k].0 == token && self.entries@[k].1 == holder),
            decreases n - i,
        {
            let e = self.entries[i];
            if e.0 == token && e.1 == holder {
                self.entries[i] = (token, holder, amount);
                proof {
                    lemma_bal_update(old(self).entries@, i as int, token, holder, amount);
                    lemma_view_is_bal(*old(self));
                    lemma_view_is_bal(*self);
                    assert(self@ =~= old(self)@.insert((token, holder), amount as int));
                }
                return ;
            }
            i = i + 1;
        }
        self.entries.push((token, holder, amount));
        proof {
            lemma_bal_push(old(self).entries@, token, holder, amount);
            lemma_view_is_bal(*old(self));
            lemma_view_is_bal(*self);
            assert(self@ =~= old(self)@.insert((token, holder), amount as int));
        }
    }

    /// A working copy of the ledger. The enclosing call's commit-or-abort
    /// boundary is realized by mutating the copy and committing it only when
    /// the whole operation succeeds.
    pub fn snapshot(&self) -> (r: TokenLedger)
        ensures
            r@ == self@,
    {
        let mut entries: Vec<(Address, Address, i128)> = Vec::new();
        let n = self.entries.len();
        let mut i: usize = 0;
        while i < n
            invariant
                n == self.entries@.len(),
                0 <= i <= n,
                entries@ == self.entries@.subrange(0, i as int),
            decreases n - i,
        {
            entries.push(self.entries[i]);
            proof {
                assert(self.entries@.subrange(0, i as int).push(self.entries@[i as int])
                    =~= self.entries@.subrange(0, i as int + 1));
            }
            i = i + 1;
        }
        let r = TokenLedger { entries };
        proof {
            assert(r.entries@ =~= self.entries@);
            lemma_view_is_bal(r);
            lemma_view_is_bal(*self);
            assert(r@ =~= self@);
        }
        r
    }

    /// Move `amount` of `token` from `from` to `to`, atomically: the call
    /// commits whole exactly when [`spec_transfer`] allows it, and a failed
    /// call leaves every balance as it was.
    pub fn transfer(&mut self, token: Address, from: Address, to: Address, amount: i128) -> (r:
        Result<(), WalletError>)
        ensures
            match r {
                Result::Ok(()) => spec_transfer(old(self)@, token, from, to, amount as int)
                    == Result::<Map<(Address, Address), int>, WalletError>::Ok(final(self)@),
                Result::Err(e) => spec_transfer(old(self)@, token, from, to, amount as int)
                    == Result::<Map<(Address, Address), int>, WalletError>::Err(e) && final(self)@
                    == old(self)@,
            },
    {
        if amount < 0 {
            return Result::Err(WalletError::InvalidAmount);
        }
        let from_bal = self.balance_of(token, from);
        if from_bal < amount {
            return Result::Err(WalletError::InsufficientBalance);
        }
        if from != to {
            let to_bal = self.balance_of(token, to);
            if to_bal > i128::MAX - amount {
                return Result::Err(WalletError::BalanceOverflow);
            }
        }
        self.set_balance(token, from, from_bal - amount);
        let credited = self.balance_of(token, to);
        self.set_balance(token, to, credited + amount);
        proof {
            assert(self@ =~= moved(old(self)@, token, from, to, amount as int));
        }
        Result::Ok(())
    }
}

} // verus!
