//! Deduplicated member lists. A wallet's agents and plugins, and the
//! factory's global plugin allow-list, are sets of principals kept in
//! insertion order: adding a present member and removing an absent one are
//! both no-ops, never errors.

use vstd::prelude::*;

use crate::types::Address;

verus! {

/// No member occurs twice.
pub open spec fn no_dup(s: Seq<Address>) -> bool {
    forall|i: int, j: int| 0 <= i < j < s.len() ==> s[i] != s[j]
}

/// What a deduplicating insert yields: the list unchanged if `a` is already
/// a member, else `a` appended at the back.
pub open spec fn with_member(s: Seq<Address>, a: Address) -> Seq<Address> {
    if s.contains(a) {
        s
    } else {
        s.push(a)
    }
}

/// The list with every occurrence of `a` removed, the order of the rest kept.
pub open spec fn without_member(s: Seq<Address>, a: Address) -> Seq<Address>
    decreases s.len(),
{
    if s.len() == 0 {
        Seq::empty()
    } else if s.last() == a {
        without_member(s.drop_last(), a)
    } else {
        without_member(s.drop_last(), a).push(s.last())
    }
}

/// Adding a member twice yields the same list as adding it once.
pub proof fn lemma_with_member_idempotent(s: Seq<Address>, a: Address)
    ensures
        with_member(with_member(s, a), a) == with_member(s, a),
{
    if !s.contains(a) {
        assert(s.push(a)[s.len() as int] == a);
        assert(s.push(a).contains(a));
    }
}

/// Removing an absent member leaves the list exactly as it was.
pub proof fn lemma_without_member_absent(s: Seq<Address>, a: Address)
    requires
        !s.contains(a),
    ensures
        without_member(s, a) == s,
    decreases s.len(),
{
    if s.len() > 0 {
        assert(forall|i: int| 0 <= i < s.drop_last().len() ==> s.drop_last()[i] == s[i]);
        assert(!s.drop_last().contains(a));
        lemma_without_member_absent(s.drop_last(), a);
        assert(s[s.len() - 1] != a);
        assert(without_member(s, a) =~= s);
    }
}

/// Everything in the list after a removal stood in the list before it.
pub proof fn lemma_without_member_subset(s: Seq<Address>, a: Address, x: Address)
    requires
        without_member(s, a).contains(x),
    ensures
        s.contains(x),
    decreases s.len(),
{
    if s.len() > 0 {
        if s.last() == a {
            lemma_without_member_subset(s.drop_last(), a, x);
            let i = choose|i: int| 0 <= i < s.drop_last().len() && s.drop_last()[i] == x;
            assert(s[i] == x);
        } else {
            let t = without_member(s.drop_last(), a);
            let i = choose|i: int| 0 <= i < t.push(s.last()).len() && t.push(s.last())[i] == x;
            if i < t.len() {
                assert(t[i] == x);
                lemma_without_member_subset(s.drop_last(), a, x);
                let j = choose|j: int| 0 <= j < s.drop_last().len() && s.drop_last()[j] == x;
                assert(s[j] == x);
            } else {
                assert(s[s.len() - 1] == x);
            }
        }
    }
}

/// Appending a fresh member keeps the list deduplicated.
pub proof fn lemma_no_dup_push(s: Seq<Address>, a: Address)
    requires
        no_dup(s),
        !s.contains(a),
    ensures
        no_dup(s.push(a)),
{
    assert forall|i: int, j: int| 0 <= i < j < s.push(a).len() implies s.push(a)[i] != s.push(a)[j]
        by {
        if j == s.len() {
            assert(s[i] == s.push(a)[i]);
        }
    }
}

/// A removal keeps the list deduplicated.
pub proof fn lemma_without_member_no_dup(s: Seq<Address>, a: Address)
    requires
        no_dup(s),
    ensures
        no_dup(without_member(s, a)),
    decreases s.len(),
{
    if s.len() > 0 {
        assert(forall|i: int| 0 <= i < s.drop_last().len() ==> s.drop_last()[i] == s[i]);
        lemma_without_member_no_dup(s.drop_last(), a);
        if s.last() != a {
            let t = without_member(s.drop_last(), a);
            if t.contains(s.last()) {
                lemma_without_member_subset(s.drop_last(), a, s.last());
                let i = choose|i: int|
                    0 <= i < s.drop_last().len() && s.drop_last()[i] == s.last();
                assert(s[i] == s[s.len() - 1]);
                assert(false);
            }
            lemma_no_dup_push(t, s.last());
        }
    }
}

/// Whether `a` stands in the list.
pub fn contains_member(v: &Vec<Address>, a: Address) -> (r: bool)
    ensures
        r == v@.contains(a),
{
    let mut i: usize = 0;
    while i < v.len()
        invariant
            0 <= i <= v@.len(),
            forall|k: int| 0 <= k < i ==> v@[k] != a,
        decreases v@.len() - i,
    {
        if v[i] == a {
            assert(v@[i as int] == a);
            return true;
        }
        i = i + 1;
    }
    false
}

/// Deduplicating insert: append `a` unless it is already a member.
pub fn add_member(v: &mut Vec<Address>, a: Address)
    ensures
        final(v)@ == with_member(old(v)@, a),
        no_dup(old(v)@) ==> no_dup(final(v)@),
{
    let present = contains_member(v, a);
    if !present {
        v.push(a);
        proof {
            if no_dup(old(v)@) {
                lemma_no_dup_push(old(v)@, a);
            }
        }
    }
}

/// Rebuild the list with every occurrence of `a` dropped, order kept.
pub fn remove_member(v: &Vec<Address>, a: Address) -> (r: Vec<Address>)
    ensures
        r@ == without_member(v@, a),
        no_dup(v@) ==> no_dup(r@),
{
    let mut r: Vec<Address> = Vec::new();
    let mut i: usize = 0;
    while i < v.len()
        invariant
            0 <= i <= v@.len(),
            r@ == without_member(v@.subrange(0, i as int), a),
        decreases v@.len() - i,
    {
        proof {
            let pre = v@.subrange(0, i as int);
            let post = v@.subrange(0, i as int + 1);
            assert(post.drop_last() =~= pre);
            assert(post.last() == v@[i as int]);
        }
        if v[i] != a {
            r.push(v[i]);
        }
        i = i + 1;
    }
    proof {
        assert(v@.subrange(0, v@.len() as int) =~= v@);
        if no_dup(v@) {
            lemma_without_member_no_dup(v@, a);
        }
    }
    r
}

/// A copy of the member list.
pub fn copy_members(v: &Vec<Address>) -> (r: Vec<Address>)
    ensures
        r@ == v@,
{
    let mut r: Vec<Address> = Vec::new();
    let mut i: usize = 0;
    while i < v.len()
        invariant
            0 <= i <= v@.len(),
            r@ == v@.subrange(0, i as int),
        decreases v@.len() - i,
    {
        r.push(v[i]);
        proof {
            assert(v@.subrange(0, i as int).push(v@[i as int]) =~= v@.subrange(0, i as int + 1));
        }
        i = i + 1;
    }
    proof {
        assert(v@.subrange(0, v@.len() as int) =~= v@);
    }
    r
}

} // verus!
