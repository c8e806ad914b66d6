//! Laws relating the container's operations, stated over the sequence views
//! that the operations' contracts use.

use vstd::prelude::*;
use vstd::arithmetic::power::lemma_pow0;
use vstd::arithmetic::power2::pow2;
use vstd::arithmetic::power2::lemma_pow2_unfold;
use crate::dyn_vec::grown_cap;

verus! {

/// The view after appending every value of `s`, in order, onto a container
/// whose view is `v`: each append pushes one value onto the end, as the
/// append operation's contract states.
pub open spec fn appended_all<T>(v: Seq<T>, s: Seq<T>) -> Seq<T>
    decreases s.len(),
{
    if s.len() == 0 {
        v
    } else {
        appended_all(v, s.drop_last()).push(s.last())
    }
}

/// Appending the values of `s`, in order, onto an empty container yields a
/// container whose view is exactly `s`.
pub proof fn lemma_appended_all_from_empty<T>(s: Seq<T>)
    ensures
        appended_all(Seq::<T>::empty(), s) == s,
    decreases s.len(),
{
    if s.len() == 0 {
        assert(appended_all(Seq::<T>::empty(), s) =~= s);
    } else {
        lemma_appended_all_from_empty(s.drop_last());
        assert(appended_all(Seq::<T>::empty(), s) =~= s);
    }
}

/// The results of popping a container dry, in order: each pop delivers the
/// last element and drops it from the view, as the pop operation's contract
/// states, until the view is empty and pop answers with the empty signal.
pub open spec fn popped_all<T>(s: Seq<T>) -> Seq<T>
    decreases s.len(),
{
    if s.len() == 0 {
        Seq::empty()
    } else {
        seq![s.last()] + popped_all(s.drop_last())
    }
}

/// Push/pop symmetry: popping a container whose view is `s` until it is
/// empty yields the values of `s` in exact reverse order.
pub proof fn lemma_popped_all_reverse<T>(s: Seq<T>)
    ensures
        popped_all(s) == s.reverse(),
    decreases s.len(),
{
    if s.len() == 0 {
        assert(popped_all(s) =~= s.reverse());
    } else {
        lemma_popped_all_reverse(s.drop_last());
        assert(popped_all(s) =~= s.reverse());
    }
}

/// The capacity after `k` elements have been placed, one by one, into a
/// container created empty: each append or insert doubles the capacity
/// exactly when the container is full, as their contracts state through
/// `grown_cap`.
pub open spec fn cap_after(k: nat) -> nat
    decreases k,
{
    if k == 0 {
        0
    } else {
        grown_cap((k - 1) as nat, cap_after((k - 1) as nat))
    }
}

/// Growth doubling: starting from the empty container, the capacity after
/// `k` placements is the least power of two that holds them — a power of
/// two at least `k` and below `2 k` — so the capacities observed across
/// successive forced growths are 0, 1, 2, 4, 8, and so on.
pub proof fn lemma_growth_doubling(k: nat)
    requires
        1 <= k,
    ensures
        k <= cap_after(k) < 2 * k,
        exists|n: nat| cap_after(k) == pow2(n),
    decreases k,
{
    if k == 1 {
        lemma_pow0(2);
        assert(cap_after(0) == 0);
        assert(cap_after(1) == pow2(0));
    } else {
        lemma_growth_doubling((k - 1) as nat);
        let c = cap_after((k - 1) as nat);
        let n = choose|n: nat| c == pow2(n);
        if k - 1 == c {
            lemma_pow2_unfold(n + 1);
            assert(cap_after(k) == pow2(n + 1));
        } else {
            assert(cap_after(k) == pow2(n));
        }
    }
}

/// Inserting `x` at position `i` and immediately removing at the same
/// position returns `x` and restores the contents: `insert` followed by
/// `remove` on the view is the identity, and the inserted slot holds `x`.
pub proof fn lemma_insert_remove_inverse<T>(s: Seq<T>, i: int, x: T)
    requires
        0 <= i <= s.len(),
    ensures
        s.insert(i, x)[i] == x,
        s.insert(i, x).remove(i) == s,
{
    assert(s.insert(i, x).remove(i) =~= s);
}

} // verus!
