//! Laws relating `List::new`, `List::append` and `List::pop`, stated over the
//! effects that their contracts give: `Seq::push` for append and `pop_front`
//! for pop.
use vstd::prelude::*;

use crate::list::pop_front;

verus! {

/// The contents after appending each value of `vs`, in order, to contents `s`.
pub open spec fn append_all<T>(s: Seq<T>, vs: Seq<T>) -> Seq<T>
    decreases vs.len(),
{
    if vs.len() == 0 {
        s
    } else {
        append_all(s, vs.drop_last()).push(vs.last())
    }
}

/// The contents after popping `n` times from contents `s`.
pub open spec fn after_pops<T>(s: Seq<T>, n: nat) -> Seq<T>
    decreases n,
{
    if n == 0 {
        s
    } else {
        after_pops(pop_front(s).0, (n - 1) as nat)
    }
}

/// What `n` successive pops from contents `s` return, in order.
pub open spec fn popped<T>(s: Seq<T>, n: nat) -> Seq<Option<T>>
    decreases n,
{
    if n == 0 {
        Seq::empty()
    } else {
        seq![pop_front(s).1] + popped(pop_front(s).0, (n - 1) as nat)
    }
}

/// Appending values one by one is concatenation.
pub proof fn lemma_append_all_concat<T>(s: Seq<T>, vs: Seq<T>)
    ensures
        append_all(s, vs) == s + vs,
    decreases vs.len(),
{
    if vs.len() > 0 {
        lemma_append_all_concat(s, vs.drop_last());
        assert(s + vs =~= (s + vs.drop_last()).push(vs.last()));
    }
}

/// Popping every value of `s` returns them in order.
pub proof fn lemma_pop_all_in_order<T>(s: Seq<T>)
    ensures
        popped(s, s.len()) == s.map_values(|v: T| Some(v)),
    decreases s.len(),
{
    if s.len() > 0 {
        lemma_pop_all_in_order(s.drop_first());
        assert(popped(s, s.len()) =~= s.map_values(|v: T| Some(v)));
    }
}

/// A fresh list is empty and popping it returns nothing and leaves it empty.
pub proof fn lemma_fresh_list_pops_nothing<T>()
    ensures
        Seq::<T>::empty().len() == 0,
        pop_front(Seq::<T>::empty()) == (Seq::<T>::empty(), None::<T>),
{
}

/// Values appended to a fresh list come back from successive pops in the
/// order in which they were appended.
pub proof fn lemma_fifo<T>(vs: Seq<T>)
    ensures
        popped(append_all(Seq::<T>::empty(), vs), vs.len()) == vs.map_values(|v: T| Some(v)),
{
    lemma_append_all_concat(Seq::<T>::empty(), vs);
    assert(Seq::<T>::empty() + vs =~= vs);
    lemma_pop_all_in_order(vs);
}

/// Popping as many times as a list has values leaves it empty, as a fresh
/// list is.
pub proof fn lemma_drain_to_empty<T>(s: Seq<T>)
    ensures
        after_pops(s, s.len()) == Seq::<T>::empty(),
    decreases s.len(),
{
    if s.len() > 0 {
        lemma_drain_to_empty(s.drop_first());
    } else {
        assert(s =~= Seq::<T>::empty());
    }
}

/// Appending one value to a fresh list and popping once returns that value
/// and leaves the list empty.
pub proof fn lemma_single_collapse<T>(v: T)
    ensures
        pop_front(Seq::<T>::empty().push(v)) == (Seq::<T>::empty(), Some(v)),
{
    assert(Seq::<T>::empty().push(v).drop_first() =~= Seq::<T>::empty());
}

} // verus!
