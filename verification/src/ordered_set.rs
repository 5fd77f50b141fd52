//! Insertion-ordered, duplicate-free sets of diagnostics, kept in an
//! `indexmap::IndexSet`. Nothing in this file is proved: each function states
//! what the set type's own source shows of the method it calls.

use crate::diagnostic::{Diagnostic, DiagnosticView};
use indexmap::IndexSet;
use vstd::prelude::*;

verus! {

#[verifier::external_type_specification]
#[verifier::external_body]
#[verifier::reject_recursive_types(T)]
#[verifier::reject_recursive_types(S)]
pub struct ExIndexSet<T, S>(IndexSet<T, S>);

/// The items that a set of diagnostics holds, in insertion order.
pub uninterp spec fn set_items(set: IndexSet<Diagnostic>) -> Seq<DiagnosticView>;

/// `IndexSet::new`: a set that holds nothing.
#[verifier::external_body]
pub(crate) fn set_new() -> (set: IndexSet<Diagnostic>)
    ensures
        set_items(set) == Seq::<DiagnosticView>::empty(),
{
    IndexSet::new()
}

/// `IndexSet::insert`: an item equal to one already held leaves the set as it
/// was and gives `false`; any other item goes last and gives `true`. Equality
/// is the derived one of [`Diagnostic`], which compares every field that its
/// view shows.
#[verifier::external_body]
pub(crate) fn set_insert(set: &mut IndexSet<Diagnostic>, item: Diagnostic) -> (fresh: bool)
    ensures
        fresh == !set_items(*old(set)).contains(item@),
        set_items(*final(set)) == if fresh {
            set_items(*old(set)).push(item@)
        } else {
            set_items(*old(set))
        },
{
    set.insert(item)
}

/// `IndexSet::len`: the number of items held.
#[verifier::external_body]
pub(crate) fn set_len(set: &IndexSet<Diagnostic>) -> (n: usize)
    ensures
        n == set_items(*set).len(),
{
    set.len()
}

/// `IndexSet::get_index`: the item at a position in insertion order, if the
/// position is below the length.
#[verifier::external_body]
pub(crate) fn set_get(set: &IndexSet<Diagnostic>, index: usize) -> (item: Option<&Diagnostic>)
    ensures
        index < set_items(*set).len() ==> item.is_some() && item.unwrap()@ == set_items(
            *set,
        )[index as int],
        index >= set_items(*set).len() ==> item.is_none(),
{
    set.get_index(index)
}

/// `IndexSet::clone`: a set with copies of the same items in the same
/// order. The copies are made by [`Diagnostic`]'s own `clone`, which gives
/// an equal diagnostic.
#[verifier::external_body]
pub(crate) fn set_clone(set: &IndexSet<Diagnostic>) -> (copy: IndexSet<Diagnostic>)
    ensures
        set_items(copy) == set_items(*set),
{
    set.clone()
}

} // verus!
