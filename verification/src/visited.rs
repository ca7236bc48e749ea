//! The resources on the path from the root of a traversal to where it
//! stands.
use vstd::prelude::*;

verus! {

/// The persistent hash set of `im`, declared so that it can be passed on.
/// Nothing is known of what is inside but through [`visited_resources`].
#[verifier::external_type_specification]
#[verifier::external_body]
#[verifier::reject_recursive_types(A)]
#[verifier::reject_recursive_types(S)]
pub struct ExHashSet<A, S>(im::HashSet<A, S>);

/// The resources that a visited-path set holds.
pub uninterp spec fn visited_resources(set: im::HashSet<usize>) -> Set<usize>;

/// Makes an empty set with `im::HashSet::new`, which constructs an empty
/// set.
#[verifier::external_body]
pub(crate) fn visited_new() -> (res: im::HashSet<usize>)
    ensures
        visited_resources(res) == Set::<usize>::empty(),
{
    im::HashSet::new()
}

/// Copies a set with `im::HashSet::clone`, which shares structure with the
/// set it copies: the copy holds the same resources, and changes to one are
/// not seen in the other.
#[verifier::external_body]
pub(crate) fn visited_fork(set: &im::HashSet<usize>) -> (res: im::HashSet<usize>)
    ensures
        visited_resources(res) == visited_resources(*set),
{
    set.clone()
}

/// Adds a resource with `im::HashSet::insert`: the set then holds it beside
/// what it held, and the call returns the resource if the set already held
/// it, and nothing if it did not.
#[verifier::external_body]
pub(crate) fn visited_insert(set: &mut im::HashSet<usize>, resource: usize) -> (res: Option<usize>)
    ensures
        visited_resources(*final(set)) == visited_resources(*old(set)).insert(resource),
        res == if visited_resources(*old(set)).contains(resource) {
            Some(resource)
        } else {
            None::<usize>
        },
{
    set.insert(resource)
}

} // verus!
