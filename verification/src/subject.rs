//! What a value says of itself as a subject.
use vstd::prelude::*;
use crate::predicate::LinkedDataPredicateObjects;
use crate::resource::ResourceInterpretation;

verus! {

/// A value seen as a subject: its identity, and its predicates with their
/// objects, in the order it states them.
#[derive(Debug, PartialEq, Eq)]
pub struct LinkedDataSubject {
    pub identity: ResourceInterpretation,
    pub predicates: Vec<LinkedDataPredicateObjects>,
}

impl LinkedDataSubject {
    /// A subject with the given identity and no predicate.
    pub fn new(identity: ResourceInterpretation) -> (res: LinkedDataSubject)
        ensures
            res.identity == identity,
            res.predicates@.len() == 0,
    {
        LinkedDataSubject { identity, predicates: Vec::new() }
    }
}

} // verus!
