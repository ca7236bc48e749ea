//! The objects a subject has for one predicate.
use vstd::prelude::*;
use crate::resource::ResourceInterpretation;
use crate::subject::LinkedDataSubject;

verus! {

/// One predicate of a subject with the objects it has for it, in order.
#[derive(Debug, PartialEq, Eq)]
pub struct LinkedDataPredicateObjects {
    pub predicate: ResourceInterpretation,
    pub objects: Vec<LinkedDataSubject>,
}

impl LinkedDataPredicateObjects {
    /// The given predicate with no object.
    pub fn new(predicate: ResourceInterpretation) -> (res: LinkedDataPredicateObjects)
        ensures
            res.predicate == predicate,
            res.objects@.len() == 0,
    {
        LinkedDataPredicateObjects { predicate, objects: Vec::new() }
    }
}

} // verus!
