//! Identity of a value.
use vstd::prelude::*;
use crate::rdf::Term;

verus! {

/// How a value is identified: by a resource that already stands for it in
/// the interpretation, by a raw term, or, with no term, not at all.
#[derive(Debug, PartialEq, Eq)]
pub enum ResourceInterpretation {
    /// The value is the given resource of the interpretation.
    Interpreted(usize),
    /// The value is described by the given term, or is anonymous.
    Uninterpreted(Option<Term>),
}

impl Clone for ResourceInterpretation {
    fn clone(&self) -> (res: Self)
        ensures
            res == *self,
    {
        match self {
            ResourceInterpretation::Interpreted(resource) => ResourceInterpretation::Interpreted(
                *resource,
            ),
            ResourceInterpretation::Uninterpreted(Some(term)) => {
                ResourceInterpretation::Uninterpreted(Some(term.clone()))
            },
            ResourceInterpretation::Uninterpreted(None) => ResourceInterpretation::Uninterpreted(
                None,
            ),
        }
    }
}

impl ResourceInterpretation {
    /// Identity of a value named by an IRI.
    pub fn iri(iri: String) -> (res: ResourceInterpretation)
        ensures
            res == ResourceInterpretation::Uninterpreted(Some(Term::Id(crate::rdf::Id::Iri(iri)))),
    {
        ResourceInterpretation::Uninterpreted(Some(Term::Id(crate::rdf::Id::Iri(iri))))
    }

    /// Identity of a value with no name of its own.
    pub fn anonymous() -> (res: ResourceInterpretation)
        ensures
            res == ResourceInterpretation::Uninterpreted(None),
    {
        ResourceInterpretation::Uninterpreted(None)
    }
}

} // verus!
