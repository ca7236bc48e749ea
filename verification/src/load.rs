//! Loading lexical quads into a dataset of resources.
use vstd::prelude::*;
use crate::dataset::{repeats_only_known, Dataset, ResourceQuad};
use crate::interpretation::Interpretation;
use crate::rdf::{Id, IdView, Quad, QuadView, Term, TermView};
use crate::vocabulary::{handle_of, table_after};

verus! {

/// The interpretation after the four terms of a quad were interpreted, in
/// the order subject, predicate, object, graph; with the resources they were
/// given.
pub open spec fn interpreted(resources: Seq<Option<TermView>>, quad: QuadView) -> (
    Seq<Option<TermView>>,
    ResourceQuad,
) {
    let subject = Some(TermView::Id(quad.subject));
    let predicate = Some(TermView::Id(IdView::Iri(quad.predicate)));
    let object = Some(quad.object);
    let first = table_after(resources, subject);
    let second = table_after(first, predicate);
    let third = table_after(second, object);
    match quad.graph {
        None => (
            third,
            (
                handle_of(resources, subject) as usize,
                handle_of(first, predicate) as usize,
                handle_of(second, object) as usize,
                None,
            ),
        ),
        Some(label) => (
            table_after(third, Some(TermView::Id(label))),
            (
                handle_of(resources, subject) as usize,
                handle_of(first, predicate) as usize,
                handle_of(second, object) as usize,
                Some(handle_of(third, Some(TermView::Id(label))) as usize),
            ),
        ),
    }
}

/// Whether `after` and `res` are what inserting `quad` into `before` gives:
/// the quad is added and `res` tells whether it was new; or, where a
/// resource that `before` does not know stands at two places of the quad,
/// nothing changes and `res` is nothing.
pub open spec fn loaded(
    before: Set<ResourceQuad>,
    after: Set<ResourceQuad>,
    quad: ResourceQuad,
    res: Option<bool>,
) -> bool {
    if repeats_only_known(before, quad) {
        after == before.insert(quad) && res == Some(!before.contains(quad))
    } else {
        after == before && res.is_none()
    }
}

/// Loads a quad into a dataset: its terms are given resources in the
/// interpretation, and the quad of those resources is inserted. Returns
/// whether the quad was new, or nothing where the dataset cannot record it.
pub fn load_quad(interpretation: &mut Interpretation, dataset: &mut Dataset, quad: &Quad) -> (res:
    Option<bool>)
    ensures
        final(interpretation)@ == interpreted(old(interpretation)@, quad@).0,
        loaded(
            old(dataset)@,
            final(dataset)@,
            interpreted(old(interpretation)@, quad@).1,
            res,
        ),
{
    let subject = interpretation.interpret_term(&Term::Id(quad.subject.clone()));
    let predicate = interpretation.interpret_term(&Term::Id(Id::Iri(quad.predicate.clone())));
    let object = interpretation.interpret_term(&quad.object);
    let graph = match &quad.graph {
        Some(label) => Some(interpretation.interpret_term(&Term::Id(label.clone()))),
        None => None,
    };
    dataset.insert(subject, predicate, object, graph)
}

} // verus!
