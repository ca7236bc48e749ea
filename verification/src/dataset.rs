//! Quads over resource handles, indexed for lookup by subject and predicate.
use rdf_types::dataset::PatternMatchingDataset;
use vstd::prelude::*;

verus! {

/// A quad over resource handles: subject, predicate, object and graph, the
/// graph being nothing for the default graph.
pub type ResourceQuad = (usize, usize, usize, Option<usize>);

/// The indexed dataset of `rdf_types`, declared so that it can be held in a
/// field. Nothing is known of what is inside but through [`held_quads`].
#[verifier::external_type_specification]
#[verifier::external_body]
#[verifier::reject_recursive_types(R)]
pub struct ExIndexedBTreeDataset<R>(rdf_types::dataset::IndexedBTreeDataset<R>);

/// The quads that an indexed dataset holds. What is stated of it below is
/// stated of datasets made by `dataset_new` and grown by `dataset_insert`
/// alone, as every [`Dataset`] is: none of them ever lost a quad.
pub uninterp spec fn held_quads(dataset: rdf_types::dataset::IndexedBTreeDataset<usize>) -> Set<
    ResourceQuad,
>;

/// Whether a resource stands somewhere in some quad of the set.
pub open spec fn occurs(quads: Set<ResourceQuad>, resource: usize) -> bool {
    exists|q: ResourceQuad| #[trigger]
        quads.contains(q) && (q.0 == resource || q.1 == resource || q.2 == resource || q.3
            == Some(resource))
}

/// Whether `subject` has some object for `predicate` in `graph`.
pub open spec fn has_predicate(
    quads: Set<ResourceQuad>,
    graph: Option<usize>,
    subject: usize,
    predicate: usize,
) -> bool {
    exists|o: usize| #[trigger] quads.contains((subject, predicate, o, graph))
}

/// Whether `subject` is the subject of some quad, in whatever graph.
pub open spec fn is_subject(quads: Set<ResourceQuad>, subject: usize) -> bool {
    exists|q: ResourceQuad| #[trigger] quads.contains(q) && q.0 == subject
}

/// Whether the set holds exactly `size` quads.
pub open spec fn has_size(quads: Set<ResourceQuad>, size: nat) -> bool {
    quads.finite() && quads.len() == size
}

/// Whether every resource that stands at two places of the quad already
/// occurs in the set.
pub open spec fn repeats_only_known(quads: Set<ResourceQuad>, quad: ResourceQuad) -> bool {
    &&& (quad.0 == quad.1 || quad.0 == quad.2 || quad.3 == Some(quad.0)) ==> occurs(quads, quad.0)
    &&& (quad.1 == quad.2 || quad.3 == Some(quad.1)) ==> occurs(quads, quad.1)
    &&& quad.3 == Some(quad.2) ==> occurs(quads, quad.2)
}

/// A dataset of quads over resource handles. It is only ever made empty and
/// grown by [`Dataset::insert`].
pub struct Dataset {
    inner: rdf_types::dataset::IndexedBTreeDataset<usize>,
}

impl View for Dataset {
    type V = Set<ResourceQuad>;

    closed spec fn view(&self) -> Set<ResourceQuad> {
        held_quads(self.inner)
    }
}

/// Makes an empty dataset with `IndexedBTreeDataset::new`.
#[verifier::external_body]
fn dataset_new() -> (res: Dataset)
    ensures
        held_quads(res.inner) == Set::<ResourceQuad>::empty(),
{
    Dataset { inner: rdf_types::dataset::IndexedBTreeDataset::new() }
}

/// Counts the quads with `IndexedBTreeDataset::len`, which returns the
/// number of quads in the dataset: they are finitely many.
#[verifier::external_body]
fn dataset_len(dataset: &Dataset) -> (res: usize)
    ensures
        has_size(held_quads(dataset.inner), res as nat),
{
    dataset.inner.len()
}

/// Tells with `IndexedBTreeDataset::contains_resource` whether the resource
/// appears in any quad of the dataset.
#[verifier::external_body]
fn dataset_contains_resource(dataset: &Dataset, resource: usize) -> (res: bool)
    ensures
        res == occurs(held_quads(dataset.inner), resource),
{
    dataset.inner.contains_resource(&resource)
}

/// Adds a quad with `IndexedBTreeDataset::insert`: the dataset then holds
/// it beside what it held, and the call returns whether the quad is new.
/// The insert looks every place of the quad up before it records any, so a
/// resource new to the dataset must not stand at two places of the quad: it
/// would be recorded twice and found under one record only.
#[verifier::external_body]
fn dataset_insert(dataset: &mut Dataset, quad: ResourceQuad) -> (res: bool)
    requires
        repeats_only_known(held_quads(old(dataset).inner), quad),
    ensures
        held_quads(final(dataset).inner) == held_quads(old(dataset).inner).insert(quad),
        res == !held_quads(old(dataset).inner).contains(quad),
{
    dataset.inner.insert(rdf_types::Quad(quad.0, quad.1, quad.2, quad.3))
}

/// Lists with `IndexedBTreeDataset::subjects` the subjects of the quads of
/// the dataset, whatever their graph: each subject once, in an order that
/// the dataset chooses.
#[verifier::external_body]
fn dataset_subjects(dataset: &Dataset) -> (res: Vec<usize>)
    ensures
        res@.no_duplicates(),
        forall|s: usize| #[trigger] res@.contains(s) <==> is_subject(held_quads(dataset.inner), s),
{
    dataset.inner.subjects().copied().collect()
}

/// Lists with `PatternMatchingDataset::quad_predicates_objects` the
/// predicates of the quads that have the given subject in the given graph:
/// each such predicate once, in an order that the dataset chooses.
#[verifier::external_body]
fn dataset_predicates(dataset: &Dataset, graph: Option<usize>, subject: usize) -> (res: Vec<usize>)
    ensures
        res@.no_duplicates(),
        forall|p: usize| #[trigger]
            res@.contains(p) <==> has_predicate(held_quads(dataset.inner), graph, subject, p),
{
    dataset.inner.quad_predicates_objects(graph.as_ref(), &subject).map(|(p, _)| *p).collect()
}

/// Lists with `PatternMatchingDataset::quad_objects` the objects of the
/// quads that have the given subject and predicate in the given graph: each
/// such object once, in an order that the dataset chooses.
#[verifier::external_body]
fn dataset_objects(dataset: &Dataset, graph: Option<usize>, subject: usize, predicate: usize) -> (res:
    Vec<usize>)
    ensures
        res@.no_duplicates(),
        forall|o: usize| #[trigger]
            res@.contains(o) <==> held_quads(dataset.inner).contains(
                (subject, predicate, o, graph),
            ),
{
    dataset.inner.quad_objects(graph.as_ref(), &subject, &predicate).copied().collect()
}

impl Dataset {
    /// Creates an empty dataset.
    pub fn new() -> (res: Dataset)
        ensures
            res@ == Set::<ResourceQuad>::empty(),
    {
        dataset_new()
    }

    /// Number of quads in the dataset.
    pub fn len(&self) -> (res: usize)
        ensures
            self@.finite(),
            self@.len() == res,
    {
        dataset_len(self)
    }

    /// Whether the resource stands in some quad of the dataset.
    pub fn contains_resource(&self, resource: usize) -> (res: bool)
        ensures
            res == occurs(self@, resource),
    {
        dataset_contains_resource(self, resource)
    }

    /// Inserts a quad. Returns whether the quad was new, or nothing, with
    /// the dataset unchanged, when a resource that the dataset does not know
    /// yet stands at two places of the quad, which the index cannot record.
    pub fn insert(&mut self, subject: usize, predicate: usize, object: usize, graph: Option<usize>) -> (res:
        Option<bool>)
        ensures
            repeats_only_known(old(self)@, (subject, predicate, object, graph)) ==> final(self)@
                == old(self)@.insert((subject, predicate, object, graph)) && res == Some(
                !old(self)@.contains((subject, predicate, object, graph)),
            ),
            !repeats_only_known(old(self)@, (subject, predicate, object, graph)) ==> final(self)@
                == old(self)@ && res.is_none(),
    {
        let subject_repeats = subject == predicate || subject == object || same(graph, subject);
        let predicate_repeats = predicate == object || same(graph, predicate);
        let object_repeats = same(graph, object);
        if subject_repeats && !self.contains_resource(subject) {
            return None;
        }
        if predicate_repeats && !self.contains_resource(predicate) {
            return None;
        }
        if object_repeats && !self.contains_resource(object) {
            return None;
        }
        Some(dataset_insert(self, (subject, predicate, object, graph)))
    }

    /// The subjects of the quads of the dataset, each once.
    pub fn subjects(&self) -> (res: Vec<usize>)
        ensures
            res@.no_duplicates(),
            forall|s: usize| #[trigger] res@.contains(s) <==> is_subject(self@, s),
    {
        dataset_subjects(self)
    }

    /// The predicates that `subject` has in `graph`, each once.
    pub fn predicates_of(&self, graph: Option<usize>, subject: usize) -> (res: Vec<usize>)
        ensures
            res@.no_duplicates(),
            forall|p: usize| #[trigger]
                res@.contains(p) <==> has_predicate(self@, graph, subject, p),
    {
        dataset_predicates(self, graph, subject)
    }

    /// The objects that `subject` has for `predicate` in `graph`, each once.
    pub fn objects_of(&self, graph: Option<usize>, subject: usize, predicate: usize) -> (res: Vec<
        usize,
    >)
        ensures
            res@.no_duplicates(),
            forall|o: usize| #[trigger]
                res@.contains(o) <==> self@.contains((subject, predicate, o, graph)),
    {
        dataset_objects(self, graph, subject, predicate)
    }
}

/// Whether `graph` is the graph labelled `resource`.
fn same(graph: Option<usize>, resource: usize) -> (res: bool)
    ensures
        res == (graph == Some(resource)),
{
    match graph {
        Some(label) => label == resource,
        None => false,
    }
}

} // verus!
