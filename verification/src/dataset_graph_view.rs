//! Walk of a dataset from one resource, which reads back what the resource
//! says of itself as a subject and stops where a path comes back on itself.
use vstd::prelude::*;
use crate::dataset::{has_predicate, Dataset, ResourceQuad};
use crate::predicate::LinkedDataPredicateObjects;
use crate::resource::ResourceInterpretation;
use crate::subject::LinkedDataSubject;
use crate::visited::{visited_fork, visited_insert, visited_new, visited_resources};

verus! {

/// The resource that an identity names, for an identity that names one.
pub open spec fn resource_of(identity: ResourceInterpretation) -> usize {
    match identity {
        ResourceInterpretation::Interpreted(resource) => resource,
        ResourceInterpretation::Uninterpreted(_) => 0,
    }
}

/// The resources of the predicates of a subject, in order.
pub open spec fn predicate_resources(predicates: Seq<LinkedDataPredicateObjects>) -> Seq<usize> {
    predicates.map_values(|p: LinkedDataPredicateObjects| resource_of(p.predicate))
}

/// The resources of the objects of a predicate, in order.
pub open spec fn object_resources(objects: Seq<LinkedDataSubject>) -> Seq<usize> {
    objects.map_values(|o: LinkedDataSubject| resource_of(o.identity))
}

/// Whether `node` is what the walk reads of `resource` in `graph` when
/// `ancestors` are the resources on the path that led to it.
///
/// The node is identified by the resource. If the resource is one of its own
/// ancestors the node says nothing more: this is where a cycle is cut.
/// Otherwise the node has each predicate of the resource once, each with
/// every object the resource has for it once, and each object is in turn
/// what the walk reads of it with the resource added to the ancestors. The
/// ancestors are those of the path only: a resource met again on another
/// path is read in full there.
pub open spec fn walked(
    quads: Set<ResourceQuad>,
    graph: Option<usize>,
    ancestors: Set<usize>,
    resource: usize,
    node: LinkedDataSubject,
) -> bool
    decreases node,
{
    &&& node.identity == ResourceInterpretation::Interpreted(resource)
    &&& if ancestors.contains(resource) {
        node.predicates@.len() == 0
    } else {
        &&& predicate_resources(node.predicates@).no_duplicates()
        &&& forall|p: usize| #[trigger]
            predicate_resources(node.predicates@).contains(p) <==> has_predicate(
                quads,
                graph,
                resource,
                p,
            )
        &&& forall|i: int|
            0 <= i < node.predicates@.len() ==> objects_walked(
                quads,
                graph,
                ancestors.insert(resource),
                resource,
                #[trigger] node.predicates@[i],
            )
    }
}

/// Whether `property` is what the walk reads of one predicate of `subject`:
/// it is identified by a resource, and has every object that the subject has
/// for that predicate once, each read in turn with `path` as its ancestors.
pub open spec fn objects_walked(
    quads: Set<ResourceQuad>,
    graph: Option<usize>,
    path: Set<usize>,
    subject: usize,
    property: LinkedDataPredicateObjects,
) -> bool
    decreases property,
{
    &&& property.predicate == ResourceInterpretation::Interpreted(resource_of(property.predicate))
    &&& object_resources(property.objects@).no_duplicates()
    &&& forall|o: usize| #[trigger]
        object_resources(property.objects@).contains(o) <==> quads.contains(
            (subject, resource_of(property.predicate), o, graph),
        )
    &&& forall|j: int|
        0 <= j < property.objects@.len() ==> walked(
            quads,
            graph,
            path,
            resource_of(property.objects@[j].identity),
            #[trigger] property.objects@[j],
        )
}

/// The quads whose subject is not on the path: what a walk may still read.
pub open spec fn unread(quads: Set<ResourceQuad>, path: Set<usize>) -> Set<ResourceQuad> {
    quads.filter(|q: ResourceQuad| !path.contains(q.0))
}

/// A resource on the path that is the subject of some quad leaves less to
/// read than the path without it.
pub proof fn lemma_unread_shrinks(
    quads: Set<ResourceQuad>,
    path: Set<usize>,
    subject: usize,
    quad: ResourceQuad,
)
    requires
        quads.finite(),
        quads.contains(quad),
        quad.0 == subject,
        path.contains(subject),
    ensures
        unread(quads, path).len() < unread(quads, path.remove(subject)).len(),
{
    let less = unread(quads, path);
    let more = unread(quads, path.remove(subject));
    quads.lemma_len_filter(|q: ResourceQuad| !path.remove(subject).contains(q.0));
    assert(more.finite());
    assert(less.subset_of(more));
    assert(more.contains(quad));
    assert(!less.contains(quad));
    less.lemma_subset_not_in_lt(more, quad);
}

/// A sequence without duplicates that holds one value and no other is that
/// value alone.
pub proof fn lemma_only(values: Seq<usize>, value: usize)
    requires
        values.no_duplicates(),
        forall|other: usize| #[trigger] values.contains(other) <==> other == value,
    ensures
        values == seq![value],
{
    assert(values.contains(value));
    if values.len() >= 2 {
        assert(values.contains(values[0]));
        assert(values.contains(values[1]));
    }
    assert(values.contains(values[0]));
    assert(values =~= seq![value]);
}

/// Cycle cut: in a dataset where `a` leads to `b` and `b` leads back to
/// `a`, a walk from `a` reads `a` in full, then `b` in full, then `a` again
/// by its identity only, and goes no further.
pub proof fn lemma_cycle_is_cut(
    a: usize,
    b: usize,
    p: usize,
    graph: Option<usize>,
    node: LinkedDataSubject,
)
    requires
        a != b,
        walked(set![(a, p, b, graph), (b, p, a, graph)], graph, Set::empty(), a, node),
    ensures
        node.predicates@.len() == 1,
        node.predicates@[0].predicate == ResourceInterpretation::Interpreted(p),
        node.predicates@[0].objects@.len() == 1,
        node.predicates@[0].objects@[0].identity == ResourceInterpretation::Interpreted(b),
        node.predicates@[0].objects@[0].predicates@.len() == 1,
        node.predicates@[0].objects@[0].predicates@[0].objects@.len() == 1,
        node.predicates@[0].objects@[0].predicates@[0].objects@[0].identity
            == ResourceInterpretation::Interpreted(a),
        node.predicates@[0].objects@[0].predicates@[0].objects@[0].predicates@.len() == 0,
{
    let quads = set![(a, p, b, graph), (b, p, a, graph)];
    lemma_step(quads, graph, Set::empty(), a, p, b, node);
    let second = node.predicates@[0].objects@[0];
    let path = Set::<usize>::empty().insert(a);
    lemma_step(quads, graph, path, b, p, a, second);
}

/// One step of a walk from a resource that is not on the path and has one
/// quad only: its node has that one predicate with that one object, read
/// with the resource added to the path.
proof fn lemma_step(
    quads: Set<ResourceQuad>,
    graph: Option<usize>,
    ancestors: Set<usize>,
    subject: usize,
    p: usize,
    object: usize,
    node: LinkedDataSubject,
)
    requires
        walked(quads, graph, ancestors, subject, node),
        !ancestors.contains(subject),
        forall|q: ResourceQuad| #[trigger]
            quads.contains(q) && q.0 == subject ==> q == (subject, p, object, graph),
        quads.contains((subject, p, object, graph)),
    ensures
        node.predicates@.len() == 1,
        node.predicates@[0].predicate == ResourceInterpretation::Interpreted(p),
        node.predicates@[0].objects@.len() == 1,
        node.predicates@[0].objects@[0].identity == ResourceInterpretation::Interpreted(object),
        walked(quads, graph, ancestors.insert(subject), object, node.predicates@[0].objects@[0]),
{
    let predicates = predicate_resources(node.predicates@);
    assert forall|other: usize| #[trigger] predicates.contains(other) <==> other == p by {
        if has_predicate(quads, graph, subject, other) {
            let o = choose|o: usize| #[trigger] quads.contains((subject, other, o, graph));
            assert(quads.contains((subject, other, o, graph)));
        }
        if other == p {
            assert(quads.contains((subject, p, object, graph)));
            assert(has_predicate(quads, graph, subject, p));
        }
    }
    lemma_only(predicates, p);
    assert(predicates.len() == 1);
    assert(predicates[0] == resource_of(node.predicates@[0].predicate));
    let property = node.predicates@[0];
    assert(objects_walked(quads, graph, ancestors.insert(subject), subject, property));
    let objects = object_resources(property.objects@);
    assert forall|other: usize| #[trigger] objects.contains(other) <==> other == object by {
        if quads.contains((subject, p, other, graph)) {
            assert((subject, p, other, graph) == (subject, p, object, graph));
        }
    }
    lemma_only(objects, object);
    assert(objects.len() == 1);
    assert(objects[0] == resource_of(property.objects@[0].identity));
}

/// View of a dataset from one resource, restricted to one graph.
pub struct DatasetGraphView<'a> {
    pub dataset: &'a Dataset,
    pub graph: Option<usize>,
    pub resource: usize,
}

impl<'a> DatasetGraphView<'a> {
    /// Reads the resource as a subject: the walk starts with no ancestor.
    pub fn visit_subject(&self) -> (res: LinkedDataSubject)
        ensures
            walked(self.dataset@, self.graph, Set::empty(), self.resource, res),
    {
        let mut visited = visited_new();
        visited_insert(&mut visited, self.resource);
        let _ = self.dataset.len();
        assert(visited_resources(visited).remove(self.resource) == Set::<usize>::empty());
        Subject::new(self.dataset, self.graph, self.resource, &visited, true).visit_subject()
    }
}

/// One predicate of a subject being read.
struct PredicateObjects<'d, 'v> {
    dataset: &'d Dataset,
    graph: Option<usize>,
    subject: usize,
    predicate: usize,
    visited: &'v im::HashSet<usize>,
}

impl<'d, 'v> PredicateObjects<'d, 'v> {
    /// Reads every object that the subject has for the predicate.
    fn visit_objects(&self) -> (res: LinkedDataPredicateObjects)
        requires
            self.dataset@.finite(),
            visited_resources(*self.visited).contains(self.subject),
        ensures
            resource_of(res.predicate) == self.predicate,
            objects_walked(
                self.dataset@,
                self.graph,
                visited_resources(*self.visited),
                self.subject,
                res,
            ),
        decreases
                unread(self.dataset@, visited_resources(*self.visited).remove(self.subject)).len(),
                0nat,
    {
        let objects = self.dataset.objects_of(self.graph, self.subject, self.predicate);
        let mut property = LinkedDataPredicateObjects::new(
            ResourceInterpretation::Interpreted(self.predicate),
        );
        let mut j: usize = 0;
        while j < objects.len()
            invariant
                j <= objects.len(),
                self.dataset@.finite(),
                visited_resources(*self.visited).contains(self.subject),
                forall|o: usize| #[trigger]
                    objects@.contains(o) <==> self.dataset@.contains(
                        (self.subject, self.predicate, o, self.graph),
                    ),
                property.predicate == ResourceInterpretation::Interpreted(self.predicate),
                object_resources(property.objects@) == objects@.take(j as int),
                forall|k: int|
                    0 <= k < j ==> walked(
                        self.dataset@,
                        self.graph,
                        visited_resources(*self.visited),
                        resource_of(property.objects@[k].identity),
                        #[trigger] property.objects@[k],
                    ),
            decreases objects.len() - j,
        {
            let object = objects[j];
            proof {
                assert(objects@.contains(object));
                lemma_unread_shrinks(
                    self.dataset@,
                    visited_resources(*self.visited),
                    self.subject,
                    (self.subject, self.predicate, object, self.graph),
                );
            }
            let node = Object {
                dataset: self.dataset,
                graph: self.graph,
                object,
                visited: self.visited,
            }.visit_subject();
            let ghost before = property.objects@;
            property.objects.push(node);
            proof {
                assert(object_resources(property.objects@) == object_resources(before).push(
                    object,
                ));
                assert(objects@.take(j + 1) == objects@.take(j as int).push(object));
                assert forall|k: int| 0 <= k < j + 1 implies walked(
                    self.dataset@,
                    self.graph,
                    visited_resources(*self.visited),
                    resource_of(property.objects@[k].identity),
                    #[trigger] property.objects@[k],
                ) by {
                    if k < j {
                        assert(property.objects@[k] == before[k]);
                    }
                }
            }
            j += 1;
        }
        proof {
            assert(objects@.take(objects@.len() as int) == objects@);
        }
        property
    }
}

/// One object of a predicate being read.
struct Object<'d, 'v> {
    dataset: &'d Dataset,
    graph: Option<usize>,
    object: usize,
    visited: &'v im::HashSet<usize>,
}

impl<'d, 'v> Object<'d, 'v> {
    /// Reads the object as a subject. Its predicates are read only if the
    /// object is not on the path already; the path of what it leads to is a
    /// copy with the object added, so that other branches do not see it.
    fn visit_subject(&self) -> (res: LinkedDataSubject)
        requires
            self.dataset@.finite(),
        ensures
            walked(
                self.dataset@,
                self.graph,
                visited_resources(*self.visited),
                self.object,
                res,
            ),
        decreases unread(self.dataset@, visited_resources(*self.visited)).len(), 3nat,
    {
        let subject = self.object;
        let mut visited = visited_fork(self.visited);
        let visit_predicates = visited_insert(&mut visited, subject).is_none();
        proof {
            if visit_predicates {
                assert(visited_resources(visited).remove(subject) == visited_resources(
                    *self.visited,
                ));
            } else {
                assert(visited_resources(visited) == visited_resources(*self.visited));
            }
        }
        Subject::new(self.dataset, self.graph, subject, &visited, visit_predicates).visit_subject()
    }
}

/// A subject being read.
struct Subject<'d, 'v> {
    dataset: &'d Dataset,
    graph: Option<usize>,
    subject: usize,
    visited: &'v im::HashSet<usize>,
    visit_predicates: bool,
}

impl<'d, 'v> Subject<'d, 'v> {
    fn new(
        dataset: &'d Dataset,
        graph: Option<usize>,
        subject: usize,
        visited: &'v im::HashSet<usize>,
        visit_predicates: bool,
    ) -> (res: Self)
        ensures
            res.dataset == dataset,
            res.graph == graph,
            res.subject == subject,
            res.visited == visited,
            res.visit_predicates == visit_predicates,
    {
        Subject { dataset, graph, subject, visited, visit_predicates }
    }

    /// The ancestors of the subject: the path without the subject where its
    /// predicates are to be read, the whole path where they are not.
    spec fn ancestors(&self) -> Set<usize> {
        if self.visit_predicates {
            visited_resources(*self.visited).remove(self.subject)
        } else {
            visited_resources(*self.visited)
        }
    }

    /// Reads the predicates of the subject into `node`, each with its
    /// objects.
    fn visit(&self, node: &mut LinkedDataSubject)
        requires
            self.dataset@.finite(),
            self.visit_predicates,
            visited_resources(*self.visited).contains(self.subject),
            old(node).identity == ResourceInterpretation::Interpreted(self.subject),
            old(node).predicates@.len() == 0,
        ensures
            walked(self.dataset@, self.graph, self.ancestors(), self.subject, *final(node)),
        decreases
                unread(self.dataset@, visited_resources(*self.visited).remove(self.subject)).len(),
                1nat,
    {
        let predicates = self.dataset.predicates_of(self.graph, self.subject);
        let mut i: usize = 0;
        assert(predicate_resources(node.predicates@) =~= predicates@.take(0));
        while i < predicates.len()
            invariant
                i <= predicates.len(),
                self.visit_predicates,
                self.dataset@.finite(),
                visited_resources(*self.visited).contains(self.subject),
                node.identity == ResourceInterpretation::Interpreted(self.subject),
                predicate_resources(node.predicates@) == predicates@.take(i as int),
                forall|k: int|
                    0 <= k < i ==> objects_walked(
                        self.dataset@,
                        self.graph,
                        visited_resources(*self.visited),
                        self.subject,
                        #[trigger] node.predicates@[k],
                    ),
            decreases predicates.len() - i,
        {
            let property = PredicateObjects {
                dataset: self.dataset,
                graph: self.graph,
                subject: self.subject,
                predicate: predicates[i],
                visited: self.visited,
            }.visit_objects();
            let ghost before = node.predicates@;
            node.predicates.push(property);
            proof {
                assert(predicate_resources(node.predicates@) == predicate_resources(before).push(
                    predicates@[i as int],
                ));
                assert(predicates@.take(i + 1) == predicates@.take(i as int).push(
                    predicates@[i as int],
                ));
                assert forall|k: int| 0 <= k < i + 1 implies objects_walked(
                    self.dataset@,
                    self.graph,
                    visited_resources(*self.visited),
                    self.subject,
                    #[trigger] node.predicates@[k],
                ) by {
                    if k < i {
                        assert(node.predicates@[k] == before[k]);
                    }
                }
            }
            i += 1;
        }
        proof {
            assert(predicates@.take(predicates@.len() as int) == predicates@);
            assert(self.ancestors().insert(self.subject) == visited_resources(*self.visited));
        }
    }

    /// Reads the subject: its identity, and its predicates if they are to be
    /// read.
    fn visit_subject(&self) -> (res: LinkedDataSubject)
        requires
            self.dataset@.finite(),
            visited_resources(*self.visited).contains(self.subject),
        ensures
            walked(self.dataset@, self.graph, self.ancestors(), self.subject, res),
        decreases
                if self.visit_predicates {
                    unread(
                        self.dataset@,
                        visited_resources(*self.visited).remove(self.subject),
                    ).len()
                } else {
                    0
                },
                2nat,
    {
        let mut node = LinkedDataSubject::new(ResourceInterpretation::Interpreted(self.subject));
        if self.visit_predicates {
            self.visit(&mut node);
        }
        node
    }
}

} // verus!
