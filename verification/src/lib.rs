//! Bidirectional mapping between typed values and RDF quads.
//!
//! A value says what it is as a dataset of graphs, subjects, predicates and
//! objects ([`LinkedData`], [`LinkedDataGraph`], [`LinkedDataSubject`],
//! [`LinkedDataPredicateObjects`]). A visitor is shown that dataset graph by
//! graph ([`Visitor`]); the quad collector of [`quads`] is the visitor that
//! flattens it into quads, with fresh blank identifiers for anonymous
//! values. In the other direction, [`dataset_graph_view`] walks a
//! [`Dataset`] from a resource and reads back what the resource says of
//! itself, cutting every path where it comes back on itself, and [`de`]
//! reads records of a declared type ([`schema`], [`record`]) from what was
//! found. [`sparql`] turns the terms of a quad set into query variables.
use vstd::prelude::*;

pub mod context;
pub mod dataset;
pub mod dataset_graph_view;
pub mod de;
pub mod deserialize;
pub mod error;
pub mod generate;
pub mod generator;
pub mod graph;
pub mod interpretation;
pub mod load;
pub mod predicate;
pub mod quads;
pub mod rdf;
pub mod record;
pub mod resource;
pub mod roundtrip;
pub mod schema;
pub mod shape;
pub mod sparql;
pub mod subject;
pub mod visited;
pub mod vocabulary;

pub use context::{Context, ContextIris, ResourceOrIriRef};
pub use dataset::{Dataset, ResourceQuad};
pub use error::FromLinkedDataError;
pub use graph::{GraphEntry, LinkedDataDataset, LinkedDataGraph};
pub use interpretation::Interpretation;
pub use predicate::LinkedDataPredicateObjects;
pub use resource::ResourceInterpretation;
pub use sparql::SparqlVariable;
pub use subject::LinkedDataSubject;

verus! {

/// The default graph with the given content, as an entry of a dataset.
pub open spec fn default_entry(graph: LinkedDataGraph) -> GraphEntry {
    GraphEntry { name: None, graph }
}

/// The graph labelled `name` with the given content, as an entry of a
/// dataset.
pub open spec fn named_entry(name: ResourceInterpretation, graph: LinkedDataGraph) -> GraphEntry {
    GraphEntry { name: Some(name), graph }
}

/// RDF dataset visitor: it is shown the graphs of a dataset one by one, then
/// told that the dataset has ended.
pub trait Visitor: Sized {
    /// Type of the value returned once the dataset was entirely visited.
    type Ok: View;

    /// Error type.
    type Error;

    /// What this visitor would return if it were shown `entries`, in order,
    /// and then ended: the value, or the first error.
    spec fn outcome(self, entries: Seq<GraphEntry>) -> Result<<Self::Ok as View>::V, Self::Error>;

    /// Visits the default graph of the dataset. On success the visitor goes
    /// on as one that has seen the graph; on failure the whole visit fails
    /// with that error, whatever would have followed.
    fn default_graph(&mut self, value: &LinkedDataGraph) -> (res: Result<(), Self::Error>)
        ensures
            match res {
                Ok(()) => forall|rest: Seq<GraphEntry>| #[trigger]
                    final(self).outcome(rest) == old(self).outcome(
                        seq![default_entry(*value)] + rest,
                    ),
                Err(e) => forall|rest: Seq<GraphEntry>| #[trigger]
                    old(self).outcome(seq![default_entry(*value)] + rest) == Err::<
                        <Self::Ok as View>::V,
                        Self::Error,
                    >(e),
            },
    ;

    /// Visits a named graph of the dataset. On success the visitor goes on
    /// as one that has seen the graph; on failure the whole visit fails with
    /// that error, whatever would have followed.
    fn named_graph(&mut self, name: &ResourceInterpretation, value: &LinkedDataGraph) -> (res:
        Result<(), Self::Error>)
        ensures
            match res {
                Ok(()) => forall|rest: Seq<GraphEntry>| #[trigger]
                    final(self).outcome(rest) == old(self).outcome(
                        seq![named_entry(*name, *value)] + rest,
                    ),
                Err(e) => forall|rest: Seq<GraphEntry>| #[trigger]
                    old(self).outcome(seq![named_entry(*name, *value)] + rest) == Err::<
                        <Self::Ok as View>::V,
                        Self::Error,
                    >(e),
            },
    ;

    /// Ends the dataset visit.
    fn end(self) -> (res: Result<Self::Ok, Self::Error>)
        ensures
            match res {
                Ok(value) => self.outcome(Seq::empty()) == Ok::<
                    <Self::Ok as View>::V,
                    Self::Error,
                >(value@),
                Err(e) => self.outcome(Seq::empty()) == Err::<<Self::Ok as View>::V, Self::Error>(
                    e,
                ),
            },
    ;
}

/// Linked-Data type: a value that stands for an RDF dataset, which it shows
/// to a visitor graph by graph.
pub trait LinkedData {
    /// The graphs of the dataset this value stands for, in the order it
    /// shows them.
    spec fn dataset(&self) -> Seq<GraphEntry>;

    /// Visits the dataset this value stands for: the visitor is shown every
    /// graph in order, then ended, and the first failure ends the visit.
    fn visit<S: Visitor>(&self, visitor: S) -> (res: Result<S::Ok, S::Error>)
        ensures
            match res {
                Ok(value) => visitor.outcome(self.dataset()) == Ok::<<S::Ok as View>::V, S::Error>(
                    value@,
                ),
                Err(e) => visitor.outcome(self.dataset()) == Err::<<S::Ok as View>::V, S::Error>(
                    e,
                ),
            },
    ;
}

/// A reference to a Linked-Data value stands for what the value stands for.
impl<'a, T: LinkedData> LinkedData for &'a T {
    open spec fn dataset(&self) -> Seq<GraphEntry> {
        (**self).dataset()
    }

    fn visit<S: Visitor>(&self, visitor: S) -> (res: Result<S::Ok, S::Error>) {
        T::visit(self, visitor)
    }
}

/// A boxed Linked-Data value stands for what the value stands for.
impl<T: LinkedData> LinkedData for Box<T> {
    open spec fn dataset(&self) -> Seq<GraphEntry> {
        (**self).dataset()
    }

    fn visit<S: Visitor>(&self, visitor: S) -> (res: Result<S::Ok, S::Error>) {
        T::visit(self, visitor)
    }
}

/// An identifier alone stands for the empty dataset.
impl LinkedData for rdf::Id {
    open spec fn dataset(&self) -> Seq<GraphEntry> {
        Seq::empty()
    }

    fn visit<S: Visitor>(&self, visitor: S) -> (res: Result<S::Ok, S::Error>) {
        visitor.end()
    }
}

/// A graph alone stands for the dataset of which it is the default graph.
impl LinkedData for LinkedDataGraph {
    open spec fn dataset(&self) -> Seq<GraphEntry> {
        seq![default_entry(*self)]
    }

    fn visit<S: Visitor>(&self, visitor: S) -> (res: Result<S::Ok, S::Error>) {
        let mut visitor = visitor;
        proof {
            assert(self.dataset() + Seq::<GraphEntry>::empty() == self.dataset());
        }
        match visitor.default_graph(self) {
            Ok(()) => visitor.end(),
            Err(e) => Err(e),
        }
    }
}

/// A dataset given graph by graph stands for those graphs, in order.
impl LinkedData for LinkedDataDataset {
    open spec fn dataset(&self) -> Seq<GraphEntry> {
        self.graphs@
    }

    #[verifier::loop_isolation(false)]
    fn visit<S: Visitor>(&self, visitor: S) -> (res: Result<S::Ok, S::Error>) {
        let mut visitor = visitor;
        let ghost start = visitor;
        let mut i: usize = 0;
        assert forall|rest: Seq<GraphEntry>| #[trigger]
            visitor.outcome(rest) == start.outcome(self.graphs@.take(0) + rest) by {
            assert(self.graphs@.take(0) + rest == rest);
        }
        while i < self.graphs.len()
            invariant
                i <= self.graphs.len(),
                forall|rest: Seq<GraphEntry>| #[trigger]
                    visitor.outcome(rest) == start.outcome(self.graphs@.take(i as int) + rest),
            decreases self.graphs.len() - i,
        {
            let entry = &self.graphs[i];
            let ghost before = visitor;
            assert(entry.name is None ==> default_entry(entry.graph) == *entry);
            assert(entry.name is Some ==> named_entry(entry.name.unwrap(), entry.graph) == *entry);
            let shown = match &entry.name {
                None => visitor.default_graph(&entry.graph),
                Some(name) => visitor.named_graph(name, &entry.graph),
            };
            proof {
                assert forall|rest: Seq<GraphEntry>|
                    self.graphs@.take(i as int) + (seq![*entry] + rest) == self.graphs@.take(
                        i + 1,
                    ) + rest by {
                    assert(self.graphs@.take(i as int) + (seq![*entry] + rest) =~= self.graphs@.take(
                        i + 1,
                    ) + rest);
                }
            }
            match shown {
                Ok(()) => {
                    assert forall|rest: Seq<GraphEntry>| #[trigger]
                        visitor.outcome(rest) == start.outcome(
                            self.graphs@.take(i + 1) + rest,
                        ) by {
                        assert(visitor.outcome(rest) == before.outcome(seq![*entry] + rest));
                    }
                },
                Err(e) => {
                    proof {
                        let rest = self.graphs@.skip(i + 1);
                        assert(self.graphs@.take(i + 1) + rest =~= self.graphs@);
                        assert(before.outcome(seq![*entry] + rest) == start.outcome(
                            self.graphs@.take(i as int) + (seq![*entry] + rest),
                        ));
                    }
                    return Err(e);
                },
            }
            i += 1;
        }
        proof {
            assert(self.graphs@.take(self.graphs@.len() as int) + Seq::<GraphEntry>::empty()
                =~= self.graphs@);
        }
        visitor.end()
    }
}

/// Type whose values can be read from a whole dataset.
pub trait LinkedDataDeserialize: Sized {
    /// Whether `res` is what reading a value of this type from the quads
    /// gives, the resources standing for the given terms.
    spec fn deserializes(
        terms: Seq<Option<rdf::Term>>,
        quads: Set<ResourceQuad>,
        res: Result<Self, FromLinkedDataError>,
    ) -> bool;

    /// Reads a value from the dataset, in the given context.
    fn deserialize_dataset_in(
        interpretation: &Interpretation,
        dataset: &Dataset,
        context: Context<'_>,
    ) -> (res: Result<Self, FromLinkedDataError>)
        ensures
            Self::deserializes(interpretation.resources@, dataset@, res),
    ;

    /// Reads a value from the dataset, in the context of a subject.
    fn deserialize_dataset(interpretation: &Interpretation, dataset: &Dataset) -> (res: Result<
        Self,
        FromLinkedDataError,
    >)
        ensures
            Self::deserializes(interpretation.resources@, dataset@, res),
    {
        Self::deserialize_dataset_in(interpretation, dataset, Context::default())
    }
}

/// Whether `subject` has some predicate in the default graph.
pub open spec fn in_default_graph(quads: Set<ResourceQuad>, subject: usize) -> bool {
    exists|p: usize| #[trigger] dataset::has_predicate(quads, None, subject, p)
}

/// A graph is read from the default graph of a dataset: it has each subject
/// of the default graph once, read in full by a walk that starts at it.
impl LinkedDataDeserialize for LinkedDataGraph {
    open spec fn deserializes(
        terms: Seq<Option<rdf::Term>>,
        quads: Set<ResourceQuad>,
        res: Result<Self, FromLinkedDataError>,
    ) -> bool {
        &&& res matches Ok(graph)
        &&& dataset_graph_view::object_resources(graph.subjects@).no_duplicates()
        &&& forall|s: usize| #[trigger]
            dataset_graph_view::object_resources(graph.subjects@).contains(s) <==> in_default_graph(
                quads,
                s,
            )
        &&& forall|i: int|
            0 <= i < graph.subjects@.len() ==> dataset_graph_view::walked(
                quads,
                None,
                Set::empty(),
                dataset_graph_view::resource_of(graph.subjects@[i].identity),
                #[trigger] graph.subjects@[i],
            )
    }

    fn deserialize_dataset_in(
        interpretation: &Interpretation,
        dataset: &Dataset,
        context: Context<'_>,
    ) -> (res: Result<Self, FromLinkedDataError>) {
        let subjects = dataset.subjects();
        let mut graph = LinkedDataGraph::new();
        let ghost read: Seq<usize> = Seq::empty();
        let mut i: usize = 0;
        assert(dataset_graph_view::object_resources(graph.subjects@) =~= read);
        while i < subjects.len()
            invariant
                i <= subjects.len(),
                subjects@.no_duplicates(),
                read == dataset_graph_view::object_resources(graph.subjects@),
                read.no_duplicates(),
                forall|s: usize| #[trigger]
                    read.contains(s) <==> subjects@.take(i as int).contains(s) && in_default_graph(
                        dataset@,
                        s,
                    ),
                forall|k: int|
                    0 <= k < graph.subjects@.len() ==> dataset_graph_view::walked(
                        dataset@,
                        None,
                        Set::empty(),
                        dataset_graph_view::resource_of(graph.subjects@[k].identity),
                        #[trigger] graph.subjects@[k],
                    ),
            decreases subjects.len() - i,
        {
            let subject = subjects[i];
            let predicates = dataset.predicates_of(None, subject);
            let ghost taken = subjects@.take(i as int);
            let ghost before_read = read;
            proof {
                assert(subjects@.take(i + 1) == taken.push(subject));
                assert(!taken.contains(subject)) by {
                    if taken.contains(subject) {
                        let k = choose|k: int| 0 <= k < taken.len() && taken[k] == subject;
                        assert(subjects@[k] == subjects@[i as int]);
                    }
                }
                assert forall|s: usize| #[trigger]
                    taken.push(subject).contains(s) <==> taken.contains(s) || s == subject by {
                    if taken.contains(s) {
                        let k = choose|k: int| 0 <= k < taken.len() && taken[k] == s;
                        assert(taken.push(subject)[k] == s);
                    }
                    if s == subject {
                        assert(taken.push(subject)[taken.len() as int] == s);
                    }
                }
                if predicates@.len() > 0 {
                    assert(predicates@.contains(predicates@[0]));
                    assert(in_default_graph(dataset@, subject));
                } else {
                    if in_default_graph(dataset@, subject) {
                        let p = choose|p: usize| #[trigger]
                            dataset::has_predicate(dataset@, None, subject, p);
                        assert(predicates@.contains(p));
                    }
                }
            }
            if predicates.len() > 0 {
                let node = dataset_graph_view::DatasetGraphView {
                    dataset,
                    graph: None,
                    resource: subject,
                }.visit_subject();
                let ghost before = graph.subjects@;
                graph.subjects.push(node);
                proof {
                    read = before_read.push(subject);
                    assert(dataset_graph_view::object_resources(graph.subjects@) =~= read);
                    assert(!before_read.contains(subject));
                    assert forall|a: int, b: int|
                        0 <= a < read.len() && 0 <= b < read.len() && a != b implies read[a]
                        != read[b] by {
                        if a < before_read.len() && b < before_read.len() {
                            assert(before_read[a] != before_read[b]);
                        } else if a < before_read.len() {
                            assert(before_read.contains(before_read[a]));
                        } else if b < before_read.len() {
                            assert(before_read.contains(before_read[b]));
                        }
                    }
                    assert forall|s: usize| #[trigger]
                        read.contains(s) <==> before_read.contains(s) || s == subject by {
                        if before_read.contains(s) {
                            let k = choose|k: int| 0 <= k < before_read.len() && before_read[k] == s;
                            assert(read[k] == s);
                        }
                        if s == subject {
                            assert(read[before_read.len() as int] == s);
                        }
                    }
                    assert forall|k: int|
                        0 <= k < graph.subjects@.len() implies dataset_graph_view::walked(
                        dataset@,
                        None,
                        Set::empty(),
                        dataset_graph_view::resource_of(graph.subjects@[k].identity),
                        #[trigger] graph.subjects@[k],
                    ) by {
                        if k < before.len() {
                            assert(graph.subjects@[k] == before[k]);
                        }
                    }
                }
            }
            i += 1;
        }
        proof {
            assert(subjects@.take(subjects@.len() as int) == subjects@);
            assert forall|s: usize| #[trigger] read.contains(s) <==> in_default_graph(
                dataset@,
                s,
            ) by {
                if in_default_graph(dataset@, s) {
                    let p = choose|p: usize| #[trigger]
                        dataset::has_predicate(dataset@, None, s, p);
                    let o = choose|o: usize| #[trigger] dataset@.contains((s, p, o, None::<usize>));
                    assert(dataset::is_subject(dataset@, s));
                }
            }
        }
        Ok(graph)
    }
}

} // verus!
