//! Collection of the quads of a dataset, with fresh blank identifiers for
//! its anonymous subjects.
use vstd::prelude::*;
use crate::generator::{blank_label, Blank};
use crate::graph::{GraphEntry, LinkedDataGraph};
use crate::interpretation::Interpretation;
use crate::predicate::LinkedDataPredicateObjects;
use crate::rdf::{graph_view, quads_view, Id, IdView, Literal, Quad, QuadView, Term, TermView};
use crate::resource::ResourceInterpretation;
use crate::subject::LinkedDataSubject;
use crate::{default_entry, named_entry, LinkedData, Visitor};

verus! {

/// Why a dataset could not be turned into quads.
#[derive(Debug, PartialEq, Eq)]
pub enum IntoQuadsError {
    /// A graph is labelled with the given literal.
    Graph(Literal),
    /// The given literal stands where a subject is needed.
    Subject(Literal),
    /// A predicate is no IRI: it is the given term, or anonymous.
    Predicate(Option<Term>),
    /// The given resource stands for no term in the interpretation.
    MissingLexicalRepresentation(usize),
    /// The generator has no blank identifier left.
    Generator,
}

impl IntoQuadsError {
    /// Message of the error.
    pub fn message(&self) -> (res: String)
        ensures
            res@ == (match *self {
                IntoQuadsError::Graph(_) => "invalid graph label"@,
                IntoQuadsError::Subject(_) => "invalid subject"@,
                IntoQuadsError::Predicate(_) => "invalid predicate"@,
                IntoQuadsError::MissingLexicalRepresentation(_) => "missing lexical representation"@,
                IntoQuadsError::Generator => "no blank identifier left"@,
            }),
    {
        match self {
            IntoQuadsError::Graph(_) => String::from_str("invalid graph label"),
            IntoQuadsError::Subject(_) => String::from_str("invalid subject"),
            IntoQuadsError::Predicate(_) => String::from_str("invalid predicate"),
            IntoQuadsError::MissingLexicalRepresentation(_) => String::from_str(
                "missing lexical representation",
            ),
            IntoQuadsError::Generator => String::from_str("no blank identifier left"),
        }
    }
}

/// What stays the same during one collection: the terms that the resources
/// of the interpretation stand for, and the prefix of the generator.
pub struct Scope {
    pub terms: Seq<Option<Term>>,
    pub prefix: Seq<char>,
}

/// A resolved identity: the term, and the literal itself where the term is
/// one that was given.
pub struct Resolved {
    pub term: TermView,
    pub literal: Option<Literal>,
}

/// The resolved identity that a term stands for.
pub open spec fn resolved_of(term: Term) -> Resolved {
    Resolved {
        term: term@,
        literal: match term {
            Term::Id(_) => None,
            Term::Literal(literal) => Some(literal),
        },
    }
}

impl Resolved {
    /// This identity as a subject: a literal cannot be one.
    pub open spec fn as_subject(self) -> Result<IdView, IntoQuadsError> {
        match self.term {
            TermView::Id(id) => Ok(id),
            TermView::Literal(_) => Err(IntoQuadsError::Subject(self.literal.unwrap())),
        }
    }

    /// This identity as a graph label: a literal cannot be one.
    pub open spec fn as_graph(self) -> Result<IdView, IntoQuadsError> {
        match self.term {
            TermView::Id(id) => Ok(id),
            TermView::Literal(_) => Err(IntoQuadsError::Graph(self.literal.unwrap())),
        }
    }
}

/// The term that a resource stands for, if it is allocated and not
/// anonymous.
pub open spec fn term_of(terms: Seq<Option<Term>>, resource: usize) -> Option<Term> {
    if resource < terms.len() {
        terms[resource as int]
    } else {
        None
    }
}

/// Resolves an identity when `count` blank identifiers were generated: a
/// resource gives the term it stands for, a raw term gives itself, and an
/// anonymous value takes the next blank identifier.
pub open spec fn resolve(scope: Scope, identity: ResourceInterpretation, count: nat) -> Result<
    (Resolved, nat),
    IntoQuadsError,
> {
    match identity {
        ResourceInterpretation::Interpreted(resource) => match term_of(scope.terms, resource) {
            Some(term) => Ok((resolved_of(term), count)),
            None => Err(IntoQuadsError::MissingLexicalRepresentation(resource)),
        },
        ResourceInterpretation::Uninterpreted(Some(term)) => Ok((resolved_of(term), count)),
        ResourceInterpretation::Uninterpreted(None) => if count < usize::MAX {
            Ok(
                (
                    Resolved {
                        term: TermView::Id(IdView::Blank(blank_label(scope.prefix, count))),
                        literal: None,
                    },
                    count + 1,
                ),
            )
        } else {
            Err(IntoQuadsError::Generator)
        },
    }
}

/// The IRI of a predicate given as a term, which must be an IRI.
pub open spec fn iri_of_term(term: Term) -> Result<Seq<char>, IntoQuadsError> {
    match term {
        Term::Id(Id::Iri(iri)) => Ok(iri@),
        _ => Err(IntoQuadsError::Predicate(Some(term))),
    }
}

/// Resolves the identity of a predicate to its IRI. An anonymous predicate
/// gets no blank identifier: it is an error.
pub open spec fn predicate_iri(scope: Scope, identity: ResourceInterpretation) -> Result<
    Seq<char>,
    IntoQuadsError,
> {
    match identity {
        ResourceInterpretation::Interpreted(resource) => match term_of(scope.terms, resource) {
            Some(term) => iri_of_term(term),
            None => Err(IntoQuadsError::MissingLexicalRepresentation(resource)),
        },
        ResourceInterpretation::Uninterpreted(Some(term)) => iri_of_term(term),
        ResourceInterpretation::Uninterpreted(None) => Err(IntoQuadsError::Predicate(None)),
    }
}

/// Quads of the first `upto` predicates of `subject`, whose identity was
/// resolved to `owner`, in `graph`, when `count` blank identifiers were
/// generated; with the count after them. For each predicate, the owner must
/// be fit for a subject and the predicate must be an IRI; its objects follow.
pub open spec fn predicates_quads(
    scope: Scope,
    graph: Option<IdView>,
    owner: Resolved,
    subject: LinkedDataSubject,
    upto: nat,
    count: nat,
) -> Result<(Seq<QuadView>, nat), IntoQuadsError>
    decreases subject, upto, 0nat,
{
    if upto == 0 || upto > subject.predicates@.len() {
        Ok((Seq::empty(), count))
    } else {
        match predicates_quads(scope, graph, owner, subject, (upto - 1) as nat, count) {
            Err(e) => Err(e),
            Ok((quads, count)) => {
                let predicate = subject.predicates@[upto - 1];
                match owner.as_subject() {
                    Err(e) => Err(e),
                    Ok(id) => match predicate_iri(scope, predicate.predicate) {
                        Err(e) => Err(e),
                        Ok(iri) => match objects_quads(
                            scope,
                            graph,
                            id,
                            iri,
                            predicate,
                            predicate.objects@.len(),
                            count,
                        ) {
                            Err(e) => Err(e),
                            Ok((more, count)) => Ok((quads + more, count)),
                        },
                    },
                }
            },
        }
    }
}

/// Quads of the first `upto` objects of `predicate`, of IRI `iri`, for the
/// subject `id`. Each object gives the quad that links it to the subject,
/// then the quads of its own predicates, of which it is the subject.
pub open spec fn objects_quads(
    scope: Scope,
    graph: Option<IdView>,
    id: IdView,
    iri: Seq<char>,
    predicate: LinkedDataPredicateObjects,
    upto: nat,
    count: nat,
) -> Result<(Seq<QuadView>, nat), IntoQuadsError>
    decreases predicate, upto, 0nat,
{
    if upto == 0 || upto > predicate.objects@.len() {
        Ok((Seq::empty(), count))
    } else {
        match objects_quads(scope, graph, id, iri, predicate, (upto - 1) as nat, count) {
            Err(e) => Err(e),
            Ok((quads, count)) => {
                let object = predicate.objects@[upto - 1];
                match resolve(scope, object.identity, count) {
                    Err(e) => Err(e),
                    Ok((resolved, count)) => {
                        let link = QuadView {
                            subject: id,
                            predicate: iri,
                            object: resolved.term,
                            graph,
                        };
                        match predicates_quads(
                            scope,
                            graph,
                            resolved,
                            object,
                            object.predicates@.len(),
                            count,
                        ) {
                            Err(e) => Err(e),
                            Ok((nested, count)) => Ok((quads.push(link) + nested, count)),
                        }
                    },
                }
            },
        }
    }
}

/// Quads of one subject of a graph: its identity is resolved, and must be
/// fit for a subject even if it has no predicate; its predicates follow.
pub open spec fn subject_quads(
    scope: Scope,
    graph: Option<IdView>,
    subject: LinkedDataSubject,
    count: nat,
) -> Result<(Seq<QuadView>, nat), IntoQuadsError> {
    match resolve(scope, subject.identity, count) {
        Err(e) => Err(e),
        Ok((resolved, count)) => match resolved.as_subject() {
            Err(e) => Err(e),
            Ok(_) => predicates_quads(
                scope,
                graph,
                resolved,
                subject,
                subject.predicates@.len(),
                count,
            ),
        },
    }
}

/// Quads of the first `upto` subjects of a graph.
pub open spec fn subjects_quads(
    scope: Scope,
    graph: Option<IdView>,
    subjects: Seq<LinkedDataSubject>,
    upto: nat,
    count: nat,
) -> Result<(Seq<QuadView>, nat), IntoQuadsError>
    decreases upto,
{
    if upto == 0 || upto > subjects.len() {
        Ok((Seq::empty(), count))
    } else {
        match subjects_quads(scope, graph, subjects, (upto - 1) as nat, count) {
            Err(e) => Err(e),
            Ok((quads, count)) => match subject_quads(scope, graph, subjects[upto - 1], count) {
                Err(e) => Err(e),
                Ok((more, count)) => Ok((quads + more, count)),
            },
        }
    }
}

/// Quads of one graph of a dataset: its label, if it has one, is resolved
/// and must be an identifier; its subjects follow.
pub open spec fn entry_quads(scope: Scope, entry: GraphEntry, count: nat) -> Result<
    (Seq<QuadView>, nat),
    IntoQuadsError,
> {
    match entry.name {
        None => subjects_quads(
            scope,
            None,
            entry.graph.subjects@,
            entry.graph.subjects@.len(),
            count,
        ),
        Some(name) => match resolve(scope, name, count) {
            Err(e) => Err(e),
            Ok((resolved, count)) => match resolved.as_graph() {
                Err(e) => Err(e),
                Ok(label) => subjects_quads(
                    scope,
                    Some(label),
                    entry.graph.subjects@,
                    entry.graph.subjects@.len(),
                    count,
                ),
            },
        },
    }
}

/// Quads of a dataset: those of its graphs, in order.
pub open spec fn dataset_quads(scope: Scope, entries: Seq<GraphEntry>, count: nat) -> Result<
    (Seq<QuadView>, nat),
    IntoQuadsError,
>
    decreases entries.len(),
{
    if entries.len() == 0 {
        Ok((Seq::empty(), count))
    } else {
        match entry_quads(scope, entries[0], count) {
            Err(e) => Err(e),
            Ok((quads, count)) => match dataset_quads(scope, entries.skip(1), count) {
                Err(e) => Err(e),
                Ok((more, count)) => Ok((quads + more, count)),
            },
        }
    }
}

/// Once the predicates of a subject fail, they fail the same way however
/// many more are taken.
pub proof fn lemma_predicates_fail(
    scope: Scope,
    graph: Option<IdView>,
    owner: Resolved,
    subject: LinkedDataSubject,
    failed: nat,
    upto: nat,
    count: nat,
)
    requires
        predicates_quads(scope, graph, owner, subject, failed, count) is Err,
        failed <= upto <= subject.predicates@.len(),
    ensures
        predicates_quads(scope, graph, owner, subject, upto, count) == predicates_quads(
            scope,
            graph,
            owner,
            subject,
            failed,
            count,
        ),
    decreases upto,
{
    if upto > failed {
        lemma_predicates_fail(scope, graph, owner, subject, failed, (upto - 1) as nat, count);
    }
}

/// Once the objects of a predicate fail, they fail the same way however many
/// more are taken.
pub proof fn lemma_objects_fail(
    scope: Scope,
    graph: Option<IdView>,
    id: IdView,
    iri: Seq<char>,
    predicate: LinkedDataPredicateObjects,
    failed: nat,
    upto: nat,
    count: nat,
)
    requires
        objects_quads(scope, graph, id, iri, predicate, failed, count) is Err,
        failed <= upto <= predicate.objects@.len(),
    ensures
        objects_quads(scope, graph, id, iri, predicate, upto, count) == objects_quads(
            scope,
            graph,
            id,
            iri,
            predicate,
            failed,
            count,
        ),
    decreases upto,
{
    if upto > failed {
        lemma_objects_fail(scope, graph, id, iri, predicate, failed, (upto - 1) as nat, count);
    }
}

/// Once the subjects of a graph fail, they fail the same way however many
/// more are taken.
pub proof fn lemma_subjects_fail(
    scope: Scope,
    graph: Option<IdView>,
    subjects: Seq<LinkedDataSubject>,
    failed: nat,
    upto: nat,
    count: nat,
)
    requires
        subjects_quads(scope, graph, subjects, failed, count) is Err,
        failed <= upto <= subjects.len(),
    ensures
        subjects_quads(scope, graph, subjects, upto, count) == subjects_quads(
            scope,
            graph,
            subjects,
            failed,
            count,
        ),
    decreases upto,
{
    if upto > failed {
        lemma_subjects_fail(scope, graph, subjects, failed, (upto - 1) as nat, count);
    }
}

/// Blank identifiers are never taken twice: the count of those generated
/// only grows while the predicates of a subject are collected, so that each
/// anonymous value is given a count of its own.
pub proof fn lemma_predicates_count_grows(
    scope: Scope,
    graph: Option<IdView>,
    owner: Resolved,
    subject: LinkedDataSubject,
    upto: nat,
    count: nat,
)
    ensures
        predicates_quads(scope, graph, owner, subject, upto, count) matches Ok((_, after))
            ==> count <= after,
    decreases subject, upto, 0nat,
{
    if !(upto == 0 || upto > subject.predicates@.len()) {
        lemma_predicates_count_grows(scope, graph, owner, subject, (upto - 1) as nat, count);
        match predicates_quads(scope, graph, owner, subject, (upto - 1) as nat, count) {
            Ok((_, before)) => {
                let predicate = subject.predicates@[upto - 1];
                match (owner.as_subject(), predicate_iri(scope, predicate.predicate)) {
                    (Ok(id), Ok(iri)) => {
                        lemma_objects_count_grows(
                            scope,
                            graph,
                            id,
                            iri,
                            predicate,
                            predicate.objects@.len(),
                            before,
                        );
                    },
                    _ => {},
                }
            },
            Err(_) => {},
        }
    }
}

/// The count of blank identifiers generated only grows while the objects of
/// a predicate are collected.
pub proof fn lemma_objects_count_grows(
    scope: Scope,
    graph: Option<IdView>,
    id: IdView,
    iri: Seq<char>,
    predicate: LinkedDataPredicateObjects,
    upto: nat,
    count: nat,
)
    ensures
        objects_quads(scope, graph, id, iri, predicate, upto, count) matches Ok((_, after))
            ==> count <= after,
    decreases predicate, upto, 0nat,
{
    if !(upto == 0 || upto > predicate.objects@.len()) {
        lemma_objects_count_grows(scope, graph, id, iri, predicate, (upto - 1) as nat, count);
        match objects_quads(scope, graph, id, iri, predicate, (upto - 1) as nat, count) {
            Ok((_, before)) => {
                let object = predicate.objects@[upto - 1];
                match resolve(scope, object.identity, before) {
                    Ok((resolved, resolved_count)) => {
                        lemma_predicates_count_grows(
                            scope,
                            graph,
                            resolved,
                            object,
                            object.predicates@.len(),
                            resolved_count,
                        );
                    },
                    Err(_) => {},
                }
            },
            Err(_) => {},
        }
    }
}

/// Visitor that collects the quads of the dataset it is shown.
pub struct QuadCollector<'a> {
    /// Where resources are looked up.
    pub interpretation: &'a Interpretation,
    /// Source of blank identifiers for anonymous values.
    pub generator: Blank,
    /// The quads collected so far.
    pub quads: Vec<Quad>,
}

/// Mathematical value of the quads a collector returns.
pub struct Quads(pub Vec<Quad>);

impl View for Quads {
    type V = Seq<QuadView>;

    open spec fn view(&self) -> Seq<QuadView> {
        quads_view(self.0@)
    }
}

impl<'a> QuadCollector<'a> {
    /// What stays the same while this collector works.
    pub open spec fn scope(self) -> Scope {
        Scope { terms: self.interpretation.resources@, prefix: self.generator.prefix@ }
    }

    /// Whether `after` is this collector with `added` collected and `count`
    /// blank identifiers generated.
    pub open spec fn grown(self, after: Self, added: Seq<QuadView>, count: nat) -> bool {
        &&& after.interpretation == self.interpretation
        &&& after.generator.prefix == self.generator.prefix
        &&& after.generator.count == count
        &&& quads_view(after.quads@) == quads_view(self.quads@) + added
    }

    /// Whether `after` is this collector after a step whose outcome is
    /// `expected`, and `res` what the step returned.
    pub open spec fn stepped<T>(
        self,
        after: Self,
        expected: Result<(Seq<QuadView>, nat), IntoQuadsError>,
        res: Result<T, IntoQuadsError>,
    ) -> bool {
        match expected {
            Ok((added, count)) => res.is_ok() && self.grown(after, added, count),
            Err(e) => res == Err::<T, IntoQuadsError>(e),
        }
    }

    /// Creates a collector that has collected nothing.
    pub fn new(interpretation: &'a Interpretation, generator: Blank) -> (res: Self)
        ensures
            res.interpretation == interpretation,
            res.generator == generator,
            res.quads@.len() == 0,
    {
        QuadCollector { interpretation, generator, quads: Vec::new() }
    }

    /// Resolves an identity, taking a blank identifier if it is anonymous.
    fn resolve(&mut self, identity: &ResourceInterpretation) -> (res: Result<Term, IntoQuadsError>)
        ensures
            match resolve(old(self).scope(), *identity, old(self).generator.count as nat) {
                Ok((resolved, count)) => res.is_ok() && resolved_of(res.unwrap()) == resolved
                    && old(self).grown(*final(self), Seq::empty(), count),
                Err(e) => res == Err::<Term, IntoQuadsError>(e),
            },
    {
        match identity {
            ResourceInterpretation::Interpreted(resource) => {
                if *resource < self.interpretation.resources.len() {
                    match &self.interpretation.resources[*resource] {
                        Some(term) => Ok(term.clone()),
                        None => Err(IntoQuadsError::MissingLexicalRepresentation(*resource)),
                    }
                } else {
                    Err(IntoQuadsError::MissingLexicalRepresentation(*resource))
                }
            },
            ResourceInterpretation::Uninterpreted(Some(term)) => Ok(term.clone()),
            ResourceInterpretation::Uninterpreted(None) => match self.generator.next() {
                Some(id) => Ok(Term::Id(id)),
                None => Err(IntoQuadsError::Generator),
            },
        }
    }

    /// Resolves the identity of a predicate to its IRI.
    fn predicate(&self, identity: &ResourceInterpretation) -> (res: Result<String, IntoQuadsError>)
        ensures
            match predicate_iri(self.scope(), *identity) {
                Ok(iri) => res.is_ok() && res.unwrap()@ == iri,
                Err(e) => res == Err::<String, IntoQuadsError>(e),
            },
    {
        let term = match identity {
            ResourceInterpretation::Interpreted(resource) => {
                if *resource < self.interpretation.resources.len() {
                    match &self.interpretation.resources[*resource] {
                        Some(term) => term,
                        None => {
                            return Err(IntoQuadsError::MissingLexicalRepresentation(*resource));
                        },
                    }
                } else {
                    return Err(IntoQuadsError::MissingLexicalRepresentation(*resource));
                }
            },
            ResourceInterpretation::Uninterpreted(Some(term)) => term,
            ResourceInterpretation::Uninterpreted(None) => {
                return Err(IntoQuadsError::Predicate(None));
            },
        };
        match term {
            Term::Id(Id::Iri(iri)) => Ok(iri.clone()),
            _ => Err(IntoQuadsError::Predicate(Some(term.clone()))),
        }
    }

    /// Collects the quads of the predicates of `subject`, whose identity was
    /// resolved to `owner`.
    fn collect_predicates(
        &mut self,
        graph: &Option<Id>,
        owner: &Term,
        subject: &LinkedDataSubject,
    ) -> (res: Result<(), IntoQuadsError>)
        ensures
            old(self).stepped(
                *final(self),
                predicates_quads(
                    old(self).scope(),
                    graph_view(*graph),
                    resolved_of(*owner),
                    *subject,
                    subject.predicates@.len(),
                    old(self).generator.count as nat,
                ),
                res,
            ),
        decreases *subject, 1nat,
    {
        let ghost scope = self.scope();
        let ghost start = self.generator.count as nat;
        let ghost sofar: Seq<QuadView> = Seq::empty();
        let mut i: usize = 0;
        assert(quads_view(self.quads@) + sofar == quads_view(self.quads@));
        while i < subject.predicates.len()
            invariant
                i <= subject.predicates.len(),
                scope == old(self).scope(),
                start == old(self).generator.count,
                predicates_quads(
                    scope,
                    graph_view(*graph),
                    resolved_of(*owner),
                    *subject,
                    i as nat,
                    start,
                ) == Ok::<(Seq<QuadView>, nat), IntoQuadsError>(
                    (sofar, self.generator.count as nat),
                ),
                old(self).grown(*self, sofar, self.generator.count as nat),
            decreases subject.predicates.len() - i,
        {
            let predicate = &subject.predicates[i];
            proof {
                if predicates_quads(
                    scope,
                    graph_view(*graph),
                    resolved_of(*owner),
                    *subject,
                    (i + 1) as nat,
                    start,
                ) is Err {
                    lemma_predicates_fail(
                        scope,
                        graph_view(*graph),
                        resolved_of(*owner),
                        *subject,
                        (i + 1) as nat,
                        subject.predicates@.len(),
                        start,
                    );
                }
            }
            let id = match owner {
                Term::Id(id) => id,
                Term::Literal(literal) => {
                    return Err(IntoQuadsError::Subject(literal.clone()));
                },
            };
            let iri = match self.predicate(&predicate.predicate) {
                Ok(iri) => iri,
                Err(e) => {
                    return Err(e);
                },
            };
            let ghost before = *self;
            match self.collect_objects(graph, id, &iri, predicate) {
                Ok(()) => {},
                Err(e) => {
                    return Err(e);
                },
            }
            proof {
                let more = objects_quads(
                    scope,
                    graph_view(*graph),
                    id@,
                    iri@,
                    *predicate,
                    predicate.objects@.len(),
                    before.generator.count as nat,
                ).unwrap().0;
                assert(quads_view(self.quads@) == quads_view(old(self).quads@) + (sofar + more));
                sofar = sofar + more;
            }
            i += 1;
        }
        Ok(())
    }

    /// Collects the quads of the objects of `predicate`, of IRI `iri`, for
    /// the subject `id`.
    fn collect_objects(
        &mut self,
        graph: &Option<Id>,
        id: &Id,
        iri: &String,
        predicate: &LinkedDataPredicateObjects,
    ) -> (res: Result<(), IntoQuadsError>)
        ensures
            old(self).stepped(
                *final(self),
                objects_quads(
                    old(self).scope(),
                    graph_view(*graph),
                    id@,
                    iri@,
                    *predicate,
                    predicate.objects@.len(),
                    old(self).generator.count as nat,
                ),
                res,
            ),
        decreases *predicate, 1nat,
    {
        let ghost scope = self.scope();
        let ghost start = self.generator.count as nat;
        let ghost sofar: Seq<QuadView> = Seq::empty();
        let mut i: usize = 0;
        assert(quads_view(self.quads@) + sofar == quads_view(self.quads@));
        while i < predicate.objects.len()
            invariant
                i <= predicate.objects.len(),
                scope == old(self).scope(),
                start == old(self).generator.count,
                objects_quads(
                    scope,
                    graph_view(*graph),
                    id@,
                    iri@,
                    *predicate,
                    i as nat,
                    start,
                ) == Ok::<(Seq<QuadView>, nat), IntoQuadsError>(
                    (sofar, self.generator.count as nat),
                ),
                old(self).grown(*self, sofar, self.generator.count as nat),
            decreases predicate.objects.len() - i,
        {
            let object = &predicate.objects[i];
            proof {
                if objects_quads(
                    scope,
                    graph_view(*graph),
                    id@,
                    iri@,
                    *predicate,
                    (i + 1) as nat,
                    start,
                ) is Err {
                    lemma_objects_fail(
                        scope,
                        graph_view(*graph),
                        id@,
                        iri@,
                        *predicate,
                        (i + 1) as nat,
                        predicate.objects@.len(),
                        start,
                    );
                }
            }
            let term = match self.resolve(&object.identity) {
                Ok(term) => term,
                Err(e) => {
                    return Err(e);
                },
            };
            let ghost resolved_count = self.generator.count as nat;
            let ghost before = quads_view(self.quads@);
            let quad = Quad {
                subject: id.clone(),
                predicate: iri.clone(),
                object: term.clone(),
                graph: crate::rdf::clone_graph(graph),
            };
            let ghost link = quad@;
            self.quads.push(quad);
            assert(quads_view(self.quads@) == before.push(link));
            match self.collect_predicates(graph, &term, object) {
                Ok(()) => {},
                Err(e) => {
                    return Err(e);
                },
            }
            proof {
                let nested = predicates_quads(
                    scope,
                    graph_view(*graph),
                    resolved_of(term),
                    *object,
                    object.predicates@.len(),
                    resolved_count,
                ).unwrap().0;
                assert(quads_view(self.quads@) == quads_view(old(self).quads@) + (sofar.push(
                    link,
                ) + nested));
                sofar = sofar.push(link) + nested;
            }
            i += 1;
        }
        Ok(())
    }

    /// Collects the quads of the subjects of a graph.
    fn collect_subjects(&mut self, graph: &Option<Id>, subjects: &Vec<LinkedDataSubject>) -> (res:
        Result<(), IntoQuadsError>)
        ensures
            old(self).stepped(
                *final(self),
                subjects_quads(
                    old(self).scope(),
                    graph_view(*graph),
                    subjects@,
                    subjects@.len(),
                    old(self).generator.count as nat,
                ),
                res,
            ),
    {
        let ghost scope = self.scope();
        let ghost start = self.generator.count as nat;
        let ghost sofar: Seq<QuadView> = Seq::empty();
        let mut i: usize = 0;
        assert(quads_view(self.quads@) + sofar == quads_view(self.quads@));
        while i < subjects.len()
            invariant
                i <= subjects.len(),
                scope == old(self).scope(),
                start == old(self).generator.count,
                subjects_quads(scope, graph_view(*graph), subjects@, i as nat, start) == Ok::<
                    (Seq<QuadView>, nat),
                    IntoQuadsError,
                >((sofar, self.generator.count as nat)),
                old(self).grown(*self, sofar, self.generator.count as nat),
            decreases subjects.len() - i,
        {
            let subject = &subjects[i];
            proof {
                if subjects_quads(scope, graph_view(*graph), subjects@, (i + 1) as nat, start) is Err {
                    lemma_subjects_fail(
                        scope,
                        graph_view(*graph),
                        subjects@,
                        (i + 1) as nat,
                        subjects@.len(),
                        start,
                    );
                }
            }
            let term = match self.resolve(&subject.identity) {
                Ok(term) => term,
                Err(e) => {
                    return Err(e);
                },
            };
            match &term {
                Term::Id(_) => {},
                Term::Literal(literal) => {
                    return Err(IntoQuadsError::Subject(literal.clone()));
                },
            }
            let ghost resolved_count = self.generator.count as nat;
            match self.collect_predicates(graph, &term, subject) {
                Ok(()) => {},
                Err(e) => {
                    return Err(e);
                },
            }
            proof {
                let more = predicates_quads(
                    scope,
                    graph_view(*graph),
                    resolved_of(term),
                    *subject,
                    subject.predicates@.len(),
                    resolved_count,
                ).unwrap().0;
                assert(quads_view(self.quads@) == quads_view(old(self).quads@) + (sofar + more));
                sofar = sofar + more;
            }
            i += 1;
        }
        Ok(())
    }

    /// Collects the quads of one graph of a dataset.
    fn collect_entry(&mut self, name: Option<&ResourceInterpretation>, graph: &LinkedDataGraph) -> (res:
        Result<(), IntoQuadsError>)
        ensures
            old(self).stepped(
                *final(self),
                entry_quads(
                    old(self).scope(),
                    GraphEntry {
                        name: match name {
                            Some(name) => Some(*name),
                            None => None,
                        },
                        graph: *graph,
                    },
                    old(self).generator.count as nat,
                ),
                res,
            ),
    {
        match name {
            None => self.collect_subjects(&None, &graph.subjects),
            Some(name) => {
                let term = match self.resolve(name) {
                    Ok(term) => term,
                    Err(e) => {
                        return Err(e);
                    },
                };
                let label = match term {
                    Term::Id(id) => id,
                    Term::Literal(literal) => {
                        return Err(IntoQuadsError::Graph(literal));
                    },
                };
                self.collect_subjects(&Some(label), &graph.subjects)
            },
        }
    }
}

impl<'a> Visitor for QuadCollector<'a> {
    type Ok = Quads;

    type Error = IntoQuadsError;

    /// The quads collected so far followed by those of `entries`, or the
    /// first error met in `entries`.
    open spec fn outcome(self, entries: Seq<GraphEntry>) -> Result<Seq<QuadView>, IntoQuadsError> {
        match dataset_quads(self.scope(), entries, self.generator.count as nat) {
            Ok((quads, _)) => Ok(quads_view(self.quads@) + quads),
            Err(e) => Err(e),
        }
    }

    fn default_graph(&mut self, value: &LinkedDataGraph) -> (res: Result<(), IntoQuadsError>) {
        let res = self.collect_entry(None, value);
        proof {
            old(self).lemma_step(*self, default_entry(*value), res);
        }
        res
    }

    fn named_graph(&mut self, name: &ResourceInterpretation, value: &LinkedDataGraph) -> (res:
        Result<(), IntoQuadsError>) {
        let res = self.collect_entry(Some(name), value);
        proof {
            old(self).lemma_step(*self, named_entry(*name, *value), res);
        }
        res
    }

    fn end(self) -> (res: Result<Quads, IntoQuadsError>) {
        proof {
            assert(quads_view(self.quads@) + Seq::<QuadView>::empty() == quads_view(self.quads@));
        }
        Ok(Quads(self.quads))
    }
}

impl<'a> QuadCollector<'a> {
    /// A collector that has collected one graph goes on as the visitor
    /// protocol asks.
    proof fn lemma_step(self, after: Self, entry: GraphEntry, res: Result<(), IntoQuadsError>)
        requires
            self.stepped(
                after,
                entry_quads(self.scope(), entry, self.generator.count as nat),
                res,
            ),
        ensures
            match res {
                Ok(()) => forall|rest: Seq<GraphEntry>| #[trigger]
                    after.outcome(rest) == self.outcome(seq![entry] + rest),
                Err(e) => forall|rest: Seq<GraphEntry>| #[trigger]
                    self.outcome(seq![entry] + rest) == Err::<Seq<QuadView>, IntoQuadsError>(e),
            },
    {
        assert forall|rest: Seq<GraphEntry>| (seq![entry] + rest).skip(1) == rest && (seq![entry]
            + rest)[0] == entry && (seq![entry] + rest).len() > 0 by {
            assert((seq![entry] + rest).skip(1) =~= rest);
        }
        match res {
            Ok(()) => {
                assert forall|rest: Seq<GraphEntry>| #[trigger]
                    after.outcome(rest) == self.outcome(seq![entry] + rest) by {
                    let all = seq![entry] + rest;
                    assert(all.skip(1) == rest && all[0] == entry && all.len() > 0);
                    let (added, count) = entry_quads(
                        self.scope(),
                        entry,
                        self.generator.count as nat,
                    ).unwrap();
                    match dataset_quads(self.scope(), rest, count) {
                        Ok((more, _)) => {
                            assert((quads_view(self.quads@) + added) + more == quads_view(
                                self.quads@,
                            ) + (added + more));
                        },
                        Err(_) => {},
                    }
                }
            },
            Err(e) => {
                assert forall|rest: Seq<GraphEntry>| #[trigger]
                    self.outcome(seq![entry] + rest) == Err::<Seq<QuadView>, IntoQuadsError>(
                        e,
                    ) by {
                    let all = seq![entry] + rest;
                    assert(all.skip(1) == rest && all[0] == entry && all.len() > 0);
                }
            },
        }
    }
}

/// Quads that `to_quads_with` owes for a dataset: those of its graphs when
/// the generator starts at `count`, or the first error.
pub open spec fn quads_of(
    interpretation: Interpretation,
    generator: Blank,
    entries: Seq<GraphEntry>,
) -> Result<Seq<QuadView>, IntoQuadsError> {
    match dataset_quads(
        Scope { terms: interpretation.resources@, prefix: generator.prefix@ },
        entries,
        generator.count as nat,
    ) {
        Ok((quads, _)) => Ok(quads),
        Err(e) => Err(e),
    }
}

/// Turns the dataset that `value` stands for into quads, looking resources
/// up in `interpretation` and naming anonymous values with `generator`.
pub fn to_quads_with<T: LinkedData>(
    interpretation: &Interpretation,
    generator: Blank,
    value: &T,
) -> (res: Result<Vec<Quad>, IntoQuadsError>)
    ensures
        match quads_of(*interpretation, generator, value.dataset()) {
            Ok(quads) => res.is_ok() && quads_view(res.unwrap()@) == quads,
            Err(e) => res == Err::<Vec<Quad>, IntoQuadsError>(e),
        },
{
    let collector = QuadCollector::new(interpretation, generator);
    proof {
        assert(quads_view(collector.quads@) =~= Seq::<QuadView>::empty());
        match dataset_quads(collector.scope(), value.dataset(), generator.count as nat) {
            Ok((quads, _)) => {
                assert(quads_view(collector.quads@) + quads == quads);
            },
            Err(_) => {},
        }
    }
    match value.visit(collector) {
        Ok(quads) => Ok(quads.0),
        Err(e) => Err(e),
    }
}

/// Turns the dataset that `value` stands for into quads, naming anonymous
/// values with `generator`. No resource is known: a value identified by one
/// is an error.
pub fn to_quads<T: LinkedData>(generator: Blank, value: &T) -> (res: Result<
    Vec<Quad>,
    IntoQuadsError,
>)
    ensures
        match dataset_quads(
            Scope { terms: Seq::empty(), prefix: generator.prefix@ },
            value.dataset(),
            generator.count as nat,
        ) {
            Ok((quads, _)) => res.is_ok() && quads_view(res.unwrap()@) == quads,
            Err(e) => res == Err::<Vec<Quad>, IntoQuadsError>(e),
        },
{
    let interpretation = Interpretation::new();
    assert(interpretation.resources@ =~= Seq::<Option<Term>>::empty());
    to_quads_with(&interpretation, generator, value)
}

/// Turns one subject into the quads of the default graph, and returns with
/// them the identifier the subject was given.
pub fn to_lexical_subject_quads_with(
    interpretation: &Interpretation,
    generator: Blank,
    value: &LinkedDataSubject,
) -> (res: Result<(Id, Vec<Quad>), IntoQuadsError>)
    ensures
        match resolve(
            Scope { terms: interpretation.resources@, prefix: generator.prefix@ },
            value.identity,
            generator.count as nat,
        ) {
            Err(e) => res == Err::<(Id, Vec<Quad>), IntoQuadsError>(e),
            Ok((resolved, _)) => match subject_quads(
                Scope { terms: interpretation.resources@, prefix: generator.prefix@ },
                None,
                *value,
                generator.count as nat,
            ) {
                Err(e) => res == Err::<(Id, Vec<Quad>), IntoQuadsError>(e),
                Ok((quads, _)) => res.is_ok() && resolved.as_subject() == Ok::<
                    IdView,
                    IntoQuadsError,
                >(res.unwrap().0@) && quads_view(res.unwrap().1@) == quads,
            },
        },
{
    let mut collector = QuadCollector::new(interpretation, generator);
    assert(quads_view(collector.quads@) =~= Seq::<QuadView>::empty());
    let term = match collector.resolve(&value.identity) {
        Ok(term) => term,
        Err(e) => {
            return Err(e);
        },
    };
    let ghost resolved_count = collector.generator.count as nat;
    match &term {
        Term::Id(_) => {},
        Term::Literal(literal) => {
            return Err(IntoQuadsError::Subject(literal.clone()));
        },
    }
    match collector.collect_predicates(&None, &term, value) {
        Ok(()) => {},
        Err(e) => {
            return Err(e);
        },
    }
    proof {
        let quads = predicates_quads(
            collector.scope(),
            None,
            resolved_of(term),
            *value,
            value.predicates@.len(),
            resolved_count,
        ).unwrap().0;
        assert(Seq::<QuadView>::empty() + quads == quads);
    }
    match term {
        Term::Id(id) => Ok((id, collector.quads)),
        Term::Literal(literal) => Err(IntoQuadsError::Subject(literal)),
    }
}

} // verus!
