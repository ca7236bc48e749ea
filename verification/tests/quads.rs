use linked_data::generator::Blank;
use linked_data::interpretation::Interpretation;
use linked_data::quads::{
    to_lexical_subject_quads_with, to_quads, to_quads_with, IntoQuadsError, QuadCollector,
};
use linked_data::rdf::{Id, Literal, LiteralType, Quad, Term};
use linked_data::{
    GraphEntry, LinkedData, LinkedDataDataset, LinkedDataGraph, LinkedDataPredicateObjects,
    LinkedDataSubject, ResourceInterpretation, Visitor,
};

const STRING: &str = "http://www.w3.org/2001/XMLSchema#string";

fn literal(value: &str) -> Literal {
    Literal { value: value.to_string(), type_: LiteralType::Any(STRING.to_string()) }
}

fn named(iri: &str) -> ResourceInterpretation {
    ResourceInterpretation::iri(iri.to_string())
}

fn text(value: &str) -> LinkedDataSubject {
    LinkedDataSubject::new(ResourceInterpretation::Uninterpreted(Some(Term::Literal(literal(value)))))
}

fn property(iri: &str, objects: Vec<LinkedDataSubject>) -> LinkedDataPredicateObjects {
    LinkedDataPredicateObjects { predicate: named(iri), objects }
}

fn graph_of(subject: LinkedDataSubject) -> LinkedDataGraph {
    LinkedDataGraph { subjects: vec![subject] }
}

fn john() -> LinkedDataSubject {
    LinkedDataSubject {
        identity: named("http://example.org/JohnSmith"),
        predicates: vec![
            property("http://example.org/name", vec![text("John Smith")]),
            property("http://example.org/email", vec![text("john.smith@example.org")]),
        ],
    }
}

#[test]
fn blank_generator_numbers_its_labels() {
    let mut generator = Blank::new();
    assert_eq!(generator.next(), Some(Id::Blank("_:0".to_string())));
    assert_eq!(generator.next(), Some(Id::Blank("_:1".to_string())));
    assert_eq!(generator.count, 2);
    let mut prefixed = Blank::new_full("b".to_string(), 9);
    assert_eq!(prefixed.next(), Some(Id::Blank("_:b9".to_string())));
    assert_eq!(prefixed.next(), Some(Id::Blank("_:b10".to_string())));
    assert_eq!(prefixed.prefix, "b");
}

#[test]
fn blank_generator_ends_where_counts_end() {
    let mut generator = Blank::new_full(String::new(), usize::MAX - 1);
    assert_eq!(generator.next(), Some(Id::Blank(format!("_:{}", usize::MAX - 1))));
    assert_eq!(generator.next(), None);
    assert_eq!(generator.next(), None);
    assert_eq!(generator.count, usize::MAX);
}

#[test]
fn a_named_subject_gives_one_quad_per_field_in_order() {
    let quads = to_quads(Blank::new(), &graph_of(john())).unwrap();
    let subject = Id::Iri("http://example.org/JohnSmith".to_string());
    assert_eq!(
        quads,
        vec![
            Quad {
                subject: subject.clone(),
                predicate: "http://example.org/name".to_string(),
                object: Term::Literal(literal("John Smith")),
                graph: None,
            },
            Quad {
                subject,
                predicate: "http://example.org/email".to_string(),
                object: Term::Literal(literal("john.smith@example.org")),
                graph: None,
            },
        ]
    );
}

#[test]
fn anonymous_subjects_and_objects_take_fresh_blank_identifiers() {
    let inner = LinkedDataSubject {
        identity: ResourceInterpretation::anonymous(),
        predicates: vec![property("http://example.org/q", vec![text("deep")])],
    };
    let outer = LinkedDataSubject {
        identity: ResourceInterpretation::anonymous(),
        predicates: vec![property("http://example.org/p", vec![inner, text("flat")])],
    };
    let quads = to_quads(Blank::new_full("b".to_string(), 0), &graph_of(outer)).unwrap();
    let b0 = Id::Blank("_:b0".to_string());
    let b1 = Id::Blank("_:b1".to_string());
    assert_eq!(
        quads,
        vec![
            Quad {
                subject: b0.clone(),
                predicate: "http://example.org/p".to_string(),
                object: Term::Id(b1.clone()),
                graph: None,
            },
            Quad {
                subject: b1,
                predicate: "http://example.org/q".to_string(),
                object: Term::Literal(literal("deep")),
                graph: None,
            },
            Quad {
                subject: b0,
                predicate: "http://example.org/p".to_string(),
                object: Term::Literal(literal("flat")),
                graph: None,
            },
        ]
    );
}

#[test]
fn a_subject_without_predicates_gives_no_quad_but_takes_its_identifier() {
    let graph = LinkedDataGraph {
        subjects: vec![
            LinkedDataSubject::new(ResourceInterpretation::anonymous()),
            LinkedDataSubject {
                identity: ResourceInterpretation::anonymous(),
                predicates: vec![property("http://example.org/p", vec![text("x")])],
            },
        ],
    };
    let quads = to_quads(Blank::new(), &graph).unwrap();
    assert_eq!(quads.len(), 1);
    assert_eq!(quads[0].subject, Id::Blank("_:1".to_string()));
}

#[test]
fn named_graphs_label_their_quads() {
    let dataset = LinkedDataDataset {
        graphs: vec![
            GraphEntry { name: None, graph: graph_of(john()) },
            GraphEntry { name: Some(named("http://example.org/g")), graph: graph_of(john()) },
            GraphEntry { name: Some(ResourceInterpretation::anonymous()), graph: graph_of(john()) },
        ],
    };
    let quads = to_quads(Blank::new(), &dataset).unwrap();
    assert_eq!(quads.len(), 6);
    assert_eq!(quads[0].graph, None);
    assert_eq!(quads[1].graph, None);
    assert_eq!(quads[2].graph, Some(Id::Iri("http://example.org/g".to_string())));
    assert_eq!(quads[3].graph, Some(Id::Iri("http://example.org/g".to_string())));
    assert_eq!(quads[4].graph, Some(Id::Blank("_:0".to_string())));
    assert_eq!(quads[5].graph, Some(Id::Blank("_:0".to_string())));
    assert_eq!(quads[5].predicate, "http://example.org/email");
}

#[test]
fn resources_are_looked_up_in_the_interpretation() {
    let mut interpretation = Interpretation::new();
    let s = interpretation.interpret_iri("http://example.org/s".to_string());
    let p = interpretation.interpret_iri("http://example.org/p".to_string());
    let o = interpretation.interpret_term(&Term::Literal(literal("o")));
    let subject = LinkedDataSubject {
        identity: ResourceInterpretation::Interpreted(s),
        predicates: vec![LinkedDataPredicateObjects {
            predicate: ResourceInterpretation::Interpreted(p),
            objects: vec![LinkedDataSubject::new(ResourceInterpretation::Interpreted(o))],
        }],
    };
    let quads = to_quads_with(&interpretation, Blank::new(), &graph_of(subject)).unwrap();
    assert_eq!(
        quads,
        vec![Quad {
            subject: Id::Iri("http://example.org/s".to_string()),
            predicate: "http://example.org/p".to_string(),
            object: Term::Literal(literal("o")),
            graph: None,
        }]
    );
}

#[test]
fn a_literal_cannot_be_a_subject() {
    let graph = graph_of(LinkedDataSubject {
        identity: ResourceInterpretation::Uninterpreted(Some(Term::Literal(literal("s")))),
        predicates: Vec::new(),
    });
    assert_eq!(to_quads(Blank::new(), &graph), Err(IntoQuadsError::Subject(literal("s"))));
    let nested = LinkedDataSubject {
        identity: named("http://example.org/s"),
        predicates: vec![property(
            "http://example.org/p",
            vec![LinkedDataSubject {
                identity: ResourceInterpretation::Uninterpreted(Some(Term::Literal(literal("o")))),
                predicates: vec![property("http://example.org/q", vec![text("x")])],
            }],
        )],
    };
    assert_eq!(
        to_quads(Blank::new(), &graph_of(nested)),
        Err(IntoQuadsError::Subject(literal("o")))
    );
}

#[test]
fn a_predicate_must_be_an_iri() {
    let blank = Term::Id(Id::Blank("_:p".to_string()));
    let subject = |predicate: ResourceInterpretation| {
        graph_of(LinkedDataSubject {
            identity: named("http://example.org/s"),
            predicates: vec![LinkedDataPredicateObjects { predicate, objects: vec![text("x")] }],
        })
    };
    assert_eq!(
        to_quads(Blank::new(), &subject(ResourceInterpretation::Uninterpreted(Some(blank.clone())))),
        Err(IntoQuadsError::Predicate(Some(blank)))
    );
    assert_eq!(
        to_quads(Blank::new(), &subject(ResourceInterpretation::anonymous())),
        Err(IntoQuadsError::Predicate(None))
    );
}

#[test]
fn a_graph_label_must_be_an_identifier() {
    let dataset = LinkedDataDataset {
        graphs: vec![GraphEntry {
            name: Some(ResourceInterpretation::Uninterpreted(Some(Term::Literal(literal("g"))))),
            graph: graph_of(john()),
        }],
    };
    assert_eq!(to_quads(Blank::new(), &dataset), Err(IntoQuadsError::Graph(literal("g"))));
}

#[test]
fn an_unknown_resource_has_no_lexical_representation() {
    let mut interpretation = Interpretation::new();
    let anonymous = interpretation.new_resource();
    let known = graph_of(LinkedDataSubject::new(ResourceInterpretation::Interpreted(anonymous)));
    assert_eq!(
        to_quads_with(&interpretation, Blank::new(), &known),
        Err(IntoQuadsError::MissingLexicalRepresentation(anonymous))
    );
    let unknown = graph_of(LinkedDataSubject::new(ResourceInterpretation::Interpreted(5)));
    assert_eq!(
        to_quads(Blank::new(), &unknown),
        Err(IntoQuadsError::MissingLexicalRepresentation(5))
    );
}

#[test]
fn an_exhausted_generator_fails_the_collection() {
    let graph = graph_of(LinkedDataSubject::new(ResourceInterpretation::anonymous()));
    assert_eq!(
        to_quads(Blank::new_full(String::new(), usize::MAX), &graph),
        Err(IntoQuadsError::Generator)
    );
}

#[test]
fn every_collection_error_has_a_message() {
    assert_eq!(IntoQuadsError::Graph(literal("g")).message(), "invalid graph label");
    assert_eq!(IntoQuadsError::Subject(literal("s")).message(), "invalid subject");
    assert_eq!(IntoQuadsError::Predicate(None).message(), "invalid predicate");
    assert_eq!(
        IntoQuadsError::MissingLexicalRepresentation(0).message(),
        "missing lexical representation"
    );
    assert_eq!(IntoQuadsError::Generator.message(), "no blank identifier left");
}

#[test]
fn subject_quads_come_with_the_identifier_of_the_subject() {
    let interpretation = Interpretation::new();
    let (id, quads) =
        to_lexical_subject_quads_with(&interpretation, Blank::new(), &john()).unwrap();
    assert_eq!(id, Id::Iri("http://example.org/JohnSmith".to_string()));
    assert_eq!(quads.len(), 2);
    let anonymous = LinkedDataSubject {
        identity: ResourceInterpretation::anonymous(),
        predicates: vec![property("http://example.org/p", vec![text("x")])],
    };
    let (id, quads) =
        to_lexical_subject_quads_with(&interpretation, Blank::new(), &anonymous).unwrap();
    assert_eq!(id, Id::Blank("_:0".to_string()));
    assert_eq!(quads[0].subject, id);
}

#[test]
fn a_collector_is_a_visitor_that_can_be_driven_by_hand() {
    let interpretation = Interpretation::new();
    let mut collector = QuadCollector::new(&interpretation, Blank::new());
    collector.default_graph(&graph_of(john())).unwrap();
    collector.named_graph(&named("http://example.org/g"), &graph_of(john())).unwrap();
    let quads = collector.end().unwrap().0;
    assert_eq!(quads.len(), 4);
    assert_eq!(quads[3].graph, Some(Id::Iri("http://example.org/g".to_string())));
    let same = graph_of(john()).visit(QuadCollector::new(&interpretation, Blank::new())).unwrap().0;
    assert_eq!(same, quads[..2].to_vec());
}

#[test]
fn references_boxes_and_identifiers_are_linked_data() {
    let graph = graph_of(john());
    let direct = to_quads(Blank::new(), &graph).unwrap();
    assert_eq!(to_quads(Blank::new(), &&graph).unwrap(), direct);
    assert_eq!(to_quads(Blank::new(), &Box::new(graph_of(john()))).unwrap(), direct);
    let alone = Id::Iri("http://example.org/JohnSmith".to_string());
    assert_eq!(to_quads(Blank::new(), &alone), Ok(Vec::new()));
}
