use linked_data::context::ContextIris;
use linked_data::dataset::Dataset;
use linked_data::de::{deserialize_objects, deserialize_subject, deserialize_value};
use linked_data::deserialize::{deserialize_resource, deserialize_subjects};
use linked_data::error::FromLinkedDataError;
use linked_data::generator::Blank;
use linked_data::interpretation::Interpretation;
use linked_data::load::load_quad;
use linked_data::quads::to_quads;
use linked_data::rdf::{Id, Literal, LiteralType, Quad, Term};
use linked_data::record::{describe, describe_value, FieldValue, Record, Value};
use linked_data::schema::{Arity, FieldSchema, FieldType, TypeSchema, TypeStatement};
use linked_data::{
    LinkedDataGraph, LinkedDataPredicateObjects, LinkedDataSubject, ResourceInterpretation,
};

const STRING: &str = "http://www.w3.org/2001/XMLSchema#string";
const RDF_TYPE: &str = "http://www.w3.org/1999/02/22-rdf-syntax-ns#type";

fn literal(value: &str) -> Literal {
    Literal { value: value.to_string(), type_: LiteralType::Any(STRING.to_string()) }
}

fn text(value: &str) -> Value {
    Value::Literal(literal(value))
}

fn property(iri: &str, arity: Arity, type_: FieldType) -> FieldSchema {
    FieldSchema::Property { iri: iri.to_string(), arity, type_ }
}

fn iri_term(iri: &str) -> Term {
    Term::Id(Id::Iri(iri.to_string()))
}

/// struct Foo { #[ld(id)] id, #[ld("ex:name")] name: String, #[ld("ex:email")] email: String }
fn foo_schema() -> TypeSchema {
    TypeSchema {
        type_: None,
        fields: vec![
            FieldSchema::Id,
            property("http://example.org/name", Arity::One, FieldType::Literal(None)),
            property("http://example.org/email", Arity::One, FieldType::Literal(None)),
        ],
    }
}

fn john() -> Record {
    Record {
        fields: vec![
            FieldValue::Id(Id::Iri("http://example.org/JohnSmith".to_string())),
            FieldValue::Objects(vec![text("John Smith")]),
            FieldValue::Objects(vec![text("john.smith@example.org")]),
        ],
    }
}

fn bar_schema() -> TypeSchema {
    TypeSchema {
        type_: Some(TypeStatement {
            predicate: RDF_TYPE.to_string(),
            type_iri: "http://example.org/Bar".to_string(),
        }),
        fields: vec![
            FieldSchema::Id,
            property("http://example.org/value", Arity::One, FieldType::Literal(None)),
        ],
    }
}

/// A record with a nested record, a flattened record, an optional and a
/// many-valued field, and an ignored field.
fn outer_schema() -> TypeSchema {
    TypeSchema {
        type_: None,
        fields: vec![
            property("http://example.org/name", Arity::One, FieldType::Literal(None)),
            property("http://example.org/bar", Arity::One, FieldType::Record(bar_schema())),
            FieldSchema::Flatten(TypeSchema {
                type_: None,
                fields: vec![property("http://example.org/email", Arity::One, FieldType::Literal(None))],
            }),
            property("http://example.org/nick", Arity::Optional, FieldType::Literal(None)),
            property("http://example.org/knows", Arity::Many, FieldType::Iri),
            FieldSchema::Ignore,
        ],
    }
}

fn outer() -> Record {
    Record {
        fields: vec![
            FieldValue::Objects(vec![text("John Smith")]),
            FieldValue::Objects(vec![Value::Record(Record {
                fields: vec![
                    FieldValue::Id(Id::Iri("http://example.org/myBar".to_string())),
                    FieldValue::Objects(vec![text("1")]),
                ],
            })]),
            FieldValue::Flatten(Record {
                fields: vec![FieldValue::Objects(vec![text("john.smith@example.org")])],
            }),
            FieldValue::Objects(Vec::new()),
            FieldValue::Objects(vec![
                Value::Iri("http://example.org/a".to_string()),
                Value::Iri("http://example.org/b".to_string()),
            ]),
            FieldValue::Ignored,
        ],
    }
}

fn load(quads: &[Quad]) -> (Interpretation, Dataset) {
    let mut interpretation = Interpretation::new();
    let mut dataset = Dataset::new();
    for quad in quads {
        assert!(load_quad(&mut interpretation, &mut dataset, quad).is_some());
    }
    (interpretation, dataset)
}

fn quad(subject: &str, predicate: &str, object: Term) -> Quad {
    Quad {
        subject: Id::Iri(subject.to_string()),
        predicate: predicate.to_string(),
        object,
        graph: None,
    }
}

#[test]
fn a_record_describes_itself_field_by_field() {
    let node = describe(&foo_schema(), &john()).unwrap();
    assert_eq!(
        node,
        LinkedDataSubject {
            identity: ResourceInterpretation::iri("http://example.org/JohnSmith".to_string()),
            predicates: vec![
                LinkedDataPredicateObjects {
                    predicate: ResourceInterpretation::iri("http://example.org/name".to_string()),
                    objects: vec![LinkedDataSubject::new(ResourceInterpretation::Uninterpreted(
                        Some(Term::Literal(literal("John Smith")))
                    ))],
                },
                LinkedDataPredicateObjects {
                    predicate: ResourceInterpretation::iri("http://example.org/email".to_string()),
                    objects: vec![LinkedDataSubject::new(ResourceInterpretation::Uninterpreted(
                        Some(Term::Literal(literal("john.smith@example.org")))
                    ))],
                },
            ],
        }
    );
}

#[test]
fn serializing_john_smith_gives_two_quads_in_field_order() {
    let node = describe(&foo_schema(), &john()).unwrap();
    let quads = to_quads(Blank::new(), &LinkedDataGraph { subjects: vec![node] }).unwrap();
    assert_eq!(
        quads,
        vec![
            quad(
                "http://example.org/JohnSmith",
                "http://example.org/name",
                Term::Literal(literal("John Smith"))
            ),
            quad(
                "http://example.org/JohnSmith",
                "http://example.org/email",
                Term::Literal(literal("john.smith@example.org"))
            ),
        ]
    );
}

#[test]
fn a_flattened_record_states_its_predicates_as_the_outer_ones() {
    let node = describe(&outer_schema(), &outer()).unwrap();
    assert_eq!(node.identity, ResourceInterpretation::anonymous());
    let predicates: Vec<ResourceInterpretation> =
        node.predicates.iter().map(|p| p.predicate.clone()).collect();
    assert_eq!(
        predicates,
        vec![
            ResourceInterpretation::iri("http://example.org/name".to_string()),
            ResourceInterpretation::iri("http://example.org/bar".to_string()),
            ResourceInterpretation::iri("http://example.org/email".to_string()),
            ResourceInterpretation::iri("http://example.org/nick".to_string()),
            ResourceInterpretation::iri("http://example.org/knows".to_string()),
        ]
    );
    let bar = &node.predicates[1].objects[0];
    assert_eq!(bar.identity, ResourceInterpretation::iri("http://example.org/myBar".to_string()));
    assert_eq!(bar.predicates[0].predicate, ResourceInterpretation::iri(RDF_TYPE.to_string()));
    assert_eq!(
        bar.predicates[0].objects,
        vec![LinkedDataSubject::new(ResourceInterpretation::iri("http://example.org/Bar".to_string()))]
    );
    assert_eq!(node.predicates[3].objects.len(), 0);
    assert_eq!(node.predicates[4].objects.len(), 2);
}

#[test]
fn a_record_that_is_not_of_the_type_is_not_described() {
    let schema = foo_schema();
    let short = Record { fields: vec![FieldValue::Id(Id::Iri("http://example.org/x".to_string()))] };
    assert_eq!(describe(&schema, &short), None);
    let mut two_names = john();
    two_names.fields[1] = FieldValue::Objects(vec![text("a"), text("b")]);
    assert_eq!(describe(&schema, &two_names), None);
    let mut no_name = john();
    no_name.fields[1] = FieldValue::Objects(Vec::new());
    assert_eq!(describe(&schema, &no_name), None);
    let mut wrong_kind = john();
    wrong_kind.fields[2] = FieldValue::Objects(vec![Value::Iri("http://example.org/x".to_string())]);
    assert_eq!(describe(&schema, &wrong_kind), None);
    let mut no_id = john();
    no_id.fields[0] = FieldValue::Ignored;
    assert_eq!(describe(&schema, &no_id), None);
    assert_eq!(describe_value(&FieldType::Iri, &text("x")), None);
    assert_eq!(describe_value(&FieldType::Record(foo_schema()), &text("x")), None);
}

#[test]
fn a_record_is_read_back_from_its_description() {
    let interpretation = Interpretation::new();
    let node = describe(&foo_schema(), &john()).unwrap();
    assert_eq!(deserialize_subject(&foo_schema(), &interpretation, &node), Ok(john()));
    let node = describe(&outer_schema(), &outer()).unwrap();
    assert_eq!(deserialize_subject(&outer_schema(), &interpretation, &node), Ok(outer()));
}

#[test]
fn a_record_is_read_back_from_the_dataset_of_its_quads() {
    let node = describe(&foo_schema(), &john()).unwrap();
    let quads = to_quads(Blank::new(), &LinkedDataGraph { subjects: vec![node] }).unwrap();
    let (interpretation, dataset) = load(&quads);
    let start = interpretation.resources_for(&iri_term("http://example.org/JohnSmith"));
    assert_eq!(start.len(), 1);
    assert_eq!(
        deserialize_resource(&foo_schema(), &interpretation, &dataset, None, start[0]),
        Ok(john())
    );
}

#[test]
fn an_anonymous_record_is_read_back_from_the_subject_it_was_given() {
    let mut expected = outer();
    // The order of the objects of a many-valued field is the dataset's.
    expected.fields[4] = FieldValue::Objects(vec![Value::Iri("http://example.org/a".to_string())]);
    let node = describe(&outer_schema(), &expected).unwrap();
    let quads = to_quads(Blank::new(), &LinkedDataGraph { subjects: vec![node] }).unwrap();
    assert_eq!(quads.len(), 6);
    let (interpretation, dataset) = load(&quads);
    let start = interpretation.resources_for(&Term::Id(Id::Blank("_:0".to_string())));
    assert_eq!(
        deserialize_subjects(&outer_schema(), &interpretation, &dataset, None, &start),
        Ok(vec![expected])
    );
}

#[test]
fn several_records_are_read_back_in_the_order_of_their_resources() {
    let joe = Record {
        fields: vec![
            FieldValue::Id(Id::Iri("http://example.org/joe".to_string())),
            FieldValue::Objects(vec![text("Joe Dalton")]),
            FieldValue::Objects(vec![text("joe@example.org")]),
        ],
    };
    let graph = LinkedDataGraph {
        subjects: vec![
            describe(&foo_schema(), &john()).unwrap(),
            describe(&foo_schema(), &joe).unwrap(),
        ],
    };
    let (interpretation, dataset) = load(&to_quads(Blank::new(), &graph).unwrap());
    let joe_at = interpretation.resources_for(&iri_term("http://example.org/joe"))[0];
    let john_at = interpretation.resources_for(&iri_term("http://example.org/JohnSmith"))[0];
    assert_eq!(
        deserialize_subjects(&foo_schema(), &interpretation, &dataset, None, &vec![joe_at, john_at]),
        Ok(vec![joe, john()])
    );
}

#[test]
fn two_objects_for_a_single_valued_field_are_too_many() {
    let (interpretation, dataset) = load(&[
        quad("http://example.org/s", "http://example.org/name", Term::Literal(literal("a"))),
        quad("http://example.org/s", "http://example.org/name", Term::Literal(literal("b"))),
        quad("http://example.org/s", "http://example.org/email", Term::Literal(literal("e"))),
    ]);
    let start = interpretation.resources_for(&iri_term("http://example.org/s"))[0];
    assert_eq!(
        deserialize_resource(&foo_schema(), &interpretation, &dataset, None, start),
        Err(FromLinkedDataError::TooManyValues(ContextIris::Object {
            subject: Some("http://example.org/s".to_string()),
            predicate: Some("http://example.org/name".to_string()),
        }))
    );
}

#[test]
fn no_object_for_a_required_field_is_a_missing_value() {
    let (interpretation, dataset) = load(&[quad(
        "http://example.org/s",
        "http://example.org/name",
        Term::Literal(literal("a")),
    )]);
    let start = interpretation.resources_for(&iri_term("http://example.org/s"))[0];
    assert_eq!(
        deserialize_resource(&foo_schema(), &interpretation, &dataset, None, start),
        Err(FromLinkedDataError::MissingRequiredValue(ContextIris::Object {
            subject: Some("http://example.org/s".to_string()),
            predicate: Some("http://example.org/email".to_string()),
        }))
    );
    assert_eq!(
        deserialize_subjects(&foo_schema(), &interpretation, &dataset, None, &vec![start]).err(),
        Some(FromLinkedDataError::MissingRequiredValue(ContextIris::Object {
            subject: Some("http://example.org/s".to_string()),
            predicate: Some("http://example.org/email".to_string()),
        }))
    );
}

#[test]
fn arity_decides_how_many_objects_a_field_takes() {
    let interpretation = Interpretation::new();
    let context = || ContextIris::Object { subject: None, predicate: Some("p".to_string()) };
    let objects = |n: usize| -> Vec<LinkedDataSubject> {
        (0..n)
            .map(|i| {
                LinkedDataSubject::new(ResourceInterpretation::Uninterpreted(Some(Term::Literal(
                    literal(&format!("{i}")),
                ))))
            })
            .collect()
    };
    let read = |arity: Arity, n: usize| {
        deserialize_objects(arity, &FieldType::Literal(None), &interpretation, &objects(n), context())
    };
    assert_eq!(read(Arity::One, 0), Err(FromLinkedDataError::MissingRequiredValue(context())));
    assert_eq!(read(Arity::One, 1), Ok(vec![text("0")]));
    assert_eq!(read(Arity::One, 2), Err(FromLinkedDataError::TooManyValues(context())));
    assert_eq!(read(Arity::Optional, 0), Ok(Vec::new()));
    assert_eq!(read(Arity::Optional, 1), Ok(vec![text("0")]));
    assert_eq!(read(Arity::Optional, 2), Err(FromLinkedDataError::TooManyValues(context())));
    assert_eq!(read(Arity::Many, 0), Ok(Vec::new()));
    assert_eq!(read(Arity::Many, 3), Ok(vec![text("0"), text("1"), text("2")]));
}

#[test]
fn an_object_must_be_of_the_type_of_its_field() {
    let interpretation = Interpretation::new();
    let context = ContextIris::Object { subject: None, predicate: Some("p".to_string()) };
    let named = LinkedDataSubject::new(ResourceInterpretation::iri("http://example.org/x".to_string()));
    let blank = LinkedDataSubject::new(ResourceInterpretation::Uninterpreted(Some(Term::Id(
        Id::Blank("_:b".to_string()),
    ))));
    let lit = LinkedDataSubject::new(ResourceInterpretation::Uninterpreted(Some(Term::Literal(
        literal("x"),
    ))));
    let nothing = LinkedDataSubject::new(ResourceInterpretation::anonymous());
    assert_eq!(
        deserialize_value(&FieldType::Literal(None), &interpretation, &named, &context),
        Err(FromLinkedDataError::ExpectedLiteral(context.clone()))
    );
    assert_eq!(
        deserialize_value(&FieldType::Literal(None), &interpretation, &nothing, &context),
        Err(FromLinkedDataError::ExpectedLiteral(context.clone()))
    );
    assert_eq!(
        deserialize_value(&FieldType::Iri, &interpretation, &lit, &context),
        Err(FromLinkedDataError::ExpectedIri(context.clone()))
    );
    assert_eq!(
        deserialize_value(&FieldType::Iri, &interpretation, &blank, &context),
        Err(FromLinkedDataError::ExpectedIri(context.clone()))
    );
    assert_eq!(
        deserialize_value(&FieldType::Iri, &interpretation, &named, &context),
        Ok(Value::Iri("http://example.org/x".to_string()))
    );
    assert_eq!(
        deserialize_value(&FieldType::Literal(None), &interpretation, &lit, &context),
        Ok(text("x"))
    );
}

#[test]
fn an_identity_field_needs_an_identifier() {
    let interpretation = Interpretation::new();
    let schema = TypeSchema { type_: None, fields: vec![FieldSchema::Id] };
    let anonymous = LinkedDataSubject::new(ResourceInterpretation::anonymous());
    assert_eq!(
        deserialize_subject(&schema, &interpretation, &anonymous),
        Err(FromLinkedDataError::ExpectedIri(ContextIris::Subject))
    );
    let blank = LinkedDataSubject::new(ResourceInterpretation::Uninterpreted(Some(Term::Id(
        Id::Blank("_:b".to_string()),
    ))));
    assert_eq!(
        deserialize_subject(&schema, &interpretation, &blank),
        Ok(Record { fields: vec![FieldValue::Id(Id::Blank("_:b".to_string()))] })
    );
}

#[test]
fn reading_takes_the_first_predicate_of_an_iri_and_skips_the_others() {
    let interpretation = Interpretation::new();
    let schema = TypeSchema {
        type_: None,
        fields: vec![property("http://example.org/p", Arity::Many, FieldType::Literal(None))],
    };
    let object = |value: &str| {
        LinkedDataSubject::new(ResourceInterpretation::Uninterpreted(Some(Term::Literal(literal(
            value,
        )))))
    };
    let entry = |iri: &str, value: &str| LinkedDataPredicateObjects {
        predicate: ResourceInterpretation::iri(iri.to_string()),
        objects: vec![object(value)],
    };
    let node = LinkedDataSubject {
        identity: ResourceInterpretation::anonymous(),
        predicates: vec![
            LinkedDataPredicateObjects {
                predicate: ResourceInterpretation::anonymous(),
                objects: vec![object("anonymous")],
            },
            entry("http://example.org/q", "other"),
            entry("http://example.org/p", "first"),
            entry("http://example.org/p", "second"),
        ],
    };
    assert_eq!(
        deserialize_subject(&schema, &interpretation, &node),
        Ok(Record { fields: vec![FieldValue::Objects(vec![text("first")])] })
    );
}

#[test]
fn reading_a_cyclic_dataset_ends() {
    // A -knows-> B -knows-> A, each with a name.
    let knows = "http://example.org/knows";
    let name = "http://example.org/name";
    let (interpretation, dataset) = load(&[
        quad("http://example.org/A", knows, iri_term("http://example.org/B")),
        quad("http://example.org/B", knows, iri_term("http://example.org/A")),
        quad("http://example.org/A", name, Term::Literal(literal("a"))),
        quad("http://example.org/B", name, Term::Literal(literal("b"))),
    ]);
    let person = |depth: usize| {
        let mut schema = TypeSchema {
            type_: None,
            fields: vec![FieldSchema::Id, property(name, Arity::Optional, FieldType::Literal(None))],
        };
        for _ in 0..depth {
            schema = TypeSchema {
                type_: None,
                fields: vec![
                    FieldSchema::Id,
                    property(name, Arity::Optional, FieldType::Literal(None)),
                    property(knows, Arity::Many, FieldType::Record(schema)),
                ],
            };
        }
        schema
    };
    let a = interpretation.resources_for(&iri_term("http://example.org/A"))[0];
    let read = deserialize_resource(&person(2), &interpretation, &dataset, None, a).unwrap();
    let id = |iri: &str| FieldValue::Id(Id::Iri(iri.to_string()));
    assert_eq!(
        read,
        Record {
            fields: vec![
                id("http://example.org/A"),
                FieldValue::Objects(vec![text("a")]),
                FieldValue::Objects(vec![Value::Record(Record {
                    fields: vec![
                        id("http://example.org/B"),
                        FieldValue::Objects(vec![text("b")]),
                        FieldValue::Objects(vec![Value::Record(Record {
                            // The second occurrence of A is its identity only.
                            fields: vec![id("http://example.org/A"), FieldValue::Objects(Vec::new())],
                        })]),
                    ],
                })]),
            ],
        }
    );
}

#[test]
fn loading_gives_equal_terms_the_same_resource() {
    let mut interpretation = Interpretation::new();
    let mut dataset = Dataset::new();
    let first = quad("http://example.org/s", "http://example.org/p", iri_term("http://example.org/o"));
    let second = quad("http://example.org/o", "http://example.org/p", iri_term("http://example.org/s"));
    assert_eq!(load_quad(&mut interpretation, &mut dataset, &first), Some(true));
    assert_eq!(load_quad(&mut interpretation, &mut dataset, &first), Some(false));
    assert_eq!(load_quad(&mut interpretation, &mut dataset, &second), Some(true));
    assert_eq!(interpretation.len(), 3);
    assert_eq!(dataset.len(), 2);
    assert_eq!(dataset.objects_of(None, 0, 1), vec![2]);
    assert_eq!(dataset.objects_of(None, 2, 1), vec![0]);
    let labelled = Quad { graph: Some(Id::Iri("http://example.org/g".to_string())), ..first };
    assert_eq!(load_quad(&mut interpretation, &mut dataset, &labelled), Some(true));
    assert_eq!(dataset.objects_of(Some(3), 0, 1), vec![2]);
    let looped = quad("http://example.org/n", "http://example.org/p", iri_term("http://example.org/n"));
    assert_eq!(load_quad(&mut interpretation, &mut dataset, &looped), None);
    assert_eq!(dataset.len(), 3);
}
