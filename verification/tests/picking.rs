use linked_data::context::ContextIris;
use linked_data::dataset::Dataset;
use linked_data::de::{
    deserialize_pick, deserialize_subject, deserialize_value, is_anonymous, is_picking,
};
use linked_data::error::FromLinkedDataError;
use linked_data::generate::subject;
use linked_data::interpretation::Interpretation;
use linked_data::rdf::{Id, Literal, LiteralType, Term};
use linked_data::record::{describe_value, FieldValue, Record, Value};
use linked_data::schema::{
    Arity, Data, DeriveInput, FieldAttributes, FieldSchema, FieldType, SchemaError, TypeAttributes,
    TypeSchema,
};
use linked_data::sparql::domain::SparqlDomain;
use linked_data::sparql::SparqlVariable;
use linked_data::{
    LinkedDataDeserialize, LinkedDataGraph, LinkedDataPredicateObjects, LinkedDataSubject,
    ResourceInterpretation,
};

fn literal(value: &str) -> Literal {
    Literal {
        value: value.to_string(),
        type_: LiteralType::Any("http://www.w3.org/2001/XMLSchema#string".to_string()),
    }
}

fn text_node(value: &str) -> LinkedDataSubject {
    LinkedDataSubject::new(ResourceInterpretation::Uninterpreted(Some(Term::Literal(literal(value)))))
}

fn entry(iri: &str, objects: Vec<LinkedDataSubject>) -> LinkedDataPredicateObjects {
    LinkedDataPredicateObjects { predicate: ResourceInterpretation::iri(iri.to_string()), objects }
}

/// A record without identity that has one name.
fn named_schema() -> TypeSchema {
    TypeSchema {
        type_: None,
        fields: vec![FieldSchema::Property {
            iri: "http://example.org/name".to_string(),
            arity: Arity::One,
            type_: FieldType::Literal(None),
        }],
    }
}

fn named_node(identity: ResourceInterpretation, name: &str) -> LinkedDataSubject {
    LinkedDataSubject {
        identity,
        predicates: vec![entry("http://example.org/name", vec![text_node(name)])],
    }
}

fn named_record(name: &str) -> Value {
    Value::Record(Record { fields: vec![FieldValue::Objects(vec![Value::Literal(literal(name))])] })
}

fn context() -> ContextIris {
    ContextIris::Object { subject: None, predicate: Some("http://example.org/p".to_string()) }
}

#[test]
fn a_type_without_identity_field_is_anonymous() {
    assert!(is_anonymous(&named_schema()));
    assert!(is_anonymous(&TypeSchema { type_: None, fields: Vec::new() }));
    assert!(!is_anonymous(&TypeSchema { type_: None, fields: vec![FieldSchema::Ignore, FieldSchema::Id] }));
    assert!(is_picking(Arity::One, &FieldType::Record(named_schema())));
    assert!(is_picking(Arity::Optional, &FieldType::Record(named_schema())));
    assert!(!is_picking(Arity::Many, &FieldType::Record(named_schema())));
    assert!(!is_picking(Arity::One, &FieldType::Literal(None)));
    assert!(!is_picking(Arity::One, &FieldType::Iri));
    assert!(!is_picking(
        Arity::One,
        &FieldType::Record(TypeSchema { type_: None, fields: vec![FieldSchema::Id] })
    ));
}

#[test]
fn an_anonymous_record_is_the_first_object_that_fits() {
    let interpretation = Interpretation::new();
    let type_ = FieldType::Record(named_schema());
    let objects = vec![
        text_node("no record"),
        LinkedDataSubject::new(ResourceInterpretation::iri("http://example.org/empty".to_string())),
        named_node(ResourceInterpretation::anonymous(), "first"),
        named_node(ResourceInterpretation::iri("http://example.org/x".to_string()), "second"),
    ];
    assert_eq!(
        deserialize_pick(Arity::One, &type_, &interpretation, &objects, context()),
        Ok(vec![named_record("first")])
    );
    assert_eq!(
        deserialize_pick(Arity::Optional, &type_, &interpretation, &objects, context()),
        Ok(vec![named_record("first")])
    );
}

#[test]
fn picking_fails_as_its_first_object_where_none_fits() {
    let interpretation = Interpretation::new();
    let type_ = FieldType::Record(named_schema());
    let objects = vec![
        LinkedDataSubject {
            identity: ResourceInterpretation::iri("http://example.org/s".to_string()),
            predicates: vec![entry("http://example.org/name", vec![text_node("a"), text_node("b")])],
        },
        text_node("no record"),
    ];
    assert_eq!(
        deserialize_pick(Arity::One, &type_, &interpretation, &objects, context()),
        Err(FromLinkedDataError::TooManyValues(ContextIris::Object {
            subject: Some("http://example.org/s".to_string()),
            predicate: Some("http://example.org/name".to_string()),
        }))
    );
    assert_eq!(
        deserialize_pick(Arity::One, &type_, &interpretation, &Vec::new(), context()),
        Err(FromLinkedDataError::MissingRequiredValue(context()))
    );
    assert_eq!(
        deserialize_pick(Arity::Optional, &type_, &interpretation, &Vec::new(), context()),
        Ok(Vec::new())
    );
}

#[test]
fn a_record_picks_its_anonymous_part_among_the_objects() {
    let interpretation = Interpretation::new();
    let schema = TypeSchema {
        type_: None,
        fields: vec![FieldSchema::Property {
            iri: "http://example.org/part".to_string(),
            arity: Arity::One,
            type_: FieldType::Record(named_schema()),
        }],
    };
    let node = LinkedDataSubject {
        identity: ResourceInterpretation::anonymous(),
        predicates: vec![entry(
            "http://example.org/part",
            vec![text_node("no record"), named_node(ResourceInterpretation::anonymous(), "part")],
        )],
    };
    assert_eq!(
        deserialize_subject(&schema, &interpretation, &node),
        Ok(Record { fields: vec![FieldValue::Objects(vec![named_record("part")])] })
    );
}

#[test]
fn a_structure_gives_its_schema_and_a_union_none() {
    let attrs = || TypeAttributes { prefixes: Vec::new(), type_: None };
    let field = FieldAttributes {
        name: "name".to_string(),
        ignore: false,
        is_id: false,
        flatten: false,
        iri: Some("http://example.org/name".to_string()),
        arity: Arity::One,
        type_: FieldType::Literal(None),
    };
    assert_eq!(
        subject(DeriveInput { attrs: attrs(), data: Data::Struct(vec![field]) }),
        Ok(named_schema())
    );
    assert_eq!(
        subject(DeriveInput { attrs: attrs(), data: Data::Union }),
        Err(SchemaError::UnionType)
    );
}

#[test]
fn a_graph_is_read_from_the_default_graph_of_a_dataset() {
    let interpretation = Interpretation::new();
    let mut dataset = Dataset::new();
    dataset.insert(1, 10, 2, None);
    dataset.insert(2, 10, 3, None);
    dataset.insert(4, 10, 5, Some(7));
    let mut subjects = dataset.subjects();
    subjects.sort();
    assert_eq!(subjects, vec![1, 2, 4]);
    let graph = LinkedDataGraph::deserialize_dataset(&interpretation, &dataset).unwrap();
    let mut read: Vec<usize> = graph
        .subjects
        .iter()
        .map(|s| match s.identity {
            ResourceInterpretation::Interpreted(r) => r,
            ResourceInterpretation::Uninterpreted(_) => panic!("subjects are resources"),
        })
        .collect();
    read.sort();
    assert_eq!(read, vec![1, 2]);
    for subject in &graph.subjects {
        assert_eq!(subject.predicates.len(), 1);
        assert_eq!(subject.predicates[0].predicate, ResourceInterpretation::Interpreted(10));
        assert_eq!(subject.predicates[0].objects.len(), 1);
    }
    let empty = LinkedDataGraph::deserialize_dataset(&interpretation, &Dataset::new()).unwrap();
    assert_eq!(empty, LinkedDataGraph::new());
}

#[test]
fn a_variable_is_the_same_as_subject_and_as_object() {
    let variable = SparqlVariable("?a".to_string());
    assert_eq!(SparqlDomain::object_as_subject(&variable).0, "?a");
    assert_eq!(SparqlDomain::subject_as_object(&variable).0, "?a");
    assert_eq!(SparqlDomain::object_as_ref(&variable).0, "?a");
    assert_eq!(SparqlDomain::cloned_object_ref(&variable).0, "?a");
}

#[test]
fn terms_compare_by_what_they_hold() {
    let iri = Term::iri("http://example.org/a".to_string());
    let blank = Term::blank("http://example.org/a".to_string());
    assert_eq!(iri, iri.clone());
    assert_ne!(iri, blank);
    assert_eq!(iri.as_id(), Some(&Id::Iri("http://example.org/a".to_string())));
    assert_eq!(Term::Literal(literal("a")).as_id(), None);
    assert_ne!(Term::Literal(literal("a")), Term::Literal(literal("b")));
    assert_ne!(
        Term::Literal(literal("a")),
        Term::Literal(Literal { value: "a".to_string(), type_: LiteralType::LangString("en".to_string()) })
    );
}

#[test]
fn a_literal_must_have_the_datatype_that_its_field_expects() {
    let interpretation = Interpretation::new();
    let string = "http://www.w3.org/2001/XMLSchema#string".to_string();
    let expecting = FieldType::Literal(Some(string.clone()));
    let int = Literal {
        value: "1".to_string(),
        type_: LiteralType::Any("http://www.w3.org/2001/XMLSchema#int".to_string()),
    };
    let tagged = Literal { value: "un".to_string(), type_: LiteralType::LangString("fr".to_string()) };
    let node = |literal: &Literal| {
        LinkedDataSubject::new(ResourceInterpretation::Uninterpreted(Some(Term::Literal(
            literal.clone(),
        ))))
    };
    assert_eq!(
        deserialize_value(&expecting, &interpretation, &node(&literal("a")), &context()),
        Ok(Value::Literal(literal("a")))
    );
    assert_eq!(
        deserialize_value(&expecting, &interpretation, &node(&int), &context()),
        Err(FromLinkedDataError::LiteralTypeMismatch {
            context: context(),
            expected: Some(string.clone()),
            found: "http://www.w3.org/2001/XMLSchema#int".to_string(),
        })
    );
    assert_eq!(
        deserialize_value(&expecting, &interpretation, &node(&tagged), &context()),
        Err(FromLinkedDataError::LiteralTypeMismatch {
            context: context(),
            expected: Some(string),
            found: "http://www.w3.org/1999/02/22-rdf-syntax-ns#langString".to_string(),
        })
    );
    assert_eq!(
        deserialize_value(&FieldType::Literal(None), &interpretation, &node(&tagged), &context()),
        Ok(Value::Literal(tagged.clone()))
    );
    assert_eq!(describe_value(&expecting, &Value::Literal(int)), None);
    assert_eq!(describe_value(&expecting, &Value::Literal(tagged)), None);
    assert_eq!(describe_value(&expecting, &Value::Literal(literal("a"))), Some(node(&literal("a"))));
}
