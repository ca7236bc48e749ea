use linked_data::generate::generate;
use linked_data::schema::{
    expand, expand_text, expanded, Arity, FieldAttributes, FieldSchema, FieldType, Prefix,
    SchemaError, TypeAttributes, TypeSchema, TypeStatement,
};
use linked_data::sparql::query::{generate as generate_queries, SparqlQueries};
use linked_data::sparql::SparqlQueryGenerator;

fn prefixes() -> Vec<Prefix> {
    vec![
        Prefix { name: "ex".to_string(), iri: "http://example.org/".to_string() },
        Prefix { name: "ex".to_string(), iri: "http://shadowed.example/".to_string() },
        Prefix { name: "".to_string(), iri: "http://default.example/".to_string() },
    ]
}

fn field(name: &str, iri: Option<&str>) -> FieldAttributes {
    FieldAttributes {
        name: name.to_string(),
        ignore: false,
        is_id: false,
        flatten: false,
        iri: iri.map(|i| i.to_string()),
        arity: Arity::One,
        type_: FieldType::Literal(None),
    }
}

#[test]
fn a_declared_prefix_expands() {
    assert_eq!(expand_text(&prefixes(), "ex:name"), "http://example.org/name");
    assert_eq!(expand_text(&prefixes(), "ex:"), "http://example.org/");
    assert_eq!(expand_text(&prefixes(), ":name"), "http://default.example/name");
    assert_eq!(expand_text(&prefixes(), "ex:a:b"), "http://example.org/a:b");
}

#[test]
fn other_texts_stand_for_themselves() {
    assert_eq!(expand_text(&prefixes(), "dc:title"), "dc:title");
    assert_eq!(expand_text(&prefixes(), "name"), "name");
    assert_eq!(expand_text(&prefixes(), ""), "");
    assert_eq!(expand_text(&prefixes(), "ex://host/path"), "ex://host/path");
    assert_eq!(expand_text(&prefixes(), "http://example.org/x"), "http://example.org/x");
    assert_eq!(expand_text(&Vec::new(), "ex:name"), "ex:name");
}

#[test]
fn an_expansion_must_be_an_iri() {
    assert_eq!(expand(&prefixes(), &"ex:name".to_string()), Ok("http://example.org/name".to_string()));
    assert_eq!(expand(&prefixes(), &"dc:title".to_string()), Ok("dc:title".to_string()));
    assert_eq!(
        expand(&prefixes(), &"no colon here".to_string()),
        Err(SchemaError::InvalidIri("no colon here".to_string()))
    );
    assert_eq!(
        expand(&prefixes(), &"ex:with space".to_string()),
        Err(SchemaError::InvalidIri("ex:with space".to_string()))
    );
    assert_eq!(expand(&prefixes(), &"".to_string()), Err(SchemaError::InvalidIri(String::new())));
}

#[test]
fn expanded_goes_by_what_it_is_told() {
    assert_eq!(expanded("a".to_string(), "b".to_string(), true), Ok("b".to_string()));
    assert_eq!(
        expanded("a".to_string(), "b".to_string(), false),
        Err(SchemaError::InvalidIri("a".to_string()))
    );
}

#[test]
fn a_declaration_becomes_a_schema() {
    let attrs = TypeAttributes { prefixes: prefixes(), type_: Some("ex:Person".to_string()) };
    let nested = TypeSchema { type_: None, fields: vec![FieldSchema::Ignore] };
    let fields = vec![
        FieldAttributes { is_id: true, ..field("id", None) },
        field("name", Some("ex:name")),
        FieldAttributes { arity: Arity::Many, type_: FieldType::Iri, ..field("knows", Some("ex:knows")) },
        FieldAttributes { ignore: true, is_id: true, ..field("cache", None) },
        FieldAttributes {
            flatten: true,
            type_: FieldType::Record(TypeSchema { type_: None, fields: vec![FieldSchema::Ignore] }),
            ..field("more", None)
        },
    ];
    let schema = generate(&attrs, fields).unwrap();
    assert_eq!(
        schema,
        TypeSchema {
            type_: Some(TypeStatement {
                predicate: "http://www.w3.org/1999/02/22-rdf-syntax-ns#type".to_string(),
                type_iri: "http://example.org/Person".to_string(),
            }),
            fields: vec![
                FieldSchema::Id,
                FieldSchema::Property {
                    iri: "http://example.org/name".to_string(),
                    arity: Arity::One,
                    type_: FieldType::Literal(None),
                },
                FieldSchema::Property {
                    iri: "http://example.org/knows".to_string(),
                    arity: Arity::Many,
                    type_: FieldType::Iri,
                },
                FieldSchema::Ignore,
                FieldSchema::Flatten(nested),
            ],
        }
    );
}

#[test]
fn the_first_field_in_error_fails_the_declaration() {
    let attrs = TypeAttributes { prefixes: prefixes(), type_: Some("not an iri".to_string()) };
    assert_eq!(
        generate(&attrs, vec![field("a", Some("ex:a")), field("b", None), field("c", Some("c c"))]),
        Err(SchemaError::UnknownFieldSerializationMethod(1))
    );
    assert_eq!(
        generate(&attrs, vec![field("a", Some("ex:a")), field("c", Some("c c")), field("b", None)]),
        Err(SchemaError::InvalidIri("c c".to_string()))
    );
    assert_eq!(
        generate(&attrs, vec![FieldAttributes { flatten: true, ..field("a", Some("ex:a")) }]),
        Err(SchemaError::FlattenedValue(0))
    );
    assert_eq!(
        generate(&attrs, vec![field("a", Some("ex:a"))]),
        Err(SchemaError::InvalidIri("not an iri".to_string()))
    );
    assert_eq!(generate(&attrs, Vec::new()), Err(SchemaError::InvalidIri("not an iri".to_string())));
}

#[test]
fn list_query_has_one_pattern_per_field() {
    let attrs = TypeAttributes { prefixes: prefixes(), type_: None };
    let fields = vec![field("title", Some("dc:hasTitle"))];
    let queries = generate_queries(&attrs, &fields).unwrap();
    assert_eq!(
        queries.generate_list_query(),
        "CONSTRUCT { ?title <dc:hasTitle> ?title_value .  } WHERE { ?title <dc:hasTitle> ?title_value . }"
    );
    assert_eq!(queries.generate_get_query("http://example.org/book"), "");
}

#[test]
fn list_query_leaves_out_ignored_and_flattened_fields() {
    let attrs = TypeAttributes { prefixes: prefixes(), type_: None };
    let fields = vec![
        field("name", Some("ex:name")),
        FieldAttributes { ignore: true, ..field("cache", None) },
        FieldAttributes { flatten: true, ..field("more", Some("ex:more")) },
        field("email", Some("ex:email")),
    ];
    let queries = generate_queries(&attrs, &fields).unwrap();
    assert_eq!(
        queries.list,
        "CONSTRUCT { ?name <http://example.org/name> ?name_value . ?email <http://example.org/email> ?email_value .  } WHERE { ?name <http://example.org/name> ?name_value .?email <http://example.org/email> ?email_value . }"
    );
    assert_eq!(
        generate_queries(&attrs, &Vec::new()).unwrap().list,
        "CONSTRUCT {  } WHERE {  }"
    );
}

#[test]
fn list_query_needs_a_predicate_for_every_field() {
    let attrs = TypeAttributes { prefixes: prefixes(), type_: None };
    let missing = vec![field("a", Some("ex:a")), FieldAttributes { is_id: true, ..field("id", None) }];
    assert_eq!(
        generate_queries(&attrs, &missing).err(),
        Some(SchemaError::UnknownFieldSerializationMethod(1))
    );
    let invalid = vec![FieldAttributes { flatten: true, ..field("a", Some("a b")) }];
    assert_eq!(
        generate_queries(&attrs, &invalid).err(),
        Some(SchemaError::InvalidIri("a b".to_string()))
    );
}

#[test]
fn generated_queries_are_a_query_generator() {
    let queries = SparqlQueries { list: "CONSTRUCT {  } WHERE {  }".to_string() };
    assert_eq!(queries.generate_list_query(), "CONSTRUCT {  } WHERE {  }");
    assert_eq!(queries.generate_get_query("x"), "");
}
