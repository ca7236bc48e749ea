use linked_data::rdf::{Id, Literal, LiteralType, Quad, Term};
use linked_data::sparql::domain::{render_pattern, render_query, SparqlDomain};
use linked_data::sparql::interpretation::SparqlInterpretation;
use linked_data::sparql::SparqlVariable;

fn iri(text: &str) -> Id {
    Id::Iri(text.to_string())
}

fn text(value: &str) -> Term {
    Term::Literal(Literal {
        value: value.to_string(),
        type_: LiteralType::Any("http://www.w3.org/2001/XMLSchema#string".to_string()),
    })
}

fn quad(subject: &str, predicate: &str, object: Term) -> Quad {
    Quad { subject: iri(subject), predicate: predicate.to_string(), object, graph: None }
}

#[test]
fn variable_names_start_with_single_letters() {
    assert_eq!(SparqlVariable::from_index(0).0, "?a");
    assert_eq!(SparqlVariable::from_index(1).0, "?b");
    assert_eq!(SparqlVariable::from_index(25).0, "?z");
}

#[test]
fn variable_names_extend_past_the_alphabet() {
    assert_eq!(SparqlVariable::from_index(26).0, "?aa");
    assert_eq!(SparqlVariable::from_index(27).0, "?ab");
    assert_eq!(SparqlVariable::from_index(51).0, "?az");
    assert_eq!(SparqlVariable::from_index(52).0, "?ba");
    assert_eq!(SparqlVariable::from_index(701).0, "?zz");
    assert_eq!(SparqlVariable::from_index(702).0, "?aaa");
}

#[test]
fn variable_names_never_collide() {
    let mut seen = std::collections::HashSet::new();
    for index in 0..2000 {
        assert!(seen.insert(SparqlVariable::from_index(index).0));
    }
}

#[test]
fn variable_renders_as_its_name() {
    assert_eq!(SparqlVariable("?x".to_string()).rdf_fmt(), "?x");
}

#[test]
fn add_term_gives_one_variable_per_term() {
    let mut interpretation = SparqlInterpretation::new();
    let a = interpretation.add_term(Term::Id(iri("http://example.org/a")));
    let b = interpretation.add_term(text("a"));
    let again = interpretation.add_term(Term::Id(iri("http://example.org/a")));
    assert_eq!(a.0, "?a");
    assert_eq!(b.0, "?b");
    assert_eq!(again.0, "?a");
    assert_eq!(interpretation.next_var_index(), 2);
}

#[test]
fn an_iri_and_a_blank_of_the_same_text_are_two_terms() {
    let mut interpretation = SparqlInterpretation::new();
    let first = interpretation.interpret_iri("_:b0".to_string());
    let second = interpretation.interpret_blank_id("_:b0".to_string());
    let third = interpretation.interpret_literal(Literal {
        value: "_:b0".to_string(),
        type_: LiteralType::LangString("en".to_string()),
    });
    assert_eq!(first.0, "?a");
    assert_eq!(second.0, "?b");
    assert_eq!(third.0, "?c");
}

#[test]
fn new_resource_takes_the_next_variable() {
    let mut interpretation = SparqlInterpretation::new();
    assert_eq!(interpretation.new_resource().0, "?a");
    assert_eq!(interpretation.add_term(text("x")).0, "?b");
    assert_eq!(interpretation.new_resource().0, "?c");
    assert_eq!(interpretation.next_var_index(), 3);
    assert_eq!(interpretation.variable_of(&text("x")).map(|v| v.0), Some("?b".to_string()));
    assert!(interpretation.variable_of(&text("y")).is_none());
}

#[test]
fn domain_replaces_subjects_and_objects_and_keeps_predicates() {
    let mut interpretation = SparqlInterpretation::new();
    let subject = SparqlDomain::subject(&mut interpretation, &iri("http://example.org/s"));
    let object = SparqlDomain::object(&mut interpretation, &Term::Id(iri("http://example.org/s")));
    let graph = SparqlDomain::graph(&mut interpretation, &iri("http://example.org/g"));
    assert_eq!(subject.0, "?a");
    assert_eq!(object.0, "?a");
    assert_eq!(graph.0, "?b");
    assert_eq!(SparqlDomain::predicate(&"http://example.org/p".to_string()), "<http://example.org/p>");
}

#[test]
fn query_of_two_quads_of_one_subject() {
    let quads = vec![
        quad("http://example.org/JohnSmith", "http://example.org/name", text("John Smith")),
        quad("http://example.org/JohnSmith", "http://example.org/email", text("john.smith@example.org")),
    ];
    let pattern = "  ?a <http://example.org/name> ?b .\n  ?a <http://example.org/email> ?c .";
    assert_eq!(render_pattern(&quads), Some(pattern.to_string()));
    assert_eq!(
        render_query(&quads),
        Some(format!("SELECT {{\n{pattern}\n}}\nWHERE {{\n{pattern}\n}}"))
    );
}

#[test]
fn query_of_no_quad_has_an_empty_pattern() {
    assert_eq!(render_pattern(&Vec::new()), Some(String::new()));
    assert_eq!(render_query(&Vec::new()), Some("SELECT {\n\n}\nWHERE {\n\n}".to_string()));
}

#[test]
fn rendering_twice_gives_the_same_text() {
    let quads = vec![
        quad("http://example.org/a", "http://example.org/p", Term::Id(iri("http://example.org/b"))),
        quad("http://example.org/b", "http://example.org/p", Term::Id(iri("http://example.org/a"))),
        quad("http://example.org/b", "http://example.org/q", text("b")),
    ];
    let first = render_query(&quads);
    let second = render_query(&quads);
    assert_eq!(first, second);
    let pattern = "  ?a <http://example.org/p> ?b .\n  ?b <http://example.org/p> ?a .\n  ?b <http://example.org/q> ?c .";
    assert_eq!(render_pattern(&quads), Some(pattern.to_string()));
}

#[test]
fn rendering_more_terms_than_letters_extends_the_names() {
    let mut quads = Vec::new();
    for i in 0..30 {
        quads.push(quad(
            "http://example.org/s",
            "http://example.org/p",
            text(&format!("value {i}")),
        ));
    }
    let pattern = render_pattern(&quads).unwrap();
    let lines: Vec<&str> = pattern.split('\n').collect();
    assert_eq!(lines.len(), 30);
    assert_eq!(lines[0], "  ?a <http://example.org/p> ?b .");
    assert_eq!(lines[24], "  ?a <http://example.org/p> ?z .");
    assert_eq!(lines[25], "  ?a <http://example.org/p> ?aa .");
    assert_eq!(lines[29], "  ?a <http://example.org/p> ?ae .");
}
