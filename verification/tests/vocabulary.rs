use linked_data::interpretation::Interpretation;
use linked_data::rdf::{Id, Literal, LiteralType, Term};
use linked_data::vocabulary::{BlankHandle, IriHandle, LiteralHandle, Vocabulary};

fn literal(value: &str, datatype: &str) -> Literal {
    Literal { value: value.to_string(), type_: LiteralType::Any(datatype.to_string()) }
}

#[test]
fn interning_twice_gives_the_same_handle() {
    let mut vocabulary = Vocabulary::new();
    let a = vocabulary.intern_iri("http://example.org/a");
    let b = vocabulary.intern_iri("http://example.org/b");
    assert_eq!(a, IriHandle(0));
    assert_eq!(b, IriHandle(1));
    assert_eq!(vocabulary.intern_iri("http://example.org/a"), a);
    assert_eq!(vocabulary.intern_iri("http://example.org/b"), b);
    assert_eq!(vocabulary.iris.len(), 2);
}

#[test]
fn resolving_gives_back_what_was_interned() {
    let mut vocabulary = Vocabulary::new();
    let iri = vocabulary.intern_iri("http://example.org/a");
    let blank = vocabulary.intern_blank("_:b0");
    let text = literal("a", "http://www.w3.org/2001/XMLSchema#string");
    let lit = vocabulary.intern_literal(&text);
    assert_eq!(vocabulary.iri(iri), Some(&"http://example.org/a".to_string()));
    assert_eq!(vocabulary.blank_id(blank), Some(&"_:b0".to_string()));
    assert_eq!(vocabulary.literal(lit), Some(&text));
    assert_eq!(vocabulary.intern_blank("_:b0"), blank);
    assert_eq!(vocabulary.intern_literal(&text), lit);
}

#[test]
fn unknown_handles_resolve_to_nothing() {
    let vocabulary = Vocabulary::new();
    assert_eq!(vocabulary.iri(IriHandle(0)), None);
    assert_eq!(vocabulary.blank_id(BlankHandle(3)), None);
    assert_eq!(vocabulary.literal(LiteralHandle(1)), None);
}

#[test]
fn literals_differ_by_value_and_by_type() {
    let mut vocabulary = Vocabulary::new();
    let a = vocabulary.intern_literal(&literal("1", "http://www.w3.org/2001/XMLSchema#string"));
    let b = vocabulary.intern_literal(&literal("1", "http://www.w3.org/2001/XMLSchema#int"));
    let c = vocabulary.intern_literal(&Literal {
        value: "1".to_string(),
        type_: LiteralType::LangString("http://www.w3.org/2001/XMLSchema#int".to_string()),
    });
    assert_eq!((a, b, c), (LiteralHandle(0), LiteralHandle(1), LiteralHandle(2)));
}

#[test]
fn interpretation_gives_one_resource_per_term() {
    let mut interpretation = Interpretation::new();
    let a = interpretation.interpret_iri("http://example.org/a".to_string());
    let anonymous = interpretation.new_resource();
    let b = interpretation.interpret_blank_id("_:b".to_string());
    assert_eq!((a, anonymous, b), (0, 1, 2));
    assert_eq!(interpretation.interpret_iri("http://example.org/a".to_string()), a);
    assert_eq!(interpretation.new_resource(), 3);
    assert_eq!(interpretation.len(), 4);
    let term = Term::Id(Id::Iri("http://example.org/a".to_string()));
    assert_eq!(interpretation.resources_for(&term), vec![a]);
    assert_eq!(
        interpretation.resources_for(&Term::Id(Id::Iri("http://example.org/z".to_string()))),
        Vec::<usize>::new()
    );
    assert_eq!(interpretation.term_of(a), Some(&term));
    assert_eq!(interpretation.term_of(anonymous), None);
    assert_eq!(interpretation.term_of(17), None);
    assert_eq!(interpretation.iri_of(a), Some(&"http://example.org/a".to_string()));
    assert_eq!(interpretation.iri_of(b), None);
}
