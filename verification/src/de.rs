//! Reading records back from what subjects say of themselves.
use vstd::prelude::*;
use crate::context::{
    option_string_view, Context, ContextIris, ContextIrisView, ResourceOrIriRef,
};
use crate::error::{plain_error, type_mismatch, ErrorKind, ErrorView, FromLinkedDataError};
use crate::interpretation::Interpretation;
use crate::quads::term_of;
use crate::rdf::{Id, LiteralType, Term};
use crate::record::{
    field_shape, lemma_objects_shape, literal_type_fits, record_shape, type_fits, value_shape,
    value_shapes, FieldShape, FieldValue, Record, RecordShape, Value, ValueShape,
};
use crate::resource::ResourceInterpretation;
use crate::schema::{Arity, FieldSchema, FieldType, TypeSchema};
use crate::shape::{
    lemma_predicate_shape, lemma_subject_shape, predicate_shape, predicate_shapes, subject_shape,
    subject_shapes, PredicateShape, SubjectShape,
};
use crate::subject::LinkedDataSubject;

verus! {

/// The term that an identity stands for: that of the resource, or the raw
/// term, or none.
pub open spec fn identity_term(terms: Seq<Option<Term>>, identity: ResourceInterpretation) -> Option<
    Term,
> {
    match identity {
        ResourceInterpretation::Interpreted(resource) => term_of(terms, resource),
        ResourceInterpretation::Uninterpreted(term) => term,
    }
}

/// The IRI that an identity stands for, if it stands for one.
pub open spec fn identity_iri(terms: Seq<Option<Term>>, identity: ResourceInterpretation) -> Option<
    String,
> {
    match identity_term(terms, identity) {
        Some(Term::Id(Id::Iri(iri))) => Some(iri),
        _ => None,
    }
}

/// Place of the first predicate of IRI `iri` at or after `from`, or the
/// number of predicates.
pub open spec fn predicate_from(
    terms: Seq<Option<Term>>,
    predicates: Seq<PredicateShape>,
    iri: Seq<char>,
    from: int,
) -> int
    decreases predicates.len() - from,
{
    if from < 0 || from >= predicates.len() {
        predicates.len() as int
    } else if option_string_view(identity_iri(terms, predicates[from].predicate)) == Some(iri) {
        from
    } else {
        predicate_from(terms, predicates, iri, from + 1)
    }
}

/// The objects that a subject has for the predicate of IRI `iri`: those of
/// the first predicate of that IRI, or none.
pub open spec fn objects_for(
    terms: Seq<Option<Term>>,
    predicates: Seq<PredicateShape>,
    iri: Seq<char>,
) -> Seq<SubjectShape> {
    let place = predicate_from(terms, predicates, iri, 0);
    if place < predicates.len() {
        predicates[place].objects
    } else {
        Seq::empty()
    }
}

/// Context of the objects that `subject` has for the predicate `iri`.
pub open spec fn object_context(
    terms: Seq<Option<Term>>,
    subject: ResourceInterpretation,
    iri: Seq<char>,
) -> ContextIrisView {
    ContextIrisView::Object {
        subject: option_string_view(identity_iri(terms, subject)),
        predicate: Some(iri),
    }
}

/// The error of a field that has `count` objects where its arity takes
/// another number: none where one is required, or more than one where at
/// most one is taken.
pub open spec fn arity_error(arity: Arity, count: nat) -> Option<ErrorKind> {
    match arity {
        Arity::One => if count == 0 {
            Some(ErrorKind::MissingRequiredValue)
        } else if count > 1 {
            Some(ErrorKind::TooManyValues)
        } else {
            None
        },
        Arity::Optional => if count > 1 {
            Some(ErrorKind::TooManyValues)
        } else {
            None
        },
        Arity::Many => None,
    }
}

/// The IRI of the type of language-tagged strings.
pub open spec fn rdf_lang_string() -> Seq<char> {
    "http://www.w3.org/1999/02/22-rdf-syntax-ns#langString"@
}

/// The IRI of the type of a literal: its datatype, or that of
/// language-tagged strings.
pub open spec fn type_iri(type_: LiteralType) -> Seq<char> {
    match type_ {
        LiteralType::Any(datatype) => datatype@,
        LiteralType::LangString(_) => rdf_lang_string(),
    }
}

/// Reads one object of a field: a literal field takes a literal of the type
/// it expects, an IRI field an IRI, a record field what [`read_record`]
/// reads.
pub open spec fn read_value(
    type_: FieldType,
    terms: Seq<Option<Term>>,
    node: SubjectShape,
    context: ContextIrisView,
) -> Result<ValueShape, ErrorView>
    decreases type_, 0nat,
{
    match type_ {
        FieldType::Literal(expected) => match identity_term(terms, node.identity) {
            Some(Term::Literal(literal)) => if literal_type_fits(expected, literal) {
                Ok(ValueShape::Literal(literal))
            } else {
                Err(type_mismatch(context, option_string_view(expected), type_iri(literal.type_)))
            },
            _ => Err(plain_error(ErrorKind::ExpectedLiteral, context)),
        },
        FieldType::Iri => match identity_term(terms, node.identity) {
            Some(Term::Id(Id::Iri(iri))) => Ok(ValueShape::Iri(iri)),
            _ => Err(plain_error(ErrorKind::ExpectedIri, context)),
        },
        FieldType::Record(nested) => match read_record(nested, terms, node) {
            Ok(record) => Ok(ValueShape::Record(record)),
            Err(e) => Err(e),
        },
    }
}

/// Reads the first `upto` objects of a field, in order; the first error
/// ends the reading.
pub open spec fn read_values(
    type_: FieldType,
    terms: Seq<Option<Term>>,
    objects: Seq<SubjectShape>,
    context: ContextIrisView,
    upto: int,
) -> Result<Seq<ValueShape>, ErrorView>
    decreases type_, 1nat, upto,
{
    if upto <= 0 || upto > objects.len() {
        Ok(Seq::empty())
    } else {
        match read_values(type_, terms, objects, context, upto - 1) {
            Err(e) => Err(e),
            Ok(values) => match read_value(type_, terms, objects[upto - 1], context) {
                Err(e) => Err(e),
                Ok(value) => Ok(values.push(value)),
            },
        }
    }
}

/// Whether records of the type have no identity field: such a record can
/// be any subject that fits its shape.
pub open spec fn anonymous(schema: TypeSchema) -> bool {
    forall|i: int| 0 <= i < schema.fields@.len() ==> !(#[trigger] schema.fields@[i] is Id)
}

/// Whether a field picks its object among those offered: it takes one
/// object at most, and its objects are records without identity.
pub open spec fn picks(arity: Arity, type_: FieldType) -> bool {
    !(arity is Many) && (type_ matches FieldType::Record(nested) && anonymous(nested))
}

/// The first object at or after `from` that can be read as an object of the
/// field, read; or nothing if there is none. The order is that in which the
/// subject states its objects.
pub open spec fn first_fit(
    type_: FieldType,
    terms: Seq<Option<Term>>,
    objects: Seq<SubjectShape>,
    context: ContextIrisView,
    from: int,
) -> Option<ValueShape>
    decreases type_, 1nat, objects.len() - from,
{
    if from < 0 || from >= objects.len() {
        None
    } else {
        match read_value(type_, terms, objects[from], context) {
            Ok(value) => Some(value),
            Err(_) => first_fit(type_, terms, objects, context, from + 1),
        }
    }
}

/// What a field that picks its object reads: the first object that fits.
/// Where no object fits, the error is that of the first object; where there
/// is no object, a value is missing if one is required.
pub open spec fn read_pick(
    arity: Arity,
    type_: FieldType,
    terms: Seq<Option<Term>>,
    objects: Seq<SubjectShape>,
    context: ContextIrisView,
) -> Result<Seq<ValueShape>, ErrorView>
    decreases type_, 2nat,
{
    match first_fit(type_, terms, objects, context, 0) {
        Some(value) => Ok(seq![value]),
        None => if objects.len() == 0 {
            if arity is One {
                Err(plain_error(ErrorKind::MissingRequiredValue, context))
            } else {
                Ok(Seq::empty())
            }
        } else {
            match read_value(type_, terms, objects[0], context) {
                Err(e) => Err(e),
                Ok(value) => Ok(seq![value]),
            }
        },
    }
}

/// What a field that takes every object offered reads: the objects, as
/// many as its arity takes, each read in turn.
pub open spec fn read_all(
    arity: Arity,
    type_: FieldType,
    terms: Seq<Option<Term>>,
    objects: Seq<SubjectShape>,
    context: ContextIrisView,
) -> Result<Seq<ValueShape>, ErrorView>
    decreases type_, 2nat,
{
    match arity_error(arity, objects.len()) {
        Some(kind) => Err(plain_error(kind, context)),
        None => read_values(type_, terms, objects, context, objects.len() as int),
    }
}

/// Reads one field of a record from a subject. The identity field takes the
/// identifier of the subject; a flattened record is read from the same
/// subject; a field that stands for a predicate takes the objects that the
/// subject has for it, as many as its arity takes, or picks the first that
/// fits where its objects are records without identity; an ignored field
/// takes nothing.
pub open spec fn read_field(field: FieldSchema, terms: Seq<Option<Term>>, node: SubjectShape) -> Result<
    FieldShape,
    ErrorView,
>
    decreases field,
{
    match field {
        FieldSchema::Id => match identity_term(terms, node.identity) {
            Some(Term::Id(id)) => Ok(FieldShape::Id(id)),
            _ => Err(plain_error(ErrorKind::ExpectedIri, ContextIrisView::Subject)),
        },
        FieldSchema::Ignore => Ok(FieldShape::Ignored),
        FieldSchema::Flatten(nested) => match read_record(nested, terms, node) {
            Ok(record) => Ok(FieldShape::Flatten(record)),
            Err(e) => Err(e),
        },
        FieldSchema::Property { iri, arity, type_ } => {
            let objects = objects_for(terms, node.predicates, iri@);
            let context = object_context(terms, node.identity, iri@);
            let read = if picks(arity, type_) {
                read_pick(arity, type_, terms, objects, context)
            } else {
                read_all(arity, type_, terms, objects, context)
            };
            match read {
                Ok(values) => Ok(FieldShape::Objects(values)),
                Err(e) => Err(e),
            }
        },
    }
}

/// Reads the first `upto` fields of a record from a subject, in order; the
/// first error ends the reading.
pub open spec fn read_fields(
    schema: TypeSchema,
    terms: Seq<Option<Term>>,
    node: SubjectShape,
    upto: int,
) -> Result<Seq<FieldShape>, ErrorView>
    decreases schema, 0nat, upto,
{
    if upto <= 0 || upto > schema.fields@.len() {
        Ok(Seq::empty())
    } else {
        match read_fields(schema, terms, node, upto - 1) {
            Err(e) => Err(e),
            Ok(fields) => match read_field(schema.fields@[upto - 1], terms, node) {
                Err(e) => Err(e),
                Ok(field) => Ok(fields.push(field)),
            },
        }
    }
}

/// Reads a record of the given type from a subject.
pub open spec fn read_record(schema: TypeSchema, terms: Seq<Option<Term>>, node: SubjectShape) -> Result<
    RecordShape,
    ErrorView,
>
    decreases schema, 1nat,
{
    match read_fields(schema, terms, node, schema.fields@.len() as int) {
        Ok(fields) => Ok(RecordShape { fields }),
        Err(e) => Err(e),
    }
}

/// Once the objects of a field fail to be read, they fail the same way
/// however many more are taken.
pub proof fn lemma_values_fail(
    type_: FieldType,
    terms: Seq<Option<Term>>,
    objects: Seq<SubjectShape>,
    context: ContextIrisView,
    failed: int,
    upto: int,
)
    requires
        read_values(type_, terms, objects, context, failed) is Err,
        failed <= upto <= objects.len(),
    ensures
        read_values(type_, terms, objects, context, upto) == read_values(
            type_,
            terms,
            objects,
            context,
            failed,
        ),
    decreases upto - failed,
{
    if upto > failed {
        lemma_values_fail(type_, terms, objects, context, failed, upto - 1);
    }
}

/// Once the fields of a record fail to be read, they fail the same way
/// however many more are taken.
pub proof fn lemma_fields_fail(
    schema: TypeSchema,
    terms: Seq<Option<Term>>,
    node: SubjectShape,
    failed: int,
    upto: int,
)
    requires
        read_fields(schema, terms, node, failed) is Err,
        failed <= upto <= schema.fields@.len(),
    ensures
        read_fields(schema, terms, node, upto) == read_fields(schema, terms, node, failed),
    decreases upto - failed,
{
    if upto > failed {
        lemma_fields_fail(schema, terms, node, failed, upto - 1);
    }
}

/// Whether `res` is what reading gave where `expected` was to be read, the
/// value being compared by `same`.
pub open spec fn read_as<T, S>(
    expected: Result<S, ErrorView>,
    res: Result<T, FromLinkedDataError>,
    same: spec_fn(T, S) -> bool,
) -> bool {
    match expected {
        Ok(shape) => res matches Ok(value) && same(value, shape),
        Err(e) => res matches Err(error) && error@ == e,
    }
}

/// The term that an identity stands for.
fn term_of_identity<'a>(interpretation: &'a Interpretation, identity: &'a ResourceInterpretation) -> (res:
    Option<&'a Term>)
    ensures
        match res {
            Some(term) => identity_term(interpretation.resources@, *identity) == Some(*term),
            None => identity_term(interpretation.resources@, *identity) is None,
        },
{
    match identity {
        ResourceInterpretation::Interpreted(resource) => {
            if *resource < interpretation.resources.len() {
                match &interpretation.resources[*resource] {
                    Some(term) => Some(term),
                    None => None,
                }
            } else {
                None
            }
        },
        ResourceInterpretation::Uninterpreted(Some(term)) => Some(term),
        ResourceInterpretation::Uninterpreted(None) => None,
    }
}

/// The IRI that an identity stands for, if it stands for one.
fn iri_of_identity<'a>(interpretation: &'a Interpretation, identity: &'a ResourceInterpretation) -> (res:
    Option<&'a String>)
    ensures
        match res {
            Some(iri) => identity_iri(interpretation.resources@, *identity) == Some(*iri),
            None => identity_iri(interpretation.resources@, *identity) is None,
        },
{
    match term_of_identity(interpretation, identity) {
        Some(Term::Id(Id::Iri(iri))) => Some(iri),
        _ => None,
    }
}

/// Finds the objects that a subject has for the predicate of the given IRI.
fn find_objects<'a>(interpretation: &'a Interpretation, node: &'a LinkedDataSubject, iri: &String) -> (res:
    Option<&'a Vec<LinkedDataSubject>>)
    ensures
        match res {
            Some(objects) => subject_shapes(objects@) == objects_for(
                interpretation.resources@,
                subject_shape(*node).predicates,
                iri@,
            ),
            None => objects_for(interpretation.resources@, subject_shape(*node).predicates, iri@)
                == Seq::<SubjectShape>::empty(),
        },
{
    let ghost terms = interpretation.resources@;
    let ghost predicates = subject_shape(*node).predicates;
    proof {
        lemma_subject_shape(*node);
    }
    let mut i: usize = 0;
    while i < node.predicates.len()
        invariant
            i <= node.predicates.len(),
            terms == interpretation.resources@,
            predicates == predicate_shapes(node.predicates@),
            predicates == subject_shape(*node).predicates,
            predicate_from(terms, predicates, iri@, 0) == predicate_from(
                terms,
                predicates,
                iri@,
                i as int,
            ),
        decreases node.predicates.len() - i,
    {
        proof {
            lemma_predicate_shape(node.predicates@[i as int]);
            assert(predicates[i as int] == predicate_shape(node.predicates@[i as int]));
        }
        let found = match iri_of_identity(interpretation, &node.predicates[i].predicate) {
            Some(held) => *held == *iri,
            None => false,
        };
        if found {
            proof {
                assert(option_string_view(identity_iri(terms, predicates[i as int].predicate))
                    == Some(iri@));
                assert(predicate_from(terms, predicates, iri@, i as int) == i);
            }
            return Some(&node.predicates[i].objects);
        }
        i += 1;
    }
    None
}

/// How the subject that is being read is known, for diagnostics: by its
/// resource, by its IRI, or not at all.
fn subject_of<'a>(identity: &'a ResourceInterpretation) -> (res: ResourceOrIriRef<'a>)
    ensures
        match res {
            ResourceOrIriRef::Resource(resource) => *identity
                == ResourceInterpretation::Interpreted(resource),
            ResourceOrIriRef::Iri(iri) => identity_iri(Seq::empty(), *identity) matches Some(held)
                && held@ == iri@,
            ResourceOrIriRef::Anonymous => identity is Uninterpreted && identity_iri(
                Seq::empty(),
                *identity,
            ) is None,
        },
{
    match identity {
        ResourceInterpretation::Interpreted(resource) => ResourceOrIriRef::Resource(*resource),
        ResourceInterpretation::Uninterpreted(Some(Term::Id(Id::Iri(iri)))) => ResourceOrIriRef::Iri(
            iri.as_str(),
        ),
        _ => ResourceOrIriRef::Anonymous,
    }
}

/// The context of the objects that the subject of the given identity has
/// for the predicate of the given IRI.
fn context_of(interpretation: &Interpretation, identity: &ResourceInterpretation, iri: &String) -> (res:
    ContextIris)
    ensures
        res@ == object_context(interpretation.resources@, *identity, iri@),
{
    let subject = subject_of(identity);
    let context = Context::Predicate { subject }.with_predicate_iri(iri.as_str());
    proof {
        match subject {
            ResourceOrIriRef::Resource(resource) => {
                if resource < interpretation.resources@.len() {
                    assert(interpretation@[resource as int] == crate::interpretation::entry_view(
                        interpretation.resources@[resource as int],
                    ));
                }
            },
            _ => {},
        }
    }
    context.into_iris(interpretation)
}

/// Reads one object of a field.
pub fn deserialize_value(
    type_: &FieldType,
    interpretation: &Interpretation,
    node: &LinkedDataSubject,
    context: &ContextIris,
) -> (res: Result<Value, FromLinkedDataError>)
    ensures
        read_as(
            read_value(*type_, interpretation.resources@, subject_shape(*node), context@),
            res,
            |value: Value, shape: ValueShape| value_shape(value) == shape,
        ),
    decreases *type_, 0nat,
{
    proof {
        lemma_subject_shape(*node);
    }
    match type_ {
        FieldType::Literal(expected) => match term_of_identity(interpretation, &node.identity) {
            Some(Term::Literal(literal)) => {
                if type_fits(expected, literal) {
                    Ok(Value::Literal(literal.clone()))
                } else {
                    Err(
                        FromLinkedDataError::LiteralTypeMismatch {
                            context: context.clone(),
                            expected: crate::context::clone_option_string(expected),
                            found: match &literal.type_ {
                                LiteralType::Any(datatype) => datatype.clone(),
                                LiteralType::LangString(_) => String::from_str(
                                    "http://www.w3.org/1999/02/22-rdf-syntax-ns#langString",
                                ),
                            },
                        },
                    )
                }
            },
            _ => Err(FromLinkedDataError::ExpectedLiteral(context.clone())),
        },
        FieldType::Iri => match term_of_identity(interpretation, &node.identity) {
            Some(Term::Id(Id::Iri(iri))) => Ok(Value::Iri(iri.clone())),
            _ => Err(FromLinkedDataError::ExpectedIri(context.clone())),
        },
        FieldType::Record(nested) => match deserialize_subject(nested, interpretation, node) {
            Ok(record) => Ok(Value::Record(record)),
            Err(e) => Err(e),
        },
    }
}

/// Reads the objects of a field, as many as its arity takes.
pub fn deserialize_objects(
    arity: Arity,
    type_: &FieldType,
    interpretation: &Interpretation,
    objects: &Vec<LinkedDataSubject>,
    context: ContextIris,
) -> (res: Result<Vec<Value>, FromLinkedDataError>)
    ensures
        read_as(
            read_all(arity, *type_, interpretation.resources@, subject_shapes(objects@), context@),
            res,
            |values: Vec<Value>, shapes: Seq<ValueShape>| value_shapes(values@) == shapes,
        ),
    decreases *type_, 2nat,
{
    let count = objects.len();
    match arity {
        Arity::One => {
            if count == 0 {
                return Err(FromLinkedDataError::MissingRequiredValue(context));
            }
            if count > 1 {
                return Err(FromLinkedDataError::TooManyValues(context));
            }
        },
        Arity::Optional => {
            if count > 1 {
                return Err(FromLinkedDataError::TooManyValues(context));
            }
        },
        Arity::Many => {},
    }
    let ghost terms = interpretation.resources@;
    let ghost shapes = subject_shapes(objects@);
    let mut values: Vec<Value> = Vec::new();
    let mut j: usize = 0;
    assert(value_shapes(values@) =~= Seq::<ValueShape>::empty());
    while j < objects.len()
        invariant
            j <= objects.len(),
            terms == interpretation.resources@,
            shapes == subject_shapes(objects@),
            arity_error(arity, objects@.len()) is None,
            read_values(*type_, terms, shapes, context@, j as int) == Ok::<
                Seq<ValueShape>,
                ErrorView,
            >(value_shapes(values@)),
        decreases objects.len() - j,
    {
        let ghost before = value_shapes(values@);
        assert(shapes[j as int] == subject_shape(objects@[j as int]));
        match deserialize_value(type_, interpretation, &objects[j], &context) {
            Ok(value) => {
                values.push(value);
                assert(value_shapes(values@) =~= before.push(value_shape(value)));
            },
            Err(e) => {
                proof {
                    assert(read_values(*type_, terms, shapes, context@, j + 1) is Err);
                    lemma_values_fail(*type_, terms, shapes, context@, j + 1, objects@.len() as int);
                }
                return Err(e);
            },
        }
        j += 1;
    }
    Ok(values)
}

/// Whether records of the type have no identity field.
pub fn is_anonymous(schema: &TypeSchema) -> (res: bool)
    ensures
        res == anonymous(*schema),
{
    let mut i: usize = 0;
    while i < schema.fields.len()
        invariant
            i <= schema.fields.len(),
            forall|k: int| 0 <= k < i ==> !(#[trigger] schema.fields@[k] is Id),
        decreases schema.fields.len() - i,
    {
        match &schema.fields[i] {
            FieldSchema::Id => {
                return false;
            },
            _ => {},
        }
        i += 1;
    }
    true
}

/// Whether a field picks its object among those offered.
pub fn is_picking(arity: Arity, type_: &FieldType) -> (res: bool)
    ensures
        res == picks(arity, *type_),
{
    match arity {
        Arity::Many => false,
        _ => match type_ {
            FieldType::Record(nested) => is_anonymous(nested),
            _ => false,
        },
    }
}

/// Reads the object of a field that picks its object: the first object
/// that fits, in the order in which the subject states its objects.
pub fn deserialize_pick(
    arity: Arity,
    type_: &FieldType,
    interpretation: &Interpretation,
    objects: &Vec<LinkedDataSubject>,
    context: ContextIris,
) -> (res: Result<Vec<Value>, FromLinkedDataError>)
    ensures
        read_as(
            read_pick(arity, *type_, interpretation.resources@, subject_shapes(objects@), context@),
            res,
            |values: Vec<Value>, shapes: Seq<ValueShape>| value_shapes(values@) == shapes,
        ),
    decreases *type_, 2nat,
{
    let ghost terms = interpretation.resources@;
    let ghost shapes = subject_shapes(objects@);
    let mut values: Vec<Value> = Vec::new();
    assert(value_shapes(values@) =~= Seq::<ValueShape>::empty());
    let mut j: usize = 0;
    while j < objects.len()
        invariant
            j <= objects.len(),
            terms == interpretation.resources@,
            shapes == subject_shapes(objects@),
            values@.len() == 0,
            first_fit(*type_, terms, shapes, context@, 0) == first_fit(
                *type_,
                terms,
                shapes,
                context@,
                j as int,
            ),
        decreases objects.len() - j,
    {
        assert(shapes[j as int] == subject_shape(objects@[j as int]));
        match deserialize_value(type_, interpretation, &objects[j], &context) {
            Ok(value) => {
                values.push(value);
                assert(value_shapes(values@) =~= seq![value_shape(value)]);
                return Ok(values);
            },
            Err(_) => {},
        }
        j += 1;
    }
    proof {
        assert(value_shapes(values@) =~= Seq::<ValueShape>::empty());
        assert(first_fit(*type_, terms, shapes, context@, objects@.len() as int) is None);
    }
    if objects.len() == 0 {
        match arity {
            Arity::One => Err(FromLinkedDataError::MissingRequiredValue(context)),
            _ => Ok(values),
        }
    } else {
        assert(shapes[0] == subject_shape(objects@[0]));
        match deserialize_value(type_, interpretation, &objects[0], &context) {
            Ok(value) => {
                values.push(value);
                assert(value_shapes(values@) =~= seq![value_shape(value)]);
                Ok(values)
            },
            Err(e) => Err(e),
        }
    }
}

/// Reads a record of the given type from a subject: each field from what
/// the subject says, in declaration order; the first error ends the
/// reading.
pub fn deserialize_subject(
    schema: &TypeSchema,
    interpretation: &Interpretation,
    node: &LinkedDataSubject,
) -> (res: Result<Record, FromLinkedDataError>)
    ensures
        read_as(
            read_record(*schema, interpretation.resources@, subject_shape(*node)),
            res,
            |record: Record, shape: RecordShape| record_shape(record) == shape,
        ),
    decreases *schema, 1nat,
{
    let ghost terms = interpretation.resources@;
    let ghost shape = subject_shape(*node);
    proof {
        lemma_subject_shape(*node);
    }
    let mut fields: Vec<FieldValue> = Vec::new();
    let mut i: usize = 0;
    while i < schema.fields.len()
        invariant
            i <= schema.fields.len(),
            terms == interpretation.resources@,
            shape == subject_shape(*node),
            shape.identity == node.identity,
            fields@.len() == i,
            read_fields(*schema, terms, shape, i as int) is Ok,
            read_fields(*schema, terms, shape, i as int)->Ok_0.len() == i,
            forall|k: int|
                0 <= k < i ==> field_shape(#[trigger] fields@[k]) == read_fields(
                    *schema,
                    terms,
                    shape,
                    i as int,
                )->Ok_0[k],
        decreases schema.fields.len() - i,
    {
        let ghost declared = schema.fields@[i as int];
        let field = match &schema.fields[i] {
            FieldSchema::Id => match term_of_identity(interpretation, &node.identity) {
                Some(Term::Id(id)) => FieldValue::Id(id.clone()),
                _ => {
                    proof {
                        assert(read_field(declared, terms, shape) is Err);
                        assert(read_fields(*schema, terms, shape, i + 1) is Err);
                        lemma_fields_fail(*schema, terms, shape, i + 1, schema.fields@.len() as int);
                    }
                    return Err(FromLinkedDataError::ExpectedIri(ContextIris::Subject));
                },
            },
            FieldSchema::Ignore => FieldValue::Ignored,
            FieldSchema::Flatten(nested) => match deserialize_subject(
                nested,
                interpretation,
                node,
            ) {
                Ok(record) => FieldValue::Flatten(record),
                Err(e) => {
                    proof {
                        assert(read_field(declared, terms, shape) is Err);
                        assert(read_fields(*schema, terms, shape, i + 1) is Err);
                        lemma_fields_fail(*schema, terms, shape, i + 1, schema.fields@.len() as int);
                    }
                    return Err(e);
                },
            },
            FieldSchema::Property { iri, arity, type_ } => {
                let context = context_of(interpretation, &node.identity, iri);
                let none: Vec<LinkedDataSubject> = Vec::new();
                assert(subject_shapes(none@) =~= Seq::<SubjectShape>::empty());
                let objects = match find_objects(interpretation, node, iri) {
                    Some(objects) => objects,
                    None => &none,
                };
                let read = if is_picking(*arity, type_) {
                    deserialize_pick(*arity, type_, interpretation, objects, context)
                } else {
                    deserialize_objects(*arity, type_, interpretation, objects, context)
                };
                match read {
                    Ok(values) => {
                        proof {
                            lemma_objects_shape(values);
                        }
                        FieldValue::Objects(values)
                    },
                    Err(e) => {
                        proof {
                            assert(read_field(declared, terms, shape) is Err);
                            assert(read_fields(*schema, terms, shape, i + 1) is Err);
                            lemma_fields_fail(
                                *schema,
                                terms,
                                shape,
                                i + 1,
                                schema.fields@.len() as int,
                            );
                        }
                        return Err(e);
                    },
                }
            },
        };
        let ghost before = fields@;
        fields.push(field);
        proof {
            assert(read_field(declared, terms, shape) == Ok::<FieldShape, ErrorView>(
                field_shape(field),
            ));
            let read = read_fields(*schema, terms, shape, i + 1)->Ok_0;
            assert(read == read_fields(*schema, terms, shape, i as int)->Ok_0.push(
                field_shape(field),
            ));
            assert forall|k: int| 0 <= k < i + 1 implies field_shape(#[trigger] fields@[k])
                == read[k] by {
                if k < i {
                    assert(fields@[k] == before[k]);
                }
            }
        }
        i += 1;
    }
    let record = Record { fields };
    proof {
        crate::record::lemma_record_shape(record);
        assert(record_shape(record).fields =~= read_fields(
            *schema,
            terms,
            shape,
            schema.fields@.len() as int,
        )->Ok_0);
    }
    Ok(record)
}

} // verus!
