//! Records: values of declared record types, and what they say of
//! themselves as subjects.
use vstd::prelude::*;
use crate::predicate::LinkedDataPredicateObjects;
use crate::rdf::{Id, Literal, LiteralType, Term};
use crate::resource::ResourceInterpretation;
use crate::schema::{Arity, FieldSchema, FieldType, TypeSchema};
use crate::shape::{
    lemma_predicate_shape, lemma_subject_shape, predicate_shape, predicate_shapes, subject_shape,
    PredicateShape, SubjectShape,
};
use crate::subject::LinkedDataSubject;

verus! {

/// One object of a field.
#[derive(Debug, PartialEq, Eq)]
pub enum Value {
    Literal(Literal),
    Iri(String),
    Record(Record),
}

/// What a record holds in one field.
#[derive(Debug, PartialEq, Eq)]
pub enum FieldValue {
    /// The identity of the record.
    Id(Id),
    /// The objects of a predicate: one for a required field, at most one for
    /// an optional field, any number for a collection.
    Objects(Vec<Value>),
    /// A record whose predicates are stated as the record's own.
    Flatten(Record),
    /// Nothing: the field is left out.
    Ignored,
}

/// A value of a record type: what it holds in each field, in declaration
/// order.
#[derive(Debug, PartialEq, Eq)]
pub struct Record {
    pub fields: Vec<FieldValue>,
}

/// Mathematical value of a [`Value`].
pub enum ValueShape {
    Literal(Literal),
    Iri(String),
    Record(RecordShape),
}

/// Mathematical value of a [`FieldValue`].
pub enum FieldShape {
    Id(Id),
    Objects(Seq<ValueShape>),
    Flatten(RecordShape),
    Ignored,
}

/// Mathematical value of a [`Record`].
pub struct RecordShape {
    pub fields: Seq<FieldShape>,
}

/// Mathematical value of a record.
pub open spec fn record_shape(record: Record) -> RecordShape
    decreases record,
{
    RecordShape {
        fields: Seq::new(
            record.fields@.len(),
            |i: int|
                if 0 <= i < record.fields@.len() {
                    field_shape(record.fields@[i])
                } else {
                    arbitrary()
                },
        ),
    }
}

/// Mathematical value of what a record holds in a field.
pub open spec fn field_shape(field: FieldValue) -> FieldShape
    decreases field,
{
    match field {
        FieldValue::Id(id) => FieldShape::Id(id),
        FieldValue::Objects(values) => FieldShape::Objects(
            Seq::new(
                values@.len(),
                |j: int|
                    if 0 <= j < values@.len() {
                        value_shape(values@[j])
                    } else {
                        arbitrary()
                    },
            ),
        ),
        FieldValue::Flatten(record) => FieldShape::Flatten(record_shape(record)),
        FieldValue::Ignored => FieldShape::Ignored,
    }
}

/// Mathematical value of an object of a field.
pub open spec fn value_shape(value: Value) -> ValueShape
    decreases value,
{
    match value {
        Value::Literal(literal) => ValueShape::Literal(literal),
        Value::Iri(iri) => ValueShape::Iri(iri),
        Value::Record(record) => ValueShape::Record(record_shape(record)),
    }
}

/// Mathematical values of a sequence of objects.
pub open spec fn value_shapes(values: Seq<Value>) -> Seq<ValueShape> {
    values.map_values(|v: Value| value_shape(v))
}

/// Whether a field of the given arity takes `count` objects.
pub open spec fn arity_takes(arity: Arity, count: nat) -> bool {
    match arity {
        Arity::One => count == 1,
        Arity::Optional => count <= 1,
        Arity::Many => true,
    }
}

/// Whether a record is a value of the record type: it holds, for each field
/// of the type, what such a field takes.
pub open spec fn conforms(schema: TypeSchema, record: RecordShape) -> bool
    decreases schema,
{
    &&& record.fields.len() == schema.fields@.len()
    &&& forall|i: int|
        0 <= i < schema.fields@.len() ==> field_conforms(
            #[trigger] schema.fields@[i],
            record.fields[i],
        )
}

/// Whether `value` is what a field of the given schema takes.
pub open spec fn field_conforms(field: FieldSchema, value: FieldShape) -> bool
    decreases field,
{
    match field {
        FieldSchema::Id => value is Id,
        FieldSchema::Ignore => value is Ignored,
        FieldSchema::Flatten(nested) => value matches FieldShape::Flatten(record) && conforms(
            nested,
            record,
        ),
        FieldSchema::Property { iri, arity, type_ } => value matches FieldShape::Objects(values)
            && arity_takes(arity, values.len()) && forall|j: int|
            0 <= j < values.len() ==> value_conforms(type_, #[trigger] values[j]),
    }
}

/// Whether a literal is of the expected type: any literal is where none is
/// expected; else the literal must have the expected datatype.
pub open spec fn literal_type_fits(expected: Option<String>, literal: Literal) -> bool {
    match expected {
        None => true,
        Some(datatype) => literal.type_ matches LiteralType::Any(found) && found@ == datatype@,
    }
}

/// Whether `value` is an object of the given type.
pub open spec fn value_conforms(type_: FieldType, value: ValueShape) -> bool
    decreases type_,
{
    match type_ {
        FieldType::Literal(expected) => value matches ValueShape::Literal(literal)
            && literal_type_fits(expected, literal),
        FieldType::Iri => value is Iri,
        FieldType::Record(nested) => value matches ValueShape::Record(record) && conforms(
            nested,
            record,
        ),
    }
}

/// Identity of the value named by the given IRI.
pub open spec fn iri_identity(iri: String) -> ResourceInterpretation {
    ResourceInterpretation::Uninterpreted(Some(Term::Id(Id::Iri(iri))))
}

/// A subject that says nothing of itself but its identity.
pub open spec fn leaf(identity: ResourceInterpretation) -> SubjectShape {
    SubjectShape { identity, predicates: Seq::empty() }
}

/// Identity that a record has from its first `upto` fields: that of the
/// last identity field among them, or none.
pub open spec fn identity_of(schema: TypeSchema, record: RecordShape, upto: int) -> ResourceInterpretation
    decreases upto,
{
    if upto <= 0 || upto > schema.fields@.len() || upto > record.fields.len() {
        ResourceInterpretation::Uninterpreted(None)
    } else {
        match (schema.fields@[upto - 1], record.fields[upto - 1]) {
            (FieldSchema::Id, FieldShape::Id(id)) => ResourceInterpretation::Uninterpreted(
                Some(Term::Id(id)),
            ),
            _ => identity_of(schema, record, upto - 1),
        }
    }
}

/// What an object of a field says of itself: a literal or an IRI is its own
/// identity and says no more; a record says what [`described`] tells.
pub open spec fn described_value(type_: FieldType, value: ValueShape) -> SubjectShape
    decreases type_, 0nat,
{
    match value {
        ValueShape::Literal(literal) => leaf(
            ResourceInterpretation::Uninterpreted(Some(Term::Literal(literal))),
        ),
        ValueShape::Iri(iri) => leaf(iri_identity(iri)),
        ValueShape::Record(record) => match type_ {
            FieldType::Record(nested) => described(nested, record),
            _ => leaf(ResourceInterpretation::Uninterpreted(None)),
        },
    }
}

/// What a record says of itself as a subject: its identity is that of its
/// identity field, or none; its predicates are those of
/// [`described_predicates`].
pub open spec fn described(schema: TypeSchema, record: RecordShape) -> SubjectShape
    decreases schema, 2nat,
{
    SubjectShape {
        identity: identity_of(schema, record, schema.fields@.len() as int),
        predicates: described_predicates(schema, record),
    }
}

/// The statement of the type of a record, if its type makes one: the
/// predicate that states types, with the IRI of the type as its one object.
pub open spec fn type_predicates(schema: TypeSchema) -> Seq<PredicateShape> {
    match schema.type_ {
        Some(stated) => seq![
            PredicateShape {
                predicate: iri_identity(stated.predicate),
                objects: seq![leaf(iri_identity(stated.type_iri))],
            },
        ],
        None => Seq::empty(),
    }
}

/// The predicates of a record: the statement of its type, then those of its
/// fields in declaration order.
pub open spec fn described_predicates(schema: TypeSchema, record: RecordShape) -> Seq<
    PredicateShape,
>
    decreases schema, 1nat,
{
    type_predicates(schema) + field_predicates(schema, record, schema.fields@.len() as int)
}

/// The predicates of the first `upto` fields of a record.
pub open spec fn field_predicates(schema: TypeSchema, record: RecordShape, upto: int) -> Seq<
    PredicateShape,
>
    decreases schema, 0nat, upto,
{
    if upto <= 0 || upto > schema.fields@.len() || upto > record.fields.len() {
        Seq::empty()
    } else {
        field_predicates(schema, record, upto - 1) + one_field_predicates(
            schema.fields@[upto - 1],
            record.fields[upto - 1],
        )
    }
}

/// The predicates of one field: a field that stands for a predicate gives
/// that predicate with the field's objects, in order; a flattened record
/// gives its own predicates; any other field gives none.
pub open spec fn one_field_predicates(field: FieldSchema, value: FieldShape) -> Seq<PredicateShape>
    decreases field,
{
    match field {
        FieldSchema::Property { iri, arity, type_ } => match value {
            FieldShape::Objects(values) => seq![
                PredicateShape {
                    predicate: iri_identity(iri),
                    objects: Seq::new(
                        values.len(),
                        |j: int| described_value(type_, values[j]),
                    ),
                },
            ],
            _ => Seq::empty(),
        },
        FieldSchema::Flatten(nested) => match value {
            FieldShape::Flatten(record) => described_predicates(nested, record),
            _ => Seq::empty(),
        },
        _ => Seq::empty(),
    }
}

/// The shape of a record is the shapes of its fields.
pub proof fn lemma_record_shape(record: Record)
    ensures
        record_shape(record).fields.len() == record.fields@.len(),
        forall|i: int|
            0 <= i < record.fields@.len() ==> #[trigger] record_shape(record).fields[i]
                == field_shape(record.fields@[i]),
{
}

/// The shape of the objects of a field is the shapes of the objects.
pub proof fn lemma_objects_shape(values: Vec<Value>)
    ensures
        field_shape(FieldValue::Objects(values)) == FieldShape::Objects(value_shapes(values@)),
{
    assert(field_shape(FieldValue::Objects(values))->Objects_0 =~= value_shapes(values@));
}

/// Whether a field of the given arity takes `count` objects.
fn takes(arity: Arity, count: usize) -> (res: bool)
    ensures
        res == arity_takes(arity, count as nat),
{
    match arity {
        Arity::One => count == 1,
        Arity::Optional => count <= 1,
        Arity::Many => true,
    }
}

/// Whether a literal is of the expected type.
pub fn type_fits(expected: &Option<String>, literal: &Literal) -> (res: bool)
    ensures
        res == literal_type_fits(*expected, *literal),
{
    match expected {
        None => true,
        Some(datatype) => match &literal.type_ {
            LiteralType::Any(found) => *found == *datatype,
            LiteralType::LangString(_) => false,
        },
    }
}

/// Describes an object of a field as a subject, if it is an object of the
/// given type.
pub fn describe_value(type_: &FieldType, value: &Value) -> (res: Option<LinkedDataSubject>)
    ensures
        res.is_some() <==> value_conforms(*type_, value_shape(*value)),
        res.is_some() ==> subject_shape(res.unwrap()) == described_value(
            *type_,
            value_shape(*value),
        ),
    decreases *type_, 0nat,
{
    match type_ {
        FieldType::Literal(expected) => match value {
            Value::Literal(literal) => {
                if !type_fits(expected, literal) {
                    return None;
                }
                let node = LinkedDataSubject::new(
                    ResourceInterpretation::Uninterpreted(Some(Term::Literal(literal.clone()))),
                );
                assert(subject_shape(node).predicates =~= Seq::<PredicateShape>::empty());
                Some(node)
            },
            _ => None,
        },
        FieldType::Iri => match value {
            Value::Iri(iri) => {
                let node = LinkedDataSubject::new(ResourceInterpretation::iri(iri.clone()));
                assert(subject_shape(node).predicates =~= Seq::<PredicateShape>::empty());
                Some(node)
            },
            _ => None,
        },
        FieldType::Record(nested) => match value {
            Value::Record(record) => describe(nested, record),
            _ => None,
        },
    }
}

/// Describes the objects of a field that stands for a predicate, if they
/// are what the field takes.
fn describe_objects(iri: &String, arity: Arity, type_: &FieldType, values: &Vec<Value>) -> (res:
    Option<LinkedDataPredicateObjects>)
    ensures
        res.is_some() <==> field_conforms(
            FieldSchema::Property { iri: *iri, arity, type_: *type_ },
            FieldShape::Objects(value_shapes(values@)),
        ),
        res.is_some() ==> seq![predicate_shape(res.unwrap())] == one_field_predicates(
            FieldSchema::Property { iri: *iri, arity, type_: *type_ },
            FieldShape::Objects(value_shapes(values@)),
        ),
    decreases *type_, 1nat,
{
    if !takes(arity, values.len()) {
        return None;
    }
    let ghost shapes = value_shapes(values@);
    let mut entry = LinkedDataPredicateObjects::new(ResourceInterpretation::iri(iri.clone()));
    let mut j: usize = 0;
    while j < values.len()
        invariant
            j <= values.len(),
            shapes == value_shapes(values@),
            entry.predicate == iri_identity(*iri),
            entry.objects@.len() == j,
            forall|k: int|
                0 <= k < j ==> value_conforms(*type_, #[trigger] shapes[k]) && subject_shape(
                    entry.objects@[k],
                ) == described_value(*type_, shapes[k]),
        decreases values.len() - j,
    {
        match describe_value(type_, &values[j]) {
            Some(node) => {
                entry.objects.push(node);
            },
            None => {
                assert(!value_conforms(*type_, shapes[j as int]));
                return None;
            },
        }
        j += 1;
    }
    proof {
        lemma_predicate_shape(entry);
        let expected = Seq::new(shapes.len(), |j: int| described_value(*type_, shapes[j]));
        assert(predicate_shape(entry).objects =~= expected);
        let stated = one_field_predicates(
            FieldSchema::Property { iri: *iri, arity, type_: *type_ },
            FieldShape::Objects(shapes),
        );
        assert(stated.len() == 1);
        assert(stated[0].objects =~= predicate_shape(entry).objects);
        assert(stated[0].predicate == predicate_shape(entry).predicate);
        assert(stated[0] == predicate_shape(entry));
        assert(seq![predicate_shape(entry)] =~= stated);
    }
    Some(entry)
}

/// Describes a record as a subject, if it is a value of the record type.
pub fn describe(schema: &TypeSchema, record: &Record) -> (res: Option<LinkedDataSubject>)
    ensures
        res.is_some() <==> conforms(*schema, record_shape(*record)),
        res.is_some() ==> subject_shape(res.unwrap()) == described(*schema, record_shape(*record)),
    decreases *schema, 2nat,
{
    let ghost shape = record_shape(*record);
    proof {
        lemma_record_shape(*record);
    }
    if record.fields.len() != schema.fields.len() {
        return None;
    }
    let mut predicates: Vec<LinkedDataPredicateObjects> = Vec::new();
    match &schema.type_ {
        Some(stated) => {
            let mut entry = LinkedDataPredicateObjects::new(
                ResourceInterpretation::iri(stated.predicate.clone()),
            );
            let object = LinkedDataSubject::new(ResourceInterpretation::iri(stated.type_iri.clone()));
            assert(subject_shape(object).predicates =~= Seq::<PredicateShape>::empty());
            entry.objects.push(object);
            assert(predicate_shape(entry).objects =~= seq![leaf(iri_identity(stated.type_iri))]);
            predicates.push(entry);
        },
        None => {},
    }
    assert(predicate_shapes(predicates@) =~= type_predicates(*schema));
    let mut identity = ResourceInterpretation::Uninterpreted(None);
    let mut i: usize = 0;
    assert(type_predicates(*schema) + field_predicates(*schema, shape, 0) =~= type_predicates(
        *schema,
    ));
    while i < schema.fields.len()
        invariant
            i <= schema.fields.len(),
            record.fields@.len() == schema.fields@.len(),
            shape == record_shape(*record),
            shape.fields.len() == record.fields@.len(),
            forall|k: int|
                0 <= k < record.fields@.len() ==> #[trigger] shape.fields[k] == field_shape(
                    record.fields@[k],
                ),
            forall|k: int|
                0 <= k < i ==> field_conforms(#[trigger] schema.fields@[k], shape.fields[k]),
            identity == identity_of(*schema, shape, i as int),
            predicate_shapes(predicates@) == type_predicates(*schema) + field_predicates(
                *schema,
                shape,
                i as int,
            ),
        decreases schema.fields.len() - i,
    {
        let ghost before = predicate_shapes(predicates@);
        let ghost added: Seq<PredicateShape> = Seq::empty();
        let ghost field = schema.fields@[i as int];
        let ghost held = shape.fields[i as int];
        assert(held == field_shape(record.fields@[i as int]));
        match &schema.fields[i] {
            FieldSchema::Id => match &record.fields[i] {
                FieldValue::Id(id) => {
                    identity = ResourceInterpretation::Uninterpreted(Some(Term::Id(id.clone())));
                },
                _ => {
                    assert(!field_conforms(field, held));
                    return None;
                },
            },
            FieldSchema::Ignore => match &record.fields[i] {
                FieldValue::Ignored => {},
                _ => {
                    assert(!field_conforms(field, held));
                    return None;
                },
            },
            FieldSchema::Flatten(nested) => match &record.fields[i] {
                FieldValue::Flatten(inner) => match describe(nested, inner) {
                    Some(node) => {
                        let mut node = node;
                        proof {
                            lemma_subject_shape(node);
                        }
                        proof {
                            added = predicate_shapes(node.predicates@);
                        }
                        predicates.append(&mut node.predicates);
                        assert(predicate_shapes(predicates@) =~= before + added);
                    },
                    None => {
                        assert(!field_conforms(field, held));
                        return None;
                    },
                },
                _ => {
                    assert(!field_conforms(field, held));
                    return None;
                },
            },
            FieldSchema::Property { iri, arity, type_ } => match &record.fields[i] {
                FieldValue::Objects(values) => {
                    proof {
                        lemma_objects_shape(*values);
                    }
                    match describe_objects(iri, *arity, type_, values) {
                        Some(entry) => {
                            proof {
                                added = seq![predicate_shape(entry)];
                            }
                            predicates.push(entry);
                            assert(predicate_shapes(predicates@) =~= before + added);
                        },
                        None => {
                            assert(!field_conforms(field, held));
                            return None;
                        },
                    }
                },
                _ => {
                    assert(!field_conforms(field, held));
                    return None;
                },
            },
        }
        proof {
            assert(added == one_field_predicates(field, held));
            assert(predicate_shapes(predicates@) =~= before + added);
            assert(field_predicates(*schema, shape, i + 1) == field_predicates(
                *schema,
                shape,
                i as int,
            ) + added);
            assert(type_predicates(*schema) + field_predicates(*schema, shape, i as int) + added
                =~= type_predicates(*schema) + (field_predicates(*schema, shape, i as int)
                + added));
        }
        i += 1;
    }
    let node = LinkedDataSubject { identity, predicates };
    proof {
        lemma_subject_shape(node);
    }
    Some(node)
}

} // verus!
