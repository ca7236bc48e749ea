//! What is read back from the description of a record is the record.
use vstd::prelude::*;
use crate::context::option_string_view;
use crate::de::{
    arity_error, first_fit, identity_iri, identity_term, object_context, objects_for, picks,
    predicate_from, read_all, read_field, read_fields, read_pick, read_record, read_value,
    read_values,
};
use crate::error::ErrorView;
use crate::rdf::Term;
use crate::record::{
    conforms, described, described_predicates, described_value, field_conforms, field_predicates,
    identity_of, one_field_predicates, type_predicates, value_conforms, FieldShape, RecordShape,
    ValueShape,
};
use crate::schema::{FieldSchema, FieldType, TypeSchema};
use crate::shape::{PredicateShape, SubjectShape};

verus! {

/// The IRI of the predicate of an entry, if it has one.
pub open spec fn entry_name(terms: Seq<Option<Term>>, entry: PredicateShape) -> Option<Seq<char>> {
    option_string_view(identity_iri(terms, entry.predicate))
}

/// The IRIs of the predicates of a subject, in order.
pub open spec fn names(terms: Seq<Option<Term>>, entries: Seq<PredicateShape>) -> Seq<
    Option<Seq<char>>,
> {
    entries.map_values(|entry: PredicateShape| entry_name(terms, entry))
}

/// The IRI of the statement of the type of a record, if its type makes one.
pub open spec fn type_names(schema: TypeSchema) -> Seq<Option<Seq<char>>> {
    match schema.type_ {
        Some(stated) => seq![Some(stated.predicate@)],
        None => Seq::empty(),
    }
}

/// The IRIs of the predicates that records of a type state, in the order
/// they state them.
pub open spec fn emitted_names(schema: TypeSchema) -> Seq<Option<Seq<char>>>
    decreases schema, 1nat,
{
    type_names(schema) + field_names(schema, schema.fields@.len() as int)
}

/// The IRIs of the predicates of the first `upto` fields of a type.
pub open spec fn field_names(schema: TypeSchema, upto: int) -> Seq<Option<Seq<char>>>
    decreases schema, 0nat, upto,
{
    if upto <= 0 || upto > schema.fields@.len() {
        Seq::empty()
    } else {
        field_names(schema, upto - 1) + one_field_names(schema.fields@[upto - 1])
    }
}

/// The IRIs of the predicates of one field.
pub open spec fn one_field_names(field: FieldSchema) -> Seq<Option<Seq<char>>>
    decreases field,
{
    match field {
        FieldSchema::Property { iri, .. } => seq![Some(iri@)],
        FieldSchema::Flatten(nested) => emitted_names(nested),
        _ => Seq::empty(),
    }
}

/// Whether the objects and the flattened records of a type can be told
/// apart when read back, the identity set aside.
pub open spec fn fields_readable(schema: TypeSchema) -> bool
    decreases schema, 0nat,
{
    forall|i: int| 0 <= i < schema.fields@.len() ==> field_readable(#[trigger] schema.fields@[i])
}

/// Whether what a field holds can be read back: the records it takes as
/// objects are of a type that can be read back, and the record that it
/// flattens has no identity of its own.
pub open spec fn field_readable(field: FieldSchema) -> bool
    decreases field,
{
    match field {
        FieldSchema::Property { type_: FieldType::Record(nested), .. } => readable(nested),
        FieldSchema::Flatten(nested) => fields_readable(nested) && forall|i: int|
            0 <= i < nested.fields@.len() ==> !(#[trigger] nested.fields@[i] is Id),
        _ => true,
    }
}

/// Whether a record of the type can be read back from what it says of
/// itself: no two of the predicates it states have the same IRI, it has at
/// most one identity field, and each of its fields can be read back.
pub open spec fn readable(schema: TypeSchema) -> bool
    decreases schema, 1nat,
{
    &&& emitted_names(schema).no_duplicates()
    &&& forall|i: int, j: int|
        0 <= i < j < schema.fields@.len() ==> !(#[trigger] schema.fields@[i] is Id
            && #[trigger] schema.fields@[j] is Id)
    &&& fields_readable(schema)
}

/// Records of a type state the predicates of the type, whatever they hold.
pub proof fn lemma_described_names(terms: Seq<Option<Term>>, schema: TypeSchema, record: RecordShape)
    requires
        conforms(schema, record),
    ensures
        names(terms, described_predicates(schema, record)) == emitted_names(schema),
        described_predicates(schema, record).len() == emitted_names(schema).len(),
    decreases schema, 1nat,
{
    lemma_field_names(terms, schema, record, schema.fields@.len() as int);
    assert(names(terms, type_predicates(schema)) =~= type_names(schema));
    assert(names(terms, described_predicates(schema, record)) =~= names(
        terms,
        type_predicates(schema),
    ) + names(terms, field_predicates(schema, record, schema.fields@.len() as int)));
}

/// The first fields of records of a type state the predicates of those
/// fields.
pub proof fn lemma_field_names(
    terms: Seq<Option<Term>>,
    schema: TypeSchema,
    record: RecordShape,
    upto: int,
)
    requires
        conforms(schema, record),
        0 <= upto <= schema.fields@.len(),
    ensures
        names(terms, field_predicates(schema, record, upto)) == field_names(schema, upto),
        field_predicates(schema, record, upto).len() == field_names(schema, upto).len(),
    decreases schema, 0nat, upto,
{
    if upto > 0 {
        lemma_field_names(terms, schema, record, upto - 1);
        let field = schema.fields@[upto - 1];
        let held = record.fields[upto - 1];
        assert(field_conforms(field, held));
        match field {
            FieldSchema::Flatten(nested) => {
                lemma_described_names(terms, nested, held->Flatten_0);
            },
            _ => {},
        }
        assert(names(terms, one_field_predicates(field, held)) =~= one_field_names(field));
        assert(names(terms, field_predicates(schema, record, upto)) =~= names(
            terms,
            field_predicates(schema, record, upto - 1),
        ) + names(terms, one_field_predicates(field, held)));
    } else {
        assert(names(terms, field_predicates(schema, record, upto)) =~= field_names(schema, upto));
    }
}

/// Among predicates of which no two have the same IRI, the first of a given
/// IRI is the one that has it.
pub proof fn lemma_found(
    terms: Seq<Option<Term>>,
    entries: Seq<PredicateShape>,
    iri: Seq<char>,
    place: int,
    from: int,
)
    requires
        0 <= from <= place < entries.len(),
        names(terms, entries)[place] == Some(iri),
        names(terms, entries).no_duplicates(),
    ensures
        predicate_from(terms, entries, iri, from) == place,
    decreases place - from,
{
    if from < place {
        assert(names(terms, entries)[from] != names(terms, entries)[place]);
        lemma_found(terms, entries, iri, place, from + 1);
    }
}

/// The predicates of the first fields of a record stay where they are when
/// more fields are taken.
pub proof fn lemma_field_predicates_prefix(
    schema: TypeSchema,
    record: RecordShape,
    first: int,
    upto: int,
)
    requires
        0 <= first <= upto <= schema.fields@.len(),
        upto <= record.fields.len(),
    ensures
        field_predicates(schema, record, first).len() <= field_predicates(
            schema,
            record,
            upto,
        ).len(),
        forall|i: int|
            0 <= i < field_predicates(schema, record, first).len() ==> field_predicates(
                schema,
                record,
                upto,
            )[i] == #[trigger] field_predicates(schema, record, first)[i],
    decreases upto - first,
{
    if first < upto {
        lemma_field_predicates_prefix(schema, record, first, upto - 1);
    }
}

/// Whether `entries` hold `block`, in order, from place `base` on.
pub open spec fn holds_block(
    entries: Seq<PredicateShape>,
    base: int,
    block: Seq<PredicateShape>,
) -> bool {
    &&& 0 <= base
    &&& base + block.len() <= entries.len()
    &&& forall|i: int| 0 <= i < block.len() ==> entries[base + i] == #[trigger] block[i]
}

/// Whether `identity` is that of every identity field of the record.
pub open spec fn identifies(
    schema: TypeSchema,
    record: RecordShape,
    terms: Seq<Option<Term>>,
    identity: crate::resource::ResourceInterpretation,
) -> bool {
    forall|k: int|
        0 <= k < schema.fields@.len() && #[trigger] schema.fields@[k] is Id ==> identity_term(
            terms,
            identity,
        ) == Some(Term::Id(record.fields[k]->Id_0))
}

/// The identity of a record with one identity field is what that field
/// holds.
pub proof fn lemma_identity(schema: TypeSchema, record: RecordShape, place: int, upto: int)
    requires
        conforms(schema, record),
        0 <= place < upto <= schema.fields@.len(),
        schema.fields@[place] is Id,
        forall|i: int, j: int|
            0 <= i < j < schema.fields@.len() ==> !(#[trigger] schema.fields@[i] is Id
                && #[trigger] schema.fields@[j] is Id),
    ensures
        identity_of(schema, record, upto) == crate::resource::ResourceInterpretation::Uninterpreted(
            Some(Term::Id(record.fields[place]->Id_0)),
        ),
    decreases upto,
{
    assert(field_conforms(schema.fields@[place], record.fields[place]));
    if place < upto - 1 {
        assert(!(schema.fields@[place] is Id && schema.fields@[upto - 1] is Id));
        lemma_identity(schema, record, place, upto - 1);
    }
}

/// An object of a field is read back from what it says of itself.
pub proof fn lemma_value_read_back(
    type_: FieldType,
    terms: Seq<Option<Term>>,
    value: ValueShape,
    context: crate::context::ContextIrisView,
)
    requires
        value_conforms(type_, value),
        type_ matches FieldType::Record(nested) ==> readable(nested),
    ensures
        read_value(type_, terms, described_value(type_, value), context) == Ok::<
            ValueShape,
            ErrorView,
        >(value),
    decreases type_, 0nat,
{
    match type_ {
        FieldType::Record(nested) => {
            lemma_read_back(nested, value->Record_0, terms);
        },
        _ => {},
    }
}

/// The objects of a field are read back, in order, from what they say of
/// themselves.
pub proof fn lemma_values_read_back(
    type_: FieldType,
    terms: Seq<Option<Term>>,
    values: Seq<ValueShape>,
    context: crate::context::ContextIrisView,
    upto: int,
)
    requires
        forall|j: int| 0 <= j < values.len() ==> value_conforms(type_, #[trigger] values[j]),
        type_ matches FieldType::Record(nested) ==> readable(nested),
        0 <= upto <= values.len(),
    ensures
        read_values(
            type_,
            terms,
            Seq::new(values.len(), |j: int| described_value(type_, values[j])),
            context,
            upto,
        ) == Ok::<Seq<ValueShape>, ErrorView>(values.take(upto)),
    decreases type_, 1nat, upto,
{
    if upto > 0 {
        lemma_values_read_back(type_, terms, values, context, upto - 1);
        lemma_value_read_back(type_, terms, values[upto - 1], context);
        assert(values.take(upto) =~= values.take(upto - 1).push(values[upto - 1]));
    } else {
        assert(values.take(upto) =~= Seq::<ValueShape>::empty());
    }
}

/// One field of a record is read back from a subject that states the
/// predicates of the record among predicates of distinct IRIs.
pub proof fn lemma_field_read_back(
    schema: TypeSchema,
    record: RecordShape,
    terms: Seq<Option<Term>>,
    node: SubjectShape,
    base: int,
    place: int,
)
    requires
        conforms(schema, record),
        fields_readable(schema),
        names(terms, node.predicates).no_duplicates(),
        holds_block(node.predicates, base, described_predicates(schema, record)),
        identifies(schema, record, terms, node.identity),
        0 <= place < schema.fields@.len(),
    ensures
        read_field(schema.fields@[place], terms, node) == Ok::<FieldShape, ErrorView>(
            record.fields[place],
        ),
    decreases schema, 1nat,
{
    let field = schema.fields@[place];
    let held = record.fields[place];
    let all = described_predicates(schema, record);
    let stated = type_predicates(schema);
    let before = field_predicates(schema, record, place);
    let upto = field_predicates(schema, record, place + 1);
    let one = one_field_predicates(field, held);
    let offset = stated.len() + before.len();
    assert(field_conforms(field, held));
    assert(field_readable(field));
    lemma_field_predicates_prefix(schema, record, place + 1, schema.fields@.len() as int);
    assert(upto == before + one);
    assert forall|i: int| 0 <= i < one.len() implies node.predicates[base + offset + i]
        == #[trigger] one[i] by {
        assert(upto[before.len() + i] == one[i]);
        assert(all[offset + i] == upto[before.len() + i]);
        assert(node.predicates[base + (offset + i)] == all[offset + i]);
    }
    match field {
        FieldSchema::Id => {
            assert(schema.fields@[place] is Id);
            assert(identity_term(terms, node.identity) == Some(Term::Id(held->Id_0)));
            assert(held == FieldShape::Id(held->Id_0));
            assert(field == FieldSchema::Id);
            assert(read_field(FieldSchema::Id, terms, node) == Ok::<FieldShape, ErrorView>(
                FieldShape::Id(held->Id_0),
            ));
        },
        FieldSchema::Ignore => {
            assert(held == FieldShape::Ignored);
            assert(read_field(FieldSchema::Ignore, terms, node) == Ok::<FieldShape, ErrorView>(
                FieldShape::Ignored,
            ));
        },
        FieldSchema::Property { iri, arity, type_ } => {
            let values = held->Objects_0;
            let entry = one[0];
            assert(node.predicates[base + offset + 0] == entry);
            assert(names(terms, node.predicates)[base + offset] == Some(iri@));
            lemma_found(terms, node.predicates, iri@, base + offset, 0);
            assert(objects_for(terms, node.predicates, iri@) == entry.objects);
            let context = object_context(terms, node.identity, iri@);
            lemma_values_read_back(type_, terms, values, context, values.len() as int);
            assert(values.take(values.len() as int) =~= values);
            assert(entry.objects =~= Seq::new(
                values.len(),
                |j: int| described_value(type_, values[j]),
            ));
            assert(arity_error(arity, entry.objects.len()) is None);
            assert(held == FieldShape::Objects(values));
            if picks(arity, type_) {
                if values.len() == 1 {
                    lemma_value_read_back(type_, terms, values[0], context);
                    assert(entry.objects[0] == described_value(type_, values[0]));
                    assert(first_fit(type_, terms, entry.objects, context, 0) == Some(values[0]));
                    assert(values =~= seq![values[0]]);
                } else {
                    assert(first_fit(type_, terms, entry.objects, context, 0) is None);
                    assert(values =~= Seq::<ValueShape>::empty());
                }
                assert(read_pick(arity, type_, terms, entry.objects, context) == Ok::<
                    Seq<ValueShape>,
                    ErrorView,
                >(values));
            } else {
                assert(read_all(arity, type_, terms, entry.objects, context) == Ok::<
                    Seq<ValueShape>,
                    ErrorView,
                >(values));
            }
        },
        FieldSchema::Flatten(nested) => {
            let inner = held->Flatten_0;
            assert(one == described_predicates(nested, inner));
            assert(holds_block(node.predicates, base + offset, one));
            lemma_fields_read_back(
                nested,
                inner,
                terms,
                node,
                base + offset,
                nested.fields@.len() as int,
            );
            assert(inner.fields.take(nested.fields@.len() as int) =~= inner.fields);
        },
    }
}

/// The first fields of a record are read back from a subject that states
/// the predicates of the record among predicates of distinct IRIs.
pub proof fn lemma_fields_read_back(
    schema: TypeSchema,
    record: RecordShape,
    terms: Seq<Option<Term>>,
    node: SubjectShape,
    base: int,
    upto: int,
)
    requires
        conforms(schema, record),
        fields_readable(schema),
        names(terms, node.predicates).no_duplicates(),
        holds_block(node.predicates, base, described_predicates(schema, record)),
        identifies(schema, record, terms, node.identity),
        0 <= upto <= schema.fields@.len(),
    ensures
        read_fields(schema, terms, node, upto) == Ok::<Seq<FieldShape>, ErrorView>(
            record.fields.take(upto),
        ),
    decreases schema, 2nat, upto,
{
    if upto > 0 {
        lemma_fields_read_back(schema, record, terms, node, base, upto - 1);
        lemma_field_read_back(schema, record, terms, node, base, upto - 1);
        assert(record.fields.take(upto) =~= record.fields.take(upto - 1).push(
            record.fields[upto - 1],
        ));
    } else {
        assert(record.fields.take(upto) =~= Seq::<FieldShape>::empty());
    }
}

/// Round trip: a record of a type that can be read back is what is read
/// from what the record says of itself as a subject, whatever the
/// interpretation holds.
pub proof fn lemma_read_back(schema: TypeSchema, record: RecordShape, terms: Seq<Option<Term>>)
    requires
        conforms(schema, record),
        readable(schema),
    ensures
        read_record(schema, terms, described(schema, record)) == Ok::<RecordShape, ErrorView>(
            record,
        ),
    decreases schema, 3nat,
{
    let node = described(schema, record);
    lemma_described_names(terms, schema, record);
    assert forall|k: int|
        0 <= k < schema.fields@.len() && #[trigger] schema.fields@[k] is Id implies identity_term(
        terms,
        node.identity,
    ) == Some(Term::Id(record.fields[k]->Id_0)) by {
        lemma_identity(schema, record, k, schema.fields@.len() as int);
    }
    lemma_fields_read_back(schema, record, terms, node, 0, schema.fields@.len() as int);
    assert(record.fields.take(schema.fields@.len() as int) =~= record.fields);
}

} // verus!
