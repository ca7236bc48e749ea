//! From the declaration of a record type to its schema.
use vstd::prelude::*;
use vstd::string::*;
use crate::schema::{
    expand, expansion, rdf_type, valid_iri, Data, DeriveInput, FieldAttributes, FieldSchema,
    FieldType, Prefix, SchemaError, TypeAttributes, TypeSchema, TypeStatement,
};

verus! {

/// The error that the declaration of the field at `place` gives, if it
/// gives one. An ignored field and the identity field give none; a
/// flattened field must hold a record; any other field must name a
/// predicate that expands to an IRI.
pub open spec fn field_error(prefixes: Seq<Prefix>, field: FieldAttributes, place: int) -> Option<
    SchemaError,
> {
    if field.ignore || field.is_id {
        None
    } else if field.flatten {
        match field.type_ {
            FieldType::Record(_) => None,
            _ => Some(SchemaError::FlattenedValue(place as usize)),
        }
    } else {
        match field.iri {
            None => Some(SchemaError::UnknownFieldSerializationMethod(place as usize)),
            Some(compact) => if valid_iri(expansion(prefixes, compact@)) {
                None
            } else {
                Some(SchemaError::InvalidIri(compact))
            },
        }
    }
}

/// Whether `schema` is what the declaration of a field without error comes
/// to: an ignored field is ignored whatever else it declares, then the
/// identity, then a flattened record, then a predicate with its IRI
/// expanded.
pub open spec fn field_generated(
    prefixes: Seq<Prefix>,
    field: FieldAttributes,
    schema: FieldSchema,
) -> bool {
    if field.ignore {
        schema == FieldSchema::Ignore
    } else if field.is_id {
        schema == FieldSchema::Id
    } else if field.flatten {
        field.type_ matches FieldType::Record(nested) && schema == FieldSchema::Flatten(nested)
    } else {
        &&& field.iri matches Some(compact)
        &&& schema matches FieldSchema::Property { iri, arity, type_ }
        &&& iri@ == expansion(prefixes, compact@)
        &&& arity == field.arity
        &&& type_ == field.type_
    }
}

/// The error that the declared type IRI gives, if it gives one.
pub open spec fn type_error(attrs: TypeAttributes) -> Option<SchemaError> {
    match attrs.type_ {
        Some(compact) => if valid_iri(expansion(attrs.prefixes@, compact@)) {
            None
        } else {
            Some(SchemaError::InvalidIri(compact))
        },
        None => None,
    }
}

/// Whether `statement` is what the declared type IRI comes to: a statement
/// of that IRI, expanded, by the predicate that states types.
pub open spec fn type_generated(attrs: TypeAttributes, statement: Option<TypeStatement>) -> bool {
    match attrs.type_ {
        Some(compact) => statement matches Some(stated) && stated.predicate@ == rdf_type()
            && stated.type_iri@ == expansion(attrs.prefixes@, compact@),
        None => statement is None,
    }
}

/// The first error of a declaration, if it has one: that of its first field
/// in error, else that of its type IRI.
pub open spec fn declaration_error(attrs: TypeAttributes, fields: Seq<FieldAttributes>) -> Option<
    SchemaError,
> {
    if exists|i: int| 0 <= i < fields.len() && #[trigger] field_error(
        attrs.prefixes@,
        fields[i],
        i,
    ) is Some {
        let first = choose|i: int|
            0 <= i < fields.len() && (#[trigger] field_error(
                attrs.prefixes@,
                fields[i],
                i,
            )) is Some && forall|j: int|
                0 <= j < i ==> (#[trigger] field_error(attrs.prefixes@, fields[j], j))
                    is None;
        field_error(attrs.prefixes@, fields[first], first)
    } else {
        type_error(attrs)
    }
}

/// Builds the schema of one field from its declaration.
fn generate_field(prefixes: &Vec<Prefix>, field: FieldAttributes, place: usize) -> (res: Result<
    FieldSchema,
    SchemaError,
>)
    ensures
        match field_error(prefixes@, field, place as int) {
            Some(e) => res == Err::<FieldSchema, SchemaError>(e),
            None => res.is_ok() && field_generated(prefixes@, field, res.unwrap()),
        },
{
    if field.ignore {
        Ok(FieldSchema::Ignore)
    } else if field.is_id {
        Ok(FieldSchema::Id)
    } else if field.flatten {
        match field.type_ {
            FieldType::Record(nested) => Ok(FieldSchema::Flatten(nested)),
            _ => Err(SchemaError::FlattenedValue(place)),
        }
    } else {
        match &field.iri {
            None => Err(SchemaError::UnknownFieldSerializationMethod(place)),
            Some(compact) => match expand(prefixes, compact) {
                Ok(iri) => Ok(FieldSchema::Property { iri, arity: field.arity, type_: field.type_ }),
                Err(e) => Err(e),
            },
        }
    }
}

/// Builds the schema of a record type from its declaration: one field
/// schema per declared field, in order, and the type IRI expanded. Fails on
/// the first field in error, else on a type IRI in error.
#[verifier::loop_isolation(false)]
pub fn generate(attrs: &TypeAttributes, fields: Vec<FieldAttributes>) -> (res: Result<
    TypeSchema,
    SchemaError,
>)
    ensures
        generated(*attrs, fields@, res),
{
    let ghost declared = fields@;
    let mut fields = fields;
    let mut generated: Vec<FieldSchema> = Vec::new();
    while fields.len() > 0
        invariant
            generated@.len() + fields@.len() == declared.len(),
            fields@ == declared.skip(generated@.len() as int),
            forall|i: int|
                0 <= i < generated@.len() ==> (#[trigger] field_error(
                    attrs.prefixes@,
                    declared[i],
                    i,
                )) is None,
            forall|i: int|
                0 <= i < generated@.len() ==> field_generated(
                    attrs.prefixes@,
                    declared[i],
                    #[trigger] generated@[i],
                ),
        decreases fields@.len(),
    {
        let place = generated.len();
        let field = fields.remove(0);
        assert(field == declared[place as int]);
        assert(fields@ == declared.skip(place + 1));
        match generate_field(&attrs.prefixes, field, place) {
            Ok(schema) => {
                generated.push(schema);
            },
            Err(e) => {
                proof {
                    lemma_first_error(*attrs, declared, place as int);
                }
                return Err(e);
            },
        }
    }
    assert(declaration_error(*attrs, declared) == type_error(*attrs));
    let type_ = match &attrs.type_ {
        Some(compact) => match expand(&attrs.prefixes, compact) {
            Ok(type_iri) => Some(
                TypeStatement {
                    predicate: String::from_str("http://www.w3.org/1999/02/22-rdf-syntax-ns#type"),
                    type_iri,
                },
            ),
            Err(e) => {
                return Err(e);
            },
        },
        None => None,
    };
    Ok(TypeSchema { type_, fields: generated })
}

/// Whether `res` is what the declaration of a structure with the given
/// fields comes to: its first error, or a schema with one field schema per
/// declared field, in order, and the type IRI expanded.
pub open spec fn generated(
    attrs: TypeAttributes,
    fields: Seq<FieldAttributes>,
    res: Result<TypeSchema, SchemaError>,
) -> bool {
    match declaration_error(attrs, fields) {
        Some(e) => res == Err::<TypeSchema, SchemaError>(e),
        None => res matches Ok(schema) && type_generated(attrs, schema.type_)
            && schema.fields@.len() == fields.len() && forall|i: int|
            0 <= i < fields.len() ==> field_generated(
                attrs.prefixes@,
                fields[i],
                #[trigger] schema.fields@[i],
            ),
    }
}

/// Builds the schema of a declared type that is written as a subject. A
/// structure gives the schema of its fields; a union has none. Enumerations
/// are not taken.
pub fn subject(input: DeriveInput) -> (res: Result<TypeSchema, SchemaError>)
    requires
        !(input.data is Enum),
    ensures
        match input.data {
            Data::Struct(fields) => generated(input.attrs, fields@, res),
            _ => res == Err::<TypeSchema, SchemaError>(SchemaError::UnionType),
        },
{
    let DeriveInput { attrs, data } = input;
    match data {
        Data::Struct(fields) => generate(&attrs, fields),
        _ => Err(SchemaError::UnionType),
    }
}

/// The first error of a declaration is that of the field before which no
/// field is in error.
proof fn lemma_first_error(attrs: TypeAttributes, fields: Seq<FieldAttributes>, place: int)
    requires
        0 <= place < fields.len(),
        field_error(attrs.prefixes@, fields[place], place) is Some,
        forall|j: int|
            0 <= j < place ==> (#[trigger] field_error(attrs.prefixes@, fields[j], j))
                is None,
    ensures
        declaration_error(attrs, fields) == field_error(
            attrs.prefixes@,
            fields[place],
            place,
        ),
{
    let first = choose|i: int|
        0 <= i < fields.len() && (#[trigger] field_error(attrs.prefixes@, fields[i], i))
            is Some && forall|j: int|
            0 <= j < i ==> (#[trigger] field_error(attrs.prefixes@, fields[j], j))
                is None;
    assert(first == place) by {
        if first < place {
            assert(field_error(attrs.prefixes@, fields[first], first) is None);
        }
        if place < first {
            assert(field_error(attrs.prefixes@, fields[place], place) is None);
        }
    }
}

} // verus!
