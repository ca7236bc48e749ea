//! Queries that list the records of a declared type, and queries for the
//! pattern of one value.
use vstd::prelude::*;
use vstd::string::*;
use crate::generator::Blank;
use crate::quads::{dataset_quads, to_quads, IntoQuadsError, Scope};
use crate::rdf::QuadView;
use crate::schema::{
    expand, expansion, valid_iri, FieldAttributes, Prefix, SchemaError, TypeAttributes,
};
use crate::sparql::domain::{query_text, render_query};
use crate::LinkedData;

verus! {

/// Generator of the queries of a record type.
pub trait SparqlQueryGenerator {
    /// Text of the query that lists every record of the type.
    spec fn list_query(&self) -> Seq<char>;

    /// Text of the query that gets the record of the given identifier.
    spec fn get_query(&self, id: Seq<char>) -> Seq<char>;

    /// Returns the query that lists every record of the type.
    fn generate_list_query(&self) -> (res: String)
        ensures
            res@ == self.list_query(),
    ;

    /// Returns the query that gets the record of the given identifier.
    fn generate_get_query(&self, id: &str) -> (res: String)
        ensures
            res@ == self.get_query(id@),
    ;
}

/// The queries generated for one record type.
#[derive(Debug)]
pub struct SparqlQueries {
    /// The query that lists every record of the type.
    pub list: String,
}

impl SparqlQueryGenerator for SparqlQueries {
    open spec fn list_query(&self) -> Seq<char> {
        self.list@
    }

    /// No query gets one record yet: the text is empty.
    open spec fn get_query(&self, id: Seq<char>) -> Seq<char> {
        Seq::empty()
    }

    fn generate_list_query(&self) -> (res: String) {
        self.list.clone()
    }

    fn generate_get_query(&self, id: &str) -> (res: String) {
        String::new()
    }
}

/// The error that the declaration of the field at `place` gives to the
/// generator of queries, if it gives one: a field that is not ignored must
/// name a predicate that expands to an IRI.
pub open spec fn query_field_error(prefixes: Seq<Prefix>, field: FieldAttributes, place: int) -> Option<
    SchemaError,
> {
    if field.ignore {
        None
    } else {
        match field.iri {
            None => Some(SchemaError::UnknownFieldSerializationMethod(place as usize)),
            Some(compact) => if valid_iri(expansion(prefixes, compact@)) {
                None
            } else {
                Some(SchemaError::InvalidIri(compact))
            },
        }
    }
}

/// The pattern that a query has for a field: the field's own variable, the
/// field's predicate, and the variable of its value. A field that is
/// ignored, flattened or without predicate has none.
pub open spec fn field_pattern(prefixes: Seq<Prefix>, field: FieldAttributes) -> Option<Seq<char>> {
    if field.ignore || field.flatten {
        None
    } else {
        match field.iri {
            None => None,
            Some(compact) => Some(
                "?"@ + field.name@ + " <"@ + expansion(prefixes, compact@) + "> ?"@ + field.name@
                    + "_value ."@,
            ),
        }
    }
}

/// The patterns of the first `upto` fields as they stand in the
/// `CONSTRUCT` clause: each followed by a space.
pub open spec fn construct_content(prefixes: Seq<Prefix>, fields: Seq<FieldAttributes>, upto: int) -> Seq<
    char,
>
    decreases upto,
{
    if upto <= 0 || upto > fields.len() {
        Seq::empty()
    } else {
        construct_content(prefixes, fields, upto - 1) + match field_pattern(
            prefixes,
            fields[upto - 1],
        ) {
            Some(pattern) => pattern + " "@,
            None => Seq::empty(),
        }
    }
}

/// The patterns of the first `upto` fields as they stand in the `WHERE`
/// clause: one after the other.
pub open spec fn where_content(prefixes: Seq<Prefix>, fields: Seq<FieldAttributes>, upto: int) -> Seq<
    char,
>
    decreases upto,
{
    if upto <= 0 || upto > fields.len() {
        Seq::empty()
    } else {
        where_content(prefixes, fields, upto - 1) + match field_pattern(prefixes, fields[upto - 1]) {
            Some(pattern) => pattern,
            None => Seq::empty(),
        }
    }
}

/// Text of the query that lists every record of a declared type.
pub open spec fn list_query_text(prefixes: Seq<Prefix>, fields: Seq<FieldAttributes>) -> Seq<char> {
    "CONSTRUCT { "@ + construct_content(prefixes, fields, fields.len() as int) + " } WHERE { "@
        + where_content(prefixes, fields, fields.len() as int) + " }"@
}

/// Generates the queries of a declared record type. Fails on the first
/// field that is not ignored and names no predicate, or names one that does
/// not expand to an IRI.
pub fn generate(attrs: &TypeAttributes, fields: &Vec<FieldAttributes>) -> (res: Result<
    SparqlQueries,
    SchemaError,
>)
    ensures
        match res {
            Ok(queries) => queries.list@ == list_query_text(attrs.prefixes@, fields@) && forall|
                i: int,
            |
                0 <= i < fields@.len() ==> (#[trigger] query_field_error(
                    attrs.prefixes@,
                    fields@[i],
                    i,
                )) is None,
            Err(e) => exists|i: int|
                0 <= i < fields@.len() && #[trigger] query_field_error(
                    attrs.prefixes@,
                    fields@[i],
                    i,
                ) == Some(e) && forall|j: int|
                    0 <= j < i ==> (#[trigger] query_field_error(attrs.prefixes@, fields@[j], j))
                        is None,
        },
{
    let mut construct = String::new();
    let mut where_ = String::new();
    let mut i: usize = 0;
    while i < fields.len()
        invariant
            i <= fields.len(),
            construct@ == construct_content(attrs.prefixes@, fields@, i as int),
            where_@ == where_content(attrs.prefixes@, fields@, i as int),
            forall|j: int|
                0 <= j < i ==> (#[trigger] query_field_error(attrs.prefixes@, fields@[j], j))
                    is None,
        decreases fields.len() - i,
    {
        let field = &fields[i];
        if !field.ignore {
            match &field.iri {
                None => {
                    assert(query_field_error(attrs.prefixes@, fields@[i as int], i as int) == Some(
                        SchemaError::UnknownFieldSerializationMethod(i),
                    ));
                    return Err(SchemaError::UnknownFieldSerializationMethod(i));
                },
                Some(compact) => {
                    let iri = match expand(&attrs.prefixes, compact) {
                        Ok(iri) => iri,
                        Err(e) => {
                            assert(query_field_error(attrs.prefixes@, fields@[i as int], i as int)
                                == Some(e));
                            return Err(e);
                        },
                    };
                    if !field.flatten {
                        let mut pattern = String::from_str("?");
                        pattern.append(field.name.as_str());
                        pattern.append(" <");
                        pattern.append(iri.as_str());
                        pattern.append("> ?");
                        pattern.append(field.name.as_str());
                        pattern.append("_value .");
                        assert(Some(pattern@) == field_pattern(attrs.prefixes@, *field));
                        construct.append(pattern.as_str());
                        construct.append(" ");
                        where_.append(pattern.as_str());
                        assert(construct@ == construct_content(attrs.prefixes@, fields@, i as int)
                            + (pattern@ + " "@));
                    }
                },
            }
        }
        i += 1;
    }
    let mut list = String::from_str("CONSTRUCT { ");
    list.append(construct.as_str());
    list.append(" } WHERE { ");
    list.append(where_.as_str());
    list.append(" }");
    Ok(SparqlQueries { list })
}

/// Why the query of a value could not be made.
#[derive(Debug, PartialEq, Eq)]
pub enum SparqlError {
    /// The value could not be turned into quads.
    Quads(IntoQuadsError),
    /// The value has more terms than there are variables.
    TooManyTerms,
}

/// What `to_query` owes for quads that were collected, or were not.
pub open spec fn query_of(quads: Result<(Seq<QuadView>, nat), IntoQuadsError>) -> Result<
    Seq<char>,
    SparqlError,
> {
    match quads {
        Err(e) => Err(SparqlError::Quads(e)),
        Ok((quads, _)) => if 2 * quads.len() < usize::MAX {
            Ok(query_text(quads))
        } else {
            Err(SparqlError::TooManyTerms)
        },
    }
}

/// Renders the query of a value: the value is turned into quads with a
/// generator of its own, and the terms of the quads into variables.
pub fn to_query<T: LinkedData>(value: &T) -> (res: Result<String, SparqlError>)
    ensures
        match query_of(
            dataset_quads(Scope { terms: Seq::empty(), prefix: Seq::empty() }, value.dataset(), 0),
        ) {
            Ok(text) => res.is_ok() && res.unwrap()@ == text,
            Err(e) => res == Err::<String, SparqlError>(e),
        },
{
    let generator = Blank::new();
    assert(generator.prefix@ =~= Seq::<char>::empty());
    match to_quads(generator, value) {
        Err(e) => Err(SparqlError::Quads(e)),
        Ok(quads) => match render_query(&quads) {
            Some(text) => Ok(text),
            None => Err(SparqlError::TooManyTerms),
        },
    }
}

} // verus!
