//! Reading records back from a dataset, from the resources they start at.
use vstd::prelude::*;
use crate::context::option_string_view;
use crate::dataset::{has_predicate, Dataset, ResourceQuad};
use crate::dataset_graph_view::{
    object_resources, objects_walked, predicate_resources, resource_of, walked, DatasetGraphView,
};
use crate::de::{
    arity_error, deserialize_subject, first_fit, identity_iri, object_context, objects_for, picks,
    predicate_from, read_as, read_field, read_record,
};
use crate::error::{plain_error, ErrorKind, ErrorView, FromLinkedDataError};
use crate::interpretation::Interpretation;
use crate::rdf::Term;
use crate::record::{record_shape, FieldShape, Record, RecordShape};
use crate::resource::ResourceInterpretation;
use crate::schema::{Arity, FieldSchema, FieldType, TypeSchema};
use crate::shape::{
    lemma_predicate_shape, lemma_subject_shape, predicate_shape, subject_shape, PredicateShape,
};
use crate::subject::LinkedDataSubject;

verus! {

/// Whether `res` is what reading a record of the given type at `resource`
/// gives: what is read from some walk of the dataset from the resource. The
/// dataset chooses the order in which a walk meets predicates and objects.
pub open spec fn deserialized(
    schema: TypeSchema,
    terms: Seq<Option<Term>>,
    quads: Set<ResourceQuad>,
    graph: Option<usize>,
    resource: usize,
    res: Result<Record, FromLinkedDataError>,
) -> bool {
    exists|node: LinkedDataSubject|
        walked(quads, graph, Set::empty(), resource, node) && read_as(
            #[trigger] read_record(schema, terms, subject_shape(node)),
            res,
            |record: Record, shape: RecordShape| record_shape(record) == shape,
        )
}

/// Whether some walk of the dataset from `resource` gives a record of the
/// given type.
pub open spec fn readable_at(
    schema: TypeSchema,
    terms: Seq<Option<Term>>,
    quads: Set<ResourceQuad>,
    graph: Option<usize>,
    resource: usize,
) -> bool {
    exists|record: Record| #[trigger]
        deserialized(schema, terms, quads, graph, resource, Ok(record))
}

/// Reads the record of the given type that starts at `resource` in `graph`:
/// the dataset is walked from the resource, and the record is read from
/// what the walk found.
pub fn deserialize_resource(
    schema: &TypeSchema,
    interpretation: &Interpretation,
    dataset: &Dataset,
    graph: Option<usize>,
    resource: usize,
) -> (res: Result<Record, FromLinkedDataError>)
    ensures
        deserialized(*schema, interpretation.resources@, dataset@, graph, resource, res),
{
    let node = DatasetGraphView { dataset, graph, resource }.visit_subject();
    deserialize_subject(schema, interpretation, &node)
}

/// Reads one record of the given type for each starting resource, in order.
/// The first resource whose record cannot be read ends the reading with its
/// error.
pub fn deserialize_subjects(
    schema: &TypeSchema,
    interpretation: &Interpretation,
    dataset: &Dataset,
    graph: Option<usize>,
    resources: &Vec<usize>,
) -> (res: Result<Vec<Record>, FromLinkedDataError>)
    ensures
        match res {
            Ok(records) => records@.len() == resources@.len() && forall|i: int|
                0 <= i < resources@.len() ==> deserialized(
                    *schema,
                    interpretation.resources@,
                    dataset@,
                    graph,
                    resources@[i],
                    Ok(#[trigger] records@[i]),
                ),
            Err(e) => exists|i: int|
                0 <= i < resources@.len() && deserialized(
                    *schema,
                    interpretation.resources@,
                    dataset@,
                    graph,
                    #[trigger] resources@[i],
                    Err(e),
                ) && forall|j: int|
                    0 <= j < i ==> readable_at(
                        *schema,
                        interpretation.resources@,
                        dataset@,
                        graph,
                        #[trigger] resources@[j],
                    ),
        },
{
    let mut records: Vec<Record> = Vec::new();
    let mut i: usize = 0;
    while i < resources.len()
        invariant
            i <= resources.len(),
            records@.len() == i,
            forall|k: int|
                0 <= k < i ==> deserialized(
                    *schema,
                    interpretation.resources@,
                    dataset@,
                    graph,
                    resources@[k],
                    Ok(#[trigger] records@[k]),
                ),
        decreases resources.len() - i,
    {
        match deserialize_resource(schema, interpretation, dataset, graph, resources[i]) {
            Ok(record) => {
                records.push(record);
            },
            Err(e) => {
                proof {
                    assert(deserialized(
                        *schema,
                        interpretation.resources@,
                        dataset@,
                        graph,
                        resources@[i as int],
                        Err(e),
                    ));
                    assert forall|j: int| 0 <= j < i implies readable_at(
                        *schema,
                        interpretation.resources@,
                        dataset@,
                        graph,
                        #[trigger] resources@[j],
                    ) by {
                        assert(deserialized(
                            *schema,
                            interpretation.resources@,
                            dataset@,
                            graph,
                            resources@[j],
                            Ok(records@[j]),
                        ));
                    }
                }
                return Err(e);
            },
        }
        i += 1;
    }
    Ok(records)
}

/// The IRI that a resource stands for, if it stands for one.
pub open spec fn resource_iri(terms: Seq<Option<Term>>, resource: usize) -> Option<Seq<char>> {
    option_string_view(identity_iri(terms, ResourceInterpretation::Interpreted(resource)))
}

/// Among the predicates that a walk read of a subject, the first of a given
/// IRI is the one of the resource that alone stands for that IRI.
proof fn lemma_predicate_found(
    terms: Seq<Option<Term>>,
    node: LinkedDataSubject,
    iri: Seq<char>,
    place: int,
    from: int,
)
    requires
        0 <= from <= place < node.predicates@.len(),
        forall|i: int|
            0 <= i < node.predicates@.len() ==> (#[trigger] node.predicates@[i]).predicate
                == ResourceInterpretation::Interpreted(resource_of(node.predicates@[i].predicate)),
        resource_iri(terms, resource_of(node.predicates@[place].predicate)) == Some(iri),
        forall|i: int|
            0 <= i < place ==> resource_iri(
                terms,
                resource_of((#[trigger] node.predicates@[i]).predicate),
            ) != Some(iri),
    ensures
        predicate_from(terms, subject_shape(node).predicates, iri, from) == place,
    decreases place - from,
{
    lemma_subject_shape(node);
    lemma_predicate_shape(node.predicates@[from]);
    assert(subject_shape(node).predicates[from] == predicate_shape(node.predicates@[from]));
    if from < place {
        lemma_predicate_found(terms, node, iri, place, from + 1);
    }
}

/// Arity is enforced against the dataset: a field that takes one object at
/// most, and does not pick among records without identity, fails with
/// "too many values" where the dataset holds two objects for its predicate.
/// The predicate is the one resource, among the predicates of the subject,
/// that stands for the IRI of the field.
pub proof fn lemma_two_objects_are_too_many(
    terms: Seq<Option<Term>>,
    quads: Set<ResourceQuad>,
    graph: Option<usize>,
    subject: usize,
    predicate: usize,
    first: usize,
    second: usize,
    node: LinkedDataSubject,
    iri: String,
    arity: Arity,
    type_: FieldType,
)
    requires
        walked(quads, graph, Set::empty(), subject, node),
        quads.contains((subject, predicate, first, graph)),
        quads.contains((subject, predicate, second, graph)),
        first != second,
        resource_iri(terms, predicate) == Some(iri@),
        forall|other: usize|
            other != predicate && #[trigger] has_predicate(quads, graph, subject, other)
                ==> resource_iri(terms, other) != Some(iri@),
        !(arity is Many),
        !picks(arity, type_),
    ensures
        read_field(FieldSchema::Property { iri, arity, type_ }, terms, subject_shape(node))
            == Err::<FieldShape, ErrorView>(
            plain_error(ErrorKind::TooManyValues, object_context(terms, node.identity, iri@)),
        ),
{
    let resources = predicate_resources(node.predicates@);
    assert(has_predicate(quads, graph, subject, predicate));
    assert(resources.contains(predicate));
    let place = choose|place: int| 0 <= place < resources.len() && resources[place] == predicate;
    assert forall|i: int| 0 <= i < node.predicates@.len() implies (
    #[trigger] node.predicates@[i]).predicate == ResourceInterpretation::Interpreted(
        resource_of(node.predicates@[i].predicate),
    ) by {
        assert(objects_walked(quads, graph, Set::empty().insert(subject), subject, node.predicates@[i]));
    }
    assert forall|i: int| 0 <= i < place implies resource_iri(
        terms,
        resource_of((#[trigger] node.predicates@[i]).predicate),
    ) != Some(iri@) by {
        assert(resources[i] != resources[place]);
        assert(resources.contains(resources[i]));
        assert(has_predicate(quads, graph, subject, resources[i]));
    }
    lemma_predicate_found(terms, node, iri@, place, 0);
    lemma_subject_shape(node);
    lemma_predicate_shape(node.predicates@[place]);
    let property = node.predicates@[place];
    assert(subject_shape(node).predicates[place] == predicate_shape(property));
    assert(objects_walked(quads, graph, Set::empty().insert(subject), subject, property));
    let objects = object_resources(property.objects@);
    assert(objects.contains(first));
    assert(objects.contains(second));
    let a = choose|a: int| 0 <= a < objects.len() && objects[a] == first;
    let b = choose|b: int| 0 <= b < objects.len() && objects[b] == second;
    assert(a != b);
    assert(objects.len() >= 2);
    let read = objects_for(terms, subject_shape(node).predicates, iri@);
    assert(read.len() == objects.len());
    assert(arity_error(arity, read.len()) == Some(ErrorKind::TooManyValues));
}

/// Arity is enforced against the dataset: a field that requires an object
/// fails with "missing required value" where no predicate of the subject
/// stands for the IRI of the field.
pub proof fn lemma_no_object_is_a_missing_value(
    terms: Seq<Option<Term>>,
    quads: Set<ResourceQuad>,
    graph: Option<usize>,
    subject: usize,
    node: LinkedDataSubject,
    iri: String,
    type_: FieldType,
)
    requires
        walked(quads, graph, Set::empty(), subject, node),
        forall|other: usize| #[trigger]
            has_predicate(quads, graph, subject, other) ==> resource_iri(terms, other) != Some(
                iri@,
            ),
    ensures
        read_field(
            FieldSchema::Property { iri, arity: Arity::One, type_ },
            terms,
            subject_shape(node),
        ) == Err::<FieldShape, ErrorView>(
            plain_error(
                ErrorKind::MissingRequiredValue,
                object_context(terms, node.identity, iri@),
            ),
        ),
{
    let resources = predicate_resources(node.predicates@);
    lemma_subject_shape(node);
    let entries = subject_shape(node).predicates;
    assert forall|i: int| 0 <= i < entries.len() implies option_string_view(
        identity_iri(terms, (#[trigger] entries[i]).predicate),
    ) != Some(iri@) by {
        lemma_predicate_shape(node.predicates@[i]);
        assert(entries[i] == predicate_shape(node.predicates@[i]));
        assert(objects_walked(quads, graph, Set::empty().insert(subject), subject, node.predicates@[i]));
        assert(resources.contains(resources[i]));
        assert(has_predicate(quads, graph, subject, resources[i]));
    }
    lemma_not_found(terms, entries, iri@, 0);
    let read = objects_for(terms, entries, iri@);
    assert(read.len() == 0);
    assert(first_fit(type_, terms, read, object_context(terms, node.identity, iri@), 0) is None);
}

/// Among predicates of which none has a given IRI, none is found for it.
proof fn lemma_not_found(
    terms: Seq<Option<Term>>,
    entries: Seq<PredicateShape>,
    iri: Seq<char>,
    from: int,
)
    requires
        0 <= from <= entries.len(),
        forall|i: int|
            0 <= i < entries.len() ==> option_string_view(
                identity_iri(terms, (#[trigger] entries[i]).predicate),
            ) != Some(iri),
    ensures
        predicate_from(terms, entries, iri, from) == entries.len(),
    decreases entries.len() - from,
{
    if from < entries.len() {
        lemma_not_found(terms, entries, iri, from + 1);
    }
}

} // verus!
