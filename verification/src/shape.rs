//! Mathematical values of subjects and their predicates: the same trees,
//! with sequences in place of vectors.
use vstd::prelude::*;
use crate::predicate::LinkedDataPredicateObjects;
use crate::resource::ResourceInterpretation;
use crate::subject::LinkedDataSubject;

verus! {

/// Mathematical value of a [`LinkedDataSubject`].
pub struct SubjectShape {
    pub identity: ResourceInterpretation,
    pub predicates: Seq<PredicateShape>,
}

/// Mathematical value of a [`LinkedDataPredicateObjects`].
pub struct PredicateShape {
    pub predicate: ResourceInterpretation,
    pub objects: Seq<SubjectShape>,
}

/// Mathematical value of a subject.
pub open spec fn subject_shape(subject: LinkedDataSubject) -> SubjectShape
    decreases subject,
{
    SubjectShape {
        identity: subject.identity,
        predicates: Seq::new(
            subject.predicates@.len(),
            |i: int|
                if 0 <= i < subject.predicates@.len() {
                    predicate_shape(subject.predicates@[i])
                } else {
                    arbitrary()
                },
        ),
    }
}

/// Mathematical value of a predicate with its objects.
pub open spec fn predicate_shape(predicate: LinkedDataPredicateObjects) -> PredicateShape
    decreases predicate,
{
    PredicateShape {
        predicate: predicate.predicate,
        objects: Seq::new(
            predicate.objects@.len(),
            |j: int|
                if 0 <= j < predicate.objects@.len() {
                    subject_shape(predicate.objects@[j])
                } else {
                    arbitrary()
                },
        ),
    }
}

/// Mathematical values of a sequence of subjects.
pub open spec fn subject_shapes(subjects: Seq<LinkedDataSubject>) -> Seq<SubjectShape> {
    subjects.map_values(|s: LinkedDataSubject| subject_shape(s))
}

/// Mathematical values of a sequence of predicates.
pub open spec fn predicate_shapes(predicates: Seq<LinkedDataPredicateObjects>) -> Seq<
    PredicateShape,
> {
    predicates.map_values(|p: LinkedDataPredicateObjects| predicate_shape(p))
}

/// The shape of a subject is its identity with the shapes of its
/// predicates.
pub proof fn lemma_subject_shape(subject: LinkedDataSubject)
    ensures
        subject_shape(subject).identity == subject.identity,
        subject_shape(subject).predicates == predicate_shapes(subject.predicates@),
{
    assert(subject_shape(subject).predicates =~= predicate_shapes(subject.predicates@));
}

/// The shape of a predicate is its identity with the shapes of its objects.
pub proof fn lemma_predicate_shape(predicate: LinkedDataPredicateObjects)
    ensures
        predicate_shape(predicate).predicate == predicate.predicate,
        predicate_shape(predicate).objects == subject_shapes(predicate.objects@),
{
    assert(predicate_shape(predicate).objects =~= subject_shapes(predicate.objects@));
}

} // verus!
