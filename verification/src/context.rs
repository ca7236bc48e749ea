//! Where in a traversal a value is being read, for diagnostics.
use vstd::prelude::*;
use crate::interpretation::Interpretation;
use crate::rdf::{IdView, TermView};

verus! {

/// How an ancestor of the value being read is known: by its resource, by an
/// IRI, or not at all.
#[derive(Clone, Copy, Debug, PartialEq, Eq)]
pub enum ResourceOrIriRef<'a> {
    Resource(usize),
    Iri(&'a str),
    Anonymous,
}

/// The IRI a resource stands for in an interpretation, if it stands for one.
pub open spec fn iri_of_resource(interpretation: Seq<Option<TermView>>, resource: usize) -> Option<
    Seq<char>,
> {
    if resource < interpretation.len() {
        match interpretation[resource as int] {
            Some(TermView::Id(IdView::Iri(iri))) => Some(iri),
            _ => None,
        }
    } else {
        None
    }
}

impl<'a> ResourceOrIriRef<'a> {
    /// The IRI naming this ancestor, if there is one.
    pub open spec fn iri(self, interpretation: Seq<Option<TermView>>) -> Option<Seq<char>> {
        match self {
            ResourceOrIriRef::Resource(resource) => iri_of_resource(interpretation, resource),
            ResourceOrIriRef::Iri(iri) => Some(iri@),
            ResourceOrIriRef::Anonymous => None,
        }
    }

    /// Resolves this reference to an owned IRI: the IRI that the resource
    /// stands for, the IRI itself, or nothing for an anonymous ancestor or a
    /// resource that is no IRI.
    pub fn into_iri(self, interpretation: &Interpretation) -> (res: Option<String>)
        ensures
            option_string_view(res) == self.iri(interpretation@),
    {
        match self {
            ResourceOrIriRef::Resource(resource) => match interpretation.iri_of(resource) {
                Some(iri) => Some(iri.clone()),
                None => None,
            },
            ResourceOrIriRef::Iri(iri) => Some(String::from_str(iri)),
            ResourceOrIriRef::Anonymous => None,
        }
    }
}

/// Mathematical value of an optional string.
pub open spec fn option_string_view(value: Option<String>) -> Option<Seq<char>> {
    match value {
        Some(s) => Some(s@),
        None => None,
    }
}

/// Position of the value being read: a subject, a predicate of a subject, or
/// an object of a subject and predicate.
#[derive(Clone, Copy, Debug, PartialEq, Eq)]
pub enum Context<'a> {
    Subject,
    Predicate { subject: ResourceOrIriRef<'a> },
    Object { subject: ResourceOrIriRef<'a>, predicate: ResourceOrIriRef<'a> },
}

/// A [`Context`] with every ancestor resolved to its IRI.
#[derive(Debug, PartialEq, Eq)]
pub enum ContextIris {
    Subject,
    Predicate { subject: Option<String> },
    Object { subject: Option<String>, predicate: Option<String> },
}

/// Mathematical value of a [`ContextIris`].
pub enum ContextIrisView {
    Subject,
    Predicate { subject: Option<Seq<char>> },
    Object { subject: Option<Seq<char>>, predicate: Option<Seq<char>> },
}

impl View for ContextIris {
    type V = ContextIrisView;

    open spec fn view(&self) -> ContextIrisView {
        match self {
            ContextIris::Subject => ContextIrisView::Subject,
            ContextIris::Predicate { subject } => ContextIrisView::Predicate {
                subject: option_string_view(*subject),
            },
            ContextIris::Object { subject, predicate } => ContextIrisView::Object {
                subject: option_string_view(*subject),
                predicate: option_string_view(*predicate),
            },
        }
    }
}

/// Copies an optional string.
pub fn clone_option_string(value: &Option<String>) -> (res: Option<String>)
    ensures
        res == *value,
{
    match value {
        Some(s) => Some(s.clone()),
        None => None,
    }
}

impl Clone for ContextIris {
    fn clone(&self) -> (res: Self)
        ensures
            res == *self,
    {
        match self {
            ContextIris::Subject => ContextIris::Subject,
            ContextIris::Predicate { subject } => ContextIris::Predicate {
                subject: clone_option_string(subject),
            },
            ContextIris::Object { subject, predicate } => ContextIris::Object {
                subject: clone_option_string(subject),
                predicate: clone_option_string(predicate),
            },
        }
    }
}

impl<'a> Context<'a> {
    /// Context of the predicates of `subject`, whatever the context was.
    pub fn with_subject(self, subject: usize) -> (res: Self)
        ensures
            res == (Context::Predicate { subject: ResourceOrIriRef::Resource(subject) }),
    {
        Context::Predicate { subject: ResourceOrIriRef::Resource(subject) }
    }

    /// What `with_predicate` and its two siblings return: from a predicate
    /// context, the object context of the same subject and the given
    /// predicate; from any other context, the subject context.
    pub open spec fn descend(self, predicate: ResourceOrIriRef<'a>) -> Self {
        match self {
            Context::Predicate { subject } => Context::Object { subject, predicate },
            _ => Context::Subject,
        }
    }

    /// Context of the objects of the predicate known by its resource.
    pub fn with_predicate(self, predicate: usize) -> (res: Self)
        ensures
            res == self.descend(ResourceOrIriRef::Resource(predicate)),
    {
        match self {
            Context::Predicate { subject } => Context::Object {
                subject,
                predicate: ResourceOrIriRef::Resource(predicate),
            },
            _ => Context::Subject,
        }
    }

    /// Context of the objects of the predicate known by its IRI.
    pub fn with_predicate_iri(self, predicate: &'a str) -> (res: Self)
        ensures
            res == self.descend(ResourceOrIriRef::Iri(predicate)),
    {
        match self {
            Context::Predicate { subject } => Context::Object {
                subject,
                predicate: ResourceOrIriRef::Iri(predicate),
            },
            _ => Context::Subject,
        }
    }

    /// Context of the objects of a predicate that has no name.
    pub fn with_anonymous_predicate(self) -> (res: Self)
        ensures
            res == self.descend(ResourceOrIriRef::Anonymous),
    {
        match self {
            Context::Predicate { subject } => Context::Object {
                subject,
                predicate: ResourceOrIriRef::Anonymous,
            },
            _ => Context::Subject,
        }
    }

    /// This context with every ancestor resolved to its IRI.
    pub open spec fn iris(self, interpretation: Seq<Option<TermView>>) -> ContextIrisView {
        match self {
            Context::Subject => ContextIrisView::Subject,
            Context::Predicate { subject } => ContextIrisView::Predicate {
                subject: subject.iri(interpretation),
            },
            Context::Object { subject, predicate } => ContextIrisView::Object {
                subject: subject.iri(interpretation),
                predicate: predicate.iri(interpretation),
            },
        }
    }

    /// Resolves every ancestor of this context to its IRI.
    pub fn into_iris(self, interpretation: &Interpretation) -> (res: ContextIris)
        ensures
            res@ == self.iris(interpretation@),
    {
        match self {
            Context::Subject => ContextIris::Subject,
            Context::Predicate { subject } => ContextIris::Predicate {
                subject: subject.into_iri(interpretation),
            },
            Context::Object { subject, predicate } => ContextIris::Object {
                subject: subject.into_iri(interpretation),
                predicate: predicate.into_iri(interpretation),
            },
        }
    }
}

impl<'a> Default for Context<'a> {
    fn default() -> (res: Self)
        ensures
            res == Context::<'a>::Subject,
    {
        Context::Subject
    }
}

} // verus!
