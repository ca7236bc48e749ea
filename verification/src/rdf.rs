//! Lexical RDF data: identifiers, literals, terms and quads.
use vstd::prelude::*;
use vstd::std_specs::cmp::PartialEqSpecImpl;

verus! {

/// Mathematical value of an [`Id`].
pub enum IdView {
    Iri(Seq<char>),
    Blank(Seq<char>),
}

/// Mathematical value of a [`LiteralType`].
pub enum LiteralTypeView {
    Any(Seq<char>),
    LangString(Seq<char>),
}

/// Mathematical value of a [`Literal`].
pub struct LiteralView {
    pub value: Seq<char>,
    pub type_: LiteralTypeView,
}

/// Mathematical value of a [`Term`].
pub enum TermView {
    Id(IdView),
    Literal(LiteralView),
}

/// Mathematical value of a [`Quad`].
pub struct QuadView {
    pub subject: IdView,
    pub predicate: Seq<char>,
    pub object: TermView,
    pub graph: Option<IdView>,
}

/// Node identifier: an IRI or a blank node label.
#[derive(Debug, Eq)]
pub enum Id {
    Iri(String),
    Blank(String),
}

impl View for Id {
    type V = IdView;

    open spec fn view(&self) -> IdView {
        match self {
            Id::Iri(iri) => IdView::Iri(iri@),
            Id::Blank(label) => IdView::Blank(label@),
        }
    }
}

impl Clone for Id {
    fn clone(&self) -> (res: Self)
        ensures
            res == *self,
    {
        match self {
            Id::Iri(iri) => Id::Iri(iri.clone()),
            Id::Blank(label) => Id::Blank(label.clone()),
        }
    }
}

impl PartialEq for Id {
    fn eq(&self, other: &Self) -> (res: bool) {
        match self {
            Id::Iri(a) => match other {
                Id::Iri(b) => *a == *b,
                Id::Blank(_) => false,
            },
            Id::Blank(a) => match other {
                Id::Iri(_) => false,
                Id::Blank(b) => *a == *b,
            },
        }
    }
}

impl PartialEqSpecImpl for Id {
    open spec fn obeys_eq_spec() -> bool {
        true
    }

    open spec fn eq_spec(&self, other: &Self) -> bool {
        self@ == other@
    }
}

/// Type of a literal: a datatype IRI, or a language tag for language-tagged
/// strings.
#[derive(Debug, Eq)]
pub enum LiteralType {
    Any(String),
    LangString(String),
}

impl View for LiteralType {
    type V = LiteralTypeView;

    open spec fn view(&self) -> LiteralTypeView {
        match self {
            LiteralType::Any(iri) => LiteralTypeView::Any(iri@),
            LiteralType::LangString(tag) => LiteralTypeView::LangString(tag@),
        }
    }
}

impl Clone for LiteralType {
    fn clone(&self) -> (res: Self)
        ensures
            res == *self,
    {
        match self {
            LiteralType::Any(iri) => LiteralType::Any(iri.clone()),
            LiteralType::LangString(tag) => LiteralType::LangString(tag.clone()),
        }
    }
}

impl PartialEq for LiteralType {
    fn eq(&self, other: &Self) -> (res: bool) {
        match self {
            LiteralType::Any(a) => match other {
                LiteralType::Any(b) => *a == *b,
                LiteralType::LangString(_) => false,
            },
            LiteralType::LangString(a) => match other {
                LiteralType::Any(_) => false,
                LiteralType::LangString(b) => *a == *b,
            },
        }
    }
}

impl PartialEqSpecImpl for LiteralType {
    open spec fn obeys_eq_spec() -> bool {
        true
    }

    open spec fn eq_spec(&self, other: &Self) -> bool {
        self@ == other@
    }
}

/// RDF literal: a lexical value and its type.
#[derive(Debug, Eq)]
pub struct Literal {
    pub value: String,
    pub type_: LiteralType,
}

impl View for Literal {
    type V = LiteralView;

    open spec fn view(&self) -> LiteralView {
        LiteralView { value: self.value@, type_: self.type_@ }
    }
}

impl Clone for Literal {
    fn clone(&self) -> (res: Self)
        ensures
            res == *self,
    {
        Literal { value: self.value.clone(), type_: self.type_.clone() }
    }
}

impl PartialEq for Literal {
    fn eq(&self, other: &Self) -> (res: bool) {
        self.value == other.value && self.type_ == other.type_
    }
}

impl PartialEqSpecImpl for Literal {
    open spec fn obeys_eq_spec() -> bool {
        true
    }

    open spec fn eq_spec(&self, other: &Self) -> bool {
        self@ == other@
    }
}

/// RDF term: an identifier or a literal.
#[derive(Debug, Eq)]
pub enum Term {
    Id(Id),
    Literal(Literal),
}

impl View for Term {
    type V = TermView;

    open spec fn view(&self) -> TermView {
        match self {
            Term::Id(id) => TermView::Id(id@),
            Term::Literal(literal) => TermView::Literal(literal@),
        }
    }
}

impl Clone for Term {
    fn clone(&self) -> (res: Self)
        ensures
            res == *self,
    {
        match self {
            Term::Id(id) => Term::Id(id.clone()),
            Term::Literal(literal) => Term::Literal(literal.clone()),
        }
    }
}

impl PartialEq for Term {
    fn eq(&self, other: &Self) -> (res: bool) {
        match self {
            Term::Id(a) => match other {
                Term::Id(b) => *a == *b,
                Term::Literal(_) => false,
            },
            Term::Literal(a) => match other {
                Term::Id(_) => false,
                Term::Literal(b) => *a == *b,
            },
        }
    }
}

impl PartialEqSpecImpl for Term {
    open spec fn obeys_eq_spec() -> bool {
        true
    }

    open spec fn eq_spec(&self, other: &Self) -> bool {
        self@ == other@
    }
}

impl Term {
    /// Builds the term naming the given IRI.
    pub fn iri(iri: String) -> (res: Term)
        ensures
            res == Term::Id(Id::Iri(iri)),
    {
        Term::Id(Id::Iri(iri))
    }

    /// Builds the term naming the given blank node label.
    pub fn blank(label: String) -> (res: Term)
        ensures
            res == Term::Id(Id::Blank(label)),
    {
        Term::Id(Id::Blank(label))
    }

    /// Returns the identifier this term holds, if it is not a literal.
    pub fn as_id(&self) -> (res: Option<&Id>)
        ensures
            res == (match *self {
                Term::Id(id) => Some(&id),
                Term::Literal(_) => None::<&Id>,
            }),
    {
        match self {
            Term::Id(id) => Some(id),
            Term::Literal(_) => None,
        }
    }
}

/// The atomic serialized fact: subject, predicate, object and optional graph
/// label.
#[derive(Debug, Eq)]
pub struct Quad {
    pub subject: Id,
    pub predicate: String,
    pub object: Term,
    pub graph: Option<Id>,
}

/// Mathematical value of an optional graph label.
pub open spec fn graph_view(graph: Option<Id>) -> Option<IdView> {
    match graph {
        Some(id) => Some(id@),
        None => None,
    }
}

impl View for Quad {
    type V = QuadView;

    open spec fn view(&self) -> QuadView {
        QuadView {
            subject: self.subject@,
            predicate: self.predicate@,
            object: self.object@,
            graph: graph_view(self.graph),
        }
    }
}

/// Copies an optional graph label.
pub fn clone_graph(graph: &Option<Id>) -> (res: Option<Id>)
    ensures
        res == *graph,
{
    match graph {
        Some(id) => Some(id.clone()),
        None => None,
    }
}

impl Clone for Quad {
    fn clone(&self) -> (res: Self)
        ensures
            res == *self,
    {
        Quad {
            subject: self.subject.clone(),
            predicate: self.predicate.clone(),
            object: self.object.clone(),
            graph: clone_graph(&self.graph),
        }
    }
}

impl PartialEq for Quad {
    fn eq(&self, other: &Self) -> (res: bool) {
        let same_graph = match &self.graph {
            Some(a) => match &other.graph {
                Some(b) => *a == *b,
                None => false,
            },
            None => other.graph.is_none(),
        };
        same_graph && self.subject == other.subject && self.predicate == other.predicate
            && self.object == other.object
    }
}

impl PartialEqSpecImpl for Quad {
    open spec fn obeys_eq_spec() -> bool {
        true
    }

    open spec fn eq_spec(&self, other: &Self) -> bool {
        self@ == other@
    }
}

/// Mathematical value of a sequence of quads.
pub open spec fn quads_view(quads: Seq<Quad>) -> Seq<QuadView> {
    quads.map_values(|q: Quad| q@)
}

} // verus!
