//! Mapping between lexical terms and resource handles.
use vstd::prelude::*;
use crate::rdf::{Id, Term, TermView};
use crate::vocabulary::{handle_of, interned, lemma_handle_of, table_after};

verus! {

/// Mathematical value of what one resource stands for: a term, or nothing
/// for an anonymous resource.
pub open spec fn entry_view(entry: Option<Term>) -> Option<TermView> {
    match entry {
        Some(term) => Some(term@),
        None => None,
    }
}

/// Mathematical value of a table of resources.
pub open spec fn entries_view(entries: Seq<Option<Term>>) -> Seq<Option<TermView>> {
    entries.map_values(|entry: Option<Term>| entry_view(entry))
}

/// Mapping between terms and resource handles. A handle is the place of the
/// resource in the table, and means nothing in another interpretation.
pub struct Interpretation {
    pub resources: Vec<Option<Term>>,
}

impl View for Interpretation {
    type V = Seq<Option<TermView>>;

    open spec fn view(&self) -> Seq<Option<TermView>> {
        entries_view(self.resources@)
    }
}

impl Interpretation {
    /// Creates an interpretation with no resource.
    pub fn new() -> (res: Interpretation)
        ensures
            res@.len() == 0,
    {
        Interpretation { resources: Vec::new() }
    }

    /// Number of resources allocated so far.
    pub fn len(&self) -> (res: usize)
        ensures
            res == self@.len(),
    {
        self.resources.len()
    }

    /// Allocates a fresh anonymous resource. Its handle was never handed out
    /// before, and every earlier handle keeps its meaning.
    pub fn new_resource(&mut self) -> (res: usize)
        ensures
            res == old(self)@.len(),
            final(self)@ == old(self)@.push(None),
    {
        let handle = self.resources.len();
        self.resources.push(None);
        assert(self@ == old(self)@.push(None));
        handle
    }

    /// Returns the resource that stands for `term`, allocating one if the
    /// term has none yet.
    pub fn interpret_term(&mut self, term: &Term) -> (res: usize)
        ensures
            final(self)@ == table_after(old(self)@, Some(term@)),
            res == handle_of(old(self)@, Some(term@)),
            res < final(self)@.len(),
            final(self)@[res as int] == Some(term@),
    {
        let ghost before = self@;
        proof {
            lemma_handle_of(before, Some(term@));
        }
        match self.find(term) {
            Some(handle) => handle,
            None => {
                let handle = self.resources.len();
                self.resources.push(Some(term.clone()));
                assert(self@ == before.push(Some(term@)));
                handle
            },
        }
    }

    /// The first resource that stands for `term`, if any.
    fn find(&self, term: &Term) -> (res: Option<usize>)
        ensures
            interned(self@, Some(term@)) ==> res == Some(handle_of(self@, Some(term@)) as usize)
                && res.unwrap() == handle_of(self@, Some(term@)),
            !interned(self@, Some(term@)) ==> res.is_none(),
    {
        let ghost table = self@;
        proof {
            lemma_handle_of(table, Some(term@));
        }
        let mut i: usize = 0;
        while i < self.resources.len()
            invariant
                i <= self.resources.len(),
                table == self@,
                i <= handle_of(table, Some(term@)) <= table.len(),
                interned(table, Some(term@)) <==> handle_of(table, Some(term@)) < table.len(),
                handle_of(table, Some(term@)) < table.len() ==> table[handle_of(
                    table,
                    Some(term@),
                )] == Some(term@),
                forall|j: int|
                    0 <= j < handle_of(table, Some(term@)) ==> #[trigger] table[j] != Some(
                        term@,
                    ),
            decreases self.resources.len() - i,
        {
            assert(table[i as int] == entry_view(self.resources@[i as int]));
            let found = match &self.resources[i] {
                Some(held) => *held == *term,
                None => false,
            };
            if found {
                assert(table[i as int] == Some(term@));
                assert(interned(table, Some(term@)));
                return Some(i);
            }
            assert(i as int != handle_of(table, Some(term@)));
            i += 1;
        }
        None
    }

    /// Returns the resource that stands for the given IRI, allocating one if
    /// it has none yet.
    pub fn interpret_iri(&mut self, iri: String) -> (res: usize)
        ensures
            final(self)@ == table_after(old(self)@, Some(Term::Id(Id::Iri(iri))@)),
            res == handle_of(old(self)@, Some(Term::Id(Id::Iri(iri))@)),
    {
        self.interpret_term(&Term::Id(Id::Iri(iri)))
    }

    /// Returns the resource that stands for the blank node of the given
    /// label, allocating one if it has none yet.
    pub fn interpret_blank_id(&mut self, label: String) -> (res: usize)
        ensures
            final(self)@ == table_after(old(self)@, Some(Term::Id(Id::Blank(label))@)),
            res == handle_of(old(self)@, Some(Term::Id(Id::Blank(label))@)),
    {
        self.interpret_term(&Term::Id(Id::Blank(label)))
    }

    /// The term that the given resource stands for, if it is allocated and
    /// not anonymous.
    pub fn term_of(&self, resource: usize) -> (res: Option<&Term>)
        ensures
            resource < self@.len() ==> entry_view(
                match res {
                    Some(term) => Some(*term),
                    None => None,
                },
            ) == self@[resource as int],
            resource >= self@.len() ==> res.is_none(),
    {
        if resource < self.resources.len() {
            assert(self@[resource as int] == entry_view(self.resources@[resource as int]));
            match &self.resources[resource] {
                Some(term) => Some(term),
                None => None,
            }
        } else {
            None
        }
    }

    /// The IRI that the given resource stands for, if it stands for one.
    pub fn iri_of(&self, resource: usize) -> (res: Option<&String>)
        ensures
            res.is_some() <==> resource < self@.len() && (self@[resource as int] matches Some(
                TermView::Id(crate::rdf::IdView::Iri(_)),
            )),
            res.is_some() ==> self@[resource as int] == Some(
                TermView::Id(crate::rdf::IdView::Iri(res.unwrap()@)),
            ),
    {
        match self.term_of(resource) {
            Some(Term::Id(Id::Iri(iri))) => Some(iri),
            _ => None,
        }
    }

    /// The resources that stand for `term`: none if the term was never
    /// interpreted, else the one handle it was given.
    pub fn resources_for(&self, term: &Term) -> (res: Vec<usize>)
        ensures
            interned(self@, Some(term@)) ==> res@ == seq![handle_of(self@, Some(term@)) as usize],
            !interned(self@, Some(term@)) ==> res@.len() == 0,
    {
        let mut found: Vec<usize> = Vec::new();
        match self.find(term) {
            Some(handle) => {
                found.push(handle);
                assert(found@ == seq![handle]);
            },
            None => {},
        }
        found
    }
}

} // verus!
