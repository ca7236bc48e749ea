//! Interpretation of terms as query variables.
use vstd::prelude::*;
use crate::rdf::{Id, Literal, Term, TermView};
use crate::sparql::{variable_name, SparqlVariable};

verus! {

/// One term and the index of the variable that stands for it.
pub struct Binding {
    pub term: Term,
    pub index: usize,
}

/// Mathematical value of a [`SparqlInterpretation`].
pub struct SparqlInterpretationView {
    /// Index of the variable bound to each term seen so far.
    pub variables: Map<TermView, nat>,
    /// Index of the next variable to be minted.
    pub next_var_index: nat,
}

impl SparqlInterpretationView {
    /// Every bound variable was minted before `next_var_index`, and no two
    /// terms share a variable.
    pub open spec fn wf(self) -> bool {
        &&& forall|t: TermView| #[trigger]
            self.variables.contains_key(t) ==> self.variables[t] < self.next_var_index
        &&& forall|t: TermView, u: TermView|
            #![trigger self.variables[t], self.variables[u]]
            self.variables.contains_key(t) && self.variables.contains_key(u) && t != u
                ==> self.variables[t] != self.variables[u]
    }
}

/// Map from terms to variable indexes described by a list of bindings, later
/// bindings first.
pub open spec fn bindings_map(bindings: Seq<Binding>) -> Map<TermView, nat>
    decreases bindings.len(),
{
    if bindings.len() == 0 {
        Map::empty()
    } else {
        bindings_map(bindings.drop_last()).insert(
            bindings.last().term@,
            bindings.last().index as nat,
        )
    }
}

/// No two bindings are about the same term.
pub open spec fn distinct_terms(bindings: Seq<Binding>) -> bool {
    forall|i: int, j: int|
        0 <= i < j < bindings.len() ==> (#[trigger] bindings[i]).term@ != (
        #[trigger] bindings[j]).term@
}

/// Variable indexes grow along the list and stay below `next`.
pub open spec fn increasing_indexes(bindings: Seq<Binding>, next: nat) -> bool {
    &&& forall|i: int, j: int|
        0 <= i < j < bindings.len() ==> (#[trigger] bindings[i]).index < (
        #[trigger] bindings[j]).index
    &&& forall|i: int| 0 <= i < bindings.len() ==> (#[trigger] bindings[i]).index < next
}

/// What the map of a list of bindings holds: exactly the listed terms, each
/// with the index it is listed with.
pub proof fn lemma_bindings_map(bindings: Seq<Binding>)
    requires
        distinct_terms(bindings),
    ensures
        forall|i: int|
            0 <= i < bindings.len() ==> bindings_map(bindings).contains_key(
                (#[trigger] bindings[i]).term@,
            ) && bindings_map(bindings)[bindings[i].term@] == bindings[i].index,
        forall|t: TermView| #[trigger]
            bindings_map(bindings).contains_key(t) ==> exists|i: int|
                0 <= i < bindings.len() && (#[trigger] bindings[i]).term@ == t,
    decreases bindings.len(),
{
    if bindings.len() > 0 {
        let front = bindings.drop_last();
        lemma_bindings_map(front);
        assert forall|i: int| 0 <= i < bindings.len() implies bindings_map(
            bindings,
        ).contains_key((#[trigger] bindings[i]).term@) && bindings_map(
            bindings,
        )[bindings[i].term@] == bindings[i].index by {
            if i < bindings.len() - 1 {
                assert(front[i] == bindings[i]);
                assert(bindings[i].term@ != bindings[bindings.len() - 1].term@);
            }
        }
        assert forall|t: TermView| #[trigger] bindings_map(bindings).contains_key(t) implies exists|
            i: int,
        | 0 <= i < bindings.len() && (#[trigger] bindings[i]).term@ == t by {
            if t == bindings.last().term@ {
                assert(bindings[bindings.len() - 1].term@ == t);
            } else {
                assert(bindings_map(front).contains_key(t));
                let i = choose|i: int| 0 <= i < front.len() && (#[trigger] front[i]).term@ == t;
                assert(bindings[i] == front[i]);
            }
        }
    }
}

/// A stateful map from the terms seen so far to freshly minted variables.
pub struct SparqlInterpretation {
    bindings: Vec<Binding>,
    next_var_index: usize,
}

impl View for SparqlInterpretation {
    type V = SparqlInterpretationView;

    closed spec fn view(&self) -> SparqlInterpretationView {
        SparqlInterpretationView {
            variables: bindings_map(self.bindings@),
            next_var_index: self.next_var_index as nat,
        }
    }
}

impl SparqlInterpretation {
    #[verifier::type_invariant]
    spec fn inv(self) -> bool {
        &&& distinct_terms(self.bindings@)
        &&& increasing_indexes(self.bindings@, self.next_var_index as nat)
    }

    /// Creates an interpretation that has seen no term.
    pub fn new() -> (res: SparqlInterpretation)
        ensures
            res@.variables == Map::<TermView, nat>::empty(),
            res@.next_var_index == 0,
            res@.wf(),
    {
        SparqlInterpretation { bindings: Vec::new(), next_var_index: 0 }
    }

    /// Index of the next variable to be minted.
    pub fn next_var_index(&self) -> (res: usize)
        ensures
            res == self@.next_var_index,
            self@.wf(),
    {
        proof {
            use_type_invariant(self);
            self.lemma_wf();
        }
        self.next_var_index
    }

    proof fn lemma_wf(&self)
        requires
            distinct_terms(self.bindings@),
            increasing_indexes(self.bindings@, self.next_var_index as nat),
        ensures
            self@.wf(),
    {
        lemma_bindings_map(self.bindings@);
        let m = bindings_map(self.bindings@);
        assert forall|t: TermView| #[trigger] m.contains_key(t) implies m[t]
            < self.next_var_index as nat by {
            let i = choose|i: int|
                0 <= i < self.bindings@.len() && (#[trigger] self.bindings@[i]).term@ == t;
            assert(m[self.bindings@[i].term@] == self.bindings@[i].index);
        }
        assert forall|t: TermView, u: TermView|
            #![trigger m[t], m[u]]
            m.contains_key(t) && m.contains_key(u) && t != u implies m[t] != m[u] by {
            let i = choose|i: int|
                0 <= i < self.bindings@.len() && (#[trigger] self.bindings@[i]).term@ == t;
            let j = choose|j: int|
                0 <= j < self.bindings@.len() && (#[trigger] self.bindings@[j]).term@ == u;
            assert(m[self.bindings@[i].term@] == self.bindings@[i].index);
            assert(m[self.bindings@[j].term@] == self.bindings@[j].index);
            assert(i != j);
            if i < j {
                assert(self.bindings@[i].index < self.bindings@[j].index);
            } else {
                assert(self.bindings@[j].index < self.bindings@[i].index);
            }
        }
    }

    /// Variable bound to the given term, if the term was seen.
    pub fn variable_of(&self, term: &Term) -> (res: Option<SparqlVariable>)
        ensures
            self@.wf(),
            self@.variables.contains_key(term@) ==> res.is_some() && res.unwrap()@
                == variable_name(self@.variables[term@]),
            !self@.variables.contains_key(term@) ==> res.is_none(),
    {
        proof {
            use_type_invariant(self);
            self.lemma_wf();
        }
        match self.find(term) {
            Some(index) => Some(SparqlVariable::from_index(index)),
            None => None,
        }
    }

    /// Index of the variable bound to the given term, if the term was seen.
    fn find(&self, term: &Term) -> (res: Option<usize>)
        ensures
            self@.variables.contains_key(term@) ==> res == Some(
                self@.variables[term@] as usize,
            ) && self@.variables[term@] == res.unwrap(),
            !self@.variables.contains_key(term@) ==> res.is_none(),
    {
        proof {
            use_type_invariant(self);
            lemma_bindings_map(self.bindings@);
        }
        let mut i: usize = 0;
        while i < self.bindings.len()
            invariant
                i <= self.bindings.len(),
                forall|j: int| 0 <= j < i ==> (#[trigger] self.bindings@[j]).term@ != term@,
                forall|j: int|
                    0 <= j < self.bindings@.len() ==> bindings_map(self.bindings@).contains_key(
                        (#[trigger] self.bindings@[j]).term@,
                    ) && bindings_map(self.bindings@)[self.bindings@[j].term@]
                        == self.bindings@[j].index,
            decreases self.bindings.len() - i,
        {
            if self.bindings[i].term == *term {
                return Some(self.bindings[i].index);
            }
            i += 1;
        }
        assert(!bindings_map(self.bindings@).contains_key(term@)) by {
            if bindings_map(self.bindings@).contains_key(term@) {
                let j = choose|j: int|
                    0 <= j < self.bindings@.len() && (#[trigger] self.bindings@[j]).term@
                        == term@;
                assert(self.bindings@[j].term@ != term@);
            }
        }
        None
    }

    /// Mints a fresh variable, bound to no term.
    pub fn new_resource(&mut self) -> (res: SparqlVariable)
        requires
            old(self)@.next_var_index < usize::MAX,
        ensures
            res@ == variable_name(old(self)@.next_var_index),
            final(self)@.next_var_index == old(self)@.next_var_index + 1,
            final(self)@.variables == old(self)@.variables,
            final(self)@.wf(),
    {
        proof {
            use_type_invariant(&*self);
        }
        let index = self.next_var_index;
        self.next_var_index = index + 1;
        proof {
            self.lemma_wf();
        }
        SparqlVariable::from_index(index)
    }

    /// Returns the variable that stands for `term`, minting the next one if
    /// the term was not seen before.
    pub fn add_term(&mut self, term: Term) -> (res: SparqlVariable)
        requires
            old(self)@.next_var_index < usize::MAX,
        ensures
            final(self)@.wf(),
            old(self)@.variables.contains_key(term@) ==> final(self)@ == old(self)@ && res@
                == variable_name(old(self)@.variables[term@]),
            !old(self)@.variables.contains_key(term@) ==> final(self)@.variables == old(
                self,
            )@.variables.insert(term@, old(self)@.next_var_index) && final(self)@.next_var_index
                == old(self)@.next_var_index + 1 && res@ == variable_name(
                old(self)@.next_var_index,
            ),
    {
        proof {
            use_type_invariant(&*self);
            lemma_bindings_map(self.bindings@);
        }
        match self.find(&term) {
            Some(index) => {
                proof {
                    self.lemma_wf();
                }
                SparqlVariable::from_index(index)
            },
            None => {
                let mut taken = SparqlInterpretation::new();
                std::mem::swap(self, &mut taken);
                let SparqlInterpretation { bindings, next_var_index } = taken;
                let mut bindings = bindings;
                let index = next_var_index;
                let ghost before = bindings@;
                bindings.push(Binding { term, index });
                proof {
                    assert(bindings@.drop_last() == before);
                }
                *self = SparqlInterpretation { bindings, next_var_index: index + 1 };
                proof {
                    self.lemma_wf();
                }
                SparqlVariable::from_index(index)
            },
        }
    }

    /// Returns the variable that stands for the blank node of the given label.
    pub fn interpret_blank_id(&mut self, blank_id: String) -> (res: SparqlVariable)
        requires
            old(self)@.next_var_index < usize::MAX,
        ensures
            final(self)@.wf(),
            final(self)@.variables.contains_key(Term::Id(Id::Blank(blank_id))@),
            res@ == variable_name(final(self)@.variables[Term::Id(Id::Blank(blank_id))@]),
    {
        self.add_term(Term::Id(Id::Blank(blank_id)))
    }

    /// Returns the variable that stands for the given IRI.
    pub fn interpret_iri(&mut self, iri: String) -> (res: SparqlVariable)
        requires
            old(self)@.next_var_index < usize::MAX,
        ensures
            final(self)@.wf(),
            final(self)@.variables.contains_key(Term::Id(Id::Iri(iri))@),
            res@ == variable_name(final(self)@.variables[Term::Id(Id::Iri(iri))@]),
    {
        self.add_term(Term::Id(Id::Iri(iri)))
    }

    /// Returns the variable that stands for the given literal.
    pub fn interpret_literal(&mut self, literal: Literal) -> (res: SparqlVariable)
        requires
            old(self)@.next_var_index < usize::MAX,
        ensures
            final(self)@.wf(),
            final(self)@.variables.contains_key(Term::Literal(literal)@),
            res@ == variable_name(final(self)@.variables[Term::Literal(literal)@]),
    {
        self.add_term(Term::Literal(literal))
    }
}

} // verus!
