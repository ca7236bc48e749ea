//! Substitution of variables for the terms of a quad set, and the query text
//! built from the result.
use vstd::prelude::*;
use vstd::string::*;
use crate::rdf::{quads_view, Id, Quad, QuadView, Term, TermView};
use crate::sparql::interpretation::{SparqlInterpretation, SparqlInterpretationView};
use crate::sparql::{lemma_variable_name_injective, variable_name, SparqlVariable};

verus! {

impl SparqlInterpretationView {
    /// The interpretation that has seen no term.
    pub open spec fn empty() -> Self {
        SparqlInterpretationView { variables: Map::empty(), next_var_index: 0 }
    }

    /// The interpretation after `term` was seen: unchanged if it was seen
    /// before, else with the next variable bound to it.
    pub open spec fn add(self, term: TermView) -> Self {
        if self.variables.contains_key(term) {
            self
        } else {
            SparqlInterpretationView {
                variables: self.variables.insert(term, self.next_var_index),
                next_var_index: self.next_var_index + 1,
            }
        }
    }

    /// Name of the variable bound to `term`.
    pub open spec fn name_of(self, term: TermView) -> Seq<char> {
        variable_name(self.variables[term])
    }
}

/// The interpretation after every subject and object of `quads` was seen, in
/// order, the subject of a quad before its object.
pub open spec fn interpretation_after(quads: Seq<QuadView>) -> SparqlInterpretationView
    decreases quads.len(),
{
    if quads.len() == 0 {
        SparqlInterpretationView::empty()
    } else {
        interpretation_after(quads.drop_last()).add(TermView::Id(quads.last().subject)).add(
            quads.last().object,
        )
    }
}

/// One line of a pattern: the subject's variable, the predicate IRI between
/// angle brackets, the object's variable and a full stop.
pub open spec fn pattern_line(subject: Seq<char>, predicate: Seq<char>, object: Seq<char>) -> Seq<
    char,
> {
    "  "@ + subject + " <"@ + predicate + "> "@ + object + " ."@
}

/// The pattern of a quad set: one line per quad, in order, separated by line
/// feeds, where every term stands as the variable first bound to it.
pub open spec fn pattern_text(quads: Seq<QuadView>) -> Seq<char>
    decreases quads.len(),
{
    if quads.len() == 0 {
        Seq::empty()
    } else {
        let interpretation = interpretation_after(quads);
        let line = pattern_line(
            interpretation.name_of(TermView::Id(quads.last().subject)),
            quads.last().predicate,
            interpretation.name_of(quads.last().object),
        );
        if quads.len() == 1 {
            line
        } else {
            pattern_text(quads.drop_last()) + "\n"@ + line
        }
    }
}

/// The query text of a quad set: its pattern in a `SELECT` clause and once
/// more in a `WHERE` clause.
pub open spec fn query_text(quads: Seq<QuadView>) -> Seq<char> {
    "SELECT {\n"@ + pattern_text(quads) + "\n}\nWHERE {\n"@ + pattern_text(quads) + "\n}"@
}

/// Seeing a term keeps an interpretation well formed, keeps what was bound
/// before and binds the term.
pub proof fn lemma_add_keeps(interpretation: SparqlInterpretationView, term: TermView)
    requires
        interpretation.wf(),
    ensures
        interpretation.add(term).wf(),
        interpretation.add(term).variables.contains_key(term),
        interpretation.add(term).next_var_index <= interpretation.next_var_index + 1,
        forall|t: TermView| #[trigger]
            interpretation.variables.contains_key(t) ==> interpretation.add(
                term,
            ).variables.contains_key(t) && interpretation.add(term).variables[t]
                == interpretation.variables[t],
{
    let after = interpretation.add(term);
    if !interpretation.variables.contains_key(term) {
        assert forall|t: TermView, u: TermView|
            #![trigger after.variables[t], after.variables[u]]
            after.variables.contains_key(t) && after.variables.contains_key(u) && t
                != u implies after.variables[t] != after.variables[u] by {
            if t != term {
                assert(interpretation.variables.contains_key(t));
            }
            if u != term {
                assert(interpretation.variables.contains_key(u));
            }
        }
    }
}

/// The interpretation after a quad set is well formed and has minted at most
/// two variables per quad.
pub proof fn lemma_interpretation_after(quads: Seq<QuadView>)
    ensures
        interpretation_after(quads).wf(),
        interpretation_after(quads).next_var_index <= 2 * quads.len(),
    decreases quads.len(),
{
    if quads.len() > 0 {
        lemma_interpretation_after(quads.drop_last());
        let before = interpretation_after(quads.drop_last());
        lemma_add_keeps(before, TermView::Id(quads.last().subject));
        lemma_add_keeps(before.add(TermView::Id(quads.last().subject)), quads.last().object);
    }
}

/// Variables are given out from `?a` on: the subject of the first quad
/// stands as `?a`, and its object, where it is another term, as `?b`.
pub proof fn lemma_first_variables(quads: Seq<QuadView>)
    requires
        quads.len() >= 1,
    ensures
        interpretation_after(quads.take(1)).name_of(TermView::Id(quads[0].subject)) == "?a"@,
        quads[0].object != TermView::Id(quads[0].subject) ==> interpretation_after(
            quads.take(1),
        ).name_of(quads[0].object) == "?b"@,
{
    let first = quads.take(1);
    assert(first.drop_last() =~= Seq::<QuadView>::empty());
    assert(first.last() == quads[0]);
    assert(interpretation_after(first.drop_last()) == SparqlInterpretationView::empty());
    reveal_strlit("?a");
    reveal_strlit("?b");
    reveal_strlit("abcdefghijklmnopqrstuvwxyz");
    assert(variable_name(0) =~= "?a"@);
    assert(variable_name(1) =~= "?b"@);
}

/// Two distinct terms of a quad set never stand as the same variable.
pub proof fn lemma_no_aliasing(quads: Seq<QuadView>, t: TermView, u: TermView)
    requires
        interpretation_after(quads).variables.contains_key(t),
        interpretation_after(quads).variables.contains_key(u),
        t != u,
    ensures
        interpretation_after(quads).name_of(t) != interpretation_after(quads).name_of(u),
{
    lemma_interpretation_after(quads);
    let interpretation = interpretation_after(quads);
    assert(interpretation.variables[t] != interpretation.variables[u]);
    if interpretation.name_of(t) == interpretation.name_of(u) {
        lemma_variable_name_injective(interpretation.variables[t], interpretation.variables[u]);
    }
}

/// Maps the positions of a quad to what stands there in a query pattern.
pub struct SparqlDomain;

impl SparqlDomain {
    /// Variable that stands for a subject.
    pub fn subject(interpretation: &mut SparqlInterpretation, value: &Id) -> (res: SparqlVariable)
        requires
            old(interpretation)@.next_var_index < usize::MAX,
        ensures
            final(interpretation)@ == old(interpretation)@.add(TermView::Id(value@)),
            res@ == final(interpretation)@.name_of(TermView::Id(value@)),
            final(interpretation)@.wf(),
    {
        interpretation.add_term(Term::Id(value.clone()))
    }

    /// Text that stands for a predicate: the IRI itself, between angle
    /// brackets. Predicates are never replaced by variables.
    pub fn predicate(value: &String) -> (res: String)
        ensures
            res@ == "<"@ + value@ + ">"@,
    {
        let mut text = String::from_str("<");
        text.append(value.as_str());
        text.append(">");
        text
    }

    /// Variable that stands for an object.
    pub fn object(interpretation: &mut SparqlInterpretation, value: &Term) -> (res: SparqlVariable)
        requires
            old(interpretation)@.next_var_index < usize::MAX,
        ensures
            final(interpretation)@ == old(interpretation)@.add(value@),
            res@ == final(interpretation)@.name_of(value@),
            final(interpretation)@.wf(),
    {
        interpretation.add_term(value.clone())
    }

    /// An object seen as a subject: the same variable.
    pub fn object_as_subject<'a>(object: &'a SparqlVariable) -> (res: &'a SparqlVariable)
        ensures
            res == object,
    {
        object
    }

    /// A subject seen as an object: the same variable.
    pub fn subject_as_object<'a>(subject: &'a SparqlVariable) -> (res: &'a SparqlVariable)
        ensures
            res == subject,
    {
        subject
    }

    /// A reference to an object.
    pub fn object_as_ref<'a>(object: &'a SparqlVariable) -> (res: &'a SparqlVariable)
        ensures
            res == object,
    {
        object
    }

    /// A copy of the object that a reference leads to.
    pub fn cloned_object_ref(object_ref: &SparqlVariable) -> (res: SparqlVariable)
        ensures
            res == *object_ref,
    {
        object_ref.clone()
    }

    /// Variable that stands for a graph label.
    pub fn graph(interpretation: &mut SparqlInterpretation, value: &Id) -> (res: SparqlVariable)
        requires
            old(interpretation)@.next_var_index < usize::MAX,
        ensures
            final(interpretation)@ == old(interpretation)@.add(TermView::Id(value@)),
            res@ == final(interpretation)@.name_of(TermView::Id(value@)),
            final(interpretation)@.wf(),
    {
        interpretation.add_term(Term::Id(value.clone()))
    }
}

/// Renders the pattern of a quad set, or nothing when the set has more terms
/// than there are variable indexes.
pub fn render_pattern(quads: &Vec<Quad>) -> (res: Option<String>)
    ensures
        2 * quads@.len() < usize::MAX ==> res.is_some() && res.unwrap()@ == pattern_text(
            quads_view(quads@),
        ),
        2 * quads@.len() >= usize::MAX ==> res.is_none(),
{
    if quads.len() >= usize::MAX / 2 + usize::MAX % 2 {
        return None;
    }
    let ghost all = quads_view(quads@);
    let mut interpretation = SparqlInterpretation::new();
    let mut text = String::new();
    let mut i: usize = 0;
    assert(all.take(0) == Seq::<QuadView>::empty());
    while i < quads.len()
        invariant
            i <= quads.len(),
            2 * quads@.len() < usize::MAX,
            all == quads_view(quads@),
            interpretation@ == interpretation_after(all.take(i as int)),
            text@ == pattern_text(all.take(i as int)),
        decreases quads.len() - i,
    {
        let ghost done = all.take(i as int);
        let ghost next = all.take(i + 1);
        proof {
            lemma_interpretation_after(done);
            assert(next.drop_last() == done);
            assert(next.last() == quads@[i as int]@);
            lemma_add_keeps(interpretation@, TermView::Id(quads@[i as int].subject@));
        }
        let quad = &quads[i];
        let subject = SparqlDomain::subject(&mut interpretation, &quad.subject);
        let object = SparqlDomain::object(&mut interpretation, &quad.object);
        proof {
            lemma_add_keeps(
                interpretation_after(done).add(TermView::Id(quad.subject@)),
                quad.object@,
            );
            assert(interpretation@ == interpretation_after(next));
        }
        if i > 0 {
            text.append("\n");
        }
        text.append("  ");
        text.append(subject.0.as_str());
        text.append(" <");
        text.append(quad.predicate.as_str());
        text.append("> ");
        text.append(object.0.as_str());
        text.append(" .");
        proof {
            let line = pattern_line(
                interpretation_after(next).name_of(TermView::Id(next.last().subject)),
                next.last().predicate,
                interpretation_after(next).name_of(next.last().object),
            );
            if i > 0 {
                assert(text@ == pattern_text(done) + "\n"@ + line);
            } else {
                assert(pattern_text(done) == Seq::<char>::empty());
                assert(text@ == line);
            }
        }
        i += 1;
    }
    assert(all.take(quads@.len() as int) == all);
    Some(text)
}

/// Renders the query text of a quad set, or nothing when the set has more
/// terms than there are variable indexes.
pub fn render_query(quads: &Vec<Quad>) -> (res: Option<String>)
    ensures
        2 * quads@.len() < usize::MAX ==> res.is_some() && res.unwrap()@ == query_text(
            quads_view(quads@),
        ),
        2 * quads@.len() >= usize::MAX ==> res.is_none(),
{
    match render_pattern(quads) {
        Some(pattern) => {
            let mut text = String::from_str("SELECT {\n");
            text.append(pattern.as_str());
            text.append("\n}\nWHERE {\n");
            text.append(pattern.as_str());
            text.append("\n}");
            Some(text)
        },
        None => None,
    }
}

} // verus!
