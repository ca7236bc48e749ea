//! Interning of IRIs, blank node labels and literals.
use vstd::prelude::*;
use crate::rdf::{Literal, LiteralView};

verus! {

/// Handle of an interned IRI.
#[derive(Clone, Copy, Debug, PartialEq, Eq, Structural)]
pub struct IriHandle(pub usize);

/// Handle of an interned blank node label.
#[derive(Clone, Copy, Debug, PartialEq, Eq, Structural)]
pub struct BlankHandle(pub usize);

/// Handle of an interned literal.
#[derive(Clone, Copy, Debug, PartialEq, Eq, Structural)]
pub struct LiteralHandle(pub usize);

/// Whether `value` stands in `table`.
pub open spec fn interned<T>(table: Seq<T>, value: T) -> bool {
    exists|i: int| 0 <= i < table.len() && #[trigger] table[i] == value
}

/// The first place at which `value` stands in `table`, or the length of the
/// table if it stands nowhere.
pub open spec fn handle_of<T>(table: Seq<T>, value: T) -> int
    decreases table.len(),
{
    if table.len() == 0 {
        0
    } else if table[0] == value {
        0
    } else {
        1 + handle_of(table.skip(1), value)
    }
}

/// The table after `value` was interned: unchanged where it already holds
/// the value, else with the value at its end.
pub open spec fn table_after<T>(table: Seq<T>, value: T) -> Seq<T> {
    if interned(table, value) {
        table
    } else {
        table.push(value)
    }
}

/// The handle of a value is the least place that holds it.
pub proof fn lemma_handle_of<T>(table: Seq<T>, value: T)
    ensures
        0 <= handle_of(table, value) <= table.len(),
        forall|i: int| 0 <= i < handle_of(table, value) ==> #[trigger] table[i] != value,
        interned(table, value) <==> handle_of(table, value) < table.len(),
        handle_of(table, value) < table.len() ==> table[handle_of(table, value)] == value,
    decreases table.len(),
{
    if table.len() > 0 && table[0] != value {
        let rest = table.skip(1);
        lemma_handle_of(rest, value);
        assert forall|i: int| 0 <= i < handle_of(table, value) implies #[trigger] table[i]
            != value by {
            if i > 0 {
                assert(rest[i - 1] == table[i]);
            }
        }
        if interned(table, value) {
            let i = choose|i: int| 0 <= i < table.len() && #[trigger] table[i] == value;
            assert(rest[i - 1] == value);
        }
        if handle_of(table, value) < table.len() {
            assert(rest[handle_of(rest, value)] == table[handle_of(table, value)]);
        }
    }
}

/// Interning is idempotent and resolving undoes it: the table after a value
/// was interned holds the value at its handle, a second interning changes
/// nothing and yields the same handle, and every earlier handle still
/// resolves to what it did.
pub proof fn lemma_interning_is_deterministic<T>(table: Seq<T>, value: T)
    ensures
        handle_of(table_after(table, value), value) == handle_of(table, value),
        handle_of(table, value) < table_after(table, value).len(),
        table_after(table, value)[handle_of(table, value)] == value,
        table_after(table_after(table, value), value) == table_after(table, value),
        forall|i: int| 0 <= i < table.len() ==> table_after(table, value)[i] == table[i],
{
    lemma_handle_of(table, value);
    let after = table_after(table, value);
    lemma_handle_of(after, value);
    if !interned(table, value) {
        assert(after[table.len() as int] == value);
        assert(interned(after, value));
        assert forall|i: int| 0 <= i < table.len() implies after[i] != value by {
            assert(table[i] != value);
        }
    }
}

/// Two values interned in one table have the same handle exactly when they
/// are the same value.
pub proof fn lemma_handles_tell_values_apart<T>(table: Seq<T>, a: T, b: T)
    requires
        interned(table, a),
        interned(table, b),
    ensures
        handle_of(table, a) == handle_of(table, b) <==> a == b,
{
    lemma_handle_of(table, a);
    lemma_handle_of(table, b);
}

/// Mathematical value of a [`Vocabulary`]: what each handle resolves to.
pub struct VocabularyView {
    pub iris: Seq<Seq<char>>,
    pub blank_ids: Seq<Seq<char>>,
    pub literals: Seq<LiteralView>,
}

/// Store that interns IRIs, blank node labels and literals into handles and
/// resolves handles back.
pub struct Vocabulary {
    pub iris: Vec<String>,
    pub blank_ids: Vec<String>,
    pub literals: Vec<Literal>,
}

/// Mathematical value of a table of strings.
pub open spec fn strings_view(table: Seq<String>) -> Seq<Seq<char>> {
    table.map_values(|s: String| s@)
}

/// Mathematical value of a table of literals.
pub open spec fn literals_view(table: Seq<Literal>) -> Seq<LiteralView> {
    table.map_values(|l: Literal| l@)
}

impl View for Vocabulary {
    type V = VocabularyView;

    open spec fn view(&self) -> VocabularyView {
        VocabularyView {
            iris: strings_view(self.iris@),
            blank_ids: strings_view(self.blank_ids@),
            literals: literals_view(self.literals@),
        }
    }
}

/// Interns a string in a table of strings.
fn intern_string(table: &mut Vec<String>, value: &str) -> (res: usize)
    ensures
        strings_view(final(table)@) == table_after(strings_view(old(table)@), value@),
        res == handle_of(strings_view(old(table)@), value@),
{
    let ghost before = strings_view(table@);
    proof {
        lemma_handle_of(before, value@);
    }
    let owned = String::from_str(value);
    let mut i: usize = 0;
    while i < table.len()
        invariant
            i <= table.len(),
            owned@ == value@,
            before == strings_view(table@),
            table == old(table),
            forall|j: int| 0 <= j < i ==> #[trigger] before[j] != value@,
            i <= handle_of(before, value@) <= before.len(),
            forall|j: int| 0 <= j < handle_of(before, value@) ==> #[trigger] before[j] != value@,
            interned(before, value@) <==> handle_of(before, value@) < before.len(),
            handle_of(before, value@) < before.len() ==> before[handle_of(before, value@)]
                == value@,
        decreases table.len() - i,
    {
        assert(before[i as int] == table@[i as int]@);
        if table[i] == owned {
            assert(before[i as int] == value@);
            assert(interned(before, value@));
            return i;
        }
        assert(i as int != handle_of(before, value@));
        i += 1;
    }
    table.push(owned);
    assert(strings_view(table@) == before.push(value@));
    i
}

impl Vocabulary {
    /// Creates a vocabulary that holds nothing.
    pub fn new() -> (res: Vocabulary)
        ensures
            res@.iris.len() == 0,
            res@.blank_ids.len() == 0,
            res@.literals.len() == 0,
    {
        Vocabulary { iris: Vec::new(), blank_ids: Vec::new(), literals: Vec::new() }
    }

    /// Interns an IRI: returns the handle it already has, or stores it and
    /// returns its new handle.
    pub fn intern_iri(&mut self, iri: &str) -> (res: IriHandle)
        ensures
            final(self)@.iris == table_after(old(self)@.iris, iri@),
            res.0 == handle_of(old(self)@.iris, iri@),
            final(self)@.blank_ids == old(self)@.blank_ids,
            final(self)@.literals == old(self)@.literals,
    {
        IriHandle(intern_string(&mut self.iris, iri))
    }

    /// Interns a blank node label: returns the handle it already has, or
    /// stores it and returns its new handle.
    pub fn intern_blank(&mut self, label: &str) -> (res: BlankHandle)
        ensures
            final(self)@.blank_ids == table_after(old(self)@.blank_ids, label@),
            res.0 == handle_of(old(self)@.blank_ids, label@),
            final(self)@.iris == old(self)@.iris,
            final(self)@.literals == old(self)@.literals,
    {
        BlankHandle(intern_string(&mut self.blank_ids, label))
    }

    /// Interns a literal: returns the handle it already has, or stores it and
    /// returns its new handle.
    pub fn intern_literal(&mut self, literal: &Literal) -> (res: LiteralHandle)
        ensures
            final(self)@.literals == table_after(old(self)@.literals, literal@),
            res.0 == handle_of(old(self)@.literals, literal@),
            final(self)@.iris == old(self)@.iris,
            final(self)@.blank_ids == old(self)@.blank_ids,
    {
        let ghost before = literals_view(self.literals@);
        proof {
            lemma_handle_of(before, literal@);
        }
        let mut i: usize = 0;
        while i < self.literals.len()
            invariant
                i <= self.literals.len(),
                before == literals_view(self.literals@),
                *self == *old(self),
                forall|j: int| 0 <= j < i ==> #[trigger] before[j] != literal@,
                i <= handle_of(before, literal@) <= before.len(),
                forall|j: int|
                    0 <= j < handle_of(before, literal@) ==> #[trigger] before[j] != literal@,
                interned(before, literal@) <==> handle_of(before, literal@) < before.len(),
                handle_of(before, literal@) < before.len() ==> before[handle_of(
                    before,
                    literal@,
                )] == literal@,
            decreases self.literals.len() - i,
        {
            assert(before[i as int] == self.literals@[i as int]@);
            if self.literals[i] == *literal {
                assert(before[i as int] == literal@);
                assert(interned(before, literal@));
                return LiteralHandle(i);
            }
            assert(i as int != handle_of(before, literal@));
            i += 1;
        }
        self.literals.push(literal.clone());
        assert(literals_view(self.literals@) == before.push(literal@));
        LiteralHandle(i)
    }

    /// Resolves an IRI handle to the IRI it was interned for.
    pub fn iri(&self, handle: IriHandle) -> (res: Option<&String>)
        ensures
            handle.0 < self@.iris.len() ==> res.is_some() && res.unwrap()@
                == self@.iris[handle.0 as int],
            handle.0 >= self@.iris.len() ==> res.is_none(),
    {
        if handle.0 < self.iris.len() {
            Some(&self.iris[handle.0])
        } else {
            None
        }
    }

    /// Resolves a blank node handle to the label it was interned for.
    pub fn blank_id(&self, handle: BlankHandle) -> (res: Option<&String>)
        ensures
            handle.0 < self@.blank_ids.len() ==> res.is_some() && res.unwrap()@
                == self@.blank_ids[handle.0 as int],
            handle.0 >= self@.blank_ids.len() ==> res.is_none(),
    {
        if handle.0 < self.blank_ids.len() {
            Some(&self.blank_ids[handle.0])
        } else {
            None
        }
    }

    /// Resolves a literal handle to the literal it was interned for.
    pub fn literal(&self, handle: LiteralHandle) -> (res: Option<&Literal>)
        ensures
            handle.0 < self@.literals.len() ==> res.is_some() && res.unwrap()@
                == self@.literals[handle.0 as int],
            handle.0 >= self@.literals.len() ==> res.is_none(),
    {
        if handle.0 < self.literals.len() {
            Some(&self.literals[handle.0])
        } else {
            None
        }
    }
}

} // verus!
