//! Query variables and the query text built from them.
use vstd::prelude::*;
use vstd::string::*;

pub mod domain;
pub mod interpretation;
pub mod query;

pub use query::SparqlQueryGenerator;

verus! {

/// The letters variable names are made of, in order.
pub open spec fn alphabet() -> Seq<char> {
    "abcdefghijklmnopqrstuvwxyz"@
}

/// Letters naming the variable of the given index: `a` to `z`, then `aa`,
/// `ab` and so on, so that every index has a name of its own.
pub open spec fn variable_letters(index: nat) -> Seq<char>
    decreases index,
{
    if index < 26 {
        seq![alphabet()[index as int]]
    } else {
        variable_letters((index / 26 - 1) as nat).push(alphabet()[(index % 26) as int])
    }
}

/// Name of the variable of the given index: a question mark, then its
/// letters.
pub open spec fn variable_name(index: nat) -> Seq<char> {
    seq!['?'] + variable_letters(index)
}

/// The alphabet holds 26 letters, no two of them equal.
pub proof fn lemma_alphabet()
    ensures
        alphabet().len() == 26,
        forall|i: int| 0 <= i < 26 ==> #[trigger] alphabet()[i] as int == 97 + i,
{
    reveal_strlit("abcdefghijklmnopqrstuvwxyz");
    let a = alphabet();
    assert(a[0] == 'a' && a[1] == 'b' && a[2] == 'c' && a[3] == 'd' && a[4] == 'e');
    assert(a[5] == 'f' && a[6] == 'g' && a[7] == 'h' && a[8] == 'i' && a[9] == 'j');
    assert(a[10] == 'k' && a[11] == 'l' && a[12] == 'm' && a[13] == 'n' && a[14] == 'o');
    assert(a[15] == 'p' && a[16] == 'q' && a[17] == 'r' && a[18] == 's' && a[19] == 't');
    assert(a[20] == 'u' && a[21] == 'v' && a[22] == 'w' && a[23] == 'x' && a[24] == 'y');
    assert(a[25] == 'z');
}

/// Every variable has at least one letter.
pub proof fn lemma_variable_letters_len(index: nat)
    ensures
        variable_letters(index).len() >= 1,
        index >= 26 ==> variable_letters(index).len() >= 2,
    decreases index,
{
    if index >= 26 {
        lemma_variable_letters_len((index / 26 - 1) as nat);
    }
}

/// Two indexes with the same letters are the same index.
pub proof fn lemma_variable_letters_injective(i: nat, j: nat)
    requires
        variable_letters(i) == variable_letters(j),
    ensures
        i == j,
    decreases i,
{
    lemma_alphabet();
    lemma_variable_letters_len(i);
    lemma_variable_letters_len(j);
    if i < 26 {
        assert(variable_letters(i)[0] == alphabet()[i as int]);
        assert(j < 26);
        assert(variable_letters(j)[0] == alphabet()[j as int]);
    } else {
        assert(j >= 26);
        let pi = variable_letters((i / 26 - 1) as nat);
        let pj = variable_letters((j / 26 - 1) as nat);
        let ci = alphabet()[(i % 26) as int];
        let cj = alphabet()[(j % 26) as int];
        assert(pi.push(ci) == pj.push(cj));
        assert(pi.push(ci).drop_last() == pi);
        assert(pj.push(cj).drop_last() == pj);
        assert(pi.push(ci).last() == ci);
        assert(pj.push(cj).last() == cj);
        assert(i % 26 == j % 26);
        lemma_variable_letters_injective((i / 26 - 1) as nat, (j / 26 - 1) as nat);
        assert(i / 26 == j / 26);
    }
}

/// No two variables share a name: distinct indexes give distinct names.
pub proof fn lemma_variable_name_injective(i: nat, j: nat)
    requires
        variable_name(i) == variable_name(j),
    ensures
        i == j,
{
    let a = variable_letters(i);
    let b = variable_letters(j);
    assert((seq!['?'] + a).subrange(1, 1 + a.len() as int) == a);
    assert((seq!['?'] + b).subrange(1, 1 + b.len() as int) == b);
    assert(a.len() == b.len()) by {
        assert((seq!['?'] + a).len() == 1 + a.len());
        assert((seq!['?'] + b).len() == 1 + b.len());
    }
    lemma_variable_letters_injective(i, j);
}

/// A query variable, held by its name.
#[derive(Debug, Default)]
pub struct SparqlVariable(pub String);

impl View for SparqlVariable {
    type V = Seq<char>;

    open spec fn view(&self) -> Seq<char> {
        self.0@
    }
}

impl Clone for SparqlVariable {
    fn clone(&self) -> (res: Self)
        ensures
            res == *self,
    {
        SparqlVariable(self.0.clone())
    }
}

impl SparqlVariable {
    /// Builds the variable of the given index.
    pub fn from_index(index: usize) -> (res: SparqlVariable)
        ensures
            res@ == variable_name(index as nat),
    {
        let mut name = String::from_str("?");
        let letters = letters_of(index);
        name.append(letters.as_str());
        proof {
            reveal_strlit("?");
            assert("?"@ == seq!['?']);
        }
        SparqlVariable(name)
    }

    /// Text of this variable as it stands in a query.
    pub fn rdf_fmt(&self) -> (res: String)
        ensures
            res@ == self@,
    {
        self.0.clone()
    }
}

/// Computes the letters of the variable of the given index.
fn letters_of(index: usize) -> (res: String)
    ensures
        res@ == variable_letters(index as nat),
    decreases index,
{
    let letters = "abcdefghijklmnopqrstuvwxyz";
    proof {
        lemma_alphabet();
    }
    if index < 26 {
        let letter = letters.substring_char(index, index + 1);
        assert(letter@ == seq![alphabet()[index as int]]);
        String::from_str(letter)
    } else {
        let mut res = letters_of(index / 26 - 1);
        let last = index % 26;
        let letter = letters.substring_char(last, last + 1);
        assert(letter@ == seq![alphabet()[last as int]]);
        res.append(letter);
        assert(res@ == variable_letters((index / 26 - 1) as nat).push(alphabet()[last as int]));
        res
    }
}

} // verus!
