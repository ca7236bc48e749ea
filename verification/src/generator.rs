//! Generation of fresh blank node identifiers.
use vstd::prelude::*;
use vstd::string::*;
use crate::rdf::Id;

verus! {

/// The ten decimal digits, in order.
pub open spec fn digits() -> Seq<char> {
    "0123456789"@
}

/// Decimal notation of a number, without leading zeros.
pub open spec fn decimal(n: nat) -> Seq<char>
    decreases n,
{
    if n < 10 {
        seq![digits()[n as int]]
    } else {
        decimal(n / 10).push(digits()[(n % 10) as int])
    }
}

/// Label of the blank node numbered `count` under the given prefix: `_:`,
/// the prefix, then the number in decimal.
pub open spec fn blank_label(prefix: Seq<char>, count: nat) -> Seq<char> {
    "_:"@ + prefix + decimal(count)
}

/// The digits are ten characters in a row, from `0` on.
pub proof fn lemma_digits()
    ensures
        digits().len() == 10,
        forall|i: int| 0 <= i < 10 ==> #[trigger] digits()[i] as int == 48 + i,
{
    reveal_strlit("0123456789");
    let d = digits();
    assert(d[0] == '0' && d[1] == '1' && d[2] == '2' && d[3] == '3' && d[4] == '4');
    assert(d[5] == '5' && d[6] == '6' && d[7] == '7' && d[8] == '8' && d[9] == '9');
}

/// Decimal notation has a digit, and more than one from ten on.
pub proof fn lemma_decimal_len(n: nat)
    ensures
        decimal(n).len() >= 1,
        n >= 10 ==> decimal(n).len() >= 2,
    decreases n,
{
    if n >= 10 {
        lemma_decimal_len(n / 10);
    }
}

/// Two numbers with the same decimal notation are the same number.
pub proof fn lemma_decimal_injective(m: nat, n: nat)
    requires
        decimal(m) == decimal(n),
    ensures
        m == n,
    decreases m,
{
    lemma_digits();
    lemma_decimal_len(m);
    lemma_decimal_len(n);
    if m < 10 {
        assert(decimal(m)[0] == digits()[m as int]);
        assert(n < 10);
        assert(decimal(n)[0] == digits()[n as int]);
    } else {
        assert(n >= 10);
        let pm = decimal(m / 10);
        let pn = decimal(n / 10);
        let cm = digits()[(m % 10) as int];
        let cn = digits()[(n % 10) as int];
        assert(pm.push(cm) == pn.push(cn));
        assert(pm.push(cm).drop_last() == pm);
        assert(pn.push(cn).drop_last() == pn);
        assert(pm.push(cm).last() == cm);
        assert(pn.push(cn).last() == cn);
        assert(m % 10 == n % 10);
        lemma_decimal_injective(m / 10, n / 10);
    }
}

/// A generator never hands out one label twice: under one prefix, two
/// counts with the same label are the same count.
pub proof fn lemma_blank_labels_are_fresh(prefix: Seq<char>, m: nat, n: nat)
    requires
        blank_label(prefix, m) == blank_label(prefix, n),
    ensures
        m == n,
{
    let head = "_:"@ + prefix;
    let a = decimal(m);
    let b = decimal(n);
    assert((head + a).len() == head.len() + a.len());
    assert((head + b).len() == head.len() + b.len());
    assert((head + a).subrange(head.len() as int, (head + a).len() as int) == a);
    assert((head + b).subrange(head.len() as int, (head + b).len() as int) == b);
    lemma_decimal_injective(m, n);
}

/// Builds the label of the blank node numbered `count` under `prefix`, as
/// `rdf_types::generator::Blank::next_blank_id` does for a generator made
/// with that prefix and offset: the characters `_:`, the prefix, and the
/// count written in decimal. The count stays below the largest `usize`,
/// where the generator's own counter would overflow.
#[verifier::external_body]
fn numbered_blank_label(prefix: &str, count: usize) -> (res: String)
    requires
        count < usize::MAX,
    ensures
        res@ == blank_label(prefix@, count as nat),
{
    let mut generator = rdf_types::generator::Blank::new_full(prefix.to_owned(), count);
    generator.next_blank_id().as_str().to_owned()
}

/// Generates numbered blank node identifiers under an optional prefix.
#[derive(Debug)]
pub struct Blank {
    /// Prefix of every generated label.
    pub prefix: String,
    /// Number of identifiers generated so far.
    pub count: usize,
}

impl Blank {
    /// Creates a generator with no prefix, starting at zero.
    pub fn new() -> (res: Blank)
        ensures
            res.prefix@.len() == 0,
            res.count == 0,
    {
        Blank { prefix: String::new(), count: 0 }
    }

    /// Creates a generator with the given prefix, starting at `offset`.
    pub fn new_full(prefix: String, offset: usize) -> (res: Blank)
        ensures
            res.prefix == prefix,
            res.count == offset,
    {
        Blank { prefix, count: offset }
    }

    /// Generates the next fresh identifier, or nothing once every count was
    /// used.
    pub fn next(&mut self) -> (res: Option<Id>)
        ensures
            final(self).prefix == old(self).prefix,
            old(self).count < usize::MAX ==> final(self).count == old(self).count + 1
                && res.is_some() && res.unwrap()@ == crate::rdf::IdView::Blank(
                blank_label(old(self).prefix@, old(self).count as nat),
            ),
            old(self).count == usize::MAX ==> res.is_none() && final(self).count == old(
                self,
            ).count,
    {
        if self.count == usize::MAX {
            return None;
        }
        let label = numbered_blank_label(self.prefix.as_str(), self.count);
        self.count = self.count + 1;
        Some(Id::Blank(label))
    }
}

} // verus!
