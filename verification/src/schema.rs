//! Declaration of record types: which field is the identity, which are
//! flattened, and which predicate each of the others stands for.
use vstd::prelude::*;
use vstd::string::*;

verus! {

/// Whether a text is an IRI, as `iref::Iri::new` decides it.
pub uninterp spec fn valid_iri(text: Seq<char>) -> bool;

/// Tells whether a text is an IRI: `iref::Iri::new` parses it against the
/// grammar of IRIs and accepts or rejects it as a whole.
#[verifier::external_body]
fn parses_as_iri(text: &str) -> (res: bool)
    ensures
        res == valid_iri(text@),
{
    iref::Iri::new(text).is_ok()
}

/// A declared prefix: a short name for the start of an IRI.
#[derive(Debug)]
pub struct Prefix {
    pub name: String,
    pub iri: String,
}

/// Why a declaration is not a schema.
#[derive(Debug, PartialEq, Eq)]
pub enum SchemaError {
    /// The field at the given place is neither the identity, nor flattened,
    /// nor ignored, and names no predicate.
    UnknownFieldSerializationMethod(usize),
    /// The given text does not expand to an IRI.
    InvalidIri(String),
    /// The field at the given place is flattened but holds no record.
    FlattenedValue(usize),
    /// The type is a union, which has no schema.
    UnionType,
}

/// How many objects a field takes.
#[derive(Clone, Copy, Debug, PartialEq, Eq, Structural)]
pub enum Arity {
    /// Exactly one.
    One,
    /// At most one.
    Optional,
    /// Any number.
    Many,
}

/// What the objects of a field are.
#[derive(Debug, PartialEq, Eq)]
pub enum FieldType {
    /// Literals: of the given datatype, or of any type.
    Literal(Option<String>),
    /// IRIs.
    Iri,
    /// Records of the given type.
    Record(TypeSchema),
}

/// One field of a record type.
#[derive(Debug, PartialEq, Eq)]
pub enum FieldSchema {
    /// The field that holds the identity of the record.
    Id,
    /// A record whose predicates are stated as the record's own.
    Flatten(TypeSchema),
    /// A field that stands for the predicate of the given IRI.
    Property { iri: String, arity: Arity, type_: FieldType },
    /// A field that is left out.
    Ignore,
}

/// The IRI of the predicate that states the type of a resource.
pub open spec fn rdf_type() -> Seq<char> {
    "http://www.w3.org/1999/02/22-rdf-syntax-ns#type"@
}

/// The statement of the type of a record: the predicate that states types,
/// and the IRI of the type.
#[derive(Debug, PartialEq, Eq)]
pub struct TypeStatement {
    pub predicate: String,
    pub type_iri: String,
}

/// A record type: the statement of its type, if it makes one, and its fields
/// in declaration order.
#[derive(Debug, PartialEq, Eq)]
pub struct TypeSchema {
    pub type_: Option<TypeStatement>,
    pub fields: Vec<FieldSchema>,
}

/// What is declared of a record type as a whole.
#[derive(Debug)]
pub struct TypeAttributes {
    pub prefixes: Vec<Prefix>,
    pub type_: Option<String>,
}

/// What is declared of one field.
#[derive(Debug)]
pub struct FieldAttributes {
    /// Name of the field.
    pub name: String,
    pub ignore: bool,
    pub is_id: bool,
    pub flatten: bool,
    /// The predicate of the field, as a full or a compact IRI.
    pub iri: Option<String>,
    pub arity: Arity,
    pub type_: FieldType,
}

/// What a declared type is made of.
#[derive(Debug)]
pub enum Data {
    /// A structure, with its fields in declaration order.
    Struct(Vec<FieldAttributes>),
    /// An enumeration.
    Enum,
    /// A union.
    Union,
}

/// The declaration of a type: what is declared of it as a whole, and what
/// it is made of.
#[derive(Debug)]
pub struct DeriveInput {
    pub attrs: TypeAttributes,
    pub data: Data,
}

/// Place of the first colon at or after `from`, or the length of the text.
pub open spec fn colon_from(text: Seq<char>, from: int) -> int
    decreases text.len() - from,
{
    if from < 0 || from >= text.len() {
        text.len() as int
    } else if text[from] == ':' {
        from
    } else {
        colon_from(text, from + 1)
    }
}

/// Place of the first declaration of the prefix `name` at or after `from`,
/// or the number of declarations.
pub open spec fn prefix_from(prefixes: Seq<Prefix>, name: Seq<char>, from: int) -> int
    decreases prefixes.len() - from,
{
    if from < 0 || from >= prefixes.len() {
        prefixes.len() as int
    } else if prefixes[from].name@ == name {
        from
    } else {
        prefix_from(prefixes, name, from + 1)
    }
}

/// Whether the text starts with two slashes.
pub open spec fn starts_with_slashes(text: Seq<char>) -> bool {
    text.len() >= 2 && text[0] == '/' && text[1] == '/'
}

/// The text that a compact IRI stands for. Where the text before its first
/// colon is a declared prefix, and what follows the colon does not start
/// with two slashes, it is the IRI of the first declaration of that prefix
/// followed by what follows the colon; else it is the text itself.
pub open spec fn expansion(prefixes: Seq<Prefix>, compact: Seq<char>) -> Seq<char> {
    let colon = colon_from(compact, 0);
    if colon >= compact.len() {
        compact
    } else {
        let local = compact.skip(colon + 1);
        let declared = prefix_from(prefixes, compact.take(colon), 0);
        if starts_with_slashes(local) || declared >= prefixes.len() {
            compact
        } else {
            prefixes[declared].iri@ + local
        }
    }
}

/// Finds the first colon of a text.
fn find_colon(text: &str) -> (res: usize)
    ensures
        res == colon_from(text@, 0),
        res <= text@.len(),
{
    let len = text.unicode_len();
    let mut i: usize = 0;
    while i < len
        invariant
            i <= len,
            len == text@.len(),
            colon_from(text@, 0) == colon_from(text@, i as int),
        decreases len - i,
    {
        if text.get_char(i) == ':' {
            return i;
        }
        i += 1;
    }
    i
}

/// Finds the first declaration of a prefix.
fn find_prefix(prefixes: &Vec<Prefix>, name: &str) -> (res: usize)
    ensures
        res == prefix_from(prefixes@, name@, 0),
        res <= prefixes@.len(),
{
    let owned = String::from_str(name);
    let mut i: usize = 0;
    while i < prefixes.len()
        invariant
            i <= prefixes.len(),
            owned@ == name@,
            prefix_from(prefixes@, name@, 0) == prefix_from(prefixes@, name@, i as int),
        decreases prefixes.len() - i,
    {
        if prefixes[i].name == owned {
            return i;
        }
        i += 1;
    }
    i
}

/// Expands a compact IRI against the declared prefixes, without looking at
/// whether the result is an IRI.
pub fn expand_text(prefixes: &Vec<Prefix>, compact: &str) -> (res: String)
    ensures
        res@ == expansion(prefixes@, compact@),
{
    let len = compact.unicode_len();
    let colon = find_colon(compact);
    if colon >= len {
        return String::from_str(compact);
    }
    let name = compact.substring_char(0, colon);
    let local = compact.substring_char(colon + 1, len);
    assert(name@ == compact@.take(colon as int));
    assert(local@ == compact@.skip(colon + 1));
    let slashes = len - colon - 1 >= 2 && local.get_char(0) == '/' && local.get_char(1) == '/';
    let declared = find_prefix(prefixes, name);
    if slashes || declared >= prefixes.len() {
        String::from_str(compact)
    } else {
        let mut text = prefixes[declared].iri.clone();
        text.append(local);
        text
    }
}

/// What expanding `compact` comes to, once it is known whether the
/// expanded text is an IRI.
pub fn expanded(compact: String, text: String, is_iri: bool) -> (res: Result<String, SchemaError>)
    ensures
        is_iri ==> res == Ok::<String, SchemaError>(text),
        !is_iri ==> res == Err::<String, SchemaError>(SchemaError::InvalidIri(compact)),
{
    if is_iri {
        Ok(text)
    } else {
        Err(SchemaError::InvalidIri(compact))
    }
}

/// Expands a compact IRI against the declared prefixes. The result must be
/// an IRI.
pub fn expand(prefixes: &Vec<Prefix>, compact: &String) -> (res: Result<String, SchemaError>)
    ensures
        valid_iri(expansion(prefixes@, compact@)) ==> res.is_ok() && res.unwrap()@ == expansion(
            prefixes@,
            compact@,
        ),
        !valid_iri(expansion(prefixes@, compact@)) ==> res == Err::<String, SchemaError>(
            SchemaError::InvalidIri(*compact),
        ),
{
    let text = expand_text(prefixes, compact.as_str());
    let is_iri = parses_as_iri(text.as_str());
    expanded(compact.clone(), text, is_iri)
}

} // verus!
