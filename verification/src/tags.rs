//! The closed vocabulary of probe argument types, probe-name validity, and
//! small string utilities shared by the scanner, merger and emitters.
use vstd::prelude::*;

verus! {

/// One argument slot type in a probe signature.
///
/// `Json` is a documentation-level refinement of `Str`: both are rendered as a
/// text-pointer parameter in the emitted declaration.
#[derive(Clone, Copy, PartialEq, Eq, Structural, Debug)]
pub enum TypeTag {
    Int,
    Str,
    Json,
}

pub open spec fn spec_is_digit(c: char) -> bool {
    '0' <= c && c <= '9'
}

pub fn is_digit(c: char) -> (r: bool)
    ensures
        r == spec_is_digit(c),
{
    '0' <= c && c <= '9'
}

pub open spec fn spec_is_name_start(c: char) -> bool {
    ('a' <= c && c <= 'z') || ('A' <= c && c <= 'Z') || c == '_'
}

pub fn is_name_start(c: char) -> (r: bool)
    ensures
        r == spec_is_name_start(c),
{
    ('a' <= c && c <= 'z') || ('A' <= c && c <= 'Z') || c == '_'
}

pub open spec fn spec_is_name_char(c: char) -> bool {
    spec_is_name_start(c) || spec_is_digit(c)
}

pub fn is_name_char(c: char) -> (r: bool)
    ensures
        r == spec_is_name_char(c),
{
    is_name_start(c) || is_digit(c)
}

/// A candidate probe name is valid when it is non-empty, starts with a letter
/// or underscore, and holds only alphanumerics and underscores.
pub open spec fn spec_valid_name(s: Seq<char>) -> bool {
    &&& s.len() > 0
    &&& spec_is_name_start(s[0])
    &&& forall|i: int| 0 <= i < s.len() ==> spec_is_name_char(#[trigger] s[i])
}

pub fn valid_name(s: &str) -> (r: bool)
    ensures
        r == spec_valid_name(s@),
{
    let n = s.unicode_len();
    if n == 0 {
        return false;
    }
    if !is_name_start(s.get_char(0)) {
        return false;
    }
    let mut i: usize = 0;
    while i < n
        invariant
            n == s@.len(),
            i <= n,
            forall|j: int| 0 <= j < i ==> spec_is_name_char(#[trigger] s@[j]),
        decreases n - i,
    {
        if !is_name_char(s.get_char(i)) {
            return false;
        }
        i += 1;
    }
    true
}

/// Character-wise string equality, stated over the views.
pub fn str_eq(a: &str, b: &str) -> (r: bool)
    ensures
        r == (a@ == b@),
{
    let na = a.unicode_len();
    let nb = b.unicode_len();
    if na != nb {
        return false;
    }
    let mut i: usize = 0;
    while i < na
        invariant
            na == a@.len(),
            nb == b@.len(),
            na == nb,
            i <= na,
            forall|j: int| 0 <= j < i ==> a@[j] == b@[j],
        decreases na - i,
    {
        if a.get_char(i) != b.get_char(i) {
            return false;
        }
        i += 1;
    }
    proof {
        assert(a@ =~= b@);
    }
    true
}

/// Maps one source-level type literal onto the closed vocabulary: a numeric
/// tag is `Int`, a structured tag is `Json`, and anything else — including an
/// unrecognized literal — defaults to `Str`.
pub open spec fn spec_tag_of_literal(s: Seq<char>) -> TypeTag {
    if s == "int"@ || s == "uint"@ {
        TypeTag::Int
    } else if s == "json"@ {
        TypeTag::Json
    } else {
        TypeTag::Str
    }
}

pub fn tag_of_literal(s: &str) -> (r: TypeTag)
    ensures
        r == spec_tag_of_literal(s@),
{
    if str_eq(s, "int") || str_eq(s, "uint") {
        TypeTag::Int
    } else if str_eq(s, "json") {
        TypeTag::Json
    } else {
        TypeTag::Str
    }
}

/// The per-slot abbreviation used to build a variant identity suffix.
pub open spec fn spec_tag_abbrev(t: TypeTag) -> Seq<char> {
    match t {
        TypeTag::Int => "int"@,
        TypeTag::Str => "str"@,
        TypeTag::Json => "json"@,
    }
}

pub fn tag_abbrev(t: TypeTag) -> (r: &'static str)
    ensures
        r@ == spec_tag_abbrev(t),
{
    match t {
        TypeTag::Int => "int",
        TypeTag::Str => "str",
        TypeTag::Json => "json",
    }
}

/// The declaration-level parameter type of a slot: `Int` is a 64-bit unsigned
/// integer, everything else an opaque text pointer.
pub open spec fn spec_tag_param(t: TypeTag) -> Seq<char> {
    match t {
        TypeTag::Int => "uint64_t"@,
        TypeTag::Str => "char *"@,
        TypeTag::Json => "char *"@,
    }
}

pub fn tag_param(t: TypeTag) -> (r: &'static str)
    ensures
        r@ == spec_tag_param(t),
{
    match t {
        TypeTag::Int => "uint64_t",
        TypeTag::Str => "char *",
        TypeTag::Json => "char *",
    }
}

} // verus!
