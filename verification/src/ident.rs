//! Identifiers that are valid both as Python names and as Rust tokens.

use crate::error::{parser_error, PyBindgenError};
use crate::text::{chars_eq, chars_of, compare_texts, text_order};
use core::cmp::Ordering;
use vstd::prelude::*;

verus! {

/// The Python spelling of an identifier written in its Rust form: the text
/// without one leading `r#`.
pub open spec fn py_form(rs: Seq<char>) -> Seq<char> {
    if rs.len() >= 2 && rs[0] == 'r' && rs[1] == '#' {
        rs.subrange(2, rs.len() as int)
    } else {
        rs
    }
}

/// The longest text, in characters, that is handed to the parser. The
/// parser reads a text into a tree by recursion, a level deeper for each
/// bracket that opens, so that the length of the text bounds the depth.
pub const PARSE_LIMIT: usize = 1024;

/// Whether `syn` reads `text` as exactly one Rust identifier. The answer is
/// a function of the text alone: it is what the Rust lexer and the list of
/// reserved words make of it.
pub uninterp spec fn rust_ident_accepted(text: Seq<char>) -> bool;

/// Whether `text` can stand as an identifier in generated code: it is short
/// enough to be handed to the parser, and the parser reads it as exactly one
/// Rust identifier.
pub open spec fn ident_accepted(text: Seq<char>) -> bool {
    text.len() <= PARSE_LIMIT && rust_ident_accepted(text)
}

/// The Rust spelling of a Python name: the name itself where it is a Rust
/// identifier, else the name behind `r#`.
pub open spec fn rs_form(py: Seq<char>) -> Seq<char> {
    if ident_accepted(py) {
        py
    } else {
        seq!['r', '#'] + py
    }
}

/// Whether two identifiers, given in their Rust form, name the same Python
/// attribute.
pub open spec fn same_ident(a: Seq<char>, b: Seq<char>) -> bool {
    py_form(a) == py_form(b)
}

/// Calls `syn::parse_str::<syn::Ident>` on `value` and keeps the error where
/// there is one. The call fails on reserved words, on `_`, and on any text that
/// the lexer does not turn into a single identifier token; nothing more is
/// claimed here than that success depends on the text alone. Texts beyond
/// the limit are not handed over.
#[verifier::external_body]
pub(crate) fn parse_ident(value: &str) -> (r: Result<(), syn::Error>)
    requires
        value@.len() <= PARSE_LIMIT,
    ensures
        r is Ok == rust_ident_accepted(value@),
{
    match syn::parse_str::<syn::Ident>(value) {
        Ok(_) => Ok(()),
        Err(e) => Err(e),
    }
}

/// Whether `value` is a Rust identifier.
pub fn parses_as_ident(value: &str) -> (ok: bool)
    ensures
        ok == ident_accepted(value@),
{
    if value.unicode_len() > PARSE_LIMIT {
        false
    } else {
        parse_ident(value).is_ok()
    }
}

/// The ordering that the number `order` stands for.
pub open spec fn ordering_of(order: int) -> Ordering {
    if order < 0 {
        Ordering::Less
    } else if order > 0 {
        Ordering::Greater
    } else {
        Ordering::Equal
    }
}

/// Two texts compare as the same only where they are the same.
pub proof fn lemma_same_text(a: Seq<char>, b: Seq<char>)
    ensures
        text_order(a, b) == 0 <==> a == b,
    decreases a.len(),
{
    if a.len() > 0 && b.len() > 0 {
        lemma_same_text(a.skip(1), b.skip(1));
        vstd::utf8::char_u32_cast(a[0], a[0] as u32);
        vstd::utf8::char_u32_cast(b[0], b[0] as u32);
        if a.skip(1) == b.skip(1) && a[0] == b[0] {
            assert(a =~= seq![a[0]] + a.skip(1));
            assert(b =~= seq![b[0]] + b.skip(1));
        }
        if a == b {
            assert(a.skip(1) == b.skip(1));
        }
    } else if a.len() == 0 && b.len() == 0 {
        assert(a =~= b);
    }
}

/// A name, kept in the form in which Rust code spells it.
#[derive(Debug)]
pub struct Ident {
    rs: String,
}

impl View for Ident {
    type V = Seq<char>;

    /// The Rust spelling.
    closed spec fn view(&self) -> Seq<char> {
        self.rs@
    }
}

impl Ident {
    /// The Python spelling.
    pub open spec fn py(&self) -> Seq<char> {
        py_form(self@)
    }

    /// An identifier from its Rust spelling, taken as it is.
    pub fn from_rs(value: &str) -> (id: Ident)
        ensures
            id@ == value@,
    {
        Ident { rs: value.to_owned() }
    }

    /// An identifier from its Python spelling, escaped where Rust reserves it.
    pub fn from_py(value: &str) -> (id: Ident)
        ensures
            id@ == rs_form(value@),
    {
        Ident { rs: Ident::py_to_rs(value) }
    }

    /// Gives up the identifier for its Rust spelling.
    pub fn into_rs(self) -> (s: String)
        ensures
            s@ == self@,
    {
        self.rs
    }

    /// The Rust spelling.
    pub fn as_rs(&self) -> (s: &str)
        ensures
            s@ == self@,
    {
        self.rs.as_str()
    }

    /// The Python spelling.
    pub fn as_py(&self) -> (s: &str)
        ensures
            s@ == self.py(),
    {
        Ident::rs_as_py(self.rs.as_str())
    }

    /// The Python spelling of a Rust spelling.
    pub fn rs_as_py(value: &str) -> (s: &str)
        ensures
            s@ == py_form(value@),
    {
        let n = value.unicode_len();
        if n >= 2 && value.get_char(0) == 'r' && value.get_char(1) == '#' {
            value.substring_char(2, n)
        } else {
            value
        }
    }

    /// The Rust spelling of a Python spelling.
    pub fn py_to_rs(value: &str) -> (s: String)
        ensures
            s@ == rs_form(value@),
    {
        if parses_as_ident(value) {
            value.to_owned()
        } else {
            proof {
                reveal_strlit("r#");
            }
            let s = String::from_str("r#").concat(value);
            assert(s@ =~= seq!['r', '#'] + value@);
            s
        }
    }

    /// Whether `syn` takes the Rust spelling for an identifier, so that it
    /// can stand as a name in generated code.
    pub fn is_valid_rs(&self) -> (ok: bool)
        ensures
            ok == ident_accepted(self@),
    {
        parses_as_ident(self.rs.as_str())
    }

    /// The Rust spelling as a token of generated code, or the error of the
    /// parser where the spelling is no identifier.
    pub fn to_token(&self) -> (r: Result<String, PyBindgenError>)
        ensures
            r is Ok == ident_accepted(self@),
            r matches Ok(s) ==> s@ == self@,
            r matches Err(e) ==> e is SynError,
    {
        if self.rs.as_str().unicode_len() > PARSE_LIMIT {
            return Err(PyBindgenError::SynError(parser_error("the name is too long")));
        }
        match parse_ident(self.rs.as_str()) {
            Ok(_) => Ok(self.rs.clone()),
            Err(e) => Err(PyBindgenError::SynError(e)),
        }
    }

    /// Whether `self` and `other` name the same Python attribute.
    pub fn same(&self, other: &Ident) -> (r: bool)
        ensures
            r == same_ident(self@, other@),
    {
        let a = chars_of(self.as_py());
        let b = chars_of(other.as_py());
        chars_eq(&a, &b)
    }

    /// Whether the Rust spelling is exactly `text`.
    pub fn is_rs(&self, text: &str) -> (r: bool)
        ensures
            r == (self@ == text@),
    {
        let a = chars_of(self.rs.as_str());
        let b = chars_of(text);
        chars_eq(&a, &b)
    }

    /// Whether the Python spelling is exactly `text`.
    pub fn is_py(&self, text: &str) -> (r: bool)
        ensures
            r == (self.py() == text@),
    {
        let a = chars_of(self.as_py());
        let b = chars_of(text);
        chars_eq(&a, &b)
    }
}

impl PartialEq for Ident {
    /// Two identifiers are equal when their Python spellings are.
    fn eq(&self, other: &Ident) -> (r: bool) {
        self.same(other)
    }
}

impl Eq for Ident {

}

impl vstd::std_specs::cmp::PartialEqSpecImpl for Ident {
    open spec fn obeys_eq_spec() -> bool {
        true
    }

    open spec fn eq_spec(&self, other: &Ident) -> bool {
        same_ident(self@, other@)
    }
}

impl PartialOrd for Ident {
    /// Identifiers are ordered as their Python spellings are in the
    /// dictionary.
    fn partial_cmp(&self, other: &Ident) -> (r: Option<Ordering>) {
        let order = compare_texts(self.as_py(), other.as_py());
        if order < 0 {
            Some(Ordering::Less)
        } else if order > 0 {
            Some(Ordering::Greater)
        } else {
            proof {
                lemma_same_text(self.py(), other.py());
            }
            Some(Ordering::Equal)
        }
    }
}

impl vstd::std_specs::cmp::PartialOrdSpecImpl for Ident {
    open spec fn obeys_partial_cmp_spec() -> bool {
        true
    }

    open spec fn partial_cmp_spec(&self, other: &Ident) -> Option<Ordering> {
        Some(ordering_of(text_order(self.py(), other.py())))
    }
}

impl Clone for Ident {
    fn clone(&self) -> (r: Ident)
        ensures
            r@ == self@,
    {
        Ident { rs: self.rs.clone() }
    }
}

} // verus!
