//! Small pieces of generated source text.

use crate::config::Config;
use crate::text::{chars_of, push_char};
use crate::utils::text::{format_docstring, formatted_docstring};
use vstd::prelude::*;

verus! {

/// Whether `c` is a letter or a digit of some script. The answer is that of
/// `char::is_alphanumeric`, which goes by the tables of Unicode.
pub uninterp spec fn alphanumeric(c: char) -> bool;

/// Calls `char::is_alphanumeric`.
#[verifier::external_body]
pub(crate) fn is_alphanumeric(c: char) -> (b: bool)
    ensures
        b == alphanumeric(c),
{
    c.is_alphanumeric()
}

/// How `c` is written inside a string literal.
pub open spec fn escaped_char(c: char) -> Seq<char> {
    if c == '"' {
        seq!['\\', '"']
    } else if c == '\\' {
        seq!['\\', '\\']
    } else if c == '\n' {
        seq!['\\', 'n']
    } else if c == '\r' {
        seq!['\\', 'r']
    } else if c == '\t' {
        seq!['\\', 't']
    } else if c == '\0' {
        seq!['\\', '0']
    } else {
        seq![c]
    }
}

/// How `s` is written inside a string literal.
pub open spec fn escaped(s: Seq<char>) -> Seq<char>
    decreases s.len(),
{
    if s.len() == 0 {
        Seq::empty()
    } else {
        escaped(s.drop_last()) + escaped_char(s.last())
    }
}

/// The string literal that stands for `s`.
pub open spec fn literal(s: Seq<char>) -> Seq<char> {
    seq!['"'] + escaped(s) + seq!['"']
}

/// Writes `s` as a string literal.
pub fn string_literal(s: &str) -> (out: String)
    ensures
        out@ == literal(s@),
{
    let cs = chars_of(s);
    let mut out = String::new();
    push_char(&mut out, '"');
    let mut i: usize = 0;
    assert(cs@.take(0) =~= Seq::<char>::empty());
    assert(out@ =~= seq!['"'] + escaped(cs@.take(0)));
    while i < cs.len()
        invariant
            i <= cs.len(),
            out@ == seq!['"'] + escaped(cs@.take(i as int)),
        decreases cs.len() - i,
    {
        let c = cs[i];
        let ghost before = out@;
        assert(cs@.take(i as int + 1).drop_last() =~= cs@.take(i as int));
        if c == '"' {
            push_char(&mut out, '\\');
            push_char(&mut out, '"');
        } else if c == '\\' {
            push_char(&mut out, '\\');
            push_char(&mut out, '\\');
        } else if c == '\n' {
            push_char(&mut out, '\\');
            push_char(&mut out, 'n');
        } else if c == '\r' {
            push_char(&mut out, '\\');
            push_char(&mut out, 'r');
        } else if c == '\t' {
            push_char(&mut out, '\\');
            push_char(&mut out, 't');
        } else if c == '\0' {
            push_char(&mut out, '\\');
            push_char(&mut out, '0');
        } else {
            push_char(&mut out, c);
        }
        assert(out@ =~= before + escaped_char(c));
        assert(out@ =~= seq!['"'] + escaped(cs@.take(i as int + 1)));
        i += 1;
    }
    assert(cs@.take(cs.len() as int) =~= cs@);
    push_char(&mut out, '"');
    assert(out@ =~= literal(s@));
    out
}

/// What holds of a docstring that says nothing: it is empty, or it is the
/// printed form of the `None` object.
pub open spec fn says_nothing(doc: Seq<char>) -> bool {
    doc.len() == 0 || doc == "None"@
}

/// The docstring that is kept of `doc`.
pub open spec fn kept_docstring(doc: Seq<char>) -> Option<Seq<char>> {
    if says_nothing(doc) {
        None
    } else {
        Some(doc)
    }
}

/// Keeps a docstring unless it says nothing.
pub fn keep_docstring(doc: &str) -> (r: Option<String>)
    ensures
        crate::model::view_opt(r) == kept_docstring(doc@),
{
    if doc.unicode_len() == 0 || crate::text::str_eq(doc, "None") {
        None
    } else {
        Some(doc.to_owned())
    }
}

/// The attribute that documents a generated item with `doc`, where
/// documentation is generated and there is a docstring.
pub open spec fn doc_attribute(generate_docs: bool, doc: Option<Seq<char>>) -> Seq<char> {
    match doc {
        Some(d) => if generate_docs {
            "#[doc = "@ + literal(formatted_docstring(d)) + "]\n"@
        } else {
            Seq::empty()
        },
        None => Seq::empty(),
    }
}

/// Writes the attribute that documents a generated item.
pub fn doc_attribute_of(cfg: &Config, doc: &Option<String>) -> (out: String)
    ensures
        out@ == doc_attribute(cfg@.generate_docs, crate::model::view_opt(*doc)),
{
    match doc {
        Some(d) => {
            if cfg.generate_docs {
                let mut text = d.clone();
                format_docstring(&mut text);
                let lit = string_literal(text.as_str());
                let mut out = String::from_str("#[doc = ");
                out.append(lit.as_str());
                out.append("]\n");
                out
            } else {
                String::new()
            }
        },
        None => String::new(),
    }
}

} // verus!
