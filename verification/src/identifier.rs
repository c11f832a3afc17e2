//! Identifiers and the words Artel reserves.

use vstd::prelude::*;
use crate::ast_type::Identifier;
use crate::artel_str::ArtelStr;
use crate::text::{owned, text_is};

verus! {

/// The reserved words an identifier must not collide with.
pub open spec fn is_keyword(s: Seq<char>) -> bool {
    ||| s == "aliases"@
    ||| s == "and"@
    ||| s == "as"@
    ||| s == "aspect"@
    ||| s == "await"@
    ||| s == "case"@
    ||| s == "const"@
    ||| s == "dispose"@
    ||| s == "do"@
    ||| s == "else"@
    ||| s == "empty"@
    ||| s == "error"@
    ||| s == "external"@
    ||| s == "finally"@
    ||| s == "for"@
    ||| s == "from"@
    ||| s == "global"@
    ||| s == "hidden"@
    ||| s == "if"@
    ||| s == "import"@
    ||| s == "interface"@
    ||| s == "is"@
    ||| s == "let"@
    ||| s == "no"@
    ||| s == "nonreactive"@
    ||| s == "not"@
    ||| s == "nzon"@
    ||| s == "object"@
    ||| s == "observable"@
    ||| s == "operation"@
    ||| s == "or"@
    ||| s == "parallel"@
    ||| s == "protected"@
    ||| s == "reactive"@
    ||| s == "redefinable"@
    ||| s == "redefined"@
    ||| s == "ref"@
    ||| s == "return"@
    ||| s == "switch"@
    ||| s == "then"@
    ||| s == "transactional"@
    ||| s == "type"@
    ||| s == "variant"@
    ||| s == "while"@
    ||| s == "xor"@
    ||| s == "yes"@
    ||| s == "yield"@
}

/// Whether `s` is one of the reserved words.
pub fn is_keyword_text(s: &String) -> (r: bool)
    ensures
        r == is_keyword(s@),
{
    text_is(s, "aliases") ||
        text_is(s, "and") ||
        text_is(s, "as") ||
        text_is(s, "aspect") ||
        text_is(s, "await") ||
        text_is(s, "case") ||
        text_is(s, "const") ||
        text_is(s, "dispose") ||
        text_is(s, "do") ||
        text_is(s, "else") ||
        text_is(s, "empty") ||
        text_is(s, "error") ||
        text_is(s, "external") ||
        text_is(s, "finally") ||
        text_is(s, "for") ||
        text_is(s, "from") ||
        text_is(s, "global") ||
        text_is(s, "hidden") ||
        text_is(s, "if") ||
        text_is(s, "import") ||
        text_is(s, "interface") ||
        text_is(s, "is") ||
        text_is(s, "let") ||
        text_is(s, "no") ||
        text_is(s, "nonreactive") ||
        text_is(s, "not") ||
        text_is(s, "nzon") ||
        text_is(s, "object") ||
        text_is(s, "observable") ||
        text_is(s, "operation") ||
        text_is(s, "or") ||
        text_is(s, "parallel") ||
        text_is(s, "protected") ||
        text_is(s, "reactive") ||
        text_is(s, "redefinable") ||
        text_is(s, "redefined") ||
        text_is(s, "ref") ||
        text_is(s, "return") ||
        text_is(s, "switch") ||
        text_is(s, "then") ||
        text_is(s, "transactional") ||
        text_is(s, "type") ||
        text_is(s, "variant") ||
        text_is(s, "while") ||
        text_is(s, "xor") ||
        text_is(s, "yes") ||
        text_is(s, "yield")
}

/// An identifier as written in Artel: a reserved word gets a trailing backquote.
pub open spec fn identifier_text(name: Seq<char>) -> Seq<char> {
    if is_keyword(name) {
        name + "`"@
    } else {
        name
    }
}

impl Identifier {
    pub fn new(name: &str) -> (r: Identifier)
        ensures
            r@ == name@,
    {
        Identifier(owned(name))
    }

    pub fn raw(&self) -> (r: &String)
        ensures
            r@ == self@,
    {
        &self.0
    }
}

impl ArtelStr for Identifier {
    open spec fn artel_ready(&self, ident_level: usize) -> bool {
        true
    }

    open spec fn artel_text(&self, ident_level: usize) -> Seq<char> {
        identifier_text(self@)
    }

    fn artel_str(&self, _ident_level: usize) -> (r: String) {
        if is_keyword_text(&self.0) {
            let mut r = self.0.clone();
            r.append("`");
            r
        } else {
            self.0.clone()
        }
    }
}

} // verus!
