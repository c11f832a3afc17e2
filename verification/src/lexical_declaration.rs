//! `const`, `let` and `var` declarations.

use vstd::prelude::*;
use crate::artel_str::ArtelStr;
use crate::ast_type::{Identifier, Type, TypeModel, type_ok, type_text};
use crate::text::{spaces, concat_text, texts, indent, owned, concat_strings, lemma_texts_push, text_is};

verus! {

#[derive(Clone, Copy, PartialEq, Eq, Structural)]
pub enum ArtelLexicalDeclarationType {
    CONST,
    LET,
    VAR,
}

pub struct ArtelLexicalDeclarationMember {
    pub ident: Identifier,
    pub var_type: Type,
    pub value: Option<String>,
}

pub struct ArtelLexicalDeclaration {
    pub decl_type: ArtelLexicalDeclarationType,
    pub body: Vec<ArtelLexicalDeclarationMember>,
}

pub struct LexicalMemberModel {
    pub ident: Seq<char>,
    pub var_type: TypeModel,
    pub value: Option<Seq<char>>,
}

pub struct LexicalModel {
    pub decl_type: ArtelLexicalDeclarationType,
    pub body: Seq<LexicalMemberModel>,
}

pub open spec fn lexical_member_model(m: ArtelLexicalDeclarationMember) -> LexicalMemberModel {
    LexicalMemberModel {
        ident: m.ident@,
        var_type: m.var_type@,
        value: match m.value {
            Some(v) => Some(v@),
            None => None,
        },
    }
}

impl View for ArtelLexicalDeclarationMember {
    type V = LexicalMemberModel;

    open spec fn view(&self) -> LexicalMemberModel {
        lexical_member_model(*self)
    }
}

impl View for ArtelLexicalDeclaration {
    type V = LexicalModel;

    open spec fn view(&self) -> LexicalModel {
        LexicalModel {
            decl_type: self.decl_type,
            body: self.body@.map_values(|m: ArtelLexicalDeclarationMember| m@),
        }
    }
}

/// The keyword words: `конст` for `const`, `пусть` for `let`; `var` has none.
pub open spec fn decl_type_text(t: ArtelLexicalDeclarationType) -> Seq<char> {
    match t {
        ArtelLexicalDeclarationType::CONST => "конст"@,
        ArtelLexicalDeclarationType::LET => "пусть"@,
        ArtelLexicalDeclarationType::VAR => "/*(!) var */"@,
    }
}

/// `name: Type`, the initial value kept as a comment.
pub open spec fn lexical_member_text(m: LexicalMemberModel) -> Seq<char> {
    m.ident + ": "@ + type_text(m.var_type) + match m.value {
        Some(v) => " /*(!) = "@ + v + " */"@,
        None => seq![],
    }
}

pub open spec fn lexical_lines(d: LexicalModel, ident_level: nat) -> Seq<Seq<char>> {
    Seq::new(
        d.body.len(),
        |i: int|
            spaces(ident_level) + decl_type_text(d.decl_type) + " "@ + lexical_member_text(d.body[i])
                + "\n"@,
    )
}

/// One line per declared name.
pub open spec fn lexical_text(d: LexicalModel, ident_level: nat) -> Seq<char> {
    concat_text(lexical_lines(d, ident_level))
}

pub open spec fn lexical_ready(d: LexicalModel, ident_level: nat) -> bool {
    &&& d.body.len() > 0 ==> ident_level <= 100
    &&& forall|i: int| 0 <= i < d.body.len() ==> type_ok(#[trigger] d.body[i].var_type)
}

/// The kind of a declaration from its keyword, when it is one of `let`, `const`, `var`.
pub open spec fn decl_type_of(s: Seq<char>) -> Option<ArtelLexicalDeclarationType> {
    if s == "let"@ {
        Some(ArtelLexicalDeclarationType::LET)
    } else if s == "const"@ {
        Some(ArtelLexicalDeclarationType::CONST)
    } else if s == "var"@ {
        Some(ArtelLexicalDeclarationType::VAR)
    } else {
        None
    }
}

/// The kind of a declaration from its keyword, if it is one of `let`, `const`, `var`.
pub fn decl_type_from(s: &str) -> (r: Option<ArtelLexicalDeclarationType>)
    ensures
        r == decl_type_of(s@),
{
    let k = owned(s);
    if text_is(&k, "let") {
        Some(ArtelLexicalDeclarationType::LET)
    } else if text_is(&k, "const") {
        Some(ArtelLexicalDeclarationType::CONST)
    } else if text_is(&k, "var") {
        Some(ArtelLexicalDeclarationType::VAR)
    } else {
        None
    }
}

impl ArtelLexicalDeclarationType {
    pub fn new(s: &str) -> (r: Self)
        requires
            decl_type_of(s@) is Some,
        ensures
            Some(r) == decl_type_of(s@),
    {
        match decl_type_from(s) {
            Some(t) => t,
            None => ArtelLexicalDeclarationType::VAR,
        }
    }

    /// The Artel keyword for a `let` or `const` declaration.
    pub fn to_alstr(&self) -> (r: &'static str)
        requires
            *self != ArtelLexicalDeclarationType::VAR,
        ensures
            r@ == decl_type_text(*self),
    {
        match self {
            ArtelLexicalDeclarationType::LET => "пусть",
            _ => "конст",
        }
    }
}

impl ArtelStr for ArtelLexicalDeclarationType {
    open spec fn artel_ready(&self, ident_level: usize) -> bool {
        true
    }

    open spec fn artel_text(&self, ident_level: usize) -> Seq<char> {
        decl_type_text(*self)
    }

    fn artel_str(&self, _ident_level: usize) -> (r: String) {
        match self {
            ArtelLexicalDeclarationType::CONST => owned("конст"),
            ArtelLexicalDeclarationType::LET => owned("пусть"),
            ArtelLexicalDeclarationType::VAR => owned("/*(!) var */"),
        }
    }
}

impl ArtelLexicalDeclarationMember {
    pub fn new(ident: Identifier, var_type: Type, value: Option<String>) -> (r: Self)
        ensures
            r.ident == ident,
            r.var_type == var_type,
            r.value == value,
    {
        ArtelLexicalDeclarationMember { ident, var_type, value }
    }
}

impl ArtelStr for ArtelLexicalDeclarationMember {
    open spec fn artel_ready(&self, ident_level: usize) -> bool {
        type_ok(self@.var_type)
    }

    open spec fn artel_text(&self, ident_level: usize) -> Seq<char> {
        lexical_member_text(self@)
    }

    fn artel_str(&self, _ident_level: usize) -> (r: String) {
        let mut r = self.ident.0.clone();
        r.append(": ");
        let t = self.var_type.render();
        r.append(t.as_str());
        match &self.value {
            Some(v) => {
                r.append(" /*(!) = ");
                r.append(v.as_str());
                r.append(" */");
            },
            None => {},
        }
        r
    }
}

impl ArtelLexicalDeclaration {
    pub fn new(decl_type: ArtelLexicalDeclarationType, body: Vec<ArtelLexicalDeclarationMember>) -> (r: Self)
        ensures
            r.decl_type == decl_type,
            r.body == body,
    {
        ArtelLexicalDeclaration { decl_type, body }
    }
}

impl ArtelLexicalDeclaration {
    /// Whether the declaration can be rendered at `ident_level`.
    pub fn can_render(&self, ident_level: usize) -> (r: bool)
        ensures
            r == lexical_ready(self@, ident_level as nat),
    {
        let ghost d = self@;
        if self.body.len() > 0 && ident_level > 100 {
            return false;
        }
        let n = self.body.len();
        let mut j: usize = 0;
        while j < n
            invariant
                j <= n == self.body.len(),
                d == self@,
                forall|i: int| 0 <= i < j ==> type_ok(#[trigger] d.body[i].var_type),
            decreases n - j,
        {
            if !self.body[j].var_type.can_render() {
                assert(!type_ok(d.body[j as int].var_type));
                return false;
            }
            j = j + 1;
        }
        true
    }
}

impl ArtelStr for ArtelLexicalDeclaration {
    open spec fn artel_ready(&self, ident_level: usize) -> bool {
        lexical_ready(self@, ident_level as nat)
    }

    open spec fn artel_text(&self, ident_level: usize) -> Seq<char> {
        lexical_text(self@, ident_level as nat)
    }

    fn artel_str(&self, ident_level: usize) -> (r: String) {
        let ghost d = self@;
        let mut lines: Vec<String> = Vec::new();
        let n = self.body.len();
        let mut j: usize = 0;
        while j < n
            invariant
                j <= n == self.body.len(),
                d == self@,
                lexical_ready(d, ident_level as nat),
                texts(lines@) == lexical_lines(d, ident_level as nat).take(j as int),
            decreases n - j,
        {
            assert(type_ok(d.body[j as int].var_type));
            let mut line = owned(indent(ident_level));
            let k = self.decl_type.artel_str(0);
            line.append(k.as_str());
            line.append(" ");
            let m = self.body[j].artel_str(0);
            line.append(m.as_str());
            line.append("\n");
            proof {
                lemma_texts_push(lines@, line);
                assert(lexical_lines(d, ident_level as nat).take(j + 1) =~= lexical_lines(
                    d,
                    ident_level as nat,
                ).take(j as int).push(line@));
            }
            lines.push(line);
            j = j + 1;
        }
        assert(lexical_lines(d, ident_level as nat).take(n as int) =~= lexical_lines(d, ident_level as nat));
        concat_strings(&lines)
    }
}

} // verus!
