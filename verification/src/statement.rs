//! Top-level statements of a program and their rendering: declarations,
//! exports, ambient (`declare`) declarations, internal modules and comments.

use vstd::prelude::*;
use crate::artel_str::ArtelStr;
use crate::ast_type::{
    Identifier, FunctionDeclaration, FunctionModel, function_ok, function_text, type_ok, types_ok,
    type_params_ok, member_ok,
};
use crate::class_declaration::{
    ArtelClassDeclaration, ClassModel, class_ready, class_text, class_member_ready, is_accessor,
    class_types_ok, class_shape_ok, lemma_class_ready_by_shape,
};
use crate::enum_declaration::{EnumDeclaration, EnumModel, enum_ready, enum_text};
use crate::interface_declaration::{
    ArtelInterfaceDeclaration, InterfaceModel, interface_ready, interface_text,
};
use crate::lexical_declaration::{
    ArtelLexicalDeclaration, LexicalModel, lexical_ready, lexical_text,
};
use crate::type_alias_declaration::{
    ArtelTypeAliasDeclaration, TypeAliasModel, type_alias_ready, type_alias_text,
};
use crate::text::{
    spaces, join_text, texts, set_indent_text, indent, owned, join_strings, set_indent,
    lemma_texts_push,
};

verus! {

broadcast use vstd::std_specs::vec::group_vec_axioms;

// ---------------------------------------------------------------------------
// Data
// ---------------------------------------------------------------------------

pub enum ArtelStatement {
    LexicalDeclaration(ArtelLexicalDeclaration),
    FunctionDeclaration(FunctionDeclaration),
    ClassDeclaration(ArtelClassDeclaration),
    TypeAliasDeclaration(ArtelTypeAliasDeclaration),
    InterfaceDeclaration(ArtelInterfaceDeclaration),
    EnumDeclaration(EnumDeclaration),
    ExportStatement(Box<ArtelStatement>),
    AmbientDeclaration(ArtelAmbientDeclaration),
    InternalModule(ArtelInternalModule),
    /// A block of statements; not rendered.
    StatementBlock(Vec<ArtelStatement>),
    Comment(String),
}

/// `declare ...`, possibly `declare global ...`.
pub struct ArtelAmbientDeclaration {
    pub is_global: bool,
    pub body: Vec<ArtelStatement>,
}

/// `namespace Name { ... }`
pub struct ArtelInternalModule {
    pub name: Identifier,
    pub statements: Vec<ArtelStatement>,
}

pub type ArtelStatements = Vec<ArtelStatement>;

/// A whole converted program.
pub type ArtelProgram = ArtelStatements;

// ---------------------------------------------------------------------------
// Models
// ---------------------------------------------------------------------------

pub enum StatementModel {
    Lexical(LexicalModel),
    Function(FunctionModel),
    Class(ClassModel),
    TypeAlias(TypeAliasModel),
    Interface(InterfaceModel),
    Enum(EnumModel),
    Export(Box<StatementModel>),
    Ambient(AmbientModel),
    Module(ModuleModel),
    Block(Seq<StatementModel>),
    Comment(Seq<char>),
}

pub struct AmbientModel {
    pub is_global: bool,
    pub body: Seq<StatementModel>,
}

pub struct ModuleModel {
    pub name: Seq<char>,
    pub statements: Seq<StatementModel>,
}

pub open spec fn statement_model(s: ArtelStatement) -> StatementModel
    decreases s,
{
    match s {
        ArtelStatement::LexicalDeclaration(d) => StatementModel::Lexical(d@),
        ArtelStatement::FunctionDeclaration(f) => StatementModel::Function(f@),
        ArtelStatement::ClassDeclaration(c) => StatementModel::Class(c@),
        ArtelStatement::TypeAliasDeclaration(t) => StatementModel::TypeAlias(t@),
        ArtelStatement::InterfaceDeclaration(d) => StatementModel::Interface(d@),
        ArtelStatement::EnumDeclaration(e) => StatementModel::Enum(e@),
        ArtelStatement::ExportStatement(inner) => StatementModel::Export(
            Box::new(statement_model(*inner)),
        ),
        ArtelStatement::AmbientDeclaration(a) => StatementModel::Ambient(
            AmbientModel { is_global: a.is_global, body: statements_model(a.body) },
        ),
        ArtelStatement::InternalModule(m) => StatementModel::Module(
            ModuleModel { name: m.name@, statements: statements_model(m.statements) },
        ),
        ArtelStatement::StatementBlock(v) => StatementModel::Block(statements_model(v)),
        ArtelStatement::Comment(c) => StatementModel::Comment(c@),
    }
}

pub open spec fn statements_model(v: Vec<ArtelStatement>) -> Seq<StatementModel>
    decreases v,
{
    Seq::new(
        v.len() as nat,
        |i: int|
            if 0 <= i < v.len() {
                statement_model(v@[i])
            } else {
                arbitrary()
            },
    )
}

impl View for ArtelStatement {
    type V = StatementModel;

    open spec fn view(&self) -> StatementModel {
        statement_model(*self)
    }
}

impl View for ArtelAmbientDeclaration {
    type V = AmbientModel;

    open spec fn view(&self) -> AmbientModel {
        AmbientModel { is_global: self.is_global, body: statements_model(self.body) }
    }
}

impl View for ArtelInternalModule {
    type V = ModuleModel;

    open spec fn view(&self) -> ModuleModel {
        ModuleModel { name: self.name@, statements: statements_model(self.statements) }
    }
}

// ---------------------------------------------------------------------------
// Rendered text
// ---------------------------------------------------------------------------

/// The rendering of each statement at `ident_level`.
pub open spec fn statement_texts(ss: Seq<StatementModel>, ident_level: nat) -> Seq<Seq<char>>
    decreases ss,
{
    if ss.len() == 0 {
        seq![]
    } else {
        statement_texts(ss.drop_last(), ident_level).push(statement_text(ss.last(), ident_level))
    }
}

/// Statements separated by an empty line.
pub open spec fn statements_text(ss: Seq<StatementModel>, ident_level: nat) -> Seq<char> {
    join_text(statement_texts(ss, ident_level), "\n\n"@)
}

/// ` /*(!) global */` for `declare global`.
pub open spec fn global_mark(is_global: bool) -> Seq<char> {
    if is_global {
        " /*(!) global */"@
    } else {
        seq![]
    }
}

pub open spec fn statement_text(s: StatementModel, ident_level: nat) -> Seq<char>
    decreases s,
{
    match s {
        StatementModel::Lexical(d) => lexical_text(d, ident_level),
        StatementModel::Function(f) => function_text(f, ident_level),
        StatementModel::Class(c) => class_text(c, ident_level),
        StatementModel::TypeAlias(t) => type_alias_text(t, ident_level),
        StatementModel::Interface(d) => interface_text(d, ident_level),
        StatementModel::Enum(e) => enum_text(e, ident_level),
        StatementModel::Export(inner) => spaces(ident_level) + "внешнее\n"@ + statement_text(
            *inner,
            ident_level + 2,
        ),
        // An ambient declaration is written at the left margin; of a block
        // only its first statement is written.
        StatementModel::Ambient(a) => {
            let first = if a.body.len() > 0 {
                statement_text(a.body[0], 0)
            } else {
                seq![]
            };
            if a.body.len() == 1 {
                "внешнее"@ + global_mark(a.is_global) + "\n"@ + first
            } else {
                "внешнее"@ + global_mark(a.is_global) + "\n"@ + "{\n"@ + first + "\n"@ + "}"@
            }
        },
        StatementModel::Module(m) => spaces(ident_level) + "/*(!) "@ + m.name + " */\n"@ + spaces(
            ident_level,
        ) + "{\n"@ + join_text(statement_texts(m.statements, ident_level + 2), "\n\n"@) + spaces(
            ident_level,
        ) + "}"@,
        StatementModel::Block(_) => seq![],
        StatementModel::Comment(c) => set_indent_text(c, ident_level),
    }
}

/// Whether rendering `s` at `ident_level` succeeds: every indentation stays
/// within 100, every part can be rendered, an ambient declaration has a body,
/// and no statement block is left.
pub open spec fn statement_ready(s: StatementModel, ident_level: nat) -> bool
    decreases s,
{
    match s {
        StatementModel::Lexical(d) => lexical_ready(d, ident_level),
        StatementModel::Function(f) => ident_level <= 100 && function_ok(f),
        StatementModel::Class(c) => class_ready(c, ident_level),
        StatementModel::TypeAlias(t) => type_alias_ready(t, ident_level),
        StatementModel::Interface(d) => interface_ready(d, ident_level),
        StatementModel::Enum(e) => enum_ready(e, ident_level),
        StatementModel::Export(inner) => ident_level <= 100 && statement_ready(
            *inner,
            ident_level + 2,
        ),
        StatementModel::Ambient(a) => a.body.len() > 0 && statement_ready(a.body[0], 0),
        StatementModel::Module(m) => ident_level <= 100 && statements_ready(
            m.statements,
            ident_level + 2,
        ),
        StatementModel::Block(_) => false,
        StatementModel::Comment(_) => ident_level <= 100,
    }
}

pub open spec fn statements_ready(ss: Seq<StatementModel>, ident_level: nat) -> bool
    decreases ss,
{
    forall|i: int| 0 <= i < ss.len() ==> statement_ready(#[trigger] ss[i], ident_level)
}

// ---------------------------------------------------------------------------
// Laws
// ---------------------------------------------------------------------------

proof fn lemma_statement_texts_concat(a: Seq<StatementModel>, b: Seq<StatementModel>, ident_level: nat)
    ensures
        statement_texts(a + b, ident_level) == statement_texts(a, ident_level) + statement_texts(
            b,
            ident_level,
        ),
    decreases b.len(),
{
    if b.len() == 0 {
        assert(a + b =~= a);
        assert(statement_texts(a, ident_level) + statement_texts(b, ident_level) =~= statement_texts(
            a,
            ident_level,
        ));
    } else {
        assert((a + b).drop_last() =~= a + b.drop_last());
        assert((a + b).last() == b.last());
        lemma_statement_texts_concat(a, b.drop_last(), ident_level);
        assert(statement_texts(a, ident_level) + statement_texts(b, ident_level) =~= (
        statement_texts(a, ident_level) + statement_texts(b.drop_last(), ident_level)).push(
            statement_text(b.last(), ident_level),
        ));
    }
}

proof fn lemma_join_concat(x: Seq<Seq<char>>, y: Seq<Seq<char>>, sep: Seq<char>)
    requires
        x.len() > 0,
        y.len() > 0,
    ensures
        join_text(x + y, sep) == join_text(x, sep) + sep + join_text(y, sep),
    decreases y.len(),
{
    if y.len() == 1 {
        assert((x + y).drop_last() =~= x);
        assert((x + y).last() == y[0]);
    } else {
        assert((x + y).drop_last() =~= x + y.drop_last());
        assert((x + y).last() == y.last());
        lemma_join_concat(x, y.drop_last(), sep);
        assert(join_text(x, sep) + sep + join_text(y, sep) =~= join_text(x, sep) + sep + join_text(
            y.drop_last(),
            sep,
        ) + sep + y.last());
    }
}

proof fn lemma_statement_texts_len(ss: Seq<StatementModel>, ident_level: nat)
    ensures
        statement_texts(ss, ident_level).len() == ss.len(),
    decreases ss.len(),
{
    if ss.len() > 0 {
        lemma_statement_texts_len(ss.drop_last(), ident_level);
    }
}

/// A program renders part by part: two non-empty runs of statements render
/// as their renderings with an empty line between, and together they can be
/// rendered exactly when each can.
pub proof fn law_program_concat(a: Seq<StatementModel>, b: Seq<StatementModel>, ident_level: nat)
    requires
        a.len() > 0,
        b.len() > 0,
    ensures
        statements_text(a + b, ident_level) == statements_text(a, ident_level) + "\n\n"@
            + statements_text(b, ident_level),
        statements_ready(a + b, ident_level) <==> statements_ready(a, ident_level)
            && statements_ready(b, ident_level),
{
    lemma_statement_texts_concat(a, b, ident_level);
    lemma_statement_texts_len(a, ident_level);
    lemma_statement_texts_len(b, ident_level);
    lemma_join_concat(statement_texts(a, ident_level), statement_texts(b, ident_level), "\n\n"@);
    if statements_ready(a, ident_level) && statements_ready(b, ident_level) {
        assert forall|i: int| 0 <= i < (a + b).len() implies statement_ready(
            #[trigger] (a + b)[i],
            ident_level,
        ) by {
            if i < a.len() {
                assert((a + b)[i] == a[i]);
            } else {
                assert((a + b)[i] == b[i - a.len()]);
            }
        }
    }
    if statements_ready(a + b, ident_level) {
        assert forall|i: int| 0 <= i < a.len() implies statement_ready(
            #[trigger] a[i],
            ident_level,
        ) by {
            assert((a + b)[i] == a[i]);
        }
        assert forall|i: int| 0 <= i < b.len() implies statement_ready(
            #[trigger] b[i],
            ident_level,
        ) by {
            assert((a + b)[i + a.len()] == b[i]);
        }
    }
}

/// A statement that can be rendered at some indentation can be rendered at
/// every smaller one: indentation only ever adds to what rendering needs.
pub proof fn law_ready_at_smaller_indent(s: StatementModel, ident_level: nat, smaller: nat)
    requires
        statement_ready(s, ident_level),
        smaller <= ident_level,
    ensures
        statement_ready(s, smaller),
    decreases s,
{
    match s {
        StatementModel::Class(c) => {
            assert forall|i: int|
                0 <= i < c.body.len() && !is_accessor(#[trigger] c.body[i]) implies class_member_ready(
                c.body[i],
                smaller + 2,
            ) by {
                assert(class_member_ready(c.body[i], ident_level + 2));
            }
        },
        StatementModel::Export(inner) => {
            law_ready_at_smaller_indent(*inner, ident_level + 2, smaller + 2);
        },
        StatementModel::Module(m) => {
            assert(statements_ready(m.statements, ident_level + 2));
            assert forall|i: int| 0 <= i < m.statements.len() implies statement_ready(
                #[trigger] m.statements[i],
                smaller + 2,
            ) by {
                assert(statement_ready(m.statements[i], ident_level + 2));
                law_ready_at_smaller_indent(m.statements[i], ident_level + 2, smaller + 2);
            }
            assert(statements_ready(m.statements, smaller + 2));
        },
        _ => {},
    }
}

/// Every type inside the statement can be rendered.
pub open spec fn statement_types_ok(s: StatementModel) -> bool
    decreases s,
{
    match s {
        StatementModel::Lexical(d) => forall|i: int|
            0 <= i < d.body.len() ==> type_ok(#[trigger] d.body[i].var_type),
        StatementModel::Function(f) => function_ok(f),
        StatementModel::Class(c) => class_types_ok(c),
        StatementModel::TypeAlias(t) => type_params_ok(t.generics) && type_ok(t.value),
        StatementModel::Interface(d) => {
            &&& type_params_ok(d.generics)
            &&& forall|i: int| 0 <= i < d.extends.len() ==> types_ok(#[trigger] d.extends[i].args)
            &&& forall|i: int| 0 <= i < d.body.len() ==> member_ok(#[trigger] d.body[i])
        },
        StatementModel::Enum(_) => true,
        StatementModel::Export(inner) => statement_types_ok(*inner),
        StatementModel::Ambient(a) => statements_types_ok(a.body),
        StatementModel::Module(m) => statements_types_ok(m.statements),
        StatementModel::Block(ss) => statements_types_ok(ss),
        StatementModel::Comment(_) => true,
    }
}

pub open spec fn statements_types_ok(ss: Seq<StatementModel>) -> bool
    decreases ss,
{
    forall|i: int| 0 <= i < ss.len() ==> statement_types_ok(#[trigger] ss[i])
}

/// What rendering a statement at `ident_level` needs besides renderable
/// types: no statement block, a `declare` with something in it, class
/// accessors that name their types and come at most once each, and every
/// indentation within 100.
pub open spec fn statement_shape_ok(s: StatementModel, ident_level: nat) -> bool
    decreases s,
{
    match s {
        StatementModel::Lexical(d) => d.body.len() > 0 ==> ident_level <= 100,
        StatementModel::Function(_) => ident_level <= 100,
        StatementModel::Class(c) => class_shape_ok(c, ident_level),
        StatementModel::TypeAlias(_) => ident_level <= 100,
        StatementModel::Interface(d) => ident_level <= 100 && (d.body.len() > 0 ==> ident_level + 2
            <= 100),
        StatementModel::Enum(e) => enum_ready(e, ident_level),
        StatementModel::Export(inner) => ident_level <= 100 && statement_shape_ok(
            *inner,
            ident_level + 2,
        ),
        StatementModel::Ambient(a) => a.body.len() > 0 && statement_shape_ok(a.body[0], 0),
        StatementModel::Module(m) => ident_level <= 100 && statements_shape_ok(
            m.statements,
            ident_level + 2,
        ),
        StatementModel::Block(_) => false,
        StatementModel::Comment(_) => ident_level <= 100,
    }
}

pub open spec fn statements_shape_ok(ss: Seq<StatementModel>, ident_level: nat) -> bool
    decreases ss,
{
    forall|i: int| 0 <= i < ss.len() ==> statement_shape_ok(#[trigger] ss[i], ident_level)
}

/// With renderable types, a statement renders exactly when its shape allows.
pub proof fn lemma_statement_ready_by_shape(s: StatementModel, ident_level: nat)
    requires
        statement_types_ok(s),
    ensures
        statement_ready(s, ident_level) <==> statement_shape_ok(s, ident_level),
    decreases s,
{
    match s {
        StatementModel::Class(c) => {
            lemma_class_ready_by_shape(c, ident_level);
        },
        StatementModel::Export(inner) => {
            lemma_statement_ready_by_shape(*inner, ident_level + 2);
        },
        StatementModel::Ambient(a) => {
            if a.body.len() > 0 {
                assert(statements_types_ok(a.body));
                assert(statement_types_ok(a.body[0]));
                lemma_statement_ready_by_shape(a.body[0], 0);
            }
        },
        StatementModel::Module(m) => {
            assert(statements_types_ok(m.statements));
            assert forall|i: int| 0 <= i < m.statements.len() implies (statement_ready(
                #[trigger] m.statements[i],
                ident_level + 2,
            ) <==> statement_shape_ok(m.statements[i], ident_level + 2)) by {
                assert(statement_types_ok(m.statements[i]));
                lemma_statement_ready_by_shape(m.statements[i], ident_level + 2);
            }
            if statements_ready(m.statements, ident_level + 2) {
                assert forall|i: int| 0 <= i < m.statements.len() implies statement_shape_ok(
                    #[trigger] m.statements[i],
                    ident_level + 2,
                ) by {
                    assert(statement_ready(m.statements[i], ident_level + 2));
                }
            }
            if statements_shape_ok(m.statements, ident_level + 2) {
                assert forall|i: int| 0 <= i < m.statements.len() implies statement_ready(
                    #[trigger] m.statements[i],
                    ident_level + 2,
                ) by {
                    assert(statement_shape_ok(m.statements[i], ident_level + 2));
                }
            }
        },
        _ => {},
    }
}

/// With renderable types, statements render exactly when their shapes allow.
pub proof fn lemma_statements_ready_by_shape(ss: Seq<StatementModel>, ident_level: nat)
    requires
        statements_types_ok(ss),
    ensures
        statements_ready(ss, ident_level) <==> statements_shape_ok(ss, ident_level),
{
    assert forall|i: int| 0 <= i < ss.len() implies (statement_ready(
        #[trigger] ss[i],
        ident_level,
    ) <==> statement_shape_ok(ss[i], ident_level)) by {
        assert(statement_types_ok(ss[i]));
        lemma_statement_ready_by_shape(ss[i], ident_level);
    }
    if statements_ready(ss, ident_level) {
        assert forall|i: int| 0 <= i < ss.len() implies statement_shape_ok(
            #[trigger] ss[i],
            ident_level,
        ) by {
            assert(statement_ready(ss[i], ident_level));
        }
    }
    if statements_shape_ok(ss, ident_level) {
        assert forall|i: int| 0 <= i < ss.len() implies statement_ready(#[trigger] ss[i], ident_level) by {
            assert(statement_shape_ok(ss[i], ident_level));
        }
    }
}

// ---------------------------------------------------------------------------
// Rendering
// ---------------------------------------------------------------------------

impl ArtelAmbientDeclaration {
    pub fn new(is_global: bool, body: Vec<ArtelStatement>) -> (r: Self)
        ensures
            r.is_global == is_global,
            r.body == body,
    {
        ArtelAmbientDeclaration { is_global, body }
    }

    /// Writes the declaration at `ident_level`; of a block of several
    /// statements only the first is written.
    pub fn render(&self, ident_level: usize) -> (r: String)
        requires
            ident_level <= 100,
            self.body.len() > 0,
            statement_ready(self@.body[0], ident_level as nat),
        ensures
            r@ == if self.body.len() == 1 {
                spaces(ident_level as nat) + "внешнее"@ + global_mark(self.is_global) + "\n"@
                    + spaces(ident_level as nat) + statement_text(self@.body[0], ident_level as nat)
            } else {
                spaces(ident_level as nat) + "внешнее"@ + global_mark(self.is_global) + "\n"@
                    + spaces(ident_level as nat) + "{\n"@ + statement_text(
                    self@.body[0],
                    ident_level as nat,
                ) + "\n"@ + spaces(ident_level as nat) + "}"@
            },
        decreases self, 0nat,
    {
        proof {
            assert(decreases_to!(self => self.body@[0]));
        }
        let body = self.body[0].render(ident_level);
        let mut r = owned(indent(ident_level));
        r.append("внешнее");
        if self.is_global {
            r.append(" /*(!) global */");
        }
        r.append("\n");
        r.append(indent(ident_level));
        if self.body.len() == 1 {
            r.append(body.as_str());
        } else {
            r.append("{\n");
            r.append(body.as_str());
            r.append("\n");
            r.append(indent(ident_level));
            r.append("}");
        }
        r
    }
}

impl ArtelInternalModule {
    pub fn new(name: Identifier, statements: Vec<ArtelStatement>) -> (r: Self)
        ensures
            r.name == name,
            r.statements == statements,
    {
        ArtelInternalModule { name, statements }
    }

    pub fn render(&self, ident_level: usize) -> (r: String)
        requires
            statement_ready(StatementModel::Module(self@), ident_level as nat),
        ensures
            r@ == statement_text(StatementModel::Module(self@), ident_level as nat),
        decreases self, 0nat,
    {
        let mut r = owned(indent(ident_level));
        r.append("/*(!) ");
        r.append(self.name.0.as_str());
        r.append(" */\n");
        r.append(indent(ident_level));
        r.append("{\n");
        let body = render_statements(&self.statements, ident_level + 2);
        r.append(body.as_str());
        r.append(indent(ident_level));
        r.append("}");
        r
    }
}

/// Renders statements at `ident_level`, separated by an empty line.
pub fn render_statements(v: &Vec<ArtelStatement>, ident_level: usize) -> (r: String)
    requires
        statements_ready(statements_model(*v), ident_level as nat),
    ensures
        r@ == statements_text(statements_model(*v), ident_level as nat),
    decreases v, 1nat,
{
    let ghost m = statements_model(*v);
    let n = v.len();
    let mut parts: Vec<String> = Vec::new();
    let mut j: usize = 0;
    while j < n
        invariant
            j <= n == v.len(),
            m == statements_model(*v),
            statements_ready(m, ident_level as nat),
            texts(parts@) == statement_texts(m.take(j as int), ident_level as nat),
        decreases n - j,
    {
        proof {
            assert(decreases_to!(v => v@[j as int]));
            assert(statement_ready(m[j as int], ident_level as nat));
            assert(m.take(j + 1).drop_last() =~= m.take(j as int));
        }
        let one = v[j].render(ident_level);
        proof {
            lemma_texts_push(parts@, one);
        }
        parts.push(one);
        j = j + 1;
    }
    assert(m.take(n as int) =~= m);
    join_strings(&parts, "\n\n")
}

impl ArtelStatement {
    pub fn render(&self, ident_level: usize) -> (r: String)
        requires
            statement_ready(self@, ident_level as nat),
        ensures
            r@ == statement_text(self@, ident_level as nat),
        decreases self, 0nat,
    {
        match self {
            ArtelStatement::FunctionDeclaration(fd) => fd.render(ident_level),
            ArtelStatement::EnumDeclaration(e) => e.artel_str(ident_level),
            ArtelStatement::InterfaceDeclaration(d) => d.render(ident_level),
            ArtelStatement::ClassDeclaration(c) => c.render(ident_level),
            ArtelStatement::ExportStatement(inner) => {
                let mut r = owned(indent(ident_level));
                r.append("внешнее\n");
                let body = inner.render(ident_level + 2);
                r.append(body.as_str());
                r
            },
            ArtelStatement::AmbientDeclaration(d) => {
                proof {
                    assert(d@.body[0] == d.body@[0]@);
                }
                d.render(0)
            },
            ArtelStatement::TypeAliasDeclaration(t) => t.artel_str(ident_level),
            ArtelStatement::Comment(c) => set_indent(c.as_str(), ident_level),
            ArtelStatement::LexicalDeclaration(d) => d.artel_str(ident_level),
            ArtelStatement::InternalModule(m) => m.render(ident_level),
            ArtelStatement::StatementBlock(_) => String::new(),
        }
    }
}

impl ArtelStatement {
    /// Whether the statement can be rendered at `ident_level`.
    pub fn can_render(&self, ident_level: usize) -> (r: bool)
        ensures
            r == statement_ready(self@, ident_level as nat),
        decreases self, 0nat,
    {
        let r = match self {
            ArtelStatement::LexicalDeclaration(d) => d.can_render(ident_level),
            ArtelStatement::FunctionDeclaration(f) => ident_level <= 100 && f.can_render(),
            ArtelStatement::ClassDeclaration(c) => c.can_render(ident_level),
            ArtelStatement::TypeAliasDeclaration(t) => t.can_render(ident_level),
            ArtelStatement::InterfaceDeclaration(d) => d.can_render(ident_level),
            ArtelStatement::EnumDeclaration(e) => e.can_render(ident_level),
            ArtelStatement::ExportStatement(inner) => {
                if ident_level <= 100 {
                    let x = inner.can_render(ident_level + 2);
                    assert(x == statement_ready(self@, ident_level as nat));
                    x
                } else {
                    false
                }
            },
            ArtelStatement::AmbientDeclaration(a) => {
                if a.body.len() == 0 {
                    false
                } else {
                    proof {
                        assert(a@.body[0] == a.body@[0]@);
                        assert(decreases_to!(self => a.body@[0]));
                    }
                    let x = a.body[0].can_render(0);
                    assert(x == statement_ready(self@, ident_level as nat));
                    x
                }
            },
            ArtelStatement::InternalModule(m) => {
                if ident_level <= 100 {
                    let x = statements_can_render(&m.statements, ident_level + 2);
                    assert(x == statement_ready(self@, ident_level as nat));
                    x
                } else {
                    false
                }
            },
            ArtelStatement::StatementBlock(_) => false,
            ArtelStatement::Comment(_) => ident_level <= 100,
        };
        r
    }
}

/// Whether every statement can be rendered at `ident_level`.
pub fn statements_can_render(v: &Vec<ArtelStatement>, ident_level: usize) -> (r: bool)
    ensures
        r == statements_ready(statements_model(*v), ident_level as nat),
    decreases v, 1nat,
{
    let ghost m = statements_model(*v);
    let n = v.len();
    let mut j: usize = 0;
    while j < n
        invariant
            j <= n == v.len(),
            m == statements_model(*v),
            forall|i: int| 0 <= i < j ==> statement_ready(#[trigger] m[i], ident_level as nat),
        decreases n - j,
    {
        proof {
            assert(decreases_to!(v => v@[j as int]));
        }
        if !v[j].can_render(ident_level) {
            assert(!statement_ready(m[j as int], ident_level as nat));
            return false;
        }
        j = j + 1;
    }
    true
}

/// Renders a whole program at the left margin.
pub fn create_artel_code(artel_program: ArtelProgram) -> (r: String)
    requires
        statements_ready(statements_model(artel_program), 0),
    ensures
        r@ == statements_text(statements_model(artel_program), 0),
{
    render_statements(&artel_program, 0)
}

// ---------------------------------------------------------------------------
// As Artel text
// ---------------------------------------------------------------------------

impl ArtelStr for ArtelStatement {
    open spec fn artel_ready(&self, ident_level: usize) -> bool {
        statement_ready(self@, ident_level as nat)
    }

    open spec fn artel_text(&self, ident_level: usize) -> Seq<char> {
        statement_text(self@, ident_level as nat)
    }

    fn artel_str(&self, ident_level: usize) -> (r: String) {
        self.render(ident_level)
    }
}

impl ArtelStr for Vec<ArtelStatement> {
    open spec fn artel_ready(&self, ident_level: usize) -> bool {
        statements_ready(statements_model(*self), ident_level as nat)
    }

    open spec fn artel_text(&self, ident_level: usize) -> Seq<char> {
        statements_text(statements_model(*self), ident_level as nat)
    }

    fn artel_str(&self, ident_level: usize) -> (r: String) {
        render_statements(self, ident_level)
    }
}

impl ArtelStr for ArtelInternalModule {
    open spec fn artel_ready(&self, ident_level: usize) -> bool {
        statement_ready(StatementModel::Module(self@), ident_level as nat)
    }

    open spec fn artel_text(&self, ident_level: usize) -> Seq<char> {
        statement_text(StatementModel::Module(self@), ident_level as nat)
    }

    fn artel_str(&self, ident_level: usize) -> (r: String) {
        self.render(ident_level)
    }
}

impl ArtelStr for ArtelAmbientDeclaration {
    open spec fn artel_ready(&self, ident_level: usize) -> bool {
        ident_level <= 100 && self.body.len() > 0 && statement_ready(
            self@.body[0],
            ident_level as nat,
        )
    }

    open spec fn artel_text(&self, ident_level: usize) -> Seq<char> {
        if self.body.len() == 1 {
            spaces(ident_level as nat) + "внешнее"@ + global_mark(self.is_global) + "\n"@ + spaces(
                ident_level as nat,
            ) + statement_text(self@.body[0], ident_level as nat)
        } else {
            spaces(ident_level as nat) + "внешнее"@ + global_mark(self.is_global) + "\n"@ + spaces(
                ident_level as nat,
            ) + "{\n"@ + statement_text(self@.body[0], ident_level as nat) + "\n"@ + spaces(
                ident_level as nat,
            ) + "}"@
        }
    }

    fn artel_str(&self, ident_level: usize) -> (r: String) {
        self.render(ident_level)
    }
}

} // verus!
