//! Walking the TypeScript syntax tree and building the Artel statements:
//! declarations of variables, functions, classes, interfaces, enums and type
//! aliases, exports, ambient declarations and internal modules.
//!
//! A reader returns `None` exactly when the input holds a construct the
//! converter does not handle; a statement reader returns `Some(None)` for a
//! statement it leaves out (imports, `if` statements, plain expressions).

use vstd::prelude::*;
use crate::ast_type::{
    Identifier, Type, TypeModel, TypeParamModel, FunctionModel, PropertyModel, ArtelProperty,
    FunctionDeclaration, InterfaceMember, MemberModel, PrimaryType, LiteralType, type_ok, types_ok,
    type_params_ok, member_ok, function_ok,
};
use crate::class_declaration::{
    ArtelClassDeclaration, ArtelClassMember, ClassModel, ClassMemberModel, ClassMemberModifiers,
    ArtelAccessModifier, ArtelModifier, GetterSetter, access_modifier_of, access_modifier_from,
    class_types_ok, class_member_types_ok,
};
use crate::enum_declaration::{EnumDeclaration, EnumItem, EnumModel, EnumItemModel};
use crate::interface_declaration::{ArtelInterfaceDeclaration, InterfaceModel};
use crate::lexical_declaration::{
    ArtelLexicalDeclaration, ArtelLexicalDeclarationMember, ArtelLexicalDeclarationType,
    LexicalModel, LexicalMemberModel, decl_type_of, decl_type_from,
};
use crate::type_alias_declaration::{ArtelTypeAliasDeclaration, TypeAliasModel};
use crate::statement::{
    ArtelStatement, ArtelAmbientDeclaration, ArtelInternalModule, ArtelProgram, StatementModel,
    AmbientModel, ModuleModel, statements_model, statement_types_ok, statements_types_ok,
    statements_ready, statements_shape_ok, lemma_statements_ready_by_shape,
};
use crate::parse_type::{
    no_type, with_undefined, field_text, spec_parse_type, spec_generics_of, spec_parameters_of,
    spec_optional_type, spec_parse_function, spec_parse_signature_member, node_text,
    law_read_types_render, lemma_read_signature_parts, lemma_with_undefined_ok,
    field_text_of, parse_type, generics_of, optional_type, parse_function_declaration,
    parse_signature_member, parse_formal_arguments,
};
use crate::syntax::{
    SyntaxNode, NodeModel, has_field, field_index, has_named_child, first_named_index,
    named_child_count, field_child,
};
use crate::text::owned;

verus! {

broadcast use vstd::std_specs::vec::group_vec_axioms;

// ---------------------------------------------------------------------------
// Variable declarations
// ---------------------------------------------------------------------------

/// One `variable_declarator`: its name, its type (or `no_type`) and the text of
/// its initial value.
pub open spec fn spec_parse_declarator(c: NodeModel) -> Option<LexicalMemberModel> {
    let ty = if has_field(c, "type"@) {
        spec_parse_type(c.children[field_index(c, "type"@)])
    } else {
        Some(no_type())
    };
    let value = if has_field(c, "value"@) {
        match field_text(c, "value"@) {
            Some(v) => Some(Some(v)),
            None => None,
        }
    } else {
        Some(None)
    };
    if c.kind == "variable_declarator"@ {
        match (field_text(c, "name"@), ty, value) {
            (Some(name), Some(t), Some(v)) => Some(
                LexicalMemberModel { ident: name, var_type: t, value: v },
            ),
            _ => None,
        }
    } else {
        None
    }
}

pub open spec fn spec_declarators_upto(p: NodeModel, j: int) -> Option<Seq<LexicalMemberModel>>
    decreases j,
{
    if j <= 0 || j > p.children.len() {
        Some(seq![])
    } else {
        let prev = spec_declarators_upto(p, j - 1);
        if !p.children[j - 1].named {
            prev
        } else {
            match (prev, spec_parse_declarator(p.children[j - 1])) {
                (Some(a), Some(m)) => Some(a.push(m)),
                _ => None,
            }
        }
    }
}

/// A `let`, `const` or `var` declaration; the keyword is the kind of the child
/// in field `kind`, `var` when there is none.
pub open spec fn spec_parse_lexical(n: NodeModel) -> Option<LexicalModel> {
    let decl_type = if has_field(n, "kind"@) {
        decl_type_of(n.children[field_index(n, "kind"@)].kind)
    } else {
        decl_type_of("var"@)
    };
    match (decl_type, spec_declarators_upto(n, n.children.len() as int)) {
        (Some(t), Some(body)) => Some(LexicalModel { decl_type: t, body }),
        _ => None,
    }
}

// ---------------------------------------------------------------------------
// Interfaces, type aliases, enums
// ---------------------------------------------------------------------------

pub open spec fn spec_interface_members_upto(p: NodeModel, j: int) -> Option<Seq<MemberModel>>
    decreases j,
{
    if j <= 0 || j > p.children.len() {
        Some(seq![])
    } else {
        let prev = spec_interface_members_upto(p, j - 1);
        let c = p.children[j - 1];
        if !c.named || c.kind == "comment"@ {
            prev
        } else {
            match (prev, spec_parse_signature_member(c)) {
                (Some(a), Some(m)) => Some(a.push(m)),
                _ => None,
            }
        }
    }
}

/// An interface; the interfaces it extends are not read.
pub open spec fn spec_parse_interface(n: NodeModel) -> Option<InterfaceModel> {
    if has_field(n, "body"@) {
        let b = n.children[field_index(n, "body"@)];
        match (
            field_text(n, "name"@),
            spec_generics_of(n),
            spec_interface_members_upto(b, b.children.len() as int),
        ) {
            (Some(name), Some(g), Some(body)) => Some(
                InterfaceModel { name, generics: g, extends: seq![], body },
            ),
            _ => None,
        }
    } else {
        None
    }
}

pub open spec fn spec_parse_type_alias(n: NodeModel) -> Option<TypeAliasModel> {
    if has_field(n, "value"@) {
        match (
            field_text(n, "name"@),
            spec_generics_of(n),
            spec_parse_type(n.children[field_index(n, "value"@)]),
        ) {
            (Some(alias), Some(g), Some(v)) => Some(
                TypeAliasModel { alias, generics: g, value: v },
            ),
            _ => None,
        }
    } else {
        None
    }
}

/// One enum member; `Some(None)` for a comment.
pub open spec fn spec_parse_enum_item(c: NodeModel) -> Option<Option<EnumItemModel>> {
    if c.kind == "enum_assignment"@ {
        if has_field(c, "value"@) {
            match (field_text(c, "name"@), field_text(c, "value"@)) {
                (Some(name), Some(v)) => Some(Some(EnumItemModel { name, value: Some(v) })),
                _ => None,
            }
        } else {
            None
        }
    } else if c.kind == "property_identifier"@ {
        match c.text {
            Some(t) => Some(Some(EnumItemModel { name: t, value: None })),
            None => None,
        }
    } else if c.kind == "comment"@ {
        Some(None)
    } else {
        None
    }
}

/// The kinds an enum body child may have: an item with a value, a bare item
/// name, or a comment.
pub open spec fn is_enum_member_kind(k: Seq<char>) -> bool {
    k == "enum_assignment"@ || k == "property_identifier"@ || k == "comment"@
}

pub open spec fn spec_enum_items_upto(p: NodeModel, j: int) -> Option<Seq<EnumItemModel>>
    decreases j,
{
    if j <= 0 || j > p.children.len() {
        Some(seq![])
    } else {
        let prev = spec_enum_items_upto(p, j - 1);
        if !p.children[j - 1].named {
            prev
        } else {
            match (prev, spec_parse_enum_item(p.children[j - 1])) {
                (Some(a), Some(Some(m))) => Some(a.push(m)),
                (Some(a), Some(None)) => Some(a),
                _ => None,
            }
        }
    }
}

pub open spec fn spec_parse_enum(n: NodeModel) -> Option<EnumModel> {
    if has_field(n, "body"@) {
        let b = n.children[field_index(n, "body"@)];
        match (field_text(n, "name"@), spec_enum_items_upto(b, b.children.len() as int)) {
            (Some(name), Some(items)) => Some(EnumModel { name, items }),
            _ => None,
        }
    } else {
        None
    }
}

// ---------------------------------------------------------------------------
// Classes
// ---------------------------------------------------------------------------

/// What the words before a member's name say.
#[derive(Clone, Copy, PartialEq, Eq, Structural)]
pub struct ModifierScan {
    pub access: ArtelAccessModifier,
    pub is_static: bool,
    pub is_abstract: bool,
    pub is_readonly: bool,
    pub is_async: bool,
    pub accessor: GetterSetter,
}

pub open spec fn no_modifiers() -> ModifierScan {
    ModifierScan {
        access: ArtelAccessModifier::Default,
        is_static: false,
        is_abstract: false,
        is_readonly: false,
        is_async: false,
        accessor: GetterSetter::NoAccessor,
    }
}

/// One word before a field's (`for_method` false) or a method's name.
pub open spec fn scan_step(m: ModifierScan, c: NodeModel, for_method: bool) -> Option<ModifierScan> {
    if c.kind == "accessibility_modifier"@ {
        match c.text {
            Some(t) => match access_modifier_of(t) {
                Some(a) => Some(ModifierScan { access: a, ..m }),
                None => None,
            },
            None => None,
        }
    } else if c.kind == "static"@ {
        Some(ModifierScan { is_static: true, ..m })
    } else if c.kind == "abstract"@ {
        Some(ModifierScan { is_abstract: true, ..m })
    } else if !for_method && c.kind == "readonly"@ {
        Some(ModifierScan { is_readonly: true, ..m })
    } else if for_method && c.kind == "async"@ {
        Some(ModifierScan { is_async: true, ..m })
    } else if for_method && c.kind == "get"@ {
        Some(ModifierScan { accessor: GetterSetter::Getter, ..m })
    } else if for_method && c.kind == "set"@ {
        Some(ModifierScan { accessor: GetterSetter::Setter, ..m })
    } else if for_method && c.kind == "*"@ {
        Some(m)
    } else {
        None
    }
}

/// The words among the first `j` children.
pub open spec fn spec_scan_modifiers(cs: Seq<NodeModel>, j: int, for_method: bool) -> Option<
    ModifierScan,
>
    decreases j,
{
    if j <= 0 || j > cs.len() {
        Some(no_modifiers())
    } else {
        match spec_scan_modifiers(cs, j - 1, for_method) {
            Some(m) => scan_step(m, cs[j - 1], for_method),
            None => None,
        }
    }
}

/// `abstract` wins over `static`.
pub open spec fn member_modifiers(m: ModifierScan) -> ClassMemberModifiers {
    ClassMemberModifiers {
        access_modifier: m.access,
        modifier: if m.is_abstract {
            ArtelModifier::Abstract
        } else if m.is_static {
            ArtelModifier::Static
        } else {
            ArtelModifier::NoModifier
        },
    }
}

/// A field: the words before its name, its name, `?` after the name making
/// it optional, and its type (or `no_type`).
pub open spec fn spec_parse_field_definition(d: NodeModel) -> Option<ClassMemberModel> {
    if has_field(d, "name"@) {
        let k = field_index(d, "name"@);
        let optional = k + 1 < d.children.len() && d.children[k + 1].kind == "?"@;
        let ty = if has_field(d, "type"@) {
            spec_parse_type(d.children[field_index(d, "type"@)])
        } else {
            Some(no_type())
        };
        match (spec_scan_modifiers(d.children, k, false), d.children[k].text, ty) {
            (Some(m), Some(name), Some(t)) => Some(
                ClassMemberModel::Property(
                    member_modifiers(m),
                    PropertyModel {
                        readonly: m.is_readonly,
                        name,
                        ty: if optional {
                            with_undefined(t)
                        } else {
                            t
                        },
                    },
                ),
            ),
            _ => None,
        }
    } else {
        None
    }
}

/// A method, getter or setter of a class.
pub open spec fn spec_parse_method_definition(d: NodeModel) -> Option<ClassMemberModel> {
    if has_field(d, "name"@) {
        let k = field_index(d, "name"@);
        match (
            spec_scan_modifiers(d.children, k, true),
            d.children[k].text,
            spec_parameters_of(d),
            spec_generics_of(d),
            spec_optional_type(d, "return_type"@),
        ) {
            (Some(m), Some(name), Some(a), Some(g), Some(r)) => Some(
                ClassMemberModel::Method(
                    member_modifiers(m),
                    m.accessor,
                    FunctionModel { is_async: m.is_async, name, generics: g, args: a, ret: r },
                ),
            ),
            _ => None,
        }
    } else {
        None
    }
}

/// One member of a class body; `Some(None)` for comments and decorators.
pub open spec fn spec_parse_class_member(c: NodeModel) -> Option<Option<ClassMemberModel>> {
    if c.kind == "public_field_definition"@ {
        match spec_parse_field_definition(c) {
            Some(m) => Some(Some(m)),
            None => None,
        }
    } else if c.kind == "method_definition"@ || c.kind == "abstract_method_signature"@ || c.kind
        == "method_signature"@ {
        match spec_parse_method_definition(c) {
            Some(m) => Some(Some(m)),
            None => None,
        }
    } else if c.kind == "comment"@ || c.kind == "decorator"@ {
        Some(None)
    } else {
        None
    }
}

pub open spec fn spec_class_members_upto(p: NodeModel, j: int) -> Option<Seq<ClassMemberModel>>
    decreases j,
{
    if j <= 0 || j > p.children.len() {
        Some(seq![])
    } else {
        let prev = spec_class_members_upto(p, j - 1);
        if !p.children[j - 1].named {
            prev
        } else {
            match (prev, spec_parse_class_member(p.children[j - 1])) {
                (Some(a), Some(Some(m))) => Some(a.push(m)),
                (Some(a), Some(None)) => Some(a),
                _ => None,
            }
        }
    }
}

/// The types of an `implements` clause.
pub open spec fn spec_implemented_upto(p: NodeModel, j: int) -> Option<Seq<TypeModel>>
    decreases j,
{
    if j <= 0 || j > p.children.len() {
        Some(seq![])
    } else {
        let prev = spec_implemented_upto(p, j - 1);
        if !p.children[j - 1].named {
            prev
        } else {
            match (prev, spec_parse_type(p.children[j - 1])) {
                (Some(a), Some(t)) => Some(a.push(t)),
                _ => None,
            }
        }
    }
}

/// What a class extends and implements, from the clauses among the first `j`
/// children of its heritage; the extended class is given the class's own type
/// parameters `g`, and of several `extends` clauses the last counts.
pub open spec fn spec_heritage_upto(p: NodeModel, j: int, g: Seq<TypeParamModel>) -> Option<
    (Option<(Seq<char>, Seq<TypeParamModel>)>, Seq<TypeModel>),
>
    decreases j,
{
    if j <= 0 || j > p.children.len() {
        Some((None, seq![]))
    } else {
        let prev = spec_heritage_upto(p, j - 1, g);
        let c = p.children[j - 1];
        match prev {
            Some((ext, imps)) => if !c.named {
                prev
            } else if c.kind == "extends_clause"@ {
                match field_text(c, "value"@) {
                    Some(v) => Some((Some((v, g)), imps)),
                    None => None,
                }
            } else if c.kind == "implements_clause"@ {
                match spec_implemented_upto(c, c.children.len() as int) {
                    Some(ts) => Some((ext, imps + ts)),
                    None => None,
                }
            } else {
                prev
            },
            None => None,
        }
    }
}

/// The node after the class name, or after the type parameters when there are some.
pub open spec fn heritage_position(n: NodeModel, g: Seq<TypeParamModel>) -> int {
    if g.len() == 0 {
        field_index(n, "name"@) + 1
    } else {
        field_index(n, "type_parameters"@) + 1
    }
}

pub open spec fn spec_parse_class(n: NodeModel, is_abstract: bool) -> Option<ClassModel> {
    match spec_generics_of(n) {
        Some(g) => {
            let h = heritage_position(n, g);
            if has_field(n, "name"@) && has_field(n, "body"@) && 0 < h < n.children.len() {
                let next = n.children[h];
                let heritage = if next.kind == "class_heritage"@ {
                    spec_heritage_upto(next, next.children.len() as int, g)
                } else {
                    Some((None, seq![]))
                };
                let b = n.children[field_index(n, "body"@)];
                match (
                    field_text(n, "name"@),
                    heritage,
                    spec_class_members_upto(b, b.children.len() as int),
                ) {
                    (Some(name), Some((extends, implements)), Some(body)) => Some(
                        ClassModel { name, extends, implements, is_abstract, generics: g, body },
                    ),
                    _ => None,
                }
            } else {
                None
            }
        },
        None => None,
    }
}

// ---------------------------------------------------------------------------
// Statements
// ---------------------------------------------------------------------------

/// The position of the first of `cs[0..j]` that is neither `declare` nor `global`, or -1.
pub open spec fn declare_end_upto(cs: Seq<NodeModel>, j: int) -> int
    decreases j,
{
    if j <= 0 || j > cs.len() {
        -1
    } else {
        let k = declare_end_upto(cs, j - 1);
        if k >= 0 {
            k
        } else if cs[j - 1].kind != "declare"@ && cs[j - 1].kind != "global"@ {
            j - 1
        } else {
            -1
        }
    }
}

/// Whether a `global` comes before position `k`.
pub open spec fn global_before(cs: Seq<NodeModel>, k: int) -> bool {
    exists|i: int| 0 <= i < k && #[trigger] cs[i].kind == "global"@
}

/// The declaration a `declare` wraps, as a list of statements.
pub open spec fn spec_ambient_body(c: NodeModel) -> Option<Seq<StatementModel>>
    decreases c, c.children.len() + 1,
{
    if c.kind == "variable_declaration"@ || c.kind == "lexical_declaration"@ {
        match spec_parse_lexical(c) {
            Some(d) => Some(seq![StatementModel::Lexical(d)]),
            None => None,
        }
    } else if c.kind == "function_signature"@ {
        match spec_parse_function(c) {
            Some(f) => Some(seq![StatementModel::Function(f)]),
            None => None,
        }
    } else if c.kind == "type_alias_declaration"@ {
        match spec_parse_type_alias(c) {
            Some(t) => Some(seq![StatementModel::TypeAlias(t)]),
            None => None,
        }
    } else if c.kind == "class_declaration"@ {
        match spec_parse_class(c, false) {
            Some(d) => Some(seq![StatementModel::Class(d)]),
            None => None,
        }
    } else if c.kind == "statement_block"@ {
        spec_statements_upto(c, c.children.len() as int)
    } else {
        None
    }
}

/// `declare ...`: the words `declare` and `global` first, then one declaration;
/// a `declare namespace` is read as a module, never global.
pub open spec fn spec_parse_ambient(n: NodeModel) -> Option<StatementModel>
    decreases n, n.children.len() + 2,
{
    let end = declare_end_upto(n.children, n.children.len() as int);
    if 0 <= end && has_named_child(n) {
        if n.children[first_named_index(n)].kind == "internal_module"@ {
            match spec_parse_internal_module(n.children[first_named_index(n)]) {
                Some(m) => Some(StatementModel::Ambient(AmbientModel { is_global: false, body: seq![m] })),
                None => None,
            }
        } else if named_child_count(n) == 1 {
            match spec_ambient_body(n.children[first_named_index(n)]) {
                Some(body) => Some(
                    StatementModel::Ambient(
                        AmbientModel { is_global: global_before(n.children, end), body },
                    ),
                ),
                None => None,
            }
        } else {
            None
        }
    } else {
        None
    }
}

/// `namespace Name { ... }`, read from the node that holds the fields `name` and `body`.
pub open spec fn spec_parse_internal_module(n: NodeModel) -> Option<StatementModel>
    decreases n, n.children.len() + 1,
{
    if has_field(n, "body"@) {
        match (
            field_text(n, "name"@),
            spec_statements_upto(
                n.children[field_index(n, "body"@)],
                n.children[field_index(n, "body"@)].children.len() as int,
            ),
        ) {
            (Some(name), Some(ss)) => Some(
                StatementModel::Module(ModuleModel { name, statements: ss }),
            ),
            _ => None,
        }
    } else {
        None
    }
}

/// The statements read from the named children among the first `j` children of `p`.
pub open spec fn spec_statements_upto(p: NodeModel, j: int) -> Option<Seq<StatementModel>>
    decreases p, j,
{
    if j <= 0 || j > p.children.len() {
        Some(seq![])
    } else {
        let prev = spec_statements_upto(p, j - 1);
        if !p.children[j - 1].named {
            prev
        } else {
            match (prev, spec_parse_statement(p.children[j - 1])) {
                (Some(a), Some(Some(s))) => Some(a.push(s)),
                (Some(a), Some(None)) => Some(a),
                _ => None,
            }
        }
    }
}

/// One statement; `Some(None)` for one that is left out.
pub open spec fn spec_parse_statement(n: NodeModel) -> Option<Option<StatementModel>>
    decreases n, n.children.len() + 3,
{
    let k = n.kind;
    if k == "ambient_declaration"@ {
        match spec_parse_ambient(n) {
            Some(s) => Some(Some(s)),
            None => None,
        }
    } else if k == "function_declaration"@ || k == "function_signature"@ {
        match spec_parse_function(n) {
            Some(f) => Some(Some(StatementModel::Function(f))),
            None => None,
        }
    } else if k == "class_declaration"@ || k == "abstract_class_declaration"@ {
        match spec_parse_class(n, k == "abstract_class_declaration"@) {
            Some(c) => Some(Some(StatementModel::Class(c))),
            None => None,
        }
    } else if k == "comment"@ {
        match n.text {
            Some(t) => Some(Some(StatementModel::Comment(t))),
            None => None,
        }
    } else if k == "enum_declaration"@ {
        match spec_parse_enum(n) {
            Some(e) => Some(Some(StatementModel::Enum(e))),
            None => None,
        }
    } else if k == "type_alias_declaration"@ {
        match spec_parse_type_alias(n) {
            Some(t) => Some(Some(StatementModel::TypeAlias(t))),
            None => None,
        }
    } else if k == "export_statement"@ {
        if has_field(n, "declaration"@) {
            match spec_parse_statement(n.children[field_index(n, "declaration"@)]) {
                Some(Some(s)) => Some(Some(StatementModel::Export(Box::new(s)))),
                _ => None,
            }
        } else {
            Some(None)
        }
    } else if k == "interface_declaration"@ {
        match spec_parse_interface(n) {
            Some(d) => Some(Some(StatementModel::Interface(d))),
            None => None,
        }
    } else if k == "lexical_declaration"@ || k == "variable_declaration"@ {
        match spec_parse_lexical(n) {
            Some(d) => Some(Some(StatementModel::Lexical(d))),
            None => None,
        }
    } else if k == "statement_block"@ {
        match spec_statements_upto(n, n.children.len() as int) {
            Some(ss) => Some(Some(StatementModel::Block(ss))),
            None => None,
        }
    } else if k == "import_statement"@ || k == "if_statement"@ {
        Some(None)
    } else if k == "expression_statement"@ {
        if n.children.len() == 0 {
            None
        } else if n.children[0].kind == "internal_module"@ {
            match spec_parse_internal_module(n) {
                Some(s) => Some(Some(s)),
                None => None,
            }
        } else {
            Some(None)
        }
    } else {
        None
    }
}

/// The program held by the root of a syntax tree: its named children read as
/// statements, the ones left out dropped.
pub open spec fn spec_walk_tree(root: NodeModel) -> Option<Seq<StatementModel>> {
    spec_statements_upto(root, root.children.len() as int)
}


// ---------------------------------------------------------------------------
// Laws
// ---------------------------------------------------------------------------

/// `n` with its child at position `i` taken out.
pub open spec fn without_child(n: NodeModel, i: int) -> NodeModel {
    NodeModel { children: n.children.remove(i), ..n }
}

/// Once `readonly` has come among the words before a field's name, the words
/// after it keep the field readonly.
proof fn lemma_scan_keeps_readonly(cs: Seq<NodeModel>, j: int, k: int)
    requires
        0 <= j < k <= cs.len(),
        cs[j].kind == "readonly"@,
        spec_scan_modifiers(cs, k, false) is Some,
    ensures
        spec_scan_modifiers(cs, k, false).unwrap().is_readonly,
    decreases k - j,
{
    if k > j + 1 {
        lemma_scan_keeps_readonly(cs, j, k - 1);
    } else {
        reveal_strlit("readonly");
        reveal_strlit("accessibility_modifier");
        reveal_strlit("static");
        reveal_strlit("abstract");
        assert("readonly"@[0] != "accessibility_modifier"@[0]);
        assert("readonly"@[0] != "static"@[0]);
        assert("readonly"@[0] != "abstract"@[0]);
    }
}

/// A class field with `readonly` among the words before its name is read as a
/// readonly property, which renders with `защищено`.
pub proof fn law_readonly_field(c: NodeModel, j: int)
    requires
        c.kind == "public_field_definition"@,
        spec_parse_class_member(c) is Some,
        has_field(c, "name"@),
        0 <= j < field_index(c, "name"@),
        c.children[j].kind == "readonly"@,
    ensures
        spec_parse_class_member(c) matches Some(Some(ClassMemberModel::Property(_, p))) && p.readonly,
{
    lemma_scan_keeps_readonly(c.children, j, field_index(c, "name"@));
}

proof fn lemma_statements_without_child(p: NodeModel, i: int, j: int)
    requires
        0 <= i < p.children.len(),
        !p.children[i].named || spec_parse_statement(p.children[i]) == Some(None::<StatementModel>),
        0 <= j <= p.children.len(),
    ensures
        j <= i ==> spec_statements_upto(p, j) == spec_statements_upto(without_child(p, i), j),
        j > i ==> spec_statements_upto(p, j) == spec_statements_upto(without_child(p, i), j - 1),
    decreases j,
{
    let q = without_child(p, i);
    if j > 0 {
        lemma_statements_without_child(p, i, j - 1);
        if j <= i {
            assert(q.children[j - 1] == p.children[j - 1]);
        } else if j > i + 1 {
            assert(q.children[j - 2] == p.children[j - 1]);
        }
    }
}

/// Taking out of a node a child the reader leaves out (an anonymous token, an
/// import, an `if` statement, an `export` without a declaration) does not
/// change the statements read from it.
pub proof fn law_left_out_statements(p: NodeModel, i: int)
    requires
        0 <= i < p.children.len(),
        !p.children[i].named || spec_parse_statement(p.children[i]) == Some(None::<StatementModel>),
    ensures
        spec_walk_tree(p) == spec_walk_tree(without_child(p, i)),
{
    lemma_statements_without_child(p, i, p.children.len() as int);
}

proof fn lemma_no_type_ok()
    ensures
        type_ok(no_type()),
{
    assert(crate::ast_type::primary_ok(no_type().items[0]));
}

proof fn lemma_read_declarators(p: NodeModel, j: int)
    ensures
        spec_declarators_upto(p, j) matches Some(ms) ==> forall|i: int|
            0 <= i < ms.len() ==> type_ok(#[trigger] ms[i].var_type),
    decreases j,
{
    if j > 0 && j <= p.children.len() {
        lemma_read_declarators(p, j - 1);
        let c = p.children[j - 1];
        if has_field(c, "type"@) {
            law_read_types_render(c.children[field_index(c, "type"@)]);
        }
        lemma_no_type_ok();
    }
}

proof fn lemma_read_interface_members(p: NodeModel, j: int)
    ensures
        spec_interface_members_upto(p, j) matches Some(ms) ==> forall|i: int|
            0 <= i < ms.len() ==> member_ok(#[trigger] ms[i]),
    decreases j,
{
    if j > 0 && j <= p.children.len() {
        lemma_read_interface_members(p, j - 1);
        law_read_types_render(p.children[j - 1]);
    }
}

proof fn lemma_read_implemented(p: NodeModel, j: int)
    ensures
        spec_implemented_upto(p, j) matches Some(ts) ==> types_ok(ts),
    decreases j,
{
    if j > 0 && j <= p.children.len() {
        lemma_read_implemented(p, j - 1);
        law_read_types_render(p.children[j - 1]);
    }
}

proof fn lemma_read_heritage(p: NodeModel, j: int, g: Seq<TypeParamModel>)
    ensures
        spec_heritage_upto(p, j, g) matches Some((e, ts)) ==> types_ok(ts) && (e matches Some(
            (_, ps),
        ) ==> ps == g),
    decreases j,
{
    if j > 0 && j <= p.children.len() {
        lemma_read_heritage(p, j - 1, g);
        let c = p.children[j - 1];
        lemma_read_implemented(c, c.children.len() as int);
        if let (Some((_, a)), Some(b)) = (
            spec_heritage_upto(p, j - 1, g),
            spec_implemented_upto(c, c.children.len() as int),
        ) {
            assert forall|i: int| 0 <= i < (a + b).len() implies type_ok(#[trigger] (a + b)[i]) by {
                if i < a.len() {
                    assert((a + b)[i] == a[i]);
                } else {
                    assert((a + b)[i] == b[i - a.len()]);
                }
            }
        }
    }
}

proof fn lemma_read_class_member(c: NodeModel)
    ensures
        spec_parse_class_member(c) matches Some(Some(m)) ==> class_member_types_ok(m),
{
    if c.kind == "public_field_definition"@ {
        if has_field(c, "type"@) {
            law_read_types_render(c.children[field_index(c, "type"@)]);
        }
        lemma_no_type_ok();
        let t = if has_field(c, "type"@) {
            spec_parse_type(c.children[field_index(c, "type"@)])
        } else {
            Some(no_type())
        };
        if let Some(t) = t {
            lemma_with_undefined_ok(t);
        }
    } else {
        lemma_read_signature_parts(c, "return_type"@);
    }
}

proof fn lemma_read_class_members(p: NodeModel, j: int)
    ensures
        spec_class_members_upto(p, j) matches Some(ms) ==> forall|i: int|
            0 <= i < ms.len() ==> class_member_types_ok(#[trigger] ms[i]),
    decreases j,
{
    if j > 0 && j <= p.children.len() {
        lemma_read_class_members(p, j - 1);
        lemma_read_class_member(p.children[j - 1]);
    }
}

proof fn lemma_read_class(n: NodeModel, is_abstract: bool)
    ensures
        spec_parse_class(n, is_abstract) matches Some(c) ==> class_types_ok(c),
{
    lemma_read_signature_parts(n, "return_type"@);
    if let Some(g) = spec_generics_of(n) {
        let h = heritage_position(n, g);
        if has_field(n, "name"@) && has_field(n, "body"@) && 0 < h < n.children.len() {
            let next = n.children[h];
            let heritage = if next.kind == "class_heritage"@ {
                spec_heritage_upto(next, next.children.len() as int, g)
            } else {
                Some((None, seq![]))
            };
            lemma_read_heritage(next, next.children.len() as int, g);
            let b = n.children[field_index(n, "body"@)];
            lemma_read_class_members(b, b.children.len() as int);
            if let (Some((extends, implements)), Some(body)) = (
                heritage,
                spec_class_members_upto(b, b.children.len() as int),
            ) {
                assert(type_params_ok(g));
                assert(types_ok(implements));
                assert(extends matches Some((_, ps)) ==> ps == g);
                assert forall|i: int| 0 <= i < body.len() implies class_member_types_ok(
                    #[trigger] body[i],
                ) by {}
            }
        }
    }
}

proof fn lemma_read_lexical(n: NodeModel)
    ensures
        spec_parse_lexical(n) matches Some(d) ==> statement_types_ok(StatementModel::Lexical(d)),
{
    lemma_read_declarators(n, n.children.len() as int);
}

proof fn lemma_read_statement(n: NodeModel)
    ensures
        spec_parse_statement(n) matches Some(Some(s)) ==> statement_types_ok(s),
    decreases n, n.children.len() + 3,
{
    let k = n.kind;
    if k == "ambient_declaration"@ {
        lemma_read_ambient(n);
    } else if k == "function_declaration"@ || k == "function_signature"@ {
        law_read_types_render(n);
    } else if k == "class_declaration"@ || k == "abstract_class_declaration"@ {
        lemma_read_class(n, k == "abstract_class_declaration"@);
    } else if k == "type_alias_declaration"@ {
        lemma_read_signature_parts(n, "return_type"@);
        if has_field(n, "value"@) {
            law_read_types_render(n.children[field_index(n, "value"@)]);
        }
    } else if k == "export_statement"@ {
        if has_field(n, "declaration"@) {
            lemma_read_statement(n.children[field_index(n, "declaration"@)]);
        }
    } else if k == "interface_declaration"@ {
        lemma_read_signature_parts(n, "return_type"@);
        if has_field(n, "body"@) {
            let b = n.children[field_index(n, "body"@)];
            lemma_read_interface_members(b, b.children.len() as int);
        }
    } else if k == "lexical_declaration"@ || k == "variable_declaration"@ {
        lemma_read_lexical(n);
    } else if k == "statement_block"@ {
        lemma_read_statements(n, n.children.len() as int);
    } else if k == "expression_statement"@ {
        if n.children.len() > 0 && n.children[0].kind == "internal_module"@ {
            lemma_read_internal_module(n);
        }
    }
}

proof fn lemma_read_internal_module(n: NodeModel)
    ensures
        spec_parse_internal_module(n) matches Some(s) ==> statement_types_ok(s),
    decreases n, n.children.len() + 1,
{
    if has_field(n, "body"@) {
        lemma_read_statements(
            n.children[field_index(n, "body"@)],
            n.children[field_index(n, "body"@)].children.len() as int,
        );
    }
}

proof fn lemma_read_ambient_body(c: NodeModel)
    ensures
        spec_ambient_body(c) matches Some(ss) ==> statements_types_ok(ss),
    decreases c, c.children.len() + 1,
{
    if c.kind == "variable_declaration"@ || c.kind == "lexical_declaration"@ {
        lemma_read_lexical(c);
    } else if c.kind == "function_signature"@ {
        law_read_types_render(c);
    } else if c.kind == "type_alias_declaration"@ {
        lemma_read_signature_parts(c, "return_type"@);
        if has_field(c, "value"@) {
            law_read_types_render(c.children[field_index(c, "value"@)]);
        }
    } else if c.kind == "class_declaration"@ {
        lemma_read_class(c, false);
    } else if c.kind == "statement_block"@ {
        lemma_read_statements(c, c.children.len() as int);
    }
    if let Some(ss) = spec_ambient_body(c) {
        if ss.len() == 1 {
            assert(statement_types_ok(ss[0]));
        }
    }
}

proof fn lemma_read_ambient(n: NodeModel)
    ensures
        spec_parse_ambient(n) matches Some(s) ==> statement_types_ok(s),
    decreases n, n.children.len() + 2,
{
    let end = declare_end_upto(n.children, n.children.len() as int);
    if 0 <= end && has_named_child(n) {
        if n.children[first_named_index(n)].kind == "internal_module"@ {
            lemma_read_internal_module(n.children[first_named_index(n)]);
            if let Some(m) = spec_parse_internal_module(n.children[first_named_index(n)]) {
                assert(statements_types_ok(seq![m]));
            }
        } else if named_child_count(n) == 1 {
            lemma_read_ambient_body(n.children[first_named_index(n)]);
        }
    }
}

proof fn lemma_read_statements(p: NodeModel, j: int)
    ensures
        spec_statements_upto(p, j) matches Some(ss) ==> statements_types_ok(ss),
    decreases p, j,
{
    if j > 0 && j <= p.children.len() {
        lemma_read_statements(p, j - 1);
        if p.children[j - 1].named {
            lemma_read_statement(p.children[j - 1]);
        }
    }
}

/// A program read from a syntax tree can be rendered exactly when its shape
/// allows (no statement block, no `declare` holding nothing, no class accessor
/// without its type or given twice, no indentation past 100): its types never
/// stand in the way.
pub proof fn law_read_program_renders(root: NodeModel)
    ensures
        spec_walk_tree(root) matches Some(p) ==> (statements_ready(p, 0) <==> statements_shape_ok(
            p,
            0,
        )),
{
    lemma_read_statements(root, root.children.len() as int);
    if let Some(p) = spec_walk_tree(root) {
        lemma_statements_ready_by_shape(p, 0);
    }
}

// ---------------------------------------------------------------------------
// Failure carries over to longer prefixes
// ---------------------------------------------------------------------------

proof fn lemma_declarators_fail(p: NodeModel, j: int, k: int)
    requires
        0 <= j <= k <= p.children.len(),
        spec_declarators_upto(p, j) is None,
    ensures
        spec_declarators_upto(p, k) is None,
    decreases k - j,
{
    if k > j {
        lemma_declarators_fail(p, j, k - 1);
    }
}

proof fn lemma_interface_members_fail(p: NodeModel, j: int, k: int)
    requires
        0 <= j <= k <= p.children.len(),
        spec_interface_members_upto(p, j) is None,
    ensures
        spec_interface_members_upto(p, k) is None,
    decreases k - j,
{
    if k > j {
        lemma_interface_members_fail(p, j, k - 1);
    }
}

proof fn lemma_enum_items_fail(p: NodeModel, j: int, k: int)
    requires
        0 <= j <= k <= p.children.len(),
        spec_enum_items_upto(p, j) is None,
    ensures
        spec_enum_items_upto(p, k) is None,
    decreases k - j,
{
    if k > j {
        lemma_enum_items_fail(p, j, k - 1);
    }
}

proof fn lemma_scan_fails(cs: Seq<NodeModel>, j: int, k: int, for_method: bool)
    requires
        0 <= j <= k <= cs.len(),
        spec_scan_modifiers(cs, j, for_method) is None,
    ensures
        spec_scan_modifiers(cs, k, for_method) is None,
    decreases k - j,
{
    if k > j {
        lemma_scan_fails(cs, j, k - 1, for_method);
    }
}

proof fn lemma_class_members_fail(p: NodeModel, j: int, k: int)
    requires
        0 <= j <= k <= p.children.len(),
        spec_class_members_upto(p, j) is None,
    ensures
        spec_class_members_upto(p, k) is None,
    decreases k - j,
{
    if k > j {
        lemma_class_members_fail(p, j, k - 1);
    }
}

proof fn lemma_implemented_fail(p: NodeModel, j: int, k: int)
    requires
        0 <= j <= k <= p.children.len(),
        spec_implemented_upto(p, j) is None,
    ensures
        spec_implemented_upto(p, k) is None,
    decreases k - j,
{
    if k > j {
        lemma_implemented_fail(p, j, k - 1);
    }
}

proof fn lemma_heritage_fail(p: NodeModel, j: int, k: int, g: Seq<TypeParamModel>)
    requires
        0 <= j <= k <= p.children.len(),
        spec_heritage_upto(p, j, g) is None,
    ensures
        spec_heritage_upto(p, k, g) is None,
    decreases k - j,
{
    if k > j {
        lemma_heritage_fail(p, j, k - 1, g);
    }
}

proof fn lemma_statements_fail(p: NodeModel, j: int, k: int)
    requires
        0 <= j <= k <= p.children.len(),
        spec_statements_upto(p, j) is None,
    ensures
        spec_statements_upto(p, k) is None,
    decreases k - j,
{
    if k > j {
        lemma_statements_fail(p, j, k - 1);
    }
}

proof fn lemma_declare_end_stable(cs: Seq<NodeModel>, j: int, k: int)
    requires
        0 <= j <= k <= cs.len(),
        declare_end_upto(cs, j) >= 0,
    ensures
        declare_end_upto(cs, k) == declare_end_upto(cs, j),
    decreases k - j,
{
    if k > j {
        lemma_declare_end_stable(cs, j, k - 1);
    }
}

// ---------------------------------------------------------------------------
// Reading declarations
// ---------------------------------------------------------------------------

/// The source text of an expression.
pub fn parse_expression(node: &SyntaxNode) -> (r: Option<String>)
    ensures
        r is Some <==> node@.text is Some,
        r matches Some(t) ==> node@.text == Some(t@),
{
    node_text(node)
}

fn parse_declarator(c: &SyntaxNode) -> (r: Option<ArtelLexicalDeclarationMember>)
    ensures
        r is Some <==> spec_parse_declarator(c@) is Some,
        r matches Some(m) ==> spec_parse_declarator(c@) == Some(m@),
{
    if !c.is_kind("variable_declarator") {
        return None;
    }
    let ty = match c.field_position("type") {
        Some(k) => {
            assert(c@.children[k as int] == c.children@[k as int]@);
            parse_type(&c.children[k])
        },
        None => {
            let t = Type(vec![PrimaryType::UnsupportedAny(owned("no_type"))]);
            assert(t@.items =~= no_type().items);
            Some(t)
        },
    };
    let value = match c.field_position("value") {
        Some(k) => {
            assert(c@.children[k as int] == c.children@[k as int]@);
            match parse_expression(&c.children[k]) {
                Some(v) => Some(Some(v)),
                None => None,
            }
        },
        None => Some(None),
    };
    match (field_text_of(c, "name"), ty, value) {
        (Some(name), Some(t), Some(v)) => Some(ArtelLexicalDeclarationMember::new(Identifier(name), t, v)),
        _ => None,
    }
}

/// Reads a `let`, `const` or `var` declaration.
pub fn parse_lexical_declaration(node: &SyntaxNode) -> (r: Option<ArtelLexicalDeclaration>)
    ensures
        r is Some <==> spec_parse_lexical(node@) is Some,
        r matches Some(d) ==> spec_parse_lexical(node@) == Some(d@),
{
    let decl_type = match node.field_position("kind") {
        Some(k) => {
            assert(node@.children[k as int] == node.children@[k as int]@);
            decl_type_from(node.children[k].kind.as_str())
        },
        None => decl_type_from("var"),
    };
    let n = node.children.len();
    let mut body: Vec<ArtelLexicalDeclarationMember> = Vec::new();
    let mut j: usize = 0;
    while j < n
        invariant
            j <= n == node.children.len(),
            node@.children.len() == n,
            spec_declarators_upto(node@, j as int) == Some(
                body@.map_values(|m: ArtelLexicalDeclarationMember| m@),
            ),
        decreases n - j,
    {
        assert(node@.children[j as int] == node.children@[j as int]@);
        if node.children[j].named {
            match parse_declarator(&node.children[j]) {
                Some(m) => {
                    let ghost before = body@;
                    body.push(m);
                    assert(body@.map_values(|m: ArtelLexicalDeclarationMember| m@) =~= before.map_values(
                        |m: ArtelLexicalDeclarationMember| m@,
                    ).push(m@));
                },
                None => {
                    proof {
                        lemma_declarators_fail(node@, j + 1, n as int);
                    }
                    return None;
                },
            }
        }
        j = j + 1;
    }
    match decl_type {
        Some(t) => Some(ArtelLexicalDeclaration::new(t, body)),
        None => None,
    }
}

/// Reads an interface declaration.
#[verifier::rlimit(40)]
pub fn parse_interface(node: &SyntaxNode) -> (r: Option<ArtelInterfaceDeclaration>)
    ensures
        r is Some <==> spec_parse_interface(node@) is Some,
        r matches Some(d) ==> spec_parse_interface(node@) == Some(d@),
{
    let name = field_text_of(node, "name");
    let generics = generics_of(node);
    let bk = match node.field_position("body") {
        Some(k) => k,
        None => {
            return None;
        },
    };
    assert(node@.children[bk as int] == node.children@[bk as int]@);
    let b = &node.children[bk];
    let n = b.children.len();
    let mut members: Vec<InterfaceMember> = Vec::new();
    let mut j: usize = 0;
    while j < n
        invariant
            j <= n == b.children.len(),
            b@.children.len() == n,
            has_field(node@, "body"@),
            b@ == node@.children[field_index(node@, "body"@)],
            spec_interface_members_upto(b@, j as int) == Some(
                members@.map_values(|m: InterfaceMember| m@),
            ),
        decreases n - j,
    {
        assert(b@.children[j as int] == b.children@[j as int]@);
        let c = &b.children[j];
        if c.named && !c.is_kind("comment") {
            match parse_signature_member(c) {
                Some(m) => {
                    let ghost before = members@;
                    members.push(m);
                    assert(members@.map_values(|m: InterfaceMember| m@) =~= before.map_values(
                        |m: InterfaceMember| m@,
                    ).push(m@));
                },
                None => {
                    proof {
                        lemma_interface_members_fail(b@, j + 1, n as int);
                    }
                    return None;
                },
            }
        }
        j = j + 1;
    }
    match (name, generics) {
        (Some(nm), Some(g)) => {
            let extends: Vec<crate::ast_type::TypeReference> = Vec::new();
            let d = ArtelInterfaceDeclaration::new(Identifier(nm), g, extends, members);
            assert(d@.extends =~= seq![]);
            Some(d)
        },
        _ => None,
    }
}

/// Reads a type alias declaration.
pub fn parse_type_alias_declaration(node: &SyntaxNode) -> (r: Option<ArtelTypeAliasDeclaration>)
    ensures
        r is Some <==> spec_parse_type_alias(node@) is Some,
        r matches Some(d) ==> spec_parse_type_alias(node@) == Some(d@),
{
    let name = field_text_of(node, "name");
    let generics = generics_of(node);
    let value = match node.field_position("value") {
        Some(k) => {
            assert(node@.children[k as int] == node.children@[k as int]@);
            parse_type(&node.children[k])
        },
        None => {
            return None;
        },
    };
    match (name, generics, value) {
        (Some(nm), Some(g), Some(v)) => Some(ArtelTypeAliasDeclaration::new(Identifier(nm), g, v)),
        _ => None,
    }
}

fn parse_enum_item(c: &SyntaxNode) -> (r: Option<Option<EnumItem>>)
    ensures
        r is Some <==> spec_parse_enum_item(c@) is Some,
        r matches Some(Some(it)) ==> spec_parse_enum_item(c@) == Some(Some(it@)),
        r matches Some(None) ==> spec_parse_enum_item(c@) == Some(None::<EnumItemModel>),
{
    if c.is_kind("enum_assignment") {
        if c.field_position("value").is_none() {
            return None;
        }
        match (field_text_of(c, "name"), field_text_of(c, "value")) {
            (Some(name), Some(v)) => Some(Some(EnumItem::new(Identifier(name), Some(v)))),
            _ => None,
        }
    } else if c.is_kind("property_identifier") {
        match node_text(c) {
            Some(t) => Some(Some(EnumItem::new(Identifier(t), None))),
            None => None,
        }
    } else if c.is_kind("comment") {
        Some(None)
    } else {
        None
    }
}

/// Reads an enum declaration. A named body child of a kind other than an
/// item or a comment makes the reading fail.
pub fn parse_enum_declaration(node: &SyntaxNode) -> (r: Option<EnumDeclaration>)
    ensures
        r is Some <==> spec_parse_enum(node@) is Some,
        r matches Some(e) ==> spec_parse_enum(node@) == Some(e@),
        has_field(node@, "body"@) && (exists|j: int|
            0 <= j < field_child(node@, "body"@).children.len() && (#[trigger] field_child(
                node@,
                "body"@,
            ).children[j]).named && !is_enum_member_kind(field_child(node@, "body"@).children[j].kind))
            ==> r is None,
{
    proof {
        if has_field(node@, "body"@) {
            let b = field_child(node@, "body"@);
            if exists|j: int|
                0 <= j < b.children.len() && (#[trigger] b.children[j]).named
                    && !is_enum_member_kind(b.children[j].kind) {
                let j = choose|j: int|
                    0 <= j < b.children.len() && (#[trigger] b.children[j]).named
                        && !is_enum_member_kind(b.children[j].kind);
                assert(spec_enum_items_upto(b, j + 1) is None);
                lemma_enum_items_fail(b, j + 1, b.children.len() as int);
            }
        }
    }
    let name = field_text_of(node, "name");
    let bk = match node.field_position("body") {
        Some(k) => k,
        None => {
            return None;
        },
    };
    assert(node@.children[bk as int] == node.children@[bk as int]@);
    let b = &node.children[bk];
    let n = b.children.len();
    let mut items: Vec<EnumItem> = Vec::new();
    let mut j: usize = 0;
    while j < n
        invariant
            j <= n == b.children.len(),
            b@.children.len() == n,
            has_field(node@, "body"@),
            b@ == node@.children[field_index(node@, "body"@)],
            spec_enum_items_upto(b@, j as int) == Some(items@.map_values(|it: EnumItem| it@)),
        decreases n - j,
    {
        assert(b@.children[j as int] == b.children@[j as int]@);
        if b.children[j].named {
            match parse_enum_item(&b.children[j]) {
                Some(Some(it)) => {
                    let ghost before = items@;
                    items.push(it);
                    assert(items@.map_values(|it: EnumItem| it@) =~= before.map_values(
                        |it: EnumItem| it@,
                    ).push(it@));
                },
                Some(None) => {},
                None => {
                    proof {
                        lemma_enum_items_fail(b@, j + 1, n as int);
                    }
                    return None;
                },
            }
        }
        j = j + 1;
    }
    match name {
        Some(nm) => Some(EnumDeclaration::new(Identifier(nm), items)),
        None => None,
    }
}

// ---------------------------------------------------------------------------
// Reading classes
// ---------------------------------------------------------------------------

/// Reads the words before a member's name, the first `k` children of `d`.
fn scan_modifiers(d: &SyntaxNode, k: usize, for_method: bool) -> (r: Option<ModifierScan>)
    requires
        k <= d.children.len(),
    ensures
        r == spec_scan_modifiers(d@.children, k as int, for_method),
{
    let mut m = ModifierScan {
        access: ArtelAccessModifier::Default,
        is_static: false,
        is_abstract: false,
        is_readonly: false,
        is_async: false,
        accessor: GetterSetter::NoAccessor,
    };
    let mut j: usize = 0;
    while j < k
        invariant
            j <= k <= d.children.len(),
            d@.children.len() == d.children.len(),
            spec_scan_modifiers(d@.children, j as int, for_method) == Some(m),
        decreases k - j,
    {
        assert(d@.children[j as int] == d.children@[j as int]@);
        let c = &d.children[j];
        if c.is_kind("accessibility_modifier") {
            let a = match node_text(c) {
                Some(t) => access_modifier_from(t.as_str()),
                None => None,
            };
            match a {
                Some(a) => {
                    m = ModifierScan { access: a, ..m };
                },
                None => {
                    proof {
                        lemma_scan_fails(d@.children, j + 1, k as int, for_method);
                    }
                    return None;
                },
            }
        } else if c.is_kind("static") {
            m = ModifierScan { is_static: true, ..m };
        } else if c.is_kind("abstract") {
            m = ModifierScan { is_abstract: true, ..m };
        } else if !for_method && c.is_kind("readonly") {
            m = ModifierScan { is_readonly: true, ..m };
        } else if for_method && c.is_kind("async") {
            m = ModifierScan { is_async: true, ..m };
        } else if for_method && c.is_kind("get") {
            m = ModifierScan { accessor: GetterSetter::Getter, ..m };
        } else if for_method && c.is_kind("set") {
            m = ModifierScan { accessor: GetterSetter::Setter, ..m };
        } else if for_method && c.is_kind("*") {
        } else {
            proof {
                lemma_scan_fails(d@.children, j + 1, k as int, for_method);
            }
            return None;
        }
        j = j + 1;
    }
    Some(m)
}

fn modifiers_of(m: ModifierScan) -> (r: ClassMemberModifiers)
    ensures
        r == member_modifiers(m),
{
    ClassMemberModifiers::new(
        m.access,
        if m.is_abstract {
            ArtelModifier::Abstract
        } else if m.is_static {
            ArtelModifier::Static
        } else {
            ArtelModifier::NoModifier
        },
    )
}

/// Reads a field of a class.
fn parse_field_definition(d: &SyntaxNode) -> (r: Option<ArtelClassMember>)
    ensures
        r is Some <==> spec_parse_field_definition(d@) is Some,
        r matches Some(m) ==> spec_parse_field_definition(d@) == Some(m@),
{
    let k = match d.field_position("name") {
        Some(k) => k,
        None => {
            return None;
        },
    };
    let scan = scan_modifiers(d, k, false);
    let optional = k + 1 < d.children.len() && d.children[k + 1].is_kind("?");
    assert(d@.children[k as int] == d.children@[k as int]@);
    assert(k + 1 < d.children.len() ==> d@.children[k + 1] == d.children@[k + 1]@);
    let name = node_text(&d.children[k]);
    let ty = match d.field_position("type") {
        Some(t) => {
            assert(d@.children[t as int] == d.children@[t as int]@);
            parse_type(&d.children[t])
        },
        None => {
            let t = Type(vec![PrimaryType::UnsupportedAny(owned("no_type"))]);
            assert(t@.items =~= no_type().items);
            Some(t)
        },
    };
    match (scan, name, ty) {
        (Some(m), Some(nm), Some(t)) => {
            let mut property_type = t;
            if optional {
                let ghost before = property_type@;
                property_type.0.push(PrimaryType::LiteralType(LiteralType::Undefined));
                assert(property_type@.items =~= with_undefined(before).items);
            }
            let prop = ArtelProperty::new(m.is_readonly, Identifier(nm), property_type);
            Some(ArtelClassMember::Property((modifiers_of(m), prop)))
        },
        _ => None,
    }
}

/// Reads a method, getter or setter of a class.
pub fn parse_method_definition(d: &SyntaxNode) -> (r: Option<ArtelClassMember>)
    ensures
        r is Some <==> spec_parse_method_definition(d@) is Some,
        r matches Some(m) ==> spec_parse_method_definition(d@) == Some(m@),
{
    let k = match d.field_position("name") {
        Some(k) => k,
        None => {
            return None;
        },
    };
    let scan = scan_modifiers(d, k, true);
    assert(d@.children[k as int] == d.children@[k as int]@);
    let name = node_text(&d.children[k]);
    let args = match d.field_position("parameters") {
        Some(p) => {
            assert(d@.children[p as int] == d.children@[p as int]@);
            parse_formal_arguments(&d.children[p])
        },
        None => None,
    };
    let generics = generics_of(d);
    let ret = optional_type(d, "return_type");
    match (scan, name, args, generics, ret) {
        (Some(m), Some(nm), Some(a), Some(g), Some(r)) => Some(
            ArtelClassMember::Method(
                (
                    modifiers_of(m),
                    m.accessor,
                    FunctionDeclaration::new(m.is_async, Identifier(nm), g, a, r),
                ),
            ),
        ),
        _ => None,
    }
}

fn parse_class_member(c: &SyntaxNode) -> (r: Option<Option<ArtelClassMember>>)
    ensures
        r is Some <==> spec_parse_class_member(c@) is Some,
        r matches Some(Some(m)) ==> spec_parse_class_member(c@) == Some(Some(m@)),
        r matches Some(None) ==> spec_parse_class_member(c@) == Some(None::<ClassMemberModel>),
{
    if c.is_kind("public_field_definition") {
        match parse_field_definition(c) {
            Some(m) => Some(Some(m)),
            None => None,
        }
    } else if c.is_kind("method_definition") || c.is_kind("abstract_method_signature") || c.is_kind(
        "method_signature",
    ) {
        match parse_method_definition(c) {
            Some(m) => Some(Some(m)),
            None => None,
        }
    } else if c.is_kind("comment") || c.is_kind("decorator") {
        Some(None)
    } else {
        None
    }
}

fn parse_implemented(clause: &SyntaxNode) -> (r: Option<Vec<Type>>)
    ensures
        r is Some <==> spec_implemented_upto(clause@, clause@.children.len() as int) is Some,
        r matches Some(v) ==> spec_implemented_upto(clause@, clause@.children.len() as int) == Some(
            crate::ast_type::types_model(v),
        ),
{
    let n = clause.children.len();
    let mut out: Vec<Type> = Vec::new();
    let mut j: usize = 0;
    while j < n
        invariant
            j <= n == clause.children.len(),
            clause@.children.len() == n,
            spec_implemented_upto(clause@, j as int) == Some(crate::ast_type::types_model(out)),
        decreases n - j,
    {
        assert(clause@.children[j as int] == clause.children@[j as int]@);
        if clause.children[j].named {
            match parse_type(&clause.children[j]) {
                Some(t) => {
                    let ghost before = out;
                    out.push(t);
                    assert(crate::ast_type::types_model(out) =~= crate::ast_type::types_model(
                        before,
                    ).push(t@));
                },
                None => {
                    proof {
                        lemma_implemented_fail(clause@, j + 1, n as int);
                    }
                    return None;
                },
            }
        }
        j = j + 1;
    }
    Some(out)
}

/// The model of what a class extends.
pub open spec fn extends_model(e: Option<(Identifier, Vec<crate::ast_type::TypeParameter>)>) -> Option<
    (Seq<char>, Seq<TypeParamModel>),
> {
    match e {
        Some((id, ps)) => Some((id@, crate::ast_type::type_params_model(ps))),
        None => None,
    }
}

/// Reads the heritage `next` of the class `class`.
fn parse_heritage(class: &SyntaxNode, next: &SyntaxNode) -> (r: Option<
    (Option<(Identifier, Vec<crate::ast_type::TypeParameter>)>, Vec<Type>),
>)
    requires
        spec_generics_of(class@) is Some,
    ensures
        r is Some <==> spec_heritage_upto(
            next@,
            next@.children.len() as int,
            spec_generics_of(class@).unwrap(),
        ) is Some,
        r matches Some((e, imps)) ==> spec_heritage_upto(
            next@,
            next@.children.len() as int,
            spec_generics_of(class@).unwrap(),
        ) == Some((extends_model(e), crate::ast_type::types_model(imps))),
{
    let ghost g = spec_generics_of(class@).unwrap();
    let n = next.children.len();
    let mut ext: Option<(Identifier, Vec<crate::ast_type::TypeParameter>)> = None;
    let mut imps: Vec<Type> = Vec::new();
    let mut j: usize = 0;
    while j < n
        invariant
            j <= n == next.children.len(),
            next@.children.len() == n,
            spec_generics_of(class@) == Some(g),
            spec_heritage_upto(next@, j as int, g) == Some(
                (extends_model(ext), crate::ast_type::types_model(imps)),
            ),
        decreases n - j,
    {
        assert(next@.children[j as int] == next.children@[j as int]@);
        let c = &next.children[j];
        if c.named {
            if c.is_kind("extends_clause") {
                match field_text_of(c, "value") {
                    Some(v) => {
                        match generics_of(class) {
                            Some(ps) => {
                                ext = Some((Identifier(v), ps));
                            },
                            None => {
                                return None;
                            },
                        }
                    },
                    None => {
                        proof {
                            lemma_heritage_fail(next@, j + 1, n as int, g);
                        }
                        return None;
                    },
                }
            } else if c.is_kind("implements_clause") {
                match parse_implemented(c) {
                    Some(ts) => {
                        let ghost before = imps;
                        let mut more = ts;
                        imps.append(&mut more);
                        assert(crate::ast_type::types_model(imps) =~= crate::ast_type::types_model(
                            before,
                        ) + crate::ast_type::types_model(ts));
                    },
                    None => {
                        proof {
                            lemma_heritage_fail(next@, j + 1, n as int, g);
                        }
                        return None;
                    },
                }
            }
        }
        j = j + 1;
    }
    Some((ext, imps))
}

/// Reads a class declaration.
#[verifier::rlimit(40)]
pub fn parse_class_declaration(node: &SyntaxNode, is_abstract: bool) -> (r: Option<ArtelClassDeclaration>)
    ensures
        r is Some <==> spec_parse_class(node@, is_abstract) is Some,
        r matches Some(c) ==> spec_parse_class(node@, is_abstract) == Some(c@),
{
    let g = match generics_of(node) {
        Some(g) => g,
        None => {
            return None;
        },
    };
    let nk = match node.field_position("name") {
        Some(k) => k,
        None => {
            return None;
        },
    };
    let h = if g.len() == 0 {
        nk + 1
    } else {
        match node.field_position("type_parameters") {
            Some(t) => t + 1,
            None => {
                return None;
            },
        }
    };
    if h >= node.children.len() {
        return None;
    }
    assert(node@.children[h as int] == node.children@[h as int]@);
    let next = &node.children[h];
    let heritage = if next.is_kind("class_heritage") {
        parse_heritage(node, next)
    } else {
        let none: Vec<Type> = Vec::new();
        assert(crate::ast_type::types_model(none) =~= seq![]);
        Some((None, none))
    };
    let bk = match node.field_position("body") {
        Some(k) => k,
        None => {
            return None;
        },
    };
    assert(node@.children[bk as int] == node.children@[bk as int]@);
    let b = &node.children[bk];
    let n = b.children.len();
    let mut members: Vec<ArtelClassMember> = Vec::new();
    let mut j: usize = 0;
    while j < n
        invariant
            j <= n == b.children.len(),
            b@.children.len() == n,
            has_field(node@, "body"@),
            b@ == node@.children[field_index(node@, "body"@)],
            spec_class_members_upto(b@, j as int) == Some(
                members@.map_values(|m: ArtelClassMember| m@),
            ),
        decreases n - j,
    {
        assert(b@.children[j as int] == b.children@[j as int]@);
        if b.children[j].named {
            match parse_class_member(&b.children[j]) {
                Some(Some(m)) => {
                    let ghost before = members@;
                    members.push(m);
                    assert(members@.map_values(|m: ArtelClassMember| m@) =~= before.map_values(
                        |m: ArtelClassMember| m@,
                    ).push(m@));
                },
                Some(None) => {},
                None => {
                    proof {
                        lemma_class_members_fail(b@, j + 1, n as int);
                    }
                    return None;
                },
            }
        }
        j = j + 1;
    }
    match (field_text_of(node, "name"), heritage) {
        (Some(nm), Some((extends, implements))) => Some(
            ArtelClassDeclaration::new(Identifier(nm), extends, implements, is_abstract, g, members),
        ),
        _ => None,
    }
}


// ---------------------------------------------------------------------------
// Reading statements
// ---------------------------------------------------------------------------

/// Where the words `declare` and `global` before an ambient declaration end,
/// and whether `global` is among them.
fn declare_prefix(node: &SyntaxNode) -> (r: Option<(usize, bool)>)
    ensures
        r is Some <==> declare_end_upto(node@.children, node@.children.len() as int) >= 0,
        r matches Some((e, g)) ==> e == declare_end_upto(
            node@.children,
            node@.children.len() as int,
        ) && g == global_before(node@.children, e as int),
{
    let ghost cs = node@.children;
    let n = node.children.len();
    let mut is_global = false;
    let mut j: usize = 0;
    while j < n
        invariant
            j <= n == node.children.len(),
            cs == node@.children,
            cs.len() == n,
            declare_end_upto(cs, j as int) == -1,
            is_global == global_before(cs, j as int),
        decreases n - j,
    {
        assert(cs[j as int] == node.children@[j as int]@);
        let c = &node.children[j];
        if !c.is_kind("declare") && !c.is_kind("global") {
            proof {
                lemma_declare_end_stable(cs, j + 1, n as int);
            }
            return Some((j, is_global));
        }
        if c.is_kind("global") {
            is_global = true;
            assert(cs[j as int].kind == "global"@);
        }
        assert(is_global == global_before(cs, j + 1)) by {
            if global_before(cs, j + 1) && !global_before(cs, j as int) {
                assert(cs[j as int].kind == "global"@);
            }
        }
        j = j + 1;
    }
    None
}

/// The declaration a `declare` wraps, as a list of statements.
fn ambient_body(c: &SyntaxNode) -> (r: Option<Vec<ArtelStatement>>)
    ensures
        r is Some <==> spec_ambient_body(c@) is Some,
        r matches Some(v) ==> spec_ambient_body(c@) == Some(statements_model(v)),
    decreases c, 1nat,
{
    if c.is_kind("variable_declaration") || c.is_kind("lexical_declaration") {
        match parse_lexical_declaration(c) {
            Some(d) => {
                let v = vec![ArtelStatement::LexicalDeclaration(d)];
                assert(statements_model(v) =~= seq![StatementModel::Lexical(d@)]);
                Some(v)
            },
            None => None,
        }
    } else if c.is_kind("function_signature") {
        match parse_function_declaration(c) {
            Some(f) => {
                let v = vec![ArtelStatement::FunctionDeclaration(f)];
                assert(statements_model(v) =~= seq![StatementModel::Function(f@)]);
                Some(v)
            },
            None => None,
        }
    } else if c.is_kind("type_alias_declaration") {
        match parse_type_alias_declaration(c) {
            Some(t) => {
                let v = vec![ArtelStatement::TypeAliasDeclaration(t)];
                assert(statements_model(v) =~= seq![StatementModel::TypeAlias(t@)]);
                Some(v)
            },
            None => None,
        }
    } else if c.is_kind("class_declaration") {
        match parse_class_declaration(c, false) {
            Some(d) => {
                let v = vec![ArtelStatement::ClassDeclaration(d)];
                assert(statements_model(v) =~= seq![StatementModel::Class(d@)]);
                Some(v)
            },
            None => None,
        }
    } else if c.is_kind("statement_block") {
        parse_statement_block(c)
    } else {
        None
    }
}

/// Reads an ambient (`declare`) declaration.
fn parse_ambient_declaration(node: &SyntaxNode) -> (r: Option<ArtelStatement>)
    ensures
        r is Some <==> spec_parse_ambient(node@) is Some,
        r matches Some(s) ==> spec_parse_ambient(node@) == Some(s@),
    decreases node, 2nat,
{
    let (_end, is_global) = match declare_prefix(node) {
        Some(p) => p,
        None => {
            return None;
        },
    };
    let fk = match node.first_named_position() {
        Some(k) => k,
        None => {
            return None;
        },
    };
    proof {
        assert(decreases_to!(node => node.children@[fk as int]));
        assert(node@.children[fk as int] == node.children@[fk as int]@);
    }
    let first = &node.children[fk];
    if first.is_kind("internal_module") {
        match parse_internal_module(first) {
            Some(m) => {
                let body = vec![m];
                assert(statements_model(body) =~= seq![m@]);
                Some(ArtelStatement::AmbientDeclaration(ArtelAmbientDeclaration::new(false, body)))
            },
            None => None,
        }
    } else if node.named_child_count() == 1 {
        match ambient_body(first) {
            Some(body) => Some(
                ArtelStatement::AmbientDeclaration(ArtelAmbientDeclaration::new(is_global, body)),
            ),
            None => None,
        }
    } else {
        None
    }
}

/// Reads `namespace Name { ... }` from the node holding the fields `name` and `body`.
fn parse_internal_module(node: &SyntaxNode) -> (r: Option<ArtelStatement>)
    ensures
        r is Some <==> spec_parse_internal_module(node@) is Some,
        r matches Some(s) ==> spec_parse_internal_module(node@) == Some(s@),
    decreases node, 1nat,
{
    let name = field_text_of(node, "name");
    match node.field_position("body") {
        Some(k) => {
            proof {
                assert(decreases_to!(node => node.children@[k as int]));
                assert(node@.children[k as int] == node.children@[k as int]@);
            }
            match (name, parse_statement_block(&node.children[k])) {
                (Some(nm), Some(body)) => Some(
                    ArtelStatement::InternalModule(ArtelInternalModule::new(Identifier(nm), body)),
                ),
                _ => None,
            }
        },
        None => None,
    }
}

/// Reads the named children of `node` as statements, dropping the ones left out.
pub fn parse_statement_block(node: &SyntaxNode) -> (r: Option<Vec<ArtelStatement>>)
    ensures
        r is Some <==> spec_statements_upto(node@, node@.children.len() as int) is Some,
        r matches Some(v) ==> spec_statements_upto(node@, node@.children.len() as int) == Some(
            statements_model(v),
        ),
    decreases node, 0nat,
{
    let n = node.children.len();
    let mut out: Vec<ArtelStatement> = Vec::new();
    let mut j: usize = 0;
    assert(statements_model(out) =~= seq![]);
    while j < n
        invariant
            j <= n == node.children.len(),
            node@.children.len() == n,
            spec_statements_upto(node@, j as int) == Some(statements_model(out)),
        decreases n - j,
    {
        assert(node@.children[j as int] == node.children@[j as int]@);
        if node.children[j].named {
            proof {
                assert(decreases_to!(node => node.children@[j as int]));
            }
            match try_parse_statement(&node.children[j]) {
                Some(Some(st)) => {
                    let ghost before = out;
                    out.push(st);
                    assert(statements_model(out) =~= statements_model(before).push(st@));
                },
                Some(None) => {},
                None => {
                    proof {
                        lemma_statements_fail(node@, j + 1, n as int);
                    }
                    return None;
                },
            }
        }
        j = j + 1;
    }
    Some(out)
}

/// Reads one statement; `Some(None)` for one that is left out, `None` for one
/// the converter does not handle.
pub fn try_parse_statement(node: &SyntaxNode) -> (r: Option<Option<ArtelStatement>>)
    ensures
        r is Some <==> spec_parse_statement(node@) is Some,
        r matches Some(Some(s)) ==> spec_parse_statement(node@) == Some(Some(s@)),
        r matches Some(None) ==> spec_parse_statement(node@) == Some(None::<StatementModel>),
    decreases node, 3nat,
{
    if node.is_kind("ambient_declaration") {
        match parse_ambient_declaration(node) {
            Some(s) => Some(Some(s)),
            None => None,
        }
    } else if node.is_kind("function_declaration") || node.is_kind("function_signature") {
        match parse_function_declaration(node) {
            Some(f) => Some(Some(ArtelStatement::FunctionDeclaration(f))),
            None => None,
        }
    } else if node.is_kind("class_declaration") || node.is_kind("abstract_class_declaration") {
        match parse_class_declaration(node, node.is_kind("abstract_class_declaration")) {
            Some(c) => Some(Some(ArtelStatement::ClassDeclaration(c))),
            None => None,
        }
    } else if node.is_kind("comment") {
        match node_text(node) {
            Some(t) => Some(Some(ArtelStatement::Comment(t))),
            None => None,
        }
    } else if node.is_kind("enum_declaration") {
        match parse_enum_declaration(node) {
            Some(e) => Some(Some(ArtelStatement::EnumDeclaration(e))),
            None => None,
        }
    } else if node.is_kind("type_alias_declaration") {
        match parse_type_alias_declaration(node) {
            Some(t) => Some(Some(ArtelStatement::TypeAliasDeclaration(t))),
            None => None,
        }
    } else if node.is_kind("export_statement") {
        match node.field_position("declaration") {
            Some(k) => {
                proof {
                    assert(decreases_to!(node => node.children@[k as int]));
                    assert(node@.children[k as int] == node.children@[k as int]@);
                }
                match try_parse_statement(&node.children[k]) {
                    Some(Some(s)) => Some(Some(ArtelStatement::ExportStatement(Box::new(s)))),
                    _ => None,
                }
            },
            None => Some(None),
        }
    } else if node.is_kind("interface_declaration") {
        match parse_interface(node) {
            Some(d) => Some(Some(ArtelStatement::InterfaceDeclaration(d))),
            None => None,
        }
    } else if node.is_kind("lexical_declaration") || node.is_kind("variable_declaration") {
        match parse_lexical_declaration(node) {
            Some(d) => Some(Some(ArtelStatement::LexicalDeclaration(d))),
            None => None,
        }
    } else if node.is_kind("statement_block") {
        match parse_statement_block(node) {
            Some(v) => Some(Some(ArtelStatement::StatementBlock(v))),
            None => None,
        }
    } else if node.is_kind("import_statement") || node.is_kind("if_statement") {
        Some(None)
    } else if node.is_kind("expression_statement") {
        if node.children.len() == 0 {
            None
        } else if node.first_child_is("internal_module") {
            match parse_internal_module(node) {
                Some(s) => Some(Some(s)),
                None => None,
            }
        } else {
            Some(None)
        }
    } else {
        None
    }
}

/// Reads one statement the converter handles; `None` for one it leaves out.
pub fn parse_statement(node: &SyntaxNode) -> (r: Option<ArtelStatement>)
    requires
        spec_parse_statement(node@) is Some,
    ensures
        r matches Some(s) ==> spec_parse_statement(node@) == Some(Some(s@)),
        r is None ==> spec_parse_statement(node@) == Some(None::<StatementModel>),
{
    match try_parse_statement(node) {
        Some(o) => o,
        None => None,
    }
}

/// Reads the program held by the root of a syntax tree, or `None` when it
/// holds a construct the converter does not handle.
pub fn try_walk_tree(node: &SyntaxNode) -> (r: Option<ArtelProgram>)
    ensures
        r is Some <==> spec_walk_tree(node@) is Some,
        r matches Some(p) ==> spec_walk_tree(node@) == Some(statements_model(p)),
{
    parse_statement_block(node)
}

/// Reads the program held by the root of a syntax tree: its statements, in
/// order, the ones left out dropped.
pub fn walk_tree(node: &SyntaxNode) -> (r: ArtelProgram)
    requires
        spec_walk_tree(node@) is Some,
    ensures
        spec_walk_tree(node@) == Some(statements_model(r)),
{
    match try_walk_tree(node) {
        Some(p) => p,
        None => Vec::new(),
    }
}

} // verus!
