//! Reading types out of the syntax tree: type annotations, unions, generic,
//! function, object, array, tuple and literal types, type parameters,
//! formal arguments and the signatures found in interfaces and object types.
//!
//! Every reader returns `None` exactly when the input holds a construct the
//! converter does not handle (or a node without the parts its kind always has).

use vstd::prelude::*;
use crate::ast_type::{
    Identifier, Type, PrimaryType, LiteralType, TypeReference, TypeParameter, ObjectType,
    InterfaceMember, ArtelProperty, ArtelFunctionArgument, ArtelExpression, FunctionDeclaration,
    TypeModel, PrimaryModel, LiteralModel, TypeRefModel, TypeParamModel, MemberModel,
    PropertyModel, ArgumentModel, FunctionModel, predefined_of, predefined_type_of, type_ok,
    types_ok, primary_ok, members_ok, member_ok, type_param_ok, type_params_ok, arguments_ok,
    function_ok, type_text, law_string_literal_quoted,
};
use crate::syntax::{
    SyntaxNode, NodeModel, has_field, field_index, has_named_child, first_named_index,
    first_child_is,
};
use crate::text::owned;

verus! {

broadcast use vstd::std_specs::vec::group_vec_axioms;

// ---------------------------------------------------------------------------
// What is read
// ---------------------------------------------------------------------------

/// The type given to a declaration that has no annotation.
pub open spec fn no_type() -> TypeModel {
    TypeModel { items: seq![PrimaryModel::UnsupportedAny("no_type"@)] }
}

/// The type of an optional member: its type with `undefined` added.
pub open spec fn with_undefined(t: TypeModel) -> TypeModel {
    TypeModel { items: t.items.push(PrimaryModel::Literal(LiteralModel::Undefined)) }
}

/// Node kinds read as a type the converter leaves as an optional object.
pub open spec fn is_unsupported_type_kind(k: Seq<char>) -> bool {
    ||| k == "type_query"@
    ||| k == "template_literal_type"@
    ||| k == "nested_type_identifier"@
    ||| k == "constructor_type"@
    ||| k == "intersection_type"@
    ||| k == "index_type_query"@
    ||| k == "lookup_type"@
    ||| k == "this_type"@
    ||| k == "conditional_type"@
    ||| k == "rest_type"@
}

/// The literal a `literal_type` node's first named child stands for.
pub open spec fn spec_literal(c: NodeModel) -> Option<LiteralModel> {
    if c.kind == "string"@ {
        if has_named_child(c) {
            match c.children[first_named_index(c)].text {
                Some(t) => Some(LiteralModel::Str(t)),
                None => None,
            }
        } else {
            Some(LiteralModel::Str(seq![]))
        }
    } else if c.kind == "number"@ || c.kind == "unary_expression"@ {
        match c.text {
            Some(t) => Some(LiteralModel::Number(t)),
            None => None,
        }
    } else if c.kind == "null"@ {
        Some(LiteralModel::Null)
    } else if c.kind == "true"@ {
        Some(LiteralModel::Boolean(true))
    } else if c.kind == "false"@ {
        Some(LiteralModel::Boolean(false))
    } else if c.kind == "undefined"@ {
        Some(LiteralModel::Undefined)
    } else {
        None
    }
}

/// The text of the child filling field `f`, when there is one with valid text.
pub open spec fn field_text(n: NodeModel, f: Seq<char>) -> Option<Seq<char>> {
    if has_field(n, f) {
        n.children[field_index(n, f)].text
    } else {
        None
    }
}

/// A type, unwrapping a `type_annotation`; an empty union is not a type.
pub open spec fn spec_parse_type(n: NodeModel) -> Option<TypeModel>
    decreases n, n.children.len() + 3,
{
    let items = if n.kind == "type_annotation"@ {
        if has_named_child(n) {
            spec_parse_type_inner(n.children[first_named_index(n)])
        } else {
            None
        }
    } else {
        spec_parse_type_inner(n)
    };
    match items {
        Some(s) => if s.len() > 0 {
            Some(TypeModel { items: s })
        } else {
            None
        },
        None => None,
    }
}

/// The type kinds the reader knows; it reads no other.
pub open spec fn is_read_type_kind(k: Seq<char>) -> bool {
    ||| k == "union_type"@
    ||| k == "type_identifier"@
    ||| k == "predefined_type"@
    ||| k == "literal_type"@
    ||| k == "generic_type"@
    ||| k == "function_type"@
    ||| k == "object_type"@
    ||| k == "array_type"@
    ||| k == "readonly_type"@
    ||| k == "tuple_type"@
    ||| k == "parenthesized_type"@
    ||| k == "type_predicate_annotation"@
    ||| k == "type_predicate"@
    ||| is_unsupported_type_kind(k)
}

/// The members a type node adds to the union being read.
pub open spec fn spec_parse_type_inner(n: NodeModel) -> Option<Seq<PrimaryModel>>
    decreases n, n.children.len() + 2,
{
    let k = n.kind;
    if k == "union_type"@ {
        spec_union_upto(n, n.children.len() as int)
    } else if k == "type_identifier"@ {
        match n.text {
            Some(t) => Some(seq![PrimaryModel::Reference(TypeRefModel { name: t, args: seq![] })]),
            None => None,
        }
    } else if k == "predefined_type"@ {
        match n.text {
            Some(t) => match predefined_of(t) {
                Some(p) => Some(seq![PrimaryModel::Predefined(p)]),
                None => None,
            },
            None => None,
        }
    } else if k == "literal_type"@ {
        if has_named_child(n) {
            match spec_literal(n.children[first_named_index(n)]) {
                Some(l) => Some(seq![PrimaryModel::Literal(l)]),
                None => None,
            }
        } else {
            None
        }
    } else if k == "generic_type"@ {
        if has_field(n, "type_arguments"@) {
            let args = spec_types_upto(
                n.children[field_index(n, "type_arguments"@)],
                n.children[field_index(n, "type_arguments"@)].children.len() as int,
            );
            match (field_text(n, "name"@), args) {
                (Some(name), Some(a)) => Some(
                    seq![PrimaryModel::Reference(TypeRefModel { name: name, args: a })],
                ),
                _ => None,
            }
        } else {
            None
        }
    } else if k == "function_type"@ {
        let generics = if has_field(n, "type_parameters"@) {
            spec_parse_type_parameters(n.children[field_index(n, "type_parameters"@)])
        } else {
            Some(seq![])
        };
        let args = if has_field(n, "parameters"@) {
            spec_parse_formal_arguments(n.children[field_index(n, "parameters"@)])
        } else {
            None
        };
        let ret = if has_field(n, "return_type"@) {
            match spec_parse_type(n.children[field_index(n, "return_type"@)]) {
                Some(t) => Some(Some(t)),
                None => None,
            }
        } else {
            Some(None)
        };
        match (generics, args, ret) {
            (Some(g), Some(a), Some(r)) => Some(
                seq![
                    PrimaryModel::Function(
                        FunctionModel {
                            is_async: false,
                            name: "$FUNCTION_TYPE$"@,
                            generics: g,
                            args: a,
                            ret: r,
                        },
                    ),
                ],
            ),
            _ => None,
        }
    } else if k == "object_type"@ {
        match spec_parse_object_type(n) {
            Some(p) => Some(seq![p]),
            None => None,
        }
    } else if k == "array_type"@ || k == "readonly_type"@ {
        if has_named_child(n) {
            match spec_parse_type(n.children[first_named_index(n)]) {
                Some(t) => Some(
                    seq![
                        if k == "array_type"@ {
                            PrimaryModel::Array(t)
                        } else {
                            PrimaryModel::Readonly(t)
                        },
                    ],
                ),
                None => None,
            }
        } else {
            None
        }
    } else if k == "tuple_type"@ {
        match spec_types_upto(n, n.children.len() as int) {
            Some(ts) => Some(seq![PrimaryModel::Tuple(ts)]),
            None => None,
        }
    } else if k == "parenthesized_type"@ || k == "type_predicate_annotation"@ {
        if has_named_child(n) {
            match spec_parse_type(n.children[first_named_index(n)]) {
                Some(t) => Some(t.items),
                None => None,
            }
        } else {
            None
        }
    } else if k == "type_predicate"@ {
        if has_field(n, "type"@) {
            match (field_text(n, "name"@), spec_parse_type(n.children[field_index(n, "type"@)])) {
                (Some(name), Some(t)) => Some(seq![PrimaryModel::Predicate(name, t)]),
                _ => None,
            }
        } else {
            None
        }
    } else if is_unsupported_type_kind(k) {
        match n.text {
            Some(t) => Some(seq![PrimaryModel::UnsupportedAny(t)]),
            None => None,
        }
    } else {
        None
    }
}

/// The union members read from the named children among the first `j` children of `p`.
pub open spec fn spec_union_upto(p: NodeModel, j: int) -> Option<Seq<PrimaryModel>>
    decreases p, j,
{
    if j <= 0 || j > p.children.len() {
        Some(seq![])
    } else {
        let prev = spec_union_upto(p, j - 1);
        if !p.children[j - 1].named {
            prev
        } else {
            match (prev, spec_parse_type_inner(p.children[j - 1])) {
                (Some(a), Some(b)) => Some(a + b),
                _ => None,
            }
        }
    }
}

/// The types read from the named children among the first `j` children of `p`.
pub open spec fn spec_types_upto(p: NodeModel, j: int) -> Option<Seq<TypeModel>>
    decreases p, j,
{
    if j <= 0 || j > p.children.len() {
        Some(seq![])
    } else {
        let prev = spec_types_upto(p, j - 1);
        if !p.children[j - 1].named {
            prev
        } else {
            match (prev, spec_parse_type(p.children[j - 1])) {
                (Some(a), Some(t)) => Some(a.push(t)),
                _ => None,
            }
        }
    }
}

/// An object type; one with an index signature is left as an optional object.
pub open spec fn spec_parse_object_type(n: NodeModel) -> Option<PrimaryModel>
    decreases n, n.children.len() + 1,
{
    match spec_object_members_upto(n, n.children.len() as int) {
        Some((true, _)) => match n.text {
            Some(t) => Some(PrimaryModel::UnsupportedAny(t)),
            None => None,
        },
        Some((false, ms)) => Some(PrimaryModel::Object(ms)),
        None => None,
    }
}

/// The members of an object type read from the first `j` children, comments
/// left out; the flag tells that an index signature was met, where reading stops.
pub open spec fn spec_object_members_upto(p: NodeModel, j: int) -> Option<(bool, Seq<MemberModel>)>
    decreases p, j,
{
    if j <= 0 || j > p.children.len() {
        Some((false, seq![]))
    } else {
        let prev = spec_object_members_upto(p, j - 1);
        let c = p.children[j - 1];
        match prev {
            Some((false, ms)) => if !c.named || c.kind == "comment"@ {
                prev
            } else if c.kind == "index_signature"@ {
                Some((true, ms))
            } else {
                match spec_parse_signature_member(p.children[j - 1]) {
                    Some(m) => Some((false, ms.push(m))),
                    None => None,
                }
            },
            _ => prev,
        }
    }
}

/// A member of an interface or an object type: a property, a method, a
/// constructor, or an index or call signature kept as text.
pub open spec fn spec_parse_signature_member(c: NodeModel) -> Option<MemberModel>
    decreases c, c.children.len() + 3,
{
    if c.kind == "method_signature"@ {
        match spec_parse_function(c) {
            Some(f) => Some(MemberModel::Method(f)),
            None => None,
        }
    } else if c.kind == "construct_signature"@ {
        match spec_parse_construct_signature(c) {
            Some(f) => Some(MemberModel::Method(f)),
            None => None,
        }
    } else if c.kind == "property_signature"@ {
        if has_field(c, "type"@) && c.children.len() > 0 {
            match (field_text(c, "name"@), spec_parse_type(c.children[field_index(c, "type"@)])) {
                (Some(name), Some(t)) => Some(
                    MemberModel::Property(
                        PropertyModel { readonly: c.children[0].kind == "readonly"@, name, ty: t },
                    ),
                ),
                _ => None,
            }
        } else {
            None
        }
    } else if c.kind == "index_signature"@ || c.kind == "call_signature"@ {
        match c.text {
            Some(t) => Some(MemberModel::Unsupported(t)),
            None => None,
        }
    } else {
        None
    }
}

/// A type read from the first named child of the child filling field `f`,
/// `Some(None)` when there is no such child.
pub open spec fn spec_bound_type(c: NodeModel, f: Seq<char>) -> Option<Option<TypeModel>>
    decreases c, c.children.len() + 1,
{
    if has_field(c, f) {
        let b = c.children[field_index(c, f)];
        if has_named_child(b) {
            match spec_parse_type(c.children[field_index(c, f)].children[first_named_index(b)]) {
                Some(t) => Some(Some(t)),
                None => None,
            }
        } else {
            None
        }
    } else {
        Some(None)
    }
}

/// A type parameter: its name, constraint and default.
pub open spec fn spec_parse_type_parameter(c: NodeModel) -> Option<TypeParamModel>
    decreases c, c.children.len() + 2,
{
    match (field_text(c, "name"@), spec_bound_type(c, "constraint"@), spec_bound_type(c, "value"@)) {
        (Some(name), Some(constraint), Some(default)) => Some(
            TypeParamModel { name, constraint, default },
        ),
        _ => None,
    }
}

pub open spec fn spec_parse_type_parameters(n: NodeModel) -> Option<Seq<TypeParamModel>>
    decreases n, n.children.len() + 1,
{
    spec_type_parameters_upto(n, n.children.len() as int)
}

pub open spec fn spec_type_parameters_upto(p: NodeModel, j: int) -> Option<Seq<TypeParamModel>>
    decreases p, j,
{
    if j <= 0 || j > p.children.len() {
        Some(seq![])
    } else {
        let prev = spec_type_parameters_upto(p, j - 1);
        if !p.children[j - 1].named {
            prev
        } else {
            match (prev, spec_parse_type_parameter(p.children[j - 1])) {
                (Some(a), Some(t)) => Some(a.push(t)),
                _ => None,
            }
        }
    }
}

/// A formal argument: an optional one gets `undefined` in its type and `пусто`
/// as default; an initializer's text becomes the default.
pub open spec fn spec_parse_argument(c: NodeModel) -> Option<ArgumentModel>
    decreases c, c.children.len() + 1,
{
    let ty = if has_field(c, "type"@) {
        spec_parse_type(c.children[field_index(c, "type"@)])
    } else {
        Some(no_type())
    };
    let optional = c.kind == "optional_parameter"@;
    match (field_text(c, "pattern"@), ty) {
        (Some(name), Some(t)) => {
            let t2 = if optional {
                with_undefined(t)
            } else {
                t
            };
            if has_field(c, "value"@) {
                match field_text(c, "value"@) {
                    Some(v) => Some(ArgumentModel { name, ty: t2, default: Some(v) }),
                    None => None,
                }
            } else {
                Some(
                    ArgumentModel {
                        name,
                        ty: t2,
                        default: if optional {
                            Some("пусто"@)
                        } else {
                            None
                        },
                    },
                )
            }
        },
        _ => None,
    }
}

pub open spec fn spec_parse_formal_arguments(n: NodeModel) -> Option<Seq<ArgumentModel>>
    decreases n, n.children.len() + 1,
{
    spec_arguments_upto(n, n.children.len() as int)
}

pub open spec fn spec_arguments_upto(p: NodeModel, j: int) -> Option<Seq<ArgumentModel>>
    decreases p, j,
{
    if j <= 0 || j > p.children.len() {
        Some(seq![])
    } else {
        let prev = spec_arguments_upto(p, j - 1);
        if !p.children[j - 1].named {
            prev
        } else {
            match (prev, spec_parse_argument(p.children[j - 1])) {
                (Some(a), Some(t)) => Some(a.push(t)),
                _ => None,
            }
        }
    }
}

/// The type parameters in field `type_parameters`, none when there is no such field.
pub open spec fn spec_generics_of(n: NodeModel) -> Option<Seq<TypeParamModel>>
    decreases n, n.children.len() + 1,
{
    if has_field(n, "type_parameters"@) {
        spec_parse_type_parameters(n.children[field_index(n, "type_parameters"@)])
    } else {
        Some(seq![])
    }
}

/// The type in field `f`, `Some(None)` when there is no such field.
pub open spec fn spec_optional_type(n: NodeModel, f: Seq<char>) -> Option<Option<TypeModel>>
    decreases n, n.children.len() + 1,
{
    if has_field(n, f) {
        match spec_parse_type(n.children[field_index(n, f)]) {
            Some(t) => Some(Some(t)),
            None => None,
        }
    } else {
        Some(None)
    }
}

/// The arguments in field `parameters`, which must be there.
pub open spec fn spec_parameters_of(n: NodeModel) -> Option<Seq<ArgumentModel>>
    decreases n, n.children.len() + 1,
{
    if has_field(n, "parameters"@) {
        spec_parse_formal_arguments(n.children[field_index(n, "parameters"@)])
    } else {
        None
    }
}

/// A function declaration or signature; `async` when its first child is.
pub open spec fn spec_parse_function(n: NodeModel) -> Option<FunctionModel>
    decreases n, n.children.len() + 2,
{
    if n.children.len() > 0 {
        match (
            field_text(n, "name"@),
            spec_generics_of(n),
            spec_parameters_of(n),
            spec_optional_type(n, "return_type"@),
        ) {
            (Some(name), Some(g), Some(a), Some(r)) => Some(
                FunctionModel {
                    is_async: n.children[0].kind == "async"@,
                    name,
                    generics: g,
                    args: a,
                    ret: r,
                },
            ),
            _ => None,
        }
    } else {
        None
    }
}

/// A construct signature, read as a function called `constructor`.
pub open spec fn spec_parse_construct_signature(n: NodeModel) -> Option<FunctionModel>
    decreases n, n.children.len() + 2,
{
    if n.children.len() > 0 {
        match (spec_generics_of(n), spec_parameters_of(n), spec_optional_type(n, "type"@)) {
            (Some(g), Some(a), Some(r)) => Some(
                FunctionModel {
                    is_async: n.children[0].kind == "async"@,
                    name: "constructor"@,
                    generics: g,
                    args: a,
                    ret: r,
                },
            ),
            _ => None,
        }
    } else {
        None
    }
}


// ---------------------------------------------------------------------------
// What is read can be rendered
// ---------------------------------------------------------------------------

/// Every member of a union can be rendered.
pub open spec fn primaries_ok(items: Seq<PrimaryModel>) -> bool {
    forall|i: int| 0 <= i < items.len() ==> primary_ok(#[trigger] items[i])
}

proof fn lemma_read_type(n: NodeModel)
    ensures
        spec_parse_type(n) matches Some(t) ==> type_ok(t),
    decreases n, n.children.len() + 3,
{
    if n.kind == "type_annotation"@ {
        if has_named_child(n) {
            lemma_read_type_inner(n.children[first_named_index(n)]);
        }
    } else {
        lemma_read_type_inner(n);
    }
}

proof fn lemma_read_type_inner(n: NodeModel)
    ensures
        spec_parse_type_inner(n) matches Some(items) ==> primaries_ok(items),
    decreases n, n.children.len() + 2,
{
    let k = n.kind;
    let r = spec_parse_type_inner(n);
    if k == "union_type"@ {
        lemma_read_union(n, n.children.len() as int);
    } else if k == "type_identifier"@ {
        assert(types_ok(seq![]));
        assert(r matches Some(items) ==> primary_ok(items[0]));
    } else if k == "predefined_type"@ {
        assert(r matches Some(items) ==> primary_ok(items[0]));
    } else if k == "literal_type"@ {
        assert(r matches Some(items) ==> primary_ok(items[0]));
    } else if k == "generic_type"@ {
        if has_field(n, "type_arguments"@) {
            lemma_read_types(
                n.children[field_index(n, "type_arguments"@)],
                n.children[field_index(n, "type_arguments"@)].children.len() as int,
            );
        }
        assert(r matches Some(items) ==> primary_ok(items[0]));
    } else if k == "function_type"@ {
        if has_field(n, "type_parameters"@) {
            lemma_read_type_parameters(n.children[field_index(n, "type_parameters"@)]);
        }
        if has_field(n, "parameters"@) {
            lemma_read_formal_arguments(n.children[field_index(n, "parameters"@)]);
        }
        if has_field(n, "return_type"@) {
            lemma_read_type(n.children[field_index(n, "return_type"@)]);
        }
        if let Some(items) = r {
            if let PrimaryModel::Function(f) = items[0] {
                assert(function_ok(f));
            }
        }
        assert(r matches Some(items) ==> primary_ok(items[0]));
    } else if k == "object_type"@ {
        lemma_read_object_type(n);
        assert(r matches Some(items) ==> primary_ok(items[0]));
    } else if k == "array_type"@ || k == "readonly_type"@ {
        if has_named_child(n) {
            lemma_read_type(n.children[first_named_index(n)]);
        }
        assert(r matches Some(items) ==> primary_ok(items[0]));
    } else if k == "tuple_type"@ {
        lemma_read_types(n, n.children.len() as int);
        assert(r matches Some(items) ==> primary_ok(items[0]));
    } else if k == "parenthesized_type"@ || k == "type_predicate_annotation"@ {
        if has_named_child(n) {
            lemma_read_type(n.children[first_named_index(n)]);
        }
    } else if k == "type_predicate"@ {
        if has_field(n, "type"@) {
            lemma_read_type(n.children[field_index(n, "type"@)]);
        }
        assert(r matches Some(items) ==> primary_ok(items[0]));
    } else if is_unsupported_type_kind(k) {
        assert(r matches Some(items) ==> primary_ok(items[0]));
    }
}

proof fn lemma_read_union(p: NodeModel, j: int)
    ensures
        spec_union_upto(p, j) matches Some(items) ==> primaries_ok(items),
    decreases p, j,
{
    if j > 0 && j <= p.children.len() {
        lemma_read_union(p, j - 1);
        if p.children[j - 1].named {
            lemma_read_type_inner(p.children[j - 1]);
            if let (Some(a), Some(b)) = (spec_union_upto(p, j - 1), spec_parse_type_inner(p.children[j - 1])) {
                assert forall|i: int| 0 <= i < (a + b).len() implies primary_ok(#[trigger] (a + b)[i]) by {
                    if i < a.len() {
                        assert((a + b)[i] == a[i]);
                    } else {
                        assert((a + b)[i] == b[i - a.len()]);
                    }
                }
            }
        }
    }
}

proof fn lemma_read_types(p: NodeModel, j: int)
    ensures
        spec_types_upto(p, j) matches Some(ts) ==> types_ok(ts),
    decreases p, j,
{
    if j > 0 && j <= p.children.len() {
        lemma_read_types(p, j - 1);
        if p.children[j - 1].named {
            lemma_read_type(p.children[j - 1]);
        }
    }
}

proof fn lemma_read_object_type(n: NodeModel)
    ensures
        spec_parse_object_type(n) matches Some(p) ==> primary_ok(p),
    decreases n, n.children.len() + 1,
{
    lemma_read_object_members(n, n.children.len() as int);
}

proof fn lemma_read_object_members(p: NodeModel, j: int)
    ensures
        spec_object_members_upto(p, j) matches Some((_, ms)) ==> members_ok(ms),
    decreases p, j,
{
    if j > 0 && j <= p.children.len() {
        lemma_read_object_members(p, j - 1);
        lemma_read_signature_member(p.children[j - 1]);
    }
}

proof fn lemma_read_signature_member(c: NodeModel)
    ensures
        spec_parse_signature_member(c) matches Some(m) ==> member_ok(m),
    decreases c, c.children.len() + 3,
{
    if c.kind == "method_signature"@ {
        lemma_read_function(c);
    } else if c.kind == "construct_signature"@ {
        lemma_read_construct_signature(c);
    } else if c.kind == "property_signature"@ {
        if has_field(c, "type"@) {
            lemma_read_type(c.children[field_index(c, "type"@)]);
        }
    }
}

proof fn lemma_read_bound_type(c: NodeModel, f: Seq<char>)
    ensures
        spec_bound_type(c, f) matches Some(Some(t)) ==> type_ok(t),
    decreases c, c.children.len() + 1,
{
    if has_field(c, f) {
        let b = c.children[field_index(c, f)];
        if has_named_child(b) {
            lemma_read_type(c.children[field_index(c, f)].children[first_named_index(b)]);
        }
    }
}

proof fn lemma_read_type_parameter(c: NodeModel)
    ensures
        spec_parse_type_parameter(c) matches Some(p) ==> type_param_ok(p),
    decreases c, c.children.len() + 2,
{
    lemma_read_bound_type(c, "constraint"@);
}

proof fn lemma_read_type_parameters(n: NodeModel)
    ensures
        spec_parse_type_parameters(n) matches Some(ps) ==> type_params_ok(ps),
    decreases n, n.children.len() + 1,
{
    lemma_read_type_parameters_upto(n, n.children.len() as int);
}

proof fn lemma_read_type_parameters_upto(p: NodeModel, j: int)
    ensures
        spec_type_parameters_upto(p, j) matches Some(ps) ==> type_params_ok(ps),
    decreases p, j,
{
    if j > 0 && j <= p.children.len() {
        lemma_read_type_parameters_upto(p, j - 1);
        if p.children[j - 1].named {
            lemma_read_type_parameter(p.children[j - 1]);
        }
    }
}

proof fn lemma_read_argument(c: NodeModel)
    ensures
        spec_parse_argument(c) matches Some(a) ==> type_ok(a.ty),
    decreases c, c.children.len() + 1,
{
    if has_field(c, "type"@) {
        lemma_read_type(c.children[field_index(c, "type"@)]);
    }
    if let Some(a) = spec_parse_argument(c) {
        let t = if has_field(c, "type"@) {
            spec_parse_type(c.children[field_index(c, "type"@)]).unwrap()
        } else {
            no_type()
        };
        if c.kind == "optional_parameter"@ {
            assert(a.ty == with_undefined(t));
            assert forall|i: int| 0 <= i < a.ty.items.len() implies primary_ok(
                #[trigger] a.ty.items[i],
            ) by {
                if i < t.items.len() {
                    assert(a.ty.items[i] == t.items[i]);
                }
            }
        }
    }
}

proof fn lemma_read_formal_arguments(n: NodeModel)
    ensures
        spec_parse_formal_arguments(n) matches Some(args) ==> arguments_ok(args),
    decreases n, n.children.len() + 1,
{
    lemma_read_arguments_upto(n, n.children.len() as int);
}

proof fn lemma_read_arguments_upto(p: NodeModel, j: int)
    ensures
        spec_arguments_upto(p, j) matches Some(args) ==> arguments_ok(args),
    decreases p, j,
{
    if j > 0 && j <= p.children.len() {
        lemma_read_arguments_upto(p, j - 1);
        if p.children[j - 1].named {
            lemma_read_argument(p.children[j - 1]);
        }
    }
}

pub proof fn lemma_read_signature_parts(n: NodeModel, f: Seq<char>)
    ensures
        spec_generics_of(n) matches Some(g) ==> type_params_ok(g),
        spec_parameters_of(n) matches Some(a) ==> arguments_ok(a),
        spec_optional_type(n, f) matches Some(Some(t)) ==> type_ok(t),
    decreases n, n.children.len() + 1,
{
    if has_field(n, "type_parameters"@) {
        lemma_read_type_parameters(n.children[field_index(n, "type_parameters"@)]);
    }
    if has_field(n, "parameters"@) {
        lemma_read_formal_arguments(n.children[field_index(n, "parameters"@)]);
    }
    if has_field(n, f) {
        lemma_read_type(n.children[field_index(n, f)]);
    }
}

/// A type with `undefined` added can be rendered when the type can.
pub proof fn lemma_with_undefined_ok(t: TypeModel)
    requires
        type_ok(t),
    ensures
        type_ok(with_undefined(t)),
{
    let u = with_undefined(t);
    assert forall|i: int| 0 <= i < u.items.len() implies primary_ok(#[trigger] u.items[i]) by {
        if i < t.items.len() {
            assert(u.items[i] == t.items[i]);
        }
    }
}

proof fn lemma_read_function(n: NodeModel)
    ensures
        spec_parse_function(n) matches Some(f) ==> function_ok(f),
    decreases n, n.children.len() + 2,
{
    lemma_read_signature_parts(n, "return_type"@);
}

proof fn lemma_read_construct_signature(n: NodeModel)
    ensures
        spec_parse_construct_signature(n) matches Some(f) ==> function_ok(f),
    decreases n, n.children.len() + 2,
{
    lemma_read_signature_parts(n, "type"@);
}

/// Whatever type the reader gets out of a syntax tree can be rendered: every
/// union in it is non-empty. So are the types in the functions and in the
/// members of interfaces and object types it reads.
pub proof fn law_read_types_render(n: NodeModel)
    ensures
        spec_parse_type(n) matches Some(t) ==> type_ok(t),
        spec_parse_function(n) matches Some(f) ==> function_ok(f),
        spec_parse_construct_signature(n) matches Some(f) ==> function_ok(f),
        spec_parse_signature_member(n) matches Some(m) ==> member_ok(m),
        spec_parse_type_parameters(n) matches Some(ps) ==> type_params_ok(ps),
        spec_parse_formal_arguments(n) matches Some(args) ==> arguments_ok(args),
{
    lemma_read_type(n);
    lemma_read_function(n);
    lemma_read_construct_signature(n);
    lemma_read_signature_member(n);
    lemma_read_type_parameters(n);
    lemma_read_formal_arguments(n);
}

// ---------------------------------------------------------------------------
// Failure carries over to longer prefixes
// ---------------------------------------------------------------------------

proof fn lemma_union_fails(p: NodeModel, j: int, k: int)
    requires
        0 <= j <= k <= p.children.len(),
        spec_union_upto(p, j) is None,
    ensures
        spec_union_upto(p, k) is None,
    decreases k - j,
{
    if k > j {
        lemma_union_fails(p, j, k - 1);
    }
}

proof fn lemma_types_fails(p: NodeModel, j: int, k: int)
    requires
        0 <= j <= k <= p.children.len(),
        spec_types_upto(p, j) is None,
    ensures
        spec_types_upto(p, k) is None,
    decreases k - j,
{
    if k > j {
        lemma_types_fails(p, j, k - 1);
    }
}

proof fn lemma_type_parameters_fails(p: NodeModel, j: int, k: int)
    requires
        0 <= j <= k <= p.children.len(),
        spec_type_parameters_upto(p, j) is None,
    ensures
        spec_type_parameters_upto(p, k) is None,
    decreases k - j,
{
    if k > j {
        lemma_type_parameters_fails(p, j, k - 1);
    }
}

proof fn lemma_arguments_fails(p: NodeModel, j: int, k: int)
    requires
        0 <= j <= k <= p.children.len(),
        spec_arguments_upto(p, j) is None,
    ensures
        spec_arguments_upto(p, k) is None,
    decreases k - j,
{
    if k > j {
        lemma_arguments_fails(p, j, k - 1);
    }
}

/// Once an object type's members failed or met an index signature, longer
/// prefixes give the same.
proof fn lemma_object_members_settled(p: NodeModel, j: int, k: int)
    requires
        0 <= j <= k <= p.children.len(),
        !(spec_object_members_upto(p, j) matches Some((false, _))),
    ensures
        spec_object_members_upto(p, k) == spec_object_members_upto(p, j),
    decreases k - j,
{
    if k > j {
        lemma_object_members_settled(p, j, k - 1);
    }
}

// ---------------------------------------------------------------------------
// Reading
// ---------------------------------------------------------------------------

/// A string literal type is read as the characters between its quotes: the
/// text of the string's first named child (its fragment), or nothing for an
/// empty string, never the quoted source text. It renders as those characters
/// between double quotes.
pub proof fn law_string_literal_read(n: NodeModel)
    requires
        n.kind == "literal_type"@,
        has_named_child(n),
        n.children[first_named_index(n)].kind == "string"@,
    ensures
        ({
            let c = n.children[first_named_index(n)];
            let read = if has_named_child(c) {
                c.children[first_named_index(c)].text
            } else {
                Some(seq![])
            };
            &&& read is None ==> spec_parse_type(n) is None
            &&& read matches Some(t) ==> spec_parse_type(n) == Some(
                TypeModel { items: seq![PrimaryModel::Literal(LiteralModel::Str(t))] },
            ) && type_text(spec_parse_type(n).unwrap()) == seq!['"'] + t + seq!['"']
        }),
{
    reveal_strlit("literal_type");
    reveal_strlit("type_annotation");
    reveal_strlit("union_type");
    reveal_strlit("type_identifier");
    reveal_strlit("predefined_type");
    assert("literal_type"@[0] != "type_annotation"@[0]);
    assert("literal_type"@[0] != "union_type"@[0]);
    assert("literal_type"@[0] != "type_identifier"@[0]);
    assert("literal_type"@[0] != "predefined_type"@[0]);
    let c = n.children[first_named_index(n)];
    if has_named_child(c) {
        match c.children[first_named_index(c)].text {
            Some(t) => {
                law_string_literal_quoted(t);
            },
            None => {},
        }
    } else {
        law_string_literal_quoted(seq![]);
    }
}

/// A union read through its first `j` children was read through each shorter
/// prefix too.
proof fn lemma_union_upto_some(n: NodeModel, j: int)
    requires
        0 <= j <= n.children.len(),
        spec_union_upto(n, n.children.len() as int) is Some,
    ensures
        spec_union_upto(n, j) is Some,
    decreases n.children.len() - j,
{
    if j < n.children.len() {
        lemma_union_upto_some(n, j + 1);
    }
}

/// Reading a type node into a union keeps the members read before it, in
/// order, and adds its own after them. A union's members are those its named
/// children add, one child after the other, so a union nested in a union
/// comes out flat.
pub proof fn law_union_reading_appends(before: Seq<PrimaryModel>, n: NodeModel)
    requires
        spec_parse_type_inner(n) is Some,
    ensures
        (before + spec_parse_type_inner(n).unwrap()).subrange(0, before.len() as int) == before,
        n.kind == "union_type"@ ==> forall|j: int|
            0 <= j < n.children.len() && (#[trigger] n.children[j]).named ==> spec_parse_type_inner(
                n.children[j],
            ) is Some && spec_union_upto(n, j + 1) == Some(
                spec_union_upto(n, j).unwrap() + spec_parse_type_inner(n.children[j]).unwrap(),
            ),
{
    assert((before + spec_parse_type_inner(n).unwrap()).subrange(0, before.len() as int) =~= before);
    if n.kind == "union_type"@ {
        assert forall|j: int|
            0 <= j < n.children.len() && (#[trigger] n.children[j]).named implies spec_parse_type_inner(
            n.children[j],
        ) is Some && spec_union_upto(n, j + 1) == Some(
            spec_union_upto(n, j).unwrap() + spec_parse_type_inner(n.children[j]).unwrap(),
        ) by {
            lemma_union_upto_some(n, j + 1);
        }
    }
}

/// The members of a union held in `v`.
pub open spec fn union_model(v: Seq<PrimaryType>) -> Seq<PrimaryModel> {
    v.map_values(|p: PrimaryType| p@)
}

/// The node's text, when it is valid UTF-8.
pub fn node_text(node: &SyntaxNode) -> (r: Option<String>)
    ensures
        r is Some <==> node@.text is Some,
        r matches Some(t) ==> node@.text == Some(t@),
{
    match &node.text {
        Some(t) => Some(t.clone()),
        None => None,
    }
}

/// The text of the child filling field `f`.
pub fn field_text_of(node: &SyntaxNode, f: &str) -> (r: Option<String>)
    ensures
        r is Some <==> field_text(node@, f@) is Some,
        r matches Some(t) ==> field_text(node@, f@) == Some(t@),
{
    match node.field_position(f) {
        Some(k) => {
            assert(node@.children[k as int] == node.children@[k as int]@);
            node_text(&node.children[k])
        },
        None => None,
    }
}

fn parse_literal(c: &SyntaxNode) -> (r: Option<LiteralType>)
    ensures
        r is Some <==> spec_literal(c@) is Some,
        r matches Some(l) ==> spec_literal(c@) == Some(l@),
{
    if c.is_kind("string") {
        match c.first_named_position() {
            Some(k) => {
                assert(c@.children[k as int] == c.children@[k as int]@);
                match node_text(&c.children[k]) {
                    Some(t) => Some(LiteralType::String(t)),
                    None => None,
                }
            },
            None => Some(LiteralType::String(String::new())),
        }
    } else if c.is_kind("number") || c.is_kind("unary_expression") {
        match node_text(c) {
            Some(t) => Some(LiteralType::Number(t)),
            None => None,
        }
    } else if c.is_kind("null") {
        Some(LiteralType::Null)
    } else if c.is_kind("true") {
        Some(LiteralType::Boolean(true))
    } else if c.is_kind("false") {
        Some(LiteralType::Boolean(false))
    } else if c.is_kind("undefined") {
        Some(LiteralType::Undefined)
    } else {
        None
    }
}

fn push_primary(vec: &mut Vec<PrimaryType>, p: PrimaryType)
    ensures
        union_model(final(vec)@) == union_model(old(vec)@).push(p@),
{
    vec.push(p);
    assert(union_model(vec@) =~= union_model(old(vec)@).push(p@));
}

/// Reads a type, unwrapping a `type_annotation`.
pub fn parse_type(node: &SyntaxNode) -> (r: Option<Type>)
    ensures
        r is Some <==> spec_parse_type(node@) is Some,
        r matches Some(t) ==> spec_parse_type(node@) == Some(t@),
    decreases node, 3nat,
{
    let mut vec: Vec<PrimaryType> = Vec::new();
    assert(union_model(vec@) =~= seq![]);
    let ok = if node.is_kind("type_annotation") {
        match node.first_named_position() {
            Some(k) => {
                proof {
                    assert(decreases_to!(node => node.children@[k as int]));
                    assert(node@.children[k as int] == node.children@[k as int]@);
                }
                parse_type_inner(&node.children[k], &mut vec)
            },
            None => false,
        }
    } else {
        parse_type_inner(node, &mut vec)
    };
    if ok && vec.len() > 0 {
        let t = Type(vec);
        assert(t@.items =~= union_model(t.0@));
        Some(t)
    } else {
        None
    }
}

/// The types read from the named children of `p`.
fn parse_types_of(p: &SyntaxNode) -> (r: Option<Vec<Type>>)
    ensures
        r is Some <==> spec_types_upto(p@, p@.children.len() as int) is Some,
        r matches Some(v) ==> spec_types_upto(p@, p@.children.len() as int) == Some(
            crate::ast_type::types_model(v),
        ),
    decreases p, 1nat,
{
    let n = p.children.len();
    let mut out: Vec<Type> = Vec::new();
    let mut j: usize = 0;
    while j < n
        invariant
            j <= n == p.children.len(),
            p@.children.len() == n,
            spec_types_upto(p@, j as int) == Some(crate::ast_type::types_model(out)),
        decreases n - j,
    {
        assert(p@.children[j as int] == p.children@[j as int]@);
        if p.children[j].named {
            proof {
                assert(decreases_to!(p => p.children@[j as int]));
            }
            match parse_type(&p.children[j]) {
                Some(t) => {
                    let ghost before = out;
                    out.push(t);
                    assert(crate::ast_type::types_model(out) =~= crate::ast_type::types_model(
                        before,
                    ).push(t@));
                },
                None => {
                    proof {
                        lemma_types_fails(p@, j + 1, n as int);
                    }
                    return None;
                },
            }
        }
        j = j + 1;
    }
    Some(out)
}

/// Reads the members a type node adds to the union in `vec`.
fn parse_type_inner(node: &SyntaxNode, vec: &mut Vec<PrimaryType>) -> (ok: bool)
    ensures
        ok <==> spec_parse_type_inner(node@) is Some,
        !is_read_type_kind(node@.kind) ==> !ok,
        node@.kind == "predefined_type"@ && (node@.text matches Some(t) && predefined_of(t) is None)
            ==> !ok,
        ok ==> union_model(final(vec)@) == union_model(old(vec)@) + spec_parse_type_inner(
            node@,
        ).unwrap(),
    decreases node, 2nat,
{
    proof {
        reveal_strlit("predefined_type");
        reveal_strlit("union_type");
        reveal_strlit("type_identifier");
        assert("predefined_type"@[0] != "union_type"@[0]);
        assert("predefined_type"@[0] != "type_identifier"@[0]);
    }
    if node.is_kind("union_type") {
        let n = node.children.len();
        let mut j: usize = 0;
        while j < n
            invariant
                j <= n == node.children.len(),
                node@.children.len() == n,
                node@.kind == "union_type"@,
                spec_union_upto(node@, j as int) is Some,
                union_model(vec@) == union_model(old(vec)@) + spec_union_upto(node@, j as int).unwrap(),
            decreases n - j,
        {
            assert(node@.children[j as int] == node.children@[j as int]@);
            if node.children[j].named {
                proof {
                    assert(decreases_to!(node => node.children@[j as int]));
                }
                let ok = parse_type_inner(&node.children[j], vec);
                if !ok {
                    proof {
                        lemma_union_fails(node@, j + 1, n as int);
                    }
                    return false;
                }
                assert(union_model(vec@) =~= union_model(old(vec)@) + spec_union_upto(
                    node@,
                    j + 1,
                ).unwrap());
            }
            j = j + 1;
        }
        true
    } else if node.is_kind("type_identifier") {
        match node_text(node) {
            Some(t) => {
                let empty: Vec<Type> = Vec::new();
                assert(crate::ast_type::types_model(empty) =~= seq![]);
                push_primary(vec, PrimaryType::TypeReference(TypeReference::new(Identifier(t), empty)));
                true
            },
            None => false,
        }
    } else if node.is_kind("predefined_type") {
        match node_text(node) {
            Some(t) => match predefined_type_of(t.as_str()) {
                Some(p) => {
                    push_primary(vec, PrimaryType::PredefinedType(p));
                    true
                },
                None => false,
            },
            None => false,
        }
    } else if node.is_kind("literal_type") {
        match node.first_named_position() {
            Some(k) => {
                assert(node@.children[k as int] == node.children@[k as int]@);
                match parse_literal(&node.children[k]) {
                    Some(l) => {
                        push_primary(vec, PrimaryType::LiteralType(l));
                        true
                    },
                    None => false,
                }
            },
            None => false,
        }
    } else if node.is_kind("generic_type") {
        match node.field_position("type_arguments") {
            Some(k) => {
                assert(node@.children[k as int] == node.children@[k as int]@);
                proof {
                    assert(decreases_to!(node => node.children@[k as int]));
                }
                let args = parse_types_of(&node.children[k]);
                match (field_text_of(node, "name"), args) {
                    (Some(name), Some(a)) => {
                        push_primary(vec, PrimaryType::TypeReference(TypeReference::new(Identifier(name), a)));
                        true
                    },
                    _ => false,
                }
            },
            None => false,
        }
    } else if node.is_kind("function_type") {
        let generics = generics_of(node);
        let args = parameters_of(node);
        let ret = optional_type(node, "return_type");
        match (generics, args, ret) {
            (Some(g), Some(a), Some(r)) => {
                let f = FunctionDeclaration::new(false, Identifier(owned("$FUNCTION_TYPE$")), g, a, r);
                push_primary(vec, PrimaryType::FunctionType(Box::new(f)));
                true
            },
            _ => false,
        }
    } else if node.is_kind("object_type") {
        match parse_object_type(node) {
            Some(p) => {
                push_primary(vec, p);
                true
            },
            None => false,
        }
    } else if node.is_kind("array_type") || node.is_kind("readonly_type") {
        match node.first_named_position() {
            Some(k) => {
                proof {
                    assert(decreases_to!(node => node.children@[k as int]));
                    assert(node@.children[k as int] == node.children@[k as int]@);
                }
                match parse_type(&node.children[k]) {
                    Some(t) => {
                        if node.is_kind("array_type") {
                            push_primary(vec, PrimaryType::ArrayType(Box::new(t)));
                        } else {
                            push_primary(vec, PrimaryType::ReadonlyType(Box::new(t)));
                        }
                        true
                    },
                    None => false,
                }
            },
            None => false,
        }
    } else if node.is_kind("tuple_type") {
        match parse_types_of(node) {
            Some(ts) => {
                push_primary(vec, PrimaryType::TupleType(ts));
                true
            },
            None => false,
        }
    } else if node.is_kind("parenthesized_type") || node.is_kind("type_predicate_annotation") {
        match node.first_named_position() {
            Some(k) => {
                proof {
                    assert(decreases_to!(node => node.children@[k as int]));
                    assert(node@.children[k as int] == node.children@[k as int]@);
                }
                match parse_type(&node.children[k]) {
                    Some(t) => {
                        let mut inner = t.0;
                        let ghost items = union_model(inner@);
                        assert(items =~= t@.items);
                        vec.append(&mut inner);
                        assert(union_model(vec@) =~= union_model(old(vec)@) + items);
                        true
                    },
                    None => false,
                }
            },
            None => false,
        }
    } else if node.is_kind("type_predicate") {
        match node.field_position("type") {
            Some(k) => {
                proof {
                    assert(decreases_to!(node => node.children@[k as int]));
                    assert(node@.children[k as int] == node.children@[k as int]@);
                }
                match (field_text_of(node, "name"), parse_type(&node.children[k])) {
                    (Some(name), Some(t)) => {
                        push_primary(vec, PrimaryType::PredicateType(name, Box::new(t)));
                        true
                    },
                    _ => false,
                }
            },
            None => false,
        }
    } else if is_unsupported_type_kind_text(node) {
        match node_text(node) {
            Some(t) => {
                push_primary(vec, PrimaryType::UnsupportedAny(t));
                true
            },
            None => false,
        }
    } else {
        false
    }
}

fn is_unsupported_type_kind_text(node: &SyntaxNode) -> (r: bool)
    ensures
        r == is_unsupported_type_kind(node@.kind),
{
    node.is_kind("type_query") || node.is_kind("template_literal_type") || node.is_kind(
        "nested_type_identifier",
    ) || node.is_kind("constructor_type") || node.is_kind("intersection_type") || node.is_kind(
        "index_type_query",
    ) || node.is_kind("lookup_type") || node.is_kind("this_type") || node.is_kind(
        "conditional_type",
    ) || node.is_kind("rest_type")
}

/// Reads an object type; one with an index signature is kept as text.
fn parse_object_type(node: &SyntaxNode) -> (r: Option<PrimaryType>)
    ensures
        r is Some <==> spec_parse_object_type(node@) is Some,
        r matches Some(p) ==> spec_parse_object_type(node@) == Some(p@),
    decreases node, 1nat,
{
    let n = node.children.len();
    let mut body: Vec<InterfaceMember> = Vec::new();
    let mut j: usize = 0;
    while j < n
        invariant
            j <= n == node.children.len(),
            node@.children.len() == n,
            spec_object_members_upto(node@, j as int) == Some(
                (false, crate::ast_type::members_model(body)),
            ),
        decreases n - j,
    {
        assert(node@.children[j as int] == node.children@[j as int]@);
        let c = &node.children[j];
        if c.named && !c.is_kind("comment") {
            if c.is_kind("index_signature") {
                proof {
                    lemma_object_members_settled(node@, j + 1, n as int);
                }
                return match node_text(node) {
                    Some(t) => Some(PrimaryType::UnsupportedAny(t)),
                    None => None,
                };
            }
            proof {
                assert(decreases_to!(node => node.children@[j as int]));
            }
            match parse_signature_member(c) {
                Some(m) => {
                    let ghost before = body;
                    body.push(m);
                    assert(crate::ast_type::members_model(body) =~= crate::ast_type::members_model(
                        before,
                    ).push(m@));
                },
                None => {
                    proof {
                        lemma_object_members_settled(node@, j + 1, n as int);
                    }
                    return None;
                },
            }
        }
        j = j + 1;
    }
    Some(PrimaryType::ObjectType(ObjectType::new(body)))
}

/// Reads a member of an interface or an object type.
pub fn parse_signature_member(c: &SyntaxNode) -> (r: Option<InterfaceMember>)
    ensures
        r is Some <==> spec_parse_signature_member(c@) is Some,
        r matches Some(m) ==> spec_parse_signature_member(c@) == Some(m@),
    decreases c, 3nat,
{
    if c.is_kind("method_signature") {
        match parse_function_declaration(c) {
            Some(f) => Some(InterfaceMember::Method(f)),
            None => None,
        }
    } else if c.is_kind("construct_signature") {
        match parse_construct_signature(c) {
            Some(f) => Some(InterfaceMember::Method(f)),
            None => None,
        }
    } else if c.is_kind("property_signature") {
        match c.field_position("type") {
            Some(k) => {
                if c.children.len() == 0 {
                    return None;
                }
                proof {
                    assert(decreases_to!(c => c.children@[k as int]));
                    assert(c@.children[k as int] == c.children@[k as int]@);
                }
                let ty = parse_type(&c.children[k]);
                let readonly = c.first_child_is("readonly");
                match (field_text_of(c, "name"), ty) {
                    (Some(name), Some(t)) => Some(
                        InterfaceMember::Property(ArtelProperty::new(readonly, Identifier(name), t)),
                    ),
                    _ => None,
                }
            },
            None => None,
        }
    } else if c.is_kind("index_signature") || c.is_kind("call_signature") {
        match node_text(c) {
            Some(t) => Some(InterfaceMember::Unsupported(t)),
            None => None,
        }
    } else {
        None
    }
}

/// The type read from the first named child of the child filling field `f`.
fn bound_type(c: &SyntaxNode, f: &str) -> (r: Option<Option<Type>>)
    ensures
        r is Some <==> spec_bound_type(c@, f@) is Some,
        r matches Some(t) ==> spec_bound_type(c@, f@) == Some(crate::ast_type::option_type_model(t)),
    decreases c, 1nat,
{
    match c.field_position(f) {
        Some(k) => {
            assert(c@.children[k as int] == c.children@[k as int]@);
            let b = &c.children[k];
            match b.first_named_position() {
                Some(m) => {
                    proof {
                        assert(decreases_to!(c => c.children@[k as int]));
                        assert(decreases_to!(c.children@[k as int] => b.children@[m as int]));
                        assert(b@.children[m as int] == b.children@[m as int]@);
                    }
                    match parse_type(&b.children[m]) {
                        Some(t) => Some(Some(t)),
                        None => None,
                    }
                },
                None => None,
            }
        },
        None => Some(None),
    }
}

fn parse_type_parameter(c: &SyntaxNode) -> (r: Option<TypeParameter>)
    ensures
        r is Some <==> spec_parse_type_parameter(c@) is Some,
        r matches Some(p) ==> spec_parse_type_parameter(c@) == Some(p@),
    decreases c, 2nat,
{
    let name = field_text_of(c, "name");
    let constraint = bound_type(c, "constraint");
    let default = bound_type(c, "value");
    match (name, constraint, default) {
        (Some(nm), Some(co), Some(d)) => Some(TypeParameter::new(Identifier(nm), co, d)),
        _ => None,
    }
}

/// Reads the type parameters `<T, U extends V = W>`.
pub fn parse_type_parameters(node: &SyntaxNode) -> (r: Option<Vec<TypeParameter>>)
    ensures
        r is Some <==> spec_parse_type_parameters(node@) is Some,
        r matches Some(v) ==> spec_parse_type_parameters(node@) == Some(
            crate::ast_type::type_params_model(v),
        ),
    decreases node, 1nat,
{
    let n = node.children.len();
    let mut out: Vec<TypeParameter> = Vec::new();
    let mut j: usize = 0;
    while j < n
        invariant
            j <= n == node.children.len(),
            node@.children.len() == n,
            spec_type_parameters_upto(node@, j as int) == Some(
                crate::ast_type::type_params_model(out),
            ),
        decreases n - j,
    {
        assert(node@.children[j as int] == node.children@[j as int]@);
        if node.children[j].named {
            proof {
                assert(decreases_to!(node => node.children@[j as int]));
            }
            match parse_type_parameter(&node.children[j]) {
                Some(t) => {
                    let ghost before = out;
                    out.push(t);
                    assert(crate::ast_type::type_params_model(out) =~= crate::ast_type::type_params_model(
                        before,
                    ).push(t@));
                },
                None => {
                    proof {
                        lemma_type_parameters_fails(node@, j + 1, n as int);
                    }
                    return None;
                },
            }
        }
        j = j + 1;
    }
    Some(out)
}

fn parse_argument(c: &SyntaxNode) -> (r: Option<ArtelFunctionArgument>)
    ensures
        r is Some <==> spec_parse_argument(c@) is Some,
        r matches Some(a) ==> spec_parse_argument(c@) == Some(a@),
    decreases c, 1nat,
{
    let ty = match c.field_position("type") {
        Some(k) => {
            proof {
                assert(decreases_to!(c => c.children@[k as int]));
                assert(c@.children[k as int] == c.children@[k as int]@);
            }
            parse_type(&c.children[k])
        },
        None => {
            let t = Type(vec![PrimaryType::UnsupportedAny(owned("no_type"))]);
            assert(t@.items =~= no_type().items);
            Some(t)
        },
    };
    let name = field_text_of(c, "pattern");
    match (name, ty) {
        (Some(nm), Some(t)) => {
            let mut arg_type = t;
            let mut default_value: Option<ArtelExpression> = None;
            if c.is_kind("optional_parameter") {
                let ghost before = arg_type@;
                arg_type.0.push(PrimaryType::LiteralType(LiteralType::Undefined));
                assert(arg_type@.items =~= with_undefined(before).items);
                default_value = Some(ArtelExpression(owned("пусто")));
            }
            if c.field_position("value").is_some() {
                match field_text_of(c, "value") {
                    Some(v) => {
                        default_value = Some(ArtelExpression(v));
                    },
                    None => {
                        return None;
                    },
                }
            }
            Some(ArtelFunctionArgument::new(Identifier(nm), arg_type, default_value))
        },
        _ => None,
    }
}

/// Reads the formal arguments `(a: T, b?: U, c = 1)`.
pub fn parse_formal_arguments(node: &SyntaxNode) -> (r: Option<Vec<ArtelFunctionArgument>>)
    ensures
        r is Some <==> spec_parse_formal_arguments(node@) is Some,
        r matches Some(v) ==> spec_parse_formal_arguments(node@) == Some(
            crate::ast_type::arguments_model(v),
        ),
    decreases node, 1nat,
{
    let n = node.children.len();
    let mut out: Vec<ArtelFunctionArgument> = Vec::new();
    let mut j: usize = 0;
    while j < n
        invariant
            j <= n == node.children.len(),
            node@.children.len() == n,
            spec_arguments_upto(node@, j as int) == Some(crate::ast_type::arguments_model(out)),
        decreases n - j,
    {
        assert(node@.children[j as int] == node.children@[j as int]@);
        if node.children[j].named {
            proof {
                assert(decreases_to!(node => node.children@[j as int]));
            }
            match parse_argument(&node.children[j]) {
                Some(a) => {
                    let ghost before = out;
                    out.push(a);
                    assert(crate::ast_type::arguments_model(out) =~= crate::ast_type::arguments_model(
                        before,
                    ).push(a@));
                },
                None => {
                    proof {
                        lemma_arguments_fails(node@, j + 1, n as int);
                    }
                    return None;
                },
            }
        }
        j = j + 1;
    }
    Some(out)
}

/// The type parameters in field `type_parameters`, none when there is no such field.
pub fn generics_of(node: &SyntaxNode) -> (r: Option<Vec<TypeParameter>>)
    ensures
        r is Some <==> spec_generics_of(node@) is Some,
        r matches Some(v) ==> spec_generics_of(node@) == Some(crate::ast_type::type_params_model(v)),
    decreases node, 1nat,
{
    match node.field_position("type_parameters") {
        Some(k) => {
            proof {
                assert(decreases_to!(node => node.children@[k as int]));
                assert(node@.children[k as int] == node.children@[k as int]@);
            }
            parse_type_parameters(&node.children[k])
        },
        None => {
            let empty: Vec<TypeParameter> = Vec::new();
            assert(crate::ast_type::type_params_model(empty) =~= seq![]);
            Some(empty)
        },
    }
}

/// The type in field `f`, `Some(None)` when there is no such field.
pub fn optional_type(node: &SyntaxNode, f: &str) -> (r: Option<Option<Type>>)
    ensures
        r is Some <==> spec_optional_type(node@, f@) is Some,
        r matches Some(t) ==> spec_optional_type(node@, f@) == Some(
            crate::ast_type::option_type_model(t),
        ),
    decreases node, 1nat,
{
    match node.field_position(f) {
        Some(k) => {
            proof {
                assert(decreases_to!(node => node.children@[k as int]));
                assert(node@.children[k as int] == node.children@[k as int]@);
            }
            match parse_type(&node.children[k]) {
                Some(t) => Some(Some(t)),
                None => None,
            }
        },
        None => Some(None),
    }
}

/// The arguments in field `parameters`.
fn parameters_of(node: &SyntaxNode) -> (r: Option<Vec<ArtelFunctionArgument>>)
    ensures
        r is Some <==> spec_parameters_of(node@) is Some,
        r matches Some(v) ==> spec_parameters_of(node@) == Some(crate::ast_type::arguments_model(v)),
    decreases node, 1nat,
{
    match node.field_position("parameters") {
        Some(k) => {
            proof {
                assert(decreases_to!(node => node.children@[k as int]));
                assert(node@.children[k as int] == node.children@[k as int]@);
            }
            parse_formal_arguments(&node.children[k])
        },
        None => None,
    }
}

/// Reads a function declaration or signature.
pub fn parse_function_declaration(node: &SyntaxNode) -> (r: Option<FunctionDeclaration>)
    ensures
        r is Some <==> spec_parse_function(node@) is Some,
        !has_field(node@, "name"@) ==> r is None,
        r matches Some(f) ==> spec_parse_function(node@) == Some(f@),
    decreases node, 2nat,
{
    if node.children.len() == 0 {
        return None;
    }
    let is_async = node.first_child_is("async");
    let name = field_text_of(node, "name");
    let generics = generics_of(node);
    let args = parameters_of(node);
    let ret = optional_type(node, "return_type");
    match (name, generics, args, ret) {
        (Some(nm), Some(g), Some(a), Some(r)) => Some(
            FunctionDeclaration::new(is_async, Identifier(nm), g, a, r),
        ),
        _ => None,
    }
}

/// Reads a construct signature as a function called `constructor`.
pub fn parse_construct_signature(node: &SyntaxNode) -> (r: Option<FunctionDeclaration>)
    ensures
        r is Some <==> spec_parse_construct_signature(node@) is Some,
        r matches Some(f) ==> spec_parse_construct_signature(node@) == Some(f@),
    decreases node, 2nat,
{
    if node.children.len() == 0 {
        return None;
    }
    let is_async = node.first_child_is("async");
    let generics = generics_of(node);
    let args = parameters_of(node);
    let ret = optional_type(node, "type");
    match (generics, args, ret) {
        (Some(g), Some(a), Some(r)) => Some(
            FunctionDeclaration::new(is_async, Identifier(owned("constructor")), g, a, r),
        ),
        _ => None,
    }
}

} // verus!
