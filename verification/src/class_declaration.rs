//! `class` declarations, rendered as Artel object types.
//!
//! Getters and setters of a class are not rendered as methods: each name with
//! a getter, a setter or both becomes one property with `при чтении` and
//! `при записи` blocks, listed after the other members.

use vstd::prelude::*;
use crate::artel_str::ArtelStr;
use crate::ast_type::{
    Identifier, Type, TypeModel, GenericParams, TypeParamModel, ArtelProperty, PropertyModel,
    FunctionDeclaration, FunctionModel, type_params_model, type_params_ok, generics_text,
    generic_params_str, type_ok, types_ok, types_model, type_text, function_ok,
    property_text_with_modifier, function_text_with_modifier, type_params_can_render,
    types_can_render, arguments_ok, return_ok,
};
use crate::text::{spaces, join_text, texts, indent, owned, join_strings, lemma_texts_push};

verus! {

broadcast use vstd::std_specs::vec::group_vec_axioms;

// ---------------------------------------------------------------------------
// Data
// ---------------------------------------------------------------------------

#[derive(Clone, Copy, PartialEq, Eq, Structural)]
pub enum GetterSetter {
    NoAccessor,
    Getter,
    Setter,
}

#[derive(Clone, Copy, PartialEq, Eq, Structural)]
pub enum ArtelAccessModifier {
    Default,
    Public,
    Private,
    Protected,
}

#[derive(Clone, Copy, PartialEq, Eq, Structural)]
pub enum ArtelModifier {
    NoModifier,
    Abstract,
    Static,
}

#[derive(Clone, Copy, PartialEq, Eq, Structural)]
pub struct ClassMemberModifiers {
    pub access_modifier: ArtelAccessModifier,
    pub modifier: ArtelModifier,
}

pub enum ArtelClassMember {
    Property((ClassMemberModifiers, ArtelProperty)),
    Method((ClassMemberModifiers, GetterSetter, FunctionDeclaration)),
}

pub struct ArtelClassDeclaration {
    pub name: Identifier,
    pub extends: Option<(Identifier, GenericParams)>,
    pub implements: Vec<Type>,
    pub is_abstract: bool,
    pub generic_params: GenericParams,
    pub body: Vec<ArtelClassMember>,
}

/// A property assembled from the getter and the setter of one name.
struct PropertyAccessExpression<'a> {
    name: &'a Identifier,
    ty: &'a Type,
    get: bool,
    set: bool,
}

// ---------------------------------------------------------------------------
// Models
// ---------------------------------------------------------------------------

pub enum ClassMemberModel {
    Property(ClassMemberModifiers, PropertyModel),
    Method(ClassMemberModifiers, GetterSetter, FunctionModel),
}

/// A property made of accessors: its name, its type and which accessors it has.
pub struct AccessorModel {
    pub name: Seq<char>,
    pub ty: TypeModel,
    pub get: bool,
    pub set: bool,
}

pub struct ClassModel {
    pub name: Seq<char>,
    pub extends: Option<(Seq<char>, Seq<TypeParamModel>)>,
    pub implements: Seq<TypeModel>,
    pub is_abstract: bool,
    pub generics: Seq<TypeParamModel>,
    pub body: Seq<ClassMemberModel>,
}

pub open spec fn class_member_model(m: ArtelClassMember) -> ClassMemberModel {
    match m {
        ArtelClassMember::Property((md, p)) => ClassMemberModel::Property(md, p@),
        ArtelClassMember::Method((md, gs, f)) => ClassMemberModel::Method(md, gs, f@),
    }
}

impl View for ArtelClassMember {
    type V = ClassMemberModel;

    open spec fn view(&self) -> ClassMemberModel {
        class_member_model(*self)
    }
}

impl View for ArtelClassDeclaration {
    type V = ClassModel;

    open spec fn view(&self) -> ClassModel {
        ClassModel {
            name: self.name@,
            extends: match self.extends {
                Some((id, ps)) => Some((id@, type_params_model(ps))),
                None => None,
            },
            implements: types_model(self.implements),
            is_abstract: self.is_abstract,
            generics: type_params_model(self.generic_params),
            body: self.body@.map_values(|m: ArtelClassMember| m@),
        }
    }
}

impl<'a> View for PropertyAccessExpression<'a> {
    type V = AccessorModel;

    closed spec fn view(&self) -> AccessorModel {
        AccessorModel { name: self.name@, ty: self.ty@, get: self.get, set: self.set }
    }
}

spec fn accessor_models<'a>(v: Seq<PropertyAccessExpression<'a>>) -> Seq<AccessorModel> {
    v.map_values(|p: PropertyAccessExpression<'a>| p@)
}

// ---------------------------------------------------------------------------
// Rendered text
// ---------------------------------------------------------------------------

pub open spec fn access_modifier_text(a: ArtelAccessModifier) -> Seq<char> {
    match a {
        ArtelAccessModifier::Default => seq![],
        ArtelAccessModifier::Public => "/*(!) public */"@,
        ArtelAccessModifier::Private => "/*(!) private */"@,
        ArtelAccessModifier::Protected => "скрыто типом"@,
    }
}

pub open spec fn modifier_text(m: ArtelModifier) -> Seq<char> {
    match m {
        ArtelModifier::NoModifier => seq![],
        ArtelModifier::Abstract => "/*(!) абстрактный */"@,
        ArtelModifier::Static => "глобальный"@,
    }
}

/// The non-empty modifier words, each followed by a space.
pub open spec fn modifiers_text(m: ClassMemberModifiers) -> Seq<char> {
    let a = access_modifier_text(m.access_modifier);
    let b = modifier_text(m.modifier);
    (if a.len() > 0 {
        a + " "@
    } else {
        seq![]
    }) + (if b.len() > 0 {
        b + " "@
    } else {
        seq![]
    })
}

/// A getter or a setter.
pub open spec fn is_accessor(m: ClassMemberModel) -> bool {
    m matches ClassMemberModel::Method(_, gs, _) && gs != GetterSetter::NoAccessor
}

/// A setter has an argument, the value it sets; a getter has a return type.
pub open spec fn accessor_ok(m: ClassMemberModel) -> bool {
    match m {
        ClassMemberModel::Method(_, GetterSetter::Setter, f) => f.args.len() > 0,
        ClassMemberModel::Method(_, GetterSetter::Getter, f) => f.ret is Some,
        _ => true,
    }
}

/// The property that one accessor describes: a setter's type is that of its
/// first argument, a getter's that of its result.
pub open spec fn accessor_of(m: ClassMemberModel) -> AccessorModel {
    match m {
        ClassMemberModel::Method(_, gs, f) => AccessorModel {
            name: f.name,
            ty: if gs == GetterSetter::Setter {
                f.args[0].ty
            } else {
                match f.ret {
                    Some(t) => t,
                    None => arbitrary(),
                }
            },
            get: gs == GetterSetter::Getter,
            set: gs == GetterSetter::Setter,
        },
        _ => arbitrary(),
    }
}

/// The position of the first property called `name`, or -1.
pub open spec fn first_with_name(list: Seq<AccessorModel>, name: Seq<char>) -> int
    decreases list.len(),
{
    if list.len() == 0 {
        -1
    } else if list[0].name == name {
        0
    } else {
        let k = first_with_name(list.drop_first(), name);
        if k < 0 {
            -1
        } else {
            k + 1
        }
    }
}

/// Adds one accessor: to the property of the same name when there is one, else
/// as a new property at the end.
pub open spec fn merge_accessor(list: Seq<AccessorModel>, p: AccessorModel) -> Seq<AccessorModel> {
    let k = first_with_name(list, p.name);
    if k < 0 {
        list.push(p)
    } else {
        list.update(
            k,
            AccessorModel { get: list[k].get || p.get, set: list[k].set || p.set, ..list[k] },
        )
    }
}

/// A property takes at most one getter and one setter.
pub open spec fn merge_accepts(list: Seq<AccessorModel>, p: AccessorModel) -> bool {
    let k = first_with_name(list, p.name);
    k >= 0 ==> list[k].get != p.get && list[k].set != p.set
}

/// The properties made of the accessors of `body`, in the order of their first accessor.
pub open spec fn class_accessors(body: Seq<ClassMemberModel>) -> Seq<AccessorModel>
    decreases body.len(),
{
    if body.len() == 0 {
        seq![]
    } else {
        let prev = class_accessors(body.drop_last());
        if is_accessor(body.last()) {
            merge_accessor(prev, accessor_of(body.last()))
        } else {
            prev
        }
    }
}

/// Every accessor of `body` names its type and no name has two getters or two setters.
pub open spec fn accessors_ok(body: Seq<ClassMemberModel>) -> bool
    decreases body.len(),
{
    body.len() == 0 || {
        &&& accessors_ok(body.drop_last())
        &&& is_accessor(body.last()) ==> accessor_ok(body.last()) && merge_accepts(
            class_accessors(body.drop_last()),
            accessor_of(body.last()),
        )
    }
}

pub open spec fn class_member_text(m: ClassMemberModel, ident_level: nat) -> Seq<char> {
    match m {
        ClassMemberModel::Property(md, p) => property_text_with_modifier(
            p,
            modifiers_text(md),
            ident_level,
        ),
        ClassMemberModel::Method(md, _, f) => function_text_with_modifier(
            f,
            modifiers_text(md),
            ident_level,
        ),
    }
}

/// The renderings of the members that are not accessors, in order.
pub open spec fn plain_member_texts(body: Seq<ClassMemberModel>, ident_level: nat) -> Seq<Seq<char>>
    decreases body.len(),
{
    if body.len() == 0 {
        seq![]
    } else {
        let prev = plain_member_texts(body.drop_last(), ident_level);
        if is_accessor(body.last()) {
            prev
        } else {
            prev.push(class_member_text(body.last(), ident_level))
        }
    }
}

pub open spec fn accessor_text(p: AccessorModel, ident_level: nat) -> Seq<char> {
    spaces(ident_level) + p.name + ": "@ + type_text(p.ty) + (if p.get {
        "\n"@ + spaces(ident_level + 2) + "при чтении { }"@
    } else {
        seq![]
    }) + (if p.set {
        "\n"@ + spaces(ident_level + 2) + "при записи { }"@
    } else {
        seq![]
    })
}

pub open spec fn accessor_texts(ps: Seq<AccessorModel>, ident_level: nat) -> Seq<Seq<char>> {
    Seq::new(ps.len(), |i: int| accessor_text(ps[i], ident_level))
}

pub open spec fn implements_texts(ts: Seq<TypeModel>) -> Seq<Seq<char>> {
    Seq::new(ts.len(), |i: int| type_text(ts[i]))
}

/// The extended class and the implemented types.
pub open spec fn heritage_parts(c: ClassModel) -> Seq<Seq<char>> {
    (match c.extends {
        Some((n, ps)) => seq![n + generics_text(ps)],
        None => seq![],
    }) + implements_texts(c.implements)
}

pub open spec fn heritage_text(c: ClassModel) -> Seq<char> {
    let parts = heritage_parts(c);
    if parts.len() > 0 {
        " на основе "@ + join_text(parts, ", "@)
    } else {
        seq![]
    }
}

pub open spec fn class_header_text(c: ClassModel, ident_level: nat) -> Seq<char> {
    spaces(ident_level) + "тип "@ + c.name + generics_text(c.generics) + (if c.is_abstract {
        " = /*(!) абстрактный */ объект"@
    } else {
        " = объект"@
    }) + heritage_text(c) + "\n"@ + spaces(ident_level) + "{\n"@
}

/// The members that are not accessors first, then the properties made of accessors.
pub open spec fn class_text(c: ClassModel, ident_level: nat) -> Seq<char> {
    class_header_text(c, ident_level) + join_text(
        plain_member_texts(c.body, ident_level + 2) + accessor_texts(
            class_accessors(c.body),
            ident_level + 2,
        ),
        "\n\n"@,
    ) + "\n"@ + spaces(ident_level) + "}"@
}

/// A member that is rendered on its own: no accessor, renderable types.
pub open spec fn class_member_ready(m: ClassMemberModel, ident_level: nat) -> bool {
    &&& ident_level <= 100
    &&& match m {
        ClassMemberModel::Property(_, p) => type_ok(p.ty),
        ClassMemberModel::Method(_, gs, f) => gs == GetterSetter::NoAccessor && function_ok(f),
    }
}

pub open spec fn class_ready(c: ClassModel, ident_level: nat) -> bool {
    &&& ident_level <= 100
    &&& type_params_ok(c.generics)
    &&& match c.extends {
        Some((_, ps)) => type_params_ok(ps),
        None => true,
    }
    &&& types_ok(c.implements)
    &&& forall|i: int|
        0 <= i < c.body.len() && !is_accessor(#[trigger] c.body[i]) ==> class_member_ready(
            c.body[i],
            ident_level + 2,
        )
    &&& accessors_ok(c.body)
    &&& forall|k: int|
        0 <= k < class_accessors(c.body).len() ==> type_ok(#[trigger] class_accessors(c.body)[k].ty)
    &&& class_accessors(c.body).len() > 0 ==> ident_level + 4 <= 100
}

// ---------------------------------------------------------------------------
// Lemmas
// ---------------------------------------------------------------------------

proof fn lemma_first_with_name(list: Seq<AccessorModel>, name: Seq<char>, k: int)
    requires
        0 <= k <= list.len(),
        forall|i: int| 0 <= i < k ==> (#[trigger] list[i]).name != name,
        k < list.len() ==> list[k].name == name,
    ensures
        first_with_name(list, name) == if k < list.len() {
            k
        } else {
            -1
        },
    decreases list.len(),
{
    if list.len() > 0 && k > 0 {
        assert(list[0].name != name);
        let rest = list.drop_first();
        assert forall|i: int| 0 <= i < k - 1 implies (#[trigger] rest[i]).name != name by {
            assert(rest[i] == list[i + 1]);
        }
        if k < list.len() {
            assert(rest[k - 1] == list[k]);
        }
        lemma_first_with_name(rest, name, k - 1);
    }
}

proof fn lemma_first_with_name_bounds(list: Seq<AccessorModel>, name: Seq<char>)
    ensures
        -1 <= first_with_name(list, name) < list.len(),
        first_with_name(list, name) >= 0 ==> list[first_with_name(list, name)].name == name,
    decreases list.len(),
{
    if list.len() > 0 && list[0].name != name {
        lemma_first_with_name_bounds(list.drop_first(), name);
    }
}

/// Whether `body` holds an accessor of kind `gs` called `name`.
pub open spec fn has_accessor_named(body: Seq<ClassMemberModel>, gs: GetterSetter, name: Seq<char>) -> bool {
    exists|k: int|
        0 <= k < body.len() && (#[trigger] body[k] matches ClassMemberModel::Method(_, g, f) && g == gs
            && f.name == name)
}

proof fn lemma_first_with_name_none(list: Seq<AccessorModel>, name: Seq<char>, i: int)
    requires
        first_with_name(list, name) < 0,
        0 <= i < list.len(),
    ensures
        list[i].name != name,
    decreases list.len(),
{
    if list[0].name != name && i > 0 {
        assert(list.drop_first()[i - 1] == list[i]);
        lemma_first_with_name_none(list.drop_first(), name, i - 1);
    }
}

/// A class's heritage clause is empty exactly when the class neither extends
/// a class nor implements a type. Otherwise it is ` на основе ` followed by
/// the extended class, first, and then the implemented types, joined with `, `.
pub proof fn law_heritage_clause(c: ClassModel)
    ensures
        (heritage_text(c).len() == 0) <==> (c.extends is None && c.implements.len() == 0),
        c.extends matches Some((n, ps)) ==> heritage_text(c) == " на основе "@ + join_text(
            seq![n + generics_text(ps)] + implements_texts(c.implements),
            ", "@,
        ),
        c.extends is None && c.implements.len() > 0 ==> heritage_text(c) == " на основе "@
            + join_text(implements_texts(c.implements), ", "@),
{
    reveal_strlit(" на основе ");
    let parts = heritage_parts(c);
    if c.extends is None {
        assert(parts =~= implements_texts(c.implements));
    }
}

/// The properties made of a class's accessors carry distinct names, and a
/// property has a getter (a setter) exactly when the class has a getter (a
/// setter) of that name; every accessor's name has its property.
pub proof fn law_accessor_properties(body: Seq<ClassMemberModel>)
    ensures
        forall|i: int, j: int|
            0 <= i < j < class_accessors(body).len() ==> (#[trigger] class_accessors(body)[i]).name
                != (#[trigger] class_accessors(body)[j]).name,
        forall|i: int|
            0 <= i < class_accessors(body).len() ==> {
                &&& (#[trigger] class_accessors(body)[i]).get == has_accessor_named(
                    body,
                    GetterSetter::Getter,
                    class_accessors(body)[i].name,
                )
                &&& class_accessors(body)[i].set == has_accessor_named(
                    body,
                    GetterSetter::Setter,
                    class_accessors(body)[i].name,
                )
            },
        forall|k: int|
            0 <= k < body.len() && is_accessor(#[trigger] body[k]) ==> exists|i: int|
                0 <= i < class_accessors(body).len() && class_accessors(body)[i].name
                    == accessor_of(body[k]).name,
    decreases body.len(),
{
    if body.len() == 0 {
        return;
    }
    let prev = body.drop_last();
    let m = body.last();
    law_accessor_properties(prev);
    let acc = class_accessors(prev);
    let acc2 = class_accessors(body);
    assert forall|gs: GetterSetter, name: Seq<char>|
        !(m matches ClassMemberModel::Method(_, g, f) && g == gs && f.name == name) implies
        has_accessor_named(body, gs, name) == has_accessor_named(prev, gs, name) by {
        if has_accessor_named(body, gs, name) {
            let k = choose|k: int|
                0 <= k < body.len() && (#[trigger] body[k] matches ClassMemberModel::Method(_, g, f)
                    && g == gs && f.name == name);
            assert(k < prev.len());
            assert(prev[k] == body[k]);
        }
        if has_accessor_named(prev, gs, name) {
            let k = choose|k: int|
                0 <= k < prev.len() && (#[trigger] prev[k] matches ClassMemberModel::Method(_, g, f)
                    && g == gs && f.name == name);
            assert(body[k] == prev[k]);
        }
    }
    if !is_accessor(m) {
        assert(acc2 == acc);
        assert forall|k: int| 0 <= k < body.len() && is_accessor(#[trigger] body[k]) implies exists|
            i: int,
        | 0 <= i < acc2.len() && acc2[i].name == accessor_of(body[k]).name by {
            assert(k < prev.len());
            assert(prev[k] == body[k]);
        }
    } else {
        let p = accessor_of(m);
        let kk = first_with_name(acc, p.name);
        lemma_first_with_name_bounds(acc, p.name);
        assert(has_accessor_named(body, GetterSetter::Getter, p.name) == (has_accessor_named(
            prev,
            GetterSetter::Getter,
            p.name,
        ) || p.get)) by {
            if p.get {
                assert(body[body.len() - 1] == m);
            }
        }
        assert(has_accessor_named(body, GetterSetter::Setter, p.name) == (has_accessor_named(
            prev,
            GetterSetter::Setter,
            p.name,
        ) || p.set)) by {
            if p.set {
                assert(body[body.len() - 1] == m);
            }
        }
        if kk < 0 {
            assert(acc2 == acc.push(p));
            assert forall|i: int| 0 <= i < acc.len() implies (#[trigger] acc[i]).name != p.name by {
                lemma_first_with_name_none(acc, p.name, i);
            }
            assert(!has_accessor_named(prev, GetterSetter::Getter, p.name)) by {
                if has_accessor_named(prev, GetterSetter::Getter, p.name) {
                    let k = choose|k: int|
                        0 <= k < prev.len() && (#[trigger] prev[k] matches ClassMemberModel::Method(
                            _,
                            g,
                            f,
                        ) && g == GetterSetter::Getter && f.name == p.name);
                    assert(is_accessor(prev[k]));
                    assert(accessor_of(prev[k]).name == p.name);
                }
            }
            assert(!has_accessor_named(prev, GetterSetter::Setter, p.name)) by {
                if has_accessor_named(prev, GetterSetter::Setter, p.name) {
                    let k = choose|k: int|
                        0 <= k < prev.len() && (#[trigger] prev[k] matches ClassMemberModel::Method(
                            _,
                            g,
                            f,
                        ) && g == GetterSetter::Setter && f.name == p.name);
                    assert(is_accessor(prev[k]));
                    assert(accessor_of(prev[k]).name == p.name);
                }
            }
            assert forall|k: int| 0 <= k < body.len() && is_accessor(#[trigger] body[k]) implies exists|
                i: int,
            | 0 <= i < acc2.len() && acc2[i].name == accessor_of(body[k]).name by {
                if k == body.len() - 1 {
                    assert(acc2[acc.len() as int].name == p.name);
                } else {
                    assert(prev[k] == body[k]);
                    let i = choose|i: int|
                        0 <= i < acc.len() && acc[i].name == accessor_of(prev[k]).name;
                    assert(acc2[i] == acc[i]);
                }
            }
        } else {
            let merged = AccessorModel { get: acc[kk].get || p.get, set: acc[kk].set || p.set, ..acc[kk] };
            assert(acc2 == acc.update(kk, merged));
            assert forall|k: int| 0 <= k < body.len() && is_accessor(#[trigger] body[k]) implies exists|
                i: int,
            | 0 <= i < acc2.len() && acc2[i].name == accessor_of(body[k]).name by {
                if k == body.len() - 1 {
                    assert(acc2[kk].name == p.name);
                } else {
                    assert(prev[k] == body[k]);
                    let i = choose|i: int|
                        0 <= i < acc.len() && acc[i].name == accessor_of(prev[k]).name;
                    assert(acc2[i].name == acc[i].name);
                }
            }
            assert forall|i: int| 0 <= i < acc2.len() && i != kk implies (#[trigger] acc2[i]).name
                != p.name by {
                assert(acc2[i] == acc[i]);
                if i < kk {
                    assert(acc[i].name != acc[kk].name);
                } else {
                    assert(acc[kk].name != acc[i].name);
                }
            }
        }
    }
}

/// Every type of a member can be rendered.
pub open spec fn class_member_types_ok(m: ClassMemberModel) -> bool {
    match m {
        ClassMemberModel::Property(_, p) => type_ok(p.ty),
        ClassMemberModel::Method(_, _, f) => function_ok(f),
    }
}

/// Every type in the class can be rendered.
pub open spec fn class_types_ok(c: ClassModel) -> bool {
    &&& type_params_ok(c.generics)
    &&& match c.extends {
        Some((_, ps)) => type_params_ok(ps),
        None => true,
    }
    &&& types_ok(c.implements)
    &&& forall|i: int| 0 <= i < c.body.len() ==> class_member_types_ok(#[trigger] c.body[i])
}

/// What rendering a class needs besides renderable types: indentation within
/// 100 for its members and accessor blocks, and accessors that name their
/// types and come at most once each.
pub open spec fn class_shape_ok(c: ClassModel, ident_level: nat) -> bool {
    &&& ident_level <= 100
    &&& forall|i: int|
        0 <= i < c.body.len() && !is_accessor(#[trigger] c.body[i]) ==> ident_level + 2 <= 100
    &&& accessors_ok(c.body)
    &&& class_accessors(c.body).len() > 0 ==> ident_level + 4 <= 100
}

proof fn lemma_accessor_types(body: Seq<ClassMemberModel>)
    requires
        accessors_ok(body),
        forall|i: int| 0 <= i < body.len() ==> class_member_types_ok(#[trigger] body[i]),
    ensures
        forall|k: int|
            0 <= k < class_accessors(body).len() ==> type_ok(#[trigger] class_accessors(body)[k].ty),
    decreases body.len(),
{
    if body.len() > 0 {
        let prev = body.drop_last();
        let m = body.last();
        assert forall|i: int| 0 <= i < prev.len() implies class_member_types_ok(#[trigger] prev[i]) by {
            assert(prev[i] == body[i]);
        }
        lemma_accessor_types(prev);
        assert(class_member_types_ok(body[body.len() - 1]));
        if is_accessor(m) {
            let acc = class_accessors(prev);
            let p = accessor_of(m);
            lemma_first_with_name_bounds(acc, p.name);
            if let ClassMemberModel::Method(_, gs, f) = m {
                assert(function_ok(f));
                if gs == GetterSetter::Setter {
                    assert(arguments_ok(f.args));
                    assert(type_ok(f.args[0].ty));
                } else {
                    assert(return_ok(f.ret));
                }
            }
            assert(type_ok(p.ty));
            let acc2 = class_accessors(body);
            let kk = first_with_name(acc, p.name);
            if kk < 0 {
                assert(acc2 == acc.push(p));
                assert forall|k: int| 0 <= k < acc2.len() implies type_ok(#[trigger] acc2[k].ty) by {
                    if k < acc.len() {
                        assert(acc2[k] == acc[k]);
                    }
                }
            } else {
                let merged = AccessorModel {
                    get: acc[kk].get || p.get,
                    set: acc[kk].set || p.set,
                    ..acc[kk]
                };
                assert(acc2 == acc.update(kk, merged));
                assert forall|k: int| 0 <= k < acc2.len() implies type_ok(#[trigger] acc2[k].ty) by {
                    if k != kk {
                        assert(acc2[k] == acc[k]);
                    }
                }
            }
        } else {
            assert(class_accessors(body) == class_accessors(prev));
        }
    }
}

/// With renderable types, a class renders exactly when its shape allows.
pub proof fn lemma_class_ready_by_shape(c: ClassModel, ident_level: nat)
    requires
        class_types_ok(c),
    ensures
        class_ready(c, ident_level) <==> class_shape_ok(c, ident_level),
{
    if class_shape_ok(c, ident_level) {
        lemma_accessor_types(c.body);
        assert forall|i: int|
            0 <= i < c.body.len() && !is_accessor(#[trigger] c.body[i]) implies class_member_ready(
            c.body[i],
            ident_level + 2,
        ) by {
            assert(class_member_types_ok(c.body[i]));
        }
    }
    if class_ready(c, ident_level) {
        assert forall|i: int|
            0 <= i < c.body.len() && !is_accessor(#[trigger] c.body[i]) implies ident_level + 2
            <= 100 by {
            assert(class_member_ready(c.body[i], ident_level + 2));
        }
    }
}

// ---------------------------------------------------------------------------
// Rendering
// ---------------------------------------------------------------------------

/// The access modifier spelled `public`, `protected` or `private`, if `s` is one of them.
pub open spec fn access_modifier_of(s: Seq<char>) -> Option<ArtelAccessModifier> {
    if s == "public"@ {
        Some(ArtelAccessModifier::Public)
    } else if s == "protected"@ {
        Some(ArtelAccessModifier::Protected)
    } else if s == "private"@ {
        Some(ArtelAccessModifier::Private)
    } else {
        None
    }
}

/// Looks up the access modifier spelled `value`.
pub fn access_modifier_from(value: &str) -> (r: Option<ArtelAccessModifier>)
    ensures
        r == access_modifier_of(value@),
{
    let s = owned(value);
    if crate::text::text_is(&s, "public") {
        Some(ArtelAccessModifier::Public)
    } else if crate::text::text_is(&s, "protected") {
        Some(ArtelAccessModifier::Protected)
    } else if crate::text::text_is(&s, "private") {
        Some(ArtelAccessModifier::Private)
    } else {
        None
    }
}

impl ArtelAccessModifier {
    /// The access modifier spelled `public`, `protected` or `private`.
    pub fn from(value: &str) -> (r: Self)
        requires
            access_modifier_of(value@) is Some,
        ensures
            Some(r) == access_modifier_of(value@),
    {
        match access_modifier_from(value) {
            Some(a) => a,
            None => ArtelAccessModifier::Default,
        }
    }

    pub fn render(&self) -> (r: String)
        ensures
            r@ == access_modifier_text(*self),
    {
        match self {
            ArtelAccessModifier::Default => String::new(),
            ArtelAccessModifier::Public => owned("/*(!) public */"),
            ArtelAccessModifier::Private => owned("/*(!) private */"),
            ArtelAccessModifier::Protected => owned("скрыто типом"),
        }
    }
}

impl Default for ArtelAccessModifier {
    fn default() -> (r: Self)
        ensures
            r == ArtelAccessModifier::Default,
    {
        ArtelAccessModifier::Default
    }
}

impl ArtelModifier {
    pub fn render(&self) -> (r: String)
        ensures
            r@ == modifier_text(*self),
    {
        match self {
            ArtelModifier::NoModifier => String::new(),
            ArtelModifier::Abstract => owned("/*(!) абстрактный */"),
            ArtelModifier::Static => owned("глобальный"),
        }
    }
}

impl ClassMemberModifiers {
    pub fn new(access_modifier: ArtelAccessModifier, modifier: ArtelModifier) -> (r: Self)
        ensures
            r.access_modifier == access_modifier,
            r.modifier == modifier,
    {
        ClassMemberModifiers { access_modifier, modifier }
    }

    pub fn render(&self) -> (r: String)
        ensures
            r@ == modifiers_text(*self),
    {
        let mut r = String::new();
        let a = self.access_modifier.render();
        if !a.as_str().is_empty() {
            r.append(a.as_str());
            r.append(" ");
        }
        let b = self.modifier.render();
        if !b.as_str().is_empty() {
            r.append(b.as_str());
            r.append(" ");
        }
        r
    }
}

impl<'a> PropertyAccessExpression<'a> {
    fn render(&self, ident_level: usize) -> (r: String)
        requires
            ident_level + 2 <= 100,
            type_ok(self.ty@),
        ensures
            r@ == accessor_text(self@, ident_level as nat),
    {
        let mut r = owned(indent(ident_level));
        r.append(self.name.0.as_str());
        r.append(": ");
        let t = self.ty.render();
        r.append(t.as_str());
        if self.get {
            r.append("\n");
            r.append(indent(ident_level + 2));
            r.append("при чтении { }");
        }
        if self.set {
            r.append("\n");
            r.append(indent(ident_level + 2));
            r.append("при записи { }");
        }
        r
    }
}

impl ArtelClassMember {
    fn is_getter_setter(&self) -> (r: bool)
        ensures
            r == is_accessor(self@),
    {
        match self {
            ArtelClassMember::Method((_m, gs, _f)) => match gs {
                GetterSetter::NoAccessor => false,
                _ => true,
            },
            _ => false,
        }
    }

    /// The property an accessor describes; `None` for other members.
    fn get_property_func(&self) -> (r: Option<PropertyAccessExpression<'_>>)
        requires
            accessor_ok(self@),
        ensures
            r is Some <==> is_accessor(self@),
            r matches Some(p) ==> p@ == accessor_of(self@),
    {
        match self {
            ArtelClassMember::Method((_m, gs, f)) => match gs {
                GetterSetter::Setter => {
                    assert(f@.args[0].ty == f.arguments@[0]@.ty);
                    Some(
                        PropertyAccessExpression {
                            name: &f.name,
                            ty: &f.arguments[0].ty,
                            get: false,
                            set: true,
                        },
                    )
                },
                GetterSetter::Getter => match &f.return_type {
                    Some(t) => Some(PropertyAccessExpression { name: &f.name, ty: t, get: true, set: false }),
                    None => None,
                },
                GetterSetter::NoAccessor => None,
            },
            _ => None,
        }
    }

    fn artel_str_property(
        modifiers: &ClassMemberModifiers,
        property: &ArtelProperty,
        ident_level: usize,
    ) -> (r: String)
        requires
            ident_level <= 100,
            type_ok(property@.ty),
        ensures
            r@ == property_text_with_modifier(property@, modifiers_text(*modifiers), ident_level as nat),
    {
        property.artel_str_with_modifier(modifiers.render(), ident_level)
    }

    fn artel_str_method(
        modifiers: &ClassMemberModifiers,
        function_declaration: &FunctionDeclaration,
        ident_level: usize,
    ) -> (r: String)
        requires
            ident_level <= 100,
            function_ok(function_declaration@),
        ensures
            r@ == function_text_with_modifier(
                function_declaration@,
                modifiers_text(*modifiers),
                ident_level as nat,
            ),
    {
        function_declaration.artel_str_with_modifier(modifiers.render(), ident_level)
    }

    pub fn render(&self, ident_level: usize) -> (r: String)
        requires
            class_member_ready(self@, ident_level as nat),
        ensures
            r@ == class_member_text(self@, ident_level as nat),
    {
        match self {
            ArtelClassMember::Property((modifiers, property)) => Self::artel_str_property(
                modifiers,
                property,
                ident_level,
            ),
            ArtelClassMember::Method((modifiers, _gs, function_declaration)) => Self::artel_str_method(
                modifiers,
                function_declaration,
                ident_level,
            ),
        }
    }
}

/// Adds the accessor `p` to the properties in `paes`.
fn merge_property_access<'a>(
    paes: &mut Vec<PropertyAccessExpression<'a>>,
    p: PropertyAccessExpression<'a>,
)
    requires
        merge_accepts(accessor_models(old(paes)@), p@),
    ensures
        accessor_models(final(paes)@) == merge_accessor(accessor_models(old(paes)@), p@),
{
    let ghost before = accessor_models(paes@);
    let n = paes.len();
    let mut k: usize = 0;
    while k < n
        invariant
            k <= n == paes.len(),
            before == accessor_models(paes@),
            paes@ == old(paes)@,
            merge_accepts(before, p@),
            forall|i: int| 0 <= i < k ==> (#[trigger] before[i]).name != p@.name,
        decreases n - k,
    {
        if paes[k].name.0 == p.name.0 {
            proof {
                lemma_first_with_name(before, p@.name, k as int);
            }
            let item = PropertyAccessExpression {
                name: paes[k].name,
                ty: paes[k].ty,
                get: paes[k].get || p.get,
                set: paes[k].set || p.set,
            };
            paes.set(k, item);
            proof {
                assert(accessor_models(paes@) =~= merge_accessor(before, p@));
            }
            return;
        }
        k = k + 1;
    }
    proof {
        lemma_first_with_name(before, p@.name, n as int);
    }
    paes.push(p);
    assert(accessor_models(paes@) =~= merge_accessor(before, p@));
}

impl ArtelClassDeclaration {
    pub fn new(
        name: Identifier,
        extends: Option<(Identifier, GenericParams)>,
        implements: Vec<Type>,
        is_abstract: bool,
        generic_params: GenericParams,
        body: Vec<ArtelClassMember>,
    ) -> (r: Self)
        ensures
            r.name == name,
            r.extends == extends,
            r.implements == implements,
            r.is_abstract == is_abstract,
            r.generic_params == generic_params,
            r.body == body,
    {
        ArtelClassDeclaration { name, extends, implements, is_abstract, generic_params, body }
    }

    fn artel_str_heritage(&self) -> (r: String)
        requires
            match self@.extends {
                Some((_, ps)) => type_params_ok(ps),
                None => true,
            },
            types_ok(self@.implements),
        ensures
            r@ == heritage_text(self@),
    {
        let ghost c = self@;
        let mut parts: Vec<String> = Vec::new();
        match &self.extends {
            Some((ident, params)) => {
                let mut s = ident.0.clone();
                let g = generic_params_str(params);
                s.append(g.as_str());
                parts.push(s);
            },
            None => {},
        }
        let ghost head = texts(parts@);
        assert(head == match c.extends {
            Some((n, ps)) => seq![n + generics_text(ps)],
            None => seq![],
        });
        let n = self.implements.len();
        let mut j: usize = 0;
        while j < n
            invariant
                j <= n == self.implements.len(),
                c == self@,
                types_ok(c.implements),
                texts(parts@) == head + implements_texts(c.implements).take(j as int),
            decreases n - j,
        {
            assert(crate::ast_type::type_ok(c.implements[j as int]));
            let one = self.implements[j].render();
            proof {
                lemma_texts_push(parts@, one);
                assert(head + implements_texts(c.implements).take(j + 1) =~= (head
                    + implements_texts(c.implements).take(j as int)).push(one@));
            }
            parts.push(one);
            j = j + 1;
        }
        assert(implements_texts(c.implements).take(n as int) =~= implements_texts(c.implements));
        if parts.len() > 0 {
            let mut r = owned(" на основе ");
            let joined = join_strings(&parts, ", ");
            r.append(joined.as_str());
            r
        } else {
            String::new()
        }
    }

    fn artel_str_declaration_header(&self, ident_level: usize) -> (r: String)
        requires
            ident_level <= 100,
            type_params_ok(self@.generics),
            match self@.extends {
                Some((_, ps)) => type_params_ok(ps),
                None => true,
            },
            types_ok(self@.implements),
        ensures
            r@ == class_header_text(self@, ident_level as nat),
    {
        let mut r = owned(indent(ident_level));
        r.append("тип ");
        r.append(self.name.0.as_str());
        let g = generic_params_str(&self.generic_params);
        r.append(g.as_str());
        if self.is_abstract {
            r.append(" = /*(!) абстрактный */ объект");
        } else {
            r.append(" = объект");
        }
        let h = self.artel_str_heritage();
        r.append(h.as_str());
        r.append("\n");
        r.append(indent(ident_level));
        r.append("{\n");
        r
    }

    /// The properties made of the accessors of `body`.
    fn create_property_access_expressions(body: &Vec<ArtelClassMember>) -> (r: Vec<
        PropertyAccessExpression<'_>,
    >)
        requires
            accessors_ok(body@.map_values(|m: ArtelClassMember| m@)),
        ensures
            accessor_models(r@) == class_accessors(body@.map_values(|m: ArtelClassMember| m@)),
    {
        let ghost b = body@.map_values(|m: ArtelClassMember| m@);
        let mut paes: Vec<PropertyAccessExpression<'_>> = Vec::new();
        let n = body.len();
        let mut j: usize = 0;
        assert(accessor_models(paes@) =~= class_accessors(b.take(0)));
        while j < n
            invariant
                j <= n == body.len(),
                b == body@.map_values(|m: ArtelClassMember| m@),
                accessors_ok(b),
                accessor_models(paes@) == class_accessors(b.take(j as int)),
            decreases n - j,
        {
            proof {
                assert(b.take(j + 1).drop_last() =~= b.take(j as int));
                assert(b.take(j + 1).last() == b[j as int]);
                lemma_accessors_ok_prefix(b, j + 1);
            }
            if body[j].is_getter_setter() {
                let p = body[j].get_property_func();
                match p {
                    Some(p) => {
                        merge_property_access(&mut paes, p);
                    },
                    None => {},
                }
            }
            j = j + 1;
        }
        assert(b.take(n as int) =~= b);
        paes
    }

    pub fn render(&self, ident_level: usize) -> (r: String)
        requires
            class_ready(self@, ident_level as nat),
        ensures
            r@ == class_text(self@, ident_level as nat),
    {
        let ghost c = self@;
        let ghost b = c.body;
        let ghost acc = class_accessors(b);
        let paes = Self::create_property_access_expressions(&self.body);
        let n = self.body.len();
        let mut parts: Vec<String> = Vec::new();
        let mut j: usize = 0;
        while j < n
            invariant
                j <= n == self.body.len(),
                c == self@,
                b == c.body,
                class_ready(c, ident_level as nat),
                texts(parts@) == plain_member_texts(b.take(j as int), (ident_level + 2) as nat),
            decreases n - j,
        {
            proof {
                assert(b.take(j + 1).drop_last() =~= b.take(j as int));
                assert(b.take(j + 1).last() == b[j as int]);
            }
            if !self.body[j].is_getter_setter() {
                assert(class_member_ready(b[j as int], (ident_level + 2) as nat));
                let one = self.body[j].render(ident_level + 2);
                proof {
                    lemma_texts_push(parts@, one);
                }
                parts.push(one);
            }
            j = j + 1;
        }
        assert(b.take(n as int) =~= b);
        let ghost plain = texts(parts@);
        let m = paes.len();
        let mut k: usize = 0;
        while k < m
            invariant
                k <= m == paes.len(),
                accessor_models(paes@) == acc,
                acc == class_accessors(b),
                class_ready(c, ident_level as nat),
                b == c.body,
                texts(parts@) == plain + accessor_texts(acc, (ident_level + 2) as nat).take(k as int),
            decreases m - k,
        {
            assert(paes@[k as int]@ == acc[k as int]);
            assert(type_ok(acc[k as int].ty));
            let one = paes[k].render(ident_level + 2);
            proof {
                lemma_texts_push(parts@, one);
                assert(plain + accessor_texts(acc, (ident_level + 2) as nat).take(k + 1) =~= (plain
                    + accessor_texts(acc, (ident_level + 2) as nat).take(k as int)).push(one@));
            }
            parts.push(one);
            k = k + 1;
        }
        assert(accessor_texts(acc, (ident_level + 2) as nat).take(m as int) =~= accessor_texts(
            acc,
            (ident_level + 2) as nat,
        ));
        let mut r = self.artel_str_declaration_header(ident_level);
        let joined = join_strings(&parts, "\n\n");
        r.append(joined.as_str());
        r.append("\n");
        r.append(indent(ident_level));
        r.append("}");
        r
    }
}

/// Whether `p` can be added to the properties in `paes`.
fn merge_would_accept<'a>(paes: &Vec<PropertyAccessExpression<'a>>, p: &PropertyAccessExpression<'a>) -> (r: bool)
    ensures
        r == merge_accepts(accessor_models(paes@), p@),
{
    let ghost list = accessor_models(paes@);
    let n = paes.len();
    let mut k: usize = 0;
    while k < n
        invariant
            k <= n == paes.len(),
            list == accessor_models(paes@),
            forall|i: int| 0 <= i < k ==> (#[trigger] list[i]).name != p@.name,
        decreases n - k,
    {
        if paes[k].name.0 == p.name.0 {
            proof {
                lemma_first_with_name(list, p@.name, k as int);
            }
            return paes[k].get != p.get && paes[k].set != p.set;
        }
        k = k + 1;
    }
    proof {
        lemma_first_with_name(list, p@.name, n as int);
    }
    true
}

impl ArtelClassMember {
    /// Whether the member can be rendered on its own at `ident_level`.
    pub fn can_render(&self, ident_level: usize) -> (r: bool)
        ensures
            r == class_member_ready(self@, ident_level as nat),
    {
        ident_level <= 100 && match self {
            ArtelClassMember::Property((_m, p)) => p.ty.can_render(),
            ArtelClassMember::Method((_m, gs, f)) => *gs == GetterSetter::NoAccessor
                && f.can_render(),
        }
    }
}

impl ArtelClassDeclaration {
    /// The properties made of the accessors of `body`, or `None` when an
    /// accessor lacks its type or a name has two getters or two setters.
    fn checked_accessors(body: &Vec<ArtelClassMember>) -> (r: Option<Vec<PropertyAccessExpression<'_>>>)
        ensures
            r is Some <==> accessors_ok(body@.map_values(|m: ArtelClassMember| m@)),
            r matches Some(v) ==> accessor_models(v@) == class_accessors(
                body@.map_values(|m: ArtelClassMember| m@),
            ),
    {
        let ghost b = body@.map_values(|m: ArtelClassMember| m@);
        let mut paes: Vec<PropertyAccessExpression<'_>> = Vec::new();
        let n = body.len();
        let mut j: usize = 0;
        assert(accessor_models(paes@) =~= class_accessors(b.take(0)));
        while j < n
            invariant
                j <= n == body.len(),
                b == body@.map_values(|m: ArtelClassMember| m@),
                accessors_ok(b.take(j as int)),
                accessor_models(paes@) == class_accessors(b.take(j as int)),
            decreases n - j,
        {
            proof {
                assert(b.take(j + 1).drop_last() =~= b.take(j as int));
                assert(b.take(j + 1).last() == b[j as int]);
            }
            if body[j].is_getter_setter() {
                let ok = match &body[j] {
                    ArtelClassMember::Method((_m, gs, f)) => match gs {
                        GetterSetter::Setter => f.arguments.len() > 0,
                        GetterSetter::Getter => f.return_type.is_some(),
                        GetterSetter::NoAccessor => true,
                    },
                    _ => true,
                };
                if !ok {
                    proof {
                        if accessors_ok(b) {
                            lemma_accessors_ok_prefix(b, j + 1);
                        }
                    }
                    return None;
                }
                match body[j].get_property_func() {
                    Some(p) => {
                        if !merge_would_accept(&paes, &p) {
                            proof {
                                if accessors_ok(b) {
                                    lemma_accessors_ok_prefix(b, j + 1);
                                }
                            }
                            return None;
                        }
                        merge_property_access(&mut paes, p);
                    },
                    None => {},
                }
            }
            j = j + 1;
        }
        assert(b.take(n as int) =~= b);
        Some(paes)
    }

    /// Whether the class can be rendered at `ident_level`.
    pub fn can_render(&self, ident_level: usize) -> (r: bool)
        ensures
            r == class_ready(self@, ident_level as nat),
    {
        let ghost c = self@;
        if ident_level > 100 {
            return false;
        }
        if !type_params_can_render(&self.generic_params) {
            return false;
        }
        let ext_ok = match &self.extends {
            Some((_, ps)) => type_params_can_render(ps),
            None => true,
        };
        if !ext_ok {
            return false;
        }
        if !types_can_render(&self.implements) {
            return false;
        }
        let n = self.body.len();
        let mut j: usize = 0;
        while j < n
            invariant
                j <= n == self.body.len(),
                ident_level <= 100,
                c == self@,
                forall|i: int|
                    0 <= i < j && !is_accessor(#[trigger] c.body[i]) ==> class_member_ready(
                        c.body[i],
                        (ident_level + 2) as nat,
                    ),
            decreases n - j,
        {
            if !self.body[j].is_getter_setter() {
                if !self.body[j].can_render(ident_level + 2) {
                    assert(!class_member_ready(c.body[j as int], ident_level as nat + 2));
                    return false;
                }
            }
            j = j + 1;
        }
        match Self::checked_accessors(&self.body) {
            None => false,
            Some(paes) => {
                let ghost acc = class_accessors(c.body);
                let m = paes.len();
                if m > 0 && ident_level + 4 > 100 {
                    return false;
                }
                let mut k: usize = 0;
                while k < m
                    invariant
                        k <= m == paes.len(),
                        accessor_models(paes@) == acc,
                        acc == class_accessors(c.body),
                        c == self@,
                        forall|i: int| 0 <= i < k ==> type_ok(#[trigger] acc[i].ty),
                    decreases m - k,
                {
                    assert(paes@[k as int]@ == acc[k as int]);
                    if !paes[k].ty.can_render() {
                        assert(!type_ok(acc[k as int].ty));
                        return false;
                    }
                    k = k + 1;
                }
                true
            },
        }
    }
}

proof fn lemma_accessors_ok_prefix(b: Seq<ClassMemberModel>, j: int)
    requires
        accessors_ok(b),
        0 <= j <= b.len(),
    ensures
        accessors_ok(b.take(j)),
    decreases b.len() - j,
{
    if j < b.len() {
        assert(b.take(j + 1).drop_last() =~= b.take(j));
        lemma_accessors_ok_prefix(b, j + 1);
    } else {
        assert(b.take(j) =~= b);
    }
}

// ---------------------------------------------------------------------------
// As Artel text
// ---------------------------------------------------------------------------

impl ArtelStr for ArtelAccessModifier {
    open spec fn artel_ready(&self, ident_level: usize) -> bool {
        true
    }

    open spec fn artel_text(&self, ident_level: usize) -> Seq<char> {
        access_modifier_text(*self)
    }

    fn artel_str(&self, _ident_level: usize) -> (r: String) {
        self.render()
    }
}

impl ArtelStr for ArtelModifier {
    open spec fn artel_ready(&self, ident_level: usize) -> bool {
        true
    }

    open spec fn artel_text(&self, ident_level: usize) -> Seq<char> {
        modifier_text(*self)
    }

    fn artel_str(&self, _ident_level: usize) -> (r: String) {
        self.render()
    }
}

impl ArtelStr for ClassMemberModifiers {
    open spec fn artel_ready(&self, ident_level: usize) -> bool {
        true
    }

    open spec fn artel_text(&self, ident_level: usize) -> Seq<char> {
        modifiers_text(*self)
    }

    fn artel_str(&self, _ident_level: usize) -> (r: String) {
        self.render()
    }
}

impl<'a> ArtelStr for PropertyAccessExpression<'a> {
    closed spec fn artel_ready(&self, ident_level: usize) -> bool {
        ident_level + 2 <= 100 && type_ok(self.ty@)
    }

    closed spec fn artel_text(&self, ident_level: usize) -> Seq<char> {
        accessor_text(self@, ident_level as nat)
    }

    fn artel_str(&self, ident_level: usize) -> (r: String) {
        self.render(ident_level)
    }
}

impl ArtelStr for ArtelClassMember {
    open spec fn artel_ready(&self, ident_level: usize) -> bool {
        class_member_ready(self@, ident_level as nat)
    }

    open spec fn artel_text(&self, ident_level: usize) -> Seq<char> {
        class_member_text(self@, ident_level as nat)
    }

    fn artel_str(&self, ident_level: usize) -> (r: String) {
        self.render(ident_level)
    }
}

impl ArtelStr for ArtelClassDeclaration {
    open spec fn artel_ready(&self, ident_level: usize) -> bool {
        class_ready(self@, ident_level as nat)
    }

    open spec fn artel_text(&self, ident_level: usize) -> Seq<char> {
        class_text(self@, ident_level as nat)
    }

    fn artel_str(&self, ident_level: usize) -> (r: String) {
        self.render(ident_level)
    }
}

} // verus!
