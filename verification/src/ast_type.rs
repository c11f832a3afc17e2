//! Types of the TypeScript declarations as the Artel side sees them, with the
//! members that can appear inside them (properties, methods, arguments), their
//! mathematical models and their rendering to Artel text.
//!
//! A `Type` is a union of `PrimaryType`s; a union of one is just that type.

use vstd::prelude::*;
use crate::artel_str::ArtelStr;
use crate::text::{
    spaces, join_text, texts, decimal, newlines_to_spaces, starts_with_dots, indent, owned, text_is,
    join_strings, decimal_string, replace_newlines, has_dots_prefix, drop_dots_prefix, lemma_texts_push,
};

verus! {

broadcast use vstd::std_specs::vec::group_vec_axioms;

// ---------------------------------------------------------------------------
// Data
// ---------------------------------------------------------------------------

/// Artel identifier.
pub struct Identifier(pub String);

/// An expression kept as its source text.
pub struct ArtelExpression(pub String);

/// Main structure for representing any type: the members of a union.
pub struct Type(pub Vec<PrimaryType>);

/// Single type in a union.
pub enum PrimaryType {
    /// Catch-all for everything unsupported; rendered as an optional object.
    UnsupportedAny(String),
    /// Literal type such as `1`, `"hello"`, `undefined`, `null`.
    LiteralType(LiteralType),
    /// Predefined TypeScript types such as `number` or `string`.
    PredefinedType(PredefinedType),
    /// Type name with generic arguments, `MyList<string>`.
    TypeReference(TypeReference),
    /// Inline object type.
    ObjectType(ObjectType),
    /// `(a: string) => void`
    FunctionType(Box<FunctionDeclaration>),
    /// `SomeType[]`
    ArrayType(Box<Type>),
    /// `readonly SomeType`
    ReadonlyType(Box<Type>),
    /// `[SomeType, OtherType]`
    TupleType(Vec<Type>),
    /// `name is SomeType`
    PredicateType(String, Box<Type>),
}

pub enum LiteralType {
    String(String),
    Number(String),
    Boolean(bool),
    Undefined,
    Null,
}

#[derive(Clone, Copy, PartialEq, Eq, Structural)]
pub enum PredefinedType {
    Any,
    Number,
    Boolean,
    String,
    Void,
    Object,
    Never,
    Unknown,
    Symbol,
    UniqueSymbol,
}

pub struct TypeReference {
    pub name: Identifier,
    pub type_arguments: Vec<Type>,
}

pub struct TypeParameter {
    pub indentifier: Identifier,
    pub constraint: Option<Type>,
    pub default: Option<Type>,
}

pub struct ObjectType {
    pub body: Vec<InterfaceMember>,
}

/// Stuff in the `<` `>` brackets, like `<T, A>`.
pub type GenericParams = Vec<TypeParameter>;

pub enum InterfaceMember {
    Property(ArtelProperty),
    Method(FunctionDeclaration),
    Unsupported(String),
}

pub struct ArtelProperty {
    pub readonly: bool,
    pub name: Identifier,
    pub ty: Type,
}

pub struct ArtelFunctionArgument {
    pub name: Identifier,
    pub ty: Type,
    pub default_value: Option<ArtelExpression>,
}

pub struct FunctionDeclaration {
    pub is_async: bool,
    pub name: Identifier,
    pub generic_params: GenericParams,
    pub arguments: Vec<ArtelFunctionArgument>,
    pub return_type: Option<Type>,
}

/// The name the converter uses for identifiers.
pub type ArtelIdentifier = Identifier;

/// The name the converter uses for type parameters.
pub type ArtelTypeParameter = TypeParameter;

/// The name class declarations use for generic parameters.
pub type ArtelGenericParams = GenericParams;

/// The name the converter uses for interface members.
pub type ArtelInterfaceMember = InterfaceMember;

// ---------------------------------------------------------------------------
// Models
// ---------------------------------------------------------------------------

pub struct TypeModel {
    pub items: Seq<PrimaryModel>,
}

pub enum PrimaryModel {
    UnsupportedAny(Seq<char>),
    Literal(LiteralModel),
    Predefined(PredefinedType),
    Reference(TypeRefModel),
    Object(Seq<MemberModel>),
    Function(FunctionModel),
    Array(TypeModel),
    Readonly(TypeModel),
    Tuple(Seq<TypeModel>),
    Predicate(Seq<char>, TypeModel),
}

pub enum LiteralModel {
    Str(Seq<char>),
    Number(Seq<char>),
    Boolean(bool),
    Undefined,
    Null,
}

pub struct TypeRefModel {
    pub name: Seq<char>,
    pub args: Seq<TypeModel>,
}

pub struct TypeParamModel {
    pub name: Seq<char>,
    pub constraint: Option<TypeModel>,
    pub default: Option<TypeModel>,
}

pub enum MemberModel {
    Property(PropertyModel),
    Method(FunctionModel),
    Unsupported(Seq<char>),
}

pub struct PropertyModel {
    pub readonly: bool,
    pub name: Seq<char>,
    pub ty: TypeModel,
}

pub struct ArgumentModel {
    pub name: Seq<char>,
    pub ty: TypeModel,
    pub default: Option<Seq<char>>,
}

pub struct FunctionModel {
    pub is_async: bool,
    pub name: Seq<char>,
    pub generics: Seq<TypeParamModel>,
    pub args: Seq<ArgumentModel>,
    pub ret: Option<TypeModel>,
}

pub open spec fn type_model(t: Type) -> TypeModel
    decreases t,
{
    TypeModel {
        items: Seq::new(
            t.0.len() as nat,
            |i: int|
                if 0 <= i < t.0.len() {
                    primary_model(t.0@[i])
                } else {
                    arbitrary()
                },
        ),
    }
}

pub open spec fn types_model(ts: Vec<Type>) -> Seq<TypeModel>
    decreases ts,
{
    Seq::new(
        ts.len() as nat,
        |i: int|
            if 0 <= i < ts.len() {
                type_model(ts@[i])
            } else {
                arbitrary()
            },
    )
}

pub open spec fn option_type_model(t: Option<Type>) -> Option<TypeModel>
    decreases t,
{
    match t {
        Some(x) => Some(type_model(x)),
        None => None,
    }
}

pub open spec fn literal_model(l: LiteralType) -> LiteralModel {
    match l {
        LiteralType::String(s) => LiteralModel::Str(s@),
        LiteralType::Number(s) => LiteralModel::Number(s@),
        LiteralType::Boolean(b) => LiteralModel::Boolean(b),
        LiteralType::Undefined => LiteralModel::Undefined,
        LiteralType::Null => LiteralModel::Null,
    }
}

pub open spec fn primary_model(p: PrimaryType) -> PrimaryModel
    decreases p,
{
    match p {
        PrimaryType::UnsupportedAny(s) => PrimaryModel::UnsupportedAny(s@),
        PrimaryType::LiteralType(l) => PrimaryModel::Literal(literal_model(l)),
        PrimaryType::PredefinedType(x) => PrimaryModel::Predefined(x),
        PrimaryType::TypeReference(r) => PrimaryModel::Reference(type_ref_model(r)),
        PrimaryType::ObjectType(o) => PrimaryModel::Object(members_model(o.body)),
        PrimaryType::FunctionType(f) => PrimaryModel::Function(function_model(*f)),
        PrimaryType::ArrayType(t) => PrimaryModel::Array(type_model(*t)),
        PrimaryType::ReadonlyType(t) => PrimaryModel::Readonly(type_model(*t)),
        PrimaryType::TupleType(ts) => PrimaryModel::Tuple(types_model(ts)),
        PrimaryType::PredicateType(s, t) => PrimaryModel::Predicate(s@, type_model(*t)),
    }
}

pub open spec fn type_ref_model(r: TypeReference) -> TypeRefModel
    decreases r,
{
    TypeRefModel { name: r.name.0@, args: types_model(r.type_arguments) }
}

pub open spec fn type_param_model(p: TypeParameter) -> TypeParamModel
    decreases p,
{
    TypeParamModel {
        name: p.indentifier.0@,
        constraint: option_type_model(p.constraint),
        default: option_type_model(p.default),
    }
}

pub open spec fn type_params_model(ps: Vec<TypeParameter>) -> Seq<TypeParamModel>
    decreases ps,
{
    Seq::new(
        ps.len() as nat,
        |i: int|
            if 0 <= i < ps.len() {
                type_param_model(ps@[i])
            } else {
                arbitrary()
            },
    )
}

pub open spec fn member_model(m: InterfaceMember) -> MemberModel
    decreases m,
{
    match m {
        InterfaceMember::Property(p) => MemberModel::Property(property_model(p)),
        InterfaceMember::Method(f) => MemberModel::Method(function_model(f)),
        InterfaceMember::Unsupported(s) => MemberModel::Unsupported(s@),
    }
}

pub open spec fn members_model(ms: Vec<InterfaceMember>) -> Seq<MemberModel>
    decreases ms,
{
    Seq::new(
        ms.len() as nat,
        |i: int|
            if 0 <= i < ms.len() {
                member_model(ms@[i])
            } else {
                arbitrary()
            },
    )
}

pub open spec fn property_model(p: ArtelProperty) -> PropertyModel
    decreases p,
{
    PropertyModel { readonly: p.readonly, name: p.name.0@, ty: type_model(p.ty) }
}

pub open spec fn argument_model(a: ArtelFunctionArgument) -> ArgumentModel
    decreases a,
{
    ArgumentModel {
        name: a.name.0@,
        ty: type_model(a.ty),
        default: match a.default_value {
            Some(e) => Some(e.0@),
            None => None,
        },
    }
}

pub open spec fn arguments_model(args: Vec<ArtelFunctionArgument>) -> Seq<ArgumentModel>
    decreases args,
{
    Seq::new(
        args.len() as nat,
        |i: int|
            if 0 <= i < args.len() {
                argument_model(args@[i])
            } else {
                arbitrary()
            },
    )
}

pub open spec fn function_model(f: FunctionDeclaration) -> FunctionModel
    decreases f,
{
    FunctionModel {
        is_async: f.is_async,
        name: f.name.0@,
        generics: type_params_model(f.generic_params),
        args: arguments_model(f.arguments),
        ret: option_type_model(f.return_type),
    }
}

impl View for Type {
    type V = TypeModel;

    open spec fn view(&self) -> TypeModel {
        type_model(*self)
    }
}

impl View for PrimaryType {
    type V = PrimaryModel;

    open spec fn view(&self) -> PrimaryModel {
        primary_model(*self)
    }
}

impl View for LiteralType {
    type V = LiteralModel;

    open spec fn view(&self) -> LiteralModel {
        literal_model(*self)
    }
}

impl View for TypeReference {
    type V = TypeRefModel;

    open spec fn view(&self) -> TypeRefModel {
        type_ref_model(*self)
    }
}

impl View for TypeParameter {
    type V = TypeParamModel;

    open spec fn view(&self) -> TypeParamModel {
        type_param_model(*self)
    }
}

impl View for ObjectType {
    type V = Seq<MemberModel>;

    open spec fn view(&self) -> Seq<MemberModel> {
        members_model(self.body)
    }
}

impl View for InterfaceMember {
    type V = MemberModel;

    open spec fn view(&self) -> MemberModel {
        member_model(*self)
    }
}

impl View for ArtelProperty {
    type V = PropertyModel;

    open spec fn view(&self) -> PropertyModel {
        property_model(*self)
    }
}

impl View for ArtelFunctionArgument {
    type V = ArgumentModel;

    open spec fn view(&self) -> ArgumentModel {
        argument_model(*self)
    }
}

impl View for FunctionDeclaration {
    type V = FunctionModel;

    open spec fn view(&self) -> FunctionModel {
        function_model(*self)
    }
}

impl View for Identifier {
    type V = Seq<char>;

    open spec fn view(&self) -> Seq<char> {
        self.0@
    }
}

impl View for ArtelExpression {
    type V = Seq<char>;

    open spec fn view(&self) -> Seq<char> {
        self.0@
    }
}


// ---------------------------------------------------------------------------
// What can be rendered
// ---------------------------------------------------------------------------

/// A type can be rendered when it and every type rendered inside it are
/// non-empty unions.
pub open spec fn type_ok(t: TypeModel) -> bool
    decreases t,
{
    &&& t.items.len() > 0
    &&& forall|i: int| 0 <= i < t.items.len() ==> primary_ok(#[trigger] t.items[i])
}

pub open spec fn types_ok(ts: Seq<TypeModel>) -> bool
    decreases ts,
{
    forall|i: int| 0 <= i < ts.len() ==> type_ok(#[trigger] ts[i])
}

pub open spec fn members_ok(body: Seq<MemberModel>) -> bool
    decreases body,
{
    forall|i: int| 0 <= i < body.len() ==> member_ok(#[trigger] body[i])
}

pub open spec fn type_params_ok(ps: Seq<TypeParamModel>) -> bool
    decreases ps,
{
    forall|i: int| 0 <= i < ps.len() ==> type_param_ok(#[trigger] ps[i])
}

pub open spec fn arguments_ok(args: Seq<ArgumentModel>) -> bool
    decreases args,
{
    forall|i: int| 0 <= i < args.len() ==> type_ok(#[trigger] args[i].ty)
}

pub open spec fn return_ok(ret: Option<TypeModel>) -> bool
    decreases ret,
{
    match ret {
        Some(t) => type_ok(t),
        None => true,
    }
}

pub open spec fn primary_ok(p: PrimaryModel) -> bool
    decreases p,
{
    match p {
        PrimaryModel::Reference(r) => types_ok(r.args),
        PrimaryModel::Object(body) => members_ok(body),
        PrimaryModel::Function(f) => function_ok(f),
        PrimaryModel::Array(t) => type_ok(t),
        PrimaryModel::Readonly(t) => type_ok(t),
        PrimaryModel::Tuple(ts) => types_ok(ts),
        PrimaryModel::Predicate(_, t) => type_ok(t),
        _ => true,
    }
}

pub open spec fn type_param_ok(p: TypeParamModel) -> bool
    decreases p,
{
    return_ok(p.constraint)
}

pub open spec fn member_ok(m: MemberModel) -> bool
    decreases m,
{
    match m {
        MemberModel::Property(p) => type_ok(p.ty),
        MemberModel::Method(f) => function_ok(f),
        MemberModel::Unsupported(_) => true,
    }
}

pub open spec fn function_ok(f: FunctionModel) -> bool
    decreases f,
{
    &&& type_params_ok(f.generics)
    &&& arguments_ok(f.args)
    &&& return_ok(f.ret)
}

// ---------------------------------------------------------------------------
// Rendered text
// ---------------------------------------------------------------------------

pub open spec fn predefined_text(p: PredefinedType) -> Seq<char> {
    match p {
        PredefinedType::Any => "/*(!) any */ Объект?"@,
        PredefinedType::Number => "Число"@,
        PredefinedType::Boolean => "ДаНет"@,
        PredefinedType::String => "Текст"@,
        PredefinedType::Void => "Ничего"@,
        PredefinedType::Object => "Объект"@,
        PredefinedType::Never => "Никогда"@,
        PredefinedType::Unknown => "/*(!) unknown */ Объект?"@,
        PredefinedType::Symbol => "Символ"@,
        PredefinedType::UniqueSymbol => "/*(!) unique symbol */ Объект"@,
    }
}

pub open spec fn literal_text(l: LiteralModel) -> Seq<char> {
    match l {
        LiteralModel::Undefined => "пусто"@,
        LiteralModel::Null => "пусто"@,
        LiteralModel::Str(x) => "\""@ + x + "\""@,
        LiteralModel::Number(x) => x,
        LiteralModel::Boolean(b) => if b {
            "да"@
        } else {
            "нет"@
        },
    }
}

/// Members of a union that turn the union into an optional type.
pub open spec fn is_questionmark(p: PrimaryModel) -> bool {
    ||| p == PrimaryModel::Literal(LiteralModel::Null)
    ||| p == PrimaryModel::Literal(LiteralModel::Undefined)
    ||| p == PrimaryModel::Predefined(PredefinedType::Void)
}

pub open spec fn questionmark_count(items: Seq<PrimaryModel>) -> nat
    decreases items.len(),
{
    if items.len() == 0 {
        0
    } else {
        questionmark_count(items.drop_last()) + if is_questionmark(items.last()) {
            1nat
        } else {
            0nat
        }
    }
}

/// A union of exactly one type with `null`, `undefined` or `void` members.
pub open spec fn is_optional_union(items: Seq<PrimaryModel>) -> bool {
    items.len() - questionmark_count(items) == 1 && questionmark_count(items) > 0
}

/// The position of the last member that is not `null`, `undefined` or `void`, or -1.
pub open spec fn solid_index(items: Seq<PrimaryModel>) -> int
    decreases items.len(),
{
    if items.len() == 0 {
        -1
    } else if !is_questionmark(items.last()) {
        items.len() - 1
    } else {
        solid_index(items.drop_last())
    }
}

/// Types that are already optional in Artel.
pub open spec fn is_questionmark_by_default(p: PrimaryModel) -> bool {
    ||| p is UnsupportedAny
    ||| p == PrimaryModel::Predefined(PredefinedType::Any)
    ||| p == PrimaryModel::Predefined(PredefinedType::Unknown)
}

/// A function type cannot take a `?` directly after it.
pub open spec fn can_be_annotated_to_left(p: PrimaryModel) -> bool {
    !(p is Function)
}

/// The rendering of each member of a union.
pub open spec fn primary_texts(items: Seq<PrimaryModel>) -> Seq<Seq<char>>
    decreases items,
{
    if items.len() == 0 {
        seq![]
    } else {
        primary_texts(items.drop_last()).push(primary_text(items.last()))
    }
}

/// The rendering of each type.
pub open spec fn type_texts(ts: Seq<TypeModel>) -> Seq<Seq<char>>
    decreases ts,
{
    if ts.len() == 0 {
        seq![]
    } else {
        type_texts(ts.drop_last()).push(type_text(ts.last()))
    }
}

/// The fields of a tuple rendered as an object: `_0: T`, `_1: U`, ...
pub open spec fn tuple_field_texts(ts: Seq<TypeModel>) -> Seq<Seq<char>>
    decreases ts,
{
    if ts.len() == 0 {
        seq![]
    } else {
        tuple_field_texts(ts.drop_last()).push(
            "_"@ + decimal((ts.len() - 1) as nat) + ": "@ + type_text(ts.last()),
        )
    }
}

/// The members of an object type, each on one line.
pub open spec fn flat_member_texts(body: Seq<MemberModel>) -> Seq<Seq<char>>
    decreases body,
{
    if body.len() == 0 {
        seq![]
    } else {
        flat_member_texts(body.drop_last()).push(newlines_to_spaces(member_text(body.last(), 0)))
    }
}

pub open spec fn type_param_texts(ps: Seq<TypeParamModel>) -> Seq<Seq<char>>
    decreases ps,
{
    if ps.len() == 0 {
        seq![]
    } else {
        type_param_texts(ps.drop_last()).push(type_param_text(ps.last()))
    }
}

pub open spec fn argument_texts(args: Seq<ArgumentModel>) -> Seq<Seq<char>>
    decreases args,
{
    if args.len() == 0 {
        seq![]
    } else {
        argument_texts(args.drop_last()).push(argument_text(args.last()))
    }
}

pub open spec fn type_text(t: TypeModel) -> Seq<char>
    decreases t,
{
    let items = t.items;
    if is_optional_union(items) {
        let k = solid_index(items);
        let one = if 0 <= k < items.len() {
            primary_text(items[k])
        } else {
            seq![]
        };
        if is_questionmark_by_default(items[k]) {
            one
        } else if !can_be_annotated_to_left(items[k]) {
            "("@ + one + ")?"@
        } else {
            one + "?"@
        }
    } else {
        join_text(primary_texts(items), " | "@)
    }
}

pub open spec fn primary_text(p: PrimaryModel) -> Seq<char>
    decreases p,
{
    match p {
        PrimaryModel::UnsupportedAny(s) => "/*(!) "@ + s + " */ Объект?"@,
        PrimaryModel::Literal(l) => literal_text(l),
        PrimaryModel::Predefined(x) => predefined_text(x),
        PrimaryModel::Reference(r) => if r.args.len() == 0 {
            r.name
        } else {
            r.name + "<"@ + join_text(type_texts(r.args), ", "@) + ">"@
        },
        PrimaryModel::Object(body) => "объект { "@ + join_text(flat_member_texts(body), "; "@)
            + " }"@,
        PrimaryModel::Function(f) => "операция"@ + angle_list(type_param_texts(f.generics))
            + paren_list(argument_texts(f.args)) + return_part(f.ret),
        PrimaryModel::Array(t) => "Список<"@ + type_text(t) + ">"@,
        PrimaryModel::Readonly(t) => if t.items.len() > 1 {
            "/*(!) защищено */ ("@ + type_text(t) + ")"@
        } else {
            "/*(!) защищено */ "@ + type_text(t)
        },
        PrimaryModel::Tuple(ts) => "объект { "@ + join_text(tuple_field_texts(ts), ", "@) + " }"@,
        PrimaryModel::Predicate(name, t) => "/*(!) "@ + name + " is */ "@ + type_text(t),
    }
}

pub open spec fn type_ref_text(r: TypeRefModel) -> Seq<char> {
    primary_text(PrimaryModel::Reference(r))
}

pub open spec fn object_text(body: Seq<MemberModel>) -> Seq<char> {
    primary_text(PrimaryModel::Object(body))
}

pub open spec fn tuple_text(ts: Seq<TypeModel>) -> Seq<char> {
    primary_text(PrimaryModel::Tuple(ts))
}

pub open spec fn functype_text(f: FunctionModel) -> Seq<char> {
    primary_text(PrimaryModel::Function(f))
}

pub open spec fn type_param_text(p: TypeParamModel) -> Seq<char>
    decreases p,
{
    match p.constraint {
        Some(c) => p.name + " = "@ + type_text(c),
        None => p.name,
    }
}

/// `<a, b>` around rendered parameters, or nothing when there are none.
pub open spec fn angle_list(parts: Seq<Seq<char>>) -> Seq<char> {
    if parts.len() == 0 {
        seq![]
    } else {
        "<"@ + join_text(parts, ", "@) + ">"@
    }
}

/// `(a, b)` around rendered arguments.
pub open spec fn paren_list(parts: Seq<Seq<char>>) -> Seq<char> {
    "("@ + join_text(parts, ", "@) + ")"@
}

pub open spec fn generics_text(ps: Seq<TypeParamModel>) -> Seq<char> {
    angle_list(type_param_texts(ps))
}

pub open spec fn expression_text(e: Seq<char>) -> Seq<char> {
    if e == "false"@ {
        "нет"@
    } else if e == "true"@ {
        "да"@
    } else {
        e
    }
}

pub open spec fn argument_name_text(name: Seq<char>) -> Seq<char> {
    if starts_with_dots(name) {
        name.skip(3)
    } else {
        name
    }
}

pub open spec fn argument_text(a: ArgumentModel) -> Seq<char>
    decreases a,
{
    argument_name_text(a.name) + ": "@ + type_text(a.ty) + match a.default {
        Some(d) => " = "@ + expression_text(d),
        None => seq![],
    }
}

pub open spec fn arguments_text(args: Seq<ArgumentModel>) -> Seq<char> {
    paren_list(argument_texts(args))
}

pub open spec fn property_text(p: PropertyModel, ident_level: nat) -> Seq<char>
    decreases p,
{
    spaces(ident_level) + (if p.readonly {
        "защищено "@ + "\n"@ + spaces(ident_level)
    } else {
        seq![]
    }) + p.name + ": "@ + type_text(p.ty)
}

pub open spec fn property_text_with_modifier(
    p: PropertyModel,
    modifier: Seq<char>,
    ident_level: nat,
) -> Seq<char>
    decreases p,
{
    let m = modifier + if p.readonly {
        "защищено"@
    } else {
        seq![]
    };
    spaces(ident_level) + (if m.len() > 0 {
        m + "\n"@ + spaces(ident_level)
    } else {
        seq![]
    }) + p.name + ": "@ + type_text(p.ty)
}

/// Whether a type is left out as a return type: exactly `void`, `null` or
/// `undefined`.
pub open spec fn is_nothing(t: TypeModel) -> bool {
    &&& t.items.len() == 1
    &&& (t.items[0] == PrimaryModel::Predefined(PredefinedType::Void) || t.items[0]
        == PrimaryModel::Literal(LiteralModel::Null) || t.items[0] == PrimaryModel::Literal(
        LiteralModel::Undefined,
    ))
}

/// `: TYPE`, or nothing when the type is left out.
pub open spec fn return_text(t: TypeModel) -> Seq<char> {
    if is_nothing(t) {
        seq![]
    } else {
        ": "@ + type_text(t)
    }
}

/// The return type part of a function, `: /*(!) no_type */ Объект?` when none is given.
pub open spec fn return_part(ret: Option<TypeModel>) -> Seq<char>
    decreases ret,
{
    match ret {
        Some(t) => if is_nothing(t) {
            seq![]
        } else {
            ": "@ + type_text(t)
        },
        None => ": "@ + "/*(!) "@ + "no_type"@ + " */ Объект?"@,
    }
}

pub open spec fn has_rest_argument(args: Seq<ArgumentModel>) -> bool {
    exists|i: int| 0 <= i < args.len() && starts_with_dots(#[trigger] args[i].name)
}

pub open spec fn annotation_text(f: FunctionModel, ident_level: nat) -> Seq<char> {
    if has_rest_argument(f.args) {
        spaces(ident_level) + "#js.МассивПараметров\n"@
    } else {
        seq![]
    }
}

pub open spec fn function_text_with_modifier(
    f: FunctionModel,
    modifier: Seq<char>,
    ident_level: nat,
) -> Seq<char>
    decreases f,
{
    let m = modifier + if f.is_async {
        "параллельная"@
    } else {
        seq![]
    };
    let m2 = if m.len() > 0 {
        m + "\n"@ + spaces(ident_level)
    } else {
        seq![]
    };
    let head = if f.name == "constructor"@ {
        "при создании"@
    } else {
        "операция "@ + f.name + angle_list(type_param_texts(f.generics))
    };
    annotation_text(f, ident_level) + spaces(ident_level) + m2 + head + paren_list(
        argument_texts(f.args),
    ) + return_part(f.ret)
}

pub open spec fn function_text(f: FunctionModel, ident_level: nat) -> Seq<char> {
    function_text_with_modifier(f, seq![], ident_level)
}

pub open spec fn member_text(m: MemberModel, ident_level: nat) -> Seq<char>
    decreases m,
{
    match m {
        MemberModel::Property(p) => property_text(p, ident_level),
        MemberModel::Method(f) => function_text_with_modifier(f, seq![], ident_level),
        MemberModel::Unsupported(d) => spaces(ident_level) + "/*(!) "@ + d + "*/"@,
    }
}

// ---------------------------------------------------------------------------
// Rendering
// ---------------------------------------------------------------------------

// ---------------------------------------------------------------------------
// Laws
// ---------------------------------------------------------------------------

/// Every member is `null`, `undefined` or `void`.
pub open spec fn all_questionmarks(s: Seq<PrimaryModel>) -> bool {
    forall|i: int| 0 <= i < s.len() ==> is_questionmark(#[trigger] s[i])
}

proof fn lemma_questionmark_count_concat(a: Seq<PrimaryModel>, b: Seq<PrimaryModel>)
    ensures
        questionmark_count(a + b) == questionmark_count(a) + questionmark_count(b),
    decreases b.len(),
{
    if b.len() == 0 {
        assert(a + b =~= a);
    } else {
        assert((a + b).drop_last() =~= a + b.drop_last());
        assert((a + b).last() == b.last());
        lemma_questionmark_count_concat(a, b.drop_last());
    }
}

proof fn lemma_all_questionmarks_count(s: Seq<PrimaryModel>)
    requires
        all_questionmarks(s),
    ensures
        questionmark_count(s) == s.len(),
    decreases s.len(),
{
    if s.len() > 0 {
        assert(is_questionmark(s[s.len() - 1]));
        lemma_all_questionmarks_count(s.drop_last());
    }
}

proof fn lemma_solid_index_questionmark_suffix(a: Seq<PrimaryModel>, b: Seq<PrimaryModel>)
    requires
        all_questionmarks(b),
    ensures
        solid_index(a + b) == solid_index(a),
    decreases b.len(),
{
    if b.len() == 0 {
        assert(a + b =~= a);
    } else {
        assert((a + b).drop_last() =~= a + b.drop_last());
        assert((a + b).last() == b.last());
        assert(is_questionmark(b[b.len() - 1]));
        lemma_solid_index_questionmark_suffix(a, b.drop_last());
    }
}

/// A type of one member that is not `null`, `undefined` or `void` renders as
/// that member.
proof fn lemma_single_type_text(p: PrimaryModel)
    requires
        !is_questionmark(p),
    ensures
        type_text(TypeModel { items: seq![p] }) == primary_text(p),
{
    let items = seq![p];
    assert(items.drop_last() =~= Seq::<PrimaryModel>::empty());
    assert(items.last() == p);
    assert(questionmark_count(Seq::<PrimaryModel>::empty()) == 0);
    assert(questionmark_count(items) == 0);
    assert(primary_texts(Seq::<PrimaryModel>::empty()) == Seq::<Seq<char>>::empty());
    assert(primary_texts(items) =~= seq![primary_text(p)]);
    assert(join_text(seq![primary_text(p)], " | "@) == primary_text(p));
}

/// The boolean literal types render to distinct words: `true` as `да` and
/// `false` as `нет`, so the rendering of a boolean literal type tells its value.
pub proof fn law_boolean_literal_words(b: bool, c: bool)
    ensures
        type_text(TypeModel { items: seq![PrimaryModel::Literal(LiteralModel::Boolean(true))] })
            == "да"@,
        type_text(TypeModel { items: seq![PrimaryModel::Literal(LiteralModel::Boolean(false))] })
            == "нет"@,
        type_text(TypeModel { items: seq![PrimaryModel::Literal(LiteralModel::Boolean(b))] })
            == type_text(TypeModel { items: seq![PrimaryModel::Literal(LiteralModel::Boolean(c))] })
            <==> b == c,
{
    reveal_strlit("да");
    reveal_strlit("нет");
    lemma_single_type_text(PrimaryModel::Literal(LiteralModel::Boolean(true)));
    lemma_single_type_text(PrimaryModel::Literal(LiteralModel::Boolean(false)));
    assert("да"@.len() != "нет"@.len());
}

/// A string literal type renders as its characters between double quotes.
pub proof fn law_string_literal_quoted(t: Seq<char>)
    ensures
        type_text(TypeModel { items: seq![PrimaryModel::Literal(LiteralModel::Str(t))] }) == seq![
            '"',
        ] + t + seq!['"'],
{
    reveal_strlit("\"");
    lemma_single_type_text(PrimaryModel::Literal(LiteralModel::Str(t)));
    assert("\""@ + t + "\""@ =~= seq!['"'] + t + seq!['"']);
}

/// A function's rendering starts with the `#js.МассивПараметров` annotation
/// line exactly when one of its arguments, at any position, is a rest
/// parameter (its name starts with `...`); whatever words come before its
/// name, the annotation comes first.
pub proof fn law_rest_annotation(f: FunctionModel, modifier: Seq<char>, ident_level: nat)
    ensures
        (exists|i: int| 0 <= i < f.args.len() && starts_with_dots(#[trigger] f.args[i].name)) ==> (
        spaces(ident_level) + "#js.МассивПараметров\n"@).is_prefix_of(
            function_text_with_modifier(f, modifier, ident_level),
        ),
        function_text(f, ident_level).len() > ident_level,
        (function_text(f, ident_level)[ident_level as int] == '#') <==> (exists|i: int|
            0 <= i < f.args.len() && starts_with_dots(#[trigger] f.args[i].name)),
{
    reveal_strlit("#js.МассивПараметров\n");
    reveal_strlit("параллельная");
    reveal_strlit("при создании");
    reveal_strlit("операция ");
    reveal_strlit("(");
    let l = ident_level;
    let ann = spaces(l) + "#js.МассивПараметров\n"@;
    let m = modifier + if f.is_async {
        "параллельная"@
    } else {
        seq![]
    };
    let m2 = if m.len() > 0 {
        m + "\n"@ + spaces(l)
    } else {
        seq![]
    };
    let head = if f.name == "constructor"@ {
        "при создании"@
    } else {
        "операция "@ + f.name + angle_list(type_param_texts(f.generics))
    };
    let tail = spaces(l) + m2 + head + paren_list(argument_texts(f.args)) + return_part(f.ret);
    let whole = function_text_with_modifier(f, modifier, l);
    assert(whole == annotation_text(f, l) + tail);
    if has_rest_argument(f.args) {
        assert(whole =~= ann + tail);
        assert(whole.subrange(0, ann.len() as int) =~= ann);
    }
    // with no words before the name
    let fm = if f.is_async {
        "параллельная"@
    } else {
        seq![]
    };
    let fm2 = if fm.len() > 0 {
        fm + "\n"@ + spaces(l)
    } else {
        seq![]
    };
    assert(seq![] + fm =~= fm);
    let ftail = spaces(l) + fm2 + head + paren_list(argument_texts(f.args)) + return_part(f.ret);
    let text = function_text(f, l);
    assert(text == annotation_text(f, l) + ftail);
    assert(head.len() > 0);
    if has_rest_argument(f.args) {
        assert(text =~= ann + ftail);
        assert(text[l as int] == ann[l as int]);
        assert(ann[l as int] == '#');
    } else {
        assert(text =~= ftail);
        assert(ftail[l as int] != '#') by {
            if f.is_async {
                assert(ftail[l as int] == fm2[0]);
                assert(fm2[0] == 'п');
            } else {
                assert(ftail[l as int] == head[0]);
                if f.name == "constructor"@ {
                    assert(head[0] == 'п');
                } else {
                    assert(head[0] == 'о');
                }
            }
        }
    }
}

/// A union of one type with `null`, `undefined` or `void` members, however
/// many and wherever they stand, is written as that type made optional:
/// followed by `?`, parenthesized first when it is a function type, and left
/// as it is when it is already optional in Artel (`any`, `unknown`, an
/// unsupported type).
pub proof fn law_optional_union(before: Seq<PrimaryModel>, p: PrimaryModel, after: Seq<PrimaryModel>)
    requires
        !is_questionmark(p),
        all_questionmarks(before),
        all_questionmarks(after),
        before.len() + after.len() > 0,
    ensures
        type_text(TypeModel { items: before.push(p) + after }) == if is_questionmark_by_default(p) {
            primary_text(p)
        } else if !can_be_annotated_to_left(p) {
            "("@ + primary_text(p) + ")?"@
        } else {
            primary_text(p) + "?"@
        },
{
    let items = before.push(p) + after;
    lemma_questionmark_count_concat(before.push(p), after);
    lemma_questionmark_count_concat(before, seq![p]);
    assert(before + seq![p] =~= before.push(p));
    lemma_all_questionmarks_count(before);
    lemma_all_questionmarks_count(after);
    assert(questionmark_count(seq![p]) == 0) by {
        assert(seq![p].drop_last() =~= Seq::<PrimaryModel>::empty());
        assert(seq![p].last() == p);
        assert(questionmark_count(Seq::<PrimaryModel>::empty()) == 0);
    }
    lemma_solid_index_questionmark_suffix(before.push(p), after);
    assert(solid_index(before.push(p)) == before.len());
    assert(items[before.len() as int] == p);
}

proof fn lemma_questionmark_count_step(items: Seq<PrimaryModel>, i: int)
    requires
        0 <= i < items.len(),
    ensures
        questionmark_count(items.take(i + 1)) == questionmark_count(items.take(i)) + if is_questionmark(
            items[i],
        ) {
            1nat
        } else {
            0nat
        },
        solid_index(items.take(i + 1)) == if is_questionmark(items[i]) {
            solid_index(items.take(i))
        } else {
            i
        },
{
    assert(items.take(i + 1).drop_last() =~= items.take(i));
}

proof fn lemma_type_param_texts_len(ps: Seq<TypeParamModel>)
    ensures
        type_param_texts(ps).len() == ps.len(),
    decreases ps.len(),
{
    if ps.len() > 0 {
        lemma_type_param_texts_len(ps.drop_last());
    }
}

proof fn lemma_solid_index_bounds(items: Seq<PrimaryModel>)
    ensures
        -1 <= solid_index(items) < items.len(),
        questionmark_count(items) <= items.len(),
        solid_index(items) == -1 ==> questionmark_count(items) == items.len(),
        solid_index(items) >= 0 ==> !is_questionmark(items[solid_index(items)]),
    decreases items.len(),
{
    if items.len() > 0 {
        lemma_solid_index_bounds(items.drop_last());
    }
}

impl PredefinedType {
    pub fn render(&self) -> (r: String)
        ensures
            r@ == predefined_text(*self),
    {
        match self {
            PredefinedType::Any => owned("/*(!) any */ Объект?"),
            PredefinedType::Number => owned("Число"),
            PredefinedType::Boolean => owned("ДаНет"),
            PredefinedType::String => owned("Текст"),
            PredefinedType::Void => owned("Ничего"),
            PredefinedType::Object => owned("Объект"),
            PredefinedType::Never => owned("Никогда"),
            PredefinedType::Unknown => owned("/*(!) unknown */ Объект?"),
            PredefinedType::Symbol => owned("Символ"),
            PredefinedType::UniqueSymbol => owned("/*(!) unique symbol */ Объект"),
        }
    }

    /// The predefined type a TypeScript keyword names.
    pub fn from(value: &str) -> (r: Self)
        requires
            predefined_of(value@) is Some,
        ensures
            Some(r) == predefined_of(value@),
    {
        match predefined_type_of(value) {
            Some(p) => p,
            None => PredefinedType::Any,
        }
    }
}

/// The predefined type a TypeScript keyword names, if it names one.
pub open spec fn predefined_of(s: Seq<char>) -> Option<PredefinedType> {
    if s == "any"@ {
        Some(PredefinedType::Any)
    } else if s == "number"@ {
        Some(PredefinedType::Number)
    } else if s == "boolean"@ {
        Some(PredefinedType::Boolean)
    } else if s == "string"@ {
        Some(PredefinedType::String)
    } else if s == "void"@ {
        Some(PredefinedType::Void)
    } else if s == "object"@ {
        Some(PredefinedType::Object)
    } else if s == "never"@ {
        Some(PredefinedType::Never)
    } else if s == "unknown"@ {
        Some(PredefinedType::Unknown)
    } else if s == "symbol"@ {
        Some(PredefinedType::Symbol)
    } else if s == "unique symbol"@ {
        Some(PredefinedType::UniqueSymbol)
    } else {
        None
    }
}

/// Looks up the predefined type a TypeScript keyword names.
pub fn predefined_type_of(value: &str) -> (r: Option<PredefinedType>)
    ensures
        r == predefined_of(value@),
{
    let s = owned(value);
    if text_is(&s, "any") {
        Some(PredefinedType::Any)
    } else if text_is(&s, "number") {
        Some(PredefinedType::Number)
    } else if text_is(&s, "boolean") {
        Some(PredefinedType::Boolean)
    } else if text_is(&s, "string") {
        Some(PredefinedType::String)
    } else if text_is(&s, "void") {
        Some(PredefinedType::Void)
    } else if text_is(&s, "object") {
        Some(PredefinedType::Object)
    } else if text_is(&s, "never") {
        Some(PredefinedType::Never)
    } else if text_is(&s, "unknown") {
        Some(PredefinedType::Unknown)
    } else if text_is(&s, "symbol") {
        Some(PredefinedType::Symbol)
    } else if text_is(&s, "unique symbol") {
        Some(PredefinedType::UniqueSymbol)
    } else {
        None
    }
}

impl LiteralType {
    pub fn render(&self) -> (r: String)
        ensures
            r@ == literal_text(self@),
    {
        match self {
            LiteralType::Undefined => owned("пусто"),
            LiteralType::Null => owned("пусто"),
            LiteralType::String(x) => {
                let mut r = owned("\"");
                r.append(x.as_str());
                r.append("\"");
                r
            },
            LiteralType::Number(x) => x.clone(),
            LiteralType::Boolean(b) => if *b {
                owned("да")
            } else {
                owned("нет")
            },
        }
    }
}

/// The return type part for an optional return type.
fn return_type_str(ret: &Option<Type>) -> (r: String)
    requires
        return_ok(option_type_model(*ret)),
    ensures
        r@ == return_part(option_type_model(*ret)),
    decreases ret,
{
    match ret {
        Some(t) => {
            if t.is_nothing() {
                String::new()
            } else {
                let mut r = owned(": ");
                let body = t.render();
                r.append(body.as_str());
                r
            }
        },
        None => {
            let mut r = owned(": ");
            r.append("/*(!) ");
            r.append("no_type");
            r.append(" */ Объект?");
            r
        },
    }
}

/// Renders each type, in order.
fn render_types(ts: &Vec<Type>) -> (r: Vec<String>)
    requires
        types_ok(types_model(*ts)),
    ensures
        texts(r@) == type_texts(types_model(*ts)),
    decreases ts,
{
    let ghost m = types_model(*ts);
    let n = ts.len();
    let mut parts: Vec<String> = Vec::new();
    let mut j: usize = 0;
    while j < n
        invariant
            j <= n == ts.len(),
            m == types_model(*ts),
            types_ok(m),
            texts(parts@) == type_texts(m.take(j as int)),
        decreases n - j,
    {
        proof {
            assert(decreases_to!(ts => ts@[j as int]));
            assert(type_ok(m[j as int]));
            assert(m.take(j + 1).drop_last() =~= m.take(j as int));
        }
        let one = ts[j].render();
        proof {
            lemma_texts_push(parts@, one);
        }
        parts.push(one);
        j = j + 1;
    }
    assert(m.take(n as int) =~= m);
    parts
}

impl Type {
    /// Whether the type is left out when it is the only return type of a
    /// function: exactly `void`, `null` or `undefined`.
    pub fn is_nothing(&self) -> (r: bool)
        ensures
            r == is_nothing(self@),
    {
        if self.0.len() == 1 {
            match &self.0[0] {
                PrimaryType::PredefinedType(PredefinedType::Void) => true,
                PrimaryType::LiteralType(LiteralType::Null) => true,
                PrimaryType::LiteralType(LiteralType::Undefined) => true,
                _ => false,
            }
        } else {
            false
        }
    }

    /// `: TYPE` for a return type, or nothing when the type is left out.
    pub fn convert_return_type(&self) -> (r: String)
        requires
            type_ok(self@),
        ensures
            r@ == return_text(self@),
    {
        if self.is_nothing() {
            String::new()
        } else {
            let mut r = owned(": ");
            let body = self.render();
            r.append(body.as_str());
            r
        }
    }

    pub fn render(&self) -> (r: String)
        requires
            type_ok(self@),
        ensures
            r@ == type_text(self@),
        decreases self,
    {
        let ghost items = self@.items;
        let n = self.0.len();
        let mut count: usize = 0;
        let mut solid: usize = 0;
        let mut has_solid = false;
        let mut i: usize = 0;
        while i < n
            invariant
                i <= n == self.0.len(),
                items == self@.items,
                count <= i,
                count == questionmark_count(items.take(i as int)),
                has_solid == (solid_index(items.take(i as int)) >= 0),
                has_solid ==> solid == solid_index(items.take(i as int)),
            decreases n - i,
        {
            proof {
                lemma_questionmark_count_step(items, i as int);
                lemma_solid_index_bounds(items.take(i as int));
            }
            if self.0[i].is_questionmark() {
                count = count + 1;
            } else {
                solid = i;
                has_solid = true;
            }
            i = i + 1;
        }
        proof {
            assert(items.take(n as int) =~= items);
            lemma_solid_index_bounds(items);
        }
        if n - count == 1 && count > 0 {
            assert(has_solid);
            assert(solid < n);
            proof {
                assert(decreases_to!(self => self.0@[solid as int]));
                assert(primary_ok(items[solid as int]));
            }
            let one = self.0[solid].render();
            if self.0[solid].is_questionmark_bydefault() {
                one
            } else if !self.0[solid].can_be_anottated_to_left() {
                let mut r = owned("(");
                r.append(one.as_str());
                r.append(")?");
                r
            } else {
                let mut r = one;
                r.append("?");
                r
            }
        } else {
            let mut parts: Vec<String> = Vec::new();
            let mut j: usize = 0;
            while j < n
                invariant
                    j <= n == self.0.len(),
                    items == self@.items,
                    type_ok(self@),
                    texts(parts@) == primary_texts(items.take(j as int)),
                decreases n - j,
            {
                proof {
                    assert(decreases_to!(self => self.0@[j as int]));
                    assert(primary_ok(items[j as int]));
                    assert(items.take(j + 1).drop_last() =~= items.take(j as int));
                }
                let one = self.0[j].render();
                proof {
                    lemma_texts_push(parts@, one);
                }
                parts.push(one);
                j = j + 1;
            }
            assert(items.take(n as int) =~= items);
            join_strings(&parts, " | ")
        }
    }
}

impl PrimaryType {
    /// `null`, `undefined` and `void` members make a union optional.
    pub fn is_questionmark(&self) -> (r: bool)
        ensures
            r == is_questionmark(self@),
    {
        match self {
            PrimaryType::LiteralType(LiteralType::Null) => true,
            PrimaryType::LiteralType(LiteralType::Undefined) => true,
            PrimaryType::PredefinedType(PredefinedType::Void) => true,
            _ => false,
        }
    }

    /// Whether the type is optional in Artel already, so no `?` can be added.
    pub fn is_questionmark_bydefault(&self) -> (r: bool)
        ensures
            r == is_questionmark_by_default(self@),
    {
        match self {
            PrimaryType::UnsupportedAny(_) => true,
            PrimaryType::PredefinedType(PredefinedType::Any) => true,
            PrimaryType::PredefinedType(PredefinedType::Unknown) => true,
            _ => false,
        }
    }

    /// When a function type is the last type of a type expression, a `?` cannot
    /// be put right after it.
    pub fn can_be_anottated_to_left(&self) -> (r: bool)
        ensures
            r == can_be_annotated_to_left(self@),
    {
        match self {
            PrimaryType::FunctionType(_) => false,
            _ => true,
        }
    }

    /// Formats a slice of types as if they were a tuple.
    pub fn artel_str_tuple(tuple_type: &Vec<Type>) -> (r: String)
        requires
            types_ok(types_model(*tuple_type)),
        ensures
            r@ == tuple_text(types_model(*tuple_type)),
        decreases tuple_type,
    {
        let ghost m = types_model(*tuple_type);
        let n = tuple_type.len();
        let mut parts: Vec<String> = Vec::new();
        let mut j: usize = 0;
        while j < n
            invariant
                j <= n == tuple_type.len(),
                m == types_model(*tuple_type),
                types_ok(m),
                texts(parts@) == tuple_field_texts(m.take(j as int)),
            decreases n - j,
        {
            proof {
                assert(decreases_to!(tuple_type => tuple_type@[j as int]));
                assert(type_ok(m[j as int]));
                assert(m.take(j + 1).drop_last() =~= m.take(j as int));
            }
            let mut one = owned("_");
            let num = decimal_string(j);
            one.append(num.as_str());
            one.append(": ");
            let body = tuple_type[j].render();
            one.append(body.as_str());
            proof {
                lemma_texts_push(parts@, one);
            }
            parts.push(one);
            j = j + 1;
        }
        assert(m.take(n as int) =~= m);
        let mut r = owned("объект { ");
        let joined = join_strings(&parts, ", ");
        r.append(joined.as_str());
        r.append(" }");
        r
    }

    pub fn render(&self) -> (r: String)
        requires
            primary_ok(self@),
        ensures
            r@ == primary_text(self@),
        decreases self,
    {
        match self {
            PrimaryType::UnsupportedAny(s) => {
                let mut r = owned("/*(!) ");
                r.append(s.as_str());
                r.append(" */ Объект?");
                r
            },
            PrimaryType::LiteralType(l) => l.render(),
            PrimaryType::PredefinedType(p) => p.render(),
            PrimaryType::TypeReference(t) => t.render(),
            PrimaryType::ObjectType(o) => o.render(),
            PrimaryType::FunctionType(f) => f.artel_str_as_functype(0),
            PrimaryType::ArrayType(t) => {
                let mut r = owned("Список<");
                let body = t.render();
                r.append(body.as_str());
                r.append(">");
                r
            },
            PrimaryType::TupleType(ts) => Self::artel_str_tuple(ts),
            PrimaryType::ReadonlyType(t) => {
                if t.0.len() > 1 {
                    let mut r = owned("/*(!) защищено */ (");
                    let body = t.render();
                    r.append(body.as_str());
                    r.append(")");
                    r
                } else {
                    let mut r = owned("/*(!) защищено */ ");
                    let body = t.render();
                    r.append(body.as_str());
                    r
                }
            },
            PrimaryType::PredicateType(name, t) => {
                let mut r = owned("/*(!) ");
                r.append(name.as_str());
                r.append(" is */ ");
                let body = t.render();
                r.append(body.as_str());
                r
            },
        }
    }
}

impl TypeReference {
    pub fn new(name: Identifier, type_arguments: Vec<Type>) -> (r: Self)
        ensures
            r.name == name,
            r.type_arguments == type_arguments,
    {
        TypeReference { name, type_arguments }
    }

    pub fn render(&self) -> (r: String)
        requires
            types_ok(self@.args),
        ensures
            r@ == type_ref_text(self@),
        decreases self,
    {
        let mut r = self.name.0.clone();
        if self.type_arguments.len() > 0 {
            let parts = render_types(&self.type_arguments);
            r.append("<");
            let joined = join_strings(&parts, ", ");
            r.append(joined.as_str());
            r.append(">");
        }
        r
    }
}

impl TypeParameter {
    pub fn new(indentifier: Identifier, constraint: Option<Type>, default: Option<Type>) -> (r: Self)
        ensures
            r.indentifier == indentifier,
            r.constraint == constraint,
            r.default == default,
    {
        TypeParameter { indentifier, constraint, default }
    }

    pub fn render(&self) -> (r: String)
        requires
            type_param_ok(self@),
        ensures
            r@ == type_param_text(self@),
        decreases self,
    {
        let mut r = self.indentifier.0.clone();
        match &self.constraint {
            Some(c) => {
                r.append(" = ");
                let body = c.render();
                r.append(body.as_str());
            },
            None => {},
        }
        r
    }
}

/// Renders generic parameters as `<T, A = B>`, or nothing when there are none.
pub fn generic_params_str(params: &Vec<TypeParameter>) -> (r: String)
    requires
        type_params_ok(type_params_model(*params)),
    ensures
        r@ == generics_text(type_params_model(*params)),
    decreases params,
{
    let ghost m = type_params_model(*params);
    proof {
        lemma_type_param_texts_len(m);
    }
    if params.len() == 0 {
        return String::new();
    }
    let n = params.len();
    let mut parts: Vec<String> = Vec::new();
    let mut j: usize = 0;
    while j < n
        invariant
            j <= n == params.len(),
            m == type_params_model(*params),
            type_params_ok(m),
            texts(parts@) == type_param_texts(m.take(j as int)),
        decreases n - j,
    {
        proof {
            assert(decreases_to!(params => params@[j as int]));
            assert(type_param_ok(m[j as int]));
            assert(m.take(j + 1).drop_last() =~= m.take(j as int));
        }
        let one = params[j].render();
        proof {
            lemma_texts_push(parts@, one);
        }
        parts.push(one);
        j = j + 1;
    }
    assert(m.take(n as int) =~= m);
    let mut r = owned("<");
    let joined = join_strings(&parts, ", ");
    r.append(joined.as_str());
    r.append(">");
    r
}

impl ObjectType {
    pub fn new(body: Vec<InterfaceMember>) -> (r: Self)
        ensures
            r.body == body,
    {
        ObjectType { body }
    }

    pub fn render(&self) -> (r: String)
        requires
            members_ok(self@),
        ensures
            r@ == object_text(self@),
        decreases self,
    {
        let ghost m = members_model(self.body);
        let n = self.body.len();
        let mut parts: Vec<String> = Vec::new();
        let mut j: usize = 0;
        while j < n
            invariant
                j <= n == self.body.len(),
                m == members_model(self.body),
                members_ok(m),
                texts(parts@) == flat_member_texts(m.take(j as int)),
            decreases n - j,
        {
            proof {
                assert(decreases_to!(self => self.body@[j as int]));
                assert(member_ok(m[j as int]));
                assert(m.take(j + 1).drop_last() =~= m.take(j as int));
            }
            let one = self.body[j].render(0);
            let flat = replace_newlines(one.as_str());
            proof {
                lemma_texts_push(parts@, flat);
            }
            parts.push(flat);
            j = j + 1;
        }
        assert(m.take(n as int) =~= m);
        let mut r = owned("объект { ");
        let joined = join_strings(&parts, "; ");
        r.append(joined.as_str());
        r.append(" }");
        r
    }
}

impl InterfaceMember {
    pub fn render(&self, ident_level: usize) -> (r: String)
        requires
            ident_level <= 100,
            member_ok(self@),
        ensures
            r@ == member_text(self@, ident_level as nat),
        decreases self,
    {
        match self {
            InterfaceMember::Property(p) => p.render(ident_level),
            InterfaceMember::Method(d) => d.artel_str_with_modifier(String::new(), ident_level),
            InterfaceMember::Unsupported(d) => {
                let mut r = owned(indent(ident_level));
                r.append("/*(!) ");
                r.append(d.as_str());
                r.append("*/");
                r
            },
        }
    }
}

impl ArtelProperty {
    pub fn new(readonly: bool, name: Identifier, ty: Type) -> (r: Self)
        ensures
            r.readonly == readonly,
            r.name == name,
            r.ty == ty,
    {
        ArtelProperty { readonly, name, ty }
    }

    pub fn render(&self, ident_level: usize) -> (r: String)
        requires
            ident_level <= 100,
            type_ok(self@.ty),
        ensures
            r@ == property_text(self@, ident_level as nat),
        decreases self,
    {
        let mut r = owned(indent(ident_level));
        if self.readonly {
            r.append("защищено ");
            r.append("\n");
            r.append(indent(ident_level));
        }
        r.append(self.name.0.as_str());
        r.append(": ");
        let body = self.ty.render();
        r.append(body.as_str());
        r
    }

    pub fn artel_str_with_modifier(&self, modifier: String, ident_level: usize) -> (r: String)
        requires
            ident_level <= 100,
            type_ok(self@.ty),
        ensures
            r@ == property_text_with_modifier(self@, modifier@, ident_level as nat),
        decreases self,
    {
        let mut m = modifier;
        if self.readonly {
            m.append("защищено");
        }
        let mut r = owned(indent(ident_level));
        if !m.as_str().is_empty() {
            r.append(m.as_str());
            r.append("\n");
            r.append(indent(ident_level));
        }
        r.append(self.name.0.as_str());
        r.append(": ");
        let body = self.ty.render();
        r.append(body.as_str());
        r
    }
}

impl ArtelExpression {
    pub fn render(&self) -> (r: String)
        ensures
            r@ == expression_text(self@),
    {
        if text_is(&self.0, "false") {
            owned("нет")
        } else if text_is(&self.0, "true") {
            owned("да")
        } else {
            self.0.clone()
        }
    }
}

impl ArtelFunctionArgument {
    pub fn new(name: Identifier, ty: Type, default_value: Option<ArtelExpression>) -> (r: Self)
        ensures
            r.name == name,
            r.ty == ty,
            r.default_value == default_value,
    {
        ArtelFunctionArgument { name, ty, default_value }
    }

    pub fn render(&self) -> (r: String)
        requires
            type_ok(self@.ty),
        ensures
            r@ == argument_text(self@),
        decreases self,
    {
        let mut r = if has_dots_prefix(&self.name.0) {
            drop_dots_prefix(&self.name.0)
        } else {
            self.name.0.clone()
        };
        r.append(": ");
        let body = self.ty.render();
        r.append(body.as_str());
        match &self.default_value {
            Some(d) => {
                r.append(" = ");
                let e = d.render();
                r.append(e.as_str());
            },
            None => {},
        }
        r
    }
}

/// Renders an argument list as `(a: T, b: U)`.
pub fn arguments_str(args: &Vec<ArtelFunctionArgument>) -> (r: String)
    requires
        arguments_ok(arguments_model(*args)),
    ensures
        r@ == arguments_text(arguments_model(*args)),
    decreases args,
{
    let ghost m = arguments_model(*args);
    let n = args.len();
    let mut parts: Vec<String> = Vec::new();
    let mut j: usize = 0;
    while j < n
        invariant
            j <= n == args.len(),
            m == arguments_model(*args),
            arguments_ok(m),
            texts(parts@) == argument_texts(m.take(j as int)),
        decreases n - j,
    {
        proof {
            assert(decreases_to!(args => args@[j as int]));
            assert(type_ok(m[j as int].ty));
            assert(m.take(j + 1).drop_last() =~= m.take(j as int));
        }
        let one = args[j].render();
        proof {
            lemma_texts_push(parts@, one);
        }
        parts.push(one);
        j = j + 1;
    }
    assert(m.take(n as int) =~= m);
    let mut r = owned("(");
    let joined = join_strings(&parts, ", ");
    r.append(joined.as_str());
    r.append(")");
    r
}

impl FunctionDeclaration {
    pub fn new(
        is_async: bool,
        name: Identifier,
        generic_params: GenericParams,
        arguments: Vec<ArtelFunctionArgument>,
        return_type: Option<Type>,
    ) -> (r: Self)
        ensures
            r.is_async == is_async,
            r.name == name,
            r.generic_params == generic_params,
            r.arguments == arguments,
            r.return_type == return_type,
    {
        FunctionDeclaration { is_async, name, generic_params, arguments, return_type }
    }

    /// `#js.МассивПараметров` on a line of its own when an argument is a rest parameter.
    pub fn annotation_array_param(&self, ident_level: usize) -> (r: String)
        requires
            ident_level <= 100,
        ensures
            r@ == annotation_text(self@, ident_level as nat),
    {
        let ghost am = arguments_model(self.arguments);
        let n = self.arguments.len();
        let mut any = false;
        let mut j: usize = 0;
        while j < n
            invariant
                j <= n == self.arguments.len(),
                am == arguments_model(self.arguments),
                any == exists|k: int| 0 <= k < j && starts_with_dots(#[trigger] am[k].name),
            decreases n - j,
        {
            assert(am[j as int].name == self.arguments@[j as int].name.0@);
            if has_dots_prefix(&self.arguments[j].name.0) {
                any = true;
            }
            j = j + 1;
        }
        if any {
            let mut r = owned(indent(ident_level));
            r.append("#js.МассивПараметров\n");
            r
        } else {
            String::new()
        }
    }

    pub fn artel_str_return_type(&self, _ident_level: usize) -> (r: String)
        requires
            return_ok(self@.ret),
        ensures
            r@ == return_part(self@.ret),
    {
        return_type_str(&self.return_type)
    }

    /// The function as a function type: `операция<T>(a: T): R`.
    pub fn artel_str_as_functype(&self, _ident_level: usize) -> (r: String)
        requires
            function_ok(self@),
        ensures
            r@ == functype_text(self@),
        decreases self,
    {
        let mut r = owned("операция");
        let g = generic_params_str(&self.generic_params);
        r.append(g.as_str());
        let a = arguments_str(&self.arguments);
        r.append(a.as_str());
        let ret = return_type_str(&self.return_type);
        r.append(ret.as_str());
        r
    }

    pub fn artel_str_with_modifier(&self, modifier: String, ident_level: usize) -> (r: String)
        requires
            ident_level <= 100,
            function_ok(self@),
        ensures
            r@ == function_text_with_modifier(self@, modifier@, ident_level as nat),
        decreases self,
    {
        let mut m = modifier;
        if self.is_async {
            m.append("параллельная");
        }
        let mut r = self.annotation_array_param(ident_level);
        r.append(indent(ident_level));
        if !m.as_str().is_empty() {
            r.append(m.as_str());
            r.append("\n");
            r.append(indent(ident_level));
        }
        if text_is(&self.name.0, "constructor") {
            r.append("при создании");
        } else {
            r.append("операция ");
            r.append(self.name.0.as_str());
            let g = generic_params_str(&self.generic_params);
            r.append(g.as_str());
        }
        let a = arguments_str(&self.arguments);
        r.append(a.as_str());
        let ret = return_type_str(&self.return_type);
        r.append(ret.as_str());
        r
    }

    pub fn render(&self, ident_level: usize) -> (r: String)
        requires
            ident_level <= 100,
            function_ok(self@),
        ensures
            r@ == function_text(self@, ident_level as nat),
    {
        self.artel_str_with_modifier(String::new(), ident_level)
    }
}


// ---------------------------------------------------------------------------
// Deciding what can be rendered
// ---------------------------------------------------------------------------

impl Type {
    /// Whether the type can be rendered: every union inside it is non-empty.
    pub fn can_render(&self) -> (r: bool)
        ensures
            r == type_ok(self@),
        decreases self,
    {
        let ghost items = self@.items;
        let n = self.0.len();
        if n == 0 {
            return false;
        }
        let mut j: usize = 0;
        while j < n
            invariant
                j <= n == self.0.len(),
                items == self@.items,
                forall|k: int| 0 <= k < j ==> primary_ok(#[trigger] items[k]),
            decreases n - j,
        {
            proof {
                assert(decreases_to!(self => self.0@[j as int]));
            }
            if !self.0[j].can_render() {
                assert(!primary_ok(items[j as int]));
                return false;
            }
            j = j + 1;
        }
        true
    }
}

impl PrimaryType {
    pub fn can_render(&self) -> (r: bool)
        ensures
            r == primary_ok(self@),
        decreases self,
    {
        match self {
            PrimaryType::TypeReference(r) => types_can_render(&r.type_arguments),
            PrimaryType::ObjectType(o) => members_can_render(&o.body),
            PrimaryType::FunctionType(f) => f.can_render(),
            PrimaryType::ArrayType(t) => t.can_render(),
            PrimaryType::ReadonlyType(t) => t.can_render(),
            PrimaryType::TupleType(ts) => types_can_render(ts),
            PrimaryType::PredicateType(_, t) => t.can_render(),
            _ => true,
        }
    }
}

pub fn types_can_render(ts: &Vec<Type>) -> (r: bool)
    ensures
        r == types_ok(types_model(*ts)),
    decreases ts,
{
    let ghost m = types_model(*ts);
    let n = ts.len();
    let mut j: usize = 0;
    while j < n
        invariant
            j <= n == ts.len(),
            m == types_model(*ts),
            forall|k: int| 0 <= k < j ==> type_ok(#[trigger] m[k]),
        decreases n - j,
    {
        proof {
            assert(decreases_to!(ts => ts@[j as int]));
        }
        if !ts[j].can_render() {
            assert(!type_ok(m[j as int]));
            return false;
        }
        j = j + 1;
    }
    true
}

fn members_can_render(ms: &Vec<InterfaceMember>) -> (r: bool)
    ensures
        r == members_ok(members_model(*ms)),
    decreases ms,
{
    let ghost m = members_model(*ms);
    let n = ms.len();
    let mut j: usize = 0;
    while j < n
        invariant
            j <= n == ms.len(),
            m == members_model(*ms),
            forall|k: int| 0 <= k < j ==> member_ok(#[trigger] m[k]),
        decreases n - j,
    {
        proof {
            assert(decreases_to!(ms => ms@[j as int]));
        }
        if !ms[j].can_render() {
            assert(!member_ok(m[j as int]));
            return false;
        }
        j = j + 1;
    }
    true
}

/// Whether every type parameter's constraint can be rendered.
pub fn type_params_can_render(ps: &Vec<TypeParameter>) -> (r: bool)
    ensures
        r == type_params_ok(type_params_model(*ps)),
    decreases ps,
{
    let ghost m = type_params_model(*ps);
    let n = ps.len();
    let mut j: usize = 0;
    while j < n
        invariant
            j <= n == ps.len(),
            m == type_params_model(*ps),
            forall|k: int| 0 <= k < j ==> type_param_ok(#[trigger] m[k]),
        decreases n - j,
    {
        proof {
            assert(decreases_to!(ps => ps@[j as int]));
        }
        let ok = match &ps[j].constraint {
            Some(c) => {
                proof {
                    assert(decreases_to!(ps@[j as int] => c));
                }
                c.can_render()
            },
            None => true,
        };
        if !ok {
            assert(!type_param_ok(m[j as int]));
            return false;
        }
        j = j + 1;
    }
    true
}

fn arguments_can_render(args: &Vec<ArtelFunctionArgument>) -> (r: bool)
    ensures
        r == arguments_ok(arguments_model(*args)),
    decreases args,
{
    let ghost m = arguments_model(*args);
    let n = args.len();
    let mut j: usize = 0;
    while j < n
        invariant
            j <= n == args.len(),
            m == arguments_model(*args),
            forall|k: int| 0 <= k < j ==> type_ok(#[trigger] m[k].ty),
        decreases n - j,
    {
        proof {
            assert(decreases_to!(args => args@[j as int]));
        }
        if !args[j].ty.can_render() {
            assert(!type_ok(m[j as int].ty));
            return false;
        }
        j = j + 1;
    }
    true
}

impl InterfaceMember {
    pub fn can_render(&self) -> (r: bool)
        ensures
            r == member_ok(self@),
        decreases self,
    {
        match self {
            InterfaceMember::Property(p) => p.ty.can_render(),
            InterfaceMember::Method(f) => f.can_render(),
            InterfaceMember::Unsupported(_) => true,
        }
    }
}

impl FunctionDeclaration {
    /// Whether the function's parameters, arguments and return type can be rendered.
    pub fn can_render(&self) -> (r: bool)
        ensures
            r == function_ok(self@),
        decreases self,
    {
        let ret_ok = match &self.return_type {
            Some(t) => t.can_render(),
            None => true,
        };
        type_params_can_render(&self.generic_params) && arguments_can_render(&self.arguments)
            && ret_ok
    }
}

impl ArtelStr for Type {
    open spec fn artel_ready(&self, ident_level: usize) -> bool {
        type_ok(self@)
    }

    open spec fn artel_text(&self, ident_level: usize) -> Seq<char> {
        type_text(self@)
    }

    fn artel_str(&self, _ident_level: usize) -> (r: String) {
        self.render()
    }
}

impl ArtelStr for PrimaryType {
    open spec fn artel_ready(&self, ident_level: usize) -> bool {
        primary_ok(self@)
    }

    open spec fn artel_text(&self, ident_level: usize) -> Seq<char> {
        primary_text(self@)
    }

    fn artel_str(&self, _ident_level: usize) -> (r: String) {
        self.render()
    }
}

impl ArtelStr for LiteralType {
    open spec fn artel_ready(&self, ident_level: usize) -> bool {
        true
    }

    open spec fn artel_text(&self, ident_level: usize) -> Seq<char> {
        literal_text(self@)
    }

    fn artel_str(&self, _ident_level: usize) -> (r: String) {
        self.render()
    }
}

impl ArtelStr for PredefinedType {
    open spec fn artel_ready(&self, ident_level: usize) -> bool {
        true
    }

    open spec fn artel_text(&self, ident_level: usize) -> Seq<char> {
        predefined_text(*self)
    }

    fn artel_str(&self, _ident_level: usize) -> (r: String) {
        self.render()
    }
}

impl ArtelStr for TypeReference {
    open spec fn artel_ready(&self, ident_level: usize) -> bool {
        types_ok(self@.args)
    }

    open spec fn artel_text(&self, ident_level: usize) -> Seq<char> {
        type_ref_text(self@)
    }

    fn artel_str(&self, _ident_level: usize) -> (r: String) {
        self.render()
    }
}

impl ArtelStr for TypeParameter {
    open spec fn artel_ready(&self, ident_level: usize) -> bool {
        type_param_ok(self@)
    }

    open spec fn artel_text(&self, ident_level: usize) -> Seq<char> {
        type_param_text(self@)
    }

    fn artel_str(&self, _ident_level: usize) -> (r: String) {
        self.render()
    }
}

impl ArtelStr for ObjectType {
    open spec fn artel_ready(&self, ident_level: usize) -> bool {
        members_ok(self@)
    }

    open spec fn artel_text(&self, ident_level: usize) -> Seq<char> {
        object_text(self@)
    }

    fn artel_str(&self, _ident_level: usize) -> (r: String) {
        self.render()
    }
}

impl ArtelStr for Vec<TypeParameter> {
    open spec fn artel_ready(&self, ident_level: usize) -> bool {
        type_params_ok(type_params_model(*self))
    }

    open spec fn artel_text(&self, ident_level: usize) -> Seq<char> {
        generics_text(type_params_model(*self))
    }

    fn artel_str(&self, _ident_level: usize) -> (r: String) {
        generic_params_str(self)
    }
}

impl ArtelStr for InterfaceMember {
    open spec fn artel_ready(&self, ident_level: usize) -> bool {
        ident_level <= 100 && member_ok(self@)
    }

    open spec fn artel_text(&self, ident_level: usize) -> Seq<char> {
        member_text(self@, ident_level as nat)
    }

    fn artel_str(&self, ident_level: usize) -> (r: String) {
        self.render(ident_level)
    }
}

impl ArtelStr for ArtelProperty {
    open spec fn artel_ready(&self, ident_level: usize) -> bool {
        ident_level <= 100 && type_ok(self@.ty)
    }

    open spec fn artel_text(&self, ident_level: usize) -> Seq<char> {
        property_text(self@, ident_level as nat)
    }

    fn artel_str(&self, ident_level: usize) -> (r: String) {
        self.render(ident_level)
    }
}

impl ArtelStr for FunctionDeclaration {
    open spec fn artel_ready(&self, ident_level: usize) -> bool {
        ident_level <= 100 && function_ok(self@)
    }

    open spec fn artel_text(&self, ident_level: usize) -> Seq<char> {
        function_text(self@, ident_level as nat)
    }

    fn artel_str(&self, ident_level: usize) -> (r: String) {
        self.render(ident_level)
    }
}

impl ArtelStr for ArtelFunctionArgument {
    open spec fn artel_ready(&self, ident_level: usize) -> bool {
        type_ok(self@.ty)
    }

    open spec fn artel_text(&self, ident_level: usize) -> Seq<char> {
        argument_text(self@)
    }

    fn artel_str(&self, _ident_level: usize) -> (r: String) {
        self.render()
    }
}

impl ArtelStr for Vec<ArtelFunctionArgument> {
    open spec fn artel_ready(&self, ident_level: usize) -> bool {
        arguments_ok(arguments_model(*self))
    }

    open spec fn artel_text(&self, ident_level: usize) -> Seq<char> {
        arguments_text(arguments_model(*self))
    }

    fn artel_str(&self, _ident_level: usize) -> (r: String) {
        arguments_str(self)
    }
}

impl ArtelStr for ArtelExpression {
    open spec fn artel_ready(&self, ident_level: usize) -> bool {
        true
    }

    open spec fn artel_text(&self, ident_level: usize) -> Seq<char> {
        expression_text(self@)
    }

    fn artel_str(&self, _ident_level: usize) -> (r: String) {
        self.render()
    }
}

} // verus!
