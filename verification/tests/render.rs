use ts2artel::artel_str::ArtelStr;
use ts2artel::ast_type::{
    ArtelExpression, ArtelFunctionArgument, ArtelProperty, FunctionDeclaration, Identifier,
    InterfaceMember, LiteralType, ObjectType, PredefinedType, PrimaryType, Type, TypeParameter,
    TypeReference, generic_params_str,
};
use ts2artel::class_declaration::{
    ArtelAccessModifier, ArtelClassDeclaration, ArtelClassMember, ArtelModifier,
    ClassMemberModifiers, GetterSetter,
};
use ts2artel::enum_declaration::{EnumDeclaration, EnumItem};
use ts2artel::identifier::is_keyword_text;
use ts2artel::interface_declaration::ArtelInterfaceDeclaration;
use ts2artel::lexical_declaration::{
    ArtelLexicalDeclaration, ArtelLexicalDeclarationMember, ArtelLexicalDeclarationType,
};
use ts2artel::statement::{
    create_artel_code, ArtelAmbientDeclaration, ArtelInternalModule, ArtelStatement,
};
use ts2artel::text::{indent, set_indent};
use ts2artel::type_alias_declaration::ArtelTypeAliasDeclaration;

fn id(s: &str) -> Identifier {
    Identifier(s.to_owned())
}

fn t(p: PrimaryType) -> Type {
    Type(vec![p])
}

fn number() -> Type {
    t(PrimaryType::PredefinedType(PredefinedType::Number))
}

fn string() -> Type {
    t(PrimaryType::PredefinedType(PredefinedType::String))
}

fn reference(name: &str) -> PrimaryType {
    PrimaryType::TypeReference(TypeReference::new(id(name), Vec::new()))
}

#[test]
fn indent_gives_spaces() {
    assert_eq!(indent(0), "");
    assert_eq!(indent(3), "   ");
    assert_eq!(indent(100).len(), 100);
}

#[test]
fn set_indent_replaces_leading_whitespace() {
    assert_eq!(set_indent("a\n  b\n\tc", 2), "  a\n  b\n  c");
    assert_eq!(set_indent("a\r\n b", 1), " a\n b");
    assert_eq!(set_indent("", 2), "  ");
}

#[test]
fn predefined_types_render() {
    assert_eq!(number().artel_str(0), "Число");
    assert_eq!(t(PrimaryType::PredefinedType(PredefinedType::Boolean)).artel_str(0), "ДаНет");
    assert_eq!(t(PrimaryType::PredefinedType(PredefinedType::Void)).artel_str(0), "Ничего");
    assert_eq!(
        t(PrimaryType::PredefinedType(PredefinedType::Unknown)).artel_str(0),
        "/*(!) unknown */ Объект?"
    );
    assert_eq!(PredefinedType::from("unique symbol").artel_str(0), "/*(!) unique symbol */ Объект");
}

#[test]
fn optional_unions_render_with_question_mark() {
    let ty = Type(vec![reference("A"), PrimaryType::LiteralType(LiteralType::Null)]);
    assert_eq!(ty.artel_str(0), "A?");
    let ty = Type(vec![
        PrimaryType::LiteralType(LiteralType::Undefined),
        reference("A"),
        PrimaryType::LiteralType(LiteralType::Null),
    ]);
    assert_eq!(ty.artel_str(0), "A?");
    let any = Type(vec![
        PrimaryType::PredefinedType(PredefinedType::Any),
        PrimaryType::LiteralType(LiteralType::Undefined),
    ]);
    assert_eq!(any.artel_str(0), "/*(!) any */ Объект?");
    let f = FunctionDeclaration::new(false, id("$FUNCTION_TYPE$"), Vec::new(), Vec::new(), Some(t(
        PrimaryType::PredefinedType(PredefinedType::Void),
    )));
    let ty = Type(vec![PrimaryType::FunctionType(Box::new(f)), PrimaryType::LiteralType(LiteralType::Null)]);
    assert_eq!(ty.artel_str(0), "(операция())?");
}

#[test]
fn unions_render_joined() {
    let ty = Type(vec![
        PrimaryType::PredefinedType(PredefinedType::Number),
        PrimaryType::PredefinedType(PredefinedType::String),
    ]);
    assert_eq!(ty.artel_str(0), "Число | Текст");
    let nulls = Type(vec![
        PrimaryType::LiteralType(LiteralType::Null),
        PrimaryType::LiteralType(LiteralType::Undefined),
    ]);
    assert_eq!(nulls.artel_str(0), "пусто | пусто");
}

#[test]
fn composite_types_render() {
    assert_eq!(t(PrimaryType::ArrayType(Box::new(number()))).artel_str(0), "Список<Число>");
    let union = Type(vec![
        PrimaryType::PredefinedType(PredefinedType::Number),
        PrimaryType::PredefinedType(PredefinedType::String),
    ]);
    assert_eq!(
        t(PrimaryType::ReadonlyType(Box::new(union))).artel_str(0),
        "/*(!) защищено */ (Число | Текст)"
    );
    assert_eq!(
        t(PrimaryType::ReadonlyType(Box::new(number()))).artel_str(0),
        "/*(!) защищено */ Число"
    );
    assert_eq!(
        t(PrimaryType::TupleType(vec![number(), string()])).artel_str(0),
        "объект { _0: Число, _1: Текст }"
    );
    assert_eq!(
        t(PrimaryType::PredicateType("x".to_owned(), Box::new(string()))).artel_str(0),
        "/*(!) x is */ Текст"
    );
    let map = TypeReference::new(id("Map"), vec![string(), number()]);
    assert_eq!(t(PrimaryType::TypeReference(map)).artel_str(0), "Map<Текст, Число>");
    assert_eq!(
        t(PrimaryType::LiteralType(LiteralType::String("hi".to_owned()))).artel_str(0),
        "\"hi\""
    );
    assert_eq!(t(PrimaryType::LiteralType(LiteralType::Boolean(true))).artel_str(0), "да");
    assert_eq!(
        t(PrimaryType::UnsupportedAny("keyof A".to_owned())).artel_str(0),
        "/*(!) keyof A */ Объект?"
    );
}

#[test]
fn object_type_renders_members_on_one_line() {
    let body = vec![
        InterfaceMember::Property(ArtelProperty::new(true, id("x"), number())),
        InterfaceMember::Unsupported("[k: string]: number".to_owned()),
    ];
    let o = ObjectType::new(body);
    assert_eq!(
        o.artel_str(0),
        "объект { защищено  x: Число; /*(!) [k: string]: number*/ }"
    );
}

#[test]
fn generic_params_render_constraint_after_equals() {
    let params = vec![
        TypeParameter::new(id("T"), Some(number()), None),
        TypeParameter::new(id("U"), None, Some(string())),
    ];
    assert_eq!(generic_params_str(&params), "<T = Число, U>");
    assert_eq!(generic_params_str(&Vec::new()), "");
}

#[test]
fn function_renders_with_annotation_and_modifier() {
    let args = vec![ArtelFunctionArgument::new(
        id("...xs"),
        t(PrimaryType::ArrayType(Box::new(number()))),
        None,
    )];
    let f = FunctionDeclaration::new(true, id("f"), Vec::new(), args, None);
    assert_eq!(
        f.artel_str(0),
        "#js.МассивПараметров\nпараллельная\nоперация f(xs: Список<Число>): /*(!) no_type */ Объект?"
    );
    let args = vec![ArtelFunctionArgument::new(
        id("a"),
        number(),
        Some(ArtelExpression("true".to_owned())),
    )];
    let ctor = FunctionDeclaration::new(false, id("constructor"), Vec::new(), args, Some(string()));
    assert_eq!(ctor.artel_str(2), "  при создании(a: Число = да): Текст");
}

#[test]
fn return_type_of_void_is_left_out() {
    let void = t(PrimaryType::PredefinedType(PredefinedType::Void));
    assert!(void.is_nothing());
    assert_eq!(void.convert_return_type(), "");
    assert_eq!(number().convert_return_type(), ": Число");
    let null = t(PrimaryType::LiteralType(LiteralType::Null));
    assert!(null.is_nothing());
}

#[test]
fn return_type_of_undefined_is_left_out() {
    let undefined = t(PrimaryType::LiteralType(LiteralType::Undefined));
    assert!(undefined.is_nothing());
    assert_eq!(undefined.convert_return_type(), "");
    let both = Type(vec![
        PrimaryType::PredefinedType(PredefinedType::Number),
        PrimaryType::LiteralType(LiteralType::Undefined),
    ]);
    assert!(!both.is_nothing());
}

#[test]
fn keyword_identifiers_get_a_backquote() {
    assert_eq!(id("type").artel_str(0), "type`");
    assert_eq!(id("value").artel_str(0), "value");
    assert!(is_keyword_text(&"yield".to_owned()));
    assert!(!is_keyword_text(&"Yield".to_owned()));
}

#[test]
fn interface_renders() {
    let body = vec![
        InterfaceMember::Property(ArtelProperty::new(false, id("x"), number())),
        InterfaceMember::Method(FunctionDeclaration::new(false, id("m"), Vec::new(), Vec::new(), None)),
    ];
    let d = ArtelInterfaceDeclaration::new(id("type"), Vec::new(), Vec::new(), body);
    assert_eq!(
        d.artel_str(0),
        "тип type` = интерфейс\n{\n  x: Число\n\n  операция m(): /*(!) no_type */ Объект?\n}\n"
    );
    let ext = vec![TypeReference::new(id("B"), vec![number()])];
    let d = ArtelInterfaceDeclaration::new(id("A"), Vec::new(), ext, Vec::new());
    assert_eq!(d.artel_str(2), "  тип A = интерфейс B<Число>\n  {\n\n  }\n");
}

fn plain() -> ClassMemberModifiers {
    ClassMemberModifiers::new(ArtelAccessModifier::Default, ArtelModifier::NoModifier)
}

#[test]
fn class_merges_getter_and_setter() {
    let getter = FunctionDeclaration::new(false, id("size"), Vec::new(), Vec::new(), Some(number()));
    let setter = FunctionDeclaration::new(
        false,
        id("size"),
        Vec::new(),
        vec![ArtelFunctionArgument::new(id("v"), number(), None)],
        None,
    );
    let method = FunctionDeclaration::new(false, id("run"), Vec::new(), Vec::new(), Some(t(
        PrimaryType::PredefinedType(PredefinedType::Void),
    )));
    let body = vec![
        ArtelClassMember::Method((plain(), GetterSetter::Getter, getter)),
        ArtelClassMember::Property((
            ClassMemberModifiers::new(ArtelAccessModifier::Public, ArtelModifier::Static),
            ArtelProperty::new(true, id("count"), number()),
        )),
        ArtelClassMember::Method((plain(), GetterSetter::Setter, setter)),
        ArtelClassMember::Method((
            ClassMemberModifiers::new(ArtelAccessModifier::Protected, ArtelModifier::Abstract),
            GetterSetter::NoAccessor,
            method,
        )),
    ];
    let c = ArtelClassDeclaration::new(
        id("Box"),
        Some((id("Base"), vec![TypeParameter::new(id("T"), None, None)])),
        vec![reference_type("I")],
        true,
        vec![TypeParameter::new(id("T"), None, None)],
        body,
    );
    assert!(c.can_render(0));
    assert_eq!(
        c.artel_str(0),
        "тип Box<T> = /*(!) абстрактный */ объект на основе Base<T>, I\n{\n\
         \x20\x20/*(!) public */ глобальный защищено\n  count: Число\n\n\
         \x20\x20скрыто типом /*(!) абстрактный */ \n  операция run()\n\n\
         \x20\x20size: Число\n    при чтении { }\n    при записи { }\n}"
    );
}

fn reference_type(name: &str) -> Type {
    t(reference(name))
}

#[test]
fn class_with_two_getters_cannot_render() {
    let g1 = FunctionDeclaration::new(false, id("x"), Vec::new(), Vec::new(), Some(number()));
    let g2 = FunctionDeclaration::new(false, id("x"), Vec::new(), Vec::new(), Some(number()));
    let body = vec![
        ArtelClassMember::Method((plain(), GetterSetter::Getter, g1)),
        ArtelClassMember::Method((plain(), GetterSetter::Getter, g2)),
    ];
    let c = ArtelClassDeclaration::new(id("C"), None, Vec::new(), false, Vec::new(), body);
    assert!(!c.can_render(0));
    let getter_without_type = FunctionDeclaration::new(false, id("y"), Vec::new(), Vec::new(), None);
    let body = vec![ArtelClassMember::Method((plain(), GetterSetter::Getter, getter_without_type))];
    let c = ArtelClassDeclaration::new(id("C"), None, Vec::new(), false, Vec::new(), body);
    assert!(!c.can_render(0));
}

#[test]
fn empty_class_renders() {
    let c = ArtelClassDeclaration::new(id("E"), None, Vec::new(), false, Vec::new(), Vec::new());
    assert_eq!(c.artel_str(4), "    тип E = объект\n    {\n\n    }");
}

#[test]
fn access_modifiers() {
    assert!(ArtelAccessModifier::from("public") == ArtelAccessModifier::Public);
    assert!(ArtelAccessModifier::from("private") == ArtelAccessModifier::Private);
    assert!(ArtelAccessModifier::default() == ArtelAccessModifier::Default);
    assert_eq!(ArtelAccessModifier::Private.artel_str(0), "/*(!) private */");
    let m = ClassMemberModifiers::new(ArtelAccessModifier::Default, ArtelModifier::Static);
    assert_eq!(m.artel_str(0), "глобальный ");
    assert_eq!(plain().artel_str(0), "");
}

#[test]
fn enum_renders_items_on_lines() {
    let e = EnumDeclaration::new(
        id("Color"),
        vec![EnumItem::new(id("Red"), Some("1".to_owned())), EnumItem::new(id("Green"), None)],
    );
    assert_eq!(e.artel_str(0), "тип Color = вариант\n{\n  Red = 1\n  Green\n}");
}

#[test]
fn lexical_declaration_renders_a_line_per_name() {
    let d = ArtelLexicalDeclaration::new(
        ArtelLexicalDeclarationType::new("const"),
        vec![
            ArtelLexicalDeclarationMember::new(id("x"), number(), Some("5".to_owned())),
            ArtelLexicalDeclarationMember::new(id("y"), string(), None),
        ],
    );
    assert_eq!(d.artel_str(2), "  конст x: Число /*(!) = 5 */\n  конст y: Текст\n");
    assert_eq!(ArtelLexicalDeclarationType::new("let").to_alstr(), "пусть");
    let v = ArtelLexicalDeclaration::new(
        ArtelLexicalDeclarationType::new("var"),
        vec![ArtelLexicalDeclarationMember::new(id("z"), number(), None)],
    );
    assert_eq!(v.artel_str(0), "/*(!) var */ z: Число\n");
}

#[test]
fn type_alias_renders() {
    let a = ArtelTypeAliasDeclaration::new(
        id("Id"),
        vec![TypeParameter::new(id("T"), None, None)],
        Type(vec![
            PrimaryType::PredefinedType(PredefinedType::String),
            PrimaryType::PredefinedType(PredefinedType::Number),
        ]),
    );
    assert_eq!(a.artel_str(0), "тип Id<T> = Текст | Число");
}

#[test]
fn statements_render() {
    let alias = ArtelTypeAliasDeclaration::new(id("A"), Vec::new(), number());
    let export = ArtelStatement::ExportStatement(Box::new(ArtelStatement::TypeAliasDeclaration(alias)));
    assert_eq!(export.artel_str(0), "внешнее\n  тип A = Число");
    let comment = ArtelStatement::Comment("// one\n   // two".to_owned());
    assert_eq!(comment.artel_str(2), "  // one\n  // two");
    let f = FunctionDeclaration::new(false, id("f"), Vec::new(), Vec::new(), Some(number()));
    let ambient = ArtelAmbientDeclaration::new(true, vec![ArtelStatement::FunctionDeclaration(f)]);
    assert_eq!(ambient.artel_str(0), "внешнее /*(!) global */\nоперация f(): Число");
    let module = ArtelInternalModule::new(
        id("NS"),
        vec![ArtelStatement::TypeAliasDeclaration(ArtelTypeAliasDeclaration::new(
            id("B"),
            Vec::new(),
            string(),
        ))],
    );
    assert_eq!(module.artel_str(0), "/*(!) NS */\n{\n  тип B = Текст}");
}

#[test]
fn ambient_block_renders_only_its_first_statement() {
    let a = ArtelTypeAliasDeclaration::new(id("A"), Vec::new(), number());
    let b = ArtelTypeAliasDeclaration::new(id("B"), Vec::new(), string());
    let ambient = ArtelStatement::AmbientDeclaration(ArtelAmbientDeclaration::new(
        false,
        vec![ArtelStatement::TypeAliasDeclaration(a), ArtelStatement::TypeAliasDeclaration(b)],
    ));
    assert_eq!(ambient.artel_str(4), "внешнее\n{\nтип A = Число\n}");
}

#[test]
fn program_joins_statements_with_blank_lines() {
    let a = ArtelStatement::TypeAliasDeclaration(ArtelTypeAliasDeclaration::new(id("A"), Vec::new(), number()));
    let b = ArtelStatement::TypeAliasDeclaration(ArtelTypeAliasDeclaration::new(id("B"), Vec::new(), string()));
    assert_eq!(create_artel_code(vec![a, b]), "тип A = Число\n\nтип B = Текст");
    assert_eq!(create_artel_code(Vec::new()), "");
}

#[test]
fn statement_blocks_and_deep_indents_cannot_render() {
    let block = ArtelStatement::StatementBlock(Vec::new());
    assert!(!block.can_render(0));
    let alias = ArtelStatement::TypeAliasDeclaration(ArtelTypeAliasDeclaration::new(id("A"), Vec::new(), number()));
    assert!(alias.can_render(100));
    assert!(!alias.can_render(101));
    let empty_ambient = ArtelStatement::AmbientDeclaration(ArtelAmbientDeclaration::new(false, Vec::new()));
    assert!(!empty_ambient.can_render(0));
}

#[test]
fn number_or_undefined_is_optional_number() {
    let ty = Type(vec![
        PrimaryType::PredefinedType(PredefinedType::Number),
        PrimaryType::LiteralType(LiteralType::Undefined),
    ]);
    assert_eq!(ty.artel_str(0), "Число?");
}

#[test]
fn setter_before_getter_gives_one_property_typed_by_the_setter() {
    let setter = FunctionDeclaration::new(
        false,
        id("name"),
        Vec::new(),
        vec![ArtelFunctionArgument::new(id("v"), string(), None)],
        None,
    );
    let getter = FunctionDeclaration::new(false, id("name"), Vec::new(), Vec::new(), Some(number()));
    let body = vec![
        ArtelClassMember::Method((plain(), GetterSetter::Setter, setter)),
        ArtelClassMember::Method((plain(), GetterSetter::Getter, getter)),
    ];
    let c = ArtelClassDeclaration::new(id("C"), None, Vec::new(), false, Vec::new(), body);
    assert_eq!(
        c.artel_str(0),
        "тип C = объект\n{\n  name: Текст\n    при чтении { }\n    при записи { }\n}"
    );
}

#[test]
fn set_indent_twice_keeps_the_last_level() {
    let s = "  a\n\tb\nc";
    assert_eq!(set_indent(&set_indent(s, 4), 2), set_indent(s, 2));
    assert_eq!(set_indent(s, 2), "  a\n  b\n  c");
    assert_eq!(set_indent(&set_indent(s, 2), 2), set_indent(s, 2));
}
