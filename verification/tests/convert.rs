use ts2artel::artel_str::ArtelStr;
use ts2artel::convert_tree_walk::{
    parse_class_declaration, parse_enum_declaration, parse_expression, parse_statement,
    try_parse_statement, try_walk_tree, walk_tree,
};
use ts2artel::parse_type::{parse_formal_arguments, parse_function_declaration, parse_type};
use ts2artel::source_tree::{convert_tree, convert_ts, ConversionError};
use ts2artel::statement::create_artel_code;
use ts2artel::syntax::SyntaxNode;

fn leaf(kind: &str, named: bool, text: &str) -> SyntaxNode {
    SyntaxNode {
        kind: kind.to_owned(),
        field: None,
        named,
        text: Some(text.to_owned()),
        children: Vec::new(),
    }
}

fn node(kind: &str, text: &str, children: Vec<SyntaxNode>) -> SyntaxNode {
    SyntaxNode { kind: kind.to_owned(), field: None, named: true, text: Some(text.to_owned()), children }
}

fn with_field(mut n: SyntaxNode, field: &str) -> SyntaxNode {
    n.field = Some(field.to_owned());
    n
}

fn predefined(word: &str) -> SyntaxNode {
    leaf("predefined_type", true, word)
}

fn annotation(t: SyntaxNode) -> SyntaxNode {
    node("type_annotation", "", vec![leaf(":", false, ":"), t])
}

fn converted(code: &str) -> String {
    match convert_ts(code) {
        Ok(s) => s,
        Err(_) => panic!("conversion failed"),
    }
}

#[test]
fn union_of_nested_unions_is_flattened() {
    let inner = node("union_type", "", vec![predefined("string"), leaf("|", false, "|"), predefined("number")]);
    let outer = node(
        "union_type",
        "",
        vec![inner, leaf("|", false, "|"), node("literal_type", "null", vec![leaf("null", true, "null")])],
    );
    let t = parse_type(&annotation(outer)).unwrap();
    assert_eq!(t.artel_str(0), "Текст | Число | пусто");
}

#[test]
fn unknown_type_kind_is_not_read() {
    assert!(parse_type(&leaf("mystery_type", true, "?")).is_none());
    assert!(parse_type(&predefined("integer")).is_none());
}

#[test]
fn optional_parameter_gets_undefined_and_default() {
    let param = node(
        "optional_parameter",
        "b?: number",
        vec![
            with_field(leaf("identifier", true, "b"), "pattern"),
            leaf("?", false, "?"),
            with_field(annotation(predefined("number")), "type"),
        ],
    );
    let untyped = node("required_parameter", "c = 3", vec![
        with_field(leaf("identifier", true, "c"), "pattern"),
        leaf("=", false, "="),
        with_field(leaf("number", true, "3"), "value"),
    ]);
    let params = node("formal_parameters", "", vec![leaf("(", false, "("), param, untyped, leaf(")", false, ")")]);
    let args = parse_formal_arguments(&params).unwrap();
    assert_eq!(args.len(), 2);
    assert_eq!(args.artel_str(0), "(b: Число? = пусто, c: /*(!) no_type */ Объект? = 3)");
}

#[test]
fn left_out_statements_read_as_none() {
    let import = leaf("import_statement", true, "import x from 'y';");
    assert!(matches!(try_parse_statement(&import), Some(None)));
    assert!(parse_statement(&import).is_none());
    let unknown = leaf("for_statement", true, "for(;;){}");
    assert!(try_parse_statement(&unknown).is_none());
    assert_eq!(parse_expression(&leaf("number", true, "42")), Some("42".to_owned()));
}

#[test]
fn walk_tree_keeps_statement_order() {
    let comment = leaf("comment", true, "// hello");
    let import = leaf("import_statement", true, "import x from 'y';");
    let alias = node(
        "type_alias_declaration",
        "type A = number;",
        vec![
            leaf("type", false, "type"),
            with_field(leaf("type_identifier", true, "A"), "name"),
            leaf("=", false, "="),
            with_field(predefined("number"), "value"),
        ],
    );
    let root = node("program", "", vec![comment, import, alias]);
    let program = walk_tree(&root);
    assert_eq!(program.len(), 2);
    assert_eq!(create_artel_code(program), "// hello\n\nтип A = Число");
    assert!(try_walk_tree(&node("program", "", vec![leaf("for_statement", true, "")])).is_none());
}

#[test]
fn class_without_name_is_not_read() {
    let class = node("class_declaration", "class {}", vec![leaf("class", false, "class")]);
    assert!(parse_class_declaration(&class, false).is_none());
}

#[test]
fn convert_tree_reports_errors() {
    let unsupported = node("program", "", vec![leaf("for_statement", true, "")]);
    assert!(matches!(convert_tree(&unsupported), Err(ConversionError::Unsupported)));
    let block = node("program", "", vec![node("statement_block", "{}", vec![])]);
    assert!(matches!(convert_tree(&block), Err(ConversionError::NotRenderable)));
    let empty = node("program", "", vec![]);
    assert!(matches!(convert_tree(&empty), Ok(s) if s.is_empty()));
}

#[test]
fn converts_an_interface() {
    assert_eq!(converted("interface A { x: number; }"), "тип A = интерфейс\n{\n  x: Число\n}\n");
}

#[test]
fn converts_a_declared_function() {
    assert_eq!(converted("declare function f(a: string): void;"), "внешнее\nоперация f(a: Текст)");
}

#[test]
fn converts_an_exported_constant() {
    assert_eq!(converted("export const x: number = 5;"), "внешнее\n  конст x: Число /*(!) = 5 */\n");
}

#[test]
fn converts_an_enum() {
    assert_eq!(converted("enum Color { Red = 1, Green }"), "тип Color = вариант\n{\n  Red = 1\n  Green\n}");
}

#[test]
fn converts_a_type_alias_with_a_union() {
    assert_eq!(converted("type Id<T> = string | number | boolean;"), "тип Id<T> = Текст | Число | ДаНет");
}

#[test]
fn imports_are_left_out() {
    assert_eq!(converted("import x from \"y\";\ntype A = number;"), "тип A = Число");
}

#[test]
fn untyped_variable_gets_no_type() {
    assert_eq!(converted("let x = 1;"), "пусть x: /*(!) no_type */ Объект? /*(!) = 1 */\n");
}

#[test]
fn converts_a_class_with_a_getter() {
    let code = "class Point { x: number; constructor(x: number) {} get size(): number { return 1; } }";
    assert_eq!(
        converted(code),
        "тип Point = объект\n{\n  x: Число\n\n  при создании(x: Число): /*(!) no_type */ Объект?\n\n  size: Число\n    при чтении { }\n}"
    );
}

#[test]
fn converts_a_declared_namespace() {
    assert_eq!(
        converted("declare namespace NS { type B = string; }"),
        "внешнее\n/*(!) NS */\n{\n  тип B = Текст}"
    );
}

#[test]
fn converts_declare_global() {
    assert_eq!(
        converted("declare global { interface Window { a: string } }"),
        "внешнее /*(!) global */\nтип Window = интерфейс\n{\n  a: Текст\n}\n"
    );
}

#[test]
fn getter_without_type_is_not_renderable() {
    assert!(matches!(
        convert_ts("class A { get x() { return 1; } }"),
        Err(ConversionError::NotRenderable)
    ));
}

#[test]
fn unsupported_statement_is_reported() {
    assert!(matches!(convert_ts("for (;;) {}"), Err(ConversionError::Unsupported)));
}

#[test]
fn deeply_nested_type_is_converted() {
    let mut code = String::from("type A = ");
    for _ in 0..100 {
        code.push('(');
    }
    code.push_str("number");
    for _ in 0..100 {
        code.push(')');
    }
    code.push(';');
    assert_eq!(converted(&code), "тип A = Число");
}

#[test]
fn declared_function_returning_undefined_has_no_return_type() {
    assert_eq!(converted("declare function f(): undefined;"), "внешнее\nоперация f()");
    assert_eq!(converted("declare function g(): number | undefined;"), "внешнее\nоперация g(): Число?");
}

fn alias_node(name: &str) -> SyntaxNode {
    node(
        "type_alias_declaration",
        "",
        vec![
            leaf("type", false, "type"),
            with_field(leaf("type_identifier", true, name), "name"),
            leaf("=", false, "="),
            with_field(predefined("string"), "value"),
        ],
    )
}

#[test]
fn left_out_statements_do_not_change_the_program() {
    let with_import = node(
        "program",
        "",
        vec![alias_node("A"), leaf("import_statement", true, "import 'x';"), alias_node("B")],
    );
    let without = node("program", "", vec![alias_node("A"), alias_node("B")]);
    let a = create_artel_code(walk_tree(&with_import));
    let b = create_artel_code(walk_tree(&without));
    assert_eq!(a, b);
    assert_eq!(a, "тип A = Текст\n\nтип B = Текст");
}

#[test]
fn syntax_node_lookups() {
    let n = alias_node("A");
    assert_eq!(n.child_by_field_name("name").map(|c| c.kind.clone()), Some("type_identifier".to_owned()));
    assert!(n.child_by_field_name("type_parameters").is_none());
    assert_eq!(n.named_child_count(), 2);
    assert_eq!(n.first_named_position(), Some(1));
    assert!(n.first_child_is("type"));
    assert!(n.is_kind("type_alias_declaration"));
}

#[test]
fn converts_a_function_type_with_an_optional_parameter() {
    assert_eq!(
        converted("type F = (a: string, b?: number) => void;"),
        "тип F = операция(a: Текст, b: Число? = пусто)"
    );
}

#[test]
fn object_type_with_index_signature_is_kept_as_text() {
    assert_eq!(
        converted("type O = { readonly a: string; [k: string]: number };"),
        "тип O = /*(!) { readonly a: string; [k: string]: number } */ Объект?"
    );
}

#[test]
fn converts_arrays_of_tuples_and_nested_generics() {
    assert_eq!(converted("type T = [string, number][];"), "тип T = Список<объект { _0: Текст, _1: Число }>");
    assert_eq!(converted("type M = Map<string, Array<number>>;"), "тип M = Map<Текст, Array<Число>>");
}

#[test]
fn converts_an_abstract_class_with_heritage() {
    let code = "abstract class A<T> extends B implements C { abstract m(): void; private static x?: string; }";
    assert_eq!(
        converted(code),
        "тип A<T> = /*(!) абстрактный */ объект на основе B<T>, C\n{\n  /*(!) абстрактный */ \n  операция m()\n\n  /*(!) private */ глобальный \n  x: Текст?\n}"
    );
}

#[test]
fn converts_several_declarators() {
    assert_eq!(converted("let a: number, b: string;"), "пусть a: Число\nпусть b: Текст\n");
}

#[test]
fn top_level_namespace_is_not_handled() {
    assert!(matches!(convert_ts("namespace NS { }"), Err(ConversionError::Unsupported)));
}

#[test]
fn export_without_declaration_is_left_out() {
    assert_eq!(converted("export { x };"), "");
}

#[test]
fn converts_interface_members() {
    assert_eq!(
        converted("interface I { readonly a?: string; m<T>(x: T): T; (y: number): void; }"),
        "тип I = интерфейс\n{\n  защищено \n  a: Текст\n\n  операция m<T>(x: T): T\n\n  /*(!) (y: number): void*/\n}\n"
    );
}

#[test]
fn enum_body_child_of_another_kind_is_not_read() {
    let body = with_field(
        node("enum_body", "", vec![leaf("{", false, "{"), leaf("identifier", true, "X"), leaf("}", false, "}")]),
        "body",
    );
    let e = node("enum_declaration", "", vec![with_field(leaf("identifier", true, "E"), "name"), body]);
    assert!(parse_enum_declaration(&e).is_none());
    let good_body = with_field(
        node("enum_body", "", vec![leaf("property_identifier", true, "X"), leaf("comment", true, "// c")]),
        "body",
    );
    let good = node("enum_declaration", "", vec![with_field(leaf("identifier", true, "E"), "name"), good_body]);
    assert!(parse_enum_declaration(&good).is_some());
}

#[test]
fn function_without_name_is_not_read() {
    let params = with_field(node("formal_parameters", "()", vec![leaf("(", false, "("), leaf(")", false, ")")]), "parameters");
    let f = node("function_signature", "", vec![leaf("function", false, "function"), params]);
    assert!(parse_function_declaration(&f).is_none());
}

#[test]
fn unknown_predefined_type_is_not_read() {
    assert!(parse_type(&predefined("bigint")).is_none());
    assert!(parse_type(&predefined("number")).is_some());
}
