use wdsm::frontends::typescript::{
    TsEnum, TsFunction, TsInterface, TsItem, TsKeywordKind, TsLit, TsMember, TsModule, TsParam, TypeAnn,
    TsTypeAlias, TsVarDecl, TypeScriptFrontend, extract_ir,
};
use wdsm::frontends::{FrontendConfig, FrontendError};
use wdsm::ir::{IRType, ReturnType, TypeDef, WitIR};

fn extract_from_items(items: Vec<TsItem>) -> Result<WitIR, FrontendError> {
    let config = FrontendConfig {
        package_name: "wdsm:test".to_string(),
        world_name: "test".to_string(),
        target_functions: None,
    };
    extract_ir(&TsModule { items }, "input.ts", &config)
}

fn extract_from_source(source: &str) -> Result<WitIR, FrontendError> {
    let config = FrontendConfig {
        package_name: "wdsm:test".to_string(),
        world_name: "test".to_string(),
        target_functions: None,
    };
    TypeScriptFrontend.extract(source, "input.ts", &config)
}

fn kw(k: TsKeywordKind) -> TypeAnn {
    TypeAnn::Keyword(k)
}

fn param(name: &str, ty: Option<TypeAnn>, line: u64) -> TsParam {
    TsParam { name: Some(name.to_string()), type_ann: ty, line }
}

fn func(params: Vec<TsParam>, ret: Option<TypeAnn>, line: u64) -> TsFunction {
    TsFunction { params, return_type: ret, line }
}

fn export_fn(name: &str, f: TsFunction) -> TsItem {
    TsItem::ExportFn { name: name.to_string(), func: f }
}

fn prop(name: &str, ty: TypeAnn, optional: bool) -> TsMember {
    TsMember::Property { key: Some(name.to_string()), optional, type_ann: Some(ty) }
}

fn str_lit(v: &str) -> TypeAnn {
    TypeAnn::Lit { lit: TsLit::Str(Some(v.to_string())), text: format!("\"{}\"", v) }
}

// export function hello(name: string): string { return `Hello, ${name}!`; }
#[test]
fn typescript_test_simple_function() {
    let ir = extract_from_source(
        r#"export function hello(name: string): string {
                return `Hello, ${name}!`;
            }"#,
    )
    .unwrap();

    assert_eq!(ir.functions.len(), 1);
    assert_eq!(ir.functions[0].name, "hello");
    assert_eq!(ir.functions[0].wit_name, "hello");
    assert_eq!(ir.functions[0].params.len(), 1);
    assert_eq!(ir.functions[0].params[0].name, "name");
    assert_eq!(ir.functions[0].params[0].ty, IRType::String);
    assert_eq!(ir.functions[0].returns, ReturnType::Type(IRType::String));
}

// export function doStuff(x: string): void { console.log(x); }
#[test]
fn test_void_return() {
    let ir = extract_from_source(
        r#"export function doStuff(x: string): void {
                console.log(x);
            }"#,
    )
    .unwrap();

    assert_eq!(ir.functions[0].returns, ReturnType::Void);
}

// export interface User { name: string; age: number; }
// export function getUser(id: string): User { ... }
#[test]
fn test_record_from_interface() {
    let ir = extract_from_source(
        r#"
            export interface User {
                name: string;
                age: number;
            }
            export function getUser(id: string): User {
                return { name: "test", age: 42 };
            }
            "#,
    )
    .unwrap();

    assert_eq!(ir.types.len(), 1);
    if let TypeDef::Record(rec) = &ir.types[0] {
        assert_eq!(rec.name, "User");
        assert_eq!(rec.wit_name, "user");
        assert_eq!(rec.fields.len(), 2);
        assert_eq!(rec.fields[0].name, "name");
        assert_eq!(rec.fields[0].ty, IRType::String);
        assert_eq!(rec.fields[1].name, "age");
        assert_eq!(rec.fields[1].ty, IRType::F64);
    } else {
        panic!("Expected Record");
    }
}

// export function getNames(count: number): string[] { return []; }
#[test]
fn test_list_type() {
    let ir = extract_from_source(
        r#"export function getNames(count: number): string[] {
                return [];
            }"#,
    )
    .unwrap();

    assert_eq!(ir.functions[0].returns, ReturnType::Type(IRType::List(Box::new(IRType::String))));
}

// export function fetchData(url: string): Promise<string> { ... }
#[test]
fn test_promise_unwrap() {
    let ir = extract_from_source(
        r#"export function fetchData(url: string): Promise<string> {
                return Promise.resolve("");
            }"#,
    )
    .unwrap();
    assert_eq!(ir.functions[0].returns, ReturnType::Type(IRType::String));
}

// export function hello(name) { return `Hello, ${name}!`; }
#[test]
fn test_missing_type_annotation_errors() {
    let result = extract_from_source(
        r#"export function hello(name) {
                return `Hello, ${name}!`;
            }"#,
    );

    assert!(result.is_err());
    let err_msg = result.unwrap_err().to_string();
    assert!(err_msg.contains("missing type annotation"));
}

#[test]
fn missing_annotation_is_reported_at_the_parameter_or_the_arrow() {
    let f = func(vec![param("name", None, 7)], None, 5);
    let err = extract_from_items(vec![export_fn("hello", f)]).unwrap_err();
    assert_eq!(err.to_string(), "input.ts:7: missing type annotation on parameter `name` in function `hello`");

    let arrow = func(vec![param("name", None, 7)], None, 5);
    let err = extract_from_items(vec![TsItem::ExportVars(vec![TsVarDecl {
        name: Some("greet".to_string()),
        arrow: Some(arrow),
    }])])
    .unwrap_err();
    assert_eq!(err.to_string(), "input.ts:5: missing type annotation on parameter `name` in function `greet`");
}

#[test]
fn string_literal_union_alias_becomes_an_enum() {
    let alias = TsTypeAlias {
        name: "Status".to_string(),
        type_ann: TypeAnn::Union(vec![str_lit("active"), str_lit("inActive")]),
        line: 1,
    };
    let ir = extract_from_items(vec![TsItem::ExportTypeAlias(alias)]).unwrap();
    match &ir.types[0] {
        TypeDef::Enum(e) => {
            assert_eq!(e.wit_name, "status");
            assert_eq!(e.cases, vec!["active".to_string(), "in-active".to_string()]);
        },
        _ => panic!("expected an enum"),
    }
}

#[test]
fn mixed_union_alias_becomes_a_variant() {
    let alias = TsTypeAlias {
        name: "Shape".to_string(),
        type_ann: TypeAnn::Union(vec![
            TypeAnn::Ref { name: Some("Circle".to_string()), params: None },
            kw(TsKeywordKind::Number),
            kw(TsKeywordKind::Null),
            TypeAnn::Lit { lit: TsLit::Number(-3), text: "-3".to_string() },
        ]),
        line: 4,
    };
    let ir = extract_from_items(vec![TsItem::ExportTypeAlias(alias)]).unwrap();
    match &ir.types[0] {
        TypeDef::Variant(v) => {
            let names: Vec<&str> = v.cases.iter().map(|c| c.name.as_str()).collect();
            assert_eq!(names, vec!["circle", "f64-val", "null", "variant--3"]);
            assert_eq!(v.cases[0].payload, Some(IRType::Named("Circle".to_string())));
            assert_eq!(v.cases[1].payload, Some(IRType::F64));
            assert_eq!(v.cases[2].payload, None);
        },
        _ => panic!("expected a variant"),
    }
}

#[test]
fn optional_property_and_nullable_union_become_options() {
    let iface = TsInterface {
        name: "Profile".to_string(),
        members: vec![
            prop("nickName", kw(TsKeywordKind::String), true),
            prop("age", TypeAnn::Union(vec![kw(TsKeywordKind::Number), kw(TsKeywordKind::Undefined)]), false),
        ],
        line: 1,
    };
    let ir = extract_from_items(vec![TsItem::Interface(iface)]).unwrap();
    match &ir.types[0] {
        TypeDef::Record(r) => {
            assert_eq!(r.fields[0].wit_name, "nick-name");
            assert_eq!(r.fields[0].ty, IRType::Option(Box::new(IRType::String)));
            assert!(r.fields[0].optional);
            assert_eq!(r.fields[1].ty, IRType::Option(Box::new(IRType::F64)));
        },
        _ => panic!("expected a record"),
    }
}

#[test]
fn unsupported_field_type_is_reported() {
    let iface = TsInterface {
        name: "Bad".to_string(),
        members: vec![prop("inline", TypeAnn::TypeLit(vec![]), false)],
        line: 1,
    };
    let err = extract_from_items(vec![TsItem::Interface(iface)]).unwrap_err();
    assert_eq!(err.to_string(), "unsupported type `inline object type literal` — use a named interface or type alias instead");
}

#[test]
fn map_record_and_enum_declarations() {
    let e = TsEnum { name: "Color".to_string(), members: vec![Some("DarkRed".to_string()), None], line: 3 };
    let ir = extract_from_items(vec![
        TsItem::Enum(e),
        export_fn(
            "lookup",
            func(
                vec![param(
                    "table",
                    Some(TypeAnn::Ref {
                        name: Some("Record".to_string()),
                        params: Some(vec![kw(TsKeywordKind::String), kw(TsKeywordKind::BigInt)]),
                    }),
                    8,
                )],
                Some(TypeAnn::Ref {
                    name: Some("Promise".to_string()),
                    params: Some(vec![kw(TsKeywordKind::Void)]),
                }),
                8,
            ),
        ),
    ])
    .unwrap();
    match &ir.types[0] {
        TypeDef::Enum(en) => assert_eq!(en.cases, vec!["dark-red".to_string()]),
        _ => panic!("expected an enum"),
    }
    assert_eq!(
        ir.functions[0].params[0].ty,
        IRType::List(Box::new(IRType::Tuple(vec![IRType::String, IRType::S64])))
    );
    assert_eq!(ir.functions[0].returns, ReturnType::Void);
}

#[test]
fn only_target_functions_are_extracted() {
    let config = FrontendConfig {
        package_name: "wdsm:test".to_string(),
        world_name: "test".to_string(),
        target_functions: Some(vec!["wanted".to_string()]),
    };
    let module = TsModule {
        items: vec![
            export_fn("wanted", func(vec![], None, 1)),
            export_fn("other", func(vec![param("x", None, 2)], None, 2)),
            TsItem::ExportDefaultFn { ident: None, func: func(vec![], None, 3) },
        ],
    };
    let ir = extract_ir(&module, "input.ts", &config).unwrap();
    assert_eq!(ir.functions.len(), 1);
    assert_eq!(ir.functions[0].name, "wanted");
    assert_eq!(ir.package, "wdsm:test");
    assert_eq!(ir.world_name, "test");
}

#[test]
fn source_declarations_are_read_in_traversal_order() {
    let ir = extract_from_source(
        r#"
export type Status = "active" | "inActive";
interface Point { x: number; y?: number }
export enum Color { Red, DarkBlue }
export const add = (a: number, b: Point): Status => "active";
export function tags(xs: Array<string>, c: Color): [string, boolean] | null {
    return null;
}
"#,
    )
    .unwrap();
    let names: Vec<&str> = ir.types.iter().map(|t| t.name()).collect();
    assert_eq!(names, vec!["Status", "Point", "Color"]);
    assert_eq!(ir.functions.len(), 2);
    assert_eq!(ir.functions[0].name, "add");
    assert_eq!(ir.functions[0].params[1].ty, IRType::Named("Point".to_string()));
    assert_eq!(ir.functions[1].name, "tags");
    assert_eq!(ir.functions[1].params[0].ty, IRType::List(Box::new(IRType::String)));
    assert_eq!(ir.functions[1].params[1].ty, IRType::Named("Color".to_string()));
    assert_eq!(
        ir.functions[1].returns,
        ReturnType::Type(IRType::Option(Box::new(IRType::Tuple(vec![IRType::String, IRType::Bool]))))
    );
}

#[test]
fn refused_source_is_a_message() {
    let err = extract_from_source("export function (").unwrap_err();
    assert!(matches!(err, FrontendError::Message(_)));
    assert!(err.to_string().starts_with("Failed to parse TypeScript"));
}
