use wdsm::ast_analyzer::{anal_fn, analyze_module, extract_enum_cases, is_enum_union, map_keyword_type, ModuleAnalysis, WitType};
use wdsm::frontends::typescript::{
    TsEnum, TsFunction, TsInterface, TsItem, TsKeywordKind, TsLit, TsMember, TsModule, TsParam, TypeAnn, TsTypeAlias,
};
use wdsm::table::Table;

fn kw(k: TsKeywordKind) -> TypeAnn {
    TypeAnn::Keyword(k)
}

fn named(n: &str) -> TypeAnn {
    TypeAnn::Ref { name: Some(n.to_string()), params: None }
}

fn generic(n: &str, arg: TypeAnn) -> TypeAnn {
    TypeAnn::Ref { name: Some(n.to_string()), params: Some(vec![arg]) }
}

fn str_lit(s: &str) -> TypeAnn {
    TypeAnn::Lit { lit: TsLit::Str(Some(s.to_string())), text: format!("\"{}\"", s) }
}

fn num_lit(n: i64) -> TypeAnn {
    TypeAnn::Lit { lit: TsLit::Number(n), text: n.to_string() }
}

fn prop(key: &str, optional: bool, ty: Option<TypeAnn>) -> TsMember {
    TsMember::Property { key: Some(key.to_string()), optional, type_ann: ty }
}

fn param(name: &str, ty: Option<TypeAnn>) -> TsParam {
    TsParam { name: Some(name.to_string()), type_ann: ty, line: 1 }
}

fn is_prim(t: &WitType, p: &str) -> bool {
    matches!(t, WitType::Primitive(s) if s == p)
}

fn sample_module() -> TsModule {
    TsModule {
        items: vec![
            TsItem::ExportInterface(TsInterface {
                name: "UserProfile".to_string(),
                members: vec![
                    prop("userName", false, Some(kw(TsKeywordKind::String))),
                    prop("age", true, Some(kw(TsKeywordKind::Number))),
                    prop("note", false, None),
                ],
                line: 1,
            }),
            TsItem::ExportTypeAlias(TsTypeAlias {
                name: "Status".to_string(),
                type_ann: TypeAnn::Union(vec![str_lit("active"), str_lit("inActive"), num_lit(3)]),
                line: 6,
            }),
            TsItem::ExportTypeAlias(TsTypeAlias {
                name: "Shape".to_string(),
                type_ann: TypeAnn::Union(vec![named("Circle"), str_lit("none")]),
                line: 7,
            }),
            TsItem::ExportEnum(TsEnum {
                name: "Color".to_string(),
                members: vec![Some("DarkRed".to_string()), None, Some("Green".to_string())],
                line: 8,
            }),
            TsItem::ExportFn {
                name: "greet".to_string(),
                func: TsFunction {
                    params: vec![
                        param("user", Some(named("UserProfile"))),
                        param("status", Some(named("Status"))),
                        param("shape", Some(named("Shape"))),
                        param("tags", Some(TypeAnn::Array(Box::new(kw(TsKeywordKind::String))))),
                        param("extra", None),
                    ],
                    return_type: Some(generic("Promise", kw(TsKeywordKind::Boolean))),
                    line: 10,
                },
            },
            TsItem::ExportFn {
                name: "other".to_string(),
                func: TsFunction { params: vec![], return_type: None, line: 12 },
            },
        ],
    }
}

#[test]
fn analysis_reads_target_signature() {
    let a = analyze_module(&sample_module(), "greet", "input.ts").unwrap();
    assert_eq!(a.functions.len(), 1);
    assert!(!a.functions.contains_key("other"));
    let sig = a.functions.get("greet").unwrap();
    assert_eq!(sig.params.len(), 5);
    assert_eq!(sig.params[0].name, "user");
    assert!(matches!(&sig.params[0].param_type, WitType::Record(n) if n == "user-profile"));
    assert!(matches!(&sig.params[1].param_type, WitType::Enum(n) if n == "status"));
    assert!(matches!(&sig.params[2].param_type, WitType::Variant(n) if n == "shape"));
    assert!(matches!(&sig.params[3].param_type, WitType::List(e) if is_prim(e, "string")));
    assert!(is_prim(&sig.params[4].param_type, "string"));
    assert!(is_prim(&sig.return_type, "bool"));
}

#[test]
fn analysis_reads_records_enums_and_variants() {
    let a = analyze_module(&sample_module(), "greet", "input.ts").unwrap();
    let rec = a.records.get("UserProfile").unwrap();
    assert_eq!(rec.name, "user-profile");
    assert_eq!(rec.fields.len(), 3);
    assert_eq!(rec.fields[0].0, "user-name");
    assert!(is_prim(&rec.fields[0].1, "string"));
    assert_eq!(rec.fields[1].0, "age");
    assert!(is_prim(&rec.fields[1].1, "f64"));
    assert!(is_prim(&rec.fields[2].1, "string"));

    let status = a.enums.get("Status").unwrap();
    assert_eq!(status.name, "status");
    assert_eq!(status.cases, vec!["active".to_string(), "in-active".to_string(), "variant-3".to_string()]);

    let color = a.enums.get("Color").unwrap();
    assert_eq!(color.cases, vec!["dark-red".to_string(), "green".to_string()]);

    let shape = a.variants.get("Shape").unwrap();
    assert_eq!(shape.name, "shape");
    assert_eq!(shape.cases.len(), 2);
    assert_eq!(shape.cases[0].name, "variant");
    assert!(matches!(&shape.cases[0].payload, Some(WitType::Record(n)) if n == "circle"));
    assert_eq!(shape.cases[1].name, "none");
    assert!(shape.cases[1].payload.is_none());
}

#[test]
fn analysis_missing_function_is_an_error() {
    let r = analyze_module(&sample_module(), "missing", "input.ts");
    assert_eq!(r.err().unwrap(), "Function 'missing' not found in input.ts");
}

#[test]
fn analysis_of_default_export() {
    let module = TsModule {
        items: vec![TsItem::ExportDefaultFn {
            ident: Some("main".to_string()),
            func: TsFunction { params: vec![param("n", Some(kw(TsKeywordKind::BigInt)))], return_type: None, line: 1 },
        }],
    };
    let a = analyze_module(&module, "main", "m.ts").unwrap();
    let sig = a.functions.get("main").unwrap();
    assert!(is_prim(&sig.params[0].param_type, "s64"));
    assert!(is_prim(&sig.return_type, "string"));
}

#[test]
fn analyze_optional_and_tuple_types() {
    let a = ModuleAnalysis::new();
    let opt = TypeAnn::Union(vec![kw(TsKeywordKind::Null), kw(TsKeywordKind::Number), kw(TsKeywordKind::Undefined)]);
    assert!(matches!(a.analyze_ts_type(&opt), WitType::Option(e) if is_prim(&e, "f64")));
    let tup = TypeAnn::Tuple(vec![kw(TsKeywordKind::String), kw(TsKeywordKind::Boolean)]);
    match a.analyze_ts_type(&tup) {
        WitType::Tuple(v) => {
            assert_eq!(v.len(), 2);
            assert!(is_prim(&v[0], "string"));
            assert!(is_prim(&v[1], "bool"));
        }
        other => panic!("unexpected {:?}", other),
    }
    let plain = TypeAnn::Union(vec![kw(TsKeywordKind::String), kw(TsKeywordKind::Number)]);
    assert!(matches!(a.analyze_ts_type(&plain), WitType::Variant(n) if n == "variant"));
    assert!(matches!(a.analyze_ts_type(&generic("Array", kw(TsKeywordKind::Number))), WitType::List(e) if is_prim(&e, "f64")));
    assert!(matches!(a.analyze_ts_type(&TypeAnn::TypeLit(vec![])), WitType::Record(n) if n == "record"));
    assert!(is_prim(&a.analyze_ts_type(&TypeAnn::Other("x".to_string())), "string"));
}

#[test]
fn keyword_types_map_to_primitives() {
    assert_eq!(map_keyword_type(TsKeywordKind::String), "string");
    assert_eq!(map_keyword_type(TsKeywordKind::Number), "f64");
    assert_eq!(map_keyword_type(TsKeywordKind::Boolean), "bool");
    assert_eq!(map_keyword_type(TsKeywordKind::BigInt), "s64");
    assert_eq!(map_keyword_type(TsKeywordKind::Any), "string");
}

#[test]
fn literal_unions_become_enum_cases() {
    let v = vec![str_lit("fooBar"), num_lit(-2)];
    assert!(is_enum_union(&v));
    assert_eq!(extract_enum_cases(&v), vec!["foo-bar".to_string(), "variant--2".to_string()]);
    assert!(!is_enum_union(&vec![str_lit("a"), kw(TsKeywordKind::String)]));
}

#[test]
fn table_insert_get_and_replace() {
    let mut t: Table<String> = Table::new();
    assert_eq!(t.len(), 0);
    assert!(t.get("a").is_none());
    t.insert("a", "one".to_string());
    t.insert("b", "two".to_string());
    t.insert("a", "three".to_string());
    assert_eq!(t.len(), 2);
    assert!(t.contains_key("b"));
    assert!(!t.contains_key("c"));
    assert_eq!(t.get("a").unwrap(), "three");
    assert_eq!(t.keys(), vec!["a".to_string(), "b".to_string()]);
}

#[test]
fn analysis_of_source_text() {
    let source = r#"
export interface UserProfile { userName: string; age?: number }
export type Status = "active" | "inActive";
export function greet(user: UserProfile, status: Status, tags: string[]): Promise<boolean> {
    return Promise.resolve(true);
}
"#;
    let a = anal_fn(source, "greet", "input.ts").unwrap();
    let sig = a.functions.get("greet").unwrap();
    assert!(matches!(&sig.params[0].param_type, WitType::Record(n) if n == "user-profile"));
    assert!(matches!(&sig.params[1].param_type, WitType::Enum(n) if n == "status"));
    assert!(matches!(&sig.params[2].param_type, WitType::List(e) if is_prim(e, "string")));
    assert!(is_prim(&sig.return_type, "bool"));
    assert_eq!(a.records.get("UserProfile").unwrap().fields[0].0, "user-name");
    assert_eq!(anal_fn(source, "missing", "input.ts").err().unwrap(), "Function 'missing' not found in input.ts");
    assert!(anal_fn("export function (", "greet", "input.ts").is_err());
}
