use wdsm::config::{frontend_config_for, CapabilitiesConfig, Config};
use wdsm::frontends::get_frontend;
use wdsm::frontends::typescript::{TsFunction, TsInterface, TsItem, TsKeywordKind, TsMember, TsModule, TsParam, TypeAnn};
use wdsm::{gen_wit_ir, gen_wit_module};
use wdsm::wit_generator::{gen_fn_sign, generate, map_type};

fn config() -> Config {
    Config {
        name: "net".to_string(),
        language: "typescript".to_string(),
        entrypoint: "net.ts".to_string(),
        entrypoint_function: "net".to_string(),
        port: 3005,
        endpoint: "/net".to_string(),
        method: "POST".to_string(),
        payload: vec![
            vec![("msg".to_string(), "string".to_string())],
            vec![("count".to_string(), "int".to_string())],
            vec![("ratio".to_string(), "f64".to_string())],
        ],
        return_type: "bool".to_string(),
        capabilities: CapabilitiesConfig::default(),
    }
}

#[test]
fn config_world_is_generated() {
    let wit = generate(&config()).unwrap();
    assert_eq!(
        wit,
        "package wdsm:net;\n\nworld net {\n  export net: func(msg: string, count: s32, ratio: f64) -> bool;\n}\n"
    );
}

#[test]
fn config_types_map_to_wit() {
    assert_eq!(map_type("str"), "string");
    assert_eq!(map_type("i32"), "s32");
    assert_eq!(map_type("i64"), "s64");
    assert_eq!(map_type("float"), "f32");
    assert_eq!(map_type("boolean"), "bool");
    assert_eq!(map_type("uuid"), "string");
    assert_eq!(gen_fn_sign("f", &config()), "f: func(msg: string, count: s32, ratio: f64) -> bool");
}

#[test]
fn frontend_settings_follow_the_config() {
    let fc = frontend_config_for(&config());
    assert_eq!(fc.package_name, "wdsm:net");
    assert_eq!(fc.world_name, "net");
    assert_eq!(fc.target_functions, Some(vec!["net".to_string()]));
    assert!(get_frontend("typescript").is_some());
    assert!(get_frontend("python").is_none());
}

fn module() -> TsModule {
    let point = || TsInterface {
        name: "Point".to_string(),
        members: vec![
            TsMember::Property { key: Some("x".to_string()), optional: false, type_ann: Some(TypeAnn::Keyword(TsKeywordKind::Number)) },
            TsMember::Property { key: Some("y".to_string()), optional: false, type_ann: Some(TypeAnn::Keyword(TsKeywordKind::Number)) },
        ],
        line: 1,
    };
    let line = || TsInterface {
        name: "LineSeg".to_string(),
        members: vec![TsMember::Property {
            key: Some("from".to_string()),
            optional: false,
            type_ann: Some(TypeAnn::Ref { name: Some("Point".to_string()), params: None }),
        }],
        line: 5,
    };
    TsModule {
        items: vec![
            TsItem::ExportInterface(line()),
            TsItem::Interface(line()),
            TsItem::ExportInterface(point()),
            TsItem::Interface(point()),
            TsItem::ExportFn {
                name: "lengthOf".to_string(),
                func: TsFunction {
                    params: vec![TsParam {
                        name: Some("seg".to_string()),
                        type_ann: Some(TypeAnn::Ref { name: Some("LineSeg".to_string()), params: None }),
                        line: 9,
                    }],
                    return_type: Some(TypeAnn::Keyword(TsKeywordKind::Number)),
                    line: 9,
                },
            },
        ],
    }
}

#[test]
fn wit_is_generated_from_typescript() {
    let (wit, warnings) =
        gen_wit_module(&module(), "geo.ts", "typescript", "wdsm:geo", "geo", Some(vec!["lengthOf".to_string()])).unwrap();
    assert!(warnings.is_empty());
    let point_at = wit.find("record point {").unwrap();
    let seg_at = wit.find("record line-seg {").unwrap();
    assert!(point_at < seg_at);
    assert!(wit.contains("export length-of: func(seg: line-seg) -> f64;"));
}

#[test]
fn unsupported_language_is_refused() {
    let err = gen_wit_module(&module(), "geo.py", "python", "wdsm:geo", "geo", None).unwrap_err();
    assert_eq!(err.to_string(), "unsupported language: python");
}

const GEO: &str = r#"
export interface Point { x: number; y: number }
export interface LineSeg { from: Point; to: Point }
export function lengthOf(seg: LineSeg): number {
    return 0;
}
"#;

#[test]
fn wit_is_generated_from_typescript_source() {
    let (wit, warnings) =
        gen_wit_ir(GEO, "geo.ts", "typescript", "wdsm:geo", "geo", Some(vec!["lengthOf".to_string()])).unwrap();
    assert!(warnings.is_empty());
    let point_at = wit.find("record point {").unwrap();
    let seg_at = wit.find("record line-seg {").unwrap();
    assert!(point_at < seg_at);
    assert!(wit.contains("export length-of: func(seg: line-seg) -> f64;"));
}

#[test]
fn unparsable_source_is_an_extraction_error() {
    let err = gen_wit_ir("export interface {", "geo.ts", "typescript", "wdsm:geo", "geo", None).unwrap_err();
    assert_eq!(err.to_string(), "Failed to extract IR from source file");
    let err = gen_wit_ir("export interface {", "geo.py", "python", "wdsm:geo", "geo", None).unwrap_err();
    assert_eq!(err.to_string(), "unsupported language: python");
}
