use wdsm::codegen::generate_wit;
use wdsm::ir::{
    EnumDef, FieldDef, FunctionDef, IRType, ParamDef, RecordDef, ReturnType, SourceSpan, TypeDef, WitIR,
};

fn make_simple_ir() -> WitIR {
    WitIR {
        package: "wdsm:hello".to_string(),
        world_name: "hello".to_string(),
        types: vec![],
        functions: vec![FunctionDef {
            name: "hello".to_string(),
            wit_name: "hello".to_string(),
            params: vec![ParamDef {
                name: "name".to_string(),
                wit_name: "name".to_string(),
                ty: IRType::String,
            }],
            returns: ReturnType::Type(IRType::String),
            docs: None,
            source: SourceSpan::default(),
        }],
        imports: vec![],
    }
}

#[test]
fn codegen_test_simple_function() {
    let ir = make_simple_ir();
    let wit = generate_wit(&ir);

    assert!(wit.contains("package wdsm:hello;"));
    assert!(wit.contains("world hello {"));
    assert!(wit.contains("export hello: func(name: string) -> string;"));
    assert!(wit.contains("}"));
}

#[test]
fn test_void_return_omits_arrow() {
    let ir = WitIR {
        package: "wdsm:test".to_string(),
        world_name: "test".to_string(),
        types: vec![],
        functions: vec![FunctionDef {
            name: "doStuff".to_string(),
            wit_name: "do-stuff".to_string(),
            params: vec![ParamDef {
                name: "x".to_string(),
                wit_name: "x".to_string(),
                ty: IRType::String,
            }],
            returns: ReturnType::Void,
            docs: None,
            source: SourceSpan::default(),
        }],
        imports: vec![],
    };

    let wit = generate_wit(&ir);
    assert!(wit.contains("export do-stuff: func(x: string);"));
    assert!(!wit.contains("->"));
}

#[test]
fn test_record_emission() {
    let ir = WitIR {
        package: "wdsm:test".to_string(),
        world_name: "test".to_string(),
        types: vec![TypeDef::Record(RecordDef {
            name: "User".to_string(),
            wit_name: "user".to_string(),
            fields: vec![
                FieldDef {
                    name: "name".to_string(),
                    wit_name: "name".to_string(),
                    ty: IRType::String,
                    optional: false,
                },
                FieldDef {
                    name: "age".to_string(),
                    wit_name: "age".to_string(),
                    ty: IRType::F64,
                    optional: false,
                },
            ],
            source: SourceSpan::default(),
        })],
        functions: vec![],
        imports: vec![],
    };

    let wit = generate_wit(&ir);
    assert!(wit.contains("record user {"));
    assert!(wit.contains("name: string,"));
    assert!(wit.contains("age: f64,"));
}

#[test]
fn test_enum_emission() {
    let ir = WitIR {
        package: "wdsm:test".to_string(),
        world_name: "test".to_string(),
        types: vec![TypeDef::Enum(EnumDef {
            name: "Status".to_string(),
            wit_name: "status".to_string(),
            cases: vec!["active".to_string(), "inactive".to_string()],
            source: SourceSpan::default(),
        })],
        functions: vec![],
        imports: vec![],
    };

    let wit = generate_wit(&ir);
    assert!(wit.contains("enum status {"));
    assert!(wit.contains("active,"));
    assert!(wit.contains("inactive,"));
}

#[test]
fn test_full_module() {
    let ir = WitIR {
        package: "wdsm:user".to_string(),
        world_name: "user".to_string(),
        types: vec![TypeDef::Record(RecordDef {
            name: "User".to_string(),
            wit_name: "user".to_string(),
            fields: vec![
                FieldDef {
                    name: "id".to_string(),
                    wit_name: "id".to_string(),
                    ty: IRType::F64,
                    optional: false,
                },
                FieldDef {
                    name: "name".to_string(),
                    wit_name: "name".to_string(),
                    ty: IRType::String,
                    optional: false,
                },
                FieldDef {
                    name: "roles".to_string(),
                    wit_name: "roles".to_string(),
                    ty: IRType::List(Box::new(IRType::String)),
                    optional: false,
                },
            ],
            source: SourceSpan::default(),
        })],
        functions: vec![FunctionDef {
            name: "createUser".to_string(),
            wit_name: "create-user".to_string(),
            params: vec![
                ParamDef {
                    name: "name".to_string(),
                    wit_name: "name".to_string(),
                    ty: IRType::String,
                },
                ParamDef {
                    name: "age".to_string(),
                    wit_name: "age".to_string(),
                    ty: IRType::F64,
                },
            ],
            returns: ReturnType::Type(IRType::Named("User".to_string())),
            docs: None,
            source: SourceSpan::default(),
        }],
        imports: vec![],
    };

    let wit = generate_wit(&ir);

    assert!(wit.contains("package wdsm:user;"));
    assert!(wit.contains("world user {"));
    assert!(wit.contains("record user {"));
    assert!(wit.contains("roles: list<string>,"));
    assert!(wit.contains("export create-user: func(name: string, age: f64) -> user;"));
}

#[test]
fn codegen_exact_text_of_small_module() {
    let ir = make_simple_ir();
    let wit = generate_wit(&ir);
    assert_eq!(
        wit,
        "package wdsm:hello;\n\nworld hello {\n  export hello: func(name: string) -> string;\n}\n"
    );
}
