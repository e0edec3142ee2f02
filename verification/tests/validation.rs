use wdsm::errors::WdsmError;
use wdsm::ir::{to_kebab_case, FieldDef, IRType, RecordDef, SourceSpan, TypeDef, WitIR};
use wdsm::validation::{toposort, validate};

fn make_record(name: &str, field_types: Vec<(&str, IRType)>) -> TypeDef {
    TypeDef::Record(RecordDef {
        name: name.to_string(),
        wit_name: to_kebab_case(name),
        fields: field_types
            .into_iter()
            .map(|(fname, ftype)| FieldDef {
                name: fname.to_string(),
                wit_name: to_kebab_case(fname),
                ty: ftype,
                optional: false,
            })
            .collect(),
        source: SourceSpan::default(),
    })
}

#[test]
fn test_toposort_simple() {
    let types = vec![
        make_record("B", vec![("a", IRType::Named("A".to_string()))]),
        make_record("A", vec![("x", IRType::String)]),
    ];

    let sorted = toposort(&types).unwrap();
    assert_eq!(sorted[0].name(), "A");
    assert_eq!(sorted[1].name(), "B");
}

#[test]
fn test_toposort_no_deps() {
    let types = vec![
        make_record("A", vec![("x", IRType::String)]),
        make_record("B", vec![("y", IRType::F64)]),
    ];

    let sorted = toposort(&types).unwrap();
    assert_eq!(sorted.len(), 2);
}

#[test]
fn test_circular_dependency_detected() {
    let types = vec![
        make_record("A", vec![("b", IRType::Named("B".to_string()))]),
        make_record("B", vec![("a", IRType::Named("A".to_string()))]),
    ];

    let result = toposort(&types);
    assert!(result.is_err());
    let err = result.unwrap_err();
    assert!(err.to_string().contains("circular"));
}

#[test]
fn test_duplicate_type_detected() {
    let mut ir = WitIR {
        package: "wdsm:test".to_string(),
        world_name: "test".to_string(),
        types: vec![
            make_record("User", vec![("name", IRType::String)]),
            make_record("User", vec![("email", IRType::String)]),
        ],
        functions: vec![],
        imports: vec![],
    };

    let result = validate(&mut ir);
    assert!(result.is_err());
}

#[test]
fn test_unresolved_reference_detected() {
    let mut ir = WitIR {
        package: "wdsm:test".to_string(),
        world_name: "test".to_string(),
        types: vec![make_record(
            "order",
            vec![("user", IRType::Named("NonExistent".to_string()))],
        )],
        functions: vec![],
        imports: vec![],
    };

    let result = validate(&mut ir);
    assert!(result.is_err());
}

#[test]
fn circular_chain_names_every_stuck_definition() {
    let types = vec![
        make_record("A", vec![("b", IRType::Named("B".to_string()))]),
        make_record("B", vec![("a", IRType::Named("A".to_string()))]),
        make_record("C", vec![("x", IRType::String)]),
    ];
    match toposort(&types) {
        Err(WdsmError::CircularReference { chain }) => assert_eq!(chain, "A → B"),
        other => panic!("unexpected {:?}", other.map(|v| v.len())),
    }
}

#[test]
fn toposort_single_definition_is_kept() {
    let types = vec![make_record("Self", vec![("me", IRType::Named("Self".to_string()))])];
    let sorted = toposort(&types).unwrap();
    assert_eq!(sorted.len(), 1);
    assert_eq!(sorted[0].name(), "Self");
}

#[test]
fn duplicate_type_error_names_both_places() {
    let mut a = make_record("User", vec![("name", IRType::String)]);
    let mut b = make_record("User", vec![("email", IRType::String)]);
    if let TypeDef::Record(r) = &mut a {
        r.source = SourceSpan { file: "a.ts".to_string(), line: 3, confidence: wdsm::ir::Confidence::Explicit };
    }
    if let TypeDef::Record(r) = &mut b {
        r.source = SourceSpan { file: "a.ts".to_string(), line: 9, confidence: wdsm::ir::Confidence::Explicit };
    }
    let mut ir = WitIR {
        package: "wdsm:test".to_string(),
        world_name: "test".to_string(),
        types: vec![a, b],
        functions: vec![],
        imports: vec![],
    };
    let err = validate(&mut ir).unwrap_err();
    assert_eq!(
        err.to_string(),
        "duplicate type name `User` — first defined at a.ts:3, redefined at a.ts:9"
    );
}

#[test]
fn unresolved_reference_error_is_exact() {
    let mut ir = WitIR {
        package: "wdsm:test".to_string(),
        world_name: "test".to_string(),
        types: vec![make_record("order", vec![("user", IRType::Named("NonExistent".to_string()))])],
        functions: vec![],
        imports: vec![],
    };
    match validate(&mut ir) {
        Err(WdsmError::UnresolvedType { name, ref_in, src_file, src_line }) => {
            assert_eq!(name, "NonExistent");
            assert_eq!(ref_in, "order");
            assert_eq!(src_file, "<unknown>");
            assert_eq!(src_line, 0);
        },
        _ => panic!("expected an unresolved type"),
    }
}

#[test]
fn duplicate_field_is_refused() {
    let mut ir = WitIR {
        package: "wdsm:test".to_string(),
        world_name: "test".to_string(),
        types: vec![make_record("Pair", vec![("first", IRType::String), ("first", IRType::Bool)])],
        functions: vec![],
        imports: vec![],
    };
    match validate(&mut ir) {
        Err(WdsmError::DuplicateField { record, field }) => {
            assert_eq!(record, "Pair");
            assert_eq!(field, "first");
        },
        _ => panic!("expected a duplicate field"),
    }
}

#[test]
fn reserved_keyword_name_is_refused() {
    let mut ir = WitIR {
        package: "wdsm:test".to_string(),
        world_name: "test".to_string(),
        types: vec![make_record("Record", vec![("x", IRType::String)])],
        functions: vec![],
        imports: vec![],
    };
    match validate(&mut ir) {
        Err(WdsmError::InvalidWitName { name, reason }) => {
            assert_eq!(name, "record");
            assert_eq!(reason, "`record` is a reserved WIT keyword");
        },
        _ => panic!("expected an invalid name"),
    }
}

#[test]
fn validate_orders_definitions_and_warns_about_fallbacks() {
    let mut b = make_record("B", vec![("a", IRType::Named("A".to_string()))]);
    if let TypeDef::Record(r) = &mut b {
        r.source = SourceSpan { file: "cfg".to_string(), line: 2, confidence: wdsm::ir::Confidence::Fallback };
    }
    let mut ir = WitIR {
        package: "wdsm:test".to_string(),
        world_name: "test".to_string(),
        types: vec![b, make_record("A", vec![("x", IRType::String)])],
        functions: vec![],
        imports: vec![],
    };
    let warnings = validate(&mut ir).unwrap();
    assert_eq!(ir.types[0].name(), "A");
    assert_eq!(ir.types[1].name(), "B");
    assert_eq!(
        warnings,
        vec!["cfg:2: type `B` was inferred from config fallback — consider adding explicit type annotations".to_string()]
    );
}

#[test]
fn toposort_places_from_the_top_of_the_stack() {
    let types = vec![
        make_record("A", vec![("b", IRType::Named("B".to_string()))]),
        make_record("B", vec![("x", IRType::String)]),
        make_record("C", vec![("a", IRType::Named("A".to_string()))]),
        make_record("D", vec![("y", IRType::F64)]),
    ];
    let sorted = toposort(&types).unwrap();
    let names: Vec<&str> = sorted.iter().map(|t| t.name()).collect();
    assert_eq!(names, vec!["D", "B", "A", "C"]);

    let independent = vec![
        make_record("A", vec![("x", IRType::String)]),
        make_record("B", vec![("y", IRType::F64)]),
        make_record("C", vec![("z", IRType::Bool)]),
    ];
    let sorted = toposort(&independent).unwrap();
    let names: Vec<&str> = sorted.iter().map(|t| t.name()).collect();
    assert_eq!(names, vec!["C", "B", "A"]);
}
