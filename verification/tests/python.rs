use wdsm::frontends::python::{parse_python_type, sig_complete, split_by_comma, PythonFrontend};
use wdsm::frontends::{FrontendConfig, FrontendError};
use wdsm::ir::{IRType, ReturnType, TypeDef};

fn chars(s: &str) -> Vec<char> {
    s.chars().collect()
}

fn py(s: &str) -> (Option<IRType>, bool) {
    parse_python_type(&chars(s))
}

fn config(targets: Option<Vec<String>>) -> FrontendConfig {
    FrontendConfig { package_name: "wdsm:py".to_string(), world_name: "py".to_string(), target_functions: targets }
}

const MODULE: &str = r#"from dataclasses import dataclass
from enum import Enum

@dataclass
class User:
    name: str
    age: int = 0
    # a comment

    tags: list[str]
    def greet(self):
        pass

class Color(str, Enum):
    RED = "red"
    DarkBlue = "blue"

def create_user(name: str, age: int = 3) -> User:
    """Creates a user."""
    return User(name, age)

def _helper(x: int) -> int:
    return x

def summary(
    users: list[User],
    limit: Optional[int],
) -> dict[str, int]:
    """
    Summarises
    the users.
    """
    return {}
"#;

#[test]
fn python_module_is_read() {
    let ir = PythonFrontend.extract(MODULE, "app.py", &config(None)).unwrap();
    assert_eq!(ir.types.len(), 2);
    match &ir.types[0] {
        TypeDef::Record(r) => {
            assert_eq!(r.name, "User");
            assert_eq!(r.source.line, 5);
            let names: Vec<&str> = r.fields.iter().map(|f| f.name.as_str()).collect();
            assert_eq!(names, vec!["name", "age", "tags"]);
            assert_eq!(r.fields[1].ty, IRType::S64);
            assert_eq!(r.fields[2].ty, IRType::List(Box::new(IRType::String)));
        },
        _ => panic!("expected a record"),
    }
    match &ir.types[1] {
        TypeDef::Enum(e) => {
            assert_eq!(e.name, "Color");
            assert_eq!(e.cases, vec!["red".to_string(), "darkblue".to_string()]);
            assert_eq!(e.source.line, 14);
        },
        _ => panic!("expected an enum"),
    }
    assert_eq!(ir.functions.len(), 3);
    assert_eq!(ir.functions[0].name, "greet");
    assert_eq!(ir.functions[0].params.len(), 0);
    assert_eq!(ir.functions[0].returns, ReturnType::Void);
    let f = &ir.functions[1];
    assert_eq!(f.name, "create_user");
    assert_eq!(f.wit_name, "create_user");
    assert_eq!(f.params.len(), 2);
    assert_eq!(f.params[1].ty, IRType::S64);
    assert_eq!(f.returns, ReturnType::Type(IRType::Named("User".to_string())));
    assert_eq!(f.docs, Some("Creates a user.".to_string()));
    assert_eq!(f.source.line, 18);
    let g = &ir.functions[2];
    assert_eq!(g.name, "summary");
    assert_eq!(g.params.len(), 2);
    assert_eq!(g.params[1].ty, IRType::Option(Box::new(IRType::S64)));
    assert_eq!(g.returns, ReturnType::Type(IRType::List(Box::new(IRType::Tuple(vec![IRType::String, IRType::S64])))));
    assert_eq!(g.docs, Some("Summarises the users.".to_string()));
}

#[test]
fn python_targets_filter_functions() {
    let ir = PythonFrontend.extract(MODULE, "app.py", &config(Some(vec!["summary".to_string()]))).unwrap();
    assert_eq!(ir.functions.len(), 1);
    assert_eq!(ir.functions[0].name, "summary");
}

#[test]
fn python_parameter_without_annotation_is_refused() {
    let err = PythonFrontend.extract("def f(a, b: int):\n    pass\n", "m.py", &config(None)).unwrap_err();
    assert_eq!(err.to_string(), "m.py:1: parameter `a` has no type annotation");
}

#[test]
fn python_unsupported_parameter_type_is_refused() {
    let err = PythonFrontend.extract("def f(a: complex):\n    pass\n", "m.py", &config(None)).unwrap_err();
    match err {
        FrontendError::Message(m) => assert_eq!(m, "m.py:1: unsupported/missing type on param `a`"),
        _ => panic!("expected a message"),
    }
}

#[test]
fn python_malformed_signature_is_refused() {
    let err = PythonFrontend.extract("def f(a: int:\n", "m.py", &config(None)).unwrap_err();
    match err {
        FrontendError::InContext { context, message } => {
            assert_eq!(context, "m.py:1: malformed function signature");
            assert_eq!(message, "no closing paren in function signature");
        },
        _ => panic!("expected a context"),
    }
}

#[test]
fn python_type_annotations() {
    assert_eq!(py("str"), (Some(IRType::String), false));
    assert_eq!(py(" float "), (Some(IRType::F64), false));
    assert_eq!(py("bytes"), (Some(IRType::List(Box::new(IRType::U8))), false));
    assert_eq!(py("None"), (Some(IRType::Bool), false));
    assert_eq!(py("Optional[str]"), (Some(IRType::Option(Box::new(IRType::String))), true));
    assert_eq!(py("int | None"), (Some(IRType::Option(Box::new(IRType::S64))), true));
    assert_eq!(py("None | bool"), (Some(IRType::Option(Box::new(IRType::Bool))), true));
    assert_eq!(py("List[User]"), (Some(IRType::List(Box::new(IRType::Named("User".to_string())))), false));
    assert_eq!(py("tuple[int, str]"), (Some(IRType::Tuple(vec![IRType::S64, IRType::String])), false));
    assert_eq!(py("tuple[int, complex]"), (None, false));
    assert_eq!(py("Dict[str, list[int]]"), (
        Some(IRType::List(Box::new(IRType::Tuple(vec![IRType::String, IRType::List(Box::new(IRType::S64))])))),
        false,
    ));
    assert_eq!(py("Point3D"), (Some(IRType::Named("Point3D".to_string())), false));
    assert_eq!(py("point"), (None, false));
    assert_eq!(py("int | str"), (None, false));
}

#[test]
fn python_split_by_comma_respects_brackets() {
    let parts: Vec<String> = split_by_comma(&chars("a: int, b: dict[str, int] ,c: tuple[int, (int)] , "))
        .into_iter()
        .map(|p| p.into_iter().collect())
        .collect();
    assert_eq!(parts, vec!["a: int", "b: dict[str, int]", "c: tuple[int, (int)]"]);
}

#[test]
fn unsupported_optional_annotations_are_not_optional() {
    assert_eq!(py("Optional[foo]"), (None, false));
    assert_eq!(py("foo | None"), (None, false));
    assert_eq!(py("None | foo"), (None, false));
    assert_eq!(py("foo"), (None, false));
    assert_eq!(py("list[foo]"), (None, false));
    assert_eq!(py("int | None"), (Some(IRType::Option(Box::new(IRType::S64))), true));
}

#[test]
fn signature_complete_only_when_ending_with_colon() {
    assert!(sig_complete(&chars("def f(x: dict[str, int]) -> int:")));
    assert!(sig_complete(&chars("def f(a: int, b: str) -> None:   ")));
    assert!(!sig_complete(&chars("def f(x: int,")));
    assert!(!sig_complete(&chars("def f(): pass")));
    assert!(!sig_complete(&chars("def f(x: list[int")));
    assert!(!sig_complete(&chars("")));
}
