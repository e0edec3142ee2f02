//! Errors raised while extracting and validating an interface, and the WIT
//! identifier rules.

use vstd::prelude::*;
use vstd::string::*;
use crate::text::{decimal, is_ascii_digit, is_ascii_lower, owned, str_eq, chars_of, u64_to_decimal};

verus! {

/// Everything that can go wrong while turning a source file into WIT.
#[derive(Debug)]
pub enum WdsmError {
    MissingTypeAnnotation { file: String, line: u64, function: String, param: String },
    UnsupportedType { ty: String, suggestion: Option<String> },
    WitValidation(String),
    MissingToolchain { tool: String, install_cmd: String },
    CircularReference { chain: String },
    DuplicateType { name: String, first: String, second: String },
    DuplicateField { record: String, field: String },
    DuplicateParam { function: String, param: String },
    DuplicateCase { owner: String, case: String },
    UnresolvedType { name: String, ref_in: String, src_file: String, src_line: u64 },
    InvalidWitName { name: String, reason: String },
    ParseError(String),
    FunctionNotFound { function: String, file: String },
    IoError(String),
}

/// Model of a [`WdsmError`].
pub enum SpecWdsmError {
    MissingTypeAnnotation { file: Seq<char>, line: u64, function: Seq<char>, param: Seq<char> },
    UnsupportedType { ty: Seq<char>, suggestion: Option<Seq<char>> },
    WitValidation(Seq<char>),
    MissingToolchain { tool: Seq<char>, install_cmd: Seq<char> },
    CircularReference { chain: Seq<char> },
    DuplicateType { name: Seq<char>, first: Seq<char>, second: Seq<char> },
    DuplicateField { record: Seq<char>, field: Seq<char> },
    DuplicateParam { function: Seq<char>, param: Seq<char> },
    DuplicateCase { owner: Seq<char>, case: Seq<char> },
    UnresolvedType { name: Seq<char>, ref_in: Seq<char>, src_file: Seq<char>, src_line: u64 },
    InvalidWitName { name: Seq<char>, reason: Seq<char> },
    ParseError(Seq<char>),
    FunctionNotFound { function: Seq<char>, file: Seq<char> },
    IoError(Seq<char>),
}

impl View for WdsmError {
    type V = SpecWdsmError;

    open spec fn view(&self) -> SpecWdsmError {
        match self {
            WdsmError::MissingTypeAnnotation { file, line, function, param } =>
                SpecWdsmError::MissingTypeAnnotation { file: file@, line: *line, function: function@, param: param@ },
            WdsmError::UnsupportedType { ty, suggestion } => SpecWdsmError::UnsupportedType {
                ty: ty@,
                suggestion: match suggestion {
                    Some(s) => Some(s@),
                    None => None,
                },
            },
            WdsmError::WitValidation(m) => SpecWdsmError::WitValidation(m@),
            WdsmError::MissingToolchain { tool, install_cmd } =>
                SpecWdsmError::MissingToolchain { tool: tool@, install_cmd: install_cmd@ },
            WdsmError::CircularReference { chain } => SpecWdsmError::CircularReference { chain: chain@ },
            WdsmError::DuplicateType { name, first, second } =>
                SpecWdsmError::DuplicateType { name: name@, first: first@, second: second@ },
            WdsmError::DuplicateField { record, field } =>
                SpecWdsmError::DuplicateField { record: record@, field: field@ },
            WdsmError::DuplicateParam { function, param } =>
                SpecWdsmError::DuplicateParam { function: function@, param: param@ },
            WdsmError::DuplicateCase { owner, case } =>
                SpecWdsmError::DuplicateCase { owner: owner@, case: case@ },
            WdsmError::UnresolvedType { name, ref_in, src_file, src_line } => SpecWdsmError::UnresolvedType {
                name: name@,
                ref_in: ref_in@,
                src_file: src_file@,
                src_line: *src_line,
            },
            WdsmError::InvalidWitName { name, reason } =>
                SpecWdsmError::InvalidWitName { name: name@, reason: reason@ },
            WdsmError::ParseError(m) => SpecWdsmError::ParseError(m@),
            WdsmError::FunctionNotFound { function, file } =>
                SpecWdsmError::FunctionNotFound { function: function@, file: file@ },
            WdsmError::IoError(m) => SpecWdsmError::IoError(m@),
        }
    }
}

/// The human-readable message of an error.
pub open spec fn error_message(e: SpecWdsmError) -> Seq<char> {
    match e {
        SpecWdsmError::MissingTypeAnnotation { file, line, function, param } =>
            file + ":"@ + decimal(line as nat) + ": missing type annotation on parameter `"@ + param
                + "` in function `"@ + function + "`"@,
        SpecWdsmError::UnsupportedType { ty, suggestion } => "unsupported type `"@ + ty + "`"@ + match suggestion {
            Some(s) => " — "@ + s,
            None => Seq::empty(),
        },
        SpecWdsmError::WitValidation(m) => "WIT validation failed: "@ + m,
        SpecWdsmError::MissingToolchain { tool, install_cmd } =>
            "toolchain `"@ + tool + "` not found — install with: "@ + install_cmd,
        SpecWdsmError::CircularReference { chain } => "circular type reference detected: "@ + chain,
        SpecWdsmError::DuplicateType { name, first, second } =>
            "duplicate type name `"@ + name + "` — first defined at "@ + first + ", redefined at "@ + second,
        SpecWdsmError::DuplicateField { record, field } =>
            "duplicate field `"@ + field + "` in record `"@ + record + "`"@,
        SpecWdsmError::DuplicateParam { function, param } =>
            "duplicate parameter `"@ + param + "` in function `"@ + function + "`"@,
        SpecWdsmError::DuplicateCase { owner, case } =>
            "duplicate case `"@ + case + "` in type `"@ + owner + "`"@,
        SpecWdsmError::UnresolvedType { name, ref_in, src_file, src_line } =>
            src_file + ":"@ + decimal(src_line as nat) + ": unresolved type `"@ + name + "` referenced in `"@
                + ref_in + "`"@,
        SpecWdsmError::InvalidWitName { name, reason } => "invalid WIT name `"@ + name + "`: "@ + reason,
        SpecWdsmError::ParseError(m) => "parse error: "@ + m,
        SpecWdsmError::FunctionNotFound { function, file } =>
            "function `"@ + function + "` not found in "@ + file,
        SpecWdsmError::IoError(m) => "I/O error: "@ + m,
    }
}

/// Builds a message from consecutive pieces.
fn cat(parts: &[&str]) -> (r: String)
    ensures
        r@ == cat_spec(parts@),
{
    let mut r = String::new();
    let mut i: usize = 0;
    while i < parts.len()
        invariant
            i <= parts@.len(),
            r@ == cat_spec(parts@.subrange(0, i as int)),
        decreases parts.len() - i,
    {
        assert(parts@.subrange(0, i + 1).drop_last() =~= parts@.subrange(0, i as int));
        r.append(parts[i]);
        i = i + 1;
    }
    assert(parts@.subrange(0, parts@.len() as int) =~= parts@);
    r
}

/// The concatenation of the pieces `ps`.
pub open spec fn cat_spec(ps: Seq<&str>) -> Seq<char>
    decreases ps.len(),
{
    if ps.len() == 0 {
        Seq::empty()
    } else {
        cat_spec(ps.drop_last()) + ps.last()@
    }
}

impl WdsmError {
    /// The human-readable message of this error.
    pub fn to_string(&self) -> (r: String)
        ensures
            r@ == error_message(self@),
    {
        let r = match self {
            WdsmError::MissingTypeAnnotation { file, line, function, param } => {
                let l = u64_to_decimal(*line);
                cat(&[file.as_str(), ":", l.as_str(), ": missing type annotation on parameter `", param.as_str(),
                    "` in function `", function.as_str(), "`"])
            },
            WdsmError::UnsupportedType { ty, suggestion } => match suggestion {
                Some(s) => cat(&["unsupported type `", ty.as_str(), "`", " — ", s.as_str()]),
                None => cat(&["unsupported type `", ty.as_str(), "`"]),
            },
            WdsmError::WitValidation(m) => cat(&["WIT validation failed: ", m.as_str()]),
            WdsmError::MissingToolchain { tool, install_cmd } =>
                cat(&["toolchain `", tool.as_str(), "` not found — install with: ", install_cmd.as_str()]),
            WdsmError::CircularReference { chain } => cat(&["circular type reference detected: ", chain.as_str()]),
            WdsmError::DuplicateType { name, first, second } => cat(&["duplicate type name `", name.as_str(),
                "` — first defined at ", first.as_str(), ", redefined at ", second.as_str()]),
            WdsmError::DuplicateField { record, field } =>
                cat(&["duplicate field `", field.as_str(), "` in record `", record.as_str(), "`"]),
            WdsmError::DuplicateParam { function, param } =>
                cat(&["duplicate parameter `", param.as_str(), "` in function `", function.as_str(), "`"]),
            WdsmError::DuplicateCase { owner, case } =>
                cat(&["duplicate case `", case.as_str(), "` in type `", owner.as_str(), "`"]),
            WdsmError::UnresolvedType { name, ref_in, src_file, src_line } => {
                let l = u64_to_decimal(*src_line);
                cat(&[src_file.as_str(), ":", l.as_str(), ": unresolved type `", name.as_str(),
                    "` referenced in `", ref_in.as_str(), "`"])
            },
            WdsmError::InvalidWitName { name, reason } =>
                cat(&["invalid WIT name `", name.as_str(), "`: ", reason.as_str()]),
            WdsmError::ParseError(m) => cat(&["parse error: ", m.as_str()]),
            WdsmError::FunctionNotFound { function, file } =>
                cat(&["function `", function.as_str(), "` not found in ", file.as_str()]),
            WdsmError::IoError(m) => cat(&["I/O error: ", m.as_str()]),
        };
        proof {
            reveal_with_fuel(cat_spec, 9);
        }
        r
    }
}

} // verus!

verus! {

/// The reserved words of WIT.
pub open spec fn wit_keywords() -> Seq<Seq<char>> {
    seq!["use"@, "type"@, "resource"@, "func"@, "record"@, "enum"@, "flags"@, "variant"@, "static"@, "interface"@, "world"@, "import"@, "export"@, "package"@, "include"@, "constructor"@, "result"@, "option"@, "list"@, "tuple"@, "borrow"@, "own"@, "bool"@, "u8"@, "u16"@, "u32"@, "u64"@, "s8"@, "s16"@, "s32"@, "s64"@, "f32"@, "f64"@, "char"@, "string"@]
}

/// The reserved words of WIT, in the order of [`wit_keywords`].
pub fn reserved_wit_keywords() -> (r: Vec<&'static str>)
    ensures
        r@.len() == wit_keywords().len(),
        forall|i: int| 0 <= i < r@.len() ==> #[trigger] r@[i]@ == wit_keywords()[i],
{
    let mut v: Vec<&'static str> = Vec::new();
    v.push("use");
    v.push("type");
    v.push("resource");
    v.push("func");
    v.push("record");
    v.push("enum");
    v.push("flags");
    v.push("variant");
    v.push("static");
    v.push("interface");
    v.push("world");
    v.push("import");
    v.push("export");
    v.push("package");
    v.push("include");
    v.push("constructor");
    v.push("result");
    v.push("option");
    v.push("list");
    v.push("tuple");
    v.push("borrow");
    v.push("own");
    v.push("bool");
    v.push("u8");
    v.push("u16");
    v.push("u32");
    v.push("u64");
    v.push("s8");
    v.push("s16");
    v.push("s32");
    v.push("s64");
    v.push("f32");
    v.push("f64");
    v.push("char");
    v.push("string");
    v
}

/// Whether every character of `n` is a lowercase ASCII letter, a digit or a hyphen.
pub open spec fn only_wit_chars(n: Seq<char>) -> bool {
    forall|i: int| 0 <= i < n.len() ==> is_ascii_lower(#[trigger] n[i]) || is_ascii_digit(n[i]) || n[i] == '-'
}

/// Whether `n` holds two hyphens in a row.
pub open spec fn has_double_hyphen(n: Seq<char>) -> bool {
    exists|i: int| 0 <= i && i + 1 < n.len() && #[trigger] n[i] == '-' && n[i + 1] == '-'
}

/// Why `n` is not a valid WIT identifier, or `None` when it is one.
pub open spec fn wit_name_problem(n: Seq<char>) -> Option<Seq<char>> {
    if n.len() == 0 {
        Some("name cannot be empty"@)
    } else if !is_ascii_lower(n[0]) {
        Some("must start with a lowercase ASCII letter"@)
    } else if !only_wit_chars(n) {
        Some("must only contain lowercase ASCII letters, digits, and hyphens"@)
    } else if n.last() == '-' {
        Some("must not end with a hyphen"@)
    } else if has_double_hyphen(n) {
        Some("must not contain consecutive hyphens"@)
    } else if wit_keywords().contains(n) {
        Some("`"@ + n + "` is a reserved WIT keyword"@)
    } else {
        None
    }
}

/// Checks that `name` is a valid WIT identifier: non-empty, starting with a
/// lowercase ASCII letter, made of lowercase letters, digits and single inner
/// hyphens, and not a reserved word.
pub fn validate_wit_name(name: &str) -> (r: Result<(), WdsmError>)
    ensures
        (r is Ok) <==> (wit_name_problem(name@) is None),
        r matches Err(e) ==> e@ == (SpecWdsmError::InvalidWitName {
            name: name@,
            reason: wit_name_problem(name@)->0,
        }),
{
    let cs = chars_of(name);
    let n = cs.len();
    if n == 0 {
        return Err(WdsmError::InvalidWitName { name: owned(name), reason: owned("name cannot be empty") });
    }
    let c0 = cs[0];
    if !('a' <= c0 && c0 <= 'z') {
        return Err(WdsmError::InvalidWitName {
            name: owned(name),
            reason: owned("must start with a lowercase ASCII letter"),
        });
    }
    let mut i: usize = 0;
    while i < n
        invariant
            n == cs@.len(),
            cs@ == name@,
            i <= n,
            n > 0,
            is_ascii_lower(cs@[0]),
            forall|k: int| 0 <= k < i ==> is_ascii_lower(#[trigger] cs@[k]) || is_ascii_digit(cs@[k]) || cs@[k] == '-',
        decreases n - i,
    {
        let c = cs[i];
        if !(('a' <= c && c <= 'z') || ('0' <= c && c <= '9') || c == '-') {
            assert(!(is_ascii_lower(cs@[i as int]) || is_ascii_digit(cs@[i as int]) || cs@[i as int] == '-'));
            return Err(WdsmError::InvalidWitName {
                name: owned(name),
                reason: owned("must only contain lowercase ASCII letters, digits, and hyphens"),
            });
        }
        i = i + 1;
    }
    if cs[n - 1] == '-' {
        return Err(WdsmError::InvalidWitName { name: owned(name), reason: owned("must not end with a hyphen") });
    }
    let mut i: usize = 0;
    while i < n - 1
        invariant
            n == cs@.len(),
            n > 0,
            cs@ == name@,
            is_ascii_lower(cs@[0]),
            only_wit_chars(cs@),
            cs@[n - 1] != '-',
            forall|k: int| 0 <= k < i && k + 1 < n ==> !(#[trigger] cs@[k] == '-' && cs@[k + 1] == '-'),
        decreases n - i,
    {
        if cs[i] == '-' && cs[i + 1] == '-' {
            assert(cs@[i as int] == '-' && cs@[i + 1] == '-');
            return Err(WdsmError::InvalidWitName {
                name: owned(name),
                reason: owned("must not contain consecutive hyphens"),
            });
        }
        i = i + 1;
    }
    assert(!has_double_hyphen(name@));
    let kws = reserved_wit_keywords();
    let mut k: usize = 0;
    while k < kws.len()
        invariant
            kws@.len() == wit_keywords().len(),
            forall|j: int| 0 <= j < kws@.len() ==> #[trigger] kws@[j]@ == wit_keywords()[j],
            k <= kws@.len(),
            forall|j: int| 0 <= j < k ==> wit_keywords()[j] != name@,
            wit_name_problem(name@) is None || wit_name_problem(name@) == Some("`"@ + name@ + "` is a reserved WIT keyword"@),
        decreases kws.len() - k,
    {
        if str_eq(kws[k], name) {
            assert(wit_keywords()[k as int] == name@);
            let mut reason = owned("`");
            reason.append(name);
            reason.append("` is a reserved WIT keyword");
            return Err(WdsmError::InvalidWitName { name: owned(name), reason });
        }
        k = k + 1;
    }
    Ok(())
}

/// A name is a valid WIT identifier exactly when it is non-empty, starts
/// with a lowercase ASCII letter, holds only lowercase ASCII letters, ASCII
/// digits and hyphens, does not end with a hyphen, holds no two hyphens in a
/// row, and is not one of WIT's reserved words.
pub proof fn law_valid_wit_names(n: Seq<char>)
    ensures
        (wit_name_problem(n) is None) <==> {
            &&& n.len() > 0
            &&& 'a' <= n[0] <= 'z'
            &&& forall|i: int| 0 <= i < n.len() ==> ('a' <= #[trigger] n[i] <= 'z') || ('0' <= n[i] <= '9') || n[i] == '-'
            &&& n[n.len() - 1] != '-'
            &&& forall|i: int| 0 <= i < n.len() - 1 ==> !(#[trigger] n[i] == '-' && n[i + 1] == '-')
            &&& forall|k: int| 0 <= k < wit_keywords().len() ==> #[trigger] wit_keywords()[k] != n
        },
{
    if has_double_hyphen(n) {
        let i = choose|i: int| 0 <= i && i + 1 < n.len() && #[trigger] n[i] == '-' && n[i + 1] == '-';
        assert(n[i] == '-' && n[i + 1] == '-');
    }
    if wit_keywords().contains(n) {
        let k = choose|k: int| 0 <= k < wit_keywords().len() && wit_keywords()[k] == n;
        assert(wit_keywords()[k] == n);
    }
    if !only_wit_chars(n) {
        let i = choose|i: int| 0 <= i < n.len() && !(is_ascii_lower(#[trigger] n[i]) || is_ascii_digit(n[i]) || n[i] == '-');
        assert(!(('a' <= n[i] <= 'z') || ('0' <= n[i] <= '9') || n[i] == '-'));
    }
}

} // verus!
