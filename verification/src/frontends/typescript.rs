//! The TypeScript frontend.
//!
//! The syntax tree of a module is held in the plain types below, which keep
//! exactly what the extraction reads: the exported and declared types and
//! functions, their type annotations and the line each starts on.  Extraction
//! walks the declarations in the order a depth-first traversal meets them.

use vstd::prelude::*;
use crate::errors::{SpecWdsmError, WdsmError};
use crate::ir::{
    kebab, to_kebab_case, wit_str, Confidence, FieldDef, FunctionDef, IRType, ParamDef, ReturnType, SourceSpan,
    SpecIRType,
};
use crate::text::{owned, str_eq};

verus! {

// ---------------------------------------------------------------------------
// Syntax
// ---------------------------------------------------------------------------

/// The keyword types of TypeScript.
#[derive(Debug, Clone, Copy, PartialEq, Eq, Structural)]
pub enum TsKeywordKind {
    Any,
    Unknown,
    Number,
    Object,
    Boolean,
    BigInt,
    String,
    Symbol,
    Void,
    Undefined,
    Null,
    Never,
    Intrinsic,
}

/// A literal used as a type.
#[derive(Debug)]
pub enum TsLit {
    /// A string literal; `None` when its value is not valid Unicode.
    Str(Option<String>),
    /// A numeric literal, converted to a whole number.
    Number(i64),
    /// Any other literal.
    Other,
}

/// A TypeScript type annotation.
#[derive(Debug)]
pub enum TypeAnn {
    Keyword(TsKeywordKind),
    /// A reference to a named type; `name` is `None` for a qualified name.
    Ref { name: Option<String>, params: Option<Vec<TypeAnn>> },
    Array(Box<TypeAnn>),
    Tuple(Vec<TypeAnn>),
    /// A union or an intersection of the member types.
    Union(Vec<TypeAnn>),
    /// An inline object type.
    TypeLit(Vec<TsMember>),
    Paren(Box<TypeAnn>),
    /// A literal type, with the rendering used in messages.
    Lit { lit: TsLit, text: String },
    /// Any other type, with the rendering used in messages.
    Other(String),
}

/// A member of an interface or an inline object type.
#[derive(Debug)]
pub enum TsMember {
    /// A property; `key` is `None` when it is not a plain identifier.
    Property { key: Option<String>, optional: bool, type_ann: Option<TypeAnn> },
    Other,
}

/// A parameter of a function.
#[derive(Debug)]
pub struct TsParam {
    /// The parameter's name; `None` for a destructuring or other pattern.
    pub name: Option<String>,
    pub type_ann: Option<TypeAnn>,
    pub line: u64,
}

/// A function or arrow function.
#[derive(Debug)]
pub struct TsFunction {
    pub params: Vec<TsParam>,
    pub return_type: Option<TypeAnn>,
    pub line: u64,
}

/// An interface declaration.
#[derive(Debug)]
pub struct TsInterface {
    pub name: String,
    pub members: Vec<TsMember>,
    pub line: u64,
}

/// A type alias declaration.
#[derive(Debug)]
pub struct TsTypeAlias {
    pub name: String,
    pub type_ann: TypeAnn,
    pub line: u64,
}

/// An enum declaration; each member is its identifier, or `None` when it is
/// named by a string.
#[derive(Debug)]
pub struct TsEnum {
    pub name: String,
    pub members: Vec<Option<String>>,
    pub line: u64,
}

/// One declarator of an exported variable declaration.
#[derive(Debug)]
pub struct TsVarDecl {
    /// The declared name; `None` for a destructuring pattern.
    pub name: Option<String>,
    /// The arrow function it is initialised with, if it is.
    pub arrow: Option<TsFunction>,
}

/// A declaration met while walking a module.
#[derive(Debug)]
pub enum TsItem {
    ExportFn { name: String, func: TsFunction },
    ExportVars(Vec<TsVarDecl>),
    ExportInterface(TsInterface),
    ExportTypeAlias(TsTypeAlias),
    ExportEnum(TsEnum),
    /// `export default function`, with its name if it has one.
    ExportDefaultFn { ident: Option<String>, func: TsFunction },
    Interface(TsInterface),
    TypeAlias(TsTypeAlias),
    Enum(TsEnum),
}

/// A parsed module: its declarations in traversal order.
#[derive(Debug)]
pub struct TsModule {
    pub items: Vec<TsItem>,
}

// ---------------------------------------------------------------------------
// Type mapping
// ---------------------------------------------------------------------------

/// The name of a keyword kind as messages spell it.
pub open spec fn keyword_name(k: TsKeywordKind) -> Seq<char> {
    match k {
        TsKeywordKind::Any => "TsAnyKeyword"@,
        TsKeywordKind::Unknown => "TsUnknownKeyword"@,
        TsKeywordKind::Number => "TsNumberKeyword"@,
        TsKeywordKind::Object => "TsObjectKeyword"@,
        TsKeywordKind::Boolean => "TsBooleanKeyword"@,
        TsKeywordKind::BigInt => "TsBigIntKeyword"@,
        TsKeywordKind::String => "TsStringKeyword"@,
        TsKeywordKind::Symbol => "TsSymbolKeyword"@,
        TsKeywordKind::Void => "TsVoidKeyword"@,
        TsKeywordKind::Undefined => "TsUndefinedKeyword"@,
        TsKeywordKind::Null => "TsNullKeyword"@,
        TsKeywordKind::Never => "TsNeverKeyword"@,
        TsKeywordKind::Intrinsic => "TsIntrinsicKeyword"@,
    }
}

/// The name of a keyword kind as messages spell it.
pub fn keyword_kind_name(k: TsKeywordKind) -> (r: &'static str)
    ensures
        r@ == keyword_name(k),
{
    match k {
        TsKeywordKind::Any => "TsAnyKeyword",
        TsKeywordKind::Unknown => "TsUnknownKeyword",
        TsKeywordKind::Number => "TsNumberKeyword",
        TsKeywordKind::Object => "TsObjectKeyword",
        TsKeywordKind::Boolean => "TsBooleanKeyword",
        TsKeywordKind::BigInt => "TsBigIntKeyword",
        TsKeywordKind::String => "TsStringKeyword",
        TsKeywordKind::Symbol => "TsSymbolKeyword",
        TsKeywordKind::Void => "TsVoidKeyword",
        TsKeywordKind::Undefined => "TsUndefinedKeyword",
        TsKeywordKind::Null => "TsNullKeyword",
        TsKeywordKind::Never => "TsNeverKeyword",
        TsKeywordKind::Intrinsic => "TsIntrinsicKeyword",
    }
}

/// An unsupported-type error.
pub open spec fn unsupported(ty: Seq<char>, suggestion: Seq<char>) -> SpecWdsmError {
    SpecWdsmError::UnsupportedType { ty: ty, suggestion: Some(suggestion) }
}

fn unsupported_err(ty: &str, suggestion: &str) -> (e: WdsmError)
    ensures
        e@ == unsupported(ty@, suggestion@),
{
    WdsmError::UnsupportedType { ty: owned(ty), suggestion: Some(owned(suggestion)) }
}

/// How a keyword type maps.
pub open spec fn keyword_map(k: TsKeywordKind) -> Result<SpecIRType, SpecWdsmError> {
    match k {
        TsKeywordKind::String => Ok(SpecIRType::String),
        TsKeywordKind::Number => Ok(SpecIRType::F64),
        TsKeywordKind::Boolean => Ok(SpecIRType::Bool),
        TsKeywordKind::BigInt => Ok(SpecIRType::S64),
        _ => Err(unsupported(keyword_name(k), "use string, number, boolean, or bigint"@)),
    }
}

/// Whether `t` is the `null` or `undefined` keyword.
pub open spec fn is_nullish(t: TypeAnn) -> bool {
    t matches TypeAnn::Keyword(k) && (k == TsKeywordKind::Null || k == TsKeywordKind::Undefined)
}

/// Whether `t` is a string literal type.
pub open spec fn is_str_lit(t: TypeAnn) -> bool {
    t matches TypeAnn::Lit { lit, .. } && lit is Str
}

/// How many of `ts` are neither `null` nor `undefined`.
pub open spec fn non_nullish_count(ts: Seq<TypeAnn>) -> nat
    decreases ts.len(),
{
    if ts.len() == 0 {
        0
    } else {
        non_nullish_count(ts.drop_last()) + if is_nullish(ts.last()) { 0nat } else { 1nat }
    }
}

/// The position of the last of `ts` that is neither `null` nor `undefined`, or -1.
pub open spec fn last_non_nullish(ts: Seq<TypeAnn>) -> int
    decreases ts.len(),
{
    if ts.len() == 0 {
        -1
    } else if !is_nullish(ts.last()) {
        ts.len() - 1
    } else {
        last_non_nullish(ts.drop_last())
    }
}

/// Whether some of `ts` is `null` or `undefined`.
pub open spec fn has_nullish(ts: Seq<TypeAnn>) -> bool {
    exists|i: int| 0 <= i < ts.len() && #[trigger] is_nullish(ts[i])
}

/// Whether every one of `ts` is a string literal type.
pub open spec fn all_str_lits(ts: Seq<TypeAnn>) -> bool {
    forall|i: int| 0 <= i < ts.len() ==> #[trigger] is_str_lit(ts[i])
}

/// The error for a union that is not `T | null` or `T | undefined`.
pub open spec fn union_error(ts: Seq<TypeAnn>) -> SpecWdsmError {
    if all_str_lits(ts) {
        unsupported("inline union of string literals"@, "use a named type alias instead"@)
    } else {
        unsupported("inline union type"@, "use a named type alias instead"@)
    }
}

/// The IR type that a TypeScript type maps to, or why it cannot be mapped.
pub open spec fn ts_map(t: TypeAnn) -> Result<SpecIRType, SpecWdsmError>
    decreases t,
{
    match t {
        TypeAnn::Keyword(k) => keyword_map(k),
        TypeAnn::Ref { name, params } => match name {
            None => Err(unsupported("qualified type name"@, "use a simple, non-qualified type name"@)),
            Some(n) => {
                let has_first = params is Some && params->0@.len() > 0;
                if n@ == "Array"@ || n@ == "Set"@ {
                    if has_first {
                        match ts_map(params->0@[0]) {
                            Ok(x) => Ok(SpecIRType::List(Box::new(x))),
                            Err(e) => Err(e),
                        }
                    } else {
                        Ok(SpecIRType::List(Box::new(SpecIRType::String)))
                    }
                } else if n@ == "Promise"@ {
                    if has_first {
                        ts_map(params->0@[0])
                    } else {
                        Ok(SpecIRType::String)
                    }
                } else if n@ == "Map"@ || n@ == "Record"@ {
                    if params is Some && params->0@.len() == 2 {
                        match ts_map(params->0@[0]) {
                            Err(e) => Err(e),
                            Ok(k) => match ts_map(params->0@[1]) {
                                Err(e) => Err(e),
                                Ok(v) => Ok(SpecIRType::List(Box::new(SpecIRType::Tuple(seq![k, v])))),
                            },
                        }
                    } else {
                        Ok(SpecIRType::List(Box::new(SpecIRType::Tuple(seq![SpecIRType::String, SpecIRType::String]))))
                    }
                } else {
                    Ok(SpecIRType::Named(n@))
                }
            },
        },
        TypeAnn::Array(e) => match ts_map(*e) {
            Ok(x) => Ok(SpecIRType::List(Box::new(x))),
            Err(err) => Err(err),
        },
        TypeAnn::Tuple(v) => match ts_map_all(v@) {
            Ok(xs) => Ok(SpecIRType::Tuple(xs)),
            Err(err) => Err(err),
        },
        TypeAnn::Union(v) => {
            let j = last_non_nullish(v@);
            if has_nullish(v@) && non_nullish_count(v@) == 1 && 0 <= j < v@.len() {
                match ts_map(v@[j]) {
                    Ok(x) => Ok(SpecIRType::Option(Box::new(x))),
                    Err(err) => Err(err),
                }
            } else {
                Err(union_error(v@))
            }
        },
        TypeAnn::TypeLit(_) => Err(unsupported("inline object type literal"@, "use a named interface or type alias instead"@)),
        TypeAnn::Paren(inner) => ts_map(*inner),
        TypeAnn::Lit { text, .. } => Err(unsupported(text@, "use a named type or supported primitive"@)),
        TypeAnn::Other(text) => Err(unsupported(text@, "use a named type or supported primitive"@)),
    }
}

/// `Array<T>` and `Set<T>` map as `T[]` does: to a list of what `T` maps
/// to, or to the error of `T`; with no type argument they map to a list of
/// strings.
pub proof fn law_collections_map_to_lists(n: String, t: TypeAnn, rest: Seq<TypeAnn>, params: Vec<TypeAnn>)
    requires
        n@ == "Array"@ || n@ == "Set"@,
        params@ == seq![t] + rest,
    ensures
        ts_map(TypeAnn::Ref { name: Some(n), params: Some(params) }) == ts_map(TypeAnn::Array(Box::new(t))),
        ts_map(t) matches Ok(x) ==> ts_map(TypeAnn::Ref { name: Some(n), params: Some(params) })
            == Ok::<SpecIRType, SpecWdsmError>(SpecIRType::List(Box::new(x))),
        ts_map(TypeAnn::Ref { name: Some(n), params: None }) == Ok::<SpecIRType, SpecWdsmError>(SpecIRType::List(Box::new(SpecIRType::String))),
{
    assert(params@[0] == t);
}

/// The IR types that `ts` map to, or the error of the first that cannot be mapped.
pub open spec fn ts_map_all(ts: Seq<TypeAnn>) -> Result<Seq<SpecIRType>, SpecWdsmError>
    decreases ts,
{
    if ts.len() == 0 {
        Ok(Seq::empty())
    } else {
        match ts_map_all(ts.subrange(0, ts.len() - 1)) {
            Err(e) => Err(e),
            Ok(xs) => match ts_map(ts[ts.len() - 1]) {
                Err(e) => Err(e),
                Ok(x) => Ok(xs.push(x)),
            },
        }
    }
}

proof fn lemma_non_nullish(ts: Seq<TypeAnn>)
    ensures
        non_nullish_count(ts) == 0 <==> last_non_nullish(ts) == -1,
        last_non_nullish(ts) == -1 || (0 <= last_non_nullish(ts) < ts.len() && !is_nullish(ts[last_non_nullish(ts)])),
        non_nullish_count(ts) == 1 ==> forall|i: int| 0 <= i < ts.len() && i != last_non_nullish(ts) ==> #[trigger] is_nullish(ts[i]),
    decreases ts.len(),
{
    if ts.len() > 0 {
        lemma_non_nullish(ts.drop_last());
        let p = ts.drop_last();
        if non_nullish_count(ts) == 1 {
            assert forall|i: int| 0 <= i < ts.len() && i != last_non_nullish(ts) implies #[trigger] is_nullish(ts[i]) by {
                if i < ts.len() - 1 {
                    assert(ts[i] == p[i]);
                    if !is_nullish(ts.last()) {
                        assert(non_nullish_count(p) == 0);
                        if !is_nullish(p[i]) {
                            assert(last_non_nullish(p) == -1);
                            lemma_count_positive(p, i);
                        }
                    }
                }
            }
        }
    }
}

proof fn lemma_count_positive(ts: Seq<TypeAnn>, i: int)
    requires
        0 <= i < ts.len(),
        !is_nullish(ts[i]),
    ensures
        non_nullish_count(ts) > 0,
    decreases ts.len(),
{
    if i < ts.len() - 1 {
        assert(ts.drop_last()[i] == ts[i]);
        lemma_count_positive(ts.drop_last(), i);
    }
}

/// Maps a keyword type.
fn map_keyword_type(k: TsKeywordKind) -> (r: Result<IRType, WdsmError>)
    ensures
        match r {
            Ok(t) => keyword_map(k) == Ok::<SpecIRType, SpecWdsmError>(t@),
            Err(e) => keyword_map(k) == Err::<SpecIRType, SpecWdsmError>(e@),
        },
{
    match k {
        TsKeywordKind::String => Ok(IRType::String),
        TsKeywordKind::Number => Ok(IRType::F64),
        TsKeywordKind::Boolean => Ok(IRType::Bool),
        TsKeywordKind::BigInt => Ok(IRType::S64),
        _ => Err(unsupported_err(keyword_kind_name(k), "use string, number, boolean, or bigint")),
    }
}

/// The view of a mapping result.
pub open spec fn map_result_view(r: Result<IRType, WdsmError>) -> Result<SpecIRType, SpecWdsmError> {
    match r {
        Ok(t) => Ok(t@),
        Err(e) => Err(e@),
    }
}

/// Maps a TypeScript type to the IR.
pub fn map_ts_type(t: &TypeAnn) -> (r: Result<IRType, WdsmError>)
    ensures
        map_result_view(r) == ts_map(*t),
    decreases t,
{
    match t {
        TypeAnn::Keyword(k) => map_keyword_type(*k),
        TypeAnn::Ref { name, params } => map_type_ref(t, name, params),
        TypeAnn::Array(e) => match map_ts_type(e) {
            Ok(x) => Ok(IRType::List(Box::new(x))),
            Err(err) => Err(err),
        },
        TypeAnn::Tuple(v) => {
            let mut out: Vec<IRType> = Vec::new();
            let mut i: usize = 0;
            while i < v.len()
                invariant
                    i <= v@.len(),
                    *t == TypeAnn::Tuple(*v),
                    ts_map_all(v@.subrange(0, i as int)) == Ok::<Seq<SpecIRType>, SpecWdsmError>(crate::ir::tys_view(out@)),
                    forall|k: int| 0 <= k < v@.len() ==> decreases_to!(*t => v@[k]),
                decreases v.len() - i,
            {
                assert(decreases_to!(*t => v@[i as int]));
                proof {
                    assert(v@.subrange(0, i + 1).subrange(0, i as int) =~= v@.subrange(0, i as int));
                    assert(v@.subrange(0, i + 1)[i as int] == v@[i as int]);
                }
                match map_ts_type(&v[i]) {
                    Ok(x) => {
                        let ghost before = out@;
                        out.push(x);
                        assert(out@.subrange(0, out@.len() - 1) =~= before);
                    },
                    Err(err) => {
                        proof {
                            assert(ts_map_all(v@.subrange(0, i + 1)) == Err::<Seq<SpecIRType>, SpecWdsmError>(err@));
                            lemma_map_all_prefix_err(v@, i as int + 1);
                            assert(ts_map_all(v@) == Err::<Seq<SpecIRType>, SpecWdsmError>(err@));
                            assert(ts_map(*t) == Err::<SpecIRType, SpecWdsmError>(err@));
                        }
                        return Err(err);
                    },
                }
                i = i + 1;
            }
            assert(v@.subrange(0, v@.len() as int) =~= v@);
            Ok(IRType::Tuple(out))
        },
        TypeAnn::Union(v) => map_union_type(t, v),
        TypeAnn::TypeLit(_) => Err(unsupported_err("inline object type literal", "use a named interface or type alias instead")),
        TypeAnn::Paren(inner) => map_ts_type(inner),
        TypeAnn::Lit { text, .. } => Err(unsupported_err(text.as_str(), "use a named type or supported primitive")),
        TypeAnn::Other(text) => Err(unsupported_err(text.as_str(), "use a named type or supported primitive")),
    }
}

proof fn lemma_map_all_prefix_err(ts: Seq<TypeAnn>, k: int)
    requires
        0 <= k <= ts.len(),
        ts_map_all(ts.subrange(0, k)) is Err,
    ensures
        ts_map_all(ts) == ts_map_all(ts.subrange(0, k)),
    decreases ts.len() - k,
{
    if k < ts.len() {
        assert(ts.subrange(0, k + 1).subrange(0, k) =~= ts.subrange(0, k));
        lemma_map_all_prefix_err(ts, k + 1);
    } else {
        assert(ts.subrange(0, k) =~= ts);
    }
}

/// Maps a reference to a named type; `t` is the reference itself.
fn map_type_ref(t: &TypeAnn, name: &Option<String>, params: &Option<Vec<TypeAnn>>) -> (r: Result<IRType, WdsmError>)
    requires
        *t == (TypeAnn::Ref { name: *name, params: *params }),
    ensures
        map_result_view(r) == ts_map(*t),
    decreases t, 0nat,
{
    match name {
        None => Err(unsupported_err("qualified type name", "use a simple, non-qualified type name")),
        Some(n) => {
            let n = n.as_str();
            let has_first = match params {
                Some(ps) => ps.len() > 0,
                None => false,
            };
            assert(has_first == (*params is Some && params->0@.len() > 0));
            assert(*t == (TypeAnn::Ref { name: *name, params: *params }));
            if str_eq(n, "Array") || str_eq(n, "Set") {
                if has_first {
                    let ps = params.as_ref().unwrap();
                    assert(decreases_to!(*t => ps@[0]));
                    match map_ts_type(&ps[0]) {
                        Ok(x) => {
                            let r = IRType::List(Box::new(x));
                            assert(map_result_view(Ok(r)) == ts_map(*t));
                            Ok(r)
                        },
                        Err(e) => Err(e),
                    }
                } else {
                    let inner = IRType::String;
                    assert(inner@ == SpecIRType::String);
                    let r = IRType::List(Box::new(inner));
                    assert(map_result_view(Ok(r)) == ts_map(*t));
                    Ok(r)
                }
            } else if str_eq(n, "Promise") {
                if has_first {
                    let ps = params.as_ref().unwrap();
                    assert(decreases_to!(*t => ps@[0]));
                    map_ts_type(&ps[0])
                } else {
                    Ok(IRType::String)
                }
            } else if str_eq(n, "Map") || str_eq(n, "Record") {
                let two = match params {
                    Some(ps) => ps.len() == 2,
                    None => false,
                };
                if two {
                    let ps = params.as_ref().unwrap();
                    assert(decreases_to!(*t => ps@[0]));
                    assert(decreases_to!(*t => ps@[1]));
                    let k = match map_ts_type(&ps[0]) {
                        Ok(k) => k,
                        Err(e) => return Err(e),
                    };
                    let v = match map_ts_type(&ps[1]) {
                        Ok(v) => v,
                        Err(e) => return Err(e),
                    };
                    let ghost kspec = k@;
                    let ghost vspec = v@;
                    assert(ts_map(*t) == Ok::<SpecIRType, SpecWdsmError>(
                        SpecIRType::List(Box::new(SpecIRType::Tuple(seq![kspec, vspec])))));
                    let mut kv: Vec<IRType> = Vec::new();
                    kv.push(k);
                    kv.push(v);
                    proof {
                        crate::ir::lemma_tys_view(kv@);
                        assert(crate::ir::tys_view(kv@) =~= seq![kspec, vspec]);
                    }
                    let tup = IRType::Tuple(kv);
                    assert(tup@ == SpecIRType::Tuple(seq![kspec, vspec]));
                    let r = IRType::List(Box::new(tup));
                    assert(r@ == SpecIRType::List(Box::new(SpecIRType::Tuple(seq![kspec, vspec]))));
                    Ok(r)
                } else {
                    let mut kv: Vec<IRType> = Vec::new();
                    kv.push(IRType::String);
                    kv.push(IRType::String);
                    proof {
                        crate::ir::lemma_tys_view(kv@);
                        assert(crate::ir::tys_view(kv@) =~= seq![SpecIRType::String, SpecIRType::String]);
                    }
                    let tup = IRType::Tuple(kv);
                    assert(tup@ == SpecIRType::Tuple(seq![SpecIRType::String, SpecIRType::String]));
                    let r = IRType::List(Box::new(tup));
                    assert(r@ == SpecIRType::List(Box::new(SpecIRType::Tuple(seq![SpecIRType::String, SpecIRType::String]))));
                    Ok(r)
                }
            } else {
                let r = IRType::Named(owned(n));
                assert(map_result_view(Ok(r)) == ts_map(*t));
                Ok(r)
            }
        },
    }
}

/// Maps a union type; `t` is the union itself.
fn map_union_type(t: &TypeAnn, v: &Vec<TypeAnn>) -> (r: Result<IRType, WdsmError>)
    requires
        *t == TypeAnn::Union(*v),
    ensures
        map_result_view(r) == ts_map(*t),
    decreases t, 0nat,
{
    let mut nullable = false;
    let mut non_null: Vec<usize> = Vec::new();
    let mut all_strings = true;
    let mut i: usize = 0;
    while i < v.len()
        invariant
            i <= v@.len(),
            nullable <==> exists|k: int| 0 <= k < i && #[trigger] is_nullish(v@[k]),
            all_strings <==> forall|k: int| 0 <= k < i ==> #[trigger] is_str_lit(v@[k]),
            non_null@.len() == non_nullish_count(v@.subrange(0, i as int)),
            non_null@.len() > 0 ==> non_null@.last() as int == last_non_nullish(v@.subrange(0, i as int)),
            non_null@.len() == 0 ==> last_non_nullish(v@.subrange(0, i as int)) == -1,
            forall|k: int| 0 <= k < non_null@.len() ==> non_null@[k] < i,
        decreases v.len() - i,
    {
        let ghost p = v@.subrange(0, i as int);
        let ghost q = v@.subrange(0, i + 1);
        assert(q.drop_last() =~= p);
        assert(q.last() == v@[i as int]);
        proof {
            lemma_non_nullish(p);
        }
        let is_null = match &v[i] {
            TypeAnn::Keyword(k) => *k == TsKeywordKind::Null || *k == TsKeywordKind::Undefined,
            _ => false,
        };
        let is_str = match &v[i] {
            TypeAnn::Lit { lit: TsLit::Str(_), .. } => true,
            _ => false,
        };
        assert(is_null == is_nullish(v@[i as int]));
        assert(is_str == is_str_lit(v@[i as int]));
        let ghost old_nullable = nullable;
        let ghost old_all = all_strings;
        if is_null {
            nullable = true;
        } else {
            non_null.push(i);
        }
        if !is_str {
            all_strings = false;
        }
        proof {
            if nullable {
                if !old_nullable {
                    assert(is_nullish(v@[i as int]));
                } else {
                    let w = choose|k: int| 0 <= k < i && #[trigger] is_nullish(v@[k]);
                    assert(0 <= w < i + 1 && is_nullish(v@[w]));
                }
            } else {
                assert forall|k: int| 0 <= k < i + 1 implies !#[trigger] is_nullish(v@[k]) by {
                    if k < i {
                        if is_nullish(v@[k]) {
                            assert(exists|k2: int| 0 <= k2 < i && #[trigger] is_nullish(v@[k2]));
                        }
                    }
                }
            }
            if all_strings {
                assert forall|k: int| 0 <= k < i + 1 implies #[trigger] is_str_lit(v@[k]) by {
                    if k < i {
                        assert(old_all);
                    }
                }
            } else {
                if old_all {
                    assert(!is_str_lit(v@[i as int]));
                } else {
                    let w = choose|k: int| !(0 <= k < i ==> #[trigger] is_str_lit(v@[k]));
                    assert(!(0 <= w < i + 1 ==> is_str_lit(v@[w])));
                }
            }
        }
        i = i + 1;
    }
    assert(v@.subrange(0, v@.len() as int) =~= v@);
    proof {
        lemma_non_nullish(v@);
    }
    if nullable && non_null.len() == 1 {
        let j = non_null[0];
        assert(decreases_to!(*t => v@[j as int]));
        match map_ts_type(&v[j]) {
            Ok(x) => return Ok(IRType::Option(Box::new(x))),
            Err(e) => return Err(e),
        }
    }
    if all_strings {
        Err(unsupported_err("inline union of string literals", "use a named type alias instead"))
    } else {
        Err(unsupported_err("inline union type", "use a named type alias instead"))
    }
}


// ---------------------------------------------------------------------------
// Declarations
// ---------------------------------------------------------------------------

/// Where a declaration on `line` of `file` was found; the source states its types.
pub open spec fn explicit_span(file: Seq<char>, line: u64) -> crate::ir::SpecSourceSpan {
    crate::ir::SpecSourceSpan { file: file, line: line, confidence: Confidence::Explicit }
}

fn explicit_span_exec(file: &str, line: u64) -> (r: SourceSpan)
    ensures
        r@ == explicit_span(file@, line),
{
    SourceSpan { file: owned(file), line: line, confidence: Confidence::Explicit }
}

/// The field that a property declares, with the error met mapping its type:
/// a type that cannot be mapped is read as `string`, and an optional
/// property's type is wrapped in an option unless it already is one.
pub open spec fn property_field(name: Seq<char>, optional: bool, type_ann: Option<TypeAnn>)
    -> (crate::ir::SpecFieldDef, Option<SpecWdsmError>)
{
    let (ty, err) = match type_ann {
        Some(t) => match ts_map(t) {
            Ok(x) => (x, None),
            Err(e) => (SpecIRType::String, Some(e)),
        },
        None => (SpecIRType::String, None),
    };
    let final_ty = if optional && !(ty is Option) { SpecIRType::Option(Box::new(ty)) } else { ty };
    (crate::ir::SpecFieldDef { name: name, wit_name: kebab(name), ty: final_ty, optional: optional }, err)
}

/// The fields declared by the properties among `ms` that have a plain name.
pub open spec fn member_fields(ms: Seq<TsMember>) -> Seq<crate::ir::SpecFieldDef>
    decreases ms.len(),
{
    if ms.len() == 0 {
        Seq::empty()
    } else {
        match ms.last() {
            TsMember::Property { key: Some(k), optional, type_ann } =>
                member_fields(ms.drop_last()).push(property_field(k@, optional, type_ann).0),
            _ => member_fields(ms.drop_last()),
        }
    }
}

/// The errors met mapping the types of those fields, in order.
pub open spec fn member_errors(ms: Seq<TsMember>) -> Seq<SpecWdsmError>
    decreases ms.len(),
{
    if ms.len() == 0 {
        Seq::empty()
    } else {
        match ms.last() {
            TsMember::Property { key: Some(k), optional, type_ann } => match property_field(k@, optional, type_ann).1 {
                Some(e) => member_errors(ms.drop_last()).push(e),
                None => member_errors(ms.drop_last()),
            },
            _ => member_errors(ms.drop_last()),
        }
    }
}

/// The models of a sequence of fields.
pub open spec fn fields_view(v: Seq<FieldDef>) -> Seq<crate::ir::SpecFieldDef> {
    v.map_values(|f: FieldDef| f@)
}

/// The models of a sequence of errors.
pub open spec fn errors_view(v: Seq<WdsmError>) -> Seq<SpecWdsmError> {
    v.map_values(|e: WdsmError| e@)
}

fn property_field_exec(name: &String, optional: bool, type_ann: &Option<TypeAnn>) -> (r: (FieldDef, Option<WdsmError>))
    ensures
        r.0@ == property_field(name@, optional, *type_ann).0,
        match r.1 {
            Some(e) => property_field(name@, optional, *type_ann).1 == Some(e@),
            None => property_field(name@, optional, *type_ann).1 is None,
        },
{
    let (ty, err) = match type_ann {
        Some(t) => match map_ts_type(t) {
            Ok(x) => (x, None),
            Err(e) => (IRType::String, Some(e)),
        },
        None => (IRType::String, None),
    };
    let is_opt = match &ty {
        IRType::Option(_) => true,
        _ => false,
    };
    assert(is_opt == (ty@ is Option));
    let final_ty = if optional && !is_opt { IRType::Option(Box::new(ty)) } else { ty };
    (FieldDef { name: owned(name.as_str()), wit_name: to_kebab_case(name.as_str()), ty: final_ty, optional: optional }, err)
}

/// The fields declared by `ms`, and the errors met mapping their types.
fn member_fields_exec(ms: &Vec<TsMember>, errors: &mut Vec<WdsmError>) -> (r: Vec<FieldDef>)
    ensures
        fields_view(r@) == member_fields(ms@),
        errors_view(final(errors)@) == errors_view(old(errors)@) + member_errors(ms@),
{
    let mut fields: Vec<FieldDef> = Vec::new();
    let ghost e0 = errors_view(errors@);
    let mut i: usize = 0;
    assert(ms@.subrange(0, 0) =~= Seq::<TsMember>::empty());
    assert(errors_view(errors@) =~= e0 + Seq::<SpecWdsmError>::empty());
    while i < ms.len()
        invariant
            i <= ms@.len(),
            fields_view(fields@) == member_fields(ms@.subrange(0, i as int)),
            errors_view(errors@) == e0 + member_errors(ms@.subrange(0, i as int)),
        decreases ms.len() - i,
    {
        let ghost p = ms@.subrange(0, i + 1);
        assert(p.drop_last() =~= ms@.subrange(0, i as int));
        assert(p.last() == ms@[i as int]);
        if let TsMember::Property { key: Some(k), optional, type_ann } = &ms[i] {
            let (f, e) = property_field_exec(k, *optional, type_ann);
            let ghost fb = fields@;
            fields.push(f);
            assert(fields_view(fields@) =~= fields_view(fb).push(f@));
            if let Some(e) = e {
                let ghost eb = errors@;
                errors.push(e);
                assert(errors_view(errors@) =~= errors_view(eb).push(e@));
                assert(e0 + member_errors(ms@.subrange(0, i + 1)) =~= (e0 + member_errors(ms@.subrange(0, i as int))).push(e@));
            }
        }
        i = i + 1;
    }
    assert(ms@.subrange(0, ms@.len() as int) =~= ms@);
    fields
}

/// The enum cases named by the string literals among `ts`, in kebab case.
pub open spec fn str_cases(ts: Seq<TypeAnn>) -> Seq<Seq<char>>
    decreases ts.len(),
{
    if ts.len() == 0 {
        Seq::empty()
    } else {
        match ts.last() {
            TypeAnn::Lit { lit: TsLit::Str(Some(v)), .. } => str_cases(ts.drop_last()).push(kebab(v@)),
            _ => str_cases(ts.drop_last()),
        }
    }
}

/// The name of a variant case without a payload, from the type it stands for.
pub open spec fn keyword_case_name(t: TypeAnn) -> Seq<char> {
    match t {
        TypeAnn::Keyword(TsKeywordKind::Null) => "null"@,
        TypeAnn::Keyword(TsKeywordKind::Undefined) => "undefined"@,
        TypeAnn::Keyword(TsKeywordKind::Void) => "void"@,
        _ => "case"@,
    }
}

/// The variant case that a member of a union stands for.
pub open spec fn variant_case(t: TypeAnn) -> crate::ir::SpecVariantCase {
    match t {
        TypeAnn::Lit { lit, .. } => crate::ir::SpecVariantCase {
            name: match lit {
                TsLit::Str(Some(v)) => kebab(v@),
                TsLit::Number(n) => "variant-"@ + crate::text::int_decimal(n as int),
                _ => "unknown"@,
            },
            payload: None,
        },
        _ => match ts_map(t) {
            Ok(SpecIRType::Named(n)) => crate::ir::SpecVariantCase { name: kebab(n), payload: Some(SpecIRType::Named(n)) },
            Ok(x) => crate::ir::SpecVariantCase { name: kebab(wit_str(x)) + "-val"@, payload: Some(x) },
            Err(_) => crate::ir::SpecVariantCase { name: keyword_case_name(t), payload: None },
        },
    }
}

fn variant_case_exec(t: &TypeAnn) -> (r: crate::ir::VariantCase)
    ensures
        r@ == variant_case(*t),
{
    match t {
        TypeAnn::Lit { lit, .. } => {
            let name = match lit {
                TsLit::Str(Some(v)) => to_kebab_case(v.as_str()),
                TsLit::Number(n) => {
                    let mut s = owned("variant-");
                    let d = crate::text::i64_to_decimal(*n);
                    s.append(d.as_str());
                    s
                },
                _ => owned("unknown"),
            };
            crate::ir::VariantCase { name: name, payload: None }
        },
        _ => match map_ts_type(t) {
            Ok(x) => {
                let name = match &x {
                    IRType::Named(n) => to_kebab_case(n.as_str()),
                    _ => {
                        let w = x.to_wit_str();
                        let mut s = to_kebab_case(w.as_str());
                        s.append("-val");
                        s
                    },
                };
                crate::ir::VariantCase { name: name, payload: Some(x) }
            },
            Err(_) => {
                let name = match t {
                    TypeAnn::Keyword(TsKeywordKind::Null) => owned("null"),
                    TypeAnn::Keyword(TsKeywordKind::Undefined) => owned("undefined"),
                    TypeAnn::Keyword(TsKeywordKind::Void) => owned("void"),
                    _ => owned("case"),
                };
                crate::ir::VariantCase { name: name, payload: None }
            },
        },
    }
}

/// The state of an extraction: what has been found so far.
pub struct ExtractState {
    pub types: Seq<crate::ir::SpecTypeDef>,
    pub functions: Seq<crate::ir::SpecFunctionDef>,
    pub known: Set<Seq<char>>,
    pub errors: Seq<SpecWdsmError>,
}

/// The state after adding the definition `td` called `name`.
pub open spec fn add_type(st: ExtractState, name: Seq<char>, td: crate::ir::SpecTypeDef) -> ExtractState {
    ExtractState { types: st.types.push(td), known: st.known.insert(name), ..st }
}

/// The record declared by an interface, or by an alias of an inline object
/// type, called `name` with members `ms`.
pub open spec fn record_of(name: Seq<char>, ms: Seq<TsMember>, file: Seq<char>, line: u64) -> crate::ir::SpecTypeDef {
    crate::ir::SpecTypeDef::Record(crate::ir::SpecRecordDef {
        name: name,
        wit_name: kebab(name),
        fields: member_fields(ms),
        source: explicit_span(file, line),
    })
}

/// The state after reading the members `ms` of a record called `name`.
pub open spec fn record_step(st: ExtractState, name: Seq<char>, ms: Seq<TsMember>, file: Seq<char>, line: u64) -> ExtractState {
    add_type(ExtractState { errors: st.errors + member_errors(ms), ..st }, name, record_of(name, ms, file, line))
}

/// The state after reading an interface.
pub open spec fn interface_step(st: ExtractState, d: TsInterface, file: Seq<char>) -> ExtractState {
    record_step(st, d.name@, d.members@, file, d.line)
}

/// The state after reading a type alias: an inline object type declares a
/// record, a union of string literals an enum, another union a variant, and
/// any other type an alias of what it maps to, unless it cannot be mapped.
pub open spec fn alias_step(st: ExtractState, d: TsTypeAlias, file: Seq<char>) -> ExtractState {
    let name = d.name@;
    let span = explicit_span(file, d.line);
    match d.type_ann {
        TypeAnn::TypeLit(ms) => record_step(st, name, ms@, file, d.line),
        TypeAnn::Union(v) => if all_str_lits(v@) {
            add_type(st, name, crate::ir::SpecTypeDef::Enum(crate::ir::SpecEnumDef {
                name: name,
                wit_name: kebab(name),
                cases: str_cases(v@),
                source: span,
            }))
        } else {
            add_type(st, name, crate::ir::SpecTypeDef::Variant(crate::ir::SpecVariantDef {
                name: name,
                wit_name: kebab(name),
                cases: v@.map_values(|t: TypeAnn| variant_case(t)),
                source: span,
            }))
        },
        _ => match ts_map(d.type_ann) {
            Ok(x) => add_type(st, name, crate::ir::SpecTypeDef::Alias(crate::ir::SpecAliasDef {
                name: name,
                wit_name: kebab(name),
                target: x,
                source: span,
            })),
            Err(_) => st,
        },
    }
}

/// The cases of an enum declaration: its members named by identifiers, in kebab case.
pub open spec fn enum_cases(ms: Seq<Option<String>>) -> Seq<Seq<char>>
    decreases ms.len(),
{
    if ms.len() == 0 {
        Seq::empty()
    } else {
        match ms.last() {
            Some(id) => enum_cases(ms.drop_last()).push(kebab(id@)),
            None => enum_cases(ms.drop_last()),
        }
    }
}

/// The state after reading an enum declaration.
pub open spec fn enum_step(st: ExtractState, d: TsEnum, file: Seq<char>) -> ExtractState {
    add_type(st, d.name@, crate::ir::SpecTypeDef::Enum(crate::ir::SpecEnumDef {
        name: d.name@,
        wit_name: kebab(d.name@),
        cases: enum_cases(d.members@),
        source: explicit_span(file, d.line),
    }))
}


// ---------------------------------------------------------------------------
// Functions
// ---------------------------------------------------------------------------

/// The parameters of the function `fname`, or the first problem among them.
/// A parameter without a type annotation is reported at its own line when
/// `own_lines` holds, and at the function's line `fn_line` otherwise.
pub open spec fn params_result(fname: Seq<char>, ps: Seq<TsParam>, file: Seq<char>, fn_line: u64, own_lines: bool)
    -> Result<Seq<crate::ir::SpecParamDef>, SpecWdsmError>
    decreases ps.len(),
{
    if ps.len() == 0 {
        Ok(Seq::empty())
    } else {
        match params_result(fname, ps.drop_last(), file, fn_line, own_lines) {
            Err(e) => Err(e),
            Ok(acc) => {
                let p = ps.last();
                match p.name {
                    None => Err(unsupported("destructured or complex parameter pattern"@, "use a simple named parameter instead"@)),
                    Some(pn) => match p.type_ann {
                        None => Err(SpecWdsmError::MissingTypeAnnotation {
                            file: file,
                            line: if own_lines { p.line } else { fn_line },
                            function: fname,
                            param: pn@,
                        }),
                        Some(t) => match ts_map(t) {
                            Err(e) => Err(e),
                            Ok(x) => Ok(acc.push(crate::ir::SpecParamDef { name: pn@, wit_name: kebab(pn@), ty: x })),
                        },
                    },
                }
            },
        }
    }
}

/// Whether a return annotation says that nothing is returned: `void`,
/// `never`, `undefined`, or `Promise<void>`.
pub open spec fn returns_nothing(t: TypeAnn) -> bool {
    ||| t matches TypeAnn::Keyword(k) && (k == TsKeywordKind::Void || k == TsKeywordKind::Never || k == TsKeywordKind::Undefined)
    ||| t matches TypeAnn::Ref { name: Some(n), params: Some(ps) } && n@ == "Promise"@ && ps@.len() > 0
        && ps@[0] == TypeAnn::Keyword(TsKeywordKind::Void)
}

/// What a function with return annotation `rt` returns.
pub open spec fn returns_result(rt: Option<TypeAnn>) -> Result<crate::ir::SpecReturnType, SpecWdsmError> {
    match rt {
        None => Ok(crate::ir::SpecReturnType::Void),
        Some(t) => if returns_nothing(t) {
            Ok(crate::ir::SpecReturnType::Void)
        } else {
            match ts_map(t) {
                Ok(x) => Ok(crate::ir::SpecReturnType::Type(x)),
                Err(e) => Err(e),
            }
        },
    }
}

/// The exported function `fname` that `f` declares, or the first problem met.
pub open spec fn function_result(fname: Seq<char>, f: TsFunction, file: Seq<char>, own_lines: bool)
    -> Result<crate::ir::SpecFunctionDef, SpecWdsmError>
{
    match params_result(fname, f.params@, file, f.line, own_lines) {
        Err(e) => Err(e),
        Ok(ps) => match returns_result(f.return_type) {
            Err(e) => Err(e),
            Ok(rt) => Ok(crate::ir::SpecFunctionDef {
                name: fname,
                wit_name: kebab(fname),
                params: ps,
                returns: rt,
                docs: None,
                source: explicit_span(file, f.line),
            }),
        },
    }
}

proof fn lemma_params_prefix_err(fname: Seq<char>, ps: Seq<TsParam>, file: Seq<char>, fn_line: u64, own_lines: bool, k: int)
    requires
        0 <= k <= ps.len(),
        params_result(fname, ps.subrange(0, k), file, fn_line, own_lines) is Err,
    ensures
        params_result(fname, ps, file, fn_line, own_lines) == params_result(fname, ps.subrange(0, k), file, fn_line, own_lines),
    decreases ps.len() - k,
{
    if k < ps.len() {
        assert(ps.subrange(0, k + 1).drop_last() =~= ps.subrange(0, k));
        lemma_params_prefix_err(fname, ps, file, fn_line, own_lines, k + 1);
    } else {
        assert(ps.subrange(0, k) =~= ps);
    }
}

/// The models of a sequence of parameters.
pub open spec fn params_view(v: Seq<ParamDef>) -> Seq<crate::ir::SpecParamDef> {
    v.map_values(|p: ParamDef| p@)
}

/// The view of a function-analysis result.
pub open spec fn function_result_view(r: Result<FunctionDef, WdsmError>) -> Result<crate::ir::SpecFunctionDef, SpecWdsmError> {
    match r {
        Ok(f) => Ok(f@),
        Err(e) => Err(e@),
    }
}

fn analyze_params(fname: &str, f: &TsFunction, file: &str, own_lines: bool) -> (r: Result<Vec<ParamDef>, WdsmError>)
    ensures
        match r {
            Ok(v) => params_result(fname@, f.params@, file@, f.line, own_lines)
                == Ok::<Seq<crate::ir::SpecParamDef>, SpecWdsmError>(params_view(v@)),
            Err(e) => params_result(fname@, f.params@, file@, f.line, own_lines) == Err::<Seq<crate::ir::SpecParamDef>, SpecWdsmError>(e@),
        },
{
    let ghost ps = f.params@;
    let mut out: Vec<ParamDef> = Vec::new();
    assert(params_view(out@) =~= Seq::<crate::ir::SpecParamDef>::empty());
    assert(ps.subrange(0, 0) =~= Seq::<TsParam>::empty());
    let mut i: usize = 0;
    while i < f.params.len()
        invariant
            ps == f.params@,
            i <= ps.len(),
            params_result(fname@, ps.subrange(0, i as int), file@, f.line, own_lines)
                == Ok::<Seq<crate::ir::SpecParamDef>, SpecWdsmError>(params_view(out@)),
        decreases f.params.len() - i,
    {
        let ghost q = ps.subrange(0, i + 1);
        assert(q.drop_last() =~= ps.subrange(0, i as int));
        assert(q.last() == ps[i as int]);
        let p = &f.params[i];
        let e = match &p.name {
            None => unsupported_err("destructured or complex parameter pattern", "use a simple named parameter instead"),
            Some(pn) => match &p.type_ann {
                None => WdsmError::MissingTypeAnnotation {
                    file: owned(file),
                    line: if own_lines { p.line } else { f.line },
                    function: owned(fname),
                    param: owned(pn.as_str()),
                },
                Some(t) => match map_ts_type(t) {
                    Err(e) => e,
                    Ok(x) => {
                        let ghost ob = out@;
                        out.push(ParamDef { name: owned(pn.as_str()), wit_name: to_kebab_case(pn.as_str()), ty: x });
                        assert(params_view(out@) =~= params_view(ob).push(out@.last()@));
                        i = i + 1;
                        continue;
                    },
                },
            },
        };
        proof {
            assert(params_result(fname@, q, file@, f.line, own_lines) == Err::<Seq<crate::ir::SpecParamDef>, SpecWdsmError>(e@));
            lemma_params_prefix_err(fname@, ps, file@, f.line, own_lines, i + 1);
        }
        return Err(e);
    }
    assert(ps.subrange(0, ps.len() as int) =~= ps);
    Ok(out)
}

fn analyze_returns(rt: &Option<TypeAnn>) -> (r: Result<ReturnType, WdsmError>)
    ensures
        match r {
            Ok(x) => returns_result(*rt) == Ok::<crate::ir::SpecReturnType, SpecWdsmError>(x@),
            Err(e) => returns_result(*rt) == Err::<crate::ir::SpecReturnType, SpecWdsmError>(e@),
        },
{
    match rt {
        None => Ok(ReturnType::Void),
        Some(t) => {
            let nothing = match t {
                TypeAnn::Keyword(k) => *k == TsKeywordKind::Void || *k == TsKeywordKind::Never || *k == TsKeywordKind::Undefined,
                TypeAnn::Ref { name: Some(n), params: Some(ps) } => {
                    if str_eq(n.as_str(), "Promise") && ps.len() > 0 {
                        match &ps[0] {
                            TypeAnn::Keyword(TsKeywordKind::Void) => true,
                            _ => false,
                        }
                    } else {
                        false
                    }
                },
                _ => false,
            };
            assert(nothing == returns_nothing(*t));
            if nothing {
                Ok(ReturnType::Void)
            } else {
                match map_ts_type(t) {
                    Ok(x) => Ok(ReturnType::Type(x)),
                    Err(e) => Err(e),
                }
            }
        },
    }
}

/// Reads the function `name` declared by `f`.
fn analyze_function(name: &str, f: &TsFunction, file: &str, own_lines: bool) -> (r: Result<FunctionDef, WdsmError>)
    ensures
        function_result_view(r) == function_result(name@, *f, file@, own_lines),
{
    let params = match analyze_params(name, f, file, own_lines) {
        Ok(ps) => ps,
        Err(e) => return Err(e),
    };
    let ret = match analyze_returns(&f.return_type) {
        Ok(x) => x,
        Err(e) => return Err(e),
    };
    let r = FunctionDef {
        name: owned(name),
        wit_name: to_kebab_case(name),
        params: params,
        returns: ret,
        docs: None,
        source: explicit_span_exec(file, f.line),
    };
    assert(r@.params =~= params_view(params@));
    Ok(r)
}

/// Reads an exported function declaration called `name`; a parameter without
/// a type annotation is reported at the parameter's line.
pub fn fn_anal(name: &str, f: &TsFunction, file: &str) -> (r: Result<FunctionDef, WdsmError>)
    ensures
        function_result_view(r) == function_result(name@, *f, file@, true),
{
    analyze_function(name, f, file, true)
}

/// Reads an exported arrow function bound to `name`; a parameter without a
/// type annotation is reported at the arrow function's line.
pub fn arrowfn_anal(name: &str, f: &TsFunction, file: &str) -> (r: Result<FunctionDef, WdsmError>)
    ensures
        function_result_view(r) == function_result(name@, *f, file@, false),
{
    analyze_function(name, f, file, false)
}


// ---------------------------------------------------------------------------
// Walking a module
// ---------------------------------------------------------------------------

/// The state after reading the function `fname` declared by `f`: the
/// function is added, or the problem found is recorded.
pub open spec fn function_step(st: ExtractState, fname: Seq<char>, f: TsFunction, file: Seq<char>, own_lines: bool) -> ExtractState {
    match function_result(fname, f, file, own_lines) {
        Ok(fd) => ExtractState { functions: st.functions.push(fd), ..st },
        Err(e) => ExtractState { errors: st.errors.push(e), ..st },
    }
}

/// The state after reading the declarators `ds` of an exported variable
/// declaration: each wanted name bound to an arrow function is read.
pub open spec fn vars_step(st: ExtractState, ds: Seq<TsVarDecl>, file: Seq<char>, targets: Option<Vec<String>>) -> ExtractState
    decreases ds.len(),
{
    if ds.len() == 0 {
        st
    } else {
        let prev = vars_step(st, ds.drop_last(), file, targets);
        let d = ds.last();
        match (d.name, d.arrow) {
            (Some(n), Some(f)) => if super::is_target(targets, n@) {
                function_step(prev, n@, f, file, false)
            } else {
                prev
            },
            _ => prev,
        }
    }
}

/// The state after meeting one declaration.  Exported declarations are
/// always read; a declaration met on its own is read only when no type of
/// that name has been read yet.
pub open spec fn item_step(st: ExtractState, item: TsItem, file: Seq<char>, targets: Option<Vec<String>>) -> ExtractState {
    match item {
        TsItem::ExportFn { name, func } => if super::is_target(targets, name@) {
            function_step(st, name@, func, file, true)
        } else {
            st
        },
        TsItem::ExportVars(ds) => vars_step(st, ds@, file, targets),
        TsItem::ExportInterface(d) => interface_step(st, d, file),
        TsItem::ExportTypeAlias(d) => alias_step(st, d, file),
        TsItem::ExportEnum(d) => enum_step(st, d, file),
        TsItem::ExportDefaultFn { ident, func } => {
            let n = match ident {
                Some(n) => n@,
                None => "default"@,
            };
            if super::is_target(targets, n) {
                function_step(st, n, func, file, true)
            } else {
                st
            }
        },
        TsItem::Interface(d) => if st.known.contains(d.name@) { st } else { interface_step(st, d, file) },
        TsItem::TypeAlias(d) => if st.known.contains(d.name@) { st } else { alias_step(st, d, file) },
        TsItem::Enum(d) => if st.known.contains(d.name@) { st } else { enum_step(st, d, file) },
    }
}

/// Nothing found yet.
pub open spec fn empty_state() -> ExtractState {
    ExtractState { types: Seq::empty(), functions: Seq::empty(), known: Set::empty(), errors: Seq::empty() }
}

/// The state after meeting `items` in order.
pub open spec fn run(items: Seq<TsItem>, file: Seq<char>, targets: Option<Vec<String>>) -> ExtractState
    decreases items.len(),
{
    if items.len() == 0 {
        empty_state()
    } else {
        item_step(run(items.drop_last(), file, targets), items.last(), file, targets)
    }
}

/// What extraction finds while walking a module.
pub struct IRExtractor {
    file: String,
    types: Vec<crate::ir::TypeDef>,
    functions: Vec<FunctionDef>,
    known: Vec<String>,
    errors: Vec<WdsmError>,
}

impl IRExtractor {
    /// The state that this extractor holds.
    pub closed spec fn state(&self) -> ExtractState {
        ExtractState {
            types: self.types@.map_values(|t: crate::ir::TypeDef| t@),
            functions: self.functions@.map_values(|f: FunctionDef| f@),
            known: crate::text::strings_view(self.known@).to_set(),
            errors: errors_view(self.errors@),
        }
    }

    /// The file being read.
    pub closed spec fn file_name(&self) -> Seq<char> {
        self.file@
    }

    /// An extractor for `file` that has found nothing yet.
    pub fn new(file: &str) -> (r: Self)
        ensures
            r.state() == empty_state(),
            r.file_name() == file@,
    {
        let r = IRExtractor {
            file: owned(file),
            types: Vec::new(),
            functions: Vec::new(),
            known: Vec::new(),
            errors: Vec::new(),
        };
        assert(r.state().types =~= Seq::<crate::ir::SpecTypeDef>::empty());
        assert(r.state().functions =~= Seq::<crate::ir::SpecFunctionDef>::empty());
        assert(r.state().known =~= Set::<Seq<char>>::empty());
        assert(r.state().errors =~= Seq::<SpecWdsmError>::empty());
        r
    }

    /// Whether a type called `name` has been read.
    fn is_known(&self, name: &str) -> (r: bool)
        ensures
            r == self.state().known.contains(name@),
    {
        let r = super::contains_string(&self.known, name);
        assert(crate::text::strings_view(self.known@).to_set().contains(name@)
            == crate::text::strings_view(self.known@).contains(name@));
        r
    }

    fn add_type(&mut self, name: &str, td: crate::ir::TypeDef)
        ensures
            final(self).state() == add_type(old(self).state(), name@, td@),
            final(self).file_name() == old(self).file_name(),
    {
        let ghost st = self.state();
        self.types.push(td);
        self.known.push(owned(name));
        assert(self.state().types =~= st.types.push(td@));
        assert(crate::text::strings_view(self.known@) =~= crate::text::strings_view(old(self).known@).push(name@));
        proof {
            crate::text::strings_view(old(self).known@).lemma_push_to_set_commute(name@);
        }
        assert(self.state().known =~= st.known.insert(name@));
    }

    fn record(&mut self, name: &String, ms: &Vec<TsMember>, line: u64)
        ensures
            final(self).state() == record_step(old(self).state(), name@, ms@, old(self).file_name(), line),
            final(self).file_name() == old(self).file_name(),
    {
        let ghost st = self.state();
        let fields = member_fields_exec(ms, &mut self.errors);
        assert(self.state() == (ExtractState { errors: st.errors + member_errors(ms@), ..st }));
        let span = explicit_span_exec(self.file.as_str(), line);
        let td = crate::ir::TypeDef::Record(crate::ir::RecordDef {
            name: owned(name.as_str()),
            wit_name: to_kebab_case(name.as_str()),
            fields: fields,
            source: span,
        });
        assert(td@ == record_of(name@, ms@, old(self).file_name(), line)) by {
            assert(fields@.map_values(|f: FieldDef| f@) =~= fields_view(fields@));
        }
        self.add_type(name.as_str(), td);
    }

    /// Reads an interface declaration.
    pub fn interface_anal(&mut self, d: &TsInterface)
        ensures
            final(self).state() == interface_step(old(self).state(), *d, old(self).file_name()),
            final(self).file_name() == old(self).file_name(),
    {
        self.record(&d.name, &d.members, d.line);
    }

    /// Reads a type alias declaration.
    pub fn typea_anal(&mut self, d: &TsTypeAlias)
        ensures
            final(self).state() == alias_step(old(self).state(), *d, old(self).file_name()),
            final(self).file_name() == old(self).file_name(),
    {
        let name = &d.name;
        match &d.type_ann {
            TypeAnn::TypeLit(ms) => self.record(name, ms, d.line),
            TypeAnn::Union(v) => {
                let mut all_strings = true;
                let mut i: usize = 0;
                while i < v.len()
                    invariant
                        i <= v@.len(),
                        all_strings <==> forall|k: int| 0 <= k < i ==> #[trigger] is_str_lit(v@[k]),
                    decreases v.len() - i,
                {
                    let is_str = match &v[i] {
                        TypeAnn::Lit { lit: TsLit::Str(_), .. } => true,
                        _ => false,
                    };
                    assert(is_str == is_str_lit(v@[i as int]));
                    if !is_str {
                        all_strings = false;
                    }
                    proof {
                        if !all_strings && is_str {
                            let w = choose|k: int| !(0 <= k < i ==> #[trigger] is_str_lit(v@[k]));
                            assert(!(0 <= w < i + 1 ==> is_str_lit(v@[w])));
                        }
                    }
                    i = i + 1;
                }
                let span = explicit_span_exec(self.file.as_str(), d.line);
                if all_strings {
                    let cases = lit_cases(v);
                    let td = crate::ir::TypeDef::Enum(crate::ir::EnumDef {
                        name: owned(name.as_str()),
                        wit_name: to_kebab_case(name.as_str()),
                        cases: cases,
                        source: span,
                    });
                    self.add_type(name.as_str(), td);
                } else {
                    let mut cases: Vec<crate::ir::VariantCase> = Vec::new();
                    let mut j: usize = 0;
                    while j < v.len()
                        invariant
                            j <= v@.len(),
                            cases@.len() == j,
                            forall|k: int| 0 <= k < j ==> #[trigger] cases@[k]@ == variant_case(v@[k]),
                        decreases v.len() - j,
                    {
                        cases.push(variant_case_exec(&v[j]));
                        j = j + 1;
                    }
                    let td = crate::ir::TypeDef::Variant(crate::ir::VariantDef {
                        name: owned(name.as_str()),
                        wit_name: to_kebab_case(name.as_str()),
                        cases: cases,
                        source: span,
                    });
                    assert(cases@.map_values(|c: crate::ir::VariantCase| c@) =~= v@.map_values(|t: TypeAnn| variant_case(t)));
                    self.add_type(name.as_str(), td);
                }
            },
            _ => {
                if let Ok(target) = map_ts_type(&d.type_ann) {
                    let span = explicit_span_exec(self.file.as_str(), d.line);
                    let td = crate::ir::TypeDef::Alias(crate::ir::AliasDef {
                        name: owned(name.as_str()),
                        wit_name: to_kebab_case(name.as_str()),
                        target: target,
                        source: span,
                    });
                    self.add_type(name.as_str(), td);
                }
            },
        }
    }

    /// Reads an enum declaration.
    pub fn enum_anal(&mut self, d: &TsEnum)
        ensures
            final(self).state() == enum_step(old(self).state(), *d, old(self).file_name()),
            final(self).file_name() == old(self).file_name(),
    {
        let mut cases: Vec<String> = Vec::new();
        let mut i: usize = 0;
        while i < d.members.len()
            invariant
                i <= d.members@.len(),
                crate::text::strings_view(cases@) == enum_cases(d.members@.subrange(0, i as int)),
            decreases d.members.len() - i,
        {
            let ghost q = d.members@.subrange(0, i + 1);
            assert(q.drop_last() =~= d.members@.subrange(0, i as int));
            assert(q.last() == d.members@[i as int]);
            if let Some(id) = &d.members[i] {
                let c = to_kebab_case(id.as_str());
                let ghost cb = cases@;
                cases.push(c);
                assert(crate::text::strings_view(cases@) =~= crate::text::strings_view(cb).push(c@));
            }
            i = i + 1;
        }
        assert(d.members@.subrange(0, d.members@.len() as int) =~= d.members@);
        let span = explicit_span_exec(self.file.as_str(), d.line);
        let td = crate::ir::TypeDef::Enum(crate::ir::EnumDef {
            name: owned(d.name.as_str()),
            wit_name: to_kebab_case(d.name.as_str()),
            cases: cases,
            source: span,
        });
        self.add_type(d.name.as_str(), td);
    }

    fn add_function(&mut self, r: Result<FunctionDef, WdsmError>)
        ensures
            final(self).state() == match function_result_view(r) {
                Ok(fd) => ExtractState { functions: old(self).state().functions.push(fd), ..old(self).state() },
                Err(e) => ExtractState { errors: old(self).state().errors.push(e), ..old(self).state() },
            },
            final(self).file_name() == old(self).file_name(),
    {
        let ghost st = self.state();
        match r {
            Ok(fd) => {
                self.functions.push(fd);
                assert(self.state().functions =~= st.functions.push(fd@));
            },
            Err(e) => {
                self.errors.push(e);
                assert(self.state().errors =~= st.errors.push(e@));
            },
        }
    }

    /// Reads one declaration met while walking the module.
    pub fn visit_item(&mut self, item: &TsItem, config: &super::FrontendConfig)
        ensures
            final(self).state() == item_step(old(self).state(), *item, old(self).file_name(), config.target_functions),
            final(self).file_name() == old(self).file_name(),
    {
        match item {
            TsItem::ExportFn { name, func } => {
                if config.wants(name.as_str()) {
                    let r = fn_anal(name.as_str(), func, self.file.as_str());
                    self.add_function(r);
                }
            },
            TsItem::ExportVars(ds) => {
                let ghost st0 = self.state();
                let mut i: usize = 0;
                while i < ds.len()
                    invariant
                        i <= ds@.len(),
                        self.file_name() == old(self).file_name(),
                        self.state() == vars_step(st0, ds@.subrange(0, i as int), self.file_name(), config.target_functions),
                    decreases ds.len() - i,
                {
                    let ghost q = ds@.subrange(0, i + 1);
                    assert(q.drop_last() =~= ds@.subrange(0, i as int));
                    assert(q.last() == ds@[i as int]);
                    let d = &ds[i];
                    if let Some(n) = &d.name {
                        if let Some(f) = &d.arrow {
                            if config.wants(n.as_str()) {
                                let r = arrowfn_anal(n.as_str(), f, self.file.as_str());
                                self.add_function(r);
                            }
                        }
                    }
                    i = i + 1;
                }
                assert(ds@.subrange(0, ds@.len() as int) =~= ds@);
            },
            TsItem::ExportInterface(d) => self.interface_anal(d),
            TsItem::ExportTypeAlias(d) => self.typea_anal(d),
            TsItem::ExportEnum(d) => self.enum_anal(d),
            TsItem::ExportDefaultFn { ident, func } => {
                let n: &str = match ident {
                    Some(n) => n.as_str(),
                    None => "default",
                };
                if config.wants(n) {
                    let r = fn_anal(n, func, self.file.as_str());
                    self.add_function(r);
                }
            },
            TsItem::Interface(d) => {
                if !self.is_known(d.name.as_str()) {
                    self.interface_anal(d);
                }
            },
            TsItem::TypeAlias(d) => {
                if !self.is_known(d.name.as_str()) {
                    self.typea_anal(d);
                }
            },
            TsItem::Enum(d) => {
                if !self.is_known(d.name.as_str()) {
                    self.enum_anal(d);
                }
            },
        }
    }
}

/// The enum cases named by the string literals among `v`.
fn lit_cases(v: &Vec<TypeAnn>) -> (r: Vec<String>)
    ensures
        crate::text::strings_view(r@) == str_cases(v@),
{
    let mut cases: Vec<String> = Vec::new();
    let mut i: usize = 0;
    while i < v.len()
        invariant
            i <= v@.len(),
            crate::text::strings_view(cases@) == str_cases(v@.subrange(0, i as int)),
        decreases v.len() - i,
    {
        let ghost q = v@.subrange(0, i + 1);
        assert(q.drop_last() =~= v@.subrange(0, i as int));
        assert(q.last() == v@[i as int]);
        if let TypeAnn::Lit { lit: TsLit::Str(Some(s)), .. } = &v[i] {
            let c = to_kebab_case(s.as_str());
            let ghost cb = cases@;
            cases.push(c);
            assert(crate::text::strings_view(cases@) =~= crate::text::strings_view(cb).push(c@));
        }
        i = i + 1;
    }
    assert(v@.subrange(0, v@.len() as int) =~= v@);
    cases
}


// ---------------------------------------------------------------------------
// Extraction
// ---------------------------------------------------------------------------

/// The interface found in the declarations `items` of `file`, or the first
/// problem met while reading them.
pub open spec fn extraction(
    items: Seq<TsItem>,
    file: Seq<char>,
    package: Seq<char>,
    world: Seq<char>,
    targets: Option<Vec<String>>,
) -> Result<crate::ir::SpecWitIR, SpecWdsmError> {
    let st = run(items, file, targets);
    if st.errors.len() == 0 {
        Ok(crate::ir::SpecWitIR {
            package: package,
            world_name: world,
            types: st.types,
            functions: st.functions,
            imports: Seq::empty(),
        })
    } else {
        Err(st.errors[0])
    }
}

/// Extracts the interface of a parsed TypeScript module read from `file`.
pub fn extract_ir(module: &TsModule, file: &str, config: &super::FrontendConfig) -> (r: Result<crate::ir::WitIR, super::FrontendError>)
    ensures
        match r {
            Ok(ir) => extraction(module.items@, file@, config.package_name@, config.world_name@, config.target_functions) == Ok::<crate::ir::SpecWitIR, SpecWdsmError>(ir@),
            Err(e) => extraction(module.items@, file@, config.package_name@, config.world_name@, config.target_functions) matches Err(x) && e@ == super::SpecFrontendError::Wdsm(x),
        },
{
    let mut x = IRExtractor::new(file);
    let mut i: usize = 0;
    while i < module.items.len()
        invariant
            i <= module.items@.len(),
            x.file_name() == file@,
            x.state() == run(module.items@.subrange(0, i as int), file@, config.target_functions),
        decreases module.items.len() - i,
    {
        let ghost q = module.items@.subrange(0, i + 1);
        assert(q.drop_last() =~= module.items@.subrange(0, i as int));
        assert(q.last() == module.items@[i as int]);
        x.visit_item(&module.items[i], config);
        i = i + 1;
    }
    assert(module.items@.subrange(0, module.items@.len() as int) =~= module.items@);
    if x.errors.len() > 0 {
        let ghost ev = errors_view(x.errors@);
        let e = x.errors.remove(0);
        assert(e@ == ev[0]);
        return Err(super::FrontendError::Wdsm(e));
    }
    let ir = crate::ir::WitIR {
        package: owned(config.package_name.as_str()),
        world_name: owned(config.world_name.as_str()),
        types: x.types,
        functions: x.functions,
        imports: Vec::new(),
    };
    assert(ir@.imports =~= Seq::<crate::ir::SpecImportDef>::empty());
    Ok(ir)
}

/// The TypeScript frontend.
#[derive(Debug)]
pub struct TypeScriptFrontend;

impl TypeScriptFrontend {
    /// Extracts the interface of the TypeScript `source` read from `file`.
    /// A source that swc refuses is reported with swc's message.
    pub fn extract(&self, source: &str, file: &str, config: &super::FrontendConfig) -> (r: Result<crate::ir::WitIR, super::FrontendError>)
        ensures
            match super::ts_source::ts_declarations(source@) {
                None => r matches Err(e) && e@ is Message,
                Some(items) => match r {
                    Ok(ir) => extraction(items, file@, config.package_name@, config.world_name@, config.target_functions) == Ok::<crate::ir::SpecWitIR, SpecWdsmError>(ir@),
                    Err(e) => extraction(items, file@, config.package_name@, config.world_name@, config.target_functions) matches Err(x) && e@ == super::SpecFrontendError::Wdsm(x),
                },
            },
    {
        match super::ts_source::parse_ts(source) {
            Ok(module) => extract_ir(&module, file, config),
            Err(m) => Err(super::FrontendError::Message(m)),
        }
    }

    /// The language this frontend reads.
    pub fn language(&self) -> (r: &'static str)
        ensures
            r@ == "typescript"@,
    {
        "typescript"
    }
}


// ---------------------------------------------------------------------------
// What extraction guarantees
// ---------------------------------------------------------------------------

/// Every function of `st` is one that `targets` asks for.
pub open spec fn functions_wanted(st: ExtractState, targets: Option<Vec<String>>) -> bool {
    forall|k: int| 0 <= k < st.functions.len() ==> super::is_target(targets, #[trigger] st.functions[k].name)
}

proof fn lemma_function_step_wanted(st: ExtractState, fname: Seq<char>, f: TsFunction, file: Seq<char>, own: bool, targets: Option<Vec<String>>)
    requires
        functions_wanted(st, targets),
        super::is_target(targets, fname),
    ensures
        functions_wanted(function_step(st, fname, f, file, own), targets),
{
    let next = function_step(st, fname, f, file, own);
    assert forall|k: int| 0 <= k < next.functions.len() implies super::is_target(targets, #[trigger] next.functions[k].name) by {
        if k < st.functions.len() {
            assert(next.functions[k] == st.functions[k]);
        }
    }
}

proof fn lemma_vars_step_wanted(st: ExtractState, ds: Seq<TsVarDecl>, file: Seq<char>, targets: Option<Vec<String>>)
    requires
        functions_wanted(st, targets),
    ensures
        functions_wanted(vars_step(st, ds, file, targets), targets),
    decreases ds.len(),
{
    if ds.len() > 0 {
        lemma_vars_step_wanted(st, ds.drop_last(), file, targets);
        let prev = vars_step(st, ds.drop_last(), file, targets);
        let d = ds.last();
        if let (Some(n), Some(f)) = (d.name, d.arrow) {
            if super::is_target(targets, n@) {
                lemma_function_step_wanted(prev, n@, f, file, false, targets);
            }
        }
    }
}

proof fn lemma_run_wanted(items: Seq<TsItem>, file: Seq<char>, targets: Option<Vec<String>>)
    ensures
        functions_wanted(run(items, file, targets), targets),
    decreases items.len(),
{
    if items.len() > 0 {
        lemma_run_wanted(items.drop_last(), file, targets);
        let st = run(items.drop_last(), file, targets);
        match items.last() {
            TsItem::ExportFn { name, func } => {
                if super::is_target(targets, name@) {
                    lemma_function_step_wanted(st, name@, func, file, true, targets);
                }
            },
            TsItem::ExportVars(ds) => lemma_vars_step_wanted(st, ds@, file, targets),
            TsItem::ExportDefaultFn { ident, func } => {
                let n = match ident {
                    Some(n) => n@,
                    None => "default"@,
                };
                if super::is_target(targets, n) {
                    lemma_function_step_wanted(st, n, func, file, true, targets);
                }
            },
            _ => {},
        }
    }
}

/// Every function extracted from a TypeScript module is one that the
/// configuration asks for (all of them when it names none).
pub proof fn law_extracted_functions_are_targets(
    items: Seq<TsItem>,
    file: Seq<char>,
    package: Seq<char>,
    world: Seq<char>,
    targets: Option<Vec<String>>,
)
    ensures
        extraction(items, file, package, world, targets) matches Ok(ir) ==> forall|k: int|
            0 <= k < ir.functions.len() ==> super::is_target(targets, #[trigger] ir.functions[k].name),
{
    lemma_run_wanted(items, file, targets);
}

/// Meeting a declaration that is not exported, for a type already read,
/// changes nothing: each type is read once.
pub proof fn law_known_declarations_are_read_once(st: ExtractState, item: TsItem, file: Seq<char>, targets: Option<Vec<String>>)
    requires
        match item {
            TsItem::Interface(d) => st.known.contains(d.name@),
            TsItem::TypeAlias(d) => st.known.contains(d.name@),
            TsItem::Enum(d) => st.known.contains(d.name@),
            _ => false,
        },
    ensures
        item_step(st, item, file, targets) == st,
{
}

} // verus!
