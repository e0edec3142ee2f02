//! A lighter analysis of a TypeScript module: the signature of one target
//! function and the records, variants and enums the module declares, in a
//! WIT-oriented type vocabulary.  It reads the same declarations as the
//! TypeScript frontend, but never fails on a type: what it cannot map
//! becomes a string.

use vstd::prelude::*;
use crate::frontends::typescript::{
    enum_cases, is_nullish, TsEnum, TsFunction, TsInterface, TsItem, TsKeywordKind, TsLit, TsMember, TsModule, TypeAnn,
    TsTypeAlias,
};
use crate::ir::{kebab, to_kebab_case};
use crate::table::Table;
use crate::text::{owned, str_eq};

verus! {

// ---------------------------------------------------------------------------
// Types
// ---------------------------------------------------------------------------

/// Model of a [`WitType`].
pub enum SpecWitType {
    Primitive(Seq<char>),
    List(Box<SpecWitType>),
    Option(Box<SpecWitType>),
    Result(Box<SpecWitType>, Box<SpecWitType>),
    Tuple(Seq<SpecWitType>),
    Record(Seq<char>),
    Variant(Seq<char>),
    Enum(Seq<char>),
}

/// A WIT type as this analysis names it.
#[derive(Debug)]
pub enum WitType {
    Primitive(String),
    List(Box<WitType>),
    Option(Box<WitType>),
    Result(Box<WitType>, Box<WitType>),
    Tuple(Vec<WitType>),
    Record(String),
    Variant(String),
    Enum(String),
}

/// The model of a type.
pub open spec fn wt_view(t: WitType) -> SpecWitType
    decreases t,
{
    match t {
        WitType::Primitive(p) => SpecWitType::Primitive(p@),
        WitType::List(b) => SpecWitType::List(Box::new(wt_view(*b))),
        WitType::Option(b) => SpecWitType::Option(Box::new(wt_view(*b))),
        WitType::Result(a, b) => SpecWitType::Result(Box::new(wt_view(*a)), Box::new(wt_view(*b))),
        WitType::Tuple(v) => SpecWitType::Tuple(wts_view(v@)),
        WitType::Record(n) => SpecWitType::Record(n@),
        WitType::Variant(n) => SpecWitType::Variant(n@),
        WitType::Enum(n) => SpecWitType::Enum(n@),
    }
}

/// The models of a sequence of types.
pub open spec fn wts_view(s: Seq<WitType>) -> Seq<SpecWitType>
    decreases s,
{
    if s.len() == 0 {
        Seq::empty()
    } else {
        wts_view(s.subrange(0, s.len() - 1)).push(wt_view(s[s.len() - 1]))
    }
}

impl View for WitType {
    type V = SpecWitType;

    open spec fn view(&self) -> SpecWitType {
        wt_view(*self)
    }
}

proof fn lemma_wts_view(s: Seq<WitType>)
    ensures
        wts_view(s).len() == s.len(),
        forall|i: int| 0 <= i < s.len() ==> #[trigger] wts_view(s)[i] == wt_view(s[i]),
    decreases s.len(),
{
    if s.len() > 0 {
        lemma_wts_view(s.subrange(0, s.len() - 1));
    }
}

/// The WIT spelling of a type.
pub open spec fn wit_text(t: SpecWitType) -> Seq<char>
    decreases t,
{
    match t {
        SpecWitType::Primitive(p) => p,
        SpecWitType::List(inner) => "list<"@ + wit_text(*inner) + ">"@,
        SpecWitType::Option(inner) => "option<"@ + wit_text(*inner) + ">"@,
        SpecWitType::Result(ok, err) => "result<"@ + wit_text(*ok) + ", "@ + wit_text(*err) + ">"@,
        SpecWitType::Tuple(ts) => "tuple<"@ + wit_texts(ts) + ">"@,
        SpecWitType::Record(n) => n,
        SpecWitType::Variant(n) => n,
        SpecWitType::Enum(n) => n,
    }
}

/// The WIT spellings of `ts`, separated by `", "`.
pub open spec fn wit_texts(ts: Seq<SpecWitType>) -> Seq<char>
    decreases ts,
{
    if ts.len() == 0 {
        Seq::empty()
    } else if ts.len() == 1 {
        wit_text(ts[0])
    } else {
        wit_texts(ts.subrange(0, ts.len() - 1)) + ", "@ + wit_text(ts[ts.len() - 1])
    }
}

impl WitType {
    /// The WIT spelling of this type.
    pub fn to_wit_string(&self) -> (r: String)
        ensures
            r@ == wit_text(self@),
        decreases self,
    {
        match self {
            WitType::Primitive(p) => owned(p.as_str()),
            WitType::List(inner) => {
                let mut r = owned("list<");
                let s = inner.to_wit_string();
                r.append(s.as_str());
                r.append(">");
                r
            },
            WitType::Option(inner) => {
                let mut r = owned("option<");
                let s = inner.to_wit_string();
                r.append(s.as_str());
                r.append(">");
                r
            },
            WitType::Result(ok, err) => {
                let mut r = owned("result<");
                let a = ok.to_wit_string();
                r.append(a.as_str());
                r.append(", ");
                let b = err.to_wit_string();
                r.append(b.as_str());
                r.append(">");
                r
            },
            WitType::Tuple(types) => {
                let mut r = owned("tuple<");
                let ghost tv = wts_view(types@);
                proof {
                    lemma_wts_view(types@);
                }
                let mut i: usize = 0;
                while i < types.len()
                    invariant
                        i <= types@.len(),
                        tv == wts_view(types@),
                        tv.len() == types@.len(),
                        forall|k: int| 0 <= k < types@.len() ==> #[trigger] tv[k] == wt_view(types@[k]),
                        r@ == "tuple<"@ + wit_texts(tv.subrange(0, i as int)),
                        forall|k: int| 0 <= k < types@.len() ==> decreases_to!(*self => types@[k]),
                    decreases types.len() - i,
                {
                    assert(decreases_to!(*self => types@[i as int]));
                    let s = types[i].to_wit_string();
                    assert(tv.subrange(0, i + 1).subrange(0, i as int) =~= tv.subrange(0, i as int));
                    if i > 0 {
                        r.append(", ");
                    }
                    r.append(s.as_str());
                    i = i + 1;
                }
                assert(tv.subrange(0, types@.len() as int) =~= tv);
                r.append(">");
                r
            },
            WitType::Record(n) => owned(n.as_str()),
            WitType::Variant(n) => owned(n.as_str()),
            WitType::Enum(n) => owned(n.as_str()),
        }
    }
}

// ---------------------------------------------------------------------------
// Results of the analysis
// ---------------------------------------------------------------------------

/// A parameter of the target function.
#[derive(Debug)]
pub struct FnParams {
    pub name: String,
    pub param_type: WitType,
}

/// The signature of the target function.
#[derive(Debug)]
pub struct FnSign {
    pub params: Vec<FnParams>,
    pub return_type: WitType,
}

/// Model of an [`FnSign`].
pub struct SpecFnSign {
    pub params: Seq<(Seq<char>, SpecWitType)>,
    pub return_type: SpecWitType,
}

impl View for FnSign {
    type V = SpecFnSign;

    open spec fn view(&self) -> SpecFnSign {
        SpecFnSign {
            params: self.params@.map_values(|p: FnParams| (p.name@, p.param_type@)),
            return_type: self.return_type@,
        }
    }
}

/// A record: its WIT name and its fields' WIT names and types.
#[derive(Debug)]
pub struct RecordDef {
    pub name: String,
    pub fields: Vec<(String, WitType)>,
}

/// Model of a [`RecordDef`].
pub struct SpecRecordDef {
    pub name: Seq<char>,
    pub fields: Seq<(Seq<char>, SpecWitType)>,
}

impl View for RecordDef {
    type V = SpecRecordDef;

    open spec fn view(&self) -> SpecRecordDef {
        SpecRecordDef { name: self.name@, fields: self.fields@.map_values(|f: (String, WitType)| (f.0@, f.1@)) }
    }
}

/// A case of a variant.
#[derive(Debug)]
pub struct VariantCase {
    pub name: String,
    pub payload: Option<WitType>,
}

/// Model of a [`VariantCase`].
pub struct SpecVariantCase {
    pub name: Seq<char>,
    pub payload: Option<SpecWitType>,
}

impl View for VariantCase {
    type V = SpecVariantCase;

    open spec fn view(&self) -> SpecVariantCase {
        SpecVariantCase {
            name: self.name@,
            payload: match self.payload {
                Some(t) => Some(t@),
                None => None,
            },
        }
    }
}

/// A variant: its WIT name and cases.
#[derive(Debug)]
pub struct VariantDef {
    pub name: String,
    pub cases: Vec<VariantCase>,
}

/// Model of a [`VariantDef`].
pub struct SpecVariantDef {
    pub name: Seq<char>,
    pub cases: Seq<SpecVariantCase>,
}

impl View for VariantDef {
    type V = SpecVariantDef;

    open spec fn view(&self) -> SpecVariantDef {
        SpecVariantDef { name: self.name@, cases: self.cases@.map_values(|c: VariantCase| c@) }
    }
}

/// An enum: its WIT name and cases.
#[derive(Debug)]
pub struct EnumDef {
    pub name: String,
    pub cases: Vec<String>,
}

/// Model of an [`EnumDef`].
pub struct SpecEnumDef {
    pub name: Seq<char>,
    pub cases: Seq<Seq<char>>,
}

impl View for EnumDef {
    type V = SpecEnumDef;

    open spec fn view(&self) -> SpecEnumDef {
        SpecEnumDef { name: self.name@, cases: crate::text::strings_view(self.cases@) }
    }
}

/// What the analysis finds, each kind by source name.
#[derive(Debug)]
pub struct ModuleAnalysis {
    pub functions: Table<FnSign>,
    pub records: Table<RecordDef>,
    pub variants: Table<VariantDef>,
    pub enums: Table<EnumDef>,
}

/// Model of a [`ModuleAnalysis`].
pub struct AnalysisState {
    pub functions: Map<Seq<char>, SpecFnSign>,
    pub records: Map<Seq<char>, SpecRecordDef>,
    pub variants: Map<Seq<char>, SpecVariantDef>,
    pub enums: Map<Seq<char>, SpecEnumDef>,
}

impl ModuleAnalysis {

    /// The contents of the tables.
    pub open spec fn state(&self) -> AnalysisState {
        AnalysisState {
            functions: self.functions.map(),
            records: self.records.map(),
            variants: self.variants.map(),
            enums: self.enums.map(),
        }
    }
}

// ---------------------------------------------------------------------------
// Mapping types
// ---------------------------------------------------------------------------

/// The primitive a keyword type maps to; anything unusual is a string.
pub open spec fn keyword_primitive(k: TsKeywordKind) -> Seq<char> {
    match k {
        TsKeywordKind::String => "string"@,
        TsKeywordKind::Number => "f64"@,
        TsKeywordKind::Boolean => "bool"@,
        TsKeywordKind::BigInt => "s64"@,
        _ => "string"@,
    }
}

/// The first position at or after `i` of a type that is neither `null` nor `undefined`, or -1.
pub open spec fn first_solid(ts: Seq<TypeAnn>, i: int) -> int
    decreases ts.len() - i,
{
    if i < 0 || i >= ts.len() {
        -1
    } else if !is_nullish(ts[i]) {
        i
    } else {
        first_solid(ts, i + 1)
    }
}

/// The string primitive.
pub open spec fn string_prim() -> SpecWitType {
    SpecWitType::Primitive("string"@)
}

/// How a reference to the named type `n` is read: as the kind of
/// definition already read under that name, or as a record.
pub open spec fn named_kind(n: Seq<char>, st: AnalysisState) -> SpecWitType {
    if st.records.dom().contains(n) {
        SpecWitType::Record(kebab(n))
    } else if st.variants.dom().contains(n) {
        SpecWitType::Variant(kebab(n))
    } else if st.enums.dom().contains(n) {
        SpecWitType::Enum(kebab(n))
    } else {
        SpecWitType::Record(kebab(n))
    }
}

/// The type that a TypeScript type is read as, given what has been read so far.
pub open spec fn analyze(t: TypeAnn, st: AnalysisState) -> SpecWitType
    decreases t,
{
    match t {
        TypeAnn::Keyword(k) => SpecWitType::Primitive(keyword_primitive(k)),
        TypeAnn::Ref { name, params } => match name {
            None => string_prim(),
            Some(n) => {
                let has_first = params is Some && params->0@.len() > 0;
                if n@ == "Array"@ {
                    if has_first { SpecWitType::List(Box::new(analyze(params->0@[0], st))) } else { SpecWitType::List(Box::new(string_prim())) }
                } else if n@ == "Promise"@ {
                    if has_first { analyze(params->0@[0], st) } else { string_prim() }
                } else {
                    named_kind(n@, st)
                }
            },
        },
        TypeAnn::Array(e) => SpecWitType::List(Box::new(analyze(*e, st))),
        TypeAnn::Tuple(v) => SpecWitType::Tuple(analyze_all(v@, st)),
        TypeAnn::Union(v) => {
            let j = first_solid(v@, 0);
            if crate::frontends::typescript::has_nullish(v@) && 0 <= j < v@.len() {
                SpecWitType::Option(Box::new(analyze(v@[j], st)))
            } else {
                SpecWitType::Variant("variant"@)
            }
        },
        TypeAnn::TypeLit(_) => SpecWitType::Record("record"@),
        _ => string_prim(),
    }
}

/// The types that `ts` are read as.
pub open spec fn analyze_all(ts: Seq<TypeAnn>, st: AnalysisState) -> Seq<SpecWitType>
    decreases ts,
{
    if ts.len() == 0 {
        Seq::empty()
    } else {
        analyze_all(ts.subrange(0, ts.len() - 1), st).push(analyze(ts[ts.len() - 1], st))
    }
}

proof fn lemma_first_solid(ts: Seq<TypeAnn>, i: int)
    requires
        0 <= i,
    ensures
        first_solid(ts, i) == -1 || (i <= first_solid(ts, i) < ts.len() && !is_nullish(ts[first_solid(ts, i)])),
        first_solid(ts, i) >= 0 ==> forall|k: int| i <= k < first_solid(ts, i) ==> #[trigger] is_nullish(ts[k]),
        first_solid(ts, i) == -1 ==> forall|k: int| i <= k < ts.len() ==> #[trigger] is_nullish(ts[k]),
    decreases ts.len() - i,
{
    if i < ts.len() && is_nullish(ts[i]) {
        lemma_first_solid(ts, i + 1);
    }
}

impl ModuleAnalysis {
    fn string_type() -> (r: WitType)
        ensures
            r@ == string_prim(),
    {
        WitType::Primitive(owned("string"))
    }

    fn named(&self, n: &str) -> (r: WitType)
        ensures
            r@ == named_kind(n@, self.state()),
    {
        if self.records.contains_key(n) {
            WitType::Record(to_kebab_case(n))
        } else if self.variants.contains_key(n) {
            WitType::Variant(to_kebab_case(n))
        } else if self.enums.contains_key(n) {
            WitType::Enum(to_kebab_case(n))
        } else {
            WitType::Record(to_kebab_case(n))
        }
    }

    /// The type that `t` is read as.
    pub fn analyze_ts_type(&self, t: &TypeAnn) -> (r: WitType)
        ensures
            r@ == analyze(*t, self.state()),
        decreases t,
    {
        match t {
            TypeAnn::Keyword(k) => WitType::Primitive(owned(map_keyword_type(*k))),
            TypeAnn::Ref { name, params } => match name {
                None => Self::string_type(),
                Some(n) => {
                    let has_first = match params {
                        Some(ps) => ps.len() > 0,
                        None => false,
                    };
                    if str_eq(n.as_str(), "Array") {
                        if has_first {
                            let ps = params.as_ref().unwrap();
                            assert(decreases_to!(*t => ps@[0]));
                            let inner = self.analyze_ts_type(&ps[0]);
                            WitType::List(Box::new(inner))
                        } else {
                            let inner = Self::string_type();
                            WitType::List(Box::new(inner))
                        }
                    } else if str_eq(n.as_str(), "Promise") {
                        if has_first {
                            let ps = params.as_ref().unwrap();
                            assert(decreases_to!(*t => ps@[0]));
                            self.analyze_ts_type(&ps[0])
                        } else {
                            Self::string_type()
                        }
                    } else {
                        self.named(n.as_str())
                    }
                },
            },
            TypeAnn::Array(e) => {
                let inner = self.analyze_ts_type(e);
                WitType::List(Box::new(inner))
            },
            TypeAnn::Tuple(v) => {
                let mut out: Vec<WitType> = Vec::new();
                let mut i: usize = 0;
                while i < v.len()
                    invariant
                        *t == TypeAnn::Tuple(*v),
                        i <= v@.len(),
                        wts_view(out@) == analyze_all(v@.subrange(0, i as int), self.state()),
                        forall|k: int| 0 <= k < v@.len() ==> decreases_to!(*t => v@[k]),
                    decreases v.len() - i,
                {
                    assert(decreases_to!(*t => v@[i as int]));
                    assert(v@.subrange(0, i + 1).subrange(0, i as int) =~= v@.subrange(0, i as int));
                    let x = self.analyze_ts_type(&v[i]);
                    let ghost before = out@;
                    out.push(x);
                    assert(out@.subrange(0, out@.len() - 1) =~= before);
                    i = i + 1;
                }
                assert(v@.subrange(0, v@.len() as int) =~= v@);
                WitType::Tuple(out)
            },
            TypeAnn::Union(v) => {
                let mut nullable = false;
                let mut solid: Option<usize> = None;
                let mut i: usize = 0;
                while i < v.len()
                    invariant
                        i <= v@.len(),
                        nullable <==> exists|k: int| 0 <= k < i && #[trigger] is_nullish(v@[k]),
                        match solid {
                            Some(j) => j < i && first_solid(v@, 0) == j as int,
                            None => forall|k: int| 0 <= k < i ==> #[trigger] is_nullish(v@[k]),
                        },
                    decreases v.len() - i,
                {
                    let is_null = match &v[i] {
                        TypeAnn::Keyword(k) => *k == TsKeywordKind::Null || *k == TsKeywordKind::Undefined,
                        _ => false,
                    };
                    assert(is_null == is_nullish(v@[i as int]));
                    proof {
                        lemma_first_solid(v@, 0);
                        lemma_first_solid(v@, i as int);
                    }
                    if is_null {
                        nullable = true;
                    } else if solid.is_none() {
                        solid = Some(i);
                        proof {
                            lemma_first_solid_at(v@, i as int);
                        }
                    }
                    proof {
                        if nullable && !is_null {
                            let w = choose|k: int| 0 <= k < i && #[trigger] is_nullish(v@[k]);
                            assert(0 <= w < i + 1 && is_nullish(v@[w]));
                        }
                        if !nullable {
                            assert forall|k: int| 0 <= k < i + 1 implies !#[trigger] is_nullish(v@[k]) by {
                                if k < i && is_nullish(v@[k]) {
                                    assert(exists|k2: int| 0 <= k2 < i && #[trigger] is_nullish(v@[k2]));
                                }
                            }
                        }
                    }
                    i = i + 1;
                }
                proof {
                    lemma_first_solid(v@, 0);
                }
                if nullable {
                    if let Some(j) = solid {
                        assert(decreases_to!(*t => v@[j as int]));
                        let inner = self.analyze_ts_type(&v[j]);
                        return WitType::Option(Box::new(inner));
                    }
                }
                WitType::Variant(owned("variant"))
            },
            TypeAnn::TypeLit(_) => WitType::Record(owned("record")),
            _ => Self::string_type(),
        }
    }
}

proof fn lemma_first_solid_at(ts: Seq<TypeAnn>, i: int)
    requires
        0 <= i < ts.len(),
        !is_nullish(ts[i]),
        forall|k: int| 0 <= k < i ==> #[trigger] is_nullish(ts[k]),
    ensures
        first_solid(ts, 0) == i,
    decreases i,
{
    lemma_first_solid_from(ts, 0, i);
}

proof fn lemma_first_solid_from(ts: Seq<TypeAnn>, a: int, i: int)
    requires
        0 <= a <= i < ts.len(),
        !is_nullish(ts[i]),
        forall|k: int| a <= k < i ==> #[trigger] is_nullish(ts[k]),
    ensures
        first_solid(ts, a) == i,
    decreases i - a,
{
    if a < i {
        lemma_first_solid_from(ts, a + 1, i);
    }
}

/// The primitive a keyword type maps to.
pub fn map_keyword_type(k: TsKeywordKind) -> (r: &'static str)
    ensures
        r@ == keyword_primitive(k),
{
    match k {
        TsKeywordKind::String => "string",
        TsKeywordKind::Number => "f64",
        TsKeywordKind::Boolean => "bool",
        TsKeywordKind::BigInt => "s64",
        _ => "string",
    }
}


// ---------------------------------------------------------------------------
// Declarations
// ---------------------------------------------------------------------------

/// The fields declared by the properties among `ms` that have a plain name:
/// each field's kebab-case name and type, a string where it has no annotation.
pub open spec fn member_fields(ms: Seq<TsMember>, st: AnalysisState) -> Seq<(Seq<char>, SpecWitType)>
    decreases ms.len(),
{
    if ms.len() == 0 {
        Seq::empty()
    } else {
        match ms.last() {
            TsMember::Property { key: Some(k), type_ann, .. } => member_fields(ms.drop_last(), st).push((
                kebab(k@),
                match type_ann {
                    Some(t) => analyze(t, st),
                    None => string_prim(),
                },
            )),
            _ => member_fields(ms.drop_last(), st),
        }
    }
}

/// The analysis after reading the members `ms` of a record called `name`.
pub open spec fn record_step(st: AnalysisState, name: Seq<char>, ms: Seq<TsMember>) -> AnalysisState {
    AnalysisState {
        records: st.records.insert(name, SpecRecordDef { name: kebab(name), fields: member_fields(ms, st) }),
        ..st
    }
}

/// Whether every one of `ts` is a literal type.
pub open spec fn all_literals(ts: Seq<TypeAnn>) -> bool {
    forall|i: int| 0 <= i < ts.len() ==> #[trigger] ts[i] is Lit
}

/// The enum cases of a union of literals: string literals in kebab case,
/// numeric literals as `variant-<n>`; other literals are skipped.
pub open spec fn literal_cases(ts: Seq<TypeAnn>) -> Seq<Seq<char>>
    decreases ts.len(),
{
    if ts.len() == 0 {
        Seq::empty()
    } else {
        let prev = literal_cases(ts.drop_last());
        match ts.last() {
            TypeAnn::Lit { lit: TsLit::Str(Some(v)), .. } => prev.push(kebab(v@)),
            TypeAnn::Lit { lit: TsLit::Number(n), .. } => prev.push("variant-"@ + crate::text::int_decimal(n as int)),
            _ => prev,
        }
    }
}

/// The variant case that a member of a union stands for.
pub open spec fn union_case(t: TypeAnn, st: AnalysisState) -> SpecVariantCase {
    match t {
        TypeAnn::Lit { lit, .. } => SpecVariantCase {
            name: match lit {
                TsLit::Str(Some(v)) => kebab(v@),
                TsLit::Number(n) => "variant-"@ + crate::text::int_decimal(n as int),
                _ => "unknown"@,
            },
            payload: None,
        },
        _ => SpecVariantCase { name: "variant"@, payload: Some(analyze(t, st)) },
    }
}

/// The analysis after reading a type alias: an inline object type declares
/// a record, a union of literals an enum, any other union a variant; other
/// aliases are not recorded.
pub open spec fn alias_step(st: AnalysisState, d: TsTypeAlias) -> AnalysisState {
    let name = d.name@;
    match d.type_ann {
        TypeAnn::TypeLit(ms) => record_step(st, name, ms@),
        TypeAnn::Union(v) => if all_literals(v@) {
            AnalysisState { enums: st.enums.insert(name, SpecEnumDef { name: kebab(name), cases: literal_cases(v@) }), ..st }
        } else {
            AnalysisState {
                variants: st.variants.insert(name, SpecVariantDef {
                    name: kebab(name),
                    cases: v@.map_values(|t: TypeAnn| union_case(t, st)),
                }),
                ..st
            }
        },
        _ => st,
    }
}

/// The analysis after reading an enum declaration.
pub open spec fn enum_step(st: AnalysisState, d: TsEnum) -> AnalysisState {
    AnalysisState { enums: st.enums.insert(d.name@, SpecEnumDef { name: kebab(d.name@), cases: enum_cases(d.members@) }), ..st }
}

/// The parameters of a function with a plain name, each with its type, a
/// string where it has no annotation.
pub open spec fn sign_params(ps: Seq<crate::frontends::typescript::TsParam>, st: AnalysisState) -> Seq<(Seq<char>, SpecWitType)>
    decreases ps.len(),
{
    if ps.len() == 0 {
        Seq::empty()
    } else {
        let prev = sign_params(ps.drop_last(), st);
        match ps.last().name {
            Some(n) => prev.push((n@, match ps.last().type_ann {
                Some(t) => analyze(t, st),
                None => string_prim(),
            })),
            None => prev,
        }
    }
}

/// The signature of a function; its result is a string when it has no annotation.
pub open spec fn signature(f: TsFunction, st: AnalysisState) -> SpecFnSign {
    SpecFnSign {
        params: sign_params(f.params@, st),
        return_type: match f.return_type {
            Some(t) => analyze(t, st),
            None => string_prim(),
        },
    }
}

/// The analysis after meeting one declaration; only the function called
/// `target` is recorded.
pub open spec fn item_step(st: AnalysisState, item: TsItem, target: Seq<char>) -> AnalysisState {
    match item {
        TsItem::ExportFn { name, func } => if name@ == target {
            AnalysisState { functions: st.functions.insert(name@, signature(func, st)), ..st }
        } else {
            st
        },
        TsItem::ExportVars(_) => st,
        TsItem::ExportInterface(d) => record_step(st, d.name@, d.members@),
        TsItem::ExportTypeAlias(d) => alias_step(st, d),
        TsItem::ExportEnum(d) => enum_step(st, d),
        TsItem::ExportDefaultFn { ident, func } => match ident {
            Some(n) => if n@ == target {
                AnalysisState { functions: st.functions.insert(target, signature(func, st)), ..st }
            } else {
                st
            },
            None => st,
        },
        TsItem::Interface(d) => record_step(st, d.name@, d.members@),
        TsItem::TypeAlias(d) => alias_step(st, d),
        TsItem::Enum(d) => enum_step(st, d),
    }
}

/// Nothing read yet.
pub open spec fn empty_analysis() -> AnalysisState {
    AnalysisState { functions: Map::empty(), records: Map::empty(), variants: Map::empty(), enums: Map::empty() }
}

/// The analysis after meeting `items` in order.
pub open spec fn analysis_of(items: Seq<TsItem>, target: Seq<char>) -> AnalysisState
    decreases items.len(),
{
    if items.len() == 0 {
        empty_analysis()
    } else {
        item_step(analysis_of(items.drop_last(), target), items.last(), target)
    }
}

impl ModuleAnalysis {
    /// An analysis that has read nothing.
    pub fn new() -> (r: Self)
        ensures
            r.state() == empty_analysis(),
    {
        ModuleAnalysis { functions: Table::new(), records: Table::new(), variants: Table::new(), enums: Table::new() }
    }

    fn fields_of(&self, ms: &Vec<TsMember>) -> (r: Vec<(String, WitType)>)
        ensures
            r@.map_values(|f: (String, WitType)| (f.0@, f.1@)) == member_fields(ms@, self.state()),
    {
        let mut fields: Vec<(String, WitType)> = Vec::new();
        let mut i: usize = 0;
        while i < ms.len()
            invariant
                i <= ms@.len(),
                fields@.map_values(|f: (String, WitType)| (f.0@, f.1@)) == member_fields(ms@.subrange(0, i as int), self.state()),
            decreases ms.len() - i,
        {
            let ghost q = ms@.subrange(0, i + 1);
            assert(q.drop_last() =~= ms@.subrange(0, i as int));
            assert(q.last() == ms@[i as int]);
            if let TsMember::Property { key: Some(k), type_ann, .. } = &ms[i] {
                let ty = match type_ann {
                    Some(t) => self.analyze_ts_type(t),
                    None => Self::string_type(),
                };
                let ghost fb = fields@;
                let entry = (to_kebab_case(k.as_str()), ty);
                let ghost ev = (entry.0@, entry.1@);
                fields.push(entry);
                assert(fields@.map_values(|f: (String, WitType)| (f.0@, f.1@))
                    =~= fb.map_values(|f: (String, WitType)| (f.0@, f.1@)).push(ev));
            }
            i = i + 1;
        }
        assert(ms@.subrange(0, ms@.len() as int) =~= ms@);
        fields
    }

    fn record(&mut self, name: &String, ms: &Vec<TsMember>)
        ensures
            final(self).state() == record_step(old(self).state(), name@, ms@),
    {
        let fields = self.fields_of(ms);
        let rec = RecordDef { name: to_kebab_case(name.as_str()), fields: fields };
        self.records.insert(name.as_str(), rec);
    }

    /// Reads an interface declaration.
    pub fn analyze_interface(&mut self, d: &TsInterface)
        ensures
            final(self).state() == record_step(old(self).state(), d.name@, d.members@),
    {
        self.record(&d.name, &d.members);
    }

    /// Reads a type alias declaration.
    pub fn analyze_type_alias(&mut self, d: &TsTypeAlias)
        ensures
            final(self).state() == alias_step(old(self).state(), *d),
    {
        match &d.type_ann {
            TypeAnn::TypeLit(ms) => self.record(&d.name, ms),
            TypeAnn::Union(v) => {
                if is_enum_union(v) {
                    let cases = extract_enum_cases(v);
                    let e = EnumDef { name: to_kebab_case(d.name.as_str()), cases: cases };
                    self.enums.insert(d.name.as_str(), e);
                } else {
                    let cases = self.extract_variant_cases(v);
                    let var = VariantDef { name: to_kebab_case(d.name.as_str()), cases: cases };
                    self.variants.insert(d.name.as_str(), var);
                }
            },
            _ => {},
        }
    }

    fn extract_variant_cases(&self, v: &Vec<TypeAnn>) -> (r: Vec<VariantCase>)
        ensures
            r@.map_values(|c: VariantCase| c@) == v@.map_values(|t: TypeAnn| union_case(t, self.state())),
    {
        let mut cases: Vec<VariantCase> = Vec::new();
        let mut i: usize = 0;
        while i < v.len()
            invariant
                i <= v@.len(),
                cases@.len() == i,
                forall|k: int| 0 <= k < i ==> #[trigger] cases@[k]@ == union_case(v@[k], self.state()),
            decreases v.len() - i,
        {
            let c = match &v[i] {
                TypeAnn::Lit { lit, .. } => {
                    let name = match lit {
                        TsLit::Str(Some(s)) => to_kebab_case(s.as_str()),
                        TsLit::Number(n) => number_case(*n),
                        _ => owned("unknown"),
                    };
                    VariantCase { name: name, payload: None }
                },
                t => VariantCase { name: owned("variant"), payload: Some(self.analyze_ts_type(t)) },
            };
            cases.push(c);
            i = i + 1;
        }
        assert(cases@.map_values(|c: VariantCase| c@) =~= v@.map_values(|t: TypeAnn| union_case(t, self.state())));
        cases
    }

    /// Reads an enum declaration.
    pub fn analyze_enum(&mut self, d: &TsEnum)
        ensures
            final(self).state() == enum_step(old(self).state(), *d),
    {
        let mut cases: Vec<String> = Vec::new();
        let mut i: usize = 0;
        while i < d.members.len()
            invariant
                i <= d.members@.len(),
                crate::text::strings_view(cases@) == enum_cases(d.members@.subrange(0, i as int)),
            decreases d.members.len() - i,
        {
            let ghost q = d.members@.subrange(0, i + 1);
            assert(q.drop_last() =~= d.members@.subrange(0, i as int));
            assert(q.last() == d.members@[i as int]);
            if let Some(id) = &d.members[i] {
                let c = to_kebab_case(id.as_str());
                let ghost cb = cases@;
                cases.push(c);
                assert(crate::text::strings_view(cases@) =~= crate::text::strings_view(cb).push(c@));
            }
            i = i + 1;
        }
        assert(d.members@.subrange(0, d.members@.len() as int) =~= d.members@);
        let e = EnumDef { name: to_kebab_case(d.name.as_str()), cases: cases };
        self.enums.insert(d.name.as_str(), e);
    }

    /// The signature of a function.
    pub fn analyze_function(&self, f: &TsFunction) -> (r: FnSign)
        ensures
            r@ == signature(*f, self.state()),
    {
        let mut params: Vec<FnParams> = Vec::new();
        let mut i: usize = 0;
        while i < f.params.len()
            invariant
                i <= f.params@.len(),
                params@.map_values(|p: FnParams| (p.name@, p.param_type@)) == sign_params(f.params@.subrange(0, i as int), self.state()),
            decreases f.params.len() - i,
        {
            let ghost q = f.params@.subrange(0, i + 1);
            assert(q.drop_last() =~= f.params@.subrange(0, i as int));
            assert(q.last() == f.params@[i as int]);
            let p = &f.params[i];
            if let Some(n) = &p.name {
                let ty = match &p.type_ann {
                    Some(t) => self.analyze_ts_type(t),
                    None => Self::string_type(),
                };
                let fp = FnParams { name: owned(n.as_str()), param_type: ty };
                let ghost pv = (fp.name@, fp.param_type@);
                let ghost pb = params@;
                params.push(fp);
                assert(params@.map_values(|p: FnParams| (p.name@, p.param_type@))
                    =~= pb.map_values(|p: FnParams| (p.name@, p.param_type@)).push(pv));
            }
            i = i + 1;
        }
        assert(f.params@.subrange(0, f.params@.len() as int) =~= f.params@);
        let return_type = match &f.return_type {
            Some(t) => self.analyze_ts_type(t),
            None => Self::string_type(),
        };
        FnSign { params: params, return_type: return_type }
    }

    /// Reads one declaration met while walking the module.
    pub fn visit_item(&mut self, item: &TsItem, target: &str)
        ensures
            final(self).state() == item_step(old(self).state(), *item, target@),
    {
        match item {
            TsItem::ExportFn { name, func } => {
                if str_eq(name.as_str(), target) {
                    let sig = self.analyze_function(func);
                    self.functions.insert(name.as_str(), sig);
                }
            },
            TsItem::ExportVars(_) => {},
            TsItem::ExportInterface(d) => self.analyze_interface(d),
            TsItem::ExportTypeAlias(d) => self.analyze_type_alias(d),
            TsItem::ExportEnum(d) => self.analyze_enum(d),
            TsItem::ExportDefaultFn { ident, func } => {
                if let Some(n) = ident {
                    if str_eq(n.as_str(), target) {
                        let sig = self.analyze_function(func);
                        self.functions.insert(target, sig);
                    }
                }
            },
            TsItem::Interface(d) => self.analyze_interface(d),
            TsItem::TypeAlias(d) => self.analyze_type_alias(d),
            TsItem::Enum(d) => self.analyze_enum(d),
        }
    }
}

/// `variant-<n>`.
fn number_case(n: i64) -> (r: String)
    ensures
        r@ == "variant-"@ + crate::text::int_decimal(n as int),
{
    let mut s = owned("variant-");
    let d = crate::text::i64_to_decimal(n);
    s.append(d.as_str());
    s
}

/// Whether every member of a union is a literal type.
pub fn is_enum_union(v: &Vec<TypeAnn>) -> (r: bool)
    ensures
        r == all_literals(v@),
{
    let mut i: usize = 0;
    while i < v.len()
        invariant
            i <= v@.len(),
            forall|k: int| 0 <= k < i ==> #[trigger] v@[k] is Lit,
        decreases v.len() - i,
    {
        let is_lit = match &v[i] {
            TypeAnn::Lit { .. } => true,
            _ => false,
        };
        if !is_lit {
            return false;
        }
        i = i + 1;
    }
    true
}

/// The enum cases of a union of literals.
pub fn extract_enum_cases(v: &Vec<TypeAnn>) -> (r: Vec<String>)
    ensures
        crate::text::strings_view(r@) == literal_cases(v@),
{
    let mut cases: Vec<String> = Vec::new();
    let mut i: usize = 0;
    while i < v.len()
        invariant
            i <= v@.len(),
            crate::text::strings_view(cases@) == literal_cases(v@.subrange(0, i as int)),
        decreases v.len() - i,
    {
        let ghost q = v@.subrange(0, i + 1);
        assert(q.drop_last() =~= v@.subrange(0, i as int));
        assert(q.last() == v@[i as int]);
        let c: Option<String> = match &v[i] {
            TypeAnn::Lit { lit: TsLit::Str(Some(s)), .. } => Some(to_kebab_case(s.as_str())),
            TypeAnn::Lit { lit: TsLit::Number(n), .. } => Some(number_case(*n)),
            _ => None,
        };
        if let Some(c) = c {
            let ghost cb = cases@;
            cases.push(c);
            assert(crate::text::strings_view(cases@) =~= crate::text::strings_view(cb).push(c@));
        }
        i = i + 1;
    }
    assert(v@.subrange(0, v@.len() as int) =~= v@);
    cases
}

/// The message for a target function that the module does not export.
pub open spec fn not_found(function_name: Seq<char>, file: Seq<char>) -> Seq<char> {
    "Function '"@ + function_name + "' not found in "@ + file
}

/// Analyses the TypeScript `source` read from `file` for the function
/// `function_name`, which it must export.  A source that swc refuses is
/// reported with swc's message.
pub fn anal_fn(source: &str, function_name: &str, file: &str) -> (r: Result<ModuleAnalysis, String>)
    ensures
        match crate::frontends::ts_source::ts_declarations(source@) {
            None => r is Err,
            Some(items) => {
                let st = analysis_of(items, function_name@);
                match r {
                    Ok(a) => st.functions.dom().contains(function_name@) && a.state() == st,
                    Err(m) => !st.functions.dom().contains(function_name@) && m@ == not_found(function_name@, file@),
                }
            },
        },
{
    match crate::frontends::ts_source::parse_ts(source) {
        Ok(module) => analyze_module(&module, function_name, file),
        Err(m) => Err(m),
    }
}

/// Analyses a parsed module read from `file` for the function
/// `function_name`, which it must export.
pub fn analyze_module(module: &TsModule, function_name: &str, file: &str) -> (r: Result<ModuleAnalysis, String>)
    ensures
        ({
            let st = analysis_of(module.items@, function_name@);
            match r {
                Ok(a) => st.functions.dom().contains(function_name@) && a.state() == st,
                Err(m) => !st.functions.dom().contains(function_name@) && m@ == not_found(function_name@, file@),
            }
        }),
{
    let mut a = ModuleAnalysis::new();
    let mut i: usize = 0;
    while i < module.items.len()
        invariant
            i <= module.items@.len(),
            a.state() == analysis_of(module.items@.subrange(0, i as int), function_name@),
        decreases module.items.len() - i,
    {
        let ghost q = module.items@.subrange(0, i + 1);
        assert(q.drop_last() =~= module.items@.subrange(0, i as int));
        assert(q.last() == module.items@[i as int]);
        a.visit_item(&module.items[i], function_name);
        i = i + 1;
    }
    assert(module.items@.subrange(0, module.items@.len() as int) =~= module.items@);
    if !a.functions.contains_key(function_name) {
        let mut m = owned("Function '");
        m.append(function_name);
        m.append("' not found in ");
        m.append(file);
        return Err(m);
    }
    Ok(a)
}

} // verus!
