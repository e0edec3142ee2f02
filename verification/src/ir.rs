//! The language-independent intermediate representation of a module's
//! exported interface, its specification model, and WIT spelling of types.

use vstd::prelude::*;
use vstd::string::*;
use crate::text::{
    ascii_lower, duplicate_strings, char_is_uppercase, char_to_ascii_lowercase, chars_of, join, lemma_join_push, owned,
    push_char, str_eq, strings_view, strs_view, is_upper,
};


verus! {

// ---------------------------------------------------------------------------
// Specification model
// ---------------------------------------------------------------------------

/// Mathematical model of an [`IRType`].
pub enum SpecIRType {
    Bool,
    U8,
    U16,
    U32,
    U64,
    S8,
    S16,
    S32,
    S64,
    F32,
    F64,
    Char,
    String,
    List(Box<SpecIRType>),
    Option(Box<SpecIRType>),
    Result { ok: Option<Box<SpecIRType>>, err: Option<Box<SpecIRType>> },
    Tuple(Seq<SpecIRType>),
    Named(Seq<char>),
}

// ---------------------------------------------------------------------------
// IR types
// ---------------------------------------------------------------------------

/// A WIT value type as the frontends understand it.
#[derive(Debug, PartialEq)]
pub enum IRType {
    Bool,
    U8,
    U16,
    U32,
    U64,
    S8,
    S16,
    S32,
    S64,
    F32,
    F64,
    Char,
    String,
    List(Box<IRType>),
    Option(Box<IRType>),
    Result { ok: std::option::Option<Box<IRType>>, err: std::option::Option<Box<IRType>> },
    Tuple(Vec<IRType>),
    Named(std::string::String),
}

/// The model of an IR type.
pub open spec fn ty_view(t: IRType) -> SpecIRType
    decreases t,
{
    match t {
        IRType::Bool => SpecIRType::Bool,
        IRType::U8 => SpecIRType::U8,
        IRType::U16 => SpecIRType::U16,
        IRType::U32 => SpecIRType::U32,
        IRType::U64 => SpecIRType::U64,
        IRType::S8 => SpecIRType::S8,
        IRType::S16 => SpecIRType::S16,
        IRType::S32 => SpecIRType::S32,
        IRType::S64 => SpecIRType::S64,
        IRType::F32 => SpecIRType::F32,
        IRType::F64 => SpecIRType::F64,
        IRType::Char => SpecIRType::Char,
        IRType::String => SpecIRType::String,
        IRType::List(b) => SpecIRType::List(Box::new(ty_view(*b))),
        IRType::Option(b) => SpecIRType::Option(Box::new(ty_view(*b))),
        IRType::Result { ok, err } => SpecIRType::Result {
            ok: match ok {
                Some(b) => Some(Box::new(ty_view(*b))),
                None => None,
            },
            err: match err {
                Some(b) => Some(Box::new(ty_view(*b))),
                None => None,
            },
        },
        IRType::Tuple(v) => SpecIRType::Tuple(tys_view(v@)),
        IRType::Named(n) => SpecIRType::Named(n@),
    }
}

/// The models of a sequence of IR types, element by element.
pub open spec fn tys_view(s: Seq<IRType>) -> Seq<SpecIRType>
    decreases s,
{
    if s.len() == 0 {
        Seq::empty()
    } else {
        tys_view(s.subrange(0, s.len() - 1)).push(ty_view(s[s.len() - 1]))
    }
}

impl View for IRType {
    type V = SpecIRType;

    open spec fn view(&self) -> SpecIRType {
        ty_view(*self)
    }
}


/// The models of the elements of `tys_view(s)` are those of `s`, position by position.
pub proof fn lemma_tys_view(s: Seq<IRType>)
    ensures
        tys_view(s).len() == s.len(),
        forall|i: int| 0 <= i < s.len() ==> #[trigger] tys_view(s)[i] == ty_view(s[i]),
    decreases s.len(),
{
    if s.len() > 0 {
        lemma_tys_view(s.subrange(0, s.len() - 1));
    }
}

// ---------------------------------------------------------------------------
// Kebab case
// ---------------------------------------------------------------------------

/// The kebab-case spelling of `s`: every uppercase character becomes its
/// ASCII-lowercase form, preceded by a hyphen unless it starts the result.
pub open spec fn kebab(s: Seq<char>) -> Seq<char>
    decreases s.len(),
{
    if s.len() == 0 {
        Seq::empty()
    } else {
        let p = kebab(s.drop_last());
        let c = s.last();
        if is_upper(c) {
            (if p.len() > 0 { p.push('-') } else { p }).push(ascii_lower(c))
        } else {
            p.push(c)
        }
    }
}

/// The kebab spelling is empty exactly when the input is.
pub proof fn lemma_kebab_len(s: Seq<char>)
    ensures
        kebab(s).len() >= s.len(),
        kebab(s).len() == 0 <==> s.len() == 0,
    decreases s.len(),
{
    if s.len() > 0 {
        lemma_kebab_len(s.drop_last());
    }
}

/// Converts a camel-case or Pascal-case identifier to kebab case.
pub fn to_kebab_case(s: &str) -> (r: String)
    ensures
        r@ == kebab(s@),
{
    let cs = chars_of(s);
    let mut result = String::new();
    let mut i: usize = 0;
    while i < cs.len()
        invariant
            i <= cs@.len(),
            cs@ == s@,
            result@ == kebab(cs@.subrange(0, i as int)),
        decreases cs.len() - i,
    {
        let c = cs[i];
        proof {
            assert(cs@.subrange(0, i + 1).drop_last() =~= cs@.subrange(0, i as int));
            lemma_kebab_len(cs@.subrange(0, i as int));
        }
        if char_is_uppercase(c) {
            if !result.as_str().is_empty() {
                push_char(&mut result, '-');
            }
            push_char(&mut result, char_to_ascii_lowercase(c));
        } else {
            push_char(&mut result, c);
        }
        i = i + 1;
    }
    assert(cs@.subrange(0, cs@.len() as int) =~= s@);
    result
}

// ---------------------------------------------------------------------------
// WIT spelling of types
// ---------------------------------------------------------------------------

/// The WIT spelling of a type.
pub open spec fn wit_str(t: SpecIRType) -> Seq<char>
    decreases t,
{
    match t {
        SpecIRType::Bool => "bool"@,
        SpecIRType::U8 => "u8"@,
        SpecIRType::U16 => "u16"@,
        SpecIRType::U32 => "u32"@,
        SpecIRType::U64 => "u64"@,
        SpecIRType::S8 => "s8"@,
        SpecIRType::S16 => "s16"@,
        SpecIRType::S32 => "s32"@,
        SpecIRType::S64 => "s64"@,
        SpecIRType::F32 => "f32"@,
        SpecIRType::F64 => "f64"@,
        SpecIRType::Char => "char"@,
        SpecIRType::String => "string"@,
        SpecIRType::List(inner) => "list<"@ + wit_str(*inner) + ">"@,
        SpecIRType::Option(inner) => "option<"@ + wit_str(*inner) + ">"@,
        SpecIRType::Result { ok, err } => "result<"@ + (match ok {
            Some(b) => wit_str(*b),
            None => "_"@,
        }) + ", "@ + (match err {
            Some(b) => wit_str(*b),
            None => "_"@,
        }) + ">"@,
        SpecIRType::Tuple(ts) => "tuple<"@ + wit_str_join(ts) + ">"@,
        SpecIRType::Named(n) => kebab(n),
    }
}

/// The WIT spellings of `ts`, separated by `", "`.
pub open spec fn wit_str_join(ts: Seq<SpecIRType>) -> Seq<char>
    decreases ts,
{
    if ts.len() == 0 {
        Seq::empty()
    } else if ts.len() == 1 {
        wit_str(ts[0])
    } else {
        wit_str_join(ts.subrange(0, ts.len() - 1)) + ", "@ + wit_str(ts[ts.len() - 1])
    }
}

/// Wrapping a type in an option or a list keeps its spelling whole between
/// `option<` or `list<` and `>`, so the wrapped type never spells like the
/// type itself, and an option never spells like a list.
pub proof fn law_wrapped_types_keep_their_spelling(t: SpecIRType)
    ensures
        wit_str(SpecIRType::Option(Box::new(t))) == "option<"@ + wit_str(t) + ">"@,
        wit_str(SpecIRType::List(Box::new(t))) == "list<"@ + wit_str(t) + ">"@,
        wit_str(SpecIRType::Option(Box::new(t))).len() == wit_str(t).len() + 8,
        wit_str(SpecIRType::Option(Box::new(t))) != wit_str(t),
        wit_str(SpecIRType::List(Box::new(t))) != wit_str(t),
        wit_str(SpecIRType::Option(Box::new(t))) != wit_str(SpecIRType::List(Box::new(t))),
{
    let o = wit_str(SpecIRType::Option(Box::new(t)));
    let l = wit_str(SpecIRType::List(Box::new(t)));
    reveal_strlit("option<");
    reveal_strlit("list<");
    reveal_strlit(">");
    assert(o.len() == wit_str(t).len() + 8);
    assert(l.len() == wit_str(t).len() + 6);
}

/// The type names that a type mentions, in order of appearance.
pub open spec fn refs(t: SpecIRType) -> Seq<Seq<char>>
    decreases t,
{
    match t {
        SpecIRType::Named(n) => seq![n],
        SpecIRType::List(inner) => refs(*inner),
        SpecIRType::Option(inner) => refs(*inner),
        SpecIRType::Result { ok, err } => (match ok {
            Some(b) => refs(*b),
            None => Seq::empty(),
        }) + (match err {
            Some(b) => refs(*b),
            None => Seq::empty(),
        }),
        SpecIRType::Tuple(ts) => refs_all(ts),
        _ => Seq::empty(),
    }
}

/// The type names mentioned by `ts`, element after element.
pub open spec fn refs_all(ts: Seq<SpecIRType>) -> Seq<Seq<char>>
    decreases ts,
{
    if ts.len() == 0 {
        Seq::empty()
    } else {
        refs_all(ts.subrange(0, ts.len() - 1)) + refs(ts[ts.len() - 1])
    }
}

/// Appends the elements of `src` to `dst`.
fn extend_strs<'a>(dst: &mut Vec<&'a str>, src: Vec<&'a str>)
    ensures
        strs_view(final(dst)@) == strs_view(old(dst)@) + strs_view(src@),
{
    let ghost d0 = dst@;
    let mut i: usize = 0;
    while i < src.len()
        invariant
            i <= src@.len(),
            dst@.len() == d0.len() + i,
            forall|k: int| 0 <= k < d0.len() ==> #[trigger] dst@[k]@ == d0[k]@,
            forall|k: int| 0 <= k < i ==> #[trigger] dst@[d0.len() + k]@ == src@[k]@,
        decreases src.len() - i,
    {
        dst.push(src[i]);
        i = i + 1;
    }
    assert forall|k: int| 0 <= k < dst@.len() implies #[trigger] strs_view(dst@)[k]
        == (strs_view(d0) + strs_view(src@))[k] by {
        if k < d0.len() {
            assert(dst@[k]@ == d0[k]@);
        } else {
            assert(dst@[d0.len() + (k - d0.len())]@ == src@[k - d0.len()]@);
        }
    }
    assert(strs_view(dst@) =~= strs_view(d0) + strs_view(src@));
}

impl IRType {
    /// The WIT spelling of this type.
    pub fn to_wit_str(&self) -> (r: String)
        ensures
            r@ == wit_str(self@),
        decreases self,
    {
        match self {
            IRType::Bool => owned("bool"),
            IRType::U8 => owned("u8"),
            IRType::U16 => owned("u16"),
            IRType::U32 => owned("u32"),
            IRType::U64 => owned("u64"),
            IRType::S8 => owned("s8"),
            IRType::S16 => owned("s16"),
            IRType::S32 => owned("s32"),
            IRType::S64 => owned("s64"),
            IRType::F32 => owned("f32"),
            IRType::F64 => owned("f64"),
            IRType::Char => owned("char"),
            IRType::String => owned("string"),
            IRType::List(inner) => {
                let mut r = owned("list<");
                let s = inner.to_wit_str();
                r.append(s.as_str());
                r.append(">");
                r
            },
            IRType::Option(inner) => {
                let mut r = owned("option<");
                let s = inner.to_wit_str();
                r.append(s.as_str());
                r.append(">");
                r
            },
            IRType::Result { ok, err } => {
                let ok_str = match ok {
                    Some(b) => b.to_wit_str(),
                    None => owned("_"),
                };
                let err_str = match err {
                    Some(b) => b.to_wit_str(),
                    None => owned("_"),
                };
                let mut r = owned("result<");
                r.append(ok_str.as_str());
                r.append(", ");
                r.append(err_str.as_str());
                r.append(">");
                r
            },
            IRType::Tuple(types) => {
                let mut r = owned("tuple<");
                let ghost tv = tys_view(types@);
                proof {
                    lemma_tys_view(types@);
                }
                let mut i: usize = 0;
                while i < types.len()
                    invariant
                        i <= types@.len(),
                        tv == tys_view(types@),
                        tv.len() == types@.len(),
                        forall|k: int| 0 <= k < types@.len() ==> #[trigger] tv[k] == ty_view(types@[k]),
                        r@ == "tuple<"@ + wit_str_join(tv.subrange(0, i as int)),
                        forall|k: int| 0 <= k < types@.len() ==> decreases_to!(*self => types@[k]),
                    decreases types.len() - i,
                {
                    assert(decreases_to!(*self => types@[i as int]));
                    let s = types[i].to_wit_str();
                    assert(tv.subrange(0, i + 1).subrange(0, i as int) =~= tv.subrange(0, i as int));
                    if i > 0 {
                        r.append(", ");
                    }
                    r.append(s.as_str());
                    i = i + 1;
                }
                assert(tv.subrange(0, types@.len() as int) =~= tv);
                r.append(">");
                r
            },
            IRType::Named(name) => to_kebab_case(name.as_str()),
        }
    }

    /// The names of the user-defined types that this type mentions, in order.
    pub fn named_refs(&self) -> (r: Vec<&str>)
        ensures
            strs_view(r@) == refs(self@),
        decreases self,
    {
        match self {
            IRType::Named(name) => {
                let mut r: Vec<&str> = Vec::new();
                r.push(name.as_str());
                assert(strs_view(r@) =~= refs(self@));
                r
            },
            IRType::List(inner) => inner.named_refs(),
            IRType::Option(inner) => inner.named_refs(),
            IRType::Result { ok, err } => {
                let mut refs_v: Vec<&str> = Vec::new();
                if let Some(ok) = ok {
                    extend_strs(&mut refs_v, ok.named_refs());
                }
                if let Some(err) = err {
                    extend_strs(&mut refs_v, err.named_refs());
                }
                assert(strs_view(refs_v@) =~= refs(self@));
                refs_v
            },
            IRType::Tuple(types) => {
                let mut r: Vec<&str> = Vec::new();
                let ghost tv = tys_view(types@);
                proof {
                    lemma_tys_view(types@);
                }
                let mut i: usize = 0;
                while i < types.len()
                    invariant
                        i <= types@.len(),
                        tv == tys_view(types@),
                        tv.len() == types@.len(),
                        forall|k: int| 0 <= k < types@.len() ==> #[trigger] tv[k] == ty_view(types@[k]),
                        strs_view(r@) == refs_all(tv.subrange(0, i as int)),
                        forall|k: int| 0 <= k < types@.len() ==> decreases_to!(*self => types@[k]),
                    decreases types.len() - i,
                {
                    assert(decreases_to!(*self => types@[i as int]));
                    let s = types[i].named_refs();
                    assert(tv.subrange(0, i + 1).subrange(0, i as int) =~= tv.subrange(0, i as int));
                    extend_strs(&mut r, s);
                    i = i + 1;
                }
                assert(tv.subrange(0, types@.len() as int) =~= tv);
                r
            },
            _ => {
                let r: Vec<&str> = Vec::new();
                assert(strs_view(r@) =~= refs(self@));
                r
            },
        }
    }
}


impl IRType {
    /// A copy of this type.
    pub fn duplicate(&self) -> (r: IRType)
        ensures
            r@ == self@,
        decreases self,
    {
        match self {
            IRType::Bool => IRType::Bool,
            IRType::U8 => IRType::U8,
            IRType::U16 => IRType::U16,
            IRType::U32 => IRType::U32,
            IRType::U64 => IRType::U64,
            IRType::S8 => IRType::S8,
            IRType::S16 => IRType::S16,
            IRType::S32 => IRType::S32,
            IRType::S64 => IRType::S64,
            IRType::F32 => IRType::F32,
            IRType::F64 => IRType::F64,
            IRType::Char => IRType::Char,
            IRType::String => IRType::String,
            IRType::List(inner) => IRType::List(Box::new(inner.duplicate())),
            IRType::Option(inner) => IRType::Option(Box::new(inner.duplicate())),
            IRType::Result { ok, err } => {
                let ok2 = match ok {
                    Some(b) => Some(Box::new(b.duplicate())),
                    None => None,
                };
                let err2 = match err {
                    Some(b) => Some(Box::new(b.duplicate())),
                    None => None,
                };
                IRType::Result { ok: ok2, err: err2 }
            },
            IRType::Tuple(types) => {
                let mut out: Vec<IRType> = Vec::new();
                let mut i: usize = 0;
                while i < types.len()
                    invariant
                        i <= types@.len(),
                        out@.len() == i,
                        forall|k: int| 0 <= k < i ==> #[trigger] ty_view(out@[k]) == ty_view(types@[k]),
                        forall|k: int| 0 <= k < types@.len() ==> decreases_to!(*self => types@[k]),
                    decreases types.len() - i,
                {
                    assert(decreases_to!(*self => types@[i as int]));
                    let t = types[i].duplicate();
                    out.push(t);
                    i = i + 1;
                }
                proof {
                    lemma_tys_view(out@);
                    lemma_tys_view(types@);
                    assert(tys_view(out@) =~= tys_view(types@));
                }
                IRType::Tuple(out)
            },
            IRType::Named(name) => IRType::Named(name.clone()),
        }
    }
}

// ---------------------------------------------------------------------------
// Source tracking
// ---------------------------------------------------------------------------

/// How a definition's types were obtained.
#[derive(Debug, Clone, Copy, PartialEq, Eq, Structural)]
pub enum Confidence {
    Explicit,
    Inferred,
    Fallback,
}

/// Where a definition came from.
#[derive(Debug)]
pub struct SourceSpan {
    pub file: String,
    pub line: u64,
    pub confidence: Confidence,
}

/// Model of a [`SourceSpan`].
pub struct SpecSourceSpan {
    pub file: Seq<char>,
    pub line: u64,
    pub confidence: Confidence,
}

impl View for SourceSpan {
    type V = SpecSourceSpan;

    open spec fn view(&self) -> SpecSourceSpan {
        SpecSourceSpan { file: self.file@, line: self.line, confidence: self.confidence }
    }
}

impl Default for SourceSpan {
    fn default() -> (r: Self)
        ensures
            r.file@ == "<unknown>"@,
            r.line == 0,
            r.confidence == Confidence::Explicit,
    {
        SourceSpan { file: owned("<unknown>"), line: 0, confidence: Confidence::Explicit }
    }
}

impl SourceSpan {
    /// A copy of this span.
    pub fn duplicate(&self) -> (r: SourceSpan)
        ensures
            r@ == self@,
    {
        SourceSpan { file: self.file.clone(), line: self.line, confidence: self.confidence }
    }
}

// ---------------------------------------------------------------------------
// Type definitions
// ---------------------------------------------------------------------------

/// One field of a record.
#[derive(Debug)]
pub struct FieldDef {
    pub name: String,
    pub wit_name: String,
    pub ty: IRType,
    pub optional: bool,
}

/// Model of a [`FieldDef`].
pub struct SpecFieldDef {
    pub name: Seq<char>,
    pub wit_name: Seq<char>,
    pub ty: SpecIRType,
    pub optional: bool,
}

impl View for FieldDef {
    type V = SpecFieldDef;

    open spec fn view(&self) -> SpecFieldDef {
        SpecFieldDef { name: self.name@, wit_name: self.wit_name@, ty: self.ty@, optional: self.optional }
    }
}

/// A record type.
#[derive(Debug)]
pub struct RecordDef {
    pub name: String,
    pub wit_name: String,
    pub fields: Vec<FieldDef>,
    pub source: SourceSpan,
}

/// Model of a [`RecordDef`].
pub struct SpecRecordDef {
    pub name: Seq<char>,
    pub wit_name: Seq<char>,
    pub fields: Seq<SpecFieldDef>,
    pub source: SpecSourceSpan,
}

impl View for RecordDef {
    type V = SpecRecordDef;

    open spec fn view(&self) -> SpecRecordDef {
        SpecRecordDef {
            name: self.name@,
            wit_name: self.wit_name@,
            fields: self.fields@.map_values(|f: FieldDef| f@),
            source: self.source@,
        }
    }
}

/// One case of a variant.
#[derive(Debug)]
pub struct VariantCase {
    pub name: String,
    pub payload: Option<IRType>,
}

/// Model of a [`VariantCase`].
pub struct SpecVariantCase {
    pub name: Seq<char>,
    pub payload: Option<SpecIRType>,
}

impl View for VariantCase {
    type V = SpecVariantCase;

    open spec fn view(&self) -> SpecVariantCase {
        SpecVariantCase {
            name: self.name@,
            payload: match self.payload {
                Some(t) => Some(t@),
                None => None,
            },
        }
    }
}

/// A variant type.
#[derive(Debug)]
pub struct VariantDef {
    pub name: String,
    pub wit_name: String,
    pub cases: Vec<VariantCase>,
    pub source: SourceSpan,
}

/// Model of a [`VariantDef`].
pub struct SpecVariantDef {
    pub name: Seq<char>,
    pub wit_name: Seq<char>,
    pub cases: Seq<SpecVariantCase>,
    pub source: SpecSourceSpan,
}

impl View for VariantDef {
    type V = SpecVariantDef;

    open spec fn view(&self) -> SpecVariantDef {
        SpecVariantDef {
            name: self.name@,
            wit_name: self.wit_name@,
            cases: self.cases@.map_values(|c: VariantCase| c@),
            source: self.source@,
        }
    }
}

/// An enum type (cases without payloads).
#[derive(Debug)]
pub struct EnumDef {
    pub name: String,
    pub wit_name: String,
    pub cases: Vec<String>,
    pub source: SourceSpan,
}

/// Model of an [`EnumDef`].
pub struct SpecEnumDef {
    pub name: Seq<char>,
    pub wit_name: Seq<char>,
    pub cases: Seq<Seq<char>>,
    pub source: SpecSourceSpan,
}

impl View for EnumDef {
    type V = SpecEnumDef;

    open spec fn view(&self) -> SpecEnumDef {
        SpecEnumDef {
            name: self.name@,
            wit_name: self.wit_name@,
            cases: strings_view(self.cases@),
            source: self.source@,
        }
    }
}

/// A flags type.
#[derive(Debug)]
pub struct FlagsDef {
    pub name: String,
    pub wit_name: String,
    pub flags: Vec<String>,
    pub source: SourceSpan,
}

/// Model of a [`FlagsDef`].
pub struct SpecFlagsDef {
    pub name: Seq<char>,
    pub wit_name: Seq<char>,
    pub flags: Seq<Seq<char>>,
    pub source: SpecSourceSpan,
}

impl View for FlagsDef {
    type V = SpecFlagsDef;

    open spec fn view(&self) -> SpecFlagsDef {
        SpecFlagsDef {
            name: self.name@,
            wit_name: self.wit_name@,
            flags: strings_view(self.flags@),
            source: self.source@,
        }
    }
}

/// A type alias.
#[derive(Debug)]
pub struct AliasDef {
    pub name: String,
    pub wit_name: String,
    pub target: IRType,
    pub source: SourceSpan,
}

/// Model of an [`AliasDef`].
pub struct SpecAliasDef {
    pub name: Seq<char>,
    pub wit_name: Seq<char>,
    pub target: SpecIRType,
    pub source: SpecSourceSpan,
}

impl View for AliasDef {
    type V = SpecAliasDef;

    open spec fn view(&self) -> SpecAliasDef {
        SpecAliasDef { name: self.name@, wit_name: self.wit_name@, target: self.target@, source: self.source@ }
    }
}

/// A user-defined type.
#[derive(Debug)]
pub enum TypeDef {
    Record(RecordDef),
    Variant(VariantDef),
    Enum(EnumDef),
    Flags(FlagsDef),
    Alias(AliasDef),
}

/// Model of a [`TypeDef`].
pub enum SpecTypeDef {
    Record(SpecRecordDef),
    Variant(SpecVariantDef),
    Enum(SpecEnumDef),
    Flags(SpecFlagsDef),
    Alias(SpecAliasDef),
}

impl View for TypeDef {
    type V = SpecTypeDef;

    open spec fn view(&self) -> SpecTypeDef {
        match self {
            TypeDef::Record(r) => SpecTypeDef::Record(r@),
            TypeDef::Variant(v) => SpecTypeDef::Variant(v@),
            TypeDef::Enum(e) => SpecTypeDef::Enum(e@),
            TypeDef::Flags(f) => SpecTypeDef::Flags(f@),
            TypeDef::Alias(a) => SpecTypeDef::Alias(a@),
        }
    }
}

/// The source name of a type definition.
pub open spec fn td_name(td: SpecTypeDef) -> Seq<char> {
    match td {
        SpecTypeDef::Record(r) => r.name,
        SpecTypeDef::Variant(v) => v.name,
        SpecTypeDef::Enum(e) => e.name,
        SpecTypeDef::Flags(f) => f.name,
        SpecTypeDef::Alias(a) => a.name,
    }
}

/// The WIT name of a type definition.
pub open spec fn td_wit_name(td: SpecTypeDef) -> Seq<char> {
    match td {
        SpecTypeDef::Record(r) => r.wit_name,
        SpecTypeDef::Variant(v) => v.wit_name,
        SpecTypeDef::Enum(e) => e.wit_name,
        SpecTypeDef::Flags(f) => f.wit_name,
        SpecTypeDef::Alias(a) => a.wit_name,
    }
}

/// Where a type definition came from.
pub open spec fn td_source(td: SpecTypeDef) -> SpecSourceSpan {
    match td {
        SpecTypeDef::Record(r) => r.source,
        SpecTypeDef::Variant(v) => v.source,
        SpecTypeDef::Enum(e) => e.source,
        SpecTypeDef::Flags(f) => f.source,
        SpecTypeDef::Alias(a) => a.source,
    }
}

/// The type names mentioned by the fields `fs`, field after field.
pub open spec fn field_refs(fs: Seq<SpecFieldDef>) -> Seq<Seq<char>>
    decreases fs.len(),
{
    if fs.len() == 0 {
        Seq::empty()
    } else {
        field_refs(fs.drop_last()) + refs(fs.last().ty)
    }
}

/// The type names mentioned by the payloads of `cs`, case after case.
pub open spec fn case_refs(cs: Seq<SpecVariantCase>) -> Seq<Seq<char>>
    decreases cs.len(),
{
    if cs.len() == 0 {
        Seq::empty()
    } else {
        case_refs(cs.drop_last()) + match cs.last().payload {
            Some(t) => refs(t),
            None => Seq::empty(),
        }
    }
}

/// The type names that a definition depends on, in order of appearance.
pub open spec fn td_deps(td: SpecTypeDef) -> Seq<Seq<char>> {
    match td {
        SpecTypeDef::Record(r) => field_refs(r.fields),
        SpecTypeDef::Variant(v) => case_refs(v.cases),
        SpecTypeDef::Alias(a) => refs(a.target),
        _ => Seq::empty(),
    }
}

impl TypeDef {
    /// The source name of this definition.
    pub fn name(&self) -> (r: &str)
        ensures
            r@ == td_name(self@),
    {
        match self {
            TypeDef::Record(r) => r.name.as_str(),
            TypeDef::Variant(v) => v.name.as_str(),
            TypeDef::Enum(e) => e.name.as_str(),
            TypeDef::Flags(f) => f.name.as_str(),
            TypeDef::Alias(a) => a.name.as_str(),
        }
    }

    /// The WIT name of this definition.
    pub fn wit_name(&self) -> (r: &str)
        ensures
            r@ == td_wit_name(self@),
    {
        match self {
            TypeDef::Record(r) => r.wit_name.as_str(),
            TypeDef::Variant(v) => v.wit_name.as_str(),
            TypeDef::Enum(e) => e.wit_name.as_str(),
            TypeDef::Flags(f) => f.wit_name.as_str(),
            TypeDef::Alias(a) => a.wit_name.as_str(),
        }
    }

    /// Where this definition came from.
    pub fn source(&self) -> (r: &SourceSpan)
        ensures
            r@ == td_source(self@),
    {
        match self {
            TypeDef::Record(r) => &r.source,
            TypeDef::Variant(v) => &v.source,
            TypeDef::Enum(e) => &e.source,
            TypeDef::Flags(f) => &f.source,
            TypeDef::Alias(a) => &a.source,
        }
    }

    /// The names of the types this definition refers to, in order of appearance.
    pub fn dependencies(&self) -> (r: Vec<&str>)
        ensures
            strs_view(r@) == td_deps(self@),
    {
        match self {
            TypeDef::Record(rec) => {
                let mut out: Vec<&str> = Vec::new();
                let ghost fv = rec.fields@.map_values(|f: FieldDef| f@);
                let mut i: usize = 0;
                while i < rec.fields.len()
                    invariant
                        i <= rec.fields@.len(),
                        fv == rec.fields@.map_values(|f: FieldDef| f@),
                        strs_view(out@) == field_refs(fv.subrange(0, i as int)),
                    decreases rec.fields.len() - i,
                {
                    assert(fv.subrange(0, i + 1).drop_last() =~= fv.subrange(0, i as int));
                    extend_strs(&mut out, rec.fields[i].ty.named_refs());
                    i = i + 1;
                }
                assert(fv.subrange(0, fv.len() as int) =~= fv);
                out
            },
            TypeDef::Variant(var) => {
                let mut out: Vec<&str> = Vec::new();
                let ghost cv = var.cases@.map_values(|c: VariantCase| c@);
                let mut i: usize = 0;
                while i < var.cases.len()
                    invariant
                        i <= var.cases@.len(),
                        cv == var.cases@.map_values(|c: VariantCase| c@),
                        strs_view(out@) == case_refs(cv.subrange(0, i as int)),
                    decreases var.cases.len() - i,
                {
                    assert(cv.subrange(0, i + 1).drop_last() =~= cv.subrange(0, i as int));
                    match &var.cases[i].payload {
                        Some(t) => extend_strs(&mut out, t.named_refs()),
                        None => {
                            assert(strs_view(out@) + Seq::<Seq<char>>::empty() =~= strs_view(out@));
                        },
                    }
                    i = i + 1;
                }
                assert(cv.subrange(0, cv.len() as int) =~= cv);
                out
            },
            TypeDef::Alias(a) => a.target.named_refs(),
            _ => {
                let out: Vec<&str> = Vec::new();
                assert(strs_view(out@) =~= td_deps(self@));
                out
            },
        }
    }
}


// ---------------------------------------------------------------------------
// Functions and the whole module
// ---------------------------------------------------------------------------

/// One parameter of an exported function.
#[derive(Debug)]
pub struct ParamDef {
    pub name: String,
    pub wit_name: String,
    pub ty: IRType,
}

/// Model of a [`ParamDef`].
pub struct SpecParamDef {
    pub name: Seq<char>,
    pub wit_name: Seq<char>,
    pub ty: SpecIRType,
}

impl View for ParamDef {
    type V = SpecParamDef;

    open spec fn view(&self) -> SpecParamDef {
        SpecParamDef { name: self.name@, wit_name: self.wit_name@, ty: self.ty@ }
    }
}

/// What an exported function returns.
#[derive(Debug, PartialEq)]
pub enum ReturnType {
    Void,
    Type(IRType),
}

/// Model of a [`ReturnType`].
pub enum SpecReturnType {
    Void,
    Type(SpecIRType),
}

impl View for ReturnType {
    type V = SpecReturnType;

    open spec fn view(&self) -> SpecReturnType {
        match self {
            ReturnType::Void => SpecReturnType::Void,
            ReturnType::Type(t) => SpecReturnType::Type(t@),
        }
    }
}

/// An exported function.
#[derive(Debug)]
pub struct FunctionDef {
    pub name: String,
    pub wit_name: String,
    pub params: Vec<ParamDef>,
    pub returns: ReturnType,
    pub docs: Option<String>,
    pub source: SourceSpan,
}

/// Model of a [`FunctionDef`].
pub struct SpecFunctionDef {
    pub name: Seq<char>,
    pub wit_name: Seq<char>,
    pub params: Seq<SpecParamDef>,
    pub returns: SpecReturnType,
    pub docs: Option<Seq<char>>,
    pub source: SpecSourceSpan,
}

impl View for FunctionDef {
    type V = SpecFunctionDef;

    open spec fn view(&self) -> SpecFunctionDef {
        SpecFunctionDef {
            name: self.name@,
            wit_name: self.wit_name@,
            params: self.params@.map_values(|p: ParamDef| p@),
            returns: self.returns@,
            docs: match self.docs {
                Some(d) => Some(d@),
                None => None,
            },
            source: self.source@,
        }
    }
}

/// An imported interface (reserved for tracking WASI imports).
#[derive(Debug)]
pub struct ImportDef {
    pub interface_name: String,
    pub functions: Vec<String>,
}

/// Model of an [`ImportDef`].
pub struct SpecImportDef {
    pub interface_name: Seq<char>,
    pub functions: Seq<Seq<char>>,
}

impl View for ImportDef {
    type V = SpecImportDef;

    open spec fn view(&self) -> SpecImportDef {
        SpecImportDef { interface_name: self.interface_name@, functions: strings_view(self.functions@) }
    }
}

/// The interface of one module: its package and world, the types it defines
/// and the functions it exports.
#[derive(Debug)]
pub struct WitIR {
    pub package: String,
    pub world_name: String,
    pub types: Vec<TypeDef>,
    pub functions: Vec<FunctionDef>,
    pub imports: Vec<ImportDef>,
}

/// Model of a [`WitIR`].
pub struct SpecWitIR {
    pub package: Seq<char>,
    pub world_name: Seq<char>,
    pub types: Seq<SpecTypeDef>,
    pub functions: Seq<SpecFunctionDef>,
    pub imports: Seq<SpecImportDef>,
}

impl View for WitIR {
    type V = SpecWitIR;

    open spec fn view(&self) -> SpecWitIR {
        SpecWitIR {
            package: self.package@,
            world_name: self.world_name@,
            types: self.types@.map_values(|t: TypeDef| t@),
            functions: self.functions@.map_values(|f: FunctionDef| f@),
            imports: self.imports@.map_values(|i: ImportDef| i@),
        }
    }
}

/// Whether `td` is a record called `name`.
pub open spec fn is_record_named(td: TypeDef, name: Seq<char>) -> bool {
    td matches TypeDef::Record(r) && r.name@ == name
}

impl WitIR {
    /// The first record called `name`, if any.
    pub fn find_record(&self, name: &str) -> (r: Option<&RecordDef>)
        ensures
            r is None <==> forall|i: int| 0 <= i < self.types@.len() ==> !is_record_named(#[trigger] self.types@[i], name@),
            r matches Some(rec) ==> exists|i: int|
                0 <= i < self.types@.len() && self.types@[i] == TypeDef::Record(*rec)
                && rec.name@ == name@
                && forall|j: int| 0 <= j < i ==> !is_record_named(#[trigger] self.types@[j], name@),
    {
        let mut i: usize = 0;
        while i < self.types.len()
            invariant
                i <= self.types@.len(),
                forall|j: int| 0 <= j < i ==> !is_record_named(#[trigger] self.types@[j], name@),
            decreases self.types.len() - i,
        {
            if let TypeDef::Record(r) = &self.types[i] {
                if str_eq(r.name.as_str(), name) {
                    return Some(r);
                }
            }
            i = i + 1;
        }
        None
    }

    /// The first type definition whose source name is `name`, if any.
    pub fn find_type(&self, name: &str) -> (r: Option<&TypeDef>)
        ensures
            r is None <==> forall|i: int| 0 <= i < self.types@.len() ==> td_name(#[trigger] self.types@[i]@) != name@,
            r matches Some(td) ==> exists|i: int|
                0 <= i < self.types@.len() && self.types@[i] == *td && td_name(td@) == name@
                && forall|j: int| 0 <= j < i ==> td_name(#[trigger] self.types@[j]@) != name@,
    {
        let mut i: usize = 0;
        while i < self.types.len()
            invariant
                i <= self.types@.len(),
                forall|j: int| 0 <= j < i ==> td_name(#[trigger] self.types@[j]@) != name@,
            decreases self.types.len() - i,
        {
            if str_eq(self.types[i].name(), name) {
                return Some(&self.types[i]);
            }
            i = i + 1;
        }
        None
    }

    /// The source names of all type definitions, in order.
    pub fn type_names(&self) -> (r: Vec<&str>)
        ensures
            r@.len() == self.types@.len(),
            forall|i: int| 0 <= i < r@.len() ==> #[trigger] r@[i]@ == td_name(self.types@[i]@),
    {
        let mut out: Vec<&str> = Vec::new();
        let mut i: usize = 0;
        while i < self.types.len()
            invariant
                i <= self.types@.len(),
                out@.len() == i,
                forall|k: int| 0 <= k < i ==> #[trigger] out@[k]@ == td_name(self.types@[k]@),
            decreases self.types.len() - i,
        {
            out.push(self.types[i].name());
            i = i + 1;
        }
        out
    }
}


// ---------------------------------------------------------------------------
// Copies
// ---------------------------------------------------------------------------

impl FieldDef {
    /// A copy of this field.
    pub fn duplicate(&self) -> (r: FieldDef)
        ensures
            r@ == self@,
    {
        FieldDef {
            name: self.name.clone(),
            wit_name: self.wit_name.clone(),
            ty: self.ty.duplicate(),
            optional: self.optional,
        }
    }
}

impl VariantCase {
    /// A copy of this case.
    pub fn duplicate(&self) -> (r: VariantCase)
        ensures
            r@ == self@,
    {
        VariantCase {
            name: self.name.clone(),
            payload: match &self.payload {
                Some(t) => Some(t.duplicate()),
                None => None,
            },
        }
    }
}

impl ParamDef {
    /// A copy of this parameter.
    pub fn duplicate(&self) -> (r: ParamDef)
        ensures
            r@ == self@,
    {
        ParamDef { name: self.name.clone(), wit_name: self.wit_name.clone(), ty: self.ty.duplicate() }
    }
}

impl RecordDef {
    /// A copy of this record.
    pub fn duplicate(&self) -> (r: RecordDef)
        ensures
            r@ == self@,
    {
        let mut fields: Vec<FieldDef> = Vec::new();
        let mut i: usize = 0;
        while i < self.fields.len()
            invariant
                i <= self.fields@.len(),
                fields@.len() == i,
                forall|k: int| 0 <= k < i ==> #[trigger] fields@[k]@ == self.fields@[k]@,
            decreases self.fields.len() - i,
        {
            fields.push(self.fields[i].duplicate());
            i = i + 1;
        }
        let r = RecordDef {
            name: self.name.clone(),
            wit_name: self.wit_name.clone(),
            fields,
            source: self.source.duplicate(),
        };
        assert(r@.fields =~= self@.fields);
        r
    }
}

impl VariantDef {
    /// A copy of this variant.
    pub fn duplicate(&self) -> (r: VariantDef)
        ensures
            r@ == self@,
    {
        let mut cases: Vec<VariantCase> = Vec::new();
        let mut i: usize = 0;
        while i < self.cases.len()
            invariant
                i <= self.cases@.len(),
                cases@.len() == i,
                forall|k: int| 0 <= k < i ==> #[trigger] cases@[k]@ == self.cases@[k]@,
            decreases self.cases.len() - i,
        {
            cases.push(self.cases[i].duplicate());
            i = i + 1;
        }
        let r = VariantDef {
            name: self.name.clone(),
            wit_name: self.wit_name.clone(),
            cases,
            source: self.source.duplicate(),
        };
        assert(r@.cases =~= self@.cases);
        r
    }
}

impl EnumDef {
    /// A copy of this enum.
    pub fn duplicate(&self) -> (r: EnumDef)
        ensures
            r@ == self@,
    {
        EnumDef {
            name: self.name.clone(),
            wit_name: self.wit_name.clone(),
            cases: duplicate_strings(&self.cases),
            source: self.source.duplicate(),
        }
    }
}

impl FlagsDef {
    /// A copy of this flags type.
    pub fn duplicate(&self) -> (r: FlagsDef)
        ensures
            r@ == self@,
    {
        FlagsDef {
            name: self.name.clone(),
            wit_name: self.wit_name.clone(),
            flags: duplicate_strings(&self.flags),
            source: self.source.duplicate(),
        }
    }
}

impl AliasDef {
    /// A copy of this alias.
    pub fn duplicate(&self) -> (r: AliasDef)
        ensures
            r@ == self@,
    {
        AliasDef {
            name: self.name.clone(),
            wit_name: self.wit_name.clone(),
            target: self.target.duplicate(),
            source: self.source.duplicate(),
        }
    }
}

impl TypeDef {
    /// A copy of this definition.
    pub fn duplicate(&self) -> (r: TypeDef)
        ensures
            r@ == self@,
    {
        match self {
            TypeDef::Record(x) => TypeDef::Record(x.duplicate()),
            TypeDef::Variant(x) => TypeDef::Variant(x.duplicate()),
            TypeDef::Enum(x) => TypeDef::Enum(x.duplicate()),
            TypeDef::Flags(x) => TypeDef::Flags(x.duplicate()),
            TypeDef::Alias(x) => TypeDef::Alias(x.duplicate()),
        }
    }
}

} // verus!
