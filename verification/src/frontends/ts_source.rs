//! Reading TypeScript source: swc parses it, and a traversal of the syntax
//! tree hands over the declarations that the TypeScript frontend reads, in
//! the order a depth-first traversal meets them.

use vstd::prelude::*;
use swc_common::sync::Lrc;
use swc_common::{FileName, SourceMap, Span, Spanned};
use swc_ecma_ast as ast;
use swc_ecma_ast::TsKeywordTypeKind;
use swc_ecma_parser::{Parser, StringInput, Syntax, TsSyntax};
use swc_ecma_visit::{Visit, VisitWith};
use crate::frontends::typescript::{
    TsEnum, TsFunction, TsInterface, TsItem, TsKeywordKind, TsLit, TsMember, TsModule, TsParam, TypeAnn, TsTypeAlias,
    TsVarDecl,
};

verus! {

#[verifier::external_type_specification]
#[verifier::external_body]
pub struct ExSourceMap(swc_common::SourceMap);

#[verifier::external_type_specification]
#[verifier::external_body]
pub struct ExSpan(swc_common::Span);

#[verifier::external_type_specification]
#[verifier::external_body]
pub struct ExSyntax(swc_ecma_parser::Syntax);

#[verifier::external_type_specification]
#[verifier::external_body]
pub struct ExDecl(swc_ecma_ast::Decl);

#[verifier::external_type_specification]
#[verifier::external_body]
pub struct ExExportDecl(swc_ecma_ast::ExportDecl);

#[verifier::external_type_specification]
#[verifier::external_body]
pub struct ExExportDefaultDecl(swc_ecma_ast::ExportDefaultDecl);

#[verifier::external_type_specification]
#[verifier::external_body]
pub struct ExTsInterfaceDecl(swc_ecma_ast::TsInterfaceDecl);

#[verifier::external_type_specification]
#[verifier::external_body]
pub struct ExTsTypeAliasDecl(swc_ecma_ast::TsTypeAliasDecl);

#[verifier::external_type_specification]
#[verifier::external_body]
pub struct ExTsEnumDecl(swc_ecma_ast::TsEnumDecl);

#[verifier::external_type_specification]
#[verifier::external_body]
pub struct ExFunction(swc_ecma_ast::Function);

#[verifier::external_type_specification]
#[verifier::external_body]
pub struct ExArrowExpr(swc_ecma_ast::ArrowExpr);

#[verifier::external_type_specification]
#[verifier::external_body]
pub struct ExPat(swc_ecma_ast::Pat);

#[verifier::external_type_specification]
#[verifier::external_body]
pub struct ExExpr(swc_ecma_ast::Expr);

#[verifier::external_type_specification]
#[verifier::external_body]
pub struct ExVarDeclarator(swc_ecma_ast::VarDeclarator);

#[verifier::external_type_specification]
#[verifier::external_body]
pub struct ExTsType(swc_ecma_ast::TsType);

#[verifier::external_type_specification]
#[verifier::external_body]
pub struct ExTsTypeRef(swc_ecma_ast::TsTypeRef);

#[verifier::external_type_specification]
#[verifier::external_body]
pub struct ExTsUnionOrIntersectionType(swc_ecma_ast::TsUnionOrIntersectionType);

#[verifier::external_type_specification]
#[verifier::external_body]
pub struct ExTsLitType(swc_ecma_ast::TsLitType);

#[verifier::external_type_specification]
#[verifier::external_body]
pub struct ExTsTypeElement(swc_ecma_ast::TsTypeElement);

#[verifier::external_type_specification]
#[verifier::external_body]
pub struct ExTsKeywordTypeKind(swc_ecma_ast::TsKeywordTypeKind);

#[verifier::external_type_specification]
#[verifier::external_body]
pub struct ExTsTupleType(swc_ecma_ast::TsTupleType);

#[verifier::external_type_specification]
#[verifier::external_body]
pub struct ExTsTypeLit(swc_ecma_ast::TsTypeLit);

#[verifier::external_type_specification]
#[verifier::external_body]
pub struct ExVarDecl(swc_ecma_ast::VarDecl);

#[verifier::external_type_specification]
#[verifier::external_body]
pub struct ExTsEntityName(swc_ecma_ast::TsEntityName);

#[verifier::external_type_specification]
#[verifier::external_body]
pub struct ExTsEnumMember(swc_ecma_ast::TsEnumMember);

/// The declarations that a depth-first traversal of the module parsed from
/// `source` meets, in that order; `None` when swc refuses the source.
pub uninterp spec fn ts_declarations(source: Seq<char>) -> Option<Seq<TsItem>>;

/// The declarations met so far, and the source map that gives their lines.
pub struct Collector {
    cm: Lrc<SourceMap>,
    items: Vec<TsItem>,
}

/// The TypeScript syntax that sources are parsed with: no JSX, no
/// decorators, no declaration files, early errors not reported.
#[verifier::external_body]
fn ts_syntax() -> (r: Syntax) {
    Syntax::Typescript(TsSyntax {
        tsx: false,
        decorators: false,
        dts: false,
        no_early_errors: true,
        disallow_ambiguous_jsx_like: true,
        ..Default::default()
    })
}

/// Parses TypeScript source with swc's `Parser::parse_module` and walks the
/// module with swc's `VisitWith::visit_with`, collecting the declarations
/// met.  The result is claimed to be a function of the source alone, named
/// [`ts_declarations`]; the message of a refusal is not stated.
#[verifier::external_body]
pub fn parse_ts(source: &str) -> (r: Result<TsModule, String>)
    ensures
        match r {
            Ok(m) => ts_declarations(source@) == Some(m.items@),
            Err(_) => ts_declarations(source@) is None,
        },
{
    let cm: Lrc<SourceMap> = Default::default();
    let fm = cm.new_source_file(Lrc::new(FileName::Anon), source.to_string());
    let mut parser = Parser::new(ts_syntax(), StringInput::from(&*fm), None);
    let module = parser.parse_module().map_err(|e| format!("Failed to parse TypeScript: {:?}", e))?;
    let mut collector = Collector { cm, items: Vec::new() };
    module.visit_with(&mut collector);
    Ok(TsModule { items: collector.items })
}

/// `SourceMap::lookup_char_pos`: the line a span starts on.
#[verifier::external_body]
fn line_of(cm: &SourceMap, span: Span) -> (r: u64) {
    cm.lookup_char_pos(span.lo).line as u64
}

/// The name bound by a plain identifier pattern.
#[verifier::external_body]
fn pat_name(p: &ast::Pat) -> (r: Option<String>) {
    match p {
        ast::Pat::Ident(ident) => Some(ident.sym.to_string()),
        _ => None,
    }
}

/// A parameter that starts at `span`.
#[verifier::external_body]
fn param_of(cm: &SourceMap, p: &ast::Pat, span: Span) -> (r: TsParam) {
    match p {
        ast::Pat::Ident(ident) => TsParam {
            name: Some(ident.sym.to_string()),
            type_ann: ident.type_ann.as_ref().map(|a| type_of(&a.type_ann)),
            line: line_of(cm, span),
        },
        _ => TsParam { name: None, type_ann: None, line: line_of(cm, span) },
    }
}

/// A function declaration or expression.
#[verifier::external_body]
fn function_of(cm: &SourceMap, f: &ast::Function) -> (r: TsFunction) {
    TsFunction {
        params: f.params.iter().map(|p| param_of(cm, &p.pat, p.span())).collect(),
        return_type: f.return_type.as_ref().map(|a| type_of(&a.type_ann)),
        line: line_of(cm, f.span()),
    }
}

/// An arrow function.
#[verifier::external_body]
fn arrow_of(cm: &SourceMap, a: &ast::ArrowExpr) -> (r: TsFunction) {
    TsFunction {
        params: a.params.iter().map(|p| param_of(cm, p, p.span())).collect(),
        return_type: a.return_type.as_ref().map(|t| type_of(&t.type_ann)),
        line: line_of(cm, a.span()),
    }
}

/// The arrow function an expression is, if it is one.
#[verifier::external_body]
fn arrow_init(cm: &SourceMap, e: &ast::Expr) -> (r: Option<TsFunction>) {
    match e {
        ast::Expr::Arrow(a) => Some(arrow_of(cm, a)),
        _ => None,
    }
}

/// One declarator of a variable declaration.
#[verifier::external_body]
fn var_of(cm: &SourceMap, d: &ast::VarDeclarator) -> (r: TsVarDecl) {
    TsVarDecl { name: pat_name(&d.name), arrow: d.init.as_ref().and_then(|e| arrow_init(cm, e)) }
}

/// An interface declaration.
#[verifier::external_body]
fn interface_of(cm: &SourceMap, d: &ast::TsInterfaceDecl) -> (r: TsInterface) {
    TsInterface {
        name: d.id.sym.to_string(),
        members: d.body.body.iter().map(member_of).collect(),
        line: line_of(cm, d.span()),
    }
}

/// A type alias declaration.
#[verifier::external_body]
fn alias_of(cm: &SourceMap, d: &ast::TsTypeAliasDecl) -> (r: TsTypeAlias) {
    TsTypeAlias { name: d.id.sym.to_string(), type_ann: type_of(&d.type_ann), line: line_of(cm, d.span()) }
}

/// The identifier naming an enum member, if it is named by one.
#[verifier::external_body]
fn enum_member_of(m: &ast::TsEnumMember) -> (r: Option<String>) {
    match &m.id {
        ast::TsEnumMemberId::Ident(ident) => Some(ident.sym.to_string()),
        _ => None,
    }
}

/// An enum declaration.
#[verifier::external_body]
fn enum_of(cm: &SourceMap, d: &ast::TsEnumDecl) -> (r: TsEnum) {
    TsEnum {
        name: d.id.sym.to_string(),
        members: d.members.iter().map(enum_member_of).collect(),
        line: line_of(cm, d.span()),
    }
}

/// A keyword type.
#[verifier::external_body]
fn keyword_of(k: TsKeywordTypeKind) -> (r: TsKeywordKind) {
    match k {
        TsKeywordTypeKind::TsAnyKeyword => TsKeywordKind::Any, TsKeywordTypeKind::TsUnknownKeyword => TsKeywordKind::Unknown,
        TsKeywordTypeKind::TsNumberKeyword => TsKeywordKind::Number, TsKeywordTypeKind::TsObjectKeyword => TsKeywordKind::Object,
        TsKeywordTypeKind::TsBooleanKeyword => TsKeywordKind::Boolean, TsKeywordTypeKind::TsBigIntKeyword => TsKeywordKind::BigInt,
        TsKeywordTypeKind::TsStringKeyword => TsKeywordKind::String, TsKeywordTypeKind::TsSymbolKeyword => TsKeywordKind::Symbol,
        TsKeywordTypeKind::TsVoidKeyword => TsKeywordKind::Void, TsKeywordTypeKind::TsUndefinedKeyword => TsKeywordKind::Undefined,
        TsKeywordTypeKind::TsNullKeyword => TsKeywordKind::Null, TsKeywordTypeKind::TsNeverKeyword => TsKeywordKind::Never,
        TsKeywordTypeKind::TsIntrinsicKeyword => TsKeywordKind::Intrinsic,
    }
}

/// A reference to a named type, with its type arguments.
#[verifier::external_body]
fn type_ref_of(r: &ast::TsTypeRef) -> (t: TypeAnn) {
    let mut first = FirstEntity { found: None };
    r.visit_children_with(&mut first);
    TypeAnn::Ref {
        name: first.found.flatten(),
        params: r.type_params.as_ref().map(|p| p.params.iter().map(|t| type_of(t)).collect()),
    }
}

/// The members of a union or an intersection.
#[verifier::external_body]
fn union_of(u: &ast::TsUnionOrIntersectionType) -> (r: Vec<TypeAnn>) {
    match u {
        ast::TsUnionOrIntersectionType::TsUnionType(u) => u.types.iter().map(|t| type_of(t)).collect(),
        ast::TsUnionOrIntersectionType::TsIntersectionType(i) => i.types.iter().map(|t| type_of(t)).collect(),
    }
}

/// A literal type, with swc's debug rendering of the whole type `t`.
#[verifier::external_body]
fn lit_type_of(l: &ast::TsLitType, t: &ast::TsType) -> (r: TypeAnn) {
    let lit = match &l.lit {
        ast::TsLit::Str(s) => TsLit::Str(s.value.as_str().map(|v| v.to_string())),
        ast::TsLit::Number(n) => TsLit::Number(n.value as i64),
        _ => TsLit::Other,
    };
    TypeAnn::Lit { lit, text: format!("{:?}", t) }
}

/// A tuple type.
#[verifier::external_body]
fn tuple_of(x: &ast::TsTupleType) -> (r: TypeAnn) {
    TypeAnn::Tuple(x.elem_types.iter().map(|e| type_of(&e.ty)).collect())
}

/// An inline object type.
#[verifier::external_body]
fn type_lit_of(l: &ast::TsTypeLit) -> (r: TypeAnn) {
    TypeAnn::TypeLit(l.members.iter().map(member_of).collect())
}

/// A type annotation.
#[verifier::external_body]
fn type_of(t: &ast::TsType) -> (r: TypeAnn) {
    match t {
        ast::TsType::TsKeywordType(k) => TypeAnn::Keyword(keyword_of(k.kind)),
        ast::TsType::TsTypeRef(r) => type_ref_of(r),
        ast::TsType::TsArrayType(a) => TypeAnn::Array(Box::new(type_of(&a.elem_type))),
        ast::TsType::TsTupleType(x) => tuple_of(x),
        ast::TsType::TsUnionOrIntersectionType(u) => TypeAnn::Union(union_of(u)),
        ast::TsType::TsTypeLit(l) => type_lit_of(l),
        ast::TsType::TsParenthesizedType(p) => TypeAnn::Paren(Box::new(type_of(&p.type_ann))),
        ast::TsType::TsLitType(l) => lit_type_of(l, t),
        other => TypeAnn::Other(format!("{:?}", other)),
    }
}

/// A member of an interface or an inline object type.
#[verifier::external_body]
fn member_of(m: &ast::TsTypeElement) -> (r: TsMember) {
    match m {
        ast::TsTypeElement::TsPropertySignature(p) => TsMember::Property {
            key: p.key.as_ident().map(|i| i.sym.to_string()),
            optional: p.optional,
            type_ann: p.type_ann.as_ref().map(|a| type_of(&a.type_ann)),
        },
        _ => TsMember::Other,
    }
}

/// The declarators of a variable declaration.
#[verifier::external_body]
fn vars_of(cm: &SourceMap, v: &ast::VarDecl) -> (r: Vec<TsVarDecl>) {
    v.decls.iter().map(|x| var_of(cm, x)).collect()
}

/// The item an exported declaration stands for, if the frontend reads it.
#[verifier::external_body]
fn export_item(cm: &SourceMap, d: &ast::Decl) -> (r: Option<TsItem>) {
    match d {
        ast::Decl::Fn(f) => Some(TsItem::ExportFn { name: f.ident.sym.to_string(), func: function_of(cm, &f.function) }),
        ast::Decl::Var(v) => Some(TsItem::ExportVars(vars_of(cm, v))),
        ast::Decl::TsInterface(i) => Some(TsItem::ExportInterface(interface_of(cm, i))),
        ast::Decl::TsTypeAlias(a) => Some(TsItem::ExportTypeAlias(alias_of(cm, a))),
        ast::Decl::TsEnum(e) => Some(TsItem::ExportEnum(enum_of(cm, e))),
        _ => None,
    }
}

/// The item a default export stands for, if it is a function.
#[verifier::external_body]
fn default_item(cm: &SourceMap, d: &ast::ExportDefaultDecl) -> (r: Option<TsItem>) {
    match &d.decl {
        ast::DefaultDecl::Fn(f) => Some(TsItem::ExportDefaultFn {
            ident: f.ident.as_ref().map(|i| i.sym.to_string()),
            func: function_of(cm, &f.function),
        }),
        _ => None,
    }
}

/// The name of the first entity met by a walk, when it is a plain identifier.
pub struct FirstEntity {
    found: Option<Option<String>>,
}

impl Visit for FirstEntity {
    /// Keeps the first entity name met; a qualified name gives no identifier.
    #[verifier::external_body]
    fn visit_ts_entity_name(&mut self, n: &ast::TsEntityName) {
        if self.found.is_none() {
            self.found = Some(n.as_ident().map(|ident| ident.sym.to_string()));
        }
    }
}

impl Visit for Collector {
    /// Records an exported declaration, then walks into it.
    #[verifier::external_body]
    fn visit_export_decl(&mut self, n: &ast::ExportDecl) {
        if let Some(item) = export_item(&self.cm, &n.decl) {
            self.items.push(item);
        }
        n.visit_children_with(self);
    }

    /// Records a default-exported function, then walks into it.
    #[verifier::external_body]
    fn visit_export_default_decl(&mut self, n: &ast::ExportDefaultDecl) {
        if let Some(item) = default_item(&self.cm, n) {
            self.items.push(item);
        }
        n.visit_children_with(self);
    }

    /// Records an interface declaration, then walks into it.
    #[verifier::external_body]
    fn visit_ts_interface_decl(&mut self, n: &ast::TsInterfaceDecl) {
        let item = TsItem::Interface(interface_of(&self.cm, n));
        self.items.push(item);
        n.visit_children_with(self);
    }

    /// Records a type alias declaration, then walks into it.
    #[verifier::external_body]
    fn visit_ts_type_alias_decl(&mut self, n: &ast::TsTypeAliasDecl) {
        let item = TsItem::TypeAlias(alias_of(&self.cm, n));
        self.items.push(item);
        n.visit_children_with(self);
    }

    /// Records an enum declaration, then walks into it.
    #[verifier::external_body]
    fn visit_ts_enum_decl(&mut self, n: &ast::TsEnumDecl) {
        let item = TsItem::Enum(enum_of(&self.cm, n));
        self.items.push(item);
        n.visit_children_with(self);
    }
}

} // verus!
