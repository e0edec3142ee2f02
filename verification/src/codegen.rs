//! Emission of WIT text from the intermediate representation.

use vstd::prelude::*;
use vstd::string::*;
use crate::ir::{
    wit_str, AliasDef, EnumDef, FlagsDef, FunctionDef, ParamDef, RecordDef, ReturnType, SpecAliasDef,
    SpecEnumDef, SpecFieldDef, SpecFlagsDef, SpecFunctionDef, SpecParamDef, SpecRecordDef, SpecReturnType,
    SpecTypeDef, SpecVariantCase, SpecVariantDef, SpecWitIR, TypeDef, VariantDef, WitIR, FieldDef, VariantCase,
};
use crate::text::{join, lemma_join_push, owned};

verus! {

/// The WIT lines of record fields.
pub open spec fn fields_text(fs: Seq<SpecFieldDef>) -> Seq<char>
    decreases fs.len(),
{
    if fs.len() == 0 {
        Seq::empty()
    } else {
        fields_text(fs.drop_last()) + "    "@ + fs.last().wit_name + ": "@ + wit_str(fs.last().ty) + ",\n"@
    }
}

/// The WIT text of a record.
pub open spec fn record_text(r: SpecRecordDef) -> Seq<char> {
    "  record "@ + r.wit_name + " {\n"@ + fields_text(r.fields) + "  }\n"@
}

/// The WIT line of one variant case.
pub open spec fn case_text(c: SpecVariantCase) -> Seq<char> {
    match c.payload {
        Some(t) => "    "@ + c.name + "("@ + wit_str(t) + "),\n"@,
        None => "    "@ + c.name + ",\n"@,
    }
}

/// The WIT lines of variant cases.
pub open spec fn cases_text(cs: Seq<SpecVariantCase>) -> Seq<char>
    decreases cs.len(),
{
    if cs.len() == 0 {
        Seq::empty()
    } else {
        cases_text(cs.drop_last()) + case_text(cs.last())
    }
}

/// The WIT text of a variant.
pub open spec fn variant_text(v: SpecVariantDef) -> Seq<char> {
    "  variant "@ + v.wit_name + " {\n"@ + cases_text(v.cases) + "  }\n"@
}

/// The WIT lines of bare names, one per line.
pub open spec fn items_text(items: Seq<Seq<char>>) -> Seq<char>
    decreases items.len(),
{
    if items.len() == 0 {
        Seq::empty()
    } else {
        items_text(items.drop_last()) + "    "@ + items.last() + ",\n"@
    }
}

/// The WIT text of an enum.
pub open spec fn enum_text(e: SpecEnumDef) -> Seq<char> {
    "  enum "@ + e.wit_name + " {\n"@ + items_text(e.cases) + "  }\n"@
}

/// The WIT text of a flags type.
pub open spec fn flags_text(f: SpecFlagsDef) -> Seq<char> {
    "  flags "@ + f.wit_name + " {\n"@ + items_text(f.flags) + "  }\n"@
}

/// The WIT text of a type alias.
pub open spec fn alias_text(a: SpecAliasDef) -> Seq<char> {
    "  type "@ + a.wit_name + " = "@ + wit_str(a.target) + ";\n"@
}

/// The WIT text of a type definition.
pub open spec fn typedef_text(td: SpecTypeDef) -> Seq<char> {
    match td {
        SpecTypeDef::Record(r) => record_text(r),
        SpecTypeDef::Variant(v) => variant_text(v),
        SpecTypeDef::Enum(e) => enum_text(e),
        SpecTypeDef::Flags(f) => flags_text(f),
        SpecTypeDef::Alias(a) => alias_text(a),
    }
}

/// The WIT spelling `name: type` of a parameter.
pub open spec fn param_text(p: SpecParamDef) -> Seq<char> {
    p.wit_name + ": "@ + wit_str(p.ty)
}

/// The WIT export line of a function.
pub open spec fn function_text(f: SpecFunctionDef) -> Seq<char> {
    let params = join(f.params.map_values(|p: SpecParamDef| param_text(p)), ", "@);
    match f.returns {
        SpecReturnType::Void => "  export "@ + f.wit_name + ": func("@ + params + ");\n"@,
        SpecReturnType::Type(t) => "  export "@ + f.wit_name + ": func("@ + params + ") -> "@ + wit_str(t) + ";\n"@,
    }
}

/// The WIT text of the type definitions, each followed by an empty line.
pub open spec fn types_text(ts: Seq<SpecTypeDef>) -> Seq<char>
    decreases ts.len(),
{
    if ts.len() == 0 {
        Seq::empty()
    } else {
        types_text(ts.drop_last()) + typedef_text(ts.last()) + "\n"@
    }
}

/// The WIT export lines of the functions.
pub open spec fn functions_text(fs: Seq<SpecFunctionDef>) -> Seq<char>
    decreases fs.len(),
{
    if fs.len() == 0 {
        Seq::empty()
    } else {
        functions_text(fs.drop_last()) + function_text(fs.last())
    }
}

/// The complete WIT document of a module.
pub open spec fn wit_text(ir: SpecWitIR) -> Seq<char> {
    "package "@ + ir.package + ";\n\n"@ + "world "@ + ir.world_name + " {\n"@ + types_text(ir.types)
        + functions_text(ir.functions) + "}\n"@
}

/// Renders the whole module as a WIT package with one world: every type
/// definition, then every exported function.
pub fn generate_wit(ir: &WitIR) -> (r: String)
    ensures
        r@ == wit_text(ir@),
{
    let mut wit = owned("package ");
    wit.append(ir.package.as_str());
    wit.append(";\n\n");
    wit.append("world ");
    wit.append(ir.world_name.as_str());
    wit.append(" {\n");
    let ghost prefix = wit@;
    let ghost tv = ir@.types;
    let mut i: usize = 0;
    while i < ir.types.len()
        invariant
            i <= ir.types@.len(),
            tv == ir@.types,
            wit@ == prefix + types_text(tv.subrange(0, i as int)),
        decreases ir.types.len() - i,
    {
        assert(tv.subrange(0, i + 1).drop_last() =~= tv.subrange(0, i as int));
        match &ir.types[i] {
            TypeDef::Record(rec) => emit_record(&mut wit, rec),
            TypeDef::Variant(var) => emit_variant(&mut wit, var),
            TypeDef::Enum(enm) => emit_enum(&mut wit, enm),
            TypeDef::Flags(flags) => emit_flags(&mut wit, flags),
            TypeDef::Alias(alias) => emit_alias(&mut wit, alias),
        }
        wit.append("\n");
        i = i + 1;
    }
    assert(tv.subrange(0, tv.len() as int) =~= tv);
    let ghost prefix2 = wit@;
    let ghost fv = ir@.functions;
    let mut j: usize = 0;
    while j < ir.functions.len()
        invariant
            j <= ir.functions@.len(),
            fv == ir@.functions,
            wit@ == prefix2 + functions_text(fv.subrange(0, j as int)),
        decreases ir.functions.len() - j,
    {
        assert(fv.subrange(0, j + 1).drop_last() =~= fv.subrange(0, j as int));
        emit_function(&mut wit, &ir.functions[j]);
        j = j + 1;
    }
    assert(fv.subrange(0, fv.len() as int) =~= fv);
    wit.append("}\n");
    wit
}

/// Appends the WIT text of a record.
fn emit_record(wit: &mut String, rec: &RecordDef)
    ensures
        final(wit)@ == old(wit)@ + record_text(rec@),
{
    let ghost w0 = wit@;
    wit.append("  record ");
    wit.append(rec.wit_name.as_str());
    wit.append(" {\n");
    let ghost prefix = wit@;
    let ghost fv = rec@.fields;
    let mut i: usize = 0;
    while i < rec.fields.len()
        invariant
            i <= rec.fields@.len(),
            fv == rec@.fields,
            wit@ == prefix + fields_text(fv.subrange(0, i as int)),
        decreases rec.fields.len() - i,
    {
        assert(fv.subrange(0, i + 1).drop_last() =~= fv.subrange(0, i as int));
        let field: &FieldDef = &rec.fields[i];
        let ty = field.ty.to_wit_str();
        wit.append("    ");
        wit.append(field.wit_name.as_str());
        wit.append(": ");
        wit.append(ty.as_str());
        wit.append(",\n");
        i = i + 1;
    }
    assert(fv.subrange(0, fv.len() as int) =~= fv);
    wit.append("  }\n");
}

/// Appends the WIT text of a variant.
fn emit_variant(wit: &mut String, var: &VariantDef)
    ensures
        final(wit)@ == old(wit)@ + variant_text(var@),
{
    wit.append("  variant ");
    wit.append(var.wit_name.as_str());
    wit.append(" {\n");
    let ghost prefix = wit@;
    let ghost cv = var@.cases;
    let mut i: usize = 0;
    while i < var.cases.len()
        invariant
            i <= var.cases@.len(),
            cv == var@.cases,
            wit@ == prefix + cases_text(cv.subrange(0, i as int)),
        decreases var.cases.len() - i,
    {
        assert(cv.subrange(0, i + 1).drop_last() =~= cv.subrange(0, i as int));
        let case: &VariantCase = &var.cases[i];
        match &case.payload {
            Some(payload) => {
                let ty = payload.to_wit_str();
                wit.append("    ");
                wit.append(case.name.as_str());
                wit.append("(");
                wit.append(ty.as_str());
                wit.append("),\n");
            },
            None => {
                wit.append("    ");
                wit.append(case.name.as_str());
                wit.append(",\n");
            },
        }
        i = i + 1;
    }
    assert(cv.subrange(0, cv.len() as int) =~= cv);
    wit.append("  }\n");
}

/// Appends one line per name.
fn emit_items(wit: &mut String, items: &Vec<String>)
    ensures
        final(wit)@ == old(wit)@ + items_text(items@.map_values(|s: String| s@)),
{
    let ghost prefix = wit@;
    let ghost iv = items@.map_values(|s: String| s@);
    let mut i: usize = 0;
    while i < items.len()
        invariant
            i <= items@.len(),
            iv == items@.map_values(|s: String| s@),
            wit@ == prefix + items_text(iv.subrange(0, i as int)),
        decreases items.len() - i,
    {
        assert(iv.subrange(0, i + 1).drop_last() =~= iv.subrange(0, i as int));
        wit.append("    ");
        wit.append(items[i].as_str());
        wit.append(",\n");
        i = i + 1;
    }
    assert(iv.subrange(0, iv.len() as int) =~= iv);
}

/// Appends the WIT text of an enum.
fn emit_enum(wit: &mut String, enm: &EnumDef)
    ensures
        final(wit)@ == old(wit)@ + enum_text(enm@),
{
    wit.append("  enum ");
    wit.append(enm.wit_name.as_str());
    wit.append(" {\n");
    emit_items(wit, &enm.cases);
    wit.append("  }\n");
}

/// Appends the WIT text of a flags type.
fn emit_flags(wit: &mut String, flags: &FlagsDef)
    ensures
        final(wit)@ == old(wit)@ + flags_text(flags@),
{
    wit.append("  flags ");
    wit.append(flags.wit_name.as_str());
    wit.append(" {\n");
    emit_items(wit, &flags.flags);
    wit.append("  }\n");
}

/// Appends the WIT text of a type alias.
fn emit_alias(wit: &mut String, alias: &AliasDef)
    ensures
        final(wit)@ == old(wit)@ + alias_text(alias@),
{
    let target = alias.target.to_wit_str();
    wit.append("  type ");
    wit.append(alias.wit_name.as_str());
    wit.append(" = ");
    wit.append(target.as_str());
    wit.append(";\n");
}

/// The parameter list of a function, as WIT spells it.
fn params_list(params: &Vec<ParamDef>) -> (r: String)
    ensures
        r@ == join(params@.map_values(|p: ParamDef| p@).map_values(|p: SpecParamDef| param_text(p)), ", "@),
{
    let ghost pv = params@.map_values(|p: ParamDef| p@).map_values(|p: SpecParamDef| param_text(p));
    let mut r = String::new();
    let mut i: usize = 0;
    while i < params.len()
        invariant
            i <= params@.len(),
            pv == params@.map_values(|p: ParamDef| p@).map_values(|p: SpecParamDef| param_text(p)),
            r@ == join(pv.subrange(0, i as int), ", "@),
        decreases params.len() - i,
    {
        proof {
            lemma_join_push(pv.subrange(0, i as int), ", "@, pv[i as int]);
            assert(pv.subrange(0, i as int).push(pv[i as int]) =~= pv.subrange(0, i + 1));
        }
        let p: &ParamDef = &params[i];
        let ty = p.ty.to_wit_str();
        if i > 0 {
            r.append(", ");
        }
        r.append(p.wit_name.as_str());
        r.append(": ");
        r.append(ty.as_str());
        i = i + 1;
    }
    assert(pv.subrange(0, pv.len() as int) =~= pv);
    r
}

/// Appends the export line of a function.
fn emit_function(wit: &mut String, func: &FunctionDef)
    ensures
        final(wit)@ == old(wit)@ + function_text(func@),
{
    let params = params_list(&func.params);
    assert(func@.params.map_values(|p: SpecParamDef| param_text(p))
        =~= func.params@.map_values(|p: ParamDef| p@).map_values(|p: SpecParamDef| param_text(p)));
    match &func.returns {
        ReturnType::Void => {
            wit.append("  export ");
            wit.append(func.wit_name.as_str());
            wit.append(": func(");
            wit.append(params.as_str());
            wit.append(");\n");
        },
        ReturnType::Type(ty) => {
            let t = ty.to_wit_str();
            wit.append("  export ");
            wit.append(func.wit_name.as_str());
            wit.append(": func(");
            wit.append(params.as_str());
            wit.append(") -> ");
            wit.append(t.as_str());
            wit.append(";\n");
        },
    }
}

/// Whether `p` occurs in `s` as a contiguous part.
pub open spec fn occurs_in(p: Seq<char>, s: Seq<char>) -> bool {
    exists|i: int| 0 <= i && i + p.len() <= s.len() && #[trigger] s.subrange(i, i + p.len()) == p
}

proof fn lemma_occurs_left(p: Seq<char>, a: Seq<char>, b: Seq<char>)
    requires
        occurs_in(p, a),
    ensures
        occurs_in(p, a + b),
{
    let i = choose|i: int| 0 <= i && i + p.len() <= a.len() && #[trigger] a.subrange(i, i + p.len()) == p;
    assert((a + b).subrange(i, i + p.len()) =~= a.subrange(i, i + p.len()));
}

proof fn lemma_occurs_right(p: Seq<char>, a: Seq<char>, b: Seq<char>)
    requires
        occurs_in(p, b),
    ensures
        occurs_in(p, a + b),
{
    let i = choose|i: int| 0 <= i && i + p.len() <= b.len() && #[trigger] b.subrange(i, i + p.len()) == p;
    assert((a + b).subrange(a.len() + i, a.len() + i + p.len()) =~= b.subrange(i, i + p.len()));
}

proof fn lemma_occurs_self(p: Seq<char>)
    ensures
        occurs_in(p, p),
{
    assert(p.subrange(0int, 0int + p.len()) =~= p);
}

proof fn lemma_occurs_trans(p: Seq<char>, q: Seq<char>, r: Seq<char>)
    requires
        occurs_in(p, q),
        occurs_in(q, r),
    ensures
        occurs_in(p, r),
{
    let a = choose|a: int| 0 <= a && a + q.len() <= r.len() && #[trigger] r.subrange(a, a + q.len()) == q;
    let b = choose|b: int| 0 <= b && b + p.len() <= q.len() && #[trigger] q.subrange(b, b + p.len()) == p;
    assert(r.subrange(a + b, a + b + p.len()) =~= q.subrange(b, b + p.len()));
}

proof fn lemma_payload_in_line(name: Seq<char>, w: Seq<char>)
    ensures
        occurs_in("("@ + w + ")"@, "    "@ + name + "("@ + w + "),\n"@),
{
    reveal_strlit("),\n");
    reveal_strlit(")");
    reveal_strlit("(");
    reveal_strlit(",\n");
    assert("),\n"@ =~= ")"@ + ",\n"@);
    let inner = "("@ + w + ")"@;
    let line = "    "@ + name + "("@ + w + "),\n"@;
    assert(line =~= ("    "@ + name) + inner + ",\n"@);
    lemma_occurs_self(inner);
    lemma_occurs_right(inner, "    "@ + name, inner);
    lemma_occurs_left(inner, ("    "@ + name) + inner, ",\n"@);
}

proof fn lemma_case_in_cases(cs: Seq<SpecVariantCase>, k: int)
    requires
        0 <= k < cs.len(),
    ensures
        occurs_in(case_text(cs[k]), cases_text(cs)),
    decreases cs.len(),
{
    if k == cs.len() - 1 {
        lemma_occurs_self(case_text(cs[k]));
        lemma_occurs_right(case_text(cs[k]), cases_text(cs.drop_last()), case_text(cs.last()));
    } else {
        lemma_case_in_cases(cs.drop_last(), k);
        assert(cs.drop_last()[k] == cs[k]);
        lemma_occurs_left(case_text(cs[k]), cases_text(cs.drop_last()), case_text(cs.last()));
    }
}

proof fn lemma_typedef_in_types(ts: Seq<SpecTypeDef>, i: int)
    requires
        0 <= i < ts.len(),
    ensures
        occurs_in(typedef_text(ts[i]), types_text(ts)),
    decreases ts.len(),
{
    let p = typedef_text(ts[i]);
    if i == ts.len() - 1 {
        lemma_occurs_self(p);
        lemma_occurs_left(p, p, "\n"@);
        lemma_occurs_right(p, types_text(ts.drop_last()), p + "\n"@);
        assert(types_text(ts) =~= types_text(ts.drop_last()) + (p + "\n"@));
    } else {
        lemma_typedef_in_types(ts.drop_last(), i);
        assert(ts.drop_last()[i] == ts[i]);
        lemma_occurs_left(p, types_text(ts.drop_last()), typedef_text(ts.last()));
        lemma_occurs_left(p, types_text(ts.drop_last()) + typedef_text(ts.last()), "\n"@);
    }
}

/// Every case of every variant of a module keeps its payload in the WIT
/// document: the case's line `name(type),` with the payload's WIT spelling
/// occurs in it, and so does `(type)`.
pub proof fn law_variant_payloads_are_emitted(ir: SpecWitIR, i: int, v: SpecVariantDef, k: int, t: crate::ir::SpecIRType)
    requires
        0 <= i < ir.types.len(),
        ir.types[i] == SpecTypeDef::Variant(v),
        0 <= k < v.cases.len(),
        v.cases[k].payload == Some(t),
    ensures
        occurs_in("    "@ + v.cases[k].name + "("@ + wit_str(t) + "),\n"@, wit_text(ir)),
        occurs_in("("@ + wit_str(t) + ")"@, wit_text(ir)),
{
    let line = "    "@ + v.cases[k].name + "("@ + wit_str(t) + "),\n"@;
    let inner = "("@ + wit_str(t) + ")"@;
    assert(case_text(v.cases[k]) == line);
    lemma_case_in_cases(v.cases, k);
    let head = "  variant "@ + v.wit_name + " {\n"@;
    lemma_occurs_right(line, head, cases_text(v.cases));
    lemma_occurs_left(line, head + cases_text(v.cases), "  }\n"@);
    assert(typedef_text(ir.types[i]) == head + cases_text(v.cases) + "  }\n"@);
    lemma_typedef_in_types(ir.types, i);
    let vt = typedef_text(ir.types[i]);
    let tt = types_text(ir.types);
    lemma_occurs_trans(line, vt, tt);
    let pre = "package "@ + ir.package + ";\n\n"@ + "world "@ + ir.world_name + " {\n"@;
    lemma_occurs_self(tt);
    lemma_occurs_right(tt, pre, tt);
    lemma_occurs_left(tt, pre + tt, functions_text(ir.functions));
    lemma_occurs_left(tt, pre + tt + functions_text(ir.functions), "}\n"@);
    assert(wit_text(ir) == pre + tt + functions_text(ir.functions) + "}\n"@);
    lemma_occurs_trans(line, tt, wit_text(ir));
    lemma_payload_in_line(v.cases[k].name, wit_str(t));
    lemma_occurs_trans(inner, line, wit_text(ir));
}

} // verus!
