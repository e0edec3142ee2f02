//! A WIT world for a function described only by its configuration: one
//! exported function whose parameters and result come from the payload and
//! return type named there.

use vstd::prelude::*;
use crate::config::Config;
use crate::errors::WdsmError;
use crate::text::{join, join_strings, owned, str_eq, strings_view};

verus! {

/// The WIT type for a configuration type name; unknown names are strings.
pub open spec fn wit_type_name(t: Seq<char>) -> Seq<char> {
    if t == "string"@ || t == "str"@ {
        "string"@
    } else if t == "int"@ || t == "i32"@ {
        "s32"@
    } else if t == "i64"@ {
        "s64"@
    } else if t == "float"@ || t == "f32"@ {
        "f32"@
    } else if t == "f64"@ {
        "f64"@
    } else if t == "boolean"@ || t == "bool"@ {
        "bool"@
    } else {
        "string"@
    }
}

/// The model of a payload: each entry's (name, type) pairs.
pub open spec fn payload_view(p: Seq<Vec<(String, String)>>) -> Seq<Seq<(Seq<char>, Seq<char>)>> {
    p.map_values(|e: Vec<(String, String)>| e@.map_values(|kv: (String, String)| (kv.0@, kv.1@)))
}

/// The WIT parameter declarations of a payload, entry after entry.
pub open spec fn payload_params(entries: Seq<Seq<(Seq<char>, Seq<char>)>>) -> Seq<Seq<char>>
    decreases entries.len(),
{
    if entries.len() == 0 {
        Seq::empty()
    } else {
        payload_params(entries.drop_last()) + entries.last().map_values(
            |kv: (Seq<char>, Seq<char>)| kv.0 + ": "@ + wit_type_name(kv.1),
        )
    }
}

/// The WIT signature of the function `name` with the given payload and return type.
pub open spec fn fn_sign(name: Seq<char>, entries: Seq<Seq<(Seq<char>, Seq<char>)>>, ret: Seq<char>) -> Seq<char> {
    name + ": func("@ + join(payload_params(entries), ", "@) + ") -> "@ + wit_type_name(ret)
}

/// The WIT world generated for a configuration.
pub open spec fn config_wit(c: Config) -> Seq<char> {
    "package wdsm:"@ + c.name@ + ";\n\n"@ + "world "@ + c.name@ + " {\n"@ + "  export "@
        + fn_sign(c.entrypoint_function@, payload_view(c.payload@), c.return_type@) + ";\n"@ + "}\n"@
}

/// The WIT type for a configuration type name.
pub fn map_type(type_str: &str) -> (r: &'static str)
    ensures
        r@ == wit_type_name(type_str@),
{
    if str_eq(type_str, "string") || str_eq(type_str, "str") {
        "string"
    } else if str_eq(type_str, "int") || str_eq(type_str, "i32") {
        "s32"
    } else if str_eq(type_str, "i64") {
        "s64"
    } else if str_eq(type_str, "float") || str_eq(type_str, "f32") {
        "f32"
    } else if str_eq(type_str, "f64") {
        "f64"
    } else if str_eq(type_str, "boolean") || str_eq(type_str, "bool") {
        "bool"
    } else {
        "string"
    }
}

/// The WIT signature of the exported function `func_name`.
pub fn gen_fn_sign(func_name: &str, config: &Config) -> (r: String)
    ensures
        r@ == fn_sign(func_name@, payload_view(config.payload@), config.return_type@),
{
    let ghost pv = payload_view(config.payload@);
    let mut params: Vec<String> = Vec::new();
    let mut i: usize = 0;
    while i < config.payload.len()
        invariant
            i <= config.payload@.len(),
            pv == payload_view(config.payload@),
            strings_view(params@) == payload_params(pv.subrange(0, i as int)),
        decreases config.payload.len() - i,
    {
        let entry = &config.payload[i];
        let ghost ev = pv[i as int];
        assert(pv.subrange(0, i + 1).drop_last() =~= pv.subrange(0, i as int));
        assert(pv.subrange(0, i + 1).last() == ev);
        let ghost before = strings_view(params@);
        let mut k: usize = 0;
        while k < entry.len()
            invariant
                k <= entry@.len(),
                ev == entry@.map_values(|kv: (String, String)| (kv.0@, kv.1@)),
                strings_view(params@) == before + ev.subrange(0, k as int).map_values(
                    |kv: (Seq<char>, Seq<char>)| kv.0 + ": "@ + wit_type_name(kv.1),
                ),
            decreases entry.len() - k,
        {
            let (name, ty) = &entry[k];
            let mut p = owned(name.as_str());
            p.append(": ");
            p.append(map_type(ty.as_str()));
            let ghost pb = params@;
            params.push(p);
            assert(strings_view(params@) =~= strings_view(pb).push(p@));
            assert(ev.subrange(0, k + 1).map_values(|kv: (Seq<char>, Seq<char>)| kv.0 + ": "@ + wit_type_name(kv.1))
                =~= ev.subrange(0, k as int).map_values(|kv: (Seq<char>, Seq<char>)| kv.0 + ": "@ + wit_type_name(kv.1))
                .push(p@));
            k = k + 1;
        }
        assert(ev.subrange(0, entry@.len() as int) =~= ev);
        i = i + 1;
    }
    assert(pv.subrange(0, config.payload@.len() as int) =~= pv);
    let joined = join_strings(&params, ", ");
    let mut r = owned(func_name);
    r.append(": func(");
    r.append(joined.as_str());
    r.append(") -> ");
    r.append(map_type(config.return_type.as_str()));
    r
}

/// The WIT world for a configuration: package `wdsm:<name>`, and a world
/// `<name>` exporting the entry-point function.
pub fn generate(config: &Config) -> (r: Result<String, WdsmError>)
    ensures
        r matches Ok(s) && s@ == config_wit(*config),
{
    let mut wit = owned("package wdsm:");
    wit.append(config.name.as_str());
    wit.append(";\n\n");
    wit.append("world ");
    wit.append(config.name.as_str());
    wit.append(" {\n");
    let sign = gen_fn_sign(config.entrypoint_function.as_str(), config);
    wit.append("  export ");
    wit.append(sign.as_str());
    wit.append(";\n");
    wit.append("}\n");
    Ok(wit)
}

} // verus!
