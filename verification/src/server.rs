//! The decisions of the function server: the sandbox a component runs in,
//! how its exported function is looked up, how request parameters are
//! matched, and how a deployment is routed and recorded.

use vstd::prelude::*;
use heck::ToKebabCase;
use crate::config::{CapabilitiesConfig, Config};
use crate::registry::FnService;
use crate::text::{owned, str_eq, strings_view};

verus! {

// ---------------------------------------------------------------------------
// Sandbox
// ---------------------------------------------------------------------------

/// A host directory to open for the component.
#[derive(Debug)]
pub struct Preopen {
    pub host: String,
    pub guest: String,
    /// Read-only when set; full access otherwise.
    pub read_only: bool,
}

/// What the WASI context of a component is built with.
#[derive(Debug)]
pub struct WasiPlan {
    pub inherit_stdio: bool,
    pub inherit_env: bool,
    /// Host variables to pass through, each when it is set.
    pub env_vars: Vec<String>,
    pub inherit_network: bool,
    pub allow_ip_name_lookup: bool,
    pub allow_tcp: bool,
    pub allow_udp: bool,
    pub preopens: Vec<Preopen>,
    /// Whether the outbound HTTP interfaces are linked.
    pub http: bool,
}

/// Builds the sandbox of a component from its capabilities.
#[derive(Debug)]
pub struct ContextBuilder;

impl ContextBuilder {
    /// The sandbox that `cap` grants: standard streams and environment as
    /// configured, the network when any network capability is on, name
    /// lookups, TCP and UDP each as configured, the configured directories,
    /// and the HTTP interfaces when HTTP is on.
    pub fn build_plan(cap: &CapabilitiesConfig) -> (r: WasiPlan)
        ensures
            r.inherit_stdio == cap.stdio,
            r.inherit_env == cap.env.inherit,
            strings_view(r.env_vars@) == strings_view(cap.env.vars@),
            r.inherit_network == (cap.network.tcp || cap.network.udp || cap.network.dns || cap.network.http),
            r.allow_ip_name_lookup == cap.network.dns,
            r.allow_tcp == cap.network.tcp,
            r.allow_udp == cap.network.udp,
            r.http == cap.network.http,
            r.preopens@.len() == cap.filesystem@.len(),
            forall|i: int| 0 <= i < r.preopens@.len() ==> {
                &&& (#[trigger] r.preopens@[i]).host@ == cap.filesystem@[i].host@
                &&& r.preopens@[i].guest@ == cap.filesystem@[i].guest@
                &&& r.preopens@[i].read_only == cap.filesystem@[i].read_only
            },
    {
        let env_vars = crate::text::duplicate_strings(&cap.env.vars);
        let mut preopens: Vec<Preopen> = Vec::new();
        let mut i: usize = 0;
        while i < cap.filesystem.len()
            invariant
                i <= cap.filesystem@.len(),
                preopens@.len() == i,
                forall|k: int| 0 <= k < i ==> {
                    &&& (#[trigger] preopens@[k]).host@ == cap.filesystem@[k].host@
                    &&& preopens@[k].guest@ == cap.filesystem@[k].guest@
                    &&& preopens@[k].read_only == cap.filesystem@[k].read_only
                },
            decreases cap.filesystem.len() - i,
        {
            let v = &cap.filesystem[i];
            preopens.push(Preopen { host: owned(v.host.as_str()), guest: owned(v.guest.as_str()), read_only: v.read_only });
            i = i + 1;
        }
        let n = cap.network;
        WasiPlan {
            inherit_stdio: cap.stdio,
            inherit_env: cap.env.inherit,
            env_vars: env_vars,
            inherit_network: n.tcp || n.udp || n.dns || n.http,
            allow_ip_name_lookup: n.dns,
            allow_tcp: n.tcp,
            allow_udp: n.udp,
            preopens: preopens,
            http: n.http,
        }
    }

    /// Whether the outbound HTTP interfaces are linked: exactly when HTTP is on.
    pub fn links_http(cap: &CapabilitiesConfig) -> (r: bool)
        ensures
            r == cap.network.http,
    {
        cap.network.http
    }
}

// ---------------------------------------------------------------------------
// Finding the exported function
// ---------------------------------------------------------------------------

/// The kebab-case form of a name, as `heck::ToKebabCase` writes it.
pub uninterp spec fn heck_kebab(s: Seq<char>) -> Seq<char>;

/// `heck::ToKebabCase::to_kebab_case` on a string.
#[verifier::external_body]
fn to_kebab(s: &str) -> (r: String)
    ensures
        r@ == heck_kebab(s@),
{
    s.to_kebab_case()
}

/// The names under which the exported function `func_name` of the world
/// `world_name` is looked up, in order: as written and in kebab case, bare,
/// under the world, and under the package of the world.
pub open spec fn candidates(func_name: Seq<char>, world_name: Seq<char>) -> Seq<Seq<char>> {
    let k = heck_kebab(func_name);
    seq![
        func_name,
        k,
        world_name + "/"@ + func_name,
        world_name + "/"@ + k,
        "wdsm:"@ + world_name + "/"@ + func_name,
        "wdsm:"@ + world_name + "/"@ + k,
    ]
}

fn join3(a: &str, b: &str, c: &str) -> (r: String)
    ensures
        r@ == a@ + b@ + c@,
{
    let mut r = owned(a);
    r.append(b);
    r.append(c);
    r
}

/// The names to look the exported function up under.
pub fn candidate_names(func_name: &str, world_name: &str) -> (r: Vec<String>)
    ensures
        strings_view(r@) == candidates(func_name@, world_name@),
{
    let kebab = to_kebab(func_name);
    let mut package = owned("wdsm:");
    package.append(world_name);
    let mut r: Vec<String> = Vec::new();
    r.push(owned(func_name));
    r.push(owned(kebab.as_str()));
    r.push(join3(world_name, "/", func_name));
    r.push(join3(world_name, "/", kebab.as_str()));
    r.push(join3(package.as_str(), "/", func_name));
    r.push(join3(package.as_str(), "/", kebab.as_str()));
    assert(strings_view(r@) =~= candidates(func_name@, world_name@));
    r
}

// ---------------------------------------------------------------------------
// Parameters
// ---------------------------------------------------------------------------

/// The parameter names of a payload, entry after entry.
pub open spec fn payload_names(entries: Seq<Seq<(Seq<char>, Seq<char>)>>) -> Seq<Seq<char>>
    decreases entries.len(),
{
    if entries.len() == 0 {
        Seq::empty()
    } else {
        payload_names(entries.drop_last()) + entries.last().map_values(|kv: (Seq<char>, Seq<char>)| kv.0)
    }
}

/// The parameter names of the configured payload, in order.
pub fn param_names(config: &Config) -> (r: Vec<String>)
    ensures
        strings_view(r@) == payload_names(crate::wit_generator::payload_view(config.payload@)),
{
    let ghost pv = crate::wit_generator::payload_view(config.payload@);
    let mut names: Vec<String> = Vec::new();
    let mut i: usize = 0;
    while i < config.payload.len()
        invariant
            i <= config.payload@.len(),
            pv == crate::wit_generator::payload_view(config.payload@),
            strings_view(names@) == payload_names(pv.subrange(0, i as int)),
        decreases config.payload.len() - i,
    {
        let entry = &config.payload[i];
        let ghost ev = pv[i as int];
        assert(pv.subrange(0, i + 1).drop_last() =~= pv.subrange(0, i as int));
        assert(pv.subrange(0, i + 1).last() == ev);
        let ghost before = strings_view(names@);
        let mut k: usize = 0;
        while k < entry.len()
            invariant
                k <= entry@.len(),
                ev == entry@.map_values(|kv: (String, String)| (kv.0@, kv.1@)),
                strings_view(names@) == before + ev.subrange(0, k as int).map_values(|kv: (Seq<char>, Seq<char>)| kv.0),
            decreases entry.len() - k,
        {
            let ghost nb = names@;
            names.push(owned(entry[k].0.as_str()));
            assert(strings_view(names@) =~= strings_view(nb).push(ev[k as int].0));
            assert(ev.subrange(0, k + 1).map_values(|kv: (Seq<char>, Seq<char>)| kv.0)
                =~= ev.subrange(0, k as int).map_values(|kv: (Seq<char>, Seq<char>)| kv.0).push(ev[k as int].0));
            k = k + 1;
        }
        assert(ev.subrange(0, entry@.len() as int) =~= ev);
        i = i + 1;
    }
    assert(pv.subrange(0, config.payload@.len() as int) =~= pv);
    names
}

/// The message for a payload whose size differs from the function's.
pub open spec fn arity_message(configured: nat, expected: nat) -> Seq<char> {
    "Config payload has "@ + crate::text::decimal(configured) + " params but WASM function expects "@
        + crate::text::decimal(expected)
}

/// Checks that the configured payload has as many parameters as the
/// exported function takes.
pub fn check_arity(configured: usize, expected: usize) -> (r: Result<(), String>)
    ensures
        (r is Ok) <==> configured == expected,
        r matches Err(m) ==> m@ == arity_message(configured as nat, expected as nat),
{
    if configured == expected {
        Ok(())
    } else {
        let mut m = owned("Config payload has ");
        let a = crate::text::u64_to_decimal(configured as u64);
        m.append(a.as_str());
        m.append(" params but WASM function expects ");
        let b = crate::text::u64_to_decimal(expected as u64);
        m.append(b.as_str());
        Err(m)
    }
}

/// The keys under which a request body may hold the parameter `name`, in
/// the order they are tried: as written, then in kebab case.
pub fn param_keys(name: &str) -> (r: Vec<String>)
    ensures
        strings_view(r@) == seq![name@, heck_kebab(name@)],
{
    let mut r: Vec<String> = Vec::new();
    r.push(owned(name));
    r.push(to_kebab(name));
    assert(strings_view(r@) =~= seq![name@, heck_kebab(name@)]);
    r
}

/// The message for a parameter that the request does not give.
pub fn missing_param_message(name: &str) -> (r: String)
    ensures
        r@ == "Missing required parameter: "@ + name@,
{
    let mut r = owned("Missing required parameter: ");
    r.append(name);
    r
}

/// Whether a parameter is missing from a request: the request gives it no
/// value (or `null`) and its type is not an option; the message if so.
pub fn check_param(name: &str, given_null: bool, accepts_option: bool) -> (r: Result<(), String>)
    ensures
        (r is Err) <==> (given_null && !accepts_option),
        r matches Err(m) ==> m@ == "Missing required parameter: "@ + name@,
{
    if given_null && !accepts_option {
        Err(missing_param_message(name))
    } else {
        Ok(())
    }
}

/// The record of a request served by the function `config.name`: the
/// parameter names joined with commas, and the result.
pub fn request_record(config: &Config, names: &Vec<String>, result: &str) -> (r: crate::logger::LogEntry)
    ensures
        r.file@ == "requests.log"@,
        r.message@ == config.name@ + ": "@ + crate::text::join(strings_view(names@), ", "@) + " -> "@ + result@,
        r.level == crate::logger::LogLevel::Debug,
{
    let input = crate::text::join_strings(names, ", ");
    crate::logger::log_request(config.name.as_str(), input.as_str(), result)
}

// ---------------------------------------------------------------------------
// Serving
// ---------------------------------------------------------------------------

/// How the function's endpoint is routed.
#[derive(Debug, Clone, Copy, PartialEq, Eq, Structural)]
pub enum Route {
    Get,
    Post,
}

/// The route for the configured method: `GET` or `POST`; any other method is refused.
pub fn route_for(method: &str) -> (r: Result<Route, String>)
    ensures
        method@ == "GET"@ ==> r == Ok::<Route, String>(Route::Get),
        method@ == "POST"@ ==> r == Ok::<Route, String>(Route::Post),
        method@ != "GET"@ && method@ != "POST"@ ==> (r matches Err(m) && m@ == "Unsupported method: "@ + method@),
{
    proof {
        reveal_strlit("GET");
        reveal_strlit("POST");
        assert("GET"@.len() != "POST"@.len());
    }
    if str_eq(method, "GET") {
        Ok(Route::Get)
    } else if str_eq(method, "POST") {
        Ok(Route::Post)
    } else {
        let mut m = owned("Unsupported method: ");
        m.append(method);
        Err(m)
    }
}

/// The path of the readiness check.
pub fn health_path() -> (r: &'static str)
    ensures
        r@ == "/__health"@,
{
    "/__health"
}

/// The local address the function is served on.
pub fn listen_addr(port: u16) -> (r: String)
    ensures
        r@ == "127.0.0.1:"@ + crate::text::decimal(port as nat),
{
    let mut r = owned("127.0.0.1:");
    let p = crate::text::u64_to_decimal(port as u64);
    r.append(p.as_str());
    r
}

/// The record of a deployment with id `id` of `config`, served from `wasm_path`.
pub fn deployment_record(config: &Config, id: &str, wasm_path: &str) -> (r: FnService)
    ensures
        r.id@ == id@,
        r.name@ == config.name@,
        r.endpoint@ == config.endpoint@,
        r.port == config.port,
        r.method@ == config.method@,
        r.wasm_path@ == wasm_path@,
{
    FnService {
        id: owned(id),
        name: owned(config.name.as_str()),
        endpoint: owned(config.endpoint.as_str()),
        port: config.port,
        method: owned(config.method.as_str()),
        wasm_path: owned(wasm_path),
    }
}

/// The message for stopping a deployment that is not running.
pub fn server_not_found(deployment_id: &str) -> (r: String)
    ensures
        r@ == "Server not found: "@ + deployment_id@,
{
    let mut r = owned("Server not found: ");
    r.append(deployment_id);
    r
}

} // verus!
