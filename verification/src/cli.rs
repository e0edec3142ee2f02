//! What the command line derives from its inputs: where a deployment keeps
//! its files, how readiness is checked, and how deployments are listed.

use vstd::prelude::*;
use crate::paths::{join_path, path_join};
use crate::registry::FnService;
use crate::text::owned;

verus! {

/// The configuration file of a project directory.
pub fn config_file_in(dir: &str) -> (r: String)
    ensures
        r@ == path_join(dir@, "config.yml"@),
{
    join_path(dir, "config.yml")
}

/// Where a deployment keeps its files.
#[derive(Debug)]
pub struct DeployPaths {
    /// The working directory, `.wdsm` in the project.
    pub wdsm_dir: String,
    /// The function's source.
    pub source_file: String,
    /// The generated WIT.
    pub wit_file: String,
    /// The built component.
    pub wasm_file: String,
}

/// The files of a deployment of the project in `project_dir` whose source is `entrypoint`.
pub fn deploy_paths(project_dir: &str, entrypoint: &str) -> (r: DeployPaths)
    ensures
        r.wdsm_dir@ == path_join(project_dir@, ".wdsm"@),
        r.source_file@ == path_join(project_dir@, entrypoint@),
        r.wit_file@ == path_join(path_join(project_dir@, ".wdsm"@), "interface.wit"@),
        r.wasm_file@ == path_join(path_join(project_dir@, ".wdsm"@), "function.wasm"@),
{
    let wdsm_dir = join_path(project_dir, ".wdsm");
    let source_file = join_path(project_dir, entrypoint);
    let wit_file = join_path(wdsm_dir.as_str(), "interface.wit");
    let wasm_file = join_path(wdsm_dir.as_str(), "function.wasm");
    DeployPaths { wdsm_dir: wdsm_dir, source_file: source_file, wit_file: wit_file, wasm_file: wasm_file }
}

/// The readiness URL of a function served on `port`.
pub fn health_url(port: u16) -> (r: String)
    ensures
        r@ == "http://127.0.0.1:"@ + crate::text::decimal(port as nat) + "/__health"@,
{
    let mut r = owned("http://127.0.0.1:");
    let p = crate::text::u64_to_decimal(port as u64);
    r.append(p.as_str());
    r.append("/__health");
    r
}

/// `s` followed by spaces up to `width` characters; longer text is kept whole.
pub open spec fn pad(s: Seq<char>, width: nat) -> Seq<char> {
    if s.len() >= width { s } else { s + Seq::new((width - s.len()) as nat, |i: int| ' ') }
}

/// `s` padded with spaces to `width` characters.
pub fn pad_right(s: &str, width: usize) -> (r: String)
    ensures
        r@ == pad(s@, width as nat),
{
    let mut r = owned(s);
    let n = s.unicode_len();
    let mut k = n;
    while k < width
        invariant
            n == s@.len(),
            n <= k,
            n < width ==> k <= width,
            n >= width ==> k == n,
            r@ == s@ + Seq::new((k - n) as nat, |i: int| ' '),
        decreases width - k,
    {
        crate::text::push_char(&mut r, ' ');
        k = k + 1;
        assert(r@ =~= s@ + Seq::new((k - n) as nat, |i: int| ' '));
    }
    if n >= width {
        assert(r@ =~= s@);
    }
    r
}

/// A row of the deployment table.
pub open spec fn row(name: Seq<char>, method: Seq<char>, port: Seq<char>, endpoint: Seq<char>) -> Seq<char> {
    pad(name, 20) + " "@ + pad(method, 10) + " "@ + pad(port, 15) + " "@ + pad(endpoint, 30)
}

/// A row of the deployment table, from its four cells.
pub fn table_row(name: &str, method: &str, port: &str, endpoint: &str) -> (r: String)
    ensures
        r@ == row(name@, method@, port@, endpoint@),
{
    let mut r = pad_right(name, 20);
    r.append(" ");
    let m = pad_right(method, 10);
    r.append(m.as_str());
    r.append(" ");
    let p = pad_right(port, 15);
    r.append(p.as_str());
    r.append(" ");
    let e = pad_right(endpoint, 30);
    r.append(e.as_str());
    r
}

/// The heading row of the deployment table.
pub fn table_header() -> (r: String)
    ensures
        r@ == row("NAME"@, "METHOD"@, "PORT"@, "ENDPOINT"@),
{
    table_row("NAME", "METHOD", "PORT", "ENDPOINT")
}

/// The rule under the heading: 75 dashes.
pub fn table_rule() -> (r: String)
    ensures
        r@ == Seq::new(75, |i: int| '-'),
{
    let mut r = String::new();
    let mut k: usize = 0;
    while k < 75
        invariant
            k <= 75,
            r@ == Seq::new(k as nat, |i: int| '-'),
        decreases 75 - k,
    {
        crate::text::push_char(&mut r, '-');
        k = k + 1;
        assert(r@ =~= Seq::new(k as nat, |i: int| '-'));
    }
    r
}

/// The table row of a deployment.
pub fn service_row(s: &FnService) -> (r: String)
    ensures
        r@ == row(s.name@, s.method@, crate::text::decimal(s.port as nat), s.endpoint@),
{
    let port = crate::text::u64_to_decimal(s.port as u64);
    table_row(s.name.as_str(), s.method.as_str(), port.as_str(), s.endpoint.as_str())
}

} // verus!
