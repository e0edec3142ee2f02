//! Turning a source file into a WASM component: which toolchain to use and
//! the commands to run it with.

use vstd::prelude::*;
use crate::text::{owned, str_eq};

verus! {

/// The toolchains that build components.
#[derive(Debug, Clone, Copy, PartialEq, Eq, Structural)]
pub enum Backend {
    /// `jco componentize`, for JavaScript and TypeScript.
    Jco,
    /// `componentize-py`, for Python.
    ComponentizePy,
}

/// The message for a language without a toolchain.
pub open spec fn unsupported_language(lang: Seq<char>) -> Seq<char> {
    "unsupported language for componentization: "@ + lang
}

/// The toolchain for `language`: `typescript` builds with jco, `python` with
/// componentize-py, and any other language is refused.
pub fn componentize(language: &str) -> (r: Result<Backend, String>)
    ensures
        language@ == "typescript"@ ==> r == Ok::<Backend, String>(Backend::Jco),
        language@ == "python"@ ==> r == Ok::<Backend, String>(Backend::ComponentizePy),
        language@ != "typescript"@ && language@ != "python"@ ==> (r matches Err(m) && m@ == unsupported_language(language@)),
{
    proof {
        reveal_strlit("typescript");
        reveal_strlit("python");
        assert("typescript"@.len() != "python"@.len());
    }
    if str_eq(language, "typescript") {
        Ok(Backend::Jco)
    } else if str_eq(language, "python") {
        Ok(Backend::ComponentizePy)
    } else {
        let mut m = owned("unsupported language for componentization: ");
        m.append(language);
        Err(m)
    }
}

/// The extension of the file a path names, as `Path::extension` finds it.
pub uninterp spec fn path_extension(path: Seq<char>) -> Option<Seq<char>>;

/// `Path::extension`, as text.
#[verifier::external_body]
fn extension_of(path: &str) -> (r: Option<String>)
    ensures
        match r {
            Some(e) => path_extension(path@) == Some(e@),
            None => path_extension(path@) is None,
        },
{
    std::path::Path::new(path).extension().and_then(|e| e.to_str()).map(|e| e.to_string())
}

/// Whether a source must be transpiled to JavaScript first: it is a `.ts` file.
pub fn needs_transpile(js_file: &str) -> (r: bool)
    ensures
        r == (path_extension(js_file@) == Some("ts"@)),
{
    match extension_of(js_file) {
        Some(e) => str_eq(e.as_str(), "ts"),
        None => false,
    }
}

/// The views of a sequence of strings.
pub open spec fn args_view(v: Seq<String>) -> Seq<Seq<char>> {
    crate::text::strings_view(v)
}

/// The arguments to `npx` that transpile `ts_file` into the module `out_js`.
pub fn esbuild_args(ts_file: &str, out_js: &str) -> (r: Vec<String>)
    ensures
        args_view(r@) == seq!["-y"@, "esbuild"@, ts_file@, "--format=esm"@, "--outfile="@ + out_js@],
{
    let mut out = owned("--outfile=");
    out.append(out_js);
    let mut r: Vec<String> = Vec::new();
    r.push(owned("-y"));
    r.push(owned("esbuild"));
    r.push(owned(ts_file));
    r.push(owned("--format=esm"));
    r.push(out);
    assert(args_view(r@) =~= seq!["-y"@, "esbuild"@, ts_file@, "--format=esm"@, "--outfile="@ + out_js@]);
    r
}

/// The arguments to `jco` that build `output_wasm` from `js_file` and `wit_file`.
pub fn jco_args(wit_file: &str, output_wasm: &str, js_file: &str) -> (r: Vec<String>)
    ensures
        args_view(r@) == seq!["componentize"@, "--wit"@, wit_file@, "--out"@, output_wasm@, js_file@],
{
    let mut r: Vec<String> = Vec::new();
    r.push(owned("componentize"));
    r.push(owned("--wit"));
    r.push(owned(wit_file));
    r.push(owned("--out"));
    r.push(owned(output_wasm));
    r.push(owned(js_file));
    assert(args_view(r@) =~= seq!["componentize"@, "--wit"@, wit_file@, "--out"@, output_wasm@, js_file@]);
    r
}

/// The arguments to `componentize-py` that build `output_wasm` for `world`
/// from the module `module_name`, with the WIT files in `wit_dir`.
pub fn componentize_py_args(wit_dir: &str, world: &str, module_name: &str, output_wasm: &str) -> (r: Vec<String>)
    ensures
        args_view(r@) == seq!["-d"@, wit_dir@, "-w"@, world@, "componentize"@, module_name@, "-o"@, output_wasm@],
{
    let mut r: Vec<String> = Vec::new();
    r.push(owned("-d"));
    r.push(owned(wit_dir));
    r.push(owned("-w"));
    r.push(owned(world));
    r.push(owned("componentize"));
    r.push(owned(module_name));
    r.push(owned("-o"));
    r.push(owned(output_wasm));
    assert(args_view(r@) =~= seq!["-d"@, wit_dir@, "-w"@, world@, "componentize"@, module_name@, "-o"@, output_wasm@]);
    r
}

/// The report of a failed jco build.
pub fn jco_failure(stderr: &str) -> (r: String)
    ensures
        r@ == "jco compilation failed:\n"@ + stderr@,
{
    let mut r = owned("jco compilation failed:\n");
    r.append(stderr);
    r
}

/// The report of a failed transpilation.
pub fn esbuild_failure(stderr: &str) -> (r: String)
    ensures
        r@ == "esbuild compilation failed:\n"@ + stderr@,
{
    let mut r = owned("esbuild compilation failed:\n");
    r.append(stderr);
    r
}

/// The report of a failed componentize-py build.
pub fn componentize_py_failure(stdout: &str, stderr: &str) -> (r: String)
    ensures
        r@ == "componentize-py failed:\nstdout: "@ + stdout@ + "\nstderr: "@ + stderr@,
{
    let mut r = owned("componentize-py failed:\nstdout: ");
    r.append(stdout);
    r.append("\nstderr: ");
    r.append(stderr);
    r
}

} // verus!
