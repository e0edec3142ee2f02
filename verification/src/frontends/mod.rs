//! Language frontends: each turns a source file into a [`WitIR`](crate::ir::WitIR).

pub mod typescript;
pub mod python;
pub mod ts_source;

use vstd::prelude::*;
use crate::errors::WdsmError;
use crate::text::str_eq;

verus! {

/// What a frontend needs to know besides the source itself.
#[derive(Debug)]
pub struct FrontendConfig {
    pub package_name: String,
    pub world_name: String,
    /// The functions to export; every exported function when `None`.
    pub target_functions: Option<Vec<String>>,
}

/// Whether a function called `name` is to be exported under `targets`.
pub open spec fn is_target(targets: Option<Vec<String>>, name: Seq<char>) -> bool {
    match targets {
        Some(v) => crate::text::strings_view(v@).contains(name),
        None => true,
    }
}

impl FrontendConfig {
    /// Whether the function called `name` is to be exported.
    pub fn wants(&self, name: &str) -> (r: bool)
        ensures
            r == is_target(self.target_functions, name@),
    {
        match &self.target_functions {
            None => true,
            Some(v) => contains_string(v, name),
        }
    }
}

/// Whether `name` is one of `v`.
pub fn contains_string(v: &Vec<String>, name: &str) -> (r: bool)
    ensures
        r == crate::text::strings_view(v@).contains(name@),
{
    let mut i: usize = 0;
    while i < v.len()
        invariant
            i <= v@.len(),
            forall|k: int| 0 <= k < i ==> v@[k]@ != name@,
        decreases v.len() - i,
    {
        if str_eq(v[i].as_str(), name) {
            assert(crate::text::strings_view(v@)[i as int] == name@);
            return true;
        }
        i = i + 1;
    }
    proof {
        if crate::text::strings_view(v@).contains(name@) {
            let k = choose|k: int| 0 <= k < v@.len() && #[trigger] crate::text::strings_view(v@)[k] == name@;
            assert(v@[k]@ == name@);
        }
    }
    false
}

/// Why a frontend could not extract an interface.
#[derive(Debug)]
pub enum FrontendError {
    /// A problem stated in the shared error vocabulary.
    Wdsm(WdsmError),
    /// A problem described by a message.
    Message(String),
    /// A problem described by `message`, reported under `context`.
    InContext { context: String, message: String },
}

/// Model of a [`FrontendError`].
pub enum SpecFrontendError {
    Wdsm(crate::errors::SpecWdsmError),
    Message(Seq<char>),
    InContext { context: Seq<char>, message: Seq<char> },
}

impl View for FrontendError {
    type V = SpecFrontendError;

    open spec fn view(&self) -> SpecFrontendError {
        match self {
            FrontendError::Wdsm(e) => SpecFrontendError::Wdsm(e@),
            FrontendError::Message(m) => SpecFrontendError::Message(m@),
            FrontendError::InContext { context, message } =>
                SpecFrontendError::InContext { context: context@, message: message@ },
        }
    }
}

/// The message that a frontend error is reported with: the error's own
/// message, or the context it was reported under.
pub open spec fn frontend_error_message(e: SpecFrontendError) -> Seq<char> {
    match e {
        SpecFrontendError::Wdsm(w) => crate::errors::error_message(w),
        SpecFrontendError::Message(m) => m,
        SpecFrontendError::InContext { context, .. } => context,
    }
}

impl FrontendError {
    /// The message this error is reported with.
    pub fn to_string(&self) -> (r: String)
        ensures
            r@ == frontend_error_message(self@),
    {
        match self {
            FrontendError::Wdsm(w) => w.to_string(),
            FrontendError::Message(m) => crate::text::owned(m.as_str()),
            FrontendError::InContext { context, .. } => crate::text::owned(context.as_str()),
        }
    }
}

/// The frontends that can be asked for by name.
#[derive(Debug, Clone, Copy, PartialEq, Eq, Structural)]
pub enum FrontendKind {
    TypeScript,
}

/// The frontend for `language`: only `"typescript"` has one.
pub fn get_frontend(language: &str) -> (r: Option<FrontendKind>)
    ensures
        r == (if language@ == "typescript"@ { Some(FrontendKind::TypeScript) } else { None::<FrontendKind> }),
{
    if str_eq(language, "typescript") {
        Some(FrontendKind::TypeScript)
    } else {
        None
    }
}

impl FrontendKind {
    /// The language that this frontend reads.
    pub fn language(&self) -> (r: &'static str)
        ensures
            r@ == "typescript"@,
    {
        match self {
            FrontendKind::TypeScript => "typescript",
        }
    }
}

} // verus!
