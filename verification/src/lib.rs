//! Interface extraction, validation and WIT generation for small serverless
//! functions, plus the bookkeeping around deploying them.

pub mod text;
pub mod chars;
pub mod ir;
pub mod errors;
pub mod codegen;
pub mod validation;
pub mod frontends;
pub mod config;
pub mod wit_generator;
pub mod paths;
pub mod registry;
pub mod logger;
pub mod componentizer;
pub mod server;
pub mod cli;
pub mod table;
pub mod ast_analyzer;

use vstd::prelude::*;

verus! {

/// Why no WIT could be generated for a source.
#[derive(Debug)]
pub enum GenError {
    /// No frontend reads the language.
    UnsupportedLanguage(String),
    /// The frontend could not extract the interface.
    Extract(frontends::FrontendError),
    /// The interface was extracted but is not valid.
    Validation(errors::WdsmError),
}

/// Model of a [`GenError`].
pub enum SpecGenError {
    UnsupportedLanguage(Seq<char>),
    Extract(frontends::SpecFrontendError),
    Validation(errors::SpecWdsmError),
}

impl View for GenError {
    type V = SpecGenError;

    open spec fn view(&self) -> SpecGenError {
        match self {
            GenError::UnsupportedLanguage(l) => SpecGenError::UnsupportedLanguage(l@),
            GenError::Extract(e) => SpecGenError::Extract(e@),
            GenError::Validation(e) => SpecGenError::Validation(e@),
        }
    }
}

/// The message that a generation error is reported with.
pub open spec fn gen_error_message(e: SpecGenError) -> Seq<char> {
    match e {
        SpecGenError::UnsupportedLanguage(l) => "unsupported language: "@ + l,
        SpecGenError::Extract(_) => "Failed to extract IR from source file"@,
        SpecGenError::Validation(v) => "Validation failed: "@ + errors::error_message(v),
    }
}

impl GenError {
    /// The message this error is reported with.
    pub fn to_string(&self) -> (r: String)
        ensures
            r@ == gen_error_message(self@),
    {
        match self {
            GenError::UnsupportedLanguage(l) => {
                let mut r = text::owned("unsupported language: ");
                r.append(l.as_str());
                r
            },
            GenError::Extract(_) => text::owned("Failed to extract IR from source file"),
            GenError::Validation(v) => {
                let mut r = text::owned("Validation failed: ");
                let m = v.to_string();
                r.append(m.as_str());
                r
            },
        }
    }
}

/// The error, if any, of generating WIT for the declarations `items` of
/// `file` written in `language`.
pub open spec fn gen_error(
    items: Seq<frontends::typescript::TsItem>,
    file: Seq<char>,
    language: Seq<char>,
    package: Seq<char>,
    world: Seq<char>,
    targets: Option<Vec<String>>,
) -> Option<SpecGenError> {
    if language != "typescript"@ {
        Some(SpecGenError::UnsupportedLanguage(language))
    } else {
        match frontends::typescript::extraction(items, file, package, world, targets) {
            Err(x) => Some(SpecGenError::Extract(frontends::SpecFrontendError::Wdsm(x))),
            Ok(ir) => match validation::validation_error(ir) {
                Some(v) => Some(SpecGenError::Validation(v)),
                None => None,
            },
        }
    }
}

/// What generating WIT for the declarations `items` of `file` gives: the
/// error of [`gen_error`], or the WIT of the validated module and its
/// warnings.
pub open spec fn generated(
    items: Seq<frontends::typescript::TsItem>,
    file: Seq<char>,
    language: Seq<char>,
    package: Seq<char>,
    world: Seq<char>,
    targets: Option<Vec<String>>,
    r: Result<(String, Vec<String>), GenError>,
) -> bool {
    let err = gen_error(items, file, language, package, world, targets);
    match r {
        Err(e) => err == Some(e@),
        Ok((wit, warnings)) => {
            &&& err is None
            &&& frontends::typescript::extraction(items, file, package, world, targets) matches Ok(ir)
            &&& exists|v: ir::SpecWitIR| #[trigger] validation::validated(ir, v)
                && wit@ == codegen::wit_text(v) && text::strings_view(warnings@) == validation::audit(v)
        },
    }
}

/// Generates the WIT for the source `source` read from `file`: parses it
/// with the frontend for `language`, extracts its interface, validates it
/// and puts its definitions in dependency order, and emits it; returns the
/// WIT and the warnings raised.  A source that swc refuses is reported as
/// an extraction error with swc's message.
pub fn gen_wit_ir(
    source: &str,
    file: &str,
    language: &str,
    package_name: &str,
    world_name: &str,
    target_functions: Option<Vec<String>>,
) -> (r: Result<(String, Vec<String>), GenError>)
    ensures
        language@ != "typescript"@ ==> (r matches Err(e) && e@ == SpecGenError::UnsupportedLanguage(language@)),
        language@ == "typescript"@ ==> match frontends::ts_source::ts_declarations(source@) {
            None => (r matches Err(e) && (e@ matches SpecGenError::Extract(x) && x is Message)),
            Some(items) => generated(items, file@, language@, package_name@, world_name@, target_functions, r),
        },
{
    if frontends::get_frontend(language).is_none() {
        return Err(GenError::UnsupportedLanguage(text::owned(language)));
    }
    match frontends::ts_source::parse_ts(source) {
        Ok(module) => gen_wit_module(&module, file, language, package_name, world_name, target_functions),
        Err(m) => Err(GenError::Extract(frontends::FrontendError::Message(m))),
    }
}

/// Generates the WIT for a parsed source, as [`gen_wit_ir`] does once the
/// source is parsed.
pub fn gen_wit_module(
    source: &frontends::typescript::TsModule,
    file: &str,
    language: &str,
    package_name: &str,
    world_name: &str,
    target_functions: Option<Vec<String>>,
) -> (r: Result<(String, Vec<String>), GenError>)
    ensures
        generated(source.items@, file@, language@, package_name@, world_name@, target_functions, r),
{
    let frontend = match frontends::get_frontend(language) {
        Some(f) => f,
        None => return Err(GenError::UnsupportedLanguage(text::owned(language))),
    };
    let config = frontends::FrontendConfig {
        package_name: text::owned(package_name),
        world_name: text::owned(world_name),
        target_functions: target_functions,
    };
    let mut ir = match frontend {
        frontends::FrontendKind::TypeScript => {
            match frontends::typescript::extract_ir(source, file, &config) {
                Ok(ir) => ir,
                Err(e) => return Err(GenError::Extract(e)),
            }
        },
    };
    let ghost before = ir@;
    let warnings = match validation::validate(&mut ir) {
        Ok(w) => w,
        Err(e) => return Err(GenError::Validation(e)),
    };
    let wit = codegen::generate_wit(&ir);
    assert(validation::validated(before, ir@));
    Ok((wit, warnings))
}

} // verus!
