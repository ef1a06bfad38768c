use vstd::prelude::*;
use vstd::string::{StringExecFns, StringSliceAdditionalSpecFns};

use oxvg_ast::serialize::Node as _;

use crate::attrs::strings_view;
use crate::dynamic::{post_passes, run_post_jsx_passes};
use crate::jsx_sink::{is_failure, jsx_outcome, svg_to_jsx};
use crate::options::{transform_error_message, TransformError, TransformOptions, TransformResult};
use crate::plan::{component_plan, natives_ok, plan_of, runtime_import, ComponentPlan, PlanModel};
use crate::validate::{options_error, validate_options};
use crate::exports::previous_export_error;
use crate::previous::{join_strings, parse_previous_export, previous_parsed};
use crate::printing::{module_text, module_text_of, Numerals, NumeralsModel};
use crate::tree::join_chars;

verus! {

/// Options that pass validation always have a runtime import that imports something.
pub proof fn law_valid_options_have_runtime_import(o: TransformOptions)
    requires
        options_error(o) is None,
    ensures
        runtime_import(o) is Some,
{
    match o.jsx_runtime_import {
        Some(i) => {
            if i.namespace is None && i.default_specifier is None {
                assert(i.specifiers@.len() > 0);
                assert(crate::plan::runtime_specifiers(i).len() == i.specifiers@.len());
            }
        },
        None => {},
    }
}

/// Whether `r` is what building the module of the SVG bytes `b` gives: the options' error,
/// else the error of turning the document into JSX, else the error of `previousExport`, else
/// a module laid out around the JSX after the post passes, with its components listed as
/// `natives_ok` says.
pub open spec fn build_result(
    o: TransformOptions,
    numbers: Seq<Seq<char>>,
    b: Seq<u8>,
    r: Result<ComponentPlan, TransformError>,
) -> bool {
    match options_error(o) {
        Some(m) => r matches Err(TransformError::InvalidOptions(x)) && x@ == m,
        None => match jsx_outcome(o, numbers, b) {
            Err(f) => r matches Err(x) && is_failure(x, f),
            Ok(e) => match previous_export_outcome(o) {
                Some(m) => r matches Err(TransformError::InvalidOptions(x)) && x@ == m,
                None => r matches Ok(p) && exists|n: Seq<Seq<char>>|
                    natives_ok(o, post_passes(e, o), n) && plan_of(o, post_passes(e, o), n) == Some(
                        p@,
                    ),
            },
        },
    }
}

/// The error that the options' `previousExport` gives, where they have one.
pub open spec fn previous_export_outcome(o: TransformOptions) -> Option<Seq<char>> {
    match o.previous_export {
        Some(p) => previous_export_error(p@, previous_parsed(p@, o.typescript), o.named_export@),
        None => None,
    }
}

/// Builds the module that the SVG document `source` becomes under `options`: the options are
/// checked, the document is turned into JSX, the dynamic title and description are put in,
/// and the module is laid out. `numbers` lists the attribute texts that read as finite
/// numbers; those attribute values become number literals.
pub fn build_component(source: &str, options: &TransformOptions, numbers: &Vec<String>) -> (r:
    Result<ComponentPlan, TransformError>)
    ensures
        build_result(*options, strings_view(numbers@), source.spec_bytes(), r),
{
    match validate_options(options) {
        Ok(()) => {},
        Err(e) => return Err(e),
    }
    proof {
        law_valid_options_have_runtime_import(*options);
    }
    let mut jsx = match svg_to_jsx(source, options, numbers) {
        Ok(j) => j,
        Err(e) => return Err(e),
    };
    run_post_jsx_passes(&mut jsx, options);
    let plan = match component_plan(jsx, options) {
        Ok(p) => p,
        Err(e) => return Err(e),
    };
    match &options.previous_export {
        Some(p) => match parse_previous_export(p.as_str(), options.typescript, options.named_export.as_str()) {
            Ok(()) => {},
            Err(e) => return Err(e),
        },
        None => {},
    }
    Ok(plan)
}

/// A transform that first optimises the SVG document.
#[derive(Debug)]
pub enum CombinedError {
    ParseOxvg(String),
    Optimise(String),
    Serialize(String),
    Transform(TransformError),
}

pub open spec fn combined_error_message(e: CombinedError) -> Seq<char> {
    match e {
        CombinedError::ParseOxvg(m) => "unable to parse SVG for optimisation: "@ + m@,
        CombinedError::Optimise(m) => "unable to optimise SVG: "@ + m@,
        CombinedError::Serialize(m) => "unable to serialize optimised SVG: "@ + m@,
        CombinedError::Transform(t) => transform_error_message(t),
    }
}

impl CombinedError {
    /// The error's message; that of a transform error is its own.
    pub fn message(&self) -> (r: String)
        ensures
            r@ == combined_error_message(*self),
    {
        match self {
            CombinedError::ParseOxvg(m) => {
                let mut s = String::from_str("unable to parse SVG for optimisation: ");
                s.append(m.as_str());
                s
            },
            CombinedError::Optimise(m) => {
                let mut s = String::from_str("unable to optimise SVG: ");
                s.append(m.as_str());
                s
            },
            CombinedError::Serialize(m) => {
                let mut s = String::from_str("unable to serialize optimised SVG: ");
                s.append(m.as_str());
                s
            },
            CombinedError::Transform(t) => t.message(),
        }
    }
}

impl From<TransformError> for CombinedError {
    fn from(e: TransformError) -> (r: Self) {
        CombinedError::Transform(e)
    }
}

impl vstd::std_specs::convert::FromSpecImpl<TransformError> for CombinedError {
    open spec fn obeys_from_spec() -> bool {
        true
    }

    open spec fn from_spec(e: TransformError) -> CombinedError {
        CombinedError::Transform(e)
    }
}

#[verifier::external_type_specification]
#[verifier::external_body]
pub struct ExJobs(oxvg_optimiser::Jobs);

/// The text that optimising the SVG document `source` with `jobs` gives, or `None` where
/// reading, optimising or serializing it fails.
pub uninterp spec fn optimised_text(source: Seq<char>, jobs: oxvg_optimiser::Jobs) -> Option<Seq<char>>;

/// Parses `source` with `oxvg_ast::parse::roxmltree::parse`, runs `jobs` on the document with
/// `oxvg_optimiser::Jobs::run` and serializes it with `serialize_with_options` and the default
/// options. The contract names the text this gives (`optimised_text` of the source and the
/// jobs) and says that a failure is an error of one of those steps, not of the transform;
/// which step failed is left unsaid. Some jobs stop the process on documents they do not
/// expect (`unreachable!`); the contract speaks of the calls that return.
#[verifier::external_body]
fn run_optimiser(source: &str, jobs: &oxvg_optimiser::Jobs) -> (r: Result<String, CombinedError>)
    ensures
        match optimised_text(source@, *jobs) {
            Some(t) => r matches Ok(x) && x@ == t,
            None => r matches Err(e) && !(e is Transform),
        },
{
    let parsed = oxvg_ast::parse::roxmltree::parse(source, |dom, allocator| {
        jobs.run(dom, &oxvg_ast::visitor::Info::new(allocator)).map_err(
            |error| CombinedError::Optimise(error.to_string()),
        )?;
        dom.serialize_with_options(oxvg_ast::serialize::Options::default()).map_err(
            |error| CombinedError::Serialize(error.to_string()),
        )
    });
    match parsed {
        Ok(inner) => inner,
        Err(error) => Err(CombinedError::ParseOxvg(error.to_string())),
    }
}

/// Optimises the SVG document `source` with `jobs`: the optimised text, or the error of
/// reading, optimising or serializing the document.
pub fn optimise(source: &str, jobs: &oxvg_optimiser::Jobs) -> (r: Result<String, CombinedError>)
    ensures
        match optimised_text(source@, *jobs) {
            Some(t) => r matches Ok(x) && x@ == t,
            None => r matches Err(e) && !(e is Transform),
        },
{
    run_optimiser(source, jobs)
}

/// Whether `r` is the module for the optimiser's result `optimised`: its error, or what
/// building the module of the optimised text gives, its error wrapped.
pub open spec fn combined_outcome(
    optimised: Result<String, CombinedError>,
    o: TransformOptions,
    numbers: Seq<Seq<char>>,
    r: Result<ComponentPlan, CombinedError>,
) -> bool {
    match optimised {
        Err(e) => r matches Err(x) && x == e,
        Ok(text) => match r {
            Ok(p) => build_result(o, numbers, vstd::utf8::encode_utf8(text@), Ok(p)),
            Err(CombinedError::Transform(t)) => build_result(
                o,
                numbers,
                vstd::utf8::encode_utf8(text@),
                Err(t),
            ),
            Err(_) => false,
        },
    }
}

/// The module for an optimised document: the optimiser's error, or what `build_component`
/// makes of the optimised text, its error wrapped.
pub fn combined_plan(
    optimised: Result<String, CombinedError>,
    options: &TransformOptions,
    numbers: &Vec<String>,
) -> (r: Result<ComponentPlan, CombinedError>)
    ensures
        combined_outcome(optimised, *options, strings_view(numbers@), r),
{
    match optimised {
        Err(e) => Err(e),
        Ok(text) => match build_component(text.as_str(), options, numbers) {
            Ok(p) => Ok(p),
            Err(e) => Err(CombinedError::Transform(e)),
        },
    }
}

/// The code that `oxc_codegen` prints for the module `text`, which `oxc_parser` reads as a
/// module with JSX (and TypeScript where `typescript` is set); or the parser's messages.
pub uninterp spec fn formatted_module(text: Seq<char>, typescript: bool) -> Result<
    Seq<char>,
    Seq<Seq<char>>,
>;

/// Parses `text` with `oxc_parser::Parser` as a module with JSX (and TypeScript where
/// `typescript` is set) and prints the program with `oxc_codegen::Codegen::build`, not
/// minified; where the parser panicked or reported diagnostics, their messages. The contract
/// names that result and states no more of it.
#[verifier::external_body]
fn format_module(text: &str, typescript: bool) -> (r: Result<String, Vec<String>>)
    ensures
        formatted_module(text@, typescript) == match r {
            Ok(c) => Ok::<Seq<char>, Seq<Seq<char>>>(c@),
            Err(m) => Err::<Seq<char>, Seq<Seq<char>>>(strings_view(m@)),
        },
{
    let allocator = oxc_allocator::Allocator::default();
    let source_type = oxc_span::SourceType::default().with_module(true).with_jsx(true).with_typescript(
        typescript,
    );
    let ret = oxc_parser::Parser::new(&allocator, text, source_type).parse();
    if ret.panicked || !ret.diagnostics.is_empty() {
        return Err(ret.diagnostics.iter().map(ToString::to_string).collect());
    }
    let options = oxc_codegen::CodegenOptions { minify: false, ..oxc_codegen::CodegenOptions::default() };
    Ok(oxc_codegen::Codegen::new().with_options(options).build(&ret.program).code)
}

/// Whether `r` is what printing the plan `p` gives: the code Oxc prints for its module text,
/// or, where Oxc does not read that text, the parser's messages (joined by `"; "`) and the text.
pub open spec fn printed(p: PlanModel, n: NumeralsModel, r: Result<TransformResult, TransformError>) -> bool {
    let text = module_text_of(p, n);
    match formatted_module(text, p.typescript) {
        Ok(code) => r matches Ok(t) && t.code@ == code,
        Err(messages) => r matches Err(TransformError::InvalidGeneratedCode { errors, code })
            && errors@ == join_chars(messages, "; "@) && code@ == text,
    }
}

/// The code of the module that `plan` lays out.
pub fn print_plan(plan: &ComponentPlan, numerals: &Numerals) -> (r: Result<TransformResult, TransformError>)
    ensures
        printed(plan@, numerals@, r),
{
    let text = module_text(plan, numerals);
    match format_module(text.as_str(), plan.typescript) {
        Ok(code) => Ok(TransformResult { code }),
        Err(messages) => {
            proof {
                reveal_strlit("; ");
            }
            let errors = join_strings(&messages, "; ");
            Err(TransformError::InvalidGeneratedCode { errors, code: text })
        },
    }
}

/// Turns the SVG document `source` into the code of a React component: the module that
/// `build_component` lays out, printed. `numbers` lists the attribute texts that read as
/// finite numbers, and `numerals` the literal for each number.
pub fn transform(
    source: &str,
    options: &TransformOptions,
    numbers: &Vec<String>,
    numerals: &Numerals,
) -> (r: Result<TransformResult, TransformError>)
    ensures
        exists|b: Result<ComponentPlan, TransformError>|
            build_result(*options, strings_view(numbers@), source.spec_bytes(), b) && match b {
                Ok(p) => printed(p@, numerals@, r),
                Err(e) => r == Err::<TransformResult, TransformError>(e),
            },
{
    let built = build_component(source, options, numbers);
    match built {
        Ok(plan) => {
            let r = print_plan(&plan, numerals);
            assert(build_result(*options, strings_view(numbers@), source.spec_bytes(), Ok::<ComponentPlan, TransformError>(plan)));
            r
        },
        Err(e) => Err(e),
    }
}

/// Whether `r` is what printing the plan `p` gives on the optimising path: as `printed`,
/// with a transform error wrapped.
pub open spec fn printed_combined(
    p: PlanModel,
    n: NumeralsModel,
    r: Result<TransformResult, CombinedError>,
) -> bool {
    let text = module_text_of(p, n);
    match formatted_module(text, p.typescript) {
        Ok(code) => r matches Ok(t) && t.code@ == code,
        Err(messages) => r matches Err(
            CombinedError::Transform(TransformError::InvalidGeneratedCode { errors, code }),
        ) && errors@ == join_chars(messages, "; "@) && code@ == text,
    }
}

/// The code of the component for an optimised document: the module that `combined_plan`
/// lays out, printed.
pub fn print_combined(
    optimised: Result<String, CombinedError>,
    options: &TransformOptions,
    numbers: &Vec<String>,
    numerals: &Numerals,
) -> (r: Result<TransformResult, CombinedError>)
    ensures
        exists|c: Result<ComponentPlan, CombinedError>|
            combined_outcome(optimised, *options, strings_view(numbers@), c) && match c {
                Ok(p) => printed_combined(p@, numerals@, r),
                Err(e) => r == Err::<TransformResult, CombinedError>(e),
            },
{
    let ghost opt = optimised;
    let planned = combined_plan(optimised, options, numbers);
    match planned {
        Ok(plan) => {
            let result = print_plan(&plan, numerals);
            assert(combined_outcome(opt, *options, strings_view(numbers@), Ok::<ComponentPlan, CombinedError>(plan)));
            match result {
                Ok(t) => Ok(t),
                Err(e) => Err(CombinedError::Transform(e)),
            }
        },
        Err(e) => Err(e),
    }
}

} // verus!
