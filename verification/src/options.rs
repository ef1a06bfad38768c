use vstd::prelude::*;
use vstd::string::StringExecFns;

use crate::text::str_eq;

verus! {

/// Where the `{...props}` spread goes on the root element, if anywhere.
#[derive(Debug, Clone, Copy, PartialEq, Eq, Structural)]
pub enum ExpandProps {
    Disabled,
    Start,
    End,
}

/// The size of an icon. A number is held by its IEEE 754 bits (`f64::to_bits`).
#[derive(Debug, Clone, PartialEq, Eq)]
pub enum IconSize {
    Number(u64),
    String(String),
}

#[derive(Debug, Clone, PartialEq, Eq)]
pub enum Icon {
    Disabled,
    Default,
    Size(IconSize),
}

#[derive(Debug, Clone, Copy, PartialEq, Eq, Structural)]
pub enum ExportType {
    Default,
    Named,
}

#[derive(Debug, Clone, Copy, PartialEq, Eq, Structural)]
pub enum JsxRuntime {
    Classic,
    Automatic,
}

/// The import that brings the JSX factory into scope.
#[derive(Debug, Clone, PartialEq, Eq)]
pub struct JsxRuntimeImport {
    pub source: String,
    pub namespace: Option<String>,
    pub default_specifier: Option<String>,
    pub specifiers: Vec<String>,
}

/// How an SVG document becomes a component.
#[derive(Debug, Clone, PartialEq)]
pub struct TransformOptions {
    pub component_name: String,
    pub previous_export: Option<String>,
    pub ref_: bool,
    pub title_prop: bool,
    pub desc_prop: bool,
    pub expand_props: ExpandProps,
    pub dimensions: bool,
    pub icon: Icon,
    pub native: bool,
    pub typescript: bool,
    pub memo: bool,
    pub svg_props: Vec<(String, String)>,
    pub replace_attr_values: Vec<(String, String)>,
    pub export_type: ExportType,
    pub named_export: String,
    pub jsx_runtime: JsxRuntime,
    pub jsx_runtime_import: Option<JsxRuntimeImport>,
    pub import_source: String,
}

/// The options that `TransformOptions::default` gives.
pub open spec fn is_default_options(o: TransformOptions) -> bool {
    &&& o.component_name@ == "SvgComponent"@
    &&& o.previous_export is None
    &&& !o.ref_
    &&& !o.title_prop
    &&& !o.desc_prop
    &&& o.expand_props == ExpandProps::End
    &&& o.dimensions
    &&& o.icon is Disabled
    &&& !o.native
    &&& !o.typescript
    &&& !o.memo
    &&& o.svg_props@.len() == 0
    &&& o.replace_attr_values@.len() == 0
    &&& o.export_type == ExportType::Default
    &&& o.named_export@ == "ReactComponent"@
    &&& o.jsx_runtime == JsxRuntime::Classic
    &&& o.jsx_runtime_import is None
    &&& o.import_source@ == "react"@
}

impl Default for TransformOptions {
    fn default() -> (r: Self)
        ensures
            is_default_options(r),
    {
        TransformOptions {
            component_name: String::from_str("SvgComponent"),
            previous_export: None,
            ref_: false,
            title_prop: false,
            desc_prop: false,
            expand_props: ExpandProps::End,
            dimensions: true,
            icon: Icon::Disabled,
            native: false,
            typescript: false,
            memo: false,
            svg_props: Vec::new(),
            replace_attr_values: Vec::new(),
            export_type: ExportType::Default,
            named_export: String::from_str("ReactComponent"),
            jsx_runtime: JsxRuntime::Classic,
            jsx_runtime_import: None,
            import_source: String::from_str("react"),
        }
    }
}

/// The generated code.
#[derive(Debug, Clone, PartialEq, Eq)]
pub struct TransformResult {
    pub code: String,
}

#[derive(Debug, Clone)]
pub enum TransformError {
    ParseSvg(String),
    BuildJsx(String),
    InvalidExpression { expr: String },
    InvalidGeneratedCode { errors: String, code: String },
    InvalidOptions(String),
}

pub open spec fn transform_error_message(e: TransformError) -> Seq<char> {
    match e {
        TransformError::ParseSvg(m) => m@,
        TransformError::BuildJsx(m) => m@,
        TransformError::InvalidExpression { expr } => "invalid JavaScript expression `"@ + expr@
            + "`"@,
        TransformError::InvalidGeneratedCode { errors, code } => "invalid generated JavaScript: "@
            + errors@ + "\n"@ + code@,
        TransformError::InvalidOptions(m) => "invalid transform options: "@ + m@,
    }
}

impl TransformError {
    /// The error's message.
    pub fn message(&self) -> (r: String)
        ensures
            r@ == transform_error_message(*self),
    {
        match self {
            TransformError::ParseSvg(m) => m.clone(),
            TransformError::BuildJsx(m) => m.clone(),
            TransformError::InvalidExpression { expr } => {
                let mut s = String::from_str("invalid JavaScript expression `");
                s.append(expr.as_str());
                s.append("`");
                s
            },
            TransformError::InvalidGeneratedCode { errors, code } => {
                let mut s = String::from_str("invalid generated JavaScript: ");
                s.append(errors.as_str());
                s.append("\n");
                s.append(code.as_str());
                s
            },
            TransformError::InvalidOptions(m) => {
                let mut s = String::from_str("invalid transform options: ");
                s.append(m.as_str());
                s
            },
        }
    }
}

/// `message` between two parts of fixed text.
pub(crate) fn framed(before: &str, middle: &str, after: &str) -> (r: String)
    ensures
        r@ == before@ + middle@ + after@,
{
    let mut s = String::from_str(before);
    s.append(middle);
    s.append(after);
    s
}

pub open spec fn unsupported_message(option: Seq<char>, value: Seq<char>) -> Seq<char> {
    "unsupported "@ + option + " value `"@ + value + "`"@
}

/// Builds the error for an option value that is not supported.
pub(crate) fn unsupported(option: &str, value: &str) -> (r: TransformError)
    ensures
        r matches TransformError::InvalidOptions(m) && m@ == unsupported_message(option@, value@),
{
    let mut s = String::from_str("unsupported ");
    s.append(option);
    s.append(" value `");
    s.append(value);
    s.append("`");
    invalid_option(s)
}

pub fn invalid_option(message: String) -> (r: TransformError)
    ensures
        r == TransformError::InvalidOptions(message),
{
    TransformError::InvalidOptions(message)
}

/// Reads `exportType`: `"default"` or `"named"`.
pub fn parse_export_type(value: &str) -> (r: Result<ExportType, TransformError>)
    ensures
        value@ == "default"@ ==> r == Ok::<ExportType, TransformError>(ExportType::Default),
        value@ == "named"@ ==> r == Ok::<ExportType, TransformError>(ExportType::Named),
        value@ != "default"@ && value@ != "named"@ ==> (r matches Err(TransformError::InvalidOptions(m))
            && m@ == unsupported_message("exportType"@, value@)),
{
    proof {
        reveal_strlit("default");
        reveal_strlit("named");
        assert("named"@[0] != "default"@[0]);
    }
    if str_eq(value, "default") {
        Ok(ExportType::Default)
    } else if str_eq(value, "named") {
        Ok(ExportType::Named)
    } else {
        Err(unsupported("exportType", value))
    }
}

/// Applies `jsxRuntime`: `"classic"`, `"automatic"`, or `"classic-preact"`, which also
/// imports `h` from `preact` and takes React APIs from `preact/compat`.
pub fn apply_jsx_runtime(options: &mut TransformOptions, value: &str) -> (r: Result<(), TransformError>)
    ensures
        value@ == "classic"@ ==> r is Ok && *final(options) == (TransformOptions {
            jsx_runtime: JsxRuntime::Classic,
            ..*old(options)
        }),
        value@ == "automatic"@ ==> r is Ok && *final(options) == (TransformOptions {
            jsx_runtime: JsxRuntime::Automatic,
            ..*old(options)
        }),
        value@ == "classic-preact"@ ==> {
            &&& r is Ok
            &&& *final(options) == (TransformOptions {
                jsx_runtime: JsxRuntime::Classic,
                import_source: final(options).import_source,
                jsx_runtime_import: final(options).jsx_runtime_import,
                ..*old(options)
            })
            &&& final(options).import_source@ == "preact/compat"@
            &&& (final(options).jsx_runtime_import matches Some(i) && i.source@ == "preact"@
                && i.namespace is None && i.default_specifier is None && i.specifiers@.len() == 1
                && i.specifiers@[0]@ == "h"@)
        },
        value@ != "classic"@ && value@ != "automatic"@ && value@ != "classic-preact"@ ==> {
            &&& (r matches Err(TransformError::InvalidOptions(m)) && m@ == unsupported_message(
                "jsxRuntime"@,
                value@,
            ))
            &&& *final(options) == *old(options)
        },
{
    proof {
        reveal_strlit("classic");
        reveal_strlit("automatic");
        reveal_strlit("classic-preact");
        assert("automatic"@[0] != "classic"@[0]);
        assert("classic-preact"@.len() != "classic"@.len());
        assert("classic-preact"@[0] != "automatic"@[0]);
    }
    if str_eq(value, "classic") {
        options.jsx_runtime = JsxRuntime::Classic;
        Ok(())
    } else if str_eq(value, "automatic") {
        options.jsx_runtime = JsxRuntime::Automatic;
        Ok(())
    } else if str_eq(value, "classic-preact") {
        options.jsx_runtime = JsxRuntime::Classic;
        options.import_source = String::from_str("preact/compat");
        let mut specifiers = Vec::new();
        specifiers.push(String::from_str("h"));
        options.jsx_runtime_import = Some(
            JsxRuntimeImport {
                source: String::from_str("preact"),
                namespace: None,
                default_specifier: None,
                specifiers,
            },
        );
        Ok(())
    } else {
        Err(unsupported("jsxRuntime", value))
    }
}

} // verus!
