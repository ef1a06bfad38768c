use vstd::prelude::*;
use vstd::string::StringExecFns;

use crate::options::{JsxRuntimeImport, TransformError, TransformOptions};

verus! {

/// Whether `s` is an IdentifierName of ECMAScript, by `oxc_syntax::identifier::is_identifier_name`.
pub uninterp spec fn js_identifier_name(s: Seq<char>) -> bool;

/// ASCII characters that may start an identifier: letters, `$` and `_`.
pub open spec fn ascii_id_start(c: char) -> bool {
    ('a' <= c <= 'z') || ('A' <= c <= 'Z') || c == '$' || c == '_'
}

/// ASCII characters that may continue an identifier: those that start one, and digits.
pub open spec fn ascii_id_part(c: char) -> bool {
    ascii_id_start(c) || ('0' <= c <= '9')
}

/// Whether `s` is an IdentifierName: for an all-ASCII string, a start character followed by
/// part characters (as `oxc_syntax`'s table of ASCII characters says); otherwise
/// `js_identifier_name`.
pub open spec fn identifier_name(s: Seq<char>) -> bool {
    if forall|i: int| 0 <= i < s.len() ==> (#[trigger] s[i] as u32) < 0x80 {
        s.len() > 0 && ascii_id_start(s[0]) && forall|i: int| 1 <= i < s.len() ==> ascii_id_part(#[trigger] s[i])
    } else {
        js_identifier_name(s)
    }
}

/// Calls `oxc_syntax::identifier::is_identifier_name`, which tells whether a string is an
/// ECMAScript IdentifierName (a Unicode ID_Start or `$` or `_`, then ID_Continue, `$`,
/// ZWNJ or ZWJ). For ASCII strings the crate's source reads it off its table `ASCII_ID_FLAGS`
/// (letters, `$` and `_` start; those and digits continue; the empty string is none); for the
/// rest the contract names the result and states no more of it.
#[verifier::external_body]
pub(crate) fn is_identifier_name(s: &str) -> (r: bool)
    ensures
        r == identifier_name(s@),
        !(forall|i: int| 0 <= i < s@.len() ==> (#[trigger] s@[i] as u32) < 0x80) ==> r
            == js_identifier_name(s@),
{
    oxc_syntax::identifier::is_identifier_name(s)
}

/// The reserved words of ECMAScript, with `let` and `static`, as `oxc_syntax` lists them.
pub open spec fn js_reserved_keyword(s: Seq<char>) -> bool {
    ||| s == "let"@ ||| s == "static"@ ||| s == "implements"@ ||| s == "interface"@
    ||| s == "package"@ ||| s == "private"@ ||| s == "protected"@ ||| s == "public"@
    ||| s == "await"@ ||| s == "break"@ ||| s == "case"@ ||| s == "catch"@
    ||| s == "class"@ ||| s == "const"@ ||| s == "continue"@ ||| s == "debugger"@
    ||| s == "default"@ ||| s == "delete"@ ||| s == "do"@ ||| s == "else"@
    ||| s == "enum"@ ||| s == "export"@ ||| s == "extends"@ ||| s == "false"@
    ||| s == "finally"@ ||| s == "for"@ ||| s == "function"@ ||| s == "if"@
    ||| s == "import"@ ||| s == "in"@ ||| s == "instanceof"@ ||| s == "new"@
    ||| s == "null"@ ||| s == "return"@ ||| s == "super"@ ||| s == "switch"@
    ||| s == "this"@ ||| s == "throw"@ ||| s == "true"@ ||| s == "try"@
    ||| s == "typeof"@ ||| s == "var"@ ||| s == "void"@ ||| s == "while"@
    ||| s == "with"@ ||| s == "yield"@
}

/// Calls `oxc_syntax::keyword::is_reserved_keyword`, which looks `s` up in the crate's
/// `RESERVED_KEYWORDS` set, whose words `js_reserved_keyword` lists.
#[verifier::external_body]
fn is_reserved_keyword(s: &str) -> (r: bool)
    ensures
        r == js_reserved_keyword(s@),
{
    oxc_syntax::keyword::is_reserved_keyword(s)
}

/// A name that can be bound by `const`, `import` or a parameter.
pub open spec fn valid_binding_name(s: Seq<char>) -> bool {
    identifier_name(s) && !js_reserved_keyword(s)
}

pub open spec fn binding_message(option: Seq<char>) -> Seq<char> {
    option + " must be a valid JavaScript binding identifier"@
}

pub open spec fn empty_import_message() -> Seq<char> {
    "jsxRuntimeImport requires namespace, defaultSpecifier, or specifiers"@
}

/// Checks that `value` can be bound as a name; the error names the option.
pub fn validate_binding_name(option: &str, value: &str) -> (r: Result<(), TransformError>)
    ensures
        valid_binding_name(value@) ==> r is Ok,
        !valid_binding_name(value@) ==> (r matches Err(TransformError::InvalidOptions(m)) && m@
            == binding_message(option@)),
{
    if !is_identifier_name(value) || is_reserved_keyword(value) {
        let mut message = String::from_str(option);
        message.append(" must be a valid JavaScript binding identifier");
        return Err(TransformError::InvalidOptions(message));
    }
    Ok(())
}

/// The message of the first check of the options that fails, in the order they are made.
pub open spec fn options_error(o: TransformOptions) -> Option<Seq<char>> {
    if !valid_binding_name(o.component_name@) {
        Some(binding_message("componentName"@))
    } else if !valid_binding_name(o.named_export@) {
        Some(binding_message("namedExport"@))
    } else {
        match o.jsx_runtime_import {
            None => None,
            Some(i) => import_error(i),
        }
    }
}

pub open spec fn import_error(i: JsxRuntimeImport) -> Option<Seq<char>> {
    if i.namespace is None && i.default_specifier is None && i.specifiers@.len() == 0 {
        Some(empty_import_message())
    } else if i.namespace is Some && !valid_binding_name(i.namespace->Some_0@) {
        Some(binding_message("jsxRuntimeImport.namespace"@))
    } else if i.default_specifier is Some && !valid_binding_name(i.default_specifier->Some_0@) {
        Some(binding_message("jsxRuntimeImport.defaultSpecifier"@))
    } else if exists|k: int|
        0 <= k < i.specifiers@.len() && !valid_binding_name(#[trigger] i.specifiers@[k]@) {
        Some(binding_message("jsxRuntimeImport.specifiers[]"@))
    } else {
        None
    }
}

/// Checks the names that the generated code binds.
#[verifier::loop_isolation(false)]
pub fn validate_options(options: &TransformOptions) -> (r: Result<(), TransformError>)
    ensures
        match options_error(*options) {
            None => r is Ok,
            Some(m) => r matches Err(TransformError::InvalidOptions(x)) && x@ == m,
        },
{
    match validate_binding_name("componentName", options.component_name.as_str()) {
        Ok(()) => {},
        Err(e) => return Err(e),
    }
    match validate_binding_name("namedExport", options.named_export.as_str()) {
        Ok(()) => {},
        Err(e) => return Err(e),
    }
    if let Some(import) = &options.jsx_runtime_import {
        if import.namespace.is_none() && import.default_specifier.is_none()
            && import.specifiers.len() == 0 {
            return Err(TransformError::InvalidOptions(String::from_str(
                "jsxRuntimeImport requires namespace, defaultSpecifier, or specifiers",
            )));
        }
        if let Some(namespace) = &import.namespace {
            match validate_binding_name("jsxRuntimeImport.namespace", namespace.as_str()) {
                Ok(()) => {},
                Err(e) => return Err(e),
            }
        }
        if let Some(default_specifier) = &import.default_specifier {
            match validate_binding_name("jsxRuntimeImport.defaultSpecifier", default_specifier.as_str()) {
                Ok(()) => {},
                Err(e) => return Err(e),
            }
        }
        let mut k: usize = 0;
        while k < import.specifiers.len()
            invariant
                k <= import.specifiers@.len(),
                forall|q: int| 0 <= q < k ==> valid_binding_name(#[trigger] import.specifiers@[q]@),
            decreases import.specifiers@.len() - k,
        {
            match validate_binding_name("jsxRuntimeImport.specifiers[]", import.specifiers[k].as_str()) {
                Ok(()) => {},
                Err(e) => {
                    assert(!valid_binding_name(import.specifiers@[k as int]@));
                    return Err(e);
                },
            }
            k = k + 1;
        }
        assert(!exists|q: int|
            0 <= q < import.specifiers@.len() && !valid_binding_name(#[trigger] import.specifiers@[q]@));
    }
    Ok(())
}

} // verus!
