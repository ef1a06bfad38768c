use vstd::prelude::*;
use vstd::string::StringExecFns;

use crate::options::TransformError;
use crate::text::{str_eq, trim_chars, trim_str};

verus! {

/// A binding pattern of a declaration, as far as the names it binds.
#[derive(Debug)]
pub enum Binding {
    Identifier(String),
    /// `{ a, b: c, ...rest }`: the patterns of the property values, and of the rest.
    Object { properties: Vec<Binding>, rest: Option<Box<Binding>> },
    /// `[a, , b, ...rest]`.
    Array { elements: Vec<Option<Binding>>, rest: Option<Box<Binding>> },
    /// `a = default`: the pattern on the left.
    Assignment(Box<Binding>),
}

/// The declaration of an `export` statement.
#[derive(Debug)]
pub enum Declaration {
    /// `const`, `let` or `var`, with the pattern of each declarator.
    Variables(Vec<Binding>),
    Function(Option<String>),
    Class(Option<String>),
    Interface(String),
    Other,
}

/// A statement of the module that `previousExport` holds.
#[derive(Debug)]
pub enum TopStatement {
    /// `export { a as b }` (with the exported names) or `export declaration`.
    ExportNamed { exported: Vec<String>, declaration: Option<Declaration> },
    Other,
}

pub open spec fn binds_name(b: Binding, name: Seq<char>) -> bool
    decreases b, 0int,
{
    match b {
        Binding::Identifier(n) => n@ == name,
        Binding::Object { properties, rest } => any_binds(properties@, name) || match rest {
            Some(r) => binds_name(*r, name),
            None => false,
        },
        Binding::Array { elements, rest } => any_element_binds(elements@, name) || match rest {
            Some(r) => binds_name(*r, name),
            None => false,
        },
        Binding::Assignment(left) => binds_name(*left, name),
    }
}

pub open spec fn any_binds(s: Seq<Binding>, name: Seq<char>) -> bool
    decreases s, 1int,
{
    if s.len() == 0 {
        false
    } else {
        any_binds(s.drop_last(), name) || binds_name(s.last(), name)
    }
}

pub open spec fn any_element_binds(s: Seq<Option<Binding>>, name: Seq<char>) -> bool
    decreases s, 1int,
{
    if s.len() == 0 {
        false
    } else {
        any_element_binds(s.drop_last(), name) || match s.last() {
            Some(b) => binds_name(b, name),
            None => false,
        }
    }
}

pub open spec fn declaration_exports(d: Declaration, name: Seq<char>) -> bool {
    match d {
        Declaration::Variables(v) => any_binds(v@, name),
        Declaration::Function(Some(id)) => id@ == name,
        Declaration::Class(Some(id)) => id@ == name,
        Declaration::Interface(id) => id@ == name,
        _ => false,
    }
}

pub open spec fn statement_exports(s: TopStatement, name: Seq<char>) -> bool {
    match s {
        TopStatement::ExportNamed { exported, declaration } => {
            (exists|i: int| 0 <= i < exported@.len() && #[trigger] exported@[i]@ == name) || match declaration {
                Some(d) => declaration_exports(d, name),
                None => false,
            }
        },
        TopStatement::Other => false,
    }
}

/// Whether a statement of `body` exports `name`.
pub open spec fn body_exports(body: Seq<TopStatement>, name: Seq<char>) -> bool {
    exists|i: int| 0 <= i < body.len() && statement_exports(#[trigger] body[i], name)
}

#[verifier::loop_isolation(false)]
pub fn binding_pattern_contains_name(pattern: &Binding, name: &str) -> (r: bool)
    ensures
        r == binds_name(*pattern, name@),
    decreases pattern,
{
    match pattern {
        Binding::Identifier(n) => str_eq(n.as_str(), name),
        Binding::Object { properties, rest } => {
            let mut i: usize = 0;
            while i < properties.len()
                invariant
                    i <= properties@.len(),
                    !any_binds(properties@.take(i as int), name@),
                decreases properties@.len() - i,
            {
                proof {
                    assert(properties@.take(i + 1).drop_last() == properties@.take(i as int));
                }
                if binding_pattern_contains_name(&properties[i], name) {
                    proof {
                        assert(properties@.take(i + 1).last() == properties@[i as int]);
                        lemma_any_binds_prefix(properties@, name@, i + 1);
                    }
                    return true;
                }
                i = i + 1;
            }
            assert(properties@.take(i as int) == properties@);
            match rest {
                Some(r) => binding_pattern_contains_name(r, name),
                None => false,
            }
        },
        Binding::Array { elements, rest } => {
            let mut i: usize = 0;
            while i < elements.len()
                invariant
                    i <= elements@.len(),
                    !any_element_binds(elements@.take(i as int), name@),
                decreases elements@.len() - i,
            {
                proof {
                    assert(elements@.take(i + 1).drop_last() == elements@.take(i as int));
                }
                let found = match &elements[i] {
                    Some(b) => binding_pattern_contains_name(b, name),
                    None => false,
                };
                if found {
                    proof {
                        assert(elements@.take(i + 1).last() == elements@[i as int]);
                        lemma_any_element_binds_prefix(elements@, name@, i + 1);
                    }
                    return true;
                }
                i = i + 1;
            }
            assert(elements@.take(i as int) == elements@);
            match rest {
                Some(r) => binding_pattern_contains_name(r, name),
                None => false,
            }
        },
        Binding::Assignment(left) => binding_pattern_contains_name(left, name),
    }
}

proof fn lemma_any_binds_prefix(s: Seq<Binding>, name: Seq<char>, k: int)
    requires
        0 <= k <= s.len(),
        any_binds(s.take(k), name),
    ensures
        any_binds(s, name),
    decreases s.len() - k,
{
    if k < s.len() {
        assert(s.take(k + 1).drop_last() == s.take(k));
        lemma_any_binds_prefix(s, name, k + 1);
    } else {
        assert(s.take(k) == s);
    }
}

/// A list of patterns binds `name` where one of them does.
pub proof fn lemma_any_binds_at(s: Seq<Binding>, name: Seq<char>, j: int)
    requires
        0 <= j < s.len(),
        binds_name(s[j], name),
    ensures
        any_binds(s, name),
{
    assert(s.take(j + 1).drop_last() =~= s.take(j));
    assert(s.take(j + 1).last() == s[j]);
    lemma_any_binds_prefix(s, name, j + 1);
}

proof fn lemma_any_element_binds_prefix(s: Seq<Option<Binding>>, name: Seq<char>, k: int)
    requires
        0 <= k <= s.len(),
        any_element_binds(s.take(k), name),
    ensures
        any_element_binds(s, name),
    decreases s.len() - k,
{
    if k < s.len() {
        assert(s.take(k + 1).drop_last() == s.take(k));
        lemma_any_element_binds_prefix(s, name, k + 1);
    } else {
        assert(s.take(k) == s);
    }
}

#[verifier::loop_isolation(false)]
fn declaration_exports_name(d: &Declaration, name: &str) -> (r: bool)
    ensures
        r == declaration_exports(*d, name@),
{
    match d {
        Declaration::Variables(v) => {
            let mut i: usize = 0;
            while i < v.len()
                invariant
                    i <= v@.len(),
                    !any_binds(v@.take(i as int), name@),
                decreases v@.len() - i,
            {
                proof {
                    assert(v@.take(i + 1).drop_last() == v@.take(i as int));
                }
                if binding_pattern_contains_name(&v[i], name) {
                    proof {
                        assert(v@.take(i + 1).last() == v@[i as int]);
                        lemma_any_binds_prefix(v@, name@, i + 1);
                    }
                    return true;
                }
                i = i + 1;
            }
            assert(v@.take(i as int) == v@);
            false
        },
        Declaration::Function(Some(id)) => str_eq(id.as_str(), name),
        Declaration::Class(Some(id)) => str_eq(id.as_str(), name),
        Declaration::Interface(id) => str_eq(id.as_str(), name),
        _ => false,
    }
}

#[verifier::loop_isolation(false)]
fn statement_exports_name(s: &TopStatement, name: &str) -> (r: bool)
    ensures
        r == statement_exports(*s, name@),
{
    match s {
        TopStatement::ExportNamed { exported, declaration } => {
            let mut i: usize = 0;
            while i < exported.len()
                invariant
                    i <= exported@.len(),
                    forall|k: int| 0 <= k < i ==> exported@[k]@ != name@,
                decreases exported@.len() - i,
            {
                if str_eq(exported[i].as_str(), name) {
                    assert(exported@[i as int]@ == name@);
                    return true;
                }
                i = i + 1;
            }
            match declaration {
                Some(d) => declaration_exports_name(d, name),
                None => false,
            }
        },
        TopStatement::Other => false,
    }
}

/// Whether a statement of `body` exports `name`.
pub fn body_exports_name(body: &Vec<TopStatement>, name: &str) -> (r: bool)
    ensures
        r == body_exports(body@, name@),
{
    let mut i: usize = 0;
    while i < body.len()
        invariant
            i <= body@.len(),
            forall|k: int| 0 <= k < i ==> !statement_exports(#[trigger] body@[k], name@),
        decreases body@.len() - i,
    {
        if statement_exports_name(&body[i], name) {
            return true;
        }
        i = i + 1;
    }
    false
}

/// The message for `previousExport` text that does not parse: the parser's messages and the
/// text that was read.
pub open spec fn previous_export_parse_message(errors: Seq<char>, previous: Seq<char>) -> Seq<char> {
    "invalid previousExport: invalid generated JavaScript: "@ + errors + "\n"@ + trim_chars(previous)
}

pub open spec fn previous_export_conflict_message(name: Seq<char>) -> Seq<char> {
    "previousExport already exports `"@ + name + "`"@
}

/// A parse result with each string taken by its characters.
pub open spec fn parsed_view(parsed: Result<Vec<TopStatement>, String>) -> Result<
    Seq<TopStatement>,
    Seq<char>,
> {
    match parsed {
        Ok(body) => Ok(body@),
        Err(errors) => Err(errors@),
    }
}

/// The message of the error that `previousExport` (the text `previous`) gives, read as
/// `parsed`: the parser's messages where it does not parse, else a conflict where it exports
/// `named_export`; `None` where it is accepted.
pub open spec fn previous_export_error(
    previous: Seq<char>,
    parsed: Result<Seq<TopStatement>, Seq<char>>,
    named_export: Seq<char>,
) -> Option<Seq<char>> {
    match parsed {
        Err(errors) => Some(previous_export_parse_message(errors, previous)),
        Ok(body) => if body_exports(body, named_export) {
            Some(previous_export_conflict_message(named_export))
        } else {
            None
        },
    }
}

/// Checks the statements of `previousExport` (the text `previous`, parsed after trimming):
/// it must parse, and must not export the name of the named export.
pub fn check_previous_export(
    previous: &str,
    parsed: &Result<Vec<TopStatement>, String>,
    named_export: &str,
) -> (r: Result<(), TransformError>)
    ensures
        match previous_export_error(previous@, parsed_view(*parsed), named_export@) {
            Some(m) => r matches Err(TransformError::InvalidOptions(x)) && x@ == m,
            None => r is Ok,
        },
{
    match parsed {
        Err(errors) => {
            let mut m = String::from_str("invalid previousExport: invalid generated JavaScript: ");
            m.append(errors.as_str());
            m.append("\n");
            m.append(trim_str(previous));
            Err(TransformError::InvalidOptions(m))
        },
        Ok(body) => {
            if body_exports_name(body, named_export) {
                let mut m = String::from_str("previousExport already exports `");
                m.append(named_export);
                m.append("`");
                Err(TransformError::InvalidOptions(m))
            } else {
                Ok(())
            }
        },
    }
}

} // verus!
