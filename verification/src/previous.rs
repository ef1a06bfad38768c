use vstd::prelude::*;
use vstd::string::StringExecFns;

use oxc_ast::ast::{BindingPattern, Declaration as OxcDeclaration, ExportSpecifier, ModuleExportName, Statement};

use crate::attrs::strings_view;
use crate::exports::{
    check_previous_export, parsed_view, previous_export_error, Binding, Declaration, TopStatement,
};
use crate::options::TransformError;
use crate::text::{trim_chars, trim_str};
use crate::tree::join_chars;

verus! {

#[verifier::external_type_specification]
#[verifier::external_body]
pub struct ExStatement<'a>(Statement<'a>);

#[verifier::external_type_specification]
#[verifier::external_body]
pub struct ExBindingPattern<'a>(BindingPattern<'a>);

#[verifier::external_type_specification]
#[verifier::external_body]
pub struct ExOxcDeclaration<'a>(OxcDeclaration<'a>);

#[verifier::external_type_specification]
#[verifier::external_body]
pub struct ExExportSpecifier<'a>(ExportSpecifier<'a>);

/// Converts an Oxc binding pattern into a `Binding`, one variant for one, keeping the names.
/// This and the three converters below are the conversion part of `read_previous_statements`,
/// apart only because a pattern nests; they make no outside call and promise nothing.
#[verifier::external_body]
fn binding_of(pattern: &BindingPattern<'_>) -> Binding {
    match pattern {
        BindingPattern::BindingIdentifier(id) => Binding::Identifier(id.name.as_str().to_string()),
        BindingPattern::ObjectPattern(p) => Binding::Object {
            properties: p.properties.iter().map(|property| binding_of(&property.value)).collect(),
            rest: p.rest.as_ref().map(|rest| Box::new(binding_of(&rest.argument))),
        },
        BindingPattern::ArrayPattern(p) => Binding::Array {
            elements: p.elements.iter().map(|e| e.as_ref().map(binding_of)).collect(),
            rest: p.rest.as_ref().map(|rest| Box::new(binding_of(&rest.argument))),
        },
        BindingPattern::AssignmentPattern(p) => Binding::Assignment(Box::new(binding_of(&p.left))),
    }
}

/// Converts an Oxc declaration into a `Declaration`, keeping the names it declares.
#[verifier::external_body]
fn declaration_of(d: &OxcDeclaration<'_>) -> Declaration {
    match d {
        OxcDeclaration::VariableDeclaration(v) => {
            Declaration::Variables(v.declarations.iter().map(|x| binding_of(&x.id)).collect())
        },
        OxcDeclaration::FunctionDeclaration(f) => {
            Declaration::Function(f.id.as_ref().map(|id| id.name.as_str().to_string()))
        },
        OxcDeclaration::ClassDeclaration(c) => {
            Declaration::Class(c.id.as_ref().map(|id| id.name.as_str().to_string()))
        },
        OxcDeclaration::TSInterfaceDeclaration(i) => Declaration::Interface(i.id.name.as_str().to_string()),
        _ => Declaration::Other,
    }
}

/// The exported names of export specifiers, in order, whatever form each name was written in.
#[verifier::external_body]
fn exported_of(specifiers: &[ExportSpecifier<'_>]) -> Vec<String> {
    specifiers.iter().map(|s| match &s.exported {
        ModuleExportName::IdentifierName(id) => id.name.as_str().to_string(),
        ModuleExportName::IdentifierReference(id) => id.name.as_str().to_string(),
        ModuleExportName::StringLiteral(literal) => literal.value.as_str().to_string(),
    }).collect()
}

/// Converts an Oxc statement into a `TopStatement`: its exported names and declaration where
/// it is an export, `Other` otherwise.
#[verifier::external_body]
fn statement_of(s: &Statement<'_>) -> TopStatement {
    match s {
        Statement::ExportDeclaration(d) => TopStatement::ExportNamed {
            exported: Vec::new(),
            declaration: Some(declaration_of(&d.declaration)),
        },
        Statement::ExportNamedDeclaration(d) => {
            TopStatement::ExportNamed { exported: exported_of(&d.specifiers), declaration: None }
        },
        Statement::ExportFromDeclaration(d) => {
            TopStatement::ExportNamed { exported: exported_of(&d.specifiers), declaration: None }
        },
        _ => TopStatement::Other,
    }
}

/// What `oxc_parser` reads in the module `text` (with TypeScript where `typescript` is set):
/// its statements, or the messages of its diagnostics.
pub uninterp spec fn previous_statements(text: Seq<char>, typescript: bool) -> Result<
    Seq<TopStatement>,
    Seq<Seq<char>>,
>;

/// Parses `text` with `oxc_parser::Parser` as a module with JSX (and TypeScript where
/// `typescript` is set): its statements, each converted by `statement_of`, or, where the
/// parser panicked or reported diagnostics, the diagnostics' messages. The contract names
/// that result and states no more of it.
#[verifier::external_body]
fn read_previous_statements(text: &str, typescript: bool) -> (r: Result<Vec<TopStatement>, Vec<String>>)
    ensures
        previous_statements(text@, typescript) == match r {
            Ok(v) => Ok::<Seq<TopStatement>, Seq<Seq<char>>>(v@),
            Err(m) => Err::<Seq<TopStatement>, Seq<Seq<char>>>(strings_view(m@)),
        },
{
    let allocator = oxc_allocator::Allocator::default();
    let source_type = oxc_span::SourceType::default().with_module(true).with_jsx(true).with_typescript(
        typescript,
    );
    let ret = oxc_parser::Parser::new(&allocator, text, source_type).parse();
    if ret.panicked || !ret.diagnostics.is_empty() {
        return Err(ret.diagnostics.iter().map(ToString::to_string).collect());
    }
    Ok(ret.program.body.iter().map(statement_of).collect())
}

/// The strings of `parts` with `sep` between each two.
pub fn join_strings(parts: &Vec<String>, sep: &str) -> (r: String)
    ensures
        r@ == join_chars(strings_view(parts@), sep@),
{
    let mut out = String::new();
    let mut i: usize = 0;
    while i < parts.len()
        invariant
            i <= parts@.len(),
            out@ == join_chars(strings_view(parts@).take(i as int), sep@),
        decreases parts@.len() - i,
    {
        let ghost before = strings_view(parts@).take(i as int);
        if i > 0 {
            out.append(sep);
        }
        out.append(parts[i].as_str());
        proof {
            let after = strings_view(parts@).take(i + 1);
            assert(after.drop_last() =~= before);
            assert(after.last() == parts@[i as int]@);
            if i == 0 {
                assert(after =~= seq![parts@[0]@]);
            }
        }
        i = i + 1;
    }
    assert(strings_view(parts@).take(parts@.len() as int) =~= strings_view(parts@));
    out
}

/// What parsing `previous` (trimmed) gives, with the parser's messages joined by `"; "`.
pub open spec fn previous_parsed(previous: Seq<char>, typescript: bool) -> Result<
    Seq<TopStatement>,
    Seq<char>,
> {
    match previous_statements(trim_chars(previous), typescript) {
        Ok(body) => Ok(body),
        Err(messages) => Err(join_chars(messages, "; "@)),
    }
}

/// Reads the `previousExport` text `previous` as a module and checks it: it must parse, and
/// must not export `named_export`, the name the component is exported under.
pub fn parse_previous_export(previous: &str, typescript: bool, named_export: &str) -> (r: Result<
    (),
    TransformError,
>)
    ensures
        match previous_export_error(previous@, previous_parsed(previous@, typescript), named_export@) {
            Some(m) => r matches Err(TransformError::InvalidOptions(x)) && x@ == m,
            None => r is Ok,
        },
{
    let text = trim_str(previous);
    let parsed = match read_previous_statements(text, typescript) {
        Ok(body) => Ok(body),
        Err(messages) => {
            proof {
                reveal_strlit("; ");
            }
            Err(join_strings(&messages, "; "))
        },
    };
    assert(parsed_view(parsed) == previous_parsed(previous@, typescript));
    check_previous_export(previous, &parsed, named_export)
}

} // verus!
