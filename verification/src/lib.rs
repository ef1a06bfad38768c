pub mod error;
pub mod events;
pub mod text;
pub mod lexer_spec;
pub mod lexer;
pub mod lexer_lemmas;
pub mod parser;
pub mod tree;
pub mod laws;
pub mod options;
pub mod json_options;
pub mod validate;
pub mod names;
pub mod decode;
pub mod jsx;
pub mod style;
pub mod attrs;
pub mod passes;
pub mod jsx_sink;
pub mod dynamic;
pub mod order;
pub mod plan;
pub mod exports;
pub mod previous;
pub mod printing;
pub mod transform;
pub mod transform_laws;
pub mod convert_laws;
pub mod table_laws;

pub use error::{line_col, Diagnostic, ErrorMessage, LineCol, ParseError};
pub use events::{
    Attribute, CData, Comment, Doctype, EndElement, FinishStartElement, ProcessingInstruction,
    QuoteKind, Span, StartElement, SvgEvent, SvgSink, Text,
};
pub use parser::{parse, parse_with_sink};
pub use lexer::{is_name_char, is_whitespace};
pub use tree::{
    CDataNode, CommentNode, DoctypeNode, ProcessingInstructionNode, SvgAttribute, SvgDocument,
    SvgElement, SvgNode, TextNode, TreeSink, TreeSinkError,
};
pub use options::{
    apply_jsx_runtime, invalid_option, parse_export_type, ExpandProps, ExportType, Icon, IconSize,
    JsxRuntime, JsxRuntimeImport, TransformError, TransformOptions, TransformResult,
};
pub use json_options::{
    JsonExpandProps, JsonIcon, JsonJsxRuntimeImport, JsonStringPairs, JsonTransformOptions,
    ObjectPairs, TransformOptionsJsxRuntimeImport,
};
pub use validate::{validate_binding_name, validate_options};
pub use names::{
    camelize_svg_name, convert_aria_attribute, is_always_string_attribute,
    is_xml_space_replacement, map_attribute_name, map_element_name, native_component_name,
    starts_with_ignore_ascii_case,
};
pub use decode::{decode_xml, normalize_attribute_value};
pub use style::style_entries;
pub use jsx::{JsxAttr, JsxChild, JsxElement, JsxValue, StyleEntry};
pub use attrs::{
    option_value, remove_attributes, replace_values, upsert_attribute, AttrSpec, AttrValueSpec,
};
pub use passes::{apply_opening_element, prepare_element_name};
pub use jsx_sink::{svg_to_jsx, SinkError};
pub use dynamic::{apply_dynamic_tag, run_post_jsx_passes};
pub use plan::{
    collect_native_components, component_params, component_plan, ComponentPlan, ExportPlan,
    ImportDecl, ImportSpecifier, Param, TypeRef, Wrapper,
};
pub use exports::{
    binding_pattern_contains_name, body_exports_name, check_previous_export, Binding,
    Declaration, TopStatement,
};
pub use previous::{join_strings, parse_previous_export};
pub use attrs::{parse_expression, ProgramTail};
pub use printing::{module_text, Numerals};
pub use transform::{print_combined, print_plan, transform, build_component, combined_plan, optimise, CombinedError};
