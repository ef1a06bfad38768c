use svgr2::{
    build_component, check_previous_export, combined_plan, normalize_attribute_value, optimise,
    ComponentPlan, ExpandProps, ExportPlan, ExportType, Icon, IconSize, ImportDecl,
    ImportSpecifier, JsxAttr, JsxChild, JsxElement, JsxRuntime, JsxRuntimeImport, JsxValue,
    Param, TopStatement, TransformError, TransformOptions, ObjectPairs, join_strings,
    parse_expression, parse_previous_export, parse, style_entries, transform, Numerals, SvgNode,
    TransformResult, module_text, print_combined,
};

fn plan_with(svg: &str, options: &TransformOptions, numbers: &[&str]) -> ComponentPlan {
    let numbers: Vec<String> = numbers.iter().map(|s| s.to_string()).collect();
    build_component(svg, options, &numbers).unwrap()
}

fn error_with(svg: &str, options: &TransformOptions) -> TransformError {
    build_component(svg, options, &Vec::new()).unwrap_err()
}

fn attr<'a>(e: &'a JsxElement, name: &str) -> Option<&'a Option<JsxValue>> {
    e.attributes.iter().find_map(|a| match a {
        JsxAttr::Named { name: n, value } if n == name => Some(value),
        _ => None,
    })
}

fn str_attr(e: &JsxElement, name: &str) -> Option<String> {
    match attr(e, name) {
        Some(Some(JsxValue::Str(s))) => Some(s.clone()),
        _ => None,
    }
}

fn attr_names(e: &JsxElement) -> Vec<String> {
    e.attributes
        .iter()
        .map(|a| match a {
            JsxAttr::Named { name, .. } => name.clone(),
            JsxAttr::Spread { name } => format!("...{name}"),
        })
        .collect()
}

fn element(c: &JsxChild) -> &JsxElement {
    match c {
        JsxChild::Element(e) => e,
        other => panic!("expected an element, found {other:?}"),
    }
}

fn specifier_names(i: &ImportDecl) -> Vec<String> {
    i.specifiers
        .iter()
        .map(|s| match s {
            ImportSpecifier::Namespace(n) => format!("* as {n}"),
            ImportSpecifier::Default(n) => format!("default {n}"),
            ImportSpecifier::Named(n) => n.clone(),
        })
        .collect()
}

const TWENTY_FOUR: u64 = 0x4038_0000_0000_0000;

/// The finite number that `value` reads as.
fn numeric_value(value: &str) -> Option<f64> {
    let trimmed = value.trim();
    if trimmed.is_empty() {
        return None;
    }
    let number = trimmed.parse::<f64>().ok()?;
    number.is_finite().then_some(number)
}

fn attribute_texts(nodes: &[SvgNode<'_>], found: &mut Vec<String>) {
    for node in nodes {
        if let SvgNode::Element(element) = node {
            for attribute in &element.attributes {
                if let Some(value) = attribute.value {
                    found.push(normalize_attribute_value(value));
                }
            }
            attribute_texts(&element.children, found);
        }
    }
}

/// The numeric attribute texts of `svg` and the literal of every number its module can hold.
fn numbers_of(svg: &str, options: &TransformOptions) -> (Vec<String>, Numerals) {
    let mut all = Vec::new();
    if let Ok(document) = parse(svg) {
        attribute_texts(&document.children, &mut all);
    }
    let mut numbers = Vec::new();
    let mut texts: Vec<(String, String)> = Vec::new();
    let mut add = |text: &str| {
        if let Some(n) = numeric_value(text) {
            if !texts.iter().any(|(k, _)| k == text) {
                texts.push((text.to_string(), format!("{n}")));
            }
        }
    };
    for text in &all {
        add(text);
        for entry in style_entries(text) {
            add(&entry.value);
            if let Some(head) = entry.value.strip_suffix("px") {
                add(head);
            }
        }
        if numeric_value(text).is_some() && !numbers.contains(text) {
            numbers.push(text.clone());
        }
    }
    let mut bits = vec![(TWENTY_FOUR, "24".to_string())];
    if let Icon::Size(IconSize::Number(b)) = options.icon {
        bits.push((b, format!("{}", f64::from_bits(b))));
    }
    (numbers, Numerals { texts, bits })
}

fn transformed(svg: &str, options: TransformOptions) -> Result<TransformResult, TransformError> {
    let (numbers, numerals) = numbers_of(svg, &options);
    transform(svg, &options, &numbers, &numerals)
}

fn code(svg: &str, options: TransformOptions) -> String {
    transformed(svg, options).unwrap().code
}

#[test]
fn transforms_simple_svg() {
    let plan = plan_with(
        r#"<svg width="88px" height="88px" viewBox="0 0 88 88" version="1.1"><title>Dismiss</title><g stroke-width="2"><path d="M0 0" /></g></svg>"#,
        &TransformOptions::default(),
        &["2", "1.1"],
    );
    assert_eq!(plan.imports.len(), 1);
    assert_eq!(plan.imports[0].source, "react");
    assert_eq!(specifier_names(&plan.imports[0]), vec!["* as React"]);
    assert_eq!(plan.component_name, "SvgComponent");
    assert_eq!(attr_names(&plan.jsx), vec!["width", "height", "viewBox", "...props"]);
    assert_eq!(str_attr(&plan.jsx, "width").as_deref(), Some("88px"));
    assert_eq!(str_attr(&plan.jsx, "viewBox").as_deref(), Some("0 0 88 88"));
    let title = element(&plan.jsx.children[0]);
    assert_eq!(title.name, "title");
    assert!(matches!(&title.children[0], JsxChild::Text(t) if t == "Dismiss"));
    let g = element(&plan.jsx.children[1]);
    assert!(matches!(attr(g, "strokeWidth"), Some(Some(JsxValue::Number(n))) if n == "2"));
    assert!(matches!(&plan.export, ExportPlan::Default(n) if n == "SvgComponent"));
    let result = code(
        r#"<svg width="88px" height="88px" viewBox="0 0 88 88" version="1.1"><title>Dismiss</title><g stroke-width="2"><path d="M0 0" /></g></svg>"#,
        TransformOptions::default(),
    );
    assert!(result.contains("import * as React from \"react\";"));
    assert!(result.contains("const SvgComponent"));
    assert!(result.contains("<svg width=\"88px\" height=\"88px\" viewBox=\"0 0 88 88\""));
    assert!(result.contains("<title>{\"Dismiss\"}</title>"));
    assert!(result.contains("strokeWidth={2}"));
    assert!(result.contains("{...props}"));
    assert!(result.contains("export default SvgComponent;"));
}

#[test]
fn supports_automatic_runtime_and_dimensions_false() {
    let options = TransformOptions {
        jsx_runtime: JsxRuntime::Automatic,
        dimensions: false,
        ..TransformOptions::default()
    };
    let plan = plan_with(r#"<svg width="10" height="20" viewBox="0 0 10 20" />"#, &options, &["10", "20"]);
    assert!(plan.imports.is_empty());
    assert_eq!(attr_names(&plan.jsx), vec!["viewBox", "...props"]);
    assert!(plan.jsx.children.is_empty());
    let result = code(
        r#"<svg width="10" height="20" viewBox="0 0 10 20" />"#,
        TransformOptions { jsx_runtime: JsxRuntime::Automatic, dimensions: false, ..TransformOptions::default() },
    );
    assert!(!result.contains("import * as React"));
    assert!(result.contains("<svg viewBox=\"0 0 10 20\" {...props} />"));
}

#[test]
fn supports_icon_and_replace_values() {
    let options = TransformOptions {
        icon: Icon::Size(IconSize::Number(24.0f64.to_bits())),
        replace_attr_values: vec![("#fff".into(), "{props.color}".into())],
        ..TransformOptions::default()
    };
    let plan = plan_with(r##"<svg fill="#fff" />"##, &options, &[]);
    assert!(matches!(attr(&plan.jsx, "width"), Some(Some(JsxValue::NumberBits(b))) if *b == TWENTY_FOUR));
    assert!(matches!(attr(&plan.jsx, "height"), Some(Some(JsxValue::NumberBits(b))) if *b == TWENTY_FOUR));
    assert!(matches!(attr(&plan.jsx, "fill"), Some(Some(JsxValue::Expression(e))) if e == "props.color"));
    let result = code(
        r##"<svg fill="#fff" />"##,
        TransformOptions {
            icon: Icon::Size(IconSize::Number(TWENTY_FOUR)),
            replace_attr_values: vec![("#fff".into(), "{props.color}".into())],
            ..TransformOptions::default()
        },
    );
    assert!(result.contains("width={24}"));
    assert!(result.contains("height={24}"));
    assert!(result.contains("fill={props.color}"));
}

#[test]
fn supports_title_and_desc_props() {
    let options = TransformOptions {
        title_prop: true,
        desc_prop: true,
        ..TransformOptions::default()
    };
    let plan = plan_with(r#"<svg><title id="a">Hello</title><desc>World</desc></svg>"#, &options, &[]);
    match &plan.params[0] {
        Param::Object { props, rest, .. } => {
            assert_eq!(props, &vec!["title", "titleId", "desc", "descId"]);
            assert_eq!(rest.as_deref(), Some("props"));
        },
        other => panic!("unexpected parameter {other:?}"),
    }
    assert!(matches!(attr(&plan.jsx, "aria-labelledby"), Some(Some(JsxValue::Identifier(n))) if n == "titleId"));
    assert!(matches!(attr(&plan.jsx, "aria-describedby"), Some(Some(JsxValue::Identifier(n))) if n == "descId"));
    match &plan.jsx.children[0] {
        JsxChild::Dynamic { tag, fallback: Some(title) } => {
            assert_eq!(tag, "title");
            assert!(matches!(attr(title, "id"), Some(Some(JsxValue::IdOr { id, fallback })) if id == "titleId" && fallback == "a"));
        },
        other => panic!("unexpected child {other:?}"),
    }
    match &plan.jsx.children[1] {
        JsxChild::Dynamic { tag, fallback: Some(desc) } => {
            assert_eq!(tag, "desc");
            assert!(matches!(attr(desc, "id"), Some(Some(JsxValue::Identifier(n))) if n == "descId"));
        },
        other => panic!("unexpected child {other:?}"),
    }
    let result = code(
        r#"<svg><title id="a">Hello</title><desc>World</desc></svg>"#,
        TransformOptions { title_prop: true, desc_prop: true, ..TransformOptions::default() },
    );
    assert!(result.contains("({ title, titleId, desc, descId, ...props })"));
    assert!(result.contains("aria-labelledby={titleId}"));
    assert!(result.contains("aria-describedby={descId}"));
    assert!(result.contains("title === undefined ? <title id={titleId || \"a\"}>"));
    assert!(result.contains("desc === undefined ? <desc id={descId}>"));
}

#[test]
fn supports_native() {
    let options = TransformOptions {
        native: true,
        icon: Icon::Default,
        ..TransformOptions::default()
    };
    let plan = plan_with(r#"<svg><g><path d="M0 0" /></g><div /></svg>"#, &options, &[]);
    assert_eq!(plan.imports[1].source, "react-native-svg");
    assert_eq!(specifier_names(&plan.imports[1]), vec!["default Svg", "G", "Path"]);
    assert_eq!(plan.jsx.name, "Svg");
    assert_eq!(attr_names(&plan.jsx), vec!["width", "height", "...props"]);
    assert!(matches!(attr(&plan.jsx, "width"), Some(Some(JsxValue::NumberBits(b))) if *b == TWENTY_FOUR));
    assert_eq!(plan.jsx.children.len(), 1);
    let g = element(&plan.jsx.children[0]);
    assert_eq!(g.name, "G");
    let path = element(&g.children[0]);
    assert_eq!(path.name, "Path");
    assert_eq!(str_attr(path, "d").as_deref(), Some("M0 0"));
    let result = code(
        r#"<svg><g><path d="M0 0" /></g><div /></svg>"#,
        TransformOptions { native: true, icon: Icon::Default, ..TransformOptions::default() },
    );
    assert!(result.contains("import Svg, { G, Path } from \"react-native-svg\";"));
    assert!(result.contains("<Svg width={24} height={24} {...props}><G><Path d=\"M0 0\" /></G></Svg>"));
    assert!(!result.contains("div"));
}

#[test]
fn supports_ref_memo_named_export_and_previous_export() {
    let previous = "export default \"logo.svg\";";
    let options = TransformOptions {
        ref_: true,
        memo: true,
        export_type: ExportType::Named,
        named_export: "Component".into(),
        previous_export: Some(previous.into()),
        ..TransformOptions::default()
    };
    let plan = plan_with(r#"<svg />"#, &options, &[]);
    assert_eq!(plan.imports[1].source, "react");
    assert_eq!(specifier_names(&plan.imports[1]), vec!["forwardRef", "memo"]);
    assert_eq!(plan.wrappers[0].binding, "ForwardRef");
    assert_eq!(plan.wrappers[0].callee, "forwardRef");
    assert_eq!(plan.wrappers[0].argument, "SvgComponent");
    assert_eq!(plan.wrappers[1].binding, "Memo");
    assert_eq!(plan.wrappers[1].argument, "ForwardRef");
    assert!(matches!(&plan.export, ExportPlan::Named { local, exported, previous: Some(p) }
        if local == "Memo" && exported == "Component" && p == "export default \"logo.svg\";"));
    let body = Ok(vec![TopStatement::Other]);
    assert!(check_previous_export(previous, &body, "Component").is_ok());
    let result = code(r#"<svg />"#, options);
    assert!(result.contains("import { forwardRef, memo } from \"react\";"));
    assert!(result.contains("const ForwardRef = forwardRef(SvgComponent);"));
    assert!(result.contains("const Memo = memo(ForwardRef);"));
    assert!(result.contains("export { Memo as Component };"));
    assert!(result.contains("export default \"logo.svg\";"));
}

#[test]
fn supports_typescript_props() {
    let options = TransformOptions {
        typescript: true,
        title_prop: true,
        ref_: true,
        ..TransformOptions::default()
    };
    let plan = plan_with(r#"<svg />"#, &options, &[]);
    assert_eq!(plan.props_interface, vec!["title", "titleId"]);
    let types = plan.imports.iter().find(|i| i.type_only).unwrap();
    assert_eq!(types.source, "react");
    assert_eq!(specifier_names(types), vec!["SVGProps", "Ref"]);
    match &plan.params[0] {
        Param::Object { annotation, .. } => {
            assert_eq!(annotation[0].name, "SVGProps");
            assert_eq!(annotation[0].argument.as_deref(), Some("SVGSVGElement"));
            assert_eq!(annotation[1].name, "SVGRProps");
        },
        other => panic!("unexpected parameter {other:?}"),
    }
    match &plan.params[1] {
        Param::Binding { name, annotation } => {
            assert_eq!(name, "ref");
            assert_eq!(annotation[0].name, "Ref");
            assert_eq!(annotation[0].argument.as_deref(), Some("SVGSVGElement"));
        },
        other => panic!("unexpected parameter {other:?}"),
    }
    let result = code(r#"<svg />"#, options);
    assert!(result.contains("interface SVGRProps"));
    assert!(result.contains("import type { SVGProps, Ref } from \"react\";"));
    assert!(result.contains("SVGProps<SVGSVGElement> & SVGRProps"));
    assert!(result.contains("ref: Ref<SVGSVGElement>"));
}

#[test]
fn dimensions_false_removes_source_dimensions_before_adding_svg_props() {
    let options = TransformOptions {
        dimensions: false,
        svg_props: vec![("width".into(), "1em".into())],
        ..TransformOptions::default()
    };
    let plan = plan_with(r#"<svg width="10" height="20" viewBox="0 0 10 20" />"#, &options, &["10", "20"]);
    assert_eq!(attr_names(&plan.jsx), vec!["viewBox", "width", "...props"]);
    assert_eq!(str_attr(&plan.jsx, "width").as_deref(), Some("1em"));
    assert!(attr(&plan.jsx, "height").is_none());
    let result = code(r#"<svg width="10" height="20" viewBox="0 0 10 20" />"#, options);
    assert!(result.contains("<svg viewBox=\"0 0 10 20\" width=\"1em\" {...props} />"));
    assert!(!result.contains("height="));
}

#[test]
fn replace_attr_values_applies_to_source_and_added_svg_attributes() {
    let options = TransformOptions {
        svg_props: vec![("role".into(), "img".into())],
        replace_attr_values: vec![
            ("#fff".into(), "{props.color}".into()),
            ("img".into(), "presentation".into()),
        ],
        ..TransformOptions::default()
    };
    let plan = plan_with(r##"<svg fill="#fff" />"##, &options, &[]);
    assert!(matches!(attr(&plan.jsx, "fill"), Some(Some(JsxValue::Expression(e))) if e == "props.color"));
    assert_eq!(str_attr(&plan.jsx, "role").as_deref(), Some("presentation"));
    let result = code(r##"<svg fill="#fff" />"##, options);
    assert!(result.contains("fill={props.color}"));
    assert!(result.contains("role=\"presentation\""));
}

#[test]
fn preserves_mapping_and_normalization_after_lazy_string_paths() {
    let plan = plan_with(
        r#"<svg viewbox="0 0 1 1" DATA-ID="Logo" aria-LABEL="Icon" title="A&#10;B"><title>Tom &amp; Jerry</title><path stroke-width="2" style="stroke-width: 2px; --brand-color: red" /></svg>"#,
        &TransformOptions::default(),
        &["2"],
    );
    assert_eq!(str_attr(&plan.jsx, "viewBox").as_deref(), Some("0 0 1 1"));
    assert_eq!(str_attr(&plan.jsx, "data-id").as_deref(), Some("Logo"));
    assert_eq!(str_attr(&plan.jsx, "aria-label").as_deref(), Some("Icon"));
    assert_eq!(str_attr(&plan.jsx, "title").as_deref(), Some("A B"));
    let title = element(&plan.jsx.children[0]);
    assert!(matches!(&title.children[0], JsxChild::Text(t) if t == "Tom & Jerry"));
    let path = element(&plan.jsx.children[1]);
    assert!(matches!(attr(path, "strokeWidth"), Some(Some(JsxValue::Number(n))) if n == "2"));
    match attr(path, "style") {
        Some(Some(JsxValue::Style(entries))) => {
            assert_eq!(entries.len(), 2);
            assert_eq!(entries[0].key, "strokeWidth");
            assert!(!entries[0].quoted_key);
            assert_eq!(entries[0].value, "2px");
            assert_eq!(entries[1].key, "--brand-color");
            assert!(entries[1].quoted_key);
            assert_eq!(entries[1].value, "red");
        },
        other => panic!("unexpected style {other:?}"),
    }
    let result = code(
        r#"<svg viewbox="0 0 1 1" DATA-ID="Logo" aria-LABEL="Icon" title="A&#10;B"><title>Tom &amp; Jerry</title><path stroke-width="2" style="stroke-width: 2px; --brand-color: red" /></svg>"#,
        TransformOptions::default(),
    );
    assert!(result.contains("viewBox=\"0 0 1 1\""));
    assert!(result.contains("data-id=\"Logo\""));
    assert!(result.contains("aria-label=\"Icon\""));
    assert!(result.contains("title=\"A B\""));
    assert!(result.contains("<title>{\"Tom & Jerry\"}</title>"));
    assert!(result.contains("strokeWidth={2}"));
    assert!(result.contains("strokeWidth: 2"));
    assert!(result.contains("\"--brand-color\": \"red\""));
}

#[test]
fn keeps_structured_svg_attributes_as_strings() {
    let plan = plan_with(
        r#"<svg viewBox="1"><path d="1" transform="1" /><polyline points="1" /></svg>"#,
        &TransformOptions::default(),
        &["1"],
    );
    assert_eq!(str_attr(&plan.jsx, "viewBox").as_deref(), Some("1"));
    let path = element(&plan.jsx.children[0]);
    assert_eq!(str_attr(path, "d").as_deref(), Some("1"));
    assert_eq!(str_attr(path, "transform").as_deref(), Some("1"));
    let polyline = element(&plan.jsx.children[1]);
    assert_eq!(str_attr(polyline, "points").as_deref(), Some("1"));
    let result = code(
        r#"<svg viewBox="1"><path d="1" transform="1" /><polyline points="1" /></svg>"#,
        TransformOptions::default(),
    );
    assert!(result.contains("viewBox=\"1\""));
    assert!(result.contains("d=\"1\""));
    assert!(result.contains("transform=\"1\""));
    assert!(result.contains("points=\"1\""));
}

#[test]
fn borrows_attribute_values_that_need_no_normalization() {
    assert_eq!(normalize_attribute_value("M0 0 L10 10"), "M0 0 L10 10");
    assert_eq!(normalize_attribute_value("A&#10;B"), "A B");
    assert_eq!(normalize_attribute_value("A\u{2028}B"), "A B");
}

#[test]
fn native_drops_unsupported_subtrees_during_sink_time() {
    let options = TransformOptions {
        native: true,
        ..TransformOptions::default()
    };
    let plan = plan_with(r#"<svg><g><div><path d="M0 0" /></div><path d="M1 1" /></g></svg>"#, &options, &[]);
    assert_eq!(specifier_names(&plan.imports[1]), vec!["default Svg", "G", "Path"]);
    assert_eq!(plan.jsx.name, "Svg");
    assert_eq!(attr_names(&plan.jsx), vec!["...props"]);
    let g = element(&plan.jsx.children[0]);
    assert_eq!(g.children.len(), 1);
    let path = element(&g.children[0]);
    assert_eq!(str_attr(path, "d").as_deref(), Some("M1 1"));
    let result = code(
        r#"<svg><g><div><path d="M0 0" /></div><path d="M1 1" /></g></svg>"#,
        TransformOptions { native: true, ..TransformOptions::default() },
    );
    assert!(result.contains("import Svg, { G, Path } from \"react-native-svg\";"));
    assert!(result.contains("<Svg {...props}><G><Path d=\"M1 1\" /></G></Svg>"));
    assert!(!result.contains("M0 0"));
    assert!(!result.contains("div"));
}

#[test]
fn native_preserves_existing_uppercase_svg_root() {
    let options = TransformOptions {
        native: true,
        ..TransformOptions::default()
    };
    let plan = plan_with(r#"<Svg><path d="M0 0" /></Svg>"#, &options, &[]);
    assert_eq!(specifier_names(&plan.imports[1]), vec!["default Svg", "Path"]);
    assert_eq!(plan.jsx.name, "Svg");
    assert_eq!(attr_names(&plan.jsx), vec!["...props"]);
    assert_eq!(element(&plan.jsx.children[0]).name, "Path");
    let result = code(r#"<Svg><path d="M0 0" /></Svg>"#, TransformOptions { native: true, ..TransformOptions::default() });
    assert!(result.contains("import Svg, { Path } from \"react-native-svg\";"));
    assert!(result.contains("<Svg {...props}><Path d=\"M0 0\" /></Svg>"));
}

#[test]
fn native_keeps_dynamic_title_fallback_when_title_prop_is_enabled() {
    let options = TransformOptions {
        native: true,
        title_prop: true,
        ..TransformOptions::default()
    };
    let plan = plan_with(r#"<svg><title id="a">Hello</title><path d="M0 0" /></svg>"#, &options, &[]);
    assert_eq!(specifier_names(&plan.imports[1]), vec!["default Svg", "Path"]);
    match &plan.jsx.children[0] {
        JsxChild::Dynamic { tag, fallback: Some(title) } => {
            assert_eq!(tag, "title");
            assert!(matches!(attr(title, "id"), Some(Some(JsxValue::IdOr { id, fallback })) if id == "titleId" && fallback == "a"));
        },
        other => panic!("unexpected child {other:?}"),
    }
    assert_eq!(element(&plan.jsx.children[1]).name, "Path");
    let result = code(
        r#"<svg><title id="a">Hello</title><path d="M0 0" /></svg>"#,
        TransformOptions { native: true, title_prop: true, ..TransformOptions::default() },
    );
    assert!(result.contains("import Svg, { Path } from \"react-native-svg\";"));
    assert!(result.contains("title === undefined ? <title id={titleId || \"a\"}>"));
    assert!(result.contains("<Path d=\"M0 0\" />"));
}

#[test]
fn rejects_invalid_identifier_options() {
    let err = error_with(
        r#"<svg />"#,
        &TransformOptions {
            component_name: "Svg;Component".into(),
            ..TransformOptions::default()
        },
    );
    assert!(matches!(err, TransformError::InvalidOptions(_)));

    let err = error_with(
        r#"<svg />"#,
        &TransformOptions {
            jsx_runtime_import: Some(JsxRuntimeImport {
                source: "preact".into(),
                namespace: None,
                default_specifier: None,
                specifiers: vec!["hacked;".into()],
            }),
            ..TransformOptions::default()
        },
    );
    assert!(matches!(err, TransformError::InvalidOptions(_)));
    let err = transformed(
        r#"<svg />"#,
        TransformOptions { component_name: "Svg;Component".into(), ..TransformOptions::default() },
    )
    .unwrap_err();
    assert!(matches!(err, TransformError::InvalidOptions(_)));
}

#[test]
fn parses_previous_export_as_statements() {
    let previous = r#"const img = "logo.svg"; export default img;"#;
    let options = TransformOptions {
        named_export: "Component".into(),
        previous_export: Some(previous.into()),
        ..TransformOptions::default()
    };
    let plan = plan_with(r#"<svg />"#, &options, &[]);
    assert!(matches!(&plan.export, ExportPlan::Named { local, exported, previous: Some(p) }
        if local == "SvgComponent" && exported == "Component" && p == previous));
    let body = Ok(vec![TopStatement::Other, TopStatement::Other]);
    assert!(check_previous_export(previous, &body, "Component").is_ok());
    let result = code(r#"<svg />"#, options);
    assert!(result.contains("export { SvgComponent as Component };"));
    assert!(result.contains("const img = \"logo.svg\";"));
    assert!(result.contains("export default img;"));
}

#[test]
fn rejects_invalid_or_conflicting_previous_export() {
    let invalid = TransformOptions {
        previous_export: Some("export default ;".into()),
        ..TransformOptions::default()
    };
    let err = error_with("<svg />", &invalid);
    assert!(matches!(&err, TransformError::InvalidOptions(m) if m.starts_with("invalid previousExport: ")));
    let conflicting = TransformOptions {
        named_export: "Component".into(),
        previous_export: Some("export { value as Component };".into()),
        ..TransformOptions::default()
    };
    let err = error_with("<svg />", &conflicting);
    assert!(matches!(&err, TransformError::InvalidOptions(m) if m == "previousExport already exports `Component`"));

    let parsed = Err("Unexpected token".to_string());
    let err = check_previous_export("export default ;", &parsed, "ReactComponent").unwrap_err();
    assert!(matches!(err, TransformError::InvalidOptions(_)));

    let body = Ok(vec![TopStatement::ExportNamed {
        exported: vec!["Component".into()],
        declaration: None,
    }]);
    let err = check_previous_export("export { value as Component };", &body, "Component").unwrap_err();
    assert!(matches!(err, TransformError::InvalidOptions(_)));
    let err = transformed(
        r#"<svg />"#,
        TransformOptions { previous_export: Some("export default ;".into()), ..TransformOptions::default() },
    )
    .unwrap_err();
    assert!(matches!(err, TransformError::InvalidOptions(_)));
    let err = transformed(
        r#"<svg />"#,
        TransformOptions {
            export_type: ExportType::Named,
            named_export: "Component".into(),
            previous_export: Some("export { value as Component };".into()),
            ..TransformOptions::default()
        },
    )
    .unwrap_err();
    assert!(matches!(err, TransformError::InvalidOptions(_)));
}

#[test]
fn optimises_then_transforms_in_one_call() {
    let optimised = optimise(
        r#"<svg viewBox="0 0 10 10"><!-- comment --><path d="M 0 0 L 10 10"/></svg>"#,
        &oxvg_optimiser::Jobs::default(),
    );
    let options = TransformOptions {
        component_name: "Icon".into(),
        ..TransformOptions::default()
    };
    let plan = combined_plan(optimised, &options, &Vec::new()).unwrap();
    assert_eq!(plan.component_name, "Icon");
    assert!(plan.jsx.children.iter().any(|c| matches!(c, JsxChild::Element(e) if e.name == "path")));
    assert!(!plan.jsx.children.iter().any(|c| matches!(c, JsxChild::Text(t) if t.contains("comment"))));
}

#[test]
fn multiple_roots_are_refused() {
    let err = error_with("<svg/><svg/>", &TransformOptions::default());
    assert!(matches!(err, TransformError::BuildJsx(m) if m == "SVG document contains multiple root elements"));
}

#[test]
fn a_document_without_an_element_is_refused() {
    let err = error_with("text", &TransformOptions::default());
    assert!(matches!(err, TransformError::BuildJsx(m) if m == "SVG document does not contain a root element"));
}

#[test]
fn a_mismatched_closing_tag_is_refused() {
    let err = error_with("<svg><g></svg>", &TransformOptions::default());
    assert!(matches!(err, TransformError::BuildJsx(m) if m == "expected closing tag </g> but found </svg>"));
}

#[test]
fn a_syntax_error_is_reported_as_such() {
    let err = error_with("<svg", &TransformOptions::default());
    assert!(matches!(err, TransformError::ParseSvg(_)));
}

#[test]
fn an_invalid_expression_in_svg_props_is_refused() {
    let options = TransformOptions {
        svg_props: vec![("x".into(), "{1 +}".into())],
        ..TransformOptions::default()
    };
    let err = error_with("<svg/>", &options);
    assert!(matches!(err, TransformError::InvalidExpression { expr } if expr == "1 +"));
}

#[test]
fn expand_props_start_puts_the_spread_first() {
    let options = TransformOptions {
        expand_props: ExpandProps::Start,
        ..TransformOptions::default()
    };
    let plan = plan_with(r#"<svg fill="red" />"#, &options, &[]);
    assert_eq!(attr_names(&plan.jsx), vec!["...props", "fill"]);
}

#[test]
fn classic_preact_imports_h() {
    let mut options = TransformOptions::default();
    svgr2::apply_jsx_runtime(&mut options, "classic-preact").unwrap();
    let plan = plan_with("<svg/>", &options, &[]);
    assert_eq!(plan.imports[0].source, "preact");
    assert_eq!(specifier_names(&plan.imports[0]), vec!["h"]);
}

#[test]
fn reserved_words_are_not_binding_names() {
    let err = error_with(
        "<svg/>",
        &TransformOptions { component_name: "class".into(), ..TransformOptions::default() },
    );
    assert!(matches!(err, TransformError::InvalidOptions(m) if m == "componentName must be a valid JavaScript binding identifier"));
    assert!(svgr2::validate_binding_name("namedExport", "Icon").is_ok());
}

#[test]
fn jsx_follows_the_parse_tree() {
    let source = r#"<svg><g><rect/></g>text<circle/></svg>"#;
    let document = svgr2::parse(source).unwrap();
    let svgr2::SvgNode::Element(svg) = &document.children[0] else { panic!("expected svg") };
    let jsx = svgr2::svg_to_jsx(source, &TransformOptions::default(), &Vec::new()).unwrap();
    assert_eq!(jsx.name, svg.name);
    assert_eq!(jsx.children.len(), svg.children.len());
    assert_eq!(element(&jsx.children[0]).name, "g");
    assert_eq!(element(&element(&jsx.children[0]).children[0]).name, "rect");
    assert!(matches!(&jsx.children[1], JsxChild::Text(t) if t == "text"));
    assert_eq!(element(&jsx.children[2]).name, "circle");
}

#[test]
fn optimising_removes_comments_and_returns_different_text() {
    let source = r#"<svg viewBox="0 0 10 10"><!-- comment --><path d="M 0 0 L 10 10"/></svg>"#;
    let text = optimise(source, &oxvg_optimiser::Jobs::default()).unwrap();
    assert_ne!(text, source);
    assert!(!text.contains("comment"));
    assert!(text.contains("<path"));
}

#[test]
fn an_expression_option_keeps_the_declared_value() {
    assert_eq!(parse_expression("props.color").as_deref(), Some("props.color"));
    assert_eq!(parse_expression("a); const b = (c").as_deref(), Some("c"));
    assert_eq!(parse_expression("1 +"), None);
    assert_eq!(parse_expression("a); foo("), None);
}

#[test]
fn previous_export_is_read_and_checked() {
    assert!(parse_previous_export("  const img = 1; export default img;  ", false, "Component").is_ok());
    let err = parse_previous_export("export const Component = 1;", false, "Component").unwrap_err();
    assert!(matches!(&err, TransformError::InvalidOptions(m) if m == "previousExport already exports `Component`"));
    let err = parse_previous_export("export default ;", false, "Component").unwrap_err();
    assert!(matches!(&err, TransformError::InvalidOptions(m)
        if m.starts_with("invalid previousExport: invalid generated JavaScript: ") && m.ends_with("\nexport default ;")));
    assert!(parse_previous_export("export interface Props { a: string }", true, "Component").is_ok());
}

#[test]
fn object_pairs_keep_one_pair_per_key_in_key_order() {
    let mut pairs = ObjectPairs::new();
    pairs.insert("b".into(), "1".into());
    pairs.insert("a".into(), "2".into());
    pairs.insert("c".into(), "3".into());
    pairs.insert("b".into(), "4".into());
    let v = pairs.into_vec();
    assert_eq!(
        v,
        vec![
            ("a".to_string(), "2".to_string()),
            ("b".to_string(), "4".to_string()),
            ("c".to_string(), "3".to_string()),
        ]
    );
}

#[test]
fn strings_are_joined_with_the_separator() {
    assert_eq!(join_strings(&vec!["a".into(), "b".into(), "c".into()], "; "), "a; b; c");
    assert_eq!(join_strings(&Vec::new(), "; "), "");
}

#[test]
fn without_options_the_root_gains_no_attribute() {
    let options = TransformOptions {
        expand_props: ExpandProps::Disabled,
        ..TransformOptions::default()
    };
    let plan = plan_with(r#"<svg viewBox="0 0 1 1"/>"#, &options, &[]);
    assert_eq!(attr_names(&plan.jsx), vec!["viewBox"]);
}

#[test]
fn the_module_text_is_written_statement_by_statement() {
    let plan = plan_with(r#"<svg width="2"><title>a"b</title></svg>"#, &TransformOptions::default(), &["2"]);
    let numerals = Numerals { texts: vec![("2".into(), "2".into())], bits: Vec::new() };
    assert_eq!(
        module_text(&plan, &numerals),
        "import * as React from \"react\";\nconst SvgComponent = (props) => <svg width={2} {...props}><title>{\"a\\\"b\"}</title></svg>;\nexport default SvgComponent;\n"
    );
}

#[test]
fn the_optimised_document_is_printed() {
    let source = r#"<svg viewBox="0 0 10 10"><!-- comment --><path d="M 0 0 L 10 10"/></svg>"#;
    let options = TransformOptions { component_name: "Icon".into(), ..TransformOptions::default() };
    let optimised = optimise(source, &oxvg_optimiser::Jobs::default());
    let text = optimised.as_ref().unwrap().clone();
    let (numbers, numerals) = numbers_of(&text, &options);
    let result = print_combined(optimised, &options, &numbers, &numerals).unwrap();
    assert!(result.code.contains("const Icon = (props) =>"));
    assert!(result.code.contains("<path"));
    assert!(!result.code.contains("comment"));
}
