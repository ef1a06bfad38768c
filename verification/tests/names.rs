use svgr2::{
    camelize_svg_name, convert_aria_attribute, decode_xml, is_always_string_attribute,
    is_xml_space_replacement, map_attribute_name, map_element_name, native_component_name,
    starts_with_ignore_ascii_case, style_entries, upsert_attribute, remove_attributes,
    replace_values, AttrSpec, AttrValueSpec, ExpandProps, JsxAttr, JsxValue, CombinedError,
    TransformError, JsonTransformOptions, JsonExpandProps, JsonIcon, JsonStringPairs,
    JsonJsxRuntimeImport, TransformOptions, Icon, IconSize, ExportType, JsxRuntime,
    JsxRuntimeImport, TransformOptionsJsxRuntimeImport, ObjectPairs,
};

fn object_pairs(pairs: &[(&str, &str)]) -> ObjectPairs {
    let mut o = ObjectPairs::new();
    for (k, v) in pairs {
        o.insert(k.to_string(), v.to_string());
    }
    o
}

#[test]
fn decodes_named_and_numeric_entities() {
    assert_eq!(decode_xml("Tom &amp; Jerry"), "Tom & Jerry");
    assert_eq!(decode_xml("&lt;&gt;&quot;&apos;"), "<>\"'");
    assert_eq!(decode_xml("&#x41;&#66;&#x+43;"), "ABC");
    assert_eq!(decode_xml("a&#X41;b"), "ab");
    assert_eq!(decode_xml("&#xD800;&#99999999999;"), "");
    assert_eq!(decode_xml("&nbsp;x"), "&nbsp;x");
    assert_eq!(decode_xml("a & b"), "a & b");
    assert_eq!(decode_xml("plain"), "plain");
}

#[test]
fn camelizes_names() {
    assert_eq!(camelize_svg_name("stroke-width"), "strokeWidth");
    assert_eq!(camelize_svg_name("xlink:href"), "xlinkHref");
    assert_eq!(camelize_svg_name("a--b"), "aB");
    assert_eq!(camelize_svg_name("plain"), "plain");
    assert_eq!(camelize_svg_name("x-é"), "xÉ");
}

#[test]
fn converts_aria_attributes() {
    assert_eq!(convert_aria_attribute("aria-LABEL"), "aria-label");
    assert_eq!(convert_aria_attribute("ARIA-Label-Ledby"), "aria-labelledby");
}

#[test]
fn maps_attribute_names() {
    assert_eq!(map_attribute_name("class", "g"), "className");
    assert_eq!(map_attribute_name("CLASSNAME", "g"), "className");
    assert_eq!(map_attribute_name("checked", "input"), "defaultChecked");
    assert_eq!(map_attribute_name("value", "input"), "defaultValue");
    assert_eq!(map_attribute_name("value", "g"), "value");
    assert_eq!(map_attribute_name("for", "label"), "htmlFor");
    assert_eq!(map_attribute_name("xmlns:xlink", "svg"), "xmlnsXlink");
    assert_eq!(map_attribute_name("xml:space", "svg"), "xmlSpace");
    assert_eq!(map_attribute_name("DATA-Id", "svg"), "data-id");
    assert_eq!(map_attribute_name("fill-rule", "path"), "fillRule");
}

#[test]
fn maps_element_names() {
    assert_eq!(map_element_name("lineargradient"), "linearGradient");
    assert_eq!(map_element_name("feturbulence"), "feTurbulence");
    assert_eq!(map_element_name("path"), "path");
    assert_eq!(native_component_name("tspan").as_deref(), Some("TSpan"));
    assert_eq!(native_component_name("div"), None);
}

#[test]
fn classifies_attributes_and_characters() {
    assert!(is_always_string_attribute("points"));
    assert!(!is_always_string_attribute("width"));
    assert!(is_xml_space_replacement('\u{2029}'));
    assert!(!is_xml_space_replacement(' '));
    assert!(starts_with_ignore_ascii_case("ARIA-x", "aria-"));
    assert!(!starts_with_ignore_ascii_case("ari", "aria-"));
}

#[test]
fn reads_style_declarations() {
    let entries = style_entries(" -ms-transform : rotate(1deg) ; ; nocolon; :x; fill:red;data-x:1");
    let got: Vec<(String, bool, String)> =
        entries.into_iter().map(|e| (e.key, e.quoted_key, e.value)).collect();
    assert_eq!(
        got,
        vec![
            ("transform".to_string(), false, "rotate(1deg)".to_string()),
            ("fill".to_string(), false, "red".to_string()),
            ("dataX".to_string(), false, "1".to_string()),
        ]
    );
}

fn named(name: &str, value: &str) -> JsxAttr {
    JsxAttr::Named { name: name.into(), value: Some(JsxValue::Str(value.into())) }
}

fn spec(name: &str, value: &str, position: ExpandProps) -> AttrSpec {
    AttrSpec { name: name.into(), value: AttrValueSpec::Str(value.into()), spread: false, position }
}

fn names(attrs: &[JsxAttr]) -> Vec<String> {
    attrs
        .iter()
        .map(|a| match a {
            JsxAttr::Named { name, value: Some(JsxValue::Str(v)) } => format!("{name}={v}"),
            JsxAttr::Named { name, .. } => name.clone(),
            JsxAttr::Spread { name } => format!("...{name}"),
        })
        .collect()
}

#[test]
fn upsert_replaces_or_adds_and_is_idempotent() {
    let mut attrs = vec![named("fill", "red"), named("width", "1")];
    upsert_attribute(&mut attrs, &spec("width", "2", ExpandProps::End)).unwrap();
    assert_eq!(names(&attrs), vec!["fill=red", "width=2"]);
    upsert_attribute(&mut attrs, &spec("role", "img", ExpandProps::Start)).unwrap();
    assert_eq!(names(&attrs), vec!["role=img", "fill=red", "width=2"]);
    upsert_attribute(&mut attrs, &spec("role", "img", ExpandProps::Start)).unwrap();
    assert_eq!(names(&attrs), vec!["role=img", "fill=red", "width=2"]);
}

#[test]
fn removes_and_replaces_attributes() {
    let attrs = vec![named("version", "1.1"), named("fill", "#000"), named("stroke", "#000")];
    let attrs = remove_attributes(attrs, &vec!["version".to_string()]);
    assert_eq!(names(&attrs), vec!["fill=#000", "stroke=#000"]);
    let pairs = vec![("#000".to_string(), "a".to_string()), ("#000".to_string(), "b".to_string())];
    let attrs = replace_values(attrs, &pairs).unwrap();
    assert_eq!(names(&attrs), vec!["fill=b", "stroke=b"]);
}

#[test]
fn error_messages() {
    let e = CombinedError::Optimise("bad".into());
    assert_eq!(e.message(), "unable to optimise SVG: bad");
    let e: CombinedError = TransformError::InvalidOptions("x".into()).into();
    assert_eq!(e.message(), "invalid transform options: x");
    let e = TransformError::InvalidExpression { expr: "1 +".into() };
    assert_eq!(e.message(), "invalid JavaScript expression `1 +`");
}

fn empty_json() -> JsonTransformOptions {
    JsonTransformOptions {
        component_name: None,
        previous_export: None,
        ref_: None,
        title_prop: None,
        desc_prop: None,
        expand_props: None,
        dimensions: None,
        icon: None,
        native: None,
        typescript: None,
        memo: None,
        svg_props: None,
        replace_attr_values: None,
        export_type: None,
        named_export: None,
        jsx_runtime: None,
        jsx_runtime_import: None,
        import_source: None,
    }
}

#[test]
fn defaults_empty_options() {
    assert_eq!(empty_json().into_transform_options().unwrap(), TransformOptions::default());
}

#[test]
fn parses_all_option_shapes() {
    let json = JsonTransformOptions {
        component_name: Some("Icon".into()),
        previous_export: Some("export default 'icon.svg'".into()),
        ref_: Some(true),
        title_prop: Some(true),
        desc_prop: Some(true),
        expand_props: Some(JsonExpandProps::Bool(false)),
        dimensions: Some(false),
        icon: Some(JsonIcon::Number(24.0f64.to_bits())),
        native: Some(true),
        typescript: Some(true),
        memo: Some(true),
        svg_props: Some(JsonStringPairs::Pairs(vec![("role".into(), "img".into())])),
        replace_attr_values: Some(JsonStringPairs::Object(object_pairs(&[("#000", "{props.color}")]))),
        export_type: Some("named".into()),
        named_export: Some("Component".into()),
        jsx_runtime: Some("automatic".into()),
        jsx_runtime_import: Some(JsonJsxRuntimeImport {
            source: "custom".into(),
            namespace: Some("JSX".into()),
            default_specifier: Some("createElement".into()),
            specifiers: vec!["Fragment".into()],
        }),
        import_source: Some("ignored".into()),
    };
    let options = json.into_transform_options().unwrap();
    assert_eq!(options.component_name, "Icon");
    assert_eq!(options.previous_export.as_deref(), Some("export default 'icon.svg'"));
    assert!(options.ref_);
    assert!(options.title_prop);
    assert!(options.desc_prop);
    assert_eq!(options.expand_props, ExpandProps::Disabled);
    assert!(!options.dimensions);
    assert_eq!(options.icon, Icon::Size(IconSize::Number(24.0f64.to_bits())));
    assert!(options.native);
    assert!(options.typescript);
    assert!(options.memo);
    assert_eq!(options.svg_props, vec![("role".into(), "img".into())]);
    assert_eq!(options.replace_attr_values, vec![("#000".into(), "{props.color}".into())]);
    assert_eq!(options.export_type, ExportType::Named);
    assert_eq!(options.named_export, "Component");
    assert_eq!(options.jsx_runtime, JsxRuntime::Classic);
    assert_eq!(options.import_source, "custom");
    assert_eq!(
        options.jsx_runtime_import,
        Some(JsxRuntimeImport {
            source: "custom".into(),
            namespace: Some("JSX".into()),
            default_specifier: Some("createElement".into()),
            specifiers: vec!["Fragment".into()],
        })
    );
}

#[test]
fn rejects_malformed_json_and_unsupported_values() {
    let mut j = empty_json();
    j.expand_props = Some(JsonExpandProps::String("middle".into()));
    assert!(matches!(j.into_transform_options(), Err(TransformError::InvalidOptions(_))));
    let mut j = empty_json();
    j.export_type = Some("commonjs".into());
    assert!(matches!(j.into_transform_options(), Err(TransformError::InvalidOptions(_))));
    let mut j = empty_json();
    j.jsx_runtime = Some("custom".into());
    assert!(matches!(j.into_transform_options(), Err(TransformError::InvalidOptions(_))));
}

#[test]
fn node_runtime_import_defaults_its_specifiers() {
    let import = TransformOptionsJsxRuntimeImport {
        source: "preact".into(),
        namespace: None,
        default_specifier: None,
        specifiers: None,
    }
    .into_jsx_runtime_import();
    assert_eq!(import.source, "preact");
    assert!(import.specifiers.is_empty());
}

#[test]
fn style_keys_that_are_not_identifiers_are_quoted() {
    let entries = style_entries("1a: x; -webkit-box: y");
    assert_eq!(entries[0].key, "1a");
    assert!(entries[0].quoted_key);
    assert_eq!(entries[1].key, "WebkitBox");
    assert!(!entries[1].quoted_key);
}

#[test]
fn plain_text_is_left_as_it_is() {
    assert_eq!(decode_xml("M0 0 L10 10"), "M0 0 L10 10");
    assert_eq!(camelize_svg_name("viewBox"), "viewBox");
}
