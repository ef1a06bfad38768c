use vstd::prelude::*;
use vstd::string::StringExecFns;

use crate::options::{
    apply_jsx_runtime, parse_export_type, unsupported, unsupported_message, ExpandProps,
    ExportType, Icon, IconSize, JsxRuntime, JsxRuntimeImport, TransformError, TransformOptions,
};
use crate::attrs::pairs_view;
use crate::order::{lemma_less_total, lemma_less_transitive, seq_less, str_less};
use crate::text::str_eq;

verus! {

/// `expandProps` as JSON gives it: a boolean or a string.
#[derive(Debug)]
pub enum JsonExpandProps {
    Bool(bool),
    String(String),
}

/// `icon` as JSON gives it: a boolean, a number (by its IEEE 754 bits) or a string.
#[derive(Debug)]
pub enum JsonIcon {
    Bool(bool),
    Number(u64),
    String(String),
}

/// The keys of `p` ascend: each comes before every one after it, so none occurs twice.
pub open spec fn keys_ascend(p: Seq<(String, String)>) -> bool {
    forall|i: int, j: int| 0 <= i < j < p.len() ==> seq_less(#[trigger] p[i].0@, #[trigger] p[j].0@)
}

/// Whether `i` is where `key` belongs among the pairs `p`: after every key less than it, at
/// or before every other.
pub open spec fn key_slot(p: Seq<(Seq<char>, Seq<char>)>, key: Seq<char>, i: int) -> bool {
    &&& 0 <= i <= p.len()
    &&& forall|j: int| 0 <= j < i ==> seq_less(#[trigger] p[j].0, key)
    &&& forall|j: int| i <= j < p.len() ==> !seq_less(#[trigger] p[j].0, key)
}

/// The name and value pairs of a JSON object: one pair per key, in key order.
#[derive(Debug)]
pub struct ObjectPairs {
    pairs: Vec<(String, String)>,
}

impl ObjectPairs {
    #[verifier::type_invariant]
    spec fn ascending(self) -> bool {
        keys_ascend(self.pairs@)
    }

    /// The pairs, in key order.
    pub closed spec fn pairs(self) -> Vec<(String, String)> {
        self.pairs
    }

    /// No pairs.
    pub fn new() -> (r: Self)
        ensures
            r.pairs()@.len() == 0,
    {
        ObjectPairs { pairs: Vec::new() }
    }

    /// Sets the value of `key` to `value`: the pair of that key is replaced where there is
    /// one, else the pair goes where its key belongs in key order.
    pub fn insert(&mut self, key: String, value: String)
        ensures
            exists|i: int|
                key_slot(pairs_view(old(self).pairs()@), key@, i) && pairs_view(
                    final(self).pairs()@,
                ) == if i < old(self).pairs()@.len() && old(self).pairs()@[i].0@ == key@ {
                    pairs_view(old(self).pairs()@).update(i, (key@, value@))
                } else {
                    pairs_view(old(self).pairs()@).insert(i, (key@, value@))
                },
    {
        proof {
            use_type_invariant(&*self);
        }
        let ghost old_pairs = self.pairs@;
        let mut v: Vec<(String, String)> = Vec::new();
        std::mem::swap(&mut v, &mut self.pairs);
        let ghost pv = pairs_view(v@);
        let mut i: usize = 0;
        while i < v.len() && str_less(v[i].0.as_str(), key.as_str())
            invariant
                i <= v@.len(),
                v@ == old_pairs,
                pv == pairs_view(v@),
                keys_ascend(v@),
                forall|j: int| 0 <= j < i ==> seq_less(#[trigger] v@[j].0@, key@),
            decreases v@.len() - i,
        {
            i = i + 1;
        }
        assert forall|j: int| i <= j < v@.len() implies !seq_less(#[trigger] v@[j].0@, key@) by {
            if i < v@.len() && i < j {
                if seq_less(v@[j].0@, key@) {
                    lemma_less_transitive(v@[i as int].0@, v@[j].0@, key@);
                }
            }
        }
        assert(key_slot(pv, key@, i as int));
        if i < v.len() && str_eq(v[i].0.as_str(), key.as_str()) {
            v.set(i, (key, value));
            assert(pairs_view(v@) =~= pv.update(i as int, (v@[i as int].0@, v@[i as int].1@)));
            assert forall|a: int, b: int| 0 <= a < b < v@.len() implies seq_less(
                #[trigger] v@[a].0@,
                #[trigger] v@[b].0@,
            ) by {
                assert(seq_less(old_pairs[a].0@, old_pairs[b].0@));
            }
        } else {
            proof {
                if i < v@.len() {
                    lemma_less_total(v@[i as int].0@, key@);
                }
            }
            v.insert(i, (key, value));
            assert(pairs_view(v@) =~= pv.insert(i as int, (v@[i as int].0@, v@[i as int].1@)));
            assert forall|a: int, b: int| 0 <= a < b < v@.len() implies seq_less(
                #[trigger] v@[a].0@,
                #[trigger] v@[b].0@,
            ) by {
                if b < i {
                    assert(seq_less(old_pairs[a].0@, old_pairs[b].0@));
                } else if a < i && b == i {
                } else if a < i && b > i {
                    assert(seq_less(old_pairs[a].0@, old_pairs[b - 1].0@));
                } else if a == i {
                    assert(seq_less(key@, old_pairs[i as int].0@));
                    if b - 1 > i {
                        assert(seq_less(old_pairs[i as int].0@, old_pairs[b - 1].0@));
                        lemma_less_transitive(key@, old_pairs[i as int].0@, old_pairs[b - 1].0@);
                    }
                } else {
                    assert(seq_less(old_pairs[a - 1].0@, old_pairs[b - 1].0@));
                }
            }
        }
        self.pairs = v;
        assert(old_pairs == old(self).pairs()@);
        assert(self.pairs@ == self.pairs()@);
        assert(key_slot(pairs_view(old_pairs), key@, i as int) && pairs_view(self.pairs@) == if i
            < old_pairs.len() && old_pairs[i as int].0@ == key@ {
            pairs_view(old_pairs).update(i as int, (key@, value@))
        } else {
            pairs_view(old_pairs).insert(i as int, (key@, value@))
        });
    }

    /// The pairs, in key order.
    pub fn into_vec(self) -> (r: Vec<(String, String)>)
        ensures
            r == self.pairs(),
            keys_ascend(r@),
    {
        proof {
            use_type_invariant(&self);
        }
        self.pairs
    }
}

/// Name and value pairs, from a JSON object (in key order) or from an array of pairs.
#[derive(Debug)]
pub enum JsonStringPairs {
    Object(ObjectPairs),
    Pairs(Vec<(String, String)>),
}

#[derive(Debug)]
pub struct JsonJsxRuntimeImport {
    pub source: String,
    pub namespace: Option<String>,
    pub default_specifier: Option<String>,
    pub specifiers: Vec<String>,
}

/// The options object of the JSON interface; every field may be left out.
#[derive(Debug)]
pub struct JsonTransformOptions {
    pub component_name: Option<String>,
    pub previous_export: Option<String>,
    pub ref_: Option<bool>,
    pub title_prop: Option<bool>,
    pub desc_prop: Option<bool>,
    pub expand_props: Option<JsonExpandProps>,
    pub dimensions: Option<bool>,
    pub icon: Option<JsonIcon>,
    pub native: Option<bool>,
    pub typescript: Option<bool>,
    pub memo: Option<bool>,
    pub svg_props: Option<JsonStringPairs>,
    pub replace_attr_values: Option<JsonStringPairs>,
    pub export_type: Option<String>,
    pub named_export: Option<String>,
    pub jsx_runtime: Option<String>,
    pub jsx_runtime_import: Option<JsonJsxRuntimeImport>,
    pub import_source: Option<String>,
}

pub open spec fn expand_props_of(j: JsonExpandProps) -> Option<ExpandProps> {
    match j {
        JsonExpandProps::Bool(b) => Some(if b { ExpandProps::End } else { ExpandProps::Disabled }),
        JsonExpandProps::String(s) => if s@ == "start"@ {
            Some(ExpandProps::Start)
        } else if s@ == "end"@ {
            Some(ExpandProps::End)
        } else if s@ == "false"@ || s@ == "disabled"@ || s@ == "none"@ {
            Some(ExpandProps::Disabled)
        } else {
            None
        },
    }
}

impl JsonExpandProps {
    /// `true` and `"end"` put the spread last, `"start"` first; `false`, `"false"`,
    /// `"disabled"` and `"none"` leave it out.
    pub fn into_expand_props(self) -> (r: Result<ExpandProps, TransformError>)
        ensures
            match expand_props_of(self) {
                Some(e) => r == Ok::<ExpandProps, TransformError>(e),
                None => self matches JsonExpandProps::String(s) && r matches Err(
                    TransformError::InvalidOptions(m),
                ) && m@ == unsupported_message("expandProps"@, s@),
            },
    {
        proof {
            reveal_strlit("start");
            reveal_strlit("end");
            reveal_strlit("false");
            reveal_strlit("disabled");
            reveal_strlit("none");
        }
        match self {
            JsonExpandProps::Bool(true) => Ok(ExpandProps::End),
            JsonExpandProps::Bool(false) => Ok(ExpandProps::Disabled),
            JsonExpandProps::String(value) => {
                if str_eq(value.as_str(), "start") {
                    Ok(ExpandProps::Start)
                } else if str_eq(value.as_str(), "end") {
                    Ok(ExpandProps::End)
                } else if str_eq(value.as_str(), "false") || str_eq(value.as_str(), "disabled")
                    || str_eq(value.as_str(), "none") {
                    Ok(ExpandProps::Disabled)
                } else {
                    Err(unsupported("expandProps", value.as_str()))
                }
            },
        }
    }
}

pub open spec fn icon_of(j: JsonIcon) -> Icon {
    match j {
        JsonIcon::Bool(b) => if b { Icon::Default } else { Icon::Disabled },
        JsonIcon::Number(n) => Icon::Size(IconSize::Number(n)),
        JsonIcon::String(s) => Icon::Size(IconSize::String(s)),
    }
}

impl JsonIcon {
    /// `true` asks for the default icon size, `false` for none; a number or a string
    /// is the size.
    pub fn into_icon(self) -> (r: Icon)
        ensures
            r == icon_of(self),
    {
        match self {
            JsonIcon::Bool(true) => Icon::Default,
            JsonIcon::Bool(false) => Icon::Disabled,
            JsonIcon::Number(value) => Icon::Size(IconSize::Number(value)),
            JsonIcon::String(value) => Icon::Size(IconSize::String(value)),
        }
    }
}

pub open spec fn pairs_of(j: JsonStringPairs) -> Vec<(String, String)> {
    match j {
        JsonStringPairs::Object(o) => o.pairs(),
        JsonStringPairs::Pairs(v) => v,
    }
}

impl JsonStringPairs {
    /// The pairs, in the order given: an object's pairs come in key order, one per key.
    pub fn into_vec(self) -> (r: Vec<(String, String)>)
        ensures
            r == pairs_of(self),
            self is Object ==> keys_ascend(r@),
    {
        match self {
            JsonStringPairs::Object(values) => values.into_vec(),
            JsonStringPairs::Pairs(values) => values,
        }
    }
}

pub open spec fn runtime_import_of(j: JsonJsxRuntimeImport) -> JsxRuntimeImport {
    JsxRuntimeImport {
        source: j.source,
        namespace: j.namespace,
        default_specifier: j.default_specifier,
        specifiers: j.specifiers,
    }
}

impl JsonJsxRuntimeImport {
    pub fn into_jsx_runtime_import(self) -> (r: JsxRuntimeImport)
        ensures
            r == runtime_import_of(self),
    {
        JsxRuntimeImport {
            source: self.source,
            namespace: self.namespace,
            default_specifier: self.default_specifier,
            specifiers: self.specifiers,
        }
    }
}

pub open spec fn str_or(v: Option<String>, d: Seq<char>) -> Seq<char> {
    match v {
        Some(s) => s@,
        None => d,
    }
}

pub open spec fn bool_or(v: Option<bool>, d: bool) -> bool {
    match v {
        Some(b) => b,
        None => d,
    }
}

pub open spec fn is_runtime_name(v: Seq<char>) -> bool {
    v == "classic"@ || v == "automatic"@ || v == "classic-preact"@
}

/// The message of the first unsupported option value, in the order the options are read.
pub open spec fn json_options_error(j: JsonTransformOptions) -> Option<Seq<char>> {
    if j.expand_props is Some && expand_props_of(j.expand_props->Some_0) is None {
        Some(unsupported_message("expandProps"@, j.expand_props->Some_0->String_0@))
    } else if j.export_type is Some && j.export_type->Some_0@ != "default"@
        && j.export_type->Some_0@ != "named"@ {
        Some(unsupported_message("exportType"@, j.export_type->Some_0@))
    } else if j.jsx_runtime is Some && !is_runtime_name(j.jsx_runtime->Some_0@) {
        Some(unsupported_message("jsxRuntime"@, j.jsx_runtime->Some_0@))
    } else {
        None
    }
}

/// The options that JSON `j` gives, field by field, where it has no unsupported value.
pub open spec fn json_options_result(j: JsonTransformOptions, o: TransformOptions) -> bool {
    &&& o.component_name@ == str_or(j.component_name, "SvgComponent"@)
    &&& o.previous_export == j.previous_export
    &&& o.ref_ == bool_or(j.ref_, false)
    &&& o.title_prop == bool_or(j.title_prop, false)
    &&& o.desc_prop == bool_or(j.desc_prop, false)
    &&& o.expand_props == match j.expand_props {
        Some(e) => expand_props_of(e)->Some_0,
        None => ExpandProps::End,
    }
    &&& o.dimensions == bool_or(j.dimensions, true)
    &&& o.icon == match j.icon {
        Some(i) => icon_of(i),
        None => Icon::Disabled,
    }
    &&& o.native == bool_or(j.native, false)
    &&& o.typescript == bool_or(j.typescript, false)
    &&& o.memo == bool_or(j.memo, false)
    &&& o.svg_props@ == match j.svg_props {
        Some(p) => pairs_of(p)@,
        None => Seq::empty(),
    }
    &&& o.replace_attr_values@ == match j.replace_attr_values {
        Some(p) => pairs_of(p)@,
        None => Seq::empty(),
    }
    &&& o.export_type == match j.export_type {
        Some(v) => if v@ == "named"@ { ExportType::Named } else { ExportType::Default },
        None => ExportType::Default,
    }
    &&& o.named_export@ == str_or(j.named_export, "ReactComponent"@)
    &&& match j.jsx_runtime_import {
        Some(i) => {
            &&& o.jsx_runtime == JsxRuntime::Classic
            &&& o.import_source == i.source
            &&& o.jsx_runtime_import == Some(runtime_import_of(i))
        },
        None => if j.jsx_runtime matches Some(v) && v@ == "classic-preact"@ {
            &&& o.jsx_runtime == JsxRuntime::Classic
            &&& o.import_source@ == "preact/compat"@
            &&& (o.jsx_runtime_import matches Some(i) && i.source@ == "preact"@ && i.namespace is None
                && i.default_specifier is None && i.specifiers@.len() == 1 && i.specifiers@[0]@
                == "h"@)
        } else {
            &&& o.jsx_runtime == if j.jsx_runtime matches Some(v) && v@ == "automatic"@ {
                JsxRuntime::Automatic
            } else {
                JsxRuntime::Classic
            }
            &&& o.import_source@ == str_or(j.import_source, "react"@)
            &&& o.jsx_runtime_import is None
        },
    }
}

pub open spec fn or_keep<T>(v: Option<T>, old: T) -> T {
    match v {
        Some(x) => x,
        None => old,
    }
}

fn set_strings(
    o: &mut TransformOptions,
    component_name: Option<String>,
    previous_export: Option<String>,
    named_export: Option<String>,
    import_source: Option<String>,
)
    ensures
        *final(o) == (TransformOptions {
            component_name: or_keep(component_name, old(o).component_name),
            previous_export: if previous_export is Some { previous_export } else { old(o).previous_export },
            named_export: or_keep(named_export, old(o).named_export),
            import_source: or_keep(import_source, old(o).import_source),
            ..*old(o)
        }),
{
    if let Some(value) = component_name {
        o.component_name = value;
    }
    if let Some(value) = previous_export {
        o.previous_export = Some(value);
    }
    if let Some(value) = named_export {
        o.named_export = value;
    }
    if let Some(value) = import_source {
        o.import_source = value;
    }
}

fn set_flags(
    o: &mut TransformOptions,
    ref_: Option<bool>,
    title_prop: Option<bool>,
    desc_prop: Option<bool>,
    dimensions: Option<bool>,
    native: Option<bool>,
    typescript: Option<bool>,
    memo: Option<bool>,
)
    ensures
        *final(o) == (TransformOptions {
            ref_: or_keep(ref_, old(o).ref_),
            title_prop: or_keep(title_prop, old(o).title_prop),
            desc_prop: or_keep(desc_prop, old(o).desc_prop),
            dimensions: or_keep(dimensions, old(o).dimensions),
            native: or_keep(native, old(o).native),
            typescript: or_keep(typescript, old(o).typescript),
            memo: or_keep(memo, old(o).memo),
            ..*old(o)
        }),
{
    o.ref_ = ref_.unwrap_or(o.ref_);
    o.title_prop = title_prop.unwrap_or(o.title_prop);
    o.desc_prop = desc_prop.unwrap_or(o.desc_prop);
    o.dimensions = dimensions.unwrap_or(o.dimensions);
    o.native = native.unwrap_or(o.native);
    o.typescript = typescript.unwrap_or(o.typescript);
    o.memo = memo.unwrap_or(o.memo);
}

fn set_icon_and_pairs(
    o: &mut TransformOptions,
    icon: Option<JsonIcon>,
    svg_props: Option<JsonStringPairs>,
    replace_attr_values: Option<JsonStringPairs>,
)
    ensures
        *final(o) == (TransformOptions {
            icon: match icon {
                Some(i) => icon_of(i),
                None => old(o).icon,
            },
            svg_props: match svg_props {
                Some(p) => pairs_of(p),
                None => old(o).svg_props,
            },
            replace_attr_values: match replace_attr_values {
                Some(p) => pairs_of(p),
                None => old(o).replace_attr_values,
            },
            ..*old(o)
        }),
{
    if let Some(value) = icon {
        o.icon = value.into_icon();
    }
    if let Some(value) = svg_props {
        o.svg_props = value.into_vec();
    }
    if let Some(value) = replace_attr_values {
        o.replace_attr_values = value.into_vec();
    }
}

/// The options that do not fail: names, flags, icon and attribute pairs.
fn apply_plain_fields(o: &mut TransformOptions, j: JsonTransformOptions) -> (rest: (
    Option<JsonExpandProps>,
    Option<String>,
    Option<String>,
    Option<JsonJsxRuntimeImport>,
))
    requires
        crate::options::is_default_options(*old(o)),
    ensures
        rest.0 == j.expand_props,
        rest.1 == j.export_type,
        rest.2 == j.jsx_runtime,
        rest.3 == j.jsx_runtime_import,
        final(o).component_name@ == str_or(j.component_name, "SvgComponent"@),
        final(o).previous_export == j.previous_export,
        final(o).ref_ == bool_or(j.ref_, false),
        final(o).title_prop == bool_or(j.title_prop, false),
        final(o).desc_prop == bool_or(j.desc_prop, false),
        final(o).expand_props == ExpandProps::End,
        final(o).dimensions == bool_or(j.dimensions, true),
        final(o).icon == match j.icon {
            Some(i) => icon_of(i),
            None => Icon::Disabled,
        },
        final(o).native == bool_or(j.native, false),
        final(o).typescript == bool_or(j.typescript, false),
        final(o).memo == bool_or(j.memo, false),
        final(o).svg_props@ == match j.svg_props {
            Some(p) => pairs_of(p)@,
            None => Seq::empty(),
        },
        final(o).replace_attr_values@ == match j.replace_attr_values {
            Some(p) => pairs_of(p)@,
            None => Seq::empty(),
        },
        final(o).export_type == ExportType::Default,
        final(o).named_export@ == str_or(j.named_export, "ReactComponent"@),
        final(o).jsx_runtime == JsxRuntime::Classic,
        final(o).jsx_runtime_import is None,
        final(o).import_source@ == str_or(j.import_source, "react"@),
{
    set_strings(o, j.component_name, j.previous_export, j.named_export, j.import_source);
    set_flags(o, j.ref_, j.title_prop, j.desc_prop, j.dimensions, j.native, j.typescript, j.memo);
    set_icon_and_pairs(o, j.icon, j.svg_props, j.replace_attr_values);
    (j.expand_props, j.export_type, j.jsx_runtime, j.jsx_runtime_import)
}

/// Applies `jsxRuntimeImport`, which also selects the classic runtime and takes React
/// APIs from its source.
fn apply_runtime_import(o: &mut TransformOptions, value: JsonJsxRuntimeImport)
    ensures
        *final(o) == (TransformOptions {
            jsx_runtime: JsxRuntime::Classic,
            import_source: value.source,
            jsx_runtime_import: Some(runtime_import_of(value)),
            ..*old(o)
        }),
{
    let import = value.into_jsx_runtime_import();
    o.import_source = import.source.clone();
    o.jsx_runtime = JsxRuntime::Classic;
    o.jsx_runtime_import = Some(import);
}

impl JsonTransformOptions {
    /// The options that this JSON asks for, starting from the defaults.
    #[verifier::rlimit(40)]
    pub fn into_transform_options(self) -> (r: Result<TransformOptions, TransformError>)
        ensures
            match json_options_error(self) {
                Some(m) => r matches Err(TransformError::InvalidOptions(x)) && x@ == m,
                None => r matches Ok(o) && json_options_result(self, o),
            },
    {
        proof {
            reveal_strlit("classic");
            reveal_strlit("automatic");
            reveal_strlit("classic-preact");
            reveal_strlit("default");
            reveal_strlit("named");
            assert("automatic"@[0] != "classic"@[0]);
            assert("classic-preact"@.len() != "classic"@.len());
            assert("classic-preact"@[0] != "automatic"@[0]);
            assert("named"@[0] != "default"@[0]);
        }
        let ghost j = self;
        let mut options = TransformOptions::default();
        let (expand_props, export_type, jsx_runtime, jsx_runtime_import) = apply_plain_fields(
            &mut options,
            self,
        );
        if let Some(value) = expand_props {
            match value.into_expand_props() {
                Ok(e) => options.expand_props = e,
                Err(e) => return Err(e),
            }
        }
        if let Some(value) = export_type {
            match parse_export_type(value.as_str()) {
                Ok(e) => options.export_type = e,
                Err(e) => return Err(e),
            }
        }
        if let Some(value) = jsx_runtime {
            match apply_jsx_runtime(&mut options, value.as_str()) {
                Ok(()) => {},
                Err(e) => return Err(e),
            }
        }
        if let Some(value) = jsx_runtime_import {
            apply_runtime_import(&mut options, value);
        }
        Ok(options)
    }
}

/// The runtime import as the Node binding takes it: `specifiers` may be left out.
#[derive(Debug)]
pub struct TransformOptionsJsxRuntimeImport {
    pub source: String,
    pub namespace: Option<String>,
    pub default_specifier: Option<String>,
    pub specifiers: Option<Vec<String>>,
}

impl TransformOptionsJsxRuntimeImport {
    /// The import, with no named specifiers when they were left out.
    pub fn into_jsx_runtime_import(self) -> (r: JsxRuntimeImport)
        ensures
            r.source == self.source,
            r.namespace == self.namespace,
            r.default_specifier == self.default_specifier,
            r.specifiers@ == match self.specifiers {
                Some(v) => v@,
                None => Seq::<String>::empty(),
            },
    {
        let specifiers = match self.specifiers {
            Some(v) => v,
            None => Vec::new(),
        };
        JsxRuntimeImport {
            source: self.source,
            namespace: self.namespace,
            default_specifier: self.default_specifier,
            specifiers,
        }
    }
}

} // verus!
