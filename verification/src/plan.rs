use vstd::prelude::*;
use vstd::string::StringExecFns;

use crate::attrs::strings_view;
use crate::jsx::{
    child_view, children_view, element_view, ChildModel, ElementModel, JsxChild, JsxElement,
};
use crate::options::{ExpandProps, ExportType, JsxRuntime, JsxRuntimeImport, TransformError, TransformOptions};
use crate::order::{
    lemma_less_asymmetric, lemma_less_irreflexive, lemma_less_total, lemma_less_transitive,
    seq_less, sorted_unique, str_less,
};
use crate::text::{str_eq, trim_chars, trim_str};
use crate::validate::empty_import_message;

verus! {

/// Whether `c` has the Unicode `Uppercase` property, as `char::is_uppercase` tells.
pub uninterp spec fn char_uppercase_property(c: char) -> bool;

/// What `char::is_uppercase` tells of `c`: among ASCII characters exactly `A`-`Z` are
/// uppercase; of the rest `char_uppercase_property` tells.
pub open spec fn is_uppercase_spec(c: char) -> bool {
    if (c as u32) < 0x80 {
        'A' <= c <= 'Z'
    } else {
        char_uppercase_property(c)
    }
}

/// Calls `char::is_uppercase`, which the standard library documents as telling whether the
/// character has the Unicode `Uppercase` property: among ASCII characters exactly `A`-`Z`.
#[verifier::external_body]
fn is_uppercase_char(c: char) -> (r: bool)
    ensures
        r == is_uppercase_spec(c),
        (c as u32) >= 0x80 ==> r == char_uppercase_property(c),
{
    c.is_uppercase()
}

/// An element name that `react-native-svg` provides: it starts with an uppercase letter and
/// is not the default export `Svg`.
pub open spec fn is_component_name(n: Seq<char>) -> bool {
    n.len() > 0 && n != "Svg"@ && is_uppercase_spec(n[0])
}

pub open spec fn element_components(e: ElementModel) -> Set<Seq<char>>
    decreases e, 0int,
{
    let here = if is_component_name(e.name) {
        Set::empty().insert(e.name)
    } else {
        Set::empty()
    };
    here.union(children_components(e.children))
}

pub open spec fn child_components(c: ChildModel) -> Set<Seq<char>>
    decreases c, 1int,
{
    match c {
        ChildModel::Element(e) => element_components(e),
        _ => Set::empty(),
    }
}

/// The components named by elements in `s` and below them (not inside dynamic children).
pub open spec fn children_components(s: Seq<ChildModel>) -> Set<Seq<char>>
    decreases s, 2int,
{
    if s.len() == 0 {
        Set::empty()
    } else {
        children_components(s.drop_last()).union(child_components(s.last()))
    }
}

proof fn lemma_insert_to_set(s: Seq<Seq<char>>, p: int, x: Seq<char>)
    requires
        0 <= p <= s.len(),
    ensures
        s.insert(p, x).to_set() == s.to_set().insert(x),
{
    s.insert_ensures(p, x);
    let t = s.insert(p, x);
    assert forall|y: Seq<char>| t.to_set().contains(y) == s.to_set().insert(x).contains(y) by {
        if t.contains(y) {
            let k = choose|k: int| 0 <= k < t.len() && t[k] == y;
            if k < p {
                assert(s[k] == y);
            } else if k > p {
                assert(t[(k - 1) + 1] == s[k - 1]);
                assert(s[k - 1] == y);
            }
        }
        if s.contains(y) {
            let k = choose|k: int| 0 <= k < s.len() && s[k] == y;
            if k < p {
                assert(t[k] == y);
            } else {
                assert(t[k + 1] == y);
            }
        }
        if y == x {
            assert(t[p] == x);
        }
    }
    assert(t.to_set() =~= s.to_set().insert(x));
}

/// Adds `name` to the sorted names unless it is there already.
fn insert_sorted(acc: &mut Vec<String>, name: &str)
    requires
        sorted_unique(strings_view(old(acc)@)),
    ensures
        sorted_unique(strings_view(final(acc)@)),
        strings_view(final(acc)@).to_set() == strings_view(old(acc)@).to_set().insert(name@),
{
    let ghost s = strings_view(acc@);
    let mut p: usize = 0;
    while p < acc.len() && str_less(acc[p].as_str(), name)
        invariant
            p <= acc@.len(),
            s == strings_view(acc@),
            forall|k: int| 0 <= k < p ==> seq_less(#[trigger] s[k], name@),
        decreases acc@.len() - p,
    {
        p = p + 1;
    }
    if p < acc.len() && str_eq(acc[p].as_str(), name) {
        assert(s[p as int] == name@);
        assert(s.to_set().insert(name@) =~= s.to_set());
        return;
    }
    acc.insert(p, String::from_str(name));
    let ghost t = strings_view(acc@);
    proof {
        assert(t =~= s.insert(p as int, name@));
        lemma_insert_to_set(s, p as int, name@);
        s.insert_ensures(p as int, name@);
        if p < s.len() {
            lemma_less_total(s[p as int], name@);
        }
        assert forall|i: int, j: int| 0 <= i < j < t.len() implies seq_less(
            #[trigger] t[i],
            #[trigger] t[j],
        ) by {
            if j < p {
                assert(t[i] == s[i] && t[j] == s[j]);
            } else if j == p {
                assert(t[i] == s[i]);
            } else if i < p {
                assert(t[j] == s[j - 1]);
                assert(t[i] == s[i]);
                if p < s.len() {
                    if j - 1 > p {
                        lemma_less_transitive(name@, s[p as int], s[j - 1]);
                    }
                    lemma_less_transitive(s[i], name@, s[j - 1]);
                }
            } else if i == p {
                assert(t[j] == s[j - 1]);
                if j - 1 > p {
                    lemma_less_transitive(name@, s[p as int], s[j - 1]);
                }
            } else {
                assert(t[i] == s[i - 1] && t[j] == s[j - 1]);
            }
        }
    }
}

/// Adds the components named in `e` and below it.
fn collect_components(e: &JsxElement, acc: &mut Vec<String>)
    requires
        sorted_unique(strings_view(old(acc)@)),
    ensures
        sorted_unique(strings_view(final(acc)@)),
        strings_view(final(acc)@).to_set() == strings_view(old(acc)@).to_set().union(
            element_components(element_view(*e)),
        ),
    decreases e,
{
    let ghost start = strings_view(acc@).to_set();
    let v = crate::names::char_vec(e.name.as_str());
    if v.len() > 0 && !str_eq(e.name.as_str(), "Svg") && is_uppercase_char(v[0]) {
        insert_sorted(acc, e.name.as_str());
    }
    let ghost here = if is_component_name(e.name@) {
        Set::empty().insert(e.name@)
    } else {
        Set::<Seq<char>>::empty()
    };
    assert(strings_view(acc@).to_set() =~= start.union(here));
    let mut i: usize = 0;
    while i < e.children.len()
        invariant
            i <= e.children@.len(),
            sorted_unique(strings_view(acc@)),
            strings_view(acc@).to_set() == start.union(here).union(
                children_components(children_view(e.children@.take(i as int))),
            ),
        decreases e.children@.len() - i,
    {
        proof {
            assert(e.children@.take(i + 1).drop_last() == e.children@.take(i as int));
            assert(e.children@.take(i + 1).last() == e.children@[i as int]);
        }
        let ghost before = strings_view(acc@).to_set();
        match &e.children[i] {
            JsxChild::Element(c) => {
                collect_components(c, acc);
            },
            _ => {},
        }
        let ghost prev = children_components(children_view(e.children@.take(i as int)));
        let ghost here_child = child_components(child_view(e.children@[i as int]));
        proof {
            let cv = children_view(e.children@.take(i as int));
            let x = child_view(e.children@[i as int]);
            assert(children_view(e.children@.take(i + 1)) == cv.push(x));
            assert(cv.push(x).drop_last() == cv);
            assert(cv.push(x).last() == x);
        }
        assert(children_components(children_view(e.children@.take(i + 1))) == prev.union(here_child));
        assert(strings_view(acc@).to_set() =~= start.union(here).union(prev.union(here_child)));
        i = i + 1;
    }
    assert(e.children@.take(e.children@.len() as int) == e.children@);
    assert(strings_view(acc@).to_set() =~= start.union(element_components(element_view(*e))));
}

/// The names of the `react-native-svg` components that the element uses, in `String` order.
pub fn collect_native_components(jsx: &JsxElement) -> (r: Vec<String>)
    ensures
        sorted_unique(strings_view(r@)),
        strings_view(r@).to_set() == element_components(element_view(*jsx)),
{
    let mut acc: Vec<String> = Vec::new();
    assert(strings_view(acc@).to_set() =~= Set::<Seq<char>>::empty());
    collect_components(jsx, &mut acc);
    assert(strings_view(acc@).to_set() =~= element_components(element_view(*jsx)));
    acc
}

/// A name that an import brings into scope.
#[derive(Debug)]
pub enum ImportSpecifier {
    /// `* as name`.
    Namespace(String),
    /// `name`.
    Default(String),
    /// `{ name }`.
    Named(String),
}

/// `import [type] specifiers from "source";`
#[derive(Debug)]
pub struct ImportDecl {
    pub source: String,
    pub specifiers: Vec<ImportSpecifier>,
    pub type_only: bool,
}

/// A reference to a type, with one type argument or none.
#[derive(Debug)]
pub struct TypeRef {
    pub name: String,
    pub argument: Option<String>,
}

/// A parameter of the component; its annotation is the intersection of the types listed,
/// and there is none when the list is empty.
#[derive(Debug)]
pub enum Param {
    Binding { name: String, annotation: Vec<TypeRef> },
    /// `{ a, b, ...rest }`.
    Object { props: Vec<String>, rest: Option<String>, annotation: Vec<TypeRef> },
}

/// `const binding = callee(argument);`
#[derive(Debug)]
pub struct Wrapper {
    pub binding: String,
    pub callee: String,
    pub argument: String,
}

#[derive(Debug)]
pub enum ExportPlan {
    /// `export default local;`
    Default(String),
    /// `export { local as exported };`, then the statements of `previousExport` (its text,
    /// trimmed) where there is one.
    Named { local: String, exported: String, previous: Option<String> },
}

/// The module that the transform writes, statement by statement: the imports, the
/// `SVGRProps` interface when it has properties, the component, its wrappers and the export.
/// The statements of `previousExport` come after a named export.
#[derive(Debug)]
pub struct ComponentPlan {
    pub typescript: bool,
    pub imports: Vec<ImportDecl>,
    /// The optional string properties of `interface SVGRProps`.
    pub props_interface: Vec<String>,
    pub component_name: String,
    pub params: Vec<Param>,
    pub jsx: JsxElement,
    pub wrappers: Vec<Wrapper>,
    pub export: ExportPlan,
}

pub enum SpecifierModel {
    Namespace(Seq<char>),
    Default(Seq<char>),
    Named(Seq<char>),
}

pub struct ImportModel {
    pub source: Seq<char>,
    pub specifiers: Seq<SpecifierModel>,
    pub type_only: bool,
}

pub struct TypeRefModel {
    pub name: Seq<char>,
    pub argument: Option<Seq<char>>,
}

pub enum ParamModel {
    Binding(Seq<char>, Seq<TypeRefModel>),
    Object(Seq<Seq<char>>, Option<Seq<char>>, Seq<TypeRefModel>),
}

pub struct WrapperModel {
    pub binding: Seq<char>,
    pub callee: Seq<char>,
    pub argument: Seq<char>,
}

pub enum ExportModel {
    Default(Seq<char>),
    Named(Seq<char>, Seq<char>, Option<Seq<char>>),
}

pub struct PlanModel {
    pub typescript: bool,
    pub imports: Seq<ImportModel>,
    pub props_interface: Seq<Seq<char>>,
    pub component_name: Seq<char>,
    pub params: Seq<ParamModel>,
    pub jsx: ElementModel,
    pub wrappers: Seq<WrapperModel>,
    pub export: ExportModel,
}

pub open spec fn specifier_view(s: ImportSpecifier) -> SpecifierModel {
    match s {
        ImportSpecifier::Namespace(n) => SpecifierModel::Namespace(n@),
        ImportSpecifier::Default(n) => SpecifierModel::Default(n@),
        ImportSpecifier::Named(n) => SpecifierModel::Named(n@),
    }
}

pub open spec fn specifiers_view(s: Seq<ImportSpecifier>) -> Seq<SpecifierModel> {
    s.map_values(|x: ImportSpecifier| specifier_view(x))
}

pub open spec fn import_view(i: ImportDecl) -> ImportModel {
    ImportModel { source: i.source@, specifiers: specifiers_view(i.specifiers@), type_only: i.type_only }
}

pub open spec fn imports_view(s: Seq<ImportDecl>) -> Seq<ImportModel> {
    s.map_values(|x: ImportDecl| import_view(x))
}

pub open spec fn type_ref_view(t: TypeRef) -> TypeRefModel {
    TypeRefModel {
        name: t.name@,
        argument: match t.argument {
            Some(a) => Some(a@),
            None => None,
        },
    }
}

pub open spec fn types_view(s: Seq<TypeRef>) -> Seq<TypeRefModel> {
    s.map_values(|x: TypeRef| type_ref_view(x))
}

pub open spec fn param_view(p: Param) -> ParamModel {
    match p {
        Param::Binding { name, annotation } => ParamModel::Binding(name@, types_view(annotation@)),
        Param::Object { props, rest, annotation } => ParamModel::Object(
            strings_view(props@),
            match rest {
                Some(r) => Some(r@),
                None => None,
            },
            types_view(annotation@),
        ),
    }
}

pub open spec fn params_view(s: Seq<Param>) -> Seq<ParamModel> {
    s.map_values(|x: Param| param_view(x))
}

pub open spec fn wrapper_view(w: Wrapper) -> WrapperModel {
    WrapperModel { binding: w.binding@, callee: w.callee@, argument: w.argument@ }
}

pub open spec fn wrappers_view(s: Seq<Wrapper>) -> Seq<WrapperModel> {
    s.map_values(|x: Wrapper| wrapper_view(x))
}

pub open spec fn export_view(e: ExportPlan) -> ExportModel {
    match e {
        ExportPlan::Default(l) => ExportModel::Default(l@),
        ExportPlan::Named { local, exported, previous } => ExportModel::Named(
            local@,
            exported@,
            match previous {
                Some(p) => Some(p@),
                None => None,
            },
        ),
    }
}

impl View for ComponentPlan {
    type V = PlanModel;

    open spec fn view(&self) -> PlanModel {
        PlanModel {
            typescript: self.typescript,
            imports: imports_view(self.imports@),
            props_interface: strings_view(self.props_interface@),
            component_name: self.component_name@,
            params: params_view(self.params@),
            jsx: element_view(self.jsx),
            wrappers: wrappers_view(self.wrappers@),
            export: export_view(self.export),
        }
    }
}

/// What the import of the JSX runtime brings in: its namespace, else its default, else its
/// named specifiers.
pub open spec fn runtime_specifiers(i: JsxRuntimeImport) -> Seq<SpecifierModel> {
    match i.namespace {
        Some(n) => seq![SpecifierModel::Namespace(n@)],
        None => match i.default_specifier {
            Some(d) => seq![SpecifierModel::Default(d@)],
            None => strings_view(i.specifiers@).map_values(|s: Seq<char>| SpecifierModel::Named(s)),
        },
    }
}

pub open spec fn optional_named(on: bool, name: Seq<char>) -> Seq<SpecifierModel> {
    if on {
        seq![SpecifierModel::Named(name)]
    } else {
        Seq::empty()
    }
}

/// The import of the JSX runtime for the classic runtime (`import * as React from "react"`
/// unless `jsxRuntimeImport` says otherwise); `None` when it would import nothing.
pub open spec fn runtime_import(o: TransformOptions) -> Option<Seq<ImportModel>> {
    if o.jsx_runtime == JsxRuntime::Automatic {
        Some(Seq::empty())
    } else {
        let (source, specs) = match o.jsx_runtime_import {
            Some(i) => (i.source@, runtime_specifiers(i)),
            None => ("react"@, seq![SpecifierModel::Namespace("React"@)]),
        };
        if specs.len() == 0 {
            None
        } else {
            Some(seq![ImportModel { source, specifiers: specs, type_only: false }])
        }
    }
}

/// The imports after the runtime's: the `react-native-svg` components, `forwardRef` and
/// `memo`, and the types of the TypeScript annotations.
pub open spec fn other_imports(o: TransformOptions, natives: Seq<Seq<char>>) -> Seq<ImportModel> {
    let native = if o.native {
        seq![
            ImportModel {
                source: "react-native-svg"@,
                specifiers: seq![SpecifierModel::Default("Svg"@)] + natives.map_values(
                    |n: Seq<char>| SpecifierModel::Named(n),
                ),
                type_only: false,
            },
        ]
    } else {
        Seq::empty()
    };
    let values = optional_named(o.ref_, "forwardRef"@) + optional_named(o.memo, "memo"@);
    let react = if values.len() > 0 {
        seq![ImportModel { source: o.import_source@, specifiers: values, type_only: false }]
    } else {
        Seq::empty()
    };
    let expand = o.expand_props != ExpandProps::Disabled;
    let types = optional_named(expand, if o.native { "SvgProps"@ } else { "SVGProps"@ })
        + optional_named(o.ref_ && !o.native, "Ref"@);
    let typed = if o.typescript && (expand || o.ref_) && types.len() > 0 {
        seq![
            ImportModel {
                source: if o.native { "react-native-svg"@ } else { o.import_source@ },
                specifiers: types,
                type_only: true,
            },
        ]
    } else {
        Seq::empty()
    };
    native + react + typed
}

pub open spec fn optional_names(on: bool, a: Seq<char>, b: Seq<char>) -> Seq<Seq<char>> {
    if on {
        seq![a, b]
    } else {
        Seq::empty()
    }
}

/// The props that the component takes by name: the title and the description, with their ids.
pub open spec fn named_props(o: TransformOptions) -> Seq<Seq<char>> {
    optional_names(o.title_prop, "title"@, "titleId"@) + optional_names(o.desc_prop, "desc"@, "descId"@)
}

pub open spec fn svg_props_type(native: bool) -> TypeRefModel {
    if native {
        TypeRefModel { name: "SvgProps"@, argument: None }
    } else {
        TypeRefModel { name: "SVGProps"@, argument: Some("SVGSVGElement"@) }
    }
}

/// The type of the props parameter, as the types it intersects.
pub open spec fn props_annotation(o: TransformOptions) -> Seq<TypeRefModel> {
    if !o.typescript {
        Seq::empty()
    } else {
        (if o.expand_props != ExpandProps::Disabled {
            seq![svg_props_type(o.native)]
        } else {
            Seq::empty()
        }) + (if o.title_prop || o.desc_prop {
            seq![TypeRefModel { name: "SVGRProps"@, argument: None }]
        } else {
            Seq::empty()
        })
    }
}

pub open spec fn ref_annotation(o: TransformOptions) -> Seq<TypeRefModel> {
    if !o.typescript || o.native {
        Seq::empty()
    } else {
        seq![TypeRefModel { name: "Ref"@, argument: Some("SVGSVGElement"@) }]
    }
}

/// The component's parameters.
pub open spec fn params_of(o: TransformOptions) -> Seq<ParamModel> {
    let props = named_props(o);
    let expand = o.expand_props != ExpandProps::Disabled;
    let first = if props.len() == 0 {
        if !expand {
            if o.ref_ {
                seq![ParamModel::Binding("_"@, Seq::empty())]
            } else {
                Seq::empty()
            }
        } else {
            seq![ParamModel::Binding("props"@, props_annotation(o))]
        }
    } else {
        seq![
            ParamModel::Object(
                props,
                if expand { Some("props"@) } else { None },
                props_annotation(o),
            ),
        ]
    };
    first + if o.ref_ {
        seq![ParamModel::Binding("ref"@, ref_annotation(o))]
    } else {
        Seq::empty()
    }
}

/// `forwardRef` around the component, then `memo` around that.
pub open spec fn wrappers_of(o: TransformOptions) -> Seq<WrapperModel> {
    (if o.ref_ {
        seq![WrapperModel { binding: "ForwardRef"@, callee: "forwardRef"@, argument: o.component_name@ }]
    } else {
        Seq::empty()
    }) + (if o.memo {
        seq![
            WrapperModel {
                binding: "Memo"@,
                callee: "memo"@,
                argument: if o.ref_ { "ForwardRef"@ } else { o.component_name@ },
            },
        ]
    } else {
        Seq::empty()
    })
}

/// The binding that is exported: the outermost wrapper, or the component.
pub open spec fn exported_binding(o: TransformOptions) -> Seq<char> {
    if o.memo {
        "Memo"@
    } else if o.ref_ {
        "ForwardRef"@
    } else {
        o.component_name@
    }
}

pub open spec fn export_of(o: TransformOptions) -> ExportModel {
    if o.previous_export is Some || o.export_type == ExportType::Named {
        ExportModel::Named(
            exported_binding(o),
            o.named_export@,
            match o.previous_export {
                Some(p) => Some(trim_chars(p@)),
                None => None,
            },
        )
    } else {
        ExportModel::Default(exported_binding(o))
    }
}

/// The module for the JSX element `jsx` (after the post passes), or `None` when the runtime
/// import would import nothing. `natives` are the components it uses, in order.
pub open spec fn plan_of(o: TransformOptions, jsx: ElementModel, natives: Seq<Seq<char>>) -> Option<
    PlanModel,
> {
    match runtime_import(o) {
        None => None,
        Some(first) => Some(
            PlanModel {
                typescript: o.typescript,
                imports: first + other_imports(o, natives),
                props_interface: if o.typescript {
                    named_props(o)
                } else {
                    Seq::empty()
                },
                component_name: o.component_name@,
                params: params_of(o),
                jsx,
                wrappers: wrappers_of(o),
                export: export_of(o),
            },
        ),
    }
}

fn named(name: &str) -> (r: ImportSpecifier)
    ensures
        specifier_view(r) == SpecifierModel::Named(name@),
{
    ImportSpecifier::Named(String::from_str(name))
}

fn runtime_import_exec(options: &TransformOptions) -> (r: Result<Vec<ImportDecl>, TransformError>)
    ensures
        match runtime_import(*options) {
            Some(x) => r matches Ok(v) && imports_view(v@) == x,
            None => r matches Err(TransformError::InvalidOptions(m)) && m@ == empty_import_message(),
        },
{
    let ghost o = *options;
    let mut out: Vec<ImportDecl> = Vec::new();
    if options.jsx_runtime == JsxRuntime::Automatic {
        assert(imports_view(out@) =~= Seq::<ImportModel>::empty());
        return Ok(out);
    }
    let mut specifiers: Vec<ImportSpecifier> = Vec::new();
    let source = match &options.jsx_runtime_import {
        None => {
            specifiers.push(ImportSpecifier::Namespace(String::from_str("React")));
            String::from_str("react")
        },
        Some(import) => {
            match &import.namespace {
                Some(n) => specifiers.push(ImportSpecifier::Namespace(n.clone())),
                None => match &import.default_specifier {
                    Some(d) => specifiers.push(ImportSpecifier::Default(d.clone())),
                    None => {
                        let mut k: usize = 0;
                        while k < import.specifiers.len()
                            invariant
                                k <= import.specifiers@.len(),
                                specifiers_view(specifiers@) == strings_view(
                                    import.specifiers@.take(k as int),
                                ).map_values(|s: Seq<char>| SpecifierModel::Named(s)),
                            decreases import.specifiers@.len() - k,
                        {
                            let ghost before = specifiers@;
                            specifiers.push(ImportSpecifier::Named(import.specifiers[k].clone()));
                            assert(specifiers_view(specifiers@) =~= specifiers_view(before).push(
                                SpecifierModel::Named(import.specifiers@[k as int]@),
                            ));
                            assert(strings_view(import.specifiers@.take(k + 1)) =~= strings_view(
                                import.specifiers@.take(k as int),
                            ).push(import.specifiers@[k as int]@));
                            assert(specifiers_view(specifiers@) =~= strings_view(
                                import.specifiers@.take(k + 1),
                            ).map_values(|s: Seq<char>| SpecifierModel::Named(s)));
                            k = k + 1;
                        }
                        assert(import.specifiers@.take(k as int) == import.specifiers@);
                    },
                },
            }
            import.source.clone()
        },
    };
    proof {
        match o.jsx_runtime_import {
            Some(i) => {
                if i.namespace is None && i.default_specifier is None {
                    assert(specifiers_view(specifiers@) =~= runtime_specifiers(i));
                } else {
                    assert(specifiers_view(specifiers@) =~= runtime_specifiers(i));
                }
            },
            None => {
                assert(specifiers_view(specifiers@) =~= seq![SpecifierModel::Namespace("React"@)]);
            },
        }
    }
    if specifiers.len() == 0 {
        return Err(
            TransformError::InvalidOptions(
                String::from_str("jsxRuntimeImport requires namespace, defaultSpecifier, or specifiers"),
            ),
        );
    }
    out.push(ImportDecl { source, specifiers, type_only: false });
    assert(imports_view(out@) =~= runtime_import(*options)->Some_0);
    Ok(out)
}

/// Appends the imports of the module after the runtime's.
fn append_other_imports(out: &mut Vec<ImportDecl>, options: &TransformOptions, natives: &Vec<String>)
    ensures
        imports_view(final(out)@) == imports_view(old(out)@) + other_imports(
            *options,
            strings_view(natives@),
        ),
{
    let ghost o = *options;
    let ghost start = imports_view(out@);
    if options.native {
        let mut specifiers: Vec<ImportSpecifier> = Vec::new();
        specifiers.push(ImportSpecifier::Default(String::from_str("Svg")));
        let mut k: usize = 0;
        while k < natives.len()
            invariant
                k <= natives@.len(),
                specifiers_view(specifiers@) == seq![SpecifierModel::Default("Svg"@)]
                    + strings_view(natives@.take(k as int)).map_values(
                    |n: Seq<char>| SpecifierModel::Named(n),
                ),
            decreases natives@.len() - k,
        {
            let ghost before = specifiers@;
            specifiers.push(ImportSpecifier::Named(natives[k].clone()));
            assert(specifiers_view(specifiers@) =~= specifiers_view(before).push(
                SpecifierModel::Named(natives@[k as int]@),
            ));
            assert(strings_view(natives@.take(k + 1)) =~= strings_view(natives@.take(k as int)).push(
                natives@[k as int]@,
            ));
            assert(specifiers_view(specifiers@) =~= seq![SpecifierModel::Default("Svg"@)]
                + strings_view(natives@.take(k + 1)).map_values(
                |n: Seq<char>| SpecifierModel::Named(n),
            ));
            k = k + 1;
        }
        assert(natives@.take(k as int) == natives@);
        out.push(
            ImportDecl {
                source: String::from_str("react-native-svg"),
                specifiers,
                type_only: false,
            },
        );
    }
    let ghost native_part = if o.native {
        seq![
            ImportModel {
                source: "react-native-svg"@,
                specifiers: seq![SpecifierModel::Default("Svg"@)] + strings_view(natives@).map_values(
                    |n: Seq<char>| SpecifierModel::Named(n),
                ),
                type_only: false,
            },
        ]
    } else {
        Seq::<ImportModel>::empty()
    };
    assert(imports_view(out@) =~= start + native_part);
    let mut values: Vec<ImportSpecifier> = Vec::new();
    if options.ref_ {
        values.push(named("forwardRef"));
    }
    if options.memo {
        values.push(named("memo"));
    }
    assert(specifiers_view(values@) =~= optional_named(o.ref_, "forwardRef"@) + optional_named(
        o.memo,
        "memo"@,
    ));
    let ghost before_react = imports_view(out@);
    if values.len() > 0 {
        out.push(ImportDecl { source: options.import_source.clone(), specifiers: values, type_only: false });
    }
    let ghost after_react = imports_view(out@);
    let expand = options.expand_props != ExpandProps::Disabled;
    let mut types: Vec<ImportSpecifier> = Vec::new();
    if expand {
        if options.native {
            types.push(named("SvgProps"));
        } else {
            types.push(named("SVGProps"));
        }
    }
    if options.ref_ && !options.native {
        types.push(named("Ref"));
    }
    assert(specifiers_view(types@) =~= optional_named(
        expand,
        if o.native { "SvgProps"@ } else { "SVGProps"@ },
    ) + optional_named(o.ref_ && !o.native, "Ref"@));
    if options.typescript && (expand || options.ref_) && types.len() > 0 {
        let source = if options.native {
            String::from_str("react-native-svg")
        } else {
            options.import_source.clone()
        };
        out.push(ImportDecl { source, specifiers: types, type_only: true });
    }
    assert(imports_view(out@) =~= start + other_imports(o, strings_view(natives@)));
}

fn names_vec(on: bool, a: &str, b: &str, out: &mut Vec<String>)
    ensures
        strings_view(final(out)@) == strings_view(old(out)@) + optional_names(on, a@, b@),
{
    let ghost start = strings_view(out@);
    if on {
        out.push(String::from_str(a));
        out.push(String::from_str(b));
    }
    assert(strings_view(out@) =~= start + optional_names(on, a@, b@));
}

fn named_props_exec(options: &TransformOptions) -> (r: Vec<String>)
    ensures
        strings_view(r@) == named_props(*options),
{
    let mut r: Vec<String> = Vec::new();
    assert(strings_view(r@) =~= Seq::<Seq<char>>::empty());
    names_vec(options.title_prop, "title", "titleId", &mut r);
    names_vec(options.desc_prop, "desc", "descId", &mut r);
    assert(strings_view(r@) =~= named_props(*options));
    r
}

fn type_ref(name: &str, argument: Option<&str>) -> (r: TypeRef)
    ensures
        type_ref_view(r) == (TypeRefModel {
            name: name@,
            argument: match argument {
                Some(a) => Some(a@),
                None => None,
            },
        }),
{
    TypeRef {
        name: String::from_str(name),
        argument: match argument {
            Some(a) => Some(String::from_str(a)),
            None => None,
        },
    }
}

fn props_annotation_exec(options: &TransformOptions) -> (r: Vec<TypeRef>)
    ensures
        types_view(r@) == props_annotation(*options),
{
    let mut r: Vec<TypeRef> = Vec::new();
    if !options.typescript {
        assert(types_view(r@) =~= props_annotation(*options));
        return r;
    }
    if options.expand_props != ExpandProps::Disabled {
        if options.native {
            r.push(type_ref("SvgProps", None));
        } else {
            r.push(type_ref("SVGProps", Some("SVGSVGElement")));
        }
    }
    if options.title_prop || options.desc_prop {
        r.push(type_ref("SVGRProps", None));
    }
    assert(types_view(r@) =~= props_annotation(*options));
    r
}

fn ref_annotation_exec(options: &TransformOptions) -> (r: Vec<TypeRef>)
    ensures
        types_view(r@) == ref_annotation(*options),
{
    let mut r: Vec<TypeRef> = Vec::new();
    if options.typescript && !options.native {
        r.push(type_ref("Ref", Some("SVGSVGElement")));
    }
    assert(types_view(r@) =~= ref_annotation(*options));
    r
}

/// The component's parameters.
pub fn component_params(options: &TransformOptions) -> (r: Vec<Param>)
    ensures
        params_view(r@) == params_of(*options),
{
    let ghost o = *options;
    let props = named_props_exec(options);
    let expand = options.expand_props != ExpandProps::Disabled;
    let mut items: Vec<Param> = Vec::new();
    if props.len() == 0 {
        if !expand {
            if options.ref_ {
                let annotation: Vec<TypeRef> = Vec::new();
                assert(types_view(annotation@) =~= Seq::<TypeRefModel>::empty());
                items.push(Param::Binding { name: String::from_str("_"), annotation });
            }
        } else {
            items.push(
                Param::Binding {
                    name: String::from_str("props"),
                    annotation: props_annotation_exec(options),
                },
            );
        }
    } else {
        let rest = if expand {
            Some(String::from_str("props"))
        } else {
            None
        };
        items.push(Param::Object { props, rest, annotation: props_annotation_exec(options) });
    }
    let ghost first = params_view(items@);
    if options.ref_ {
        items.push(Param::Binding { name: String::from_str("ref"), annotation: ref_annotation_exec(options) });
    }
    proof {
        let e: Seq<TypeRefModel> = Seq::empty();
        assert(first =~= if named_props(o).len() == 0 {
            if !expand {
                if o.ref_ {
                    seq![ParamModel::Binding("_"@, e)]
                } else {
                    Seq::empty()
                }
            } else {
                seq![ParamModel::Binding("props"@, props_annotation(o))]
            }
        } else {
            seq![
                ParamModel::Object(
                    named_props(o),
                    if expand { Some("props"@) } else { None },
                    props_annotation(o),
                ),
            ]
        });
    }
    assert(params_view(items@) =~= params_of(o));
    items
}

fn wrappers_exec(options: &TransformOptions) -> (r: Vec<Wrapper>)
    ensures
        wrappers_view(r@) == wrappers_of(*options),
{
    let mut r: Vec<Wrapper> = Vec::new();
    if options.ref_ {
        r.push(
            Wrapper {
                binding: String::from_str("ForwardRef"),
                callee: String::from_str("forwardRef"),
                argument: options.component_name.clone(),
            },
        );
    }
    if options.memo {
        let argument = if options.ref_ {
            String::from_str("ForwardRef")
        } else {
            options.component_name.clone()
        };
        r.push(Wrapper { binding: String::from_str("Memo"), callee: String::from_str("memo"), argument });
    }
    assert(wrappers_view(r@) =~= wrappers_of(*options));
    r
}

fn export_exec(options: &TransformOptions) -> (r: ExportPlan)
    ensures
        export_view(r) == export_of(*options),
{
    let local = if options.memo {
        String::from_str("Memo")
    } else if options.ref_ {
        String::from_str("ForwardRef")
    } else {
        options.component_name.clone()
    };
    if options.previous_export.is_some() || options.export_type == ExportType::Named {
        let previous = match &options.previous_export {
            Some(p) => Some(String::from_str(trim_str(p.as_str()))),
            None => None,
        };
        ExportPlan::Named { local, exported: options.named_export.clone(), previous }
    } else {
        ExportPlan::Default(local)
    }
}

/// `natives` lists the components of `jsx`, each once and in `String` order, when `native`
/// is set, and is empty otherwise.
pub open spec fn natives_ok(o: TransformOptions, jsx: ElementModel, natives: Seq<Seq<char>>) -> bool {
    &&& sorted_unique(natives)
    &&& natives.to_set() == if o.native {
        element_components(jsx)
    } else {
        Set::empty()
    }
}

/// Two sequences in strict `String` order with the same elements are the same sequence, so
/// `natives_ok` leaves one list.
pub proof fn lemma_sorted_unique_determined(a: Seq<Seq<char>>, b: Seq<Seq<char>>)
    requires
        sorted_unique(a),
        sorted_unique(b),
        a.to_set() == b.to_set(),
    ensures
        a == b,
    decreases a.len(),
{
    if a.len() == 0 {
        if b.len() > 0 {
            assert(b.to_set().contains(b[0]));
            assert(!a.to_set().contains(b[0]));
        }
        assert(a =~= b);
    } else if b.len() == 0 {
        assert(a.to_set().contains(a[0]));
        assert(!b.to_set().contains(a[0]));
    } else {
        // the first elements are the least of the common set
        assert(a.to_set().contains(a[0]));
        assert(b.to_set().contains(a[0]));
        assert(b.to_set().contains(b[0]));
        assert(a.to_set().contains(b[0]));
        let ja = choose|j: int| 0 <= j < a.len() && a[j] == b[0];
        let jb = choose|j: int| 0 <= j < b.len() && b[j] == a[0];
        if a[0] != b[0] {
            lemma_less_total(a[0], b[0]);
            if seq_less(a[0], b[0]) {
                // a[0] = b[jb] with jb > 0, so b[0] < a[0]
                assert(jb > 0);
                assert(seq_less(b[0], b[jb]));
                lemma_less_asymmetric(a[0], b[0]);
            } else {
                assert(ja > 0);
                assert(seq_less(a[0], a[ja]));
                lemma_less_asymmetric(b[0], a[0]);
            }
        }
        let ta = a.drop_first();
        let tb = b.drop_first();
        assert forall|i: int, j: int| 0 <= i < j < ta.len() implies seq_less(
            #[trigger] ta[i],
            #[trigger] ta[j],
        ) by {
            assert(ta[i] == a[i + 1] && ta[j] == a[j + 1]);
        }
        assert forall|i: int, j: int| 0 <= i < j < tb.len() implies seq_less(
            #[trigger] tb[i],
            #[trigger] tb[j],
        ) by {
            assert(tb[i] == b[i + 1] && tb[j] == b[j + 1]);
        }
        assert forall|x: Seq<char>| ta.to_set().contains(x) == tb.to_set().contains(x) by {
            if ta.contains(x) {
                let k = choose|k: int| 0 <= k < ta.len() && ta[k] == x;
                assert(a[k + 1] == x);
                assert(a.to_set().contains(x));
                assert(b.contains(x));
                let m = choose|m: int| 0 <= m < b.len() && b[m] == x;
                if m == 0 {
                    assert(seq_less(a[0], a[k + 1]));
                    lemma_less_irreflexive(a[0]);
                }
                assert(tb[m - 1] == x);
            }
            if tb.contains(x) {
                let k = choose|k: int| 0 <= k < tb.len() && tb[k] == x;
                assert(b[k + 1] == x);
                assert(b.to_set().contains(x));
                assert(a.contains(x));
                let m = choose|m: int| 0 <= m < a.len() && a[m] == x;
                if m == 0 {
                    assert(seq_less(b[0], b[k + 1]));
                    lemma_less_irreflexive(b[0]);
                }
                assert(ta[m - 1] == x);
            }
        }
        assert(ta.to_set() =~= tb.to_set());
        lemma_sorted_unique_determined(ta, tb);
        assert(a =~= seq![a[0]] + ta);
        assert(b =~= seq![b[0]] + tb);
    }
}

/// Lays out the module around the finished JSX element; it fails only when the runtime
/// import would import nothing.
pub fn component_plan(jsx: JsxElement, options: &TransformOptions) -> (r: Result<
    ComponentPlan,
    TransformError,
>)
    ensures
        match runtime_import(*options) {
            None => r matches Err(TransformError::InvalidOptions(m)) && m@ == empty_import_message(),
            Some(_) => r matches Ok(p) && exists|natives: Seq<Seq<char>>|
                natives_ok(*options, element_view(jsx), natives) && plan_of(
                    *options,
                    element_view(jsx),
                    natives,
                ) == Some(p@),
        },
{
    let ghost o = *options;
    let ghost jv = element_view(jsx);
    let natives = if options.native {
        collect_native_components(&jsx)
    } else {
        Vec::new()
    };
    assert(natives_ok(o, jv, strings_view(natives@))) by {
        if !o.native {
            assert(strings_view(natives@).to_set() =~= Set::<Seq<char>>::empty());
        }
    }
    let mut imports = match runtime_import_exec(options) {
        Ok(v) => v,
        Err(e) => return Err(e),
    };
    append_other_imports(&mut imports, options, &natives);
    let props_interface = if options.typescript {
        named_props_exec(options)
    } else {
        Vec::new()
    };
    assert(strings_view(props_interface@) =~= if o.typescript {
        named_props(o)
    } else {
        Seq::empty()
    });
    let plan = ComponentPlan {
        typescript: options.typescript,
        imports,
        props_interface,
        component_name: options.component_name.clone(),
        params: component_params(options),
        jsx,
        wrappers: wrappers_exec(options),
        export: export_exec(options),
    };
    assert(plan_of(o, jv, strings_view(natives@)) == Some(plan@));
    Ok(plan)
}

} // verus!
