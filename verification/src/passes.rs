use vstd::prelude::*;
use vstd::string::StringExecFns;

use crate::attrs::{
    option_value, option_value_of, pairs_view, remove_attributes, replace_values, replaced_all,
    specs_view, strings_view, upsert_all, upserted_all, without_names, AttrSpec, AttrSpecModel,
    AttrValueSpec, ValueSpecModel,
};
use crate::jsx::{attrs_view, AttrItemModel, JsxAttr};
use crate::names::{element_name_map, map_element_name, native_component_name, native_name_map};
use crate::options::{ExpandProps, Icon, IconSize, TransformError, TransformOptions};
use crate::text::str_eq;

verus! {

/// The IEEE 754 bits of `24.0`, the icon size of React Native.
pub const NATIVE_ICON_SIZE_BITS: u64 = 0x4038_0000_0000_0000;

/// The width and height that `icon` gives the root element.
pub open spec fn icon_value(o: TransformOptions) -> ValueSpecModel {
    match o.icon {
        Icon::Size(IconSize::Number(b)) => ValueSpecModel::NumberBits(b),
        Icon::Size(IconSize::String(s)) => ValueSpecModel::Str(s@),
        Icon::Default => if o.native {
            ValueSpecModel::NumberBits(NATIVE_ICON_SIZE_BITS)
        } else {
            ValueSpecModel::Str("1em"@)
        },
        Icon::Disabled => ValueSpecModel::Str("1em"@),
    }
}

pub open spec fn plain_spec(name: Seq<char>, value: ValueSpecModel) -> AttrSpecModel {
    AttrSpecModel { name, value, spread: false, start: false }
}

/// `width` and `height` of the icon size.
pub open spec fn em_specs(o: TransformOptions) -> Seq<AttrSpecModel> {
    seq![plain_spec("width"@, icon_value(o)), plain_spec("height"@, icon_value(o))]
}

/// The attributes that the root `svg` loses: `version`, and its size unless `dimensions`.
pub open spec fn removed_names(o: TransformOptions) -> Seq<Seq<char>> {
    if o.dimensions {
        seq!["version"@]
    } else {
        seq!["version"@, "width"@, "height"@]
    }
}

pub open spec fn svg_prop_specs(p: Seq<(Seq<char>, Seq<char>)>) -> Seq<AttrSpecModel> {
    p.map_values(|x: (Seq<char>, Seq<char>)| plain_spec(x.0, option_value_of(x.1)))
}

pub open spec fn optional_spec(on: bool, s: AttrSpecModel) -> Seq<AttrSpecModel> {
    if on {
        seq![s]
    } else {
        Seq::empty()
    }
}

/// The attributes that the root `svg` is given: `svgProps`, then `ref`, the ids of the title
/// and the description, and the `{...props}` spread.
pub open spec fn add_specs(o: TransformOptions) -> Seq<AttrSpecModel> {
    svg_prop_specs(pairs_view(o.svg_props@)) + optional_spec(
        o.ref_,
        plain_spec("ref"@, ValueSpecModel::Identifier("ref"@)),
    ) + optional_spec(
        o.title_prop,
        plain_spec("aria-labelledby"@, ValueSpecModel::Identifier("titleId"@)),
    ) + optional_spec(
        o.desc_prop,
        plain_spec("aria-describedby"@, ValueSpecModel::Identifier("descId"@)),
    ) + optional_spec(
        o.expand_props != ExpandProps::Disabled,
        AttrSpecModel {
            name: "props"@,
            value: ValueSpecModel::Nothing,
            spread: true,
            start: o.expand_props == ExpandProps::Start,
        },
    )
}

/// The root `svg` is given no attribute exactly when no option asks for one: no `svgProps`,
/// no `ref`, no title or description ids and no props spread.
pub proof fn law_no_additions_without_options(o: TransformOptions)
    ensures
        add_specs(o).len() == 0 <==> (o.svg_props@.len() == 0 && !o.ref_ && !o.title_prop
            && !o.desc_prop && o.expand_props == ExpandProps::Disabled),
{
    assert(svg_prop_specs(pairs_view(o.svg_props@)).len() == o.svg_props@.len());
}

pub open spec fn is_svg_name(n: Seq<char>) -> bool {
    n == "svg"@ || n == "Svg"@
}

/// What the attribute passes make of an element's attributes: on the root `svg`, the icon
/// size, the removals and the additions; on every element, the value replacements.
pub open spec fn opening_passes(
    o: TransformOptions,
    name: Seq<char>,
    attrs: Seq<AttrItemModel>,
    is_root: bool,
) -> Result<Seq<AttrItemModel>, Seq<char>> {
    let root_svg = is_root && is_svg_name(name);
    let sized = if root_svg && !(o.icon is Disabled) && o.dimensions {
        upserted_all(attrs, em_specs(o))
    } else {
        Ok(attrs)
    };
    match sized {
        Err(e) => Err(e),
        Ok(a1) => {
            let a2 = if root_svg {
                without_names(a1, removed_names(o))
            } else {
                a1
            };
            let added = if root_svg {
                upserted_all(a2, add_specs(o))
            } else {
                Ok(a2)
            };
            match added {
                Err(e) => Err(e),
                Ok(a3) => replaced_all(a3, pairs_view(o.replace_attr_values@)),
            }
        },
    }
}

fn icon_value_exec(options: &TransformOptions) -> (r: AttrValueSpec)
    ensures
        crate::attrs::value_spec_view(r) == icon_value(*options),
{
    match &options.icon {
        Icon::Size(IconSize::Number(b)) => AttrValueSpec::NumberBits(*b),
        Icon::Size(IconSize::String(s)) => AttrValueSpec::Str(s.clone()),
        Icon::Default => if options.native {
            AttrValueSpec::NumberBits(NATIVE_ICON_SIZE_BITS)
        } else {
            AttrValueSpec::Str(String::from_str("1em"))
        },
        Icon::Disabled => AttrValueSpec::Str(String::from_str("1em")),
    }
}

fn plain(name: &str, value: AttrValueSpec) -> (r: AttrSpec)
    ensures
        crate::attrs::attr_spec_view(r) == plain_spec(name@, crate::attrs::value_spec_view(value)),
{
    AttrSpec { name: String::from_str(name), value, spread: false, position: ExpandProps::End }
}

fn em_specs_exec(options: &TransformOptions) -> (r: Vec<AttrSpec>)
    ensures
        specs_view(r@) == em_specs(*options),
{
    let mut r = Vec::new();
    r.push(plain("width", icon_value_exec(options)));
    r.push(plain("height", icon_value_exec(options)));
    assert(specs_view(r@) =~= em_specs(*options));
    r
}

fn removed_names_exec(options: &TransformOptions) -> (r: Vec<String>)
    ensures
        strings_view(r@) == removed_names(*options),
{
    let mut r = Vec::new();
    r.push(String::from_str("version"));
    if !options.dimensions {
        r.push(String::from_str("width"));
        r.push(String::from_str("height"));
    }
    assert(strings_view(r@) =~= removed_names(*options));
    r
}

fn add_specs_exec(options: &TransformOptions) -> (r: Vec<AttrSpec>)
    ensures
        specs_view(r@) == add_specs(*options),
{
    let ghost o = *options;
    let mut r: Vec<AttrSpec> = Vec::new();
    let mut i: usize = 0;
    let ghost pv = pairs_view(options.svg_props@);
    while i < options.svg_props.len()
        invariant
            i <= options.svg_props@.len(),
            pv == pairs_view(options.svg_props@),
            specs_view(r@) == svg_prop_specs(pv).take(i as int),
        decreases options.svg_props@.len() - i,
    {
        let pair = &options.svg_props[i];
        let spec = plain(pair.0.as_str(), option_value(pair.1.as_str()));
        let ghost before = r@;
        r.push(spec);
        proof {
            assert(pv[i as int] == (pair.0@, pair.1@));
            assert(specs_view(r@) =~= specs_view(before).push(crate::attrs::attr_spec_view(spec)));
            assert(svg_prop_specs(pv).take(i + 1) =~= svg_prop_specs(pv).take(i as int).push(
                svg_prop_specs(pv)[i as int],
            ));
        }
        i = i + 1;
    }
    assert(svg_prop_specs(pv).take(i as int) == svg_prop_specs(pv));
    let ghost base = specs_view(r@);
    if options.ref_ {
        r.push(plain("ref", AttrValueSpec::Identifier(String::from_str("ref"))));
    }
    assert(specs_view(r@) =~= base + optional_spec(
        o.ref_,
        plain_spec("ref"@, ValueSpecModel::Identifier("ref"@)),
    ));
    let ghost base = specs_view(r@);
    if options.title_prop {
        r.push(plain("aria-labelledby", AttrValueSpec::Identifier(String::from_str("titleId"))));
    }
    assert(specs_view(r@) =~= base + optional_spec(
        o.title_prop,
        plain_spec("aria-labelledby"@, ValueSpecModel::Identifier("titleId"@)),
    ));
    let ghost base = specs_view(r@);
    if options.desc_prop {
        r.push(plain("aria-describedby", AttrValueSpec::Identifier(String::from_str("descId"))));
    }
    assert(specs_view(r@) =~= base + optional_spec(
        o.desc_prop,
        plain_spec("aria-describedby"@, ValueSpecModel::Identifier("descId"@)),
    ));
    let ghost base = specs_view(r@);
    if options.expand_props != ExpandProps::Disabled {
        r.push(
            AttrSpec {
                name: String::from_str("props"),
                value: AttrValueSpec::Nothing,
                spread: true,
                position: options.expand_props,
            },
        );
    }
    assert(specs_view(r@) =~= base + optional_spec(
        o.expand_props != ExpandProps::Disabled,
        AttrSpecModel {
            name: "props"@,
            value: ValueSpecModel::Nothing,
            spread: true,
            start: o.expand_props == ExpandProps::Start,
        },
    ));
    r
}

fn is_svg_element(name: &str) -> (r: bool)
    ensures
        r == is_svg_name(name@),
{
    str_eq(name, "svg") || str_eq(name, "Svg")
}

/// Runs the attribute passes on an element named `name` (after renaming).
pub fn apply_opening_element(
    options: &TransformOptions,
    name: &str,
    attrs: Vec<JsxAttr>,
    is_root: bool,
) -> (r: Result<Vec<JsxAttr>, TransformError>)
    ensures
        match opening_passes(*options, name@, attrs_view(attrs@), is_root) {
            Ok(x) => r matches Ok(y) && attrs_view(y@) == x,
            Err(e) => r matches Err(TransformError::InvalidExpression { expr }) && expr@ == e,
        },
{
    let root_svg = is_root && is_svg_element(name);
    let mut attrs = attrs;
    if root_svg && !matches!(options.icon, Icon::Disabled) && options.dimensions {
        let specs = em_specs_exec(options);
        match upsert_all(&mut attrs, &specs) {
            Ok(()) => {},
            Err(e) => return Err(e),
        }
    }
    if root_svg {
        let names = removed_names_exec(options);
        attrs = remove_attributes(attrs, &names);
        let specs = add_specs_exec(options);
        match upsert_all(&mut attrs, &specs) {
            Ok(()) => {},
            Err(e) => return Err(e),
        }
    }
    replace_values(attrs, &options.replace_attr_values)
}

/// The name an SVG element gets, or `None` when React Native has no component for it
/// (the element and its content are then left out).
pub open spec fn prepared_name(o: TransformOptions, svg: Seq<char>, is_root: bool) -> Option<
    Seq<char>,
> {
    let n = element_name_map(svg);
    if !o.native {
        Some(n)
    } else if is_root && n == "Svg"@ {
        Some(n)
    } else if o.title_prop && n == "title"@ {
        Some(n)
    } else if o.desc_prop && n == "desc"@ {
        Some(n)
    } else {
        native_name_map(n)
    }
}

pub fn prepare_element_name(options: &TransformOptions, svg_name: &str, is_root: bool) -> (r:
    Option<String>)
    ensures
        match prepared_name(*options, svg_name@, is_root) {
            Some(n) => r matches Some(x) && x@ == n,
            None => r is None,
        },
{
    let name = map_element_name(svg_name);
    if !options.native {
        Some(name)
    } else if is_root && str_eq(name.as_str(), "Svg") {
        Some(name)
    } else if options.title_prop && str_eq(name.as_str(), "title") {
        Some(name)
    } else if options.desc_prop && str_eq(name.as_str(), "desc") {
        Some(name)
    } else {
        native_component_name(name.as_str())
    }
}

} // verus!
