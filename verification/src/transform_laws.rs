use vstd::prelude::*;

use crate::attrs::{
    first_match, item_matches, kept, spec_item, upserted, without_names,
    AttrSpecModel,
};
use crate::decode::{decoded, normalized_value};
use crate::dynamic::with_dynamic;
use crate::json_options::{json_options_error, json_options_result, JsonTransformOptions};
use crate::jsx::{AttrItemModel, ChildModel, ElementModel};
use crate::names::{camel_state, camelized, first_index, lemma_first_index_bounds, xml_space_replacement};
use crate::options::{is_default_options, TransformOptions};
use crate::passes::is_svg_name;
use crate::plan::{exported_binding, wrappers_of};

verus! {

proof fn lemma_first_match_props(attrs: Seq<AttrItemModel>, s: AttrSpecModel)
    ensures
        0 <= first_match(attrs, s) <= attrs.len(),
        first_match(attrs, s) < attrs.len() ==> item_matches(attrs[first_match(attrs, s)], s),
        forall|k: int| 0 <= k < first_match(attrs, s) ==> !item_matches(attrs[k], s),
    decreases attrs.len(),
{
    if attrs.len() > 0 && !item_matches(attrs[0], s) {
        lemma_first_match_props(attrs.drop_first(), s);
        assert forall|k: int| 0 <= k < first_match(attrs, s) implies !item_matches(attrs[k], s) by {
            if k > 0 {
                assert(attrs[k] == attrs.drop_first()[k - 1]);
            }
        }
    }
}

proof fn lemma_first_match_is(attrs: Seq<AttrItemModel>, s: AttrSpecModel, i: int)
    requires
        0 <= i <= attrs.len(),
        i == attrs.len() || item_matches(attrs[i], s),
        forall|k: int| 0 <= k < i ==> !item_matches(attrs[k], s),
    ensures
        first_match(attrs, s) == i,
    decreases i,
{
    if i > 0 {
        lemma_first_match_is(attrs.drop_first(), s, i - 1);
    }
}

/// Putting an attribute on an element twice is putting it on once: the second time replaces
/// the attribute that the first time put there with the same one.
pub proof fn law_upsert_idempotent(attrs: Seq<AttrItemModel>, s: AttrSpecModel)
    requires
        upserted(attrs, s) is Ok,
    ensures
        upserted(upserted(attrs, s)->Ok_0, s) == upserted(attrs, s),
{
    let once = upserted(attrs, s)->Ok_0;
    let item = spec_item(s);
    let i = first_match(attrs, s);
    lemma_first_match_props(attrs, s);
    assert(item_matches(item, s));
    if i < attrs.len() {
        assert forall|k: int| 0 <= k < i implies !item_matches(once[k], s) by {
            assert(once[k] == attrs[k]);
        }
        lemma_first_match_is(once, s, i);
        assert(once.update(i, item) =~= once);
    } else if s.start {
        lemma_first_match_is(once, s, 0);
        assert(once.update(0, item) =~= once);
    } else {
        assert forall|k: int| 0 <= k < attrs.len() implies !item_matches(once[k], s) by {
            assert(once[k] == attrs[k]);
        }
        lemma_first_match_is(once, s, attrs.len() as int);
        assert(once.update(attrs.len() as int, item) =~= once);
    }
}

/// After the listed names are removed, no named attribute with one of them is left, and every
/// item that is left was there before.
pub proof fn law_removed_names_absent(attrs: Seq<AttrItemModel>, names: Seq<Seq<char>>)
    ensures
        forall|k: int|
            0 <= k < without_names(attrs, names).len() ==> kept(
                #[trigger] without_names(attrs, names)[k],
                names,
            ) && attrs.contains(without_names(attrs, names)[k]),
    decreases attrs.len(),
{
    if attrs.len() > 0 {
        let p = without_names(attrs.drop_last(), names);
        law_removed_names_absent(attrs.drop_last(), names);
        let r = without_names(attrs, names);
        assert forall|k: int| 0 <= k < r.len() implies kept(#[trigger] r[k], names) && attrs.contains(
            r[k],
        ) by {
            if k < p.len() {
                assert(r[k] == p[k]);
                assert(attrs.drop_last().contains(p[k]));
                let j = choose|j: int| 0 <= j < attrs.drop_last().len() && attrs.drop_last()[j] == p[k];
                assert(attrs[j] == p[k]);
            } else {
                assert(r[k] == attrs.last());
                assert(attrs[attrs.len() - 1] == attrs.last());
            }
        }
    }
}

/// Text without `&` holds no entity reference and is left as it is.
pub proof fn law_decode_without_entities(s: Seq<char>)
    requires
        !s.contains('&'),
    ensures
        decoded(s) == s,
{
    lemma_first_index_bounds(s, '&');
    if first_index(s, '&') < s.len() {
        assert(s[first_index(s, '&')] == '&');
    }
}

/// A value with no entity reference and no tab or line break is its own normal form.
pub proof fn law_normalize_plain_value(s: Seq<char>)
    requires
        !s.contains('&'),
        forall|i: int| 0 <= i < s.len() ==> !xml_space_replacement(#[trigger] s[i]),
    ensures
        normalized_value(s) == s,
{
    law_decode_without_entities(s);
    assert(normalized_value(s) =~= s);
}

/// A normalised value holds no tab and no line break.
pub proof fn law_normalized_has_no_breaks(s: Seq<char>)
    ensures
        forall|i: int|
            0 <= i < normalized_value(s).len() ==> !xml_space_replacement(
                #[trigger] normalized_value(s)[i],
            ),
{
}

proof fn lemma_camel_plain(s: Seq<char>)
    requires
        forall|i: int| 0 <= i < s.len() ==> s[i] != '-' && s[i] != ':',
    ensures
        camel_state(s) == (s, false),
    decreases s.len(),
{
    if s.len() > 0 {
        lemma_camel_plain(s.drop_last());
        assert(s.drop_last().push(s.last()) =~= s);
    }
}

/// A name without `-` or `:` is already in camel case.
pub proof fn law_camelize_plain(s: Seq<char>)
    requires
        forall|i: int| 0 <= i < s.len() ==> s[i] != '-' && s[i] != ':',
    ensures
        camelized(s) == s,
{
    lemma_camel_plain(s);
}

pub open spec fn is_dynamic_for(c: ChildModel, tag: Seq<char>) -> bool {
    c matches ChildModel::Dynamic(t, _) && t == tag
}

/// On a root `svg`, the dynamic pass leaves a dynamic child for its tag.
pub proof fn law_dynamic_child_present(root: ElementModel, tag: Seq<char>)
    requires
        is_svg_name(root.name),
    ensures
        exists|k: int|
            0 <= k < with_dynamic(root, tag).children.len() && is_dynamic_for(
                #[trigger] with_dynamic(root, tag).children[k],
                tag,
            ),
{
    let r = with_dynamic(root, tag);
    let i = crate::dynamic::first_tag_child(root.children, tag);
    if i >= root.children.len() {
        assert(is_dynamic_for(r.children[0], tag));
    } else {
        proof_first_tag_child_bounds(root.children, tag);
        assert(is_dynamic_for(r.children[i], tag));
    }
}

proof fn proof_first_tag_child_bounds(children: Seq<ChildModel>, tag: Seq<char>)
    ensures
        0 <= crate::dynamic::first_tag_child(children, tag),
    decreases children.len(),
{
    if children.len() > 0 && !crate::dynamic::is_tag_child(children[0], tag) {
        proof_first_tag_child_bounds(children.drop_first(), tag);
    }
}

/// The export names the outermost wrapper of the component, or the component itself.
pub proof fn law_export_names_outermost_binding(o: TransformOptions)
    ensures
        wrappers_of(o).len() == 0 ==> exported_binding(o) == o.component_name@,
        wrappers_of(o).len() > 0 ==> exported_binding(o) == wrappers_of(o).last().binding,
        forall|k: int|
            0 < k < wrappers_of(o).len() ==> (#[trigger] wrappers_of(o)[k]).argument
                == wrappers_of(o)[k - 1].binding,
        wrappers_of(o).len() > 0 ==> wrappers_of(o)[0].argument == o.component_name@,
{
}

/// JSON options that set nothing give the default options.
pub proof fn law_empty_json_options_are_default(j: JsonTransformOptions, o: TransformOptions)
    requires
        j.component_name is None,
        j.previous_export is None,
        j.ref_ is None,
        j.title_prop is None,
        j.desc_prop is None,
        j.expand_props is None,
        j.dimensions is None,
        j.icon is None,
        j.native is None,
        j.typescript is None,
        j.memo is None,
        j.svg_props is None,
        j.replace_attr_values is None,
        j.export_type is None,
        j.named_export is None,
        j.jsx_runtime is None,
        j.jsx_runtime_import is None,
        j.import_source is None,
        json_options_result(j, o),
    ensures
        json_options_error(j) is None,
        is_default_options(o),
{
}

} // verus!
