use vstd::prelude::*;
use vstd::string::StringExecFns;

use crate::jsx::{
    attr_item_view, attrs_view, child_view, children_view, element_view, lemma_children_view_len,
    AttrItemModel, ChildModel, ElementModel, JsxAttr, JsxChild, JsxElement, JsxValue, ValueModel,
};
use crate::options::TransformOptions;
use crate::passes::is_svg_name;
use crate::text::str_eq;

verus! {

/// The prop that holds the id of the dynamic `title` or `desc`.
pub open spec fn tag_id_name(tag: Seq<char>) -> Seq<char> {
    if tag == "title"@ {
        "titleId"@
    } else {
        "descId"@
    }
}

pub open spec fn is_id_item(a: AttrItemModel) -> bool {
    a matches AttrItemModel::Named(n, _) && n == "id"@
}

pub open spec fn first_id(attrs: Seq<AttrItemModel>) -> int
    decreases attrs.len(),
{
    if attrs.len() == 0 || is_id_item(attrs[0]) {
        0
    } else {
        1 + first_id(attrs.drop_first())
    }
}

proof fn lemma_first_id(attrs: Seq<AttrItemModel>, i: int)
    requires
        0 <= i <= attrs.len(),
        i == attrs.len() || is_id_item(attrs[i]),
        forall|k: int| 0 <= k < i ==> !is_id_item(attrs[k]),
    ensures
        first_id(attrs) == i,
    decreases i,
{
    if i > 0 {
        lemma_first_id(attrs.drop_first(), i - 1);
    }
}

/// The attributes with `id` taken from the prop: `id="a"` becomes `id={titleId || "a"}`,
/// another `id` becomes `id={titleId}`, and an element without one gets `id={titleId}`.
pub open spec fn with_tag_id(attrs: Seq<AttrItemModel>, tag: Seq<char>) -> Seq<AttrItemModel> {
    let i = first_id(attrs);
    let id = tag_id_name(tag);
    if i < attrs.len() {
        match attrs[i] {
            AttrItemModel::Named(n, Some(ValueModel::Str(lit))) => attrs.update(
                i,
                AttrItemModel::Named(n, Some(ValueModel::IdOr(id, lit))),
            ),
            AttrItemModel::Named(n, _) => attrs.update(
                i,
                AttrItemModel::Named(n, Some(ValueModel::Identifier(id))),
            ),
            AttrItemModel::Spread(_) => attrs,
        }
    } else {
        attrs.push(AttrItemModel::Named("id"@, Some(ValueModel::Identifier(id))))
    }
}

pub open spec fn is_tag_child(c: ChildModel, tag: Seq<char>) -> bool {
    c matches ChildModel::Element(e) && e.name == tag
}

pub open spec fn first_tag_child(children: Seq<ChildModel>, tag: Seq<char>) -> int
    decreases children.len(),
{
    if children.len() == 0 || is_tag_child(children[0], tag) {
        0
    } else {
        1 + first_tag_child(children.drop_first(), tag)
    }
}

proof fn lemma_first_tag_child(children: Seq<ChildModel>, tag: Seq<char>, i: int)
    requires
        0 <= i <= children.len(),
        i == children.len() || is_tag_child(children[i], tag),
        forall|k: int| 0 <= k < i ==> !is_tag_child(children[k], tag),
    ensures
        first_tag_child(children, tag) == i,
    decreases i,
{
    if i > 0 {
        lemma_first_tag_child(children.drop_first(), tag, i - 1);
    }
}

/// The root `svg` with its first `tag` child shown from the prop of that name: the child
/// becomes the fallback when it has content, and when there is no such child the dynamic one
/// comes first. Another root is left as it is.
pub open spec fn with_dynamic(root: ElementModel, tag: Seq<char>) -> ElementModel {
    if !is_svg_name(root.name) {
        root
    } else {
        let i = first_tag_child(root.children, tag);
        if i >= root.children.len() {
            ElementModel { children: seq![ChildModel::Dynamic(tag, None)] + root.children, ..root }
        } else {
            let e = root.children[i]->Element_0;
            let fixed = ElementModel { attributes: with_tag_id(e.attributes, tag), ..e };
            let fallback = if e.children.len() == 0 {
                None
            } else {
                Some(fixed)
            };
            ElementModel { children: root.children.update(i, ChildModel::Dynamic(tag, fallback)), ..root }
        }
    }
}

/// The passes that run on the finished JSX: a dynamic title, then a dynamic description.
pub open spec fn post_passes(root: ElementModel, o: TransformOptions) -> ElementModel {
    let r1 = if o.title_prop {
        with_dynamic(root, "title"@)
    } else {
        root
    };
    if o.desc_prop {
        with_dynamic(r1, "desc"@)
    } else {
        r1
    }
}

fn tag_id(tag: &str) -> (r: String)
    ensures
        r@ == tag_id_name(tag@),
{
    if str_eq(tag, "title") {
        String::from_str("titleId")
    } else {
        String::from_str("descId")
    }
}

fn is_id_attr(a: &JsxAttr) -> (r: bool)
    ensures
        r == is_id_item(attr_item_view(*a)),
{
    match a {
        JsxAttr::Named { name, .. } => str_eq(name.as_str(), "id"),
        JsxAttr::Spread { .. } => false,
    }
}

fn is_tag_element(c: &JsxChild, tag: &str) -> (r: bool)
    ensures
        r == is_tag_child(child_view(*c), tag@),
{
    match c {
        JsxChild::Element(e) => str_eq(e.name.as_str(), tag),
        _ => false,
    }
}

fn ensure_dynamic_tag_id(attrs: &mut Vec<JsxAttr>, tag: &str)
    ensures
        attrs_view(final(attrs)@) == with_tag_id(attrs_view(old(attrs)@), tag@),
{
    let ghost before = attrs_view(attrs@);
    let mut i: usize = 0;
    while i < attrs.len() && !is_id_attr(&attrs[i])
        invariant
            i <= attrs@.len(),
            before == attrs_view(attrs@),
            forall|k: int| 0 <= k < i ==> !is_id_item(before[k]),
        decreases attrs@.len() - i,
    {
        i = i + 1;
    }
    proof {
        lemma_first_id(before, i as int);
    }
    let id = tag_id(tag);
    if i == attrs.len() {
        attrs.push(JsxAttr::Named { name: String::from_str("id"), value: Some(JsxValue::Identifier(id)) });
        assert(attrs_view(attrs@) =~= with_tag_id(before, tag@));
        return;
    }
    let old_item = attrs.remove(i);
    let new_item = match old_item {
        JsxAttr::Named { name, value: Some(JsxValue::Str(lit)) } => JsxAttr::Named {
            name,
            value: Some(JsxValue::IdOr { id, fallback: lit }),
        },
        JsxAttr::Named { name, .. } => JsxAttr::Named { name, value: Some(JsxValue::Identifier(id)) },
        other => other,
    };
    attrs.insert(i, new_item);
    assert(attrs_view(attrs@) =~= with_tag_id(before, tag@));
}

/// Shows the first `tag` child of the root `svg` from the prop of that name.
pub fn apply_dynamic_tag(root: &mut JsxElement, tag: &str)
    ensures
        element_view(*final(root)) == with_dynamic(element_view(*old(root)), tag@),
{
    let ghost before = element_view(*root);
    if !(str_eq(root.name.as_str(), "svg") || str_eq(root.name.as_str(), "Svg")) {
        return;
    }
    let ghost kids = children_view(root.children@);
    proof {
        lemma_children_view_len(root.children@);
    }
    let mut i: usize = 0;
    while i < root.children.len() && !is_tag_element(&root.children[i], tag)
        invariant
            i <= root.children@.len(),
            kids == children_view(root.children@),
            kids.len() == root.children@.len(),
            forall|k: int| 0 <= k < i ==> !is_tag_child(kids[k], tag@),
        decreases root.children@.len() - i,
    {
        proof {
            lemma_children_view_index(root.children@, i as int);
        }
        i = i + 1;
    }
    if i < root.children.len() {
        proof {
            lemma_children_view_index(root.children@, i as int);
        }
    }
    proof {
        lemma_first_tag_child(kids, tag@, i as int);
    }
    let tag_string = String::from_str(tag);
    if i == root.children.len() {
        let ghost old_children = root.children@;
        root.children.insert(0, JsxChild::Dynamic { tag: tag_string, fallback: None });
        proof {
            lemma_children_view_prepend(old_children, root.children@[0]);
            assert(root.children@ == seq![root.children@[0]] + old_children);
        }
        assert(element_view(*root).children =~= with_dynamic(before, tag@).children);
        return;
    }
    let ghost old_children = root.children@;
    let child = root.children.remove(i);
    let dynamic = match child {
        JsxChild::Element(mut e) => {
            ensure_dynamic_tag_id(&mut e.attributes, tag);
            if e.children.len() == 0 {
                JsxChild::Dynamic { tag: tag_string, fallback: None }
            } else {
                JsxChild::Dynamic { tag: tag_string, fallback: Some(e) }
            }
        },
        other => other,
    };
    root.children.insert(i, dynamic);
    proof {
        lemma_children_view_update(old_children, i as int, dynamic);
        assert(root.children@ == old_children.update(i as int, dynamic));
    }
    assert(element_view(*root).children =~= with_dynamic(before, tag@).children);
}

pub proof fn lemma_children_view_index(s: Seq<JsxChild>, i: int)
    requires
        0 <= i < s.len(),
    ensures
        children_view(s)[i] == child_view(s[i]),
        children_view(s).len() == s.len(),
    decreases s.len(),
{
    lemma_children_view_len(s);
    if i < s.len() - 1 {
        lemma_children_view_index(s.drop_last(), i);
    }
}

pub proof fn lemma_children_view_update(s: Seq<JsxChild>, i: int, x: JsxChild)
    requires
        0 <= i < s.len(),
    ensures
        children_view(s.update(i, x)) == children_view(s).update(i, child_view(x)),
{
    lemma_children_view_len(s);
    lemma_children_view_len(s.update(i, x));
    assert forall|k: int| 0 <= k < s.len() implies children_view(s.update(i, x))[k] == children_view(
        s,
    ).update(i, child_view(x))[k] by {
        lemma_children_view_index(s.update(i, x), k);
        lemma_children_view_index(s, k);
    }
    assert(children_view(s.update(i, x)) =~= children_view(s).update(i, child_view(x)));
}

pub proof fn lemma_children_view_prepend(s: Seq<JsxChild>, x: JsxChild)
    ensures
        children_view(seq![x] + s) == seq![child_view(x)] + children_view(s),
{
    lemma_children_view_len(s);
    lemma_children_view_len(seq![x] + s);
    assert forall|k: int| 0 <= k < s.len() + 1 implies children_view(seq![x] + s)[k] == (seq![
        child_view(x),
    ] + children_view(s))[k] by {
        lemma_children_view_index(seq![x] + s, k);
        if k > 0 {
            lemma_children_view_index(s, k - 1);
        }
    }
    assert(children_view(seq![x] + s) =~= seq![child_view(x)] + children_view(s));
}

/// Runs the passes on the finished JSX.
pub fn run_post_jsx_passes(root: &mut JsxElement, options: &TransformOptions)
    ensures
        element_view(*final(root)) == post_passes(element_view(*old(root)), *options),
{
    if options.title_prop {
        apply_dynamic_tag(root, "title");
    }
    if options.desc_prop {
        apply_dynamic_tag(root, "desc");
    }
}

} // verus!
