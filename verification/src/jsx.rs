use vstd::prelude::*;

verus! {

/// One `key: value` declaration of a `style` attribute, as an object property.
#[derive(Debug)]
pub struct StyleEntry {
    /// The property's key.
    pub key: String,
    /// Whether the key is written as a string literal rather than as an identifier.
    pub quoted_key: bool,
    /// The value's text; a number when it reads as one (alone or followed by `px`).
    pub value: String,
}

/// The value of a JSX attribute.
#[derive(Debug)]
pub enum JsxValue {
    /// A string literal.
    Str(String),
    /// A number literal, written in the source as this text.
    Number(String),
    /// A number literal given by its IEEE 754 bits.
    NumberBits(u64),
    /// A reference to a binding.
    Identifier(String),
    /// A JavaScript expression given as source text.
    Expression(String),
    /// An object of style properties.
    Style(Vec<StyleEntry>),
    /// `id || "fallback"`.
    IdOr { id: String, fallback: String },
}

/// An item of an opening tag.
#[derive(Debug)]
pub enum JsxAttr {
    /// `name` or `name=value`.
    Named { name: String, value: Option<JsxValue> },
    /// `{...name}`.
    Spread { name: String },
}

/// A JSX element; it has a closing tag exactly when it has children.
#[derive(Debug)]
pub struct JsxElement {
    pub name: String,
    pub attributes: Vec<JsxAttr>,
    pub children: Vec<JsxChild>,
}

#[derive(Debug)]
pub enum JsxChild {
    Element(JsxElement),
    /// `{"text"}`.
    Text(String),
    /// `{tag === undefined ? fallback : tag ? <tag id={tagId}>{tag}</tag> : null}`, or without
    /// the first test when there is no fallback; `tagId` is `titleId` or `descId`.
    Dynamic { tag: String, fallback: Option<JsxElement> },
}

pub struct StyleModel {
    pub key: Seq<char>,
    pub quoted_key: bool,
    pub value: Seq<char>,
}

pub enum ValueModel {
    Str(Seq<char>),
    Number(Seq<char>),
    NumberBits(u64),
    Identifier(Seq<char>),
    Expression(Seq<char>),
    Style(Seq<StyleModel>),
    IdOr(Seq<char>, Seq<char>),
}

pub enum AttrItemModel {
    Named(Seq<char>, Option<ValueModel>),
    Spread(Seq<char>),
}

pub struct ElementModel {
    pub name: Seq<char>,
    pub attributes: Seq<AttrItemModel>,
    pub children: Seq<ChildModel>,
}

pub enum ChildModel {
    Element(ElementModel),
    Text(Seq<char>),
    Dynamic(Seq<char>, Option<ElementModel>),
}

pub open spec fn style_view(e: StyleEntry) -> StyleModel {
    StyleModel { key: e.key@, quoted_key: e.quoted_key, value: e.value@ }
}

pub open spec fn styles_view(s: Seq<StyleEntry>) -> Seq<StyleModel> {
    s.map_values(|e: StyleEntry| style_view(e))
}

pub open spec fn value_view(v: JsxValue) -> ValueModel {
    match v {
        JsxValue::Str(s) => ValueModel::Str(s@),
        JsxValue::Number(s) => ValueModel::Number(s@),
        JsxValue::NumberBits(b) => ValueModel::NumberBits(b),
        JsxValue::Identifier(s) => ValueModel::Identifier(s@),
        JsxValue::Expression(s) => ValueModel::Expression(s@),
        JsxValue::Style(s) => ValueModel::Style(styles_view(s@)),
        JsxValue::IdOr { id, fallback } => ValueModel::IdOr(id@, fallback@),
    }
}

pub open spec fn attr_item_view(a: JsxAttr) -> AttrItemModel {
    match a {
        JsxAttr::Named { name, value } => AttrItemModel::Named(
            name@,
            match value {
                Some(v) => Some(value_view(v)),
                None => None,
            },
        ),
        JsxAttr::Spread { name } => AttrItemModel::Spread(name@),
    }
}

pub open spec fn attrs_view(s: Seq<JsxAttr>) -> Seq<AttrItemModel> {
    s.map_values(|a: JsxAttr| attr_item_view(a))
}

pub open spec fn element_view(e: JsxElement) -> ElementModel
    decreases e, 0int,
{
    ElementModel {
        name: e.name@,
        attributes: attrs_view(e.attributes@),
        children: children_view(e.children@),
    }
}

pub open spec fn child_view(c: JsxChild) -> ChildModel
    decreases c, 1int,
{
    match c {
        JsxChild::Element(e) => ChildModel::Element(element_view(e)),
        JsxChild::Text(s) => ChildModel::Text(s@),
        JsxChild::Dynamic { tag, fallback } => ChildModel::Dynamic(
            tag@,
            match fallback {
                Some(e) => Some(element_view(e)),
                None => None,
            },
        ),
    }
}

pub open spec fn children_view(s: Seq<JsxChild>) -> Seq<ChildModel>
    decreases s, 2int,
{
    if s.len() == 0 {
        Seq::empty()
    } else {
        children_view(s.drop_last()).push(child_view(s.last()))
    }
}

pub proof fn lemma_children_view_push(s: Seq<JsxChild>, x: JsxChild)
    ensures
        children_view(s.push(x)) == children_view(s).push(child_view(x)),
{
    assert(s.push(x).drop_last() =~= s);
}

pub proof fn lemma_children_view_len(s: Seq<JsxChild>)
    ensures
        children_view(s).len() == s.len(),
    decreases s.len(),
{
    if s.len() > 0 {
        lemma_children_view_len(s.drop_last());
    }
}

impl View for JsxElement {
    type V = ElementModel;

    open spec fn view(&self) -> ElementModel {
        element_view(*self)
    }
}

} // verus!
