use vstd::prelude::*;
use vstd::string::StringExecFns;

use crate::attrs::{pairs_view, strings_view};
use crate::jsx::{
    attr_item_view, attrs_view, child_view, children_view, element_view, styles_view, value_view,
    AttrItemModel, ChildModel, ElementModel, JsxAttr, JsxChild, JsxElement, JsxValue, StyleEntry,
    StyleModel, ValueModel,
};
use crate::error::push_char;
use crate::names::char_vec;
use crate::text::str_eq;
use crate::previous::join_strings;
use crate::plan::{
    export_view, import_view, imports_view, param_view, params_view, specifier_view,
    specifiers_view, types_view, wrappers_view, ComponentPlan, ExportModel, ExportPlan, ImportDecl, Wrapper,
    ImportModel, ImportSpecifier, Param, ParamModel, PlanModel, SpecifierModel, TypeRefModel,
    WrapperModel,
};
use crate::tree::join_chars;

verus! {

/// How the numbers of a module are written as JavaScript literals: each text that reads as
/// a finite number, and each number given by its IEEE 754 bits, with the literal for it.
/// Working these out is floating point, which the caller does.
#[derive(Debug)]
pub struct Numerals {
    pub texts: Vec<(String, String)>,
    pub bits: Vec<(u64, String)>,
}

pub struct NumeralsModel {
    pub texts: Seq<(Seq<char>, Seq<char>)>,
    pub bits: Seq<(u64, Seq<char>)>,
}

pub open spec fn bits_pairs_view(b: Seq<(u64, String)>) -> Seq<(u64, Seq<char>)> {
    b.map_values(|x: (u64, String)| (x.0, x.1@))
}

impl View for Numerals {
    type V = NumeralsModel;

    open spec fn view(&self) -> NumeralsModel {
        NumeralsModel { texts: pairs_view(self.texts@), bits: bits_pairs_view(self.bits@) }
    }
}

/// The literal listed first for the text `key`.
pub open spec fn text_numeral(t: Seq<(Seq<char>, Seq<char>)>, key: Seq<char>) -> Option<Seq<char>>
    decreases t.len(),
{
    if t.len() == 0 {
        None
    } else if t[0].0 == key {
        Some(t[0].1)
    } else {
        text_numeral(t.drop_first(), key)
    }
}

/// The literal listed first for the number with the bits `key`.
pub open spec fn bits_numeral(t: Seq<(u64, Seq<char>)>, key: u64) -> Option<Seq<char>>
    decreases t.len(),
{
    if t.len() == 0 {
        None
    } else if t[0].0 == key {
        Some(t[0].1)
    } else {
        bits_numeral(t.drop_first(), key)
    }
}

fn find_text_numeral(t: &Vec<(String, String)>, key: &str) -> (r: Option<String>)
    ensures
        match text_numeral(pairs_view(t@), key@) {
            Some(x) => r matches Some(y) && y@ == x,
            None => r is None,
        },
{
    let ghost pv = pairs_view(t@);
    assert(pv.skip(0) =~= pv);
    let mut i: usize = 0;
    while i < t.len()
        invariant
            i <= t@.len(),
            pv == pairs_view(t@),
            text_numeral(pv, key@) == text_numeral(pv.skip(i as int), key@),
        decreases t@.len() - i,
    {
        assert(pv.skip(i as int)[0] == pv[i as int]);
        assert(pv.skip(i as int).drop_first() =~= pv.skip(i + 1));
        if str_eq(t[i].0.as_str(), key) {
            return Some(t[i].1.clone());
        }
        i = i + 1;
    }
    assert(pv.skip(i as int).len() == 0);
    None
}

fn find_bits_numeral(t: &Vec<(u64, String)>, key: u64) -> (r: Option<String>)
    ensures
        match bits_numeral(bits_pairs_view(t@), key) {
            Some(x) => r matches Some(y) && y@ == x,
            None => r is None,
        },
{
    let ghost pv = bits_pairs_view(t@);
    assert(pv.skip(0) =~= pv);
    let mut i: usize = 0;
    while i < t.len()
        invariant
            i <= t@.len(),
            pv == bits_pairs_view(t@),
            bits_numeral(pv, key) == bits_numeral(pv.skip(i as int), key),
        decreases t@.len() - i,
    {
        assert(pv.skip(i as int)[0] == pv[i as int]);
        assert(pv.skip(i as int).drop_first() =~= pv.skip(i + 1));
        if t[i].0 == key {
            return Some(t[i].1.clone());
        }
        i = i + 1;
    }
    assert(pv.skip(i as int).len() == 0);
    None
}

/// A hexadecimal digit, lower case.
pub open spec fn hex_digit(d: u32) -> char {
    "0123456789abcdef"@[d as int]
}

/// How a character is written inside a JSON string literal, which JavaScript reads the same.
pub open spec fn escaped_char(c: char) -> Seq<char> {
    if c == '"' {
        "\\\""@
    } else if c == '\\' {
        "\\\\"@
    } else if c == '\n' {
        "\\n"@
    } else if c == '\r' {
        "\\r"@
    } else if c == '\t' {
        "\\t"@
    } else if c == '\x08' {
        "\\b"@
    } else if c == '\x0c' {
        "\\f"@
    } else if (c as u32) < 0x20 {
        "\\u00"@ + seq![hex_digit((c as u32) / 16), hex_digit((c as u32) % 16)]
    } else {
        seq![c]
    }
}

pub open spec fn escaped(s: Seq<char>) -> Seq<char>
    decreases s.len(),
{
    if s.len() == 0 {
        Seq::empty()
    } else {
        escaped(s.drop_last()) + escaped_char(s.last())
    }
}

/// The string literal of `s`: in double quotes, with quotes, backslashes and control
/// characters escaped.
pub open spec fn quoted(s: Seq<char>) -> Seq<char> {
    "\""@ + escaped(s) + "\""@
}

fn write_escaped_char(out: &mut String, c: char)
    ensures
        final(out)@ == old(out)@ + escaped_char(c),
{
    if c == '"' {
        out.append("\\\"");
    } else if c == '\\' {
        out.append("\\\\");
    } else if c == '\n' {
        out.append("\\n");
    } else if c == '\r' {
        out.append("\\r");
    } else if c == '\t' {
        out.append("\\t");
    } else if c == '\x08' {
        out.append("\\b");
    } else if c == '\x0c' {
        out.append("\\f");
    } else if (c as u32) < 0x20 {
        out.append("\\u00");
        let digits = char_vec("0123456789abcdef");
        proof {
            reveal_strlit("0123456789abcdef");
        }
        let code = c as u32;
        push_char(out, digits[(code / 16) as usize]);
        push_char(out, digits[(code % 16) as usize]);
    } else {
        push_char(out, c);
    }
}

/// `s` as a string literal.
pub fn quote(s: &str) -> (r: String)
    ensures
        r@ == quoted(s@),
{
    let mut out = String::from_str("\"");
    let v = char_vec(s);
    let ghost base = out@;
    let mut i: usize = 0;
    while i < v.len()
        invariant
            i <= v@.len(),
            v@ == s@,
            out@ == base + escaped(v@.take(i as int)),
        decreases v@.len() - i,
    {
        assert(v@.take(i + 1).drop_last() =~= v@.take(i as int));
        write_escaped_char(&mut out, v[i]);
        i = i + 1;
    }
    assert(v@.take(v@.len() as int) =~= v@);
    out.append("\"");
    out
}

/// The literal for the numeric text `t`, or `t` itself where none is listed.
pub open spec fn number_text(n: NumeralsModel, t: Seq<char>) -> Seq<char> {
    match text_numeral(n.texts, t) {
        Some(x) => x,
        None => t,
    }
}

/// The literal for the number with the bits `b`, or `0` where none is listed.
pub open spec fn bits_text(n: NumeralsModel, b: u64) -> Seq<char> {
    match bits_numeral(n.bits, b) {
        Some(x) => x,
        None => "0"@,
    }
}

/// A style value: the number before a `px` suffix, else the number it reads as, else its
/// string literal.
pub open spec fn style_value_text(v: Seq<char>, n: NumeralsModel) -> Seq<char> {
    let px = v.len() >= 2 && v[v.len() - 2] == 'p' && v[v.len() - 1] == 'x';
    if px && text_numeral(n.texts, v.take(v.len() - 2)) is Some {
        text_numeral(n.texts, v.take(v.len() - 2))->Some_0
    } else if text_numeral(n.texts, v) is Some {
        text_numeral(n.texts, v)->Some_0
    } else {
        quoted(v)
    }
}

/// `key: value`, the key quoted where it is not an identifier.
pub open spec fn style_prop_text(e: StyleModel, n: NumeralsModel) -> Seq<char> {
    (if e.quoted_key {
        quoted(e.key)
    } else {
        e.key
    }) + ": "@ + style_value_text(e.value, n)
}

pub open spec fn style_text(entries: Seq<StyleModel>, n: NumeralsModel) -> Seq<char> {
    "{ "@ + join_chars(entries.map_values(|e: StyleModel| style_prop_text(e, n)), ", "@) + " }"@
}

/// The value of an attribute after `=`: a plain string in double quotes where it holds no
/// double quote and no line feed, otherwise an expression in braces.
pub open spec fn value_text(v: ValueModel, n: NumeralsModel) -> Seq<char> {
    match v {
        ValueModel::Str(s) => if !s.contains('"') && !s.contains('\n') {
            "\""@ + s + "\""@
        } else {
            "{"@ + quoted(s) + "}"@
        },
        ValueModel::Number(t) => "{"@ + number_text(n, t) + "}"@,
        ValueModel::NumberBits(b) => "{"@ + bits_text(n, b) + "}"@,
        ValueModel::Identifier(name) => "{"@ + name + "}"@,
        ValueModel::Expression(e) => "{"@ + e + "}"@,
        ValueModel::Style(entries) => "{"@ + style_text(entries, n) + "}"@,
        ValueModel::IdOr(id, fallback) => "{"@ + id + " || "@ + quoted(fallback) + "}"@,
    }
}

pub open spec fn attr_text(a: AttrItemModel, n: NumeralsModel) -> Seq<char> {
    match a {
        AttrItemModel::Named(name, None) => name,
        AttrItemModel::Named(name, Some(v)) => name + "="@ + value_text(v, n),
        AttrItemModel::Spread(name) => "{..."@ + name + "}"@,
    }
}

fn write_numeric(out: &mut String, n: &Numerals, t: &str)
    ensures
        final(out)@ == old(out)@ + number_text(n@, t@),
{
    match find_text_numeral(&n.texts, t) {
        Some(x) => out.append(x.as_str()),
        None => out.append(t),
    }
}

fn has_char(s: &str, c: char) -> (r: bool)
    ensures
        r == s@.contains(c),
{
    let v = char_vec(s);
    let mut i: usize = 0;
    while i < v.len()
        invariant
            i <= v@.len(),
            v@ == s@,
            forall|k: int| 0 <= k < i ==> v@[k] != c,
        decreases v@.len() - i,
    {
        if v[i] == c {
            return true;
        }
        i = i + 1;
    }
    false
}

fn style_value(v: &str, n: &Numerals) -> (r: String)
    ensures
        r@ == style_value_text(v@, n@),
{
    let c = char_vec(v);
    let len = c.len();
    if len >= 2 && c[len - 2] == 'p' && c[len - 1] == 'x' {
        let head = crate::names::string_of(&c, 0, len - 2);
        assert(head@ == v@.take(len - 2));
        match find_text_numeral(&n.texts, head.as_str()) {
            Some(x) => return x,
            None => {},
        }
    }
    match find_text_numeral(&n.texts, v) {
        Some(x) => x,
        None => quote(v),
    }
}

fn style_object(entries: &Vec<StyleEntry>, n: &Numerals) -> (r: String)
    ensures
        r@ == style_text(styles_view(entries@), n@),
{
    let ghost sv = styles_view(entries@);
    let ghost f = |e: StyleModel| style_prop_text(e, n@);
    let mut parts: Vec<String> = Vec::new();
    let mut i: usize = 0;
    while i < entries.len()
        invariant
            i <= entries@.len(),
            sv == styles_view(entries@),
            f == (|e: StyleModel| style_prop_text(e, n@)),
            strings_view(parts@) == sv.take(i as int).map_values(f),
        decreases entries@.len() - i,
    {
        let e = &entries[i];
        let mut part = if e.quoted_key {
            quote(e.key.as_str())
        } else {
            e.key.clone()
        };
        part.append(": ");
        let value = style_value(e.value.as_str(), n);
        part.append(value.as_str());
        assert(part@ == f(sv[i as int]));
        let ghost before = strings_view(parts@);
        parts.push(part);
        assert(strings_view(parts@) =~= before.push(part@));
        assert(sv.take(i + 1).map_values(f) =~= sv.take(i as int).map_values(f).push(f(sv[i as int])));
        i = i + 1;
    }
    assert(sv.take(entries@.len() as int) =~= sv);
    let mut out = String::from_str("{ ");
    let joined = crate::previous::join_strings(&parts, ", ");
    out.append(joined.as_str());
    out.append(" }");
    out
}

fn write_value(out: &mut String, v: &JsxValue, n: &Numerals)
    ensures
        final(out)@ == old(out)@ + value_text(value_view(*v), n@),
{
    match v {
        JsxValue::Str(s) => {
            if !has_char(s.as_str(), '"') && !has_char(s.as_str(), '\n') {
                out.append("\"");
                out.append(s.as_str());
                out.append("\"");
            } else {
                out.append("{");
                let q = quote(s.as_str());
                out.append(q.as_str());
                out.append("}");
            }
        },
        JsxValue::Number(t) => {
            out.append("{");
            write_numeric(out, n, t.as_str());
            out.append("}");
        },
        JsxValue::NumberBits(b) => {
            out.append("{");
            match find_bits_numeral(&n.bits, *b) {
                Some(x) => out.append(x.as_str()),
                None => out.append("0"),
            }
            out.append("}");
        },
        JsxValue::Identifier(name) => {
            out.append("{");
            out.append(name.as_str());
            out.append("}");
        },
        JsxValue::Expression(e) => {
            out.append("{");
            out.append(e.as_str());
            out.append("}");
        },
        JsxValue::Style(entries) => {
            out.append("{");
            let o = style_object(entries, n);
            out.append(o.as_str());
            out.append("}");
        },
        JsxValue::IdOr { id, fallback } => {
            out.append("{");
            out.append(id.as_str());
            out.append(" || ");
            let q = quote(fallback.as_str());
            out.append(q.as_str());
            out.append("}");
        },
    }
}

fn write_attr(out: &mut String, a: &JsxAttr, n: &Numerals)
    ensures
        final(out)@ == old(out)@ + attr_text(attr_item_view(*a), n@),
{
    match a {
        JsxAttr::Named { name, value: None } => out.append(name.as_str()),
        JsxAttr::Named { name, value: Some(v) } => {
            out.append(name.as_str());
            out.append("=");
            write_value(out, v, n);
        },
        JsxAttr::Spread { name } => {
            out.append("{...");
            out.append(name.as_str());
            out.append("}");
        },
    }
}

/// `<tag id={tagId}>{tag}</tag>`, where `tagId` is `titleId` for a title and `descId`
/// otherwise.
pub open spec fn dynamic_element_text(tag: Seq<char>) -> Seq<char> {
    "<"@ + tag + " id={"@ + (if tag == "title"@ {
        "titleId"@
    } else {
        "descId"@
    }) + "}>{"@ + tag + "}</"@ + tag + ">"@
}

/// The attributes of an opening tag, each after a space.
pub open spec fn attrs_text(attrs: Seq<AttrItemModel>, n: NumeralsModel) -> Seq<char>
    decreases attrs.len(),
{
    if attrs.len() == 0 {
        Seq::empty()
    } else {
        attrs_text(attrs.drop_last(), n) + " "@ + attr_text(attrs.last(), n)
    }
}

/// An element as JSX: self-closing where it has no children.
pub open spec fn element_text(e: ElementModel, n: NumeralsModel) -> Seq<char>
    decreases e, 0int,
{
    if e.children.len() == 0 {
        "<"@ + e.name + attrs_text(e.attributes, n) + " />"@
    } else {
        "<"@ + e.name + attrs_text(e.attributes, n) + ">"@ + children_text(e.children, n) + "</"@
            + e.name + ">"@
    }
}

/// A child: an element, a string in braces, or the dynamic title or description.
pub open spec fn child_text(c: ChildModel, n: NumeralsModel) -> Seq<char>
    decreases c, 1int,
{
    match c {
        ChildModel::Element(e) => element_text(e, n),
        ChildModel::Text(t) => "{"@ + quoted(t) + "}"@,
        ChildModel::Dynamic(tag, fallback) => {
            let shown = tag + " ? "@ + dynamic_element_text(tag) + " : null"@;
            match fallback {
                Some(e) => "{"@ + tag + " === undefined ? "@ + element_text(e, n) + " : "@ + shown
                    + "}"@,
                None => "{"@ + shown + "}"@,
            }
        },
    }
}

pub open spec fn children_text(s: Seq<ChildModel>, n: NumeralsModel) -> Seq<char>
    decreases s, 2int,
{
    if s.len() == 0 {
        Seq::empty()
    } else {
        children_text(s.drop_last(), n) + child_text(s.last(), n)
    }
}

fn write_dynamic_element(out: &mut String, tag: &str)
    ensures
        final(out)@ == old(out)@ + dynamic_element_text(tag@),
{
    out.append("<");
    out.append(tag);
    out.append(" id={");
    if str_eq(tag, "title") {
        out.append("titleId");
    } else {
        out.append("descId");
    }
    out.append("}>{");
    out.append(tag);
    out.append("}</");
    out.append(tag);
    out.append(">");
}

fn write_element(out: &mut String, e: &JsxElement, n: &Numerals)
    ensures
        final(out)@ == old(out)@ + element_text(element_view(*e), n@),
    decreases e,
{
    let ghost ev = element_view(*e);
    let ghost start = out@;
    out.append("<");
    out.append(e.name.as_str());
    let mut i: usize = 0;
    while i < e.attributes.len()
        invariant
            i <= e.attributes@.len(),
            ev == element_view(*e),
            out@ == start + "<"@ + e.name@ + attrs_text(attrs_view(e.attributes@.take(i as int)), n@),
        decreases e.attributes@.len() - i,
    {
        let ghost before = attrs_view(e.attributes@.take(i as int));
        assert(attrs_view(e.attributes@.take(i + 1)) =~= before.push(attr_item_view(e.attributes@[i as int])));
        assert(before.push(attr_item_view(e.attributes@[i as int])).drop_last() =~= before);
        out.append(" ");
        write_attr(out, &e.attributes[i], n);
        i = i + 1;
    }
    assert(e.attributes@.take(e.attributes@.len() as int) =~= e.attributes@);
    proof {
        crate::jsx::lemma_children_view_len(e.children@);
    }
    if e.children.len() == 0 {
        out.append(" />");
        return;
    }
    out.append(">");
    let ghost mid = out@;
    let mut j: usize = 0;
    while j < e.children.len()
        invariant
            j <= e.children@.len(),
            ev == element_view(*e),
            out@ == mid + children_text(children_view(e.children@.take(j as int)), n@),
        decreases e.children@.len() - j,
    {
        let ghost before = children_view(e.children@.take(j as int));
        proof {
            assert(e.children@.take(j + 1) =~= e.children@.take(j as int).push(e.children@[j as int]));
            crate::jsx::lemma_children_view_push(e.children@.take(j as int), e.children@[j as int]);
            let after = before.push(child_view(e.children@[j as int]));
            assert(after.drop_last() =~= before);
        }
        let ghost cv = child_view(e.children@[j as int]);
        proof {
            assert(decreases_to!(*e => e.children));
            assert(decreases_to!(e.children => e.children@));
            assert(decreases_to!(e.children@ => e.children@[j as int]));
        }
        write_child(out, &e.children[j], n);
        assert(children_text(before.push(cv), n@) == children_text(before, n@) + child_text(cv, n@));
        j = j + 1;
    }
    assert(e.children@.take(e.children@.len() as int) =~= e.children@);
    out.append("</");
    out.append(e.name.as_str());
    out.append(">");
}

fn write_child(out: &mut String, c: &JsxChild, n: &Numerals)
    ensures
        final(out)@ == old(out)@ + child_text(child_view(*c), n@),
    decreases c,
{
    let ghost o = out@;
    match c {
        JsxChild::Element(e) => {
            write_element(out, e, n);
        },
        JsxChild::Text(t) => {
            out.append("{");
            let q = quote(t.as_str());
            out.append(q.as_str());
            out.append("}");
            assert(out@ =~= o + child_text(child_view(*c), n@));
        },
        JsxChild::Dynamic { tag, fallback } => {
            out.append("{");
            out.append(tag.as_str());
            match fallback {
                Some(f) => {
                    out.append(" === undefined ? ");
                    write_element(out, f, n);
                    out.append(" : ");
                    out.append(tag.as_str());
                },
                None => {},
            }
            out.append(" ? ");
            write_dynamic_element(out, tag.as_str());
            out.append(" : null");
            out.append("}");
            assert(out@ =~= o + child_text(child_view(*c), n@));
        },
    }
}

/// The default and namespace specifiers of an import, in order.
pub open spec fn head_parts(s: Seq<SpecifierModel>) -> Seq<Seq<char>>
    decreases s.len(),
{
    if s.len() == 0 {
        Seq::empty()
    } else {
        let p = head_parts(s.drop_last());
        match s.last() {
            SpecifierModel::Default(name) => p.push(name),
            SpecifierModel::Namespace(name) => p.push("* as "@ + name),
            SpecifierModel::Named(_) => p,
        }
    }
}

/// The named specifiers of an import, in order.
pub open spec fn named_parts(s: Seq<SpecifierModel>) -> Seq<Seq<char>>
    decreases s.len(),
{
    if s.len() == 0 {
        Seq::empty()
    } else {
        let p = named_parts(s.drop_last());
        match s.last() {
            SpecifierModel::Named(name) => p.push(name),
            _ => p,
        }
    }
}

/// `import a, * as b, { c, d } from "source";`, or `import type` for a type-only import.
pub open spec fn import_text(i: ImportModel) -> Seq<char> {
    let named = named_parts(i.specifiers);
    let parts = if named.len() > 0 {
        head_parts(i.specifiers).push("{ "@ + join_chars(named, ", "@) + " }"@)
    } else {
        head_parts(i.specifiers)
    };
    (if i.type_only {
        "import type"@
    } else {
        "import"@
    }) + " "@ + join_chars(parts, ", "@) + " from "@ + quoted(i.source) + ";\n"@
}

pub open spec fn type_item_text(t: TypeRefModel) -> Seq<char> {
    match t.argument {
        Some(a) => t.name + "<"@ + a + ">"@,
        None => t.name,
    }
}

/// A parameter: a name or an object pattern, with its type annotation where it has one.
pub open spec fn param_text(p: ParamModel) -> Seq<char> {
    let pattern = match p {
        ParamModel::Binding(name, _) => name,
        ParamModel::Object(props, rest, _) => "{ "@ + join_chars(
            match rest {
                Some(r) => props.push("..."@ + r),
                None => props,
            },
            ", "@,
        ) + " }"@,
    };
    let ann = match p {
        ParamModel::Binding(_, a) => a,
        ParamModel::Object(_, _, a) => a,
    };
    if ann.len() == 0 {
        pattern
    } else {
        pattern + ": "@ + join_chars(ann.map_values(|t: TypeRefModel| type_item_text(t)), " & "@)
    }
}

pub open spec fn wrapper_text(w: WrapperModel) -> Seq<char> {
    "const "@ + w.binding + " = "@ + w.callee + "("@ + w.argument + ");\n"@
}

pub open spec fn export_text(e: ExportModel) -> Seq<char> {
    match e {
        ExportModel::Default(local) => "export default "@ + local + ";\n"@,
        ExportModel::Named(local, exported, previous) => "export { "@ + local + " as "@ + exported
            + " };\n"@ + match previous {
            Some(t) => t + "\n"@,
            None => ""@,
        },
    }
}

pub open spec fn props_interface_text(props: Seq<Seq<char>>) -> Seq<char> {
    if props.len() > 0 {
        "interface SVGRProps { "@ + join_chars(props.map_values(|x: Seq<char>| x + "?: string;"@), " "@)
            + " }\n"@
    } else {
        ""@
    }
}

/// The JavaScript text of the module a plan lays out: its imports, the `SVGRProps`
/// interface, the component, its wrappers and the export, a statement a line.
pub open spec fn module_text_of(p: PlanModel, n: NumeralsModel) -> Seq<char> {
    join_chars(p.imports.map_values(|i: ImportModel| import_text(i)), ""@) + props_interface_text(
        p.props_interface,
    ) + "const "@ + p.component_name + " = ("@ + join_chars(
        p.params.map_values(|x: ParamModel| param_text(x)),
        ", "@,
    ) + ") => "@ + element_text(p.jsx, n) + ";\n"@ + join_chars(
        p.wrappers.map_values(|w: WrapperModel| wrapper_text(w)),
        ""@,
    ) + export_text(p.export)
}

fn import_line(i: &ImportDecl) -> (r: String)
    ensures
        r@ == import_text(import_view(*i)),
{
    let ghost sv = specifiers_view(i.specifiers@);
    let mut heads: Vec<String> = Vec::new();
    let mut named: Vec<String> = Vec::new();
    let mut k: usize = 0;
    while k < i.specifiers.len()
        invariant
            k <= i.specifiers@.len(),
            sv == specifiers_view(i.specifiers@),
            strings_view(heads@) == head_parts(sv.take(k as int)),
            strings_view(named@) == named_parts(sv.take(k as int)),
        decreases i.specifiers@.len() - k,
    {
        assert(sv.take(k + 1).drop_last() =~= sv.take(k as int));
        assert(sv.take(k + 1).last() == specifier_view(i.specifiers@[k as int]));
        let ghost h0 = strings_view(heads@);
        let ghost n0 = strings_view(named@);
        match &i.specifiers[k] {
            ImportSpecifier::Default(name) => {
                heads.push(name.clone());
                assert(strings_view(heads@) =~= h0.push(name@));
            },
            ImportSpecifier::Namespace(name) => {
                let mut t = String::from_str("* as ");
                t.append(name.as_str());
                heads.push(t);
                assert(strings_view(heads@) =~= h0.push("* as "@ + name@));
            },
            ImportSpecifier::Named(name) => {
                named.push(name.clone());
                assert(strings_view(named@) =~= n0.push(name@));
            },
        }
        k = k + 1;
    }
    assert(sv.take(i.specifiers@.len() as int) =~= sv);
    if named.len() > 0 {
        let mut t = String::from_str("{ ");
        let j = join_strings(&named, ", ");
        t.append(j.as_str());
        t.append(" }");
        let ghost h0 = strings_view(heads@);
        heads.push(t);
        assert(strings_view(heads@) =~= h0.push(t@));
    }
    let mut out = if i.type_only {
        String::from_str("import type")
    } else {
        String::from_str("import")
    };
    out.append(" ");
    let j = join_strings(&heads, ", ");
    out.append(j.as_str());
    out.append(" from ");
    let q = quote(i.source.as_str());
    out.append(q.as_str());
    out.append(";\n");
    out
}

fn param_line(p: &Param) -> (r: String)
    ensures
        r@ == param_text(param_view(*p)),
{
    let (mut out, annotation) = match p {
        Param::Binding { name, annotation } => (name.clone(), annotation),
        Param::Object { props, rest, annotation } => {
            let mut items: Vec<String> = Vec::new();
            let mut k: usize = 0;
            while k < props.len()
                invariant
                    k <= props@.len(),
                    strings_view(items@) == strings_view(props@).take(k as int),
                decreases props@.len() - k,
            {
                let ghost i0 = strings_view(items@);
                items.push(props[k].clone());
                assert(strings_view(items@) =~= i0.push(props@[k as int]@));
                assert(strings_view(props@).take(k + 1) =~= i0.push(props@[k as int]@));
                k = k + 1;
            }
            assert(strings_view(props@).take(props@.len() as int) =~= strings_view(props@));
            match rest {
                Some(r) => {
                    let mut t = String::from_str("...");
                    t.append(r.as_str());
                    let ghost i0 = strings_view(items@);
                    items.push(t);
                    assert(strings_view(items@) =~= i0.push("..."@ + r@));
                },
                None => {},
            }
            let mut pattern = String::from_str("{ ");
            let j = join_strings(&items, ", ");
            pattern.append(j.as_str());
            pattern.append(" }");
            (pattern, annotation)
        },
    };
    if annotation.len() == 0 {
        return out;
    }
    let ghost tv = types_view(annotation@);
    let ghost f = |t: TypeRefModel| type_item_text(t);
    let mut items: Vec<String> = Vec::new();
    let mut k: usize = 0;
    while k < annotation.len()
        invariant
            k <= annotation@.len(),
            tv == types_view(annotation@),
            f == (|t: TypeRefModel| type_item_text(t)),
            strings_view(items@) == tv.take(k as int).map_values(f),
        decreases annotation@.len() - k,
    {
        let t = &annotation[k];
        let mut s = t.name.clone();
        match &t.argument {
            Some(a) => {
                s.append("<");
                s.append(a.as_str());
                s.append(">");
            },
            None => {},
        }
        assert(s@ == f(tv[k as int]));
        let ghost i0 = strings_view(items@);
        items.push(s);
        assert(strings_view(items@) =~= i0.push(s@));
        assert(tv.take(k + 1).map_values(f) =~= tv.take(k as int).map_values(f).push(f(tv[k as int])));
        k = k + 1;
    }
    assert(tv.take(annotation@.len() as int) =~= tv);
    out.append(": ");
    let j = join_strings(&items, " & ");
    out.append(j.as_str());
    out
}

fn import_lines(imports: &Vec<ImportDecl>) -> (r: String)
    ensures
        r@ == join_chars(imports_view(imports@).map_values(|i: ImportModel| import_text(i)), ""@),
{
    let ghost iv = imports_view(imports@);
    let ghost f = |i: ImportModel| import_text(i);
    let mut lines: Vec<String> = Vec::new();
    let mut k: usize = 0;
    while k < imports.len()
        invariant
            k <= imports@.len(),
            iv == imports_view(imports@),
            f == (|i: ImportModel| import_text(i)),
            strings_view(lines@) == iv.take(k as int).map_values(f),
        decreases imports@.len() - k,
    {
        let line = import_line(&imports[k]);
        let ghost l0 = strings_view(lines@);
        lines.push(line);
        assert(strings_view(lines@) =~= l0.push(line@));
        assert(iv.take(k + 1).map_values(f) =~= iv.take(k as int).map_values(f).push(f(iv[k as int])));
        k = k + 1;
    }
    assert(iv.take(imports@.len() as int) =~= iv);
    join_strings(&lines, "")
}

fn param_list(params: &Vec<Param>) -> (r: String)
    ensures
        r@ == join_chars(params_view(params@).map_values(|x: ParamModel| param_text(x)), ", "@),
{
    let ghost pv = params_view(params@);
    let ghost f = |x: ParamModel| param_text(x);
    let mut items: Vec<String> = Vec::new();
    let mut k: usize = 0;
    while k < params.len()
        invariant
            k <= params@.len(),
            pv == params_view(params@),
            f == (|x: ParamModel| param_text(x)),
            strings_view(items@) == pv.take(k as int).map_values(f),
        decreases params@.len() - k,
    {
        let item = param_line(&params[k]);
        let ghost i0 = strings_view(items@);
        items.push(item);
        assert(strings_view(items@) =~= i0.push(item@));
        assert(pv.take(k + 1).map_values(f) =~= pv.take(k as int).map_values(f).push(f(pv[k as int])));
        k = k + 1;
    }
    assert(pv.take(params@.len() as int) =~= pv);
    join_strings(&items, ", ")
}

fn wrapper_lines(wrappers: &Vec<Wrapper>) -> (r: String)
    ensures
        r@ == join_chars(wrappers_view(wrappers@).map_values(|w: WrapperModel| wrapper_text(w)), ""@),
{
    let ghost wv = wrappers_view(wrappers@);
    let ghost f = |w: WrapperModel| wrapper_text(w);
    let mut lines: Vec<String> = Vec::new();
    let mut k: usize = 0;
    while k < wrappers.len()
        invariant
            k <= wrappers@.len(),
            wv == wrappers_view(wrappers@),
            f == (|w: WrapperModel| wrapper_text(w)),
            strings_view(lines@) == wv.take(k as int).map_values(f),
        decreases wrappers@.len() - k,
    {
        let w = &wrappers[k];
        let mut line = String::from_str("const ");
        line.append(w.binding.as_str());
        line.append(" = ");
        line.append(w.callee.as_str());
        line.append("(");
        line.append(w.argument.as_str());
        line.append(");\n");
        assert(line@ =~= f(wv[k as int]));
        let ghost l0 = strings_view(lines@);
        lines.push(line);
        assert(strings_view(lines@) =~= l0.push(line@));
        assert(wv.take(k + 1).map_values(f) =~= wv.take(k as int).map_values(f).push(f(wv[k as int])));
        k = k + 1;
    }
    assert(wv.take(wrappers@.len() as int) =~= wv);
    join_strings(&lines, "")
}

fn props_interface_line(props: &Vec<String>) -> (r: String)
    ensures
        r@ == props_interface_text(strings_view(props@)),
{
    if props.len() == 0 {
        return String::from_str("");
    }
    let ghost pv = strings_view(props@);
    let ghost f = |x: Seq<char>| x + "?: string;"@;
    let mut items: Vec<String> = Vec::new();
    let mut k: usize = 0;
    while k < props.len()
        invariant
            k <= props@.len(),
            pv == strings_view(props@),
            f == (|x: Seq<char>| x + "?: string;"@),
            strings_view(items@) == pv.take(k as int).map_values(f),
        decreases props@.len() - k,
    {
        let mut item = props[k].clone();
        item.append("?: string;");
        let ghost i0 = strings_view(items@);
        items.push(item);
        assert(strings_view(items@) =~= i0.push(item@));
        assert(pv.take(k + 1).map_values(f) =~= pv.take(k as int).map_values(f).push(f(pv[k as int])));
        k = k + 1;
    }
    assert(pv.take(props@.len() as int) =~= pv);
    let mut out = String::from_str("interface SVGRProps { ");
    let j = join_strings(&items, " ");
    out.append(j.as_str());
    out.append(" }\n");
    out
}

fn export_line(e: &ExportPlan) -> (r: String)
    ensures
        r@ == export_text(export_view(*e)),
{
    match e {
        ExportPlan::Default(local) => {
            let mut out = String::from_str("export default ");
            out.append(local.as_str());
            out.append(";\n");
            out
        },
        ExportPlan::Named { local, exported, previous } => {
            let mut out = String::from_str("export { ");
            out.append(local.as_str());
            out.append(" as ");
            out.append(exported.as_str());
            out.append(" };\n");
            match previous {
                Some(t) => {
                    out.append(t.as_str());
                    out.append("\n");
                },
                None => {
                    out.append("");
                },
            }
            out
        },
    }
}

/// The JavaScript text of the module that `plan` lays out, its numbers written as
/// `numerals` gives them.
pub fn module_text(plan: &ComponentPlan, numerals: &Numerals) -> (r: String)
    ensures
        r@ == module_text_of(plan@, numerals@),
{
    let mut out = import_lines(&plan.imports);
    let props = props_interface_line(&plan.props_interface);
    out.append(props.as_str());
    out.append("const ");
    out.append(plan.component_name.as_str());
    out.append(" = (");
    let params = param_list(&plan.params);
    out.append(params.as_str());
    out.append(") => ");
    write_element(&mut out, &plan.jsx, numerals);
    out.append(";\n");
    let wrappers = wrapper_lines(&plan.wrappers);
    out.append(wrappers.as_str());
    let export = export_line(&plan.export);
    out.append(export.as_str());
    out
}

} // verus!
