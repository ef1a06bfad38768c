use vstd::prelude::*;

use crate::decode::{all_digits, digit_value, digits_value, entity_text, parse_u32};
use crate::exports::{
    body_exports, declaration_exports, previous_export_conflict_message, previous_export_error,
    statement_exports, Binding, Declaration, TopStatement,
};
use crate::names::{attribute_name_map, element_name_map, eq_ignore_ascii_case, starts_with_ignore_case, lower_ascii_chars, native_name_map};
use crate::json_options::{expand_props_of, json_options_result, JsonExpandProps, JsonTransformOptions};
use crate::options::{ExpandProps, ExportType, JsxRuntime, TransformOptions};

verus! {

/// `expandProps` as JSON spells it: `"start"` puts the spread first; `"end"` and `true` put it
/// last; `false`, `"false"`, `"disabled"` and `"none"` leave it out.
pub proof fn law_expand_props_spellings(s: String, b: bool)
    ensures
        s@ == "start"@ ==> expand_props_of(JsonExpandProps::String(s)) == Some(ExpandProps::Start),
        s@ == "end"@ ==> expand_props_of(JsonExpandProps::String(s)) == Some(ExpandProps::End),
        s@ == "false"@ || s@ == "disabled"@ || s@ == "none"@ ==> expand_props_of(
            JsonExpandProps::String(s),
        ) == Some(ExpandProps::Disabled),
        b ==> expand_props_of(JsonExpandProps::Bool(b)) == Some(ExpandProps::End),
        !b ==> expand_props_of(JsonExpandProps::Bool(b)) == Some(ExpandProps::Disabled),
{
    reveal_strlit("start");
    reveal_strlit("end");
    reveal_strlit("false");
    reveal_strlit("disabled");
    reveal_strlit("none");
    assert("end"@.len() != "start"@.len());
    assert("false"@[0] != "start"@[0] && "false"@.len() != "end"@.len());
    assert("disabled"@.len() != "start"@.len() && "disabled"@.len() != "end"@.len());
    assert("none"@.len() != "start"@.len() && "none"@[0] != "end"@[0]);
}

/// The pattern is the plain name `name`.
pub open spec fn is_identifier(b: Binding, name: Seq<char>) -> bool {
    b matches Binding::Identifier(x) && x@ == name
}

/// An export whose declaration declares `name` exports `name`: a function, a class or an
/// interface of that name, or a variable bound to it; and so does a specifier exporting it.
/// Such `previousExport` text is refused for the named export `name`.
pub proof fn law_declared_exports_conflict(
    previous: Seq<char>,
    body: Seq<TopStatement>,
    name: Seq<char>,
    i: int,
)
    requires
        0 <= i < body.len(),
        match body[i] {
            TopStatement::ExportNamed { exported, declaration } => {
                ||| exists|j: int| 0 <= j < exported@.len() && #[trigger] exported@[j]@ == name
                ||| declaration matches Some(Declaration::Function(Some(id))) && id@ == name
                ||| declaration matches Some(Declaration::Class(Some(id))) && id@ == name
                ||| declaration matches Some(Declaration::Interface(id)) && id@ == name
                ||| declaration matches Some(Declaration::Variables(v)) && exists|j: int|
                    0 <= j < v@.len() && is_identifier(#[trigger] v@[j], name)
            },
            TopStatement::Other => false,
        },
    ensures
        body_exports(body, name),
        previous_export_error(previous, Ok(body), name) == Some(
            previous_export_conflict_message(name),
        ),
{
    match body[i] {
        TopStatement::ExportNamed { exported, declaration } => {
            match declaration {
                Some(Declaration::Variables(v)) => {
                    if exists|j: int| 0 <= j < v@.len() && is_identifier(#[trigger] v@[j], name) {
                        let j = choose|j: int| 0 <= j < v@.len() && is_identifier(#[trigger] v@[j], name);
                        crate::exports::lemma_any_binds_at(v@, name, j);
                    }
                },
                _ => {},
            }
        },
        TopStatement::Other => {},
    }
    assert(statement_exports(body[i], name));
}

/// The value of each digit: `0`-`9` are worth 0 to 9 in both bases, and in base 16 the
/// letters `a`-`f` and `A`-`F` alike are worth 10 to 15; nothing else is a digit.
pub proof fn law_digit_values(c: char)
    ensures
        '0' <= c <= '9' ==> digit_value(c, 10) == Some((c as nat - 48) as nat) && digit_value(c, 16)
            == Some((c as nat - 48) as nat),
        'a' <= c <= 'f' ==> digit_value(c, 16) == Some((c as nat - 87) as nat),
        'A' <= c <= 'F' ==> digit_value(c, 16) == Some((c as nat - 55) as nat),
        !('0' <= c <= '9') ==> digit_value(c, 10) is None,
        !('0' <= c <= '9' || 'a' <= c <= 'f' || 'A' <= c <= 'F') ==> digit_value(c, 16) is None,
{
}

/// `c` with `a`-`f` written in upper case.
pub open spec fn upper_hex_char(c: char) -> char {
    if 'a' <= c <= 'f' {
        ((c as u32) - 32) as char
    } else {
        c
    }
}

pub open spec fn upper_hex(h: Seq<char>) -> Seq<char> {
    h.map_values(|c: char| upper_hex_char(c))
}

proof fn lemma_digit_case(c: char)
    ensures
        digit_value(upper_hex_char(c), 16) == digit_value(c, 16),
{
    if 'a' <= c <= 'f' {
        let u = upper_hex_char(c);
        assert(u as u32 == (c as u32) - 32);
        assert('A' <= u <= 'F');
    }
}

proof fn lemma_digits_case(h: Seq<char>)
    ensures
        all_digits(upper_hex(h), 16) == all_digits(h, 16),
        digits_value(upper_hex(h), 16) == digits_value(h, 16),
    decreases h.len(),
{
    assert forall|i: int| 0 <= i < h.len() implies digit_value(#[trigger] upper_hex(h)[i], 16)
        == digit_value(h[i], 16) by {
        lemma_digit_case(h[i]);
    }
    if h.len() > 0 {
        assert(upper_hex(h).drop_last() =~= upper_hex(h.drop_last()));
        lemma_digits_case(h.drop_last());
        lemma_digit_case(h.last());
    }
    if all_digits(h, 16) {
        assert forall|i: int| 0 <= i < upper_hex(h).len() implies (#[trigger] digit_value(
            upper_hex(h)[i],
            16,
        )) is Some by {
            assert(digit_value(h[i], 16) is Some);
        }
    }
    if all_digits(upper_hex(h), 16) {
        assert forall|i: int| 0 <= i < h.len() implies (#[trigger] digit_value(h[i], 16)) is Some by {
            assert(digit_value(upper_hex(h)[i], 16) is Some);
        }
    }
}

/// A hexadecimal character reference reads its digits without regard to their case:
/// `&#xa9;` stands for what `&#xA9;` stands for, the character U+00A9.
pub proof fn law_hex_reference_ignores_digit_case(h: Seq<char>)
    ensures
        entity_text("#x"@ + h) == entity_text("#x"@ + upper_hex(h)),
        parse_u32(h, 16) == parse_u32(upper_hex(h), 16),
{
    reveal_strlit("#x");
    reveal_strlit("amp");
    reveal_strlit("lt");
    reveal_strlit("gt");
    reveal_strlit("quot");
    reveal_strlit("apos");
    let e1 = "#x"@ + h;
    let e2 = "#x"@ + upper_hex(h);
    assert(e1[0] == '#' && e1[1] == 'x' && e2[0] == '#' && e2[1] == 'x');
    assert(e1.skip(2) =~= h);
    assert(e2.skip(2) =~= upper_hex(h));
    assert(e1 != "amp"@ && e1 != "lt"@ && e1 != "gt"@ && e1 != "quot"@ && e1 != "apos"@);
    assert(e2 != "amp"@ && e2 != "lt"@ && e2 != "gt"@ && e2 != "quot"@ && e2 != "apos"@);
    lemma_digits_case(h);
    if h.len() > 0 && h[0] == '+' {
        assert(upper_hex(h)[0] == '+');
        assert(upper_hex(h).drop_first() =~= upper_hex(h.drop_first()));
        lemma_digits_case(h.drop_first());
    }
}


/// The elements that `react-native-svg` provides, each with its component: every one maps to
/// its component, named as the element with its first letter (and, for `tspan`, the
/// second) in upper case; every other name maps to nothing.
pub proof fn law_native_components(n: Seq<char>)
    ensures
        native_name_map("svg"@) == Some("Svg"@),
        native_name_map("circle"@) == Some("Circle"@),
        native_name_map("clipPath"@) == Some("ClipPath"@),
        native_name_map("ellipse"@) == Some("Ellipse"@),
        native_name_map("g"@) == Some("G"@),
        native_name_map("linearGradient"@) == Some("LinearGradient"@),
        native_name_map("radialGradient"@) == Some("RadialGradient"@),
        native_name_map("line"@) == Some("Line"@),
        native_name_map("path"@) == Some("Path"@),
        native_name_map("pattern"@) == Some("Pattern"@),
        native_name_map("polygon"@) == Some("Polygon"@),
        native_name_map("polyline"@) == Some("Polyline"@),
        native_name_map("rect"@) == Some("Rect"@),
        native_name_map("symbol"@) == Some("Symbol"@),
        native_name_map("text"@) == Some("Text"@),
        native_name_map("textPath"@) == Some("TextPath"@),
        native_name_map("tspan"@) == Some("TSpan"@),
        native_name_map("use"@) == Some("Use"@),
        native_name_map("defs"@) == Some("Defs"@),
        native_name_map("stop"@) == Some("Stop"@),
        native_name_map("mask"@) == Some("Mask"@),
        native_name_map("image"@) == Some("Image"@),
        native_name_map("foreignObject"@) == Some("ForeignObject"@),
        native_name_map(n) is Some <==> (n == "svg"@ || n == "circle"@ || n == "clipPath"@ || n == "ellipse"@ || n == "g"@ || n == "linearGradient"@ || n == "radialGradient"@ || n == "line"@ || n == "path"@ || n == "pattern"@ || n == "polygon"@ || n == "polyline"@ || n == "rect"@ || n == "symbol"@ || n == "text"@ || n == "textPath"@ || n == "tspan"@ || n == "use"@ || n == "defs"@ || n == "stop"@ || n == "mask"@ || n == "image"@ || n == "foreignObject"@),
        native_name_map(n) matches Some(c) ==> eq_ignore_ascii_case(c, n) && 'A' <= c[0] <= 'Z',
{
    reveal_strlit("svg");
    reveal_strlit("Svg");
    reveal_strlit("circle");
    reveal_strlit("Circle");
    reveal_strlit("clipPath");
    reveal_strlit("ClipPath");
    reveal_strlit("ellipse");
    reveal_strlit("Ellipse");
    reveal_strlit("g");
    reveal_strlit("G");
    reveal_strlit("linearGradient");
    reveal_strlit("LinearGradient");
    reveal_strlit("radialGradient");
    reveal_strlit("RadialGradient");
    reveal_strlit("line");
    reveal_strlit("Line");
    reveal_strlit("path");
    reveal_strlit("Path");
    reveal_strlit("pattern");
    reveal_strlit("Pattern");
    reveal_strlit("polygon");
    reveal_strlit("Polygon");
    reveal_strlit("polyline");
    reveal_strlit("Polyline");
    reveal_strlit("rect");
    reveal_strlit("Rect");
    reveal_strlit("symbol");
    reveal_strlit("Symbol");
    reveal_strlit("text");
    reveal_strlit("Text");
    reveal_strlit("textPath");
    reveal_strlit("TextPath");
    reveal_strlit("tspan");
    reveal_strlit("TSpan");
    reveal_strlit("use");
    reveal_strlit("Use");
    reveal_strlit("defs");
    reveal_strlit("Defs");
    reveal_strlit("stop");
    reveal_strlit("Stop");
    reveal_strlit("mask");
    reveal_strlit("Mask");
    reveal_strlit("image");
    reveal_strlit("Image");
    reveal_strlit("foreignObject");
    reveal_strlit("ForeignObject");
    assert("radialGradient"@[0] != "linearGradient"@[0]);
    assert("path"@[0] != "line"@[0]);
    assert("pattern"@[0] != "ellipse"@[0]);
    assert("polygon"@[0] != "ellipse"@[0]);
    assert("polygon"@[1] != "pattern"@[1]);
    assert("polyline"@[0] != "clipPath"@[0]);
    assert("rect"@[0] != "line"@[0]);
    assert("rect"@[0] != "path"@[0]);
    assert("symbol"@[0] != "circle"@[0]);
    assert("text"@[0] != "line"@[0]);
    assert("text"@[0] != "path"@[0]);
    assert("text"@[0] != "rect"@[0]);
    assert("textPath"@[0] != "clipPath"@[0]);
    assert("textPath"@[0] != "polyline"@[0]);
    assert("use"@[0] != "svg"@[0]);
    assert("defs"@[0] != "line"@[0]);
    assert("defs"@[0] != "path"@[0]);
    assert("defs"@[0] != "rect"@[0]);
    assert("defs"@[0] != "text"@[0]);
    assert("stop"@[0] != "line"@[0]);
    assert("stop"@[0] != "path"@[0]);
    assert("stop"@[0] != "rect"@[0]);
    assert("stop"@[0] != "text"@[0]);
    assert("stop"@[0] != "defs"@[0]);
    assert("mask"@[0] != "line"@[0]);
    assert("mask"@[0] != "path"@[0]);
    assert("mask"@[0] != "rect"@[0]);
    assert("mask"@[0] != "text"@[0]);
    assert("mask"@[0] != "defs"@[0]);
    assert("mask"@[0] != "stop"@[0]);
    assert("image"@[0] != "tspan"@[0]);
    assert(lower_ascii_chars("Svg"@) =~= lower_ascii_chars("svg"@));
    assert(lower_ascii_chars("Circle"@) =~= lower_ascii_chars("circle"@));
    assert(lower_ascii_chars("ClipPath"@) =~= lower_ascii_chars("clipPath"@));
    assert(lower_ascii_chars("Ellipse"@) =~= lower_ascii_chars("ellipse"@));
    assert(lower_ascii_chars("G"@) =~= lower_ascii_chars("g"@));
    assert(lower_ascii_chars("LinearGradient"@) =~= lower_ascii_chars("linearGradient"@));
    assert(lower_ascii_chars("RadialGradient"@) =~= lower_ascii_chars("radialGradient"@));
    assert(lower_ascii_chars("Line"@) =~= lower_ascii_chars("line"@));
    assert(lower_ascii_chars("Path"@) =~= lower_ascii_chars("path"@));
    assert(lower_ascii_chars("Pattern"@) =~= lower_ascii_chars("pattern"@));
    assert(lower_ascii_chars("Polygon"@) =~= lower_ascii_chars("polygon"@));
    assert(lower_ascii_chars("Polyline"@) =~= lower_ascii_chars("polyline"@));
    assert(lower_ascii_chars("Rect"@) =~= lower_ascii_chars("rect"@));
    assert(lower_ascii_chars("Symbol"@) =~= lower_ascii_chars("symbol"@));
    assert(lower_ascii_chars("Text"@) =~= lower_ascii_chars("text"@));
    assert(lower_ascii_chars("TextPath"@) =~= lower_ascii_chars("textPath"@));
    assert(lower_ascii_chars("TSpan"@) =~= lower_ascii_chars("tspan"@));
    assert(lower_ascii_chars("Use"@) =~= lower_ascii_chars("use"@));
    assert(lower_ascii_chars("Defs"@) =~= lower_ascii_chars("defs"@));
    assert(lower_ascii_chars("Stop"@) =~= lower_ascii_chars("stop"@));
    assert(lower_ascii_chars("Mask"@) =~= lower_ascii_chars("mask"@));
    assert(lower_ascii_chars("Image"@) =~= lower_ascii_chars("image"@));
    assert(lower_ascii_chars("ForeignObject"@) =~= lower_ascii_chars("foreignObject"@));
}


/// The fixed renamings of attributes, whatever the case they are written in: `class` and
/// `className` become `className`, `for` becomes `htmlFor`, `tabindex` becomes `tabIndex`,
/// `viewbox` becomes `viewBox`, and so on for the `xml` and `xlink` names; on an `input`,
/// `checked` and `value` become `defaultChecked` and `defaultValue`.
pub proof fn law_attribute_renamings(n: Seq<char>, element: Seq<char>)
    ensures
        element == "input"@ && eq_ignore_ascii_case(n, "checked"@) ==> attribute_name_map(n, element) == "defaultChecked"@,
        element == "input"@ && eq_ignore_ascii_case(n, "value"@) ==> attribute_name_map(n, element) == "defaultValue"@,
        eq_ignore_ascii_case(n, "class"@) || eq_ignore_ascii_case(n, "classname"@) ==> attribute_name_map(n, element) == "className"@,
        eq_ignore_ascii_case(n, "for"@) ==> attribute_name_map(n, element) == "htmlFor"@,
        eq_ignore_ascii_case(n, "tabindex"@) ==> attribute_name_map(n, element) == "tabIndex"@,
        eq_ignore_ascii_case(n, "viewbox"@) ==> attribute_name_map(n, element) == "viewBox"@,
        eq_ignore_ascii_case(n, "preserveaspectratio"@) ==> attribute_name_map(n, element) == "preserveAspectRatio"@,
        eq_ignore_ascii_case(n, "xmlns:xlink"@) || eq_ignore_ascii_case(n, "xmlnsxlink"@) ==> attribute_name_map(n, element) == "xmlnsXlink"@,
        eq_ignore_ascii_case(n, "xml:space"@) || eq_ignore_ascii_case(n, "xmlspace"@) ==> attribute_name_map(n, element) == "xmlSpace"@,
        eq_ignore_ascii_case(n, "xml:lang"@) || eq_ignore_ascii_case(n, "xmllang"@) ==> attribute_name_map(n, element) == "xmlLang"@,
        eq_ignore_ascii_case(n, "xlink:href"@) || eq_ignore_ascii_case(n, "xlinkhref"@) ==> attribute_name_map(n, element) == "xlinkHref"@,
        eq_ignore_ascii_case(n, "xlink:title"@) || eq_ignore_ascii_case(n, "xlinktitle"@) ==> attribute_name_map(n, element) == "xlinkTitle"@,
        eq_ignore_ascii_case(n, "xlink:type"@) || eq_ignore_ascii_case(n, "xlinktype"@) ==> attribute_name_map(n, element) == "xlinkType"@,
{
    reveal_strlit("checked");
    assert(lower_ascii_chars("checked"@) =~= "checked"@);
    reveal_strlit("value");
    assert(lower_ascii_chars("value"@) =~= "value"@);
    reveal_strlit("class");
    assert(lower_ascii_chars("class"@) =~= "class"@);
    reveal_strlit("classname");
    assert(lower_ascii_chars("classname"@) =~= "classname"@);
    reveal_strlit("for");
    assert(lower_ascii_chars("for"@) =~= "for"@);
    reveal_strlit("tabindex");
    assert(lower_ascii_chars("tabindex"@) =~= "tabindex"@);
    reveal_strlit("viewbox");
    assert(lower_ascii_chars("viewbox"@) =~= "viewbox"@);
    reveal_strlit("preserveaspectratio");
    assert(lower_ascii_chars("preserveaspectratio"@) =~= "preserveaspectratio"@);
    reveal_strlit("xmlns:xlink");
    assert(lower_ascii_chars("xmlns:xlink"@) =~= "xmlns:xlink"@);
    reveal_strlit("xmlnsxlink");
    assert(lower_ascii_chars("xmlnsxlink"@) =~= "xmlnsxlink"@);
    reveal_strlit("xml:space");
    assert(lower_ascii_chars("xml:space"@) =~= "xml:space"@);
    reveal_strlit("xmlspace");
    assert(lower_ascii_chars("xmlspace"@) =~= "xmlspace"@);
    reveal_strlit("xml:lang");
    assert(lower_ascii_chars("xml:lang"@) =~= "xml:lang"@);
    reveal_strlit("xmllang");
    assert(lower_ascii_chars("xmllang"@) =~= "xmllang"@);
    reveal_strlit("xlink:href");
    assert(lower_ascii_chars("xlink:href"@) =~= "xlink:href"@);
    reveal_strlit("xlinkhref");
    assert(lower_ascii_chars("xlinkhref"@) =~= "xlinkhref"@);
    reveal_strlit("xlink:title");
    assert(lower_ascii_chars("xlink:title"@) =~= "xlink:title"@);
    reveal_strlit("xlinktitle");
    assert(lower_ascii_chars("xlinktitle"@) =~= "xlinktitle"@);
    reveal_strlit("xlink:type");
    assert(lower_ascii_chars("xlink:type"@) =~= "xlink:type"@);
    reveal_strlit("xlinktype");
    assert(lower_ascii_chars("xlinktype"@) =~= "xlinktype"@);
    assert("value"@.len() != "checked"@.len());
    assert("class"@.len() != "checked"@.len());
    assert("class"@[0] != "value"@[0]);
    assert("classname"@.len() != "checked"@.len());
    assert("classname"@.len() != "value"@.len());
    assert("classname"@.len() != "class"@.len());
    assert("for"@.len() != "checked"@.len());
    assert("for"@.len() != "value"@.len());
    assert("for"@.len() != "class"@.len());
    assert("for"@.len() != "classname"@.len());
    assert("tabindex"@.len() != "checked"@.len());
    assert("tabindex"@.len() != "value"@.len());
    assert("tabindex"@.len() != "class"@.len());
    assert("tabindex"@.len() != "classname"@.len());
    assert("tabindex"@.len() != "for"@.len());
    assert("viewbox"@[0] != "checked"@[0]);
    assert("viewbox"@.len() != "value"@.len());
    assert("viewbox"@.len() != "class"@.len());
    assert("viewbox"@.len() != "classname"@.len());
    assert("viewbox"@.len() != "for"@.len());
    assert("viewbox"@.len() != "tabindex"@.len());
    assert("preserveaspectratio"@.len() != "checked"@.len());
    assert("preserveaspectratio"@.len() != "value"@.len());
    assert("preserveaspectratio"@.len() != "class"@.len());
    assert("preserveaspectratio"@.len() != "classname"@.len());
    assert("preserveaspectratio"@.len() != "for"@.len());
    assert("preserveaspectratio"@.len() != "tabindex"@.len());
    assert("preserveaspectratio"@.len() != "viewbox"@.len());
    assert("xmlns:xlink"@.len() != "checked"@.len());
    assert("xmlns:xlink"@.len() != "value"@.len());
    assert("xmlns:xlink"@.len() != "class"@.len());
    assert("xmlns:xlink"@.len() != "classname"@.len());
    assert("xmlns:xlink"@.len() != "for"@.len());
    assert("xmlns:xlink"@.len() != "tabindex"@.len());
    assert("xmlns:xlink"@.len() != "viewbox"@.len());
    assert("xmlns:xlink"@.len() != "preserveaspectratio"@.len());
    assert("xmlnsxlink"@.len() != "checked"@.len());
    assert("xmlnsxlink"@.len() != "value"@.len());
    assert("xmlnsxlink"@.len() != "class"@.len());
    assert("xmlnsxlink"@.len() != "classname"@.len());
    assert("xmlnsxlink"@.len() != "for"@.len());
    assert("xmlnsxlink"@.len() != "tabindex"@.len());
    assert("xmlnsxlink"@.len() != "viewbox"@.len());
    assert("xmlnsxlink"@.len() != "preserveaspectratio"@.len());
    assert("xmlnsxlink"@.len() != "xmlns:xlink"@.len());
    assert("xml:space"@.len() != "checked"@.len());
    assert("xml:space"@.len() != "value"@.len());
    assert("xml:space"@.len() != "class"@.len());
    assert("xml:space"@[0] != "classname"@[0]);
    assert("xml:space"@.len() != "for"@.len());
    assert("xml:space"@.len() != "tabindex"@.len());
    assert("xml:space"@.len() != "viewbox"@.len());
    assert("xml:space"@.len() != "preserveaspectratio"@.len());
    assert("xml:space"@.len() != "xmlns:xlink"@.len());
    assert("xml:space"@.len() != "xmlnsxlink"@.len());
    assert("xmlspace"@.len() != "checked"@.len());
    assert("xmlspace"@.len() != "value"@.len());
    assert("xmlspace"@.len() != "class"@.len());
    assert("xmlspace"@.len() != "classname"@.len());
    assert("xmlspace"@.len() != "for"@.len());
    assert("xmlspace"@[0] != "tabindex"@[0]);
    assert("xmlspace"@.len() != "viewbox"@.len());
    assert("xmlspace"@.len() != "preserveaspectratio"@.len());
    assert("xmlspace"@.len() != "xmlns:xlink"@.len());
    assert("xmlspace"@.len() != "xmlnsxlink"@.len());
    assert("xmlspace"@.len() != "xml:space"@.len());
    assert("xml:lang"@.len() != "checked"@.len());
    assert("xml:lang"@.len() != "value"@.len());
    assert("xml:lang"@.len() != "class"@.len());
    assert("xml:lang"@.len() != "classname"@.len());
    assert("xml:lang"@.len() != "for"@.len());
    assert("xml:lang"@[0] != "tabindex"@[0]);
    assert("xml:lang"@.len() != "viewbox"@.len());
    assert("xml:lang"@.len() != "preserveaspectratio"@.len());
    assert("xml:lang"@.len() != "xmlns:xlink"@.len());
    assert("xml:lang"@.len() != "xmlnsxlink"@.len());
    assert("xml:lang"@.len() != "xml:space"@.len());
    assert("xml:lang"@[3] != "xmlspace"@[3]);
    assert("xmllang"@[0] != "checked"@[0]);
    assert("xmllang"@.len() != "value"@.len());
    assert("xmllang"@.len() != "class"@.len());
    assert("xmllang"@.len() != "classname"@.len());
    assert("xmllang"@.len() != "for"@.len());
    assert("xmllang"@.len() != "tabindex"@.len());
    assert("xmllang"@[0] != "viewbox"@[0]);
    assert("xmllang"@.len() != "preserveaspectratio"@.len());
    assert("xmllang"@.len() != "xmlns:xlink"@.len());
    assert("xmllang"@.len() != "xmlnsxlink"@.len());
    assert("xmllang"@.len() != "xml:space"@.len());
    assert("xmllang"@.len() != "xmlspace"@.len());
    assert("xmllang"@.len() != "xml:lang"@.len());
    assert("xlink:href"@.len() != "checked"@.len());
    assert("xlink:href"@.len() != "value"@.len());
    assert("xlink:href"@.len() != "class"@.len());
    assert("xlink:href"@.len() != "classname"@.len());
    assert("xlink:href"@.len() != "for"@.len());
    assert("xlink:href"@.len() != "tabindex"@.len());
    assert("xlink:href"@.len() != "viewbox"@.len());
    assert("xlink:href"@.len() != "preserveaspectratio"@.len());
    assert("xlink:href"@.len() != "xmlns:xlink"@.len());
    assert("xlink:href"@[1] != "xmlnsxlink"@[1]);
    assert("xlink:href"@.len() != "xml:space"@.len());
    assert("xlink:href"@.len() != "xmlspace"@.len());
    assert("xlink:href"@.len() != "xml:lang"@.len());
    assert("xlink:href"@.len() != "xmllang"@.len());
    assert("xlinkhref"@.len() != "checked"@.len());
    assert("xlinkhref"@.len() != "value"@.len());
    assert("xlinkhref"@.len() != "class"@.len());
    assert("xlinkhref"@[0] != "classname"@[0]);
    assert("xlinkhref"@.len() != "for"@.len());
    assert("xlinkhref"@.len() != "tabindex"@.len());
    assert("xlinkhref"@.len() != "viewbox"@.len());
    assert("xlinkhref"@.len() != "preserveaspectratio"@.len());
    assert("xlinkhref"@.len() != "xmlns:xlink"@.len());
    assert("xlinkhref"@.len() != "xmlnsxlink"@.len());
    assert("xlinkhref"@[1] != "xml:space"@[1]);
    assert("xlinkhref"@.len() != "xmlspace"@.len());
    assert("xlinkhref"@.len() != "xml:lang"@.len());
    assert("xlinkhref"@.len() != "xmllang"@.len());
    assert("xlinkhref"@.len() != "xlink:href"@.len());
    assert("xlink:title"@.len() != "checked"@.len());
    assert("xlink:title"@.len() != "value"@.len());
    assert("xlink:title"@.len() != "class"@.len());
    assert("xlink:title"@.len() != "classname"@.len());
    assert("xlink:title"@.len() != "for"@.len());
    assert("xlink:title"@.len() != "tabindex"@.len());
    assert("xlink:title"@.len() != "viewbox"@.len());
    assert("xlink:title"@.len() != "preserveaspectratio"@.len());
    assert("xlink:title"@[1] != "xmlns:xlink"@[1]);
    assert("xlink:title"@.len() != "xmlnsxlink"@.len());
    assert("xlink:title"@.len() != "xml:space"@.len());
    assert("xlink:title"@.len() != "xmlspace"@.len());
    assert("xlink:title"@.len() != "xml:lang"@.len());
    assert("xlink:title"@.len() != "xmllang"@.len());
    assert("xlink:title"@.len() != "xlink:href"@.len());
    assert("xlink:title"@.len() != "xlinkhref"@.len());
    assert("xlinktitle"@.len() != "checked"@.len());
    assert("xlinktitle"@.len() != "value"@.len());
    assert("xlinktitle"@.len() != "class"@.len());
    assert("xlinktitle"@.len() != "classname"@.len());
    assert("xlinktitle"@.len() != "for"@.len());
    assert("xlinktitle"@.len() != "tabindex"@.len());
    assert("xlinktitle"@.len() != "viewbox"@.len());
    assert("xlinktitle"@.len() != "preserveaspectratio"@.len());
    assert("xlinktitle"@.len() != "xmlns:xlink"@.len());
    assert("xlinktitle"@[1] != "xmlnsxlink"@[1]);
    assert("xlinktitle"@.len() != "xml:space"@.len());
    assert("xlinktitle"@.len() != "xmlspace"@.len());
    assert("xlinktitle"@.len() != "xml:lang"@.len());
    assert("xlinktitle"@.len() != "xmllang"@.len());
    assert("xlinktitle"@[5] != "xlink:href"@[5]);
    assert("xlinktitle"@.len() != "xlinkhref"@.len());
    assert("xlinktitle"@.len() != "xlink:title"@.len());
    assert("xlink:type"@.len() != "checked"@.len());
    assert("xlink:type"@.len() != "value"@.len());
    assert("xlink:type"@.len() != "class"@.len());
    assert("xlink:type"@.len() != "classname"@.len());
    assert("xlink:type"@.len() != "for"@.len());
    assert("xlink:type"@.len() != "tabindex"@.len());
    assert("xlink:type"@.len() != "viewbox"@.len());
    assert("xlink:type"@.len() != "preserveaspectratio"@.len());
    assert("xlink:type"@.len() != "xmlns:xlink"@.len());
    assert("xlink:type"@[1] != "xmlnsxlink"@[1]);
    assert("xlink:type"@.len() != "xml:space"@.len());
    assert("xlink:type"@.len() != "xmlspace"@.len());
    assert("xlink:type"@.len() != "xml:lang"@.len());
    assert("xlink:type"@.len() != "xmllang"@.len());
    assert("xlink:type"@[6] != "xlink:href"@[6]);
    assert("xlink:type"@.len() != "xlinkhref"@.len());
    assert("xlink:type"@.len() != "xlink:title"@.len());
    assert("xlink:type"@[5] != "xlinktitle"@[5]);
    assert("xlinktype"@.len() != "checked"@.len());
    assert("xlinktype"@.len() != "value"@.len());
    assert("xlinktype"@.len() != "class"@.len());
    assert("xlinktype"@[0] != "classname"@[0]);
    assert("xlinktype"@.len() != "for"@.len());
    assert("xlinktype"@.len() != "tabindex"@.len());
    assert("xlinktype"@.len() != "viewbox"@.len());
    assert("xlinktype"@.len() != "preserveaspectratio"@.len());
    assert("xlinktype"@.len() != "xmlns:xlink"@.len());
    assert("xlinktype"@.len() != "xmlnsxlink"@.len());
    assert("xlinktype"@[1] != "xml:space"@[1]);
    assert("xlinktype"@.len() != "xmlspace"@.len());
    assert("xlinktype"@.len() != "xml:lang"@.len());
    assert("xlinktype"@.len() != "xmllang"@.len());
    assert("xlinktype"@.len() != "xlink:href"@.len());
    assert("xlinktype"@[5] != "xlinkhref"@[5]);
    assert("xlinktype"@.len() != "xlink:title"@.len());
    assert("xlinktype"@.len() != "xlinktitle"@.len());
    assert("xlinktype"@.len() != "xlink:type"@.len());
}


/// SVG element names written in lower case get their SVG spelling (`clippath` becomes
/// `clipPath`, `feblend` becomes `feBlend`, ...); every other name is kept as written, and
/// no name is changed other than in the case of its letters.
pub proof fn law_element_renamings(n: Seq<char>)
    ensures
        element_name_map("clippath"@) == "clipPath"@,
        element_name_map("lineargradient"@) == "linearGradient"@,
        element_name_map("radialgradient"@) == "radialGradient"@,
        element_name_map("textpath"@) == "textPath"@,
        element_name_map("foreignobject"@) == "foreignObject"@,
        element_name_map("feblend"@) == "feBlend"@,
        element_name_map("fecolormatrix"@) == "feColorMatrix"@,
        element_name_map("fecomponenttransfer"@) == "feComponentTransfer"@,
        element_name_map("fecomposite"@) == "feComposite"@,
        element_name_map("feconvolvematrix"@) == "feConvolveMatrix"@,
        element_name_map("fediffuselighting"@) == "feDiffuseLighting"@,
        element_name_map("fedisplacementmap"@) == "feDisplacementMap"@,
        element_name_map("fedistantlight"@) == "feDistantLight"@,
        element_name_map("fedropshadow"@) == "feDropShadow"@,
        element_name_map("feflood"@) == "feFlood"@,
        element_name_map("fefunca"@) == "feFuncA"@,
        element_name_map("fefuncb"@) == "feFuncB"@,
        element_name_map("fefuncg"@) == "feFuncG"@,
        element_name_map("fefuncr"@) == "feFuncR"@,
        element_name_map("fegaussianblur"@) == "feGaussianBlur"@,
        element_name_map("feimage"@) == "feImage"@,
        element_name_map("femerge"@) == "feMerge"@,
        element_name_map("femergenode"@) == "feMergeNode"@,
        element_name_map("femorphology"@) == "feMorphology"@,
        element_name_map("feoffset"@) == "feOffset"@,
        element_name_map("fepointlight"@) == "fePointLight"@,
        element_name_map("fespecularlighting"@) == "feSpecularLighting"@,
        element_name_map("fespotlight"@) == "feSpotLight"@,
        element_name_map("fetile"@) == "feTile"@,
        element_name_map("feturbulence"@) == "feTurbulence"@,
        !(n == "clippath"@ || n == "lineargradient"@ || n == "radialgradient"@ || n == "textpath"@ || n == "foreignobject"@ || n == "feblend"@ || n == "fecolormatrix"@ || n == "fecomponenttransfer"@ || n == "fecomposite"@ || n == "feconvolvematrix"@ || n == "fediffuselighting"@ || n == "fedisplacementmap"@ || n == "fedistantlight"@ || n == "fedropshadow"@ || n == "feflood"@ || n == "fefunca"@ || n == "fefuncb"@ || n == "fefuncg"@ || n == "fefuncr"@ || n == "fegaussianblur"@ || n == "feimage"@ || n == "femerge"@ || n == "femergenode"@ || n == "femorphology"@ || n == "feoffset"@ || n == "fepointlight"@ || n == "fespecularlighting"@ || n == "fespotlight"@ || n == "fetile"@ || n == "feturbulence"@) ==> element_name_map(n) == n,
        eq_ignore_ascii_case(element_name_map(n), n),
{
    reveal_strlit("clippath");
    reveal_strlit("clipPath");
    reveal_strlit("lineargradient");
    reveal_strlit("linearGradient");
    reveal_strlit("radialgradient");
    reveal_strlit("radialGradient");
    reveal_strlit("textpath");
    reveal_strlit("textPath");
    reveal_strlit("foreignobject");
    reveal_strlit("foreignObject");
    reveal_strlit("feblend");
    reveal_strlit("feBlend");
    reveal_strlit("fecolormatrix");
    reveal_strlit("feColorMatrix");
    reveal_strlit("fecomponenttransfer");
    reveal_strlit("feComponentTransfer");
    reveal_strlit("fecomposite");
    reveal_strlit("feComposite");
    reveal_strlit("feconvolvematrix");
    reveal_strlit("feConvolveMatrix");
    reveal_strlit("fediffuselighting");
    reveal_strlit("feDiffuseLighting");
    reveal_strlit("fedisplacementmap");
    reveal_strlit("feDisplacementMap");
    reveal_strlit("fedistantlight");
    reveal_strlit("feDistantLight");
    reveal_strlit("fedropshadow");
    reveal_strlit("feDropShadow");
    reveal_strlit("feflood");
    reveal_strlit("feFlood");
    reveal_strlit("fefunca");
    reveal_strlit("feFuncA");
    reveal_strlit("fefuncb");
    reveal_strlit("feFuncB");
    reveal_strlit("fefuncg");
    reveal_strlit("feFuncG");
    reveal_strlit("fefuncr");
    reveal_strlit("feFuncR");
    reveal_strlit("fegaussianblur");
    reveal_strlit("feGaussianBlur");
    reveal_strlit("feimage");
    reveal_strlit("feImage");
    reveal_strlit("femerge");
    reveal_strlit("feMerge");
    reveal_strlit("femergenode");
    reveal_strlit("feMergeNode");
    reveal_strlit("femorphology");
    reveal_strlit("feMorphology");
    reveal_strlit("feoffset");
    reveal_strlit("feOffset");
    reveal_strlit("fepointlight");
    reveal_strlit("fePointLight");
    reveal_strlit("fespecularlighting");
    reveal_strlit("feSpecularLighting");
    reveal_strlit("fespotlight");
    reveal_strlit("feSpotLight");
    reveal_strlit("fetile");
    reveal_strlit("feTile");
    reveal_strlit("feturbulence");
    reveal_strlit("feTurbulence");
    assert("radialgradient"@[0] != "lineargradient"@[0]);
    assert("textpath"@[0] != "clippath"@[0]);
    assert("fecolormatrix"@[1] != "foreignobject"@[1]);
    assert("fedisplacementmap"@[4] != "fediffuselighting"@[4]);
    assert("fedistantlight"@[0] != "lineargradient"@[0]);
    assert("fedistantlight"@[0] != "radialgradient"@[0]);
    assert("feflood"@[2] != "feblend"@[2]);
    assert("fefunca"@[2] != "feblend"@[2]);
    assert("fefunca"@[3] != "feflood"@[3]);
    assert("fefuncb"@[2] != "feblend"@[2]);
    assert("fefuncb"@[3] != "feflood"@[3]);
    assert("fefuncb"@[6] != "fefunca"@[6]);
    assert("fefuncg"@[2] != "feblend"@[2]);
    assert("fefuncg"@[3] != "feflood"@[3]);
    assert("fefuncg"@[6] != "fefunca"@[6]);
    assert("fefuncg"@[6] != "fefuncb"@[6]);
    assert("fefuncr"@[2] != "feblend"@[2]);
    assert("fefuncr"@[3] != "feflood"@[3]);
    assert("fefuncr"@[6] != "fefunca"@[6]);
    assert("fefuncr"@[6] != "fefuncb"@[6]);
    assert("fefuncr"@[6] != "fefuncg"@[6]);
    assert("fegaussianblur"@[0] != "lineargradient"@[0]);
    assert("fegaussianblur"@[0] != "radialgradient"@[0]);
    assert("fegaussianblur"@[2] != "fedistantlight"@[2]);
    assert("feimage"@[2] != "feblend"@[2]);
    assert("feimage"@[2] != "feflood"@[2]);
    assert("feimage"@[2] != "fefunca"@[2]);
    assert("feimage"@[2] != "fefuncb"@[2]);
    assert("feimage"@[2] != "fefuncg"@[2]);
    assert("feimage"@[2] != "fefuncr"@[2]);
    assert("femerge"@[2] != "feblend"@[2]);
    assert("femerge"@[2] != "feflood"@[2]);
    assert("femerge"@[2] != "fefunca"@[2]);
    assert("femerge"@[2] != "fefuncb"@[2]);
    assert("femerge"@[2] != "fefuncg"@[2]);
    assert("femerge"@[2] != "fefuncr"@[2]);
    assert("femerge"@[2] != "feimage"@[2]);
    assert("femergenode"@[2] != "fecomposite"@[2]);
    assert("femorphology"@[2] != "fedropshadow"@[2]);
    assert("feoffset"@[0] != "clippath"@[0]);
    assert("feoffset"@[0] != "textpath"@[0]);
    assert("fepointlight"@[2] != "fedropshadow"@[2]);
    assert("fepointlight"@[2] != "femorphology"@[2]);
    assert("fespotlight"@[2] != "fecomposite"@[2]);
    assert("fespotlight"@[2] != "femergenode"@[2]);
    assert("feturbulence"@[2] != "fedropshadow"@[2]);
    assert("feturbulence"@[2] != "femorphology"@[2]);
    assert("feturbulence"@[2] != "fepointlight"@[2]);
    assert(lower_ascii_chars("clipPath"@) =~= lower_ascii_chars("clippath"@));
    assert(lower_ascii_chars("linearGradient"@) =~= lower_ascii_chars("lineargradient"@));
    assert(lower_ascii_chars("radialGradient"@) =~= lower_ascii_chars("radialgradient"@));
    assert(lower_ascii_chars("textPath"@) =~= lower_ascii_chars("textpath"@));
    assert(lower_ascii_chars("foreignObject"@) =~= lower_ascii_chars("foreignobject"@));
    assert(lower_ascii_chars("feBlend"@) =~= lower_ascii_chars("feblend"@));
    assert(lower_ascii_chars("feColorMatrix"@) =~= lower_ascii_chars("fecolormatrix"@));
    assert(lower_ascii_chars("feComponentTransfer"@) =~= lower_ascii_chars("fecomponenttransfer"@));
    assert(lower_ascii_chars("feComposite"@) =~= lower_ascii_chars("fecomposite"@));
    assert(lower_ascii_chars("feConvolveMatrix"@) =~= lower_ascii_chars("feconvolvematrix"@));
    assert(lower_ascii_chars("feDiffuseLighting"@) =~= lower_ascii_chars("fediffuselighting"@));
    assert(lower_ascii_chars("feDisplacementMap"@) =~= lower_ascii_chars("fedisplacementmap"@));
    assert(lower_ascii_chars("feDistantLight"@) =~= lower_ascii_chars("fedistantlight"@));
    assert(lower_ascii_chars("feDropShadow"@) =~= lower_ascii_chars("fedropshadow"@));
    assert(lower_ascii_chars("feFlood"@) =~= lower_ascii_chars("feflood"@));
    assert(lower_ascii_chars("feFuncA"@) =~= lower_ascii_chars("fefunca"@));
    assert(lower_ascii_chars("feFuncB"@) =~= lower_ascii_chars("fefuncb"@));
    assert(lower_ascii_chars("feFuncG"@) =~= lower_ascii_chars("fefuncg"@));
    assert(lower_ascii_chars("feFuncR"@) =~= lower_ascii_chars("fefuncr"@));
    assert(lower_ascii_chars("feGaussianBlur"@) =~= lower_ascii_chars("fegaussianblur"@));
    assert(lower_ascii_chars("feImage"@) =~= lower_ascii_chars("feimage"@));
    assert(lower_ascii_chars("feMerge"@) =~= lower_ascii_chars("femerge"@));
    assert(lower_ascii_chars("feMergeNode"@) =~= lower_ascii_chars("femergenode"@));
    assert(lower_ascii_chars("feMorphology"@) =~= lower_ascii_chars("femorphology"@));
    assert(lower_ascii_chars("feOffset"@) =~= lower_ascii_chars("feoffset"@));
    assert(lower_ascii_chars("fePointLight"@) =~= lower_ascii_chars("fepointlight"@));
    assert(lower_ascii_chars("feSpecularLighting"@) =~= lower_ascii_chars("fespecularlighting"@));
    assert(lower_ascii_chars("feSpotLight"@) =~= lower_ascii_chars("fespotlight"@));
    assert(lower_ascii_chars("feTile"@) =~= lower_ascii_chars("fetile"@));
    assert(lower_ascii_chars("feTurbulence"@) =~= lower_ascii_chars("feturbulence"@));
}

/// The named character references: `&amp;`, `&lt;`, `&gt;`, `&quot;` and `&apos;` stand for
/// `&`, `<`, `>`, `"` and `'`; another name that is not a numeric reference is kept as it was
/// written, with its `&` and `;`.
pub proof fn law_named_references(e: Seq<char>)
    ensures
        entity_text("amp"@) == seq!['&'],
        entity_text("lt"@) == seq!['<'],
        entity_text("gt"@) == seq!['>'],
        entity_text("quot"@) == seq!['"'],
        entity_text("apos"@) == seq!['\''],
        e != "amp"@ && e != "lt"@ && e != "gt"@ && e != "quot"@ && e != "apos"@ && !(e.len() > 0
            && e[0] == '#') ==> entity_text(e) == seq!['&'] + e + seq![';'],
{
    reveal_strlit("amp");
    reveal_strlit("lt");
    reveal_strlit("gt");
    reveal_strlit("quot");
    reveal_strlit("apos");
    assert("gt"@[0] != "lt"@[0]);
    assert("apos"@[0] != "quot"@[0]);
}


/// What the JSON spellings of the options come to: `expandProps` `"start"` puts the spread
/// first, `"end"`, `true` or no value last, `false` nowhere; `exportType` `"named"` gives a
/// named export and `"default"` a default one; `jsxRuntime` `"automatic"` gives the automatic
/// runtime, `"classic"` the classic one and `"classic-preact"` the classic one importing from
/// `preact/compat`, where no runtime import is given.
pub proof fn law_json_option_spellings(j: JsonTransformOptions, o: TransformOptions)
    requires
        json_options_result(j, o),
    ensures
        j.expand_props matches Some(JsonExpandProps::String(s)) && s@ == "start"@ ==> o.expand_props
            == ExpandProps::Start,
        j.expand_props matches Some(JsonExpandProps::String(s)) && s@ == "end"@ ==> o.expand_props
            == ExpandProps::End,
        j.expand_props matches Some(JsonExpandProps::Bool(b)) ==> o.expand_props == if b {
            ExpandProps::End
        } else {
            ExpandProps::Disabled
        },
        j.expand_props is None ==> o.expand_props == ExpandProps::End,
        j.export_type matches Some(v) && v@ == "named"@ ==> o.export_type == ExportType::Named,
        j.export_type matches Some(v) && v@ == "default"@ ==> o.export_type == ExportType::Default,
        j.export_type is None ==> o.export_type == ExportType::Default,
        j.jsx_runtime_import is None && (j.jsx_runtime matches Some(v) && v@ == "automatic"@)
            ==> o.jsx_runtime == JsxRuntime::Automatic,
        j.jsx_runtime_import is None && (j.jsx_runtime matches Some(v) && v@ == "classic"@)
            ==> o.jsx_runtime == JsxRuntime::Classic && o.jsx_runtime_import is None,
        j.jsx_runtime_import is None && (j.jsx_runtime matches Some(v) && v@ == "classic-preact"@)
            ==> o.jsx_runtime == JsxRuntime::Classic && o.import_source@ == "preact/compat"@,
{
    reveal_strlit("start");
    reveal_strlit("end");
    reveal_strlit("named");
    reveal_strlit("default");
    reveal_strlit("automatic");
    reveal_strlit("classic");
    reveal_strlit("classic-preact");
    assert("end"@.len() != "start"@.len());
    assert("default"@.len() != "named"@.len());
    assert("classic"@.len() != "automatic"@.len() && "classic"@.len() != "classic-preact"@.len());
    assert("automatic"@.len() != "classic-preact"@.len());
}


/// `data-*` attributes are written in lower case, whatever the case they were given in.
pub proof fn law_data_attributes_lowercase(n: Seq<char>, element: Seq<char>)
    ensures
        starts_with_ignore_case(n, "data-"@) ==> attribute_name_map(n, element) == lower_ascii_chars(n),
{
    reveal_strlit("data-");
    reveal_strlit("aria-");
    assert(lower_ascii_chars("data-"@) =~= "data-"@);
    assert(lower_ascii_chars("aria-"@) =~= "aria-"@);
    if n.len() >= 5 {
        assert(lower_ascii_chars(n.take(5)) =~= lower_ascii_chars(n).take(5));
    }
    reveal_strlit("checked");
    assert(lower_ascii_chars("checked"@) =~= "checked"@);
    assert("checked"@[0] != 'd');
    reveal_strlit("value");
    assert(lower_ascii_chars("value"@) =~= "value"@);
    assert("value"@[0] != 'd');
    reveal_strlit("class");
    assert(lower_ascii_chars("class"@) =~= "class"@);
    assert("class"@[0] != 'd');
    reveal_strlit("classname");
    assert(lower_ascii_chars("classname"@) =~= "classname"@);
    assert("classname"@[0] != 'd');
    reveal_strlit("for");
    assert(lower_ascii_chars("for"@) =~= "for"@);
    assert("for"@[0] != 'd');
    reveal_strlit("tabindex");
    assert(lower_ascii_chars("tabindex"@) =~= "tabindex"@);
    assert("tabindex"@[0] != 'd');
    reveal_strlit("viewbox");
    assert(lower_ascii_chars("viewbox"@) =~= "viewbox"@);
    assert("viewbox"@[0] != 'd');
    reveal_strlit("preserveaspectratio");
    assert(lower_ascii_chars("preserveaspectratio"@) =~= "preserveaspectratio"@);
    assert("preserveaspectratio"@[0] != 'd');
    reveal_strlit("xmlns:xlink");
    assert(lower_ascii_chars("xmlns:xlink"@) =~= "xmlns:xlink"@);
    assert("xmlns:xlink"@[0] != 'd');
    reveal_strlit("xmlnsxlink");
    assert(lower_ascii_chars("xmlnsxlink"@) =~= "xmlnsxlink"@);
    assert("xmlnsxlink"@[0] != 'd');
    reveal_strlit("xml:space");
    assert(lower_ascii_chars("xml:space"@) =~= "xml:space"@);
    assert("xml:space"@[0] != 'd');
    reveal_strlit("xmlspace");
    assert(lower_ascii_chars("xmlspace"@) =~= "xmlspace"@);
    assert("xmlspace"@[0] != 'd');
    reveal_strlit("xml:lang");
    assert(lower_ascii_chars("xml:lang"@) =~= "xml:lang"@);
    assert("xml:lang"@[0] != 'd');
    reveal_strlit("xmllang");
    assert(lower_ascii_chars("xmllang"@) =~= "xmllang"@);
    assert("xmllang"@[0] != 'd');
    reveal_strlit("xlink:href");
    assert(lower_ascii_chars("xlink:href"@) =~= "xlink:href"@);
    assert("xlink:href"@[0] != 'd');
    reveal_strlit("xlinkhref");
    assert(lower_ascii_chars("xlinkhref"@) =~= "xlinkhref"@);
    assert("xlinkhref"@[0] != 'd');
    reveal_strlit("xlink:title");
    assert(lower_ascii_chars("xlink:title"@) =~= "xlink:title"@);
    assert("xlink:title"@[0] != 'd');
    reveal_strlit("xlinktitle");
    assert(lower_ascii_chars("xlinktitle"@) =~= "xlinktitle"@);
    assert("xlinktitle"@[0] != 'd');
    reveal_strlit("xlink:type");
    assert(lower_ascii_chars("xlink:type"@) =~= "xlink:type"@);
    assert("xlink:type"@[0] != 'd');
    reveal_strlit("xlinktype");
    assert(lower_ascii_chars("xlinktype"@) =~= "xlinktype"@);
    assert("xlinktype"@[0] != 'd');
    assert("aria-"@[0] != "data-"@[0]);
}

} // verus!
