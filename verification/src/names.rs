use vstd::prelude::*;
use vstd::string::{StrSliceExecFns, StringExecFns};

use crate::error::push_char;
use crate::text::str_eq;

verus! {

broadcast use vstd::string::axiom_spec_iter;

/// The characters of `s`, one per element.
pub fn char_vec(s: &str) -> (r: Vec<char>)
    ensures
        r@ == s@,
{
    let mut r: Vec<char> = Vec::new();
    for c in it: s.chars()
        invariant
            r@ == it.seq().take(it.index()),
            it.seq() == s@,
    {
        r.push(c);
    }
    r
}

/// A string holding the characters `v[from..to]`.
pub fn string_of(v: &Vec<char>, from: usize, to: usize) -> (r: String)
    requires
        from <= to <= v@.len(),
    ensures
        r@ == v@.subrange(from as int, to as int),
{
    let mut r = String::new();
    let mut i = from;
    while i < to
        invariant
            from <= i <= to <= v@.len(),
            r@ == v@.subrange(from as int, i as int),
        decreases to - i,
    {
        push_char(&mut r, v[i]);
        i = i + 1;
    }
    r
}

/// Whether `v[from..to]` holds the characters of `lit`.
pub fn chars_equal(v: &Vec<char>, from: usize, to: usize, lit: &str) -> (r: bool)
    requires
        from <= to <= v@.len(),
    ensures
        r == (v@.subrange(from as int, to as int) == lit@),
{
    let w = char_vec(lit);
    if to - from != w.len() {
        return false;
    }
    let mut i: usize = 0;
    while i < w.len()
        invariant
            from <= to <= v@.len(),
            to - from == w@.len(),
            i <= w@.len(),
            w@ == lit@,
            forall|k: int| 0 <= k < i ==> v@[from + k] == w@[k],
        decreases w@.len() - i,
    {
        if v[from + i] != w[i] {
            return false;
        }
        i = i + 1;
    }
    assert(v@.subrange(from as int, to as int) =~= w@);
    true
}

/// The ASCII lowercase form of a character; other characters are unchanged.
pub open spec fn ascii_lower(c: char) -> char {
    if 'A' <= c <= 'Z' {
        ((c as u32) + 32) as char
    } else {
        c
    }
}

pub open spec fn lower_ascii_chars(s: Seq<char>) -> Seq<char> {
    s.map_values(|c: char| ascii_lower(c))
}

/// Equality after ASCII case folding.
pub open spec fn eq_ignore_ascii_case(a: Seq<char>, b: Seq<char>) -> bool {
    lower_ascii_chars(a) == lower_ascii_chars(b)
}

/// `s` begins with `prefix`, ignoring ASCII case.
pub open spec fn starts_with_ignore_case(s: Seq<char>, prefix: Seq<char>) -> bool {
    s.len() >= prefix.len() && eq_ignore_ascii_case(s.take(prefix.len() as int), prefix)
}

fn lower_char(c: char) -> (r: char)
    ensures
        r == ascii_lower(c),
{
    if 'A' <= c && c <= 'Z' {
        let b = c as u8;
        (b + 32) as char
    } else {
        c
    }
}

/// `v` with ASCII letters made lowercase.
fn lower_vec(v: &Vec<char>, from: usize, to: usize) -> (r: String)
    requires
        from <= to <= v@.len(),
    ensures
        r@ == lower_ascii_chars(v@.subrange(from as int, to as int)),
{
    let mut r = String::new();
    let mut i = from;
    while i < to
        invariant
            from <= i <= to <= v@.len(),
            r@ == lower_ascii_chars(v@.subrange(from as int, i as int)),
        decreases to - i,
    {
        push_char(&mut r, lower_char(v[i]));
        proof {
            assert(v@.subrange(from as int, i + 1) == v@.subrange(from as int, i as int).push(
                v@[i as int],
            ));
        }
        i = i + 1;
    }
    r
}

/// Whether `v[from..to]` equals `lit`, ignoring ASCII case.
fn vec_eq_ignore_case(v: &Vec<char>, from: usize, to: usize, lit: &str) -> (r: bool)
    requires
        from <= to <= v@.len(),
    ensures
        r == eq_ignore_ascii_case(v@.subrange(from as int, to as int), lit@),
{
    let w = char_vec(lit);
    let ghost a = v@.subrange(from as int, to as int);
    if to - from != w.len() {
        proof {
            assert(lower_ascii_chars(a).len() != lower_ascii_chars(lit@).len());
        }
        return false;
    }
    let mut i: usize = 0;
    while i < w.len()
        invariant
            from <= to <= v@.len(),
            to - from == w@.len(),
            i <= w@.len(),
            w@ == lit@,
            a == v@.subrange(from as int, to as int),
            forall|k: int| 0 <= k < i ==> ascii_lower(v@[from + k]) == ascii_lower(w@[k]),
        decreases w@.len() - i,
    {
        if lower_char(v[from + i]) != lower_char(w[i]) {
            proof {
                assert(lower_ascii_chars(a)[i as int] != lower_ascii_chars(lit@)[i as int]);
            }
            return false;
        }
        i = i + 1;
    }
    assert(lower_ascii_chars(a) =~= lower_ascii_chars(lit@));
    true
}

/// Whether two strings are equal, ignoring ASCII case.
pub fn eq_ignore_case(a: &str, b: &str) -> (r: bool)
    ensures
        r == eq_ignore_ascii_case(a@, b@),
{
    let v = char_vec(a);
    assert(v@.subrange(0, v@.len() as int) == v@);
    vec_eq_ignore_case(&v, 0, v.len(), b)
}

/// Whether `value` begins with `prefix`, ignoring ASCII case.
pub fn starts_with_ignore_ascii_case(value: &str, prefix: &str) -> (r: bool)
    ensures
        r == starts_with_ignore_case(value@, prefix@),
{
    let v = char_vec(value);
    let n = prefix.unicode_len();
    if v.len() < n {
        return false;
    }
    assert(v@.subrange(0, n as int) == value@.take(n as int));
    vec_eq_ignore_case(&v, 0, n, prefix)
}

/// The index of the first `c` in `s`, or the length of `s` when there is none.
pub open spec fn first_index(s: Seq<char>, c: char) -> int
    decreases s.len(),
{
    if s.len() == 0 || s[0] == c {
        0
    } else {
        1 + first_index(s.drop_first(), c)
    }
}

pub proof fn lemma_first_index(s: Seq<char>, c: char, i: int)
    requires
        0 <= i <= s.len(),
        i == s.len() || s[i] == c,
        forall|k: int| 0 <= k < i ==> s[k] != c,
    ensures
        first_index(s, c) == i,
    decreases i,
{
    if i > 0 {
        lemma_first_index(s.drop_first(), c, i - 1);
    }
}

pub proof fn lemma_first_index_bounds(s: Seq<char>, c: char)
    ensures
        0 <= first_index(s, c) <= s.len(),
        first_index(s, c) < s.len() ==> s[first_index(s, c)] == c,
        forall|k: int| 0 <= k < first_index(s, c) ==> s[k] != c,
    decreases s.len(),
{
    if s.len() > 0 && s[0] != c {
        lemma_first_index_bounds(s.drop_first(), c);
        assert forall|k: int| 0 <= k < first_index(s, c) implies s[k] != c by {
            if k > 0 {
                assert(s[k] == s.drop_first()[k - 1]);
            }
        }
    }
}

/// The index of the first `c` in `v` at or after `from`, or the length of `v`.
pub fn find_char(v: &Vec<char>, c: char, from: usize) -> (r: usize)
    requires
        from <= v@.len(),
    ensures
        from <= r <= v@.len(),
        r == from + first_index(v@.skip(from as int), c),
        r < v@.len() ==> v@[r as int] == c,
        forall|k: int| from <= k < r ==> v@[k] != c,
{
    let mut i = from;
    while i < v.len() && v[i] != c
        invariant
            from <= i <= v@.len(),
            forall|k: int| from <= k < i ==> v@[k] != c,
        decreases v@.len() - i,
    {
        i = i + 1;
    }
    proof {
        lemma_first_index(v@.skip(from as int), c, i - from);
    }
    i
}

/// What `char::to_uppercase` yields for `c`.
pub uninterp spec fn char_uppercase(c: char) -> Seq<char>;

/// What `char::to_uppercase` yields for `c`: `a`-`z` become `A`-`Z`, the other ASCII
/// characters stay as they are, and the rest is `char_uppercase`.
pub open spec fn uppercase_of(c: char) -> Seq<char> {
    if 'a' <= c <= 'z' {
        seq![((c as u32) - 32) as char]
    } else if (c as u32) < 0x80 {
        seq![c]
    } else {
        char_uppercase(c)
    }
}

/// Calls `char::to_uppercase` and collects what it yields. The standard library documents
/// that it maps `a`-`z` to `A`-`Z` and yields a character without an uppercase mapping
/// (as the other ASCII characters are) unchanged; of the rest it states no more than the name.
#[verifier::external_body]
fn uppercase_chars(c: char) -> (r: Vec<char>)
    ensures
        r@ == uppercase_of(c),
        (c as u32) >= 0x80 ==> r@ == char_uppercase(c),
{
    c.to_uppercase().collect()
}

/// Camel case of a name read left to right: `-` and `:` are dropped and the character
/// after one is upper-cased. The flag tells whether the last character was a separator.
pub open spec fn camel_state(s: Seq<char>) -> (Seq<char>, bool)
    decreases s.len(),
{
    if s.len() == 0 {
        (Seq::empty(), false)
    } else {
        let prev = camel_state(s.drop_last());
        let c = s.last();
        if c == '-' || c == ':' {
            (prev.0, true)
        } else if prev.1 {
            (prev.0 + uppercase_of(c), false)
        } else {
            (prev.0.push(c), false)
        }
    }
}

pub open spec fn camelized(s: Seq<char>) -> Seq<char> {
    camel_state(s).0
}

/// `stroke-width` becomes `strokeWidth` and `xlink:href` becomes `xlinkHref`.
pub fn camelize_svg_name(name: &str) -> (r: String)
    ensures
        r@ == camelized(name@),
{
    let v = char_vec(name);
    let mut r = String::new();
    let mut upper_next = false;
    let mut i: usize = 0;
    while i < v.len()
        invariant
            i <= v@.len(),
            v@ == name@,
            (r@, upper_next) == camel_state(v@.take(i as int)),
        decreases v@.len() - i,
    {
        let ch = v[i];
        proof {
            assert(v@.take(i + 1).drop_last() == v@.take(i as int));
        }
        if ch == '-' || ch == ':' {
            upper_next = true;
        } else if upper_next {
            let up = uppercase_chars(ch);
            let mut k: usize = 0;
            let ghost base = r@;
            while k < up.len()
                invariant
                    k <= up@.len(),
                    r@ == base + up@.take(k as int),
                decreases up@.len() - k,
            {
                push_char(&mut r, up[k]);
                proof {
                    assert(up@.take(k + 1) == up@.take(k as int).push(up@[k as int]));
                }
                k = k + 1;
            }
            assert(up@.take(up@.len() as int) == up@);
            upper_next = false;
        } else {
            push_char(&mut r, ch);
        }
        i = i + 1;
    }
    assert(v@.take(v@.len() as int) == v@);
    r
}

/// `s` with every `-` removed.
pub open spec fn drop_hyphens(s: Seq<char>) -> Seq<char>
    decreases s.len(),
{
    if s.len() == 0 {
        s
    } else if s.last() == '-' {
        drop_hyphens(s.drop_last())
    } else {
        drop_hyphens(s.drop_last()).push(s.last())
    }
}

/// `aria-LABEL` becomes `aria-label`: the part before the first `-`, then `-`, then the
/// rest without hyphens, all in ASCII lowercase.
pub open spec fn aria_name(s: Seq<char>) -> Seq<char> {
    let k = first_index(s, '-');
    lower_ascii_chars(s.take(k)) + seq!['-'] + lower_ascii_chars(drop_hyphens(s.skip(k)))
}

pub fn convert_aria_attribute(name: &str) -> (r: String)
    ensures
        r@ == aria_name(name@),
{
    let v = char_vec(name);
    let k = find_char(&v, '-', 0);
    assert(v@.skip(0) == v@);
    let mut r = lower_vec(&v, 0, k);
    assert(v@.subrange(0, k as int) == v@.take(k as int));
    push_char(&mut r, '-');
    let ghost head = r@;
    let ghost rest = v@.skip(k as int);
    let mut i = k;
    while i < v.len()
        invariant
            k <= i <= v@.len(),
            rest == v@.skip(k as int),
            r@ == head + lower_ascii_chars(drop_hyphens(rest.take(i - k))),
        decreases v@.len() - i,
    {
        let ch = v[i];
        proof {
            assert(rest.take(i + 1 - k).drop_last() == rest.take(i - k));
            assert(rest.take(i + 1 - k).last() == ch);
        }
        if ch != '-' {
            push_char(&mut r, lower_char(ch));
            proof {
                let d = drop_hyphens(rest.take(i - k));
                assert(lower_ascii_chars(d.push(ch)) == lower_ascii_chars(d).push(ascii_lower(ch)));
            }
        }
        i = i + 1;
    }
    assert(rest.take(v@.len() - k) == rest);
    r
}

/// The camel-case name that React uses for an SVG element written in lowercase.
pub open spec fn element_name_map(n: Seq<char>) -> Seq<char> {
    if n == "clippath"@ {
        "clipPath"@
    } else if n == "lineargradient"@ {
        "linearGradient"@
    } else if n == "radialgradient"@ {
        "radialGradient"@
    } else if n == "textpath"@ {
        "textPath"@
    } else if n == "foreignobject"@ {
        "foreignObject"@
    } else if n == "feblend"@ {
        "feBlend"@
    } else if n == "fecolormatrix"@ {
        "feColorMatrix"@
    } else if n == "fecomponenttransfer"@ {
        "feComponentTransfer"@
    } else if n == "fecomposite"@ {
        "feComposite"@
    } else if n == "feconvolvematrix"@ {
        "feConvolveMatrix"@
    } else if n == "fediffuselighting"@ {
        "feDiffuseLighting"@
    } else if n == "fedisplacementmap"@ {
        "feDisplacementMap"@
    } else if n == "fedistantlight"@ {
        "feDistantLight"@
    } else if n == "fedropshadow"@ {
        "feDropShadow"@
    } else if n == "feflood"@ {
        "feFlood"@
    } else if n == "fefunca"@ {
        "feFuncA"@
    } else if n == "fefuncb"@ {
        "feFuncB"@
    } else if n == "fefuncg"@ {
        "feFuncG"@
    } else if n == "fefuncr"@ {
        "feFuncR"@
    } else if n == "fegaussianblur"@ {
        "feGaussianBlur"@
    } else if n == "feimage"@ {
        "feImage"@
    } else if n == "femerge"@ {
        "feMerge"@
    } else if n == "femergenode"@ {
        "feMergeNode"@
    } else if n == "femorphology"@ {
        "feMorphology"@
    } else if n == "feoffset"@ {
        "feOffset"@
    } else if n == "fepointlight"@ {
        "fePointLight"@
    } else if n == "fespecularlighting"@ {
        "feSpecularLighting"@
    } else if n == "fespotlight"@ {
        "feSpotLight"@
    } else if n == "fetile"@ {
        "feTile"@
    } else if n == "feturbulence"@ {
        "feTurbulence"@
    } else {
        n
    }
}

/// `clippath` becomes `clipPath`, `feblend` becomes `feBlend`; other names are kept.
pub fn map_element_name(name: &str) -> (r: String)
    ensures
        r@ == element_name_map(name@),
{
    if str_eq(name, "clippath") {
        String::from_str("clipPath")
    } else if str_eq(name, "lineargradient") {
        String::from_str("linearGradient")
    } else if str_eq(name, "radialgradient") {
        String::from_str("radialGradient")
    } else if str_eq(name, "textpath") {
        String::from_str("textPath")
    } else if str_eq(name, "foreignobject") {
        String::from_str("foreignObject")
    } else if str_eq(name, "feblend") {
        String::from_str("feBlend")
    } else if str_eq(name, "fecolormatrix") {
        String::from_str("feColorMatrix")
    } else if str_eq(name, "fecomponenttransfer") {
        String::from_str("feComponentTransfer")
    } else if str_eq(name, "fecomposite") {
        String::from_str("feComposite")
    } else if str_eq(name, "feconvolvematrix") {
        String::from_str("feConvolveMatrix")
    } else if str_eq(name, "fediffuselighting") {
        String::from_str("feDiffuseLighting")
    } else if str_eq(name, "fedisplacementmap") {
        String::from_str("feDisplacementMap")
    } else if str_eq(name, "fedistantlight") {
        String::from_str("feDistantLight")
    } else if str_eq(name, "fedropshadow") {
        String::from_str("feDropShadow")
    } else if str_eq(name, "feflood") {
        String::from_str("feFlood")
    } else if str_eq(name, "fefunca") {
        String::from_str("feFuncA")
    } else if str_eq(name, "fefuncb") {
        String::from_str("feFuncB")
    } else if str_eq(name, "fefuncg") {
        String::from_str("feFuncG")
    } else if str_eq(name, "fefuncr") {
        String::from_str("feFuncR")
    } else if str_eq(name, "fegaussianblur") {
        String::from_str("feGaussianBlur")
    } else if str_eq(name, "feimage") {
        String::from_str("feImage")
    } else if str_eq(name, "femerge") {
        String::from_str("feMerge")
    } else if str_eq(name, "femergenode") {
        String::from_str("feMergeNode")
    } else if str_eq(name, "femorphology") {
        String::from_str("feMorphology")
    } else if str_eq(name, "feoffset") {
        String::from_str("feOffset")
    } else if str_eq(name, "fepointlight") {
        String::from_str("fePointLight")
    } else if str_eq(name, "fespecularlighting") {
        String::from_str("feSpecularLighting")
    } else if str_eq(name, "fespotlight") {
        String::from_str("feSpotLight")
    } else if str_eq(name, "fetile") {
        String::from_str("feTile")
    } else if str_eq(name, "feturbulence") {
        String::from_str("feTurbulence")
    } else {
        String::from_str(name)
    }
}

/// The `react-native-svg` component for an SVG element, if it has one.
pub open spec fn native_name_map(n: Seq<char>) -> Option<Seq<char>> {
    if n == "svg"@ {
        Some("Svg"@)
    } else if n == "circle"@ {
        Some("Circle"@)
    } else if n == "clipPath"@ {
        Some("ClipPath"@)
    } else if n == "ellipse"@ {
        Some("Ellipse"@)
    } else if n == "g"@ {
        Some("G"@)
    } else if n == "linearGradient"@ {
        Some("LinearGradient"@)
    } else if n == "radialGradient"@ {
        Some("RadialGradient"@)
    } else if n == "line"@ {
        Some("Line"@)
    } else if n == "path"@ {
        Some("Path"@)
    } else if n == "pattern"@ {
        Some("Pattern"@)
    } else if n == "polygon"@ {
        Some("Polygon"@)
    } else if n == "polyline"@ {
        Some("Polyline"@)
    } else if n == "rect"@ {
        Some("Rect"@)
    } else if n == "symbol"@ {
        Some("Symbol"@)
    } else if n == "text"@ {
        Some("Text"@)
    } else if n == "textPath"@ {
        Some("TextPath"@)
    } else if n == "tspan"@ {
        Some("TSpan"@)
    } else if n == "use"@ {
        Some("Use"@)
    } else if n == "defs"@ {
        Some("Defs"@)
    } else if n == "stop"@ {
        Some("Stop"@)
    } else if n == "mask"@ {
        Some("Mask"@)
    } else if n == "image"@ {
        Some("Image"@)
    } else if n == "foreignObject"@ {
        Some("ForeignObject"@)
    } else {
        None
    }
}

pub fn native_component_name(name: &str) -> (r: Option<String>)
    ensures
        match native_name_map(name@) {
            Some(n) => r matches Some(x) && x@ == n,
            None => r is None,
        },
{
    if str_eq(name, "svg") {
        Some(String::from_str("Svg"))
    } else if str_eq(name, "circle") {
        Some(String::from_str("Circle"))
    } else if str_eq(name, "clipPath") {
        Some(String::from_str("ClipPath"))
    } else if str_eq(name, "ellipse") {
        Some(String::from_str("Ellipse"))
    } else if str_eq(name, "g") {
        Some(String::from_str("G"))
    } else if str_eq(name, "linearGradient") {
        Some(String::from_str("LinearGradient"))
    } else if str_eq(name, "radialGradient") {
        Some(String::from_str("RadialGradient"))
    } else if str_eq(name, "line") {
        Some(String::from_str("Line"))
    } else if str_eq(name, "path") {
        Some(String::from_str("Path"))
    } else if str_eq(name, "pattern") {
        Some(String::from_str("Pattern"))
    } else if str_eq(name, "polygon") {
        Some(String::from_str("Polygon"))
    } else if str_eq(name, "polyline") {
        Some(String::from_str("Polyline"))
    } else if str_eq(name, "rect") {
        Some(String::from_str("Rect"))
    } else if str_eq(name, "symbol") {
        Some(String::from_str("Symbol"))
    } else if str_eq(name, "text") {
        Some(String::from_str("Text"))
    } else if str_eq(name, "textPath") {
        Some(String::from_str("TextPath"))
    } else if str_eq(name, "tspan") {
        Some(String::from_str("TSpan"))
    } else if str_eq(name, "use") {
        Some(String::from_str("Use"))
    } else if str_eq(name, "defs") {
        Some(String::from_str("Defs"))
    } else if str_eq(name, "stop") {
        Some(String::from_str("Stop"))
    } else if str_eq(name, "mask") {
        Some(String::from_str("Mask"))
    } else if str_eq(name, "image") {
        Some(String::from_str("Image"))
    } else if str_eq(name, "foreignObject") {
        Some(String::from_str("ForeignObject"))
    } else {
        None
    }
}

/// The React name of an attribute written in SVG: the fixed renamings, `aria-*` and
/// `data-*` in lowercase, the rest camel-cased.
pub open spec fn attribute_name_map(n: Seq<char>, element: Seq<char>) -> Seq<char> {
    if element == "input"@ && eq_ignore_ascii_case(n, "checked"@) {
        "defaultChecked"@
    } else if element == "input"@ && eq_ignore_ascii_case(n, "value"@) {
        "defaultValue"@
    } else if eq_ignore_ascii_case(n, "class"@) || eq_ignore_ascii_case(n, "classname"@) {
        "className"@
    } else if eq_ignore_ascii_case(n, "for"@) {
        "htmlFor"@
    } else if eq_ignore_ascii_case(n, "tabindex"@) {
        "tabIndex"@
    } else if eq_ignore_ascii_case(n, "viewbox"@) {
        "viewBox"@
    } else if eq_ignore_ascii_case(n, "preserveaspectratio"@) {
        "preserveAspectRatio"@
    } else if eq_ignore_ascii_case(n, "xmlns:xlink"@) || eq_ignore_ascii_case(n, "xmlnsxlink"@) {
        "xmlnsXlink"@
    } else if eq_ignore_ascii_case(n, "xml:space"@) || eq_ignore_ascii_case(n, "xmlspace"@) {
        "xmlSpace"@
    } else if eq_ignore_ascii_case(n, "xml:lang"@) || eq_ignore_ascii_case(n, "xmllang"@) {
        "xmlLang"@
    } else if eq_ignore_ascii_case(n, "xlink:href"@) || eq_ignore_ascii_case(n, "xlinkhref"@) {
        "xlinkHref"@
    } else if eq_ignore_ascii_case(n, "xlink:title"@) || eq_ignore_ascii_case(n, "xlinktitle"@) {
        "xlinkTitle"@
    } else if eq_ignore_ascii_case(n, "xlink:type"@) || eq_ignore_ascii_case(n, "xlinktype"@) {
        "xlinkType"@
    } else if starts_with_ignore_case(n, "aria-"@) {
        aria_name(n)
    } else if starts_with_ignore_case(n, "data-"@) {
        lower_ascii_chars(n)
    } else {
        camelized(n)
    }
}

pub fn map_attribute_name(name: &str, element_name: &str) -> (r: String)
    ensures
        r@ == attribute_name_map(name@, element_name@),
{
    let input = str_eq(element_name, "input");
    if input && eq_ignore_case(name, "checked") {
        String::from_str("defaultChecked")
    } else if input && eq_ignore_case(name, "value") {
        String::from_str("defaultValue")
    } else if eq_ignore_case(name, "class") || eq_ignore_case(name, "classname") {
        String::from_str("className")
    } else if eq_ignore_case(name, "for") {
        String::from_str("htmlFor")
    } else if eq_ignore_case(name, "tabindex") {
        String::from_str("tabIndex")
    } else if eq_ignore_case(name, "viewbox") {
        String::from_str("viewBox")
    } else if eq_ignore_case(name, "preserveaspectratio") {
        String::from_str("preserveAspectRatio")
    } else if eq_ignore_case(name, "xmlns:xlink") || eq_ignore_case(name, "xmlnsxlink") {
        String::from_str("xmlnsXlink")
    } else if eq_ignore_case(name, "xml:space") || eq_ignore_case(name, "xmlspace") {
        String::from_str("xmlSpace")
    } else if eq_ignore_case(name, "xml:lang") || eq_ignore_case(name, "xmllang") {
        String::from_str("xmlLang")
    } else if eq_ignore_case(name, "xlink:href") || eq_ignore_case(name, "xlinkhref") {
        String::from_str("xlinkHref")
    } else if eq_ignore_case(name, "xlink:title") || eq_ignore_case(name, "xlinktitle") {
        String::from_str("xlinkTitle")
    } else if eq_ignore_case(name, "xlink:type") || eq_ignore_case(name, "xlinktype") {
        String::from_str("xlinkType")
    } else if starts_with_ignore_ascii_case(name, "aria-") {
        convert_aria_attribute(name)
    } else if starts_with_ignore_ascii_case(name, "data-") {
        let v = char_vec(name);
        assert(v@.subrange(0, v@.len() as int) == v@);
        lower_vec(&v, 0, v.len())
    } else {
        camelize_svg_name(name)
    }
}

/// Attributes whose values stay strings even when they read as numbers.
pub open spec fn always_string_attribute(n: Seq<char>) -> bool {
    ||| n == "d"@
    ||| n == "points"@
    ||| n == "viewBox"@
    ||| n == "preserveAspectRatio"@
    ||| n == "transform"@
    ||| n == "gradientTransform"@
    ||| n == "patternTransform"@
}

pub fn is_always_string_attribute(name: &str) -> (r: bool)
    ensures
        r == always_string_attribute(name@),
{
    str_eq(name, "d") || str_eq(name, "points") || str_eq(name, "viewBox") || str_eq(
        name,
        "preserveAspectRatio",
    ) || str_eq(name, "transform") || str_eq(name, "gradientTransform") || str_eq(
        name,
        "patternTransform",
    )
}

/// Characters that an attribute value holds as a plain space.
pub open spec fn xml_space_replacement(c: char) -> bool {
    c == '\t' || c == '\r' || c == '\n' || c == '\u{0085}' || c == '\u{2028}' || c == '\u{2029}'
}

pub fn is_xml_space_replacement(ch: char) -> (r: bool)
    ensures
        r == xml_space_replacement(ch),
{
    ch == '\t' || ch == '\r' || ch == '\n' || ch == '\u{0085}' || ch == '\u{2028}' || ch
        == '\u{2029}'
}

} // verus!
