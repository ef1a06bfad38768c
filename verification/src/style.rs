use vstd::prelude::*;
use vstd::string::StringExecFns;

use crate::jsx::{styles_view, StyleEntry, StyleModel};
use crate::names::{
    camelize_svg_name, camelized, char_vec, find_char, first_index, lemma_first_index_bounds,
    string_of,
};
use crate::text::{trim_chars, trim_str};
use crate::validate::{identifier_name, is_identifier_name};

verus! {

/// `s` after every leading `-ms-` is removed.
pub open spec fn strip_ms(s: Seq<char>) -> Seq<char>
    decreases s.len(),
{
    if s.len() >= 4 && s.take(4) == seq!['-', 'm', 's', '-'] {
        strip_ms(s.skip(4))
    } else {
        s
    }
}

/// A custom property such as `--brand-color`, kept as written.
pub open spec fn is_custom_property(key: Seq<char>) -> bool {
    key.len() >= 2 && key[0] == '-' && key[1] == '-'
}

/// The property that one `;`-separated part of a `style` attribute declares, if any:
/// parts without `:` or with an empty key declare none.
pub open spec fn style_entry_of(seg: Seq<char>) -> Option<StyleModel> {
    let style = trim_chars(seg);
    let k = first_index(style, ':');
    if style.len() == 0 || k >= style.len() {
        None
    } else {
        let key = trim_chars(style.take(k));
        if key.len() == 0 {
            None
        } else {
            let custom = is_custom_property(key);
            let formatted = if custom {
                key
            } else {
                camelized(strip_ms(key))
            };
            Some(
                StyleModel {
                    key: formatted,
                    quoted_key: custom || !identifier_name(formatted),
                    value: trim_chars(style.skip(k + 1)),
                },
            )
        }
    }
}

/// The properties that a `style` attribute declares, in order.
pub open spec fn style_entries_of(s: Seq<char>) -> Seq<StyleModel>
    decreases s.len(),
{
    let i = first_index(s, ';');
    let here = match style_entry_of(s.take(i)) {
        Some(e) => seq![e],
        None => Seq::empty(),
    };
    if i >= s.len() {
        here
    } else {
        proof {
            lemma_first_index_bounds(s, ';');
        }
        here + style_entries_of(s.skip(i + 1))
    }
}

fn strip_ms_string(v: &Vec<char>) -> (r: String)
    ensures
        r@ == strip_ms(v@),
{
    let mut p: usize = 0;
    assert(v@.skip(0) == v@);
    while v.len() >= 4 && p <= v.len() - 4 && v[p] == '-' && v[p + 1] == 'm' && v[p + 2] == 's' && v[p + 3] == '-'
        invariant
            p <= v@.len(),
            strip_ms(v@.skip(p as int)) == strip_ms(v@),
        decreases v@.len() - p,
    {
        proof {
            let s = v@.skip(p as int);
            assert(s.take(4) == seq!['-', 'm', 's', '-']);
            assert(s.skip(4) == v@.skip(p + 4));
        }
        p = p + 4;
    }
    proof {
        let s = v@.skip(p as int);
        if s.len() >= 4 {
            assert(s.take(4)[0] == v@[p as int]);
            assert(s.take(4)[1] == v@[p + 1]);
            assert(s.take(4)[2] == v@[p + 2]);
            assert(s.take(4)[3] == v@[p + 3]);
        }
    }
    let r = string_of(v, p, v.len());
    assert(v@.subrange(p as int, v@.len() as int) == v@.skip(p as int));
    r
}

/// Reads one `;`-separated part of a `style` attribute.
fn style_entry(seg: &str) -> (r: Option<StyleEntry>)
    ensures
        match style_entry_of(seg@) {
            Some(m) => r matches Some(e) && style_view(e) == m,
            None => r is None,
        },
{
    let style = trim_str(seg);
    let sv = char_vec(style);
    let k = find_char(&sv, ':', 0);
    assert(sv@.skip(0) == sv@);
    if sv.len() == 0 || k == sv.len() {
        return None;
    }
    let key_part = string_of(&sv, 0, k);
    assert(sv@.subrange(0, k as int) == sv@.take(k as int));
    let key = trim_str(key_part.as_str());
    let kv = char_vec(key);
    if kv.len() == 0 {
        return None;
    }
    let custom = kv.len() >= 2 && kv[0] == '-' && kv[1] == '-';
    let formatted = if custom {
        String::from_str(key)
    } else {
        let stripped = strip_ms_string(&kv);
        camelize_svg_name(stripped.as_str())
    };
    let quoted_key = custom || !is_identifier_name(formatted.as_str());
    let value_part = string_of(&sv, k + 1, sv.len());
    assert(sv@.subrange(k + 1, sv@.len() as int) == sv@.skip(k + 1));
    let value = String::from_str(trim_str(value_part.as_str()));
    Some(StyleEntry { key: formatted, quoted_key, value })
}

use crate::jsx::style_view;

/// The object properties of a `style` attribute value such as
/// `stroke-width: 2px; --brand-color: red`.
pub fn style_entries(raw: &str) -> (r: Vec<StyleEntry>)
    ensures
        styles_view(r@) == style_entries_of(raw@),
{
    let v = char_vec(raw);
    let n = v.len();
    let mut r: Vec<StyleEntry> = Vec::new();
    let mut pos: usize = 0;
    assert(v@.skip(0) == v@);
    assert(styles_view(r@) == Seq::<StyleModel>::empty());
    loop
        invariant
            pos <= n == v@.len(),
            v@ == raw@,
            styles_view(r@) + style_entries_of(v@.skip(pos as int)) == style_entries_of(v@),
        decreases n - pos,
    {
        let ghost s = v@.skip(pos as int);
        let i = find_char(&v, ';', pos);
        let seg = string_of(&v, pos, i);
        assert(seg@ == s.take(i - pos));
        let ghost before = r@;
        match style_entry(seg.as_str()) {
            Some(e) => {
                r.push(e);
                assert(styles_view(r@) == styles_view(before).push(style_view(e)));
            },
            None => {},
        }
        let ghost here = match style_entry_of(s.take(i - pos)) {
            Some(e) => seq![e],
            None => Seq::<StyleModel>::empty(),
        };
        assert(styles_view(r@) == styles_view(before) + here);
        if i == n {
            assert(styles_view(r@) + Seq::<StyleModel>::empty() == styles_view(r@));
            return r;
        }
        assert(s.skip(i - pos + 1) == v@.skip(i + 1));
        pos = i + 1;
    }
}

} // verus!
