use vstd::prelude::*;
use vstd::string::StringExecFns;

use crate::error::push_char;
use crate::names::{lemma_first_index, 
    char_vec, chars_equal, find_char, first_index, is_xml_space_replacement,
    lemma_first_index_bounds, string_of, xml_space_replacement,
};

verus! {

/// The value of a digit in the given radix (10 or 16), if `c` is one.
pub open spec fn digit_value(c: char, radix: nat) -> Option<nat> {
    if '0' <= c <= '9' {
        Some((c as nat - '0' as nat) as nat)
    } else if radix == 16 && 'a' <= c <= 'f' {
        Some((c as nat - 'a' as nat + 10) as nat)
    } else if radix == 16 && 'A' <= c <= 'F' {
        Some((c as nat - 'A' as nat + 10) as nat)
    } else {
        None
    }
}

pub open spec fn all_digits(d: Seq<char>, radix: nat) -> bool {
    forall|i: int| 0 <= i < d.len() ==> (#[trigger] digit_value(d[i], radix)) is Some
}

pub open spec fn digits_value(d: Seq<char>, radix: nat) -> nat
    decreases d.len(),
{
    if d.len() == 0 {
        0
    } else {
        digits_value(d.drop_last(), radix) * radix + digit_value(d.last(), radix)->0
    }
}

/// What `u32::from_str_radix` reads: an optional `+`, then one or more digits, whose value
/// fits in a `u32`.
pub open spec fn parse_u32(t: Seq<char>, radix: nat) -> Option<u32> {
    let d = if t.len() > 0 && t[0] == '+' {
        t.drop_first()
    } else {
        t
    };
    if d.len() > 0 && all_digits(d, radix) && digits_value(d, radix) <= u32::MAX {
        Some(digits_value(d, radix) as u32)
    } else {
        None
    }
}

fn digit_of(c: char, radix: u32) -> (r: Option<u32>)
    requires
        radix == 10 || radix == 16,
    ensures
        match digit_value(c, radix as nat) {
            Some(d) => r == Some(d as u32),
            None => r is None,
        },
{
    if '0' <= c && c <= '9' {
        Some((c as u32) - ('0' as u32))
    } else if radix == 16 && 'a' <= c && c <= 'f' {
        Some((c as u32) - ('a' as u32) + 10)
    } else if radix == 16 && 'A' <= c && c <= 'F' {
        Some((c as u32) - ('A' as u32) + 10)
    } else {
        None
    }
}

/// Reads `v[from..to]` as `u32::from_str_radix` does.
fn parse_u32_chars(v: &Vec<char>, from: usize, to: usize, radix: u32) -> (r: Option<u32>)
    requires
        from <= to <= v@.len(),
        radix == 10 || radix == 16,
    ensures
        r == parse_u32(v@.subrange(from as int, to as int), radix as nat),
{
    let ghost t = v@.subrange(from as int, to as int);
    let mut start = from;
    if start < to && v[start] == '+' {
        start = start + 1;
    }
    let ghost d = v@.subrange(start as int, to as int);
    assert(d == (if t.len() > 0 && t[0] == '+' {
        t.drop_first()
    } else {
        t
    }));
    if start == to {
        return None;
    }
    let big: u64 = 0x1_0000_0000;
    let mut acc: u64 = 0;
    let mut i = start;
    while i < to
        invariant
            start <= i <= to <= v@.len(),
            radix == 10 || radix == 16,
            big == 0x1_0000_0000,
            d == v@.subrange(start as int, to as int),
            t == v@.subrange(from as int, to as int),
            d == (if t.len() > 0 && t[0] == '+' {
                t.drop_first()
            } else {
                t
            }),
            all_digits(v@.subrange(start as int, i as int), radix as nat),
            acc as nat == if digits_value(v@.subrange(start as int, i as int), radix as nat) < big {
                digits_value(v@.subrange(start as int, i as int), radix as nat)
            } else {
                big as nat
            },
        decreases to - i,
    {
        let ghost p = v@.subrange(start as int, i as int);
        let ghost q = v@.subrange(start as int, i + 1);
        assert(q.drop_last() == p);
        assert(q.last() == v@[i as int]);
        match digit_of(v[i], radix) {
            None => {
                assert(d[i - start] == v@[i as int]);
                assert(digit_value(d[i - start], radix as nat) is None);
                return None;
            },
            Some(dg) => {
                let ghost pv = digits_value(p, radix as nat);
                assert(pv * radix >= pv) by (nonlinear_arith)
                    requires
                        radix >= 1,
                ;
                if acc < big {
                    assert(acc * radix + dg < 0x10_0000_0000) by (nonlinear_arith)
                        requires
                            acc < 0x1_0000_0000,
                            radix <= 16,
                            dg < 16,
                    ;
                    let n = acc * (radix as u64) + (dg as u64);
                    if n < big {
                        acc = n;
                    } else {
                        acc = big;
                    }
                }
                assert forall|k: int| 0 <= k < q.len() implies (#[trigger] digit_value(
                    q[k],
                    radix as nat,
                )) is Some by {
                    if k < p.len() {
                        assert(q[k] == p[k]);
                    }
                }
            },
        }
        i = i + 1;
    }
    if acc < big {
        Some(acc as u32)
    } else {
        None
    }
}

/// `v` is a Unicode scalar value, the range of `char`.
pub open spec fn is_scalar(v: u32) -> bool {
    v < 0xD800 || (0xE000 <= v && v <= 0x10FFFF)
}

/// Calls `char::from_u32`, which the standard library documents as giving the `char` whose
/// code point is `v` when `v` is a Unicode scalar value, and `None` otherwise.
#[verifier::external_body]
fn char_from_u32(v: u32) -> (r: Option<char>)
    ensures
        is_scalar(v) ==> r == Some(v as char),
        !is_scalar(v) ==> r is None,
{
    char::from_u32(v)
}

/// The character of a numeric reference, or nothing when the number is no scalar value.
pub open spec fn scalar_text(v: Option<u32>) -> Seq<char> {
    match v {
        Some(x) => if is_scalar(x) {
            seq![x as char]
        } else {
            Seq::empty()
        },
        None => Seq::empty(),
    }
}

/// What the text of an entity reference `&e;` stands for. An unknown name is kept as written;
/// a numeric reference that does not read as a character stands for nothing.
pub open spec fn entity_text(e: Seq<char>) -> Seq<char> {
    if e == "amp"@ {
        seq!['&']
    } else if e == "lt"@ {
        seq!['<']
    } else if e == "gt"@ {
        seq!['>']
    } else if e == "quot"@ {
        seq!['"']
    } else if e == "apos"@ {
        seq!['\'']
    } else if e.len() >= 2 && e[0] == '#' && e[1] == 'x' {
        scalar_text(parse_u32(e.skip(2), 16))
    } else if e.len() >= 1 && e[0] == '#' {
        scalar_text(parse_u32(e.skip(1), 10))
    } else {
        seq!['&'] + e + seq![';']
    }
}

/// `s` with each entity reference `&...;` replaced by what it stands for; an `&` with no
/// `;` after it ends the decoding.
pub open spec fn decoded(s: Seq<char>) -> Seq<char>
    decreases s.len(),
{
    let a = first_index(s, '&');
    if a >= s.len() {
        s
    } else {
        let rest = s.skip(a + 1);
        let e = first_index(rest, ';');
        if e >= rest.len() {
            s
        } else {
            proof {
                lemma_first_index_bounds(s, '&');
                lemma_first_index_bounds(rest, ';');
            }
            s.take(a) + entity_text(rest.take(e)) + decoded(rest.skip(e + 1))
        }
    }
}

/// Decoding works reference by reference: text with no `&` is kept as it is, and a
/// reference `&e;` after such text becomes what `e` stands for, the rest decoded in turn.
pub proof fn law_decoding_by_reference(a: Seq<char>, e: Seq<char>, rest: Seq<char>)
    requires
        forall|i: int| 0 <= i < a.len() ==> a[i] != '&',
        forall|i: int| 0 <= i < e.len() ==> e[i] != ';',
    ensures
        decoded(a) == a,
        decoded(a + seq!['&'] + e + seq![';'] + rest) == a + entity_text(e) + decoded(rest),
{
    lemma_first_index(a, '&', a.len() as int);
    let s = a + seq!['&'] + e + seq![';'] + rest;
    assert(s[a.len() as int] == '&');
    lemma_first_index(s, '&', a.len() as int);
    let tail = s.skip(a.len() as int + 1);
    assert(tail =~= e + seq![';'] + rest);
    assert(tail[e.len() as int] == ';');
    lemma_first_index(tail, ';', e.len() as int);
    assert(s.take(a.len() as int) =~= a);
    assert(tail.take(e.len() as int) =~= e);
    assert(tail.skip(e.len() as int + 1) =~= rest);
}

fn one_char(c: char) -> (r: String)
    ensures
        r@ == seq![c],
{
    let mut r = String::new();
    push_char(&mut r, c);
    r
}

fn scalar_string(v: Option<u32>) -> (r: String)
    ensures
        r@ == scalar_text(v),
{
    match v {
        Some(x) => match char_from_u32(x) {
            Some(c) => one_char(c),
            None => String::new(),
        },
        None => String::new(),
    }
}

fn entity_string(v: &Vec<char>, from: usize, to: usize) -> (r: String)
    requires
        from <= to <= v@.len(),
    ensures
        r@ == entity_text(v@.subrange(from as int, to as int)),
{
    let ghost e = v@.subrange(from as int, to as int);
    if chars_equal(v, from, to, "amp") {
        one_char('&')
    } else if chars_equal(v, from, to, "lt") {
        one_char('<')
    } else if chars_equal(v, from, to, "gt") {
        one_char('>')
    } else if chars_equal(v, from, to, "quot") {
        one_char('"')
    } else if chars_equal(v, from, to, "apos") {
        one_char('\'')
    } else if to - from >= 2 && v[from] == '#' && v[from + 1] == 'x' {
        assert(e.skip(2) == v@.subrange(from + 2, to as int));
        scalar_string(parse_u32_chars(v, from + 2, to, 16))
    } else if to - from >= 1 && v[from] == '#' {
        assert(e.skip(1) == v@.subrange(from + 1, to as int));
        scalar_string(parse_u32_chars(v, from + 1, to, 10))
    } else {
        let mut r = one_char('&');
        let w = string_of(v, from, to);
        r.append(w.as_str());
        push_char(&mut r, ';');
        r
    }
}

/// Replaces XML entity references in `value`.
pub fn decode_xml(value: &str) -> (r: String)
    ensures
        r@ == decoded(value@),
{
    let v = char_vec(value);
    let n = v.len();
    let mut r = String::new();
    let mut pos: usize = 0;
    assert(v@.skip(0) == v@);
    loop
        invariant
            pos <= n == v@.len(),
            v@ == value@,
            r@ + decoded(v@.skip(pos as int)) == decoded(v@),
        decreases n - pos,
    {
        let ghost s = v@.skip(pos as int);
        let a = find_char(&v, '&', pos);
        if a == n {
            let tail = string_of(&v, pos, n);
            assert(tail@ == s);
            r.append(tail.as_str());
            return r;
        }
        let e = find_char(&v, ';', a + 1);
        proof {
            assert(s.skip(a - pos + 1) == v@.skip(a + 1));
        }
        if e == n {
            let tail = string_of(&v, pos, n);
            assert(tail@ == s);
            r.append(tail.as_str());
            return r;
        }
        let head = string_of(&v, pos, a);
        let ent = entity_string(&v, a + 1, e);
        proof {
            let rest = v@.skip(a + 1);
            assert(s.take(a - pos) == v@.subrange(pos as int, a as int));
            assert(rest.take(e - a - 1) == v@.subrange(a + 1, e as int));
            assert(rest.skip(e - a) == v@.skip(e + 1));
        }
        r.append(head.as_str());
        r.append(ent.as_str());
        pos = e + 1;
    }
}

/// A value as React sees it: entity references decoded and line breaks and tabs made spaces.
pub open spec fn normalized_value(s: Seq<char>) -> Seq<char> {
    decoded(s).map_values(|c: char| if xml_space_replacement(c) { ' ' } else { c })
}

pub fn normalize_attribute_value(value: &str) -> (r: String)
    ensures
        r@ == normalized_value(value@),
{
    let d = decode_xml(value);
    let v = char_vec(d.as_str());
    let mut r = String::new();
    let mut i: usize = 0;
    while i < v.len()
        invariant
            i <= v@.len(),
            v@ == decoded(value@),
            r@ == v@.take(i as int).map_values(
                |c: char| if xml_space_replacement(c) { ' ' } else { c },
            ),
        decreases v@.len() - i,
    {
        let c = v[i];
        if is_xml_space_replacement(c) {
            push_char(&mut r, ' ');
        } else {
            push_char(&mut r, c);
        }
        proof {
            assert(v@.take(i + 1) == v@.take(i as int).push(c));
        }
        i = i + 1;
    }
    assert(v@.take(v@.len() as int) == v@);
    r
}

} // verus!
