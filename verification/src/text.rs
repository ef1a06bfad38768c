use vstd::prelude::*;
use vstd::utf8::*;
use vstd::string::StringSliceAdditionalSpecFns;

verus! {

broadcast use vstd::utf8::encode_utf8_valid_utf8, vstd::utf8::encode_utf8_decode_utf8;

/// The characters that the UTF-8 bytes `b[start..end]` encode.
pub open spec fn text_at(b: Seq<u8>, start: int, end: int) -> Seq<char> {
    decode_utf8(b.subrange(start, end))
}

/// `i` is the end of `b` or the index of a byte that starts a character.
pub open spec fn starts_char(b: Seq<u8>, i: int) -> bool {
    i == b.len() || (0 <= i < b.len() && !is_continuation_byte(b[i]))
}

pub proof fn lemma_starts_char_is_boundary(b: Seq<u8>, i: int)
    requires
        valid_utf8(b),
        starts_char(b, i),
    ensures
        is_char_boundary(b, i),
{
    if i == b.len() {
        is_char_boundary_start_end_of_seq(b);
    } else {
        is_char_boundary_iff_not_is_continuation_byte(b, i);
    }
}

/// In valid UTF-8 the byte after an ASCII byte starts a character.
pub proof fn lemma_after_ascii(b: Seq<u8>, i: int)
    requires
        valid_utf8(b),
        0 <= i < b.len(),
        b[i] < 0x80,
    ensures
        starts_char(b, i + 1),
{
    if i + 1 < b.len() {
        is_char_boundary_iff_not_is_continuation_byte(b, i);
        valid_utf8_split(b, i);
        let s = b.subrange(i, b.len() as int);
        assert(s[0] == b[i]);
        assert(valid_utf8(s));
        assert(valid_first_scalar(s));
        assert(length_of_first_scalar(s) == 1);
        let t = pop_first_scalar(s);
        assert(valid_utf8(t));
        assert(t.len() > 0);
        assert(valid_first_scalar(t));
        assert(t[0] == b[i + 1]);
    }
}

/// The characters of `source` between two byte offsets that start characters.
pub fn slice_str<'a>(source: &'a str, start: usize, end: usize) -> (r: &'a str)
    requires
        start <= end <= source.spec_bytes().len(),
        starts_char(source.spec_bytes(), start as int),
        starts_char(source.spec_bytes(), end as int),
    ensures
        r@ == text_at(source.spec_bytes(), start as int, end as int),
        r.spec_bytes() == source.spec_bytes().subrange(start as int, end as int),
{
    let ghost b = source.spec_bytes();
    proof {
        lemma_starts_char_is_boundary(b, start as int);
    }
    let (_, tail) = source.split_at(start);
    let ghost t = tail.spec_bytes();
    assert(t =~= b.subrange(start as int, b.len() as int));
    proof {
        let k = end - start;
        if end < b.len() {
            assert(t[k as int] == b[end as int]);
        }
        assert(starts_char(t, k as int));
        lemma_starts_char_is_boundary(t, k as int);
    }
    let (mid, _) = tail.split_at(end - start);
    assert(mid.spec_bytes() =~= b.subrange(start as int, end as int));
    assert(decode_utf8(encode_utf8(mid@)) == mid@);
    mid
}

/// Unicode `White_Space` characters, which `str::trim` removes at both ends.
pub open spec fn is_unicode_white_space(c: char) -> bool {
    let u = c as u32;
    ||| 0x09 <= u <= 0x0d
    ||| u == 0x20
    ||| u == 0x85
    ||| u == 0xa0
    ||| u == 0x1680
    ||| 0x2000 <= u <= 0x200a
    ||| u == 0x2028
    ||| u == 0x2029
    ||| u == 0x202f
    ||| u == 0x205f
    ||| u == 0x3000
}

pub open spec fn trim_start_chars(s: Seq<char>) -> Seq<char>
    decreases s.len(),
{
    if s.len() > 0 && is_unicode_white_space(s[0]) {
        trim_start_chars(s.drop_first())
    } else {
        s
    }
}

pub open spec fn trim_end_chars(s: Seq<char>) -> Seq<char>
    decreases s.len(),
{
    if s.len() > 0 && is_unicode_white_space(s.last()) {
        trim_end_chars(s.drop_last())
    } else {
        s
    }
}

/// `s` without leading and trailing white space.
pub open spec fn trim_chars(s: Seq<char>) -> Seq<char> {
    trim_end_chars(trim_start_chars(s))
}

/// Calls `str::trim`, which the standard library documents as removing the
/// leading and trailing characters that have the Unicode `White_Space` property.
#[verifier::external_body]
pub(crate) fn trim_str<'a>(s: &'a str) -> (r: &'a str)
    ensures
        r@ == trim_chars(s@),
{
    s.trim()
}


/// Whether two strings hold the same characters, compared byte by byte.
pub fn str_eq(a: &str, b: &str) -> (r: bool)
    ensures
        r == (a@ == b@),
{
    let x = a.as_bytes();
    let y = b.as_bytes();
    if x.len() != y.len() {
        return false;
    }
    let mut i: usize = 0;
    while i < x.len()
        invariant
            x@ == a.spec_bytes(),
            y@ == b.spec_bytes(),
            x@.len() == y@.len(),
            i <= x@.len(),
            forall|k: int| 0 <= k < i ==> x@[k] == y@[k],
        decreases x@.len() - i,
    {
        if x[i] != y[i] {
            return false;
        }
        i = i + 1;
    }
    assert(x@ =~= y@);
    assert(decode_utf8(encode_utf8(a@)) == a@);
    assert(decode_utf8(encode_utf8(b@)) == b@);
    true
}
} // verus!
