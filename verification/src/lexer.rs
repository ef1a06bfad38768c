use vstd::prelude::*;
use vstd::string::StringSliceAdditionalSpecFns;
use vstd::utf8::*;

use crate::error::ParseError;
use crate::events::{
    Attribute, CData, Comment, Doctype, EndElement, FinishStartElement, ProcessingInstruction,
    QuoteKind, Span, StartElement, SvgEvent, Text,
};
use crate::lexer_spec::{
    ascii_lower, cdata_close, cdata_open, comment_close, comment_open, content_state,
    doctype_end, doctype_open, find_from, initial_state, is_name_byte, is_space_byte,
    lex_attribute, lex_content, lex_delimited, lex_in_tag, lex_next, lex_tag, name_end,
    pi_close, quote_end, space_end, span_at, span_of, starts_with_at,
    starts_with_ignore_case_at, text_end, unquoted_end, all_space, LexState, LexStep,
};
use crate::text::{lemma_after_ascii, slice_str, starts_char, text_at, trim_str};

verus! {

broadcast use vstd::utf8::encode_utf8_valid_utf8;

/// Whether `byte` may appear in a tag or attribute name.
#[inline]
pub fn is_name_char(byte: u8) -> (r: bool)
    ensures
        r == is_name_byte(byte),
{
    (0x30 <= byte && byte <= 0x39) || (0x41 <= byte && byte <= 0x5a) || (0x61 <= byte && byte
        <= 0x7a) || byte == 0x3a || byte == 0x5f || byte == 0x2d
}

/// Whether `byte` is a space, tab, carriage return or line feed.
#[inline]
pub fn is_whitespace(byte: u8) -> (r: bool)
    ensures
        r == is_space_byte(byte),
{
    byte == 0x20 || byte == 0x09 || byte == 0x0d || byte == 0x0a
}

pub open spec fn find_result(r: Option<int>) -> Option<usize> {
    match r {
        Some(i) => Some(i as usize),
        None => None,
    }
}

fn window_matches(haystack: &[u8], start: usize, needle: &[u8]) -> (r: bool)
    requires
        start + needle@.len() <= haystack@.len(),
    ensures
        r == (haystack@.subrange(start as int, start + needle@.len()) == needle@),
{
    let _ = haystack.len();
    let mut j: usize = 0;
    while j < needle.len()
        invariant
            j <= needle@.len(),
            haystack@.len() <= usize::MAX,
            start + needle@.len() <= haystack@.len(),
            forall|k: int| 0 <= k < j ==> haystack@[start + k] == needle@[k],
        decreases needle@.len() - j,
    {
        if haystack[start + j] != needle[j] {
            assert(haystack@.subrange(start as int, start + needle@.len())[j as int]
                != needle@[j as int]);
            return false;
        }
        j = j + 1;
    }
    assert(haystack@.subrange(start as int, start + needle@.len()) =~= needle@);
    true
}

/// The first index at which `needle` occurs in `haystack`.
fn find_bytes(haystack: &[u8], needle: &[u8]) -> (r: Option<usize>)
    ensures
        r == find_result(find_from(haystack@, 0, needle@)),
{
    if needle.len() == 0 {
        assert(haystack@.subrange(0, 0) =~= needle@);
        return Some(0);
    }
    let mut i: usize = 0;
    while i <= haystack.len() && needle.len() <= haystack.len() - i
        invariant
            i <= haystack@.len() + 1,
            needle@.len() > 0,
            find_from(haystack@, 0, needle@) == find_from(haystack@, i as int, needle@),
        decreases haystack@.len() + 1 - i,
    {
        if window_matches(haystack, i, needle) {
            return Some(i);
        }
        i = i + 1;
    }
    None
}

proof fn lemma_find_shift(b: Seq<u8>, p: int, k: int, needle: Seq<u8>)
    requires
        0 <= p <= b.len(),
        0 <= k,
    ensures
        find_result(find_from(b.subrange(p, b.len() as int), k, needle)) == match find_from(
            b,
            p + k,
            needle,
        ) {
            Some(i) => Some((i - p) as usize),
            None => None,
        },
    decreases b.len() - p - k,
{
    let t = b.subrange(p, b.len() as int);
    if k + needle.len() > t.len() {
    } else {
        assert(t.subrange(k, k + needle.len()) =~= b.subrange(p + k, p + k + needle.len()));
        if t.subrange(k, k + needle.len()) == needle {
        } else if k >= t.len() {
        } else {
            lemma_find_shift(b, p, k + 1, needle);
        }
    }
}

proof fn lemma_first_starts_char(b: Seq<u8>)
    requires
        valid_utf8(b),
    ensures
        starts_char(b, 0),
{
    if b.len() > 0 {
        assert(valid_first_scalar(b));
    }
}

/// One event read from the source, before it is handed to a sink.
pub enum Token<'src> {
    StartElement(StartElement<'src>),
    Attribute(Attribute<'src>),
    FinishStartElement(FinishStartElement),
    EndElement(EndElement<'src>),
    Text(Text<'src>),
    Comment(Comment<'src>),
    CData(CData<'src>),
    Doctype(Doctype<'src>),
    ProcessingInstruction(ProcessingInstruction<'src>),
    FinishDocument,
}

impl<'src> View for Token<'src> {
    type V = SvgEvent;

    open spec fn view(&self) -> SvgEvent {
        match self {
            Token::StartElement(e) => e@,
            Token::Attribute(e) => e@,
            Token::FinishStartElement(e) => e@,
            Token::EndElement(e) => e@,
            Token::Text(e) => e@,
            Token::Comment(e) => e@,
            Token::CData(e) => e@,
            Token::Doctype(e) => e@,
            Token::ProcessingInstruction(e) => e@,
            Token::FinishDocument => SvgEvent::FinishDocument,
        }
    }
}

/// Whether an exec outcome of one reading step is the step that the model describes.
pub open spec fn step_matches<'src, E>(
    step: LexStep<E>,
    r: Result<Option<Token<'src>>, ParseError<E>>,
    st: LexState,
) -> bool {
    match step {
        LexStep::Emit(ev, st2) => r matches Ok(Some(t)) && t@ == ev && st == st2,
        LexStep::Fail(e) => r == Err::<Option<Token<'src>>, ParseError<E>>(e),
        LexStep::Done => r matches Ok(None),
    }
}

/// Reads a document one event at a time.
pub struct Tokenizer<'src> {
    pub source: &'src str,
    pub bytes: &'src [u8],
    pub pos: usize,
    pub in_tag: bool,
    pub tag_start: usize,
    pub finished: bool,
}

impl<'src> Tokenizer<'src> {
    pub open spec fn b(&self) -> Seq<u8> {
        self.bytes@
    }

    pub open spec fn state(&self) -> LexState {
        LexState {
            pos: self.pos,
            in_tag: self.in_tag,
            tag_start: self.tag_start,
            finished: self.finished,
        }
    }

    /// Everything that `wf` asks but that the position starts a character.
    pub open spec fn wf_base(&self) -> bool {
        &&& self.bytes@ == self.source.spec_bytes()
        &&& self.pos <= self.bytes@.len()
        &&& self.bytes@.len() <= usize::MAX
        &&& self.finished ==> !self.in_tag
        &&& !self.in_tag ==> self.tag_start == 0
    }

    pub open spec fn wf(&self) -> bool {
        &&& self.wf_base()
        &&& starts_char(self.bytes@, self.pos as int)
    }

    pub fn new(source: &'src str) -> (t: Self)
        ensures
            t.wf(),
            t.state() == initial_state(),
            t.b() == source.spec_bytes(),
    {
        let bytes = source.as_bytes();
        let _ = bytes.len();
        proof {
            lemma_first_starts_char(bytes@);
        }
        Tokenizer { source, bytes, pos: 0, in_tag: false, tag_start: 0, finished: false }
    }

    fn slice(&self, start: usize, end: usize) -> (r: &'src str)
        requires
            self.bytes@ == self.source.spec_bytes(),
            start <= end <= self.b().len(),
            starts_char(self.b(), start as int),
            starts_char(self.b(), end as int),
        ensures
            r@ == text_at(self.b(), start as int, end as int),
    {
        slice_str(self.source, start, end)
    }

    fn step_ascii(&mut self)
        requires
            old(self).wf(),
            old(self).pos < old(self).b().len(),
            old(self).b()[old(self).pos as int] < 0x80,
        ensures
            final(self).wf(),
            final(self).pos == old(self).pos + 1,
            final(self).source == old(self).source,
            final(self).bytes == old(self).bytes,
            final(self).in_tag == old(self).in_tag,
            final(self).tag_start == old(self).tag_start,
            final(self).finished == old(self).finished,
    {
        proof {
            lemma_after_ascii(self.b(), self.pos as int);
        }
        self.pos = self.pos + 1;
    }

    fn skip_whitespace(&mut self)
        requires
            old(self).wf(),
        ensures
            final(self).wf(),
            final(self).pos == space_end(old(self).b(), old(self).pos as int),
            final(self).source == old(self).source,
            final(self).bytes == old(self).bytes,
            final(self).in_tag == old(self).in_tag,
            final(self).tag_start == old(self).tag_start,
            final(self).finished == old(self).finished,
    {
        while self.pos < self.bytes.len() && is_whitespace(self.bytes[self.pos])
            invariant
                self.wf(),
                space_end(old(self).b(), old(self).pos as int) == space_end(self.b(), self.pos as int),
                self.source == old(self).source,
                self.bytes == old(self).bytes,
                self.in_tag == old(self).in_tag,
                self.tag_start == old(self).tag_start,
                self.finished == old(self).finished,
            decreases self.b().len() - self.pos,
        {
            self.step_ascii();
        }
    }

    fn parse_name(&mut self) -> (r: &'src str)
        requires
            old(self).wf(),
        ensures
            final(self).wf(),
            final(self).pos == name_end(old(self).b(), old(self).pos as int),
            r@ == text_at(final(self).b(), old(self).pos as int, final(self).pos as int),
            final(self).source == old(self).source,
            final(self).bytes == old(self).bytes,
            final(self).in_tag == old(self).in_tag,
            final(self).tag_start == old(self).tag_start,
            final(self).finished == old(self).finished,
    {
        let start = self.pos;
        while self.pos < self.bytes.len() && is_name_char(self.bytes[self.pos])
            invariant
                self.wf(),
                start <= self.pos,
                name_end(old(self).b(), start as int) == name_end(self.b(), self.pos as int),
                start == old(self).pos,
                self.source == old(self).source,
                self.bytes == old(self).bytes,
                self.in_tag == old(self).in_tag,
                self.tag_start == old(self).tag_start,
                self.finished == old(self).finished,
            decreases self.b().len() - self.pos,
        {
            self.step_ascii();
        }
        self.slice(start, self.pos)
    }

    fn current_is(&self, byte: u8) -> (r: bool)
        ensures
            r == (self.pos < self.b().len() && self.b()[self.pos as int] == byte),
    {
        self.pos < self.bytes.len() && self.bytes[self.pos] == byte
    }

    fn span_at_current(&self) -> (r: Span)
        requires
            self.pos <= self.b().len(),
        ensures
            r == span_at(self.b(), self.pos as int),
    {
        let end = if self.pos < self.bytes.len() {
            self.pos + 1
        } else {
            self.bytes.len()
        };
        Span { start: self.pos, end }
    }

    fn starts_with(&self, pattern: &[u8]) -> (r: bool)
        requires
            self.pos <= self.b().len(),
        ensures
            r == starts_with_at(self.b(), self.pos as int, pattern@),
    {
        if pattern.len() > self.bytes.len() - self.pos {
            return false;
        }
        window_matches(self.bytes, self.pos, pattern)
    }

    fn starts_with_ascii_case_insensitive(&self, pattern: &[u8]) -> (r: bool)
        requires
            self.pos <= self.b().len(),
            self.b().len() <= usize::MAX,
        ensures
            r == starts_with_ignore_case_at(self.b(), self.pos as int, pattern@),
    {
        if pattern.len() > self.bytes.len() - self.pos {
            return false;
        }
        let mut j: usize = 0;
        while j < pattern.len()
            invariant
                j <= pattern@.len(),
                self.b().len() <= usize::MAX,
                self.pos + pattern@.len() <= self.b().len(),
                forall|k: int|
                    0 <= k < j ==> ascii_lower(#[trigger] self.b()[self.pos + k]) == ascii_lower(
                        pattern@[k],
                    ),
            decreases pattern@.len() - j,
        {
            let a = self.bytes[self.pos + j];
            let c = pattern[j];
            let la = if 0x41 <= a && a <= 0x5a {
                a + 0x20
            } else {
                a
            };
            let lc = if 0x41 <= c && c <= 0x5a {
                c + 0x20
            } else {
                c
            };
            if la != lc {
                assert(ascii_lower(self.b()[self.pos + j]) != ascii_lower(pattern@[j as int]));
                return false;
            }
            j = j + 1;
        }
        true
    }

    /// Where `needle` next occurs at or after the current position.
    fn find_ahead(&self, needle: &[u8]) -> (r: Option<usize>)
        requires
            self.pos <= self.b().len(),
            self.b().len() <= usize::MAX,
        ensures
            r == find_result(find_from(self.b(), self.pos as int, needle@)),
    {
        let (_, tail) = self.bytes.split_at(self.pos);
        proof {
            lemma_find_shift(self.b(), self.pos as int, 0, needle@);
            assert(tail@ =~= self.b().subrange(self.pos as int, self.b().len() as int));
        }
        match find_bytes(tail, needle) {
            Some(rel) => {
                proof {
                    lemma_find_bounds(self.b(), self.pos as int, needle@);
                }
                Some(self.pos + rel)
            },
            None => None,
        }
    }
}

proof fn lemma_find_bounds(b: Seq<u8>, p: int, needle: Seq<u8>)
    ensures
        find_from(b, p, needle) matches Some(i) ==> p <= i && i + needle.len() <= b.len()
            && b.subrange(i, i + needle.len()) == needle,
    decreases b.len() - p,
{
    if p < 0 || p + needle.len() > b.len() {
    } else if b.subrange(p, p + needle.len()) == needle {
    } else if p >= b.len() {
    } else {
        lemma_find_bounds(b, p + 1, needle);
    }
}


/// An attribute value and where it was found.
struct ParsedAttributeValue<'src> {
    value: &'src str,
    span: Span,
    quote: QuoteKind,
}

impl<'src> Tokenizer<'src> {
    fn parse_quoted_attribute_value<E>(&mut self, quote_byte: u8, quote: QuoteKind) -> (r: Result<
        ParsedAttributeValue<'src>,
        ParseError<E>,
    >)
        requires
            old(self).wf(),
            old(self).pos < old(self).b().len(),
            old(self).b()[old(self).pos as int] == quote_byte,
            quote_byte < 0x80,
        ensures
            ({
                let b = old(self).b();
                let v = old(self).pos as int;
                let qe = quote_end(b, v + 1, quote_byte);
                &&& final(self).source == old(self).source
                &&& final(self).bytes == old(self).bytes
                &&& final(self).in_tag == old(self).in_tag
                &&& final(self).tag_start == old(self).tag_start
                &&& final(self).finished == old(self).finished
                &&& (qe >= b.len()) == (r is Err)
                &&& r matches Err(e) ==> e == ParseError::<E>::UnclosedQuote {
                    quote,
                    span: span_of(v + 1, qe),
                }
                &&& r matches Ok(parsed) ==> {
                    &&& parsed.value@ == text_at(b, v + 1, qe)
                    &&& parsed.span == span_of(v + 1, qe)
                    &&& parsed.quote == quote
                    &&& final(self).pos == qe + 1
                    &&& final(self).wf()
                }
            }),
    {
        self.step_ascii();
        let value_start = self.pos;
        let ghost b = self.b();
        while self.pos < self.bytes.len() && self.bytes[self.pos] != quote_byte
            invariant
                value_start <= self.pos <= b.len(),
                b == self.b(),
                b.len() <= usize::MAX,
                quote_end(b, value_start as int, quote_byte) == quote_end(b, self.pos as int, quote_byte),
                self.source == old(self).source,
                self.bytes == old(self).bytes,
                self.in_tag == old(self).in_tag,
                self.tag_start == old(self).tag_start,
                self.finished == old(self).finished,
            decreases b.len() - self.pos,
        {
            self.pos = self.pos + 1;
        }
        if self.pos >= self.bytes.len() {
            return Err(ParseError::UnclosedQuote { quote, span: Span { start: value_start, end: self.pos } });
        }
        let value_end = self.pos;
        let value = self.slice(value_start, value_end);
        self.step_ascii();
        Ok(ParsedAttributeValue { value, span: Span { start: value_start, end: value_end }, quote })
    }

    fn parse_unquoted_attribute_value(&mut self) -> (r: ParsedAttributeValue<'src>)
        requires
            old(self).wf(),
        ensures
            final(self).wf(),
            final(self).pos == unquoted_end(old(self).b(), old(self).pos as int),
            r.value@ == text_at(old(self).b(), old(self).pos as int, final(self).pos as int),
            r.span == span_of(old(self).pos as int, final(self).pos as int),
            r.quote == QuoteKind::Unquoted,
            final(self).source == old(self).source,
            final(self).bytes == old(self).bytes,
            final(self).in_tag == old(self).in_tag,
            final(self).tag_start == old(self).tag_start,
            final(self).finished == old(self).finished,
    {
        let value_start = self.pos;
        let ghost b = self.b();
        while self.pos < self.bytes.len() && !is_whitespace(self.bytes[self.pos])
            && self.bytes[self.pos] != 0x3e && self.bytes[self.pos] != 0x2f
            invariant
                value_start <= self.pos <= b.len(),
                b == self.b(),
                b.len() <= usize::MAX,
                unquoted_end(b, value_start as int) == unquoted_end(b, self.pos as int),
                self.source == old(self).source,
                self.bytes == old(self).bytes,
                self.in_tag == old(self).in_tag,
                self.tag_start == old(self).tag_start,
                self.finished == old(self).finished,
            decreases b.len() - self.pos,
        {
            self.pos = self.pos + 1;
        }
        let value = self.slice(value_start, self.pos);
        ParsedAttributeValue {
            value,
            span: Span { start: value_start, end: self.pos },
            quote: QuoteKind::Unquoted,
        }
    }

    fn parse_attribute<E>(&mut self) -> (r: Result<Option<Token<'src>>, ParseError<E>>)
        requires
            old(self).wf(),
            old(self).in_tag,
            !old(self).finished,
        ensures
            step_matches(
                lex_attribute::<E>(old(self).b(), old(self).pos as int, old(self).tag_start),
                r,
                final(self).state(),
            ),
            r is Ok ==> final(self).wf(),
            final(self).source == old(self).source,
            final(self).bytes == old(self).bytes,
    {
        let attr_start = self.pos;
        let name = self.parse_name();
        let name_end = self.pos;
        if name_end == attr_start {
            return Err(ParseError::ExpectedAttributeName { span: Span { start: attr_start, end: attr_start } });
        }
        self.skip_whitespace();
        let name_span = Span { start: attr_start, end: name_end };
        if !self.current_is(0x3d) {
            return Ok(Some(Token::Attribute(Attribute {
                name,
                value: None,
                span: Span { start: attr_start, end: self.pos },
                name_span,
                value_span: None,
                quote: None,
            })));
        }
        self.step_ascii();
        self.skip_whitespace();
        if self.pos >= self.bytes.len() {
            return Err(ParseError::UnexpectedEof { span: Span { start: self.pos, end: self.pos } });
        }
        let c = self.bytes[self.pos];
        let parsed = if c == 0x22 {
            match self.parse_quoted_attribute_value(0x22, QuoteKind::Double) {
                Ok(parsed) => parsed,
                Err(e) => return Err(e),
            }
        } else if c == 0x27 {
            match self.parse_quoted_attribute_value(0x27, QuoteKind::Single) {
                Ok(parsed) => parsed,
                Err(e) => return Err(e),
            }
        } else {
            self.parse_unquoted_attribute_value()
        };
        Ok(Some(Token::Attribute(Attribute {
            name,
            value: Some(parsed.value),
            span: Span { start: attr_start, end: self.pos },
            name_span,
            value_span: Some(parsed.span),
            quote: Some(parsed.quote),
        })))
    }
}

impl<'src> Tokenizer<'src> {
    fn parse_in_tag<E>(&mut self) -> (r: Result<Option<Token<'src>>, ParseError<E>>)
        requires
            old(self).wf(),
            old(self).in_tag,
            !old(self).finished,
        ensures
            step_matches(lex_in_tag::<E>(old(self).b(), old(self).state()), r, final(self).state()),
            r is Ok ==> final(self).wf(),
            final(self).source == old(self).source,
            final(self).bytes == old(self).bytes,
    {
        self.skip_whitespace();
        if self.pos >= self.bytes.len() {
            return Err(ParseError::UnexpectedEof { span: Span { start: self.pos, end: self.pos } });
        }
        let c = self.bytes[self.pos];
        if c == 0x3e || c == 0x2f {
            let self_closing = c == 0x2f;
            if self_closing {
                self.step_ascii();
            }
            if !self.current_is(0x3e) {
                return Err(ParseError::ExpectedGt { span: self.span_at_current() });
            }
            self.step_ascii();
            let span = Span { start: self.tag_start, end: self.pos };
            self.in_tag = false;
            self.tag_start = 0;
            return Ok(Some(Token::FinishStartElement(FinishStartElement { self_closing, span })));
        }
        self.parse_attribute()
    }

    /// Reads up to and past `close`, starting at the current position; the construct
    /// began one byte before `start` (its `<`).
    fn scan_delimited<E>(&mut self, close: &[u8]) -> (r: Option<(usize, usize)>)
        requires
            old(self).wf(),
            close@.len() > 0,
            close@.last() < 0x80,
            close@[0] < 0x80,
        ensures
            final(self).source == old(self).source,
            final(self).bytes == old(self).bytes,
            final(self).in_tag == old(self).in_tag,
            final(self).tag_start == old(self).tag_start,
            final(self).finished == old(self).finished,
            match find_from(old(self).b(), old(self).pos as int, close@) {
                None => r is None && final(self).pos == old(self).pos,
                Some(ve) => r == Some((old(self).pos, ve as usize)) && final(self).pos == ve
                    + close@.len() && final(self).wf() && starts_char(final(self).b(), ve)
                    && old(self).pos <= ve && ve + close@.len() <= old(self).b().len()
                    && starts_char(old(self).b(), old(self).pos as int),
            },
    {
        let ghost b = self.b();
        match self.find_ahead(close) {
            None => None,
            Some(value_end) => {
                proof {
                    lemma_find_bounds(b, self.pos as int, close@);
                    assert(b.subrange(value_end as int, value_end + close@.len())[0] == close@[0]);
                    let last = value_end + close@.len() - 1;
                    assert(b.subrange(value_end as int, value_end + close@.len())[close@.len()
                        - 1] == close@.last());
                    assert(b[last] == close@.last());
                    lemma_after_ascii(b, last);
                }
                let value_start = self.pos;
                self.pos = value_end + close.len();
                Some((value_start, value_end))
            },
        }
    }

    fn parse_processing_instruction<E>(&mut self) -> (r: Result<Option<Token<'src>>, ParseError<E>>)
        requires
            old(self).wf(),
            !old(self).in_tag,
            !old(self).finished,
            1 <= old(self).pos < old(self).b().len(),
            old(self).b()[old(self).pos as int] == 0x3f,
        ensures
            step_matches(
                lex_delimited::<E>(old(self).b(), old(self).pos - 1, old(self).pos + 1, pi_close(), 0),
                r,
                final(self).state(),
            ),
            r is Ok ==> final(self).wf(),
            final(self).source == old(self).source,
            final(self).bytes == old(self).bytes,
    {
        let start = self.pos - 1;
        self.step_ascii();
        let close: [u8; 2] = [0x3f, 0x3e];
        assert(close@ =~= pi_close());
        match self.scan_delimited::<E>(close.as_slice()) {
            None => Err(ParseError::ExpectedProcessingInstructionEnd { span: Span { start, end: self.pos } }),
            Some((value_start, value_end)) => {
                let value = self.slice(value_start, value_end);
                Ok(Some(Token::ProcessingInstruction(ProcessingInstruction {
                    value,
                    span: Span { start, end: self.pos },
                })))
            },
        }
    }

    fn parse_comment<E>(&mut self) -> (r: Result<Option<Token<'src>>, ParseError<E>>)
        requires
            old(self).wf(),
            !old(self).in_tag,
            !old(self).finished,
            1 <= old(self).pos,
            starts_with_at(old(self).b(), old(self).pos as int, comment_open()),
        ensures
            step_matches(
                lex_delimited::<E>(old(self).b(), old(self).pos - 1, old(self).pos + 3, comment_close(), 1),
                r,
                final(self).state(),
            ),
            r is Ok ==> final(self).wf(),
            final(self).source == old(self).source,
            final(self).bytes == old(self).bytes,
    {
        let ghost b = self.b();
        let ghost p = self.pos as int;
        assert(b[p] == b.subrange(p, p + 3)[0]);
        assert(b[p + 1] == b.subrange(p, p + 3)[1]);
        assert(b[p + 2] == b.subrange(p, p + 3)[2]);
        let start = self.pos - 1;
        self.step_ascii();
        self.step_ascii();
        self.step_ascii();
        let close: [u8; 3] = [0x2d, 0x2d, 0x3e];
        assert(close@ =~= comment_close());
        match self.scan_delimited::<E>(close.as_slice()) {
            None => Err(ParseError::ExpectedCommentEnd { span: Span { start, end: self.pos } }),
            Some((value_start, value_end)) => {
                let value = self.slice(value_start, value_end);
                Ok(Some(Token::Comment(Comment { value, span: Span { start, end: self.pos } })))
            },
        }
    }

    fn parse_cdata<E>(&mut self) -> (r: Result<Option<Token<'src>>, ParseError<E>>)
        requires
            old(self).wf(),
            !old(self).in_tag,
            !old(self).finished,
            1 <= old(self).pos,
            starts_with_at(old(self).b(), old(self).pos as int, cdata_open()),
        ensures
            step_matches(
                lex_delimited::<E>(old(self).b(), old(self).pos - 1, old(self).pos + 8, cdata_close(), 2),
                r,
                final(self).state(),
            ),
            r is Ok ==> final(self).wf(),
            final(self).source == old(self).source,
            final(self).bytes == old(self).bytes,
    {
        let ghost b = self.b();
        let ghost p = self.pos as int;
        assert(b[p + 7] == b.subrange(p, p + 8)[7]);
        let start = self.pos - 1;
        proof {
            lemma_after_ascii(b, p + 7);
        }
        self.pos = self.pos + 8;
        let close: [u8; 3] = [0x5d, 0x5d, 0x3e];
        assert(close@ =~= cdata_close());
        match self.scan_delimited::<E>(close.as_slice()) {
            None => Err(ParseError::ExpectedCDataEnd { span: Span { start, end: self.pos } }),
            Some((value_start, value_end)) => {
                let value = self.slice(value_start, value_end);
                Ok(Some(Token::CData(CData { value, span: Span { start, end: self.pos } })))
            },
        }
    }

    fn parse_doctype<E>(&mut self) -> (r: Result<Option<Token<'src>>, ParseError<E>>)
        requires
            old(self).wf(),
            !old(self).in_tag,
            !old(self).finished,
            1 <= old(self).pos,
            starts_with_ignore_case_at(old(self).b(), old(self).pos as int, doctype_open()),
        ensures
            step_matches(
                match doctype_end(old(self).b(), old(self).pos + 8, None) {
                    None => LexStep::<E>::Fail(
                        ParseError::UnexpectedEof {
                            span: span_of(old(self).pos - 1, old(self).b().len() as int),
                        },
                    ),
                    Some(ve) => LexStep::Emit(
                        SvgEvent::Doctype {
                            value: crate::text::trim_chars(text_at(old(self).b(), old(self).pos + 8, ve)),
                            span: span_of(old(self).pos - 1, ve + 1),
                        },
                        content_state(ve + 1),
                    ),
                },
                r,
                final(self).state(),
            ),
            r is Ok ==> final(self).wf(),
            final(self).source == old(self).source,
            final(self).bytes == old(self).bytes,
    {
        let ghost b = self.b();
        let ghost p = self.pos as int;
        assert(ascii_lower(b[p + 7]) == ascii_lower(doctype_open()[7]));
        let start = self.pos - 1;
        proof {
            lemma_after_ascii(b, p + 7);
        }
        self.pos = self.pos + 8;
        let value_start = self.pos;
        let mut quote: Option<u8> = None;
        while self.pos < self.bytes.len()
            invariant
                value_start <= self.pos <= b.len(),
                b == self.b(),
                b.len() <= usize::MAX,
                starts_char(b, value_start as int),
                value_start == p + 8,
                start == p - 1,
                p == old(self).pos,
                !self.in_tag,
                !self.finished,
                self.wf_base(),
                doctype_end(b, value_start as int, None) == doctype_end(b, self.pos as int, quote),
                self.source == old(self).source,
                self.bytes == old(self).bytes,
                self.in_tag == old(self).in_tag,
                self.finished == old(self).finished,
            decreases b.len() - self.pos,
        {
            let byte = self.bytes[self.pos];
            match quote {
                Some(open) => {
                    if byte == open {
                        quote = None;
                    }
                },
                None => {
                    if byte == 0x22 || byte == 0x27 {
                        quote = Some(byte);
                    } else if byte == 0x3e {
                        let value_end = self.pos;
                        assert(doctype_end(b, self.pos as int, None) == Some(self.pos as int));
                        assert(doctype_end(b, value_start as int, None) == Some(value_end as int));
                        assert(b == old(self).b());
                        assert(value_start == old(self).pos + 8);
                        let value = trim_str(self.slice(value_start, value_end));
                        self.step_ascii();
                        assert(self.state() == content_state(value_end + 1));
                        return Ok(Some(Token::Doctype(Doctype { value, span: Span { start, end: self.pos } })));
                    }
                },
            }
            self.pos = self.pos + 1;
        }
        Err(ParseError::UnexpectedEof { span: Span { start, end: self.pos } })
    }

    fn parse_closing_tag<E>(&mut self) -> (r: Result<Option<Token<'src>>, ParseError<E>>)
        requires
            old(self).wf(),
            !old(self).in_tag,
            !old(self).finished,
            1 <= old(self).pos < old(self).b().len(),
            old(self).b()[old(self).pos as int] == 0x2f,
        ensures
            step_matches(
                ({
                    let b = old(self).b();
                    let p = old(self).pos as int;
                    let q = p + 1;
                    let ne = name_end(b, q);
                    if ne == q {
                        LexStep::<E>::Fail(ParseError::ExpectedTagName { span: span_of(q, q) })
                    } else {
                        let w = crate::lexer_spec::space_end(b, ne);
                        if w < b.len() && b[w] == 0x3e {
                            LexStep::Emit(
                                SvgEvent::EndElement {
                                    name: text_at(b, q, ne),
                                    span: span_of(p - 1, w + 1),
                                    name_span: span_of(q, ne),
                                },
                                content_state(w + 1),
                            )
                        } else {
                            LexStep::Fail(ParseError::ExpectedGt { span: span_at(b, w) })
                        }
                    }
                }),
                r,
                final(self).state(),
            ),
            r is Ok ==> final(self).wf(),
            final(self).source == old(self).source,
            final(self).bytes == old(self).bytes,
    {
        let tag_start = self.pos - 1;
        self.step_ascii();
        let name_start = self.pos;
        let name = self.parse_name();
        let name_end = self.pos;
        if name_end == name_start {
            return Err(ParseError::ExpectedTagName { span: Span { start: name_start, end: name_start } });
        }
        self.skip_whitespace();
        if !self.current_is(0x3e) {
            return Err(ParseError::ExpectedGt { span: self.span_at_current() });
        }
        self.step_ascii();
        Ok(Some(Token::EndElement(EndElement {
            name,
            span: Span { start: tag_start, end: self.pos },
            name_span: Span { start: name_start, end: name_end },
        })))
    }

    fn parse_opening_tag<E>(&mut self) -> (r: Result<Option<Token<'src>>, ParseError<E>>)
        requires
            old(self).wf(),
            !old(self).in_tag,
            !old(self).finished,
            1 <= old(self).pos < old(self).b().len(),
            is_name_byte(old(self).b()[old(self).pos as int]),
        ensures
            ({
                let b = old(self).b();
                let p = old(self).pos as int;
                let ne = name_end(b, p);
                step_matches(
                    LexStep::<E>::Emit(
                        SvgEvent::StartElement {
                            name: text_at(b, p, ne),
                            span: span_of(p - 1, ne),
                            name_span: span_of(p, ne),
                        },
                        LexState { pos: ne as usize, in_tag: true, tag_start: (p - 1) as usize, finished: false },
                    ),
                    r,
                    final(self).state(),
                )
            }),
            r is Ok ==> final(self).wf(),
            final(self).source == old(self).source,
            final(self).bytes == old(self).bytes,
    {
        let tag_start = self.pos - 1;
        let name_start = self.pos;
        let name = self.parse_name();
        let name_end = self.pos;
        self.in_tag = true;
        self.tag_start = tag_start;
        Ok(Some(Token::StartElement(StartElement {
            name,
            span: Span { start: tag_start, end: name_end },
            name_span: Span { start: name_start, end: name_end },
        })))
    }
}

impl<'src> Tokenizer<'src> {
    /// Reads what follows a `<`; the position is just after it.
    fn parse_tag<E>(&mut self) -> (r: Result<Option<Token<'src>>, ParseError<E>>)
        requires
            old(self).wf(),
            !old(self).in_tag,
            !old(self).finished,
            1 <= old(self).pos,
        ensures
            step_matches(lex_tag::<E>(old(self).b(), old(self).pos as int), r, final(self).state()),
            r is Ok ==> final(self).wf(),
            final(self).source == old(self).source,
            final(self).bytes == old(self).bytes,
    {
        if self.pos >= self.bytes.len() {
            return Err(ParseError::UnexpectedEof { span: Span { start: self.pos, end: self.pos } });
        }
        let c = self.bytes[self.pos];
        let comment: [u8; 3] = [0x21, 0x2d, 0x2d];
        let cdata: [u8; 8] = [0x21, 0x5b, 0x43, 0x44, 0x41, 0x54, 0x41, 0x5b];
        let doctype: [u8; 8] = [0x21, 0x44, 0x4f, 0x43, 0x54, 0x59, 0x50, 0x45];
        assert(comment@ =~= comment_open());
        assert(cdata@ =~= cdata_open());
        assert(doctype@ =~= doctype_open());
        if c == 0x3f {
            self.parse_processing_instruction()
        } else if c == 0x21 && self.starts_with(comment.as_slice()) {
            self.parse_comment()
        } else if c == 0x21 && self.starts_with(cdata.as_slice()) {
            self.parse_cdata()
        } else if c == 0x21 && self.starts_with_ascii_case_insensitive(doctype.as_slice()) {
            self.parse_doctype()
        } else if c == 0x2f {
            self.parse_closing_tag()
        } else if is_name_char(c) {
            self.parse_opening_tag()
        } else {
            Err(ParseError::UnexpectedCharacter { byte: Some(c), span: self.span_at_current() })
        }
    }

    /// Reads between tags: the next text, tag or the end of the document.
    fn parse_content<E>(&mut self) -> (r: Result<Option<Token<'src>>, ParseError<E>>)
        requires
            old(self).wf(),
            !old(self).in_tag,
            !old(self).finished,
        ensures
            step_matches(lex_content::<E>(old(self).b(), old(self).pos as int), r, final(self).state()),
            r is Ok ==> final(self).wf(),
            final(self).source == old(self).source,
            final(self).bytes == old(self).bytes,
    {
        let ghost b = self.b();
        loop
            invariant
                self.wf(),
                b == self.b(),
                !self.in_tag,
                !self.finished,
                self.source == old(self).source,
                self.bytes == old(self).bytes,
                lex_content::<E>(b, old(self).pos as int) == lex_content::<E>(b, self.pos as int),
            decreases b.len() - self.pos,
        {
            if self.pos >= self.bytes.len() {
                self.finished = true;
                return Ok(Some(Token::FinishDocument));
            }
            if self.bytes[self.pos] == 0x3c {
                self.step_ascii();
                return self.parse_tag();
            }
            match self.parse_text() {
                Some(text) => {
                    return Ok(Some(Token::Text(text)));
                },
                None => {},
            }
        }
    }

    /// Reads text up to the next `<`; `None` when the text holds only spaces.
    fn parse_text(&mut self) -> (r: Option<Text<'src>>)
        requires
            old(self).wf(),
            old(self).pos < old(self).b().len(),
            old(self).b()[old(self).pos as int] != 0x3c,
        ensures
            final(self).wf(),
            final(self).source == old(self).source,
            final(self).bytes == old(self).bytes,
            final(self).in_tag == old(self).in_tag,
            final(self).tag_start == old(self).tag_start,
            final(self).finished == old(self).finished,
            ({
                let b = old(self).b();
                let p = old(self).pos as int;
                let te = text_end(b, p);
                &&& final(self).pos == te
                &&& p < te <= b.len()
                &&& r is None <==> all_space(b, p, te)
                &&& r matches Some(t) ==> t@ == SvgEvent::Text {
                    value: text_at(b, p, te),
                    span: span_of(p, te),
                }
            }),
    {
        let ghost b = self.b();
        let start = self.pos;
        self.pos = self.pos + 1;
        while self.pos < self.bytes.len() && self.bytes[self.pos] != 0x3c
            invariant
                self.wf_base(),
                b == self.b(),
                start < self.pos <= b.len(),
                start == old(self).pos,
                starts_char(b, start as int),
                text_end(b, start as int) == text_end(b, self.pos as int),
                self.source == old(self).source,
                self.bytes == old(self).bytes,
                self.in_tag == old(self).in_tag,
                self.tag_start == old(self).tag_start,
                self.finished == old(self).finished,
            decreases b.len() - self.pos,
        {
            self.pos = self.pos + 1;
        }
        let end = self.pos;
        assert(starts_char(b, end as int));
        let mut i = start;
        while i < end
            invariant
                start <= i <= end <= b.len(),
                b == self.b(),
                self.wf(),
                self.pos == end,
                start == old(self).pos,
                starts_char(b, start as int),
                text_end(b, start as int) == end as int,
                start < end,
                self.source == old(self).source,
                self.bytes == old(self).bytes,
                self.in_tag == old(self).in_tag,
                self.tag_start == old(self).tag_start,
                self.finished == old(self).finished,
                all_space(b, start as int, i as int),
            decreases end - i,
        {
            if !is_whitespace(self.bytes[i]) {
                let value = self.slice(start, end);
                return Some(Text { value, span: Span { start, end } });
            }
            i = i + 1;
        }
        None
    }

    /// Reads the next event, or reports the syntax error that stops the document.
    pub fn next_event<E>(&mut self) -> (r: Result<Option<Token<'src>>, ParseError<E>>)
        requires
            old(self).wf(),
        ensures
            step_matches(lex_next::<E>(old(self).b(), old(self).state()), r, final(self).state()),
            r is Ok ==> final(self).wf(),
            final(self).source == old(self).source,
            final(self).bytes == old(self).bytes,
    {
        if self.finished {
            Ok(None)
        } else if self.in_tag {
            self.parse_in_tag()
        } else {
            self.parse_content()
        }
    }
}
} // verus!
