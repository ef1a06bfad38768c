use vstd::prelude::*;

use crate::error::ParseError;
use crate::events::{QuoteKind, Span, SvgEvent};
use crate::text::{text_at, trim_chars};

verus! {

/// Bytes that may appear in tag and attribute names: ASCII letters and digits, `:`, `_` and `-`.
pub open spec fn is_name_byte(c: u8) -> bool {
    ||| 0x30 <= c <= 0x39
    ||| 0x41 <= c <= 0x5a
    ||| 0x61 <= c <= 0x7a
    ||| c == 0x3a
    ||| c == 0x5f
    ||| c == 0x2d
}

/// Space, tab, carriage return and line feed.
pub open spec fn is_space_byte(c: u8) -> bool {
    c == 0x20 || c == 0x09 || c == 0x0d || c == 0x0a
}

/// The first index at or after `p` that does not hold a name byte.
pub open spec fn name_end(b: Seq<u8>, p: int) -> int
    decreases b.len() - p,
{
    if 0 <= p < b.len() && is_name_byte(b[p]) {
        name_end(b, p + 1)
    } else {
        p
    }
}

/// The first index at or after `p` that does not hold a space byte.
pub open spec fn space_end(b: Seq<u8>, p: int) -> int
    decreases b.len() - p,
{
    if 0 <= p < b.len() && is_space_byte(b[p]) {
        space_end(b, p + 1)
    } else {
        p
    }
}

/// The first index at or after `p` that holds `<`, or the length of `b`.
pub open spec fn text_end(b: Seq<u8>, p: int) -> int
    decreases b.len() - p,
{
    if 0 <= p < b.len() && b[p] != 0x3c {
        text_end(b, p + 1)
    } else {
        p
    }
}

/// The end of an unquoted attribute value: the first space, `>` or `/` at or after `p`.
pub open spec fn unquoted_end(b: Seq<u8>, p: int) -> int
    decreases b.len() - p,
{
    if 0 <= p < b.len() && !is_space_byte(b[p]) && b[p] != 0x3e && b[p] != 0x2f {
        unquoted_end(b, p + 1)
    } else {
        p
    }
}

/// The first index at or after `p` that holds the byte `q`, or the length of `b`.
pub open spec fn quote_end(b: Seq<u8>, p: int, q: u8) -> int
    decreases b.len() - p,
{
    if 0 <= p < b.len() && b[p] != q {
        quote_end(b, p + 1, q)
    } else {
        p
    }
}

/// The first index at or after `p` where `needle` occurs in `b`.
pub open spec fn find_from(b: Seq<u8>, p: int, needle: Seq<u8>) -> Option<int>
    decreases b.len() - p,
{
    if p < 0 || p + needle.len() > b.len() {
        None
    } else if b.subrange(p, p + needle.len()) == needle {
        Some(p)
    } else if p >= b.len() {
        None
    } else {
        find_from(b, p + 1, needle)
    }
}

/// The index of the `>` that ends a doctype, skipping `>` inside quotes; `q` is the open quote.
pub open spec fn doctype_end(b: Seq<u8>, p: int, q: Option<u8>) -> Option<int>
    decreases b.len() - p,
{
    if p < 0 || p >= b.len() {
        None
    } else {
        let c = b[p];
        if q is Some && c == q->0 {
            doctype_end(b, p + 1, None)
        } else if q is None && (c == 0x22 || c == 0x27) {
            doctype_end(b, p + 1, Some(c))
        } else if q is None && c == 0x3e {
            Some(p)
        } else {
            doctype_end(b, p + 1, q)
        }
    }
}

pub open spec fn ascii_lower(c: u8) -> u8 {
    if 0x41 <= c <= 0x5a {
        (c + 0x20) as u8
    } else {
        c
    }
}

pub open spec fn starts_with_at(b: Seq<u8>, p: int, pat: Seq<u8>) -> bool {
    0 <= p && p + pat.len() <= b.len() && b.subrange(p, p + pat.len()) == pat
}

pub open spec fn starts_with_ignore_case_at(b: Seq<u8>, p: int, pat: Seq<u8>) -> bool {
    &&& 0 <= p
    &&& p + pat.len() <= b.len()
    &&& forall|i: int| 0 <= i < pat.len() ==> ascii_lower(#[trigger] b[p + i]) == ascii_lower(pat[i])
}

pub open spec fn all_space(b: Seq<u8>, start: int, end: int) -> bool {
    forall|i: int| start <= i < end ==> is_space_byte(#[trigger] b[i])
}

/// `<!--`, without its `<`.
pub open spec fn comment_open() -> Seq<u8> {
    seq![0x21u8, 0x2d, 0x2d]
}

pub open spec fn comment_close() -> Seq<u8> {
    seq![0x2du8, 0x2d, 0x3e]
}

/// `<![CDATA[`, without its `<`.
pub open spec fn cdata_open() -> Seq<u8> {
    seq![0x21u8, 0x5b, 0x43, 0x44, 0x41, 0x54, 0x41, 0x5b]
}

pub open spec fn cdata_close() -> Seq<u8> {
    seq![0x5du8, 0x5d, 0x3e]
}

/// `<!DOCTYPE`, without its `<`.
pub open spec fn doctype_open() -> Seq<u8> {
    seq![0x21u8, 0x44, 0x4f, 0x43, 0x54, 0x59, 0x50, 0x45]
}

pub open spec fn pi_close() -> Seq<u8> {
    seq![0x3fu8, 0x3e]
}

pub open spec fn span_of(start: int, end: int) -> Span {
    Span { start: start as usize, end: end as usize }
}

/// The span of the byte at `p`, or the empty span at the end of the input.
pub open spec fn span_at(b: Seq<u8>, p: int) -> Span {
    span_of(p, if p + 1 <= b.len() { p + 1 } else { b.len() as int })
}

/// Where the reader stands: a byte offset, whether it is inside a start tag (and where
/// that tag began), and whether the end of the document has been reported.
#[derive(Debug, Clone, Copy)]
pub struct LexState {
    pub pos: usize,
    pub in_tag: bool,
    pub tag_start: usize,
    pub finished: bool,
}

pub open spec fn content_state(pos: int) -> LexState {
    LexState { pos: pos as usize, in_tag: false, tag_start: 0, finished: false }
}

pub open spec fn initial_state() -> LexState {
    content_state(0)
}

/// One step of reading: the next event and the state after it, a syntax error, or the end.
pub enum LexStep<E> {
    Emit(SvgEvent, LexState),
    Fail(ParseError<E>),
    Done,
}

/// Reads one attribute that starts at `p`, inside the start tag that began at `tag_start`.
pub open spec fn lex_attribute<E>(b: Seq<u8>, p: int, tag_start: usize) -> LexStep<E> {
    let ne = name_end(b, p);
    if ne == p {
        LexStep::Fail(ParseError::ExpectedAttributeName { span: span_of(p, p) })
    } else {
        let name = text_at(b, p, ne);
        let w = space_end(b, ne);
        let in_tag = |pos: int| LexState { pos: pos as usize, in_tag: true, tag_start, finished: false };
        if w < b.len() && b[w] == 0x3d {
            let v = space_end(b, w + 1);
            if v >= b.len() {
                LexStep::Fail(ParseError::UnexpectedEof { span: span_of(v, v) })
            } else if b[v] == 0x22 || b[v] == 0x27 {
                let quote = if b[v] == 0x22 { QuoteKind::Double } else { QuoteKind::Single };
                let qe = quote_end(b, v + 1, b[v]);
                if qe >= b.len() {
                    LexStep::Fail(ParseError::UnclosedQuote { quote, span: span_of(v + 1, qe) })
                } else {
                    LexStep::Emit(
                        SvgEvent::Attribute {
                            name,
                            value: Some(text_at(b, v + 1, qe)),
                            span: span_of(p, qe + 1),
                            name_span: span_of(p, ne),
                            value_span: Some(span_of(v + 1, qe)),
                            quote: Some(quote),
                        },
                        in_tag(qe + 1),
                    )
                }
            } else {
                let ue = unquoted_end(b, v);
                LexStep::Emit(
                    SvgEvent::Attribute {
                        name,
                        value: Some(text_at(b, v, ue)),
                        span: span_of(p, ue),
                        name_span: span_of(p, ne),
                        value_span: Some(span_of(v, ue)),
                        quote: Some(QuoteKind::Unquoted),
                    },
                    in_tag(ue),
                )
            }
        } else {
            LexStep::Emit(
                SvgEvent::Attribute {
                    name,
                    value: None,
                    span: span_of(p, w),
                    name_span: span_of(p, ne),
                    value_span: None,
                    quote: None,
                },
                in_tag(w),
            )
        }
    }
}

/// Reads inside a start tag: the next attribute, or the `>` / `/>` that ends the tag.
pub open spec fn lex_in_tag<E>(b: Seq<u8>, st: LexState) -> LexStep<E> {
    let p = space_end(b, st.pos as int);
    if p >= b.len() {
        LexStep::Fail(ParseError::UnexpectedEof { span: span_of(p, p) })
    } else if b[p] == 0x3e || b[p] == 0x2f {
        let q = if b[p] == 0x2f { p + 1 } else { p };
        if q < b.len() && b[q] == 0x3e {
            LexStep::Emit(
                SvgEvent::FinishStartElement {
                    self_closing: b[p] == 0x2f,
                    span: span_of(st.tag_start as int, q + 1),
                },
                content_state(q + 1),
            )
        } else {
            LexStep::Fail(ParseError::ExpectedGt { span: span_at(b, q) })
        }
    } else {
        lex_attribute(b, p, st.tag_start)
    }
}

/// Reads a comment, CDATA section or processing instruction whose body starts at `vs`
/// and ends before `close`; the construct began at `start`.
pub open spec fn lex_delimited<E>(
    b: Seq<u8>,
    start: int,
    vs: int,
    close: Seq<u8>,
    kind: int,
) -> LexStep<E> {
    match find_from(b, vs, close) {
        None => LexStep::Fail(
            if kind == 0 {
                ParseError::ExpectedProcessingInstructionEnd { span: span_of(start, vs) }
            } else if kind == 1 {
                ParseError::ExpectedCommentEnd { span: span_of(start, vs) }
            } else {
                ParseError::ExpectedCDataEnd { span: span_of(start, vs) }
            },
        ),
        Some(ve) => {
            let value = text_at(b, vs, ve);
            let span = span_of(start, ve + close.len());
            LexStep::Emit(
                if kind == 0 {
                    SvgEvent::ProcessingInstruction { value, span }
                } else if kind == 1 {
                    SvgEvent::Comment { value, span }
                } else {
                    SvgEvent::CData { value, span }
                },
                content_state(ve + close.len()),
            )
        },
    }
}

/// Reads what follows a `<`; `p` is the index after the `<`.
pub open spec fn lex_tag<E>(b: Seq<u8>, p: int) -> LexStep<E> {
    if p >= b.len() {
        LexStep::Fail(ParseError::UnexpectedEof { span: span_of(p, p) })
    } else {
        let c = b[p];
        if c == 0x3f {
            lex_delimited(b, p - 1, p + 1, pi_close(), 0)
        } else if c == 0x21 && starts_with_at(b, p, comment_open()) {
            lex_delimited(b, p - 1, p + 3, comment_close(), 1)
        } else if c == 0x21 && starts_with_at(b, p, cdata_open()) {
            lex_delimited(b, p - 1, p + 8, cdata_close(), 2)
        } else if c == 0x21 && starts_with_ignore_case_at(b, p, doctype_open()) {
            match doctype_end(b, p + 8, None) {
                None => LexStep::Fail(ParseError::UnexpectedEof { span: span_of(p - 1, b.len() as int) }),
                Some(ve) => LexStep::Emit(
                    SvgEvent::Doctype {
                        value: trim_chars(text_at(b, p + 8, ve)),
                        span: span_of(p - 1, ve + 1),
                    },
                    content_state(ve + 1),
                ),
            }
        } else if c == 0x2f {
            let q = p + 1;
            let ne = name_end(b, q);
            if ne == q {
                LexStep::Fail(ParseError::ExpectedTagName { span: span_of(q, q) })
            } else {
                let w = space_end(b, ne);
                if w < b.len() && b[w] == 0x3e {
                    LexStep::Emit(
                        SvgEvent::EndElement {
                            name: text_at(b, q, ne),
                            span: span_of(p - 1, w + 1),
                            name_span: span_of(q, ne),
                        },
                        content_state(w + 1),
                    )
                } else {
                    LexStep::Fail(ParseError::ExpectedGt { span: span_at(b, w) })
                }
            }
        } else if is_name_byte(c) {
            let ne = name_end(b, p);
            LexStep::Emit(
                SvgEvent::StartElement {
                    name: text_at(b, p, ne),
                    span: span_of(p - 1, ne),
                    name_span: span_of(p, ne),
                },
                LexState { pos: ne as usize, in_tag: true, tag_start: (p - 1) as usize, finished: false },
            )
        } else {
            LexStep::Fail(ParseError::UnexpectedCharacter { byte: Some(c), span: span_at(b, p) })
        }
    }
}

/// Reads between tags: text, a tag, or the end of the document. Text made only of
/// spaces is skipped without an event.
pub open spec fn lex_content<E>(b: Seq<u8>, pos: int) -> LexStep<E>
    decreases b.len() - pos,
{
    if pos >= b.len() {
        LexStep::Emit(
            SvgEvent::FinishDocument,
            LexState { pos: pos as usize, in_tag: false, tag_start: 0, finished: true },
        )
    } else if pos < 0 {
        LexStep::Done
    } else if b[pos] == 0x3c {
        lex_tag(b, pos + 1)
    } else {
        let te = text_end(b, pos);
        if all_space(b, pos, te) {
            if pos < te <= b.len() {
                lex_content(b, te)
            } else {
                LexStep::Done
            }
        } else {
            LexStep::Emit(
                SvgEvent::Text { value: text_at(b, pos, te), span: span_of(pos, te) },
                content_state(te),
            )
        }
    }
}

/// The next step of reading `b` from `st`.
pub open spec fn lex_next<E>(b: Seq<u8>, st: LexState) -> LexStep<E> {
    if st.finished {
        LexStep::Done
    } else if st.in_tag {
        lex_in_tag(b, st)
    } else {
        lex_content(b, st.pos as int)
    }
}

pub open spec fn lex_measure(b: Seq<u8>, st: LexState) -> int {
    2 * (b.len() - st.pos) + if st.finished { 0int } else { 1int }
}

/// All events read from `st` on, and the syntax error that stopped the reading, if any.
pub open spec fn lex_run<E>(b: Seq<u8>, st: LexState) -> (Seq<SvgEvent>, Option<ParseError<E>>)
    decreases lex_measure(b, st),
{
    match lex_next::<E>(b, st) {
        LexStep::Done => (Seq::empty(), None),
        LexStep::Fail(e) => (Seq::empty(), Some(e)),
        LexStep::Emit(ev, st2) => {
            if st2.pos <= b.len() && 0 <= lex_measure(b, st2) < lex_measure(b, st) {
                let rest = lex_run::<E>(b, st2);
                (seq![ev] + rest.0, rest.1)
            } else {
                (seq![ev], None)
            }
        },
    }
}

/// The events of the whole document `b`.
pub open spec fn document_events<E>(b: Seq<u8>) -> Seq<SvgEvent> {
    lex_run::<E>(b, initial_state()).0
}

/// The syntax error of the document `b`, if it has one.
pub open spec fn document_error<E>(b: Seq<u8>) -> Option<ParseError<E>> {
    lex_run::<E>(b, initial_state()).1
}

} // verus!
