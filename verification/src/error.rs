use vstd::prelude::*;

use vstd::string::{StringExecFns, StringSliceAdditionalSpecFns};

use crate::events::{QuoteKind, Span};

verus! {

/// Why a document could not be parsed: a syntax error at a span, or an error of the sink.
#[derive(Debug, Clone, PartialEq, Eq)]
pub enum ParseError<E> {
    UnexpectedEof { span: Span },
    UnexpectedCharacter { byte: Option<u8>, span: Span },
    ExpectedTagName { span: Span },
    ExpectedAttributeName { span: Span },
    ExpectedGt { span: Span },
    UnclosedQuote { quote: QuoteKind, span: Span },
    ExpectedCommentEnd { span: Span },
    ExpectedCDataEnd { span: Span },
    ExpectedProcessingInstructionEnd { span: Span },
    Sink(E),
}

} // verus!

verus! {

/// A 1-based line and column.
#[derive(Debug, Clone, Copy, PartialEq, Eq, Structural)]
pub struct LineCol {
    pub line: usize,
    pub column: usize,
}

/// An error message placed in the source.
#[derive(Debug, Clone)]
pub struct Diagnostic {
    pub message: String,
    pub line: usize,
    pub column: usize,
    pub span: Span,
}

/// The line and column just after the bytes `b`: lines are counted from 1 and start
/// after each line feed; columns count bytes from 1.
pub open spec fn line_col_after(b: Seq<u8>) -> (int, int)
    decreases b.len(),
{
    if b.len() == 0 {
        (1, 1)
    } else {
        let (line, column) = line_col_after(b.drop_last());
        if b.last() == 0x0a {
            (line + 1, 1)
        } else {
            (line, column + 1)
        }
    }
}

proof fn lemma_line_count(b: Seq<u8>)
    ensures
        line_col_after(b).0 == 1 + b.filter(|c: u8| c == 0x0a).len(),
    decreases b.len(),
{
    reveal(Seq::filter);
    if b.len() > 0 {
        lemma_line_count(b.drop_last());
    }
}

proof fn lemma_column_count(b: Seq<u8>, k: int)
    requires
        0 <= k <= b.len(),
        k == 0 || b[k - 1] == 0x0a,
        forall|i: int| k <= i < b.len() ==> b[i] != 0x0a,
    ensures
        line_col_after(b).1 == 1 + b.len() - k,
    decreases b.len(),
{
    if b.len() > 0 && k < b.len() {
        assert(b.last() != 0x0a);
        lemma_column_count(b.drop_last(), k);
    }
}

/// The line of the position after the bytes `b` is one more than the number of line feeds
/// in `b`; its column is one more than the number of bytes after the last line feed (`k` is
/// the index just after it, or 0 where there is none).
pub proof fn law_line_col_closed_form(b: Seq<u8>, k: int)
    requires
        0 <= k <= b.len(),
        k == 0 || b[k - 1] == 0x0a,
        forall|i: int| k <= i < b.len() ==> b[i] != 0x0a,
    ensures
        line_col_after(b).0 == 1 + b.filter(|c: u8| c == 0x0a).len(),
        line_col_after(b).1 == 1 + b.len() - k,
{
    lemma_line_count(b);
    lemma_column_count(b, k);
}

/// An error of the sink has no span: its diagnostic has the empty span at the start, on
/// line 1, column 1, whatever the source.
pub proof fn law_sink_error_diagnostic_at_start<E>(e: E, b: Seq<u8>)
    ensures
        error_span(ParseError::<E>::Sink(e)) is None,
        line_col_after(b.take(0)) == (1int, 1int),
{
    assert(b.take(0) =~= Seq::<u8>::empty());
}

pub proof fn lemma_line_col_bounds(b: Seq<u8>)
    ensures
        1 <= line_col_after(b).0 <= b.len() + 1,
        1 <= line_col_after(b).1 <= b.len() + 1,
    decreases b.len(),
{
    if b.len() > 0 {
        lemma_line_col_bounds(b.drop_last());
    }
}

/// The line and column of byte `offset` of `source`; an offset past the end counts as the end.
pub fn line_col(source: &str, offset: usize) -> (r: LineCol)
    requires
        source.spec_bytes().len() < usize::MAX,
    ensures
        ({
            let b = source.spec_bytes();
            let capped = if offset < b.len() { offset as int } else { b.len() as int };
            r.line == line_col_after(b.take(capped)).0 && r.column == line_col_after(b.take(capped)).1
        }),
{
    let bytes = source.as_bytes();
    let capped = if offset < bytes.len() {
        offset
    } else {
        bytes.len()
    };
    let mut line: usize = 1;
    let mut column: usize = 1;
    let mut i: usize = 0;
    while i < capped
        invariant
            capped <= bytes@.len(),
            bytes@.len() < usize::MAX,
            i <= capped,
            line == line_col_after(bytes@.take(i as int)).0,
            column == line_col_after(bytes@.take(i as int)).1,
        decreases capped - i,
    {
        proof {
            lemma_line_col_bounds(bytes@.take(i as int));
            assert(bytes@.take(i + 1).drop_last() =~= bytes@.take(i as int));
        }
        if bytes[i] == 0x0a {
            line = line + 1;
            column = 1;
        } else {
            column = column + 1;
        }
        i = i + 1;
    }
    LineCol { line, column }
}

} // verus!

verus! {

/// A message that describes an error, for diagnostics.
pub trait ErrorMessage {
    /// Whether `m` is a message of this error: what an implementation states of its
    /// `message` (by default nothing).
    open spec fn describes(&self, m: Seq<char>) -> bool {
        true
    }

    fn message(&self) -> (r: String)
        ensures
            self.describes(r@),
    ;
}

/// Whether `m` is the whole message of a parse error: the message of a syntax error; for a
/// sink error, `"sink error: "` followed by a message of the sink's error.
pub open spec fn full_message<E: ErrorMessage>(e: ParseError<E>, m: Seq<char>) -> bool {
    match e {
        ParseError::Sink(inner) => m.len() >= 12 && m.take(12) == syntax_message(e) && inner.describes(
            m.skip(12),
        ),
        _ => m == syntax_message(e),
    }
}

/// Calls `String::push`, which appends one character to the string.
#[verifier::external_body]
pub(crate) fn push_char(s: &mut String, c: char)
    ensures
        final(s)@ == old(s)@.push(c),
{
    s.push(c);
}

pub open spec fn error_span<E>(e: ParseError<E>) -> Option<Span> {
    match e {
        ParseError::UnexpectedEof { span } => Some(span),
        ParseError::UnexpectedCharacter { span, .. } => Some(span),
        ParseError::ExpectedTagName { span } => Some(span),
        ParseError::ExpectedAttributeName { span } => Some(span),
        ParseError::ExpectedGt { span } => Some(span),
        ParseError::UnclosedQuote { span, .. } => Some(span),
        ParseError::ExpectedCommentEnd { span } => Some(span),
        ParseError::ExpectedCDataEnd { span } => Some(span),
        ParseError::ExpectedProcessingInstructionEnd { span } => Some(span),
        ParseError::Sink(_) => None,
    }
}

pub open spec fn quote_name(q: QuoteKind) -> Seq<char> {
    match q {
        QuoteKind::Double => "Double"@,
        QuoteKind::Single => "Single"@,
        QuoteKind::Unquoted => "None"@,
    }
}

/// The message of a syntax error; the message of a sink error follows `"sink error: "`.
pub open spec fn syntax_message<E>(e: ParseError<E>) -> Seq<char> {
    match e {
        ParseError::UnexpectedEof { .. } => "unexpected end of input"@,
        ParseError::UnexpectedCharacter { byte, .. } => match byte {
            Some(c) => "unexpected character `"@.push(c as char) + "`"@,
            None => "unexpected end of input"@,
        },
        ParseError::ExpectedTagName { .. } => "expected tag name"@,
        ParseError::ExpectedAttributeName { .. } => "expected attribute name"@,
        ParseError::ExpectedGt { .. } => "expected `>`"@,
        ParseError::UnclosedQuote { quote, .. } => "unclosed "@ + quote_name(quote) + " quote"@,
        ParseError::ExpectedCommentEnd { .. } => "expected comment end `-->`"@,
        ParseError::ExpectedCDataEnd { .. } => "expected CDATA end `]]>`"@,
        ParseError::ExpectedProcessingInstructionEnd { .. } => "expected processing instruction end `?>`"@,
        ParseError::Sink(_) => "sink error: "@,
    }
}

impl<E> ParseError<E> {
    /// Where a syntax error was found; `None` for an error of the sink.
    pub fn span(&self) -> (r: Option<Span>)
        ensures
            r == error_span(*self),
    {
        match self {
            ParseError::UnexpectedEof { span } => Some(*span),
            ParseError::UnexpectedCharacter { span, .. } => Some(*span),
            ParseError::ExpectedTagName { span } => Some(*span),
            ParseError::ExpectedAttributeName { span } => Some(*span),
            ParseError::ExpectedGt { span } => Some(*span),
            ParseError::UnclosedQuote { span, .. } => Some(*span),
            ParseError::ExpectedCommentEnd { span } => Some(*span),
            ParseError::ExpectedCDataEnd { span } => Some(*span),
            ParseError::ExpectedProcessingInstructionEnd { span } => Some(*span),
            ParseError::Sink(_) => None,
        }
    }

    /// The error's message: for a sink error, `"sink error: "` and the sink's message.
    pub fn message(&self) -> (r: String) where E: ErrorMessage
        ensures
            full_message(*self, r@),
    {
        match self {
            ParseError::UnexpectedEof { .. } => String::from_str("unexpected end of input"),
            ParseError::UnexpectedCharacter { byte, .. } => match byte {
                Some(c) => {
                    let mut s = String::from_str("unexpected character `");
                    push_char(&mut s, *c as char);
                    s.append("`");
                    s
                },
                None => String::from_str("unexpected end of input"),
            },
            ParseError::ExpectedTagName { .. } => String::from_str("expected tag name"),
            ParseError::ExpectedAttributeName { .. } => String::from_str("expected attribute name"),
            ParseError::ExpectedGt { .. } => String::from_str("expected `>`"),
            ParseError::UnclosedQuote { quote, .. } => {
                let mut s = String::from_str("unclosed ");
                match quote {
                    QuoteKind::Double => s.append("Double"),
                    QuoteKind::Single => s.append("Single"),
                    QuoteKind::Unquoted => s.append("None"),
                }
                s.append(" quote");
                s
            },
            ParseError::ExpectedCommentEnd { .. } => String::from_str("expected comment end `-->`"),
            ParseError::ExpectedCDataEnd { .. } => String::from_str("expected CDATA end `]]>`"),
            ParseError::ExpectedProcessingInstructionEnd { .. } => String::from_str(
                "expected processing instruction end `?>`",
            ),
            ParseError::Sink(error) => {
                let mut s = String::from_str("sink error: ");
                proof {
                    reveal_strlit("sink error: ");
                }
                let ghost prefix = s@;
                let m = error.message();
                s.append(m.as_str());
                assert(s@.take(12) =~= prefix);
                assert(s@.skip(12) =~= m@);
                s
            },
        }
    }

    /// The error with its message, its span (empty at the start for a sink error) and
    /// the line and column where that span starts.
    pub fn diagnostic(&self, source: &str) -> (r: Diagnostic) where E: ErrorMessage
        requires
            source.spec_bytes().len() < usize::MAX,
        ensures
            r.span == match error_span(*self) {
                Some(span) => span,
                None => Span { start: 0, end: 0 },
            },
            ({
                let b = source.spec_bytes();
                let capped = if r.span.start < b.len() { r.span.start as int } else { b.len() as int };
                r.line == line_col_after(b.take(capped)).0 && r.column == line_col_after(
                    b.take(capped),
                ).1
            }),
            full_message(*self, r.message@),
    {
        let span = match self.span() {
            Some(span) => span,
            None => Span { start: 0, end: 0 },
        };
        let position = line_col(source, span.start);
        Diagnostic { message: self.message(), line: position.line, column: position.column, span }
    }
}

} // verus!
