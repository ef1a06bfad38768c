use vstd::prelude::*;

use crate::error::ParseError;

verus! {

/// A half-open byte range `start..end` of the source text.
#[derive(Debug, Clone, Copy, PartialEq, Eq, Default, Structural)]
pub struct Span {
    pub start: usize,
    pub end: usize,
}

/// How an attribute value was written in the source.
#[derive(Debug, Clone, Copy, PartialEq, Eq, Structural)]
pub enum QuoteKind {
    Double,
    Single,
    Unquoted,
}

#[derive(Debug, Clone, Copy)]
pub struct StartElement<'src> {
    pub name: &'src str,
    pub span: Span,
    pub name_span: Span,
}

#[derive(Debug, Clone, Copy)]
pub struct Attribute<'src> {
    pub name: &'src str,
    pub value: Option<&'src str>,
    pub span: Span,
    pub name_span: Span,
    pub value_span: Option<Span>,
    pub quote: Option<QuoteKind>,
}

#[derive(Debug, Clone, Copy, PartialEq, Eq, Structural)]
pub struct FinishStartElement {
    pub self_closing: bool,
    pub span: Span,
}

#[derive(Debug, Clone, Copy)]
pub struct EndElement<'src> {
    pub name: &'src str,
    pub span: Span,
    pub name_span: Span,
}

#[derive(Debug, Clone, Copy)]
pub struct Text<'src> {
    pub value: &'src str,
    pub span: Span,
}

#[derive(Debug, Clone, Copy)]
pub struct Comment<'src> {
    pub value: &'src str,
    pub span: Span,
}

#[derive(Debug, Clone, Copy)]
pub struct CData<'src> {
    pub value: &'src str,
    pub span: Span,
}

#[derive(Debug, Clone, Copy)]
pub struct Doctype<'src> {
    pub value: &'src str,
    pub span: Span,
}

#[derive(Debug, Clone, Copy)]
pub struct ProcessingInstruction<'src> {
    pub value: &'src str,
    pub span: Span,
}

/// The mathematical form of one parse event: every string is given by its characters.
pub enum SvgEvent {
    StartElement { name: Seq<char>, span: Span, name_span: Span },
    Attribute {
        name: Seq<char>,
        value: Option<Seq<char>>,
        span: Span,
        name_span: Span,
        value_span: Option<Span>,
        quote: Option<QuoteKind>,
    },
    FinishStartElement { self_closing: bool, span: Span },
    EndElement { name: Seq<char>, span: Span, name_span: Span },
    Text { value: Seq<char>, span: Span },
    Comment { value: Seq<char>, span: Span },
    CData { value: Seq<char>, span: Span },
    Doctype { value: Seq<char>, span: Span },
    ProcessingInstruction { value: Seq<char>, span: Span },
    FinishDocument,
}

pub open spec fn opt_str_view(v: Option<&str>) -> Option<Seq<char>> {
    match v {
        Some(s) => Some(s@),
        None => None,
    }
}

impl<'src> View for StartElement<'src> {
    type V = SvgEvent;

    open spec fn view(&self) -> SvgEvent {
        SvgEvent::StartElement { name: self.name@, span: self.span, name_span: self.name_span }
    }
}

impl<'src> View for Attribute<'src> {
    type V = SvgEvent;

    open spec fn view(&self) -> SvgEvent {
        SvgEvent::Attribute {
            name: self.name@,
            value: opt_str_view(self.value),
            span: self.span,
            name_span: self.name_span,
            value_span: self.value_span,
            quote: self.quote,
        }
    }
}

impl View for FinishStartElement {
    type V = SvgEvent;

    open spec fn view(&self) -> SvgEvent {
        SvgEvent::FinishStartElement { self_closing: self.self_closing, span: self.span }
    }
}

impl<'src> View for EndElement<'src> {
    type V = SvgEvent;

    open spec fn view(&self) -> SvgEvent {
        SvgEvent::EndElement { name: self.name@, span: self.span, name_span: self.name_span }
    }
}

impl<'src> View for Text<'src> {
    type V = SvgEvent;

    open spec fn view(&self) -> SvgEvent {
        SvgEvent::Text { value: self.value@, span: self.span }
    }
}

impl<'src> View for Comment<'src> {
    type V = SvgEvent;

    open spec fn view(&self) -> SvgEvent {
        SvgEvent::Comment { value: self.value@, span: self.span }
    }
}

impl<'src> View for CData<'src> {
    type V = SvgEvent;

    open spec fn view(&self) -> SvgEvent {
        SvgEvent::CData { value: self.value@, span: self.span }
    }
}

impl<'src> View for Doctype<'src> {
    type V = SvgEvent;

    open spec fn view(&self) -> SvgEvent {
        SvgEvent::Doctype { value: self.value@, span: self.span }
    }
}

impl<'src> View for ProcessingInstruction<'src> {
    type V = SvgEvent;

    open spec fn view(&self) -> SvgEvent {
        SvgEvent::ProcessingInstruction { value: self.value@, span: self.span }
    }
}

/// Whether `ev` is one of the events that a sink may leave to a method's default, which
/// ignores it: comments, CDATA sections, doctypes, processing instructions and the end
/// of the document.
pub open spec fn has_default_handler(ev: SvgEvent) -> bool {
    ||| ev is Comment
    ||| ev is CData
    ||| ev is Doctype
    ||| ev is ProcessingInstruction
    ||| ev is FinishDocument
}

/// Receives the events of a document in source order.
///
/// The required methods describe elements, attributes and text; the others
/// default to ignoring what they are given. `accepts` is what an implementation
/// states of its own methods: a call handed `ev` that returns `r` leaves the sink
/// as `after` only where `accepts` holds (by default it states nothing). A method with
/// a default either does that or, as the default does, returns `Ok` and leaves the
/// sink as it was.
pub trait SvgSink<'src>: Sized {
    type Error;

    open spec fn accepts(&self, ev: SvgEvent, r: Result<(), Self::Error>, after: Self) -> bool {
        true
    }

    fn start_element(&mut self, event: StartElement<'src>) -> (r: Result<(), Self::Error>)
        ensures
            old(self).accepts(event@, r, *final(self)),
    ;

    fn attribute(&mut self, attr: Attribute<'src>) -> (r: Result<(), Self::Error>)
        ensures
            old(self).accepts(attr@, r, *final(self)),
    ;

    fn finish_start_element(&mut self, event: FinishStartElement) -> (r: Result<(), Self::Error>)
        ensures
            old(self).accepts(event@, r, *final(self)),
    ;

    fn end_element(&mut self, event: EndElement<'src>) -> (r: Result<(), Self::Error>)
        ensures
            old(self).accepts(event@, r, *final(self)),
    ;

    fn text(&mut self, text: Text<'src>) -> (r: Result<(), Self::Error>)
        ensures
            old(self).accepts(text@, r, *final(self)),
    ;

    fn comment(&mut self, comment: Comment<'src>) -> (r: Result<(), Self::Error>)
        ensures
            old(self).accepts(comment@, r, *final(self)) || (r is Ok && *final(self) == *old(self)),
        default_ensures
            r is Ok,
            *final(self) == *old(self),
    {
        let _ = comment;
        Ok(())
    }

    fn cdata(&mut self, cdata: CData<'src>) -> (r: Result<(), Self::Error>)
        ensures
            old(self).accepts(cdata@, r, *final(self)) || (r is Ok && *final(self) == *old(self)),
        default_ensures
            r is Ok,
            *final(self) == *old(self),
    {
        let _ = cdata;
        Ok(())
    }

    fn doctype(&mut self, doctype: Doctype<'src>) -> (r: Result<(), Self::Error>)
        ensures
            old(self).accepts(doctype@, r, *final(self)) || (r is Ok && *final(self) == *old(self)),
        default_ensures
            r is Ok,
            *final(self) == *old(self),
    {
        let _ = doctype;
        Ok(())
    }

    fn processing_instruction(
        &mut self,
        instruction: ProcessingInstruction<'src>,
    ) -> (r: Result<(), Self::Error>)
        ensures
            old(self).accepts(instruction@, r, *final(self)) || (r is Ok && *final(self)
                == *old(self)),
        default_ensures
            r is Ok,
            *final(self) == *old(self),
    {
        let _ = instruction;
        Ok(())
    }

    fn finish_document(&mut self) -> (r: Result<(), Self::Error>)
        ensures
            old(self).accepts(SvgEvent::FinishDocument, r, *final(self)) || (r is Ok
                && *final(self) == *old(self)),
        default_ensures
            r is Ok,
            *final(self) == *old(self),
    {
        Ok(())
    }
}

/// What one call of the sink method for `ev` may return and leave behind: what the
/// sink accepts, or, for an event with a default handler, `Ok` and the sink unchanged.
pub open spec fn sink_step<'src, S: SvgSink<'src>>(
    s: S,
    ev: SvgEvent,
    r: Result<(), S::Error>,
    after: S,
) -> bool {
    ||| s.accepts(ev, r, after)
    ||| has_default_handler(ev) && r is Ok && after == s
}

/// Whether handing the events `evs` to `s`, one call per event and in order, can end
/// with the result `r` and the sink `after`: the calls stop at the first error of the
/// sink, which is then the result; if every call succeeds, the result is `tail`.
pub open spec fn sink_run<'src, S: SvgSink<'src>>(
    s: S,
    evs: Seq<SvgEvent>,
    tail: Result<(), ParseError<S::Error>>,
    r: Result<(), ParseError<S::Error>>,
    after: S,
) -> bool
    decreases evs.len(),
{
    if evs.len() == 0 {
        r == tail && after == s
    } else {
        exists|mid: S, r1: Result<(), S::Error>|
            #[trigger] sink_step(s, evs[0], r1, mid) && match r1 {
                Ok(()) => sink_run(mid, evs.drop_first(), tail, r, after),
                Err(e) => r == Err::<(), ParseError<S::Error>>(ParseError::Sink(e)) && after
                    == mid,
            }
    }
}

} // verus!
