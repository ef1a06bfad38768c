use vstd::prelude::*;

use crate::events::{Span, SvgEvent};
use crate::lexer_lemmas::{
    lemma_run_step,
    lemma_doctype_end_bounds, lemma_find_from_bounds, lemma_name_end_bounds,
    lemma_next_progress, lemma_quote_end_bounds, lemma_space_end_bounds, lemma_text_end_bounds,
    lemma_unquoted_end_bounds,
};
use crate::lexer_spec::{
    all_space, document_error, lex_delimited,
    cdata_close, comment_close, document_events, find_from, initial_state, lex_attribute, lex_content,
    lex_measure, lex_next, lex_run, lex_tag, name_end, pi_close, space_end, text_end, LexState,
    LexStep,
};
use crate::text::{text_at, trim_chars};

verus! {

pub open spec fn span_in(b: Seq<u8>, sp: Span) -> bool {
    sp.start <= sp.end <= b.len()
}

/// What an event says of the source: its spans lie within it, and each name or value
/// is the text of the source at the place that the spans give.
pub open spec fn event_in_source(b: Seq<u8>, ev: SvgEvent) -> bool {
    match ev {
        SvgEvent::StartElement { name, span, name_span } => {
            &&& span_in(b, span)
            &&& b[span.start as int] == 0x3c
            &&& name_span.start == span.start + 1
            &&& name_span.start < name_span.end == span.end
            &&& name == text_at(b, name_span.start as int, name_span.end as int)
        },
        SvgEvent::Attribute { name, value, span, name_span, value_span, .. } => {
            &&& span_in(b, span)
            &&& name_span.start == span.start
            &&& name_span.start < name_span.end <= span.end
            &&& name == text_at(b, name_span.start as int, name_span.end as int)
            &&& value is Some <==> value_span is Some
            &&& value_span matches Some(vs) ==> {
                &&& name_span.end < vs.start <= vs.end <= span.end
                &&& value == Some(text_at(b, vs.start as int, vs.end as int))
            }
        },
        SvgEvent::FinishStartElement { span, .. } => span_in(b, span) && span.start < span.end,
        SvgEvent::EndElement { name, span, name_span } => {
            &&& span_in(b, span)
            &&& b[span.start as int] == 0x3c
            &&& b[span.start + 1] == 0x2f
            &&& name_span.start == span.start + 2
            &&& name_span.start < name_span.end < span.end
            &&& name == text_at(b, name_span.start as int, name_span.end as int)
        },
        SvgEvent::Text { value, span } => {
            &&& span_in(b, span)
            &&& span.start < span.end
            &&& value == text_at(b, span.start as int, span.end as int)
            &&& !all_space(b, span.start as int, span.end as int)
            &&& forall|i: int| span.start <= i < span.end ==> #[trigger] b[i] != 0x3c
            &&& span.end == b.len() || b[span.end as int] == 0x3c
        },
        SvgEvent::Comment { value, span } => span_in(b, span) && span.start + 7 <= span.end && b[span.start as int] == 0x3c
            && value == text_at(b, span.start + 4, span.end - 3),
        SvgEvent::CData { value, span } => span_in(b, span) && span.start + 12 <= span.end && b[span.start as int] == 0x3c
            && value == text_at(b, span.start + 9, span.end - 3),
        SvgEvent::ProcessingInstruction { value, span } => span_in(b, span) && span.start + 4
            <= span.end && b[span.start as int] == 0x3c && value == text_at(b, span.start + 2, span.end - 2),
        SvgEvent::Doctype { value, span } => span_in(b, span) && span.start + 10 <= span.end
            && b[span.start as int] == 0x3c && value == trim_chars(
            text_at(b, span.start + 9, span.end - 1),
        ),
        SvgEvent::FinishDocument => true,
    }
}

pub open spec fn state_ok(b: Seq<u8>, st: LexState) -> bool {
    &&& st.pos <= b.len()
    &&& st.in_tag ==> st.tag_start < st.pos && b[st.tag_start as int] == 0x3c
}

proof fn lemma_attribute_in_source<E>(b: Seq<u8>, p: int, st: LexState)
    requires
        0 <= p < b.len() <= usize::MAX,
        st.in_tag,
        state_ok(b, st),
        st.pos <= p,
    ensures
        lex_attribute::<E>(b, p, st.tag_start) matches LexStep::Emit(ev, st2) ==> event_in_source(
            b,
            ev,
        ) && state_ok(b, st2),
{
    let ne = name_end(b, p);
    lemma_name_end_bounds(b, p);
    lemma_space_end_bounds(b, ne);
    let w = space_end(b, ne);
    if w < b.len() && b[w] == 0x3d {
        lemma_space_end_bounds(b, w + 1);
        let v = space_end(b, w + 1);
        if v < b.len() {
            lemma_quote_end_bounds(b, v + 1, b[v]);
            lemma_unquoted_end_bounds(b, v);
        }
    }
}

proof fn lemma_tag_in_source<E>(b: Seq<u8>, p: int)
    requires
        1 <= p <= b.len() <= usize::MAX,
        b[p - 1] == 0x3c,
    ensures
        lex_tag::<E>(b, p) matches LexStep::Emit(ev, st2) ==> event_in_source(b, ev) && state_ok(
            b,
            st2,
        ),
{
    if p < b.len() {
        lemma_find_from_bounds(b, p + 1, pi_close());
        lemma_find_from_bounds(b, p + 3, comment_close());
        lemma_find_from_bounds(b, p + 8, cdata_close());
        lemma_doctype_end_bounds(b, p + 8, None);
        lemma_name_end_bounds(b, p);
        lemma_name_end_bounds(b, p + 1);
        let ne = name_end(b, p + 1);
        lemma_space_end_bounds(b, ne);
    }
}

proof fn lemma_text_end_stops(b: Seq<u8>, p: int)
    requires
        0 <= p <= b.len(),
    ensures
        forall|i: int| p <= i < text_end(b, p) ==> #[trigger] b[i] != 0x3c,
        text_end(b, p) == b.len() || b[text_end(b, p)] == 0x3c,
    decreases b.len() - p,
{
    if p < b.len() && b[p] != 0x3c {
        lemma_text_end_stops(b, p + 1);
    }
}

proof fn lemma_content_in_source<E>(b: Seq<u8>, pos: int)
    requires
        0 <= pos <= b.len() <= usize::MAX,
    ensures
        lex_content::<E>(b, pos) matches LexStep::Emit(ev, st2) ==> event_in_source(b, ev)
            && state_ok(b, st2),
    decreases b.len() - pos,
{
    if pos >= b.len() {
    } else if b[pos] == 0x3c {
        lemma_tag_in_source::<E>(b, pos + 1);
    } else {
        lemma_text_end_bounds(b, pos);
        lemma_text_end_bounds(b, pos + 1);
        lemma_text_end_stops(b, pos);
        let te = text_end(b, pos);
        if pos < te <= b.len() {
            lemma_content_in_source::<E>(b, te);
        }
    }
}

proof fn lemma_step_in_source<E>(b: Seq<u8>, st: LexState)
    requires
        state_ok(b, st),
        b.len() <= usize::MAX,
    ensures
        lex_next::<E>(b, st) matches LexStep::Emit(ev, st2) ==> event_in_source(b, ev) && state_ok(
            b,
            st2,
        ),
{
    if st.finished {
    } else if st.in_tag {
        let p = space_end(b, st.pos as int);
        lemma_space_end_bounds(b, st.pos as int);
        if p < b.len() && !(b[p] == 0x3e || b[p] == 0x2f) {
            lemma_attribute_in_source::<E>(b, p, st);
        }
    } else {
        lemma_content_in_source::<E>(b, st.pos as int);
    }
}

proof fn lemma_run_in_source<E>(b: Seq<u8>, st: LexState)
    requires
        state_ok(b, st),
        b.len() <= usize::MAX,
    ensures
        forall|i: int|
            0 <= i < lex_run::<E>(b, st).0.len() ==> event_in_source(
                b,
                #[trigger] lex_run::<E>(b, st).0[i],
            ),
    decreases crate::lexer_spec::lex_measure(b, st),
{
    lemma_next_progress::<E>(b, st);
    lemma_step_in_source::<E>(b, st);
    match lex_next::<E>(b, st) {
        LexStep::Emit(ev, st2) => {
            lemma_run_in_source::<E>(b, st2);
            let rest = lex_run::<E>(b, st2).0;
            assert forall|i: int| 0 <= i < lex_run::<E>(b, st).0.len() implies event_in_source(
                b,
                #[trigger] lex_run::<E>(b, st).0[i],
            ) by {
                if i > 0 {
                    assert(lex_run::<E>(b, st).0[i] == rest[i - 1]);
                }
            }
        },
        _ => {},
    }
}

/// Every event of a document lies within the source, and its names and values are the
/// text of the source at its spans: the reader reports the source as it stands. A text
/// event is a run with no `<` that holds more than white space and ends at a `<` or at the
/// end: text made only of white space is never reported.
pub proof fn law_events_match_source<E>(b: Seq<u8>)
    requires
        b.len() <= usize::MAX,
    ensures
        forall|i: int|
            0 <= i < document_events::<E>(b).len() ==> event_in_source(
                b,
                #[trigger] document_events::<E>(b)[i],
            ),
{
    lemma_run_in_source::<E>(b, initial_state());
}

proof fn lemma_run_length<E>(b: Seq<u8>, st: LexState)
    requires
        st.pos <= b.len(),
        b.len() <= usize::MAX,
    ensures
        lex_run::<E>(b, st).0.len() <= lex_measure(b, st),
    decreases lex_measure(b, st),
{
    lemma_next_progress::<E>(b, st);
    match lex_next::<E>(b, st) {
        LexStep::Emit(_, st2) => lemma_run_length::<E>(b, st2),
        _ => {},
    }
}

/// A document of `n` bytes has at most `2 * n + 1` events, so a sink gets at most that
/// many calls: each event moves the reader forward.
pub proof fn law_event_count_bound<E>(b: Seq<u8>)
    requires
        b.len() <= usize::MAX,
    ensures
        document_events::<E>(b).len() <= 2 * b.len() + 1,
{
    lemma_run_length::<E>(b, initial_state());
}

/// Searching from `p` finds the first place at or after `p` where `needle` occurs, and finds
/// nothing only where it occurs nowhere from `p` on.
pub proof fn law_find_first_occurrence(b: Seq<u8>, p: int, needle: Seq<u8>)
    requires
        0 <= p,
    ensures
        match find_from(b, p, needle) {
            Some(i) => {
                &&& p <= i
                &&& i + needle.len() <= b.len()
                &&& b.subrange(i, i + needle.len()) == needle
                &&& forall|j: int| p <= j < i ==> #[trigger] b.subrange(j, j + needle.len()) != needle
            },
            None => forall|j: int|
                p <= j && j + needle.len() <= b.len() ==> #[trigger] b.subrange(j, j + needle.len())
                    != needle,
        },
    decreases b.len() - p,
{
    if p + needle.len() > b.len() {
    } else if b.subrange(p, p + needle.len()) == needle {
    } else if p >= b.len() {
        assert(b.subrange(p, p + needle.len()) =~= needle);
    } else {
        law_find_first_occurrence(b, p + 1, needle);
    }
}

/// A step that emits an event leaves the reader finished exactly when the event is the
/// end of the document; a step that ends the reading happens only once it is finished.
pub open spec fn step_shape<E>(step: LexStep<E>, finished: bool) -> bool {
    match step {
        LexStep::Done => finished,
        LexStep::Emit(ev, st2) => st2.finished <==> ev is FinishDocument,
        LexStep::Fail(_) => true,
    }
}

proof fn lemma_delimited_shape<E>(b: Seq<u8>, start: int, vs: int, close: Seq<u8>, kind: int)
    ensures
        step_shape(lex_delimited::<E>(b, start, vs, close, kind), false),
{
}

proof fn lemma_content_shape<E>(b: Seq<u8>, pos: int)
    requires
        0 <= pos,
    ensures
        step_shape(lex_content::<E>(b, pos), false),
    decreases b.len() - pos,
{
    if pos < b.len() && b[pos] != 0x3c {
        lemma_text_end_bounds(b, pos + 1);
        let te = text_end(b, pos);
        assert(te == text_end(b, pos + 1));
        lemma_content_shape::<E>(b, te);
    } else if pos < b.len() {
        let p = pos + 1;
        if p < b.len() {
            lemma_delimited_shape::<E>(b, p - 1, p + 1, pi_close(), 0);
            lemma_delimited_shape::<E>(b, p - 1, p + 3, comment_close(), 1);
            lemma_delimited_shape::<E>(b, p - 1, p + 8, cdata_close(), 2);
        }
    }
}

proof fn lemma_step_shape<E>(b: Seq<u8>, st: LexState)
    ensures
        step_shape(lex_next::<E>(b, st), st.finished),
{
    if !st.finished && !st.in_tag {
        lemma_content_shape::<E>(b, st.pos as int);
    }
}

proof fn lemma_run_finishes<E>(b: Seq<u8>, st: LexState)
    requires
        st.pos <= b.len(),
        b.len() <= usize::MAX,
    ensures
        st.finished ==> lex_run::<E>(b, st).0.len() == 0 && lex_run::<E>(b, st).1 is None,
        !st.finished && lex_run::<E>(b, st).1 is None ==> lex_run::<E>(b, st).0.len() > 0
            && lex_run::<E>(b, st).0.last() is FinishDocument,
        forall|i: int|
            0 <= i < lex_run::<E>(b, st).0.len() && (#[trigger] lex_run::<E>(b, st).0[i]) is FinishDocument
                ==> i == lex_run::<E>(b, st).0.len() - 1 && lex_run::<E>(b, st).1 is None,
    decreases lex_measure(b, st),
{
    lemma_step_shape::<E>(b, st);
    lemma_next_progress::<E>(b, st);
    match lex_next::<E>(b, st) {
        LexStep::Emit(ev, st2) => {
            lemma_run_step::<E>(b, st);
            lemma_run_finishes::<E>(b, st2);
            let run = lex_run::<E>(b, st);
            let rest = lex_run::<E>(b, st2);
            assert(run.0 == seq![ev] + rest.0);
            assert forall|i: int| 0 <= i < run.0.len() && (#[trigger] run.0[i]) is FinishDocument implies i
                == run.0.len() - 1 && run.1 is None by {
                if i > 0 {
                    assert(run.0[i] == rest.0[i - 1]);
                }
            }
            if rest.0.len() > 0 {
                assert(run.0.last() == rest.0.last());
            }
        },
        _ => {},
    }
}

/// A document without a syntax error ends with the end-of-document event, and that event
/// comes nowhere else: it is the last call a sink gets, and it gets it once.
pub proof fn law_document_ends_once<E>(b: Seq<u8>)
    requires
        b.len() <= usize::MAX,
    ensures
        document_error::<E>(b) is None ==> document_events::<E>(b).len() > 0
            && document_events::<E>(b).last() is FinishDocument,
        forall|i: int|
            0 <= i < document_events::<E>(b).len() && (#[trigger] document_events::<E>(b)[i]) is FinishDocument
                ==> i == document_events::<E>(b).len() - 1 && document_error::<E>(b) is None,
{
    lemma_run_finishes::<E>(b, initial_state());
}

} // verus!
