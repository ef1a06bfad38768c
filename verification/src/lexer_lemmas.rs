use vstd::prelude::*;

use crate::events::SvgEvent;
use crate::lexer_spec::{
    all_space, doctype_end, find_from, lex_attribute, lex_content, lex_measure,
    lex_next, lex_run, lex_tag, name_end, quote_end, space_end, text_end, unquoted_end,
    LexState, LexStep,
};

verus! {

pub proof fn lemma_name_end_bounds(b: Seq<u8>, p: int)
    requires
        0 <= p <= b.len(),
    ensures
        p <= name_end(b, p) <= b.len(),
    decreases b.len() - p,
{
    if p < b.len() {
        lemma_name_end_bounds(b, p + 1);
    }
}

pub proof fn lemma_space_end_bounds(b: Seq<u8>, p: int)
    requires
        0 <= p <= b.len(),
    ensures
        p <= space_end(b, p) <= b.len(),
    decreases b.len() - p,
{
    if p < b.len() {
        lemma_space_end_bounds(b, p + 1);
    }
}

pub proof fn lemma_text_end_bounds(b: Seq<u8>, p: int)
    requires
        0 <= p <= b.len(),
    ensures
        p <= text_end(b, p) <= b.len(),
    decreases b.len() - p,
{
    if p < b.len() {
        lemma_text_end_bounds(b, p + 1);
    }
}

pub proof fn lemma_unquoted_end_bounds(b: Seq<u8>, p: int)
    requires
        0 <= p <= b.len(),
    ensures
        p <= unquoted_end(b, p) <= b.len(),
    decreases b.len() - p,
{
    if p < b.len() {
        lemma_unquoted_end_bounds(b, p + 1);
    }
}

pub proof fn lemma_quote_end_bounds(b: Seq<u8>, p: int, q: u8)
    requires
        0 <= p <= b.len(),
    ensures
        p <= quote_end(b, p, q) <= b.len(),
    decreases b.len() - p,
{
    if p < b.len() {
        lemma_quote_end_bounds(b, p + 1, q);
    }
}

pub proof fn lemma_find_from_bounds(b: Seq<u8>, p: int, needle: Seq<u8>)
    ensures
        find_from(b, p, needle) matches Some(i) ==> p <= i && i + needle.len() <= b.len(),
    decreases b.len() - p,
{
    if p < 0 || p + needle.len() > b.len() {
    } else if b.subrange(p, p + needle.len()) == needle {
    } else if p >= b.len() {
    } else {
        lemma_find_from_bounds(b, p + 1, needle);
    }
}

pub proof fn lemma_doctype_end_bounds(b: Seq<u8>, p: int, q: Option<u8>)
    ensures
        doctype_end(b, p, q) matches Some(i) ==> p <= i < b.len(),
    decreases b.len() - p,
{
    if p < 0 || p >= b.len() {
    } else {
        let c = b[p];
        if q is Some && c == q->0 {
            lemma_doctype_end_bounds(b, p + 1, None);
        } else if q is None && (c == 0x22 || c == 0x27) {
            lemma_doctype_end_bounds(b, p + 1, Some(c));
        } else if q is None && c == 0x3e {
        } else {
            lemma_doctype_end_bounds(b, p + 1, q);
        }
    }
}

/// A step that emits an event from a state within the input leads to a state within
/// the input that is strictly further on.
pub proof fn lemma_next_progress<E>(b: Seq<u8>, st: LexState)
    requires
        st.pos <= b.len(),
        b.len() <= usize::MAX,
    ensures
        lex_next::<E>(b, st) matches LexStep::Emit(_, st2) ==> st2.pos <= b.len() && 0 <= lex_measure(
            b,
            st2,
        ) < lex_measure(b, st),
{
    if st.finished {
    } else if st.in_tag {
        let p = space_end(b, st.pos as int);
        lemma_space_end_bounds(b, st.pos as int);
        if p < b.len() && !(b[p] == 0x3e || b[p] == 0x2f) {
            lemma_attribute_progress::<E>(b, p, st.tag_start);
        }
    } else {
        lemma_content_progress::<E>(b, st.pos as int);
    }
}

proof fn lemma_attribute_progress<E>(b: Seq<u8>, p: int, tag_start: usize)
    requires
        0 <= p < b.len(),
        b.len() <= usize::MAX,
    ensures
        lex_attribute::<E>(b, p, tag_start) matches LexStep::Emit(_, st2) ==> p < st2.pos <= b.len()
            && !st2.finished,
{
    let ne = name_end(b, p);
    lemma_name_end_bounds(b, p);
    lemma_space_end_bounds(b, ne);
    let w = space_end(b, ne);
    if w < b.len() && b[w] == 0x3d {
        lemma_space_end_bounds(b, w + 1);
        let v = space_end(b, w + 1);
        if v < b.len() {
            lemma_quote_end_bounds(b, v + 1, b[v]);
            lemma_unquoted_end_bounds(b, v);
        }
    }
}

proof fn lemma_content_progress<E>(b: Seq<u8>, pos: int)
    requires
        0 <= pos <= b.len(),
        b.len() <= usize::MAX,
    ensures
        lex_content::<E>(b, pos) matches LexStep::Emit(_, st2) ==> pos <= st2.pos <= b.len() && (
        st2.finished ==> st2.pos == b.len()) && (!st2.finished ==> pos < st2.pos) && !st2.in_tag || (
        st2.in_tag && pos < st2.pos <= b.len() && !st2.finished),
    decreases b.len() - pos,
{
    if pos >= b.len() {
    } else if b[pos] == 0x3c {
        lemma_tag_progress::<E>(b, pos + 1);
    } else {
        lemma_text_end_bounds(b, pos);
        lemma_text_end_bounds(b, pos + 1);
        let te = text_end(b, pos);
        if pos < te <= b.len() {
            lemma_content_progress::<E>(b, te);
        }
    }
}

proof fn lemma_tag_progress<E>(b: Seq<u8>, p: int)
    requires
        1 <= p <= b.len(),
        b.len() <= usize::MAX,
    ensures
        lex_tag::<E>(b, p) matches LexStep::Emit(_, st2) ==> p < st2.pos <= b.len() && !st2.finished,
{
    if p < b.len() {
        lemma_find_from_bounds(b, p + 1, crate::lexer_spec::pi_close());
        lemma_find_from_bounds(b, p + 3, crate::lexer_spec::comment_close());
        lemma_find_from_bounds(b, p + 8, crate::lexer_spec::cdata_close());
        lemma_doctype_end_bounds(b, p + 8, None);
        lemma_name_end_bounds(b, p);
        if p + 1 <= b.len() {
            lemma_name_end_bounds(b, p + 1);
            let ne = name_end(b, p + 1);
            lemma_space_end_bounds(b, ne);
        }
    }
}

/// The syntax error of a run does not change by taking one emitting step.
pub proof fn lemma_run_step<E>(b: Seq<u8>, st: LexState)
    requires
        st.pos <= b.len(),
        b.len() <= usize::MAX,
        lex_next::<E>(b, st) is Emit,
    ensures
        ({
            let st2 = lex_next::<E>(b, st)->Emit_1;
            let ev = lex_next::<E>(b, st)->Emit_0;
            &&& lex_run::<E>(b, st).1 == lex_run::<E>(b, st2).1
            &&& lex_run::<E>(b, st).0 == seq![ev] + lex_run::<E>(b, st2).0
        }),
{
    lemma_next_progress::<E>(b, st);
}

} // verus!

verus! {

/// Reading between tags fails only with a syntax error, never with an error of a sink.
pub proof fn lemma_content_fail_not_sink<E>(b: Seq<u8>, pos: int)
    ensures
        lex_content::<E>(b, pos) matches LexStep::Fail(e) ==> !(e is Sink),
    decreases b.len() - pos,
{
    if 0 <= pos < b.len() && b[pos] != 0x3c {
        let te = text_end(b, pos);
        if all_space(b, pos, te) && pos < te <= b.len() {
            lemma_content_fail_not_sink::<E>(b, te);
        }
    }
}

/// A step of reading fails only with a syntax error.
pub proof fn lemma_next_fail_not_sink<E>(b: Seq<u8>, st: LexState)
    ensures
        lex_next::<E>(b, st) matches LexStep::Fail(e) ==> !(e is Sink),
{
    lemma_content_fail_not_sink::<E>(b, st.pos as int);
}

} // verus!

verus! {

/// Two steps of reading agree, whatever error type they are read with.
pub open spec fn same_step<E1, E2>(a: LexStep<E1>, b: LexStep<E2>) -> bool {
    match a {
        LexStep::Emit(ev, st) => b == LexStep::<E2>::Emit(ev, st),
        LexStep::Done => b is Done,
        LexStep::Fail(_) => b is Fail,
    }
}

pub proof fn lemma_content_independent<E1, E2>(b: Seq<u8>, pos: int)
    ensures
        same_step(lex_content::<E1>(b, pos), lex_content::<E2>(b, pos)),
    decreases b.len() - pos,
{
    if 0 <= pos < b.len() && b[pos] != 0x3c {
        let te = text_end(b, pos);
        if all_space(b, pos, te) && pos < te <= b.len() {
            lemma_content_independent::<E1, E2>(b, te);
        }
    }
}

/// Reading does not depend on the error type: the same events, and an error at the same place.
pub proof fn lemma_run_independent<E1, E2>(b: Seq<u8>, st: LexState)
    ensures
        lex_run::<E1>(b, st).0 == lex_run::<E2>(b, st).0,
        (lex_run::<E1>(b, st).1 is None) == (lex_run::<E2>(b, st).1 is None),
    decreases lex_measure(b, st),
{
    lemma_content_independent::<E1, E2>(b, st.pos as int);
    assert(same_step(lex_next::<E1>(b, st), lex_next::<E2>(b, st)));
    match lex_next::<E1>(b, st) {
        LexStep::Emit(ev, st2) => {
            if st2.pos <= b.len() && 0 <= lex_measure(b, st2) < lex_measure(b, st) {
                lemma_run_independent::<E1, E2>(b, st2);
            }
        },
        _ => {},
    }
}

} // verus!

verus! {

/// Reading between tags from a position in the document never just stops, and reaches the
/// finished state only by reporting the end of the document.
pub proof fn lemma_content_ends_with_finish<E>(b: Seq<u8>, pos: int)
    requires
        0 <= pos,
    ensures
        !(lex_content::<E>(b, pos) is Done),
        lex_content::<E>(b, pos) matches LexStep::Emit(ev, st2) ==> (st2.finished ==> ev
            == SvgEvent::FinishDocument),
    decreases b.len() - pos,
{
    if pos < b.len() && b[pos] != 0x3c {
        lemma_text_end_bounds(b, pos + 1);
        let te = text_end(b, pos);
        assert(te == text_end(b, pos + 1));
        if all_space(b, pos, te) {
            lemma_content_ends_with_finish::<E>(b, te);
        }
    }
}

/// A read that ends without a syntax error ends with the end of the document.
pub proof fn lemma_run_ends_with_finish<E>(b: Seq<u8>, st: LexState)
    requires
        !st.finished,
        st.pos <= b.len(),
        b.len() <= usize::MAX,
    ensures
        lex_run::<E>(b, st).1 is None ==> lex_run::<E>(b, st).0.len() > 0 && lex_run::<E>(
            b,
            st,
        ).0.last() == SvgEvent::FinishDocument,
    decreases lex_measure(b, st),
{
    lemma_content_ends_with_finish::<E>(b, st.pos as int);
    lemma_next_progress::<E>(b, st);
    match lex_next::<E>(b, st) {
        LexStep::Emit(ev, st2) => {
            lemma_run_step::<E>(b, st);
            if !st2.finished {
                lemma_run_ends_with_finish::<E>(b, st2);
                let rest = lex_run::<E>(b, st2).0;
                if lex_run::<E>(b, st2).1 is None {
                    assert((seq![ev] + rest).last() == rest.last());
                }
            } else {
                assert(lex_run::<E>(b, st2).0 =~= Seq::<SvgEvent>::empty());
                assert((seq![ev] + Seq::<SvgEvent>::empty()) =~= seq![ev]);
            }
        },
        _ => {},
    }
}

} // verus!
