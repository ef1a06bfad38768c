use vstd::prelude::*;
use vstd::string::StringSliceAdditionalSpecFns;

use crate::error::ParseError;
use crate::events::{sink_run, sink_step, SvgSink};
use crate::lexer::{Token, Tokenizer};
use crate::lexer_lemmas::{lemma_next_progress, lemma_run_step};
use crate::lexer_spec::{document_error, document_events, initial_state, lex_measure, lex_next, lex_run, LexStep};
use crate::events::SvgEvent;
use crate::tree::{
    empty_tree, lemma_tree_run_concat, lemma_tree_run_one, tree_run, SvgDocument, TreeSink,
    TreeSinkError,
};

verus! {

/// Hands one event to the sink method that takes it.
fn deliver<'src, S: SvgSink<'src>>(sink: &mut S, token: Token<'src>) -> (r: Result<(), S::Error>)
    ensures
        sink_step(*old(sink), token@, r, *final(sink)),
{
    match token {
        Token::StartElement(event) => sink.start_element(event),
        Token::Attribute(attr) => sink.attribute(attr),
        Token::FinishStartElement(event) => sink.finish_start_element(event),
        Token::EndElement(event) => sink.end_element(event),
        Token::Text(text) => sink.text(text),
        Token::Comment(comment) => sink.comment(comment),
        Token::CData(cdata) => sink.cdata(cdata),
        Token::Doctype(doctype) => sink.doctype(doctype),
        Token::ProcessingInstruction(instruction) => sink.processing_instruction(instruction),
        Token::FinishDocument => sink.finish_document(),
    }
}

/// What parsing ends in once the sink has taken every event: the syntax error, if the
/// document has one, else success.
pub open spec fn syntax_outcome<E>(b: Seq<u8>) -> Result<(), ParseError<E>> {
    match document_error::<E>(b) {
        Some(e) => Err(e),
        None => Ok(()),
    }
}

/// Reads `source` and hands its events to `sink` in source order, ending with
/// `finish_document`. Stops at the first syntax error, or at the first error of the sink.
///
/// The sink is handed exactly the document's events (`document_events`, those before
/// the syntax error where there is one), one call each and in order, until a call fails;
/// that call's error is the result and no call follows it. If every call succeeds, the
/// result is the syntax error or `Ok`.
pub fn parse_with_sink<'src, S: SvgSink<'src>>(source: &'src str, sink: &mut S) -> (r: Result<
    (),
    ParseError<S::Error>,
>)
    ensures
        sink_run(
            *old(sink),
            document_events::<S::Error>(source.spec_bytes()),
            syntax_outcome::<S::Error>(source.spec_bytes()),
            r,
            *final(sink),
        ),
{
    let mut tokenizer = Tokenizer::new(source);
    let ghost b = source.spec_bytes();
    let ghost start = *sink;
    let ghost total = document_events::<S::Error>(b);
    let ghost tail = syntax_outcome::<S::Error>(b);
    loop
        invariant
            tokenizer.wf(),
            tokenizer.b() == b,
            b == source.spec_bytes(),
            start == *old(sink),
            total == document_events::<S::Error>(b),
            tail == syntax_outcome::<S::Error>(b),
            lex_run::<S::Error>(b, tokenizer.state()).1 == document_error::<S::Error>(b),
            forall|r0: Result<(), ParseError<S::Error>>, s0: S|
                #[trigger] sink_run(*sink, lex_run::<S::Error>(b, tokenizer.state()).0, tail, r0, s0)
                    ==> sink_run(start, total, tail, r0, s0),
        decreases lex_measure(b, tokenizer.state()),
    {
        let ghost st = tokenizer.state();
        let ghost here = *sink;
        match tokenizer.next_event::<S::Error>() {
            Err(e) => {
                assert(lex_next::<S::Error>(b, st) == LexStep::<S::Error>::Fail(e));
                assert(lex_run::<S::Error>(b, st).1 == Some(e));
                assert(lex_run::<S::Error>(b, st).0 =~= Seq::<SvgEvent>::empty());
                assert(sink_run(here, lex_run::<S::Error>(b, st).0, tail, Err(e), here));
                return Err(e);
            },
            Ok(None) => {
                assert(lex_next::<S::Error>(b, st) is Done);
                assert(lex_run::<S::Error>(b, st).1 is None);
                assert(lex_run::<S::Error>(b, st).0 =~= Seq::<SvgEvent>::empty());
                assert(sink_run(here, lex_run::<S::Error>(b, st).0, tail, Ok(()), here));
                return Ok(());
            },
            Ok(Some(token)) => {
                proof {
                    lemma_next_progress::<S::Error>(b, st);
                    lemma_run_step::<S::Error>(b, st);
                }
                let ghost ev = token@;
                let ghost rest = lex_run::<S::Error>(b, tokenizer.state()).0;
                assert(lex_run::<S::Error>(b, st).0[0] == ev);
                assert(lex_run::<S::Error>(b, st).0.drop_first() =~= rest);
                let delivered = deliver(sink, token);
                assert(sink_step(here, ev, delivered, *sink));
                match delivered {
                    Ok(()) => {
                        assert forall|r0: Result<(), ParseError<S::Error>>, s0: S|
                            #[trigger] sink_run(*sink, rest, tail, r0, s0) implies sink_run(
                            start,
                            total,
                            tail,
                            r0,
                            s0,
                        ) by {
                            assert(sink_step(here, ev, delivered, *sink));
                            assert(sink_run(here, lex_run::<S::Error>(b, st).0, tail, r0, s0));
                        }
                    },
                    Err(e) => {
                        let ghost r0 = Err::<(), ParseError<S::Error>>(ParseError::Sink(e));
                        assert(sink_step(here, ev, Err(e), *sink));
                        assert(sink_run(here, lex_run::<S::Error>(b, st).0, tail, r0, *sink));
                        return Err(ParseError::Sink(e));
                    },
                }
            },
        }
    }
}

/// Where handing events to a sink ends in an error that is not the sink's, that error is
/// the one the run was to end in: so the syntax error that `parse_with_sink` reports is
/// the document's syntax error, the one `parse` reports.
pub proof fn law_sink_run_keeps_syntax_errors<'src, S: SvgSink<'src>>(
    s: S,
    evs: Seq<SvgEvent>,
    tail: Result<(), ParseError<S::Error>>,
    r: Result<(), ParseError<S::Error>>,
    after: S,
)
    requires
        sink_run(s, evs, tail, r, after),
        r matches Err(e) && !(e is Sink),
    ensures
        r == tail,
    decreases evs.len(),
{
    if evs.len() > 0 {
        let (mid, r1) = choose|mid: S, r1: Result<(), S::Error>|
            #[trigger] sink_step(s, evs[0], r1, mid) && match r1 {
                Ok(()) => sink_run(mid, evs.drop_first(), tail, r, after),
                Err(e) => r == Err::<(), ParseError<S::Error>>(ParseError::Sink(e)) && after == mid,
            };
        match r1 {
            Ok(()) => law_sink_run_keeps_syntax_errors(mid, evs.drop_first(), tail, r, after),
            Err(_) => {},
        }
    }
}

/// Whether `r` is what parsing the bytes `b` into a tree gives: the tree of the document's
/// events, or the first error of the tree, or else the syntax error.
pub open spec fn parse_outcome<'src>(
    b: Seq<u8>,
    r: Result<SvgDocument<'src>, ParseError<TreeSinkError<'src>>>,
) -> bool {
    let run = lex_run::<TreeSinkError<'src>>(b, initial_state());
    match tree_run(empty_tree(), run.0) {
        Err(te) => r matches Err(ParseError::Sink(e)) && e@ == te,
        Ok(t) => match run.1 {
            Some(e) => r == Err::<SvgDocument<'src>, ParseError<TreeSinkError<'src>>>(e),
            None => r matches Ok(doc) && doc@ == t.document,
        },
    }
}

/// Parses `source` into a tree of nodes.
pub fn parse<'src>(source: &'src str) -> (r: Result<SvgDocument<'src>, ParseError<TreeSinkError<'src>>>)
    ensures
        parse_outcome(source.spec_bytes(), r),
{
    let mut sink = TreeSink::new();
    let mut tokenizer = Tokenizer::new(source);
    let ghost b = source.spec_bytes();
    let ghost total = lex_run::<TreeSinkError<'src>>(b, initial_state());
    let ghost mut done: Seq<SvgEvent> = Seq::empty();
    assert(done + total.0 =~= total.0);
    proof {
        reveal_with_fuel(tree_run, 1);
    }
    loop
        invariant
            tokenizer.wf(),
            tokenizer.b() == b,
            b == source.spec_bytes(),
            total == lex_run::<TreeSinkError<'src>>(b, initial_state()),
            lex_run::<TreeSinkError<'src>>(b, tokenizer.state()).1 == total.1,
            done + lex_run::<TreeSinkError<'src>>(b, tokenizer.state()).0 == total.0,
            tree_run(empty_tree(), done) == Ok::<_, crate::tree::TreeErrorModel>(sink@),
        decreases lex_measure(b, tokenizer.state()),
    {
        let ghost st = tokenizer.state();
        match tokenizer.next_event::<TreeSinkError<'src>>() {
            Err(e) => {
                assert(lex_run::<TreeSinkError<'src>>(b, st).0 =~= Seq::<SvgEvent>::empty());
                assert(done =~= total.0);
                return Err(e);
            },
            Ok(None) => {
                assert(lex_run::<TreeSinkError<'src>>(b, st).0 =~= Seq::<SvgEvent>::empty());
                assert(done =~= total.0);
                return Ok(sink.finish());
            },
            Ok(Some(token)) => {
                proof {
                    lemma_next_progress::<TreeSinkError<'src>>(b, st);
                    lemma_run_step::<TreeSinkError<'src>>(b, st);
                }
                let ghost ev = token@;
                let ghost rest = lex_run::<TreeSinkError<'src>>(b, tokenizer.state()).0;
                proof {
                    lemma_tree_run_concat(empty_tree(), done, seq![ev]);
                    lemma_tree_run_one(sink@, ev);
                    assert(done + (seq![ev] + rest) =~= done.push(ev) + rest);
                    assert(done + seq![ev] =~= done.push(ev));
                }
                match sink.apply(token) {
                    Ok(()) => {
                        proof {
                            done = done.push(ev);
                        }
                    },
                    Err(e) => {
                        proof {
                            lemma_tree_run_concat(empty_tree(), done.push(ev), rest);
                        }
                        return Err(ParseError::Sink(e));
                    },
                }
            },
        }
    }
}
} // verus!
