use vstd::prelude::*;

use crate::decode::decoded;
use crate::events::SvgEvent;
use crate::jsx::{AttrItemModel, ChildModel, ElementModel};
use crate::jsx_sink::{
    attach_child, attr_item_model, built_element, close_frame, empty_jsx_state, jsx_outcome,
    jsx_run, jsx_step, popped, sink_failure, FailureModel, JsxFrameModel, JsxStateModel,
    SinkError, SinkErrorModel,
};
use crate::lexer_lemmas::{lemma_run_ends_with_finish, lemma_run_independent};
use crate::lexer_spec::{initial_state, lex_run};
use crate::error::ParseError;
use crate::options::TransformOptions;
use crate::parser::parse_outcome;
use crate::tree::{
    attach, empty_tree, frame_element, lemma_tree_run_concat, lemma_tree_run_one, tree_run,
    tree_step, with_end, AttrModel, FrameModel, NodeModel, SvgDocument, TreeModel, TreeSinkError,
};

verus! {

/// The JSX attributes of the attributes of an SVG element named `element`.
pub open spec fn convert_attrs(ns: Seq<Seq<char>>, attrs: Seq<AttrModel>, element: Seq<char>) -> Seq<
    AttrItemModel,
> {
    attrs.map_values(|a: AttrModel| attr_item_model(a.name, a.value, element, ns))
}

/// The JSX child that a node of the tree becomes (`None`: it is left out), or the first error,
/// its children converted before it.
pub open spec fn convert_node(
    o: TransformOptions,
    ns: Seq<Seq<char>>,
    n: NodeModel,
    is_root: bool,
) -> Result<Option<ChildModel>, SinkErrorModel>
    decreases n, 0int,
{
    match n {
        NodeModel::Element { name, attributes, children, .. } => match convert_nodes(o, ns, children) {
            Err(e) => Err(e),
            Ok(kids) => match built_element(
                o,
                JsxFrameModel { name, attributes: convert_attrs(ns, attributes, name), children: kids },
                is_root,
            ) {
                Err(x) => Err(SinkErrorModel::InvalidExpression(x)),
                Ok(None) => Ok(None),
                Ok(Some(e)) => Ok(Some(ChildModel::Element(e))),
            },
        },
        NodeModel::Text { value, .. } => Ok(Some(ChildModel::Text(decoded(value)))),
        NodeModel::CData { value, .. } => Ok(Some(ChildModel::Text(decoded(value)))),
        _ => Ok(None),
    }
}

/// The JSX children of the nodes inside an element, in order.
pub open spec fn convert_nodes(o: TransformOptions, ns: Seq<Seq<char>>, s: Seq<NodeModel>) -> Result<
    Seq<ChildModel>,
    SinkErrorModel,
>
    decreases s, 1int,
{
    if s.len() == 0 {
        Ok(Seq::empty())
    } else {
        match convert_nodes(o, ns, s.drop_last()) {
            Err(e) => Err(e),
            Ok(prev) => match convert_node(o, ns, s.last(), false) {
                Err(e) => Err(e),
                Ok(None) => Ok(prev),
                Ok(Some(c)) => Ok(prev.push(c)),
            },
        }
    }
}

/// The root element of the top-level nodes of a document: the first element kept; another
/// element kept after it is an error, and other nodes are left out.
pub open spec fn convert_top(o: TransformOptions, ns: Seq<Seq<char>>, s: Seq<NodeModel>) -> Result<
    Option<ElementModel>,
    SinkErrorModel,
>
    decreases s.len(),
{
    if s.len() == 0 {
        Ok(None)
    } else {
        match convert_top(o, ns, s.drop_last()) {
            Err(e) => Err(e),
            Ok(r) => match convert_node(o, ns, s.last(), r is None) {
                Err(e) => Err(e),
                Ok(Some(ChildModel::Element(e))) => if r is None {
                    Ok(Some(e))
                } else {
                    Err(SinkErrorModel::MultipleRoots)
                },
                Ok(_) => Ok(r),
            },
        }
    }
}

pub open spec fn convert_frame(o: TransformOptions, ns: Seq<Seq<char>>, f: FrameModel) -> Result<
    JsxFrameModel,
    SinkErrorModel,
> {
    match convert_nodes(o, ns, f.children) {
        Err(e) => Err(e),
        Ok(kids) => Ok(
            JsxFrameModel {
                name: f.name,
                attributes: convert_attrs(ns, f.attributes, f.name),
                children: kids,
            },
        ),
    }
}

pub open spec fn convert_frames(o: TransformOptions, ns: Seq<Seq<char>>, s: Seq<FrameModel>) -> Result<
    Seq<JsxFrameModel>,
    SinkErrorModel,
>
    decreases s.len(),
{
    if s.len() == 0 {
        Ok(Seq::empty())
    } else {
        match convert_frames(o, ns, s.drop_last()) {
            Err(e) => Err(e),
            Ok(prev) => match convert_frame(o, ns, s.last()) {
                Err(e) => Err(e),
                Ok(f) => Ok(prev.push(f)),
            },
        }
    }
}

/// The state of building JSX that corresponds to a state of building the tree: its
/// document converted to a root, and its open elements converted to frames; or the first
/// error in document order.
pub open spec fn convert_state(o: TransformOptions, ns: Seq<Seq<char>>, t: TreeModel) -> Result<
    JsxStateModel,
    SinkErrorModel,
> {
    match convert_top(o, ns, t.document) {
        Err(e) => Err(e),
        Ok(root) => match convert_frames(o, ns, t.stack) {
            Err(e) => Err(e),
            Ok(frames) => Ok(JsxStateModel { stack: frames, root }),
        },
    }
}

pub open spec fn then_step(
    o: TransformOptions,
    ns: Seq<Seq<char>>,
    r: Result<JsxStateModel, SinkErrorModel>,
    ev: SvgEvent,
) -> Result<JsxStateModel, SinkErrorModel> {
    match r {
        Err(e) => Err(e),
        Ok(j) => jsx_step(o, ns, j, ev),
    }
}

proof fn lemma_frames_push(o: TransformOptions, ns: Seq<Seq<char>>, s: Seq<FrameModel>, f: FrameModel)
    ensures
        convert_frames(o, ns, s.push(f)) == match convert_frames(o, ns, s) {
            Err(e) => Err(e),
            Ok(prev) => match convert_frame(o, ns, f) {
                Err(e) => Err(e),
                Ok(g) => Ok(prev.push(g)),
            },
        },
{
    assert(s.push(f).drop_last() =~= s);
}

proof fn lemma_nodes_push(o: TransformOptions, ns: Seq<Seq<char>>, s: Seq<NodeModel>, n: NodeModel)
    ensures
        convert_nodes(o, ns, s.push(n)) == match convert_nodes(o, ns, s) {
            Err(e) => Err(e),
            Ok(prev) => match convert_node(o, ns, n, false) {
                Err(e) => Err(e),
                Ok(None) => Ok(prev),
                Ok(Some(c)) => Ok(prev.push(c)),
            },
        },
{
    assert(s.push(n).drop_last() =~= s);
}

proof fn lemma_top_push(o: TransformOptions, ns: Seq<Seq<char>>, s: Seq<NodeModel>, n: NodeModel)
    ensures
        convert_top(o, ns, s.push(n)) == match convert_top(o, ns, s) {
            Err(e) => Err(e),
            Ok(r) => match convert_node(o, ns, n, r is None) {
                Err(e) => Err(e),
                Ok(Some(ChildModel::Element(e))) => if r is None {
                    Ok(Some(e))
                } else {
                    Err(SinkErrorModel::MultipleRoots)
                },
                Ok(_) => Ok(r),
            },
        },
{
    assert(s.push(n).drop_last() =~= s);
}

proof fn lemma_attrs_push(ns: Seq<Seq<char>>, s: Seq<AttrModel>, a: AttrModel, element: Seq<char>)
    ensures
        convert_attrs(ns, s.push(a), element) == convert_attrs(ns, s, element).push(
            attr_item_model(a.name, a.value, element, ns),
        ),
{
    assert(convert_attrs(ns, s.push(a), element) =~= convert_attrs(ns, s, element).push(
        attr_item_model(a.name, a.value, element, ns),
    ));
}

/// Attaching a node to the tree is attaching its conversion to the JSX state.
proof fn lemma_attach(o: TransformOptions, ns: Seq<Seq<char>>, t: TreeModel, n: NodeModel)
    requires
        !(n is Element),
    ensures
        convert_state(o, ns, attach(t, n)) == match convert_state(o, ns, t) {
            Err(e) => Err(e),
            Ok(j) => match convert_node(o, ns, n, false) {
                Ok(Some(c)) => attach_child(j, c),
                _ => Ok(j),
            },
        },
{
    if t.stack.len() > 0 {
        let f = t.stack.last();
        let s = t.stack.drop_last();
        assert(t.stack == s.push(f));
        lemma_frames_push(o, ns, s, f);
        let f2 = FrameModel { children: f.children.push(n), ..f };
        lemma_frames_push(o, ns, s, f2);
        lemma_nodes_push(o, ns, f.children, n);
        match convert_state(o, ns, t) {
            Ok(j) => {
                assert(j.stack.drop_last() == convert_frames(o, ns, s)->Ok_0);
            },
            Err(_) => {},
        }
    } else {
        lemma_top_push(o, ns, t.document, n);
    }
}

/// Closing the top frame of the tree is closing the top frame of the JSX state.
proof fn lemma_close(o: TransformOptions, ns: Seq<Seq<char>>, t: TreeModel, end: usize)
    requires
        t.stack.len() > 0,
    ensures
        convert_state(
            o,
            ns,
            attach(
                TreeModel { document: t.document, stack: t.stack.drop_last() },
                frame_element(with_end(t.stack.last(), end)),
            ),
        ) == match convert_state(o, ns, t) {
            Err(e) => Err(e),
            Ok(j) => close_frame(o, popped(j), j.stack.last()),
        },
{
    let f = t.stack.last();
    let s = t.stack.drop_last();
    let n = frame_element(with_end(f, end));
    assert(t.stack == s.push(f));
    lemma_frames_push(o, ns, s, f);
    if s.len() > 0 {
        let g = s.last();
        let s0 = s.drop_last();
        assert(s == s0.push(g));
        lemma_frames_push(o, ns, s0, g);
        let g2 = FrameModel { children: g.children.push(n), ..g };
        lemma_frames_push(o, ns, s0, g2);
        lemma_nodes_push(o, ns, g.children, n);
        match convert_state(o, ns, t) {
            Ok(j) => {
                assert(popped(j).stack == convert_frames(o, ns, s)->Ok_0);
                assert(popped(j).stack.drop_last() == convert_frames(o, ns, s0)->Ok_0);
            },
            Err(_) => {},
        }
    } else {
        lemma_top_push(o, ns, t.document, n);
        match convert_state(o, ns, t) {
            Ok(j) => {
                assert(popped(j).stack =~= Seq::<JsxFrameModel>::empty());
            },
            Err(_) => {},
        }
    }
}

/// One event moves both builders in step: the JSX state of the tree after the event is the
/// JSX builder's step from the JSX state of the tree before it.
proof fn lemma_convert_step(o: TransformOptions, ns: Seq<Seq<char>>, t: TreeModel, ev: SvgEvent)
    requires
        tree_step(t, ev) is Ok,
    ensures
        convert_state(o, ns, tree_step(t, ev)->Ok_0) == then_step(o, ns, convert_state(o, ns, t), ev),
{
    match ev {
        SvgEvent::StartElement { name, span, .. } => {
            let f = FrameModel { name, attributes: Seq::empty(), children: Seq::empty(), span };
            lemma_frames_push(o, ns, t.stack, f);
            assert(convert_attrs(ns, Seq::empty(), name) =~= Seq::<AttrItemModel>::empty());
        },
        SvgEvent::Attribute { name, value, span, name_span, value_span, quote } => {
            let f = t.stack.last();
            let s = t.stack.drop_last();
            assert(t.stack == s.push(f));
            let a = AttrModel { name, value, span, name_span, value_span, quote };
            lemma_frames_push(o, ns, s, f);
            lemma_frames_push(o, ns, s, FrameModel { attributes: f.attributes.push(a), ..f });
            lemma_attrs_push(ns, f.attributes, a, f.name);
            match convert_state(o, ns, t) {
                Ok(j) => {
                    assert(j.stack.drop_last() == convert_frames(o, ns, s)->Ok_0);
                },
                Err(_) => {},
            }
        },
        SvgEvent::FinishStartElement { self_closing, span } => {
            if self_closing {
                lemma_close(o, ns, t, span.end);
            } else if t.stack.len() > 0 {
                let f = t.stack.last();
                let s = t.stack.drop_last();
                assert(t.stack == s.push(f));
                lemma_frames_push(o, ns, s, f);
                lemma_frames_push(o, ns, s, with_end(f, span.end));
                match convert_state(o, ns, t) {
                    Ok(j) => {
                        assert(convert_frames(o, ns, s.push(with_end(f, span.end))) == Ok::<
                            Seq<JsxFrameModel>,
                            SinkErrorModel,
                        >(j.stack));
                    },
                    Err(_) => {},
                }
            }
        },
        SvgEvent::EndElement { name, span, .. } => {
            lemma_close(o, ns, t, span.end);
        },
        SvgEvent::Text { value, span } => {
            lemma_attach(o, ns, t, NodeModel::Text { value, span });
        },
        SvgEvent::CData { value, span } => {
            lemma_attach(o, ns, t, NodeModel::CData { value, span });
        },
        SvgEvent::Comment { value, span } => {
            lemma_attach(o, ns, t, NodeModel::Comment { value, span });
        },
        SvgEvent::Doctype { value, span } => {
            lemma_attach(o, ns, t, NodeModel::Doctype { value, span });
        },
        SvgEvent::ProcessingInstruction { value, span } => {
            lemma_attach(o, ns, t, NodeModel::ProcessingInstruction { value, span });
        },
        SvgEvent::FinishDocument => {},
    }
}

/// Over events that build a tree, the JSX builder goes where converting the tree leads.
pub proof fn lemma_convert_run(
    o: TransformOptions,
    ns: Seq<Seq<char>>,
    t: TreeModel,
    evs: Seq<SvgEvent>,
)
    requires
        tree_run(t, evs) is Ok,
    ensures
        convert_state(o, ns, tree_run(t, evs)->Ok_0) == match convert_state(o, ns, t) {
            Err(e) => Err(e),
            Ok(j) => jsx_run(o, ns, j, evs),
        },
    decreases evs.len(),
{
    if evs.len() > 0 {
        let t1 = tree_step(t, evs[0])->Ok_0;
        lemma_convert_step(o, ns, t, evs[0]);
        lemma_convert_run(o, ns, t1, evs.drop_first());
    }
}

/// Building JSX from the events of a document is converting the document's tree node by node:
/// wherever the tree can be built from the events, the JSX builder ends in the state that
/// converting that tree gives, or with the first error of that conversion in document order.
pub proof fn law_jsx_converts_the_tree(o: TransformOptions, ns: Seq<Seq<char>>, evs: Seq<SvgEvent>)
    requires
        tree_run(empty_tree(), evs) is Ok,
    ensures
        jsx_run(o, ns, empty_jsx_state(), evs) == convert_state(o, ns, tree_run(empty_tree(), evs)->Ok_0),
{
    lemma_convert_run(o, ns, empty_tree(), evs);
    assert(convert_state(o, ns, empty_tree()) == Ok::<JsxStateModel, SinkErrorModel>(empty_jsx_state()));
}

/// A tree built from events that end with the end of the document has no open element.
proof fn lemma_finished_tree_closed(evs: Seq<SvgEvent>)
    requires
        evs.len() > 0,
        evs.last() == SvgEvent::FinishDocument,
        tree_run(empty_tree(), evs) is Ok,
    ensures
        tree_run(empty_tree(), evs)->Ok_0.stack.len() == 0,
{
    let init = evs.drop_last();
    assert(init + seq![SvgEvent::FinishDocument] =~= evs);
    lemma_tree_run_concat(empty_tree(), init, seq![SvgEvent::FinishDocument]);
    match tree_run(empty_tree(), init) {
        Ok(t1) => {
            lemma_tree_run_one(t1, SvgEvent::FinishDocument);
        },
        Err(_) => {},
    }
}

/// When the tree of a document builds, `svg_to_jsx` gives the document's root element
/// converted node by node, or the first error of that conversion.
pub proof fn law_svg_to_jsx_converts_the_parse_tree<E>(o: TransformOptions, ns: Seq<Seq<char>>, b: Seq<u8>)
    requires
        b.len() <= usize::MAX,
        lex_run::<E>(b, initial_state()).1 is None,
        tree_run(empty_tree(), lex_run::<E>(b, initial_state()).0) is Ok,
    ensures
        jsx_outcome(o, ns, b) == match convert_top(
            o,
            ns,
            tree_run(empty_tree(), lex_run::<E>(b, initial_state()).0)->Ok_0.document,
        ) {
            Err(e) => Err(sink_failure(e)),
            Ok(Some(r)) => Ok(r),
            Ok(None) => Err(FailureModel::BuildJsx("SVG document does not contain a root element"@)),
        },
{
    lemma_run_independent::<E, SinkError>(b, initial_state());
    lemma_run_ends_with_finish::<E>(b, initial_state());
    let evs = lex_run::<E>(b, initial_state()).0;
    lemma_finished_tree_closed(evs);
    law_jsx_converts_the_tree(o, ns, evs);
    let t = tree_run(empty_tree(), evs)->Ok_0;
    assert(convert_frames(o, ns, t.stack) == Ok::<Seq<JsxFrameModel>, SinkErrorModel>(Seq::empty()));
}

/// What `parse` makes of a document and what `svg_to_jsx` makes of it agree: when `parse`
/// gives the tree `doc`, `svg_to_jsx` gives the root element of `doc` converted node by node,
/// or the first error of that conversion.
pub proof fn law_svg_to_jsx_agrees_with_parse<'src>(
    o: TransformOptions,
    ns: Seq<Seq<char>>,
    b: Seq<u8>,
    r: Result<SvgDocument<'src>, ParseError<TreeSinkError<'src>>>,
)
    requires
        b.len() <= usize::MAX,
        parse_outcome(b, r),
        r is Ok,
    ensures
        jsx_outcome(o, ns, b) == match convert_top(o, ns, r->Ok_0@) {
            Err(e) => Err(sink_failure(e)),
            Ok(Some(root)) => Ok(root),
            Ok(None) => Err(FailureModel::BuildJsx("SVG document does not contain a root element"@)),
        },
{
    law_svg_to_jsx_converts_the_parse_tree::<TreeSinkError<'src>>(o, ns, b);
}

} // verus!
