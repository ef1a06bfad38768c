use vstd::prelude::*;

use crate::events::{
    Attribute, CData, Comment, Doctype, EndElement, FinishStartElement, ProcessingInstruction,
    QuoteKind, Span, StartElement, SvgEvent, SvgSink, Text,
};
use crate::lexer::Token;
use crate::text::str_eq;
use crate::error::ErrorMessage;
use vstd::string::StringExecFns;

verus! {

#[derive(Debug)]
pub struct SvgDocument<'src> {
    pub children: Vec<SvgNode<'src>>,
}

#[derive(Debug)]
pub enum SvgNode<'src> {
    Element(SvgElement<'src>),
    Text(TextNode<'src>),
    Comment(CommentNode<'src>),
    CData(CDataNode<'src>),
    Doctype(DoctypeNode<'src>),
    ProcessingInstruction(ProcessingInstructionNode<'src>),
}

#[derive(Debug)]
pub struct SvgElement<'src> {
    pub name: &'src str,
    pub attributes: Vec<SvgAttribute<'src>>,
    pub children: Vec<SvgNode<'src>>,
    pub span: Span,
}

#[derive(Debug, Clone)]
pub struct SvgAttribute<'src> {
    pub name: &'src str,
    pub value: Option<&'src str>,
    pub span: Span,
    pub name_span: Span,
    pub value_span: Option<Span>,
    pub quote: Option<QuoteKind>,
}

#[derive(Debug, Clone)]
pub struct TextNode<'src> {
    pub value: &'src str,
    pub span: Span,
}

#[derive(Debug, Clone)]
pub struct CommentNode<'src> {
    pub value: &'src str,
    pub span: Span,
}

#[derive(Debug, Clone)]
pub struct CDataNode<'src> {
    pub value: &'src str,
    pub span: Span,
}

#[derive(Debug, Clone)]
pub struct DoctypeNode<'src> {
    pub value: &'src str,
    pub span: Span,
}

#[derive(Debug, Clone)]
pub struct ProcessingInstructionNode<'src> {
    pub value: &'src str,
    pub span: Span,
}

/// An attribute, with its strings given by their characters.
pub struct AttrModel {
    pub name: Seq<char>,
    pub value: Option<Seq<char>>,
    pub span: Span,
    pub name_span: Span,
    pub value_span: Option<Span>,
    pub quote: Option<QuoteKind>,
}

/// A node of a document, with its strings given by their characters.
pub enum NodeModel {
    Element { name: Seq<char>, attributes: Seq<AttrModel>, children: Seq<NodeModel>, span: Span },
    Text { value: Seq<char>, span: Span },
    Comment { value: Seq<char>, span: Span },
    CData { value: Seq<char>, span: Span },
    Doctype { value: Seq<char>, span: Span },
    ProcessingInstruction { value: Seq<char>, span: Span },
}

/// An element whose start tag has been read but whose end has not.
pub struct FrameModel {
    pub name: Seq<char>,
    pub attributes: Seq<AttrModel>,
    pub children: Seq<NodeModel>,
    pub span: Span,
}

/// The state of building a tree: the finished top-level nodes and the open elements.
pub struct TreeModel {
    pub document: Seq<NodeModel>,
    pub stack: Seq<FrameModel>,
}

pub enum TreeErrorModel {
    NoCurrentElement { span: Span },
    UnexpectedClosingTag { name: Seq<char>, span: Span },
    MismatchedClosingTag { expected: Seq<char>, found: Seq<char>, span: Span },
    UnclosedElements { names: Seq<Seq<char>> },
}

pub open spec fn empty_tree() -> TreeModel {
    TreeModel { document: Seq::empty(), stack: Seq::empty() }
}

pub open spec fn frame_element(f: FrameModel) -> NodeModel {
    NodeModel::Element { name: f.name, attributes: f.attributes, children: f.children, span: f.span }
}

/// Adds `node` to the innermost open element, or to the document when none is open.
pub open spec fn attach(t: TreeModel, node: NodeModel) -> TreeModel {
    if t.stack.len() > 0 {
        let f = t.stack.last();
        TreeModel {
            document: t.document,
            stack: t.stack.drop_last().push(FrameModel { children: f.children.push(node), ..f }),
        }
    } else {
        TreeModel { document: t.document.push(node), stack: t.stack }
    }
}

pub open spec fn with_end(f: FrameModel, end: usize) -> FrameModel {
    FrameModel { span: Span { start: f.span.start, end }, ..f }
}

pub open spec fn frame_names(stack: Seq<FrameModel>) -> Seq<Seq<char>> {
    stack.map_values(|f: FrameModel| f.name)
}

/// What the tree sink does with one event.
pub open spec fn tree_step(t: TreeModel, ev: SvgEvent) -> Result<TreeModel, TreeErrorModel> {
    match ev {
        SvgEvent::StartElement { name, span, .. } => Ok(
            TreeModel {
                document: t.document,
                stack: t.stack.push(
                    FrameModel { name, attributes: Seq::empty(), children: Seq::empty(), span },
                ),
            },
        ),
        SvgEvent::Attribute { name, value, span, name_span, value_span, quote } => {
            if t.stack.len() == 0 {
                Err(TreeErrorModel::NoCurrentElement { span })
            } else {
                let f = t.stack.last();
                let a = AttrModel { name, value, span, name_span, value_span, quote };
                Ok(
                    TreeModel {
                        document: t.document,
                        stack: t.stack.drop_last().push(
                            FrameModel { attributes: f.attributes.push(a), ..f },
                        ),
                    },
                )
            }
        },
        SvgEvent::FinishStartElement { self_closing, span } => {
            if self_closing {
                if t.stack.len() == 0 {
                    Err(TreeErrorModel::NoCurrentElement { span })
                } else {
                    let f = with_end(t.stack.last(), span.end);
                    Ok(
                        attach(
                            TreeModel { document: t.document, stack: t.stack.drop_last() },
                            frame_element(f),
                        ),
                    )
                }
            } else if t.stack.len() > 0 {
                Ok(
                    TreeModel {
                        document: t.document,
                        stack: t.stack.drop_last().push(with_end(t.stack.last(), span.end)),
                    },
                )
            } else {
                Ok(t)
            }
        },
        SvgEvent::EndElement { name, span, .. } => {
            if t.stack.len() == 0 {
                Err(TreeErrorModel::UnexpectedClosingTag { name, span })
            } else if t.stack.last().name != name {
                Err(
                    TreeErrorModel::MismatchedClosingTag {
                        expected: t.stack.last().name,
                        found: name,
                        span,
                    },
                )
            } else {
                let f = with_end(t.stack.last(), span.end);
                Ok(
                    attach(
                        TreeModel { document: t.document, stack: t.stack.drop_last() },
                        frame_element(f),
                    ),
                )
            }
        },
        SvgEvent::Text { value, span } => Ok(attach(t, NodeModel::Text { value, span })),
        SvgEvent::Comment { value, span } => Ok(attach(t, NodeModel::Comment { value, span })),
        SvgEvent::CData { value, span } => Ok(attach(t, NodeModel::CData { value, span })),
        SvgEvent::Doctype { value, span } => Ok(attach(t, NodeModel::Doctype { value, span })),
        SvgEvent::ProcessingInstruction { value, span } => Ok(
            attach(t, NodeModel::ProcessingInstruction { value, span }),
        ),
        SvgEvent::FinishDocument => {
            if t.stack.len() == 0 {
                Ok(t)
            } else {
                Err(TreeErrorModel::UnclosedElements { names: frame_names(t.stack) })
            }
        },
    }
}

/// The tree built from `t` by the events `evs`, in order; the first error stops it.
pub open spec fn tree_run(t: TreeModel, evs: Seq<SvgEvent>) -> Result<TreeModel, TreeErrorModel>
    decreases evs.len(),
{
    if evs.len() == 0 {
        Ok(t)
    } else {
        match tree_step(t, evs[0]) {
            Ok(t2) => tree_run(t2, evs.drop_first()),
            Err(e) => Err(e),
        }
    }
}

pub open spec fn attr_view<'src>(a: SvgAttribute<'src>) -> AttrModel {
    AttrModel {
        name: a.name@,
        value: crate::events::opt_str_view(a.value),
        span: a.span,
        name_span: a.name_span,
        value_span: a.value_span,
        quote: a.quote,
    }
}

pub open spec fn attrs_view<'src>(s: Seq<SvgAttribute<'src>>) -> Seq<AttrModel> {
    s.map_values(|a: SvgAttribute<'src>| attr_view(a))
}

pub open spec fn node_view<'src>(n: SvgNode<'src>) -> NodeModel
    decreases n, 0int,
{
    match n {
        SvgNode::Element(e) => NodeModel::Element {
            name: e.name@,
            attributes: attrs_view(e.attributes@),
            children: nodes_view(e.children@),
            span: e.span,
        },
        SvgNode::Text(t) => NodeModel::Text { value: t.value@, span: t.span },
        SvgNode::Comment(t) => NodeModel::Comment { value: t.value@, span: t.span },
        SvgNode::CData(t) => NodeModel::CData { value: t.value@, span: t.span },
        SvgNode::Doctype(t) => NodeModel::Doctype { value: t.value@, span: t.span },
        SvgNode::ProcessingInstruction(t) => NodeModel::ProcessingInstruction {
            value: t.value@,
            span: t.span,
        },
    }
}

pub open spec fn nodes_view<'src>(s: Seq<SvgNode<'src>>) -> Seq<NodeModel>
    decreases s, 1int,
{
    if s.len() == 0 {
        Seq::empty()
    } else {
        nodes_view(s.drop_last()).push(node_view(s.last()))
    }
}

impl<'src> View for SvgDocument<'src> {
    type V = Seq<NodeModel>;

    open spec fn view(&self) -> Seq<NodeModel> {
        nodes_view(self.children@)
    }
}


#[derive(Debug, Clone)]
pub enum TreeSinkError<'src> {
    NoCurrentElement { span: Span },
    UnexpectedClosingTag { name: &'src str, span: Span },
    MismatchedClosingTag { expected: &'src str, found: &'src str, span: Span },
    UnclosedElements { names: Vec<&'src str> },
}

impl<'src> View for TreeSinkError<'src> {
    type V = TreeErrorModel;

    open spec fn view(&self) -> TreeErrorModel {
        match self {
            TreeSinkError::NoCurrentElement { span } => TreeErrorModel::NoCurrentElement { span: *span },
            TreeSinkError::UnexpectedClosingTag { name, span } => TreeErrorModel::UnexpectedClosingTag {
                name: name@,
                span: *span,
            },
            TreeSinkError::MismatchedClosingTag { expected, found, span } => TreeErrorModel::MismatchedClosingTag {
                expected: expected@,
                found: found@,
                span: *span,
            },
            TreeSinkError::UnclosedElements { names } => TreeErrorModel::UnclosedElements {
                names: names@.map_values(|n: &str| n@),
            },
        }
    }
}

/// An open element while its content is read.
#[derive(Debug)]
struct ElementFrame<'src> {
    name: &'src str,
    attributes: Vec<SvgAttribute<'src>>,
    children: Vec<SvgNode<'src>>,
    span: Span,
}

spec fn frame_view<'src>(f: ElementFrame<'src>) -> FrameModel {
    FrameModel {
        name: f.name@,
        attributes: attrs_view(f.attributes@),
        children: nodes_view(f.children@),
        span: f.span,
    }
}

impl<'src> ElementFrame<'src> {
    fn into_element(self) -> (r: SvgElement<'src>)
        ensures
            node_view(SvgNode::Element(r)) == frame_element(frame_view(self)),
    {
        SvgElement {
            name: self.name,
            attributes: self.attributes,
            children: self.children,
            span: self.span,
        }
    }
}

pub proof fn lemma_nodes_view_push<'src>(s: Seq<SvgNode<'src>>, x: SvgNode<'src>)
    ensures
        nodes_view(s.push(x)) == nodes_view(s).push(node_view(x)),
{
    assert(s.push(x).drop_last() =~= s);
}

/// Builds an `SvgDocument` from the events it is given.
#[derive(Debug)]
pub struct TreeSink<'src> {
    document: SvgDocument<'src>,
    stack: Vec<ElementFrame<'src>>,
}

impl<'src> View for TreeSink<'src> {
    type V = TreeModel;

    closed spec fn view(&self) -> TreeModel {
        TreeModel {
            document: nodes_view(self.document.children@),
            stack: self.stack@.map_values(|f: ElementFrame<'src>| frame_view(f)),
        }
    }
}

impl<'src> TreeSink<'src> {
    pub fn new() -> (r: Self)
        ensures
            r@ == empty_tree(),
    {
        let r = TreeSink { document: SvgDocument { children: Vec::new() }, stack: Vec::new() };
        assert(r@.document =~= Seq::<NodeModel>::empty());
        assert(r@.stack =~= Seq::<FrameModel>::empty());
        r
    }

    /// The document built so far.
    pub fn finish(self) -> (r: SvgDocument<'src>)
        ensures
            r@ == self@.document,
    {
        self.document
    }

    fn attach_node(&mut self, node: SvgNode<'src>)
        ensures
            final(self)@ == attach(old(self)@, node_view(node)),
    {
        let ghost old_view = self@;
        if self.stack.len() > 0 {
            let mut frame = self.stack.pop().unwrap();
            let ghost old_children = frame.children@;
            frame.children.push(node);
            proof {
                lemma_nodes_view_push(old_children, node);
            }
            self.stack.push(frame);
            let ghost expected = attach(old_view, node_view(node));
            assert(self@.stack =~= expected.stack);
        } else {
            let ghost old_children = self.document.children@;
            self.document.children.push(node);
            proof {
                lemma_nodes_view_push(old_children, node);
            }
            assert(self@.stack =~= old_view.stack);
        }
    }
}


pub proof fn lemma_tree_run_concat(t: TreeModel, s1: Seq<SvgEvent>, s2: Seq<SvgEvent>)
    ensures
        tree_run(t, s1 + s2) == match tree_run(t, s1) {
            Ok(t1) => tree_run(t1, s2),
            Err(e) => Err(e),
        },
    decreases s1.len(),
{
    if s1.len() == 0 {
        assert(s1 + s2 =~= s2);
    } else {
        assert((s1 + s2).drop_first() =~= s1.drop_first() + s2);
        assert((s1 + s2)[0] == s1[0]);
        match tree_step(t, s1[0]) {
            Ok(t2) => lemma_tree_run_concat(t2, s1.drop_first(), s2),
            Err(_) => {},
        }
    }
}

pub proof fn lemma_tree_run_one(t: TreeModel, ev: SvgEvent)
    ensures
        tree_run(t, seq![ev]) == tree_step(t, ev),
{
    reveal_with_fuel(tree_run, 2);
    assert(seq![ev].drop_first() =~= Seq::<SvgEvent>::empty());
}

impl<'src> TreeSink<'src> {
    fn replace_top(&mut self, frame: ElementFrame<'src>)
        requires
            old(self)@.stack.len() > 0,
        ensures
            final(self)@ == (TreeModel {
                document: old(self)@.document,
                stack: old(self)@.stack.drop_last().push(frame_view(frame)),
            }),
    {
        let ghost old_view = self@;
        let _ = self.stack.pop();
        self.stack.push(frame);
        assert(self@.stack =~= old_view.stack.drop_last().push(frame_view(frame)));
    }

    /// Takes one event; the exact change is `tree_step`.
    pub fn apply(&mut self, token: Token<'src>) -> (r: Result<(), TreeSinkError<'src>>)
        ensures
            match tree_step(old(self)@, token@) {
                Ok(t) => r is Ok && final(self)@ == t,
                Err(e) => r matches Err(x) && x@ == e,
            },
    {
        let ghost old_view = self@;
        match token {
            Token::StartElement(event) => {
                let frame = ElementFrame {
                    name: event.name,
                    attributes: Vec::new(),
                    children: Vec::new(),
                    span: event.span,
                };
                assert(frame_view(frame).attributes =~= Seq::<AttrModel>::empty());
                assert(frame_view(frame).children =~= Seq::<NodeModel>::empty());
                self.stack.push(frame);
                assert(self@.stack =~= old_view.stack.push(frame_view(frame)));
                Ok(())
            },
            Token::Attribute(attr) => {
                match self.stack.pop() {
                    None => Err(TreeSinkError::NoCurrentElement { span: attr.span }),
                    Some(mut frame) => {
                        let ghost old_attrs = frame.attributes@;
                        frame.attributes.push(
                            SvgAttribute {
                                name: attr.name,
                                value: attr.value,
                                span: attr.span,
                                name_span: attr.name_span,
                                value_span: attr.value_span,
                                quote: attr.quote,
                            },
                        );
                        assert(attrs_view(frame.attributes@) =~= attrs_view(old_attrs).push(
                            attr_view(frame.attributes@.last()),
                        ));
                        self.stack.push(frame);
                        assert(self@.stack =~= old_view.stack.drop_last().push(frame_view(frame)));
                        Ok(())
                    },
                }
            },
            Token::FinishStartElement(event) => {
                if event.self_closing {
                    match self.stack.pop() {
                        None => Err(TreeSinkError::NoCurrentElement { span: event.span }),
                        Some(mut frame) => {
                            frame.span.end = event.span.end;
                            assert(self@.stack =~= old_view.stack.drop_last());
                            self.attach_node(SvgNode::Element(frame.into_element()));
                            Ok(())
                        },
                    }
                } else {
                    if self.stack.len() > 0 {
                        let mut frame = self.stack.pop().unwrap();
                        frame.span.end = event.span.end;
                        self.stack.push(frame);
                        assert(self@.stack =~= old_view.stack.drop_last().push(frame_view(frame)));
                    }
                    Ok(())
                }
            },
            Token::EndElement(event) => {
                match self.stack.pop() {
                    None => Err(TreeSinkError::UnexpectedClosingTag { name: event.name, span: event.span }),
                    Some(mut frame) => {
                        if !str_eq(frame.name, event.name) {
                            return Err(
                                TreeSinkError::MismatchedClosingTag {
                                    expected: frame.name,
                                    found: event.name,
                                    span: event.span,
                                },
                            );
                        }
                        frame.span.end = event.span.end;
                        assert(self@.stack =~= old_view.stack.drop_last());
                        self.attach_node(SvgNode::Element(frame.into_element()));
                        Ok(())
                    },
                }
            },
            Token::Text(text) => {
                self.attach_node(SvgNode::Text(TextNode { value: text.value, span: text.span }));
                Ok(())
            },
            Token::Comment(comment) => {
                self.attach_node(
                    SvgNode::Comment(CommentNode { value: comment.value, span: comment.span }),
                );
                Ok(())
            },
            Token::CData(cdata) => {
                self.attach_node(SvgNode::CData(CDataNode { value: cdata.value, span: cdata.span }));
                Ok(())
            },
            Token::Doctype(doctype) => {
                self.attach_node(
                    SvgNode::Doctype(DoctypeNode { value: doctype.value, span: doctype.span }),
                );
                Ok(())
            },
            Token::ProcessingInstruction(instruction) => {
                self.attach_node(
                    SvgNode::ProcessingInstruction(
                        ProcessingInstructionNode { value: instruction.value, span: instruction.span },
                    ),
                );
                Ok(())
            },
            Token::FinishDocument => {
                if self.stack.len() == 0 {
                    return Ok(());
                }
                let mut names: Vec<&'src str> = Vec::new();
                let mut i: usize = 0;
                while i < self.stack.len()
                    invariant
                        i <= self.stack@.len(),
                        self@ == old_view,
                        names@.len() == i,
                        forall|k: int| 0 <= k < i ==> #[trigger] names@[k]@ == self.stack@[k].name@,
                    decreases self.stack@.len() - i,
                {
                    names.push(self.stack[i].name);
                    i = i + 1;
                }
                assert(names@.map_values(|n: &str| n@) =~= frame_names(old_view.stack));
                Err(TreeSinkError::UnclosedElements { names })
            },
        }
    }
}

impl<'src> Default for TreeSink<'src> {
    fn default() -> (r: Self)
        ensures
            r@ == empty_tree(),
    {
        TreeSink::new()
    }
}

impl<'src> SvgSink<'src> for TreeSink<'src> {
    type Error = TreeSinkError<'src>;

    /// A call makes the step `tree_step` describes, or returns its error.
    open spec fn accepts(&self, ev: SvgEvent, r: Result<(), TreeSinkError<'src>>, after: Self) -> bool {
        match tree_step(self@, ev) {
            Ok(t) => r is Ok && after@ == t,
            Err(e) => r matches Err(x) && x@ == e,
        }
    }

    fn start_element(&mut self, event: StartElement<'src>) -> (r: Result<(), TreeSinkError<'src>>)
        ensures
            match tree_step(old(self)@, event@) {
                Ok(t) => r is Ok && final(self)@ == t,
                Err(e) => r matches Err(x) && x@ == e,
            },
    {
        self.apply(Token::StartElement(event))
    }

    fn attribute(&mut self, attr: Attribute<'src>) -> (r: Result<(), TreeSinkError<'src>>)
        ensures
            match tree_step(old(self)@, attr@) {
                Ok(t) => r is Ok && final(self)@ == t,
                Err(e) => r matches Err(x) && x@ == e,
            },
    {
        self.apply(Token::Attribute(attr))
    }

    fn finish_start_element(&mut self, event: FinishStartElement) -> (r: Result<(), TreeSinkError<'src>>)
        ensures
            match tree_step(old(self)@, event@) {
                Ok(t) => r is Ok && final(self)@ == t,
                Err(e) => r matches Err(x) && x@ == e,
            },
    {
        self.apply(Token::FinishStartElement(event))
    }

    fn end_element(&mut self, event: EndElement<'src>) -> (r: Result<(), TreeSinkError<'src>>)
        ensures
            match tree_step(old(self)@, event@) {
                Ok(t) => r is Ok && final(self)@ == t,
                Err(e) => r matches Err(x) && x@ == e,
            },
    {
        self.apply(Token::EndElement(event))
    }

    fn text(&mut self, text: Text<'src>) -> (r: Result<(), TreeSinkError<'src>>)
        ensures
            match tree_step(old(self)@, text@) {
                Ok(t) => r is Ok && final(self)@ == t,
                Err(e) => r matches Err(x) && x@ == e,
            },
    {
        self.apply(Token::Text(text))
    }

    fn comment(&mut self, comment: Comment<'src>) -> (r: Result<(), TreeSinkError<'src>>)
        ensures
            match tree_step(old(self)@, comment@) {
                Ok(t) => r is Ok && final(self)@ == t,
                Err(e) => r matches Err(x) && x@ == e,
            },
    {
        self.apply(Token::Comment(comment))
    }

    fn cdata(&mut self, cdata: CData<'src>) -> (r: Result<(), TreeSinkError<'src>>)
        ensures
            match tree_step(old(self)@, cdata@) {
                Ok(t) => r is Ok && final(self)@ == t,
                Err(e) => r matches Err(x) && x@ == e,
            },
    {
        self.apply(Token::CData(cdata))
    }

    fn doctype(&mut self, doctype: Doctype<'src>) -> (r: Result<(), TreeSinkError<'src>>)
        ensures
            match tree_step(old(self)@, doctype@) {
                Ok(t) => r is Ok && final(self)@ == t,
                Err(e) => r matches Err(x) && x@ == e,
            },
    {
        self.apply(Token::Doctype(doctype))
    }

    fn processing_instruction(
        &mut self,
        instruction: ProcessingInstruction<'src>,
    ) -> (r: Result<(), TreeSinkError<'src>>)
        ensures
            match tree_step(old(self)@, instruction@) {
                Ok(t) => r is Ok && final(self)@ == t,
                Err(e) => r matches Err(x) && x@ == e,
            },
    {
        self.apply(Token::ProcessingInstruction(instruction))
    }

    fn finish_document(&mut self) -> (r: Result<(), TreeSinkError<'src>>)
        ensures
            match tree_step(old(self)@, SvgEvent::FinishDocument) {
                Ok(t) => r is Ok && final(self)@ == t,
                Err(e) => r matches Err(x) && x@ == e,
            },
    {
        self.apply(Token::FinishDocument)
    }
}

/// The strings of `list`, with `sep` between each two.
pub open spec fn join_chars(list: Seq<Seq<char>>, sep: Seq<char>) -> Seq<char>
    decreases list.len(),
{
    if list.len() == 0 {
        Seq::empty()
    } else if list.len() == 1 {
        list[0]
    } else {
        join_chars(list.drop_last(), sep) + sep + list.last()
    }
}

pub open spec fn tree_error_message(e: TreeErrorModel) -> Seq<char> {
    match e {
        TreeErrorModel::NoCurrentElement { .. } => "no current element"@,
        TreeErrorModel::UnexpectedClosingTag { name, .. } => "unexpected closing tag </"@ + name
            + ">"@,
        TreeErrorModel::MismatchedClosingTag { expected, found, .. } => "expected closing tag </"@
            + expected + "> but found </"@ + found + ">"@,
        TreeErrorModel::UnclosedElements { names } => "unclosed elements: "@ + join_chars(
            names,
            ", "@,
        ),
    }
}

impl<'src> TreeSinkError<'src> {
    pub fn text(&self) -> (r: String)
        ensures
            r@ == tree_error_message(self@),
    {
        match self {
            TreeSinkError::NoCurrentElement { .. } => String::from_str("no current element"),
            TreeSinkError::UnexpectedClosingTag { name, .. } => {
                let mut s = String::from_str("unexpected closing tag </");
                s.append(name);
                s.append(">");
                s
            },
            TreeSinkError::MismatchedClosingTag { expected, found, .. } => {
                let mut s = String::from_str("expected closing tag </");
                s.append(expected);
                s.append("> but found </");
                s.append(found);
                s.append(">");
                s
            },
            TreeSinkError::UnclosedElements { names } => {
                let mut s = String::from_str("unclosed elements: ");
                let ghost prefix = s@;
                let ghost list = names@.map_values(|n: &str| n@);
                let mut i: usize = 0;
                while i < names.len()
                    invariant
                        i <= names@.len(),
                        list == names@.map_values(|n: &str| n@),
                        s@ == prefix + join_chars(list.take(i as int), ", "@),
                    decreases names@.len() - i,
                {
                    if i > 0 {
                        s.append(", ");
                    }
                    s.append(names[i]);
                    proof {
                        assert(list.take(i + 1).drop_last() =~= list.take(i as int));
                        if i == 0 {
                            assert(list.take(1) =~= seq![list[0]]);
                        }
                    }
                    i = i + 1;
                }
                assert(list.take(names@.len() as int) =~= list);
                s
            },
        }
    }
}

impl<'src> ErrorMessage for TreeSinkError<'src> {
    open spec fn describes(&self, m: Seq<char>) -> bool {
        m == tree_error_message(self@)
    }

    fn message(&self) -> (r: String) {
        self.text()
    }
}
} // verus!
