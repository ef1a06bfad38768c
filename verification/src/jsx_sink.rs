use vstd::prelude::*;
use vstd::string::{StringExecFns, StringSliceAdditionalSpecFns};

use crate::attrs::{contains_name, strings_view};
use crate::decode::{decode_xml, decoded, normalize_attribute_value, normalized_value};
use crate::error::{syntax_message, ErrorMessage};
use crate::events::SvgEvent;
use crate::jsx::{
    attr_item_view, attrs_view, children_view, element_view, lemma_children_view_push,
    AttrItemModel, ChildModel, ElementModel, JsxAttr, JsxChild, JsxElement, JsxValue, ValueModel,
};
use crate::lexer::{Token, Tokenizer};
use crate::lexer_lemmas::{lemma_next_progress, lemma_run_step};
use crate::lexer_spec::{initial_state, lex_measure, lex_run};
use crate::names::{always_string_attribute, attribute_name_map, is_always_string_attribute, map_attribute_name};
use crate::options::{TransformError, TransformOptions};
use crate::passes::{apply_opening_element, opening_passes, prepare_element_name, prepared_name};
use crate::style::{style_entries, style_entries_of};
use crate::text::str_eq;

verus! {

/// The value that an attribute of the SVG source gets: a style object for `style`, a number
/// when the value is one of `numbers` (the texts that read as finite numbers) and the
/// attribute is not one that stays a string, and a string otherwise.
pub open spec fn attr_value_model(key: Seq<char>, raw: Seq<char>, numbers: Seq<Seq<char>>) -> ValueModel {
    let v = normalized_value(raw);
    if key == "style"@ {
        ValueModel::Style(style_entries_of(v))
    } else if !always_string_attribute(key) && numbers.contains(v) {
        ValueModel::Number(v)
    } else {
        ValueModel::Str(v)
    }
}

/// The JSX attribute for an attribute `name` (with `value`) of the SVG element `element`.
pub open spec fn attr_item_model(
    name: Seq<char>,
    value: Option<Seq<char>>,
    element: Seq<char>,
    numbers: Seq<Seq<char>>,
) -> AttrItemModel {
    let mapped = attribute_name_map(name, element);
    AttrItemModel::Named(
        mapped,
        match value {
            Some(v) => Some(attr_value_model(mapped, v, numbers)),
            None => None,
        },
    )
}

/// An SVG element whose start tag has been read but whose end has not.
pub struct JsxFrameModel {
    pub name: Seq<char>,
    pub attributes: Seq<AttrItemModel>,
    pub children: Seq<ChildModel>,
}

/// The open elements and the root element once it is complete.
pub struct JsxStateModel {
    pub stack: Seq<JsxFrameModel>,
    pub root: Option<ElementModel>,
}

pub enum SinkErrorModel {
    NoCurrentElement,
    UnexpectedClosingTag(Seq<char>),
    MismatchedClosingTag(Seq<char>, Seq<char>),
    MultipleRoots,
    InvalidExpression(Seq<char>),
}

pub open spec fn empty_jsx_state() -> JsxStateModel {
    JsxStateModel { stack: Seq::empty(), root: None }
}

/// Adds a child to the innermost open element. Outside every element, the first element is
/// the root, another element is an error and anything else is dropped.
pub open spec fn attach_child(st: JsxStateModel, c: ChildModel) -> Result<JsxStateModel, SinkErrorModel> {
    if st.stack.len() > 0 {
        let f = st.stack.last();
        Ok(
            JsxStateModel {
                stack: st.stack.drop_last().push(JsxFrameModel { children: f.children.push(c), ..f }),
                root: st.root,
            },
        )
    } else {
        match c {
            ChildModel::Element(e) => if st.root is None {
                Ok(JsxStateModel { stack: st.stack, root: Some(e) })
            } else {
                Err(SinkErrorModel::MultipleRoots)
            },
            _ => Ok(st),
        }
    }
}

/// The element that a closed frame becomes: renamed, with its attributes passed through the
/// passes; `None` when it is left out.
pub open spec fn built_element(o: TransformOptions, f: JsxFrameModel, is_root: bool) -> Result<
    Option<ElementModel>,
    Seq<char>,
> {
    match prepared_name(o, f.name, is_root) {
        None => Ok(None),
        Some(n) => match opening_passes(o, n, f.attributes, is_root) {
            Err(e) => Err(e),
            Ok(a) => Ok(Some(ElementModel { name: n, attributes: a, children: f.children })),
        },
    }
}

/// Closes the frame `f`, which has been taken off the stack of `st`.
pub open spec fn close_frame(o: TransformOptions, st: JsxStateModel, f: JsxFrameModel) -> Result<
    JsxStateModel,
    SinkErrorModel,
> {
    let is_root = st.stack.len() == 0 && st.root is None;
    match built_element(o, f, is_root) {
        Err(e) => Err(SinkErrorModel::InvalidExpression(e)),
        Ok(None) => Ok(st),
        Ok(Some(e)) => attach_child(st, ChildModel::Element(e)),
    }
}

pub open spec fn popped(st: JsxStateModel) -> JsxStateModel {
    JsxStateModel { stack: st.stack.drop_last(), root: st.root }
}

/// What building JSX does with one event of the SVG source.
pub open spec fn jsx_step(
    o: TransformOptions,
    numbers: Seq<Seq<char>>,
    st: JsxStateModel,
    ev: SvgEvent,
) -> Result<JsxStateModel, SinkErrorModel> {
    match ev {
        SvgEvent::StartElement { name, .. } => Ok(
            JsxStateModel {
                stack: st.stack.push(
                    JsxFrameModel { name, attributes: Seq::empty(), children: Seq::empty() },
                ),
                root: st.root,
            },
        ),
        SvgEvent::Attribute { name, value, .. } => {
            if st.stack.len() == 0 {
                Err(SinkErrorModel::NoCurrentElement)
            } else {
                let f = st.stack.last();
                let a = attr_item_model(name, value, f.name, numbers);
                Ok(
                    JsxStateModel {
                        stack: st.stack.drop_last().push(
                            JsxFrameModel { attributes: f.attributes.push(a), ..f },
                        ),
                        root: st.root,
                    },
                )
            }
        },
        SvgEvent::FinishStartElement { self_closing, .. } => {
            if !self_closing {
                Ok(st)
            } else if st.stack.len() == 0 {
                Err(SinkErrorModel::NoCurrentElement)
            } else {
                close_frame(o, popped(st), st.stack.last())
            }
        },
        SvgEvent::EndElement { name, .. } => {
            if st.stack.len() == 0 {
                Err(SinkErrorModel::UnexpectedClosingTag(name))
            } else if st.stack.last().name != name {
                Err(SinkErrorModel::MismatchedClosingTag(st.stack.last().name, name))
            } else {
                close_frame(o, popped(st), st.stack.last())
            }
        },
        SvgEvent::Text { value, .. } => attach_child(st, ChildModel::Text(decoded(value))),
        SvgEvent::CData { value, .. } => attach_child(st, ChildModel::Text(decoded(value))),
        _ => Ok(st),
    }
}

/// The state after the events `evs`, in order; the first error stops it.
pub open spec fn jsx_run(
    o: TransformOptions,
    numbers: Seq<Seq<char>>,
    st: JsxStateModel,
    evs: Seq<SvgEvent>,
) -> Result<JsxStateModel, SinkErrorModel>
    decreases evs.len(),
{
    if evs.len() == 0 {
        Ok(st)
    } else {
        match jsx_step(o, numbers, st, evs[0]) {
            Ok(st2) => jsx_run(o, numbers, st2, evs.drop_first()),
            Err(e) => Err(e),
        }
    }
}

pub proof fn lemma_jsx_run_concat(
    o: TransformOptions,
    numbers: Seq<Seq<char>>,
    st: JsxStateModel,
    s1: Seq<SvgEvent>,
    s2: Seq<SvgEvent>,
)
    ensures
        jsx_run(o, numbers, st, s1 + s2) == match jsx_run(o, numbers, st, s1) {
            Ok(t1) => jsx_run(o, numbers, t1, s2),
            Err(e) => Err(e),
        },
    decreases s1.len(),
{
    if s1.len() == 0 {
        assert(s1 + s2 =~= s2);
    } else {
        assert((s1 + s2).drop_first() =~= s1.drop_first() + s2);
        assert((s1 + s2)[0] == s1[0]);
        match jsx_step(o, numbers, st, s1[0]) {
            Ok(t2) => lemma_jsx_run_concat(o, numbers, t2, s1.drop_first(), s2),
            Err(_) => {},
        }
    }
}

pub proof fn lemma_jsx_run_one(
    o: TransformOptions,
    numbers: Seq<Seq<char>>,
    st: JsxStateModel,
    ev: SvgEvent,
)
    ensures
        jsx_run(o, numbers, st, seq![ev]) == jsx_step(o, numbers, st, ev),
{
    reveal_with_fuel(jsx_run, 2);
    assert(seq![ev].drop_first() =~= Seq::<SvgEvent>::empty());
}

/// The message of an error met while building JSX.
pub open spec fn sink_error_message(e: SinkErrorModel) -> Seq<char> {
    match e {
        SinkErrorModel::NoCurrentElement => "unexpected attribute without an element"@,
        SinkErrorModel::UnexpectedClosingTag(n) => "unexpected closing tag </"@ + n + ">"@,
        SinkErrorModel::MismatchedClosingTag(x, f) => "expected closing tag </"@ + x
            + "> but found </"@ + f + ">"@,
        SinkErrorModel::MultipleRoots => "SVG document contains multiple root elements"@,
        SinkErrorModel::InvalidExpression(e) => "invalid JavaScript expression `"@ + e + "`"@,
    }
}

/// How the transform fails, with the text its error holds.
pub enum FailureModel {
    ParseSvg(Seq<char>),
    BuildJsx(Seq<char>),
    InvalidExpression(Seq<char>),
}

pub open spec fn is_failure(e: TransformError, f: FailureModel) -> bool {
    match f {
        FailureModel::ParseSvg(m) => e matches TransformError::ParseSvg(x) && x@ == m,
        FailureModel::BuildJsx(m) => e matches TransformError::BuildJsx(x) && x@ == m,
        FailureModel::InvalidExpression(m) => e matches TransformError::InvalidExpression { expr }
            && expr@ == m,
    }
}

pub open spec fn sink_failure(e: SinkErrorModel) -> FailureModel {
    match e {
        SinkErrorModel::InvalidExpression(x) => FailureModel::InvalidExpression(x),
        _ => FailureModel::BuildJsx(sink_error_message(e)),
    }
}

/// The root element once every event has been taken.
pub open spec fn finished(st: JsxStateModel) -> Result<ElementModel, FailureModel> {
    if st.stack.len() > 0 {
        Err(FailureModel::BuildJsx("unclosed SVG elements"@))
    } else {
        match st.root {
            Some(e) => Ok(e),
            None => Err(FailureModel::BuildJsx("SVG document does not contain a root element"@)),
        }
    }
}

/// The JSX element that the SVG bytes `b` become, or how that fails: the first error of
/// building JSX from the document's events, else its syntax error, else the finished root.
pub open spec fn jsx_outcome(o: TransformOptions, numbers: Seq<Seq<char>>, b: Seq<u8>) -> Result<
    ElementModel,
    FailureModel,
> {
    let run = lex_run::<SinkError>(b, initial_state());
    match jsx_run(o, numbers, empty_jsx_state(), run.0) {
        Err(e) => Err(sink_failure(e)),
        Ok(st) => match run.1 {
            Some(e) => Err(FailureModel::ParseSvg(syntax_message(e))),
            None => finished(st),
        },
    }
}

/// An error met while building JSX.
#[derive(Debug)]
pub enum SinkError {
    NoCurrentElement,
    UnexpectedClosingTag(String),
    MismatchedClosingTag { expected: String, found: String },
    MultipleRoots,
    InvalidExpression(String),
}

impl View for SinkError {
    type V = SinkErrorModel;

    open spec fn view(&self) -> SinkErrorModel {
        match self {
            SinkError::NoCurrentElement => SinkErrorModel::NoCurrentElement,
            SinkError::UnexpectedClosingTag(n) => SinkErrorModel::UnexpectedClosingTag(n@),
            SinkError::MismatchedClosingTag { expected, found } => SinkErrorModel::MismatchedClosingTag(
                expected@,
                found@,
            ),
            SinkError::MultipleRoots => SinkErrorModel::MultipleRoots,
            SinkError::InvalidExpression(e) => SinkErrorModel::InvalidExpression(e@),
        }
    }
}

impl SinkError {
    pub fn text(&self) -> (r: String)
        ensures
            r@ == sink_error_message(self@),
    {
        match self {
            SinkError::NoCurrentElement => String::from_str("unexpected attribute without an element"),
            SinkError::UnexpectedClosingTag(n) => {
                let mut s = String::from_str("unexpected closing tag </");
                s.append(n.as_str());
                s.append(">");
                s
            },
            SinkError::MismatchedClosingTag { expected, found } => {
                let mut s = String::from_str("expected closing tag </");
                s.append(expected.as_str());
                s.append("> but found </");
                s.append(found.as_str());
                s.append(">");
                s
            },
            SinkError::MultipleRoots => String::from_str("SVG document contains multiple root elements"),
            SinkError::InvalidExpression(e) => {
                let mut s = String::from_str("invalid JavaScript expression `");
                s.append(e.as_str());
                s.append("`");
                s
            },
        }
    }
}

impl ErrorMessage for SinkError {
    open spec fn describes(&self, m: Seq<char>) -> bool {
        m == sink_error_message(self@)
    }

    fn message(&self) -> (r: String) {
        self.text()
    }
}

struct JsxFrame {
    name: String,
    attributes: Vec<JsxAttr>,
    children: Vec<JsxChild>,
}

spec fn jsx_frame_view(f: JsxFrame) -> JsxFrameModel {
    JsxFrameModel {
        name: f.name@,
        attributes: attrs_view(f.attributes@),
        children: children_view(f.children@),
    }
}

/// Builds the JSX element of an SVG document from its events.
struct JsxBuilder<'a> {
    options: &'a TransformOptions,
    numbers: &'a Vec<String>,
    stack: Vec<JsxFrame>,
    root: Option<JsxElement>,
}

impl<'a> View for JsxBuilder<'a> {
    type V = JsxStateModel;

    closed spec fn view(&self) -> JsxStateModel {
        JsxStateModel {
            stack: self.stack@.map_values(|f: JsxFrame| jsx_frame_view(f)),
            root: match self.root {
                Some(e) => Some(element_view(e)),
                None => None,
            },
        }
    }
}

impl<'a> JsxBuilder<'a> {
    fn new(options: &'a TransformOptions, numbers: &'a Vec<String>) -> (r: Self)
        ensures
            r@ == empty_jsx_state(),
            r.options == options,
            r.numbers == numbers,
    {
        let r = JsxBuilder { options, numbers, stack: Vec::new(), root: None };
        assert(r@.stack =~= Seq::<JsxFrameModel>::empty());
        r
    }

    fn attach(&mut self, child: JsxChild) -> (r: Result<(), SinkError>)
        ensures
            final(self).options == old(self).options,
            final(self).numbers == old(self).numbers,
            match attach_child(old(self)@, crate::jsx::child_view(child)) {
                Ok(st) => r is Ok && final(self)@ == st,
                Err(e) => r matches Err(x) && x@ == e,
            },
    {
        let ghost old_view = self@;
        if self.stack.len() > 0 {
            let mut frame = self.stack.pop().unwrap();
            let ghost old_children = frame.children@;
            frame.children.push(child);
            proof {
                lemma_children_view_push(old_children, child);
            }
            self.stack.push(frame);
            assert(self@.stack =~= attach_child(old_view, crate::jsx::child_view(child))->Ok_0.stack);
            Ok(())
        } else {
            match child {
                JsxChild::Element(e) => {
                    if self.root.is_none() {
                        self.root = Some(e);
                        assert(self@.stack =~= old_view.stack);
                        Ok(())
                    } else {
                        Err(SinkError::MultipleRoots)
                    }
                },
                _ => Ok(()),
            }
        }
    }

    /// Closes `frame`, which has been taken off the stack.
    fn close(&mut self, frame: JsxFrame) -> (r: Result<(), SinkError>)
        ensures
            final(self).options == old(self).options,
            final(self).numbers == old(self).numbers,
            match close_frame(*old(self).options, old(self)@, jsx_frame_view(frame)) {
                Ok(st) => r is Ok && final(self)@ == st,
                Err(e) => r matches Err(x) && x@ == e,
            },
    {
        let is_root = self.stack.len() == 0 && self.root.is_none();
        assert(is_root == (self@.stack.len() == 0 && self@.root is None));
        let name = match prepare_element_name(self.options, frame.name.as_str(), is_root) {
            None => return Ok(()),
            Some(n) => n,
        };
        let attrs = match apply_opening_element(self.options, name.as_str(), frame.attributes, is_root) {
            Ok(a) => a,
            Err(TransformError::InvalidExpression { expr }) => {
                return Err(SinkError::InvalidExpression(expr));
            },
            Err(other) => {
                return Err(SinkError::InvalidExpression(other.message()));
            },
        };
        let element = JsxElement { name, attributes: attrs, children: frame.children };
        self.attach(JsxChild::Element(element))
    }

    /// Takes one event; the exact change is `jsx_step`.
    fn apply(&mut self, token: Token) -> (r: Result<(), SinkError>)
        ensures
            final(self).options == old(self).options,
            final(self).numbers == old(self).numbers,
            match jsx_step(*old(self).options, strings_view(old(self).numbers@), old(self)@, token@) {
                Ok(st) => r is Ok && final(self)@ == st,
                Err(e) => r matches Err(x) && x@ == e,
            },
    {
        let ghost old_view = self@;
        match token {
            Token::StartElement(event) => {
                let frame = JsxFrame {
                    name: String::from_str(event.name),
                    attributes: Vec::new(),
                    children: Vec::new(),
                };
                assert(jsx_frame_view(frame).attributes =~= Seq::<AttrItemModel>::empty());
                assert(jsx_frame_view(frame).children =~= Seq::<ChildModel>::empty());
                self.stack.push(frame);
                assert(self@.stack =~= old_view.stack.push(jsx_frame_view(frame)));
                Ok(())
            },
            Token::Attribute(attr) => {
                match self.stack.pop() {
                    None => Err(SinkError::NoCurrentElement),
                    Some(mut frame) => {
                        let item = self.attr_item(attr.name, attr.value, frame.name.as_str());
                        let ghost old_attrs = frame.attributes@;
                        frame.attributes.push(item);
                        assert(attrs_view(frame.attributes@) =~= attrs_view(old_attrs).push(
                            attr_item_view(item),
                        ));
                        self.stack.push(frame);
                        assert(self@.stack =~= old_view.stack.drop_last().push(jsx_frame_view(frame)));
                        Ok(())
                    },
                }
            },
            Token::FinishStartElement(event) => {
                if !event.self_closing {
                    return Ok(());
                }
                match self.stack.pop() {
                    None => Err(SinkError::NoCurrentElement),
                    Some(frame) => {
                        assert(self@.stack =~= old_view.stack.drop_last());
                        assert(self@ == popped(old_view));
                        self.close(frame)
                    },
                }
            },
            Token::EndElement(event) => {
                match self.stack.pop() {
                    None => Err(SinkError::UnexpectedClosingTag(String::from_str(event.name))),
                    Some(frame) => {
                        if !str_eq(frame.name.as_str(), event.name) {
                            return Err(
                                SinkError::MismatchedClosingTag {
                                    expected: frame.name,
                                    found: String::from_str(event.name),
                                },
                            );
                        }
                        assert(self@.stack =~= old_view.stack.drop_last());
                        assert(self@ == popped(old_view));
                        self.close(frame)
                    },
                }
            },
            Token::Text(text) => self.attach(JsxChild::Text(decode_xml(text.value))),
            Token::CData(cdata) => self.attach(JsxChild::Text(decode_xml(cdata.value))),
            _ => Ok(()),
        }
    }

    fn attr_item(&self, name: &str, value: Option<&str>, element: &str) -> (r: JsxAttr)
        ensures
            attr_item_view(r) == attr_item_model(
                name@,
                crate::events::opt_str_view(value),
                element@,
                strings_view(self.numbers@),
            ),
    {
        let mapped = map_attribute_name(name, element);
        let value = match value {
            Some(raw) => Some(self.attr_value(mapped.as_str(), raw)),
            None => None,
        };
        JsxAttr::Named { name: mapped, value }
    }

    fn attr_value(&self, key: &str, raw: &str) -> (r: JsxValue)
        ensures
            crate::jsx::value_view(r) == attr_value_model(key@, raw@, strings_view(self.numbers@)),
    {
        let value = normalize_attribute_value(raw);
        if str_eq(key, "style") {
            return JsxValue::Style(style_entries(value.as_str()));
        }
        if !is_always_string_attribute(key) && contains_name(self.numbers, value.as_str()) {
            return JsxValue::Number(value);
        }
        JsxValue::Str(value)
    }

    fn finish(self) -> (r: Result<JsxElement, TransformError>)
        ensures
            match finished(self@) {
                Ok(e) => r matches Ok(x) && element_view(x) == e,
                Err(f) => r matches Err(x) && is_failure(x, f),
            },
    {
        if self.stack.len() > 0 {
            return Err(TransformError::BuildJsx(String::from_str("unclosed SVG elements")));
        }
        match self.root {
            Some(e) => Ok(e),
            None => Err(
                TransformError::BuildJsx(String::from_str("SVG document does not contain a root element")),
            ),
        }
    }
}

fn sink_failure_error(e: SinkError) -> (r: TransformError)
    ensures
        is_failure(r, sink_failure(e@)),
{
    match e {
        SinkError::InvalidExpression(expr) => TransformError::InvalidExpression { expr },
        other => TransformError::BuildJsx(other.text()),
    }
}

/// Builds the JSX element of an SVG document: the root element, renamed and with its
/// attributes mapped and passed through the attribute passes of `options`. `numbers` lists
/// the attribute texts that read as finite numbers.
pub fn svg_to_jsx(source: &str, options: &TransformOptions, numbers: &Vec<String>) -> (r: Result<
    JsxElement,
    TransformError,
>)
    ensures
        match jsx_outcome(*options, strings_view(numbers@), source.spec_bytes()) {
            Ok(e) => r matches Ok(x) && element_view(x) == e,
            Err(f) => r matches Err(x) && is_failure(x, f),
        },
{
    let mut sink = JsxBuilder::new(options, numbers);
    let mut tokenizer = Tokenizer::new(source);
    let ghost b = source.spec_bytes();
    let ghost o = *options;
    let ghost ns = strings_view(numbers@);
    let ghost total = lex_run::<SinkError>(b, initial_state());
    let ghost mut done: Seq<SvgEvent> = Seq::empty();
    assert(done + total.0 =~= total.0);
    proof {
        reveal_with_fuel(jsx_run, 1);
    }
    loop
        invariant
            tokenizer.wf(),
            tokenizer.b() == b,
            b == source.spec_bytes(),
            sink.options == options,
            sink.numbers == numbers,
            o == *options,
            ns == strings_view(numbers@),
            total == lex_run::<SinkError>(b, initial_state()),
            lex_run::<SinkError>(b, tokenizer.state()).1 == total.1,
            done + lex_run::<SinkError>(b, tokenizer.state()).0 == total.0,
            jsx_run(o, ns, empty_jsx_state(), done) == Ok::<_, SinkErrorModel>(sink@),
        decreases lex_measure(b, tokenizer.state()),
    {
        let ghost st = tokenizer.state();
        match tokenizer.next_event::<SinkError>() {
            Err(e) => {
                assert(lex_run::<SinkError>(b, st).0 =~= Seq::<SvgEvent>::empty());
                assert(done =~= total.0);
                proof {
                    crate::lexer_lemmas::lemma_next_fail_not_sink::<SinkError>(b, st);
                }
                let message = e.message();
                return Err(TransformError::ParseSvg(message));
            },
            Ok(None) => {
                assert(lex_run::<SinkError>(b, st).0 =~= Seq::<SvgEvent>::empty());
                assert(done =~= total.0);
                return sink.finish();
            },
            Ok(Some(token)) => {
                proof {
                    lemma_next_progress::<SinkError>(b, st);
                    lemma_run_step::<SinkError>(b, st);
                }
                let ghost ev = token@;
                let ghost rest = lex_run::<SinkError>(b, tokenizer.state()).0;
                proof {
                    lemma_jsx_run_concat(o, ns, empty_jsx_state(), done, seq![ev]);
                    lemma_jsx_run_one(o, ns, sink@, ev);
                    assert(done + (seq![ev] + rest) =~= done.push(ev) + rest);
                    assert(done + seq![ev] =~= done.push(ev));
                }
                match sink.apply(token) {
                    Ok(()) => {
                        proof {
                            done = done.push(ev);
                        }
                    },
                    Err(e) => {
                        proof {
                            lemma_jsx_run_concat(o, ns, empty_jsx_state(), done.push(ev), rest);
                        }
                        return Err(sink_failure_error(e));
                    },
                }
            },
        }
    }
}

} // verus!
