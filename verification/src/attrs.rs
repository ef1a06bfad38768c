use vstd::prelude::*;
use vstd::string::{StringExecFns, StringSliceAdditionalSpecFns};
use vstd::utf8::encode_utf8;

use oxc_span::GetSpan;

use crate::events::Span;
use crate::jsx::{attr_item_view, attrs_view, AttrItemModel, JsxAttr, JsxValue, ValueModel};
use crate::names::{char_vec, string_of};
use crate::options::{ExpandProps, TransformError};
use crate::text::{slice_str, starts_char, str_eq, text_at};

verus! {

/// What `oxc_parser` makes of a program, as far as reading an option's expression goes.
#[derive(Debug, Clone, Copy, PartialEq, Eq, Structural)]
pub enum ProgramTail {
    /// The parser panicked or reported a diagnostic.
    Invalid,
    /// The program parsed, and its last statement (if any) does not declare variables.
    NoDeclaration,
    /// The program parsed and its last statement declares variables: the byte offsets of
    /// the initial value of the first declarator, without the parentheses round it, where
    /// that declarator has one.
    Declaration(Option<Span>),
}

/// What `oxc_parser` reports of the program `text`, read as a module with JSX.
pub uninterp spec fn js_program_tail(text: Seq<char>) -> ProgramTail;

/// Parses `text` with `oxc_parser::Parser` as a module with JSX and reports whether it parsed
/// without panic or diagnostic, whether its last statement is a variable declaration, and
/// the span of the first declarator's initial value with `Expression::without_parentheses`.
/// The contract names that report and states no more of it.
#[verifier::external_body]
fn read_program_tail(text: &str) -> (r: ProgramTail)
    ensures
        r == js_program_tail(text@),
{
    let allocator = oxc_allocator::Allocator::default();
    let source_type = oxc_span::SourceType::default().with_module(true).with_jsx(true);
    let ret = oxc_parser::Parser::new(&allocator, text, source_type).parse();
    if ret.panicked || !ret.diagnostics.is_empty() {
        return ProgramTail::Invalid;
    }
    let Some(oxc_ast::ast::Statement::VariableDeclaration(d)) = ret.program.body.last() else {
        return ProgramTail::NoDeclaration;
    };
    let init = d.declarations.first().and_then(|x| x.init.as_ref());
    let span = init.map(|e| e.without_parentheses().span());
    ProgramTail::Declaration(span.map(|s| Span { start: s.start as usize, end: s.end as usize }))
}

/// The program in which an option's expression is read: `const __svgr_expr = (source);`.
pub open spec fn expression_program(source: Seq<char>) -> Seq<char> {
    "const __svgr_expr = ("@ + source + ");"@
}

/// The expression that `source` gives: the text of the initial value of the last
/// declaration of `expression_program(source)`, where that program parses and the value's
/// offsets fall on characters of it; `None` where `source` is no expression.
pub open spec fn expression_of(source: Seq<char>) -> Option<Seq<char>> {
    let program = expression_program(source);
    let b = encode_utf8(program);
    match js_program_tail(program) {
        ProgramTail::Declaration(Some(span)) => if span.start <= span.end <= b.len() && starts_char(
            b,
            span.start as int,
        ) && starts_char(b, span.end as int) {
            Some(text_at(b, span.start as int, span.end as int))
        } else {
            None
        },
        _ => None,
    }
}

/// Whether `source` reads as a JavaScript expression.
pub open spec fn js_expression_ok(source: Seq<char>) -> bool {
    expression_of(source) is Some
}

/// Whether byte `i` of `b` starts a character or is the end.
fn starts_char_at(b: &[u8], i: usize) -> (r: bool)
    ensures
        r == starts_char(b@, i as int),
{
    i == b.len() || (i < b.len() && !(0x80 <= b[i] && b[i] <= 0xbf))
}

/// Reads `source` as a JavaScript expression: binds it to a constant, parses that program and
/// takes the text of the last declaration's initial value.
pub fn parse_expression(source: &str) -> (r: Option<String>)
    ensures
        match expression_of(source@) {
            Some(t) => r matches Some(x) && x@ == t,
            None => r is None,
        },
{
    let mut text = String::from_str("const __svgr_expr = (");
    text.append(source);
    text.append(");");
    proof {
        reveal_strlit("const __svgr_expr = (");
        reveal_strlit(");");
    }
    assert(text@ == expression_program(source@));
    let program = text.as_str();
    let bytes = program.as_bytes();
    match read_program_tail(program) {
        ProgramTail::Declaration(Some(span)) => {
            let s = span.start;
            let e = span.end;
            if s <= e && e <= bytes.len() && starts_char_at(bytes, s) && starts_char_at(bytes, e) {
                Some(String::from_str(slice_str(program, s, e)))
            } else {
                None
            }
        },
        _ => None,
    }
}

/// The value an attribute is given by an option.
#[derive(Debug)]
pub enum AttrValueSpec {
    Nothing,
    Str(String),
    NumberBits(u64),
    Identifier(String),
    UserExpression(String),
}

/// An attribute that a pass puts on an element, replacing one of the same name.
#[derive(Debug)]
pub struct AttrSpec {
    pub name: String,
    pub value: AttrValueSpec,
    /// `{...name}` rather than `name=value`.
    pub spread: bool,
    /// Where a new attribute goes: first for `Start`, else last.
    pub position: ExpandProps,
}

pub enum ValueSpecModel {
    Nothing,
    Str(Seq<char>),
    NumberBits(u64),
    Identifier(Seq<char>),
    UserExpression(Seq<char>),
}

pub struct AttrSpecModel {
    pub name: Seq<char>,
    pub value: ValueSpecModel,
    pub spread: bool,
    pub start: bool,
}

pub open spec fn value_spec_view(v: AttrValueSpec) -> ValueSpecModel {
    match v {
        AttrValueSpec::Nothing => ValueSpecModel::Nothing,
        AttrValueSpec::Str(s) => ValueSpecModel::Str(s@),
        AttrValueSpec::NumberBits(b) => ValueSpecModel::NumberBits(b),
        AttrValueSpec::Identifier(s) => ValueSpecModel::Identifier(s@),
        AttrValueSpec::UserExpression(s) => ValueSpecModel::UserExpression(s@),
    }
}

pub open spec fn attr_spec_view(s: AttrSpec) -> AttrSpecModel {
    AttrSpecModel {
        name: s.name@,
        value: value_spec_view(s.value),
        spread: s.spread,
        start: s.position == ExpandProps::Start,
    }
}

/// A value of an option: `{expr}` is the expression `expr`, anything else a string.
pub open spec fn option_value_of(raw: Seq<char>) -> ValueSpecModel {
    if raw.len() >= 2 && raw[0] == '{' && raw.last() == '}' {
        ValueSpecModel::UserExpression(raw.subrange(1, raw.len() - 1))
    } else {
        ValueSpecModel::Str(raw)
    }
}

pub fn option_value(raw: &str) -> (r: AttrValueSpec)
    ensures
        value_spec_view(r) == option_value_of(raw@),
{
    let v = char_vec(raw);
    let n = v.len();
    if n >= 2 && v[0] == '{' && v[n - 1] == '}' {
        AttrValueSpec::UserExpression(string_of(&v, 1, n - 1))
    } else {
        AttrValueSpec::Str(String::from_str(raw))
    }
}

/// The expression of a value that `oxc_parser` does not read as one.
pub open spec fn value_error(v: ValueSpecModel) -> Option<Seq<char>> {
    match v {
        ValueSpecModel::UserExpression(e) => if expression_of(e) is Some {
            None
        } else {
            Some(e)
        },
        _ => None,
    }
}

pub open spec fn value_of_spec(v: ValueSpecModel) -> Option<ValueModel> {
    match v {
        ValueSpecModel::Nothing => None,
        ValueSpecModel::Str(s) => Some(ValueModel::Str(s)),
        ValueSpecModel::NumberBits(b) => Some(ValueModel::NumberBits(b)),
        ValueSpecModel::Identifier(s) => Some(ValueModel::Identifier(s)),
        ValueSpecModel::UserExpression(e) => match expression_of(e) {
            Some(t) => Some(ValueModel::Expression(t)),
            None => None,
        },
    }
}

pub open spec fn spec_error(s: AttrSpecModel) -> Option<Seq<char>> {
    if s.spread {
        None
    } else {
        value_error(s.value)
    }
}

pub open spec fn spec_item(s: AttrSpecModel) -> AttrItemModel {
    if s.spread {
        AttrItemModel::Spread(s.name)
    } else {
        AttrItemModel::Named(s.name, value_of_spec(s.value))
    }
}

fn expression_error(e: &String) -> (r: TransformError)
    ensures
        r matches TransformError::InvalidExpression { expr } && expr@ == e@,
{
    TransformError::InvalidExpression { expr: e.clone() }
}

fn value_of(v: AttrValueSpec) -> (r: Result<Option<JsxValue>, TransformError>)
    ensures
        match value_error(value_spec_view(v)) {
            Some(e) => r matches Err(TransformError::InvalidExpression { expr }) && expr@ == e,
            None => r matches Ok(x) && match x {
                Some(j) => value_of_spec(value_spec_view(v)) == Some(crate::jsx::value_view(j)),
                None => value_of_spec(value_spec_view(v)) is None,
            },
        },
{
    match v {
        AttrValueSpec::Nothing => Ok(None),
        AttrValueSpec::Str(s) => Ok(Some(JsxValue::Str(s))),
        AttrValueSpec::NumberBits(b) => Ok(Some(JsxValue::NumberBits(b))),
        AttrValueSpec::Identifier(s) => Ok(Some(JsxValue::Identifier(s))),
        AttrValueSpec::UserExpression(e) => match parse_expression(e.as_str()) {
            Some(t) => Ok(Some(JsxValue::Expression(t))),
            None => Err(expression_error(&e)),
        },
    }
}

fn clone_value_spec(v: &AttrValueSpec) -> (r: AttrValueSpec)
    ensures
        value_spec_view(r) == value_spec_view(*v),
{
    match v {
        AttrValueSpec::Nothing => AttrValueSpec::Nothing,
        AttrValueSpec::Str(s) => AttrValueSpec::Str(s.clone()),
        AttrValueSpec::NumberBits(b) => AttrValueSpec::NumberBits(*b),
        AttrValueSpec::Identifier(s) => AttrValueSpec::Identifier(s.clone()),
        AttrValueSpec::UserExpression(s) => AttrValueSpec::UserExpression(s.clone()),
    }
}

/// The attribute item that a spec puts on an element.
fn create_attribute_item(spec: &AttrSpec) -> (r: Result<JsxAttr, TransformError>)
    ensures
        match spec_error(attr_spec_view(*spec)) {
            Some(e) => r matches Err(TransformError::InvalidExpression { expr }) && expr@ == e,
            None => r matches Ok(a) && attr_item_view(a) == spec_item(attr_spec_view(*spec)),
        },
{
    if spec.spread {
        return Ok(JsxAttr::Spread { name: spec.name.clone() });
    }
    match value_of(clone_value_spec(&spec.value)) {
        Ok(value) => Ok(JsxAttr::Named { name: spec.name.clone(), value }),
        Err(e) => Err(e),
    }
}

/// Whether an item is the one that a spec would replace.
pub open spec fn item_matches(a: AttrItemModel, s: AttrSpecModel) -> bool {
    if s.spread {
        a matches AttrItemModel::Spread(n) && n == s.name
    } else {
        a matches AttrItemModel::Named(n, _) && n == s.name
    }
}

/// The index of the first item that a spec would replace, or the number of items.
pub open spec fn first_match(attrs: Seq<AttrItemModel>, s: AttrSpecModel) -> int
    decreases attrs.len(),
{
    if attrs.len() == 0 || item_matches(attrs[0], s) {
        0
    } else {
        1 + first_match(attrs.drop_first(), s)
    }
}

proof fn lemma_first_match(attrs: Seq<AttrItemModel>, s: AttrSpecModel, i: int)
    requires
        0 <= i <= attrs.len(),
        i == attrs.len() || item_matches(attrs[i], s),
        forall|k: int| 0 <= k < i ==> !item_matches(attrs[k], s),
    ensures
        first_match(attrs, s) == i,
    decreases i,
{
    if i > 0 {
        lemma_first_match(attrs.drop_first(), s, i - 1);
    }
}

/// The items after a spec is applied: it replaces the first item of its name, or else is
/// added first (`Start`) or last.
pub open spec fn upserted(attrs: Seq<AttrItemModel>, s: AttrSpecModel) -> Result<
    Seq<AttrItemModel>,
    Seq<char>,
> {
    match spec_error(s) {
        Some(e) => Err(e),
        None => {
            let i = first_match(attrs, s);
            let item = spec_item(s);
            Ok(
                if i < attrs.len() {
                    attrs.update(i, item)
                } else if s.start {
                    seq![item] + attrs
                } else {
                    attrs.push(item)
                },
            )
        },
    }
}

fn item_matches_exec(a: &JsxAttr, spec: &AttrSpec) -> (r: bool)
    ensures
        r == item_matches(attr_item_view(*a), attr_spec_view(*spec)),
{
    match a {
        JsxAttr::Spread { name } => spec.spread && str_eq(name.as_str(), spec.name.as_str()),
        JsxAttr::Named { name, .. } => !spec.spread && str_eq(name.as_str(), spec.name.as_str()),
    }
}

/// Puts the attribute of `spec` on an element.
pub fn upsert_attribute(attrs: &mut Vec<JsxAttr>, spec: &AttrSpec) -> (r: Result<(), TransformError>)
    ensures
        match upserted(attrs_view(old(attrs)@), attr_spec_view(*spec)) {
            Ok(a) => r is Ok && attrs_view(final(attrs)@) == a,
            Err(e) => r matches Err(TransformError::InvalidExpression { expr }) && expr@ == e,
        },
{
    let ghost s = attr_spec_view(*spec);
    let ghost before = attrs_view(attrs@);
    let item = match create_attribute_item(spec) {
        Ok(item) => item,
        Err(e) => return Err(e),
    };
    let mut i: usize = 0;
    while i < attrs.len() && !item_matches_exec(&attrs[i], spec)
        invariant
            i <= attrs@.len(),
            before == attrs_view(attrs@),
            s == attr_spec_view(*spec),
            forall|k: int| 0 <= k < i ==> !item_matches(before[k], s),
        decreases attrs@.len() - i,
    {
        i = i + 1;
    }
    proof {
        lemma_first_match(before, s, i as int);
    }
    if i < attrs.len() {
        attrs.set(i, item);
        assert(attrs_view(attrs@) =~= before.update(i as int, spec_item(s)));
    } else if spec.position == ExpandProps::Start {
        attrs.insert(0, item);
        assert(attrs_view(attrs@) =~= seq![spec_item(s)] + before);
    } else {
        attrs.push(item);
        assert(attrs_view(attrs@) =~= before.push(spec_item(s)));
    }
    Ok(())
}

/// The items after the specs are applied in order; the first error stops it.
pub open spec fn upserted_all(attrs: Seq<AttrItemModel>, specs: Seq<AttrSpecModel>) -> Result<
    Seq<AttrItemModel>,
    Seq<char>,
>
    decreases specs.len(),
{
    if specs.len() == 0 {
        Ok(attrs)
    } else {
        match upserted_all(attrs, specs.drop_last()) {
            Ok(a) => upserted(a, specs.last()),
            Err(e) => Err(e),
        }
    }
}

pub open spec fn specs_view(s: Seq<AttrSpec>) -> Seq<AttrSpecModel> {
    s.map_values(|x: AttrSpec| attr_spec_view(x))
}

pub(crate) fn upsert_all(attrs: &mut Vec<JsxAttr>, specs: &Vec<AttrSpec>) -> (r: Result<(), TransformError>)
    ensures
        match upserted_all(attrs_view(old(attrs)@), specs_view(specs@)) {
            Ok(a) => r is Ok && attrs_view(final(attrs)@) == a,
            Err(e) => r matches Err(TransformError::InvalidExpression { expr }) && expr@ == e,
        },
{
    let ghost start = attrs_view(attrs@);
    let mut k: usize = 0;
    while k < specs.len()
        invariant
            k <= specs@.len(),
            start == attrs_view(old(attrs)@),
            upserted_all(start, specs_view(specs@).take(k as int)) == Ok::<
                Seq<AttrItemModel>,
                Seq<char>,
            >(attrs_view(attrs@)),
        decreases specs@.len() - k,
    {
        proof {
            assert(specs_view(specs@).take(k + 1).drop_last() == specs_view(specs@).take(k as int));
            assert(specs_view(specs@).take(k + 1).last() == attr_spec_view(specs@[k as int]));
        }
        let ghost before = attrs_view(attrs@);
        match upsert_attribute(attrs, &specs[k]) {
            Ok(()) => {},
            Err(e) => {
                proof {
                    assert(upserted_all(start, specs_view(specs@).take(k + 1)) == upserted(
                        before,
                        attr_spec_view(specs@[k as int]),
                    ));
                    lemma_upserted_all_stops(start, specs_view(specs@), k + 1);
                }
                return Err(e);
            },
        }
        k = k + 1;
    }
    assert(specs_view(specs@).take(specs@.len() as int) == specs_view(specs@));
    Ok(())
}

/// Once applying a prefix of the specs fails, applying all of them fails the same way.
proof fn lemma_upserted_all_stops(attrs: Seq<AttrItemModel>, specs: Seq<AttrSpecModel>, k: int)
    requires
        0 <= k <= specs.len(),
        upserted_all(attrs, specs.take(k)) is Err,
    ensures
        upserted_all(attrs, specs) == upserted_all(attrs, specs.take(k)),
    decreases specs.len() - k,
{
    if k < specs.len() {
        assert(specs.take(k + 1).drop_last() == specs.take(k));
        lemma_upserted_all_stops(attrs, specs, k + 1);
    } else {
        assert(specs.take(k) == specs);
    }
}


/// An item that the removal of the listed names keeps.
pub open spec fn kept(a: AttrItemModel, names: Seq<Seq<char>>) -> bool {
    !(a matches AttrItemModel::Named(n, _) && names.contains(n))
}

/// The items without the named attributes whose names are listed, in order.
pub open spec fn without_names(attrs: Seq<AttrItemModel>, names: Seq<Seq<char>>) -> Seq<
    AttrItemModel,
>
    decreases attrs.len(),
{
    if attrs.len() == 0 {
        attrs
    } else {
        let p = without_names(attrs.drop_last(), names);
        if kept(attrs.last(), names) {
            p.push(attrs.last())
        } else {
            p
        }
    }
}

pub open spec fn strings_view(s: Seq<String>) -> Seq<Seq<char>> {
    s.map_values(|x: String| x@)
}

pub(crate) fn contains_name(names: &Vec<String>, n: &str) -> (r: bool)
    ensures
        r == strings_view(names@).contains(n@),
{
    let mut i: usize = 0;
    while i < names.len()
        invariant
            i <= names@.len(),
            forall|k: int| 0 <= k < i ==> names@[k]@ != n@,
        decreases names@.len() - i,
    {
        if str_eq(names[i].as_str(), n) {
            assert(strings_view(names@)[i as int] == n@);
            return true;
        }
        i = i + 1;
    }
    assert forall|k: int| 0 <= k < strings_view(names@).len() implies strings_view(names@)[k]
        != n@ by {
        assert(strings_view(names@)[k] == names@[k]@);
    }
    false
}

/// Drops the named attributes whose names are listed.
pub fn remove_attributes(attrs: Vec<JsxAttr>, names: &Vec<String>) -> (r: Vec<JsxAttr>)
    ensures
        attrs_view(r@) == without_names(attrs_view(attrs@), strings_view(names@)),
{
    let ghost all = attrs_view(attrs@);
    let ghost ns = strings_view(names@);
    let mut rest = attrs;
    let mut out: Vec<JsxAttr> = Vec::new();
    let ghost mut i: int = 0;
    assert(all.take(0) =~= Seq::<AttrItemModel>::empty());
    assert(attrs_view(out@) =~= Seq::<AttrItemModel>::empty());
    assert(all.skip(0) == all);
    while rest.len() > 0
        invariant
            0 <= i <= all.len(),
            all == attrs_view(attrs@),
            attrs_view(rest@) == all.skip(i),
            attrs_view(out@) == without_names(all.take(i), ns),
            ns == strings_view(names@),
        decreases rest@.len(),
    {
        let ghost rv = rest@;
        let a = rest.remove(0);
        proof {
            assert(attrs_view(rest@) =~= attrs_view(rv).drop_first());
            assert(a == rv[0]);
            assert(attrs_view(rv)[0] == attr_item_view(rv[0]));
            assert(all.skip(i)[0] == all[i]);
            assert(all.take(i + 1).drop_last() == all.take(i));
            assert(all.take(i + 1).last() == all[i]);
        }
        let keep = match &a {
            JsxAttr::Named { name, .. } => !contains_name(names, name.as_str()),
            JsxAttr::Spread { .. } => true,
        };
        if keep {
            let ghost ov = out@;
            out.push(a);
            assert(attrs_view(out@) =~= attrs_view(ov).push(attr_item_view(a)));
        }
        proof {
            i = i + 1;
            assert(all.skip(i - 1).drop_first() == all.skip(i));
        }
    }
    assert(all.take(all.len() as int) == all);
    out
}

pub open spec fn pairs_view(p: Seq<(String, String)>) -> Seq<(Seq<char>, Seq<char>)> {
    p.map_values(|x: (String, String)| (x.0@, x.1@))
}

/// The replacement of the last pair whose first string is `cur`.
pub open spec fn last_replacement(pairs: Seq<(Seq<char>, Seq<char>)>, cur: Seq<char>) -> Option<
    Seq<char>,
>
    decreases pairs.len(),
{
    if pairs.len() == 0 {
        None
    } else if pairs.last().0 == cur {
        Some(pairs.last().1)
    } else {
        last_replacement(pairs.drop_last(), cur)
    }
}

/// An attribute whose value is a string with a replacement, given that replacement.
pub open spec fn replaced_item(a: AttrItemModel, pairs: Seq<(Seq<char>, Seq<char>)>) -> Result<
    AttrItemModel,
    Seq<char>,
> {
    match a {
        AttrItemModel::Named(n, Some(ValueModel::Str(cur))) => match last_replacement(pairs, cur) {
            Some(new) => match value_error(option_value_of(new)) {
                Some(e) => Err(e),
                None => Ok(AttrItemModel::Named(n, value_of_spec(option_value_of(new)))),
            },
            None => Ok(a),
        },
        _ => Ok(a),
    }
}

/// Every item after replacement, in order; the first error stops it.
pub open spec fn replaced_all(attrs: Seq<AttrItemModel>, pairs: Seq<(Seq<char>, Seq<char>)>) -> Result<
    Seq<AttrItemModel>,
    Seq<char>,
>
    decreases attrs.len(),
{
    if attrs.len() == 0 {
        Ok(attrs)
    } else {
        match replaced_all(attrs.drop_last(), pairs) {
            Ok(p) => match replaced_item(attrs.last(), pairs) {
                Ok(x) => Ok(p.push(x)),
                Err(e) => Err(e),
            },
            Err(e) => Err(e),
        }
    }
}

/// Replacement works attribute by attribute: where every attribute is replaced without
/// error, the result keeps their number and order and holds each one's replacement; where
/// one fails, the first that fails gives the error.
pub proof fn law_replacement_per_attribute(
    attrs: Seq<AttrItemModel>,
    pairs: Seq<(Seq<char>, Seq<char>)>,
)
    ensures
        match replaced_all(attrs, pairs) {
            Ok(out) => out.len() == attrs.len() && forall|i: int|
                0 <= i < attrs.len() ==> replaced_item(#[trigger] attrs[i], pairs) == Ok::<
                    AttrItemModel,
                    Seq<char>,
                >(out[i]),
            Err(e) => exists|i: int|
                0 <= i < attrs.len() && replaced_item(#[trigger] attrs[i], pairs) == Err::<
                    AttrItemModel,
                    Seq<char>,
                >(e) && forall|j: int| 0 <= j < i ==> (#[trigger] replaced_item(attrs[j], pairs)) is Ok,
        },
    decreases attrs.len(),
{
    if attrs.len() > 0 {
        let init = attrs.drop_last();
        law_replacement_per_attribute(init, pairs);
        let n = attrs.len() - 1;
        match replaced_all(init, pairs) {
            Ok(p) => {
                assert forall|j: int| 0 <= j < n implies (#[trigger] replaced_item(attrs[j], pairs)) is Ok by {
                    assert(attrs[j] == init[j]);
                }
                match replaced_item(attrs.last(), pairs) {
                    Ok(x) => {
                        assert forall|i: int| 0 <= i < attrs.len() implies replaced_item(
                            #[trigger] attrs[i],
                            pairs,
                        ) == Ok::<AttrItemModel, Seq<char>>(p.push(x)[i]) by {
                            if i < n {
                                assert(attrs[i] == init[i]);
                            }
                        }
                    },
                    Err(e) => {
                        assert(replaced_item(attrs[n], pairs) == Err::<AttrItemModel, Seq<char>>(e));
                    },
                }
            },
            Err(e) => {
                let i = choose|i: int|
                    0 <= i < init.len() && replaced_item(#[trigger] init[i], pairs) == Err::<
                        AttrItemModel,
                        Seq<char>,
                    >(e) && forall|j: int| 0 <= j < i ==> (#[trigger] replaced_item(init[j], pairs)) is Ok;
                assert(attrs[i] == init[i]);
                assert forall|j: int| 0 <= j < i implies (#[trigger] replaced_item(attrs[j], pairs)) is Ok by {
                    assert(attrs[j] == init[j]);
                }
            },
        }
    }
}

fn find_replacement(pairs: &Vec<(String, String)>, cur: &str) -> (r: Option<usize>)
    ensures
        match last_replacement(pairs_view(pairs@), cur@) {
            Some(new) => r matches Some(j) && j < pairs@.len() && pairs@[j as int].1@ == new,
            None => r is None,
        },
{
    let ghost pv = pairs_view(pairs@);
    let mut found: Option<usize> = None;
    let mut j: usize = 0;
    while j < pairs.len()
        invariant
            j <= pairs@.len(),
            pv == pairs_view(pairs@),
            match last_replacement(pv.take(j as int), cur@) {
                Some(new) => found matches Some(x) && x < pairs@.len() && pairs@[x as int].1@ == new,
                None => found is None,
            },
        decreases pairs@.len() - j,
    {
        proof {
            assert(pv.take(j + 1).drop_last() == pv.take(j as int));
            assert(pv.take(j + 1).last() == pv[j as int]);
        }
        if str_eq(pairs[j].0.as_str(), cur) {
            found = Some(j);
        }
        j = j + 1;
    }
    assert(pv.take(pairs@.len() as int) == pv);
    found
}

fn replace_item(a: JsxAttr, pairs: &Vec<(String, String)>) -> (r: Result<JsxAttr, TransformError>)
    ensures
        match replaced_item(attr_item_view(a), pairs_view(pairs@)) {
            Ok(x) => r matches Ok(y) && attr_item_view(y) == x,
            Err(e) => r matches Err(TransformError::InvalidExpression { expr }) && expr@ == e,
        },
{
    match a {
        JsxAttr::Named { name, value: Some(JsxValue::Str(cur)) } => {
            match find_replacement(pairs, cur.as_str()) {
                Some(j) => match value_of(option_value(pairs[j].1.as_str())) {
                    Ok(v) => Ok(JsxAttr::Named { name, value: v }),
                    Err(e) => Err(e),
                },
                None => Ok(JsxAttr::Named { name, value: Some(JsxValue::Str(cur)) }),
            }
        },
        other => Ok(other),
    }
}

/// Replaces string values that `replaceAttrValues` names, on every attribute of an element.
pub fn replace_values(attrs: Vec<JsxAttr>, pairs: &Vec<(String, String)>) -> (r: Result<
    Vec<JsxAttr>,
    TransformError,
>)
    ensures
        match replaced_all(attrs_view(attrs@), pairs_view(pairs@)) {
            Ok(x) => r matches Ok(y) && attrs_view(y@) == x,
            Err(e) => r matches Err(TransformError::InvalidExpression { expr }) && expr@ == e,
        },
{
    let ghost all = attrs_view(attrs@);
    let ghost pv = pairs_view(pairs@);
    let mut rest = attrs;
    let mut out: Vec<JsxAttr> = Vec::new();
    let ghost mut i: int = 0;
    assert(all.take(0) =~= Seq::<AttrItemModel>::empty());
    assert(attrs_view(out@) =~= Seq::<AttrItemModel>::empty());
    assert(all.skip(0) == all);
    while rest.len() > 0
        invariant
            0 <= i <= all.len(),
            all == attrs_view(attrs@),
            pv == pairs_view(pairs@),
            attrs_view(rest@) == all.skip(i),
            replaced_all(all.take(i), pv) == Ok::<Seq<AttrItemModel>, Seq<char>>(attrs_view(out@)),
        decreases rest@.len(),
    {
        let ghost rv = rest@;
        let a = rest.remove(0);
        proof {
            assert(attrs_view(rest@) =~= attrs_view(rv).drop_first());
            assert(a == rv[0]);
            assert(attrs_view(rv)[0] == attr_item_view(rv[0]));
            assert(all.skip(i)[0] == all[i]);
            assert(all.take(i + 1).drop_last() == all.take(i));
            assert(all.take(i + 1).last() == all[i]);
        }
        match replace_item(a, pairs) {
            Ok(x) => {
                let ghost ov = out@;
                out.push(x);
                assert(attrs_view(out@) =~= attrs_view(ov).push(attr_item_view(x)));
            },
            Err(e) => {
                proof {
                    lemma_replaced_all_stops(all, pv, i + 1);
                }
                return Err(e);
            },
        }
        proof {
            i = i + 1;
            assert(all.skip(i - 1).drop_first() == all.skip(i));
        }
    }
    assert(all.take(all.len() as int) == all);
    Ok(out)
}

proof fn lemma_replaced_all_stops(
    attrs: Seq<AttrItemModel>,
    pairs: Seq<(Seq<char>, Seq<char>)>,
    k: int,
)
    requires
        0 <= k <= attrs.len(),
        replaced_all(attrs.take(k), pairs) is Err,
    ensures
        replaced_all(attrs, pairs) == replaced_all(attrs.take(k), pairs),
    decreases attrs.len() - k,
{
    if k < attrs.len() {
        assert(attrs.take(k + 1).drop_last() == attrs.take(k));
        lemma_replaced_all_stops(attrs, pairs, k + 1);
    } else {
        assert(attrs.take(k) == attrs);
    }
}

} // verus!
