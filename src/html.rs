//! The handler registry and the per-element dispatch of the streaming
//! rewriter. Tokenizing, selector matching and serialising are lol_html's;
//! which edit each matched element receives is decided here.
use vstd::prelude::*;
use vstd::utf8::{decode_utf8, valid_utf8};
use std::borrow::Cow;
use std::string::FromUtf8Error;
use lol_html::errors::{RewritingError, SelectorError};
use lol_html::html_content::{ContentType, Element};
use lol_html::{ElementContentHandlers, HtmlRewriter, Selector, Settings};
use crate::ident::{drawn_id, fresh_id, is_lower, marker_comment, marker_of, ID_LEN};

verus! {

/// Where inserted content goes inside the matched element.
#[derive(Clone, Copy, Debug, PartialEq, Eq, Structural)]
pub enum Position {
    /// Right after the start tag, before the element's own content.
    Prepend,
    /// Right before the end tag, after the element's own content.
    Append,
}

/// What a handler does to an element that its selector matches.
#[derive(Clone, Debug)]
pub enum Action {
    /// Drop the element with everything inside it.
    RemoveElement,
    /// Replace the element's content with this text.
    ReplaceTitleText(String),
    /// Insert this markup, verbatim, at the position.
    InjectFixedFragment(String, Position),
    /// Insert a marker comment with a freshly drawn identifier.
    InjectRandomizedComment(Position),
}

/// One binding of the registry: a CSS selector and its action.
#[derive(Clone, Debug)]
pub struct HandlerSpec {
    pub selector: String,
    pub action: Action,
}

/// An edit to one matched element, fully decided.
#[derive(Clone, Debug)]
pub enum Edit {
    Remove,
    SetText(String),
    Insert(String, Position),
}

/// Why a rewrite failed.
#[derive(Clone, Copy, Debug, PartialEq, Eq, Structural)]
pub enum RewriteError {
    /// A selector of the registry is malformed.
    Configuration,
    /// The tokenizer could not process the input.
    Parse,
    /// The output bytes are not valid UTF-8.
    Encoding,
}

/// An edit as handed to lol_html, over plain values.
pub enum EditView {
    Remove,
    SetText(Seq<char>),
    Insert(Seq<char>, Position),
}

/// The plain-value form of an edit.
pub open spec fn view_of(edit: Edit) -> EditView {
    match edit {
        Edit::Remove => EditView::Remove,
        Edit::SetText(s) => EditView::SetText(s@),
        Edit::Insert(s, p) => EditView::Insert(s@, p),
    }
}

/// The edit that `action` calls for, `id` being the identifier drawn for a
/// randomized comment.
pub open spec fn edit_of(action: Action, id: Seq<char>) -> EditView {
    match action {
        Action::RemoveElement => EditView::Remove,
        Action::ReplaceTitleText(t) => EditView::SetText(t@),
        Action::InjectFixedFragment(f, p) => EditView::Insert(f@, p),
        Action::InjectRandomizedComment(p) => EditView::Insert(marker_of(id), p),
    }
}

/// An identifier as drawn for a marker: `ID_LEN` lowercase letters, each
/// selected by one random byte.
pub open spec fn is_marker_id(id: Seq<char>) -> bool {
    &&& id.len() == ID_LEN
    &&& forall|i: int| 0 <= i < id.len() ==> is_lower(#[trigger] id[i])
    &&& drawn_id(id)
}

/// Whether `edits` is what an element matched by `action` receives: that
/// action's edit alone, with a freshly drawn identifier for a randomized
/// comment.
pub open spec fn handled_by(action: Action, edits: Seq<EditView>) -> bool {
    match action {
        Action::InjectRandomizedComment(p) => exists|id: Seq<char>|
            is_marker_id(id) && edits == seq![#[trigger] edit_of(action, id)],
        _ => edits == seq![edit_of(action, Seq::empty())],
    }
}

/// Decide the edit for `action`; `id` is used by a randomized comment only.
pub fn plan_edit(action: &Action, id: &str) -> (r: Edit)
    ensures
        view_of(r) == edit_of(*action, id@),
{
    match action {
        Action::RemoveElement => Edit::Remove,
        Action::ReplaceTitleText(t) => Edit::SetText(t.clone()),
        Action::InjectFixedFragment(f, p) => Edit::Insert(f.clone(), *p),
        Action::InjectRandomizedComment(p) => Edit::Insert(marker_comment(id), *p),
    }
}

/// The handle lol_html gives to a handler for the element it matched.
#[verifier::external_body]
pub struct ElementRef<'a, 'r, 't> {
    el: &'a mut Element<'r, 't>,
}

/// A matched element together with the edits handed to lol_html for it so
/// far, in order.
pub struct MatchedElement<'a, 'r, 't> {
    el: ElementRef<'a, 'r, 't>,
    edits: Ghost<Seq<EditView>>,
}

impl<'a, 'r, 't> MatchedElement<'a, 'r, 't> {
    /// The edits handed to lol_html for this element so far, in order.
    pub closed spec fn edits(&self) -> Seq<EditView> {
        self.edits@
    }
}

/// Relies on lol_html's `Element::remove`: drops the element and its content
/// from the output.
#[verifier::external_body]
fn remove_element(m: &mut MatchedElement<'_, '_, '_>)
    ensures
        final(m).edits() == old(m).edits().push(EditView::Remove),
{
    m.el.el.remove()
}

/// Relies on lol_html's `Element::set_inner_content`, with the content taken
/// as text (escaped on output).
#[verifier::external_body]
fn set_inner_text(m: &mut MatchedElement<'_, '_, '_>, content: &str)
    ensures
        final(m).edits() == old(m).edits().push(EditView::SetText(content@)),
{
    m.el.el.set_inner_content(content, ContentType::Text)
}

/// Relies on lol_html's `Element::prepend`, with the content taken as markup.
#[verifier::external_body]
fn prepend_html(m: &mut MatchedElement<'_, '_, '_>, content: &str)
    ensures
        final(m).edits() == old(m).edits().push(EditView::Insert(content@, Position::Prepend)),
{
    m.el.el.prepend(content, ContentType::Html)
}

/// Relies on lol_html's `Element::append`, with the content taken as markup.
#[verifier::external_body]
fn append_html(m: &mut MatchedElement<'_, '_, '_>, content: &str)
    ensures
        final(m).edits() == old(m).edits().push(EditView::Insert(content@, Position::Append)),
{
    m.el.el.append(content, ContentType::Html)
}

/// Carry out `edit` on the matched element.
pub fn apply_edit(m: &mut MatchedElement<'_, '_, '_>, edit: &Edit)
    ensures
        final(m).edits() == old(m).edits().push(view_of(*edit)),
{
    match edit {
        Edit::Remove => remove_element(m),
        Edit::SetText(s) => set_inner_text(m, s.as_str()),
        Edit::Insert(s, Position::Prepend) => prepend_html(m, s.as_str()),
        Edit::Insert(s, Position::Append) => append_html(m, s.as_str()),
    }
}

/// Run `action` on an element its selector matched; the result is the list
/// of edits handed to lol_html for it.
pub fn handle_element(el: ElementRef<'_, '_, '_>, action: &Action) -> (r: Ghost<Seq<EditView>>)
    ensures
        handled_by(*action, r@),
{
    let mut m = MatchedElement { el, edits: Ghost(Seq::empty()) };
    let id = match action {
        Action::InjectRandomizedComment(_) => fresh_id(),
        _ => String::new(),
    };
    let edit = plan_edit(action, id.as_str());
    apply_edit(&mut m, &edit);
    assert(m.edits() =~= seq![edit_of(*action, id@)]);
    m.edits
}

#[verifier::external_type_specification]
#[verifier::external_body]
pub struct ExSelector(Selector);

#[verifier::external_type_specification]
#[verifier::external_body]
pub struct ExSelectorError(SelectorError);

#[verifier::external_type_specification]
#[verifier::external_body]
pub struct ExRewritingError(RewritingError);

#[verifier::external_type_specification]
#[verifier::external_body]
pub struct ExFromUtf8Error(FromUtf8Error);

/// Whether lol_html accepts `s` as a selector.
pub uninterp spec fn selector_is_valid(s: Seq<char>) -> bool;

/// Relies on lol_html's `Selector::from_str`: whether it parses depends on
/// the text alone.
#[verifier::external_body]
fn parse_selector(s: &str) -> (r: Result<Selector, SelectorError>)
    ensures
        r is Ok <==> selector_is_valid(s@),
{
    s.parse::<Selector>()
}

/// A selector compiled by lol_html, with the text it was compiled from.
pub struct CompiledSelector {
    sel: Selector,
    source: Ghost<Seq<char>>,
}

impl CompiledSelector {
    /// The text this selector was compiled from.
    pub closed spec fn source(&self) -> Seq<char> {
        self.source@
    }
}

/// Compile `text` as a selector; fail with `Configuration` exactly when
/// lol_html rejects it.
pub fn compile_selector(text: &str) -> (r: Result<CompiledSelector, RewriteError>)
    ensures
        r is Ok <==> selector_is_valid(text@),
        r matches Ok(c) ==> c.source() == text@,
        r matches Err(e) ==> e == RewriteError::Configuration,
{
    match parse_selector(text) {
        Ok(sel) => Ok(CompiledSelector { sel, source: Ghost(text@) }),
        Err(_) => Err(RewriteError::Configuration),
    }
}

/// Relies on std's `String::from_utf8`: it succeeds exactly on valid UTF-8,
/// and the string then holds the decoded characters.
#[verifier::external_body]
fn utf8_string(bytes: Vec<u8>) -> (r: Result<String, FromUtf8Error>)
    ensures
        r is Ok <==> valid_utf8(bytes@),
        r matches Ok(s) ==> s@ == decode_utf8(bytes@),
{
    String::from_utf8(bytes)
}

/// The handlers of one rewrite, as lol_html holds them.
#[verifier::external_body]
pub struct HandlerTable<'h> {
    settings: Settings<'h, 'h>,
}

/// A handler table together with the bindings made in it so far: each
/// selector's source text with its action, in registration order.
pub struct Bindings<'h> {
    table: HandlerTable<'h>,
    bound: Ghost<Seq<(Seq<char>, Action)>>,
}

impl<'h> Bindings<'h> {
    /// The (selector text, action) pairs bound so far, in order.
    pub closed spec fn bindings(&self) -> Seq<(Seq<char>, Action)> {
        self.bound@
    }
}

/// Whether lol_html, run over `html` with the handlers `bindings` in that
/// order, can produce the bytes `out`. More than one output is possible
/// where a handler draws random identifiers.
pub uninterp spec fn can_produce(bindings: Seq<(Seq<char>, Action)>, html: Seq<char>, out: Seq<u8>) -> bool;

/// Relies on lol_html's `Settings::new`: no handlers yet.
#[verifier::external_body]
fn new_table<'h>() -> HandlerTable<'h> {
    HandlerTable { settings: Settings::new() }
}

/// An empty table.
fn empty_bindings<'h>() -> (r: Bindings<'h>)
    ensures
        r.bindings() == Seq::<(Seq<char>, Action)>::empty(),
{
    Bindings { table: new_table(), bound: Ghost(Seq::empty()) }
}

/// Relies on lol_html's `Settings::append_element_content_handler`: elements
/// that `selector` matches are handed to `handle_element` with `action`,
/// after the handlers added before.
#[verifier::external_body]
fn add_handler<'h>(b: &mut Bindings<'h>, selector: &'h CompiledSelector, action: &'h Action)
    ensures
        final(b).bindings() == old(b).bindings().push((selector.source(), *action)),
{
    let handlers = ElementContentHandlers::default().element(move |el: &mut Element| {
        handle_element(ElementRef { el }, action);
        Ok(())
    });
    let settings = std::mem::take(&mut b.table.settings);
    b.table.settings = settings.append_element_content_handler((Cow::Borrowed(&selector.sel), handlers));
}

/// Relies on lol_html's `HtmlRewriter`: streams `html` through the tokenizer
/// with the handlers of `b` and collects the serialised output.
#[verifier::external_body]
fn run_table(b: Bindings<'_>, html: &str) -> (r: Result<Vec<u8>, RewritingError>)
    ensures
        r matches Ok(out) ==> can_produce(b.bindings(), html@, out@),
{
    let mut output = Vec::new();
    let mut rewriter = HtmlRewriter::new(b.table.settings, |c: &[u8]| output.extend_from_slice(c));
    rewriter.write(html.as_bytes())?;
    rewriter.end()?;
    Ok(output)
}

/// The bindings `handlers` call for: each selector's text with its action,
/// in registration order.
pub open spec fn bindings_of(handlers: Seq<HandlerSpec>) -> Seq<(Seq<char>, Action)> {
    handlers.map_values(|h: HandlerSpec| (h.selector@, h.action))
}

/// Whether `selectors` are compiled from the selectors of `handlers`, one
/// each, at the same index.
pub open spec fn compiled_from(selectors: Seq<CompiledSelector>, handlers: Seq<HandlerSpec>) -> bool {
    &&& selectors.len() == handlers.len()
    &&& forall|i: int|
        0 <= i < selectors.len() ==> (#[trigger] selectors[i]).source() == handlers[i].selector@
}

/// Whether `text` is a rewrite of `html` that lol_html can produce with
/// `handlers` bound in order, decoded from UTF-8.
pub open spec fn rewritten_by(handlers: Seq<HandlerSpec>, html: Seq<char>, text: Seq<char>) -> bool {
    exists|out: Seq<u8>|
        can_produce(bindings_of(handlers), html, out) && valid_utf8(out) && text == #[trigger] decode_utf8(out)
}

/// Bind each compiled selector to the action of the handler at the same
/// index, in registration order.
pub fn build_table<'h>(selectors: &'h Vec<CompiledSelector>, handlers: &'h Vec<HandlerSpec>) -> (r: Bindings<'h>)
    requires
        compiled_from(selectors@, handlers@),
    ensures
        r.bindings() == bindings_of(handlers@),
{
    let mut b = empty_bindings();
    let mut i: usize = 0;
    assert(bindings_of(handlers@.take(0)) =~= Seq::<(Seq<char>, Action)>::empty());
    while i < handlers.len()
        invariant
            i <= handlers@.len(),
            compiled_from(selectors@, handlers@),
            b.bindings() == bindings_of(handlers@.take(i as int)),
        decreases handlers@.len() - i,
    {
        add_handler(&mut b, &selectors[i], &handlers[i].action);
        assert(handlers@.take(i as int + 1) =~= handlers@.take(i as int).push(handlers@[i as int]));
        assert(bindings_of(handlers@.take(i as int + 1)) =~= bindings_of(handlers@.take(i as int)).push(
            (handlers@[i as int].selector@, handlers@[i as int].action),
        ));
        i = i + 1;
    }
    assert(handlers@.take(i as int) =~= handlers@);
    b
}

/// Rewrite `html` with `selectors` compiled from `handlers`, each bound to
/// its handler's action in registration order. Fails with `Parse` or
/// `Encoding` only, as the tokenizer's run decides; otherwise the text is
/// one that lol_html produces with exactly those bindings.
pub fn rewrite_compiled(html: &str, selectors: &Vec<CompiledSelector>, handlers: &Vec<HandlerSpec>) -> (r: Result<String, RewriteError>)
    requires
        compiled_from(selectors@, handlers@),
    ensures
        r matches Err(e) ==> e == RewriteError::Parse || e == RewriteError::Encoding,
        r matches Ok(s) ==> rewritten_by(handlers@, html@, s@),
{
    let b = build_table(selectors, handlers);
    let raw = run_table(b, html);
    let r = finish_output(raw);
    proof {
        if r is Ok {
            let out = raw->Ok_0@;
            assert(can_produce(bindings_of(handlers@), html@, out) && valid_utf8(out)
                && r->Ok_0@ == decode_utf8(out));
        }
    }
    r
}

/// Whether every selector of `handlers` is well formed.
pub open spec fn all_selectors_valid(handlers: Seq<HandlerSpec>) -> bool {
    forall|i: int| 0 <= i < handlers.len() ==> selector_is_valid(#[trigger] handlers[i].selector@)
}

/// Parse every selector of `handlers`, in order; fail with `Configuration`
/// on the first malformed one.
pub fn compile_selectors(handlers: &Vec<HandlerSpec>) -> (r: Result<Vec<CompiledSelector>, RewriteError>)
    ensures
        r is Ok <==> all_selectors_valid(handlers@),
        r matches Ok(v) ==> compiled_from(v@, handlers@),
        r matches Err(e) ==> e == RewriteError::Configuration,
{
    let mut out: Vec<CompiledSelector> = Vec::new();
    let mut i: usize = 0;
    while i < handlers.len()
        invariant
            i <= handlers@.len(),
            out@.len() == i,
            forall|j: int| 0 <= j < i ==> selector_is_valid(#[trigger] handlers@[j].selector@),
            forall|j: int| 0 <= j < i ==> (#[trigger] out@[j]).source() == handlers@[j].selector@,
        decreases handlers@.len() - i,
    {
        match compile_selector(handlers[i].selector.as_str()) {
            Ok(sel) => out.push(sel),
            Err(_) => return Err(RewriteError::Configuration),
        }
        i = i + 1;
    }
    Ok(out)
}

/// Turn what the tokenizer produced into the rewrite's result: a tokenizer
/// failure is `Parse`, output that is not UTF-8 is `Encoding`, and otherwise
/// the decoded text.
pub fn finish_output(raw: Result<Vec<u8>, RewritingError>) -> (r: Result<String, RewriteError>)
    ensures
        raw is Err ==> r == Err::<String, RewriteError>(RewriteError::Parse),
        raw matches Ok(b) ==> (r is Ok <==> valid_utf8(b@)),
        raw matches Ok(b) ==> (r matches Ok(s) ==> s@ == decode_utf8(b@)),
        raw matches Ok(b) ==> (r matches Err(e) ==> e == RewriteError::Encoding),
{
    match raw {
        Err(_) => Err(RewriteError::Parse),
        Ok(bytes) => match utf8_string(bytes) {
            Ok(s) => Ok(s),
            Err(_) => Err(RewriteError::Encoding),
        },
    }
}

/// Rewrite `html` with `handlers`, in registration order. Fails with
/// `Configuration` exactly when a selector is malformed; otherwise with
/// `Parse` or `Encoding` as the tokenizer's run decides, or gives a text that
/// lol_html produces with exactly those bindings.
pub fn rewrite_html(html: &str, handlers: &Vec<HandlerSpec>) -> (r: Result<String, RewriteError>)
    ensures
        r == Err::<String, RewriteError>(RewriteError::Configuration) <==> !all_selectors_valid(
            handlers@,
        ),
        r matches Ok(s) ==> rewritten_by(handlers@, html@, s@),
{
    let selectors = match compile_selectors(handlers) {
        Ok(v) => v,
        Err(e) => return Err(e),
    };
    rewrite_compiled(html, &selectors, handlers)
}

} // verus!
