//! The standard handler registry: strip marker elements, replace the title,
//! append a hidden fragment to the body, mark every script.
use vstd::prelude::*;
use crate::html::{
    bindings_of, all_selectors_valid, edit_of, handled_by, is_marker_id, selector_is_valid, Action, EditView,
    HandlerSpec, Position,
};
use crate::ident::marker_of;

verus! {

/// Elements carrying the marker as class, id or attribute.
pub const MARKER_SELECTOR: &'static str = ".goguardian, #goguardian, [goguardian]";

pub const TITLE_SELECTOR: &'static str = "title";

pub const BODY_SELECTOR: &'static str = "body";

pub const SCRIPT_SELECTOR: &'static str = "script";

/// Title text used when none is configured.
pub const DEFAULT_TITLE: &'static str = "Safe";

/// The hidden fragment appended to the body.
pub const HONEY_POT_FRAGMENT: &'static str = "<div id='ign-honey-pot' style='display:none !important;'>\n                            Algebraic Methodology, Primary Source Analysis, Linear Thermodynamics, \n                            MLA Citation Guide, Academic Integrity documentation\n                        </div>";

/// Whether `handlers` is the standard registry with title text `title`.
pub open spec fn is_standard(handlers: Seq<HandlerSpec>, title: Seq<char>) -> bool {
    &&& handlers.len() == 4
    &&& handlers[0].selector@ == MARKER_SELECTOR@
    &&& handlers[0].action is RemoveElement
    &&& handlers[1].selector@ == TITLE_SELECTOR@
    &&& match handlers[1].action {
        Action::ReplaceTitleText(t) => t@ == title,
        _ => false,
    }
    &&& handlers[2].selector@ == BODY_SELECTOR@
    &&& match handlers[2].action {
        Action::InjectFixedFragment(f, p) => f@ == HONEY_POT_FRAGMENT@ && p == Position::Append,
        _ => false,
    }
    &&& handlers[3].selector@ == SCRIPT_SELECTOR@
    &&& handlers[3].action == Action::InjectRandomizedComment(Position::Prepend)
}

/// Whether lol_html accepts each selector of the standard registry.
pub open spec fn standard_selectors_valid() -> bool {
    &&& selector_is_valid(MARKER_SELECTOR@)
    &&& selector_is_valid(TITLE_SELECTOR@)
    &&& selector_is_valid(BODY_SELECTOR@)
    &&& selector_is_valid(SCRIPT_SELECTOR@)
}

/// A standard registry compiles exactly when its four selectors do.
pub proof fn lemma_standard_validity(handlers: Seq<HandlerSpec>, title: Seq<char>)
    requires
        is_standard(handlers, title),
    ensures
        all_selectors_valid(handlers) <==> standard_selectors_valid(),
{
    if standard_selectors_valid() {
        assert forall|i: int| 0 <= i < handlers.len() implies selector_is_valid(
            #[trigger] handlers[i].selector@,
        ) by {
            if i == 0 {
            } else if i == 1 {
            } else if i == 2 {
            } else {
            }
        }
    }
    if all_selectors_valid(handlers) {
        assert(selector_is_valid(handlers[0].selector@));
        assert(selector_is_valid(handlers[1].selector@));
        assert(selector_is_valid(handlers[2].selector@));
        assert(selector_is_valid(handlers[3].selector@));
    }
}

/// What the standard registry binds at index `i`, and what it hands to
/// lol_html for an element matched there: a marker element is removed; a title gets `title` as its text; a body
/// gets the hidden fragment appended before its end tag; a script gets one
/// marker comment with an 8-letter lowercase identifier before its content.
pub proof fn lemma_standard_edits(
    handlers: Seq<HandlerSpec>,
    title: Seq<char>,
    i: int,
    edits: Seq<EditView>,
)
    requires
        is_standard(handlers, title),
        0 <= i < handlers.len(),
        handled_by(bindings_of(handlers)[i].1, edits),
    ensures
        i == 0 ==> bindings_of(handlers)[i].0 == MARKER_SELECTOR@,
        i == 1 ==> bindings_of(handlers)[i].0 == TITLE_SELECTOR@,
        i == 2 ==> bindings_of(handlers)[i].0 == BODY_SELECTOR@,
        i == 3 ==> bindings_of(handlers)[i].0 == SCRIPT_SELECTOR@,
        i == 0 ==> edits == seq![EditView::Remove],
        i == 1 ==> edits == seq![EditView::SetText(title)],
        i == 2 ==> edits == seq![EditView::Insert(HONEY_POT_FRAGMENT@, Position::Append)],
        i == 3 ==> exists|id: Seq<char>|
            is_marker_id(id) && edits == seq![
                EditView::Insert(#[trigger] marker_of(id), Position::Prepend),
            ],
{
    if i == 3 {
        let id = choose|id: Seq<char>|
            is_marker_id(id) && edits == seq![
                #[trigger] edit_of(bindings_of(handlers)[i].1, id),
            ];
        assert(edits == seq![EditView::Insert(marker_of(id), Position::Prepend)]);
    }
}

/// The standard registry, with `title` as the replacement title text.
pub fn standard_handlers(title: &str) -> (r: Vec<HandlerSpec>)
    ensures
        is_standard(r@, title@),
{
    let mut r: Vec<HandlerSpec> = Vec::new();
    r.push(HandlerSpec { selector: String::from_str(MARKER_SELECTOR), action: Action::RemoveElement });
    r.push(
        HandlerSpec {
            selector: String::from_str(TITLE_SELECTOR),
            action: Action::ReplaceTitleText(String::from_str(title)),
        },
    );
    r.push(
        HandlerSpec {
            selector: String::from_str(BODY_SELECTOR),
            action: Action::InjectFixedFragment(
                String::from_str(HONEY_POT_FRAGMENT),
                Position::Append,
            ),
        },
    );
    r.push(
        HandlerSpec {
            selector: String::from_str(SCRIPT_SELECTOR),
            action: Action::InjectRandomizedComment(Position::Prepend),
        },
    );
    r
}

} // verus!
