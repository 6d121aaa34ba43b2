use ignition_core::html::{
    compile_selector, compile_selectors, finish_output, plan_edit, rewrite_compiled, rewrite_html, Action, Edit, HandlerSpec,
    Position, RewriteError,
};
use ignition_core::ident::{fresh_id, id_from_draws, marker_comment};
use ignition_core::registry::{standard_handlers, HONEY_POT_FRAGMENT};
use ignition_core::IgnitionRewriter;
use lol_html::errors::{MemoryLimitExceededError, RewritingError};

const MARKER: &str = "/* ign-ghost-sig: ";

#[test]
fn removal_drops_nested_descendants() {
    let session = IgnitionRewriter::new(0).unwrap();
    let html = "<div><p class=\"goguardian\"><span><b><i>deep</i></b></span></p><p>keep</p>\
                <section id=\"goguardian\"><em>inner</em></section>\
                <aside goguardian><div><div>nested</div></div></aside></div>";
    let out = session.transform_html(html).unwrap();
    assert!(!out.contains("goguardian"));
    assert!(!out.contains("deep"));
    assert!(!out.contains("inner"));
    assert!(!out.contains("nested"));
    assert!(out.contains("<p>keep</p>"));
}

#[test]
fn title_is_replaced() {
    let session = IgnitionRewriter::new(0).unwrap();
    let out = session.transform_html("<title>Anything</title>").unwrap();
    assert!(out.contains("Safe"));
    assert!(!out.contains("Anything"));
}

#[test]
fn configured_title_is_used() {
    let handlers = standard_handlers("Notes");
    let session = IgnitionRewriter::with_handlers(3, handlers).unwrap();
    let out = session.transform_html("<html><head><title>Old</title></head></html>").unwrap();
    assert!(out.contains("<title>Notes</title>"));
    assert!(!out.contains("Old"));
}

#[test]
fn body_fragment_injected_once_before_close() {
    let session = IgnitionRewriter::new(0).unwrap();
    let out = session
        .transform_html("<html><body><p>hello</p></body></html>")
        .unwrap();
    assert_eq!(out.matches(HONEY_POT_FRAGMENT).count(), 1);
    let at = out.find(HONEY_POT_FRAGMENT).unwrap();
    let close = out.find("</body>").unwrap();
    assert!(at < close);
    assert!(out.find("<p>hello</p>").unwrap() < at);
}

#[test]
fn each_script_gets_one_marker() {
    let session = IgnitionRewriter::new(0).unwrap();
    let html = "<script>a=1;</script><p>x</p><script>b=2;</script><script>c=3;</script>";
    let out = session.transform_html(html).unwrap();
    assert_eq!(out.matches(MARKER).count(), 3);
    for (i, content) in ["a=1;", "b=2;", "c=3;"].iter().enumerate() {
        let start = out.match_indices(MARKER).nth(i).unwrap().0 + MARKER.len();
        let id = &out[start..start + 8];
        assert!(id.chars().all(|c| c.is_ascii_lowercase()));
        let rest = &out[start + 8..];
        assert!(rest.starts_with(&format!(" */\n{}</script>", content)));
        assert_eq!(&out[start - MARKER.len() - 8..start - MARKER.len()], "<script>");
    }
}

#[test]
fn document_without_matches_is_unchanged() {
    let session = IgnitionRewriter::new(0).unwrap();
    let html = "<div class=\"x\"><p>plain &amp; simple</p><!-- note --></div>";
    assert_eq!(session.transform_html(html).unwrap(), html);
}

#[test]
fn script_transform_passthrough() {
    let session = IgnitionRewriter::new(0).unwrap();
    let out = session.transform_js("x=1;");
    assert_eq!(out, "/* ign-jit-morph v3.1 */\nx=1;");
    assert!(out.ends_with("x=1;"));
}

#[test]
fn malformed_selector_is_configuration_error() {
    let handlers = vec![HandlerSpec {
        selector: String::from("p[[["),
        action: Action::RemoveElement,
    }];
    assert!(matches!(
        IgnitionRewriter::with_handlers(0, handlers.clone()),
        Err(RewriteError::Configuration)
    ));
    assert!(matches!(compile_selectors(&handlers), Err(RewriteError::Configuration)));
    assert_eq!(
        rewrite_html("<p>a</p>", &handlers),
        Err(RewriteError::Configuration)
    );
}

#[test]
fn valid_selectors_compile() {
    let handlers = standard_handlers("T");
    assert_eq!(compile_selectors(&handlers).unwrap().len(), 4);
}

#[test]
fn custom_registry_rewrites() {
    let handlers = vec![
        HandlerSpec {
            selector: String::from("span"),
            action: Action::InjectFixedFragment(String::from("<b>!</b>"), Position::Prepend),
        },
        HandlerSpec {
            selector: String::from("em"),
            action: Action::RemoveElement,
        },
    ];
    let out = rewrite_html("<span>a<em>b</em></span>", &handlers).unwrap();
    assert_eq!(out, "<span><b>!</b>a</span>");
}

#[test]
fn finish_output_maps_results() {
    assert_eq!(finish_output(Ok(b"ab".to_vec())), Ok(String::from("ab")));
    assert_eq!(
        finish_output(Ok(vec![0x61, 0xff])),
        Err(RewriteError::Encoding)
    );
    let failed: Result<Vec<u8>, RewritingError> =
        Err(RewritingError::MemoryLimitExceeded(MemoryLimitExceededError));
    assert_eq!(finish_output(failed), Err(RewriteError::Parse));
}

#[test]
fn id_from_draws_selects_letters() {
    assert_eq!(id_from_draws(&[0, 25, 26, 255]), "azav");
    assert_eq!(id_from_draws(&[]), "");
}

#[test]
fn fresh_id_is_eight_lowercase_letters() {
    let id = fresh_id();
    assert_eq!(id.len(), 8);
    assert!(id.chars().all(|c| c.is_ascii_lowercase()));
}

#[test]
fn marker_comment_text() {
    assert_eq!(marker_comment("abcdefgh"), "/* ign-ghost-sig: abcdefgh */\n");
}

#[test]
fn plan_edit_per_action() {
    assert!(matches!(plan_edit(&Action::RemoveElement, "q"), Edit::Remove));
    match plan_edit(&Action::ReplaceTitleText(String::from("T")), "q") {
        Edit::SetText(s) => assert_eq!(s, "T"),
        other => panic!("unexpected {:?}", other),
    }
    match plan_edit(&Action::InjectFixedFragment(String::from("<i>"), Position::Append), "q") {
        Edit::Insert(s, p) => {
            assert_eq!(s, "<i>");
            assert_eq!(p, Position::Append);
        }
        other => panic!("unexpected {:?}", other),
    }
    match plan_edit(&Action::InjectRandomizedComment(Position::Prepend), "abcdefgh") {
        Edit::Insert(s, p) => {
            assert_eq!(s, "/* ign-ghost-sig: abcdefgh */\n");
            assert_eq!(p, Position::Prepend);
        }
        other => panic!("unexpected {:?}", other),
    }
}

#[test]
fn nested_marker_elements_removed_exactly() {
    let session = IgnitionRewriter::new(0).unwrap();
    let html = "<div><p class='x goguardian'><span><script>a</script></span></p>\
                <i id='goguardian'>q</i><b goguardian>r</b>y</div>";
    assert_eq!(session.transform_html(html).unwrap(), "<div>y</div>");
}

#[test]
fn body_fragment_exact_output() {
    let session = IgnitionRewriter::new(0).unwrap();
    let out = session
        .transform_html("<html><body><p>a</p></body></html>")
        .unwrap();
    assert_eq!(
        out,
        format!("<html><body><p>a</p>{}</body></html>", HONEY_POT_FRAGMENT)
    );
}

#[test]
fn compiled_rewrite_uses_bindings_in_order() {
    let handlers = vec![
        HandlerSpec {
            selector: String::from("p"),
            action: Action::InjectFixedFragment(String::from("1"), Position::Append),
        },
        HandlerSpec {
            selector: String::from("p"),
            action: Action::InjectFixedFragment(String::from("2"), Position::Append),
        },
    ];
    let selectors = compile_selectors(&handlers).unwrap();
    let out = rewrite_compiled("<p>x</p>", &selectors, &handlers).unwrap();
    assert_eq!(out, "<p>x12</p>");
}

#[test]
fn near_miss_selectors_leave_document_unchanged() {
    let session = IgnitionRewriter::new(0).unwrap();
    let html = "<p class='goguardian2' data-x='goguardian'>t</p>";
    assert_eq!(session.transform_html(html).unwrap(), html);
}

#[test]
fn removal_and_title_are_idempotent() {
    let session = IgnitionRewriter::new(0).unwrap();
    let html = "<head><title>Old</title></head><div><i class='goguardian'>x</i>kept</div>";
    let once = session.transform_html(html).unwrap();
    let twice = session.transform_html(&once).unwrap();
    assert_eq!(once, "<head><title>Safe</title></head><div>kept</div>");
    assert_eq!(twice, once);
}

#[test]
fn compile_selector_checks_text() {
    assert!(compile_selector("div > p.x").is_ok());
    assert!(matches!(compile_selector("p[[["), Err(RewriteError::Configuration)));
}
