//! Tests for the document engine on its own, ahead of any AST wiring.

use c_ast::pretty::{render_doc, Doc};

fn text(s: &str) -> Doc {
    Doc::Text(s.to_string())
}

#[test]
fn soft_break_fits_as_space() {
    let doc = Doc::Group(
        4,
        Box::new(Doc::Pair(
            Box::new(text("alpha")),
            Box::new(Doc::Pair(Box::new(Doc::SoftBreak), Box::new(text("beta")))),
        )),
    );
    assert_eq!(render_doc(&doc, 100), "alpha beta");
    // "alpha beta" is 10 characters: it fits exactly at width 10.
    assert_eq!(render_doc(&doc, 10), "alpha beta");
}

#[test]
fn soft_break_yields_when_too_wide() {
    let doc = Doc::Group(
        4,
        Box::new(Doc::Pair(
            Box::new(text("alpha")),
            Box::new(Doc::Pair(Box::new(Doc::SoftBreak), Box::new(text("beta")))),
        )),
    );
    assert_eq!(render_doc(&doc, 9), "alpha\n    beta");
}

#[test]
fn hard_break_always_yields() {
    let doc = Doc::Group(
        4,
        Box::new(Doc::Pair(
            Box::new(text("alpha")),
            Box::new(Doc::Pair(
                Box::new(Doc::SoftBreak),
                Box::new(Doc::Pair(
                    Box::new(text("beta")),
                    Box::new(Doc::Pair(Box::new(Doc::HardBreak), Box::new(text("gamma")))),
                )),
            )),
        )),
    );
    // The hard break forces the whole group broken, so the soft break
    // yields too, however generous the width.
    assert_eq!(render_doc(&doc, 1000), "alpha\n    beta\n    gamma");
}

#[test]
fn nested_groups_indent_cumulatively() {
    let inner = Doc::Group(
        2,
        Box::new(Doc::Pair(
            Box::new(text("cd")),
            Box::new(Doc::Pair(Box::new(Doc::SoftBreak), Box::new(text("ef")))),
        )),
    );
    let outer = Doc::Group(
        2,
        Box::new(Doc::Pair(
            Box::new(text("ab")),
            Box::new(Doc::Pair(Box::new(Doc::SoftBreak), Box::new(inner))),
        )),
    );
    assert_eq!(render_doc(&outer, 100), "ab cd ef");
    assert_eq!(render_doc(&outer, 5), "ab\n  cd\n    ef");
}

#[test]
fn empty_document_renders_empty() {
    assert_eq!(render_doc(&Doc::Empty, 10), "");
}
