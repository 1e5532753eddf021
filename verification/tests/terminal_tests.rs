use mdp::ast::{Alignment, Document, Element};
use mdp::style::{Color, StyleState};
use mdp::terminal::{column_widths, TerminalRenderer};

#[test]
fn test_style_diff_identical_styles_is_empty() {
    let s = StyleState {
        bold: true,
        italic: false,
        strikethrough: false,
        underline: false,
        color: Some(Color::Blue),
    };
    let mut out: Vec<char> = Vec::new();
    s.apply_diff(&s, &mut out);
    assert!(out.is_empty(), "Equal styles must emit no escape sequence");
}

#[test]
fn test_style_diff_color_change_only() {
    let from = StyleState {
        bold: true,
        italic: false,
        strikethrough: false,
        underline: false,
        color: Some(Color::Blue),
    };
    let to = StyleState { color: Some(Color::Red), ..from };
    let mut out: Vec<char> = Vec::new();
    to.apply_diff(&from, &mut out);
    let s: String = out.into_iter().collect();
    assert_eq!(s, "\u{1b}[91m", "Only the color command may be emitted");
}

#[test]
fn test_style_fresh_resets_then_enables() {
    let target = StyleState {
        bold: true,
        italic: false,
        strikethrough: false,
        underline: false,
        color: None,
    };
    let mut out: Vec<char> = Vec::new();
    target.apply_fresh(&mut out);
    let s: String = out.into_iter().collect();
    assert_eq!(s, "\u{1b}[22m\u{1b}[23m\u{1b}[29m\u{1b}[24m\u{1b}[39m\u{1b}[1m");
}

#[test]
fn test_column_widths_minimum() {
    let headers = vec![String::from("A"), String::from("BB")];
    let rows = vec![vec![String::from("1"), String::from("22")]];
    let widths = column_widths(&headers, &rows);
    assert_eq!(widths, vec![5, 5]);
    assert!(widths.iter().all(|w| *w >= 5));

    let wide = vec![String::from("ABCDEF")];
    let widths2 = column_widths(&wide, &vec![]);
    assert_eq!(widths2, vec![8]);
}

#[test]
fn test_table_alignment_padding() {
    let doc = Document {
        elements: vec![Element::Table {
            headers: vec![String::from("A"), String::from("BB")],
            alignments: vec![Alignment::Left, Alignment::Right],
            rows: vec![vec![String::from("1"), String::from("22")]],
        }],
    };
    let renderer = TerminalRenderer::new("dark", 80);
    let out = renderer.render(&doc, false);
    // Column width is 5: left-aligned "1" keeps a leading space, right-aligned
    // "22" keeps a trailing space.
    assert!(out.contains(" 1   "), "left-aligned cell: {:?}", out);
    assert!(out.contains("  22 "), "right-aligned cell: {:?}", out);
}

#[test]
fn test_code_block_highlighting_output() {
    let doc = Document {
        elements: vec![Element::CodeBlock {
            language: Some(String::from("rust")),
            content: String::from("let x = 1;\n"),
        }],
    };
    let renderer = TerminalRenderer::new("dark", 40);
    let out = renderer.render(&doc, false);
    assert!(out.contains("rust"));
    assert!(out.contains("let"), "highlighted code must keep the source text");
    assert!(out.contains("┌"));
    assert!(out.contains("└"));
}

#[test]
fn test_mermaid_placeholder_box() {
    let doc = Document {
        elements: vec![Element::CodeBlock {
            language: Some(String::from("mermaid")),
            content: String::from("graph TD\n"),
        }],
    };
    let renderer = TerminalRenderer::new("dark", 60);
    let out = renderer.render(&doc, false);
    assert!(out.contains("Mermaid Diagram"));
    assert!(out.contains("graph TD"));
}

#[test]
fn test_ordered_list_numbering_continues() {
    let doc = mdp::builder::parse_markdown("3. three\n4. four\n5. five");
    let renderer = TerminalRenderer::new("dark", 80);
    let out = renderer.render(&doc, false);
    // The bullet and the item text are separated by a color reset.
    assert!(out.contains("3. "));
    assert!(out.contains("4. "));
    assert!(out.contains("5. "));
    assert!(out.contains("three"));
    assert!(out.contains("five"));
    assert!(!out.contains("1. "));
}

#[test]
fn test_toc_rendered_when_asked() {
    let doc = mdp::builder::parse_markdown("# One\n\n## Two");
    let renderer = TerminalRenderer::new("dark", 80);
    let with_toc = renderer.render(&doc, true);
    let without = renderer.render(&doc, false);
    assert!(with_toc.contains("Table of Contents"));
    assert!(!without.contains("Table of Contents"));
}

#[test]
fn test_footnotes_render_after_rule() {
    let doc = mdp::builder::parse_markdown("body[^1]\n\n[^1]: the note");
    let renderer = TerminalRenderer::new("dark", 80);
    let out = renderer.render(&doc, false);
    let body_at = out.find("body").unwrap();
    let note_at = out.find("the note").unwrap();
    assert!(note_at > body_at, "footnote definitions come last");
    assert!(out.contains("[^1]:"));
}
