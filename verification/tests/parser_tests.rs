use mdp::ast::{Element, InlineElement};
use mdp::builder::parse_markdown;
use mdp::events::{MdEvent, MdTag, MdTagEnd};

#[test]
fn test_footnote_reference() {
    let input = "This has a footnote[^1].\n\n[^1]: The footnote content.";
    let doc = parse_markdown(input);

    assert!(doc.elements.len() >= 2);

    if let Element::Paragraph { content } = &doc.elements[0] {
        let has_footnote_ref = content
            .iter()
            .any(|el| matches!(el, InlineElement::FootnoteReference(label) if label == "1"));
        assert!(has_footnote_ref, "Should have footnote reference");
    } else {
        panic!("First element should be a paragraph");
    }

    let has_footnote_def = doc
        .elements
        .iter()
        .any(|el| matches!(el, Element::FootnoteDefinition { label, .. } if label == "1"));
    assert!(has_footnote_def, "Should have footnote definition");
}

#[test]
fn test_footnote_definition_content() {
    let input = "[^note]: This is the **footnote** content.";
    let doc = parse_markdown(input);

    let footnote = doc.elements.iter().find_map(|el| {
        if let Element::FootnoteDefinition { label, content } = el {
            if label == "note" {
                return Some(content);
            }
        }
        None
    });

    assert!(footnote.is_some(), "Should have footnote definition");
    let content = footnote.unwrap();
    assert!(!content.is_empty(), "Footnote should have content");
}

#[test]
fn test_nested_strong_emphasis() {
    let input = "This is **bold with _italic_ inside** text.";
    let doc = parse_markdown(input);

    if let Element::Paragraph { content } = &doc.elements[0] {
        let has_nested = content.iter().any(|el| {
            if let InlineElement::Strong(inner) = el {
                inner.iter().any(|i| matches!(i, InlineElement::Emphasis(_)))
            } else {
                false
            }
        });
        assert!(has_nested, "Should have Strong containing Emphasis");
    } else {
        panic!("First element should be a paragraph");
    }
}

#[test]
fn test_link_with_nested_elements() {
    let input = "Check out [**bold link**](https://example.com)!";
    let doc = parse_markdown(input);

    if let Element::Paragraph { content } = &doc.elements[0] {
        let has_bold_link = content.iter().any(|el| {
            if let InlineElement::Link { content, url, .. } = el {
                url == "https://example.com"
                    && content.iter().any(|i| matches!(i, InlineElement::Strong(_)))
            } else {
                false
            }
        });
        assert!(has_bold_link, "Should have Link containing Strong");
    } else {
        panic!("First element should be a paragraph");
    }
}

#[test]
fn test_list_with_nested_inline() {
    let input = "- Item with **bold** text\n- Another _italic_ item";
    let doc = parse_markdown(input);

    if let Element::List { items, .. } = &doc.elements[0] {
        assert_eq!(items.len(), 2);

        let first_has_strong = items[0].content.iter().any(|el| {
            if let Element::Paragraph { content } = el {
                content.iter().any(|i| matches!(i, InlineElement::Strong(_)))
            } else {
                false
            }
        });
        assert!(first_has_strong, "First item should have Strong");

        let second_has_emphasis = items[1].content.iter().any(|el| {
            if let Element::Paragraph { content } = el {
                content.iter().any(|i| matches!(i, InlineElement::Emphasis(_)))
            } else {
                false
            }
        });
        assert!(second_has_emphasis, "Second item should have Emphasis");
    } else {
        panic!("First element should be a list");
    }
}

#[test]
fn test_list_with_code_block() {
    let input = "- Item with code:\n\n  ```rust\n  let x = 1;\n  ```\n\n- Another item";
    let doc = parse_markdown(input);

    if let Element::List { items, .. } = &doc.elements[0] {
        let first_has_code = items[0]
            .content
            .iter()
            .any(|el| matches!(el, Element::CodeBlock { .. }));
        assert!(first_has_code, "First item should have CodeBlock");
    } else {
        panic!("First element should be a list");
    }
}

#[test]
fn test_task_list() {
    let input = "- [ ] Unchecked\n- [x] Checked";
    let doc = parse_markdown(input);

    if let Element::List { items, .. } = &doc.elements[0] {
        assert_eq!(items.len(), 2);

        let mut first_marker = None;
        for el in &items[0].content {
            if let Element::Paragraph { content } = el {
                for inline in content {
                    if let InlineElement::TaskListMarker(checked) = inline {
                        first_marker = Some(*checked);
                    }
                }
            }
        }
        assert_eq!(first_marker, Some(false), "First item should have unchecked marker");

        let mut second_marker = None;
        for el in &items[1].content {
            if let Element::Paragraph { content } = el {
                for inline in content {
                    if let InlineElement::TaskListMarker(checked) = inline {
                        second_marker = Some(*checked);
                    }
                }
            }
        }
        assert_eq!(second_marker, Some(true), "Second item should have checked marker");
    } else {
        panic!("First element should be a list");
    }
}

#[test]
fn test_inline_image() {
    let input = "Here is ![alt text](https://example.com/img.png \"title\") inline.";
    let doc = parse_markdown(input);

    if let Element::Paragraph { content } = &doc.elements[0] {
        let has_image = content.iter().any(|el| {
            matches!(
                el,
                InlineElement::Image {
                    url,
                    alt,
                    title: Some(_)
                } if url == "https://example.com/img.png" && alt == "alt text"
            )
        });
        assert!(has_image, "Should have inline image");
    } else {
        panic!("First element should be a paragraph");
    }
}

#[test]
fn test_inline_html() {
    let input = "Text with <br> and <span>content</span>.";
    let doc = parse_markdown(input);

    if let Element::Paragraph { content } = &doc.elements[0] {
        let has_inline_html = content
            .iter()
            .any(|el| matches!(el, InlineElement::InlineHtml(_)));
        assert!(has_inline_html, "Should have inline HTML");
    } else {
        panic!("First element should be a paragraph");
    }
}

#[test]
fn test_html_block() {
    let input = "<div>\n  <p>HTML block</p>\n</div>";
    let doc = parse_markdown(input);

    let has_html_block = doc.elements.iter().any(|el| matches!(el, Element::Html(_)));
    assert!(has_html_block, "Should have HTML block element");
}

#[test]
fn test_builder_handles_unmatched_terminators() {
    // An event sequence with unmatched and overlapping terminators must be
    // consumed to the end without failing.
    let events = vec![
        MdEvent::Start(MdTag::Strong),
        MdEvent::Text(String::from("x")),
        MdEvent::End(MdTagEnd::Paragraph),
        MdEvent::Start(MdTag::Paragraph),
        MdEvent::Start(MdTag::Emphasis),
        MdEvent::End(MdTagEnd::Strong),
        MdEvent::End(MdTagEnd::List(false)),
    ];
    let doc = mdp::builder::build_document(&events);
    // Nothing well-formed was found beyond a paragraph fragment; the point is
    // termination with a document, not a particular shape.
    assert!(doc.elements.len() <= events.len());
}

#[test]
fn test_blockquote_closes_at_second_end() {
    let events = vec![
        MdEvent::Start(MdTag::BlockQuote),
        MdEvent::Start(MdTag::BlockQuote),
        MdEvent::Start(MdTag::Paragraph),
        MdEvent::Text(String::from("inner")),
        MdEvent::End(MdTagEnd::Paragraph),
        MdEvent::End(MdTagEnd::BlockQuote),
        MdEvent::End(MdTagEnd::BlockQuote),
        MdEvent::Rule,
    ];
    let doc = mdp::builder::build_document(&events);
    assert_eq!(doc.elements.len(), 2);
    assert!(matches!(&doc.elements[0], Element::BlockQuote { content } if content.len() == 1));
    assert!(matches!(&doc.elements[1], Element::HorizontalRule));
}

#[test]
fn test_end_to_end_structure_and_render() {
    let input = "# Title\n\nSome **bold** text.\n\n- item one\n- item two";
    let doc = parse_markdown(input);

    assert_eq!(doc.elements.len(), 3);
    assert!(matches!(&doc.elements[0], Element::Heading { level: 1, content } if content == "Title"));
    if let Element::Paragraph { content } = &doc.elements[1] {
        assert!(matches!(content[0], InlineElement::Text(_)));
        assert!(content.iter().any(|i| matches!(i, InlineElement::Strong(_))));
    } else {
        panic!("Second element should be a paragraph");
    }
    assert!(matches!(&doc.elements[2], Element::List { ordered: false, items, .. } if items.len() == 2));

    let renderer = mdp::terminal::TerminalRenderer::new("dark", 80);
    let out = renderer.render(&doc, false);
    assert!(!out.is_empty());
    assert!(out.contains("Title"));
    assert!(out.contains("item one"));
}
