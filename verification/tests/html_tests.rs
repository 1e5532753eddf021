use mdp::html::HtmlRenderer;
use mdp::files::{FileTree, MarkdownFile};

#[test]
fn test_basic_rendering() {
    let renderer = HtmlRenderer::new("Test");
    let result = renderer.render("# Hello\n\nWorld");
    assert!(result.contains("<h1 id=\"hello\">Hello</h1>"));
    assert!(result.contains("<p>World</p>"));
}

#[test]
fn test_external_links() {
    let renderer = HtmlRenderer::new("Test");
    let result = renderer.render("[Google](https://google.com)");
    assert!(result.contains(r#"target="_blank""#));
    assert!(result.contains(r#"rel="noopener noreferrer""#));
}

#[test]
fn test_heading_with_link() {
    let renderer = HtmlRenderer::new("Test");
    let result = renderer.render("# Heading with [Link](https://example.com)");
    assert!(result.contains("<h1 id=\"heading-with-link\">"));
    assert!(!result.contains("<h1 id=\"heading-with-link\"><a"));
    assert!(result.contains("</h1>"));
}

#[test]
fn test_md_links() {
    let renderer = HtmlRenderer::new("Test");
    let result = renderer.render("[Guide](./guide.md)");
    assert!(result.contains(r#"onclick="loadFile"#));
}

#[test]
fn test_link_with_title() {
    let renderer = HtmlRenderer::new("Test");
    let result = renderer.render(r#"[Example](https://example.com "Example Site")"#);
    assert!(result.contains(r#"title="Example Site""#));
    assert!(result.contains(r#"target="_blank""#));
}

#[test]
fn test_anchor_links() {
    let renderer = HtmlRenderer::new("Test");
    let result = renderer.render("[Section](#section)");
    assert!(result.contains("href=\"#section\""));
    assert!(!result.contains("target=\"_blank\""));
    assert!(!result.contains("onclick"));
}

#[test]
fn test_mermaid_special_characters() {
    let renderer = HtmlRenderer::new("Test");
    let input = "```mermaid\ngraph TD\n    A[Start] --> B{Decision}\n    B -->|Yes| C[End]\n```";
    let result = renderer.render(input);
    assert!(result.contains("mermaid-container"));
    assert!(result.contains("--&gt;"));
}

#[test]
fn test_mermaid_ampersand() {
    let renderer = HtmlRenderer::new("Test");
    let input = "```mermaid\ngraph TD\n    A[Tom & Jerry]\n```";
    let result = renderer.render(input);

    assert!(result.contains("mermaid-container"), "Mermaid block should be rendered");

    if let Some(start) = result.find("<pre class=\"mermaid\">") {
        let after_pre = &result[start..];
        if let Some(end) = after_pre.find("</pre>") {
            let mermaid_content = &after_pre[..end];
            assert!(
                !mermaid_content.contains("Tom & Jerry"),
                "Raw & should not appear in mermaid output, found: {}",
                mermaid_content
            );
            assert!(
                mermaid_content.contains("Tom &amp; Jerry"),
                "Ampersand should be encoded as &amp; in mermaid content"
            );
        }
    }
}

#[test]
fn test_toc_rendering_in_html() {
    let renderer = HtmlRenderer::new("Test").with_toc(true);
    let result = renderer.render("# One\n\n## Two\n\ntext");
    assert!(result.contains("<nav class=\"toc\">"));
    assert!(result.contains("href=\"#one\""));
    assert!(result.contains("href=\"#two\""));
}

#[test]
fn test_footnotes_deferred_in_html() {
    let renderer = HtmlRenderer::new("Test");
    let result = renderer.render("body[^1]\n\n[^1]: note text");
    let sep = result.find("footnotes-separator");
    assert!(sep.is_some(), "Footnote separator expected");
    let note = result.find("note text").unwrap();
    assert!(note > sep.unwrap(), "Footnote content must come after the separator");
}

#[test]
fn test_render_with_sidebar_lists_files() {
    let files = vec![
        MarkdownFile {
            absolute_path: String::from("/docs/guide.md"),
            relative_path: String::from("guide.md"),
            name: String::from("guide"),
        },
        MarkdownFile {
            absolute_path: String::from("/docs/README.md"),
            relative_path: String::from("README.md"),
            name: String::from("README"),
        },
    ];
    let tree = FileTree::from_files(String::from("/docs"), files);
    let renderer = HtmlRenderer::new("Docs");
    let page = renderer.render_with_sidebar("# Hi", &tree, Some("guide.md"));
    assert!(page.contains("sidebar-item active"));
    assert!(page.contains("loadFile('README.md')"));
    assert!(page.contains("loadFile('guide.md')"));
    assert!(page.contains("<h1 id=\"hi\">Hi</h1>"));
}

#[test]
fn test_get_css_nonempty() {
    assert!(HtmlRenderer::get_css().contains("markdown-body"));
}
