use mdp::anchor::{generate_anchor, generate_toc, AnchorGenerator};
use mdp::builder::parse_markdown;

#[test]
fn test_generate_anchor() {
    assert_eq!(generate_anchor("Hello World"), "hello-world");
    assert_eq!(generate_anchor("Hello, World!"), "hello-world");
    assert_eq!(generate_anchor("Test 123"), "test-123");
    assert_eq!(generate_anchor("CamelCase"), "camelcase");
    assert_eq!(generate_anchor("multiple   spaces"), "multiple-spaces");
}

#[test]
fn test_anchor_generator_duplicates() {
    let mut anchor_gen = AnchorGenerator::new();
    assert_eq!(anchor_gen.generate("Hello"), "hello");
    assert_eq!(anchor_gen.generate("Hello"), "hello-1");
    assert_eq!(anchor_gen.generate("Hello"), "hello-2");
    assert_eq!(anchor_gen.generate("World"), "world");
    assert_eq!(anchor_gen.generate("Hello"), "hello-3");
}

#[test]
fn test_generate_toc_top_level_only() {
    let doc = parse_markdown("# Top\n\n## Second\n\n> # Quoted heading\n\n## Second");
    let toc = generate_toc(&doc);
    assert_eq!(toc.len(), 3);
    assert_eq!(toc[0].level, 1);
    assert_eq!(toc[0].text, "Top");
    assert_eq!(toc[0].anchor, "top");
    assert_eq!(toc[1].anchor, "second");
    assert_eq!(toc[2].anchor, "second-1");
}

#[test]
fn test_anchor_empty_and_edge_text() {
    assert_eq!(generate_anchor(""), "");
    assert_eq!(generate_anchor("   "), "");
    assert_eq!(generate_anchor("a-b"), "a-b");
    assert_eq!(generate_anchor("a - b"), "a---b");
}
