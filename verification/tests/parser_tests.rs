use tui_deck::parser::parse_markdown;
use tui_deck::slide::SlideElement;

#[test]
fn parse_table_slide() {
    let md = r#"---
marp: true
---

## Navigation

| Key               | Action     |
| ----------------- | ---------- |
| `j` / `Space`     | Next slide |
| `k` / `Backspace` | Previous   |
| `←` `→`           | Arrow keys |
"#;
    let (slides, _) = parse_markdown(md);
    assert!(!slides.is_empty());
    let table_slide = &slides[0];
    let has_table = table_slide
        .content
        .iter()
        .any(|e| matches!(e, SlideElement::Table(_)));
    assert!(has_table, "should contain a Table element");
}

#[test]
fn parse_inline_formatting() {
    let md = "---\nmarp: true\n---\n\n# Title\n\n**bold** and *italic* and ~~strike~~\n";
    let (slides, _) = parse_markdown(md);
    assert!(!slides.is_empty());
    let has_paragraph = slides[0]
        .content
        .iter()
        .any(|e| matches!(e, SlideElement::Paragraph(_)));
    assert!(
        has_paragraph,
        "should have a paragraph with inline formatting"
    );
}

#[test]
fn parse_heading_divider_splits() {
    let md = r#"---
marp: true
headingDivider: 2
---

# First Slide

Some content

## Second Slide

More content

## Third Slide

Even more
"#;
    let (slides, _) = parse_markdown(md);
    assert!(
        slides.len() >= 3,
        "headingDivider: 2 should split at h2 headings, got {} slides",
        slides.len()
    );
}

#[test]
fn parse_numbered_list() {
    let md = "---\nmarp: true\n---\n\n# Lists\n\n1. First\n2. Second\n3. Third\n";
    let (slides, _) = parse_markdown(md);
    assert!(!slides.is_empty());
    let has_numbered = slides[0]
        .content
        .iter()
        .any(|e| matches!(e, SlideElement::NumberedList(_, _)));
    assert!(has_numbered, "should contain a NumberedList element");
}

#[test]
fn parse_paginate_setting() {
    let md = "---\nmarp: true\npaginate: true\n---\n\n# Hello\n";
    let (_, settings) = parse_markdown(md);
    assert!(settings.paginate, "paginate should be true");
}

#[test]
fn parse_invert_class() {
    let md = "---\nmarp: true\nclass: invert\n---\n\n# Hello\n";
    let (slides, _) = parse_markdown(md);
    assert!(!slides.is_empty());
    assert!(
        slides[0].class.contains(&"invert".to_string()),
        "slide should have invert class"
    );
}
