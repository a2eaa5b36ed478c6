use tui_deck::content::inlines_to_plain_text;
use tui_deck::directives::{parse_heading_divider, parse_image_spec};
use tui_deck::parser::{parse_markdown, try_parse_markdown, MarkdownParser};
use tui_deck::slide::{InlineContent, SlideElement, SlideType};

fn chars(s: &str) -> Vec<char> {
    s.chars().collect()
}

#[test]
fn empty_document_gives_one_slide() {
    let (slides, _) = parse_markdown("");
    assert_eq!(slides.len(), 1);
    let (slides, _) = parse_markdown("---\npaginate: true\n---\n");
    assert_eq!(slides.len(), 1);
}

#[test]
fn slides_are_numbered_in_order() {
    let (slides, _) = parse_markdown("# A\n\n---\n\n# B\n\n---\n\n# C\n");
    assert_eq!(slides.len(), 3);
    for (i, s) in slides.iter().enumerate() {
        assert_eq!(s.index, i);
    }
}

#[test]
fn deck_defaults_reach_slides() {
    let md = "---\nbackgroundColor: #112233\nfooter: Deck\nclass: invert\n---\n\n# A\n\n---\n\n# B\n\n<!-- _footer: Own -->\n";
    let (slides, settings) = parse_markdown(md);
    assert_eq!(settings.background_color.as_deref(), Some("#112233"));
    assert_eq!(slides[0].background_color.as_deref(), Some("#112233"));
    assert_eq!(slides[0].footer.as_deref(), Some("Deck"));
    assert_eq!(slides[1].footer.as_deref(), Some("Own"));
    assert!(slides[1].class.contains(&"invert".to_string()));
}

#[test]
fn slide_types_follow_content() {
    let md = "# Only\n\n---\n\n## Code\n\n```rust\nfn f() {}\n```\n\n---\n\n## Art\n\n```ascii\n+-+\n```\n\n---\n\n## Text\n\nwords\n\n---\n\n# Big\n\nwords\n";
    let (slides, _) = parse_markdown(md);
    assert_eq!(slides[0].slide_type, SlideType::Title);
    assert_eq!(slides[1].slide_type, SlideType::Code);
    assert_eq!(slides[2].slide_type, SlideType::AsciiArt);
    assert_eq!(slides[3].slide_type, SlideType::Content);
    // A slide opened by a level-1 heading keeps the title type.
    assert_eq!(slides[4].slide_type, SlideType::Title);
}

#[test]
fn fresh_parser_matches_parse_markdown() {
    let md = "# A\n\ntext\n\n---\n\n# B\n";
    let (a, _) = parse_markdown(md);
    let mut p = MarkdownParser::new();
    let (b, _) = p.parse(md);
    assert_eq!(a.len(), b.len());
    assert_eq!(a[1].title, b[1].title);
}

#[test]
fn unreadable_comment_is_refused() {
    assert!(try_parse_markdown("# A\n\n<!-->\n").is_none());
    assert!(try_parse_markdown("# A\n\n<!-- x -->\n").is_some());
}

#[test]
fn plain_text_strips_formatting() {
    let v = vec![
        InlineContent::Text("a ".to_string()),
        InlineContent::Bold(vec![InlineContent::Text("b".to_string())]),
        InlineContent::LineBreak,
        InlineContent::Code("c".to_string()),
    ];
    assert_eq!(inlines_to_plain_text(&v), "a b\nc");
}

#[test]
fn image_words_set_the_size() {
    let spec = parse_image_spec(&chars("pic.png"), &chars("width:200px h:100px"));
    assert_eq!(spec.url, "pic.png");
    assert_eq!(spec.width.as_deref(), Some("200px"));
    assert_eq!(spec.height.as_deref(), Some("100px"));
    assert!(!spec.is_background);
}

#[test]
fn heading_divider_values() {
    assert_eq!(parse_heading_divider(&chars("2")), Some(vec![1, 2]));
    assert_eq!(parse_heading_divider(&chars("x")), None);
}

#[test]
fn notes_come_from_comments() {
    let md = "# A\n\n<!-- notes: first -->\n\n---\n\n# B\n\ntext\n";
    let (slides, _) = parse_markdown(md);
    assert_eq!(slides[0].notes.as_deref(), Some("first"));
    assert_eq!(slides[1].notes, None);
}

#[test]
fn question_mark_blocks_are_notes() {
    let md = "<!-- notes: Your notes here -->\n\n# Slide\n\n???\nMultiline\nnotes here\n???\n";
    let (slides, _) = parse_markdown(md);
    assert_eq!(slides.len(), 1);
    assert_eq!(slides[0].notes.as_deref(), Some("Multiline\nnotes here"));
    assert!(slides[0].content.is_empty());
}

#[test]
fn breaks_split_slides_without_headings() {
    let md = "Hello\n\n---\n\n# B\n";
    let (slides, _) = parse_markdown(md);
    assert_eq!(slides.len(), 2);
    assert!(slides[0].title.is_none());
    assert_eq!(slides[0].content.len(), 1);
    assert!(matches!(&slides[0].content[0], SlideElement::Paragraph(i) if inlines_to_plain_text(i) == "Hello"));
    assert_eq!(slides[1].title.as_deref(), Some("B"));
    assert!(slides[1].content.is_empty());
}

#[test]
fn repeated_breaks_add_no_slide() {
    let (slides, _) = parse_markdown("# A\n\n---\n\n---\n\n# B\n");
    assert_eq!(slides.len(), 2);
}

#[test]
fn question_marks_in_code_stay_code() {
    let md = "## Notes\n\n```\n???\nYour notes here\n???\n```\n\n<!-- notes: Spoken -->\n";
    let (slides, _) = parse_markdown(md);
    assert_eq!(slides[0].notes.as_deref(), Some("Spoken"));
    assert!(slides[0].content.iter().any(|e| match e {
        SlideElement::CodeBlock(_, code) => code.contains("???"),
        _ => false,
    }));
}

#[test]
fn question_marks_in_headings_stay_text() {
    let (slides, _) = parse_markdown("# ???\n\ntext\n");
    assert_eq!(slides[0].title.as_deref(), Some("???"));
    assert_eq!(slides[0].notes, None);
    assert_eq!(slides[0].content.len(), 1);
}
