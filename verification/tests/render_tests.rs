use tui_deck::parser::{parse_markdown, try_parse_markdown};
use tui_deck::render::{wrap_text, SlideRenderer};
use tui_deck::style::{parse_css_color, parse_css_color_simple, Color, StyledLine};

fn chars(s: &str) -> Vec<char> {
    s.chars().collect()
}

fn strings(v: &[Vec<char>]) -> Vec<String> {
    v.iter().map(|l| l.iter().collect()).collect()
}

fn text_of(l: &StyledLine) -> String {
    l.spans.iter().map(|s| s.content.clone()).collect()
}

fn render_first(md: &str, width: usize, height: usize) -> Vec<StyledLine> {
    let (slides, settings) = parse_markdown(md);
    let total = slides.len();
    let renderer = SlideRenderer::new(width, height, settings, total);
    renderer.render(&slides[0])
}

#[test]
fn wrap_fills_lines_greedily() {
    let r = wrap_text(&chars("aaa bbb ccc"), 7);
    assert_eq!(strings(&r), vec!["aaa bbb", "ccc"]);
}

#[test]
fn wrap_keeps_long_words_whole() {
    let r = wrap_text(&chars("abcdefghij xy"), 5);
    assert_eq!(strings(&r), vec!["abcdefghij", "xy"]);
}

#[test]
fn wrap_width_zero_keeps_text() {
    let r = wrap_text(&chars("  a  b "), 0);
    assert_eq!(strings(&r), vec!["  a  b "]);
}

#[test]
fn wrap_empty_text_gives_one_empty_line() {
    let r = wrap_text(&chars(""), 10);
    assert_eq!(strings(&r), vec![""]);
}

#[test]
fn wrap_splits_paragraphs_and_spaces() {
    let r = wrap_text(&chars("one  two\n\nthree"), 20);
    assert_eq!(strings(&r), vec!["one two", "three"]);
}

#[test]
fn wrap_counts_bytes() {
    // "é" takes two bytes: "é é" is 5 bytes long.
    let r = wrap_text(&chars("é é"), 4);
    assert_eq!(strings(&r), vec!["é", "é"]);
}

#[test]
fn css_colors_parse() {
    assert_eq!(parse_css_color(&chars("#ff8000")), Some(Color::Rgb(255, 128, 0)));
    assert_eq!(parse_css_color(&chars(" #f80 ")), Some(Color::Rgb(255, 136, 0)));
    assert_eq!(parse_css_color(&chars("rgb(1, 2,3)")), Some(Color::Rgb(1, 2, 3)));
    assert_eq!(parse_css_color(&chars("WHITE")), Some(Color::White));
    assert_eq!(parse_css_color(&chars("Grey")), Some(Color::Gray));
    assert_eq!(parse_css_color(&chars("magenta")), Some(Color::Magenta));
}

#[test]
fn css_colors_reject() {
    assert_eq!(parse_css_color(&chars("#12345")), None);
    assert_eq!(parse_css_color(&chars("#gg0000")), None);
    assert_eq!(parse_css_color(&chars("rgb(1,2)")), None);
    assert_eq!(parse_css_color(&chars("rgb(256,0,0)")), None);
    assert_eq!(parse_css_color(&chars("orange")), None);
}

#[test]
fn simple_colors_take_six_digits_only() {
    assert_eq!(parse_css_color_simple(&chars("#0a0b0c")), Some(Color::Rgb(10, 11, 12)));
    assert_eq!(parse_css_color_simple(&chars("#abc")), None);
    assert_eq!(parse_css_color_simple(&chars("red")), None);
}

#[test]
fn table_columns_align_by_display_width() {
    let md = "# T\n\n| 日 | a |\n| -- | -- |\n| x | bb |\n";
    let lines = render_first(md, 80, 24);
    let texts: Vec<String> = lines.iter().map(text_of).collect();
    assert!(texts.contains(&"  日 │ a ".to_string()), "{:?}", texts);
    assert!(texts.contains(&"  ───┼───".to_string()), "{:?}", texts);
    assert!(texts.contains(&"  x  │ bb".to_string()), "{:?}", texts);
}

#[test]
fn code_is_highlighted_and_indented() {
    let md = "# Code\n\n```rust\nfn main() {}\n```\n";
    let lines = render_first(md, 80, 24);
    let line = lines
        .iter()
        .find(|l| text_of(l) == "    fn main() {}")
        .expect("the code line");
    assert_eq!(line.spans[0].content, "    ");
    assert!(line.spans.len() > 2);
    assert!(line.spans[1..]
        .iter()
        .all(|s| matches!(s.style.fg, Some(Color::Rgb(_, _, _)))));
}

#[test]
fn ascii_art_keeps_its_lines() {
    let md = "# Art\n\n```ascii\n  ┌─┐   \n  └─┘\n```\n";
    let lines = render_first(md, 80, 24);
    let texts: Vec<String> = lines.iter().map(text_of).collect();
    assert!(texts.contains(&"  ┌─┐   ".to_string()), "{:?}", texts);
    assert!(texts.contains(&"  └─┘".to_string()), "{:?}", texts);
}

#[test]
fn title_colors_follow_invert_class() {
    let dark = render_first("# Hello\n\nText\n", 40, 10);
    assert_eq!(dark[0].spans[1].content, "Hello");
    assert_eq!(dark[0].spans[1].style.fg, Some(Color::Rgb(243, 156, 18)));
    assert!(dark[0].spans[1].style.bold);
    let light = render_first("---\nclass: invert\n---\n\n# Hello\n\nText\n", 40, 10);
    assert_eq!(light[0].spans[1].style.fg, Some(Color::Rgb(200, 100, 0)));
}

#[test]
fn slides_fill_the_height() {
    let lines = render_first("# A\n\nx\n", 30, 12);
    assert_eq!(lines.len(), 10);
    let lines = render_first("# A\n\nx\n", 30, 1);
    assert_eq!(lines.len(), 3);
}

#[test]
fn page_number_is_right_aligned() {
    let md = "---\npaginate: true\n---\n\n# A\n\nx\n\n---\n\n# B\n\ny\n";
    let lines = render_first(md, 20, 10);
    assert_eq!(lines.len(), 8);
    assert_eq!(text_of(&lines[7]), format!("{}1 / 2", " ".repeat(13)));
    assert_eq!(lines[7].spans[0].style.fg, Some(Color::Rgb(100, 100, 100)));
}

#[test]
fn footer_replaces_the_page_number() {
    let md = "---\npaginate: true\n---\n\n# A\n\n<!-- _footer: Foot -->\n\nx\n";
    let lines = render_first(md, 20, 10);
    assert_eq!(text_of(&lines[7]), "  Foot");
}

#[test]
fn title_slide_is_centered() {
    let lines = render_first("# Hi\n", 10, 10);
    // height 10: 5 - 2 = 3 blank lines, then the title padded by (10 - 2) / 2.
    assert_eq!(text_of(&lines[3]), "    Hi");
    assert!(lines[..3].iter().all(|l| l.spans.is_empty()));
}

#[test]
fn numbered_lists_count_from_their_start() {
    let md = "# L\n\n3. a\n4. b\n";
    let lines = render_first(md, 40, 10);
    let texts: Vec<String> = lines.iter().map(text_of).collect();
    assert!(texts.contains(&"  3. a".to_string()), "{:?}", texts);
    assert!(texts.contains(&"  4. b".to_string()), "{:?}", texts);
}

#[test]
fn bad_colors_are_refused() {
    let (slides, settings) = try_parse_markdown("# A\n\n<!-- _color: #aébcd -->\n\nx\n").unwrap();
    let renderer = SlideRenderer::new(40, 10, settings, slides.len());
    assert!(renderer.try_render(&slides[0]).is_none());
    let (slides, settings) = try_parse_markdown("# A\n\n<!-- _color: #abcdef -->\n\nx\n").unwrap();
    let renderer = SlideRenderer::new(40, 10, settings, slides.len());
    assert!(renderer.try_render(&slides[0]).is_some());
}

#[test]
fn wrapping_keeps_every_word() {
    let text = "the quick  brown fox\n\njumps over the lazy dog";
    let r = wrap_text(&chars(text), 9);
    let lines = strings(&r);
    let rewrapped: Vec<String> = lines
        .iter()
        .flat_map(|l| l.split_whitespace().map(|w| w.to_string()).collect::<Vec<_>>())
        .collect();
    let expected: Vec<String> = text.split_whitespace().map(|w| w.to_string()).collect();
    assert_eq!(rewrapped, expected);
    assert!(lines.iter().all(|l| l.len() <= 9));
}

#[test]
fn content_elements_are_drawn() {
    let md = "## Elems\n\n### Sub\n\n> quoted\n\nSee [site](http://a.b) and [top](#top) and `c`.\n\n![w:10px](a.png)\n";
    let lines = render_first(md, 40, 12);
    let texts: Vec<String> = lines.iter().map(text_of).collect();
    assert_eq!(texts[0], "  Elems");
    assert_eq!(texts[1], "");
    assert_eq!(texts[2], "### Sub");
    assert!(lines[2].spans[0].style.bold);
    assert_eq!(texts[3], "  │ quoted");
    assert!(lines[3].spans[0].style.italic);
    assert_eq!(texts[4], "See site (http://a.b) and top and  c .");
    let link = lines[4].spans.iter().find(|s| s.content == "site").unwrap();
    assert!(link.style.underlined);
    assert_eq!(link.style.fg, Some(Color::Rgb(52, 152, 219)));
    let code = lines[4].spans.iter().find(|s| s.content == " c ").unwrap();
    assert_eq!(code.style.bg, Some(Color::Rgb(50, 50, 70)));
    assert_eq!(texts[5], "  [Image: a.png w:10px]");
}

#[test]
fn lead_slides_are_centered() {
    let md = "<!-- class: lead -->\n\n## Lead\n\nHello world\n";
    let lines = render_first(md, 20, 10);
    let texts: Vec<String> = lines.iter().map(text_of).collect();
    assert_eq!(lines.len(), 8);
    assert!(texts[..3].iter().all(|t| t.is_empty()));
    assert_eq!(texts[3], "        Lead");
    assert_eq!(texts[4], "");
    assert_eq!(texts[5], "    Hello world");
}
