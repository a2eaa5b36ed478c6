//! Rendering a slide into styled terminal lines.
use vstd::prelude::*;
use crate::content::plain_chars;
use crate::slide::{
    DeckSettings, Element, Inline, InlineContent, SlideElement, SettingsModel, Slide, SlideModel, inls, lemma_inls_push,
    opt_str, plain_seq, strs,
};
use crate::style::{
    Color, SpanModel, Style, StyledLine, StyledSpan, blen, blen_vec, css_color, css_ok,
    default_style, lemma_blen_append, lemma_lines_append, lemma_lines_push, lemma_spans_push, line_of_text, lines_view,
    parse_css_color, plain_style, spans_view, styled, text_line,
};
use syntect::easy::HighlightLines;
use syntect::highlighting::ThemeSet;
use syntect::parsing::SyntaxSet;
use unicode_width::UnicodeWidthStr;
use crate::text::{
    append_str, append_vec, chars_of, eq_str, repeat, split_on, split_on_vec, vv, words,
    words_vec,
};

verus! {

broadcast use crate::slide::group_views;

/// The colors a slide is drawn with.
#[derive(Clone, Copy, Debug, PartialEq, Eq, Structural)]
pub struct ThemeColors {
    pub title: Color,
    pub heading2: Color,
    pub heading_other: Color,
    pub text: Color,
    pub code_bg: Color,
    pub code_fg: Color,
    pub inline_code_bg: Color,
    pub inline_code_fg: Color,
    pub link: Color,
    pub blockquote: Color,
    pub hr: Color,
    pub dim: Color,
    pub slide_bg: Color,
    pub strikethrough: Color,
}

/// The default style with a foreground color.
pub open spec fn fg_style(c: Color) -> Style {
    Style { fg: Some(c), ..plain_style() }
}

/// The default style with a foreground color, bold.
pub open spec fn bold_fg(c: Color) -> Style {
    Style { fg: Some(c), bold: true, ..plain_style() }
}

/// An unstyled span.
pub open spec fn raw(t: Seq<char>) -> SpanModel {
    (t, plain_style())
}

/// `n` spaces.
pub open spec fn spaces(n: nat) -> Seq<char> {
    repeat(' ', n)
}

/// `usize::saturating_sub`.
pub open spec fn sat_sub(a: nat, b: nat) -> nat {
    if a > b {
        (a - b) as nat
    } else {
        0
    }
}

/// Left padding that centers text of byte length `len` in `width` columns.
pub open spec fn center_pad(width: nat, len: nat) -> nat {
    sat_sub(width, len) / 2
}

// ---------------------------------------------------------------------------
// Theme
// ---------------------------------------------------------------------------

/// The slide or the deck carries the `invert` class.
pub open spec fn is_invert(s: SlideModel, st: SettingsModel) -> bool {
    s.class.contains("invert"@) || st.class.contains("invert"@)
}

/// A parsed CSS color, or the default when absent or not a color.
pub open spec fn color_or(c: Option<Seq<char>>, d: Color) -> Color {
    match c {
        Some(x) => match css_color(x) {
            Some(k) => k,
            None => d,
        },
        None => d,
    }
}

/// The slide's colors: the inverted or the dark palette, with the slide's own
/// text and background colors where it sets them.
pub open spec fn theme_of(s: SlideModel, st: SettingsModel) -> ThemeColors {
    let inv = is_invert(s, st);
    let text = color_or(s.color, if inv { Color::Rgb(30, 30, 30) } else { Color::White });
    let bg = color_or(
        s.background_color,
        if inv {
            Color::Rgb(230, 230, 230)
        } else {
            Color::Rgb(26, 26, 46)
        },
    );
    if inv {
        ThemeColors {
            title: Color::Rgb(200, 100, 0),
            heading2: Color::Rgb(30, 100, 170),
            heading_other: text,
            text: text,
            code_bg: Color::Rgb(200, 200, 210),
            code_fg: Color::Rgb(30, 30, 30),
            inline_code_bg: Color::Rgb(200, 200, 210),
            inline_code_fg: Color::Rgb(30, 30, 30),
            link: Color::Rgb(30, 100, 170),
            blockquote: Color::Rgb(100, 100, 100),
            hr: Color::Rgb(180, 180, 180),
            dim: Color::Rgb(100, 100, 100),
            slide_bg: bg,
            strikethrough: Color::Rgb(130, 130, 130),
        }
    } else {
        ThemeColors {
            title: Color::Rgb(243, 156, 18),
            heading2: Color::Rgb(52, 152, 219),
            heading_other: text,
            text: text,
            code_bg: Color::Rgb(13, 13, 26),
            code_fg: Color::Rgb(200, 200, 200),
            inline_code_bg: Color::Rgb(50, 50, 70),
            inline_code_fg: Color::Rgb(220, 180, 120),
            link: Color::Rgb(52, 152, 219),
            blockquote: Color::Rgb(150, 150, 150),
            hr: Color::Rgb(60, 60, 60),
            dim: Color::Rgb(100, 100, 100),
            slide_bg: bg,
            strikethrough: Color::Rgb(130, 130, 130),
        }
    }
}

/// The slide's colors parse without slicing inside a character.
pub open spec fn colors_ok(s: SlideModel) -> bool {
    &&& (s.color matches Some(c) ==> css_ok(c))
    &&& (s.background_color matches Some(c) ==> css_ok(c))
}

/// Whether one of the strings equals `name`.
pub fn has_class(classes: &Vec<String>, name: &str) -> (r: bool)
    ensures
        r == strs(classes@).contains(name@),
{
    proof {
        crate::slide::lemma_strs_def(classes@);
    }
    let mut i: usize = 0;
    while i < classes.len()
        invariant
            i <= classes.len(),
            strs(classes@) == classes@.map_values(|s: String| s@),
            forall|j: int| 0 <= j < i ==> strs(classes@)[j] != name@,
        decreases classes.len() - i,
    {
        let c = chars_of(classes[i].as_str());
        if eq_str(&c, name) {
            assert(strs(classes@)[i as int] == name@);
            return true;
        }
        i += 1;
    }
    false
}

fn color_or_exec(c: &Option<String>, d: Color) -> (r: Color)
    requires
        c matches Some(x) ==> css_ok(x@),
    ensures
        r == color_or(opt_str(*c), d),
{
    match c {
        Some(x) => {
            let v = chars_of(x.as_str());
            match parse_css_color(&v) {
                Some(k) => k,
                None => d,
            }
        },
        None => d,
    }
}

/// The colors of a slide in a deck.
pub fn resolve_theme_colors(slide: &Slide, settings: &DeckSettings) -> (r: ThemeColors)
    requires
        colors_ok(slide@),
    ensures
        r == theme_of(slide@, settings@),
{
    let inv = has_class(&slide.class, "invert") || has_class(&settings.class, "invert");
    let text = color_or_exec(
        &slide.color,
        if inv {
            Color::Rgb(30, 30, 30)
        } else {
            Color::White
        },
    );
    let bg = color_or_exec(
        &slide.background_color,
        if inv {
            Color::Rgb(230, 230, 230)
        } else {
            Color::Rgb(26, 26, 46)
        },
    );
    if inv {
        ThemeColors {
            title: Color::Rgb(200, 100, 0),
            heading2: Color::Rgb(30, 100, 170),
            heading_other: text,
            text: text,
            code_bg: Color::Rgb(200, 200, 210),
            code_fg: Color::Rgb(30, 30, 30),
            inline_code_bg: Color::Rgb(200, 200, 210),
            inline_code_fg: Color::Rgb(30, 30, 30),
            link: Color::Rgb(30, 100, 170),
            blockquote: Color::Rgb(100, 100, 100),
            hr: Color::Rgb(180, 180, 180),
            dim: Color::Rgb(100, 100, 100),
            slide_bg: bg,
            strikethrough: Color::Rgb(130, 130, 130),
        }
    } else {
        ThemeColors {
            title: Color::Rgb(243, 156, 18),
            heading2: Color::Rgb(52, 152, 219),
            heading_other: text,
            text: text,
            code_bg: Color::Rgb(13, 13, 26),
            code_fg: Color::Rgb(200, 200, 200),
            inline_code_bg: Color::Rgb(50, 50, 70),
            inline_code_fg: Color::Rgb(220, 180, 120),
            link: Color::Rgb(52, 152, 219),
            blockquote: Color::Rgb(150, 150, 150),
            hr: Color::Rgb(60, 60, 60),
            dim: Color::Rgb(100, 100, 100),
            slide_bg: bg,
            strikethrough: Color::Rgb(130, 130, 130),
        }
    }
}

// ---------------------------------------------------------------------------
// Inline content
// ---------------------------------------------------------------------------

/// The spans of an inline node drawn in `st`: bold, italic, strikethrough and
/// links add to the style; code gets its own colors and a space on each side;
/// a link whose target is not an anchor is followed by its target.
pub open spec fn inline_spans(i: Inline, st: Style, th: ThemeColors) -> Seq<SpanModel>
    decreases i,
{
    match i {
        Inline::Text(t) => seq![(t, st)],
        Inline::Bold(c) => seq_spans(c, Style { bold: true, ..st }, th),
        Inline::Italic(c) => seq_spans(c, Style { italic: true, ..st }, th),
        Inline::Strike(c) => seq_spans(
            c,
            Style { fg: Some(th.strikethrough), crossed_out: true, ..st },
            th,
        ),
        Inline::Code(t) => seq![
            (
                seq![' '] + t + seq![' '],
                Style { fg: Some(th.inline_code_fg), bg: Some(th.inline_code_bg), ..plain_style() },
            ),
        ],
        Inline::Link(c, url) => seq_spans(
            c,
            Style { fg: Some(th.link), underlined: true, ..st },
            th,
        ) + if url.len() > 0 && url[0] != '#' {
            seq![(" ("@ + url + ")"@, fg_style(th.dim))]
        } else {
            Seq::<SpanModel>::empty()
        },
        Inline::LineBreak => seq![raw(seq!['\n'])],
    }
}

/// The spans of a run of inline nodes drawn in `st`.
pub open spec fn seq_spans(s: Seq<Inline>, st: Style, th: ThemeColors) -> Seq<SpanModel>
    decreases s,
{
    if s.len() == 0 {
        seq![]
    } else {
        seq_spans(s.drop_last(), st, th) + inline_spans(s.last(), st, th)
    }
}

/// Body text style.
pub open spec fn text_style(th: ThemeColors) -> Style {
    fg_style(th.text)
}

/// The spans of a run of inline nodes in body text style.
pub open spec fn flat_spans(s: Seq<Inline>, th: ThemeColors) -> Seq<SpanModel> {
    seq_spans(s, text_style(th), th)
}

/// Appends the spans of an inline node.
fn render_inline_recursive(x: &InlineContent, style: Style, th: &ThemeColors, out: &mut Vec<StyledSpan>)
    ensures
        spans_view(final(out)@) == spans_view(old(out)@) + inline_spans(x@, style, *th),
    decreases x,
{
    let ghost o0 = out@;
    match x {
        InlineContent::Text(t) => {
            let sp = StyledSpan { content: t.clone(), style };
            proof {
                lemma_spans_push(out@, sp);
            }
            out.push(sp);
        },
        InlineContent::Bold(c) => {
            assert(inls(c@) =~= x@->Bold_0);
            render_inline_seq(c.as_slice(), Style { bold: true, ..style }, th, out);
        },
        InlineContent::Italic(c) => {
            assert(inls(c@) =~= x@->Italic_0);
            render_inline_seq(c.as_slice(), Style { italic: true, ..style }, th, out);
        },
        InlineContent::Strikethrough(c) => {
            assert(inls(c@) =~= x@->Strike_0);
            render_inline_seq(
                c.as_slice(),
                Style { fg: Some(th.strikethrough), crossed_out: true, ..style },
                th,
                out,
            );
        },
        InlineContent::Code(t) => {
            let mut c: Vec<char> = Vec::new();
            c.push(' ');
            append_vec(&mut c, &chars_of(t.as_str()));
            c.push(' ');
            assert(c@ =~= seq![' '] + t@ + seq![' ']);
            let sp = styled(&c, default_style().fg(th.inline_code_fg).bg(th.inline_code_bg));
            proof {
                lemma_spans_push(out@, sp);
            }
            out.push(sp);
        },
        InlineContent::Link { text, url } => {
            assert(inls(text@) =~= x@->Link_0);
            render_inline_seq(
                text.as_slice(),
                Style { fg: Some(th.link), underlined: true, ..style },
                th,
                out,
            );
            let ghost o1 = out@;
            let u = chars_of(url.as_str());
            if u.len() > 0 && u[0] != '#' {
                let mut d = chars_of(" (");
                append_vec(&mut d, &u);
                append_str(&mut d, ")");
                let sp = styled(&d, default_style().fg(th.dim));
                proof {
                    lemma_spans_push(out@, sp);
                }
                out.push(sp);
            } else {
                assert(spans_view(out@) =~= spans_view(o1) + Seq::<SpanModel>::empty());
            }
        },
        InlineContent::LineBreak => {
            let mut c: Vec<char> = Vec::new();
            c.push('\n');
            assert(c@ =~= seq!['\n']);
            let sp = styled(&c, default_style());
            proof {
                lemma_spans_push(out@, sp);
            }
            out.push(sp);
        },
    }
}

/// Appends the spans of a run of inline nodes.
fn render_inline_seq(v: &[InlineContent], style: Style, th: &ThemeColors, out: &mut Vec<StyledSpan>)
    ensures
        spans_view(final(out)@) == spans_view(old(out)@) + seq_spans(inls(v@), style, *th),
    decreases v@,
{
    let ghost o0 = out@;
    let mut i: usize = 0;
    assert(seq_spans(inls(v@.take(0)), style, *th) =~= Seq::<SpanModel>::empty()) by {
        crate::slide::lemma_views_empty();
        assert(v@.take(0) =~= Seq::<InlineContent>::empty());
    }
    assert(spans_view(o0) + Seq::<SpanModel>::empty() =~= spans_view(o0));
    while i < v.len()
        invariant
            i <= v.len(),
            spans_view(out@) == spans_view(o0) + seq_spans(inls(v@.take(i as int)), style, *th),
        decreases v.len() - i,
    {
        assert(decreases_to!(v@ => v@[i as int]));
        render_inline_recursive(&v[i], style, th, out);
        proof {
            assert(v@.take(i + 1) =~= v@.take(i as int).push(v@[i as int]));
            lemma_inls_push(v@.take(i as int), v@[i as int]);
            assert(inls(v@.take(i + 1)).drop_last() =~= inls(v@.take(i as int)));
        }
        i += 1;
    }
    assert(v@.take(i as int) =~= v@);
}

/// The spans of a run of inline nodes drawn in `style`.
pub fn render_inlines_styled(v: &Vec<InlineContent>, style: Style, th: &ThemeColors) -> (r: Vec<
    StyledSpan,
>)
    ensures
        spans_view(r@) == seq_spans(inls(v@), style, *th),
{
    let mut out: Vec<StyledSpan> = Vec::new();
    proof {
        crate::style::lemma_spans_basics(out@);
    }
    render_inline_seq(v.as_slice(), style, th, &mut out);
    assert(spans_view(out@) =~= seq_spans(inls(v@), style, *th));
    out
}

/// The spans of a run of inline nodes in body text style.
pub fn render_inlines_flat(v: &Vec<InlineContent>, th: &ThemeColors) -> (r: Vec<StyledSpan>)
    ensures
        spans_view(r@) == flat_spans(inls(v@), *th),
{
    render_inlines_styled(v, default_style().fg(th.text), th)
}

// ---------------------------------------------------------------------------
// Word wrapping
// ---------------------------------------------------------------------------

/// Greedy filling of lines with words: the finished lines and the line being
/// filled. A word joins the current line, after one space, while the line's
/// byte length stays within `max`.
pub open spec fn wrap_words(ws: Seq<Seq<char>>, max: nat) -> (Seq<Seq<char>>, Seq<char>)
    decreases ws.len(),
{
    if ws.len() == 0 {
        (seq![], seq![])
    } else {
        let (done, cur) = wrap_words(ws.drop_last(), max);
        let w = ws.last();
        if cur.len() == 0 {
            (done, w)
        } else if blen(cur) + 1 + blen(w) <= max {
            (done, cur + seq![' '] + w)
        } else {
            (done.push(cur), w)
        }
    }
}

/// The wrapped lines of one paragraph.
pub open spec fn wrap_para(p: Seq<char>, max: nat) -> Seq<Seq<char>> {
    let (done, cur) = wrap_words(words(p), max);
    if cur.len() == 0 {
        done
    } else {
        done.push(cur)
    }
}

/// The wrapped lines of paragraphs, one after another.
pub open spec fn wrap_paras(ps: Seq<Seq<char>>, max: nat) -> Seq<Seq<char>>
    decreases ps.len(),
{
    if ps.len() == 0 {
        seq![]
    } else {
        wrap_paras(ps.drop_last(), max) + wrap_para(ps.last(), max)
    }
}

/// Word wrapping of text to `max` bytes per line: paragraphs are separated by
/// blank lines (`"\n\n"`), words by whitespace. A width of 0 leaves the text
/// as one line, and text without words gives one empty line.
pub open spec fn wrap(text: Seq<char>, max: nat) -> Seq<Seq<char>> {
    if max == 0 {
        seq![text]
    } else {
        let r = wrap_paras(split_on(text, "\n\n"@), max);
        if r.len() == 0 {
            seq![seq![]]
        } else {
            r
        }
    }
}

/// Appends lines of characters.
fn append_all(a: &mut Vec<Vec<char>>, b: Vec<Vec<char>>)
    ensures
        vv(final(a)@) == vv(old(a)@) + vv(b@),
{
    let ghost a0 = vv(a@);
    let mut i: usize = 0;
    assert(vv(b@).take(0) =~= Seq::<Seq<char>>::empty());
    assert(a0 + Seq::<Seq<char>>::empty() =~= a0);
    while i < b.len()
        invariant
            i <= b.len(),
            vv(a@) == a0 + vv(b@).take(i as int),
        decreases b.len() - i,
    {
        let ghost prev = vv(a@);
        a.push(b[i].clone());
        assert(vv(a@) =~= prev.push(b@[i as int]@));
        assert(vv(b@).take(i + 1) =~= vv(b@).take(i as int).push(vv(b@)[i as int]));
        i += 1;
    }
    assert(vv(b@).take(i as int) =~= vv(b@));
}

/// The wrapped lines of one paragraph.
fn wrap_para_exec(p: &Vec<char>, max: usize) -> (r: Vec<Vec<char>>)
    ensures
        vv(r@) == wrap_para(p@, max as nat),
{
    let ws = words_vec(p);
    let mut done: Vec<Vec<char>> = Vec::new();
    let mut line: Vec<char> = Vec::new();
    let mut lb: u128 = 0;
    let mut i: usize = 0;
    assert(vv(ws@).take(0) =~= Seq::<Seq<char>>::empty());
    assert(vv(done@) =~= Seq::<Seq<char>>::empty());
    assert(line@ =~= Seq::<char>::empty());
    while i < ws.len()
        invariant
            i <= ws.len(),
            vv(ws@) == words(p@),
            lb == blen(line@),
            (vv(done@), line@) == wrap_words(vv(ws@).take(i as int), max as nat),
        decreases ws.len() - i,
    {
        let w = ws[i].clone();
        let wb = blen_vec(&w);
        proof {
            assert(vv(ws@).take(i + 1).drop_last() =~= vv(ws@).take(i as int));
            assert(vv(ws@)[i as int] == w@);
            crate::style::lemma_blen_bound(line@);
            crate::style::lemma_blen_bound(w@);
        }
        if line.len() == 0 {
            line = w;
            lb = wb;
        } else if lb + 1 + wb <= max as u128 {
            let ghost l0 = line@;
            line.push(' ');
            append_vec(&mut line, &w);
            proof {
                assert(line@ =~= l0 + seq![' '] + w@);
                lemma_blen_append(l0, seq![' ']);
                lemma_blen_append(l0 + seq![' '], w@);
                assert(seq![' '].drop_last() =~= Seq::<char>::empty());
                assert(blen(Seq::<char>::empty()) == 0);
                assert(blen(seq![' ']) == 1);
            }
            lb = lb + 1 + wb;
        } else {
            let ghost d0 = vv(done@);
            done.push(line);
            assert(vv(done@) =~= d0.push(vv(done@).last()));
            line = w;
            lb = wb;
        }
        i += 1;
    }
    assert(vv(ws@).take(i as int) =~= vv(ws@));
    if line.len() > 0 {
        let ghost d0 = vv(done@);
        done.push(line);
        assert(vv(done@) =~= d0.push(vv(done@).last()));
    }
    done
}

/// Word wrapping to `max_width` bytes per line.
pub fn wrap_text(text: &Vec<char>, max_width: usize) -> (r: Vec<Vec<char>>)
    ensures
        vv(r@) == wrap(text@, max_width as nat),
{
    if max_width == 0 {
        let r = vec![text.clone()];
        assert(vv(r@) =~= seq![text@]);
        return r;
    }
    let sep = chars_of("\n\n");
    proof {
        reveal_strlit("\n\n");
    }
    let paras = split_on_vec(text, &sep);
    let mut result: Vec<Vec<char>> = Vec::new();
    let mut k: usize = 0;
    assert(vv(paras@).take(0) =~= Seq::<Seq<char>>::empty());
    assert(vv(result@) =~= Seq::<Seq<char>>::empty());
    while k < paras.len()
        invariant
            k <= paras.len(),
            max_width > 0,
            vv(paras@) == split_on(text@, "\n\n"@),
            vv(result@) == wrap_paras(vv(paras@).take(k as int), max_width as nat),
        decreases paras.len() - k,
    {
        let ls = wrap_para_exec(&paras[k], max_width);
        append_all(&mut result, ls);
        assert(vv(paras@).take(k + 1).drop_last() =~= vv(paras@).take(k as int));
        assert(vv(paras@)[k as int] == paras@[k as int]@);
        k += 1;
    }
    assert(vv(paras@).take(k as int) =~= vv(paras@));
    if result.len() == 0 {
        result.push(Vec::new());
        assert(vv(result@) =~= seq![Seq::<char>::empty()]);
    }
    result
}

// ---------------------------------------------------------------------------
// Display widths and highlighting (outside crates)
// ---------------------------------------------------------------------------

/// The display width in terminal columns that `unicode-width` gives a string.
pub uninterp spec fn str_width(s: Seq<char>) -> usize;

/// Calls `UnicodeWidthStr::width` of `unicode-width`. Its result, a function
/// of the characters alone, is named `str_width`; the Unicode width tables are
/// not restated here.
#[verifier::external_body]
fn display_width(s: &String) -> (r: usize)
    ensures
        r == str_width(s@),
{
    UnicodeWidthStr::width(s.as_str())
}

/// The total display width of a run of spans.
pub open spec fn wsum(spans: Seq<SpanModel>) -> nat
    decreases spans.len(),
{
    if spans.len() == 0 {
        0
    } else {
        wsum(spans.drop_last()) + str_width(spans.last().0) as nat
    }
}

proof fn lemma_wsum_append(a: Seq<SpanModel>, b: Seq<SpanModel>)
    ensures
        wsum(a + b) == wsum(a) + wsum(b),
    decreases b.len(),
{
    if b.len() > 0 {
        assert((a + b).drop_last() =~= a + b.drop_last());
        lemma_wsum_append(a, b.drop_last());
    } else {
        assert(a + b =~= a);
    }
}

/// The total display width of spans, or `None` when it exceeds `usize`.
fn spans_width(spans: &Vec<StyledSpan>) -> (r: Option<usize>)
    ensures
        r matches Some(w) ==> w == wsum(spans_view(spans@)),
        r is None ==> wsum(spans_view(spans@)) > usize::MAX,
{
    let mut acc: usize = 0;
    let mut i: usize = 0;
    proof {
        crate::style::lemma_spans_basics(spans@);
        assert(spans_view(spans@).take(0) =~= Seq::<SpanModel>::empty());
    }
    while i < spans.len()
        invariant
            i <= spans.len(),
            spans_view(spans@).len() == spans@.len(),
            forall|j: int| 0 <= j < spans@.len() ==> #[trigger] spans_view(spans@)[j] == spans@[j]@,
            acc == wsum(spans_view(spans@).take(i as int)),
        decreases spans.len() - i,
    {
        let w = display_width(&spans[i].content);
        assert(spans_view(spans@).take(i + 1).drop_last() =~= spans_view(spans@).take(i as int));
        assert(spans_view(spans@)[i as int] == spans@[i as int]@);
        match acc.checked_add(w) {
            Some(a) => acc = a,
            None => {
                proof {
                    lemma_wsum_append(
                        spans_view(spans@).take(i + 1),
                        spans_view(spans@).skip(i + 1),
                    );
                    assert(spans_view(spans@).take(i + 1) + spans_view(spans@).skip(i + 1)
                        =~= spans_view(spans@));
                }
                return None;
            },
        }
        i += 1;
    }
    assert(spans_view(spans@).take(i as int) =~= spans_view(spans@));
    Some(acc)
}

/// What `syntect` highlighting gives for the lines of a code block in a
/// language: for each line, its pieces with their foreground colors, or
/// `None` where highlighting the line failed.
pub uninterp spec fn highlighted(lines: Seq<Seq<char>>, lang: Seq<char>) -> Seq<
    Option<Seq<(Seq<char>, u8, u8, u8)>>,
>;

/// The view of highlighting results.
pub open spec fn hl_view(v: Seq<Option<Vec<(String, u8, u8, u8)>>>) -> Seq<
    Option<Seq<(Seq<char>, u8, u8, u8)>>,
> {
    v.map_values(
        |o: Option<Vec<(String, u8, u8, u8)>>|
            match o {
                Some(x) => Some(
                    x@.map_values(|t: (String, u8, u8, u8)| (t.0@, t.1, t.2, t.3)),
                ),
                None => None,
            },
    )
}

/// Highlights the lines of a code block with `syntect`: the default syntax
/// set (newline variant) and the bundled `base16-ocean.dark` theme; the
/// syntax found by the language token, or plain text. One highlighter goes
/// through the lines in order, so each line sees the state the lines before
/// it left. The result has one entry per line and is named `highlighted`;
/// the syntax definitions are not restated here.
#[verifier::external_body]
fn highlight_lines(lines: &Vec<String>, lang: &str) -> (r: Vec<Option<Vec<(String, u8, u8, u8)>>>)
    ensures
        r.len() == lines.len(),
        hl_view(r@) == highlighted(strs(lines@), lang@),
{
    let ss = SyntaxSet::load_defaults_newlines();
    let themes = ThemeSet::load_defaults();
    let syntax = ss.find_syntax_by_token(lang).unwrap_or_else(|| ss.find_syntax_plain_text());
    let mut h = HighlightLines::new(syntax, &themes.themes["base16-ocean.dark"]);
    lines.iter().map(|l| {
        h.highlight_line(l, &ss).ok().map(|v| {
            v.into_iter().map(|(st, t)| (t.to_string(), st.foreground.r, st.foreground.g, st.foreground.b)).collect()
        })
    }).collect()
}

// ---------------------------------------------------------------------------
// The renderer
// ---------------------------------------------------------------------------

/// Draws slides into a frame of `width` by `height` cells.
pub struct SlideRenderer {
    width: usize,
    height: usize,
    settings: DeckSettings,
    total_slides: usize,
}

pub struct RendererModel {
    pub width: usize,
    pub height: usize,
    pub settings: SettingsModel,
    pub total_slides: usize,
}

impl View for SlideRenderer {
    type V = RendererModel;

    closed spec fn view(&self) -> RendererModel {
        RendererModel {
            width: self.width,
            height: self.height,
            settings: self.settings@,
            total_slides: self.total_slides,
        }
    }
}

// ---------------------------------------------------------------------------
// Elements
// ---------------------------------------------------------------------------

/// A paragraph: wrapped to the width less 4; a paragraph that fits on one
/// line keeps its formatting, a longer one is drawn as plain body text.
pub open spec fn wrapped_lines(width: nat, c: Seq<Inline>, th: ThemeColors) -> Seq<
    Seq<SpanModel>,
> {
    let w = wrap(plain_seq(c), sat_sub(width, 4));
    if w.len() <= 1 {
        seq![flat_spans(c, th)]
    } else {
        w.map_values(|l: Seq<char>| seq![(l, text_style(th))])
    }
}

pub open spec fn heading_color(level: usize, th: ThemeColors) -> Color {
    if level == 1 {
        th.title
    } else if level == 2 {
        th.heading2
    } else {
        th.heading_other
    }
}

pub open spec fn heading_prefix(level: usize) -> Seq<char> {
    if level == 1 {
        "# "@
    } else if level == 2 {
        "## "@
    } else if level == 3 {
        "### "@
    } else {
        seq![]
    }
}

/// A heading: its `#` marks and text, bold in the level's color.
pub open spec fn heading_line(level: usize, c: Seq<Inline>, th: ThemeColors) -> Seq<SpanModel> {
    let st = bold_fg(heading_color(level, th));
    seq![(heading_prefix(level), st)] + seq_spans(c, st, th)
}

/// The spans of one highlighted line.
pub open spec fn hl_spans(o: Option<Seq<(Seq<char>, u8, u8, u8)>>) -> Seq<SpanModel> {
    match o {
        Some(x) => x.map_values(
            |t: (Seq<char>, u8, u8, u8)| (t.0, fg_style(Color::Rgb(t.1, t.2, t.3))),
        ),
        None => seq![],
    }
}

/// A code block: ASCII art keeps its lines exactly as written; other code
/// is indented by 4 and highlighted line by line.
pub open spec fn code_lines(lang: Seq<char>, code: Seq<char>) -> Seq<Seq<SpanModel>> {
    let ls = crate::text::lines(code);
    if crate::directives::is_ascii_lang(lang) {
        ls.map_values(|l: Seq<char>| text_line(l))
    } else {
        let h = highlighted(ls, lang);
        Seq::new(ls.len(), |k: int| seq![raw("    "@)] + hl_spans(h[k]))
    }
}

pub open spec fn bullet_lines(items: Seq<Seq<Inline>>, th: ThemeColors) -> Seq<Seq<SpanModel>> {
    items.map_values(|it: Seq<Inline>| seq![raw("  • "@)] + flat_spans(it, th))
}

pub open spec fn numbered_lines(start: u64, items: Seq<Seq<Inline>>, th: ThemeColors) -> Seq<
    Seq<SpanModel>,
> {
    Seq::new(
        items.len(),
        |i: int|
            seq![raw("  "@ + crate::text::dec((start as usize) as nat + i as nat) + ". "@)]
                + flat_spans(items[i], th),
    )
}

/// The numbers of a numbered list fit in `usize`.
pub open spec fn numbered_ok(start: u64, n: nat) -> bool {
    n == 0 || (start as usize) + n - 1 <= usize::MAX
}

pub open spec fn quote_style(th: ThemeColors) -> Style {
    Style { fg: Some(th.blockquote), italic: true, ..plain_style() }
}

pub open spec fn quote_line(c: Seq<Inline>, th: ThemeColors) -> Seq<SpanModel> {
    seq![("  │ "@, quote_style(th))] + seq_spans(c, quote_style(th), th)
}

pub open spec fn opt_part(prefix: Seq<char>, o: Option<Seq<char>>) -> Seq<char> {
    match o {
        Some(x) => prefix + x,
        None => seq![],
    }
}

/// `[Image: url w:.. h:..]`.
pub open spec fn image_desc(img: crate::slide::ImageModel) -> Seq<char> {
    "[Image: "@ + img.url + opt_part(" w:"@, img.width) + opt_part(" h:"@, img.height) + "]"@
}

/// The lines of an element on a content slide.
pub open spec fn elem_lines(width: nat, e: Element, th: ThemeColors) -> Seq<Seq<SpanModel>> {
    match e {
        Element::Heading(l, c) => seq![heading_line(l, c, th)],
        Element::Paragraph(c) => wrapped_lines(width, c, th),
        Element::CodeBlock(lang, code) => code_lines(lang, code),
        Element::BulletList(items) => bullet_lines(items, th),
        Element::NumberedList(start, items) => numbered_lines(start, items, th),
        Element::Blockquote(c) => seq![quote_line(c, th)],
        Element::HorizontalRule => seq![
            seq![("  "@ + repeat('─', sat_sub(width, 4)), fg_style(th.hr))],
        ],
        Element::Plain(c) => wrapped_lines(width, c, th),
        Element::Image(img) => seq![seq![("  "@ + image_desc(img), fg_style(th.dim))]],
        Element::ColumnBreak => seq![],
        Element::Table(rows) => table_lines(rows, th),
    }
}

/// Drawing an element stays within `usize`: the numbers of a numbered list
/// and the widths of a table's cells.
pub open spec fn elem_ok(e: Element, th: ThemeColors) -> bool {
    match e {
        Element::NumberedList(start, items) => numbered_ok(start, items.len()),
        Element::Table(rows) => table_ok(rows, th),
        _ => true,
    }
}

/// How far drawing an element moves the line counter: one for each line it
/// draws, and one more after a code block or a list.
pub open spec fn elem_y(width: nat, e: Element, th: ThemeColors) -> nat {
    elem_lines(width, e, th).len() + if e is CodeBlock || e is BulletList || e is NumberedList {
        1nat
    } else {
        0nat
    }
}

/// How far a run of elements moves the line counter.
pub open spec fn elems_y(width: nat, es: Seq<Element>, th: ThemeColors) -> nat
    decreases es.len(),
{
    if es.len() == 0 {
        0
    } else {
        elems_y(width, es.drop_last(), th) + elem_y(width, es.last(), th)
    }
}

proof fn lemma_elems_y_take(width: nat, es: Seq<Element>, th: ThemeColors, k: int)
    requires
        0 <= k <= es.len(),
    ensures
        elems_y(width, es.take(k), th) <= elems_y(width, es, th),
    decreases es.len(),
{
    if k < es.len() {
        assert(es.drop_last().take(k) =~= es.take(k));
        lemma_elems_y_take(width, es.drop_last(), th, k);
    } else {
        assert(es.take(k) =~= es);
    }
}

// ---------------------------------------------------------------------------
// Tables
// ---------------------------------------------------------------------------

/// The display width of a table cell.
pub open spec fn cell_w(c: Seq<Inline>, th: ThemeColors) -> nat {
    wsum(flat_spans(c, th))
}

/// The width of column `i`: its widest cell among the rows.
pub open spec fn col_width(rows: Seq<Seq<Seq<Inline>>>, i: int, th: ThemeColors) -> nat
    decreases rows.len(),
{
    if rows.len() == 0 {
        0
    } else {
        let prev = col_width(rows.drop_last(), i, th);
        let r = rows.last();
        let c = if 0 <= i < r.len() {
            cell_w(r[i], th)
        } else {
            0
        };
        if prev >= c {
            prev
        } else {
            c
        }
    }
}

/// The width a cell is padded to: its column's, for the columns of the
/// first row, else none.
pub open spec fn pad_w(rows: Seq<Seq<Seq<Inline>>>, i: int, th: ThemeColors) -> nat {
    if 0 <= i < rows[0].len() {
        col_width(rows, i, th)
    } else {
        0
    }
}

pub open spec fn dim_style(th: ThemeColors) -> Style {
    fg_style(th.dim)
}

/// One cell of a row: a separator before all but the first, the cell's
/// text, then spaces up to its column's width.
pub open spec fn cell_part(rows: Seq<Seq<Seq<Inline>>>, c: Seq<Inline>, i: int, th: ThemeColors) -> Seq<
    SpanModel,
> {
    (if i > 0 {
        seq![(" │ "@, dim_style(th))]
    } else {
        Seq::<SpanModel>::empty()
    }) + flat_spans(c, th) + (if cell_w(c, th) < pad_w(rows, i, th) {
        seq![raw(spaces((pad_w(rows, i, th) - cell_w(c, th)) as nat))]
    } else {
        Seq::<SpanModel>::empty()
    })
}

/// The first `n` cells of a row.
pub open spec fn row_spans(rows: Seq<Seq<Seq<Inline>>>, r: Seq<Seq<Inline>>, n: nat, th: ThemeColors) -> Seq<
    SpanModel,
>
    decreases n,
{
    if n == 0 {
        seq![]
    } else {
        row_spans(rows, r, (n - 1) as nat, th) + cell_part(rows, r[n - 1], n - 1, th)
    }
}

pub open spec fn row_line(rows: Seq<Seq<Seq<Inline>>>, r: Seq<Seq<Inline>>, th: ThemeColors) -> Seq<
    SpanModel,
> {
    seq![raw("  "@)] + row_spans(rows, r, r.len(), th)
}

/// The rule under the header row for the first `n` columns.
pub open spec fn sep_spans(rows: Seq<Seq<Seq<Inline>>>, n: nat, th: ThemeColors) -> Seq<SpanModel>
    decreases n,
{
    if n == 0 {
        seq![]
    } else {
        sep_spans(rows, (n - 1) as nat, th) + (if n - 1 > 0 {
            seq![("─┼─"@, dim_style(th))]
        } else {
            Seq::<SpanModel>::empty()
        }) + seq![(repeat('─', col_width(rows, n - 1, th)), dim_style(th))]
    }
}

pub open spec fn sep_line(rows: Seq<Seq<Seq<Inline>>>, th: ThemeColors) -> Seq<SpanModel> {
    seq![raw("  "@)] + sep_spans(rows, rows[0].len(), th)
}

/// The lines of the first `n` rows; a rule follows the first row when there
/// are more.
pub open spec fn table_rows_lines(rows: Seq<Seq<Seq<Inline>>>, n: nat, th: ThemeColors) -> Seq<
    Seq<SpanModel>,
>
    decreases n,
{
    if n == 0 {
        seq![]
    } else {
        table_rows_lines(rows, (n - 1) as nat, th) + seq![row_line(rows, rows[n - 1], th)] + (if n
            == 1 && rows.len() > 1 {
            seq![sep_line(rows, th)]
        } else {
            Seq::<Seq<SpanModel>>::empty()
        })
    }
}

/// A table: its rows with the columns aligned.
pub open spec fn table_lines(rows: Seq<Seq<Seq<Inline>>>, th: ThemeColors) -> Seq<Seq<SpanModel>> {
    table_rows_lines(rows, rows.len(), th)
}

/// Every cell's width fits in `usize`.
pub open spec fn table_ok(rows: Seq<Seq<Seq<Inline>>>, th: ThemeColors) -> bool {
    forall|ri: int, ci: int|
        0 <= ri < rows.len() && 0 <= ci < rows[ri].len() ==> #[trigger] cell_w(rows[ri][ci], th)
            <= usize::MAX
}

// ---------------------------------------------------------------------------
// Centered layouts and slides
// ---------------------------------------------------------------------------

/// A line of plain text centered in the width.
pub open spec fn centered_text(width: nat, t: Seq<char>) -> Seq<SpanModel> {
    text_line(spaces(center_pad(width, blen(t))) + t)
}

/// The widest of the lines.
pub open spec fn max_w(ls: Seq<Seq<SpanModel>>) -> nat
    decreases ls.len(),
{
    if ls.len() == 0 {
        0
    } else {
        let p = max_w(ls.drop_last());
        let w = wsum(ls.last());
        if p >= w {
            p
        } else {
            w
        }
    }
}

/// Every line's width fits in `usize`.
pub open spec fn lines_fit(ls: Seq<Seq<SpanModel>>) -> bool {
    forall|i: int| 0 <= i < ls.len() ==> #[trigger] wsum(ls[i]) <= usize::MAX
}

/// An element of a lead slide: paragraphs and bullets as centered plain
/// text; anything else drawn as on a content slide and shifted as a block so
/// that its widest line is centered.
pub open spec fn centered_lines(width: nat, e: Element, th: ThemeColors) -> Seq<Seq<SpanModel>> {
    match e {
        Element::Paragraph(c) => wrap(plain_seq(c), sat_sub(width, 4)).map_values(
            |l: Seq<char>| centered_text(width, l),
        ),
        Element::Plain(c) => wrap(plain_seq(c), sat_sub(width, 4)).map_values(
            |l: Seq<char>| centered_text(width, l),
        ),
        Element::BulletList(items) => items.map_values(
            |it: Seq<Inline>| centered_text(width, "• "@ + plain_seq(it)),
        ),
        _ => {
            let tmp = elem_lines(width, e, th);
            let pad = center_pad(width, max_w(tmp));
            tmp.map_values(|l: Seq<SpanModel>| seq![raw(spaces(pad))] + l)
        },
    }
}

pub open spec fn centered_ok(width: nat, e: Element, th: ThemeColors) -> bool {
    match e {
        Element::Paragraph(_) => true,
        Element::Plain(_) => true,
        Element::BulletList(_) => true,
        _ => elem_ok(e, th) && elem_y(width, e, th) <= usize::MAX && lines_fit(
            elem_lines(width, e, th),
        ),
    }
}

pub open spec fn centered_all(width: nat, es: Seq<Element>, th: ThemeColors) -> Seq<Seq<SpanModel>>
    decreases es.len(),
{
    if es.len() == 0 {
        seq![]
    } else {
        centered_all(width, es.drop_last(), th) + centered_lines(width, es.last(), th)
    }
}

pub open spec fn blank_lines(n: nat) -> Seq<Seq<SpanModel>> {
    Seq::new(n, |i: int| Seq::<SpanModel>::empty())
}

pub open spec fn title_style(th: ThemeColors) -> Style {
    bold_fg(th.title)
}

/// Formatted title text centered by the length of its plain text.
pub open spec fn centered_title(width: nat, ti: Seq<Inline>, th: ThemeColors) -> Seq<SpanModel> {
    seq![raw(spaces(center_pad(width, blen(plain_seq(ti)))))] + seq_spans(ti, title_style(th), th)
}

/// A lead slide: its title and elements centered, the block placed in the
/// middle of the height.
pub open spec fn lead_lines(r: RendererModel, s: SlideModel, th: ThemeColors) -> Seq<
    Seq<SpanModel>,
> {
    let head = if s.title_inlines.len() > 0 {
        seq![centered_title(r.width as nat, s.title_inlines, th), Seq::<SpanModel>::empty()]
    } else {
        Seq::<Seq<SpanModel>>::empty()
    };
    let content = head + centered_all(r.width as nat, s.content, th);
    blank_lines(sat_sub(r.height as nat, content.len()) / 2) + content
}

pub open spec fn title_text(s: SlideModel) -> Seq<char> {
    match s.title {
        Some(t) => t,
        None => "Untitled"@,
    }
}

/// A title cut to the width less 4 bytes.
pub open spec fn fit_display(width: nat, t: Seq<char>) -> Seq<char> {
    let avail = sat_sub(width, 4);
    if blen(t) > avail {
        t.take(crate::style::chars_in_bytes(t, avail as int).unwrap())
    } else {
        t
    }
}

/// The cut of a fitted title falls on a character boundary.
pub open spec fn fit_ok(width: nat, s: SlideModel) -> bool {
    let t = title_text(s);
    let avail = sat_sub(width, 4);
    s.fit_title && blen(t) > avail ==> crate::style::chars_in_bytes(t, avail as int) is Some
}

pub open spec fn title_line(width: nat, s: SlideModel, th: ThemeColors) -> Seq<SpanModel> {
    if s.fit_title {
        let d = fit_display(width, title_text(s));
        seq![(spaces(center_pad(width, blen(d))) + d, title_style(th))]
    } else if s.title_inlines.len() > 0 {
        centered_title(width, s.title_inlines, th)
    } else {
        let t = title_text(s);
        seq![(spaces(center_pad(width, blen(t))) + t, title_style(th))]
    }
}

/// An element under the title of a title slide, as centered plain text.
pub open spec fn title_elem_lines(width: nat, e: Element) -> Seq<Seq<SpanModel>> {
    match e {
        Element::Paragraph(c) => wrap(plain_seq(c), sat_sub(width, 4)).map_values(
            |l: Seq<char>| centered_text(width, l),
        ),
        Element::Plain(c) => seq![centered_text(width, plain_seq(c))],
        Element::BulletList(items) => items.map_values(
            |it: Seq<Inline>| centered_text(width, "  • "@ + plain_seq(it)),
        ),
        _ => seq![],
    }
}

pub open spec fn title_all(width: nat, es: Seq<Element>) -> Seq<Seq<SpanModel>>
    decreases es.len(),
{
    if es.len() == 0 {
        seq![]
    } else {
        title_all(width, es.drop_last()) + title_elem_lines(width, es.last())
    }
}

/// A title slide: the title just above the middle of the height.
pub open spec fn title_lines(r: RendererModel, s: SlideModel, th: ThemeColors) -> Seq<
    Seq<SpanModel>,
> {
    blank_lines(sat_sub((r.height / 2) as nat, 2)) + seq![title_line(r.width as nat, s, th)]
        + title_all(r.width as nat, s.content)
}

pub open spec fn elems_lines(width: nat, es: Seq<Element>, th: ThemeColors) -> Seq<Seq<SpanModel>>
    decreases es.len(),
{
    if es.len() == 0 {
        seq![]
    } else {
        elems_lines(width, es.drop_last(), th) + elem_lines(width, es.last(), th)
    }
}

/// A content slide: the title indented by 2 and a blank line, then the
/// elements one after another.
pub open spec fn content_lines(r: RendererModel, s: SlideModel, th: ThemeColors) -> Seq<
    Seq<SpanModel>,
> {
    let head = if s.title_inlines.len() > 0 {
        seq![seq![raw("  "@)] + seq_spans(s.title_inlines, title_style(th), th), Seq::<SpanModel>::empty()]
    } else if s.title is Some {
        seq![seq![("  "@ + s.title.unwrap(), title_style(th))], Seq::<SpanModel>::empty()]
    } else {
        Seq::<Seq<SpanModel>>::empty()
    };
    head + elems_lines(r.width as nat, s.content, th)
}

/// The line counter of a content slide after its last element: it starts at
/// 1, moves 2 for a title, then as each element moves it.
pub open spec fn content_y(r: RendererModel, s: SlideModel, th: ThemeColors) -> nat {
    1 + (if s.title_inlines.len() > 0 || s.title is Some {
        2nat
    } else {
        0nat
    }) + elems_y(r.width as nat, s.content, th)
}

pub open spec fn is_title_slide(s: SlideModel) -> bool {
    s.title is Some && s.content.len() == 0
}

pub open spec fn is_lead(s: SlideModel) -> bool {
    s.class.contains("lead"@)
}

/// The layout: a title with nothing else, a lead slide, or a content slide.
pub open spec fn base_lines(r: RendererModel, s: SlideModel, th: ThemeColors) -> Seq<
    Seq<SpanModel>,
> {
    if is_title_slide(s) {
        title_lines(r, s, th)
    } else if is_lead(s) {
        lead_lines(r, s, th)
    } else {
        content_lines(r, s, th)
    }
}

pub open spec fn base_ok(r: RendererModel, s: SlideModel, th: ThemeColors) -> bool {
    if is_title_slide(s) {
        fit_ok(r.width as nat, s)
    } else if is_lead(s) {
        forall|i: int| 0 <= i < s.content.len() ==> #[trigger] centered_ok(r.width as nat, s.content[i], th)
    } else {
        &&& forall|i: int| 0 <= i < s.content.len() ==> #[trigger] elem_ok(s.content[i], th)
        &&& content_y(r, s, th) <= usize::MAX
    }
}

/// The header, centered, replaces the first line.
pub open spec fn with_header(ls: Seq<Seq<SpanModel>>, width: nat, s: SlideModel, th: ThemeColors) -> Seq<
    Seq<SpanModel>,
> {
    match s.header {
        Some(h) => if h.len() > 0 && ls.len() > 0 {
            ls.update(0, seq![(spaces(center_pad(width, blen(h))) + h, fg_style(th.dim))])
        } else {
            ls
        },
        None => ls,
    }
}

/// Blank lines up to the height less 2.
pub open spec fn padded(ls: Seq<Seq<SpanModel>>, height: nat) -> Seq<Seq<SpanModel>> {
    ls + blank_lines(sat_sub(sat_sub(height, 2), ls.len()))
}

/// `n / total`.
pub open spec fn page_label(s: SlideModel, r: RendererModel) -> Seq<char> {
    crate::text::dec((s.index + 1) as nat) + " / "@ + crate::text::dec(r.total_slides as nat)
}

/// With pagination on, the page number, right-aligned, replaces the last
/// line.
pub open spec fn with_page(ls: Seq<Seq<SpanModel>>, r: RendererModel, s: SlideModel, th: ThemeColors) -> Seq<
    Seq<SpanModel>,
> {
    if r.settings.paginate && ls.len() > 0 {
        let p = page_label(s, r);
        ls.update(
            ls.len() - 1,
            seq![(spaces(sat_sub(r.width as nat, blen(p) + 2)) + p, fg_style(th.dim))],
        )
    } else {
        ls
    }
}

/// The footer replaces the last line.
pub open spec fn with_footer(ls: Seq<Seq<SpanModel>>, s: SlideModel, th: ThemeColors) -> Seq<
    Seq<SpanModel>,
> {
    match s.footer {
        Some(f) => if f.len() > 0 && ls.len() > 0 {
            ls.update(ls.len() - 1, seq![("  "@ + f, fg_style(th.dim))])
        } else {
            ls
        },
        None => ls,
    }
}

/// The lines a slide is drawn as.
pub open spec fn render_lines(r: RendererModel, s: SlideModel) -> Seq<Seq<SpanModel>> {
    let th = theme_of(s, r.settings);
    with_footer(
        with_page(padded(with_header(base_lines(r, s, th), r.width as nat, s, th), r.height as nat), r, s, th),
        s,
        th,
    )
}

/// Drawing the slide stays within what the renderer handles: its colors
/// parse, the page number fits, a fitted title is cut on a character
/// boundary, list numbers, widths and the line counter fit in `usize`.
pub open spec fn render_ok(r: RendererModel, s: SlideModel) -> bool {
    &&& colors_ok(s)
    &&& (r.settings.paginate ==> s.index < usize::MAX)
    &&& base_ok(r, s, theme_of(s, r.settings))
}

/// Appends a line.
fn push_line(lines: &mut Vec<StyledLine>, l: StyledLine)
    ensures
        lines_view(final(lines)@) == lines_view(old(lines)@).push(l@),
{
    proof {
        lemma_lines_push(lines@, l);
    }
    lines.push(l);
}

/// Appends lines.
fn append_lines(lines: &mut Vec<StyledLine>, more: Vec<StyledLine>)
    ensures
        lines_view(final(lines)@) == lines_view(old(lines)@) + lines_view(more@),
{
    let mut m = more;
    proof {
        lemma_lines_append(lines@, m@);
    }
    lines.append(&mut m);
}

/// A line of spans.
fn line_of(spans: Vec<StyledSpan>) -> (r: StyledLine)
    ensures
        r@ == spans_view(spans@),
{
    StyledLine { spans }
}

/// Spans followed by more spans.
fn join_spans(a: Vec<StyledSpan>, b: Vec<StyledSpan>) -> (r: Vec<StyledSpan>)
    ensures
        spans_view(r@) == spans_view(a@) + spans_view(b@),
{
    let mut a = a;
    let mut b = b;
    proof {
        crate::style::lemma_spans_append(a@, b@);
    }
    a.append(&mut b);
    a
}

/// One unstyled span followed by more spans.
fn raw_then(t: &str, rest: Vec<StyledSpan>) -> (r: Vec<StyledSpan>)
    ensures
        spans_view(r@) == seq![raw(t@)] + spans_view(rest@),
{
    let first = styled(&chars_of(t), default_style());
    let v = vec![first];
    proof {
        crate::style::lemma_spans_basics(v@);
        assert(spans_view(v@) =~= seq![raw(t@)]);
    }
    join_spans(v, rest)
}

fn empty_lines() -> (r: Vec<StyledLine>)
    ensures
        lines_view(r@) == Seq::<Seq<SpanModel>>::empty(),
{
    let r: Vec<StyledLine> = Vec::new();
    proof {
        crate::style::lemma_lines_basics(r@);
    }
    r
}

impl SlideRenderer {
    pub fn new(width: usize, height: usize, settings: DeckSettings, total_slides: usize) -> (r: Self)
        ensures
            r@ == (RendererModel { width, height, settings: settings@, total_slides }),
    {
        SlideRenderer { width, height, settings, total_slides }
    }

    /// A paragraph's lines.
    fn render_inlines_wrapped(&self, v: &Vec<InlineContent>, th: &ThemeColors) -> (r: Vec<StyledLine>)
        ensures
            lines_view(r@) == wrapped_lines(self@.width as nat, inls(v@), *th),
    {
        let plain = plain_chars(v.as_slice());
        let max_width = self.width.saturating_sub(4);
        let wrapped = wrap_text(&plain, max_width);
        let mut out = empty_lines();
        if wrapped.len() <= 1 {
            push_line(&mut out, line_of(render_inlines_flat(v, th)));
            assert(lines_view(out@) =~= seq![flat_spans(inls(v@), *th)]);
            return out;
        }
        let ghost w = wrap(plain_seq(inls(v@)), sat_sub(self@.width as nat, 4));
        let ghost target = w.map_values(|l: Seq<char>| seq![(l, text_style(*th))]);
        let mut k: usize = 0;
        assert(target.take(0) =~= lines_view(out@));
        while k < wrapped.len()
            invariant
                k <= wrapped.len(),
                vv(wrapped@) == w,
                target == w.map_values(|l: Seq<char>| seq![(l, text_style(*th))]),
                lines_view(out@) == target.take(k as int),
            decreases wrapped.len() - k,
        {
            let sp = styled(&wrapped[k], default_style().fg(th.text));
            push_line(&mut out, crate::style::line_of_span(sp));
            assert(vv(wrapped@)[k as int] == wrapped@[k as int]@);
            assert(target.take(k + 1) =~= target.take(k as int).push(target[k as int]));
            k += 1;
        }
        assert(target.take(k as int) =~= target);
        out
    }

    fn render_heading(level: usize, c: &Vec<InlineContent>, th: &ThemeColors) -> (r: StyledLine)
        ensures
            r@ == heading_line(level, inls(c@), *th),
    {
        let color = if level == 1 {
            th.title
        } else if level == 2 {
            th.heading2
        } else {
            th.heading_other
        };
        let st = default_style().fg(color).bold();
        let prefix: Vec<char> = if level == 1 {
            chars_of("# ")
        } else if level == 2 {
            chars_of("## ")
        } else if level == 3 {
            chars_of("### ")
        } else {
            Vec::new()
        };
        assert(prefix@ =~= heading_prefix(level));
        let first = vec![styled(&prefix, st)];
        proof {
            crate::style::lemma_spans_basics(first@);
            assert(spans_view(first@) =~= seq![(heading_prefix(level), st)]);
        }
        line_of(join_spans(first, render_inlines_styled(c, st, th)))
    }

    fn render_code(lang: &String, code: &String) -> (r: Vec<StyledLine>)
        ensures
            lines_view(r@) == code_lines(lang@, code@),
    {
        let lang_c = chars_of(lang.as_str());
        let code_c = chars_of(code.as_str());
        let ls = crate::text::lines_vec(&code_c);
        let ghost lsm = crate::text::lines(code@);
        let mut out = empty_lines();
        if crate::directives::is_ascii_lang_vec(&lang_c) {
            let ghost target = code_lines(lang@, code@);
            let mut k: usize = 0;
            assert(target.take(0) =~= lines_view(out@));
            while k < ls.len()
                invariant
                    k <= ls.len(),
                    vv(ls@) == lsm,
                    lsm == crate::text::lines(code@),
                    crate::directives::is_ascii_lang(lang@),
                    target == code_lines(lang@, code@),
                    lines_view(out@) == target.take(k as int),
                decreases ls.len() - k,
            {
                push_line(&mut out, line_of_text(&ls[k]));
                assert(vv(ls@)[k as int] == ls@[k as int]@);
                assert(target.take(k + 1) =~= target.take(k as int).push(target[k as int]));
                k += 1;
            }
            assert(target.take(k as int) =~= target);
            return out;
        }
        let mut texts: Vec<String> = Vec::new();
        let mut j: usize = 0;
        proof {
            crate::slide::lemma_strs_def(texts@);
        }
        while j < ls.len()
            invariant
                j <= ls.len(),
                texts.len() == j,
                strs(texts@) == vv(ls@).take(j as int),
            decreases ls.len() - j,
        {
            let ghost t0 = texts@;
            texts.push(crate::text::string_of(&ls[j]));
            proof {
                crate::slide::lemma_strs_def(t0);
                crate::slide::lemma_strs_def(texts@);
                assert(strs(texts@) =~= strs(t0).push(ls@[j as int]@));
                assert(vv(ls@).take(j + 1) =~= vv(ls@).take(j as int).push(vv(ls@)[j as int]));
            }
            j += 1;
        }
        assert(vv(ls@).take(j as int) =~= vv(ls@));
        let h = highlight_lines(&texts, lang.as_str());
        let ghost hm = highlighted(lsm, lang@);
        let ghost target = code_lines(lang@, code@);
        let mut k: usize = 0;
        assert(target.take(0) =~= lines_view(out@));
        assert(vv(ls@).len() == ls@.len());
        assert(target =~= Seq::new(lsm.len(), |j: int| seq![raw("    "@)] + hl_spans(hm[j])));
        assert(target.len() == h.len());
        while k < h.len()
            invariant
                k <= h.len(),
                target.len() == h.len(),
                target == Seq::new(lsm.len(), |j: int| seq![raw("    "@)] + hl_spans(hm[j])),
                h.len() == ls.len(),
                vv(ls@) == lsm,
                hl_view(h@) == hm,
                hm == highlighted(lsm, lang@),
                !crate::directives::is_ascii_lang(lang@),
                target == code_lines(lang@, code@),
                lines_view(out@) == target.take(k as int),
            decreases h.len() - k,
        {
            let mut spans: Vec<StyledSpan> = Vec::new();
            proof {
                crate::style::lemma_spans_basics(spans@);
            }
            match &h[k] {
                Some(pieces) => {
                    let mut q: usize = 0;
                    let ghost pm = pieces@.map_values(
                        |t: (String, u8, u8, u8)| (t.0@, t.1, t.2, t.3),
                    );
                    while q < pieces.len()
                        invariant
                            q <= pieces.len(),
                            pm == pieces@.map_values(
                                |t: (String, u8, u8, u8)| (t.0@, t.1, t.2, t.3),
                            ),
                            spans_view(spans@) == hl_spans(Some(pm)).take(q as int),
                        decreases pieces.len() - q,
                    {
                        let p = &pieces[q];
                        let sp = StyledSpan {
                            content: p.0.clone(),
                            style: default_style().fg(Color::Rgb(p.1, p.2, p.3)),
                        };
                        proof {
                            lemma_spans_push(spans@, sp);
                        }
                        spans.push(sp);
                        assert(hl_spans(Some(pm)).take(q + 1) =~= hl_spans(Some(pm)).take(
                            q as int,
                        ).push(hl_spans(Some(pm))[q as int]));
                        q += 1;
                    }
                    assert(hl_spans(Some(pm)).take(q as int) =~= hl_spans(Some(pm)));
                    assert(hm[k as int] == Some(pm));
                    assert(spans_view(spans@) == hl_spans(hm[k as int]));
                },
                None => {
                    assert(hm[k as int] == None::<Seq<(Seq<char>, u8, u8, u8)>>);
                    assert(spans_view(spans@) =~= hl_spans(hm[k as int]));
                },
            }
            assert(spans_view(spans@) == hl_spans(hm[k as int]));
            let ln = line_of(raw_then("    ", spans));
            assert(target[k as int] == seq![raw("    "@)] + hl_spans(hm[k as int]));
            assert(ln@ == target[k as int]);
            push_line(&mut out, ln);
            assert(target.take(k + 1) =~= target.take(k as int).push(target[k as int]));
            k += 1;
        }
        assert(target.take(k as int) =~= target);
        out
    }

    fn render_bullets(items: &Vec<Vec<InlineContent>>, th: &ThemeColors) -> (r: Vec<StyledLine>)
        ensures
            lines_view(r@) == bullet_lines(crate::slide::inls2(items@), *th),
    {
        let ghost target = bullet_lines(crate::slide::inls2(items@), *th);
        let mut out = empty_lines();
        let mut k: usize = 0;
        assert(target.take(0) =~= lines_view(out@));
        while k < items.len()
            invariant
                k <= items.len(),
                target == bullet_lines(crate::slide::inls2(items@), *th),
                lines_view(out@) == target.take(k as int),
            decreases items.len() - k,
        {
            push_line(&mut out, line_of(raw_then("  • ", render_inlines_flat(&items[k], th))));
            assert(target.take(k + 1) =~= target.take(k as int).push(target[k as int]));
            k += 1;
        }
        assert(target.take(k as int) =~= target);
        out
    }

    fn render_numbered(start: u64, items: &Vec<Vec<InlineContent>>, th: &ThemeColors) -> (r: Option<
        Vec<StyledLine>,
    >)
        ensures
            r is Some <==> numbered_ok(start, items.len() as nat),
            r matches Some(v) ==> lines_view(v@) == numbered_lines(
                start,
                crate::slide::inls2(items@),
                *th,
            ),
    {
        let base = start as usize;
        if items.len() > 0 && base > usize::MAX - (items.len() - 1) {
            return None;
        }
        let ghost target = numbered_lines(start, crate::slide::inls2(items@), *th);
        let mut out = empty_lines();
        let mut k: usize = 0;
        assert(target.take(0) =~= lines_view(out@));
        while k < items.len()
            invariant
                k <= items.len(),
                base == start as usize,
                items.len() > 0 ==> base + items.len() - 1 <= usize::MAX,
                target == numbered_lines(start, crate::slide::inls2(items@), *th),
                lines_view(out@) == target.take(k as int),
            decreases items.len() - k,
        {
            let num = base + k;
            let mut label = chars_of("  ");
            append_vec(&mut label, &crate::text::dec_vec(num as u128));
            append_str(&mut label, ". ");
            let first = vec![styled(&label, default_style())];
            proof {
                crate::style::lemma_spans_basics(first@);
                assert(spans_view(first@) =~= seq![
                    raw("  "@ + crate::text::dec((start as usize) as nat + k as nat) + ". "@),
                ]);
            }
            push_line(&mut out, line_of(join_spans(first, render_inlines_flat(&items[k], th))));
            assert(target.take(k + 1) =~= target.take(k as int).push(target[k as int]));
            k += 1;
        }
        assert(target.take(k as int) =~= target);
        Some(out)
    }

    fn render_quote(c: &Vec<InlineContent>, th: &ThemeColors) -> (r: StyledLine)
        ensures
            r@ == quote_line(inls(c@), *th),
    {
        let st = default_style().fg(th.blockquote).italic();
        let first = vec![styled(&chars_of("  │ "), st)];
        proof {
            crate::style::lemma_spans_basics(first@);
            assert(spans_view(first@) =~= seq![("  │ "@, quote_style(*th))]);
        }
        line_of(join_spans(first, render_inlines_styled(c, st, th)))
    }

    fn render_rule(&self, th: &ThemeColors) -> (r: StyledLine)
        ensures
            r@ == seq![("  "@ + repeat('─', sat_sub(self@.width as nat, 4)), fg_style(th.hr))],
    {
        let mut t = chars_of("  ");
        append_vec(&mut t, &crate::text::repeat_vec('─', self.width.saturating_sub(4)));
        crate::style::line_of_span(styled(&t, default_style().fg(th.hr)))
    }

    fn render_image(img: &crate::slide::ImageSpec, th: &ThemeColors) -> (r: StyledLine)
        ensures
            r@ == seq![("  "@ + image_desc(img@), fg_style(th.dim))],
    {
        let mut d = chars_of("  ");
        append_str(&mut d, "[Image: ");
        append_str(&mut d, img.url.as_str());
        if let Some(w) = &img.width {
            append_str(&mut d, " w:");
            append_str(&mut d, w.as_str());
        }
        if let Some(h) = &img.height {
            append_str(&mut d, " h:");
            append_str(&mut d, h.as_str());
        }
        append_str(&mut d, "]");
        assert(d@ =~= "  "@ + image_desc(img@));
        crate::style::line_of_span(styled(&d, default_style().fg(th.dim)))
    }

    fn push_span(spans: &mut Vec<StyledSpan>, sp: StyledSpan)
        ensures
            spans_view(final(spans)@) == spans_view(old(spans)@).push(sp@),
    {
        proof {
            lemma_spans_push(spans@, sp);
        }
        spans.push(sp);
    }

    /// The column widths of a table.
    fn column_widths(rows: &Vec<Vec<Vec<InlineContent>>>, th: &ThemeColors) -> (r: Option<Vec<usize>>)
        requires
            rows.len() > 0,
        ensures
            r is None ==> !table_ok(crate::slide::inls3(rows@), *th),
            r matches Some(cw) ==> cw.len() == rows@[0].len() && forall|i: int|
                0 <= i < cw.len() ==> cw@[i] == col_width(crate::slide::inls3(rows@), i, *th),
    {
        let ghost rm = crate::slide::inls3(rows@);
        let num_cols = rows[0].len();
        let mut cw: Vec<usize> = Vec::new();
        let mut j: usize = 0;
        while j < num_cols
            invariant
                j <= num_cols,
                cw.len() == j,
                forall|i: int| 0 <= i < j ==> cw@[i] == 0,
            decreases num_cols - j,
        {
            cw.push(0);
            j += 1;
        }
        assert(rm.take(0) =~= Seq::<Seq<Seq<Inline>>>::empty());
        let mut ri: usize = 0;
        while ri < rows.len()
            invariant
                ri <= rows.len(),
                rm == crate::slide::inls3(rows@),
                num_cols == rows@[0].len(),
                cw.len() == num_cols,
                forall|i: int| 0 <= i < num_cols ==> cw@[i] == col_width(rm.take(ri as int), i, *th),
            decreases rows.len() - ri,
        {
            let row = &rows[ri];
            assert(rm[ri as int] == crate::slide::inls2(row@));
            let ghost prev = rm.take(ri as int);
            let mut ci: usize = 0;
            while ci < row.len()
                invariant
                    ci <= row.len(),
                    rm == crate::slide::inls3(rows@),
                    ri < rows.len(),
                    row == rows@[ri as int],
                    rm[ri as int] == crate::slide::inls2(row@),
                    prev == rm.take(ri as int),
                    cw.len() == num_cols,
                    forall|i: int|
                        0 <= i < num_cols ==> cw@[i] == if i < ci {
                            let c = cell_w(rm[ri as int][i], *th);
                            if col_width(prev, i, *th) >= c {
                                col_width(prev, i, *th)
                            } else {
                                c
                            }
                        } else {
                            col_width(prev, i, *th)
                        },
                decreases row.len() - ci,
            {
                if ci < num_cols {
                    let sp = render_inlines_flat(&row[ci], th);
                    assert(rm[ri as int][ci as int] == inls(row@[ci as int]@));
                    match spans_width(&sp) {
                        None => {
                            assert(cell_w(rm[ri as int][ci as int], *th) > usize::MAX);
                            return None;
                        },
                        Some(w) => {
                            if w > cw[ci] {
                                cw.set(ci, w);
                            }
                        },
                    }
                }
                ci += 1;
            }
            proof {
                assert(rm.take(ri + 1).drop_last() =~= prev);
                assert(rm.take(ri + 1).last() == rm[ri as int]);
                assert forall|i: int| 0 <= i < num_cols implies cw@[i] == col_width(
                    rm.take(ri + 1),
                    i,
                    *th,
                ) by {}
            }
            ri += 1;
        }
        assert(rm.take(ri as int) =~= rm);
        Some(cw)
    }

    /// The rule under a table's header row.
    fn table_rule(rows: &Vec<Vec<Vec<InlineContent>>>, cw: &Vec<usize>, th: &ThemeColors) -> (r: StyledLine)
        requires
            rows.len() > 0,
            cw.len() == rows@[0].len(),
            forall|i: int|
                0 <= i < cw.len() ==> cw@[i] == col_width(crate::slide::inls3(rows@), i, *th),
        ensures
            r@ == sep_line(crate::slide::inls3(rows@), *th),
    {
        let ghost rm = crate::slide::inls3(rows@);
        let mut spans = raw_then("  ", Vec::new());
        proof {
            crate::style::lemma_spans_basics(Seq::<StyledSpan>::empty());
            assert(seq![raw("  "@)] + Seq::<SpanModel>::empty() =~= seq![raw("  "@)] + sep_spans(rm, 0, *th));
        }
        let mut i: usize = 0;
        while i < cw.len()
            invariant
                i <= cw.len(),
                rm == crate::slide::inls3(rows@),
                rows.len() > 0,
                cw.len() == rm[0].len(),
                forall|k: int| 0 <= k < cw.len() ==> cw@[k] == col_width(rm, k, *th),
                spans_view(spans@) == seq![raw("  "@)] + sep_spans(rm, i as nat, *th),
            decreases cw.len() - i,
        {
            let ghost s0 = spans_view(spans@);
            if i > 0 {
                Self::push_span(&mut spans, styled(&chars_of("─┼─"), default_style().fg(th.dim)));
            }
            Self::push_span(
                &mut spans,
                styled(&crate::text::repeat_vec('─', cw[i]), default_style().fg(th.dim)),
            );
            assert(spans_view(spans@) =~= seq![raw("  "@)] + sep_spans(rm, (i + 1) as nat, *th));
            i += 1;
        }
        line_of(spans)
    }

    /// The lines of a table, or `None` when a cell's width exceeds `usize`.
    fn render_table(rows: &Vec<Vec<Vec<InlineContent>>>, th: &ThemeColors) -> (r: Option<
        Vec<StyledLine>,
    >)
        ensures
            r is Some <==> table_ok(crate::slide::inls3(rows@), *th),
            r matches Some(v) ==> lines_view(v@) == table_lines(crate::slide::inls3(rows@), *th),
    {
        let ghost rm = crate::slide::inls3(rows@);
        let mut out = empty_lines();
        if rows.len() == 0 {
            assert(lines_view(out@) =~= table_lines(rm, *th));
            return Some(out);
        }
        let cw = match Self::column_widths(rows, th) {
            Some(cw) => cw,
            None => return None,
        };
        let mut ri: usize = 0;
        while ri < rows.len()
            invariant
                ri <= rows.len(),
                rows.len() > 0,
                rm == crate::slide::inls3(rows@),
                cw.len() == rm[0].len(),
                forall|i: int| 0 <= i < cw.len() ==> cw@[i] == col_width(rm, i, *th),
                lines_view(out@) == table_rows_lines(rm, ri as nat, *th),
                forall|a: int, b: int|
                    0 <= a < ri && 0 <= b < rm[a].len() ==> #[trigger] cell_w(rm[a][b], *th)
                        <= usize::MAX,
            decreases rows.len() - ri,
        {
            let row = &rows[ri];
            assert(rm[ri as int] == crate::slide::inls2(row@));
            let mut spans = raw_then("  ", Vec::new());
            proof {
                crate::style::lemma_spans_basics(Seq::<StyledSpan>::empty());
                assert(seq![raw("  "@)] + Seq::<SpanModel>::empty() =~= seq![raw("  "@)]
                    + row_spans(rm, rm[ri as int], 0, *th));
            }
            let mut ci: usize = 0;
            while ci < row.len()
                invariant
                    ci <= row.len(),
                    ri < rows.len(),
                    rows.len() > 0,
                    row == rows@[ri as int],
                    rm == crate::slide::inls3(rows@),
                    rm[ri as int] == crate::slide::inls2(row@),
                    cw.len() == rm[0].len(),
                    forall|i: int| 0 <= i < cw.len() ==> cw@[i] == col_width(rm, i, *th),
                    spans_view(spans@) == seq![raw("  "@)] + row_spans(
                        rm,
                        rm[ri as int],
                        ci as nat,
                        *th,
                    ),
                    forall|b: int| 0 <= b < ci ==> #[trigger] cell_w(rm[ri as int][b], *th) <= usize::MAX,
                decreases row.len() - ci,
            {
                let ghost s0 = spans_view(spans@);
                if ci > 0 {
                    Self::push_span(&mut spans, styled(&chars_of(" │ "), default_style().fg(th.dim)));
                }
                let cs = render_inlines_flat(&row[ci], th);
                assert(rm[ri as int][ci as int] == inls(row@[ci as int]@));
                let w = match spans_width(&cs) {
                    Some(w) => w,
                    None => {
                        assert(cell_w(rm[ri as int][ci as int], *th) > usize::MAX);
                        return None;
                    },
                };
                let pw = if ci < cw.len() {
                    cw[ci]
                } else {
                    0
                };
                assert(pw == pad_w(rm, ci as int, *th));
                spans = join_spans(spans, cs);
                if w < pw {
                    Self::push_span(
                        &mut spans,
                        styled(&crate::text::repeat_vec(' ', pw - w), default_style()),
                    );
                }
                assert(spans_view(spans@) =~= seq![raw("  "@)] + row_spans(
                    rm,
                    rm[ri as int],
                    (ci + 1) as nat,
                    *th,
                ));
                ci += 1;
            }
            push_line(&mut out, line_of(spans));
            if ri == 0 && rows.len() > 1 {
                push_line(&mut out, Self::table_rule(rows, &cw, th));
            }
            assert(lines_view(out@) =~= table_rows_lines(rm, (ri + 1) as nat, *th));
            ri += 1;
        }
        Some(out)
    }

    /// Appends the lines of an element; `false` where a number or a width
    /// would exceed `usize`.
    fn render_element(
        &self,
        e: &SlideElement,
        th: &ThemeColors,
        lines: &mut Vec<StyledLine>,
        y: &mut usize,
    ) -> (ok: bool)
        ensures
            ok == (elem_ok(e@, *th) && *old(y) + elem_y(self@.width as nat, e@, *th) <= usize::MAX),
            ok ==> lines_view(final(lines)@) == lines_view(old(lines)@) + elem_lines(
                self@.width as nat,
                e@,
                *th,
            ),
            ok ==> *final(y) == *old(y) + elem_y(self@.width as nat, e@, *th),
    {
        let ghost l0 = lines_view(lines@);
        proof {
            crate::style::lemma_lines_basics(lines@);
        }
        let start = lines.len();
        match e {
            SlideElement::Heading(level, c) => {
                push_line(lines, Self::render_heading(*level, c, th));
            },
            SlideElement::Paragraph(c) => {
                append_lines(lines, self.render_inlines_wrapped(c, th));
            },
            SlideElement::CodeBlock(lang, code) => {
                append_lines(lines, Self::render_code(lang, code));
            },
            SlideElement::BulletList(items) => {
                append_lines(lines, Self::render_bullets(items, th));
            },
            SlideElement::NumberedList(start, items) => {
                match Self::render_numbered(*start, items, th) {
                    Some(v) => append_lines(lines, v),
                    None => return false,
                }
            },
            SlideElement::Blockquote(c) => {
                push_line(lines, Self::render_quote(c, th));
            },
            SlideElement::HorizontalRule => {
                push_line(lines, self.render_rule(th));
            },
            SlideElement::Table(rows) => {
                match Self::render_table(rows, th) {
                    Some(v) => append_lines(lines, v),
                    None => return false,
                }
            },
            SlideElement::Plain(c) => {
                append_lines(lines, self.render_inlines_wrapped(c, th));
            },
            SlideElement::Image(img) => {
                push_line(lines, Self::render_image(img, th));
            },
            SlideElement::ColumnBreak => {
                assert(lines_view(lines@) =~= l0 + Seq::<Seq<SpanModel>>::empty());
            },
        }
        assert(lines_view(lines@) =~= l0 + elem_lines(self@.width as nat, e@, *th));
        proof {
            crate::style::lemma_lines_basics(lines@);
        }
        let drawn = lines.len() - start;
        let extra: u128 = match e {
            SlideElement::CodeBlock(..) => 1,
            SlideElement::BulletList(..) => 1,
            SlideElement::NumberedList(..) => 1,
            _ => 0,
        };
        let moved = (*y as u128) + (drawn as u128) + extra;
        if moved > usize::MAX as u128 {
            return false;
        }
        *y = moved as usize;
        true
    }

    /// Left padding that centers text of byte length `len`.
    fn pad_for(&self, len: u128) -> (r: usize)
        ensures
            r == center_pad(self@.width as nat, len as nat),
    {
        let w = self.width as u128;
        if w > len {
            ((w - len) / 2) as usize
        } else {
            0
        }
    }

    /// A line of plain text centered in the width.
    fn centered_text_line(&self, t: &Vec<char>) -> (r: StyledLine)
        ensures
            r@ == centered_text(self@.width as nat, t@),
    {
        let pad = self.pad_for(blen_vec(t));
        let mut c = crate::text::repeat_vec(' ', pad);
        append_vec(&mut c, t);
        line_of_text(&c)
    }

    /// Plain text wrapped to the width less 4, each line centered.
    fn centered_wrapped(&self, c: &Vec<InlineContent>) -> (r: Vec<StyledLine>)
        ensures
            lines_view(r@) == wrap(plain_seq(inls(c@)), sat_sub(self@.width as nat, 4)).map_values(
                |l: Seq<char>| centered_text(self@.width as nat, l),
            ),
    {
        let plain = plain_chars(c.as_slice());
        let wrapped = wrap_text(&plain, self.width.saturating_sub(4));
        let ghost target = wrap(plain_seq(inls(c@)), sat_sub(self@.width as nat, 4)).map_values(
            |l: Seq<char>| centered_text(self@.width as nat, l),
        );
        let mut out = empty_lines();
        let mut k: usize = 0;
        assert(target.take(0) =~= lines_view(out@));
        while k < wrapped.len()
            invariant
                k <= wrapped.len(),
                target == vv(wrapped@).map_values(|l: Seq<char>| centered_text(self@.width as nat, l)),
                lines_view(out@) == target.take(k as int),
            decreases wrapped.len() - k,
        {
            push_line(&mut out, self.centered_text_line(&wrapped[k]));
            assert(vv(wrapped@)[k as int] == wrapped@[k as int]@);
            assert(target.take(k + 1) =~= target.take(k as int).push(target[k as int]));
            k += 1;
        }
        assert(target.take(k as int) =~= target);
        out
    }

    /// Each item's plain text after a bullet, centered.
    fn centered_bullets(&self, items: &Vec<Vec<InlineContent>>, bullet: &str) -> (r: Vec<StyledLine>)
        ensures
            lines_view(r@) == crate::slide::inls2(items@).map_values(
                |it: Seq<Inline>| centered_text(self@.width as nat, bullet@ + plain_seq(it)),
            ),
    {
        let ghost target = crate::slide::inls2(items@).map_values(
            |it: Seq<Inline>| centered_text(self@.width as nat, bullet@ + plain_seq(it)),
        );
        let mut out = empty_lines();
        let mut k: usize = 0;
        assert(target.take(0) =~= lines_view(out@));
        while k < items.len()
            invariant
                k <= items.len(),
                target == crate::slide::inls2(items@).map_values(
                    |it: Seq<Inline>| centered_text(self@.width as nat, bullet@ + plain_seq(it)),
                ),
                lines_view(out@) == target.take(k as int),
            decreases items.len() - k,
        {
            let mut t = chars_of(bullet);
            append_vec(&mut t, &plain_chars(items[k].as_slice()));
            push_line(&mut out, self.centered_text_line(&t));
            assert(target.take(k + 1) =~= target.take(k as int).push(target[k as int]));
            k += 1;
        }
        assert(target.take(k as int) =~= target);
        out
    }

    fn copy_spans(v: &Vec<StyledSpan>) -> (r: Vec<StyledSpan>)
        ensures
            spans_view(r@) == spans_view(v@),
    {
        let mut out: Vec<StyledSpan> = Vec::new();
        let mut k: usize = 0;
        proof {
            crate::style::lemma_spans_basics(out@);
            crate::style::lemma_spans_basics(v@);
            assert(spans_view(v@).take(0) =~= spans_view(out@));
        }
        while k < v.len()
            invariant
                k <= v.len(),
                spans_view(v@).len() == v@.len(),
                forall|j: int| 0 <= j < v@.len() ==> #[trigger] spans_view(v@)[j] == v@[j]@,
                spans_view(out@) == spans_view(v@).take(k as int),
            decreases v.len() - k,
        {
            let sp = StyledSpan { content: v[k].content.clone(), style: v[k].style };
            Self::push_span(&mut out, sp);
            assert(spans_view(v@).take(k + 1) =~= spans_view(v@).take(k as int).push(
                spans_view(v@)[k as int],
            ));
            k += 1;
        }
        assert(spans_view(v@).take(k as int) =~= spans_view(v@));
        out
    }

    /// Appends the lines of an element of a lead slide.
    fn render_element_centered(&self, e: &SlideElement, th: &ThemeColors, lines: &mut Vec<StyledLine>) -> (ok: bool)
        ensures
            ok == centered_ok(self@.width as nat, e@, *th),
            ok ==> lines_view(final(lines)@) == lines_view(old(lines)@) + centered_lines(
                self@.width as nat,
                e@,
                *th,
            ),
    {
        match e {
            SlideElement::Paragraph(c) => {
                append_lines(lines, self.centered_wrapped(c));
                return true;
            },
            SlideElement::Plain(c) => {
                append_lines(lines, self.centered_wrapped(c));
                return true;
            },
            SlideElement::BulletList(items) => {
                append_lines(lines, self.centered_bullets(items, "• "));
                return true;
            },
            _ => {},
        }
        let ghost width = self@.width as nat;
        assert(!(e@ is Paragraph) && !(e@ is Plain) && !(e@ is BulletList));
        let mut tmp = empty_lines();
        let mut y: usize = 0;
        if !self.render_element(e, th, &mut tmp, &mut y) {
            return false;
        }
        let ghost tv = elem_lines(width, e@, *th);
        assert(lines_view(tmp@) =~= tv);
        proof {
            crate::style::lemma_lines_basics(tmp@);
        }
        let mut mw: usize = 0;
        let mut k: usize = 0;
        assert(tv.take(0) =~= Seq::<Seq<SpanModel>>::empty());
        while k < tmp.len()
            invariant
                k <= tmp.len(),
                tv == lines_view(tmp@),
                tv == elem_lines(self@.width as nat, e@, *th),
                elem_ok(e@, *th),
                !(e@ is Paragraph) && !(e@ is Plain) && !(e@ is BulletList),
                tv.len() == tmp@.len(),
                forall|j: int| 0 <= j < tmp@.len() ==> #[trigger] tv[j] == tmp@[j]@,
                mw == max_w(tv.take(k as int)),
                forall|j: int| 0 <= j < k ==> #[trigger] wsum(tv[j]) <= usize::MAX,
            decreases tmp.len() - k,
        {
            assert(tv.take(k + 1).drop_last() =~= tv.take(k as int));
            assert(tv[k as int] == tmp@[k as int]@);
            match spans_width(&tmp[k].spans) {
                None => {
                    assert(wsum(tv[k as int]) > usize::MAX);
                    assert(!lines_fit(tv));
                    return false;
                },
                Some(w) => {
                    if w > mw {
                        mw = w;
                    }
                },
            }
            k += 1;
        }
        assert(tv.take(k as int) =~= tv);
        let pad = self.pad_for(mw as u128);
        let ghost target = tv.map_values(|l: Seq<SpanModel>| seq![raw(spaces(pad as nat))] + l);
        assert(centered_lines(width, e@, *th) == target);
        let ghost l0 = lines_view(lines@);
        let mut k: usize = 0;
        assert(l0 + target.take(0) =~= l0);
        while k < tmp.len()
            invariant
                k <= tmp.len(),
                tv.len() == tmp@.len(),
                forall|j: int| 0 <= j < tmp@.len() ==> #[trigger] tv[j] == tmp@[j]@,
                target == tv.map_values(|l: Seq<SpanModel>| seq![raw(spaces(pad as nat))] + l),
                lines_view(lines@) == l0 + target.take(k as int),
            decreases tmp.len() - k,
        {
            let first = vec![styled(&crate::text::repeat_vec(' ', pad), default_style())];
            proof {
                crate::style::lemma_spans_basics(first@);
                assert(spans_view(first@) =~= seq![raw(spaces(pad as nat))]);
            }
            let ln = line_of(join_spans(first, Self::copy_spans(&tmp[k].spans)));
            assert(tv[k as int] == tmp@[k as int]@);
            push_line(lines, ln);
            assert(target.take(k + 1) =~= target.take(k as int).push(target[k as int]));
            assert(l0 + target.take(k + 1) =~= (l0 + target.take(k as int)).push(target[k as int]));
            k += 1;
        }
        assert(target.take(k as int) =~= target);
        true
    }

    /// Appends `n` empty lines.
    fn push_blank_lines(lines: &mut Vec<StyledLine>, n: usize)
        ensures
            lines_view(final(lines)@) == lines_view(old(lines)@) + blank_lines(n as nat),
    {
        let ghost l0 = lines_view(lines@);
        let mut k: usize = 0;
        assert(l0 + blank_lines(0) =~= l0);
        while k < n
            invariant
                k <= n,
                lines_view(lines@) == l0 + blank_lines(k as nat),
            decreases n - k,
        {
            push_line(lines, crate::style::empty_line());
            assert(l0 + blank_lines((k + 1) as nat) =~= (l0 + blank_lines(k as nat)).push(
                Seq::<SpanModel>::empty(),
            ));
            k += 1;
        }
    }

    /// A formatted title centered by the length of its plain text.
    fn centered_title_line(&self, ti: &Vec<InlineContent>, th: &ThemeColors) -> (r: StyledLine)
        ensures
            r@ == centered_title(self@.width as nat, inls(ti@), *th),
    {
        let st = default_style().fg(th.title).bold();
        let spans = render_inlines_styled(ti, st, th);
        let plain = plain_chars(ti.as_slice());
        let pad = self.pad_for(blen_vec(&plain));
        let first = vec![styled(&crate::text::repeat_vec(' ', pad), default_style())];
        proof {
            crate::style::lemma_spans_basics(first@);
            assert(spans_view(first@) =~= seq![raw(spaces(pad as nat))]);
        }
        line_of(join_spans(first, spans))
    }

    /// Appends the lines of a lead slide; `false` where a width would exceed
    /// `usize`.
    fn render_lead_slide(&self, slide: &Slide, th: &ThemeColors, lines: &mut Vec<StyledLine>) -> (ok: bool)
        ensures
            ok == (forall|i: int|
                0 <= i < slide@.content.len() ==> #[trigger] centered_ok(
                    self@.width as nat,
                    slide@.content[i],
                    *th,
                )),
            ok ==> lines_view(final(lines)@) == lines_view(old(lines)@) + lead_lines(
                self@,
                slide@,
                *th,
            ),
    {
        let ghost s = slide@;
        let ghost width = self@.width as nat;
        let ghost l0 = lines_view(lines@);
        let mut content = empty_lines();
        if slide.title_inlines.len() > 0 {
            push_line(&mut content, self.centered_title_line(&slide.title_inlines, th));
            push_line(&mut content, crate::style::empty_line());
        }
        let ghost head = lines_view(content@);
        assert(head =~= if s.title_inlines.len() > 0 {
            seq![centered_title(width, s.title_inlines, *th), Seq::<SpanModel>::empty()]
        } else {
            Seq::<Seq<SpanModel>>::empty()
        });
        let mut k: usize = 0;
        assert(s.content.take(0) =~= Seq::<Element>::empty());
        assert(head + centered_all(width, s.content.take(0), *th) =~= head);
        while k < slide.content.len()
            invariant
                k <= slide.content.len(),
                s == slide@,
                width == self@.width as nat,
                s.content.len() == slide.content@.len(),
                lines_view(content@) == head + centered_all(width, s.content.take(k as int), *th),
                forall|j: int| 0 <= j < k ==> #[trigger] centered_ok(width, s.content[j], *th),
            decreases slide.content.len() - k,
        {
            assert(s.content[k as int] == slide.content@[k as int]@);
            if !self.render_element_centered(&slide.content[k], th, &mut content) {
                return false;
            }
            assert(s.content.take(k + 1).drop_last() =~= s.content.take(k as int));
            assert(head + centered_all(width, s.content.take(k + 1), *th) =~= head
                + centered_all(width, s.content.take(k as int), *th) + centered_lines(
                width,
                s.content[k as int],
                *th,
            ));
            k += 1;
        }
        assert(s.content.take(k as int) =~= s.content);
        proof {
            crate::style::lemma_lines_basics(content@);
        }
        let ghost cv = lines_view(content@);
        assert(cv == head + centered_all(width, s.content, *th));
        let start_y = self.height.saturating_sub(content.len()) / 2;
        assert(start_y == sat_sub(self@.height as nat, cv.len()) / 2);
        Self::push_blank_lines(lines, start_y);
        append_lines(lines, content);
        assert(lines_view(lines@) =~= l0 + lead_lines(self@, s, *th));
        true
    }

    /// The title text, or `Untitled`.
    fn title_chars(slide: &Slide) -> (r: Vec<char>)
        ensures
            r@ == title_text(slide@),
    {
        match &slide.title {
            Some(t) => chars_of(t.as_str()),
            None => chars_of("Untitled"),
        }
    }

    /// A line of text in one style, centered.
    fn centered_styled(&self, t: &Vec<char>, st: Style) -> (r: StyledLine)
        ensures
            r@ == seq![(spaces(center_pad(self@.width as nat, blen(t@))) + t@, st)],
    {
        let pad = self.pad_for(blen_vec(t));
        let mut c = crate::text::repeat_vec(' ', pad);
        append_vec(&mut c, t);
        crate::style::line_of_span(styled(&c, st))
    }

    /// The title line of a title slide; `None` where a fitted title would be
    /// cut inside a character.
    fn title_slide_line(&self, slide: &Slide, th: &ThemeColors) -> (r: Option<StyledLine>)
        ensures
            r is Some <==> fit_ok(self@.width as nat, slide@),
            r matches Some(l) ==> l@ == title_line(self@.width as nat, slide@, *th),
    {
        let st = default_style().fg(th.title).bold();
        if slide.fit_title {
            let tt = Self::title_chars(slide);
            let avail = self.width.saturating_sub(4);
            let display = if blen_vec(&tt) > avail as u128 {
                match crate::style::chars_in_bytes_exec(&tt, avail as u128) {
                    Some(k) => {
                        proof {
                            crate::style::lemma_chars_in_bytes(tt@, avail as int);
                        }
                        crate::text::slice(&tt, 0, k)
                    },
                    None => return None,
                }
            } else {
                tt
            };
            assert(display@ == fit_display(self@.width as nat, title_text(slide@)));
            Some(self.centered_styled(&display, st))
        } else if slide.title_inlines.len() > 0 {
            Some(self.centered_title_line(&slide.title_inlines, th))
        } else {
            let tt = Self::title_chars(slide);
            Some(self.centered_styled(&tt, st))
        }
    }

    /// Appends the lines of an element under the title of a title slide.
    fn render_title_element(&self, e: &SlideElement, lines: &mut Vec<StyledLine>)
        ensures
            lines_view(final(lines)@) == lines_view(old(lines)@) + title_elem_lines(
                self@.width as nat,
                e@,
            ),
    {
        let ghost l0 = lines_view(lines@);
        match e {
            SlideElement::Paragraph(c) => {
                append_lines(lines, self.centered_wrapped(c));
            },
            SlideElement::Plain(c) => {
                push_line(lines, self.centered_text_line(&plain_chars(c.as_slice())));
            },
            SlideElement::BulletList(items) => {
                append_lines(lines, self.centered_bullets(items, "  • "));
            },
            _ => {
                assert(lines_view(lines@) =~= l0 + Seq::<Seq<SpanModel>>::empty());
            },
        }
        assert(lines_view(lines@) =~= l0 + title_elem_lines(self@.width as nat, e@));
    }

    /// Appends the lines of a title slide; `false` where a fitted title
    /// would be cut inside a character.
    fn render_title_slide(&self, slide: &Slide, th: &ThemeColors, lines: &mut Vec<StyledLine>) -> (ok: bool)
        ensures
            ok == fit_ok(self@.width as nat, slide@),
            ok ==> lines_view(final(lines)@) == lines_view(old(lines)@) + title_lines(
                self@,
                slide@,
                *th,
            ),
    {
        let ghost s = slide@;
        let ghost width = self@.width as nat;
        let ghost l0 = lines_view(lines@);
        let center_y = self.height / 2;
        Self::push_blank_lines(lines, center_y.saturating_sub(2));
        match self.title_slide_line(slide, th) {
            Some(l) => push_line(lines, l),
            None => return false,
        }
        let ghost l1 = lines_view(lines@);
        let mut k: usize = 0;
        assert(s.content.take(0) =~= Seq::<Element>::empty());
        assert(l1 + title_all(width, s.content.take(0)) =~= l1);
        while k < slide.content.len()
            invariant
                k <= slide.content.len(),
                s == slide@,
                width == self@.width as nat,
                s.content.len() == slide.content@.len(),
                lines_view(lines@) == l1 + title_all(width, s.content.take(k as int)),
            decreases slide.content.len() - k,
        {
            assert(s.content[k as int] == slide.content@[k as int]@);
            self.render_title_element(&slide.content[k], lines);
            assert(s.content.take(k + 1).drop_last() =~= s.content.take(k as int));
            assert(l1 + title_all(width, s.content.take(k + 1)) =~= l1 + title_all(
                width,
                s.content.take(k as int),
            ) + title_elem_lines(width, s.content[k as int]));
            k += 1;
        }
        assert(s.content.take(k as int) =~= s.content);
        assert(lines_view(lines@) =~= l0 + title_lines(self@, s, *th));
        true
    }

    /// Appends the lines of a content slide; `false` where a number or a
    /// width would exceed `usize`.
    fn render_content_slide(&self, slide: &Slide, th: &ThemeColors, lines: &mut Vec<StyledLine>) -> (ok: bool)
        ensures
            ok == ((forall|i: int|
                0 <= i < slide@.content.len() ==> #[trigger] elem_ok(slide@.content[i], *th))
                && content_y(self@, slide@, *th) <= usize::MAX),
            ok ==> lines_view(final(lines)@) == lines_view(old(lines)@) + content_lines(
                self@,
                slide@,
                *th,
            ),
    {
        let ghost s = slide@;
        let ghost width = self@.width as nat;
        let ghost l0 = lines_view(lines@);
        let st = default_style().fg(th.title).bold();
        let mut y: usize = 1;
        if slide.title_inlines.len() > 0 || slide.title.is_some() {
            y += 2;
        }
        if slide.title_inlines.len() > 0 {
            let spans = render_inlines_styled(&slide.title_inlines, st, th);
            push_line(lines, line_of(raw_then("  ", spans)));
            push_line(lines, crate::style::empty_line());
        } else {
            match &slide.title {
                Some(t) => {
                    let mut c = chars_of("  ");
                    append_str(&mut c, t.as_str());
                    push_line(lines, crate::style::line_of_span(styled(&c, st)));
                    push_line(lines, crate::style::empty_line());
                },
                None => {},
            }
        }
        let ghost l1 = lines_view(lines@);
        assert(l1 =~= l0 + (if s.title_inlines.len() > 0 {
            seq![seq![raw("  "@)] + seq_spans(s.title_inlines, title_style(*th), *th), Seq::<SpanModel>::empty()]
        } else if s.title is Some {
            seq![seq![("  "@ + s.title.unwrap(), title_style(*th))], Seq::<SpanModel>::empty()]
        } else {
            Seq::<Seq<SpanModel>>::empty()
        }));
        let mut k: usize = 0;
        let ghost y0 = y as nat;
        assert(y0 + elems_y(width, s.content, *th) == content_y(self@, s, *th));
        assert(s.content.take(0) =~= Seq::<Element>::empty());
        assert(l1 + elems_lines(width, s.content.take(0), *th) =~= l1);
        while k < slide.content.len()
            invariant
                k <= slide.content.len(),
                s == slide@,
                width == self@.width as nat,
                s.content.len() == slide.content@.len(),
                lines_view(lines@) == l1 + elems_lines(width, s.content.take(k as int), *th),
                forall|j: int| 0 <= j < k ==> #[trigger] elem_ok(s.content[j], *th),
                y == y0 + elems_y(width, s.content.take(k as int), *th),
                y0 + elems_y(width, s.content, *th) == content_y(self@, s, *th),
            decreases slide.content.len() - k,
        {
            assert(s.content[k as int] == slide.content@[k as int]@);
            assert(s.content.take(k + 1).drop_last() =~= s.content.take(k as int));
            assert(s.content.take(k + 1).last() == s.content[k as int]);
            proof {
                lemma_elems_y_take(width, s.content, *th, k + 1);
            }
            if !self.render_element(&slide.content[k], th, lines, &mut y) {
                return false;
            }
            assert(l1 + elems_lines(width, s.content.take(k + 1), *th) =~= l1 + elems_lines(
                width,
                s.content.take(k as int),
                *th,
            ) + elem_lines(width, s.content[k as int], *th));
            k += 1;
        }
        assert(s.content.take(k as int) =~= s.content);
        assert(lines_view(lines@) =~= l0 + content_lines(self@, s, *th));
        true
    }

    /// The total number of slides shown in page numbers.
    fn total_slide_count_hint(&self) -> (r: usize)
        ensures
            r == self@.total_slides,
    {
        self.total_slides
    }

    fn colors_ok_check(slide: &Slide) -> (r: bool)
        ensures
            r == colors_ok(slide@),
    {
        let a = match &slide.color {
            Some(c) => crate::style::css_ok_check(&chars_of(c.as_str())),
            None => true,
        };
        let b = match &slide.background_color {
            Some(c) => crate::style::css_ok_check(&chars_of(c.as_str())),
            None => true,
        };
        a && b
    }

    /// Replaces the first line by the centered header, where there is one.
    fn apply_header(&self, slide: &Slide, th: &ThemeColors, lines: &mut Vec<StyledLine>)
        ensures
            lines_view(final(lines)@) == with_header(lines_view(old(lines)@), self@.width as nat, slide@, *th),
    {
        proof {
            crate::style::lemma_lines_basics(lines@);
        }
        if let Some(header) = &slide.header {
            let h = chars_of(header.as_str());
            if h.len() > 0 && lines.len() > 0 {
                let l = self.centered_styled(&h, default_style().fg(th.dim));
                proof {
                    crate::style::lemma_lines_update(lines@, 0, l);
                }
                lines.set(0, l);
            }
        }
    }

    /// Adds blank lines up to the height less 2.
    fn pad_lines(&self, lines: &mut Vec<StyledLine>)
        ensures
            lines_view(final(lines)@) == padded(lines_view(old(lines)@), self@.height as nat),
    {
        proof {
            crate::style::lemma_lines_basics(lines@);
        }
        let ghost hv = lines_view(lines@);
        let total_lines = self.height.saturating_sub(2);
        if lines.len() < total_lines {
            let missing = total_lines - lines.len();
            Self::push_blank_lines(lines, missing);
        } else {
            assert(blank_lines(0) =~= Seq::<Seq<SpanModel>>::empty());
            assert(hv + blank_lines(0) =~= hv);
        }
    }

    /// With pagination on, replaces the last line by the page number.
    fn apply_page(&self, slide: &Slide, th: &ThemeColors, lines: &mut Vec<StyledLine>)
        requires
            self@.settings.paginate ==> slide@.index < usize::MAX,
        ensures
            lines_view(final(lines)@) == with_page(lines_view(old(lines)@), self@, slide@, *th),
    {
        proof {
            crate::style::lemma_lines_basics(lines@);
        }
        if self.settings.paginate {
            let mut p = crate::text::dec_vec((slide.index + 1) as u128);
            append_str(&mut p, " / ");
            append_vec(&mut p, &crate::text::dec_vec(self.total_slide_count_hint() as u128));
            assert(p@ == page_label(slide@, self@));
            if lines.len() > 0 {
                let pb = blen_vec(&p);
                let pl = p.len();
                proof {
                    crate::style::lemma_blen_bound(p@);
                }
                assert(pb <= 4 * (pl as u128));
                let w = self.width as u128;
                let pad: usize = if w > pb + 2 {
                    (w - (pb + 2)) as usize
                } else {
                    0
                };
                let mut c = crate::text::repeat_vec(' ', pad);
                append_vec(&mut c, &p);
                let l = crate::style::line_of_span(styled(&c, default_style().fg(th.dim)));
                let last = lines.len() - 1;
                proof {
                    crate::style::lemma_lines_update(lines@, last as int, l);
                }
                lines.set(last, l);
            }
        }
    }

    /// Replaces the last line by the footer, where there is one.
    fn apply_footer(slide: &Slide, th: &ThemeColors, lines: &mut Vec<StyledLine>)
        ensures
            lines_view(final(lines)@) == with_footer(lines_view(old(lines)@), slide@, *th),
    {
        proof {
            crate::style::lemma_lines_basics(lines@);
        }
        if let Some(footer) = &slide.footer {
            let f = chars_of(footer.as_str());
            if f.len() > 0 && lines.len() > 0 {
                let mut c = chars_of("  ");
                append_vec(&mut c, &f);
                let l = crate::style::line_of_span(styled(&c, default_style().fg(th.dim)));
                let last = lines.len() - 1;
                proof {
                    crate::style::lemma_lines_update(lines@, last as int, l);
                }
                lines.set(last, l);
            }
        }
    }

    /// The lines of the slide's layout, before header, padding, page number
    /// and footer.
    fn render_base(&self, slide: &Slide, th: &ThemeColors) -> (r: Option<Vec<StyledLine>>)
        ensures
            r is Some <==> base_ok(self@, slide@, *th),
            r matches Some(v) ==> lines_view(v@) == base_lines(self@, slide@, *th),
    {
        let is_lead = has_class(&slide.class, "lead");
        let has_title = slide.title.is_some();
        let has_content = slide.content.len() > 0;
        let mut lines = empty_lines();
        if has_title && !has_content {
            if !self.render_title_slide(slide, th, &mut lines) {
                return None;
            }
        } else if is_lead {
            if !self.render_lead_slide(slide, th, &mut lines) {
                return None;
            }
        } else {
            if !self.render_content_slide(slide, th, &mut lines) {
                return None;
            }
        }
        Some(lines)
    }

    /// The lines of a slide, or `None` where it cannot be drawn (see
    /// `render_ok`).
    fn render_checked(&self, slide: &Slide) -> (r: Option<Vec<StyledLine>>)
        ensures
            r is Some <==> render_ok(self@, slide@),
            r matches Some(v) ==> lines_view(v@) == render_lines(self@, slide@),
    {
        if !Self::colors_ok_check(slide) {
            return None;
        }
        if self.settings.paginate && slide.index == usize::MAX {
            return None;
        }
        let th = resolve_theme_colors(slide, &self.settings);
        let mut lines = match self.render_base(slide, &th) {
            Some(v) => v,
            None => return None,
        };
        self.apply_header(slide, &th, &mut lines);
        self.pad_lines(&mut lines);
        self.apply_page(slide, &th, &mut lines);
        Self::apply_footer(slide, &th, &mut lines);
        Some(lines)
    }

    /// Draws a slide: its lines, at least the height less 2 of them.
    pub fn render(&self, slide: &Slide) -> (r: Vec<StyledLine>)
        requires
            render_ok(self@, slide@),
        ensures
            lines_view(r@) == render_lines(self@, slide@),
    {
        match self.render_checked(slide) {
            Some(v) => v,
            None => Vec::new(),
        }
    }

    /// Draws a slide, or gives `None` where `render` would not accept it.
    pub fn try_render(&self, slide: &Slide) -> (r: Option<Vec<StyledLine>>)
        ensures
            r is Some <==> render_ok(self@, slide@),
            r matches Some(v) ==> lines_view(v@) == render_lines(self@, slide@),
    {
        self.render_checked(slide)
    }
}

} // verus!
