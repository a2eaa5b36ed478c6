//! Properties of word wrapping and of drawn slides.
use vstd::prelude::*;
use crate::render::{
    RendererModel, ThemeColors, base_lines, blank_lines, elem_lines, padded, page_label,
    render_lines, sat_sub, spaces, theme_of, with_footer, with_header, with_page, wrap, wrap_para,
    wrap_paras, wrap_words,
};
use crate::slide::{Element, SlideModel};
use crate::style::{SpanModel, blen, plain_style, text_line};
use crate::text::{is_ws, lines, split_acc, split_on, strip_cr, words, words_acc};

verus! {

/// No character of `s` is whitespace.
pub open spec fn no_ws(s: Seq<char>) -> bool {
    forall|i: int| 0 <= i < s.len() ==> !is_ws(#[trigger] s[i])
}

/// The words of each line, one line after another.
pub open spec fn flat_words(ls: Seq<Seq<char>>) -> Seq<Seq<char>>
    decreases ls.len(),
{
    if ls.len() == 0 {
        seq![]
    } else {
        flat_words(ls.drop_last()) + words(ls.last())
    }
}

/// A word: not empty, without whitespace.
pub open spec fn is_word(w: Seq<char>) -> bool {
    w.len() > 0 && no_ws(w)
}

proof fn lemma_words_acc_parts(s: Seq<char>)
    ensures
        forall|i: int|
            0 <= i < words_acc(s).0.len() ==> #[trigger] is_word(words_acc(s).0[i]),
        no_ws(words_acc(s).1),
    decreases s.len(),
{
    if s.len() > 0 {
        let t = s.drop_last();
        let c = s.last();
        lemma_words_acc_parts(t);
        let (d, cur) = words_acc(t);
        if is_ws(c) {
            if cur.len() > 0 {
                assert forall|i: int| 0 <= i < d.push(cur).len() implies #[trigger] is_word(
                    d.push(cur)[i],
                ) by {
                    if i < d.len() {
                        assert(d.push(cur)[i] == d[i]);
                    }
                }
            }
            assert(no_ws(Seq::<char>::empty()));
        } else {
            assert forall|i: int| 0 <= i < cur.push(c).len() implies !is_ws(#[trigger] cur.push(c)[i]) by {
                if i < cur.len() {
                    assert(cur.push(c)[i] == cur[i]);
                }
            }
        }
    } else {
        assert(no_ws(Seq::<char>::empty()));
    }
}

proof fn lemma_words_parts(s: Seq<char>)
    ensures
        forall|i: int| 0 <= i < words(s).len() ==> #[trigger] is_word(words(s)[i]),
{
    lemma_words_acc_parts(s);
    let (d, cur) = words_acc(s);
    if cur.len() > 0 {
        assert forall|i: int| 0 <= i < d.push(cur).len() implies #[trigger] is_word(d.push(cur)[i]) by {
            if i < d.len() {
                assert(d.push(cur)[i] == d[i]);
            }
        }
    }
}

proof fn lemma_words_acc_word(w: Seq<char>)
    requires
        no_ws(w),
    ensures
        words_acc(w) == (Seq::<Seq<char>>::empty(), w),
    decreases w.len(),
{
    if w.len() > 0 {
        let t = w.drop_last();
        assert(no_ws(t)) by {
            assert forall|i: int| 0 <= i < t.len() implies !is_ws(#[trigger] t[i]) by {
                assert(t[i] == w[i]);
            }
        }
        lemma_words_acc_word(t);
        assert(!is_ws(w[w.len() - 1]));
        assert(t.push(w.last()) =~= w);
    } else {
        assert(w =~= Seq::<char>::empty());
    }
}

proof fn lemma_words_word(w: Seq<char>)
    requires
        is_word(w),
    ensures
        words(w) == seq![w],
{
    lemma_words_acc_word(w);
    assert(Seq::<Seq<char>>::empty().push(w) =~= seq![w]);
}

proof fn lemma_words_empty()
    ensures
        words(Seq::<char>::empty()) == Seq::<Seq<char>>::empty(),
{
}

/// After a whitespace character the accumulator is empty, and what follows
/// adds its own words.
proof fn lemma_words_acc_flushed(x: Seq<char>, b: Seq<char>)
    requires
        words_acc(x).1.len() == 0,
    ensures
        words_acc(x + b) == (words_acc(x).0 + words_acc(b).0, words_acc(b).1),
    decreases b.len(),
{
    if b.len() == 0 {
        assert(x + b =~= x);
        assert(words_acc(x).0 + Seq::<Seq<char>>::empty() =~= words_acc(x).0);
    } else {
        let b1 = b.drop_last();
        lemma_words_acc_flushed(x, b1);
        assert((x + b).drop_last() =~= x + b1);
        assert((x + b).last() == b.last());
        let (d1, c1) = words_acc(b1);
        let dx = words_acc(x).0;
        if is_ws(b.last()) && c1.len() > 0 {
            assert((dx + d1).push(c1) =~= dx + d1.push(c1));
        }
    }
}

/// Words on both sides of a whitespace character stay apart.
proof fn lemma_words_sep(a: Seq<char>, c: char, b: Seq<char>)
    requires
        is_ws(c),
    ensures
        words(a + seq![c] + b) == words(a) + words(b),
{
    let x = a.push(c);
    assert(x.drop_last() =~= a);
    assert(words_acc(x) == (words(a), Seq::<char>::empty()));
    lemma_words_acc_flushed(x, b);
    assert(a + seq![c] + b =~= x + b);
    let (db, cb) = words_acc(b);
    if cb.len() > 0 {
        assert((words(a) + db).push(cb) =~= words(a) + db.push(cb));
    }
}

proof fn lemma_flat_append(a: Seq<Seq<char>>, b: Seq<Seq<char>>)
    ensures
        flat_words(a + b) == flat_words(a) + flat_words(b),
    decreases b.len(),
{
    if b.len() == 0 {
        assert(a + b =~= a);
        assert(flat_words(a) + Seq::<Seq<char>>::empty() =~= flat_words(a));
    } else {
        lemma_flat_append(a, b.drop_last());
        assert((a + b).drop_last() =~= a + b.drop_last());
        assert(flat_words(a) + flat_words(b.drop_last()) + words(b.last()) =~= flat_words(a) + (
        flat_words(b.drop_last()) + words(b.last())));
    }
}

proof fn lemma_flat_one(l: Seq<char>)
    ensures
        flat_words(seq![l]) == words(l),
{
    assert(seq![l].drop_last() =~= Seq::<Seq<char>>::empty());
    assert(flat_words(Seq::<Seq<char>>::empty()) == Seq::<Seq<char>>::empty());
    assert(seq![l].last() == l);
    assert(Seq::<Seq<char>>::empty() + words(l) =~= words(l));
}

/// A line fits in `max` bytes or is a single word.
pub open spec fn fits(l: Seq<char>, max: nat) -> bool {
    blen(l) <= max || words(l) == seq![l]
}

proof fn lemma_wrap_words(ws: Seq<Seq<char>>, max: nat)
    requires
        forall|i: int| 0 <= i < ws.len() ==> #[trigger] is_word(ws[i]),
    ensures
        flat_words(wrap_words(ws, max).0) + words(wrap_words(ws, max).1) == ws,
        forall|i: int|
            0 <= i < wrap_words(ws, max).0.len() ==> #[trigger] fits(wrap_words(ws, max).0[i], max)
                && wrap_words(ws, max).0[i].len() > 0,
        fits(wrap_words(ws, max).1, max),
    decreases ws.len(),
{
    if ws.len() == 0 {
        lemma_words_empty();
        assert(flat_words(Seq::<Seq<char>>::empty()) + Seq::<Seq<char>>::empty() =~= ws);
        assert(blen(Seq::<char>::empty()) == 0);
    } else {
        let ws1 = ws.drop_last();
        assert forall|i: int| 0 <= i < ws1.len() implies #[trigger] is_word(ws1[i]) by {
            assert(ws1[i] == ws[i]);
        }
        lemma_wrap_words(ws1, max);
        let (done, cur) = wrap_words(ws1, max);
        let w = ws.last();
        assert(is_word(w)) by {
            assert(is_word(ws[ws.len() - 1]));
        }
        lemma_words_word(w);
        assert(ws1.push(w) =~= ws);
        if cur.len() == 0 {
            lemma_words_empty();
            assert(flat_words(done) + words(cur) =~= flat_words(done));
            assert(flat_words(done) + words(w) =~= ws1.push(w));
        } else if blen(cur) + 1 + blen(w) <= max {
            lemma_words_sep(cur, ' ', w);
            crate::style::lemma_blen_append(cur, seq![' ']);
            crate::style::lemma_blen_append(cur + seq![' '], w);
            assert(seq![' '].drop_last() =~= Seq::<char>::empty());
            assert(blen(Seq::<char>::empty()) == 0);
            assert(flat_words(done) + (words(cur) + seq![w]) =~= (flat_words(done) + words(cur)).push(w));
        } else {
            let done2 = done.push(cur);
            assert(done2.drop_last() =~= done);
            assert(flat_words(done2) + words(w) =~= ws1.push(w));
            assert forall|i: int| 0 <= i < done2.len() implies #[trigger] fits(done2[i], max)
                && done2[i].len() > 0 by {
                if i < done.len() {
                    assert(done2[i] == done[i]);
                }
            }
        }
    }
}

proof fn lemma_wrap_para(p: Seq<char>, max: nat)
    ensures
        flat_words(wrap_para(p, max)) == words(p),
        forall|i: int| 0 <= i < wrap_para(p, max).len() ==> #[trigger] fits(wrap_para(p, max)[i], max),
{
    lemma_words_parts(p);
    lemma_wrap_words(words(p), max);
    let (done, cur) = wrap_words(words(p), max);
    if cur.len() == 0 {
        lemma_words_empty();
        assert(flat_words(done) + Seq::<Seq<char>>::empty() =~= flat_words(done));
    } else {
        let r = done.push(cur);
        assert(r.drop_last() =~= done);
        assert forall|i: int| 0 <= i < r.len() implies #[trigger] fits(r[i], max) by {
            if i < done.len() {
                assert(r[i] == done[i]);
            }
        }
    }
}

proof fn lemma_wrap_paras(ps: Seq<Seq<char>>, max: nat)
    ensures
        flat_words(wrap_paras(ps, max)) == flat_words(ps),
        forall|i: int| 0 <= i < wrap_paras(ps, max).len() ==> #[trigger] fits(wrap_paras(ps, max)[i], max),
    decreases ps.len(),
{
    if ps.len() > 0 {
        let ps1 = ps.drop_last();
        lemma_wrap_paras(ps1, max);
        lemma_wrap_para(ps.last(), max);
        let a = wrap_paras(ps1, max);
        let b = wrap_para(ps.last(), max);
        lemma_flat_append(a, b);
        assert forall|i: int| 0 <= i < (a + b).len() implies #[trigger] fits((a + b)[i], max) by {
            if i < a.len() {
                assert((a + b)[i] == a[i]);
            } else {
                assert((a + b)[i] == b[i - a.len()]);
            }
        }
    }
}

/// Splitting at blank lines keeps the words of the text.
proof fn lemma_split_words(s: Seq<char>)
    ensures
        flat_words(split_on(s, "\n\n"@)) == words(s),
    decreases s.len(),
{
    reveal_strlit("\n\n");
    let p = "\n\n"@;
    assert(p.len() == 2);
    crate::text::lemma_find_bound(s, p);
    match crate::text::find(s, p) {
        Some(k) => {
            if 0 <= k && k + p.len() <= s.len() {
                let head = s.take(k);
                let rest = s.skip(k + 2);
                lemma_split_words(rest);
                assert(split_on(s, p) == seq![head] + split_on(rest, p));
                lemma_flat_append(seq![head], split_on(rest, p));
                lemma_flat_one(head);
                assert(s.subrange(k, k + 2) == p);
                assert(s[k] == '\n' && s[k + 1] == '\n') by {
                    assert(s.subrange(k, k + 2)[0] == s[k]);
                    assert(s.subrange(k, k + 2)[1] == s[k + 1]);
                }
                assert(s =~= head + seq!['\n'] + (Seq::<char>::empty() + seq!['\n'] + rest));
                lemma_words_sep(head, '\n', Seq::<char>::empty() + seq!['\n'] + rest);
                lemma_words_sep(Seq::<char>::empty(), '\n', rest);
                lemma_words_empty();
                assert(Seq::<Seq<char>>::empty() + words(rest) =~= words(rest));
            } else {
                lemma_flat_one(s);
            }
        },
        None => {
            lemma_flat_one(s);
        },
    }
}

/// Word wrapping keeps the words of the text in order: none is lost, added,
/// split or joined with another.
pub proof fn wrapping_keeps_words(text: Seq<char>, max: nat)
    ensures
        flat_words(wrap(text, max)) == words(text),
{
    if max == 0 {
        lemma_flat_one(text);
    } else {
        let ps = split_on(text, "\n\n"@);
        lemma_wrap_paras(ps, max);
        lemma_split_words(text);
        if wrap_paras(ps, max).len() == 0 {
            lemma_flat_one(Seq::<char>::empty());
            lemma_words_empty();
        }
    }
}

/// With a width, every wrapped line fits in it, unless it is a single word
/// longer than the width.
pub proof fn wrapped_lines_fit(text: Seq<char>, max: nat)
    requires
        max > 0,
    ensures
        forall|i: int| 0 <= i < wrap(text, max).len() ==> #[trigger] fits(wrap(text, max)[i], max),
{
    let ps = split_on(text, "\n\n"@);
    lemma_wrap_paras(ps, max);
    if wrap_paras(ps, max).len() == 0 {
        assert(blen(Seq::<char>::empty()) == 0);
        assert(fits(wrap(text, max)[0], max));
    }
}

// ---------------------------------------------------------------------------
// Drawn slides
// ---------------------------------------------------------------------------

/// A drawn slide has at least the frame's height less 2 lines: the header,
/// the page number and the footer replace lines and never add any.
pub proof fn slides_fill_the_frame(r: RendererModel, s: SlideModel)
    ensures
        render_lines(r, s).len() >= sat_sub(r.height as nat, 2),
        ({
            let th = theme_of(s, r.settings);
            let b = base_lines(r, s, th);
            render_lines(r, s).len() == if b.len() >= sat_sub(r.height as nat, 2) {
                b.len()
            } else {
                sat_sub(r.height as nat, 2)
            }
        }),
{
    let th = theme_of(s, r.settings);
    let b = base_lines(r, s, th);
    let h = with_header(b, r.width as nat, s, th);
    assert(h.len() == b.len());
    let p = padded(h, r.height as nat);
    assert(p.len() == h.len() + blank_lines(sat_sub(sat_sub(r.height as nat, 2), h.len())).len());
    let g = with_page(p, r, s, th);
    assert(g.len() == p.len());
    assert(with_footer(g, s, th).len() == g.len());
}

/// The text of a line: its spans' texts one after another.
pub open spec fn span_text(spans: Seq<SpanModel>) -> Seq<char>
    decreases spans.len(),
{
    if spans.len() == 0 {
        seq![]
    } else {
        span_text(spans.drop_last()) + spans.last().0
    }
}

/// `c` does not occur in `s`.
pub open spec fn free_of(s: Seq<char>, c: char) -> bool {
    forall|i: int| 0 <= i < s.len() ==> #[trigger] s[i] != c
}

proof fn lemma_split_acc_free(s: Seq<char>, c: char)
    ensures
        forall|i: int| 0 <= i < split_acc(s, c).0.len() ==> #[trigger] free_of(split_acc(s, c).0[i], c),
        free_of(split_acc(s, c).1, c),
    decreases s.len(),
{
    if s.len() > 0 {
        lemma_split_acc_free(s.drop_last(), c);
        let (d, cur) = split_acc(s.drop_last(), c);
        if s.last() == c {
            assert forall|i: int| 0 <= i < d.push(cur).len() implies #[trigger] free_of(
                d.push(cur)[i],
                c,
            ) by {
                if i < d.len() {
                    assert(d.push(cur)[i] == d[i]);
                }
            }
        } else {
            assert forall|i: int| 0 <= i < cur.push(s.last()).len() implies #[trigger] cur.push(
                s.last(),
            )[i] != c by {
                if i < cur.len() {
                    assert(cur.push(s.last())[i] == cur[i]);
                }
            }
        }
    }
}

pub proof fn lemma_split_acc_free_whole(s: Seq<char>, c: char)
    requires
        free_of(s, c),
    ensures
        split_acc(s, c) == (Seq::<Seq<char>>::empty(), s),
    decreases s.len(),
{
    if s.len() > 0 {
        let t = s.drop_last();
        assert(free_of(t, c)) by {
            assert forall|i: int| 0 <= i < t.len() implies #[trigger] t[i] != c by {
                assert(t[i] == s[i]);
            }
        }
        lemma_split_acc_free_whole(t, c);
        assert(s[s.len() - 1] != c);
        assert(t.push(s.last()) =~= s);
    } else {
        assert(s =~= Seq::<char>::empty());
    }
}

/// The lines of the code, free of line breaks.
proof fn lemma_lines_free(code: Seq<char>)
    ensures
        forall|k: int| 0 <= k < lines(code).len() ==> #[trigger] free_of(lines(code)[k], '\n'),
{
    lemma_split_acc_free(code, '\n');
    let (d, cur) = split_acc(code, '\n');
    let ended = d.map_values(|x: Seq<char>| strip_cr(x));
    assert forall|k: int| 0 <= k < ended.len() implies #[trigger] free_of(ended[k], '\n') by {
        assert(free_of(d[k], '\n'));
        let x = d[k];
        assert forall|i: int| 0 <= i < strip_cr(x).len() implies #[trigger] strip_cr(x)[i] != '\n' by {
            assert(strip_cr(x)[i] == x[i]);
        }
    }
    if cur.len() > 0 {
        assert forall|k: int| 0 <= k < ended.push(cur).len() implies #[trigger] free_of(
            ended.push(cur)[k],
            '\n',
        ) by {
            if k < ended.len() {
                assert(ended.push(cur)[k] == ended[k]);
            }
        }
    }
}

/// A line of text without line breaks is drawn as that text, unstyled.
proof fn lemma_text_line_single(t: Seq<char>)
    requires
        free_of(t, '\n'),
    ensures
        span_text(text_line(t)) == t,
        forall|i: int| 0 <= i < text_line(t).len() ==> (#[trigger] text_line(t)[i]).1 == plain_style(),
{
    lemma_split_acc_free_whole(t, '\n');
    let l = lines(t);
    assert(Seq::<Seq<char>>::empty().map_values(|x: Seq<char>| strip_cr(x)) =~= Seq::<Seq<char>>::empty());
    if t.len() > 0 {
        assert(l =~= seq![t]);
        let tl = text_line(t);
        assert(tl =~= seq![(t, plain_style())]);
        assert(tl.drop_last() =~= Seq::<SpanModel>::empty());
        assert(span_text(Seq::<SpanModel>::empty()) == Seq::<char>::empty());
        assert(Seq::<char>::empty() + t =~= t);
    } else {
        assert(l =~= Seq::<Seq<char>>::empty());
        assert(text_line(t) =~= Seq::<SpanModel>::empty());
        assert(t =~= Seq::<char>::empty());
    }
}

/// ASCII art is drawn exactly as written: one line of unstyled text for
/// each line of the block, whitespace and all.
pub proof fn ascii_art_is_kept(width: nat, lang: Seq<char>, code: Seq<char>, th: ThemeColors)
    requires
        crate::directives::is_ascii_lang(lang),
    ensures
        elem_lines(width, Element::CodeBlock(lang, code), th).len() == lines(code).len(),
        forall|k: int|
            0 <= k < lines(code).len() ==> span_text(
                #[trigger] elem_lines(width, Element::CodeBlock(lang, code), th)[k],
            ) == lines(code)[k],
        forall|k: int, i: int|
            0 <= k < lines(code).len() && 0 <= i < elem_lines(
                width,
                Element::CodeBlock(lang, code),
                th,
            )[k].len() ==> (#[trigger] elem_lines(width, Element::CodeBlock(lang, code), th)[k][i]).1
                == plain_style(),
{
    lemma_lines_free(code);
    let ls = lines(code);
    assert forall|k: int| 0 <= k < ls.len() implies span_text(
        #[trigger] elem_lines(width, Element::CodeBlock(lang, code), th)[k],
    ) == ls[k] && forall|i: int|
        0 <= i < elem_lines(width, Element::CodeBlock(lang, code), th)[k].len() ==> (elem_lines(
            width,
            Element::CodeBlock(lang, code),
            th,
        )[k][i]).1 == plain_style() by {
        assert(free_of(ls[k], '\n'));
        lemma_text_line_single(ls[k]);
        assert(elem_lines(width, Element::CodeBlock(lang, code), th)[k] == text_line(ls[k]));
    }
}

proof fn lemma_span_text_one(t: Seq<char>, st: crate::style::Style)
    ensures
        span_text(seq![(t, st)]) == t,
{
    assert(seq![(t, st)].drop_last() =~= Seq::<SpanModel>::empty());
    assert(span_text(Seq::<SpanModel>::empty()) == Seq::<char>::empty());
    assert(Seq::<char>::empty() + t =~= t);
}

/// With pagination on and no footer, the last line of a drawn slide is its
/// page number: its position counted from 1 and the number of slides,
/// right-aligned.
pub proof fn page_number_is_last(r: RendererModel, s: SlideModel)
    requires
        r.settings.paginate,
        r.height >= 3,
        s.footer is None || s.footer.unwrap().len() == 0,
    ensures
        render_lines(r, s).len() > 0,
        span_text(render_lines(r, s).last()) == spaces(
            sat_sub(r.width as nat, blen(page_label(s, r)) + 2),
        ) + crate::text::dec((s.index + 1) as nat) + " / "@ + crate::text::dec(r.total_slides as nat),
{
    slides_fill_the_frame(r, s);
    let th = theme_of(s, r.settings);
    let p = page_label(s, r);
    let b = base_lines(r, s, th);
    let h = with_header(b, r.width as nat, s, th);
    let pd = padded(h, r.height as nat);
    assert(pd.len() > 0);
    let g = with_page(pd, r, s, th);
    assert(g.last() == seq![(spaces(sat_sub(r.width as nat, blen(p) + 2)) + p, crate::render::fg_style(th.dim))]);
    assert(render_lines(r, s) == g);
    lemma_span_text_one(spaces(sat_sub(r.width as nat, blen(p) + 2)) + p, crate::render::fg_style(th.dim));
    assert(spaces(sat_sub(r.width as nat, blen(p) + 2)) + p =~= spaces(
        sat_sub(r.width as nat, blen(p) + 2),
    ) + crate::text::dec((s.index + 1) as nat) + " / "@ + crate::text::dec(r.total_slides as nat));
}

} // verus!
