//! Properties of inline styles, image words, color names and heading
//! dividers, stated over their inputs.
use vstd::prelude::*;
use crate::directives::{all_digits, digit_val, digits_value, heading_divider, image_word, parse_usize};
use crate::render::{ThemeColors, seq_spans};
use crate::slide::{ImageModel, Inline};
use crate::style::{Color, Style, css_color};
use crate::text::{
    CharSet, dec, digit_char, is_ws, lemma_lead, lemma_trail, lowercase, split, split_acc,
    starts_with, trim, trim_end_set, trim_start_set,
};

verus! {

// ---------------------------------------------------------------------------
// Inline styles
// ---------------------------------------------------------------------------

proof fn lemma_one_text(t: Seq<char>, st: Style, th: ThemeColors)
    ensures
        seq_spans(seq![Inline::Text(t)], st, th) == seq![(t, st)],
{
    lemma_one_node(Inline::Text(t), st, th);
    assert(crate::render::inline_spans(Inline::Text(t), st, th) == seq![(t, st)]);
}

proof fn lemma_one_node(i: Inline, st: Style, th: ThemeColors)
    ensures
        seq_spans(seq![i], st, th) == crate::render::inline_spans(i, st, th),
{
    let s = seq![i];
    assert(s.drop_last() =~= Seq::<Inline>::empty());
    assert(seq_spans(Seq::<Inline>::empty(), st, th) == Seq::<(Seq<char>, Style)>::empty());
    assert(Seq::<(Seq<char>, Style)>::empty() + crate::render::inline_spans(i, st, th)
        =~= crate::render::inline_spans(i, st, th));
}

/// Emphasis draws its text in the surrounding style with italic added, and
/// strong emphasis with bold added; nothing else of the style changes.
pub proof fn emphasis_adds_italic_and_strong_adds_bold(t: Seq<char>, st: Style, th: ThemeColors)
    ensures
        seq_spans(seq![Inline::Italic(seq![Inline::Text(t)])], st, th) == seq![
            (t, (Style { italic: true, ..st })),
        ],
        seq_spans(seq![Inline::Bold(seq![Inline::Text(t)])], st, th) == seq![
            (t, (Style { bold: true, ..st })),
        ],
        seq_spans(seq![Inline::Strike(seq![Inline::Text(t)])], st, th) == seq![
            (t, (Style { fg: Some(th.strikethrough), crossed_out: true, ..st })),
        ],
{
    lemma_one_node(Inline::Italic(seq![Inline::Text(t)]), st, th);
    lemma_one_text(t, Style { italic: true, ..st }, th);
    lemma_one_node(Inline::Bold(seq![Inline::Text(t)]), st, th);
    lemma_one_text(t, Style { bold: true, ..st }, th);
    lemma_one_node(Inline::Strike(seq![Inline::Text(t)]), st, th);
    lemma_one_text(t, Style { fg: Some(th.strikethrough), crossed_out: true, ..st }, th);
}

// ---------------------------------------------------------------------------
// Image words
// ---------------------------------------------------------------------------

/// `h:V` and `height:V` set the image's height to `V` and change nothing
/// else; `w:V` and `width:V` likewise set its width.
pub proof fn size_words_set_their_size(m: ImageModel, v: Seq<char>)
    ensures
        image_word(m, "h:"@ + v) == (ImageModel { height: Some(v), ..m }),
        image_word(m, "height:"@ + v) == (ImageModel { height: Some(v), ..m }),
        image_word(m, "w:"@ + v) == (ImageModel { width: Some(v), ..m }),
        image_word(m, "width:"@ + v) == (ImageModel { width: Some(v), ..m }),
{
    reveal_strlit("h:");
    reveal_strlit("height:");
    reveal_strlit("w:");
    reveal_strlit("width:");
    reveal_strlit("bg");
    reveal_strlit("contain");
    reveal_strlit("cover");
    reveal_strlit("fit");
    reveal_strlit("auto");
    reveal_strlit("left");
    reveal_strlit("right");
    reveal_strlit("vertical");
    let h1 = "h:"@ + v;
    let h2 = "height:"@ + v;
    let w1 = "w:"@ + v;
    let w2 = "width:"@ + v;
    assert(h1[0] == 'h' && h1[1] == ':');
    assert(h2[0] == 'h' && h2[1] == 'e');
    assert(w1[0] == 'w' && w1[1] == ':');
    assert(w2[0] == 'w' && w2[1] == 'i');
    assert(h1.take(2) =~= "h:"@);
    assert(h1.skip(2) =~= v);
    assert(h2.take(7) =~= "height:"@);
    assert(h2.skip(7) =~= v);
    assert(w1.take(2) =~= "w:"@);
    assert(w1.skip(2) =~= v);
    assert(w2.take(6) =~= "width:"@);
    assert(w2.skip(6) =~= v);
    assert(h2.take(2) != "h:"@) by {
        assert(h2.take(2)[1] == 'e');
    }
    assert(w2.take(2) != "w:"@) by {
        assert(w2.take(2)[1] == 'i');
    }
    assert(h1.take(2) != "w:"@) by {
        assert(h1.take(2)[0] == 'h');
    }
    assert(h2.take(2) != "w:"@) by {
        assert(h2.take(2)[0] == 'h');
    }
    if h1.len() >= 6 {
        assert(h1.take(6) != "width:"@) by {
            assert(h1.take(6)[0] == 'h');
        }
    }
    if h2.len() >= 6 {
        assert(h2.take(6) != "width:"@) by {
            assert(h2.take(6)[0] == 'h');
        }
    }
}

// ---------------------------------------------------------------------------
// Color names
// ---------------------------------------------------------------------------

/// A color written as a name: neither `#...` nor `rgb(...`.
pub open spec fn named_color(color: Seq<char>) -> bool {
    !starts_with(trim(color), "#"@) && !starts_with(trim(color), "rgb("@)
}

/// A basic color name, in any case, is the color of that name; any other
/// name is no color.
pub proof fn color_names_are_their_colors(color: Seq<char>)
    requires
        named_color(color),
    ensures
        lowercase(trim(color)) == "white"@ ==> css_color(color) == Some(Color::White),
        lowercase(trim(color)) == "black"@ ==> css_color(color) == Some(Color::Black),
        lowercase(trim(color)) == "red"@ ==> css_color(color) == Some(Color::Red),
        lowercase(trim(color)) == "green"@ ==> css_color(color) == Some(Color::Green),
        lowercase(trim(color)) == "blue"@ ==> css_color(color) == Some(Color::Blue),
        lowercase(trim(color)) == "yellow"@ ==> css_color(color) == Some(Color::Yellow),
        lowercase(trim(color)) == "cyan"@ ==> css_color(color) == Some(Color::Cyan),
        lowercase(trim(color)) == "magenta"@ ==> css_color(color) == Some(Color::Magenta),
        lowercase(trim(color)) == "gray"@ ==> css_color(color) == Some(Color::Gray),
        lowercase(trim(color)) == "grey"@ ==> css_color(color) == Some(Color::Gray),
        !(lowercase(trim(color)) == "white"@ || lowercase(trim(color)) == "black"@ || lowercase(
            trim(color),
        ) == "red"@ || lowercase(trim(color)) == "green"@ || lowercase(trim(color)) == "blue"@
            || lowercase(trim(color)) == "yellow"@ || lowercase(trim(color)) == "cyan"@
            || lowercase(trim(color)) == "magenta"@ || lowercase(trim(color)) == "gray"@
            || lowercase(trim(color)) == "grey"@) ==> css_color(color) is None,
{
    reveal_strlit("white");
    reveal_strlit("black");
    reveal_strlit("red");
    reveal_strlit("green");
    reveal_strlit("blue");
    reveal_strlit("yellow");
    reveal_strlit("cyan");
    reveal_strlit("magenta");
    reveal_strlit("gray");
    reveal_strlit("grey");
    let names = seq![
        "white"@,
        "black"@,
        "red"@,
        "green"@,
        "blue"@,
        "yellow"@,
        "cyan"@,
        "magenta"@,
        "gray"@,
        "grey"@,
    ];
    assert forall|i: int, j: int| 0 <= i < names.len() && 0 <= j < names.len() && i != j implies #[trigger] names[i] != #[trigger] names[j] by {
        if names[i] == names[j] {
            assert(names[i].len() == names[j].len());
            assert(names[i][0] == names[j][0]);
            assert(names[i][2] == names[j][2]);
        }
    }
    assert(names[0] == "white"@ && names[1] == "black"@ && names[2] == "red"@ && names[3] == "green"@
        && names[4] == "blue"@ && names[5] == "yellow"@ && names[6] == "cyan"@ && names[7]
        == "magenta"@ && names[8] == "gray"@ && names[9] == "grey"@);
}

// ---------------------------------------------------------------------------
// Heading dividers
// ---------------------------------------------------------------------------

/// A decimal digit character.
pub open spec fn is_digit_char(c: char) -> bool {
    '0' <= c && c <= '9'
}

proof fn lemma_digit(d: nat)
    requires
        d < 10,
    ensures
        digit_val(digit_char(d), 10) == Some(d),
        is_digit_char(digit_char(d)),
{
}

proof fn lemma_dec(n: nat)
    ensures
        dec(n).len() > 0,
        all_digits(dec(n), 10),
        digits_value(dec(n), 10) == n,
        forall|i: int| 0 <= i < dec(n).len() ==> is_digit_char(#[trigger] dec(n)[i]),
    decreases n,
{
    if n < 10 {
        lemma_digit(n);
        let s = dec(n);
        assert(s.drop_last() =~= Seq::<char>::empty());
        assert(digits_value(Seq::<char>::empty(), 10) == 0);
    } else {
        lemma_dec(n / 10);
        lemma_digit(n % 10);
        let s = dec(n);
        let p = dec(n / 10);
        assert(s == p.push(digit_char(n % 10)));
        assert(s.drop_last() =~= p);
        assert forall|i: int| 0 <= i < s.len() implies is_digit_char(#[trigger] s[i]) by {
            if i < p.len() {
                assert(s[i] == p[i]);
            }
        }
        assert forall|i: int| 0 <= i < s.len() implies (#[trigger] digit_val(s[i], 10)) is Some by {
            if i < p.len() {
                assert(s[i] == p[i]);
                assert(digit_val(p[i], 10) is Some);
            }
        }
        assert(digits_value(s, 10) == (n / 10) * 10 + n % 10);
    }
}

proof fn lemma_no_edge_ws(s: Seq<char>)
    requires
        s.len() > 0,
        !is_ws(s[0]),
        !is_ws(s[s.len() - 1]),
    ensures
        trim(s) == s,
{
    lemma_lead(s, CharSet::Whitespace, 0);
    assert(s.skip(0) =~= s);
    lemma_trail(s, CharSet::Whitespace, 0);
    assert(s.take(s.len() as int) =~= s);
}

proof fn lemma_dec_parses(n: usize)
    ensures
        trim(dec(n as nat)) == dec(n as nat),
        parse_usize(trim(dec(n as nat))) == Some(n),
{
    let s = dec(n as nat);
    lemma_dec(n as nat);
    assert(is_digit_char(s[0]));
    assert(is_digit_char(s[s.len() - 1]));
    lemma_no_edge_ws(s);
    assert(s[0] != '+');
}

proof fn lemma_split_two(x: Seq<char>, y: Seq<char>, c: char)
    requires
        crate::layout_laws::free_of(x, c),
        crate::layout_laws::free_of(y, c),
    ensures
        split(x + seq![c] + y, c) == seq![x, y],
{
    crate::layout_laws::lemma_split_acc_free_whole(x, c);
    lemma_split_acc_after(x, c, y);
    assert(Seq::<Seq<char>>::empty().push(x) =~= seq![x]);
    assert(seq![x].push(y) =~= seq![x, y]);
}

proof fn lemma_split_acc_after(x: Seq<char>, c: char, y: Seq<char>)
    requires
        split_acc(x, c) == (Seq::<Seq<char>>::empty(), x),
        crate::layout_laws::free_of(y, c),
    ensures
        split_acc(x + seq![c] + y, c) == (seq![x], y),
    decreases y.len(),
{
    if y.len() == 0 {
        let s = x + seq![c] + y;
        assert(s =~= x.push(c));
        assert(s.drop_last() =~= x);
        assert(Seq::<Seq<char>>::empty().push(x) =~= seq![x]);
    } else {
        let y1 = y.drop_last();
        assert(crate::layout_laws::free_of(y1, c)) by {
            assert forall|i: int| 0 <= i < y1.len() implies #[trigger] y1[i] != c by {
                assert(y1[i] == y[i]);
            }
        }
        lemma_split_acc_after(x, c, y1);
        let s = x + seq![c] + y;
        assert(s.drop_last() =~= x + seq![c] + y1);
        assert(s.last() == y.last());
        assert(y.last() != c) by {
            assert(y[y.len() - 1] != c);
        }
        assert(y1.push(y.last()) =~= y);
    }
}

/// A bracketed list of two levels divides slides at exactly those levels, in
/// order, and a plain number `n` at the levels 1 to `n`.
pub proof fn heading_divider_reads_levels(a: usize, b: usize, n: usize)
    ensures
        heading_divider(seq!['['] + dec(a as nat) + seq![','] + dec(b as nat) + seq![']'])
            == Some(seq![a, b]),
        heading_divider(dec(n as nat)) == Some(crate::directives::one_to(n)),
{
    lemma_dec_parses(n);
    let da = dec(a as nat);
    let db = dec(b as nat);
    lemma_dec(a as nat);
    lemma_dec(b as nat);
    lemma_dec_parses(a);
    lemma_dec_parses(b);
    let v = seq!['['] + da + seq![','] + db + seq![']'];
    assert(v[0] == '[');
    assert(v[v.len() - 1] == ']');
    lemma_no_edge_ws(v);
    assert(!all_digits(v, 10)) by {
        assert(digit_val(v[0], 10) is None);
    }
    assert(parse_usize(v) is None) by {
        assert(v[0] != '+');
    }
    assert(v[1] == da[0]);
    assert(is_digit_char(da[0]));
    lemma_lead(v, CharSet::One('['), 1);
    let u = v.skip(1);
    assert(u =~= da + seq![','] + db + seq![']']);
    assert(u[u.len() - 2] == db[db.len() - 1]);
    assert(is_digit_char(db[db.len() - 1]));
    lemma_trail(u, CharSet::One(']'), 1);
    let inner = u.take(u.len() - 1);
    assert(inner =~= da + seq![','] + db);
    assert(trim_end_set(trim_start_set(v, CharSet::One('[')), CharSet::One(']')) == inner);
    assert(crate::layout_laws::free_of(da, ',')) by {
        assert forall|i: int| 0 <= i < da.len() implies #[trigger] da[i] != ',' by {
            assert(is_digit_char(da[i]));
        }
    }
    assert(crate::layout_laws::free_of(db, ',')) by {
        assert forall|i: int| 0 <= i < db.len() implies #[trigger] db[i] != ',' by {
            assert(is_digit_char(db[i]));
        }
    }
    lemma_split_two(da, db, ',');
    let parts = seq![da, db];
    assert(parts.drop_last() =~= seq![da]);
    assert(seq![da].drop_last() =~= Seq::<Seq<char>>::empty());
    assert(crate::directives::numbers_of(Seq::<Seq<char>>::empty()) == Seq::<usize>::empty());
    assert(crate::directives::numbers_of(seq![da]) =~= seq![a]);
    assert(crate::directives::numbers_of(parts) =~= seq![a, b]);
}

} // verus!
