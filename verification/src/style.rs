//! Terminal colors and styles, styled text lines, and CSS color parsing.
use vstd::prelude::*;
use crate::directives::{parse_uint, parse_uint_vec};
use crate::text::{
    chars_eq, chars_of, ends_with, ends_with_str, eq_str, lowercase, slice, split, split_vec,
    starts_with, starts_with_str, strip_prefix_str, to_lowercase, trim, trim_vec, vv,
};

verus! {

/// A terminal color.
#[derive(Clone, Copy, Debug, PartialEq, Eq, Structural)]
pub enum Color {
    Black,
    Red,
    Green,
    Yellow,
    Blue,
    Magenta,
    Cyan,
    Gray,
    White,
    Rgb(u8, u8, u8),
}

/// Colors and text modifiers of a span.
#[derive(Clone, Copy, Debug, PartialEq, Eq, Structural)]
pub struct Style {
    pub fg: Option<Color>,
    pub bg: Option<Color>,
    pub bold: bool,
    pub italic: bool,
    pub underlined: bool,
    pub crossed_out: bool,
}

pub open spec fn plain_style() -> Style {
    Style { fg: None, bg: None, bold: false, italic: false, underlined: false, crossed_out: false }
}

pub fn default_style() -> (r: Style)
    ensures
        r == plain_style(),
{
    Style { fg: None, bg: None, bold: false, italic: false, underlined: false, crossed_out: false }
}

impl Style {
    pub fn fg(self, c: Color) -> (r: Style)
        ensures
            r == (Style { fg: Some(c), ..self }),
    {
        Style { fg: Some(c), ..self }
    }

    pub fn bg(self, c: Color) -> (r: Style)
        ensures
            r == (Style { bg: Some(c), ..self }),
    {
        Style { bg: Some(c), ..self }
    }

    pub fn bold(self) -> (r: Style)
        ensures
            r == (Style { bold: true, ..self }),
    {
        Style { bold: true, ..self }
    }

    pub fn italic(self) -> (r: Style)
        ensures
            r == (Style { italic: true, ..self }),
    {
        Style { italic: true, ..self }
    }

    pub fn underlined(self) -> (r: Style)
        ensures
            r == (Style { underlined: true, ..self }),
    {
        Style { underlined: true, ..self }
    }

    pub fn crossed_out(self) -> (r: Style)
        ensures
            r == (Style { crossed_out: true, ..self }),
    {
        Style { crossed_out: true, ..self }
    }
}

/// A run of text with one style.
#[derive(Debug)]
pub struct StyledSpan {
    pub content: String,
    pub style: Style,
}

/// One terminal line: a sequence of styled spans.
#[derive(Debug)]
pub struct StyledLine {
    pub spans: Vec<StyledSpan>,
}

pub type SpanModel = (Seq<char>, Style);

impl View for StyledSpan {
    type V = SpanModel;

    open spec fn view(&self) -> SpanModel {
        (self.content@, self.style)
    }
}

#[verifier::opaque]
pub open spec fn spans_view(v: Seq<StyledSpan>) -> Seq<SpanModel> {
    v.map_values(|s: StyledSpan| s@)
}

impl View for StyledLine {
    type V = Seq<SpanModel>;

    open spec fn view(&self) -> Seq<SpanModel> {
        spans_view(self.spans@)
    }
}

#[verifier::opaque]
pub open spec fn lines_view(v: Seq<StyledLine>) -> Seq<Seq<SpanModel>> {
    v.map_values(|l: StyledLine| l@)
}

pub proof fn lemma_spans_push(v: Seq<StyledSpan>, x: StyledSpan)
    ensures
        spans_view(v.push(x)) == spans_view(v).push(x@),
{
    reveal(spans_view);
    assert(spans_view(v.push(x)) =~= spans_view(v).push(x@));
}

pub proof fn lemma_spans_append(a: Seq<StyledSpan>, b: Seq<StyledSpan>)
    ensures
        spans_view(a + b) == spans_view(a) + spans_view(b),
{
    reveal(spans_view);
    assert(spans_view(a + b) =~= spans_view(a) + spans_view(b));
}

pub proof fn lemma_spans_basics(v: Seq<StyledSpan>)
    ensures
        spans_view(v).len() == v.len(),
        forall|i: int| 0 <= i < v.len() ==> #[trigger] spans_view(v)[i] == v[i]@,
        v.len() == 0 ==> spans_view(v) == Seq::<SpanModel>::empty(),
{
    reveal(spans_view);
    if v.len() == 0 {
        assert(spans_view(v) =~= Seq::<SpanModel>::empty());
    }
}

pub proof fn lemma_lines_push(v: Seq<StyledLine>, x: StyledLine)
    ensures
        lines_view(v.push(x)) == lines_view(v).push(x@),
{
    reveal(lines_view);
    assert(lines_view(v.push(x)) =~= lines_view(v).push(x@));
}

pub proof fn lemma_lines_append(a: Seq<StyledLine>, b: Seq<StyledLine>)
    ensures
        lines_view(a + b) == lines_view(a) + lines_view(b),
{
    reveal(lines_view);
    assert(lines_view(a + b) =~= lines_view(a) + lines_view(b));
}

pub proof fn lemma_lines_basics(v: Seq<StyledLine>)
    ensures
        lines_view(v).len() == v.len(),
        forall|i: int| 0 <= i < v.len() ==> #[trigger] lines_view(v)[i] == v[i]@,
        v.len() == 0 ==> lines_view(v) == Seq::<Seq<SpanModel>>::empty(),
{
    reveal(lines_view);
    if v.len() == 0 {
        assert(lines_view(v) =~= Seq::<Seq<SpanModel>>::empty());
    }
}

pub proof fn lemma_lines_update(v: Seq<StyledLine>, i: int, x: StyledLine)
    requires
        0 <= i < v.len(),
    ensures
        lines_view(v.update(i, x)) == lines_view(v).update(i, x@),
{
    reveal(lines_view);
    assert(lines_view(v.update(i, x)) =~= lines_view(v).update(i, x@));
}

/// A span with the given style.
pub fn styled(content: &Vec<char>, style: Style) -> (r: StyledSpan)
    ensures
        r@ == (content@, style),
{
    StyledSpan { content: crate::text::string_of(content), style }
}

/// A line of one styled span.
pub fn line_of_span(s: StyledSpan) -> (r: StyledLine)
    ensures
        r@ == seq![s@],
{
    let v = vec![s];
    proof {
        reveal(spans_view);
    }
    assert(spans_view(v@) =~= seq![s@]);
    StyledLine { spans: v }
}

/// A line made of plain text: one unstyled span per text line of it (so the
/// empty text gives a line without spans).
pub open spec fn text_line(s: Seq<char>) -> Seq<SpanModel> {
    crate::text::lines(s).map_values(|x: Seq<char>| (x, plain_style()))
}

pub fn line_of_text(s: &Vec<char>) -> (r: StyledLine)
    ensures
        r@ == text_line(s@),
{
    let parts = crate::text::lines_vec(s);
    let mut spans: Vec<StyledSpan> = Vec::new();
    let mut i: usize = 0;
    proof {
        lemma_spans_basics(spans@);
        assert(text_line(s@).take(0) =~= Seq::<SpanModel>::empty());
    }
    while i < parts.len()
        invariant
            i <= parts.len(),
            vv(parts@) == crate::text::lines(s@),
            spans_view(spans@) == text_line(s@).take(i as int),
        decreases parts.len() - i,
    {
        let sp = styled(&parts[i], default_style());
        proof {
            lemma_spans_push(spans@, sp);
        }
        spans.push(sp);
        assert(vv(parts@)[i as int] == parts@[i as int]@);
        assert(text_line(s@).take(i + 1) =~= text_line(s@).take(i as int).push(
            text_line(s@)[i as int],
        ));
        i += 1;
    }
    assert(text_line(s@).take(i as int) =~= text_line(s@));
    StyledLine { spans }
}

/// The empty line.
pub fn empty_line() -> (r: StyledLine)
    ensures
        r@ == Seq::<SpanModel>::empty(),
{
    let v: Vec<StyledSpan> = Vec::new();
    proof {
        lemma_spans_basics(v@);
    }
    StyledLine { spans: v }
}

// ---------------------------------------------------------------------------
// UTF-8 byte lengths (`str::len`)
// ---------------------------------------------------------------------------

pub open spec fn char_bytes(c: char) -> nat {
    let u = c as u32;
    if u < 0x80 {
        1
    } else if u < 0x800 {
        2
    } else if u < 0x10000 {
        3
    } else {
        4
    }
}

/// The length in bytes of the UTF-8 encoding.
pub open spec fn blen(s: Seq<char>) -> nat
    decreases s.len(),
{
    if s.len() == 0 {
        0
    } else {
        blen(s.drop_last()) + char_bytes(s.last())
    }
}

pub proof fn lemma_blen_append(a: Seq<char>, b: Seq<char>)
    ensures
        blen(a + b) == blen(a) + blen(b),
    decreases b.len(),
{
    if b.len() > 0 {
        assert((a + b).drop_last() =~= a + b.drop_last());
        lemma_blen_append(a, b.drop_last());
    } else {
        assert(a + b =~= a);
    }
}

pub proof fn lemma_blen_bound(s: Seq<char>)
    ensures
        s.len() <= blen(s) <= 4 * s.len(),
    decreases s.len(),
{
    if s.len() > 0 {
        lemma_blen_bound(s.drop_last());
    }
}

fn char_bytes_exec(c: char) -> (r: u128)
    ensures
        r == char_bytes(c),
{
    let u = c as u32;
    if u < 0x80 {
        1
    } else if u < 0x800 {
        2
    } else if u < 0x10000 {
        3
    } else {
        4
    }
}

/// The length in bytes of the UTF-8 encoding.
pub fn blen_vec(s: &Vec<char>) -> (r: u128)
    ensures
        r == blen(s@),
{
    let mut acc: u128 = 0;
    let mut i: usize = 0;
    while i < s.len()
        invariant
            i <= s.len(),
            acc == blen(s@.take(i as int)),
            acc <= 4 * i,
        decreases s.len() - i,
    {
        assert(s@.take(i + 1).drop_last() =~= s@.take(i as int));
        acc = acc + char_bytes_exec(s[i]);
        i += 1;
    }
    assert(s@.take(i as int) =~= s@);
    acc
}

/// The number of characters of `s` whose encoding takes exactly `b` bytes,
/// when `b` falls on a character boundary.
pub open spec fn chars_in_bytes(s: Seq<char>, b: int) -> Option<int>
    decreases s.len(),
{
    if b == 0 {
        Some(0)
    } else if s.len() == 0 || b < 0 {
        None
    } else if b < char_bytes(s[0]) {
        None
    } else {
        match chars_in_bytes(s.drop_first(), b - char_bytes(s[0])) {
            Some(k) => Some(k + 1),
            None => None,
        }
    }
}

pub proof fn lemma_chars_in_bytes(s: Seq<char>, b: int)
    ensures
        chars_in_bytes(s, b) matches Some(k) ==> 0 <= k <= s.len() && blen(s.take(k)) == b,
    decreases s.len(),
{
    if b != 0 && !(s.len() == 0 || b < 0) && !(b < char_bytes(s[0])) {
        let t = s.drop_first();
        lemma_chars_in_bytes(t, b - char_bytes(s[0]));
        if let Some(k) = chars_in_bytes(t, b - char_bytes(s[0])) {
            assert(s.take(k + 1) =~= seq![s[0]] + t.take(k));
            lemma_blen_append(seq![s[0]], t.take(k));
            assert(seq![s[0]].drop_last() =~= Seq::<char>::empty());
            assert(blen(Seq::<char>::empty()) == 0);
            assert(blen(seq![s[0]]) == char_bytes(s[0]));
        }
    } else if b == 0 {
        assert(s.take(0) =~= Seq::<char>::empty());
        assert(blen(Seq::<char>::empty()) == 0);
    }
}

/// The character index of byte offset `b`, when it is a character boundary.
pub fn chars_in_bytes_exec(s: &Vec<char>, b: u128) -> (r: Option<usize>)
    ensures
        r matches Some(k) ==> chars_in_bytes(s@, b as int) == Some(k as int),
        r is None ==> chars_in_bytes(s@, b as int) is None,
{
    let mut i: usize = 0;
    let mut rem: u128 = b;
    assert(s@.skip(0) =~= s@);
    while rem > 0
        invariant
            i <= s.len(),
            rem <= b,
            chars_in_bytes(s@, b as int) == match chars_in_bytes(s@.skip(i as int), rem as int) {
                Some(k) => Some(k + i),
                None => None,
            },
        decreases rem,
    {
        if i >= s.len() {
            return None;
        }
        let w = char_bytes_exec(s[i]);
        if rem < w {
            return None;
        }
        assert(s@.skip(i as int).drop_first() =~= s@.skip(i + 1));
        rem = rem - w;
        i += 1;
    }
    Some(i)
}

// ---------------------------------------------------------------------------
// CSS colors
// ---------------------------------------------------------------------------

/// `u8::from_str_radix(s, 16)`.
pub open spec fn hex_u8(s: Seq<char>) -> Option<u8> {
    match parse_uint(s, 16, 255) {
        Some(n) => Some(n as u8),
        None => None,
    }
}

/// `s.parse::<u8>()`.
pub open spec fn dec_u8(s: Seq<char>) -> Option<u8> {
    match parse_uint(s, 10, 255) {
        Some(n) => Some(n as u8),
        None => None,
    }
}

fn hex_u8_vec(s: &Vec<char>) -> (r: Option<u8>)
    ensures
        r == hex_u8(s@),
{
    match parse_uint_vec(s, 16, 255) {
        Some(n) => Some(n as u8),
        None => None,
    }
}

fn dec_u8_vec(s: &Vec<char>) -> (r: Option<u8>)
    ensures
        r == dec_u8(s@),
{
    match parse_uint_vec(s, 10, 255) {
        Some(n) => Some(n as u8),
        None => None,
    }
}

pub open spec fn twice(s: Seq<char>) -> Seq<char> {
    s + s
}

/// `#rrggbb`: three byte ranges of two hex digits each.
pub open spec fn hex6(hex: Seq<char>) -> Option<Color> {
    let k2 = chars_in_bytes(hex, 2).unwrap();
    let k4 = chars_in_bytes(hex, 4).unwrap();
    match hex_u8(hex.take(k2)) {
        Some(r) => match hex_u8(hex.subrange(k2, k4)) {
            Some(g) => match hex_u8(hex.skip(k4)) {
                Some(b) => Some(Color::Rgb(r, g, b)),
                None => None,
            },
            None => None,
        },
        None => None,
    }
}

/// `#rgb`: each digit doubled.
pub open spec fn hex3(hex: Seq<char>) -> Option<Color> {
    let k1 = chars_in_bytes(hex, 1).unwrap();
    let k2 = chars_in_bytes(hex, 2).unwrap();
    match hex_u8(twice(hex.take(k1))) {
        Some(r) => match hex_u8(twice(hex.subrange(k1, k2))) {
            Some(g) => match hex_u8(twice(hex.skip(k2))) {
                Some(b) => Some(Color::Rgb(r, g, b)),
                None => None,
            },
            None => None,
        },
        None => None,
    }
}

/// The byte slicing of a `#` color stays on character boundaries.
pub open spec fn hex_ok(hex: Seq<char>) -> bool {
    if blen(hex) == 6 {
        chars_in_bytes(hex, 2) is Some && (hex_u8(hex.take(chars_in_bytes(hex, 2).unwrap()))
            is None || chars_in_bytes(hex, 4) is Some)
    } else if blen(hex) == 3 {
        chars_in_bytes(hex, 1) is Some && (hex_u8(
            twice(hex.take(chars_in_bytes(hex, 1).unwrap())),
        ) is None || chars_in_bytes(hex, 2) is Some)
    } else {
        true
    }
}

/// `rgb(r, g, b)` and the named colors.
pub open spec fn css_rgb_or_name(t: Seq<char>) -> Option<Color> {
    let parts = split(t.subrange(4, t.len() - 1), ',');
    if starts_with(t, "rgb("@) && ends_with(t, ")"@) && parts.len() == 3 {
        match dec_u8(trim(parts[0])) {
            Some(r) => match dec_u8(trim(parts[1])) {
                Some(g) => match dec_u8(trim(parts[2])) {
                    Some(b) => Some(Color::Rgb(r, g, b)),
                    None => None,
                },
                None => None,
            },
            None => None,
        }
    } else {
        let l = lowercase(t);
        if l == "white"@ {
            Some(Color::White)
        } else if l == "black"@ {
            Some(Color::Black)
        } else if l == "red"@ {
            Some(Color::Red)
        } else if l == "green"@ {
            Some(Color::Green)
        } else if l == "blue"@ {
            Some(Color::Blue)
        } else if l == "yellow"@ {
            Some(Color::Yellow)
        } else if l == "cyan"@ {
            Some(Color::Cyan)
        } else if l == "magenta"@ {
            Some(Color::Magenta)
        } else if l == "gray"@ || l == "grey"@ {
            Some(Color::Gray)
        } else {
            None
        }
    }
}

/// A CSS color: `#rrggbb`, `#rgb`, `rgb(r, g, b)` or a basic color name.
pub open spec fn css_color(color: Seq<char>) -> Option<Color> {
    let t = trim(color);
    let hex = trim(t.skip(1));
    if starts_with(t, "#"@) && blen(hex) == 6 {
        hex6(hex)
    } else if starts_with(t, "#"@) && blen(hex) == 3 {
        hex3(hex)
    } else {
        css_rgb_or_name(t)
    }
}

/// Colors whose parsing does not slice inside a character.
pub open spec fn css_ok(color: Seq<char>) -> bool {
    let t = trim(color);
    starts_with(t, "#"@) ==> hex_ok(trim(t.skip(1)))
}

fn hex6_exec(hex: &Vec<char>) -> (r: Option<Color>)
    requires
        blen(hex@) == 6,
        hex_ok(hex@),
    ensures
        r == hex6(hex@),
{
    let k2 = chars_in_bytes_exec(hex, 2).unwrap();
    proof {
        lemma_chars_in_bytes(hex@, 2);
        lemma_blen_bound(hex@);
    }
    let r = match hex_u8_vec(&slice(hex, 0, k2)) {
        Some(r) => r,
        None => return None,
    };
    let k4 = chars_in_bytes_exec(hex, 4).unwrap();
    proof {
        lemma_chars_in_bytes(hex@, 4);
        lemma_blen_append(hex@.take(k2 as int), hex@.subrange(k2 as int, hex@.len() as int));
        assert(hex@.take(k2 as int) + hex@.subrange(k2 as int, hex@.len() as int) =~= hex@);
        lemma_blen_append(hex@.take(k4 as int), hex@.subrange(k4 as int, hex@.len() as int));
        assert(hex@.take(k4 as int) + hex@.subrange(k4 as int, hex@.len() as int) =~= hex@);
        if k4 < k2 {
            lemma_blen_append(hex@.take(k4 as int), hex@.subrange(k4 as int, k2 as int));
            assert(hex@.take(k4 as int) + hex@.subrange(k4 as int, k2 as int) =~= hex@.take(
                k2 as int,
            ));
            lemma_blen_bound(hex@.subrange(k4 as int, k2 as int));
        }
    }
    let g = match hex_u8_vec(&slice(hex, k2, k4)) {
        Some(g) => g,
        None => return None,
    };
    let b = match hex_u8_vec(&slice(hex, k4, hex.len())) {
        Some(b) => b,
        None => return None,
    };
    Some(Color::Rgb(r, g, b))
}

fn twice_vec(s: &Vec<char>) -> (r: Vec<char>)
    ensures
        r@ == twice(s@),
{
    let mut r = slice(s, 0, s.len());
    crate::text::append_vec(&mut r, s);
    assert(s@.subrange(0, s@.len() as int) =~= s@);
    r
}

fn hex3_exec(hex: &Vec<char>) -> (r: Option<Color>)
    requires
        blen(hex@) == 3,
        hex_ok(hex@),
    ensures
        r == hex3(hex@),
{
    let k1 = chars_in_bytes_exec(hex, 1).unwrap();
    proof {
        lemma_chars_in_bytes(hex@, 1);
        lemma_blen_bound(hex@);
    }
    let r = match hex_u8_vec(&twice_vec(&slice(hex, 0, k1))) {
        Some(r) => r,
        None => return None,
    };
    let k2 = chars_in_bytes_exec(hex, 2).unwrap();
    proof {
        lemma_chars_in_bytes(hex@, 2);
        lemma_blen_append(hex@.take(k1 as int), hex@.subrange(k1 as int, hex@.len() as int));
        assert(hex@.take(k1 as int) + hex@.subrange(k1 as int, hex@.len() as int) =~= hex@);
        lemma_blen_append(hex@.take(k2 as int), hex@.subrange(k2 as int, hex@.len() as int));
        assert(hex@.take(k2 as int) + hex@.subrange(k2 as int, hex@.len() as int) =~= hex@);
        if k2 < k1 {
            lemma_blen_append(hex@.take(k2 as int), hex@.subrange(k2 as int, k1 as int));
            assert(hex@.take(k2 as int) + hex@.subrange(k2 as int, k1 as int) =~= hex@.take(
                k1 as int,
            ));
            lemma_blen_bound(hex@.subrange(k2 as int, k1 as int));
        }
    }
    let g = match hex_u8_vec(&twice_vec(&slice(hex, k1, k2))) {
        Some(g) => g,
        None => return None,
    };
    let b = match hex_u8_vec(&twice_vec(&slice(hex, k2, hex.len()))) {
        Some(b) => b,
        None => return None,
    };
    Some(Color::Rgb(r, g, b))
}

fn css_rgb_or_name_exec(t: &Vec<char>) -> (r: Option<Color>)
    ensures
        r == css_rgb_or_name(t@),
{
    if starts_with_str(t, "rgb(") && ends_with_str(t, ")") {
        proof {
            reveal_strlit("rgb(");
            reveal_strlit(")");
            assert(t@.take(4) == "rgb("@);
            assert(t@.take(4)[3] == t@[3]);
            assert(t@.skip(t@.len() - 1) == ")"@);
            assert(t@.skip(t@.len() - 1)[0] == t@[t@.len() - 1]);
            assert(t@.len() >= 5);
        }
        let inner = slice(t, 4, t.len() - 1);
        let parts = split_vec(&inner, ',');
        if parts.len() == 3 {
            assert(vv(parts@)[0] == parts@[0]@);
            assert(vv(parts@)[1] == parts@[1]@);
            assert(vv(parts@)[2] == parts@[2]@);
            let r = match dec_u8_vec(&trim_vec(&parts[0])) {
                Some(r) => r,
                None => return None,
            };
            let g = match dec_u8_vec(&trim_vec(&parts[1])) {
                Some(g) => g,
                None => return None,
            };
            let b = match dec_u8_vec(&trim_vec(&parts[2])) {
                Some(b) => b,
                None => return None,
            };
            return Some(Color::Rgb(r, g, b));
        }
    }
    let l = to_lowercase(t);
    if eq_str(&l, "white") {
        Some(Color::White)
    } else if eq_str(&l, "black") {
        Some(Color::Black)
    } else if eq_str(&l, "red") {
        Some(Color::Red)
    } else if eq_str(&l, "green") {
        Some(Color::Green)
    } else if eq_str(&l, "blue") {
        Some(Color::Blue)
    } else if eq_str(&l, "yellow") {
        Some(Color::Yellow)
    } else if eq_str(&l, "cyan") {
        Some(Color::Cyan)
    } else if eq_str(&l, "magenta") {
        Some(Color::Magenta)
    } else if eq_str(&l, "gray") || eq_str(&l, "grey") {
        Some(Color::Gray)
    } else {
        None
    }
}

/// Parses a CSS color: `#rrggbb`, `#rgb`, `rgb(r, g, b)` or a basic color
/// name (case-insensitive).
pub fn parse_css_color(color: &Vec<char>) -> (r: Option<Color>)
    requires
        css_ok(color@),
    ensures
        r == css_color(color@),
{
    let t = trim_vec(color);
    if starts_with_str(&t, "#") {
        proof {
            reveal_strlit("#");
        }
        let hex = trim_vec(&slice(&t, 1, t.len()));
        let n = blen_vec(&hex);
        if n == 6 {
            return hex6_exec(&hex);
        }
        if n == 3 {
            return hex3_exec(&hex);
        }
    }
    css_rgb_or_name_exec(&t)
}

fn hex_ok_check(hex: &Vec<char>) -> (r: bool)
    ensures
        r == hex_ok(hex@),
{
    let n = blen_vec(hex);
    proof {
        lemma_blen_bound(hex@);
    }
    if n == 6 {
        match chars_in_bytes_exec(hex, 2) {
            None => false,
            Some(k2) => {
                proof {
                    lemma_chars_in_bytes(hex@, 2);
                }
                match hex_u8_vec(&slice(hex, 0, k2)) {
                    None => true,
                    Some(_) => chars_in_bytes_exec(hex, 4).is_some(),
                }
            },
        }
    } else if n == 3 {
        match chars_in_bytes_exec(hex, 1) {
            None => false,
            Some(k1) => {
                proof {
                    lemma_chars_in_bytes(hex@, 1);
                }
                match hex_u8_vec(&twice_vec(&slice(hex, 0, k1))) {
                    None => true,
                    Some(_) => chars_in_bytes_exec(hex, 2).is_some(),
                }
            },
        }
    } else {
        true
    }
}

/// Whether parsing the color slices only on character boundaries.
pub fn css_ok_check(color: &Vec<char>) -> (r: bool)
    ensures
        r == css_ok(color@),
{
    let t = trim_vec(color);
    if starts_with_str(&t, "#") {
        proof {
            reveal_strlit("#");
        }
        let hex = trim_vec(&slice(&t, 1, t.len()));
        hex_ok_check(&hex)
    } else {
        true
    }
}

/// A `#rrggbb` color only.
pub open spec fn simple_color(color: Seq<char>) -> Option<Color> {
    let t = trim(color);
    let hex = t.skip(1);
    if starts_with(t, "#"@) && blen(hex) == 6 {
        hex6(hex)
    } else {
        None
    }
}

pub open spec fn simple_color_ok(color: Seq<char>) -> bool {
    let t = trim(color);
    starts_with(t, "#"@) && blen(t.skip(1)) == 6 ==> hex_ok(t.skip(1))
}

/// Whether parsing a `#rrggbb` color slices only on character boundaries.
pub fn simple_color_ok_check(color: &Vec<char>) -> (r: bool)
    ensures
        r == simple_color_ok(color@),
{
    let t = trim_vec(color);
    if starts_with_str(&t, "#") {
        proof {
            reveal_strlit("#");
        }
        let hex = slice(&t, 1, t.len());
        if blen_vec(&hex) == 6 {
            return hex_ok_check(&hex);
        }
    }
    true
}

/// Parses a `#rrggbb` color.
pub fn parse_css_color_simple(color: &Vec<char>) -> (r: Option<Color>)
    requires
        simple_color_ok(color@),
    ensures
        r == simple_color(color@),
{
    let t = trim_vec(color);
    if starts_with_str(&t, "#") {
        proof {
            reveal_strlit("#");
        }
        let hex = slice(&t, 1, t.len());
        if blen_vec(&hex) == 6 {
            return hex6_exec(&hex);
        }
    }
    None
}

} // verus!
