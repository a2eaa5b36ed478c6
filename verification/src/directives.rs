//! Marp directives: front-matter settings, image sizing words, heading
//! dividers, number parsing and the choice of a slide's type.
use vstd::prelude::*;
use crate::slide::{
    DeckSettings, Element, ImageModel, ImageSpec, SettingsModel, SlideElement, SlideType, elems,
    opt_str, strs,
};
use crate::text::{
    CharSet, chars_eq, eq_str, find, find_vec, lemma_find_bound, lines, lines_vec, lowercase,
    slice, split, split_trim, split_trim_vec, split_vec, starts_with_vec, string_of,
    strip_prefix, strip_prefix_str, to_lowercase, trim, trim_end_set, trim_end_set_vec, trim_set,
    trim_set_vec, trim_start_set, trim_start_set_vec, trim_vec, vv, words, words_vec,
};

verus! {

broadcast use crate::slide::group_views;

// ---------------------------------------------------------------------------
// Unsigned integers (`str::parse::<usize>`, `u8::from_str_radix`)
// ---------------------------------------------------------------------------

/// Value of a digit in radix 10 or 16.
pub open spec fn digit_val(c: char, radix: nat) -> Option<nat> {
    let u = c as u32;
    if 0x30 <= u && u <= 0x39 {
        Some((u - 0x30) as nat)
    } else if radix == 16 && 0x61 <= u && u <= 0x66 {
        Some((u - 0x61 + 10) as nat)
    } else if radix == 16 && 0x41 <= u && u <= 0x46 {
        Some((u - 0x41 + 10) as nat)
    } else {
        None
    }
}

pub open spec fn all_digits(s: Seq<char>, radix: nat) -> bool {
    forall|i: int| 0 <= i < s.len() ==> (#[trigger] digit_val(s[i], radix)) is Some
}

pub open spec fn digits_value(s: Seq<char>, radix: nat) -> nat
    decreases s.len(),
{
    if s.len() == 0 {
        0
    } else {
        digits_value(s.drop_last(), radix) * radix + digit_val(s.last(), radix).unwrap()
    }
}

/// Rust's unsigned integer parsing: an optional `+`, then one or more digits
/// whose value is at most `max`.
pub open spec fn parse_uint(s: Seq<char>, radix: nat, max: nat) -> Option<nat> {
    let d = if s.len() > 0 && s[0] == '+' {
        s.skip(1)
    } else {
        s
    };
    if d.len() == 0 || !all_digits(d, radix) || digits_value(d, radix) > max {
        None
    } else {
        Some(digits_value(d, radix))
    }
}

/// `str::parse::<usize>`.
pub open spec fn parse_usize(s: Seq<char>) -> Option<usize> {
    match parse_uint(s, 10, usize::MAX as nat) {
        Some(n) => Some(n as usize),
        None => None,
    }
}

proof fn lemma_digits_value_mono(s: Seq<char>, radix: nat, i: int)
    requires
        0 <= i <= s.len(),
        radix >= 1,
        all_digits(s, radix),
    ensures
        digits_value(s.take(i), radix) <= digits_value(s, radix),
    decreases s.len() - i,
{
    if i < s.len() {
        let t = s.take(i + 1);
        assert(t.drop_last() =~= s.take(i));
        let v = digits_value(s.take(i), radix);
        let d = digit_val(s[i], radix).unwrap();
        assert(v * radix + d >= v) by (nonlinear_arith)
            requires
                radix >= 1,
        ;
        lemma_digits_value_mono(s, radix, i + 1);
    } else {
        assert(s.take(i) =~= s);
    }
}

fn digit_of(c: char, radix: u32) -> (r: Option<u32>)
    requires
        radix == 10 || radix == 16,
    ensures
        r matches Some(d) ==> digit_val(c, radix as nat) == Some(d as nat),
        r is None ==> digit_val(c, radix as nat) is None,
        r matches Some(d) ==> d < radix,
{
    let u = c as u32;
    if 0x30 <= u && u <= 0x39 {
        Some(u - 0x30)
    } else if radix == 16 && 0x61 <= u && u <= 0x66 {
        Some(u - 0x61 + 10)
    } else if radix == 16 && 0x41 <= u && u <= 0x46 {
        Some(u - 0x41 + 10)
    } else {
        None
    }
}

/// Parses an unsigned integer in radix 10 or 16 that is at most `max`.
pub fn parse_uint_vec(s: &Vec<char>, radix: u32, max: u64) -> (r: Option<u64>)
    requires
        radix == 10 || radix == 16,
    ensures
        r matches Some(n) ==> parse_uint(s@, radix as nat, max as nat) == Some(n as nat),
        r is None ==> parse_uint(s@, radix as nat, max as nat) is None,
{
    let start: usize = if s.len() > 0 && s[0] == '+' {
        1
    } else {
        0
    };
    let ghost d = if s@.len() > 0 && s@[0] == '+' {
        s@.skip(1)
    } else {
        s@
    };
    assert(d =~= s@.skip(start as int));
    if start >= s.len() {
        return None;
    }
    let mut acc: u128 = 0;
    let mut i: usize = start;
    while i < s.len()
        invariant
            start <= i <= s.len(),
            d =~= s@.skip(start as int),
            d == (if s@.len() > 0 && s@[0] == '+' {
                s@.skip(1)
            } else {
                s@
            }),
            radix == 10 || radix == 16,
            all_digits(d.take(i - start), radix as nat),
            acc as nat == digits_value(d.take(i - start), radix as nat),
            acc <= max,
        decreases s.len() - i,
    {
        let dv = digit_of(s[i], radix);
        match dv {
            None => {
                assert(d[i - start] == s@[i as int]);
                assert(!all_digits(d, radix as nat));
                return None;
            },
            Some(v) => {
                let ghost k = i - start;
                assert(d.take(k + 1).drop_last() =~= d.take(k));
                assert(d.take(k + 1).last() == s@[i as int]);
                assert(acc * (radix as u128) <= (max as u128) * 16) by (nonlinear_arith)
                    requires
                        acc <= max,
                        radix <= 16,
                ;
                let next = acc * (radix as u128) + (v as u128);
                assert(all_digits(d.take(k + 1), radix as nat)) by {
                    assert forall|j: int| 0 <= j < d.take(k + 1).len() implies (#[trigger] digit_val(
                        d.take(k + 1)[j],
                        radix as nat,
                    )) is Some by {
                        if j < k {
                            assert(d.take(k + 1)[j] == d.take(k)[j]);
                        }
                    }
                }
                if next > max as u128 {
                    proof {
                        if all_digits(d, radix as nat) {
                            lemma_digits_value_mono(d, radix as nat, k + 1);
                        }
                    }
                    return None;
                }
                acc = next;
                i += 1;
            },
        }
    }
    assert(d.take(i - start) =~= d);
    Some(acc as u64)
}

/// `str::parse::<usize>`.
pub fn parse_usize_vec(s: &Vec<char>) -> (r: Option<usize>)
    ensures
        r == parse_usize(s@),
{
    let max = usize::MAX as u64;
    match parse_uint_vec(s, 10, max) {
        Some(n) => Some(n as usize),
        None => None,
    }
}

// ---------------------------------------------------------------------------
// headingDivider
// ---------------------------------------------------------------------------

/// The numbers among comma-separated pieces, in order (`filter_map` of
/// `parse::<usize>` on each trimmed piece).
pub open spec fn numbers_of(parts: Seq<Seq<char>>) -> Seq<usize>
    decreases parts.len(),
{
    if parts.len() == 0 {
        seq![]
    } else {
        numbers_of(parts.drop_last()) + match parse_usize(trim(parts.last())) {
            Some(n) => seq![n],
            None => seq![],
        }
    }
}

/// `1..=n` collected.
pub open spec fn one_to(n: usize) -> Seq<usize> {
    Seq::new(n as nat, |i: int| (i + 1) as usize)
}

/// headingDivider: a single number `n` means levels `1..=n`; otherwise a
/// bracketed, comma-separated list of levels.
pub open spec fn heading_divider(value: Seq<char>) -> Option<Seq<usize>> {
    let t = trim(value);
    match parse_usize(t) {
        Some(n) => Some(one_to(n)),
        None => {
            let inner = trim_end_set(trim_start_set(t, CharSet::One('[')), CharSet::One(']'));
            let nums = numbers_of(split(inner, ','));
            if nums.len() > 0 {
                Some(nums)
            } else {
                None
            }
        },
    }
}

/// Parse headingDivider value: can be a single number or array like [1,2]
pub fn parse_heading_divider(value: &Vec<char>) -> (r: Option<Vec<usize>>)
    ensures
        match r {
            Some(v) => heading_divider(value@) == Some(v@),
            None => heading_divider(value@) is None,
        },
{
    let t = trim_vec(value);
    if let Some(n) = parse_usize_vec(&t) {
        let mut v: Vec<usize> = Vec::new();
        let mut i: usize = 0;
        while i < n
            invariant
                i <= n,
                v@ == one_to(i),
            decreases n - i,
        {
            i += 1;
            v.push(i);
            assert(v@ =~= one_to(i));
        }
        return Some(v);
    }
    let a = trim_start_set_vec(&t, CharSet::One('['));
    let inner = trim_end_set_vec(&a, CharSet::One(']'));
    let parts = split_vec(&inner, ',');
    let mut nums: Vec<usize> = Vec::new();
    let mut i: usize = 0;
    while i < parts.len()
        invariant
            i <= parts.len(),
            vv(parts@) == split(inner@, ','),
            nums@ == numbers_of(vv(parts@).take(i as int)),
        decreases parts.len() - i,
    {
        let p = trim_vec(&parts[i]);
        assert(vv(parts@).take(i + 1).drop_last() =~= vv(parts@).take(i as int));
        assert(vv(parts@)[i as int] == parts@[i as int]@);
        if let Some(n) = parse_usize_vec(&p) {
            nums.push(n);
            assert(nums@ =~= numbers_of(vv(parts@).take(i + 1)));
        } else {
            assert(nums@ =~= numbers_of(vv(parts@).take(i + 1)));
        }
        i += 1;
    }
    assert(vv(parts@).take(i as int) =~= vv(parts@));
    if nums.len() > 0 {
        Some(nums)
    } else {
        None
    }
}

// ---------------------------------------------------------------------------
// Image sizing words
// ---------------------------------------------------------------------------

/// Applies one lowercased word of an image's alt text.
pub open spec fn image_word(m: ImageModel, lower: Seq<char>) -> ImageModel {
    if lower == "bg"@ {
        ImageModel { is_background: true, ..m }
    } else if lower == "contain"@ || lower == "cover"@ || lower == "fit"@ || lower == "auto"@ {
        ImageModel { bg_size: Some(lower), ..m }
    } else if lower == "left"@ || lower == "right"@ || lower == "vertical"@ {
        ImageModel { bg_direction: Some(lower), ..m }
    } else if strip_prefix(lower, "w:"@) is Some {
        ImageModel { width: strip_prefix(lower, "w:"@), ..m }
    } else if strip_prefix(lower, "width:"@) is Some {
        ImageModel { width: strip_prefix(lower, "width:"@), ..m }
    } else if strip_prefix(lower, "h:"@) is Some {
        ImageModel { height: strip_prefix(lower, "h:"@), ..m }
    } else if strip_prefix(lower, "height:"@) is Some {
        ImageModel { height: strip_prefix(lower, "height:"@), ..m }
    } else {
        m
    }
}

pub open spec fn plain_image(url: Seq<char>) -> ImageModel {
    ImageModel {
        url,
        width: None,
        height: None,
        position: None,
        is_background: false,
        bg_size: None,
        bg_direction: None,
    }
}

/// Applies the lowercased words of an alt text, in order.
pub open spec fn image_words(m: ImageModel, parts: Seq<Seq<char>>) -> ImageModel
    decreases parts.len(),
{
    if parts.len() == 0 {
        m
    } else {
        image_word(image_words(m, parts.drop_last()), lowercase(parts.last()))
    }
}

/// The image described by a URL and the Marp words of its alt text.
pub open spec fn image_spec(url: Seq<char>, alt: Seq<char>) -> ImageModel {
    image_words(plain_image(url), words(alt))
}

/// Applies one lowercased alt-text word (`bg`, `fit`, `left`, `w:200px`, ...)
/// to an image.
pub fn apply_image_word(spec: &mut ImageSpec, lower: &Vec<char>)
    ensures
        final(spec)@ == image_word(old(spec)@, lower@),
{
    if eq_str(lower, "bg") {
        spec.is_background = true;
    } else if eq_str(lower, "contain") || eq_str(lower, "cover") || eq_str(lower, "fit") || eq_str(
        lower,
        "auto",
    ) {
        spec.bg_size = Some(string_of(lower));
    } else if eq_str(lower, "left") || eq_str(lower, "right") || eq_str(lower, "vertical") {
        spec.bg_direction = Some(string_of(lower));
    } else if let Some(w) = strip_prefix_str(lower, "w:") {
        spec.width = Some(string_of(&w));
    } else if let Some(w) = strip_prefix_str(lower, "width:") {
        spec.width = Some(string_of(&w));
    } else if let Some(h) = strip_prefix_str(lower, "h:") {
        spec.height = Some(string_of(&h));
    } else if let Some(h) = strip_prefix_str(lower, "height:") {
        spec.height = Some(string_of(&h));
    }
}

/// Parse Marp image sizing directives from alt text.
/// Examples: "bg", "bg fit", "bg left", "width:200px", "w:50% h:300px"
pub fn parse_image_spec(url: &Vec<char>, alt_text: &Vec<char>) -> (r: ImageSpec)
    ensures
        r@ == image_spec(url@, alt_text@),
{
    let mut spec = ImageSpec {
        url: string_of(url),
        width: None,
        height: None,
        position: None,
        is_background: false,
        bg_size: None,
        bg_direction: None,
    };
    let parts = words_vec(alt_text);
    let mut i: usize = 0;
    while i < parts.len()
        invariant
            i <= parts.len(),
            vv(parts@) == words(alt_text@),
            spec@ == image_words(plain_image(url@), vv(parts@).take(i as int)),
        decreases parts.len() - i,
    {
        let lower = to_lowercase(&parts[i]);
        apply_image_word(&mut spec, &lower);
        assert(vv(parts@).take(i + 1).drop_last() =~= vv(parts@).take(i as int));
        assert(vv(parts@)[i as int] == parts@[i as int]@);
        i += 1;
    }
    assert(vv(parts@).take(i as int) =~= vv(parts@));
    spec
}

// ---------------------------------------------------------------------------
// Slide type
// ---------------------------------------------------------------------------

pub open spec fn has_code(c: Seq<Element>) -> bool {
    exists|i: int| 0 <= i < c.len() && #[trigger] c[i] is CodeBlock
}

pub open spec fn is_ascii_lang(l: Seq<char>) -> bool {
    l == "ascii"@ || l == "art"@
}

pub open spec fn has_ascii_art(c: Seq<Element>) -> bool {
    exists|i: int|
        0 <= i < c.len() && #[trigger] c[i] is CodeBlock && is_ascii_lang(c[i]->CodeBlock_0)
}

/// A slide with a title and nothing else is a title slide; one with an ASCII
/// art block is ASCII art; one with another code block is a code slide.
pub open spec fn slide_kind(has_title: bool, content: Seq<Element>) -> SlideType {
    if has_title && content.len() == 0 {
        SlideType::Title
    } else if has_ascii_art(content) {
        SlideType::AsciiArt
    } else if has_code(content) {
        SlideType::Code
    } else {
        SlideType::Content
    }
}

pub fn is_ascii_lang_vec(l: &Vec<char>) -> (r: bool)
    ensures
        r == is_ascii_lang(l@),
{
    eq_str(l, "ascii") || eq_str(l, "art")
}

pub fn determine_slide_type(has_title: bool, content: &Vec<SlideElement>) -> (r: SlideType)
    ensures
        r == slide_kind(has_title, elems(content@)),
{
    if has_title && content.len() == 0 {
        return SlideType::Title;
    }
    let mut code = false;
    let mut i: usize = 0;
    while i < content.len()
        invariant
            i <= content.len(),
            forall|j: int| 0 <= j < i ==> !(#[trigger] elems(content@)[j] is CodeBlock && is_ascii_lang(
                elems(content@)[j]->CodeBlock_0,
            )),
            code == exists|j: int| 0 <= j < i && #[trigger] elems(content@)[j] is CodeBlock,
        decreases content.len() - i,
    {
        assert(elems(content@)[i as int] == content@[i as int]@);
        match &content[i] {
            SlideElement::CodeBlock(lang, _) => {
                let l = chars_of_string(lang);
                if is_ascii_lang_vec(&l) {
                    return SlideType::AsciiArt;
                }
                code = true;
            },
            _ => {},
        }
        i += 1;
    }
    if code {
        SlideType::Code
    } else {
        SlideType::Content
    }
}

pub fn chars_of_string(s: &String) -> (r: Vec<char>)
    ensures
        r@ == s@,
{
    crate::text::chars_of(s.as_str())
}

// ---------------------------------------------------------------------------
// Front matter
// ---------------------------------------------------------------------------

pub open spec fn default_settings() -> SettingsModel {
    SettingsModel {
        theme: None,
        paginate: false,
        class: seq![],
        background_color: None,
        color: None,
        size: None,
        heading_divider: None,
        header: None,
        footer: None,
    }
}

impl Default for DeckSettings {
    fn default() -> (r: Self)
        ensures
            r@ == default_settings(),
    {
        let r = DeckSettings {
            theme: None,
            paginate: false,
            class: Vec::new(),
            background_color: None,
            color: None,
            size: None,
            heading_divider: None,
            header: None,
            footer: None,
        };
        assert(r@ =~= default_settings());
        r
    }
}

/// Applies one `key: value` pair of the front matter.
pub open spec fn apply_setting(st: SettingsModel, key: Seq<char>, value: Seq<char>) -> SettingsModel {
    if key == "theme"@ {
        SettingsModel { theme: Some(value), ..st }
    } else if key == "paginate"@ {
        SettingsModel { paginate: value == "true"@, ..st }
    } else if key == "class"@ {
        SettingsModel { class: split_trim(value, ','), ..st }
    } else if key == "backgroundColor"@ || key == "background_color"@ {
        SettingsModel { background_color: Some(value), ..st }
    } else if key == "color"@ {
        SettingsModel { color: Some(value), ..st }
    } else if key == "size"@ {
        SettingsModel { size: Some(value), ..st }
    } else if key == "header"@ {
        SettingsModel { header: Some(value), ..st }
    } else if key == "footer"@ {
        SettingsModel { footer: Some(value), ..st }
    } else if key == "headingDivider"@ || key == "heading_divider"@ {
        SettingsModel { heading_divider: heading_divider(value), ..st }
    } else {
        st
    }
}

/// `str::split_once` on a single character.
pub open spec fn split_once(s: Seq<char>, c: char) -> Option<(Seq<char>, Seq<char>)> {
    match find(s, seq![c]) {
        Some(k) => Some((s.take(k), s.skip(k + 1))),
        None => None,
    }
}

/// A front-matter value: trimmed, then stripped of single and then double
/// quotes.
pub open spec fn fm_value(v: Seq<char>) -> Seq<char> {
    trim_set(trim_set(trim(v), CharSet::One('\'')), CharSet::One('"'))
}

/// One front-matter line: blank lines and `#` comments are skipped, lines
/// without a colon are ignored.
pub open spec fn front_matter_line(st: SettingsModel, line: Seq<char>) -> SettingsModel {
    let l = trim(line);
    if l.len() == 0 || l[0] == '#' {
        st
    } else {
        match split_once(l, ':') {
            Some((k, v)) => apply_setting(st, trim(k), fm_value(v)),
            None => st,
        }
    }
}

pub open spec fn front_matter_lines(st: SettingsModel, ls: Seq<Seq<char>>) -> SettingsModel
    decreases ls.len(),
{
    if ls.len() == 0 {
        st
    } else {
        front_matter_line(front_matter_lines(st, ls.drop_last()), ls.last())
    }
}

/// The settings after reading a YAML front matter.
pub open spec fn front_matter(st: SettingsModel, yaml: Seq<char>) -> SettingsModel {
    front_matter_lines(st, lines(yaml))
}

fn copy_str(v: &Vec<char>) -> (r: Option<String>)
    ensures
        r matches Some(s) && s@ == v@,
{
    Some(string_of(v))
}

pub fn strings_of(v: &Vec<Vec<char>>) -> (r: Vec<String>)
    ensures
        strs(r@) == vv(v@),
{
    let mut r: Vec<String> = Vec::new();
    let mut i: usize = 0;
    while i < v.len()
        invariant
            i <= v.len(),
            strs(r@) == vv(v@).take(i as int),
        decreases v.len() - i,
    {
        let ghost old_r = r@;
        let st = string_of(&v[i]);
        r.push(st);
        assert(strs(r@) =~= vv(v@).take(i + 1)) by {
            assert(strs(r@) =~= strs(old_r).push(st@));
            assert(strs(old_r) =~= vv(v@).take(i as int));
            assert(vv(v@)[i as int] == v@[i as int]@);
        }
        i += 1;
    }
    assert(vv(v@).take(i as int) =~= vv(v@));
    r
}

/// Applies one `key: value` pair of the front matter.
pub fn apply_setting_exec(st: &mut DeckSettings, key: &Vec<char>, value: &Vec<char>)
    ensures
        final(st)@ == apply_setting(old(st)@, key@, value@),
{
    if eq_str(key, "theme") {
        st.theme = copy_str(value);
    } else if eq_str(key, "paginate") {
        st.paginate = eq_str(value, "true");
    } else if eq_str(key, "class") {
        let parts = split_trim_vec(value, ',');
        st.class = strings_of(&parts);
    } else if eq_str(key, "backgroundColor") || eq_str(key, "background_color") {
        st.background_color = copy_str(value);
    } else if eq_str(key, "color") {
        st.color = copy_str(value);
    } else if eq_str(key, "size") {
        st.size = copy_str(value);
    } else if eq_str(key, "header") {
        st.header = copy_str(value);
    } else if eq_str(key, "footer") {
        st.footer = copy_str(value);
    } else if eq_str(key, "headingDivider") || eq_str(key, "heading_divider") {
        st.heading_divider = parse_heading_divider(value);
    }
    assert(final(st)@ =~= apply_setting(old(st)@, key@, value@));
}

/// One front-matter line.
pub fn front_matter_line_exec(st: &mut DeckSettings, line: &Vec<char>)
    ensures
        final(st)@ == front_matter_line(old(st)@, line@),
{
    let l = trim_vec(line);
    if l.len() == 0 || l[0] == '#' {
        return;
    }
    let colon: Vec<char> = vec![':'];
    assert(colon@ =~= seq![':']);
    proof {
        lemma_find_bound(l@, colon@);
    }
    match find_vec(&l, &colon) {
        Some(k) => {
            let key = slice(&l, 0, k);
            let raw = slice(&l, k + 1, l.len());
            let key = trim_vec(&key);
            let v = trim_vec(&raw);
            let v = trim_set_vec(&v, CharSet::One('\''));
            let v = trim_set_vec(&v, CharSet::One('"'));
            apply_setting_exec(st, &key, &v);
        },
        None => {},
    }
}

/// Reads a YAML front matter into the settings.
pub fn front_matter_exec(st: &mut DeckSettings, yaml: &Vec<char>)
    ensures
        final(st)@ == front_matter(old(st)@, yaml@),
{
    let ls = lines_vec(yaml);
    let ghost st0 = st@;
    let mut i: usize = 0;
    while i < ls.len()
        invariant
            i <= ls.len(),
            vv(ls@) == lines(yaml@),
            st@ == front_matter_lines(st0, vv(ls@).take(i as int)),
        decreases ls.len() - i,
    {
        front_matter_line_exec(st, &ls[i]);
        assert(vv(ls@).take(i + 1).drop_last() =~= vv(ls@).take(i as int));
        assert(vv(ls@)[i as int] == ls@[i as int]@);
        i += 1;
    }
    assert(vv(ls@).take(i as int) =~= vv(ls@));
}

} // verus!
