//! Plain text of inline content, and copies of slide values that keep
//! their views.
use vstd::prelude::*;
use crate::slide::{
    DeckSettings, ImageSpec, InlineContent, Slide, SlideElement, elems, inls, inls2, inls3,
    lemma_inls_push, opt_str, plain, plain_seq, slides_view, strs,
};
use crate::text::{append_vec, chars_of, string_of};

verus! {

broadcast use crate::slide::group_views;

/// Plain text of a run of inline nodes, appended to `out`.
fn push_plain_seq(v: &[InlineContent], out: &mut Vec<char>)
    ensures
        final(out)@ == old(out)@ + plain_seq(inls(v@)),
    decreases v@,
{
    let ghost o0 = out@;
    let mut i: usize = 0;
    while i < v.len()
        invariant
            i <= v.len(),
            out@ == o0 + plain_seq(inls(v@.take(i as int))),
        decreases v.len() - i,
    {
        assert(decreases_to!(v@ => v@[i as int]));
        push_plain(&v[i], out);
        proof {
            assert(v@.take(i + 1) =~= v@.take(i as int).push(v@[i as int]));
            lemma_inls_push(v@.take(i as int), v@[i as int]);
            assert(inls(v@.take(i + 1)).drop_last() =~= inls(v@.take(i as int)));
        }
        i += 1;
    }
    assert(v@.take(i as int) =~= v@);
}

/// Plain text of an inline node, appended to `out`.
fn push_plain(x: &InlineContent, out: &mut Vec<char>)
    ensures
        final(out)@ == old(out)@ + plain(x@),
    decreases x,
{
    match x {
        InlineContent::Text(t) => {
            let c = chars_of(t.as_str());
            append_vec(out, &c);
        },
        InlineContent::Bold(c) => {
            assert(inls(c@) =~= x@->Bold_0);
            push_plain_seq(c.as_slice(), out);
        },
        InlineContent::Italic(c) => {
            assert(inls(c@) =~= x@->Italic_0);
            push_plain_seq(c.as_slice(), out);
        },
        InlineContent::Strikethrough(c) => {
            assert(inls(c@) =~= x@->Strike_0);
            push_plain_seq(c.as_slice(), out);
        },
        InlineContent::Code(t) => {
            let c = chars_of(t.as_str());
            append_vec(out, &c);
        },
        InlineContent::Link { text, .. } => {
            assert(inls(text@) =~= x@->Link_0);
            push_plain_seq(text.as_slice(), out);
        },
        InlineContent::LineBreak => {
            out.push('\n');
        },
    }
}

impl InlineContent {
    /// Extract plain text content, stripping all formatting.
    pub fn plain_text(&self) -> (r: String)
        ensures
            r@ == plain(self@),
    {
        let mut out: Vec<char> = Vec::new();
        push_plain(self, &mut out);
        assert(out@ =~= plain(self@));
        string_of(&out)
    }
}

/// Plain text of a run of inline content, as characters.
pub fn plain_chars(inlines: &[InlineContent]) -> (r: Vec<char>)
    ensures
        r@ == plain_seq(inls(inlines@)),
{
    let mut out: Vec<char> = Vec::new();
    push_plain_seq(inlines, &mut out);
    assert(out@ =~= plain_seq(inls(inlines@)));
    out
}

/// Helper to get plain text from a run of inline content.
pub fn inlines_to_plain_text(inlines: &[InlineContent]) -> (r: String)
    ensures
        r@ == plain_seq(inls(inlines@)),
{
    let out = plain_chars(inlines);
    string_of(&out)
}


/// The plain text of two runs of inline content one after the other is the
/// plain text of the first followed by that of the second.
pub proof fn plain_text_concatenates(a: Seq<crate::slide::Inline>, b: Seq<crate::slide::Inline>)
    ensures
        plain_seq(a + b) == plain_seq(a) + plain_seq(b),
    decreases b.len(),
{
    if b.len() == 0 {
        assert(a + b =~= a);
        assert(plain_seq(a) + plain_seq(b) =~= plain_seq(a));
    } else {
        plain_text_concatenates(a, b.drop_last());
        assert((a + b).drop_last() =~= a + b.drop_last());
        assert((a + b).last() == b.last());
        assert(plain_seq(a) + plain_seq(b.drop_last()) + plain(b.last()) =~= plain_seq(a) + (
        plain_seq(b.drop_last()) + plain(b.last())));
    }
}

// ---------------------------------------------------------------------------
// Copies that keep the view
// ---------------------------------------------------------------------------

pub fn copy_string(s: &String) -> (r: String)
    ensures
        r@ == s@,
{
    s.clone()
}

pub fn copy_opt_string(s: &Option<String>) -> (r: Option<String>)
    ensures
        opt_str(r) == opt_str(*s),
{
    match s {
        Some(x) => Some(x.clone()),
        None => None,
    }
}

pub fn copy_strings(v: &Vec<String>) -> (r: Vec<String>)
    ensures
        strs(r@) == strs(v@),
{
    let mut r: Vec<String> = Vec::new();
    let mut i: usize = 0;
    while i < v.len()
        invariant
            i <= v.len(),
            strs(r@) == strs(v@).take(i as int),
        decreases v.len() - i,
    {
        let ghost old_r = r@;
        let x = v[i].clone();
        r.push(x);
        assert(strs(r@) =~= strs(old_r).push(x@));
        assert(strs(v@).take(i + 1) =~= strs(v@).take(i as int).push(strs(v@)[i as int]));
        i += 1;
    }
    assert(strs(v@).take(i as int) =~= strs(v@));
    r
}

fn copy_inline_seq(v: &Vec<InlineContent>) -> (r: Vec<InlineContent>)
    ensures
        inls(r@) == inls(v@),
    decreases v@,
{
    let mut r: Vec<InlineContent> = Vec::new();
    let mut i: usize = 0;
    while i < v.len()
        invariant
            i <= v.len(),
            inls(r@) == inls(v@).take(i as int),
        decreases v.len() - i,
    {
        assert(decreases_to!(v@ => v@[i as int]));
        let x = copy_inline(&v[i]);
        let ghost old_r = r@;
        r.push(x);
        proof {
            lemma_inls_push(old_r, x);
        }
        assert(inls(v@).take(i + 1) =~= inls(v@).take(i as int).push(inls(v@)[i as int]));
        i += 1;
    }
    assert(inls(v@).take(i as int) =~= inls(v@));
    r
}

/// A copy of an inline node with the same view.
pub fn copy_inline(x: &InlineContent) -> (r: InlineContent)
    ensures
        r@ == x@,
    decreases x,
{
    match x {
        InlineContent::Text(t) => InlineContent::Text(t.clone()),
        InlineContent::Bold(c) => {
            let d = copy_inline_seq(c);
            let r = InlineContent::Bold(d);
            assert(r@->Bold_0 =~= inls(d@));
            assert(x@->Bold_0 =~= inls(c@));
            r
        },
        InlineContent::Italic(c) => {
            let d = copy_inline_seq(c);
            let r = InlineContent::Italic(d);
            assert(r@->Italic_0 =~= inls(d@));
            assert(x@->Italic_0 =~= inls(c@));
            r
        },
        InlineContent::Strikethrough(c) => {
            let d = copy_inline_seq(c);
            let r = InlineContent::Strikethrough(d);
            assert(r@->Strike_0 =~= inls(d@));
            assert(x@->Strike_0 =~= inls(c@));
            r
        },
        InlineContent::Code(t) => InlineContent::Code(t.clone()),
        InlineContent::Link { text, url } => {
            let d = copy_inline_seq(text);
            let r = InlineContent::Link { text: d, url: url.clone() };
            assert(r@->Link_0 =~= inls(d@));
            assert(x@->Link_0 =~= inls(text@));
            r
        },
        InlineContent::LineBreak => InlineContent::LineBreak,
    }
}

/// A copy of a run of inline content with the same view.
pub fn copy_inlines(v: &Vec<InlineContent>) -> (r: Vec<InlineContent>)
    ensures
        inls(r@) == inls(v@),
{
    copy_inline_seq(v)
}

pub fn copy_inlines2(v: &Vec<Vec<InlineContent>>) -> (r: Vec<Vec<InlineContent>>)
    ensures
        inls2(r@) == inls2(v@),
{
    let mut r: Vec<Vec<InlineContent>> = Vec::new();
    let mut i: usize = 0;
    while i < v.len()
        invariant
            i <= v.len(),
            inls2(r@) == inls2(v@).take(i as int),
        decreases v.len() - i,
    {
        let x = copy_inlines(&v[i]);
        let ghost old_r = r@;
        r.push(x);
        assert(inls2(r@) =~= inls2(old_r).push(inls(x@)));
        assert(inls2(v@).take(i + 1) =~= inls2(v@).take(i as int).push(inls2(v@)[i as int]));
        i += 1;
    }
    assert(inls2(v@).take(i as int) =~= inls2(v@));
    r
}

pub fn copy_inlines3(v: &Vec<Vec<Vec<InlineContent>>>) -> (r: Vec<Vec<Vec<InlineContent>>>)
    ensures
        inls3(r@) == inls3(v@),
{
    let mut r: Vec<Vec<Vec<InlineContent>>> = Vec::new();
    let mut i: usize = 0;
    while i < v.len()
        invariant
            i <= v.len(),
            inls3(r@) == inls3(v@).take(i as int),
        decreases v.len() - i,
    {
        let x = copy_inlines2(&v[i]);
        let ghost old_r = r@;
        r.push(x);
        assert(inls3(r@) =~= inls3(old_r).push(inls2(x@)));
        assert(inls3(v@).take(i + 1) =~= inls3(v@).take(i as int).push(inls3(v@)[i as int]));
        i += 1;
    }
    assert(inls3(v@).take(i as int) =~= inls3(v@));
    r
}

pub fn copy_image(x: &ImageSpec) -> (r: ImageSpec)
    ensures
        r@ == x@,
{
    ImageSpec {
        url: x.url.clone(),
        width: copy_opt_string(&x.width),
        height: copy_opt_string(&x.height),
        position: copy_opt_string(&x.position),
        is_background: x.is_background,
        bg_size: copy_opt_string(&x.bg_size),
        bg_direction: copy_opt_string(&x.bg_direction),
    }
}

pub fn copy_element(x: &SlideElement) -> (r: SlideElement)
    ensures
        r@ == x@,
{
    match x {
        SlideElement::Heading(l, c) => SlideElement::Heading(*l, copy_inlines(c)),
        SlideElement::Paragraph(c) => SlideElement::Paragraph(copy_inlines(c)),
        SlideElement::CodeBlock(l, c) => SlideElement::CodeBlock(l.clone(), c.clone()),
        SlideElement::BulletList(items) => SlideElement::BulletList(copy_inlines2(items)),
        SlideElement::NumberedList(n, items) => SlideElement::NumberedList(*n, copy_inlines2(items)),
        SlideElement::Blockquote(c) => SlideElement::Blockquote(copy_inlines(c)),
        SlideElement::HorizontalRule => SlideElement::HorizontalRule,
        SlideElement::Plain(c) => SlideElement::Plain(copy_inlines(c)),
        SlideElement::Image(i) => SlideElement::Image(copy_image(i)),
        SlideElement::ColumnBreak => SlideElement::ColumnBreak,
        SlideElement::Table(rows) => SlideElement::Table(copy_inlines3(rows)),
    }
}

pub fn copy_elements(v: &Vec<SlideElement>) -> (r: Vec<SlideElement>)
    ensures
        elems(r@) == elems(v@),
{
    let mut r: Vec<SlideElement> = Vec::new();
    let mut i: usize = 0;
    while i < v.len()
        invariant
            i <= v.len(),
            elems(r@) == elems(v@).take(i as int),
        decreases v.len() - i,
    {
        let x = copy_element(&v[i]);
        let ghost old_r = r@;
        r.push(x);
        assert(elems(r@) =~= elems(old_r).push(x@));
        assert(elems(v@).take(i + 1) =~= elems(v@).take(i as int).push(elems(v@)[i as int]));
        i += 1;
    }
    assert(elems(v@).take(i as int) =~= elems(v@));
    r
}

impl Slide {
    /// A copy of the slide with the same view.
    pub fn duplicate(&self) -> (r: Slide)
        ensures
            r@ == self@,
    {
        let r = Slide {
            index: self.index,
            title: copy_opt_string(&self.title),
            title_inlines: copy_inlines(&self.title_inlines),
            content: copy_elements(&self.content),
            notes: copy_opt_string(&self.notes),
            slide_type: self.slide_type,
            class: copy_strings(&self.class),
            background_color: copy_opt_string(&self.background_color),
            background_image: copy_opt_string(&self.background_image),
            color: copy_opt_string(&self.color),
            image: match &self.image {
                Some(i) => Some(copy_image(i)),
                None => None,
            },
            header: copy_opt_string(&self.header),
            footer: copy_opt_string(&self.footer),
            fit_title: self.fit_title,
        };
        assert(r@ =~= self@);
        r
    }
}

pub fn copy_slides(v: &Vec<Slide>) -> (r: Vec<Slide>)
    ensures
        slides_view(r@) == slides_view(v@),
{
    let mut r: Vec<Slide> = Vec::new();
    let mut i: usize = 0;
    while i < v.len()
        invariant
            i <= v.len(),
            slides_view(r@) == slides_view(v@).take(i as int),
        decreases v.len() - i,
    {
        let x = v[i].duplicate();
        let ghost old_r = r@;
        r.push(x);
        assert(slides_view(r@) =~= slides_view(old_r).push(x@));
        assert(slides_view(v@).take(i + 1) =~= slides_view(v@).take(i as int).push(
            slides_view(v@)[i as int],
        ));
        i += 1;
    }
    assert(slides_view(v@).take(i as int) =~= slides_view(v@));
    r
}

impl DeckSettings {
    /// A copy of the settings with the same view.
    pub fn duplicate(&self) -> (r: DeckSettings)
        ensures
            r@ == self@,
    {
        let r = DeckSettings {
            theme: copy_opt_string(&self.theme),
            paginate: self.paginate,
            class: copy_strings(&self.class),
            background_color: copy_opt_string(&self.background_color),
            color: copy_opt_string(&self.color),
            size: copy_opt_string(&self.size),
            heading_divider: match &self.heading_divider {
                Some(d) => Some(d.clone()),
                None => None,
            },
            header: copy_opt_string(&self.header),
            footer: copy_opt_string(&self.footer),
        };
        assert(r@ =~= self@);
        r
    }
}

} // verus!
