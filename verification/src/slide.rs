//! The slide data model: what the parser produces and the renderer reads,
//! with a mathematical view of each type.
use vstd::prelude::*;

verus! {

pub struct Slide {
    pub index: usize,
    pub title: Option<String>,
    pub title_inlines: Vec<InlineContent>,
    pub content: Vec<SlideElement>,
    pub notes: Option<String>,
    pub slide_type: SlideType,
    pub class: Vec<String>,
    pub background_color: Option<String>,
    pub background_image: Option<String>,
    pub color: Option<String>,
    pub image: Option<ImageSpec>,
    pub header: Option<String>,
    pub footer: Option<String>,
    pub fit_title: bool,
}

#[derive(Debug)]
pub struct ImageSpec {
    pub url: String,
    pub width: Option<String>,
    pub height: Option<String>,
    pub position: Option<String>,
    pub is_background: bool,
    pub bg_size: Option<String>,
    pub bg_direction: Option<String>,
}

#[derive(Debug, Clone, Copy, PartialEq, Eq, Structural)]
pub enum SlideType {
    Title,
    Content,
    Code,
    AsciiArt,
    Split,
}

#[derive(Debug)]
pub struct DeckSettings {
    pub theme: Option<String>,
    pub paginate: bool,
    pub class: Vec<String>,
    pub background_color: Option<String>,
    pub color: Option<String>,
    pub size: Option<String>,
    pub heading_divider: Option<Vec<usize>>,
    pub header: Option<String>,
    pub footer: Option<String>,
}

/// Rich inline content that preserves formatting information.
#[derive(Debug)]
pub enum InlineContent {
    Text(String),
    Bold(Vec<InlineContent>),
    Italic(Vec<InlineContent>),
    Strikethrough(Vec<InlineContent>),
    Code(String),
    Link { text: Vec<InlineContent>, url: String },
    LineBreak,
}

#[derive(Debug)]
pub enum SlideElement {
    Heading(usize, Vec<InlineContent>),
    Paragraph(Vec<InlineContent>),
    CodeBlock(String, String),
    BulletList(Vec<Vec<InlineContent>>),
    NumberedList(u64, Vec<Vec<InlineContent>>),
    Blockquote(Vec<InlineContent>),
    HorizontalRule,
    Plain(Vec<InlineContent>),
    Image(ImageSpec),
    ColumnBreak,
    Table(Vec<Vec<Vec<InlineContent>>>),
}

// ---------------------------------------------------------------------------
// Mathematical models
// ---------------------------------------------------------------------------

pub enum Inline {
    Text(Seq<char>),
    Bold(Seq<Inline>),
    Italic(Seq<Inline>),
    Strike(Seq<Inline>),
    Code(Seq<char>),
    Link(Seq<Inline>, Seq<char>),
    LineBreak,
}

#[verifier::ext_equal]
pub struct ImageModel {
    pub url: Seq<char>,
    pub width: Option<Seq<char>>,
    pub height: Option<Seq<char>>,
    pub position: Option<Seq<char>>,
    pub is_background: bool,
    pub bg_size: Option<Seq<char>>,
    pub bg_direction: Option<Seq<char>>,
}

pub enum Element {
    Heading(usize, Seq<Inline>),
    Paragraph(Seq<Inline>),
    CodeBlock(Seq<char>, Seq<char>),
    BulletList(Seq<Seq<Inline>>),
    NumberedList(u64, Seq<Seq<Inline>>),
    Blockquote(Seq<Inline>),
    HorizontalRule,
    Plain(Seq<Inline>),
    Image(ImageModel),
    ColumnBreak,
    Table(Seq<Seq<Seq<Inline>>>),
}

#[verifier::ext_equal]
pub struct SlideModel {
    pub index: usize,
    pub title: Option<Seq<char>>,
    pub title_inlines: Seq<Inline>,
    pub content: Seq<Element>,
    pub notes: Option<Seq<char>>,
    pub slide_type: SlideType,
    pub class: Seq<Seq<char>>,
    pub background_color: Option<Seq<char>>,
    pub background_image: Option<Seq<char>>,
    pub color: Option<Seq<char>>,
    pub image: Option<ImageModel>,
    pub header: Option<Seq<char>>,
    pub footer: Option<Seq<char>>,
    pub fit_title: bool,
}

#[verifier::ext_equal]
pub struct SettingsModel {
    pub theme: Option<Seq<char>>,
    pub paginate: bool,
    pub class: Seq<Seq<char>>,
    pub background_color: Option<Seq<char>>,
    pub color: Option<Seq<char>>,
    pub size: Option<Seq<char>>,
    pub heading_divider: Option<Seq<usize>>,
    pub header: Option<Seq<char>>,
    pub footer: Option<Seq<char>>,
}

pub open spec fn opt_str(o: Option<String>) -> Option<Seq<char>> {
    match o {
        Some(s) => Some(s@),
        None => None,
    }
}

#[verifier::opaque]
pub open spec fn strs(v: Seq<String>) -> Seq<Seq<char>> {
    v.map_values(|s: String| s@)
}

impl View for InlineContent {
    type V = Inline;

    open spec fn view(&self) -> Inline
        decreases self,
    {
        match self {
            InlineContent::Text(t) => Inline::Text(t@),
            InlineContent::Bold(c) => Inline::Bold(
                Seq::new(
                    c@.len(),
                    |i: int|
                        if 0 <= i < c@.len() {
                            c@[i].view()
                        } else {
                            Inline::LineBreak
                        },
                ),
            ),
            InlineContent::Italic(c) => Inline::Italic(
                Seq::new(
                    c@.len(),
                    |i: int|
                        if 0 <= i < c@.len() {
                            c@[i].view()
                        } else {
                            Inline::LineBreak
                        },
                ),
            ),
            InlineContent::Strikethrough(c) => Inline::Strike(
                Seq::new(
                    c@.len(),
                    |i: int|
                        if 0 <= i < c@.len() {
                            c@[i].view()
                        } else {
                            Inline::LineBreak
                        },
                ),
            ),
            InlineContent::Code(t) => Inline::Code(t@),
            InlineContent::Link { text, url } => Inline::Link(
                Seq::new(
                    text@.len(),
                    |i: int|
                        if 0 <= i < text@.len() {
                            text@[i].view()
                        } else {
                            Inline::LineBreak
                        },
                ),
                url@,
            ),
            InlineContent::LineBreak => Inline::LineBreak,
        }
    }
}

/// View of a run of inline content.
#[verifier::opaque]
pub open spec fn inls(v: Seq<InlineContent>) -> Seq<Inline> {
    v.map_values(|x: InlineContent| x@)
}

/// View of a list of runs (list items, table rows).
#[verifier::opaque]
pub open spec fn inls2(v: Seq<Vec<InlineContent>>) -> Seq<Seq<Inline>> {
    v.map_values(|x: Vec<InlineContent>| inls(x@))
}

/// View of a list of table rows.
#[verifier::opaque]
pub open spec fn inls3(v: Seq<Vec<Vec<InlineContent>>>) -> Seq<Seq<Seq<Inline>>> {
    v.map_values(|x: Vec<Vec<InlineContent>>| inls2(x@))
}

impl View for ImageSpec {
    type V = ImageModel;

    open spec fn view(&self) -> ImageModel {
        ImageModel {
            url: self.url@,
            width: opt_str(self.width),
            height: opt_str(self.height),
            position: opt_str(self.position),
            is_background: self.is_background,
            bg_size: opt_str(self.bg_size),
            bg_direction: opt_str(self.bg_direction),
        }
    }
}

impl View for SlideElement {
    type V = Element;

    open spec fn view(&self) -> Element {
        match self {
            SlideElement::Heading(l, c) => Element::Heading(*l, inls(c@)),
            SlideElement::Paragraph(c) => Element::Paragraph(inls(c@)),
            SlideElement::CodeBlock(l, c) => Element::CodeBlock(l@, c@),
            SlideElement::BulletList(items) => Element::BulletList(inls2(items@)),
            SlideElement::NumberedList(n, items) => Element::NumberedList(*n, inls2(items@)),
            SlideElement::Blockquote(c) => Element::Blockquote(inls(c@)),
            SlideElement::HorizontalRule => Element::HorizontalRule,
            SlideElement::Plain(c) => Element::Plain(inls(c@)),
            SlideElement::Image(i) => Element::Image(i@),
            SlideElement::ColumnBreak => Element::ColumnBreak,
            SlideElement::Table(rows) => Element::Table(inls3(rows@)),
        }
    }
}

#[verifier::opaque]
pub open spec fn elems(v: Seq<SlideElement>) -> Seq<Element> {
    v.map_values(|x: SlideElement| x@)
}

impl View for Slide {
    type V = SlideModel;

    open spec fn view(&self) -> SlideModel {
        SlideModel {
            index: self.index,
            title: opt_str(self.title),
            title_inlines: inls(self.title_inlines@),
            content: elems(self.content@),
            notes: opt_str(self.notes),
            slide_type: self.slide_type,
            class: strs(self.class@),
            background_color: opt_str(self.background_color),
            background_image: opt_str(self.background_image),
            color: opt_str(self.color),
            image: match self.image {
                Some(i) => Some(i@),
                None => None,
            },
            header: opt_str(self.header),
            footer: opt_str(self.footer),
            fit_title: self.fit_title,
        }
    }
}

#[verifier::opaque]
pub open spec fn slides_view(v: Seq<Slide>) -> Seq<SlideModel> {
    v.map_values(|x: Slide| x@)
}

impl View for DeckSettings {
    type V = SettingsModel;

    open spec fn view(&self) -> SettingsModel {
        SettingsModel {
            theme: opt_str(self.theme),
            paginate: self.paginate,
            class: strs(self.class@),
            background_color: opt_str(self.background_color),
            color: opt_str(self.color),
            size: opt_str(self.size),
            heading_divider: match self.heading_divider {
                Some(v) => Some(v@),
                None => None,
            },
            header: opt_str(self.header),
            footer: opt_str(self.footer),
        }
    }
}

pub broadcast proof fn lemma_strs_def(v: Seq<String>)
    ensures
        #[trigger] strs(v) == v.map_values(|s: String| s@),
{
    reveal(strs);
}

pub broadcast proof fn lemma_inls_def(v: Seq<InlineContent>)
    ensures
        #[trigger] inls(v) == v.map_values(|x: InlineContent| x@),
{
    reveal(inls);
}

pub broadcast proof fn lemma_inls2_def(v: Seq<Vec<InlineContent>>)
    ensures
        #[trigger] inls2(v) == v.map_values(|x: Vec<InlineContent>| inls(x@)),
{
    reveal(inls2);
}

pub broadcast proof fn lemma_inls3_def(v: Seq<Vec<Vec<InlineContent>>>)
    ensures
        #[trigger] inls3(v) == v.map_values(|x: Vec<Vec<InlineContent>>| inls2(x@)),
{
    reveal(inls3);
}

pub broadcast proof fn lemma_elems_def(v: Seq<SlideElement>)
    ensures
        #[trigger] elems(v) == v.map_values(|x: SlideElement| x@),
{
    reveal(elems);
}

pub broadcast proof fn lemma_slides_def(v: Seq<Slide>)
    ensures
        #[trigger] slides_view(v) == v.map_values(|x: Slide| x@),
{
    reveal(slides_view);
}

pub proof fn lemma_views_empty()
    ensures
        strs(Seq::<String>::empty()) == Seq::<Seq<char>>::empty(),
        inls(Seq::<InlineContent>::empty()) == Seq::<Inline>::empty(),
        inls2(Seq::<Vec<InlineContent>>::empty()) == Seq::<Seq<Inline>>::empty(),
        inls3(Seq::<Vec<Vec<InlineContent>>>::empty()) == Seq::<Seq<Seq<Inline>>>::empty(),
        elems(Seq::<SlideElement>::empty()) == Seq::<Element>::empty(),
        slides_view(Seq::<Slide>::empty()) == Seq::<SlideModel>::empty(),
{
    reveal(strs);
    reveal(inls);
    reveal(inls2);
    reveal(inls3);
    reveal(elems);
    reveal(slides_view);
    assert(strs(Seq::<String>::empty()) =~= Seq::<Seq<char>>::empty());
    assert(inls(Seq::<InlineContent>::empty()) =~= Seq::<Inline>::empty());
    assert(inls2(Seq::<Vec<InlineContent>>::empty()) =~= Seq::<Seq<Inline>>::empty());
    assert(inls3(Seq::<Vec<Vec<InlineContent>>>::empty()) =~= Seq::<Seq<Seq<Inline>>>::empty());
    assert(elems(Seq::<SlideElement>::empty()) =~= Seq::<Element>::empty());
    assert(slides_view(Seq::<Slide>::empty()) =~= Seq::<SlideModel>::empty());
}

pub broadcast proof fn lemma_strs_len(v: Seq<String>)
    ensures
        #[trigger] strs(v).len() == v.len(),
{
    reveal(strs);
}

pub broadcast proof fn lemma_inls_len(v: Seq<InlineContent>)
    ensures
        #[trigger] inls(v).len() == v.len(),
{
    reveal(inls);
}

pub broadcast proof fn lemma_inls2_len(v: Seq<Vec<InlineContent>>)
    ensures
        #[trigger] inls2(v).len() == v.len(),
{
    reveal(inls2);
}

pub broadcast proof fn lemma_inls3_len(v: Seq<Vec<Vec<InlineContent>>>)
    ensures
        #[trigger] inls3(v).len() == v.len(),
{
    reveal(inls3);
}

pub broadcast proof fn lemma_elems_len(v: Seq<SlideElement>)
    ensures
        #[trigger] elems(v).len() == v.len(),
{
    reveal(elems);
}

pub broadcast proof fn lemma_slides_view_len(v: Seq<Slide>)
    ensures
        #[trigger] slides_view(v).len() == v.len(),
{
    reveal(slides_view);
}

/// The lengths of the views of sequences.
pub broadcast group group_view_lens {
    lemma_strs_len,
    lemma_inls_len,
    lemma_inls2_len,
    lemma_inls3_len,
    lemma_elems_len,
    lemma_slides_view_len,
}

/// The definitions of the views of sequences.
pub broadcast group group_views {
    lemma_strs_def,
    lemma_inls_def,
    lemma_inls2_def,
    lemma_inls3_def,
    lemma_elems_def,
    lemma_slides_def,
}


// ---------------------------------------------------------------------------
// Plain text
// ---------------------------------------------------------------------------

/// Plain text of an inline node, all formatting stripped.
pub open spec fn plain(i: Inline) -> Seq<char>
    decreases i,
{
    match i {
        Inline::Text(t) => t,
        Inline::Bold(c) => plain_seq(c),
        Inline::Italic(c) => plain_seq(c),
        Inline::Strike(c) => plain_seq(c),
        Inline::Code(t) => t,
        Inline::Link(c, _) => plain_seq(c),
        Inline::LineBreak => seq!['\n'],
    }
}

/// Plain text of a run of inline nodes: their plain texts concatenated.
pub open spec fn plain_seq(s: Seq<Inline>) -> Seq<char>
    decreases s,
{
    if s.len() == 0 {
        seq![]
    } else {
        plain_seq(s.drop_last()) + plain(s.last())
    }
}

pub proof fn lemma_inls_push(v: Seq<InlineContent>, x: InlineContent)
    ensures
        inls(v.push(x)) == inls(v).push(x@),
{
    reveal(inls);
    assert(inls(v.push(x)) =~= inls(v).push(x@));
}


} // verus!
