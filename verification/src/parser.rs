//! The deck parser: a state machine over Markdown events that cuts the
//! document into slides and reads Marp directives.
use vstd::prelude::*;
use crate::content::{copy_opt_string, copy_slides, copy_strings, plain_chars};
use crate::directives::{
    chars_of_string, default_settings, strings_of, determine_slide_type, front_matter, front_matter_exec,
    image_spec, is_ascii_lang, is_ascii_lang_vec, parse_image_spec, slide_kind,
};
use crate::markdown::{MdEv, MdEvent, MdTag, cmark_events, evs, markdown_events_of};
use crate::slide::{
    DeckSettings, Element, Inline, InlineContent, SettingsModel, Slide, SlideElement, SlideModel,
    SlideType, elems, inls, inls2, inls3, lemma_inls_push, lemma_views_empty, opt_str, plain_seq,
    slides_view, strs,
};
use crate::text::{
    CharSet, append_vec, chars_of, ends_with, ends_with_str, eq_str, find, find_vec,
    lemma_find_bound, slice, split_trim, split_trim_vec, starts_with, starts_with_str,
    starts_with_vec, strip_prefix, strip_prefix_str, string_of, trim, trim_set, trim_set_vec, trim_start,
    trim_start_set_vec, trim_vec,
};

verus! {

broadcast use crate::slide::group_view_lens;

// ---------------------------------------------------------------------------
// Model of the parser state
// ---------------------------------------------------------------------------

/// An open inline formatting context.
pub enum Frame {
    Emphasis,
    Strong,
    Strike,
    Link(Seq<char>),
}

pub enum ListKind {
    Bullet,
    Numbered(u64),
}

/// The slides made so far and the slide being built.
pub struct DeckModel {
    pub slides: Seq<SlideModel>,
    pub current_slide: Option<SlideModel>,
    pub current_elements: Seq<Element>,
    pub pending_class: Option<Seq<Seq<char>>>,
    pub settings: SettingsModel,
}

/// Inline content being collected, and the open formatting frames.
pub struct InlModel {
    pub inline_stack: Seq<(Frame, Seq<Inline>)>,
    pub current_inlines: Seq<Inline>,
    pub heading_inlines: Seq<Inline>,
    pub blockquote_inlines: Seq<Inline>,
}

pub struct ListModel {
    pub current_list: Option<Seq<Seq<Inline>>>,
    pub list_type: Option<ListKind>,
}

pub struct BufModel {
    pub code_buffer: Option<(Seq<char>, Seq<char>)>,
    pub notes_buffer: Seq<char>,
}

pub struct TableModel {
    pub table_rows: Seq<Seq<Seq<Inline>>>,
    pub current_table_row: Seq<Seq<Inline>>,
    pub table_head_row: Seq<Seq<Inline>>,
}

/// Which Markdown constructs the parser is inside.
#[derive(Clone, Copy, Debug)]
pub struct Flags {
    pub in_code_block: bool,
    pub in_ascii_block: bool,
    pub in_presenter_notes: bool,
    /// The open notes block was opened by a `???` line.
    pub in_question_notes: bool,
    pub in_table: bool,
    pub in_table_cell: bool,
    pub in_table_head: bool,
    pub in_heading: bool,
    pub heading_level: usize,
    pub in_blockquote: bool,
    pub in_list_item: bool,
    pub in_paragraph: bool,
    pub check_fit_comment: bool,
}

pub struct ParserModel {
    pub deck: DeckModel,
    pub inl: InlModel,
    pub lists: ListModel,
    pub bufs: BufModel,
    pub tables: TableModel,
    pub flags: Flags,
}

/// A slide just opened by a heading or a code block.
pub open spec fn fresh_slide(
    title: Option<Seq<char>>,
    title_inlines: Seq<Inline>,
    slide_type: SlideType,
    class: Seq<Seq<char>>,
) -> SlideModel {
    SlideModel {
        index: 0,
        title,
        title_inlines,
        content: seq![],
        notes: None,
        slide_type,
        class,
        background_color: None,
        background_image: None,
        color: None,
        image: None,
        header: None,
        footer: None,
        fit_title: false,
    }
}

/// The inline node a closing tag makes of an open frame, when they match.
pub open spec fn close_frame(fr: Frame, tag: MdTag, children: Seq<Inline>) -> Option<Inline> {
    match (fr, tag) {
        (Frame::Emphasis, MdTag::Emphasis) => Some(Inline::Italic(children)),
        (Frame::Strong, MdTag::Strong) => Some(Inline::Bold(children)),
        (Frame::Strike, MdTag::Strikethrough) => Some(Inline::Strike(children)),
        (Frame::Link(u), MdTag::Link) => Some(Inline::Link(children, u)),
        _ => None,
    }
}

/// An HTML comment the parser cannot slice: `<!-->` and `<!--->`.
pub open spec fn short_comment(html: Seq<char>) -> bool {
    let t = trim(html);
    starts_with(t, "<!--"@) && ends_with(t, "-->"@) && t.len() < 7
}

/// What follows the prefix `p` of `s`.
pub open spec fn after(s: Seq<char>, p: Seq<char>) -> Seq<char> {
    s.skip(p.len() as int)
}

pub open spec fn slide_directive_applies(inner: Seq<char>) -> bool {
    starts_with(inner, "_class:"@) || starts_with(inner, "bg:"@) || starts_with(
        inner,
        "backgroundColor:"@,
    ) || starts_with(inner, "backgroundImage:"@) || starts_with(inner, "color:"@) || starts_with(
        inner,
        "_color:"@,
    )
}

pub open spec fn deck_directive_applies(inner: Seq<char>) -> bool {
    starts_with(inner, "header:"@) || starts_with(inner, "_header:"@) || starts_with(
        inner,
        "footer:"@,
    ) || starts_with(inner, "_footer:"@) || starts_with(inner, "paginate:"@) || starts_with(
        inner,
        "_paginate:"@,
    )
}

/// Start and end of table heads, rows and cells.
pub open spec fn table_event(e: MdEv) -> bool {
    match e {
        MdEv::Start(t) => t == MdTag::TableHead || t == MdTag::TableRow || t == MdTag::TableCell,
        MdEv::End(t) => t == MdTag::TableHead || t == MdTag::TableRow || t == MdTag::TableCell,
        _ => false,
    }
}

/// Events the parser handles without panicking.
pub open spec fn events_ok(es: Seq<MdEv>) -> bool {
    forall|i: int|
        0 <= i < es.len() ==> !(#[trigger] es[i] matches MdEv::Html(h) && short_comment(h))
}

/// A line `???` of a paragraph outside code, quotes, lists, headings and
/// tables: it opens or ends a presenter-notes block.
pub open spec fn question_fence(f: Flags, t: Seq<char>) -> bool {
    &&& !f.in_code_block && !f.in_ascii_block
    &&& f.in_paragraph && !f.in_blockquote && !f.in_list_item && !f.in_heading && !f.in_table_cell
    &&& trim(t) == "???"@
}

impl DeckModel {
    pub open spec fn push_elem(self, e: Element) -> DeckModel {
        DeckModel { current_elements: self.current_elements.push(e), ..self }
    }

    /// Replaces the current slide, if there is one.
    pub open spec fn with_slide(self, sl: SlideModel) -> DeckModel {
        if self.current_slide is Some {
            DeckModel { current_slide: Some(sl), ..self }
        } else {
            self
        }
    }

    pub open spec fn pending_or_empty(self) -> Seq<Seq<char>> {
        match self.pending_class {
            Some(c) => c,
            None => seq![],
        }
    }

    /// Opens a slide with the pending class.
    pub open spec fn open_slide(
        self,
        title: Option<Seq<char>>,
        title_inlines: Seq<Inline>,
        ty: SlideType,
    ) -> DeckModel {
        DeckModel {
            current_slide: Some(fresh_slide(title, title_inlines, ty, self.pending_or_empty())),
            pending_class: None,
            ..self
        }
    }

    /// Closes the open slide `sl`: it keeps the pending elements as its
    /// content and joins the deck unless it has neither title nor content.
    pub open spec fn close_open_slide(self, sl: SlideModel) -> DeckModel {
        if self.current_elements.len() > 0 || sl.title is Some {
            let done = SlideModel {
                content: self.current_elements,
                slide_type: if sl.slide_type == SlideType::Content {
                    slide_kind(sl.title is Some, self.current_elements)
                } else {
                    sl.slide_type
                },
                ..sl
            };
            DeckModel {
                slides: self.slides.push(done),
                current_slide: None,
                current_elements: seq![],
                ..self
            }
        } else {
            DeckModel { current_slide: None, current_elements: seq![], ..self }
        }
    }

    /// Closes the current slide. Elements gathered while no slide was open
    /// make an untitled slide of their own.
    pub open spec fn close_slide(self) -> DeckModel {
        match self.current_slide {
            Some(sl) => self.close_open_slide(sl),
            None => if self.current_elements.len() > 0 {
                let d = self.open_slide(None, seq![], SlideType::Content);
                d.close_open_slide(d.current_slide.unwrap())
            } else {
                self
            },
        }
    }
}

impl InlModel {
    /// The inline buffer formatting frames open and close on.
    pub open spec fn active(self, f: Flags) -> Seq<Inline> {
        if f.in_heading {
            self.heading_inlines
        } else if f.in_blockquote {
            self.blockquote_inlines
        } else {
            self.current_inlines
        }
    }

    pub open spec fn with_active(self, f: Flags, v: Seq<Inline>) -> InlModel {
        if f.in_heading {
            InlModel { heading_inlines: v, ..self }
        } else if f.in_blockquote {
            InlModel { blockquote_inlines: v, ..self }
        } else {
            InlModel { current_inlines: v, ..self }
        }
    }

    /// Adds an inline node to the buffer of the innermost context.
    pub open spec fn push_inline(self, f: Flags, x: Inline) -> InlModel {
        if f.in_heading {
            InlModel { heading_inlines: self.heading_inlines.push(x), ..self }
        } else if f.in_table_cell {
            InlModel { current_inlines: self.current_inlines.push(x), ..self }
        } else if f.in_blockquote {
            InlModel { blockquote_inlines: self.blockquote_inlines.push(x), ..self }
        } else {
            InlModel { current_inlines: self.current_inlines.push(x), ..self }
        }
    }
}

impl ParserModel {
    pub open spec fn initial() -> ParserModel {
        ParserModel {
            deck: DeckModel {
                slides: seq![],
                current_slide: None,
                current_elements: seq![],
                pending_class: None,
                settings: default_settings(),
            },
            inl: InlModel {
                inline_stack: seq![],
                current_inlines: seq![],
                heading_inlines: seq![],
                blockquote_inlines: seq![],
            },
            lists: ListModel { current_list: None, list_type: None },
            bufs: BufModel { code_buffer: None, notes_buffer: seq![] },
            tables: TableModel {
                table_rows: seq![],
                current_table_row: seq![],
                table_head_row: seq![],
            },
            flags: Flags {
                in_code_block: false,
                in_ascii_block: false,
                in_presenter_notes: false,
                in_question_notes: false,
                in_table: false,
                in_table_cell: false,
                in_table_head: false,
                in_heading: false,
                heading_level: 0,
                in_blockquote: false,
                in_list_item: false,
                in_paragraph: false,
                check_fit_comment: false,
            },
        }
    }

    pub open spec fn push_inline(self, x: Inline) -> ParserModel {
        ParserModel { inl: self.inl.push_inline(self.flags, x), ..self }
    }

    /// Emits the open list, if it has items, as an element.
    pub open spec fn flush_list(self) -> ParserModel {
        let deck = match self.lists.current_list {
            Some(list) => if list.len() > 0 {
                self.deck.push_elem(
                    match self.lists.list_type {
                        Some(ListKind::Numbered(n)) => Element::NumberedList(n, list),
                        _ => Element::BulletList(list),
                    },
                )
            } else {
                self.deck
            },
            None => self.deck,
        };
        ParserModel { deck, lists: ListModel { current_list: None, list_type: None }, ..self }
    }

    /// Ends the presenter-notes block: its text, trimmed, becomes the notes of
    /// the current slide unless that slide has notes already.
    pub open spec fn close_notes(self) -> ParserModel {
        let flags = Flags { in_presenter_notes: false, in_question_notes: false, ..self.flags };
        if self.bufs.notes_buffer.len() > 0 {
            let sl = self.deck.current_slide.unwrap();
            ParserModel {
                deck: if sl.notes is None {
                    self.deck.with_slide(
                        SlideModel { notes: Some(trim(self.bufs.notes_buffer)), ..sl },
                    )
                } else {
                    self.deck
                },
                bufs: BufModel { notes_buffer: seq![], ..self.bufs },
                flags,
                ..self
            }
        } else {
            ParserModel { flags, ..self }
        }
    }

    pub open spec fn finish_slide(self) -> ParserModel {
        let s = self.flush_list().close_notes();
        ParserModel { deck: s.deck.close_slide(), ..s }
    }

    pub open spec fn end_heading(self) -> ParserModel {
        let level = self.flags.heading_level;
        let inl = self.inl.heading_inlines;
        let title = plain_seq(inl);
        let s = ParserModel {
            inl: InlModel { heading_inlines: seq![], ..self.inl },
            flags: Flags { in_heading: false, check_fit_comment: false, ..self.flags },
            ..self
        };
        let ty = if level == 1 {
            SlideType::Title
        } else {
            SlideType::Content
        };
        let split = match s.deck.settings.heading_divider {
            Some(d) => d.contains(level) && s.deck.current_slide is Some && (
            s.deck.current_slide.unwrap().title is Some || s.deck.current_elements.len() > 0),
            None => false,
        };
        if split {
            let f = s.finish_slide();
            ParserModel { deck: f.deck.open_slide(Some(title), inl, ty), ..f }
        } else {
            match s.deck.current_slide {
                Some(sl) => if sl.title is None {
                    ParserModel {
                        deck: s.deck.with_slide(
                            SlideModel { title: Some(title), title_inlines: inl, ..sl },
                        ),
                        ..s
                    }
                } else {
                    ParserModel { deck: s.deck.push_elem(Element::Heading(level, inl)), ..s }
                },
                None => ParserModel { deck: s.deck.open_slide(Some(title), inl, ty), ..s },
            }
        }
    }

    pub open spec fn end_code_block(self) -> ParserModel {
        let flags = Flags { in_code_block: false, in_ascii_block: false, ..self.flags };
        match self.bufs.code_buffer {
            Some((lang, code)) => {
                let d = self.deck.push_elem(Element::CodeBlock(lang, code));
                ParserModel {
                    deck: if d.current_slide is None {
                        d.open_slide(
                            None,
                            seq![],
                            if self.flags.in_ascii_block {
                                SlideType::AsciiArt
                            } else {
                                SlideType::Code
                            },
                        )
                    } else {
                        d
                    },
                    bufs: BufModel { code_buffer: None, ..self.bufs },
                    flags,
                    ..self
                }
            },
            None => ParserModel { flags, ..self },
        }
    }

    pub open spec fn open_frame(self, fr: Frame) -> ParserModel {
        let i = self.inl.with_active(self.flags, seq![]);
        ParserModel {
            inl: InlModel {
                inline_stack: i.inline_stack.push((fr, self.inl.active(self.flags))),
                ..i
            },
            ..self
        }
    }

    pub open spec fn end_frame(self, tag: MdTag) -> ParserModel {
        let children = self.inl.active(self.flags);
        let i = self.inl.with_active(self.flags, seq![]);
        if i.inline_stack.len() == 0 {
            ParserModel { inl: i, ..self }
        } else {
            let (fr, parent) = i.inline_stack.last();
            let j = InlModel { inline_stack: i.inline_stack.drop_last(), ..i };
            match close_frame(fr, tag, children) {
                Some(x) => ParserModel { inl: j.with_active(self.flags, parent.push(x)), ..self },
                None => ParserModel { inl: j, ..self },
            }
        }
    }

    pub open spec fn end_image(self) -> ParserModel {
        let alt = self.inl.active(self.flags);
        let i = self.inl.with_active(self.flags, seq![]);
        if i.inline_stack.len() == 0 {
            ParserModel { inl: i, ..self }
        } else {
            let (fr, parent) = i.inline_stack.last();
            let j = InlModel { inline_stack: i.inline_stack.drop_last(), ..i };
            match fr {
                Frame::Link(url) => {
                    let img = image_spec(url, plain_seq(alt));
                    let sl = self.deck.current_slide.unwrap();
                    ParserModel {
                        deck: if img.is_background {
                            self.deck.with_slide(
                                SlideModel { background_image: Some(url), image: Some(img), ..sl },
                            )
                        } else {
                            self.deck.push_elem(Element::Image(img))
                        },
                        inl: j.with_active(self.flags, parent),
                        ..self
                    }
                },
                _ => ParserModel { inl: j, ..self },
            }
        }
    }

    /// A text node. A paragraph line `???` (see `question_fence`) opens a
    /// presenter-notes block, or ends the one that is open; the text of such a
    /// block goes to the notes.
    pub open spec fn text(self, t: Seq<char>) -> ParserModel {
        let f = self.flags;
        if question_fence(f, t) {
            if f.in_presenter_notes {
                self.close_notes()
            } else {
                ParserModel {
                    bufs: BufModel { notes_buffer: seq![], ..self.bufs },
                    flags: Flags { in_presenter_notes: true, in_question_notes: true, ..f },
                    ..self
                }
            }
        } else if f.in_presenter_notes {
            let nb = self.bufs.notes_buffer;
            ParserModel {
                bufs: BufModel {
                    notes_buffer: (if nb.len() > 0 {
                        nb.push('\n')
                    } else {
                        nb
                    }) + t,
                    ..self.bufs
                },
                ..self
            }
        } else if f.in_code_block || f.in_ascii_block {
            match self.bufs.code_buffer {
                Some((l, c)) => ParserModel {
                    bufs: BufModel {
                        code_buffer: Some(
                            (
                                l,
                                (if c.len() > 0 {
                                    c.push('\n')
                                } else {
                                    c
                                }) + t,
                            ),
                        ),
                        ..self.bufs
                    },
                    ..self
                },
                None => self,
            }
        } else if f.in_heading || f.in_table_cell || f.in_blockquote || f.in_list_item
            || f.in_paragraph {
            self.push_inline(Inline::Text(t))
        } else {
            let tr = trim(t);
            match self.deck.current_slide {
                Some(sl) => if tr == "---"@ || tr == "***"@ || tr == "___"@ {
                    self.finish_slide()
                } else if sl.title is None && tr.len() > 0 {
                    ParserModel {
                        deck: self.deck.with_slide(
                            SlideModel {
                                title: Some(tr),
                                title_inlines: seq![Inline::Text(tr)],
                                ..sl
                            },
                        ),
                        ..self
                    }
                } else if tr.len() > 0 {
                    ParserModel {
                        deck: self.deck.push_elem(Element::Plain(seq![Inline::Text(t)])),
                        ..self
                    }
                } else {
                    self
                },
                None => if tr.len() > 0 {
                    ParserModel {
                        deck: self.deck.push_elem(Element::Plain(seq![Inline::Text(t)])),
                        ..self
                    }
                } else {
                    self
                },
            }
        }
    }

    pub open spec fn end_paragraph(self) -> ParserModel {
        let inl = self.inl.current_inlines;
        let s = ParserModel {
            inl: InlModel { current_inlines: seq![], ..self.inl },
            flags: Flags { in_paragraph: false, ..self.flags },
            ..self
        };
        if inl.len() > 0 {
            if s.flags.in_blockquote {
                ParserModel {
                    inl: InlModel { blockquote_inlines: s.inl.blockquote_inlines + inl, ..s.inl },
                    ..s
                }
            } else if s.flags.in_list_item {
                ParserModel { inl: InlModel { current_inlines: inl, ..s.inl }, ..s }
            } else {
                ParserModel { deck: s.deck.push_elem(Element::Paragraph(inl)), ..s }
            }
        } else {
            s
        }
    }

    pub open spec fn end_table(self) -> ParserModel {
        let head = self.tables.table_head_row;
        let rows = (if head.len() > 0 {
            seq![head]
        } else {
            seq![]
        }) + self.tables.table_rows;
        ParserModel {
            tables: TableModel {
                table_head_row: seq![],
                table_rows: seq![],
                ..self.tables
            },
            deck: if rows.len() > 0 {
                self.deck.push_elem(Element::Table(rows))
            } else {
                self.deck
            },
            flags: Flags { in_table: false, ..self.flags },
            ..self
        }
    }

    pub open spec fn end_item(self) -> ParserModel {
        let s = ParserModel {
            inl: InlModel { current_inlines: seq![], ..self.inl },
            flags: Flags { in_list_item: false, ..self.flags },
            ..self
        };
        match self.lists.current_list {
            Some(l) => ParserModel {
                lists: ListModel {
                    current_list: Some(l.push(self.inl.current_inlines)),
                    ..self.lists
                },
                ..s
            },
            None => s,
        }
    }

    pub open spec fn end_blockquote(self) -> ParserModel {
        let b = self.inl.blockquote_inlines;
        let s = ParserModel {
            inl: InlModel { blockquote_inlines: seq![], ..self.inl },
            flags: Flags { in_blockquote: false, ..self.flags },
            ..self
        };
        if b.len() > 0 {
            ParserModel { deck: s.deck.push_elem(Element::Blockquote(b)), ..s }
        } else {
            s
        }
    }

    pub open spec fn with_slide(self, sl: SlideModel) -> ParserModel {
        ParserModel { deck: self.deck.with_slide(sl), ..self }
    }

    pub open spec fn with_settings(self, st: SettingsModel) -> ParserModel {
        ParserModel { deck: DeckModel { settings: st, ..self.deck }, ..self }
    }

    /// An HTML comment: `<!-- directive -->`.
    pub open spec fn html_comment(self, html: Seq<char>) -> ParserModel {
        let t = trim(html);
        if !starts_with(t, "<!--"@) || !ends_with(t, "-->"@) {
            self
        } else {
            self.html_comment_inner(trim(t.subrange(4, t.len() - 3)))
        }
    }

    /// The directive inside an HTML comment.
    pub open spec fn html_comment_inner(self, inner: Seq<char>) -> ParserModel {
        let sl = self.deck.current_slide.unwrap();
        if self.flags.in_heading && inner == "fit"@ {
            self.with_slide(SlideModel { fit_title: true, ..sl })
        } else if starts_with(inner, "notes:"@) {
            self.with_slide(SlideModel { notes: Some(trim(after(inner, "notes:"@))), ..sl })
        } else if starts_with(inner, "?"@) && inner != "?"@ {
            ParserModel {
                bufs: BufModel { notes_buffer: seq![], ..self.bufs },
                flags: Flags { in_presenter_notes: true, in_question_notes: false, ..self.flags },
                ..self
            }
        } else if inner == "?"@ {
            self.close_notes()
        } else if starts_with(inner, "class:"@) {
            ParserModel {
                deck: DeckModel {
                    pending_class: Some(split_trim(trim(after(inner, "class:"@)), ',')),
                    ..self.deck
                },
                ..self
            }
        } else if slide_directive_applies(inner) {
            self.slide_directive(inner)
        } else if deck_directive_applies(inner) {
            self.deck_directive(inner)
        } else if trim(inner) == "---"@ {
            self.finish_slide()
        } else {
            self
        }
    }

    /// `_class:`, `bg:`, `backgroundColor:`, `backgroundImage:`, `color:` and
    /// `_color:` set the current slide's classes and colors.
    pub open spec fn slide_directive(self, inner: Seq<char>) -> ParserModel {
        let sl = self.deck.current_slide.unwrap();
        if starts_with(inner, "_class:"@) {
            self.with_slide(
                SlideModel {
                    class: sl.class + split_trim(trim(after(inner, "_class:"@)), ','),
                    ..sl
                },
            )
        } else if starts_with(inner, "bg:"@) {
            self.with_slide(
                SlideModel { background_color: Some(trim(after(inner, "bg:"@))), ..sl },
            )
        } else if starts_with(inner, "backgroundColor:"@) {
            self.with_slide(
                SlideModel {
                    background_color: Some(trim(after(inner, "backgroundColor:"@))),
                    ..sl
                },
            )
        } else if starts_with(inner, "backgroundImage:"@) {
            self.with_slide(
                SlideModel {
                    background_image: Some(
                        trim_set(trim(after(inner, "backgroundImage:"@)), CharSet::Quotes),
                    ),
                    ..sl
                },
            )
        } else if starts_with(inner, "color:"@) {
            self.with_slide(SlideModel { color: Some(trim(after(inner, "color:"@))), ..sl })
        } else {
            self.with_slide(SlideModel { color: Some(trim(after(inner, "_color:"@))), ..sl })
        }
    }

    /// `header:`, `footer:` and `paginate:` (with or without `_`) set the
    /// deck's header, footer and pagination; `_header:` and `_footer:` the
    /// current slide's.
    pub open spec fn deck_directive(self, inner: Seq<char>) -> ParserModel {
        let sl = self.deck.current_slide.unwrap();
        let st = self.deck.settings;
        if starts_with(inner, "header:"@) {
            self.with_settings(
                SettingsModel {
                    header: Some(trim_set(trim(after(inner, "header:"@)), CharSet::Quotes)),
                    ..st
                },
            )
        } else if starts_with(inner, "_header:"@) {
            self.with_slide(
                SlideModel {
                    header: Some(trim_set(trim(after(inner, "_header:"@)), CharSet::Quotes)),
                    ..sl
                },
            )
        } else if starts_with(inner, "footer:"@) {
            self.with_settings(
                SettingsModel {
                    footer: Some(trim_set(trim(after(inner, "footer:"@)), CharSet::Quotes)),
                    ..st
                },
            )
        } else if starts_with(inner, "_footer:"@) {
            self.with_slide(
                SlideModel {
                    footer: Some(trim_set(trim(after(inner, "_footer:"@)), CharSet::Quotes)),
                    ..sl
                },
            )
        } else if starts_with(inner, "paginate:"@) {
            self.with_settings(
                SettingsModel { paginate: trim(after(inner, "paginate:"@)) == "true"@, ..st },
            )
        } else {
            self.with_settings(
                SettingsModel { paginate: trim(after(inner, "_paginate:"@)) == "true"@, ..st },
            )
        }
    }

    /// One Markdown event. Line breaks inside a `???` notes block leave
    /// nothing on the slide: the block's lines are joined in the notes.
    pub open spec fn step(self, e: MdEv) -> ParserModel {
        let f = self.flags;
        match e {
            MdEv::StartHeading(l) => {
                let s = self.flush_list();
                ParserModel {
                    inl: InlModel { heading_inlines: seq![], ..s.inl },
                    flags: Flags {
                        in_heading: true,
                        heading_level: l,
                        check_fit_comment: true,
                        ..s.flags
                    },
                    ..s
                }
            },
            MdEv::StartCodeBlock(lang) => {
                let s = self.flush_list();
                ParserModel {
                    bufs: BufModel { code_buffer: Some((lang, seq![])), ..s.bufs },
                    flags: Flags {
                        in_code_block: true,
                        in_ascii_block: is_ascii_lang(lang),
                        ..s.flags
                    },
                    ..s
                }
            },
            MdEv::StartLink(u) => self.open_frame(Frame::Link(u)),
            MdEv::StartImage(u) => self.open_frame(Frame::Link(u)),
            MdEv::StartList(n) => {
                let s = self.flush_list();
                ParserModel {
                    lists: ListModel {
                        current_list: Some(seq![]),
                        list_type: Some(
                            match n {
                                Some(k) => ListKind::Numbered(k),
                                None => ListKind::Bullet,
                            },
                        ),
                    },
                    ..s
                }
            },
            MdEv::Start(MdTag::Emphasis) => self.open_frame(Frame::Emphasis),
            MdEv::Start(MdTag::Strong) => self.open_frame(Frame::Strong),
            MdEv::Start(MdTag::Strikethrough) => self.open_frame(Frame::Strike),
            MdEv::Start(MdTag::Paragraph) => {
                let s = self.flush_list();
                ParserModel {
                    inl: InlModel { current_inlines: seq![], ..s.inl },
                    flags: Flags { in_paragraph: true, ..s.flags },
                    ..s
                }
            },
            MdEv::Start(MdTag::Item) => ParserModel {
                inl: InlModel { current_inlines: seq![], ..self.inl },
                lists: ListModel {
                    current_list: if self.lists.current_list is None {
                        Some(seq![])
                    } else {
                        self.lists.current_list
                    },
                    ..self.lists
                },
                flags: Flags { in_list_item: true, ..f },
                ..self
            },
            MdEv::Start(MdTag::BlockQuote) => {
                let s = self.flush_list();
                ParserModel {
                    inl: InlModel { blockquote_inlines: seq![], ..s.inl },
                    flags: Flags { in_blockquote: true, ..s.flags },
                    ..s
                }
            },
            MdEv::Start(MdTag::Table) => {
                let s = self.flush_list();
                ParserModel {
                    tables: TableModel {
                        table_rows: seq![],
                        current_table_row: seq![],
                        table_head_row: seq![],
                    },
                    flags: Flags { in_table: true, ..s.flags },
                    ..s
                }
            },
            MdEv::Start(MdTag::TableHead) => ParserModel {
                tables: TableModel { current_table_row: seq![], ..self.tables },
                flags: Flags { in_table_head: true, ..f },
                ..self
            },
            MdEv::Start(MdTag::TableRow) => ParserModel {
                tables: TableModel { current_table_row: seq![], ..self.tables },
                ..self
            },
            MdEv::Start(MdTag::TableCell) => ParserModel {
                inl: InlModel { current_inlines: seq![], ..self.inl },
                flags: Flags { in_table_cell: true, ..f },
                ..self
            },
            MdEv::End(MdTag::Heading) => self.end_heading(),
            MdEv::End(MdTag::CodeBlock) => self.end_code_block(),
            MdEv::End(MdTag::Emphasis) => self.end_frame(MdTag::Emphasis),
            MdEv::End(MdTag::Strong) => self.end_frame(MdTag::Strong),
            MdEv::End(MdTag::Strikethrough) => self.end_frame(MdTag::Strikethrough),
            MdEv::End(MdTag::Link) => self.end_frame(MdTag::Link),
            MdEv::End(MdTag::Image) => self.end_image(),
            MdEv::End(MdTag::Paragraph) => self.end_paragraph(),
            MdEv::End(MdTag::List) => self.flush_list(),
            MdEv::End(MdTag::Item) => self.end_item(),
            MdEv::End(MdTag::BlockQuote) => self.end_blockquote(),
            MdEv::End(MdTag::Table) => self.end_table(),
            MdEv::End(MdTag::TableHead) => ParserModel {
                tables: TableModel {
                    table_head_row: self.tables.current_table_row,
                    current_table_row: seq![],
                    ..self.tables
                },
                flags: Flags { in_table_head: false, ..f },
                ..self
            },
            MdEv::End(MdTag::TableRow) => if !f.in_table_head
                && self.tables.current_table_row.len() > 0 {
                ParserModel {
                    tables: TableModel {
                        table_rows: self.tables.table_rows.push(self.tables.current_table_row),
                        current_table_row: seq![],
                        ..self.tables
                    },
                    ..self
                }
            } else {
                self
            },
            MdEv::End(MdTag::TableCell) => ParserModel {
                inl: InlModel { current_inlines: seq![], ..self.inl },
                tables: TableModel {
                    current_table_row: self.tables.current_table_row.push(
                        self.inl.current_inlines,
                    ),
                    ..self.tables
                },
                flags: Flags { in_table_cell: false, ..f },
                ..self
            },
            MdEv::Code(c) => self.push_inline(Inline::Code(c)),
            MdEv::SoftBreak => if f.in_question_notes {
                self
            } else {
                self.push_inline(Inline::Text(" "@))
            },
            MdEv::HardBreak => if f.in_question_notes {
                self
            } else {
                self.push_inline(Inline::LineBreak)
            },
            MdEv::TaskListMarker(b) => self.push_inline(
                Inline::Text(
                    if b {
                        "☑ "@
                    } else {
                        "☐ "@
                    },
                ),
            ),
            MdEv::Text(t) => self.text(t),
            MdEv::Rule => self.finish_slide(),
            MdEv::Html(h) => self.html_comment(h),
            _ => self,
        }
    }

    /// The events, one after another.
    pub open spec fn run(self, es: Seq<MdEv>) -> ParserModel
        decreases es.len(),
    {
        if es.len() == 0 {
            self
        } else {
            self.run(es.drop_last()).step(es.last())
        }
    }
}

/// Splits off a YAML front matter: the text between a leading `---` and the
/// next `---`, and what follows it with leading whitespace trimmed.
pub open spec fn front_matter_split(md: Seq<char>) -> Option<(Seq<char>, Seq<char>)> {
    let t = trim_start(md);
    if starts_with(t, "---"@) {
        let a = after(t, "---"@);
        match find(a, "---"@) {
            Some(e) => Some((a.take(e), trim_start(a.skip(e + "---"@.len())))),
            None => None,
        }
    } else {
        None
    }
}

/// The Markdown that follows the front matter.
pub open spec fn body_text(md: Seq<char>) -> Seq<char> {
    match front_matter_split(md) {
        Some((_, rest)) => rest,
        None => md,
    }
}

/// The slide that stands in for an empty deck.
pub open spec fn no_content_slide() -> SlideModel {
    SlideModel {
        index: 0,
        title: None,
        title_inlines: seq![],
        content: seq![Element::Plain(seq![Inline::Text("No content"@)])],
        notes: None,
        slide_type: SlideType::Content,
        class: seq![],
        background_color: None,
        background_image: None,
        color: None,
        image: None,
        header: None,
        footer: None,
        fit_title: false,
    }
}

/// A slide as the deck returns it: numbered, with the deck-wide colors,
/// header, footer and classes where it has none of its own, and its type
/// decided from its content when it is a plain content slide.
pub open spec fn finalize_slide(s: SlideModel, i: int, st: SettingsModel) -> SlideModel {
    SlideModel {
        index: i as usize,
        background_color: if s.background_color is None {
            st.background_color
        } else {
            s.background_color
        },
        color: if s.color is None {
            st.color
        } else {
            s.color
        },
        header: if s.header is None {
            st.header
        } else {
            s.header
        },
        footer: if s.footer is None {
            st.footer
        } else {
            s.footer
        },
        class: if s.class.len() == 0 && st.class.len() > 0 {
            st.class
        } else {
            s.class
        },
        slide_type: if s.slide_type == SlideType::Content {
            slide_kind(s.title is Some, s.content)
        } else {
            s.slide_type
        },
        ..s
    }
}

pub open spec fn finalize_all(slides: Seq<SlideModel>, st: SettingsModel) -> Seq<SlideModel> {
    Seq::new(slides.len(), |i: int| finalize_slide(slides[i], i, st))
}

impl ParserModel {
    pub open spec fn read_front_matter(self, md: Seq<char>) -> ParserModel {
        match front_matter_split(md) {
            Some((yaml, _)) => self.with_settings(front_matter(self.deck.settings, yaml)),
            None => self,
        }
    }

    /// The state after the events and the closing of the deck.
    pub open spec fn finish_parse(self, es: Seq<MdEv>) -> ParserModel {
        let s = self.run(es).finish_slide();
        let slides = if s.deck.slides.len() == 0 {
            seq![no_content_slide()]
        } else {
            s.deck.slides
        };
        ParserModel {
            deck: DeckModel { slides: finalize_all(slides, s.deck.settings), ..s.deck },
            ..s
        }
    }

    /// The state after parsing a whole Markdown document.
    pub open spec fn parse_text(self, md: Seq<char>) -> ParserModel {
        self.read_front_matter(md).finish_parse(cmark_events(body_text(md)))
    }
}

/// The slides and settings of a Markdown document.
pub open spec fn parse_deck(md: Seq<char>) -> (Seq<SlideModel>, SettingsModel) {
    let s = ParserModel::initial().parse_text(md);
    (s.deck.slides, s.deck.settings)
}

/// Whether the parser can read the document (its HTML comments can be sliced).
pub open spec fn parsable(md: Seq<char>) -> bool {
    events_ok(cmark_events(body_text(md)))
}

// ---------------------------------------------------------------------------
// The parser
// ---------------------------------------------------------------------------

/// Stack frame for tracking nested inline formatting context.
#[derive(Debug)]
pub enum InlineFrame {
    Emphasis,
    Strong,
    Strikethrough,
    Link(String),
}

impl View for InlineFrame {
    type V = Frame;

    open spec fn view(&self) -> Frame {
        match self {
            InlineFrame::Emphasis => Frame::Emphasis,
            InlineFrame::Strong => Frame::Strong,
            InlineFrame::Strikethrough => Frame::Strike,
            InlineFrame::Link(u) => Frame::Link(u@),
        }
    }
}

#[derive(Clone, Copy, Debug)]
pub enum ListType {
    Bullet,
    Numbered(u64),
}

pub open spec fn list_kind(l: Option<ListType>) -> Option<ListKind> {
    match l {
        Some(ListType::Bullet) => Some(ListKind::Bullet),
        Some(ListType::Numbered(n)) => Some(ListKind::Numbered(n)),
        None => None,
    }
}

#[verifier::opaque]
pub open spec fn frames(v: Seq<(InlineFrame, Vec<InlineContent>)>) -> Seq<(Frame, Seq<Inline>)> {
    v.map_values(|p: (InlineFrame, Vec<InlineContent>)| (p.0@, inls(p.1@)))
}

pub open spec fn opt_slide(o: Option<Slide>) -> Option<SlideModel> {
    match o {
        Some(s) => Some(s@),
        None => None,
    }
}

struct Deck {
    slides: Vec<Slide>,
    current_slide: Option<Slide>,
    current_elements: Vec<SlideElement>,
    pending_class: Option<Vec<String>>,
    settings: DeckSettings,
}

struct Inlines {
    inline_stack: Vec<(InlineFrame, Vec<InlineContent>)>,
    current_inlines: Vec<InlineContent>,
    heading_inlines: Vec<InlineContent>,
    blockquote_inlines: Vec<InlineContent>,
}

struct Lists {
    current_list: Option<Vec<Vec<InlineContent>>>,
    list_type: Option<ListType>,
}

struct Buffers {
    code_buffer: Option<(Vec<char>, Vec<char>)>,
    notes_buffer: Vec<char>,
}

struct Tables {
    table_rows: Vec<Vec<Vec<InlineContent>>>,
    current_table_row: Vec<Vec<InlineContent>>,
    table_head_row: Vec<Vec<InlineContent>>,
}

#[verifier::opaque]
spec fn deck_model(d: Deck) -> DeckModel {
    DeckModel {
        slides: slides_view(d.slides@),
        current_slide: opt_slide(d.current_slide),
        current_elements: elems(d.current_elements@),
        pending_class: match d.pending_class {
            Some(c) => Some(strs(c@)),
            None => None,
        },
        settings: d.settings@,
    }
}

#[verifier::opaque]
spec fn inl_model(i: Inlines) -> InlModel {
    InlModel {
        inline_stack: frames(i.inline_stack@),
        current_inlines: inls(i.current_inlines@),
        heading_inlines: inls(i.heading_inlines@),
        blockquote_inlines: inls(i.blockquote_inlines@),
    }
}

#[verifier::opaque]
spec fn list_model(l: Lists) -> ListModel {
    ListModel {
        current_list: match l.current_list {
            Some(x) => Some(inls2(x@)),
            None => None,
        },
        list_type: list_kind(l.list_type),
    }
}

#[verifier::opaque]
spec fn buf_model(b: Buffers) -> BufModel {
    BufModel {
        code_buffer: match b.code_buffer {
            Some((l, c)) => Some((l@, c@)),
            None => None,
        },
        notes_buffer: b.notes_buffer@,
    }
}

#[verifier::opaque]
spec fn table_model(t: Tables) -> TableModel {
    TableModel {
        table_rows: inls3(t.table_rows@),
        current_table_row: inls2(t.current_table_row@),
        table_head_row: inls2(t.table_head_row@),
    }
}

pub struct MarkdownParser {
    deck: Deck,
    inl: Inlines,
    lists: Lists,
    bufs: Buffers,
    tables: Tables,
    flags: Flags,
}

impl View for MarkdownParser {
    type V = ParserModel;

    closed spec fn view(&self) -> ParserModel {
        ParserModel {
            deck: deck_model(self.deck),
            inl: inl_model(self.inl),
            lists: list_model(self.lists),
            bufs: buf_model(self.bufs),
            tables: table_model(self.tables),
            flags: self.flags,
        }
    }
}

fn take_vec<T>(v: &mut Vec<T>) -> (r: Vec<T>)
    ensures
        r@ == old(v)@,
        final(v)@ == Seq::<T>::empty(),
{
    let mut t: Vec<T> = Vec::new();
    std::mem::swap(v, &mut t);
    t
}

fn contains_usize(v: &Vec<usize>, x: usize) -> (r: bool)
    ensures
        r == v@.contains(x),
{
    let mut i: usize = 0;
    while i < v.len()
        invariant
            i <= v.len(),
            forall|j: int| 0 <= j < i ==> v@[j] != x,
        decreases v.len() - i,
    {
        if v[i] == x {
            return true;
        }
        i += 1;
    }
    false
}

proof fn lemma_elems_push(v: Seq<SlideElement>, x: SlideElement)
    ensures
        elems(v.push(x)) == elems(v).push(x@),
{
    reveal(elems);
    assert(elems(v.push(x)) =~= elems(v).push(x@));
}

proof fn lemma_inls2_push(v: Seq<Vec<InlineContent>>, x: Vec<InlineContent>)
    ensures
        inls2(v.push(x)) == inls2(v).push(inls(x@)),
{
    reveal(inls2);
    assert(inls2(v.push(x)) =~= inls2(v).push(inls(x@)));
}

proof fn lemma_inls3_push(v: Seq<Vec<Vec<InlineContent>>>, x: Vec<Vec<InlineContent>>)
    ensures
        inls3(v.push(x)) == inls3(v).push(inls2(x@)),
{
    reveal(inls3);
    assert(inls3(v.push(x)) =~= inls3(v).push(inls2(x@)));
}

proof fn lemma_inls3_append(a: Seq<Vec<Vec<InlineContent>>>, b: Seq<Vec<Vec<InlineContent>>>)
    ensures
        inls3(a + b) == inls3(a) + inls3(b),
{
    reveal(inls3);
    assert(inls3(a + b) =~= inls3(a) + inls3(b));
}

proof fn lemma_strs_append(a: Seq<String>, b: Seq<String>)
    ensures
        strs(a + b) == strs(a) + strs(b),
{
    reveal(strs);
    assert(strs(a + b) =~= strs(a) + strs(b));
}

proof fn lemma_slides_push(v: Seq<Slide>, x: Slide)
    ensures
        slides_view(v.push(x)) == slides_view(v).push(x@),
{
    reveal(slides_view);
    assert(slides_view(v.push(x)) =~= slides_view(v).push(x@));
}

proof fn lemma_frames_empty()
    ensures
        frames(Seq::<(InlineFrame, Vec<InlineContent>)>::empty()) == Seq::<
            (Frame, Seq<Inline>),
        >::empty(),
{
    reveal(frames);
    assert(frames(Seq::<(InlineFrame, Vec<InlineContent>)>::empty()) =~= Seq::<
        (Frame, Seq<Inline>),
    >::empty());
}

proof fn lemma_frames_push(
    v: Seq<(InlineFrame, Vec<InlineContent>)>,
    x: (InlineFrame, Vec<InlineContent>),
)
    ensures
        frames(v.push(x)) == frames(v).push((x.0@, inls(x.1@))),
{
    reveal(frames);
    assert(frames(v.push(x)) =~= frames(v).push((x.0@, inls(x.1@))));
}

proof fn lemma_frames_drop_last(v: Seq<(InlineFrame, Vec<InlineContent>)>)
    requires
        v.len() > 0,
    ensures
        frames(v.drop_last()) == frames(v).drop_last(),
        frames(v).last() == (v.last().0@, inls(v.last().1@)),
        frames(v).len() == v.len(),
{
    reveal(frames);
    assert(frames(v.drop_last()) =~= frames(v).drop_last());
}

fn plain_element(t: String) -> (r: SlideElement)
    ensures
        r@ == Element::Plain(seq![Inline::Text(t@)]),
{
    let v = vec![InlineContent::Text(t)];
    let r = SlideElement::Plain(v);
    reveal(inls);
    assert(inls(v@) =~= seq![Inline::Text(t@)]);
    r
}

impl MarkdownParser {
    pub fn new() -> (r: Self)
        ensures
            r@ == ParserModel::initial(),
    {
        let r = MarkdownParser {
            deck: Deck {
                slides: Vec::new(),
                current_slide: None,
                current_elements: Vec::new(),
                pending_class: None,
                settings: DeckSettings::default(),
            },
            inl: Inlines {
                inline_stack: Vec::new(),
                current_inlines: Vec::new(),
                heading_inlines: Vec::new(),
                blockquote_inlines: Vec::new(),
            },
            lists: Lists { current_list: None, list_type: None },
            bufs: Buffers { code_buffer: None, notes_buffer: Vec::new() },
            tables: Tables {
                table_rows: Vec::new(),
                current_table_row: Vec::new(),
                table_head_row: Vec::new(),
            },
            flags: Flags {
                in_code_block: false,
                in_ascii_block: false,
                in_presenter_notes: false,
                in_question_notes: false,
                in_table: false,
                in_table_cell: false,
                in_table_head: false,
                in_heading: false,
                heading_level: 0,
                in_blockquote: false,
                in_list_item: false,
                in_paragraph: false,
                check_fit_comment: false,
            },
        };
        proof {
            lemma_views_empty();
            lemma_frames_empty();
            reveal(deck_model);
            reveal(inl_model);
            reveal(list_model);
            reveal(buf_model);
            reveal(table_model);
            assert(r.bufs.notes_buffer@ =~= Seq::<char>::empty());
        }
        r
    }

    fn push_element(&mut self, e: SlideElement)
        ensures
            final(self)@ == (ParserModel { deck: old(self)@.deck.push_elem(e@), ..old(self)@ }),
    {
        proof {
            reveal(deck_model);
            lemma_elems_push(self.deck.current_elements@, e);
        }
        self.deck.current_elements.push(e);
    }

    fn take_pending(&mut self) -> (r: Vec<String>)
        ensures
            strs(r@) == old(self)@.deck.pending_or_empty(),
            final(self)@ == (ParserModel {
                deck: DeckModel { pending_class: None, ..old(self)@.deck },
                ..old(self)@
            }),
    {
        proof {
            reveal(deck_model);
            lemma_views_empty();
        }
        match self.deck.pending_class.take() {
            Some(c) => c,
            None => Vec::new(),
        }
    }

    /// Takes the current slide out, to change it and put it back.
    fn take_slide(&mut self) -> (r: Option<Slide>)
        ensures
            opt_slide(r) == old(self)@.deck.current_slide,
            final(self)@ == (ParserModel {
                deck: DeckModel { current_slide: None, ..old(self)@.deck },
                ..old(self)@
            }),
    {
        proof {
            reveal(deck_model);
        }
        self.deck.current_slide.take()
    }

    fn put_slide(&mut self, sl: Slide)
        ensures
            final(self)@ == (ParserModel {
                deck: DeckModel { current_slide: Some(sl@), ..old(self)@.deck },
                ..old(self)@
            }),
    {
        proof {
            reveal(deck_model);
        }
        self.deck.current_slide = Some(sl);
    }

    fn flush_list(&mut self)
        ensures
            final(self)@ == old(self)@.flush_list(),
    {
        proof {
            reveal(list_model);
        }
        match self.lists.current_list.take() {
            Some(list) => {
                if list.len() > 0 {
                    let e = match self.lists.list_type {
                        Some(ListType::Numbered(n)) => SlideElement::NumberedList(n, list),
                        _ => SlideElement::BulletList(list),
                    };
                    self.push_element(e);
                }
            },
            None => {},
        }
        self.lists.list_type = None;
    }

    #[verifier::spinoff_prover]
    #[verifier::rlimit(40)]
    fn close_notes(&mut self)
        ensures
            final(self)@ == old(self)@.close_notes(),
    {
        proof {
            reveal(buf_model);
        }
        self.flags.in_presenter_notes = false;
        self.flags.in_question_notes = false;
        if self.bufs.notes_buffer.len() > 0 {
            let t = trim_vec(&self.bufs.notes_buffer);
            if let Some(mut sl) = self.take_slide() {
                if sl.notes.is_none() {
                    sl.notes = Some(string_of(&t));
                }
                self.put_slide(sl);
            }
            self.bufs.notes_buffer = Vec::new();
            assert(self.bufs.notes_buffer@ =~= Seq::<char>::empty());
        }
    }

    /// Ends the current slide: the open list and notes block are closed and
    /// the slide, with the elements gathered for it, joins the deck.
    pub fn finish_current_slide(&mut self)
        ensures
            final(self)@ == old(self)@.finish_slide(),
    {
        self.flush_list();
        self.close_notes();
        proof {
            reveal(deck_model);
            lemma_views_empty();
        }
        if self.deck.current_slide.is_none() && self.deck.current_elements.len() > 0 {
            self.open_slide(None, Vec::new(), SlideType::Content);
            proof {
                reveal(deck_model);
            }
        }
        match self.deck.current_slide.take() {
            Some(mut sl) => {
                if self.deck.current_elements.len() > 0 || sl.title.is_some() {
                    sl.content = take_vec(&mut self.deck.current_elements);
                    if sl.slide_type == SlideType::Content {
                        sl.slide_type = determine_slide_type(sl.title.is_some(), &sl.content);
                    }
                    proof {
                        lemma_slides_push(self.deck.slides@, sl);
                    }
                    self.deck.slides.push(sl);
                }
                self.deck.current_elements = Vec::new();
            },
            None => {},
        }
    }

    fn open_slide(&mut self, title: Option<String>, title_inlines: Vec<InlineContent>, ty: SlideType)
        ensures
            final(self)@ == (ParserModel {
                deck: old(self)@.deck.open_slide(opt_str(title), inls(title_inlines@), ty),
                ..old(self)@
            }),
    {
        let class = self.take_pending();
        let sl = Slide {
            index: 0,
            title,
            title_inlines,
            content: Vec::new(),
            notes: None,
            slide_type: ty,
            class,
            background_color: None,
            background_image: None,
            color: None,
            image: None,
            header: None,
            footer: None,
            fit_title: false,
        };
        proof {
            lemma_views_empty();
        }
        assert(sl@ =~= fresh_slide(
            opt_str(title),
            inls(title_inlines@),
            ty,
            old(self)@.deck.pending_or_empty(),
        ));
        self.put_slide(sl);
    }

    fn take_active(&mut self) -> (r: Vec<InlineContent>)
        ensures
            inls(r@) == old(self)@.inl.active(old(self)@.flags),
            final(self)@ == (ParserModel {
                inl: old(self)@.inl.with_active(old(self)@.flags, seq![]),
                ..old(self)@
            }),
    {
        proof {
            reveal(inl_model);
            lemma_views_empty();
        }
        if self.flags.in_heading {
            take_vec(&mut self.inl.heading_inlines)
        } else if self.flags.in_blockquote {
            take_vec(&mut self.inl.blockquote_inlines)
        } else {
            take_vec(&mut self.inl.current_inlines)
        }
    }

    fn set_active(&mut self, v: Vec<InlineContent>)
        ensures
            final(self)@ == (ParserModel {
                inl: old(self)@.inl.with_active(old(self)@.flags, inls(v@)),
                ..old(self)@
            }),
    {
        proof {
            reveal(inl_model);
        }
        if self.flags.in_heading {
            self.inl.heading_inlines = v;
        } else if self.flags.in_blockquote {
            self.inl.blockquote_inlines = v;
        } else {
            self.inl.current_inlines = v;
        }
    }

    /// Push inline content into the buffer of the active context.
    fn push_inline(&mut self, inline: InlineContent)
        ensures
            final(self)@ == old(self)@.push_inline(inline@),
    {
        proof {
            reveal(inl_model);
        }
        if self.flags.in_heading {
            proof {
                lemma_inls_push(self.inl.heading_inlines@, inline);
            }
            self.inl.heading_inlines.push(inline);
        } else if self.flags.in_table_cell {
            proof {
                lemma_inls_push(self.inl.current_inlines@, inline);
            }
            self.inl.current_inlines.push(inline);
        } else if self.flags.in_blockquote {
            proof {
                lemma_inls_push(self.inl.blockquote_inlines@, inline);
            }
            self.inl.blockquote_inlines.push(inline);
        } else {
            proof {
                lemma_inls_push(self.inl.current_inlines@, inline);
            }
            self.inl.current_inlines.push(inline);
        }
    }

    fn end_heading(&mut self)
        ensures
            final(self)@ == old(self)@.end_heading(),
    {
        let level = self.flags.heading_level;
        let inlines = {
            proof {
                reveal(inl_model);
                lemma_views_empty();
            }
            take_vec(&mut self.inl.heading_inlines)
        };
        let plain = plain_chars(inlines.as_slice());
        self.flags.in_heading = false;
        self.flags.check_fit_comment = false;
        let ghost s = self@;
        assert(s == (ParserModel {
            inl: InlModel { heading_inlines: seq![], ..old(self)@.inl },
            flags: Flags { in_heading: false, check_fit_comment: false, ..old(self)@.flags },
            ..old(self)@
        }));
        proof {
            reveal(deck_model);
        }
        let should_split = match &self.deck.settings.heading_divider {
            Some(d) => contains_usize(d, level) && match &self.deck.current_slide {
                Some(sl) => sl.title.is_some() || self.deck.current_elements.len() > 0,
                None => false,
            },
            None => false,
        };
        let ty = if level == 1 {
            SlideType::Title
        } else {
            SlideType::Content
        };
        if should_split {
            self.finish_current_slide();
            self.open_slide(Some(string_of(&plain)), inlines, ty);
        } else if let Some(mut sl) = self.take_slide() {
            if sl.title.is_none() {
                sl.title = Some(string_of(&plain));
                sl.title_inlines = inlines;
                self.put_slide(sl);
            } else {
                self.put_slide(sl);
                self.push_element(SlideElement::Heading(level, inlines));
            }
        } else {
            self.open_slide(Some(string_of(&plain)), inlines, ty);
        }
    }

    fn start_code_block(&mut self, lang: &String)
        ensures
            final(self)@ == old(self)@.step(MdEv::StartCodeBlock(lang@)),
    {
        self.flush_list();
        proof {
            reveal(buf_model);
        }
        let l = chars_of_string(lang);
        self.flags.in_code_block = true;
        self.flags.in_ascii_block = is_ascii_lang_vec(&l);
        self.bufs.code_buffer = Some((l, Vec::new()));
    }

    fn end_code_block(&mut self)
        ensures
            final(self)@ == old(self)@.end_code_block(),
    {
        proof {
            reveal(buf_model);
        }
        match self.bufs.code_buffer.take() {
            Some((lang, code)) => {
                let ty = if self.flags.in_ascii_block {
                    SlideType::AsciiArt
                } else {
                    SlideType::Code
                };
                self.push_element(SlideElement::CodeBlock(string_of(&lang), string_of(&code)));
                proof {
                    reveal(deck_model);
                    lemma_views_empty();
                }
                if self.deck.current_slide.is_none() {
                    self.open_slide(None, Vec::new(), ty);
                }
            },
            None => {},
        }
        self.flags.in_code_block = false;
        self.flags.in_ascii_block = false;
    }

    fn open_frame(&mut self, fr: InlineFrame)
        ensures
            final(self)@ == old(self)@.open_frame(fr@),
    {
        let current = self.take_active();
        proof {
            reveal(inl_model);
            lemma_frames_push(self.inl.inline_stack@, (fr, current));
        }
        self.inl.inline_stack.push((fr, current));
    }

    fn pop_frame(&mut self) -> (r: Option<(InlineFrame, Vec<InlineContent>)>)
        ensures
            old(self)@.inl.inline_stack.len() == 0 ==> r is None && final(self)@ == old(self)@,
            old(self)@.inl.inline_stack.len() > 0 ==> (r matches Some(p) && (p.0@, inls(p.1@))
                == old(self)@.inl.inline_stack.last() && final(self)@ == (ParserModel {
                inl: InlModel {
                    inline_stack: old(self)@.inl.inline_stack.drop_last(),
                    ..old(self)@.inl
                },
                ..old(self)@
            })),
    {
        proof {
            reveal(inl_model);
            reveal(frames);
        }
        if self.inl.inline_stack.len() > 0 {
            proof {
                lemma_frames_drop_last(self.inl.inline_stack@);
            }
        }
        self.inl.inline_stack.pop()
    }

    fn end_frame(&mut self, tag: MdTag)
        ensures
            final(self)@ == old(self)@.end_frame(tag),
    {
        let children = self.take_active();
        let ghost ch = inls(children@);
        match self.pop_frame() {
            Some((fr, mut parent)) => {
                let made: Option<InlineContent> = match fr {
                    InlineFrame::Emphasis => if tag == MdTag::Emphasis {
                        Some(InlineContent::Italic(children))
                    } else {
                        None
                    },
                    InlineFrame::Strong => if tag == MdTag::Strong {
                        Some(InlineContent::Bold(children))
                    } else {
                        None
                    },
                    InlineFrame::Strikethrough => if tag == MdTag::Strikethrough {
                        Some(InlineContent::Strikethrough(children))
                    } else {
                        None
                    },
                    InlineFrame::Link(url) => if tag == MdTag::Link {
                        Some(InlineContent::Link { text: children, url })
                    } else {
                        None
                    },
                };
                proof {
                    reveal(inls);
                    if made is Some {
                        let x = made->Some_0;
                        if x is Italic {
                            assert(x@->Italic_0 =~= ch);
                        } else if x is Bold {
                            assert(x@->Bold_0 =~= ch);
                        } else if x is Strikethrough {
                            assert(x@->Strike_0 =~= ch);
                        } else if x is Link {
                            assert(x@->Link_0 =~= ch);
                        }
                    }
                }
                if let Some(x) = made {
                    proof {
                        lemma_inls_push(parent@, x);
                    }
                    parent.push(x);
                    self.set_active(parent);
                }
            },
            None => {},
        }
    }

    fn end_image(&mut self)
        ensures
            final(self)@ == old(self)@.end_image(),
    {
        let alt = self.take_active();
        let ghost s1 = self@;
        match self.pop_frame() {
            Some((InlineFrame::Link(url), parent)) => {
                let alt_text = plain_chars(alt.as_slice());
                let uc = chars_of_string(&url);
                let img = parse_image_spec(&uc, &alt_text);
                if img.is_background {
                    if let Some(mut sl) = self.take_slide() {
                        sl.background_image = Some(url);
                        sl.image = Some(img);
                        self.put_slide(sl);
                    }
                } else {
                    self.push_element(SlideElement::Image(img));
                }
                self.set_active(parent);
            },
            _ => {},
        }
    }

    fn text(&mut self, t: String)
        ensures
            final(self)@ == old(self)@.text(t@),
    {
        proof {
            reveal(buf_model);
        }
        let f = self.flags;
        if !f.in_code_block && !f.in_ascii_block && f.in_paragraph && !f.in_blockquote
            && !f.in_list_item && !f.in_heading && !f.in_table_cell && eq_str(
            &trim_vec(&chars_of_string(&t)),
            "???",
        ) {
            if self.flags.in_presenter_notes {
                self.close_notes();
            } else {
                self.flags.in_presenter_notes = true;
                self.flags.in_question_notes = true;
                self.bufs.notes_buffer = Vec::new();
                assert(self.bufs.notes_buffer@ =~= Seq::<char>::empty());
            }
            return;
        }
        if self.flags.in_presenter_notes {
            if self.bufs.notes_buffer.len() > 0 {
                self.bufs.notes_buffer.push('\n');
            }
            let c = chars_of_string(&t);
            append_vec(&mut self.bufs.notes_buffer, &c);
        } else if self.flags.in_code_block || self.flags.in_ascii_block {
            match self.bufs.code_buffer.take() {
                Some((lang, mut code)) => {
                    if code.len() > 0 {
                        code.push('\n');
                    }
                    let c = chars_of_string(&t);
                    append_vec(&mut code, &c);
                    self.bufs.code_buffer = Some((lang, code));
                },
                None => {},
            }
        } else if self.flags.in_heading || self.flags.in_table_cell || self.flags.in_blockquote
            || self.flags.in_list_item || self.flags.in_paragraph {
            self.push_inline(InlineContent::Text(t));
        } else {
            let tc = chars_of_string(&t);
            let tr = trim_vec(&tc);
            proof {
                reveal(deck_model);
            }
            if self.deck.current_slide.is_some() {
                if eq_str(&tr, "---") || eq_str(&tr, "***") || eq_str(&tr, "___") {
                    self.finish_current_slide();
                } else {
                    let mut sl = self.take_slide().unwrap();
                    if sl.title.is_none() && tr.len() > 0 {
                        sl.title = Some(string_of(&tr));
                        let ti = vec![InlineContent::Text(string_of(&tr))];
                        proof {
                            reveal(inls);
                        }
                        assert(inls(ti@) =~= seq![Inline::Text(tr@)]);
                        sl.title_inlines = ti;
                        self.put_slide(sl);
                    } else {
                        self.put_slide(sl);
                        if tr.len() > 0 {
                            self.push_element(plain_element(t));
                        }
                    }
                }
            } else if tr.len() > 0 {
                self.push_element(plain_element(t));
            }
        }
    }

    fn start_paragraph(&mut self)
        ensures
            final(self)@ == old(self)@.step(MdEv::Start(MdTag::Paragraph)),
    {
        self.flush_list();
        proof {
            reveal(inl_model);
            lemma_views_empty();
        }
        self.flags.in_paragraph = true;
        self.inl.current_inlines = Vec::new();
    }

    fn end_paragraph(&mut self)
        ensures
            final(self)@ == old(self)@.end_paragraph(),
    {
        proof {
            reveal(inl_model);
            lemma_views_empty();
        }
        self.flags.in_paragraph = false;
        let inlines = take_vec(&mut self.inl.current_inlines);
        if inlines.len() > 0 {
            if self.flags.in_blockquote {
                let ghost b0 = self.inl.blockquote_inlines@;
                let mut v = inlines;
                self.inl.blockquote_inlines.append(&mut v);
                proof {
                    reveal(inls);
                    assert(inls(self.inl.blockquote_inlines@) =~= inls(b0) + inls(inlines@));
                }
            } else if self.flags.in_list_item {
                self.inl.current_inlines = inlines;
            } else {
                self.push_element(SlideElement::Paragraph(inlines));
            }
        }
    }

    fn start_list(&mut self, start: Option<u64>)
        ensures
            final(self)@ == old(self)@.step(MdEv::StartList(start)),
    {
        self.flush_list();
        proof {
            reveal(list_model);
            lemma_views_empty();
        }
        self.lists.current_list = Some(Vec::new());
        self.lists.list_type = match start {
            Some(n) => Some(ListType::Numbered(n)),
            None => Some(ListType::Bullet),
        };
    }

    fn start_item(&mut self)
        ensures
            final(self)@ == old(self)@.step(MdEv::Start(MdTag::Item)),
    {
        proof {
            reveal(list_model);
            reveal(inl_model);
            lemma_views_empty();
        }
        self.flags.in_list_item = true;
        self.inl.current_inlines = Vec::new();
        if self.lists.current_list.is_none() {
            self.lists.current_list = Some(Vec::new());
        }
    }

    fn end_item(&mut self)
        ensures
            final(self)@ == old(self)@.end_item(),
    {
        proof {
            reveal(list_model);
            reveal(inl_model);
            lemma_views_empty();
        }
        self.flags.in_list_item = false;
        let inlines = take_vec(&mut self.inl.current_inlines);
        match self.lists.current_list.take() {
            Some(mut list) => {
                proof {
                    lemma_inls2_push(list@, inlines);
                }
                list.push(inlines);
                self.lists.current_list = Some(list);
            },
            None => {},
        }
    }

    fn start_blockquote(&mut self)
        ensures
            final(self)@ == old(self)@.step(MdEv::Start(MdTag::BlockQuote)),
    {
        self.flush_list();
        proof {
            reveal(inl_model);
            lemma_views_empty();
        }
        self.flags.in_blockquote = true;
        self.inl.blockquote_inlines = Vec::new();
    }

    fn end_blockquote(&mut self)
        ensures
            final(self)@ == old(self)@.end_blockquote(),
    {
        proof {
            reveal(inl_model);
            lemma_views_empty();
        }
        self.flags.in_blockquote = false;
        let inlines = take_vec(&mut self.inl.blockquote_inlines);
        if inlines.len() > 0 {
            self.push_element(SlideElement::Blockquote(inlines));
        }
    }

    fn start_table(&mut self)
        ensures
            final(self)@ == old(self)@.step(MdEv::Start(MdTag::Table)),
    {
        self.flush_list();
        proof {
            reveal(table_model);
            lemma_views_empty();
        }
        self.flags.in_table = true;
        self.tables.table_rows = Vec::new();
        self.tables.current_table_row = Vec::new();
        self.tables.table_head_row = Vec::new();
    }

    /// The table's rows, its head first, taken out of the table buffers.
    fn take_table_rows(&mut self) -> (r: Vec<Vec<Vec<InlineContent>>>)
        ensures
            inls3(r@) == (if old(self)@.tables.table_head_row.len() > 0 {
                seq![old(self)@.tables.table_head_row]
            } else {
                seq![]
            }) + old(self)@.tables.table_rows,
            final(self)@ == (ParserModel {
                tables: TableModel {
                    table_head_row: seq![],
                    table_rows: seq![],
                    ..old(self)@.tables
                },
                ..old(self)@
            }),
    {
        proof {
            reveal(table_model);
            lemma_views_empty();
        }
        let ghost t0 = self@.tables;
        let mut all: Vec<Vec<Vec<InlineContent>>> = Vec::new();
        if self.tables.table_head_row.len() > 0 {
            let head = take_vec(&mut self.tables.table_head_row);
            proof {
                lemma_inls3_push(all@, head);
            }
            all.push(head);
            assert(inls3(all@) =~= seq![t0.table_head_row]);
        } else {
            assert(inls2(self.tables.table_head_row@) =~= Seq::<Seq<Inline>>::empty());
            assert(inls3(all@) =~= Seq::<Seq<Seq<Inline>>>::empty());
        }
        let ghost a0 = all@;
        let ghost t1 = self.tables.table_rows@;
        all.append(&mut self.tables.table_rows);
        proof {
            lemma_inls3_append(a0, t1);
        }
        all
    }

    fn end_table(&mut self)
        ensures
            final(self)@ == old(self)@.end_table(),
    {
        let all = self.take_table_rows();
        if all.len() > 0 {
            self.push_element(SlideElement::Table(all));
        }
        self.flags.in_table = false;
    }

    #[verifier::spinoff_prover]
    #[verifier::rlimit(50)]
    fn table_event(&mut self, e: &MdEvent)
        requires
            table_event(e@),
        ensures
            final(self)@ == old(self)@.step(e@),
    {
        proof {
            reveal(table_model);
            reveal(inl_model);
            lemma_views_empty();
        }
        match e {
            MdEvent::Start(MdTag::TableHead) => {
                self.flags.in_table_head = true;
                self.tables.current_table_row = Vec::new();
            },
            MdEvent::Start(MdTag::TableRow) => {
                self.tables.current_table_row = Vec::new();
            },
            MdEvent::Start(_) => {
                self.flags.in_table_cell = true;
                self.inl.current_inlines = Vec::new();
            },
            MdEvent::End(MdTag::TableHead) => {
                self.flags.in_table_head = false;
                self.tables.table_head_row = take_vec(&mut self.tables.current_table_row);
            },
            MdEvent::End(MdTag::TableRow) => {
                if !self.flags.in_table_head && self.tables.current_table_row.len() > 0 {
                    let row = take_vec(&mut self.tables.current_table_row);
                    proof {
                        lemma_inls3_push(self.tables.table_rows@, row);
                    }
                    self.tables.table_rows.push(row);
                }
            },
            _ => {
                self.flags.in_table_cell = false;
                let inlines = take_vec(&mut self.inl.current_inlines);
                proof {
                    lemma_inls2_push(self.tables.current_table_row@, inlines);
                }
                self.tables.current_table_row.push(inlines);
            },
        }
    }

    fn set_pending(&mut self, class: Vec<String>)
        ensures
            final(self)@ == (ParserModel {
                deck: DeckModel { pending_class: Some(strs(class@)), ..old(self)@.deck },
                ..old(self)@
            }),
    {
        proof {
            reveal(deck_model);
        }
        self.deck.pending_class = Some(class);
    }

    fn set_header(&mut self, v: &Vec<char>)
        ensures
            final(self)@ == old(self)@.with_settings(
                SettingsModel { header: Some(v@), ..old(self)@.deck.settings },
            ),
    {
        proof {
            reveal(deck_model);
        }
        self.deck.settings.header = Some(string_of(v));
    }

    fn set_footer(&mut self, v: &Vec<char>)
        ensures
            final(self)@ == old(self)@.with_settings(
                SettingsModel { footer: Some(v@), ..old(self)@.deck.settings },
            ),
    {
        proof {
            reveal(deck_model);
        }
        self.deck.settings.footer = Some(string_of(v));
    }

    fn set_paginate(&mut self, b: bool)
        ensures
            final(self)@ == old(self)@.with_settings(
                SettingsModel { paginate: b, ..old(self)@.deck.settings },
            ),
    {
        proof {
            reveal(deck_model);
        }
        self.deck.settings.paginate = b;
    }

    /// Directives that change the current slide.
    fn slide_directive(&mut self, inner: &Vec<char>) -> (done: bool)
        ensures
            done == slide_directive_applies(inner@),
            done ==> final(self)@ == old(self)@.slide_directive(inner@),
            !done ==> final(self)@ == old(self)@,
    {
        if let Some(rest) = strip_prefix_str(inner, "_class:") {
            let parts = split_trim_vec(&trim_vec(&rest), ',');
            let mut extra = strings_of(&parts);
            if let Some(mut sl) = self.take_slide() {
                let ghost c0 = sl.class@;
                let ghost e0 = extra@;
                sl.class.append(&mut extra);
                proof {
                    lemma_strs_append(c0, e0);
                }
                self.put_slide(sl);
            }
            return true;
        }
        if let Some(rest) = strip_prefix_str(inner, "bg:") {
            let v = trim_vec(&rest);
            if let Some(mut sl) = self.take_slide() {
                sl.background_color = Some(string_of(&v));
                self.put_slide(sl);
            }
            return true;
        }
        if let Some(rest) = strip_prefix_str(inner, "backgroundColor:") {
            let v = trim_vec(&rest);
            if let Some(mut sl) = self.take_slide() {
                sl.background_color = Some(string_of(&v));
                self.put_slide(sl);
            }
            return true;
        }
        if let Some(rest) = strip_prefix_str(inner, "backgroundImage:") {
            let v = trim_set_vec(&trim_vec(&rest), CharSet::Quotes);
            if let Some(mut sl) = self.take_slide() {
                sl.background_image = Some(string_of(&v));
                self.put_slide(sl);
            }
            return true;
        }
        if let Some(rest) = strip_prefix_str(inner, "color:") {
            let v = trim_vec(&rest);
            if let Some(mut sl) = self.take_slide() {
                sl.color = Some(string_of(&v));
                self.put_slide(sl);
            }
            return true;
        }
        if let Some(rest) = strip_prefix_str(inner, "_color:") {
            let v = trim_vec(&rest);
            if let Some(mut sl) = self.take_slide() {
                sl.color = Some(string_of(&v));
                self.put_slide(sl);
            }
            return true;
        }
        false
    }

    /// Directives that change the deck settings or the pending class.
    fn deck_directive(&mut self, inner: &Vec<char>) -> (done: bool)
        ensures
            done == deck_directive_applies(inner@),
            done ==> final(self)@ == old(self)@.deck_directive(inner@),
            !done ==> final(self)@ == old(self)@,
    {
        if let Some(rest) = strip_prefix_str(inner, "header:") {
            let v = trim_set_vec(&trim_vec(&rest), CharSet::Quotes);
            self.set_header(&v);
            return true;
        }
        if let Some(rest) = strip_prefix_str(inner, "_header:") {
            let v = trim_set_vec(&trim_vec(&rest), CharSet::Quotes);
            if let Some(mut sl) = self.take_slide() {
                sl.header = Some(string_of(&v));
                self.put_slide(sl);
            }
            return true;
        }
        if let Some(rest) = strip_prefix_str(inner, "footer:") {
            let v = trim_set_vec(&trim_vec(&rest), CharSet::Quotes);
            self.set_footer(&v);
            return true;
        }
        if let Some(rest) = strip_prefix_str(inner, "_footer:") {
            let v = trim_set_vec(&trim_vec(&rest), CharSet::Quotes);
            if let Some(mut sl) = self.take_slide() {
                sl.footer = Some(string_of(&v));
                self.put_slide(sl);
            }
            return true;
        }
        if let Some(rest) = strip_prefix_str(inner, "paginate:") {
            let v = trim_vec(&rest);
            self.set_paginate(eq_str(&v, "true"));
            return true;
        }
        if let Some(rest) = strip_prefix_str(inner, "_paginate:") {
            let v = trim_vec(&rest);
            self.set_paginate(eq_str(&v, "true"));
            return true;
        }
        false
    }

    fn process_html_comment(&mut self, html: &String)
        requires
            !short_comment(html@),
        ensures
            final(self)@ == old(self)@.html_comment(html@),
    {
        let hc = chars_of_string(html);
        let t = trim_vec(&hc);
        if !starts_with_str(&t, "<!--") || !ends_with_str(&t, "-->") {
            return;
        }
        proof {
            reveal_strlit("<!--");
            reveal_strlit("-->");
        }
        let inner0 = slice(&t, 4, t.len() - 3);
        let inner = trim_vec(&inner0);
        if self.flags.in_heading && eq_str(&inner, "fit") {
            if let Some(mut sl) = self.take_slide() {
                sl.fit_title = true;
                self.put_slide(sl);
            }
            return;
        }
        if let Some(rest) = strip_prefix_str(&inner, "notes:") {
            let n = trim_vec(&rest);
            if let Some(mut sl) = self.take_slide() {
                sl.notes = Some(string_of(&n));
                self.put_slide(sl);
            }
            return;
        }
        if starts_with_str(&inner, "?") && !eq_str(&inner, "?") {
            proof {
                reveal(buf_model);
            }
            self.flags.in_presenter_notes = true;
            self.flags.in_question_notes = false;
            self.bufs.notes_buffer = Vec::new();
            assert(self.bufs.notes_buffer@ =~= Seq::<char>::empty());
            return;
        }
        if eq_str(&inner, "?") {
            self.close_notes();
            return;
        }
        if let Some(rest) = strip_prefix_str(&inner, "class:") {
            let parts = split_trim_vec(&trim_vec(&rest), ',');
            let c = strings_of(&parts);
            self.set_pending(c);
            return;
        }
        if self.slide_directive(&inner) {
            return;
        }
        if self.deck_directive(&inner) {
            return;
        }
        if eq_str(&trim_vec(&inner), "---") {
            self.finish_current_slide();
        }
    }

    fn start_heading(&mut self, level: usize)
        ensures
            final(self)@ == old(self)@.step(MdEv::StartHeading(level)),
    {
        self.flush_list();
        proof {
            reveal(inl_model);
            lemma_views_empty();
        }
        self.flags.in_heading = true;
        self.flags.heading_level = level;
        self.inl.heading_inlines = Vec::new();
        self.flags.check_fit_comment = true;
    }

    /// Takes in one Markdown event.
    pub fn process_event(&mut self, event: &MdEvent)
        requires
            !(event@ matches MdEv::Html(h) && short_comment(h)),
        ensures
            final(self)@ == old(self)@.step(event@),
    {
        match event {
            MdEvent::StartHeading(l) => self.start_heading(*l),
            MdEvent::StartCodeBlock(lang) => self.start_code_block(lang),
            MdEvent::StartLink(u) => self.open_frame(InlineFrame::Link(u.clone())),
            MdEvent::StartImage(u) => self.open_frame(InlineFrame::Link(u.clone())),
            MdEvent::StartList(n) => self.start_list(*n),
            MdEvent::Start(MdTag::Emphasis) => self.open_frame(InlineFrame::Emphasis),
            MdEvent::Start(MdTag::Strong) => self.open_frame(InlineFrame::Strong),
            MdEvent::Start(MdTag::Strikethrough) => self.open_frame(InlineFrame::Strikethrough),
            MdEvent::Start(MdTag::Paragraph) => self.start_paragraph(),
            MdEvent::Start(MdTag::Item) => self.start_item(),
            MdEvent::Start(MdTag::BlockQuote) => self.start_blockquote(),
            MdEvent::Start(MdTag::Table) => self.start_table(),
            MdEvent::Start(MdTag::TableHead) => self.table_event(event),
            MdEvent::Start(MdTag::TableRow) => self.table_event(event),
            MdEvent::Start(MdTag::TableCell) => self.table_event(event),
            MdEvent::End(MdTag::Heading) => self.end_heading(),
            MdEvent::End(MdTag::CodeBlock) => self.end_code_block(),
            MdEvent::End(MdTag::Emphasis) => self.end_frame(MdTag::Emphasis),
            MdEvent::End(MdTag::Strong) => self.end_frame(MdTag::Strong),
            MdEvent::End(MdTag::Strikethrough) => self.end_frame(MdTag::Strikethrough),
            MdEvent::End(MdTag::Link) => self.end_frame(MdTag::Link),
            MdEvent::End(MdTag::Image) => self.end_image(),
            MdEvent::End(MdTag::Paragraph) => self.end_paragraph(),
            MdEvent::End(MdTag::List) => self.flush_list(),
            MdEvent::End(MdTag::Item) => self.end_item(),
            MdEvent::End(MdTag::BlockQuote) => self.end_blockquote(),
            MdEvent::End(MdTag::Table) => self.end_table(),
            MdEvent::End(MdTag::TableHead) => self.table_event(event),
            MdEvent::End(MdTag::TableRow) => self.table_event(event),
            MdEvent::End(MdTag::TableCell) => self.table_event(event),
            MdEvent::Code(c) => self.push_inline(InlineContent::Code(c.clone())),
            MdEvent::SoftBreak => {
                if !self.flags.in_question_notes {
                    let sp = chars_of(" ");
                    self.push_inline(InlineContent::Text(string_of(&sp)));
                }
            },
            MdEvent::HardBreak => {
                if !self.flags.in_question_notes {
                    self.push_inline(InlineContent::LineBreak);
                }
            },
            MdEvent::TaskListMarker(checked) => {
                let m = if *checked {
                    chars_of("☑ ")
                } else {
                    chars_of("☐ ")
                };
                self.push_inline(InlineContent::Text(string_of(&m)));
            },
            MdEvent::Text(t) => self.text(t.clone()),
            MdEvent::Rule => self.finish_current_slide(),
            MdEvent::Html(h) => self.process_html_comment(h),
            _ => {},
        }
    }

    /// Reads the front matter, if the document has one, into the settings
    /// and returns the Markdown that follows it.
    fn strip_front_matter(&mut self, markdown: &Vec<char>) -> (r: Vec<char>)
        ensures
            r@ == body_text(markdown@),
            final(self)@ == old(self)@.read_front_matter(markdown@),
    {
        let t = trim_start_set_vec(markdown, CharSet::Whitespace);
        let dashes = chars_of("---");
        if starts_with_vec(&t, &dashes) {
            let a = slice(&t, dashes.len(), t.len());
            proof {
                lemma_find_bound(a@, dashes@);
            }
            match find_vec(&a, &dashes) {
                Some(end) => {
                    let yaml = slice(&a, 0, end);
                    proof {
                        reveal(deck_model);
                    }
                    front_matter_exec(&mut self.deck.settings, &yaml);
                    let rest = slice(&a, end + dashes.len(), a.len());
                    return trim_start_set_vec(&rest, CharSet::Whitespace);
                },
                None => {},
            }
        }
        slice(markdown, 0, markdown.len())
    }

    /// Runs the events through the state machine and closes the deck: the
    /// slides (a placeholder slide when there are none), numbered and given
    /// the deck-wide defaults, and the settings.
    pub fn parse_events(&mut self, events: &Vec<MdEvent>) -> (r: (Vec<Slide>, DeckSettings))
        requires
            events_ok(evs(events@)),
        ensures
            final(self)@ == old(self)@.finish_parse(evs(events@)),
            slides_view(r.0@) == final(self)@.deck.slides,
            r.1@ == final(self)@.deck.settings,
    {
        let ghost s0 = self@;
        let mut i: usize = 0;
        while i < events.len()
            invariant
                i <= events.len(),
                events_ok(evs(events@)),
                self@ == s0.run(evs(events@).take(i as int)),
            decreases events.len() - i,
        {
            assert(evs(events@)[i as int] == events@[i as int]@);
            self.process_event(&events[i]);
            assert(evs(events@).take(i + 1).drop_last() =~= evs(events@).take(i as int));
            i += 1;
        }
        assert(evs(events@).take(i as int) =~= evs(events@));
        self.finish_current_slide();
        self.finalize_slides();
        proof {
            reveal(deck_model);
        }
        (copy_slides(&self.deck.slides), self.deck.settings.duplicate())
    }

    fn finalize_slides(&mut self)
        ensures
            final(self)@ == ({
                let s = old(self)@;
                let slides = if s.deck.slides.len() == 0 {
                    seq![no_content_slide()]
                } else {
                    s.deck.slides
                };
                ParserModel {
                    deck: DeckModel { slides: finalize_all(slides, s.deck.settings), ..s.deck },
                    ..s
                }
            }),
    {
        proof {
            reveal(deck_model);
        }
        if self.deck.slides.len() == 0 {
            let ph = no_content();
            proof {
                lemma_slides_push(self.deck.slides@, ph);
                lemma_views_empty();
            }
            self.deck.slides.push(ph);
        }
        let ghost src = slides_view(self.deck.slides@);
        let mut old_slides = take_vec(&mut self.deck.slides);
        let n = old_slides.len();
        let mut out: Vec<Slide> = Vec::new();
        let mut i: usize = 0;
        while i < n
            invariant
                i <= n,
                n == src.len(),
                old_slides@.len() == n - i,
                slides_view(old_slides@) == src.skip(i as int),
                slides_view(out@) == finalize_all(src, self.deck.settings@).take(i as int),
            decreases n - i,
        {
            proof {
                reveal(slides_view);
            }
            let ghost before = old_slides@;
            let sl = old_slides.remove(0);
            assert(slides_view(before)[0] == before[0]@);
            assert(src.skip(i as int)[0] == src[i as int]);
            assert(sl@ == src[i as int]);
            assert(slides_view(old_slides@) =~= src.skip(i + 1)) by {
                assert(old_slides@ =~= before.subrange(1, before.len() as int));
                assert forall|k: int| 0 <= k < old_slides@.len() implies slides_view(old_slides@)[k]
                    == src.skip(i + 1)[k] by {
                    assert(slides_view(before)[k + 1] == before[k + 1]@);
                    assert(src.skip(i as int)[k + 1] == src.skip(i + 1)[k]);
                }
            }
            let f = finalize(sl, i, &self.deck.settings);
            let ghost o0 = out@;
            out.push(f);
            proof {
                lemma_slides_push(o0, f);
                assert(finalize_all(src, self.deck.settings@).take(i + 1) =~= finalize_all(
                    src,
                    self.deck.settings@,
                ).take(i as int).push(finalize_slide(src[i as int], i as int, self.deck.settings@)));
            }
            i += 1;
        }
        assert(finalize_all(src, self.deck.settings@).take(n as int) =~= finalize_all(
            src,
            self.deck.settings@,
        ));
        self.deck.slides = out;
        assert(src == (if old(self)@.deck.slides.len() == 0 {
            seq![no_content_slide()]
        } else {
            old(self)@.deck.slides
        }));
    }

    pub fn parse(&mut self, markdown: &str) -> (r: (Vec<Slide>, DeckSettings))
        requires
            parsable(markdown@),
        ensures
            final(self)@ == old(self)@.parse_text(markdown@),
            slides_view(r.0@) == final(self)@.deck.slides,
            r.1@ == final(self)@.deck.settings,
    {
        let md = chars_of(markdown);
        let text = self.strip_front_matter(&md);
        let events = markdown_events_of(&text);
        self.parse_events(&events)
    }
}

/// The placeholder slide of an empty deck.
fn no_content() -> (r: Slide)
    ensures
        r@ == no_content_slide(),
{
    let t = chars_of("No content");
    let e = plain_element(string_of(&t));
    let r = Slide {
        index: 0,
        title: None,
        title_inlines: Vec::new(),
        content: vec![e],
        notes: None,
        slide_type: SlideType::Content,
        class: Vec::new(),
        background_color: None,
        background_image: None,
        color: None,
        image: None,
        header: None,
        footer: None,
        fit_title: false,
    };
    proof {
        lemma_views_empty();
        reveal(elems);
        assert(elems(r.content@) =~= seq![e@]);
    }
    assert(r@ =~= no_content_slide());
    r
}

/// A slide numbered and given the deck-wide defaults.
fn finalize(sl: Slide, i: usize, st: &DeckSettings) -> (r: Slide)
    ensures
        r@ == finalize_slide(sl@, i as int, st@),
{
    let mut sl = sl;
    sl.index = i;
    if sl.background_color.is_none() {
        sl.background_color = copy_opt_string(&st.background_color);
    }
    if sl.color.is_none() {
        sl.color = copy_opt_string(&st.color);
    }
    if sl.header.is_none() {
        sl.header = copy_opt_string(&st.header);
    }
    if sl.footer.is_none() {
        sl.footer = copy_opt_string(&st.footer);
    }
    if sl.class.len() == 0 && st.class.len() > 0 {
        sl.class = copy_strings(&st.class);
    }
    if sl.slide_type == SlideType::Content {
        sl.slide_type = determine_slide_type(sl.title.is_some(), &sl.content);
    }
    sl
}

/// Parses a Markdown document into slides and deck settings.
pub fn parse_markdown(markdown: &str) -> (r: (Vec<Slide>, DeckSettings))
    requires
        parsable(markdown@),
    ensures
        slides_view(r.0@) == parse_deck(markdown@).0,
        r.1@ == parse_deck(markdown@).1,
{
    let mut parser = MarkdownParser::new();
    parser.parse(markdown)
}

/// Parses a Markdown document, or gives `None` for a document with an HTML
/// comment that the parser cannot slice (`<!-->` or `<!--->`).
pub fn try_parse_markdown(markdown: &str) -> (r: Option<(Vec<Slide>, DeckSettings)>)
    ensures
        r is Some <==> parsable(markdown@),
        r matches Some(p) ==> slides_view(p.0@) == parse_deck(markdown@).0 && p.1@ == parse_deck(
            markdown@,
        ).1,
{
    let md = chars_of(markdown);
    let mut parser = MarkdownParser::new();
    let text = parser.strip_front_matter(&md);
    let events = markdown_events_of(&text);
    if !events_fine(&events) {
        return None;
    }
    Some(parse_markdown(markdown))
}

/// Whether an HTML comment can be sliced.
fn comment_fine(html: &String) -> (r: bool)
    ensures
        r == !short_comment(html@),
{
    let hc = chars_of_string(html);
    let t = trim_vec(&hc);
    !(starts_with_str(&t, "<!--") && ends_with_str(&t, "-->") && t.len() < 7)
}

fn events_fine(events: &Vec<MdEvent>) -> (r: bool)
    ensures
        r == events_ok(evs(events@)),
{
    let mut i: usize = 0;
    while i < events.len()
        invariant
            i <= events.len(),
            forall|j: int|
                0 <= j < i ==> !(#[trigger] evs(events@)[j] matches MdEv::Html(h) && short_comment(
                    h,
                )),
        decreases events.len() - i,
    {
        assert(evs(events@)[i as int] == events@[i as int]@);
        match &events[i] {
            MdEvent::Html(h) => {
                if !comment_fine(h) {
                    return false;
                }
            },
            _ => {},
        }
        i += 1;
    }
    true
}

} // verus!
