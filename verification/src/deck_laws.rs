//! Properties of every parsed deck.
use vstd::prelude::*;
use crate::directives::{has_code, slide_kind};
use crate::markdown::{MdEv, MdTag};
use crate::parser::{ParserModel, finalize_all, no_content_slide, parse_deck};
use crate::slide::{Element, Inline, SlideType, plain, plain_seq};
use crate::text::trim;

verus! {

proof fn lemma_finish_parse_slides(s: ParserModel, md: Seq<char>)
    ensures
        ({
            let p = s.parse_text(md);
            let t = s.read_front_matter(md).run(
                crate::markdown::cmark_events(crate::parser::body_text(md)),
            ).finish_slide();
            let raw = if t.deck.slides.len() == 0 {
                seq![no_content_slide()]
            } else {
                t.deck.slides
            };
            &&& p.deck.slides == finalize_all(raw, t.deck.settings)
            &&& p.deck.settings == t.deck.settings
            &&& raw.len() >= 1
        }),
{
}

/// A deck always has at least one slide: a document without any gets the
/// "No content" slide.
pub proof fn deck_is_never_empty(md: Seq<char>)
    ensures
        parse_deck(md).0.len() >= 1,
{
    lemma_finish_parse_slides(ParserModel::initial(), md);
}

/// Slides are numbered by their position in the deck.
pub proof fn slides_are_numbered(md: Seq<char>)
    ensures
        forall|i: int| 0 <= i < parse_deck(md).0.len() ==> #[trigger] parse_deck(md).0[i].index == i as usize,
{
    lemma_finish_parse_slides(ParserModel::initial(), md);
}

/// The deck-wide background color, text color, header and footer reach every
/// slide that has none of its own, and so do the deck's classes.
pub proof fn deck_defaults_reach_every_slide(md: Seq<char>)
    ensures
        forall|i: int|
            0 <= i < parse_deck(md).0.len() ==> {
                let sl = #[trigger] parse_deck(md).0[i];
                let st = parse_deck(md).1;
                &&& (st.background_color is Some ==> sl.background_color is Some)
                &&& (st.color is Some ==> sl.color is Some)
                &&& (st.header is Some ==> sl.header is Some)
                &&& (st.footer is Some ==> sl.footer is Some)
                &&& (st.class.len() > 0 ==> sl.class.len() > 0)
            },
{
    lemma_finish_parse_slides(ParserModel::initial(), md);
}

/// A slide is a plain content slide only when its content decides so: it has
/// no code block, and it is not a lone title.
pub proof fn content_slides_have_no_code(md: Seq<char>)
    ensures
        forall|i: int|
            0 <= i < parse_deck(md).0.len() && (#[trigger] parse_deck(md).0[i]).slide_type
                == SlideType::Content ==> !has_code(parse_deck(md).0[i].content) && !(
            parse_deck(md).0[i].title is Some && parse_deck(md).0[i].content.len() == 0),
{
    lemma_finish_parse_slides(ParserModel::initial(), md);
    assert forall|i: int|
        0 <= i < parse_deck(md).0.len() && (#[trigger] parse_deck(md).0[i]).slide_type
            == SlideType::Content implies !has_code(parse_deck(md).0[i].content) && !(
    parse_deck(md).0[i].title is Some && parse_deck(md).0[i].content.len() == 0) by {
        let sl = parse_deck(md).0[i];
        assert(sl.slide_type == slide_kind(sl.title is Some, sl.content) || sl.slide_type
            != SlideType::Content);
        if has_code(sl.content) {
            let j = choose|j: int| 0 <= j < sl.content.len() && #[trigger] sl.content[j] is CodeBlock;
            assert(slide_kind(sl.title is Some, sl.content) != SlideType::Content);
        }
    }
}

/// Parsing with a fresh parser is what `parse_markdown` does: the deck is a
/// function of the document alone.
pub proof fn fresh_parser_parses_the_deck(md: Seq<char>)
    ensures
        ParserModel::initial().parse_text(md).deck.slides == parse_deck(md).0,
        ParserModel::initial().parse_text(md).deck.settings == parse_deck(md).1,
{
}

/// A thematic break (`---`) ends the current slide: it is exactly finishing
/// the slide, whatever the parser's state.
pub proof fn rule_finishes_the_slide(p: ParserModel)
    ensures
        p.step(MdEv::Rule) == p.finish_slide(),
{
}

/// Finishing a slide twice is the same as finishing it once: a second break
/// right after a break adds no slide and changes nothing.
pub proof fn finishing_twice_is_once(p: ParserModel)
    ensures
        p.finish_slide().finish_slide() == p.finish_slide(),
{
    let q = p.finish_slide();
    assert(q.lists.current_list is None);
    assert(q.deck.current_slide is None);
    assert(q.deck.current_elements.len() == 0);
    assert(q.flush_list() == q);
    assert(q.close_notes() =~= q);
}

/// Outside a `???` notes block, a soft line break puts one space into the
/// inline text being gathered, and changes nothing else.
pub proof fn soft_break_is_one_space(p: ParserModel)
    requires
        !p.flags.in_question_notes,
    ensures
        p.step(MdEv::SoftBreak) == (ParserModel {
            inl: p.inl.push_inline(p.flags, Inline::Text(seq![' '])),
            ..p
        }),
{
    reveal_strlit(" ");
    assert(" "@ =~= seq![' ']);
}

/// Inside a paragraph of the slide body, outside code, notes, quotes,
/// lists, headings and tables.
pub open spec fn in_body_paragraph(f: crate::parser::Flags) -> bool {
    &&& f.in_paragraph
    &&& !f.in_code_block && !f.in_ascii_block && !f.in_presenter_notes && !f.in_question_notes
    &&& !f.in_heading && !f.in_table_cell && !f.in_blockquote && !f.in_list_item
}

proof fn lemma_start_paragraph()
    ensures
        in_body_paragraph(ParserModel::initial().step(MdEv::Start(MdTag::Paragraph)).flags),
        ParserModel::initial().step(MdEv::Start(MdTag::Paragraph)).inl.current_inlines
            == Seq::<Inline>::empty(),
        ParserModel::initial().step(MdEv::Start(MdTag::Paragraph)).deck.current_elements
            == Seq::<Element>::empty(),
{
}

#[verifier::spinoff_prover]
proof fn lemma_body_text(p: ParserModel, x: Seq<char>)
    requires
        in_body_paragraph(p.flags),
        trim(x) != "???"@,
    ensures
        p.step(MdEv::Text(x)).flags == p.flags,
        p.step(MdEv::Text(x)).deck == p.deck,
        p.step(MdEv::Text(x)).inl.current_inlines == p.inl.current_inlines.push(Inline::Text(x)),
{
}

#[verifier::spinoff_prover]
proof fn lemma_body_break(p: ParserModel)
    requires
        in_body_paragraph(p.flags),
    ensures
        p.step(MdEv::SoftBreak).flags == p.flags,
        p.step(MdEv::SoftBreak).deck == p.deck,
        p.step(MdEv::SoftBreak).inl.current_inlines == p.inl.current_inlines.push(
            Inline::Text(seq![' ']),
        ),
{
    soft_break_is_one_space(p);
}

#[verifier::spinoff_prover]
proof fn lemma_end_body_paragraph(p: ParserModel)
    requires
        in_body_paragraph(p.flags),
        p.inl.current_inlines.len() > 0,
    ensures
        p.step(MdEv::End(MdTag::Paragraph)).deck.current_elements == p.deck.current_elements.push(
            Element::Paragraph(p.inl.current_inlines),
        ),
{
}

proof fn lemma_plain_three(x: Seq<char>, y: Seq<char>)
    ensures
        plain_seq(seq![Inline::Text(x), Inline::Text(seq![' ']), Inline::Text(y)]) == x + seq![' ']
            + y,
{
    let inl = seq![Inline::Text(x), Inline::Text(seq![' ']), Inline::Text(y)];
    let a1 = seq![Inline::Text(x)];
    let a2 = seq![Inline::Text(x), Inline::Text(seq![' '])];
    assert(a1.drop_last() =~= Seq::<Inline>::empty());
    assert(a2.drop_last() =~= a1);
    assert(inl.drop_last() =~= a2);
    assert(plain_seq(Seq::<Inline>::empty()) == Seq::<char>::empty());
    assert(plain(Inline::Text(x)) == x);
    assert(plain(Inline::Text(seq![' '])) == seq![' ']);
    assert(plain(Inline::Text(y)) == y);
    assert(plain_seq(a1) =~= x);
    assert(plain_seq(a2) =~= x + seq![' ']);
    assert(plain_seq(inl) =~= x + seq![' '] + y);
}

/// A paragraph of two lines, neither of them a `???` line, becomes one
/// paragraph whose text is the two lines joined by one space.
#[verifier::spinoff_prover]
pub proof fn paragraph_lines_join_with_a_space(x: Seq<char>, y: Seq<char>)
    requires
        trim(x) != "???"@,
        trim(y) != "???"@,
    ensures
        ({
            let p = ParserModel::initial().step(MdEv::Start(MdTag::Paragraph)).step(
                MdEv::Text(x),
            ).step(MdEv::SoftBreak).step(MdEv::Text(y)).step(MdEv::End(MdTag::Paragraph));
            &&& p.deck.current_elements.len() == 1
            &&& p.deck.current_elements[0] is Paragraph
            &&& plain_seq(p.deck.current_elements[0]->Paragraph_0) == x + seq![' '] + y
        }),
{
    let p1 = ParserModel::initial().step(MdEv::Start(MdTag::Paragraph));
    lemma_start_paragraph();
    let p2 = p1.step(MdEv::Text(x));
    lemma_body_text(p1, x);
    let p3 = p2.step(MdEv::SoftBreak);
    lemma_body_break(p2);
    let p4 = p3.step(MdEv::Text(y));
    lemma_body_text(p3, y);
    let inl = seq![Inline::Text(x), Inline::Text(seq![' ']), Inline::Text(y)];
    assert(p4.inl.current_inlines =~= inl);
    lemma_end_body_paragraph(p4);
    let p5 = p4.step(MdEv::End(MdTag::Paragraph));
    assert(p5.deck.current_elements =~= seq![Element::Paragraph(inl)]);
    lemma_plain_three(x, y);
}

} // verus!
