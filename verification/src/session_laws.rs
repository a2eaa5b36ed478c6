//! Properties of moving through a presentation.
use vstd::prelude::*;
use crate::session::AppModel;

verus! {

/// Moving forward and then back returns to the same slide, except from the
/// last slide, where moving forward does nothing.
pub proof fn next_then_prev_returns(m: AppModel)
    requires
        m.wf(),
        m.current_index + 1 < m.slides.len(),
    ensures
        (AppModel { current_index: m.next_index(), ..m }).prev_index() == m.current_index,
{
}

/// Moving back and then forward returns to the same slide, except from the
/// first slide, where moving back does nothing.
pub proof fn prev_then_next_returns(m: AppModel)
    requires
        m.wf(),
        m.current_index > 0,
    ensures
        (AppModel { current_index: m.prev_index(), ..m }).next_index() == m.current_index,
{
}

/// Moving never leaves the deck.
pub proof fn navigation_stays_in_deck(m: AppModel)
    requires
        m.wf(),
        m.slides.len() > 0,
    ensures
        m.current_index < m.slides.len(),
        m.next_index() < m.slides.len(),
        m.prev_index() < m.slides.len(),
        (AppModel { current_index: m.next_index(), ..m }).wf(),
        (AppModel { current_index: m.prev_index(), ..m }).wf(),
{
}

/// Moving stops at the ends: back from the first slide and forward from the
/// last stay where they are; otherwise a move goes exactly one slide.
pub proof fn navigation_moves_one_slide(m: AppModel)
    requires
        m.wf(),
    ensures
        m.current_index == 0 ==> m.prev_index() == 0,
        m.current_index > 0 ==> m.prev_index() == m.current_index - 1,
        m.current_index + 1 >= m.slides.len() ==> m.next_index() == m.current_index,
        m.current_index + 1 < m.slides.len() ==> m.next_index() == m.current_index + 1,
{
}

} // verus!
