//! The state of a running presentation: which slide is shown, what the keys
//! do, and the texts of the status bar and the presenter console.
use vstd::prelude::*;
use std::time::{Duration, Instant};
use crate::slide::{DeckSettings, Slide, SlideModel, SettingsModel, opt_str, slides_view};
use crate::style::{Color, css_color, simple_color, simple_color_ok};
use crate::text::{append_str, append_vec, chars_of, dec, dec_vec, string_of};

verus! {

broadcast use {crate::slide::group_views, crate::slide::group_view_lens};

#[verifier::external_type_specification]
#[verifier::external_body]
pub struct ExInstant(Instant);

/// Calls `Instant::now`. Nothing is stated of the instant: it is the clock's.
#[verifier::external_body]
fn instant_now() -> Instant {
    Instant::now()
}

/// Calls `Instant::elapsed`. Nothing is stated of the duration: it depends on
/// the clock.
#[verifier::external_body]
fn elapsed_since(start: &Instant) -> Duration {
    start.elapsed()
}

/// Calls `Duration::as_secs`: the whole seconds of a duration. The duration
/// is opaque here, so nothing is stated of the result.
#[verifier::external_body]
pub(crate) fn duration_secs(d: &Duration) -> u64 {
    d.as_secs()
}

// ---------------------------------------------------------------------------
// Clock text
// ---------------------------------------------------------------------------

/// `format!("{:02}", n)`: at least two digits, zero-padded.
pub open spec fn two_digits(n: nat) -> Seq<char> {
    if n < 10 {
        seq!['0'] + dec(n)
    } else {
        dec(n)
    }
}

/// `mm:ss` of a number of seconds; the minutes may take more digits.
pub open spec fn clock_text(secs: nat) -> Seq<char> {
    two_digits(secs / 60) + seq![':'] + two_digits(secs % 60)
}

fn two_digits_vec(n: u64) -> (r: Vec<char>)
    ensures
        r@ == two_digits(n as nat),
{
    let mut r: Vec<char> = Vec::new();
    if n < 10 {
        r.push('0');
    }
    append_vec(&mut r, &dec_vec(n as u128));
    assert(n < 10 ==> r@ =~= seq!['0'] + dec(n as nat));
    assert(n >= 10 ==> r@ =~= dec(n as nat));
    r
}

/// The `mm:ss` text of a number of seconds.
pub fn format_clock(secs: u64) -> (r: String)
    ensures
        r@ == clock_text(secs as nat),
{
    let mut c = two_digits_vec(secs / 60);
    c.push(':');
    append_vec(&mut c, &two_digits_vec(secs % 60));
    string_of(&c)
}

/// The time since `start` as `mm:ss`.
fn elapsed_text(start: &Instant) -> (r: String)
    ensures
        exists|secs: u64| r@ == clock_text(secs as nat),
{
    let d = elapsed_since(start);
    let secs = duration_secs(&d);
    format_clock(secs)
}

// ---------------------------------------------------------------------------
// Keys
// ---------------------------------------------------------------------------

/// A key press, as far as the presentation tells keys apart.
#[derive(Clone, Copy, Debug, PartialEq, Eq, Structural)]
pub enum Key {
    Char(char),
    Left,
    Right,
    Backspace,
    Other,
}

/// What a key does.
#[derive(Clone, Copy, Debug, PartialEq, Eq, Structural)]
pub enum Action {
    Quit,
    Next,
    Prev,
    Nothing,
}

/// The keys of the presentation: `q` quits; `j`, `l`, space and right go
/// forward; `k`, `h`, backspace and left go back (letters in either case).
/// Only presses count, not releases or repeats.
pub open spec fn key_action_spec(pressed: bool, key: Key) -> Action {
    if !pressed {
        Action::Nothing
    } else {
        match key {
            Key::Char(c) => if c == 'q' || c == 'Q' {
                Action::Quit
            } else if c == 'j' || c == 'J' || c == ' ' || c == 'l' || c == 'L' {
                Action::Next
            } else if c == 'k' || c == 'K' || c == 'h' || c == 'H' {
                Action::Prev
            } else {
                Action::Nothing
            },
            Key::Right => Action::Next,
            Key::Left => Action::Prev,
            Key::Backspace => Action::Prev,
            Key::Other => Action::Nothing,
        }
    }
}

/// What a key event does in the presentation.
pub fn key_action(pressed: bool, key: Key) -> (r: Action)
    ensures
        r == key_action_spec(pressed, key),
{
    if !pressed {
        return Action::Nothing;
    }
    match key {
        Key::Char(c) => {
            if c == 'q' || c == 'Q' {
                Action::Quit
            } else if c == 'j' || c == 'J' || c == ' ' || c == 'l' || c == 'L' {
                Action::Next
            } else if c == 'k' || c == 'K' || c == 'h' || c == 'H' {
                Action::Prev
            } else {
                Action::Nothing
            }
        },
        Key::Right => Action::Next,
        Key::Left => Action::Prev,
        Key::Backspace => Action::Prev,
        Key::Other => Action::Nothing,
    }
}

/// The presenter console quits on a press of `q`, and reacts to no other key.
pub fn console_quits(pressed: bool, key: Key) -> (r: bool)
    ensures
        r == (pressed && (key == Key::Char('q') || key == Key::Char('Q'))),
{
    pressed && match key {
        Key::Char(c) => c == 'q' || c == 'Q',
        _ => false,
    }
}

// ---------------------------------------------------------------------------
// The presentation
// ---------------------------------------------------------------------------

/// A presentation being shown.
pub struct AppState {
    slides: Vec<Slide>,
    current_index: usize,
    start_time: Instant,
    settings: DeckSettings,
}

pub struct AppModel {
    pub slides: Seq<SlideModel>,
    pub current_index: usize,
    pub settings: SettingsModel,
}

impl View for AppState {
    type V = AppModel;

    closed spec fn view(&self) -> AppModel {
        AppModel {
            slides: slides_view(self.slides@),
            current_index: self.current_index,
            settings: self.settings@,
        }
    }
}

impl AppState {
    /// The current slide is one of the slides, where there are any.
    #[verifier::type_invariant]
    spec fn current_in_deck(self) -> bool {
        self@.wf()
    }
}

impl AppModel {
    /// The current slide is one of the slides, where there are any.
    pub open spec fn wf(self) -> bool {
        &&& self.current_index == 0 || self.current_index < self.slides.len()
        &&& self.slides.len() <= usize::MAX
    }

    /// The index after moving forward: one more, up to the last slide.
    pub open spec fn next_index(self) -> usize {
        if self.current_index + 1 < self.slides.len() {
            (self.current_index + 1) as usize
        } else {
            self.current_index
        }
    }

    /// The index after moving back: one less, down to the first slide.
    pub open spec fn prev_index(self) -> usize {
        if self.current_index > 0 {
            (self.current_index - 1) as usize
        } else {
            self.current_index
        }
    }
}

impl AppState {
    /// A presentation at its first slide, its clock started now.
    pub fn new(slides: Vec<Slide>, settings: DeckSettings) -> (r: Self)
        ensures
            r@.slides == slides_view(slides@),
            r@.current_index == 0,
            r@.settings == settings@,
            r@.wf(),
    {
        let count: usize = slides.len();
        assert(slides@.len() == count);
        AppState { slides, current_index: 0, start_time: instant_now(), settings }
    }

    pub fn current_index(&self) -> (r: usize)
        ensures
            r == self@.current_index,
    {
        self.current_index
    }

    /// The slide shown.
    pub fn current_slide(&self) -> (r: &Slide)
        requires
            self@.slides.len() > 0,
        ensures
            r@ == self@.slides[self@.current_index as int],
    {
        proof {
            use_type_invariant(self);
        }
        &self.slides[self.current_index]
    }

    pub fn total_slides(&self) -> (r: usize)
        ensures
            r == self@.slides.len(),
    {
        self.slides.len()
    }

    /// The deck settings.
    pub fn settings(&self) -> (r: &DeckSettings)
        ensures
            r@ == self@.settings,
    {
        &self.settings
    }

    /// The time since the presentation started, as `mm:ss`.
    pub fn elapsed_time(&self) -> (r: String)
        ensures
            exists|secs: u64| r@ == clock_text(secs as nat),
    {
        elapsed_text(&self.start_time)
    }

    /// Moves to the next slide, unless at the last.
    pub fn next(&mut self)
        ensures
            final(self)@.current_index == old(self)@.next_index(),
            final(self)@.slides == old(self)@.slides,
            final(self)@.settings == old(self)@.settings,
            final(self)@.wf(),
    {
        proof {
            use_type_invariant(&*self);
        }
        let n = self.slides.len();
        if self.current_index + 1 < n {
            self.current_index += 1;
        }
    }

    /// Moves to the previous slide, unless at the first.
    pub fn prev(&mut self)
        ensures
            final(self)@.current_index == old(self)@.prev_index(),
            final(self)@.slides == old(self)@.slides,
            final(self)@.settings == old(self)@.settings,
            final(self)@.wf(),
    {
        proof {
            use_type_invariant(&*self);
        }
        if self.current_index > 0 {
            self.current_index -= 1;
        }
    }

    /// Applies a key event; `true` when it asks to quit.
    pub fn handle_key(&mut self, pressed: bool, key: Key) -> (quit: bool)
        ensures
            quit == (key_action_spec(pressed, key) == Action::Quit),
            final(self)@.current_index == match key_action_spec(pressed, key) {
                Action::Next => old(self)@.next_index(),
                Action::Prev => old(self)@.prev_index(),
                _ => old(self)@.current_index,
            },
            final(self)@.slides == old(self)@.slides,
            final(self)@.settings == old(self)@.settings,
            final(self)@.wf(),
    {
        proof {
            use_type_invariant(&*self);
        }
        match key_action(pressed, key) {
            Action::Quit => true,
            Action::Next => {
                self.next();
                false
            },
            Action::Prev => {
                self.prev();
                false
            },
            Action::Nothing => false,
        }
    }
}

// ---------------------------------------------------------------------------
// Status bar and frame
// ---------------------------------------------------------------------------

/// The status bar: position, clock and the keys.
pub open spec fn progress_text_spec(index: nat, total: nat, clock: Seq<char>) -> Seq<char> {
    " Slide "@ + dec(index + 1) + "/"@ + dec(total) + " │ "@ + clock
        + " │ j/k or ←/→ Navigate │ q Quit "@
}

impl AppState {
    /// The status bar text, with the clock text given.
    pub fn progress_text(&self, clock: &String) -> (r: String)
        ensures
            r@ == progress_text_spec(self@.current_index as nat, self@.slides.len(), clock@),
    {
        proof {
            use_type_invariant(self);
        }
        let n = self.slides.len();
        let mut c = chars_of(" Slide ");
        append_vec(&mut c, &dec_vec((self.current_index as u128) + 1));
        append_str(&mut c, "/");
        append_vec(&mut c, &dec_vec(n as u128));
        append_str(&mut c, " │ ");
        append_str(&mut c, clock.as_str());
        append_str(&mut c, " │ j/k or ←/→ Navigate │ q Quit ");
        string_of(&c)
    }
}

/// The frame's background: the slide's `#rrggbb` background color, else the
/// dark default.
pub open spec fn background_spec(bg: Option<Seq<char>>) -> Color {
    match bg {
        Some(c) => match simple_color(c) {
            Some(k) => k,
            None => Color::Rgb(26, 26, 46),
        },
        None => Color::Rgb(26, 26, 46),
    }
}

/// Whether the slide's background color can be read without slicing inside
/// a character.
pub fn background_ok(slide: &Slide) -> (r: bool)
    ensures
        r == (slide@.background_color matches Some(c) ==> simple_color_ok(c)),
{
    match &slide.background_color {
        Some(c) => crate::style::simple_color_ok_check(&chars_of(c.as_str())),
        None => true,
    }
}

/// The frame's background color for a slide.
pub fn slide_background(slide: &Slide) -> (r: Color)
    requires
        slide@.background_color matches Some(c) ==> simple_color_ok(c),
    ensures
        r == background_spec(slide@.background_color),
{
    match &slide.background_color {
        Some(c) => match crate::style::parse_css_color_simple(&chars_of(c.as_str())) {
            Some(k) => k,
            None => Color::Rgb(26, 26, 46),
        },
        None => Color::Rgb(26, 26, 46),
    }
}

// ---------------------------------------------------------------------------
// The presenter console
// ---------------------------------------------------------------------------

/// What the presentation tells the presenter console about the current slide.
pub struct PresenterMessage {
    pub current_slide: usize,
    pub total_slides: usize,
    pub notes: Option<String>,
    pub title: Option<String>,
}

/// The message for a slide of a deck of `total` slides.
pub fn create_message(slide: &Slide, total: usize) -> (r: PresenterMessage)
    ensures
        r.current_slide == slide@.index,
        r.total_slides == total,
        opt_str(r.notes) == slide@.notes,
        opt_str(r.title) == slide@.title,
{
    PresenterMessage {
        current_slide: slide.index,
        total_slides: total,
        notes: slide.notes.clone(),
        title: slide.title.clone(),
    }
}

/// What the presenter console knows of the presentation.
pub struct ClientState {
    current_index: usize,
    total_slides: usize,
    notes: Option<String>,
    title: Option<String>,
    start_time: Instant,
    connected: bool,
}

pub struct ClientModel {
    pub current_index: usize,
    pub total_slides: usize,
    pub notes: Option<Seq<char>>,
    pub title: Option<Seq<char>>,
    pub connected: bool,
}

impl View for ClientState {
    type V = ClientModel;

    closed spec fn view(&self) -> ClientModel {
        ClientModel {
            current_index: self.current_index,
            total_slides: self.total_slides,
            notes: opt_str(self.notes),
            title: opt_str(self.title),
            connected: self.connected,
        }
    }
}

impl ClientState {
    /// Not connected yet; the clock starts now.
    pub fn new() -> (r: Self)
        ensures
            r@.current_index == 0,
            r@.total_slides == 0,
            r@.notes is None,
            r@.title is None,
            !r@.connected,
    {
        ClientState {
            current_index: 0,
            total_slides: 0,
            notes: None,
            title: None,
            start_time: instant_now(),
            connected: false,
        }
    }

    /// The time since the console started, as `mm:ss`.
    pub fn elapsed_time(&self) -> (r: String)
        ensures
            exists|secs: u64| r@ == clock_text(secs as nat),
    {
        elapsed_text(&self.start_time)
    }

    pub fn current_index(&self) -> (r: usize)
        ensures
            r == self@.current_index,
    {
        self.current_index
    }

    pub fn total_slides(&self) -> (r: usize)
        ensures
            r == self@.total_slides,
    {
        self.total_slides
    }

    pub fn notes(&self) -> (r: &Option<String>)
        ensures
            opt_str(*r) == self@.notes,
    {
        &self.notes
    }

    pub fn connected(&self) -> (r: bool)
        ensures
            r == self@.connected,
    {
        self.connected
    }

    /// Takes in a message from the presentation.
    pub fn apply(&mut self, msg: PresenterMessage)
        ensures
            final(self)@.current_index == msg.current_slide,
            final(self)@.total_slides == msg.total_slides,
            final(self)@.notes == opt_str(msg.notes),
            final(self)@.title == opt_str(msg.title),
            final(self)@.connected,
    {
        self.current_index = msg.current_slide;
        self.total_slides = msg.total_slides;
        self.notes = msg.notes;
        self.title = msg.title;
        self.connected = true;
    }
}

/// The slide the console shows for a reported index: that one, or the last.
pub open spec fn shown_index_spec(i: usize, n: usize) -> usize {
    let last = if n > 0 {
        (n - 1) as usize
    } else {
        0
    };
    if i <= last {
        i
    } else {
        last
    }
}

pub fn shown_index(i: usize, n: usize) -> (r: usize)
    ensures
        r == shown_index_spec(i, n),
{
    let last = n.saturating_sub(1);
    if i <= last {
        i
    } else {
        last
    }
}

/// The slide previewed after the reported one, where there is one.
pub fn preview_index(i: usize, n: usize) -> (r: Option<usize>)
    requires
        i < usize::MAX,
    ensures
        r == if i + 1 < n {
            Some((i + 1) as usize)
        } else {
            None::<usize>
        },
{
    if i + 1 < n {
        Some(i + 1)
    } else {
        None
    }
}

/// The title of the notes panel.
pub fn notes_title(i: usize, total: usize) -> (r: String)
    requires
        i < usize::MAX,
    ensures
        r@ == " Notes (Slide "@ + dec((i + 1) as nat) + "/"@ + dec(total as nat) + ") "@,
{
    let mut c = chars_of(" Notes (Slide ");
    append_vec(&mut c, &dec_vec((i + 1) as u128));
    append_str(&mut c, "/");
    append_vec(&mut c, &dec_vec(total as u128));
    append_str(&mut c, ") ");
    string_of(&c)
}

/// The text of the notes panel.
pub fn notes_text(notes: &Option<String>) -> (r: String)
    ensures
        r@ == match notes {
            Some(n) => n@,
            None => "No notes"@,
        },
{
    match notes {
        Some(n) => n.clone(),
        None => string_of(&chars_of("No notes")),
    }
}

} // verus!
