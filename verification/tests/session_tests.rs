use std::path::PathBuf;
use tui_deck::ipc::{create_presenter_message, presenter_message, IpcClient};
use tui_deck::parser::parse_markdown;
use tui_deck::session::{
    console_quits, create_message, format_clock, key_action, notes_text, notes_title,
    preview_index, shown_index, slide_background, Action, AppState, ClientState, Key,
};
use tui_deck::style::Color;

const DECK: &str = "# One\n\na\n\n---\n\n# Two\n\nb\n\n<!-- notes: Say two -->\n\n---\n\n# Three\n\nc\n";

#[test]
fn keys_follow_the_readme_table() {
    assert_eq!(key_action(true, Key::Char('j')), Action::Next);
    assert_eq!(key_action(true, Key::Char(' ')), Action::Next);
    assert_eq!(key_action(true, Key::Char('l')), Action::Next);
    assert_eq!(key_action(true, Key::Right), Action::Next);
    assert_eq!(key_action(true, Key::Char('k')), Action::Prev);
    assert_eq!(key_action(true, Key::Backspace), Action::Prev);
    assert_eq!(key_action(true, Key::Char('h')), Action::Prev);
    assert_eq!(key_action(true, Key::Left), Action::Prev);
    assert_eq!(key_action(true, Key::Char('q')), Action::Quit);
    assert_eq!(key_action(true, Key::Char('Q')), Action::Quit);
    assert_eq!(key_action(true, Key::Char('x')), Action::Nothing);
    assert_eq!(key_action(false, Key::Char('j')), Action::Nothing);
    assert_eq!(key_action(true, Key::Other), Action::Nothing);
}

#[test]
fn console_quits_on_q_only() {
    assert!(console_quits(true, Key::Char('q')));
    assert!(!console_quits(true, Key::Char('j')));
    assert!(!console_quits(false, Key::Char('q')));
}

#[test]
fn navigation_stays_within_the_deck() {
    let (slides, settings) = parse_markdown(DECK);
    assert_eq!(slides.len(), 3);
    let mut st = AppState::new(slides, settings);
    assert_eq!(st.current_index(), 0);
    st.prev();
    assert_eq!(st.current_index(), 0);
    st.next();
    st.next();
    assert_eq!(st.current_index(), 2);
    st.next();
    assert_eq!(st.current_index(), 2);
    assert_eq!(st.current_slide().index, 2);
    st.prev();
    assert_eq!(st.current_index(), 1);
    st.next();
    assert_eq!(st.current_index(), 2);
}

#[test]
fn keys_drive_the_presentation() {
    let (slides, settings) = parse_markdown(DECK);
    let mut st = AppState::new(slides, settings);
    assert!(!st.handle_key(true, Key::Char('j')));
    assert_eq!(st.current_index(), 1);
    assert!(!st.handle_key(true, Key::Left));
    assert_eq!(st.current_index(), 0);
    assert!(!st.handle_key(false, Key::Char('j')));
    assert_eq!(st.current_index(), 0);
    assert!(st.handle_key(true, Key::Char('q')));
    assert_eq!(st.current_index(), 0);
}

#[test]
fn status_bar_text() {
    let (slides, settings) = parse_markdown(DECK);
    let mut st = AppState::new(slides, settings);
    st.next();
    let t = st.progress_text(&"01:02".to_string());
    assert_eq!(t, " Slide 2/3 │ 01:02 │ j/k or ←/→ Navigate │ q Quit ");
}

#[test]
fn clock_is_minutes_and_seconds() {
    assert_eq!(format_clock(0), "00:00");
    assert_eq!(format_clock(125), "02:05");
    assert_eq!(format_clock(6000), "100:00");
    let (slides, settings) = parse_markdown(DECK);
    let st = AppState::new(slides, settings);
    let t = st.elapsed_time();
    assert_eq!(t.len(), 5);
    assert_eq!(&t[2..3], ":");
    let c = ClientState::new();
    assert_eq!(c.elapsed_time().len(), 5);
}

#[test]
fn messages_carry_the_slide() {
    let (slides, _) = parse_markdown(DECK);
    let m = create_message(&slides[1], 3);
    assert_eq!(m.current_slide, 1);
    assert_eq!(m.total_slides, 3);
    assert_eq!(m.notes.as_deref(), Some("Say two"));
    assert_eq!(m.title.as_deref(), Some("Two"));
    let p = create_presenter_message(&slides[1], 3);
    assert_eq!(p.current_slide, 1);
    assert_eq!(p.total_slides, 3);
    assert_eq!(p.notes.as_deref(), Some("Say two"));
    assert_eq!(p.title.as_deref(), Some("Two"));
    assert!(p.timestamp > 1_600_000_000);
    let q = presenter_message(&slides[2], 3, 42);
    assert_eq!(q.current_slide, 2);
    assert_eq!(q.timestamp, 42);
    assert_eq!(q.title.as_deref(), Some("Three"));
}

#[test]
fn console_takes_in_messages() {
    let (slides, _) = parse_markdown(DECK);
    let mut c = ClientState::new();
    assert!(!c.connected());
    assert_eq!(c.total_slides(), 0);
    c.apply(create_message(&slides[2], 3));
    assert!(c.connected());
    assert_eq!(c.current_index(), 2);
    assert_eq!(c.total_slides(), 3);
    assert_eq!(notes_text(c.notes()), "No notes");
    c.apply(create_message(&slides[1], 3));
    assert_eq!(notes_text(c.notes()), "Say two");
}

#[test]
fn console_panels() {
    assert_eq!(shown_index(1, 3), 1);
    assert_eq!(shown_index(7, 3), 2);
    assert_eq!(shown_index(0, 0), 0);
    assert_eq!(preview_index(1, 3), Some(2));
    assert_eq!(preview_index(2, 3), None);
    assert_eq!(notes_title(1, 3), " Notes (Slide 2/3) ");
}

#[test]
fn frame_background() {
    let (slides, _) = parse_markdown("# A\n\n<!-- bg: #102030 -->\n\nx\n\n---\n\n# B\n\n<!-- bg: red -->\n");
    assert_eq!(slide_background(&slides[0]), Color::Rgb(16, 32, 48));
    assert_eq!(slide_background(&slides[1]), Color::Rgb(26, 26, 46));
}

#[test]
fn client_keeps_its_socket_path() {
    let c = IpcClient::new(PathBuf::from("/tmp/x.sock"));
    assert_eq!(c.socket_path, PathBuf::from("/tmp/x.sock"));
}
