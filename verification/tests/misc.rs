use icode_cli::event_loop::{Event, EventLoop};
use icode_cli::keys::{KeyCode, KeyEvent, KeyModifiers};
use icode_cli::session_files::is_session_file;

#[test]
fn test_is_session_file() {
    assert!(is_session_file("session.json"));
    assert!(is_session_file("session.jsonl"));
    assert!(!is_session_file("session.txt"));
    assert!(!is_session_file("session"));
}

#[test]
fn test_event_loop_new() {
    let loop_ = EventLoop::new(250);
    assert_eq!(loop_.tick_rate_ms(), 250);
}

#[test]
fn test_event_key_variant() {
    let event = Event::Key(KeyEvent::new(KeyCode::Esc, KeyModifiers::none()));
    match event {
        Event::Key(k) => assert_eq!(k.code, KeyCode::Esc),
        _ => panic!("Expected Event::Key"),
    }
}

#[test]
fn test_event_resize_variant() {
    let event = Event::Resize(120, 40);
    match event {
        Event::Resize(w, h) => {
            assert_eq!(w, 120);
            assert_eq!(h, 40);
        }
        _ => panic!("Expected Event::Resize"),
    }
}

#[test]
fn test_event_tick_variant() {
    let event = Event::Tick;
    assert!(matches!(event, Event::Tick));
}
