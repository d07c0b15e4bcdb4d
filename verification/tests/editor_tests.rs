use nfm::config::Config;
use nfm::editor::EditorState;
use nfm::keys::{Key, KeyCode};
use nfm::utils::Clipboard;

struct Session {
    ed: EditorState,
    clip: Clipboard,
    config: Config,
}

impl Session {
    fn with_text(text: &str) -> Session {
        let mut ed = EditorState::new(Some("/tmp/doc.txt".to_string()));
        ed.load_text(text);
        Session { ed, clip: Clipboard::new(), config: Config::default() }
    }

    fn press(&mut self, key: Key) -> Option<nfm::editor::SaveRequest> {
        assert!(self.ed.accepts_key(&key), "key {:?} refused", key);
        self.ed.handle_key(key, &mut self.clip, &self.config)
    }

    fn type_str(&mut self, s: &str) {
        for c in s.chars() {
            self.press(Key::plain(KeyCode::Char(c)));
        }
    }

    fn cursor(&self) -> (usize, usize) {
        (self.ed.cursor_x, self.ed.cursor_y)
    }
}

#[test]
fn new_editor_holds_one_empty_line() {
    let ed = EditorState::new(None);
    assert_eq!(ed.content.len(), 1);
    assert!(ed.content[0].is_empty());
    assert_eq!(ed.text(), "");
    assert_eq!((ed.cursor_x, ed.cursor_y), (0, 0));
}

#[test]
fn load_splits_lines_like_str_lines() {
    let s = Session::with_text("one\r\ntwo\n\nthree\n");
    assert_eq!(s.ed.content.len(), 4);
    assert_eq!(s.ed.text(), "one\ntwo\n\nthree");
    let s = Session::with_text("");
    assert_eq!(s.ed.content.len(), 1);
    assert_eq!(s.ed.text(), "");
    let s = Session::with_text("\n");
    assert_eq!(s.ed.content.len(), 1);
}

#[test]
fn typing_and_backspace() {
    let mut s = Session::with_text("");
    s.type_str("hello");
    assert_eq!(s.ed.text(), "hello");
    assert_eq!(s.cursor(), (5, 0));
    s.press(Key::plain(KeyCode::Backspace));
    assert_eq!(s.ed.text(), "hell");
    s.press(Key::plain(KeyCode::Home));
    s.type_str("X");
    assert_eq!(s.ed.text(), "Xhell");
    // Ctrl and Alt characters do not type.
    s.press(Key { code: KeyCode::Char('a'), ctrl: true, shift: false, alt: false });
    s.press(Key { code: KeyCode::Char('a'), ctrl: false, shift: false, alt: true });
    assert_eq!(s.ed.text(), "Xhell");
}

#[test]
fn enter_splits_and_backspace_joins() {
    let mut s = Session::with_text("abcdef");
    s.press(Key::plain(KeyCode::Right));
    s.press(Key::plain(KeyCode::Right));
    s.press(Key::plain(KeyCode::Enter));
    assert_eq!(s.ed.text(), "ab\ncdef");
    assert_eq!(s.cursor(), (0, 1));
    s.press(Key::plain(KeyCode::Backspace));
    assert_eq!(s.ed.text(), "abcdef");
    assert_eq!(s.cursor(), (2, 0));
}

#[test]
fn delete_removes_and_joins() {
    let mut s = Session::with_text("ab\ncd");
    s.press(Key::plain(KeyCode::Delete));
    assert_eq!(s.ed.text(), "b\ncd");
    s.press(Key::plain(KeyCode::End));
    s.press(Key::plain(KeyCode::Delete));
    assert_eq!(s.ed.text(), "bcd");
    s.press(Key::plain(KeyCode::End));
    s.press(Key::plain(KeyCode::Delete));
    assert_eq!(s.ed.text(), "bcd");
}

#[test]
fn cursor_movement() {
    let mut s = Session::with_text("long line\nab\nthird line");
    s.press(Key::plain(KeyCode::End));
    assert_eq!(s.cursor(), (9, 0));
    s.press(Key::plain(KeyCode::Down));
    assert_eq!(s.cursor(), (2, 1));
    s.press(Key::plain(KeyCode::Right));
    assert_eq!(s.cursor(), (0, 2));
    s.press(Key::plain(KeyCode::Left));
    assert_eq!(s.cursor(), (2, 1));
    s.press(Key::with_shift(KeyCode::Down));
    assert_eq!(s.cursor(), (10, 2));
    s.press(Key::with_shift(KeyCode::Up));
    assert_eq!(s.cursor(), (0, 0));
    s.press(Key::with_shift(KeyCode::Right));
    assert_eq!(s.cursor(), (9, 0));
    s.press(Key::with_shift(KeyCode::Left));
    assert_eq!(s.cursor(), (0, 0));
    s.press(Key::plain(KeyCode::Left));
    assert_eq!(s.cursor(), (0, 0));
    assert_eq!(s.ed.text(), "long line\nab\nthird line");
}

#[test]
fn page_keys_move_twenty_lines() {
    let text: Vec<String> = (0..50).map(|i| format!("line {}", i)).collect();
    let mut s = Session::with_text(&text.join("\n"));
    s.press(Key::plain(KeyCode::PageDown));
    assert_eq!(s.cursor(), (0, 20));
    s.press(Key::plain(KeyCode::PageDown));
    s.press(Key::plain(KeyCode::PageDown));
    assert_eq!(s.cursor(), (0, 49));
    s.press(Key::plain(KeyCode::PageUp));
    assert_eq!(s.cursor(), (0, 29));
    s.press(Key::plain(KeyCode::PageUp));
    s.press(Key::plain(KeyCode::PageUp));
    assert_eq!(s.cursor(), (0, 0));
}

#[test]
fn save_key_returns_the_text() {
    let mut s = Session::with_text("a\nb");
    let r = s.press(Key::with_ctrl(KeyCode::Char('s'))).unwrap();
    assert_eq!(r.path, "/tmp/doc.txt");
    assert_eq!(r.text, "a\nb");
    let mut unnamed = EditorState::new(None);
    let mut clip = Clipboard::new();
    let config = Config::default();
    assert!(unnamed.handle_key(Key::with_ctrl(KeyCode::Char('s')), &mut clip, &config).is_none());
}

#[test]
fn ctrl_x_clears_all_text() {
    let mut s = Session::with_text("keep\nme");
    s.press(Key::plain(KeyCode::Down));
    s.press(Key::plain(KeyCode::End));
    assert_eq!(s.cursor(), (2, 1));
    assert!(s.press(Key::with_ctrl(KeyCode::Char('x'))).is_none());
    assert_eq!(s.ed.text(), "");
    assert_eq!(s.ed.content.len(), 1);
    assert_eq!(s.cursor(), (0, 0));
    assert!(!s.ed.should_quit);
    assert_eq!(s.ed.file_path.as_deref(), Some("/tmp/doc.txt"));
    // The next key edits the empty document.
    s.press(Key::plain(KeyCode::Char('y')));
    assert_eq!(s.ed.text(), "y");
}

#[test]
fn escape_asks_to_quit() {
    let mut s = Session::with_text("x");
    s.press(Key::plain(KeyCode::Esc));
    assert!(s.ed.should_quit);
}

#[test]
fn cursor_is_a_byte_offset() {
    let mut s = Session::with_text("\u{e9}a");
    s.press(Key::plain(KeyCode::End));
    assert_eq!(s.cursor(), (3, 0));
    // One step left lands inside the two-byte character: editing there is refused.
    s.press(Key::plain(KeyCode::Left));
    assert_eq!(s.cursor(), (2, 0));
    s.press(Key::plain(KeyCode::Left));
    assert_eq!(s.cursor(), (1, 0));
    assert!(!s.ed.accepts_key(&Key::plain(KeyCode::Char('x'))));
    assert!(!s.ed.accepts_key(&Key::plain(KeyCode::Enter)));
    assert!(!s.ed.accepts_key(&Key::plain(KeyCode::Delete)));
    assert!(s.ed.accepts_key(&Key::plain(KeyCode::Backspace)));
    assert!(s.ed.accepts_key(&Key::plain(KeyCode::Left)));
    s.press(Key::plain(KeyCode::Backspace));
    assert_eq!(s.ed.text(), "a");
}

#[test]
fn ascii_document_stays_ascii() {
    let mut s = Session::with_text("abc\ndef\n\nxyz");
    let keys = [
        Key::plain(KeyCode::Char('q')),
        Key::plain(KeyCode::Enter),
        Key::plain(KeyCode::Down),
        Key::plain(KeyCode::End),
        Key::plain(KeyCode::Delete),
        Key::plain(KeyCode::Backspace),
        Key::with_shift(KeyCode::Up),
        Key::plain(KeyCode::Right),
        Key::plain(KeyCode::Enter),
        Key::plain(KeyCode::Backspace),
        Key::plain(KeyCode::PageDown),
        Key::plain(KeyCode::Char('!')),
    ];
    for k in keys.iter().cycle().take(60) {
        s.press(*k);
        assert!(s.ed.text().is_ascii());
        assert!(s.ed.cursor_y < s.ed.content.len());
        assert!(s.ed.cursor_x <= s.ed.content[s.ed.cursor_y].len());
    }
}
