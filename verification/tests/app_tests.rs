use nfm::app::{App, Effect};
use nfm::config::Config;
use nfm::file_browser::{BrowserEffect, FileItem, TaskType};
use nfm::keys::{Key, KeyCode};
use nfm::tabs::TabState;

fn file(dir: &str, name: &str, is_dir: bool) -> FileItem {
    FileItem {
        path: format!("{}/{}", dir, name),
        is_dir,
        size: 1,
        name: name.to_string(),
        selected: false,
        modified: 0,
    }
}

fn app_at(dir: &str, names: &[(&str, bool)]) -> App {
    let mut app = App::new(Config::default(), dir.to_string());
    if let TabState::FileBrowser(fb) = &mut app.tabs[0].state {
        fb.refresh(names.iter().map(|(n, d)| file(dir, n, *d)).collect());
    }
    app
}

fn press(app: &mut App, key: Key) -> Vec<Effect> {
    assert!(app.accepts_key(&key));
    app.handle_key(key, "/cwd".to_string())
}

fn titles(app: &App) -> Vec<String> {
    app.tabs.iter().map(|t| t.get_title()).collect()
}

#[test]
fn new_app_shows_the_welcome() {
    let app = App::new(Config::default(), "/home".to_string());
    assert_eq!(titles(&app), vec!["📁 home"]);
    assert_eq!(app.active_tab, 0);
    assert_eq!(app.status_message, "Welcome to NeoFM (H for help)");
    assert!(app.active_task.is_none() && app.error_popup.is_none() && !app.should_quit);
}

#[test]
fn tabs_open_cycle_and_close() {
    let mut app = app_at("/home", &[]);
    let effects = press(&mut app, Key::with_ctrl(KeyCode::Char('t')));
    assert!(matches!(effects.as_slice(), [Effect::Browser { tab: 1, effect: BrowserEffect::Refresh }]));
    assert_eq!(titles(&app), vec!["📁 home", "📁 home"]);
    assert_eq!(app.active_tab, 1);
    assert!(press(&mut app, Key::plain(KeyCode::Tab)).is_empty());
    assert_eq!(app.active_tab, 0);
    press(&mut app, Key::plain(KeyCode::Tab));
    assert_eq!(app.active_tab, 1);
    press(&mut app, Key::with_ctrl(KeyCode::Char('w')));
    assert_eq!(app.tabs.len(), 1);
    assert_eq!(app.active_tab, 0);
    assert!(!app.should_quit);
    press(&mut app, Key::with_ctrl(KeyCode::Char('w')));
    assert_eq!(app.tabs.len(), 1);
    assert!(app.should_quit);
}

#[test]
fn browser_quit_quits_the_app() {
    let mut app = app_at("/home", &[]);
    let effects = press(&mut app, Key::plain(KeyCode::Char('q')));
    assert!(effects.is_empty());
    assert!(app.should_quit);
}

#[test]
fn browser_effects_carry_their_tab() {
    let mut app = app_at("/home", &[("docs", true)]);
    let effects = press(&mut app, Key::plain(KeyCode::Enter));
    assert!(matches!(effects.as_slice(), [Effect::Browser { tab: 0, effect: BrowserEffect::Refresh }]));
    assert_eq!(titles(&app), vec!["📁 docs"]);
}

#[test]
fn opening_a_file_opens_an_editor_tab() {
    let mut app = app_at("/home", &[("a.txt", false)]);
    let effects = press(&mut app, Key::plain(KeyCode::Enter));
    assert!(matches!(effects.as_slice(), [Effect::LoadFile { tab: 1 }]));
    assert_eq!(titles(&app), vec!["📁 home", "📝 a.txt"]);
    assert_eq!(app.active_tab, 1);
    if let TabState::Editor(ed) = &mut app.tabs[1].state {
        assert_eq!(ed.file_path.as_deref(), Some("/home/a.txt"));
        ed.load_text("first\nsecond");
    } else {
        panic!("no editor");
    }
    press(&mut app, Key::plain(KeyCode::Char('>')));
    let effects = press(&mut app, Key::with_ctrl(KeyCode::Char('s')));
    match effects.as_slice() {
        [Effect::Save(s)] => {
            assert_eq!(s.path, "/home/a.txt");
            assert_eq!(s.text, ">first\nsecond");
        },
        _ => panic!("no save"),
    }
    // Ctrl+T in an editor opens a browser on the working directory.
    press(&mut app, Key::with_ctrl(KeyCode::Char('t')));
    assert_eq!(titles(&app), vec!["📁 home", "📝 a.txt", "📁 cwd"]);
    press(&mut app, Key::plain(KeyCode::Tab));
    press(&mut app, Key::plain(KeyCode::Tab));
    assert_eq!(app.active_tab, 1);
    // Esc in the editor closes its tab.
    assert!(press(&mut app, Key::plain(KeyCode::Esc)).is_empty());
    assert_eq!(titles(&app), vec!["📁 home", "📁 cwd"]);
    assert_eq!(app.active_tab, 1);
}

#[test]
fn status_requests_reach_the_status_line() {
    let mut app = app_at("/home", &[("a.txt", false)]);
    let serial = app.status_serial;
    press(&mut app, Key::with_ctrl(KeyCode::Char('c')));
    assert_eq!(app.status_message, "Copied");
    assert_eq!(app.status_serial, serial + 1);
    app.expire_status();
    assert_eq!(app.status_message, "");
    app.set_status("Hello".to_string());
    assert_eq!(app.status_message, "Hello");
    assert_eq!(app.status_serial, serial + 2);
}

#[test]
fn paste_starts_a_copy_job() {
    let mut app = app_at("/home", &[("a.txt", false)]);
    press(&mut app, Key::with_ctrl(KeyCode::Char('c')));
    if let TabState::FileBrowser(fb) = &mut app.tabs[0].state {
        fb.current_dir = "/backup".to_string();
    }
    let effects = press(&mut app, Key::with_ctrl(KeyCode::Char('v')));
    match effects.as_slice() {
        [Effect::SpawnTask { task_type: TaskType::Copy, path, target, name }] => {
            assert_eq!(path, "/home/a.txt");
            assert_eq!(target, "/backup/a.txt");
            assert_eq!(name, "Copying");
        },
        _ => panic!("no job"),
    }
    let task = app.active_task.as_ref().unwrap();
    assert_eq!(task.name, "Copying");
    assert_eq!(task.current_item, "/home/a.txt");
    app.task_progress("/home/a.txt (half)".to_string());
    assert_eq!(app.active_task.as_ref().unwrap().current_item, "/home/a.txt (half)");
    let eff = app.task_finished("Copying finished".to_string());
    assert!(matches!(eff, Some(Effect::Browser { tab: 0, effect: BrowserEffect::Refresh })));
    assert!(app.active_task.is_none());
    assert_eq!(app.status_message, "Copying finished");
}

#[test]
fn copy_into_itself_is_refused() {
    let mut app = app_at("/home", &[]);
    let eff = app.start_task(TaskType::Copy, "/home/dir".to_string(), "/home/dir/sub".to_string());
    assert!(eff.is_none());
    assert_eq!(app.status_message, "Error: Target is inside source");
    assert!(app.active_task.is_none());
    let eff = app.start_task(TaskType::Move, "/home/dir".to_string(), "/home/dir2".to_string());
    assert!(matches!(eff, Some(Effect::SpawnTask { task_type: TaskType::Move, .. })));
    let eff = app.start_task(TaskType::Search("x".to_string()), String::new(), String::new());
    assert!(matches!(&eff, Some(Effect::SpawnTask { name, .. }) if name == "Searching"));
    assert_eq!(app.active_task.as_ref().unwrap().current_item, "...");
}

#[test]
fn errors_open_a_popup_that_takes_the_keys() {
    let mut app = app_at("/home", &[("a.txt", false)]);
    app.start_task(TaskType::Checksum("MD5".to_string()), "/home/a.txt".to_string(), String::new());
    app.task_finished("Error: permission denied".to_string());
    assert_eq!(app.error_popup.as_deref(), Some("Error: permission denied"));
    assert!(app.active_task.is_none());
    let effects = press(&mut app, Key::plain(KeyCode::Enter));
    assert!(effects.is_empty());
    assert!(app.error_popup.is_none());
    assert_eq!(app.tabs.len(), 1);
    app.task_finished("Error: again".to_string());
    press(&mut app, Key::plain(KeyCode::Char('x')));
    assert!(app.error_popup.is_some());
    press(&mut app, Key::plain(KeyCode::Char(' ')));
    assert!(app.error_popup.is_none());
}

#[test]
fn tick_counts_frames() {
    let mut app = app_at("/home", &[]);
    app.tick();
    app.tick();
    assert_eq!(app.anim_frame, 2);
    app.anim_frame = usize::MAX;
    app.tick();
    assert_eq!(app.anim_frame, 0);
}

#[test]
fn finished_job_in_an_editor_tab_reads_nothing() {
    let mut app = app_at("/home", &[]);
    app.open_editor_tab("/home/x".to_string());
    assert!(app.task_finished("Done".to_string()).is_none());
    assert_eq!(app.status_message, "Done");
}

#[test]
fn refused_keys_change_nothing() {
    let mut app = app_at("/home", &[("a.txt", false)]);
    press(&mut app, Key::plain(KeyCode::Enter));
    if let TabState::Editor(ed) = &mut app.tabs[1].state {
        ed.load_text("\u{e9}");
        ed.cursor_x = 1;
    }
    assert!(!app.accepts_key(&Key::plain(KeyCode::Char('x'))));
    assert!(app.try_handle_key(Key::plain(KeyCode::Char('x')), "/".to_string()).is_none());
    if let TabState::Editor(ed) = &app.tabs[1].state {
        assert_eq!(ed.text(), "\u{e9}");
        assert_eq!(ed.cursor_x, 1);
    }
    // Keys for the tabs themselves never reach the editor.
    assert!(app.accepts_key(&Key::plain(KeyCode::Tab)));
    let effects = app.try_handle_key(Key::plain(KeyCode::Tab), "/".to_string());
    assert!(matches!(effects.as_deref(), Some([])));
    assert_eq!(app.active_tab, 0);
}

#[test]
fn tab_presses_cycle_back() {
    let mut app = app_at("/home", &[]);
    app.open_browser_tab("/a".to_string());
    app.open_editor_tab("/a/b.txt".to_string());
    app.active_tab = 1;
    for _ in 0..app.tabs.len() {
        press(&mut app, Key::plain(KeyCode::Tab));
    }
    assert_eq!(app.active_tab, 1);
    press(&mut app, Key::plain(KeyCode::Tab));
    assert_eq!(app.active_tab, 2);
    press(&mut app, Key::plain(KeyCode::Tab));
    assert_eq!(app.active_tab, 0);
}
