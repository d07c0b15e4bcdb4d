use nfm::browser_keys::KeyOutcome;
use nfm::config::Config;
use nfm::file_browser::{
    list_entries, ArchiveType, BrowserEffect, BrowserMode, DialogAction, DialogType, FileBrowserState,
    FileItem, SortMode, TabRequest, TaskType,
};
use nfm::keys::{Key, KeyCode};
use nfm::theme::Color;
use nfm::utils::Clipboard;
use nfm::view::{entry_row, visible_rows};

fn entry(dir: &str, name: &str, is_dir: bool, size: u64, modified: i128) -> FileItem {
    FileItem {
        path: format!("{}/{}", dir, name),
        is_dir,
        size,
        name: name.to_string(),
        selected: false,
        modified,
    }
}

fn sample_entries() -> Vec<FileItem> {
    vec![
        entry("/data", "b.txt", false, 300, 5),
        entry("/data", "zeta", true, 0, 1),
        entry("/data", ".hidden", false, 10, 2),
        entry("/data", "A.txt", false, 100, 9),
        entry("/data", "Alpha", true, 0, 7),
        entry("/data", "c.md", false, 200, 3),
    ]
}

fn names(items: &[FileItem]) -> Vec<String> {
    items.iter().map(|i| i.name.clone()).collect()
}

struct Browser {
    fb: FileBrowserState,
    clip: Clipboard,
    config: Config,
}

impl Browser {
    fn at_data() -> Browser {
        let mut fb = FileBrowserState::new("/data".to_string());
        fb.refresh(sample_entries());
        Browser { fb, clip: Clipboard::new(), config: Config::default() }
    }

    fn press(&mut self, key: Key) -> KeyOutcome {
        assert!(self.fb.accepts_key(&key));
        self.fb.handle_key(key, &mut self.clip, &self.config)
    }

    fn plain(&mut self, code: KeyCode) -> KeyOutcome {
        self.press(Key::plain(code))
    }

    fn select(&mut self, name: &str) {
        self.fb.selected_index = self.fb.items.iter().position(|i| i.name == name).unwrap();
    }
}

fn is_refresh_only(out: &KeyOutcome) -> bool {
    out.request.is_none() && out.effects.len() == 1 && matches!(out.effects[0], BrowserEffect::Refresh)
}

fn status_of(out: &KeyOutcome) -> Option<String> {
    match &out.request {
        Some(TabRequest::SetStatus(m)) => Some(m.clone()),
        _ => None,
    }
}

#[test]
fn new_browser_has_the_menu() {
    let fb = FileBrowserState::new("/tmp".to_string());
    assert_eq!(fb.menu_items.len(), 28);
    assert_eq!(fb.menu_items[0], "--- FILES ---");
    assert_eq!(fb.menu_items[27], "Sort by...");
    assert!(fb.items.is_empty());
    assert!(matches!(fb.mode, BrowserMode::Normal));
    assert_eq!(fb.sort_mode, SortMode::NameAsc);
}

#[test]
fn refresh_sorts_directories_first_by_name() {
    let b = Browser::at_data();
    assert_eq!(names(&b.fb.items), vec!["Alpha", "zeta", "A.txt", "b.txt", "c.md"]);
    assert!(b.fb.items.iter().all(|i| !i.selected));
}

#[test]
fn refresh_other_orders() {
    let mut fb = FileBrowserState::new("/data".to_string());
    fb.sort_mode = SortMode::SizeDesc;
    fb.refresh(sample_entries());
    assert_eq!(names(&fb.items), vec!["zeta", "Alpha", "b.txt", "c.md", "A.txt"]);
    fb.sort_mode = SortMode::DateAsc;
    fb.refresh(sample_entries());
    assert_eq!(names(&fb.items), vec!["zeta", "Alpha", "c.md", "b.txt", "A.txt"]);
    fb.sort_mode = SortMode::NameDesc;
    fb.refresh(sample_entries());
    assert_eq!(names(&fb.items), vec!["zeta", "Alpha", "c.md", "b.txt", "A.txt"]);
}

#[test]
fn refresh_hidden_and_filter() {
    let mut fb = FileBrowserState::new("/data".to_string());
    fb.show_hidden = true;
    fb.refresh(sample_entries());
    assert_eq!(names(&fb.items), vec!["Alpha", "zeta", ".hidden", "A.txt", "b.txt", "c.md"]);
    fb.show_hidden = false;
    fb.filter = "TXT".to_string();
    fb.refresh(sample_entries());
    assert_eq!(names(&fb.items), vec!["A.txt", "b.txt"]);
    let dots = vec![entry("/data", "..", true, 0, 0), entry("/data", ".git", true, 0, 0)];
    fb.filter.clear();
    fb.refresh(dots);
    assert_eq!(names(&fb.items), vec![".."]);
}

#[test]
fn refresh_keeps_the_index_inside() {
    let mut b = Browser::at_data();
    b.fb.selected_index = 4;
    b.fb.refresh(vec![entry("/data", "x", false, 1, 1), entry("/data", "y", false, 1, 1)]);
    assert_eq!(b.fb.selected_index, 1);
    b.fb.refresh(Vec::new());
    assert_eq!(b.fb.selected_index, 0);
}

#[test]
fn list_entries_is_stable_for_equal_keys() {
    let es = vec![
        entry("/d", "one", false, 5, 0),
        entry("/d", "two", false, 5, 0),
        entry("/d", "three", false, 5, 0),
    ];
    let out = list_entries(&es, false, "", SortMode::SizeAsc);
    assert_eq!(names(&out), vec!["one", "two", "three"]);
}

#[test]
fn moving_and_marking() {
    let mut b = Browser::at_data();
    assert!(b.plain(KeyCode::Up).request.is_none());
    assert_eq!(b.fb.selected_index, 0);
    b.plain(KeyCode::Down);
    assert_eq!(b.fb.selected_index, 1);
    b.plain(KeyCode::Char(' '));
    assert!(b.fb.items[1].selected);
    assert_eq!(b.fb.selected_index, 2);
    b.plain(KeyCode::Up);
    b.plain(KeyCode::Char(' '));
    assert!(!b.fb.items[1].selected);
    for _ in 0..10 {
        b.plain(KeyCode::Down);
    }
    assert_eq!(b.fb.selected_index, 4);
}

#[test]
fn enter_opens_files_and_directories() {
    let mut b = Browser::at_data();
    b.select("b.txt");
    let out = b.plain(KeyCode::Enter);
    assert!(matches!(&out.request, Some(TabRequest::OpenEditor(p)) if p == "/data/b.txt"));
    b.select("zeta");
    let out = b.plain(KeyCode::Enter);
    assert!(is_refresh_only(&out));
    assert_eq!(b.fb.current_dir, "/data/zeta");
    assert_eq!(b.fb.selected_index, 0);
}

#[test]
fn left_goes_up_then_to_the_drives() {
    let mut b = Browser::at_data();
    let out = b.plain(KeyCode::Left);
    assert!(is_refresh_only(&out));
    assert_eq!(b.fb.current_dir, "/");
    let out = b.plain(KeyCode::Left);
    assert!(out.request.is_none());
    assert!(matches!(out.effects.as_slice(), [BrowserEffect::LoadDrives]));
    assert!(matches!(b.fb.mode, BrowserMode::Drives));
    b.fb.set_drives(vec![entry("", "mnt", true, 1000, 0)]);
    let out = b.plain(KeyCode::Enter);
    assert!(is_refresh_only(&out));
    assert_eq!(b.fb.current_dir, "/mnt");
    assert!(matches!(b.fb.mode, BrowserMode::Normal));
}

#[test]
fn quit_clears_the_filter_first() {
    let mut b = Browser::at_data();
    b.fb.filter = "x".to_string();
    let out = b.plain(KeyCode::Char('q'));
    assert!(is_refresh_only(&out));
    assert!(b.fb.filter.is_empty());
    assert!(!b.fb.should_quit);
    let out = b.plain(KeyCode::Esc);
    assert!(out.request.is_none() && out.effects.is_empty());
    assert!(b.fb.should_quit);
}

#[test]
fn delete_asks_then_deletes_marked_items() {
    let mut b = Browser::at_data();
    b.select("A.txt");
    b.plain(KeyCode::Char(' '));
    b.select("c.md");
    b.plain(KeyCode::Char(' '));
    b.plain(KeyCode::Delete);
    assert!(matches!(b.fb.mode, BrowserMode::Dialog(DialogType::DeleteConfirm)));
    let out = b.plain(KeyCode::Char('y'));
    match out.request {
        Some(TabRequest::StartTask { task_type: TaskType::Delete(paths), path, target }) => {
            assert_eq!(paths, vec!["/data/A.txt", "/data/c.md"]);
            assert!(path.is_empty() && target.is_empty());
        },
        other => panic!("unexpected {:?}", other),
    }
    assert!(matches!(b.fb.mode, BrowserMode::Normal));
}

#[test]
fn start_delete_without_marks_takes_the_selection() {
    let mut b = Browser::at_data();
    b.select("b.txt");
    match b.fb.start_delete() {
        Some(TabRequest::StartTask { task_type: TaskType::Delete(paths), .. }) => {
            assert_eq!(paths, vec!["/data/b.txt"]);
        },
        other => panic!("unexpected {:?}", other),
    }
    let empty = FileBrowserState::new("/e".to_string());
    assert!(empty.start_delete().is_none());
}

#[test]
fn delete_without_confirmation() {
    let mut b = Browser::at_data();
    b.config.file_browser.confirm_delete = false;
    b.select("b.txt");
    let out = b.plain(KeyCode::Char('D'));
    assert!(matches!(out.request, Some(TabRequest::StartTask { task_type: TaskType::Delete(_), .. })));
    assert!(matches!(b.fb.mode, BrowserMode::Normal));
}

#[test]
fn copy_and_paste() {
    let mut b = Browser::at_data();
    b.select("A.txt");
    let out = b.press(Key::with_ctrl(KeyCode::Char('c')));
    assert_eq!(status_of(&out).as_deref(), Some("Copied"));
    assert_eq!(b.clip.get_file(), Some(("/data/A.txt".to_string(), false)));
    b.fb.current_dir = "/other".to_string();
    let out = b.press(Key::with_ctrl(KeyCode::Char('v')));
    match out.request {
        Some(TabRequest::StartTask { task_type: TaskType::Copy, path, target }) => {
            assert_eq!(path, "/data/A.txt");
            assert_eq!(target, "/other/A.txt");
        },
        other => panic!("unexpected {:?}", other),
    }
    let out = b.press(Key::with_ctrl(KeyCode::Char('x')));
    assert_eq!(status_of(&out).as_deref(), Some("Cut"));
    let out = b.press(Key::with_ctrl(KeyCode::Char('v')));
    assert!(matches!(out.request, Some(TabRequest::StartTask { task_type: TaskType::Move, .. })));
}

#[test]
fn menu_navigation_skips_headings() {
    let mut b = Browser::at_data();
    b.plain(KeyCode::Char('o'));
    assert!(matches!(b.fb.mode, BrowserMode::Menu(1)));
    b.plain(KeyCode::Up);
    assert!(matches!(b.fb.mode, BrowserMode::Menu(1)));
    for _ in 0..8 {
        b.plain(KeyCode::Down);
    }
    assert!(matches!(b.fb.mode, BrowserMode::Menu(9)));
    b.plain(KeyCode::Down);
    assert!(matches!(b.fb.mode, BrowserMode::Menu(11)));
    b.plain(KeyCode::Up);
    assert!(matches!(b.fb.mode, BrowserMode::Menu(9)));
    b.plain(KeyCode::Right);
    assert!(matches!(b.fb.mode, BrowserMode::Menu(11)));
    b.plain(KeyCode::Right);
    assert!(matches!(b.fb.mode, BrowserMode::Menu(19)));
    b.plain(KeyCode::Left);
    assert!(matches!(b.fb.mode, BrowserMode::Menu(11)));
    b.plain(KeyCode::Left);
    assert!(matches!(b.fb.mode, BrowserMode::Menu(1)));
    b.plain(KeyCode::Esc);
    assert!(matches!(b.fb.mode, BrowserMode::Normal));
}

fn open_menu_at(b: &mut Browser, idx: usize) {
    b.fb.mode = BrowserMode::Menu(idx);
}

#[test]
fn menu_new_file_dialog() {
    let mut b = Browser::at_data();
    open_menu_at(&mut b, 2);
    let out = b.plain(KeyCode::Enter);
    assert!(out.request.is_none() && out.effects.is_empty());
    for c in "notez".chars() {
        b.plain(KeyCode::Char(c));
    }
    b.plain(KeyCode::Backspace);
    b.plain(KeyCode::Char('s'));
    match &b.fb.mode {
        BrowserMode::Dialog(DialogType::Input { title, input, action }) => {
            assert_eq!(title, "New file name:");
            assert_eq!(input, "notes");
            assert!(matches!(action, DialogAction::NewFile));
        },
        _ => panic!("no dialog"),
    }
    let out = b.plain(KeyCode::Enter);
    assert!(out.request.is_none());
    assert!(matches!(out.effects.as_slice(),
        [BrowserEffect::CreateFile(p), BrowserEffect::Refresh] if p == "/data/notes"));
    assert!(matches!(b.fb.mode, BrowserMode::Normal));
}

#[test]
fn menu_copy_path_and_toggles() {
    let mut b = Browser::at_data();
    b.select("c.md");
    open_menu_at(&mut b, 4);
    let out = b.plain(KeyCode::Enter);
    assert_eq!(status_of(&out).as_deref(), Some("Path copied"));
    assert_eq!(b.clip.get_text(), "/data/c.md");
    open_menu_at(&mut b, 19);
    let out = b.plain(KeyCode::Enter);
    assert_eq!(status_of(&out).as_deref(), Some("Hidden: Yes"));
    assert!(b.fb.show_hidden);
    assert!(matches!(out.effects.as_slice(), [BrowserEffect::Refresh]));
    open_menu_at(&mut b, 26);
    let out = b.plain(KeyCode::Enter);
    assert_eq!(status_of(&out).as_deref(), Some("Preview: On"));
    open_menu_at(&mut b, 22);
    let out = b.plain(KeyCode::Enter);
    assert_eq!(status_of(&out).as_deref(), Some("Refreshed"));
}

#[test]
fn duplicate_dialog_suggests_a_name() {
    let mut b = Browser::at_data();
    b.select("b.txt");
    open_menu_at(&mut b, 5);
    b.plain(KeyCode::Enter);
    match &b.fb.mode {
        BrowserMode::Dialog(DialogType::Input { input, .. }) => assert_eq!(input, "b.txt_copy"),
        _ => panic!("no dialog"),
    }
    let out = b.plain(KeyCode::Enter);
    assert!(matches!(out.effects.as_slice(),
        [BrowserEffect::Duplicate { from, to }, BrowserEffect::Refresh]
            if from == "/data/b.txt" && to == "/data/b.txt_copy"));
}

#[test]
fn permissions_editor() {
    let mut b = Browser::at_data();
    b.select("b.txt");
    open_menu_at(&mut b, 7);
    let out = b.plain(KeyCode::Enter);
    assert!(matches!(out.effects.as_slice(), [BrowserEffect::ReadPermissions(p)] if p == "/data/b.txt"));
    b.fb.apply_permission_bits(0o754);
    match &b.fb.mode {
        BrowserMode::Permissions { grid, row, col, .. } => {
            assert_eq!(*grid, [[true, true, true], [true, false, true], [true, false, false]]);
            assert_eq!((*row, *col), (0, 0));
        },
        _ => panic!("no permissions"),
    }
    b.plain(KeyCode::Char(' '));
    b.plain(KeyCode::Down);
    b.plain(KeyCode::Right);
    b.plain(KeyCode::Enter);
    let out = b.plain(KeyCode::Char('s'));
    assert_eq!(status_of(&out).as_deref(), Some("Permissions saved"));
    assert!(matches!(out.effects.as_slice(),
        [BrowserEffect::WritePermissions { path, mode }] if path == "/data/b.txt" && *mode == 0o374));
    assert!(matches!(b.fb.mode, BrowserMode::Normal));
}

#[test]
fn archive_choice_then_form() {
    let mut b = Browser::at_data();
    b.select("Alpha");
    open_menu_at(&mut b, 11);
    b.plain(KeyCode::Enter);
    b.plain(KeyCode::Down);
    b.plain(KeyCode::Down);
    b.plain(KeyCode::Down);
    b.plain(KeyCode::Enter);
    match &b.fb.mode {
        BrowserMode::Form { fields, active_idx, .. } => {
            assert_eq!(fields.len(), 1);
            assert_eq!(fields[0].value, "Alpha.tar.gz");
            assert_eq!(*active_idx, 0);
        },
        _ => panic!("no form"),
    }
    let out = b.plain(KeyCode::Enter);
    match out.request {
        Some(TabRequest::StartTask { task_type: TaskType::Archive(t), path, target }) => {
            assert_eq!(t, ArchiveType::Gzip);
            assert_eq!(path, "/data/Alpha");
            assert_eq!(target, "/data/Alpha.tar.gz");
        },
        other => panic!("unexpected {:?}", other),
    }
}

#[test]
fn encrypt_form_reads_the_key() {
    let mut b = Browser::at_data();
    b.select("b.txt");
    open_menu_at(&mut b, 16);
    b.plain(KeyCode::Enter);
    b.plain(KeyCode::Enter);
    for c in "pw".chars() {
        b.plain(KeyCode::Char(c));
    }
    b.plain(KeyCode::Tab);
    match &b.fb.mode {
        BrowserMode::Form { fields, active_idx, .. } => {
            assert_eq!(fields[0].value, "pw");
            assert!(fields[0].is_password);
            assert_eq!(fields[1].value, "b.txt.enc");
            assert_eq!(*active_idx, 1);
        },
        _ => panic!("no form"),
    }
    let out = b.plain(KeyCode::Enter);
    match out.request {
        Some(TabRequest::StartTask { task_type: TaskType::Encrypt { key, output, .. }, path, target }) => {
            assert_eq!(key, "pw");
            assert_eq!(output, "/data/b.txt.enc");
            assert_eq!(path, "/data/b.txt");
            assert_eq!(target, "/data/b.txt.enc");
        },
        other => panic!("unexpected {:?}", other),
    }
}

#[test]
fn decrypt_form_drops_the_marker() {
    let mut b = Browser::at_data();
    b.fb.refresh(vec![entry("/data", "x.enc.txt", false, 1, 1)]);
    open_menu_at(&mut b, 17);
    b.plain(KeyCode::Enter);
    b.plain(KeyCode::Enter);
    match &b.fb.mode {
        BrowserMode::Form { fields, .. } => assert_eq!(fields[1].value, "x.txt"),
        _ => panic!("no form"),
    }
}

#[test]
fn checksum_and_sort_choices() {
    let mut b = Browser::at_data();
    b.select("c.md");
    open_menu_at(&mut b, 9);
    b.plain(KeyCode::Enter);
    b.plain(KeyCode::Down);
    let out = b.plain(KeyCode::Enter);
    match out.request {
        Some(TabRequest::StartTask { task_type: TaskType::Checksum(algo), path, .. }) => {
            assert_eq!(algo, "SHA256");
            assert_eq!(path, "/data/c.md");
        },
        other => panic!("unexpected {:?}", other),
    }
    open_menu_at(&mut b, 27);
    b.plain(KeyCode::Enter);
    for _ in 0..3 {
        b.plain(KeyCode::Down);
    }
    let out = b.plain(KeyCode::Enter);
    assert!(is_refresh_only(&out));
    assert_eq!(b.fb.sort_mode, SortMode::SizeDesc);
}

#[test]
fn git_menu_requests() {
    let mut b = Browser::at_data();
    open_menu_at(&mut b, 24);
    b.plain(KeyCode::Enter);
    assert!(matches!(b.fb.mode, BrowserMode::GitMenu(1)));
    let out = b.plain(KeyCode::Enter);
    assert!(matches!(&out.request,
        Some(TabRequest::StartTask { task_type: TaskType::Git(nfm::file_browser::GitTask::Status), path, .. })
            if path == "/data"));
    b.fb.mode = BrowserMode::GitMenu(4);
    b.plain(KeyCode::Enter);
    b.plain(KeyCode::Enter);
    b.plain(KeyCode::Backspace);
    b.plain(KeyCode::Backspace);
    b.plain(KeyCode::Backspace);
    b.plain(KeyCode::Backspace);
    for c in "dev".chars() {
        b.plain(KeyCode::Char(c));
    }
    let out = b.plain(KeyCode::Enter);
    match out.request {
        Some(TabRequest::StartTask { task_type: TaskType::Git(nfm::file_browser::GitTask::Push { remote, branch }), .. }) => {
            assert_eq!(remote, "origin");
            assert_eq!(branch, "dev");
        },
        other => panic!("unexpected {:?}", other),
    }
}

#[test]
fn entries_colours() {
    assert_eq!(entry("/d", "main.RS", false, 0, 0).get_color(), (255, 165, 0));
    assert_eq!(entry("/d", "src", true, 0, 0).get_color(), (0, 150, 255));
    assert_eq!(entry("/d", "photo.JPeG", false, 0, 0).get_color(), (238, 130, 238));
    assert_eq!(entry("/d", "song.flac", false, 0, 0).get_color(), (255, 215, 0));
    assert_eq!(entry("/d", "run.sh", false, 0, 0).get_color(), (0, 255, 127));
    assert_eq!(entry("/d", "a.tar.gz", false, 0, 0).get_color(), (255, 100, 100));
    assert_eq!(entry("/d", "README", false, 0, 0).get_color(), (200, 200, 200));
    assert_eq!(entry("/d", "notes.json", false, 0, 0).get_color(), (144, 238, 144));
}

#[test]
fn form_enter_without_parent_is_refused() {
    let mut b = Browser::at_data();
    b.fb.mode = BrowserMode::Selection {
        title: "Archive type".to_string(),
        options: vec!["ZIP".to_string()],
        selected: 0,
        action: nfm::file_browser::SelectionAction::Archive("/".to_string()),
    };
    assert!(!b.fb.accepts_key(&Key::plain(KeyCode::Enter)));
    assert!(b.fb.accepts_key(&Key::plain(KeyCode::Down)));
}

#[test]
fn listing_rows() {
    let file = entry("/d", "main.rs", false, 1536, 0);
    let row = entry_row(&file, false);
    assert_eq!(row.mark, "  ");
    assert_eq!(row.icon, "󰈔 ");
    assert_eq!(row.label, format!(" {:<40} ", "main.rs"));
    assert_eq!(row.label.chars().count(), 42);
    assert_eq!(row.size_text, "1.50 KB");
    assert_eq!(row.fg, Color::Rgb(255, 165, 0));
    assert!(!row.on_cursor);
    assert_eq!(entry_row(&file, true).fg, Color::White);
    let mut marked = file.clone();
    marked.selected = true;
    let row = entry_row(&marked, true);
    assert_eq!(row.fg, Color::Rgb(255, 255, 100));
    assert_eq!(row.mark, "󰄲 ");
    let dir = entry("/d", "src", true, 4096, 0);
    let row = entry_row(&dir, false);
    assert_eq!(row.icon, "󰉋 ");
    assert_eq!(row.size_text, "");
    assert_eq!(row.fg, Color::Rgb(0, 150, 255));
    let long = "x".repeat(45);
    assert_eq!(entry_row(&entry("/d", &long, false, 1, 0), false).label, format!(" {} ", long));
    let wide = "\u{e9}".repeat(3);
    assert_eq!(entry_row(&entry("/d", &wide, false, 1, 0), false).label, format!(" {:<40} ", wide));

    let b = Browser::at_data();
    let rows = visible_rows(&b.fb.items, 1, 3, 2);
    assert_eq!(rows.len(), 3);
    assert!(rows[0].label.starts_with(" zeta "));
    assert!(rows[1].on_cursor && !rows[0].on_cursor && !rows[2].on_cursor);
    assert_eq!(visible_rows(&b.fb.items, 3, 10, 0).len(), 2);
    assert_eq!(visible_rows(&b.fb.items, 7, 10, 0).len(), 0);
}

#[test]
fn copy_and_paste_without_ctrl() {
    let mut b = Browser::at_data();
    b.select("c.md");
    let out = b.plain(KeyCode::Char('c'));
    assert_eq!(status_of(&out).as_deref(), Some("Copied"));
    assert_eq!(b.clip.get_file(), Some(("/data/c.md".to_string(), false)));
    // Cut needs Ctrl; plain `x`, `X` and `C` do nothing.
    for c in ['x', 'X', 'C'] {
        let out = b.plain(KeyCode::Char(c));
        assert!(out.request.is_none() && out.effects.is_empty());
    }
    assert_eq!(b.clip.get_file(), Some(("/data/c.md".to_string(), false)));
    let out = b.press(Key::with_ctrl(KeyCode::Char('X')));
    assert_eq!(status_of(&out).as_deref(), Some("Cut"));
    b.fb.current_dir = "/dst".to_string();
    let out = b.plain(KeyCode::Char('v'));
    match out.request {
        Some(TabRequest::StartTask { task_type: TaskType::Move, path, target }) => {
            assert_eq!(path, "/data/c.md");
            assert_eq!(target, "/dst/c.md");
        },
        other => panic!("unexpected {:?}", other),
    }
}

#[test]
fn help_opens_and_closes() {
    let mut b = Browser::at_data();
    b.plain(KeyCode::Char('H'));
    assert!(matches!(b.fb.mode, BrowserMode::Normal));
    b.plain(KeyCode::Char('h'));
    assert!(matches!(b.fb.mode, BrowserMode::Help));
    b.plain(KeyCode::Char('z'));
    assert!(matches!(b.fb.mode, BrowserMode::Normal));
    b.plain(KeyCode::F(1));
    assert!(matches!(b.fb.mode, BrowserMode::Help));
    b.plain(KeyCode::Null);
    assert!(matches!(b.fb.mode, BrowserMode::Help));
    b.plain(KeyCode::Esc);
    assert!(matches!(b.fb.mode, BrowserMode::Normal));
    assert!(!b.fb.should_quit);
}

#[test]
fn try_handle_key_leaves_a_refused_key_alone() {
    let mut b = Browser::at_data();
    b.fb.mode = BrowserMode::Selection {
        title: "Encryption type".to_string(),
        options: vec!["XOR".to_string(), "AES".to_string()],
        selected: 1,
        action: nfm::file_browser::SelectionAction::Encrypt("/".to_string()),
    };
    let out = b.fb.try_handle_key(Key::plain(KeyCode::Enter), &mut b.clip, &b.config);
    assert!(out.is_none());
    assert!(matches!(b.fb.mode, BrowserMode::Selection { selected: 1, .. }));
    let out = b.fb.try_handle_key(Key::plain(KeyCode::Up), &mut b.clip, &b.config);
    assert!(out.is_some());
    assert!(matches!(b.fb.mode, BrowserMode::Selection { selected: 0, .. }));
}
