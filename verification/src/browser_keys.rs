//! The file browser's state machine: what each key does in each mode.
//! Work outside the library (reading directories, touching files, opening
//! programs) is returned as `BrowserEffect`s for the front end to perform.
use vstd::prelude::*;
use crate::config::Config;
use crate::file_browser::{
    ArchiveType, BrowserEffect, BrowserMode, DialogAction, DialogType, EncType, FileBrowserState,
    FileItem, FormAction, FormField, GitTask, SelectionAction, SortMode, TabRequest, TaskType,
    clamp_index, kept, list_entries, sorted_items,
};
use crate::keys::{Key, KeyCode};
use crate::paths::{file_name, join, parent, path_file_name, path_join, path_parent};
use crate::text::{
    chars_of, concat2, concat3, has_suffix, push_char, remove_enc, remove_enc_marker,
    str_ends_with, string_of, string_of_chars, with_char, without_last,
};
use crate::utils::Clipboard;

verus! {

/// What a key press in a browser tab produced besides the new state.
pub struct KeyOutcome {
    pub request: Option<TabRequest>,
    pub effects: Vec<BrowserEffect>,
}

// ---------------------------------------------------------------------------
// Specification helpers
// ---------------------------------------------------------------------------

/// The entries of the command menu, in order.
pub open spec fn default_menu() -> Seq<Seq<char>> {
    seq![
        "--- FILES ---"@,
        "Open / Execute"@,
        "New File"@,
        "New Folder"@,
        "Copy Path"@,
        "Duplicate"@,
        "Create Symlink"@,
        "Change Permissions"@,
        "Properties"@,
        "Checksum"@,
        "--- TOOLS ---"@,
        "Compress (Archive)"@,
        "Extract (Extract)"@,
        "Bulk Rename"@,
        "Git Clone"@,
        "Wget (Download)"@,
        "Encrypt"@,
        "Decrypt"@,
        "--- VIEW ---"@,
        "Hidden Files: Off/On"@,
        "Filter List"@,
        "Search Files"@,
        "Refresh Panel"@,
        "Terminal here"@,
        "Git Manager"@,
        "Settings (Config)"@,
        "Preview: Off/On"@,
        "Sort by..."@,
    ]
}

pub open spec fn views(v: Seq<String>) -> Seq<Seq<char>> {
    v.map_values(|s: String| s@)
}

pub open spec fn field_view(f: FormField) -> (Seq<char>, Seq<char>, bool) {
    (f.label@, f.value@, f.is_password)
}

pub open spec fn field_views(v: Seq<FormField>) -> Seq<(Seq<char>, Seq<char>, bool)> {
    v.map_values(|f: FormField| field_view(f))
}

/// The mode is a text input dialog with this title, text and action.
pub open spec fn is_input(m: BrowserMode, title: Seq<char>, input: Seq<char>, action: DialogAction) -> bool {
    match m {
        BrowserMode::Dialog(DialogType::Input { title: t, input: i, action: a }) => t@ == title
            && i@ == input && a == action,
        _ => false,
    }
}

/// The mode is a fresh choice list with this title, options and action.
pub open spec fn is_selection(
    m: BrowserMode,
    title: Seq<char>,
    options: Seq<Seq<char>>,
    action: SelectionAction,
) -> bool {
    match m {
        BrowserMode::Selection { title: t, options: o, selected, action: a } => t@ == title
            && views(o@) == options && selected == 0 && a == action,
        _ => false,
    }
}

/// The mode is a fresh form with this title, fields and action.
pub open spec fn is_form(
    m: BrowserMode,
    title: Seq<char>,
    fields: Seq<(Seq<char>, Seq<char>, bool)>,
    action: FormAction,
) -> bool {
    match m {
        BrowserMode::Form { title: t, fields: f, active_idx, action: a } => t@ == title
            && field_views(f@) == fields && active_idx == 0 && a == action,
        _ => false,
    }
}

/// Nothing but the mode changed.
pub open spec fn only_mode(o: FileBrowserState, n: FileBrowserState) -> bool {
    n == (FileBrowserState { mode: n.mode, ..o })
}

/// No request and no outside work.
pub open spec fn quiet(out: KeyOutcome) -> bool {
    out.request is None && out.effects@.len() == 0
}

/// Only the listing is to be read again.
pub open spec fn refresh_only(out: KeyOutcome) -> bool {
    out.request is None && out.effects@ == seq![BrowserEffect::Refresh]
}

/// The request is a status message with this text.
pub open spec fn is_status(r: Option<TabRequest>, msg: Seq<char>) -> bool {
    match r {
        Some(TabRequest::SetStatus(m)) => m@ == msg,
        _ => false,
    }
}

/// The selected entry of the listing, if the index points at one.
pub open spec fn selected_item(s: FileBrowserState) -> Option<FileItem> {
    if s.selected_index < s.items@.len() {
        Some(s.items@[s.selected_index as int])
    } else {
        None
    }
}

/// The paths of the entries marked for a bulk action, in listing order.
pub open spec fn marked_paths(items: Seq<FileItem>) -> Seq<Seq<char>>
    decreases items.len(),
{
    if items.len() == 0 {
        Seq::empty()
    } else if items.last().selected {
        marked_paths(items.drop_last()).push(items.last().path@)
    } else {
        marked_paths(items.drop_last())
    }
}

/// What a delete acts on: the marked entries, or else the selected entry.
pub open spec fn delete_targets(s: FileBrowserState) -> Seq<Seq<char>> {
    if marked_paths(s.items@).len() > 0 {
        marked_paths(s.items@)
    } else {
        match selected_item(s) {
            Some(item) => seq![item.path@],
            None => Seq::empty(),
        }
    }
}

/// The request a delete makes: a delete task over the targets, none without targets.
pub open spec fn is_delete_request(s: FileBrowserState, r: Option<TabRequest>) -> bool {
    if delete_targets(s).len() == 0 {
        r is None
    } else {
        match r {
            Some(TabRequest::StartTask { task_type: TaskType::Delete(v), path, target }) => views(
                v@,
            ) == delete_targets(s) && path@ == Seq::<char>::empty() && target@
                == Seq::<char>::empty(),
            _ => false,
        }
    }
}

/// The request is a background task of this kind on these paths.
pub open spec fn is_task(r: Option<TabRequest>, t: TaskType, path: Seq<char>, target: Seq<char>) -> bool {
    match r {
        Some(TabRequest::StartTask { task_type, path: p, target: q }) => task_type == t && p@
            == path && q@ == target,
        _ => false,
    }
}

/// The browser is well formed: the menu has its entries and every index of the
/// mode points into what it indexes.
pub open spec fn browser_wf(s: FileBrowserState) -> bool {
    &&& s.menu_items@.len() == 28
    &&& match s.mode {
        BrowserMode::Menu(i) => i < 28,
        BrowserMode::Permissions { row, col, .. } => row < 3 && col < 3,
        BrowserMode::Selection { options, selected, .. } => selected < options@.len(),
        BrowserMode::Form { fields, active_idx, action, .. } => active_idx < fields@.len()
            && fields@.len() >= form_arity(action),
        _ => true,
    }
}

/// How many fields a form of this action reads.
pub open spec fn form_arity(a: FormAction) -> nat {
    match a {
        FormAction::Archive { .. } => 1,
        _ => 2,
    }
}

/// The key would need the file name or the parent directory of a path that has none.
pub open spec fn browser_key_panics(s: FileBrowserState, key: Key) -> bool {
    key.code == KeyCode::Enter && match s.mode {
        BrowserMode::Selection { action, .. } => match action {
            SelectionAction::Archive(p) => path_file_name(p@) is None,
            SelectionAction::Encrypt(p) => path_file_name(p@) is None,
            SelectionAction::Decrypt(p) => path_file_name(p@) is None,
            _ => false,
        },
        BrowserMode::Form { fields, active_idx, action, .. } => active_idx + 1 >= fields@.len()
            && match action {
            FormAction::Archive { path, .. } => path_parent(path@) is None,
            FormAction::Encrypt { path, .. } => path_parent(path@) is None,
            FormAction::Decrypt { path, .. } => path_parent(path@) is None,
            _ => false,
        },
        _ => false,
    }
}

// ---------------------------------------------------------------------------
// Normal mode
// ---------------------------------------------------------------------------

/// Entering the selected directory (when the selected entry is one).
pub open spec fn enter_dir_post(o: FileBrowserState, n: FileBrowserState, out: KeyOutcome) -> bool {
    match selected_item(o) {
        Some(item) => if item.is_dir {
            n == (FileBrowserState { current_dir: item.path, selected_index: 0, ..o })
                && refresh_only(out)
        } else {
            n == o && quiet(out)
        },
        None => n == o && quiet(out),
    }
}

/// What a key does in the normal mode.  Help opens with `h` or F1; `c`
/// copies and `v` pastes with or without Ctrl (`C` and `V` with Ctrl), and
/// cut takes Ctrl+X.
pub open spec fn normal_post(
    o: FileBrowserState,
    n: FileBrowserState,
    key: Key,
    cb0: Clipboard,
    cb1: Clipboard,
    config: Config,
    out: KeyOutcome,
) -> bool {
    let code = key.code;
    let unchanged_clipboard = cb1 == cb0;
    if code == KeyCode::Esc || code == KeyCode::Char('q') {
        unchanged_clipboard && if o.filter@.len() > 0 {
            n == (FileBrowserState { filter: n.filter, ..o }) && n.filter@ == Seq::<char>::empty()
                && refresh_only(out)
        } else {
            n == (FileBrowserState { should_quit: true, ..o }) && quiet(out)
        }
    } else if code == KeyCode::Char('h') || code == KeyCode::F(1) {
        unchanged_clipboard && n == (FileBrowserState { mode: BrowserMode::Help, ..o }) && quiet(out)
    } else if code == KeyCode::Up {
        unchanged_clipboard && n == (FileBrowserState {
            selected_index: if o.selected_index > 0 {
                (o.selected_index - 1) as usize
            } else {
                o.selected_index
            },
            ..o
        }) && quiet(out)
    } else if code == KeyCode::Down {
        unchanged_clipboard && n == (FileBrowserState {
            selected_index: if o.selected_index + 1 < o.items@.len() {
                (o.selected_index + 1) as usize
            } else {
                o.selected_index
            },
            ..o
        }) && quiet(out)
    } else if code == KeyCode::Right {
        unchanged_clipboard && enter_dir_post(o, n, out)
    } else if code == KeyCode::Left {
        unchanged_clipboard && match path_parent(o.current_dir@) {
            Some(p) => n == (FileBrowserState { current_dir: n.current_dir, selected_index: 0, ..o })
                && n.current_dir@ == p && refresh_only(out),
            None => n == (FileBrowserState { mode: BrowserMode::Drives, selected_index: 0, ..o })
                && out.request is None && out.effects@ == seq![BrowserEffect::LoadDrives],
        }
    } else if code == KeyCode::Enter {
        unchanged_clipboard && match selected_item(o) {
            Some(item) => if item.is_dir {
                enter_dir_post(o, n, out)
            } else {
                n == o && out.request == Some(TabRequest::OpenEditor(item.path))
                    && out.effects@.len() == 0
            },
            None => n == o && quiet(out),
        }
    } else if code == KeyCode::Char(' ') {
        unchanged_clipboard && quiet(out) && match selected_item(o) {
            Some(item) => n == (FileBrowserState {
                items: n.items,
                selected_index: if o.selected_index + 1 < o.items@.len() {
                    (o.selected_index + 1) as usize
                } else {
                    o.selected_index
                },
                ..o
            }) && n.items@ == o.items@.update(
                o.selected_index as int,
                FileItem { selected: !item.selected, ..item },
            ),
            None => n == o,
        }
    } else if code == KeyCode::Char('o') || code == KeyCode::Char('O') {
        unchanged_clipboard && n == (FileBrowserState { mode: BrowserMode::Menu(1), ..o }) && quiet(
            out,
        )
    } else if code == KeyCode::Char('n') || code == KeyCode::Char('N') {
        unchanged_clipboard && only_mode(o, n) && quiet(out) && is_input(
            n.mode,
            "New file name:"@,
            Seq::empty(),
            DialogAction::NewFile,
        )
    } else if code == KeyCode::Char('m') || code == KeyCode::Char('M') {
        unchanged_clipboard && only_mode(o, n) && quiet(out) && is_input(
            n.mode,
            "New folder name:"@,
            Seq::empty(),
            DialogAction::NewFolder,
        )
    } else if code == KeyCode::Char('r') || code == KeyCode::Char('R') {
        unchanged_clipboard && quiet(out) && match selected_item(o) {
            Some(item) => only_mode(o, n) && is_input(
                n.mode,
                "Rename to:"@,
                item.name@,
                DialogAction::Rename(item.path),
            ),
            None => n == o,
        }
    } else if code == KeyCode::Delete || code == KeyCode::Char('D') {
        unchanged_clipboard && if config.file_browser.confirm_delete {
            n == (FileBrowserState {
                mode: BrowserMode::Dialog(DialogType::DeleteConfirm),
                ..o
            }) && quiet(out)
        } else {
            n == o && out.effects@.len() == 0 && is_delete_request(o, out.request)
        }
    } else if code == KeyCode::Char('c') || (code == KeyCode::Char('C') && key.ctrl) {
        n == o && out.effects@.len() == 0 && match selected_item(o) {
            Some(item) => cb1 == (Clipboard { source_path: Some(item.path), is_cut: false, ..cb0 })
                && is_status(out.request, "Copied"@),
            None => unchanged_clipboard && out.request is None,
        }
    } else if (code == KeyCode::Char('x') || code == KeyCode::Char('X')) && key.ctrl {
        n == o && out.effects@.len() == 0 && match selected_item(o) {
            Some(item) => cb1 == (Clipboard { source_path: Some(item.path), is_cut: true, ..cb0 })
                && is_status(out.request, "Cut"@),
            None => unchanged_clipboard && out.request is None,
        }
    } else if code == KeyCode::Char('v') || (code == KeyCode::Char('V') && key.ctrl) {
        unchanged_clipboard && n == o && out.effects@.len() == 0 && match cb0.source_path {
            Some(p) => match path_file_name(p@) {
                Some(name) => is_task(
                    out.request,
                    if cb0.is_cut {
                        TaskType::Move
                    } else {
                        TaskType::Copy
                    },
                    p@,
                    path_join(o.current_dir@, name),
                ),
                None => out.request is None,
            },
            None => out.request is None,
        }
    } else {
        unchanged_clipboard && n == o && quiet(out)
    }
}

fn no_outcome() -> (out: KeyOutcome)
    ensures
        quiet(out),
{
    KeyOutcome { request: None, effects: Vec::new() }
}

fn refresh_outcome() -> (out: KeyOutcome)
    ensures
        refresh_only(out),
{
    let mut effects = Vec::new();
    effects.push(BrowserEffect::Refresh);
    proof {
        assert(effects@ =~= seq![BrowserEffect::Refresh]);
    }
    KeyOutcome { request: None, effects }
}

fn status_outcome(msg: &str) -> (out: KeyOutcome)
    ensures
        is_status(out.request, msg@),
        out.effects@.len() == 0,
{
    KeyOutcome { request: Some(TabRequest::SetStatus(string_of(msg))), effects: Vec::new() }
}

fn input_dialog(title: &str, input: String, action: DialogAction) -> (m: BrowserMode)
    ensures
        is_input(m, title@, input@, action),
{
    BrowserMode::Dialog(DialogType::Input { title: string_of(title), input, action })
}

impl FileBrowserState {
    /// The selected entry, copied.
    fn selected(&self) -> (r: Option<FileItem>)
        ensures
            r == selected_item(*self),
    {
        if self.selected_index < self.items.len() {
            Some(self.items[self.selected_index].duplicate())
        } else {
            None
        }
    }

    fn enter_selected_dir(&mut self) -> (out: KeyOutcome)
        ensures
            enter_dir_post(*old(self), *final(self), out),
    {
        match self.selected() {
            Some(item) => {
                if item.is_dir {
                    self.current_dir = item.path;
                    self.selected_index = 0;
                    refresh_outcome()
                } else {
                    no_outcome()
                }
            },
            None => no_outcome(),
        }
    }

    /// The delete request for the marked entries, or else the selected one.
    pub fn start_delete(&self) -> (r: Option<TabRequest>)
        ensures
            is_delete_request(*self, r),
    {
        let mut to_delete: Vec<String> = Vec::new();
        let mut i: usize = 0;
        while i < self.items.len()
            invariant
                0 <= i <= self.items.len(),
                views(to_delete@) == marked_paths(self.items@.take(i as int)),
            decreases self.items.len() - i,
        {
            proof {
                let t = self.items@.take(i + 1);
                assert(t.drop_last() =~= self.items@.take(i as int));
                assert(t.last() == self.items@[i as int]);
            }
            if self.items[i].selected {
                to_delete.push(self.items[i].path.clone());
                proof {
                    assert(views(to_delete@) =~= views(to_delete@.drop_last()).push(
                        to_delete@.last()@,
                    ));
                }
            }
            i = i + 1;
        }
        proof {
            assert(self.items@.take(self.items.len() as int) =~= self.items@);
        }
        if to_delete.len() == 0 {
            if self.selected_index < self.items.len() {
                to_delete.push(self.items[self.selected_index].path.clone());
                proof {
                    assert(views(to_delete@) =~= seq![self.items@[self.selected_index as int].path@]);
                }
            }
        }
        if to_delete.len() == 0 {
            return None;
        }
        Some(
            TabRequest::StartTask {
                task_type: TaskType::Delete(to_delete),
                path: String::new(),
                target: String::new(),
            },
        )
    }

    fn handle_normal_key(&mut self, key: Key, clipboard: &mut Clipboard, config: &Config) -> (out:
        KeyOutcome)
        requires
            old(self).mode is Normal,
        ensures
            browser_wf(*old(self)) ==> browser_wf(*final(self)),
            normal_post(*old(self), *final(self), key, *old(clipboard), *final(clipboard), *config, out),
    {
        let code = key.code;
        if code == KeyCode::Esc || code == KeyCode::Char('q') {
            if !self.filter.as_str().is_empty() {
                self.filter = String::new();
                return refresh_outcome();
            }
            self.should_quit = true;
            no_outcome()
        } else if code == KeyCode::Char('h') || code == KeyCode::F(1) {
            self.mode = BrowserMode::Help;
            no_outcome()
        } else if code == KeyCode::Up {
            if self.selected_index > 0 {
                self.selected_index = self.selected_index - 1;
            }
            no_outcome()
        } else if code == KeyCode::Down {
            if self.selected_index < self.items.len() && self.items.len() - self.selected_index > 1 {
                self.selected_index = self.selected_index + 1;
            }
            no_outcome()
        } else if code == KeyCode::Right {
            self.enter_selected_dir()
        } else if code == KeyCode::Left {
            match parent(self.current_dir.as_str()) {
                Some(p) => {
                    self.current_dir = p;
                    self.selected_index = 0;
                    refresh_outcome()
                },
                None => {
                    self.mode = BrowserMode::Drives;
                    self.selected_index = 0;
                    let mut effects = Vec::new();
                    effects.push(BrowserEffect::LoadDrives);
                    proof {
                        assert(effects@ =~= seq![BrowserEffect::LoadDrives]);
                    }
                    KeyOutcome { request: None, effects }
                },
            }
        } else if code == KeyCode::Enter {
            match self.selected() {
                Some(item) => {
                    if item.is_dir {
                        self.enter_selected_dir()
                    } else {
                        KeyOutcome {
                            request: Some(TabRequest::OpenEditor(item.path)),
                            effects: Vec::new(),
                        }
                    }
                },
                None => no_outcome(),
            }
        } else if code == KeyCode::Char(' ') {
            if self.selected_index < self.items.len() {
                let mut item = self.items[self.selected_index].duplicate();
                item.selected = !item.selected;
                self.items.set(self.selected_index, item);
            }
            if self.selected_index < self.items.len() && self.items.len() - self.selected_index > 1 {
                self.selected_index = self.selected_index + 1;
            }
            no_outcome()
        } else if code == KeyCode::Char('o') || code == KeyCode::Char('O') {
            self.mode = BrowserMode::Menu(1);
            no_outcome()
        } else if code == KeyCode::Char('n') || code == KeyCode::Char('N') {
            self.mode = input_dialog("New file name:", String::new(), DialogAction::NewFile);
            no_outcome()
        } else if code == KeyCode::Char('m') || code == KeyCode::Char('M') {
            self.mode = input_dialog("New folder name:", String::new(), DialogAction::NewFolder);
            no_outcome()
        } else if code == KeyCode::Char('r') || code == KeyCode::Char('R') {
            match self.selected() {
                Some(item) => {
                    self.mode = input_dialog("Rename to:", item.name, DialogAction::Rename(item.path));
                },
                None => {},
            }
            no_outcome()
        } else if code == KeyCode::Delete || code == KeyCode::Char('D') {
            if config.file_browser.confirm_delete {
                self.mode = BrowserMode::Dialog(DialogType::DeleteConfirm);
                no_outcome()
            } else {
                KeyOutcome { request: self.start_delete(), effects: Vec::new() }
            }
        } else if code == KeyCode::Char('c') || (code == KeyCode::Char('C') && key.ctrl) {
            match self.selected() {
                Some(item) => {
                    clipboard.set_file(item.path, false);
                    status_outcome("Copied")
                },
                None => no_outcome(),
            }
        } else if (code == KeyCode::Char('x') || code == KeyCode::Char('X')) && key.ctrl {
            match self.selected() {
                Some(item) => {
                    clipboard.set_file(item.path, true);
                    status_outcome("Cut")
                },
                None => no_outcome(),
            }
        } else if code == KeyCode::Char('v') || (code == KeyCode::Char('V') && key.ctrl) {
            match clipboard.get_file() {
                Some((path, is_cut)) => match file_name(path.as_str()) {
                    Some(name) => {
                        let target = join(self.current_dir.as_str(), name.as_str());
                        let task_type = if is_cut {
                            TaskType::Move
                        } else {
                            TaskType::Copy
                        };
                        KeyOutcome {
                            request: Some(TabRequest::StartTask { task_type, path, target }),
                            effects: Vec::new(),
                        }
                    },
                    None => no_outcome(),
                },
                None => no_outcome(),
            }
        } else {
            no_outcome()
        }
    }
}

// ---------------------------------------------------------------------------
// Command menu
// ---------------------------------------------------------------------------

/// Menu entry `i` is a section heading.
pub open spec fn is_heading(labels: Seq<Seq<char>>, i: int) -> bool {
    crate::text::has_prefix(labels[i], "---"@)
}

pub open spec fn menu_up(i: usize, labels: Seq<Seq<char>>) -> usize {
    let j: usize = if i > 1 {
        (i - 1) as usize
    } else {
        i
    };
    if is_heading(labels, j as int) && j > 1 {
        (j - 1) as usize
    } else {
        j
    }
}

pub open spec fn menu_down(i: usize, labels: Seq<Seq<char>>) -> usize {
    let j: usize = if i + 1 < labels.len() {
        (i + 1) as usize
    } else {
        i
    };
    if is_heading(labels, j as int) && j + 1 < labels.len() {
        (j + 1) as usize
    } else {
        j
    }
}

pub open spec fn menu_right(i: usize) -> usize {
    if i < 10 {
        11
    } else if i < 18 {
        19
    } else {
        i
    }
}

pub open spec fn menu_left(i: usize) -> usize {
    if i > 18 {
        11
    } else if i > 10 {
        1
    } else {
        i
    }
}

proof fn lemma_not_prefix(s: Seq<char>, p: Seq<char>)
    requires
        s.len() > 0,
        p.len() > 0,
        s[0] != p[0],
    ensures
        !crate::text::has_prefix(s, p),
{
    if crate::text::has_prefix(s, p) {
        assert(s.take(p.len() as int)[0] == s[0]);
    }
}

/// The headings of the command menu are its entries 0, 10 and 18.
proof fn lemma_menu_headings()
    ensures
        forall|k: int|
            0 <= k < 28 ==> (#[trigger] is_heading(default_menu(), k) <==> (k == 0 || k == 10 || k
                == 18)),
{
    reveal_strlit("--- FILES ---");
    reveal_strlit("Open / Execute");
    reveal_strlit("New File");
    reveal_strlit("New Folder");
    reveal_strlit("Copy Path");
    reveal_strlit("Duplicate");
    reveal_strlit("Create Symlink");
    reveal_strlit("Change Permissions");
    reveal_strlit("Properties");
    reveal_strlit("Checksum");
    reveal_strlit("--- TOOLS ---");
    reveal_strlit("Compress (Archive)");
    reveal_strlit("Extract (Extract)");
    reveal_strlit("Bulk Rename");
    reveal_strlit("Git Clone");
    reveal_strlit("Wget (Download)");
    reveal_strlit("Encrypt");
    reveal_strlit("Decrypt");
    reveal_strlit("--- VIEW ---");
    reveal_strlit("Hidden Files: Off/On");
    reveal_strlit("Filter List");
    reveal_strlit("Search Files");
    reveal_strlit("Refresh Panel");
    reveal_strlit("Terminal here");
    reveal_strlit("Git Manager");
    reveal_strlit("Settings (Config)");
    reveal_strlit("Preview: Off/On");
    reveal_strlit("Sort by...");
    reveal_strlit("---");
    assert forall|k: int| 0 <= k < 28 implies (#[trigger] is_heading(default_menu(), k) <==> (k == 0
        || k == 10 || k == 18)) by {
        let label = default_menu()[k];
        if k == 0 || k == 10 || k == 18 {
            assert(label.take(3) =~= "---"@);
        } else {
            assert(label.len() > 0 && label[0] != '-');
            lemma_not_prefix(label, "---"@);
        }
    }
}

/// The menu cursor never rests on a section heading: from an entry, each
/// arrow key moves it to an entry.
pub proof fn law_menu_cursor_skips_headings(i: usize)
    requires
        1 <= i < 28,
        !is_heading(default_menu(), i as int),
    ensures
        1 <= menu_up(i, default_menu()) < 28,
        !is_heading(default_menu(), menu_up(i, default_menu()) as int),
        1 <= menu_down(i, default_menu()) < 28,
        !is_heading(default_menu(), menu_down(i, default_menu()) as int),
        1 <= menu_right(i) < 28,
        !is_heading(default_menu(), menu_right(i) as int),
        1 <= menu_left(i) < 28,
        !is_heading(default_menu(), menu_left(i) as int),
{
    lemma_menu_headings();
}

/// In the command menu of a new browser, the arrow keys move the cursor from
/// an entry to an entry and ask for nothing: Right jumps to the first entry
/// of the next column, Left to the first entry of the previous one.
pub proof fn law_menu_arrow_keys(
    o: FileBrowserState,
    n: FileBrowserState,
    i: usize,
    key: Key,
    cb0: Clipboard,
    cb1: Clipboard,
    config: Config,
    out: KeyOutcome,
)
    requires
        views(o.menu_items@) == default_menu(),
        o.mode == BrowserMode::Menu(i),
        1 <= i < 28,
        !is_heading(default_menu(), i as int),
        key.code == KeyCode::Up || key.code == KeyCode::Down || key.code == KeyCode::Left
            || key.code == KeyCode::Right,
        browser_post(o, n, key, cb0, cb1, config, out),
    ensures
        quiet(out),
        cb1 == cb0,
        only_mode(o, n),
        match n.mode {
            BrowserMode::Menu(j) => 1 <= j < 28 && !is_heading(default_menu(), j as int),
            _ => false,
        },
        key.code == KeyCode::Right && i <= 9 ==> n.mode == BrowserMode::Menu(11),
        key.code == KeyCode::Right && 11 <= i <= 17 ==> n.mode == BrowserMode::Menu(19),
        key.code == KeyCode::Left && i >= 19 ==> n.mode == BrowserMode::Menu(11),
        key.code == KeyCode::Left && 11 <= i <= 17 ==> n.mode == BrowserMode::Menu(1),
{
    law_menu_cursor_skips_headings(i);
}

/// The mode is a fresh permissions editor for `item`: all boxes cleared until the
/// file's bits are read, cursor on the first box.
pub open spec fn is_fresh_permissions(m: BrowserMode, item: FileItem) -> bool {
    match m {
        BrowserMode::Permissions { item: i, grid, row, col } => i == item && row == 0 && col == 0
            && forall|r: int, c: int| 0 <= r < 3 && 0 <= c < 3 ==> !grid@[r]@[c],
        _ => false,
    }
}

/// Entry 1 to 9 of the menu acts on the selected entry and needs one.
pub open spec fn menu_enter_post(
    o: FileBrowserState,
    n: FileBrowserState,
    cb0: Clipboard,
    cb1: Clipboard,
    out: KeyOutcome,
    idx: usize,
) -> bool {
    let item = selected_item(o);
    let normal = FileBrowserState { mode: BrowserMode::Normal, ..o };
    let same_cb = cb1 == cb0;
    if idx == 1 {
        same_cb && n == normal && match item {
            Some(it) => is_status(out.request, "Opened externally"@) && out.effects@ == seq![
                BrowserEffect::OpenExternally(it.path),
            ],
            None => quiet(out),
        }
    } else if idx == 2 || idx == 13 {
        same_cb && only_mode(o, n) && quiet(out) && is_input(
            n.mode,
            if idx == 2 {
                "New file name:"@
            } else {
                "Rename pattern:"@
            },
            Seq::empty(),
            DialogAction::NewFile,
        )
    } else if idx == 3 {
        same_cb && only_mode(o, n) && quiet(out) && is_input(
            n.mode,
            "New folder name:"@,
            Seq::empty(),
            DialogAction::NewFolder,
        )
    } else if idx == 4 {
        n == normal && out.effects@.len() == 0 && match item {
            Some(it) => cb1 == (Clipboard { content: cb1.content, ..cb0 }) && cb1.content@
                == it.path@ && is_status(out.request, "Path copied"@),
            None => same_cb && out.request is None,
        }
    } else if idx == 5 || idx == 6 {
        same_cb && quiet(out) && match item {
            Some(it) => only_mode(o, n) && if idx == 5 {
                is_input(n.mode, "Duplicate as:"@, it.name@ + "_copy"@, DialogAction::Duplicate(it.path))
            } else {
                is_input(n.mode, "Symlink name:"@, it.name@ + "_link"@, DialogAction::Symlink(it.path))
            },
            None => n == normal,
        }
    } else if idx == 7 {
        same_cb && match item {
            Some(it) => only_mode(o, n) && is_fresh_permissions(n.mode, it) && out.request is None
                && out.effects@ == seq![BrowserEffect::ReadPermissions(it.path)],
            None => n == normal && quiet(out),
        }
    } else if idx == 8 {
        same_cb && quiet(out) && match item {
            Some(it) => n == (FileBrowserState { mode: BrowserMode::Metadata(it), ..o }),
            None => n == normal,
        }
    } else if idx == 9 || idx == 11 || idx == 16 || idx == 17 {
        same_cb && quiet(out) && match item {
            Some(it) => only_mode(o, n) && if idx == 9 {
                is_selection(n.mode, "Algorithm"@, seq!["MD5"@, "SHA256"@], SelectionAction::Checksum(it.path))
            } else if idx == 11 {
                is_selection(
                    n.mode,
                    "Archive type"@,
                    seq!["ZIP"@, "TAR"@, "GZIP"@],
                    SelectionAction::Archive(it.path),
                )
            } else if idx == 16 {
                is_selection(
                    n.mode,
                    "Encryption type"@,
                    seq!["XOR (Fast)"@, "AES (Placeholder)"@],
                    SelectionAction::Encrypt(it.path),
                )
            } else {
                is_selection(
                    n.mode,
                    "Encryption type"@,
                    seq!["XOR"@, "AES"@],
                    SelectionAction::Decrypt(it.path),
                )
            },
            None => n == normal,
        }
    } else if idx == 12 {
        same_cb && n == normal && out.effects@.len() == 0 && match item {
            Some(it) => if has_suffix(it.name@, ".zip"@) || has_suffix(it.name@, ".tar"@)
                || has_suffix(it.name@, ".gz"@) {
                is_task(out.request, TaskType::Unzip, it.path@, o.current_dir@)
            } else {
                out.request is None
            },
            None => out.request is None,
        }
    } else if idx == 14 || idx == 15 || idx == 21 {
        same_cb && only_mode(o, n) && quiet(out) && if idx == 14 {
            is_input(n.mode, "Git Clone URL:"@, Seq::empty(), DialogAction::GitClone)
        } else if idx == 15 {
            is_input(n.mode, "Wget URL:"@, Seq::empty(), DialogAction::Wget)
        } else {
            is_input(n.mode, "Search pattern:"@, Seq::empty(), DialogAction::Search)
        }
    } else if idx == 19 {
        same_cb && n == (FileBrowserState {
            mode: BrowserMode::Normal,
            show_hidden: !o.show_hidden,
            ..o
        }) && is_status(
            out.request,
            if !o.show_hidden {
                "Hidden: Yes"@
            } else {
                "Hidden: No"@
            },
        ) && out.effects@ == seq![BrowserEffect::Refresh]
    } else if idx == 20 {
        same_cb && only_mode(o, n) && quiet(out) && is_input(
            n.mode,
            "Filter:"@,
            o.filter@,
            DialogAction::Filter,
        )
    } else if idx == 22 {
        same_cb && n == normal && is_status(out.request, "Refreshed"@) && out.effects@ == seq![
            BrowserEffect::Refresh,
        ]
    } else if idx == 23 {
        same_cb && n == normal && is_status(out.request, "Terminal opened"@) && out.effects@
            == seq![BrowserEffect::OpenTerminal(o.current_dir)]
    } else if idx == 24 {
        same_cb && n == (FileBrowserState { mode: BrowserMode::GitMenu(1), ..o }) && quiet(out)
    } else if idx == 25 {
        same_cb && n == o && out.effects@.len() == 0 && match out.request {
            Some(TabRequest::OpenEditor(p)) => crate::config::is_config_path(p@),
            _ => false,
        }
    } else if idx == 26 {
        same_cb && n == (FileBrowserState {
            mode: BrowserMode::Normal,
            show_preview: !o.show_preview,
            ..o
        }) && is_status(
            out.request,
            if !o.show_preview {
                "Preview: On"@
            } else {
                "Preview: Off"@
            },
        ) && out.effects@.len() == 0
    } else if idx == 27 {
        same_cb && only_mode(o, n) && quiet(out) && is_selection(
            n.mode,
            "Sort by"@,
            seq![
                "Name (A-Z)"@,
                "Name (Z-A)"@,
                "Size (Smallest)"@,
                "Size (Largest)"@,
                "Date (Oldest)"@,
                "Date (Newest)"@,
            ],
            SelectionAction::SortMode,
        )
    } else {
        same_cb && n == normal && quiet(out)
    }
}

/// What a key does in the command menu.
pub open spec fn menu_post(
    o: FileBrowserState,
    n: FileBrowserState,
    key: Key,
    cb0: Clipboard,
    cb1: Clipboard,
    out: KeyOutcome,
) -> bool {
    let code = key.code;
    let idx = match o.mode {
        BrowserMode::Menu(i) => i,
        _ => 0,
    };
    let labels = views(o.menu_items@);
    if code == KeyCode::Esc || code == KeyCode::Char('q') || code == KeyCode::Char('o') || code
        == KeyCode::Char('O') {
        cb1 == cb0 && n == (FileBrowserState { mode: BrowserMode::Normal, ..o }) && quiet(out)
    } else if code == KeyCode::Up {
        cb1 == cb0 && n == (FileBrowserState { mode: BrowserMode::Menu(menu_up(idx, labels)), ..o })
            && quiet(out)
    } else if code == KeyCode::Down {
        cb1 == cb0 && n == (FileBrowserState {
            mode: BrowserMode::Menu(menu_down(idx, labels)),
            ..o
        }) && quiet(out)
    } else if code == KeyCode::Right {
        cb1 == cb0 && n == (FileBrowserState { mode: BrowserMode::Menu(menu_right(idx)), ..o })
            && quiet(out)
    } else if code == KeyCode::Left {
        cb1 == cb0 && n == (FileBrowserState { mode: BrowserMode::Menu(menu_left(idx)), ..o })
            && quiet(out)
    } else if code == KeyCode::Enter {
        menu_enter_post(o, n, cb0, cb1, out, idx)
    } else {
        cb1 == cb0 && n == o && quiet(out)
    }
}

fn strings(labels: &Vec<&str>) -> (v: Vec<String>)
    ensures
        views(v@) == labels@.map_values(|s: &str| s@),
{
    let mut v: Vec<String> = Vec::new();
    let mut i: usize = 0;
    while i < labels.len()
        invariant
            0 <= i <= labels.len(),
            views(v@) == labels@.take(i as int).map_values(|s: &str| s@),
        decreases labels.len() - i,
    {
        let ghost before = v@;
        let t = string_of(labels[i]);
        v.push(t);
        proof {
            assert(v@ == before.push(t));
            assert(views(v@) =~= views(before).push(t@));
            assert(labels@.take(i + 1) =~= labels@.take(i as int).push(labels@[i as int]));
            assert(labels@.take(i + 1).map_values(|s: &str| s@) =~= labels@.take(
                i as int,
            ).map_values(|s: &str| s@).push(labels@[i as int]@));
        }
        i = i + 1;
    }
    proof {
        assert(labels@.take(labels.len() as int) =~= labels@);
    }
    v
}

fn selection_mode(title: &str, labels: &Vec<&str>, action: SelectionAction) -> (m: BrowserMode)
    requires
        labels.len() >= 1,
    ensures
        is_selection(m, title@, labels@.map_values(|s: &str| s@), action),
        m matches BrowserMode::Selection { options, selected, .. } && selected < options@.len(),
{
    let options = strings(labels);
    proof {
        assert(views(options@).len() == labels@.len());
    }
    BrowserMode::Selection { title: string_of(title), options, selected: 0, action }
}

fn effect_outcome(e: BrowserEffect) -> (out: KeyOutcome)
    ensures
        out.request is None,
        out.effects@ == seq![e],
{
    let mut effects = Vec::new();
    effects.push(e);
    proof {
        assert(effects@ =~= seq![e]);
    }
    KeyOutcome { request: None, effects }
}

impl FileBrowserState {
    fn handle_menu_key(&mut self, key: Key, clipboard: &mut Clipboard) -> (out: KeyOutcome)
        requires
            old(self).mode is Menu,
            browser_wf(*old(self)),
        ensures
            browser_wf(*old(self)) ==> browser_wf(*final(self)),
            menu_post(*old(self), *final(self), key, *old(clipboard), *final(clipboard), out),
    {
        let idx = match self.mode {
            BrowserMode::Menu(i) => i,
            _ => 0,
        };
        let code = key.code;
        let ghost labels = views(self.menu_items@);
        if code == KeyCode::Esc || code == KeyCode::Char('q') || code == KeyCode::Char('o') || code
            == KeyCode::Char('O') {
            self.mode = BrowserMode::Normal;
            no_outcome()
        } else if code == KeyCode::Up {
            let mut j = if idx > 1 {
                idx - 1
            } else {
                idx
            };
            if crate::text::str_starts_with(self.menu_items[j].as_str(), "---") && j > 1 {
                j = j - 1;
            }
            self.mode = BrowserMode::Menu(j);
            no_outcome()
        } else if code == KeyCode::Down {
            let mut j = if idx + 1 < self.menu_items.len() {
                idx + 1
            } else {
                idx
            };
            if crate::text::str_starts_with(self.menu_items[j].as_str(), "---") && j + 1
                < self.menu_items.len() {
                j = j + 1;
            }
            self.mode = BrowserMode::Menu(j);
            no_outcome()
        } else if code == KeyCode::Right {
            let j = if idx < 10 {
                11
            } else if idx < 18 {
                19
            } else {
                idx
            };
            self.mode = BrowserMode::Menu(j);
            no_outcome()
        } else if code == KeyCode::Left {
            let j = if idx > 18 {
                11
            } else if idx > 10 {
                1
            } else {
                idx
            };
            self.mode = BrowserMode::Menu(j);
            no_outcome()
        } else if code == KeyCode::Enter {
            self.menu_enter(idx, clipboard)
        } else {
            no_outcome()
        }
    }

    fn menu_enter(&mut self, idx: usize, clipboard: &mut Clipboard) -> (out: KeyOutcome)
        ensures
            browser_wf(*old(self)) ==> browser_wf(*final(self)),
            menu_enter_post(*old(self), *final(self), *old(clipboard), *final(clipboard), out, idx),
    {
        let item = self.selected();
        if idx == 1 {
            self.mode = BrowserMode::Normal;
            match item {
                Some(it) => KeyOutcome {
                    request: Some(TabRequest::SetStatus(string_of("Opened externally"))),
                    effects: effect_outcome(BrowserEffect::OpenExternally(it.path)).effects,
                },
                None => no_outcome(),
            }
        } else if idx == 2 || idx == 13 {
            self.mode = input_dialog(
                if idx == 2 {
                    "New file name:"
                } else {
                    "Rename pattern:"
                },
                String::new(),
                DialogAction::NewFile,
            );
            no_outcome()
        } else if idx == 3 {
            self.mode = input_dialog("New folder name:", String::new(), DialogAction::NewFolder);
            no_outcome()
        } else if idx == 4 {
            self.mode = BrowserMode::Normal;
            match item {
                Some(it) => {
                    clipboard.set_text(it.path);
                    status_outcome("Path copied")
                },
                None => no_outcome(),
            }
        } else if idx == 5 || idx == 6 {
            match item {
                Some(it) => {
                    if idx == 5 {
                        let input = concat2(it.name.as_str(), "_copy");
                        self.mode = input_dialog("Duplicate as:", input, DialogAction::Duplicate(it.path));
                    } else {
                        let input = concat2(it.name.as_str(), "_link");
                        self.mode = input_dialog("Symlink name:", input, DialogAction::Symlink(it.path));
                    }
                },
                None => {
                    self.mode = BrowserMode::Normal;
                },
            }
            no_outcome()
        } else if idx == 7 {
            match item {
                Some(it) => {
                    let path = it.path.clone();
                    self.mode = BrowserMode::Permissions {
                        item: it,
                        grid: [[false; 3]; 3],
                        row: 0,
                        col: 0,
                    };
                    effect_outcome(BrowserEffect::ReadPermissions(path))
                },
                None => {
                    self.mode = BrowserMode::Normal;
                    no_outcome()
                },
            }
        } else if idx == 8 {
            match item {
                Some(it) => {
                    self.mode = BrowserMode::Metadata(it);
                },
                None => {
                    self.mode = BrowserMode::Normal;
                },
            }
            no_outcome()
        } else if idx == 9 || idx == 11 || idx == 16 || idx == 17 {
            match item {
                Some(it) => {
                    if idx == 9 {
                        let labels = vec!["MD5", "SHA256"];
                        proof {
                            assert(labels@.map_values(|s: &str| s@) =~= seq!["MD5"@, "SHA256"@]);
                        }
                        self.mode = selection_mode("Algorithm", &labels, SelectionAction::Checksum(it.path));
                    } else if idx == 11 {
                        let labels = vec!["ZIP", "TAR", "GZIP"];
                        proof {
                            assert(labels@.map_values(|s: &str| s@) =~= seq!["ZIP"@, "TAR"@, "GZIP"@]);
                        }
                        self.mode = selection_mode("Archive type", &labels, SelectionAction::Archive(it.path));
                    } else if idx == 16 {
                        let labels = vec!["XOR (Fast)", "AES (Placeholder)"];
                        proof {
                            assert(labels@.map_values(|s: &str| s@) =~= seq!["XOR (Fast)"@, "AES (Placeholder)"@]);
                        }
                        self.mode = selection_mode("Encryption type", &labels, SelectionAction::Encrypt(it.path));
                    } else {
                        let labels = vec!["XOR", "AES"];
                        proof {
                            assert(labels@.map_values(|s: &str| s@) =~= seq!["XOR"@, "AES"@]);
                        }
                        self.mode = selection_mode("Encryption type", &labels, SelectionAction::Decrypt(it.path));
                    }
                },
                None => {
                    self.mode = BrowserMode::Normal;
                },
            }
            no_outcome()
        } else if idx == 12 {
            self.mode = BrowserMode::Normal;
            match item {
                Some(it) => {
                    let n = it.name.as_str();
                    if str_ends_with(n, ".zip") || str_ends_with(n, ".tar") || str_ends_with(n, ".gz") {
                        KeyOutcome {
                            request: Some(
                                TabRequest::StartTask {
                                    task_type: TaskType::Unzip,
                                    path: it.path,
                                    target: self.current_dir.clone(),
                                },
                            ),
                            effects: Vec::new(),
                        }
                    } else {
                        no_outcome()
                    }
                },
                None => no_outcome(),
            }
        } else if idx == 14 || idx == 15 || idx == 21 {
            if idx == 14 {
                self.mode = input_dialog("Git Clone URL:", String::new(), DialogAction::GitClone);
            } else if idx == 15 {
                self.mode = input_dialog("Wget URL:", String::new(), DialogAction::Wget);
            } else {
                self.mode = input_dialog("Search pattern:", String::new(), DialogAction::Search);
            }
            no_outcome()
        } else if idx == 19 {
            self.show_hidden = !self.show_hidden;
            self.mode = BrowserMode::Normal;
            KeyOutcome {
                request: Some(
                    TabRequest::SetStatus(
                        string_of(
                            if self.show_hidden {
                                "Hidden: Yes"
                            } else {
                                "Hidden: No"
                            },
                        ),
                    ),
                ),
                effects: refresh_outcome().effects,
            }
        } else if idx == 20 {
            self.mode = input_dialog("Filter:", self.filter.clone(), DialogAction::Filter);
            no_outcome()
        } else if idx == 22 {
            self.mode = BrowserMode::Normal;
            KeyOutcome {
                request: Some(TabRequest::SetStatus(string_of("Refreshed"))),
                effects: refresh_outcome().effects,
            }
        } else if idx == 23 {
            self.mode = BrowserMode::Normal;
            KeyOutcome {
                request: Some(TabRequest::SetStatus(string_of("Terminal opened"))),
                effects: effect_outcome(BrowserEffect::OpenTerminal(self.current_dir.clone())).effects,
            }
        } else if idx == 24 {
            self.mode = BrowserMode::GitMenu(1);
            no_outcome()
        } else if idx == 25 {
            let cp = crate::config::get_config_path();
            KeyOutcome { request: Some(TabRequest::OpenEditor(cp)), effects: Vec::new() }
        } else if idx == 26 {
            self.show_preview = !self.show_preview;
            self.mode = BrowserMode::Normal;
            status_outcome(
                if self.show_preview {
                    "Preview: On"
                } else {
                    "Preview: Off"
                },
            )
        } else if idx == 27 {
            let labels = vec!["Name (A-Z)", "Name (Z-A)", "Size (Smallest)", "Size (Largest)", "Date (Oldest)", "Date (Newest)"];
            proof {
                assert(labels@.map_values(|s: &str| s@) =~= seq!["Name (A-Z)"@, "Name (Z-A)"@, "Size (Smallest)"@, "Size (Largest)"@, "Date (Oldest)"@, "Date (Newest)"@]);
            }
            self.mode = selection_mode("Sort by", &labels, SelectionAction::SortMode);
            no_outcome()
        } else {
            self.mode = BrowserMode::Normal;
            no_outcome()
        }
    }
}

// ---------------------------------------------------------------------------
// Git menu and drives
// ---------------------------------------------------------------------------

/// What a key does in the git menu.
pub open spec fn git_menu_post(o: FileBrowserState, n: FileBrowserState, key: Key, out: KeyOutcome) -> bool {
    let code = key.code;
    let idx = match o.mode {
        BrowserMode::GitMenu(i) => i,
        _ => 0,
    };
    let normal = FileBrowserState { mode: BrowserMode::Normal, ..o };
    if code == KeyCode::Esc || code == KeyCode::Char('q') || code == KeyCode::Char('g') {
        n == normal && quiet(out)
    } else if code == KeyCode::Up {
        n == (FileBrowserState {
            mode: BrowserMode::GitMenu(
                if idx > 1 {
                    (idx - 1) as usize
                } else {
                    idx
                },
            ),
            ..o
        }) && quiet(out)
    } else if code == KeyCode::Down {
        n == (FileBrowserState {
            mode: BrowserMode::GitMenu(
                if idx < 8 {
                    (idx + 1) as usize
                } else {
                    idx
                },
            ),
            ..o
        }) && quiet(out)
    } else if code == KeyCode::Enter {
        if idx == 1 || idx == 2 || idx == 6 || idx == 7 {
            n == normal && out.effects@.len() == 0 && is_task(
                out.request,
                TaskType::Git(
                    if idx == 1 {
                        GitTask::Status
                    } else if idx == 2 {
                        GitTask::AddAll
                    } else if idx == 6 {
                        GitTask::Fetch
                    } else {
                        GitTask::Init
                    },
                ),
                o.current_dir@,
                Seq::empty(),
            )
        } else if idx == 3 {
            only_mode(o, n) && quiet(out) && is_input(
                n.mode,
                "Commit Message:"@,
                Seq::empty(),
                DialogAction::GitCommit,
            )
        } else if idx == 4 || idx == 5 {
            only_mode(o, n) && quiet(out) && is_form(
                n.mode,
                if idx == 4 {
                    "GIT PUSH"@
                } else {
                    "GIT PULL"@
                },
                seq![("Remote:"@, "origin"@, false), ("Branch:"@, "main"@, false)],
                if idx == 4 {
                    FormAction::GitPush
                } else {
                    FormAction::GitPull
                },
            )
        } else if idx == 8 {
            only_mode(o, n) && quiet(out) && is_form(
                n.mode,
                "ADD REMOTE"@,
                seq![("Name:"@, "origin"@, false), ("URL:"@, Seq::<char>::empty(), false)],
                FormAction::GitRemoteAdd,
            )
        } else {
            n == normal && quiet(out)
        }
    } else {
        n == o && quiet(out)
    }
}

/// What a key does in the list of drives.
pub open spec fn drives_post(o: FileBrowserState, n: FileBrowserState, key: Key, out: KeyOutcome) -> bool {
    let code = key.code;
    if code == KeyCode::Esc || code == KeyCode::Char('q') {
        n == (FileBrowserState { should_quit: true, ..o }) && quiet(out)
    } else if code == KeyCode::Up {
        n == (FileBrowserState {
            selected_index: if o.selected_index > 0 {
                (o.selected_index - 1) as usize
            } else {
                o.selected_index
            },
            ..o
        }) && quiet(out)
    } else if code == KeyCode::Down {
        n == (FileBrowserState {
            selected_index: if o.selected_index + 1 < o.drives@.len() {
                (o.selected_index + 1) as usize
            } else {
                o.selected_index
            },
            ..o
        }) && quiet(out)
    } else if code == KeyCode::Enter || code == KeyCode::Right {
        if o.selected_index < o.drives@.len() {
            n == (FileBrowserState {
                current_dir: o.drives@[o.selected_index as int].path,
                mode: BrowserMode::Normal,
                selected_index: 0,
                ..o
            }) && refresh_only(out)
        } else {
            n == o && quiet(out)
        }
    } else {
        n == o && quiet(out)
    }
}

fn field(label: &str, value: String, is_password: bool) -> (f: FormField)
    ensures
        field_view(f) == (label@, value@, is_password),
{
    FormField { label: string_of(label), value, is_password }
}

fn form2(title: &str, f0: FormField, f1: FormField, action: FormAction) -> (m: BrowserMode)
    ensures
        is_form(m, title@, seq![field_view(f0), field_view(f1)], action),
        m matches BrowserMode::Form { fields, active_idx, .. } && active_idx == 0 && fields@.len() == 2,
{
    let mut fields = Vec::new();
    fields.push(f0);
    fields.push(f1);
    proof {
        assert(field_views(fields@) =~= seq![field_view(f0), field_view(f1)]);
    }
    BrowserMode::Form { title: string_of(title), fields, active_idx: 0, action }
}

fn task_outcome(task_type: TaskType, path: String, target: String) -> (out: KeyOutcome)
    ensures
        is_task(out.request, task_type, path@, target@),
        out.effects@.len() == 0,
{
    KeyOutcome {
        request: Some(TabRequest::StartTask { task_type, path, target }),
        effects: Vec::new(),
    }
}

impl FileBrowserState {
    fn handle_git_menu_key(&mut self, key: Key) -> (out: KeyOutcome)
        requires
            old(self).mode is GitMenu,
        ensures
            browser_wf(*old(self)) ==> browser_wf(*final(self)),
            git_menu_post(*old(self), *final(self), key, out),
    {
        let idx = match self.mode {
            BrowserMode::GitMenu(i) => i,
            _ => 0,
        };
        let code = key.code;
        if code == KeyCode::Esc || code == KeyCode::Char('q') || code == KeyCode::Char('g') {
            self.mode = BrowserMode::Normal;
            no_outcome()
        } else if code == KeyCode::Up {
            self.mode = BrowserMode::GitMenu(
                if idx > 1 {
                    idx - 1
                } else {
                    idx
                },
            );
            no_outcome()
        } else if code == KeyCode::Down {
            self.mode = BrowserMode::GitMenu(
                if idx < 8 {
                    idx + 1
                } else {
                    idx
                },
            );
            no_outcome()
        } else if code == KeyCode::Enter {
            if idx == 1 || idx == 2 || idx == 6 || idx == 7 {
                let t = if idx == 1 {
                    GitTask::Status
                } else if idx == 2 {
                    GitTask::AddAll
                } else if idx == 6 {
                    GitTask::Fetch
                } else {
                    GitTask::Init
                };
                let cur = self.current_dir.clone();
                self.mode = BrowserMode::Normal;
                task_outcome(TaskType::Git(t), cur, String::new())
            } else if idx == 3 {
                self.mode = input_dialog("Commit Message:", String::new(), DialogAction::GitCommit);
                no_outcome()
            } else if idx == 4 || idx == 5 {
                let f0 = field("Remote:", string_of("origin"), false);
                let f1 = field("Branch:", string_of("main"), false);
                if idx == 4 {
                    self.mode = form2("GIT PUSH", f0, f1, FormAction::GitPush);
                } else {
                    self.mode = form2("GIT PULL", f0, f1, FormAction::GitPull);
                }
                no_outcome()
            } else if idx == 8 {
                let f0 = field("Name:", string_of("origin"), false);
                let f1 = field("URL:", String::new(), false);
                self.mode = form2("ADD REMOTE", f0, f1, FormAction::GitRemoteAdd);
                no_outcome()
            } else {
                self.mode = BrowserMode::Normal;
                no_outcome()
            }
        } else {
            no_outcome()
        }
    }

    fn handle_drives_key(&mut self, key: Key) -> (out: KeyOutcome)
        ensures
            browser_wf(*old(self)) ==> browser_wf(*final(self)),
            drives_post(*old(self), *final(self), key, out),
    {
        let code = key.code;
        if code == KeyCode::Esc || code == KeyCode::Char('q') {
            self.should_quit = true;
            no_outcome()
        } else if code == KeyCode::Up {
            if self.selected_index > 0 {
                self.selected_index = self.selected_index - 1;
            }
            no_outcome()
        } else if code == KeyCode::Down {
            if self.selected_index < self.drives.len() && self.drives.len() - self.selected_index > 1 {
                self.selected_index = self.selected_index + 1;
            }
            no_outcome()
        } else if code == KeyCode::Enter || code == KeyCode::Right {
            if self.selected_index < self.drives.len() {
                self.current_dir = self.drives[self.selected_index].path.clone();
                self.mode = BrowserMode::Normal;
                self.selected_index = 0;
                refresh_outcome()
            } else {
                no_outcome()
            }
        } else {
            no_outcome()
        }
    }
}

// ---------------------------------------------------------------------------
// Dialogs
// ---------------------------------------------------------------------------

/// The text without its last character, as `String::pop` leaves it.
pub open spec fn popped(s: Seq<char>) -> Seq<char> {
    if s.len() > 0 {
        s.drop_last()
    } else {
        s
    }
}

/// The input dialog after its text changed to `input`.
pub open spec fn input_now(o: FileBrowserState, n: FileBrowserState, input: Seq<char>) -> bool {
    only_mode(o, n) && match (o.mode, n.mode) {
        (
            BrowserMode::Dialog(DialogType::Input { title: t0, action: a0, .. }),
            BrowserMode::Dialog(DialogType::Input { title: t1, input: i1, action: a1 }),
        ) => t1 == t0 && a1 == a0 && i1@ == input,
        _ => false,
    }
}

/// The request and outside work that confirming an input dialog makes.
pub open spec fn dialog_enter_post(o: FileBrowserState, n: FileBrowserState, out: KeyOutcome) -> bool {
    match o.mode {
        BrowserMode::Dialog(DialogType::Input { input, action, .. }) => {
            let target = path_join(o.current_dir@, input@);
            let normal = FileBrowserState { mode: BrowserMode::Normal, ..o };
            let e = out.effects@;
            match action {
                DialogAction::Filter => n == (FileBrowserState {
                    mode: BrowserMode::Normal,
                    filter: input,
                    ..o
                }) && refresh_only(out),
                DialogAction::NewFile => n == normal && out.request is None && e.len() == 2
                    && e[1] == BrowserEffect::Refresh && match e[0] {
                    BrowserEffect::CreateFile(p) => p@ == target,
                    _ => false,
                },
                DialogAction::NewFolder => n == normal && out.request is None && e.len() == 2
                    && e[1] == BrowserEffect::Refresh && match e[0] {
                    BrowserEffect::CreateDir(p) => p@ == target,
                    _ => false,
                },
                DialogAction::Rename(old) => n == normal && out.request is None && e.len() == 2
                    && e[1] == BrowserEffect::Refresh && match e[0] {
                    BrowserEffect::Rename { from, to } => from == old && to@ == target,
                    _ => false,
                },
                DialogAction::Duplicate(old) => n == normal && out.request is None && e.len() == 2
                    && e[1] == BrowserEffect::Refresh && match e[0] {
                    BrowserEffect::Duplicate { from, to } => from == old && to@ == target,
                    _ => false,
                },
                DialogAction::Symlink(src) => n == normal && out.request is None && e.len() == 2
                    && e[1] == BrowserEffect::Refresh && match e[0] {
                    BrowserEffect::Symlink { src: a, dst } => a == src && dst@ == target,
                    _ => false,
                },
                DialogAction::GitClone => n == normal && e == seq![BrowserEffect::Refresh]
                    && is_task(out.request, TaskType::GitClone(input), Seq::empty(), o.current_dir@),
                DialogAction::Wget => n == normal && e == seq![BrowserEffect::Refresh] && is_task(
                    out.request,
                    TaskType::Wget(input),
                    Seq::empty(),
                    o.current_dir@,
                ),
                DialogAction::Search => n == normal && e == seq![BrowserEffect::Refresh] && is_task(
                    out.request,
                    TaskType::Search(input),
                    o.current_dir@,
                    Seq::empty(),
                ),
                DialogAction::GitCommit => n == normal && e == seq![BrowserEffect::Refresh]
                    && is_task(
                    out.request,
                    TaskType::Git(GitTask::Commit(input)),
                    o.current_dir@,
                    Seq::empty(),
                ),
                _ => n == normal && refresh_only(out),
            }
        },
        _ => false,
    }
}

/// What a key does in a dialog.
pub open spec fn dialog_post(o: FileBrowserState, n: FileBrowserState, key: Key, out: KeyOutcome) -> bool {
    let code = key.code;
    let normal = FileBrowserState { mode: BrowserMode::Normal, ..o };
    match o.mode {
        BrowserMode::Dialog(DialogType::DeleteConfirm) => if code == KeyCode::Char('y') || code
            == KeyCode::Char('Y') || code == KeyCode::Enter {
            n == normal && out.effects@.len() == 0 && is_delete_request(o, out.request)
        } else if code == KeyCode::Esc || code == KeyCode::Char('n') || code == KeyCode::Char('N') {
            n == normal && quiet(out)
        } else {
            n == o && quiet(out)
        },
        BrowserMode::Dialog(DialogType::Input { input, .. }) => if code == KeyCode::Esc {
            n == normal && quiet(out)
        } else if code == KeyCode::Enter {
            dialog_enter_post(o, n, out)
        } else if code == KeyCode::Backspace {
            input_now(o, n, popped(input@)) && quiet(out)
        } else {
            match code {
                KeyCode::Char(c) => input_now(o, n, input@.push(c)) && quiet(out),
                _ => n == o && quiet(out),
            }
        },
        _ => false,
    }
}

fn two_effects(e0: BrowserEffect) -> (out: KeyOutcome)
    ensures
        out.request is None,
        out.effects@ == seq![e0, BrowserEffect::Refresh],
{
    let mut effects = Vec::new();
    effects.push(e0);
    effects.push(BrowserEffect::Refresh);
    proof {
        assert(effects@ =~= seq![e0, BrowserEffect::Refresh]);
    }
    KeyOutcome { request: None, effects }
}

fn task_and_refresh(task_type: TaskType, path: String, target: String) -> (out: KeyOutcome)
    ensures
        is_task(out.request, task_type, path@, target@),
        out.effects@ == seq![BrowserEffect::Refresh],
{
    KeyOutcome {
        request: Some(TabRequest::StartTask { task_type, path, target }),
        effects: refresh_outcome().effects,
    }
}

impl FileBrowserState {
    fn handle_dialog_key(&mut self, key: Key) -> (out: KeyOutcome)
        requires
            old(self).mode is Dialog,
        ensures
            browser_wf(*old(self)) ==> browser_wf(*final(self)),
            dialog_post(*old(self), *final(self), key, out),
    {
        let code = key.code;
        let mut mode = BrowserMode::Normal;
        std::mem::swap(&mut self.mode, &mut mode);
        match mode {
            BrowserMode::Dialog(DialogType::DeleteConfirm) => {
                if code == KeyCode::Char('y') || code == KeyCode::Char('Y') || code == KeyCode::Enter {
                    KeyOutcome { request: self.start_delete(), effects: Vec::new() }
                } else if code == KeyCode::Esc || code == KeyCode::Char('n') || code
                    == KeyCode::Char('N') {
                    no_outcome()
                } else {
                    self.mode = BrowserMode::Dialog(DialogType::DeleteConfirm);
                    no_outcome()
                }
            },
            BrowserMode::Dialog(DialogType::Input { title, input, action }) => {
                if code == KeyCode::Esc {
                    no_outcome()
                } else if code == KeyCode::Enter {
                    let target = join(self.current_dir.as_str(), input.as_str());
                    match action {
                        DialogAction::Filter => {
                            self.filter = input;
                            refresh_outcome()
                        },
                        DialogAction::NewFile => two_effects(BrowserEffect::CreateFile(target)),
                        DialogAction::NewFolder => two_effects(BrowserEffect::CreateDir(target)),
                        DialogAction::Rename(old) => two_effects(
                            BrowserEffect::Rename { from: old, to: target },
                        ),
                        DialogAction::Duplicate(old) => two_effects(
                            BrowserEffect::Duplicate { from: old, to: target },
                        ),
                        DialogAction::Symlink(src) => two_effects(
                            BrowserEffect::Symlink { src, dst: target },
                        ),
                        DialogAction::GitClone => task_and_refresh(
                            TaskType::GitClone(input),
                            String::new(),
                            self.current_dir.clone(),
                        ),
                        DialogAction::Wget => task_and_refresh(
                            TaskType::Wget(input),
                            String::new(),
                            self.current_dir.clone(),
                        ),
                        DialogAction::Search => task_and_refresh(
                            TaskType::Search(input),
                            self.current_dir.clone(),
                            String::new(),
                        ),
                        DialogAction::GitCommit => task_and_refresh(
                            TaskType::Git(GitTask::Commit(input)),
                            self.current_dir.clone(),
                            String::new(),
                        ),
                        _ => refresh_outcome(),
                    }
                } else if code == KeyCode::Backspace {
                    let input = without_last(input.as_str());
                    self.mode = BrowserMode::Dialog(DialogType::Input { title, input, action });
                    no_outcome()
                } else {
                    match code {
                        KeyCode::Char(c) => {
                            let input = with_char(input.as_str(), c);
                            self.mode = BrowserMode::Dialog(DialogType::Input { title, input, action });
                            no_outcome()
                        },
                        _ => {
                            self.mode = BrowserMode::Dialog(DialogType::Input { title, input, action });
                            no_outcome()
                        },
                    }
                }
            },
            _ => {
                self.mode = mode;
                no_outcome()
            },
        }
    }
}

// ---------------------------------------------------------------------------
// Choice lists, forms and the permission grid
// ---------------------------------------------------------------------------

pub open spec fn archive_type_at(i: usize) -> ArchiveType {
    if i == 0 {
        ArchiveType::Zip
    } else if i == 1 {
        ArchiveType::Tar
    } else {
        ArchiveType::Gzip
    }
}

pub open spec fn archive_ext(t: ArchiveType) -> Seq<char> {
    match t {
        ArchiveType::Zip => "zip"@,
        ArchiveType::Tar => "tar"@,
        ArchiveType::Gzip => "tar.gz"@,
    }
}

pub open spec fn enc_type_at(i: usize) -> EncType {
    if i == 0 {
        EncType::Xor
    } else {
        EncType::AesPlaceholder
    }
}

pub open spec fn sort_mode_at(i: usize) -> SortMode {
    if i == 0 {
        SortMode::NameAsc
    } else if i == 1 {
        SortMode::NameDesc
    } else if i == 2 {
        SortMode::SizeAsc
    } else if i == 3 {
        SortMode::SizeDesc
    } else if i == 4 {
        SortMode::DateAsc
    } else {
        SortMode::DateDesc
    }
}

/// The choice list with the cursor moved to `sel`.
pub open spec fn selection_at(o: FileBrowserState, n: FileBrowserState, sel: usize) -> bool {
    only_mode(o, n) && match (o.mode, n.mode) {
        (
            BrowserMode::Selection { title: t0, options: o0, action: a0, .. },
            BrowserMode::Selection { title: t1, options: o1, selected, action: a1 },
        ) => t1 == t0 && o1 == o0 && a1 == a0 && selected == sel,
        _ => false,
    }
}

/// What a key does in a choice list.
pub open spec fn selection_post(o: FileBrowserState, n: FileBrowserState, key: Key, out: KeyOutcome) -> bool {
    let code = key.code;
    match o.mode {
        BrowserMode::Selection { options, selected, action, .. } => if code == KeyCode::Esc || code
            == KeyCode::Char('q') {
            n == (FileBrowserState { mode: BrowserMode::Normal, ..o }) && quiet(out)
        } else if code == KeyCode::Up {
            selection_at(
                o,
                n,
                if selected > 0 {
                    (selected - 1) as usize
                } else {
                    selected
                },
            ) && quiet(out)
        } else if code == KeyCode::Down {
            selection_at(
                o,
                n,
                if selected + 1 < options@.len() {
                    (selected + 1) as usize
                } else {
                    selected
                },
            ) && quiet(out)
        } else if code == KeyCode::Enter {
            match action {
                SelectionAction::Archive(p) => only_mode(o, n) && quiet(out) && {
                    let t = archive_type_at(selected);
                    let name = path_file_name(p@).unwrap();
                    is_form(
                        n.mode,
                        "ARCHIVE FILE"@,
                        seq![("Output name:"@, name + "."@ + archive_ext(t), false)],
                        FormAction::Archive { path: p, atype: t },
                    )
                },
                SelectionAction::Encrypt(p) => only_mode(o, n) && quiet(out) && is_form(
                    n.mode,
                    "ENCRYPT FILE"@,
                    seq![
                        ("Password/Key:"@, Seq::<char>::empty(), true),
                        ("Output name:"@, path_file_name(p@).unwrap() + ".enc"@, false),
                    ],
                    FormAction::Encrypt { path: p, etype: enc_type_at(selected) },
                ),
                SelectionAction::Decrypt(p) => only_mode(o, n) && quiet(out) && is_form(
                    n.mode,
                    "DECRYPT FILE"@,
                    seq![
                        ("Password/Key:"@, Seq::<char>::empty(), true),
                        ("Output name:"@, remove_enc(path_file_name(p@).unwrap()), false),
                    ],
                    FormAction::Decrypt { path: p, etype: enc_type_at(selected) },
                ),
                SelectionAction::Checksum(p) => n == (FileBrowserState {
                    mode: BrowserMode::Normal,
                    ..o
                }) && out.effects@.len() == 0 && is_task(
                    out.request,
                    TaskType::Checksum(options@[selected as int]),
                    p@,
                    Seq::empty(),
                ),
                SelectionAction::SortMode => n == (FileBrowserState {
                    mode: BrowserMode::Normal,
                    sort_mode: sort_mode_at(selected),
                    ..o
                }) && refresh_only(out),
            }
        } else {
            n == o && quiet(out)
        },
        _ => false,
    }
}

/// The form with the cursor on field `i` and the given fields.
pub open spec fn form_now(
    o: FileBrowserState,
    n: FileBrowserState,
    fields: Seq<(Seq<char>, Seq<char>, bool)>,
    i: usize,
) -> bool {
    only_mode(o, n) && match (o.mode, n.mode) {
        (
            BrowserMode::Form { title: t0, action: a0, .. },
            BrowserMode::Form { title: t1, fields: f1, active_idx, action: a1 },
        ) => t1 == t0 && a1 == a0 && active_idx == i && field_views(f1@) == fields,
        _ => false,
    }
}

/// The fields with the value of field `i` changed to `v`.
pub open spec fn with_value(f: Seq<FormField>, i: int, v: Seq<char>) -> Seq<(Seq<char>, Seq<char>, bool)> {
    field_views(f).update(i, (f[i].label@, v, f[i].is_password))
}

/// The request that submitting a form in directory `cur` makes.
pub open spec fn submit_post(cur: Seq<char>, f: Seq<FormField>, action: FormAction, out: KeyOutcome) -> bool {
    out.effects@.len() == 0 && match action {
        FormAction::Archive { path, atype } => is_task(
            out.request,
            TaskType::Archive(atype),
            path@,
            path_join(path_parent(path@).unwrap(), f[0].value@),
        ),
        FormAction::Encrypt { path, etype } => {
            let target = path_join(path_parent(path@).unwrap(), f[1].value@);
            match out.request {
                Some(
                    TabRequest::StartTask {
                        task_type: TaskType::Encrypt { etype: e, key: k, output },
                        path: p,
                        target: t,
                    },
                ) => e == etype && k@ == f[0].value@ && output@ == target && p@ == path@ && t@
                    == target,
                _ => false,
            }
        },
        FormAction::Decrypt { path, etype } => {
            let target = path_join(path_parent(path@).unwrap(), f[1].value@);
            match out.request {
                Some(
                    TabRequest::StartTask {
                        task_type: TaskType::Decrypt { etype: e, key: k, output },
                        path: p,
                        target: t,
                    },
                ) => e == etype && k@ == f[0].value@ && output@ == target && p@ == path@ && t@
                    == target,
                _ => false,
            }
        },
        FormAction::GitPush => is_task(
            out.request,
            TaskType::Git(GitTask::Push { remote: f[0].value, branch: f[1].value }),
            cur,
            Seq::empty(),
        ),
        FormAction::GitPull => is_task(
            out.request,
            TaskType::Git(GitTask::Pull { remote: f[0].value, branch: f[1].value }),
            cur,
            Seq::empty(),
        ),
        FormAction::GitRemoteAdd => is_task(
            out.request,
            TaskType::Git(GitTask::RemoteAdd { name: f[0].value, url: f[1].value }),
            cur,
            Seq::empty(),
        ),
    }
}

/// Submitting the form: back to the normal mode with the form's request.
pub open spec fn form_submit_post(o: FileBrowserState, n: FileBrowserState, out: KeyOutcome) -> bool {
    match o.mode {
        BrowserMode::Form { fields, action, .. } => n == (FileBrowserState {
            mode: BrowserMode::Normal,
            ..o
        }) && submit_post(o.current_dir@, fields@, action, out),
        _ => false,
    }
}

/// What a key does in a form.
pub open spec fn form_post(o: FileBrowserState, n: FileBrowserState, key: Key, out: KeyOutcome) -> bool {
    let code = key.code;
    match o.mode {
        BrowserMode::Form { fields, active_idx, .. } => {
            let f = fields@;
            let i = active_idx;
            if code == KeyCode::Esc {
                n == (FileBrowserState { mode: BrowserMode::Normal, ..o }) && quiet(out)
            } else if code == KeyCode::Up {
                form_now(
                    o,
                    n,
                    field_views(f),
                    if i > 0 {
                        (i - 1) as usize
                    } else {
                        i
                    },
                ) && quiet(out)
            } else if code == KeyCode::Down || code == KeyCode::Tab {
                form_now(
                    o,
                    n,
                    field_views(f),
                    if i + 1 < f.len() {
                        (i + 1) as usize
                    } else {
                        i
                    },
                ) && quiet(out)
            } else if code == KeyCode::Backspace {
                form_now(o, n, with_value(f, i as int, popped(f[i as int].value@)), i) && quiet(out)
            } else if code == KeyCode::Enter {
                if i + 1 < f.len() {
                    form_now(o, n, field_views(f), (i + 1) as usize) && quiet(out)
                } else {
                    form_submit_post(o, n, out)
                }
            } else {
                match code {
                    KeyCode::Char(c) => form_now(
                        o,
                        n,
                        with_value(f, i as int, f[i as int].value@.push(c)),
                        i,
                    ) && quiet(out),
                    _ => n == o && quiet(out),
                }
            }
        },
        _ => false,
    }
}

/// Permission bit of box `(r, c)`: owner, group, others by read, write, execute.
pub open spec fn perm_mask(r: int, c: int) -> u32 {
    if r == 0 {
        if c == 0 {
            0o400
        } else if c == 1 {
            0o200
        } else {
            0o100
        }
    } else if r == 1 {
        if c == 0 {
            0o040
        } else if c == 1 {
            0o020
        } else {
            0o010
        }
    } else {
        if c == 0 {
            0o004
        } else if c == 1 {
            0o002
        } else {
            0o001
        }
    }
}

/// The permission bits that the grid shows.
pub open spec fn grid_bits(g: [[bool; 3]; 3]) -> u32 {
    (if g@[0]@[0] { 0o400u32 } else { 0u32 }) | (if g@[0]@[1] { 0o200u32 } else { 0u32 }) | (if g@[0]@[2] {
        0o100u32
    } else {
        0u32
    }) | (if g@[1]@[0] { 0o040u32 } else { 0u32 }) | (if g@[1]@[1] { 0o020u32 } else { 0u32 }) | (
    if g@[1]@[2] {
        0o010u32
    } else {
        0u32
    }) | (if g@[2]@[0] { 0o004u32 } else { 0u32 }) | (if g@[2]@[1] { 0o002u32 } else { 0u32 }) | (
    if g@[2]@[2] {
        0o001u32
    } else {
        0u32
    })
}

/// The permission editor with this grid and cursor.
pub open spec fn permissions_now(o: FileBrowserState, n: FileBrowserState, g: [[bool; 3]; 3], r: usize, c: usize) -> bool {
    only_mode(o, n) && match (o.mode, n.mode) {
        (
            BrowserMode::Permissions { item: i0, .. },
            BrowserMode::Permissions { item: i1, grid, row, col },
        ) => i1 == i0 && grid@ =~~= g@ && row == r && col == c,
        _ => false,
    }
}

/// The grid with box `(r, c)` flipped.
pub open spec fn flipped(g: [[bool; 3]; 3], r: int, c: int) -> Seq<Seq<bool>> {
    g@.map_values(|row: [bool; 3]| row@).update(r, g@[r]@.update(c, !g@[r]@[c]))
}

/// What a key does in the permission editor.
pub open spec fn permissions_post(o: FileBrowserState, n: FileBrowserState, key: Key, out: KeyOutcome) -> bool {
    let code = key.code;
    match o.mode {
        BrowserMode::Permissions { item, grid, row, col } => if code == KeyCode::Esc || code
            == KeyCode::Char('q') {
            n == (FileBrowserState { mode: BrowserMode::Normal, ..o }) && quiet(out)
        } else if code == KeyCode::Up {
            permissions_now(o, n, grid, if row > 0 { (row - 1) as usize } else { row }, col) && quiet(out)
        } else if code == KeyCode::Down {
            permissions_now(o, n, grid, if row < 2 { (row + 1) as usize } else { row }, col) && quiet(out)
        } else if code == KeyCode::Left {
            permissions_now(o, n, grid, row, if col > 0 { (col - 1) as usize } else { col }) && quiet(out)
        } else if code == KeyCode::Right {
            permissions_now(o, n, grid, row, if col < 2 { (col + 1) as usize } else { col }) && quiet(out)
        } else if code == KeyCode::Char(' ') || code == KeyCode::Enter {
            only_mode(o, n) && quiet(out) && match n.mode {
                BrowserMode::Permissions { item: i1, grid: g1, row: r1, col: c1 } => i1 == item && r1
                    == row && c1 == col && g1@.map_values(|x: [bool; 3]| x@) == flipped(grid, row as int, col as int),
                _ => false,
            }
        } else if code == KeyCode::Char('s') || code == KeyCode::Char('S') {
            n == (FileBrowserState { mode: BrowserMode::Normal, ..o }) && is_status(
                out.request,
                "Permissions saved"@,
            ) && out.effects@.len() == 1 && match out.effects@[0] {
                BrowserEffect::WritePermissions { path, mode } => path == item.path && mode
                    == grid_bits(grid),
                _ => false,
            }
        } else {
            n == o && quiet(out)
        },
        _ => false,
    }
}

fn form1(title: &str, f0: FormField, action: FormAction) -> (m: BrowserMode)
    ensures
        is_form(m, title@, seq![field_view(f0)], action),
        m matches BrowserMode::Form { fields, active_idx, .. } && active_idx == 0 && fields@.len() == 1,
{
    let mut fields = Vec::new();
    fields.push(f0);
    proof {
        assert(field_views(fields@) =~= seq![field_view(f0)]);
    }
    BrowserMode::Form { title: string_of(title), fields, active_idx: 0, action }
}

fn bits_of_grid(g: &[[bool; 3]; 3]) -> (m: u32)
    ensures
        m == grid_bits(*g),
{
    (if g[0][0] { 0o400u32 } else { 0u32 }) | (if g[0][1] { 0o200u32 } else { 0u32 }) | (if g[0][2] {
        0o100u32
    } else {
        0u32
    }) | (if g[1][0] { 0o040u32 } else { 0u32 }) | (if g[1][1] { 0o020u32 } else { 0u32 }) | (
    if g[1][2] {
        0o010u32
    } else {
        0u32
    }) | (if g[2][0] { 0o004u32 } else { 0u32 }) | (if g[2][1] { 0o002u32 } else { 0u32 }) | (
    if g[2][2] {
        0o001u32
    } else {
        0u32
    })
}

impl FileBrowserState {
    fn handle_selection_key(&mut self, key: Key) -> (out: KeyOutcome)
        requires
            old(self).mode is Selection,
            browser_wf(*old(self)),
            !browser_key_panics(*old(self), key),
        ensures
            browser_wf(*old(self)) ==> browser_wf(*final(self)),
            selection_post(*old(self), *final(self), key, out),
    {
        let code = key.code;
        let mut mode = BrowserMode::Normal;
        std::mem::swap(&mut self.mode, &mut mode);
        match mode {
            BrowserMode::Selection { title, options, selected, action } => {
                if code == KeyCode::Esc || code == KeyCode::Char('q') {
                    no_outcome()
                } else if code == KeyCode::Up {
                    let s2 = if selected > 0 {
                        selected - 1
                    } else {
                        selected
                    };
                    self.mode = BrowserMode::Selection { title, options, selected: s2, action };
                    no_outcome()
                } else if code == KeyCode::Down {
                    let s2 = if selected < options.len() && options.len() - selected > 1 {
                        selected + 1
                    } else {
                        selected
                    };
                    self.mode = BrowserMode::Selection { title, options, selected: s2, action };
                    no_outcome()
                } else if code == KeyCode::Enter {
                    match action {
                        SelectionAction::Archive(path) => {
                            let atype = if selected == 0 {
                                ArchiveType::Zip
                            } else if selected == 1 {
                                ArchiveType::Tar
                            } else {
                                ArchiveType::Gzip
                            };
                            let ext = match atype {
                                ArchiveType::Zip => "zip",
                                ArchiveType::Tar => "tar",
                                ArchiveType::Gzip => "tar.gz",
                            };
                            let name = file_name(path.as_str()).unwrap();
                            let value = concat3(name.as_str(), ".", ext);
                            self.mode = form1(
                                "ARCHIVE FILE",
                                field("Output name:", value, false),
                                FormAction::Archive { path, atype },
                            );
                            no_outcome()
                        },
                        SelectionAction::Encrypt(path) => {
                            let etype = if selected == 0 {
                                EncType::Xor
                            } else {
                                EncType::AesPlaceholder
                            };
                            let name = file_name(path.as_str()).unwrap();
                            let f0 = field("Password/Key:", String::new(), true);
                            let f1 = field("Output name:", concat2(name.as_str(), ".enc"), false);
                            self.mode = form2("ENCRYPT FILE", f0, f1, FormAction::Encrypt { path, etype });
                            no_outcome()
                        },
                        SelectionAction::Decrypt(path) => {
                            let etype = if selected == 0 {
                                EncType::Xor
                            } else {
                                EncType::AesPlaceholder
                            };
                            let name = file_name(path.as_str()).unwrap();
                            let f0 = field("Password/Key:", String::new(), true);
                            let f1 = field("Output name:", remove_enc_marker(name.as_str()), false);
                            self.mode = form2("DECRYPT FILE", f0, f1, FormAction::Decrypt { path, etype });
                            no_outcome()
                        },
                        SelectionAction::Checksum(path) => {
                            let algo = options[selected].clone();
                            task_outcome(TaskType::Checksum(algo), path, String::new())
                        },
                        SelectionAction::SortMode => {
                            self.sort_mode = if selected == 0 {
                                SortMode::NameAsc
                            } else if selected == 1 {
                                SortMode::NameDesc
                            } else if selected == 2 {
                                SortMode::SizeAsc
                            } else if selected == 3 {
                                SortMode::SizeDesc
                            } else if selected == 4 {
                                SortMode::DateAsc
                            } else {
                                SortMode::DateDesc
                            };
                            refresh_outcome()
                        },
                    }
                } else {
                    self.mode = BrowserMode::Selection { title, options, selected, action };
                    no_outcome()
                }
            },
            _ => {
                self.mode = mode;
                no_outcome()
            },
        }
    }

    fn handle_form_key(&mut self, key: Key) -> (out: KeyOutcome)
        requires
            old(self).mode is Form,
            browser_wf(*old(self)),
            !browser_key_panics(*old(self), key),
        ensures
            browser_wf(*old(self)) ==> browser_wf(*final(self)),
            form_post(*old(self), *final(self), key, out),
    {
        let code = key.code;
        let mut mode = BrowserMode::Normal;
        std::mem::swap(&mut self.mode, &mut mode);
        match mode {
            BrowserMode::Form { title, mut fields, active_idx, action } => {
                let ghost f0 = fields@;
                if code == KeyCode::Esc {
                    no_outcome()
                } else if code == KeyCode::Up {
                    let i = if active_idx > 0 {
                        active_idx - 1
                    } else {
                        active_idx
                    };
                    self.mode = BrowserMode::Form { title, fields, active_idx: i, action };
                    no_outcome()
                } else if code == KeyCode::Down || code == KeyCode::Tab {
                    let i = if active_idx < fields.len() && fields.len() - active_idx > 1 {
                        active_idx + 1
                    } else {
                        active_idx
                    };
                    self.mode = BrowserMode::Form { title, fields, active_idx: i, action };
                    no_outcome()
                } else if code == KeyCode::Backspace {
                    let mut f = FormField { label: String::new(), value: String::new(), is_password: false };
                    fields.set_and_swap(active_idx, &mut f);
                    let v = without_last(f.value.as_str());
                    fields.set(active_idx, FormField { label: f.label, value: v, is_password: f.is_password });
                    proof {
                        assert(field_views(fields@) =~= with_value(f0, active_idx as int, popped(f0[active_idx as int].value@)));
                    }
                    self.mode = BrowserMode::Form { title, fields, active_idx, action };
                    no_outcome()
                } else if code == KeyCode::Enter {
                    if active_idx < fields.len() && fields.len() - active_idx > 1 {
                        self.mode = BrowserMode::Form { title, fields, active_idx: active_idx + 1, action };
                        no_outcome()
                    } else {
                        submit_form(&self.current_dir, &fields, action)
                    }
                } else {
                    match code {
                        KeyCode::Char(c) => {
                            let mut f = FormField { label: String::new(), value: String::new(), is_password: false };
                            fields.set_and_swap(active_idx, &mut f);
                            let v = with_char(f.value.as_str(), c);
                            fields.set(active_idx, FormField { label: f.label, value: v, is_password: f.is_password });
                            proof {
                                assert(field_views(fields@) =~= with_value(f0, active_idx as int, f0[active_idx as int].value@.push(c)));
                            }
                            self.mode = BrowserMode::Form { title, fields, active_idx, action };
                            no_outcome()
                        },
                        _ => {
                            self.mode = BrowserMode::Form { title, fields, active_idx, action };
                            no_outcome()
                        },
                    }
                }
            },
            _ => {
                self.mode = mode;
                no_outcome()
            },
        }
    }

}

fn submit_form(cur: &String, fields: &Vec<FormField>, action: FormAction) -> (out: KeyOutcome)
    requires
        fields@.len() >= form_arity(action),
        match action {
            FormAction::Archive { path, .. } => path_parent(path@) is Some,
            FormAction::Encrypt { path, .. } => path_parent(path@) is Some,
            FormAction::Decrypt { path, .. } => path_parent(path@) is Some,
            _ => true,
        },
    ensures
        submit_post(cur@, fields@, action, out),
{
    match action {
        FormAction::Archive { path, atype } => {
            let dir = parent(path.as_str()).unwrap();
            let target = join(dir.as_str(), fields[0].value.as_str());
            task_outcome(TaskType::Archive(atype), path, target)
        },
        FormAction::Encrypt { path, etype } => {
            let dir = parent(path.as_str()).unwrap();
            let target = join(dir.as_str(), fields[1].value.as_str());
            let output = target.clone();
            task_outcome(
                TaskType::Encrypt { etype, key: fields[0].value.clone(), output },
                path,
                target,
            )
        },
        FormAction::Decrypt { path, etype } => {
            let dir = parent(path.as_str()).unwrap();
            let target = join(dir.as_str(), fields[1].value.as_str());
            let output = target.clone();
            task_outcome(
                TaskType::Decrypt { etype, key: fields[0].value.clone(), output },
                path,
                target,
            )
        },
        FormAction::GitPush => task_outcome(
            TaskType::Git(
                GitTask::Push { remote: fields[0].value.clone(), branch: fields[1].value.clone() },
            ),
            cur.clone(),
            String::new(),
        ),
        FormAction::GitPull => task_outcome(
            TaskType::Git(
                GitTask::Pull { remote: fields[0].value.clone(), branch: fields[1].value.clone() },
            ),
            cur.clone(),
            String::new(),
        ),
        FormAction::GitRemoteAdd => task_outcome(
            TaskType::Git(
                GitTask::RemoteAdd { name: fields[0].value.clone(), url: fields[1].value.clone() },
            ),
            cur.clone(),
            String::new(),
        ),
    }
}

impl FileBrowserState {
    fn handle_permissions_key(&mut self, key: Key) -> (out: KeyOutcome)
        requires
            old(self).mode is Permissions,
            browser_wf(*old(self)),
        ensures
            browser_wf(*old(self)) ==> browser_wf(*final(self)),
            permissions_post(*old(self), *final(self), key, out),
    {
        let code = key.code;
        let mut mode = BrowserMode::Normal;
        std::mem::swap(&mut self.mode, &mut mode);
        match mode {
            BrowserMode::Permissions { item, mut grid, row, col } => {
                if code == KeyCode::Esc || code == KeyCode::Char('q') {
                    no_outcome()
                } else if code == KeyCode::Up {
                    let r = if row > 0 {
                        row - 1
                    } else {
                        row
                    };
                    self.mode = BrowserMode::Permissions { item, grid, row: r, col };
                    no_outcome()
                } else if code == KeyCode::Down {
                    let r = if row < 2 {
                        row + 1
                    } else {
                        row
                    };
                    self.mode = BrowserMode::Permissions { item, grid, row: r, col };
                    no_outcome()
                } else if code == KeyCode::Left {
                    let c = if col > 0 {
                        col - 1
                    } else {
                        col
                    };
                    self.mode = BrowserMode::Permissions { item, grid, row, col: c };
                    no_outcome()
                } else if code == KeyCode::Right {
                    let c = if col < 2 {
                        col + 1
                    } else {
                        col
                    };
                    self.mode = BrowserMode::Permissions { item, grid, row, col: c };
                    no_outcome()
                } else if code == KeyCode::Char(' ') || code == KeyCode::Enter {
                    let ghost g0 = grid;
                    let mut line = grid[row];
                    line[col] = !line[col];
                    grid[row] = line;
                    proof {
                        assert(grid@.map_values(|x: [bool; 3]| x@) =~= flipped(g0, row as int, col as int));
                    }
                    self.mode = BrowserMode::Permissions { item, grid, row, col };
                    no_outcome()
                } else if code == KeyCode::Char('s') || code == KeyCode::Char('S') {
                    let bits = bits_of_grid(&grid);
                    let mut effects = Vec::new();
                    effects.push(BrowserEffect::WritePermissions { path: item.path, mode: bits });
                    KeyOutcome {
                        request: Some(TabRequest::SetStatus(string_of("Permissions saved"))),
                        effects,
                    }
                } else {
                    self.mode = BrowserMode::Permissions { item, grid, row, col };
                    no_outcome()
                }
            },
            _ => {
                self.mode = mode;
                no_outcome()
            },
        }
    }
}

/// What a key does in the browser, by mode.
pub open spec fn browser_post(
    o: FileBrowserState,
    n: FileBrowserState,
    key: Key,
    cb0: Clipboard,
    cb1: Clipboard,
    config: Config,
    out: KeyOutcome,
) -> bool {
    match o.mode {
        BrowserMode::Normal => normal_post(o, n, key, cb0, cb1, config, out),
        BrowserMode::Menu(_) => menu_post(o, n, key, cb0, cb1, out),
        _ => cb1 == cb0 && match o.mode {
            BrowserMode::Drives => drives_post(o, n, key, out),
            BrowserMode::GitMenu(_) => git_menu_post(o, n, key, out),
            BrowserMode::Dialog(_) => dialog_post(o, n, key, out),
            BrowserMode::Permissions { .. } => permissions_post(o, n, key, out),
            BrowserMode::Selection { .. } => selection_post(o, n, key, out),
            BrowserMode::Form { .. } => form_post(o, n, key, out),
            _ => quiet(out) && if key.code != KeyCode::Null {
                n == (FileBrowserState { mode: BrowserMode::Normal, ..o })
            } else {
                n == o
            },
        },
    }
}

/// Permission box `(r, c)` is ticked in the bits `m`.
pub open spec fn bit_set(m: u32, r: int, c: int) -> bool {
    m & perm_mask(r, c) != 0
}

/// Confirming an input dialog with the text `t` acts on the path
/// `current_dir/t`: a rename moves the old entry there (from the old path to
/// the new one, never the other way), a duplicate copies the old entry there,
/// a symlink there points at the source, and new files and folders are made
/// there; the listing is read again afterwards and the dialog closes.
pub proof fn law_dialog_confirm_acts_on_typed_name(
    o: FileBrowserState,
    n: FileBrowserState,
    key: Key,
    cb0: Clipboard,
    cb1: Clipboard,
    config: Config,
    out: KeyOutcome,
)
    requires
        o.mode is Dialog,
        o.mode->Dialog_0 is Input,
        key.code == KeyCode::Enter,
        browser_post(o, n, key, cb0, cb1, config, out),
    ensures
        n.mode is Normal,
        cb1 == cb0,
        n.current_dir == o.current_dir,
        n.items == o.items,
        match o.mode {
            BrowserMode::Dialog(DialogType::Input { input, action, .. }) => match action {
                DialogAction::Rename(old) => out.request is None && out.effects@.len() == 2
                    && out.effects@[1] == BrowserEffect::Refresh && match out.effects@[0] {
                    BrowserEffect::Rename { from, to } => from == old && to@ == path_join(
                        o.current_dir@,
                        input@,
                    ),
                    _ => false,
                },
                DialogAction::Duplicate(old) => out.request is None && out.effects@.len() == 2
                    && out.effects@[1] == BrowserEffect::Refresh && match out.effects@[0] {
                    BrowserEffect::Duplicate { from, to } => from == old && to@ == path_join(
                        o.current_dir@,
                        input@,
                    ),
                    _ => false,
                },
                DialogAction::Symlink(source) => out.request is None && out.effects@.len() == 2
                    && out.effects@[1] == BrowserEffect::Refresh && match out.effects@[0] {
                    BrowserEffect::Symlink { src, dst } => src == source && dst@ == path_join(
                        o.current_dir@,
                        input@,
                    ),
                    _ => false,
                },
                DialogAction::NewFile => out.request is None && out.effects@.len() == 2
                    && out.effects@[1] == BrowserEffect::Refresh && match out.effects@[0] {
                    BrowserEffect::CreateFile(p) => p@ == path_join(o.current_dir@, input@),
                    _ => false,
                },
                DialogAction::NewFolder => out.request is None && out.effects@.len() == 2
                    && out.effects@[1] == BrowserEffect::Refresh && match out.effects@[0] {
                    BrowserEffect::CreateDir(p) => p@ == path_join(o.current_dir@, input@),
                    _ => false,
                },
                DialogAction::Filter => n.filter == input && out.request is None
                    && out.effects@ == seq![BrowserEffect::Refresh],
                _ => true,
            },
            _ => false,
        },
{
}

/// Confirming a dialog that starts a job hands the job what was typed: a
/// clone or download goes into the current directory, a search or commit
/// runs in it.
pub proof fn law_dialog_jobs_use_the_typed_text(
    o: FileBrowserState,
    n: FileBrowserState,
    key: Key,
    cb0: Clipboard,
    cb1: Clipboard,
    config: Config,
    out: KeyOutcome,
)
    requires
        o.mode is Dialog,
        o.mode->Dialog_0 is Input,
        key.code == KeyCode::Enter,
        browser_post(o, n, key, cb0, cb1, config, out),
    ensures
        match o.mode {
            BrowserMode::Dialog(DialogType::Input { input, action, .. }) => match action {
                DialogAction::GitClone => match out.request {
                    Some(TabRequest::StartTask { task_type: TaskType::GitClone(url), path, target }) =>
                        url == input && path@.len() == 0 && target@ == o.current_dir@,
                    _ => false,
                },
                DialogAction::Wget => match out.request {
                    Some(TabRequest::StartTask { task_type: TaskType::Wget(url), path, target }) =>
                        url == input && path@.len() == 0 && target@ == o.current_dir@,
                    _ => false,
                },
                DialogAction::Search => match out.request {
                    Some(TabRequest::StartTask { task_type: TaskType::Search(pattern), path, target }) =>
                        pattern == input && path@ == o.current_dir@ && target@.len() == 0,
                    _ => false,
                },
                DialogAction::GitCommit => match out.request {
                    Some(
                        TabRequest::StartTask {
                            task_type: TaskType::Git(GitTask::Commit(message)),
                            path,
                            target,
                        },
                    ) => message == input && path@ == o.current_dir@ && target@.len() == 0,
                    _ => false,
                },
                _ => true,
            },
            _ => false,
        },
{
}

/// Submitting a form hands its fields to the job in order: an archive or
/// a cipher writes next to the source under the name typed in the last
/// field, a cipher takes the key from the first field, a push or pull goes
/// to the remote and branch of the first and second field, and a remote is
/// added under the name and URL of the first and second field.
pub proof fn law_form_submit_uses_the_fields(
    o: FileBrowserState,
    n: FileBrowserState,
    key: Key,
    cb0: Clipboard,
    cb1: Clipboard,
    config: Config,
    out: KeyOutcome,
)
    requires
        browser_wf(o),
        key.code == KeyCode::Enter,
        browser_post(o, n, key, cb0, cb1, config, out),
        match o.mode {
            BrowserMode::Form { fields, active_idx, .. } => active_idx + 1 >= fields@.len(),
            _ => false,
        },
    ensures
        n.mode is Normal,
        out.effects@.len() == 0,
        match o.mode {
            BrowserMode::Form { fields, action, .. } => match action {
                FormAction::Archive { path: src, atype } => match out.request {
                    Some(TabRequest::StartTask { task_type: TaskType::Archive(t), path, target }) =>
                        t == atype && path@ == src@ && target@ == path_join(
                        path_parent(src@).unwrap(),
                        fields@[0].value@,
                    ),
                    _ => false,
                },
                FormAction::Encrypt { path: src, etype } => match out.request {
                    Some(
                        TabRequest::StartTask {
                            task_type: TaskType::Encrypt { etype: e, key: k, output },
                            path,
                            target,
                        },
                    ) => e == etype && k@ == fields@[0].value@ && path@ == src@ && target@ == path_join(
                        path_parent(src@).unwrap(),
                        fields@[1].value@,
                    ) && output@ == target@,
                    _ => false,
                },
                FormAction::Decrypt { path: src, etype } => match out.request {
                    Some(
                        TabRequest::StartTask {
                            task_type: TaskType::Decrypt { etype: e, key: k, output },
                            path,
                            target,
                        },
                    ) => e == etype && k@ == fields@[0].value@ && path@ == src@ && target@ == path_join(
                        path_parent(src@).unwrap(),
                        fields@[1].value@,
                    ) && output@ == target@,
                    _ => false,
                },
                FormAction::GitPush => match out.request {
                    Some(
                        TabRequest::StartTask {
                            task_type: TaskType::Git(GitTask::Push { remote, branch }),
                            path,
                            ..
                        },
                    ) => remote == fields@[0].value && branch == fields@[1].value && path@
                        == o.current_dir@,
                    _ => false,
                },
                FormAction::GitPull => match out.request {
                    Some(
                        TabRequest::StartTask {
                            task_type: TaskType::Git(GitTask::Pull { remote, branch }),
                            path,
                            ..
                        },
                    ) => remote == fields@[0].value && branch == fields@[1].value && path@
                        == o.current_dir@,
                    _ => false,
                },
                FormAction::GitRemoteAdd => match out.request {
                    Some(
                        TabRequest::StartTask {
                            task_type: TaskType::Git(GitTask::RemoteAdd { name, url }),
                            path,
                            ..
                        },
                    ) => name == fields@[0].value && url == fields@[1].value && path@ == o.current_dir@,
                    _ => false,
                },
            },
            _ => false,
        },
{
}

/// Choosing an archive type proposes an archive of that type named after
/// the file: ZIP gives `name.zip`, TAR `name.tar`, GZIP `name.tar.gz`.
pub proof fn law_archive_choice_follows_label(
    o: FileBrowserState,
    n: FileBrowserState,
    key: Key,
    cb0: Clipboard,
    cb1: Clipboard,
    config: Config,
    out: KeyOutcome,
)
    requires
        match o.mode {
            BrowserMode::Selection { options, selected, action, .. } => action is Archive
                && selected < options@.len() && views(options@) == seq!["ZIP"@, "TAR"@, "GZIP"@],
            _ => false,
        },
        key.code == KeyCode::Enter,
        browser_post(o, n, key, cb0, cb1, config, out),
    ensures
        quiet(out),
        match (o.mode, n.mode) {
            (
                BrowserMode::Selection { options, selected, action: SelectionAction::Archive(src), .. },
                BrowserMode::Form { fields, action: FormAction::Archive { path, atype }, .. },
            ) => {
                let name = path_file_name(src@).unwrap();
                let label = options@[selected as int]@;
                &&& path == src
                &&& fields@.len() == 1
                &&& (label == "ZIP"@ ==> atype == ArchiveType::Zip && fields@[0].value@ == name
                    + ".zip"@)
                &&& (label == "TAR"@ ==> atype == ArchiveType::Tar && fields@[0].value@ == name
                    + ".tar"@)
                &&& (label == "GZIP"@ ==> atype == ArchiveType::Gzip && fields@[0].value@ == name
                    + ".tar.gz"@)
            },
            _ => false,
        },
{
    reveal_strlit("ZIP");
    reveal_strlit("TAR");
    reveal_strlit("GZIP");
    reveal_strlit(".");
    reveal_strlit("zip");
    reveal_strlit("tar");
    reveal_strlit("tar.gz");
    reveal_strlit(".zip");
    reveal_strlit(".tar");
    reveal_strlit(".tar.gz");
    match (o.mode, n.mode) {
        (
            BrowserMode::Selection { options, selected, .. },
            BrowserMode::Form { fields, .. },
        ) => {
            assert(views(options@).len() == options@.len());
            assert(options@[selected as int]@ == views(options@)[selected as int]);
            let label = options@[selected as int]@;
            let name = path_file_name(
                match o.mode {
                    BrowserMode::Selection { action: SelectionAction::Archive(src), .. } => src@,
                    _ => Seq::empty(),
                },
            ).unwrap();
            assert(field_views(fields@).len() == fields@.len());
            assert(field_view(fields@[0]) == field_views(fields@)[0]);
            if label == "ZIP"@ {
                assert(label[0] == 'Z');
                assert(name + "."@ + "zip"@ =~= name + ".zip"@);
            }
            if label == "TAR"@ {
                assert(label[0] == 'T');
                assert(name + "."@ + "tar"@ =~= name + ".tar"@);
            }
            if label == "GZIP"@ {
                assert(label[0] == 'G');
                assert(name + "."@ + "tar.gz"@ =~= name + ".tar.gz"@);
            }
        },
        _ => {},
    }
}

/// Choosing an encryption type uses the cipher its entry names: XOR for the
/// first entry, AES for the second, both to encrypt and to decrypt.
pub proof fn law_cipher_choice_follows_label(
    o: FileBrowserState,
    n: FileBrowserState,
    key: Key,
    cb0: Clipboard,
    cb1: Clipboard,
    config: Config,
    out: KeyOutcome,
)
    requires
        match o.mode {
            BrowserMode::Selection { options, selected, action, .. } => (action is Encrypt
                && views(options@) == seq!["XOR (Fast)"@, "AES (Placeholder)"@]) || (action is Decrypt
                && views(options@) == seq!["XOR"@, "AES"@]),
            _ => false,
        } && match o.mode {
            BrowserMode::Selection { options, selected, .. } => selected < options@.len(),
            _ => false,
        },
        key.code == KeyCode::Enter,
        browser_post(o, n, key, cb0, cb1, config, out),
    ensures
        quiet(out),
        match (o.mode, n.mode) {
            (BrowserMode::Selection { options, selected, .. }, BrowserMode::Form { action, .. }) => {
                let label = options@[selected as int]@;
                let etype = match action {
                    FormAction::Encrypt { etype, .. } => etype,
                    FormAction::Decrypt { etype, .. } => etype,
                    _ => EncType::Xor,
                };
                &&& crate::text::has_prefix(label, "XOR"@) ==> etype == EncType::Xor
                &&& crate::text::has_prefix(label, "AES"@) ==> etype == EncType::AesPlaceholder
            },
            _ => false,
        },
{
    reveal_strlit("XOR (Fast)");
    reveal_strlit("AES (Placeholder)");
    reveal_strlit("XOR");
    reveal_strlit("AES");
    match o.mode {
        BrowserMode::Selection { options, selected, .. } => {
            assert(views(options@).len() == options@.len());
            assert(options@[selected as int]@ == views(options@)[selected as int]);
            let label = options@[selected as int]@;
            if crate::text::has_prefix(label, "XOR"@) {
                assert(label.take(3)[0] == label[0]);
            }
            if crate::text::has_prefix(label, "AES"@) {
                assert(label.take(3)[0] == label[0]);
            }
        },
        _ => {},
    }
}

/// In the listing, Up and Down move the selection by one entry and stop at
/// the ends, Space flips the mark of the selected entry and moves down one,
/// Enter opens the selected file in the editor or enters the selected
/// directory, and Left goes to the parent directory.
pub proof fn law_listing_navigation(
    o: FileBrowserState,
    n: FileBrowserState,
    key: Key,
    cb0: Clipboard,
    cb1: Clipboard,
    config: Config,
    out: KeyOutcome,
)
    requires
        o.mode is Normal,
        o.items@.len() <= usize::MAX,
        browser_post(o, n, key, cb0, cb1, config, out),
    ensures
        key.code == KeyCode::Up ==> n.selected_index == if o.selected_index > 0 {
            o.selected_index - 1
        } else {
            0
        } && n.items == o.items && n.current_dir == o.current_dir,
        key.code == KeyCode::Down ==> n.selected_index == if o.selected_index + 1 < o.items@.len() {
            o.selected_index + 1
        } else {
            o.selected_index as int
        } && n.items == o.items && n.current_dir == o.current_dir,
        key.code == KeyCode::Char(' ') && o.selected_index < o.items@.len() ==> n.items@.len()
            == o.items@.len() && n.items@[o.selected_index as int].selected != o.items@[o.selected_index as int].selected
            && n.items@[o.selected_index as int].path == o.items@[o.selected_index as int].path
            && (forall|k: int| 0 <= k < o.items@.len() && k != o.selected_index ==> n.items@[k] == o.items@[k])
            && n.selected_index == if o.selected_index + 1 < o.items@.len() {
            o.selected_index + 1
        } else {
            o.selected_index as int
        },
        key.code == KeyCode::Enter && o.selected_index < o.items@.len() && !o.items@[o.selected_index as int].is_dir
            ==> n.current_dir == o.current_dir && match out.request {
            Some(TabRequest::OpenEditor(p)) => p == o.items@[o.selected_index as int].path,
            _ => false,
        },
        key.code == KeyCode::Enter && o.selected_index < o.items@.len() && o.items@[o.selected_index as int].is_dir
            ==> n.current_dir == o.items@[o.selected_index as int].path && n.selected_index == 0
            && out.request is None && out.effects@ == seq![BrowserEffect::Refresh],
        key.code == KeyCode::Left ==> match path_parent(o.current_dir@) {
            Some(p) => n.current_dir@ == p && n.selected_index == 0 && out.effects@ == seq![
                BrowserEffect::Refresh,
            ],
            None => n.mode is Drives && out.effects@ == seq![BrowserEffect::LoadDrives],
        },
{
}

/// Pressing `r` on an entry and confirming the proposed name at once asks to
/// rename the entry's path to that name in the current directory.
pub proof fn law_rename_renames_the_selected_entry(
    o: FileBrowserState,
    n1: FileBrowserState,
    n2: FileBrowserState,
    r: Key,
    enter: Key,
    cb0: Clipboard,
    cb1: Clipboard,
    cb2: Clipboard,
    config: Config,
    out1: KeyOutcome,
    out2: KeyOutcome,
)
    requires
        o.mode is Normal,
        o.selected_index < o.items@.len(),
        r.code == KeyCode::Char('r'),
        enter.code == KeyCode::Enter,
        browser_post(o, n1, r, cb0, cb1, config, out1),
        browser_post(n1, n2, enter, cb1, cb2, config, out2),
    ensures
        quiet(out1),
        out2.effects@.len() == 2,
        match out2.effects@[0] {
            BrowserEffect::Rename { from, to } => from == o.items@[o.selected_index as int].path
                && to@ == path_join(o.current_dir@, o.items@[o.selected_index as int].name@),
            _ => false,
        },
{
}

/// Choosing an entry of the "Sort by" list sorts by what the entry says:
/// "Size (Smallest)" by ascending size, "Date (Newest)" by descending time,
/// and so on; the listing is read again and the list closes.
pub proof fn law_sort_choice_follows_label(
    o: FileBrowserState,
    n: FileBrowserState,
    key: Key,
    cb0: Clipboard,
    cb1: Clipboard,
    config: Config,
    out: KeyOutcome,
)
    requires
        match o.mode {
            BrowserMode::Selection { options, selected, action, .. } => action is SortMode
                && selected < options@.len() && views(options@) == seq![
                "Name (A-Z)"@,
                "Name (Z-A)"@,
                "Size (Smallest)"@,
                "Size (Largest)"@,
                "Date (Oldest)"@,
                "Date (Newest)"@,
            ],
            _ => false,
        },
        key.code == KeyCode::Enter,
        browser_post(o, n, key, cb0, cb1, config, out),
    ensures
        n.mode is Normal,
        refresh_only(out),
        match o.mode {
            BrowserMode::Selection { options, selected, .. } =>
            (options@[selected as int]@ == "Name (A-Z)"@ ==> n.sort_mode == SortMode::NameAsc) &&
            (options@[selected as int]@ == "Name (Z-A)"@ ==> n.sort_mode == SortMode::NameDesc) &&
            (options@[selected as int]@ == "Size (Smallest)"@ ==> n.sort_mode == SortMode::SizeAsc) &&
            (options@[selected as int]@ == "Size (Largest)"@ ==> n.sort_mode == SortMode::SizeDesc) &&
            (options@[selected as int]@ == "Date (Oldest)"@ ==> n.sort_mode == SortMode::DateAsc) &&
            (options@[selected as int]@ == "Date (Newest)"@ ==> n.sort_mode == SortMode::DateDesc),
            _ => false,
        },
{
    reveal_strlit("Name (A-Z)");
    reveal_strlit("Name (Z-A)");
    reveal_strlit("Size (Smallest)");
    reveal_strlit("Size (Largest)");
    reveal_strlit("Date (Oldest)");
    reveal_strlit("Date (Newest)");
    match o.mode {
        BrowserMode::Selection { options, selected, .. } => {
            assert(views(options@).len() == options@.len());
            assert(options@[selected as int]@ == views(options@)[selected as int]);
            let label = options@[selected as int]@;
            if label == "Name (A-Z)"@ {
                assert(label[0] == 'N' && label[6] == 'A');
            }
            if label == "Name (Z-A)"@ {
                assert(label[0] == 'N' && label[6] == 'Z');
            }
            if label == "Size (Smallest)"@ {
                assert(label[0] == 'S' && label[6] == 'S');
            }
            if label == "Size (Largest)"@ {
                assert(label[0] == 'S' && label[6] == 'L');
            }
            if label == "Date (Oldest)"@ {
                assert(label[0] == 'D' && label[6] == 'O');
            }
            if label == "Date (Newest)"@ {
                assert(label[0] == 'D' && label[6] == 'N');
            }
        },
        _ => {},
    }
}

/// In an input dialog, typing a character and then Backspace gives the
/// dialog back as it was, and neither key asks for anything.
pub proof fn law_dialog_type_then_backspace_restores(
    o: FileBrowserState,
    n1: FileBrowserState,
    n2: FileBrowserState,
    typed: Key,
    erase: Key,
    c: char,
    cb0: Clipboard,
    cb1: Clipboard,
    cb2: Clipboard,
    config: Config,
    out1: KeyOutcome,
    out2: KeyOutcome,
)
    requires
        o.mode is Dialog,
        o.mode->Dialog_0 is Input,
        typed.code == KeyCode::Char(c),
        erase.code == KeyCode::Backspace,
        browser_post(o, n1, typed, cb0, cb1, config, out1),
        browser_post(n1, n2, erase, cb1, cb2, config, out2),
    ensures
        quiet(out1),
        quiet(out2),
        cb2 == cb0,
        only_mode(o, n2),
        match (o.mode, n2.mode) {
            (
                BrowserMode::Dialog(DialogType::Input { title: t0, input: i0, action: a0 }),
                BrowserMode::Dialog(DialogType::Input { title: t2, input: i2, action: a2 }),
            ) => t2 == t0 && a2 == a0 && i2@ == i0@,
            _ => false,
        },
{
    match (o.mode, n1.mode) {
        (
            BrowserMode::Dialog(DialogType::Input { input: i0, .. }),
            BrowserMode::Dialog(DialogType::Input { input: i1, .. }),
        ) => {
            assert(i1@ == i0@.push(c));
            assert(i1@.drop_last() =~= i0@);
        },
        _ => {},
    }
}

/// In a form, typing a character into the active field and then Backspace
/// gives the form back as it was, and neither key asks for anything.
pub proof fn law_form_type_then_backspace_restores(
    o: FileBrowserState,
    n1: FileBrowserState,
    n2: FileBrowserState,
    typed: Key,
    erase: Key,
    c: char,
    cb0: Clipboard,
    cb1: Clipboard,
    cb2: Clipboard,
    config: Config,
    out1: KeyOutcome,
    out2: KeyOutcome,
)
    requires
        browser_wf(o),
        o.mode is Form,
        typed.code == KeyCode::Char(c),
        erase.code == KeyCode::Backspace,
        browser_post(o, n1, typed, cb0, cb1, config, out1),
        browser_post(n1, n2, erase, cb1, cb2, config, out2),
    ensures
        quiet(out1),
        quiet(out2),
        cb2 == cb0,
        only_mode(o, n2),
        match (o.mode, n2.mode) {
            (
                BrowserMode::Form { title: t0, fields: f0, active_idx: k0, action: a0 },
                BrowserMode::Form { title: t2, fields: f2, active_idx: k2, action: a2 },
            ) => t2 == t0 && a2 == a0 && k2 == k0 && field_views(f2@) == field_views(f0@),
            _ => false,
        },
{
    match (o.mode, n1.mode, n2.mode) {
        (
            BrowserMode::Form { fields: f0, active_idx: k, .. },
            BrowserMode::Form { fields: f1, .. },
            BrowserMode::Form { fields: f2, .. },
        ) => {
            let i = k as int;
            assert(field_views(f1@).len() == f1@.len());
            assert(with_value(f0@, i, f0@[i].value@.push(c)).len() == f0@.len());
            assert(f1@.len() == f0@.len());
            assert(field_views(f1@)[i] == with_value(f0@, i, f0@[i].value@.push(c))[i]);
            assert(field_view(f1@[i]) == field_views(f1@)[i]);
            assert(f1@[i].value@ == f0@[i].value@.push(c));
            assert(f1@[i].value@.drop_last() =~= f0@[i].value@);
            assert forall|j: int| 0 <= j < f0@.len() implies #[trigger] field_views(f2@)[j]
                == field_views(f0@)[j] by {
                assert(field_views(f2@)[j] == with_value(f1@, i, popped(f1@[i].value@))[j]);
                if j != i {
                    assert(field_views(f1@)[j] == with_value(f0@, i, f0@[i].value@.push(c))[j]);
                }
            }
            assert(field_views(f2@) =~= field_views(f0@));
        },
        _ => {},
    }
}

/// The permission editor writes back what it shows: a grid read from the
/// bits `m` saves as the permission bits of `m`, and a saved grid reads back
/// as the same grid.
pub proof fn law_permission_grid_roundtrip(m: u32, g: [[bool; 3]; 3])
    requires
        forall|r: int, c: int| 0 <= r < 3 && 0 <= c < 3 ==> g@[r]@[c] == bit_set(m, r, c),
    ensures
        grid_bits(g) == m & 0o777,
        forall|r: int, c: int|
            0 <= r < 3 && 0 <= c < 3 ==> #[trigger] bit_set(grid_bits(g), r, c) == g@[r]@[c],
{
    let b00 = g@[0]@[0];
    let b01 = g@[0]@[1];
    let b02 = g@[0]@[2];
    let b10 = g@[1]@[0];
    let b11 = g@[1]@[1];
    let b12 = g@[1]@[2];
    let b20 = g@[2]@[0];
    let b21 = g@[2]@[1];
    let b22 = g@[2]@[2];
    assert(b00 == bit_set(m, 0, 0));
    assert(b01 == bit_set(m, 0, 1));
    assert(b02 == bit_set(m, 0, 2));
    assert(b10 == bit_set(m, 1, 0));
    assert(b11 == bit_set(m, 1, 1));
    assert(b12 == bit_set(m, 1, 2));
    assert(b20 == bit_set(m, 2, 0));
    assert(b21 == bit_set(m, 2, 1));
    assert(b22 == bit_set(m, 2, 2));
    let v = grid_bits(g);
    assert(v == (if b00 { 0o400u32 } else { 0u32 }) | (if b01 { 0o200u32 } else { 0u32 }) | (if b02 {
        0o100u32
    } else {
        0u32
    }) | (if b10 { 0o040u32 } else { 0u32 }) | (if b11 { 0o020u32 } else { 0u32 }) | (if b12 {
        0o010u32
    } else {
        0u32
    }) | (if b20 { 0o004u32 } else { 0u32 }) | (if b21 { 0o002u32 } else { 0u32 }) | (if b22 {
        0o001u32
    } else {
        0u32
    }));
    assert(v == m & 0o777 && (v & 0o400 != 0) == b00 && (v & 0o200 != 0) == b01 && (v & 0o100 != 0)
        == b02 && (v & 0o040 != 0) == b10 && (v & 0o020 != 0) == b11 && (v & 0o010 != 0) == b12 && (v
        & 0o004 != 0) == b20 && (v & 0o002 != 0) == b21 && (v & 0o001 != 0) == b22) by (bit_vector)
        requires
            b00 == (m & 0o400 != 0),
            b01 == (m & 0o200 != 0),
            b02 == (m & 0o100 != 0),
            b10 == (m & 0o040 != 0),
            b11 == (m & 0o020 != 0),
            b12 == (m & 0o010 != 0),
            b20 == (m & 0o004 != 0),
            b21 == (m & 0o002 != 0),
            b22 == (m & 0o001 != 0),
            v == (if b00 { 0o400u32 } else { 0u32 }) | (if b01 { 0o200u32 } else { 0u32 }) | (if b02 {
                0o100u32
            } else {
                0u32
            }) | (if b10 { 0o040u32 } else { 0u32 }) | (if b11 { 0o020u32 } else { 0u32 }) | (
            if b12 {
                0o010u32
            } else {
                0u32
            }) | (if b20 { 0o004u32 } else { 0u32 }) | (if b21 { 0o002u32 } else { 0u32 }) | (
            if b22 {
                0o001u32
            } else {
                0u32
            }),
    ;
}

impl FileBrowserState {
    /// A browser on `path` with an empty listing; the front end reads the
    /// directory and passes its entries to `refresh`.
    pub fn new(path: String) -> (s: Self)
        ensures
            s.current_dir == path,
            s.items@.len() == 0,
            s.selected_index == 0,
            s.scroll_offset == 0,
            s.mode is Normal,
            !s.should_quit,
            views(s.menu_items@) == default_menu(),
            s.drives@.len() == 0,
            !s.show_hidden,
            !s.show_preview,
            s.filter@ == Seq::<char>::empty(),
            s.sort_mode == SortMode::NameAsc,
            browser_wf(s),
    {
        let labels = vec![
            "--- FILES ---",
            "Open / Execute",
            "New File",
            "New Folder",
            "Copy Path",
            "Duplicate",
            "Create Symlink",
            "Change Permissions",
            "Properties",
            "Checksum",
            "--- TOOLS ---",
            "Compress (Archive)",
            "Extract (Extract)",
            "Bulk Rename",
            "Git Clone",
            "Wget (Download)",
            "Encrypt",
            "Decrypt",
            "--- VIEW ---",
            "Hidden Files: Off/On",
            "Filter List",
            "Search Files",
            "Refresh Panel",
            "Terminal here",
            "Git Manager",
            "Settings (Config)",
            "Preview: Off/On",
            "Sort by...",
        ];
        let menu_items = strings(&labels);
        proof {
            assert(labels@.map_values(|s: &str| s@) =~= default_menu());
        }
        FileBrowserState {
            current_dir: path,
            items: Vec::new(),
            selected_index: 0,
            scroll_offset: 0,
            mode: BrowserMode::Normal,
            should_quit: false,
            menu_items,
            drives: Vec::new(),
            show_hidden: false,
            show_preview: false,
            filter: String::new(),
            sort_mode: SortMode::NameAsc,
        }
    }

    /// Replaces the listing by the entries of the current directory: hidden
    /// and filtered-out entries are left out, none is selected, the rest is
    /// sorted, and the selection index is kept inside the listing.
    pub fn refresh(&mut self, entries: Vec<FileItem>)
        ensures
            final(self).items@ == sorted_items(
                kept(entries@, old(self).show_hidden, old(self).filter@),
                old(self).sort_mode,
            ),
            final(self).selected_index == clamp_index(
                old(self).selected_index as int,
                final(self).items@.len() as int,
            ),
            *final(self) == (FileBrowserState {
                items: final(self).items,
                selected_index: final(self).selected_index,
                ..*old(self)
            }),
    {
        let items = list_entries(&entries, self.show_hidden, self.filter.as_str(), self.sort_mode);
        self.items = items;
        if self.selected_index >= self.items.len() && self.items.len() > 0 {
            self.selected_index = self.items.len() - 1;
        } else if self.items.len() == 0 {
            self.selected_index = 0;
        }
    }

    /// Sets the list of mounted drives.
    pub fn set_drives(&mut self, drives: Vec<FileItem>)
        ensures
            *final(self) == (FileBrowserState { drives, ..*old(self) }),
    {
        self.drives = drives;
    }

    /// Shows the permission bits `bits` of the file in the permission editor
    /// (nothing happens in another mode).
    pub fn apply_permission_bits(&mut self, bits: u32)
        ensures
            match old(self).mode {
                BrowserMode::Permissions { item, row, col, .. } => only_mode(*old(self), *final(self))
                    && match final(self).mode {
                    BrowserMode::Permissions { item: i1, grid, row: r1, col: c1 } => i1 == item && r1
                        == row && c1 == col && forall|r: int, c: int|
                        0 <= r < 3 && 0 <= c < 3 ==> grid@[r]@[c] == bit_set(bits, r, c),
                    _ => false,
                },
                _ => *final(self) == *old(self),
            },
            browser_wf(*old(self)) ==> browser_wf(*final(self)),
    {
        let mut mode = BrowserMode::Normal;
        std::mem::swap(&mut self.mode, &mut mode);
        match mode {
            BrowserMode::Permissions { item, row, col, .. } => {
                let grid = [
                    [bits & 0o400 != 0, bits & 0o200 != 0, bits & 0o100 != 0],
                    [bits & 0o040 != 0, bits & 0o020 != 0, bits & 0o010 != 0],
                    [bits & 0o004 != 0, bits & 0o002 != 0, bits & 0o001 != 0],
                ];
                self.mode = BrowserMode::Permissions { item, grid, row, col };
            },
            _ => {
                self.mode = mode;
            },
        }
    }

    /// Whether `handle_key` can take `key`: Enter on a choice or a form that
    /// names a file needs the file's name, or its parent directory.
    pub fn accepts_key(&self, key: &Key) -> (b: bool)
        ensures
            b == !browser_key_panics(*self, *key),
    {
        if key.code != KeyCode::Enter {
            return true;
        }
        match &self.mode {
            BrowserMode::Selection { action, .. } => match action {
                SelectionAction::Archive(p) => file_name(p.as_str()).is_some(),
                SelectionAction::Encrypt(p) => file_name(p.as_str()).is_some(),
                SelectionAction::Decrypt(p) => file_name(p.as_str()).is_some(),
                _ => true,
            },
            BrowserMode::Form { fields, active_idx, action, .. } => {
                if fields.len() > 0 && *active_idx < fields.len() - 1 {
                    true
                } else {
                    match action {
                        FormAction::Archive { path, .. } => parent(path.as_str()).is_some(),
                        FormAction::Encrypt { path, .. } => parent(path.as_str()).is_some(),
                        FormAction::Decrypt { path, .. } => parent(path.as_str()).is_some(),
                        _ => true,
                    }
                }
            },
            _ => true,
        }
    }

    /// Handles one key press in the current mode when the browser can take
    /// it (see `accepts_key`); otherwise changes nothing and returns `None`.
    pub fn try_handle_key(&mut self, key: Key, clipboard: &mut Clipboard, config: &Config) -> (out:
        Option<KeyOutcome>)
        requires
            browser_wf(*old(self)),
        ensures
            browser_wf(*final(self)),
            out is None <==> browser_key_panics(*old(self), key),
            out is None ==> *final(self) == *old(self) && *final(clipboard) == *old(clipboard),
            out matches Some(o) ==> browser_post(
                *old(self),
                *final(self),
                key,
                *old(clipboard),
                *final(clipboard),
                *config,
                o,
            ),
    {
        if self.accepts_key(&key) {
            Some(self.handle_key(key, clipboard, config))
        } else {
            None
        }
    }

    /// Handles one key press in the current mode.
    pub fn handle_key(&mut self, key: Key, clipboard: &mut Clipboard, config: &Config) -> (out:
        KeyOutcome)
        requires
            browser_wf(*old(self)),
            !browser_key_panics(*old(self), key),
        ensures
            browser_wf(*final(self)),
            browser_post(*old(self), *final(self), key, *old(clipboard), *final(clipboard), *config, out),
    {
        match self.mode {
            BrowserMode::Normal => self.handle_normal_key(key, clipboard, config),
            BrowserMode::Drives => self.handle_drives_key(key),
            BrowserMode::Menu(_) => self.handle_menu_key(key, clipboard),
            BrowserMode::GitMenu(_) => self.handle_git_menu_key(key),
            BrowserMode::Dialog(_) => self.handle_dialog_key(key),
            BrowserMode::Metadata(_) | BrowserMode::Help => {
                if key.code != KeyCode::Null {
                    self.mode = BrowserMode::Normal;
                }
                no_outcome()
            },
            BrowserMode::Permissions { .. } => self.handle_permissions_key(key),
            BrowserMode::Selection { .. } => self.handle_selection_key(key),
            BrowserMode::Form { .. } => self.handle_form_key(key),
        }
    }
}

} // verus!
