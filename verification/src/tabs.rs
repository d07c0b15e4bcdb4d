//! Tabs: each one a file browser or an editor.
use vstd::prelude::*;
use crate::browser_keys::browser_wf;
use crate::editor::EditorState;
use crate::file_browser::FileBrowserState;
use crate::paths::{file_name, path_file_name};
use crate::text::{concat2, string_of};

verus! {

pub enum TabState {
    FileBrowser(FileBrowserState),
    Editor(EditorState),
}

pub struct Tab {
    pub state: TabState,
}

/// The tab's state is well formed.
pub open spec fn tab_wf(t: Tab) -> bool {
    match t.state {
        TabState::FileBrowser(b) => browser_wf(b),
        TabState::Editor(e) => e.wf(),
    }
}

/// The name shown for a path: its file name, or `fallback` when it has none.
pub open spec fn name_or(p: Option<Seq<char>>, fallback: Seq<char>) -> Seq<char> {
    match p {
        Some(n) => n,
        None => fallback,
    }
}

/// The title of a tab: a folder sign and the directory's name for a browser,
/// a note sign and the file's name for an editor.
pub open spec fn tab_title(t: Tab) -> Seq<char> {
    match t.state {
        TabState::FileBrowser(b) => "📁 "@ + name_or(path_file_name(b.current_dir@), "/"@),
        TabState::Editor(e) => "📝 "@ + match e.file_path {
            Some(p) => name_or(path_file_name(p@), "New File"@),
            None => "New File"@,
        },
    }
}

impl Tab {
    /// A browser tab on `path` (its listing is read afterwards, see `FileBrowserState::new`).
    pub fn new_browser(path: String) -> (t: Self)
        ensures
            t.state matches TabState::FileBrowser(b) && b.current_dir == path && b.items@.len() == 0
                && b.mode is Normal && b.selected_index == 0,
            tab_wf(t),
    {
        Tab { state: TabState::FileBrowser(FileBrowserState::new(path)) }
    }

    /// An editor tab for `path` (its text is loaded afterwards, see `EditorState::load_text`).
    pub fn new_editor(path: Option<String>) -> (t: Self)
        ensures
            t.state matches TabState::Editor(e) && e.file_path == path && e@.lines == seq![
                Seq::<char>::empty(),
            ] && e.cursor_x == 0 && e.cursor_y == 0,
            tab_wf(t),
    {
        Tab { state: TabState::Editor(EditorState::new(path)) }
    }

    /// The title shown on the tab bar.
    pub fn get_title(&self) -> (s: String)
        ensures
            s@ == tab_title(*self),
    {
        match &self.state {
            TabState::FileBrowser(fb) => {
                let name = match file_name(fb.current_dir.as_str()) {
                    Some(n) => n,
                    None => string_of("/"),
                };
                concat2("📁 ", name.as_str())
            },
            TabState::Editor(ed) => {
                let name = match &ed.file_path {
                    Some(p) => match file_name(p.as_str()) {
                        Some(n) => n,
                        None => string_of("New File"),
                    },
                    None => string_of("New File"),
                };
                concat2("📝 ", name.as_str())
            },
        }
    }
}

} // verus!
