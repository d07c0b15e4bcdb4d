//! The application: its tabs, the active one, the status line, the running
//! background job and the error popup, and how keys and job reports change
//! them.  Outside work is returned as `Effect`s for the front end.
use vstd::prelude::*;
use crate::browser_keys::{browser_post, browser_wf, browser_key_panics, KeyOutcome};
use crate::config::Config;
use crate::editor::{editor_key_panics, editor_step, is_save_key, joined, lines_fit, SaveRequest};
use crate::file_browser::{ArchiveType, BrowserEffect, GitTask, TabRequest, TaskType};
use crate::keys::{Key, KeyCode};
use crate::paths::{path_starts_with, starts_with};
use crate::tabs::{Tab, TabState, tab_wf};
use crate::text::{has_prefix, str_starts_with, string_of};
use crate::utils::Clipboard;

verus! {

/// The background job that is running: its name and the item it works on.
pub struct TaskStatus {
    pub name: String,
    pub current_item: String,
}

/// Outside work for the front end.
pub enum Effect {
    /// Work for the browser in tab `tab` (see `BrowserEffect`).
    Browser { tab: usize, effect: BrowserEffect },
    /// Read the file of the editor in tab `tab` and pass its text to `EditorState::load_text`.
    LoadFile { tab: usize },
    /// Write the text to the file.
    Save(SaveRequest),
    /// Run the job on a worker; it reports progress and its end message.
    SpawnTask { task_type: TaskType, path: String, target: String, name: String },
}

pub struct App {
    pub config: Config,
    pub tabs: Vec<Tab>,
    pub active_tab: usize,
    pub should_quit: bool,
    pub clipboard: Clipboard,
    pub status_message: String,
    /// Counts the status messages set, so that the front end can time them out.
    pub status_serial: u64,
    pub active_task: Option<TaskStatus>,
    pub error_popup: Option<String>,
    pub anim_frame: usize,
}

// ---------------------------------------------------------------------------
// Specification
// ---------------------------------------------------------------------------

/// The application is well formed: at least one tab, the active one exists,
/// and every tab is well formed.
pub open spec fn app_wf(a: App) -> bool {
    &&& a.tabs@.len() >= 1
    &&& a.active_tab < a.tabs@.len()
    &&& forall|i: int| 0 <= i < a.tabs@.len() ==> tab_wf(#[trigger] a.tabs@[i])
}

pub open spec fn next_serial(s: u64) -> u64 {
    if s == u64::MAX {
        0
    } else {
        (s + 1) as u64
    }
}

/// The status line shows `msg`.
pub open spec fn status_set(o: App, n: App, msg: Seq<char>) -> bool {
    n == (App { status_message: n.status_message, status_serial: next_serial(o.status_serial), ..o })
        && n.status_message@ == msg
}

/// The name a job is shown under.
pub open spec fn task_name(t: TaskType) -> Seq<char> {
    match t {
        TaskType::Copy => "Copying"@,
        TaskType::Move => "Moving"@,
        TaskType::Archive(ArchiveType::Zip) => "Compressing (Zip)"@,
        TaskType::Archive(ArchiveType::Tar) => "Compressing (Tar)"@,
        TaskType::Archive(ArchiveType::Gzip) => "Compressing (Gzip)"@,
        TaskType::Unzip => "Extracting"@,
        TaskType::Wget(_) => "Downloading"@,
        TaskType::Encrypt { .. } => "Encrypting"@,
        TaskType::Decrypt { .. } => "Decrypting"@,
        TaskType::Search(_) => "Searching"@,
        TaskType::Checksum(_) => "Calculating hashes"@,
        TaskType::Delete(_) => "Deleting"@,
        TaskType::Git(g) => match g {
            GitTask::Status => "Git Status"@,
            GitTask::AddAll => "Git Add All"@,
            GitTask::Commit(_) => "Git Commit"@,
            GitTask::Push { .. } => "Git Push"@,
            GitTask::Pull { .. } => "Git Pull"@,
            GitTask::Fetch => "Git Fetch"@,
            GitTask::Init => "Git Init"@,
            GitTask::RemoteAdd { .. } => "Git Remote Add"@,
        },
        _ => "Task"@,
    }
}

/// A copy or move into the source itself is refused.
pub open spec fn copies_into_itself(t: TaskType, path: Seq<char>, target: Seq<char>) -> bool {
    (t is Copy || t is Move) && path_starts_with(target, path) && path.len() > 0
}

/// Starting a job: refused with an error status when it copies into itself,
/// otherwise shown as running and handed to a worker.
pub open spec fn start_task_post(
    o: App,
    n: App,
    t: TaskType,
    path: String,
    target: String,
    eff: Option<Effect>,
) -> bool {
    if copies_into_itself(t, path@, target@) {
        status_set(o, n, "Error: Target is inside source"@) && eff is None
    } else {
        n == (App { active_task: n.active_task, ..o }) && match n.active_task {
            Some(ts) => ts.name@ == task_name(t) && ts.current_item@ == if path@.len() == 0 {
                "..."@
            } else {
                path@
            },
            None => false,
        } && match eff {
            Some(Effect::SpawnTask { task_type, path: p, target: q, name }) => task_type == t && p
                == path && q == target && name@ == task_name(t),
            _ => false,
        }
    }
}

/// Closing the active tab; closing the last one quits.
pub open spec fn close_tab_post(o: App, n: App) -> bool {
    if o.tabs@.len() > 1 {
        let tabs = o.tabs@.remove(o.active_tab as int);
        n == (App {
            tabs: n.tabs,
            active_tab: if o.active_tab >= tabs.len() {
                (tabs.len() - 1) as usize
            } else {
                o.active_tab
            },
            ..o
        }) && n.tabs@ == tabs
    } else {
        n == (App { should_quit: true, ..o })
    }
}

/// The application after Tab: the next tab is active, from the last back to the first.
pub open spec fn next_tab_state(o: App) -> App {
    App { active_tab: ((o.active_tab + 1) % (o.tabs@.len() as int)) as usize, ..o }
}

/// Switching to the next tab, from the last back to the first.
pub open spec fn next_tab_post(o: App, n: App) -> bool {
    if o.tabs@.len() > 0 {
        n == next_tab_state(o)
    } else {
        n == o
    }
}

/// The application after Tab was pressed `k` times.
pub open spec fn tab_presses(o: App, k: nat) -> App
    decreases k,
{
    if k == 0 {
        o
    } else {
        next_tab_state(tab_presses(o, (k - 1) as nat))
    }
}

proof fn lemma_tab_presses(o: App, k: nat)
    requires
        1 <= o.tabs@.len() <= usize::MAX,
        o.active_tab < o.tabs@.len(),
    ensures
        tab_presses(o, k) == (App {
            active_tab: ((o.active_tab + k) % (o.tabs@.len() as int)) as usize,
            ..o
        }),
    decreases k,
{
    let n = o.tabs@.len() as int;
    let a = o.active_tab as int;
    if k == 0 {
        vstd::arithmetic::div_mod::lemma_small_mod(o.active_tab as nat, n as nat);
    } else {
        lemma_tab_presses(o, (k - 1) as nat);
        let x = a + k - 1;
        vstd::arithmetic::div_mod::lemma_mod_bound(x, n);
        vstd::arithmetic::div_mod::lemma_mod_bound(x + 1, n);
        vstd::arithmetic::div_mod::lemma_add_mod_noop(x, 1, n);
        if n > 1 {
            vstd::arithmetic::div_mod::lemma_small_mod(1, n as nat);
        } else {
            vstd::arithmetic::div_mod::lemma_mod_bound(x % n + 1, 1);
            vstd::arithmetic::div_mod::lemma_mod_bound(x + 1, 1);
        }
    }
}

/// Pressing Tab `k` times moves `k` tabs on, wrapping around, and changes
/// nothing else; pressing it once per tab comes back to the tab it started from.
pub proof fn law_tab_cycles(o: App, k: nat)
    requires
        1 <= o.tabs@.len() <= usize::MAX,
        o.active_tab < o.tabs@.len(),
    ensures
        tab_presses(o, k) == (App {
            active_tab: ((o.active_tab + k) % (o.tabs@.len() as int)) as usize,
            ..o
        }),
        tab_presses(o, o.tabs@.len()) == o,
{
    let n = o.tabs@.len() as int;
    lemma_tab_presses(o, k);
    lemma_tab_presses(o, o.tabs@.len());
    vstd::arithmetic::div_mod::lemma_mod_add_multiples_vanish(o.active_tab as int, n);
    vstd::arithmetic::div_mod::lemma_small_mod(o.active_tab as nat, n as nat);
}

/// A tab is added at the end and becomes the active one.
pub open spec fn tab_pushed(o: App, n: App) -> bool {
    &&& n == (App { tabs: n.tabs, active_tab: o.tabs@.len() as usize, ..o })
    &&& n.tabs@.len() == o.tabs@.len() + 1
    &&& n.tabs@.take(o.tabs@.len() as int) == o.tabs@
}

/// The new tab is a browser on `path` with an empty listing.
pub open spec fn is_new_browser(t: Tab, path: Seq<char>) -> bool {
    match t.state {
        TabState::FileBrowser(b) => b.current_dir@ == path && b.items@.len() == 0 && b.mode is Normal
            && b.selected_index == 0,
        _ => false,
    }
}

/// The new tab is an editor for `path` holding one empty line.
pub open spec fn is_new_editor(t: Tab, path: String) -> bool {
    match t.state {
        TabState::Editor(e) => e.file_path == Some(path) && e@.lines == seq![Seq::<char>::empty()]
            && e.cursor_x == 0 && e.cursor_y == 0,
        _ => false,
    }
}

/// What a request of a tab does.
pub open spec fn request_post(o: App, n: App, req: TabRequest, effects: Seq<Effect>) -> bool {
    match req {
        TabRequest::OpenEditor(p) => tab_pushed(o, n) && is_new_editor(n.tabs@.last(), p)
            && effects == seq![Effect::LoadFile { tab: o.tabs@.len() as usize }],
        TabRequest::SetStatus(m) => status_set(o, n, m@) && effects.len() == 0,
        TabRequest::StartTask { task_type, path, target } => {
            &&& effects.len() <= 1
            &&& start_task_post(
                o,
                n,
                task_type,
                path,
                target,
                if effects.len() == 1 {
                    Some(effects[0])
                } else {
                    None
                },
            )
        },
    }
}

/// The browser's outside work, tagged with its tab.
pub open spec fn tagged(tab: usize, effects: Seq<BrowserEffect>) -> Seq<Effect> {
    effects.map_values(|e: BrowserEffect| Effect::Browser { tab, effect: e })
}

/// A key dismisses the error popup.
pub open spec fn dismisses_popup(key: Key) -> bool {
    key.code == KeyCode::Esc || key.code == KeyCode::Enter || key.code == KeyCode::Char('q')
        || key.code == KeyCode::Char(' ')
}

/// What the active browser tab's key outcome does to the application.
pub open spec fn after_browser_post(mid: App, n: App, quit: bool, out: KeyOutcome, effects: Seq<Effect>) -> bool {
    let tab_effects = tagged(mid.active_tab, out.effects@);
    effects.len() >= tab_effects.len() && effects.take(tab_effects.len() as int) == tab_effects
        && match out.request {
        Some(req) => request_post(mid, n, req, effects.skip(tab_effects.len() as int)),
        None => effects.len() == tab_effects.len() && if quit {
            n == (App { should_quit: true, ..mid })
        } else {
            n == mid
        },
    }
}

/// What a key does to the application.
pub open spec fn app_key_post(o: App, n: App, key: Key, cwd: Seq<char>, effects: Seq<Effect>) -> bool {
    let a = o.active_tab as int;
    if o.error_popup is Some {
        effects.len() == 0 && n == (App {
            error_popup: if dismisses_popup(key) {
                None
            } else {
                o.error_popup
            },
            ..o
        })
    } else if key.code == KeyCode::Char('w') && key.ctrl {
        effects.len() == 0 && close_tab_post(o, n)
    } else if key.code == KeyCode::Char('t') && key.ctrl {
        let dir = match o.tabs@[a].state {
            TabState::FileBrowser(b) => b.current_dir@,
            _ => cwd,
        };
        tab_pushed(o, n) && is_new_browser(n.tabs@.last(), dir) && effects == seq![
            Effect::Browser { tab: o.tabs@.len() as usize, effect: BrowserEffect::Refresh },
        ]
    } else if key.code == KeyCode::Tab {
        effects.len() == 0 && next_tab_post(o, n)
    } else {
        match o.tabs@[a].state {
            TabState::FileBrowser(b0) => exists|
                mid: App,
                b1: crate::file_browser::FileBrowserState,
                out: KeyOutcome,
            |
                #![trigger browser_post(b0, b1, key, o.clipboard, mid.clipboard, o.config, out), after_browser_post(mid, n, b1.should_quit, out, effects)]
                browser_post(b0, b1, key, o.clipboard, mid.clipboard, o.config, out) && browser_wf(b1)
                    && mid == (App { tabs: mid.tabs, clipboard: mid.clipboard, ..o }) && mid.tabs@
                    == o.tabs@.update(a, Tab { state: TabState::FileBrowser(b1) })
                    && after_browser_post(mid, n, b1.should_quit, out, effects),
            TabState::Editor(e0) => exists|mid: App, e1: crate::editor::EditorState|
                #![trigger editor_after_post(o, mid, n, e0, e1, key, effects)]
                editor_after_post(o, mid, n, e0, e1, key, effects),
        }
    }
}

/// The editor tab changed from `e0` to `e1` by the key, and what that does to the application.
pub open spec fn editor_after_post(
    o: App,
    mid: App,
    n: App,
    e0: crate::editor::EditorState,
    e1: crate::editor::EditorState,
    key: Key,
    effects: Seq<Effect>,
) -> bool {
    let a = o.active_tab as int;
    let saves = is_save_key(e0@, key) && e0.file_path is Some;
    &&& e1@ == editor_step(e0@, key)
    &&& e1.file_path == e0.file_path
    &&& e1.scroll_x == e0.scroll_x
    &&& e1.scroll_y == e0.scroll_y
    &&& e1.wf()
    &&& mid == (App { tabs: mid.tabs, ..o })
    &&& mid.tabs@ == o.tabs@.update(a, Tab { state: TabState::Editor(e1) })
    &&& if saves {
        effects.len() == 1 && match effects[0] {
            Effect::Save(s) => e0.file_path == Some(s.path) && s.text@ == joined(e0@.lines),
            _ => false,
        }
    } else {
        effects.len() == 0
    }
    &&& if e1.should_quit {
        close_tab_post(mid, n)
    } else {
        n == mid
    }
}

/// The key goes to the active tab: no error popup takes it, and it is none of
/// the keys for the tabs themselves.
pub open spec fn reaches_tab(o: App, key: Key) -> bool {
    &&& o.error_popup is None
    &&& !(key.code == KeyCode::Char('w') && key.ctrl)
    &&& !(key.code == KeyCode::Char('t') && key.ctrl)
    &&& key.code != KeyCode::Tab
}

/// The active tab can take the key.
pub open spec fn tab_key_ok(o: App, key: Key) -> bool {
    match o.tabs@[o.active_tab as int].state {
        TabState::FileBrowser(b) => !browser_key_panics(b, key),
        TabState::Editor(e) => !editor_key_panics(e@, key) && lines_fit(e@.lines),
    }
}

/// A key can be handled: when it reaches the active tab, the tab can take it.
pub open spec fn app_key_ok(o: App, key: Key) -> bool {
    reaches_tab(o, key) ==> tab_key_ok(o, key)
}

/// The name of a job, as a new string.
fn task_name_of(t: &TaskType) -> (s: String)
    ensures
        s@ == task_name(*t),
{
    let name = match t {
        TaskType::Copy => "Copying",
        TaskType::Move => "Moving",
        TaskType::Archive(ArchiveType::Zip) => "Compressing (Zip)",
        TaskType::Archive(ArchiveType::Tar) => "Compressing (Tar)",
        TaskType::Archive(ArchiveType::Gzip) => "Compressing (Gzip)",
        TaskType::Unzip => "Extracting",
        TaskType::Wget(_) => "Downloading",
        TaskType::Encrypt { .. } => "Encrypting",
        TaskType::Decrypt { .. } => "Decrypting",
        TaskType::Search(_) => "Searching",
        TaskType::Checksum(_) => "Calculating hashes",
        TaskType::Delete(_) => "Deleting",
        TaskType::Git(g) => match g {
            GitTask::Status => "Git Status",
            GitTask::AddAll => "Git Add All",
            GitTask::Commit(_) => "Git Commit",
            GitTask::Push { .. } => "Git Push",
            GitTask::Pull { .. } => "Git Pull",
            GitTask::Fetch => "Git Fetch",
            GitTask::Init => "Git Init",
            GitTask::RemoteAdd { .. } => "Git Remote Add",
        },
        _ => "Task",
    };
    string_of(name)
}

impl App {
    /// The application with one browser tab on `start_path` (whose listing
    /// the front end reads next), a welcome message and nothing running.
    pub fn new(config: Config, start_path: String) -> (a: Self)
        ensures
            app_wf(a),
            a.config == config,
            a.tabs@.len() == 1,
            is_new_browser(a.tabs@[0], start_path@),
            a.active_tab == 0,
            !a.should_quit,
            a.clipboard.source_path is None,
            a.status_message@ == "Welcome to NeoFM (H for help)"@,
            a.status_serial == 0,
            a.active_task is None,
            a.error_popup is None,
            a.anim_frame == 0,
    {
        let mut tabs = Vec::new();
        tabs.push(Tab::new_browser(start_path));
        App {
            config,
            tabs,
            active_tab: 0,
            should_quit: false,
            clipboard: Clipboard::new(),
            status_message: string_of("Welcome to NeoFM (H for help)"),
            status_serial: 0,
            active_task: None,
            error_popup: None,
            anim_frame: 0,
        }
    }

    /// Shows a status message.
    pub fn set_status(&mut self, msg: String)
        ensures
            status_set(*old(self), *final(self), msg@),
            final(self).status_message == msg,
    {
        self.status_message = msg;
        self.status_serial = if self.status_serial == u64::MAX {
            0
        } else {
            self.status_serial + 1
        };
    }

    /// Clears the status message (the front end calls this once it has been shown long enough).
    pub fn expire_status(&mut self)
        ensures
            *final(self) == (App { status_message: final(self).status_message, ..*old(self) }),
            final(self).status_message@ == Seq::<char>::empty(),
    {
        self.status_message = String::new();
    }

    /// Advances the animation frame.
    pub fn tick(&mut self)
        ensures
            *final(self) == (App {
                anim_frame: if old(self).anim_frame == usize::MAX {
                    0
                } else {
                    (old(self).anim_frame + 1) as usize
                },
                ..*old(self)
            }),
    {
        self.anim_frame = if self.anim_frame == usize::MAX {
            0
        } else {
            self.anim_frame + 1
        };
    }

    /// The running job reports the item it works on.
    pub fn task_progress(&mut self, item: String)
        ensures
            match old(self).active_task {
                Some(t) => *final(self) == (App {
                    active_task: Some(TaskStatus { current_item: item, ..t }),
                    ..*old(self)
                }),
                None => *final(self) == *old(self),
            },
    {
        match &self.active_task {
            Some(t) => {
                let name = t.name.clone();
                self.active_task = Some(TaskStatus { name, current_item: item });
            },
            None => {},
        }
    }

    /// The running job ended with `msg`: an error (a message starting with
    /// `Error:`) opens the error popup, anything else goes to the status
    /// line; a browser in the active tab reads its directory again.
    pub fn task_finished(&mut self, msg: String) -> (eff: Option<Effect>)
        requires
            old(self).active_tab < old(self).tabs@.len(),
        ensures
            if has_prefix(msg@, "Error:"@) {
                *final(self) == (App { active_task: None, error_popup: Some(msg), ..*old(self) })
            } else {
                status_set(
                    App { active_task: None, ..*old(self) },
                    *final(self),
                    msg@,
                )
            },
            match old(self).tabs@[old(self).active_tab as int].state {
                TabState::FileBrowser(_) => eff == Some(
                    Effect::Browser { tab: old(self).active_tab, effect: BrowserEffect::Refresh },
                ),
                _ => eff is None,
            },
    {
        self.active_task = None;
        if str_starts_with(msg.as_str(), "Error:") {
            self.error_popup = Some(msg);
        } else {
            self.set_status(msg);
        }
        match &self.tabs[self.active_tab].state {
            TabState::FileBrowser(_) => Some(
                Effect::Browser { tab: self.active_tab, effect: BrowserEffect::Refresh },
            ),
            _ => None,
        }
    }

    /// Switches to the next tab.
    pub fn next_tab(&mut self)
        requires
            old(self).active_tab < old(self).tabs@.len(),
        ensures
            next_tab_post(*old(self), *final(self)),
    {
        if self.tabs.len() > 0 {
            self.active_tab = (self.active_tab + 1) % self.tabs.len();
        }
    }

    /// Closes the active tab; closing the last tab quits.
    pub fn close_tab(&mut self)
        requires
            old(self).active_tab < old(self).tabs@.len(),
        ensures
            close_tab_post(*old(self), *final(self)),
    {
        if self.tabs.len() > 1 {
            self.tabs.remove(self.active_tab);
            if self.active_tab >= self.tabs.len() {
                self.active_tab = self.tabs.len() - 1;
            }
        } else {
            self.should_quit = true;
        }
    }
}

impl App {
    /// Opens a browser tab on `path` and makes it active.
    pub fn open_browser_tab(&mut self, path: String) -> (eff: Effect)
        requires
            app_wf(*old(self)),
        ensures
            app_wf(*final(self)),
            tab_pushed(*old(self), *final(self)),
            is_new_browser(final(self).tabs@.last(), path@),
            eff == (Effect::Browser { tab: old(self).tabs@.len() as usize, effect: BrowserEffect::Refresh }),
    {
        let ghost old_tabs = self.tabs@;
        self.tabs.push(Tab::new_browser(path));
        self.active_tab = self.tabs.len() - 1;
        proof {
            assert(self.tabs@.take(old_tabs.len() as int) =~= old_tabs);
        }
        Effect::Browser { tab: self.tabs.len() - 1, effect: BrowserEffect::Refresh }
    }

    /// Opens an editor tab for `path` and makes it active.
    pub fn open_editor_tab(&mut self, path: String) -> (eff: Effect)
        requires
            app_wf(*old(self)),
        ensures
            app_wf(*final(self)),
            tab_pushed(*old(self), *final(self)),
            is_new_editor(final(self).tabs@.last(), path),
            eff == (Effect::LoadFile { tab: old(self).tabs@.len() as usize }),
    {
        let ghost old_tabs = self.tabs@;
        self.tabs.push(Tab::new_editor(Some(path)));
        self.active_tab = self.tabs.len() - 1;
        proof {
            assert(self.tabs@.take(old_tabs.len() as int) =~= old_tabs);
        }
        Effect::LoadFile { tab: self.tabs.len() - 1 }
    }

    /// Starts a background job, unless it would copy or move a directory into itself.
    pub fn start_task(&mut self, task_type: TaskType, path: String, target: String) -> (eff: Option<
        Effect,
    >)
        ensures
            start_task_post(*old(self), *final(self), task_type, path, target, eff),
    {
        let name = task_name_of(&task_type);
        let is_copy = match task_type {
            TaskType::Copy | TaskType::Move => true,
            _ => false,
        };
        if is_copy {
            if starts_with(target.as_str(), path.as_str()) && !path.as_str().is_empty() {
                self.set_status(string_of("Error: Target is inside source"));
                return None;
            }
        }
        let current_item = if path.as_str().is_empty() {
            string_of("...")
        } else {
            path.clone()
        };
        self.active_task = Some(TaskStatus { name: name.clone(), current_item });
        Some(Effect::SpawnTask { task_type, path, target, name })
    }

    /// Carries out a request of a tab.
    fn apply_request(&mut self, req: TabRequest) -> (effects: Vec<Effect>)
        requires
            app_wf(*old(self)),
        ensures
            app_wf(*final(self)),
            request_post(*old(self), *final(self), req, effects@),
    {
        match req {
            TabRequest::OpenEditor(path) => {
                let e = self.open_editor_tab(path);
                let mut v = Vec::new();
                v.push(e);
                proof {
                    assert(v@ =~= seq![e]);
                }
                v
            },
            TabRequest::SetStatus(msg) => {
                self.set_status(msg);
                Vec::new()
            },
            TabRequest::StartTask { task_type, path, target } => {
                let mut v = Vec::new();
                match self.start_task(task_type, path, target) {
                    Some(e) => {
                        v.push(e);
                    },
                    None => {},
                }
                v
            },
        }
    }

    /// Whether `handle_key` can take `key`: a key that reaches the active tab
    /// must be one the tab accepts (see `FileBrowserState::accepts_key` and
    /// `EditorState::accepts_key`).
    pub fn accepts_key(&self, key: &Key) -> (b: bool)
        requires
            app_wf(*self),
        ensures
            b == app_key_ok(*self, *key),
    {
        proof {
            assert(tab_wf(self.tabs@[self.active_tab as int]));
        }
        if self.error_popup.is_some() || (key.code == KeyCode::Char('w') && key.ctrl) || (key.code
            == KeyCode::Char('t') && key.ctrl) || key.code == KeyCode::Tab {
            return true;
        }
        match &self.tabs[self.active_tab].state {
            TabState::FileBrowser(fb) => fb.accepts_key(key),
            TabState::Editor(ed) => ed.accepts_key(key),
        }
    }

    /// Handles one key press when it can be handled (see `accepts_key`);
    /// otherwise changes nothing and returns `None`.
    pub fn try_handle_key(&mut self, key: Key, cwd: String) -> (effects: Option<Vec<Effect>>)
        requires
            app_wf(*old(self)),
        ensures
            app_wf(*final(self)),
            effects is None <==> !app_key_ok(*old(self), key),
            effects is None ==> *final(self) == *old(self),
            effects matches Some(e) ==> app_key_post(*old(self), *final(self), key, cwd@, e@),
    {
        if self.accepts_key(&key) {
            Some(self.handle_key(key, cwd))
        } else {
            None
        }
    }

    /// Handles one key press: the error popup takes it first, then the
    /// global keys (Ctrl+W, Ctrl+T, Tab), then the active tab.  `cwd` is the
    /// working directory, where Ctrl+T opens a browser when the active tab is an editor.
    pub fn handle_key(&mut self, key: Key, cwd: String) -> (effects: Vec<Effect>)
        requires
            app_wf(*old(self)),
            app_key_ok(*old(self), key),
        ensures
            app_wf(*final(self)),
            app_key_post(*old(self), *final(self), key, cwd@, effects@),
    {
        if self.error_popup.is_some() {
            if key.code == KeyCode::Esc || key.code == KeyCode::Enter || key.code == KeyCode::Char('q')
                || key.code == KeyCode::Char(' ') {
                self.error_popup = None;
            }
            return Vec::new();
        }
        if key.code == KeyCode::Char('w') && key.ctrl {
            self.close_tab();
            proof {
                assert forall|i: int| 0 <= i < self.tabs@.len() implies tab_wf(#[trigger] self.tabs@[i]) by {
                    if old(self).tabs@.len() > 1 {
                        assert(self.tabs@[i] == old(self).tabs@.remove(old(self).active_tab as int)[i]);
                    }
                }
            }
            return Vec::new();
        }
        if key.code == KeyCode::Char('t') && key.ctrl {
            let path = match &self.tabs[self.active_tab].state {
                TabState::FileBrowser(fb) => fb.current_dir.clone(),
                _ => cwd,
            };
            let e = self.open_browser_tab(path);
            let mut v = Vec::new();
            v.push(e);
            proof {
                assert(v@ =~= seq![e]);
            }
            return v;
        }
        if key.code == KeyCode::Tab {
            self.next_tab();
            return Vec::new();
        }
        let a = self.active_tab;
        let ghost o = *self;
        let tab = self.tabs.remove(a);
        proof {
            assert(tab == o.tabs@[a as int]);
            assert(tab_wf(tab));
        }
        match tab.state {
            TabState::FileBrowser(mut fb) => {
                let ghost b0 = fb;
                let ghost cb0 = self.clipboard;
                let out = fb.handle_key(key, &mut self.clipboard, &self.config);
                let ghost out0 = out;
                let quit = fb.should_quit;
                let ghost b1 = fb;
                self.tabs.insert(a, Tab { state: TabState::FileBrowser(fb) });
                let ghost mid = *self;
                proof {
                    assert(mid.tabs@ =~= o.tabs@.update(a as int, Tab { state: TabState::FileBrowser(b1) }));
                    assert forall|i: int| 0 <= i < mid.tabs@.len() implies tab_wf(#[trigger] mid.tabs@[i]) by {
                        if i != a {
                            assert(mid.tabs@[i] == o.tabs@[i]);
                        }
                    }
                }
                let KeyOutcome { request, effects: browser_effects } = out;
                let mut effects: Vec<Effect> = Vec::new();
                let mut be = browser_effects;
                let n = be.len();
                let mut i: usize = 0;
                let ghost src = be@;
                while i < n
                    invariant
                        n == src.len(),
                        0 <= i <= n,
                        be@ == src.skip(i as int),
                        effects@ == tagged(a, src.take(i as int)),
                    decreases n - i,
                {
                    let e = be.remove(0);
                    effects.push(Effect::Browser { tab: a, effect: e });
                    proof {
                        assert(be@ =~= src.skip(i + 1));
                        assert(src.take(i + 1) =~= src.take(i as int).push(e));
                        assert(effects@ =~= tagged(a, src.take(i + 1)));
                    }
                    i = i + 1;
                }
                proof {
                    assert(src.take(n as int) =~= src);
                }
                let ghost tag_count = effects@.len();
                match request {
                    Some(req) => {
                        let mut more = self.apply_request(req);
                        let ghost more0 = more@;
                        effects.append(&mut more);
                        proof {
                            assert(effects@.take(tag_count as int) =~= tagged(a, src));
                            assert(effects@.skip(tag_count as int) =~= more0);
                        }
                    },
                    None => {
                        if quit {
                            self.should_quit = true;
                        }
                        proof {
                            assert(effects@.take(tag_count as int) =~= tagged(a, src));
                        }
                    },
                }
                proof {
                    assert(browser_post(b0, b1, key, o.clipboard, mid.clipboard, o.config, out0));
                    assert(after_browser_post(mid, *self, b1.should_quit, out0, effects@));
                }
                effects
            },
            TabState::Editor(mut ed) => {
                let ghost e0 = ed;
                let save = ed.handle_key(key, &mut self.clipboard, &self.config);
                let quit = ed.should_quit;
                let ghost e1 = ed;
                self.tabs.insert(a, Tab { state: TabState::Editor(ed) });
                let ghost mid = *self;
                proof {
                    assert(mid.tabs@ =~= o.tabs@.update(a as int, Tab { state: TabState::Editor(e1) }));
                    assert forall|i: int| 0 <= i < mid.tabs@.len() implies tab_wf(#[trigger] mid.tabs@[i]) by {
                        if i != a {
                            assert(mid.tabs@[i] == o.tabs@[i]);
                        }
                    }
                }
                let mut effects: Vec<Effect> = Vec::new();
                match save {
                    Some(s) => {
                        effects.push(Effect::Save(s));
                    },
                    None => {},
                }
                if quit {
                    self.close_tab();
                    proof {
                        assert forall|i: int| 0 <= i < self.tabs@.len() implies tab_wf(#[trigger] self.tabs@[i]) by {
                            if mid.tabs@.len() > 1 {
                                assert(self.tabs@[i] == mid.tabs@.remove(mid.active_tab as int)[i]);
                            }
                        }
                    }
                }
                proof {
                    assert(editor_after_post(o, mid, *self, e0, e1, key, effects@));
                }
                effects
            },
        }
    }
}

} // verus!
