//! The file browser: the listing of a directory, its order and filters, and
//! the types of its modes, dialogs and requests.  Key handling is in
//! `browser_keys`.
use vstd::prelude::*;
use crate::paths::{extension, path_extension};
use crate::text::{
    chars_of, has_prefix, has_substring, str_eq, str_lowercase, string_of, to_lowercase,
    contains_chars,
};

verus! {

#[derive(Clone, Copy, PartialEq, Eq, Debug, Structural)]
pub enum ArchiveType {
    Zip,
    Tar,
    Gzip,
}

#[derive(Clone, Copy, PartialEq, Eq, Debug, Structural)]
pub enum EncType {
    Xor,
    AesPlaceholder,
}

/// A git operation run in the current directory.
#[derive(Debug)]
pub enum GitTask {
    Status,
    AddAll,
    Commit(String),
    Push { remote: String, branch: String },
    Pull { remote: String, branch: String },
    Fetch,
    Init,
    RemoteAdd { name: String, url: String },
}

/// A background job.
#[derive(Debug)]
pub enum TaskType {
    Copy,
    Move,
    Archive(ArchiveType),
    Unzip,
    GitClone(String),
    Wget(String),
    Encrypt { etype: EncType, key: String, output: String },
    Decrypt { etype: EncType, key: String, output: String },
    Search(String),
    Checksum(String),
    Delete(Vec<String>),
    Git(GitTask),
}

/// What a tab asks the application to do.
#[derive(Debug)]
pub enum TabRequest {
    OpenEditor(String),
    SetStatus(String),
    StartTask { task_type: TaskType, path: String, target: String },
}

/// Outside work a key of the browser calls for; the front end performs it
/// in order and hands the results back (`refresh`, `set_drives`,
/// `apply_permission_bits`).
#[derive(Debug)]
pub enum BrowserEffect {
    /// Read the current directory again and pass its entries to `refresh`.
    Refresh,
    /// Read the mounted drives and pass them to `set_drives`.
    LoadDrives,
    /// Read the permission bits of the file and pass them to `apply_permission_bits`.
    ReadPermissions(String),
    /// Set the permission bits of the file.
    WritePermissions { path: String, mode: u32 },
    /// Open the file with the desktop's default application.
    OpenExternally(String),
    /// Start a terminal in the directory.
    OpenTerminal(String),
    CreateFile(String),
    CreateDir(String),
    Rename { from: String, to: String },
    /// Copy `from` to `to`: a directory by a copy task (`App::start_task`),
    /// a file at once.
    Duplicate { from: String, to: String },
    Symlink { src: String, dst: String },
}

/// One entry of a listing.  `modified` is the modification time in
/// nanoseconds relative to the Unix epoch.
#[derive(Clone, Debug)]
pub struct FileItem {
    pub path: String,
    pub is_dir: bool,
    pub size: u64,
    pub name: String,
    pub selected: bool,
    pub modified: i128,
}

pub struct FormField {
    pub label: String,
    pub value: String,
    pub is_password: bool,
}

#[derive(Debug)]
pub enum DialogAction {
    NewFile,
    NewFolder,
    Rename(String),
    GitClone,
    Wget,
    Symlink(String),
    Filter,
    Search,
    Duplicate(String),
    GitCommit,
    GitRemoteName,
    GitRemoteUrl(String),
}

pub enum DialogType {
    DeleteConfirm,
    Input { title: String, input: String, action: DialogAction },
}

#[derive(Debug)]
pub enum SelectionAction {
    Archive(String),
    Encrypt(String),
    Decrypt(String),
    Checksum(String),
    SortMode,
}

#[derive(Debug)]
pub enum FormAction {
    Archive { path: String, atype: ArchiveType },
    Encrypt { path: String, etype: EncType },
    Decrypt { path: String, etype: EncType },
    GitPush,
    GitPull,
    GitRemoteAdd,
}

pub enum BrowserMode {
    Normal,
    Drives,
    Menu(usize),
    GitMenu(usize),
    Dialog(DialogType),
    Metadata(FileItem),
    Permissions { item: FileItem, grid: [[bool; 3]; 3], row: usize, col: usize },
    Selection { title: String, options: Vec<String>, selected: usize, action: SelectionAction },
    Form { title: String, fields: Vec<FormField>, active_idx: usize, action: FormAction },
    Help,
}

#[derive(Clone, Copy, PartialEq, Eq, Debug, Structural)]
pub enum SortMode {
    NameAsc,
    NameDesc,
    SizeAsc,
    SizeDesc,
    DateAsc,
    DateDesc,
}

/// The state of one file browser tab.
pub struct FileBrowserState {
    pub current_dir: String,
    pub items: Vec<FileItem>,
    pub selected_index: usize,
    pub scroll_offset: usize,
    pub mode: BrowserMode,
    pub should_quit: bool,
    pub menu_items: Vec<String>,
    pub drives: Vec<FileItem>,
    pub show_hidden: bool,
    pub show_preview: bool,
    pub filter: String,
    pub sort_mode: SortMode,
}

// ---------------------------------------------------------------------------
// Colours of entries
// ---------------------------------------------------------------------------

/// The colour of a file with the given lower-case extension.
pub open spec fn ext_color(ext: Seq<char>) -> (u8, u8, u8) {
    if ext == "rs"@ || ext == "py"@ || ext == "js"@ || ext == "ts"@ || ext == "c"@ || ext
        == "cpp"@ || ext == "h"@ || ext == "go"@ || ext == "php"@ || ext == "rb"@ {
        (255, 165, 0)
    } else if ext == "md"@ || ext == "txt"@ || ext == "log"@ || ext == "conf"@ || ext == "toml"@
        || ext == "yaml"@ || ext == "yml"@ || ext == "json"@ {
        (144, 238, 144)
    } else if ext == "zip"@ || ext == "tar"@ || ext == "gz"@ || ext == "7z"@ || ext == "rar"@
        || ext == "bz2"@ || ext == "xz"@ {
        (255, 100, 100)
    } else if ext == "jpg"@ || ext == "jpeg"@ || ext == "png"@ || ext == "gif"@ || ext == "svg"@
        || ext == "bmp"@ || ext == "webp"@ {
        (238, 130, 238)
    } else if ext == "mp3"@ || ext == "wav"@ || ext == "flac"@ || ext == "ogg"@ || ext == "m4a"@ {
        (255, 215, 0)
    } else if ext == "mp4"@ || ext == "mkv"@ || ext == "avi"@ || ext == "mov"@ || ext == "webm"@ {
        (255, 215, 0)
    } else if ext == "exe"@ || ext == "sh"@ || ext == "bat"@ || ext == "msi"@ || ext
        == "appimage"@ || ext == "bin"@ {
        (0, 255, 127)
    } else {
        (200, 200, 200)
    }
}

/// The extension of a path, empty when it has none.
pub open spec fn ext_or_empty(p: Seq<char>) -> Seq<char> {
    match path_extension(p) {
        Some(e) => e,
        None => Seq::empty(),
    }
}

/// The display colour of an entry: blue for a directory, otherwise the colour
/// of its lower-cased extension.
pub open spec fn item_color(item: FileItem) -> (u8, u8, u8) {
    if item.is_dir {
        (0u8, 150u8, 255u8)
    } else {
        ext_color(str_lowercase(ext_or_empty(item.path@)))
    }
}

/// A directory is always blue; a file's colour depends on nothing but the
/// lower-case form of its extension, so files whose extensions lower-case
/// alike (whatever their names, sizes, marks or times) get the same colour.
pub proof fn law_color_follows_lowercase_extension(a: FileItem, b: FileItem)
    ensures
        a.is_dir ==> item_color(a) == (0u8, 150u8, 255u8),
        !a.is_dir && !b.is_dir && str_lowercase(ext_or_empty(a.path@)) == str_lowercase(
            ext_or_empty(b.path@),
        ) ==> item_color(a) == item_color(b),
{
}

fn is_one_of(s: &str, names: &Vec<&str>) -> (b: bool)
    ensures
        b == exists|i: int| 0 <= i < names.len() && s@ == (#[trigger] names[i])@,
{
    let mut i: usize = 0;
    while i < names.len()
        invariant
            0 <= i <= names.len(),
            forall|j: int| 0 <= j < i ==> s@ != (#[trigger] names[j])@,
        decreases names.len() - i,
    {
        if str_eq(s, names[i]) {
            return true;
        }
        i = i + 1;
    }
    false
}

impl FileItem {
    /// Display colour of the entry: directories blue, files by extension.
    pub fn get_color(&self) -> (c: (u8, u8, u8))
        ensures
            c == item_color(*self),
    {
        if self.is_dir {
            return (0, 150, 255);
        }
        let ext = match extension(self.path.as_str()) {
            Some(e) => e,
            None => String::new(),
        };
        let lower = to_lowercase(ext.as_str());
        let e = lower.as_str();
        if is_one_of(e, &vec!["rs", "py", "js", "ts", "c", "cpp", "h", "go", "php", "rb"]) {
            (255, 165, 0)
        } else if is_one_of(e, &vec!["md", "txt", "log", "conf", "toml", "yaml", "yml", "json"]) {
            (144, 238, 144)
        } else if is_one_of(e, &vec!["zip", "tar", "gz", "7z", "rar", "bz2", "xz"]) {
            (255, 100, 100)
        } else if is_one_of(e, &vec!["jpg", "jpeg", "png", "gif", "svg", "bmp", "webp"]) {
            (238, 130, 238)
        } else if is_one_of(e, &vec!["mp3", "wav", "flac", "ogg", "m4a"]) {
            (255, 215, 0)
        } else if is_one_of(e, &vec!["mp4", "mkv", "avi", "mov", "webm"]) {
            (255, 215, 0)
        } else if is_one_of(e, &vec!["exe", "sh", "bat", "msi", "appimage", "bin"]) {
            (0, 255, 127)
        } else {
            (200, 200, 200)
        }
    }
}

// ---------------------------------------------------------------------------
// Listing: filtering and order
// ---------------------------------------------------------------------------

/// An entry is listed: hidden names only when hidden files are shown, and
/// only names that contain the filter (ignoring case) when a filter is set.
pub open spec fn keep_entry(name: Seq<char>, show_hidden: bool, filter: Seq<char>) -> bool {
    &&& !(!show_hidden && has_prefix(name, "."@) && name != "."@ && name != ".."@)
    &&& !(filter.len() > 0 && !has_substring(str_lowercase(name), str_lowercase(filter)))
}

/// The entry, not selected.
pub open spec fn unselected(e: FileItem) -> FileItem {
    FileItem { selected: false, ..e }
}

/// The listed entries, in the order given, none selected.
pub open spec fn kept(entries: Seq<FileItem>, show_hidden: bool, filter: Seq<char>) -> Seq<FileItem>
    decreases entries.len(),
{
    if entries.len() == 0 {
        Seq::empty()
    } else {
        let rest = kept(entries.drop_last(), show_hidden, filter);
        if keep_entry(entries.last().name@, show_hidden, filter) {
            rest.push(unselected(entries.last()))
        } else {
            rest
        }
    }
}

/// Lexicographic order of character sequences by code point (the order of `String`).
pub open spec fn seq_lt(a: Seq<char>, b: Seq<char>) -> bool
    decreases a.len(),
{
    if a.len() == 0 {
        b.len() > 0
    } else if b.len() == 0 {
        false
    } else if a[0] != b[0] {
        (a[0] as u32) < (b[0] as u32)
    } else {
        seq_lt(a.drop_first(), b.drop_first())
    }
}

/// `a` is listed before `b`: directories first, then by the sort mode
/// (names compared in lower case).
pub open spec fn item_before(a: FileItem, b: FileItem, mode: SortMode) -> bool {
    if a.is_dir && !b.is_dir {
        true
    } else if !a.is_dir && b.is_dir {
        false
    } else {
        match mode {
            SortMode::NameAsc => seq_lt(str_lowercase(a.name@), str_lowercase(b.name@)),
            SortMode::NameDesc => seq_lt(str_lowercase(b.name@), str_lowercase(a.name@)),
            SortMode::SizeAsc => a.size < b.size,
            SortMode::SizeDesc => b.size < a.size,
            SortMode::DateAsc => a.modified < b.modified,
            SortMode::DateDesc => b.modified < a.modified,
        }
    }
}

/// Where a stable insertion puts `e`: in front of the first entry that `e` comes before.
pub open spec fn insert_pos(sorted: Seq<FileItem>, e: FileItem, mode: SortMode) -> int
    decreases sorted.len(),
{
    if sorted.len() == 0 {
        0
    } else if item_before(e, sorted[0], mode) {
        0
    } else {
        1 + insert_pos(sorted.drop_first(), e, mode)
    }
}

/// The entries in listing order; entries that compare equal keep their order
/// (a stable sort).
pub open spec fn sorted_items(s: Seq<FileItem>, mode: SortMode) -> Seq<FileItem>
    decreases s.len(),
{
    if s.len() == 0 {
        Seq::empty()
    } else {
        let r = sorted_items(s.drop_last(), mode);
        r.insert(insert_pos(r, s.last(), mode), s.last())
    }
}

/// The selection index kept inside a listing of `len` entries.
pub open spec fn clamp_index(i: int, len: int) -> int {
    if i >= len && len > 0 {
        len - 1
    } else if len == 0 {
        0
    } else {
        i
    }
}

proof fn lemma_insert_pos_bounds(sorted: Seq<FileItem>, e: FileItem, mode: SortMode)
    ensures
        0 <= insert_pos(sorted, e, mode) <= sorted.len(),
    decreases sorted.len(),
{
    if sorted.len() > 0 && !item_before(e, sorted[0], mode) {
        lemma_insert_pos_bounds(sorted.drop_first(), e, mode);
    }
}

proof fn lemma_insert_pos_is(sorted: Seq<FileItem>, e: FileItem, mode: SortMode, j: int)
    requires
        0 <= j <= sorted.len(),
        forall|t: int| 0 <= t < j ==> !item_before(e, #[trigger] sorted[t], mode),
        j < sorted.len() ==> item_before(e, sorted[j], mode),
    ensures
        insert_pos(sorted, e, mode) == j,
    decreases sorted.len(),
{
    if sorted.len() > 0 && j > 0 {
        assert(!item_before(e, sorted[0], mode));
        assert forall|t: int| 0 <= t < j - 1 implies !item_before(
            e,
            #[trigger] sorted.drop_first()[t],
            mode,
        ) by {
            assert(sorted.drop_first()[t] == sorted[t + 1]);
        }
        lemma_insert_pos_is(sorted.drop_first(), e, mode, j - 1);
    }
}

pub proof fn lemma_sorted_items_len(s: Seq<FileItem>, mode: SortMode)
    ensures
        sorted_items(s, mode).len() == s.len(),
    decreases s.len(),
{
    if s.len() > 0 {
        lemma_sorted_items_len(s.drop_last(), mode);
        lemma_insert_pos_bounds(sorted_items(s.drop_last(), mode), s.last(), mode);
    }
}

proof fn lemma_seq_lt_irreflexive(a: Seq<char>)
    ensures
        !seq_lt(a, a),
    decreases a.len(),
{
    if a.len() > 0 {
        lemma_seq_lt_irreflexive(a.drop_first());
    }
}

proof fn lemma_seq_lt_transitive(a: Seq<char>, b: Seq<char>, c: Seq<char>)
    requires
        seq_lt(a, b),
        seq_lt(b, c),
    ensures
        seq_lt(a, c),
    decreases a.len(),
{
    if a.len() > 0 && b.len() > 0 && c.len() > 0 && a[0] == b[0] && b[0] == c[0] {
        lemma_seq_lt_transitive(a.drop_first(), b.drop_first(), c.drop_first());
    }
}

proof fn lemma_item_before_irreflexive(a: FileItem, mode: SortMode)
    ensures
        !item_before(a, a, mode),
{
    lemma_seq_lt_irreflexive(str_lowercase(a.name@));
}

proof fn lemma_item_before_transitive(a: FileItem, b: FileItem, c: FileItem, mode: SortMode)
    requires
        item_before(a, b, mode),
        item_before(b, c, mode),
    ensures
        item_before(a, c, mode),
{
    if a.is_dir == b.is_dir && b.is_dir == c.is_dir {
        let (ka, kb, kc) = (str_lowercase(a.name@), str_lowercase(b.name@), str_lowercase(c.name@));
        match mode {
            SortMode::NameAsc => lemma_seq_lt_transitive(ka, kb, kc),
            SortMode::NameDesc => lemma_seq_lt_transitive(kc, kb, ka),
            _ => {},
        }
    }
}

proof fn lemma_insert_pos_props(sorted: Seq<FileItem>, e: FileItem, mode: SortMode)
    ensures
        forall|t: int|
            0 <= t < insert_pos(sorted, e, mode) ==> !item_before(e, #[trigger] sorted[t], mode),
        insert_pos(sorted, e, mode) < sorted.len() ==> item_before(
            e,
            sorted[insert_pos(sorted, e, mode)],
            mode,
        ),
    decreases sorted.len(),
{
    if sorted.len() > 0 && !item_before(e, sorted[0], mode) {
        let rest = sorted.drop_first();
        lemma_insert_pos_props(rest, e, mode);
        lemma_insert_pos_bounds(rest, e, mode);
        let q = insert_pos(rest, e, mode);
        if q < rest.len() {
            assert(sorted[q + 1] == rest[q]);
        }
        assert forall|t: int| 0 <= t < insert_pos(sorted, e, mode) implies !item_before(
            e,
            #[trigger] sorted[t],
            mode,
        ) by {
            if t > 0 {
                assert(sorted[t] == rest[t - 1]);
            }
        }
    }
}

/// No entry of a listing belongs before an entry shown ahead of it:
/// directories come first, then the entries in the order of the sort mode.
pub proof fn law_listing_is_sorted(s: Seq<FileItem>, mode: SortMode)
    ensures
        forall|i: int, j: int|
            0 <= i < j < sorted_items(s, mode).len() ==> !item_before(
                #[trigger] sorted_items(s, mode)[j],
                #[trigger] sorted_items(s, mode)[i],
                mode,
            ),
    decreases s.len(),
{
    if s.len() > 0 {
        let r = sorted_items(s.drop_last(), mode);
        let e = s.last();
        let p = insert_pos(r, e, mode);
        law_listing_is_sorted(s.drop_last(), mode);
        lemma_insert_pos_bounds(r, e, mode);
        lemma_insert_pos_props(r, e, mode);
        let out = r.insert(p, e);
        assert(sorted_items(s, mode) == out);
        assert forall|i: int, j: int| 0 <= i < j < out.len() implies !item_before(
            #[trigger] out[j],
            #[trigger] out[i],
            mode,
        ) by {
            if j < p {
                assert(out[i] == r[i] && out[j] == r[j]);
            } else if j == p {
                assert(out[i] == r[i]);
            } else if i == p {
                assert(out[j] == r[j - 1]);
                if item_before(r[j - 1], e, mode) {
                    lemma_item_before_transitive(r[j - 1], e, r[p], mode);
                    if j - 1 == p {
                        lemma_item_before_irreflexive(r[p], mode);
                    }
                }
            } else if i < p {
                assert(out[i] == r[i] && out[j] == r[j - 1]);
            } else {
                assert(out[i] == r[i - 1] && out[j] == r[j - 1]);
            }
        }
    }
}

/// In a listing, directories come before files, and among entries of the
/// same kind the sort mode orders them: sizes or times never decrease
/// (ascending) or never increase (descending) down the list, and lower-case
/// names follow code point order (reversed for descending).
pub proof fn law_listing_order_by_mode(s: Seq<FileItem>, mode: SortMode)
    ensures
        forall|i: int, j: int|
            0 <= i < j < sorted_items(s, mode).len() ==> {
                let a = #[trigger] sorted_items(s, mode)[i];
                let b = #[trigger] sorted_items(s, mode)[j];
                &&& (a.is_dir || !b.is_dir)
                &&& a.is_dir == b.is_dir ==> match mode {
                    SortMode::SizeAsc => a.size <= b.size,
                    SortMode::SizeDesc => a.size >= b.size,
                    SortMode::DateAsc => a.modified <= b.modified,
                    SortMode::DateDesc => a.modified >= b.modified,
                    SortMode::NameAsc => !seq_lt(str_lowercase(b.name@), str_lowercase(a.name@)),
                    SortMode::NameDesc => !seq_lt(str_lowercase(a.name@), str_lowercase(b.name@)),
                }
            },
{
    law_listing_is_sorted(s, mode);
}

/// A listing holds exactly the entries it was made from, each as often.
pub proof fn law_listing_is_permutation(s: Seq<FileItem>, mode: SortMode)
    ensures
        sorted_items(s, mode).to_multiset() == s.to_multiset(),
    decreases s.len(),
{
    broadcast use vstd::seq_lib::group_to_multiset_ensures;

    if s.len() == 0 {
        assert(sorted_items(s, mode) =~= s);
    } else {
        let r = sorted_items(s.drop_last(), mode);
        let e = s.last();
        let p = insert_pos(r, e, mode);
        law_listing_is_permutation(s.drop_last(), mode);
        lemma_insert_pos_bounds(r, e, mode);
        let out = r.insert(p, e);
        assert(out.remove(p) =~= r);
        assert(out.remove(p).to_multiset() == out.to_multiset().remove(e));
        assert(out.to_multiset().count(e) > 0) by {
            assert(out[p] == e);
            assert(out.contains(e));
        }
        assert(out.to_multiset() =~= r.to_multiset().insert(e));
        assert(s.drop_last().push(e) =~= s);
        assert(s.to_multiset() =~= s.drop_last().to_multiset().insert(e));
    }
}

/// Whether `a` comes before `b` in lexicographic code point order.
fn chars_lt(a: &Vec<char>, b: &Vec<char>) -> (r: bool)
    ensures
        r == seq_lt(a@, b@),
{
    let mut i: usize = 0;
    proof {
        assert(a@.skip(0) =~= a@);
        assert(b@.skip(0) =~= b@);
    }
    while i < a.len() && i < b.len() && a[i] == b[i]
        invariant
            0 <= i <= a.len(),
            i <= b.len(),
            seq_lt(a@, b@) == seq_lt(a@.skip(i as int), b@.skip(i as int)),
        decreases a.len() - i,
    {
        proof {
            let sa = a@.skip(i as int);
            let sb = b@.skip(i as int);
            assert(sa.drop_first() =~= a@.skip(i + 1));
            assert(sb.drop_first() =~= b@.skip(i + 1));
        }
        i = i + 1;
    }
    proof {
        let sa = a@.skip(i as int);
        let sb = b@.skip(i as int);
        if i < a.len() && i < b.len() {
            assert(sa[0] == a@[i as int]);
            assert(sb[0] == b@[i as int]);
        }
    }
    if i == a.len() {
        i < b.len()
    } else if i == b.len() {
        false
    } else {
        (a[i] as u32) < (b[i] as u32)
    }
}

/// Whether `a` (with lower-case name `ka`) is listed before `b` (with `kb`).
fn before(a: &FileItem, ka: &Vec<char>, b: &FileItem, kb: &Vec<char>, mode: SortMode) -> (r: bool)
    requires
        ka@ == str_lowercase(a.name@),
        kb@ == str_lowercase(b.name@),
    ensures
        r == item_before(*a, *b, mode),
{
    if a.is_dir && !b.is_dir {
        true
    } else if !a.is_dir && b.is_dir {
        false
    } else {
        match mode {
            SortMode::NameAsc => chars_lt(ka, kb),
            SortMode::NameDesc => chars_lt(kb, ka),
            SortMode::SizeAsc => a.size < b.size,
            SortMode::SizeDesc => b.size < a.size,
            SortMode::DateAsc => a.modified < b.modified,
            SortMode::DateDesc => b.modified < a.modified,
        }
    }
}

impl FileItem {
    /// A copy of the entry.
    pub fn duplicate(&self) -> (r: FileItem)
        ensures
            r == *self,
    {
        FileItem {
            path: self.path.clone(),
            is_dir: self.is_dir,
            size: self.size,
            name: self.name.clone(),
            selected: self.selected,
            modified: self.modified,
        }
    }
}

/// The listed entries of `entries`, in listing order.
pub fn list_entries(entries: &Vec<FileItem>, show_hidden: bool, filter: &str, mode: SortMode) -> (r:
    Vec<FileItem>)
    ensures
        r@ == sorted_items(kept(entries@, show_hidden, filter@), mode),
{
    let lower_filter = chars_of(to_lowercase(filter).as_str());
    let filter_empty = filter.is_empty();
    let mut out: Vec<FileItem> = Vec::new();
    let mut keys: Vec<Vec<char>> = Vec::new();
    let mut i: usize = 0;
    while i < entries.len()
        invariant
            0 <= i <= entries.len(),
            lower_filter@ == str_lowercase(filter@),
            filter_empty == (filter@.len() == 0),
            out@ == sorted_items(kept(entries@.take(i as int), show_hidden, filter@), mode),
            keys.len() == out.len(),
            forall|t: int| 0 <= t < out.len() ==> (#[trigger] keys@[t])@ == str_lowercase(
                out@[t].name@,
            ),
        decreases entries.len() - i,
    {
        let e = &entries[i];
        let ghost pre = entries@.take(i as int);
        proof {
            assert(entries@.take(i + 1).drop_last() =~= pre);
            assert(entries@.take(i + 1).last() == entries@[i as int]);
        }
        let name = e.name.as_str();
        let hidden = crate::text::str_starts_with(name, ".") && !str_eq(name, ".") && !str_eq(
            name,
            "..",
        );
        let key = chars_of(to_lowercase(name).as_str());
        let passes = filter_empty || contains_chars(&key, &lower_filter);
        let ghost kept_pre = kept(pre, show_hidden, filter@);
        proof {
            assert(keep_entry(e.name@, show_hidden, filter@) == (!(!show_hidden && hidden) && passes));
        }
        if !(!show_hidden && hidden) && passes {
            let mut item = e.duplicate();
            item.selected = false;
            let mut j: usize = 0;
            while j < out.len() && !before(&item, &key, &out[j], &keys[j], mode)
                invariant
                    0 <= j <= out.len(),
                    keys.len() == out.len(),
                    key@ == str_lowercase(item.name@),
                    forall|t: int| 0 <= t < out.len() ==> (#[trigger] keys@[t])@ == str_lowercase(
                        out@[t].name@,
                    ),
                    forall|t: int| 0 <= t < j ==> !item_before(item, #[trigger] out@[t], mode),
                decreases out.len() - j,
            {
                j = j + 1;
            }
            proof {
                lemma_insert_pos_is(out@, item, mode, j as int);
                assert(item == unselected(entries@[i as int]));
            }
            let ghost keys_before = keys@;
            let ghost out_before = out@;
            proof {
                let s2 = kept_pre.push(item);
                assert(kept(entries@.take(i + 1), show_hidden, filter@) == s2);
                assert(s2.drop_last() =~= kept_pre);
                assert(s2.last() == item);
            }
            out.insert(j, item);
            keys.insert(j, key);
            proof {
                assert forall|t: int| 0 <= t < out.len() implies (#[trigger] keys@[t])@
                    == str_lowercase(out@[t].name@) by {
                    if t < j {
                    } else if t == j {
                    } else {
                        assert(keys@[t] == keys_before[t - 1]);
                        assert(out@[t] == out_before[t - 1]);
                    }
                }
            }
        }
        i = i + 1;
    }
    proof {
        assert(entries@.take(entries.len() as int) =~= entries@);
    }
    out
}

} // verus!
