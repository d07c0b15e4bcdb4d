//! The built-in text editor: a document of lines, a cursor whose column is a
//! UTF-8 byte offset into the current line, and the key handling that edits
//! the document.
use vstd::prelude::*;
use crate::config::Config;
use crate::keys::{Key, KeyCode};
use crate::text::{
    byte_len, byte_length, byte_length_at_most, char_width, char_width_of, index_at_byte,
    index_of_boundary, is_boundary, push_char, string_of_chars,
};
use crate::utils::Clipboard;

verus! {

// ---------------------------------------------------------------------------
// Abstract view of the editor
// ---------------------------------------------------------------------------

/// The editor as the contracts see it.
pub struct EditorView {
    pub lines: Seq<Seq<char>>,
    pub cursor_x: int,
    pub cursor_y: int,
    pub should_quit: bool,
}

/// Byte length of line `y`.
pub open spec fn line_len(m: EditorView, y: int) -> int {
    byte_len(m.lines[y]) as int
}

/// The cursor lies inside a non-empty document.
pub open spec fn view_wf(m: EditorView) -> bool {
    &&& m.lines.len() >= 1
    &&& 0 <= m.cursor_y < m.lines.len()
    &&& 0 <= m.cursor_x <= line_len(m, m.cursor_y)
}

/// No line is so long that the byte arithmetic could leave `usize`.
pub open spec fn lines_fit(lines: Seq<Seq<char>>) -> bool {
    forall|i: int| 0 <= i < lines.len() ==> byte_len(#[trigger] lines[i]) <= (usize::MAX - 8) / 2
}

/// The character starting at byte `x` of `line` removed.
pub open spec fn remove_at_byte(line: Seq<char>, x: int) -> Seq<char> {
    line.remove(index_of_boundary(line, x))
}

/// `c` inserted at byte `x` of `line`.
pub open spec fn insert_at_byte(line: Seq<char>, x: int, c: char) -> Seq<char> {
    line.insert(index_of_boundary(line, x), c)
}

/// The part of `line` in front of byte `x`.
pub open spec fn head_at_byte(line: Seq<char>, x: int) -> Seq<char> {
    line.take(index_of_boundary(line, x))
}

/// The part of `line` from byte `x` on.
pub open spec fn tail_at_byte(line: Seq<char>, x: int) -> Seq<char> {
    line.skip(index_of_boundary(line, x))
}

/// Pulls the cursor column back to the end of its line.
pub open spec fn clamp_x(m: EditorView) -> EditorView {
    if m.cursor_x > line_len(m, m.cursor_y) {
        EditorView { cursor_x: line_len(m, m.cursor_y), ..m }
    } else {
        m
    }
}

/// The document after Ctrl+X: one empty line, the cursor at its start.
pub open spec fn cleared(m: EditorView) -> EditorView {
    EditorView { lines: seq![Seq::<char>::empty()], cursor_x: 0, cursor_y: 0, ..m }
}

pub open spec fn up_step(m: EditorView, shift: bool) -> EditorView {
    if shift {
        clamp_x(EditorView { cursor_x: 0, cursor_y: 0, ..m })
    } else if m.cursor_y > 0 {
        clamp_x(EditorView { cursor_y: m.cursor_y - 1, ..m })
    } else {
        clamp_x(m)
    }
}

pub open spec fn down_step(m: EditorView, shift: bool) -> EditorView {
    if shift {
        let y = m.lines.len() - 1;
        clamp_x(EditorView { cursor_y: y, cursor_x: line_len(m, y), ..m })
    } else if m.cursor_y + 1 < m.lines.len() {
        clamp_x(EditorView { cursor_y: m.cursor_y + 1, ..m })
    } else {
        clamp_x(m)
    }
}

pub open spec fn left_step(m: EditorView, shift: bool) -> EditorView {
    if shift {
        EditorView { cursor_x: 0, ..m }
    } else if m.cursor_x > 0 {
        EditorView { cursor_x: m.cursor_x - 1, ..m }
    } else if m.cursor_y > 0 {
        EditorView { cursor_y: m.cursor_y - 1, cursor_x: line_len(m, m.cursor_y - 1), ..m }
    } else {
        m
    }
}

pub open spec fn right_step(m: EditorView, shift: bool) -> EditorView {
    if shift {
        EditorView { cursor_x: line_len(m, m.cursor_y), ..m }
    } else if m.cursor_x < line_len(m, m.cursor_y) {
        EditorView { cursor_x: m.cursor_x + 1, ..m }
    } else if m.cursor_y + 1 < m.lines.len() {
        EditorView { cursor_y: m.cursor_y + 1, cursor_x: 0, ..m }
    } else {
        m
    }
}

pub open spec fn page_up_step(m: EditorView) -> EditorView {
    clamp_x(EditorView { cursor_y: if m.cursor_y >= 20 { m.cursor_y - 20 } else { 0 }, ..m })
}

pub open spec fn page_down_step(m: EditorView) -> EditorView {
    let y = if m.cursor_y + 20 < m.lines.len() - 1 { m.cursor_y + 20 } else { m.lines.len() - 1 };
    clamp_x(EditorView { cursor_y: y, ..m })
}

pub open spec fn backspace_step(m: EditorView) -> EditorView {
    let y = m.cursor_y;
    if m.cursor_x > 0 {
        EditorView {
            lines: m.lines.update(y, remove_at_byte(m.lines[y], m.cursor_x - 1)),
            cursor_x: m.cursor_x - 1,
            ..m
        }
    } else if y > 0 {
        EditorView {
            lines: m.lines.remove(y).update(y - 1, m.lines[y - 1] + m.lines[y]),
            cursor_y: y - 1,
            cursor_x: line_len(m, y - 1),
            ..m
        }
    } else {
        m
    }
}

pub open spec fn delete_step(m: EditorView) -> EditorView {
    let y = m.cursor_y;
    if m.cursor_x < line_len(m, y) {
        EditorView { lines: m.lines.update(y, remove_at_byte(m.lines[y], m.cursor_x)), ..m }
    } else if y + 1 < m.lines.len() {
        EditorView { lines: m.lines.remove(y + 1).update(y, m.lines[y] + m.lines[y + 1]), ..m }
    } else {
        m
    }
}

pub open spec fn enter_step(m: EditorView) -> EditorView {
    let y = m.cursor_y;
    let line = m.lines[y];
    EditorView {
        lines: m.lines.update(y, head_at_byte(line, m.cursor_x)).insert(
            y + 1,
            tail_at_byte(line, m.cursor_x),
        ),
        cursor_y: y + 1,
        cursor_x: 0,
        ..m
    }
}

pub open spec fn insert_step(m: EditorView, c: char) -> EditorView {
    let y = m.cursor_y;
    EditorView {
        lines: m.lines.update(y, insert_at_byte(m.lines[y], m.cursor_x, c)),
        cursor_x: m.cursor_x + 1,
        ..m
    }
}

/// What one key press does to the editor.
pub open spec fn editor_step(m: EditorView, key: Key) -> EditorView {
    match key.code {
        KeyCode::Esc => EditorView { should_quit: true, ..m },
        KeyCode::Char(c) => if key.ctrl && c == 's' {
            m
        } else if key.ctrl && c == 'x' {
            cleared(m)
        } else if !key.ctrl && !key.alt {
            insert_step(m, c)
        } else {
            m
        },
        KeyCode::Up => up_step(m, key.shift),
        KeyCode::Down => down_step(m, key.shift),
        KeyCode::Left => left_step(m, key.shift),
        KeyCode::Right => right_step(m, key.shift),
        KeyCode::Home => EditorView { cursor_x: 0, ..m },
        KeyCode::End => EditorView { cursor_x: line_len(m, m.cursor_y), ..m },
        KeyCode::PageUp => page_up_step(m),
        KeyCode::PageDown => page_down_step(m),
        KeyCode::Backspace => backspace_step(m),
        KeyCode::Delete => delete_step(m),
        KeyCode::Enter => enter_step(m),
        _ => m,
    }
}

/// Keys that only move the cursor.
pub open spec fn is_move_key(code: KeyCode) -> bool {
    code is Up || code is Down || code is Left || code is Right || code is Home || code is End
        || code is PageUp || code is PageDown
}

/// The key asks to save the document.
pub open spec fn is_save_key(m: EditorView, key: Key) -> bool {
    key.code == KeyCode::Char('s') && key.ctrl
}

/// The key would edit the line at a byte offset that is not a character
/// boundary, where no character can be inserted or removed.
pub open spec fn editor_key_panics(m: EditorView, key: Key) -> bool {
    let line = m.lines[m.cursor_y];
    match key.code {
        KeyCode::Backspace => m.cursor_x > 0 && !is_boundary(line, m.cursor_x - 1),
        KeyCode::Delete => m.cursor_x < line_len(m, m.cursor_y) && !is_boundary(line, m.cursor_x),
        KeyCode::Enter => !is_boundary(line, m.cursor_x),
        KeyCode::Char(c) => !(key.ctrl && (c == 's' || c == 'x')) && !key.ctrl && !key.alt
            && !is_boundary(line, m.cursor_x),
        _ => false,
    }
}

/// The lines joined with newlines (what is written to the file).
pub open spec fn joined(lines: Seq<Seq<char>>) -> Seq<char>
    decreases lines.len(),
{
    if lines.len() == 0 {
        Seq::empty()
    } else if lines.len() == 1 {
        lines[0]
    } else {
        lines[0] + seq!['\n'] + joined(lines.drop_first())
    }
}

/// Index of the first newline of `t`, or its length when there is none.
pub open spec fn newline_index(t: Seq<char>) -> int
    decreases t.len(),
{
    if t.len() == 0 {
        0
    } else if t[0] == '\n' {
        0
    } else {
        1 + newline_index(t.drop_first())
    }
}

/// A line with one trailing carriage return removed.
pub open spec fn strip_cr(l: Seq<char>) -> Seq<char> {
    if l.len() > 0 && l.last() == '\r' {
        l.drop_last()
    } else {
        l
    }
}

/// The lines of a text as `str::lines` yields them: split at `\n`, a `\r`
/// in front of the `\n` dropped, no empty line after a final newline.
pub open spec fn split_lines(t: Seq<char>) -> Seq<Seq<char>>
    decreases t.len(),
{
    if t.len() == 0 {
        Seq::empty()
    } else {
        let i = newline_index(t);
        if i >= t.len() {
            seq![t]
        } else {
            proof {
                lemma_newline_index_bounds(t);
            }
            seq![strip_cr(t.take(i))] + split_lines(t.skip(i + 1))
        }
    }
}

/// The document that a text loads into: its lines, or one empty line.
pub open spec fn load_lines(t: Seq<char>) -> Seq<Seq<char>> {
    if split_lines(t).len() == 0 {
        seq![Seq::<char>::empty()]
    } else {
        split_lines(t)
    }
}

pub proof fn lemma_newline_index_bounds(t: Seq<char>)
    ensures
        0 <= newline_index(t) <= t.len(),
        forall|j: int| 0 <= j < newline_index(t) ==> t[j] != '\n',
        newline_index(t) < t.len() ==> t[newline_index(t)] == '\n',
    decreases t.len(),
{
    if t.len() > 0 && t[0] != '\n' {
        lemma_newline_index_bounds(t.drop_first());
        assert forall|j: int| 0 <= j < newline_index(t) implies t[j] != '\n' by {
            if j > 0 {
                assert(t[j] == t.drop_first()[j - 1]);
            }
        }
    }
}

/// The first newline is where the scan finds it.
pub proof fn lemma_newline_index_is(t: Seq<char>, k: int)
    requires
        0 <= k <= t.len(),
        forall|j: int| 0 <= j < k ==> t[j] != '\n',
        k < t.len() ==> t[k] == '\n',
    ensures
        newline_index(t) == k,
    decreases t.len(),
{
    if t.len() > 0 && k > 0 {
        assert(t[0] != '\n');
        lemma_newline_index_is(t.drop_first(), k - 1);
    }
}

// ---------------------------------------------------------------------------
// The editor
// ---------------------------------------------------------------------------

/// A request to write the document to its file.
pub struct SaveRequest {
    pub path: String,
    pub text: String,
}

/// The state of one editor tab.
pub struct EditorState {
    pub file_path: Option<String>,
    pub content: Vec<Vec<char>>,
    pub cursor_x: usize,
    pub cursor_y: usize,
    pub scroll_y: usize,
    pub scroll_x: usize,
    pub should_quit: bool,
}

/// The characters of each line.
pub open spec fn lines_of(content: Seq<Vec<char>>) -> Seq<Seq<char>> {
    content.map_values(|l: Vec<char>| l@)
}

impl View for EditorState {
    type V = EditorView;

    open spec fn view(&self) -> EditorView {
        EditorView {
            lines: lines_of(self.content@),
            cursor_x: self.cursor_x as int,
            cursor_y: self.cursor_y as int,
            should_quit: self.should_quit,
        }
    }
}

impl EditorState {
    /// The cursor lies inside a non-empty document.
    pub open spec fn wf(&self) -> bool {
        view_wf(self@)
    }

    /// A new editor for `path`, holding one empty line.
    pub fn new(path: Option<String>) -> (e: Self)
        ensures
            e.wf(),
            e.file_path == path,
            e@.lines == seq![Seq::<char>::empty()],
            e.cursor_x == 0,
            e.cursor_y == 0,
            e.scroll_x == 0,
            e.scroll_y == 0,
            !e.should_quit,
    {
        let mut content: Vec<Vec<char>> = Vec::new();
        content.push(Vec::new());
        let e = EditorState {
            file_path: path,
            content,
            cursor_x: 0,
            cursor_y: 0,
            scroll_y: 0,
            scroll_x: 0,
            should_quit: false,
        };
        proof {
            assert(e@.lines =~= seq![Seq::<char>::empty()]);
        }
        e
    }

    /// Replaces the document by the lines of `text` (one empty line for an
    /// empty text) and puts the cursor at the start.
    pub fn load_text(&mut self, text: &str)
        ensures
            final(self).wf(),
            final(self)@.lines == load_lines(text@),
            final(self).cursor_x == 0,
            final(self).cursor_y == 0,
            final(self).file_path == old(self).file_path,
            final(self).scroll_x == old(self).scroll_x,
            final(self).scroll_y == old(self).scroll_y,
            final(self).should_quit == old(self).should_quit,
    {
        let t = crate::text::chars_of(text);
        let mut lines = split_text(&t);
        if lines.len() == 0 {
            lines.push(Vec::new());
            proof {
                assert(lines_of(lines@) =~= seq![Seq::<char>::empty()]);
            }
        }
        self.content = lines;
        self.cursor_x = 0;
        self.cursor_y = 0;
    }

    /// The document as one text, lines joined with newlines.
    pub fn text(&self) -> (t: String)
        ensures
            t@ == joined(self@.lines),
    {
        let mut t = String::new();
        let mut i: usize = 0;
        let n = self.content.len();
        while i < n
            invariant
                n == self.content.len(),
                0 <= i <= n,
                t@ == joined(lines_of(self.content@).take(i as int)),
            decreases n - i,
        {
            if i > 0 {
                push_char(&mut t, '\n');
            }
            let line = &self.content[i];
            let mut j: usize = 0;
            let ghost before = t@;
            while j < line.len()
                invariant
                    0 <= j <= line.len(),
                    t@ == before + line@.take(j as int),
                decreases line.len() - j,
            {
                push_char(&mut t, line[j]);
                proof {
                    assert(line@.take(j as int).push(line@[j as int]) =~= line@.take(j as int + 1));
                }
                j = j + 1;
            }
            proof {
                assert(line@.take(line.len() as int) =~= line@);
                lemma_joined_push(lines_of(self.content@).take(i as int), line@);
                assert(lines_of(self.content@).take(i as int).push(line@) =~= lines_of(
                    self.content@,
                ).take(i as int + 1));
            }
            i = i + 1;
        }
        proof {
            assert(lines_of(self.content@).take(n as int) =~= lines_of(self.content@));
        }
        t
    }

    fn adjust_cursor_x(&mut self)
        requires
            old(self).cursor_y < old(self).content.len(),
            byte_len(old(self).content@[old(self).cursor_y as int]@) <= usize::MAX,
        ensures
            final(self)@ == clamp_x(old(self)@),
            final(self).file_path == old(self).file_path,
            final(self).scroll_x == old(self).scroll_x,
            final(self).scroll_y == old(self).scroll_y,
    {
        let len = byte_length(&self.content[self.cursor_y]);
        if self.cursor_x > len {
            self.cursor_x = len;
        }
    }

    fn save(&self) -> (r: Option<SaveRequest>)
        ensures
            r is Some <==> self.file_path is Some,
            r matches Some(s) ==> self.file_path == Some(s.path) && s.text@ == joined(self@.lines),
    {
        match &self.file_path {
            Some(path) => Some(SaveRequest { path: path.clone(), text: self.text() }),
            None => None,
        }
    }

    /// Whether every line is short enough for the byte arithmetic of `handle_key`.
    pub fn lines_are_short(&self) -> (b: bool)
        ensures
            b == lines_fit(self@.lines),
    {
        let mut i: usize = 0;
        while i < self.content.len()
            invariant
                0 <= i <= self.content.len(),
                forall|j: int| 0 <= j < i ==> byte_len(#[trigger] lines_of(self.content@)[j]) <= (
                usize::MAX - 8) / 2,
            decreases self.content.len() - i,
        {
            if !byte_length_at_most(&self.content[i], (usize::MAX - 8) / 2) {
                proof {
                    assert(lines_of(self.content@)[i as int] == self.content@[i as int]@);
                }
                return false;
            }
            proof {
                assert(lines_of(self.content@)[i as int] == self.content@[i as int]@);
            }
            i = i + 1;
        }
        true
    }

    /// Whether `handle_key` can take `key`: the lines are short enough, and a
    /// key that edits the line does so at a character boundary.
    pub fn accepts_key(&self, key: &Key) -> (b: bool)
        requires
            self.wf(),
        ensures
            b == (lines_fit(self@.lines) && !editor_key_panics(self@, *key)),
    {
        if !self.lines_are_short() {
            return false;
        }
        proof {
            lemma_lines_fit_index(self@.lines, self.cursor_y as int);
        }
        let line = &self.content[self.cursor_y];
        let x = self.cursor_x;
        match key.code {
            KeyCode::Backspace => x == 0 || index_at_byte(line, x - 1).is_some(),
            KeyCode::Delete => x >= byte_length(line) || index_at_byte(line, x).is_some(),
            KeyCode::Enter => index_at_byte(line, x).is_some(),
            KeyCode::Char(_) => key.ctrl || key.alt || index_at_byte(line, x).is_some(),
            _ => true,
        }
    }

    /// Handles one key press.  Returns the save request that Ctrl+S makes
    /// when the document has a file.
    pub fn handle_key(&mut self, key: Key, clipboard: &mut Clipboard, config: &Config) -> (r:
        Option<SaveRequest>)
        requires
            old(self).wf(),
            lines_fit(old(self)@.lines),
            !editor_key_panics(old(self)@, key),
        ensures
            final(self).wf(),
            final(self)@ == editor_step(old(self)@, key),
            final(self).file_path == old(self).file_path,
            final(self).scroll_x == old(self).scroll_x,
            final(self).scroll_y == old(self).scroll_y,
            *final(clipboard) == *old(clipboard),
            r is Some <==> (is_save_key(old(self)@, key) && old(self).file_path is Some),
            r matches Some(s) ==> old(self).file_path == Some(s.path) && s.text@ == joined(
                old(self)@.lines,
            ),
    {
        proof {
            assert(self@.lines.len() == self.content.len());
            lemma_lines_fit_index(old(self)@.lines, self.cursor_y as int);
        }
        match key.code {
            KeyCode::Esc => {
                self.should_quit = true;
                None
            },
            KeyCode::Char(c) => {
                if key.ctrl && c == 's' {
                    self.save()
                } else if key.ctrl && c == 'x' {
                    self.clear_all();
                    None
                } else if !key.ctrl && !key.alt {
                    self.insert_char(c);
                    None
                } else {
                    None
                }
            },
            KeyCode::Up | KeyCode::Down | KeyCode::Left | KeyCode::Right | KeyCode::Home
            | KeyCode::End | KeyCode::PageUp | KeyCode::PageDown => {
                self.move_cursor(key);
                None
            },
            KeyCode::Backspace => {
                self.backspace();
                None
            },
            KeyCode::Delete => {
                self.delete_forward();
                None
            },
            KeyCode::Enter => {
                self.split_line();
                None
            },
            _ => None,
        }
    }

    /// Cursor movement keys.
    fn move_cursor(&mut self, key: Key)
        requires
            old(self).wf(),
            lines_fit(old(self)@.lines),
            is_move_key(key.code),
        ensures
            final(self).wf(),
            final(self)@ == editor_step(old(self)@, key),
            final(self).file_path == old(self).file_path,
            final(self).scroll_x == old(self).scroll_x,
            final(self).scroll_y == old(self).scroll_y,
    {
        proof {
            assert(self@.lines.len() == self.content.len());
            lemma_lines_fit_index(old(self)@.lines, self.cursor_y as int);
        }
        match key.code {
        KeyCode::Up => {
            if key.shift {
                self.cursor_y = 0;
                self.cursor_x = 0;
            } else if self.cursor_y > 0 {
                self.cursor_y = self.cursor_y - 1;
            }
            proof {
                lemma_lines_fit_index(old(self)@.lines, self.cursor_y as int);
            }
            self.adjust_cursor_x();
            proof {
                lemma_clamp_wf(self@);
            }
        },
        KeyCode::Down => {
            if key.shift {
                self.cursor_y = self.content.len() - 1;
                proof {
                    lemma_lines_fit_index(old(self)@.lines, self.cursor_y as int);
                }
                self.cursor_x = byte_length(&self.content[self.cursor_y]);
            } else if self.cursor_y + 1 < self.content.len() {
                self.cursor_y = self.cursor_y + 1;
            }
            proof {
                lemma_lines_fit_index(old(self)@.lines, self.cursor_y as int);
            }
            self.adjust_cursor_x();
            proof {
                lemma_clamp_wf(self@);
            }
        },
        KeyCode::Left => {
            if key.shift {
                self.cursor_x = 0;
            } else if self.cursor_x > 0 {
                self.cursor_x = self.cursor_x - 1;
            } else if self.cursor_y > 0 {
                self.cursor_y = self.cursor_y - 1;
                proof {
                    lemma_lines_fit_index(old(self)@.lines, self.cursor_y as int);
                }
                self.cursor_x = byte_length(&self.content[self.cursor_y]);
            }
        },
        KeyCode::Right => {
            let len = byte_length(&self.content[self.cursor_y]);
            if key.shift {
                self.cursor_x = len;
            } else if self.cursor_x < len {
                self.cursor_x = self.cursor_x + 1;
            } else if self.cursor_y + 1 < self.content.len() {
                self.cursor_y = self.cursor_y + 1;
                self.cursor_x = 0;
            }
        },
        KeyCode::Home => {
            self.cursor_x = 0;
        },
        KeyCode::End => {
            self.cursor_x = byte_length(&self.content[self.cursor_y]);
        },
        KeyCode::PageUp => {
            self.cursor_y = if self.cursor_y >= 20 {
                self.cursor_y - 20
            } else {
                0
            };
            proof {
                lemma_lines_fit_index(old(self)@.lines, self.cursor_y as int);
            }
            self.adjust_cursor_x();
            proof {
                lemma_clamp_wf(self@);
            }
        },
        KeyCode::PageDown => {
            let last = self.content.len() - 1;
            self.cursor_y = if self.cursor_y < last && last - self.cursor_y > 20 {
                self.cursor_y + 20
            } else {
                last
            };
            proof {
                lemma_lines_fit_index(old(self)@.lines, self.cursor_y as int);
            }
            self.adjust_cursor_x();
            proof {
                lemma_clamp_wf(self@);
            }
        },
            _ => {},
        }
    }

    fn clear_all(&mut self)
        ensures
            final(self)@ == cleared(old(self)@),
            final(self).file_path == old(self).file_path,
            final(self).scroll_x == old(self).scroll_x,
            final(self).scroll_y == old(self).scroll_y,
    {
        let mut content: Vec<Vec<char>> = Vec::new();
        content.push(Vec::new());
        self.content = content;
        self.cursor_x = 0;
        self.cursor_y = 0;
        proof {
            assert(lines_of(self.content@) =~= seq![Seq::<char>::empty()]);
        }
    }

    fn insert_char(&mut self, c: char)
        requires
            old(self).wf(),
            byte_len(old(self)@.lines[old(self).cursor_y as int]) <= (usize::MAX - 8) / 2,
            is_boundary(old(self)@.lines[old(self).cursor_y as int], old(self).cursor_x as int),
        ensures
            final(self).wf(),
            final(self)@ == insert_step(old(self)@, c),
            final(self).file_path == old(self).file_path,
            final(self).scroll_x == old(self).scroll_x,
            final(self).scroll_y == old(self).scroll_y,
    {
        let y = self.cursor_y;
        let ghost line0 = self.content@[y as int]@;
        let mut line: Vec<char> = Vec::new();
        self.content.set_and_swap(y, &mut line);
        let k = index_at_byte(&line, self.cursor_x);
        match k {
            Some(k) => {
                line.insert(k, c);
                self.content.set(y, line);
                self.cursor_x = self.cursor_x + 1;
                proof {
                    lemma_insert_len(line0, k as int, c);
                    assert(lines_of(self.content@) =~= lines_of(old(self).content@).update(
                        y as int,
                        insert_at_byte(line0, old(self).cursor_x as int, c),
                    ));
                }
            },
            None => {
                self.content.set(y, line);
            },
        }
    }

    fn backspace(&mut self)
        requires
            old(self).wf(),
            lines_fit(old(self)@.lines),
            !editor_key_panics(old(self)@, Key { code: KeyCode::Backspace, ctrl: false, shift: false, alt: false }),
        ensures
            final(self).wf(),
            final(self)@ == backspace_step(old(self)@),
            final(self).file_path == old(self).file_path,
            final(self).scroll_x == old(self).scroll_x,
            final(self).scroll_y == old(self).scroll_y,
    {
        let y = self.cursor_y;
        proof {
            assert(self@.lines.len() == self.content.len());
            lemma_lines_fit_index(old(self)@.lines, y as int);
        }
        if self.cursor_x > 0 {
            let ghost line0 = self.content@[y as int]@;
            let mut line: Vec<char> = Vec::new();
            self.content.set_and_swap(y, &mut line);
            let k = index_at_byte(&line, self.cursor_x - 1);
            match k {
                Some(k) => {
                    proof {
                        lemma_boundary_before_end(line0, k as int, old(self).cursor_x as int - 1);
                    }
                    line.remove(k);
                    self.content.set(y, line);
                    self.cursor_x = self.cursor_x - 1;
                    proof {
                        lemma_remove_len(line0, k as int);
                        assert(lines_of(self.content@) =~= lines_of(old(self).content@).update(
                            y as int,
                            remove_at_byte(line0, old(self).cursor_x - 1),
                        ));
                    }
                },
                None => {
                    self.content.set(y, line);
                },
            }
        } else if y > 0 {
            let ghost l0 = self.content@[y as int - 1]@;
            let ghost l1 = self.content@[y as int]@;
            proof {
                lemma_lines_fit_index(old(self)@.lines, y as int - 1);
            }
            let current_line = self.content.remove(y);
            let len = byte_length(&self.content[y - 1]);
            let mut prev: Vec<char> = Vec::new();
            self.content.set_and_swap(y - 1, &mut prev);
            let mut cur = current_line;
            prev.append(&mut cur);
            self.content.set(y - 1, prev);
            self.cursor_y = y - 1;
            self.cursor_x = len;
            proof {
                crate::text::lemma_byte_len_concat(l0, l1);
                assert(lines_of(self.content@) =~= lines_of(old(self).content@).remove(
                    y as int,
                ).update(y - 1, l0 + l1));
            }
        }
    }

    fn delete_forward(&mut self)
        requires
            old(self).wf(),
            lines_fit(old(self)@.lines),
            !editor_key_panics(old(self)@, Key { code: KeyCode::Delete, ctrl: false, shift: false, alt: false }),
        ensures
            final(self).wf(),
            final(self)@ == delete_step(old(self)@),
            final(self).file_path == old(self).file_path,
            final(self).scroll_x == old(self).scroll_x,
            final(self).scroll_y == old(self).scroll_y,
    {
        let y = self.cursor_y;
        proof {
            assert(self@.lines.len() == self.content.len());
            lemma_lines_fit_index(old(self)@.lines, y as int);
        }
        let len = byte_length(&self.content[y]);
        if self.cursor_x < len {
            let ghost line0 = self.content@[y as int]@;
            let mut line: Vec<char> = Vec::new();
            self.content.set_and_swap(y, &mut line);
            let k = index_at_byte(&line, self.cursor_x);
            match k {
                Some(k) => {
                    proof {
                        lemma_boundary_before_end(line0, k as int, old(self).cursor_x as int);
                    }
                    line.remove(k);
                    self.content.set(y, line);
                    proof {
                        lemma_remove_len(line0, k as int);
                        assert(lines_of(self.content@) =~= lines_of(old(self).content@).update(
                            y as int,
                            remove_at_byte(line0, old(self).cursor_x as int),
                        ));
                    }
                },
                None => {
                    self.content.set(y, line);
                },
            }
        } else if y + 1 < self.content.len() {
            let ghost l0 = self.content@[y as int]@;
            let ghost l1 = self.content@[y as int + 1]@;
            let next_line = self.content.remove(y + 1);
            let mut line: Vec<char> = Vec::new();
            self.content.set_and_swap(y, &mut line);
            let mut next = next_line;
            line.append(&mut next);
            self.content.set(y, line);
            proof {
                crate::text::lemma_byte_len_concat(l0, l1);
                assert(lines_of(self.content@) =~= lines_of(old(self).content@).remove(
                    y as int + 1,
                ).update(y as int, l0 + l1));
            }
        }
    }

    fn split_line(&mut self)
        requires
            old(self).wf(),
            !editor_key_panics(old(self)@, Key { code: KeyCode::Enter, ctrl: false, shift: false, alt: false }),
            lines_fit(old(self)@.lines),
        ensures
            final(self).wf(),
            final(self)@ == enter_step(old(self)@),
            final(self).file_path == old(self).file_path,
            final(self).scroll_x == old(self).scroll_x,
            final(self).scroll_y == old(self).scroll_y,
    {
        let y = self.cursor_y;
        proof {
            assert(self@.lines.len() == self.content.len());
            lemma_lines_fit_index(old(self)@.lines, y as int);
        }
        let ghost line0 = self.content@[y as int]@;
        let mut line: Vec<char> = Vec::new();
        self.content.set_and_swap(y, &mut line);
        let k = index_at_byte(&line, self.cursor_x);
        match k {
            Some(k) => {
                let new_line = line.split_off(k);
                self.content.set(y, line);
                self.content.insert(y + 1, new_line);
                self.cursor_y = y + 1;
                self.cursor_x = 0;
                proof {
                    assert(lines_of(self.content@) =~= lines_of(old(self).content@).update(
                        y as int,
                        head_at_byte(line0, old(self).cursor_x as int),
                    ).insert(y + 1, tail_at_byte(line0, old(self).cursor_x as int)));
                }
            },
            None => {
                self.content.set(y, line);
            },
        }
    }
}

/// Splits a text into lines as `str::lines` does.
fn split_text(t: &Vec<char>) -> (lines: Vec<Vec<char>>)
    ensures
        lines_of(lines@) == split_lines(t@),
{
    let mut lines: Vec<Vec<char>> = Vec::new();
    let mut pos: usize = 0;
    proof {
        assert(t@.skip(0) =~= t@);
        assert(lines_of(lines@) =~= Seq::<Seq<char>>::empty());
        assert(lines_of(lines@) + split_lines(t@) =~= split_lines(t@));
    }
    while pos < t.len()
        invariant
            0 <= pos <= t.len(),
            lines_of(lines@) + split_lines(t@.skip(pos as int)) == split_lines(t@),
        decreases t.len() - pos,
    {
        let ghost rest = t@.skip(pos as int);
        let mut cur: Vec<char> = Vec::new();
        let mut i = pos;
        while i < t.len() && t[i] != '\n'
            invariant
                pos <= i <= t.len(),
                cur@ == t@.subrange(pos as int, i as int),
                forall|j: int| pos <= j < i ==> t@[j] != '\n',
            decreases t.len() - i,
        {
            cur.push(t[i]);
            proof {
                assert(cur@ =~= t@.subrange(pos as int, i as int + 1));
            }
            i = i + 1;
        }
        proof {
            lemma_newline_index_is(rest, i - pos);
            assert(cur@ =~= rest.take(i - pos));
        }
        if i < t.len() {
            if cur.len() > 0 && cur[cur.len() - 1] == '\r' {
                cur.pop();
            }
            let ghost seg = cur@;
            lines.push(cur);
            proof {
                assert(rest.skip(i - pos + 1) =~= t@.skip(i + 1));
                assert(lines_of(lines@) =~= lines_of(lines@.drop_last()).push(seg));
                assert(split_lines(rest) =~= seq![seg] + split_lines(t@.skip(i + 1)));
                assert(lines_of(lines@) + split_lines(t@.skip(i + 1)) =~= lines_of(
                    lines@.drop_last(),
                ) + split_lines(rest));
            }
            pos = i + 1;
        } else {
            let ghost seg = cur@;
            lines.push(cur);
            proof {
                assert(rest =~= seg);
                assert(lines_of(lines@) =~= lines_of(lines@.drop_last()).push(seg));
                assert(t@.skip(t.len() as int) =~= Seq::<char>::empty());
                assert(lines_of(lines@) + split_lines(t@.skip(t.len() as int)) =~= lines_of(
                    lines@.drop_last(),
                ) + split_lines(rest));
            }
            pos = t.len();
        }
    }
    proof {
        assert(t@.skip(pos as int) =~= Seq::<char>::empty());
        assert(lines_of(lines@) + Seq::<Seq<char>>::empty() =~= lines_of(lines@));
    }
    lines
}

// ---------------------------------------------------------------------------
// Lemmas
// ---------------------------------------------------------------------------

pub proof fn lemma_lines_fit_index(lines: Seq<Seq<char>>, i: int)
    requires
        lines_fit(lines),
        0 <= i < lines.len(),
    ensures
        byte_len(lines[i]) <= (usize::MAX - 8) / 2,
{
}

pub proof fn lemma_clamp_wf(m: EditorView)
    requires
        m.lines.len() >= 1,
        0 <= m.cursor_y < m.lines.len(),
        0 <= m.cursor_x,
    ensures
        view_wf(clamp_x(m)),
{
}

/// A boundary in front of the end of the line starts a character.
pub proof fn lemma_boundary_before_end(line: Seq<char>, k: int, x: int)
    requires
        0 <= k <= line.len(),
        byte_len(line.take(k)) == x,
        x < byte_len(line),
    ensures
        k < line.len(),
{
    if k == line.len() {
        assert(line.take(k) =~= line);
    }
}

/// Removing the character at index `k` takes its width off the byte length.
pub proof fn lemma_remove_len(line: Seq<char>, k: int)
    requires
        0 <= k < line.len(),
    ensures
        byte_len(line.remove(k)) + char_width(line[k]) == byte_len(line),
        byte_len(line.take(k)) + char_width(line[k]) <= byte_len(line),
{
    let a = line.take(k);
    let b = line.skip(k + 1);
    let one = seq![line[k]];
    assert(line =~= a + one + b);
    assert(line.remove(k) =~= a + b);
    crate::text::lemma_byte_len_concat(a + one, b);
    crate::text::lemma_byte_len_concat(a, one);
    crate::text::lemma_byte_len_concat(a, b);
    crate::text::lemma_byte_len_single(line[k]);
}

/// Inserting a character adds its width to the byte length.
pub proof fn lemma_insert_len(line: Seq<char>, k: int, c: char)
    requires
        0 <= k <= line.len(),
    ensures
        byte_len(line.insert(k, c)) == byte_len(line) + char_width(c),
{
    let a = line.take(k);
    let b = line.skip(k);
    let one = seq![c];
    assert(line =~= a + b);
    assert(line.insert(k, c) =~= a + one + b);
    crate::text::lemma_byte_len_concat(a + one, b);
    crate::text::lemma_byte_len_concat(a, one);
    crate::text::lemma_byte_len_concat(a, b);
    crate::text::lemma_byte_len_single(c);
}

pub proof fn lemma_joined_push(ls: Seq<Seq<char>>, l: Seq<char>)
    ensures
        joined(ls.push(l)) == if ls.len() == 0 {
            l
        } else {
            joined(ls) + seq!['\n'] + l
        },
    decreases ls.len(),
{
    if ls.len() == 0 {
        assert(ls.push(l) =~= seq![l]);
    } else if ls.len() == 1 {
        assert(ls.push(l).drop_first() =~= seq![l]);
        assert(joined(seq![l]) == l);
        assert(ls.push(l)[0] == ls[0]);
        assert(joined(ls) == ls[0]);
        assert(joined(ls.push(l)) == ls[0] + seq!['\n'] + joined(ls.push(l).drop_first()));
    } else {
        lemma_joined_push(ls.drop_first(), l);
        assert(ls.push(l).drop_first() =~= ls.drop_first().push(l));
        assert(ls.push(l)[0] == ls[0]);
        assert(joined(ls.push(l)) == ls[0] + seq!['\n'] + joined(ls.drop_first().push(l)));
        assert(joined(ls) == ls[0] + seq!['\n'] + joined(ls.drop_first()));
        assert(joined(ls.push(l)) =~= joined(ls) + seq!['\n'] + l);
    }
}

// ---------------------------------------------------------------------------
// Laws of the editor
// ---------------------------------------------------------------------------

/// A key without modifiers.
pub open spec fn plain_key(code: KeyCode) -> Key {
    Key { code, ctrl: false, shift: false, alt: false }
}

/// A key with Shift held.
pub open spec fn shift_key(code: KeyCode) -> Key {
    Key { code, ctrl: false, shift: true, alt: false }
}

/// A key with Ctrl held.
pub open spec fn ctrl_key(code: KeyCode) -> Key {
    Key { code, ctrl: true, shift: false, alt: false }
}

proof fn lemma_insert_then_index(line: Seq<char>, x: int, c: char)
    requires
        is_boundary(line, x),
    ensures
        is_boundary(insert_at_byte(line, x, c), x),
        index_of_boundary(insert_at_byte(line, x, c), x) == index_of_boundary(line, x),
        remove_at_byte(insert_at_byte(line, x, c), x) == line,
{
    let k = index_of_boundary(line, x);
    let l2 = line.insert(k, c);
    assert(l2.take(k) =~= line.take(k));
    crate::text::lemma_boundary_unique(l2, k, x);
    assert(l2.remove(k) =~= line);
}

/// Every key keeps the cursor inside a non-empty document.
pub proof fn law_step_keeps_cursor_in_document(m: EditorView, key: Key)
    requires
        view_wf(m),
        !editor_key_panics(m, key),
    ensures
        view_wf(editor_step(m, key)),
{
    let y = m.cursor_y;
    let line = m.lines[y];
    match key.code {
        KeyCode::Backspace => {
            if m.cursor_x > 0 {
                let k = index_of_boundary(line, m.cursor_x - 1);
                lemma_boundary_before_end(line, k, m.cursor_x - 1);
                lemma_remove_len(line, k);
            } else if y > 0 {
                crate::text::lemma_byte_len_concat(m.lines[y - 1], line);
            }
        },
        KeyCode::Delete => {
            if m.cursor_x < line_len(m, y) {
                let k = index_of_boundary(line, m.cursor_x);
                lemma_boundary_before_end(line, k, m.cursor_x);
                lemma_remove_len(line, k);
            } else if y + 1 < m.lines.len() {
                crate::text::lemma_byte_len_concat(line, m.lines[y + 1]);
            }
        },
        KeyCode::Char(c) => {
            if !key.ctrl && !key.alt {
                lemma_insert_len(line, index_of_boundary(line, m.cursor_x), c);
            }
        },
        _ => {},
    }
}

/// The character is ASCII (one byte in UTF-8).
pub open spec fn is_ascii_char(c: char) -> bool {
    (c as u32) < 0x80
}

/// Every character of every line is ASCII.
pub open spec fn all_ascii(lines: Seq<Seq<char>>) -> bool {
    forall|i: int, j: int|
        0 <= i < lines.len() && 0 <= j < lines[i].len() ==> is_ascii_char(#[trigger] lines[i][j])
}

/// In an ASCII line every byte offset up to its length starts a character,
/// the character with the same index.
proof fn lemma_ascii_boundary(line: Seq<char>, x: int)
    requires
        forall|j: int| 0 <= j < line.len() ==> is_ascii_char(#[trigger] line[j]),
        0 <= x <= line.len(),
    ensures
        is_boundary(line, x),
        index_of_boundary(line, x) == x,
        byte_len(line) == line.len(),
{
    crate::text::lemma_byte_len_ascii(line.take(x));
    crate::text::lemma_byte_len_ascii(line);
    crate::text::lemma_boundary_unique(line, x, x);
}

/// A document of ASCII lines takes every key whose character, if any, is
/// ASCII, and stays a well-formed document of ASCII lines.
pub proof fn law_ascii_document_stays_ascii(m: EditorView, key: Key)
    requires
        view_wf(m),
        all_ascii(m.lines),
        match key.code {
            KeyCode::Char(c) => is_ascii_char(c),
            _ => true,
        },
    ensures
        !editor_key_panics(m, key),
        view_wf(editor_step(m, key)),
        all_ascii(editor_step(m, key).lines),
{
    let y = m.cursor_y;
    let line = m.lines[y];
    let x = m.cursor_x;
    assert forall|j: int| 0 <= j < line.len() implies is_ascii_char(#[trigger] line[j]) by {
        assert(is_ascii_char(m.lines[y][j]));
    }
    crate::text::lemma_byte_len_ascii(line);
    lemma_ascii_boundary(line, x);
    if x > 0 {
        lemma_ascii_boundary(line, x - 1);
    }
    law_step_keeps_cursor_in_document(m, key);
    let n = editor_step(m, key);
    let ls = m.lines;
    match key.code {
        KeyCode::Backspace => {
            if x > 0 {
                let l2 = line.remove(x - 1);
                assert(n.lines == ls.update(y, l2));
                assert forall|i: int, j: int| 0 <= i < n.lines.len() && 0 <= j < n.lines[i].len()
                    implies is_ascii_char(#[trigger] n.lines[i][j]) by {
                    if i == y {
                        if j < x - 1 {
                            assert(l2[j] == line[j]);
                        } else {
                            assert(l2[j] == line[j + 1]);
                        }
                    } else {
                        assert(n.lines[i] == ls[i]);
                    }
                }
            } else if y > 0 {
                let joined_line = ls[y - 1] + line;
                assert(n.lines == ls.remove(y).update(y - 1, joined_line));
                assert forall|i: int, j: int| 0 <= i < n.lines.len() && 0 <= j < n.lines[i].len()
                    implies is_ascii_char(#[trigger] n.lines[i][j]) by {
                    if i == y - 1 {
                        if j < ls[y - 1].len() {
                            assert(joined_line[j] == ls[y - 1][j]);
                        } else {
                            assert(joined_line[j] == line[j - ls[y - 1].len()]);
                        }
                    } else if i < y - 1 {
                        assert(n.lines[i] == ls[i]);
                    } else {
                        assert(n.lines[i] == ls[i + 1]);
                    }
                }
            }
        },
        KeyCode::Delete => {
            if x < line.len() {
                let l2 = line.remove(x);
                assert(n.lines == ls.update(y, l2));
                assert forall|i: int, j: int| 0 <= i < n.lines.len() && 0 <= j < n.lines[i].len()
                    implies is_ascii_char(#[trigger] n.lines[i][j]) by {
                    if i == y {
                        if j < x {
                            assert(l2[j] == line[j]);
                        } else {
                            assert(l2[j] == line[j + 1]);
                        }
                    } else {
                        assert(n.lines[i] == ls[i]);
                    }
                }
            } else if y + 1 < ls.len() {
                let joined_line = line + ls[y + 1];
                assert(n.lines == ls.remove(y + 1).update(y, joined_line));
                assert forall|i: int, j: int| 0 <= i < n.lines.len() && 0 <= j < n.lines[i].len()
                    implies is_ascii_char(#[trigger] n.lines[i][j]) by {
                    if i == y {
                        if j < line.len() {
                            assert(joined_line[j] == line[j]);
                        } else {
                            assert(joined_line[j] == ls[y + 1][j - line.len()]);
                        }
                    } else if i < y {
                        assert(n.lines[i] == ls[i]);
                    } else {
                        assert(n.lines[i] == ls[i + 1]);
                    }
                }
            }
        },
        KeyCode::Enter => {
            assert(n.lines == ls.update(y, line.take(x)).insert(y + 1, line.skip(x)));
            assert forall|i: int, j: int| 0 <= i < n.lines.len() && 0 <= j < n.lines[i].len()
                implies is_ascii_char(#[trigger] n.lines[i][j]) by {
                if i == y {
                    assert(n.lines[i][j] == line[j]);
                } else if i == y + 1 {
                    assert(n.lines[i][j] == line[j + x]);
                } else if i < y {
                    assert(n.lines[i] == ls[i]);
                } else {
                    assert(n.lines[i] == ls[i - 1]);
                }
            }
        },
        KeyCode::Char(c) => {
            if key.ctrl && c == 'x' {
                assert forall|i: int, j: int| 0 <= i < n.lines.len() && 0 <= j < n.lines[i].len()
                    implies is_ascii_char(#[trigger] n.lines[i][j]) by {
                    assert(n.lines[i].len() == 0);
                }
            } else if !key.ctrl && !key.alt {
                let l2 = line.insert(x, c);
                assert(n.lines == ls.update(y, l2));
                assert forall|i: int, j: int| 0 <= i < n.lines.len() && 0 <= j < n.lines[i].len()
                    implies is_ascii_char(#[trigger] n.lines[i][j]) by {
                    if i == y {
                        if j < x {
                            assert(l2[j] == line[j]);
                        } else if j > x {
                            assert(l2[j] == line[j - 1]);
                        }
                    } else {
                        assert(n.lines[i] == ls[i]);
                    }
                }
            }
        },
        _ => {},
    }
}

/// Typing a character and then pressing Backspace gives back the document and the cursor.
pub proof fn law_type_then_backspace_restores(m: EditorView, c: char)
    requires
        view_wf(m),
        is_boundary(m.lines[m.cursor_y], m.cursor_x),
    ensures
        !editor_key_panics(m, plain_key(KeyCode::Char(c))),
        !editor_key_panics(editor_step(m, plain_key(KeyCode::Char(c))), plain_key(KeyCode::Backspace)),
        editor_step(editor_step(m, plain_key(KeyCode::Char(c))), plain_key(KeyCode::Backspace)) == m,
{
    let y = m.cursor_y;
    let m1 = editor_step(m, plain_key(KeyCode::Char(c)));
    lemma_insert_then_index(m.lines[y], m.cursor_x, c);
    assert(m1.lines[y] == insert_at_byte(m.lines[y], m.cursor_x, c));
    let m2 = editor_step(m1, plain_key(KeyCode::Backspace));
    assert(m2.lines =~= m.lines);
}

/// Splitting a line with Enter and joining it again with Backspace gives back the document
/// and the cursor.
pub proof fn law_enter_then_backspace_restores(m: EditorView)
    requires
        view_wf(m),
        is_boundary(m.lines[m.cursor_y], m.cursor_x),
    ensures
        !editor_key_panics(m, plain_key(KeyCode::Enter)),
        !editor_key_panics(editor_step(m, plain_key(KeyCode::Enter)), plain_key(KeyCode::Backspace)),
        editor_step(editor_step(m, plain_key(KeyCode::Enter)), plain_key(KeyCode::Backspace)) == m,
{
    let y = m.cursor_y;
    let line = m.lines[y];
    let k = index_of_boundary(line, m.cursor_x);
    let m1 = editor_step(m, plain_key(KeyCode::Enter));
    assert(m1.lines[y] == line.take(k));
    assert(m1.lines[y + 1] == line.skip(k));
    let m2 = editor_step(m1, plain_key(KeyCode::Backspace));
    assert(line.take(k) + line.skip(k) =~= line);
    assert(m1.lines.remove(y + 1) =~= m.lines.update(y, line.take(k)));
    assert(m2.lines =~= m.lines);
}

/// Enter, Left and Delete split a line, step back over the break and join the line again:
/// the document and the cursor are as before.
pub proof fn law_enter_left_delete_restores(m: EditorView)
    requires
        view_wf(m),
        is_boundary(m.lines[m.cursor_y], m.cursor_x),
    ensures
        editor_step(
            editor_step(editor_step(m, plain_key(KeyCode::Enter)), plain_key(KeyCode::Left)),
            plain_key(KeyCode::Delete),
        ) == m,
{
    let y = m.cursor_y;
    let line = m.lines[y];
    let k = index_of_boundary(line, m.cursor_x);
    let m1 = editor_step(m, plain_key(KeyCode::Enter));
    assert(m1.lines[y] == line.take(k));
    assert(m1.lines[y + 1] == line.skip(k));
    let m2 = editor_step(m1, plain_key(KeyCode::Left));
    assert(m2.cursor_y == y && m2.cursor_x == m.cursor_x);
    let m3 = editor_step(m2, plain_key(KeyCode::Delete));
    assert(line.take(k) + line.skip(k) =~= line);
    assert(m1.lines.remove(y + 1) =~= m.lines.update(y, line.take(k)));
    assert(m3.lines =~= m.lines);
}

/// The smaller of two integers.
pub open spec fn min_of(a: int, b: int) -> int {
    if a <= b {
        a
    } else {
        b
    }
}

/// Up and Down move the cursor one line (and no further than the first or
/// last line), keeping its column where the new line is long enough and
/// putting it at the end of the line otherwise; with Shift they go to the
/// start or the end of the document.  The text does not change.
pub proof fn law_up_down_move_one_line(m: EditorView)
    requires
        view_wf(m),
    ensures
        editor_step(m, plain_key(KeyCode::Up)).lines == m.lines,
        editor_step(m, plain_key(KeyCode::Up)).cursor_y == if m.cursor_y > 0 {
            m.cursor_y - 1
        } else {
            0
        },
        editor_step(m, plain_key(KeyCode::Up)).cursor_x == min_of(
            m.cursor_x,
            byte_len(m.lines[editor_step(m, plain_key(KeyCode::Up)).cursor_y]) as int,
        ),
        editor_step(m, plain_key(KeyCode::Down)).lines == m.lines,
        editor_step(m, plain_key(KeyCode::Down)).cursor_y == if m.cursor_y + 1 < m.lines.len() {
            m.cursor_y + 1
        } else {
            m.cursor_y
        },
        editor_step(m, plain_key(KeyCode::Down)).cursor_x == min_of(
            m.cursor_x,
            byte_len(m.lines[editor_step(m, plain_key(KeyCode::Down)).cursor_y]) as int,
        ),
        m.cursor_y + 1 < m.lines.len() ==> editor_step(
            editor_step(m, plain_key(KeyCode::Down)),
            plain_key(KeyCode::Up),
        ).cursor_y == m.cursor_y,
        m.cursor_y > 0 ==> editor_step(editor_step(m, plain_key(KeyCode::Up)), plain_key(KeyCode::Down)).cursor_y
            == m.cursor_y,
        editor_step(m, shift_key(KeyCode::Up)).lines == m.lines,
        editor_step(m, shift_key(KeyCode::Up)).cursor_y == 0,
        editor_step(m, shift_key(KeyCode::Up)).cursor_x == 0,
        editor_step(m, shift_key(KeyCode::Down)).lines == m.lines,
        editor_step(m, shift_key(KeyCode::Down)).cursor_y == m.lines.len() - 1,
        editor_step(m, shift_key(KeyCode::Down)).cursor_x == byte_len(m.lines.last()),
        editor_step(m, plain_key(KeyCode::PageUp)).lines == m.lines,
        editor_step(m, plain_key(KeyCode::PageUp)).cursor_y == if m.cursor_y >= 20 {
            m.cursor_y - 20
        } else {
            0
        },
        editor_step(m, plain_key(KeyCode::PageDown)).lines == m.lines,
        editor_step(m, plain_key(KeyCode::PageDown)).cursor_y == min_of(
            m.cursor_y + 20,
            m.lines.len() - 1,
        ),
{
    let up = editor_step(m, plain_key(KeyCode::Up));
    let down = editor_step(m, plain_key(KeyCode::Down));
    law_step_keeps_cursor_in_document(m, plain_key(KeyCode::Down));
    law_step_keeps_cursor_in_document(m, plain_key(KeyCode::Up));
}

/// Left and Right move the cursor one byte along the line, wrapping to the
/// end of the line above or the start of the line below; Home and End, and
/// Left and Right with Shift, go to the start and the end of the line.  The
/// text does not change.
pub proof fn law_left_right_move_one_step(m: EditorView)
    requires
        view_wf(m),
    ensures
        editor_step(m, plain_key(KeyCode::Left)).lines == m.lines,
        m.cursor_x > 0 ==> editor_step(m, plain_key(KeyCode::Left)).cursor_x == m.cursor_x - 1
            && editor_step(m, plain_key(KeyCode::Left)).cursor_y == m.cursor_y,
        m.cursor_x == 0 && m.cursor_y > 0 ==> editor_step(m, plain_key(KeyCode::Left)).cursor_y
            == m.cursor_y - 1 && editor_step(m, plain_key(KeyCode::Left)).cursor_x == byte_len(
            m.lines[m.cursor_y - 1],
        ),
        m.cursor_x == 0 && m.cursor_y == 0 ==> editor_step(m, plain_key(KeyCode::Left)) == m,
        editor_step(m, plain_key(KeyCode::Right)).lines == m.lines,
        m.cursor_x < byte_len(m.lines[m.cursor_y]) ==> editor_step(
            m,
            plain_key(KeyCode::Right),
        ).cursor_x == m.cursor_x + 1 && editor_step(m, plain_key(KeyCode::Right)).cursor_y
            == m.cursor_y,
        m.cursor_x == byte_len(m.lines[m.cursor_y]) && m.cursor_y + 1 < m.lines.len() ==> editor_step(
            m,
            plain_key(KeyCode::Right),
        ).cursor_x == 0 && editor_step(m, plain_key(KeyCode::Right)).cursor_y == m.cursor_y + 1,
        editor_step(m, plain_key(KeyCode::Home)).lines == m.lines,
        editor_step(m, plain_key(KeyCode::Home)).cursor_y == m.cursor_y,
        editor_step(m, plain_key(KeyCode::Home)).cursor_x == 0,
        editor_step(m, plain_key(KeyCode::End)).lines == m.lines,
        editor_step(m, plain_key(KeyCode::End)).cursor_y == m.cursor_y,
        editor_step(m, plain_key(KeyCode::End)).cursor_x == byte_len(m.lines[m.cursor_y]),
        editor_step(m, shift_key(KeyCode::Left)).cursor_x == 0,
        editor_step(m, shift_key(KeyCode::Left)).cursor_y == m.cursor_y,
        editor_step(m, shift_key(KeyCode::Right)).cursor_x == byte_len(m.lines[m.cursor_y]),
        editor_step(m, shift_key(KeyCode::Right)).cursor_y == m.cursor_y,
{
}

/// Editing keys change only the cursor's line (or join or split it): a typed
/// character goes in at the cursor, between the text in front of it and the
/// text after it; Enter splits the line there into two lines; Backspace
/// removes the character in front of the cursor and Delete the one at it;
/// the other lines stay as they were.
pub proof fn law_edits_happen_at_the_cursor(m: EditorView, c: char)
    requires
        view_wf(m),
        is_boundary(m.lines[m.cursor_y], m.cursor_x),
    ensures
        ({
            let n = editor_step(m, plain_key(KeyCode::Char(c)));
            let line = m.lines[m.cursor_y];
            &&& n.lines.len() == m.lines.len()
            &&& n.lines[m.cursor_y] == head_at_byte(line, m.cursor_x) + seq![c] + tail_at_byte(
                line,
                m.cursor_x,
            )
            &&& forall|i: int| 0 <= i < m.lines.len() && i != m.cursor_y ==> n.lines[i] == m.lines[i]
            &&& n.cursor_y == m.cursor_y
        }),
        ({
            let n = editor_step(m, plain_key(KeyCode::Enter));
            let line = m.lines[m.cursor_y];
            &&& n.lines.len() == m.lines.len() + 1
            &&& n.lines[m.cursor_y] == head_at_byte(line, m.cursor_x)
            &&& n.lines[m.cursor_y + 1] == tail_at_byte(line, m.cursor_x)
            &&& forall|i: int| 0 <= i < m.cursor_y ==> n.lines[i] == m.lines[i]
            &&& forall|i: int| m.cursor_y < i < m.lines.len() ==> n.lines[i + 1] == m.lines[i]
            &&& n.cursor_y == m.cursor_y + 1 && n.cursor_x == 0
        }),
        m.cursor_x > 0 && is_boundary(m.lines[m.cursor_y], m.cursor_x - 1) ==> ({
            let n = editor_step(m, plain_key(KeyCode::Backspace));
            let line = m.lines[m.cursor_y];
            let k = index_of_boundary(line, m.cursor_x - 1);
            &&& n.lines.len() == m.lines.len()
            &&& n.lines[m.cursor_y] == line.take(k) + line.skip(k + 1)
            &&& forall|i: int| 0 <= i < m.lines.len() && i != m.cursor_y ==> n.lines[i] == m.lines[i]
            &&& n.cursor_y == m.cursor_y && n.cursor_x == m.cursor_x - 1
        }),
        m.cursor_x < byte_len(m.lines[m.cursor_y]) ==> ({
            let n = editor_step(m, plain_key(KeyCode::Delete));
            let line = m.lines[m.cursor_y];
            let k = index_of_boundary(line, m.cursor_x);
            &&& n.lines.len() == m.lines.len()
            &&& n.lines[m.cursor_y] == line.take(k) + line.skip(k + 1)
            &&& forall|i: int| 0 <= i < m.lines.len() && i != m.cursor_y ==> n.lines[i] == m.lines[i]
            &&& n.cursor_y == m.cursor_y && n.cursor_x == m.cursor_x
        }),
{
    let line = m.lines[m.cursor_y];
    let x = m.cursor_x;
    let k = index_of_boundary(line, x);
    assert(0 <= k <= line.len());
    assert(line.insert(k, c) =~= line.take(k) + seq![c] + line.skip(k));
    if x > 0 && is_boundary(line, x - 1) {
        let k1 = index_of_boundary(line, x - 1);
        lemma_boundary_before_end(line, k1, x - 1);
        assert(line.remove(k1) =~= line.take(k1) + line.skip(k1 + 1));
    }
    if x < byte_len(line) {
        lemma_boundary_before_end(line, k, x);
        assert(line.remove(k) =~= line.take(k) + line.skip(k + 1));
    }
    let n = editor_step(m, plain_key(KeyCode::Enter));
    assert forall|i: int| m.cursor_y < i < m.lines.len() implies n.lines[i + 1] == m.lines[i] by {}
}

/// Cursor movement never changes the text.
pub proof fn law_movement_keeps_text(m: EditorView, key: Key)
    requires
        is_move_key(key.code),
    ensures
        editor_step(m, key).lines == m.lines,
{
}

/// Ctrl+X empties the document at once and puts the cursor at its start;
/// the file, the quit flag and the rest stay as they were.
pub proof fn law_ctrl_x_clears_all_text(m: EditorView)
    ensures
        editor_step(m, ctrl_key(KeyCode::Char('x'))) == (EditorView {
            lines: seq![Seq::<char>::empty()],
            cursor_x: 0,
            cursor_y: 0,
            ..m
        }),
        view_wf(editor_step(m, ctrl_key(KeyCode::Char('x')))),
        joined(editor_step(m, ctrl_key(KeyCode::Char('x'))).lines) == Seq::<char>::empty(),
{
    assert(joined(seq![Seq::<char>::empty()]) == Seq::<char>::empty());
}

/// Saving a document and loading the saved text gives back its lines, when no line holds a
/// newline, no line but the last ends in a carriage return, and the last line is not empty
/// (or is the only line).
pub proof fn law_save_then_load_restores(ls: Seq<Seq<char>>)
    requires
        ls.len() >= 1,
        forall|i: int, j: int| 0 <= i < ls.len() && 0 <= j < ls[i].len() ==> ls[i][j] != '\n',
        forall|i: int| 0 <= i < ls.len() - 1 ==> !(ls[i].len() > 0 && ls[i].last() == '\r'),
        ls.len() == 1 || ls.last().len() > 0,
    ensures
        load_lines(joined(ls)) == ls,
    decreases ls.len(),
{
    if ls.len() == 1 {
        let l = ls[0];
        if l.len() == 0 {
            assert(l =~= Seq::<char>::empty());
            assert(ls =~= seq![Seq::<char>::empty()]);
        } else {
            lemma_newline_index_is(l, l.len() as int);
        }
    } else {
        let rest = ls.drop_first();
        let l = ls[0];
        let t = l + seq!['\n'] + joined(rest);
        assert forall|i: int, j: int| 0 <= i < rest.len() && 0 <= j < rest[i].len() implies rest[i][j]
            != '\n' by {
            assert(rest[i] == ls[i + 1]);
        }
        assert forall|i: int| 0 <= i < rest.len() - 1 implies !(rest[i].len() > 0 && rest[i].last()
            == '\r') by {
            assert(rest[i] == ls[i + 1]);
        }
        law_save_then_load_restores(rest);
        lemma_split_nonempty(joined(rest), rest);
        lemma_newline_index_is(t, l.len() as int);
        assert(t.take(l.len() as int) =~= l);
        assert(t.skip(l.len() as int + 1) =~= joined(rest));
        assert(strip_cr(l) == l);
        assert(split_lines(t) =~= seq![l] + split_lines(joined(rest)));
        assert(seq![l] + rest =~= ls);
    }
}

proof fn lemma_split_nonempty(t: Seq<char>, ls: Seq<Seq<char>>)
    requires
        load_lines(t) == ls,
        ls.len() >= 1,
        ls.len() == 1 ==> ls[0].len() > 0,
    ensures
        split_lines(t) == ls,
{
}

} // verus!
