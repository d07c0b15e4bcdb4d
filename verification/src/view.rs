//! What the screen shows: which part of a list or of a document is in the
//! window, and how each entry of a listing is written.
use vstd::prelude::*;
use crate::file_browser::{FileItem, item_color};
use crate::text::{chars_of, push_char, string_of};
use crate::theme::Color;
use crate::utils::{format_size, size_text};

verus! {

/// The first visible row after scrolling so that `cursor` is on screen,
/// moving the window as little as possible.
pub open spec fn scrolled(cursor: int, offset: int, height: int) -> int {
    if cursor < offset {
        cursor
    } else if cursor >= offset + height {
        cursor - height + 1
    } else {
        offset
    }
}

/// The first visible row (or column) once `cursor` is brought into a window
/// of `height` rows that started at `offset`.
pub fn scroll_to_show(cursor: usize, offset: usize, height: usize) -> (r: usize)
    requires
        offset + height <= usize::MAX,
        cursor + 1 <= usize::MAX,
    ensures
        r == scrolled(cursor as int, offset as int, height as int),
{
    if cursor < offset {
        cursor
    } else if cursor >= offset + height {
        cursor + 1 - height
    } else {
        offset
    }
}

/// After scrolling, the cursor lies in the window; a cursor already in the
/// window does not move it.
pub proof fn law_scroll_shows_cursor(cursor: int, offset: int, height: int)
    requires
        0 <= cursor,
        0 <= offset,
        height >= 1,
    ensures
        scrolled(cursor, offset, height) <= cursor < scrolled(cursor, offset, height) + height,
        offset <= cursor < offset + height ==> scrolled(cursor, offset, height) == offset,
{
}

/// How one entry of a listing is written on its row.
pub struct EntryRow {
    /// A check mark for a marked entry, blank otherwise.
    pub mark: String,
    /// A folder or a file sign.
    pub icon: String,
    /// The name, left-aligned in a column of 40 characters, with a space on each side.
    pub label: String,
    /// The size for a file, nothing for a directory.
    pub size_text: String,
    /// The text colour.
    pub fg: Color,
    /// The row is the cursor row (shown highlighted and bold).
    pub on_cursor: bool,
}

/// The colour an entry's text is written in: yellow when marked, white on
/// the cursor row, otherwise the entry's own colour.
pub open spec fn entry_fg(item: FileItem, on_cursor: bool) -> Color {
    if item.selected {
        Color::Rgb(255, 255, 100)
    } else if on_cursor {
        Color::White
    } else {
        let c = item_color(item);
        Color::Rgb(c.0, c.1, c.2)
    }
}

/// `s` padded with spaces on the right to `width` characters.
pub open spec fn padded(s: Seq<char>, width: nat) -> Seq<char> {
    if s.len() >= width {
        s
    } else {
        s + Seq::new((width - s.len()) as nat, |i: int| ' ')
    }
}

/// The row of an entry.
pub open spec fn entry_row_is(r: EntryRow, item: FileItem, on_cursor: bool) -> bool {
    &&& r.mark@ == if item.selected {
        "󰄲 "@
    } else {
        "  "@
    }
    &&& r.icon@ == if item.is_dir {
        "󰉋 "@
    } else {
        "󰈔 "@
    }
    &&& r.label@ == " "@ + padded(item.name@, 40) + " "@
    &&& r.size_text@ == if item.is_dir {
        Seq::<char>::empty()
    } else {
        size_text(item.size as nat)
    }
    &&& r.fg == entry_fg(item, on_cursor)
    &&& r.on_cursor == on_cursor
}

/// How `item` is written on its row; `on_cursor` when the cursor is on it.
pub fn entry_row(item: &FileItem, on_cursor: bool) -> (r: EntryRow)
    ensures
        entry_row_is(r, *item, on_cursor),
{
    let mark = string_of(if item.selected { "󰄲 " } else { "  " });
    let icon = string_of(if item.is_dir { "󰉋 " } else { "󰈔 " });
    let mut label = string_of(" ");
    label.append(item.name.as_str());
    let n = chars_of(item.name.as_str()).len();
    let mut k: usize = n;
    proof {
        assert(Seq::new(0, |i: int| ' ') =~= Seq::<char>::empty());
    }
    while k < 40
        invariant
            n == item.name@.len(),
            n <= k <= 40 || (n > 40 && k == n),
            label@ == " "@ + item.name@ + Seq::new((k - n) as nat, |i: int| ' '),
        decreases 40 - k,
    {
        push_char(&mut label, ' ');
        proof {
            assert(Seq::new((k - n) as nat, |i: int| ' ').push(' ') =~= Seq::new(
                (k + 1 - n) as nat,
                |i: int| ' ',
            ));
        }
        k = k + 1;
    }
    proof {
        if n >= 40 {
            assert(Seq::new((k - n) as nat, |i: int| ' ') =~= Seq::<char>::empty());
            assert(label@ =~= " "@ + padded(item.name@, 40));
        } else {
            assert(label@ =~= " "@ + padded(item.name@, 40));
        }
    }
    push_char(&mut label, ' ');
    proof {
        reveal_strlit(" ");
        assert(label@ =~= " "@ + padded(item.name@, 40) + " "@);
    }
    let size_text = if item.is_dir {
        String::new()
    } else {
        format_size(item.size)
    };
    let fg = if item.selected {
        Color::Rgb(255, 255, 100)
    } else if on_cursor {
        Color::White
    } else {
        let (r, g, b) = item.get_color();
        Color::Rgb(r, g, b)
    };
    EntryRow { mark, icon, label, size_text, fg, on_cursor }
}

/// The rows of the listing window: at most `height` entries from `offset`
/// on, the one at `cursor` marked as the cursor row.
pub fn visible_rows(items: &Vec<FileItem>, offset: usize, height: usize, cursor: usize) -> (rows:
    Vec<EntryRow>)
    ensures
        rows@.len() == if offset >= items@.len() {
            0
        } else if items@.len() - offset < height {
            items@.len() - offset
        } else {
            height as int
        },
        forall|k: int|
            0 <= k < rows@.len() ==> entry_row_is(
                #[trigger] rows@[k],
                items@[offset + k],
                offset + k == cursor,
            ),
{
    let mut rows: Vec<EntryRow> = Vec::new();
    let mut i = offset;
    while i < items.len() && i - offset < height
        invariant
            offset <= i,
            i <= items@.len() || i == offset,
            i - offset <= height,
            rows@.len() == i - offset,
            forall|k: int|
                0 <= k < rows@.len() ==> entry_row_is(
                    #[trigger] rows@[k],
                    items@[offset + k],
                    offset + k == cursor,
                ),
        decreases items@.len() - i,
    {
        let r = entry_row(&items[i], i == cursor);
        rows.push(r);
        i = i + 1;
    }
    rows
}

} // verus!
