//! Colour theme settings and the parser for colour names.
use vstd::prelude::*;
use crate::text::{
    byte_len, char_width, char_width_of, byte_length, chars_of, has_prefix, str_eq, string_of,
    str_lowercase, to_lowercase,
};

verus! {

/// A terminal colour.
#[derive(Clone, Copy, Debug, PartialEq, Eq, Structural)]
pub enum Color {
    Reset,
    Black,
    Red,
    Green,
    Yellow,
    Blue,
    Magenta,
    Cyan,
    Gray,
    DarkGray,
    LightRed,
    LightGreen,
    LightYellow,
    LightBlue,
    LightMagenta,
    LightCyan,
    White,
    Rgb(u8, u8, u8),
}

/// Colour names of the theme, as written in the settings file.
#[derive(Debug, Clone)]
pub struct ThemeConfig {
    pub bg: String,
    pub fg: String,
    pub primary: String,
    pub secondary: String,
    pub highlight_bg: String,
    pub highlight_fg: String,
    pub border: String,
    pub error: String,
    pub dir_color: String,
    pub file_color: String,
    pub symlink_color: String,
}

impl ThemeConfig {
    /// The theme holds the default colour names.
    pub open spec fn is_default(&self) -> bool {
        &&& self.bg@ == "Reset"@
        &&& self.fg@ == "Reset"@
        &&& self.primary@ == "Cyan"@
        &&& self.secondary@ == "DarkGray"@
        &&& self.highlight_bg@ == "Blue"@
        &&& self.highlight_fg@ == "White"@
        &&& self.border@ == "DarkGray"@
        &&& self.error@ == "Red"@
        &&& self.dir_color@ == "Cyan"@
        &&& self.file_color@ == "Reset"@
        &&& self.symlink_color@ == "Magenta"@
    }
}

impl Default for ThemeConfig {
    fn default() -> (t: Self)
        ensures
            t.is_default(),
    {
        ThemeConfig {
            bg: string_of("Reset"),
            fg: string_of("Reset"),
            primary: string_of("Cyan"),
            secondary: string_of("DarkGray"),
            highlight_bg: string_of("Blue"),
            highlight_fg: string_of("White"),
            border: string_of("DarkGray"),
            error: string_of("Red"),
            dir_color: string_of("Cyan"),
            file_color: string_of("Reset"),
            symlink_color: string_of("Magenta"),
        }
    }
}

/// Value of a hexadecimal digit (either case), if `c` is one.
pub open spec fn hex_value(c: char) -> Option<nat> {
    if '0' <= c && c <= '9' {
        Some(((c as nat) - ('0' as nat)) as nat)
    } else if 'a' <= c && c <= 'f' {
        Some(((c as nat) - ('a' as nat) + 10) as nat)
    } else if 'A' <= c && c <= 'F' {
        Some(((c as nat) - ('A' as nat) + 10) as nat)
    } else {
        None
    }
}

/// What `u8::from_str_radix(s, 16).unwrap_or(255)` gives for the two ASCII characters `a`, `b`:
/// two hex digits, or `+` and one hex digit; anything else is refused and gives 255.
pub open spec fn hex_pair_value(a: char, b: char) -> u8 {
    match (hex_value(a), hex_value(b)) {
        (Some(x), Some(y)) => (16 * x + y) as u8,
        (None, Some(y)) => if a == '+' {
            y as u8
        } else {
            255
        },
        _ => 255,
    }
}

/// The next two bytes of `t` can be sliced off at character boundaries.
pub open spec fn pair_ok(t: Seq<char>) -> bool {
    t.len() >= 1 && ((char_width(t[0]) == 1 && t.len() >= 2 && char_width(t[1]) == 1)
        || char_width(t[0]) == 2)
}

/// The characters after the next two bytes.
pub open spec fn pair_rest(t: Seq<char>) -> Seq<char> {
    if char_width(t[0]) == 1 {
        t.skip(2)
    } else {
        t.skip(1)
    }
}

/// The colour component read from the next two bytes (a two-byte character is no number).
pub open spec fn pair_value(t: Seq<char>) -> u8 {
    if char_width(t[0]) == 1 {
        hex_pair_value(t[0], t[1])
    } else {
        255
    }
}

/// `s` is a `#` followed by six bytes.
pub open spec fn is_hex_form(s: Seq<char>) -> bool {
    s.len() >= 1 && s[0] == '#' && byte_len(s) == 7
}

/// The six bytes after `#` split into three two-byte slices at character boundaries.
pub open spec fn hex_form_sliceable(s: Seq<char>) -> bool {
    let t = s.drop_first();
    pair_ok(t) && pair_ok(pair_rest(t)) && pair_ok(pair_rest(pair_rest(t)))
}

/// The colour that `parse_color` gives for a `#rrggbb` form.
pub open spec fn hex_color(s: Seq<char>) -> Color {
    let t = s.drop_first();
    let t2 = pair_rest(t);
    let t3 = pair_rest(t2);
    Color::Rgb(pair_value(t), pair_value(t2), pair_value(t3))
}

/// The colour named by `lower` (the lower-case form of the text `raw`).
pub open spec fn color_for(lower: Seq<char>, raw: Seq<char>) -> Color {
    if lower == "black"@ {
        Color::Black
    } else if lower == "red"@ {
        Color::Red
    } else if lower == "green"@ {
        Color::Green
    } else if lower == "yellow"@ {
        Color::Yellow
    } else if lower == "blue"@ {
        Color::Blue
    } else if lower == "magenta"@ {
        Color::Magenta
    } else if lower == "cyan"@ {
        Color::Cyan
    } else if lower == "gray"@ {
        Color::Gray
    } else if lower == "darkgray"@ {
        Color::DarkGray
    } else if lower == "lightred"@ {
        Color::LightRed
    } else if lower == "lightgreen"@ {
        Color::LightGreen
    } else if lower == "lightyellow"@ {
        Color::LightYellow
    } else if lower == "lightblue"@ {
        Color::LightBlue
    } else if lower == "lightmagenta"@ {
        Color::LightMagenta
    } else if lower == "lightcyan"@ {
        Color::LightCyan
    } else if lower == "white"@ {
        Color::White
    } else if lower == "reset"@ {
        Color::Reset
    } else if is_hex_form(raw) {
        hex_color(raw)
    } else {
        Color::Reset
    }
}

/// `lower` is one of the colour names.
pub open spec fn is_color_name(lower: Seq<char>) -> bool {
    ||| lower == "black"@
    ||| lower == "red"@
    ||| lower == "green"@
    ||| lower == "yellow"@
    ||| lower == "blue"@
    ||| lower == "magenta"@
    ||| lower == "cyan"@
    ||| lower == "gray"@
    ||| lower == "darkgray"@
    ||| lower == "lightred"@
    ||| lower == "lightgreen"@
    ||| lower == "lightyellow"@
    ||| lower == "lightblue"@
    ||| lower == "lightmagenta"@
    ||| lower == "lightcyan"@
    ||| lower == "white"@
    ||| lower == "reset"@
}

/// Colour names ignore case: two texts whose lower-case forms agree and
/// name a colour give the same colour.
pub proof fn law_color_names_ignore_case(a: Seq<char>, b: Seq<char>)
    requires
        str_lowercase(a) == str_lowercase(b),
        is_color_name(str_lowercase(a)),
    ensures
        color_for(str_lowercase(a), a) == color_for(str_lowercase(b), b),
{
}

/// The lower-case English name of a colour (a red, green, blue triple has none).
pub open spec fn color_name(c: Color) -> Seq<char> {
    match c {
        Color::Black => "black"@,
        Color::Red => "red"@,
        Color::Green => "green"@,
        Color::Yellow => "yellow"@,
        Color::Blue => "blue"@,
        Color::Magenta => "magenta"@,
        Color::Cyan => "cyan"@,
        Color::Gray => "gray"@,
        Color::DarkGray => "darkgray"@,
        Color::LightRed => "lightred"@,
        Color::LightGreen => "lightgreen"@,
        Color::LightYellow => "lightyellow"@,
        Color::LightBlue => "lightblue"@,
        Color::LightMagenta => "lightmagenta"@,
        Color::LightCyan => "lightcyan"@,
        Color::White => "white"@,
        Color::Reset => "reset"@,
        Color::Rgb(_, _, _) => Seq::empty(),
    }
}

/// A colour name gives the colour of that name: the name of the colour
/// returned is the lower-case text, so different names give different
/// colours and no name gives a red, green, blue triple.
pub proof fn law_color_name_gives_that_colour(lower: Seq<char>, raw: Seq<char>)
    requires
        is_color_name(lower),
    ensures
        color_name(color_for(lower, raw)) == lower,
        !(color_for(lower, raw) is Rgb),
{
    reveal_strlit("black");
    reveal_strlit("red");
    reveal_strlit("green");
    reveal_strlit("yellow");
    reveal_strlit("blue");
    reveal_strlit("magenta");
    reveal_strlit("cyan");
    reveal_strlit("gray");
    reveal_strlit("darkgray");
    reveal_strlit("lightred");
    reveal_strlit("lightgreen");
    reveal_strlit("lightyellow");
    reveal_strlit("lightblue");
    reveal_strlit("lightmagenta");
    reveal_strlit("lightcyan");
    reveal_strlit("white");
    reveal_strlit("reset");
    if lower == "black"@ {
        assert(lower.len() == 5 && lower[0] == 'b');
    }
    if lower == "red"@ {
        assert(lower.len() == 3 && lower[0] == 'r');
    }
    if lower == "green"@ {
        assert(lower.len() == 5 && lower[0] == 'g');
    }
    if lower == "yellow"@ {
        assert(lower.len() == 6 && lower[0] == 'y' && lower[5] == 'w');
    }
    if lower == "blue"@ {
        assert(lower.len() == 4 && lower[0] == 'b');
    }
    if lower == "magenta"@ {
        assert(lower.len() == 7 && lower[0] == 'm' && lower[5] == 't');
    }
    if lower == "cyan"@ {
        assert(lower.len() == 4 && lower[0] == 'c');
    }
    if lower == "gray"@ {
        assert(lower.len() == 4 && lower[0] == 'g');
    }
    if lower == "darkgray"@ {
        assert(lower.len() == 8 && lower[0] == 'd' && lower[5] == 'r');
    }
    if lower == "lightred"@ {
        assert(lower.len() == 8 && lower[0] == 'l' && lower[5] == 'r');
    }
    if lower == "lightgreen"@ {
        assert(lower.len() == 10 && lower[0] == 'l' && lower[5] == 'g');
    }
    if lower == "lightyellow"@ {
        assert(lower.len() == 11 && lower[0] == 'l' && lower[5] == 'y');
    }
    if lower == "lightblue"@ {
        assert(lower.len() == 9 && lower[0] == 'l' && lower[5] == 'b');
    }
    if lower == "lightmagenta"@ {
        assert(lower.len() == 12 && lower[0] == 'l' && lower[5] == 'm');
    }
    if lower == "lightcyan"@ {
        assert(lower.len() == 9 && lower[0] == 'l' && lower[5] == 'c');
    }
    if lower == "white"@ {
        assert(lower.len() == 5 && lower[0] == 'w');
    }
    if lower == "reset"@ {
        assert(lower.len() == 5 && lower[0] == 'r');
    }
}

/// The hex form cannot be cut into its three pairs: a pair boundary falls inside a character.
pub open spec fn parse_color_panics(s: Seq<char>) -> bool {
    !is_color_name(str_lowercase(s)) && is_hex_form(s) && !hex_form_sliceable(s)
}

fn hex_value_of(c: char) -> (r: Option<u8>)
    ensures
        match hex_value(c) {
            Some(v) => r == Some(v as u8),
            None => r is None,
        },
{
    if '0' <= c && c <= '9' {
        Some(((c as u32) - ('0' as u32)) as u8)
    } else if 'a' <= c && c <= 'f' {
        Some(((c as u32) - ('a' as u32) + 10) as u8)
    } else if 'A' <= c && c <= 'F' {
        Some(((c as u32) - ('A' as u32) + 10) as u8)
    } else {
        None
    }
}

fn hex_pair_of(a: char, b: char) -> (v: u8)
    ensures
        v == hex_pair_value(a, b),
{
    match (hex_value_of(a), hex_value_of(b)) {
        (Some(x), Some(y)) => 16 * x + y,
        (None, Some(y)) => if a == '+' {
            y
        } else {
            255
        },
        _ => 255,
    }
}

/// Reads one colour component at character index `i` of `s`; returns it and the index after it.
fn read_pair(s: &Vec<char>, i: usize) -> (r: (u8, usize))
    requires
        i <= s.len(),
        pair_ok(s@.skip(i as int)),
    ensures
        r.0 == pair_value(s@.skip(i as int)),
        r.1 <= s.len(),
        s@.skip(r.1 as int) == pair_rest(s@.skip(i as int)),
{
    let ghost t = s@.skip(i as int);
    assert(t[0] == s@[i as int]);
    if char_width_of(s[i]) == 1 {
        assert(t[1] == s@[i + 1]);
        assert(s@.skip(i + 2) =~= t.skip(2));
        (hex_pair_of(s[i], s[i + 1]), i + 2)
    } else {
        assert(s@.skip(i + 1) =~= t.skip(1));
        (255, i + 1)
    }
}

/// Parses a colour name (any case) or a `#rrggbb` form; anything else gives `Reset`.
pub fn parse_color(color_str: &str) -> (c: Color)
    requires
        !parse_color_panics(color_str@),
    ensures
        c == color_for(str_lowercase(color_str@), color_str@),
{
    let lower = to_lowercase(color_str);
    let l = lower.as_str();
    if str_eq(l, "black") {
        Color::Black
    } else if str_eq(l, "red") {
        Color::Red
    } else if str_eq(l, "green") {
        Color::Green
    } else if str_eq(l, "yellow") {
        Color::Yellow
    } else if str_eq(l, "blue") {
        Color::Blue
    } else if str_eq(l, "magenta") {
        Color::Magenta
    } else if str_eq(l, "cyan") {
        Color::Cyan
    } else if str_eq(l, "gray") {
        Color::Gray
    } else if str_eq(l, "darkgray") {
        Color::DarkGray
    } else if str_eq(l, "lightred") {
        Color::LightRed
    } else if str_eq(l, "lightgreen") {
        Color::LightGreen
    } else if str_eq(l, "lightyellow") {
        Color::LightYellow
    } else if str_eq(l, "lightblue") {
        Color::LightBlue
    } else if str_eq(l, "lightmagenta") {
        Color::LightMagenta
    } else if str_eq(l, "lightcyan") {
        Color::LightCyan
    } else if str_eq(l, "white") {
        Color::White
    } else if str_eq(l, "reset") {
        Color::Reset
    } else {
        let s = chars_of(color_str);
        proof {
            crate::text::lemma_byte_len_le_4len(s@);
        }
        if s.len() >= 1 && s[0] == '#' && s.len() <= 7 && byte_length(&s) == 7 {
            assert(s@.skip(1) =~= s@.drop_first());
            let (r, i1) = read_pair(&s, 1);
            let (g, i2) = read_pair(&s, i1);
            let (b, _i3) = read_pair(&s, i2);
            Color::Rgb(r, g, b)
        } else {
            proof {
                if s.len() > 7 {
                    crate::text::lemma_byte_len_ge_len(s@);
                }
            }
            Color::Reset
        }
    }
}

/// Whether `lower` is one of the colour names.
fn is_color_name_str(lower: &str) -> (b: bool)
    ensures
        b == is_color_name(lower@),
{
    str_eq(lower, "black") || str_eq(lower, "red") || str_eq(lower, "green") || str_eq(lower, "yellow") || str_eq(lower, "blue") || str_eq(lower, "magenta") || str_eq(lower, "cyan") || str_eq(lower, "gray") || str_eq(lower, "darkgray") || str_eq(lower, "lightred") || str_eq(lower, "lightgreen") || str_eq(lower, "lightyellow") || str_eq(lower, "lightblue") || str_eq(lower, "lightmagenta") || str_eq(lower, "lightcyan") || str_eq(lower, "white") || str_eq(lower, "reset")
}

/// Whether the next two bytes from character index `i` of `s` can be sliced
/// off at character boundaries; if so, the index after them.
fn pair_end(s: &Vec<char>, i: usize) -> (r: Option<usize>)
    requires
        i <= s.len(),
    ensures
        match r {
            Some(j) => pair_ok(s@.skip(i as int)) && j <= s.len() && s@.skip(j as int) == pair_rest(
                s@.skip(i as int),
            ),
            None => !pair_ok(s@.skip(i as int)),
        },
{
    let ghost t = s@.skip(i as int);
    if i >= s.len() {
        return None;
    }
    assert(t[0] == s@[i as int]);
    let w = char_width_of(s[i]);
    if w == 1 {
        if i + 1 < s.len() && char_width_of(s[i + 1]) == 1 {
            assert(t[1] == s@[i + 1]);
            assert(s@.skip(i + 2) =~= t.skip(2));
            Some(i + 2)
        } else {
            None
        }
    } else if w == 2 {
        assert(s@.skip(i + 1) =~= t.skip(1));
        Some(i + 1)
    } else {
        None
    }
}

/// Parses a colour as `parse_color` does, or returns `None` for a `#` form
/// whose three pairs would cut a character.
pub fn try_parse_color(color_str: &str) -> (r: Option<Color>)
    ensures
        r is None <==> parse_color_panics(color_str@),
        r matches Some(c) ==> c == color_for(str_lowercase(color_str@), color_str@),
{
    let lower = to_lowercase(color_str);
    if !is_color_name_str(lower.as_str()) {
        let s = chars_of(color_str);
        proof {
            crate::text::lemma_byte_len_le_4len(s@);
        }
        if s.len() >= 1 && s[0] == '#' && s.len() <= 7 && byte_length(&s) == 7 {
            assert(s@.skip(1) =~= s@.drop_first());
            let sliceable = match pair_end(&s, 1) {
                Some(i2) => match pair_end(&s, i2) {
                    Some(i3) => pair_end(&s, i3).is_some(),
                    None => false,
                },
                None => false,
            };
            if !sliceable {
                return None;
            }
        } else {
            proof {
                if s.len() > 7 {
                    crate::text::lemma_byte_len_ge_len(s@);
                }
            }
        }
    }
    Some(parse_color(color_str))
}

} // verus!
