//! Text helpers shared by the library: UTF-8 byte widths of characters,
//! decimal and hexadecimal rendering, substring tests, and the few std
//! string functions that the rest of the crate relies on.
use vstd::prelude::*;

verus! {

// ---------------------------------------------------------------------------
// UTF-8 byte widths
// ---------------------------------------------------------------------------

/// Number of bytes of the UTF-8 encoding of `c`.
pub open spec fn char_width(c: char) -> nat {
    if (c as u32) < 0x80 {
        1
    } else if (c as u32) < 0x800 {
        2
    } else if (c as u32) < 0x10000 {
        3
    } else {
        4
    }
}

/// Number of bytes of the UTF-8 encoding of `s` (what `str::len` returns).
pub open spec fn byte_len(s: Seq<char>) -> nat
    decreases s.len(),
{
    if s.len() == 0 {
        0
    } else {
        byte_len(s.drop_last()) + char_width(s.last())
    }
}

/// `x` is a byte offset of `s` at which a character starts, or the end of `s`.
pub open spec fn is_boundary(s: Seq<char>, x: int) -> bool {
    exists|k: int| 0 <= k <= s.len() && #[trigger] byte_len(s.take(k)) == x
}

/// The character index of the boundary at byte offset `x`.
pub open spec fn index_of_boundary(s: Seq<char>, x: int) -> int {
    choose|k: int| 0 <= k <= s.len() && #[trigger] byte_len(s.take(k)) == x
}

pub proof fn lemma_byte_len_concat(a: Seq<char>, b: Seq<char>)
    ensures
        byte_len(a + b) == byte_len(a) + byte_len(b),
    decreases b.len(),
{
    if b.len() == 0 {
        assert(a + b =~= a);
    } else {
        lemma_byte_len_concat(a, b.drop_last());
        assert((a + b).drop_last() =~= a + b.drop_last());
        assert((a + b).last() == b.last());
    }
}

pub proof fn lemma_byte_len_take_step(s: Seq<char>, k: int)
    requires
        0 <= k < s.len(),
    ensures
        byte_len(s.take(k + 1)) == byte_len(s.take(k)) + char_width(s[k]),
{
    assert(s.take(k + 1).drop_last() =~= s.take(k));
}

pub proof fn lemma_byte_len_single(c: char)
    ensures
        byte_len(seq![c]) == char_width(c),
{
    assert(seq![c].drop_last() =~= Seq::<char>::empty());
    assert(seq![c].last() == c);
    assert(byte_len(Seq::<char>::empty()) == 0);
}

/// Byte lengths of prefixes grow strictly with the prefix.
pub proof fn lemma_byte_len_take_strict(s: Seq<char>, i: int, j: int)
    requires
        0 <= i < j <= s.len(),
    ensures
        byte_len(s.take(i)) < byte_len(s.take(j)),
    decreases j - i,
{
    lemma_byte_len_take_step(s, j - 1);
    if i < j - 1 {
        lemma_byte_len_take_strict(s, i, j - 1);
    }
}

pub proof fn lemma_byte_len_take_le(s: Seq<char>, i: int, j: int)
    requires
        0 <= i <= j <= s.len(),
    ensures
        byte_len(s.take(i)) <= byte_len(s.take(j)),
{
    if i < j {
        lemma_byte_len_take_strict(s, i, j);
    }
}

pub proof fn lemma_take_full(s: Seq<char>)
    ensures
        s.take(s.len() as int) =~= s,
{
}

/// The boundary at byte offset `x` sits at exactly one character index.
pub proof fn lemma_boundary_unique(s: Seq<char>, k: int, x: int)
    requires
        0 <= k <= s.len(),
        byte_len(s.take(k)) == x,
    ensures
        is_boundary(s, x),
        index_of_boundary(s, x) == k,
{
    let j = index_of_boundary(s, x);
    if j < k {
        lemma_byte_len_take_strict(s, j, k);
    } else if k < j {
        lemma_byte_len_take_strict(s, k, j);
    }
}

/// A byte offset inside the string is a boundary when the characters in front of it are exactly `a`.
/// Byte length is at least the number of characters.
pub proof fn lemma_byte_len_ge_len(s: Seq<char>)
    ensures
        s.len() <= byte_len(s),
    decreases s.len(),
{
    if s.len() > 0 {
        lemma_byte_len_ge_len(s.drop_last());
    }
}

/// Byte length is at most four bytes per character.
pub proof fn lemma_byte_len_le_4len(s: Seq<char>)
    ensures
        byte_len(s) <= 4 * s.len(),
    decreases s.len(),
{
    if s.len() > 0 {
        lemma_byte_len_le_4len(s.drop_last());
    }
}

/// An ASCII-only string has one byte per character.
pub proof fn lemma_byte_len_ascii(s: Seq<char>)
    requires
        forall|i: int| 0 <= i < s.len() ==> (s[i] as u32) < 0x80,
    ensures
        byte_len(s) == s.len(),
    decreases s.len(),
{
    if s.len() > 0 {
        lemma_byte_len_ascii(s.drop_last());
    }
}

/// Width in bytes of one character.
pub fn char_width_of(c: char) -> (w: usize)
    ensures
        w == char_width(c),
{
    let u = c as u32;
    if u < 0x80 {
        1
    } else if u < 0x800 {
        2
    } else if u < 0x10000 {
        3
    } else {
        4
    }
}

/// UTF-8 byte length of a character sequence.
pub fn byte_length(s: &Vec<char>) -> (n: usize)
    requires
        byte_len(s@) <= usize::MAX,
    ensures
        n == byte_len(s@),
{
    let mut n: usize = 0;
    let mut k: usize = 0;
    while k < s.len()
        invariant
            0 <= k <= s.len(),
            n == byte_len(s@.take(k as int)),
            byte_len(s@) <= usize::MAX,
        decreases s.len() - k,
    {
        proof {
            lemma_byte_len_take_step(s@, k as int);
            lemma_byte_len_take_le(s@, k as int + 1, s.len() as int);
            lemma_take_full(s@);
        }
        n = n + char_width_of(s[k]);
        k = k + 1;
    }
    proof {
        lemma_take_full(s@);
    }
    n
}

/// Whether the UTF-8 byte length of `s` is at most `bound`.
pub fn byte_length_at_most(s: &Vec<char>, bound: usize) -> (b: bool)
    ensures
        b == (byte_len(s@) <= bound),
{
    let mut n: usize = 0;
    let mut k: usize = 0;
    while k < s.len()
        invariant
            0 <= k <= s.len(),
            n == byte_len(s@.take(k as int)),
            n <= bound,
        decreases s.len() - k,
    {
        proof {
            lemma_byte_len_take_step(s@, k as int);
        }
        let w = char_width_of(s[k]);
        if w > bound - n {
            proof {
                lemma_byte_len_take_le(s@, k as int + 1, s.len() as int);
                lemma_take_full(s@);
            }
            return false;
        }
        n = n + w;
        k = k + 1;
    }
    proof {
        lemma_take_full(s@);
    }
    true
}

/// The character index that starts at byte offset `x`, if `x` is a boundary.
pub fn index_at_byte(s: &Vec<char>, x: usize) -> (r: Option<usize>)
    requires
        byte_len(s@) <= usize::MAX,
    ensures
        match r {
            Some(k) => k <= s.len() && byte_len(s@.take(k as int)) == x && is_boundary(s@, x as int)
                && index_of_boundary(s@, x as int) == k,
            None => !is_boundary(s@, x as int),
        },
{
    let mut n: usize = 0;
    let mut k: usize = 0;
    while k < s.len()
        invariant
            0 <= k <= s.len(),
            n == byte_len(s@.take(k as int)),
            byte_len(s@) <= usize::MAX,
            forall|j: int| 0 <= j < k ==> byte_len(#[trigger] s@.take(j)) < x,
        decreases s.len() - k,
    {
        if n == x {
            proof {
                lemma_boundary_unique(s@, k as int, x as int);
            }
            return Some(k);
        }
        if n > x {
            proof {
                assert forall|j: int| 0 <= j <= s.len() implies byte_len(#[trigger] s@.take(j))
                    != x by {
                    if j > k {
                        lemma_byte_len_take_strict(s@, k as int, j);
                    }
                }
            }
            return None;
        }
        proof {
            lemma_byte_len_take_step(s@, k as int);
            lemma_byte_len_take_le(s@, k as int + 1, s.len() as int);
            lemma_take_full(s@);
        }
        n = n + char_width_of(s[k]);
        k = k + 1;
    }
    if n == x {
        proof {
            lemma_boundary_unique(s@, k as int, x as int);
        }
        Some(k)
    } else {
        proof {
            assert forall|j: int| 0 <= j <= s.len() implies byte_len(#[trigger] s@.take(j)) != x by {
                if j == k {
                } else {
                    assert(j < k);
                }
            }
        }
        None
    }
}

// ---------------------------------------------------------------------------
// Building strings
// ---------------------------------------------------------------------------

/// Appends one character to a string (`String::push`).
#[verifier::external_body]
pub(crate) fn push_char(s: &mut String, c: char)
    ensures
        final(s)@ == old(s)@.push(c),
{
    s.push(c);
}

/// The characters of a string, in order.
pub fn chars_of(s: &str) -> (v: Vec<char>)
    ensures
        v@ == s@,
{
    let mut v: Vec<char> = Vec::new();
    for c in it: s.chars()
        invariant
            v@ == it.seq().take(it.index() as int),
    {
        v.push(c);
    }
    v
}

/// A string holding the given characters.
pub fn string_of_chars(v: &Vec<char>) -> (s: String)
    ensures
        s@ == v@,
{
    let mut s = String::new();
    let mut i: usize = 0;
    while i < v.len()
        invariant
            0 <= i <= v.len(),
            s@ == v@.take(i as int),
        decreases v.len() - i,
    {
        push_char(&mut s, v[i]);
        proof {
            assert(v@.take(i as int).push(v@[i as int]) =~= v@.take(i as int + 1));
        }
        i = i + 1;
    }
    proof {
        assert(v@.take(v.len() as int) =~= v@);
    }
    s
}

/// A string holding a copy of the given text.
pub fn string_of(s: &str) -> (r: String)
    ensures
        r@ == s@,
{
    let mut r = String::new();
    r.append(s);
    r
}

/// `a` followed by `b`.
pub fn concat2(a: &str, b: &str) -> (r: String)
    ensures
        r@ == a@ + b@,
{
    let mut r = string_of(a);
    r.append(b);
    r
}

/// `a` followed by `b` and `c`.
pub fn concat3(a: &str, b: &str, c: &str) -> (r: String)
    ensures
        r@ == a@ + b@ + c@,
{
    let mut r = concat2(a, b);
    r.append(c);
    r
}

// ---------------------------------------------------------------------------
// Numbers as text
// ---------------------------------------------------------------------------

/// The decimal digit character for `d < 10`.
pub open spec fn digit_char(d: nat) -> char {
    if d == 0 {
        '0'
    } else if d == 1 {
        '1'
    } else if d == 2 {
        '2'
    } else if d == 3 {
        '3'
    } else if d == 4 {
        '4'
    } else if d == 5 {
        '5'
    } else if d == 6 {
        '6'
    } else if d == 7 {
        '7'
    } else if d == 8 {
        '8'
    } else {
        '9'
    }
}

/// Decimal rendering of `n`, without leading zeros (what `{}` prints for an integer).
pub open spec fn decimal(n: nat) -> Seq<char>
    decreases n,
{
    if n < 10 {
        seq![digit_char(n)]
    } else {
        decimal(n / 10).push(digit_char(n % 10))
    }
}

/// Lower-case hexadecimal digit for `d < 16`.
pub open spec fn hex_digit(d: nat) -> char {
    if d < 10 {
        digit_char(d)
    } else if d == 10 {
        'a'
    } else if d == 11 {
        'b'
    } else if d == 12 {
        'c'
    } else if d == 13 {
        'd'
    } else if d == 14 {
        'e'
    } else {
        'f'
    }
}

/// Lower-case hexadecimal rendering of a byte string, two digits per byte
/// (what `{:x}` prints for a digest).
pub open spec fn hex_lower(bytes: Seq<u8>) -> Seq<char>
    decreases bytes.len(),
{
    if bytes.len() == 0 {
        Seq::empty()
    } else {
        hex_lower(bytes.drop_last()).push(hex_digit((bytes.last() / 16) as nat)).push(
            hex_digit((bytes.last() % 16) as nat),
        )
    }
}

pub fn digit_char_of(d: u64) -> (c: char)
    requires
        d < 10,
    ensures
        c == digit_char(d as nat),
{
    if d == 0 {
        '0'
    } else if d == 1 {
        '1'
    } else if d == 2 {
        '2'
    } else if d == 3 {
        '3'
    } else if d == 4 {
        '4'
    } else if d == 5 {
        '5'
    } else if d == 6 {
        '6'
    } else if d == 7 {
        '7'
    } else if d == 8 {
        '8'
    } else {
        '9'
    }
}

pub fn hex_digit_of(d: u8) -> (c: char)
    requires
        d < 16,
    ensures
        c == hex_digit(d as nat),
{
    if d < 10 {
        digit_char_of(d as u64)
    } else if d == 10 {
        'a'
    } else if d == 11 {
        'b'
    } else if d == 12 {
        'c'
    } else if d == 13 {
        'd'
    } else if d == 14 {
        'e'
    } else {
        'f'
    }
}

/// Appends the decimal rendering of `n`.
pub fn push_decimal(s: &mut String, n: u64)
    ensures
        final(s)@ == old(s)@ + decimal(n as nat),
    decreases n,
{
    if n >= 10 {
        push_decimal(s, n / 10);
    }
    push_char(s, digit_char_of(n % 10));
    proof {
        assert(final(s)@ =~= old(s)@ + decimal(n as nat));
    }
}

/// Lower-case hexadecimal rendering of a byte string.
pub fn hex_string(bytes: &Vec<u8>) -> (s: String)
    ensures
        s@ == hex_lower(bytes@),
{
    let mut s = String::new();
    let mut i: usize = 0;
    while i < bytes.len()
        invariant
            0 <= i <= bytes.len(),
            s@ == hex_lower(bytes@.take(i as int)),
        decreases bytes.len() - i,
    {
        let b = bytes[i];
        push_char(&mut s, hex_digit_of(b / 16));
        push_char(&mut s, hex_digit_of(b % 16));
        proof {
            let t = bytes@.take(i as int + 1);
            assert(t.drop_last() =~= bytes@.take(i as int));
            assert(t.last() == b);
        }
        i = i + 1;
    }
    proof {
        assert(bytes@.take(bytes.len() as int) =~= bytes@);
    }
    s
}

/// The hexadecimal rendering has two digits per byte.
pub proof fn lemma_hex_lower_len(bytes: Seq<u8>)
    ensures
        hex_lower(bytes).len() == 2 * bytes.len(),
    decreases bytes.len(),
{
    if bytes.len() > 0 {
        lemma_hex_lower_len(bytes.drop_last());
    }
}

// ---------------------------------------------------------------------------
// Substrings
// ---------------------------------------------------------------------------

/// `s` begins with `p`.
pub open spec fn has_prefix(s: Seq<char>, p: Seq<char>) -> bool {
    p.len() <= s.len() && s.take(p.len() as int) == p
}

/// `s` ends with `p`.
pub open spec fn has_suffix(s: Seq<char>, p: Seq<char>) -> bool {
    p.len() <= s.len() && s.skip(s.len() - p.len()) == p
}

/// `p` occurs in `s` (an empty `p` occurs everywhere).
pub open spec fn has_substring(s: Seq<char>, p: Seq<char>) -> bool {
    exists|i: int| 0 <= i && i + p.len() <= s.len() && #[trigger] s.subrange(i, i + p.len()) == p
}

/// Whether the characters of `p` stand in `s` at position `i`.
fn matches_at(s: &Vec<char>, p: &Vec<char>, i: usize) -> (b: bool)
    requires
        i + p.len() <= s.len(),
    ensures
        b == (s@.subrange(i as int, i + p.len()) == p@),
{
    let mut j: usize = 0;
    while j < p.len()
        invariant
            0 <= j <= p.len(),
            i + p.len() <= s.len(),
            forall|t: int| 0 <= t < j ==> s@[i + t] == p@[t],
        decreases p.len() - j,
    {
        if s[i + j] != p[j] {
            proof {
                assert(s@.subrange(i as int, i + p.len())[j as int] != p@[j as int]);
            }
            return false;
        }
        j = j + 1;
    }
    proof {
        assert(s@.subrange(i as int, i + p.len()) =~= p@);
    }
    true
}

/// Whether `s` begins with `p`.
pub fn starts_with_chars(s: &Vec<char>, p: &Vec<char>) -> (b: bool)
    ensures
        b == has_prefix(s@, p@),
{
    if p.len() > s.len() {
        return false;
    }
    let b = matches_at(s, p, 0);
    proof {
        assert(s@.subrange(0, p.len() as int) =~= s@.take(p.len() as int));
    }
    b
}

/// Whether `s` ends with `p`.
pub fn ends_with_chars(s: &Vec<char>, p: &Vec<char>) -> (b: bool)
    ensures
        b == has_suffix(s@, p@),
{
    if p.len() > s.len() {
        return false;
    }
    let b = matches_at(s, p, s.len() - p.len());
    proof {
        assert(s@.subrange(s.len() - p.len(), s.len() as int) =~= s@.skip(s.len() - p.len()));
    }
    b
}

/// Whether `p` occurs in `s`.
pub fn contains_chars(s: &Vec<char>, p: &Vec<char>) -> (b: bool)
    ensures
        b == has_substring(s@, p@),
{
    if p.len() > s.len() {
        return false;
    }
    let last = s.len() - p.len();
    let mut i: usize = 0;
    loop
        invariant
            last + p.len() == s.len(),
            0 <= i <= last,
            forall|t: int| 0 <= t < i ==> #[trigger] s@.subrange(t, t + p.len()) != p@,
        decreases last - i,
    {
        if matches_at(s, p, i) {
            return true;
        }
        if i == last {
            return false;
        }
        i = i + 1;
    }
}

/// Whether the string `s` begins with `p`.
pub fn str_starts_with(s: &str, p: &str) -> (b: bool)
    ensures
        b == has_prefix(s@, p@),
{
    starts_with_chars(&chars_of(s), &chars_of(p))
}

/// Whether the string `s` ends with `p`.
pub fn str_ends_with(s: &str, p: &str) -> (b: bool)
    ensures
        b == has_suffix(s@, p@),
{
    ends_with_chars(&chars_of(s), &chars_of(p))
}

/// Whether two strings hold the same characters.
pub fn str_eq(a: &str, b: &str) -> (r: bool)
    ensures
        r == (a@ == b@),
{
    let x = chars_of(a);
    let y = chars_of(b);
    if x.len() != y.len() {
        return false;
    }
    let r = starts_with_chars(&x, &y);
    proof {
        assert(x@ =~= x@.take(y.len() as int));
    }
    r
}

/// The string without its last character (unchanged when empty), as `String::pop` leaves it.
pub fn without_last(s: &str) -> (r: String)
    ensures
        r@ == if s@.len() > 0 {
            s@.drop_last()
        } else {
            s@
        },
{
    let mut v = chars_of(s);
    if v.len() > 0 {
        v.pop();
    }
    let r = string_of_chars(&v);
    proof {
        if s@.len() > 0 {
            assert(v@ =~= s@.drop_last());
        }
    }
    r
}

/// The string with one character appended.
pub fn with_char(s: &str, c: char) -> (r: String)
    ensures
        r@ == s@.push(c),
{
    let mut r = string_of(s);
    push_char(&mut r, c);
    r
}

/// The four characters `.enc`.
pub open spec fn enc_marker() -> Seq<char> {
    seq!['.', 'e', 'n', 'c']
}

/// `s` with every `.enc` removed, scanning from the left (`str::replace(".enc", "")`).
pub open spec fn remove_enc(s: Seq<char>) -> Seq<char>
    decreases s.len(),
{
    if s.len() == 0 {
        s
    } else if has_prefix(s, enc_marker()) {
        remove_enc(s.skip(4))
    } else {
        seq![s[0]] + remove_enc(s.drop_first())
    }
}

/// `s` with every `.enc` removed.
pub fn remove_enc_marker(s: &str) -> (r: String)
    ensures
        r@ == remove_enc(s@),
{
    let v = chars_of(s);
    let mut out: Vec<char> = Vec::new();
    let mut i: usize = 0;
    proof {
        assert(v@.skip(0) =~= v@);
    }
    while i < v.len()
        invariant
            0 <= i <= v.len(),
            out@ + remove_enc(v@.skip(i as int)) == remove_enc(v@),
        decreases v.len() - i,
    {
        let ghost rest = v@.skip(i as int);
        if v.len() - i >= 4 && v[i] == '.' && v[i + 1] == 'e' && v[i + 2] == 'n' && v[i + 3] == 'c' {
            proof {
                assert(rest.take(4) =~= enc_marker());
                assert(rest.skip(4) =~= v@.skip(i + 4));
            }
            i = i + 4;
        } else {
            proof {
                if has_prefix(rest, enc_marker()) {
                    assert(rest.take(4)[0] == v@[i as int]);
                    assert(rest.take(4)[1] == v@[i + 1]);
                    assert(rest.take(4)[2] == v@[i + 2]);
                    assert(rest.take(4)[3] == v@[i + 3]);
                }
                assert(rest.drop_first() =~= v@.skip(i + 1));
                assert(rest[0] == v@[i as int]);
                assert(out@.push(v@[i as int]) + remove_enc(v@.skip(i + 1)) =~= out@ + (seq![
                    rest[0],
                ] + remove_enc(rest.drop_first())));
            }
            out.push(v[i]);
            i = i + 1;
        }
    }
    proof {
        assert(v@.skip(v.len() as int) =~= Seq::<char>::empty());
        assert(out@ + Seq::<char>::empty() =~= out@);
    }
    string_of_chars(&out)
}

// ---------------------------------------------------------------------------
// Case mapping
// ---------------------------------------------------------------------------

/// What `str::to_lowercase` returns for a string (Unicode lower-case mapping).
pub uninterp spec fn str_lowercase(s: Seq<char>) -> Seq<char>;

/// `str::to_lowercase`: the Unicode lower-case form of `s`.  The contract
/// names the result and claims only that it depends on `s` alone; the
/// Unicode mapping itself is not stated.
#[verifier::external_body]
pub(crate) fn to_lowercase(s: &str) -> (r: String)
    ensures
        r@ == str_lowercase(s@),
{
    s.to_lowercase()
}

} // verus!
