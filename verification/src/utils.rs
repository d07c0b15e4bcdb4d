//! The in-application clipboard and the human-readable file size.
use vstd::prelude::*;
use crate::text::{decimal, digit_char, digit_char_of, has_suffix, push_char, push_decimal};

verus! {

/// The in-application clipboard: a text slot and a file slot with a cut flag.
pub struct Clipboard {
    pub content: String,
    pub is_cut: bool,
    pub source_path: Option<String>,
}

impl Clipboard {
    /// An empty clipboard.
    pub fn new() -> (c: Self)
        ensures
            c.content@ == Seq::<char>::empty(),
            !c.is_cut,
            c.source_path is None,
    {
        Clipboard { content: String::new(), is_cut: false, source_path: None }
    }

    /// Stores text; the file slot is left alone.
    pub fn set_text(&mut self, text: String)
        ensures
            final(self).content == text,
            final(self).is_cut == old(self).is_cut,
            final(self).source_path == old(self).source_path,
    {
        self.content = text;
    }

    /// The stored text.
    pub fn get_text(&self) -> (t: String)
        ensures
            t == self.content,
    {
        self.content.clone()
    }

    /// Stores a file to copy (or to move, when `cut`); the text slot is left alone.
    pub fn set_file(&mut self, path: String, cut: bool)
        ensures
            final(self).source_path == Some(path),
            final(self).is_cut == cut,
            final(self).content == old(self).content,
    {
        self.source_path = Some(path);
        self.is_cut = cut;
    }

    /// The stored file and whether it was cut.
    pub fn get_file(&self) -> (r: Option<(String, bool)>)
        ensures
            match self.source_path {
                Some(p) => r == Some((p, self.is_cut)),
                None => r is None,
            },
    {
        match &self.source_path {
            Some(p) => Some((p.clone(), self.is_cut)),
            None => None,
        }
    }

    /// Forgets the stored file; the text slot is left alone.
    pub fn clear_file(&mut self)
        ensures
            final(self).source_path is None,
            !final(self).is_cut,
            final(self).content == old(self).content,
    {
        self.source_path = None;
        self.is_cut = false;
    }
}

// ---------------------------------------------------------------------------
// File sizes
// ---------------------------------------------------------------------------

pub open spec fn pow2(e: nat) -> nat
    decreases e,
{
    if e == 0 {
        1
    } else {
        2 * pow2((e - 1) as nat)
    }
}

/// `n / d` rounded to the nearest integer, ties to the even one.
pub open spec fn round_half_even(n: nat, d: nat) -> nat
    recommends
        d > 0,
{
    let q = n / d;
    let r = n % d;
    if 2 * r > d {
        q + 1
    } else if 2 * r < d {
        q
    } else if q % 2 == 0 {
        q
    } else {
        q + 1
    }
}

/// How many low bits of `n` a 53-bit significand cannot hold.
pub open spec fn dropped_bits(n: nat) -> nat
    decreases n,
{
    if n < 9007199254740992 {
        0
    } else {
        1 + dropped_bits(n / 2)
    }
}

/// The value of `n as f64`: `n` rounded to 53 significant bits, ties to even.
pub open spec fn as_f64_value(n: nat) -> nat {
    let d = pow2(dropped_bits(n));
    round_half_even(n, d) * d
}

/// The size in units of `unit` bytes, in hundredths, as `{:.2}` rounds the
/// quotient `size as f64 / unit as f64` (exact, as `unit` is a power of two).
pub open spec fn hundredths(size: nat, unit: nat) -> nat {
    round_half_even(as_f64_value(size) * 100, unit)
}

/// `h` hundredths written with two decimals.
pub open spec fn two_decimals(h: nat) -> Seq<char> {
    decimal(h / 100) + seq!['.', digit_char((h / 10) % 10), digit_char(h % 10)]
}

/// What `format_size` prints for `size` bytes.
pub open spec fn size_text(size: nat) -> Seq<char> {
    if size >= pow2(30) {
        two_decimals(hundredths(size, pow2(30))) + " GB"@
    } else if size >= pow2(20) {
        two_decimals(hundredths(size, pow2(20))) + " MB"@
    } else if size >= pow2(10) {
        two_decimals(hundredths(size, pow2(10))) + " KB"@
    } else {
        decimal(size) + " B"@
    }
}

proof fn lemma_pow2_values()
    ensures
        pow2(10) == 1024,
        pow2(20) == 1048576,
        pow2(30) == 1073741824,
        pow2(53) == 9007199254740992,
{
    reveal_with_fuel(pow2, 54);
}

proof fn lemma_pow2_pos(e: nat)
    ensures
        pow2(e) >= 1,
    decreases e,
{
    if e > 0 {
        lemma_pow2_pos((e - 1) as nat);
    }
}

/// The unit a size of at least 1024 bytes is written in: 1024^3 (GB),
/// 1024^2 (MB) or 1024 (KB).
pub open spec fn size_unit(size: nat) -> nat {
    if size >= pow2(30) {
        pow2(30)
    } else if size >= pow2(20) {
        pow2(20)
    } else {
        pow2(10)
    }
}

/// Rounding to the nearest multiple of `d` is off by at most half of `d`.
proof fn lemma_round_half_even_close(n: nat, d: nat)
    requires
        d > 0,
    ensures
        n / d <= round_half_even(n, d) <= n / d + 1,
        -(d as int) <= 2 * (round_half_even(n, d) * d - n) <= d,
{
    let q = n / d;
    let r = n % d;
    vstd::arithmetic::div_mod::lemma_fundamental_div_mod(n as int, d as int);
    vstd::arithmetic::div_mod::lemma_mod_bound(n as int, d as int);
    let h = round_half_even(n, d);
    assert(-(d as int) <= 2 * (h * d - n) <= d) by (nonlinear_arith)
        requires
            n == d * q + r,
            0 <= r < d,
            h == q || h == q + 1,
            h == q ==> 2 * r <= d,
            h == q + 1 ==> 2 * r >= d,
    ;
}

proof fn lemma_pow2_mono(a: nat, b: nat)
    requires
        a <= b,
    ensures
        pow2(a) <= pow2(b),
    decreases b,
{
    if a < b {
        lemma_pow2_mono(a, (b - 1) as nat);
        lemma_pow2_pos((b - 1) as nat);
    }
}

/// Below 2^(53 + k), `f64` drops at most `k` low bits.
proof fn lemma_dropped_bits_bound(n: nat, k: nat)
    requires
        n < 9007199254740992 * pow2(k),
    ensures
        dropped_bits(n) <= k,
    decreases k,
{
    if n >= 9007199254740992 {
        if k == 0 {
            assert(pow2(0) == 1);
        } else {
            assert(pow2(k) == 2 * pow2((k - 1) as nat));
            lemma_dropped_bits_bound(n / 2, (k - 1) as nat);
        }
    }
}

/// Whether `t` ends in `p` is settled by one position where they differ.
proof fn lemma_suffix_differs(t: Seq<char>, p: Seq<char>, k: int)
    requires
        0 <= k < p.len() <= t.len(),
        t[t.len() - p.len() + k] != p[k],
    ensures
        !has_suffix(t, p),
{
    if has_suffix(t, p) {
        assert(t.skip(t.len() - p.len())[k] == t[t.len() - p.len() + k]);
    }
}

/// The unit of a size text is settled by the size: ` B` below 1024 (the
/// size itself in decimal), ` KB` below 1024^2, ` MB` below 1024^3, ` GB` above.
pub proof fn law_size_text_suffix(size: u64)
    ensures
        has_suffix(size_text(size as nat), " B"@) <==> size < 1024,
        size < 1024 ==> size_text(size as nat) == decimal(size as nat) + " B"@,
        has_suffix(size_text(size as nat), " KB"@) <==> 1024 <= size < 1048576,
        has_suffix(size_text(size as nat), " MB"@) <==> 1048576 <= size < 1073741824,
        has_suffix(size_text(size as nat), " GB"@) <==> size >= 1073741824,
{
    lemma_pow2_values();
    reveal_strlit(" B");
    reveal_strlit(" KB");
    reveal_strlit(" MB");
    reveal_strlit(" GB");
    let t = size_text(size as nat);
    if size < 1024 {
        let a = decimal(size as nat);
        assert(a.len() >= 1);
        assert(a.last() != ' ');
        assert(t.skip(t.len() - 2) =~= " B"@);
        assert(t[t.len() - 3] == a.last());
        lemma_suffix_differs(t, " KB"@, 0);
        lemma_suffix_differs(t, " MB"@, 0);
        lemma_suffix_differs(t, " GB"@, 0);
    } else {
        let u = size_unit(size as nat);
        let a = two_decimals(hundredths(size as nat, u));
        assert(a.len() >= 3);
        let unit = if size >= 1073741824 {
            " GB"@
        } else if size >= 1048576 {
            " MB"@
        } else {
            " KB"@
        };
        assert(t == a + unit);
        assert(t.skip(t.len() - 3) =~= unit);
        assert(t[t.len() - 2] == unit[1]);
        lemma_suffix_differs(t, " B"@, 0);
        if unit != " KB"@ {
            lemma_suffix_differs(t, " KB"@, 1);
        }
        if unit != " MB"@ {
            lemma_suffix_differs(t, " MB"@, 1);
        }
        if unit != " GB"@ {
            lemma_suffix_differs(t, " GB"@, 1);
        }
    }
}

/// A size of at least 1 KiB is written as its value in the unit, with two
/// decimals, that is at most half a hundredth away from the size taken as
/// `f64` (which is the size itself below 2^53).  From the size itself it is
/// at most half a hundredth plus 1024 bytes' worth of the unit away (the
/// most that `f64` rounding moves a `u64`).  The value is at least 1.00, and
/// in KB and MB it is at most 1024.00.
pub proof fn law_size_text_within_half_hundredth(size: u64)
    requires
        size >= 1024,
    ensures
        size_text(size as nat) == two_decimals(hundredths(size as nat, size_unit(size as nat))) + if size
            >= 1073741824 {
            " GB"@
        } else if size >= 1048576 {
            " MB"@
        } else {
            " KB"@
        },
        -(size_unit(size as nat) as int) <= 2 * (hundredths(size as nat, size_unit(size as nat))
            * size_unit(size as nat) - 100 * as_f64_value(size as nat)) <= size_unit(size as nat),
        -(size_unit(size as nat) as int + 204800) <= 2 * (hundredths(
            size as nat,
            size_unit(size as nat),
        ) * size_unit(size as nat) - 100 * size) <= size_unit(size as nat) + 204800,
        size < 9007199254740992 ==> as_f64_value(size as nat) == size,
        hundredths(size as nat, size_unit(size as nat)) >= 100,
        size < 1073741824 ==> hundredths(size as nat, size_unit(size as nat)) <= 102400,
{
    lemma_pow2_values();
    let u = size_unit(size as nat);
    let v = as_f64_value(size as nat);
    lemma_round_half_even_close(v * 100, u);
    let h = hundredths(size as nat, u);
    assert(h == round_half_even(v * 100, u));
    let d = pow2(dropped_bits(size as nat));
    assert(pow2(11) == 2048) by {
        reveal_with_fuel(pow2, 12);
    }
    lemma_dropped_bits_bound(size as nat, 11);
    lemma_pow2_mono(dropped_bits(size as nat), 11);
    lemma_pow2_pos(dropped_bits(size as nat));
    lemma_round_half_even_close(size as nat, d);
    assert(v == round_half_even(size as nat, d) * d);
    if size < 9007199254740992 {
        assert(dropped_bits(size as nat) == 0);
        assert(pow2(0) == 1);
        assert((size as nat) / 1 == size as nat);
        assert((size as nat) % 1 == 0);
        assert(round_half_even(size as nat, 1) == size);
        assert(pow2(dropped_bits(size as nat)) == 1);
        let r = round_half_even(size as nat, 1);
        assert(r * 1 == r) by (nonlinear_arith);
        assert(v == r * pow2(dropped_bits(size as nat)));
        assert(v == size);
        if u == 1024 {
            assert((v * 100) / 1024 >= 100);
        } else if u == 1048576 {
            assert((v * 100) / 1048576 >= 100);
        } else {
            assert((v * 100) / 1073741824 >= 100);
        }
    }
    if size < 1073741824 {
        if u == 1024 {
            assert((v * 100) / 1024 <= 102399);
        } else {
            assert((v * 100) / 1048576 <= 102399);
        }
    }
}

fn round_half_even_exec(n: u128, d: u128) -> (r: u128)
    requires
        d > 0,
        n / d < u128::MAX,
    ensures
        r == round_half_even(n as nat, d as nat),
{
    let q = n / d;
    let r = n % d;
    if r > d - r {
        q + 1
    } else if r < d - r {
        q
    } else if q % 2 == 0 {
        q
    } else {
        q + 1
    }
}

/// `n as f64`, as an exact integer.
fn as_f64_exact(n: u64) -> (v: u128)
    ensures
        v == as_f64_value(n as nat),
        v <= 2 * (n as nat),
{
    proof {
        lemma_pow2_values();
    }
    let mut m: u64 = n;
    let mut d: u128 = 1;
    let ghost mut e: nat = 0;
    while m >= 9007199254740992
        invariant
            d == pow2(e),
            m == (n as nat) / (d as nat),
            dropped_bits(n as nat) == e + dropped_bits(m as nat),
            d == 1 || d <= n,
            pow2(53) == 9007199254740992,
            d >= 1,
        decreases m,
    {
        proof {
            vstd::arithmetic::div_mod::lemma_div_denominator(n as int, d as int, 2);
            assert(m as nat >= pow2(53));
            vstd::arithmetic::div_mod::lemma_fundamental_div_mod(n as int, 2 * d as int);
            assert((n as nat) / (2 * d as nat) >= 1);
            vstd::arithmetic::mul::lemma_mul_inequality(1, (n as int) / (2 * d as int), 2 * d as int);
            vstd::arithmetic::div_mod::lemma_mod_bound(n as int, 2 * d as int);
        }
        m = m / 2;
        d = d * 2;
        proof {
            e = e + 1;
        }
    }
    let q = round_half_even_exec(n as u128, d);
    proof {
        vstd::arithmetic::div_mod::lemma_fundamental_div_mod(n as int, d as int);
        vstd::arithmetic::div_mod::lemma_mod_bound(n as int, d as int);
        assert(q <= (n as nat) / (d as nat) + 1);
        vstd::arithmetic::mul::lemma_mul_inequality(q as int, ((n as nat) / (d as nat) + 1) as int, d as int);
        assert(((n as nat) / (d as nat) + 1) * d == (n as nat) / (d as nat) * d + d) by (nonlinear_arith);
    }
    q * d
}

/// Rounds and writes `size` in units of `unit` with two decimals.
fn push_two_decimals(s: &mut String, size: u64, unit: u128)
    requires
        unit == 1024 || unit == 1048576 || unit == 1073741824,
    ensures
        final(s)@ == old(s)@ + two_decimals(round_half_even(as_f64_value(size as nat) * 100, unit as nat)),
{
    let v = as_f64_exact(size);
    proof {
        assert(v * 100 <= 400 * (u64::MAX as nat));
        vstd::arithmetic::div_mod::lemma_div_is_ordered_by_denominator(v as int * 100, 1, unit as int);
    }
    let h = round_half_even_exec(v * 100, unit);
    proof {
        assert((v * 100) as nat / (unit as nat) <= (v * 100) as nat);
    }
    let ghost before = final(s)@;
    push_decimal(s, (h / 100) as u64);
    push_char(s, '.');
    push_char(s, digit_char_of(((h / 10) % 10) as u64));
    push_char(s, digit_char_of((h % 10) as u64));
    proof {
        assert(final(s)@ =~= old(s)@ + two_decimals(h as nat));
    }
}

/// A human-readable size: bytes below 1 KiB, otherwise KB, MB or GB with two decimals.
pub fn format_size(size: u64) -> (t: String)
    ensures
        t@ == size_text(size as nat),
{
    proof {
        lemma_pow2_values();
    }
    let mut s = String::new();
    if size >= 1073741824 {
        push_two_decimals(&mut s, size, 1073741824);
        s.append(" GB");
    } else if size >= 1048576 {
        push_two_decimals(&mut s, size, 1048576);
        s.append(" MB");
    } else if size >= 1024 {
        push_two_decimals(&mut s, size, 1024);
        s.append(" KB");
    } else {
        push_decimal(&mut s, size);
        s.append(" B");
    }
    proof {
        assert(s@ =~= size_text(size as nat));
    }
    s
}

} // verus!
