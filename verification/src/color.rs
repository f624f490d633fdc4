//! Quantizes cell colors to terminal escape sequences: either a direct
//! 24-bit foreground escape, or the nearest entry of the fixed 8-color
//! terminal palette for foreground and background.

use vstd::prelude::*;

verus! {

/// The RGB triple of palette entry `i`, in ascending terminal-code
/// order: black, red, green, yellow, blue, magenta, cyan, white.
pub open spec fn pal_rgb(i: int) -> (u8, u8, u8) {
    if i == 0 {
        (0, 0, 0)
    } else if i == 1 {
        (255, 0, 0)
    } else if i == 2 {
        (0, 255, 0)
    } else if i == 3 {
        (255, 255, 0)
    } else if i == 4 {
        (0, 0, 255)
    } else if i == 5 {
        (255, 0, 255)
    } else if i == 6 {
        (0, 255, 255)
    } else {
        (255, 255, 255)
    }
}

/// The squared Euclidean distance between two RGB triples.
pub open spec fn sq_dist(a: (u8, u8, u8), b: (u8, u8, u8)) -> int {
    (a.0 - b.0) * (a.0 - b.0) + (a.1 - b.1) * (a.1 - b.1) + (a.2 - b.2) * (a.2 - b.2)
}

/// The index of the palette entry nearest to `c` among the first `n`
/// entries; an equally near later entry never displaces an earlier
/// one.
pub open spec fn best_pal_upto(c: (u8, u8, u8), n: int) -> int
    decreases n,
{
    if n <= 1 {
        0
    } else {
        let b = best_pal_upto(c, n - 1);
        if sq_dist(c, pal_rgb(n - 1)) < sq_dist(c, pal_rgb(b)) {
            n - 1
        } else {
            b
        }
    }
}

/// The index of the palette entry nearest to `c`, ties kept by the
/// lowest terminal code.
pub open spec fn nearest_pal(c: (u8, u8, u8)) -> int {
    best_pal_upto(c, 8)
}

/// The decimal digits of `n` as characters, no leading zeros.
pub open spec fn dec_digits(n: int) -> Seq<char>
    decreases n,
{
    if n < 10 {
        seq![digit_char(n)]
    } else {
        dec_digits(n / 10) + seq![digit_char(n % 10)]
    }
}

/// The character of the decimal digit `d`.
pub open spec fn digit_char(d: int) -> char {
    if d == 0 {
        '0'
    } else if d == 1 {
        '1'
    } else if d == 2 {
        '2'
    } else if d == 3 {
        '3'
    } else if d == 4 {
        '4'
    } else if d == 5 {
        '5'
    } else if d == 6 {
        '6'
    } else if d == 7 {
        '7'
    } else if d == 8 {
        '8'
    } else {
        '9'
    }
}

/// The numeric value of the digit character `c`, the inverse of
/// `digit_char` on the digits.
pub open spec fn digit_val(c: char) -> int {
    if c == '0' {
        0
    } else if c == '1' {
        1
    } else if c == '2' {
        2
    } else if c == '3' {
        3
    } else if c == '4' {
        4
    } else if c == '5' {
        5
    } else if c == '6' {
        6
    } else if c == '7' {
        7
    } else if c == '8' {
        8
    } else {
        9
    }
}

/// The number a digit string denotes, read left to right.
pub open spec fn dec_val(s: Seq<char>) -> int
    decreases s.len(),
{
    if s.len() == 0 {
        0
    } else {
        dec_val(s.drop_last()) * 10 + digit_val(s.last())
    }
}

/// Reading back the decimal digits of `n` yields `n` again: the digit
/// encoding loses nothing.
pub proof fn lemma_decimal_round_trip(n: int)
    requires
        0 <= n,
    ensures
        dec_val(dec_digits(n)) == n,
    decreases n,
{
    if n < 10 {
        assert(dec_digits(n) == seq![digit_char(n)]);
        assert(dec_digits(n).drop_last() =~= Seq::<char>::empty());
        assert(dec_val(dec_digits(n)) == dec_val(dec_digits(n).drop_last()) * 10 + digit_val(
            dec_digits(n).last(),
        ));
        assert(digit_val(digit_char(n)) == n);
    } else {
        lemma_decimal_round_trip(n / 10);
        assert(dec_digits(n) == dec_digits(n / 10) + seq![digit_char(n % 10)]);
        assert((dec_digits(n / 10) + seq![digit_char(n % 10)]).drop_last() =~= dec_digits(n / 10));
        assert((dec_digits(n / 10) + seq![digit_char(n % 10)]).last() == digit_char(n % 10));
        assert(digit_val(digit_char(n % 10)) == n % 10);
        assert(dec_digits(n).len() > 0);
        assert(dec_val(dec_digits(n)) == dec_val(dec_digits(n / 10)) * 10 + (n % 10));
    }
}

/// Equal digit strings come only from equal numbers: together with
/// the round trip above, the numeric fields of an escape sequence
/// carry their values exactly.
pub proof fn lemma_dec_digits_injective(m: int, n: int)
    requires
        0 <= m,
        0 <= n,
        dec_digits(m) == dec_digits(n),
    ensures
        m == n,
{
    lemma_decimal_round_trip(m);
    lemma_decimal_round_trip(n);
}

/// The escape sequence that selects terminal code `code`.
pub open spec fn esc_code(code: int) -> Seq<char> {
    seq!['\u{1b}', '['] + dec_digits(code) + seq!['m']
}

/// The escape sequence that selects the exact 24-bit foreground color
/// `c`.
pub open spec fn esc_truecolor(c: (u8, u8, u8)) -> Seq<char> {
    seq!['\u{1b}', '[', '3', '8', ';', '2', ';'] + dec_digits(c.0 as int) + seq![';']
        + dec_digits(c.1 as int) + seq![';'] + dec_digits(c.2 as int) + seq!['m']
}

/// The foreground code of an optional foreground color: the nearest
/// palette entry's code 30..=37, or the terminal default 39.
pub open spec fn fg_code(fg: Option<(u8, u8, u8)>) -> int {
    match fg {
        Some(c) => 30 + nearest_pal(c),
        None => 39,
    }
}

/// The background code of an optional background color: the nearest
/// palette entry's code offset by 10, 40..=47, or the terminal
/// default 49.
pub open spec fn bg_code(bg: Option<(u8, u8, u8)>) -> int {
    match bg {
        Some(c) => 40 + nearest_pal(c),
        None => 49,
    }
}

/// The full text of one output cell.
///
/// Under the true-color policy the foreground color, if any, is carried
/// by a 24-bit escape and the background is not escaped at all; under
/// the palette policy one foreground and one background code escape are
/// emitted, a missing color falling back to the terminal default code.
/// Either way the cell's character follows, then an unconditional
/// reset.
pub open spec fn cell_escape(
    fg: Option<(u8, u8, u8)>,
    bg: Option<(u8, u8, u8)>,
    ch: char,
    full_color: bool,
) -> Seq<char> {
    if full_color {
        (match fg {
            Some(c) => esc_truecolor(c),
            None => Seq::empty(),
        }) + seq![ch] + esc_code(0)
    } else {
        esc_code(fg_code(fg)) + esc_code(bg_code(bg)) + seq![ch] + esc_code(0)
    }
}

/// The digit character of `d`.
fn digit_exec(d: u8) -> (c: char)
    requires
        d < 10,
    ensures
        c == digit_char(d as int),
{
    match d {
        0 => '0',
        1 => '1',
        2 => '2',
        3 => '3',
        4 => '4',
        5 => '5',
        6 => '6',
        7 => '7',
        8 => '8',
        _ => '9',
    }
}

/// Appends the decimal digits of `n` (at most three, as `n` is a
/// byte).
fn push_dec(out: &mut Vec<char>, n: u8)
    ensures
        final(out)@ == old(out)@ + dec_digits(n as int),
{
    if n >= 100 {
        out.push(digit_exec(n / 100));
        out.push(digit_exec((n / 10) % 10));
        out.push(digit_exec(n % 10));
        proof {
            assert(dec_digits(n as int) == dec_digits(n as int / 10) + seq![digit_char(
                n as int % 10,
            )]);
            assert(dec_digits(n as int / 10) == dec_digits(n as int / 10 / 10) + seq![digit_char(
                n as int / 10 % 10,
            )]);
            assert(n as int / 10 / 10 == n as int / 100);
            assert(out@ =~= old(out)@ + dec_digits(n as int));
        }
    } else if n >= 10 {
        out.push(digit_exec(n / 10));
        out.push(digit_exec(n % 10));
        proof {
            assert(dec_digits(n as int) == dec_digits(n as int / 10) + seq![digit_char(
                n as int % 10,
            )]);
            assert(out@ =~= old(out)@ + dec_digits(n as int));
        }
    } else {
        out.push(digit_exec(n));
        proof {
            assert(out@ =~= old(out)@ + dec_digits(n as int));
        }
    }
}

/// Appends the escape sequence selecting terminal code `code`.
fn push_esc_code(out: &mut Vec<char>, code: u8)
    ensures
        final(out)@ == old(out)@ + esc_code(code as int),
{
    out.push('\u{1b}');
    out.push('[');
    push_dec(out, code);
    out.push('m');
    proof {
        assert(out@ =~= old(out)@ + esc_code(code as int));
    }
}

/// The squared Euclidean distance between two RGB triples.
fn sq_dist_exec(a: (u8, u8, u8), b: (u8, u8, u8)) -> (d: i32)
    ensures
        d == sq_dist(a, b),
{
    let dr: i32 = a.0 as i32 - b.0 as i32;
    let dg: i32 = a.1 as i32 - b.1 as i32;
    let db: i32 = a.2 as i32 - b.2 as i32;
    proof {
        assert(0 <= dr * dr <= 65025 && 0 <= dg * dg <= 65025 && 0 <= db * db <= 65025)
            by (nonlinear_arith)
            requires
                -255 <= dr <= 255,
                -255 <= dg <= 255,
                -255 <= db <= 255,
        ;
    }
    dr * dr + dg * dg + db * db
}

/// The RGB triple of palette entry `i`.
fn pal_rgb_exec(i: u8) -> (c: (u8, u8, u8))
    requires
        i < 8,
    ensures
        c == pal_rgb(i as int),
{
    match i {
        0 => (0, 0, 0),
        1 => (255, 0, 0),
        2 => (0, 255, 0),
        3 => (255, 255, 0),
        4 => (0, 0, 255),
        5 => (255, 0, 255),
        6 => (0, 255, 255),
        _ => (255, 255, 255),
    }
}

/// The index of the palette entry nearest to `c` in squared RGB
/// distance; of equally near entries the one with the lowest terminal
/// code wins.
pub fn nearest_palette_index(c: (u8, u8, u8)) -> (r: u8)
    ensures
        r < 8,
        r as int == nearest_pal(c),
{
    let mut best: u8 = 0;
    let mut best_dist: i32 = sq_dist_exec(c, pal_rgb_exec(0));
    let mut i: u8 = 1;
    while i < 8
        invariant
            1 <= i <= 8,
            best < i,
            best as int == best_pal_upto(c, i as int),
            best_dist == sq_dist(c, pal_rgb(best as int)),
        decreases 8 - i,
    {
        let d: i32 = sq_dist_exec(c, pal_rgb_exec(i));
        if d < best_dist {
            best = i;
            best_dist = d;
        }
        i = i + 1;
    }
    best
}

/// Appends the full text of one output cell to `out`: the color
/// escapes for `fg` and `bg` under the chosen policy, the cell's
/// character, and the reset escape.
pub fn quantize_into(
    out: &mut Vec<char>,
    fg: Option<(u8, u8, u8)>,
    bg: Option<(u8, u8, u8)>,
    ch: char,
    full_color: bool,
)
    ensures
        final(out)@ == old(out)@ + cell_escape(fg, bg, ch, full_color),
{
    if full_color {
        match fg {
            Some(c) => {
                out.push('\u{1b}');
                out.push('[');
                out.push('3');
                out.push('8');
                out.push(';');
                out.push('2');
                out.push(';');
                push_dec(out, c.0);
                out.push(';');
                push_dec(out, c.1);
                out.push(';');
                push_dec(out, c.2);
                out.push('m');
                proof {
                    assert(out@ =~= old(out)@ + esc_truecolor(c));
                }
            },
            None => {},
        }
        out.push(ch);
        push_esc_code(out, 0);
        proof {
            assert(out@ =~= old(out)@ + cell_escape(fg, bg, ch, full_color));
        }
    } else {
        let fgc: u8 = match fg {
            Some(c) => 30 + nearest_palette_index(c),
            None => 39,
        };
        let bgc: u8 = match bg {
            Some(c) => 40 + nearest_palette_index(c),
            None => 49,
        };
        push_esc_code(out, fgc);
        push_esc_code(out, bgc);
        out.push(ch);
        push_esc_code(out, 0);
        proof {
            assert(out@ =~= old(out)@ + cell_escape(fg, bg, ch, full_color));
        }
    }
}

/// The full text of one output cell, as `quantize_into` appends it.
pub fn quantize(
    fg: Option<(u8, u8, u8)>,
    bg: Option<(u8, u8, u8)>,
    ch: char,
    full_color: bool,
) -> (r: Vec<char>)
    ensures
        r@ == cell_escape(fg, bg, ch, full_color),
{
    let mut out: Vec<char> = Vec::new();
    quantize_into(&mut out, fg, bg, ch, full_color);
    out
}

/// A color equal to a palette entry is quantized to exactly that
/// entry, at distance zero: the palette codes are reproduced
/// deterministically.
pub proof fn lemma_palette_exact(i: int)
    requires
        0 <= i < 8,
    ensures
        nearest_pal(pal_rgb(i)) == i,
        sq_dist(pal_rgb(i), pal_rgb(nearest_pal(pal_rgb(i)))) == 0,
{
    assert forall|a: int, b: int| 0 <= a < 8 && 0 <= b < 8 && a != b implies sq_dist(
        pal_rgb(a),
        pal_rgb(b),
    ) >= 65025 by {
        assert(255 * 255 == 65025 && (-255) * (-255) == 65025 && 0 * 0 == 0) by (nonlinear_arith);
    }
    assert(sq_dist(pal_rgb(i), pal_rgb(i)) == 0);
    lemma_best_pal_is_min(pal_rgb(i), 8);
}

/// `best_pal_upto` is the first index of minimum distance among the
/// first `n` palette entries.
pub proof fn lemma_best_pal_is_min(c: (u8, u8, u8), n: int)
    requires
        1 <= n <= 8,
    ensures
        0 <= best_pal_upto(c, n) < n,
        forall|j: int|
            0 <= j < n ==> sq_dist(c, pal_rgb(best_pal_upto(c, n))) <= #[trigger] sq_dist(
                c,
                pal_rgb(j),
            ),
        forall|j: int|
            0 <= j < best_pal_upto(c, n) ==> sq_dist(c, pal_rgb(best_pal_upto(c, n)))
                < #[trigger] sq_dist(c, pal_rgb(j)),
    decreases n,
{
    if n > 1 {
        lemma_best_pal_is_min(c, n - 1);
    }
}

} // verus!
