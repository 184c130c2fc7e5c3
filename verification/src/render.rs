//! Rendering of one reported result line: `[<status>] <content-length> |
//! <url>`, with the length right-aligned to eight columns. The terminal
//! coloring applied around the pieces is display work outside the library.

use vstd::prelude::*;
use crate::text::push_chars;

verus! {

pub open spec fn digit_char(d: int) -> char {
    if d == 0 {
        '0'
    } else if d == 1 {
        '1'
    } else if d == 2 {
        '2'
    } else if d == 3 {
        '3'
    } else if d == 4 {
        '4'
    } else if d == 5 {
        '5'
    } else if d == 6 {
        '6'
    } else if d == 7 {
        '7'
    } else if d == 8 {
        '8'
    } else {
        '9'
    }
}

/// The decimal digits of `n`, most significant first, no leading zeros
/// except for zero itself.
pub open spec fn dec_digits(n: int) -> Seq<char>
    decreases n,
{
    if n < 10 {
        seq![digit_char(n)]
    } else {
        dec_digits(n / 10).push(digit_char(n % 10))
    }
}

/// `n` spaces.
pub open spec fn spaces(n: int) -> Seq<char>
    decreases n,
{
    if n <= 0 {
        Seq::empty()
    } else {
        spaces(n - 1).push(' ')
    }
}

/// `s` right-aligned in a field of width `w`: space-padded on the left when
/// shorter, unchanged when not.
pub open spec fn padded_left(s: Seq<char>, w: int) -> Seq<char> {
    if s.len() >= w {
        s
    } else {
        spaces(w - s.len()) + s
    }
}

/// One reported line: the status bracketed, the content length right-aligned
/// to eight columns, then the URL.
pub open spec fn result_line(status: u16, length: u64, url: Seq<char>) -> Seq<char> {
    seq!['['] + dec_digits(status as int) + seq![']', ' '] + padded_left(
        dec_digits(length as int),
        8,
    ) + seq![' ', '|', ' '] + url
}

fn digit_to_char(d: u64) -> (c: char)
    requires
        d < 10,
    ensures
        c == digit_char(d as int),
{
    if d == 0 {
        '0'
    } else if d == 1 {
        '1'
    } else if d == 2 {
        '2'
    } else if d == 3 {
        '3'
    } else if d == 4 {
        '4'
    } else if d == 5 {
        '5'
    } else if d == 6 {
        '6'
    } else if d == 7 {
        '7'
    } else if d == 8 {
        '8'
    } else {
        '9'
    }
}

fn push_decimal(n: u64, out: &mut Vec<char>)
    ensures
        final(out)@ == old(out)@ + dec_digits(n as int),
    decreases n,
{
    if n < 10 {
        out.push(digit_to_char(n));
        proof {
            assert(final(out)@ =~= old(out)@ + dec_digits(n as int));
        }
    } else {
        proof {
            assert(n / 10 < n && n / 10 >= 1) by (nonlinear_arith)
                requires
                    n >= 10,
            ;
        }
        push_decimal(n / 10, out);
        out.push(digit_to_char(n % 10));
        proof {
            assert(final(out)@ =~= old(out)@ + dec_digits(n as int));
        }
    }
}

/// The decimal digits of `n` as characters.
pub fn decimal_chars(n: u64) -> (r: Vec<char>)
    ensures
        r@ == dec_digits(n as int),
{
    let mut out: Vec<char> = Vec::new();
    push_decimal(n, &mut out);
    proof {
        assert(out@ =~= dec_digits(n as int));
    }
    out
}

/// Renders one reported result line.
pub fn render_result_line(status: u16, length: u64, url: &Vec<char>) -> (r: Vec<char>)
    ensures
        r@ == result_line(status, length, url@),
{
    let mut r: Vec<char> = Vec::new();
    r.push('[');
    push_decimal(status as u64, &mut r);
    r.push(']');
    r.push(' ');
    let len_digits = decimal_chars(length);
    let ghost r0 = r@;
    let mut k: usize = len_digits.len();
    while k < 8
        invariant
            len_digits@.len() <= k <= 8 || (len_digits@.len() > 8 && k == len_digits@.len()),
            r@ == r0 + spaces(k - len_digits@.len()),
        decreases 8 - k,
    {
        r.push(' ');
        k = k + 1;
    }
    push_chars(&mut r, &len_digits);
    r.push(' ');
    r.push('|');
    r.push(' ');
    push_chars(&mut r, url);
    proof {
        assert(r@ =~= result_line(status, length, url@));
    }
    r
}

} // verus!
