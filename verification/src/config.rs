//! Scan configuration and the parsing of its comma-separated lists. A
//! malformed entry in a numeric list is dropped silently rather than failing
//! the whole list: the scan proceeds with whatever parses.

use vstd::prelude::*;
use crate::text::trimmed;
use crate::text::trim;

verus! {

pub open spec fn is_digit(c: char) -> bool {
    '0' <= c && c <= '9'
}

pub open spec fn digit_val(c: char) -> int {
    c as int - '0' as int
}

/// The value of a digit string, most significant digit first.
pub open spec fn dec_value(s: Seq<char>) -> int
    decreases s.len(),
{
    if s.len() == 0 {
        0
    } else {
        dec_value(s.drop_last()) * 10 + digit_val(s.last())
    }
}

pub open spec fn all_digits(s: Seq<char>) -> bool {
    forall|i: int| 0 <= i < s.len() ==> is_digit(s[i])
}

/// The digit part of a numeral as `str::parse` reads an unsigned integer:
/// an optional leading `+` is allowed before the digits.
pub open spec fn numeral_digits(s: Seq<char>) -> Seq<char> {
    if s.len() > 0 && s[0] == '+' {
        s.subrange(1, s.len() as int)
    } else {
        s
    }
}

pub open spec fn valid_numeral(s: Seq<char>) -> bool {
    numeral_digits(s).len() > 0 && all_digits(numeral_digits(s))
}

/// What `str::parse::<u64>` returns on `s`: the numeral's value when the
/// grammar fits and the value fits the type, nothing otherwise.
pub open spec fn parsed_u64(s: Seq<char>) -> Option<u64> {
    if valid_numeral(s) && dec_value(numeral_digits(s)) <= u64::MAX {
        Some(dec_value(numeral_digits(s)) as u64)
    } else {
        None
    }
}

/// What `str::parse::<u16>` returns on `s`.
pub open spec fn parsed_u16(s: Seq<char>) -> Option<u16> {
    if valid_numeral(s) && dec_value(numeral_digits(s)) <= u16::MAX {
        Some(dec_value(numeral_digits(s)) as u16)
    } else {
        None
    }
}

proof fn lemma_dec_value_nonneg(s: Seq<char>)
    requires
        all_digits(s),
    ensures
        dec_value(s) >= 0,
    decreases s.len(),
{
    if s.len() > 0 {
        lemma_dec_value_nonneg(s.drop_last());
        assert(dec_value(s.drop_last()) * 10 >= 0);
    }
}

proof fn lemma_dec_value_prefix_bound(s: Seq<char>, i: int)
    requires
        all_digits(s),
        0 <= i <= s.len(),
    ensures
        dec_value(s.subrange(0, i)) <= dec_value(s),
    decreases s.len() - i,
{
    if i == s.len() {
        assert(s.subrange(0, i) =~= s);
    } else {
        let a = s.subrange(0, i);
        let b = s.subrange(0, i + 1);
        assert(b.drop_last() =~= a);
        lemma_dec_value_nonneg(a);
        assert(dec_value(b) == dec_value(a) * 10 + digit_val(s[i]));
        assert(dec_value(a) * 10 >= dec_value(a));
        lemma_dec_value_prefix_bound(s, i + 1);
    }
}

/// Parses one piece as `str::parse::<u64>` does.
pub fn parse_u64(s: &Vec<char>) -> (r: Option<u64>)
    ensures
        r == parsed_u64(s@),
{
    let n = s.len();
    let start: usize = if n > 0 && s[0] == '+' {
        1
    } else {
        0
    };
    if n == start {
        return None;
    }
    let ghost d = numeral_digits(s@);
    proof {
        assert(d =~= s@.subrange(start as int, s@.len() as int));
    }
    let mut acc: u64 = 0;
    let mut i: usize = start;
    while i < n
        invariant
            n == s@.len(),
            start <= i <= s@.len(),
            d == numeral_digits(s@),
            d == s@.subrange(start as int, s@.len() as int),
            all_digits(s@.subrange(start as int, i as int)),
            acc as int == dec_value(s@.subrange(start as int, i as int)),
        decreases s@.len() - i,
    {
        let c = s[i];
        if !(c >= '0' && c <= '9') {
            proof {
                assert(d[i - start] == s@[i as int]);
                assert(!valid_numeral(s@));
            }
            return None;
        }
        let dv: u64 = ((c as u32) - ('0' as u32)) as u64;
        proof {
            assert(dv as int == digit_val(c));
            assert(s@.subrange(start as int, i as int + 1).drop_last() =~= s@.subrange(
                start as int,
                i as int,
            ));
            assert(dec_value(s@.subrange(start as int, i as int + 1)) == acc as int * 10
                + dv as int);
        }
        if acc > (u64::MAX - dv) / 10 {
            proof {
                assert(acc as int * 10 + dv as int > u64::MAX) by (nonlinear_arith)
                    requires
                        acc as int > (u64::MAX - dv as int) / 10,
                        0 <= dv as int <= 9,
                ;
                assert(s@.subrange(start as int, i as int + 1) =~= d.subrange(
                    0,
                    i - start + 1,
                ));
                if valid_numeral(s@) {
                    lemma_dec_value_prefix_bound(d, i - start + 1);
                }
            }
            return None;
        }
        proof {
            assert(acc as int * 10 + dv as int <= u64::MAX) by (nonlinear_arith)
                requires
                    acc as int <= (u64::MAX - dv as int) / 10,
                    0 <= dv as int <= 9,
            ;
        }
        acc = acc * 10 + dv;
        i = i + 1;
    }
    proof {
        assert(s@.subrange(start as int, s@.len() as int) =~= d);
        assert(valid_numeral(s@));
    }
    Some(acc)
}

/// Parses one piece as `str::parse::<u16>` does.
pub fn parse_u16(s: &Vec<char>) -> (r: Option<u16>)
    ensures
        r == parsed_u16(s@),
{
    proof {
        if valid_numeral(s@) {
            lemma_dec_value_nonneg(numeral_digits(s@));
        }
    }
    match parse_u64(s) {
        Some(v) => {
            if v <= 65535 {
                Some(v as u16)
            } else {
                None
            }
        },
        None => None,
    }
}

/// The `,`-separated pieces of `s`, as `str::split(',')` yields them: the
/// empty string gives one empty piece, and adjoining commas give empty
/// pieces.
pub open spec fn split_commas(s: Seq<char>) -> Seq<Seq<char>>
    decreases s.len(),
{
    if s.len() == 0 {
        seq![Seq::<char>::empty()]
    } else {
        let rest = split_commas(s.drop_last());
        if s.last() == ',' {
            rest.push(Seq::<char>::empty())
        } else {
            rest.update(rest.len() - 1, rest.last().push(s.last()))
        }
    }
}

proof fn lemma_split_commas_nonempty(s: Seq<char>)
    ensures
        split_commas(s).len() >= 1,
    decreases s.len(),
{
    if s.len() > 0 {
        lemma_split_commas_nonempty(s.drop_last());
    }
}

/// Splits on commas, as `str::split(',')` does.
pub fn split_commas_vec(s: &Vec<char>) -> (r: Vec<Vec<char>>)
    ensures
        r.deep_view() == split_commas(s@),
{
    let mut r: Vec<Vec<char>> = Vec::new();
    let mut cur: Vec<char> = Vec::new();
    let mut i: usize = 0;
    proof {
        assert(s@.subrange(0, 0) =~= Seq::<char>::empty());
        assert(split_commas(s@.subrange(0, 0)) =~~= r.deep_view().push(cur@));
    }
    while i < s.len()
        invariant
            i <= s@.len(),
            split_commas(s@.subrange(0, i as int)) == r.deep_view().push(cur@),
        decreases s@.len() - i,
    {
        let ghost pre = s@.subrange(0, i as int);
        let ghost post = s@.subrange(0, i as int + 1);
        proof {
            assert(post.drop_last() =~= pre);
            assert(post.last() == s@[i as int]);
            lemma_split_commas_nonempty(pre);
        }
        if s[i] == ',' {
            let ghost r0 = r.deep_view();
            r.push(cur);
            cur = Vec::new();
            proof {
                assert(r.deep_view() =~~= split_commas(pre));
                assert(split_commas(post) =~~= r.deep_view().push(cur@));
            }
        } else {
            let c = s[i];
            let ghost r0 = r.deep_view();
            let ghost cur0 = cur@;
            cur.push(c);
            proof {
                let rest = split_commas(pre);
                assert(rest.last() == cur0);
                assert(rest.update(rest.len() - 1, cur0.push(c)) =~~= r0.push(cur0.push(c)));
                assert(r.deep_view() =~~= r0);
                assert(split_commas(post) =~~= r.deep_view().push(cur@));
            }
        }
        i = i + 1;
    }
    proof {
        assert(s@.subrange(0, s@.len() as int) =~= s@);
    }
    let ghost r0 = r.deep_view();
    let ghost cur0 = cur@;
    r.push(cur);
    proof {
        assert(r.deep_view() =~~= r0.push(cur0));
    }
    r
}

/// The status codes parsed from the pieces, malformed pieces dropped.
pub open spec fn parsed_code_list(pieces: Seq<Seq<char>>) -> Seq<u16>
    decreases pieces.len(),
{
    if pieces.len() == 0 {
        Seq::<u16>::empty()
    } else {
        parsed_code_list(pieces.drop_last()) + match parsed_u16(pieces.last()) {
            Some(v) => seq![v],
            None => Seq::<u16>::empty(),
        }
    }
}

/// The content lengths parsed from the pieces, malformed pieces dropped.
pub open spec fn parsed_size_list(pieces: Seq<Seq<char>>) -> Seq<u64>
    decreases pieces.len(),
{
    if pieces.len() == 0 {
        Seq::<u64>::empty()
    } else {
        parsed_size_list(pieces.drop_last()) + match parsed_u64(pieces.last()) {
            Some(v) => seq![v],
            None => Seq::<u64>::empty(),
        }
    }
}

/// Parses a comma-separated status-code list, dropping malformed entries.
pub fn parse_code_list(s: &Vec<char>) -> (r: Vec<u16>)
    ensures
        r@ == parsed_code_list(split_commas(s@)),
{
    let pieces = split_commas_vec(s);
    let ghost pv = pieces.deep_view();
    let mut r: Vec<u16> = Vec::new();
    let mut i: usize = 0;
    proof {
        assert(pv.subrange(0, 0) =~~= Seq::<Seq<char>>::empty());
    }
    while i < pieces.len()
        invariant
            i <= pieces@.len(),
            pv == pieces.deep_view(),
            pv == split_commas(s@),
            pv.len() == pieces@.len(),
            r@ == parsed_code_list(pv.subrange(0, i as int)),
        decreases pieces@.len() - i,
    {
        let ghost pre = pv.subrange(0, i as int);
        let ghost post = pv.subrange(0, i as int + 1);
        proof {
            assert(post.drop_last() =~~= pre);
            assert(post.last() == pieces@[i as int]@);
        }
        match parse_u16(&pieces[i]) {
            Some(v) => {
                r.push(v);
            },
            None => {},
        }
        proof {
            assert(r@ =~= parsed_code_list(post));
        }
        i = i + 1;
    }
    proof {
        assert(pv.subrange(0, pv.len() as int) =~~= pv);
    }
    r
}

/// Parses a comma-separated byte-length list, dropping malformed entries.
pub fn parse_size_list(s: &Vec<char>) -> (r: Vec<u64>)
    ensures
        r@ == parsed_size_list(split_commas(s@)),
{
    let pieces = split_commas_vec(s);
    let ghost pv = pieces.deep_view();
    let mut r: Vec<u64> = Vec::new();
    let mut i: usize = 0;
    proof {
        assert(pv.subrange(0, 0) =~~= Seq::<Seq<char>>::empty());
    }
    while i < pieces.len()
        invariant
            i <= pieces@.len(),
            pv == pieces.deep_view(),
            pv == split_commas(s@),
            pv.len() == pieces@.len(),
            r@ == parsed_size_list(pv.subrange(0, i as int)),
        decreases pieces@.len() - i,
    {
        let ghost pre = pv.subrange(0, i as int);
        let ghost post = pv.subrange(0, i as int + 1);
        proof {
            assert(post.drop_last() =~~= pre);
            assert(post.last() == pieces@[i as int]@);
        }
        match parse_u64(&pieces[i]) {
            Some(v) => {
                r.push(v);
            },
            None => {},
        }
        proof {
            assert(r@ =~= parsed_size_list(post));
        }
        i = i + 1;
    }
    proof {
        assert(pv.subrange(0, pv.len() as int) =~~= pv);
    }
    r
}

/// `s` with every leading `.` removed, as `str::trim_start_matches('.')`
/// leaves it.
pub open spec fn strip_leading_dots(s: Seq<char>) -> Seq<char>
    decreases s.len(),
{
    if s.len() > 0 && s[0] == '.' {
        strip_leading_dots(s.subrange(1, s.len() as int))
    } else {
        s
    }
}

/// One configured extension as the expander uses it: the raw piece trimmed,
/// with leading dots dropped.
pub open spec fn cleaned_extension(s: Seq<char>) -> Seq<char> {
    strip_leading_dots(trimmed(s))
}

/// The extension list parsed from the pieces: raw empty pieces are dropped,
/// the rest are cleaned.
pub open spec fn parsed_extension_list(pieces: Seq<Seq<char>>) -> Seq<Seq<char>>
    decreases pieces.len(),
{
    if pieces.len() == 0 {
        Seq::<Seq<char>>::empty()
    } else {
        parsed_extension_list(pieces.drop_last()) + if pieces.last().len() == 0 {
            Seq::<Seq<char>>::empty()
        } else {
            seq![cleaned_extension(pieces.last())]
        }
    }
}

proof fn lemma_strip_leading_dots_at(s: Seq<char>, i: int)
    requires
        0 <= i <= s.len(),
        forall|k: int| 0 <= k < i ==> s[k] == '.',
        i < s.len() ==> s[i] != '.',
    ensures
        strip_leading_dots(s) == s.subrange(i, s.len() as int),
    decreases i,
{
    if i == 0 {
        assert(s == s.subrange(0, s.len() as int));
    } else {
        let t = s.subrange(1, s.len() as int);
        lemma_strip_leading_dots_at(t, i - 1);
        assert(t.subrange(i - 1, t.len() as int) == s.subrange(i, s.len() as int));
    }
}

fn clean_extension(s: &Vec<char>) -> (r: Vec<char>)
    ensures
        r@ == cleaned_extension(s@),
{
    let t = trim(s);
    let mut start: usize = 0;
    while start < t.len() && t[start] == '.'
        invariant
            start <= t@.len(),
            forall|k: int| 0 <= k < start ==> t@[k] == '.',
        decreases t@.len() - start,
    {
        start = start + 1;
    }
    proof {
        lemma_strip_leading_dots_at(t@, start as int);
    }
    let mut r: Vec<char> = Vec::new();
    let mut i: usize = start;
    while i < t.len()
        invariant
            start <= i <= t@.len(),
            r@ == t@.subrange(start as int, i as int),
        decreases t@.len() - i,
    {
        r.push(t[i]);
        i = i + 1;
    }
    r
}

/// Parses the comma-separated extension list: raw empty pieces dropped, each
/// kept piece trimmed and stripped of leading dots.
pub fn parse_extension_list(s: &Vec<char>) -> (r: Vec<Vec<char>>)
    ensures
        r.deep_view() == parsed_extension_list(split_commas(s@)),
{
    let pieces = split_commas_vec(s);
    let ghost pv = pieces.deep_view();
    let mut r: Vec<Vec<char>> = Vec::new();
    let mut i: usize = 0;
    proof {
        assert(pv.subrange(0, 0) =~~= Seq::<Seq<char>>::empty());
        assert(r.deep_view() =~~= parsed_extension_list(pv.subrange(0, 0)));
    }
    while i < pieces.len()
        invariant
            i <= pieces@.len(),
            pv == pieces.deep_view(),
            pv == split_commas(s@),
            pv.len() == pieces@.len(),
            r.deep_view() == parsed_extension_list(pv.subrange(0, i as int)),
        decreases pieces@.len() - i,
    {
        let ghost pre = pv.subrange(0, i as int);
        let ghost post = pv.subrange(0, i as int + 1);
        let ghost r0 = r.deep_view();
        proof {
            assert(post.drop_last() =~~= pre);
            assert(post.last() == pieces@[i as int]@);
        }
        if pieces[i].len() > 0 {
            let cleaned = clean_extension(&pieces[i]);
            r.push(cleaned);
            proof {
                assert(r.deep_view() =~~= r0.push(cleaned_extension(pieces@[i as int]@)));
                assert(r.deep_view() =~~= parsed_extension_list(post));
            }
        } else {
            proof {
                assert(r.deep_view() =~~= parsed_extension_list(post));
            }
        }
        i = i + 1;
    }
    proof {
        assert(pv.subrange(0, pv.len() as int) =~~= pv);
    }
    r
}

/// The excluded-codes list used when none is configured: not found alone.
pub fn default_exclude_codes() -> (r: Vec<u16>)
    ensures
        r@ == seq![404u16],
{
    let mut r: Vec<u16> = Vec::new();
    r.push(404);
    proof {
        assert(r@ =~= seq![404u16]);
    }
    r
}

/// The immutable scan configuration shared by every recursive pass.
pub struct ScanConfig {
    pub extensions: Vec<Vec<char>>,
    pub exclude_codes: Vec<u16>,
    pub filter_sizes: Vec<u64>,
    pub max_depth: usize,
    pub concurrency: usize,
    pub jitter_ms: u64,
    pub smart: bool,
}

impl ScanConfig {
    /// Assembles the configuration from the raw option strings: a missing
    /// extension or size list is empty, a missing exclusion list defaults to
    /// not found alone.
    pub fn assemble(
        extensions: &Option<Vec<char>>,
        exclude: &Option<Vec<char>>,
        sizes: &Option<Vec<char>>,
        max_depth: usize,
        concurrency: usize,
        jitter_ms: u64,
        smart: bool,
    ) -> (r: ScanConfig)
        ensures
            match extensions {
                Some(v) => r.extensions.deep_view() == parsed_extension_list(split_commas(v@)),
                None => r.extensions@.len() == 0,
            },
            match exclude {
                Some(v) => r.exclude_codes@ == parsed_code_list(split_commas(v@)),
                None => r.exclude_codes@ == seq![404u16],
            },
            match sizes {
                Some(v) => r.filter_sizes@ == parsed_size_list(split_commas(v@)),
                None => r.filter_sizes@.len() == 0,
            },
            r.max_depth == max_depth,
            r.concurrency == concurrency,
            r.jitter_ms == jitter_ms,
            r.smart == smart,
    {
        let ext = match extensions {
            Some(v) => parse_extension_list(v),
            None => Vec::new(),
        };
        let codes = match exclude {
            Some(v) => parse_code_list(v),
            None => default_exclude_codes(),
        };
        let fsizes = match sizes {
            Some(v) => parse_size_list(v),
            None => Vec::new(),
        };
        ScanConfig {
            extensions: ext,
            exclude_codes: codes,
            filter_sizes: fsizes,
            max_depth,
            concurrency,
            jitter_ms,
            smart,
        }
    }
}

} // verus!
