//! Candidate stream expansion: one wordlist entry becomes the candidate URLs
//! to probe. The entry is trimmed; empty or `#`-prefixed entries yield
//! nothing. If the base template holds the substitution marker, the marker is
//! replaced by the entry; otherwise the entry is path-joined onto the base
//! with trailing separators normalized to exactly one. One further candidate
//! is then emitted per configured extension.

use vstd::prelude::*;
use crate::text::{trimmed, trim, copy_chars, push_chars};

verus! {

/// The substitution marker looked for in the target template.
pub open spec fn marker() -> Seq<char> {
    seq!['F', 'U', 'Z', 'Z']
}

/// The marker occurs in `s` starting at index `i`.
pub open spec fn marker_at(s: Seq<char>, i: int) -> bool {
    0 <= i && i + 4 <= s.len() && s.subrange(i, i + 4) == marker()
}

pub open spec fn contains_marker(s: Seq<char>) -> bool {
    exists|i: int| marker_at(s, i)
}

/// `s` with every occurrence of the marker replaced by `w`, leftmost match
/// first and non-overlapping, as `str::replace` rewrites it.
pub open spec fn replace_marker(s: Seq<char>, w: Seq<char>) -> Seq<char>
    decreases s.len(),
{
    if s.len() < 4 {
        s
    } else if s.subrange(0, 4) == marker() {
        w + replace_marker(s.subrange(4, s.len() as int), w)
    } else {
        seq![s[0]] + replace_marker(s.subrange(1, s.len() as int), w)
    }
}

/// `s` with every trailing `/` removed.
pub open spec fn strip_trailing_slashes(s: Seq<char>) -> Seq<char>
    decreases s.len(),
{
    if s.len() > 0 && s[s.len() - 1] == '/' {
        strip_trailing_slashes(s.subrange(0, s.len() - 1))
    } else {
        s
    }
}

/// The entry path-joined onto the base, with exactly one separator between.
pub open spec fn joined(base: Seq<char>, w: Seq<char>) -> Seq<char> {
    strip_trailing_slashes(base) + seq!['/'] + w
}

/// The first candidate made from a trimmed entry `w`: marker substitution
/// where the base holds the marker, a path join otherwise.
pub open spec fn candidate_base(base: Seq<char>, w: Seq<char>) -> Seq<char> {
    if contains_marker(base) {
        replace_marker(base, w)
    } else {
        joined(base, w)
    }
}

/// A candidate suffixed with one configured extension.
pub open spec fn with_extension(t: Seq<char>, ext: Seq<char>) -> Seq<char> {
    t + seq!['.'] + ext
}

/// Whether a wordlist entry is skipped: empty after trimming, or
/// comment-marked with a leading `#`.
pub open spec fn entry_skipped(entry: Seq<char>) -> bool {
    trimmed(entry).len() == 0 || trimmed(entry)[0] == '#'
}

fn marker_matches_at(s: &Vec<char>, i: usize) -> (r: bool)
    requires
        i + 4 <= s@.len(),
    ensures
        r == marker_at(s@, i as int),
{
    let n = s.len();
    let r = s[i] == 'F' && s[i + 1] == 'U' && s[i + 2] == 'Z' && s[i + 3] == 'Z';
    proof {
        let sub = s@.subrange(i as int, i as int + 4);
        if r {
            assert(sub =~= marker());
        } else {
            assert(sub[0] == s@[i as int]);
            assert(sub[1] == s@[i as int + 1]);
            assert(sub[2] == s@[i as int + 2]);
            assert(sub[3] == s@[i as int + 3]);
            assert(sub != marker());
        }
    }
    r
}

/// Whether the base template holds the substitution marker.
pub fn has_marker(s: &Vec<char>) -> (r: bool)
    ensures
        r == contains_marker(s@),
{
    let n = s.len();
    if n < 4 {
        return false;
    }
    let mut i: usize = 0;
    while i <= n - 4
        invariant
            n == s@.len(),
            4 <= n,
            i <= s@.len(),
            forall|k: int| 0 <= k < i ==> !marker_at(s@, k),
        decreases s@.len() - i,
    {
        if marker_matches_at(s, i) {
            return true;
        }
        i = i + 1;
    }
    false
}



/// Rewrites every marker occurrence in `s` to `w`.
pub fn replace_marker_all(s: &Vec<char>, w: &Vec<char>) -> (r: Vec<char>)
    ensures
        r@ == replace_marker(s@, w@),
{
    let mut out: Vec<char> = Vec::new();
    let mut i: usize = 0;
    proof {
        assert(s@.subrange(0, s@.len() as int) =~= s@);
        assert(Seq::<char>::empty() + replace_marker(s@, w@) =~= replace_marker(s@, w@));
    }
    while i < s.len()
        invariant
            i <= s@.len(),
            replace_marker(s@, w@) == out@ + replace_marker(
                s@.subrange(i as int, s@.len() as int),
                w@,
            ),
        decreases s@.len() - i,
    {
        let ghost t = s@.subrange(i as int, s@.len() as int);
        if s.len() - i >= 4 && marker_matches_at(s, i) {
            proof {
                assert(t.subrange(0, 4) =~= s@.subrange(i as int, i as int + 4));
                assert(t.subrange(4, t.len() as int) =~= s@.subrange(
                    i as int + 4,
                    s@.len() as int,
                ));
                assert(replace_marker(t, w@) == w@ + replace_marker(
                    s@.subrange(i as int + 4, s@.len() as int),
                    w@,
                ));
            }
            push_chars(&mut out, w);
            proof {
                assert(replace_marker(s@, w@) =~= out@ + replace_marker(
                    s@.subrange(i as int + 4, s@.len() as int),
                    w@,
                ));
            }
            i = i + 4;
        } else {
            proof {
                let t1 = s@.subrange(i as int + 1, s@.len() as int);
                if t.len() >= 4 {
                    assert(t.subrange(0, 4) =~= s@.subrange(i as int, i as int + 4));
                    assert(t.subrange(4, t.len() as int) =~= s@.subrange(
                        i as int + 4,
                        s@.len() as int,
                    ));
                }
                assert(t.subrange(1, t.len() as int) =~= t1);
                assert(replace_marker(t, w@) == seq![s@[i as int]] + replace_marker(t1, w@));
            }
            out.push(s[i]);
            proof {
                assert(replace_marker(s@, w@) =~= out@ + replace_marker(
                    s@.subrange(i as int + 1, s@.len() as int),
                    w@,
                ));
            }
            i = i + 1;
        }
    }
    proof {
        assert(s@.subrange(s@.len() as int, s@.len() as int) =~= Seq::<char>::empty());
        assert(replace_marker(Seq::<char>::empty(), w@) =~= Seq::<char>::empty());
        assert(out@ + Seq::<char>::empty() =~= out@);
    }
    out
}

proof fn lemma_strip_trailing_at(s: Seq<char>, j: int)
    requires
        0 <= j <= s.len(),
        forall|k: int| j <= k < s.len() ==> s[k] == '/',
        j > 0 ==> s[j - 1] != '/',
    ensures
        strip_trailing_slashes(s) == s.subrange(0, j),
    decreases s.len() - j,
{
    if j == s.len() {
        assert(s == s.subrange(0, s.len() as int));
    } else {
        let t = s.subrange(0, s.len() - 1);
        lemma_strip_trailing_at(t, j);
        assert(t.subrange(0, j) == s.subrange(0, j));
    }
}

/// Path-joins the entry onto the base with exactly one separator.
pub fn join_base(base: &Vec<char>, w: &Vec<char>) -> (r: Vec<char>)
    ensures
        r@ == joined(base@, w@),
{
    let mut end: usize = base.len();
    while end > 0 && base[end - 1] == '/'
        invariant
            end <= base@.len(),
            forall|k: int| end <= k < base@.len() ==> base@[k] == '/',
        decreases end,
    {
        end = end - 1;
    }
    proof {
        lemma_strip_trailing_at(base@, end as int);
    }
    let mut r: Vec<char> = Vec::new();
    let mut i: usize = 0;
    while i < end
        invariant
            i <= end <= base@.len(),
            r@ == base@.subrange(0, i as int),
        decreases end - i,
    {
        r.push(base[i]);
        i = i + 1;
    }
    r.push('/');
    push_chars(&mut r, w);
    proof {
        assert(r@ =~= strip_trailing_slashes(base@) + seq!['/'] + w@);
    }
    r
}

/// Expands one wordlist entry into its candidates: nothing for a skipped
/// entry, else the base candidate followed by one variant per extension, in
/// the extensions' order.
pub fn expand_entry(base: &Vec<char>, entry: &Vec<char>, extensions: &Vec<Vec<char>>) -> (r: Vec<
    Vec<char>,
>)
    ensures
        entry_skipped(entry@) ==> r@.len() == 0,
        !entry_skipped(entry@) ==> r@.len() == 1 + extensions@.len(),
        !entry_skipped(entry@) ==> r@[0]@ == candidate_base(base@, trimmed(entry@)),
        forall|k: int|
            !entry_skipped(entry@) && 0 <= k < extensions@.len() ==> r@[k + 1]@ == with_extension(
                candidate_base(base@, trimmed(entry@)),
                extensions@[k]@,
            ),
{
    let w = trim(entry);
    if w.len() == 0 {
        return Vec::new();
    }
    if w[0] == '#' {
        return Vec::new();
    }
    let first = if has_marker(base) {
        replace_marker_all(base, &w)
    } else {
        join_base(base, &w)
    };
    let mut r: Vec<Vec<char>> = Vec::new();
    let mut k: usize = 0;
    let head = copy_chars(&first);
    r.push(head);
    while k < extensions.len()
        invariant
            k <= extensions@.len(),
            r@.len() == 1 + k,
            first@ == candidate_base(base@, trimmed(entry@)),
            r@[0]@ == candidate_base(base@, trimmed(entry@)),
            forall|j: int|
                0 <= j < k ==> r@[j + 1]@ == with_extension(
                    candidate_base(base@, trimmed(entry@)),
                    extensions@[j]@,
                ),
        decreases extensions@.len() - k,
    {
        let mut v = copy_chars(&first);
        v.push('.');
        push_chars(&mut v, &extensions[k]);
        proof {
            assert(v@ =~= with_extension(first@, extensions@[k as int]@));
        }
        r.push(v);
        k = k + 1;
    }
    r
}

} // verus!
