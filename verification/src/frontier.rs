//! The frontier controller: decides directory-likeness of a reported result
//! and plans the recursive pass it spawns. A child pass runs one level
//! deeper than its parent and is never scheduled past the configured
//! maximum depth.

use vstd::prelude::*;
use crate::candidates::strip_trailing_slashes;
use crate::candidates::join_base;

verus! {

/// A redirection status: the 3xx class.
pub open spec fn is_redirection(status: u16) -> bool {
    300 <= status && status <= 399
}

/// The final `/`-separated segment of a URL: everything after the last `/`,
/// the whole string when it holds none.
pub open spec fn last_segment(s: Seq<char>) -> Seq<char>
    decreases s.len(),
{
    if s.len() == 0 {
        s
    } else if s[s.len() - 1] == '/' {
        Seq::empty()
    } else {
        last_segment(s.subrange(0, s.len() - 1)).push(s[s.len() - 1])
    }
}

/// A result is directory-like if its status is a redirection, or if it is
/// 200 and the final path segment of its URL holds no `.`.
pub open spec fn directory_like(status: u16, url: Seq<char>) -> bool {
    is_redirection(status) || (status == 200 && !last_segment(url).contains('.'))
}

/// A URL normalized to end with exactly one path separator.
pub open spec fn normalized_dir(url: Seq<char>) -> Seq<char> {
    strip_trailing_slashes(url) + seq!['/']
}

/// A redirection response is directory-like whatever its URL holds.
pub proof fn lemma_redirection_always_directory_like(status: u16, url: Seq<char>)
    requires
        is_redirection(status),
    ensures
        directory_like(status, url),
{
}

proof fn lemma_last_segment_at(s: Seq<char>, i: int)
    requires
        0 <= i <= s.len(),
        forall|k: int| i <= k < s.len() ==> s[k] != '/',
        i > 0 ==> s[i - 1] == '/',
    ensures
        last_segment(s) == s.subrange(i, s.len() as int),
    decreases s.len() - i,
{
    if i == s.len() {
        if s.len() == 0 {
            assert(s == s.subrange(0, s.len() as int));
        } else {
            assert(s.subrange(i, s.len() as int) =~= Seq::<char>::empty());
        }
    } else {
        let t = s.subrange(0, s.len() - 1);
        lemma_last_segment_at(t, i);
        assert(t.subrange(i, t.len() as int) == s.subrange(i, s.len() - 1));
        assert(s.subrange(i, s.len() - 1).push(s[s.len() - 1]) =~= s.subrange(
            i,
            s.len() as int,
        ));
    }
}

/// Decides directory-likeness of a reported result.
pub fn is_directory(status: u16, url: &Vec<char>) -> (r: bool)
    ensures
        r == directory_like(status, url@),
{
    if status >= 300 && status <= 399 {
        return true;
    }
    if status != 200 {
        return false;
    }
    let mut i: usize = url.len();
    while i > 0 && url[i - 1] != '/'
        invariant
            i <= url@.len(),
            forall|k: int| i <= k < url@.len() ==> url@[k] != '/',
        decreases i,
    {
        i = i - 1;
    }
    proof {
        lemma_last_segment_at(url@, i as int);
    }
    let mut j: usize = i;
    while j < url.len()
        invariant
            status == 200,
            i <= j <= url@.len(),
            last_segment(url@) == url@.subrange(i as int, url@.len() as int),
            forall|k: int| i <= k < j ==> url@[k] != '.',
        decreases url@.len() - j,
    {
        if url[j] == '.' {
            proof {
                assert(last_segment(url@)[j - i] == '.');
                assert(last_segment(url@).contains('.'));
            }
            return false;
        }
        j = j + 1;
    }
    proof {
        assert forall|k: int| 0 <= k < last_segment(url@).len() implies last_segment(url@)[k]
            != '.' by {
            assert(last_segment(url@)[k] == url@[i + k]);
        }
        assert(!last_segment(url@).contains('.'));
    }
    true
}

/// Normalizes a directory-like URL to end with exactly one separator.
pub fn normalize_dir_url(url: &Vec<char>) -> (r: Vec<char>)
    ensures
        r@ == normalized_dir(url@),
{
    let empty: Vec<char> = Vec::new();
    let r = join_base(url, &empty);
    proof {
        assert(strip_trailing_slashes(url@) + seq!['/'] + empty@ =~= normalized_dir(url@));
    }
    r
}

/// One scan pass of the frontier: a base URL with its recursion depth.
pub struct ScanPass {
    pub base: Vec<char>,
    pub depth: usize,
}

/// Plans recursion for a reported result: a child pass exists exactly when
/// the result is directory-like and the parent depth is strictly below the
/// maximum; the child runs at the parent depth plus one, never past the
/// maximum, rooted at the normalized URL.
pub fn plan_recursion(status: u16, url: &Vec<char>, depth: usize, max_depth: usize) -> (r: Option<
    ScanPass,
>)
    ensures
        r is Some <==> (directory_like(status, url@) && depth < max_depth),
        r matches Some(p) ==> p.depth == depth + 1 && p.depth <= max_depth && p.base@
            == normalized_dir(url@),
{
    if depth < max_depth && is_directory(status, url) {
        Some(ScanPass { base: normalize_dir_url(url), depth: depth + 1 })
    } else {
        None
    }
}

} // verus!
