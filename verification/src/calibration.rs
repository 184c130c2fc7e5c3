//! The baseline calibrator's logic: the probe URL for a random nonexistent
//! path, and the "not found" signature learned from the probe's body. The
//! probe itself is network work done outside the library; its results come
//! back here as plain values. A failed probe yields the inactive baseline
//! and the scan proceeds without smart filtering.

use vstd::prelude::*;
use rand::Rng;
use crate::classify::Calibration;
use crate::text::is_space;
use crate::text::push_chars;
use crate::text::copy_chars;

verus! {

pub open spec fn is_alphanumeric_ascii(c: char) -> bool {
    ('0' <= c && c <= '9') || ('a' <= c && c <= 'z') || ('A' <= c && c <= 'Z')
}

/// Relies on rand's `Alphanumeric` distribution, sampled twelve times: every
/// draw is one of the 62 ASCII alphanumeric characters.
#[verifier::external_body]
pub(crate) fn random_token() -> (r: Vec<char>)
    ensures
        r@.len() == 12,
        forall|i: int| 0 <= i < r@.len() ==> is_alphanumeric_ascii(r@[i]),
{
    rand::thread_rng().sample_iter(&rand::distributions::Alphanumeric).take(12).map(
        char::from,
    ).collect()
}

/// The calibration probe URL: the token appended to the base, behind exactly
/// one separator when the base does not already end with one.
pub open spec fn probe_url(base: Seq<char>, token: Seq<char>) -> Seq<char> {
    if base.len() > 0 && base[base.len() - 1] == '/' {
        base + token
    } else {
        base + seq!['/'] + token
    }
}

/// Builds the probe target for a path that, with overwhelming probability,
/// does not exist: the base with a fresh random 12-character alphanumeric
/// token.
pub fn make_probe_url(base: &Vec<char>) -> (r: Vec<char>)
    ensures
        exists|t: Seq<char>|
            #[trigger] probe_url(base@, t) == r@ && t.len() == 12 && (forall|i: int|
                0 <= i < t.len() ==> is_alphanumeric_ascii(t[i])),
{
    let token = random_token();
    let mut r = copy_chars(base);
    if base.len() == 0 || base[base.len() - 1] != '/' {
        r.push('/');
    }
    push_chars(&mut r, &token);
    proof {
        assert(probe_url(base@, token@) == r@) by {
            if base@.len() > 0 && base@[base@.len() - 1] == '/' {
                assert(r@ =~= base@ + token@);
            } else {
                assert(r@ =~= base@ + seq!['/'] + token@);
            }
        }
    }
    r
}

/// The number of newline characters in `s`.
pub open spec fn newline_count(s: Seq<char>) -> int
    decreases s.len(),
{
    if s.len() == 0 {
        0
    } else {
        newline_count(s.drop_last()) + if s.last() == '\n' {
            1int
        } else {
            0int
        }
    }
}

/// The number of lines `str::lines` yields: one per newline, plus a final
/// unterminated line when the text is nonempty and does not end in one.
pub open spec fn line_count(s: Seq<char>) -> int {
    newline_count(s) + if s.len() > 0 && s[s.len() - 1] != '\n' {
        1int
    } else {
        0int
    }
}

/// The number of words `str::split_whitespace` yields: maximal runs of
/// non-whitespace characters, counted at the character that starts each run.
pub open spec fn word_count(s: Seq<char>) -> int
    decreases s.len(),
{
    if s.len() == 0 {
        0
    } else {
        word_count(s.drop_last()) + if !is_space(s.last()) && (s.len() == 1 || is_space(
            s[s.len() - 2],
        )) {
            1int
        } else {
            0int
        }
    }
}

proof fn lemma_newline_count_le_len(s: Seq<char>)
    ensures
        newline_count(s) <= s.len(),
    decreases s.len(),
{
    if s.len() > 0 {
        lemma_newline_count_le_len(s.drop_last());
    }
}

/// Counts the newline-delimited segments of the body.
pub fn count_lines(body: &Vec<char>) -> (r: usize)
    ensures
        r as int == line_count(body@),
{
    let mut count: usize = 0;
    let mut i: usize = 0;
    proof {
        assert(body@.subrange(0, 0) =~= Seq::<char>::empty());
    }
    while i < body.len()
        invariant
            i <= body@.len(),
            count <= i,
            count as int == newline_count(body@.subrange(0, i as int)),
        decreases body@.len() - i,
    {
        let ghost pre = body@.subrange(0, i as int);
        let ghost post = body@.subrange(0, i as int + 1);
        proof {
            assert(post.drop_last() =~= pre);
        }
        if body[i] == '\n' {
            count = count + 1;
        }
        i = i + 1;
    }
    proof {
        assert(body@.subrange(0, body@.len() as int) =~= body@);
    }
    if body.len() > 0 && body[body.len() - 1] != '\n' {
        proof {
            assert(body@.drop_last() =~= body@.subrange(0, body@.len() - 1));
            assert(newline_count(body@) == newline_count(body@.drop_last()));
            lemma_newline_count_le_len(body@.drop_last());
            assert(count < body@.len());
        }
        count = count + 1;
    }
    count
}

/// Counts the whitespace-delimited tokens of the body.
pub fn count_words(body: &Vec<char>) -> (r: usize)
    ensures
        r as int == word_count(body@),
{
    let mut count: usize = 0;
    let mut prev_space = true;
    let mut i: usize = 0;
    proof {
        assert(body@.subrange(0, 0) =~= Seq::<char>::empty());
    }
    while i < body.len()
        invariant
            i <= body@.len(),
            count <= i,
            count as int == word_count(body@.subrange(0, i as int)),
            prev_space == (i == 0 || is_space(body@[i as int - 1])),
        decreases body@.len() - i,
    {
        let ghost pre = body@.subrange(0, i as int);
        let ghost post = body@.subrange(0, i as int + 1);
        proof {
            assert(post.drop_last() =~= pre);
            assert(post.last() == body@[i as int]);
            if post.len() > 1 {
                assert(post[post.len() - 2] == body@[i as int - 1]);
            }
        }
        let c = body[i];
        let space = crate::text::is_space_char(c);
        if !space && prev_space {
            count = count + 1;
        }
        prev_space = space;
        i = i + 1;
    }
    proof {
        assert(body@.subrange(0, body@.len() as int) =~= body@);
    }
    count
}

/// The active baseline learned from a successful calibration probe: the
/// response's content length with the body's line and word counts.
pub fn calibration_from_body(content_length: u64, body: &Vec<char>) -> (r: Calibration)
    ensures
        r.is_active,
        r.ignore_len == Some(content_length),
        r.ignore_lines matches Some(n) && n as int == line_count(body@),
        r.ignore_words matches Some(n) && n as int == word_count(body@),
{
    let lines = count_lines(body);
    let words = count_words(body);
    Calibration {
        is_active: true,
        ignore_len: Some(content_length),
        ignore_lines: Some(lines),
        ignore_words: Some(words),
    }
}

} // verus!
