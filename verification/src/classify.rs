//! Response classification: decides report or suppress for each probe
//! outcome, against the excluded status codes, the excluded exact content
//! lengths, and the calibration baseline. Transport failures are always
//! suppressed; the remaining rules apply in a fixed order.

use vstd::prelude::*;

verus! {

/// The outcome of one probe: a response descriptor, or a transport failure
/// (no status, no length).
pub enum ProbeOutcome {
    Success { status: u16, length: u64 },
    Failure,
}

/// The learned "not found" signature: length, line count and word count of a
/// probe of a nonexistent path. Inactive when calibration was not requested
/// or its probe failed; once computed it is immutable and shared read-only.
#[derive(Clone, Copy, Debug)]
pub struct Calibration {
    pub is_active: bool,
    pub ignore_len: Option<u64>,
    pub ignore_lines: Option<usize>,
    pub ignore_words: Option<usize>,
}

impl Calibration {
    /// The baseline used when calibration was not requested or failed: the
    /// scan proceeds without smart filtering.
    pub fn inactive() -> (r: Calibration)
        ensures
            !r.is_active,
            r.ignore_len is None,
            r.ignore_lines is None,
            r.ignore_words is None,
    {
        Calibration { is_active: false, ignore_len: None, ignore_lines: None, ignore_words: None }
    }
}

pub open spec fn abs_diff(a: int, b: int) -> int {
    if a >= b {
        a - b
    } else {
        b - a
    }
}

/// The smart filter suppresses a length equal to the baseline length, or
/// one within a strict distance of 5 of a positive baseline length.
pub open spec fn suppressed_by_calibration(cal: Calibration, length: u64) -> bool {
    &&& cal.is_active
    &&& match cal.ignore_len {
        Some(l) => length == l || (l > 0 && abs_diff(length as int, l as int) < 5),
        None => false,
    }
}

/// Whether a probe outcome is reported: failures never are; a response is
/// reported unless its status is excluded, its length is excluded, or the
/// smart filter suppresses it.
pub open spec fn should_report(
    o: ProbeOutcome,
    codes: Seq<u16>,
    sizes: Seq<u64>,
    cal: Calibration,
) -> bool {
    match o {
        ProbeOutcome::Failure => false,
        ProbeOutcome::Success { status, length } => !codes.contains(status) && !sizes.contains(
            length,
        ) && !suppressed_by_calibration(cal, length),
    }
}

fn contains_u16(v: &Vec<u16>, x: u16) -> (r: bool)
    ensures
        r == v@.contains(x),
{
    let mut i: usize = 0;
    while i < v.len()
        invariant
            i <= v@.len(),
            forall|k: int| 0 <= k < i ==> v@[k] != x,
        decreases v@.len() - i,
    {
        if v[i] == x {
            return true;
        }
        i = i + 1;
    }
    false
}

fn contains_u64(v: &Vec<u64>, x: u64) -> (r: bool)
    ensures
        r == v@.contains(x),
{
    let mut i: usize = 0;
    while i < v.len()
        invariant
            i <= v@.len(),
            forall|k: int| 0 <= k < i ==> v@[k] != x,
        decreases v@.len() - i,
    {
        if v[i] == x {
            return true;
        }
        i = i + 1;
    }
    false
}

/// Applies the classification rules in their fixed order and says whether
/// the outcome is reported.
pub fn classify(
    o: &ProbeOutcome,
    exclude_codes: &Vec<u16>,
    filter_sizes: &Vec<u64>,
    cal: &Calibration,
) -> (r: bool)
    ensures
        r == should_report(*o, exclude_codes@, filter_sizes@, *cal),
{
    match o {
        ProbeOutcome::Failure => false,
        ProbeOutcome::Success { status, length } => {
            if contains_u16(exclude_codes, *status) {
                return false;
            }
            if contains_u64(filter_sizes, *length) {
                return false;
            }
            if cal.is_active {
                match cal.ignore_len {
                    Some(l) => {
                        if *length == l {
                            return false;
                        }
                        let diff = if *length >= l {
                            *length - l
                        } else {
                            l - *length
                        };
                        if l > 0 && diff < 5 {
                            return false;
                        }
                    },
                    None => {},
                }
            }
            true
        },
    }
}

/// A result whose status is in the excluded-codes set is never reported,
/// whatever the other lists and the baseline hold.
pub proof fn lemma_excluded_code_never_reported(
    status: u16,
    length: u64,
    codes: Seq<u16>,
    sizes: Seq<u64>,
    cal: Calibration,
)
    requires
        codes.contains(status),
    ensures
        !should_report((ProbeOutcome::Success { status, length }), codes, sizes, cal),
{
}

/// A result whose content length is in the excluded-lengths set is never
/// reported, whatever the other lists and the baseline hold.
pub proof fn lemma_excluded_length_never_reported(
    status: u16,
    length: u64,
    codes: Seq<u16>,
    sizes: Seq<u64>,
    cal: Calibration,
)
    requires
        sizes.contains(length),
    ensures
        !should_report((ProbeOutcome::Success { status, length }), codes, sizes, cal),
{
}

/// With smart filtering active on a positive baseline length `l`, a result
/// of length `l` is suppressed and one of length `l + 4` is suppressed,
/// while one of length `l + 10` is reported when neither exclusion list
/// catches it: the boundary lies at a difference of 5.
pub proof fn lemma_smart_filter_boundary(
    status: u16,
    l: u64,
    codes: Seq<u16>,
    sizes: Seq<u64>,
    cal: Calibration,
)
    requires
        cal.is_active,
        cal.ignore_len == Some(l),
        0 < l,
        l + 10 <= u64::MAX,
        !codes.contains(status),
        !sizes.contains((l + 10) as u64),
    ensures
        !should_report((ProbeOutcome::Success { status, length: l }), codes, sizes, cal),
        !should_report(
            (ProbeOutcome::Success { status, length: (l + 4) as u64 }),
            codes,
            sizes,
            cal,
        ),
        should_report(
            (ProbeOutcome::Success { status, length: (l + 10) as u64 }),
            codes,
            sizes,
            cal,
        ),
{
}

/// An inactive baseline never suppresses anything: after a calibration
/// failure the scan runs as if smart filtering were off.
pub proof fn lemma_inactive_baseline_never_suppresses(
    o: ProbeOutcome,
    codes: Seq<u16>,
    sizes: Seq<u64>,
    cal: Calibration,
)
    requires
        !cal.is_active,
    ensures
        should_report(o, codes, sizes, cal) == (o matches ProbeOutcome::Success { status, length }
            && !codes.contains(status) && !sizes.contains(length)),
{
}

} // verus!
