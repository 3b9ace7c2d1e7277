//! Client version identity: an ordered (major, minor, patch) triple, parsed
//! out of the client's binary marker text, and the compatibility rule
//! between consecutive update packages.
//!
//! The marker file is arbitrary text holding a `MAJOR.MINOR.PATCH` substring;
//! the scanner finds the leftmost occurrence of one or more digits, a dot,
//! one or more digits, a dot, then one or two digits. A component too large
//! for `u32` reads as zero. Absent a match, the outcome is a policy choice:
//! the zero version, or a hard parse error.

use vstd::prelude::*;
use crate::decimal::{is_digit_char, digit_val, dec_val, spec_dec};
use crate::errors::AppError;
use crate::text::str_to_chars;

verus! {

/// Version triple read from the client's binary marker file.
#[derive(Clone, Copy, Debug, PartialEq, Eq, Structural)]
pub struct BinaryVersion {
    pub major_version: u32,
    pub minor_version: u32,
    pub patch_version: u32,
}

/// `next` directly follows `cur`: same major and minor, patch one higher.
pub open spec fn spec_is_successor(cur: BinaryVersion, next: BinaryVersion) -> bool {
    &&& cur.major_version == next.major_version
    &&& cur.minor_version == next.minor_version
    &&& next.patch_version == cur.patch_version + 1
}

/// An update package with version `next_version` may be applied on top of a
/// client at `first_version` exactly when it is the direct successor.
pub fn verify_version(first_version: &BinaryVersion, next_version: &BinaryVersion) -> (r: bool)
    ensures
        r == spec_is_successor(*first_version, *next_version),
{
    first_version.major_version == next_version.major_version
        && first_version.minor_version == next_version.minor_version
        && next_version.patch_version > first_version.patch_version
        && next_version.patch_version - first_version.patch_version == 1
}

/// Whether an unparsable marker file yields the zero version or an error.
#[derive(Clone, Copy, Debug, PartialEq, Eq, Structural)]
pub enum VersionParsePolicy {
    /// Absent or unparsable marker text reads as version `0.0.0`.
    ZeroFallback,
    /// Absent or unparsable marker text is a hard parse error.
    Strict,
}

/// End of the digit run starting at `i`: the first position at or after `i`
/// holding a non-digit, or the end of the text.
pub open spec fn digit_run_end(s: Seq<char>, i: int) -> int
    decreases s.len() - i,
{
    if i < 0 || i >= s.len() {
        i
    } else if !is_digit_char(s[i]) {
        i
    } else {
        digit_run_end(s, i + 1)
    }
}

pub proof fn lemma_digit_run_end(s: Seq<char>, i: int)
    requires
        0 <= i <= s.len(),
    ensures
        i <= digit_run_end(s, i) <= s.len(),
        forall|k: int| i <= k < digit_run_end(s, i) ==> is_digit_char(#[trigger] s[k]),
        digit_run_end(s, i) == s.len() || !is_digit_char(s[digit_run_end(s, i)]),
    decreases s.len() - i,
{
    if i < s.len() && is_digit_char(s[i]) {
        lemma_digit_run_end(s, i + 1);
    }
}

/// A `MAJOR.MINOR.PATCH` pattern starts at position `p`: a digit run, a dot,
/// a digit run, a dot, then at least one more digit.
pub open spec fn version_match_at(s: Seq<char>, p: int) -> bool {
    let e1 = digit_run_end(s, p);
    let e2 = digit_run_end(s, e1 + 1);
    &&& 0 <= p < s.len()
    &&& e1 > p
    &&& e1 < s.len()
    &&& s[e1] == '.'
    &&& e2 > e1 + 1
    &&& e2 < s.len()
    &&& s[e2] == '.'
    &&& e2 + 1 < s.len()
    &&& is_digit_char(s[e2 + 1])
}

/// Value of one version component: the digits read as a number, or zero when
/// the number does not fit in `u32`.
pub open spec fn component_val(digits: Seq<char>) -> u32 {
    if dec_val(digits) <= u32::MAX {
        dec_val(digits) as u32
    } else {
        0
    }
}

/// The version read from the pattern starting at `p`. The patch component
/// takes at most two digits.
pub open spec fn version_at(s: Seq<char>, p: int) -> BinaryVersion {
    let e1 = digit_run_end(s, p);
    let e2 = digit_run_end(s, e1 + 1);
    let e3 = digit_run_end(s, e2 + 1);
    let pe = if e3 > e2 + 3 { e2 + 3 } else { e3 };
    BinaryVersion {
        major_version: component_val(s.subrange(p, e1)),
        minor_version: component_val(s.subrange(e1 + 1, e2)),
        patch_version: component_val(s.subrange(e2 + 1, pe)),
    }
}

/// Position of the leftmost version pattern at or after `p`, if any.
pub open spec fn first_match_from(s: Seq<char>, p: int) -> Option<int>
    decreases s.len() - p,
{
    if p < 0 || p >= s.len() {
        None
    } else if version_match_at(s, p) {
        Some(p)
    } else {
        first_match_from(s, p + 1)
    }
}

/// What parsing the marker text yields under the given policy.
pub open spec fn spec_parse_version(s: Seq<char>, policy: VersionParsePolicy) -> Result<
    BinaryVersion,
    AppError,
> {
    match first_match_from(s, 0) {
        Some(p) => Ok(version_at(s, p)),
        None => match policy {
            VersionParsePolicy::ZeroFallback => Ok(
                BinaryVersion { major_version: 0, minor_version: 0, patch_version: 0 },
            ),
            VersionParsePolicy::Strict => Err(AppError::VersionParse),
        },
    }
}

fn is_digit(c: char) -> (r: bool)
    ensures
        r == is_digit_char(c),
{
    let u = c as u32;
    48 <= u && u <= 57
}

fn digit_run_end_exec(s: &[char], i: usize) -> (r: usize)
    requires
        i <= s@.len(),
    ensures
        r == digit_run_end(s@, i as int),
        i <= r <= s@.len(),
    decreases s@.len() - i,
{
    if i < s.len() && is_digit(s[i]) {
        digit_run_end_exec(s, i + 1)
    } else {
        i
    }
}

fn component_value(s: &[char], from: usize, to: usize) -> (r: u32)
    requires
        from <= to <= s@.len(),
        forall|k: int| from <= k < to ==> is_digit_char(#[trigger] s@[k]),
    ensures
        r == component_val(s@.subrange(from as int, to as int)),
{
    let ghost digits = s@.subrange(from as int, to as int);
    let mut acc: u64 = 0;
    let mut i: usize = from;
    while i < to
        invariant
            from <= i <= to <= s@.len(),
            digits == s@.subrange(from as int, to as int),
            forall|k: int| from <= k < to ==> is_digit_char(#[trigger] s@[k]),
            acc == if dec_val(digits.take(i - from)) <= 0x1_0000_0000u64 {
                dec_val(digits.take(i - from)) as u64
            } else {
                0x1_0000_0000u64
            },
        decreases to - i,
    {
        let c = s[i];
        proof {
            assert(is_digit_char(s@[i as int]));
        }
        let d = (c as u32 - 48) as u64;
        proof {
            let pref = digits.take(i - from);
            let next = digits.take(i + 1 - from);
            assert(next.drop_last() =~= pref);
            assert(next.last() == s@[i as int]);
            assert(dec_val(next) == dec_val(pref) * 10 + digit_val(c));
            assert(dec_val(pref) * 10 >= dec_val(pref)) by (nonlinear_arith);
        }
        let mul = acc * 10 + d;
        acc = if mul > 0x1_0000_0000u64 {
            0x1_0000_0000u64
        } else {
            mul
        };
        i = i + 1;
    }
    proof {
        assert(digits.take(to - from) =~= digits);
    }
    if acc > 0xFFFF_FFFFu64 {
        0
    } else {
        acc as u32
    }
}


fn version_match_at_exec(s: &[char], p: usize) -> (r: bool)
    requires
        p < s@.len(),
    ensures
        r == version_match_at(s@, p as int),
{
    let e1 = digit_run_end_exec(s, p);
    if !(e1 > p && e1 < s.len() && s[e1] == '.') {
        return false;
    }
    let e2 = digit_run_end_exec(s, e1 + 1);
    if !(e2 > e1 + 1 && e2 < s.len() && s[e2] == '.') {
        return false;
    }
    e2 + 1 < s.len() && is_digit(s[e2 + 1])
}

fn version_at_exec(s: &[char], p: usize) -> (r: BinaryVersion)
    requires
        p < s@.len(),
        version_match_at(s@, p as int),
    ensures
        r == version_at(s@, p as int),
{
    let n = s.len();
    proof {
        lemma_digit_run_end(s@, p as int);
    }
    let e1 = digit_run_end_exec(s, p);
    assert(e1 < n);
    proof {
        lemma_digit_run_end(s@, e1 + 1);
    }
    let e2 = digit_run_end_exec(s, e1 + 1);
    assert(e2 < n);
    proof {
        lemma_digit_run_end(s@, e2 + 1);
    }
    let e3 = digit_run_end_exec(s, e2 + 1);
    let plen = e3 - (e2 + 1);
    let pe = if plen > 2 {
        (e2 + 1) + 2
    } else {
        e3
    };
    proof {
        assert(pe as int == (if e3 as int > e2 + 3 { e2 + 3int } else { e3 as int }));
    }
    let major = component_value(s, p, e1);
    let minor = component_value(s, e1 + 1, e2);
    let patch = component_value(s, e2 + 1, pe);
    BinaryVersion { major_version: major, minor_version: minor, patch_version: patch }
}

/// Scans the marker text for the leftmost version pattern.
fn scan_version(s: &[char]) -> (r: Option<BinaryVersion>)
    ensures
        match first_match_from(s@, 0) {
            Some(p) => r == Some(version_at(s@, p)),
            None => r is None,
        },
{
    let n = s.len();
    let mut p: usize = 0;
    while p < n
        invariant
            p <= n == s@.len(),
            first_match_from(s@, 0) == first_match_from(s@, p as int),
        decreases n - p,
    {
        if version_match_at_exec(s, p) {
            return Some(version_at_exec(s, p));
        }
        p = p + 1;
    }
    None
}

impl BinaryVersion {
    /// The zero version, the fallback for an unparsable marker.
    pub fn zero() -> (r: Self)
        ensures
            r == (BinaryVersion { major_version: 0, minor_version: 0, patch_version: 0 }),
    {
        BinaryVersion { major_version: 0, minor_version: 0, patch_version: 0 }
    }

    /// Reads the version out of the marker file's text under the chosen
    /// fallback policy.
    pub fn parse(content: &str, policy: VersionParsePolicy) -> (r: Result<Self, AppError>)
        ensures
            r == spec_parse_version(content@, policy),
    {
        let chars = str_to_chars(content);
        match scan_version(chars.as_slice()) {
            Some(v) => Ok(v),
            None => match policy {
                VersionParsePolicy::ZeroFallback => Ok(BinaryVersion::zero()),
                VersionParsePolicy::Strict => Err(AppError::VersionParse),
            },
        }
    }

    /// The `major.minor.patch` rendering of this version.
    pub fn to_version_string(&self) -> (r: String)
        ensures
            r@ == spec_version_string(*self),
    {
        let mut s = crate::decimal::u64_to_string(self.major_version as u64);
        let dot = crate::text::chars_to_string(['.'].as_slice());
        s.append(dot.as_str());
        let minor = crate::decimal::u64_to_string(self.minor_version as u64);
        s.append(minor.as_str());
        s.append(dot.as_str());
        let patch = crate::decimal::u64_to_string(self.patch_version as u64);
        s.append(patch.as_str());
        proof {
            assert(s@ =~= spec_version_string(*self));
        }
        s
    }
}

/// `major.minor.patch` as characters.
pub open spec fn spec_version_string(v: BinaryVersion) -> Seq<char> {
    spec_dec(v.major_version as nat) + seq!['.'] + spec_dec(v.minor_version as nat) + seq!['.']
        + spec_dec(v.patch_version as nat)
}

} // verus!
