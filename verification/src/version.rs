//! The version model: an ordered (major, minor, patch) triple.

use vstd::prelude::*;

use crate::text::digit_char;
use crate::text::digit_run;
use crate::text::digit_val;
use crate::text::digits_val;
use crate::text::lemma_digit_run_at_least;
use crate::text::lemma_digit_run_is;
use crate::text::lemma_digits_val_prefix_le;
use crate::text::str_chars;

verus! {

/// The text did not begin with three dot-separated decimal components, or a
/// component overflowed the machine word.
#[derive(Clone, Copy, Debug, PartialEq, Eq, Structural)]
pub struct ParseError;

/// A toolchain version, ordered lexicographically by (major, minor, patch).
#[derive(Clone, Copy, Debug, PartialEq, Eq, Structural, PartialOrd, Ord, Hash)]
pub struct Version {
    pub major: usize,
    pub minor: usize,
    pub patch: usize,
}

impl Version {
    /// Strict lexicographic order on the triple.
    pub open spec fn spec_lt(self, other: Version) -> bool {
        ||| self.major < other.major
        ||| (self.major == other.major && self.minor < other.minor)
        ||| (self.major == other.major && self.minor == other.minor && self.patch < other.patch)
    }

    /// The discovered version satisfies a "at least major.minor" requirement.
    pub open spec fn spec_at_least(self, major: usize, minor: usize) -> bool {
        self.major > major || (self.major == major && self.minor >= minor)
    }

    pub fn new(major: usize, minor: usize, patch: usize) -> (v: Version)
        ensures
            v == (Version { major, minor, patch }),
    {
        Version { major, minor, patch }
    }

    pub fn lt(&self, other: &Version) -> (r: bool)
        ensures
            r == self.spec_lt(*other),
    {
        if self.major != other.major {
            self.major < other.major
        } else if self.minor != other.minor {
            self.minor < other.minor
        } else {
            self.patch < other.patch
        }
    }

    /// Three-way comparison in the lexicographic order.
    pub fn compare(&self, other: &Version) -> (r: core::cmp::Ordering)
        ensures
            self.spec_lt(*other) ==> r == core::cmp::Ordering::Less,
            other.spec_lt(*self) ==> r == core::cmp::Ordering::Greater,
            !self.spec_lt(*other) && !other.spec_lt(*self) ==> r == core::cmp::Ordering::Equal
                && *self == *other,
    {
        if self.lt(other) {
            core::cmp::Ordering::Less
        } else if other.lt(self) {
            core::cmp::Ordering::Greater
        } else {
            core::cmp::Ordering::Equal
        }
    }

    /// The discovered version meets a "at least major.minor" requirement.
    pub fn at_least(&self, major: usize, minor: usize) -> (r: bool)
        ensures
            r == self.spec_at_least(major, minor),
    {
        self.major > major || (self.major == major && self.minor >= minor)
    }
}

/// The reading of a version triple at the head of the text: the three
/// component values and how many characters the triple spans, or nothing
/// when the text does not begin with three dot-separated digit runs.
pub open spec fn spec_parse_triple(s: Seq<char>) -> Option<(nat, nat, nat, nat)> {
    let a = digit_run(s) as int;
    let s2 = s.skip(a + 1);
    let b = digit_run(s2) as int;
    let s3 = s2.skip(b + 1);
    let c = digit_run(s3) as int;
    if a == 0 || a >= s.len() || s[a] != '.' {
        None
    } else if b == 0 || b >= s2.len() || s2[b] != '.' {
        None
    } else if c == 0 {
        None
    } else {
        Some(
            (
                digits_val(s.take(a)),
                digits_val(s2.take(b)),
                digits_val(s3.take(c)),
                (a + 1 + b + 1 + c) as nat,
            ),
        )
    }
}

/// All three components of a parsed triple fit in the machine word.
pub open spec fn spec_triple_fits(t: (nat, nat, nat, nat)) -> bool {
    t.0 <= usize::MAX && t.1 <= usize::MAX && t.2 <= usize::MAX
}

/// Read the decimal number beginning at `start`: its value and the position
/// just past its digits.  Nothing when no digit stands at `start` or the
/// value overflows the machine word.
pub(crate) fn scan_number(v: &Vec<char>, start: usize) -> (r: Option<(usize, usize)>)
    requires
        start <= v.len(),
    ensures
        ({
            let run = digit_run(v@.skip(start as int)) as int;
            let val = digits_val(v@.skip(start as int).take(run));
            match r {
                Some(p) => run > 0 && val <= usize::MAX && p.0 == val && p.1 == start + run
                    && p.1 <= v.len(),
                None => run == 0 || val > usize::MAX,
            }
        }),
{
    let ghost s = v@.skip(start as int);
    let mut i: usize = start;
    let mut acc: usize = 0;
    while i < v.len() && v[i] as u32 >= 48 && v[i] as u32 <= 57
        invariant
            start <= i <= v.len(),
            s == v@.skip(start as int),
            forall|k: int| 0 <= k < i - start ==> digit_char(s[k]),
            acc == digits_val(s.take(i - start)),
        decreases v.len() - i,
    {
        let c = v[i];
        let d = (c as u32 - 48) as usize;
        proof {
            assert(s[i - start] == v@[i as int]);
            assert(digit_char(c));
            assert(s.take(i - start + 1).drop_last() =~= s.take(i - start));
            assert(s.take(i - start + 1).last() == c);
            assert(digits_val(s.take(i - start + 1)) == acc * 10 + digit_val(c));
        }
        if acc > (usize::MAX - d) / 10 {
            proof {
                let q = (usize::MAX - d) / 10;
                assert(q * 10 + (usize::MAX - d) % 10 == usize::MAX - d);
                assert(acc * 10 + d > usize::MAX);
                lemma_digit_run_at_least(s, i - start + 1);
                crate::text::lemma_digit_run_le_len(s);
                lemma_digits_val_prefix_le(s, i - start + 1, digit_run(s) as int);
            }
            return None;
        }
        proof {
            let q = (usize::MAX - d) / 10;
            assert(q * 10 + (usize::MAX - d) % 10 == usize::MAX - d);
            assert(acc * 10 + d <= usize::MAX);
        }
        acc = acc * 10 + d;
        i += 1;
    }
    proof {
        assert(i < v.len() ==> s[i - start] == v@[i as int]);
        lemma_digit_run_is(s, i - start);
    }
    if i == start {
        None
    } else {
        Some((acc, i))
    }
}

/// Read a version triple beginning at `start`: the parsed version and the
/// position just past the patch digits.
pub(crate) fn parse_triple_chars(v: &Vec<char>, start: usize) -> (r: Option<(Version, usize)>)
    requires
        start <= v.len(),
    ensures
        ({
            let p = spec_parse_triple(v@.skip(start as int));
            match (r, p) {
                (Some(q), Some(t)) => spec_triple_fits(t) && q.0.major == t.0 && q.0.minor == t.1
                    && q.0.patch == t.2 && q.1 == start + t.3,
                (Some(_), None) => false,
                (None, Some(t)) => !spec_triple_fits(t),
                (None, None) => true,
            }
        }),
{
    let ghost s = v@.skip(start as int);
    let first = scan_number(v, start);
    if first.is_none() {
        return None;
    }
    let (major, i1) = first.unwrap();
    if i1 == v.len() || v[i1] != '.' {
        proof {
            assert(i1 < v.len() ==> s[i1 - start] == v@[i1 as int]);
        }
        return None;
    }
    proof {
        assert(s[i1 - start] == v@[i1 as int]);
        assert(v@.skip(i1 as int + 1) =~= s.skip(i1 - start + 1));
    }
    let second = scan_number(v, i1 + 1);
    if second.is_none() {
        return None;
    }
    let (minor, i2) = second.unwrap();
    if i2 == v.len() || v[i2] != '.' {
        proof {
            let s2 = s.skip(i1 - start + 1);
            assert(i2 < v.len() ==> s2[i2 - i1 - 1] == v@[i2 as int]);
        }
        return None;
    }
    proof {
        let s2 = s.skip(i1 - start + 1);
        assert(s2[i2 - i1 - 1] == v@[i2 as int]);
        assert(v@.skip(i2 as int + 1) =~= s2.skip(i2 - i1 - 1 + 1));
    }
    let third = scan_number(v, i2 + 1);
    if third.is_none() {
        return None;
    }
    let (patch, i3) = third.unwrap();
    Some((Version { major, minor, patch }, i3))
}

impl Version {
    /// Parse the canonical "MAJOR.MINOR.PATCH" form; whatever follows the
    /// patch digits is pre-release or build metadata and is discarded.
    pub fn parse(s: &str) -> (r: Result<Version, ParseError>)
        ensures
            ({
                let p = spec_parse_triple(s@);
                match (r, p) {
                    (Ok(v), Some(t)) => spec_triple_fits(t) && v.major == t.0 && v.minor == t.1
                        && v.patch == t.2,
                    (Ok(_), None) => false,
                    (Err(_), Some(t)) => !spec_triple_fits(t),
                    (Err(_), None) => true,
                }
            }),
    {
        let chars = str_chars(s);
        proof {
            assert(chars@.skip(0) =~= s@);
        }
        match parse_triple_chars(&chars, 0) {
            Some(p) => Ok(p.0),
            None => Err(ParseError),
        }
    }
}

/// The version order is a strict total order: irreflexive, transitive, and
/// any two distinct versions are ordered one way or the other, never both.
pub proof fn lemma_version_strict_total_order(a: Version, b: Version, c: Version)
    ensures
        !a.spec_lt(a),
        a.spec_lt(b) && b.spec_lt(c) ==> a.spec_lt(c),
        a.spec_lt(b) ==> !b.spec_lt(a),
        a != b ==> a.spec_lt(b) || b.spec_lt(a),
{
}

/// A construct introduced at version (1, y, 0) is gated off by the
/// version facade on every (1, y-1, z) toolchain, and gated on for
/// (1, y, 0) and (1, y+1, 0).
pub proof fn lemma_version_gate(y: usize, z: usize)
    requires
        1 <= y,
        y < usize::MAX,
    ensures
        !(Version { major: 1, minor: (y - 1) as usize, patch: z }).spec_at_least(1, y),
        (Version { major: 1, minor: y, patch: 0 }).spec_at_least(1, y),
        (Version { major: 1, minor: (y + 1) as usize, patch: 0 }).spec_at_least(1, y),
{
}

} // verus!
