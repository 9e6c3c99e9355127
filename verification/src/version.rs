//! Effective versions: the parsed `major.minor.patch` triple of a module,
//! and the compatibility relation used when two dependencies name the same
//! module with different versions.

use vstd::prelude::*;
use crate::text::{find_char, lemma_find, spec_find};

verus! {

/// A parsed three-part version.
#[derive(Debug, Clone, Copy, PartialEq, Eq, Structural)]
pub struct EffectiveVersion {
    pub major: u16,
    pub minor: u16,
    pub patch: u16,
}

/// How two versions of one module relate: the left operand is equal to,
/// older than, or newer than the right one, or the two cannot coexist.
#[derive(Debug, Clone, Copy, PartialEq, Eq, Structural)]
pub enum VersionCompatibility {
    Equals,
    LessThan,
    GreaterThan,
    Conflict,
}

pub open spec fn is_dec_digit(c: char) -> bool {
    '0' <= c && c <= '9'
}

pub open spec fn dec_digit_val(c: char) -> int {
    c as int - '0' as int
}

/// The numeric value of a digit string, most significant digit first.
pub open spec fn spec_dec_value(s: Seq<char>) -> int
    decreases s.len(),
{
    if s.len() == 0 {
        0
    } else {
        spec_dec_value(s.drop_last()) * 10 + dec_digit_val(s.last())
    }
}

pub open spec fn is_dec_digits(s: Seq<char>) -> bool {
    s.len() > 0 && forall|i: int| 0 <= i < s.len() ==> is_dec_digit(s[i])
}

/// A longer digit string never has a smaller value than its prefix.
proof fn lemma_dec_value_monotone(s: Seq<char>, i: int)
    requires
        0 <= i <= s.len(),
        forall|k: int| 0 <= k < s.len() ==> is_dec_digit(s[k]),
    ensures
        spec_dec_value(s.take(i)) <= spec_dec_value(s),
        spec_dec_value(s) >= 0,
    decreases s.len() - i,
{
    if i == s.len() {
        assert(s.take(i) =~= s);
        lemma_dec_value_nonneg(s);
    } else {
        lemma_dec_value_monotone(s, i + 1);
        lemma_dec_value_nonneg(s.take(i));
        assert(s.take(i + 1).drop_last() =~= s.take(i));
        assert(s.take(i + 1).last() == s[i]);
    }
}

proof fn lemma_dec_value_nonneg(s: Seq<char>)
    requires
        forall|k: int| 0 <= k < s.len() ==> is_dec_digit(s[k]),
    ensures
        spec_dec_value(s) >= 0,
    decreases s.len(),
{
    if s.len() > 0 {
        lemma_dec_value_nonneg(s.drop_last());
    }
}

/// Parses a decimal digit string into a `u16`. Nothing is returned when a
/// character is not a digit, the string is empty, or the value does not fit.
pub fn parse_dec_u16(s: &str) -> (r: Option<u16>)
    ensures
        match r {
            Some(v) => is_dec_digits(s@) && spec_dec_value(s@) == v as int,
            None => !(is_dec_digits(s@) && spec_dec_value(s@) <= u16::MAX as int),
        },
{
    let n = s.unicode_len();
    if n == 0 {
        return None;
    }
    let mut acc: u32 = 0;
    let mut i: usize = 0;
    while i < n
        invariant
            i <= n,
            n == s@.len(),
            n > 0,
            forall|k: int| 0 <= k < i ==> is_dec_digit(s@[k]),
            acc as int == spec_dec_value(s@.take(i as int)),
            acc <= u16::MAX as u32,
        decreases n - i,
    {
        let c = s.get_char(i);
        if !('0' <= c && c <= '9') {
            return None;
        }
        let d: u32 = (c as u32) - ('0' as u32);
        let next: u32 = acc * 10 + d;
        proof {
            assert(s@.take(i + 1 as int).drop_last() =~= s@.take(i as int));
            assert(s@.take(i + 1 as int).last() == s@[i as int]);
        }
        if next > u16::MAX as u32 {
            proof {
                if is_dec_digits(s@) {
                    lemma_dec_value_monotone(s@, i + 1);
                    assert(spec_dec_value(s@) >= next as int);
                }
            }
            return None;
        }
        acc = next;
        i = i + 1;
    }
    proof {
        assert(s@.take(n as int) =~= s@);
    }
    Some(acc as u16)
}

/// Splits a version string at its two dots. Nothing is returned unless the
/// string holds exactly two dots.
pub open spec fn spec_version_parts(s: Seq<char>) -> Option<(Seq<char>, Seq<char>, Seq<char>)> {
    match spec_find(s, '.') {
        None => None,
        Some(i) => {
            let rest = s.skip(i + 1);
            match spec_find(rest, '.') {
                None => None,
                Some(k) => {
                    let third = rest.skip(k + 1);
                    if spec_find(third, '.') is None {
                        Some((s.take(i), rest.take(k), third))
                    } else {
                        None
                    }
                },
            }
        },
    }
}

/// A well-formed version string: two dots separating three decimal digit
/// groups, each fitting in a `u16`.
pub open spec fn is_version_string(s: Seq<char>) -> bool {
    match spec_version_parts(s) {
        None => false,
        Some((a, b, c)) => is_dec_digits(a) && spec_dec_value(a) <= u16::MAX as int
            && is_dec_digits(b) && spec_dec_value(b) <= u16::MAX as int && is_dec_digits(c)
            && spec_dec_value(c) <= u16::MAX as int,
    }
}

/// The triple a well-formed version string denotes.
pub open spec fn spec_parse_version(s: Seq<char>) -> EffectiveVersion
    recommends
        is_version_string(s),
{
    let (a, b, c) = spec_version_parts(s)->Some_0;
    EffectiveVersion {
        major: spec_dec_value(a) as u16,
        minor: spec_dec_value(b) as u16,
        patch: spec_dec_value(c) as u16,
    }
}

/// Parses `major.minor.patch`. Nothing is returned on a malformed string.
pub fn parse_effective_version(s: &str) -> (r: Option<EffectiveVersion>)
    ensures
        r is Some <==> is_version_string(s@),
        r is Some ==> r->Some_0 == spec_parse_version(s@),
{
    let n = s.unicode_len();
    let first = match find_char(s, '.') {
        Some(i) => i,
        None => {
            return None;
        },
    };
    proof {
        lemma_find(s@, '.');
    }
    let rest = s.substring_char(first + 1, n);
    let rest_n = n - (first + 1);
    let second = match find_char(rest, '.') {
        Some(k) => k,
        None => {
            return None;
        },
    };
    proof {
        lemma_find(rest@, '.');
    }
    let third = rest.substring_char(second + 1, rest_n);
    if find_char(third, '.').is_some() {
        return None;
    }
    let a = s.substring_char(0, first);
    let b = rest.substring_char(0, second);
    proof {
        assert(a@ =~= s@.take(first as int));
        assert(b@ =~= s@.skip(first + 1).take(second as int));
        assert(third@ =~= s@.skip(first + 1).skip(second + 1));
    }
    let major = match parse_dec_u16(a) {
        Some(v) => v,
        None => {
            return None;
        },
    };
    let minor = match parse_dec_u16(b) {
        Some(v) => v,
        None => {
            return None;
        },
    };
    let patch = match parse_dec_u16(third) {
        Some(v) => v,
        None => {
            return None;
        },
    };
    Some(EffectiveVersion { major, minor, patch })
}

/// The compatibility rule: differing majors conflict; under major zero,
/// differing minors conflict too; otherwise the minor and patch numbers
/// order the two versions.
pub open spec fn spec_compatible(a: EffectiveVersion, b: EffectiveVersion) -> VersionCompatibility {
    if a.major != b.major {
        VersionCompatibility::Conflict
    } else if a.major == 0 && a.minor != b.minor {
        VersionCompatibility::Conflict
    } else if a.minor > b.minor {
        VersionCompatibility::GreaterThan
    } else if a.minor < b.minor {
        VersionCompatibility::LessThan
    } else if a.patch > b.patch {
        VersionCompatibility::GreaterThan
    } else if a.patch < b.patch {
        VersionCompatibility::LessThan
    } else {
        VersionCompatibility::Equals
    }
}

impl EffectiveVersion {
    pub fn new(major: u16, minor: u16, patch: u16) -> (r: Self)
        ensures
            r == (EffectiveVersion { major, minor, patch }),
    {
        EffectiveVersion { major, minor, patch }
    }

    /// How `self` relates to `other` under the compatibility rule.
    pub fn compatible(&self, other: &EffectiveVersion) -> (r: VersionCompatibility)
        ensures
            r == spec_compatible(*self, *other),
    {
        if self.major != other.major {
            VersionCompatibility::Conflict
        } else if self.major == 0 && self.minor != other.minor {
            VersionCompatibility::Conflict
        } else if self.minor > other.minor {
            VersionCompatibility::GreaterThan
        } else if self.minor < other.minor {
            VersionCompatibility::LessThan
        } else if self.patch > other.patch {
            VersionCompatibility::GreaterThan
        } else if self.patch < other.patch {
            VersionCompatibility::LessThan
        } else {
            VersionCompatibility::Equals
        }
    }
}

} // verus!
