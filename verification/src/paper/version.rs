//! Minecraft versions as Paper names them, such as `1.21.9`, `26.2`, `1.21.9-pre3` or
//! `26.2-rc-2`.

use vstd::prelude::*;
use vstd::string::*;

use crate::text::{
    all_digits, capped, chars_of, decimal, decimal_value, digit_value, is_digit,
    lemma_decimal_digits, lemma_decimal_value_push, lemma_take_digits_concat,
    lemma_take_digits_step, push_decimal, scan_digits, starts_with, starts_without_digit,
    take_digits,
};

verus! {

/// Minecraft version supported by Paper.
#[derive(Debug, Clone, PartialEq, Eq, Ord, Structural)]
pub struct Version {
    pub major: u32,
    pub minor: u32,
    pub patch: u32,
    pub release: Option<Release>,
}

/// A version published ahead of a release.
#[derive(Debug, Clone, Copy, PartialEq, Eq, PartialOrd, Ord, Structural)]
pub enum Release {
    PreRelease(u32),
    ReleaseCandidate(u32),
}

/// The text did not have the shape of a version.
#[derive(Debug)]
pub struct InvalidVersionError;

impl InvalidVersionError {
    /// What went wrong, in words.
    pub fn message(&self) -> (text: &'static str)
        ensures
            text@ == "invalid format"@,
    {
        "invalid format"
    }
}

/// The numbers read from a version text, before they are fitted into `u32`:
/// major, minor, patch (if written), and release (`true` for a release candidate) with its number.
pub type VersionParts = (nat, nat, Option<nat>, Option<(bool, nat)>);

/// The release suffix: nothing, or `-pre` or `-rc`, an optional `-`, and a number that ends
/// the text.
pub open spec fn parse_release(r: Seq<char>) -> Option<Option<(bool, nat)>> {
    if r.len() == 0 {
        Some(None)
    } else if r[0] != '-' {
        None
    } else {
        let t = r.drop_first();
        let kind: Option<(bool, Seq<char>)> = if starts_with(t, seq!['p', 'r', 'e']) {
            Some((false, t.skip(3)))
        } else if starts_with(t, seq!['r', 'c']) {
            Some((true, t.skip(2)))
        } else {
            None
        };
        match kind {
            None => None,
            Some((rc, u)) => {
                let v = if u.len() > 0 && u[0] == '-' {
                    u.drop_first()
                } else {
                    u
                };
                let (n, rest) = take_digits(v);
                if n.len() > 0 && rest.len() == 0 {
                    Some(Some((rc, decimal_value(n))))
                } else {
                    None
                }
            },
        }
    }
}

/// The optional patch part that follows the minor number: nothing, or `.` and a number.
/// Gives the patch and what follows it.
pub open spec fn parse_patch(r: Seq<char>) -> Option<(Option<nat>, Seq<char>)> {
    if r.len() > 0 && r[0] == '.' {
        let (p, rest) = take_digits(r.drop_first());
        if p.len() > 0 {
            Some((Some(decimal_value(p)), rest))
        } else {
            None
        }
    } else {
        Some((None, r))
    }
}

/// The version grammar `major.minor[.patch][-(pre|rc)[-]number]`, each number a non-empty run
/// of ASCII digits, matched against the whole text.
pub open spec fn parse_version_parts(s: Seq<char>) -> Option<VersionParts> {
    let (major, r1) = take_digits(s);
    if major.len() == 0 || r1.len() == 0 || r1[0] != '.' {
        None
    } else {
        let (minor, r2) = take_digits(r1.drop_first());
        if minor.len() == 0 {
            None
        } else {
            match parse_patch(r2) {
                None => None,
                Some((patch, r3)) => match parse_release(r3) {
                    None => None,
                    Some(release) => Some(
                        (decimal_value(major), decimal_value(minor), patch, release),
                    ),
                },
            }
        }
    }
}

/// Every number of a text that has the version grammar fits in a `u32`.
/// (Texts without the grammar trivially qualify.)
pub open spec fn version_numbers_fit(s: Seq<char>) -> bool {
    match parse_version_parts(s) {
        None => true,
        Some((major, minor, patch, release)) => {
            &&& major <= u32::MAX
            &&& minor <= u32::MAX
            &&& (patch matches Some(p) ==> p <= u32::MAX)
            &&& (release matches Some((_, n)) ==> n <= u32::MAX)
        },
    }
}

/// The version that parts stand for; a missing patch is 0.
pub open spec fn version_from_parts(parts: VersionParts) -> Version {
    let (major, minor, patch, release) = parts;
    Version {
        major: major as u32,
        minor: minor as u32,
        patch: match patch {
            Some(p) => p as u32,
            None => 0,
        },
        release: release_from_part(release),
    }
}

/// What parsing a text gives.
pub open spec fn parse_version(s: Seq<char>) -> Result<Version, InvalidVersionError> {
    match parse_version_parts(s) {
        Some(parts) => Ok(version_from_parts(parts)),
        None => Err(InvalidVersionError),
    }
}

/// The text of a release suffix. Release candidates of versions from major 26 on put a `-`
/// between `rc` and the number.
pub open spec fn release_text(major: u32, release: Option<Release>) -> Seq<char> {
    match release {
        None => Seq::empty(),
        Some(Release::PreRelease(n)) => seq!['-', 'p', 'r', 'e'] + decimal(n as nat),
        Some(Release::ReleaseCandidate(n)) => if major >= 26 {
            seq!['-', 'r', 'c', '-'] + decimal(n as nat)
        } else {
            seq!['-', 'r', 'c'] + decimal(n as nat)
        },
    }
}

/// The text of a version: `major.minor`, then `.patch` unless the patch is 0, then the release.
pub open spec fn version_text(v: Version) -> Seq<char> {
    decimal(v.major as nat) + (seq!['.'] + (decimal(v.minor as nat) + ((if v.patch > 0 {
        seq!['.'] + decimal(v.patch as nat)
    } else {
        Seq::empty()
    }) + release_text(v.major, v.release))))
}

/// The parts that a version's text is read back into.
pub open spec fn parts_of(v: Version) -> VersionParts {
    (
        v.major as nat,
        v.minor as nat,
        if v.patch > 0 {
            Some(v.patch as nat)
        } else {
            None
        },
        match v.release {
            None => None,
            Some(Release::PreRelease(n)) => Some((false, n as nat)),
            Some(Release::ReleaseCandidate(n)) => Some((true, n as nat)),
        },
    )
}

/// The order that versions compare by: major, minor, patch, then the release, where no release
/// comes before any release and a pre-release before any release candidate.
pub open spec fn release_lt(a: Option<Release>, b: Option<Release>) -> bool {
    match (a, b) {
        (None, Some(_)) => true,
        (Some(Release::PreRelease(x)), Some(Release::PreRelease(y))) => x < y,
        (Some(Release::PreRelease(_)), Some(Release::ReleaseCandidate(_))) => true,
        (Some(Release::ReleaseCandidate(x)), Some(Release::ReleaseCandidate(y))) => x < y,
        _ => false,
    }
}

pub open spec fn version_lt(a: Version, b: Version) -> bool {
    ||| a.major < b.major
    ||| a.major == b.major && a.minor < b.minor
    ||| a.major == b.major && a.minor == b.minor && a.patch < b.patch
    ||| a.major == b.major && a.minor == b.minor && a.patch == b.patch && release_lt(
        a.release,
        b.release,
    )
}

/// The release that a parsed release part stands for.
pub open spec fn release_from_part(part: Option<(bool, nat)>) -> Option<Release> {
    match part {
        None => None,
        Some((false, n)) => Some(Release::PreRelease(n as u32)),
        Some((true, n)) => Some(Release::ReleaseCandidate(n as u32)),
    }
}

/// Reads the release suffix that starts at `p` and runs to the end of `chars`.
fn scan_release(chars: &Vec<char>, p: usize) -> (res: Option<Option<(bool, u64)>>)
    requires
        p <= chars@.len(),
    ensures
        res is Some <==> parse_release(chars@.skip(p as int)) is Some,
        res matches Some(r) ==> (r is Some <==> parse_release(chars@.skip(p as int))->0 is Some),
        res matches Some(Some((rc, n))) ==> {
            &&& parse_release(chars@.skip(p as int)) matches Some(Some((rc2, m)))
            &&& rc == rc2
            &&& capped(n, m)
        },
{
    let len = chars.len();
    let ghost t = chars@;
    if p == len {
        proof {
            assert(t.skip(p as int) =~= Seq::<char>::empty());
        }
        return Some(None);
    }
    if chars[p] != '-' {
        return None;
    }
    let q0 = p + 1;
    proof {
        assert(t.skip(p as int).drop_first() =~= t.skip(q0 as int));
    }
    let ghost w = t.skip(q0 as int);
    let mut q = q0;
    let mut rc = false;
    if q < len && len - q >= 3 && chars[q] == 'p' && chars[q + 1] == 'r' && chars[q + 2] == 'e' {
        proof {
            assert(w.subrange(0, 3) =~= seq!['p', 'r', 'e']);
            assert(w.skip(3) =~= t.skip(q0 as int + 3));
        }
        q = q + 3;
    } else if q < len && len - q >= 2 && chars[q] == 'r' && chars[q + 1] == 'c' {
        proof {
            assert(!starts_with(w, seq!['p', 'r', 'e'])) by {
                if starts_with(w, seq!['p', 'r', 'e']) {
                    assert(w.subrange(0, 3)[2] == t[q0 as int + 2]);
                }
            }
            assert(w.subrange(0, 2) =~= seq!['r', 'c']);
            assert(w.skip(2) =~= t.skip(q0 as int + 2));
        }
        rc = true;
        q = q + 2;
    } else {
        proof {
            if starts_with(w, seq!['p', 'r', 'e']) {
                assert(w.subrange(0, 3)[0] == t[q0 as int]);
                assert(w.subrange(0, 3)[1] == t[q0 as int + 1]);
                assert(w.subrange(0, 3)[2] == t[q0 as int + 2]);
            }
            if starts_with(w, seq!['r', 'c']) {
                assert(w.subrange(0, 2)[0] == t[q0 as int]);
                assert(w.subrange(0, 2)[1] == t[q0 as int + 1]);
            }
        }
        return None;
    }
    let ghost u = t.skip(q as int);
    if q < len && chars[q] == '-' {
        proof {
            assert(u.drop_first() =~= t.skip(q as int + 1));
        }
        q = q + 1;
    }
    let (e, number) = scan_digits(chars, q);
    if e == q || e != len {
        return None;
    }
    proof {
        assert(t.skip(e as int) =~= Seq::<char>::empty());
    }
    Some(Some((rc, number)))
}

/// The numbers of a version text, each exact when it fits in a `u32` and above `u32::MAX`
/// otherwise.
type ScannedParts = (u64, u64, Option<u64>, Option<(bool, u64)>);

/// `scanned` holds the numbers of `parts`, capped as [`capped`] says.
pub open spec fn scanned_as(scanned: (u64, u64, Option<u64>, Option<(bool, u64)>), parts: VersionParts) -> bool {
    &&& capped(scanned.0, parts.0)
    &&& capped(scanned.1, parts.1)
    &&& (scanned.2 is Some <==> parts.2 is Some)
    &&& (scanned.2 matches Some(x) ==> capped(x, parts.2->0))
    &&& (scanned.3 is Some <==> parts.3 is Some)
    &&& (scanned.3 matches Some((rc, x)) ==> (parts.3 matches Some((rc2, m)) && rc == rc2
        && capped(x, m)))
}

/// Reads the parts of a version text.
fn scan_version(chars: &Vec<char>) -> (res: Option<ScannedParts>)
    ensures
        res is Some <==> parse_version_parts(chars@) is Some,
        res matches Some(scanned) ==> scanned_as(scanned, parse_version_parts(chars@)->0),
{
    let len = chars.len();
    let ghost t = chars@;
    let (a, major) = scan_digits(chars, 0);
    proof {
        assert(t.skip(0) =~= t);
    }
    if a == 0 || a >= len || chars[a] != '.' {
        return None;
    }
    proof {
        assert(t.skip(a as int).drop_first() =~= t.skip(a as int + 1));
    }
    let (b, minor) = scan_digits(chars, a + 1);
    if b == a + 1 {
        return None;
    }
    let mut patch: Option<u64> = None;
    let mut p = b;
    if b < len && chars[b] == '.' {
        proof {
            assert(t.skip(b as int).drop_first() =~= t.skip(b as int + 1));
        }
        let (c, value) = scan_digits(chars, b + 1);
        if c == b + 1 {
            return None;
        }
        patch = Some(value);
        p = c;
    }
    match scan_release(chars, p) {
        None => None,
        Some(release) => Some((major, minor, patch, release)),
    }
}

/// Reading back the text of a release suffix gives the release.
proof fn lemma_parse_release_text(major: u32, release: Option<Release>)
    ensures
        parse_release(release_text(major, release)) == Some(parts_of_release(release)),
{
    match release {
        None => {},
        Some(r) => {
            let n = match r {
                Release::PreRelease(n) => n,
                Release::ReleaseCandidate(n) => n,
            };
            lemma_decimal_digits(n as nat);
            lemma_take_digits_concat(decimal(n as nat), Seq::empty());
            assert(decimal(n as nat) + Seq::<char>::empty() =~= decimal(n as nat));
            let text = release_text(major, release);
            let t = text.drop_first();
            match r {
                Release::PreRelease(_) => {
                    assert(t =~= seq!['p', 'r', 'e'] + decimal(n as nat));
                    assert(t.subrange(0, 3) =~= seq!['p', 'r', 'e']);
                    assert(t.skip(3) =~= decimal(n as nat));
                },
                Release::ReleaseCandidate(_) => {
                    assert(t[0] == 'r');
                    assert(!starts_with(t, seq!['p', 'r', 'e']));
                    assert(t.subrange(0, 2) =~= seq!['r', 'c']);
                    if major >= 26 {
                        assert(t.skip(2) =~= seq!['-'] + decimal(n as nat));
                        assert(t.skip(2).drop_first() =~= decimal(n as nat));
                    } else {
                        assert(t.skip(2) =~= decimal(n as nat));
                    }
                },
            }
        },
    }
}

/// The release part that a release is read back into.
pub open spec fn parts_of_release(release: Option<Release>) -> Option<(bool, nat)> {
    match release {
        None => None,
        Some(Release::PreRelease(n)) => Some((false, n as nat)),
        Some(Release::ReleaseCandidate(n)) => Some((true, n as nat)),
    }
}

/// Reading back the text of a version gives the version: its parts are those of the version,
/// and they all fit in a `u32`.
pub proof fn lemma_parse_version_text(v: Version)
    ensures
        parse_version_parts(version_text(v)) == Some(parts_of(v)),
        version_numbers_fit(version_text(v)),
        parse_version(version_text(v)) == Ok::<Version, InvalidVersionError>(v),
{
    let rel = release_text(v.major, v.release);
    lemma_parse_release_text(v.major, v.release);
    lemma_decimal_digits(v.major as nat);
    lemma_decimal_digits(v.minor as nat);
    lemma_decimal_digits(v.patch as nat);
    let patch_text = if v.patch > 0 {
        seq!['.'] + decimal(v.patch as nat)
    } else {
        Seq::<char>::empty()
    };
    let after_minor = patch_text + rel;
    let after_major = seq!['.'] + (decimal(v.minor as nat) + after_minor);
    let text = version_text(v);
    assert(text == decimal(v.major as nat) + after_major);
    assert(starts_without_digit(rel));
    lemma_take_digits_concat(decimal(v.major as nat), after_major);
    assert(after_major.drop_first() =~= decimal(v.minor as nat) + after_minor);
    assert(starts_without_digit(after_minor));
    lemma_take_digits_concat(decimal(v.minor as nat), after_minor);
    if v.patch > 0 {
        assert(after_minor.drop_first() =~= decimal(v.patch as nat) + rel);
        lemma_take_digits_concat(decimal(v.patch as nat), rel);
    } else {
        assert(after_minor =~= rel);
    }
    assert(parse_patch(after_minor) == Some((parts_of(v).2, rel)));
    match v.release {
        None => {},
        Some(Release::PreRelease(n)) => {},
        Some(Release::ReleaseCandidate(n)) => {},
    }
    assert(version_from_parts(parts_of(v)) == v);
}

impl Default for Version {
    /// Minecraft 26.2, a version that Paper supports.
    fn default() -> (version: Version)
        ensures
            version == (Version { major: 26, minor: 2, patch: 0, release: None }),
    {
        Version { major: 26, minor: 2, patch: 0, release: None }
    }
}

impl std::str::FromStr for Version {
    type Err = InvalidVersionError;

    /// Reads a version as [`Version::parse`] does. A text in the version grammar with a number
    /// too large for a `u32` gives [`InvalidVersionError`] too.
    fn from_str(s: &str) -> (res: Result<Version, InvalidVersionError>)
        ensures
            res == if version_numbers_fit(s@) {
                parse_version(s@)
            } else {
                Err(InvalidVersionError)
            },
    {
        if Version::numbers_fit(s) {
            Version::parse(s)
        } else {
            Err(InvalidVersionError)
        }
    }
}

/// The largest `u32`, as a `u64`.
const U32_MAX: u64 = 4294967295;

impl Version {
    /// Reads a version from its text, such as `1.21.9`, `26.2`, `1.21.9-pre3` or `26.2-rc-2`.
    ///
    /// # Errors
    ///
    /// Returns [`InvalidVersionError`] if the text does not have the version grammar.
    pub fn parse(s: &str) -> (res: Result<Version, InvalidVersionError>)
        requires
            version_numbers_fit(s@),
        ensures
            res == parse_version(s@),
    {
        let chars = chars_of(s);
        match scan_version(&chars) {
            None => Err(InvalidVersionError),
            Some((major, minor, patch, release)) => {
                let patch = match patch {
                    Some(p) => p as u32,
                    None => 0,
                };
                let release = match release {
                    None => None,
                    Some((false, n)) => Some(Release::PreRelease(n as u32)),
                    Some((true, n)) => Some(Release::ReleaseCandidate(n as u32)),
                };
                Ok(Version { major: major as u32, minor: minor as u32, patch, release })
            },
        }
    }

    /// The text of the version, as [`version_text`] gives it.
    pub fn to_string(&self) -> (text: String)
        ensures
            text@ == version_text(*self),
    {
        proof {
            reveal_strlit(".");
            reveal_strlit("-pre");
            reveal_strlit("-rc");
            reveal_strlit("-");
        }
        let mut buf = String::new();
        push_decimal(&mut buf, self.major as u64);
        buf.append(".");
        push_decimal(&mut buf, self.minor as u64);
        let ghost head = buf@;
        if self.patch > 0 {
            buf.append(".");
            push_decimal(&mut buf, self.patch as u64);
        }
        let ghost with_patch = buf@;
        match self.release {
            None => {},
            Some(Release::PreRelease(n)) => {
                buf.append("-pre");
                push_decimal(&mut buf, n as u64);
            },
            Some(Release::ReleaseCandidate(n)) => {
                buf.append("-rc");
                if self.major >= 26 {
                    buf.append("-");
                }
                push_decimal(&mut buf, n as u64);
            },
        }
        proof {
            let patch_text = if self.patch > 0 {
                seq!['.'] + decimal(self.patch as nat)
            } else {
                Seq::<char>::empty()
            };
            assert(with_patch =~= head + patch_text);
            assert(buf@ =~= with_patch + release_text(self.major, self.release));
            assert(buf@ =~= version_text(*self));
        }
        buf
    }

    /// Tells whether every number of a text in the version grammar fits in a `u32`: the
    /// condition under which [`Version::parse`] may be called.
    pub fn numbers_fit(s: &str) -> (res: bool)
        ensures
            res == version_numbers_fit(s@),
    {
        let chars = chars_of(s);
        match scan_version(&chars) {
            None => true,
            Some((major, minor, patch, release)) => {
                let patch_fits = match patch {
                    Some(p) => p <= U32_MAX,
                    None => true,
                };
                let release_fits = match release {
                    Some((_, n)) => n <= U32_MAX,
                    None => true,
                };
                major <= U32_MAX && minor <= U32_MAX && patch_fits && release_fits
            },
        }
    }
}

} // verus!
