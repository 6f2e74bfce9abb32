//! Versions of variable specificity: a required major number and optional
//! minor, patch and revision numbers, plus an optional textual suffix.
//! Missing numeric fields compare as zero; the suffix is the final tiebreak,
//! so `1`, `1.0` and `1.0.0.0` denote the same version.

use vstd::prelude::*;
use core::cmp::Ordering;
use crate::text::{
    all_digits, chars_to_int, digit_val, first_dot_from, first_non_ver, int_to_chars,
    is_digit_char, is_ver_char, seq_char_cmp, spec_parse_u16, chars_to_string,
    lemma_first_dot_is, lemma_first_non_ver_is, lemma_int_to_chars_roundtrip,
    lemma_seq_char_cmp_eq, parse_u16_range, push_u16_chars, str_cmp,
};

verus! {

/// A version value. Each optional numeric field implies that the previous
/// one is meaningful: a well-formed version never has a patch without a
/// minor, nor a revision without a patch.
#[derive(Debug)]
pub struct Version {
    pub major: u16,
    pub minor: Option<u16>,
    pub patch: Option<u16>,
    pub revision: Option<u16>,
    pub suffix: Option<String>,
}

/// The mathematical model of a [`Version`].
pub struct VersionView {
    pub major: int,
    pub minor: Option<int>,
    pub patch: Option<int>,
    pub revision: Option<int>,
    pub suffix: Option<Seq<char>>,
}

impl View for Version {
    type V = VersionView;

    open spec fn view(&self) -> VersionView {
        VersionView {
            major: self.major as int,
            minor: match self.minor {
                Some(m) => Some(m as int),
                None => None,
            },
            patch: match self.patch {
                Some(p) => Some(p as int),
                None => None,
            },
            revision: match self.revision {
                Some(r) => Some(r as int),
                None => None,
            },
            suffix: match self.suffix {
                Some(s) => Some(s@),
                None => None,
            },
        }
    }
}

impl VersionView {
    /// Minor number with a missing field reading as zero.
    pub open spec fn minor0(self) -> int {
        match self.minor {
            Some(m) => m,
            None => 0,
        }
    }

    pub open spec fn patch0(self) -> int {
        match self.patch {
            Some(p) => p,
            None => 0,
        }
    }

    pub open spec fn revision0(self) -> int {
        match self.revision {
            Some(r) => r,
            None => 0,
        }
    }

    /// A well-formed version: numeric fields fit in sixteen bits, each
    /// optional field implies the previous one, and a suffix starts with a
    /// character that could not belong to the numeric part.
    pub open spec fn wf(self) -> bool {
        &&& 0 <= self.major <= u16::MAX
        &&& (self.minor matches Some(m) ==> 0 <= m <= u16::MAX)
        &&& (self.patch matches Some(p) ==> 0 <= p <= u16::MAX)
        &&& (self.revision matches Some(r) ==> 0 <= r <= u16::MAX)
        &&& (self.patch is Some ==> self.minor is Some)
        &&& (self.revision is Some ==> self.patch is Some)
        &&& (self.suffix matches Some(s) ==> s.len() > 0 && !is_ver_char(s[0]))
    }
}

/// Three-way comparison of optional suffixes: an absent suffix orders before
/// any present one; present suffixes compare lexicographically.
pub open spec fn suffix_cmp(a: Option<Seq<char>>, b: Option<Seq<char>>) -> Ordering {
    match (a, b) {
        (None, None) => Ordering::Equal,
        (None, Some(_)) => Ordering::Less,
        (Some(_), None) => Ordering::Greater,
        (Some(x), Some(y)) => seq_char_cmp(x, y),
    }
}

/// Total order on versions: major, then minor, patch and revision with
/// missing fields reading as zero, then the suffix as the final tiebreak.
pub open spec fn sem_cmp(a: VersionView, b: VersionView) -> Ordering {
    if a.major != b.major {
        if a.major < b.major { Ordering::Less } else { Ordering::Greater }
    } else if a.minor0() != b.minor0() {
        if a.minor0() < b.minor0() { Ordering::Less } else { Ordering::Greater }
    } else if a.patch0() != b.patch0() {
        if a.patch0() < b.patch0() { Ordering::Less } else { Ordering::Greater }
    } else if a.revision0() != b.revision0() {
        if a.revision0() < b.revision0() { Ordering::Less } else { Ordering::Greater }
    } else {
        suffix_cmp(a.suffix, b.suffix)
    }
}

/// Version equality: equal numbers after zero-filling and the same suffix.
/// `1` and `1.0.0.0` are equal under this relation.
pub open spec fn sem_eq(a: VersionView, b: VersionView) -> bool {
    &&& a.major == b.major
    &&& a.minor0() == b.minor0()
    &&& a.patch0() == b.patch0()
    &&& a.revision0() == b.revision0()
    &&& a.suffix == b.suffix
}

/// The order and the equality agree: comparison yields `Equal` exactly on
/// semantically equal versions.
pub proof fn lemma_sem_cmp_eq(a: VersionView, b: VersionView)
    ensures
        (sem_cmp(a, b) == Ordering::Equal) <==> sem_eq(a, b),
{
    match (a.suffix, b.suffix) {
        (Some(x), Some(y)) => {
            lemma_seq_char_cmp_eq(x, y);
        }
        _ => {}
    }
}

pub open spec fn sem_le(a: VersionView, b: VersionView) -> bool {
    sem_cmp(a, b) != Ordering::Greater
}

/// Lexicographic comparison of character sequences is transitive in its
/// non-strict form.
pub proof fn lemma_seq_char_le_trans(a: Seq<char>, b: Seq<char>, c: Seq<char>)
    requires
        seq_char_cmp(a, b) != Ordering::Greater,
        seq_char_cmp(b, c) != Ordering::Greater,
    ensures
        seq_char_cmp(a, c) != Ordering::Greater,
    decreases a.len(),
{
    if a.len() == 0 {
    } else if b.len() == 0 {
        assert(seq_char_cmp(a, b) == Ordering::Greater);
    } else if c.len() == 0 {
        assert(seq_char_cmp(b, c) == Ordering::Greater);
    } else {
        if a[0] == b[0] && b[0] == c[0] {
            lemma_seq_char_le_trans(a.skip(1), b.skip(1), c.skip(1));
        }
    }
}

/// Swapping the arguments of the lexicographic comparison swaps the verdict.
pub proof fn lemma_seq_char_cmp_flip(a: Seq<char>, b: Seq<char>)
    ensures
        seq_char_cmp(b, a) == (match seq_char_cmp(a, b) {
            Ordering::Less => Ordering::Greater,
            Ordering::Equal => Ordering::Equal,
            Ordering::Greater => Ordering::Less,
        }),
    decreases a.len(),
{
    if a.len() == 0 && b.len() == 0 {
    } else if a.len() == 0 || b.len() == 0 {
    } else if a[0] != b[0] {
    } else {
        lemma_seq_char_cmp_flip(a.skip(1), b.skip(1));
    }
}

/// Swapping the arguments of the version comparison swaps the verdict.
pub proof fn lemma_sem_cmp_flip(a: VersionView, b: VersionView)
    ensures
        sem_cmp(b, a) == (match sem_cmp(a, b) {
            Ordering::Less => Ordering::Greater,
            Ordering::Equal => Ordering::Equal,
            Ordering::Greater => Ordering::Less,
        }),
{
    match (a.suffix, b.suffix) {
        (Some(x), Some(y)) => {
            lemma_seq_char_cmp_flip(x, y);
        },
        _ => {},
    }
}

/// The version order is transitive in its non-strict form.
pub proof fn lemma_sem_le_trans(a: VersionView, b: VersionView, c: VersionView)
    requires
        sem_le(a, b),
        sem_le(b, c),
    ensures
        sem_le(a, c),
{
    if a.major == b.major && b.major == c.major && a.minor0() == b.minor0() && b.minor0()
        == c.minor0() && a.patch0() == b.patch0() && b.patch0() == c.patch0() && a.revision0()
        == b.revision0() && b.revision0() == c.revision0() {
        match (a.suffix, b.suffix, c.suffix) {
            (Some(x), Some(y), Some(z)) => {
                lemma_seq_char_le_trans(x, y, z);
            },
            _ => {},
        }
    }
}

impl Version {
    /// The all-zero version, used for files whose version cannot be tracked.
    pub fn zero() -> (r: Self)
        ensures
            r@ == (VersionView { major: 0, minor: None, patch: None, revision: None, suffix: None }),
    {
        Self { major: 0, minor: None, patch: None, revision: None, suffix: None }
    }

    pub fn from_major(major: u16) -> (r: Self)
        ensures
            r@ == (VersionView {
                major: major as int,
                minor: None,
                patch: None,
                revision: None,
                suffix: None,
            }),
    {
        Self { major, minor: None, patch: None, revision: None, suffix: None }
    }

    pub fn from_minor(major: u16, minor: u16) -> (r: Self)
        ensures
            r@ == (VersionView {
                major: major as int,
                minor: Some(minor as int),
                patch: None,
                revision: None,
                suffix: None,
            }),
    {
        Self { major, minor: Some(minor), patch: None, revision: None, suffix: None }
    }

    pub fn from_patch(major: u16, minor: u16, patch: u16) -> (r: Self)
        ensures
            r@ == (VersionView {
                major: major as int,
                minor: Some(minor as int),
                patch: Some(patch as int),
                revision: None,
                suffix: None,
            }),
    {
        Self { major, minor: Some(minor), patch: Some(patch), revision: None, suffix: None }
    }

    pub fn from_revision(major: u16, minor: u16, patch: u16, revision: u16) -> (r: Self)
        ensures
            r@ == (VersionView {
                major: major as int,
                minor: Some(minor as int),
                patch: Some(patch as int),
                revision: Some(revision as int),
                suffix: None,
            }),
    {
        Self {
            major,
            minor: Some(minor),
            patch: Some(patch),
            revision: Some(revision),
            suffix: None,
        }
    }

    pub fn from_suffix(major: u16, minor: u16, patch: u16, revision: u16, suffix: &str) -> (r: Self)
        ensures
            r@ == (VersionView {
                major: major as int,
                minor: Some(minor as int),
                patch: Some(patch as int),
                revision: Some(revision as int),
                suffix: Some(suffix@),
            }),
    {
        Self {
            major,
            minor: Some(minor),
            patch: Some(patch),
            revision: Some(revision),
            suffix: Some(suffix.to_owned()),
        }
    }

    pub fn major(&self) -> (r: u16)
        ensures
            r as int == self@.major,
    {
        self.major
    }

    pub fn has_minor(&self) -> (r: bool)
        ensures
            r == (self@.minor is Some),
    {
        self.minor.is_some()
    }

    /// Minor number, zero when the field is missing.
    pub fn minor(&self) -> (r: u16)
        ensures
            r as int == self@.minor0(),
    {
        match self.minor {
            Some(m) => m,
            None => 0,
        }
    }

    pub fn has_patch(&self) -> (r: bool)
        ensures
            r == (self@.patch is Some),
    {
        self.patch.is_some()
    }

    /// Patch number, zero when the field is missing.
    pub fn patch(&self) -> (r: u16)
        ensures
            r as int == self@.patch0(),
    {
        match self.patch {
            Some(p) => p,
            None => 0,
        }
    }

    pub fn has_revision(&self) -> (r: bool)
        ensures
            r == (self@.revision is Some),
    {
        self.revision.is_some()
    }

    /// Revision number, zero when the field is missing.
    pub fn revision(&self) -> (r: u16)
        ensures
            r as int == self@.revision0(),
    {
        match self.revision {
            Some(r) => r,
            None => 0,
        }
    }

    /// Three-way comparison under the version order.
    pub fn cmp_with(&self, other: &Version) -> (r: Ordering)
        ensures
            r == sem_cmp(self@, other@),
    {
        if self.major != other.major {
            return if self.major < other.major { Ordering::Less } else { Ordering::Greater };
        }
        let a_minor = self.minor();
        let b_minor = other.minor();
        if a_minor != b_minor {
            return if a_minor < b_minor { Ordering::Less } else { Ordering::Greater };
        }
        let a_patch = self.patch();
        let b_patch = other.patch();
        if a_patch != b_patch {
            return if a_patch < b_patch { Ordering::Less } else { Ordering::Greater };
        }
        let a_rev = self.revision();
        let b_rev = other.revision();
        if a_rev != b_rev {
            return if a_rev < b_rev { Ordering::Less } else { Ordering::Greater };
        }
        match (&self.suffix, &other.suffix) {
            (None, None) => Ordering::Equal,
            (None, Some(_)) => Ordering::Less,
            (Some(_), None) => Ordering::Greater,
            (Some(x), Some(y)) => str_cmp(x.as_str(), y.as_str()),
        }
    }
}

impl Clone for Version {
    fn clone(&self) -> (r: Self)
        ensures
            r == *self,
    {
        Self {
            major: self.major,
            minor: self.minor,
            patch: self.patch,
            revision: self.revision,
            suffix: match &self.suffix {
                Some(s) => Some(s.clone()),
                None => None,
            },
        }
    }
}

impl Default for Version {
    /// The default version is a bare major `1`.
    fn default() -> (r: Self)
        ensures
            r@ == (VersionView { major: 1, minor: None, patch: None, revision: None, suffix: None }),
    {
        Self { major: 1, minor: None, patch: None, revision: None, suffix: None }
    }
}

impl PartialEq for Version {
    fn eq(&self, other: &Self) -> (r: bool) {
        let nums = self.major == other.major && self.minor() == other.minor()
            && self.patch() == other.patch() && self.revision() == other.revision();
        let sfx = match (&self.suffix, &other.suffix) {
            (None, None) => true,
            (Some(x), Some(y)) => {
                let e = crate::text::str_eq(x.as_str(), y.as_str());
                assert(e == (self@.suffix == other@.suffix));
                e
            },
            _ => false,
        };
        nums && sfx
    }
}

impl vstd::std_specs::cmp::PartialEqSpecImpl for Version {
    open spec fn obeys_eq_spec() -> bool {
        true
    }

    open spec fn eq_spec(&self, other: &Version) -> bool {
        sem_eq(self@, other@)
    }
}

impl PartialOrd for Version {
    fn partial_cmp(&self, other: &Self) -> (r: Option<Ordering>) {
        Some(self.cmp_with(other))
    }
}

impl vstd::std_specs::cmp::PartialOrdSpecImpl for Version {
    open spec fn obeys_partial_cmp_spec() -> bool {
        true
    }

    open spec fn partial_cmp_spec(&self, other: &Version) -> Option<Ordering> {
        Some(sem_cmp(self@, other@))
    }
}

/// A failure to read a version from text.
#[derive(Debug)]
pub enum VersionError {
    /// The text held no major field at all.
    MissingMajorVersion,
    /// A numeric field did not read as a sixteen-bit number; holds the
    /// offending piece of text.
    ParseIntError(String),
}

impl Clone for VersionError {
    fn clone(&self) -> (r: Self)
        ensures
            r == *self,
    {
        match self {
            VersionError::MissingMajorVersion => VersionError::MissingMajorVersion,
            VersionError::ParseIntError(s) => VersionError::ParseIntError(s.clone()),
        }
    }
}

/// The numeric field read from `s[a..b]`, as parse treats optional fields: a
/// piece that does not read as a number simply leaves the field missing.
pub open spec fn opt_num(s: Seq<char>, a: int, b: int) -> Option<int> {
    match spec_parse_u16(s.subrange(a, b)) {
        Some(v) => Some(v as int),
        None => None,
    }
}

/// The first dot-separated piece of the numeric part: what the major field
/// is read from, and what a parse failure reports.
pub open spec fn major_piece(s: Seq<char>) -> Seq<char> {
    s.subrange(0, first_dot_from(s, 0, first_non_ver(s, 0, s.len() as int)))
}

/// What parsing a version string yields: the suffix starts at the first
/// character that is not a digit, a dot or a star; the part before it is
/// split at dots; the first piece must read as a number (the major field);
/// the following three pieces, where present and readable, give the minor,
/// patch and revision fields; further pieces are ignored.
pub open spec fn spec_parse_version(s: Seq<char>) -> Option<VersionView> {
    let n = s.len() as int;
    let sfx = first_non_ver(s, 0, n);
    let e1 = first_dot_from(s, 0, sfx);
    match spec_parse_u16(s.subrange(0, e1)) {
        None => None,
        Some(major) => {
            let e2 = if e1 < sfx { first_dot_from(s, e1 + 1, sfx) } else { sfx };
            let e3 = if e2 < sfx { first_dot_from(s, e2 + 1, sfx) } else { sfx };
            let e4 = if e3 < sfx { first_dot_from(s, e3 + 1, sfx) } else { sfx };
            Some(VersionView {
                major: major as int,
                minor: if e1 < sfx { opt_num(s, e1 + 1, e2) } else { None },
                patch: if e2 < sfx { opt_num(s, e2 + 1, e3) } else { None },
                revision: if e3 < sfx { opt_num(s, e3 + 1, e4) } else { None },
                suffix: if sfx < n { Some(s.subrange(sfx, n)) } else { None },
            })
        }
    }
}

/// The textual rendering of a version: the numeric fields that are present,
/// joined by dots, followed by the suffix if there is one.
pub open spec fn spec_format_version(v: VersionView) -> Seq<char> {
    int_to_chars(v.major) + (match v.minor {
        Some(m) => seq!['.'] + int_to_chars(m),
        None => Seq::<char>::empty(),
    }) + (match v.patch {
        Some(p) => seq!['.'] + int_to_chars(p),
        None => Seq::<char>::empty(),
    }) + (match v.revision {
        Some(r) => seq!['.'] + int_to_chars(r),
        None => Seq::<char>::empty(),
    }) + (match v.suffix {
        Some(sfx) => sfx,
        None => Seq::<char>::empty(),
    })
}

/// Law: formatting a well-formed version and parsing the result gives back
/// the same version, at every specificity level and with any suffix. Since
/// parsing never fails on rendered text, parse-format-parse round-trips to
/// an equal version for every valid numeral string.
#[verifier::rlimit(100)]
#[verifier::spinoff_prover]
pub proof fn lemma_format_parse_roundtrip(v: VersionView)
    requires
        v.wf(),
    ensures
        spec_parse_version(spec_format_version(v)) == Some(v),
{
    let f = spec_format_version(v);
    let n = f.len() as int;
    let d_major = int_to_chars(v.major);
    lemma_int_to_chars_roundtrip(v.major);
    let o1 = d_major.len() as int;
    let m_part = match v.minor {
        Some(m) => seq!['.'] + int_to_chars(m),
        None => Seq::<char>::empty(),
    };
    let p_part = match v.patch {
        Some(p) => seq!['.'] + int_to_chars(p),
        None => Seq::<char>::empty(),
    };
    let r_part = match v.revision {
        Some(r) => seq!['.'] + int_to_chars(r),
        None => Seq::<char>::empty(),
    };
    let s_part = match v.suffix {
        Some(sx) => sx,
        None => Seq::<char>::empty(),
    };
    let o2 = o1 + m_part.len() as int;
    let o3 = o2 + p_part.len() as int;
    let o4 = o3 + r_part.len() as int;
    if let Some(m) = v.minor {
        lemma_int_to_chars_roundtrip(m);
    }
    if let Some(p) = v.patch {
        lemma_int_to_chars_roundtrip(p);
    }
    if let Some(r) = v.revision {
        lemma_int_to_chars_roundtrip(r);
    }
    assert(f =~= d_major + m_part + p_part + r_part + s_part);
    assert(n == o4 + s_part.len());

    // Every character before the suffix is a digit or a dot; record where
    // the dots sit.
    assert(forall|j: int| 0 <= j < o1 ==> f[j] == d_major[j]);
    assert(forall|j: int| o1 <= j < o2 ==> f[j] == m_part[j - o1]);
    assert(forall|j: int| o2 <= j < o3 ==> f[j] == p_part[j - o2]);
    assert(forall|j: int| o3 <= j < o4 ==> f[j] == r_part[j - o3]);
    assert(forall|j: int| o4 <= j < n ==> f[j] == s_part[j - o4]);
    assert(forall|j: int| 0 <= j < o1 ==> is_digit_char(#[trigger] f[j]));
    assert(forall|j: int| o1 < j < o2 ==> is_digit_char(#[trigger] f[j]));
    assert(forall|j: int| o2 < j < o3 ==> is_digit_char(#[trigger] f[j]));
    assert(forall|j: int| o3 < j < o4 ==> is_digit_char(#[trigger] f[j]));
    assert(v.minor is Some ==> f[o1] == '.');
    assert(v.patch is Some ==> f[o2] == '.');
    assert(v.revision is Some ==> f[o3] == '.');
    assert(forall|j: int| 0 <= j < o4 ==> is_ver_char(#[trigger] f[j]));

    // The suffix scan stops exactly at the end of the numeric part.
    let sfx = first_non_ver(f, 0, n);
    if v.suffix is Some {
        assert(!is_ver_char(f[o4]));
        lemma_first_non_ver_is(f, 0, n, o4);
    } else {
        assert(o4 == n);
        lemma_first_non_ver_is(f, 0, n, n);
    }
    assert(sfx == o4);

    // The major piece runs to the first dot (or to the suffix).
    let e1 = first_dot_from(f, 0, sfx);
    assert(forall|j: int| 0 <= j < o1 ==> f[j] != '.');
    if v.minor is Some {
        lemma_first_dot_is(f, 0, sfx, o1);
    } else {
        assert(o1 == sfx);
        lemma_first_dot_is(f, 0, sfx, sfx);
    }
    assert(e1 == o1);
    assert(f.subrange(0, e1) =~= d_major);
    assert(spec_parse_u16(f.subrange(0, e1)) == Some(v.major as u16));

    let e2 = if e1 < sfx { first_dot_from(f, e1 + 1, sfx) } else { sfx };
    let e3 = if e2 < sfx { first_dot_from(f, e2 + 1, sfx) } else { sfx };
    let e4 = if e3 < sfx { first_dot_from(f, e3 + 1, sfx) } else { sfx };

    if v.minor is Some {
        assert(e1 < sfx);
        assert(forall|j: int| o1 + 1 <= j < o2 ==> f[j] != '.');
        if v.patch is Some {
            lemma_first_dot_is(f, e1 + 1, sfx, o2);
        } else {
            assert(o2 == sfx);
            lemma_first_dot_is(f, e1 + 1, sfx, sfx);
        }
        assert(e2 == o2);
        assert(f.subrange(e1 + 1, e2) =~= int_to_chars(v.minor0()));
        assert(opt_num(f, e1 + 1, e2) == Some(v.minor0()));
    } else {
        assert(e1 == sfx && e2 == sfx && e3 == sfx && e4 == sfx);
    }

    if v.patch is Some {
        assert(e2 < sfx);
        assert(forall|j: int| o2 + 1 <= j < o3 ==> f[j] != '.');
        if v.revision is Some {
            lemma_first_dot_is(f, e2 + 1, sfx, o3);
        } else {
            assert(o3 == sfx);
            lemma_first_dot_is(f, e2 + 1, sfx, sfx);
        }
        assert(e3 == o3);
        assert(f.subrange(e2 + 1, e3) =~= int_to_chars(v.patch0()));
        assert(opt_num(f, e2 + 1, e3) == Some(v.patch0()));
    } else {
        if v.minor is Some {
            assert(e2 == sfx && e3 == sfx && e4 == sfx);
        }
    }

    if v.revision is Some {
        assert(e3 < sfx);
        assert(forall|j: int| o3 + 1 <= j < o4 ==> f[j] != '.');
        lemma_first_dot_is(f, e3 + 1, sfx, sfx);
        assert(e4 == sfx);
        assert(f.subrange(e3 + 1, e4) =~= int_to_chars(v.revision0()));
        assert(opt_num(f, e3 + 1, e4) == Some(v.revision0()));
    }

    if v.suffix is Some {
        assert(sfx < n);
        assert(f.subrange(sfx, n) =~= s_part);
    } else {
        assert(sfx == n);
    }

    let parsed = spec_parse_version(f);
    assert(parsed matches Some(w) && w == v) by {
        assert(v == (VersionView {
            major: v.major,
            minor: v.minor,
            patch: v.patch,
            revision: v.revision,
            suffix: v.suffix,
        }));
    }
}

/// First index in `[from, end)` of a character that cannot belong to the
/// numeric part of a version, or `end` if all can.
fn find_non_ver(s: &str, end: usize) -> (r: usize)
    requires
        end <= s@.len(),
    ensures
        r == first_non_ver(s@, 0, end as int),
        r <= end,
{
    let mut i: usize = 0;
    while i < end
        invariant
            i <= end <= s@.len(),
            forall|j: int| 0 <= j < i ==> is_ver_char(s@[j]),
        decreases end - i,
    {
        let c = s.get_char(i);
        let digit = '0' <= c && c <= '9';
        if !(digit || c == '.' || c == '*') {
            proof {
                lemma_first_non_ver_is(s@, 0, end as int, i as int);
            }
            return i;
        }
        i = i + 1;
    }
    proof {
        lemma_first_non_ver_is(s@, 0, end as int, end as int);
    }
    end
}

/// First dot in `[from, end)`, or `end` if none.
fn find_dot(s: &str, from: usize, end: usize) -> (r: usize)
    requires
        from <= end <= s@.len(),
    ensures
        r == first_dot_from(s@, from as int, end as int),
        from <= r <= end,
    {
    let mut i: usize = from;
    while i < end
        invariant
            from <= i <= end <= s@.len(),
            forall|j: int| from <= j < i ==> s@[j] != '.',
        decreases end - i,
    {
        if s.get_char(i) == '.' {
            proof {
                lemma_first_dot_is(s@, from as int, end as int, i as int);
            }
            return i;
        }
        i = i + 1;
    }
    proof {
        lemma_first_dot_is(s@, from as int, end as int, end as int);
    }
    end
}

impl Version {
    /// Reads a version from text. Fails exactly when the major field does
    /// not read as a number; the error carries the offending piece.
    pub fn parse(s: &str) -> (r: Result<Version, VersionError>)
        ensures
            match r {
                Ok(v) => spec_parse_version(s@) == Some(v@),
                Err(e) => {
                    &&& spec_parse_version(s@) is None
                    &&& e matches VersionError::ParseIntError(p) && p@ == major_piece(s@)
                },
            },
    {
        let n = s.unicode_len();
        let sfx = find_non_ver(s, n);
        let e1 = find_dot(s, 0, sfx);
        let major = match parse_u16_range(s, 0, e1) {
            Some(m) => m,
            None => {
                let piece = s.substring_char(0, e1);
                return Err(VersionError::ParseIntError(piece.to_owned()));
            },
        };
        let minor: Option<u16>;
        let patch: Option<u16>;
        let revision: Option<u16>;
        let e2 = if e1 < sfx {
            let e = find_dot(s, e1 + 1, sfx);
            minor = parse_u16_range(s, e1 + 1, e);
            e
        } else {
            minor = None;
            sfx
        };
        let e3 = if e2 < sfx {
            let e = find_dot(s, e2 + 1, sfx);
            patch = parse_u16_range(s, e2 + 1, e);
            e
        } else {
            patch = None;
            sfx
        };
        let e4 = if e3 < sfx {
            let e = find_dot(s, e3 + 1, sfx);
            revision = parse_u16_range(s, e3 + 1, e);
            e
        } else {
            revision = None;
            sfx
        };
        let suffix: Option<String> = if sfx < n {
            Some(s.substring_char(sfx, n).to_owned())
        } else {
            None
        };
        let v = Version { major, minor, patch, revision, suffix };
        Ok(v)
    }

    /// The textual rendering of this version.
    #[verifier::rlimit(50)]
    pub fn to_version_string(&self) -> (r: String)
        ensures
            r@ == spec_format_version(self@),
    {
        let ghost part1 = int_to_chars(self@.major);
        let ghost part2 = part1 + (match self@.minor {
            Some(m) => seq!['.'] + int_to_chars(m),
            None => Seq::<char>::empty(),
        });
        let ghost part3 = part2 + (match self@.patch {
            Some(p) => seq!['.'] + int_to_chars(p),
            None => Seq::<char>::empty(),
        });
        let ghost part4 = part3 + (match self@.revision {
            Some(r) => seq!['.'] + int_to_chars(r),
            None => Seq::<char>::empty(),
        });
        let mut out: Vec<char> = Vec::new();
        push_u16_chars(self.major, &mut out);
        proof {
            assert(out@ =~= part1);
        }
        if let Some(m) = self.minor {
            out.push('.');
            push_u16_chars(m, &mut out);
        }
        proof {
            assert(out@ =~= part2);
        }
        if let Some(p) = self.patch {
            out.push('.');
            push_u16_chars(p, &mut out);
        }
        proof {
            assert(out@ =~= part3);
        }
        if let Some(rv) = self.revision {
            out.push('.');
            push_u16_chars(rv, &mut out);
        }
        proof {
            assert(out@ =~= part4);
        }
        if let Some(sfx) = &self.suffix {
            let sn = sfx.as_str().unicode_len();
            let mut i: usize = 0;
            let ghost base = out@;
            while i < sn
                invariant
                    i <= sn,
                    sn == sfx@.len(),
                    out@ == base + sfx@.take(i as int),
                decreases sn - i,
            {
                out.push(sfx.as_str().get_char(i));
                proof {
                    assert(base + sfx@.take(i + 1) =~= (base + sfx@.take(i as int)).push(sfx@[i as int]));
                }
                i = i + 1;
            }
            proof {
                assert(sfx@.take(sn as int) =~= sfx@);
                assert(out@ =~= part4 + sfx@);
            }
        }
        proof {
            assert(spec_format_version(self@) == part4 + (match self@.suffix {
                Some(t) => t,
                None => Seq::<char>::empty(),
            }));
            assert(out@ =~= spec_format_version(self@));
        }
        chars_to_string(&out)
    }
}

} // verus!
