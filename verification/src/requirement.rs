//! Version requirements: comparators with range operators, and conjunctions
//! of comparators. A requirement string such as `>=1.2, <2` is a
//! comma-separated list of comparators, all of which must match.

use vstd::prelude::*;
use core::cmp::Ordering;
use crate::text::{
    contains_star, find_comma, first_comma_from, has_star, str_eq, trim_bounds, trim_end_idx,
    trim_start_idx,
};
use crate::version::{
    major_piece, sem_cmp, sem_eq, spec_format_version, spec_parse_version, Version, VersionError,
    VersionView,
};

verus! {

/// The range operator of a comparator.
#[derive(Clone, Copy, Debug, PartialEq, Eq, Structural)]
pub enum VersionOp {
    /// `=A.I.P.R` matches exactly; at lower specificity, the half-open range
    /// at the anchor's own specificity (`=1.2` matches `1.2.0` to `1.2.x`).
    /// A comparator without an operator defaults to this.
    Exact,
    /// Strictly above the anchor's exact range (`>1.2` means `>=1.3.0`); at
    /// full specificity, strictly above the anchor.
    Greater,
    /// At or above the anchor.
    GreaterEq,
    /// Strictly below the anchor.
    Less,
    /// Below the end of the anchor's exact range (`<=1.2` means `<1.3.0`;
    /// at full specificity the anchor itself still matches).
    LessEq,
    /// Patch and revision may vary, the minor may not (`~1.2.3` allows up to
    /// `1.3` exclusive); with only major or minor given, same as `Exact`.
    Tilde,
    /// Fields right of the first nonzero field may vary (`^1.2.3` allows up
    /// to `2.0.0` exclusive, `^0.1.2` up to `0.2.0` exclusive).
    Caret,
    /// A starred numeral such as `1.2.*`, equivalent to `Exact` at the
    /// specificity of the written fields.
    Wildcard,
    /// The lone token `*`: matches every version.
    WildcardAny,
}

/// One constraint: an anchor version and a range operator.
#[derive(Debug)]
pub struct Comparator {
    pub version: Version,
    pub op: VersionOp,
}

/// The mathematical model of a [`Comparator`].
pub struct ComparatorView {
    pub version: VersionView,
    pub op: VersionOp,
}

impl View for Comparator {
    type V = ComparatorView;

    open spec fn view(&self) -> ComparatorView {
        ComparatorView { version: self.version@, op: self.op }
    }
}

/// `v` is at or above the bound `(m, mi, p, r)` in the version order, where
/// the bound carries no suffix: a missing field reads as zero, and any
/// suffix orders at or above the absent one.
pub open spec fn ge_key(v: VersionView, m: int, mi: int, p: int, r: int) -> bool {
    if v.major != m {
        v.major > m
    } else if v.minor0() != mi {
        v.minor0() > mi
    } else if v.patch0() != p {
        v.patch0() > p
    } else if v.revision0() != r {
        v.revision0() > r
    } else {
        true
    }
}

/// `v` is strictly below the suffix-free bound `(m, mi, p, r)`.
pub open spec fn lt_key(v: VersionView, m: int, mi: int, p: int, r: int) -> bool {
    if v.major != m {
        v.major < m
    } else if v.minor0() != mi {
        v.minor0() < mi
    } else if v.patch0() != p {
        v.patch0() < p
    } else if v.revision0() != r {
        v.revision0() < r
    } else {
        false
    }
}

/// Whether a comparator accepts a version, as a function of the anchor `a`
/// and the operator. Range endpoints are computed at the anchor's own
/// specificity, so no arithmetic ever overflows a field.
pub open spec fn spec_matches(c: ComparatorView, v: VersionView) -> bool {
    let a = c.version;
    match c.op {
        VersionOp::Exact | VersionOp::Wildcard => {
            if a.revision is Some {
                sem_eq(v, a)
            } else if a.patch is Some {
                ge_key(v, a.major, a.minor0(), a.patch0(), 0) && lt_key(
                    v,
                    a.major,
                    a.minor0(),
                    a.patch0() + 1,
                    0,
                )
            } else if a.minor is Some {
                ge_key(v, a.major, a.minor0(), 0, 0) && lt_key(v, a.major, a.minor0() + 1, 0, 0)
            } else {
                ge_key(v, a.major, 0, 0, 0) && lt_key(v, a.major + 1, 0, 0, 0)
            }
        },
        VersionOp::Greater => {
            if a.revision is Some {
                sem_cmp(v, a) == Ordering::Greater
            } else if a.patch is Some {
                ge_key(v, a.major, a.minor0(), a.patch0() + 1, 0)
            } else if a.minor is Some {
                ge_key(v, a.major, a.minor0() + 1, 0, 0)
            } else {
                ge_key(v, a.major + 1, 0, 0, 0)
            }
        },
        VersionOp::GreaterEq => sem_cmp(v, a) != Ordering::Less,
        VersionOp::Less => sem_cmp(v, a) == Ordering::Less,
        VersionOp::LessEq => {
            if a.revision is Some {
                lt_key(v, a.major, a.minor0(), a.patch0(), a.revision0() + 1)
            } else if a.patch is Some {
                lt_key(v, a.major, a.minor0(), a.patch0() + 1, 0)
            } else if a.minor is Some {
                lt_key(v, a.major, a.minor0() + 1, 0, 0)
            } else {
                lt_key(v, a.major + 1, 0, 0, 0)
            }
        },
        VersionOp::Tilde => {
            if a.revision is Some {
                ge_key(v, a.major, a.minor0(), a.patch0(), a.revision0()) && lt_key(
                    v,
                    a.major,
                    a.minor0() + 1,
                    0,
                    0,
                )
            } else if a.patch is Some {
                ge_key(v, a.major, a.minor0(), a.patch0(), 0) && lt_key(
                    v,
                    a.major,
                    a.minor0() + 1,
                    0,
                    0,
                )
            } else if a.minor is Some {
                ge_key(v, a.major, a.minor0(), 0, 0) && lt_key(v, a.major, a.minor0() + 1, 0, 0)
            } else {
                ge_key(v, a.major, 0, 0, 0) && lt_key(v, a.major + 1, 0, 0, 0)
            }
        },
        VersionOp::Caret => {
            if a.major > 0 {
                sem_cmp(v, a) != Ordering::Less && lt_key(v, a.major + 1, 0, 0, 0)
            } else if a.minor0() > 0 {
                sem_cmp(v, a) != Ordering::Less && lt_key(v, 0, a.minor0() + 1, 0, 0)
            } else if a.patch0() > 0 {
                sem_cmp(v, a) != Ordering::Less && lt_key(v, 0, 0, a.patch0() + 1, 0)
            } else {
                sem_eq(v, a)
            }
        },
        VersionOp::WildcardAny => true,
    }
}

/// `v` is at or above the suffix-free bound.
fn ge_key_exec(v: &Version, m: u32, mi: u32, p: u32, r: u32) -> (res: bool)
    ensures
        res == ge_key(v@, m as int, mi as int, p as int, r as int),
{
    let vm = v.major() as u32;
    if vm != m {
        return vm > m;
    }
    let vmi = v.minor() as u32;
    if vmi != mi {
        return vmi > mi;
    }
    let vp = v.patch() as u32;
    if vp != p {
        return vp > p;
    }
    let vr = v.revision() as u32;
    if vr != r {
        return vr > r;
    }
    true
}

/// `v` is strictly below the suffix-free bound.
fn lt_key_exec(v: &Version, m: u32, mi: u32, p: u32, r: u32) -> (res: bool)
    ensures
        res == lt_key(v@, m as int, mi as int, p as int, r as int),
{
    let vm = v.major() as u32;
    if vm != m {
        return vm < m;
    }
    let vmi = v.minor() as u32;
    if vmi != mi {
        return vmi < mi;
    }
    let vp = v.patch() as u32;
    if vp != p {
        return vp < p;
    }
    let vr = v.revision() as u32;
    if vr != r {
        return vr < r;
    }
    false
}

impl Comparator {
    /// Whether this comparator accepts `version`.
    pub fn matches(&self, version: &Version) -> (r: bool)
        ensures
            r == spec_matches(self@, version@),
    {
        let a = &self.version;
        let am = a.major() as u32;
        let ami = a.minor() as u32;
        let ap = a.patch() as u32;
        let ar = a.revision() as u32;
        match self.op {
            VersionOp::Exact | VersionOp::Wildcard => {
                if a.has_revision() {
                    version == a
                } else if a.has_patch() {
                    ge_key_exec(version, am, ami, ap, 0) && lt_key_exec(version, am, ami, ap + 1, 0)
                } else if a.has_minor() {
                    ge_key_exec(version, am, ami, 0, 0) && lt_key_exec(version, am, ami + 1, 0, 0)
                } else {
                    ge_key_exec(version, am, 0, 0, 0) && lt_key_exec(version, am + 1, 0, 0, 0)
                }
            },
            VersionOp::Greater => {
                if a.has_revision() {
                    matches!(version.cmp_with(a), Ordering::Greater)
                } else if a.has_patch() {
                    ge_key_exec(version, am, ami, ap + 1, 0)
                } else if a.has_minor() {
                    ge_key_exec(version, am, ami + 1, 0, 0)
                } else {
                    ge_key_exec(version, am + 1, 0, 0, 0)
                }
            },
            VersionOp::GreaterEq => !matches!(version.cmp_with(a), Ordering::Less),
            VersionOp::Less => matches!(version.cmp_with(a), Ordering::Less),
            VersionOp::LessEq => {
                if a.has_revision() {
                    lt_key_exec(version, am, ami, ap, ar + 1)
                } else if a.has_patch() {
                    lt_key_exec(version, am, ami, ap + 1, 0)
                } else if a.has_minor() {
                    lt_key_exec(version, am, ami + 1, 0, 0)
                } else {
                    lt_key_exec(version, am + 1, 0, 0, 0)
                }
            },
            VersionOp::Tilde => {
                if a.has_revision() {
                    ge_key_exec(version, am, ami, ap, ar) && lt_key_exec(version, am, ami + 1, 0, 0)
                } else if a.has_patch() {
                    ge_key_exec(version, am, ami, ap, 0) && lt_key_exec(version, am, ami + 1, 0, 0)
                } else if a.has_minor() {
                    ge_key_exec(version, am, ami, 0, 0) && lt_key_exec(version, am, ami + 1, 0, 0)
                } else {
                    ge_key_exec(version, am, 0, 0, 0) && lt_key_exec(version, am + 1, 0, 0, 0)
                }
            },
            VersionOp::Caret => {
                if am > 0 {
                    !matches!(version.cmp_with(a), Ordering::Less) && lt_key_exec(
                        version,
                        am + 1,
                        0,
                        0,
                        0,
                    )
                } else if ami > 0 {
                    !matches!(version.cmp_with(a), Ordering::Less) && lt_key_exec(
                        version,
                        0,
                        ami + 1,
                        0,
                        0,
                    )
                } else if ap > 0 {
                    !matches!(version.cmp_with(a), Ordering::Less) && lt_key_exec(
                        version,
                        0,
                        0,
                        ap + 1,
                        0,
                    )
                } else {
                    version == a
                }
            },
            VersionOp::WildcardAny => true,
        }
    }
}

impl Clone for Comparator {
    fn clone(&self) -> (r: Self)
        ensures
            r == *self,
    {
        Comparator { version: self.version.clone(), op: self.op }
    }
}

impl PartialEq for Comparator {
    fn eq(&self, other: &Self) -> (r: bool) {
        self.version == other.version && self.op == other.op
    }
}

impl vstd::std_specs::cmp::PartialEqSpecImpl for Comparator {
    open spec fn obeys_eq_spec() -> bool {
        true
    }

    open spec fn eq_spec(&self, other: &Comparator) -> bool {
        sem_eq(self@.version, other@.version) && self@.op == other@.op
    }
}

/// Where the operator prefix of a comparator string ends, and which operator
/// it denotes. Prefixes are recognised in priority order; a string without a
/// recognised prefix is a wildcard if it holds a star, else exact.
pub open spec fn comparator_split(s: Seq<char>) -> (int, VersionOp) {
    if s.len() >= 1 && s[0] == '=' {
        (1, VersionOp::Exact)
    } else if s.len() >= 2 && s[0] == '>' && s[1] == '=' {
        (2, VersionOp::GreaterEq)
    } else if s.len() >= 1 && s[0] == '>' {
        (1, VersionOp::Greater)
    } else if s.len() >= 2 && s[0] == '<' && s[1] == '=' {
        (2, VersionOp::LessEq)
    } else if s.len() >= 1 && s[0] == '<' {
        (1, VersionOp::Less)
    } else if s.len() >= 1 && s[0] == '~' {
        (1, VersionOp::Tilde)
    } else if s.len() >= 1 && s[0] == '^' {
        (1, VersionOp::Caret)
    } else if has_star(s) {
        (0, VersionOp::Wildcard)
    } else {
        (0, VersionOp::Exact)
    }
}

/// What parsing a comparator string yields: the lone token `*` matches
/// everything (its anchor is the default version); otherwise the operator
/// prefix is stripped and the rest read as the anchor version.
pub open spec fn spec_parse_comparator(s: Seq<char>) -> Option<ComparatorView> {
    if s.len() == 1 && s[0] == '*' {
        Some(ComparatorView {
            version: VersionView {
                major: 1,
                minor: None,
                patch: None,
                revision: None,
                suffix: None,
            },
            op: VersionOp::WildcardAny,
        })
    } else {
        let (k, op) = comparator_split(s);
        match spec_parse_version(s.subrange(k, s.len() as int)) {
            Some(v) => Some(ComparatorView { version: v, op }),
            None => None,
        }
    }
}

/// The piece a failed comparator parse reports: the major piece of the text
/// after the operator prefix.
pub open spec fn comparator_err_text(s: Seq<char>) -> Seq<char> {
    major_piece(s.subrange(comparator_split(s).0, s.len() as int))
}

impl Comparator {
    /// Reads one comparator from text: an optional operator prefix followed
    /// by an anchor version, or the lone token `*`. Fails exactly when the
    /// anchor's major field does not read as a number; the error carries the
    /// offending piece.
    pub fn parse(s: &str) -> (r: Result<Comparator, VersionError>)
        ensures
            match r {
                Ok(c) => spec_parse_comparator(s@) == Some(c@),
                Err(e) => {
                    &&& spec_parse_comparator(s@) is None
                    &&& e matches VersionError::ParseIntError(p) && p@ == comparator_err_text(s@)
                },
            },
    {
        proof {
            reveal_strlit("*");
        }
        if str_eq(s, "*") {
            return Ok(Comparator { version: Version::default(), op: VersionOp::WildcardAny });
        }
        proof {
            if s@.len() == 1 && s@[0] == '*' {
                assert(s@ =~= "*"@);
            }
        }
        let n = s.unicode_len();
        let k: usize;
        let op: VersionOp;
        if n >= 1 && s.get_char(0) == '=' {
            k = 1;
            op = VersionOp::Exact;
        } else if n >= 2 && s.get_char(0) == '>' && s.get_char(1) == '=' {
            k = 2;
            op = VersionOp::GreaterEq;
        } else if n >= 1 && s.get_char(0) == '>' {
            k = 1;
            op = VersionOp::Greater;
        } else if n >= 2 && s.get_char(0) == '<' && s.get_char(1) == '=' {
            k = 2;
            op = VersionOp::LessEq;
        } else if n >= 1 && s.get_char(0) == '<' {
            k = 1;
            op = VersionOp::Less;
        } else if n >= 1 && s.get_char(0) == '~' {
            k = 1;
            op = VersionOp::Tilde;
        } else if n >= 1 && s.get_char(0) == '^' {
            k = 1;
            op = VersionOp::Caret;
        } else if contains_star(s) {
            k = 0;
            op = VersionOp::Wildcard;
        } else {
            k = 0;
            op = VersionOp::Exact;
        }
        assert((k as int, op) == comparator_split(s@));
        let body = s.substring_char(k, n);
        match Version::parse(body) {
            Ok(v) => Ok(Comparator { version: v, op }),
            Err(e) => Err(e),
        }
    }
}

/// A conjunction of comparators: a version matches the requirement exactly
/// when it matches every comparator.
#[derive(Debug)]
pub struct VersionReq {
    pub comparators: Vec<Comparator>,
}

impl View for VersionReq {
    type V = Seq<ComparatorView>;

    open spec fn view(&self) -> Seq<ComparatorView> {
        self.comparators@.map_values(|c: Comparator| c@)
    }
}

/// A version matches a list of comparators when it matches each of them.
pub open spec fn req_matches(cs: Seq<ComparatorView>, v: VersionView) -> bool {
    forall|i: int| 0 <= i < cs.len() ==> spec_matches(#[trigger] cs[i], v)
}

/// What parsing the tail of a requirement string, from position `from`,
/// yields: pieces are separated by commas and trimmed of surrounding ASCII
/// whitespace; every piece must read as a comparator.
pub open spec fn spec_parse_req_from(s: Seq<char>, from: int) -> Option<Seq<ComparatorView>>
    decreases s.len() - from,
        via spec_parse_req_from_decreases
{
    if !(0 <= from <= s.len()) {
        None
    } else {
        let end = s.len() as int;
        let e = first_comma_from(s, from, end);
        let a = trim_start_idx(s, from, e);
        let b = trim_end_idx(s, a, e);
        match spec_parse_comparator(s.subrange(a, b)) {
            None => None,
            Some(c) => if e == end {
                Some(seq![c])
            } else {
                match spec_parse_req_from(s, e + 1) {
                    None => None,
                    Some(rest) => Some(seq![c] + rest),
                }
            },
        }
    }
}

#[via_fn]
proof fn spec_parse_req_from_decreases(s: Seq<char>, from: int) {
    if 0 <= from <= s.len() {
        crate::text::lemma_first_comma_bounds(s, from, s.len() as int);
    }
}

/// What parsing a requirement string yields.
pub open spec fn spec_parse_req(s: Seq<char>) -> Option<Seq<ComparatorView>> {
    spec_parse_req_from(s, 0)
}

/// The text a failed requirement parse reports, scanning from `from`: the
/// error piece of the first comma-separated piece that fails to read.
pub open spec fn req_err_text(s: Seq<char>, from: int) -> Seq<char>
    decreases s.len() - from,
        via req_err_text_decreases
{
    if !(0 <= from <= s.len()) {
        Seq::empty()
    } else {
        let end = s.len() as int;
        let e = first_comma_from(s, from, end);
        let a = trim_start_idx(s, from, e);
        let b = trim_end_idx(s, a, e);
        match spec_parse_comparator(s.subrange(a, b)) {
            None => comparator_err_text(s.subrange(a, b)),
            Some(_) => if e == end {
                Seq::empty()
            } else {
                req_err_text(s, e + 1)
            },
        }
    }
}

#[via_fn]
proof fn req_err_text_decreases(s: Seq<char>, from: int) {
    if 0 <= from <= s.len() {
        crate::text::lemma_first_comma_bounds(s, from, s.len() as int);
    }
}

impl VersionReq {
    /// Whether every comparator of this requirement accepts `version`.
    pub fn matches(&self, version: &Version) -> (r: bool)
        ensures
            r == req_matches(self@, version@),
    {
        let mut i: usize = 0;
        while i < self.comparators.len()
            invariant
                i <= self.comparators.len(),
                forall|j: int| 0 <= j < i ==> spec_matches(#[trigger] self@[j], version@),
            decreases self.comparators.len() - i,
        {
            if !self.comparators[i].matches(version) {
                assert(!spec_matches(self@[i as int], version@));
                return false;
            }
            i = i + 1;
        }
        true
    }

    /// Reads a requirement from text: comma-separated comparators, each
    /// trimmed of surrounding ASCII whitespace. Fails exactly when some
    /// piece fails to read as a comparator, with that piece's error.
    pub fn parse(s: &str) -> (r: Result<VersionReq, VersionError>)
        ensures
            match r {
                Ok(req) => spec_parse_req(s@) == Some(req@),
                Err(e) => {
                    &&& spec_parse_req(s@) is None
                    &&& e matches VersionError::ParseIntError(p) && p@ == req_err_text(s@, 0)
                },
            },
    {
        let n = s.unicode_len();
        let mut comps: Vec<Comparator> = Vec::new();
        let mut cur: usize = 0;
        loop
            invariant
                cur <= n,
                n == s@.len(),
                match spec_parse_req_from(s@, cur as int) {
                    Some(rest) => spec_parse_req(s@) == Some(
                        comps@.map_values(|c: Comparator| c@) + rest,
                    ),
                    None => spec_parse_req(s@) is None,
                },
                req_err_text(s@, 0) == req_err_text(s@, cur as int),
            decreases n - cur,
        {
            let e = find_comma(s, cur, n);
            let (a, b) = trim_bounds(s, cur, e);
            let piece = s.substring_char(a, b);
            match Comparator::parse(piece) {
                Err(err) => {
                    return Err(err);
                },
                Ok(c) => {
                    let ghost prev = comps@.map_values(|x: Comparator| x@);
                    let ghost cv = c@;
                    comps.push(c);
                    proof {
                        assert(comps@.map_values(|x: Comparator| x@) =~= prev + seq![cv]);
                    }
                    if e == n {
                        let req = VersionReq { comparators: comps };
                        proof {
                            assert(prev + seq![cv] + Seq::<ComparatorView>::empty() =~= prev
                                + seq![cv]);
                        }
                        return Ok(req);
                    }
                    proof {
                        assert(forall|rest: Seq<ComparatorView>|
                            prev + (seq![cv] + rest) =~= (prev + seq![cv]) + rest);
                    }
                    cur = e + 1;
                },
            }
        }
    }
}

impl Clone for VersionReq {
    fn clone(&self) -> (r: Self)
        ensures
            r@ == self@,
    {
        let mut comps: Vec<Comparator> = Vec::new();
        let mut i: usize = 0;
        while i < self.comparators.len()
            invariant
                i <= self.comparators.len(),
                comps@.map_values(|c: Comparator| c@) =~= self@.take(i as int),
            decreases self.comparators.len() - i,
        {
            let ghost prev = comps@.map_values(|c: Comparator| c@);
            comps.push(self.comparators[i].clone());
            proof {
                assert(comps@.map_values(|c: Comparator| c@) =~= prev + seq![self@[i as int]]);
                assert(prev + seq![self@[i as int]] =~= self@.take(i + 1));
            }
            i = i + 1;
        }
        proof {
            assert(self@.take(self.comparators.len() as int) =~= self@);
        }
        VersionReq { comparators: comps }
    }
}

impl PartialEq for VersionReq {
    fn eq(&self, other: &Self) -> (r: bool) {
        if self.comparators.len() != other.comparators.len() {
            return false;
        }
        let mut i: usize = 0;
        while i < self.comparators.len()
            invariant
                i <= self.comparators.len(),
                self.comparators.len() == other.comparators.len(),
                self@.len() == other@.len(),
                forall|j: int| 0 <= j < i ==> sem_eq(#[trigger] self@[j].version, other@[j].version)
                    && self@[j].op == other@[j].op,
            decreases self.comparators.len() - i,
        {
            assert(self@[i as int] == self.comparators@[i as int]@);
            assert(other@[i as int] == other.comparators@[i as int]@);
            if !(self.comparators[i] == other.comparators[i]) {
                return false;
            }
            i = i + 1;
        }
        true
    }
}

impl vstd::std_specs::cmp::PartialEqSpecImpl for VersionReq {
    open spec fn obeys_eq_spec() -> bool {
        true
    }

    /// Requirements are equal when they hold equal comparators in order.
    open spec fn eq_spec(&self, other: &VersionReq) -> bool {
        self@.len() == other@.len() && forall|i: int|
            0 <= i < self@.len() ==> sem_eq(#[trigger] self@[i].version, other@[i].version)
                && self@[i].op == other@[i].op
    }
}

/// Law: the lone `*` comparator accepts every version.
pub proof fn lemma_wildcard_any_matches(c: ComparatorView, v: VersionView)
    requires
        c.op == VersionOp::WildcardAny,
    ensures
        spec_matches(c, v),
{
}

/// Law: a comparator written as a bare major number `M` accepts exactly the
/// versions whose major number is `M`, whatever their minor, patch, revision
/// or suffix; in particular it rejects every version with major `M + 1`.
pub proof fn lemma_major_comparator_matches(c: ComparatorView, v: VersionView)
    requires
        c.op == VersionOp::Exact || c.op == VersionOp::Wildcard,
        c.version.minor is None,
        c.version.patch is None,
        c.version.revision is None,
        v.minor0() >= 0,
        v.patch0() >= 0,
        v.revision0() >= 0,
    ensures
        spec_matches(c, v) <==> v.major == c.version.major,
{
}

/// The textual rendering of a comparator: its operator prefix and the
/// anchor's text; a wildcard renders as the anchor followed by a starred
/// piece, and the match-anything comparator as the lone star.
pub open spec fn spec_format_comparator(c: ComparatorView) -> Seq<char> {
    match c.op {
        VersionOp::Exact => "="@ + spec_format_version(c.version),
        VersionOp::Greater => ">"@ + spec_format_version(c.version),
        VersionOp::GreaterEq => ">="@ + spec_format_version(c.version),
        VersionOp::Less => "<"@ + spec_format_version(c.version),
        VersionOp::LessEq => "<="@ + spec_format_version(c.version),
        VersionOp::Tilde => "~"@ + spec_format_version(c.version),
        VersionOp::Caret => "^"@ + spec_format_version(c.version),
        VersionOp::Wildcard => spec_format_version(c.version) + ".*"@,
        VersionOp::WildcardAny => "*"@,
    }
}

impl Comparator {
    /// The textual rendering of this comparator.
    pub fn to_comparator_string(&self) -> (r: String)
        ensures
            r@ == spec_format_comparator(self@),
    {
        match self.op {
            VersionOp::Exact => String::from_str("=").concat(
                self.version.to_version_string().as_str(),
            ),
            VersionOp::Greater => String::from_str(">").concat(
                self.version.to_version_string().as_str(),
            ),
            VersionOp::GreaterEq => String::from_str(">=").concat(
                self.version.to_version_string().as_str(),
            ),
            VersionOp::Less => String::from_str("<").concat(
                self.version.to_version_string().as_str(),
            ),
            VersionOp::LessEq => String::from_str("<=").concat(
                self.version.to_version_string().as_str(),
            ),
            VersionOp::Tilde => String::from_str("~").concat(
                self.version.to_version_string().as_str(),
            ),
            VersionOp::Caret => String::from_str("^").concat(
                self.version.to_version_string().as_str(),
            ),
            VersionOp::Wildcard => self.version.to_version_string().concat(".*"),
            VersionOp::WildcardAny => String::from_str("*"),
        }
    }
}

/// The textual rendering of the comparators from index `i` on, joined by a
/// comma and a space.
pub open spec fn req_text_from(cs: Seq<ComparatorView>, i: int) -> Seq<char>
    decreases cs.len() - i,
{
    if !(0 <= i < cs.len()) {
        Seq::empty()
    } else if i == cs.len() - 1 {
        spec_format_comparator(cs[i])
    } else {
        spec_format_comparator(cs[i]) + ", "@ + req_text_from(cs, i + 1)
    }
}

/// The textual rendering of a requirement: its comparators, comma-joined.
pub open spec fn spec_format_req(cs: Seq<ComparatorView>) -> Seq<char> {
    req_text_from(cs, 0)
}

impl VersionReq {
    /// The textual rendering of this requirement.
    pub fn to_requirement_string(&self) -> (r: String)
        ensures
            r@ == spec_format_req(self@),
    {
        let mut out = String::new();
        let n = self.comparators.len();
        let mut i: usize = 0;
        while i < n
            invariant
                i <= n,
                n == self.comparators.len(),
                spec_format_req(self@) =~= out@ + req_text_from(self@, i as int),
            decreases n - i,
        {
            let piece = self.comparators[i].to_comparator_string();
            assert(piece@ == spec_format_comparator(self@[i as int]));
            out = out.concat(piece.as_str());
            if i < n - 1 {
                out = out.concat(", ");
            }
            proof {
                assert(spec_format_req(self@) =~= out@ + req_text_from(self@, i + 1));
            }
            i = i + 1;
        }
        proof {
            assert(out@ =~= spec_format_req(self@));
        }
        out
    }
}

} // verus!
