//! Semantic versions and version requirements.
use vstd::prelude::*;
use crate::text::{
    chars_of, copy_range, decimal, parse_u64, parse_u64_spec, push_chars, push_decimal, push_str,
    split_chars, split_on, trim, trim_chars, char_vecs_view, lemma_split_on_nonempty,
    lemma_decimal_digits, lemma_digits_exclude, lemma_split_concat, lemma_split_none,
    lemma_parse_u64_decimal, plain, is_ws, is_digit, lemma_trim_plain, lemma_trim_ends,
    lemma_trim_space_plain, lemma_digits_plain, lemma_plain_concat,
};

pub mod order;

verus! {

/// A parsed semantic version: major.minor.patch.
#[derive(Debug, Clone, Copy, PartialEq, Eq, Structural, Hash, Ord)]
pub struct SemVer {
    pub major: u64,
    pub minor: u64,
    pub patch: u64,
}

/// `a` comes before `b`: compared by major, then minor, then patch.
pub open spec fn version_lt(a: SemVer, b: SemVer) -> bool {
    ||| a.major < b.major
    ||| a.major == b.major && a.minor < b.minor
    ||| a.major == b.major && a.minor == b.minor && a.patch < b.patch
}

/// `major.minor.patch` in decimal.
pub open spec fn semver_str(v: SemVer) -> Seq<char> {
    decimal(v.major as nat) + "."@ + decimal(v.minor as nat) + "."@ + decimal(v.patch as nat)
}

/// The message for a version string that does not parse.
pub open spec fn invalid_version(s: Seq<char>) -> Seq<char> {
    "invalid version: '"@ + s + "'"@
}

/// `MAJOR`, `MAJOR.MINOR` or `MAJOR.MINOR.PATCH`, each part a `u64`; missing parts are 0.
pub open spec fn parse_semver_spec(s: Seq<char>) -> Option<SemVer> {
    let parts = split_on(s, '.');
    if parts.len() == 1 {
        match parse_u64_spec(parts[0]) {
            Some(a) => Some(SemVer { major: a, minor: 0, patch: 0 }),
            None => None,
        }
    } else if parts.len() == 2 {
        match (parse_u64_spec(parts[0]), parse_u64_spec(parts[1])) {
            (Some(a), Some(b)) => Some(SemVer { major: a, minor: b, patch: 0 }),
            _ => None,
        }
    } else if parts.len() == 3 {
        match (parse_u64_spec(parts[0]), parse_u64_spec(parts[1]), parse_u64_spec(parts[2])) {
            (Some(a), Some(b), Some(c)) => Some(SemVer { major: a, minor: b, patch: c }),
            _ => None,
        }
    } else {
        None
    }
}

/// A version, or the message saying it is not one.
pub open spec fn semver_or_err(s: Seq<char>) -> Result<SemVer, Seq<char>> {
    match parse_semver_spec(s) {
        Some(v) => Ok(v),
        None => Err(invalid_version(s)),
    }
}

impl SemVer {
    pub fn new(major: u64, minor: u64, patch: u64) -> (r: SemVer)
        ensures
            r == (SemVer { major, minor, patch }),
    {
        SemVer { major, minor, patch }
    }

    /// Parses `MAJOR[.MINOR[.PATCH]]`.
    pub fn parse(s: &str) -> (r: Result<SemVer, String>)
        ensures
            match r {
                Ok(v) => parse_semver_spec(s@) == Some(v),
                Err(e) => parse_semver_spec(s@) is None && e@ == invalid_version(s@),
            },
    {
        let cs = chars_of(s);
        parse_semver_chars(&cs)
    }

    /// The display form `major.minor.patch`.
    pub fn to_string(&self) -> (r: String)
        ensures
            r@ == semver_str(*self),
    {
        let mut out = String::new();
        write_semver(&mut out, self);
        proof { assert(out@ =~= semver_str(*self)); }
        out
    }
}

fn write_semver(out: &mut String, v: &SemVer)
    ensures
        final(out)@ == old(out)@ + semver_str(*v),
{
    push_decimal(out, v.major);
    push_str(out, ".");
    push_decimal(out, v.minor);
    push_str(out, ".");
    push_decimal(out, v.patch);
    proof { assert(out@ =~= old(out)@ + semver_str(*v)); }
}

fn invalid_version_msg(s: &Vec<char>) -> (r: String)
    ensures
        r@ == invalid_version(s@),
{
    let mut out = String::new();
    push_str(&mut out, "invalid version: '");
    push_chars(&mut out, s);
    push_str(&mut out, "'");
    proof { assert(out@ =~= invalid_version(s@)); }
    out
}

fn parse_semver_chars(s: &Vec<char>) -> (r: Result<SemVer, String>)
    ensures
        match r {
            Ok(v) => parse_semver_spec(s@) == Some(v),
            Err(e) => parse_semver_spec(s@) is None && e@ == invalid_version(s@),
        },
{
    let parts = split_chars(s, '.');
    proof {
        lemma_split_on_nonempty(s@, '.');
        assert(char_vecs_view(parts@).len() == parts@.len());
    }
    let ghost ps = split_on(s@, '.');
    let n = parts.len();
    if n == 1 {
        proof { assert(ps[0] == parts@[0]@); }
        match parse_u64(&parts[0]) {
            Some(a) => Ok(SemVer::new(a, 0, 0)),
            None => Err(invalid_version_msg(s)),
        }
    } else if n == 2 {
        proof { assert(ps[0] == parts@[0]@ && ps[1] == parts@[1]@); }
        match (parse_u64(&parts[0]), parse_u64(&parts[1])) {
            (Some(a), Some(b)) => Ok(SemVer::new(a, b, 0)),
            _ => Err(invalid_version_msg(s)),
        }
    } else if n == 3 {
        proof { assert(ps[0] == parts@[0]@ && ps[1] == parts@[1]@ && ps[2] == parts@[2]@); }
        match (parse_u64(&parts[0]), parse_u64(&parts[1]), parse_u64(&parts[2])) {
            (Some(a), Some(b), Some(c)) => Ok(SemVer::new(a, b, c)),
            _ => Err(invalid_version_msg(s)),
        }
    } else {
        Err(invalid_version_msg(s))
    }
}

/// A single version comparator (e.g. `>=1.2.3`).
#[derive(Debug, Clone, Copy, PartialEq, Eq, Structural)]
pub enum Comparator {
    /// `>=1.2.3, <2.0.0` (caret)
    Caret(SemVer),
    /// `>=1.2.3, <1.3.0` (tilde)
    Tilde(SemVer),
    /// `=1.2.3` (exact)
    Exact(SemVer),
    /// `>=1.2.3`
    Gte(SemVer),
    /// `>1.2.3`
    Gt(SemVer),
    /// `<=1.2.3`
    Lte(SemVer),
    /// `<1.2.3`
    Lt(SemVer),
    /// `*` (any)
    Wildcard,
}

/// Does `v` satisfy the comparator `c`?
pub open spec fn comparator_holds(c: Comparator, v: SemVer) -> bool {
    match c {
        Comparator::Caret(b) => !version_lt(v, b) && if b.major > 0 {
            v.major == b.major
        } else if b.minor > 0 {
            v.major == 0 && v.minor == b.minor
        } else {
            v.major == 0 && v.minor == 0 && v.patch == b.patch
        },
        Comparator::Tilde(b) => !version_lt(v, b) && v.major == b.major && v.minor == b.minor,
        Comparator::Exact(b) => v == b,
        Comparator::Gte(b) => !version_lt(v, b),
        Comparator::Gt(b) => version_lt(b, v),
        Comparator::Lte(b) => !version_lt(b, v),
        Comparator::Lt(b) => version_lt(v, b),
        Comparator::Wildcard => true,
    }
}

/// Does `v` satisfy every comparator of `cs`?
pub open spec fn all_hold(cs: Seq<Comparator>, v: SemVer) -> bool {
    forall|i: int| 0 <= i < cs.len() ==> #[trigger] comparator_holds(cs[i], v)
}

impl Comparator {
    /// Whether `ver` satisfies this comparator.
    pub fn matches(&self, ver: &SemVer) -> (r: bool)
        ensures
            r == comparator_holds(*self, *ver),
    {
        match self {
            Comparator::Caret(base) => {
                if ver < base {
                    return false;
                }
                if base.major > 0 {
                    ver.major == base.major
                } else if base.minor > 0 {
                    ver.major == 0 && ver.minor == base.minor
                } else {
                    ver.major == 0 && ver.minor == 0 && ver.patch == base.patch
                }
            },
            Comparator::Tilde(base) => {
                if ver < base {
                    return false;
                }
                ver.major == base.major && ver.minor == base.minor
            },
            Comparator::Exact(base) => ver == base,
            Comparator::Gte(base) => ver >= base,
            Comparator::Gt(base) => ver > base,
            Comparator::Lte(base) => ver <= base,
            Comparator::Lt(base) => ver < base,
            Comparator::Wildcard => true,
        }
    }

    /// The display form, e.g. `^1.2.3`.
    pub fn to_string(&self) -> (r: String)
        ensures
            r@ == comparator_str(*self),
    {
        let mut out = String::new();
        write_comparator(&mut out, self);
        proof { assert(out@ =~= comparator_str(*self)); }
        out
    }
}

/// Display form of a comparator.
pub open spec fn comparator_str(c: Comparator) -> Seq<char> {
    match c {
        Comparator::Caret(v) => "^"@ + semver_str(v),
        Comparator::Tilde(v) => "~"@ + semver_str(v),
        Comparator::Exact(v) => "="@ + semver_str(v),
        Comparator::Gte(v) => ">="@ + semver_str(v),
        Comparator::Gt(v) => ">"@ + semver_str(v),
        Comparator::Lte(v) => "<="@ + semver_str(v),
        Comparator::Lt(v) => "<"@ + semver_str(v),
        Comparator::Wildcard => "*"@,
    }
}

/// Display form of a list of comparators, separated by `", "`.
pub open spec fn comparators_str(cs: Seq<Comparator>) -> Seq<char>
    decreases cs.len(),
{
    if cs.len() == 0 {
        Seq::empty()
    } else if cs.len() == 1 {
        comparator_str(cs[0])
    } else {
        comparators_str(cs.drop_last()) + ", "@ + comparator_str(cs.last())
    }
}

fn write_comparator(out: &mut String, c: &Comparator)
    ensures
        final(out)@ == old(out)@ + comparator_str(*c),
{
    match c {
        Comparator::Caret(v) => { push_str(out, "^"); write_semver(out, v); },
        Comparator::Tilde(v) => { push_str(out, "~"); write_semver(out, v); },
        Comparator::Exact(v) => { push_str(out, "="); write_semver(out, v); },
        Comparator::Gte(v) => { push_str(out, ">="); write_semver(out, v); },
        Comparator::Gt(v) => { push_str(out, ">"); write_semver(out, v); },
        Comparator::Lte(v) => { push_str(out, "<="); write_semver(out, v); },
        Comparator::Lt(v) => { push_str(out, "<"); write_semver(out, v); },
        Comparator::Wildcard => { push_str(out, "*"); },
    }
    proof { assert(out@ =~= old(out)@ + comparator_str(*c)); }
}

/// A version requirement: every comparator must match.
#[derive(Debug, Clone, PartialEq, Eq)]
pub struct VersionReq {
    pub comparators: Vec<Comparator>,
}

/// One comparator, as `parse_single_comparator` reads it.
pub open spec fn parse_comparator_spec(s: Seq<char>) -> Result<Comparator, Seq<char>> {
    let t = trim(s);
    let n = t.len() as int;
    if t == seq!['*'] {
        Ok(Comparator::Wildcard)
    } else if n >= 1 && t[0] == '^' {
        match semver_or_err(trim(t.subrange(1, n))) {
            Ok(v) => Ok(Comparator::Caret(v)),
            Err(e) => Err(e),
        }
    } else if n >= 1 && t[0] == '~' {
        match semver_or_err(trim(t.subrange(1, n))) {
            Ok(v) => Ok(Comparator::Tilde(v)),
            Err(e) => Err(e),
        }
    } else if n >= 2 && t[0] == '>' && t[1] == '=' {
        match semver_or_err(trim(t.subrange(2, n))) {
            Ok(v) => Ok(Comparator::Gte(v)),
            Err(e) => Err(e),
        }
    } else if n >= 1 && t[0] == '>' {
        match semver_or_err(trim(t.subrange(1, n))) {
            Ok(v) => Ok(Comparator::Gt(v)),
            Err(e) => Err(e),
        }
    } else if n >= 2 && t[0] == '<' && t[1] == '=' {
        match semver_or_err(trim(t.subrange(2, n))) {
            Ok(v) => Ok(Comparator::Lte(v)),
            Err(e) => Err(e),
        }
    } else if n >= 1 && t[0] == '<' {
        match semver_or_err(trim(t.subrange(1, n))) {
            Ok(v) => Ok(Comparator::Lt(v)),
            Err(e) => Err(e),
        }
    } else if n >= 1 && t[0] == '=' {
        match semver_or_err(trim(t.subrange(1, n))) {
            Ok(v) => Ok(Comparator::Exact(v)),
            Err(e) => Err(e),
        }
    } else {
        match semver_or_err(t) {
            Ok(v) => Ok(Comparator::Caret(v)),
            Err(e) => Err(e),
        }
    }
}

/// The comparators of the comma-separated parts, or the first part's error.
pub open spec fn parse_parts_spec(parts: Seq<Seq<char>>) -> Result<Seq<Comparator>, Seq<char>>
    decreases parts.len(),
{
    if parts.len() == 0 {
        Ok(Seq::empty())
    } else {
        match parse_parts_spec(parts.drop_last()) {
            Err(e) => Err(e),
            Ok(cs) => match parse_comparator_spec(trim(parts.last())) {
                Ok(c) => Ok(cs.push(c)),
                Err(e) => Err(e),
            },
        }
    }
}

/// A version requirement as `VersionReq::parse` reads it.
pub open spec fn parse_req_spec(s: Seq<char>) -> Result<Seq<Comparator>, Seq<char>> {
    let t = trim(s);
    if t == seq!['*'] {
        Ok(seq![Comparator::Wildcard])
    } else {
        parse_parts_spec(split_on(t, ','))
    }
}

proof fn lemma_parse_parts_err(parts: Seq<Seq<char>>, i: int, j: int, e: Seq<char>)
    requires
        0 <= i <= j <= parts.len(),
        parse_parts_spec(parts.take(i)) == Err::<Seq<Comparator>, Seq<char>>(e),
    ensures
        parse_parts_spec(parts.take(j)) == Err::<Seq<Comparator>, Seq<char>>(e),
    decreases j - i,
{
    if i < j {
        lemma_parse_parts_err(parts, i, j - 1, e);
        assert(parts.take(j).drop_last() =~= parts.take(j - 1));
    }
}

fn is_star(t: &Vec<char>) -> (r: bool)
    ensures
        r == (t@ == seq!['*']),
{
    if t.len() == 1 && t[0] == '*' {
        proof { assert(t@ =~= seq!['*']); }
        true
    } else {
        proof { if t@ == seq!['*'] { assert(t@[0] == '*'); } }
        false
    }
}

fn version_after(t: &Vec<char>, k: usize) -> (r: Result<SemVer, String>)
    requires
        k <= t@.len(),
    ensures
        match r {
            Ok(v) => semver_or_err(trim(t@.subrange(k as int, t@.len() as int))) == Ok::<SemVer, Seq<char>>(v),
            Err(e) => semver_or_err(trim(t@.subrange(k as int, t@.len() as int))) == Err::<SemVer, Seq<char>>(e@),
        },
{
    let rest = copy_range(t, k, t.len());
    let rest = trim_chars(&rest);
    parse_semver_chars(&rest)
}

fn parse_comparator_chars(s: &Vec<char>) -> (r: Result<Comparator, String>)
    ensures
        match r {
            Ok(c) => parse_comparator_spec(s@) == Ok::<Comparator, Seq<char>>(c),
            Err(e) => parse_comparator_spec(s@) == Err::<Comparator, Seq<char>>(e@),
        },
{
    let t = trim_chars(s);
    let n = t.len();
    if is_star(&t) {
        return Ok(Comparator::Wildcard);
    }
    if n >= 1 && t[0] == '^' {
        return match version_after(&t, 1) { Ok(v) => Ok(Comparator::Caret(v)), Err(e) => Err(e) };
    }
    if n >= 1 && t[0] == '~' {
        return match version_after(&t, 1) { Ok(v) => Ok(Comparator::Tilde(v)), Err(e) => Err(e) };
    }
    if n >= 2 && t[0] == '>' && t[1] == '=' {
        return match version_after(&t, 2) { Ok(v) => Ok(Comparator::Gte(v)), Err(e) => Err(e) };
    }
    if n >= 1 && t[0] == '>' {
        return match version_after(&t, 1) { Ok(v) => Ok(Comparator::Gt(v)), Err(e) => Err(e) };
    }
    if n >= 2 && t[0] == '<' && t[1] == '=' {
        return match version_after(&t, 2) { Ok(v) => Ok(Comparator::Lte(v)), Err(e) => Err(e) };
    }
    if n >= 1 && t[0] == '<' {
        return match version_after(&t, 1) { Ok(v) => Ok(Comparator::Lt(v)), Err(e) => Err(e) };
    }
    if n >= 1 && t[0] == '=' {
        return match version_after(&t, 1) { Ok(v) => Ok(Comparator::Exact(v)), Err(e) => Err(e) };
    }
    match parse_semver_chars(&t) {
        Ok(v) => Ok(Comparator::Caret(v)),
        Err(e) => Err(e),
    }
}

/// Parses one comparator such as `>=1.2`, `~1.2.3`, `*` or a bare version (caret).
pub fn parse_single_comparator(s: &str) -> (r: Result<Comparator, String>)
    ensures
        match r {
            Ok(c) => parse_comparator_spec(s@) == Ok::<Comparator, Seq<char>>(c),
            Err(e) => parse_comparator_spec(s@) == Err::<Comparator, Seq<char>>(e@),
        },
{
    let cs = chars_of(s);
    parse_comparator_chars(&cs)
}

impl VersionReq {
    /// Parses a requirement: `1.2.3` (caret), `^1.2.3`, `~1.2.3`, `=1.2.3`,
    /// `>=1.0, <2.0` (comma-separated, all must hold), or `*`.
    pub fn parse(s: &str) -> (r: Result<VersionReq, String>)
        ensures
            match r {
                Ok(req) => parse_req_spec(s@) == Ok::<Seq<Comparator>, Seq<char>>(req.comparators@),
                Err(e) => parse_req_spec(s@) == Err::<Seq<Comparator>, Seq<char>>(e@),
            },
    {
        let cs = chars_of(s);
        let t = trim_chars(&cs);
        if is_star(&t) {
            let mut comparators: Vec<Comparator> = Vec::new();
            comparators.push(Comparator::Wildcard);
            proof { assert(comparators@ =~= seq![Comparator::Wildcard]); }
            return Ok(VersionReq { comparators });
        }
        let parts = split_chars(&t, ',');
        let ghost ps = split_on(t@, ',');
        let mut comparators: Vec<Comparator> = Vec::new();
        let mut i: usize = 0;
        proof { assert(ps.take(0) =~= Seq::<Seq<char>>::empty()); }
        while i < parts.len()
            invariant
                i <= parts@.len(),
                ps == char_vecs_view(parts@),
                ps.len() == parts@.len(),
                parse_req_spec(s@) == parse_parts_spec(ps),
                parse_parts_spec(ps.take(i as int)) == Ok::<Seq<Comparator>, Seq<char>>(comparators@),
            decreases parts@.len() - i,
        {
            proof {
                assert(ps.take(i + 1).drop_last() =~= ps.take(i as int));
                assert(ps[i as int] == parts@[i as int]@);
            }
            let part = trim_chars(&parts[i]);
            match parse_comparator_chars(&part) {
                Ok(c) => {
                    comparators.push(c);
                },
                Err(e) => {
                    proof {
                        lemma_parse_parts_err(ps, i + 1, ps.len() as int, e@);
                        assert(ps.take(ps.len() as int) =~= ps);
                    }
                    return Err(e);
                },
            }
            i = i + 1;
        }
        proof { assert(ps.take(ps.len() as int) =~= ps); }
        Ok(VersionReq { comparators })
    }

    /// Whether `ver` satisfies every comparator.
    pub fn matches(&self, ver: &SemVer) -> (r: bool)
        ensures
            r == all_hold(self.comparators@, *ver),
    {
        let mut i: usize = 0;
        while i < self.comparators.len()
            invariant
                i <= self.comparators@.len(),
                forall|j: int| 0 <= j < i ==> #[trigger] comparator_holds(self.comparators@[j], *ver),
            decreases self.comparators@.len() - i,
        {
            if !self.comparators[i].matches(ver) {
                return false;
            }
            i = i + 1;
        }
        true
    }

    /// The display form: the comparators separated by `", "`.
    pub fn to_string(&self) -> (r: String)
        ensures
            r@ == comparators_str(self.comparators@),
    {
        let mut out = String::new();
        let mut i: usize = 0;
        while i < self.comparators.len()
            invariant
                i <= self.comparators@.len(),
                out@ == comparators_str(self.comparators@.take(i as int)),
            decreases self.comparators@.len() - i,
        {
            let ghost before = out@;
            if i > 0 {
                push_str(&mut out, ", ");
            }
            write_comparator(&mut out, &self.comparators[i]);
            proof {
                let cs = self.comparators@.take(i + 1);
                assert(cs.drop_last() =~= self.comparators@.take(i as int));
                if i == 0 {
                    assert(out@ =~= comparators_str(cs));
                } else {
                    assert(out@ =~= comparators_str(cs));
                }
            }
            i = i + 1;
        }
        proof { assert(self.comparators@.take(self.comparators@.len() as int) =~= self.comparators@); }
        out
    }
}

/// Versions are totally ordered: of `a < b`, `a == b` and `b < a` exactly one holds.
pub proof fn law_version_order_total(a: SemVer, b: SemVer)
    ensures
        version_lt(a, b) || a == b || version_lt(b, a),
        !(version_lt(a, b) && version_lt(b, a)),
        !(version_lt(a, b) && a == b),
{
}

/// The order of versions is transitive.
pub proof fn law_version_order_transitive(a: SemVer, b: SemVer, c: SemVer)
    requires
        version_lt(a, b),
        version_lt(b, c),
    ensures
        version_lt(a, c),
{
}

/// `^M.m.p` with `M > 0` means `>=M.m.p, <(M+1).0.0`.
pub proof fn law_caret_major_range(b: SemVer, v: SemVer)
    requires
        b.major > 0,
        b.major < u64::MAX,
    ensures
        comparator_holds(Comparator::Caret(b), v) <==> !version_lt(v, b) && version_lt(
            v,
            SemVer { major: (b.major + 1) as u64, minor: 0, patch: 0 },
        ),
{
}

/// `^0.m.p` with `m > 0` means `>=0.m.p, <0.(m+1).0`.
pub proof fn law_caret_minor_range(b: SemVer, v: SemVer)
    requires
        b.major == 0,
        b.minor > 0,
        b.minor < u64::MAX,
    ensures
        comparator_holds(Comparator::Caret(b), v) <==> !version_lt(v, b) && version_lt(
            v,
            SemVer { major: 0, minor: (b.minor + 1) as u64, patch: 0 },
        ),
{
}

/// `^0.0.p` means `>=0.0.p, <0.0.(p+1)`.
pub proof fn law_caret_patch_range(b: SemVer, v: SemVer)
    requires
        b.major == 0,
        b.minor == 0,
        b.patch < u64::MAX,
    ensures
        comparator_holds(Comparator::Caret(b), v) <==> !version_lt(v, b) && version_lt(
            v,
            SemVer { major: 0, minor: 0, patch: (b.patch + 1) as u64 },
        ),
{
}

/// `~M.m.p` means `>=M.m.p, <M.(m+1).0`.
pub proof fn law_tilde_range(b: SemVer, v: SemVer)
    requires
        b.minor < u64::MAX,
    ensures
        comparator_holds(Comparator::Tilde(b), v) <==> !version_lt(v, b) && version_lt(
            v,
            SemVer { major: b.major, minor: (b.minor + 1) as u64, patch: 0 },
        ),
{
}

/// A version satisfies `^v`, `~v`, `=v`, `>=v` and `<=v`, and neither `>v` nor `<v`.
pub proof fn law_comparator_accepts_base(b: SemVer)
    ensures
        comparator_holds(Comparator::Caret(b), b),
        comparator_holds(Comparator::Tilde(b), b),
        comparator_holds(Comparator::Exact(b), b),
        comparator_holds(Comparator::Gte(b), b),
        comparator_holds(Comparator::Lte(b), b),
        !comparator_holds(Comparator::Gt(b), b),
        !comparator_holds(Comparator::Lt(b), b),
{
}

/// Displaying a version and parsing the text gives the same version back.
pub proof fn law_semver_display_parse(v: SemVer)
    ensures
        parse_semver_spec(semver_str(v)) == Some(v),
{
    reveal_strlit(".");
    let a = decimal(v.major as nat);
    let b = decimal(v.minor as nat);
    let c = decimal(v.patch as nat);
    lemma_decimal_digits(v.major as nat);
    lemma_decimal_digits(v.minor as nat);
    lemma_decimal_digits(v.patch as nat);
    lemma_digits_exclude(a, '.');
    lemma_digits_exclude(b, '.');
    lemma_digits_exclude(c, '.');
    assert(semver_str(v) =~= a + seq!['.'] + (b + seq!['.'] + c));
    lemma_split_concat(a, b + seq!['.'] + c, '.');
    lemma_split_concat(b, c, '.');
    lemma_split_none(a, '.');
    lemma_split_none(b, '.');
    lemma_split_none(c, '.');
    assert(split_on(semver_str(v), '.') =~= seq![a, b, c]);
    lemma_parse_u64_decimal(v.major);
    lemma_parse_u64_decimal(v.minor);
    lemma_parse_u64_decimal(v.patch);
}

proof fn lemma_semver_str_plain(v: SemVer)
    ensures
        plain(semver_str(v)),
        semver_str(v).len() >= 5,
        is_digit(semver_str(v)[0]),
        trim(semver_str(v)) == semver_str(v),
{
    reveal_strlit(".");
    let a = decimal(v.major as nat);
    let b = decimal(v.minor as nat);
    let c = decimal(v.patch as nat);
    lemma_decimal_digits(v.major as nat);
    lemma_decimal_digits(v.minor as nat);
    lemma_decimal_digits(v.patch as nat);
    lemma_digits_plain(a);
    lemma_digits_plain(b);
    lemma_digits_plain(c);
    let dot = seq!['.'];
    assert(plain(dot)) by {
        assert forall|i: int| 0 <= i < dot.len() implies !is_ws(#[trigger] dot[i]) && dot[i] != ',' by {
            assert(dot[i] == '.');
        }
    }
    lemma_plain_concat(a, dot);
    lemma_plain_concat(a + dot, b);
    lemma_plain_concat(a + dot + b, dot);
    lemma_plain_concat(a + dot + b + dot, c);
    assert(semver_str(v) =~= a + dot + b + dot + c);
    assert(semver_str(v)[0] == a[0]);
    lemma_trim_plain(semver_str(v));
}

proof fn lemma_prefixed_plain(p: Seq<char>, v: SemVer)
    requires
        forall|i: int| 0 <= i < p.len() ==> !is_ws(#[trigger] p[i]) && p[i] != ',',
    ensures
        plain(p + semver_str(v)),
        trim(p + semver_str(v)) == p + semver_str(v),
        (p + semver_str(v)).subrange(p.len() as int, (p + semver_str(v)).len() as int) == semver_str(v),
{
    lemma_semver_str_plain(v);
    lemma_plain_concat(p, semver_str(v));
    lemma_trim_plain(p + semver_str(v));
    assert((p + semver_str(v)).subrange(p.len() as int, (p + semver_str(v)).len() as int) =~= semver_str(v));
}

/// The display form of a comparator is plain text that parses back to the comparator.
proof fn lemma_comparator_str(c: Comparator)
    ensures
        plain(comparator_str(c)),
        comparator_str(c).len() >= 1,
        c != Comparator::Wildcard ==> comparator_str(c).len() >= 2,
        parse_comparator_spec(comparator_str(c)) == Ok::<Comparator, Seq<char>>(c),
{
    reveal_strlit("^");
    reveal_strlit("~");
    reveal_strlit("=");
    reveal_strlit(">=");
    reveal_strlit(">");
    reveal_strlit("<=");
    reveal_strlit("<");
    reveal_strlit("*");
    match c {
        Comparator::Wildcard => {
            let t = comparator_str(c);
            assert(t =~= seq!['*']);
            assert(plain(t)) by {
                assert forall|i: int| 0 <= i < t.len() implies !is_ws(#[trigger] t[i]) && t[i] != ',' by {
                    assert(t[i] == '*');
                }
            }
            lemma_trim_plain(t);
        },
        Comparator::Caret(v) | Comparator::Tilde(v) | Comparator::Exact(v) | Comparator::Gte(v)
        | Comparator::Gt(v) | Comparator::Lte(v) | Comparator::Lt(v) => {
            let s = semver_str(v);
            let t = comparator_str(c);
            let p = t.subrange(0, t.len() - s.len());
            lemma_semver_str_plain(v);
            law_semver_display_parse(v);
            assert(t =~= p + s);
            assert(forall|i: int| 0 <= i < p.len() ==> p[i] == '^' || p[i] == '~' || p[i] == '=' || p[i] == '>' || p[i] == '<');
            lemma_prefixed_plain(p, v);
            assert(t[p.len() as int] == s[0]);
            assert(t != seq!['*']) by {
                if t == seq!['*'] {
                    assert(t.len() == 1);
                }
            }
        },
    }
}

/// The pieces that `comparators_str(cs)` splits into at its commas.
pub open spec fn req_parts(cs: Seq<Comparator>) -> Seq<Seq<char>>
    decreases cs.len(),
{
    if cs.len() == 0 {
        Seq::empty()
    } else if cs.len() == 1 {
        seq![comparator_str(cs[0])]
    } else {
        req_parts(cs.drop_last()).push(seq![' '] + comparator_str(cs.last()))
    }
}

proof fn lemma_req_split(cs: Seq<Comparator>)
    requires
        cs.len() >= 1,
    ensures
        split_on(comparators_str(cs), ',') == req_parts(cs),
        comparators_str(cs).len() >= 1,
        cs.len() >= 2 ==> comparators_str(cs).len() >= 3,
        comparators_str(cs)[0] == comparator_str(cs[0])[0],
        comparators_str(cs).last() == comparator_str(cs.last()).last(),
    decreases cs.len(),
{
    lemma_comparator_str(cs.last());
    let cl = comparator_str(cs.last());
    lemma_trim_plain(cl);
    if cs.len() == 1 {
        lemma_split_none(cl, ',');
    } else {
        reveal_strlit(", ");
        let x = comparators_str(cs.drop_last());
        lemma_req_split(cs.drop_last());
        let tail = seq![' '] + cl;
        assert(comparators_str(cs) =~= x + seq![','] + tail);
        lemma_split_concat(x, tail, ',');
        assert(!tail.contains(',')) by {
            if tail.contains(',') {
                let i = choose|i: int| 0 <= i < tail.len() && tail[i] == ',';
                if i > 0 {
                    assert(tail[i] == cl[i - 1]);
                    assert(cl.contains(','));
                }
            }
        }
        lemma_split_none(tail, ',');
        assert(cs.drop_last()[0] == cs[0]);
        assert(comparators_str(cs)[0] == x[0]);
    }
}

proof fn lemma_req_parse_parts(cs: Seq<Comparator>)
    ensures
        parse_parts_spec(req_parts(cs)) == Ok::<Seq<Comparator>, Seq<char>>(cs),
    decreases cs.len(),
{
    if cs.len() == 0 {
        assert(req_parts(cs) =~= Seq::<Seq<char>>::empty());
        assert(cs =~= Seq::<Comparator>::empty());
    } else {
        let c = cs.last();
        lemma_comparator_str(c);
        if cs.len() == 1 {
            lemma_trim_plain(comparator_str(c));
            let p = req_parts(cs);
            assert(p.drop_last() =~= Seq::<Seq<char>>::empty());
            assert(parse_parts_spec(p.drop_last()) == Ok::<Seq<Comparator>, Seq<char>>(Seq::empty()));
            assert(Seq::<Comparator>::empty().push(c) =~= cs);
        } else {
            lemma_req_parse_parts(cs.drop_last());
            lemma_trim_space_plain(comparator_str(c));
            let p = req_parts(cs);
            assert(p.drop_last() =~= req_parts(cs.drop_last()));
            assert(cs.drop_last().push(c) =~= cs);
        }
    }
}

/// Displaying a non-empty requirement and parsing the text gives the same comparators back.
pub proof fn law_req_display_parse(cs: Seq<Comparator>)
    requires
        cs.len() >= 1,
    ensures
        parse_req_spec(comparators_str(cs)) == Ok::<Seq<Comparator>, Seq<char>>(cs),
{
    let t = comparators_str(cs);
    lemma_req_split(cs);
    lemma_req_parse_parts(cs);
    lemma_comparator_str(cs[0]);
    lemma_comparator_str(cs.last());
    let c0 = comparator_str(cs[0]);
    let cl = comparator_str(cs.last());
    assert(!is_ws(c0[0]));
    assert(!is_ws(cl[cl.len() - 1]));
    lemma_trim_ends(t);
    if t == seq!['*'] {
        assert(cs.len() == 1);
        assert(cs[0] == Comparator::Wildcard);
        assert(seq![Comparator::Wildcard] =~= cs);
    }
}

} // verus!
