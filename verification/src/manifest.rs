//! The `Riven.toml` manifest: its sections, and the rules a manifest must follow.
//!
//! Reading and writing the TOML text is done by the command-line front end; this module
//! holds the manifest's data and everything that is decided from it.
use std::collections::BTreeMap;
use vstd::prelude::*;
use vstd::utf8::encode_utf8;
use crate::text::{chars_of, push_char, push_str, str_eq, string_of};
use crate::version::{parse_semver_spec, SemVer};

verus! {

/// The full Riven.toml manifest.
#[derive(Debug)]
pub struct Manifest {
    pub package: Package,
    pub dependencies: BTreeMap<String, Dependency>,
    pub dev_dependencies: BTreeMap<String, Dependency>,
    pub build: Option<BuildConfig>,
    pub bin: Vec<BinTarget>,
    pub profile: Option<Profiles>,
}

/// The `[package]` section.
#[derive(Debug)]
pub struct Package {
    pub name: String,
    pub version: String,
    pub edition: Option<String>,
    /// Minimum compiler version requirement.
    pub riven: Option<String>,
    pub authors: Vec<String>,
    pub license: Option<String>,
    pub description: Option<String>,
    pub repository: Option<String>,
    pub homepage: Option<String>,
    pub readme: Option<String>,
    pub keywords: Vec<String>,
}

/// A dependency: a plain registry version string, or a table with source details.
#[derive(Debug, Clone)]
pub enum Dependency {
    /// Registry version string: "1.2.0", "^2.0", "~1.2.3"
    Version(String),
    /// Table with source details
    Detailed(DependencyDetail),
}

/// Detailed dependency specification.
#[derive(Debug, Clone)]
pub struct DependencyDetail {
    pub version: Option<String>,
    pub git: Option<String>,
    pub path: Option<String>,
    pub branch: Option<String>,
    pub tag: Option<String>,
    pub rev: Option<String>,
}

impl Default for DependencyDetail {
    /// A detail table with no entry set.
    fn default() -> (r: DependencyDetail)
        ensures
            r.version is None,
            r.git is None,
            r.path is None,
            r.branch is None,
            r.tag is None,
            r.rev is None,
    {
        DependencyDetail { version: None, git: None, path: None, branch: None, tag: None, rev: None }
    }
}

/// The `[build]` section.
#[derive(Debug)]
pub struct BuildConfig {
    /// "binary" or "library"
    pub build_type: Option<String>,
    /// Entry point file
    pub entry: Option<String>,
    /// C libraries to link (-l flags)
    pub link: Vec<String>,
    /// Library search paths (-L flags)
    pub link_search: Vec<String>,
}

/// A `[[bin]]` target.
#[derive(Debug)]
pub struct BinTarget {
    pub name: String,
    pub entry: String,
}

/// The `[profile.*]` sections.
#[derive(Debug)]
pub struct Profiles {
    pub debug: Option<ProfileConfig>,
    pub release: Option<ProfileConfig>,
}

/// Configuration for a single build profile.
#[derive(Debug)]
pub struct ProfileConfig {
    pub opt_level: Option<u8>,
    pub debug: Option<bool>,
    pub lto: Option<bool>,
}

/// The characters of an optional string.
pub open spec fn opt_chars(o: Option<String>) -> Option<Seq<char>> {
    match o {
        Some(s) => Some(s@),
        None => None,
    }
}

/// The characters of an optional string slice.
pub open spec fn opt_str_chars(o: Option<&str>) -> Option<Seq<char>> {
    match o {
        Some(s) => Some(s@),
        None => None,
    }
}

/// The build type: the `[build] type` entry, `"binary"` when there is none.
pub open spec fn build_type_spec(m: Manifest) -> Seq<char> {
    match m.build {
        Some(b) => match b.build_type {
            Some(t) => t@,
            None => "binary"@,
        },
        None => "binary"@,
    }
}

/// The entry point: the `[build] entry` entry, else `src/lib.rvn` for a library and
/// `src/main.rvn` for anything else.
pub open spec fn entry_point_spec(m: Manifest) -> Seq<char> {
    let explicit = match m.build {
        Some(b) => opt_chars(b.entry),
        None => None,
    };
    match explicit {
        Some(e) => e,
        None => if build_type_spec(m) == "library"@ {
            "src/lib.rvn"@
        } else {
            "src/main.rvn"@
        },
    }
}

/// The characters allowed after the first one of a package name.
pub open spec fn is_name_char(c: char) -> bool {
    ('a' <= c && c <= 'z') || ('0' <= c && c <= '9') || c == '_' || c == '-'
}

/// The first character at or after `i` that is not allowed in a package name.
pub open spec fn first_invalid_from(s: Seq<char>, i: int) -> Option<char>
    decreases s.len() - i,
{
    if i < 0 || i >= s.len() {
        None
    } else if !is_name_char(s[i]) {
        Some(s[i])
    } else {
        first_invalid_from(s, i + 1)
    }
}

/// What checking a package name gives: names are `[a-z][a-z0-9_-]*`, at most 64 bytes
/// (the byte length as `str::len` reports it).
pub open spec fn package_name_check(s: Seq<char>) -> Result<(), Seq<char>> {
    if s.len() == 0 {
        Err("package name cannot be empty"@)
    } else if encode_utf8(s).len() as usize > 64 {
        Err("package name '"@ + s + "' is too long (max 64 characters)"@)
    } else if !('a' <= s[0] && s[0] <= 'z') {
        Err("package name '"@ + s + "' must start with a lowercase letter"@)
    } else {
        match first_invalid_from(s, 1) {
            Some(c) => Err(
                "package name '"@ + s + "' contains invalid character '"@ + seq![c]
                    + "' (allowed: a-z, 0-9, _, -)"@,
            ),
            None => Ok(()),
        }
    }
}

/// What validating a manifest gives: the name check, then the version, then the
/// number of keywords.
pub open spec fn manifest_check(m: Manifest) -> Result<(), Seq<char>> {
    match package_name_check(m.package.name@) {
        Err(e) => Err(e),
        Ok(_) => if parse_semver_spec(m.package.version@) is None {
            Err("invalid package version: '"@ + m.package.version@ + "'"@)
        } else if m.package.keywords.len() > 5 {
            Err("too many keywords (max 5)"@)
        } else {
            Ok(())
        },
    }
}

/// A `Result` with a `String` error, taken by the error's characters.
pub open spec fn result_chars(r: Result<(), String>) -> Result<(), Seq<char>> {
    match r {
        Ok(u) => Ok(u),
        Err(e) => Err(e@),
    }
}

impl Manifest {
    /// The build type ("binary" or "library"); "binary" unless `[build]` says otherwise.
    pub fn build_type(&self) -> (r: &str)
        ensures
            r@ == build_type_spec(*self),
    {
        match &self.build {
            Some(b) => match &b.build_type {
                Some(t) => t.as_str(),
                None => "binary",
            },
            None => "binary",
        }
    }

    /// The entry point file.
    pub fn entry_point(&self) -> (r: &str)
        ensures
            r@ == entry_point_spec(*self),
    {
        match &self.build {
            Some(b) => match &b.entry {
                Some(e) => {
                    return e.as_str();
                },
                None => {},
            },
            None => {},
        }
        if str_eq(self.build_type(), "library") {
            "src/lib.rvn"
        } else {
            "src/main.rvn"
        }
    }

    /// Validates the manifest: the package name, the package version, and at most five
    /// keywords.
    pub fn validate(&self) -> (r: Result<(), String>)
        ensures
            result_chars(r) == manifest_check(*self),
    {
        match validate_package_name(self.package.name.as_str()) {
            Err(e) => {
                return Err(e);
            },
            Ok(_) => {},
        }
        match SemVer::parse(self.package.version.as_str()) {
            Err(_) => {
                let mut msg = string_of("invalid package version: '");
                push_str(&mut msg, self.package.version.as_str());
                push_str(&mut msg, "'");
                proof { assert(msg@ =~= "invalid package version: '"@ + self.package.version@ + "'"@); }
                return Err(msg);
            },
            Ok(_) => {},
        }
        if self.package.keywords.len() > 5 {
            return Err(string_of("too many keywords (max 5)"));
        }
        Ok(())
    }
}

/// Validates a package name: `[a-z][a-z0-9_-]*`, at most 64 bytes.
pub fn validate_package_name(name: &str) -> (r: Result<(), String>)
    ensures
        result_chars(r) == package_name_check(name@),
{
    let cs = chars_of(name);
    if cs.len() == 0 {
        return Err(string_of("package name cannot be empty"));
    }
    if name.len() > 64 {
        let mut msg = string_of("package name '");
        push_str(&mut msg, name);
        push_str(&mut msg, "' is too long (max 64 characters)");
        proof { assert(msg@ =~= "package name '"@ + name@ + "' is too long (max 64 characters)"@); }
        return Err(msg);
    }
    let first = cs[0];
    if !('a' <= first && first <= 'z') {
        let mut msg = string_of("package name '");
        push_str(&mut msg, name);
        push_str(&mut msg, "' must start with a lowercase letter");
        proof { assert(msg@ =~= "package name '"@ + name@ + "' must start with a lowercase letter"@); }
        return Err(msg);
    }
    let mut i: usize = 1;
    while i < cs.len()
        invariant
            1 <= i <= cs@.len(),
            cs@ == name@,
            'a' <= name@[0] <= 'z',
            !(encode_utf8(name@).len() as usize > 64),
            first_invalid_from(name@, 1) == first_invalid_from(name@, i as int),
        decreases cs@.len() - i,
    {
        let c = cs[i];
        if !(('a' <= c && c <= 'z') || ('0' <= c && c <= '9') || c == '_' || c == '-') {
            let mut msg = string_of("package name '");
            push_str(&mut msg, name);
            push_str(&mut msg, "' contains invalid character '");
            push_char(&mut msg, c);
            push_str(&mut msg, "' (allowed: a-z, 0-9, _, -)");
            proof {
                assert(first_invalid_from(name@, i as int) == Some(c));
                assert(msg@ =~= "package name '"@ + name@ + "' contains invalid character '"@
                    + seq![c] + "' (allowed: a-z, 0-9, _, -)"@);
            }
            return Err(msg);
        }
        proof { assert(first_invalid_from(name@, i as int) == first_invalid_from(name@, i + 1)); }
        i = i + 1;
    }
    proof { assert(first_invalid_from(name@, i as int) is None); }
    Ok(())
}

impl Dependency {
    /// The version string, if any.
    pub fn version_str(&self) -> (r: Option<&str>)
        ensures
            opt_str_chars(r) == match *self {
                Dependency::Version(v) => Some(v@),
                Dependency::Detailed(d) => opt_chars(d.version),
            },
    {
        match self {
            Dependency::Version(v) => Some(v.as_str()),
            Dependency::Detailed(d) => match &d.version {
                Some(v) => Some(v.as_str()),
                None => None,
            },
        }
    }

    /// Whether this is a git dependency.
    pub fn is_git(&self) -> (r: bool)
        ensures
            r == (self matches Dependency::Detailed(d) && d.git is Some),
    {
        match self {
            Dependency::Detailed(d) => d.git.is_some(),
            Dependency::Version(_) => false,
        }
    }

    /// Whether this is a path dependency.
    pub fn is_path(&self) -> (r: bool)
        ensures
            r == (self matches Dependency::Detailed(d) && d.path is Some),
    {
        match self {
            Dependency::Detailed(d) => d.path.is_some(),
            Dependency::Version(_) => false,
        }
    }

    /// The git URL of a git dependency.
    pub fn git_url(&self) -> (r: Option<&str>)
        ensures
            opt_str_chars(r) == match *self {
                Dependency::Version(_) => None,
                Dependency::Detailed(d) => opt_chars(d.git),
            },
    {
        match self {
            Dependency::Detailed(d) => match &d.git {
                Some(g) => Some(g.as_str()),
                None => None,
            },
            Dependency::Version(_) => None,
        }
    }

    /// The path of a path dependency.
    pub fn dep_path(&self) -> (r: Option<&str>)
        ensures
            opt_str_chars(r) == match *self {
                Dependency::Version(_) => None,
                Dependency::Detailed(d) => opt_chars(d.path),
            },
    {
        match self {
            Dependency::Detailed(d) => match &d.path {
                Some(p) => Some(p.as_str()),
                None => None,
            },
            Dependency::Version(_) => None,
        }
    }
}


proof fn lemma_first_invalid_none(s: Seq<char>, i: int)
    requires
        0 <= i,
    ensures
        first_invalid_from(s, i) is None <==> forall|k: int| i <= k < s.len() ==> is_name_char(#[trigger] s[k]),
    decreases s.len() - i,
{
    if i < s.len() {
        lemma_first_invalid_none(s, i + 1);
    }
}

/// A package name is accepted exactly when it is non-empty, at most 64 bytes long,
/// starts with a lower-case ASCII letter and has only lower-case ASCII letters, digits,
/// `_` and `-` after that.
pub proof fn law_package_name_valid_iff(s: Seq<char>)
    ensures
        package_name_check(s) is Ok <==> {
            &&& s.len() >= 1
            &&& encode_utf8(s).len() as usize <= 64
            &&& 'a' <= s[0] && s[0] <= 'z'
            &&& forall|k: int| 1 <= k < s.len() ==> is_name_char(#[trigger] s[k])
        },
{
    lemma_first_invalid_none(s, 1);
}

} // verus!
