//! What the dependency commands show of a dependency.
use vstd::prelude::*;
use crate::manifest::{Dependency, DependencyDetail};
use crate::text::{push_str, string_of};

verus! {

/// The characters of an optional string slice.
pub open spec fn opt_view(o: Option<&str>) -> Option<Seq<char>> {
    match o {
        Some(s) => Some(s@),
        None => None,
    }
}

/// The characters of an optional string.
pub open spec fn opt_string_view(o: Option<String>) -> Option<Seq<char>> {
    match o {
        Some(s) => Some(s@),
        None => None,
    }
}

fn opt_string(o: Option<&str>) -> (r: Option<String>)
    ensures
        opt_string_view(r) == opt_view(o),
{
    match o {
        Some(s) => Some(string_of(s)),
        None => None,
    }
}

/// The dependency that `riven add` records: a path dependency when a path is given,
/// else a git dependency (with its branch, tag and rev) when a URL is given, else a
/// registry version; with none of the three it is refused.
pub fn dependency_from_args(
    version: Option<&str>,
    git: Option<&str>,
    path: Option<&str>,
    branch: Option<&str>,
    tag: Option<&str>,
    rev: Option<&str>,
) -> (r: Result<Dependency, String>)
    ensures
        path is Some ==> (r matches Ok(Dependency::Detailed(d)) && opt_string_view(d.path) == opt_view(path)
            && d.git is None && d.version is None && d.branch is None && d.tag is None && d.rev is None),
        path is None && git is Some ==> (r matches Ok(Dependency::Detailed(d)) && d.path is None
            && opt_string_view(d.git) == opt_view(git) && d.version is None
            && opt_string_view(d.branch) == opt_view(branch) && opt_string_view(d.tag) == opt_view(tag)
            && opt_string_view(d.rev) == opt_view(rev)),
        path is None && git is None && version is Some ==> (r matches Ok(Dependency::Version(v))
            && Some(v@) == opt_view(version)),
        path is None && git is None && version is None ==> (r matches Err(e)
            && e@ == "specify --git <url>, --path <path>, or --version <ver> for the dependency"@),
{
    if let Some(p) = path {
        Ok(Dependency::Detailed(DependencyDetail {
            version: None,
            git: None,
            path: Some(string_of(p)),
            branch: None,
            tag: None,
            rev: None,
        }))
    } else if let Some(g) = git {
        Ok(Dependency::Detailed(DependencyDetail {
            version: None,
            git: Some(string_of(g)),
            path: None,
            branch: opt_string(branch),
            tag: opt_string(tag),
            rev: opt_string(rev),
        }))
    } else if let Some(v) = version {
        Ok(Dependency::Version(string_of(v)))
    } else {
        Err(string_of("specify --git <url>, --path <path>, or --version <ver> for the dependency"))
    }
}

/// The error for adding a piece that the section already lists.
pub fn already_listed_error(piece: &str, dev: bool) -> (r: String)
    ensures
        r@ == "piece `"@ + piece@ + "` is already in "@ + if dev {
            "[dev-dependencies]"@
        } else {
            "[dependencies]"@
        },
{
    let mut e = string_of("piece `");
    push_str(&mut e, piece);
    push_str(&mut e, "` is already in ");
    if dev {
        push_str(&mut e, "[dev-dependencies]");
    } else {
        push_str(&mut e, "[dependencies]");
    }
    proof {
        assert(e@ =~= "piece `"@ + piece@ + "` is already in "@ + if dev {
            "[dev-dependencies]"@
        } else {
            "[dependencies]"@
        });
    }
    e
}

/// The ref that a git dependency pins, as shown: its tag, else its branch, else its rev.
pub open spec fn git_ref_suffix(d: DependencyDetail) -> Seq<char> {
    match d.tag {
        Some(t) => " tag="@ + t@,
        None => match d.branch {
            Some(b) => " branch="@ + b@,
            None => match d.rev {
                Some(r) => " rev="@ + r@,
                None => Seq::empty(),
            },
        },
    }
}

/// Where a dependency comes from, as `riven tree` shows it.
pub open spec fn dep_source_str(dep: Dependency) -> Seq<char> {
    match dep {
        Dependency::Version(v) => "registry: "@ + v@,
        Dependency::Detailed(d) => match d.path {
            Some(p) => "path: "@ + p@,
            None => match d.git {
                Some(g) => "git: "@ + g@ + git_ref_suffix(d),
                None => match d.version {
                    Some(v) => "registry: "@ + v@,
                    None => "unknown"@,
                },
            },
        },
    }
}

/// Describes where a dependency comes from: `registry: <version>`, `path: <path>`,
/// `git: <url>` with its tag, branch or rev, or `unknown`.
pub fn describe_dep_source(dep: &Dependency) -> (r: String)
    ensures
        r@ == dep_source_str(*dep),
{
    match dep {
        Dependency::Version(v) => {
            let mut s = string_of("registry: ");
            push_str(&mut s, v.as_str());
            s
        },
        Dependency::Detailed(d) => {
            if let Some(path) = &d.path {
                let mut s = string_of("path: ");
                push_str(&mut s, path.as_str());
                s
            } else if let Some(git) = &d.git {
                let mut s = string_of("git: ");
                push_str(&mut s, git.as_str());
                if let Some(tag) = &d.tag {
                    push_str(&mut s, " tag=");
                    push_str(&mut s, tag.as_str());
                } else if let Some(branch) = &d.branch {
                    push_str(&mut s, " branch=");
                    push_str(&mut s, branch.as_str());
                } else if let Some(rev) = &d.rev {
                    push_str(&mut s, " rev=");
                    push_str(&mut s, rev.as_str());
                }
                proof {
                    assert(s@ =~= "git: "@ + git@ + git_ref_suffix(*d));
                }
                s
            } else if let Some(ver) = &d.version {
                let mut s = string_of("registry: ");
                push_str(&mut s, ver.as_str());
                s
            } else {
                string_of("unknown")
            }
        },
    }
}

} // verus!
