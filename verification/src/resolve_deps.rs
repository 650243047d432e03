//! Ordering resolved dependencies so that each comes after the dependencies it needs.
//!
//! Fetching git and path dependencies and writing the lock file are done by the
//! command-line front end; the ordering is decided here.
use std::path::PathBuf;
use vstd::prelude::*;
use vstd::utf8::encode_utf8;
use crate::manifest::{Dependency, DependencyDetail};
use crate::rlib::{hash_bytes, hex_of, sha256_of};
use crate::text::{chars_of, copy_range, push_chars, push_str, seq_lt, str_eq, string_of};

verus! {

#[verifier::external_type_specification]
#[verifier::external_body]
pub struct ExPathBuf(PathBuf);

/// Calls `PathBuf::clone`: a path equal to `p`.
#[verifier::external_body]
fn clone_path(p: &PathBuf) -> (r: PathBuf)
    ensures
        r == *p,
{
    p.clone()
}

/// Where a dependency's sources are fetched from.
#[derive(Debug)]
pub enum DepSource {
    /// A directory, as written in the manifest.
    Path(String),
    /// A git repository URL.
    Git(String),
}

/// The error for a dependency that would come from the registry.
pub open spec fn registry_error(name: Seq<char>) -> Seq<char> {
    "registry dependencies are not yet supported. Use `--git` or `--path` for piece `"@ + name + "`"@
}

/// Where a dependency is fetched from: its path, else its git URL; a registry version,
/// or no source at all, is an error.
pub open spec fn dep_source_spec(name: Seq<char>, dep: Dependency) -> Result<(bool, Seq<char>), Seq<char>> {
    match dep {
        Dependency::Version(_) => Err(registry_error(name)),
        Dependency::Detailed(d) => match d.path {
            Some(p) => Ok((true, p@)),
            None => match d.git {
                Some(g) => Ok((false, g@)),
                None => if d.version is Some {
                    Err(registry_error(name))
                } else {
                    Err("dependency `"@ + name + "` has no source (specify `path`, `git`, or `version`)"@)
                },
            },
        },
    }
}

/// Decides where the dependency `name` is fetched from.
pub fn dependency_source(name: &str, dep: &Dependency) -> (r: Result<DepSource, String>)
    ensures
        match r {
            Ok(DepSource::Path(p)) => dep_source_spec(name@, *dep) == Ok::<(bool, Seq<char>), Seq<char>>((true, p@)),
            Ok(DepSource::Git(g)) => dep_source_spec(name@, *dep) == Ok::<(bool, Seq<char>), Seq<char>>((false, g@)),
            Err(e) => dep_source_spec(name@, *dep) == Err::<(bool, Seq<char>), Seq<char>>(e@),
        },
{
    let registry = || -> (e: String)
        ensures
            e@ == registry_error(name@),
    {
        let mut e = string_of("registry dependencies are not yet supported. Use `--git` or `--path` for piece `");
        push_str(&mut e, name);
        push_str(&mut e, "`");
        e
    };
    match dep {
        Dependency::Version(_) => Err(registry()),
        Dependency::Detailed(d) => {
            if let Some(p) = &d.path {
                Ok(DepSource::Path(p.clone()))
            } else if let Some(g) = &d.git {
                Ok(DepSource::Git(g.clone()))
            } else if d.version.is_some() {
                Err(registry())
            } else {
                let mut e = string_of("dependency `");
                push_str(&mut e, name);
                push_str(&mut e, "` has no source (specify `path`, `git`, or `version`)");
                proof {
                    assert(e@ =~= "dependency `"@ + name@ + "` has no source (specify `path`, `git`, or `version`)"@);
                }
                Err(e)
            }
        },
    }
}

/// The git ref a dependency asks for: its rev, else its tag, else its branch, else `HEAD`.
pub open spec fn git_ref_spec(d: DependencyDetail) -> Seq<char> {
    match d.rev {
        Some(r) => r@,
        None => match d.tag {
            Some(t) => t@,
            None => match d.branch {
                Some(b) => b@,
                None => "HEAD"@,
            },
        },
    }
}

/// The git ref to check out: the ref the dependency asks for, or, when it names neither
/// a rev nor a tag, the revision the lock file recorded, if any.
pub open spec fn effective_ref_spec(d: DependencyDetail, locked_rev: Option<Seq<char>>) -> Seq<char> {
    if d.rev is None && d.tag is None {
        match locked_rev {
            Some(l) => l,
            None => git_ref_spec(d),
        }
    } else {
        git_ref_spec(d)
    }
}

/// Decides the git ref to check out for a dependency, given the revision recorded for it
/// in the lock file.
pub fn effective_git_ref(detail: &DependencyDetail, locked_rev: Option<&str>) -> (r: String)
    ensures
        r@ == effective_ref_spec(*detail, match locked_rev {
            Some(l) => Some(l@),
            None => None,
        }),
{
    let git_ref = if let Some(rev) = &detail.rev {
        rev.clone()
    } else if let Some(tag) = &detail.tag {
        tag.clone()
    } else if let Some(branch) = &detail.branch {
        branch.clone()
    } else {
        string_of("HEAD")
    };
    if detail.rev.is_none() && detail.tag.is_none() {
        match locked_rev {
            Some(l) => string_of(l),
            None => git_ref,
        }
    } else {
        git_ref
    }
}

/// The directory a git dependency is checked out into: its name, `-`, and the first
/// eight hexadecimal digits of the SHA-256 of `<url>:<ref>`.
pub open spec fn checkout_dir_spec(name: Seq<char>, url: Seq<char>, git_ref: Seq<char>) -> Seq<char> {
    name + "-"@ + hex_of(sha256_of(encode_utf8(url + ":"@ + git_ref))).subrange(0, 8)
}

/// The name of the directory a git dependency is checked out into.
pub fn checkout_dir_name(name: &str, git_url: &str, git_ref: &str) -> (r: String)
    ensures
        r@ == checkout_dir_spec(name@, git_url@, git_ref@),
{
    let mut key = string_of(git_url);
    push_str(&mut key, ":");
    push_str(&mut key, git_ref);
    let hash = hash_bytes(key.as_str().as_bytes());
    let hc = chars_of(hash.as_str());
    let short = copy_range(&hc, 7, 15);
    let mut out = string_of(name);
    push_str(&mut out, "-");
    push_chars(&mut out, &short);
    proof {
        reveal_strlit("sha256:");
        let h = hex_of(sha256_of(encode_utf8(git_url@ + ":"@ + git_ref@)));
        assert(hc@ == "sha256:"@ + h);
        assert(short@ =~= h.subrange(0, 8));
        assert(out@ =~= checkout_dir_spec(name@, git_url@, git_ref@));
    }
    out
}

/// A resolved dependency with all information needed to compile it.
#[derive(Debug)]
pub struct ResolvedDep {
    pub name: String,
    pub version: String,
    pub source_dir: PathBuf,
    pub is_path: bool,
    pub checksum: Option<String>,
    /// Names of dependencies this piece depends on.
    pub dependencies: Vec<String>,
}

/// A resolved dependency, with its strings taken by their characters.
pub struct ResolvedDepView {
    pub name: Seq<char>,
    pub version: Seq<char>,
    pub source_dir: PathBuf,
    pub is_path: bool,
    pub checksum: Option<Seq<char>>,
    pub dependencies: Seq<Seq<char>>,
}

impl View for ResolvedDep {
    type V = ResolvedDepView;

    open spec fn view(&self) -> ResolvedDepView {
        ResolvedDepView {
            name: self.name@,
            version: self.version@,
            source_dir: self.source_dir,
            is_path: self.is_path,
            checksum: match self.checksum {
                Some(c) => Some(c@),
                None => None,
            },
            dependencies: self.dependencies@.map_values(|s: String| s@),
        }
    }
}

impl Clone for ResolvedDep {
    /// A copy with equal fields.
    fn clone(&self) -> (r: ResolvedDep)
        ensures
            r@ == self@,
    {
        let mut dependencies: Vec<String> = Vec::new();
        let mut i: usize = 0;
        while i < self.dependencies.len()
            invariant
                i <= self.dependencies@.len(),
                dependencies@.len() == i,
                forall|k: int| 0 <= k < i ==> dependencies@[k] == self.dependencies@[k],
            decreases self.dependencies@.len() - i,
        {
            dependencies.push(self.dependencies[i].clone());
            i = i + 1;
        }
        let checksum = match &self.checksum {
            Some(c) => Some(c.clone()),
            None => None,
        };
        let r = ResolvedDep {
            name: self.name.clone(),
            version: self.version.clone(),
            source_dir: clone_path(&self.source_dir),
            is_path: self.is_path,
            checksum,
            dependencies,
        };
        proof {
            assert(r.dependencies@.map_values(|s: String| s@) =~= self.dependencies@.map_values(
                |s: String| s@,
            ));
        }
        r
    }
}

/// `d` equals, field for field, some element of `s`.
pub open spec fn copy_in(d: ResolvedDep, s: Seq<ResolvedDep>) -> bool {
    exists|j: int| 0 <= j < s.len() && #[trigger] s[j]@ == d@
}

/// The names of a list of dependencies, in order.
pub open spec fn dep_names(deps: Seq<ResolvedDep>) -> Seq<Seq<char>> {
    Seq::new(deps.len(), |i: int| deps[i].name@)
}

/// No two dependencies share a name.
pub open spec fn distinct_names(deps: Seq<ResolvedDep>) -> bool {
    forall|i: int, j: int|
        0 <= i < deps.len() && 0 <= j < deps.len() && i != j ==> deps[i].name@ != deps[j].name@
}

/// `rank` strictly decreases from each dependency to each of its dependencies that is in
/// the list.
pub open spec fn ranked_by(deps: Seq<ResolvedDep>, rank: spec_fn(Seq<char>) -> nat) -> bool {
    forall|i: int, c: int|
        0 <= i < deps.len() && 0 <= c < deps[i].dependencies@.len() && dep_names(deps).contains(
            deps[i].dependencies@[c]@,
        ) ==> #[trigger] rank(deps[i].dependencies@[c]@) < rank(deps[i].name@)
}

/// The dependency graph has no cycle: some ranking of the names decreases along every
/// edge.
pub open spec fn acyclic(deps: Seq<ResolvedDep>) -> bool {
    exists|rank: spec_fn(Seq<char>) -> nat| ranked_by(deps, rank)
}

/// Each element comes after every dependency of it that is in the list.
pub open spec fn leaves_first(v: Seq<ResolvedDep>) -> bool {
    forall|k: int, c: int|
        0 <= k < v.len() && 0 <= c < v[k].dependencies@.len() && dep_names(v).contains(
            #[trigger] v[k].dependencies@[c]@,
        ) ==> dep_names(v.take(k)).contains(v[k].dependencies@[c]@)
}

/// The position of the dependency named `name`, if one is.
pub open spec fn dep_index(deps: Seq<ResolvedDep>, name: Seq<char>) -> Option<int> {
    if exists|k: int| 0 <= k < deps.len() && deps[k].name@ == name {
        Some(choose|k: int| 0 <= k < deps.len() && deps[k].name@ == name)
    } else {
        None
    }
}

/// Depth-first visit of the dependency at `j` from the state (`vis`, `order`): unless it
/// was visited already, it is marked, its dependencies are visited in the order they are
/// named, and then it is placed at the end of the order. `n` bounds the depth (the number
/// of dependencies not yet visited is enough).
pub open spec fn dfs_node(deps: Seq<ResolvedDep>, n: nat, j: int, vis: Seq<bool>, order: Seq<usize>) -> (Seq<bool>, Seq<usize>)
    decreases n, 0nat, 0int,
{
    if n == 0 || !(0 <= j < vis.len()) || vis[j] {
        (vis, order)
    } else {
        let r = dfs_children(deps, (n - 1) as nat, j, 0, vis.update(j, true), order);
        (r.0, r.1.push(j as usize))
    }
}

/// The dependencies of the dependency at `j`, from its `c`-th on, visited in turn.
pub open spec fn dfs_children(deps: Seq<ResolvedDep>, n: nat, j: int, c: int, vis: Seq<bool>, order: Seq<usize>) -> (Seq<bool>, Seq<usize>)
    decreases n, 1nat, deps[j].dependencies@.len() - c,
{
    if !(0 <= j < deps.len()) || c < 0 || c >= deps[j].dependencies@.len() {
        (vis, order)
    } else {
        match dep_index(deps, deps[j].dependencies@[c]@) {
            Some(cj) => {
                let r = dfs_node(deps, n, cj, vis, order);
                dfs_children(deps, n, j, c + 1, r.0, r.1)
            },
            None => dfs_children(deps, n, j, c + 1, vis, order),
        }
    }
}

/// Every dependency from the `i`-th on visited in turn, in the order given.
pub open spec fn dfs_from(deps: Seq<ResolvedDep>, n: nat, i: int, vis: Seq<bool>, order: Seq<usize>) -> (Seq<bool>, Seq<usize>)
    decreases deps.len() - i,
{
    if i < 0 || i >= deps.len() {
        (vis, order)
    } else {
        let r = dfs_node(deps, n, i, vis, order);
        dfs_from(deps, n, i + 1, r.0, r.1)
    }
}

/// The positions of the dependencies in the order a depth-first visit places them:
/// the dependencies are taken in the order given, and each one's own dependencies are
/// placed before it.
pub open spec fn dfs_order(deps: Seq<ResolvedDep>) -> Seq<usize> {
    dfs_from(deps, deps.len(), 0, Seq::new(deps.len(), |k: int| false), Seq::empty()).1
}

/// Finds the position of the dependency with the given name.
fn find_dep(deps: &Vec<ResolvedDep>, name: &str) -> (r: Option<usize>)
    requires
        distinct_names(deps@),
    ensures
        match r {
            Some(j) => j < deps@.len() && deps@[j as int].name@ == name@,
            None => !dep_names(deps@).contains(name@),
        },
        match r {
            Some(j) => dep_index(deps@, name@) == Some(j as int),
            None => dep_index(deps@, name@) is None,
        },
{
    let mut j: usize = 0;
    while j < deps.len()
        invariant
            j <= deps@.len(),
            distinct_names(deps@),
            forall|k: int| 0 <= k < j ==> deps@[k].name@ != name@,
        decreases deps@.len() - j,
    {
        if str_eq(deps[j].name.as_str(), name) {
            proof {
                assert(deps@[j as int].name@ == name@);
                let k = choose|k: int| 0 <= k < deps@.len() && deps@[k].name@ == name@;
                if k != j {
                    assert(deps@[k].name@ != deps@[j as int].name@);
                }
            }
            return Some(j);
        }
        j = j + 1;
    }
    proof {
        if dep_names(deps@).contains(name@) {
            let k = choose|k: int| 0 <= k < dep_names(deps@).len() && dep_names(deps@)[k] == name@;
            assert(deps@[k].name@ == name@);
        }
    }
    None
}

proof fn lemma_count_false_le(s: Seq<bool>)
    ensures
        count_false(s) <= s.len(),
    decreases s.len(),
{
    if s.len() > 0 {
        lemma_count_false_le(s.drop_last());
    }
}

/// How many entries of `s` are `false`.
pub open spec fn count_false(s: Seq<bool>) -> nat
    decreases s.len(),
{
    if s.len() == 0 {
        0
    } else {
        count_false(s.drop_last()) + if s.last() { 0nat } else { 1nat }
    }
}

proof fn lemma_count_false_mono(a: Seq<bool>, b: Seq<bool>)
    requires
        a.len() == b.len(),
        forall|i: int| 0 <= i < a.len() && a[i] ==> b[i],
    ensures
        count_false(b) <= count_false(a),
    decreases a.len(),
{
    if a.len() > 0 {
        lemma_count_false_mono(a.drop_last(), b.drop_last());
    }
}

proof fn lemma_count_false_set(a: Seq<bool>, j: int)
    requires
        0 <= j < a.len(),
        !a[j],
    ensures
        count_false(a.update(j, true)) < count_false(a),
    decreases a.len(),
{
    let b = a.update(j, true);
    if j == a.len() - 1 {
        assert(b.drop_last() =~= a.drop_last());
    } else {
        assert(b.drop_last() =~= a.drop_last().update(j, true));
        lemma_count_false_set(a.drop_last(), j);
    }
}

/// Indices in `order` are in range and distinct.
pub open spec fn order_ok(order: Seq<usize>, n: int) -> bool {
    &&& forall|k: int| 0 <= k < order.len() ==> order[k] < n
    &&& forall|k1: int, k2: int| 0 <= k1 < order.len() && 0 <= k2 < order.len() && k1 != k2 ==> order[k1] != order[k2]
}

/// The dependencies at the positions in `order`.
pub open spec fn pick(deps: Seq<ResolvedDep>, order: Seq<usize>) -> Seq<ResolvedDep> {
    Seq::new(order.len(), |k: int| deps[order[k] as int])
}

/// Each dependency placed in `order` comes after its dependencies that are in `deps`.
pub open spec fn order_leaves_first(deps: Seq<ResolvedDep>, order: Seq<usize>) -> bool {
    forall|k: int, c: int|
        0 <= k < order.len() && 0 <= c < deps[order[k] as int].dependencies@.len()
            && dep_names(deps).contains(#[trigger] deps[order[k] as int].dependencies@[c]@)
            ==> dep_names(pick(deps, order.take(k))).contains(deps[order[k] as int].dependencies@[c]@)
}

/// Everything finished (in `order`) is visited.
pub open spec fn finished_visited(order: Seq<usize>, visited: Seq<bool>) -> bool {
    forall|k: int| 0 <= k < order.len() ==> visited[order[k] as int]
}

proof fn lemma_order_extend(deps: Seq<ResolvedDep>, old_order: Seq<usize>, order: Seq<usize>)
    requires
        old_order.len() <= order.len(),
        order.take(old_order.len() as int) == old_order,
        order_leaves_first(deps, old_order),
    ensures
        forall|k: int, c: int|
            0 <= k < old_order.len() && 0 <= c < deps[order[k] as int].dependencies@.len()
                && dep_names(deps).contains(#[trigger] deps[order[k] as int].dependencies@[c]@)
                ==> dep_names(pick(deps, order.take(k))).contains(
                deps[order[k] as int].dependencies@[c]@,
            ),
{
    assert forall|k: int, c: int|
        0 <= k < old_order.len() && 0 <= c < deps[order[k] as int].dependencies@.len()
            && dep_names(deps).contains(#[trigger] deps[order[k] as int].dependencies@[c]@)
            implies dep_names(pick(deps, order.take(k))).contains(
            deps[order[k] as int].dependencies@[c]@,
        ) by {
        assert(old_order[k] == order[k]);
        assert(order.take(k) =~= old_order.take(k));
    }
}

/// Depth-first visit of the dependency at `j`, which has not been visited: visits its
/// dependencies first, then places `j` at the end of `order`.
fn visit(
    deps: &Vec<ResolvedDep>,
    j: usize,
    visited: &mut Vec<bool>,
    order: &mut Vec<usize>,
    Ghost(acyc): Ghost<bool>,
    Ghost(rank): Ghost<spec_fn(Seq<char>) -> nat>,
    Ghost(bound): Ghost<nat>,
)
    requires
        distinct_names(deps@),
        j < deps@.len(),
        count_false(old(visited)@) <= bound,
        old(visited)@.len() == deps@.len(),
        !old(visited)@[j as int],
        order_ok(old(order)@, deps@.len() as int),
        finished_visited(old(order)@, old(visited)@),
        acyc ==> ranked_by(deps@, rank),
        acyc ==> order_leaves_first(deps@, old(order)@),
        acyc ==> forall|s: int|
            0 <= s < deps@.len() && old(visited)@[s] && !old(order)@.contains(s as usize) ==> rank(
                deps@[s].name@,
            ) > rank(deps@[j as int].name@),
    ensures
        final(visited)@.len() == deps@.len(),
        final(order)@.len() > old(order)@.len(),
        final(order)@.take(old(order)@.len() as int) == old(order)@,
        final(order)@.contains(j),
        order_ok(final(order)@, deps@.len() as int),
        finished_visited(final(order)@, final(visited)@),
        forall|s: int| 0 <= s < deps@.len() && old(visited)@[s] ==> final(visited)@[s],
        forall|s: int|
            0 <= s < deps@.len() ==> (final(visited)@[s] && !final(order)@.contains(s as usize)) == (
            old(visited)@[s] && !old(order)@.contains(s as usize)),
        forall|k: int|
            old(order)@.len() <= k < final(order)@.len() ==> !old(visited)@[final(order)@[k] as int],
        acyc ==> order_leaves_first(deps@, final(order)@),
        final(visited)@ == dfs_node(deps@, bound, j as int, old(visited)@, old(order)@).0,
        final(order)@ == dfs_node(deps@, bound, j as int, old(visited)@, old(order)@).1,
    decreases count_false(old(visited)@),
{
    let ghost v0 = visited@;
    let ghost o0 = order@;
    visited.set(j, true);
    proof { lemma_count_false_set(v0, j as int); }
    let ghost bm: nat = (bound - 1) as nat;
    let ghost goal = dfs_children(deps@, bm, j as int, 0, visited@, o0);
    let d = &deps[j];
    let mut c: usize = 0;
    while c < d.dependencies.len()
        invariant
            distinct_names(deps@),
            j < deps@.len(),
            d == deps@[j as int],
            c <= d.dependencies@.len(),
            visited@.len() == deps@.len(),
            visited@[j as int],
            v0.len() == deps@.len(),
            v0 == old(visited)@,
            !v0[j as int],
            count_false(visited@) < count_false(v0),
            count_false(v0) <= bound,
            bm == bound - 1,
            goal == dfs_children(deps@, bm, j as int, c as int, visited@, order@),
            order@.len() >= o0.len(),
            order@.take(o0.len() as int) == o0,
            !order@.contains(j),
            order_ok(order@, deps@.len() as int),
            finished_visited(order@, visited@),
            forall|s: int| 0 <= s < deps@.len() && v0[s] ==> visited@[s],
            forall|s: int|
                0 <= s < deps@.len() && s != j ==> (visited@[s] && !order@.contains(s as usize)) == (
                v0[s] && !o0.contains(s as usize)),
            forall|k: int| o0.len() <= k < order@.len() ==> !v0[order@[k] as int],
            acyc ==> ranked_by(deps@, rank),
            acyc ==> order_leaves_first(deps@, order@),
            acyc ==> forall|s: int|
                0 <= s < deps@.len() && v0[s] && !o0.contains(s as usize) ==> rank(deps@[s].name@)
                    > rank(deps@[j as int].name@),
            acyc ==> forall|c2: int|
                0 <= c2 < c && dep_names(deps@).contains(#[trigger] d.dependencies@[c2]@)
                    ==> dep_names(pick(deps@, order@)).contains(d.dependencies@[c2]@),
        decreases d.dependencies@.len() - c,
    {
        let ghost vs = visited@;
        let ghost os = order@;
        let child = d.dependencies[c].as_str();
        let found = find_dep(deps, child);
        proof {
            assert(child@ == deps@[j as int].dependencies@[c as int]@);
            assert(dfs_children(deps@, bm, j as int, c as int, vs, os) == match dep_index(deps@, child@) {
                Some(cj) => {
                    let r = dfs_node(deps@, bm, cj, vs, os);
                    dfs_children(deps@, bm, j as int, c + 1, r.0, r.1)
                },
                None => dfs_children(deps@, bm, j as int, c + 1, vs, os),
            });
        }
        match found {
            None => {},
            Some(cj) => {
                if !visited[cj] {
                    let ghost vb = visited@;
                    let ghost ob = order@;
                    proof {
                        if acyc {
                            assert(dep_names(deps@).contains(d.dependencies@[c as int]@)) by {
                                assert(dep_names(deps@)[cj as int] == d.dependencies@[c as int]@);
                            }
                            assert(rank(d.dependencies@[c as int]@) < rank(deps@[j as int].name@));
                            assert forall|s: int|
                                0 <= s < deps@.len() && vb[s] && !ob.contains(s as usize) implies rank(
                                    deps@[s].name@,
                                ) > rank(deps@[cj as int].name@) by {
                                if s != j {
                                    assert(v0[s] && !o0.contains(s as usize));
                                }
                            }
                        }
                    }
                    visit(deps, cj, visited, order, Ghost(acyc), Ghost(rank), Ghost(bm));
                    proof {
                        lemma_count_false_mono(vb, visited@);
                        assert(order@.take(o0.len() as int) =~= o0) by {
                            assert(order@.take(ob.len() as int).take(o0.len() as int) =~= order@.take(o0.len() as int));
                        }
                        if order@.contains(j) {
                            let k = choose|k: int| 0 <= k < order@.len() && order@[k] == j;
                            if k < ob.len() {
                                assert(ob[k] == j);
                            }
                        }
                        assert forall|k: int| o0.len() <= k < order@.len() implies !v0[order@[k] as int] by {
                            if k >= ob.len() {
                                assert(!vb[order@[k] as int]);
                            } else {
                                assert(order@[k] == ob[k]);
                            }
                        }
                        if acyc {
                            let p1 = dep_names(pick(deps@, order@));
                            let p0 = dep_names(pick(deps@, ob));
                            assert forall|c2: int|
                                0 <= c2 <= c && dep_names(deps@).contains(#[trigger] d.dependencies@[c2]@)
                                implies p1.contains(d.dependencies@[c2]@) by {
                                if c2 < c {
                                    let x = choose|x: int| 0 <= x < p0.len() && p0[x] == d.dependencies@[c2]@;
                                    assert(order@[x] == ob[x]);
                                    assert(p1[x] == p0[x]);
                                } else {
                                    let x = choose|x: int| 0 <= x < order@.len() && order@[x] == cj;
                                    assert(p1[x] == deps@[cj as int].name@);
                                }
                            }
                        }
                    }
                } else {
                    proof {
                        if acyc {
                            assert(dep_names(deps@).contains(d.dependencies@[c as int]@)) by {
                                assert(dep_names(deps@)[cj as int] == d.dependencies@[c as int]@);
                            }
                            assert(rank(d.dependencies@[c as int]@) < rank(deps@[j as int].name@));
                            if !order@.contains(cj) {
                                if cj != j {
                                    assert(v0[cj as int] && !o0.contains(cj));
                                }
                                assert(false);
                            }
                            let x = choose|x: int| 0 <= x < order@.len() && order@[x] == cj;
                            assert(dep_names(pick(deps@, order@))[x] == deps@[cj as int].name@);
                        }
                    }
                }
            },
        }
        proof {
            assert(dfs_children(deps@, bm, j as int, c as int, vs, os)
                == dfs_children(deps@, bm, j as int, c + 1, visited@, order@));
            if acyc {
                assert forall|c2: int|
                    0 <= c2 < c + 1 && dep_names(deps@).contains(#[trigger] d.dependencies@[c2]@)
                    implies dep_names(pick(deps@, order@)).contains(d.dependencies@[c2]@) by {
                    if c2 == c && !dep_names(deps@).contains(d.dependencies@[c2]@) {
                    }
                }
            }
        }
        c = c + 1;
    }
    let ghost ob = order@;
    let n: usize = deps.len();
    order.push(j);
    proof {
        assert(dfs_children(deps@, bm, j as int, c as int, visited@, ob) == (visited@, ob));
        assert(order@ =~= ob.push(j));
        assert(order@.take(ob.len() as int) =~= ob);
        assert(order@.take(o0.len() as int) =~= o0) by {
            assert(ob.take(o0.len() as int) =~= o0);
        }
        assert(order@[ob.len() as int] == j);
        assert forall|k1: int, k2: int|
            0 <= k1 < order@.len() && 0 <= k2 < order@.len() && k1 != k2 implies order@[k1] != order@[k2] by {
            if k1 == ob.len() && k2 < ob.len() {
                assert(ob[k2] != j);
            }
            if k2 == ob.len() && k1 < ob.len() {
                assert(ob[k1] != j);
            }
        }
        assert forall|s: int|
            0 <= s < deps@.len() implies (visited@[s] && !order@.contains(s as usize)) == (v0[s] && !o0.contains(s as usize)) by {
            let su = s as usize;
            assert(order@ =~= ob.push(j));
            if s == j {
                assert(order@.contains(j));
            } else {
                assert((visited@[s] && !ob.contains(su)) == (v0[s] && !o0.contains(su)));
                assert(s < n);
                assert(su as int == s);
                assert(su != j);
                if order@.contains(su) {
                    let k = choose|k: int| 0 <= k < order@.len() && order@[k] == su;
                    if k < ob.len() {
                        assert(ob[k] == su);
                    } else {
                        assert(order@[k] == j);
                    }
                }
                if ob.contains(su) {
                    let k = choose|k: int| 0 <= k < ob.len() && ob[k] == su;
                    assert(order@[k] == su);
                }
                assert(order@.contains(su) == ob.contains(su));
            }
        }
        if acyc {
            lemma_order_extend(deps@, ob, order@);
            assert forall|k: int, c2: int|
                0 <= k < order@.len() && 0 <= c2 < deps@[order@[k] as int].dependencies@.len()
                    && dep_names(deps@).contains(#[trigger] deps@[order@[k] as int].dependencies@[c2]@)
                    implies dep_names(pick(deps@, order@.take(k))).contains(
                    deps@[order@[k] as int].dependencies@[c2]@,
                ) by {
                if k == ob.len() {
                    assert(order@.take(k) =~= ob);
                    assert(deps@[order@[k] as int] == d);
                }
            }
        }
    }
}

/// The dependencies in strictly increasing order of name, as a map keyed by name holds
/// them.
pub open spec fn sorted_by_name(deps: Seq<ResolvedDep>) -> bool {
    forall|i: int, j: int| 0 <= i < j < deps.len() ==> seq_lt(deps[i].name@, deps[j].name@)
}

proof fn lemma_seq_lt_irreflexive(a: Seq<char>)
    ensures
        !seq_lt(a, a),
    decreases a.len(),
{
    if a.len() > 0 {
        lemma_seq_lt_irreflexive(a.drop_first());
    }
}

/// Sorts dependencies so that, in a graph without cycles, every dependency comes after
/// the dependencies it names (leaves first). The dependencies come keyed by name, in
/// order of name; each is placed exactly once, visited depth first in that order
/// (`dfs_order`).
pub fn topological_sort(deps: &Vec<ResolvedDep>) -> (r: Result<Vec<ResolvedDep>, String>)
    requires
        sorted_by_name(deps@),
    ensures
        r is Ok,
        r matches Ok(v) && v@.len() == deps@.len(),
        r matches Ok(v) && forall|k: int| 0 <= k < v@.len() ==> copy_in(#[trigger] v@[k], deps@),
        r matches Ok(v) && forall|j: int| 0 <= j < deps@.len() ==> copy_in(#[trigger] deps@[j], v@),
        r matches Ok(v) && (acyclic(deps@) ==> leaves_first(v@)),
        r matches Ok(v) && v@.len() == dfs_order(deps@).len() && forall|x: int|
            0 <= x < v@.len() ==> #[trigger] v@[x]@ == deps@[dfs_order(deps@)[x] as int]@,
{
    proof {
        assert forall|i: int, j: int| 0 <= i < deps@.len() && 0 <= j < deps@.len() && i != j implies deps@[i].name@ != deps@[j].name@ by {
            if deps@[i].name@ == deps@[j].name@ {
                lemma_seq_lt_irreflexive(deps@[i].name@);
                if i < j {
                    assert(seq_lt(deps@[i].name@, deps@[j].name@));
                } else {
                    assert(seq_lt(deps@[j].name@, deps@[i].name@));
                }
            }
        }
        assert(distinct_names(deps@));
    }
    let n = deps.len();
    let mut visited: Vec<bool> = Vec::new();
    let mut i: usize = 0;
    while i < n
        invariant
            i <= n == deps@.len(),
            visited@.len() == i,
            forall|s: int| 0 <= s < i ==> !visited@[s],
        decreases n - i,
    {
        visited.push(false);
        i = i + 1;
    }
    proof {
        assert(visited@ =~= Seq::new(deps@.len(), |k: int| false));
        lemma_count_false_le(visited@);
    }
    let ghost goal = dfs_order(deps@);
    let ghost acyc = acyclic(deps@);
    let ghost rank: spec_fn(Seq<char>) -> nat = if acyc {
        choose|rank: spec_fn(Seq<char>) -> nat| ranked_by(deps@, rank)
    } else {
        |s: Seq<char>| 0nat
    };
    let mut order: Vec<usize> = Vec::new();
    let mut i: usize = 0;
    while i < n
        invariant
            i <= n == deps@.len(),
            distinct_names(deps@),
            visited@.len() == n,
            order_ok(order@, n as int),
            finished_visited(order@, visited@),
            forall|s: int| 0 <= s < n ==> visited@[s] == order@.contains(s as usize),
            forall|s: int| 0 <= s < i ==> visited@[s],
            acyc ==> ranked_by(deps@, rank),
            acyc ==> order_leaves_first(deps@, order@),
            count_false(visited@) <= n,
            goal == dfs_from(deps@, n as nat, i as int, visited@, order@).1,
        decreases n - i,
    {
        let ghost vb = visited@;
        let ghost ob = order@;
        if !visited[i] {
            visit(deps, i, &mut visited, &mut order, Ghost(acyc), Ghost(rank), Ghost(n as nat));
            proof { lemma_count_false_mono(vb, visited@); }
        }
        proof {
            assert(dfs_from(deps@, n as nat, i as int, vb, ob) == dfs_from(deps@, n as nat, i + 1, visited@, order@));
        }
        i = i + 1;
    }
    proof {
        assert forall|s: usize| (s as int) < n implies #[trigger] order@.contains(s) by {
            assert(visited@[s as int]);
        }
        lemma_order_is_permutation(order@, n as int);
    }
    let mut result: Vec<ResolvedDep> = Vec::new();
    let mut k: usize = 0;
    while k < n
        invariant
            k <= n == deps@.len() == order@.len(),
            order_ok(order@, n as int),
            result@.len() == k,
            forall|x: int| 0 <= x < k ==> result@[x]@ == deps@[order@[x] as int]@,
        decreases n - k,
    {
        result.push(deps[order[k]].clone());
        k = k + 1;
    }
    proof {
        assert forall|x: int| 0 <= x < result@.len() implies copy_in(#[trigger] result@[x], deps@) by {
            assert(deps@[order@[x] as int]@ == result@[x]@);
        }
        assert forall|j: int| 0 <= j < deps@.len() implies copy_in(#[trigger] deps@[j], result@) by {
            assert(order@.contains(j as usize)) by {
                assert(visited@[j]);
            }
            let x = choose|x: int| 0 <= x < order@.len() && order@[x] == j as usize;
            assert(result@[x]@ == deps@[j]@);
        }
        if acyc {
            lemma_leaves_first_result(deps@, order@, result@);
        }
    }
    Ok(result)
}

proof fn lemma_order_is_permutation(order: Seq<usize>, n: int)
    requires
        0 <= n <= usize::MAX,
        order_ok(order, n),
        forall|s: usize| (s as int) < n ==> #[trigger] order.contains(s),
    ensures
        order.len() == n,
{
    let o = order.map_values(|x: usize| x as int);
    assert(o.no_duplicates()) by {
        assert forall|i: int, j: int| 0 <= i < o.len() && 0 <= j < o.len() && i != j implies o[i] != o[j] by {
            assert(order[i] != order[j]);
        }
    }
    o.unique_seq_to_set();
    assert(o.to_set() =~= vstd::set_lib::set_int_range(0, n)) by {
        assert forall|x: int| #[trigger] o.to_set().contains(x) <==> vstd::set_lib::set_int_range(0, n).contains(x) by {
            if o.to_set().contains(x) {
                let i = choose|i: int| 0 <= i < o.len() && o[i] == x;
                assert(order[i] < n);
            }
            if vstd::set_lib::set_int_range(0, n).contains(x) {
                let xu = x as usize;
                assert(order.contains(xu));
                let i = choose|i: int| 0 <= i < order.len() && order[i] == xu;
                assert(o[i] == x);
            }
        }
    }
    vstd::set_lib::lemma_int_range(0, n);
}

proof fn lemma_leaves_first_result(deps: Seq<ResolvedDep>, order: Seq<usize>, result: Seq<ResolvedDep>)
    requires
        order.len() == deps.len() == result.len(),
        order_ok(order, deps.len() as int),
        forall|x: int| 0 <= x < result.len() ==> result[x]@ == deps[order[x] as int]@,
        order_leaves_first(deps, order),
    ensures
        leaves_first(result),
{
    assert forall|k: int, c: int|
        0 <= k < result.len() && 0 <= c < result[k].dependencies@.len() && dep_names(result).contains(
            #[trigger] result[k].dependencies@[c]@,
        ) implies dep_names(result.take(k)).contains(result[k].dependencies@[c]@) by {
        let dk = deps[order[k] as int];
        assert(result[k]@.dependencies == dk@.dependencies);
        assert(result[k]@.dependencies.len() == result[k].dependencies@.len());
        assert(dk@.dependencies.len() == dk.dependencies@.len());
        assert(result[k]@.dependencies[c] == result[k].dependencies@[c]@);
        assert(dk@.dependencies[c] == dk.dependencies@[c]@);
        let x = result[k].dependencies@[c]@;
        let i = choose|i: int| 0 <= i < dep_names(result).len() && dep_names(result)[i] == x;
        assert(result[i]@.name == deps[order[i] as int]@.name);
        assert(dep_names(deps)[order[i] as int] == x);
        assert(dep_names(deps).contains(dk.dependencies@[c]@));
        let p = dep_names(pick(deps, order.take(k)));
        assert(p.contains(x));
        let y = choose|y: int| 0 <= y < p.len() && p[y] == x;
        assert(result[y]@.name == deps[order[y] as int]@.name);
        assert(dep_names(result.take(k))[y] == x);
    }
}

} // verus!
