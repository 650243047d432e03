//! Module names and the module tree of a project.
//!
//! `src/http/client.rvn` is the module `Http.Client`. Walking `src/` on disk is done by
//! the command-line front end; the naming, the tree and its lookups are here.
use std::path::PathBuf;
use vstd::prelude::*;
use crate::text::{char_vecs_view, chars_of, push_char, push_chars, split_chars, split_on, str_eq};

verus! {

/// A node in the module tree.
#[derive(Debug)]
pub struct ModuleNode {
    /// Module name in UpperCamelCase.
    pub name: String,
    /// The `.rvn` file for this module, if any.
    pub file: Option<PathBuf>,
    /// Child modules, no two with the same name.
    pub children: Vec<ModuleNode>,
}

/// The module tree for a project.
#[derive(Debug)]
pub struct ModuleTree {
    /// The root node (represents the crate itself).
    pub root: ModuleNode,
    /// All discovered module files, in the order they should be compiled.
    pub files: Vec<(String, PathBuf)>,
}

/// The upper-case mapping of a character, as `char::to_uppercase` gives it.
pub uninterp spec fn uppercase_of(c: char) -> Seq<char>;

/// The upper-case form of an ASCII character: `a`..`z` become `A`..`Z`, every other
/// ASCII character stays as it is.
pub open spec fn ascii_upper(c: char) -> char {
    if 'a' <= c && c <= 'z' {
        ((c as u32) - 32) as char
    } else {
        c
    }
}

/// The upper-case mapping of `c`, written out for ASCII.
pub open spec fn upper_mapping(c: char) -> Seq<char> {
    if (c as u32) < 128 {
        seq![ascii_upper(c)]
    } else {
        uppercase_of(c)
    }
}

/// Calls `char::to_uppercase` (std) and collects what it yields: the upper-case
/// mapping of `c`, one or more characters. The contract names the mapping
/// (`uppercase_of`) and states it for ASCII, where std documents it: a lower-case
/// ASCII letter yields its upper-case letter, and a character without an upper-case
/// mapping (every other ASCII character) yields itself. The Unicode tables beyond
/// ASCII are not stated.
#[verifier::external_body]
fn uppercase(c: char) -> (r: Vec<char>)
    ensures
        r@ == uppercase_of(c),
        (c as u32) < 128 ==> r@ == seq![ascii_upper(c)],
{
    c.to_uppercase().collect()
}

/// UpperCamelCase of the rest of a name, `cap` telling whether the next kept character
/// starts a word: `_` and `-` are dropped and start a new word.
pub open spec fn camel_from(s: Seq<char>, cap: bool) -> Seq<char>
    decreases s.len(),
{
    if s.len() == 0 {
        Seq::empty()
    } else if s[0] == '_' || s[0] == '-' {
        camel_from(s.drop_first(), true)
    } else if cap {
        upper_mapping(s[0]) + camel_from(s.drop_first(), false)
    } else {
        seq![s[0]] + camel_from(s.drop_first(), false)
    }
}

/// UpperCamelCase of a snake_case or kebab-case name.
pub open spec fn upper_camel(s: Seq<char>) -> Seq<char> {
    camel_from(s, true)
}

fn camel_chars(s: &Vec<char>) -> (r: Vec<char>)
    ensures
        r@ == upper_camel(s@),
{
    let mut out: Vec<char> = Vec::new();
    let mut cap = true;
    let mut i: usize = 0;
    proof { assert(s@.skip(0) =~= s@); }
    while i < s.len()
        invariant
            i <= s@.len(),
            out@ + camel_from(s@.skip(i as int), cap) == upper_camel(s@),
        decreases s@.len() - i,
    {
        let c = s[i];
        proof {
            assert(s@.skip(i as int).drop_first() =~= s@.skip(i + 1));
            assert(s@.skip(i as int)[0] == c);
        }
        let ghost before = out@;
        if c == '_' || c == '-' {
            cap = true;
        } else if cap {
            let mut u = uppercase(c);
            out.append(&mut u);
            cap = false;
            proof { assert(before + (upper_mapping(c) + camel_from(s@.skip(i + 1), false)) =~= out@ + camel_from(s@.skip(i + 1), false)); }
        } else {
            out.push(c);
            proof { assert(before + (seq![c] + camel_from(s@.skip(i + 1), false)) =~= out@ + camel_from(s@.skip(i + 1), false)); }
        }
        i = i + 1;
    }
    proof { assert(out@ + camel_from(s@.skip(i as int), cap) =~= out@); }
    out
}

/// Converts a snake_case or kebab-case name to UpperCamelCase: `http_client` and
/// `http-client` both give `HttpClient`.
pub fn to_upper_camel_case(s: &str) -> (r: String)
    ensures
        r@ == upper_camel(s@),
{
    let cs = chars_of(s);
    let camel = camel_chars(&cs);
    let mut out = String::new();
    push_chars(&mut out, &camel);
    out
}

/// Whether a file stem names the crate's entry point (`main.rvn` or `lib.rvn`), which
/// belongs to the root module rather than to a module of its own.
pub fn is_entry_point(stem: &str) -> (r: bool)
    ensures
        r == (stem@ == "main"@ || stem@ == "lib"@),
{
    str_eq(stem, "main") || str_eq(stem, "lib")
}

/// Whether a directory name is hidden (starts with `.`); hidden directories hold no
/// modules.
pub fn is_hidden(name: &str) -> (r: bool)
    ensures
        r == (name@.len() > 0 && name@[0] == '.'),
{
    let cs = chars_of(name);
    cs.len() > 0 && cs[0] == '.'
}

/// A package name as a module import name: every `-` becomes `_`.
pub open spec fn import_name(s: Seq<char>) -> Seq<char> {
    s.map_values(|c: char| if c == '-' { '_' } else { c })
}

/// Converts a package name (with hyphens) to a module import name (with underscores).
pub fn package_to_import_name(name: &str) -> (r: String)
    ensures
        r@ == import_name(name@),
{
    let cs = chars_of(name);
    let mut out = String::new();
    let mut i: usize = 0;
    while i < cs.len()
        invariant
            i <= cs@.len(),
            cs@ == name@,
            out@ == import_name(name@).take(i as int),
        decreases cs@.len() - i,
    {
        let c = cs[i];
        push_char(&mut out, if c == '-' { '_' } else { c });
        i = i + 1;
        proof { assert(out@ =~= import_name(name@).take(i as int)); }
    }
    proof { assert(import_name(name@).take(i as int) =~= import_name(name@)); }
    out
}

/// The segments of a relative path that name something: empty segments are dropped, and
/// so are `.` segments other than a leading one.
pub open spec fn kept_segments(parts: Seq<Seq<char>>) -> Seq<Seq<char>>
    decreases parts.len(),
{
    if parts.len() == 0 {
        Seq::empty()
    } else {
        let prev = kept_segments(parts.drop_last());
        let p = parts.last();
        if p.len() == 0 || (p == seq!['.'] && parts.len() > 1) {
            prev
        } else {
            prev.push(p)
        }
    }
}

/// The components of a path: `/` for a path that starts at the root, then the segments
/// that name something.
pub open spec fn path_components(p: Seq<char>) -> Seq<Seq<char>> {
    root_prefix(p) + kept_segments(split_on(p, '/'))
}

/// `/` for a path that starts at the root; nothing otherwise.
pub open spec fn root_prefix(p: Seq<char>) -> Seq<Seq<char>> {
    if p.len() > 0 && p[0] == '/' { seq![seq!['/']] } else { Seq::empty() }
}

/// The position of the last `.` in a segment.
pub open spec fn last_dot(s: Seq<char>) -> Option<int>
    decreases s.len(),
{
    if s.len() == 0 {
        None
    } else if s.last() == '.' {
        Some(s.len() - 1)
    } else {
        last_dot(s.drop_last())
    }
}

/// A file name without its extension (from the last `.` on, unless that `.` starts the
/// name).
pub open spec fn without_extension(s: Seq<char>) -> Seq<char> {
    match last_dot(s) {
        Some(i) => if i > 0 {
            s.take(i)
        } else {
            s
        },
        None => s,
    }
}

/// Segments joined with `.`.
pub open spec fn join_dot(segs: Seq<Seq<char>>) -> Seq<char>
    decreases segs.len(),
{
    if segs.len() == 0 {
        Seq::empty()
    } else if segs.len() == 1 {
        segs[0]
    } else {
        join_dot(segs.drop_last()) + seq!['.'] + segs.last()
    }
}

/// The module path of a file path relative to `src/`: its segments without the last
/// one's extension, each in UpperCamelCase, joined with `.`.
pub open spec fn module_path_spec(p: Seq<char>) -> Seq<char> {
    let segs = path_components(p);
    join_dot(
        Seq::new(
            segs.len(),
            |k: int|
                upper_camel(
                    if k == segs.len() - 1 {
                        without_extension(segs[k])
                    } else {
                        segs[k]
                    },
                ),
        ),
    )
}

fn strip_extension(s: &Vec<char>) -> (r: Vec<char>)
    ensures
        r@ == without_extension(s@),
{
    let mut i: usize = s.len();
    proof { assert(s@.take(s@.len() as int) =~= s@); }
    while i > 0
        invariant
            i <= s@.len(),
            last_dot(s@) == last_dot(s@.take(i as int)),
        decreases i,
    {
        proof { assert(s@.take(i as int).drop_last() =~= s@.take(i - 1)); }
        if s[i - 1] == '.' {
            if i - 1 > 0 {
                let mut r: Vec<char> = Vec::new();
                let mut k: usize = 0;
                while k < i - 1
                    invariant
                        0 < i <= s@.len(),
                        k <= i - 1,
                        r@ == s@.take(k as int),
                    decreases i - 1 - k,
                {
                    r.push(s[k]);
                    k = k + 1;
                    proof { assert(r@ =~= s@.take(k as int)); }
                }
                return r;
            } else {
                return s.clone();
            }
        }
        i = i - 1;
    }
    s.clone()
}

impl ModuleTree {
    /// The module path for a file path relative to `src/`, with `/` between its
    /// segments: `http/client.rvn` and `http/client` both give `Http.Client`; a path that
    /// starts at the root keeps `/` as its first component.
    pub fn module_path_for_file(rel_path: &str) -> (r: String)
        ensures
            r@ == module_path_spec(rel_path@),
    {
        let cs = chars_of(rel_path);
        let parts = split_chars(&cs, '/');
        let ghost pv = char_vecs_view(parts@);
        let mut root: Vec<char> = Vec::new();
        root.push('/');
        let mut kept: Vec<&Vec<char>> = Vec::new();
        if cs.len() > 0 && cs[0] == '/' {
            kept.push(&root);
        }
        let ghost pre = root_prefix(rel_path@);
        proof { assert(root@ =~= seq!['/']); }
        let mut i: usize = 0;
        while i < parts.len()
            invariant
                i <= parts@.len(),
                pv == char_vecs_view(parts@),
                pv == split_on(rel_path@, '/'),
                root@ == seq!['/'],
                pre == root_prefix(rel_path@),
                kept@.len() == (pre + kept_segments(pv.take(i as int))).len(),
                forall|k: int| 0 <= k < kept@.len() ==> kept@[k]@ == (pre + kept_segments(pv.take(i as int)))[k],
            decreases parts@.len() - i,
        {
            let p = &parts[i];
            let is_dot = p.len() == 1 && p[0] == '.';
            proof {
                assert(pv.take(i + 1).drop_last() =~= pv.take(i as int));
                assert(pv.take(i + 1).last() == p@);
                if p@.len() == 1 {
                    assert(p@ =~= seq![p@[0]]);
                    assert((p@ == seq!['.']) == (p@[0] == '.'));
                }
            }
            if !(p.len() == 0 || (is_dot && i > 0)) {
                kept.push(p);
            }
            proof {
                assert(pre + kept_segments(pv.take(i + 1)) =~= if !(p@.len() == 0 || (p@ == seq!['.'] && i > 0)) {
                    (pre + kept_segments(pv.take(i as int))).push(p@)
                } else {
                    pre + kept_segments(pv.take(i as int))
                });
            }
            i = i + 1;
        }
        proof { assert(pv.take(i as int) =~= pv); }
        let ghost segs = path_components(rel_path@);
        let ghost names = Seq::new(
            segs.len(),
            |k: int|
                upper_camel(
                    if k == segs.len() - 1 {
                        without_extension(segs[k])
                    } else {
                        segs[k]
                    },
                ),
        );
        let m = kept.len();
        let mut out = String::new();
        let mut k: usize = 0;
        while k < m
            invariant
                k <= m == kept@.len() == segs.len() == names.len(),
                forall|x: int| 0 <= x < kept@.len() ==> kept@[x]@ == segs[x],
                names == Seq::new(
                    segs.len(),
                    |k: int|
                        upper_camel(
                            if k == segs.len() - 1 {
                                without_extension(segs[k])
                            } else {
                                segs[k]
                            },
                        ),
                ),
                out@ == join_dot(names.take(k as int)),
            decreases m - k,
        {
            let camel = if k == m - 1 {
                let stripped = strip_extension(kept[k]);
                camel_chars(&stripped)
            } else {
                camel_chars(kept[k])
            };
            proof {
                assert(camel@ == names[k as int]);
                assert(names.take(k + 1).drop_last() =~= names.take(k as int));
            }
            if k > 0 {
                push_char(&mut out, '.');
            }
            push_chars(&mut out, &camel);
            k = k + 1;
            proof {
                if k == 1 {
                    assert(names.take(1) =~= seq![names[0]]);
                    assert(out@ =~= join_dot(names.take(1)));
                } else {
                    assert(out@ =~= join_dot(names.take(k as int)));
                }
            }
        }
        proof { assert(names.take(m as int) =~= names); }
        out
    }

    /// Finds a module node by its dotted path (e.g. "Http.Client"); the empty path is
    /// the root.
    pub fn find(&self, path: &str) -> (r: Option<&ModuleNode>)
        ensures
            match r {
                Some(n) => find_spec(*self, path@) == Some(*n),
                None => find_spec(*self, path@) is None,
            },
    {
        let cs = chars_of(path);
        if cs.len() == 0 {
            return Some(&self.root);
        }
        let segs = split_chars(&cs, '.');
        let ghost sv = char_vecs_view(segs@);
        let mut node = &self.root;
        let mut i: usize = 0;
        proof { assert(sv.skip(0) =~= sv); }
        while i < segs.len()
            invariant
                i <= segs@.len(),
                sv == char_vecs_view(segs@),
                sv == split_on(path@, '.'),
                path@.len() > 0,
                find_in(self.root, sv) == find_in(*node, sv.skip(i as int)),
            decreases segs@.len() - i,
        {
            proof {
                assert(sv.skip(i as int).drop_first() =~= sv.skip(i + 1));
                assert(sv.skip(i as int)[0] == segs@[i as int]@);
            }
            match find_child(&node.children, &segs[i]) {
                Some(k) => {
                    node = &node.children[k];
                },
                None => {
                    return None;
                },
            }
            i = i + 1;
        }
        proof { assert(sv.skip(i as int) =~= Seq::<Seq<char>>::empty()); }
        Some(node)
    }

    /// The files of named modules (everything but the `main.rvn` / `lib.rvn` entry
    /// point), in order.
    pub fn module_files(&self) -> (r: Vec<(&str, &PathBuf)>)
        ensures
            Seq::new(r@.len(), |i: int| (r@[i].0@, *r@[i].1)) == named_files(self.files@),
    {
        let mut out: Vec<(&str, &PathBuf)> = Vec::new();
        let mut i: usize = 0;
        while i < self.files.len()
            invariant
                i <= self.files@.len(),
                Seq::new(out@.len(), |x: int| (out@[x].0@, *out@[x].1)) == named_files(self.files@.take(i as int)),
            decreases self.files@.len() - i,
        {
            let entry = &self.files[i];
            proof { assert(self.files@.take(i + 1).drop_last() =~= self.files@.take(i as int)); }
            let ghost before = out@;
            if !entry.0.as_str().is_empty() {
                out.push((entry.0.as_str(), &entry.1));
                proof {
                    assert(Seq::new(out@.len(), |x: int| (out@[x].0@, *out@[x].1)) =~= Seq::new(
                        before.len(),
                        |x: int| (before[x].0@, *before[x].1),
                    ).push((entry.0@, entry.1)));
                }
            } else {
                proof {
                    assert(Seq::new(out@.len(), |x: int| (out@[x].0@, *out@[x].1)) =~= Seq::new(
                        before.len(),
                        |x: int| (before[x].0@, *before[x].1),
                    ));
                }
            }
            i = i + 1;
        }
        proof { assert(self.files@.take(i as int) =~= self.files@); }
        out
    }
}

/// The first child with the given name.
pub open spec fn child_named(children: Seq<ModuleNode>, name: Seq<char>) -> Option<ModuleNode>
    decreases children.len(),
{
    if children.len() == 0 {
        None
    } else if children[0].name@ == name {
        Some(children[0])
    } else {
        child_named(children.drop_first(), name)
    }
}

/// The node reached from `node` by following the segments.
pub open spec fn find_in(node: ModuleNode, segs: Seq<Seq<char>>) -> Option<ModuleNode>
    decreases segs.len(),
{
    if segs.len() == 0 {
        Some(node)
    } else {
        match child_named(node.children@, segs[0]) {
            Some(c) => find_in(c, segs.drop_first()),
            None => None,
        }
    }
}

/// The node a dotted path names: the root for the empty path, else the node reached
/// by following its `.`-separated segments.
pub open spec fn find_spec(t: ModuleTree, path: Seq<char>) -> Option<ModuleNode> {
    if path.len() == 0 {
        Some(t.root)
    } else {
        find_in(t.root, split_on(path, '.'))
    }
}

/// The files with a non-empty module name, with their names.
pub open spec fn named_files(files: Seq<(String, PathBuf)>) -> Seq<(Seq<char>, PathBuf)>
    decreases files.len(),
{
    if files.len() == 0 {
        Seq::empty()
    } else {
        let prev = named_files(files.drop_last());
        let f = files.last();
        if f.0@.len() > 0 {
            prev.push((f.0@, f.1))
        } else {
            prev
        }
    }
}

/// The position of the first child with the given name.
fn find_child(children: &Vec<ModuleNode>, name: &Vec<char>) -> (r: Option<usize>)
    ensures
        match r {
            Some(k) => k < children@.len() && child_named(children@, name@) == Some(children@[k as int]),
            None => child_named(children@, name@) is None,
        },
{
    let mut k: usize = 0;
    proof { assert(children@.skip(0) =~= children@); }
    while k < children.len()
        invariant
            k <= children@.len(),
            child_named(children@, name@) == child_named(children@.skip(k as int), name@),
        decreases children@.len() - k,
    {
        proof { assert(children@.skip(k as int).drop_first() =~= children@.skip(k + 1)); }
        let cn = chars_of(children[k].name.as_str());
        if vec_eq(&cn, name) {
            return Some(k);
        }
        k = k + 1;
    }
    None
}

fn vec_eq(a: &Vec<char>, b: &Vec<char>) -> (r: bool)
    ensures
        r == (a@ == b@),
{
    if a.len() != b.len() {
        return false;
    }
    let mut i: usize = 0;
    while i < a.len()
        invariant
            i <= a@.len() == b@.len(),
            forall|j: int| 0 <= j < i ==> a@[j] == b@[j],
        decreases a@.len() - i,
    {
        if a[i] != b[i] {
            return false;
        }
        i = i + 1;
    }
    proof { assert(a@ =~= b@); }
    true
}

impl ModuleNode {
    /// A node with the given name, no file and no children.
    pub fn new(name: String) -> (r: ModuleNode)
        ensures
            r.name == name,
            r.file is None,
            r.children@.len() == 0,
    {
        ModuleNode { name, file: None, children: Vec::new() }
    }

    /// The position of the child named `name`; a new child with that name, no file and
    /// no children is added at the end when there is none.
    pub fn ensure_child(&mut self, name: &str) -> (k: usize)
        ensures
            k < final(self).children@.len(),
            final(self).children@[k as int].name@ == name@,
            final(self).name == old(self).name,
            final(self).file == old(self).file,
            child_named(old(self).children@, name@) is Some ==> final(self).children@ == old(self).children@
                && child_named(old(self).children@, name@) == Some(final(self).children@[k as int]),
            child_named(old(self).children@, name@) is None ==> final(self).children@ == old(self).children@.push(
                final(self).children@[k as int],
            ) && final(self).children@[k as int].file is None && final(self).children@[k as int].children@.len() == 0,
            unique_names(old(self).children@) ==> unique_names(final(self).children@),
    {
        let cs = chars_of(name);
        match find_child(&self.children, &cs) {
            Some(k) => {
                proof { lemma_child_named_name(self.children@, name@); }
                k
            },
            None => {
                let mut s = String::new();
                push_chars(&mut s, &cs);
                proof { lemma_child_named_none(self.children@, name@); }
                self.children.push(ModuleNode::new(s));
                self.children.len() - 1
            },
        }
    }
}

proof fn lemma_child_named_name(children: Seq<ModuleNode>, name: Seq<char>)
    ensures
        child_named(children, name) matches Some(c) ==> c.name@ == name,
    decreases children.len(),
{
    if children.len() > 0 {
        lemma_child_named_name(children.drop_first(), name);
    }
}


/// No two children share a name.
pub open spec fn unique_names(children: Seq<ModuleNode>) -> bool {
    forall|i: int, j: int| 0 <= i < children.len() && 0 <= j < children.len() && i != j ==> children[i].name@ != children[j].name@
}

proof fn lemma_child_named_none(children: Seq<ModuleNode>, name: Seq<char>)
    ensures
        child_named(children, name) is None ==> forall|i: int| 0 <= i < children.len() ==> children[i].name@ != name,
    decreases children.len(),
{
    if children.len() > 0 {
        lemma_child_named_none(children.drop_first(), name);
        assert forall|i: int| 1 <= i < children.len() implies children.drop_first()[i - 1] == children[i] by {}
    }
}

/// With names kept unique, the child found by a name is the one child with that name.
pub proof fn law_child_named_is_the_child_with_that_name(children: Seq<ModuleNode>, i: int)
    requires
        unique_names(children),
        0 <= i < children.len(),
    ensures
        child_named(children, children[i].name@) == Some(children[i]),
    decreases children.len(),
{
    if i > 0 {
        let rest = children.drop_first();
        assert(children[0].name@ != children[i].name@);
        assert(rest[i - 1] == children[i]);
        assert(unique_names(rest)) by {
            assert forall|a: int, b: int| 0 <= a < rest.len() && 0 <= b < rest.len() && a != b implies rest[a].name@ != rest[b].name@ by {
                assert(rest[a] == children[a + 1]);
                assert(rest[b] == children[b + 1]);
            }
        }
        law_child_named_is_the_child_with_that_name(rest, i - 1);
    }
}


/// The module files listed keep their order, and every listed name is non-empty: the
/// entry points, recorded with an empty name, are left out.
pub proof fn law_named_files_nonempty(files: Seq<(String, PathBuf)>)
    ensures
        forall|i: int| 0 <= i < named_files(files).len() ==> #[trigger] named_files(files)[i].0.len() > 0,
        named_files(files).len() <= files.len(),
    decreases files.len(),
{
    if files.len() > 0 {
        law_named_files_nonempty(files.drop_last());
    }
}

} // verus!
