//! Import sorting and formatting.
//!
//! Imports are sorted into three groups:
//! 1. Standard library (`Std.*`)
//! 2. External packages
//! 3. Local/project modules
//!
//! Within each group, imports are alphabetized. Duplicate imports from the
//! same module path are merged into grouped imports.
use vstd::prelude::*;
use crate::formatter::doc::{concat, hardline, intersperse, nil, views_of, Doc, DocView};
use crate::formatter::format_items::{format_use, format_use_spec};
use crate::parser::ast::{clone_strings, strs, UseDecl, UseDeclView, UseKind, UseKindView};
use crate::text::{join_sep, join_strings, push_str, seq_lt, str_eq, str_lt};

verus! {

// ─── Stable ordering by keys ─────────────────────────────────────────

/// Positions as integers.
pub open spec fn ints(s: Seq<usize>) -> Seq<int> {
    s.map_values(|x: usize| x as int)
}

/// Inserts position `i` into `s`, which is ordered by `keys`, after every position whose
/// key is not greater than the key of `i`.
pub open spec fn insert_idx(s: Seq<int>, i: int, keys: Seq<Seq<char>>) -> Seq<int>
    decreases s.len(),
{
    if s.len() == 0 {
        seq![i]
    } else if seq_lt(keys[i], keys[s.last()]) {
        insert_idx(s.drop_last(), i, keys).push(s.last())
    } else {
        s.push(i)
    }
}

/// The positions `0..n` ordered by their keys, stably (equal keys keep their order).
pub open spec fn sort_idx_upto(keys: Seq<Seq<char>>, n: nat) -> Seq<int>
    decreases n,
{
    if n == 0 {
        Seq::empty()
    } else {
        insert_idx(sort_idx_upto(keys, (n - 1) as nat), n - 1, keys)
    }
}

/// All positions of `keys`, ordered stably by key.
pub open spec fn sort_idx(keys: Seq<Seq<char>>) -> Seq<int> {
    sort_idx_upto(keys, keys.len())
}

/// Strings in sorted order.
pub open spec fn sorted_strs(ns: Seq<Seq<char>>) -> Seq<Seq<char>> {
    sort_idx(ns).map_values(|i: int| ns[i])
}

proof fn lemma_insert_idx_at(s: Seq<int>, i: int, keys: Seq<Seq<char>>, p: int)
    requires
        0 <= p <= s.len(),
        forall|q: int| p <= q < s.len() ==> seq_lt(keys[i], keys[s[q]]),
        p == 0 || !seq_lt(keys[i], keys[s[p - 1]]),
    ensures
        insert_idx(s, i, keys) == s.take(p).push(i) + s.skip(p),
    decreases s.len(),
{
    if s.len() == p {
        if p == 0 {
            assert(seq![i] =~= s.take(p).push(i) + s.skip(p));
        } else {
            assert(s.push(i) =~= s.take(p).push(i) + s.skip(p));
        }
    } else {
        lemma_insert_idx_at(s.drop_last(), i, keys, p);
        assert(s.drop_last().take(p).push(i) + s.drop_last().skip(p) + seq![s.last()] =~= s.take(p).push(i)
            + s.skip(p));
        assert(insert_idx(s, i, keys) == insert_idx(s.drop_last(), i, keys).push(s.last()));
    }
}

proof fn lemma_insert_idx_range(s: Seq<int>, i: int, keys: Seq<Seq<char>>, n: int)
    requires
        forall|q: int| 0 <= q < s.len() ==> 0 <= #[trigger] s[q] < n,
        0 <= i < n,
    ensures
        insert_idx(s, i, keys).len() == s.len() + 1,
        forall|q: int| 0 <= q < s.len() + 1 ==> 0 <= #[trigger] insert_idx(s, i, keys)[q] < n,
    decreases s.len(),
{
    if s.len() > 0 {
        lemma_insert_idx_range(s.drop_last(), i, keys, n);
    }
}

proof fn lemma_sort_idx_range(keys: Seq<Seq<char>>, n: nat)
    ensures
        sort_idx_upto(keys, n).len() == n,
        forall|q: int| 0 <= q < n ==> 0 <= #[trigger] sort_idx_upto(keys, n)[q] < n,
    decreases n,
{
    if n > 0 {
        lemma_sort_idx_range(keys, (n - 1) as nat);
        lemma_insert_idx_range(sort_idx_upto(keys, (n - 1) as nat), n - 1, keys, n as int);
    }
}

proof fn lemma_lt_irreflexive(a: Seq<char>)
    ensures
        !seq_lt(a, a),
    decreases a.len(),
{
    if a.len() > 0 {
        lemma_lt_irreflexive(a.drop_first());
    }
}

proof fn lemma_lt_transitive(a: Seq<char>, b: Seq<char>, c: Seq<char>)
    requires
        seq_lt(a, b),
        seq_lt(b, c),
    ensures
        seq_lt(a, c),
    decreases a.len(),
{
    if a.len() > 0 && b.len() > 0 && c.len() > 0 && a[0] == b[0] && b[0] == c[0] {
        lemma_lt_transitive(a.drop_first(), b.drop_first(), c.drop_first());
    }
}

proof fn lemma_lt_asymmetric(a: Seq<char>, b: Seq<char>)
    requires
        seq_lt(a, b),
    ensures
        !seq_lt(b, a),
{
    if seq_lt(b, a) {
        lemma_lt_transitive(a, b, a);
        lemma_lt_irreflexive(a);
    }
}

proof fn lemma_lt_total(a: Seq<char>, b: Seq<char>)
    requires
        a != b,
    ensures
        seq_lt(a, b) || seq_lt(b, a),
    decreases a.len(),
{
    if a.len() == 0 && b.len() == 0 {
        assert(a =~= b);
    }
    if a.len() > 0 && b.len() > 0 && a[0] == b[0] {
        assert(a =~= seq![a[0]] + a.drop_first());
        assert(b =~= seq![b[0]] + b.drop_first());
        if a.drop_first() == b.drop_first() {
            assert(a =~= b);
        }
        lemma_lt_total(a.drop_first(), b.drop_first());
    }
}

/// No position's key sorts before the key of a position earlier in `idx`.
pub open spec fn sorted_by_keys(idx: Seq<int>, keys: Seq<Seq<char>>) -> bool {
    forall|x: int, y: int| 0 <= x < y < idx.len() ==> !seq_lt(keys[idx[y]], keys[idx[x]])
}

proof fn lemma_insert_idx_sorted(s: Seq<int>, i: int, keys: Seq<Seq<char>>)
    requires
        sorted_by_keys(s, keys),
    ensures
        sorted_by_keys(insert_idx(s, i, keys), keys),
        forall|q: int| 0 <= q < insert_idx(s, i, keys).len() ==> #[trigger] insert_idx(s, i, keys)[q] == i
            || s.contains(insert_idx(s, i, keys)[q]),
        s.no_duplicates() && !s.contains(i) ==> insert_idx(s, i, keys).no_duplicates(),
        insert_idx(s, i, keys).len() == s.len() + 1,
    decreases s.len(),
{
    if s.len() > 0 {
        let last = s.last();
        let d = s.drop_last();
        assert(sorted_by_keys(d, keys)) by {
            assert forall|x: int, y: int| 0 <= x < y < d.len() implies !seq_lt(keys[d[y]], keys[d[x]]) by {
                assert(d[x] == s[x] && d[y] == s[y]);
            }
        }
        lemma_insert_idx_sorted(d, i, keys);
        let r = insert_idx(s, i, keys);
        if seq_lt(keys[i], keys[last]) {
            let rr = insert_idx(d, i, keys);
            assert(r == rr.push(last));
            assert forall|x: int, y: int| 0 <= x < y < r.len() implies !seq_lt(keys[r[y]], keys[r[x]]) by {
                if y == r.len() - 1 {
                    assert(r[y] == last);
                    assert(r[x] == rr[x]);
                    if rr[x] == i {
                        lemma_lt_asymmetric(keys[i], keys[last]);
                    } else {
                        assert(d.contains(rr[x]));
                        let t = choose|t: int| 0 <= t < d.len() && d[t] == rr[x];
                        assert(s[t] == rr[x]);
                        assert(s[s.len() - 1] == last);
                    }
                } else {
                    assert(r[x] == rr[x] && r[y] == rr[y]);
                }
            }
            assert forall|q: int| 0 <= q < r.len() implies #[trigger] r[q] == i || s.contains(r[q]) by {
                if q < rr.len() {
                    assert(r[q] == rr[q]);
                    if rr[q] != i {
                        let t = choose|t: int| 0 <= t < d.len() && d[t] == rr[q];
                        assert(s[t] == rr[q]);
                    }
                } else {
                    assert(s[s.len() - 1] == r[q]);
                }
            }
            if s.no_duplicates() && !s.contains(i) {
                assert(!d.contains(i)) by {
                    if d.contains(i) {
                        let t = choose|t: int| 0 <= t < d.len() && d[t] == i;
                        assert(s[t] == i);
                    }
                }
                assert(d.no_duplicates());
                assert forall|x: int, y: int| 0 <= x < r.len() && 0 <= y < r.len() && x != y implies r[x] != r[y] by {
                    if x == r.len() - 1 || y == r.len() - 1 {
                        let o = if x == r.len() - 1 { y } else { x };
                        assert(r[o] == rr[o]);
                        if rr[o] == i {
                            assert(s[s.len() - 1] == last);
                        } else {
                            let t = choose|t: int| 0 <= t < d.len() && d[t] == rr[o];
                            assert(s[t] == rr[o]);
                            assert(s[s.len() - 1] == last);
                        }
                    } else {
                        assert(r[x] == rr[x] && r[y] == rr[y]);
                    }
                }
            }
        } else {
            assert(r == s.push(i));
            assert forall|x: int, y: int| 0 <= x < y < r.len() implies !seq_lt(keys[r[y]], keys[r[x]]) by {
                if y == r.len() - 1 {
                    assert(r[y] == i);
                    assert(r[x] == s[x]);
                    if seq_lt(keys[i], keys[s[x]]) {
                        if x < s.len() - 1 {
                            assert(!seq_lt(keys[last], keys[s[x]]));
                            if keys[s[x]] != keys[last] {
                                lemma_lt_total(keys[s[x]], keys[last]);
                                lemma_lt_transitive(keys[i], keys[s[x]], keys[last]);
                            }
                        }
                    }
                } else {
                    assert(r[x] == s[x] && r[y] == s[y]);
                }
            }
            assert forall|q: int| 0 <= q < r.len() implies #[trigger] r[q] == i || s.contains(r[q]) by {
                if q < s.len() {
                    assert(r[q] == s[q]);
                }
            }
        }
    }
}

/// Sorting by keys puts every position of `keys` exactly once, with no key sorting
/// before the key of an earlier position: what `sort_by` on the keys gives.
pub proof fn law_sort_idx_sorted(keys: Seq<Seq<char>>, n: nat)
    ensures
        sorted_by_keys(sort_idx_upto(keys, n), keys),
        sort_idx_upto(keys, n).no_duplicates(),
        sort_idx_upto(keys, n).len() == n,
        forall|q: int| 0 <= q < n ==> 0 <= #[trigger] sort_idx_upto(keys, n)[q] < n,
    decreases n,
{
    lemma_sort_idx_range(keys, n);
    if n > 0 {
        let prev = sort_idx_upto(keys, (n - 1) as nat);
        law_sort_idx_sorted(keys, (n - 1) as nat);
        assert(!prev.contains(n - 1)) by {
            if prev.contains(n - 1) {
                let t = choose|t: int| 0 <= t < prev.len() && prev[t] == n - 1;
                assert(prev[t] < n - 1);
            }
        }
        lemma_insert_idx_sorted(prev, n - 1, keys);
    }
}

/// Within a group, imports are alphabetized: no import's sort key comes before the key
/// of an import placed earlier.
pub proof fn law_imports_alphabetized(us: Seq<UseDeclView>)
    ensures
        sorted_uses(us).len() == us.len(),
        forall|x: int, y: int|
            0 <= x < y < us.len() ==> !seq_lt(key_of(sorted_uses(us)[y]), key_of(sorted_uses(us)[x])),
{
    let keys = keys_of(us);
    law_sort_idx_sorted(keys, keys.len());
    let idx = sort_idx(keys);
    assert forall|x: int, y: int| 0 <= x < y < us.len() implies !seq_lt(
        key_of(sorted_uses(us)[y]),
        key_of(sorted_uses(us)[x]),
    ) by {
        assert(0 <= idx[x] < us.len());
        assert(0 <= idx[y] < us.len());
        assert(sorted_uses(us)[x] == us[idx[x]]);
        assert(sorted_uses(us)[y] == us[idx[y]]);
        assert(keys[idx[x]] == key_of(us[idx[x]]));
        assert(keys[idx[y]] == key_of(us[idx[y]]));
    }
}

/// The names of a grouped import are printed sorted: no name comes before an earlier one.
pub proof fn law_names_sorted(ns: Seq<Seq<char>>)
    ensures
        sorted_strs(ns).len() == ns.len(),
        forall|x: int, y: int| 0 <= x < y < ns.len() ==> !seq_lt(sorted_strs(ns)[y], sorted_strs(ns)[x]),
{
    law_sort_idx_sorted(ns, ns.len());
    let idx = sort_idx(ns);
    assert forall|x: int, y: int| 0 <= x < y < ns.len() implies !seq_lt(sorted_strs(ns)[y], sorted_strs(ns)[x]) by {
        assert(0 <= idx[x] < ns.len());
        assert(0 <= idx[y] < ns.len());
    }
}

/// The positions of `keys` in stable sorted order of their keys.
fn sort_indices(keys: &Vec<String>) -> (r: Vec<usize>)
    ensures
        ints(r@) == sort_idx(strs(keys@)),
        forall|q: int| 0 <= q < r@.len() ==> #[trigger] r@[q] < keys@.len(),
        r@.len() == keys@.len(),
{
    let ghost kv = strs(keys@);
    let mut r: Vec<usize> = Vec::new();
    let mut i: usize = 0;
    while i < keys.len()
        invariant
            i <= keys@.len(),
            kv == strs(keys@),
            ints(r@) == sort_idx_upto(kv, i as nat),
            r@.len() == i,
            forall|q: int| 0 <= q < r@.len() ==> #[trigger] r@[q] < i,
        decreases keys@.len() - i,
    {
        let mut p: usize = r.len();
        loop
            invariant
                i < keys@.len(),
                kv == strs(keys@),
                p <= r@.len(),
                forall|q: int| 0 <= q < r@.len() ==> #[trigger] r@[q] < i,
                forall|q: int| p <= q < r@.len() ==> seq_lt(kv[i as int], kv[r@[q] as int]),
            ensures
                p <= r@.len(),
                forall|q: int| p <= q < r@.len() ==> seq_lt(kv[i as int], kv[r@[q] as int]),
                p == 0 || !seq_lt(kv[i as int], kv[r@[p - 1] as int]),
            decreases p,
        {
            if p == 0 {
                break;
            }
            let before = str_lt(keys[i].as_str(), keys[r[p - 1]].as_str());
            if !before {
                break;
            }
            p = p - 1;
        }
        let ghost old_rv = r@;
        let ghost old_r = ints(r@);
        proof {
            lemma_insert_idx_at(old_r, i as int, kv, p as int);
        }
        r.insert(p, i);
        i = i + 1;
        proof {
            assert(r@ == old_rv.insert(p as int, (i - 1) as usize));
            assert(ints(r@) =~= old_r.take(p as int).push((i - 1) as int) + old_r.skip(p as int));
            assert forall|q: int| 0 <= q < r@.len() implies #[trigger] r@[q] < i by {
                if q > p {
                    assert(r@[q] == old_rv[q - 1]);
                } else if q < p {
                    assert(r@[q] == old_rv[q]);
                }
            }
        }
    }
    proof { lemma_sort_idx_range(kv, keys@.len()); }
    r
}

/// Sorts strings (`sort` on a list of strings).
pub fn sort_strings(v: &Vec<String>) -> (r: Vec<String>)
    ensures
        strs(r@) == sorted_strs(strs(v@)),
{
    let idx = sort_indices(v);
    let mut r: Vec<String> = Vec::new();
    let mut k: usize = 0;
    while k < idx.len()
        invariant
            k <= idx@.len() == v@.len(),
            forall|q: int| 0 <= q < idx@.len() ==> #[trigger] idx@[q] < v@.len(),
            r@.len() == k,
            forall|q: int| 0 <= q < k ==> #[trigger] r@[q]@ == v@[idx@[q] as int]@,
        decreases idx@.len() - k,
    {
        r.push(v[idx[k]].clone());
        k = k + 1;
    }
    proof {
        assert forall|q: int| 0 <= q < r@.len() implies strs(r@)[q] == sorted_strs(strs(v@))[q] by {
            assert(ints(idx@)[q] == idx@[q] as int);
        }
        assert(strs(r@) =~= sorted_strs(strs(v@)));
    }
    r
}

/// Drops each string that equals the one before it (`dedup`).
pub open spec fn dedup(s: Seq<Seq<char>>) -> Seq<Seq<char>>
    decreases s.len(),
{
    if s.len() == 0 {
        s
    } else {
        let p = dedup(s.drop_last());
        if p.len() > 0 && p.last() == s.last() {
            p
        } else {
            p.push(s.last())
        }
    }
}

fn dedup_strings(v: &Vec<String>) -> (r: Vec<String>)
    ensures
        strs(r@) == dedup(strs(v@)),
{
    let ghost sv = strs(v@);
    let mut r: Vec<String> = Vec::new();
    let mut i: usize = 0;
    while i < v.len()
        invariant
            i <= v@.len(),
            sv == strs(v@),
            strs(r@) == dedup(sv.take(i as int)),
        decreases v@.len() - i,
    {
        proof { assert(sv.take(i + 1).drop_last() =~= sv.take(i as int)); }
        let same = r.len() > 0 && str_eq(r[r.len() - 1].as_str(), v[i].as_str());
        if !same {
            let ghost before = r@;
            r.push(v[i].clone());
            proof { assert(strs(r@) =~= strs(before).push(sv[i as int])); }
        }
        i = i + 1;
    }
    proof { assert(sv.take(i as int) =~= sv); }
    r
}

// ─── Classification and sort keys ────────────────────────────────────

/// The three import groups, in the order they are printed.
#[derive(Debug, Clone, Copy, PartialEq, Eq, Structural)]
pub enum ImportGroup {
    Std,
    External,
    Local,
}

/// `c` is upper case (`char::is_uppercase`).
pub uninterp spec fn is_uppercase_char(c: char) -> bool;

/// Calls `char::is_uppercase` (std): whether `c` has the Unicode `Uppercase` property.
/// The contract names the answer (`is_uppercase_char`); the Unicode tables are not stated.
#[verifier::external_body]
fn char_is_uppercase(c: char) -> (r: bool)
    ensures
        r == is_uppercase_char(c),
{
    c.is_uppercase()
}

/// The group of an import: `Std` for paths starting at `Std`, external for a first
/// segment that starts with an upper-case letter, local otherwise.
pub open spec fn classify_spec(u: UseDeclView) -> ImportGroup {
    if u.path.len() == 0 {
        ImportGroup::Local
    } else if u.path[0] == "Std"@ {
        ImportGroup::Std
    } else if u.path[0].len() > 0 && is_uppercase_char(u.path[0][0]) {
        ImportGroup::External
    } else {
        ImportGroup::Local
    }
}

/// Classifies an import into its group.
pub fn classify_import(u: &UseDecl) -> (r: ImportGroup)
    ensures
        r == classify_spec(u@),
{
    if u.path.len() == 0 {
        return ImportGroup::Local;
    }
    let first = u.path[0].as_str();
    if str_eq(first, "Std") {
        return ImportGroup::Std;
    }
    let cs = crate::text::chars_of(first);
    if cs.len() > 0 && char_is_uppercase(cs[0]) {
        return ImportGroup::External;
    }
    ImportGroup::Local
}

/// The key imports are sorted by: the dotted path, then `.alias`, or `.{names}` with the
/// names sorted and joined with `,`.
pub open spec fn key_of(u: UseDeclView) -> Seq<char> {
    let base = join_sep(u.path, "."@);
    match u.kind {
        UseKindView::Simple => base,
        UseKindView::Alias(a) => base + "."@ + a,
        UseKindView::Group(ns) => base + ".{"@ + join_sep(sorted_strs(ns), ","@) + "}"@,
    }
}

/// The sort key of an import.
pub fn import_sort_key(u: &UseDecl) -> (r: String)
    ensures
        r@ == key_of(u@),
{
    let mut key = join_strings(&u.path, ".");
    match &u.kind {
        UseKind::Simple => {},
        UseKind::Alias(alias) => {
            push_str(&mut key, ".");
            push_str(&mut key, alias.as_str());
        },
        UseKind::Group(names) => {
            let sorted = sort_strings(names);
            push_str(&mut key, ".{");
            let joined = join_strings(&sorted, ",");
            push_str(&mut key, joined.as_str());
            push_str(&mut key, "}");
        },
    }
    proof {
        match u.kind@ {
            UseKindView::Simple => {},
            UseKindView::Alias(a) => {
                assert(key@ =~= key_of(u@));
            },
            UseKindView::Group(ns) => {
                assert(key@ =~= key_of(u@));
            },
        }
    }
    key
}

/// Models of a list of imports.
pub open spec fn uses_view(v: Seq<UseDecl>) -> Seq<UseDeclView> {
    v.map_values(|u: UseDecl| u@)
}

/// Sort keys of a list of imports.
pub open spec fn keys_of(us: Seq<UseDeclView>) -> Seq<Seq<char>> {
    us.map_values(|u: UseDeclView| key_of(u))
}

/// Imports sorted stably by their keys.
pub open spec fn sorted_uses(us: Seq<UseDeclView>) -> Seq<UseDeclView> {
    sort_idx(keys_of(us)).map_values(|i: int| us[i])
}

fn sort_uses(v: &Vec<UseDecl>) -> (r: Vec<UseDecl>)
    ensures
        uses_view(r@) == sorted_uses(uses_view(v@)),
{
    let mut keys: Vec<String> = Vec::new();
    let mut i: usize = 0;
    while i < v.len()
        invariant
            i <= v@.len(),
            keys@.len() == i,
            forall|q: int| 0 <= q < i ==> #[trigger] keys@[q]@ == key_of(v@[q]@),
        decreases v@.len() - i,
    {
        keys.push(import_sort_key(&v[i]));
        i = i + 1;
    }
    proof { assert(strs(keys@) =~= keys_of(uses_view(v@))); }
    let idx = sort_indices(&keys);
    let mut r: Vec<UseDecl> = Vec::new();
    let mut k: usize = 0;
    while k < idx.len()
        invariant
            k <= idx@.len() == v@.len(),
            forall|q: int| 0 <= q < idx@.len() ==> #[trigger] idx@[q] < v@.len(),
            r@.len() == k,
            forall|q: int| 0 <= q < k ==> #[trigger] r@[q]@ == v@[idx@[q] as int]@,
        decreases idx@.len() - k,
    {
        r.push(v[idx[k]].clone());
        k = k + 1;
    }
    proof {
        assert forall|q: int| 0 <= q < r@.len() implies uses_view(r@)[q] == sorted_uses(uses_view(v@))[q] by {
            assert(ints(idx@)[q] == idx@[q] as int);
        }
        assert(uses_view(r@) =~= sorted_uses(uses_view(v@)));
    }
    r
}

// ─── Merging imports of the same path ────────────────────────────────

/// The imports with path `p`, in order.
pub open spec fn with_path(s: Seq<UseDeclView>, p: Seq<Seq<char>>) -> Seq<UseDeclView>
    decreases s.len(),
{
    if s.len() == 0 {
        s
    } else {
        let prev = with_path(s.drop_last(), p);
        if s.last().path == p {
            prev.push(s.last())
        } else {
            prev
        }
    }
}

/// The distinct paths, in order of first occurrence.
pub open spec fn paths_in_order(s: Seq<UseDeclView>) -> Seq<Seq<Seq<char>>>
    decreases s.len(),
{
    if s.len() == 0 {
        Seq::empty()
    } else {
        let prev = paths_in_order(s.drop_last());
        if prev.contains(s.last().path) {
            prev
        } else {
            prev.push(s.last().path)
        }
    }
}

/// The names that imports of one path bring in: a simple import its last segment, a
/// group its names; aliases none.
pub open spec fn simple_names(g: Seq<UseDeclView>) -> Seq<Seq<char>>
    decreases g.len(),
{
    if g.len() == 0 {
        Seq::empty()
    } else {
        simple_names(g.drop_last()) + match g.last().kind {
            UseKindView::Simple => if g.last().path.len() > 0 {
                seq![g.last().path.last()]
            } else {
                Seq::empty()
            },
            UseKindView::Alias(_) => Seq::empty(),
            UseKindView::Group(ns) => ns,
        }
    }
}

/// The aliased imports, in order.
pub open spec fn aliases(g: Seq<UseDeclView>) -> Seq<UseDeclView>
    decreases g.len(),
{
    if g.len() == 0 {
        g
    } else if g.last().kind is Alias {
        aliases(g.drop_last()).push(g.last())
    } else {
        aliases(g.drop_last())
    }
}

/// Whether some import is a simple one.
pub open spec fn has_simple(g: Seq<UseDeclView>) -> bool
    decreases g.len(),
{
    g.len() > 0 && (has_simple(g.drop_last()) || g.last().kind is Simple)
}

/// What the imports `g` of path `p` become: a single import stays; otherwise the
/// aliases stay, and the other names are merged, sorted and without repeats, into one
/// group (or the first import, when that is one simple name).
pub open spec fn merge_group(g: Seq<UseDeclView>, p: Seq<Seq<char>>) -> Seq<UseDeclView> {
    if g.len() == 1 {
        seq![g[0]]
    } else {
        let names = simple_names(g);
        let merged = dedup(sorted_strs(names));
        aliases(g) + if names.len() == 0 {
            Seq::empty()
        } else if merged.len() == 1 && has_simple(g) {
            seq![g[0]]
        } else {
            seq![UseDeclView { path: p, kind: UseKindView::Group(merged), span: g[0].span }]
        }
    }
}

/// The merged imports of the given paths, path after path.
pub open spec fn merge_paths(s: Seq<UseDeclView>, ps: Seq<Seq<Seq<char>>>) -> Seq<UseDeclView>
    decreases ps.len(),
{
    if ps.len() == 0 {
        Seq::empty()
    } else {
        merge_paths(s, ps.drop_last()) + merge_group(with_path(s, ps.last()), ps.last())
    }
}

/// Imports with duplicate paths merged, in order of each path's first occurrence.
pub open spec fn merge_spec(s: Seq<UseDeclView>) -> Seq<UseDeclView> {
    merge_paths(s, paths_in_order(s))
}

proof fn lemma_with_path_paths(s: Seq<UseDeclView>, p: Seq<Seq<char>>)
    ensures
        forall|x: int| 0 <= x < with_path(s, p).len() ==> (#[trigger] with_path(s, p)[x]).path == p,
    decreases s.len(),
{
    if s.len() > 0 {
        lemma_with_path_paths(s.drop_last(), p);
    }
}

proof fn lemma_aliases_are_aliases(g: Seq<UseDeclView>)
    ensures
        forall|x: int| 0 <= x < aliases(g).len() ==> (#[trigger] aliases(g)[x]).kind is Alias,
        forall|x: int| 0 <= x < aliases(g).len() ==> g.contains(#[trigger] aliases(g)[x]),
    decreases g.len(),
{
    if g.len() > 0 {
        lemma_aliases_are_aliases(g.drop_last());
        let a = aliases(g);
        let d = aliases(g.drop_last());
        assert forall|x: int| 0 <= x < a.len() implies g.contains(#[trigger] a[x]) by {
            if x < d.len() {
                assert(a[x] == d[x]);
                let t = choose|t: int| 0 <= t < g.drop_last().len() && g.drop_last()[t] == d[x];
                assert(g[t] == d[x]);
            } else {
                assert(g[g.len() - 1] == a[x]);
            }
        }
    }
}

proof fn lemma_merge_group_shape(g: Seq<UseDeclView>, p: Seq<Seq<char>>)
    requires
        forall|x: int| 0 <= x < g.len() ==> (#[trigger] g[x]).path == p,
    ensures
        forall|x: int| 0 <= x < merge_group(g, p).len() ==> (#[trigger] merge_group(g, p)[x]).path == p,
        forall|x: int, y: int|
            0 <= x < y < merge_group(g, p).len() ==> (#[trigger] merge_group(g, p)[x]).kind is Alias
                || (#[trigger] merge_group(g, p)[y]).kind is Alias,
{
    lemma_aliases_are_aliases(g);
    let m = merge_group(g, p);
    if g.len() != 1 {
        let a = aliases(g);
        assert forall|x: int| 0 <= x < m.len() implies (#[trigger] m[x]).path == p by {
            if x < a.len() {
                assert(m[x] == a[x]);
                let t = choose|t: int| 0 <= t < g.len() && g[t] == a[x];
            }
        }
        assert forall|x: int, y: int| 0 <= x < y < m.len() implies (#[trigger] m[x]).kind is Alias
            || (#[trigger] m[y]).kind is Alias by {
            assert(x < a.len());
            assert(m[x] == a[x]);
        }
    }
}

proof fn lemma_paths_in_order_distinct(s: Seq<UseDeclView>)
    ensures
        paths_in_order(s).no_duplicates(),
    decreases s.len(),
{
    if s.len() > 0 {
        lemma_paths_in_order_distinct(s.drop_last());
    }
}

proof fn lemma_merge_paths_shape(s: Seq<UseDeclView>, ps: Seq<Seq<Seq<char>>>)
    requires
        ps.no_duplicates(),
    ensures
        forall|x: int| 0 <= x < merge_paths(s, ps).len() ==> ps.contains((#[trigger] merge_paths(s, ps)[x]).path),
        forall|x: int, y: int|
            0 <= x < y < merge_paths(s, ps).len() && merge_paths(s, ps)[x].path == merge_paths(s, ps)[y].path
                ==> (#[trigger] merge_paths(s, ps)[x]).kind is Alias || (#[trigger] merge_paths(s, ps)[y]).kind is Alias,
    decreases ps.len(),
{
    if ps.len() > 0 {
        let d = ps.drop_last();
        let last = ps.last();
        lemma_merge_paths_shape(s, d);
        lemma_with_path_paths(s, last);
        lemma_merge_group_shape(with_path(s, last), last);
        let prev = merge_paths(s, d);
        let grp = merge_group(with_path(s, last), last);
        let m = merge_paths(s, ps);
        assert(m == prev + grp);
        assert(!d.contains(last)) by {
            if d.contains(last) {
                let t = choose|t: int| 0 <= t < d.len() && d[t] == last;
                assert(ps[t] == ps[ps.len() - 1]);
            }
        }
        assert forall|x: int| 0 <= x < m.len() implies ps.contains((#[trigger] m[x]).path) by {
            if x < prev.len() {
                assert(m[x] == prev[x]);
                let t = choose|t: int| 0 <= t < d.len() && d[t] == prev[x].path;
                assert(ps[t] == d[t]);
            } else {
                assert(m[x] == grp[x - prev.len()]);
                assert(ps[ps.len() - 1] == last);
            }
        }
        assert forall|x: int, y: int|
            0 <= x < y < m.len() && m[x].path == m[y].path implies (#[trigger] m[x]).kind is Alias
                || (#[trigger] m[y]).kind is Alias by {
            if y < prev.len() {
                assert(m[x] == prev[x] && m[y] == prev[y]);
            } else if x >= prev.len() {
                assert(m[x] == grp[x - prev.len()] && m[y] == grp[y - prev.len()]);
            } else {
                assert(m[x] == prev[x]);
                assert(m[y] == grp[y - prev.len()]);
                assert(d.contains(prev[x].path));
            }
        }
    }
}

/// Duplicate imports from the same module path are merged: in the merged list, of two
/// entries with the same path at least one is an alias.
pub proof fn law_merged_paths_are_unique(s: Seq<UseDeclView>)
    ensures
        forall|x: int, y: int|
            0 <= x < y < merge_spec(s).len() && merge_spec(s)[x].path == merge_spec(s)[y].path
                ==> (#[trigger] merge_spec(s)[x]).kind is Alias || (#[trigger] merge_spec(s)[y]).kind is Alias,
{
    lemma_paths_in_order_distinct(s);
    lemma_merge_paths_shape(s, paths_in_order(s));
}

fn path_eq(a: &Vec<String>, b: &Vec<String>) -> (r: bool)
    ensures
        r == (strs(a@) == strs(b@)),
{
    if a.len() != b.len() {
        proof { assert(strs(a@).len() != strs(b@).len()); }
        return false;
    }
    let mut i: usize = 0;
    while i < a.len()
        invariant
            i <= a@.len() == b@.len(),
            forall|k: int| 0 <= k < i ==> a@[k]@ == b@[k]@,
        decreases a@.len() - i,
    {
        if !str_eq(a[i].as_str(), b[i].as_str()) {
            proof { assert(strs(a@)[i as int] != strs(b@)[i as int]); }
            return false;
        }
        i = i + 1;
    }
    proof { assert(strs(a@) =~= strs(b@)); }
    true
}

/// Paths of a list of paths, by their segments' characters.
pub open spec fn paths_view(ps: Seq<Vec<String>>) -> Seq<Seq<Seq<char>>> {
    ps.map_values(|p: Vec<String>| strs(p@))
}

fn contains_path(ps: &Vec<Vec<String>>, p: &Vec<String>) -> (r: bool)
    ensures
        r == paths_view(ps@).contains(strs(p@)),
{
    let mut i: usize = 0;
    while i < ps.len()
        invariant
            i <= ps@.len(),
            forall|k: int| 0 <= k < i ==> strs(ps@[k]@) != strs(p@),
        decreases ps@.len() - i,
    {
        if path_eq(&ps[i], p) {
            proof { assert(paths_view(ps@)[i as int] == strs(p@)); }
            return true;
        }
        i = i + 1;
    }
    proof {
        if paths_view(ps@).contains(strs(p@)) {
            let k = choose|k: int| 0 <= k < paths_view(ps@).len() && paths_view(ps@)[k] == strs(p@);
            assert(strs(ps@[k]@) == strs(p@));
        }
    }
    false
}

/// Merges imports with the same path into grouped imports.
pub fn merge_imports(imports: &[UseDecl]) -> (r: Vec<UseDecl>)
    ensures
        uses_view(r@) == merge_spec(uses_view(imports@)),
{
    let ghost uv = uses_view(imports@);
    let mut paths: Vec<Vec<String>> = Vec::new();
    let mut i: usize = 0;
    while i < imports.len()
        invariant
            i <= imports@.len(),
            uv == uses_view(imports@),
            paths_view(paths@) == paths_in_order(uv.take(i as int)),
        decreases imports@.len() - i,
    {
        proof { assert(uv.take(i + 1).drop_last() =~= uv.take(i as int)); }
        if !contains_path(&paths, &imports[i].path) {
            let ghost before = paths@;
            paths.push(clone_strings(&imports[i].path));
            proof { assert(paths_view(paths@) =~= paths_view(before).push(uv[i as int].path)); }
        }
        i = i + 1;
    }
    proof { assert(uv.take(i as int) =~= uv); }
    let ghost pv = paths_view(paths@);
    let mut result: Vec<UseDecl> = Vec::new();
    let mut k: usize = 0;
    while k < paths.len()
        invariant
            k <= paths@.len(),
            uv == uses_view(imports@),
            pv == paths_view(paths@),
            pv == paths_in_order(uv),
            uses_view(result@) == merge_paths(uv, pv.take(k as int)),
        decreases paths@.len() - k,
    {
        let p = &paths[k];
        let ghost base = result@;
        let g = collect_group(imports, p);
        let mut merged = merge_one(&g, p);
        result.append(&mut merged);
        k = k + 1;
        proof {
            assert(pv.take(k as int).drop_last() =~= pv.take(k - 1));
            assert(pv[k - 1] == strs(p@));
            assert(uses_view(result@) =~= uses_view(base) + merge_group(with_path(uv, strs(p@)), strs(p@)));
        }
    }
    proof { assert(pv.take(k as int) =~= pv); }
    result
}

fn collect_group(imports: &[UseDecl], p: &Vec<String>) -> (g: Vec<UseDecl>)
    ensures
        uses_view(g@) == with_path(uses_view(imports@), strs(p@)),
{
    let ghost uv = uses_view(imports@);
    let mut g: Vec<UseDecl> = Vec::new();
    let mut j: usize = 0;
    while j < imports.len()
        invariant
            j <= imports@.len(),
            uv == uses_view(imports@),
            uses_view(g@) == with_path(uv.take(j as int), strs(p@)),
        decreases imports@.len() - j,
    {
        proof { assert(uv.take(j + 1).drop_last() =~= uv.take(j as int)); }
        if path_eq(&imports[j].path, p) {
            let ghost before = g@;
            g.push(imports[j].clone());
            proof { assert(uses_view(g@) =~= uses_view(before).push(uv[j as int])); }
        }
        j = j + 1;
    }
    proof { assert(uv.take(j as int) =~= uv); }
    g
}

fn merge_one(g: &Vec<UseDecl>, p: &Vec<String>) -> (result: Vec<UseDecl>)
    ensures
        uses_view(result@) == merge_group(uses_view(g@), strs(p@)),
{
    let ghost gv = uses_view(g@);
    let mut result: Vec<UseDecl> = Vec::new();
    if g.len() == 1 {
        result.push(g[0].clone());
        proof { assert(uses_view(result@) =~= merge_group(gv, strs(p@))); }
        return result;
    }
    let mut names: Vec<String> = Vec::new();
    let mut has = false;
    let mut t: usize = 0;
    while t < g.len()
        invariant
            t <= g@.len(),
            gv == uses_view(g@),
            strs(names@) == simple_names(gv.take(t as int)),
            has == has_simple(gv.take(t as int)),
            uses_view(result@) == aliases(gv.take(t as int)),
        decreases g@.len() - t,
    {
        proof { assert(gv.take(t + 1).drop_last() =~= gv.take(t as int)); }
        let x = &g[t];
        let ghost before_names = names@;
        let ghost before_result = result@;
        match &x.kind {
            UseKind::Simple => {
                has = true;
                if x.path.len() > 0 {
                    names.push(x.path[x.path.len() - 1].clone());
                }
                proof {
                    assert(strs(names@) =~= simple_names(gv.take(t + 1)));
                }
            },
            UseKind::Alias(_) => {
                result.push(x.clone());
                proof {
                    assert(uses_view(result@) =~= uses_view(before_result).push(gv[t as int]));
                    assert(strs(names@) =~= simple_names(gv.take(t + 1)));
                }
            },
            UseKind::Group(ns) => {
                let mut q: usize = 0;
                while q < ns.len()
                    invariant
                        q <= ns@.len(),
                        strs(names@) == strs(before_names) + strs(ns@.take(q as int)),
                    decreases ns@.len() - q,
                {
                    let ghost bn = names@;
                    names.push(ns[q].clone());
                    q = q + 1;
                    proof {
                        assert(strs(names@) =~= strs(bn).push(ns@[q - 1]@));
                        assert(strs(ns@.take(q as int)) =~= strs(ns@.take(q - 1)).push(ns@[q - 1]@));
                    }
                }
                proof {
                    assert(ns@.take(q as int) =~= ns@);
                    assert(strs(names@) =~= simple_names(gv.take(t + 1)));
                }
            },
        }
        t = t + 1;
    }
    proof { assert(gv.take(t as int) =~= gv); }
    if names.len() > 0 {
        let sorted = sort_strings(&names);
        let merged = dedup_strings(&sorted);
        if merged.len() == 1 && has {
            let ghost before_result = result@;
            result.push(g[0].clone());
            proof { assert(uses_view(result@) =~= uses_view(before_result).push(gv[0])); }
        } else {
            let ghost before_result = result@;
            let d = UseDecl { path: clone_strings(p), kind: UseKind::Group(merged), span: g[0].span };
            result.push(d);
            proof { assert(uses_view(result@) =~= uses_view(before_result).push(d@)); }
        }
    }
    proof { assert(uses_view(result@) =~= merge_group(gv, strs(p@))); }
    result
}

// ─── Printing ────────────────────────────────────────────────────────

/// The imports that fall in a group, in order.
pub open spec fn group_members(ms: Seq<UseDeclView>, g: ImportGroup) -> Seq<UseDeclView>
    decreases ms.len(),
{
    if ms.len() == 0 {
        ms
    } else if classify_spec(ms.last()) == g {
        group_members(ms.drop_last(), g).push(ms.last())
    } else {
        group_members(ms.drop_last(), g)
    }
}

/// The documents of a list of imports.
pub open spec fn use_docs(g: Seq<UseDeclView>) -> Seq<DocView> {
    g.map_values(|u: UseDeclView| format_use_spec(u))
}

/// The non-empty groups, in order.
pub open spec fn nonempty(gs: Seq<Seq<UseDeclView>>) -> Seq<Seq<UseDeclView>>
    decreases gs.len(),
{
    if gs.len() == 0 {
        gs
    } else if gs.last().len() > 0 {
        nonempty(gs.drop_last()).push(gs.last())
    } else {
        nonempty(gs.drop_last())
    }
}

/// The printed groups: one import per line within a group, and a blank line (two line
/// breaks) from one group to the next.
pub open spec fn doc_parts(gs: Seq<Seq<UseDeclView>>) -> Seq<DocView>
    decreases gs.len(),
{
    if gs.len() == 0 {
        Seq::empty()
    } else if gs.len() == 1 {
        intersperse(DocView::Hardline, use_docs(gs[0]))
    } else {
        doc_parts(gs.drop_last()).push(DocView::Hardline).push(DocView::Hardline) + intersperse(DocView::Hardline, use_docs(gs.last()))
    }
}

/// The three groups of the merged imports, each sorted.
pub open spec fn sorted_groups(imports: Seq<UseDeclView>) -> Seq<Seq<UseDeclView>> {
    let m = merge_spec(imports);
    seq![
        sorted_uses(group_members(m, ImportGroup::Std)),
        sorted_uses(group_members(m, ImportGroup::External)),
        sorted_uses(group_members(m, ImportGroup::Local)),
    ]
}

/// The layout of a list of imports: merged, split into standard-library, external and
/// local groups, each sorted, one import per line, a blank line between groups; the empty document
/// when there are none.
pub open spec fn format_sorted_spec(imports: Seq<UseDeclView>) -> DocView {
    if imports.len() == 0 {
        DocView::Text(Seq::empty())
    } else {
        DocView::Concat(doc_parts(nonempty(sorted_groups(imports))))
    }
}

proof fn lemma_intersperse_push(sep: DocView, ds: Seq<DocView>, x: DocView)
    ensures
        intersperse(sep, ds.push(x)) == if ds.len() == 0 {
            seq![x]
        } else {
            intersperse(sep, ds) + seq![sep, x]
        },
{
    if ds.len() == 0 {
        assert(intersperse(sep, ds.push(x)) =~= seq![x]);
    } else {
        let a = intersperse(sep, ds.push(x));
        let b = intersperse(sep, ds) + seq![sep, x];
        assert(a.len() == b.len());
        assert forall|k: int| 0 <= k < a.len() implies a[k] == b[k] by {
            if k < 2 * ds.len() - 1 {
                if k % 2 == 0 {
                    assert(k / 2 < ds.len());
                }
            } else if k == 2 * ds.len() - 1 {
                assert(k % 2 == 1);
            } else {
                assert(k == 2 * ds.len());
                assert(k % 2 == 0);
                assert(k / 2 == ds.len());
            }
        }
        assert(a =~= b);
    }
}

fn push_group(parts: &mut Vec<Doc>, g: &Vec<UseDecl>, first: bool)
    ensures
        views_of(final(parts)@) == views_of(old(parts)@) + (if first {
            Seq::empty()
        } else {
            seq![DocView::Hardline, DocView::Hardline]
        }) + intersperse(DocView::Hardline, use_docs(uses_view(g@))),
{
    let ghost gv = uses_view(g@);
    if !first {
        parts.push(hardline());
        parts.push(hardline());
    }
    let ghost base = views_of(parts@);
    proof {
        assert(base =~= views_of(old(parts)@) + (if first {
            Seq::empty()
        } else {
            seq![DocView::Hardline, DocView::Hardline]
        }));
    }
    let mut j: usize = 0;
    while j < g.len()
        invariant
            j <= g@.len(),
            gv == uses_view(g@),
            views_of(parts@) == base + intersperse(DocView::Hardline, use_docs(gv.take(j as int))),
        decreases g@.len() - j,
    {
        let ghost before = parts@;
        if j > 0 {
            parts.push(hardline());
        }
        let d = format_use(&g[j]);
        parts.push(d);
        proof {
            assert(gv[j as int] == g@[j as int]@);
            if j > 0 {
                assert(views_of(parts@) =~= views_of(before) + seq![DocView::Hardline, format_use_spec(gv[j as int])]);
            } else {
                assert(views_of(parts@) =~= views_of(before).push(format_use_spec(gv[j as int])));
            }
            lemma_intersperse_push(DocView::Hardline, use_docs(gv.take(j as int)), format_use_spec(gv[j as int]));
            assert(use_docs(gv.take(j + 1)) =~= use_docs(gv.take(j as int)).push(format_use_spec(gv[j as int])));
            assert(views_of(parts@) =~= base + intersperse(DocView::Hardline, use_docs(gv.take(j + 1))));
        }
        j = j + 1;
    }
    proof { assert(gv.take(j as int) =~= gv); }
}

fn split_group(ms: &Vec<UseDecl>, g: ImportGroup) -> (r: Vec<UseDecl>)
    ensures
        uses_view(r@) == group_members(uses_view(ms@), g),
{
    let ghost mv = uses_view(ms@);
    let mut r: Vec<UseDecl> = Vec::new();
    let mut i: usize = 0;
    while i < ms.len()
        invariant
            i <= ms@.len(),
            mv == uses_view(ms@),
            uses_view(r@) == group_members(mv.take(i as int), g),
        decreases ms@.len() - i,
    {
        proof { assert(mv.take(i + 1).drop_last() =~= mv.take(i as int)); }
        if classify_import(&ms[i]) == g {
            let ghost before = r@;
            r.push(ms[i].clone());
            proof { assert(uses_view(r@) =~= uses_view(before).push(mv[i as int])); }
        }
        i = i + 1;
    }
    proof { assert(mv.take(i as int) =~= mv); }
    r
}

/// Sorts and lays out a list of `use` declarations as a single document.
pub fn format_sorted_imports(imports: &[UseDecl]) -> (d: Doc)
    ensures
        d@ == format_sorted_spec(uses_view(imports@)),
{
    if imports.len() == 0 {
        return nil();
    }
    let merged = merge_imports(imports);
    let std_imports = sort_uses(&split_group(&merged, ImportGroup::Std));
    let external_imports = sort_uses(&split_group(&merged, ImportGroup::External));
    let local_imports = sort_uses(&split_group(&merged, ImportGroup::Local));
    let ghost all = seq![uses_view(std_imports@), uses_view(external_imports@), uses_view(local_imports@)];
    proof {
        assert(all =~= sorted_groups(uses_view(imports@)));
        assert(all.take(1).drop_last() =~= all.take(0));
        assert(all.take(2).drop_last() =~= all.take(1));
        assert(all.take(3).drop_last() =~= all.take(2));
        assert(all.take(3) =~= all);
        assert(nonempty(all.take(0)) =~= Seq::<Seq<UseDeclView>>::empty());
        assert(all.take(1).last() == all[0]);
        assert(all.take(2).last() == all[1]);
        assert(all.take(3).last() == all[2]);
        assert(all[0].len() == std_imports@.len());
        assert(all[1].len() == external_imports@.len());
        assert(all[2].len() == local_imports@.len());
    }
    let mut parts: Vec<Doc> = Vec::new();
    let mut count: usize = 0;
    if std_imports.len() > 0 {
        push_group(&mut parts, &std_imports, count == 0);
        count = count + 1;
    }
    proof {
        assert(nonempty(all.take(1)).len() == count);
        assert(views_of(parts@) =~= doc_parts(nonempty(all.take(1))));
    }
    if external_imports.len() > 0 {
        let ghost ne = nonempty(all.take(1));
        push_group(&mut parts, &external_imports, count == 0);
        count = count + 1;
        proof {
            assert(nonempty(all.take(2)) =~= ne.push(all[1]));
            assert(nonempty(all.take(2)).drop_last() =~= ne);
        }
    }
    proof {
        assert(nonempty(all.take(2)).len() == count);
        assert(views_of(parts@) =~= doc_parts(nonempty(all.take(2))));
    }
    if local_imports.len() > 0 {
        let ghost ne = nonempty(all.take(2));
        push_group(&mut parts, &local_imports, count == 0);
        count = count + 1;
        proof {
            assert(nonempty(all.take(3)) =~= ne.push(all[2]));
            assert(nonempty(all.take(3)).drop_last() =~= ne);
        }
    }
    proof {
        assert(views_of(parts@) =~= doc_parts(nonempty(all)));
    }
    concat(parts)
}

} // verus!
