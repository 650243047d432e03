//! Which bindings own their value, and which were moved (wholly or in part).
use vstd::prelude::*;
use std::collections::HashMap;
use vstd::std_specs::iter::IteratorSpec;
use crate::hir::nodes::DefId;
use crate::lexer::token::Span;
use crate::text::{decimal, push_decimal, push_str};

verus! {

#[derive(Debug, Clone)]
pub enum BindingState {
    Owned,
    Moved { target: DefId, span: Span },
    MovedIntoCall { callee: String, span: Span },
    Uninitialized,
    PartiallyMoved { moved_fields: Vec<String> },
}

/// Model of a [`BindingState`].
pub enum BindingStateView {
    Owned,
    Moved { target: DefId, span: Span },
    MovedIntoCall { callee: Seq<char>, span: Span },
    Uninitialized,
    PartiallyMoved { moved_fields: Seq<Seq<char>> },
}

/// The models of a list of strings.
pub open spec fn strings_view(v: Seq<String>) -> Seq<Seq<char>> {
    Seq::new(v.len(), |i: int| v[i]@)
}

impl View for BindingState {
    type V = BindingStateView;

    open spec fn view(&self) -> BindingStateView {
        match self {
            BindingState::Owned => BindingStateView::Owned,
            BindingState::Moved { target, span } => BindingStateView::Moved { target: *target, span: *span },
            BindingState::MovedIntoCall { callee, span } => BindingStateView::MovedIntoCall {
                callee: callee@,
                span: *span,
            },
            BindingState::Uninitialized => BindingStateView::Uninitialized,
            BindingState::PartiallyMoved { moved_fields } => BindingStateView::PartiallyMoved {
                moved_fields: strings_view(moved_fields@),
            },
        }
    }
}

/// A copy of a list of strings.
pub fn copy_strings(v: &Vec<String>) -> (r: Vec<String>)
    ensures
        strings_view(r@) == strings_view(v@),
{
    let mut r: Vec<String> = Vec::new();
    let mut i: usize = 0;
    while i < v.len()
        invariant
            i <= v@.len(),
            r@.len() == i,
            forall|j: int| 0 <= j < i ==> #[trigger] r@[j]@ == v@[j]@,
        decreases v@.len() - i,
    {
        let c = v[i].clone();
        r.push(c);
        i = i + 1;
    }
    proof { assert(strings_view(r@) =~= strings_view(v@)); }
    r
}

/// Whether `s` is one of the strings of `v`.
pub fn contains_string(v: &Vec<String>, s: &String) -> (r: bool)
    ensures
        r == strings_view(v@).contains(s@),
{
    let mut i: usize = 0;
    while i < v.len()
        invariant
            i <= v@.len(),
            forall|j: int| 0 <= j < i ==> v@[j]@ != s@,
        decreases v@.len() - i,
    {
        if v[i] == *s {
            proof { assert(strings_view(v@)[i as int] == s@); }
            return true;
        }
        i = i + 1;
    }
    proof {
        if strings_view(v@).contains(s@) {
            let j = choose|j: int| 0 <= j < strings_view(v@).len() && strings_view(v@)[j] == s@;
            assert(v@[j]@ == s@);
        }
    }
    false
}

impl BindingState {
    /// A copy with the same model.
    pub fn duplicate(&self) -> (r: BindingState)
        ensures
            r@ == self@,
    {
        match self {
            BindingState::Owned => BindingState::Owned,
            BindingState::Moved { target, span } => BindingState::Moved { target: *target, span: *span },
            BindingState::MovedIntoCall { callee, span } => BindingState::MovedIntoCall {
                callee: callee.clone(),
                span: *span,
            },
            BindingState::Uninitialized => BindingState::Uninitialized,
            BindingState::PartiallyMoved { moved_fields } => BindingState::PartiallyMoved {
                moved_fields: copy_strings(moved_fields),
            },
        }
    }
}

/// The keys of a map, each once.
pub fn keys_of<V>(m: &HashMap<u32, V>) -> (r: Vec<u32>)
    ensures
        r@.to_set() == m@.dom(),
        r@.no_duplicates(),
{
    broadcast use vstd::std_specs::hash::group_hash_axioms;

    let mut r: Vec<u32> = Vec::new();
    let ghost ks = m.keys().remaining().unref();
    for k in it: m.keys()
        invariant
            r@ == it.seq().take(it.index()).map_values(|k: &u32| *k),
    {
        r.push(*k);
        proof { assert(r@ =~= it.seq().take(it.index() + 1).map_values(|k: &u32| *k)); }
    }
    proof { assert(r@ =~= ks); }
    r
}

/// Each binding's state replaced by its model.
pub open spec fn states_view(m: Map<DefId, BindingState>) -> Map<DefId, BindingStateView> {
    Map::new(|k: DefId| m.contains_key(k), |k: DefId| m[k]@)
}

/// The moved fields after also moving field `f`: `f` is added unless already there.
pub open spec fn with_field(st: Option<BindingStateView>, f: Seq<char>) -> BindingStateView {
    match st {
        Some(BindingStateView::PartiallyMoved { moved_fields }) => BindingStateView::PartiallyMoved {
            moved_fields: if moved_fields.contains(f) { moved_fields } else { moved_fields.push(f) },
        },
        _ => BindingStateView::PartiallyMoved { moved_fields: seq![f] },
    }
}

/// `existing` extended, in order, by the fields of `added` it does not hold yet.
pub open spec fn append_new(existing: Seq<Seq<char>>, added: Seq<Seq<char>>) -> Seq<Seq<char>>
    decreases added.len(),
{
    if added.len() == 0 {
        existing
    } else {
        let a = append_new(existing, added.drop_last());
        if a.contains(added.last()) {
            a
        } else {
            a.push(added.last())
        }
    }
}

/// How the merged state `cur` of a binding changes when another branch leaves it in `st`:
/// a move on that branch makes an owned or partially moved binding moved, and partial
/// moves accumulate.
pub open spec fn merge_rule(cur: BindingStateView, st: BindingStateView) -> BindingStateView {
    match st {
        BindingStateView::Moved { .. } | BindingStateView::MovedIntoCall { .. } => if cur is Owned
            || cur is PartiallyMoved {
            st
        } else {
            cur
        },
        BindingStateView::PartiallyMoved { moved_fields } => match cur {
            BindingStateView::PartiallyMoved { moved_fields: existing } => BindingStateView::PartiallyMoved {
                moved_fields: append_new(existing, moved_fields),
            },
            BindingStateView::Owned => st,
            _ => cur,
        },
        _ => cur,
    }
}

/// One branch merged into the state so far; bindings the state does not know are ignored.
pub open spec fn merge_step(r: Map<DefId, BindingStateView>, b: Map<DefId, BindingStateView>) -> Map<
    DefId,
    BindingStateView,
> {
    Map::new(
        |k: DefId| r.contains_key(k),
        |k: DefId|
            if b.contains_key(k) {
                merge_rule(r[k], b[k])
            } else {
                r[k]
            },
    )
}

/// The first `n` branches merged, starting from the first.
pub open spec fn merge_prefix(bs: Seq<Map<DefId, BindingStateView>>, n: int) -> Map<DefId, BindingStateView>
    decreases n,
{
    if n <= 1 {
        bs[0]
    } else {
        merge_step(merge_prefix(bs, n - 1), bs[n - 1])
    }
}

/// All branches merged; no branch gives the empty state.
pub open spec fn merge_all(bs: Seq<Map<DefId, BindingStateView>>) -> Map<DefId, BindingStateView> {
    if bs.len() == 0 {
        Map::empty()
    } else {
        merge_prefix(bs, bs.len() as int)
    }
}

/// What `move_info` reports for a binding state.
pub open spec fn move_info_spec(st: Option<BindingStateView>) -> Option<(Seq<char>, Span)> {
    match st {
        Some(BindingStateView::Moved { target, span }) => Some(("variable "@ + decimal(target as nat), span)),
        Some(BindingStateView::MovedIntoCall { callee, span }) => Some((callee, span)),
        _ => None,
    }
}

/// The binding was moved, wholly or in part.
pub open spec fn moved_view(st: BindingStateView) -> bool {
    st is Moved || st is MovedIntoCall || st is PartiallyMoved
}

proof fn lemma_prefix_domain(bs: Seq<Map<DefId, BindingStateView>>, n: int)
    requires
        1 <= n <= bs.len(),
    ensures
        merge_prefix(bs, n).dom() == bs[0].dom(),
    decreases n,
{
    if n > 1 {
        lemma_prefix_domain(bs, n - 1);
        assert(merge_prefix(bs, n).dom() =~= merge_prefix(bs, n - 1).dom());
    }
}

proof fn lemma_prefix_moved(bs: Seq<Map<DefId, BindingStateView>>, n: int, j: int, k: DefId)
    requires
        1 <= n <= bs.len(),
        0 <= j < n,
        bs[0].contains_key(k),
        bs[j].contains_key(k),
        moved_view(bs[j][k]),
    ensures
        merge_prefix(bs, n).contains_key(k),
        !(merge_prefix(bs, n)[k] is Owned),
    decreases n,
{
    lemma_prefix_domain(bs, n);
    if n > 1 {
        lemma_prefix_domain(bs, n - 1);
        if j < n - 1 {
            lemma_prefix_moved(bs, n - 1, j, k);
        }
    }
}

proof fn lemma_prefix_owned(bs: Seq<Map<DefId, BindingStateView>>, n: int, k: DefId)
    requires
        1 <= n <= bs.len(),
        bs[0].contains_key(k),
        bs[0][k] is Owned,
        forall|i: int|
            0 <= i < bs.len() && #[trigger] bs[i].contains_key(k) ==> (bs[i][k] is Owned
                || bs[i][k] is Uninitialized),
    ensures
        merge_prefix(bs, n).contains_key(k),
        merge_prefix(bs, n)[k] is Owned,
    decreases n,
{
    lemma_prefix_domain(bs, n);
    if n > 1 {
        lemma_prefix_owned(bs, n - 1, k);
        lemma_prefix_domain(bs, n - 1);
        assert(bs[n - 1].contains_key(k) ==> (bs[n - 1][k] is Owned || bs[n - 1][k] is Uninitialized));
    }
}

/// The binding was moved as a whole.
pub open spec fn fully_moved_view(st: BindingStateView) -> bool {
    st is Moved || st is MovedIntoCall
}

proof fn lemma_prefix_fully_moved(bs: Seq<Map<DefId, BindingStateView>>, n: int, j: int, k: DefId)
    requires
        1 <= n <= bs.len(),
        bs[0].contains_key(k),
        !(bs[0][k] is Uninitialized),
    ensures
        merge_prefix(bs, n).contains_key(k),
        !(merge_prefix(bs, n)[k] is Uninitialized),
        0 <= j < n && bs[j].contains_key(k) && fully_moved_view(bs[j][k]) ==> fully_moved_view(
            merge_prefix(bs, n)[k],
        ),
    decreases n,
{
    lemma_prefix_domain(bs, n);
    if n > 1 {
        lemma_prefix_domain(bs, n - 1);
        lemma_prefix_fully_moved(bs, n - 1, j, k);
    }
}

/// A binding moved as a whole on any branch is moved as a whole after the merge, unless
/// the first branch leaves it uninitialized.
pub proof fn law_merge_full_move_wins(bs: Seq<Map<DefId, BindingStateView>>, j: int, k: DefId)
    requires
        0 <= j < bs.len(),
        bs[0].contains_key(k),
        !(bs[0][k] is Uninitialized),
        bs[j].contains_key(k),
        fully_moved_view(bs[j][k]),
    ensures
        merge_all(bs).contains_key(k),
        fully_moved_view(merge_all(bs)[k]),
{
    lemma_prefix_fully_moved(bs, bs.len() as int, j, k);
}

/// Merging branches keeps exactly the bindings of the first branch.
pub proof fn law_merge_keeps_bindings(bs: Seq<Map<DefId, BindingStateView>>)
    requires
        bs.len() >= 1,
    ensures
        merge_all(bs).dom() == bs[0].dom(),
{
    lemma_prefix_domain(bs, bs.len() as int);
}

/// A binding moved (wholly or in part) on any branch is not owned after the merge.
pub proof fn law_merge_moved_on_any_branch(bs: Seq<Map<DefId, BindingStateView>>, j: int, k: DefId)
    requires
        0 <= j < bs.len(),
        bs[0].contains_key(k),
        bs[j].contains_key(k),
        moved_view(bs[j][k]),
    ensures
        merge_all(bs).contains_key(k),
        !(merge_all(bs)[k] is Owned),
{
    lemma_prefix_moved(bs, bs.len() as int, j, k);
}

/// A binding owned on the first branch and moved on none stays owned after the merge.
pub proof fn law_merge_untouched_stays_owned(bs: Seq<Map<DefId, BindingStateView>>, k: DefId)
    requires
        bs.len() >= 1,
        bs[0].contains_key(k),
        bs[0][k] is Owned,
        forall|i: int|
            0 <= i < bs.len() && #[trigger] bs[i].contains_key(k) ==> (bs[i][k] is Owned
                || bs[i][k] is Uninitialized),
    ensures
        merge_all(bs).contains_key(k),
        merge_all(bs)[k] is Owned,
{
    lemma_prefix_owned(bs, bs.len() as int, k);
}

#[derive(Debug, Clone)]
pub struct OwnershipState {
    bindings: HashMap<DefId, BindingState>,
}

/// The binding states of each branch.
pub open spec fn branch_states(bs: Seq<OwnershipState>) -> Seq<Map<DefId, BindingStateView>> {
    bs.map_values(|o: OwnershipState| o.states())
}

fn merged_fields(existing: &Vec<String>, added: &Vec<String>) -> (r: Vec<String>)
    ensures
        strings_view(r@) == append_new(strings_view(existing@), strings_view(added@)),
{
    let mut acc = copy_strings(existing);
    let mut i: usize = 0;
    while i < added.len()
        invariant
            i <= added@.len(),
            strings_view(acc@) == append_new(strings_view(existing@), strings_view(added@.take(i as int))),
        decreases added@.len() - i,
    {
        proof {
            assert(strings_view(added@.take(i + 1)).drop_last() =~= strings_view(added@.take(i as int)));
            assert(strings_view(added@.take(i + 1)).last() == added@[i as int]@);
        }
        if !contains_string(&acc, &added[i]) {
            let ghost before = acc@;
            acc.push(added[i].clone());
            proof { assert(strings_view(acc@) =~= strings_view(before).push(added@[i as int]@)); }
        }
        i = i + 1;
    }
    proof { assert(added@.take(added@.len() as int) =~= added@); }
    acc
}

fn merged_state(cur: &BindingState, st: &BindingState) -> (r: BindingState)
    ensures
        r@ == merge_rule(cur@, st@),
{
    match st {
        BindingState::Moved { .. } | BindingState::MovedIntoCall { .. } => {
            match cur {
                BindingState::Owned | BindingState::PartiallyMoved { .. } => st.duplicate(),
                _ => cur.duplicate(),
            }
        },
        BindingState::PartiallyMoved { moved_fields } => {
            match cur {
                BindingState::PartiallyMoved { moved_fields: existing } => BindingState::PartiallyMoved {
                    moved_fields: merged_fields(existing, moved_fields),
                },
                BindingState::Owned => st.duplicate(),
                _ => cur.duplicate(),
            }
        },
        _ => cur.duplicate(),
    }
}

impl OwnershipState {
    /// The state of each known binding.
    pub closed spec fn states(&self) -> Map<DefId, BindingStateView> {
        states_view(self.bindings@)
    }

    pub fn new() -> (r: OwnershipState)
        ensures
            r.states() == Map::<DefId, BindingStateView>::empty(),
    {
        let r = OwnershipState { bindings: HashMap::new() };
        proof { assert(r.states() =~= Map::<DefId, BindingStateView>::empty()); }
        r
    }

    fn set_state(&mut self, def_id: DefId, st: BindingState)
        ensures
            final(self).states() == old(self).states().insert(def_id, st@),
    {
        let ghost s = st@;
        self.bindings.insert(def_id, st);
        proof {
            broadcast use vstd::std_specs::hash::group_hash_axioms;
            assert(self.states() =~= old(self).states().insert(def_id, s));
        }
    }

    /// A new binding that owns its value.
    pub fn declare(&mut self, def_id: DefId)
        ensures
            final(self).states() == old(self).states().insert(def_id, BindingStateView::Owned),
    {
        self.set_state(def_id, BindingState::Owned);
    }

    /// A new binding with no value yet.
    pub fn declare_uninitialized(&mut self, def_id: DefId)
        ensures
            final(self).states() == old(self).states().insert(def_id, BindingStateView::Uninitialized),
    {
        self.set_state(def_id, BindingState::Uninitialized);
    }

    /// `source` was moved into `target`.
    pub fn record_move(&mut self, source: DefId, target: DefId, span: Span)
        ensures
            final(self).states() == old(self).states().insert(source, BindingStateView::Moved { target, span }),
    {
        self.set_state(source, BindingState::Moved { target, span });
    }

    /// `source` was moved into a call of `callee`.
    pub fn record_move_into_call(&mut self, source: DefId, callee: String, span: Span)
        ensures
            final(self).states() == old(self).states().insert(
                source,
                BindingStateView::MovedIntoCall { callee: callee@, span },
            ),
    {
        self.set_state(source, BindingState::MovedIntoCall { callee, span });
    }

    /// Field `field` of `source` was moved out.
    pub fn record_partial_move(&mut self, source: DefId, field: String)
        ensures
            final(self).states() == old(self).states().insert(
                source,
                with_field(
                    if old(self).states().contains_key(source) {
                        Some(old(self).states()[source])
                    } else {
                        None
                    },
                    field@,
                ),
            ),
    {
        proof { broadcast use vstd::std_specs::hash::group_hash_axioms; }
        let fields = match self.bindings.get(&source) {
            Some(BindingState::PartiallyMoved { moved_fields }) => {
                let mut fs = copy_strings(moved_fields);
                if !contains_string(&fs, &field) {
                    let ghost before = fs@;
                    fs.push(field);
                    proof { assert(strings_view(fs@) =~= strings_view(before).push(field@)); }
                }
                fs
            },
            _ => {
                let mut fs: Vec<String> = Vec::new();
                fs.push(field);
                proof { assert(strings_view(fs@) =~= seq![field@]); }
                fs
            },
        };
        self.set_state(source, BindingState::PartiallyMoved { moved_fields: fields });
    }

    /// `def_id` owns a value again.
    pub fn reinitialize(&mut self, def_id: DefId)
        ensures
            final(self).states() == old(self).states().insert(def_id, BindingStateView::Owned),
    {
        self.set_state(def_id, BindingState::Owned);
    }

    pub fn is_owned(&self, def_id: DefId) -> (r: bool)
        ensures
            r == (self.states().contains_key(def_id) && self.states()[def_id] is Owned),
    {
        proof { broadcast use vstd::std_specs::hash::group_hash_axioms; }
        match self.bindings.get(&def_id) {
            Some(BindingState::Owned) => true,
            _ => false,
        }
    }

    /// Moved wholly, into another binding or into a call.
    pub fn is_moved(&self, def_id: DefId) -> (r: bool)
        ensures
            r == (self.states().contains_key(def_id) && (self.states()[def_id] is Moved
                || self.states()[def_id] is MovedIntoCall)),
    {
        proof { broadcast use vstd::std_specs::hash::group_hash_axioms; }
        match self.bindings.get(&def_id) {
            Some(BindingState::Moved { .. }) => true,
            Some(BindingState::MovedIntoCall { .. }) => true,
            _ => false,
        }
    }

    pub fn is_partially_moved(&self, def_id: DefId) -> (r: bool)
        ensures
            r == (self.states().contains_key(def_id) && self.states()[def_id] is PartiallyMoved),
    {
        proof { broadcast use vstd::std_specs::hash::group_hash_axioms; }
        match self.bindings.get(&def_id) {
            Some(BindingState::PartiallyMoved { .. }) => true,
            _ => false,
        }
    }

    pub fn is_uninitialized(&self, def_id: DefId) -> (r: bool)
        ensures
            r == (self.states().contains_key(def_id) && self.states()[def_id] is Uninitialized),
    {
        proof { broadcast use vstd::std_specs::hash::group_hash_axioms; }
        match self.bindings.get(&def_id) {
            Some(BindingState::Uninitialized) => true,
            _ => false,
        }
    }

    pub fn state_of(&self, def_id: DefId) -> (r: Option<&BindingState>)
        ensures
            match r {
                Some(st) => self.states().contains_key(def_id) && st@ == self.states()[def_id],
                None => !self.states().contains_key(def_id),
            },
    {
        proof { broadcast use vstd::std_specs::hash::group_hash_axioms; }
        self.bindings.get(&def_id)
    }

    /// For a moved binding: what it was moved into (`variable N` or the callee) and where.
    pub fn move_info(&self, def_id: DefId) -> (r: Option<(String, Span)>)
        ensures
            match r {
                Some((s, sp)) => move_info_spec(
                    if self.states().contains_key(def_id) {
                        Some(self.states()[def_id])
                    } else {
                        None
                    },
                ) == Some((s@, sp)),
                None => move_info_spec(
                    if self.states().contains_key(def_id) {
                        Some(self.states()[def_id])
                    } else {
                        None
                    },
                ) is None,
            },
    {
        proof { broadcast use vstd::std_specs::hash::group_hash_axioms; }
        match self.bindings.get(&def_id) {
            Some(BindingState::Moved { target, span }) => {
                let mut s = String::new();
                push_str(&mut s, "variable ");
                push_decimal(&mut s, *target as u64);
                Some((s, *span))
            },
            Some(BindingState::MovedIntoCall { callee, span }) => Some((callee.clone(), *span)),
            _ => None,
        }
    }

    /// A copy of the state, for analysing branches.
    pub fn snapshot(&self) -> (r: OwnershipState)
        ensures
            r.states() == self.states(),
    {
        OwnershipState { bindings: self.bindings.clone() }
    }

    fn merge_branch(&mut self, branch: &OwnershipState)
        ensures
            final(self).states() == merge_step(old(self).states(), branch.states()),
    {
        proof { broadcast use vstd::std_specs::hash::group_hash_axioms; }
        let ghost r0 = self.states();
        let ghost b = branch.states();
        let keys = keys_of(&self.bindings);
        let mut j: usize = 0;
        while j < keys.len()
            invariant
                j <= keys@.len(),
                keys@.to_set() == r0.dom(),
                keys@.no_duplicates(),
                b == branch.states(),
                self.states() == Map::new(
                    |k: DefId| r0.contains_key(k),
                    |k: DefId|
                        if b.contains_key(k) && keys@.take(j as int).contains(k) {
                            merge_rule(r0[k], b[k])
                        } else {
                            r0[k]
                        },
                ),
            decreases keys@.len() - j,
        {
            let k = keys[j];
            proof {
                broadcast use vstd::std_specs::hash::group_hash_axioms;
                assert(keys@.contains(k));
                assert(r0.contains_key(k));
                assert(!keys@.take(j as int).contains(k)) by {
                    if keys@.take(j as int).contains(k) {
                        let tk = keys@.take(j as int);
                        let t = choose|t: int| 0 <= t < tk.len() && #[trigger] tk[t] == k;
                        assert(keys@[t] == keys@[j as int]);
                    }
                }
                let tk = keys@.take(j as int);
                let tk1 = keys@.take(j + 1);
                assert(tk1 =~= tk.push(k));
                assert(forall|x: DefId| #[trigger] tk1.contains(x) <==> (tk.contains(x) || x == k)) by {
                    assert forall|x: DefId| #[trigger] tk1.contains(x) implies (tk.contains(x) || x == k) by {
                        let t = choose|t: int| 0 <= t < tk1.len() && #[trigger] tk1[t] == x;
                        if t < j {
                            assert(tk[t] == x);
                        }
                    }
                    assert forall|x: DefId| (tk.contains(x) || x == k) implies #[trigger] tk1.contains(x) by {
                        if x == k {
                            assert(tk1[j as int] == k);
                        } else {
                            let t = choose|t: int| 0 <= t < tk.len() && #[trigger] tk[t] == x;
                            assert(tk1[t] == x);
                        }
                    }
                }
            }
            let ghost before = self.states();
            proof { assert(before[k] == r0[k]); }
            match branch.bindings.get(&k) {
                Some(st) => {
                    proof { assert(b.contains_key(k) && st@ == b[k]); }
                    match self.bindings.get(&k) {
                        Some(cur) => {
                            proof { assert(cur@ == r0[k]); }
                            let next = merged_state(cur, st);
                            self.set_state(k, next);
                            proof { assert(self.states() == before.insert(k, merge_rule(r0[k], b[k]))); }
                        },
                        None => {},
                    }
                },
                None => {
                    proof { assert(!b.contains_key(k)); }
                },
            }
            proof {
                assert(self.states() =~= Map::new(
                    |x: DefId| r0.contains_key(x),
                    |x: DefId|
                        if b.contains_key(x) && keys@.take(j + 1).contains(x) {
                            merge_rule(r0[x], b[x])
                        } else {
                            r0[x]
                        },
                ));
            }
            j = j + 1;
        }
        proof {
            assert(keys@.take(keys@.len() as int) =~= keys@);
            assert forall|x: DefId| r0.contains_key(x) implies keys@.contains(x) by {
                assert(keys@.to_set().contains(x));
            }
            assert(self.states() =~= merge_step(r0, b));
        }
    }

    /// Conservative merge of branches: a binding moved on any branch is moved after.
    pub fn merge(branches: Vec<OwnershipState>) -> (r: OwnershipState)
        ensures
            r.states() == merge_all(branch_states(branches@)),
    {
        if branches.len() == 0 {
            return OwnershipState::new();
        }
        let ghost bs = branch_states(branches@);
        let mut result = branches[0].snapshot();
        let mut i: usize = 1;
        while i < branches.len()
            invariant
                1 <= i <= branches@.len(),
                bs == branch_states(branches@),
                result.states() == merge_prefix(bs, i as int),
            decreases branches@.len() - i,
        {
            result.merge_branch(&branches[i]);
            i = i + 1;
        }
        result
    }
}

impl Default for OwnershipState {
    fn default() -> (r: OwnershipState)
        ensures
            r.states() == Map::<DefId, BindingStateView>::empty(),
    {
        OwnershipState::new()
    }
}

} // verus!
