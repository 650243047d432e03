//! Use-after-move detection: which watched bindings were moved, where, and into what.
use vstd::prelude::*;
use std::collections::HashMap;
use crate::hir::nodes::DefId;
use crate::hir::types::{Ty, TyView, copy_spec};
use crate::lexer::token::Span;
use crate::borrow_check::ownership::keys_of;

verus! {

#[derive(Debug, Clone)]
struct BindingInfo {
    ty: Ty,
    declared_span: Span,
    state: MoveState,
}

#[derive(Debug, Clone)]
enum MoveState {
    Live,
    Moved { span: Span, callee: Option<String> },
}

/// Where a binding was moved, and the callee when it was moved into a call.
pub struct MoveView {
    pub span: Span,
    pub callee: Option<Seq<char>>,
}

/// Model of a watched binding: its type, where it was declared, and its move if any.
pub struct WatchedView {
    pub ty: TyView,
    pub declared_span: Span,
    pub moved: Option<MoveView>,
}

pub open spec fn callee_view(c: Option<String>) -> Option<Seq<char>> {
    match c {
        Some(s) => Some(s@),
        None => None,
    }
}

spec fn info_view(b: BindingInfo) -> WatchedView {
    WatchedView {
        ty: b.ty@,
        declared_span: b.declared_span,
        moved: match b.state {
            MoveState::Live => None,
            MoveState::Moved { span, callee } => Some(MoveView { span, callee: callee_view(callee) }),
        },
    }
}

/// Each watched binding replaced by its model.
pub closed spec fn watched_view(m: Map<DefId, BindingInfo>) -> Map<DefId, WatchedView> {
    Map::new(|k: DefId| m.contains_key(k), |k: DefId| info_view(m[k]))
}

#[derive(Debug)]
pub struct UseAfterMoveError {
    pub def_id: DefId,
    pub declared_span: Span,
    pub move_span: Span,
    pub use_span: Span,
    pub callee: Option<String>,
}

fn copy_callee(c: &Option<String>) -> (r: Option<String>)
    ensures
        callee_view(r) == callee_view(*c),
{
    match c {
        Some(s) => Some(s.clone()),
        None => None,
    }
}

impl MoveState {
    fn duplicate(&self) -> (r: MoveState)
        ensures
            r == (match *self {
                MoveState::Live => MoveState::Live,
                MoveState::Moved { span, callee } => MoveState::Moved { span, callee: r->callee },
            }),
            (*self is Moved) ==> callee_view(r->callee) == callee_view(self->callee),
    {
        match self {
            MoveState::Live => MoveState::Live,
            MoveState::Moved { span, callee } => MoveState::Moved { span: *span, callee: copy_callee(callee) },
        }
    }
}

/// The merged model of a binding when another branch has it as `other`:
/// a move on that branch makes a live binding moved.
pub open spec fn merge_watched(cur: WatchedView, other: WatchedView) -> WatchedView {
    if other.moved is Some && cur.moved is None {
        WatchedView { moved: other.moved, ..cur }
    } else {
        cur
    }
}

/// One branch merged into the state so far; bindings the state does not track are ignored.
pub open spec fn merge_watched_step(r: Map<DefId, WatchedView>, b: Map<DefId, WatchedView>) -> Map<DefId, WatchedView> {
    Map::new(
        |k: DefId| r.contains_key(k),
        |k: DefId| if b.contains_key(k) { merge_watched(r[k], b[k]) } else { r[k] },
    )
}

pub open spec fn merge_watched_prefix(bs: Seq<Map<DefId, WatchedView>>, n: int) -> Map<DefId, WatchedView>
    decreases n,
{
    if n <= 1 {
        bs[0]
    } else {
        merge_watched_step(merge_watched_prefix(bs, n - 1), bs[n - 1])
    }
}

proof fn lemma_watched_prefix(bs: Seq<Map<DefId, WatchedView>>, n: int, j: int, k: DefId)
    requires
        1 <= n <= bs.len(),
        bs[0].contains_key(k),
    ensures
        merge_watched_prefix(bs, n).dom() == bs[0].dom(),
        0 <= j < n && bs[j].contains_key(k) && bs[j][k].moved is Some ==> merge_watched_prefix(
            bs,
            n,
        )[k].moved is Some,
        (forall|i: int| 0 <= i < n && #[trigger] bs[i].contains_key(k) ==> bs[i][k].moved is None)
            ==> merge_watched_prefix(bs, n)[k] == bs[0][k],
    decreases n,
{
    if n > 1 {
        lemma_watched_prefix(bs, n - 1, j, k);
        assert(merge_watched_prefix(bs, n).dom() =~= merge_watched_prefix(bs, n - 1).dom());
        if forall|i: int| 0 <= i < n && #[trigger] bs[i].contains_key(k) ==> bs[i][k].moved is None {
            assert(forall|i: int| 0 <= i < n - 1 && #[trigger] bs[i].contains_key(k) ==> bs[i][k].moved is None);
        }
    }
}

proof fn lemma_first_move_kept(bs: Seq<Map<DefId, WatchedView>>, n: int, j: int, k: DefId)
    requires
        1 <= n <= bs.len(),
        bs[0].contains_key(k),
        0 <= j < n,
        bs[j].contains_key(k),
        bs[j][k].moved is Some,
        forall|i: int| 0 <= i < j && #[trigger] bs[i].contains_key(k) ==> bs[i][k].moved is None,
    ensures
        merge_watched_prefix(bs, n)[k].moved == bs[j][k].moved,
    decreases n,
{
    if n > 1 {
        lemma_watched_prefix(bs, n - 1, j, k);
        if j < n - 1 {
            lemma_first_move_kept(bs, n - 1, j, k);
        } else {
            assert(forall|i: int| 0 <= i < n - 1 && #[trigger] bs[i].contains_key(k) ==> bs[i][k].moved is None);
            if j > 0 {
                assert(bs[0][k].moved is None);
            }
        }
    }
}

/// After merging branches, a binding watched on the first branch is moved if it was
/// moved on any branch, and is unchanged if no branch moved it; no binding is added.
/// The move it keeps is the one of the first branch, in order, that moved it.
pub proof fn law_merge_watched(bs: Seq<Map<DefId, WatchedView>>, j: int, k: DefId)
    requires
        bs.len() >= 1,
        bs[0].contains_key(k),
    ensures
        merge_watched_prefix(bs, bs.len() as int).dom() == bs[0].dom(),
        0 <= j < bs.len() && bs[j].contains_key(k) && bs[j][k].moved is Some ==> merge_watched_prefix(
            bs,
            bs.len() as int,
        )[k].moved is Some,
        (forall|i: int| 0 <= i < bs.len() && #[trigger] bs[i].contains_key(k) ==> bs[i][k].moved is None)
            ==> merge_watched_prefix(bs, bs.len() as int)[k] == bs[0][k],
        0 <= j < bs.len() && bs[j].contains_key(k) && bs[j][k].moved is Some && (forall|i: int|
            0 <= i < j && #[trigger] bs[i].contains_key(k) ==> bs[i][k].moved is None)
            ==> merge_watched_prefix(bs, bs.len() as int)[k].moved == bs[j][k].moved,
{
    lemma_watched_prefix(bs, bs.len() as int, j, k);
    if 0 <= j < bs.len() && bs[j].contains_key(k) && bs[j][k].moved is Some && (forall|i: int|
        0 <= i < j && #[trigger] bs[i].contains_key(k) ==> bs[i][k].moved is None) {
        lemma_first_move_kept(bs, bs.len() as int, j, k);
    }
}

#[derive(Debug, Clone)]
pub struct MoveChecker {
    bindings: HashMap<DefId, BindingInfo>,
}

/// The watched bindings of each branch.
pub open spec fn checker_views(bs: Seq<MoveChecker>) -> Seq<Map<DefId, WatchedView>> {
    bs.map_values(|c: MoveChecker| c.watched())
}

impl MoveChecker {
    /// The watched bindings.
    pub closed spec fn watched(&self) -> Map<DefId, WatchedView> {
        watched_view(self.bindings@)
    }

    pub fn new() -> (r: MoveChecker)
        ensures
            r.watched() == Map::<DefId, WatchedView>::empty(),
    {
        let r = MoveChecker { bindings: HashMap::new() };
        proof { assert(r.watched() =~= Map::<DefId, WatchedView>::empty()); }
        r
    }

    fn set_info(&mut self, def_id: DefId, info: BindingInfo)
        ensures
            final(self).watched() == old(self).watched().insert(def_id, info_view(info)),
    {
        let ghost v = info_view(info);
        self.bindings.insert(def_id, info);
        proof {
            broadcast use vstd::std_specs::hash::group_hash_axioms;
            assert(self.watched() =~= old(self).watched().insert(def_id, v));
        }
    }

    /// Starts tracking a live binding of type `ty` declared at `span`.
    pub fn declare(&mut self, def_id: DefId, ty: Ty, span: Span)
        ensures
            final(self).watched() == old(self).watched().insert(
                def_id,
                WatchedView { ty: ty@, declared_span: span, moved: None },
            ),
    {
        self.set_info(def_id, BindingInfo { ty, declared_span: span, state: MoveState::Live });
    }

    fn mark_moved(&mut self, source: DefId, span: Span, callee: Option<String>)
        ensures
            final(self).watched() == if old(self).watched().contains_key(source) {
                old(self).watched().insert(
                    source,
                    WatchedView {
                        moved: Some(MoveView { span, callee: callee_view(callee) }),
                        ..old(self).watched()[source]
                    },
                )
            } else {
                old(self).watched()
            },
    {
        proof { broadcast use vstd::std_specs::hash::group_hash_axioms; }
        let next = match self.bindings.get(&source) {
            Some(info) => Some(
                BindingInfo {
                    ty: info.ty.duplicate(),
                    declared_span: info.declared_span,
                    state: MoveState::Moved { span, callee },
                },
            ),
            None => None,
        };
        match next {
            Some(info) => {
                self.set_info(source, info);
            },
            None => {},
        }
    }

    /// A value transfer out of `source`: a no-op for a `Copy` type, else `source` is moved.
    pub fn process_transfer(&mut self, source: DefId, _target: Option<DefId>, ty: &Ty, span: Span)
        ensures
            final(self).watched() == if copy_spec(ty@) || !old(self).watched().contains_key(source) {
                old(self).watched()
            } else {
                old(self).watched().insert(
                    source,
                    WatchedView { moved: Some(MoveView { span, callee: None }), ..old(self).watched()[source] },
                )
            },
    {
        if ty.is_copy() {
            return;
        }
        self.mark_moved(source, span, None);
    }

    /// A move of `source` into a call of `callee`; a no-op for a `Copy` type.
    pub fn process_call_move(&mut self, source: DefId, callee: String, ty: &Ty, span: Span)
        ensures
            final(self).watched() == if copy_spec(ty@) || !old(self).watched().contains_key(source) {
                old(self).watched()
            } else {
                old(self).watched().insert(
                    source,
                    WatchedView {
                        moved: Some(MoveView { span, callee: Some(callee@) }),
                        ..old(self).watched()[source]
                    },
                )
            },
    {
        if ty.is_copy() {
            return;
        }
        self.mark_moved(source, span, Some(callee));
    }

    /// Using `def_id` at `use_span` is an error exactly when it is watched and moved.
    pub fn check_use(&self, def_id: DefId, use_span: Span) -> (r: Result<(), UseAfterMoveError>)
        ensures
            match r {
                Ok(()) => !self.watched().contains_key(def_id) || self.watched()[def_id].moved is None,
                Err(e) => {
                    &&& self.watched().contains_key(def_id)
                    &&& self.watched()[def_id].moved matches Some(m)
                    &&& e.def_id == def_id
                    &&& e.declared_span == self.watched()[def_id].declared_span
                    &&& e.move_span == m.span
                    &&& e.use_span == use_span
                    &&& callee_view(e.callee) == m.callee
                },
            },
    {
        proof { broadcast use vstd::std_specs::hash::group_hash_axioms; }
        match self.bindings.get(&def_id) {
            Some(info) => {
                match &info.state {
                    MoveState::Moved { span, callee } => {
                        return Err(
                            UseAfterMoveError {
                                def_id,
                                declared_span: info.declared_span,
                                move_span: *span,
                                use_span,
                                callee: copy_callee(callee),
                            },
                        );
                    },
                    MoveState::Live => {},
                }
            },
            None => {},
        }
        Ok(())
    }

    /// `def_id` holds a value again, declared anew at `span`.
    pub fn reinitialize(&mut self, def_id: DefId, span: Span)
        ensures
            final(self).watched() == if old(self).watched().contains_key(def_id) {
                old(self).watched().insert(
                    def_id,
                    WatchedView { declared_span: span, moved: None, ..old(self).watched()[def_id] },
                )
            } else {
                old(self).watched()
            },
    {
        proof { broadcast use vstd::std_specs::hash::group_hash_axioms; }
        let next = match self.bindings.get(&def_id) {
            Some(info) => Some(BindingInfo { ty: info.ty.duplicate(), declared_span: span, state: MoveState::Live }),
            None => None,
        };
        match next {
            Some(info) => {
                self.set_info(def_id, info);
            },
            None => {},
        }
    }

    /// Not moved; a binding that is not watched counts as live.
    pub fn is_live(&self, def_id: DefId) -> (r: bool)
        ensures
            r == (!self.watched().contains_key(def_id) || self.watched()[def_id].moved is None),
    {
        proof { broadcast use vstd::std_specs::hash::group_hash_axioms; }
        match self.bindings.get(&def_id) {
            Some(info) => match info.state {
                MoveState::Live => true,
                _ => false,
            },
            None => true,
        }
    }

    /// A copy, for analysing branches.
    pub fn snapshot(&self) -> (r: MoveChecker)
        ensures
            r.watched() == self.watched(),
    {
        MoveChecker { bindings: self.bindings.clone() }
    }

    /// Puts back the bindings of `snapshot`.
    pub fn restore(&mut self, snapshot: &MoveChecker)
        ensures
            final(self).watched() == snapshot.watched(),
    {
        self.bindings = snapshot.bindings.clone();
    }

    fn merge_branch(&mut self, branch: &MoveChecker)
        ensures
            final(self).watched() == merge_watched_step(old(self).watched(), branch.watched()),
    {
        proof { broadcast use vstd::std_specs::hash::group_hash_axioms; }
        let ghost r0 = self.watched();
        let ghost b = branch.watched();
        let keys = keys_of(&self.bindings);
        let mut j: usize = 0;
        while j < keys.len()
            invariant
                j <= keys@.len(),
                keys@.to_set() == r0.dom(),
                keys@.no_duplicates(),
                b == branch.watched(),
                self.watched() == Map::new(
                    |k: DefId| r0.contains_key(k),
                    |k: DefId|
                        if b.contains_key(k) && keys@.take(j as int).contains(k) {
                            merge_watched(r0[k], b[k])
                        } else {
                            r0[k]
                        },
                ),
            decreases keys@.len() - j,
        {
            let k = keys[j];
            proof {
                broadcast use vstd::std_specs::hash::group_hash_axioms;
                assert(keys@.contains(k));
                assert(r0.contains_key(k));
                assert(!keys@.take(j as int).contains(k)) by {
                    if keys@.take(j as int).contains(k) {
                        let tk = keys@.take(j as int);
                        let t = choose|t: int| 0 <= t < tk.len() && #[trigger] tk[t] == k;
                        assert(keys@[t] == keys@[j as int]);
                    }
                }
                let tk = keys@.take(j as int);
                let tk1 = keys@.take(j + 1);
                assert(tk1 =~= tk.push(k));
                assert(forall|x: DefId| #[trigger] tk1.contains(x) <==> (tk.contains(x) || x == k)) by {
                    assert forall|x: DefId| #[trigger] tk1.contains(x) implies (tk.contains(x) || x == k) by {
                        let t = choose|t: int| 0 <= t < tk1.len() && #[trigger] tk1[t] == x;
                        if t < j {
                            assert(tk[t] == x);
                        }
                    }
                    assert forall|x: DefId| (tk.contains(x) || x == k) implies #[trigger] tk1.contains(x) by {
                        if x == k {
                            assert(tk1[j as int] == k);
                        } else {
                            let t = choose|t: int| 0 <= t < tk.len() && #[trigger] tk[t] == x;
                            assert(tk1[t] == x);
                        }
                    }
                }
            }
            let ghost before = self.watched();
            proof { assert(before[k] == r0[k]); }
            let next = match branch.bindings.get(&k) {
                Some(other) => match &other.state {
                    MoveState::Moved { .. } => match self.bindings.get(&k) {
                        Some(cur) => match cur.state {
                            MoveState::Live => Some(
                                BindingInfo {
                                    ty: cur.ty.duplicate(),
                                    declared_span: cur.declared_span,
                                    state: other.state.duplicate(),
                                },
                            ),
                            _ => None,
                        },
                        None => None,
                    },
                    MoveState::Live => None,
                },
                None => None,
            };
            match next {
                Some(info) => {
                    self.set_info(k, info);
                },
                None => {},
            }
            proof {
                assert(self.watched() =~= Map::new(
                    |x: DefId| r0.contains_key(x),
                    |x: DefId|
                        if b.contains_key(x) && keys@.take(j + 1).contains(x) {
                            merge_watched(r0[x], b[x])
                        } else {
                            r0[x]
                        },
                ));
            }
            j = j + 1;
        }
        proof {
            assert(keys@.take(keys@.len() as int) =~= keys@);
            assert forall|x: DefId| r0.contains_key(x) implies keys@.contains(x) by {
                assert(keys@.to_set().contains(x));
            }
            assert(self.watched() =~= merge_watched_step(r0, b));
        }
    }

    /// Conservative merge of branches: moved on any branch means moved after.
    /// With no branches the checker is left as it is.
    pub fn merge(&mut self, branches: Vec<MoveChecker>)
        ensures
            branches@.len() == 0 ==> final(self).watched() == old(self).watched(),
            branches@.len() > 0 ==> final(self).watched() == merge_watched_prefix(
                checker_views(branches@),
                branches@.len() as int,
            ),
    {
        if branches.len() == 0 {
            return;
        }
        let ghost bs = checker_views(branches@);
        self.restore(&branches[0]);
        let mut i: usize = 1;
        while i < branches.len()
            invariant
                1 <= i <= branches@.len(),
                bs == checker_views(branches@),
                self.watched() == merge_watched_prefix(bs, i as int),
            decreases branches@.len() - i,
        {
            self.merge_branch(&branches[i]);
            i = i + 1;
        }
    }

    /// The type of a watched binding.
    pub fn binding_ty(&self, def_id: DefId) -> (r: Option<&Ty>)
        ensures
            match r {
                Some(t) => self.watched().contains_key(def_id) && t@ == self.watched()[def_id].ty,
                None => !self.watched().contains_key(def_id),
            },
    {
        proof { broadcast use vstd::std_specs::hash::group_hash_axioms; }
        match self.bindings.get(&def_id) {
            Some(info) => Some(&info.ty),
            None => None,
        }
    }
}

impl Default for MoveChecker {
    fn default() -> (r: MoveChecker)
        ensures
            r.watched() == Map::<DefId, WatchedView>::empty(),
    {
        MoveChecker::new()
    }
}



/// After merging branches, a binding tracked on the first branch is live exactly when it
/// is live on every branch that tracks it; a binding the first branch does not track
/// stays untracked.
pub proof fn law_merge_live_iff_live_on_all(bs: Seq<Map<DefId, WatchedView>>, k: DefId)
    requires
        bs.len() >= 1,
    ensures
        bs[0].contains_key(k) ==> (merge_watched_prefix(bs, bs.len() as int)[k].moved is None <==> forall|i: int|
            0 <= i < bs.len() && #[trigger] bs[i].contains_key(k) ==> bs[i][k].moved is None),
        !bs[0].contains_key(k) ==> !merge_watched_prefix(bs, bs.len() as int).contains_key(k),
{
    if bs[0].contains_key(k) {
        if exists|j: int| 0 <= j < bs.len() && #[trigger] bs[j].contains_key(k) && bs[j][k].moved is Some {
            let j = choose|j: int| 0 <= j < bs.len() && #[trigger] bs[j].contains_key(k) && bs[j][k].moved is Some;
            law_merge_watched(bs, j, k);
        } else {
            law_merge_watched(bs, 0, k);
        }
    } else {
        lemma_prefix_dom(bs, bs.len() as int);
    }
}

proof fn lemma_prefix_dom(bs: Seq<Map<DefId, WatchedView>>, n: int)
    requires
        1 <= n <= bs.len(),
    ensures
        merge_watched_prefix(bs, n).dom() == bs[0].dom(),
    decreases n,
{
    if n > 1 {
        lemma_prefix_dom(bs, n - 1);
        assert(merge_watched_prefix(bs, n).dom() =~= merge_watched_prefix(bs, n - 1).dom());
    }
}

} // verus!
