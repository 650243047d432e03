//! Lexical scopes: a tree of scopes and the stack of those currently open.
use vstd::prelude::*;
use crate::hir::nodes::DefId;

verus! {

#[derive(Debug, Clone, Copy, PartialEq, Eq, Structural, Hash)]
pub struct ScopeId(pub u32);

#[derive(Debug, Clone, Copy, PartialEq, Eq, Structural)]
pub enum ScopeKind {
    Function,
    Block,
    Loop,
    IfBranch,
    MatchArm,
    Closure,
}

#[derive(Debug)]
struct Scope {
    _id: ScopeId,
    parent: Option<ScopeId>,
    kind: ScopeKind,
    bindings: Vec<DefId>,
}

/// All scopes ever opened (scope `i` has id `i`), and the stack of open ones.
#[derive(Debug)]
pub struct ScopeStack {
    scopes: Vec<Scope>,
    stack: Vec<ScopeId>,
    next_id: u32,
}

impl ScopeStack {
    /// The number of scopes opened so far.
    pub closed spec fn count(&self) -> nat {
        self.scopes@.len()
    }

    /// The open scopes, innermost last.
    pub closed spec fn open_scopes(&self) -> Seq<ScopeId> {
        self.stack@
    }

    /// The scope that was innermost when scope `i` was opened.
    pub closed spec fn parent_spec(&self, i: int) -> Option<ScopeId> {
        self.scopes@[i].parent
    }

    pub closed spec fn kind_spec(&self, i: int) -> ScopeKind {
        self.scopes@[i].kind
    }

    /// The bindings registered in scope `i`, in declaration order.
    pub closed spec fn bindings_spec(&self, i: int) -> Seq<DefId> {
        self.scopes@[i].bindings@
    }

    #[verifier::type_invariant]
    spec fn wf(&self) -> bool {
        &&& self.scopes@.len() == self.next_id
        &&& forall|i: int| 0 <= i < self.scopes@.len() ==> {
            &&& (#[trigger] self.scopes@[i])._id == ScopeId(i as u32)
            &&& (self.scopes@[i].parent matches Some(p) ==> p.0 < i)
        }
        &&& forall|j: int| 0 <= j < self.stack@.len() ==> (#[trigger] self.stack@[j]).0 < self.scopes@.len()
    }

    pub fn new() -> (r: ScopeStack)
        ensures
            r.count() == 0,
            r.open_scopes() == Seq::<ScopeId>::empty(),
    {
        ScopeStack { scopes: Vec::new(), stack: Vec::new(), next_id: 0 }
    }

    /// Opens a new scope of `kind` inside the current one.
    pub fn push(&mut self, kind: ScopeKind) -> (r: ScopeId)
        requires
            old(self).count() < u32::MAX,
        ensures
            r == ScopeId(old(self).count() as u32),
            final(self).count() == old(self).count() + 1,
            final(self).open_scopes() == old(self).open_scopes().push(r),
            final(self).parent_spec(r.0 as int) == (if old(self).open_scopes().len() > 0 {
                Some(old(self).open_scopes().last())
            } else {
                None
            }),
            final(self).kind_spec(r.0 as int) == kind,
            final(self).bindings_spec(r.0 as int) == Seq::<DefId>::empty(),
            forall|i: int|
                0 <= i < old(self).count() ==> {
                    &&& final(self).parent_spec(i) == old(self).parent_spec(i)
                    &&& final(self).kind_spec(i) == old(self).kind_spec(i)
                    &&& final(self).bindings_spec(i) == old(self).bindings_spec(i)
                },
    {
        let mut st = ScopeStack::new();
        std::mem::swap(self, &mut st);
        proof { use_type_invariant(&st); }
        let ScopeStack { mut scopes, mut stack, next_id } = st;
        let id = ScopeId(next_id);
        let parent = if stack.len() > 0 {
            Some(stack[stack.len() - 1])
        } else {
            None
        };
        scopes.push(Scope { _id: id, parent, kind, bindings: Vec::new() });
        stack.push(id);
        *self = ScopeStack { scopes, stack, next_id: next_id + 1 };
        id
    }

    /// Closes the innermost open scope and returns it.
    pub fn pop(&mut self) -> (r: ScopeId)
        requires
            old(self).open_scopes().len() > 0,
        ensures
            r == old(self).open_scopes().last(),
            final(self).open_scopes() == old(self).open_scopes().drop_last(),
            final(self).count() == old(self).count(),
            forall|i: int|
                0 <= i < old(self).count() ==> {
                    &&& final(self).parent_spec(i) == old(self).parent_spec(i)
                    &&& final(self).kind_spec(i) == old(self).kind_spec(i)
                    &&& final(self).bindings_spec(i) == old(self).bindings_spec(i)
                },
    {
        let mut st = ScopeStack::new();
        std::mem::swap(self, &mut st);
        proof { use_type_invariant(&st); }
        let ScopeStack { scopes, mut stack, next_id } = st;
        let top = stack.pop();
        *self = ScopeStack { scopes, stack, next_id };
        match top {
            Some(id) => id,
            None => ScopeId(0),
        }
    }

    /// The innermost open scope.
    pub fn current(&self) -> (r: ScopeId)
        requires
            self.open_scopes().len() > 0,
        ensures
            r == self.open_scopes().last(),
            r.0 < self.count(),
    {
        proof { use_type_invariant(self); }
        self.stack[self.stack.len() - 1]
    }

    /// The kind of the innermost open scope.
    pub fn current_kind(&self) -> (r: ScopeKind)
        requires
            self.open_scopes().len() > 0,
        ensures
            r == self.kind_spec(self.open_scopes().last().0 as int),
    {
        proof { use_type_invariant(self); }
        let id = self.current();
        self.scopes[id.0 as usize].kind
    }

    /// The scope that was innermost when `id` was opened.
    pub fn parent_of(&self, id: ScopeId) -> (r: Option<ScopeId>)
        requires
            id.0 < self.count(),
        ensures
            r == self.parent_spec(id.0 as int),
            r matches Some(p) ==> p.0 < id.0,
    {
        proof { use_type_invariant(self); }
        self.scopes[id.0 as usize].parent
    }

    /// Whether `outer` is `inner` or one of its ancestors.
    pub fn scope_contains(&self, outer: ScopeId, inner: ScopeId) -> (r: bool)
        requires
            outer == inner || inner.0 < self.count(),
        ensures
            r == self.encloses(outer, inner.0 as int),
    {
        proof { use_type_invariant(self); }
        if outer == inner {
            return true;
        }
        let mut current = inner;
        loop
            invariant
                current.0 < self.scopes@.len(),
                self.wf(),
                self.encloses(outer, inner.0 as int) == self.encloses(outer, current.0 as int),
                outer != current,
            decreases current.0,
        {
            match self.parent_of(current) {
                Some(parent) => {
                    proof {
                        assert(self.encloses(outer, current.0 as int) == self.encloses(outer, parent.0 as int));
                    }
                    if parent == outer {
                        proof { assert(self.encloses(outer, parent.0 as int)); }
                        return true;
                    }
                    current = parent;
                },
                None => {
                    return false;
                },
            }
        }
    }

    /// `outer` is scope `i` or one of its ancestors: `i` itself, its parent, its
    /// parent's parent, and so on up the chain of `parent_spec`.
    pub open spec fn encloses(&self, outer: ScopeId, i: int) -> bool
        decreases i,
    {
        if outer.0 == i {
            true
        } else if 0 <= i < self.count() {
            match self.parent_spec(i) {
                Some(p) => if p.0 < i { self.encloses(outer, p.0 as int) } else { false },
                None => false,
            }
        } else {
            false
        }
    }

    /// Records `def_id` as declared in the innermost open scope.
    pub fn register_binding(&mut self, def_id: DefId)
        requires
            old(self).open_scopes().len() > 0,
        ensures
            final(self).count() == old(self).count(),
            final(self).open_scopes() == old(self).open_scopes(),
            ({
                let c = old(self).open_scopes().last().0 as int;
                forall|i: int|
                    0 <= i < old(self).count() ==> {
                        &&& final(self).parent_spec(i) == old(self).parent_spec(i)
                        &&& final(self).kind_spec(i) == old(self).kind_spec(i)
                        &&& final(self).bindings_spec(i) == if i == c {
                            old(self).bindings_spec(i).push(def_id)
                        } else {
                            old(self).bindings_spec(i)
                        }
                    }
            }),
    {
        let current = self.current();
        let i = current.0 as usize;
        let mut st = ScopeStack::new();
        std::mem::swap(self, &mut st);
        proof { use_type_invariant(&st); }
        let ScopeStack { mut scopes, stack, next_id } = st;
        let ghost before = scopes@;
        scopes[i].bindings.push(def_id);
        proof {
            assert forall|k: int| 0 <= k < scopes@.len() implies {
                &&& (#[trigger] scopes@[k])._id == before[k]._id
                &&& scopes@[k].parent == before[k].parent
            } by {}
        }
        *self = ScopeStack { scopes, stack, next_id };
    }

    /// The bindings registered in scope `id`, in declaration order.
    pub fn bindings_in(&self, id: ScopeId) -> (r: &[DefId])
        requires
            id.0 < self.count(),
        ensures
            r@ == self.bindings_spec(id.0 as int),
    {
        self.scopes[id.0 as usize].bindings.as_slice()
    }

    /// The bindings of the innermost open scope in reverse declaration order (drop order).
    pub fn drop_order_for_current(&self) -> (r: Vec<DefId>)
        requires
            self.open_scopes().len() > 0,
        ensures
            r@ == self.bindings_spec(self.open_scopes().last().0 as int).reverse(),
    {
        proof { use_type_invariant(self); }
        let id = self.current();
        let b = &self.scopes[id.0 as usize].bindings;
        let mut r: Vec<DefId> = Vec::new();
        let mut k = b.len();
        while k > 0
            invariant
                k <= b@.len(),
                r@ == b@.subrange(k as int, b@.len() as int).reverse(),
            decreases k,
        {
            k = k - 1;
            r.push(b[k]);
            proof {
                assert(r@ =~= b@.subrange(k as int, b@.len() as int).reverse());
            }
        }
        proof { assert(b@.subrange(0, b@.len() as int) =~= b@); }
        r
    }

    /// Whether some open scope is a loop.
    pub fn is_in_loop(&self) -> (r: bool)
        ensures
            r == exists|j: int|
                0 <= j < self.open_scopes().len() && self.kind_spec(
                    (#[trigger] self.open_scopes()[j]).0 as int,
                ) == ScopeKind::Loop,
    {
        proof { use_type_invariant(self); }
        let mut k = self.stack.len();
        while k > 0
            invariant
                k <= self.stack@.len(),
                self.wf(),
                forall|j: int|
                    k <= j < self.stack@.len() ==> self.kind_spec((#[trigger] self.stack@[j]).0 as int)
                        != ScopeKind::Loop,
            decreases k,
        {
            k = k - 1;
            let id = self.stack[k];
            if self.scopes[id.0 as usize].kind == ScopeKind::Loop {
                return true;
            }
        }
        false
    }

    /// The innermost open scope that is a function, if any.
    pub fn enclosing_function(&self) -> (r: Option<ScopeId>)
        ensures
            match r {
                Some(id) => exists|j: int|
                    0 <= j < self.open_scopes().len() && self.open_scopes()[j] == id && self.kind_spec(
                        id.0 as int,
                    ) == ScopeKind::Function && forall|k: int|
                        j < k < self.open_scopes().len() ==> self.kind_spec(
                            (#[trigger] self.open_scopes()[k]).0 as int,
                        ) != ScopeKind::Function,
                None => forall|j: int|
                    0 <= j < self.open_scopes().len() ==> self.kind_spec(
                        (#[trigger] self.open_scopes()[j]).0 as int,
                    ) != ScopeKind::Function,
            },
    {
        proof { use_type_invariant(self); }
        let mut k = self.stack.len();
        while k > 0
            invariant
                k <= self.stack@.len(),
                self.wf(),
                forall|j: int|
                    k <= j < self.stack@.len() ==> self.kind_spec((#[trigger] self.stack@[j]).0 as int)
                        != ScopeKind::Function,
            decreases k,
        {
            k = k - 1;
            let id = self.stack[k];
            if self.scopes[id.0 as usize].kind == ScopeKind::Function {
                return Some(id);
            }
        }
        None
    }
}

/// Containment of scopes is reflexive and transitive.
pub proof fn law_encloses_transitive(st: &ScopeStack, a: ScopeId, b: ScopeId, c: ScopeId)
    requires
        st.encloses(a, b.0 as int),
        st.encloses(b, c.0 as int),
    ensures
        st.encloses(a, c.0 as int),
        st.encloses(c, c.0 as int),
    decreases c.0,
{
    if b.0 != c.0 {
        let i = c.0 as int;
        match st.scopes@[i].parent {
            Some(p) => {
                law_encloses_transitive(st, a, b, p);
            },
            None => {},
        }
    }
}

/// Closing a scope right after opening one gives back that scope and the open
/// scopes as they were.
pub proof fn law_push_then_pop(open: Seq<ScopeId>, id: ScopeId)
    ensures
        open.push(id).last() == id,
        open.push(id).drop_last() == open,
{
    assert(open.push(id).drop_last() =~= open);
}

impl Default for ScopeStack {
    fn default() -> (r: ScopeStack)
        ensures
            r.count() == 0,
            r.open_scopes() == Seq::<ScopeId>::empty(),
    {
        ScopeStack::new()
    }
}

} // verus!
