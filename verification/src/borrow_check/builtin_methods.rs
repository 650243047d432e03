//! What the borrow-check pass does with the methods it knows by name.
use vstd::prelude::*;
use crate::borrow_check::borrows::{active_for, BorrowInfoView};
use crate::borrow_check::checker::{first_active, is_mutating_name, receiver_effect, CheckState};
use crate::borrow_check::errors::ErrorCode;
use crate::hir::nodes::DefId;
use crate::hir::types::TyView;
use crate::lexer::token::Span;
use crate::resolve::symbols::Definition;

verus! {

/// The built-in methods that change their receiver.
pub open spec fn builtin_mutators() -> Seq<Seq<char>> {
    seq![
        "push"@, "pop"@, "insert"@, "remove"@, "clear"@, "sort"@, "reverse"@, "push_str"@, "truncate"@,
        "extend"@, "retain"@, "drain"@, "iter_mut"@, "set"@,
    ]
}

proof fn lemma_first_active_some(items: Seq<BorrowInfoView>, place: DefId, i: int)
    requires
        0 <= i < items.len(),
        active_for(items[i], place),
    ensures
        first_active(items, place) is Some,
    decreases i,
{
    if exists|j: int| 0 <= j < i && active_for(items[j], place) {
        let j = choose|j: int| 0 <= j < i && active_for(items[j], place);
        lemma_first_active_some(items, place, j);
    } else {
        assert(forall|j: int| 0 <= j < i ==> !active_for(#[trigger] items[j], place));
    }
}

/// Calling a built-in mutating method (one the symbol table does not know, such as `push`
/// or `clear`) on a place that has a live borrow reports exactly one error, an E1002 at
/// the call, and creates or moves nothing.
pub proof fn law_builtin_mutation_of_borrowed_place_reported(
    st: CheckState,
    syms: Seq<Definition>,
    obj: DefId,
    obj_ty: TyView,
    method: DefId,
    k: int,
    b: int,
    span: Span,
)
    requires
        method as int >= syms.len(),
        0 <= k < builtin_mutators().len(),
        0 <= b < st.items.len(),
        active_for(st.items[b], obj),
    ensures
        ({
            let r = receiver_effect(st, syms, obj, obj_ty, method, builtin_mutators()[k], span);
            &&& r.errors.len() == st.errors.len() + 1
            &&& r.errors.last().code == ErrorCode::E1002
            &&& r.errors.last().primary.span == span
            &&& r.items == st.items
            &&& r.moves == st.moves
        }),
{
    reveal_strlit("iter");
    reveal_strlit("into_iter");
    reveal_strlit("push");
    reveal_strlit("pop");
    reveal_strlit("insert");
    reveal_strlit("remove");
    reveal_strlit("clear");
    reveal_strlit("sort");
    reveal_strlit("reverse");
    reveal_strlit("push_str");
    reveal_strlit("truncate");
    reveal_strlit("extend");
    reveal_strlit("retain");
    reveal_strlit("drain");
    reveal_strlit("iter_mut");
    reveal_strlit("set");
    let n = builtin_mutators()[k];
    assert(is_mutating_name(n));
    assert(n.len() != 4 || n[0] != 'i');
    assert(n.len() != 9);
    assert(n != "iter"@);
    assert(n != "into_iter"@);
    lemma_first_active_some(st.items, obj, b);
}

/// The names the pass treats as mutating, for methods the symbol table does not know, are
/// exactly the built-in mutators.
pub proof fn law_mutating_names_are_the_builtin_mutators(n: Seq<char>)
    ensures
        is_mutating_name(n) <==> builtin_mutators().contains(n),
{
    let l = builtin_mutators();
    if is_mutating_name(n) {
        if n == "push"@ { assert(l[0] == n); }
        else if n == "pop"@ { assert(l[1] == n); }
        else if n == "insert"@ { assert(l[2] == n); }
        else if n == "remove"@ { assert(l[3] == n); }
        else if n == "clear"@ { assert(l[4] == n); }
        else if n == "sort"@ { assert(l[5] == n); }
        else if n == "reverse"@ { assert(l[6] == n); }
        else if n == "push_str"@ { assert(l[7] == n); }
        else if n == "truncate"@ { assert(l[8] == n); }
        else if n == "extend"@ { assert(l[9] == n); }
        else if n == "retain"@ { assert(l[10] == n); }
        else if n == "drain"@ { assert(l[11] == n); }
        else if n == "iter_mut"@ { assert(l[12] == n); }
        else { assert(l[13] == n); }
    }
    if l.contains(n) {
        let k = choose|k: int| 0 <= k < l.len() && l[k] == n;
        assert(is_mutating_name(l[k]));
    }
}

} // verus!
