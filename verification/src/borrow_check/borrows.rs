//! The set of borrows taken so far, and the conflicts a new borrow or a move would cause.
use vstd::prelude::*;
use crate::hir::nodes::DefId;
use crate::lexer::token::Span;
use crate::borrow_check::regions::ScopeId;

verus! {

#[derive(Debug, Clone, Copy, PartialEq, Eq, Structural, Hash)]
pub struct BorrowId(pub u32);

#[derive(Debug, Clone, Copy, PartialEq, Eq, Structural)]
pub enum BorrowKind {
    Shared,
    Mutable,
}

#[derive(Debug, Clone, Copy)]
pub struct BorrowInfo {
    pub id: BorrowId,
    pub kind: BorrowKind,
    pub borrowed_place: DefId,
    pub borrower: DefId,
    pub created_span: Span,
    pub scope: ScopeId,
    pub last_use: Option<Span>,
    alive: bool,
}

/// Model of a [`BorrowInfo`], liveness included.
#[derive(Debug, Clone, Copy)]
pub struct BorrowInfoView {
    pub id: BorrowId,
    pub kind: BorrowKind,
    pub borrowed_place: DefId,
    pub borrower: DefId,
    pub created_span: Span,
    pub scope: ScopeId,
    pub last_use: Option<Span>,
    pub live: bool,
}

impl View for BorrowInfo {
    type V = BorrowInfoView;

    closed spec fn view(&self) -> BorrowInfoView {
        BorrowInfoView {
            id: self.id,
            kind: self.kind,
            borrowed_place: self.borrowed_place,
            borrower: self.borrower,
            created_span: self.created_span,
            scope: self.scope,
            last_use: self.last_use,
            live: self.alive,
        }
    }
}

impl BorrowInfo {
    /// The borrow's fields and liveness as one plain value: how verified code outside
    /// this module reads a borrow it was handed (the private liveness flag makes the
    /// struct's own fields unreadable there).
    pub fn fields(&self) -> (r: BorrowInfoView)
        ensures
            r == self@,
    {
        BorrowInfoView {
            id: self.id,
            kind: self.kind,
            borrowed_place: self.borrowed_place,
            borrower: self.borrower,
            created_span: self.created_span,
            scope: self.scope,
            last_use: self.last_use,
            live: self.alive,
        }
    }
}

/// The models of a list of borrows.
pub open spec fn infos_view(s: Seq<BorrowInfo>) -> Seq<BorrowInfoView> {
    s.map_values(|b: BorrowInfo| b@)
}

/// A live borrow whose last use starts before `point` starts.
pub open spec fn expired(b: BorrowInfoView, point: Span) -> bool {
    b.live && match b.last_use {
        Some(u) => u.start < point.start,
        None => false,
    }
}

/// A live borrow of `place`.
pub open spec fn active_for(b: BorrowInfoView, place: DefId) -> bool {
    b.live && b.borrowed_place == place
}

/// A live borrow of `place` that a new borrow of `kind` would conflict with:
/// any two borrows conflict unless both are shared.
pub open spec fn blocks(b: BorrowInfoView, kind: BorrowKind, place: DefId) -> bool {
    active_for(b, place) && !(kind == BorrowKind::Shared && b.kind == BorrowKind::Shared)
}

/// The live borrows of `place`, in creation order.
pub open spec fn active_of(s: Seq<BorrowInfoView>, place: DefId) -> Seq<BorrowInfoView>
    decreases s.len(),
{
    if s.len() == 0 {
        Seq::empty()
    } else if active_for(s.last(), place) {
        active_of(s.drop_last(), place).push(s.last())
    } else {
        active_of(s.drop_last(), place)
    }
}

/// The live borrows held by `borrower`, in creation order.
pub open spec fn held_by(s: Seq<BorrowInfoView>, borrower: DefId) -> Seq<BorrowInfoView>
    decreases s.len(),
{
    if s.len() == 0 {
        Seq::empty()
    } else if s.last().live && s.last().borrower == borrower {
        held_by(s.drop_last(), borrower).push(s.last())
    } else {
        held_by(s.drop_last(), borrower)
    }
}

/// Conflict information returned when a borrow check fails.
#[derive(Debug)]
pub struct BorrowConflict {
    pub existing: BorrowInfo,
    pub new_kind: BorrowKind,
}

#[derive(Debug)]
pub struct BorrowSet {
    borrows: Vec<BorrowInfo>,
    next_id: u32,
}

/// The plain references of a list of borrowed entries.
pub open spec fn derefs(v: Seq<&BorrowInfo>) -> Seq<BorrowInfoView> {
    v.map_values(|b: &BorrowInfo| b@)
}

proof fn lemma_items_update(v: Seq<BorrowInfo>, i: int, b: BorrowInfo)
    requires
        0 <= i < v.len(),
    ensures
        infos_view(v.update(i, b)) == infos_view(v).update(i, b@),
{
    assert(infos_view(v.update(i, b)) =~= infos_view(v).update(i, b@));
}

fn copy_infos(v: &Vec<BorrowInfo>) -> (r: Vec<BorrowInfo>)
    ensures
        r@ == v@,
{
    let mut r: Vec<BorrowInfo> = Vec::new();
    let mut i: usize = 0;
    while i < v.len()
        invariant
            i <= v@.len(),
            r@ == v@.take(i as int),
        decreases v@.len() - i,
    {
        r.push(v[i]);
        i = i + 1;
        proof { assert(r@ =~= v@.take(i as int)); }
    }
    proof { assert(v@.take(v@.len() as int) =~= v@); }
    r
}

impl BorrowSet {
    /// Every borrow created so far, in creation order.
    pub closed spec fn items(&self) -> Seq<BorrowInfoView> {
        infos_view(self.borrows@)
    }

    /// The id the next borrow will get.
    pub closed spec fn next(&self) -> u32 {
        self.next_id
    }

    pub fn new() -> (r: BorrowSet)
        ensures
            r.items() == Seq::<BorrowInfoView>::empty(),
            r.next() == 0,
    {
        BorrowSet { borrows: Vec::new(), next_id: 0 }
    }

    /// Records a new live borrow of `borrowed_place` and returns its id.
    pub fn create(
        &mut self,
        kind: BorrowKind,
        borrowed_place: DefId,
        borrower: DefId,
        span: Span,
        scope: ScopeId,
    ) -> (r: BorrowId)
        requires
            old(self).next() < u32::MAX,
        ensures
            r == BorrowId(old(self).next()),
            final(self).next() == old(self).next() + 1,
            final(self).items() == old(self).items().push(
                BorrowInfoView {
                    id: r,
                    kind,
                    borrowed_place,
                    borrower,
                    created_span: span,
                    scope,
                    last_use: None,
                    live: true,
                },
            ),
    {
        let id = BorrowId(self.next_id);
        self.next_id = self.next_id + 1;
        self.borrows.push(
            BorrowInfo {
                id,
                kind,
                borrowed_place,
                borrower,
                created_span: span,
                scope,
                last_use: None,
                alive: true,
            },
        );
        id
    }

    /// Records `span` as the latest use of the first borrow with id `id`, if there is one.
    pub fn record_use(&mut self, id: BorrowId, span: Span)
        ensures
            final(self).next() == old(self).next(),
            (forall|i: int| 0 <= i < old(self).items().len() ==> old(self).items()[i].id != id)
                ==> final(self).items() == old(self).items(),
            forall|i: int|
                0 <= i < old(self).items().len() && old(self).items()[i].id == id && (forall|j: int|
                    0 <= j < i ==> old(self).items()[j].id != id) ==> final(self).items()
                    == old(self).items().update(i, BorrowInfoView { last_use: Some(span), ..old(self).items()[i] }),
    {
        let mut i: usize = 0;
        while i < self.borrows.len()
            invariant
                i <= self.borrows@.len(),
                self.borrows@ == old(self).borrows@,
                self.next_id == old(self).next_id,
                forall|j: int| 0 <= j < i ==> self.borrows@[j].id != id,
            decreases self.borrows@.len() - i,
        {
            if self.borrows[i].id == id {
                let mut b = self.borrows[i];
                b.last_use = Some(span);
                self.borrows.set(i, b);
                proof {
                    assert(self.items() =~= old(self).items().update(
                        i as int,
                        BorrowInfoView { last_use: Some(span), ..old(self).items()[i as int] },
                    ));
                }
                return;
            }
            i = i + 1;
        }
    }

    /// Whether a new borrow of `place` with `kind` would conflict; on conflict,
    /// the first live borrow of `place` it conflicts with.
    pub fn check_new_borrow(&self, kind: BorrowKind, place: DefId) -> (r: Result<(), BorrowConflict>)
        ensures
            match r {
                Ok(()) => forall|i: int| 0 <= i < self.items().len() ==> !blocks(#[trigger] self.items()[i], kind, place),
                Err(c) => c.new_kind == kind && exists|i: int|
                    0 <= i < self.items().len() && blocks(self.items()[i], kind, place)
                        && c.existing@ == self.items()[i] && forall|j: int|
                        0 <= j < i ==> !blocks(#[trigger] self.items()[j], kind, place),
            },
    {
        let mut i: usize = 0;
        while i < self.borrows.len()
            invariant
                i <= self.borrows@.len(),
                forall|j: int| 0 <= j < i ==> !blocks(#[trigger] self.items()[j], kind, place),
            decreases self.borrows@.len() - i,
        {
            let b = self.borrows[i];
            if b.alive && b.borrowed_place == place {
                match (kind, b.kind) {
                    (BorrowKind::Shared, BorrowKind::Shared) => {},
                    _ => {
                        proof { assert(self.items()[i as int] == b@); }
                        return Err(BorrowConflict { existing: b, new_kind: kind });
                    },
                }
            }
            i = i + 1;
        }
        Ok(())
    }

    /// Whether moving `place` would conflict with a live borrow; on conflict, the first one.
    pub fn check_move(&self, place: DefId) -> (r: Result<(), BorrowConflict>)
        ensures
            match r {
                Ok(()) => forall|i: int| 0 <= i < self.items().len() ==> !active_for(#[trigger] self.items()[i], place),
                Err(c) => c.new_kind == BorrowKind::Mutable && exists|i: int|
                    0 <= i < self.items().len() && active_for(self.items()[i], place)
                        && c.existing@ == self.items()[i] && forall|j: int|
                        0 <= j < i ==> !active_for(#[trigger] self.items()[j], place),
            },
    {
        let mut i: usize = 0;
        while i < self.borrows.len()
            invariant
                i <= self.borrows@.len(),
                forall|j: int| 0 <= j < i ==> !active_for(#[trigger] self.items()[j], place),
            decreases self.borrows@.len() - i,
        {
            let b = self.borrows[i];
            if b.alive && b.borrowed_place == place {
                proof { assert(self.items()[i as int] == b@); }
                return Err(BorrowConflict { existing: b, new_kind: BorrowKind::Mutable });
            }
            i = i + 1;
        }
        Ok(())
    }

    /// Whether mutating `place` through its owner would conflict; the same rule as a move.
    pub fn check_mutation(&self, place: DefId) -> (r: Result<(), BorrowConflict>)
        ensures
            match r {
                Ok(()) => forall|i: int| 0 <= i < self.items().len() ==> !active_for(#[trigger] self.items()[i], place),
                Err(c) => c.new_kind == BorrowKind::Mutable && exists|i: int|
                    0 <= i < self.items().len() && active_for(self.items()[i], place)
                        && c.existing@ == self.items()[i] && forall|j: int|
                        0 <= j < i ==> !active_for(#[trigger] self.items()[j], place),
            },
    {
        self.check_move(place)
    }

    /// The live borrows of `place`, in creation order.
    pub fn active_borrows_of(&self, place: DefId) -> (r: Vec<&BorrowInfo>)
        ensures
            derefs(r@) == active_of(self.items(), place),
    {
        let mut r: Vec<&BorrowInfo> = Vec::new();
        let mut i: usize = 0;
        while i < self.borrows.len()
            invariant
                i <= self.borrows@.len(),
                derefs(r@) == active_of(self.items().take(i as int), place),
            decreases self.borrows@.len() - i,
        {
            let ghost before = r@;
            proof { assert(self.items().take(i + 1).drop_last() =~= self.items().take(i as int)); }
            let b = &self.borrows[i];
            if b.alive && b.borrowed_place == place {
                r.push(b);
                proof { assert(derefs(r@) =~= derefs(before).push(b@)); }
            }
            i = i + 1;
        }
        proof { assert(self.items().take(self.items().len() as int) =~= self.items()); }
        r
    }

    /// The live borrows held by `borrower`, in creation order.
    pub fn borrows_held_by(&self, borrower: DefId) -> (r: Vec<&BorrowInfo>)
        ensures
            derefs(r@) == held_by(self.items(), borrower),
    {
        let mut r: Vec<&BorrowInfo> = Vec::new();
        let mut i: usize = 0;
        while i < self.borrows.len()
            invariant
                i <= self.borrows@.len(),
                derefs(r@) == held_by(self.items().take(i as int), borrower),
            decreases self.borrows@.len() - i,
        {
            let ghost before = r@;
            proof { assert(self.items().take(i + 1).drop_last() =~= self.items().take(i as int)); }
            let b = &self.borrows[i];
            if b.alive && b.borrower == borrower {
                r.push(b);
                proof { assert(derefs(r@) =~= derefs(before).push(b@)); }
            }
            i = i + 1;
        }
        proof { assert(self.items().take(self.items().len() as int) =~= self.items()); }
        r
    }

    /// The number of borrows created so far, as a checkpoint for temporary borrows.
    pub fn checkpoint(&self) -> (r: usize)
        ensures
            r == self.items().len(),
    {
        self.borrows.len()
    }

    /// Kills every borrow created at or after `checkpoint`.
    pub fn kill_after_checkpoint(&mut self, checkpoint: usize)
        requires
            checkpoint <= old(self).items().len(),
        ensures
            final(self).next() == old(self).next(),
            final(self).items().len() == old(self).items().len(),
            forall|i: int|
                0 <= i < old(self).items().len() ==> #[trigger] final(self).items()[i] == if i
                    < checkpoint {
                    old(self).items()[i]
                } else {
                    BorrowInfoView { live: false, ..old(self).items()[i] }
                },
            forall|i: int|
                checkpoint <= i < final(self).items().len() ==> !(#[trigger] final(self).items()[i]).live,
    {
        let mut i = checkpoint;
        while i < self.borrows.len()
            invariant
                checkpoint <= i <= self.borrows@.len(),
                self.borrows@.len() == old(self).borrows@.len(),
                self.next_id == old(self).next_id,
                forall|j: int|
                    0 <= j < self.borrows@.len() ==> #[trigger] self.items()[j] == if j < checkpoint
                        || j >= i {
                        old(self).items()[j]
                    } else {
                        BorrowInfoView { live: false, ..old(self).items()[j] }
                    },
            decreases self.borrows@.len() - i,
        {
            proof { assert(self.items()[i as int] == old(self).items()[i as int]); }
            let mut b = self.borrows[i];
            b.alive = false;
            let ghost prev = self.borrows@;
            self.borrows.set(i, b);
            proof {
                lemma_items_update(prev, i as int, b);
                assert(b@ == BorrowInfoView { live: false, ..old(self).items()[i as int] });
            }
            i = i + 1;
        }
    }

    /// Kills every live borrow created in `scope`.
    pub fn kill_scope(&mut self, scope: ScopeId)
        ensures
            final(self).next() == old(self).next(),
            final(self).items().len() == old(self).items().len(),
            forall|i: int|
                0 <= i < old(self).items().len() ==> #[trigger] final(self).items()[i] == if old(
                    self,
                ).items()[i].live && old(self).items()[i].scope == scope {
                    BorrowInfoView { live: false, ..old(self).items()[i] }
                } else {
                    old(self).items()[i]
                },
            forall|i: int|
                0 <= i < final(self).items().len() && (#[trigger] final(self).items()[i]).scope == scope
                    ==> !final(self).items()[i].live,
            final(self).items() == scope_killed(old(self).items(), scope),
    {
        let mut i: usize = 0;
        while i < self.borrows.len()
            invariant
                i <= self.borrows@.len(),
                self.borrows@.len() == old(self).borrows@.len(),
                self.next_id == old(self).next_id,
                forall|j: int|
                    0 <= j < self.borrows@.len() ==> #[trigger] self.items()[j] == if j < i
                        && old(self).items()[j].live && old(self).items()[j].scope == scope {
                        BorrowInfoView { live: false, ..old(self).items()[j] }
                    } else {
                        old(self).items()[j]
                    },
            decreases self.borrows@.len() - i,
        {
            let mut b = self.borrows[i];
            if b.alive && b.scope == scope {
                b.alive = false;
                let ghost prev = self.borrows@;
                self.borrows.set(i, b);
                proof { lemma_items_update(prev, i as int, b); }
            }
            i = i + 1;
        }
    }

    /// Non-lexical lifetimes: kills every live borrow whose last use starts
    /// before `current_point` starts.
    pub fn expire_before(&mut self, current_point: Span)
        ensures
            final(self).next() == old(self).next(),
            final(self).items().len() == old(self).items().len(),
            forall|i: int|
                0 <= i < old(self).items().len() ==> #[trigger] final(self).items()[i] == if expired(
                    old(self).items()[i],
                    current_point,
                ) {
                    BorrowInfoView { live: false, ..old(self).items()[i] }
                } else {
                    old(self).items()[i]
                },
            final(self).items() == expired_items(old(self).items(), current_point),
    {
        let mut i: usize = 0;
        while i < self.borrows.len()
            invariant
                i <= self.borrows@.len(),
                self.borrows@.len() == old(self).borrows@.len(),
                self.next_id == old(self).next_id,
                forall|j: int|
                    0 <= j < self.borrows@.len() ==> #[trigger] self.items()[j] == if j < i
                        && expired(old(self).items()[j], current_point) {
                        BorrowInfoView { live: false, ..old(self).items()[j] }
                    } else {
                        old(self).items()[j]
                    },
            decreases self.borrows@.len() - i,
        {
            let mut b = self.borrows[i];
            if b.alive {
                match b.last_use {
                    Some(last_use) => {
                        if last_use.start < current_point.start {
                            b.alive = false;
                            let ghost prev = self.borrows@;
                            self.borrows.set(i, b);
                            proof { lemma_items_update(prev, i as int, b); }
                        }
                    },
                    None => {},
                }
            }
            i = i + 1;
        }
        proof { assert(self.items() =~= expired_items(old(self).items(), current_point)); }
    }

    /// A copy of the set, for analysing branches.
    pub fn snapshot(&self) -> (r: BorrowSet)
        ensures
            r.items() == self.items(),
            r.next() == self.next(),
    {
        BorrowSet { borrows: copy_infos(&self.borrows), next_id: self.next_id }
    }

    /// Puts back the borrows of `snapshot`; the id counter keeps its current value.
    pub fn restore(&mut self, snapshot: &BorrowSet)
        ensures
            final(self).items() == snapshot.items(),
            final(self).next() == old(self).next(),
    {
        self.borrows = copy_infos(&snapshot.borrows);
    }
}

/// Two shared borrows of a place never conflict.
pub proof fn law_shared_borrows_coexist(b: BorrowInfoView, place: DefId)
    requires
        b.kind == BorrowKind::Shared,
    ensures
        !blocks(b, BorrowKind::Shared, place),
{
}

/// A live mutable borrow of a place conflicts with every new borrow of it, and with moving
/// or mutating it; a live shared borrow conflicts with a new mutable borrow.
pub proof fn law_mutable_borrow_is_exclusive(b: BorrowInfoView, kind: BorrowKind, place: DefId)
    requires
        b.live,
        b.borrowed_place == place,
    ensures
        b.kind == BorrowKind::Mutable ==> blocks(b, kind, place),
        kind == BorrowKind::Mutable ==> blocks(b, kind, place),
        active_for(b, place),
{
}

/// A killed borrow conflicts with nothing.
pub proof fn law_dead_borrow_blocks_nothing(b: BorrowInfoView, kind: BorrowKind, place: DefId)
    requires
        !b.live,
    ensures
        !blocks(b, kind, place),
        !active_for(b, place),
        !expired(b, Span { start: 0, end: 0, line: 0, column: 0 }),
{
}

/// Every borrow listed carries an id below the counter of ids handed out.
pub open spec fn ids_below(items: Seq<BorrowInfoView>, next: u32) -> bool {
    forall|i: int| 0 <= i < items.len() ==> (#[trigger] items[i]).id.0 < next
}

/// A new borrow is live, shows in the list of live borrows of the place it borrows,
/// after those already there, and leaves the lists of every other place as they were.
/// Its id is none of the ids already listed, and the ids stay below the counter.
pub proof fn law_created_borrow_is_fresh_and_active(
    items: Seq<BorrowInfoView>,
    next: u32,
    b: BorrowInfoView,
    other: DefId,
)
    requires
        ids_below(items, next),
        next < u32::MAX,
        b.id == BorrowId(next),
        b.live,
    ensures
        forall|i: int| 0 <= i < items.len() ==> #[trigger] items[i].id != b.id,
        ids_below(items.push(b), (next + 1) as u32),
        active_of(items.push(b), b.borrowed_place) == active_of(items, b.borrowed_place).push(b),
        other != b.borrowed_place ==> active_of(items.push(b), other) == active_of(items, other),
{
    assert(items.push(b).drop_last() =~= items);
    assert forall|i: int| 0 <= i < items.push(b).len() implies (#[trigger] items.push(b)[i]).id.0 < (next + 1) as u32 by {
        if i < items.len() {
            assert(items.push(b)[i] == items[i]);
        }
    }
}

/// Putting back a snapshot taken earlier keeps the ids below the counter, which never
/// goes back: a borrow created after the restore gets an id that no listed borrow has.
pub proof fn law_restore_keeps_ids_fresh(snap_items: Seq<BorrowInfoView>, snap_next: u32, next: u32)
    requires
        ids_below(snap_items, snap_next),
        snap_next <= next,
    ensures
        ids_below(snap_items, next),
{
}

/// The live borrows of a place, as `active_borrows_of` lists them, are the ones `check_move`
/// and `check_mutation` look at: the list is empty exactly when no live borrow of the place
/// exists, and its first element is the first such borrow in creation order (the one they
/// report). For a new mutable borrow, the borrow `check_new_borrow` reports is that same one.
pub proof fn law_active_list_head(items: Seq<BorrowInfoView>, place: DefId)
    ensures
        active_of(items, place).len() > 0 <==> exists|i: int| 0 <= i < items.len() && active_for(items[i], place),
        forall|i: int|
            0 <= i < items.len() && active_for(#[trigger] items[i], place) && (forall|j: int| 0 <= j < i ==> !active_for(items[j], place))
                ==> active_of(items, place)[0] == items[i],
        forall|i: int| 0 <= i < items.len() ==> (blocks(#[trigger] items[i], BorrowKind::Mutable, place) == active_for(items[i], place)),
    decreases items.len(),
{
    if items.len() > 0 {
        let init = items.drop_last();
        law_active_list_head(init, place);
        assert forall|i: int| 0 <= i < init.len() implies init[i] == items[i] by {}
        if exists|i: int| 0 <= i < init.len() && active_for(init[i], place) {
            let w = choose|i: int| 0 <= i < init.len() && active_for(init[i], place);
            assert(items[w] == init[w]);
        }
        assert forall|i: int|
            0 <= i < items.len() && active_for(#[trigger] items[i], place) && (forall|j: int| 0 <= j < i ==> !active_for(items[j], place))
            implies active_of(items, place)[0] == items[i] by {
            if i < items.len() - 1 {
                assert(init[i] == items[i]);
                assert(forall|j: int| 0 <= j < i ==> !active_for(init[j], place));
            } else {
                assert(forall|j: int| 0 <= j < init.len() ==> !active_for(#[trigger] init[j], place)) by {
                    assert forall|j: int| 0 <= j < init.len() implies !active_for(#[trigger] init[j], place) by {
                        assert(init[j] == items[j]);
                    }
                }
                assert(active_of(init, place).len() == 0);
            }
        }
    }
}

/// The borrows after `kill_scope(scope)`: the live ones made in `scope` die.
pub open spec fn scope_killed(items: Seq<BorrowInfoView>, scope: ScopeId) -> Seq<BorrowInfoView> {
    Seq::new(items.len(), |i: int| if items[i].live && items[i].scope == scope {
        BorrowInfoView { live: false, ..items[i] }
    } else {
        items[i]
    })
}

/// Killing a scope removes from each place's list of live borrows exactly those made in
/// that scope, keeping the order of the rest.
pub proof fn law_kill_scope_filters_active(items: Seq<BorrowInfoView>, scope: ScopeId, place: DefId)
    ensures
        active_of(scope_killed(items, scope), place) == active_of(items, place).filter(|b: BorrowInfoView| b.scope != scope),
    decreases items.len(),
{
    reveal(Seq::filter);
    let pred = |b: BorrowInfoView| b.scope != scope;
    if items.len() == 0 {
        assert(active_of(items, place).len() == 0);
        assert(active_of(items, place).filter(pred) =~= Seq::<BorrowInfoView>::empty());
    } else {
        let init = items.drop_last();
        law_kill_scope_filters_active(init, scope, place);
        let k = scope_killed(items, scope);
        assert(k.drop_last() =~= scope_killed(init, scope));
        let a = active_of(init, place);
        if active_for(items.last(), place) {
            assert(active_of(items, place) == a.push(items.last()));
            assert(a.push(items.last()).drop_last() =~= a);
        } else {
            assert(active_of(items, place) == a);
        }
    }
}

/// The borrows after `expire_before(point)`: the live ones last used before `point` die.
pub open spec fn expired_items(items: Seq<BorrowInfoView>, point: Span) -> Seq<BorrowInfoView> {
    Seq::new(items.len(), |i: int| if expired(items[i], point) {
        BorrowInfoView { live: false, ..items[i] }
    } else {
        items[i]
    })
}

/// A borrow last used before `point`.
pub open spec fn used_before(b: BorrowInfoView, point: Span) -> bool {
    match b.last_use {
        Some(u) => u.start < point.start,
        None => false,
    }
}

/// Expiring at a point removes from each place's list of live borrows exactly those last
/// used before it, keeping the order of the rest; a borrow never used stays.
pub proof fn law_expire_filters_active(items: Seq<BorrowInfoView>, point: Span, place: DefId)
    ensures
        active_of(expired_items(items, point), place) == active_of(items, place).filter(|b: BorrowInfoView| !used_before(b, point)),
    decreases items.len(),
{
    reveal(Seq::filter);
    let pred = |b: BorrowInfoView| !used_before(b, point);
    if items.len() == 0 {
        assert(active_of(items, place).len() == 0);
        assert(active_of(items, place).filter(pred) =~= Seq::<BorrowInfoView>::empty());
    } else {
        let init = items.drop_last();
        law_expire_filters_active(init, point, place);
        let k = expired_items(items, point);
        assert(k.drop_last() =~= expired_items(init, point));
        let a = active_of(init, place);
        if active_for(items.last(), place) {
            assert(active_of(items, place) == a.push(items.last()));
            assert(a.push(items.last()).drop_last() =~= a);
        } else {
            assert(active_of(items, place) == a);
        }
    }
}

/// The live borrows of a place, as `active_borrows_of` lists them, are exactly the live
/// borrows of that place.
pub proof fn lemma_active_of_members(items: Seq<BorrowInfoView>, place: DefId)
    ensures
        forall|b: BorrowInfoView| active_of(items, place).contains(b) <==> exists|i: int| 0 <= i < items.len() && items[i] == b && active_for(b, place),
    decreases items.len(),
{
    if items.len() > 0 {
        let init = items.drop_last();
        lemma_active_of_members(init, place);
        let a = active_of(init, place);
        assert forall|b: BorrowInfoView| active_of(items, place).contains(b) <==> exists|i: int| 0 <= i < items.len() && items[i] == b && active_for(b, place) by {
            if active_of(items, place).contains(b) {
                let r = active_of(items, place);
                let w = choose|j: int| 0 <= j < r.len() && r[j] == b;
                if active_for(items.last(), place) && w == r.len() - 1 {
                    assert(items[items.len() - 1] == b);
                } else {
                    assert(r[w] == a[w]);
                    assert(a.contains(b));
                    let k = choose|i: int| 0 <= i < init.len() && init[i] == b && active_for(b, place);
                    assert(items[k] == b);
                }
            }
            if exists|i: int| 0 <= i < items.len() && items[i] == b && active_for(b, place) {
                let k = choose|i: int| 0 <= i < items.len() && items[i] == b && active_for(b, place);
                if k == items.len() - 1 {
                    let r = active_of(items, place);
                    assert(r[r.len() - 1] == b);
                } else {
                    assert(init[k] == b);
                    assert(a.contains(b));
                    let w = choose|j: int| 0 <= j < a.len() && a[j] == b;
                    if active_for(items.last(), place) {
                        assert(active_of(items, place)[w] == b);
                    }
                }
            }
        }
    }
}

/// A new borrow of `place` conflicts exactly when some live borrow of `place`, as
/// `active_borrows_of` lists them, is mutable or the new borrow is: shared borrows
/// coexist, a mutable one excludes every other.
pub proof fn law_new_borrow_conflicts_iff(items: Seq<BorrowInfoView>, kind: BorrowKind, place: DefId)
    ensures
        (exists|i: int| 0 <= i < items.len() && blocks(#[trigger] items[i], kind, place))
            <==> (exists|j: int| 0 <= j < active_of(items, place).len()
                && !(kind == BorrowKind::Shared && (#[trigger] active_of(items, place)[j]).kind == BorrowKind::Shared)),
{
    lemma_active_of_members(items, place);
    let a = active_of(items, place);
    if exists|i: int| 0 <= i < items.len() && blocks(#[trigger] items[i], kind, place) {
        let i = choose|i: int| 0 <= i < items.len() && blocks(#[trigger] items[i], kind, place);
        assert(a.contains(items[i]));
        let j = choose|j: int| 0 <= j < a.len() && a[j] == items[i];
        assert(!(kind == BorrowKind::Shared && a[j].kind == BorrowKind::Shared));
    }
    if exists|j: int| 0 <= j < a.len() && !(kind == BorrowKind::Shared && (#[trigger] a[j]).kind == BorrowKind::Shared) {
        let j = choose|j: int| 0 <= j < a.len() && !(kind == BorrowKind::Shared && (#[trigger] a[j]).kind == BorrowKind::Shared);
        assert(a.contains(a[j]));
        let i = choose|i: int| 0 <= i < items.len() && items[i] == a[j] && active_for(a[j], place);
        assert(blocks(items[i], kind, place));
    }
}

impl Default for BorrowSet {
    fn default() -> (r: BorrowSet)
        ensures
            r.items() == Seq::<BorrowInfoView>::empty(),
            r.next() == 0,
    {
        BorrowSet::new()
    }
}

} // verus!
