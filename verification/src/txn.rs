use vstd::prelude::*;

use crate::store::{Store, StoreModel};

verus! {

/// One connection's transactional state: the live store plus a stack of
/// savepoints. Depth zero is an idle connection; each open transaction or
/// nested savepoint pushes the store state seen at its start.
pub struct Session {
    pub store: Store,
    pub savepoints: Vec<Store>,
}

/// Mathematical abstraction of a `Session`.
pub struct SessionModel {
    pub store: StoreModel,
    pub stack: Seq<StoreModel>,
}

impl View for Session {
    type V = SessionModel;

    open spec fn view(&self) -> SessionModel {
        SessionModel { store: self.store@, stack: self.savepoints@.map(|i: int, s: Store| s@) }
    }
}

/// Opening a transaction (or a savepoint, when one is already open)
/// remembers the store as it stands.
pub open spec fn after_begin(v: SessionModel) -> SessionModel {
    SessionModel { store: v.store, stack: v.stack.push(v.store) }
}

/// Any run of writes inside the innermost transaction touches the live
/// store alone.
pub open spec fn after_write(v: SessionModel, s: StoreModel) -> SessionModel {
    SessionModel { store: s, stack: v.stack }
}

/// Committing keeps the writes and forgets the innermost savepoint.
pub open spec fn after_commit(v: SessionModel) -> SessionModel {
    SessionModel { store: v.store, stack: v.stack.drop_last() }
}

/// Rolling back restores the store remembered by the innermost savepoint.
pub open spec fn after_rollback(v: SessionModel) -> SessionModel {
    SessionModel { store: v.stack.last(), stack: v.stack.drop_last() }
}

impl Session {
    /// A fresh, idle session over the given store.
    pub fn new(store: Store) -> (r: Session)
        ensures
            r@.store == store@,
            r@.stack =~= Seq::<StoreModel>::empty(),
    {
        Session { store, savepoints: Vec::new() }
    }

    /// How many transactions (outermost plus savepoints) are open.
    pub fn depth(&self) -> (r: usize)
        ensures
            r == self@.stack.len(),
    {
        self.savepoints.len()
    }

    /// Opens a transaction; nested, it opens a savepoint.
    pub fn begin(&mut self)
        ensures
            final(self)@ == after_begin(old(self)@),
    {
        let snapshot = self.store.duplicate();
        self.savepoints.push(snapshot);
        proof {
            assert(final(self)@.stack =~= after_begin(old(self)@).stack);
        }
    }

    /// Commits the innermost transaction: its writes stay.
    pub fn commit(&mut self)
        requires
            old(self)@.stack.len() > 0,
        ensures
            final(self)@ == after_commit(old(self)@),
    {
        let _ = self.savepoints.pop();
        proof {
            assert(final(self)@.stack =~= after_commit(old(self)@).stack);
        }
    }

    /// Rolls the innermost transaction back: every write since its start is
    /// discarded and the store stands as it did then.
    pub fn rollback(&mut self)
        requires
            old(self)@.stack.len() > 0,
        ensures
            final(self)@ == after_rollback(old(self)@),
    {
        let snapshot = self.savepoints.pop().unwrap();
        self.store = snapshot;
        proof {
            assert(final(self)@.stack =~= after_rollback(old(self)@).stack);
        }
    }
}

/// Law: a transaction whose body fails leaves no trace. Whatever the body
/// wrote, rolling back restores the state at `begin`, stack included.
pub proof fn lemma_rollback_discards_writes(v: SessionModel, writes: StoreModel)
    ensures
        after_rollback(after_write(after_begin(v), writes)) == v,
{
    assert(v.stack.push(v.store).drop_last() =~= v.stack);
}

/// Law: with a savepoint nested in an outer transaction, rolling the inner
/// one back undoes only the inner writes, and a later outer commit keeps
/// the outer writes.
pub proof fn lemma_nested_rollback_then_outer_commit(
    v: SessionModel,
    outer1: StoreModel,
    inner: StoreModel,
    outer2: StoreModel,
)
    ensures
        ({
            let opened = after_write(after_begin(v), outer1);
            let nested = after_write(after_begin(opened), inner);
            let rolled = after_rollback(nested);
            &&& rolled.store == outer1
            &&& after_commit(after_write(rolled, outer2)) == (SessionModel {
                store: outer2,
                stack: v.stack,
            })
        }),
{
    let opened = after_write(after_begin(v), outer1);
    assert(opened.stack.push(outer1).drop_last() =~= opened.stack);
    assert(v.stack.push(v.store).drop_last() =~= v.stack);
}

/// Scoped execution of a body within a transaction: the body takes the
/// store, writes as it pleases, and returns it with its verdict. Success
/// commits; any error, the caller's own error type included, rolls every
/// write of the body back.
pub fn run_in_transaction<T, E, F: FnOnce(Store) -> (Store, Result<T, E>)>(
    store: Store,
    body: F,
) -> (r: (Store, Result<T, E>))
    requires
        call_requires(body, (store,)),
    ensures
        r.1 is Err ==> r.0@ == store@,
        r.1 is Ok ==> call_ensures(body, (store,), r),
        r.1 is Err ==> exists|mid: Store|
            call_ensures(body, (store,), (mid, Result::<T, E>::Err(r.1->Err_0))),
{
    let snapshot = store.duplicate();
    let (after, verdict) = body(store);
    match verdict {
        Ok(t) => (after, Ok(t)),
        Err(e) => (snapshot, Err(e)),
    }
}

} // verus!
