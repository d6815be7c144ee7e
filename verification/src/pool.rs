use vstd::prelude::*;

use crate::RepoError;

verus! {

/// A checked-out connection handle. At most one in-flight operation holds
/// it, and it goes back to its pool when the operation is done.
#[derive(Debug)]
pub struct Connection {}

/// A bounded pool of reusable backend connections. The capacity is fixed at
/// construction; `available` counts the connections not checked out.
#[derive(Debug)]
pub struct Pool {
    pub capacity: u32,
    pub available: u32,
}

impl Pool {
    /// Pool invariant: never more connections at rest than the bound.
    pub open spec fn wf(&self) -> bool {
        self.available <= self.capacity
    }

    /// Checks a connection out, or reports the pool empty. It never
    /// fabricates a connection past the bound.
    pub fn acquire(&mut self) -> (r: Result<Connection, RepoError>)
        requires
            old(self).wf(),
        ensures
            final(self).wf(),
            final(self).capacity == old(self).capacity,
            old(self).available == 0 ==> r is Err && r == Err::<Connection, RepoError>(
                RepoError::PoolExhausted,
            ) && final(self).available == 0,
            old(self).available > 0 ==> r is Ok && final(self).available == old(self).available
                - 1,
    {
        if self.available == 0 {
            return Err(RepoError::PoolExhausted);
        }
        self.available = self.available - 1;
        Ok(Connection {  })
    }

    /// Returns a checked-out connection to the pool for reuse.
    pub fn release(&mut self, conn: Connection) -> (r: ())
        requires
            old(self).wf(),
            old(self).available < old(self).capacity,
        ensures
            final(self).wf(),
            final(self).capacity == old(self).capacity,
            final(self).available == old(self).available + 1,
    {
        let _ = conn;
        self.available = self.available + 1;
    }
}

/// Builds the pool for a backend. Construction fails fast, as a fatal
/// startup error, when the connection string is empty, the backend is not
/// reachable, or the bound is zero; it succeeds exactly otherwise, with
/// every connection available.
pub fn establish_connection(url: &str, max_size: u32, backend_reachable: bool) -> (r: Result<
    Pool,
    RepoError,
>)
    ensures
        r is Ok <==> url@.len() > 0 && backend_reachable && max_size > 0,
        r matches Ok(p) ==> p.wf() && p.capacity == max_size && p.available == max_size,
        r matches Err(e) ==> e == RepoError::BackendUnavailable,
{
    if url.is_empty() || !backend_reachable || max_size == 0 {
        return Err(RepoError::BackendUnavailable);
    }
    Ok(Pool { capacity: max_size, available: max_size })
}

} // verus!
