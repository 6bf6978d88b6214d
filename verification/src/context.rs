//! The context of one procedure call: the store, the caller and the time.

use vstd::prelude::*;
use crate::model::DbView;
use crate::roles::{Error, Identity, Timestamp};
use crate::store::{Database, empty_db};

verus! {

/// What a procedure works on: the entity store, the identity of the caller
/// and the time of the call. A procedure reads the caller and the time and
/// changes the store only.
#[derive(Clone, Debug)]
pub struct CallContext {
    pub db: Database,
    pub sender: Identity,
    pub timestamp: Timestamp,
}

pub struct CtxView {
    pub db: DbView,
    pub sender: Identity,
    pub timestamp: Timestamp,
}

impl CtxView {
    /// The same caller and time over another store.
    pub open spec fn with_db(self, db: DbView) -> CtxView {
        CtxView { db, ..self }
    }
}

impl View for CallContext {
    type V = CtxView;

    open spec fn view(&self) -> CtxView {
        CtxView { db: self.db@, sender: self.sender, timestamp: self.timestamp }
    }
}

impl CallContext {
    /// A context over an empty store.
    pub fn new(sender: Identity, timestamp: Timestamp) -> (ctx: CallContext)
        ensures
            ctx@ == (CtxView { db: empty_db(), sender, timestamp }),
            ctx@.db.wf(),
            ctx@.db.has_room(),
    {
        proof {
            let seats = empty_db().project_members.len() + 2;
            let members = empty_db().members.len() + 1;
            assert(seats * members == 2) by (nonlinear_arith)
                requires
                    seats == 2,
                    members == 1,
            ;
        }
        CallContext { db: Database::new(), sender, timestamp }
    }

    /// The identity of the caller.
    pub fn sender(&self) -> (who: Identity)
        ensures
            who == self.sender,
    {
        self.sender
    }
}

/// A procedure's outcome against what it was to do: on `Ok(db)` it
/// succeeded and the store is `db`; on `Err(e)` it failed with `e` and the
/// store is untouched. The caller and the time never change.
pub open spec fn applied(pre: CtxView, post: CtxView, result: Result<(), Error>, expected: Result<DbView, Error>) -> bool {
    match expected {
        Ok(db) => result is Ok && post == pre.with_db(db),
        Err(e) => result == Err::<(), Error>(e) && post == pre,
    }
}

} // verus!
