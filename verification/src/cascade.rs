//! The cascading deletion of a company: everything that refers to the
//! company goes with it, and the users that acted for it are moved on.

use vstd::prelude::*;
use crate::authority::{reassign_active_company, require_role_at_least};
use crate::context::{CallContext, CtxView, applied};
use crate::model::DbView;
use crate::projects::delete_project_cascade;
use crate::proofs::wellformed::lemma_delete_company_keeps_wf;
use crate::roles::{Error, Identity, UserRole};

verus! {

impl DbView {
    /// The active company of each of `identities` is reassigned in turn.
    pub open spec fn reassign_each(self, identities: Seq<Identity>, removed_company_id: u64) -> DbView
        decreases identities.len(),
    {
        if identities.len() == 0 {
            self
        } else {
            self.reassign_each(identities.drop_last(), removed_company_id).reassign_active_company(
                identities.last(),
                removed_company_id,
            )
        }
    }

    /// The chat of each of the connections is deleted.
    pub open spec fn drop_chats_of(self, connection_ids: Seq<u64>) -> DbView
        decreases connection_ids.len(),
    {
        if connection_ids.len() == 0 {
            self
        } else {
            self.drop_chats_of(connection_ids.drop_last()).drop_connection_chat(connection_ids.last())
        }
    }

    /// Each of the projects is deleted with its seats and its chat.
    pub open spec fn delete_projects(self, project_ids: Seq<u64>) -> DbView
        decreases project_ids.len(),
    {
        if project_ids.len() == 0 {
            self
        } else {
            self.delete_projects(project_ids.drop_last()).delete_project_cascade(project_ids.last())
        }
    }

    /// Each of the projects that exists and has no Accepted seat left is
    /// deleted with its seats and its chat.
    pub open spec fn dissolve_abandoned(self, project_ids: Seq<u64>) -> DbView
        decreases project_ids.len(),
    {
        if project_ids.len() == 0 {
            self
        } else {
            let before = self.dissolve_abandoned(project_ids.drop_last());
            if before.project(project_ids.last()) is Some && !before.has_accepted(project_ids.last()) {
                before.delete_project_cascade(project_ids.last())
            } else {
                before
            }
        }
    }

    /// The company's memberships are deleted, and each user who had one is
    /// moved on to another company where they acted for this one.
    pub open spec fn unlink_members(self, company_id: u64) -> DbView {
        self.drop_members_of(company_id).reassign_each(self.member_identities(company_id), company_id)
    }

    /// The connections with the company at either end are deleted, each
    /// with its chat.
    pub open spec fn disconnect_all(self, company_id: u64) -> DbView {
        self.drop_connections_touching(company_id).drop_chats_of(self.connection_ids_touching(company_id))
    }

    /// The company's seats in projects of others are deleted, and each of
    /// those projects that is left without an Accepted seat is dissolved.
    pub open spec fn withdraw_from_projects(self, company_id: u64) -> DbView {
        self.drop_seats_of(company_id).dissolve_abandoned(self.seat_project_ids(company_id))
    }

    /// The store without the company: its invite codes, its memberships,
    /// its capability row, its connections and their chat, the
    /// notifications in its context, the projects it owns, its seats in
    /// other projects, and the company row itself.
    pub open spec fn delete_company_cascade(self, company_id: u64) -> DbView {
        let unlinked = self.drop_invites_of(company_id).unlink_members(company_id);
        let cut = unlinked.drop_capability(company_id).disconnect_all(company_id).drop_notifications_about(
            company_id,
        );
        cut.delete_projects(cut.owned_project_ids(company_id)).withdraw_from_projects(company_id).drop_company(
            company_id,
        )
    }
}

/// The recorded owner of a company deletes it.
///
/// Fails as `resolve` does for the role Owner; with `NotFound` where the
/// company does not exist; with `InsufficientRole` where the caller is not
/// the company's recorded owner. Otherwise the company and everything that
/// refers to it are deleted.
pub open spec fn delete_company_spec(c: CtxView) -> Result<DbView, Error> {
    match c.db.resolve(c.sender, UserRole::Owner) {
        Err(e) => Err(e),
        Ok((_, me)) => match c.db.company(me.company_id) {
            None => Err(Error::NotFound),
            Some(company) => if company.owner_identity != c.sender {
                Err(Error::InsufficientRole)
            } else {
                Ok(c.db.delete_company_cascade(me.company_id))
            },
        },
    }
}

fn reassign_each(ctx: &mut CallContext, identities: &Vec<Identity>, removed_company_id: u64)
    ensures
        final(ctx)@ == old(ctx)@.with_db(old(ctx)@.db.reassign_each(identities@, removed_company_id)),
{
    let n: usize = identities.len();
    let mut i: usize = 0;
    while i < n
        invariant
            i <= n,
            n == identities@.len(),
            ctx@ == old(ctx)@.with_db(old(ctx)@.db.reassign_each(identities@.take(i as int), removed_company_id)),
        decreases n - i,
    {
        proof {
            assert(identities@.take(i + 1).drop_last() =~= identities@.take(i as int));
        }
        reassign_active_company(ctx, identities[i], removed_company_id);
        i += 1;
    }
    proof {
        assert(identities@.take(n as int) =~= identities@);
    }
}

fn drop_chats_of(ctx: &mut CallContext, connection_ids: &Vec<u64>)
    ensures
        final(ctx)@ == old(ctx)@.with_db(old(ctx)@.db.drop_chats_of(connection_ids@)),
{
    let n: usize = connection_ids.len();
    let mut i: usize = 0;
    while i < n
        invariant
            i <= n,
            n == connection_ids@.len(),
            ctx@ == old(ctx)@.with_db(old(ctx)@.db.drop_chats_of(connection_ids@.take(i as int))),
        decreases n - i,
    {
        proof {
            assert(connection_ids@.take(i + 1).drop_last() =~= connection_ids@.take(i as int));
        }
        ctx.db.drop_connection_chat(connection_ids[i]);
        i += 1;
    }
    proof {
        assert(connection_ids@.take(n as int) =~= connection_ids@);
    }
}

fn delete_projects(ctx: &mut CallContext, project_ids: &Vec<u64>)
    ensures
        final(ctx)@ == old(ctx)@.with_db(old(ctx)@.db.delete_projects(project_ids@)),
{
    let n: usize = project_ids.len();
    let mut i: usize = 0;
    while i < n
        invariant
            i <= n,
            n == project_ids@.len(),
            ctx@ == old(ctx)@.with_db(old(ctx)@.db.delete_projects(project_ids@.take(i as int))),
        decreases n - i,
    {
        proof {
            assert(project_ids@.take(i + 1).drop_last() =~= project_ids@.take(i as int));
        }
        delete_project_cascade(ctx, project_ids[i]);
        i += 1;
    }
    proof {
        assert(project_ids@.take(n as int) =~= project_ids@);
    }
}

fn dissolve_abandoned(ctx: &mut CallContext, project_ids: &Vec<u64>)
    ensures
        final(ctx)@ == old(ctx)@.with_db(old(ctx)@.db.dissolve_abandoned(project_ids@)),
{
    let n: usize = project_ids.len();
    let mut i: usize = 0;
    while i < n
        invariant
            i <= n,
            n == project_ids@.len(),
            ctx@ == old(ctx)@.with_db(old(ctx)@.db.dissolve_abandoned(project_ids@.take(i as int))),
        decreases n - i,
    {
        proof {
            assert(project_ids@.take(i + 1).drop_last() =~= project_ids@.take(i as int));
        }
        let project_id = project_ids[i];
        if ctx.db.project_index(project_id).is_some() && !ctx.db.has_accepted(project_id) {
            delete_project_cascade(ctx, project_id);
        }
        i += 1;
    }
    proof {
        assert(project_ids@.take(n as int) =~= project_ids@);
    }
}

/// Permanently deletes the caller's active company and all that belongs to
/// it. Only the owner can do this.
pub fn delete_company(ctx: &mut CallContext) -> (r: Result<(), Error>)
    ensures
        applied(old(ctx)@, final(ctx)@, r, delete_company_spec(old(ctx)@)),
        old(ctx)@.db.wf() ==> final(ctx)@.db.wf(),
{
    proof {
        if ctx@.db.wf() {
            lemma_delete_company_keeps_wf(ctx@);
        }
    }
    let (_caller, me) = match require_role_at_least(ctx, UserRole::Owner) {
        Ok(found) => found,
        Err(e) => {
            return Err(e);
        },
    };
    let company_id = me.company_id;
    let owner = match ctx.db.company_index(company_id) {
        Some(i) => ctx.db.companies[i].owner_identity,
        None => {
            return Err(Error::NotFound);
        },
    };
    if owner != ctx.sender {
        return Err(Error::InsufficientRole);
    }
    ctx.db.drop_invites_of(company_id);

    let identities = ctx.db.member_identities(company_id);
    ctx.db.drop_members_of(company_id);
    reassign_each(ctx, &identities, company_id);

    ctx.db.drop_capability(company_id);

    let connection_ids = ctx.db.connection_ids_touching(company_id);
    ctx.db.drop_connections_touching(company_id);
    drop_chats_of(ctx, &connection_ids);

    ctx.db.drop_notifications_about(company_id);

    let owned = ctx.db.owned_project_ids(company_id);
    delete_projects(ctx, &owned);

    let affected = ctx.db.seat_project_ids(company_id);
    ctx.db.drop_seats_of(company_id);
    dissolve_abandoned(ctx, &affected);

    ctx.db.drop_company(company_id);
    Ok(())
}

} // verus!
