//! The role authority: who the caller is, which company they act for, and
//! whether their role there is high enough.

use vstd::prelude::*;
use crate::context::CallContext;
use crate::model::DbView;
use crate::roles::{Error, Identity, UserRole, level_of, role_level};
use crate::rows::{CompanyMember, UserAccount, UserAccountView};

verus! {

impl DbView {
    /// The caller's account and their membership of their active company,
    /// where the role held there is at least `min_role`.
    ///
    /// Fails with `Unauthenticated` where the caller has no account, with
    /// `NoActiveCompany` where the account selects no company or one that
    /// does not exist, with `NotAMember` where the caller has no membership
    /// of that company, and with `InsufficientRole` where the role held is
    /// below `min_role`.
    pub open spec fn resolve(
        self,
        caller: Identity,
        min_role: UserRole,
    ) -> Result<(UserAccountView, CompanyMember), Error> {
        match self.account(caller) {
            None => Err(Error::Unauthenticated),
            Some(account) => match account.active_company_id {
                None => Err(Error::NoActiveCompany),
                Some(company_id) => if self.company(company_id) is None {
                    Err(Error::NoActiveCompany)
                } else {
                    match self.membership(caller, company_id) {
                        None => Err(Error::NotAMember),
                        Some(membership) => if level_of(membership.role) < level_of(min_role) {
                            Err(Error::InsufficientRole)
                        } else {
                            Ok((account, membership))
                        },
                    }
                },
            },
        }
    }

    /// After a membership of `removed_company_id` was removed: where the
    /// account of `who` selects that company, it selects instead the
    /// company of the first remaining membership whose company exists, or
    /// none.
    pub open spec fn reassign_active_company(self, who: Identity, removed_company_id: u64) -> DbView {
        match self.account(who) {
            Some(account) => if account.active_company_id == Some(removed_company_id) {
                self.set_active(who, self.next_home(who))
            } else {
                self
            },
            None => self,
        }
    }
}

/// What `resolve` gives is the caller's own account, selecting the company
/// of the membership, which is the caller's and holds the role asked for.
pub proof fn lemma_resolve_ok(db: DbView, caller: Identity, min_role: UserRole)
    ensures
        match db.resolve(caller, min_role) {
            Ok((account, membership)) => {
                &&& db.account(caller) == Some(account)
                &&& account.identity == caller
                &&& account.active_company_id == Some(membership.company_id)
                &&& db.company(membership.company_id) is Some
                &&& db.membership(caller, membership.company_id) == Some(membership)
                &&& membership.identity == caller
                &&& level_of(membership.role) >= level_of(min_role)
                &&& db.members.len() > 0
            },
            Err(e) => e == Error::Unauthenticated || e == Error::NoActiveCompany || e == Error::NotAMember || e
                == Error::InsufficientRole,
        },
{
    crate::seqs::lemma_first_index(db.accounts, crate::model::account_is(caller));
    if let Some(account) = db.account(caller) {
        if let Some(company_id) = account.active_company_id {
            crate::seqs::lemma_first_index(db.members, crate::model::member_is(caller, company_id));
        }
    }
}

/// Finds a user's membership of a company, if there is one.
pub fn find_membership(ctx: &CallContext, identity: Identity, company_id: u64) -> (found: Option<CompanyMember>)
    ensures
        found == ctx@.db.membership(identity, company_id),
{
    ctx.db.membership(identity, company_id)
}

/// Resolves the caller to their account and their membership of their
/// active company, and checks that the role held there is at least
/// `min_role`.
pub fn require_role_at_least(ctx: &CallContext, min_role: UserRole) -> (r: Result<(UserAccount, CompanyMember), Error>)
    ensures
        match ctx@.db.resolve(ctx.sender, min_role) {
            Ok((account, membership)) => r is Ok && r->Ok_0.0@ == account && r->Ok_0.1 == membership,
            Err(e) => r is Err && r->Err_0 == e,
        },
{
    let account = match ctx.db.account_index(ctx.sender) {
        Some(i) => ctx.db.accounts[i].duplicate(),
        None => {
            return Err(Error::Unauthenticated);
        },
    };
    let company_id = match account.active_company_id {
        Some(id) => id,
        None => {
            return Err(Error::NoActiveCompany);
        },
    };
    if ctx.db.company_index(company_id).is_none() {
        return Err(Error::NoActiveCompany);
    }
    let membership = match find_membership(ctx, ctx.sender, company_id) {
        Some(m) => m,
        None => {
            return Err(Error::NotAMember);
        },
    };
    if role_level(membership.role) < role_level(min_role) {
        return Err(Error::InsufficientRole);
    }
    Ok((account, membership))
}

/// After a membership was removed, moves the user's active company to the
/// next membership whose company still exists, or clears it.
pub fn reassign_active_company(ctx: &mut CallContext, identity: Identity, removed_company_id: u64)
    ensures
        final(ctx)@ == old(ctx)@.with_db(old(ctx)@.db.reassign_active_company(identity, removed_company_id)),
        old(ctx)@.db.wf() ==> final(ctx)@.db.wf(),
{
    proof {
        if ctx@.db.wf() {
            crate::proofs::people::lemma_reassign_wf(ctx@.db, identity, removed_company_id);
        }
    }
    if let Some(i) = ctx.db.account_index(identity) {
        let active = ctx.db.accounts[i].active_company_id;
        let selected = match active {
            Some(id) => id == removed_company_id,
            None => false,
        };
        if selected {
            let next = ctx.db.next_home(identity);
            ctx.db.set_active(identity, next);
        }
    }
}

} // verus!
