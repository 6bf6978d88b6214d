//! Team management: adding and removing colleagues, leaving, switching the
//! active company, the company's profile and capabilities, roles and
//! ownership.

use vstd::prelude::*;
use vstd::string::*;
use crate::accounts::{MAX_COMPANY_NAME, MAX_LOCATION, MAX_SLUG, is_filled_within};
use crate::authority::{reassign_active_company, require_role_at_least};
use crate::context::{CallContext, CtxView, applied};
use crate::model::DbView;
use crate::notify::notify;
use crate::proofs::wellformed::{
    lemma_add_colleague_keeps_wf, lemma_leave_company_keeps_wf, lemma_remove_colleague_keeps_wf,
    lemma_switch_active_company_keeps_wf, lemma_transfer_ownership_keeps_wf,
    lemma_update_capabilities_keeps_wf, lemma_update_company_profile_keeps_wf,
    lemma_update_user_role_keeps_wf,
};
use crate::roles::{
    Error, Identity, NotificationType, UserRole, level_of, role_level, role_name, role_name_of,
};
use crate::rows::{Capability, same_text};
use crate::text::{
    byte_len, filled_within, join2, join4, normalize_slug, slug_of, trim, trimmed, validate_length,
};

verus! {

/// The longest company bio, in bytes.
pub const MAX_BIO: usize = 500;

/// The longest registration number, in bytes.
pub const MAX_KVK_NUMBER: usize = 20;

/// An Admin adds a registered user to their company.
///
/// Fails as `resolve` does for the role Admin; with `NotFound` where the
/// colleague has no account; with `Conflict` where the colleague is a
/// member of the company. Otherwise the colleague becomes a Member.
pub open spec fn add_colleague_by_identity_spec(c: CtxView, colleague: Identity) -> Result<DbView, Error> {
    match c.db.resolve(c.sender, UserRole::Admin) {
        Err(e) => Err(e),
        Ok((_, me)) => if c.db.account(colleague) is None {
            Err(Error::NotFound)
        } else if c.db.membership(colleague, me.company_id) is Some {
            Err(Error::Conflict)
        } else {
            Ok(c.db.add_member(colleague, me.company_id, UserRole::Member, c.timestamp))
        },
    }
}

/// Adds another registered user to the caller's company.
pub fn add_colleague_by_identity(ctx: &mut CallContext, colleague_identity: Identity) -> (r: Result<(), Error>)
    requires
        old(ctx)@.db.next_member_id < u64::MAX,
    ensures
        applied(old(ctx)@, final(ctx)@, r, add_colleague_by_identity_spec(old(ctx)@, colleague_identity)),
        old(ctx)@.db.wf() ==> final(ctx)@.db.wf(),
{
    proof {
        if ctx@.db.wf() {
            lemma_add_colleague_keeps_wf(ctx@, colleague_identity);
        }
    }
    let (_caller, me) = match require_role_at_least(ctx, UserRole::Admin) {
        Ok(found) => found,
        Err(e) => {
            return Err(e);
        },
    };
    if ctx.db.account_index(colleague_identity).is_none() {
        return Err(Error::NotFound);
    }
    if ctx.db.membership(colleague_identity, me.company_id).is_some() {
        return Err(Error::Conflict);
    }
    let now = ctx.timestamp;
    ctx.db.add_member(colleague_identity, me.company_id, UserRole::Member, now);
    Ok(())
}

/// An Admin removes a colleague whose role is below their own.
///
/// Fails as `resolve` does for the role Admin; with `Conflict` where the
/// colleague is the caller; with `NotFound` where the colleague is no
/// member of the caller's company; with `InsufficientRole` where the
/// colleague's role is not below the caller's. Otherwise the membership is
/// deleted, the colleague's active company is reassigned, and the colleague
/// is notified.
pub open spec fn remove_colleague_spec(c: CtxView, colleague: Identity) -> Result<DbView, Error> {
    match c.db.resolve(c.sender, UserRole::Admin) {
        Err(e) => Err(e),
        Ok((_, me)) => if c.sender == colleague {
            Err(Error::Conflict)
        } else {
            match c.db.membership(colleague, me.company_id) {
                None => Err(Error::NotFound),
                Some(theirs) => if level_of(theirs.role) >= level_of(me.role) {
                    Err(Error::InsufficientRole)
                } else {
                    Ok(
                        c.db.drop_member(theirs.id).reassign_active_company(colleague, me.company_id).notify(
                            colleague,
                            me.company_id,
                            NotificationType::MemberRemoved,
                            "Removed from company"@,
                            "You were removed from "@ + c.db.company_name(me.company_id),
                            c.timestamp,
                        ),
                    )
                },
            }
        },
    }
}

/// Removes a user from the caller's company.
pub fn remove_colleague(ctx: &mut CallContext, colleague_identity: Identity) -> (r: Result<(), Error>)
    requires
        old(ctx)@.db.next_notification_id < u64::MAX,
    ensures
        applied(old(ctx)@, final(ctx)@, r, remove_colleague_spec(old(ctx)@, colleague_identity)),
        old(ctx)@.db.wf() ==> final(ctx)@.db.wf(),
{
    proof {
        if ctx@.db.wf() {
            lemma_remove_colleague_keeps_wf(ctx@, colleague_identity);
        }
    }
    let (_caller, me) = match require_role_at_least(ctx, UserRole::Admin) {
        Ok(found) => found,
        Err(e) => {
            return Err(e);
        },
    };
    if ctx.sender == colleague_identity {
        return Err(Error::Conflict);
    }
    let theirs = match ctx.db.membership(colleague_identity, me.company_id) {
        Some(m) => m,
        None => {
            return Err(Error::NotFound);
        },
    };
    if role_level(theirs.role) >= role_level(me.role) {
        return Err(Error::InsufficientRole);
    }
    let company_name = ctx.db.company_name(me.company_id);
    ctx.db.drop_member(theirs.id);
    reassign_active_company(ctx, colleague_identity, me.company_id);
    proof {
    }
    notify(
        ctx,
        colleague_identity,
        me.company_id,
        NotificationType::MemberRemoved,
        String::from_str("Removed from company"),
        join2("You were removed from ", company_name.as_str()),
    );
    Ok(())
}

/// A user leaves their active company.
///
/// Fails with `Unauthenticated` where the caller has no account; with
/// `NoActiveCompany` where the account selects no company; with
/// `NotAMember` where the caller has no membership of it; with
/// `InvalidState` where the caller is its Owner. Otherwise the membership
/// is deleted and the caller's active company is reassigned.
pub open spec fn leave_company_spec(c: CtxView) -> Result<DbView, Error> {
    match c.db.account(c.sender) {
        None => Err(Error::Unauthenticated),
        Some(account) => match account.active_company_id {
            None => Err(Error::NoActiveCompany),
            Some(company_id) => match c.db.membership(c.sender, company_id) {
                None => Err(Error::NotAMember),
                Some(mine) => if mine.role == UserRole::Owner {
                    Err(Error::InvalidState)
                } else {
                    Ok(c.db.drop_member(mine.id).reassign_active_company(c.sender, company_id))
                },
            },
        },
    }
}

/// Leaves the active company. An owner transfers ownership first.
pub fn leave_company(ctx: &mut CallContext) -> (r: Result<(), Error>)
    ensures
        applied(old(ctx)@, final(ctx)@, r, leave_company_spec(old(ctx)@)),
        old(ctx)@.db.wf() ==> final(ctx)@.db.wf(),
{
    proof {
        if ctx@.db.wf() {
            lemma_leave_company_keeps_wf(ctx@);
        }
    }
    let sender = ctx.sender;
    let active = match ctx.db.account_index(sender) {
        Some(i) => ctx.db.accounts[i].active_company_id,
        None => {
            return Err(Error::Unauthenticated);
        },
    };
    let company_id = match active {
        Some(id) => id,
        None => {
            return Err(Error::NoActiveCompany);
        },
    };
    let mine = match ctx.db.membership(sender, company_id) {
        Some(m) => m,
        None => {
            return Err(Error::NotAMember);
        },
    };
    if mine.role == UserRole::Owner {
        return Err(Error::InvalidState);
    }
    ctx.db.drop_member(mine.id);
    reassign_active_company(ctx, sender, company_id);
    Ok(())
}

/// A user selects another of their companies to act for.
///
/// Fails with `Unauthenticated` where the caller has no account; with
/// `NotAMember` where the caller has no membership of the company; with
/// `NotFound` where the company does not exist. Otherwise the company
/// becomes the caller's active company.
pub open spec fn switch_active_company_spec(c: CtxView, company_id: u64) -> Result<DbView, Error> {
    if c.db.account(c.sender) is None {
        Err(Error::Unauthenticated)
    } else if c.db.membership(c.sender, company_id) is None {
        Err(Error::NotAMember)
    } else if c.db.company(company_id) is None {
        Err(Error::NotFound)
    } else {
        Ok(c.db.set_active(c.sender, Some(company_id)))
    }
}

/// Switches the caller's active company.
pub fn switch_active_company(ctx: &mut CallContext, company_id: u64) -> (r: Result<(), Error>)
    ensures
        applied(old(ctx)@, final(ctx)@, r, switch_active_company_spec(old(ctx)@, company_id)),
        old(ctx)@.db.wf() ==> final(ctx)@.db.wf(),
{
    proof {
        if ctx@.db.wf() {
            lemma_switch_active_company_keeps_wf(ctx@, company_id);
        }
    }
    let sender = ctx.sender;
    if ctx.db.account_index(sender).is_none() {
        return Err(Error::Unauthenticated);
    }
    if ctx.db.membership(sender, company_id).is_none() {
        return Err(Error::NotAMember);
    }
    if ctx.db.company_index(company_id).is_none() {
        return Err(Error::NotFound);
    }
    ctx.db.set_active(sender, Some(company_id));
    Ok(())
}

/// An Admin rewrites the company's public profile.
///
/// Fails as `resolve` does for the role Admin; with `InvalidInput` where the
/// trimmed name, the slug or the trimmed location is empty, the name or the
/// slug longer than 50 bytes, the location longer than 100, the trimmed bio
/// longer than 500 or the trimmed registration number longer than 20; with
/// `NotFound` where the company does not exist; with `Conflict` where the
/// slug differs from the company's and a company has it. Otherwise the
/// company holds the new profile.
pub open spec fn update_company_profile_spec(
    c: CtxView,
    name: Seq<char>,
    slug: Seq<char>,
    location: Seq<char>,
    bio: Seq<char>,
    is_public: bool,
    kvk_number: Seq<char>,
) -> Result<DbView, Error> {
    let name = trimmed(name);
    let slug = slug_of(slug);
    let location = trimmed(location);
    let bio = trimmed(bio);
    let kvk_number = trimmed(kvk_number);
    match c.db.resolve(c.sender, UserRole::Admin) {
        Err(e) => Err(e),
        Ok((_, me)) => if !(filled_within(name, MAX_COMPANY_NAME as int) && filled_within(slug, MAX_SLUG as int)
            && filled_within(location, MAX_LOCATION as int) && byte_len(bio) <= MAX_BIO && byte_len(kvk_number)
            <= MAX_KVK_NUMBER) {
            Err(Error::InvalidInput)
        } else {
            match c.db.company(me.company_id) {
                None => Err(Error::NotFound),
                Some(company) => if slug != company.slug && c.db.company_by_slug(slug) is Some {
                    Err(Error::Conflict)
                } else {
                    Ok(c.db.set_company_profile(me.company_id, name, slug, location, bio, is_public, kvk_number))
                },
            }
        },
    }
}

/// Updates the company's public profile.
pub fn update_company_profile(
    ctx: &mut CallContext,
    name: String,
    slug: String,
    location: String,
    bio: String,
    is_public: bool,
    kvk_number: String,
) -> (r: Result<(), Error>)
    ensures
        applied(
            old(ctx)@,
            final(ctx)@,
            r,
            update_company_profile_spec(old(ctx)@, name@, slug@, location@, bio@, is_public, kvk_number@),
        ),
        old(ctx)@.db.wf() ==> final(ctx)@.db.wf(),
{
    proof {
        if ctx@.db.wf() {
            lemma_update_company_profile_keeps_wf(ctx@, name@, slug@, location@, bio@, is_public, kvk_number@);
        }
    }
    let (_caller, me) = match require_role_at_least(ctx, UserRole::Admin) {
        Ok(found) => found,
        Err(e) => {
            return Err(e);
        },
    };
    let name = trim(name.as_str());
    let slug = normalize_slug(slug.as_str());
    let location = trim(location.as_str());
    let bio = trim(bio.as_str());
    let kvk_number = trim(kvk_number.as_str());
    if !is_filled_within(name.as_str(), MAX_COMPANY_NAME) {
        return Err(Error::InvalidInput);
    }
    if !is_filled_within(slug.as_str(), MAX_SLUG) {
        return Err(Error::InvalidInput);
    }
    if !is_filled_within(location.as_str(), MAX_LOCATION) {
        return Err(Error::InvalidInput);
    }
    if validate_length(bio.as_str(), MAX_BIO).is_err() {
        return Err(Error::InvalidInput);
    }
    if validate_length(kvk_number.as_str(), MAX_KVK_NUMBER).is_err() {
        return Err(Error::InvalidInput);
    }
    let i = match ctx.db.company_index(me.company_id) {
        Some(i) => i,
        None => {
            return Err(Error::NotFound);
        },
    };
    if !same_text(&slug, &ctx.db.companies[i].slug) && ctx.db.company_index_by_slug(&slug).is_some() {
        return Err(Error::Conflict);
    }
    ctx.db.set_company_profile(me.company_id, &name, &slug, &location, &bio, is_public, &kvk_number);
    Ok(())
}

/// An Admin sets the company's capability flags.
///
/// Fails as `resolve` does for the role Admin; with `NotFound` where the
/// company has no capability row. Otherwise the row holds the new flags.
pub open spec fn update_capabilities_spec(
    c: CtxView,
    can_install: bool,
    has_cnc: bool,
    has_large_format: bool,
    has_bucket_truck: bool,
) -> Result<DbView, Error> {
    match c.db.resolve(c.sender, UserRole::Admin) {
        Err(e) => Err(e),
        Ok((_, me)) => if c.db.capability(me.company_id) is None {
            Err(Error::NotFound)
        } else {
            Ok(
                c.db.set_capability(
                    Capability {
                        company_id: me.company_id,
                        can_install,
                        has_cnc,
                        has_large_format,
                        has_bucket_truck,
                    },
                ),
            )
        },
    }
}

/// Updates the company's capabilities.
pub fn update_capabilities(
    ctx: &mut CallContext,
    can_install: bool,
    has_cnc: bool,
    has_large_format: bool,
    has_bucket_truck: bool,
) -> (r: Result<(), Error>)
    ensures
        applied(
            old(ctx)@,
            final(ctx)@,
            r,
            update_capabilities_spec(old(ctx)@, can_install, has_cnc, has_large_format, has_bucket_truck),
        ),
        old(ctx)@.db.wf() ==> final(ctx)@.db.wf(),
{
    proof {
        if ctx@.db.wf() {
            lemma_update_capabilities_keeps_wf(ctx@, can_install, has_cnc, has_large_format, has_bucket_truck);
        }
    }
    let (_caller, me) = match require_role_at_least(ctx, UserRole::Admin) {
        Ok(found) => found,
        Err(e) => {
            return Err(e);
        },
    };
    if ctx.db.capability(me.company_id).is_none() {
        return Err(Error::NotFound);
    }
    ctx.db.set_capability(
        Capability { company_id: me.company_id, can_install, has_cnc, has_large_format, has_bucket_truck },
    );
    Ok(())
}

/// An Admin changes the role of a colleague below them.
///
/// Fails as `resolve` does for the role Admin; with `Conflict` where the
/// target is the caller; with `InvalidInput` where the new role is Owner;
/// with `NotFound` where the target is no member of the caller's company;
/// with `InsufficientRole` where the target's role is not below the
/// caller's, or where the caller is no Owner and the new role is not below
/// the caller's. Otherwise the target holds the new role and is notified.
pub open spec fn update_user_role_spec(
    c: CtxView,
    target: Identity,
    new_role: UserRole,
) -> Result<DbView, Error> {
    match c.db.resolve(c.sender, UserRole::Admin) {
        Err(e) => Err(e),
        Ok((_, me)) => if c.sender == target {
            Err(Error::Conflict)
        } else if new_role == UserRole::Owner {
            Err(Error::InvalidInput)
        } else {
            match c.db.membership(target, me.company_id) {
                None => Err(Error::NotFound),
                Some(theirs) => if level_of(theirs.role) >= level_of(me.role) {
                    Err(Error::InsufficientRole)
                } else if me.role != UserRole::Owner && level_of(new_role) >= level_of(me.role) {
                    Err(Error::InsufficientRole)
                } else {
                    Ok(
                        c.db.set_role(theirs.id, new_role).notify(
                            target,
                            me.company_id,
                            NotificationType::RoleChanged,
                            "Role updated"@,
                            "Your role in "@ + c.db.company_name(me.company_id) + " was changed to "@
                                + role_name_of(new_role),
                            c.timestamp,
                        ),
                    )
                },
            }
        },
    }
}

/// Changes a team member's role. Ownership is not assigned here but
/// transferred.
pub fn update_user_role(ctx: &mut CallContext, target_identity: Identity, new_role: UserRole) -> (r: Result<
    (),
    Error,
>)
    requires
        old(ctx)@.db.next_notification_id < u64::MAX,
    ensures
        applied(old(ctx)@, final(ctx)@, r, update_user_role_spec(old(ctx)@, target_identity, new_role)),
        old(ctx)@.db.wf() ==> final(ctx)@.db.wf(),
{
    proof {
        if ctx@.db.wf() {
            lemma_update_user_role_keeps_wf(ctx@, target_identity, new_role);
        }
    }
    let (_caller, me) = match require_role_at_least(ctx, UserRole::Admin) {
        Ok(found) => found,
        Err(e) => {
            return Err(e);
        },
    };
    if ctx.sender == target_identity {
        return Err(Error::Conflict);
    }
    if new_role == UserRole::Owner {
        return Err(Error::InvalidInput);
    }
    let theirs = match ctx.db.membership(target_identity, me.company_id) {
        Some(m) => m,
        None => {
            return Err(Error::NotFound);
        },
    };
    if role_level(theirs.role) >= role_level(me.role) {
        return Err(Error::InsufficientRole);
    }
    if me.role != UserRole::Owner && role_level(new_role) >= role_level(me.role) {
        return Err(Error::InsufficientRole);
    }
    let company_name = ctx.db.company_name(me.company_id);
    ctx.db.set_role(theirs.id, new_role);
    proof {
    }
    notify(
        ctx,
        target_identity,
        me.company_id,
        NotificationType::RoleChanged,
        String::from_str("Role updated"),
        join4("Your role in ", company_name.as_str(), " was changed to ", role_name(new_role)),
    );
    Ok(())
}

/// The Owner hands the company to a colleague.
///
/// Fails as `resolve` does for the role Owner; with `Conflict` where the
/// new owner is the caller; with `NotFound` where the new owner is no
/// member of the company, or the company does not exist; with
/// `InsufficientRole` where the caller is not the company's recorded owner.
/// Otherwise the company records the new owner, the caller becomes Admin
/// and the new owner becomes Owner.
pub open spec fn transfer_ownership_spec(c: CtxView, new_owner: Identity) -> Result<DbView, Error> {
    match c.db.resolve(c.sender, UserRole::Owner) {
        Err(e) => Err(e),
        Ok((_, me)) => if c.sender == new_owner {
            Err(Error::Conflict)
        } else {
            match c.db.membership(new_owner, me.company_id) {
                None => Err(Error::NotFound),
                Some(theirs) => match c.db.company(me.company_id) {
                    None => Err(Error::NotFound),
                    Some(company) => if company.owner_identity != c.sender {
                        Err(Error::InsufficientRole)
                    } else {
                        Ok(
                            c.db.set_owner(me.company_id, new_owner).set_role(me.id, UserRole::Admin).set_role(
                                theirs.id,
                                UserRole::Owner,
                            ),
                        )
                    },
                },
            }
        },
    }
}

/// Transfers company ownership to another team member.
pub fn transfer_ownership(ctx: &mut CallContext, new_owner_identity: Identity) -> (r: Result<(), Error>)
    ensures
        applied(old(ctx)@, final(ctx)@, r, transfer_ownership_spec(old(ctx)@, new_owner_identity)),
        old(ctx)@.db.wf() ==> final(ctx)@.db.wf(),
{
    proof {
        if ctx@.db.wf() {
            lemma_transfer_ownership_keeps_wf(ctx@, new_owner_identity);
        }
    }
    let (_caller, me) = match require_role_at_least(ctx, UserRole::Owner) {
        Ok(found) => found,
        Err(e) => {
            return Err(e);
        },
    };
    if ctx.sender == new_owner_identity {
        return Err(Error::Conflict);
    }
    let theirs = match ctx.db.membership(new_owner_identity, me.company_id) {
        Some(m) => m,
        None => {
            return Err(Error::NotFound);
        },
    };
    let owner = match ctx.db.company_index(me.company_id) {
        Some(i) => ctx.db.companies[i].owner_identity,
        None => {
            return Err(Error::NotFound);
        },
    };
    if owner != ctx.sender {
        return Err(Error::InsufficientRole);
    }
    ctx.db.set_owner(me.company_id, new_owner_identity);
    ctx.db.set_role(me.id, UserRole::Admin);
    ctx.db.set_role(theirs.id, UserRole::Owner);
    Ok(())
}

} // verus!
