//! The project state machine: a company's seat in a project is Invited,
//! Accepted, Left or Kicked, and a project whose last accepted seat is given
//! up is dissolved.

use vstd::prelude::*;
use vstd::string::*;
use crate::authority::require_role_at_least;
use crate::context::{CallContext, CtxView, applied};
use crate::model::{DbView, lemma_fan_out_bound};
use crate::notify::{lemma_fan_out_frame, notify_companies, notify_company_role};
use crate::proofs::wellformed::{
    lemma_accept_project_invite_keeps_wf, lemma_create_project_keeps_wf,
    lemma_decline_project_invite_keeps_wf, lemma_delete_project_keeps_wf,
    lemma_invite_to_project_keeps_wf, lemma_kick_from_project_keeps_wf,
    lemma_leave_project_keeps_wf, lemma_send_project_chat_keeps_wf,
};
use crate::roles::{ConnectionStatus, Error, NotificationType, ProjectMemberStatus, UserRole};
use crate::rows::ProjectMember;
use crate::text::{
    byte_len, join2, join3, join4, preview_of, trim, trimmed, truncate_preview, validate_length,
};

verus! {

/// The longest project name, in bytes.
pub const MAX_PROJECT_NAME: usize = 80;

/// The longest project description, in bytes.
pub const MAX_PROJECT_DESCRIPTION: usize = 500;

/// The longest chat message, in bytes.
pub const MAX_CHAT_MESSAGE: usize = 500;

/// Finds the seat of a company in a project that has the given status.
pub fn find_project_membership(
    ctx: &CallContext,
    project_id: u64,
    company_id: u64,
    status: ProjectMemberStatus,
) -> (found:
    Option<ProjectMember>)
    ensures
        found == ctx@.db.seat_with(project_id, company_id, status),
{
    ctx.db.seat_with(project_id, company_id, status)
}

/// Deletes a project with its chat and its seats.
pub fn delete_project_cascade(ctx: &mut CallContext, project_id: u64)
    ensures
        final(ctx)@ == old(ctx)@.with_db(old(ctx)@.db.delete_project_cascade(project_id)),
        old(ctx)@.db.wf() ==> final(ctx)@.db.wf(),
{
    proof {
        if ctx@.db.wf() {
            crate::proofs::seats::lemma_cascade_keeps_projects(ctx@.db, project_id);
            crate::proofs::links::lemma_cascade_keeps_links(ctx@.db, project_id);
            crate::proofs::records::lemma_cascade_keeps_records(ctx@.db, project_id);
        }
    }
    ctx.db.drop_project_chats(project_id);
    ctx.db.drop_seats_in(project_id);
    ctx.db.drop_project(project_id);
}

/// An Admin opens a project for their company.
///
/// Fails as `resolve` does for the role Admin; with `InvalidInput` where the
/// trimmed name is empty or longer than 80 bytes, or the trimmed
/// description longer than 500 bytes. Otherwise the project is inserted,
/// owned by the caller's company, which gets an Accepted seat.
pub open spec fn create_project_spec(
    c: CtxView,
    name: Seq<char>,
    description: Seq<char>,
) -> Result<DbView, Error> {
    match c.db.resolve(c.sender, UserRole::Admin) {
        Err(e) => Err(e),
        Ok((_, me)) => {
            let name = trimmed(name);
            let description = trimmed(description);
            if name.len() == 0 || byte_len(name) > MAX_PROJECT_NAME || byte_len(description)
                > MAX_PROJECT_DESCRIPTION {
                Err(Error::InvalidInput)
            } else {
                Ok(
                    c.db.add_project(me.company_id, name, description, c.sender, c.timestamp).add_seat(
                        c.db.next_project_id,
                        me.company_id,
                        ProjectMemberStatus::Accepted,
                        c.sender,
                        c.timestamp,
                    ),
                )
            }
        },
    }
}

/// Creates a project room. The caller's active company becomes the owner
/// and an accepted member.
pub fn create_project(ctx: &mut CallContext, name: String, description: String) -> (r: Result<(), Error>)
    requires
        old(ctx)@.db.next_project_id < u64::MAX,
        old(ctx)@.db.next_project_member_id < u64::MAX,
    ensures
        applied(old(ctx)@, final(ctx)@, r, create_project_spec(old(ctx)@, name@, description@)),
        old(ctx)@.db.wf() ==> final(ctx)@.db.wf(),
{
    proof {
        if ctx@.db.wf() {
            lemma_create_project_keeps_wf(ctx@, name@, description@);
        }
    }
    let (_caller, me) = match require_role_at_least(ctx, UserRole::Admin) {
        Ok(found) => found,
        Err(e) => {
            return Err(e);
        },
    };
    let name = trim(name.as_str());
    let description = trim(description.as_str());
    if name.as_str().is_empty() {
        return Err(Error::InvalidInput);
    }
    if validate_length(name.as_str(), MAX_PROJECT_NAME).is_err() {
        return Err(Error::InvalidInput);
    }
    if validate_length(description.as_str(), MAX_PROJECT_DESCRIPTION).is_err() {
        return Err(Error::InvalidInput);
    }
    let sender = ctx.sender;
    let now = ctx.timestamp;
    let project_id = ctx.db.next_project_id;
    ctx.db.add_project(me.company_id, name, description, sender, now);
    ctx.db.add_seat(project_id, me.company_id, ProjectMemberStatus::Accepted, sender, now);
    Ok(())
}

/// The store once a seat that was given up has made way for a new
/// invitation: a Left or Kicked seat is deleted, no seat changes nothing.
pub open spec fn vacated(db: DbView, project_id: u64, company_id: u64) -> DbView {
    match db.seat(project_id, company_id) {
        Some(seat) => db.drop_seat(seat.id),
        None => db,
    }
}

/// An Admin of the owner company invites a connected company.
///
/// Fails as `resolve` does for the role Admin; with `NotFound` where the
/// project does not exist; with `NotAMember` where the caller's company
/// does not own it; with `NotFound` where the target does not exist; with
/// `Conflict` where the target is the caller's own company; with
/// `InvalidState` where the two companies have no Accepted connection; with
/// `Conflict` where the target's first seat in the project is Accepted or
/// Invited. Otherwise a seat that was given up is deleted, an Invited seat
/// is inserted and the target's Admins are notified.
pub open spec fn invite_to_project_spec(
    c: CtxView,
    project_id: u64,
    target_company_id: u64,
) -> Result<DbView, Error> {
    match c.db.resolve(c.sender, UserRole::Admin) {
        Err(e) => Err(e),
        Ok((_, me)) => match c.db.project(project_id) {
            None => Err(Error::NotFound),
            Some(project) => if project.owner_company_id != me.company_id {
                Err(Error::NotAMember)
            } else if c.db.company(target_company_id) is None {
                Err(Error::NotFound)
            } else if target_company_id == me.company_id {
                Err(Error::Conflict)
            } else if !(c.db.connection_between(me.company_id, target_company_id) is Some
                && c.db.connection_between(me.company_id, target_company_id)->0.status
                == ConnectionStatus::Accepted) {
                Err(Error::InvalidState)
            } else if c.db.seat(project_id, target_company_id) is Some && (c.db.seat(
                project_id,
                target_company_id,
            )->0.status == ProjectMemberStatus::Accepted || c.db.seat(project_id, target_company_id)->0.status
                == ProjectMemberStatus::Invited) {
                Err(Error::Conflict)
            } else {
                Ok(
                    vacated(c.db, project_id, target_company_id).add_seat(
                        project_id,
                        target_company_id,
                        ProjectMemberStatus::Invited,
                        c.sender,
                        c.timestamp,
                    ).notify_company_role(
                        target_company_id,
                        UserRole::Admin,
                        None,
                        NotificationType::ProjectInvite,
                        "Project invitation: "@ + project.name,
                        "Your company has been invited to join project '"@ + project.name + "'"@,
                        c.timestamp,
                    ),
                )
            },
        },
    }
}

/// Invites another company to a project. Only Admins of the owner company
/// can invite. A seat that the company gave up earlier is cleaned up first.
pub fn invite_to_project(ctx: &mut CallContext, project_id: u64, target_company_id: u64) -> (r: Result<(), Error>)
    requires
        old(ctx)@.db.next_project_member_id < u64::MAX,
        old(ctx)@.db.room_for_fan_outs(1),
    ensures
        applied(old(ctx)@, final(ctx)@, r, invite_to_project_spec(old(ctx)@, project_id, target_company_id)),
        old(ctx)@.db.wf() ==> final(ctx)@.db.wf(),
{
    proof {
        if ctx@.db.wf() {
            lemma_invite_to_project_keeps_wf(ctx@, project_id, target_company_id);
        }
    }
    let (_caller, me) = match require_role_at_least(ctx, UserRole::Admin) {
        Ok(found) => found,
        Err(e) => {
            return Err(e);
        },
    };
    let company_id = me.company_id;
    let p = match ctx.db.project_index(project_id) {
        Some(p) => p,
        None => {
            return Err(Error::NotFound);
        },
    };
    if ctx.db.projects[p].owner_company_id != company_id {
        return Err(Error::NotAMember);
    }
    let project_name = ctx.db.projects[p].name.clone();
    if ctx.db.company_index(target_company_id).is_none() {
        return Err(Error::NotFound);
    }
    if target_company_id == company_id {
        return Err(Error::Conflict);
    }
    let connected = match ctx.db.connection_index_between(company_id, target_company_id) {
        Some(i) => ctx.db.connections[i].status == ConnectionStatus::Accepted,
        None => false,
    };
    if !connected {
        return Err(Error::InvalidState);
    }
    if let Some(existing) = ctx.db.seat(project_id, target_company_id) {
        match existing.status {
            ProjectMemberStatus::Accepted => {
                return Err(Error::Conflict);
            },
            ProjectMemberStatus::Invited => {
                return Err(Error::Conflict);
            },
            ProjectMemberStatus::Left | ProjectMemberStatus::Kicked => {
                ctx.db.drop_seat(existing.id);
            },
        }
    }
    let sender = ctx.sender;
    let now = ctx.timestamp;
    ctx.db.add_seat(project_id, target_company_id, ProjectMemberStatus::Invited, sender, now);
    let title = join2("Project invitation: ", project_name.as_str());
    let body = join3("Your company has been invited to join project '", project_name.as_str(), "'");
    proof {
        lemma_fan_out_frame(
            ctx@.db,
            target_company_id,
            UserRole::Admin,
            None,
            NotificationType::ProjectInvite,
            title@,
            body@,
            now,
        );
    }
    notify_company_role(ctx, target_company_id, UserRole::Admin, None, NotificationType::ProjectInvite, title, body);
    Ok(())
}

/// An Admin of an invited company accepts the invitation.
///
/// Fails as `resolve` does for the role Admin; with `NotFound` where the
/// project does not exist, or the caller's company has no Invited seat in
/// it. Otherwise the seat becomes Accepted as of now, and the Admins of the
/// other companies with an Accepted seat are notified.
pub open spec fn accept_project_invite_spec(c: CtxView, project_id: u64) -> Result<DbView, Error> {
    match c.db.resolve(c.sender, UserRole::Admin) {
        Err(e) => Err(e),
        Ok((_, me)) => match c.db.project(project_id) {
            None => Err(Error::NotFound),
            Some(project) => match c.db.seat_with(project_id, me.company_id, ProjectMemberStatus::Invited) {
                None => Err(Error::NotFound),
                Some(seat) => {
                    let seated = c.db.accept_seat(seat.id, c.timestamp);
                    let label = c.db.company_label(me.company_id);
                    Ok(
                        seated.notify_companies(
                            seated.other_accepted(project_id, me.company_id, me.company_id),
                            UserRole::Admin,
                            NotificationType::ProjectAccepted,
                            label + " joined project"@,
                            label + " accepted the invitation to project '"@ + project.name + "'"@,
                            c.timestamp,
                        ),
                    )
                },
            },
        },
    }
}

/// Accepts a pending project invitation.
pub fn accept_project_invite(ctx: &mut CallContext, project_id: u64) -> (r: Result<(), Error>)
    requires
        old(ctx)@.db.room_for_fan_outs(old(ctx)@.db.project_members.len() as int),
    ensures
        applied(old(ctx)@, final(ctx)@, r, accept_project_invite_spec(old(ctx)@, project_id)),
        old(ctx)@.db.wf() ==> final(ctx)@.db.wf(),
{
    proof {
        if ctx@.db.wf() {
            lemma_accept_project_invite_keeps_wf(ctx@, project_id);
        }
    }
    let (_caller, me) = match require_role_at_least(ctx, UserRole::Admin) {
        Ok(found) => found,
        Err(e) => {
            return Err(e);
        },
    };
    let company_id = me.company_id;
    let p = match ctx.db.project_index(project_id) {
        Some(p) => p,
        None => {
            return Err(Error::NotFound);
        },
    };
    let project_name = ctx.db.projects[p].name.clone();
    let seat = match find_project_membership(ctx, project_id, company_id, ProjectMemberStatus::Invited) {
        Some(seat) => seat,
        None => {
            return Err(Error::NotFound);
        },
    };
    let company_name = ctx.db.company_label(company_id);
    let now = ctx.timestamp;
    ctx.db.accept_seat(seat.id, now);
    let others = ctx.db.other_accepted(project_id, company_id, company_id);
    let title = join2(company_name.as_str(), " joined project");
    let body = join4(company_name.as_str(), " accepted the invitation to project '", project_name.as_str(), "'");
    proof {
        lemma_fan_out_bound(
            others@.len() as int,
            old(ctx)@.db.project_members.len() as int,
            old(ctx)@.db.members.len() as int,
        );
    }
    notify_companies(ctx, &others, UserRole::Admin, NotificationType::ProjectAccepted, &title, &body);
    Ok(())
}

/// An Admin of an invited company declines the invitation.
///
/// Fails as `accept_project_invite_spec` does. Otherwise the Invited seat
/// is deleted and the owner company's Admins are notified.
pub open spec fn decline_project_invite_spec(c: CtxView, project_id: u64) -> Result<DbView, Error> {
    match c.db.resolve(c.sender, UserRole::Admin) {
        Err(e) => Err(e),
        Ok((_, me)) => match c.db.project(project_id) {
            None => Err(Error::NotFound),
            Some(project) => match c.db.seat_with(project_id, me.company_id, ProjectMemberStatus::Invited) {
                None => Err(Error::NotFound),
                Some(seat) => {
                    let label = c.db.company_label(me.company_id);
                    Ok(
                        c.db.drop_seat(seat.id).notify_company_role(
                            project.owner_company_id,
                            UserRole::Admin,
                            None,
                            NotificationType::ProjectDeclined,
                            label + " declined project invite"@,
                            label + " declined the invitation to project '"@ + project.name + "'"@,
                            c.timestamp,
                        ),
                    )
                },
            },
        },
    }
}

/// Declines a pending project invitation, which deletes the Invited seat.
pub fn decline_project_invite(ctx: &mut CallContext, project_id: u64) -> (r: Result<(), Error>)
    requires
        old(ctx)@.db.room_for_fan_outs(1),
    ensures
        applied(old(ctx)@, final(ctx)@, r, decline_project_invite_spec(old(ctx)@, project_id)),
        old(ctx)@.db.wf() ==> final(ctx)@.db.wf(),
{
    proof {
        if ctx@.db.wf() {
            lemma_decline_project_invite_keeps_wf(ctx@, project_id);
        }
    }
    let (_caller, me) = match require_role_at_least(ctx, UserRole::Admin) {
        Ok(found) => found,
        Err(e) => {
            return Err(e);
        },
    };
    let company_id = me.company_id;
    let p = match ctx.db.project_index(project_id) {
        Some(p) => p,
        None => {
            return Err(Error::NotFound);
        },
    };
    let project_name = ctx.db.projects[p].name.clone();
    let owner_company_id = ctx.db.projects[p].owner_company_id;
    let seat = match find_project_membership(ctx, project_id, company_id, ProjectMemberStatus::Invited) {
        Some(seat) => seat,
        None => {
            return Err(Error::NotFound);
        },
    };
    let company_name = ctx.db.company_label(company_id);
    ctx.db.drop_seat(seat.id);
    let title = join2(company_name.as_str(), " declined project invite");
    let body = join4(company_name.as_str(), " declined the invitation to project '", project_name.as_str(), "'");
    proof {
        lemma_fan_out_frame(
            ctx@.db,
            owner_company_id,
            UserRole::Admin,
            None,
            NotificationType::ProjectDeclined,
            title@,
            body@,
            ctx.timestamp,
        );
    }
    notify_company_role(ctx, owner_company_id, UserRole::Admin, None, NotificationType::ProjectDeclined, title, body);
    Ok(())
}

/// A member of at least Field role writes in the chat of a project in which
/// their company has an Accepted seat.
///
/// Fails as `resolve` does for the role Field; with `NotFound` where the
/// project does not exist; with `NotAMember` where the caller's company has
/// no Accepted seat in it; with `InvalidInput` where the trimmed text is
/// empty or longer than 500 bytes. Otherwise the message is inserted and
/// the members of at least Field role of the other companies with an
/// Accepted seat are notified, with a preview of 80 characters.
pub open spec fn send_project_chat_spec(c: CtxView, project_id: u64, text: Seq<char>) -> Result<DbView, Error> {
    match c.db.resolve(c.sender, UserRole::Field) {
        Err(e) => Err(e),
        Ok((account, me)) => match c.db.project(project_id) {
            None => Err(Error::NotFound),
            Some(project) => if c.db.seat_with(project_id, me.company_id, ProjectMemberStatus::Accepted) is None {
                Err(Error::NotAMember)
            } else {
                let text = trimmed(text);
                if text.len() == 0 || byte_len(text) > MAX_CHAT_MESSAGE {
                    Err(Error::InvalidInput)
                } else {
                    let label = c.db.company_label(me.company_id);
                    Ok(
                        c.db.add_project_chat(project_id, c.sender, text, c.timestamp).notify_companies(
                            c.db.other_accepted(project_id, me.company_id, me.company_id),
                            UserRole::Field,
                            NotificationType::ProjectChat,
                            project.name + " \u{2014} "@ + label,
                            "["@ + label + "] "@ + account.nickname + ": "@ + preview_of(text, 80),
                            c.timestamp,
                        ),
                    )
                }
            },
        },
    }
}

/// Sends a chat message in a project room.
pub fn send_project_chat(ctx: &mut CallContext, project_id: u64, text: String) -> (r: Result<(), Error>)
    requires
        old(ctx)@.db.next_project_chat_id < u64::MAX,
        old(ctx)@.db.room_for_fan_outs(old(ctx)@.db.project_members.len() as int),
    ensures
        applied(old(ctx)@, final(ctx)@, r, send_project_chat_spec(old(ctx)@, project_id, text@)),
        old(ctx)@.db.wf() ==> final(ctx)@.db.wf(),
{
    proof {
        if ctx@.db.wf() {
            lemma_send_project_chat_keeps_wf(ctx@, project_id, text@);
        }
    }
    let (account, me) = match require_role_at_least(ctx, UserRole::Field) {
        Ok(found) => found,
        Err(e) => {
            return Err(e);
        },
    };
    let company_id = me.company_id;
    let p = match ctx.db.project_index(project_id) {
        Some(p) => p,
        None => {
            return Err(Error::NotFound);
        },
    };
    let project_name = ctx.db.projects[p].name.clone();
    if find_project_membership(ctx, project_id, company_id, ProjectMemberStatus::Accepted).is_none() {
        return Err(Error::NotAMember);
    }
    let text = trim(text.as_str());
    if text.as_str().is_empty() {
        return Err(Error::InvalidInput);
    }
    if validate_length(text.as_str(), MAX_CHAT_MESSAGE).is_err() {
        return Err(Error::InvalidInput);
    }
    let company_name = ctx.db.company_label(company_id);
    let preview = truncate_preview(text.as_str(), 80);
    let title = join3(project_name.as_str(), " \u{2014} ", company_name.as_str());
    let mut body = join4("[", company_name.as_str(), "] ", account.nickname.as_str());
    body.append(": ");
    body.append(preview.as_str());
    let others = ctx.db.other_accepted(project_id, company_id, company_id);
    let sender = ctx.sender;
    let now = ctx.timestamp;
    ctx.db.add_project_chat(project_id, sender, text, now);
    proof {
        lemma_fan_out_bound(
            others@.len() as int,
            old(ctx)@.db.project_members.len() as int,
            old(ctx)@.db.members.len() as int,
        );
    }
    notify_companies(ctx, &others, UserRole::Field, NotificationType::ProjectChat, &title, &body);
    Ok(())
}

/// The store with the project dissolved where it has no Accepted seat left.
pub open spec fn dissolved_if_abandoned(db: DbView, project_id: u64) -> DbView {
    if db.has_accepted(project_id) {
        db
    } else {
        db.delete_project_cascade(project_id)
    }
}

/// An Admin of a member company gives up its Accepted seat.
///
/// Fails as `resolve` does for the role Admin; with `NotFound` where the
/// project does not exist; with `InvalidState` where the caller's company
/// owns it; with `NotAMember` where the caller's company has no Accepted
/// seat in it. Otherwise the seat becomes Left, the Admins of the other
/// companies with an Accepted seat are notified, and the project is
/// dissolved if and only if no Accepted seat is left.
pub open spec fn leave_project_spec(c: CtxView, project_id: u64) -> Result<DbView, Error> {
    match c.db.resolve(c.sender, UserRole::Admin) {
        Err(e) => Err(e),
        Ok((_, me)) => match c.db.project(project_id) {
            None => Err(Error::NotFound),
            Some(project) => if project.owner_company_id == me.company_id {
                Err(Error::InvalidState)
            } else {
                match c.db.seat_with(project_id, me.company_id, ProjectMemberStatus::Accepted) {
                    None => Err(Error::NotAMember),
                    Some(seat) => {
                        let left = c.db.set_seat_status(seat.id, ProjectMemberStatus::Left);
                        let label = c.db.company_label(me.company_id);
                        Ok(
                            dissolved_if_abandoned(
                                left.notify_companies(
                                    left.other_accepted(project_id, me.company_id, me.company_id),
                                    UserRole::Admin,
                                    NotificationType::ProjectLeft,
                                    label + " left project"@,
                                    label + " left project '"@ + project.name + "'"@,
                                    c.timestamp,
                                ),
                                project_id,
                            ),
                        )
                    },
                }
            },
        },
    }
}

/// Leaves a project. The owner company cannot leave; it deletes the project
/// instead. If no accepted member remains, the project is deleted.
pub fn leave_project(ctx: &mut CallContext, project_id: u64) -> (r: Result<(), Error>)
    requires
        old(ctx)@.db.room_for_fan_outs(old(ctx)@.db.project_members.len() as int),
    ensures
        applied(old(ctx)@, final(ctx)@, r, leave_project_spec(old(ctx)@, project_id)),
        old(ctx)@.db.wf() ==> final(ctx)@.db.wf(),
{
    proof {
        if ctx@.db.wf() {
            lemma_leave_project_keeps_wf(ctx@, project_id);
        }
    }
    let (_caller, me) = match require_role_at_least(ctx, UserRole::Admin) {
        Ok(found) => found,
        Err(e) => {
            return Err(e);
        },
    };
    let company_id = me.company_id;
    let p = match ctx.db.project_index(project_id) {
        Some(p) => p,
        None => {
            return Err(Error::NotFound);
        },
    };
    if ctx.db.projects[p].owner_company_id == company_id {
        return Err(Error::InvalidState);
    }
    let project_name = ctx.db.projects[p].name.clone();
    let seat = match find_project_membership(ctx, project_id, company_id, ProjectMemberStatus::Accepted) {
        Some(seat) => seat,
        None => {
            return Err(Error::NotAMember);
        },
    };
    let company_name = ctx.db.company_label(company_id);
    ctx.db.set_seat_status(seat.id, ProjectMemberStatus::Left);
    let others = ctx.db.other_accepted(project_id, company_id, company_id);
    let title = join2(company_name.as_str(), " left project");
    let body = join4(company_name.as_str(), " left project '", project_name.as_str(), "'");
    proof {
        lemma_fan_out_bound(
            others@.len() as int,
            old(ctx)@.db.project_members.len() as int,
            old(ctx)@.db.members.len() as int,
        );
    }
    notify_companies(ctx, &others, UserRole::Admin, NotificationType::ProjectLeft, &title, &body);
    if !ctx.db.has_accepted(project_id) {
        delete_project_cascade(ctx, project_id);
    }
    Ok(())
}

/// An Admin of the owner company removes a member company.
///
/// Fails as `resolve` does for the role Admin; with `NotFound` where the
/// project does not exist; with `NotAMember` where the caller's company
/// does not own it; with `Conflict` where the target is the caller's own
/// company; with `NotFound` where the target has no Accepted seat in it.
/// Otherwise the seat becomes Kicked, the target's Admins are notified, and
/// so are the Admins of the companies with an Accepted seat other than the
/// owner and the target.
pub open spec fn kick_from_project_spec(
    c: CtxView,
    project_id: u64,
    target_company_id: u64,
) -> Result<DbView, Error> {
    match c.db.resolve(c.sender, UserRole::Admin) {
        Err(e) => Err(e),
        Ok((_, me)) => match c.db.project(project_id) {
            None => Err(Error::NotFound),
            Some(project) => if project.owner_company_id != me.company_id {
                Err(Error::NotAMember)
            } else if target_company_id == me.company_id {
                Err(Error::Conflict)
            } else {
                match c.db.seat_with(project_id, target_company_id, ProjectMemberStatus::Accepted) {
                    None => Err(Error::NotFound),
                    Some(seat) => {
                        let label = c.db.company_label(target_company_id);
                        let kicked = c.db.set_seat_status(seat.id, ProjectMemberStatus::Kicked).notify_company_role(
                            target_company_id,
                            UserRole::Admin,
                            None,
                            NotificationType::ProjectKicked,
                            "Removed from project '"@ + project.name + "'"@,
                            "Your company has been removed from project '"@ + project.name + "'"@,
                            c.timestamp,
                        );
                        Ok(
                            kicked.notify_companies(
                                kicked.other_accepted(project_id, me.company_id, target_company_id),
                                UserRole::Admin,
                                NotificationType::ProjectKicked,
                                label + " removed from project"@,
                                label + " was removed from project '"@ + project.name + "'"@,
                                c.timestamp,
                            ),
                        )
                    },
                }
            },
        },
    }
}

/// Kicks a company from a project. Only Admins of the owner company can
/// kick.
pub fn kick_from_project(ctx: &mut CallContext, project_id: u64, target_company_id: u64) -> (r: Result<(), Error>)
    requires
        old(ctx)@.db.room_for_fan_outs(old(ctx)@.db.project_members.len() as int + 1),
    ensures
        applied(old(ctx)@, final(ctx)@, r, kick_from_project_spec(old(ctx)@, project_id, target_company_id)),
        old(ctx)@.db.wf() ==> final(ctx)@.db.wf(),
{
    proof {
        if ctx@.db.wf() {
            lemma_kick_from_project_keeps_wf(ctx@, project_id, target_company_id);
        }
    }
    let (_caller, me) = match require_role_at_least(ctx, UserRole::Admin) {
        Ok(found) => found,
        Err(e) => {
            return Err(e);
        },
    };
    let company_id = me.company_id;
    let p = match ctx.db.project_index(project_id) {
        Some(p) => p,
        None => {
            return Err(Error::NotFound);
        },
    };
    if ctx.db.projects[p].owner_company_id != company_id {
        return Err(Error::NotAMember);
    }
    if target_company_id == company_id {
        return Err(Error::Conflict);
    }
    let project_name = ctx.db.projects[p].name.clone();
    let seat = match find_project_membership(ctx, project_id, target_company_id, ProjectMemberStatus::Accepted) {
        Some(seat) => seat,
        None => {
            return Err(Error::NotFound);
        },
    };
    let target_name = ctx.db.company_label(target_company_id);
    ctx.db.set_seat_status(seat.id, ProjectMemberStatus::Kicked);
    let title = join3("Removed from project '", project_name.as_str(), "'");
    let body = join3("Your company has been removed from project '", project_name.as_str(), "'");
    proof {
        lemma_fan_out_bound(
            1,
            old(ctx)@.db.project_members.len() as int + 1,
            old(ctx)@.db.members.len() as int,
        );
        lemma_fan_out_frame(
            ctx@.db,
            target_company_id,
            UserRole::Admin,
            None,
            NotificationType::ProjectKicked,
            title@,
            body@,
            ctx.timestamp,
        );
    }
    notify_company_role(ctx, target_company_id, UserRole::Admin, None, NotificationType::ProjectKicked, title, body);
    let others = ctx.db.other_accepted(project_id, company_id, target_company_id);
    let title = join2(target_name.as_str(), " removed from project");
    let body = join4(target_name.as_str(), " was removed from project '", project_name.as_str(), "'");
    proof {
        lemma_fan_out_bound(
            others@.len() as int,
            old(ctx)@.db.project_members.len() as int,
            old(ctx)@.db.members.len() as int,
        );
    }
    notify_companies(ctx, &others, UserRole::Admin, NotificationType::ProjectKicked, &title, &body);
    Ok(())
}

/// An Admin of the owner company deletes the project.
///
/// Fails as `resolve` does for the role Admin; with `NotFound` where the
/// project does not exist; with `NotAMember` where the caller's company
/// does not own it. Otherwise the Admins of the other companies with an
/// Accepted seat are notified, and the project, its seats and its chat are
/// deleted.
pub open spec fn delete_project_spec(c: CtxView, project_id: u64) -> Result<DbView, Error> {
    match c.db.resolve(c.sender, UserRole::Admin) {
        Err(e) => Err(e),
        Ok((_, me)) => match c.db.project(project_id) {
            None => Err(Error::NotFound),
            Some(project) => if project.owner_company_id != me.company_id {
                Err(Error::NotAMember)
            } else {
                Ok(
                    c.db.notify_companies(
                        c.db.other_accepted(project_id, me.company_id, me.company_id),
                        UserRole::Admin,
                        NotificationType::ProjectLeft,
                        "Project '"@ + project.name + "' deleted"@,
                        "Project '"@ + project.name + "' has been deleted by the owner"@,
                        c.timestamp,
                    ).delete_project_cascade(project_id),
                )
            },
        },
    }
}

/// Deletes a project entirely. Only Admins of the owner company can delete.
pub fn delete_project(ctx: &mut CallContext, project_id: u64) -> (r: Result<(), Error>)
    requires
        old(ctx)@.db.room_for_fan_outs(old(ctx)@.db.project_members.len() as int),
    ensures
        applied(old(ctx)@, final(ctx)@, r, delete_project_spec(old(ctx)@, project_id)),
        old(ctx)@.db.wf() ==> final(ctx)@.db.wf(),
{
    proof {
        if ctx@.db.wf() {
            lemma_delete_project_keeps_wf(ctx@, project_id);
        }
    }
    let (_caller, me) = match require_role_at_least(ctx, UserRole::Admin) {
        Ok(found) => found,
        Err(e) => {
            return Err(e);
        },
    };
    let company_id = me.company_id;
    let p = match ctx.db.project_index(project_id) {
        Some(p) => p,
        None => {
            return Err(Error::NotFound);
        },
    };
    if ctx.db.projects[p].owner_company_id != company_id {
        return Err(Error::NotAMember);
    }
    let project_name = ctx.db.projects[p].name.clone();
    let others = ctx.db.other_accepted(project_id, company_id, company_id);
    let title = join3("Project '", project_name.as_str(), "' deleted");
    let body = join3("Project '", project_name.as_str(), "' has been deleted by the owner");
    proof {
        lemma_fan_out_bound(
            others@.len() as int,
            old(ctx)@.db.project_members.len() as int,
            old(ctx)@.db.members.len() as int,
        );
    }
    notify_companies(ctx, &others, UserRole::Admin, NotificationType::ProjectLeft, &title, &body);
    delete_project_cascade(ctx, project_id);
    Ok(())
}

} // verus!
