//! Each procedure leaves no reference dangling.

use vstd::prelude::*;
use crate::accounts::{
    consumed, create_company_spec, delete_invite_code_spec, generate_invite_code_spec,
    join_with_code_spec,
};
use crate::authority::lemma_resolve_ok;
use crate::cascade::delete_company_spec;
use crate::connections::{
    accept_connection_spec, block_company_spec, cancel_request_spec, decline_connection_spec,
    disconnect_company_spec, request_connection_spec, unblock_company_spec,
};
use crate::context::CtxView;
use crate::model::{DbView, company_is, not, project_chat_in, project_is, seat_in};
use crate::projects::{
    accept_project_invite_spec, create_project_spec, decline_project_invite_spec,
    delete_project_spec, invite_to_project_spec, kick_from_project_spec, leave_project_spec,
    send_project_chat_spec, vacated,
};
use crate::proofs::people::{lemma_notify_companies_core, lemma_notify_company_role_core};
use crate::roles::{
    ConnectionStatus, Identity, NotificationType, ProjectMemberStatus, Timestamp, UserRole,
};
use crate::seqs::{
    every, lemma_any_after_filter, lemma_any_after_push, lemma_every_filter, lemma_filter_exact,
    lemma_first_index,
};
use crate::soundness::{
    capability_linked, company_known, connection_linked, invite_linked, lemma_every_push,
    member_linked, project_chat_linked, project_known, project_linked, seat_linked,
};
use crate::team::{
    add_colleague_by_identity_spec, leave_company_spec, remove_colleague_spec,
    transfer_ownership_spec, update_capabilities_spec, update_company_profile_spec,
    update_user_role_spec,
};
use crate::text::{slug_of, trimmed};

verus! {

/// A company that a lookup finds is known, and so is a project.
pub proof fn lemma_found_is_known(db: DbView, company_id: u64, project_id: u64)
    ensures
        db.company(company_id) is Some <==> company_known(db.companies, company_id),
        db.project(project_id) is Some <==> project_known(db.projects, project_id),
{
    lemma_first_index(db.companies, company_is(company_id));
    lemma_first_index(db.projects, project_is(project_id));
}

/// References stay sound where the rows that refer are left alone and
/// every company that was known stays known.
pub proof fn lemma_links_kept(db: DbView, after: DbView)
    requires
        db.links_ok(),
        forall|id: u64| company_known(db.companies, id) ==> #[trigger] company_known(after.companies, id),
        after.members == db.members,
        after.invite_codes == db.invite_codes,
        after.capabilities == db.capabilities,
        after.connections == db.connections,
        after.projects == db.projects,
        after.project_members == db.project_members,
        after.project_chats == db.project_chats,
    ensures
        after.links_ok(),
{
    assert forall|j: int| 0 <= j < after.members.len() implies member_linked(after.companies)(
        #[trigger] after.members[j],
    ) by {
        assert(member_linked(db.companies)(db.members[j]));
    }
    assert forall|j: int| 0 <= j < after.invite_codes.len() implies invite_linked(after.companies)(
        #[trigger] after.invite_codes[j],
    ) by {
        assert(invite_linked(db.companies)(db.invite_codes[j]));
    }
    assert forall|j: int| 0 <= j < after.capabilities.len() implies capability_linked(after.companies)(
        #[trigger] after.capabilities[j],
    ) by {
        assert(capability_linked(db.companies)(db.capabilities[j]));
    }
    assert forall|j: int| 0 <= j < after.connections.len() implies connection_linked(after.companies)(
        #[trigger] after.connections[j],
    ) by {
        assert(connection_linked(db.companies)(db.connections[j]));
    }
    assert forall|j: int| 0 <= j < after.projects.len() implies project_linked(after.companies)(
        #[trigger] after.projects[j],
    ) by {
        assert(project_linked(db.companies)(db.projects[j]));
    }
    assert forall|j: int| 0 <= j < after.project_members.len() implies seat_linked(
        after.projects,
        after.companies,
    )(#[trigger] after.project_members[j]) by {
        assert(seat_linked(db.projects, db.companies)(db.project_members[j]));
    }
}

/// What is kept of a table refers to what the table referred to; so does a
/// table of the same length whose rows refer as before.
pub proof fn lemma_filter_refers<T>(s: Seq<T>, keep: spec_fn(T) -> bool, j: int) -> (i: int)
    requires
        0 <= j < s.filter(keep).len(),
    ensures
        0 <= i < s.len(),
        s[i] == s.filter(keep)[j],
{
    crate::seqs::lemma_filter_members(s, keep);
    assert(s.contains(s.filter(keep)[j]));
    choose|i: int| 0 <= i < s.len() && s[i] == s.filter(keep)[j]
}

/// A project deleted with its seats and chat leaves no reference dangling.
pub proof fn lemma_cascade_keeps_links(db: DbView, project_id: u64)
    requires
        db.links_ok(),
    ensures
        db.delete_project_cascade(project_id).links_ok(),
{
    let after = db.delete_project_cascade(project_id);
    lemma_filter_exact(db.projects, not(project_is(project_id)));
    lemma_filter_exact(db.project_members, not(seat_in(project_id)));
    lemma_filter_exact(db.project_chats, not(project_chat_in(project_id)));
    assert forall|j: int| 0 <= j < after.projects.len() implies project_linked(after.companies)(
        #[trigger] after.projects[j],
    ) by {
        let i = lemma_filter_refers(db.projects, not(project_is(project_id)), j);
        assert(project_linked(db.companies)(db.projects[i]));
    }
    assert forall|j: int| 0 <= j < after.project_members.len() implies seat_linked(
        after.projects,
        after.companies,
    )(#[trigger] after.project_members[j]) by {
        let i = lemma_filter_refers(db.project_members, not(seat_in(project_id)), j);
        let seat = db.project_members[i];
        assert(seat_linked(db.projects, db.companies)(seat));
        assert(after.project_members.contains(seat));
        assert(not(seat_in(project_id))(seat));
        assert forall|x: crate::rows::ProjectView| #[trigger] project_is(seat.project_id)(x) implies not(
            project_is(project_id),
        )(x) by {}
        lemma_any_after_filter(db.projects, project_is(seat.project_id), not(project_is(project_id)));
    }
    assert forall|j: int| 0 <= j < after.project_chats.len() implies project_chat_linked(after.projects)(
        #[trigger] after.project_chats[j],
    ) by {
        let i = lemma_filter_refers(db.project_chats, not(project_chat_in(project_id)), j);
        let chat = db.project_chats[i];
        assert(project_chat_linked(db.projects)(chat));
        assert(after.project_chats.contains(chat));
        assert(not(project_chat_in(project_id))(chat));
        assert forall|x: crate::rows::ProjectView| #[trigger] project_is(chat.project_id)(x) implies not(
            project_is(project_id),
        )(x) by {}
        lemma_any_after_filter(db.projects, project_is(chat.project_id), not(project_is(project_id)));
    }
}

// ---------------------------------------------------------------------
// Changes of one table
// ---------------------------------------------------------------------

/// A membership more, of a company that exists.
pub proof fn lemma_add_member_keeps_links(
    db: DbView,
    who: Identity,
    company_id: u64,
    role: UserRole,
    now: Timestamp,
)
    requires
        db.links_ok(),
        company_known(db.companies, company_id),
    ensures
        db.add_member(who, company_id, role, now).links_ok(),
{
    let after = db.add_member(who, company_id, role, now);
    lemma_every_push(db.members, member_linked(db.companies), after.members[db.members.len() as int]);
}

/// A membership deleted, or all those of a company.
pub proof fn lemma_drop_member_keeps_links(db: DbView, id: u64, company_id: u64)
    requires
        db.links_ok(),
    ensures
        db.drop_member(id).links_ok(),
        db.drop_members_of(company_id).links_ok(),
{
    lemma_every_filter(db.members, not(crate::model::member_id_is(id)), member_linked(db.companies));
    lemma_every_filter(db.members, not(crate::model::member_in(company_id)), member_linked(db.companies));
}

/// A role changed.
pub proof fn lemma_set_role_keeps_links(db: DbView, id: u64, role: UserRole)
    requires
        db.links_ok(),
    ensures
        db.set_role(id, role).links_ok(),
{
    let after = db.set_role(id, role);
    assert forall|i: int| 0 <= i < after.members.len() implies member_linked(after.companies)(
        #[trigger] after.members[i],
    ) by {
        assert(member_linked(db.companies)(db.members[i]));
    }
}

/// A company's profile or owner changed: its id stays.
pub proof fn lemma_company_change_keeps_links(db: DbView, after: DbView)
    requires
        db.links_ok(),
        after.companies.len() == db.companies.len(),
        forall|k: int| 0 <= k < db.companies.len() ==> (#[trigger] after.companies[k]).id == db.companies[k].id,
        after == (DbView { companies: after.companies, ..db }),
    ensures
        after.links_ok(),
{
    assert forall|id: u64| company_known(db.companies, id) implies #[trigger] company_known(after.companies, id) by {
        crate::seqs::lemma_any_after_change(db.companies, after.companies, company_is(id));
    }
    lemma_links_kept(db, after);
}

/// A company more.
pub proof fn lemma_add_company_keeps_links(
    db: DbView,
    owner: Identity,
    name: Seq<char>,
    slug: Seq<char>,
    location: Seq<char>,
)
    requires
        db.links_ok(),
    ensures
        db.add_company(owner, name, slug, location).links_ok(),
        company_known(db.add_company(owner, name, slug, location).companies, db.next_company_id),
{
    let after = db.add_company(owner, name, slug, location);
    let row = after.companies[db.companies.len() as int];
    assert forall|id: u64| company_known(db.companies, id) implies #[trigger] company_known(after.companies, id) by {
        lemma_any_after_push(db.companies, company_is(id), row);
    }
    lemma_any_after_push(db.companies, company_is(db.next_company_id), row);
    lemma_links_kept(db, after);
}

/// A capability row more, of a company that exists; or one changed.
pub proof fn lemma_capability_keeps_links(db: DbView, company_id: u64, flags: crate::rows::Capability)
    requires
        db.links_ok(),
    ensures
        company_known(db.companies, company_id) ==> db.add_capability(company_id).links_ok(),
        db.set_capability(flags).links_ok(),
{
    if company_known(db.companies, company_id) {
        let after = db.add_capability(company_id);
        lemma_every_push(
            db.capabilities,
            capability_linked(db.companies),
            after.capabilities[db.capabilities.len() as int],
        );
    }
    let changed = db.set_capability(flags);
    assert forall|i: int| 0 <= i < changed.capabilities.len() implies capability_linked(changed.companies)(
        #[trigger] changed.capabilities[i],
    ) by {
        assert(capability_linked(db.companies)(db.capabilities[i]));
    }
}

/// An invite code more, of a company that exists.
pub proof fn lemma_add_invite_keeps_links(db: DbView, invite: crate::rows::InviteCodeView)
    requires
        db.links_ok(),
        company_known(db.companies, invite.company_id),
    ensures
        db.add_invite(invite).links_ok(),
{
    lemma_every_push(db.invite_codes, invite_linked(db.companies), invite);
}

/// An invite code deleted, or changed in its uses.
pub proof fn lemma_invite_change_keeps_links(db: DbView, code: Seq<char>, uses_remaining: u32)
    requires
        db.links_ok(),
    ensures
        db.drop_invite(code).links_ok(),
        db.set_invite_uses(code, uses_remaining).links_ok(),
{
    lemma_every_filter(db.invite_codes, not(crate::model::code_is(code)), invite_linked(db.companies));
    let changed = db.set_invite_uses(code, uses_remaining);
    assert forall|i: int| 0 <= i < changed.invite_codes.len() implies invite_linked(changed.companies)(
        #[trigger] changed.invite_codes[i],
    ) by {
        assert(invite_linked(db.companies)(db.invite_codes[i]));
    }
}

/// A connection more, between two companies that exist.
pub proof fn lemma_add_connection_keeps_links(
    db: DbView,
    x: u64,
    y: u64,
    status: ConnectionStatus,
    who: Identity,
    blocking_company_id: Option<u64>,
    message: Seq<char>,
    now: Timestamp,
)
    requires
        db.links_ok(),
        company_known(db.companies, x),
        company_known(db.companies, y),
    ensures
        db.add_connection(x, y, status, who, blocking_company_id, message, now).links_ok(),
{
    let after = db.add_connection(x, y, status, who, blocking_company_id, message, now);
    lemma_every_push(
        db.connections,
        connection_linked(db.companies),
        after.connections[db.connections.len() as int],
    );
}

/// A connection deleted, with or without its chat, or changed in its
/// status.
pub proof fn lemma_connection_change_keeps_links(db: DbView, id: u64, status: ConnectionStatus, blocker: u64)
    requires
        db.links_ok(),
    ensures
        db.drop_connection(id).links_ok(),
        db.drop_connection_chat(id).drop_connection(id).links_ok(),
        db.set_connection_status(id, status).links_ok(),
        db.set_blocked(id, blocker).links_ok(),
{
    lemma_every_filter(db.connections, not(crate::model::connection_is(id)), connection_linked(db.companies));
    let changed = db.set_connection_status(id, status);
    assert forall|i: int| 0 <= i < changed.connections.len() implies connection_linked(changed.companies)(
        #[trigger] changed.connections[i],
    ) by {
        assert(connection_linked(db.companies)(db.connections[i]));
    }
    let blocked = db.set_blocked(id, blocker);
    assert forall|i: int| 0 <= i < blocked.connections.len() implies connection_linked(blocked.companies)(
        #[trigger] blocked.connections[i],
    ) by {
        assert(connection_linked(db.companies)(db.connections[i]));
    }
}

/// A project more, owned by a company that exists.
pub proof fn lemma_add_project_keeps_links(
    db: DbView,
    owner_company_id: u64,
    name: Seq<char>,
    description: Seq<char>,
    who: Identity,
    now: Timestamp,
)
    requires
        db.links_ok(),
        company_known(db.companies, owner_company_id),
    ensures
        db.add_project(owner_company_id, name, description, who, now).links_ok(),
        project_known(db.add_project(owner_company_id, name, description, who, now).projects, db.next_project_id),
{
    let after = db.add_project(owner_company_id, name, description, who, now);
    let row = after.projects[db.projects.len() as int];
    assert forall|id: u64| project_known(db.projects, id) implies #[trigger] project_known(after.projects, id) by {
        lemma_any_after_push(db.projects, project_is(id), row);
    }
    lemma_any_after_push(db.projects, project_is(db.next_project_id), row);
    assert forall|j: int| 0 <= j < after.projects.len() implies project_linked(after.companies)(
        #[trigger] after.projects[j],
    ) by {
        if j < db.projects.len() {
            assert(project_linked(db.companies)(db.projects[j]));
        }
    }
    assert forall|j: int| 0 <= j < after.project_members.len() implies seat_linked(
        after.projects,
        after.companies,
    )(#[trigger] after.project_members[j]) by {
        assert(seat_linked(db.projects, db.companies)(db.project_members[j]));
    }
    assert forall|j: int| 0 <= j < after.project_chats.len() implies project_chat_linked(after.projects)(
        #[trigger] after.project_chats[j],
    ) by {
        assert(project_chat_linked(db.projects)(db.project_chats[j]));
    }
}

/// A seat more, of a company that exists in a project that exists.
pub proof fn lemma_add_seat_keeps_links(
    db: DbView,
    project_id: u64,
    company_id: u64,
    status: ProjectMemberStatus,
    who: Identity,
    now: Timestamp,
)
    requires
        db.links_ok(),
        project_known(db.projects, project_id),
        company_known(db.companies, company_id),
    ensures
        db.add_seat(project_id, company_id, status, who, now).links_ok(),
{
    let after = db.add_seat(project_id, company_id, status, who, now);
    lemma_every_push(
        db.project_members,
        seat_linked(db.projects, db.companies),
        after.project_members[db.project_members.len() as int],
    );
}

/// A seat deleted or changed in its status.
pub proof fn lemma_seat_change_keeps_links(db: DbView, id: u64, status: ProjectMemberStatus, now: Timestamp)
    requires
        db.links_ok(),
    ensures
        db.drop_seat(id).links_ok(),
        db.set_seat_status(id, status).links_ok(),
        db.accept_seat(id, now).links_ok(),
{
    lemma_every_filter(
        db.project_members,
        not(crate::model::seat_id_is(id)),
        seat_linked(db.projects, db.companies),
    );
    let changed = db.set_seat_status(id, status);
    assert forall|i: int| 0 <= i < changed.project_members.len() implies seat_linked(
        changed.projects,
        changed.companies,
    )(#[trigger] changed.project_members[i]) by {
        assert(seat_linked(db.projects, db.companies)(db.project_members[i]));
    }
    let accepted = db.accept_seat(id, now);
    assert forall|i: int| 0 <= i < accepted.project_members.len() implies seat_linked(
        accepted.projects,
        accepted.companies,
    )(#[trigger] accepted.project_members[i]) by {
        assert(seat_linked(db.projects, db.companies)(db.project_members[i]));
    }
}

/// A project chat message more, in a project that exists.
pub proof fn lemma_add_project_chat_keeps_links(
    db: DbView,
    project_id: u64,
    who: Identity,
    text: Seq<char>,
    now: Timestamp,
)
    requires
        db.links_ok(),
        project_known(db.projects, project_id),
    ensures
        db.add_project_chat(project_id, who, text, now).links_ok(),
{
    let after = db.add_project_chat(project_id, who, text, now);
    lemma_every_push(
        db.project_chats,
        project_chat_linked(db.projects),
        after.project_chats[db.project_chats.len() as int],
    );
}

/// Deleting projects one after another leaves no reference dangling.
pub proof fn lemma_delete_projects_keeps_links(db: DbView, project_ids: Seq<u64>)
    requires
        db.links_ok(),
    ensures
        db.delete_projects(project_ids).links_ok(),
    decreases project_ids.len(),
{
    if project_ids.len() > 0 {
        lemma_delete_projects_keeps_links(db, project_ids.drop_last());
        lemma_cascade_keeps_links(db.delete_projects(project_ids.drop_last()), project_ids.last());
    }
}

/// Dissolving abandoned projects leaves no reference dangling.
pub proof fn lemma_dissolve_abandoned_keeps_links(db: DbView, project_ids: Seq<u64>)
    requires
        db.links_ok(),
    ensures
        db.dissolve_abandoned(project_ids).links_ok(),
    decreases project_ids.len(),
{
    if project_ids.len() > 0 {
        lemma_dissolve_abandoned_keeps_links(db, project_ids.drop_last());
        lemma_cascade_keeps_links(db.dissolve_abandoned(project_ids.drop_last()), project_ids.last());
    }
}

/// The deletion of a company leaves no reference dangling: what referred
/// to the company is gone with it.
pub proof fn lemma_delete_company_cascade_keeps_links(db: DbView, company_id: u64)
    requires
        db.links_ok(),
    ensures
        db.delete_company_cascade(company_id).links_ok(),
{
    let gone = not(company_is(company_id));
    let uninvited = db.drop_invites_of(company_id);
    crate::proofs::people::lemma_reassign_each_frame(
        uninvited.drop_members_of(company_id),
        uninvited.member_identities(company_id),
        company_id,
    );
    let unlinked = uninvited.unlink_members(company_id);
    let bare = unlinked.drop_capability(company_id);
    crate::proofs::people::lemma_drop_chats_of_frame(
        bare.drop_connections_touching(company_id),
        bare.connection_ids_touching(company_id),
    );
    let cut = bare.disconnect_all(company_id).drop_notifications_about(company_id);
    // Until the company row goes, everything that is left refers to what
    // exists.
    lemma_every_filter(db.invite_codes, not(crate::model::invite_for(company_id)), invite_linked(db.companies));
    lemma_every_filter(db.members, not(crate::model::member_in(company_id)), member_linked(db.companies));
    lemma_every_filter(
        db.capabilities,
        not(crate::model::capability_of(company_id)),
        capability_linked(db.companies),
    );
    lemma_every_filter(db.connections, not(crate::model::touches(company_id)), connection_linked(db.companies));
    assert(cut.links_ok());
    lemma_delete_projects_keeps_links(cut, cut.owned_project_ids(company_id));
    crate::proofs::people::lemma_delete_projects_frame(cut, cut.owned_project_ids(company_id));
    let disowned = cut.delete_projects(cut.owned_project_ids(company_id));
    lemma_every_filter(
        disowned.project_members,
        not(crate::model::seat_of(company_id)),
        seat_linked(disowned.projects, disowned.companies),
    );
    let unseated = disowned.drop_seats_of(company_id);
    assert(unseated.links_ok());
    lemma_dissolve_abandoned_keeps_links(unseated, disowned.seat_project_ids(company_id));
    crate::proofs::people::lemma_dissolve_abandoned_frame(unseated, disowned.seat_project_ids(company_id));
    let settled = unseated.dissolve_abandoned(disowned.seat_project_ids(company_id));
    let after = settled.drop_company(company_id);
    // Nothing that is left refers to the company.
    lemma_filter_exact(db.invite_codes, not(crate::model::invite_for(company_id)));
    lemma_filter_exact(db.members, not(crate::model::member_in(company_id)));
    lemma_filter_exact(db.capabilities, not(crate::model::capability_of(company_id)));
    lemma_filter_exact(db.connections, not(crate::model::touches(company_id)));
    lemma_filter_exact(disowned.project_members, not(crate::model::seat_of(company_id)));
    crate::proofs::seats::lemma_owned_projects_are_gone(cut, company_id);
    crate::proofs::seats::lemma_dissolved_are_within(unseated, disowned.seat_project_ids(company_id));
    assert forall|id: u64| id != company_id && company_known(settled.companies, id) implies #[trigger] company_known(
        after.companies,
        id,
    ) by {
        assert forall|x: crate::rows::CompanyView| #[trigger] company_is(id)(x) implies gone(x) by {}
        lemma_any_after_filter(settled.companies, company_is(id), gone);
    }
    assert forall|j: int| 0 <= j < after.members.len() implies member_linked(after.companies)(
        #[trigger] after.members[j],
    ) by {
        assert(member_linked(settled.companies)(settled.members[j]));
        assert(not(crate::model::member_in(company_id))(settled.members[j]));
    }
    assert forall|j: int| 0 <= j < after.invite_codes.len() implies invite_linked(after.companies)(
        #[trigger] after.invite_codes[j],
    ) by {
        assert(invite_linked(settled.companies)(settled.invite_codes[j]));
        assert(not(crate::model::invite_for(company_id))(settled.invite_codes[j]));
    }
    assert forall|j: int| 0 <= j < after.capabilities.len() implies capability_linked(after.companies)(
        #[trigger] after.capabilities[j],
    ) by {
        assert(capability_linked(settled.companies)(settled.capabilities[j]));
        assert(not(crate::model::capability_of(company_id))(settled.capabilities[j]));
    }
    assert forall|j: int| 0 <= j < after.connections.len() implies connection_linked(after.companies)(
        #[trigger] after.connections[j],
    ) by {
        assert(connection_linked(settled.companies)(settled.connections[j]));
        assert(not(crate::model::touches(company_id))(settled.connections[j]));
    }
    assert forall|j: int| 0 <= j < after.projects.len() implies project_linked(after.companies)(
        #[trigger] after.projects[j],
    ) by {
        assert(project_linked(settled.companies)(settled.projects[j]));
        assert(unseated.projects.contains(settled.projects[j]));
    }
    assert forall|j: int| 0 <= j < after.project_members.len() implies seat_linked(after.projects, after.companies)(
        #[trigger] after.project_members[j],
    ) by {
        assert(seat_linked(settled.projects, settled.companies)(settled.project_members[j]));
        assert(unseated.project_members.contains(settled.project_members[j]));
        let k = choose|k: int|
            0 <= k < unseated.project_members.len() && unseated.project_members[k] == settled.project_members[j];
        assert(not(crate::model::seat_of(company_id))(unseated.project_members[k]));
    }
}

// ---------------------------------------------------------------------
// The procedures
// ---------------------------------------------------------------------

/// The company that a resolved caller acts for exists.
pub proof fn lemma_acting_company_is_known(db: DbView, caller: Identity, min_role: UserRole)
    ensures
        db.resolve(caller, min_role) matches Ok(found) ==> company_known(db.companies, found.1.company_id),
{
    lemma_resolve_ok(db, caller, min_role);
    if let Ok(found) = db.resolve(caller, min_role) {
        lemma_found_is_known(db, found.1.company_id, 0);
    }
}

pub proof fn lemma_create_company_keeps_links(c: CtxView, name: Seq<char>, slug: Seq<char>, location: Seq<char>)
    requires
        c.db.links_ok(),
    ensures
        create_company_spec(c, name, slug, location) matches Ok(db) ==> db.links_ok(),
{
    if let Ok(db) = create_company_spec(c, name, slug, location) {
        let id = c.db.next_company_id;
        let (name, slug, location) = (trimmed(name), slug_of(slug), trimmed(location));
        lemma_add_company_keeps_links(c.db, c.sender, name, slug, location);
        let founded = c.db.add_company(c.sender, name, slug, location);
        lemma_capability_keeps_links(
            founded,
            id,
            crate::rows::Capability {
                company_id: id,
                can_install: false,
                has_cnc: false,
                has_large_format: false,
                has_bucket_truck: false,
            },
        );
        let equipped = founded.add_capability(id);
        lemma_add_member_keeps_links(equipped, c.sender, id, UserRole::Owner, c.timestamp);
        let staffed = equipped.add_member(c.sender, id, UserRole::Owner, c.timestamp);
        assert(staffed.same_links(db));
    }
}

pub proof fn lemma_generate_invite_code_keeps_links(c: CtxView, max_uses: u32, draws: Seq<u64>)
    requires
        c.db.links_ok(),
    ensures
        generate_invite_code_spec(c, max_uses, draws) matches Ok(db) ==> db.links_ok(),
{
    if let Ok(db) = generate_invite_code_spec(c, max_uses, draws) {
        lemma_acting_company_is_known(c.db, c.sender, UserRole::Admin);
        lemma_add_invite_keeps_links(c.db, db.invite_codes[c.db.invite_codes.len() as int]);
    }
}

pub proof fn lemma_join_with_code_keeps_links(c: CtxView, code: Seq<char>)
    requires
        c.db.links_ok(),
    ensures
        join_with_code_spec(c, code) matches Ok(db) ==> db.links_ok(),
{
    if let Ok(db) = join_with_code_spec(c, code) {
        let account = c.db.account(c.sender)->0;
        let invite = c.db.invite(code)->0;
        lemma_first_index(c.db.invite_codes, crate::model::code_is(code));
        let k = crate::seqs::first_index(c.db.invite_codes, crate::model::code_is(code))->0;
        assert(invite_linked(c.db.companies)(c.db.invite_codes[k]));
        let recorded = c.db.add_used_invite(c.sender, code, invite.company_id);
        assert(c.db.same_links(recorded));
        lemma_add_member_keeps_links(recorded, c.sender, invite.company_id, UserRole::Pending, c.timestamp);
        let joined = recorded.add_member(c.sender, invite.company_id, UserRole::Pending, c.timestamp);
        let settled = if account.active_company_id is None {
            joined.set_active(c.sender, Some(invite.company_id))
        } else {
            joined
        };
        assert(joined.same_links(settled));
        lemma_invite_change_keeps_links(settled, invite.code, (invite.uses_remaining - 1) as u32);
        lemma_notify_company_role_core(
            consumed(settled, invite),
            invite.company_id,
            UserRole::Admin,
            Some(c.sender),
            NotificationType::MemberJoined,
            "New member joined"@,
            account.nickname + " joined "@ + c.db.company_name(invite.company_id),
            c.timestamp,
        );
    }
}

pub proof fn lemma_delete_invite_code_keeps_links(c: CtxView, code: Seq<char>)
    requires
        c.db.links_ok(),
    ensures
        delete_invite_code_spec(c, code) matches Ok(db) ==> db.links_ok(),
{
    lemma_invite_change_keeps_links(c.db, code, 0);
}

pub proof fn lemma_add_colleague_keeps_links(c: CtxView, colleague: Identity)
    requires
        c.db.links_ok(),
    ensures
        add_colleague_by_identity_spec(c, colleague) matches Ok(db) ==> db.links_ok(),
{
    if let Ok(db) = add_colleague_by_identity_spec(c, colleague) {
        lemma_acting_company_is_known(c.db, c.sender, UserRole::Admin);
        let me = c.db.resolve(c.sender, UserRole::Admin)->Ok_0.1;
        lemma_add_member_keeps_links(c.db, colleague, me.company_id, UserRole::Member, c.timestamp);
    }
}

pub proof fn lemma_remove_colleague_keeps_links(c: CtxView, colleague: Identity)
    requires
        c.db.links_ok(),
    ensures
        remove_colleague_spec(c, colleague) matches Ok(db) ==> db.links_ok(),
{
    if let Ok(db) = remove_colleague_spec(c, colleague) {
        let me = c.db.resolve(c.sender, UserRole::Admin)->Ok_0.1;
        let theirs = c.db.membership(colleague, me.company_id)->0;
        lemma_drop_member_keeps_links(c.db, theirs.id, 0);
        let dropped = c.db.drop_member(theirs.id);
        assert(dropped.same_links(dropped.reassign_active_company(colleague, me.company_id)));
    }
}

pub proof fn lemma_leave_company_keeps_links(c: CtxView)
    requires
        c.db.links_ok(),
    ensures
        leave_company_spec(c) matches Ok(db) ==> db.links_ok(),
{
    if let Ok(db) = leave_company_spec(c) {
        let company_id = c.db.account(c.sender)->0.active_company_id->0;
        let mine = c.db.membership(c.sender, company_id)->0;
        lemma_drop_member_keeps_links(c.db, mine.id, 0);
        let dropped = c.db.drop_member(mine.id);
        assert(dropped.same_links(dropped.reassign_active_company(c.sender, company_id)));
    }
}

pub proof fn lemma_update_company_profile_keeps_links(
    c: CtxView,
    name: Seq<char>,
    slug: Seq<char>,
    location: Seq<char>,
    bio: Seq<char>,
    is_public: bool,
    kvk_number: Seq<char>,
)
    requires
        c.db.links_ok(),
    ensures
        update_company_profile_spec(c, name, slug, location, bio, is_public, kvk_number) matches Ok(db)
            ==> db.links_ok(),
{
    if let Ok(db) = update_company_profile_spec(c, name, slug, location, bio, is_public, kvk_number) {
        assert(db.companies.len() == c.db.companies.len());
        assert forall|k: int| 0 <= k < c.db.companies.len() implies (#[trigger] db.companies[k]).id
            == c.db.companies[k].id by {}
        lemma_company_change_keeps_links(c.db, db);
    }
}

pub proof fn lemma_update_capabilities_keeps_links(
    c: CtxView,
    can_install: bool,
    has_cnc: bool,
    has_large_format: bool,
    has_bucket_truck: bool,
)
    requires
        c.db.links_ok(),
    ensures
        update_capabilities_spec(c, can_install, has_cnc, has_large_format, has_bucket_truck) matches Ok(db)
            ==> db.links_ok(),
{
    if let Ok(db) = update_capabilities_spec(c, can_install, has_cnc, has_large_format, has_bucket_truck) {
        let me = c.db.resolve(c.sender, UserRole::Admin)->Ok_0.1;
        lemma_capability_keeps_links(
            c.db,
            0,
            crate::rows::Capability {
                company_id: me.company_id,
                can_install,
                has_cnc,
                has_large_format,
                has_bucket_truck,
            },
        );
    }
}

pub proof fn lemma_update_user_role_keeps_links(c: CtxView, target: Identity, new_role: UserRole)
    requires
        c.db.links_ok(),
    ensures
        update_user_role_spec(c, target, new_role) matches Ok(db) ==> db.links_ok(),
{
    if let Ok(db) = update_user_role_spec(c, target, new_role) {
        let me = c.db.resolve(c.sender, UserRole::Admin)->Ok_0.1;
        let theirs = c.db.membership(target, me.company_id)->0;
        lemma_set_role_keeps_links(c.db, theirs.id, new_role);
    }
}

pub proof fn lemma_transfer_ownership_keeps_links(c: CtxView, new_owner: Identity)
    requires
        c.db.links_ok(),
    ensures
        transfer_ownership_spec(c, new_owner) matches Ok(db) ==> db.links_ok(),
{
    if let Ok(db) = transfer_ownership_spec(c, new_owner) {
        let me = c.db.resolve(c.sender, UserRole::Owner)->Ok_0.1;
        let theirs = c.db.membership(new_owner, me.company_id)->0;
        let handed = c.db.set_owner(me.company_id, new_owner);
        assert(handed.companies.len() == c.db.companies.len());
        assert forall|k: int| 0 <= k < c.db.companies.len() implies (#[trigger] handed.companies[k]).id
            == c.db.companies[k].id by {}
        lemma_company_change_keeps_links(c.db, handed);
        lemma_set_role_keeps_links(handed, me.id, UserRole::Admin);
        lemma_set_role_keeps_links(handed.set_role(me.id, UserRole::Admin), theirs.id, UserRole::Owner);
    }
}

pub proof fn lemma_request_connection_keeps_links(c: CtxView, target_company_id: u64, message: Seq<char>)
    requires
        c.db.links_ok(),
    ensures
        request_connection_spec(c, target_company_id, message) matches Ok(db) ==> db.links_ok(),
{
    if let Ok(db) = request_connection_spec(c, target_company_id, message) {
        let me = c.db.resolve(c.sender, UserRole::Admin)->Ok_0.1;
        if c.db.connection_between(me.company_id, target_company_id) is None {
            lemma_acting_company_is_known(c.db, c.sender, UserRole::Admin);
            lemma_found_is_known(c.db, target_company_id, 0);
            lemma_add_connection_keeps_links(
                c.db,
                me.company_id,
                target_company_id,
                ConnectionStatus::Pending,
                c.sender,
                None,
                trimmed(message),
                c.timestamp,
            );
        }
    }
}

pub proof fn lemma_cancel_request_keeps_links(c: CtxView, target_company_id: u64)
    requires
        c.db.links_ok(),
    ensures
        cancel_request_spec(c, target_company_id) matches Ok(db) ==> db.links_ok(),
{
    if let Ok(db) = cancel_request_spec(c, target_company_id) {
        let me = c.db.resolve(c.sender, UserRole::Admin)->Ok_0.1;
        let conn = c.db.connection_between(me.company_id, target_company_id)->0;
        lemma_connection_change_keeps_links(c.db, conn.id, ConnectionStatus::Pending, 0);
    }
}

pub proof fn lemma_accept_connection_keeps_links(c: CtxView, target_company_id: u64)
    requires
        c.db.links_ok(),
    ensures
        accept_connection_spec(c, target_company_id) matches Ok(db) ==> db.links_ok(),
{
    if let Ok(db) = accept_connection_spec(c, target_company_id) {
        let me = c.db.resolve(c.sender, UserRole::Admin)->Ok_0.1;
        let conn = c.db.connection_between(me.company_id, target_company_id)->0;
        lemma_connection_change_keeps_links(c.db, conn.id, ConnectionStatus::Accepted, 0);
    }
}

pub proof fn lemma_decline_connection_keeps_links(c: CtxView, target_company_id: u64)
    requires
        c.db.links_ok(),
    ensures
        decline_connection_spec(c, target_company_id) matches Ok(db) ==> db.links_ok(),
{
    if let Ok(db) = decline_connection_spec(c, target_company_id) {
        let me = c.db.resolve(c.sender, UserRole::Admin)->Ok_0.1;
        let conn = c.db.connection_between(me.company_id, target_company_id)->0;
        let requesting = c.db.requesting_company(conn)->Ok_0;
        let told = c.db.notify_company_role(
            requesting,
            UserRole::Admin,
            None,
            NotificationType::ConnectionDeclined,
            "Connection declined"@,
            c.db.company_name(me.company_id) + " declined your connection request"@,
            c.timestamp,
        );
        assert(c.db.same_links(told));
        lemma_connection_change_keeps_links(told, conn.id, ConnectionStatus::Pending, 0);
    }
}

pub proof fn lemma_block_company_keeps_links(c: CtxView, target_company_id: u64)
    requires
        c.db.links_ok(),
    ensures
        block_company_spec(c, target_company_id) matches Ok(db) ==> db.links_ok(),
{
    if let Ok(db) = block_company_spec(c, target_company_id) {
        let me = c.db.resolve(c.sender, UserRole::Admin)->Ok_0.1;
        match c.db.connection_between(me.company_id, target_company_id) {
            Some(conn) => {
                lemma_connection_change_keeps_links(c.db, conn.id, ConnectionStatus::Blocked, me.company_id);
            },
            None => {
                lemma_acting_company_is_known(c.db, c.sender, UserRole::Admin);
                lemma_found_is_known(c.db, target_company_id, 0);
                lemma_add_connection_keeps_links(
                    c.db,
                    me.company_id,
                    target_company_id,
                    ConnectionStatus::Blocked,
                    c.sender,
                    Some(me.company_id),
                    Seq::empty(),
                    c.timestamp,
                );
            },
        }
    }
}

pub proof fn lemma_unblock_company_keeps_links(c: CtxView, target_company_id: u64)
    requires
        c.db.links_ok(),
    ensures
        unblock_company_spec(c, target_company_id) matches Ok(db) ==> db.links_ok(),
{
    if let Ok(db) = unblock_company_spec(c, target_company_id) {
        let me = c.db.resolve(c.sender, UserRole::Admin)->Ok_0.1;
        let conn = c.db.connection_between(me.company_id, target_company_id)->0;
        lemma_connection_change_keeps_links(c.db, conn.id, ConnectionStatus::Pending, 0);
    }
}

pub proof fn lemma_disconnect_company_keeps_links(c: CtxView, target_company_id: u64)
    requires
        c.db.links_ok(),
    ensures
        disconnect_company_spec(c, target_company_id) matches Ok(db) ==> db.links_ok(),
{
    if let Ok(db) = disconnect_company_spec(c, target_company_id) {
        let me = c.db.resolve(c.sender, UserRole::Admin)->Ok_0.1;
        let conn = c.db.connection_between(me.company_id, target_company_id)->0;
        lemma_connection_change_keeps_links(c.db, conn.id, ConnectionStatus::Pending, 0);
    }
}

pub proof fn lemma_create_project_keeps_links(c: CtxView, name: Seq<char>, description: Seq<char>)
    requires
        c.db.links_ok(),
    ensures
        create_project_spec(c, name, description) matches Ok(db) ==> db.links_ok(),
{
    if let Ok(db) = create_project_spec(c, name, description) {
        let me = c.db.resolve(c.sender, UserRole::Admin)->Ok_0.1;
        lemma_acting_company_is_known(c.db, c.sender, UserRole::Admin);
        lemma_add_project_keeps_links(
            c.db,
            me.company_id,
            trimmed(name),
            trimmed(description),
            c.sender,
            c.timestamp,
        );
        let opened = c.db.add_project(me.company_id, trimmed(name), trimmed(description), c.sender, c.timestamp);
        lemma_add_seat_keeps_links(
            opened,
            c.db.next_project_id,
            me.company_id,
            ProjectMemberStatus::Accepted,
            c.sender,
            c.timestamp,
        );
    }
}

pub proof fn lemma_invite_to_project_keeps_links(c: CtxView, project_id: u64, target_company_id: u64)
    requires
        c.db.links_ok(),
    ensures
        invite_to_project_spec(c, project_id, target_company_id) matches Ok(db) ==> db.links_ok(),
{
    if let Ok(db) = invite_to_project_spec(c, project_id, target_company_id) {
        lemma_found_is_known(c.db, target_company_id, project_id);
        let cleared = vacated(c.db, project_id, target_company_id);
        if let Some(seat) = c.db.seat(project_id, target_company_id) {
            lemma_seat_change_keeps_links(c.db, seat.id, ProjectMemberStatus::Left, c.timestamp);
        }
        lemma_add_seat_keeps_links(
            cleared,
            project_id,
            target_company_id,
            ProjectMemberStatus::Invited,
            c.sender,
            c.timestamp,
        );
    }
}

pub proof fn lemma_accept_project_invite_keeps_links(c: CtxView, project_id: u64)
    requires
        c.db.links_ok(),
    ensures
        accept_project_invite_spec(c, project_id) matches Ok(db) ==> db.links_ok(),
{
    if let Ok(db) = accept_project_invite_spec(c, project_id) {
        let me = c.db.resolve(c.sender, UserRole::Admin)->Ok_0.1;
        let project = c.db.project(project_id)->0;
        let seat = c.db.seat_with(project_id, me.company_id, ProjectMemberStatus::Invited)->0;
        let seated = c.db.accept_seat(seat.id, c.timestamp);
        let label = c.db.company_label(me.company_id);
        lemma_seat_change_keeps_links(c.db, seat.id, ProjectMemberStatus::Accepted, c.timestamp);
        lemma_notify_companies_core(
            seated,
            seated.other_accepted(project_id, me.company_id, me.company_id),
            UserRole::Admin,
            NotificationType::ProjectAccepted,
            label + " joined project"@,
            label + " accepted the invitation to project '"@ + project.name + "'"@,
            c.timestamp,
        );
    }
}

pub proof fn lemma_decline_project_invite_keeps_links(c: CtxView, project_id: u64)
    requires
        c.db.links_ok(),
    ensures
        decline_project_invite_spec(c, project_id) matches Ok(db) ==> db.links_ok(),
{
    if let Ok(db) = decline_project_invite_spec(c, project_id) {
        let me = c.db.resolve(c.sender, UserRole::Admin)->Ok_0.1;
        let seat = c.db.seat_with(project_id, me.company_id, ProjectMemberStatus::Invited)->0;
        lemma_seat_change_keeps_links(c.db, seat.id, ProjectMemberStatus::Left, c.timestamp);
    }
}

pub proof fn lemma_send_project_chat_keeps_links(c: CtxView, project_id: u64, text: Seq<char>)
    requires
        c.db.links_ok(),
    ensures
        send_project_chat_spec(c, project_id, text) matches Ok(db) ==> db.links_ok(),
{
    if let Ok(db) = send_project_chat_spec(c, project_id, text) {
        let (account, me) = c.db.resolve(c.sender, UserRole::Field)->Ok_0;
        let project = c.db.project(project_id)->0;
        let text = trimmed(text);
        let label = c.db.company_label(me.company_id);
        lemma_found_is_known(c.db, 0, project_id);
        lemma_add_project_chat_keeps_links(c.db, project_id, c.sender, text, c.timestamp);
        lemma_notify_companies_core(
            c.db.add_project_chat(project_id, c.sender, text, c.timestamp),
            c.db.other_accepted(project_id, me.company_id, me.company_id),
            UserRole::Field,
            NotificationType::ProjectChat,
            project.name + " \u{2014} "@ + label,
            "["@ + label + "] "@ + account.nickname + ": "@ + crate::text::preview_of(text, 80),
            c.timestamp,
        );
    }
}

pub proof fn lemma_leave_project_keeps_links(c: CtxView, project_id: u64)
    requires
        c.db.links_ok(),
    ensures
        leave_project_spec(c, project_id) matches Ok(db) ==> db.links_ok(),
{
    if let Ok(db) = leave_project_spec(c, project_id) {
        let me = c.db.resolve(c.sender, UserRole::Admin)->Ok_0.1;
        let project = c.db.project(project_id)->0;
        let seat = c.db.seat_with(project_id, me.company_id, ProjectMemberStatus::Accepted)->0;
        lemma_seat_change_keeps_links(c.db, seat.id, ProjectMemberStatus::Left, c.timestamp);
        let left = c.db.set_seat_status(seat.id, ProjectMemberStatus::Left);
        let label = c.db.company_label(me.company_id);
        let told = left.notify_companies(
            left.other_accepted(project_id, me.company_id, me.company_id),
            UserRole::Admin,
            NotificationType::ProjectLeft,
            label + " left project"@,
            label + " left project '"@ + project.name + "'"@,
            c.timestamp,
        );
        lemma_notify_companies_core(
            left,
            left.other_accepted(project_id, me.company_id, me.company_id),
            UserRole::Admin,
            NotificationType::ProjectLeft,
            label + " left project"@,
            label + " left project '"@ + project.name + "'"@,
            c.timestamp,
        );
        assert(left.same_links(told));
        lemma_cascade_keeps_links(told, project_id);
    }
}

pub proof fn lemma_kick_from_project_keeps_links(c: CtxView, project_id: u64, target_company_id: u64)
    requires
        c.db.links_ok(),
    ensures
        kick_from_project_spec(c, project_id, target_company_id) matches Ok(db) ==> db.links_ok(),
{
    if let Ok(db) = kick_from_project_spec(c, project_id, target_company_id) {
        let me = c.db.resolve(c.sender, UserRole::Admin)->Ok_0.1;
        let project = c.db.project(project_id)->0;
        let seat = c.db.seat_with(project_id, target_company_id, ProjectMemberStatus::Accepted)->0;
        lemma_seat_change_keeps_links(c.db, seat.id, ProjectMemberStatus::Kicked, c.timestamp);
        let label = c.db.company_label(target_company_id);
        let kicked = c.db.set_seat_status(seat.id, ProjectMemberStatus::Kicked).notify_company_role(
            target_company_id,
            UserRole::Admin,
            None,
            NotificationType::ProjectKicked,
            "Removed from project '"@ + project.name + "'"@,
            "Your company has been removed from project '"@ + project.name + "'"@,
            c.timestamp,
        );
        lemma_notify_companies_core(
            kicked,
            kicked.other_accepted(project_id, me.company_id, target_company_id),
            UserRole::Admin,
            NotificationType::ProjectKicked,
            label + " removed from project"@,
            label + " was removed from project '"@ + project.name + "'"@,
            c.timestamp,
        );
    }
}

pub proof fn lemma_delete_project_keeps_links(c: CtxView, project_id: u64)
    requires
        c.db.links_ok(),
    ensures
        delete_project_spec(c, project_id) matches Ok(db) ==> db.links_ok(),
{
    if let Ok(db) = delete_project_spec(c, project_id) {
        let me = c.db.resolve(c.sender, UserRole::Admin)->Ok_0.1;
        let project = c.db.project(project_id)->0;
        let told = c.db.notify_companies(
            c.db.other_accepted(project_id, me.company_id, me.company_id),
            UserRole::Admin,
            NotificationType::ProjectLeft,
            "Project '"@ + project.name + "' deleted"@,
            "Project '"@ + project.name + "' has been deleted by the owner"@,
            c.timestamp,
        );
        lemma_notify_companies_core(
            c.db,
            c.db.other_accepted(project_id, me.company_id, me.company_id),
            UserRole::Admin,
            NotificationType::ProjectLeft,
            "Project '"@ + project.name + "' deleted"@,
            "Project '"@ + project.name + "' has been deleted by the owner"@,
            c.timestamp,
        );
        assert(c.db.same_links(told));
        lemma_cascade_keeps_links(told, project_id);
    }
}

pub proof fn lemma_delete_company_keeps_links(c: CtxView)
    requires
        c.db.links_ok(),
    ensures
        delete_company_spec(c) matches Ok(db) ==> db.links_ok(),
{
    if let Ok(db) = delete_company_spec(c) {
        lemma_delete_company_cascade_keeps_links(c.db, c.db.resolve(c.sender, UserRole::Owner)->Ok_0.1.company_id);
    }
}

} // verus!
