//! What holds of the procedures taken together.

use vstd::prelude::*;
use crate::accounts::{
    consumed, create_company_spec, delete_invite_code_spec, generate_invite_code_spec,
    join_company_spec, update_profile_spec,
};
use crate::authority::lemma_resolve_ok;
use crate::cascade::delete_company_spec;
use crate::connections::{
    MAX_MESSAGE, accept_connection_spec, block_company_spec, cancel_request_spec,
    decline_connection_spec, disconnect_company_spec, request_connection_spec,
    send_connection_chat_spec, unblock_company_spec,
};
use crate::context::CtxView;
use crate::inbox::{clear_notifications_spec, mark_all_notifications_read_spec};
use crate::model::{
    DbView, accepted_in, capability_of, code_is, company_is, connects, invite_for, member_in, not,
    notification_about, owned_by, project_chat_in, project_is, seat_in, seat_of, touches,
};
use crate::projects::{
    accept_project_invite_spec, create_project_spec, decline_project_invite_spec,
    delete_project_spec, invite_to_project_spec, kick_from_project_spec, leave_project_spec,
    send_project_chat_spec,
};
use crate::proofs::people::{
    lemma_delete_company_cascade, lemma_notify_companies_core, lemma_notify_company_role_core,
    selects_other,
};
use crate::roles::{
    ConnectionStatus, Error, Identity, NotificationType, ProjectMemberStatus, Timestamp, UserRole,
    level_of,
};
use crate::rows::{CompanyMember, InviteCodeView};
use crate::seqs::{
    every, first, first_index, lemma_filter_exact, lemma_first_absent, lemma_first_after_change,
    lemma_first_after_push, lemma_first_agrees, lemma_first_index, none_match,
};
use crate::soundness::other_connection;
use crate::team::{
    add_colleague_by_identity_spec, leave_company_spec, remove_colleague_spec,
    switch_active_company_spec, transfer_ownership_spec, update_capabilities_spec,
    update_company_profile_spec, update_user_role_spec,
};
use crate::text::{byte_len, code_of, trimmed, uppercased};

verus! {

// ---------------------------------------------------------------------
// Roles
// ---------------------------------------------------------------------

/// The levels order the roles totally: two roles have the same level only
/// if they are the same role, and of two roles one is at least the other.
pub proof fn law_role_levels_are_total(a: UserRole, b: UserRole)
    ensures
        level_of(a) == level_of(b) <==> a == b,
        level_of(a) >= level_of(b) || level_of(b) >= level_of(a),
        level_of(UserRole::Owner) > level_of(UserRole::Admin) > level_of(UserRole::Member) > level_of(
            UserRole::Installer,
        ) > level_of(UserRole::Field) > level_of(UserRole::Pending),
{
}

/// A caller who holds `held` in their active company passes the check for
/// `required` if and only if the level of `held` is at least that of
/// `required`, and is refused with `InsufficientRole` otherwise.
pub proof fn law_role_check(db: DbView, caller: Identity, held: CompanyMember, required: UserRole)
    requires
        db.account(caller) is Some,
        db.account(caller)->0.active_company_id == Some(held.company_id),
        db.company(held.company_id) is Some,
        db.membership(caller, held.company_id) == Some(held),
    ensures
        db.resolve(caller, required) is Ok <==> level_of(held.role) >= level_of(required),
        db.resolve(caller, required) is Err ==> db.resolve(caller, required) == Err::<
            (crate::rows::UserAccountView, CompanyMember),
            Error,
        >(Error::InsufficientRole),
        db.resolve(caller, required) is Ok ==> db.resolve(caller, required)->Ok_0.1 == held,
{
}

/// Authorization comes first: a procedure that asks for a role fails as the
/// role check fails, whatever its arguments, so that a caller without
/// permission learns nothing of the rows that the arguments name.
pub proof fn law_authorization_comes_first(
    c: CtxView,
    id: u64,
    other_id: u64,
    who: Identity,
    role: UserRole,
    text: Seq<char>,
    more_text: Seq<char>,
    flag: bool,
    draws: Seq<u64>,
    uses: u32,
)
    ensures
        c.db.resolve(c.sender, UserRole::Field) matches Err(e) ==> {
            &&& send_connection_chat_spec(c, id, text) == Err::<DbView, Error>(e)
            &&& send_project_chat_spec(c, id, text) == Err::<DbView, Error>(e)
        },
        c.db.resolve(c.sender, UserRole::Admin) matches Err(e) ==> {
            &&& generate_invite_code_spec(c, uses, draws) == Err::<DbView, Error>(e)
            &&& delete_invite_code_spec(c, text) == Err::<DbView, Error>(e)
            &&& add_colleague_by_identity_spec(c, who) == Err::<DbView, Error>(e)
            &&& remove_colleague_spec(c, who) == Err::<DbView, Error>(e)
            &&& update_company_profile_spec(c, text, more_text, text, more_text, flag, text) == Err::<
                DbView,
                Error,
            >(e)
            &&& update_capabilities_spec(c, flag, flag, flag, flag) == Err::<DbView, Error>(e)
            &&& update_user_role_spec(c, who, role) == Err::<DbView, Error>(e)
            &&& request_connection_spec(c, id, text) == Err::<DbView, Error>(e)
            &&& cancel_request_spec(c, id) == Err::<DbView, Error>(e)
            &&& accept_connection_spec(c, id) == Err::<DbView, Error>(e)
            &&& decline_connection_spec(c, id) == Err::<DbView, Error>(e)
            &&& block_company_spec(c, id) == Err::<DbView, Error>(e)
            &&& unblock_company_spec(c, id) == Err::<DbView, Error>(e)
            &&& disconnect_company_spec(c, id) == Err::<DbView, Error>(e)
            &&& create_project_spec(c, text, more_text) == Err::<DbView, Error>(e)
            &&& invite_to_project_spec(c, id, other_id) == Err::<DbView, Error>(e)
            &&& accept_project_invite_spec(c, id) == Err::<DbView, Error>(e)
            &&& decline_project_invite_spec(c, id) == Err::<DbView, Error>(e)
            &&& leave_project_spec(c, id) == Err::<DbView, Error>(e)
            &&& kick_from_project_spec(c, id, other_id) == Err::<DbView, Error>(e)
            &&& delete_project_spec(c, id) == Err::<DbView, Error>(e)
        },
        c.db.resolve(c.sender, UserRole::Owner) matches Err(e) ==> {
            &&& transfer_ownership_spec(c, who) == Err::<DbView, Error>(e)
            &&& delete_company_spec(c) == Err::<DbView, Error>(e)
        },
        c.db.account(c.sender) is None ==> {
            &&& update_profile_spec(c, text, more_text) == Err::<DbView, Error>(Error::Unauthenticated)
            &&& create_company_spec(c, text, more_text, text) == Err::<DbView, Error>(Error::Unauthenticated)
            &&& join_company_spec(c, text) == Err::<DbView, Error>(Error::Unauthenticated)
            &&& leave_company_spec(c) == Err::<DbView, Error>(Error::Unauthenticated)
            &&& switch_active_company_spec(c, id) == Err::<DbView, Error>(Error::Unauthenticated)
            &&& mark_all_notifications_read_spec(c, id) == Err::<DbView, Error>(Error::Unauthenticated)
            &&& clear_notifications_spec(c, id) == Err::<DbView, Error>(Error::Unauthenticated)
        },
{
}

// ---------------------------------------------------------------------
// Connections
// ---------------------------------------------------------------------

/// The connection between two companies is the same whichever company is
/// named first.
pub proof fn law_connection_symmetry(db: DbView, x: u64, y: u64)
    ensures
        db.connection_between(x, y) == db.connection_between(y, x),
{
    lemma_first_agrees(db.connections, connects(x, y), connects(y, x));
}

/// In a well-formed store no two connections join the same two companies,
/// in either order.
pub proof fn law_one_connection_per_pair(db: DbView, i: int, j: int)
    requires
        db.wf(),
        0 <= i < db.connections.len(),
        0 <= j < db.connections.len(),
        i != j,
    ensures
        !(db.connections[i].company_a == db.connections[j].company_a && db.connections[i].company_b
            == db.connections[j].company_b),
        !(db.connections[i].company_a == db.connections[j].company_b && db.connections[i].company_b
            == db.connections[j].company_a),
{
    if i < j {
        assert(other_connection()(db.connections[i], db.connections[j]));
    } else {
        assert(other_connection()(db.connections[j], db.connections[i]));
    }
    assert(crate::soundness::connection_sound(db.next_connection_id)(db.connections[i]));
    assert(crate::soundness::connection_sound(db.next_connection_id)(db.connections[j]));
}

/// Ghosting: while the connection between two companies is Blocked, a
/// request by an Admin of either for a connection with the other, with a
/// message of admissible length, succeeds and leaves the store as it was.
pub proof fn law_ghosting(c: CtxView, target_company_id: u64, message: Seq<char>)
    requires
        c.db.resolve(c.sender, UserRole::Admin) is Ok,
        byte_len(trimmed(message)) <= MAX_MESSAGE,
        c.db.company(target_company_id) is Some,
        c.db.resolve(c.sender, UserRole::Admin)->Ok_0.1.company_id != target_company_id,
        c.db.connection_between(c.db.resolve(c.sender, UserRole::Admin)->Ok_0.1.company_id, target_company_id)
            is Some,
        c.db.connection_between(
            c.db.resolve(c.sender, UserRole::Admin)->Ok_0.1.company_id,
            target_company_id,
        )->0.status == ConnectionStatus::Blocked,
    ensures
        request_connection_spec(c, target_company_id, message) == Ok::<DbView, Error>(c.db),
{
}

/// The store after a run of requests, one for each of `messages`, each made
/// on what the one before left; the first failure ends the run.
pub open spec fn after_requests(
    c: CtxView,
    target_company_id: u64,
    messages: Seq<Seq<char>>,
) -> Result<DbView, Error>
    decreases messages.len(),
{
    if messages.len() == 0 {
        Ok(c.db)
    } else {
        match after_requests(c, target_company_id, messages.drop_last()) {
            Ok(db) => request_connection_spec(c.with_db(db), target_company_id, messages.last()),
            Err(e) => Err(e),
        }
    }
}

/// Ghosting is idempotent: however often the request is repeated while the
/// connection is Blocked, each call succeeds, and no row is added or
/// changed.
pub proof fn law_ghosting_repeated(c: CtxView, target_company_id: u64, messages: Seq<Seq<char>>)
    requires
        c.db.resolve(c.sender, UserRole::Admin) is Ok,
        forall|k: int| 0 <= k < messages.len() ==> byte_len(trimmed(#[trigger] messages[k])) <= MAX_MESSAGE,
        c.db.company(target_company_id) is Some,
        c.db.resolve(c.sender, UserRole::Admin)->Ok_0.1.company_id != target_company_id,
        c.db.connection_between(c.db.resolve(c.sender, UserRole::Admin)->Ok_0.1.company_id, target_company_id)
            is Some,
        c.db.connection_between(
            c.db.resolve(c.sender, UserRole::Admin)->Ok_0.1.company_id,
            target_company_id,
        )->0.status == ConnectionStatus::Blocked,
    ensures
        after_requests(c, target_company_id, messages) == Ok::<DbView, Error>(c.db),
    decreases messages.len(),
{
    if messages.len() > 0 {
        assert forall|k: int| 0 <= k < messages.drop_last().len() implies byte_len(
            trimmed(#[trigger] messages.drop_last()[k]),
        ) <= MAX_MESSAGE by {
            assert(messages.drop_last()[k] == messages[k]);
        }
        law_ghosting_repeated(c, target_company_id, messages.drop_last());
        assert(c.with_db(c.db) == c);
        law_ghosting(c, target_company_id, messages.last());
    }
}

/// A successful block of a connection that was not Blocked leaves it
/// Blocked by the caller's company.
pub proof fn law_block_records_blocker(c: CtxView, target_company_id: u64)
    requires
        block_company_spec(c, target_company_id) is Ok,
        !(c.db.connection_between(c.db.resolve(c.sender, UserRole::Admin)->Ok_0.1.company_id, target_company_id)
            is Some && c.db.connection_between(
            c.db.resolve(c.sender, UserRole::Admin)->Ok_0.1.company_id,
            target_company_id,
        )->0.status == ConnectionStatus::Blocked),
    ensures
        ({
            let mine = c.db.resolve(c.sender, UserRole::Admin)->Ok_0.1.company_id;
            let after = block_company_spec(c, target_company_id)->Ok_0;
            &&& after.connection_between(mine, target_company_id) is Some
            &&& after.connection_between(mine, target_company_id)->0.status == ConnectionStatus::Blocked
            &&& after.connection_between(mine, target_company_id)->0.blocking_company_id == Some(mine)
            &&& after.companies == c.db.companies
            &&& after.accounts == c.db.accounts
            &&& after.members == c.db.members
        }),
{
    let mine = c.db.resolve(c.sender, UserRole::Admin)->Ok_0.1.company_id;
    let after = block_company_spec(c, target_company_id)->Ok_0;
    let p = connects(mine, target_company_id);
    lemma_first_index(c.db.connections, p);
    match c.db.connection_between(mine, target_company_id) {
        Some(conn) => {
            let g = |x: crate::rows::ConnectionView|
                if x.id == conn.id {
                    crate::rows::ConnectionView {
                        status: ConnectionStatus::Blocked,
                        blocking_company_id: Some(mine),
                        ..x
                    }
                } else {
                    x
                };
            assert(after.connections =~= c.db.connections.map_values(g));
            assert forall|x: crate::rows::ConnectionView| #[trigger] p(g(x)) == p(x) by {}
            lemma_first_after_change(c.db.connections, g, p);
        },
        None => {
            lemma_first_after_push(
                c.db.connections,
                p,
                after.connections[c.db.connections.len() as int],
            );
        },
    }
}

/// First blocker wins: after company A has blocked company B, a block of A
/// by an Admin of B succeeds, changes nothing, and the connection still
/// names A as the blocking company.
pub proof fn law_first_blocker_wins(first: CtxView, b: u64, second_sender: Identity, second_time: Timestamp)
    requires
        block_company_spec(first, b) is Ok,
        !(first.db.connection_between(first.db.resolve(first.sender, UserRole::Admin)->Ok_0.1.company_id, b)
            is Some && first.db.connection_between(
            first.db.resolve(first.sender, UserRole::Admin)->Ok_0.1.company_id,
            b,
        )->0.status == ConnectionStatus::Blocked),
        ({
            let blocked = block_company_spec(first, b)->Ok_0;
            &&& blocked.resolve(second_sender, UserRole::Admin) is Ok
            &&& blocked.resolve(second_sender, UserRole::Admin)->Ok_0.1.company_id == b
        }),
    ensures
        ({
            let a = first.db.resolve(first.sender, UserRole::Admin)->Ok_0.1.company_id;
            let blocked = block_company_spec(first, b)->Ok_0;
            let second = CtxView { db: blocked, sender: second_sender, timestamp: second_time };
            &&& block_company_spec(second, a) == Ok::<DbView, Error>(blocked)
            &&& blocked.connection_between(a, b)->0.blocking_company_id == Some(a)
            &&& blocked.connection_between(b, a)->0.blocking_company_id == Some(a)
        }),
{
    let a = first.db.resolve(first.sender, UserRole::Admin)->Ok_0.1.company_id;
    let blocked = block_company_spec(first, b)->Ok_0;
    law_block_records_blocker(first, b);
    law_connection_symmetry(blocked, a, b);
    lemma_resolve_ok(first.db, first.sender, UserRole::Admin);
}

// ---------------------------------------------------------------------
// Notifications
// ---------------------------------------------------------------------

/// A fan-out adds one unread notification for each member of the company
/// who holds at least the role and is not excluded, and no other row: as
/// many rows as there are such memberships, each for the identity of one, in
/// table order.
pub proof fn law_fan_out_reaches_the_eligible(
    db: DbView,
    company_id: u64,
    min_role: UserRole,
    exclude: Option<Identity>,
    kind: NotificationType,
    title: Seq<char>,
    body: Seq<char>,
    now: Timestamp,
)
    ensures
        ({
            let eligible = db.members.filter(crate::model::recipient_in(company_id, min_role, exclude));
            let after = db.notify_company_role(company_id, min_role, exclude, kind, title, body, now);
            &&& after.notifications.len() == db.notifications.len() + eligible.len()
            &&& forall|k: int| 0 <= k < db.notifications.len() ==> after.notifications[k] == db.notifications[k]
            &&& forall|k: int|
                0 <= k < eligible.len() ==> {
                    let sent = #[trigger] after.notifications[db.notifications.len() + k];
                    &&& sent.recipient_identity == eligible[k].identity
                    &&& sent.company_id == company_id
                    &&& sent.notification_type == kind
                    &&& sent.title == title
                    &&& sent.body == body
                    &&& !sent.is_read
                    &&& sent.created_at == now
                }
            &&& forall|k: int|
                0 <= k < eligible.len() ==> {
                    &&& db.members.contains(#[trigger] eligible[k])
                    &&& eligible[k].company_id == company_id
                    &&& level_of(eligible[k].role) >= level_of(min_role)
                    &&& exclude != Some(eligible[k].identity)
                }
            &&& forall|i: int|
                0 <= i < db.members.len() && (#[trigger] db.members[i]).company_id == company_id && level_of(
                    db.members[i].role,
                ) >= level_of(min_role) && exclude != Some(db.members[i].identity) ==> eligible.contains(
                    db.members[i],
                )
        }),
{
    let p = crate::model::recipient_in(company_id, min_role, exclude);
    crate::seqs::lemma_filter_members(db.members, p);
    let eligible = db.members.filter(p);
    assert forall|k: int| 0 <= k < eligible.len() implies {
        &&& db.members.contains(#[trigger] eligible[k])
        &&& eligible[k].company_id == company_id
        &&& level_of(eligible[k].role) >= level_of(min_role)
        &&& exclude != Some(eligible[k].identity)
    } by {
        assert(p(eligible[k]));
    }
    assert forall|i: int|
        0 <= i < db.members.len() && (#[trigger] db.members[i]).company_id == company_id && level_of(
            db.members[i].role,
        ) >= level_of(min_role) && exclude != Some(db.members[i].identity) implies eligible.contains(
        db.members[i],
    ) by {
        assert(p(db.members[i]));
    }
}

// ---------------------------------------------------------------------
// The deletion of a company
// ---------------------------------------------------------------------

/// Cascade completeness: after the deletion of a company from a well-formed
/// store, no membership, capability row, invite code, connection or
/// notification refers to the company, the company is gone, and no account
/// selects it.
pub proof fn law_cascade_completeness(c: CtxView)
    requires
        c.db.wf(),
        delete_company_spec(c) is Ok,
    ensures
        ({
            let company_id = c.db.resolve(c.sender, UserRole::Owner)->Ok_0.1.company_id;
            let after = delete_company_spec(c)->Ok_0;
            &&& every(after.members, not(member_in(company_id)))
            &&& every(after.capabilities, not(capability_of(company_id)))
            &&& every(after.invite_codes, not(invite_for(company_id)))
            &&& every(after.connections, not(touches(company_id)))
            &&& every(after.notifications, not(notification_about(company_id)))
            &&& every(after.accounts, selects_other(company_id))
            &&& every(after.projects, not(owned_by(company_id)))
            &&& every(after.project_members, not(seat_of(company_id)))
            &&& after.company(company_id) is None
            &&& after.wf()
        }),
{
    let company_id = c.db.resolve(c.sender, UserRole::Owner)->Ok_0.1.company_id;
    let after = delete_company_spec(c)->Ok_0;
    crate::proofs::wellformed::lemma_delete_company_keeps_wf(c);
    lemma_delete_company_cascade(c.db, company_id);
    lemma_filter_exact(c.db.members, not(member_in(company_id)));
    lemma_filter_exact(c.db.capabilities, not(capability_of(company_id)));
    lemma_filter_exact(c.db.invite_codes, not(invite_for(company_id)));
    lemma_filter_exact(c.db.connections, not(touches(company_id)));
    lemma_filter_exact(c.db.notifications, not(notification_about(company_id)));
    lemma_filter_exact(c.db.companies, not(company_is(company_id)));
    assert(none_match(after.companies, company_is(company_id))) by {
        assert forall|j: int| 0 <= j < after.companies.len() implies !company_is(company_id)(
            #[trigger] after.companies[j],
        ) by {
            assert(not(company_is(company_id))(after.companies[j]));
        }
    }
    lemma_first_absent(after.companies, company_is(company_id));
    // What is left refers to companies that exist, and this one does not.
    assert forall|j: int| 0 <= j < after.projects.len() implies not(owned_by(company_id))(#[trigger] after.projects[j]) by {
        assert(crate::soundness::project_linked(after.companies)(after.projects[j]));
    }
    assert forall|j: int| 0 <= j < after.project_members.len() implies not(seat_of(company_id))(
        #[trigger] after.project_members[j],
    ) by {
        assert(crate::soundness::seat_linked(after.projects, after.companies)(after.project_members[j]));
    }
}

/// In a well-formed store the company that an account selects exists, and
/// the account's user is a member of it: no cursor is stale.
pub proof fn law_no_stale_cursor(db: DbView, who: Identity)
    requires
        db.wf(),
        db.account(who) is Some,
        db.account(who)->0.active_company_id is Some,
    ensures
        db.company(db.account(who)->0.active_company_id->0) is Some,
        db.membership(who, db.account(who)->0.active_company_id->0) is Some,
        db.resolve(who, UserRole::Pending) is Ok,
{
    let account = db.account(who)->0;
    let company_id = account.active_company_id->0;
    lemma_first_index(db.accounts, crate::model::account_is(who));
    let a = first_index(db.accounts, crate::model::account_is(who))->0;
    assert(crate::soundness::cursor_held(db.members)(db.accounts[a]));
    let p = crate::model::member_is(who, company_id);
    lemma_first_index(db.members, p);
    let m = choose|m: int| 0 <= m < db.members.len() && p(#[trigger] db.members[m]);
    assert(crate::soundness::member_linked(db.companies)(db.members[m]));
    crate::proofs::links::lemma_found_is_known(db, company_id, 0);
}

// ---------------------------------------------------------------------
// Projects
// ---------------------------------------------------------------------

/// A project deleted with its seats and chat leaves no row of its own.
pub proof fn lemma_project_gone(db: DbView, project_id: u64)
    ensures
        db.delete_project_cascade(project_id).project(project_id) is None,
        every(db.delete_project_cascade(project_id).project_members, not(seat_in(project_id))),
        every(db.delete_project_cascade(project_id).project_chats, not(project_chat_in(project_id))),
        !db.delete_project_cascade(project_id).has_accepted(project_id),
{
    let after = db.delete_project_cascade(project_id);
    lemma_filter_exact(db.projects, not(project_is(project_id)));
    lemma_filter_exact(db.project_members, not(seat_in(project_id)));
    lemma_filter_exact(db.project_chats, not(project_chat_in(project_id)));
    assert(none_match(after.projects, project_is(project_id))) by {
        assert forall|j: int| 0 <= j < after.projects.len() implies !project_is(project_id)(
            #[trigger] after.projects[j],
        ) by {
            assert(not(project_is(project_id))(after.projects[j]));
        }
    }
    lemma_first_absent(after.projects, project_is(project_id));
    assert(none_match(after.project_members, accepted_in(project_id))) by {
        assert forall|j: int| 0 <= j < after.project_members.len() implies !accepted_in(project_id)(
            #[trigger] after.project_members[j],
        ) by {
            assert(not(seat_in(project_id))(after.project_members[j]));
        }
    }
    lemma_first_absent(after.project_members, accepted_in(project_id));
}

/// Auto-dissolution: when a company leaves a project, the project is
/// deleted if and only if no Accepted seat is left once the company's seat
/// is Left. Where one is left, projects and chat are untouched and the
/// seats differ by the one that was given up only; where none is left, the
/// project, its seats and its chat are gone.
pub proof fn law_leave_dissolves_when_abandoned(c: CtxView, project_id: u64)
    requires
        leave_project_spec(c, project_id) is Ok,
    ensures
        ({
            let me = c.db.resolve(c.sender, UserRole::Admin)->Ok_0.1;
            let seat = c.db.seat_with(project_id, me.company_id, ProjectMemberStatus::Accepted)->0;
            let left = c.db.set_seat_status(seat.id, ProjectMemberStatus::Left);
            let after = leave_project_spec(c, project_id)->Ok_0;
            &&& c.db.project(project_id) is Some
            &&& after.project(project_id) is Some <==> left.has_accepted(project_id)
            &&& left.has_accepted(project_id) ==> {
                &&& after.projects == c.db.projects
                &&& after.project_members == left.project_members
                &&& after.project_chats == c.db.project_chats
            }
            &&& !left.has_accepted(project_id) ==> {
                &&& every(after.project_members, not(seat_in(project_id)))
                &&& every(after.project_chats, not(project_chat_in(project_id)))
            }
        }),
{
    let me = c.db.resolve(c.sender, UserRole::Admin)->Ok_0.1;
    let project = c.db.project(project_id)->0;
    let seat = c.db.seat_with(project_id, me.company_id, ProjectMemberStatus::Accepted)->0;
    let left = c.db.set_seat_status(seat.id, ProjectMemberStatus::Left);
    let label = c.db.company_label(me.company_id);
    let told = left.notify_companies(
        left.other_accepted(project_id, me.company_id, me.company_id),
        UserRole::Admin,
        NotificationType::ProjectLeft,
        label + " left project"@,
        label + " left project '"@ + project.name + "'"@,
        c.timestamp,
    );
    lemma_notify_companies_core(
        left,
        left.other_accepted(project_id, me.company_id, me.company_id),
        UserRole::Admin,
        NotificationType::ProjectLeft,
        label + " left project"@,
        label + " left project '"@ + project.name + "'"@,
        c.timestamp,
    );
    lemma_project_gone(told, project_id);
}

/// Never earlier: a kick deletes no project and no seat; it changes the
/// status of the seats with the id of the target's seat only. So the
/// project keeps each Accepted seat with another id.
pub proof fn law_kick_keeps_the_project(c: CtxView, project_id: u64, target_company_id: u64, other: int)
    requires
        kick_from_project_spec(c, project_id, target_company_id) is Ok,
        0 <= other < c.db.project_members.len(),
        c.db.project_members[other].project_id == project_id,
        c.db.project_members[other].status == ProjectMemberStatus::Accepted,
        c.db.project_members[other].id != c.db.seat_with(
            project_id,
            target_company_id,
            ProjectMemberStatus::Accepted,
        )->0.id,
    ensures
        ({
            let after = kick_from_project_spec(c, project_id, target_company_id)->Ok_0;
            &&& after.projects == c.db.projects
            &&& after.project(project_id) is Some
            &&& after.project_members.len() == c.db.project_members.len()
            &&& after.project_members[other] == c.db.project_members[other]
            &&& after.has_accepted(project_id)
        }),
{
    let me = c.db.resolve(c.sender, UserRole::Admin)->Ok_0.1;
    let project = c.db.project(project_id)->0;
    let seat = c.db.seat_with(project_id, target_company_id, ProjectMemberStatus::Accepted)->0;
    let label = c.db.company_label(target_company_id);
    let marked = c.db.set_seat_status(seat.id, ProjectMemberStatus::Kicked);
    let kicked = marked.notify_company_role(
        target_company_id,
        UserRole::Admin,
        None,
        NotificationType::ProjectKicked,
        "Removed from project '"@ + project.name + "'"@,
        "Your company has been removed from project '"@ + project.name + "'"@,
        c.timestamp,
    );
    lemma_notify_companies_core(
        kicked,
        kicked.other_accepted(project_id, me.company_id, target_company_id),
        UserRole::Admin,
        NotificationType::ProjectKicked,
        label + " removed from project"@,
        label + " was removed from project '"@ + project.name + "'"@,
        c.timestamp,
    );
    let after = kick_from_project_spec(c, project_id, target_company_id)->Ok_0;
    assert(after.project_members == marked.project_members);
    assert(accepted_in(project_id)(after.project_members[other]));
}

/// No project of a well-formed store is without an Accepted seat: the
/// company that owns it holds one.
pub proof fn law_no_project_without_accepted_seat(db: DbView, project_id: u64)
    requires
        db.wf(),
        db.project(project_id) is Some,
    ensures
        db.has_accepted(project_id),
        db.seat_with(project_id, db.project(project_id)->0.owner_company_id, ProjectMemberStatus::Accepted) is Some,
{
    crate::proofs::seats::lemma_project_found(db, project_id);
    let project = db.project(project_id)->0;
    let q = crate::model::seat_with(project_id, project.owner_company_id, ProjectMemberStatus::Accepted);
    let s = choose|s: int| 0 <= s < db.project_members.len() && q(#[trigger] db.project_members[s]);
    assert(accepted_in(project_id)(db.project_members[s]));
    lemma_first_index(db.project_members, q);
}

/// Never earlier: in a well-formed store neither a leave nor a kick takes
/// the last Accepted seat of a project, so neither deletes it; the seat of
/// the owner company stays.
pub proof fn law_members_going_never_dissolve(c: CtxView, project_id: u64, target_company_id: u64)
    requires
        c.db.wf(),
    ensures
        leave_project_spec(c, project_id) matches Ok(db) ==> db.project(project_id) == c.db.project(project_id)
            && db.has_accepted(project_id),
        kick_from_project_spec(c, project_id, target_company_id) matches Ok(db) ==> db.project(project_id)
            == c.db.project(project_id) && db.has_accepted(project_id),
{
    if let Ok(db) = leave_project_spec(c, project_id) {
        let me = c.db.resolve(c.sender, UserRole::Admin)->Ok_0.1;
        let project = c.db.project(project_id)->0;
        let seat = c.db.seat_with(project_id, me.company_id, ProjectMemberStatus::Accepted)->0;
        let left = c.db.set_seat_status(seat.id, ProjectMemberStatus::Left);
        crate::proofs::seats::lemma_project_found(c.db, project_id);
        crate::proofs::seats::lemma_seat_found(c.db, project_id, me.company_id, ProjectMemberStatus::Accepted);
        crate::proofs::seats::lemma_set_seat_status_keeps_projects(c.db, seat, ProjectMemberStatus::Left);
        let k = choose|k: int| 0 <= k < left.projects.len() && left.projects[k] == project;
        crate::proofs::seats::lemma_every_project_has_an_accepted_seat(left, k);
        law_leave_dissolves_when_abandoned(c, project_id);
    }
    if let Ok(db) = kick_from_project_spec(c, project_id, target_company_id) {
        crate::proofs::seats::lemma_kick_from_project_keeps_projects(c, project_id, target_company_id);
        crate::proofs::seats::lemma_project_found(c.db, project_id);
        let project = c.db.project(project_id)->0;
        let k = choose|k: int| 0 <= k < db.projects.len() && db.projects[k] == project;
        crate::proofs::seats::lemma_every_project_has_an_accepted_seat(db, k);
    }
}

/// The recorded owner of a company of a well-formed store is a member of it
/// with the role Owner, and is the only member of it with that role.
pub proof fn law_owner_is_recorded(db: DbView, company_id: u64, i: int)
    requires
        db.wf(),
        db.company(company_id) is Some,
        0 <= i < db.members.len(),
        db.members[i].company_id == company_id,
        db.members[i].role == UserRole::Owner,
    ensures
        db.members[i].identity == db.company(company_id)->0.owner_identity,
        db.membership(db.company(company_id)->0.owner_identity, company_id) == Some(db.members[i]),
{
    crate::proofs::companies::lemma_company_found(db, company_id);
    crate::proofs::people::lemma_member_found(db, db.company(company_id)->0.owner_identity, company_id);
    let company = db.company(company_id)->0;
    let k = choose|k: int| 0 <= k < db.companies.len() && db.companies[k] == company;
    assert(db.members[i].identity == db.companies[k].owner_identity);
    assert(crate::model::member_is(company.owner_identity, company_id)(db.members[i]));
    lemma_first_index(db.members, crate::model::member_is(company.owner_identity, company_id));
    let f = first_index(db.members, crate::model::member_is(company.owner_identity, company_id))->0;
    if f < i {
        assert(crate::soundness::other_member()(db.members[f], db.members[i]));
    } else if i < f {
        assert(crate::soundness::other_member()(db.members[i], db.members[f]));
    }
}

// ---------------------------------------------------------------------
// Invite codes
// ---------------------------------------------------------------------

/// A successful join spends one use of the code: the code is deleted with
/// its last use, and holds one use less otherwise.
pub proof fn law_join_spends_a_use(c: CtxView, code: Seq<char>)
    requires
        join_company_spec(c, code) is Ok,
    ensures
        ({
            let key = uppercased(trimmed(code));
            let invite = c.db.invite(key)->0;
            let after = join_company_spec(c, code)->Ok_0;
            &&& c.db.invite(key) is Some
            &&& invite.uses_remaining >= 1
            &&& if invite.uses_remaining == 1 {
                after.invite(key) is None
            } else {
                after.invite(key) == Some(
                    InviteCodeView { uses_remaining: (invite.uses_remaining - 1) as u32, ..invite },
                )
            }
        }),
{
    let raw = code;
    let code = uppercased(trimmed(raw));
    let account = c.db.account(c.sender)->0;
    let invite = c.db.invite(code)->0;
    let joined = c.db.add_used_invite(c.sender, code, invite.company_id).add_member(
        c.sender,
        invite.company_id,
        UserRole::Pending,
        c.timestamp,
    );
    let settled = if account.active_company_id is None {
        joined.set_active(c.sender, Some(invite.company_id))
    } else {
        joined
    };
    assert(settled.invite_codes == c.db.invite_codes);
    let spent = consumed(settled, invite);
    lemma_first_index(c.db.invite_codes, code_is(code));
    assert(invite.code == code);
    if invite.uses_remaining <= 1 {
        lemma_filter_exact(c.db.invite_codes, not(code_is(code)));
        assert(none_match(spent.invite_codes, code_is(code))) by {
            assert forall|j: int| 0 <= j < spent.invite_codes.len() implies !code_is(code)(
                #[trigger] spent.invite_codes[j],
            ) by {
                assert(not(code_is(code))(spent.invite_codes[j]));
            }
        }
        lemma_first_absent(spent.invite_codes, code_is(code));
    } else {
        let g = |i: InviteCodeView|
            if i.code == code {
                InviteCodeView { uses_remaining: (invite.uses_remaining - 1) as u32, ..i }
            } else {
                i
            };
        assert(spent.invite_codes =~= c.db.invite_codes.map_values(g));
        assert forall|i: InviteCodeView| #[trigger] code_is(code)(g(i)) == code_is(code)(i) by {}
        lemma_first_after_change(c.db.invite_codes, g, code_is(code));
    }
    lemma_notify_company_role_core(
        spent,
        invite.company_id,
        UserRole::Admin,
        Some(c.sender),
        NotificationType::MemberJoined,
        "New member joined"@,
        account.nickname + " joined "@ + c.db.company_name(invite.company_id),
        c.timestamp,
    );
}

/// A code that was issued holds the uses granted.
pub proof fn law_issued_code_holds_its_uses(c: CtxView, max_uses: u32, draws: Seq<u64>)
    requires
        generate_invite_code_spec(c, max_uses, draws) is Ok,
    ensures
        ({
            let after = generate_invite_code_spec(c, max_uses, draws)->Ok_0;
            &&& after.invite(code_of(draws)) is Some
            &&& after.invite(code_of(draws))->0.uses_remaining == crate::accounts::uses_granted(max_uses)
            &&& after.invite(code_of(draws))->0.code == code_of(draws)
        }),
{
    let after = generate_invite_code_spec(c, max_uses, draws)->Ok_0;
    lemma_first_after_push(
        c.db.invite_codes,
        code_is(code_of(draws)),
        after.invite_codes[c.db.invite_codes.len() as int],
    );
}

/// Invite exhaustion: a code issued for two uses admits two users; after
/// the first join it holds one use, after the second it is deleted, and a
/// third join with it fails.
pub proof fn law_invite_exhaustion(
    issuer: CtxView,
    draws: Seq<u64>,
    code: Seq<char>,
    first_sender: Identity,
    first_time: Timestamp,
    second_sender: Identity,
    second_time: Timestamp,
    third: CtxView,
)
    requires
        uppercased(trimmed(code)) == code_of(draws),
        generate_invite_code_spec(issuer, 2, draws) is Ok,
        join_company_spec(
            CtxView {
                db: generate_invite_code_spec(issuer, 2, draws)->Ok_0,
                sender: first_sender,
                timestamp: first_time,
            },
            code,
        ) is Ok,
        join_company_spec(
            CtxView {
                db: join_company_spec(
                    CtxView {
                        db: generate_invite_code_spec(issuer, 2, draws)->Ok_0,
                        sender: first_sender,
                        timestamp: first_time,
                    },
                    code,
                )->Ok_0,
                sender: second_sender,
                timestamp: second_time,
            },
            code,
        ) is Ok,
        third.db == join_company_spec(
            CtxView {
                db: join_company_spec(
                    CtxView {
                        db: generate_invite_code_spec(issuer, 2, draws)->Ok_0,
                        sender: first_sender,
                        timestamp: first_time,
                    },
                    code,
                )->Ok_0,
                sender: second_sender,
                timestamp: second_time,
            },
            code,
        )->Ok_0,
    ensures
        first_sender != second_sender,
        ({
            let issued = generate_invite_code_spec(issuer, 2, draws)->Ok_0;
            let once = join_company_spec(CtxView { db: issued, sender: first_sender, timestamp: first_time }, code)->Ok_0;
            let twice = join_company_spec(
                CtxView { db: once, sender: second_sender, timestamp: second_time },
                code,
            )->Ok_0;
            &&& issued.invite(code_of(draws))->0.uses_remaining == 2
            &&& once.invite(code_of(draws)) is Some
            &&& once.invite(code_of(draws))->0.uses_remaining == 1
            &&& twice.invite(code_of(draws)) is None
            &&& join_company_spec(third, code) is Err
        }),
{
    let issued = generate_invite_code_spec(issuer, 2, draws)->Ok_0;
    let c1 = CtxView { db: issued, sender: first_sender, timestamp: first_time };
    let once = join_company_spec(c1, code)->Ok_0;
    let c2 = CtxView { db: once, sender: second_sender, timestamp: second_time };
    law_issued_code_holds_its_uses(issuer, 2, draws);
    law_join_spends_a_use(c1, code);
    law_join_spends_a_use(c2, code);
    // The first to join is a member afterwards, so cannot join again.
    if first_sender == second_sender {
        lemma_joined_is_member(c1, code);
    }
}

/// Who has joined a company is a member of it.
pub proof fn lemma_joined_is_member(c: CtxView, code: Seq<char>)
    requires
        join_company_spec(c, code) is Ok,
    ensures
        join_company_spec(c, code)->Ok_0.membership(
            c.sender,
            c.db.invite(uppercased(trimmed(code)))->0.company_id,
        ) is Some,
        join_company_spec(c, code)->Ok_0.invite(uppercased(trimmed(code))) is Some ==> join_company_spec(
            c,
            code,
        )->Ok_0.invite(uppercased(trimmed(code)))->0.company_id == c.db.invite(
            uppercased(trimmed(code)),
        )->0.company_id,
{
    let raw = code;
    let code = uppercased(trimmed(raw));
    let account = c.db.account(c.sender)->0;
    let invite = c.db.invite(code)->0;
    let recorded = c.db.add_used_invite(c.sender, code, invite.company_id);
    let joined = recorded.add_member(c.sender, invite.company_id, UserRole::Pending, c.timestamp);
    lemma_first_after_push(
        recorded.members,
        crate::model::member_is(c.sender, invite.company_id),
        joined.members[recorded.members.len() as int],
    );
    let settled = if account.active_company_id is None {
        joined.set_active(c.sender, Some(invite.company_id))
    } else {
        joined
    };
    assert(settled.members == joined.members);
    let spent = consumed(settled, invite);
    assert(spent.members == joined.members);
    lemma_notify_company_role_core(
        spent,
        invite.company_id,
        UserRole::Admin,
        Some(c.sender),
        NotificationType::MemberJoined,
        "New member joined"@,
        account.nickname + " joined "@ + c.db.company_name(invite.company_id),
        c.timestamp,
    );
    law_join_spends_a_use(c, raw);
}

} // verus!
