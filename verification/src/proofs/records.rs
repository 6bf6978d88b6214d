//! Each procedure keeps what holds of presence rows, chat, notifications
//! and the record of used codes.

use vstd::prelude::*;
use crate::accounts::{consumed, join_with_code_spec};
use crate::cascade::delete_company_spec;
use crate::connections::{
    accept_connection_spec, cancel_request_spec, decline_connection_spec, disconnect_company_spec,
    request_connection_spec, send_connection_chat_spec,
};
use crate::context::CtxView;
use crate::inbox::{
    clear_notifications_spec, mark_all_notifications_read_spec, mark_notification_read_spec,
};
use crate::model::{
    DbView, chat_in, inbox_item, lemma_fan_out_bound, not, notification_about, online_is,
    project_chat_in, recipient_in, used_is,
};
use crate::projects::{
    accept_project_invite_spec, decline_project_invite_spec, delete_project_spec,
    invite_to_project_spec, kick_from_project_spec, leave_project_spec, send_project_chat_spec,
};
use crate::roles::{Identity, NotificationType, ProjectMemberStatus, Timestamp, UserRole};
use crate::seqs::{
    lemma_every_filter, lemma_filter_members, lemma_first_index, lemma_pairwise_filter,
};
use crate::soundness::{
    chat_allocated, lemma_pairwise_push, notification_allocated, other_chat, other_notification,
    other_project_chat, other_use, other_user, project_chat_allocated, use_allocated,
};
use crate::team::{remove_colleague_spec, update_user_role_spec};

verus! {

/// Notifications for a run of recipients get ids that were not handed out
/// before.
pub proof fn lemma_notify_all_keeps_records(
    db: DbView,
    recipients: Seq<Identity>,
    company_id: u64,
    kind: NotificationType,
    title: Seq<char>,
    body: Seq<char>,
    now: Timestamp,
)
    requires
        db.records_ok(),
        db.next_notification_id + recipients.len() <= u64::MAX,
    ensures
        db.notify_all(recipients, company_id, kind, title, body, now).records_ok(),
        db.notify_all(recipients, company_id, kind, title, body, now).next_notification_id
            == db.next_notification_id + recipients.len(),
        db.notify_all(recipients, company_id, kind, title, body, now) == (DbView {
            notifications: db.notify_all(recipients, company_id, kind, title, body, now).notifications,
            next_notification_id: db.notify_all(
                recipients,
                company_id,
                kind,
                title,
                body,
                now,
            ).next_notification_id,
            ..db
        }),
{
    let after = db.notify_all(recipients, company_id, kind, title, body, now);
    let old_len = db.notifications.len() as int;
    assert(after.notifications.len() == old_len + recipients.len());
    assert forall|i: int| 0 <= i < after.notifications.len() implies (#[trigger] after.notifications[i]).id == if i
        < old_len {
        db.notifications[i].id
    } else {
        (db.next_notification_id + (i - old_len)) as u64
    } by {}
    assert forall|i: int, j: int| 0 <= i < j < after.notifications.len() implies other_notification()(
        #[trigger] after.notifications[i],
        #[trigger] after.notifications[j],
    ) by {
        if j < old_len {
            assert(other_notification()(db.notifications[i], db.notifications[j]));
        } else if i < old_len {
            assert(notification_allocated(db.next_notification_id)(db.notifications[i]));
        }
    }
    assert forall|i: int| 0 <= i < after.notifications.len() implies notification_allocated(
        after.next_notification_id,
    )(#[trigger] after.notifications[i]) by {
        if i < old_len {
            assert(notification_allocated(db.next_notification_id)(db.notifications[i]));
        }
    }
}

/// A single notification gets an id that was not handed out before.
pub proof fn lemma_notify_keeps_records(
    db: DbView,
    recipient: Identity,
    company_id: u64,
    kind: NotificationType,
    title: Seq<char>,
    body: Seq<char>,
    now: Timestamp,
)
    requires
        db.records_ok(),
        db.next_notification_id < u64::MAX,
    ensures
        db.notify(recipient, company_id, kind, title, body, now).records_ok(),
{
    let after = db.notify(recipient, company_id, kind, title, body, now);
    let row = after.notifications[db.notifications.len() as int];
    assert forall|i: int| 0 <= i < db.notifications.len() implies other_notification()(
        #[trigger] db.notifications[i],
        row,
    ) by {
        assert(notification_allocated(db.next_notification_id)(db.notifications[i]));
    }
    lemma_pairwise_push(db.notifications, other_notification(), row);
    assert forall|i: int| 0 <= i < after.notifications.len() implies notification_allocated(
        after.next_notification_id,
    )(#[trigger] after.notifications[i]) by {
        if i < db.notifications.len() {
            assert(notification_allocated(db.next_notification_id)(db.notifications[i]));
        }
    }
}

/// A fan-out to one company.
pub proof fn lemma_notify_company_role_keeps_records(
    db: DbView,
    company_id: u64,
    min_role: UserRole,
    exclude: Option<Identity>,
    kind: NotificationType,
    title: Seq<char>,
    body: Seq<char>,
    now: Timestamp,
)
    requires
        db.records_ok(),
        db.next_notification_id + db.members.len() <= u64::MAX,
    ensures
        db.notify_company_role(company_id, min_role, exclude, kind, title, body, now).records_ok(),
        db.notify_company_role(company_id, min_role, exclude, kind, title, body, now).next_notification_id
            <= db.next_notification_id + db.members.len(),
{
    lemma_filter_members(db.members, recipient_in(company_id, min_role, exclude));
    lemma_notify_all_keeps_records(
        db,
        db.recipients(company_id, min_role, exclude),
        company_id,
        kind,
        title,
        body,
        now,
    );
}

/// A fan-out to one company after another.
pub proof fn lemma_notify_companies_keeps_records(
    db: DbView,
    companies: Seq<u64>,
    min_role: UserRole,
    kind: NotificationType,
    title: Seq<char>,
    body: Seq<char>,
    now: Timestamp,
)
    requires
        db.records_ok(),
        db.next_notification_id + companies.len() * db.members.len() <= u64::MAX,
    ensures
        db.notify_companies(companies, min_role, kind, title, body, now).records_ok(),
        db.notify_companies(companies, min_role, kind, title, body, now).next_notification_id
            <= db.next_notification_id + companies.len() * db.members.len(),
    decreases companies.len(),
{
    if companies.len() > 0 {
        let n = companies.len() as int;
        let m = db.members.len() as int;
        assert((n - 1) * m <= n * m && n * m == (n - 1) * m + m) by (nonlinear_arith)
            requires
                n >= 1,
                m >= 0,
        ;
        lemma_notify_companies_keeps_records(db, companies.drop_last(), min_role, kind, title, body, now);
        crate::proofs::people::lemma_notify_companies_core(
            db,
            companies.drop_last(),
            min_role,
            kind,
            title,
            body,
            now,
        );
        lemma_notify_company_role_keeps_records(
            db.notify_companies(companies.drop_last(), min_role, kind, title, body, now),
            companies.last(),
            min_role,
            None,
            kind,
            title,
            body,
            now,
        );
    } else {
        assert(companies.len() * db.members.len() == 0) by (nonlinear_arith)
            requires
                companies.len() == 0,
        ;
    }
}

/// Notifications marked read or cleared.
pub proof fn lemma_inbox_keeps_records(db: DbView, id: u64, who: Identity, company_id: u64)
    requires
        db.records_ok(),
    ensures
        db.mark_read(id).records_ok(),
        db.mark_all_read(who, company_id).records_ok(),
        db.clear_read(who, company_id).records_ok(),
{
    let one = db.mark_read(id);
    assert forall|i: int| 0 <= i < one.notifications.len() implies (#[trigger] one.notifications[i]).id
        == db.notifications[i].id by {}
    lemma_notifications_changed(db, one);
    let all = db.mark_all_read(who, company_id);
    assert forall|i: int| 0 <= i < all.notifications.len() implies (#[trigger] all.notifications[i]).id
        == db.notifications[i].id by {}
    lemma_notifications_changed(db, all);
    lemma_pairwise_filter(db.notifications, not(inbox_item(who, company_id, true)), other_notification());
    lemma_every_filter(
        db.notifications,
        not(inbox_item(who, company_id, true)),
        notification_allocated(db.next_notification_id),
    );
}

/// The notifications in the context of a company deleted.
pub proof fn lemma_drop_notifications_keeps_records(db: DbView, company_id: u64)
    requires
        db.records_ok(),
    ensures
        db.drop_notifications_about(company_id).records_ok(),
{
    lemma_pairwise_filter(db.notifications, not(notification_about(company_id)), other_notification());
    lemma_every_filter(
        db.notifications,
        not(notification_about(company_id)),
        notification_allocated(db.next_notification_id),
    );
}

/// A change of notifications that keeps their ids keeps the records sound.
pub proof fn lemma_notifications_changed(db: DbView, after: DbView)
    requires
        db.records_ok(),
        after == (DbView { notifications: after.notifications, ..db }),
        after.notifications.len() == db.notifications.len(),
        forall|i: int| 0 <= i < db.notifications.len() ==> (#[trigger] after.notifications[i]).id == db.notifications[i].id,
    ensures
        after.records_ok(),
{
    assert forall|i: int, j: int| 0 <= i < j < after.notifications.len() implies other_notification()(
        #[trigger] after.notifications[i],
        #[trigger] after.notifications[j],
    ) by {
        assert(other_notification()(db.notifications[i], db.notifications[j]));
        assert(after.notifications[i].id == db.notifications[i].id);
        assert(after.notifications[j].id == db.notifications[j].id);
    }
    assert forall|i: int| 0 <= i < after.notifications.len() implies notification_allocated(
        after.next_notification_id,
    )(#[trigger] after.notifications[i]) by {
        assert(notification_allocated(db.next_notification_id)(db.notifications[i]));
        assert(after.notifications[i].id == db.notifications[i].id);
    }
}

/// A chat message more.
pub proof fn lemma_add_connection_chat_keeps_records(
    db: DbView,
    connection_id: u64,
    who: Identity,
    text: Seq<char>,
    now: Timestamp,
)
    requires
        db.records_ok(),
        db.next_connection_chat_id < u64::MAX,
    ensures
        db.add_connection_chat(connection_id, who, text, now).records_ok(),
{
    let after = db.add_connection_chat(connection_id, who, text, now);
    let row = after.connection_chats[db.connection_chats.len() as int];
    assert forall|i: int| 0 <= i < db.connection_chats.len() implies other_chat()(
        #[trigger] db.connection_chats[i],
        row,
    ) by {
        assert(chat_allocated(db.next_connection_chat_id)(db.connection_chats[i]));
    }
    lemma_pairwise_push(db.connection_chats, other_chat(), row);
    assert forall|i: int| 0 <= i < after.connection_chats.len() implies chat_allocated(
        after.next_connection_chat_id,
    )(#[trigger] after.connection_chats[i]) by {
        if i < db.connection_chats.len() {
            assert(chat_allocated(db.next_connection_chat_id)(db.connection_chats[i]));
        }
    }
}

/// The chat of a connection deleted, with or without the connection.
pub proof fn lemma_drop_connection_chat_keeps_records(db: DbView, connection_id: u64)
    requires
        db.records_ok(),
    ensures
        db.drop_connection_chat(connection_id).records_ok(),
        db.drop_connection_chat(connection_id).drop_connection(connection_id).records_ok(),
{
    lemma_pairwise_filter(db.connection_chats, not(chat_in(connection_id)), other_chat());
    lemma_every_filter(
        db.connection_chats,
        not(chat_in(connection_id)),
        chat_allocated(db.next_connection_chat_id),
    );
}

/// A project chat message more.
pub proof fn lemma_add_project_chat_keeps_records(
    db: DbView,
    project_id: u64,
    who: Identity,
    text: Seq<char>,
    now: Timestamp,
)
    requires
        db.records_ok(),
        db.next_project_chat_id < u64::MAX,
    ensures
        db.add_project_chat(project_id, who, text, now).records_ok(),
        db.add_project_chat(project_id, who, text, now).next_notification_id == db.next_notification_id,
{
    let after = db.add_project_chat(project_id, who, text, now);
    let row = after.project_chats[db.project_chats.len() as int];
    assert forall|i: int| 0 <= i < db.project_chats.len() implies other_project_chat()(
        #[trigger] db.project_chats[i],
        row,
    ) by {
        assert(project_chat_allocated(db.next_project_chat_id)(db.project_chats[i]));
    }
    lemma_pairwise_push(db.project_chats, other_project_chat(), row);
    assert forall|i: int| 0 <= i < after.project_chats.len() implies project_chat_allocated(
        after.next_project_chat_id,
    )(#[trigger] after.project_chats[i]) by {
        if i < db.project_chats.len() {
            assert(project_chat_allocated(db.next_project_chat_id)(db.project_chats[i]));
        }
    }
}

/// A project deleted with its seats and chat.
pub proof fn lemma_cascade_keeps_records(db: DbView, project_id: u64)
    requires
        db.records_ok(),
    ensures
        db.delete_project_cascade(project_id).records_ok(),
{
    lemma_pairwise_filter(db.project_chats, not(project_chat_in(project_id)), other_project_chat());
    lemma_every_filter(
        db.project_chats,
        not(project_chat_in(project_id)),
        project_chat_allocated(db.next_project_chat_id),
    );
}

/// The use of a code recorded, for a user who has not used it.
pub proof fn lemma_add_used_invite_keeps_records(db: DbView, who: Identity, code: Seq<char>, company_id: u64)
    requires
        db.records_ok(),
        db.next_used_invite_id < u64::MAX,
        !db.code_used(who, code),
    ensures
        db.add_used_invite(who, code, company_id).records_ok(),
{
    let after = db.add_used_invite(who, code, company_id);
    let row = after.used_invite_codes[db.used_invite_codes.len() as int];
    assert forall|i: int| 0 <= i < db.used_invite_codes.len() implies other_use()(
        #[trigger] db.used_invite_codes[i],
        row,
    ) by {
        assert(use_allocated(db.next_used_invite_id)(db.used_invite_codes[i]));
        assert(!used_is(who, code)(db.used_invite_codes[i]));
    }
    lemma_pairwise_push(db.used_invite_codes, other_use(), row);
    assert forall|i: int| 0 <= i < after.used_invite_codes.len() implies use_allocated(after.next_used_invite_id)(
        #[trigger] after.used_invite_codes[i],
    ) by {
        if i < db.used_invite_codes.len() {
            assert(use_allocated(db.next_used_invite_id)(db.used_invite_codes[i]));
        }
    }
}

/// Presence rows added for who has none, or changed.
pub proof fn lemma_presence_keeps_records(db: DbView, who: Identity, online: bool)
    requires
        db.records_ok(),
    ensures
        db.online(who) is None ==> db.add_online(who).records_ok(),
        db.set_online(who, online).records_ok(),
{
    if db.online(who) is None {
        lemma_first_index(db.online_users, online_is(who));
        let after = db.add_online(who);
        let row = after.online_users[db.online_users.len() as int];
        assert forall|i: int| 0 <= i < db.online_users.len() implies other_user()(#[trigger] db.online_users[i], row) by {
            assert(!online_is(who)(db.online_users[i]));
        }
        lemma_pairwise_push(db.online_users, other_user(), row);
    }
    let changed = db.set_online(who, online);
    assert forall|i: int, j: int| 0 <= i < j < changed.online_users.len() implies other_user()(
        #[trigger] changed.online_users[i],
        #[trigger] changed.online_users[j],
    ) by {
        assert(other_user()(db.online_users[i], db.online_users[j]));
    }
}

/// Deleting the chat of connections, projects, or abandoned projects.
pub proof fn lemma_folds_keep_records(db: DbView, ids: Seq<u64>)
    requires
        db.records_ok(),
    ensures
        db.drop_chats_of(ids).records_ok(),
        db.delete_projects(ids).records_ok(),
        db.dissolve_abandoned(ids).records_ok(),
    decreases ids.len(),
{
    if ids.len() > 0 {
        lemma_folds_keep_records(db, ids.drop_last());
        lemma_drop_connection_chat_keeps_records(db.drop_chats_of(ids.drop_last()), ids.last());
        lemma_cascade_keeps_records(db.delete_projects(ids.drop_last()), ids.last());
        lemma_cascade_keeps_records(db.dissolve_abandoned(ids.drop_last()), ids.last());
    }
}

/// The deletion of a company keeps the records sound.
pub proof fn lemma_delete_company_cascade_keeps_records(db: DbView, company_id: u64)
    requires
        db.records_ok(),
    ensures
        db.delete_company_cascade(company_id).records_ok(),
{
    let uninvited = db.drop_invites_of(company_id);
    crate::proofs::people::lemma_reassign_each_frame(
        uninvited.drop_members_of(company_id),
        uninvited.member_identities(company_id),
        company_id,
    );
    let unlinked = uninvited.unlink_members(company_id);
    assert(db.same_records(unlinked));
    let bare = unlinked.drop_capability(company_id);
    lemma_folds_keep_records(bare.drop_connections_touching(company_id), bare.connection_ids_touching(company_id));
    lemma_drop_notifications_keeps_records(bare.disconnect_all(company_id), company_id);
    let cut = bare.disconnect_all(company_id).drop_notifications_about(company_id);
    lemma_folds_keep_records(cut, cut.owned_project_ids(company_id));
    let disowned = cut.delete_projects(cut.owned_project_ids(company_id));
    assert(disowned.same_records(disowned.drop_seats_of(company_id)));
    lemma_folds_keep_records(disowned.drop_seats_of(company_id), disowned.seat_project_ids(company_id));
}

// ---------------------------------------------------------------------
// The procedures
// ---------------------------------------------------------------------

/// The companies with an accepted seat are no more than the seats.
pub proof fn lemma_other_accepted_bound(db: DbView, project_id: u64, skip_a: u64, skip_b: u64)
    ensures
        db.other_accepted(project_id, skip_a, skip_b).len() <= db.project_members.len(),
{
    lemma_filter_members(db.project_members, crate::model::other_accepted_in(project_id, skip_a, skip_b));
}

pub proof fn lemma_join_with_code_keeps_records(c: CtxView, code: Seq<char>)
    requires
        c.db.records_ok(),
        c.db.next_used_invite_id < u64::MAX,
        c.db.next_notification_id + c.db.members.len() + 1 <= u64::MAX,
    ensures
        join_with_code_spec(c, code) matches Ok(db) ==> db.records_ok(),
{
    if let Ok(db) = join_with_code_spec(c, code) {
        let account = c.db.account(c.sender)->0;
        let invite = c.db.invite(code)->0;
        lemma_add_used_invite_keeps_records(c.db, c.sender, code, invite.company_id);
        let recorded = c.db.add_used_invite(c.sender, code, invite.company_id);
        let joined = recorded.add_member(c.sender, invite.company_id, UserRole::Pending, c.timestamp);
        let settled = if account.active_company_id is None {
            joined.set_active(c.sender, Some(invite.company_id))
        } else {
            joined
        };
        let spent = consumed(settled, invite);
        assert(recorded.same_records(spent));
        assert(spent.members.len() == c.db.members.len() + 1);
        lemma_notify_company_role_keeps_records(
            spent,
            invite.company_id,
            UserRole::Admin,
            Some(c.sender),
            NotificationType::MemberJoined,
            "New member joined"@,
            account.nickname + " joined "@ + c.db.company_name(invite.company_id),
            c.timestamp,
        );
    }
}

pub proof fn lemma_remove_colleague_keeps_records(c: CtxView, colleague: Identity)
    requires
        c.db.records_ok(),
        c.db.next_notification_id < u64::MAX,
    ensures
        remove_colleague_spec(c, colleague) matches Ok(db) ==> db.records_ok(),
{
    if let Ok(db) = remove_colleague_spec(c, colleague) {
        let me = c.db.resolve(c.sender, UserRole::Admin)->Ok_0.1;
        let theirs = c.db.membership(colleague, me.company_id)->0;
        let gone = c.db.drop_member(theirs.id).reassign_active_company(colleague, me.company_id);
        assert(c.db.same_records(gone));
        lemma_notify_keeps_records(
            gone,
            colleague,
            me.company_id,
            NotificationType::MemberRemoved,
            "Removed from company"@,
            "You were removed from "@ + c.db.company_name(me.company_id),
            c.timestamp,
        );
    }
}

pub proof fn lemma_update_user_role_keeps_records(c: CtxView, target: Identity, new_role: UserRole)
    requires
        c.db.records_ok(),
        c.db.next_notification_id < u64::MAX,
    ensures
        update_user_role_spec(c, target, new_role) matches Ok(db) ==> db.records_ok(),
{
    if let Ok(db) = update_user_role_spec(c, target, new_role) {
        let me = c.db.resolve(c.sender, UserRole::Admin)->Ok_0.1;
        let theirs = c.db.membership(target, me.company_id)->0;
        let changed = c.db.set_role(theirs.id, new_role);
        assert(c.db.same_records(changed));
        lemma_notify_keeps_records(
            changed,
            target,
            me.company_id,
            NotificationType::RoleChanged,
            "Role updated"@,
            "Your role in "@ + c.db.company_name(me.company_id) + " was changed to "@ + crate::roles::role_name_of(
                new_role,
            ),
            c.timestamp,
        );
    }
}

pub proof fn lemma_request_connection_keeps_records(c: CtxView, target_company_id: u64, message: Seq<char>)
    requires
        c.db.records_ok(),
        c.db.room_for_fan_outs(1),
    ensures
        request_connection_spec(c, target_company_id, message) matches Ok(db) ==> db.records_ok(),
{
    if let Ok(db) = request_connection_spec(c, target_company_id, message) {
        let me = c.db.resolve(c.sender, UserRole::Admin)->Ok_0.1;
        if c.db.connection_between(me.company_id, target_company_id) is None {
            let asked = c.db.add_connection(
                me.company_id,
                target_company_id,
                crate::roles::ConnectionStatus::Pending,
                c.sender,
                None,
                crate::text::trimmed(message),
                c.timestamp,
            );
            assert(c.db.same_records(asked));
            lemma_notify_company_role_keeps_records(
                asked,
                target_company_id,
                UserRole::Admin,
                None,
                NotificationType::ConnectionRequest,
                "Connection request"@,
                c.db.company_name(me.company_id) + " wants to connect"@,
                c.timestamp,
            );
        }
    }
}

pub proof fn lemma_cancel_request_keeps_records(c: CtxView, target_company_id: u64)
    requires
        c.db.records_ok(),
    ensures
        cancel_request_spec(c, target_company_id) matches Ok(db) ==> db.records_ok(),
{
    if let Ok(db) = cancel_request_spec(c, target_company_id) {
        let me = c.db.resolve(c.sender, UserRole::Admin)->Ok_0.1;
        lemma_drop_connection_chat_keeps_records(
            c.db,
            c.db.connection_between(me.company_id, target_company_id)->0.id,
        );
    }
}

pub proof fn lemma_accept_connection_keeps_records(c: CtxView, target_company_id: u64)
    requires
        c.db.records_ok(),
        c.db.room_for_fan_outs(1),
    ensures
        accept_connection_spec(c, target_company_id) matches Ok(db) ==> db.records_ok(),
{
    if let Ok(db) = accept_connection_spec(c, target_company_id) {
        let me = c.db.resolve(c.sender, UserRole::Admin)->Ok_0.1;
        let conn = c.db.connection_between(me.company_id, target_company_id)->0;
        let accepted = c.db.set_connection_status(conn.id, crate::roles::ConnectionStatus::Accepted);
        assert(c.db.same_records(accepted));
        lemma_notify_company_role_keeps_records(
            accepted,
            c.db.requesting_company(conn)->Ok_0,
            UserRole::Admin,
            None,
            NotificationType::ConnectionAccepted,
            "Connection accepted"@,
            c.db.company_name(me.company_id) + " accepted your connection request"@,
            c.timestamp,
        );
    }
}

pub proof fn lemma_decline_connection_keeps_records(c: CtxView, target_company_id: u64)
    requires
        c.db.records_ok(),
        c.db.room_for_fan_outs(1),
    ensures
        decline_connection_spec(c, target_company_id) matches Ok(db) ==> db.records_ok(),
{
    if let Ok(db) = decline_connection_spec(c, target_company_id) {
        let me = c.db.resolve(c.sender, UserRole::Admin)->Ok_0.1;
        let conn = c.db.connection_between(me.company_id, target_company_id)->0;
        lemma_notify_company_role_keeps_records(
            c.db,
            c.db.requesting_company(conn)->Ok_0,
            UserRole::Admin,
            None,
            NotificationType::ConnectionDeclined,
            "Connection declined"@,
            c.db.company_name(me.company_id) + " declined your connection request"@,
            c.timestamp,
        );
        let told = c.db.notify_company_role(
            c.db.requesting_company(conn)->Ok_0,
            UserRole::Admin,
            None,
            NotificationType::ConnectionDeclined,
            "Connection declined"@,
            c.db.company_name(me.company_id) + " declined your connection request"@,
            c.timestamp,
        );
        lemma_drop_connection_chat_keeps_records(told, conn.id);
    }
}

pub proof fn lemma_disconnect_company_keeps_records(c: CtxView, target_company_id: u64)
    requires
        c.db.records_ok(),
    ensures
        disconnect_company_spec(c, target_company_id) matches Ok(db) ==> db.records_ok(),
{
    if let Ok(db) = disconnect_company_spec(c, target_company_id) {
        let me = c.db.resolve(c.sender, UserRole::Admin)->Ok_0.1;
        lemma_drop_connection_chat_keeps_records(
            c.db,
            c.db.connection_between(me.company_id, target_company_id)->0.id,
        );
    }
}

pub proof fn lemma_send_connection_chat_keeps_records(c: CtxView, connection_id: u64, text: Seq<char>)
    requires
        c.db.records_ok(),
        c.db.next_connection_chat_id < u64::MAX,
        c.db.room_for_fan_outs(1),
    ensures
        send_connection_chat_spec(c, connection_id, text) matches Ok(db) ==> db.records_ok(),
{
    if let Ok(db) = send_connection_chat_spec(c, connection_id, text) {
        let (account, me) = c.db.resolve(c.sender, UserRole::Field)->Ok_0;
        let conn = c.db.connection(connection_id)->0;
        let text = crate::text::trimmed(text);
        lemma_add_connection_chat_keeps_records(c.db, connection_id, c.sender, text, c.timestamp);
        lemma_notify_company_role_keeps_records(
            c.db.add_connection_chat(connection_id, c.sender, text, c.timestamp),
            if conn.company_a == me.company_id {
                conn.company_b
            } else {
                conn.company_a
            },
            UserRole::Field,
            None,
            NotificationType::ChatMessage,
            "New message"@,
            account.nickname + ": "@ + crate::text::preview_of(text, 50),
            c.timestamp,
        );
    }
}

pub proof fn lemma_invite_to_project_keeps_records(c: CtxView, project_id: u64, target_company_id: u64)
    requires
        c.db.records_ok(),
        c.db.room_for_fan_outs(1),
    ensures
        invite_to_project_spec(c, project_id, target_company_id) matches Ok(db) ==> db.records_ok(),
{
    if let Ok(db) = invite_to_project_spec(c, project_id, target_company_id) {
        let project = c.db.project(project_id)->0;
        let invited = crate::projects::vacated(c.db, project_id, target_company_id).add_seat(
            project_id,
            target_company_id,
            ProjectMemberStatus::Invited,
            c.sender,
            c.timestamp,
        );
        assert(c.db.same_records(invited));
        lemma_notify_company_role_keeps_records(
            invited,
            target_company_id,
            UserRole::Admin,
            None,
            NotificationType::ProjectInvite,
            "Project invitation: "@ + project.name,
            "Your company has been invited to join project '"@ + project.name + "'"@,
            c.timestamp,
        );
    }
}

pub proof fn lemma_accept_project_invite_keeps_records(c: CtxView, project_id: u64)
    requires
        c.db.records_ok(),
        c.db.room_for_fan_outs(c.db.project_members.len() as int),
    ensures
        accept_project_invite_spec(c, project_id) matches Ok(db) ==> db.records_ok(),
{
    if let Ok(db) = accept_project_invite_spec(c, project_id) {
        let me = c.db.resolve(c.sender, UserRole::Admin)->Ok_0.1;
        let project = c.db.project(project_id)->0;
        let seat = c.db.seat_with(project_id, me.company_id, ProjectMemberStatus::Invited)->0;
        let seated = c.db.accept_seat(seat.id, c.timestamp);
        let label = c.db.company_label(me.company_id);
        let others = seated.other_accepted(project_id, me.company_id, me.company_id);
        assert(c.db.same_records(seated));
        lemma_other_accepted_bound(seated, project_id, me.company_id, me.company_id);
        lemma_fan_out_bound(others.len() as int, c.db.project_members.len() as int, c.db.members.len() as int);
        lemma_notify_companies_keeps_records(
            seated,
            others,
            UserRole::Admin,
            NotificationType::ProjectAccepted,
            label + " joined project"@,
            label + " accepted the invitation to project '"@ + project.name + "'"@,
            c.timestamp,
        );
    }
}

pub proof fn lemma_decline_project_invite_keeps_records(c: CtxView, project_id: u64)
    requires
        c.db.records_ok(),
        c.db.room_for_fan_outs(1),
    ensures
        decline_project_invite_spec(c, project_id) matches Ok(db) ==> db.records_ok(),
{
    if let Ok(db) = decline_project_invite_spec(c, project_id) {
        let me = c.db.resolve(c.sender, UserRole::Admin)->Ok_0.1;
        let project = c.db.project(project_id)->0;
        let seat = c.db.seat_with(project_id, me.company_id, ProjectMemberStatus::Invited)->0;
        let label = c.db.company_label(me.company_id);
        assert(c.db.same_records(c.db.drop_seat(seat.id)));
        lemma_notify_company_role_keeps_records(
            c.db.drop_seat(seat.id),
            project.owner_company_id,
            UserRole::Admin,
            None,
            NotificationType::ProjectDeclined,
            label + " declined project invite"@,
            label + " declined the invitation to project '"@ + project.name + "'"@,
            c.timestamp,
        );
    }
}

pub proof fn lemma_send_project_chat_keeps_records(c: CtxView, project_id: u64, text: Seq<char>)
    requires
        c.db.records_ok(),
        c.db.next_project_chat_id < u64::MAX,
        c.db.room_for_fan_outs(c.db.project_members.len() as int),
    ensures
        send_project_chat_spec(c, project_id, text) matches Ok(db) ==> db.records_ok(),
{
    if let Ok(db) = send_project_chat_spec(c, project_id, text) {
        let (account, me) = c.db.resolve(c.sender, UserRole::Field)->Ok_0;
        let project = c.db.project(project_id)->0;
        let text = crate::text::trimmed(text);
        let label = c.db.company_label(me.company_id);
        let others = c.db.other_accepted(project_id, me.company_id, me.company_id);
        lemma_add_project_chat_keeps_records(c.db, project_id, c.sender, text, c.timestamp);
        lemma_other_accepted_bound(c.db, project_id, me.company_id, me.company_id);
        lemma_fan_out_bound(others.len() as int, c.db.project_members.len() as int, c.db.members.len() as int);
        lemma_notify_companies_keeps_records(
            c.db.add_project_chat(project_id, c.sender, text, c.timestamp),
            others,
            UserRole::Field,
            NotificationType::ProjectChat,
            project.name + " \u{2014} "@ + label,
            "["@ + label + "] "@ + account.nickname + ": "@ + crate::text::preview_of(text, 80),
            c.timestamp,
        );
    }
}

pub proof fn lemma_leave_project_keeps_records(c: CtxView, project_id: u64)
    requires
        c.db.records_ok(),
        c.db.room_for_fan_outs(c.db.project_members.len() as int),
    ensures
        leave_project_spec(c, project_id) matches Ok(db) ==> db.records_ok(),
{
    if let Ok(db) = leave_project_spec(c, project_id) {
        let me = c.db.resolve(c.sender, UserRole::Admin)->Ok_0.1;
        let project = c.db.project(project_id)->0;
        let seat = c.db.seat_with(project_id, me.company_id, ProjectMemberStatus::Accepted)->0;
        let left = c.db.set_seat_status(seat.id, ProjectMemberStatus::Left);
        let label = c.db.company_label(me.company_id);
        let others = left.other_accepted(project_id, me.company_id, me.company_id);
        assert(c.db.same_records(left));
        lemma_other_accepted_bound(left, project_id, me.company_id, me.company_id);
        lemma_fan_out_bound(others.len() as int, c.db.project_members.len() as int, c.db.members.len() as int);
        lemma_notify_companies_keeps_records(
            left,
            others,
            UserRole::Admin,
            NotificationType::ProjectLeft,
            label + " left project"@,
            label + " left project '"@ + project.name + "'"@,
            c.timestamp,
        );
        lemma_cascade_keeps_records(
            left.notify_companies(
                others,
                UserRole::Admin,
                NotificationType::ProjectLeft,
                label + " left project"@,
                label + " left project '"@ + project.name + "'"@,
                c.timestamp,
            ),
            project_id,
        );
    }
}

pub proof fn lemma_kick_from_project_keeps_records(c: CtxView, project_id: u64, target_company_id: u64)
    requires
        c.db.records_ok(),
        c.db.room_for_fan_outs(c.db.project_members.len() as int + 1),
    ensures
        kick_from_project_spec(c, project_id, target_company_id) matches Ok(db) ==> db.records_ok(),
{
    if let Ok(db) = kick_from_project_spec(c, project_id, target_company_id) {
        let me = c.db.resolve(c.sender, UserRole::Admin)->Ok_0.1;
        let project = c.db.project(project_id)->0;
        let seat = c.db.seat_with(project_id, target_company_id, ProjectMemberStatus::Accepted)->0;
        let label = c.db.company_label(target_company_id);
        let marked = c.db.set_seat_status(seat.id, ProjectMemberStatus::Kicked);
        assert(c.db.same_records(marked));
        lemma_fan_out_bound(1, c.db.project_members.len() as int + 1, c.db.members.len() as int);
        lemma_notify_company_role_keeps_records(
            marked,
            target_company_id,
            UserRole::Admin,
            None,
            NotificationType::ProjectKicked,
            "Removed from project '"@ + project.name + "'"@,
            "Your company has been removed from project '"@ + project.name + "'"@,
            c.timestamp,
        );
        let kicked = marked.notify_company_role(
            target_company_id,
            UserRole::Admin,
            None,
            NotificationType::ProjectKicked,
            "Removed from project '"@ + project.name + "'"@,
            "Your company has been removed from project '"@ + project.name + "'"@,
            c.timestamp,
        );
        crate::proofs::people::lemma_notify_company_role_core(
            marked,
            target_company_id,
            UserRole::Admin,
            None,
            NotificationType::ProjectKicked,
            "Removed from project '"@ + project.name + "'"@,
            "Your company has been removed from project '"@ + project.name + "'"@,
            c.timestamp,
        );
        let others = kicked.other_accepted(project_id, me.company_id, target_company_id);
        lemma_other_accepted_bound(kicked, project_id, me.company_id, target_company_id);
        lemma_fan_out_bound(others.len() as int, c.db.project_members.len() as int, c.db.members.len() as int);
        lemma_notify_companies_keeps_records(
            kicked,
            others,
            UserRole::Admin,
            NotificationType::ProjectKicked,
            label + " removed from project"@,
            label + " was removed from project '"@ + project.name + "'"@,
            c.timestamp,
        );
    }
}

pub proof fn lemma_delete_project_keeps_records(c: CtxView, project_id: u64)
    requires
        c.db.records_ok(),
        c.db.room_for_fan_outs(c.db.project_members.len() as int),
    ensures
        delete_project_spec(c, project_id) matches Ok(db) ==> db.records_ok(),
{
    if let Ok(db) = delete_project_spec(c, project_id) {
        let me = c.db.resolve(c.sender, UserRole::Admin)->Ok_0.1;
        let project = c.db.project(project_id)->0;
        let others = c.db.other_accepted(project_id, me.company_id, me.company_id);
        lemma_other_accepted_bound(c.db, project_id, me.company_id, me.company_id);
        lemma_fan_out_bound(others.len() as int, c.db.project_members.len() as int, c.db.members.len() as int);
        lemma_notify_companies_keeps_records(
            c.db,
            others,
            UserRole::Admin,
            NotificationType::ProjectLeft,
            "Project '"@ + project.name + "' deleted"@,
            "Project '"@ + project.name + "' has been deleted by the owner"@,
            c.timestamp,
        );
        lemma_cascade_keeps_records(
            c.db.notify_companies(
                others,
                UserRole::Admin,
                NotificationType::ProjectLeft,
                "Project '"@ + project.name + "' deleted"@,
                "Project '"@ + project.name + "' has been deleted by the owner"@,
                c.timestamp,
            ),
            project_id,
        );
    }
}

pub proof fn lemma_mark_notification_read_keeps_records(c: CtxView, notification_id: u64)
    requires
        c.db.records_ok(),
    ensures
        mark_notification_read_spec(c, notification_id) matches Ok(db) ==> db.records_ok(),
{
    lemma_inbox_keeps_records(c.db, notification_id, c.sender, 0);
}

pub proof fn lemma_mark_all_notifications_read_keeps_records(c: CtxView, company_id: u64)
    requires
        c.db.records_ok(),
    ensures
        mark_all_notifications_read_spec(c, company_id) matches Ok(db) ==> db.records_ok(),
{
    lemma_inbox_keeps_records(c.db, 0, c.sender, company_id);
}

pub proof fn lemma_clear_notifications_keeps_records(c: CtxView, company_id: u64)
    requires
        c.db.records_ok(),
    ensures
        clear_notifications_spec(c, company_id) matches Ok(db) ==> db.records_ok(),
{
    lemma_inbox_keeps_records(c.db, 0, c.sender, company_id);
}

pub proof fn lemma_delete_company_keeps_records(c: CtxView)
    requires
        c.db.records_ok(),
    ensures
        delete_company_spec(c) matches Ok(db) ==> db.records_ok(),
{
    if let Ok(db) = delete_company_spec(c) {
        lemma_delete_company_cascade_keeps_records(
            c.db,
            c.db.resolve(c.sender, UserRole::Owner)->Ok_0.1.company_id,
        );
    }
}

} // verus!
