//! Inserts, updates and deletes of the entity store, each stated as the
//! change it makes to the store's view.

use vstd::prelude::*;
use crate::model::{
    capability_of, chat_in, code_is, company_is, connection_is, inbox_item, invite_for,
    member_id_is, member_in, not, notification_about, project_chat_in, project_is, seat_id_is,
    seat_in, seat_of, touches,
};
use crate::roles::{
    ConnectionStatus, Identity, NotificationType, ProjectMemberStatus, Timestamp, UserRole,
};
use crate::rows::{
    Capability, Company, CompanyMember, Connection, ConnectionChat, InviteCode, Notification,
    OnlineUser, Project, ProjectChat, ProjectMember, UsedInviteCode, UserAccount, same_text,
};
use crate::scan::keep_where;
use crate::store::Database;
use crate::tables::{
    accept_seat_rows, mark_all_read_rows, mark_read_rows, push_notifications, set_active_rows,
    set_blocked_rows, set_capability_rows, set_company_profile_rows, set_connection_status_rows,
    set_invite_uses_rows, set_online_rows, set_owner_rows, set_profile_rows, set_role_rows,
    set_seat_status_rows,
};

verus! {

impl Database {
    // -----------------------------------------------------------------
    // Presence and accounts
    // -----------------------------------------------------------------

    pub fn set_online(&mut self, who: Identity, online: bool)
        ensures
            final(self)@ == old(self)@.set_online(who, online),
    {
        set_online_rows(&mut self.online_users, who, online);
        assert(self@ =~= old(self)@.set_online(who, online));
    }

    pub fn add_online(&mut self, who: Identity)
        ensures
            final(self)@ == old(self)@.add_online(who),
    {
        self.online_users.push(OnlineUser { identity: who, online: true });
        assert(self@ =~= old(self)@.add_online(who));
    }

    pub fn add_account(&mut self, account: UserAccount)
        ensures
            final(self)@ == old(self)@.add_account(account@),
    {
        self.accounts.push(account);
        assert(self@ =~= old(self)@.add_account(account@));
    }

    pub fn set_active(&mut self, who: Identity, company_id: Option<u64>)
        ensures
            final(self)@ == old(self)@.set_active(who, company_id),
    {
        set_active_rows(&mut self.accounts, who, company_id);
        assert(self@ =~= old(self)@.set_active(who, company_id));
    }

    pub fn set_profile(&mut self, who: Identity, nickname: &String, email: &String)
        ensures
            final(self)@ == old(self)@.set_profile(who, nickname@, email@),
    {
        set_profile_rows(&mut self.accounts, who, nickname, email);
        assert(self@ =~= old(self)@.set_profile(who, nickname@, email@));
    }

    // -----------------------------------------------------------------
    // Memberships
    // -----------------------------------------------------------------

    pub fn add_member(&mut self, who: Identity, company_id: u64, role: UserRole, now: Timestamp)
        requires
            old(self).next_member_id < u64::MAX,
        ensures
            final(self)@ == old(self)@.add_member(who, company_id, role, now),
    {
        self.members.push(CompanyMember { id: self.next_member_id, identity: who, company_id, role, joined_at: now });
        self.next_member_id = self.next_member_id + 1;
        assert(self@ =~= old(self)@.add_member(who, company_id, role, now));
    }

    pub fn drop_member(&mut self, id: u64)
        ensures
            final(self)@ == old(self)@.drop_member(id),
    {
        let keep = |m: &CompanyMember| -> (b: bool)
            ensures
                b == (m.id != id),
            { m.id != id };
        keep_where(&mut self.members, keep, Ghost(not(member_id_is(id))));
        assert(self@ =~= old(self)@.drop_member(id));
    }

    pub fn drop_members_of(&mut self, company_id: u64)
        ensures
            final(self)@ == old(self)@.drop_members_of(company_id),
    {
        let keep = |m: &CompanyMember| -> (b: bool)
            ensures
                b == (m.company_id != company_id),
            { m.company_id != company_id };
        keep_where(&mut self.members, keep, Ghost(not(member_in(company_id))));
        assert(self@ =~= old(self)@.drop_members_of(company_id));
    }

    pub fn set_role(&mut self, id: u64, role: UserRole)
        ensures
            final(self)@ == old(self)@.set_role(id, role),
    {
        set_role_rows(&mut self.members, id, role);
        assert(self@ =~= old(self)@.set_role(id, role));
    }

    // -----------------------------------------------------------------
    // Companies, capabilities and invite codes
    // -----------------------------------------------------------------

    pub fn add_company(&mut self, owner: Identity, name: String, slug: String, location: String)
        requires
            old(self).next_company_id < u64::MAX,
        ensures
            final(self)@ == old(self)@.add_company(owner, name@, slug@, location@),
    {
        self.companies.push(
            Company {
                id: self.next_company_id,
                owner_identity: owner,
                name,
                slug,
                location,
                bio: String::new(),
                is_public: false,
                kvk_number: String::new(),
            },
        );
        self.next_company_id = self.next_company_id + 1;
        assert(self@ =~= old(self)@.add_company(owner, name@, slug@, location@));
    }

    pub fn set_company_profile(
        &mut self,
        id: u64,
        name: &String,
        slug: &String,
        location: &String,
        bio: &String,
        is_public: bool,
        kvk_number: &String,
    )
        ensures
            final(self)@ == old(self)@.set_company_profile(
                id,
                name@,
                slug@,
                location@,
                bio@,
                is_public,
                kvk_number@,
            ),
    {
        set_company_profile_rows(&mut self.companies, id, name, slug, location, bio, is_public, kvk_number);
        assert(self@ =~= old(self)@.set_company_profile(
            id,
            name@,
            slug@,
            location@,
            bio@,
            is_public,
            kvk_number@,
        ));
    }

    pub fn set_owner(&mut self, id: u64, owner: Identity)
        ensures
            final(self)@ == old(self)@.set_owner(id, owner),
    {
        set_owner_rows(&mut self.companies, id, owner);
        assert(self@ =~= old(self)@.set_owner(id, owner));
    }

    pub fn drop_company(&mut self, id: u64)
        ensures
            final(self)@ == old(self)@.drop_company(id),
    {
        let keep = |c: &Company| -> (b: bool)
            ensures
                b == (c.id != id),
            { c.id != id };
        keep_where(&mut self.companies, keep, Ghost(not(company_is(id))));
        assert(self@ =~= old(self)@.drop_company(id));
    }

    pub fn add_capability(&mut self, company_id: u64)
        ensures
            final(self)@ == old(self)@.add_capability(company_id),
    {
        self.capabilities.push(
            Capability {
                company_id,
                can_install: false,
                has_cnc: false,
                has_large_format: false,
                has_bucket_truck: false,
            },
        );
        assert(self@ =~= old(self)@.add_capability(company_id));
    }

    pub fn set_capability(&mut self, flags: Capability)
        ensures
            final(self)@ == old(self)@.set_capability(flags),
    {
        set_capability_rows(&mut self.capabilities, flags);
        assert(self@ =~= old(self)@.set_capability(flags));
    }

    pub fn drop_capability(&mut self, company_id: u64)
        ensures
            final(self)@ == old(self)@.drop_capability(company_id),
    {
        let keep = |c: &Capability| -> (b: bool)
            ensures
                b == (c.company_id != company_id),
            { c.company_id != company_id };
        keep_where(&mut self.capabilities, keep, Ghost(not(capability_of(company_id))));
        assert(self@ =~= old(self)@.drop_capability(company_id));
    }

    pub fn add_invite(&mut self, invite: InviteCode)
        ensures
            final(self)@ == old(self)@.add_invite(invite@),
    {
        self.invite_codes.push(invite);
        assert(self@ =~= old(self)@.add_invite(invite@));
    }

    pub fn set_invite_uses(&mut self, code: &String, uses_remaining: u32)
        ensures
            final(self)@ == old(self)@.set_invite_uses(code@, uses_remaining),
    {
        set_invite_uses_rows(&mut self.invite_codes, code, uses_remaining);
        assert(self@ =~= old(self)@.set_invite_uses(code@, uses_remaining));
    }

    pub fn drop_invite(&mut self, code: &String)
        ensures
            final(self)@ == old(self)@.drop_invite(code@),
    {
        let keep = |c: &InviteCode| -> (b: bool)
            ensures
                b == (c.code@ != code@),
            { !same_text(&c.code, code) };
        keep_where(&mut self.invite_codes, keep, Ghost(not(code_is(code@))));
        assert(self@ =~= old(self)@.drop_invite(code@));
    }

    pub fn drop_invites_of(&mut self, company_id: u64)
        ensures
            final(self)@ == old(self)@.drop_invites_of(company_id),
    {
        let keep = |c: &InviteCode| -> (b: bool)
            ensures
                b == (c.company_id != company_id),
            { c.company_id != company_id };
        keep_where(&mut self.invite_codes, keep, Ghost(not(invite_for(company_id))));
        assert(self@ =~= old(self)@.drop_invites_of(company_id));
    }

    pub fn add_used_invite(&mut self, who: Identity, code: String, company_id: u64)
        requires
            old(self).next_used_invite_id < u64::MAX,
        ensures
            final(self)@ == old(self)@.add_used_invite(who, code@, company_id),
    {
        self.used_invite_codes.push(UsedInviteCode { id: self.next_used_invite_id, identity: who, code, company_id });
        self.next_used_invite_id = self.next_used_invite_id + 1;
        assert(self@ =~= old(self)@.add_used_invite(who, code@, company_id));
    }

    // -----------------------------------------------------------------
    // Connections and their chat
    // -----------------------------------------------------------------

    /// Inserts a connection between `x` and `y`, the lower id first.
    pub fn add_connection(
        &mut self,
        x: u64,
        y: u64,
        status: ConnectionStatus,
        who: Identity,
        blocking_company_id: Option<u64>,
        message: String,
        now: Timestamp,
    )
        requires
            old(self).next_connection_id < u64::MAX,
        ensures
            final(self)@ == old(self)@.add_connection(x, y, status, who, blocking_company_id, message@, now),
    {
        let (lo, hi) = if x <= y {
            (x, y)
        } else {
            (y, x)
        };
        self.connections.push(
            Connection {
                id: self.next_connection_id,
                company_a: lo,
                company_b: hi,
                status,
                requested_by: who,
                blocking_company_id,
                initial_message: message,
                created_at: now,
            },
        );
        self.next_connection_id = self.next_connection_id + 1;
        assert(self@ =~= old(self)@.add_connection(x, y, status, who, blocking_company_id, message@, now));
    }

    pub fn set_connection_status(&mut self, id: u64, status: ConnectionStatus)
        ensures
            final(self)@ == old(self)@.set_connection_status(id, status),
    {
        set_connection_status_rows(&mut self.connections, id, status);
        assert(self@ =~= old(self)@.set_connection_status(id, status));
    }

    pub fn set_blocked(&mut self, id: u64, blocker: u64)
        ensures
            final(self)@ == old(self)@.set_blocked(id, blocker),
    {
        set_blocked_rows(&mut self.connections, id, blocker);
        assert(self@ =~= old(self)@.set_blocked(id, blocker));
    }

    pub fn drop_connections_touching(&mut self, company_id: u64)
        ensures
            final(self)@ == old(self)@.drop_connections_touching(company_id),
    {
        let keep = |c: &Connection| -> (b: bool)
            ensures
                b == !(c.company_a == company_id || c.company_b == company_id),
            { !(c.company_a == company_id || c.company_b == company_id) };
        keep_where(&mut self.connections, keep, Ghost(not(touches(company_id))));
        assert(self@ =~= old(self)@.drop_connections_touching(company_id));
    }

    pub fn drop_connection(&mut self, id: u64)
        ensures
            final(self)@ == old(self)@.drop_connection(id),
    {
        let keep = |c: &Connection| -> (b: bool)
            ensures
                b == (c.id != id),
            { c.id != id };
        keep_where(&mut self.connections, keep, Ghost(not(connection_is(id))));
        assert(self@ =~= old(self)@.drop_connection(id));
    }

    pub fn add_connection_chat(&mut self, connection_id: u64, who: Identity, text: String, now: Timestamp)
        requires
            old(self).next_connection_chat_id < u64::MAX,
        ensures
            final(self)@ == old(self)@.add_connection_chat(connection_id, who, text@, now),
    {
        self.connection_chats.push(
            ConnectionChat { id: self.next_connection_chat_id, connection_id, sender: who, text, created_at: now },
        );
        self.next_connection_chat_id = self.next_connection_chat_id + 1;
        assert(self@ =~= old(self)@.add_connection_chat(connection_id, who, text@, now));
    }

    pub fn drop_connection_chat(&mut self, connection_id: u64)
        ensures
            final(self)@ == old(self)@.drop_connection_chat(connection_id),
    {
        let keep = |c: &ConnectionChat| -> (b: bool)
            ensures
                b == (c.connection_id != connection_id),
            { c.connection_id != connection_id };
        keep_where(&mut self.connection_chats, keep, Ghost(not(chat_in(connection_id))));
        assert(self@ =~= old(self)@.drop_connection_chat(connection_id));
    }

    // -----------------------------------------------------------------
    // Notifications
    // -----------------------------------------------------------------

    pub fn notify(
        &mut self,
        recipient: Identity,
        company_id: u64,
        kind: NotificationType,
        title: String,
        body: String,
        now: Timestamp,
    )
        requires
            old(self).next_notification_id < u64::MAX,
        ensures
            final(self)@ == old(self)@.notify(recipient, company_id, kind, title@, body@, now),
    {
        self.notifications.push(
            Notification {
                id: self.next_notification_id,
                recipient_identity: recipient,
                company_id,
                notification_type: kind,
                title,
                body,
                is_read: false,
                created_at: now,
            },
        );
        self.next_notification_id = self.next_notification_id + 1;
        assert(self@ =~= old(self)@.notify(recipient, company_id, kind, title@, body@, now));
    }

    pub fn notify_all(
        &mut self,
        recipients: &Vec<Identity>,
        company_id: u64,
        kind: NotificationType,
        title: &String,
        body: &String,
        now: Timestamp,
    )
        requires
            old(self).next_notification_id + recipients@.len() <= u64::MAX,
        ensures
            final(self)@ == old(self)@.notify_all(recipients@, company_id, kind, title@, body@, now),
    {
        push_notifications(
            &mut self.notifications,
            self.next_notification_id,
            recipients,
            company_id,
            kind,
            title,
            body,
            now,
        );
        let n: u64 = recipients.len() as u64;
        self.next_notification_id = self.next_notification_id + n;
        assert(self@ =~= old(self)@.notify_all(recipients@, company_id, kind, title@, body@, now));
    }

    pub fn mark_read(&mut self, id: u64)
        ensures
            final(self)@ == old(self)@.mark_read(id),
    {
        mark_read_rows(&mut self.notifications, id);
        assert(self@ =~= old(self)@.mark_read(id));
    }

    pub fn mark_all_read(&mut self, who: Identity, company_id: u64)
        ensures
            final(self)@ == old(self)@.mark_all_read(who, company_id),
    {
        mark_all_read_rows(&mut self.notifications, who, company_id);
        assert(self@ =~= old(self)@.mark_all_read(who, company_id));
    }

    pub fn clear_read(&mut self, who: Identity, company_id: u64)
        ensures
            final(self)@ == old(self)@.clear_read(who, company_id),
    {
        let keep = |n: &Notification| -> (b: bool)
            ensures
                b == !(n.recipient_identity == who && n.company_id == company_id && n.is_read == true),
            { !(n.recipient_identity == who && n.company_id == company_id && n.is_read) };
        keep_where(&mut self.notifications, keep, Ghost(not(inbox_item(who, company_id, true))));
        assert(self@ =~= old(self)@.clear_read(who, company_id));
    }

    pub fn drop_notifications_about(&mut self, company_id: u64)
        ensures
            final(self)@ == old(self)@.drop_notifications_about(company_id),
    {
        let keep = |n: &Notification| -> (b: bool)
            ensures
                b == (n.company_id != company_id),
            { n.company_id != company_id };
        keep_where(&mut self.notifications, keep, Ghost(not(notification_about(company_id))));
        assert(self@ =~= old(self)@.drop_notifications_about(company_id));
    }

    // -----------------------------------------------------------------
    // Projects, seats and project chat
    // -----------------------------------------------------------------

    pub fn add_project(
        &mut self,
        owner_company_id: u64,
        name: String,
        description: String,
        who: Identity,
        now: Timestamp,
    )
        requires
            old(self).next_project_id < u64::MAX,
        ensures
            final(self)@ == old(self)@.add_project(owner_company_id, name@, description@, who, now),
    {
        self.projects.push(
            Project { id: self.next_project_id, owner_company_id, name, description, created_by: who, created_at: now },
        );
        self.next_project_id = self.next_project_id + 1;
        assert(self@ =~= old(self)@.add_project(owner_company_id, name@, description@, who, now));
    }

    pub fn drop_project(&mut self, id: u64)
        ensures
            final(self)@ == old(self)@.drop_project(id),
    {
        let keep = |p: &Project| -> (b: bool)
            ensures
                b == (p.id != id),
            { p.id != id };
        keep_where(&mut self.projects, keep, Ghost(not(project_is(id))));
        assert(self@ =~= old(self)@.drop_project(id));
    }

    pub fn add_seat(
        &mut self,
        project_id: u64,
        company_id: u64,
        status: ProjectMemberStatus,
        who: Identity,
        now: Timestamp,
    )
        requires
            old(self).next_project_member_id < u64::MAX,
        ensures
            final(self)@ == old(self)@.add_seat(project_id, company_id, status, who, now),
    {
        self.project_members.push(
            ProjectMember {
                id: self.next_project_member_id,
                project_id,
                company_id,
                status,
                invited_by: who,
                joined_at: now,
            },
        );
        self.next_project_member_id = self.next_project_member_id + 1;
        assert(self@ =~= old(self)@.add_seat(project_id, company_id, status, who, now));
    }

    pub fn set_seat_status(&mut self, id: u64, status: ProjectMemberStatus)
        ensures
            final(self)@ == old(self)@.set_seat_status(id, status),
    {
        set_seat_status_rows(&mut self.project_members, id, status);
        assert(self@ =~= old(self)@.set_seat_status(id, status));
    }

    pub fn accept_seat(&mut self, id: u64, now: Timestamp)
        ensures
            final(self)@ == old(self)@.accept_seat(id, now),
    {
        accept_seat_rows(&mut self.project_members, id, now);
        assert(self@ =~= old(self)@.accept_seat(id, now));
    }

    pub fn drop_seat(&mut self, id: u64)
        ensures
            final(self)@ == old(self)@.drop_seat(id),
    {
        let keep = |m: &ProjectMember| -> (b: bool)
            ensures
                b == (m.id != id),
            { m.id != id };
        keep_where(&mut self.project_members, keep, Ghost(not(seat_id_is(id))));
        assert(self@ =~= old(self)@.drop_seat(id));
    }

    pub fn drop_seats_in(&mut self, project_id: u64)
        ensures
            final(self)@ == old(self)@.drop_seats_in(project_id),
    {
        let keep = |m: &ProjectMember| -> (b: bool)
            ensures
                b == (m.project_id != project_id),
            { m.project_id != project_id };
        keep_where(&mut self.project_members, keep, Ghost(not(seat_in(project_id))));
        assert(self@ =~= old(self)@.drop_seats_in(project_id));
    }

    pub fn drop_seats_of(&mut self, company_id: u64)
        ensures
            final(self)@ == old(self)@.drop_seats_of(company_id),
    {
        let keep = |m: &ProjectMember| -> (b: bool)
            ensures
                b == (m.company_id != company_id),
            { m.company_id != company_id };
        keep_where(&mut self.project_members, keep, Ghost(not(seat_of(company_id))));
        assert(self@ =~= old(self)@.drop_seats_of(company_id));
    }

    pub fn add_project_chat(&mut self, project_id: u64, who: Identity, text: String, now: Timestamp)
        requires
            old(self).next_project_chat_id < u64::MAX,
        ensures
            final(self)@ == old(self)@.add_project_chat(project_id, who, text@, now),
    {
        self.project_chats.push(
            ProjectChat { id: self.next_project_chat_id, project_id, sender: who, text, created_at: now },
        );
        self.next_project_chat_id = self.next_project_chat_id + 1;
        assert(self@ =~= old(self)@.add_project_chat(project_id, who, text@, now));
    }

    pub fn drop_project_chats(&mut self, project_id: u64)
        ensures
            final(self)@ == old(self)@.drop_project_chats(project_id),
    {
        let keep = |c: &ProjectChat| -> (b: bool)
            ensures
                b == (c.project_id != project_id),
            { c.project_id != project_id };
        keep_where(&mut self.project_chats, keep, Ghost(not(project_chat_in(project_id))));
        assert(self@ =~= old(self)@.drop_project_chats(project_id));
    }
}

} // verus!
