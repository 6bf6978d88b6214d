//! The entity store as contracts see it: each table is the sequence of its
//! rows in insertion order, each id sequence is its next value. Queries and
//! changes are functions on that value.

use vstd::prelude::*;
use crate::roles::{
    ConnectionStatus, Error, Identity, NotificationType, ProjectMemberStatus, Timestamp, UserRole,
    level_of,
};
use crate::rows::{
    Capability, CompanyMember, CompanyView, ConnectionChatView, ConnectionView, InviteCodeView,
    NotificationView, OnlineUser, ProjectChatView, ProjectMember, ProjectView, Text,
    UsedInviteCodeView, UserAccountView,
};
use crate::seqs::{any, change_where, first};

verus! {

#[verifier::ext_equal]
pub struct DbView {
    pub online_users: Seq<OnlineUser>,
    pub accounts: Seq<UserAccountView>,
    pub members: Seq<CompanyMember>,
    pub companies: Seq<CompanyView>,
    pub invite_codes: Seq<InviteCodeView>,
    pub capabilities: Seq<Capability>,
    pub connections: Seq<ConnectionView>,
    pub connection_chats: Seq<ConnectionChatView>,
    pub used_invite_codes: Seq<UsedInviteCodeView>,
    pub notifications: Seq<NotificationView>,
    pub projects: Seq<ProjectView>,
    pub project_members: Seq<ProjectMember>,
    pub project_chats: Seq<ProjectChatView>,
    pub next_member_id: u64,
    pub next_company_id: u64,
    pub next_connection_id: u64,
    pub next_connection_chat_id: u64,
    pub next_used_invite_id: u64,
    pub next_notification_id: u64,
    pub next_project_id: u64,
    pub next_project_member_id: u64,
    pub next_project_chat_id: u64,
}

// ---------------------------------------------------------------------
// Row predicates
// ---------------------------------------------------------------------

pub open spec fn online_is(who: Identity) -> spec_fn(OnlineUser) -> bool {
    |u: OnlineUser| u.identity == who
}

pub open spec fn account_is(who: Identity) -> spec_fn(UserAccountView) -> bool {
    |a: UserAccountView| a.identity == who
}

pub open spec fn company_is(id: u64) -> spec_fn(CompanyView) -> bool {
    |c: CompanyView| c.id == id
}

pub open spec fn slug_is(slug: Text) -> spec_fn(CompanyView) -> bool {
    |c: CompanyView| c.slug == slug
}

pub open spec fn member_is(who: Identity, company_id: u64) -> spec_fn(CompanyMember) -> bool {
    |m: CompanyMember| m.identity == who && m.company_id == company_id
}

pub open spec fn member_id_is(id: u64) -> spec_fn(CompanyMember) -> bool {
    |m: CompanyMember| m.id == id
}

pub open spec fn member_in(company_id: u64) -> spec_fn(CompanyMember) -> bool {
    |m: CompanyMember| m.company_id == company_id
}

pub open spec fn code_is(code: Text) -> spec_fn(InviteCodeView) -> bool {
    |i: InviteCodeView| i.code == code
}

pub open spec fn invite_for(company_id: u64) -> spec_fn(InviteCodeView) -> bool {
    |i: InviteCodeView| i.company_id == company_id
}

pub open spec fn used_is(who: Identity, code: Text) -> spec_fn(UsedInviteCodeView) -> bool {
    |u: UsedInviteCodeView| u.identity == who && u.code == code
}

pub open spec fn capability_of(company_id: u64) -> spec_fn(Capability) -> bool {
    |c: Capability| c.company_id == company_id
}

pub open spec fn connection_is(id: u64) -> spec_fn(ConnectionView) -> bool {
    |c: ConnectionView| c.id == id
}

/// The two ends of a connection, lower id first.
pub open spec fn ordered(x: u64, y: u64) -> (u64, u64) {
    if x <= y {
        (x, y)
    } else {
        (y, x)
    }
}

pub open spec fn connects(x: u64, y: u64) -> spec_fn(ConnectionView) -> bool {
    |c: ConnectionView| c.company_a == ordered(x, y).0 && c.company_b == ordered(x, y).1
}

pub open spec fn touches(company_id: u64) -> spec_fn(ConnectionView) -> bool {
    |c: ConnectionView| c.company_a == company_id || c.company_b == company_id
}

pub open spec fn chat_in(connection_id: u64) -> spec_fn(ConnectionChatView) -> bool {
    |c: ConnectionChatView| c.connection_id == connection_id
}

pub open spec fn notification_is(id: u64) -> spec_fn(NotificationView) -> bool {
    |n: NotificationView| n.id == id
}

pub open spec fn notification_about(company_id: u64) -> spec_fn(NotificationView) -> bool {
    |n: NotificationView| n.company_id == company_id
}

/// The notifications of `who` in the context of `company_id` whose read
/// flag is `is_read`.
pub open spec fn inbox_item(
    who: Identity,
    company_id: u64,
    is_read: bool) -> spec_fn(NotificationView,
) -> bool {
    |n: NotificationView| n.recipient_identity == who && n.company_id == company_id && n.is_read == is_read
}

pub open spec fn project_is(id: u64) -> spec_fn(ProjectView) -> bool {
    |p: ProjectView| p.id == id
}

pub open spec fn owned_by(company_id: u64) -> spec_fn(ProjectView) -> bool {
    |p: ProjectView| p.owner_company_id == company_id
}

pub open spec fn seat_is(project_id: u64, company_id: u64) -> spec_fn(ProjectMember) -> bool {
    |m: ProjectMember| m.project_id == project_id && m.company_id == company_id
}

pub open spec fn seat_with(
    project_id: u64,
    company_id: u64,
    status: ProjectMemberStatus) -> spec_fn(ProjectMember,
) -> bool {
    |m: ProjectMember| m.project_id == project_id && m.company_id == company_id && m.status == status
}

pub open spec fn seat_id_is(id: u64) -> spec_fn(ProjectMember) -> bool {
    |m: ProjectMember| m.id == id
}

pub open spec fn seat_in(project_id: u64) -> spec_fn(ProjectMember) -> bool {
    |m: ProjectMember| m.project_id == project_id
}

pub open spec fn seat_of(company_id: u64) -> spec_fn(ProjectMember) -> bool {
    |m: ProjectMember| m.company_id == company_id
}

pub open spec fn accepted_in(project_id: u64) -> spec_fn(ProjectMember) -> bool {
    |m: ProjectMember| m.project_id == project_id && m.status == ProjectMemberStatus::Accepted
}

/// The accepted seats of a project, but for those of `skip_a` and `skip_b`.
pub open spec fn other_accepted_in(
    project_id: u64,
    skip_a: u64,
    skip_b: u64) -> spec_fn(ProjectMember,
) -> bool {
    |m: ProjectMember|
        m.project_id == project_id && m.status == ProjectMemberStatus::Accepted && m.company_id != skip_a
            && m.company_id != skip_b
}

pub open spec fn project_chat_in(project_id: u64) -> spec_fn(ProjectChatView) -> bool {
    |c: ProjectChatView| c.project_id == project_id
}

/// The members of a company who hold at least `min_role`, but for `exclude`.
pub open spec fn recipient_in(
    company_id: u64,
    min_role: UserRole,
    exclude: Option<Identity>) -> spec_fn(CompanyMember,
) -> bool {
    |m: CompanyMember|
        m.company_id == company_id && level_of(m.role) >= level_of(min_role) && exclude != Some(m.identity)
}

/// A store that has room meets what each procedure asks of the id
/// sequences: each can serve a row, and the notification ids can serve as
/// many fan-outs as there are project seats and one more, also when a
/// member has just been added.
pub proof fn lemma_has_room_suffices(db: DbView)
    requires
        db.has_room(),
    ensures
        db.next_member_id < u64::MAX,
        db.next_company_id < u64::MAX,
        db.next_connection_id < u64::MAX,
        db.next_connection_chat_id < u64::MAX,
        db.next_used_invite_id < u64::MAX,
        db.next_project_id < u64::MAX,
        db.next_project_member_id < u64::MAX,
        db.next_project_chat_id < u64::MAX,
        db.next_notification_id < u64::MAX,
        db.next_notification_id + db.members.len() + 1 <= u64::MAX,
        db.room_for_fan_outs(1),
        db.room_for_fan_outs(db.project_members.len() as int),
        db.room_for_fan_outs(db.project_members.len() as int + 1),
{
    let m = db.members.len() as int;
    let n = db.project_members.len() as int;
    assert((n + 2) * (m + 1) == n * m + 2 * m + n + 2) by (nonlinear_arith);
    assert((n + 1) * m == n * m + m) by (nonlinear_arith);
    assert(n * m >= 0) by (nonlinear_arith)
        requires
            n >= 0,
            m >= 0,
    ;
}

/// Fewer fan-outs need no more room.
pub proof fn lemma_fan_out_bound(fewer: int, more: int, members: int)
    requires
        0 <= fewer <= more,
        0 <= members,
    ensures
        fewer * members <= more * members,
        (more + 1) * members == more * members + members,
        1 * members == members,
{
    assert(fewer * members <= more * members) by (nonlinear_arith)
        requires
            0 <= fewer <= more,
            0 <= members,
    ;
    assert((more + 1) * members == more * members + members) by (nonlinear_arith);
}

/// The negation of a row predicate: what a deletion keeps.
pub open spec fn not<T>(p: spec_fn(T) -> bool) -> spec_fn(T) -> bool {
    |x: T| !p(x)
}

impl DbView {
    // -----------------------------------------------------------------
    // Queries
    // -----------------------------------------------------------------

    pub open spec fn online(self, who: Identity) -> Option<OnlineUser> {
        first(self.online_users, online_is(who))
    }

    pub open spec fn account(self, who: Identity) -> Option<UserAccountView> {
        first(self.accounts, account_is(who))
    }

    pub open spec fn company(self, id: u64) -> Option<CompanyView> {
        first(self.companies, company_is(id))
    }

    /// The company's name; empty where the company does not exist.
    pub open spec fn company_name(self, id: u64) -> Text {
        match self.company(id) {
            Some(c) => c.name,
            None => Seq::empty(),
        }
    }

    /// The company's name; "Unknown" where the company does not exist.
    pub open spec fn company_label(self, id: u64) -> Text {
        match self.company(id) {
            Some(c) => c.name,
            None => "Unknown"@,
        }
    }

    pub open spec fn company_by_slug(self, slug: Text) -> Option<CompanyView> {
        first(self.companies, slug_is(slug))
    }

    pub open spec fn membership(self, who: Identity, company_id: u64) -> Option<CompanyMember> {
        first(self.members, member_is(who, company_id))
    }

    /// The company of the first membership of `who` whose company exists.
    pub open spec fn next_home(self, who: Identity) -> Option<u64> {
        match first(self.members, |m: CompanyMember| m.identity == who && self.company(m.company_id) is Some) {
            Some(m) => Some(m.company_id),
            None => None,
        }
    }

    pub open spec fn invite(self, code: Text) -> Option<InviteCodeView> {
        first(self.invite_codes, code_is(code))
    }

    pub open spec fn code_used(self, who: Identity, code: Text) -> bool {
        any(self.used_invite_codes, used_is(who, code))
    }

    pub open spec fn capability(self, company_id: u64) -> Option<Capability> {
        first(self.capabilities, capability_of(company_id))
    }

    pub open spec fn connection(self, id: u64) -> Option<ConnectionView> {
        first(self.connections, connection_is(id))
    }

    /// The connection between two companies, whichever is named first.
    pub open spec fn connection_between(self, x: u64, y: u64) -> Option<ConnectionView> {
        first(self.connections, connects(x, y))
    }

    pub open spec fn notification(self, id: u64) -> Option<NotificationView> {
        first(self.notifications, notification_is(id))
    }

    pub open spec fn project(self, id: u64) -> Option<ProjectView> {
        first(self.projects, project_is(id))
    }

    /// The first seat of the company in the project, whatever its status.
    pub open spec fn seat(self, project_id: u64, company_id: u64) -> Option<ProjectMember> {
        first(self.project_members, seat_is(project_id, company_id))
    }

    pub open spec fn seat_with(
        self,
        project_id: u64,
        company_id: u64,
        status: ProjectMemberStatus,
    ) -> Option<ProjectMember> {
        first(self.project_members, seat_with(project_id, company_id, status))
    }

    pub open spec fn has_accepted(self, project_id: u64) -> bool {
        any(self.project_members, accepted_in(project_id))
    }

    /// The companies with an accepted seat in the project, but for `skip_a`
    /// and `skip_b`, in table order.
    pub open spec fn other_accepted(self, project_id: u64, skip_a: u64, skip_b: u64) -> Seq<u64> {
        self.project_members.filter(other_accepted_in(project_id, skip_a, skip_b)).map_values(
            |m: ProjectMember| m.company_id,
        )
    }

    /// Who is notified when a company's members of at least `min_role` are
    /// addressed, in table order.
    pub open spec fn recipients(
        self,
        company_id: u64,
        min_role: UserRole,
        exclude: Option<Identity>,
    ) -> Seq<Identity> {
        self.members.filter(recipient_in(company_id, min_role, exclude)).map_values(|m: CompanyMember| m.identity)
    }

    // -----------------------------------------------------------------
    // Changes
    // -----------------------------------------------------------------

    pub open spec fn set_online(self, who: Identity, online: bool) -> DbView {
        DbView {
            online_users: change_where(
                self.online_users,
                online_is(who),
                |u: OnlineUser| OnlineUser { online, ..u },
            ),
            ..self
        }
    }

    pub open spec fn add_online(self, who: Identity) -> DbView {
        DbView { online_users: self.online_users.push(OnlineUser { identity: who, online: true }), ..self }
    }

    pub open spec fn add_account(self, account: UserAccountView) -> DbView {
        DbView { accounts: self.accounts.push(account), ..self }
    }

    pub open spec fn set_active(self, who: Identity, company_id: Option<u64>) -> DbView {
        DbView {
            accounts: change_where(
                self.accounts,
                account_is(who),
                |a: UserAccountView| UserAccountView { active_company_id: company_id, ..a },
            ),
            ..self
        }
    }

    pub open spec fn set_profile(self, who: Identity, nickname: Text, email: Text) -> DbView {
        DbView {
            accounts: change_where(
                self.accounts,
                account_is(who),
                |a: UserAccountView| UserAccountView { nickname, email, ..a },
            ),
            ..self
        }
    }

    pub open spec fn add_member(
        self,
        who: Identity,
        company_id: u64,
        role: UserRole,
        now: Timestamp,
    ) -> DbView {
        DbView {
            members: self.members.push(
                CompanyMember { id: self.next_member_id, identity: who, company_id, role, joined_at: now },
            ),
            next_member_id: (self.next_member_id + 1) as u64,
            ..self
        }
    }

    pub open spec fn drop_member(self, id: u64) -> DbView {
        DbView { members: self.members.filter(not(member_id_is(id))), ..self }
    }

    pub open spec fn drop_members_of(self, company_id: u64) -> DbView {
        DbView { members: self.members.filter(not(member_in(company_id))), ..self }
    }

    pub open spec fn set_role(self, id: u64, role: UserRole) -> DbView {
        DbView {
            members: change_where(self.members, member_id_is(id), |m: CompanyMember| CompanyMember { role, ..m }),
            ..self
        }
    }

    pub open spec fn add_company(self, owner: Identity, name: Text, slug: Text, location: Text) -> DbView {
        DbView {
            companies: self.companies.push(
                CompanyView {
                    id: self.next_company_id,
                    owner_identity: owner,
                    name,
                    slug,
                    location,
                    bio: Seq::empty(),
                    is_public: false,
                    kvk_number: Seq::empty(),
                },
            ),
            next_company_id: (self.next_company_id + 1) as u64,
            ..self
        }
    }

    pub open spec fn set_company_profile(
        self,
        id: u64,
        name: Text,
        slug: Text,
        location: Text,
        bio: Text,
        is_public: bool,
        kvk_number: Text,
    ) -> DbView {
        DbView {
            companies: change_where(
                self.companies,
                company_is(id),
                |c: CompanyView| CompanyView { name, slug, location, bio, is_public, kvk_number, ..c },
            ),
            ..self
        }
    }

    pub open spec fn set_owner(self, id: u64, owner: Identity) -> DbView {
        DbView {
            companies: change_where(
                self.companies,
                company_is(id),
                |c: CompanyView| CompanyView { owner_identity: owner, ..c },
            ),
            ..self
        }
    }

    pub open spec fn drop_company(self, id: u64) -> DbView {
        DbView { companies: self.companies.filter(not(company_is(id))), ..self }
    }

    pub open spec fn add_capability(self, company_id: u64) -> DbView {
        DbView {
            capabilities: self.capabilities.push(
                Capability {
                    company_id,
                    can_install: false,
                    has_cnc: false,
                    has_large_format: false,
                    has_bucket_truck: false,
                },
            ),
            ..self
        }
    }

    pub open spec fn set_capability(self, flags: Capability) -> DbView {
        DbView {
            capabilities: change_where(self.capabilities, capability_of(flags.company_id), |c: Capability| flags),
            ..self
        }
    }

    pub open spec fn drop_capability(self, company_id: u64) -> DbView {
        DbView { capabilities: self.capabilities.filter(not(capability_of(company_id))), ..self }
    }

    pub open spec fn add_invite(self, invite: InviteCodeView) -> DbView {
        DbView { invite_codes: self.invite_codes.push(invite), ..self }
    }

    pub open spec fn set_invite_uses(self, code: Text, uses_remaining: u32) -> DbView {
        DbView {
            invite_codes: change_where(
                self.invite_codes,
                code_is(code),
                |i: InviteCodeView| InviteCodeView { uses_remaining, ..i },
            ),
            ..self
        }
    }

    pub open spec fn drop_invite(self, code: Text) -> DbView {
        DbView { invite_codes: self.invite_codes.filter(not(code_is(code))), ..self }
    }

    pub open spec fn drop_invites_of(self, company_id: u64) -> DbView {
        DbView { invite_codes: self.invite_codes.filter(not(invite_for(company_id))), ..self }
    }

    pub open spec fn add_used_invite(self, who: Identity, code: Text, company_id: u64) -> DbView {
        DbView {
            used_invite_codes: self.used_invite_codes.push(
                UsedInviteCodeView { id: self.next_used_invite_id, identity: who, code, company_id },
            ),
            next_used_invite_id: (self.next_used_invite_id + 1) as u64,
            ..self
        }
    }

    /// A new connection between `x` and `y`, stored with the lower id first.
    pub open spec fn add_connection(
        self,
        x: u64,
        y: u64,
        status: ConnectionStatus,
        who: Identity,
        blocking_company_id: Option<u64>,
        message: Text,
        now: Timestamp,
    ) -> DbView {
        DbView {
            connections: self.connections.push(
                ConnectionView {
                    id: self.next_connection_id,
                    company_a: ordered(x, y).0,
                    company_b: ordered(x, y).1,
                    status,
                    requested_by: who,
                    blocking_company_id,
                    initial_message: message,
                    created_at: now,
                },
            ),
            next_connection_id: (self.next_connection_id + 1) as u64,
            ..self
        }
    }

    pub open spec fn set_connection_status(self, id: u64, status: ConnectionStatus) -> DbView {
        DbView {
            connections: change_where(
                self.connections,
                connection_is(id),
                |c: ConnectionView| ConnectionView { status, ..c },
            ),
            ..self
        }
    }

    pub open spec fn set_blocked(self, id: u64, blocker: u64) -> DbView {
        DbView {
            connections: change_where(
                self.connections,
                connection_is(id),
                |c: ConnectionView|
                    ConnectionView { status: ConnectionStatus::Blocked, blocking_company_id: Some(blocker), ..c },
            ),
            ..self
        }
    }

    pub open spec fn drop_connections_touching(self, company_id: u64) -> DbView {
        DbView { connections: self.connections.filter(not(touches(company_id))), ..self }
    }

    pub open spec fn drop_connection(self, id: u64) -> DbView {
        DbView { connections: self.connections.filter(not(connection_is(id))), ..self }
    }

    pub open spec fn add_connection_chat(
        self,
        connection_id: u64,
        who: Identity,
        text: Text,
        now: Timestamp,
    ) -> DbView {
        DbView {
            connection_chats: self.connection_chats.push(
                ConnectionChatView { id: self.next_connection_chat_id, connection_id, sender: who, text, created_at: now },
            ),
            next_connection_chat_id: (self.next_connection_chat_id + 1) as u64,
            ..self
        }
    }

    pub open spec fn drop_connection_chat(self, connection_id: u64) -> DbView {
        DbView { connection_chats: self.connection_chats.filter(not(chat_in(connection_id))), ..self }
    }

    /// One unread notification more, for `recipient`.
    pub open spec fn notify(
        self,
        recipient: Identity,
        company_id: u64,
        kind: NotificationType,
        title: Text,
        body: Text,
        now: Timestamp,
    ) -> DbView {
        DbView {
            notifications: self.notifications.push(
                NotificationView {
                    id: self.next_notification_id,
                    recipient_identity: recipient,
                    company_id,
                    notification_type: kind,
                    title,
                    body,
                    is_read: false,
                    created_at: now,
                },
            ),
            next_notification_id: (self.next_notification_id + 1) as u64,
            ..self
        }
    }

    /// One unread notification for each of `recipients`, in their order,
    /// with consecutive ids.
    pub open spec fn notify_all(
        self,
        recipients: Seq<Identity>,
        company_id: u64,
        kind: NotificationType,
        title: Text,
        body: Text,
        now: Timestamp,
    ) -> DbView {
        DbView {
            notifications: self.notifications + Seq::new(
                recipients.len(),
                |k: int|
                    NotificationView {
                        id: (self.next_notification_id + k) as u64,
                        recipient_identity: recipients[k],
                        company_id,
                        notification_type: kind,
                        title,
                        body,
                        is_read: false,
                        created_at: now,
                    },
            ),
            next_notification_id: (self.next_notification_id + recipients.len()) as u64,
            ..self
        }
    }

    /// The fan-out: one notification for each member of the company who
    /// holds at least `min_role`, but for `exclude`.
    pub open spec fn notify_company_role(
        self,
        company_id: u64,
        min_role: UserRole,
        exclude: Option<Identity>,
        kind: NotificationType,
        title: Text,
        body: Text,
        now: Timestamp,
    ) -> DbView {
        self.notify_all(self.recipients(company_id, min_role, exclude), company_id, kind, title, body, now)
    }

    /// The fan-out to each of `companies` in turn.
    pub open spec fn notify_companies(
        self,
        companies: Seq<u64>,
        min_role: UserRole,
        kind: NotificationType,
        title: Text,
        body: Text,
        now: Timestamp,
    ) -> DbView
        decreases companies.len(),
    {
        if companies.len() == 0 {
            self
        } else {
            self.notify_companies(companies.drop_last(), min_role, kind, title, body, now).notify_company_role(
                companies.last(),
                min_role,
                None,
                kind,
                title,
                body,
                now,
            )
        }
    }

    pub open spec fn mark_read(self, id: u64) -> DbView {
        DbView {
            notifications: change_where(
                self.notifications,
                notification_is(id),
                |n: NotificationView| NotificationView { is_read: true, ..n },
            ),
            ..self
        }
    }

    pub open spec fn mark_all_read(self, who: Identity, company_id: u64) -> DbView {
        DbView {
            notifications: change_where(
                self.notifications,
                inbox_item(who, company_id, false),
                |n: NotificationView| NotificationView { is_read: true, ..n },
            ),
            ..self
        }
    }

    pub open spec fn clear_read(self, who: Identity, company_id: u64) -> DbView {
        DbView { notifications: self.notifications.filter(not(inbox_item(who, company_id, true))), ..self }
    }

    pub open spec fn drop_notifications_about(self, company_id: u64) -> DbView {
        DbView { notifications: self.notifications.filter(not(notification_about(company_id))), ..self }
    }

    pub open spec fn add_project(
        self,
        owner_company_id: u64,
        name: Text,
        description: Text,
        who: Identity,
        now: Timestamp,
    ) -> DbView {
        DbView {
            projects: self.projects.push(
                ProjectView {
                    id: self.next_project_id,
                    owner_company_id,
                    name,
                    description,
                    created_by: who,
                    created_at: now,
                },
            ),
            next_project_id: (self.next_project_id + 1) as u64,
            ..self
        }
    }

    pub open spec fn drop_project(self, id: u64) -> DbView {
        DbView { projects: self.projects.filter(not(project_is(id))), ..self }
    }

    pub open spec fn add_seat(
        self,
        project_id: u64,
        company_id: u64,
        status: ProjectMemberStatus,
        who: Identity,
        now: Timestamp,
    ) -> DbView {
        DbView {
            project_members: self.project_members.push(
                ProjectMember {
                    id: self.next_project_member_id,
                    project_id,
                    company_id,
                    status,
                    invited_by: who,
                    joined_at: now,
                },
            ),
            next_project_member_id: (self.next_project_member_id + 1) as u64,
            ..self
        }
    }

    pub open spec fn set_seat_status(self, id: u64, status: ProjectMemberStatus) -> DbView {
        DbView {
            project_members: change_where(
                self.project_members,
                seat_id_is(id),
                |m: ProjectMember| ProjectMember { status, ..m },
            ),
            ..self
        }
    }

    pub open spec fn accept_seat(self, id: u64, now: Timestamp) -> DbView {
        DbView {
            project_members: change_where(
                self.project_members,
                seat_id_is(id),
                |m: ProjectMember| ProjectMember { status: ProjectMemberStatus::Accepted, joined_at: now, ..m },
            ),
            ..self
        }
    }

    pub open spec fn drop_seat(self, id: u64) -> DbView {
        DbView { project_members: self.project_members.filter(not(seat_id_is(id))), ..self }
    }

    pub open spec fn drop_seats_in(self, project_id: u64) -> DbView {
        DbView { project_members: self.project_members.filter(not(seat_in(project_id))), ..self }
    }

    pub open spec fn drop_seats_of(self, company_id: u64) -> DbView {
        DbView { project_members: self.project_members.filter(not(seat_of(company_id))), ..self }
    }

    pub open spec fn add_project_chat(
        self,
        project_id: u64,
        who: Identity,
        text: Text,
        now: Timestamp,
    ) -> DbView {
        DbView {
            project_chats: self.project_chats.push(
                ProjectChatView { id: self.next_project_chat_id, project_id, sender: who, text, created_at: now },
            ),
            next_project_chat_id: (self.next_project_chat_id + 1) as u64,
            ..self
        }
    }

    pub open spec fn drop_project_chats(self, project_id: u64) -> DbView {
        DbView { project_chats: self.project_chats.filter(not(project_chat_in(project_id))), ..self }
    }

    /// The project's chat, its seats and the project itself are gone.
    pub open spec fn delete_project_cascade(self, project_id: u64) -> DbView {
        self.drop_project_chats(project_id).drop_seats_in(project_id).drop_project(project_id)
    }

    /// The identities with a membership of the company, in table order.
    pub open spec fn member_identities(self, company_id: u64) -> Seq<Identity> {
        self.members.filter(member_in(company_id)).map_values(|m: CompanyMember| m.identity)
    }

    /// The ids of the connections with the company at either end.
    pub open spec fn connection_ids_touching(self, company_id: u64) -> Seq<u64> {
        self.connections.filter(touches(company_id)).map_values(|c: ConnectionView| c.id)
    }

    /// The ids of the projects that the company owns.
    pub open spec fn owned_project_ids(self, company_id: u64) -> Seq<u64> {
        self.projects.filter(owned_by(company_id)).map_values(|p: ProjectView| p.id)
    }

    /// The projects in which the company has a seat, one entry per seat.
    pub open spec fn seat_project_ids(self, company_id: u64) -> Seq<u64> {
        self.project_members.filter(seat_of(company_id)).map_values(|m: ProjectMember| m.project_id)
    }

    /// The company on whose behalf the connection was requested: the first
    /// of its two companies that the requester is a member of.
    pub open spec fn requesting_company(self, connection: ConnectionView) -> Result<u64, Error> {
        if self.membership(connection.requested_by, connection.company_a) is Some {
            Ok(connection.company_a)
        } else if self.membership(connection.requested_by, connection.company_b) is Some {
            Ok(connection.company_b)
        } else {
            Err(Error::InvalidState)
        }
    }

    /// The notification ids can serve `fan_outs` fan-outs, each to every
    /// member.
    pub open spec fn room_for_fan_outs(self, fan_outs: int) -> bool {
        self.next_notification_id + fan_outs * self.members.len() <= u64::MAX
    }

    /// Every id sequence can still serve the rows that one procedure may
    /// insert: one row in each table, and in the notification table one row
    /// per member for each project seat and once more.
    pub open spec fn has_room(self) -> bool {
        &&& self.next_member_id < u64::MAX
        &&& self.next_company_id < u64::MAX
        &&& self.next_connection_id < u64::MAX
        &&& self.next_connection_chat_id < u64::MAX
        &&& self.next_used_invite_id < u64::MAX
        &&& self.next_project_id < u64::MAX
        &&& self.next_project_member_id < u64::MAX
        &&& self.next_project_chat_id < u64::MAX
        &&& self.next_notification_id + (self.project_members.len() + 2) * (self.members.len() + 1) <= u64::MAX
    }
}

} // verus!
