//! The rows of the entity store, and what each row is in contracts.
//!
//! A row that holds text has a view in which each text is the sequence of
//! its characters. A row without text stands for itself.

use vstd::prelude::*;
use crate::roles::{
    ConnectionStatus, Identity, NotificationType, ProjectMemberStatus, Timestamp, UserRole,
};

verus! {

/// Text, as contracts see it.
pub type Text = Seq<char>;

/// Whether a client is currently connected.
#[derive(Copy, Clone, Debug, PartialEq, Eq)]
pub struct OnlineUser {
    pub identity: Identity,
    pub online: bool,
}

impl View for OnlineUser {
    type V = OnlineUser;

    open spec fn view(&self) -> OnlineUser {
        *self
    }
}

/// A registered user. `active_company_id` selects the company the user
/// currently acts for; it is a cursor, never an authority.
#[derive(Clone, Debug, PartialEq, Eq)]
pub struct UserAccount {
    pub identity: Identity,
    pub full_name: String,
    pub nickname: String,
    pub email: String,
    pub active_company_id: Option<u64>,
    pub created_at: Timestamp,
}

#[verifier::ext_equal]
pub struct UserAccountView {
    pub identity: Identity,
    pub full_name: Text,
    pub nickname: Text,
    pub email: Text,
    pub active_company_id: Option<u64>,
    pub created_at: Timestamp,
}

impl View for UserAccount {
    type V = UserAccountView;

    open spec fn view(&self) -> UserAccountView {
        UserAccountView {
            identity: self.identity,
            full_name: self.full_name@,
            nickname: self.nickname@,
            email: self.email@,
            active_company_id: self.active_company_id,
            created_at: self.created_at,
        }
    }
}

impl UserAccount {
    pub fn duplicate(&self) -> (copy: UserAccount)
        ensures
            copy == *self,
    {
        UserAccount {
            identity: self.identity,
            full_name: self.full_name.clone(),
            nickname: self.nickname.clone(),
            email: self.email.clone(),
            active_company_id: self.active_company_id,
            created_at: self.created_at,
        }
    }
}

/// One user's membership of one company, with the role held there.
#[derive(Copy, Clone, Debug, PartialEq, Eq)]
pub struct CompanyMember {
    pub id: u64,
    pub identity: Identity,
    pub company_id: u64,
    pub role: UserRole,
    pub joined_at: Timestamp,
}

impl View for CompanyMember {
    type V = CompanyMember;

    open spec fn view(&self) -> CompanyMember {
        *self
    }
}

/// A company in the directory.
#[derive(Clone, Debug, PartialEq, Eq)]
pub struct Company {
    pub id: u64,
    pub owner_identity: Identity,
    pub name: String,
    pub slug: String,
    pub location: String,
    pub bio: String,
    pub is_public: bool,
    pub kvk_number: String,
}

#[verifier::ext_equal]
pub struct CompanyView {
    pub id: u64,
    pub owner_identity: Identity,
    pub name: Text,
    pub slug: Text,
    pub location: Text,
    pub bio: Text,
    pub is_public: bool,
    pub kvk_number: Text,
}

impl View for Company {
    type V = CompanyView;

    open spec fn view(&self) -> CompanyView {
        CompanyView {
            id: self.id,
            owner_identity: self.owner_identity,
            name: self.name@,
            slug: self.slug@,
            location: self.location@,
            bio: self.bio@,
            is_public: self.is_public,
            kvk_number: self.kvk_number@,
        }
    }
}

/// A consumable code that admits users to a company.
#[derive(Clone, Debug, PartialEq, Eq)]
pub struct InviteCode {
    pub code: String,
    pub company_id: u64,
    pub created_by: Identity,
    pub uses_remaining: u32,
}

#[verifier::ext_equal]
pub struct InviteCodeView {
    pub code: Text,
    pub company_id: u64,
    pub created_by: Identity,
    pub uses_remaining: u32,
}

impl View for InviteCode {
    type V = InviteCodeView;

    open spec fn view(&self) -> InviteCodeView {
        InviteCodeView {
            code: self.code@,
            company_id: self.company_id,
            created_by: self.created_by,
            uses_remaining: self.uses_remaining,
        }
    }
}

/// Equipment and service flags of a company, one row per company.
#[derive(Copy, Clone, Debug, PartialEq, Eq)]
pub struct Capability {
    pub company_id: u64,
    pub can_install: bool,
    pub has_cnc: bool,
    pub has_large_format: bool,
    pub has_bucket_truck: bool,
}

impl View for Capability {
    type V = Capability;

    open spec fn view(&self) -> Capability {
        *self
    }
}

/// The relationship between two companies. `company_a` is the lower id.
#[derive(Clone, Debug, PartialEq, Eq)]
pub struct Connection {
    pub id: u64,
    pub company_a: u64,
    pub company_b: u64,
    pub status: ConnectionStatus,
    pub requested_by: Identity,
    pub blocking_company_id: Option<u64>,
    pub initial_message: String,
    pub created_at: Timestamp,
}

#[verifier::ext_equal]
pub struct ConnectionView {
    pub id: u64,
    pub company_a: u64,
    pub company_b: u64,
    pub status: ConnectionStatus,
    pub requested_by: Identity,
    pub blocking_company_id: Option<u64>,
    pub initial_message: Text,
    pub created_at: Timestamp,
}

impl View for Connection {
    type V = ConnectionView;

    open spec fn view(&self) -> ConnectionView {
        ConnectionView {
            id: self.id,
            company_a: self.company_a,
            company_b: self.company_b,
            status: self.status,
            requested_by: self.requested_by,
            blocking_company_id: self.blocking_company_id,
            initial_message: self.initial_message@,
            created_at: self.created_at,
        }
    }
}

impl Connection {
    pub fn duplicate(&self) -> (copy: Connection)
        ensures
            copy == *self,
    {
        Connection {
            id: self.id,
            company_a: self.company_a,
            company_b: self.company_b,
            status: self.status,
            requested_by: self.requested_by,
            blocking_company_id: self.blocking_company_id,
            initial_message: self.initial_message.clone(),
            created_at: self.created_at,
        }
    }
}

/// A chat message exchanged within a connection.
#[derive(Clone, Debug, PartialEq, Eq)]
pub struct ConnectionChat {
    pub id: u64,
    pub connection_id: u64,
    pub sender: Identity,
    pub text: String,
    pub created_at: Timestamp,
}

#[verifier::ext_equal]
pub struct ConnectionChatView {
    pub id: u64,
    pub connection_id: u64,
    pub sender: Identity,
    pub text: Text,
    pub created_at: Timestamp,
}

impl View for ConnectionChat {
    type V = ConnectionChatView;

    open spec fn view(&self) -> ConnectionChatView {
        ConnectionChatView {
            id: self.id,
            connection_id: self.connection_id,
            sender: self.sender,
            text: self.text@,
            created_at: self.created_at,
        }
    }
}

/// The record that a user has used an invite code; it outlives the code.
#[derive(Clone, Debug, PartialEq, Eq)]
pub struct UsedInviteCode {
    pub id: u64,
    pub identity: Identity,
    pub code: String,
    pub company_id: u64,
}

#[verifier::ext_equal]
pub struct UsedInviteCodeView {
    pub id: u64,
    pub identity: Identity,
    pub code: Text,
    pub company_id: u64,
}

impl View for UsedInviteCode {
    type V = UsedInviteCodeView;

    open spec fn view(&self) -> UsedInviteCodeView {
        UsedInviteCodeView {
            id: self.id,
            identity: self.identity,
            code: self.code@,
            company_id: self.company_id,
        }
    }
}

/// An in-app notification for one user in the context of one company.
#[derive(Clone, Debug, PartialEq, Eq)]
pub struct Notification {
    pub id: u64,
    pub recipient_identity: Identity,
    pub company_id: u64,
    pub notification_type: NotificationType,
    pub title: String,
    pub body: String,
    pub is_read: bool,
    pub created_at: Timestamp,
}

#[verifier::ext_equal]
pub struct NotificationView {
    pub id: u64,
    pub recipient_identity: Identity,
    pub company_id: u64,
    pub notification_type: NotificationType,
    pub title: Text,
    pub body: Text,
    pub is_read: bool,
    pub created_at: Timestamp,
}

impl View for Notification {
    type V = NotificationView;

    open spec fn view(&self) -> NotificationView {
        NotificationView {
            id: self.id,
            recipient_identity: self.recipient_identity,
            company_id: self.company_id,
            notification_type: self.notification_type,
            title: self.title@,
            body: self.body@,
            is_read: self.is_read,
            created_at: self.created_at,
        }
    }
}

/// A project room in which several companies work on one job.
#[derive(Clone, Debug, PartialEq, Eq)]
pub struct Project {
    pub id: u64,
    pub owner_company_id: u64,
    pub name: String,
    pub description: String,
    pub created_by: Identity,
    pub created_at: Timestamp,
}

#[verifier::ext_equal]
pub struct ProjectView {
    pub id: u64,
    pub owner_company_id: u64,
    pub name: Text,
    pub description: Text,
    pub created_by: Identity,
    pub created_at: Timestamp,
}

impl View for Project {
    type V = ProjectView;

    open spec fn view(&self) -> ProjectView {
        ProjectView {
            id: self.id,
            owner_company_id: self.owner_company_id,
            name: self.name@,
            description: self.description@,
            created_by: self.created_by,
            created_at: self.created_at,
        }
    }
}

/// One company's standing in one project.
#[derive(Copy, Clone, Debug, PartialEq, Eq)]
pub struct ProjectMember {
    pub id: u64,
    pub project_id: u64,
    pub company_id: u64,
    pub status: ProjectMemberStatus,
    pub invited_by: Identity,
    pub joined_at: Timestamp,
}

impl View for ProjectMember {
    type V = ProjectMember;

    open spec fn view(&self) -> ProjectMember {
        *self
    }
}

/// A chat message in a project room.
#[derive(Clone, Debug, PartialEq, Eq)]
pub struct ProjectChat {
    pub id: u64,
    pub project_id: u64,
    pub sender: Identity,
    pub text: String,
    pub created_at: Timestamp,
}

#[verifier::ext_equal]
pub struct ProjectChatView {
    pub id: u64,
    pub project_id: u64,
    pub sender: Identity,
    pub text: Text,
    pub created_at: Timestamp,
}

impl View for ProjectChat {
    type V = ProjectChatView;

    open spec fn view(&self) -> ProjectChatView {
        ProjectChatView {
            id: self.id,
            project_id: self.project_id,
            sender: self.sender,
            text: self.text@,
            created_at: self.created_at,
        }
    }
}

/// The views of a table's rows, in table order.
pub open spec fn views<R: View>(rows: Seq<R>) -> Seq<R::V> {
    rows.map_values(|r: R| r@)
}

/// Whether the text of two strings is the same.
pub fn same_text(a: &String, b: &String) -> (same: bool)
    ensures
        same == (a@ == b@),
{
    *a == *b
}

} // verus!
