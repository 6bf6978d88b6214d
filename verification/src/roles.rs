//! Roles, lifecycle states, caller identities and the failure taxonomy.

use vstd::prelude::*;

verus! {

/// Six-tier role hierarchy: Owner > Admin > Member > Installer > Field > Pending.
/// A user admitted by invite code starts as Pending and cannot act until an
/// Admin or Owner promotes them.
#[derive(Copy, Clone, Debug, PartialEq, Eq, Structural, Hash)]
pub enum UserRole {
    Owner,
    Admin,
    Member,
    Installer,
    Field,
    Pending,
}

/// Status of the connection between two companies.
#[derive(Copy, Clone, Debug, PartialEq, Eq, Structural, Hash)]
pub enum ConnectionStatus {
    Pending,
    Accepted,
    Blocked,
}

/// Kinds of in-app notification.
#[derive(Copy, Clone, Debug, PartialEq, Eq, Structural, Hash)]
pub enum NotificationType {
    MemberJoined,
    ConnectionRequest,
    ConnectionAccepted,
    ConnectionDeclined,
    ChatMessage,
    RoleChanged,
    MemberRemoved,
    ProjectInvite,
    ProjectAccepted,
    ProjectDeclined,
    ProjectChat,
    ProjectKicked,
    ProjectLeft,
}

/// Status of a company's membership in a project room.
#[derive(Copy, Clone, Debug, PartialEq, Eq, Structural, Hash)]
pub enum ProjectMemberStatus {
    Invited,
    Accepted,
    Left,
    Kicked,
}

/// An opaque 256-bit caller key. `w0` holds the most significant 64 bits.
#[derive(Copy, Clone, Debug, PartialEq, Eq, Structural, Hash)]
pub struct Identity {
    pub w0: u64,
    pub w1: u64,
    pub w2: u64,
    pub w3: u64,
}

impl Identity {
    /// The identity whose numeric value is `n`.
    pub fn from_u64(n: u64) -> (id: Identity)
        ensures
            id == (Identity { w0: 0, w1: 0, w2: 0, w3: n }),
    {
        Identity { w0: 0, w1: 0, w2: 0, w3: n }
    }
}

/// A point in time, in microseconds since the Unix epoch.
#[derive(Copy, Clone, Debug, PartialEq, Eq, Structural, Hash)]
pub struct Timestamp {
    pub micros: i64,
}

/// Why a procedure refused to act. A refused procedure changes nothing.
#[derive(Copy, Clone, Debug, PartialEq, Eq, Structural, Hash)]
pub enum Error {
    /// The caller has no account.
    Unauthenticated,
    /// The caller's account selects no company, or one that no longer exists.
    NoActiveCompany,
    /// The caller, or the company the caller acts for, does not belong to
    /// what the procedure acts on.
    NotAMember,
    /// The caller's standing is below what the procedure asks for.
    InsufficientRole,
    /// A row that the procedure refers to does not exist.
    NotFound,
    /// The procedure would break an invariant: a duplicate, or an
    /// operation aimed at the caller's own side.
    Conflict,
    /// The row is in the wrong lifecycle state for the procedure.
    InvalidState,
    /// A text argument is empty, too long or malformed.
    InvalidInput,
}

/// The rank of a role on the total order
/// Owner(5) > Admin(4) > Member(3) > Installer(2) > Field(1) > Pending(0).
pub open spec fn level_of(role: UserRole) -> u8 {
    match role {
        UserRole::Pending => 0,
        UserRole::Field => 1,
        UserRole::Installer => 2,
        UserRole::Member => 3,
        UserRole::Admin => 4,
        UserRole::Owner => 5,
    }
}

/// Numeric level of a role. Higher means more privileged.
#[verifier::when_used_as_spec(level_of)]
pub fn role_level(role: UserRole) -> (l: u8)
    ensures
        l == level_of(role),
        l <= 5,
{
    match role {
        UserRole::Pending => 0,
        UserRole::Field => 1,
        UserRole::Installer => 2,
        UserRole::Member => 3,
        UserRole::Admin => 4,
        UserRole::Owner => 5,
    }
}

/// The role's name, as it is shown to users.
pub open spec fn role_name_of(role: UserRole) -> Seq<char> {
    match role {
        UserRole::Owner => "Owner"@,
        UserRole::Admin => "Admin"@,
        UserRole::Member => "Member"@,
        UserRole::Installer => "Installer"@,
        UserRole::Field => "Field"@,
        UserRole::Pending => "Pending"@,
    }
}

pub fn role_name(role: UserRole) -> (name: &'static str)
    ensures
        name@ == role_name_of(role),
{
    match role {
        UserRole::Owner => "Owner",
        UserRole::Admin => "Admin",
        UserRole::Member => "Member",
        UserRole::Installer => "Installer",
        UserRole::Field => "Field",
        UserRole::Pending => "Pending",
    }
}

} // verus!
