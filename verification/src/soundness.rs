//! What holds of every store that the procedures can reach, and how each
//! change of the store keeps it.
//!
//! - No identity has two accounts.
//! - No two memberships share an id, nor an identity and a company; each
//!   membership's id and company id were handed out by the id sequences.
//! - Each invite code is for a company id that was handed out.
//! - Where an account selects a company, its user is a member of it.
//! - No two connections share an id, nor a pair of companies; each has the
//!   lower company id first, an id that was handed out, and names a
//!   blocking company, one of its two, exactly while it is Blocked.
//! - No two companies share an id or a slug; each has an id that was handed
//!   out, exactly one capability row, and a recorded owner who is a member
//!   of it with the role Owner; no other member of it holds that role.
//! - No two invite codes are the same text; each has a use left.
//! - No two seats share an id, nor a project and a company; no two projects
//!   share an id; ids were handed out; and the company that owns a project
//!   has an Accepted seat in it, so that no project is without one.
//! - No identity has two presence rows; no two chat messages, project chat
//!   messages, notifications or records of a used code share an id, and
//!   each id was handed out; no user has used a code twice.
//! - No reference dangles: the company of each membership, invite code and
//!   capability row exists, and so do the two companies of each connection,
//!   the owner company of each project, the project and the company of each
//!   seat, and the project of each project chat message.

use vstd::prelude::*;
use crate::model::{
    DbView, account_is, capability_of, company_is, member_id_is, member_is, not, project_is,
    seat_with,
};
use crate::roles::{ConnectionStatus, Identity, ProjectMemberStatus, UserRole};
use crate::rows::{
    Capability, CompanyMember, CompanyView, ConnectionChatView, ConnectionView, InviteCodeView,
    NotificationView, OnlineUser, ProjectChatView, ProjectMember, ProjectView, UsedInviteCodeView,
    UserAccountView,
};
use crate::seqs::{any, every, first, lemma_filter_exact, pairwise};

verus! {

pub open spec fn other_account() -> spec_fn(UserAccountView, UserAccountView) -> bool {
    |a: UserAccountView, b: UserAccountView| a.identity != b.identity
}

pub open spec fn other_member() -> spec_fn(CompanyMember, CompanyMember) -> bool {
    |a: CompanyMember, b: CompanyMember|
        a.id != b.id && !(a.identity == b.identity && a.company_id == b.company_id)
}

pub open spec fn member_allocated(next_member_id: u64, next_company_id: u64) -> spec_fn(CompanyMember) -> bool {
    |m: CompanyMember| m.id < next_member_id && m.company_id < next_company_id
}

pub open spec fn invite_allocated(next_company_id: u64) -> spec_fn(InviteCodeView) -> bool {
    |i: InviteCodeView| i.company_id < next_company_id
}

/// Where the account selects a company, `members` holds a membership of
/// its user in that company.
pub open spec fn cursor_held(members: Seq<CompanyMember>) -> spec_fn(UserAccountView) -> bool {
    |a: UserAccountView|
        a.active_company_id is Some ==> any(members, member_is(a.identity, a.active_company_id->0))
}

pub open spec fn other_connection() -> spec_fn(ConnectionView, ConnectionView) -> bool {
    |a: ConnectionView, b: ConnectionView|
        a.id != b.id && !(a.company_a == b.company_a && a.company_b == b.company_b)
}

pub open spec fn connection_sound(next_connection_id: u64) -> spec_fn(ConnectionView) -> bool {
    |c: ConnectionView|
        {
            &&& c.id < next_connection_id
            &&& c.company_a < c.company_b
            &&& (c.status == ConnectionStatus::Blocked <==> c.blocking_company_id is Some)
            &&& (c.blocking_company_id is Some ==> c.blocking_company_id == Some(c.company_a)
                || c.blocking_company_id == Some(c.company_b))
        }
}

impl DbView {
    /// What holds of accounts, memberships, invite codes and connections.
    pub open spec fn people_ok(self) -> bool {
        &&& pairwise(self.accounts, other_account())
        &&& pairwise(self.members, other_member())
        &&& every(self.members, member_allocated(self.next_member_id, self.next_company_id))
        &&& every(self.invite_codes, invite_allocated(self.next_company_id))
        &&& every(self.accounts, cursor_held(self.members))
        &&& pairwise(self.connections, other_connection())
        &&& every(self.connections, connection_sound(self.next_connection_id))
    }

    /// The tables and id sequences that `people_ok` speaks of.
    pub open spec fn same_core(self, other: DbView) -> bool {
        &&& self.accounts == other.accounts
        &&& self.members == other.members
        &&& self.invite_codes == other.invite_codes
        &&& self.connections == other.connections
        &&& self.next_member_id == other.next_member_id
        &&& self.next_company_id == other.next_company_id
        &&& self.next_connection_id == other.next_connection_id
    }
}


// ---------------------------------------------------------------------
// Companies
// ---------------------------------------------------------------------

pub open spec fn other_company() -> spec_fn(CompanyView, CompanyView) -> bool {
    |a: CompanyView, b: CompanyView| a.id != b.id && a.slug != b.slug
}

pub open spec fn company_allocated(next_company_id: u64) -> spec_fn(CompanyView) -> bool {
    |c: CompanyView| c.id < next_company_id
}

/// The membership by which the company's recorded owner is its Owner.
pub open spec fn owner_row(c: CompanyView) -> spec_fn(CompanyMember) -> bool {
    |m: CompanyMember| m.identity == c.owner_identity && m.company_id == c.id && m.role == UserRole::Owner
}

pub open spec fn owner_recorded(members: Seq<CompanyMember>) -> spec_fn(CompanyView) -> bool {
    |c: CompanyView| any(members, owner_row(c))
}

/// Who holds the role Owner in a company is its recorded owner.
pub open spec fn owners_match(members: Seq<CompanyMember>, companies: Seq<CompanyView>) -> bool {
    forall|i: int, k: int|
        0 <= i < members.len() && 0 <= k < companies.len() && (#[trigger] members[i]).role == UserRole::Owner
            && members[i].company_id == (#[trigger] companies[k]).id ==> members[i].identity
            == companies[k].owner_identity
}

pub open spec fn other_capability() -> spec_fn(Capability, Capability) -> bool {
    |a: Capability, b: Capability| a.company_id != b.company_id
}

pub open spec fn capability_allocated(next_company_id: u64) -> spec_fn(Capability) -> bool {
    |c: Capability| c.company_id < next_company_id
}

pub open spec fn equipped(capabilities: Seq<Capability>) -> spec_fn(CompanyView) -> bool {
    |c: CompanyView| any(capabilities, capability_of(c.id))
}

pub open spec fn other_code() -> spec_fn(InviteCodeView, InviteCodeView) -> bool {
    |a: InviteCodeView, b: InviteCodeView| a.code != b.code
}

pub open spec fn usable() -> spec_fn(InviteCodeView) -> bool {
    |i: InviteCodeView| i.uses_remaining >= 1
}

// ---------------------------------------------------------------------
// Projects
// ---------------------------------------------------------------------

pub open spec fn other_seat() -> spec_fn(ProjectMember, ProjectMember) -> bool {
    |a: ProjectMember, b: ProjectMember|
        a.id != b.id && !(a.project_id == b.project_id && a.company_id == b.company_id)
}

pub open spec fn seat_allocated(
    next_project_member_id: u64,
    next_project_id: u64) -> spec_fn(ProjectMember,
) -> bool {
    |m: ProjectMember| m.id < next_project_member_id && m.project_id < next_project_id
}

pub open spec fn other_project() -> spec_fn(ProjectView, ProjectView) -> bool {
    |a: ProjectView, b: ProjectView| a.id != b.id
}

pub open spec fn project_allocated(next_project_id: u64) -> spec_fn(ProjectView) -> bool {
    |p: ProjectView| p.id < next_project_id
}

/// The company that owns the project has an Accepted seat in it.
pub open spec fn owner_seated(seats: Seq<ProjectMember>) -> spec_fn(ProjectView) -> bool {
    |p: ProjectView| any(seats, seat_with(p.id, p.owner_company_id, ProjectMemberStatus::Accepted))
}

// ---------------------------------------------------------------------
// References
// ---------------------------------------------------------------------

/// Whether a company with the id is among `companies`.
pub open spec fn company_known(companies: Seq<CompanyView>, id: u64) -> bool {
    any(companies, company_is(id))
}

/// Whether a project with the id is among `projects`.
pub open spec fn project_known(projects: Seq<ProjectView>, id: u64) -> bool {
    any(projects, project_is(id))
}

pub open spec fn member_linked(companies: Seq<CompanyView>) -> spec_fn(CompanyMember) -> bool {
    |m: CompanyMember| company_known(companies, m.company_id)
}

pub open spec fn invite_linked(companies: Seq<CompanyView>) -> spec_fn(InviteCodeView) -> bool {
    |i: InviteCodeView| company_known(companies, i.company_id)
}

pub open spec fn capability_linked(companies: Seq<CompanyView>) -> spec_fn(Capability) -> bool {
    |c: Capability| company_known(companies, c.company_id)
}

pub open spec fn connection_linked(companies: Seq<CompanyView>) -> spec_fn(ConnectionView) -> bool {
    |c: ConnectionView| company_known(companies, c.company_a) && company_known(companies, c.company_b)
}

pub open spec fn project_linked(companies: Seq<CompanyView>) -> spec_fn(ProjectView) -> bool {
    |p: ProjectView| company_known(companies, p.owner_company_id)
}

pub open spec fn seat_linked(
    projects: Seq<ProjectView>,
    companies: Seq<CompanyView>) -> spec_fn(ProjectMember,
) -> bool {
    |m: ProjectMember| project_known(projects, m.project_id) && company_known(companies, m.company_id)
}

pub open spec fn project_chat_linked(projects: Seq<ProjectView>) -> spec_fn(ProjectChatView) -> bool {
    |c: ProjectChatView| project_known(projects, c.project_id)
}

// ---------------------------------------------------------------------
// Records
// ---------------------------------------------------------------------

pub open spec fn other_user() -> spec_fn(OnlineUser, OnlineUser) -> bool {
    |a: OnlineUser, b: OnlineUser| a.identity != b.identity
}

pub open spec fn other_use() -> spec_fn(UsedInviteCodeView, UsedInviteCodeView) -> bool {
    |a: UsedInviteCodeView, b: UsedInviteCodeView| a.id != b.id && !(a.identity == b.identity && a.code == b.code)
}

pub open spec fn use_allocated(next_used_invite_id: u64) -> spec_fn(UsedInviteCodeView) -> bool {
    |u: UsedInviteCodeView| u.id < next_used_invite_id
}

pub open spec fn other_chat() -> spec_fn(ConnectionChatView, ConnectionChatView) -> bool {
    |a: ConnectionChatView, b: ConnectionChatView| a.id != b.id
}

pub open spec fn chat_allocated(next_connection_chat_id: u64) -> spec_fn(ConnectionChatView) -> bool {
    |c: ConnectionChatView| c.id < next_connection_chat_id
}

pub open spec fn other_notification() -> spec_fn(NotificationView, NotificationView) -> bool {
    |a: NotificationView, b: NotificationView| a.id != b.id
}

pub open spec fn notification_allocated(next_notification_id: u64) -> spec_fn(NotificationView) -> bool {
    |n: NotificationView| n.id < next_notification_id
}

pub open spec fn other_project_chat() -> spec_fn(ProjectChatView, ProjectChatView) -> bool {
    |a: ProjectChatView, b: ProjectChatView| a.id != b.id
}

pub open spec fn project_chat_allocated(next_project_chat_id: u64) -> spec_fn(ProjectChatView) -> bool {
    |c: ProjectChatView| c.id < next_project_chat_id
}

impl DbView {
    /// What holds of presence rows, chat, notifications and the record of
    /// used codes.
    pub open spec fn records_ok(self) -> bool {
        &&& pairwise(self.online_users, other_user())
        &&& pairwise(self.used_invite_codes, other_use())
        &&& every(self.used_invite_codes, use_allocated(self.next_used_invite_id))
        &&& pairwise(self.connection_chats, other_chat())
        &&& every(self.connection_chats, chat_allocated(self.next_connection_chat_id))
        &&& pairwise(self.notifications, other_notification())
        &&& every(self.notifications, notification_allocated(self.next_notification_id))
        &&& pairwise(self.project_chats, other_project_chat())
        &&& every(self.project_chats, project_chat_allocated(self.next_project_chat_id))
    }

    /// The tables and id sequences that `records_ok` speaks of.
    pub open spec fn same_records(self, other: DbView) -> bool {
        &&& self.online_users == other.online_users
        &&& self.used_invite_codes == other.used_invite_codes
        &&& self.connection_chats == other.connection_chats
        &&& self.notifications == other.notifications
        &&& self.project_chats == other.project_chats
        &&& self.next_used_invite_id == other.next_used_invite_id
        &&& self.next_connection_chat_id == other.next_connection_chat_id
        &&& self.next_notification_id == other.next_notification_id
        &&& self.next_project_chat_id == other.next_project_chat_id
    }
}

impl DbView {
    /// No reference to a company or a project dangles.
    pub open spec fn links_ok(self) -> bool {
        &&& every(self.members, member_linked(self.companies))
        &&& every(self.invite_codes, invite_linked(self.companies))
        &&& every(self.capabilities, capability_linked(self.companies))
        &&& every(self.connections, connection_linked(self.companies))
        &&& every(self.projects, project_linked(self.companies))
        &&& every(self.project_members, seat_linked(self.projects, self.companies))
        &&& every(self.project_chats, project_chat_linked(self.projects))
    }

    /// The tables that `links_ok` speaks of.
    pub open spec fn same_links(self, other: DbView) -> bool {
        &&& self.companies == other.companies
        &&& self.projects == other.projects
        &&& self.members == other.members
        &&& self.invite_codes == other.invite_codes
        &&& self.capabilities == other.capabilities
        &&& self.connections == other.connections
        &&& self.project_members == other.project_members
        &&& self.project_chats == other.project_chats
    }
}

impl DbView {
    /// What holds of companies, their owners, capability rows and invite
    /// codes.
    pub open spec fn companies_ok(self) -> bool {
        &&& pairwise(self.companies, other_company())
        &&& every(self.companies, company_allocated(self.next_company_id))
        &&& every(self.companies, owner_recorded(self.members))
        &&& owners_match(self.members, self.companies)
        &&& pairwise(self.capabilities, other_capability())
        &&& every(self.capabilities, capability_allocated(self.next_company_id))
        &&& every(self.companies, equipped(self.capabilities))
        &&& pairwise(self.invite_codes, other_code())
        &&& every(self.invite_codes, usable())
    }

    /// What holds of projects and seats.
    pub open spec fn projects_ok(self) -> bool {
        &&& pairwise(self.project_members, other_seat())
        &&& every(self.project_members, seat_allocated(self.next_project_member_id, self.next_project_id))
        &&& pairwise(self.projects, other_project())
        &&& every(self.projects, project_allocated(self.next_project_id))
        &&& every(self.projects, owner_seated(self.project_members))
    }

    /// The store is well formed.
    pub open spec fn wf(self) -> bool {
        &&& self.people_ok()
        &&& self.companies_ok()
        &&& self.projects_ok()
        &&& self.links_ok()
        &&& self.records_ok()
    }

    /// The tables and id sequences that `projects_ok` speaks of.
    pub open spec fn same_projects(self, other: DbView) -> bool {
        &&& self.projects == other.projects
        &&& self.project_members == other.project_members
        &&& self.next_project_id == other.next_project_id
        &&& self.next_project_member_id == other.next_project_member_id
    }

    /// The tables and id sequences that `companies_ok` speaks of.
    pub open spec fn same_companies(self, other: DbView) -> bool {
        &&& self.companies == other.companies
        &&& self.members == other.members
        &&& self.capabilities == other.capabilities
        &&& self.invite_codes == other.invite_codes
        &&& self.next_company_id == other.next_company_id
    }
}

/// The empty store is well formed.
pub proof fn lemma_empty_wf()
    ensures
        crate::store::empty_db().wf(),
{
}

// ---------------------------------------------------------------------
// Sequences
// ---------------------------------------------------------------------

/// Appending an element keeps `every`.
pub proof fn lemma_every_push<T>(s: Seq<T>, p: spec_fn(T) -> bool, x: T)
    requires
        every(s, p),
        p(x),
    ensures
        every(s.push(x), p),
{
    assert forall|i: int| 0 <= i < s.push(x).len() implies p(#[trigger] s.push(x)[i]) by {
        if i < s.len() {
            assert(s.push(x)[i] == s[i]);
        }
    }
}

/// Appending an element to which every element is related keeps
/// `pairwise`.
pub proof fn lemma_pairwise_push<T>(s: Seq<T>, r: spec_fn(T, T) -> bool, x: T)
    requires
        pairwise(s, r),
        forall|i: int| 0 <= i < s.len() ==> r(#[trigger] s[i], x),
    ensures
        pairwise(s.push(x), r),
{
    let t = s.push(x);
    assert forall|i: int, j: int| 0 <= i < j < t.len() implies r(#[trigger] t[i], #[trigger] t[j]) by {
        assert(t[i] == s[i]);
        if j < s.len() {
            assert(t[j] == s[j]);
        }
    }
}

// ---------------------------------------------------------------------
// Cursors
// ---------------------------------------------------------------------

/// More memberships keep every cursor held.
pub proof fn lemma_cursors_after_member_push(
    accounts: Seq<UserAccountView>,
    members: Seq<CompanyMember>,
    m: CompanyMember,
)
    requires
        every(accounts, cursor_held(members)),
    ensures
        every(accounts, cursor_held(members.push(m))),
{
    assert forall|i: int| 0 <= i < accounts.len() implies cursor_held(members.push(m))(#[trigger] accounts[i]) by {
        let a = accounts[i];
        assert(cursor_held(members)(a));
        if a.active_company_id is Some {
            let p = member_is(a.identity, a.active_company_id->0);
            let k = choose|k: int| 0 <= k < members.len() && p(#[trigger] members[k]);
            assert(members.push(m)[k] == members[k]);
        }
    }
}

/// Selecting a company, or none, for one user keeps every cursor held
/// where the user is a member of the company selected.
pub proof fn lemma_accounts_after_set_active(db: DbView, who: Identity, company_id: Option<u64>)
    requires
        pairwise(db.accounts, other_account()),
        every(db.accounts, cursor_held(db.members)),
        company_id is Some ==> any(db.members, member_is(who, company_id->0)),
    ensures
        pairwise(db.set_active(who, company_id).accounts, other_account()),
        every(db.set_active(who, company_id).accounts, cursor_held(db.members)),
        db.set_active(who, company_id) == (DbView { accounts: db.set_active(who, company_id).accounts, ..db }),
{
    let after = db.set_active(who, company_id).accounts;
    let g = |a: UserAccountView|
        if account_is(who)(a) {
            (|a: UserAccountView| UserAccountView { active_company_id: company_id, ..a })(a)
        } else {
            a
        };
    assert(after =~= db.accounts.map_values(g));
    assert forall|i: int, j: int| 0 <= i < j < after.len() implies other_account()(
        #[trigger] after[i],
        #[trigger] after[j],
    ) by {
        assert(other_account()(db.accounts[i], db.accounts[j]));
    }
    assert forall|i: int| 0 <= i < after.len() implies cursor_held(db.members)(#[trigger] after[i]) by {
        assert(cursor_held(db.members)(db.accounts[i]));
    }
}

/// Deleting the membership with a given id, where ids are unique, keeps
/// held every cursor but that of the membership's user on its company.
pub proof fn lemma_cursors_after_member_drop(
    accounts: Seq<UserAccountView>,
    members: Seq<CompanyMember>,
    gone: CompanyMember,
)
    requires
        pairwise(members, other_member()),
        members.contains(gone),
        every(accounts, cursor_held(members)),
    ensures
        forall|i: int|
            0 <= i < accounts.len() && !((#[trigger] accounts[i]).identity == gone.identity
                && accounts[i].active_company_id == Some(gone.company_id)) ==> cursor_held(
                members.filter(not(member_id_is(gone.id))),
            )(accounts[i]),
        !any(members.filter(not(member_id_is(gone.id))), member_is(gone.identity, gone.company_id)),
{
    let kept = members.filter(not(member_id_is(gone.id)));
    lemma_filter_exact(members, not(member_id_is(gone.id)));
    let g = choose|g: int| 0 <= g < members.len() && members[g] == gone;
    assert forall|i: int|
        0 <= i < accounts.len() && !((#[trigger] accounts[i]).identity == gone.identity
            && accounts[i].active_company_id == Some(gone.company_id)) implies cursor_held(kept)(accounts[i]) by {
        let a = accounts[i];
        assert(cursor_held(members)(a));
        if a.active_company_id is Some {
            let p = member_is(a.identity, a.active_company_id->0);
            let k = choose|k: int| 0 <= k < members.len() && p(#[trigger] members[k]);
            assert(members[k].id != gone.id) by {
                if k < g {
                    assert(other_member()(members[k], members[g]));
                } else if g < k {
                    assert(other_member()(members[g], members[k]));
                }
            }
            assert(members.contains(members[k]));
            assert(kept.contains(members[k]));
            let k2 = choose|k2: int| 0 <= k2 < kept.len() && kept[k2] == members[k];
            assert(p(kept[k2]));
        }
    }
    if any(kept, member_is(gone.identity, gone.company_id)) {
        let k = choose|k: int| 0 <= k < kept.len() && member_is(gone.identity, gone.company_id)(#[trigger] kept[k]);
        assert(kept.contains(kept[k]));
        assert(members.contains(kept[k]));
        let m = choose|m: int| 0 <= m < members.len() && members[m] == kept[k];
        assert(not(member_id_is(gone.id))(kept[k]));
        if m < g {
            assert(other_member()(members[m], members[g]));
        } else if g < m {
            assert(other_member()(members[g], members[m]));
        }
    }
}

} // verus!
