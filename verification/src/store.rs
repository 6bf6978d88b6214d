//! The entity store: keyed tables held in memory, with point lookup, scan,
//! insert, update and delete. Each operation is stated over the store's view.

use vstd::prelude::*;
use vstd::string::*;
use crate::model::{
    DbView, accepted_in, account_is, capability_of, code_is, company_is, connection_is, connects,
    member_in, member_is, notification_is, online_is, other_accepted_in, owned_by, project_is,
    recipient_in, seat_is, seat_of, seat_with, slug_is, touches, used_is,
};
use crate::roles::{Identity, ProjectMemberStatus, UserRole, level_of, role_level};
use crate::rows::{
    Capability, Company, CompanyMember, Connection, ConnectionChat, ConnectionView, InviteCode,
    Notification, OnlineUser, Project, ProjectChat, ProjectMember, ProjectView, UsedInviteCode,
    UserAccount, same_text, views,
};
use crate::scan::{find_where, select_where};
use crate::seqs::lemma_filter_members;

verus! {

/// The tables and the id sequences. Each sequence starts at 1 and hands
/// out each id once.
#[derive(Clone, Debug)]
pub struct Database {
    pub online_users: Vec<OnlineUser>,
    pub accounts: Vec<UserAccount>,
    pub members: Vec<CompanyMember>,
    pub companies: Vec<Company>,
    pub invite_codes: Vec<InviteCode>,
    pub capabilities: Vec<Capability>,
    pub connections: Vec<Connection>,
    pub connection_chats: Vec<ConnectionChat>,
    pub used_invite_codes: Vec<UsedInviteCode>,
    pub notifications: Vec<Notification>,
    pub projects: Vec<Project>,
    pub project_members: Vec<ProjectMember>,
    pub project_chats: Vec<ProjectChat>,
    pub next_member_id: u64,
    pub next_company_id: u64,
    pub next_connection_id: u64,
    pub next_connection_chat_id: u64,
    pub next_used_invite_id: u64,
    pub next_notification_id: u64,
    pub next_project_id: u64,
    pub next_project_member_id: u64,
    pub next_project_chat_id: u64,
}

impl View for Database {
    type V = DbView;

    open spec fn view(&self) -> DbView {
        DbView {
            online_users: views(self.online_users@),
            accounts: views(self.accounts@),
            members: views(self.members@),
            companies: views(self.companies@),
            invite_codes: views(self.invite_codes@),
            capabilities: views(self.capabilities@),
            connections: views(self.connections@),
            connection_chats: views(self.connection_chats@),
            used_invite_codes: views(self.used_invite_codes@),
            notifications: views(self.notifications@),
            projects: views(self.projects@),
            project_members: views(self.project_members@),
            project_chats: views(self.project_chats@),
            next_member_id: self.next_member_id,
            next_company_id: self.next_company_id,
            next_connection_id: self.next_connection_id,
            next_connection_chat_id: self.next_connection_chat_id,
            next_used_invite_id: self.next_used_invite_id,
            next_notification_id: self.next_notification_id,
            next_project_id: self.next_project_id,
            next_project_member_id: self.next_project_member_id,
            next_project_chat_id: self.next_project_chat_id,
        }
    }
}

/// The store with no rows, each id sequence at 1.
pub open spec fn empty_db() -> DbView {
    DbView {
        online_users: Seq::empty(),
        accounts: Seq::empty(),
        members: Seq::empty(),
        companies: Seq::empty(),
        invite_codes: Seq::empty(),
        capabilities: Seq::empty(),
        connections: Seq::empty(),
        connection_chats: Seq::empty(),
        used_invite_codes: Seq::empty(),
        notifications: Seq::empty(),
        projects: Seq::empty(),
        project_members: Seq::empty(),
        project_chats: Seq::empty(),
        next_member_id: 1,
        next_company_id: 1,
        next_connection_id: 1,
        next_connection_chat_id: 1,
        next_used_invite_id: 1,
        next_notification_id: 1,
        next_project_id: 1,
        next_project_member_id: 1,
        next_project_chat_id: 1,
    }
}

impl Database {
    pub fn new() -> (db: Database)
        ensures
            db@ == empty_db(),
            db@.wf(),
    {
        proof {
            crate::soundness::lemma_empty_wf();
        }
        let db = Database {
            online_users: Vec::new(),
            accounts: Vec::new(),
            members: Vec::new(),
            companies: Vec::new(),
            invite_codes: Vec::new(),
            capabilities: Vec::new(),
            connections: Vec::new(),
            connection_chats: Vec::new(),
            used_invite_codes: Vec::new(),
            notifications: Vec::new(),
            projects: Vec::new(),
            project_members: Vec::new(),
            project_chats: Vec::new(),
            next_member_id: 1,
            next_company_id: 1,
            next_connection_id: 1,
            next_connection_chat_id: 1,
            next_used_invite_id: 1,
            next_notification_id: 1,
            next_project_id: 1,
            next_project_member_id: 1,
            next_project_chat_id: 1,
        };
        assert(db@ =~= empty_db());
        db
    }

    // -----------------------------------------------------------------
    // Point lookups
    // -----------------------------------------------------------------

    pub fn online_index(&self, who: Identity) -> (found: Option<usize>)
        ensures
            match found {
                Some(i) => i < self.online_users.len() && self@.online(who) == Some(self.online_users[i as int]@),
                None => self@.online(who) is None,
            },
    {
        let test = |u: &OnlineUser| -> (b: bool)
            ensures
                b == (u.identity == who),
            { u.identity == who };
        let found = find_where(&self.online_users, test, Ghost(online_is(who)));
        found
    }

    pub fn account_index(&self, who: Identity) -> (found: Option<usize>)
        ensures
            match found {
                Some(i) => i < self.accounts.len() && self@.account(who) == Some(self.accounts[i as int]@),
                None => self@.account(who) is None,
            },
    {
        let test = |a: &UserAccount| -> (b: bool)
            ensures
                b == (a.identity == who),
            { a.identity == who };
        let found = find_where(&self.accounts, test, Ghost(account_is(who)));
        found
    }

    pub fn company_index(&self, id: u64) -> (found: Option<usize>)
        ensures
            match found {
                Some(i) => i < self.companies.len() && self@.company(id) == Some(self.companies[i as int]@),
                None => self@.company(id) is None,
            },
    {
        let test = |c: &Company| -> (b: bool)
            ensures
                b == (c.id == id),
            { c.id == id };
        let found = find_where(&self.companies, test, Ghost(company_is(id)));
        found
    }

    pub fn company_index_by_slug(&self, slug: &String) -> (found: Option<usize>)
        ensures
            match found {
                Some(i) => i < self.companies.len() && self@.company_by_slug(slug@) == Some(self.companies[i as int]@),
                None => self@.company_by_slug(slug@) is None,
            },
    {
        let test = |c: &Company| -> (b: bool)
            ensures
                b == (c.slug@ == slug@),
            { same_text(&c.slug, slug) };
        let found = find_where(&self.companies, test, Ghost(slug_is(slug@)));
        found
    }

    pub fn membership(&self, who: Identity, company_id: u64) -> (found: Option<CompanyMember>)
        ensures
            found == self@.membership(who, company_id),
    {
        let test = |m: &CompanyMember| -> (b: bool)
            ensures
                b == (m.identity == who && m.company_id == company_id),
            { m.identity == who && m.company_id == company_id };
        let found = find_where(&self.members, test, Ghost(member_is(who, company_id)));
        match found {
            Some(i) => Some(self.members[i]),
            None => None,
        }
    }

    /// The company's name; empty where the company does not exist.
    pub fn company_name(&self, id: u64) -> (name: String)
        ensures
            name@ == self@.company_name(id),
    {
        match self.company_index(id) {
            Some(i) => self.companies[i].name.clone(),
            None => String::new(),
        }
    }

    /// The company's name; "Unknown" where the company does not exist.
    pub fn company_label(&self, id: u64) -> (name: String)
        ensures
            name@ == self@.company_label(id),
    {
        match self.company_index(id) {
            Some(i) => self.companies[i].name.clone(),
            None => String::from_str("Unknown"),
        }
    }

    /// Whether every id sequence can still serve one procedure.
    pub fn has_room(&self) -> (room: bool)
        ensures
            room == self@.has_room(),
    {
        let seats: u128 = self.project_members.len() as u128 + 2;
        let members: u128 = self.members.len() as u128 + 1;
        if seats > 0xffff_ffff_ffff_ffff || members > 0xffff_ffff_ffff_ffff {
            assert(seats * members > 0xffff_ffff_ffff_ffff) by (nonlinear_arith)
                requires
                    seats > 0xffff_ffff_ffff_ffff || members > 0xffff_ffff_ffff_ffff,
                    seats >= 2,
                    members >= 1,
            ;
            return false;
        }
        assert(seats * members <= 0xffff_ffff_ffff_ffff * 0xffff_ffff_ffff_ffff) by (nonlinear_arith)
            requires
                0 <= seats <= 0xffff_ffff_ffff_ffff,
                0 <= members <= 0xffff_ffff_ffff_ffff,
        ;
        let fan_out: u128 = seats * members;
        self.next_member_id < u64::MAX && self.next_company_id < u64::MAX && self.next_connection_id < u64::MAX
            && self.next_connection_chat_id < u64::MAX && self.next_used_invite_id < u64::MAX
            && self.next_project_id < u64::MAX && self.next_project_member_id < u64::MAX
            && self.next_project_chat_id < u64::MAX && self.next_notification_id as u128 + fan_out
            <= u64::MAX as u128
    }

    /// The company of the first membership of `who` whose company exists.
    pub fn next_home(&self, who: Identity) -> (home: Option<u64>)
        ensures
            home == self@.next_home(who),
    {
        let ghost p = |m: CompanyMember| m.identity == who && self@.company(m.company_id) is Some;
        let test = |m: &CompanyMember| -> (b: bool)
            ensures
                b == (m.identity == who && self@.company(m.company_id) is Some),
            { m.identity == who && self.company_index(m.company_id).is_some() };
        match find_where(&self.members, test, Ghost(p)) {
            Some(i) => Some(self.members[i].company_id),
            None => None,
        }
    }

    pub fn invite_index(&self, code: &String) -> (found: Option<usize>)
        ensures
            match found {
                Some(i) => i < self.invite_codes.len() && self@.invite(code@) == Some(self.invite_codes[i as int]@),
                None => self@.invite(code@) is None,
            },
    {
        let test = |c: &InviteCode| -> (b: bool)
            ensures
                b == (c.code@ == code@),
            { same_text(&c.code, code) };
        find_where(&self.invite_codes, test, Ghost(code_is(code@)))
    }

    pub fn code_used(&self, who: Identity, code: &String) -> (used: bool)
        ensures
            used == self@.code_used(who, code@),
    {
        let test = |u: &UsedInviteCode| -> (b: bool)
            ensures
                b == (u.identity == who && u.code@ == code@),
            { u.identity == who && same_text(&u.code, code) };
        find_where(&self.used_invite_codes, test, Ghost(used_is(who, code@))).is_some()
    }

    pub fn capability(&self, company_id: u64) -> (found: Option<Capability>)
        ensures
            found == self@.capability(company_id),
    {
        let test = |c: &Capability| -> (b: bool)
            ensures
                b == (c.company_id == company_id),
            { c.company_id == company_id };
        match find_where(&self.capabilities, test, Ghost(capability_of(company_id))) {
            Some(i) => Some(self.capabilities[i]),
            None => None,
        }
    }

    pub fn connection_index(&self, id: u64) -> (found: Option<usize>)
        ensures
            match found {
                Some(i) => i < self.connections.len() && self@.connection(id) == Some(self.connections[i as int]@),
                None => self@.connection(id) is None,
            },
    {
        let test = |c: &Connection| -> (b: bool)
            ensures
                b == (c.id == id),
            { c.id == id };
        find_where(&self.connections, test, Ghost(connection_is(id)))
    }

    /// Where the connection between two companies stands, whichever is
    /// named first.
    pub fn connection_index_between(&self, x: u64, y: u64) -> (found: Option<usize>)
        ensures
            match found {
                Some(i) => i < self.connections.len() && self@.connection_between(x, y) == Some(
                    self.connections[i as int]@,
                ),
                None => self@.connection_between(x, y) is None,
            },
    {
        let (lo, hi) = if x <= y {
            (x, y)
        } else {
            (y, x)
        };
        let test = |c: &Connection| -> (b: bool)
            ensures
                b == (c.company_a == lo && c.company_b == hi),
            { c.company_a == lo && c.company_b == hi };
        find_where(&self.connections, test, Ghost(connects(x, y)))
    }

    pub fn notification_index(&self, id: u64) -> (found: Option<usize>)
        ensures
            match found {
                Some(i) => i < self.notifications.len() && self@.notification(id) == Some(
                    self.notifications[i as int]@,
                ),
                None => self@.notification(id) is None,
            },
    {
        let test = |n: &Notification| -> (b: bool)
            ensures
                b == (n.id == id),
            { n.id == id };
        find_where(&self.notifications, test, Ghost(notification_is(id)))
    }

    pub fn project_index(&self, id: u64) -> (found: Option<usize>)
        ensures
            match found {
                Some(i) => i < self.projects.len() && self@.project(id) == Some(self.projects[i as int]@),
                None => self@.project(id) is None,
            },
    {
        let test = |p: &Project| -> (b: bool)
            ensures
                b == (p.id == id),
            { p.id == id };
        find_where(&self.projects, test, Ghost(project_is(id)))
    }

    pub fn seat(&self, project_id: u64, company_id: u64) -> (found: Option<ProjectMember>)
        ensures
            found == self@.seat(project_id, company_id),
    {
        let test = |m: &ProjectMember| -> (b: bool)
            ensures
                b == (m.project_id == project_id && m.company_id == company_id),
            { m.project_id == project_id && m.company_id == company_id };
        match find_where(&self.project_members, test, Ghost(seat_is(project_id, company_id))) {
            Some(i) => Some(self.project_members[i]),
            None => None,
        }
    }

    pub fn seat_with(&self, project_id: u64, company_id: u64, status: ProjectMemberStatus) -> (found: Option<ProjectMember>)
        ensures
            found == self@.seat_with(project_id, company_id, status),
    {
        let test = |m: &ProjectMember| -> (b: bool)
            ensures
                b == (m.project_id == project_id && m.company_id == company_id && m.status == status),
            { m.project_id == project_id && m.company_id == company_id && m.status == status };
        match find_where(&self.project_members, test, Ghost(seat_with(project_id, company_id, status))) {
            Some(i) => Some(self.project_members[i]),
            None => None,
        }
    }

    pub fn has_accepted(&self, project_id: u64) -> (some: bool)
        ensures
            some == self@.has_accepted(project_id),
    {
        let test = |m: &ProjectMember| -> (b: bool)
            ensures
                b == (m.project_id == project_id && m.status == ProjectMemberStatus::Accepted),
            { m.project_id == project_id && m.status == ProjectMemberStatus::Accepted };
        find_where(&self.project_members, test, Ghost(accepted_in(project_id))).is_some()
    }

    /// The companies with an accepted seat in the project, but for `skip_a`
    /// and `skip_b`.
    pub fn other_accepted(&self, project_id: u64, skip_a: u64, skip_b: u64) -> (companies: Vec<u64>)
        ensures
            companies@ == self@.other_accepted(project_id, skip_a, skip_b),
            companies@.len() <= self@.project_members.len(),
    {
        let test = |m: &ProjectMember| -> (b: bool)
            ensures
                b == (m.project_id == project_id && m.status == ProjectMemberStatus::Accepted && m.company_id
                    != skip_a && m.company_id != skip_b),
            {
                m.project_id == project_id && m.status == ProjectMemberStatus::Accepted && m.company_id != skip_a
                    && m.company_id != skip_b
            };
        let pick = |m: &ProjectMember| -> (k: u64)
            ensures
                k == m.company_id,
            { m.company_id };
        proof {
            lemma_filter_members(self@.project_members, other_accepted_in(project_id, skip_a, skip_b));
        }
        select_where(
            &self.project_members,
            test,
            pick,
            Ghost(other_accepted_in(project_id, skip_a, skip_b)),
            Ghost(|m: ProjectMember| m.company_id),
        )
    }

    /// Who is notified when the company's members of at least `min_role`
    /// are addressed.
    pub fn recipients(&self, company_id: u64, min_role: UserRole, exclude: Option<Identity>) -> (who: Vec<Identity>)
        ensures
            who@ == self@.recipients(company_id, min_role, exclude),
            who@.len() <= self@.members.len(),
    {
        let test = |m: &CompanyMember| -> (b: bool)
            ensures
                b == (m.company_id == company_id && level_of(m.role) >= level_of(min_role) && exclude != Some(
                    m.identity,
                )),
            {
                let excluded = match exclude {
                    Some(x) => x == m.identity,
                    None => false,
                };
                m.company_id == company_id && role_level(m.role) >= role_level(min_role) && !excluded
            };
        let pick = |m: &CompanyMember| -> (k: Identity)
            ensures
                k == m.identity,
            { m.identity };
        proof {
            lemma_filter_members(self@.members, recipient_in(company_id, min_role, exclude));
        }
        select_where(
            &self.members,
            test,
            pick,
            Ghost(recipient_in(company_id, min_role, exclude)),
            Ghost(|m: CompanyMember| m.identity),
        )
    }

    /// The identities with a membership of the company.
    pub fn member_identities(&self, company_id: u64) -> (who: Vec<Identity>)
        ensures
            who@ == self@.member_identities(company_id),
    {
        let test = |m: &CompanyMember| -> (b: bool)
            ensures
                b == (m.company_id == company_id),
            { m.company_id == company_id };
        let pick = |m: &CompanyMember| -> (k: Identity)
            ensures
                k == m.identity,
            { m.identity };
        select_where(&self.members, test, pick, Ghost(member_in(company_id)), Ghost(|m: CompanyMember| m.identity))
    }

    /// The ids of the connections with the company at either end.
    pub fn connection_ids_touching(&self, company_id: u64) -> (ids: Vec<u64>)
        ensures
            ids@ == self@.connection_ids_touching(company_id),
    {
        let test = |c: &Connection| -> (b: bool)
            ensures
                b == (c.company_a == company_id || c.company_b == company_id),
            { c.company_a == company_id || c.company_b == company_id };
        let pick = |c: &Connection| -> (k: u64)
            ensures
                k == c.id,
            { c.id };
        select_where(&self.connections, test, pick, Ghost(touches(company_id)), Ghost(|c: ConnectionView| c.id))
    }

    /// The ids of the projects that the company owns.
    pub fn owned_project_ids(&self, company_id: u64) -> (ids: Vec<u64>)
        ensures
            ids@ == self@.owned_project_ids(company_id),
    {
        let test = |p: &Project| -> (b: bool)
            ensures
                b == (p.owner_company_id == company_id),
            { p.owner_company_id == company_id };
        let pick = |p: &Project| -> (k: u64)
            ensures
                k == p.id,
            { p.id };
        select_where(&self.projects, test, pick, Ghost(owned_by(company_id)), Ghost(|p: ProjectView| p.id))
    }

    /// The projects in which the company has a seat, one entry per seat.
    pub fn seat_project_ids(&self, company_id: u64) -> (ids: Vec<u64>)
        ensures
            ids@ == self@.seat_project_ids(company_id),
    {
        let test = |m: &ProjectMember| -> (b: bool)
            ensures
                b == (m.company_id == company_id),
            { m.company_id == company_id };
        let pick = |m: &ProjectMember| -> (k: u64)
            ensures
                k == m.project_id,
            { m.project_id };
        select_where(
            &self.project_members,
            test,
            pick,
            Ghost(seat_of(company_id)),
            Ghost(|m: ProjectMember| m.project_id),
        )
    }
}

} // verus!
