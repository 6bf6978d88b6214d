//! Each procedure keeps what holds of accounts, memberships, invite codes
//! and connections.

use vstd::prelude::*;
use crate::accounts::{
    consumed, create_account_spec, create_company_spec, delete_invite_code_spec,
    generate_invite_code_spec, join_with_code_spec, update_profile_spec,
};
use crate::authority::lemma_resolve_ok;
use crate::cascade::delete_company_spec;
use crate::connections::{
    accept_connection_spec, block_company_spec, cancel_request_spec, decline_connection_spec,
    disconnect_company_spec, request_connection_spec, send_connection_chat_spec,
    unblock_company_spec,
};
use crate::context::CtxView;
use crate::inbox::{
    clear_notifications_spec, mark_all_notifications_read_spec, mark_notification_read_spec,
};
use crate::model::{
    DbView, account_is, capability_of, code_is, company_is, connection_is, connects, invite_for,
    member_id_is, member_in, member_is, not, notification_about, ordered, touches,
};
use crate::projects::{
    accept_project_invite_spec, create_project_spec, decline_project_invite_spec,
    delete_project_spec, invite_to_project_spec, kick_from_project_spec, leave_project_spec,
    send_project_chat_spec,
};
use crate::roles::{
    ConnectionStatus, Identity, NotificationType, ProjectMemberStatus, Timestamp, UserRole,
};
use crate::rows::{CompanyMember, ConnectionView, InviteCodeView, UserAccountView};
use crate::seqs::{
    any, every, first_index, lemma_every_filter, lemma_filter_exact, lemma_first_index,
    lemma_pairwise_filter, none_match, pairwise,
};
use crate::soundness::{
    connection_sound, cursor_held, invite_allocated, lemma_accounts_after_set_active,
    lemma_cursors_after_member_drop, lemma_cursors_after_member_push, lemma_every_push,
    lemma_pairwise_push, member_allocated, other_account, other_connection, other_member,
};
use crate::team::{
    add_colleague_by_identity_spec, leave_company_spec, remove_colleague_spec,
    switch_active_company_spec, transfer_ownership_spec, update_capabilities_spec,
    update_company_profile_spec, update_user_role_spec,
};

verus! {

/// A membership that a lookup finds is a row of the store.
pub proof fn lemma_member_found(db: DbView, who: Identity, company_id: u64)
    requires
        db.people_ok(),
    ensures
        match db.membership(who, company_id) {
            Some(m) => {
                &&& db.members.contains(m)
                &&& m.identity == who
                &&& m.company_id == company_id
                &&& m.id < db.next_member_id
                &&& company_id < db.next_company_id
                &&& any(db.members, member_is(who, company_id))
            },
            None => none_match(db.members, member_is(who, company_id)),
        },
{
    lemma_first_index(db.members, member_is(who, company_id));
    if let Some(i) = first_index(db.members, member_is(who, company_id)) {
        assert(member_allocated(db.next_member_id, db.next_company_id)(db.members[i]));
    }
}

/// Notifications change neither accounts, memberships, invite codes nor
/// connections.
pub proof fn lemma_notify_company_role_core(
    db: DbView,
    company_id: u64,
    min_role: UserRole,
    exclude: Option<Identity>,
    kind: NotificationType,
    title: Seq<char>,
    body: Seq<char>,
    now: Timestamp,
)
    ensures
        db.same_core(db.notify_company_role(company_id, min_role, exclude, kind, title, body, now)),
        db.notify_company_role(company_id, min_role, exclude, kind, title, body, now).companies == db.companies,
        db.notify_company_role(company_id, min_role, exclude, kind, title, body, now).projects == db.projects,
        db.notify_company_role(company_id, min_role, exclude, kind, title, body, now).project_members
            == db.project_members,
        db.notify_company_role(company_id, min_role, exclude, kind, title, body, now).project_chats
            == db.project_chats,
        ({
            let after = db.notify_company_role(company_id, min_role, exclude, kind, title, body, now);
            after == (DbView {
                notifications: after.notifications,
                next_notification_id: after.next_notification_id,
                ..db
            })
        }),
{
}

pub proof fn lemma_notify_companies_core(
    db: DbView,
    companies: Seq<u64>,
    min_role: UserRole,
    kind: NotificationType,
    title: Seq<char>,
    body: Seq<char>,
    now: Timestamp,
)
    ensures
        db.same_core(db.notify_companies(companies, min_role, kind, title, body, now)),
        db.notify_companies(companies, min_role, kind, title, body, now).companies == db.companies,
        db.notify_companies(companies, min_role, kind, title, body, now).projects == db.projects,
        db.notify_companies(companies, min_role, kind, title, body, now).project_members == db.project_members,
        db.notify_companies(companies, min_role, kind, title, body, now).project_chats == db.project_chats,
        ({
            let after = db.notify_companies(companies, min_role, kind, title, body, now);
            after == (DbView {
                notifications: after.notifications,
                next_notification_id: after.next_notification_id,
                ..db
            })
        }),
    decreases companies.len(),
{
    if companies.len() > 0 {
        lemma_notify_companies_core(db, companies.drop_last(), min_role, kind, title, body, now);
        lemma_notify_company_role_core(
            db.notify_companies(companies.drop_last(), min_role, kind, title, body, now),
            companies.last(),
            min_role,
            None,
            kind,
            title,
            body,
            now,
        );
    }
}

// ---------------------------------------------------------------------
// Memberships
// ---------------------------------------------------------------------

/// A membership more, of a user who has none of the company yet.
pub proof fn lemma_add_member_wf(db: DbView, who: Identity, company_id: u64, role: UserRole, now: Timestamp)
    requires
        db.people_ok(),
        db.membership(who, company_id) is None,
        company_id < db.next_company_id,
        db.next_member_id < u64::MAX,
    ensures
        db.add_member(who, company_id, role, now).people_ok(),
        any(db.add_member(who, company_id, role, now).members, member_is(who, company_id)),
{
    let m = CompanyMember { id: db.next_member_id, identity: who, company_id, role, joined_at: now };
    let after = db.add_member(who, company_id, role, now);
    lemma_member_found(db, who, company_id);
    assert forall|i: int| 0 <= i < db.members.len() implies other_member()(#[trigger] db.members[i], m) by {
        assert(member_allocated(db.next_member_id, db.next_company_id)(db.members[i]));
        assert(!member_is(who, company_id)(db.members[i]));
    }
    lemma_pairwise_push(db.members, other_member(), m);
    assert forall|i: int| 0 <= i < after.members.len() implies member_allocated(
        after.next_member_id,
        after.next_company_id,
    )(#[trigger] after.members[i]) by {
        if i < db.members.len() {
            assert(member_allocated(db.next_member_id, db.next_company_id)(db.members[i]));
        }
    }
    lemma_cursors_after_member_push(db.accounts, db.members, m);
    assert(member_is(who, company_id)(after.members[db.members.len() as int]));
}

/// A role changed keeps the store well formed.
pub proof fn lemma_set_role_wf(db: DbView, id: u64, role: UserRole)
    requires
        db.people_ok(),
    ensures
        db.set_role(id, role).people_ok(),
        db.set_role(id, role) == (DbView { members: db.set_role(id, role).members, ..db }),
        forall|who: Identity, company_id: u64|
            any(db.members, member_is(who, company_id)) ==> #[trigger] any(
                db.set_role(id, role).members,
                member_is(who, company_id),
            ),
{
    let after = db.set_role(id, role).members;
    assert(after.len() == db.members.len());
    assert forall|i: int| 0 <= i < after.len() implies (#[trigger] after[i]).id == db.members[i].id
        && after[i].identity == db.members[i].identity && after[i].company_id == db.members[i].company_id by {}
    assert forall|i: int, j: int| 0 <= i < j < after.len() implies other_member()(
        #[trigger] after[i],
        #[trigger] after[j],
    ) by {
        assert(other_member()(db.members[i], db.members[j]));
        assert(after[i].id == db.members[i].id);
        assert(after[j].id == db.members[j].id);
    }
    assert forall|i: int| 0 <= i < after.len() implies member_allocated(db.next_member_id, db.next_company_id)(
        #[trigger] after[i],
    ) by {
        assert(member_allocated(db.next_member_id, db.next_company_id)(db.members[i]));
        assert(after[i].id == db.members[i].id);
    }
    assert forall|who: Identity, company_id: u64| any(db.members, member_is(who, company_id)) implies #[trigger] any(
        after,
        member_is(who, company_id),
    ) by {
        let k = choose|k: int| 0 <= k < db.members.len() && member_is(who, company_id)(#[trigger] db.members[k]);
        assert(after[k].id == db.members[k].id);
        assert(member_is(who, company_id)(after[k]));
    }
    assert forall|i: int| 0 <= i < db.accounts.len() implies cursor_held(after)(#[trigger] db.accounts[i]) by {
        let a = db.accounts[i];
        assert(cursor_held(db.members)(a));
        if a.active_company_id is Some {
            assert(any(after, member_is(a.identity, a.active_company_id->0)));
        }
    }
}

/// The company that `next_home` gives is one of the user's own.
pub proof fn lemma_next_home_is_held(db: DbView, who: Identity)
    ensures
        match db.next_home(who) {
            Some(company_id) => any(db.members, member_is(who, company_id)),
            None => true,
        },
{
    let p = |m: CompanyMember| m.identity == who && db.company(m.company_id) is Some;
    lemma_first_index(db.members, p);
    if let Some(i) = first_index(db.members, p) {
        assert(member_is(who, db.members[i].company_id)(db.members[i]));
    }
}

/// Reassigning a user's active company keeps the store well formed, and
/// afterwards the user does not select the company given unless they are
/// a member of it.
pub proof fn lemma_reassign_wf(db: DbView, who: Identity, removed_company_id: u64)
    requires
        pairwise(db.accounts, other_account()),
        forall|i: int|
            0 <= i < db.accounts.len() && !((#[trigger] db.accounts[i]).identity == who
                && db.accounts[i].active_company_id == Some(removed_company_id)) ==> cursor_held(db.members)(
                db.accounts[i],
            ),
    ensures
        pairwise(db.reassign_active_company(who, removed_company_id).accounts, other_account()),
        every(db.reassign_active_company(who, removed_company_id).accounts, cursor_held(db.members)),
        db.reassign_active_company(who, removed_company_id) == (DbView {
            accounts: db.reassign_active_company(who, removed_company_id).accounts,
            ..db
        }),
{
    let after = db.reassign_active_company(who, removed_company_id);
    lemma_first_index(db.accounts, account_is(who));
    lemma_next_home_is_held(db, who);
    match first_index(db.accounts, account_is(who)) {
        Some(k) => {
            if db.accounts[k].active_company_id == Some(removed_company_id) {
                assert(after == db.set_active(who, db.next_home(who)));
                assert(after.accounts.len() == db.accounts.len());
                assert forall|i: int, j: int| 0 <= i < j < after.accounts.len() implies other_account()(
                    #[trigger] after.accounts[i],
                    #[trigger] after.accounts[j],
                ) by {
                    assert(other_account()(db.accounts[i], db.accounts[j]));
                }
                assert forall|i: int| 0 <= i < after.accounts.len() implies cursor_held(db.members)(
                    #[trigger] after.accounts[i],
                ) by {
                    if db.accounts[i].identity != who {
                        assert(cursor_held(db.members)(db.accounts[i]));
                    }
                }
            } else {
                assert forall|i: int| 0 <= i < db.accounts.len() implies cursor_held(db.members)(
                    #[trigger] db.accounts[i],
                ) by {
                    if db.accounts[i].identity == who {
                        if i < k {
                            assert(other_account()(db.accounts[i], db.accounts[k]));
                        } else if k < i {
                            assert(other_account()(db.accounts[k], db.accounts[i]));
                        }
                    }
                }
            }
        },
        None => {
            assert forall|i: int| 0 <= i < db.accounts.len() implies cursor_held(db.members)(
                #[trigger] db.accounts[i],
            ) by {
                assert(!account_is(who)(db.accounts[i]));
            }
        },
    }
}

/// A membership deleted and its user's active company reassigned.
pub proof fn lemma_drop_member_wf(db: DbView, gone: CompanyMember)
    requires
        db.people_ok(),
        db.members.contains(gone),
    ensures
        db.drop_member(gone.id).reassign_active_company(gone.identity, gone.company_id).people_ok(),
        db.same_core_but_members_and_accounts(
            db.drop_member(gone.id).reassign_active_company(gone.identity, gone.company_id),
        ),
{
    let dropped = db.drop_member(gone.id);
    lemma_pairwise_filter(db.members, not(member_id_is(gone.id)), other_member());
    lemma_every_filter(
        db.members,
        not(member_id_is(gone.id)),
        member_allocated(db.next_member_id, db.next_company_id),
    );
    lemma_cursors_after_member_drop(db.accounts, db.members, gone);
    lemma_reassign_wf(dropped, gone.identity, gone.company_id);
}

impl DbView {
    /// Connections, invite codes and id sequences are those of `other`.
    pub open spec fn same_core_but_members_and_accounts(self, other: DbView) -> bool {
        &&& self.invite_codes == other.invite_codes
        &&& self.connections == other.connections
        &&& self.next_member_id == other.next_member_id
        &&& self.next_company_id == other.next_company_id
        &&& self.next_connection_id == other.next_connection_id
        &&& self.notifications == other.notifications
        &&& self.next_notification_id == other.next_notification_id
    }
}

// ---------------------------------------------------------------------
// Sign-up, founding and joining
// ---------------------------------------------------------------------

pub proof fn lemma_create_account_keeps_people(
    c: CtxView,
    full_name: Seq<char>,
    nickname: Seq<char>,
    email: Seq<char>,
)
    requires
        c.db.people_ok(),
    ensures
        create_account_spec(c, full_name, nickname, email) matches Ok(db) ==> db.people_ok(),
        create_account_spec(c, full_name, nickname, email) matches Ok(db) ==> c.db.same_companies(db),
        create_account_spec(c, full_name, nickname, email) matches Ok(db) ==> c.db.same_projects(db),
        create_account_spec(c, full_name, nickname, email) matches Ok(db) ==> c.db.same_links(db),
        create_account_spec(c, full_name, nickname, email) matches Ok(db) ==> c.db.same_records(db),
{
    if let Ok(db) = create_account_spec(c, full_name, nickname, email) {
        lemma_first_index(c.db.accounts, account_is(c.sender));
        let row = db.accounts[c.db.accounts.len() as int];
        assert forall|i: int| 0 <= i < c.db.accounts.len() implies other_account()(#[trigger] c.db.accounts[i], row) by {
            assert(!account_is(c.sender)(c.db.accounts[i]));
        }
        lemma_pairwise_push(c.db.accounts, other_account(), row);
        lemma_every_push(c.db.accounts, cursor_held(c.db.members), row);
    }
}

pub proof fn lemma_update_profile_keeps_people(c: CtxView, nickname: Seq<char>, email: Seq<char>)
    requires
        c.db.people_ok(),
    ensures
        update_profile_spec(c, nickname, email) matches Ok(db) ==> db.people_ok(),
        update_profile_spec(c, nickname, email) matches Ok(db) ==> c.db.same_companies(db),
        update_profile_spec(c, nickname, email) matches Ok(db) ==> c.db.same_projects(db),
        update_profile_spec(c, nickname, email) matches Ok(db) ==> c.db.same_links(db),
        update_profile_spec(c, nickname, email) matches Ok(db) ==> c.db.same_records(db),
{
    if let Ok(db) = update_profile_spec(c, nickname, email) {
        assert(db.accounts.len() == c.db.accounts.len());
        assert forall|i: int, j: int| 0 <= i < j < db.accounts.len() implies other_account()(
            #[trigger] db.accounts[i],
            #[trigger] db.accounts[j],
        ) by {
            assert(other_account()(c.db.accounts[i], c.db.accounts[j]));
        }
        assert forall|i: int| 0 <= i < db.accounts.len() implies cursor_held(db.members)(#[trigger] db.accounts[i]) by {
            assert(cursor_held(c.db.members)(c.db.accounts[i]));
        }
    }
}

pub proof fn lemma_create_company_keeps_people(
    c: CtxView,
    name: Seq<char>,
    slug: Seq<char>,
    location: Seq<char>,
)
    requires
        c.db.people_ok(),
        c.db.next_company_id < u64::MAX,
        c.db.next_member_id < u64::MAX,
    ensures
        create_company_spec(c, name, slug, location) matches Ok(db) ==> db.people_ok(),
        create_company_spec(c, name, slug, location) matches Ok(db) ==> c.db.same_projects(db),
        create_company_spec(c, name, slug, location) matches Ok(db) ==> c.db.same_records(db),
{
    if let Ok(db) = create_company_spec(c, name, slug, location) {
        let id = c.db.next_company_id;
        let founded = c.db.add_company(c.sender, crate::text::trimmed(name), crate::text::slug_of(slug), crate::text::trimmed(location)).add_capability(id);
        assert(founded.people_ok()) by {
            assert forall|i: int| 0 <= i < founded.members.len() implies member_allocated(
                founded.next_member_id,
                founded.next_company_id,
            )(#[trigger] founded.members[i]) by {
                assert(member_allocated(c.db.next_member_id, c.db.next_company_id)(c.db.members[i]));
            }
            assert forall|i: int| 0 <= i < founded.invite_codes.len() implies invite_allocated(
                founded.next_company_id,
            )(#[trigger] founded.invite_codes[i]) by {
                assert(invite_allocated(c.db.next_company_id)(c.db.invite_codes[i]));
            }
        }
        lemma_member_found(founded, c.sender, id);
        if founded.membership(c.sender, id) is Some {
            let m = founded.membership(c.sender, id)->0;
            let k = choose|k: int| 0 <= k < c.db.members.len() && c.db.members[k] == m;
            assert(member_allocated(c.db.next_member_id, c.db.next_company_id)(c.db.members[k]));
        }
        lemma_add_member_wf(founded, c.sender, id, UserRole::Owner, c.timestamp);
        let staffed = founded.add_member(c.sender, id, UserRole::Owner, c.timestamp);
        lemma_accounts_after_set_active(staffed, c.sender, Some(id));
    }
}

pub proof fn lemma_generate_invite_code_keeps_people(c: CtxView, max_uses: u32, draws: Seq<u64>)
    requires
        c.db.people_ok(),
    ensures
        generate_invite_code_spec(c, max_uses, draws) matches Ok(db) ==> db.people_ok(),
        generate_invite_code_spec(c, max_uses, draws) matches Ok(db) ==> c.db.same_projects(db),
        generate_invite_code_spec(c, max_uses, draws) matches Ok(db) ==> c.db.same_records(db),
{
    if let Ok(db) = generate_invite_code_spec(c, max_uses, draws) {
        lemma_resolve_ok(c.db, c.sender, UserRole::Admin);
        let me = c.db.resolve(c.sender, UserRole::Admin)->Ok_0.1;
        lemma_member_found(c.db, c.sender, me.company_id);
        lemma_every_push(
            c.db.invite_codes,
            invite_allocated(c.db.next_company_id),
            db.invite_codes[c.db.invite_codes.len() as int],
        );
    }
}

/// Spending a use of a code keeps the store well formed.
pub proof fn lemma_consumed_wf(db: DbView, invite: InviteCodeView)
    requires
        db.people_ok(),
    ensures
        consumed(db, invite).people_ok(),
        consumed(db, invite) == (DbView { invite_codes: consumed(db, invite).invite_codes, ..db }),
{
    if invite.uses_remaining <= 1 {
        lemma_every_filter(db.invite_codes, not(code_is(invite.code)), invite_allocated(db.next_company_id));
    } else {
        let after = consumed(db, invite).invite_codes;
        assert forall|i: int| 0 <= i < after.len() implies invite_allocated(db.next_company_id)(#[trigger] after[i]) by {
            assert(invite_allocated(db.next_company_id)(db.invite_codes[i]));
        }
    }
}

pub proof fn lemma_join_with_code_keeps_people(c: CtxView, code: Seq<char>)
    requires
        c.db.people_ok(),
        c.db.next_used_invite_id < u64::MAX,
        c.db.next_member_id < u64::MAX,
    ensures
        join_with_code_spec(c, code) matches Ok(db) ==> db.people_ok(),
        join_with_code_spec(c, code) matches Ok(db) ==> c.db.same_projects(db),
{
    if let Ok(db) = join_with_code_spec(c, code) {
        let account = c.db.account(c.sender)->0;
        let invite = c.db.invite(code)->0;
        lemma_first_index(c.db.invite_codes, code_is(code));
        let k = first_index(c.db.invite_codes, code_is(code))->0;
        assert(invite_allocated(c.db.next_company_id)(c.db.invite_codes[k]));
        let recorded = c.db.add_used_invite(c.sender, code, invite.company_id);
        assert(recorded.people_ok());
        assert(recorded.membership(c.sender, invite.company_id) is None);
        lemma_add_member_wf(recorded, c.sender, invite.company_id, UserRole::Pending, c.timestamp);
        let joined = recorded.add_member(c.sender, invite.company_id, UserRole::Pending, c.timestamp);
        let settled = if account.active_company_id is None {
            joined.set_active(c.sender, Some(invite.company_id))
        } else {
            joined
        };
        if account.active_company_id is None {
            lemma_accounts_after_set_active(joined, c.sender, Some(invite.company_id));
        }
        assert(settled.people_ok());
        lemma_consumed_wf(settled, invite);
        lemma_notify_company_role_core(
            consumed(settled, invite),
            invite.company_id,
            UserRole::Admin,
            Some(c.sender),
            NotificationType::MemberJoined,
            "New member joined"@,
            account.nickname + " joined "@ + c.db.company_name(invite.company_id),
            c.timestamp,
        );
    }
}

pub proof fn lemma_delete_invite_code_keeps_people(c: CtxView, code: Seq<char>)
    requires
        c.db.people_ok(),
    ensures
        delete_invite_code_spec(c, code) matches Ok(db) ==> db.people_ok(),
        delete_invite_code_spec(c, code) matches Ok(db) ==> c.db.same_projects(db),
        delete_invite_code_spec(c, code) matches Ok(db) ==> c.db.same_records(db),
{
    if let Ok(db) = delete_invite_code_spec(c, code) {
        lemma_every_filter(c.db.invite_codes, not(code_is(code)), invite_allocated(c.db.next_company_id));
    }
}

// ---------------------------------------------------------------------
// Team management
// ---------------------------------------------------------------------

pub proof fn lemma_add_colleague_keeps_people(c: CtxView, colleague: Identity)
    requires
        c.db.people_ok(),
        c.db.next_member_id < u64::MAX,
    ensures
        add_colleague_by_identity_spec(c, colleague) matches Ok(db) ==> db.people_ok(),
        add_colleague_by_identity_spec(c, colleague) matches Ok(db) ==> c.db.same_projects(db),
        add_colleague_by_identity_spec(c, colleague) matches Ok(db) ==> c.db.same_records(db),
{
    if let Ok(db) = add_colleague_by_identity_spec(c, colleague) {
        lemma_resolve_ok(c.db, c.sender, UserRole::Admin);
        let me = c.db.resolve(c.sender, UserRole::Admin)->Ok_0.1;
        lemma_member_found(c.db, c.sender, me.company_id);
        lemma_add_member_wf(c.db, colleague, me.company_id, UserRole::Member, c.timestamp);
    }
}

pub proof fn lemma_remove_colleague_keeps_people(c: CtxView, colleague: Identity)
    requires
        c.db.people_ok(),
    ensures
        remove_colleague_spec(c, colleague) matches Ok(db) ==> db.people_ok(),
        remove_colleague_spec(c, colleague) matches Ok(db) ==> c.db.same_projects(db),
{
    if let Ok(db) = remove_colleague_spec(c, colleague) {
        lemma_resolve_ok(c.db, c.sender, UserRole::Admin);
        let me = c.db.resolve(c.sender, UserRole::Admin)->Ok_0.1;
        lemma_member_found(c.db, colleague, me.company_id);
        let theirs = c.db.membership(colleague, me.company_id)->0;
        lemma_drop_member_wf(c.db, theirs);
    }
}

pub proof fn lemma_leave_company_keeps_people(c: CtxView)
    requires
        c.db.people_ok(),
    ensures
        leave_company_spec(c) matches Ok(db) ==> db.people_ok(),
        leave_company_spec(c) matches Ok(db) ==> c.db.same_projects(db),
        leave_company_spec(c) matches Ok(db) ==> c.db.same_records(db),
{
    if let Ok(db) = leave_company_spec(c) {
        let company_id = c.db.account(c.sender)->0.active_company_id->0;
        lemma_member_found(c.db, c.sender, company_id);
        let mine = c.db.membership(c.sender, company_id)->0;
        lemma_drop_member_wf(c.db, mine);
    }
}

pub proof fn lemma_switch_active_company_keeps_people(c: CtxView, company_id: u64)
    requires
        c.db.people_ok(),
    ensures
        switch_active_company_spec(c, company_id) matches Ok(db) ==> db.people_ok(),
        switch_active_company_spec(c, company_id) matches Ok(db) ==> c.db.same_companies(db),
        switch_active_company_spec(c, company_id) matches Ok(db) ==> c.db.same_projects(db),
        switch_active_company_spec(c, company_id) matches Ok(db) ==> c.db.same_links(db),
        switch_active_company_spec(c, company_id) matches Ok(db) ==> c.db.same_records(db),
{
    if let Ok(db) = switch_active_company_spec(c, company_id) {
        lemma_member_found(c.db, c.sender, company_id);
        lemma_accounts_after_set_active(c.db, c.sender, Some(company_id));
    }
}

pub proof fn lemma_update_company_profile_keeps_people(
    c: CtxView,
    name: Seq<char>,
    slug: Seq<char>,
    location: Seq<char>,
    bio: Seq<char>,
    is_public: bool,
    kvk_number: Seq<char>,
)
    requires
        c.db.people_ok(),
    ensures
        update_company_profile_spec(c, name, slug, location, bio, is_public, kvk_number) matches Ok(db) ==> db.people_ok(),
        update_company_profile_spec(c, name, slug, location, bio, is_public, kvk_number) matches Ok(db) ==> c.db.same_projects(db),
        update_company_profile_spec(c, name, slug, location, bio, is_public, kvk_number) matches Ok(db) ==> c.db.same_records(db),
{
}

pub proof fn lemma_update_capabilities_keeps_people(
    c: CtxView,
    can_install: bool,
    has_cnc: bool,
    has_large_format: bool,
    has_bucket_truck: bool,
)
    requires
        c.db.people_ok(),
    ensures
        update_capabilities_spec(c, can_install, has_cnc, has_large_format, has_bucket_truck) matches Ok(db)
            ==> db.people_ok(),
        update_capabilities_spec(c, can_install, has_cnc, has_large_format, has_bucket_truck) matches Ok(db) ==> c.db.same_projects(db),
        update_capabilities_spec(c, can_install, has_cnc, has_large_format, has_bucket_truck) matches Ok(db) ==> c.db.same_records(db),
{
}

pub proof fn lemma_update_user_role_keeps_people(c: CtxView, target: Identity, new_role: UserRole)
    requires
        c.db.people_ok(),
    ensures
        update_user_role_spec(c, target, new_role) matches Ok(db) ==> db.people_ok(),
        update_user_role_spec(c, target, new_role) matches Ok(db) ==> c.db.same_projects(db),
{
    if let Ok(db) = update_user_role_spec(c, target, new_role) {
        lemma_resolve_ok(c.db, c.sender, UserRole::Admin);
        let me = c.db.resolve(c.sender, UserRole::Admin)->Ok_0.1;
        let theirs = c.db.membership(target, me.company_id)->0;
        lemma_set_role_wf(c.db, theirs.id, new_role);
    }
}

pub proof fn lemma_transfer_ownership_keeps_people(c: CtxView, new_owner: Identity)
    requires
        c.db.people_ok(),
    ensures
        transfer_ownership_spec(c, new_owner) matches Ok(db) ==> db.people_ok(),
        transfer_ownership_spec(c, new_owner) matches Ok(db) ==> c.db.same_projects(db),
        transfer_ownership_spec(c, new_owner) matches Ok(db) ==> c.db.same_records(db),
{
    if let Ok(db) = transfer_ownership_spec(c, new_owner) {
        lemma_resolve_ok(c.db, c.sender, UserRole::Owner);
        let me = c.db.resolve(c.sender, UserRole::Owner)->Ok_0.1;
        let theirs = c.db.membership(new_owner, me.company_id)->0;
        let handed = c.db.set_owner(me.company_id, new_owner);
        assert(handed.people_ok());
        lemma_set_role_wf(handed, me.id, UserRole::Admin);
        lemma_set_role_wf(handed.set_role(me.id, UserRole::Admin), theirs.id, UserRole::Owner);
    }
}

// ---------------------------------------------------------------------
// Connections
// ---------------------------------------------------------------------

/// A connection that a lookup by companies finds is a row of the store and
/// joins the two companies.
pub proof fn lemma_connection_found(db: DbView, x: u64, y: u64)
    requires
        db.people_ok(),
    ensures
        match db.connection_between(x, y) {
            Some(conn) => {
                &&& db.connections.contains(conn)
                &&& connection_sound(db.next_connection_id)(conn)
                &&& conn.company_a == ordered(x, y).0
                &&& conn.company_b == ordered(x, y).1
                &&& db.connection_between(x, y) == db.connection_between(y, x)
            },
            None => none_match(db.connections, connects(x, y)) && db.connection_between(y, x) is None,
        },
{
    lemma_first_index(db.connections, connects(x, y));
    crate::seqs::lemma_first_agrees(db.connections, connects(x, y), connects(y, x));
    if let Some(i) = first_index(db.connections, connects(x, y)) {
        assert(connection_sound(db.next_connection_id)(db.connections[i]));
    }
}

/// The rows that share the id of a row of a well-formed store are that row.
pub proof fn lemma_connection_id_unique(db: DbView, conn: ConnectionView, i: int)
    requires
        db.people_ok(),
        db.connections.contains(conn),
        0 <= i < db.connections.len(),
        db.connections[i].id == conn.id,
    ensures
        db.connections[i] == conn,
{
    let k = choose|k: int| 0 <= k < db.connections.len() && db.connections[k] == conn;
    if i < k {
        assert(other_connection()(db.connections[i], db.connections[k]));
    } else if k < i {
        assert(other_connection()(db.connections[k], db.connections[i]));
    }
}

/// A connection more, between two companies that have none.
pub proof fn lemma_add_connection_wf(
    db: DbView,
    x: u64,
    y: u64,
    status: ConnectionStatus,
    who: Identity,
    blocking_company_id: Option<u64>,
    message: Seq<char>,
    now: Timestamp,
)
    requires
        db.people_ok(),
        x != y,
        db.connection_between(x, y) is None,
        db.next_connection_id < u64::MAX,
        status == ConnectionStatus::Blocked <==> blocking_company_id is Some,
        blocking_company_id is Some ==> blocking_company_id == Some(x) || blocking_company_id == Some(y),
    ensures
        db.add_connection(x, y, status, who, blocking_company_id, message, now).people_ok(),
{
    let after = db.add_connection(x, y, status, who, blocking_company_id, message, now);
    let row = after.connections[db.connections.len() as int];
    lemma_connection_found(db, x, y);
    assert forall|i: int| 0 <= i < db.connections.len() implies other_connection()(#[trigger] db.connections[i], row) by {
        assert(connection_sound(db.next_connection_id)(db.connections[i]));
        assert(!connects(x, y)(db.connections[i]));
    }
    lemma_pairwise_push(db.connections, other_connection(), row);
    assert forall|i: int| 0 <= i < after.connections.len() implies connection_sound(after.next_connection_id)(
        #[trigger] after.connections[i],
    ) by {
        if i < db.connections.len() {
            assert(connection_sound(db.next_connection_id)(db.connections[i]));
        }
    }
}

/// A connection deleted keeps the store well formed.
pub proof fn lemma_drop_connection_wf(db: DbView, id: u64)
    requires
        db.people_ok(),
    ensures
        db.drop_connection(id).people_ok(),
        db.drop_connection_chat(id).drop_connection(id).people_ok(),
{
    lemma_pairwise_filter(db.connections, not(connection_is(id)), other_connection());
    lemma_every_filter(db.connections, not(connection_is(id)), connection_sound(db.next_connection_id));
}

pub proof fn lemma_request_connection_keeps_people(c: CtxView, target_company_id: u64, message: Seq<char>)
    requires
        c.db.people_ok(),
        c.db.next_connection_id < u64::MAX,
    ensures
        request_connection_spec(c, target_company_id, message) matches Ok(db) ==> db.people_ok(),
        request_connection_spec(c, target_company_id, message) matches Ok(db) ==> c.db.same_companies(db),
        request_connection_spec(c, target_company_id, message) matches Ok(db) ==> c.db.same_projects(db),
{
    if let Ok(db) = request_connection_spec(c, target_company_id, message) {
        let me = c.db.resolve(c.sender, UserRole::Admin)->Ok_0.1;
        if c.db.connection_between(me.company_id, target_company_id) is None {
            lemma_add_connection_wf(
                c.db,
                me.company_id,
                target_company_id,
                ConnectionStatus::Pending,
                c.sender,
                None,
                crate::text::trimmed(message),
                c.timestamp,
            );
        }
    }
}

pub proof fn lemma_cancel_request_keeps_people(c: CtxView, target_company_id: u64)
    requires
        c.db.people_ok(),
    ensures
        cancel_request_spec(c, target_company_id) matches Ok(db) ==> db.people_ok(),
        cancel_request_spec(c, target_company_id) matches Ok(db) ==> c.db.same_companies(db),
        cancel_request_spec(c, target_company_id) matches Ok(db) ==> c.db.same_projects(db),
{
    if let Ok(db) = cancel_request_spec(c, target_company_id) {
        let me = c.db.resolve(c.sender, UserRole::Admin)->Ok_0.1;
        lemma_drop_connection_wf(c.db, c.db.connection_between(me.company_id, target_company_id)->0.id);
    }
}

pub proof fn lemma_accept_connection_keeps_people(c: CtxView, target_company_id: u64)
    requires
        c.db.people_ok(),
    ensures
        accept_connection_spec(c, target_company_id) matches Ok(db) ==> db.people_ok(),
        accept_connection_spec(c, target_company_id) matches Ok(db) ==> c.db.same_companies(db),
        accept_connection_spec(c, target_company_id) matches Ok(db) ==> c.db.same_projects(db),
{
    if let Ok(db) = accept_connection_spec(c, target_company_id) {
        let me = c.db.resolve(c.sender, UserRole::Admin)->Ok_0.1;
        let conn = c.db.connection_between(me.company_id, target_company_id)->0;
        lemma_connection_found(c.db, me.company_id, target_company_id);
        let accepted = c.db.set_connection_status(conn.id, ConnectionStatus::Accepted);
        assert(accepted.connections.len() == c.db.connections.len());
        assert forall|i: int, j: int| 0 <= i < j < accepted.connections.len() implies other_connection()(
            #[trigger] accepted.connections[i],
            #[trigger] accepted.connections[j],
        ) by {
            assert(other_connection()(c.db.connections[i], c.db.connections[j]));
        }
        assert forall|i: int| 0 <= i < accepted.connections.len() implies connection_sound(
            accepted.next_connection_id,
        )(#[trigger] accepted.connections[i]) by {
            assert(connection_sound(c.db.next_connection_id)(c.db.connections[i]));
            if c.db.connections[i].id == conn.id {
                lemma_connection_id_unique(c.db, conn, i);
            }
        }
        assert(accepted.people_ok());
    }
}

pub proof fn lemma_decline_connection_keeps_people(c: CtxView, target_company_id: u64)
    requires
        c.db.people_ok(),
    ensures
        decline_connection_spec(c, target_company_id) matches Ok(db) ==> db.people_ok(),
        decline_connection_spec(c, target_company_id) matches Ok(db) ==> c.db.same_companies(db),
        decline_connection_spec(c, target_company_id) matches Ok(db) ==> c.db.same_projects(db),
{
    if let Ok(db) = decline_connection_spec(c, target_company_id) {
        let me = c.db.resolve(c.sender, UserRole::Admin)->Ok_0.1;
        let conn = c.db.connection_between(me.company_id, target_company_id)->0;
        let requesting = c.db.requesting_company(conn)->Ok_0;
        let told = c.db.notify_company_role(
            requesting,
            UserRole::Admin,
            None,
            NotificationType::ConnectionDeclined,
            "Connection declined"@,
            c.db.company_name(me.company_id) + " declined your connection request"@,
            c.timestamp,
        );
        assert(told.people_ok());
        lemma_drop_connection_wf(told, conn.id);
    }
}

pub proof fn lemma_block_company_keeps_people(c: CtxView, target_company_id: u64)
    requires
        c.db.people_ok(),
        c.db.next_connection_id < u64::MAX,
    ensures
        block_company_spec(c, target_company_id) matches Ok(db) ==> db.people_ok(),
        block_company_spec(c, target_company_id) matches Ok(db) ==> c.db.same_companies(db),
        block_company_spec(c, target_company_id) matches Ok(db) ==> c.db.same_projects(db),
        block_company_spec(c, target_company_id) matches Ok(db) ==> c.db.same_records(db),
{
    if let Ok(db) = block_company_spec(c, target_company_id) {
        let me = c.db.resolve(c.sender, UserRole::Admin)->Ok_0.1;
        let mine = me.company_id;
        lemma_connection_found(c.db, mine, target_company_id);
        match c.db.connection_between(mine, target_company_id) {
            Some(conn) => {
                if conn.status != ConnectionStatus::Blocked {
                    assert(db.connections.len() == c.db.connections.len());
                    assert forall|i: int, j: int| 0 <= i < j < db.connections.len() implies other_connection()(
                        #[trigger] db.connections[i],
                        #[trigger] db.connections[j],
                    ) by {
                        assert(other_connection()(c.db.connections[i], c.db.connections[j]));
                    }
                    assert forall|i: int| 0 <= i < db.connections.len() implies connection_sound(
                        db.next_connection_id,
                    )(#[trigger] db.connections[i]) by {
                        assert(connection_sound(c.db.next_connection_id)(c.db.connections[i]));
                        if c.db.connections[i].id == conn.id {
                            lemma_connection_id_unique(c.db, conn, i);
                        }
                    }
                }
            },
            None => {
                lemma_add_connection_wf(
                    c.db,
                    mine,
                    target_company_id,
                    ConnectionStatus::Blocked,
                    c.sender,
                    Some(mine),
                    Seq::empty(),
                    c.timestamp,
                );
            },
        }
    }
}

pub proof fn lemma_unblock_company_keeps_people(c: CtxView, target_company_id: u64)
    requires
        c.db.people_ok(),
    ensures
        unblock_company_spec(c, target_company_id) matches Ok(db) ==> db.people_ok(),
        unblock_company_spec(c, target_company_id) matches Ok(db) ==> c.db.same_companies(db),
        unblock_company_spec(c, target_company_id) matches Ok(db) ==> c.db.same_projects(db),
        unblock_company_spec(c, target_company_id) matches Ok(db) ==> c.db.same_records(db),
{
    if let Ok(db) = unblock_company_spec(c, target_company_id) {
        let me = c.db.resolve(c.sender, UserRole::Admin)->Ok_0.1;
        lemma_drop_connection_wf(c.db, c.db.connection_between(me.company_id, target_company_id)->0.id);
    }
}

pub proof fn lemma_disconnect_company_keeps_people(c: CtxView, target_company_id: u64)
    requires
        c.db.people_ok(),
    ensures
        disconnect_company_spec(c, target_company_id) matches Ok(db) ==> db.people_ok(),
        disconnect_company_spec(c, target_company_id) matches Ok(db) ==> c.db.same_companies(db),
        disconnect_company_spec(c, target_company_id) matches Ok(db) ==> c.db.same_projects(db),
{
    if let Ok(db) = disconnect_company_spec(c, target_company_id) {
        let me = c.db.resolve(c.sender, UserRole::Admin)->Ok_0.1;
        lemma_drop_connection_wf(c.db, c.db.connection_between(me.company_id, target_company_id)->0.id);
    }
}

pub proof fn lemma_send_connection_chat_keeps_people(c: CtxView, connection_id: u64, text: Seq<char>)
    requires
        c.db.people_ok(),
    ensures
        send_connection_chat_spec(c, connection_id, text) matches Ok(db) ==> db.people_ok(),
        send_connection_chat_spec(c, connection_id, text) matches Ok(db) ==> c.db.same_companies(db),
        send_connection_chat_spec(c, connection_id, text) matches Ok(db) ==> c.db.same_projects(db),
        send_connection_chat_spec(c, connection_id, text) matches Ok(db) ==> c.db.same_links(db),
{
}

// ---------------------------------------------------------------------
// Projects and notifications
// ---------------------------------------------------------------------

pub proof fn lemma_create_project_keeps_people(c: CtxView, name: Seq<char>, description: Seq<char>)
    requires
        c.db.people_ok(),
    ensures
        create_project_spec(c, name, description) matches Ok(db) ==> db.people_ok(),
        create_project_spec(c, name, description) matches Ok(db) ==> c.db.same_companies(db),
        create_project_spec(c, name, description) matches Ok(db) ==> c.db.same_records(db),
{
}

pub proof fn lemma_invite_to_project_keeps_people(c: CtxView, project_id: u64, target_company_id: u64)
    requires
        c.db.people_ok(),
    ensures
        invite_to_project_spec(c, project_id, target_company_id) matches Ok(db) ==> db.people_ok(),
        invite_to_project_spec(c, project_id, target_company_id) matches Ok(db) ==> c.db.same_companies(db),
{
}

pub proof fn lemma_accept_project_invite_keeps_people(c: CtxView, project_id: u64)
    requires
        c.db.people_ok(),
    ensures
        accept_project_invite_spec(c, project_id) matches Ok(db) ==> db.people_ok(),
        accept_project_invite_spec(c, project_id) matches Ok(db) ==> c.db.same_companies(db),
{
    if let Ok(db) = accept_project_invite_spec(c, project_id) {
        let me = c.db.resolve(c.sender, UserRole::Admin)->Ok_0.1;
        let project = c.db.project(project_id)->0;
        let seat = c.db.seat_with(project_id, me.company_id, ProjectMemberStatus::Invited)->0;
        let seated = c.db.accept_seat(seat.id, c.timestamp);
        let label = c.db.company_label(me.company_id);
        lemma_notify_companies_core(
            seated,
            seated.other_accepted(project_id, me.company_id, me.company_id),
            UserRole::Admin,
            NotificationType::ProjectAccepted,
            label + " joined project"@,
            label + " accepted the invitation to project '"@ + project.name + "'"@,
            c.timestamp,
        );
    }
}

pub proof fn lemma_decline_project_invite_keeps_people(c: CtxView, project_id: u64)
    requires
        c.db.people_ok(),
    ensures
        decline_project_invite_spec(c, project_id) matches Ok(db) ==> db.people_ok(),
        decline_project_invite_spec(c, project_id) matches Ok(db) ==> c.db.same_companies(db),
{
}

pub proof fn lemma_send_project_chat_keeps_people(c: CtxView, project_id: u64, text: Seq<char>)
    requires
        c.db.people_ok(),
    ensures
        send_project_chat_spec(c, project_id, text) matches Ok(db) ==> db.people_ok(),
        send_project_chat_spec(c, project_id, text) matches Ok(db) ==> c.db.same_companies(db),
        send_project_chat_spec(c, project_id, text) matches Ok(db) ==> c.db.same_projects(db),
{
    if let Ok(db) = send_project_chat_spec(c, project_id, text) {
        let (account, me) = c.db.resolve(c.sender, UserRole::Field)->Ok_0;
        let project = c.db.project(project_id)->0;
        let text = crate::text::trimmed(text);
        let label = c.db.company_label(me.company_id);
        lemma_notify_companies_core(
            c.db.add_project_chat(project_id, c.sender, text, c.timestamp),
            c.db.other_accepted(project_id, me.company_id, me.company_id),
            UserRole::Field,
            NotificationType::ProjectChat,
            project.name + " \u{2014} "@ + label,
            "["@ + label + "] "@ + account.nickname + ": "@ + crate::text::preview_of(text, 80),
            c.timestamp,
        );
    }
}

pub proof fn lemma_leave_project_keeps_people(c: CtxView, project_id: u64)
    requires
        c.db.people_ok(),
    ensures
        leave_project_spec(c, project_id) matches Ok(db) ==> db.people_ok(),
        leave_project_spec(c, project_id) matches Ok(db) ==> c.db.same_companies(db),
{
    if let Ok(db) = leave_project_spec(c, project_id) {
        let me = c.db.resolve(c.sender, UserRole::Admin)->Ok_0.1;
        let project = c.db.project(project_id)->0;
        let seat = c.db.seat_with(project_id, me.company_id, ProjectMemberStatus::Accepted)->0;
        let left = c.db.set_seat_status(seat.id, ProjectMemberStatus::Left);
        let label = c.db.company_label(me.company_id);
        lemma_notify_companies_core(
            left,
            left.other_accepted(project_id, me.company_id, me.company_id),
            UserRole::Admin,
            NotificationType::ProjectLeft,
            label + " left project"@,
            label + " left project '"@ + project.name + "'"@,
            c.timestamp,
        );
    }
}

pub proof fn lemma_kick_from_project_keeps_people(c: CtxView, project_id: u64, target_company_id: u64)
    requires
        c.db.people_ok(),
    ensures
        kick_from_project_spec(c, project_id, target_company_id) matches Ok(db) ==> db.people_ok(),
        kick_from_project_spec(c, project_id, target_company_id) matches Ok(db) ==> c.db.same_companies(db),
{
    if let Ok(db) = kick_from_project_spec(c, project_id, target_company_id) {
        let me = c.db.resolve(c.sender, UserRole::Admin)->Ok_0.1;
        let project = c.db.project(project_id)->0;
        let seat = c.db.seat_with(project_id, target_company_id, ProjectMemberStatus::Accepted)->0;
        let label = c.db.company_label(target_company_id);
        let kicked = c.db.set_seat_status(seat.id, ProjectMemberStatus::Kicked).notify_company_role(
            target_company_id,
            UserRole::Admin,
            None,
            NotificationType::ProjectKicked,
            "Removed from project '"@ + project.name + "'"@,
            "Your company has been removed from project '"@ + project.name + "'"@,
            c.timestamp,
        );
        lemma_notify_companies_core(
            kicked,
            kicked.other_accepted(project_id, me.company_id, target_company_id),
            UserRole::Admin,
            NotificationType::ProjectKicked,
            label + " removed from project"@,
            label + " was removed from project '"@ + project.name + "'"@,
            c.timestamp,
        );
    }
}

pub proof fn lemma_delete_project_keeps_people(c: CtxView, project_id: u64)
    requires
        c.db.people_ok(),
    ensures
        delete_project_spec(c, project_id) matches Ok(db) ==> db.people_ok(),
        delete_project_spec(c, project_id) matches Ok(db) ==> c.db.same_companies(db),
{
    if let Ok(db) = delete_project_spec(c, project_id) {
        let me = c.db.resolve(c.sender, UserRole::Admin)->Ok_0.1;
        let project = c.db.project(project_id)->0;
        lemma_notify_companies_core(
            c.db,
            c.db.other_accepted(project_id, me.company_id, me.company_id),
            UserRole::Admin,
            NotificationType::ProjectLeft,
            "Project '"@ + project.name + "' deleted"@,
            "Project '"@ + project.name + "' has been deleted by the owner"@,
            c.timestamp,
        );
    }
}

pub proof fn lemma_mark_notification_read_keeps_people(c: CtxView, notification_id: u64)
    requires
        c.db.people_ok(),
    ensures
        mark_notification_read_spec(c, notification_id) matches Ok(db) ==> db.people_ok(),
        mark_notification_read_spec(c, notification_id) matches Ok(db) ==> c.db.same_companies(db),
        mark_notification_read_spec(c, notification_id) matches Ok(db) ==> c.db.same_projects(db),
        mark_notification_read_spec(c, notification_id) matches Ok(db) ==> c.db.same_links(db),
{
}

pub proof fn lemma_mark_all_notifications_read_keeps_people(c: CtxView, company_id: u64)
    requires
        c.db.people_ok(),
    ensures
        mark_all_notifications_read_spec(c, company_id) matches Ok(db) ==> db.people_ok(),
        mark_all_notifications_read_spec(c, company_id) matches Ok(db) ==> c.db.same_companies(db),
        mark_all_notifications_read_spec(c, company_id) matches Ok(db) ==> c.db.same_projects(db),
        mark_all_notifications_read_spec(c, company_id) matches Ok(db) ==> c.db.same_links(db),
{
}

pub proof fn lemma_clear_notifications_keeps_people(c: CtxView, company_id: u64)
    requires
        c.db.people_ok(),
    ensures
        clear_notifications_spec(c, company_id) matches Ok(db) ==> db.people_ok(),
        clear_notifications_spec(c, company_id) matches Ok(db) ==> c.db.same_companies(db),
        clear_notifications_spec(c, company_id) matches Ok(db) ==> c.db.same_projects(db),
        clear_notifications_spec(c, company_id) matches Ok(db) ==> c.db.same_links(db),
{
}

// ---------------------------------------------------------------------
// The deletion of a company
// ---------------------------------------------------------------------

/// Reassigning one user's active company changes the accounts only, and of
/// them only the user's own where it selects the company given.
pub proof fn lemma_reassign_step(db: DbView, who: Identity, removed_company_id: u64)
    requires
        pairwise(db.accounts, other_account()),
    ensures
        ({
            let after = db.reassign_active_company(who, removed_company_id);
            &&& after == (DbView { accounts: after.accounts, ..db })
            &&& after.accounts.len() == db.accounts.len()
            &&& pairwise(after.accounts, other_account())
            &&& forall|i: int|
                0 <= i < db.accounts.len() ==> (#[trigger] after.accounts[i]).identity == db.accounts[i].identity
                    && if db.accounts[i].identity == who && db.accounts[i].active_company_id == Some(
                    removed_company_id,
                ) {
                    after.accounts[i].active_company_id == db.next_home(who)
                } else {
                    after.accounts[i] == db.accounts[i]
                }
        }),
{
    let after = db.reassign_active_company(who, removed_company_id);
    lemma_first_index(db.accounts, account_is(who));
    match first_index(db.accounts, account_is(who)) {
        Some(k) => {
            assert forall|i: int| 0 <= i < db.accounts.len() && db.accounts[i].identity == who implies i == k by {
                if i < k {
                    assert(other_account()(db.accounts[i], db.accounts[k]));
                } else if k < i {
                    assert(other_account()(db.accounts[k], db.accounts[i]));
                }
            }
            if db.accounts[k].active_company_id == Some(removed_company_id) {
                assert(after == db.set_active(who, db.next_home(who)));
                assert(after.accounts.len() == db.accounts.len());
                assert forall|i: int, j: int| 0 <= i < j < after.accounts.len() implies other_account()(
                    #[trigger] after.accounts[i],
                    #[trigger] after.accounts[j],
                ) by {
                    assert(other_account()(db.accounts[i], db.accounts[j]));
                }
            }
        },
        None => {
            assert forall|i: int| 0 <= i < db.accounts.len() implies db.accounts[i].identity != who by {
                assert(!account_is(who)(db.accounts[i]));
            }
        },
    }
}

/// Reassigning the active company of each of `identities` changes the
/// accounts only; an account that is changed has its cursor held, and so
/// has each account of one of `identities` that selected the company.
pub proof fn lemma_reassign_each(db: DbView, identities: Seq<Identity>, removed_company_id: u64)
    requires
        pairwise(db.accounts, other_account()),
    ensures
        ({
            let after = db.reassign_each(identities, removed_company_id);
            &&& after == (DbView { accounts: after.accounts, ..db })
            &&& after.accounts.len() == db.accounts.len()
            &&& pairwise(after.accounts, other_account())
            &&& forall|i: int|
                0 <= i < db.accounts.len() ==> {
                    &&& (#[trigger] after.accounts[i]).identity == db.accounts[i].identity
                    &&& (after.accounts[i] == db.accounts[i] || cursor_held(db.members)(after.accounts[i]))
                    &&& (identities.contains(db.accounts[i].identity) && db.accounts[i].active_company_id == Some(
                        removed_company_id,
                    ) ==> cursor_held(db.members)(after.accounts[i]))
                }
        }),
    decreases identities.len(),
{
    if identities.len() > 0 {
        let who = identities.last();
        let before = db.reassign_each(identities.drop_last(), removed_company_id);
        let after = db.reassign_each(identities, removed_company_id);
        lemma_reassign_each(db, identities.drop_last(), removed_company_id);
        lemma_reassign_step(before, who, removed_company_id);
        lemma_next_home_is_held(before, who);
        assert forall|i: int| 0 <= i < db.accounts.len() implies {
            &&& (#[trigger] after.accounts[i]).identity == db.accounts[i].identity
            &&& (after.accounts[i] == db.accounts[i] || cursor_held(db.members)(after.accounts[i]))
            &&& (identities.contains(db.accounts[i].identity) && db.accounts[i].active_company_id == Some(
                removed_company_id,
            ) ==> cursor_held(db.members)(after.accounts[i]))
        } by {
            assert(before.accounts[i].identity == db.accounts[i].identity);
            if identities.contains(db.accounts[i].identity) && db.accounts[i].active_company_id == Some(
                removed_company_id,
            ) {
                let k = choose|k: int| 0 <= k < identities.len() && identities[k] == db.accounts[i].identity;
                if k < identities.len() - 1 {
                    assert(identities.drop_last()[k] == identities[k]);
                    assert(identities.drop_last().contains(db.accounts[i].identity));
                }
            }
        }
    }
}

/// Reassigning active companies changes the accounts only.
pub proof fn lemma_reassign_each_frame(db: DbView, identities: Seq<Identity>, removed_company_id: u64)
    ensures
        db.reassign_each(identities, removed_company_id) == (DbView {
            accounts: db.reassign_each(identities, removed_company_id).accounts,
            ..db
        }),
    decreases identities.len(),
{
    if identities.len() > 0 {
        lemma_reassign_each_frame(db, identities.drop_last(), removed_company_id);
    }
}

/// Deleting the chat of connections changes the chat only.
pub proof fn lemma_drop_chats_of_frame(db: DbView, connection_ids: Seq<u64>)
    ensures
        db.drop_chats_of(connection_ids) == (DbView {
            connection_chats: db.drop_chats_of(connection_ids).connection_chats,
            ..db
        }),
    decreases connection_ids.len(),
{
    if connection_ids.len() > 0 {
        lemma_drop_chats_of_frame(db, connection_ids.drop_last());
    }
}

/// Deleting projects changes projects, seats and project chat only.
pub proof fn lemma_delete_projects_frame(db: DbView, project_ids: Seq<u64>)
    ensures
        ({
            let after = db.delete_projects(project_ids);
            after == (DbView {
                projects: after.projects,
                project_members: after.project_members,
                project_chats: after.project_chats,
                ..db
            })
        }),
    decreases project_ids.len(),
{
    if project_ids.len() > 0 {
        lemma_delete_projects_frame(db, project_ids.drop_last());
    }
}

/// Dissolving abandoned projects changes projects, seats and project chat
/// only.
pub proof fn lemma_dissolve_abandoned_frame(db: DbView, project_ids: Seq<u64>)
    ensures
        ({
            let after = db.dissolve_abandoned(project_ids);
            after == (DbView {
                projects: after.projects,
                project_members: after.project_members,
                project_chats: after.project_chats,
                ..db
            })
        }),
    decreases project_ids.len(),
{
    if project_ids.len() > 0 {
        lemma_dissolve_abandoned_frame(db, project_ids.drop_last());
    }
}

/// No account selects a company of which the store holds no membership
/// while every cursor is held.
pub open spec fn selects_other(company_id: u64) -> spec_fn(UserAccountView) -> bool {
    |a: UserAccountView| a.active_company_id != Some(company_id)
}

/// What the deletion of a company leaves: a well-formed store whose
/// memberships, invite codes, capability rows, connections, notifications
/// and companies are the former ones without those of the company, and
/// whose accounts, one for one those of before, select other companies.
pub proof fn lemma_delete_company_cascade(db: DbView, company_id: u64)
    requires
        db.people_ok(),
    ensures
        ({
            let after = db.delete_company_cascade(company_id);
            &&& after.people_ok()
            &&& after.members == db.members.filter(not(member_in(company_id)))
            &&& after.invite_codes == db.invite_codes.filter(not(invite_for(company_id)))
            &&& after.capabilities == db.capabilities.filter(not(capability_of(company_id)))
            &&& after.connections == db.connections.filter(not(touches(company_id)))
            &&& after.notifications == db.notifications.filter(not(notification_about(company_id)))
            &&& after.companies == db.companies.filter(not(company_is(company_id)))
            &&& after.accounts.len() == db.accounts.len()
            &&& forall|i: int|
                0 <= i < db.accounts.len() ==> (#[trigger] after.accounts[i]).identity == db.accounts[i].identity
            &&& every(after.accounts, selects_other(company_id))
        }),
{
    let uninvited = db.drop_invites_of(company_id);
    lemma_every_filter(db.invite_codes, not(invite_for(company_id)), invite_allocated(db.next_company_id));
    let identities = uninvited.member_identities(company_id);
    let emptied = uninvited.drop_members_of(company_id);
    lemma_pairwise_filter(db.members, not(member_in(company_id)), other_member());
    lemma_every_filter(
        db.members,
        not(member_in(company_id)),
        member_allocated(db.next_member_id, db.next_company_id),
    );
    lemma_filter_exact(db.members, not(member_in(company_id)));
    lemma_filter_exact(db.members, member_in(company_id));
    // Each cursor is still held, or selects the company and belongs to one
    // of its former members.
    assert forall|i: int| 0 <= i < db.accounts.len() implies cursor_held(emptied.members)(#[trigger] db.accounts[i])
        || (db.accounts[i].active_company_id == Some(company_id) && identities.contains(
        db.accounts[i].identity,
    )) by {
        let a = db.accounts[i];
        assert(cursor_held(db.members)(a));
        if a.active_company_id is Some {
            let p = member_is(a.identity, a.active_company_id->0);
            let k = choose|k: int| 0 <= k < db.members.len() && p(#[trigger] db.members[k]);
            let m = db.members[k];
            assert(db.members.contains(m));
            if a.active_company_id->0 == company_id {
                let in_company = db.members.filter(member_in(company_id));
                assert(in_company.contains(m));
                let j = choose|j: int| 0 <= j < in_company.len() && in_company[j] == m;
                assert(identities[j] == m.identity);
            } else {
                assert(emptied.members.contains(m));
                let j = choose|j: int| 0 <= j < emptied.members.len() && emptied.members[j] == m;
                assert(p(emptied.members[j]));
            }
        }
    }
    lemma_reassign_each(emptied, identities, company_id);
    let unlinked = emptied.reassign_each(identities, company_id);
    assert(unlinked == uninvited.unlink_members(company_id));
    assert(every(unlinked.accounts, cursor_held(unlinked.members)));
    assert(unlinked.people_ok());
    // No membership of the company is left, so no held cursor selects it.
    assert forall|i: int| 0 <= i < unlinked.accounts.len() implies selects_other(company_id)(
        #[trigger] unlinked.accounts[i],
    ) by {
        let a = unlinked.accounts[i];
        assert(cursor_held(unlinked.members)(a));
        if a.active_company_id == Some(company_id) {
            let p = member_is(a.identity, company_id);
            let k = choose|k: int| 0 <= k < unlinked.members.len() && p(#[trigger] unlinked.members[k]);
            assert(not(member_in(company_id))(unlinked.members[k]));
        }
    }
    let bare = unlinked.drop_capability(company_id);
    let ids = bare.connection_ids_touching(company_id);
    lemma_pairwise_filter(db.connections, not(touches(company_id)), other_connection());
    lemma_every_filter(db.connections, not(touches(company_id)), connection_sound(db.next_connection_id));
    lemma_drop_chats_of_frame(bare.drop_connections_touching(company_id), ids);
    let cut = bare.disconnect_all(company_id).drop_notifications_about(company_id);
    assert(cut.people_ok());
    lemma_delete_projects_frame(cut, cut.owned_project_ids(company_id));
    let disowned = cut.delete_projects(cut.owned_project_ids(company_id));
    lemma_dissolve_abandoned_frame(disowned.drop_seats_of(company_id), disowned.seat_project_ids(company_id));
}

/// The deletion of a company hands out no id.
pub proof fn lemma_delete_company_cascade_ids(db: DbView, company_id: u64)
    ensures
        ({
            let after = db.delete_company_cascade(company_id);
            &&& after.next_company_id == db.next_company_id
            &&& after.next_member_id == db.next_member_id
            &&& after.next_connection_id == db.next_connection_id
            &&& after.next_project_id == db.next_project_id
            &&& after.next_project_member_id == db.next_project_member_id
        }),
{
    let uninvited = db.drop_invites_of(company_id);
    lemma_reassign_each_frame(
        uninvited.drop_members_of(company_id),
        uninvited.member_identities(company_id),
        company_id,
    );
    let unlinked = uninvited.unlink_members(company_id);
    let bare = unlinked.drop_capability(company_id);
    lemma_drop_chats_of_frame(bare.drop_connections_touching(company_id), bare.connection_ids_touching(company_id));
    let cut = bare.disconnect_all(company_id).drop_notifications_about(company_id);
    lemma_delete_projects_frame(cut, cut.owned_project_ids(company_id));
    let disowned = cut.delete_projects(cut.owned_project_ids(company_id));
    lemma_dissolve_abandoned_frame(disowned.drop_seats_of(company_id), disowned.seat_project_ids(company_id));
}

pub proof fn lemma_delete_company_keeps_people(c: CtxView)
    requires
        c.db.people_ok(),
    ensures
        delete_company_spec(c) matches Ok(db) ==> db.people_ok(),
{
    if let Ok(db) = delete_company_spec(c) {
        let me = c.db.resolve(c.sender, UserRole::Owner)->Ok_0.1;
        lemma_delete_company_cascade(c.db, me.company_id);
    }
}

} // verus!
