//! Each procedure keeps what holds of companies, their owners, capability
//! rows and invite codes.

use vstd::prelude::*;
use crate::accounts::{
    consumed, create_company_spec, delete_invite_code_spec, generate_invite_code_spec,
    join_with_code_spec,
};
use crate::authority::lemma_resolve_ok;
use crate::cascade::delete_company_spec;
use crate::context::CtxView;
use crate::model::{
    DbView, capability_of, code_is, company_is, invite_for, member_id_is, member_in, not, slug_is,
};
use crate::proofs::people::{
    lemma_delete_company_cascade, lemma_member_found, lemma_notify_company_role_core,
};
use crate::roles::{Identity, NotificationType, Timestamp, UserRole};
use crate::rows::{CompanyMember, CompanyView, InviteCodeView};
use crate::seqs::{
    every, first_index, lemma_every_filter, lemma_filter_exact, lemma_first_index,
    lemma_pairwise_filter, none_match, pairwise,
};
use crate::soundness::{
    capability_allocated, company_allocated, equipped, lemma_every_push, lemma_pairwise_push,
    member_allocated, other_capability, other_code, other_company, other_member, owner_recorded,
    owner_row, usable,
};
use crate::team::{
    add_colleague_by_identity_spec, leave_company_spec, remove_colleague_spec,
    transfer_ownership_spec, update_capabilities_spec, update_company_profile_spec,
    update_user_role_spec,
};

verus! {

/// A company that a lookup finds is a row of the store, and the only one
/// with its id.
pub proof fn lemma_company_found(db: DbView, id: u64)
    requires
        db.companies_ok(),
    ensures
        match db.company(id) {
            Some(c) => {
                &&& db.companies.contains(c)
                &&& c.id == id
                &&& id < db.next_company_id
                &&& owner_recorded(db.members)(c)
                &&& equipped(db.capabilities)(c)
                &&& forall|k: int|
                    0 <= k < db.companies.len() && (#[trigger] db.companies[k]).id == id ==> db.companies[k] == c
            },
            None => none_match(db.companies, company_is(id)),
        },
{
    lemma_first_index(db.companies, company_is(id));
    if let Some(i) = first_index(db.companies, company_is(id)) {
        assert(company_allocated(db.next_company_id)(db.companies[i]));
        assert(owner_recorded(db.members)(db.companies[i]));
        assert(equipped(db.capabilities)(db.companies[i]));
        assert forall|k: int|
            0 <= k < db.companies.len() && (#[trigger] db.companies[k]).id == id implies db.companies[k]
            == db.companies[i] by {
            if k < i {
                assert(other_company()(db.companies[k], db.companies[i]));
            } else if i < k {
                assert(other_company()(db.companies[i], db.companies[k]));
            }
        }
    }
}

/// A change of memberships that keeps each Owner row as it was, and makes
/// no other row an Owner row, keeps companies sound.
pub proof fn lemma_members_changed(db: DbView, after: DbView)
    requires
        db.companies_ok(),
        after.companies == db.companies,
        after.capabilities == db.capabilities,
        after.invite_codes == db.invite_codes,
        after.next_company_id == db.next_company_id,
        forall|i: int|
            0 <= i < db.members.len() && (#[trigger] db.members[i]).role == UserRole::Owner
                ==> after.members.contains(db.members[i]),
        forall|j: int|
            0 <= j < after.members.len() && (#[trigger] after.members[j]).role == UserRole::Owner
                ==> db.members.contains(after.members[j]),
    ensures
        after.companies_ok(),
{
    assert forall|k: int| 0 <= k < after.companies.len() implies owner_recorded(after.members)(
        #[trigger] after.companies[k],
    ) by {
        let c = db.companies[k];
        assert(owner_recorded(db.members)(c));
        let i = choose|i: int| 0 <= i < db.members.len() && owner_row(c)(#[trigger] db.members[i]);
        assert(after.members.contains(db.members[i]));
        let j = choose|j: int| 0 <= j < after.members.len() && after.members[j] == db.members[i];
        assert(owner_row(c)(after.members[j]));
    }
    assert forall|j: int, k: int|
        0 <= j < after.members.len() && 0 <= k < after.companies.len() && (#[trigger] after.members[j]).role
            == UserRole::Owner && after.members[j].company_id == (#[trigger] after.companies[k]).id implies after.members[j].identity
        == after.companies[k].owner_identity by {
        assert(db.members.contains(after.members[j]));
        let i = choose|i: int| 0 <= i < db.members.len() && db.members[i] == after.members[j];
        assert(db.members[i].role == UserRole::Owner && db.members[i].company_id == db.companies[k].id);
    }
}

/// A membership more, with a role other than Owner.
pub proof fn lemma_add_member_keeps_companies(
    db: DbView,
    who: Identity,
    company_id: u64,
    role: UserRole,
    now: Timestamp,
)
    requires
        db.companies_ok(),
        role != UserRole::Owner,
    ensures
        db.add_member(who, company_id, role, now).companies_ok(),
{
    let after = db.add_member(who, company_id, role, now);
    assert forall|i: int| 0 <= i < db.members.len() implies after.members.contains(#[trigger] db.members[i]) by {
        assert(after.members[i] == db.members[i]);
    }
    assert forall|j: int|
        0 <= j < after.members.len() && (#[trigger] after.members[j]).role == UserRole::Owner implies db.members.contains(
        after.members[j],
    ) by {
        assert(j < db.members.len());
        assert(db.members[j] == after.members[j]);
    }
    lemma_members_changed(db, after);
}

/// A membership with a role other than Owner deleted.
pub proof fn lemma_drop_member_keeps_companies(db: DbView, gone: CompanyMember)
    requires
        db.companies_ok(),
        db.people_ok(),
        db.members.contains(gone),
        gone.role != UserRole::Owner,
    ensures
        db.drop_member(gone.id).companies_ok(),
        db.drop_member(gone.id).reassign_active_company(gone.identity, gone.company_id).companies_ok(),
{
    let after = db.drop_member(gone.id);
    lemma_filter_exact(db.members, not(member_id_is(gone.id)));
    let g = choose|g: int| 0 <= g < db.members.len() && db.members[g] == gone;
    assert forall|i: int|
        0 <= i < db.members.len() && (#[trigger] db.members[i]).role == UserRole::Owner implies after.members.contains(
        db.members[i],
    ) by {
        assert(db.members.contains(db.members[i]));
        if i < g {
            assert(other_member()(db.members[i], db.members[g]));
        } else if g < i {
            assert(other_member()(db.members[g], db.members[i]));
        }
    }
    assert forall|j: int|
        0 <= j < after.members.len() && (#[trigger] after.members[j]).role == UserRole::Owner implies db.members.contains(
        after.members[j],
    ) by {
        assert(after.members.contains(after.members[j]));
    }
    lemma_members_changed(db, after);
    assert(after.same_companies(after.reassign_active_company(gone.identity, gone.company_id)));
}

/// The role of a member who is no Owner changed to one other than Owner.
pub proof fn lemma_set_role_keeps_companies(db: DbView, target: CompanyMember, role: UserRole)
    requires
        db.companies_ok(),
        db.people_ok(),
        db.members.contains(target),
        target.role != UserRole::Owner,
        role != UserRole::Owner,
    ensures
        db.set_role(target.id, role).companies_ok(),
{
    let after = db.set_role(target.id, role);
    let t = choose|t: int| 0 <= t < db.members.len() && db.members[t] == target;
    assert(after.members.len() == db.members.len());
    assert forall|i: int| 0 <= i < db.members.len() implies (#[trigger] after.members[i]) == if db.members[i].id
        == target.id {
        CompanyMember { role, ..db.members[i] }
    } else {
        db.members[i]
    } by {}
    assert forall|i: int| 0 <= i < db.members.len() && db.members[i].id == target.id implies i == t by {
        if i < t {
            assert(other_member()(db.members[i], db.members[t]));
        } else if t < i {
            assert(other_member()(db.members[t], db.members[i]));
        }
    }
    assert forall|i: int|
        0 <= i < db.members.len() && (#[trigger] db.members[i]).role == UserRole::Owner implies after.members.contains(
        db.members[i],
    ) by {
        assert(after.members[i] == db.members[i]);
    }
    assert forall|j: int|
        0 <= j < after.members.len() && (#[trigger] after.members[j]).role == UserRole::Owner implies db.members.contains(
        after.members[j],
    ) by {
        assert(after.members[j] == db.members[j]);
    }
    lemma_members_changed(db, after);
}

/// A change of invite codes that keeps them distinct and usable keeps
/// companies sound.
pub proof fn lemma_invites_changed(db: DbView, after: DbView)
    requires
        db.companies_ok(),
        after.companies == db.companies,
        after.capabilities == db.capabilities,
        after.members == db.members,
        after.next_company_id == db.next_company_id,
        pairwise(after.invite_codes, other_code()),
        every(after.invite_codes, usable()),
    ensures
        after.companies_ok(),
{
}

/// Spending a use of a code that the store holds keeps companies sound.
pub proof fn lemma_consumed_keeps_companies(db: DbView, invite: InviteCodeView)
    requires
        db.companies_ok(),
        db.invite_codes.contains(invite),
    ensures
        consumed(db, invite).companies_ok(),
{
    let after = consumed(db, invite);
    if invite.uses_remaining <= 1 {
        lemma_pairwise_filter(db.invite_codes, not(code_is(invite.code)), other_code());
        lemma_every_filter(db.invite_codes, not(code_is(invite.code)), usable());
    } else {
        let t = choose|t: int| 0 <= t < db.invite_codes.len() && db.invite_codes[t] == invite;
        assert(after.invite_codes.len() == db.invite_codes.len());
        assert forall|i: int| 0 <= i < db.invite_codes.len() implies (#[trigger] after.invite_codes[i]).code
            == db.invite_codes[i].code && after.invite_codes[i].uses_remaining >= 1 by {
            assert(usable()(db.invite_codes[i]));
        }
        assert forall|i: int, j: int| 0 <= i < j < after.invite_codes.len() implies other_code()(
            #[trigger] after.invite_codes[i],
            #[trigger] after.invite_codes[j],
        ) by {
            assert(other_code()(db.invite_codes[i], db.invite_codes[j]));
            assert(after.invite_codes[i].code == db.invite_codes[i].code);
            assert(after.invite_codes[j].code == db.invite_codes[j].code);
        }
        assert forall|i: int| 0 <= i < after.invite_codes.len() implies usable()(#[trigger] after.invite_codes[i]) by {
            assert(after.invite_codes[i].uses_remaining >= 1);
        }
    }
    lemma_invites_changed(db, after);
}

// ---------------------------------------------------------------------
// The procedures
// ---------------------------------------------------------------------

pub proof fn lemma_create_company_keeps_companies(
    c: CtxView,
    name: Seq<char>,
    slug: Seq<char>,
    location: Seq<char>,
)
    requires
        c.db.companies_ok(),
        c.db.people_ok(),
        c.db.next_company_id < u64::MAX,
        c.db.next_member_id < u64::MAX,
    ensures
        create_company_spec(c, name, slug, location) matches Ok(db) ==> db.companies_ok(),
{
    if let Ok(db) = create_company_spec(c, name, slug, location) {
        let id = c.db.next_company_id;
        let company = db.companies[c.db.companies.len() as int];
        let capability = db.capabilities[c.db.capabilities.len() as int];
        let owner = db.members[c.db.members.len() as int];
        assert(db.companies == c.db.companies.push(company));
        assert(db.capabilities == c.db.capabilities.push(capability));
        assert(db.members == c.db.members.push(owner));
        lemma_first_index(c.db.companies, slug_is(crate::text::slug_of(slug)));
        assert forall|i: int| 0 <= i < c.db.companies.len() implies other_company()(#[trigger] c.db.companies[i], company) by {
            assert(company_allocated(c.db.next_company_id)(c.db.companies[i]));
            assert(!slug_is(crate::text::slug_of(slug))(c.db.companies[i]));
        }
        lemma_pairwise_push(c.db.companies, other_company(), company);
        assert forall|i: int| 0 <= i < db.companies.len() implies company_allocated(db.next_company_id)(
            #[trigger] db.companies[i],
        ) by {
            if i < c.db.companies.len() {
                assert(company_allocated(c.db.next_company_id)(c.db.companies[i]));
            }
        }
        assert forall|i: int| 0 <= i < c.db.capabilities.len() implies other_capability()(
            #[trigger] c.db.capabilities[i],
            capability,
        ) by {
            assert(capability_allocated(c.db.next_company_id)(c.db.capabilities[i]));
        }
        lemma_pairwise_push(c.db.capabilities, other_capability(), capability);
        assert forall|i: int| 0 <= i < db.capabilities.len() implies capability_allocated(db.next_company_id)(
            #[trigger] db.capabilities[i],
        ) by {
            if i < c.db.capabilities.len() {
                assert(capability_allocated(c.db.next_company_id)(c.db.capabilities[i]));
            }
        }
        assert forall|k: int| 0 <= k < db.companies.len() implies owner_recorded(db.members)(#[trigger] db.companies[k])
            && equipped(db.capabilities)(db.companies[k]) by {
            if k < c.db.companies.len() {
                let old = c.db.companies[k];
                assert(owner_recorded(c.db.members)(old));
                let i = choose|i: int| 0 <= i < c.db.members.len() && owner_row(old)(#[trigger] c.db.members[i]);
                assert(db.members[i] == c.db.members[i]);
                assert(equipped(c.db.capabilities)(old));
                let e = choose|e: int|
                    0 <= e < c.db.capabilities.len() && capability_of(old.id)(#[trigger] c.db.capabilities[e]);
                assert(db.capabilities[e] == c.db.capabilities[e]);
            } else {
                assert(owner_row(company)(db.members[c.db.members.len() as int]));
                assert(capability_of(company.id)(db.capabilities[c.db.capabilities.len() as int]));
            }
        }
        assert forall|j: int, k: int|
            0 <= j < db.members.len() && 0 <= k < db.companies.len() && (#[trigger] db.members[j]).role
                == UserRole::Owner && db.members[j].company_id == (#[trigger] db.companies[k]).id implies db.members[j].identity
            == db.companies[k].owner_identity by {
            if j < c.db.members.len() {
                assert(member_allocated(c.db.next_member_id, c.db.next_company_id)(c.db.members[j]));
                assert(db.members[j] == c.db.members[j]);
                if k < c.db.companies.len() {
                    assert(db.companies[k] == c.db.companies[k]);
                }
            } else {
                if k < c.db.companies.len() {
                    assert(company_allocated(c.db.next_company_id)(c.db.companies[k]));
                }
            }
        }
    }
}

pub proof fn lemma_generate_invite_code_keeps_companies(c: CtxView, max_uses: u32, draws: Seq<u64>)
    requires
        c.db.companies_ok(),
    ensures
        generate_invite_code_spec(c, max_uses, draws) matches Ok(db) ==> db.companies_ok(),
{
    if let Ok(db) = generate_invite_code_spec(c, max_uses, draws) {
        let row = db.invite_codes[c.db.invite_codes.len() as int];
        lemma_first_index(c.db.invite_codes, code_is(crate::text::code_of(draws)));
        assert forall|i: int| 0 <= i < c.db.invite_codes.len() implies other_code()(#[trigger] c.db.invite_codes[i], row) by {
            assert(!code_is(crate::text::code_of(draws))(c.db.invite_codes[i]));
        }
        lemma_pairwise_push(c.db.invite_codes, other_code(), row);
        lemma_every_push(c.db.invite_codes, usable(), row);
        lemma_invites_changed(c.db, db);
    }
}

pub proof fn lemma_join_with_code_keeps_companies(c: CtxView, code: Seq<char>)
    requires
        c.db.companies_ok(),
    ensures
        join_with_code_spec(c, code) matches Ok(db) ==> db.companies_ok(),
{
    if let Ok(db) = join_with_code_spec(c, code) {
        let account = c.db.account(c.sender)->0;
        let invite = c.db.invite(code)->0;
        lemma_first_index(c.db.invite_codes, code_is(code));
        let recorded = c.db.add_used_invite(c.sender, code, invite.company_id);
        assert(c.db.same_companies(recorded));
        lemma_add_member_keeps_companies(recorded, c.sender, invite.company_id, UserRole::Pending, c.timestamp);
        let joined = recorded.add_member(c.sender, invite.company_id, UserRole::Pending, c.timestamp);
        let settled = if account.active_company_id is None {
            joined.set_active(c.sender, Some(invite.company_id))
        } else {
            joined
        };
        assert(joined.same_companies(settled));
        lemma_consumed_keeps_companies(settled, invite);
        lemma_notify_company_role_core(
            consumed(settled, invite),
            invite.company_id,
            UserRole::Admin,
            Some(c.sender),
            NotificationType::MemberJoined,
            "New member joined"@,
            account.nickname + " joined "@ + c.db.company_name(invite.company_id),
            c.timestamp,
        );
    }
}

pub proof fn lemma_delete_invite_code_keeps_companies(c: CtxView, code: Seq<char>)
    requires
        c.db.companies_ok(),
    ensures
        delete_invite_code_spec(c, code) matches Ok(db) ==> db.companies_ok(),
{
    if let Ok(db) = delete_invite_code_spec(c, code) {
        lemma_pairwise_filter(c.db.invite_codes, not(code_is(code)), other_code());
        lemma_every_filter(c.db.invite_codes, not(code_is(code)), usable());
        lemma_invites_changed(c.db, db);
    }
}

pub proof fn lemma_add_colleague_keeps_companies(c: CtxView, colleague: Identity)
    requires
        c.db.companies_ok(),
    ensures
        add_colleague_by_identity_spec(c, colleague) matches Ok(db) ==> db.companies_ok(),
{
    if let Ok(db) = add_colleague_by_identity_spec(c, colleague) {
        let me = c.db.resolve(c.sender, UserRole::Admin)->Ok_0.1;
        lemma_add_member_keeps_companies(c.db, colleague, me.company_id, UserRole::Member, c.timestamp);
    }
}

pub proof fn lemma_remove_colleague_keeps_companies(c: CtxView, colleague: Identity)
    requires
        c.db.companies_ok(),
        c.db.people_ok(),
    ensures
        remove_colleague_spec(c, colleague) matches Ok(db) ==> db.companies_ok(),
{
    if let Ok(db) = remove_colleague_spec(c, colleague) {
        let me = c.db.resolve(c.sender, UserRole::Admin)->Ok_0.1;
        lemma_member_found(c.db, colleague, me.company_id);
        let theirs = c.db.membership(colleague, me.company_id)->0;
        lemma_drop_member_keeps_companies(c.db, theirs);
    }
}

pub proof fn lemma_leave_company_keeps_companies(c: CtxView)
    requires
        c.db.companies_ok(),
        c.db.people_ok(),
    ensures
        leave_company_spec(c) matches Ok(db) ==> db.companies_ok(),
{
    if let Ok(db) = leave_company_spec(c) {
        let company_id = c.db.account(c.sender)->0.active_company_id->0;
        lemma_member_found(c.db, c.sender, company_id);
        let mine = c.db.membership(c.sender, company_id)->0;
        lemma_drop_member_keeps_companies(c.db, mine);
    }
}

pub proof fn lemma_update_company_profile_keeps_companies(
    c: CtxView,
    name: Seq<char>,
    slug: Seq<char>,
    location: Seq<char>,
    bio: Seq<char>,
    is_public: bool,
    kvk_number: Seq<char>,
)
    requires
        c.db.companies_ok(),
    ensures
        update_company_profile_spec(c, name, slug, location, bio, is_public, kvk_number) matches Ok(db)
            ==> db.companies_ok(),
{
    if let Ok(db) = update_company_profile_spec(c, name, slug, location, bio, is_public, kvk_number) {
        let me = c.db.resolve(c.sender, UserRole::Admin)->Ok_0.1;
        let company = c.db.company(me.company_id)->0;
        let new_slug = crate::text::slug_of(slug);
        lemma_company_found(c.db, me.company_id);
        lemma_first_index(c.db.companies, slug_is(new_slug));
        assert(db.companies.len() == c.db.companies.len());
        assert forall|k: int| 0 <= k < c.db.companies.len() implies (#[trigger] db.companies[k]).id
            == c.db.companies[k].id && db.companies[k].owner_identity == c.db.companies[k].owner_identity && (
        if c.db.companies[k].id == me.company_id {
            db.companies[k].slug == new_slug
        } else {
            db.companies[k] == c.db.companies[k]
        }) by {}
        assert forall|i: int, j: int| 0 <= i < j < db.companies.len() implies other_company()(
            #[trigger] db.companies[i],
            #[trigger] db.companies[j],
        ) by {
            assert(other_company()(c.db.companies[i], c.db.companies[j]));
            assert(db.companies[i].id == c.db.companies[i].id);
            assert(db.companies[j].id == c.db.companies[j].id);
            if new_slug != company.slug {
                assert(!slug_is(new_slug)(c.db.companies[i]));
                assert(!slug_is(new_slug)(c.db.companies[j]));
            }
        }
        assert forall|k: int| 0 <= k < db.companies.len() implies company_allocated(db.next_company_id)(
            #[trigger] db.companies[k],
        ) && owner_recorded(db.members)(db.companies[k]) && equipped(db.capabilities)(db.companies[k]) by {
            let old = c.db.companies[k];
            assert(db.companies[k].id == old.id);
            assert(company_allocated(c.db.next_company_id)(old));
            assert(owner_recorded(c.db.members)(old));
            let i = choose|i: int| 0 <= i < c.db.members.len() && owner_row(old)(#[trigger] c.db.members[i]);
            assert(owner_row(db.companies[k])(db.members[i]));
            assert(equipped(c.db.capabilities)(old));
        }
        assert forall|j: int, k: int|
            0 <= j < db.members.len() && 0 <= k < db.companies.len() && (#[trigger] db.members[j]).role
                == UserRole::Owner && db.members[j].company_id == (#[trigger] db.companies[k]).id implies db.members[j].identity
            == db.companies[k].owner_identity by {
            assert(db.companies[k].id == c.db.companies[k].id);
        }
    }
}

pub proof fn lemma_update_capabilities_keeps_companies(
    c: CtxView,
    can_install: bool,
    has_cnc: bool,
    has_large_format: bool,
    has_bucket_truck: bool,
)
    requires
        c.db.companies_ok(),
    ensures
        update_capabilities_spec(c, can_install, has_cnc, has_large_format, has_bucket_truck) matches Ok(db)
            ==> db.companies_ok(),
{
    if let Ok(db) = update_capabilities_spec(c, can_install, has_cnc, has_large_format, has_bucket_truck) {
        assert(db.capabilities.len() == c.db.capabilities.len());
        assert forall|i: int| 0 <= i < db.capabilities.len() implies (#[trigger] db.capabilities[i]).company_id
            == c.db.capabilities[i].company_id by {}
        assert forall|i: int, j: int| 0 <= i < j < db.capabilities.len() implies other_capability()(
            #[trigger] db.capabilities[i],
            #[trigger] db.capabilities[j],
        ) by {
            assert(other_capability()(c.db.capabilities[i], c.db.capabilities[j]));
            assert(db.capabilities[i].company_id == c.db.capabilities[i].company_id);
            assert(db.capabilities[j].company_id == c.db.capabilities[j].company_id);
        }
        assert forall|i: int| 0 <= i < db.capabilities.len() implies capability_allocated(db.next_company_id)(
            #[trigger] db.capabilities[i],
        ) by {
            assert(capability_allocated(c.db.next_company_id)(c.db.capabilities[i]));
            assert(db.capabilities[i].company_id == c.db.capabilities[i].company_id);
        }
        assert forall|k: int| 0 <= k < db.companies.len() implies equipped(db.capabilities)(#[trigger] db.companies[k]) by {
            let company = c.db.companies[k];
            assert(equipped(c.db.capabilities)(company));
            let e = choose|e: int|
                0 <= e < c.db.capabilities.len() && capability_of(company.id)(#[trigger] c.db.capabilities[e]);
            assert(db.capabilities[e].company_id == c.db.capabilities[e].company_id);
            assert(capability_of(company.id)(db.capabilities[e]));
        }
    }
}

pub proof fn lemma_update_user_role_keeps_companies(c: CtxView, target: Identity, new_role: UserRole)
    requires
        c.db.companies_ok(),
        c.db.people_ok(),
    ensures
        update_user_role_spec(c, target, new_role) matches Ok(db) ==> db.companies_ok(),
{
    if let Ok(db) = update_user_role_spec(c, target, new_role) {
        let me = c.db.resolve(c.sender, UserRole::Admin)->Ok_0.1;
        lemma_member_found(c.db, target, me.company_id);
        let theirs = c.db.membership(target, me.company_id)->0;
        lemma_set_role_keeps_companies(c.db, theirs, new_role);
    }
}

pub proof fn lemma_transfer_ownership_keeps_companies(c: CtxView, new_owner: Identity)
    requires
        c.db.companies_ok(),
        c.db.people_ok(),
    ensures
        transfer_ownership_spec(c, new_owner) matches Ok(db) ==> db.companies_ok(),
{
    if let Ok(db) = transfer_ownership_spec(c, new_owner) {
        lemma_resolve_ok(c.db, c.sender, UserRole::Owner);
        let me = c.db.resolve(c.sender, UserRole::Owner)->Ok_0.1;
        let company_id = me.company_id;
        lemma_member_found(c.db, c.sender, company_id);
        lemma_member_found(c.db, new_owner, company_id);
        lemma_company_found(c.db, company_id);
        let theirs = c.db.membership(new_owner, company_id)->0;
        let company = c.db.company(company_id)->0;
        let a = choose|a: int| 0 <= a < c.db.members.len() && c.db.members[a] == me;
        let b = choose|b: int| 0 <= b < c.db.members.len() && c.db.members[b] == theirs;
        assert(db.members.len() == c.db.members.len());
        assert(db.companies.len() == c.db.companies.len());
        // Only the two rows change.
        assert forall|i: int| 0 <= i < c.db.members.len() implies (#[trigger] db.members[i]) == if i == a {
            CompanyMember { role: UserRole::Admin, ..me }
        } else if i == b {
            CompanyMember { role: UserRole::Owner, ..theirs }
        } else {
            c.db.members[i]
        } by {
            if i != a {
                if i < a {
                    assert(other_member()(c.db.members[i], c.db.members[a]));
                } else {
                    assert(other_member()(c.db.members[a], c.db.members[i]));
                }
            }
            if i != b {
                if i < b {
                    assert(other_member()(c.db.members[i], c.db.members[b]));
                } else {
                    assert(other_member()(c.db.members[b], c.db.members[i]));
                }
            }
            if a != b {
                if a < b {
                    assert(other_member()(c.db.members[a], c.db.members[b]));
                } else {
                    assert(other_member()(c.db.members[b], c.db.members[a]));
                }
            }
        }
        assert forall|k: int| 0 <= k < c.db.companies.len() implies (#[trigger] db.companies[k]) == if c.db.companies[k].id
            == company_id {
            CompanyView { owner_identity: new_owner, ..company }
        } else {
            c.db.companies[k]
        } by {}
        assert forall|i: int, j: int| 0 <= i < j < db.companies.len() implies other_company()(
            #[trigger] db.companies[i],
            #[trigger] db.companies[j],
        ) by {
            assert(other_company()(c.db.companies[i], c.db.companies[j]));
        }
        assert forall|k: int| 0 <= k < db.companies.len() implies company_allocated(db.next_company_id)(
            #[trigger] db.companies[k],
        ) && owner_recorded(db.members)(db.companies[k]) && equipped(db.capabilities)(db.companies[k]) by {
            let old = c.db.companies[k];
            assert(company_allocated(c.db.next_company_id)(old));
            assert(equipped(c.db.capabilities)(old));
            if old.id == company_id {
                assert(owner_row(db.companies[k])(db.members[b]));
            } else {
                assert(owner_recorded(c.db.members)(old));
                let i = choose|i: int| 0 <= i < c.db.members.len() && owner_row(old)(#[trigger] c.db.members[i]);
                assert(db.members[i] == c.db.members[i]);
            }
        }
        assert forall|j: int, k: int|
            0 <= j < db.members.len() && 0 <= k < db.companies.len() && (#[trigger] db.members[j]).role
                == UserRole::Owner && db.members[j].company_id == (#[trigger] db.companies[k]).id implies db.members[j].identity
            == db.companies[k].owner_identity by {
            if j != b {
                assert(c.db.members[j].role == UserRole::Owner);
                assert(c.db.members[j].company_id == c.db.companies[k].id);
                if c.db.companies[k].id == company_id {
                    // An Owner of the company is its recorded owner, the
                    // caller, whose only membership of it is `me`.
                    assert(c.db.members[j].identity == c.sender);
                    if j < a {
                        assert(other_member()(c.db.members[j], c.db.members[a]));
                    } else if a < j {
                        assert(other_member()(c.db.members[a], c.db.members[j]));
                    }
                }
            }
        }
    }
}

pub proof fn lemma_delete_company_keeps_companies(c: CtxView)
    requires
        c.db.companies_ok(),
        c.db.people_ok(),
    ensures
        delete_company_spec(c) matches Ok(db) ==> db.companies_ok(),
{
    if let Ok(db) = delete_company_spec(c) {
        let company_id = c.db.resolve(c.sender, UserRole::Owner)->Ok_0.1.company_id;
        lemma_delete_company_cascade(c.db, company_id);
        lemma_pairwise_filter(c.db.companies, not(company_is(company_id)), other_company());
        lemma_every_filter(c.db.companies, not(company_is(company_id)), company_allocated(c.db.next_company_id));
        lemma_pairwise_filter(c.db.capabilities, not(capability_of(company_id)), other_capability());
        lemma_every_filter(
            c.db.capabilities,
            not(capability_of(company_id)),
            capability_allocated(c.db.next_company_id),
        );
        lemma_pairwise_filter(c.db.invite_codes, not(invite_for(company_id)), other_code());
        lemma_every_filter(c.db.invite_codes, not(invite_for(company_id)), usable());
        lemma_filter_exact(c.db.companies, not(company_is(company_id)));
        lemma_filter_exact(c.db.members, not(member_in(company_id)));
        lemma_filter_exact(c.db.capabilities, not(capability_of(company_id)));
        assert(db.next_company_id == c.db.next_company_id) by {
            crate::proofs::people::lemma_delete_company_cascade_ids(c.db, company_id);
        }
        assert forall|k: int| 0 <= k < db.companies.len() implies owner_recorded(db.members)(#[trigger] db.companies[k])
            && equipped(db.capabilities)(db.companies[k]) by {
            let company = db.companies[k];
            assert(db.companies.contains(company));
            assert(c.db.companies.contains(company));
            assert(not(company_is(company_id))(company));
            let o = choose|o: int| 0 <= o < c.db.companies.len() && c.db.companies[o] == company;
            assert(owner_recorded(c.db.members)(c.db.companies[o]));
            let i = choose|i: int| 0 <= i < c.db.members.len() && owner_row(company)(#[trigger] c.db.members[i]);
            assert(c.db.members.contains(c.db.members[i]));
            assert(not(member_in(company_id))(c.db.members[i]));
            assert(db.members.contains(c.db.members[i]));
            let j = choose|j: int| 0 <= j < db.members.len() && db.members[j] == c.db.members[i];
            assert(owner_row(company)(db.members[j]));
            assert(equipped(c.db.capabilities)(c.db.companies[o]));
            let e = choose|e: int|
                0 <= e < c.db.capabilities.len() && capability_of(company.id)(#[trigger] c.db.capabilities[e]);
            assert(c.db.capabilities.contains(c.db.capabilities[e]));
            assert(not(capability_of(company_id))(c.db.capabilities[e]));
            assert(db.capabilities.contains(c.db.capabilities[e]));
            let f = choose|f: int| 0 <= f < db.capabilities.len() && db.capabilities[f] == c.db.capabilities[e];
            assert(capability_of(company.id)(db.capabilities[f]));
        }
        assert forall|j: int, k: int|
            0 <= j < db.members.len() && 0 <= k < db.companies.len() && (#[trigger] db.members[j]).role
                == UserRole::Owner && db.members[j].company_id == (#[trigger] db.companies[k]).id implies db.members[j].identity
            == db.companies[k].owner_identity by {
            assert(db.members.contains(db.members[j]));
            assert(c.db.members.contains(db.members[j]));
            assert(db.companies.contains(db.companies[k]));
            assert(c.db.companies.contains(db.companies[k]));
            let i = choose|i: int| 0 <= i < c.db.members.len() && c.db.members[i] == db.members[j];
            let o = choose|o: int| 0 <= o < c.db.companies.len() && c.db.companies[o] == db.companies[k];
            assert(c.db.members[i].role == UserRole::Owner && c.db.members[i].company_id == c.db.companies[o].id);
        }
    }
}

} // verus!
