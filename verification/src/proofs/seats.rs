//! Each procedure keeps what holds of projects and seats.

use vstd::prelude::*;
use crate::context::CtxView;
use crate::model::{
    DbView, accepted_in, not, owned_by, project_is, seat_id_is, seat_in, seat_is, seat_of,
    seat_with,
};
use crate::projects::{
    accept_project_invite_spec, create_project_spec, decline_project_invite_spec,
    delete_project_spec, invite_to_project_spec, kick_from_project_spec, leave_project_spec,
    vacated,
};
use crate::proofs::people::lemma_notify_companies_core;
use crate::roles::{Identity, NotificationType, ProjectMemberStatus, Timestamp, UserRole};
use crate::rows::ProjectMember;
use crate::seqs::{
    every, first_index, lemma_every_filter, lemma_filter_exact, lemma_first_index,
    lemma_pairwise_filter, none_match,
};
use crate::soundness::{
    lemma_pairwise_push, other_project, other_seat, owner_seated, project_allocated, seat_allocated,
};

verus! {

/// A seat that a lookup by status finds is a row of the store.
pub proof fn lemma_seat_found(db: DbView, project_id: u64, company_id: u64, status: ProjectMemberStatus)
    ensures
        match db.seat_with(project_id, company_id, status) {
            Some(seat) => {
                &&& db.project_members.contains(seat)
                &&& seat.project_id == project_id
                &&& seat.company_id == company_id
                &&& seat.status == status
            },
            None => none_match(db.project_members, seat_with(project_id, company_id, status)),
        },
{
    lemma_first_index(db.project_members, seat_with(project_id, company_id, status));
}

/// The first seat of a company in a project is a row of the store, and
/// where there is none no row is a seat of the company in the project.
pub proof fn lemma_first_seat_found(db: DbView, project_id: u64, company_id: u64)
    ensures
        match db.seat(project_id, company_id) {
            Some(seat) => {
                &&& db.project_members.contains(seat)
                &&& seat.project_id == project_id
                &&& seat.company_id == company_id
            },
            None => none_match(db.project_members, seat_is(project_id, company_id)),
        },
{
    lemma_first_index(db.project_members, seat_is(project_id, company_id));
}

/// A project that a lookup finds is a row of the store.
pub proof fn lemma_project_found(db: DbView, project_id: u64)
    requires
        db.projects_ok(),
    ensures
        match db.project(project_id) {
            Some(project) => {
                &&& db.projects.contains(project)
                &&& project.id == project_id
                &&& project_id < db.next_project_id
                &&& owner_seated(db.project_members)(project)
                &&& forall|k: int|
                    0 <= k < db.projects.len() && (#[trigger] db.projects[k]).id == project_id ==> db.projects[k]
                        == project
            },
            None => none_match(db.projects, project_is(project_id)),
        },
{
    lemma_first_index(db.projects, project_is(project_id));
    if let Some(i) = first_index(db.projects, project_is(project_id)) {
        assert(project_allocated(db.next_project_id)(db.projects[i]));
        assert(owner_seated(db.project_members)(db.projects[i]));
        assert forall|k: int|
            0 <= k < db.projects.len() && (#[trigger] db.projects[k]).id == project_id implies db.projects[k]
            == db.projects[i] by {
            if k < i {
                assert(other_project()(db.projects[k], db.projects[i]));
            } else if i < k {
                assert(other_project()(db.projects[i], db.projects[k]));
            }
        }
    }
}

/// The seats that share the id of a seat of a sound store are that seat.
pub proof fn lemma_seat_id_unique(db: DbView, seat: ProjectMember, i: int)
    requires
        db.projects_ok(),
        db.project_members.contains(seat),
        0 <= i < db.project_members.len(),
        db.project_members[i].id == seat.id || (db.project_members[i].project_id == seat.project_id
            && db.project_members[i].company_id == seat.company_id),
    ensures
        db.project_members[i] == seat,
{
    let k = choose|k: int| 0 <= k < db.project_members.len() && db.project_members[k] == seat;
    if i < k {
        assert(other_seat()(db.project_members[i], db.project_members[k]));
    } else if k < i {
        assert(other_seat()(db.project_members[k], db.project_members[i]));
    }
}

/// A project deleted with its seats and chat leaves the others sound.
pub proof fn lemma_cascade_keeps_projects(db: DbView, project_id: u64)
    requires
        db.projects_ok(),
    ensures
        db.delete_project_cascade(project_id).projects_ok(),
        forall|k: int|
            0 <= k < db.delete_project_cascade(project_id).projects.len() ==> db.projects.contains(
                #[trigger] db.delete_project_cascade(project_id).projects[k],
            ) && db.delete_project_cascade(project_id).projects[k].id != project_id,
{
    let after = db.delete_project_cascade(project_id);
    lemma_pairwise_filter(db.project_members, not(seat_in(project_id)), other_seat());
    lemma_every_filter(
        db.project_members,
        not(seat_in(project_id)),
        seat_allocated(db.next_project_member_id, db.next_project_id),
    );
    lemma_pairwise_filter(db.projects, not(project_is(project_id)), other_project());
    lemma_every_filter(db.projects, not(project_is(project_id)), project_allocated(db.next_project_id));
    lemma_filter_exact(db.projects, not(project_is(project_id)));
    lemma_filter_exact(db.project_members, not(seat_in(project_id)));
    assert forall|k: int| 0 <= k < after.projects.len() implies db.projects.contains(#[trigger] after.projects[k])
        && after.projects[k].id != project_id && owner_seated(after.project_members)(after.projects[k]) by {
        let p = after.projects[k];
        assert(after.projects.contains(p));
        assert(not(project_is(project_id))(p));
        let j = choose|j: int| 0 <= j < db.projects.len() && db.projects[j] == p;
        assert(owner_seated(db.project_members)(db.projects[j]));
        let q = seat_with(p.id, p.owner_company_id, ProjectMemberStatus::Accepted);
        let s = choose|s: int| 0 <= s < db.project_members.len() && q(#[trigger] db.project_members[s]);
        let seat = db.project_members[s];
        assert(db.project_members.contains(seat));
        assert(not(seat_in(project_id))(seat));
        assert(after.project_members.contains(seat));
        let t = choose|t: int| 0 <= t < after.project_members.len() && after.project_members[t] == seat;
        assert(q(after.project_members[t]));
    }
}

/// A seat that becomes Accepted keeps projects sound.
pub proof fn lemma_accept_seat_keeps_projects(db: DbView, id: u64, now: Timestamp)
    requires
        db.projects_ok(),
    ensures
        db.accept_seat(id, now).projects_ok(),
{
    let after = db.accept_seat(id, now).project_members;
    assert(after.len() == db.project_members.len());
    assert forall|i: int| 0 <= i < after.len() implies (#[trigger] after[i]).id == db.project_members[i].id
        && after[i].project_id == db.project_members[i].project_id && after[i].company_id
        == db.project_members[i].company_id && (db.project_members[i].status == ProjectMemberStatus::Accepted
        ==> after[i].status == ProjectMemberStatus::Accepted) by {}
    lemma_seats_changed(db, db.accept_seat(id, now));
}

/// A change of seats that keeps ids, projects and companies, and every
/// Accepted seat of an owner, keeps projects sound.
pub proof fn lemma_seats_changed(db: DbView, after: DbView)
    requires
        db.projects_ok(),
        after.projects == db.projects,
        after.next_project_id == db.next_project_id,
        after.next_project_member_id == db.next_project_member_id,
        after.project_members.len() == db.project_members.len(),
        forall|i: int|
            0 <= i < db.project_members.len() ==> {
                &&& (#[trigger] after.project_members[i]).id == db.project_members[i].id
                &&& after.project_members[i].project_id == db.project_members[i].project_id
                &&& after.project_members[i].company_id == db.project_members[i].company_id
            },
        forall|i: int, k: int|
            0 <= i < db.project_members.len() && 0 <= k < db.projects.len() && seat_with(
                (#[trigger] db.projects[k]).id,
                db.projects[k].owner_company_id,
                ProjectMemberStatus::Accepted,
            )(#[trigger] db.project_members[i]) ==> after.project_members[i].status
                == ProjectMemberStatus::Accepted,
    ensures
        after.projects_ok(),
{
    assert forall|i: int, j: int| 0 <= i < j < after.project_members.len() implies other_seat()(
        #[trigger] after.project_members[i],
        #[trigger] after.project_members[j],
    ) by {
        assert(other_seat()(db.project_members[i], db.project_members[j]));
        assert(after.project_members[i].id == db.project_members[i].id);
        assert(after.project_members[j].id == db.project_members[j].id);
    }
    assert forall|i: int| 0 <= i < after.project_members.len() implies seat_allocated(
        after.next_project_member_id,
        after.next_project_id,
    )(#[trigger] after.project_members[i]) by {
        assert(seat_allocated(db.next_project_member_id, db.next_project_id)(db.project_members[i]));
        assert(after.project_members[i].id == db.project_members[i].id);
    }
    assert forall|k: int| 0 <= k < after.projects.len() implies owner_seated(after.project_members)(
        #[trigger] after.projects[k],
    ) by {
        let p = db.projects[k];
        assert(owner_seated(db.project_members)(p));
        let q = seat_with(p.id, p.owner_company_id, ProjectMemberStatus::Accepted);
        let s = choose|s: int| 0 <= s < db.project_members.len() && q(#[trigger] db.project_members[s]);
        assert(after.project_members[s].id == db.project_members[s].id);
        assert(q(after.project_members[s]));
    }
}

/// The status of a seat that is not its project owner's changed.
pub proof fn lemma_set_seat_status_keeps_projects(db: DbView, seat: ProjectMember, status: ProjectMemberStatus)
    requires
        db.projects_ok(),
        db.project_members.contains(seat),
        forall|k: int|
            0 <= k < db.projects.len() ==> !((#[trigger] db.projects[k]).id == seat.project_id
                && db.projects[k].owner_company_id == seat.company_id),
    ensures
        db.set_seat_status(seat.id, status).projects_ok(),
{
    let after = db.set_seat_status(seat.id, status);
    assert(after.project_members.len() == db.project_members.len());
    assert forall|i: int| 0 <= i < db.project_members.len() implies {
        &&& (#[trigger] after.project_members[i]).id == db.project_members[i].id
        &&& after.project_members[i].project_id == db.project_members[i].project_id
        &&& after.project_members[i].company_id == db.project_members[i].company_id
    } by {}
    assert forall|i: int, k: int|
        0 <= i < db.project_members.len() && 0 <= k < db.projects.len() && seat_with(
            (#[trigger] db.projects[k]).id,
            db.projects[k].owner_company_id,
            ProjectMemberStatus::Accepted,
        )(#[trigger] db.project_members[i]) implies after.project_members[i].status
        == ProjectMemberStatus::Accepted by {
        if db.project_members[i].id == seat.id {
            lemma_seat_id_unique(db, seat, i);
        }
    }
    lemma_seats_changed(db, after);
}

/// A seat that is not Accepted deleted.
pub proof fn lemma_drop_seat_keeps_projects(db: DbView, seat: ProjectMember)
    requires
        db.projects_ok(),
        db.project_members.contains(seat),
        seat.status != ProjectMemberStatus::Accepted,
    ensures
        db.drop_seat(seat.id).projects_ok(),
        none_match(db.drop_seat(seat.id).project_members, seat_is(seat.project_id, seat.company_id)),
{
    let after = db.drop_seat(seat.id);
    lemma_pairwise_filter(db.project_members, not(seat_id_is(seat.id)), other_seat());
    lemma_every_filter(
        db.project_members,
        not(seat_id_is(seat.id)),
        seat_allocated(db.next_project_member_id, db.next_project_id),
    );
    lemma_filter_exact(db.project_members, not(seat_id_is(seat.id)));
    assert forall|k: int| 0 <= k < after.projects.len() implies owner_seated(after.project_members)(
        #[trigger] after.projects[k],
    ) by {
        let p = db.projects[k];
        assert(owner_seated(db.project_members)(p));
        let q = seat_with(p.id, p.owner_company_id, ProjectMemberStatus::Accepted);
        let s = choose|s: int| 0 <= s < db.project_members.len() && q(#[trigger] db.project_members[s]);
        let kept = db.project_members[s];
        assert(db.project_members.contains(kept));
        if kept.id == seat.id {
            lemma_seat_id_unique(db, seat, s);
        }
        assert(after.project_members.contains(kept));
        let t = choose|t: int| 0 <= t < after.project_members.len() && after.project_members[t] == kept;
        assert(q(after.project_members[t]));
    }
    assert forall|t: int| 0 <= t < after.project_members.len() implies !seat_is(seat.project_id, seat.company_id)(
        #[trigger] after.project_members[t],
    ) by {
        let m = after.project_members[t];
        assert(after.project_members.contains(m));
        assert(db.project_members.contains(m));
        assert(not(seat_id_is(seat.id))(m));
        if seat_is(seat.project_id, seat.company_id)(m) {
            let j = choose|j: int| 0 <= j < db.project_members.len() && db.project_members[j] == m;
            lemma_seat_id_unique(db, seat, j);
        }
    }
}

/// A seat more, of a company that has none in the project.
pub proof fn lemma_add_seat_keeps_projects(
    db: DbView,
    project_id: u64,
    company_id: u64,
    status: ProjectMemberStatus,
    who: Identity,
    now: Timestamp,
)
    requires
        db.projects_ok(),
        none_match(db.project_members, seat_is(project_id, company_id)),
        project_id < db.next_project_id,
        db.next_project_member_id < u64::MAX,
    ensures
        db.add_seat(project_id, company_id, status, who, now).projects_ok(),
{
    let after = db.add_seat(project_id, company_id, status, who, now);
    let row = after.project_members[db.project_members.len() as int];
    assert forall|i: int| 0 <= i < db.project_members.len() implies other_seat()(#[trigger] db.project_members[i], row) by {
        assert(seat_allocated(db.next_project_member_id, db.next_project_id)(db.project_members[i]));
        assert(!seat_is(project_id, company_id)(db.project_members[i]));
    }
    lemma_pairwise_push(db.project_members, other_seat(), row);
    assert forall|i: int| 0 <= i < after.project_members.len() implies seat_allocated(
        after.next_project_member_id,
        after.next_project_id,
    )(#[trigger] after.project_members[i]) by {
        if i < db.project_members.len() {
            assert(seat_allocated(db.next_project_member_id, db.next_project_id)(db.project_members[i]));
        }
    }
    assert forall|k: int| 0 <= k < after.projects.len() implies owner_seated(after.project_members)(
        #[trigger] after.projects[k],
    ) by {
        let p = db.projects[k];
        assert(owner_seated(db.project_members)(p));
        let q = seat_with(p.id, p.owner_company_id, ProjectMemberStatus::Accepted);
        let s = choose|s: int| 0 <= s < db.project_members.len() && q(#[trigger] db.project_members[s]);
        assert(after.project_members[s] == db.project_members[s]);
    }
}

// ---------------------------------------------------------------------
// The procedures
// ---------------------------------------------------------------------

pub proof fn lemma_create_project_keeps_projects(c: CtxView, name: Seq<char>, description: Seq<char>)
    requires
        c.db.projects_ok(),
        c.db.next_project_id < u64::MAX,
        c.db.next_project_member_id < u64::MAX,
    ensures
        create_project_spec(c, name, description) matches Ok(db) ==> db.projects_ok(),
{
    if let Ok(db) = create_project_spec(c, name, description) {
        let me = c.db.resolve(c.sender, UserRole::Admin)->Ok_0.1;
        let id = c.db.next_project_id;
        let opened = c.db.add_project(
            me.company_id,
            crate::text::trimmed(name),
            crate::text::trimmed(description),
            c.sender,
            c.timestamp,
        );
        let project = opened.projects[c.db.projects.len() as int];
        let seat = db.project_members[c.db.project_members.len() as int];
        assert forall|i: int| 0 <= i < c.db.projects.len() implies other_project()(#[trigger] c.db.projects[i], project) by {
            assert(project_allocated(c.db.next_project_id)(c.db.projects[i]));
        }
        lemma_pairwise_push(c.db.projects, other_project(), project);
        assert forall|i: int| 0 <= i < db.projects.len() implies project_allocated(db.next_project_id)(
            #[trigger] db.projects[i],
        ) by {
            if i < c.db.projects.len() {
                assert(project_allocated(c.db.next_project_id)(c.db.projects[i]));
            }
        }
        assert forall|i: int| 0 <= i < c.db.project_members.len() implies other_seat()(
            #[trigger] c.db.project_members[i],
            seat,
        ) by {
            assert(seat_allocated(c.db.next_project_member_id, c.db.next_project_id)(c.db.project_members[i]));
        }
        lemma_pairwise_push(c.db.project_members, other_seat(), seat);
        assert forall|i: int| 0 <= i < db.project_members.len() implies seat_allocated(
            db.next_project_member_id,
            db.next_project_id,
        )(#[trigger] db.project_members[i]) by {
            if i < c.db.project_members.len() {
                assert(seat_allocated(c.db.next_project_member_id, c.db.next_project_id)(c.db.project_members[i]));
            }
        }
        assert forall|k: int| 0 <= k < db.projects.len() implies owner_seated(db.project_members)(
            #[trigger] db.projects[k],
        ) by {
            if k < c.db.projects.len() {
                let p = c.db.projects[k];
                assert(owner_seated(c.db.project_members)(p));
                let q = seat_with(p.id, p.owner_company_id, ProjectMemberStatus::Accepted);
                let s = choose|s: int| 0 <= s < c.db.project_members.len() && q(#[trigger] c.db.project_members[s]);
                assert(db.project_members[s] == c.db.project_members[s]);
            } else {
                assert(seat_with(id, me.company_id, ProjectMemberStatus::Accepted)(
                    db.project_members[c.db.project_members.len() as int],
                ));
            }
        }
    }
}

pub proof fn lemma_invite_to_project_keeps_projects(c: CtxView, project_id: u64, target_company_id: u64)
    requires
        c.db.projects_ok(),
        c.db.next_project_member_id < u64::MAX,
    ensures
        invite_to_project_spec(c, project_id, target_company_id) matches Ok(db) ==> db.projects_ok(),
{
    if let Ok(db) = invite_to_project_spec(c, project_id, target_company_id) {
        lemma_project_found(c.db, project_id);
        lemma_first_seat_found(c.db, project_id, target_company_id);
        let cleared = vacated(c.db, project_id, target_company_id);
        if let Some(seat) = c.db.seat(project_id, target_company_id) {
            lemma_drop_seat_keeps_projects(c.db, seat);
        }
        lemma_add_seat_keeps_projects(
            cleared,
            project_id,
            target_company_id,
            ProjectMemberStatus::Invited,
            c.sender,
            c.timestamp,
        );
    }
}

pub proof fn lemma_accept_project_invite_keeps_projects(c: CtxView, project_id: u64)
    requires
        c.db.projects_ok(),
    ensures
        accept_project_invite_spec(c, project_id) matches Ok(db) ==> db.projects_ok(),
{
    if let Ok(db) = accept_project_invite_spec(c, project_id) {
        let me = c.db.resolve(c.sender, UserRole::Admin)->Ok_0.1;
        let project = c.db.project(project_id)->0;
        let seat = c.db.seat_with(project_id, me.company_id, ProjectMemberStatus::Invited)->0;
        let seated = c.db.accept_seat(seat.id, c.timestamp);
        let label = c.db.company_label(me.company_id);
        lemma_accept_seat_keeps_projects(c.db, seat.id, c.timestamp);
        lemma_notify_companies_core(
            seated,
            seated.other_accepted(project_id, me.company_id, me.company_id),
            UserRole::Admin,
            NotificationType::ProjectAccepted,
            label + " joined project"@,
            label + " accepted the invitation to project '"@ + project.name + "'"@,
            c.timestamp,
        );
    }
}

pub proof fn lemma_decline_project_invite_keeps_projects(c: CtxView, project_id: u64)
    requires
        c.db.projects_ok(),
    ensures
        decline_project_invite_spec(c, project_id) matches Ok(db) ==> db.projects_ok(),
{
    if let Ok(db) = decline_project_invite_spec(c, project_id) {
        let me = c.db.resolve(c.sender, UserRole::Admin)->Ok_0.1;
        let seat = c.db.seat_with(project_id, me.company_id, ProjectMemberStatus::Invited)->0;
        lemma_seat_found(c.db, project_id, me.company_id, ProjectMemberStatus::Invited);
        lemma_drop_seat_keeps_projects(c.db, seat);
    }
}

pub proof fn lemma_leave_project_keeps_projects(c: CtxView, project_id: u64)
    requires
        c.db.projects_ok(),
    ensures
        leave_project_spec(c, project_id) matches Ok(db) ==> db.projects_ok(),
{
    if let Ok(db) = leave_project_spec(c, project_id) {
        let me = c.db.resolve(c.sender, UserRole::Admin)->Ok_0.1;
        let project = c.db.project(project_id)->0;
        let seat = c.db.seat_with(project_id, me.company_id, ProjectMemberStatus::Accepted)->0;
        lemma_project_found(c.db, project_id);
        lemma_seat_found(c.db, project_id, me.company_id, ProjectMemberStatus::Accepted);
        lemma_set_seat_status_keeps_projects(c.db, seat, ProjectMemberStatus::Left);
        let left = c.db.set_seat_status(seat.id, ProjectMemberStatus::Left);
        let label = c.db.company_label(me.company_id);
        let told = left.notify_companies(
            left.other_accepted(project_id, me.company_id, me.company_id),
            UserRole::Admin,
            NotificationType::ProjectLeft,
            label + " left project"@,
            label + " left project '"@ + project.name + "'"@,
            c.timestamp,
        );
        lemma_notify_companies_core(
            left,
            left.other_accepted(project_id, me.company_id, me.company_id),
            UserRole::Admin,
            NotificationType::ProjectLeft,
            label + " left project"@,
            label + " left project '"@ + project.name + "'"@,
            c.timestamp,
        );
        assert(told.projects_ok());
        lemma_cascade_keeps_projects(told, project_id);
    }
}

pub proof fn lemma_kick_from_project_keeps_projects(c: CtxView, project_id: u64, target_company_id: u64)
    requires
        c.db.projects_ok(),
    ensures
        kick_from_project_spec(c, project_id, target_company_id) matches Ok(db) ==> db.projects_ok(),
        kick_from_project_spec(c, project_id, target_company_id) matches Ok(db) ==> db.projects == c.db.projects,
{
    if let Ok(db) = kick_from_project_spec(c, project_id, target_company_id) {
        let me = c.db.resolve(c.sender, UserRole::Admin)->Ok_0.1;
        let project = c.db.project(project_id)->0;
        let seat = c.db.seat_with(project_id, target_company_id, ProjectMemberStatus::Accepted)->0;
        lemma_project_found(c.db, project_id);
        lemma_seat_found(c.db, project_id, target_company_id, ProjectMemberStatus::Accepted);
        lemma_set_seat_status_keeps_projects(c.db, seat, ProjectMemberStatus::Kicked);
        let label = c.db.company_label(target_company_id);
        let kicked = c.db.set_seat_status(seat.id, ProjectMemberStatus::Kicked).notify_company_role(
            target_company_id,
            UserRole::Admin,
            None,
            NotificationType::ProjectKicked,
            "Removed from project '"@ + project.name + "'"@,
            "Your company has been removed from project '"@ + project.name + "'"@,
            c.timestamp,
        );
        lemma_notify_companies_core(
            kicked,
            kicked.other_accepted(project_id, me.company_id, target_company_id),
            UserRole::Admin,
            NotificationType::ProjectKicked,
            label + " removed from project"@,
            label + " was removed from project '"@ + project.name + "'"@,
            c.timestamp,
        );
    }
}

pub proof fn lemma_delete_project_keeps_projects(c: CtxView, project_id: u64)
    requires
        c.db.projects_ok(),
    ensures
        delete_project_spec(c, project_id) matches Ok(db) ==> db.projects_ok(),
{
    if let Ok(db) = delete_project_spec(c, project_id) {
        let me = c.db.resolve(c.sender, UserRole::Admin)->Ok_0.1;
        let project = c.db.project(project_id)->0;
        let told = c.db.notify_companies(
            c.db.other_accepted(project_id, me.company_id, me.company_id),
            UserRole::Admin,
            NotificationType::ProjectLeft,
            "Project '"@ + project.name + "' deleted"@,
            "Project '"@ + project.name + "' has been deleted by the owner"@,
            c.timestamp,
        );
        lemma_notify_companies_core(
            c.db,
            c.db.other_accepted(project_id, me.company_id, me.company_id),
            UserRole::Admin,
            NotificationType::ProjectLeft,
            "Project '"@ + project.name + "' deleted"@,
            "Project '"@ + project.name + "' has been deleted by the owner"@,
            c.timestamp,
        );
        assert(told.projects_ok());
        lemma_cascade_keeps_projects(told, project_id);
    }
}

// ---------------------------------------------------------------------
// The deletion of a company
// ---------------------------------------------------------------------

/// Deleting projects one after another keeps the others sound; what is
/// left are projects of before with other ids.
pub proof fn lemma_delete_projects_keeps_projects(db: DbView, project_ids: Seq<u64>)
    requires
        db.projects_ok(),
    ensures
        db.delete_projects(project_ids).projects_ok(),
        forall|k: int|
            0 <= k < db.delete_projects(project_ids).projects.len() ==> db.projects.contains(
                #[trigger] db.delete_projects(project_ids).projects[k],
            ) && !project_ids.contains(db.delete_projects(project_ids).projects[k].id),
    decreases project_ids.len(),
{
    if project_ids.len() > 0 {
        let before = db.delete_projects(project_ids.drop_last());
        let after = db.delete_projects(project_ids);
        lemma_delete_projects_keeps_projects(db, project_ids.drop_last());
        lemma_cascade_keeps_projects(before, project_ids.last());
        assert forall|k: int| 0 <= k < after.projects.len() implies db.projects.contains(#[trigger] after.projects[k])
            && !project_ids.contains(after.projects[k].id) by {
            let p = after.projects[k];
            assert(before.projects.contains(p));
            let j = choose|j: int| 0 <= j < before.projects.len() && before.projects[j] == p;
            assert(db.projects.contains(before.projects[j]));
            if project_ids.contains(p.id) {
                let i = choose|i: int| 0 <= i < project_ids.len() && project_ids[i] == p.id;
                if i < project_ids.len() - 1 {
                    assert(project_ids.drop_last()[i] == p.id);
                    assert(project_ids.drop_last().contains(p.id));
                }
            }
        }
    }
}

/// Deleting the seats of a company that owns no project keeps projects
/// sound.
pub proof fn lemma_drop_seats_of_keeps_projects(db: DbView, company_id: u64)
    requires
        db.projects_ok(),
        forall|k: int| 0 <= k < db.projects.len() ==> (#[trigger] db.projects[k]).owner_company_id != company_id,
    ensures
        db.drop_seats_of(company_id).projects_ok(),
{
    let after = db.drop_seats_of(company_id);
    lemma_pairwise_filter(db.project_members, not(seat_of(company_id)), other_seat());
    lemma_every_filter(
        db.project_members,
        not(seat_of(company_id)),
        seat_allocated(db.next_project_member_id, db.next_project_id),
    );
    lemma_filter_exact(db.project_members, not(seat_of(company_id)));
    assert forall|k: int| 0 <= k < after.projects.len() implies owner_seated(after.project_members)(
        #[trigger] after.projects[k],
    ) by {
        let p = db.projects[k];
        assert(owner_seated(db.project_members)(p));
        let q = seat_with(p.id, p.owner_company_id, ProjectMemberStatus::Accepted);
        let s = choose|s: int| 0 <= s < db.project_members.len() && q(#[trigger] db.project_members[s]);
        let kept = db.project_members[s];
        assert(db.project_members.contains(kept));
        assert(not(seat_of(company_id))(kept));
        assert(after.project_members.contains(kept));
        let t = choose|t: int| 0 <= t < after.project_members.len() && after.project_members[t] == kept;
        assert(q(after.project_members[t]));
    }
}

/// Dissolving abandoned projects keeps the others sound.
pub proof fn lemma_dissolve_abandoned_keeps_projects(db: DbView, project_ids: Seq<u64>)
    requires
        db.projects_ok(),
    ensures
        db.dissolve_abandoned(project_ids).projects_ok(),
    decreases project_ids.len(),
{
    if project_ids.len() > 0 {
        lemma_dissolve_abandoned_keeps_projects(db, project_ids.drop_last());
        lemma_cascade_keeps_projects(db.dissolve_abandoned(project_ids.drop_last()), project_ids.last());
    }
}

/// The deletion of a company keeps projects sound.
pub proof fn lemma_delete_company_cascade_keeps_projects(db: DbView, company_id: u64)
    requires
        db.projects_ok(),
    ensures
        db.delete_company_cascade(company_id).projects_ok(),
{
    let unlinked = db.drop_invites_of(company_id).unlink_members(company_id);
    crate::proofs::people::lemma_reassign_each_frame(
        db.drop_invites_of(company_id).drop_members_of(company_id),
        db.drop_invites_of(company_id).member_identities(company_id),
        company_id,
    );
    let bare = unlinked.drop_capability(company_id);
    crate::proofs::people::lemma_drop_chats_of_frame(
        bare.drop_connections_touching(company_id),
        bare.connection_ids_touching(company_id),
    );
    let cut = bare.disconnect_all(company_id).drop_notifications_about(company_id);
    assert(db.same_projects(cut));
    let owned = cut.owned_project_ids(company_id);
    lemma_delete_projects_keeps_projects(cut, owned);
    let disowned = cut.delete_projects(owned);
    lemma_filter_exact(cut.projects, owned_by(company_id));
    assert forall|k: int| 0 <= k < disowned.projects.len() implies (#[trigger] disowned.projects[k]).owner_company_id
        != company_id by {
        let p = disowned.projects[k];
        assert(cut.projects.contains(p));
        if p.owner_company_id == company_id {
            let mine = cut.projects.filter(owned_by(company_id));
            assert(mine.contains(p));
            let j = choose|j: int| 0 <= j < mine.len() && mine[j] == p;
            assert(owned[j] == p.id);
            assert(owned.contains(p.id));
        }
    }
    lemma_drop_seats_of_keeps_projects(disowned, company_id);
    lemma_dissolve_abandoned_keeps_projects(disowned.drop_seats_of(company_id), disowned.seat_project_ids(company_id));
}

/// Once the projects that a company owns are deleted, no project is owned
/// by the company.
pub proof fn lemma_owned_projects_are_gone(db: DbView, company_id: u64)
    ensures
        forall|k: int|
            0 <= k < db.delete_projects(db.owned_project_ids(company_id)).projects.len() ==> (
            #[trigger] db.delete_projects(db.owned_project_ids(company_id)).projects[k]).owner_company_id
                != company_id,
{
    let owned = db.owned_project_ids(company_id);
    let after = db.delete_projects(owned);
    lemma_deleted_are_within(db, owned);
    lemma_filter_exact(db.projects, owned_by(company_id));
    assert forall|k: int| 0 <= k < after.projects.len() implies (#[trigger] after.projects[k]).owner_company_id
        != company_id by {
        let p = after.projects[k];
        assert(db.projects.contains(p));
        if p.owner_company_id == company_id {
            let mine = db.projects.filter(owned_by(company_id));
            assert(mine.contains(p));
            let j = choose|j: int| 0 <= j < mine.len() && mine[j] == p;
            assert(owned[j] == p.id);
            assert(owned.contains(p.id));
        }
    }
}

/// What is left when projects are deleted are projects and seats of
/// before, none of them with one of the ids.
pub proof fn lemma_deleted_are_within(db: DbView, project_ids: Seq<u64>)
    ensures
        forall|k: int|
            0 <= k < db.delete_projects(project_ids).projects.len() ==> db.projects.contains(
                #[trigger] db.delete_projects(project_ids).projects[k],
            ) && !project_ids.contains(db.delete_projects(project_ids).projects[k].id),
        forall|k: int|
            0 <= k < db.delete_projects(project_ids).project_members.len() ==> db.project_members.contains(
                #[trigger] db.delete_projects(project_ids).project_members[k],
            ),
    decreases project_ids.len(),
{
    if project_ids.len() > 0 {
        let before = db.delete_projects(project_ids.drop_last());
        let after = db.delete_projects(project_ids);
        lemma_deleted_are_within(db, project_ids.drop_last());
        lemma_filter_exact(before.projects, not(project_is(project_ids.last())));
        lemma_filter_exact(before.project_members, not(seat_in(project_ids.last())));
        assert forall|k: int| 0 <= k < after.projects.len() implies db.projects.contains(#[trigger] after.projects[k])
            && !project_ids.contains(after.projects[k].id) by {
            let p = after.projects[k];
            assert(after.projects.contains(p));
            assert(before.projects.contains(p));
            assert(not(project_is(project_ids.last()))(p));
            let j = choose|j: int| 0 <= j < before.projects.len() && before.projects[j] == p;
            assert(db.projects.contains(before.projects[j]));
            if project_ids.contains(p.id) {
                let i = choose|i: int| 0 <= i < project_ids.len() && project_ids[i] == p.id;
                if i < project_ids.len() - 1 {
                    assert(project_ids.drop_last()[i] == p.id);
                    assert(project_ids.drop_last().contains(p.id));
                }
            }
        }
        assert forall|k: int| 0 <= k < after.project_members.len() implies db.project_members.contains(
            #[trigger] after.project_members[k],
        ) by {
            let m = after.project_members[k];
            assert(after.project_members.contains(m));
            assert(before.project_members.contains(m));
            let j = choose|j: int| 0 <= j < before.project_members.len() && before.project_members[j] == m;
            assert(db.project_members.contains(before.project_members[j]));
        }
    }
}

/// What is left when abandoned projects are dissolved are projects and
/// seats of before.
pub proof fn lemma_dissolved_are_within(db: DbView, project_ids: Seq<u64>)
    ensures
        forall|k: int|
            0 <= k < db.dissolve_abandoned(project_ids).projects.len() ==> db.projects.contains(
                #[trigger] db.dissolve_abandoned(project_ids).projects[k],
            ),
        forall|k: int|
            0 <= k < db.dissolve_abandoned(project_ids).project_members.len() ==> db.project_members.contains(
                #[trigger] db.dissolve_abandoned(project_ids).project_members[k],
            ),
    decreases project_ids.len(),
{
    if project_ids.len() > 0 {
        let before = db.dissolve_abandoned(project_ids.drop_last());
        let after = db.dissolve_abandoned(project_ids);
        lemma_dissolved_are_within(db, project_ids.drop_last());
        lemma_filter_exact(before.projects, not(project_is(project_ids.last())));
        lemma_filter_exact(before.project_members, not(seat_in(project_ids.last())));
        assert forall|k: int| 0 <= k < after.projects.len() implies db.projects.contains(#[trigger] after.projects[k]) by {
            let p = after.projects[k];
            assert(after.projects.contains(p));
            assert(before.projects.contains(p));
            let j = choose|j: int| 0 <= j < before.projects.len() && before.projects[j] == p;
            assert(db.projects.contains(before.projects[j]));
        }
        assert forall|k: int| 0 <= k < after.project_members.len() implies db.project_members.contains(
            #[trigger] after.project_members[k],
        ) by {
            let m = after.project_members[k];
            assert(after.project_members.contains(m));
            assert(before.project_members.contains(m));
            let j = choose|j: int| 0 <= j < before.project_members.len() && before.project_members[j] == m;
            assert(db.project_members.contains(before.project_members[j]));
        }
    }
}

/// No project of a sound store is without an Accepted seat.
pub proof fn lemma_every_project_has_an_accepted_seat(db: DbView, k: int)
    requires
        db.projects_ok(),
        0 <= k < db.projects.len(),
    ensures
        db.has_accepted(db.projects[k].id),
{
    let p = db.projects[k];
    assert(owner_seated(db.project_members)(p));
    let q = seat_with(p.id, p.owner_company_id, ProjectMemberStatus::Accepted);
    let s = choose|s: int| 0 <= s < db.project_members.len() && q(#[trigger] db.project_members[s]);
    assert(accepted_in(p.id)(db.project_members[s]));
}

} // verus!
