use directory_core::accounts::{create_account, create_company};
use directory_core::cascade::delete_company;
use directory_core::connections::{accept_connection, block_company, request_connection};
use directory_core::context::CallContext;
use directory_core::projects::{
    accept_project_invite, create_project, decline_project_invite, delete_project,
    delete_project_cascade, find_project_membership, invite_to_project, kick_from_project,
    leave_project, send_project_chat,
};
use directory_core::roles::{Error, Identity, NotificationType, ProjectMemberStatus, Timestamp, UserRole};
use directory_core::team::{add_colleague_by_identity, switch_active_company, update_user_role};

fn person(n: u64) -> Identity {
    Identity::from_u64(n)
}

fn text(s: &str) -> String {
    s.to_string()
}

fn sign_up(ctx: &mut CallContext, who: u64, name: &str) {
    ctx.sender = person(who);
    let email = format!("{}@example.com", name.to_lowercase());
    assert_eq!(create_account(ctx, name.to_string(), name.to_string(), email), Ok(()));
}

fn found(ctx: &mut CallContext, who: u64, company: &str) -> u64 {
    ctx.sender = person(who);
    assert_eq!(
        create_company(ctx, company.to_string(), company.to_string(), "Utrecht".to_string()),
        Ok(())
    );
    ctx.db.companies.last().unwrap().id
}

fn connect(ctx: &mut CallContext, from: (u64, u64), to: (u64, u64)) {
    ctx.sender = person(from.0);
    assert_eq!(request_connection(ctx, to.1, text("hi")), Ok(()));
    ctx.sender = person(to.0);
    assert_eq!(accept_connection(ctx, from.1), Ok(()));
}

/// Ann owns Alpha, Bob owns Beta, Cas owns Gamma, all connected with
/// Alpha; Dee is a Field member of Beta. Alpha owns the project.
fn world() -> (CallContext, u64, u64, u64, u64) {
    let mut ctx = CallContext::new(person(1), Timestamp { micros: 8 });
    for (who, name) in [(1, "Ann"), (2, "Bob"), (3, "Cas"), (4, "Dee")] {
        sign_up(&mut ctx, who, name);
    }
    let alpha = found(&mut ctx, 1, "Alpha");
    let beta = found(&mut ctx, 2, "Beta");
    let gamma = found(&mut ctx, 3, "Gamma");
    connect(&mut ctx, (1, alpha), (2, beta));
    connect(&mut ctx, (3, gamma), (1, alpha));
    ctx.sender = person(2);
    assert_eq!(add_colleague_by_identity(&mut ctx, person(4)), Ok(()));
    assert_eq!(update_user_role(&mut ctx, person(4), UserRole::Field), Ok(()));
    ctx.sender = person(4);
    assert_eq!(switch_active_company(&mut ctx, beta), Ok(()));
    ctx.sender = person(1);
    assert_eq!(create_project(&mut ctx, text(" Billboard "), text(" A big one ")), Ok(()));
    let project = ctx.db.projects[0].id;
    ctx.db.notifications.clear();
    (ctx, alpha, beta, gamma, project)
}

fn seat_states(ctx: &CallContext, project: u64) -> Vec<(u64, ProjectMemberStatus)> {
    ctx.db
        .project_members
        .iter()
        .filter(|m| m.project_id == project)
        .map(|m| (m.company_id, m.status))
        .collect()
}

fn join(ctx: &mut CallContext, project: u64, who: u64, company: u64) {
    ctx.sender = person(1);
    assert_eq!(invite_to_project(ctx, project, company), Ok(()));
    ctx.sender = person(who);
    assert_eq!(accept_project_invite(ctx, project), Ok(()));
}

#[test]
fn a_project_starts_with_its_owner_seated() {
    let (ctx, alpha, _, _, project) = world();
    assert_eq!(ctx.db.projects.len(), 1);
    let p = &ctx.db.projects[0];
    assert_eq!(p.id, 1);
    assert_eq!(p.owner_company_id, alpha);
    assert_eq!(p.name, "Billboard");
    assert_eq!(p.description, "A big one");
    assert_eq!(p.created_by, person(1));
    assert_eq!(p.created_at, Timestamp { micros: 8 });
    assert_eq!(ctx.db.project_members.len(), 1);
    let seat = &ctx.db.project_members[0];
    assert_eq!(seat.id, 1);
    assert_eq!(seat.project_id, project);
    assert_eq!(seat.company_id, alpha);
    assert_eq!(seat.status, ProjectMemberStatus::Accepted);
    assert_eq!(seat.invited_by, person(1));
    assert_eq!(
        find_project_membership(&ctx, project, alpha, ProjectMemberStatus::Accepted),
        Some(*seat)
    );
    assert_eq!(find_project_membership(&ctx, project, alpha, ProjectMemberStatus::Invited), None);
}

#[test]
fn projects_are_created_by_admins_with_a_name() {
    let (mut ctx, _, _, _, _) = world();
    ctx.sender = person(4);
    assert_eq!(create_project(&mut ctx, text("x"), text("")), Err(Error::InsufficientRole));
    ctx.sender = person(1);
    assert_eq!(create_project(&mut ctx, text("  "), text("")), Err(Error::InvalidInput));
    assert_eq!(create_project(&mut ctx, "n".repeat(81), text("")), Err(Error::InvalidInput));
    assert_eq!(create_project(&mut ctx, text("x"), "d".repeat(501)), Err(Error::InvalidInput));
    assert_eq!(ctx.db.projects.len(), 1);
    assert_eq!(create_project(&mut ctx, "n".repeat(80), text("")), Ok(()));
    assert_eq!(ctx.db.projects[1].id, 2);
    assert_eq!(ctx.db.project_members[1].project_id, 2);
}

#[test]
fn invitations_are_refused_for_each_reason_in_turn() {
    let (mut ctx, alpha, beta, gamma, project) = world();
    sign_up(&mut ctx, 5, "Eve");
    let delta = found(&mut ctx, 5, "Delta");
    ctx.sender = person(4);
    assert_eq!(invite_to_project(&mut ctx, project, gamma), Err(Error::InsufficientRole));
    ctx.sender = person(2);
    assert_eq!(invite_to_project(&mut ctx, project + 9, gamma), Err(Error::NotFound));
    assert_eq!(invite_to_project(&mut ctx, project, gamma), Err(Error::NotAMember));
    ctx.sender = person(1);
    assert_eq!(invite_to_project(&mut ctx, project, 99), Err(Error::NotFound));
    assert_eq!(invite_to_project(&mut ctx, project, alpha), Err(Error::Conflict));
    // No connection at all, a pending one, a blocked one.
    assert_eq!(invite_to_project(&mut ctx, project, delta), Err(Error::InvalidState));
    assert_eq!(request_connection(&mut ctx, delta, text("hi")), Ok(()));
    assert_eq!(invite_to_project(&mut ctx, project, delta), Err(Error::InvalidState));
    assert_eq!(block_company(&mut ctx, delta), Ok(()));
    assert_eq!(invite_to_project(&mut ctx, project, delta), Err(Error::InvalidState));
    assert_eq!(ctx.db.project_members.len(), 1);

    ctx.db.notifications.clear();
    assert_eq!(invite_to_project(&mut ctx, project, beta), Ok(()));
    assert_eq!(seat_states(&ctx, project)[1], (beta, ProjectMemberStatus::Invited));
    assert_eq!(ctx.db.project_members[1].invited_by, person(1));
    assert_eq!(ctx.db.notifications.len(), 1);
    let n = &ctx.db.notifications[0];
    assert_eq!(n.recipient_identity, person(2));
    assert_eq!(n.company_id, beta);
    assert_eq!(n.notification_type, NotificationType::ProjectInvite);
    assert_eq!(n.title, "Project invitation: Billboard");
    assert_eq!(n.body, "Your company has been invited to join project 'Billboard'");
    assert_eq!(invite_to_project(&mut ctx, project, beta), Err(Error::Conflict));
    ctx.sender = person(2);
    assert_eq!(accept_project_invite(&mut ctx, project), Ok(()));
    ctx.sender = person(1);
    assert_eq!(invite_to_project(&mut ctx, project, beta), Err(Error::Conflict));
    assert_eq!(ctx.db.project_members.len(), 2);
}

#[test]
fn accepting_tells_the_other_accepted_companies() {
    let (mut ctx, alpha, beta, gamma, project) = world();
    ctx.sender = person(2);
    assert_eq!(accept_project_invite(&mut ctx, project), Err(Error::NotFound));
    assert_eq!(accept_project_invite(&mut ctx, project + 1), Err(Error::NotFound));
    join(&mut ctx, project, 2, beta);
    ctx.sender = person(1);
    assert_eq!(invite_to_project(&mut ctx, project, gamma), Ok(()));
    ctx.db.notifications.clear();
    ctx.timestamp = Timestamp { micros: 900 };
    ctx.sender = person(3);
    assert_eq!(accept_project_invite(&mut ctx, project), Ok(()));
    assert_eq!(
        seat_states(&ctx, project),
        vec![
            (alpha, ProjectMemberStatus::Accepted),
            (beta, ProjectMemberStatus::Accepted),
            (gamma, ProjectMemberStatus::Accepted)
        ]
    );
    assert_eq!(ctx.db.project_members[2].joined_at, Timestamp { micros: 900 });
    assert_eq!(ctx.db.project_members[1].joined_at, Timestamp { micros: 8 });
    // Admins of Alpha and Beta are told; Beta's Field member is not.
    let got: Vec<(Identity, u64)> =
        ctx.db.notifications.iter().map(|n| (n.recipient_identity, n.company_id)).collect();
    assert_eq!(got, vec![(person(1), alpha), (person(2), beta)]);
    for n in &ctx.db.notifications {
        assert_eq!(n.notification_type, NotificationType::ProjectAccepted);
        assert_eq!(n.title, "Gamma joined project");
        assert_eq!(n.body, "Gamma accepted the invitation to project 'Billboard'");
    }
    assert_eq!(accept_project_invite(&mut ctx, project), Err(Error::NotFound));
}

#[test]
fn declining_deletes_the_invitation() {
    let (mut ctx, alpha, beta, _, project) = world();
    ctx.sender = person(2);
    assert_eq!(decline_project_invite(&mut ctx, project), Err(Error::NotFound));
    ctx.sender = person(1);
    assert_eq!(invite_to_project(&mut ctx, project, beta), Ok(()));
    ctx.db.notifications.clear();
    ctx.sender = person(4);
    assert_eq!(decline_project_invite(&mut ctx, project), Err(Error::InsufficientRole));
    ctx.sender = person(2);
    assert_eq!(decline_project_invite(&mut ctx, project + 1), Err(Error::NotFound));
    assert_eq!(decline_project_invite(&mut ctx, project), Ok(()));
    assert_eq!(seat_states(&ctx, project), vec![(alpha, ProjectMemberStatus::Accepted)]);
    assert_eq!(ctx.db.notifications.len(), 1);
    let n = &ctx.db.notifications[0];
    assert_eq!(n.recipient_identity, person(1));
    assert_eq!(n.company_id, alpha);
    assert_eq!(n.notification_type, NotificationType::ProjectDeclined);
    assert_eq!(n.title, "Beta declined project invite");
    assert_eq!(n.body, "Beta declined the invitation to project 'Billboard'");
    // Another invitation is possible.
    ctx.sender = person(1);
    assert_eq!(invite_to_project(&mut ctx, project, beta), Ok(()));
}

#[test]
fn project_chat_needs_an_accepted_seat() {
    let (mut ctx, alpha, beta, gamma, project) = world();
    ctx.sender = person(2);
    assert_eq!(send_project_chat(&mut ctx, project, text("x")), Err(Error::NotAMember));
    ctx.sender = person(1);
    assert_eq!(invite_to_project(&mut ctx, project, beta), Ok(()));
    ctx.sender = person(2);
    assert_eq!(send_project_chat(&mut ctx, project, text("x")), Err(Error::NotAMember));
    assert_eq!(accept_project_invite(&mut ctx, project), Ok(()));
    join(&mut ctx, project, 3, gamma);
    ctx.db.notifications.clear();

    ctx.sender = person(4);
    assert_eq!(send_project_chat(&mut ctx, project + 1, text("x")), Err(Error::NotFound));
    assert_eq!(send_project_chat(&mut ctx, project, text(" ")), Err(Error::InvalidInput));
    assert_eq!(send_project_chat(&mut ctx, project, "x".repeat(501)), Err(Error::InvalidInput));
    assert!(ctx.db.project_chats.is_empty());
    let long = "abcdefghij".repeat(9);
    assert_eq!(send_project_chat(&mut ctx, project, format!("\n{}\n", long)), Ok(()));
    let chat = &ctx.db.project_chats[0];
    assert_eq!(chat.id, 1);
    assert_eq!(chat.project_id, project);
    assert_eq!(chat.sender, person(4));
    assert_eq!(chat.text, long);
    let got: Vec<(Identity, u64)> =
        ctx.db.notifications.iter().map(|n| (n.recipient_identity, n.company_id)).collect();
    assert_eq!(got, vec![(person(1), alpha), (person(3), gamma)]);
    for n in &ctx.db.notifications {
        assert_eq!(n.notification_type, NotificationType::ProjectChat);
        assert_eq!(n.title, "Billboard \u{2014} Beta");
        assert_eq!(n.body, format!("[Beta] Dee: {}...", &long[..80]));
    }

    ctx.db.notifications.clear();
    ctx.sender = person(1);
    assert_eq!(send_project_chat(&mut ctx, project, text("ok")), Ok(()));
    // Field members are told as well.
    let got: Vec<(Identity, String)> =
        ctx.db.notifications.iter().map(|n| (n.recipient_identity, n.body.clone())).collect();
    assert_eq!(
        got,
        vec![
            (person(2), text("[Alpha] Ann: ok")),
            (person(4), text("[Alpha] Ann: ok")),
            (person(3), text("[Alpha] Ann: ok"))
        ]
    );
}

#[test]
fn members_leave_and_the_project_stays_while_a_seat_is_accepted() {
    let (mut ctx, alpha, beta, gamma, project) = world();
    join(&mut ctx, project, 2, beta);
    join(&mut ctx, project, 3, gamma);
    assert_eq!(send_project_chat(&mut ctx, project, text("hello")), Ok(()));
    ctx.sender = person(1);
    assert_eq!(leave_project(&mut ctx, project), Err(Error::InvalidState));
    ctx.sender = person(4);
    assert_eq!(leave_project(&mut ctx, project), Err(Error::InsufficientRole));
    ctx.sender = person(2);
    assert_eq!(leave_project(&mut ctx, project + 1), Err(Error::NotFound));
    ctx.db.notifications.clear();
    assert_eq!(leave_project(&mut ctx, project), Ok(()));
    assert_eq!(
        seat_states(&ctx, project),
        vec![
            (alpha, ProjectMemberStatus::Accepted),
            (beta, ProjectMemberStatus::Left),
            (gamma, ProjectMemberStatus::Accepted)
        ]
    );
    let got: Vec<(Identity, u64)> =
        ctx.db.notifications.iter().map(|n| (n.recipient_identity, n.company_id)).collect();
    assert_eq!(got, vec![(person(1), alpha), (person(3), gamma)]);
    for n in &ctx.db.notifications {
        assert_eq!(n.notification_type, NotificationType::ProjectLeft);
        assert_eq!(n.title, "Beta left project");
        assert_eq!(n.body, "Beta left project 'Billboard'");
    }
    assert_eq!(leave_project(&mut ctx, project), Err(Error::NotAMember));

    ctx.sender = person(3);
    assert_eq!(leave_project(&mut ctx, project), Ok(()));
    // The owner's seat is still accepted: the project stays, with its
    // history and its chat.
    assert_eq!(ctx.db.projects.len(), 1);
    assert_eq!(ctx.db.project_members.len(), 3);
    assert_eq!(ctx.db.project_chats.len(), 1);
}

#[test]
fn a_project_without_accepted_seat_is_dissolved_when_the_last_leaves() {
    let (mut ctx, _, beta, gamma, project) = world();
    join(&mut ctx, project, 2, beta);
    join(&mut ctx, project, 3, gamma);
    ctx.sender = person(1);
    assert_eq!(create_project(&mut ctx, text("Other"), text("")), Ok(()));
    assert_eq!(send_project_chat(&mut ctx, project, text("hello")), Ok(()));
    assert_eq!(send_project_chat(&mut ctx, project + 1, text("hello")), Ok(()));
    // The owner's seat is lost.
    ctx.db.project_members.remove(0);

    ctx.sender = person(2);
    assert_eq!(leave_project(&mut ctx, project), Ok(()));
    assert_eq!(ctx.db.projects.len(), 2);
    assert_eq!(seat_states(&ctx, project).len(), 2);

    ctx.sender = person(3);
    assert_eq!(leave_project(&mut ctx, project), Ok(()));
    assert_eq!(ctx.db.projects.len(), 1);
    assert_eq!(ctx.db.projects[0].id, project + 1);
    assert!(seat_states(&ctx, project).is_empty());
    assert_eq!(ctx.db.project_members.len(), 1);
    assert_eq!(ctx.db.project_chats.len(), 1);
    assert_eq!(ctx.db.project_chats[0].project_id, project + 1);
}

#[test]
fn only_the_owner_company_kicks() {
    let (mut ctx, alpha, beta, gamma, project) = world();
    join(&mut ctx, project, 2, beta);
    join(&mut ctx, project, 3, gamma);
    ctx.sender = person(2);
    assert_eq!(kick_from_project(&mut ctx, project, gamma), Err(Error::NotAMember));
    ctx.sender = person(4);
    assert_eq!(kick_from_project(&mut ctx, project, gamma), Err(Error::InsufficientRole));
    ctx.sender = person(1);
    assert_eq!(kick_from_project(&mut ctx, project + 1, gamma), Err(Error::NotFound));
    assert_eq!(kick_from_project(&mut ctx, project, alpha), Err(Error::Conflict));
    assert_eq!(kick_from_project(&mut ctx, project, 99), Err(Error::NotFound));
    ctx.db.notifications.clear();
    assert_eq!(kick_from_project(&mut ctx, project, gamma), Ok(()));
    assert_eq!(
        seat_states(&ctx, project),
        vec![
            (alpha, ProjectMemberStatus::Accepted),
            (beta, ProjectMemberStatus::Accepted),
            (gamma, ProjectMemberStatus::Kicked)
        ]
    );
    let got: Vec<(Identity, u64, String, String)> = ctx
        .db
        .notifications
        .iter()
        .map(|n| (n.recipient_identity, n.company_id, n.title.clone(), n.body.clone()))
        .collect();
    assert_eq!(
        got,
        vec![
            (
                person(3),
                gamma,
                text("Removed from project 'Billboard'"),
                text("Your company has been removed from project 'Billboard'")
            ),
            (
                person(2),
                beta,
                text("Gamma removed from project"),
                text("Gamma was removed from project 'Billboard'")
            )
        ]
    );
    for n in &ctx.db.notifications {
        assert_eq!(n.notification_type, NotificationType::ProjectKicked);
    }
    assert_eq!(kick_from_project(&mut ctx, project, gamma), Err(Error::NotFound));
    assert_eq!(kick_from_project(&mut ctx, project, beta), Ok(()));
    // The project stays with its owner.
    assert_eq!(ctx.db.projects.len(), 1);
    assert_eq!(ctx.db.project_members.len(), 3);
}

#[test]
fn a_company_that_left_or_was_kicked_can_be_invited_again() {
    let (mut ctx, alpha, beta, gamma, project) = world();
    join(&mut ctx, project, 2, beta);
    join(&mut ctx, project, 3, gamma);
    ctx.sender = person(2);
    assert_eq!(leave_project(&mut ctx, project), Ok(()));
    ctx.sender = person(1);
    assert_eq!(kick_from_project(&mut ctx, project, gamma), Ok(()));
    let old_ids: Vec<u64> = ctx.db.project_members.iter().map(|m| m.id).collect();
    assert_eq!(invite_to_project(&mut ctx, project, beta), Ok(()));
    assert_eq!(invite_to_project(&mut ctx, project, gamma), Ok(()));
    assert_eq!(
        seat_states(&ctx, project),
        vec![
            (alpha, ProjectMemberStatus::Accepted),
            (beta, ProjectMemberStatus::Invited),
            (gamma, ProjectMemberStatus::Invited)
        ]
    );
    // The old rows are gone, the new ones have new ids.
    assert_eq!(ctx.db.project_members[0].id, old_ids[0]);
    assert_eq!(ctx.db.project_members[1].id, old_ids[2] + 1);
    assert_eq!(ctx.db.project_members[2].id, old_ids[2] + 2);
}

#[test]
fn deleting_a_project_takes_seats_and_chat_with_it() {
    let (mut ctx, alpha, beta, gamma, project) = world();
    join(&mut ctx, project, 2, beta);
    ctx.sender = person(1);
    assert_eq!(invite_to_project(&mut ctx, project, gamma), Ok(()));
    assert_eq!(create_project(&mut ctx, text("Other"), text("")), Ok(()));
    assert_eq!(send_project_chat(&mut ctx, project, text("hello")), Ok(()));
    assert_eq!(send_project_chat(&mut ctx, project + 1, text("hello")), Ok(()));
    ctx.sender = person(2);
    assert_eq!(delete_project(&mut ctx, project), Err(Error::NotAMember));
    ctx.sender = person(4);
    assert_eq!(delete_project(&mut ctx, project), Err(Error::InsufficientRole));
    ctx.sender = person(1);
    assert_eq!(delete_project(&mut ctx, project + 5), Err(Error::NotFound));
    ctx.db.notifications.clear();
    assert_eq!(delete_project(&mut ctx, project), Ok(()));
    assert_eq!(ctx.db.projects.len(), 1);
    assert_eq!(ctx.db.projects[0].id, project + 1);
    assert_eq!(seat_states(&ctx, project), vec![]);
    assert_eq!(seat_states(&ctx, project + 1), vec![(alpha, ProjectMemberStatus::Accepted)]);
    assert_eq!(ctx.db.project_chats.len(), 1);
    // Only the accepted member is told; the invited company is not.
    assert_eq!(ctx.db.notifications.len(), 1);
    let n = &ctx.db.notifications[0];
    assert_eq!(n.recipient_identity, person(2));
    assert_eq!(n.company_id, beta);
    assert_eq!(n.notification_type, NotificationType::ProjectLeft);
    assert_eq!(n.title, "Project 'Billboard' deleted");
    assert_eq!(n.body, "Project 'Billboard' has been deleted by the owner");
    assert_eq!(delete_project(&mut ctx, project), Err(Error::NotFound));
}

#[test]
fn the_cascade_of_a_project_spares_other_projects() {
    let (mut ctx, alpha, _, _, project) = world();
    assert_eq!(create_project(&mut ctx, text("Other"), text("")), Ok(()));
    assert_eq!(send_project_chat(&mut ctx, project + 1, text("hello")), Ok(()));
    delete_project_cascade(&mut ctx, project + 1);
    assert_eq!(ctx.db.projects.len(), 1);
    assert_eq!(ctx.db.projects[0].id, project);
    assert_eq!(seat_states(&ctx, project), vec![(alpha, ProjectMemberStatus::Accepted)]);
    assert!(ctx.db.project_chats.is_empty());
    delete_project_cascade(&mut ctx, 77);
    assert_eq!(ctx.db.projects.len(), 1);
}

#[test]
fn deleting_a_company_leaves_no_reference_to_it() {
    let (mut ctx, alpha, beta, gamma, project) = world();
    sign_up(&mut ctx, 5, "Eve");
    join(&mut ctx, project, 2, beta);
    // Beta owns a project in which Alpha has a seat, and Gamma one in
    // which Alpha is only invited.
    connect(&mut ctx, (2, beta), (3, gamma));
    ctx.sender = person(2);
    assert_eq!(create_project(&mut ctx, text("Beta's"), text("")), Ok(()));
    let betas = ctx.db.projects[1].id;
    assert_eq!(invite_to_project(&mut ctx, betas, alpha), Ok(()));
    ctx.sender = person(1);
    assert_eq!(accept_project_invite(&mut ctx, betas), Ok(()));
    ctx.sender = person(3);
    assert_eq!(create_project(&mut ctx, text("Gamma's"), text("")), Ok(()));
    let gammas = ctx.db.projects[2].id;
    assert_eq!(invite_to_project(&mut ctx, gammas, alpha), Ok(()));
    assert_eq!(send_project_chat(&mut ctx, gammas, text("hello")), Ok(()));
    // Alpha has a second member, an invite code, chat and notifications.
    ctx.sender = person(1);
    assert_eq!(add_colleague_by_identity(&mut ctx, person(5)), Ok(()));
    ctx.sender = person(5);
    assert_eq!(switch_active_company(&mut ctx, alpha), Ok(()));
    ctx.sender = person(1);
    assert_eq!(directory_core::accounts::generate_invite_code(&mut ctx, 3, &[4; 16]), Ok(()));
    let conn = ctx.db.connections.iter().find(|c| c.company_b == beta && c.company_a == alpha).unwrap().id;
    assert_eq!(directory_core::connections::send_connection_chat(&mut ctx, conn, text("x")), Ok(()));
    assert_eq!(send_project_chat(&mut ctx, project, text("y")), Ok(()));
    // Ann is also a member of Beta, so her cursor has somewhere to go.
    ctx.sender = person(2);
    assert_eq!(add_colleague_by_identity(&mut ctx, person(1)), Ok(()));

    ctx.sender = person(5);
    assert_eq!(delete_company(&mut ctx), Err(Error::InsufficientRole));
    ctx.sender = person(9);
    assert_eq!(delete_company(&mut ctx), Err(Error::Unauthenticated));
    ctx.sender = person(1);
    assert_eq!(delete_company(&mut ctx), Ok(()));

    assert!(ctx.db.companies.iter().all(|c| c.id != alpha));
    assert_eq!(ctx.db.companies.len(), 2);
    assert!(ctx.db.members.iter().all(|m| m.company_id != alpha));
    assert!(ctx.db.capabilities.iter().all(|c| c.company_id != alpha));
    assert_eq!(ctx.db.capabilities.len(), 2);
    assert!(ctx.db.invite_codes.is_empty());
    assert!(ctx.db.connections.iter().all(|c| c.company_a != alpha && c.company_b != alpha));
    assert_eq!(ctx.db.connections.len(), 1);
    assert!(ctx.db.connection_chats.is_empty());
    assert!(ctx.db.notifications.iter().all(|n| n.company_id != alpha));
    assert!(!ctx.db.notifications.is_empty());
    assert!(ctx.db.accounts.iter().all(|a| a.active_company_id != Some(alpha)));
    // Ann moved on to Beta; Eve has no other company.
    assert_eq!(ctx.db.accounts[0].active_company_id, Some(beta));
    assert_eq!(ctx.db.accounts[4].active_company_id, None);
    assert_eq!(ctx.db.accounts.len(), 5);
    // Alpha's project is gone with its seats and chat; the others stay
    // without Alpha's seats.
    let left: Vec<u64> = ctx.db.projects.iter().map(|p| p.id).collect();
    assert_eq!(left, vec![betas, gammas]);
    assert!(ctx.db.project_members.iter().all(|m| m.company_id != alpha && m.project_id != project));
    assert_eq!(seat_states(&ctx, betas), vec![(beta, ProjectMemberStatus::Accepted)]);
    assert_eq!(seat_states(&ctx, gammas), vec![(gamma, ProjectMemberStatus::Accepted)]);
    assert_eq!(ctx.db.project_chats.len(), 1);
    assert_eq!(ctx.db.project_chats[0].project_id, gammas);

    // Ann now acts for Beta, where she is a Member.
    assert_eq!(delete_company(&mut ctx), Err(Error::InsufficientRole));
}

#[test]
fn deleting_a_company_dissolves_projects_it_leaves_empty() {
    let (mut ctx, alpha, beta, _, project) = world();
    join(&mut ctx, project, 2, beta);
    ctx.sender = person(2);
    assert_eq!(send_project_chat(&mut ctx, project, text("hello")), Ok(()));
    // The project changes hands to a company without a seat, so that
    // Beta holds the only accepted seat.
    ctx.db.projects[0].owner_company_id = 99;
    ctx.db.project_members.retain(|m| m.company_id != alpha);
    assert_eq!(delete_company(&mut ctx), Ok(()));
    assert!(ctx.db.projects.is_empty());
    assert!(ctx.db.project_members.is_empty());
    assert!(ctx.db.project_chats.is_empty());
    assert_eq!(ctx.db.accounts[1].active_company_id, None);
    assert_eq!(ctx.db.accounts[3].active_company_id, None);
}

#[test]
fn only_the_recorded_owner_deletes_the_company() {
    let (mut ctx, alpha, _, _, _) = world();
    ctx.db.companies[0].owner_identity = person(2);
    assert_eq!(delete_company(&mut ctx), Err(Error::InsufficientRole));
    assert_eq!(ctx.db.companies.len(), 3);
    ctx.db.companies[0].owner_identity = person(1);
    ctx.sender = person(4);
    assert_eq!(delete_company(&mut ctx), Err(Error::InsufficientRole));
    ctx.sender = person(1);
    assert_eq!(delete_company(&mut ctx), Ok(()));
    assert!(ctx.db.companies.iter().all(|c| c.id != alpha));
}
