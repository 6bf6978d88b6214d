use directory_core::accounts::{create_account, create_company, generate_invite_code, join_with_code};
use directory_core::context::CallContext;
use directory_core::roles::{
    ConnectionStatus, Error, Identity, NotificationType, ProjectMemberStatus, Timestamp, UserRole,
};
use directory_core::rows::{same_text, Capability, InviteCode, UserAccount};
use directory_core::store::Database;
use directory_core::tables::push_notifications;
use directory_core::text::slug_from_lowercase;

fn person(n: u64) -> Identity {
    Identity::from_u64(n)
}

fn at(micros: i64) -> Timestamp {
    Timestamp { micros }
}

fn text(s: &str) -> String {
    s.to_string()
}

#[test]
fn texts_are_compared_by_their_characters() {
    assert!(same_text(&text("abc"), &text("abc")));
    assert!(!same_text(&text("abc"), &text("abd")));
    assert!(!same_text(&text("abc"), &text("ab")));
    assert!(same_text(&text(""), &text("")));
}

#[test]
fn rows_are_duplicated_field_by_field() {
    let account = UserAccount {
        identity: person(3),
        full_name: text("Ann Smith"),
        nickname: text("ann"),
        email: text("ann@example.com"),
        active_company_id: Some(4),
        created_at: at(9),
    };
    assert_eq!(account.duplicate(), account);
}

#[test]
fn lookups_return_the_first_match() {
    let mut db = Database::new();
    db.add_account(UserAccount {
        identity: person(1),
        full_name: text("Ann"),
        nickname: text("ann"),
        email: text("a@b.cd"),
        active_company_id: None,
        created_at: at(1),
    });
    db.add_company(person(1), text("Acme"), text("acme"), text("Utrecht"));
    db.add_company(person(2), text("Beta"), text("beta"), text("Delft"));
    db.add_capability(1);
    db.add_member(person(1), 1, UserRole::Owner, at(1));
    db.add_member(person(1), 2, UserRole::Field, at(2));
    db.add_member(person(2), 2, UserRole::Owner, at(3));

    assert_eq!(db.account_index(person(1)), Some(0));
    assert_eq!(db.account_index(person(2)), None);
    assert_eq!(db.company_index(2), Some(1));
    assert_eq!(db.company_index(3), None);
    assert_eq!(db.company_index_by_slug(&text("beta")), Some(1));
    assert_eq!(db.company_index_by_slug(&text("Beta")), None);
    assert_eq!(db.company_name(1), "Acme");
    assert_eq!(db.company_name(9), "");
    assert_eq!(db.company_label(2), "Beta");
    assert_eq!(db.company_label(9), "Unknown");
    assert_eq!(db.membership(person(1), 2).map(|m| (m.id, m.role)), Some((2, UserRole::Field)));
    assert_eq!(db.membership(person(2), 1), None);
    assert_eq!(db.member_identities(2), vec![person(1), person(2)]);
    assert_eq!(db.member_identities(7), vec![]);
    assert_eq!(db.capability(1).map(|c| c.company_id), Some(1));
    assert_eq!(db.capability(2), None);
    assert_eq!(db.online_index(person(1)), None);
    db.add_online(person(1));
    assert_eq!(db.online_index(person(1)), Some(0));

    // The first membership whose company exists.
    assert_eq!(db.next_home(person(1)), Some(1));
    db.drop_company(1);
    assert_eq!(db.next_home(person(1)), Some(2));
    db.drop_company(2);
    assert_eq!(db.next_home(person(1)), None);
    assert_eq!(db.next_home(person(9)), None);
}

#[test]
fn recipients_are_filtered_by_company_role_and_exclusion() {
    let mut db = Database::new();
    db.add_member(person(1), 1, UserRole::Owner, at(1));
    db.add_member(person(2), 1, UserRole::Admin, at(1));
    db.add_member(person(3), 1, UserRole::Member, at(1));
    db.add_member(person(4), 2, UserRole::Owner, at(1));
    db.add_member(person(5), 1, UserRole::Pending, at(1));
    assert_eq!(db.recipients(1, UserRole::Admin, None), vec![person(1), person(2)]);
    assert_eq!(db.recipients(1, UserRole::Admin, Some(person(2))), vec![person(1)]);
    assert_eq!(db.recipients(1, UserRole::Member, Some(person(4))), vec![person(1), person(2), person(3)]);
    assert_eq!(db.recipients(1, UserRole::Pending, None).len(), 4);
    assert_eq!(db.recipients(1, UserRole::Owner, Some(person(1))), vec![]);
    assert_eq!(db.recipients(3, UserRole::Pending, None), vec![]);
}

#[test]
fn members_are_changed_and_deleted_by_id() {
    let mut db = Database::new();
    db.add_member(person(1), 1, UserRole::Owner, at(1));
    db.add_member(person(2), 1, UserRole::Member, at(2));
    db.add_member(person(3), 2, UserRole::Member, at(3));
    assert_eq!(db.members.iter().map(|m| m.id).collect::<Vec<u64>>(), vec![1, 2, 3]);
    assert_eq!(db.next_member_id, 4);
    db.set_role(2, UserRole::Admin);
    assert_eq!(
        db.members.iter().map(|m| m.role).collect::<Vec<UserRole>>(),
        vec![UserRole::Owner, UserRole::Admin, UserRole::Member]
    );
    db.set_role(9, UserRole::Pending);
    assert_eq!(db.members[0].role, UserRole::Owner);
    db.drop_member(1);
    assert_eq!(db.members.iter().map(|m| m.id).collect::<Vec<u64>>(), vec![2, 3]);
    db.drop_member(1);
    assert_eq!(db.members.len(), 2);
    db.add_member(person(4), 1, UserRole::Field, at(4));
    assert_eq!(db.members[2].id, 4);
    db.drop_members_of(1);
    assert_eq!(db.members.iter().map(|m| m.id).collect::<Vec<u64>>(), vec![3]);
}

#[test]
fn accounts_and_companies_are_changed_in_place() {
    let mut db = Database::new();
    for n in [1u64, 2] {
        db.add_account(UserAccount {
            identity: person(n),
            full_name: text("Name"),
            nickname: text("nick"),
            email: text("a@b.cd"),
            active_company_id: None,
            created_at: at(1),
        });
        db.add_company(person(n), text("Co"), format!("co-{}", n), text("Here"));
    }
    db.set_active(person(2), Some(7));
    assert_eq!(db.accounts[0].active_company_id, None);
    assert_eq!(db.accounts[1].active_company_id, Some(7));
    db.set_active(person(2), None);
    assert_eq!(db.accounts[1].active_company_id, None);
    db.set_profile(person(1), &text("new"), &text("n@e.ww"));
    assert_eq!(db.accounts[0].nickname, "new");
    assert_eq!(db.accounts[0].email, "n@e.ww");
    assert_eq!(db.accounts[0].full_name, "Name");
    assert_eq!(db.accounts[1].nickname, "nick");

    db.set_owner(2, person(9));
    assert_eq!(db.companies[0].owner_identity, person(1));
    assert_eq!(db.companies[1].owner_identity, person(9));
    db.set_company_profile(1, &text("N"), &text("s"), &text("L"), &text("B"), true, &text("K"));
    let c = &db.companies[0];
    assert_eq!((c.name.as_str(), c.slug.as_str(), c.location.as_str()), ("N", "s", "L"));
    assert_eq!((c.bio.as_str(), c.is_public, c.kvk_number.as_str()), ("B", true, "K"));
    assert_eq!(db.companies[1].slug, "co-2");

    db.add_capability(1);
    db.add_capability(2);
    db.set_capability(Capability {
        company_id: 2,
        can_install: true,
        has_cnc: false,
        has_large_format: false,
        has_bucket_truck: true,
    });
    assert!(!db.capabilities[0].can_install);
    assert!(db.capabilities[1].can_install && db.capabilities[1].has_bucket_truck);
    db.drop_capability(1);
    assert_eq!(db.capabilities.len(), 1);
    assert_eq!(db.capabilities[0].company_id, 2);
}

#[test]
fn invite_codes_are_found_changed_and_deleted_by_their_text() {
    let mut db = Database::new();
    for (code, company) in [("AAAA", 1u64), ("BBBB", 2), ("CCCC", 1)] {
        db.add_invite(InviteCode {
            code: text(code),
            company_id: company,
            created_by: person(1),
            uses_remaining: 3,
        });
    }
    assert_eq!(db.invite_index(&text("BBBB")), Some(1));
    assert_eq!(db.invite_index(&text("bbbb")), None);
    db.set_invite_uses(&text("BBBB"), 2);
    assert_eq!(db.invite_codes.iter().map(|i| i.uses_remaining).collect::<Vec<u32>>(), vec![3, 2, 3]);
    db.drop_invite(&text("AAAA"));
    assert_eq!(db.invite_index(&text("BBBB")), Some(0));
    db.drop_invites_of(1);
    assert_eq!(db.invite_codes.len(), 1);
    assert_eq!(db.invite_codes[0].code, "BBBB");

    assert!(!db.code_used(person(1), &text("BBBB")));
    db.add_used_invite(person(1), text("BBBB"), 2);
    assert!(db.code_used(person(1), &text("BBBB")));
    assert!(!db.code_used(person(2), &text("BBBB")));
    assert!(!db.code_used(person(1), &text("AAAA")));
    assert_eq!(db.used_invite_codes[0].id, 1);
    assert_eq!(db.next_used_invite_id, 2);
}

#[test]
fn connections_are_stored_with_the_lower_company_first() {
    let mut db = Database::new();
    db.add_connection(9, 4, ConnectionStatus::Pending, person(1), None, text("hi"), at(1));
    db.add_connection(2, 3, ConnectionStatus::Accepted, person(2), None, text(""), at(2));
    db.add_connection(4, 2, ConnectionStatus::Pending, person(3), None, text(""), at(3));
    assert_eq!((db.connections[0].company_a, db.connections[0].company_b), (4, 9));
    assert_eq!((db.connections[1].company_a, db.connections[1].company_b), (2, 3));
    assert_eq!((db.connections[2].company_a, db.connections[2].company_b), (2, 4));
    assert_eq!(db.connection_index_between(4, 9), Some(0));
    assert_eq!(db.connection_index_between(9, 4), Some(0));
    assert_eq!(db.connection_index_between(4, 2), Some(2));
    assert_eq!(db.connection_index_between(9, 2), None);
    assert_eq!(db.connection_index(2), Some(1));
    assert_eq!(db.connection_index(7), None);
    assert_eq!(db.connection_ids_touching(4), vec![1, 3]);
    assert_eq!(db.connection_ids_touching(3), vec![2]);
    assert_eq!(db.connection_ids_touching(8), vec![]);

    db.set_connection_status(1, ConnectionStatus::Accepted);
    assert_eq!(db.connections[0].status, ConnectionStatus::Accepted);
    assert_eq!(db.connections[2].status, ConnectionStatus::Pending);
    db.set_blocked(3, 4);
    assert_eq!(db.connections[2].status, ConnectionStatus::Blocked);
    assert_eq!(db.connections[2].blocking_company_id, Some(4));
    assert_eq!(db.connections[0].blocking_company_id, None);

    db.add_connection_chat(1, person(1), text("a"), at(5));
    db.add_connection_chat(2, person(2), text("b"), at(6));
    db.add_connection_chat(1, person(1), text("c"), at(7));
    db.drop_connection_chat(1);
    assert_eq!(db.connection_chats.len(), 1);
    assert_eq!(db.connection_chats[0].id, 2);
    db.drop_connections_touching(4);
    assert_eq!(db.connections.iter().map(|c| c.id).collect::<Vec<u64>>(), vec![2]);
    db.drop_connection(2);
    assert!(db.connections.is_empty());
    assert_eq!(db.next_connection_id, 4);
}

#[test]
fn notifications_get_consecutive_ids() {
    let mut db = Database::new();
    db.notify(person(1), 1, NotificationType::ChatMessage, text("t"), text("b"), at(1));
    db.notify_all(
        &vec![person(2), person(3), person(2)],
        5,
        NotificationType::ProjectInvite,
        &text("T"),
        &text("B"),
        at(2),
    );
    db.notify_all(&vec![], 5, NotificationType::ProjectInvite, &text("T"), &text("B"), at(2));
    assert_eq!(db.notifications.iter().map(|n| n.id).collect::<Vec<u64>>(), vec![1, 2, 3, 4]);
    assert_eq!(db.next_notification_id, 5);
    assert_eq!(
        db.notifications.iter().map(|n| n.recipient_identity).collect::<Vec<Identity>>(),
        vec![person(1), person(2), person(3), person(2)]
    );
    assert_eq!(db.notifications[3].company_id, 5);
    assert_eq!(db.notifications[3].title, "T");
    assert_eq!(db.notifications[3].body, "B");
    assert_eq!(db.notifications[3].created_at, at(2));
    assert_eq!(db.notification_index(3), Some(2));
    assert_eq!(db.notification_index(9), None);

    db.mark_read(2);
    db.mark_all_read(person(3), 5);
    db.mark_all_read(person(1), 5);
    assert_eq!(db.notifications.iter().map(|n| n.is_read).collect::<Vec<bool>>(), vec![false, true, true, false]);
    db.clear_read(person(2), 5);
    assert_eq!(db.notifications.iter().map(|n| n.id).collect::<Vec<u64>>(), vec![1, 3, 4]);
    db.drop_notifications_about(5);
    assert_eq!(db.notifications.iter().map(|n| n.id).collect::<Vec<u64>>(), vec![1]);

    let mut rows = Vec::new();
    push_notifications(&mut rows, 40, &vec![person(7), person(8)], 3, NotificationType::RoleChanged, &text("x"), &text("y"), at(3));
    assert_eq!(rows.iter().map(|n| (n.id, n.recipient_identity)).collect::<Vec<(u64, Identity)>>(), vec![(40, person(7)), (41, person(8))]);
}

#[test]
fn seats_and_projects_are_found_changed_and_deleted() {
    let mut db = Database::new();
    db.add_project(1, text("P"), text("d"), person(1), at(1));
    db.add_project(2, text("Q"), text(""), person(2), at(1));
    db.add_project(1, text("R"), text(""), person(1), at(1));
    db.add_seat(1, 1, ProjectMemberStatus::Accepted, person(1), at(1));
    db.add_seat(1, 2, ProjectMemberStatus::Invited, person(1), at(2));
    db.add_seat(2, 2, ProjectMemberStatus::Accepted, person(2), at(3));
    db.add_seat(1, 3, ProjectMemberStatus::Accepted, person(1), at(4));
    assert_eq!(db.project_index(2), Some(1));
    assert_eq!(db.project_index(9), None);
    assert_eq!(db.owned_project_ids(1), vec![1, 3]);
    assert_eq!(db.owned_project_ids(3), vec![]);
    assert_eq!(db.seat_project_ids(2), vec![1, 2]);
    assert_eq!(db.seat(1, 2).map(|s| s.id), Some(2));
    assert_eq!(db.seat(2, 1), None);
    assert_eq!(db.seat_with(1, 2, ProjectMemberStatus::Invited).map(|s| s.id), Some(2));
    assert_eq!(db.seat_with(1, 2, ProjectMemberStatus::Accepted), None);
    assert!(db.has_accepted(1));
    assert!(!db.has_accepted(3));
    assert_eq!(db.other_accepted(1, 1, 1), vec![3]);
    assert_eq!(db.other_accepted(1, 9, 9), vec![1, 3]);
    assert_eq!(db.other_accepted(1, 1, 3), vec![]);

    db.accept_seat(2, at(50));
    assert_eq!(db.project_members[1].status, ProjectMemberStatus::Accepted);
    assert_eq!(db.project_members[1].joined_at, at(50));
    assert_eq!(db.project_members[0].joined_at, at(1));
    assert_eq!(db.other_accepted(1, 1, 1), vec![2, 3]);
    db.set_seat_status(4, ProjectMemberStatus::Kicked);
    assert_eq!(db.project_members[3].status, ProjectMemberStatus::Kicked);
    assert_eq!(db.project_members[3].joined_at, at(4));
    db.drop_seat(4);
    assert_eq!(db.project_members.iter().map(|s| s.id).collect::<Vec<u64>>(), vec![1, 2, 3]);
    db.drop_seats_of(2);
    assert_eq!(db.project_members.iter().map(|s| s.id).collect::<Vec<u64>>(), vec![1]);
    db.drop_seats_in(1);
    assert!(db.project_members.is_empty());

    db.add_project_chat(1, person(1), text("a"), at(1));
    db.add_project_chat(2, person(2), text("b"), at(1));
    db.drop_project_chats(1);
    assert_eq!(db.project_chats.iter().map(|c| c.id).collect::<Vec<u64>>(), vec![2]);
    db.drop_project(1);
    assert_eq!(db.projects.iter().map(|p| p.id).collect::<Vec<u64>>(), vec![2, 3]);
    assert_eq!(db.next_project_id, 4);
    assert_eq!(db.next_project_member_id, 5);
    assert_eq!(db.next_project_chat_id, 3);
}

#[test]
fn presence_rows_are_changed_by_identity() {
    let mut db = Database::new();
    db.add_online(person(1));
    db.add_online(person(2));
    db.set_online(person(1), false);
    assert!(!db.online_users[0].online);
    assert!(db.online_users[1].online);
    db.set_online(person(3), false);
    assert_eq!(db.online_users.len(), 2);
}

#[test]
fn lower_case_text_becomes_a_slug() {
    assert_eq!(slug_from_lowercase("my  sign shop"), "my-sign-shop");
    assert_eq!(slug_from_lowercase(" -a- -b- "), "a-b");
    assert_eq!(slug_from_lowercase("- -"), "");
    // Case is left alone here.
    assert_eq!(slug_from_lowercase("My Shop"), "My-Shop");
}

#[test]
fn a_stored_code_is_not_normalized_again() {
    let mut ctx = CallContext::new(person(1), at(1));
    assert_eq!(create_account(&mut ctx, text("Ann"), text("ann"), text("a@b.cd")), Ok(()));
    assert_eq!(create_company(&mut ctx, text("Acme"), text("acme"), text("Utrecht")), Ok(()));
    assert_eq!(generate_invite_code(&mut ctx, 1, &[0; 16]), Ok(()));
    ctx.sender = person(2);
    assert_eq!(create_account(&mut ctx, text("Bob"), text("bob"), text("b@b.cd")), Ok(()));
    assert_eq!(join_with_code(&mut ctx, text("aaaa-aaaa-aaaa-aaaa")), Err(Error::InvalidInput));
    assert_eq!(join_with_code(&mut ctx, text(" AAAA-AAAA-AAAA-AAAA")), Err(Error::InvalidInput));
    assert_eq!(join_with_code(&mut ctx, text("AAAA-AAAA-AAAA-AAAA")), Ok(()));
    assert_eq!(ctx.db.members.len(), 2);
}
