use directory_core::accounts::{
    client_connected, client_disconnected, create_account, create_company, delete_invite_code,
    generate_invite_code, init, is_filled_within, join_company, update_profile,
};
use directory_core::context::CallContext;
use directory_core::roles::{Error, Identity, NotificationType, Timestamp, UserRole};
use directory_core::team::{leave_company, transfer_ownership, update_user_role};

fn person(n: u64) -> Identity {
    Identity::from_u64(n)
}

fn start() -> CallContext {
    CallContext::new(person(1), Timestamp { micros: 77 })
}

fn sign_up(ctx: &mut CallContext, who: u64, name: &str) {
    ctx.sender = person(who);
    let email = format!("{}@example.com", name.to_lowercase());
    assert_eq!(create_account(ctx, name.to_string(), name.to_string(), email), Ok(()));
}

fn found(ctx: &mut CallContext, who: u64, company: &str) -> u64 {
    ctx.sender = person(who);
    assert_eq!(
        create_company(ctx, company.to_string(), company.to_string(), "Utrecht".to_string()),
        Ok(())
    );
    ctx.db.companies.last().unwrap().id
}

fn text(s: &str) -> String {
    s.to_string()
}

#[test]
fn a_new_store_is_empty_and_has_room() {
    let mut ctx = start();
    init(&mut ctx);
    assert!(ctx.db.accounts.is_empty());
    assert!(ctx.db.companies.is_empty());
    assert!(ctx.db.members.is_empty());
    assert!(ctx.db.notifications.is_empty());
    assert_eq!(ctx.db.next_company_id, 1);
    assert_eq!(ctx.db.next_member_id, 1);
    assert!(ctx.db.has_room());
    assert_eq!(ctx.sender(), person(1));
}

#[test]
fn a_store_near_the_end_of_an_id_sequence_has_no_room() {
    let mut ctx = start();
    ctx.db.next_member_id = u64::MAX;
    assert!(!ctx.db.has_room());
    ctx.db.next_member_id = u64::MAX - 1;
    assert!(ctx.db.has_room());
    // With no member and no seat a procedure may send two notifications.
    ctx.db.next_notification_id = u64::MAX - 2;
    assert!(ctx.db.has_room());
    ctx.db.next_notification_id = u64::MAX - 1;
    assert!(!ctx.db.has_room());
}

#[test]
fn presence_follows_connects_and_disconnects() {
    let mut ctx = start();
    client_disconnected(&mut ctx);
    assert!(ctx.db.online_users.is_empty());
    client_connected(&mut ctx);
    assert_eq!(ctx.db.online_users.len(), 1);
    assert_eq!(ctx.db.online_users[0].identity, person(1));
    assert!(ctx.db.online_users[0].online);
    client_disconnected(&mut ctx);
    assert_eq!(ctx.db.online_users.len(), 1);
    assert!(!ctx.db.online_users[0].online);
    ctx.sender = person(2);
    client_connected(&mut ctx);
    assert_eq!(ctx.db.online_users.len(), 2);
    assert!(!ctx.db.online_users[0].online);
    assert!(ctx.db.online_users[1].online);
    ctx.sender = person(1);
    client_connected(&mut ctx);
    assert_eq!(ctx.db.online_users.len(), 2);
    assert!(ctx.db.online_users[0].online);
}

#[test]
fn filled_within_counts_bytes() {
    assert!(is_filled_within("abc", 3));
    assert!(!is_filled_within("abcd", 3));
    assert!(!is_filled_within("", 3));
    assert!(!is_filled_within("\u{e9}\u{e9}", 3));
}

#[test]
fn sign_up_stores_trimmed_fields() {
    let mut ctx = start();
    assert_eq!(
        create_account(&mut ctx, text("  Ann Smith "), text(" ann "), text(" ann@example.com\n")),
        Ok(())
    );
    assert_eq!(ctx.db.accounts.len(), 1);
    let account = &ctx.db.accounts[0];
    assert_eq!(account.identity, person(1));
    assert_eq!(account.full_name, "Ann Smith");
    assert_eq!(account.nickname, "ann");
    assert_eq!(account.email, "ann@example.com");
    assert_eq!(account.active_company_id, None);
    assert_eq!(account.created_at, Timestamp { micros: 77 });
}

#[test]
fn sign_up_refuses_bad_input_and_duplicates() {
    let mut ctx = start();
    let ok_mail = "ann@example.com";
    assert_eq!(create_account(&mut ctx, text(" "), text("ann"), text(ok_mail)), Err(Error::InvalidInput));
    assert_eq!(create_account(&mut ctx, text("Ann"), text(""), text(ok_mail)), Err(Error::InvalidInput));
    assert_eq!(create_account(&mut ctx, text("Ann"), text("ann"), text("  ")), Err(Error::InvalidInput));
    assert_eq!(
        create_account(&mut ctx, "a".repeat(51), text("ann"), text(ok_mail)),
        Err(Error::InvalidInput)
    );
    assert_eq!(
        create_account(&mut ctx, text("Ann"), "a".repeat(26), text(ok_mail)),
        Err(Error::InvalidInput)
    );
    let long_mail = format!("a@{}.com", "b".repeat(100));
    assert_eq!(create_account(&mut ctx, text("Ann"), text("ann"), long_mail), Err(Error::InvalidInput));
    assert_eq!(create_account(&mut ctx, text("Ann"), text("ann"), text("nope")), Err(Error::InvalidInput));
    assert!(ctx.db.accounts.is_empty());

    assert_eq!(create_account(&mut ctx, "a".repeat(50), "a".repeat(25), text(ok_mail)), Ok(()));
    assert_eq!(create_account(&mut ctx, text("Ann"), text("ann"), text(ok_mail)), Err(Error::Conflict));
    assert_eq!(ctx.db.accounts.len(), 1);
}

#[test]
fn a_profile_update_changes_nickname_and_email_only() {
    let mut ctx = start();
    assert_eq!(update_profile(&mut ctx, text("x"), text("x@y.zz")), Err(Error::Unauthenticated));
    sign_up(&mut ctx, 1, "Ann");
    sign_up(&mut ctx, 2, "Bob");
    ctx.sender = person(1);
    assert_eq!(update_profile(&mut ctx, text(""), text("x@y.zz")), Err(Error::InvalidInput));
    assert_eq!(update_profile(&mut ctx, text("x"), text("xy.zz")), Err(Error::InvalidInput));
    assert_eq!(update_profile(&mut ctx, text(" annie "), text(" annie@y.zz ")), Ok(()));
    assert_eq!(ctx.db.accounts[0].full_name, "Ann");
    assert_eq!(ctx.db.accounts[0].nickname, "annie");
    assert_eq!(ctx.db.accounts[0].email, "annie@y.zz");
    assert_eq!(ctx.db.accounts[1].nickname, "Bob");
    assert_eq!(ctx.db.accounts[1].email, "bob@example.com");
}

#[test]
fn founding_a_company_makes_the_caller_its_owner() {
    let mut ctx = start();
    assert_eq!(
        create_company(&mut ctx, text("Acme"), text("acme"), text("Utrecht")),
        Err(Error::Unauthenticated)
    );
    sign_up(&mut ctx, 1, "Ann");
    assert_eq!(
        create_company(&mut ctx, text(" Acme Signs "), text(" Acme  Signs "), text(" Utrecht ")),
        Ok(())
    );
    let company = &ctx.db.companies[0];
    assert_eq!(company.id, 1);
    assert_eq!(company.owner_identity, person(1));
    assert_eq!(company.name, "Acme Signs");
    assert_eq!(company.slug, "acme-signs");
    assert_eq!(company.location, "Utrecht");
    assert_eq!(company.bio, "");
    assert_eq!(company.kvk_number, "");
    assert!(!company.is_public);
    assert_eq!(ctx.db.capabilities.len(), 1);
    assert_eq!(ctx.db.capabilities[0].company_id, 1);
    assert!(!ctx.db.capabilities[0].can_install);
    assert!(!ctx.db.capabilities[0].has_cnc);
    assert_eq!(ctx.db.members.len(), 1);
    assert_eq!(ctx.db.members[0].id, 1);
    assert_eq!(ctx.db.members[0].identity, person(1));
    assert_eq!(ctx.db.members[0].company_id, 1);
    assert_eq!(ctx.db.members[0].role, UserRole::Owner);
    assert_eq!(ctx.db.members[0].joined_at, Timestamp { micros: 77 });
    assert_eq!(ctx.db.accounts[0].active_company_id, Some(1));
    assert_eq!(ctx.db.next_company_id, 2);
    assert_eq!(ctx.db.next_member_id, 2);
}

#[test]
fn founding_refuses_bad_input_and_taken_slugs() {
    let mut ctx = start();
    sign_up(&mut ctx, 1, "Ann");
    assert_eq!(create_company(&mut ctx, text(""), text("a"), text("b")), Err(Error::InvalidInput));
    assert_eq!(create_company(&mut ctx, text("a"), text(" - "), text("b")), Err(Error::InvalidInput));
    assert_eq!(create_company(&mut ctx, text("a"), text("a"), text(" ")), Err(Error::InvalidInput));
    assert_eq!(create_company(&mut ctx, "a".repeat(51), text("a"), text("b")), Err(Error::InvalidInput));
    assert_eq!(create_company(&mut ctx, text("a"), "a".repeat(51), text("b")), Err(Error::InvalidInput));
    assert_eq!(create_company(&mut ctx, text("a"), text("a"), "b".repeat(101)), Err(Error::InvalidInput));
    assert!(ctx.db.companies.is_empty());
    assert_eq!(create_company(&mut ctx, text("Acme"), text("Acme"), text("Utrecht")), Ok(()));
    assert_eq!(create_company(&mut ctx, text("Other"), text(" ACME "), text("Utrecht")), Err(Error::Conflict));
    assert_eq!(ctx.db.companies.len(), 1);
    assert_eq!(ctx.db.members.len(), 1);
    assert_eq!(create_company(&mut ctx, text("Other"), text("other"), text("Utrecht")), Ok(()));
    assert_eq!(ctx.db.companies[1].id, 2);
    assert_eq!(ctx.db.accounts[0].active_company_id, Some(2));
}

#[test]
fn only_admins_issue_codes_and_zero_uses_means_one() {
    let mut ctx = start();
    assert_eq!(generate_invite_code(&mut ctx, 1, &[0; 16]), Err(Error::Unauthenticated));
    sign_up(&mut ctx, 1, "Ann");
    assert_eq!(generate_invite_code(&mut ctx, 1, &[0; 16]), Err(Error::NoActiveCompany));
    let acme = found(&mut ctx, 1, "Acme");
    assert_eq!(generate_invite_code(&mut ctx, 0, &[1; 16]), Ok(()));
    assert_eq!(ctx.db.invite_codes[0].code, "BBBB-BBBB-BBBB-BBBB");
    assert_eq!(ctx.db.invite_codes[0].company_id, acme);
    assert_eq!(ctx.db.invite_codes[0].created_by, person(1));
    assert_eq!(ctx.db.invite_codes[0].uses_remaining, 1);
    assert_eq!(generate_invite_code(&mut ctx, 7, &[2; 16]), Ok(()));
    assert_eq!(ctx.db.invite_codes[1].uses_remaining, 7);
    // The same draws give the same code, which exists.
    assert_eq!(generate_invite_code(&mut ctx, 3, &[1; 16]), Err(Error::Conflict));
    assert_eq!(ctx.db.invite_codes.len(), 2);
}

#[test]
fn a_member_below_admin_cannot_issue_codes() {
    let mut ctx = start();
    sign_up(&mut ctx, 1, "Ann");
    sign_up(&mut ctx, 2, "Bob");
    found(&mut ctx, 1, "Acme");
    assert_eq!(generate_invite_code(&mut ctx, 1, &[0; 16]), Ok(()));
    ctx.sender = person(2);
    assert_eq!(join_company(&mut ctx, text("AAAA-AAAA-AAAA-AAAA")), Ok(()));
    assert_eq!(generate_invite_code(&mut ctx, 1, &[5; 16]), Err(Error::InsufficientRole));
    ctx.sender = person(1);
    assert_eq!(update_user_role(&mut ctx, person(2), UserRole::Member), Ok(()));
    ctx.sender = person(2);
    assert_eq!(generate_invite_code(&mut ctx, 1, &[5; 16]), Err(Error::InsufficientRole));
    ctx.sender = person(1);
    assert_eq!(update_user_role(&mut ctx, person(2), UserRole::Admin), Ok(()));
    ctx.sender = person(2);
    assert_eq!(generate_invite_code(&mut ctx, 1, &[5; 16]), Ok(()));
}

#[test]
fn joining_is_refused_for_each_reason_in_turn() {
    let mut ctx = start();
    let code = "AAAA-AAAA-AAAA-AAAA";
    ctx.sender = person(2);
    assert_eq!(join_company(&mut ctx, text(code)), Err(Error::Unauthenticated));
    sign_up(&mut ctx, 1, "Ann");
    sign_up(&mut ctx, 2, "Bob");
    let acme = found(&mut ctx, 1, "Acme");
    ctx.sender = person(2);
    assert_eq!(join_company(&mut ctx, "A".repeat(26)), Err(Error::InvalidInput));
    assert_eq!(join_company(&mut ctx, text("AAAA-AAAA-AAAA")), Err(Error::InvalidInput));
    assert_eq!(join_company(&mut ctx, text("AAAA-AAAA-AAAA-AAA0")), Err(Error::InvalidInput));
    assert_eq!(join_company(&mut ctx, text(code)), Err(Error::NotFound));

    ctx.sender = person(1);
    assert_eq!(generate_invite_code(&mut ctx, 2, &[0; 16]), Ok(()));
    // The owner is a member already.
    assert_eq!(join_company(&mut ctx, text(code)), Err(Error::Conflict));

    ctx.sender = person(2);
    ctx.db.invite_codes[0].uses_remaining = 0;
    assert_eq!(join_company(&mut ctx, text(code)), Err(Error::InvalidState));
    ctx.db.invite_codes[0].uses_remaining = 2;
    assert_eq!(join_company(&mut ctx, text(code)), Ok(()));
    assert_eq!(ctx.db.invite_codes[0].uses_remaining, 1);

    // Having left, Bob cannot use the same code again.
    assert_eq!(leave_company(&mut ctx), Ok(()));
    assert_eq!(ctx.db.accounts[1].active_company_id, None);
    assert_eq!(join_company(&mut ctx, text(code)), Err(Error::Conflict));
    assert_eq!(ctx.db.invite_codes[0].uses_remaining, 1);
    assert_eq!(ctx.db.members.len(), 1);
    assert_eq!(ctx.db.used_invite_codes.len(), 1);
    assert_eq!(ctx.db.used_invite_codes[0].identity, person(2));
    assert_eq!(ctx.db.used_invite_codes[0].code, code);
    assert_eq!(ctx.db.used_invite_codes[0].company_id, acme);
}

#[test]
fn a_code_for_two_uses_admits_two_users_and_is_deleted() {
    let mut ctx = start();
    sign_up(&mut ctx, 1, "Ann");
    sign_up(&mut ctx, 2, "Bob");
    sign_up(&mut ctx, 3, "Cas");
    sign_up(&mut ctx, 4, "Dee");
    let acme = found(&mut ctx, 1, "Acme");
    assert_eq!(generate_invite_code(&mut ctx, 2, &[9; 16]), Ok(()));
    let code = ctx.db.invite_codes[0].code.clone();
    assert_eq!(code, "KKKK-KKKK-KKKK-KKKK");

    ctx.sender = person(2);
    assert_eq!(join_company(&mut ctx, code.clone()), Ok(()));
    assert_eq!(ctx.db.invite_codes.len(), 1);
    assert_eq!(ctx.db.invite_codes[0].uses_remaining, 1);
    // The same user cannot take the second use.
    assert_eq!(join_company(&mut ctx, code.clone()), Err(Error::Conflict));
    assert_eq!(ctx.db.invite_codes[0].uses_remaining, 1);

    ctx.sender = person(3);
    assert_eq!(join_company(&mut ctx, code.to_lowercase()), Ok(()));
    assert!(ctx.db.invite_codes.is_empty());

    ctx.sender = person(4);
    assert_eq!(join_company(&mut ctx, code.clone()), Err(Error::NotFound));
    assert_eq!(ctx.db.members.len(), 3);
    assert!(ctx.db.members.iter().all(|m| m.company_id == acme));
    assert_eq!(ctx.db.members[1].role, UserRole::Pending);
    assert_eq!(ctx.db.members[2].role, UserRole::Pending);
    assert_eq!(ctx.db.used_invite_codes.len(), 2);
}

#[test]
fn joining_notifies_admins_but_not_the_one_who_joins() {
    let mut ctx = start();
    sign_up(&mut ctx, 1, "Ann");
    sign_up(&mut ctx, 2, "Bob");
    sign_up(&mut ctx, 3, "Cas");
    let acme = found(&mut ctx, 1, "Acme");
    let beta = found(&mut ctx, 3, "Beta");
    ctx.sender = person(1);
    assert_eq!(generate_invite_code(&mut ctx, 5, &[0; 16]), Ok(()));
    ctx.sender = person(2);
    assert_eq!(join_company(&mut ctx, text("AAAA-AAAA-AAAA-AAAA")), Ok(()));
    ctx.sender = person(1);
    assert_eq!(update_user_role(&mut ctx, person(2), UserRole::Admin), Ok(()));
    let seen = ctx.db.notifications.len();

    // Cas has an active company already: it stays.
    ctx.sender = person(3);
    assert_eq!(join_company(&mut ctx, text("AAAA-AAAA-AAAA-AAAA")), Ok(()));
    assert_eq!(ctx.db.accounts[2].active_company_id, Some(beta));
    let fresh = &ctx.db.notifications[seen..];
    assert_eq!(fresh.len(), 2);
    assert_eq!(fresh[0].recipient_identity, person(1));
    assert_eq!(fresh[1].recipient_identity, person(2));
    assert_eq!(fresh[1].id, fresh[0].id + 1);
    for n in fresh {
        assert_eq!(n.company_id, acme);
        assert_eq!(n.notification_type, NotificationType::MemberJoined);
        assert_eq!(n.title, "New member joined");
        assert_eq!(n.body, "Cas joined Acme");
        assert!(!n.is_read);
        assert_eq!(n.created_at, Timestamp { micros: 77 });
    }
}

#[test]
fn codes_are_deleted_by_admins_of_their_company_only() {
    let mut ctx = start();
    sign_up(&mut ctx, 1, "Ann");
    sign_up(&mut ctx, 2, "Bob");
    found(&mut ctx, 1, "Acme");
    found(&mut ctx, 2, "Beta");
    ctx.sender = person(1);
    assert_eq!(generate_invite_code(&mut ctx, 1, &[0; 16]), Ok(()));
    assert_eq!(delete_invite_code(&mut ctx, text("BBBB-BBBB-BBBB-BBBB")), Err(Error::NotFound));
    ctx.sender = person(2);
    assert_eq!(delete_invite_code(&mut ctx, text("AAAA-AAAA-AAAA-AAAA")), Err(Error::NotFound));
    assert_eq!(ctx.db.invite_codes.len(), 1);
    ctx.sender = person(3);
    assert_eq!(delete_invite_code(&mut ctx, text("AAAA-AAAA-AAAA-AAAA")), Err(Error::Unauthenticated));
    ctx.sender = person(1);
    assert_eq!(delete_invite_code(&mut ctx, text("AAAA-AAAA-AAAA-AAAA")), Ok(()));
    assert!(ctx.db.invite_codes.is_empty());
}

#[test]
fn ownership_moves_and_the_former_owner_becomes_admin() {
    let mut ctx = start();
    sign_up(&mut ctx, 1, "Ann");
    sign_up(&mut ctx, 2, "Bob");
    let acme = found(&mut ctx, 1, "Acme");
    assert_eq!(transfer_ownership(&mut ctx, person(1)), Err(Error::Conflict));
    assert_eq!(transfer_ownership(&mut ctx, person(2)), Err(Error::NotFound));
    assert_eq!(generate_invite_code(&mut ctx, 1, &[0; 16]), Ok(()));
    ctx.sender = person(2);
    assert_eq!(join_company(&mut ctx, text("AAAA-AAAA-AAAA-AAAA")), Ok(()));
    assert_eq!(transfer_ownership(&mut ctx, person(1)), Err(Error::InsufficientRole));
    ctx.sender = person(1);
    assert_eq!(transfer_ownership(&mut ctx, person(2)), Ok(()));
    assert_eq!(ctx.db.companies[0].id, acme);
    assert_eq!(ctx.db.companies[0].owner_identity, person(2));
    assert_eq!(ctx.db.members[0].role, UserRole::Admin);
    assert_eq!(ctx.db.members[1].role, UserRole::Owner);
    assert_eq!(transfer_ownership(&mut ctx, person(2)), Err(Error::InsufficientRole));
    // A member who holds the Owner role without being the recorded owner
    // is refused.
    ctx.db.members[0].role = UserRole::Owner;
    assert_eq!(transfer_ownership(&mut ctx, person(2)), Err(Error::InsufficientRole));
}
