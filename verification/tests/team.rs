use directory_core::accounts::{create_account, create_company, generate_invite_code, join_company};
use directory_core::context::CallContext;
use directory_core::inbox::{clear_notifications, mark_all_notifications_read, mark_notification_read};
use directory_core::notify::{notify, notify_companies, notify_company_role};
use directory_core::roles::{Error, Identity, NotificationType, Timestamp, UserRole};
use directory_core::team::{
    add_colleague_by_identity, leave_company, remove_colleague, switch_active_company,
    update_capabilities, update_company_profile, update_user_role,
};

fn person(n: u64) -> Identity {
    Identity::from_u64(n)
}

fn start() -> CallContext {
    CallContext::new(person(1), Timestamp { micros: 10 })
}

fn text(s: &str) -> String {
    s.to_string()
}

fn sign_up(ctx: &mut CallContext, who: u64, name: &str) {
    ctx.sender = person(who);
    let email = format!("{}@example.com", name.to_lowercase());
    assert_eq!(create_account(ctx, name.to_string(), name.to_string(), email), Ok(()));
}

fn found(ctx: &mut CallContext, who: u64, company: &str) -> u64 {
    ctx.sender = person(who);
    assert_eq!(
        create_company(ctx, company.to_string(), company.to_string(), "Utrecht".to_string()),
        Ok(())
    );
    ctx.db.companies.last().unwrap().id
}

/// Ann owns Acme; Bob, Cas and Dee are members with the roles given.
fn team(roles: [UserRole; 3]) -> (CallContext, u64) {
    let mut ctx = start();
    sign_up(&mut ctx, 1, "Ann");
    sign_up(&mut ctx, 2, "Bob");
    sign_up(&mut ctx, 3, "Cas");
    sign_up(&mut ctx, 4, "Dee");
    let acme = found(&mut ctx, 1, "Acme");
    for (i, role) in roles.iter().enumerate() {
        let who = person(2 + i as u64);
        ctx.sender = person(1);
        assert_eq!(add_colleague_by_identity(&mut ctx, who), Ok(()));
        if *role != UserRole::Member {
            assert_eq!(update_user_role(&mut ctx, who, *role), Ok(()));
        }
        ctx.sender = who;
        assert_eq!(switch_active_company(&mut ctx, acme), Ok(()));
    }
    ctx.db.notifications.clear();
    ctx.sender = person(1);
    (ctx, acme)
}

#[test]
fn colleagues_are_added_as_members() {
    let mut ctx = start();
    sign_up(&mut ctx, 1, "Ann");
    sign_up(&mut ctx, 2, "Bob");
    let acme = found(&mut ctx, 1, "Acme");
    assert_eq!(add_colleague_by_identity(&mut ctx, person(9)), Err(Error::NotFound));
    assert_eq!(add_colleague_by_identity(&mut ctx, person(1)), Err(Error::Conflict));
    assert_eq!(add_colleague_by_identity(&mut ctx, person(2)), Ok(()));
    assert_eq!(ctx.db.members.len(), 2);
    assert_eq!(ctx.db.members[1].id, 2);
    assert_eq!(ctx.db.members[1].identity, person(2));
    assert_eq!(ctx.db.members[1].company_id, acme);
    assert_eq!(ctx.db.members[1].role, UserRole::Member);
    // Being added does not move the colleague's cursor.
    assert_eq!(ctx.db.accounts[1].active_company_id, None);
    assert_eq!(add_colleague_by_identity(&mut ctx, person(2)), Err(Error::Conflict));
    ctx.sender = person(2);
    assert_eq!(add_colleague_by_identity(&mut ctx, person(1)), Err(Error::NoActiveCompany));
    assert_eq!(switch_active_company(&mut ctx, acme), Ok(()));
    assert_eq!(add_colleague_by_identity(&mut ctx, person(1)), Err(Error::InsufficientRole));
}

#[test]
fn only_lower_roles_can_be_removed() {
    let (mut ctx, acme) = team([UserRole::Admin, UserRole::Admin, UserRole::Field]);
    ctx.sender = person(2);
    assert_eq!(remove_colleague(&mut ctx, person(2)), Err(Error::Conflict));
    assert_eq!(remove_colleague(&mut ctx, person(9)), Err(Error::NotFound));
    assert_eq!(remove_colleague(&mut ctx, person(1)), Err(Error::InsufficientRole));
    assert_eq!(remove_colleague(&mut ctx, person(3)), Err(Error::InsufficientRole));
    ctx.sender = person(4);
    assert_eq!(remove_colleague(&mut ctx, person(2)), Err(Error::InsufficientRole));
    assert_eq!(ctx.db.members.len(), 4);
    assert!(ctx.db.notifications.is_empty());

    ctx.sender = person(2);
    assert_eq!(remove_colleague(&mut ctx, person(4)), Ok(()));
    assert_eq!(ctx.db.members.len(), 3);
    assert!(ctx.db.members.iter().all(|m| m.identity != person(4)));
    assert_eq!(ctx.db.accounts[3].active_company_id, None);
    assert_eq!(ctx.db.notifications.len(), 1);
    let n = &ctx.db.notifications[0];
    assert_eq!(n.recipient_identity, person(4));
    assert_eq!(n.company_id, acme);
    assert_eq!(n.notification_type, NotificationType::MemberRemoved);
    assert_eq!(n.title, "Removed from company");
    assert_eq!(n.body, "You were removed from Acme");

    ctx.sender = person(1);
    assert_eq!(remove_colleague(&mut ctx, person(2)), Ok(()));
    assert_eq!(ctx.db.members.len(), 2);
}

#[test]
fn an_owner_cannot_leave() {
    let mut ctx = start();
    assert_eq!(leave_company(&mut ctx), Err(Error::Unauthenticated));
    sign_up(&mut ctx, 1, "Ann");
    assert_eq!(leave_company(&mut ctx), Err(Error::NoActiveCompany));
    let acme = found(&mut ctx, 1, "Acme");
    assert_eq!(leave_company(&mut ctx), Err(Error::InvalidState));
    assert_eq!(ctx.db.members.len(), 1);
    ctx.db.accounts[0].active_company_id = Some(acme + 5);
    assert_eq!(leave_company(&mut ctx), Err(Error::NotAMember));
}

#[test]
fn a_member_leaves_and_the_cursor_is_cleared() {
    let (mut ctx, _) = team([UserRole::Admin, UserRole::Member, UserRole::Pending]);
    for who in [2u64, 3, 4] {
        ctx.sender = person(who);
        assert_eq!(leave_company(&mut ctx), Ok(()));
        assert_eq!(ctx.db.accounts[who as usize - 1].active_company_id, None);
        assert_eq!(leave_company(&mut ctx), Err(Error::NoActiveCompany));
    }
    assert_eq!(ctx.db.members.len(), 1);
    assert_eq!(ctx.db.members[0].identity, person(1));
}

#[test]
fn the_cursor_moves_only_to_companies_of_the_user() {
    let mut ctx = start();
    assert_eq!(switch_active_company(&mut ctx, 1), Err(Error::Unauthenticated));
    sign_up(&mut ctx, 1, "Ann");
    sign_up(&mut ctx, 2, "Bob");
    let acme = found(&mut ctx, 1, "Acme");
    let beta = found(&mut ctx, 1, "Beta");
    assert_eq!(ctx.db.accounts[0].active_company_id, Some(beta));
    assert_eq!(switch_active_company(&mut ctx, acme), Ok(()));
    assert_eq!(ctx.db.accounts[0].active_company_id, Some(acme));
    assert_eq!(switch_active_company(&mut ctx, 99), Err(Error::NotAMember));
    ctx.sender = person(2);
    assert_eq!(switch_active_company(&mut ctx, acme), Err(Error::NotAMember));
    // A membership of a company that is gone.
    ctx.sender = person(1);
    ctx.db.companies.remove(1);
    assert_eq!(switch_active_company(&mut ctx, beta), Err(Error::NotFound));
    assert_eq!(ctx.db.accounts[0].active_company_id, Some(acme));
}

#[test]
fn the_company_profile_is_rewritten_by_admins() {
    let (mut ctx, acme) = team([UserRole::Admin, UserRole::Member, UserRole::Pending]);
    sign_up(&mut ctx, 5, "Eve");
    found(&mut ctx, 5, "Other");
    ctx.sender = person(3);
    let call = |ctx: &mut CallContext, name: &str, slug: &str, location: &str, bio: &str, kvk: &str| {
        update_company_profile(ctx, text(name), text(slug), text(location), text(bio), true, text(kvk))
    };
    assert_eq!(call(&mut ctx, "Acme", "acme", "Utrecht", "", ""), Err(Error::InsufficientRole));
    ctx.sender = person(2);
    assert_eq!(call(&mut ctx, " ", "acme", "Utrecht", "", ""), Err(Error::InvalidInput));
    assert_eq!(call(&mut ctx, "Acme", "--", "Utrecht", "", ""), Err(Error::InvalidInput));
    assert_eq!(call(&mut ctx, "Acme", "acme", "", "", ""), Err(Error::InvalidInput));
    assert_eq!(call(&mut ctx, "Acme", "acme", "Utrecht", &"b".repeat(501), ""), Err(Error::InvalidInput));
    assert_eq!(call(&mut ctx, "Acme", "acme", "Utrecht", "", &"1".repeat(21)), Err(Error::InvalidInput));
    assert_eq!(call(&mut ctx, "Acme", "Other", "Utrecht", "", ""), Err(Error::Conflict));
    assert_eq!(ctx.db.companies[0].name, "Acme");
    assert!(!ctx.db.companies[0].is_public);

    // Keeping the own slug is no conflict.
    assert_eq!(
        call(&mut ctx, " Acme BV ", "ACME", " Amsterdam ", &format!(" {} ", "b".repeat(500)), " 12345678 "),
        Ok(())
    );
    let company = &ctx.db.companies[0];
    assert_eq!(company.id, acme);
    assert_eq!(company.owner_identity, person(1));
    assert_eq!(company.name, "Acme BV");
    assert_eq!(company.slug, "acme");
    assert_eq!(company.location, "Amsterdam");
    assert_eq!(company.bio, "b".repeat(500));
    assert_eq!(company.kvk_number, "12345678");
    assert!(company.is_public);
    assert_eq!(ctx.db.companies[1].name, "Other");

    assert_eq!(call(&mut ctx, "Acme BV", "Acme Signs", "Amsterdam", "", ""), Ok(()));
    assert_eq!(ctx.db.companies[0].slug, "acme-signs");
    assert_eq!(ctx.db.companies[0].bio, "");
}

#[test]
fn capabilities_are_set_by_admins() {
    let (mut ctx, acme) = team([UserRole::Admin, UserRole::Installer, UserRole::Pending]);
    ctx.sender = person(3);
    assert_eq!(update_capabilities(&mut ctx, true, true, true, true), Err(Error::InsufficientRole));
    ctx.sender = person(2);
    assert_eq!(update_capabilities(&mut ctx, true, false, true, false), Ok(()));
    let flags = ctx.db.capabilities[0];
    assert_eq!(flags.company_id, acme);
    assert!(flags.can_install && !flags.has_cnc && flags.has_large_format && !flags.has_bucket_truck);
    assert_eq!(update_capabilities(&mut ctx, false, true, false, true), Ok(()));
    let flags = ctx.db.capabilities[0];
    assert!(!flags.can_install && flags.has_cnc && !flags.has_large_format && flags.has_bucket_truck);
    ctx.db.capabilities.clear();
    assert_eq!(update_capabilities(&mut ctx, true, true, true, true), Err(Error::NotFound));
}

#[test]
fn roles_are_changed_within_the_hierarchy() {
    let (mut ctx, acme) = team([UserRole::Admin, UserRole::Admin, UserRole::Pending]);
    ctx.sender = person(2);
    assert_eq!(update_user_role(&mut ctx, person(2), UserRole::Member), Err(Error::Conflict));
    assert_eq!(update_user_role(&mut ctx, person(4), UserRole::Owner), Err(Error::InvalidInput));
    assert_eq!(update_user_role(&mut ctx, person(9), UserRole::Member), Err(Error::NotFound));
    assert_eq!(update_user_role(&mut ctx, person(1), UserRole::Member), Err(Error::InsufficientRole));
    assert_eq!(update_user_role(&mut ctx, person(3), UserRole::Member), Err(Error::InsufficientRole));
    assert_eq!(update_user_role(&mut ctx, person(4), UserRole::Admin), Err(Error::InsufficientRole));
    assert!(ctx.db.notifications.is_empty());
    assert_eq!(update_user_role(&mut ctx, person(4), UserRole::Installer), Ok(()));
    assert_eq!(ctx.db.members[3].role, UserRole::Installer);
    assert_eq!(ctx.db.notifications.len(), 1);
    let n = &ctx.db.notifications[0];
    assert_eq!(n.recipient_identity, person(4));
    assert_eq!(n.company_id, acme);
    assert_eq!(n.notification_type, NotificationType::RoleChanged);
    assert_eq!(n.title, "Role updated");
    assert_eq!(n.body, "Your role in Acme was changed to Installer");

    // The owner may assign Admin, and demote an Admin.
    ctx.sender = person(1);
    assert_eq!(update_user_role(&mut ctx, person(4), UserRole::Admin), Ok(()));
    assert_eq!(update_user_role(&mut ctx, person(2), UserRole::Pending), Ok(()));
    assert_eq!(ctx.db.members[1].role, UserRole::Pending);
    assert_eq!(ctx.db.members[3].role, UserRole::Admin);
    ctx.sender = person(2);
    assert_eq!(update_user_role(&mut ctx, person(4), UserRole::Field), Err(Error::InsufficientRole));
}

#[test]
fn a_single_notification_gets_the_next_id() {
    let (mut ctx, acme) = team([UserRole::Admin, UserRole::Member, UserRole::Pending]);
    let first = ctx.db.next_notification_id;
    notify(&mut ctx, person(9), acme, NotificationType::ChatMessage, text("t"), text("b"));
    notify(&mut ctx, person(8), 42, NotificationType::ProjectInvite, text("t2"), text("b2"));
    assert_eq!(ctx.db.notifications.len(), 2);
    assert_eq!(ctx.db.notifications[0].id, first);
    assert_eq!(ctx.db.notifications[0].recipient_identity, person(9));
    assert_eq!(ctx.db.notifications[0].company_id, acme);
    assert_eq!(ctx.db.notifications[0].title, "t");
    assert_eq!(ctx.db.notifications[0].body, "b");
    assert!(!ctx.db.notifications[0].is_read);
    assert_eq!(ctx.db.notifications[1].id, first + 1);
    assert_eq!(ctx.db.notifications[1].company_id, 42);
    assert_eq!(ctx.db.notifications[1].notification_type, NotificationType::ProjectInvite);
    assert_eq!(ctx.db.next_notification_id, first + 2);
}

#[test]
fn the_fan_out_reaches_each_member_of_the_role_but_the_excluded() {
    let (mut ctx, acme) = team([UserRole::Admin, UserRole::Field, UserRole::Pending]);
    let kind = NotificationType::ChatMessage;
    notify_company_role(&mut ctx, acme, UserRole::Admin, None, kind, text("t"), text("b"));
    let got: Vec<Identity> = ctx.db.notifications.iter().map(|n| n.recipient_identity).collect();
    assert_eq!(got, vec![person(1), person(2)]);

    ctx.db.notifications.clear();
    notify_company_role(&mut ctx, acme, UserRole::Admin, Some(person(1)), kind, text("t"), text("b"));
    let got: Vec<Identity> = ctx.db.notifications.iter().map(|n| n.recipient_identity).collect();
    assert_eq!(got, vec![person(2)]);

    ctx.db.notifications.clear();
    notify_company_role(&mut ctx, acme, UserRole::Field, Some(person(9)), kind, text("t"), text("b"));
    let got: Vec<Identity> = ctx.db.notifications.iter().map(|n| n.recipient_identity).collect();
    assert_eq!(got, vec![person(1), person(2), person(3)]);

    ctx.db.notifications.clear();
    notify_company_role(&mut ctx, acme, UserRole::Pending, None, kind, text("t"), text("b"));
    assert_eq!(ctx.db.notifications.len(), 4);
    let ids: Vec<u64> = ctx.db.notifications.iter().map(|n| n.id).collect();
    assert_eq!(ids, vec![ids[0], ids[0] + 1, ids[0] + 2, ids[0] + 3]);

    ctx.db.notifications.clear();
    notify_company_role(&mut ctx, acme + 1, UserRole::Pending, None, kind, text("t"), text("b"));
    assert!(ctx.db.notifications.is_empty());
}

#[test]
fn the_fan_out_to_several_companies_goes_in_their_order() {
    let (mut ctx, acme) = team([UserRole::Admin, UserRole::Field, UserRole::Pending]);
    sign_up(&mut ctx, 5, "Eve");
    let beta = found(&mut ctx, 5, "Beta");
    let kind = NotificationType::ProjectChat;
    notify_companies(&mut ctx, &vec![beta, acme, beta], UserRole::Admin, kind, &text("t"), &text("b"));
    let got: Vec<(Identity, u64)> =
        ctx.db.notifications.iter().map(|n| (n.recipient_identity, n.company_id)).collect();
    assert_eq!(
        got,
        vec![(person(5), beta), (person(1), acme), (person(2), acme), (person(5), beta)]
    );
    ctx.db.notifications.clear();
    notify_companies(&mut ctx, &vec![], UserRole::Admin, kind, &text("t"), &text("b"));
    assert!(ctx.db.notifications.is_empty());
}

#[test]
fn notifications_are_read_and_cleared_by_their_recipient() {
    let (mut ctx, acme) = team([UserRole::Admin, UserRole::Field, UserRole::Pending]);
    let kind = NotificationType::ChatMessage;
    notify(&mut ctx, person(1), acme, kind, text("a"), text(""));
    notify(&mut ctx, person(1), acme, kind, text("b"), text(""));
    notify(&mut ctx, person(1), acme + 1, kind, text("c"), text(""));
    notify(&mut ctx, person(2), acme, kind, text("d"), text(""));
    let first = ctx.db.notifications[0].id;

    ctx.sender = person(2);
    assert_eq!(mark_notification_read(&mut ctx, first), Err(Error::NotFound));
    assert_eq!(mark_notification_read(&mut ctx, 999), Err(Error::NotFound));
    ctx.sender = person(1);
    assert_eq!(mark_notification_read(&mut ctx, first), Ok(()));
    let read: Vec<bool> = ctx.db.notifications.iter().map(|n| n.is_read).collect();
    assert_eq!(read, vec![true, false, false, false]);

    assert_eq!(clear_notifications(&mut ctx, acme), Ok(()));
    let titles: Vec<String> = ctx.db.notifications.iter().map(|n| n.title.clone()).collect();
    assert_eq!(titles, vec!["b", "c", "d"]);

    assert_eq!(mark_all_notifications_read(&mut ctx, acme), Ok(()));
    let read: Vec<bool> = ctx.db.notifications.iter().map(|n| n.is_read).collect();
    assert_eq!(read, vec![true, false, false]);
    assert_eq!(clear_notifications(&mut ctx, acme + 1), Ok(()));
    assert_eq!(ctx.db.notifications.len(), 3);
    assert_eq!(clear_notifications(&mut ctx, acme), Ok(()));
    let titles: Vec<String> = ctx.db.notifications.iter().map(|n| n.title.clone()).collect();
    assert_eq!(titles, vec!["c", "d"]);

    ctx.sender = person(9);
    assert_eq!(mark_all_notifications_read(&mut ctx, acme), Err(Error::Unauthenticated));
    assert_eq!(clear_notifications(&mut ctx, acme), Err(Error::Unauthenticated));
}
