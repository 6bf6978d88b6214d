use directory_core::accounts::{create_account, create_company, generate_invite_code, join_company};
use directory_core::connections::{
    accept_connection, decline_connection, request_connection, send_connection_chat,
};
use directory_core::context::CallContext;
use directory_core::roles::{ConnectionStatus, Error, Identity, NotificationType, Timestamp, UserRole};
use directory_core::team::update_user_role;

fn person(n: u64) -> Identity {
    Identity::from_u64(n)
}

fn start() -> CallContext {
    CallContext::new(person(1), Timestamp { micros: 1_000 })
}

fn sign_up(ctx: &mut CallContext, who: u64, name: &str) {
    ctx.sender = person(who);
    let email = format!("{}@example.com", name.to_lowercase());
    assert_eq!(create_account(ctx, name.to_string(), name.to_string(), email), Ok(()));
}

fn found(ctx: &mut CallContext, who: u64, company: &str) -> u64 {
    ctx.sender = person(who);
    assert_eq!(
        create_company(ctx, company.to_string(), company.to_string(), "Utrecht".to_string()),
        Ok(())
    );
    ctx.db.companies.last().unwrap().id
}

#[test]
fn founder_invites_and_pending_member_cannot_chat() {
    let mut ctx = start();
    sign_up(&mut ctx, 1, "Ann");
    sign_up(&mut ctx, 2, "Bob");
    sign_up(&mut ctx, 3, "Cas");

    let acme = found(&mut ctx, 1, "Acme");
    assert_eq!(ctx.db.companies[0].slug, "acme");
    assert_eq!(ctx.db.companies[0].owner_identity, person(1));
    assert_eq!(ctx.db.members.len(), 1);
    assert_eq!(ctx.db.members[0].role, UserRole::Owner);
    assert_eq!(ctx.db.accounts[0].active_company_id, Some(acme));
    assert_eq!(ctx.db.capabilities.len(), 1);

    ctx.sender = person(1);
    assert_eq!(generate_invite_code(&mut ctx, 1, &[0u64; 16]), Ok(()));
    assert_eq!(ctx.db.invite_codes.len(), 1);
    assert_eq!(ctx.db.invite_codes[0].code, "AAAA-AAAA-AAAA-AAAA");
    assert_eq!(ctx.db.invite_codes[0].uses_remaining, 1);

    ctx.sender = person(2);
    assert_eq!(join_company(&mut ctx, " aaaa-aaaa-aaaa-aaaa ".to_string()), Ok(()));
    assert_eq!(ctx.db.members.len(), 2);
    assert_eq!(ctx.db.members[1].identity, person(2));
    assert_eq!(ctx.db.members[1].role, UserRole::Pending);
    assert!(ctx.db.invite_codes.is_empty());
    assert_eq!(ctx.db.used_invite_codes.len(), 1);
    assert_eq!(ctx.db.accounts[1].active_company_id, Some(acme));
    assert_eq!(ctx.db.notifications.len(), 1);
    let joined = &ctx.db.notifications[0];
    assert_eq!(joined.recipient_identity, person(1));
    assert_eq!(joined.company_id, acme);
    assert_eq!(joined.notification_type, NotificationType::MemberJoined);
    assert_eq!(joined.title, "New member joined");
    assert_eq!(joined.body, "Bob joined Acme");
    assert!(!joined.is_read);

    // A connection for the chat to go to.
    let other = found(&mut ctx, 3, "Other");
    ctx.sender = person(3);
    assert_eq!(request_connection(&mut ctx, acme, "hello".to_string()), Ok(()));
    ctx.sender = person(1);
    assert_eq!(accept_connection(&mut ctx, other), Ok(()));
    let connection_id = ctx.db.connections[0].id;

    ctx.sender = person(2);
    let before = ctx.db.connection_chats.len();
    assert_eq!(
        send_connection_chat(&mut ctx, connection_id, "hi".to_string()),
        Err(Error::InsufficientRole)
    );
    assert_eq!(ctx.db.connection_chats.len(), before);

    ctx.sender = person(1);
    assert_eq!(update_user_role(&mut ctx, person(2), UserRole::Field), Ok(()));
    ctx.sender = person(2);
    assert_eq!(send_connection_chat(&mut ctx, connection_id, "hi".to_string()), Ok(()));
    assert_eq!(ctx.db.connection_chats.len(), before + 1);
}

#[test]
fn declined_request_leaves_nothing_behind() {
    let mut ctx = start();
    sign_up(&mut ctx, 1, "Ann");
    sign_up(&mut ctx, 2, "Bob");
    let a = found(&mut ctx, 1, "Alpha");
    let b = found(&mut ctx, 2, "Beta");

    ctx.sender = person(1);
    assert_eq!(request_connection(&mut ctx, b, "hi".to_string()), Ok(()));
    assert_eq!(ctx.db.connections.len(), 1);
    assert_eq!(ctx.db.connections[0].status, ConnectionStatus::Pending);
    assert_eq!(ctx.db.connections[0].initial_message, "hi");
    assert_eq!(ctx.db.connections[0].company_a, a.min(b));
    assert_eq!(ctx.db.connections[0].company_b, a.max(b));
    let connection_id = ctx.db.connections[0].id;
    assert_eq!(send_connection_chat(&mut ctx, connection_id, "are you there?".to_string()), Ok(()));
    assert_eq!(ctx.db.connection_chats.len(), 1);
    assert_eq!(request_connection(&mut ctx, b, "again".to_string()), Err(Error::Conflict));

    ctx.sender = person(2);
    let seen = ctx.db.notifications.len();
    assert_eq!(decline_connection(&mut ctx, a), Ok(()));
    assert!(ctx.db.connections.is_empty());
    assert!(ctx.db.connection_chats.is_empty());
    assert_eq!(ctx.db.notifications.len(), seen + 1);
    let declined = ctx.db.notifications.last().unwrap();
    assert_eq!(declined.recipient_identity, person(1));
    assert_eq!(declined.company_id, a);
    assert_eq!(declined.notification_type, NotificationType::ConnectionDeclined);
    assert_eq!(declined.title, "Connection declined");
    assert_eq!(declined.body, "Beta declined your connection request");

    ctx.sender = person(1);
    assert_eq!(request_connection(&mut ctx, b, "hi".to_string()), Ok(()));
    assert_eq!(ctx.db.connections.len(), 1);
    assert_eq!(ctx.db.connections[0].status, ConnectionStatus::Pending);
}
