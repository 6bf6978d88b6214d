use directory_core::accounts::{create_account, create_company};
use directory_core::connections::{
    accept_connection, block_company, cancel_request, decline_connection, delete_connection_chat,
    disconnect_company, find_connection, request_connection, requesting_company_id,
    send_connection_chat, unblock_company,
};
use directory_core::context::CallContext;
use directory_core::roles::{ConnectionStatus, Error, Identity, NotificationType, Timestamp, UserRole};
use directory_core::team::{add_colleague_by_identity, leave_company, switch_active_company, update_user_role};

fn person(n: u64) -> Identity {
    Identity::from_u64(n)
}

fn text(s: &str) -> String {
    s.to_string()
}

fn sign_up(ctx: &mut CallContext, who: u64, name: &str) {
    ctx.sender = person(who);
    let email = format!("{}@example.com", name.to_lowercase());
    assert_eq!(create_account(ctx, name.to_string(), name.to_string(), email), Ok(()));
}

fn found(ctx: &mut CallContext, who: u64, company: &str) -> u64 {
    ctx.sender = person(who);
    assert_eq!(
        create_company(ctx, company.to_string(), company.to_string(), "Utrecht".to_string()),
        Ok(())
    );
    ctx.db.companies.last().unwrap().id
}

/// Ann owns Alpha, Bob owns Beta, Cas owns Gamma; Dee is a Field member of
/// Alpha and Eve a Pending member of Beta.
fn world() -> (CallContext, u64, u64, u64) {
    let mut ctx = CallContext::new(person(1), Timestamp { micros: 3 });
    for (who, name) in [(1, "Ann"), (2, "Bob"), (3, "Cas"), (4, "Dee"), (5, "Eve")] {
        sign_up(&mut ctx, who, name);
    }
    let alpha = found(&mut ctx, 1, "Alpha");
    let beta = found(&mut ctx, 2, "Beta");
    let gamma = found(&mut ctx, 3, "Gamma");
    ctx.sender = person(1);
    assert_eq!(add_colleague_by_identity(&mut ctx, person(4)), Ok(()));
    assert_eq!(update_user_role(&mut ctx, person(4), UserRole::Field), Ok(()));
    ctx.sender = person(4);
    assert_eq!(switch_active_company(&mut ctx, alpha), Ok(()));
    ctx.sender = person(2);
    assert_eq!(add_colleague_by_identity(&mut ctx, person(5)), Ok(()));
    assert_eq!(update_user_role(&mut ctx, person(5), UserRole::Pending), Ok(()));
    ctx.sender = person(5);
    assert_eq!(switch_active_company(&mut ctx, beta), Ok(()));
    ctx.db.notifications.clear();
    ctx.sender = person(1);
    (ctx, alpha, beta, gamma)
}

#[test]
fn a_connection_is_found_from_either_side() {
    let (mut ctx, alpha, beta, gamma) = world();
    ctx.sender = person(2);
    assert_eq!(request_connection(&mut ctx, alpha, text("hi")), Ok(()));
    let one = find_connection(&ctx, alpha, beta).unwrap();
    let other = find_connection(&ctx, beta, alpha).unwrap();
    assert_eq!(one, other);
    assert_eq!(one.company_a, alpha);
    assert_eq!(one.company_b, beta);
    assert_eq!(one.requested_by, person(2));
    assert_eq!(find_connection(&ctx, alpha, gamma), None);
    assert_eq!(find_connection(&ctx, gamma, alpha), None);
    assert_eq!(find_connection(&ctx, alpha, alpha), None);
    // The other side cannot add a second row for the pair.
    ctx.sender = person(1);
    assert_eq!(request_connection(&mut ctx, beta, text("hi")), Err(Error::Conflict));
    assert_eq!(ctx.db.connections.len(), 1);
}

#[test]
fn requests_are_refused_for_each_reason_in_turn() {
    let (mut ctx, alpha, beta, _) = world();
    ctx.sender = person(9);
    assert_eq!(request_connection(&mut ctx, beta, text("hi")), Err(Error::Unauthenticated));
    ctx.sender = person(4);
    assert_eq!(request_connection(&mut ctx, beta, text("hi")), Err(Error::InsufficientRole));
    // The role is checked before the message.
    assert_eq!(request_connection(&mut ctx, beta, "m".repeat(501)), Err(Error::InsufficientRole));
    ctx.sender = person(1);
    assert_eq!(request_connection(&mut ctx, beta, "m".repeat(501)), Err(Error::InvalidInput));
    assert_eq!(request_connection(&mut ctx, alpha, text("hi")), Err(Error::Conflict));
    assert_eq!(request_connection(&mut ctx, 99, text("hi")), Err(Error::NotFound));
    assert!(ctx.db.connections.is_empty());
    assert!(ctx.db.notifications.is_empty());
    let padded = format!("  {}  ", "m".repeat(500));
    assert_eq!(request_connection(&mut ctx, beta, padded), Ok(()));
    let conn = &ctx.db.connections[0];
    assert_eq!(conn.id, 1);
    assert_eq!(conn.status, ConnectionStatus::Pending);
    assert_eq!(conn.blocking_company_id, None);
    assert_eq!(conn.initial_message, "m".repeat(500));
    assert_eq!(conn.created_at, Timestamp { micros: 3 });
    // Beta's owner is told; its Pending member is not.
    assert_eq!(ctx.db.notifications.len(), 1);
    let n = &ctx.db.notifications[0];
    assert_eq!(n.recipient_identity, person(2));
    assert_eq!(n.company_id, beta);
    assert_eq!(n.notification_type, NotificationType::ConnectionRequest);
    assert_eq!(n.title, "Connection request");
    assert_eq!(n.body, "Alpha wants to connect");
}

#[test]
fn only_the_other_side_accepts() {
    let (mut ctx, alpha, beta, gamma) = world();
    assert_eq!(accept_connection(&mut ctx, beta), Err(Error::NotFound));
    assert_eq!(request_connection(&mut ctx, beta, text("hi")), Ok(()));
    assert_eq!(accept_connection(&mut ctx, beta), Err(Error::Conflict));
    ctx.sender = person(3);
    assert_eq!(accept_connection(&mut ctx, alpha), Err(Error::NotFound));
    ctx.sender = person(5);
    assert_eq!(accept_connection(&mut ctx, alpha), Err(Error::InsufficientRole));
    ctx.db.notifications.clear();
    ctx.sender = person(2);
    assert_eq!(accept_connection(&mut ctx, alpha), Ok(()));
    assert_eq!(ctx.db.connections[0].status, ConnectionStatus::Accepted);
    assert_eq!(ctx.db.connections[0].blocking_company_id, None);
    assert_eq!(ctx.db.notifications.len(), 1);
    let n = &ctx.db.notifications[0];
    assert_eq!(n.recipient_identity, person(1));
    assert_eq!(n.company_id, alpha);
    assert_eq!(n.notification_type, NotificationType::ConnectionAccepted);
    assert_eq!(n.title, "Connection accepted");
    assert_eq!(n.body, "Beta accepted your connection request");
    assert_eq!(accept_connection(&mut ctx, alpha), Err(Error::InvalidState));
    assert_eq!(decline_connection(&mut ctx, alpha), Err(Error::InvalidState));
    assert_eq!(cancel_request(&mut ctx, alpha), Err(Error::InvalidState));
    let _ = gamma;
}

#[test]
fn only_the_requesting_side_cancels() {
    let (mut ctx, alpha, beta, _) = world();
    assert_eq!(cancel_request(&mut ctx, beta), Err(Error::NotFound));
    assert_eq!(request_connection(&mut ctx, beta, text("hi")), Ok(()));
    let id = ctx.db.connections[0].id;
    assert_eq!(send_connection_chat(&mut ctx, id, text("one")), Ok(()));
    ctx.sender = person(2);
    assert_eq!(send_connection_chat(&mut ctx, id, text("two")), Ok(()));
    assert_eq!(cancel_request(&mut ctx, alpha), Err(Error::NotAMember));
    ctx.sender = person(4);
    assert_eq!(cancel_request(&mut ctx, beta), Err(Error::InsufficientRole));
    assert_eq!(ctx.db.connections.len(), 1);
    assert_eq!(ctx.db.connection_chats.len(), 2);
    ctx.sender = person(1);
    assert_eq!(cancel_request(&mut ctx, beta), Ok(()));
    assert!(ctx.db.connections.is_empty());
    assert!(ctx.db.connection_chats.is_empty());
}

#[test]
fn the_requester_is_resolved_by_membership_not_by_cursor() {
    let (mut ctx, alpha, beta, gamma) = world();
    assert_eq!(request_connection(&mut ctx, beta, text("hi")), Ok(()));
    let conn = ctx.db.connections[0].clone();
    assert_eq!(requesting_company_id(&ctx, &conn), Ok(alpha));
    // Ann founds another company, which moves her cursor.
    let delta = found(&mut ctx, 1, "Delta");
    assert_eq!(ctx.db.accounts[0].active_company_id, Some(delta));
    assert_eq!(requesting_company_id(&ctx, &conn), Ok(alpha));
    ctx.sender = person(2);
    assert_eq!(accept_connection(&mut ctx, alpha), Ok(()));

    // A requester who belongs to neither company any more.
    ctx.sender = person(3);
    assert_eq!(add_colleague_by_identity(&mut ctx, person(4)), Ok(()));
    assert_eq!(update_user_role(&mut ctx, person(4), UserRole::Admin), Ok(()));
    ctx.sender = person(4);
    assert_eq!(switch_active_company(&mut ctx, gamma), Ok(()));
    assert_eq!(request_connection(&mut ctx, beta, text("hi")), Ok(()));
    assert_eq!(leave_company(&mut ctx), Ok(()));
    let orphan = ctx.db.connections[1].clone();
    assert_eq!(requesting_company_id(&ctx, &orphan), Err(Error::InvalidState));
    ctx.sender = person(2);
    assert_eq!(accept_connection(&mut ctx, gamma), Err(Error::InvalidState));
    assert_eq!(decline_connection(&mut ctx, gamma), Err(Error::InvalidState));
    ctx.sender = person(3);
    assert_eq!(cancel_request(&mut ctx, beta), Err(Error::InvalidState));
    assert_eq!(ctx.db.connections.len(), 2);
}

#[test]
fn a_blocked_company_is_ghosted() {
    let (mut ctx, alpha, beta, _) = world();
    assert_eq!(block_company(&mut ctx, beta), Ok(()));
    assert_eq!(ctx.db.connections.len(), 1);
    let blocked = ctx.db.connections[0].clone();
    assert_eq!(blocked.status, ConnectionStatus::Blocked);
    assert_eq!(blocked.blocking_company_id, Some(alpha));
    assert_eq!(blocked.requested_by, person(1));
    assert_eq!(blocked.initial_message, "");
    assert!(ctx.db.notifications.is_empty());

    ctx.sender = person(2);
    for message in ["hi", "hello?", "please"] {
        assert_eq!(request_connection(&mut ctx, alpha, text(message)), Ok(()));
        assert_eq!(ctx.db.connections, vec![blocked.clone()]);
        assert!(ctx.db.notifications.is_empty());
    }
    // So is a request from the side that blocked.
    ctx.sender = person(1);
    assert_eq!(request_connection(&mut ctx, beta, text("hi")), Ok(()));
    assert_eq!(ctx.db.connections, vec![blocked.clone()]);
}

#[test]
fn the_first_blocker_wins() {
    let (mut ctx, alpha, beta, _) = world();
    assert_eq!(block_company(&mut ctx, beta), Ok(()));
    ctx.sender = person(2);
    assert_eq!(block_company(&mut ctx, alpha), Ok(()));
    assert_eq!(ctx.db.connections.len(), 1);
    assert_eq!(ctx.db.connections[0].blocking_company_id, Some(alpha));
    assert_eq!(ctx.db.connections[0].status, ConnectionStatus::Blocked);
    // Only Alpha can lift the block.
    assert_eq!(unblock_company(&mut ctx, alpha), Err(Error::NotAMember));
    assert_eq!(ctx.db.connections.len(), 1);
    ctx.sender = person(1);
    assert_eq!(unblock_company(&mut ctx, beta), Ok(()));
    assert!(ctx.db.connections.is_empty());
    assert_eq!(unblock_company(&mut ctx, beta), Err(Error::NotFound));
    // Now Beta can block, and is recorded.
    ctx.sender = person(2);
    assert_eq!(block_company(&mut ctx, alpha), Ok(()));
    assert_eq!(ctx.db.connections[0].blocking_company_id, Some(beta));
    assert_eq!(ctx.db.connections[0].company_a, alpha);
    assert_eq!(ctx.db.connections[0].company_b, beta);
}

#[test]
fn a_block_works_from_any_state() {
    let (mut ctx, alpha, beta, gamma) = world();
    assert_eq!(block_company(&mut ctx, alpha), Err(Error::Conflict));
    assert_eq!(block_company(&mut ctx, 99), Err(Error::NotFound));
    ctx.sender = person(4);
    assert_eq!(block_company(&mut ctx, beta), Err(Error::InsufficientRole));
    ctx.sender = person(1);
    assert_eq!(request_connection(&mut ctx, beta, text("hi")), Ok(()));
    assert_eq!(request_connection(&mut ctx, gamma, text("hi")), Ok(()));
    ctx.sender = person(3);
    assert_eq!(accept_connection(&mut ctx, alpha), Ok(()));
    // Pending, blocked by the side that was asked.
    ctx.sender = person(2);
    assert_eq!(block_company(&mut ctx, alpha), Ok(()));
    assert_eq!(ctx.db.connections[0].status, ConnectionStatus::Blocked);
    assert_eq!(ctx.db.connections[0].blocking_company_id, Some(beta));
    assert_eq!(ctx.db.connections[0].initial_message, "hi");
    assert_eq!(ctx.db.connections[0].requested_by, person(1));
    // Accepted, blocked by the side that asked.
    ctx.sender = person(1);
    assert_eq!(block_company(&mut ctx, gamma), Ok(()));
    assert_eq!(ctx.db.connections[1].status, ConnectionStatus::Blocked);
    assert_eq!(ctx.db.connections[1].blocking_company_id, Some(alpha));
    assert_eq!(ctx.db.connections.len(), 2);
    assert_eq!(unblock_company(&mut ctx, beta), Err(Error::NotAMember));
    assert_eq!(disconnect_company(&mut ctx, gamma), Err(Error::InvalidState));
}

#[test]
fn unblocking_needs_a_blocked_connection() {
    let (mut ctx, _, beta, _) = world();
    assert_eq!(request_connection(&mut ctx, beta, text("hi")), Ok(()));
    assert_eq!(unblock_company(&mut ctx, beta), Err(Error::InvalidState));
    ctx.sender = person(4);
    assert_eq!(unblock_company(&mut ctx, beta), Err(Error::InsufficientRole));
}

#[test]
fn either_side_disconnects_an_accepted_connection() {
    let (mut ctx, alpha, beta, _) = world();
    assert_eq!(disconnect_company(&mut ctx, beta), Err(Error::NotFound));
    assert_eq!(request_connection(&mut ctx, beta, text("hi")), Ok(()));
    assert_eq!(disconnect_company(&mut ctx, beta), Err(Error::InvalidState));
    ctx.sender = person(2);
    assert_eq!(accept_connection(&mut ctx, alpha), Ok(()));
    let id = ctx.db.connections[0].id;
    assert_eq!(send_connection_chat(&mut ctx, id, text("welcome")), Ok(()));
    ctx.sender = person(5);
    assert_eq!(disconnect_company(&mut ctx, alpha), Err(Error::InsufficientRole));
    ctx.sender = person(1);
    assert_eq!(disconnect_company(&mut ctx, beta), Ok(()));
    assert!(ctx.db.connections.is_empty());
    assert!(ctx.db.connection_chats.is_empty());
    // A new request gets a new id.
    assert_eq!(request_connection(&mut ctx, beta, text("again")), Ok(()));
    assert_eq!(ctx.db.connections[0].id, id + 1);
}

#[test]
fn chat_needs_field_role_a_side_and_no_block() {
    let (mut ctx, alpha, beta, gamma) = world();
    assert_eq!(request_connection(&mut ctx, beta, text("hi")), Ok(()));
    let id = ctx.db.connections[0].id;
    ctx.db.notifications.clear();

    ctx.sender = person(5);
    assert_eq!(send_connection_chat(&mut ctx, id, text("x")), Err(Error::InsufficientRole));
    ctx.sender = person(4);
    assert_eq!(send_connection_chat(&mut ctx, id, text("  ")), Err(Error::InvalidInput));
    assert_eq!(send_connection_chat(&mut ctx, id, "x".repeat(501)), Err(Error::InvalidInput));
    assert_eq!(send_connection_chat(&mut ctx, id + 7, text("x")), Err(Error::NotFound));
    ctx.sender = person(3);
    assert_eq!(send_connection_chat(&mut ctx, id, text("x")), Err(Error::NotAMember));
    assert!(ctx.db.connection_chats.is_empty());

    ctx.sender = person(4);
    let long = "0123456789".repeat(6);
    assert_eq!(send_connection_chat(&mut ctx, id, format!(" {} ", long)), Ok(()));
    let chat = &ctx.db.connection_chats[0];
    assert_eq!(chat.id, 1);
    assert_eq!(chat.connection_id, id);
    assert_eq!(chat.sender, person(4));
    assert_eq!(chat.text, long);
    assert_eq!(chat.created_at, Timestamp { micros: 3 });
    // Beta's owner is told; its Pending member is not.
    assert_eq!(ctx.db.notifications.len(), 1);
    let n = &ctx.db.notifications[0];
    assert_eq!(n.recipient_identity, person(2));
    assert_eq!(n.company_id, beta);
    assert_eq!(n.notification_type, NotificationType::ChatMessage);
    assert_eq!(n.title, "New message");
    assert_eq!(n.body, format!("Dee: {}...", &long[..50]));

    ctx.db.notifications.clear();
    ctx.sender = person(2);
    assert_eq!(send_connection_chat(&mut ctx, id, text("short")), Ok(()));
    let got: Vec<(Identity, u64, String)> = ctx
        .db
        .notifications
        .iter()
        .map(|n| (n.recipient_identity, n.company_id, n.body.clone()))
        .collect();
    assert_eq!(
        got,
        vec![(person(1), alpha, text("Bob: short")), (person(4), alpha, text("Bob: short"))]
    );

    assert_eq!(block_company(&mut ctx, alpha), Ok(()));
    assert_eq!(send_connection_chat(&mut ctx, id, text("x")), Err(Error::InvalidState));
    assert_eq!(ctx.db.connection_chats.len(), 2);
    let _ = gamma;
}

#[test]
fn the_chat_of_one_connection_is_deleted_alone() {
    let (mut ctx, alpha, beta, gamma) = world();
    assert_eq!(request_connection(&mut ctx, beta, text("hi")), Ok(()));
    assert_eq!(request_connection(&mut ctx, gamma, text("hi")), Ok(()));
    let first = ctx.db.connections[0].id;
    let second = ctx.db.connections[1].id;
    assert_eq!(send_connection_chat(&mut ctx, first, text("a")), Ok(()));
    assert_eq!(send_connection_chat(&mut ctx, second, text("b")), Ok(()));
    assert_eq!(send_connection_chat(&mut ctx, first, text("c")), Ok(()));
    delete_connection_chat(&mut ctx, first);
    assert_eq!(ctx.db.connection_chats.len(), 1);
    assert_eq!(ctx.db.connection_chats[0].text, "b");
    assert_eq!(ctx.db.connections.len(), 2);
    let _ = alpha;
}
