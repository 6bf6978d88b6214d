use directory_core::accounts::{create_account, create_company, generate_invite_code, join_company};
use directory_core::authority::{find_membership, reassign_active_company, require_role_at_least};
use directory_core::context::CallContext;
use directory_core::roles::{role_level, Error, Identity, Timestamp, UserRole};
use directory_core::team::{leave_company, update_user_role};

fn person(n: u64) -> Identity {
    Identity::from_u64(n)
}

fn start() -> CallContext {
    CallContext::new(person(1), Timestamp { micros: 5 })
}

fn sign_up(ctx: &mut CallContext, who: u64, name: &str) {
    ctx.sender = person(who);
    let email = format!("{}@example.com", name.to_lowercase());
    assert_eq!(create_account(ctx, name.to_string(), name.to_string(), email), Ok(()));
}

fn found(ctx: &mut CallContext, who: u64, company: &str) -> u64 {
    ctx.sender = person(who);
    assert_eq!(
        create_company(ctx, company.to_string(), company.to_string(), "Utrecht".to_string()),
        Ok(())
    );
    ctx.db.companies.last().unwrap().id
}

fn enrol(ctx: &mut CallContext, owner: u64, who: u64, seed: u64, role: UserRole) {
    ctx.sender = person(owner);
    assert_eq!(generate_invite_code(ctx, 1, &[seed; 16]), Ok(()));
    let code = ctx.db.invite_codes.last().unwrap().code.clone();
    ctx.sender = person(who);
    assert_eq!(join_company(ctx, code), Ok(()));
    if role != UserRole::Pending {
        ctx.sender = person(owner);
        assert_eq!(update_user_role(ctx, person(who), role), Ok(()));
    }
}

#[test]
fn a_caller_without_account_is_unauthenticated() {
    let ctx = start();
    assert_eq!(require_role_at_least(&ctx, UserRole::Pending).err(), Some(Error::Unauthenticated));
}

#[test]
fn a_caller_without_company_has_no_active_company() {
    let mut ctx = start();
    sign_up(&mut ctx, 1, "Ann");
    assert_eq!(require_role_at_least(&ctx, UserRole::Pending).err(), Some(Error::NoActiveCompany));
}

#[test]
fn a_stale_cursor_counts_as_no_active_company() {
    let mut ctx = start();
    sign_up(&mut ctx, 1, "Ann");
    ctx.db.accounts[0].active_company_id = Some(99);
    assert_eq!(require_role_at_least(&ctx, UserRole::Pending).err(), Some(Error::NoActiveCompany));
}

#[test]
fn a_caller_outside_the_company_is_not_a_member() {
    let mut ctx = start();
    sign_up(&mut ctx, 1, "Ann");
    sign_up(&mut ctx, 2, "Bob");
    let acme = found(&mut ctx, 1, "Acme");
    ctx.db.accounts[1].active_company_id = Some(acme);
    ctx.sender = person(2);
    assert_eq!(require_role_at_least(&ctx, UserRole::Pending).err(), Some(Error::NotAMember));
}

#[test]
fn the_role_check_passes_exactly_from_the_required_level_up() {
    let roles = [
        UserRole::Pending,
        UserRole::Field,
        UserRole::Installer,
        UserRole::Member,
        UserRole::Admin,
        UserRole::Owner,
    ];
    for held in roles {
        let mut ctx = start();
        sign_up(&mut ctx, 1, "Ann");
        sign_up(&mut ctx, 2, "Bob");
        let acme = found(&mut ctx, 1, "Acme");
        let who = if held == UserRole::Owner {
            1
        } else {
            enrol(&mut ctx, 1, 2, 3, held);
            2
        };
        ctx.sender = person(who);
        for required in roles {
            let outcome = require_role_at_least(&ctx, required);
            if role_level(held) >= role_level(required) {
                let (account, membership) = outcome.unwrap();
                assert_eq!(account.identity, person(who));
                assert_eq!(account.active_company_id, Some(acme));
                assert_eq!(membership.identity, person(who));
                assert_eq!(membership.company_id, acme);
                assert_eq!(membership.role, held);
            } else {
                assert_eq!(outcome.err(), Some(Error::InsufficientRole));
            }
        }
    }
}

#[test]
fn memberships_are_found_by_user_and_company() {
    let mut ctx = start();
    sign_up(&mut ctx, 1, "Ann");
    sign_up(&mut ctx, 2, "Bob");
    let acme = found(&mut ctx, 1, "Acme");
    let beta = found(&mut ctx, 2, "Beta");
    assert_eq!(find_membership(&ctx, person(1), acme).map(|m| m.role), Some(UserRole::Owner));
    assert_eq!(find_membership(&ctx, person(2), beta).map(|m| m.role), Some(UserRole::Owner));
    assert_eq!(find_membership(&ctx, person(1), beta), None);
    assert_eq!(find_membership(&ctx, person(3), acme), None);
}

#[test]
fn a_user_holds_independent_roles_in_several_companies() {
    let mut ctx = start();
    sign_up(&mut ctx, 1, "Ann");
    sign_up(&mut ctx, 2, "Bob");
    let acme = found(&mut ctx, 1, "Acme");
    let beta = found(&mut ctx, 2, "Beta");
    enrol(&mut ctx, 1, 2, 4, UserRole::Field);
    assert_eq!(find_membership(&ctx, person(2), acme).map(|m| m.role), Some(UserRole::Field));
    assert_eq!(find_membership(&ctx, person(2), beta).map(|m| m.role), Some(UserRole::Owner));
    // Bob still acts for Beta, where he is the owner.
    ctx.sender = person(2);
    assert_eq!(require_role_at_least(&ctx, UserRole::Owner).map(|(_, m)| m.company_id), Ok(beta));
}

#[test]
fn leaving_moves_the_cursor_to_the_next_company() {
    let mut ctx = start();
    sign_up(&mut ctx, 1, "Ann");
    sign_up(&mut ctx, 2, "Bob");
    let acme = found(&mut ctx, 1, "Acme");
    let beta = found(&mut ctx, 2, "Beta");
    enrol(&mut ctx, 1, 2, 4, UserRole::Member);
    ctx.db.accounts[1].active_company_id = Some(acme);
    ctx.sender = person(2);
    assert_eq!(leave_company(&mut ctx), Ok(()));
    assert_eq!(ctx.db.accounts[1].active_company_id, Some(beta));
    assert_eq!(find_membership(&ctx, person(2), acme), None);
}

#[test]
fn reassigning_touches_only_a_cursor_on_the_removed_company() {
    let mut ctx = start();
    sign_up(&mut ctx, 1, "Ann");
    let acme = found(&mut ctx, 1, "Acme");
    // The cursor is on Acme, and Ann is still a member: it moves to her
    // first membership, which is Acme.
    reassign_active_company(&mut ctx, person(1), acme);
    assert_eq!(ctx.db.accounts[0].active_company_id, Some(acme));
    // Another company was removed: nothing changes.
    reassign_active_company(&mut ctx, person(1), acme + 1);
    assert_eq!(ctx.db.accounts[0].active_company_id, Some(acme));
    // Without a membership the cursor is cleared.
    ctx.db.members.clear();
    reassign_active_company(&mut ctx, person(1), acme);
    assert_eq!(ctx.db.accounts[0].active_company_id, None);
    // An unknown user is left alone.
    reassign_active_company(&mut ctx, person(9), acme);
    assert_eq!(ctx.db.accounts.len(), 1);
}
