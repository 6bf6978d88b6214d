//! Presence, sign-up, founding a company, and joining one by invite code.

use vstd::prelude::*;
use vstd::string::*;
use crate::authority::require_role_at_least;
use crate::context::{CallContext, CtxView, applied};
use crate::model::DbView;
use crate::notify::{lemma_fan_out_frame, notify_company_role};
use crate::proofs::wellformed::{
    lemma_create_account_keeps_wf, lemma_create_company_keeps_wf, lemma_delete_invite_code_keeps_wf,
    lemma_generate_invite_code_keeps_wf, lemma_join_with_code_keeps_wf, lemma_presence_keeps_wf,
    lemma_update_profile_keeps_wf,
};
use crate::roles::{Error, NotificationType, UserRole};
use crate::rows::{InviteCode, InviteCodeView, UserAccount, UserAccountView};
use crate::text::{
    byte_len, code_of, filled_within, invite_code_text, join3, normalize_slug, slug_of,
    to_uppercase, trim, trimmed, uppercased, valid_email, validate_email,
    validate_invite_code_format, validate_length, validate_not_empty, well_formed_code,
};

verus! {

/// The longest full name, in bytes.
pub const MAX_FULL_NAME: usize = 50;

/// The longest nickname, in bytes.
pub const MAX_NICKNAME: usize = 25;

/// The longest email address, in bytes.
pub const MAX_EMAIL: usize = 100;

/// The longest company name, in bytes.
pub const MAX_COMPANY_NAME: usize = 50;

/// The longest slug, in bytes.
pub const MAX_SLUG: usize = 50;

/// The longest location, in bytes.
pub const MAX_LOCATION: usize = 100;

/// The longest invite code, in bytes.
pub const MAX_INVITE_CODE: usize = 25;

/// Whether the text is neither empty nor longer than `max_len` bytes.
pub fn is_filled_within(value: &str, max_len: usize) -> (ok: bool)
    ensures
        ok == filled_within(value@, max_len as int),
{
    validate_not_empty(value).is_ok() && validate_length(value, max_len).is_ok()
}

/// Sets the store up. There is nothing to set up.
pub fn init(ctx: &mut CallContext)
    ensures
        final(ctx)@ == old(ctx)@,
{
}

/// The caller is online: their presence row says so, or a new one does.
pub open spec fn client_connected_spec(c: CtxView) -> DbView {
    if c.db.online(c.sender) is Some {
        c.db.set_online(c.sender, true)
    } else {
        c.db.add_online(c.sender)
    }
}

/// Records that the caller's client has connected.
pub fn client_connected(ctx: &mut CallContext)
    ensures
        final(ctx)@ == old(ctx)@.with_db(client_connected_spec(old(ctx)@)),
        old(ctx)@.db.wf() ==> final(ctx)@.db.wf(),
{
    proof {
        if ctx@.db.wf() {
            lemma_presence_keeps_wf(ctx@);
        }
    }
    let sender = ctx.sender;
    if ctx.db.online_index(sender).is_some() {
        ctx.db.set_online(sender, true);
    } else {
        ctx.db.add_online(sender);
    }
}

/// Records that the caller's client has disconnected: the caller's presence
/// row, if there is one, says offline.
pub fn client_disconnected(ctx: &mut CallContext)
    ensures
        final(ctx)@ == old(ctx)@.with_db(old(ctx)@.db.set_online(old(ctx).sender, false)),
        old(ctx)@.db.wf() ==> final(ctx)@.db.wf(),
{
    proof {
        if ctx@.db.wf() {
            lemma_presence_keeps_wf(ctx@);
        }
    }
    let sender = ctx.sender;
    ctx.db.set_online(sender, false);
}

/// A new user signs up.
///
/// Fails with `InvalidInput` where, once trimmed, the full name, the
/// nickname or the email is empty, the full name is longer than 50 bytes,
/// the nickname longer than 25, the email longer than 100 or not of the
/// shape of an address; with `Conflict` where the caller has an account.
/// Otherwise the account is inserted, with no active company.
pub open spec fn create_account_spec(
    c: CtxView,
    full_name: Seq<char>,
    nickname: Seq<char>,
    email: Seq<char>,
) -> Result<
    DbView,
    Error,
> {
    let full_name = trimmed(full_name);
    let nickname = trimmed(nickname);
    let email = trimmed(email);
    if !(filled_within(full_name, MAX_FULL_NAME as int) && filled_within(nickname, MAX_NICKNAME as int)
        && filled_within(email, MAX_EMAIL as int) && valid_email(email)) {
        Err(Error::InvalidInput)
    } else if c.db.account(c.sender) is Some {
        Err(Error::Conflict)
    } else {
        Ok(
            c.db.add_account(
                UserAccountView {
                    identity: c.sender,
                    full_name,
                    nickname,
                    email,
                    active_company_id: None,
                    created_at: c.timestamp,
                },
            ),
        )
    }
}

/// Registers a new user account for the calling identity.
pub fn create_account(ctx: &mut CallContext, full_name: String, nickname: String, email: String) -> (r: Result<
    (),
    Error,
>)
    ensures
        applied(old(ctx)@, final(ctx)@, r, create_account_spec(old(ctx)@, full_name@, nickname@, email@)),
        old(ctx)@.db.wf() ==> final(ctx)@.db.wf(),
{
    proof {
        if ctx@.db.wf() {
            lemma_create_account_keeps_wf(ctx@, full_name@, nickname@, email@);
        }
    }
    let full_name = trim(full_name.as_str());
    let nickname = trim(nickname.as_str());
    let email = trim(email.as_str());
    if !is_filled_within(full_name.as_str(), MAX_FULL_NAME) {
        return Err(Error::InvalidInput);
    }
    if !is_filled_within(nickname.as_str(), MAX_NICKNAME) {
        return Err(Error::InvalidInput);
    }
    if !is_filled_within(email.as_str(), MAX_EMAIL) {
        return Err(Error::InvalidInput);
    }
    if validate_email(email.as_str()).is_err() {
        return Err(Error::InvalidInput);
    }
    if ctx.db.account_index(ctx.sender).is_some() {
        return Err(Error::Conflict);
    }
    let account = UserAccount {
        identity: ctx.sender,
        full_name,
        nickname,
        email,
        active_company_id: None,
        created_at: ctx.timestamp,
    };
    ctx.db.add_account(account);
    Ok(())
}

/// A user changes their nickname and email.
///
/// Fails with `Unauthenticated` where the caller has no account; with
/// `InvalidInput` where, once trimmed, the nickname or the email is empty,
/// the nickname is longer than 25 bytes, the email longer than 100 or not
/// of the shape of an address. Otherwise the account holds the new nickname
/// and email.
pub open spec fn update_profile_spec(
    c: CtxView,
    nickname: Seq<char>,
    email: Seq<char>,
) -> Result<DbView, Error> {
    let nickname = trimmed(nickname);
    let email = trimmed(email);
    if c.db.account(c.sender) is None {
        Err(Error::Unauthenticated)
    } else if !(filled_within(nickname, MAX_NICKNAME as int) && filled_within(email, MAX_EMAIL as int)
        && valid_email(email)) {
        Err(Error::InvalidInput)
    } else {
        Ok(c.db.set_profile(c.sender, nickname, email))
    }
}

/// Updates the caller's own profile.
pub fn update_profile(ctx: &mut CallContext, nickname: String, email: String) -> (r: Result<(), Error>)
    ensures
        applied(old(ctx)@, final(ctx)@, r, update_profile_spec(old(ctx)@, nickname@, email@)),
        old(ctx)@.db.wf() ==> final(ctx)@.db.wf(),
{
    proof {
        if ctx@.db.wf() {
            lemma_update_profile_keeps_wf(ctx@, nickname@, email@);
        }
    }
    if ctx.db.account_index(ctx.sender).is_none() {
        return Err(Error::Unauthenticated);
    }
    let nickname = trim(nickname.as_str());
    let email = trim(email.as_str());
    if !is_filled_within(nickname.as_str(), MAX_NICKNAME) {
        return Err(Error::InvalidInput);
    }
    if !is_filled_within(email.as_str(), MAX_EMAIL) {
        return Err(Error::InvalidInput);
    }
    if validate_email(email.as_str()).is_err() {
        return Err(Error::InvalidInput);
    }
    let sender = ctx.sender;
    ctx.db.set_profile(sender, &nickname, &email);
    Ok(())
}

/// A user founds a company.
///
/// Fails with `Unauthenticated` where the caller has no account; with
/// `InvalidInput` where the trimmed name, the slug or the trimmed location
/// is empty, the name or the slug longer than 50 bytes, or the location
/// longer than 100; with `Conflict` where a company has the slug. Otherwise
/// the company is inserted with its capability row, the caller becomes its
/// Owner, and it becomes the caller's active company.
pub open spec fn create_company_spec(
    c: CtxView,
    name: Seq<char>,
    slug: Seq<char>,
    location: Seq<char>,
) -> Result<
    DbView,
    Error,
> {
    let name = trimmed(name);
    let slug = slug_of(slug);
    let location = trimmed(location);
    if c.db.account(c.sender) is None {
        Err(Error::Unauthenticated)
    } else if !(filled_within(name, MAX_COMPANY_NAME as int) && filled_within(slug, MAX_SLUG as int)
        && filled_within(location, MAX_LOCATION as int)) {
        Err(Error::InvalidInput)
    } else if c.db.company_by_slug(slug) is Some {
        Err(Error::Conflict)
    } else {
        Ok(
            c.db.add_company(c.sender, name, slug, location).add_capability(c.db.next_company_id).add_member(
                c.sender,
                c.db.next_company_id,
                UserRole::Owner,
                c.timestamp,
            ).set_active(c.sender, Some(c.db.next_company_id)),
        )
    }
}

/// Creates a company and links the caller as its owner.
pub fn create_company(ctx: &mut CallContext, name: String, slug: String, location: String) -> (r: Result<(), Error>)
    requires
        old(ctx)@.db.next_company_id < u64::MAX,
        old(ctx)@.db.next_member_id < u64::MAX,
    ensures
        applied(old(ctx)@, final(ctx)@, r, create_company_spec(old(ctx)@, name@, slug@, location@)),
        old(ctx)@.db.wf() ==> final(ctx)@.db.wf(),
{
    proof {
        if ctx@.db.wf() {
            lemma_create_company_keeps_wf(ctx@, name@, slug@, location@);
        }
    }
    if ctx.db.account_index(ctx.sender).is_none() {
        return Err(Error::Unauthenticated);
    }
    let name = trim(name.as_str());
    let slug = normalize_slug(slug.as_str());
    let location = trim(location.as_str());
    if !is_filled_within(name.as_str(), MAX_COMPANY_NAME) {
        return Err(Error::InvalidInput);
    }
    if !is_filled_within(slug.as_str(), MAX_SLUG) {
        return Err(Error::InvalidInput);
    }
    if !is_filled_within(location.as_str(), MAX_LOCATION) {
        return Err(Error::InvalidInput);
    }
    if ctx.db.company_index_by_slug(&slug).is_some() {
        return Err(Error::Conflict);
    }
    let sender = ctx.sender;
    let now = ctx.timestamp;
    let company_id = ctx.db.next_company_id;
    ctx.db.add_company(sender, name, slug, location);
    ctx.db.add_capability(company_id);
    ctx.db.add_member(sender, company_id, UserRole::Owner, now);
    ctx.db.set_active(sender, Some(company_id));
    Ok(())
}

/// How often a new code can be used: as often as asked, and once where
/// zero was asked.
pub open spec fn uses_granted(max_uses: u32) -> u32 {
    if max_uses == 0 {
        1
    } else {
        max_uses
    }
}

/// An Admin issues an invite code, built from sixteen random draws.
///
/// Fails as `resolve` does for the role Admin; with `Conflict` where the
/// code that the draws give exists already. Otherwise the code is inserted
/// for the caller's company, with the uses granted.
pub open spec fn generate_invite_code_spec(
    c: CtxView,
    max_uses: u32,
    draws: Seq<u64>,
) -> Result<DbView, Error> {
    match c.db.resolve(c.sender, UserRole::Admin) {
        Err(e) => Err(e),
        Ok((_, me)) => if c.db.invite(code_of(draws)) is Some {
            Err(Error::Conflict)
        } else {
            Ok(
                c.db.add_invite(
                    InviteCodeView {
                        code: code_of(draws),
                        company_id: me.company_id,
                        created_by: c.sender,
                        uses_remaining: uses_granted(max_uses),
                    },
                ),
            )
        },
    }
}

/// Generates an invite code for the caller's company from sixteen draws of
/// a random number generator.
pub fn generate_invite_code(ctx: &mut CallContext, max_uses: u32, draws: &[u64; 16]) -> (r: Result<(), Error>)
    ensures
        applied(old(ctx)@, final(ctx)@, r, generate_invite_code_spec(old(ctx)@, max_uses, draws@)),
        old(ctx)@.db.wf() ==> final(ctx)@.db.wf(),
{
    proof {
        if ctx@.db.wf() {
            lemma_generate_invite_code_keeps_wf(ctx@, max_uses, draws@);
        }
    }
    let (_caller, me) = match require_role_at_least(ctx, UserRole::Admin) {
        Ok(found) => found,
        Err(e) => {
            return Err(e);
        },
    };
    let code = invite_code_text(draws);
    if ctx.db.invite_index(&code).is_some() {
        return Err(Error::Conflict);
    }
    let invite = InviteCode {
        code,
        company_id: me.company_id,
        created_by: ctx.sender,
        uses_remaining: if max_uses == 0 {
            1
        } else {
            max_uses
        },
    };
    ctx.db.add_invite(invite);
    Ok(())
}

/// The store once a use of the code is spent: the code is deleted with its
/// last use, and holds one use less otherwise.
pub open spec fn consumed(db: DbView, invite: InviteCodeView) -> DbView {
    if invite.uses_remaining <= 1 {
        db.drop_invite(invite.code)
    } else {
        db.set_invite_uses(invite.code, (invite.uses_remaining - 1) as u32)
    }
}

/// A user joins a company by a code as it is stored.
///
/// Fails with `Unauthenticated` where the caller has no account; with
/// `InvalidInput` where the code is longer than 25 bytes or not of the
/// shape of a code; with `NotFound` where no such code exists; with
/// `Conflict` where the caller is a member of the code's company; with
/// `InvalidState` where the code has no use left; with `Conflict` where the
/// caller has used this code before. Otherwise the use is recorded, the
/// caller becomes a Pending member, the company becomes the caller's active
/// company if they had none, a use of the code is spent, and the company's
/// Admins other than the caller are notified.
pub open spec fn join_with_code_spec(c: CtxView, code: Seq<char>) -> Result<DbView, Error> {
    match c.db.account(c.sender) {
        None => Err(Error::Unauthenticated),
        Some(account) => if byte_len(code) > MAX_INVITE_CODE || !well_formed_code(code) {
            Err(Error::InvalidInput)
        } else {
            match c.db.invite(code) {
                None => Err(Error::NotFound),
                Some(invite) => if c.db.membership(c.sender, invite.company_id) is Some {
                    Err(Error::Conflict)
                } else if invite.uses_remaining == 0 {
                    Err(Error::InvalidState)
                } else if c.db.code_used(c.sender, code) {
                    Err(Error::Conflict)
                } else {
                    let joined = c.db.add_used_invite(c.sender, code, invite.company_id).add_member(
                        c.sender,
                        invite.company_id,
                        UserRole::Pending,
                        c.timestamp,
                    );
                    let settled = if account.active_company_id is None {
                        joined.set_active(c.sender, Some(invite.company_id))
                    } else {
                        joined
                    };
                    Ok(
                        consumed(settled, invite).notify_company_role(
                            invite.company_id,
                            UserRole::Admin,
                            Some(c.sender),
                            NotificationType::MemberJoined,
                            "New member joined"@,
                            account.nickname + " joined "@ + c.db.company_name(invite.company_id),
                            c.timestamp,
                        ),
                    )
                },
            }
        },
    }
}

/// A user joins a company by invite code: the code is trimmed and put in
/// upper case, and then used as `join_with_code_spec` says.
pub open spec fn join_company_spec(c: CtxView, code: Seq<char>) -> Result<DbView, Error> {
    join_with_code_spec(c, uppercased(trimmed(code)))
}

/// Joins a company using an invite code in its stored form.
pub fn join_with_code(ctx: &mut CallContext, code: String) -> (r: Result<(), Error>)
    requires
        old(ctx)@.db.next_used_invite_id < u64::MAX,
        old(ctx)@.db.next_member_id < u64::MAX,
        old(ctx)@.db.next_notification_id + old(ctx)@.db.members.len() + 1 <= u64::MAX,
    ensures
        applied(old(ctx)@, final(ctx)@, r, join_with_code_spec(old(ctx)@, code@)),
        old(ctx)@.db.wf() ==> final(ctx)@.db.wf(),
{
    proof {
        if ctx@.db.wf() {
            lemma_join_with_code_keeps_wf(ctx@, code@);
        }
    }
    let sender = ctx.sender;
    let now = ctx.timestamp;
    let account = match ctx.db.account_index(sender) {
        Some(i) => ctx.db.accounts[i].duplicate(),
        None => {
            return Err(Error::Unauthenticated);
        },
    };
    if validate_length(code.as_str(), MAX_INVITE_CODE).is_err() {
        return Err(Error::InvalidInput);
    }
    if validate_invite_code_format(code.as_str()).is_err() {
        return Err(Error::InvalidInput);
    }
    let (company_id, uses_remaining) = match ctx.db.invite_index(&code) {
        Some(i) => (ctx.db.invite_codes[i].company_id, ctx.db.invite_codes[i].uses_remaining),
        None => {
            return Err(Error::NotFound);
        },
    };
    if ctx.db.membership(sender, company_id).is_some() {
        return Err(Error::Conflict);
    }
    if uses_remaining == 0 {
        return Err(Error::InvalidState);
    }
    if ctx.db.code_used(sender, &code) {
        return Err(Error::Conflict);
    }
    let company_name = ctx.db.company_name(company_id);
    let body = join3(account.nickname.as_str(), " joined ", company_name.as_str());
    ctx.db.add_used_invite(sender, code.clone(), company_id);
    ctx.db.add_member(sender, company_id, UserRole::Pending, now);
    if account.active_company_id.is_none() {
        ctx.db.set_active(sender, Some(company_id));
    }
    if uses_remaining <= 1 {
        ctx.db.drop_invite(&code);
    } else {
        ctx.db.set_invite_uses(&code, uses_remaining - 1);
    }
    proof {
        lemma_fan_out_frame(
            ctx@.db,
            company_id,
            UserRole::Admin,
            Some(sender),
            NotificationType::MemberJoined,
            "New member joined"@,
            body@,
            now,
        );
    }
    notify_company_role(
        ctx,
        company_id,
        UserRole::Admin,
        Some(sender),
        NotificationType::MemberJoined,
        String::from_str("New member joined"),
        body,
    );
    Ok(())
}

/// Joins a company using an invite code. A user can join several
/// companies; each membership has its own role.
pub fn join_company(ctx: &mut CallContext, code: String) -> (r: Result<(), Error>)
    requires
        old(ctx)@.db.next_used_invite_id < u64::MAX,
        old(ctx)@.db.next_member_id < u64::MAX,
        old(ctx)@.db.next_notification_id + old(ctx)@.db.members.len() + 1 <= u64::MAX,
    ensures
        applied(old(ctx)@, final(ctx)@, r, join_company_spec(old(ctx)@, code@)),
        old(ctx)@.db.wf() ==> final(ctx)@.db.wf(),
{
    let trimmed_code = trim(code.as_str());
    let code = to_uppercase(trimmed_code.as_str());
    join_with_code(ctx, code)
}

/// An Admin withdraws an invite code of their company.
///
/// Fails as `resolve` does for the role Admin; with `NotFound` where no
/// such code exists, or it belongs to another company. Otherwise the code
/// is deleted.
pub open spec fn delete_invite_code_spec(c: CtxView, code: Seq<char>) -> Result<DbView, Error> {
    match c.db.resolve(c.sender, UserRole::Admin) {
        Err(e) => Err(e),
        Ok((_, me)) => match c.db.invite(code) {
            None => Err(Error::NotFound),
            Some(invite) => if invite.company_id != me.company_id {
                Err(Error::NotFound)
            } else {
                Ok(c.db.drop_invite(code))
            },
        },
    }
}

/// Deletes an invite code.
pub fn delete_invite_code(ctx: &mut CallContext, code: String) -> (r: Result<(), Error>)
    ensures
        applied(old(ctx)@, final(ctx)@, r, delete_invite_code_spec(old(ctx)@, code@)),
        old(ctx)@.db.wf() ==> final(ctx)@.db.wf(),
{
    proof {
        if ctx@.db.wf() {
            lemma_delete_invite_code_keeps_wf(ctx@, code@);
        }
    }
    let (_caller, me) = match require_role_at_least(ctx, UserRole::Admin) {
        Ok(found) => found,
        Err(e) => {
            return Err(e);
        },
    };
    let i = match ctx.db.invite_index(&code) {
        Some(i) => i,
        None => {
            return Err(Error::NotFound);
        },
    };
    if ctx.db.invite_codes[i].company_id != me.company_id {
        return Err(Error::NotFound);
    }
    ctx.db.drop_invite(&code);
    Ok(())
}

} // verus!
