//! A user's notifications: marking them read and clearing them.

use vstd::prelude::*;
use crate::context::{CallContext, CtxView, applied};
use crate::model::DbView;
use crate::proofs::wellformed::{
    lemma_clear_notifications_keeps_wf, lemma_mark_all_notifications_read_keeps_wf,
    lemma_mark_notification_read_keeps_wf,
};
use crate::roles::Error;

verus! {

/// A user marks one of their notifications as read.
///
/// Fails with `NotFound` where the notification does not exist or is not
/// the caller's. Otherwise it is read.
pub open spec fn mark_notification_read_spec(c: CtxView, notification_id: u64) -> Result<DbView, Error> {
    match c.db.notification(notification_id) {
        None => Err(Error::NotFound),
        Some(n) => if n.recipient_identity != c.sender {
            Err(Error::NotFound)
        } else {
            Ok(c.db.mark_read(notification_id))
        },
    }
}

/// Marks a single notification as read.
pub fn mark_notification_read(ctx: &mut CallContext, notification_id: u64) -> (r: Result<(), Error>)
    ensures
        applied(old(ctx)@, final(ctx)@, r, mark_notification_read_spec(old(ctx)@, notification_id)),
        old(ctx)@.db.wf() ==> final(ctx)@.db.wf(),
{
    proof {
        if ctx@.db.wf() {
            lemma_mark_notification_read_keeps_wf(ctx@, notification_id);
        }
    }
    let i = match ctx.db.notification_index(notification_id) {
        Some(i) => i,
        None => {
            return Err(Error::NotFound);
        },
    };
    if ctx.db.notifications[i].recipient_identity != ctx.sender {
        return Err(Error::NotFound);
    }
    ctx.db.mark_read(notification_id);
    Ok(())
}

/// A user marks as read all their notifications in the context of a
/// company.
///
/// Fails with `Unauthenticated` where the caller has no account.
pub open spec fn mark_all_notifications_read_spec(c: CtxView, company_id: u64) -> Result<DbView, Error> {
    if c.db.account(c.sender) is None {
        Err(Error::Unauthenticated)
    } else {
        Ok(c.db.mark_all_read(c.sender, company_id))
    }
}

/// Marks all unread notifications of the caller within a company as read.
pub fn mark_all_notifications_read(ctx: &mut CallContext, company_id: u64) -> (r: Result<(), Error>)
    ensures
        applied(old(ctx)@, final(ctx)@, r, mark_all_notifications_read_spec(old(ctx)@, company_id)),
        old(ctx)@.db.wf() ==> final(ctx)@.db.wf(),
{
    proof {
        if ctx@.db.wf() {
            lemma_mark_all_notifications_read_keeps_wf(ctx@, company_id);
        }
    }
    let sender = ctx.sender;
    if ctx.db.account_index(sender).is_none() {
        return Err(Error::Unauthenticated);
    }
    ctx.db.mark_all_read(sender, company_id);
    Ok(())
}

/// A user deletes their read notifications in the context of a company.
///
/// Fails with `Unauthenticated` where the caller has no account.
pub open spec fn clear_notifications_spec(c: CtxView, company_id: u64) -> Result<DbView, Error> {
    if c.db.account(c.sender) is None {
        Err(Error::Unauthenticated)
    } else {
        Ok(c.db.clear_read(c.sender, company_id))
    }
}

/// Deletes all read notifications of the caller within a company.
pub fn clear_notifications(ctx: &mut CallContext, company_id: u64) -> (r: Result<(), Error>)
    ensures
        applied(old(ctx)@, final(ctx)@, r, clear_notifications_spec(old(ctx)@, company_id)),
        old(ctx)@.db.wf() ==> final(ctx)@.db.wf(),
{
    proof {
        if ctx@.db.wf() {
            lemma_clear_notifications_keeps_wf(ctx@, company_id);
        }
    }
    let sender = ctx.sender;
    if ctx.db.account_index(sender).is_none() {
        return Err(Error::Unauthenticated);
    }
    ctx.db.clear_read(sender, company_id);
    Ok(())
}

} // verus!
