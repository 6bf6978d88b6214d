//! Notification fan-out: one row per recipient, within the procedure that
//! caused it.

use vstd::prelude::*;
use crate::context::CallContext;
use crate::model::{DbView, recipient_in};
use crate::roles::{Identity, NotificationType, UserRole};
use crate::seqs::lemma_filter_members;

verus! {

/// A fan-out to one company adds one notification per recipient, at most
/// one per member, and changes nothing else.
pub proof fn lemma_fan_out_frame(
    db: DbView,
    company_id: u64,
    min_role: UserRole,
    exclude: Option<Identity>,
    kind: NotificationType,
    title: Seq<char>,
    body: Seq<char>,
    now: crate::roles::Timestamp,
)
    ensures
        db.recipients(company_id, min_role, exclude).len() <= db.members.len(),
        ({
            let after = db.notify_company_role(company_id, min_role, exclude, kind, title, body, now);
            after == (DbView {
                notifications: after.notifications,
                next_notification_id: after.next_notification_id,
                ..db
            })
        }),
        db.next_notification_id + db.members.len() <= u64::MAX ==> db.notify_company_role(
            company_id,
            min_role,
            exclude,
            kind,
            title,
            body,
            now,
        ).next_notification_id <= db.next_notification_id + db.members.len(),
{
    lemma_filter_members(db.members, recipient_in(company_id, min_role, exclude));
}

/// Inserts a notification for a single recipient.
pub fn notify(
    ctx: &mut CallContext,
    recipient: Identity,
    company_id: u64,
    notification_type: NotificationType,
    title: String,
    body: String,
)
    requires
        old(ctx).db.next_notification_id < u64::MAX,
    ensures
        final(ctx)@ == old(ctx)@.with_db(
            old(ctx)@.db.notify(recipient, company_id, notification_type, title@, body@, old(ctx).timestamp),
        ),
        old(ctx)@.db.wf() ==> final(ctx)@.db.wf(),
{
    let now = ctx.timestamp;
    ctx.db.notify(recipient, company_id, notification_type, title, body, now);
}

/// Inserts a notification for every member of a company who holds at least
/// `min_role`, but for `exclude` (as a rule the one who acted).
pub fn notify_company_role(
    ctx: &mut CallContext,
    company_id: u64,
    min_role: UserRole,
    exclude: Option<Identity>,
    notification_type: NotificationType,
    title: String,
    body: String,
)
    requires
        old(ctx)@.db.next_notification_id + old(ctx)@.db.recipients(company_id, min_role, exclude).len()
            <= u64::MAX,
    ensures
        final(ctx)@ == old(ctx)@.with_db(
            old(ctx)@.db.notify_company_role(
                company_id,
                min_role,
                exclude,
                notification_type,
                title@,
                body@,
                old(ctx).timestamp,
            ),
        ),
        old(ctx)@.db.wf() ==> final(ctx)@.db.wf(),
{
    let recipients = ctx.db.recipients(company_id, min_role, exclude);
    let now = ctx.timestamp;
    ctx.db.notify_all(&recipients, company_id, notification_type, &title, &body, now);
}

/// The fan-out to each of `companies` in turn, to the members who hold at
/// least `min_role`.
pub fn notify_companies(
    ctx: &mut CallContext,
    companies: &Vec<u64>,
    min_role: UserRole,
    notification_type: NotificationType,
    title: &String,
    body: &String,
)
    requires
        old(ctx)@.db.next_notification_id + companies@.len() * old(ctx)@.db.members.len() <= u64::MAX,
    ensures
        final(ctx)@ == old(ctx)@.with_db(
            old(ctx)@.db.notify_companies(
                companies@,
                min_role,
                notification_type,
                title@,
                body@,
                old(ctx).timestamp,
            ),
        ),
        final(ctx)@.db.next_notification_id <= old(ctx)@.db.next_notification_id + companies@.len() * old(
            ctx,
        )@.db.members.len(),
        old(ctx)@.db.wf() ==> final(ctx)@.db.wf(),
{
    proof {
        crate::proofs::people::lemma_notify_companies_core(
            ctx@.db,
            companies@,
            min_role,
            notification_type,
            title@,
            body@,
            ctx.timestamp,
        );
        if ctx@.db.wf() {
            crate::proofs::records::lemma_notify_companies_keeps_records(
                ctx@.db,
                companies@,
                min_role,
                notification_type,
                title@,
                body@,
                ctx.timestamp,
            );
        }
    }
    let ghost start = ctx@.db;
    let ghost now = ctx.timestamp;
    let ghost per = start.members.len() as int;
    let n: usize = companies.len();
    let mut i: usize = 0;
    while i < n
        invariant
            i <= n,
            n == companies@.len(),
            per == start.members.len(),
            start.next_notification_id + n * per <= u64::MAX,
            ctx.sender == old(ctx).sender,
            ctx.timestamp == now,
            now == old(ctx).timestamp,
            ctx@.db.members == start.members,
            ctx@.db.next_notification_id <= start.next_notification_id + i * per,
            ctx@.db == start.notify_companies(companies@.take(i as int), min_role, notification_type, title@, body@, now),
        decreases n - i,
    {
        proof {
            lemma_fan_out_frame(ctx@.db, companies@[i as int], min_role, None, notification_type, title@, body@, now);
            assert(i * per + per <= n * per) by (nonlinear_arith)
                requires
                    i < n,
                    per >= 0,
            ;
            assert((i + 1) * per == i * per + per) by (nonlinear_arith);
            assert(companies@.take(i + 1).drop_last() =~= companies@.take(i as int));
        }
        notify_company_role(ctx, companies[i], min_role, None, notification_type, title.clone(), body.clone());
        i += 1;
    }
    proof {
        assert(companies@.take(n as int) =~= companies@);
    }
}

} // verus!
