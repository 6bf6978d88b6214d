//! In-place updates of the rows of one table. Each changes a field in the
//! rows that match and leaves the other rows, and the order, as they were.

use vstd::prelude::*;
use crate::roles::{
    ConnectionStatus, Identity, NotificationType, ProjectMemberStatus, Timestamp, UserRole,
};
use crate::rows::{
    Capability, Company, CompanyMember, CompanyView, Connection, ConnectionView, InviteCode,
    InviteCodeView, Notification, NotificationView, OnlineUser, ProjectMember, UserAccount,
    UserAccountView, same_text, views,
};

verus! {

pub fn set_online_rows(rows: &mut Vec<OnlineUser>, who: Identity, online: bool)
    ensures
        final(rows)@.len() == old(rows)@.len(),
        forall|j: int|
            0 <= j < old(rows)@.len() ==> #[trigger] final(rows)@[j] == if old(rows)@[j].identity == who {
                OnlineUser { online, ..old(rows)@[j] }
            } else {
                old(rows)@[j]
            },
{
    let n: usize = rows.len();
    let mut i: usize = 0;
    while i < n
        invariant
            i <= n,
            n == rows@.len(),
            n == old(rows)@.len(),
            forall|j: int|
                0 <= j < i ==> #[trigger] rows@[j] == if old(rows)@[j].identity == who {
                    OnlineUser { online, ..old(rows)@[j] }
                } else {
                    old(rows)@[j]
                },
            forall|j: int| i <= j < n ==> #[trigger] rows@[j] == old(rows)@[j],
        decreases n - i,
    {
        if rows[i].identity == who {
            rows[i].online = online;
        }
        i += 1;
    }
}

pub fn set_active_rows(rows: &mut Vec<UserAccount>, who: Identity, company_id: Option<u64>)
    ensures
        final(rows)@.len() == old(rows)@.len(),
        forall|j: int|
            0 <= j < old(rows)@.len() ==> (#[trigger] final(rows)@[j])@ == if old(rows)@[j].identity == who {
                UserAccountView { active_company_id: company_id, ..old(rows)@[j]@ }
            } else {
                old(rows)@[j]@
            },
{
    let n: usize = rows.len();
    let mut i: usize = 0;
    while i < n
        invariant
            i <= n,
            n == rows@.len(),
            n == old(rows)@.len(),
            forall|j: int|
                0 <= j < i ==> (#[trigger] rows@[j])@ == if old(rows)@[j].identity == who {
                    UserAccountView { active_company_id: company_id, ..old(rows)@[j]@ }
                } else {
                    old(rows)@[j]@
                },
            forall|j: int| i <= j < n ==> #[trigger] rows@[j] == old(rows)@[j],
        decreases n - i,
    {
        if rows[i].identity == who {
            rows[i].active_company_id = company_id;
        }
        i += 1;
    }
}

pub fn set_profile_rows(rows: &mut Vec<UserAccount>, who: Identity, nickname: &String, email: &String)
    ensures
        final(rows)@.len() == old(rows)@.len(),
        forall|j: int|
            0 <= j < old(rows)@.len() ==> (#[trigger] final(rows)@[j])@ == if old(rows)@[j].identity == who {
                UserAccountView { nickname: nickname@, email: email@, ..old(rows)@[j]@ }
            } else {
                old(rows)@[j]@
            },
{
    let n: usize = rows.len();
    let mut i: usize = 0;
    while i < n
        invariant
            i <= n,
            n == rows@.len(),
            n == old(rows)@.len(),
            forall|j: int|
                0 <= j < i ==> (#[trigger] rows@[j])@ == if old(rows)@[j].identity == who {
                    UserAccountView { nickname: nickname@, email: email@, ..old(rows)@[j]@ }
                } else {
                    old(rows)@[j]@
                },
            forall|j: int| i <= j < n ==> #[trigger] rows@[j] == old(rows)@[j],
        decreases n - i,
    {
        if rows[i].identity == who {
            rows[i].nickname = nickname.clone();
            rows[i].email = email.clone();
        }
        i += 1;
    }
}

pub fn set_role_rows(rows: &mut Vec<CompanyMember>, id: u64, role: UserRole)
    ensures
        final(rows)@.len() == old(rows)@.len(),
        forall|j: int|
            0 <= j < old(rows)@.len() ==> #[trigger] final(rows)@[j] == if old(rows)@[j].id == id {
                CompanyMember { role, ..old(rows)@[j] }
            } else {
                old(rows)@[j]
            },
{
    let n: usize = rows.len();
    let mut i: usize = 0;
    while i < n
        invariant
            i <= n,
            n == rows@.len(),
            n == old(rows)@.len(),
            forall|j: int|
                0 <= j < i ==> #[trigger] rows@[j] == if old(rows)@[j].id == id {
                    CompanyMember { role, ..old(rows)@[j] }
                } else {
                    old(rows)@[j]
                },
            forall|j: int| i <= j < n ==> #[trigger] rows@[j] == old(rows)@[j],
        decreases n - i,
    {
        if rows[i].id == id {
            rows[i].role = role;
        }
        i += 1;
    }
}

pub fn set_company_profile_rows(
    rows: &mut Vec<Company>,
    id: u64,
    name: &String,
    slug: &String,
    location: &String,
    bio: &String,
    is_public: bool,
    kvk_number: &String,
)
    ensures
        final(rows)@.len() == old(rows)@.len(),
        forall|j: int|
            0 <= j < old(rows)@.len() ==> (#[trigger] final(rows)@[j])@ == if old(rows)@[j].id == id {
                CompanyView {
                    name: name@,
                    slug: slug@,
                    location: location@,
                    bio: bio@,
                    is_public,
                    kvk_number: kvk_number@,
                    ..old(rows)@[j]@
                }
            } else {
                old(rows)@[j]@
            },
{
    let n: usize = rows.len();
    let mut i: usize = 0;
    while i < n
        invariant
            i <= n,
            n == rows@.len(),
            n == old(rows)@.len(),
            forall|j: int|
                0 <= j < i ==> (#[trigger] rows@[j])@ == if old(rows)@[j].id == id {
                    CompanyView {
                        name: name@,
                        slug: slug@,
                        location: location@,
                        bio: bio@,
                        is_public,
                        kvk_number: kvk_number@,
                        ..old(rows)@[j]@
                    }
                } else {
                    old(rows)@[j]@
                },
            forall|j: int| i <= j < n ==> #[trigger] rows@[j] == old(rows)@[j],
        decreases n - i,
    {
        if rows[i].id == id {
            rows[i].name = name.clone();
            rows[i].slug = slug.clone();
            rows[i].location = location.clone();
            rows[i].bio = bio.clone();
            rows[i].is_public = is_public;
            rows[i].kvk_number = kvk_number.clone();
        }
        i += 1;
    }
}

pub fn set_owner_rows(rows: &mut Vec<Company>, id: u64, owner: Identity)
    ensures
        final(rows)@.len() == old(rows)@.len(),
        forall|j: int|
            0 <= j < old(rows)@.len() ==> (#[trigger] final(rows)@[j])@ == if old(rows)@[j].id == id {
                CompanyView { owner_identity: owner, ..old(rows)@[j]@ }
            } else {
                old(rows)@[j]@
            },
{
    let n: usize = rows.len();
    let mut i: usize = 0;
    while i < n
        invariant
            i <= n,
            n == rows@.len(),
            n == old(rows)@.len(),
            forall|j: int|
                0 <= j < i ==> (#[trigger] rows@[j])@ == if old(rows)@[j].id == id {
                    CompanyView { owner_identity: owner, ..old(rows)@[j]@ }
                } else {
                    old(rows)@[j]@
                },
            forall|j: int| i <= j < n ==> #[trigger] rows@[j] == old(rows)@[j],
        decreases n - i,
    {
        if rows[i].id == id {
            rows[i].owner_identity = owner;
        }
        i += 1;
    }
}

pub fn set_capability_rows(rows: &mut Vec<Capability>, flags: Capability)
    ensures
        final(rows)@.len() == old(rows)@.len(),
        forall|j: int|
            0 <= j < old(rows)@.len() ==> #[trigger] final(rows)@[j] == if old(rows)@[j].company_id
                == flags.company_id {
                flags
            } else {
                old(rows)@[j]
            },
{
    let n: usize = rows.len();
    let mut i: usize = 0;
    while i < n
        invariant
            i <= n,
            n == rows@.len(),
            n == old(rows)@.len(),
            forall|j: int|
                0 <= j < i ==> #[trigger] rows@[j] == if old(rows)@[j].company_id == flags.company_id {
                    flags
                } else {
                    old(rows)@[j]
                },
            forall|j: int| i <= j < n ==> #[trigger] rows@[j] == old(rows)@[j],
        decreases n - i,
    {
        if rows[i].company_id == flags.company_id {
            rows[i] = flags;
        }
        i += 1;
    }
}

pub fn set_invite_uses_rows(rows: &mut Vec<InviteCode>, code: &String, uses_remaining: u32)
    ensures
        final(rows)@.len() == old(rows)@.len(),
        forall|j: int|
            0 <= j < old(rows)@.len() ==> (#[trigger] final(rows)@[j])@ == if old(rows)@[j].code@ == code@ {
                InviteCodeView { uses_remaining, ..old(rows)@[j]@ }
            } else {
                old(rows)@[j]@
            },
{
    let n: usize = rows.len();
    let mut i: usize = 0;
    while i < n
        invariant
            i <= n,
            n == rows@.len(),
            n == old(rows)@.len(),
            forall|j: int|
                0 <= j < i ==> (#[trigger] rows@[j])@ == if old(rows)@[j].code@ == code@ {
                    InviteCodeView { uses_remaining, ..old(rows)@[j]@ }
                } else {
                    old(rows)@[j]@
                },
            forall|j: int| i <= j < n ==> #[trigger] rows@[j] == old(rows)@[j],
        decreases n - i,
    {
        if same_text(&rows[i].code, code) {
            rows[i].uses_remaining = uses_remaining;
        }
        i += 1;
    }
}

pub fn set_connection_status_rows(rows: &mut Vec<Connection>, id: u64, status: ConnectionStatus)
    ensures
        final(rows)@.len() == old(rows)@.len(),
        forall|j: int|
            0 <= j < old(rows)@.len() ==> (#[trigger] final(rows)@[j])@ == if old(rows)@[j].id == id {
                ConnectionView { status, ..old(rows)@[j]@ }
            } else {
                old(rows)@[j]@
            },
{
    let n: usize = rows.len();
    let mut i: usize = 0;
    while i < n
        invariant
            i <= n,
            n == rows@.len(),
            n == old(rows)@.len(),
            forall|j: int|
                0 <= j < i ==> (#[trigger] rows@[j])@ == if old(rows)@[j].id == id {
                    ConnectionView { status, ..old(rows)@[j]@ }
                } else {
                    old(rows)@[j]@
                },
            forall|j: int| i <= j < n ==> #[trigger] rows@[j] == old(rows)@[j],
        decreases n - i,
    {
        if rows[i].id == id {
            rows[i].status = status;
        }
        i += 1;
    }
}

pub fn set_blocked_rows(rows: &mut Vec<Connection>, id: u64, blocker: u64)
    ensures
        final(rows)@.len() == old(rows)@.len(),
        forall|j: int|
            0 <= j < old(rows)@.len() ==> (#[trigger] final(rows)@[j])@ == if old(rows)@[j].id == id {
                ConnectionView {
                    status: ConnectionStatus::Blocked,
                    blocking_company_id: Some(blocker),
                    ..old(rows)@[j]@
                }
            } else {
                old(rows)@[j]@
            },
{
    let n: usize = rows.len();
    let mut i: usize = 0;
    while i < n
        invariant
            i <= n,
            n == rows@.len(),
            n == old(rows)@.len(),
            forall|j: int|
                0 <= j < i ==> (#[trigger] rows@[j])@ == if old(rows)@[j].id == id {
                    ConnectionView {
                        status: ConnectionStatus::Blocked,
                        blocking_company_id: Some(blocker),
                        ..old(rows)@[j]@
                    }
                } else {
                    old(rows)@[j]@
                },
            forall|j: int| i <= j < n ==> #[trigger] rows@[j] == old(rows)@[j],
        decreases n - i,
    {
        if rows[i].id == id {
            rows[i].status = ConnectionStatus::Blocked;
            rows[i].blocking_company_id = Some(blocker);
        }
        i += 1;
    }
}

pub fn mark_read_rows(rows: &mut Vec<Notification>, id: u64)
    ensures
        final(rows)@.len() == old(rows)@.len(),
        forall|j: int|
            0 <= j < old(rows)@.len() ==> (#[trigger] final(rows)@[j])@ == if old(rows)@[j].id == id {
                NotificationView { is_read: true, ..old(rows)@[j]@ }
            } else {
                old(rows)@[j]@
            },
{
    let n: usize = rows.len();
    let mut i: usize = 0;
    while i < n
        invariant
            i <= n,
            n == rows@.len(),
            n == old(rows)@.len(),
            forall|j: int|
                0 <= j < i ==> (#[trigger] rows@[j])@ == if old(rows)@[j].id == id {
                    NotificationView { is_read: true, ..old(rows)@[j]@ }
                } else {
                    old(rows)@[j]@
                },
            forall|j: int| i <= j < n ==> #[trigger] rows@[j] == old(rows)@[j],
        decreases n - i,
    {
        if rows[i].id == id {
            rows[i].is_read = true;
        }
        i += 1;
    }
}

pub fn mark_all_read_rows(rows: &mut Vec<Notification>, who: Identity, company_id: u64)
    ensures
        final(rows)@.len() == old(rows)@.len(),
        forall|j: int|
            0 <= j < old(rows)@.len() ==> (#[trigger] final(rows)@[j])@ == if old(rows)@[j].recipient_identity
                == who && old(rows)@[j].company_id == company_id && !old(rows)@[j].is_read {
                NotificationView { is_read: true, ..old(rows)@[j]@ }
            } else {
                old(rows)@[j]@
            },
{
    let n: usize = rows.len();
    let mut i: usize = 0;
    while i < n
        invariant
            i <= n,
            n == rows@.len(),
            n == old(rows)@.len(),
            forall|j: int|
                0 <= j < i ==> (#[trigger] rows@[j])@ == if old(rows)@[j].recipient_identity == who && old(
                    rows,
                )@[j].company_id == company_id && !old(rows)@[j].is_read {
                    NotificationView { is_read: true, ..old(rows)@[j]@ }
                } else {
                    old(rows)@[j]@
                },
            forall|j: int| i <= j < n ==> #[trigger] rows@[j] == old(rows)@[j],
        decreases n - i,
    {
        if rows[i].recipient_identity == who && rows[i].company_id == company_id && !rows[i].is_read {
            rows[i].is_read = true;
        }
        i += 1;
    }
}

pub fn set_seat_status_rows(rows: &mut Vec<ProjectMember>, id: u64, status: ProjectMemberStatus)
    ensures
        final(rows)@.len() == old(rows)@.len(),
        forall|j: int|
            0 <= j < old(rows)@.len() ==> #[trigger] final(rows)@[j] == if old(rows)@[j].id == id {
                ProjectMember { status, ..old(rows)@[j] }
            } else {
                old(rows)@[j]
            },
{
    let n: usize = rows.len();
    let mut i: usize = 0;
    while i < n
        invariant
            i <= n,
            n == rows@.len(),
            n == old(rows)@.len(),
            forall|j: int|
                0 <= j < i ==> #[trigger] rows@[j] == if old(rows)@[j].id == id {
                    ProjectMember { status, ..old(rows)@[j] }
                } else {
                    old(rows)@[j]
                },
            forall|j: int| i <= j < n ==> #[trigger] rows@[j] == old(rows)@[j],
        decreases n - i,
    {
        if rows[i].id == id {
            rows[i].status = status;
        }
        i += 1;
    }
}

pub fn accept_seat_rows(rows: &mut Vec<ProjectMember>, id: u64, now: Timestamp)
    ensures
        final(rows)@.len() == old(rows)@.len(),
        forall|j: int|
            0 <= j < old(rows)@.len() ==> #[trigger] final(rows)@[j] == if old(rows)@[j].id == id {
                ProjectMember { status: ProjectMemberStatus::Accepted, joined_at: now, ..old(rows)@[j] }
            } else {
                old(rows)@[j]
            },
{
    let n: usize = rows.len();
    let mut i: usize = 0;
    while i < n
        invariant
            i <= n,
            n == rows@.len(),
            n == old(rows)@.len(),
            forall|j: int|
                0 <= j < i ==> #[trigger] rows@[j] == if old(rows)@[j].id == id {
                    ProjectMember { status: ProjectMemberStatus::Accepted, joined_at: now, ..old(rows)@[j] }
                } else {
                    old(rows)@[j]
                },
            forall|j: int| i <= j < n ==> #[trigger] rows@[j] == old(rows)@[j],
        decreases n - i,
    {
        if rows[i].id == id {
            rows[i].status = ProjectMemberStatus::Accepted;
            rows[i].joined_at = now;
        }
        i += 1;
    }
}

/// Appends one unread notification for each of `recipients`, with ids from
/// `first_id` on.
pub fn push_notifications(
    rows: &mut Vec<Notification>,
    first_id: u64,
    recipients: &Vec<Identity>,
    company_id: u64,
    kind: NotificationType,
    title: &String,
    body: &String,
    now: Timestamp,
)
    requires
        first_id + recipients@.len() <= u64::MAX,
    ensures
        views(final(rows)@) == views(old(rows)@) + Seq::new(
            recipients@.len(),
            |k: int|
                NotificationView {
                    id: (first_id + k) as u64,
                    recipient_identity: recipients@[k],
                    company_id,
                    notification_type: kind,
                    title: title@,
                    body: body@,
                    is_read: false,
                    created_at: now,
                },
        ),
{
    let ghost before = views(rows@);
    let ghost added = Seq::new(
        recipients@.len(),
        |k: int|
            NotificationView {
                id: (first_id + k) as u64,
                recipient_identity: recipients@[k],
                company_id,
                notification_type: kind,
                title: title@,
                body: body@,
                is_read: false,
                created_at: now,
            },
    );
    let n: usize = recipients.len();
    let mut i: usize = 0;
    let mut id: u64 = first_id;
    while i < n
        invariant
            i <= n,
            n == recipients@.len(),
            first_id + n <= u64::MAX,
            id == first_id + i,
            added.len() == n,
            forall|k: int|
                0 <= k < n ==> #[trigger] added[k] == (NotificationView {
                    id: (first_id + k) as u64,
                    recipient_identity: recipients@[k],
                    company_id,
                    notification_type: kind,
                    title: title@,
                    body: body@,
                    is_read: false,
                    created_at: now,
                }),
            views(rows@) =~= before + added.take(i as int),
        decreases n - i,
    {
        let ghost prev = views(rows@);
        let row = Notification {
            id,
            recipient_identity: recipients[i],
            company_id,
            notification_type: kind,
            title: title.clone(),
            body: body.clone(),
            is_read: false,
            created_at: now,
        };
        proof {
            assert(prev.len() == before.len() + i);
            assert(row@ == added[i as int]);
        }
        rows.push(row);
        proof {
            assert(added.take(i + 1) =~= added.take(i as int).push(added[i as int]));
            assert(views(rows@) =~= prev.push(added[i as int]));
        }
        id += 1;
        i += 1;
    }
    proof {
        assert(added.take(n as int) =~= added);
    }
}

} // verus!
