//! In-app notifications: who is told about a project's schedule changes,
//! and a user's own inbox.
use vstd::prelude::*;
use crate::authz::RoleAssignment;
use crate::error::ApiError;
use std::collections::HashSet;

verus! {

/// Whom a project's notification goes to: every member of the project's
/// business unit, plus every tenant admin.
pub open spec fn is_recipient(assignments: Seq<RoleAssignment>, business_unit_id: u128, admins: Seq<u128>, u: u128) -> bool {
    (exists|i: int|
        0 <= i < assignments.len() && (#[trigger] assignments[i]).business_unit_id == business_unit_id
            && assignments[i].user_id == u) || admins.contains(u)
}

/// Appends `u` to `out` unless it is already there; `seen` holds the same
/// ids as `out`, for the membership test.
fn add_recipient(seen: &mut HashSet<u128>, out: &mut Vec<u128>, u: u128)
    requires
        old(out)@.no_duplicates(),
        old(seen)@ == old(out)@.to_set(),
    ensures
        final(out)@.no_duplicates(),
        final(seen)@ == final(out)@.to_set(),
        forall|x: u128| final(out)@.contains(x) <==> (old(out)@.contains(x) || x == u),
{
    broadcast use vstd::std_specs::hash::group_hash_axioms;
    let ghost before = out@;
    let fresh = seen.insert(u);
    if fresh {
        out.push(u);
        proof {
            assert(!before.contains(u));
            assert forall|a: int, b: int| 0 <= a < out@.len() && 0 <= b < out@.len() && a != b implies out@[a]
                != out@[b] by {
                if a < before.len() && b < before.len() {
                    assert(out@[a] == before[a] && out@[b] == before[b]);
                } else if a < before.len() {
                    assert(out@[a] == before[a]);
                    assert(before.contains(out@[a]));
                } else if b < before.len() {
                    assert(out@[b] == before[b]);
                    assert(before.contains(out@[b]));
                }
            }
            assert forall|x: u128| out@.contains(x) <==> (before.contains(x) || x == u) by {
                if out@.contains(x) {
                    let k = choose|k: int| 0 <= k < out@.len() && out@[k] == x;
                    if k < before.len() {
                        assert(before[k] == x);
                    }
                }
                if before.contains(x) {
                    let k = choose|k: int| 0 <= k < before.len() && before[k] == x;
                    assert(out@[k] == x);
                }
                if x == u {
                    assert(out@[before.len() as int] == x);
                }
            }
            assert(seen@ =~= out@.to_set());
        }
    } else {
        proof {
            assert(seen@ =~= out@.to_set());
        }
    }
}

/// The recipients of a notification about a project in business unit
/// `business_unit_id`: each member of the business unit and each tenant
/// admin (`admins`), each once. Their order is not meaningful.
pub fn notification_recipients(assignments: &Vec<RoleAssignment>, business_unit_id: u128, admins: &Vec<u128>) -> (r:
    Vec<u128>)
    ensures
        r@.no_duplicates(),
        forall|u: u128| r@.contains(u) <==> is_recipient(assignments@, business_unit_id, admins@, u),
{
    broadcast use vstd::std_specs::hash::group_hash_axioms;
    let mut seen: HashSet<u128> = HashSet::new();
    let mut out: Vec<u128> = Vec::new();
    proof {
        assert(seen@ =~= out@.to_set());
    }
    let mut i: usize = 0;
    while i < assignments.len()
        invariant
            i <= assignments@.len(),
            out@.no_duplicates(),
            seen@ == out@.to_set(),
            forall|u: u128|
                out@.contains(u) <==> exists|j: int|
                    0 <= j < i && (#[trigger] assignments@[j]).business_unit_id == business_unit_id
                        && assignments@[j].user_id == u,
        decreases assignments@.len() - i,
    {
        let a = assignments[i];
        if a.business_unit_id == business_unit_id {
            add_recipient(&mut seen, &mut out, a.user_id);
            proof {
                assert forall|u: u128|
                    out@.contains(u) <==> exists|j: int|
                        0 <= j < i + 1 && (#[trigger] assignments@[j]).business_unit_id == business_unit_id
                            && assignments@[j].user_id == u by {
                    if u == a.user_id {
                        assert(assignments@[i as int] == a);
                    }
                }
            }
        } else {
            proof {
                assert forall|u: u128|
                    out@.contains(u) <==> exists|j: int|
                        0 <= j < i + 1 && (#[trigger] assignments@[j]).business_unit_id == business_unit_id
                            && assignments@[j].user_id == u by {
                    if exists|j: int|
                        0 <= j < i + 1 && (#[trigger] assignments@[j]).business_unit_id == business_unit_id
                            && assignments@[j].user_id == u {
                        let j = choose|j: int|
                            0 <= j < i + 1 && (#[trigger] assignments@[j]).business_unit_id == business_unit_id
                                && assignments@[j].user_id == u;
                        assert(j != i);
                    }
                }
            }
        }
        i = i + 1;
    }
    let mut k: usize = 0;
    while k < admins.len()
        invariant
            k <= admins@.len(),
            out@.no_duplicates(),
            seen@ == out@.to_set(),
            forall|u: u128|
                out@.contains(u) <==> ((exists|j: int|
                    0 <= j < assignments@.len() && (#[trigger] assignments@[j]).business_unit_id == business_unit_id
                        && assignments@[j].user_id == u) || exists|m: int| 0 <= m < k && #[trigger] admins@[m] == u),
        decreases admins@.len() - k,
    {
        add_recipient(&mut seen, &mut out, admins[k]);
        proof {
            assert forall|u: u128|
                out@.contains(u) <==> ((exists|j: int|
                    0 <= j < assignments@.len() && (#[trigger] assignments@[j]).business_unit_id == business_unit_id
                        && assignments@[j].user_id == u) || exists|m: int| 0 <= m < k + 1 && #[trigger] admins@[m] == u) by {
                if u == admins@[k as int] {
                    assert(admins@[k as int] == u);
                }
                if exists|m: int| 0 <= m < k + 1 && #[trigger] admins@[m] == u {
                    let m = choose|m: int| 0 <= m < k + 1 && #[trigger] admins@[m] == u;
                    if m < k {
                        assert(admins@[m] == u);
                    }
                }
            }
        }
        k = k + 1;
    }
    proof {
        assert forall|u: u128| (exists|m: int| 0 <= m < admins@.len() && #[trigger] admins@[m] == u) <==> admins@.contains(u) by {
        }
    }
    out
}

/// A notification as stored: whom it is for, what it is about (a project
/// and a schedule task, if any), whether it has been read, and when it was
/// read and created (microseconds since the Unix epoch).
#[derive(Clone, Copy, Debug, PartialEq, Eq, Structural)]
pub struct Notification {
    pub id: u128,
    pub recipient_user_id: u128,
    pub project_id: Option<u128>,
    pub schedule_task_id: Option<u128>,
    pub is_read: bool,
    pub read_at: Option<i64>,
    pub created_at: i64,
}

/// A notification to be recorded for one recipient (its id is assigned on
/// insertion).
pub struct NewNotification {
    pub recipient_user_id: u128,
    pub project_id: u128,
    pub schedule_task_id: u128,
    pub message: String,
    pub is_read: bool,
    pub read_at: Option<i64>,
}

/// The notifications telling a project's team that schedule task
/// `schedule_task_id` changed: one per recipient (see
/// `notification_recipients`), each carrying `message`, unread.
pub fn notify_project_team(
    assignments: &Vec<RoleAssignment>,
    business_unit_id: u128,
    admins: &Vec<u128>,
    project_id: u128,
    schedule_task_id: u128,
    message: &str,
) -> (r: Vec<NewNotification>)
    ensures
        r@.map_values(|n: NewNotification| n.recipient_user_id).no_duplicates(),
        forall|u: u128|
            r@.map_values(|n: NewNotification| n.recipient_user_id).contains(u) <==> is_recipient(
                assignments@,
                business_unit_id,
                admins@,
                u,
            ),
        forall|j: int|
            0 <= j < r@.len() ==> {
                &&& (#[trigger] r@[j]).project_id == project_id
                &&& r@[j].schedule_task_id == schedule_task_id
                &&& r@[j].message@ == message@
                &&& !r@[j].is_read
                &&& r@[j].read_at is None
            },
{
    let recipients = notification_recipients(assignments, business_unit_id, admins);
    let mut out: Vec<NewNotification> = Vec::new();
    let mut i: usize = 0;
    while i < recipients.len()
        invariant
            i <= recipients@.len(),
            out@.len() == i,
            forall|j: int| 0 <= j < i ==> (#[trigger] out@[j]).recipient_user_id == recipients@[j],
            forall|j: int|
                0 <= j < i ==> {
                    &&& (#[trigger] out@[j]).project_id == project_id
                    &&& out@[j].schedule_task_id == schedule_task_id
                    &&& out@[j].message@ == message@
                    &&& !out@[j].is_read
                    &&& out@[j].read_at is None
                },
        decreases recipients@.len() - i,
    {
        out.push(
            NewNotification {
                recipient_user_id: recipients[i],
                project_id,
                schedule_task_id,
                message: String::from_str(message),
                is_read: false,
                read_at: None,
            },
        );
        i = i + 1;
    }
    proof {
        assert(out@.map_values(|n: NewNotification| n.recipient_user_id) =~= recipients@);
    }
    out
}

/// The message announcing that a schedule task moved: `Schedule task
/// '<title>' shifted to start <start> due to a dependency delay.`, where
/// `start` is the new planned start as text, or `an unspecified date`.
pub open spec fn shift_message(title: Seq<char>, start: Option<Seq<char>>) -> Seq<char> {
    "Schedule task '"@ + title + "' shifted to start "@ + match start {
        Some(d) => d,
        None => "an unspecified date"@,
    } + " due to a dependency delay."@
}

/// Builds `shift_message`.
pub fn schedule_shift_message(title: &str, start: Option<&str>) -> (r: String)
    ensures
        r@ == shift_message(title@, match start {
            Some(d) => Some(d@),
            None => None,
        }),
{
    let mut m = String::from_str("Schedule task '");
    m.append(title);
    m.append("' shifted to start ");
    match start {
        Some(d) => m.append(d),
        None => m.append("an unspecified date"),
    }
    m.append(" due to a dependency delay.");
    m
}

/// Which of a user's notifications to list.
pub struct ListNotificationsQuery {
    pub unread_only: bool,
}

/// The notification is in the user's listing.
pub open spec fn listed(n: Notification, user_id: u128, unread_only: bool) -> bool {
    n.recipient_user_id == user_id && (unread_only ==> !n.is_read)
}

/// Newest first: no notification comes before one created later.
pub open spec fn newest_first(s: Seq<Notification>) -> bool {
    forall|i: int, j: int| 0 <= i < j < s.len() ==> (#[trigger] s[j]).created_at <= (#[trigger] s[i]).created_at
}

/// The position at which `n` joins `out` (newest first) after every
/// notification created no earlier than it.
fn insertion_point(out: &Vec<Notification>, n: &Notification) -> (pos: usize)
    requires
        newest_first(out@),
    ensures
        pos <= out@.len(),
        forall|k: int| 0 <= k < pos ==> n.created_at <= (#[trigger] out@[k]).created_at,
        forall|k: int| pos <= k < out@.len() ==> (#[trigger] out@[k]).created_at < n.created_at,
{
    let mut pos: usize = 0;
    while pos < out.len()
        invariant
            pos <= out@.len(),
            newest_first(out@),
            forall|k: int| 0 <= k < pos ==> n.created_at <= (#[trigger] out@[k]).created_at,
        decreases out@.len() - pos,
    {
        if out[pos].created_at < n.created_at {
            assert forall|k: int| pos <= k < out@.len() implies (#[trigger] out@[k]).created_at < n.created_at by {
                if k > pos {
                    assert(out@[k].created_at <= out@[pos as int].created_at);
                }
            }
            return pos;
        }
        pos = pos + 1;
    }
    pos
}

/// A user's notifications (only the unread ones when asked), newest first;
/// of notifications created at the same moment no order is promised.
pub fn list_my_notifications(notifications: &Vec<Notification>, user_id: u128, q: &ListNotificationsQuery) -> (r: Vec<
    Notification,
>)
    ensures
        r@.to_multiset() == notifications@.filter(|n: Notification| listed(n, user_id, q.unread_only)).to_multiset(),
        newest_first(r@),
{
    let unread_only = q.unread_only;
    let ghost pred = |n: Notification| listed(n, user_id, unread_only);
    let ghost mut kept: Seq<Notification> = Seq::empty();
    let mut out: Vec<Notification> = Vec::new();
    let mut i: usize = 0;
    proof {
        reveal(Seq::filter);
        assert(notifications@.take(0).filter(pred) =~= Seq::<Notification>::empty());
    }
    while i < notifications.len()
        invariant
            i <= notifications@.len(),
            pred == (|n: Notification| listed(n, user_id, unread_only)),
            kept == notifications@.take(i as int).filter(pred),
            out@.to_multiset() == kept.to_multiset(),
            newest_first(out@),
        decreases notifications@.len() - i,
    {
        let n = notifications[i];
        proof {
            reveal(Seq::filter);
            assert(notifications@.take(i + 1).drop_last() =~= notifications@.take(i as int));
            assert(notifications@.take(i + 1).last() == n);
        }
        if n.recipient_user_id == user_id && (!unread_only || !n.is_read) {
            let pos = insertion_point(&out, &n);
            let ghost before = out@;
            out.insert(pos, n);
            proof {
                let ghost old_kept = kept;
                kept = kept.push(n);
                assert(out@ == before.insert(pos as int, n));
                vstd::seq_lib::to_multiset_insert(before, pos as int, n);
                vstd::seq_lib::to_multiset_build(old_kept, n);
                assert forall|a: int, b: int| 0 <= a < b < out@.len() implies (#[trigger] out@[b]).created_at <= (
                #[trigger] out@[a]).created_at by {
                    if b < pos {
                        assert(out@[a] == before[a] && out@[b] == before[b]);
                    } else if b == pos {
                        assert(out@[a] == before[a]);
                    } else if a < pos {
                        assert(out@[a] == before[a] && out@[b] == before[b - 1]);
                        assert(before[b - 1].created_at < n.created_at);
                    } else if a == pos {
                        assert(out@[b] == before[b - 1]);
                    } else {
                        assert(out@[a] == before[a - 1] && out@[b] == before[b - 1]);
                    }
                }
            }
        }
        i = i + 1;
    }
    proof {
        assert(notifications@.take(notifications@.len() as int) =~= notifications@);
    }
    out
}

/// Marks one of the caller's notifications read at `now`; another user's
/// notification is reported as not found.
pub fn mark_notification_read(notification: Option<Notification>, user_id: u128, now: i64) -> (r: Result<
    Notification,
    ApiError,
>)
    ensures
        r == (match notification {
            None => Err(ApiError::NotFound),
            Some(n) => if n.recipient_user_id != user_id {
                Err(ApiError::NotFound)
            } else {
                Ok(Notification { is_read: true, read_at: Some(now), ..n })
            },
        }),
{
    match notification {
        None => Err(ApiError::NotFound),
        Some(n) => if n.recipient_user_id != user_id {
            Err(ApiError::NotFound)
        } else {
            Ok(Notification { is_read: true, read_at: Some(now), ..n })
        },
    }
}

} // verus!
