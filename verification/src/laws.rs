//! The cross-cutting guarantees of the store, stated once and proved from
//! the operations' own contracts: completion-timestamp consistency, the
//! idempotent double toggle, the one-way session transition, detachment on
//! project deletion, zero-activity summaries, and the shape of one- and
//! two-day summary windows.

use vstd::prelude::*;
use crate::date::{date_range, lemma_date_range_adjacent, lemma_date_range_single, Date, Timestamp};
use crate::models::{CreateTaskInput, DailySummary, SessionRow, Task, UpdateTaskInput};
use crate::seq_lemmas::lemma_filter_none;
use crate::sessions::{
    spec_completed_row, spec_interrupted_row, spec_is_completed_work, spec_sum_durations,
    spec_work_rows,
};
use crate::store::Store;
use crate::summary::{
    spec_completed_tasks_count, spec_daily_ok, spec_daily_overflows, spec_task_completed_on,
};
use crate::projects::spec_detach_task;
use crate::tasks::{spec_new_task, spec_toggled_task, spec_updated_task};

verus! {

/// A task's completion timestamp is present exactly when its completion
/// flag is set: for every task resting in a well-formed store, immediately
/// after creation, after every update, and after every toggle.
pub proof fn lemma_completion_timestamp_tracks_flag(
    store: Store,
    i: int,
    t: Task,
    id: i64,
    cin: CreateTaskInput,
    uin: UpdateTaskInput,
    now: Timestamp,
)
    requires
        store.wf(),
        0 <= i < store.tasks@.len(),
        t.completion_consistent(),
    ensures
        store.tasks@[i].completion_consistent(),
        spec_new_task(id, cin, now).completion_consistent(),
        spec_updated_task(t, uin, now).completion_consistent(),
        spec_toggled_task(t, now).completion_consistent(),
{
}

/// Toggling a task's completion twice restores its original completion
/// flag; a task that started incomplete comes back with a null completion
/// timestamp, so only its `updated_at` differs.
pub proof fn lemma_double_toggle(t: Task, n1: Timestamp, n2: Timestamp)
    requires
        t.completion_consistent(),
    ensures
        spec_toggled_task(spec_toggled_task(t, n1), n2).is_completed == t.is_completed,
        !t.is_completed ==> spec_toggled_task(spec_toggled_task(t, n1), n2).completed_at is None,
        !t.is_completed ==> spec_toggled_task(spec_toggled_task(t, n1), n2) == (Task {
            updated_at: n2,
            ..t
        }),
{
}

/// Closing a session is one-way: both transitions leave the session
/// closed, with the interrupted flag recording which transition it was.
/// The operations reject a second transition on a closed session with a
/// constraint violation and leave the store untouched, so the first
/// outcome's flag is never overwritten.
pub proof fn lemma_session_close_one_way(row: SessionRow, now: Timestamp)
    ensures
        !spec_completed_row(row, now).is_open(),
        !spec_interrupted_row(row, now).is_open(),
        !spec_completed_row(row, now).interrupted,
        spec_interrupted_row(row, now).interrupted,
{
}

/// Deleting a project leaves every task intact: only a reference to the
/// deleted project is cleared, every other field and every other
/// reference survives unchanged.
pub proof fn lemma_delete_project_detaches(t: Task, pid: i64)
    ensures
        t.project_id == Some(pid) ==> spec_detach_task(t, pid) == (Task {
            project_id: None,
            ..t
        }),
        t.project_id != Some(pid) ==> spec_detach_task(t, pid) == t,
        spec_detach_task(t, pid).project_id != Some(pid),
{
}

/// A date with zero activity — no task completed on it, no completed
/// non-interrupted work session started on it — has an all-zero summary
/// and can never overflow, so the daily summary owes success.
pub proof fn lemma_daily_summary_zero_activity(store: Store, d: Date)
    requires
        store.wf(),
        forall|k: int|
            0 <= k < store.tasks@.len() ==> !spec_task_completed_on(
                #[trigger] store.tasks@[k],
                d,
            ),
        forall|k: int|
            0 <= k < store.sessions@.len() ==> !spec_is_completed_work(
                #[trigger] store.sessions@[k],
                d,
            ),
    ensures
        spec_completed_tasks_count(store.tasks@, d) == 0,
        spec_work_rows(store.sessions@, d).len() == 0,
        spec_sum_durations(spec_work_rows(store.sessions@, d)) == 0,
        !spec_daily_overflows(store, d),
{
    lemma_filter_none(store.tasks@, |t: Task| spec_task_completed_on(t, d));
    lemma_filter_none(store.sessions@, |row: SessionRow| spec_is_completed_work(row, d));
}

/// A summary window's entries come in strictly ascending date order, one
/// per calendar day of the range, whatever the range.
pub proof fn lemma_weekly_dates_ascending(store: Store, d0: Date, d1: Date, v: Seq<DailySummary>)
    requires
        d0.valid(),
        d1.valid(),
        v.len() == date_range(d0, d1).len(),
        forall|k: int|
            0 <= k < v.len() ==> spec_daily_ok(store, date_range(d0, d1)[k], #[trigger] v[k]),
    ensures
        forall|k: int| 0 <= k < v.len() - 1 ==> (#[trigger] v[k]).date.spec_lt(v[k + 1].date),
{
    if d0.spec_le(d1) {
        crate::date::lemma_date_range_props(d0, d1);
    }
}

/// A summary window whose bounds coincide holds exactly one entry: the
/// daily summary of that one date.
pub proof fn lemma_weekly_range_single(store: Store, d: Date, v: Seq<DailySummary>)
    requires
        d.valid(),
        v.len() == date_range(d, d).len(),
        forall|k: int| 0 <= k < v.len() ==> spec_daily_ok(store, date_range(d, d)[k], #[trigger] v[k]),
    ensures
        v.len() == 1,
        spec_daily_ok(store, d, v[0]),
{
    lemma_date_range_single(d);
}

/// A summary window ending one day after it starts holds exactly two
/// entries, in ascending date order: the daily summaries of the two days.
pub proof fn lemma_weekly_range_adjacent(store: Store, d: Date, v: Seq<DailySummary>)
    requires
        d.valid(),
        !d.is_last_representable(),
        v.len() == date_range(d, d.spec_next()).len(),
        forall|k: int|
            0 <= k < v.len() ==> spec_daily_ok(
                store,
                date_range(d, d.spec_next())[k],
                #[trigger] v[k],
            ),
    ensures
        v.len() == 2,
        spec_daily_ok(store, d, v[0]),
        spec_daily_ok(store, d.spec_next(), v[1]),
        v[0].date.spec_lt(v[1].date),
{
    lemma_date_range_adjacent(d);
    crate::date::lemma_next_idx(d);
}

} // verus!
