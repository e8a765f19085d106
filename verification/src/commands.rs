//! The collaborator-facing operations: each one acquires the shared lock,
//! runs its whole critical section against the store, and releases.
//!
//! Multi-statement sequences — completing a session and bumping its task's
//! counter — stay inside one acquisition, so no caller observes an
//! intermediate state.  The lock hides which store a command ran against,
//! so each command's contract states what holds of its result for every
//! well-formed store; the exact state transitions are the contracts of the
//! per-store operations these commands delegate to.

use vstd::prelude::*;
use crate::connection::DbConnection;
use crate::date::{date_range, Date, Timestamp};
use crate::error::DbError;
use crate::models::{
    CreateProjectInput, CreateSessionInput, CreateTaskInput, DailySummary, PomodoroSession,
    Project, Settings, SessionType, Task, UpdateTaskInput,
};
use crate::projects;
use crate::sessions;
use crate::sessions::{spec_completed_row, spec_sorted_desc};
use crate::settings;
use crate::store::{has_session_id, Store};
use crate::summary;
use crate::tasks;
use crate::tasks::spec_incremented_task;

verus! {

/// Completes a session and, when it is a work session bound to a task,
/// adds one completed pomodoro to that task — the whole two-step sequence
/// under the caller's single critical section.  A failing counter bump is
/// propagated, never swallowed, though the session stays completed.
pub fn complete_session_and_update_task(store: &mut Store, session_id: i64, now: Timestamp) -> (r:
    Result<PomodoroSession, DbError>)
    requires
        old(store).wf(),
        now.valid(),
    ensures
        final(store).wf(),
        !has_session_id(old(store).sessions@, session_id) ==> r == Err::<PomodoroSession, DbError>(
            DbError::NotFound,
        ) && *final(store) == *old(store),
        has_session_id(old(store).sessions@, session_id) ==> exists|i: int|
            0 <= i < old(store).sessions@.len() && (#[trigger] old(store).sessions@[i]).id
                == session_id && ({
                let row = old(store).sessions@[i];
                let closed = spec_completed_row(row, now);
                if !row.is_open() {
                    r == Err::<PomodoroSession, DbError>(DbError::ConstraintViolation) && *final(store) == *old(store)
                } else if !row.type_ok() {
                    r == Err::<PomodoroSession, DbError>(DbError::DataCorruption) && *final(store)
                        == *old(store)
                } else if row.session_type@ == "work"@ && row.task_id is Some {
                    final(store).sessions@ == old(store).sessions@.update(i, closed) && exists|
                        j: int,
                    |
                        0 <= j < old(store).tasks@.len() && (#[trigger] old(store).tasks@[j]).id
                            == row.task_id->Some_0 && (if old(store).tasks@[j].completed_pomodoros
                            == i32::MAX {
                            r == Err::<PomodoroSession, DbError>(DbError::StorageFailure) && final(store).tasks == old(store).tasks
                        } else {
                            r == Ok::<PomodoroSession, DbError>(closed.spec_decode()) && final(store).tasks@ == old(store).tasks@.update(
                                j,
                                spec_incremented_task(old(store).tasks@[j], now),
                            )
                        })
                } else {
                    r == Ok::<PomodoroSession, DbError>(closed.spec_decode()) && final(store).sessions@ == old(store).sessions@.update(i, closed) && final(store).tasks
                        == old(store).tasks
                }
            }),
        (r matches Ok(s) ==> s.completed_at == Some(now) && !s.interrupted && s.id == session_id),
        final(store).projects == old(store).projects,
        final(store).settings == old(store).settings,
        final(store).schema_versions == old(store).schema_versions,
{
    let completed = match sessions::complete_session(store, session_id, now) {
        Ok(s) => s,
        Err(e) => {
            return Err(e);
        },
    };
    let is_work = match completed.session_type {
        SessionType::Work => true,
        SessionType::ShortBreak => false,
        SessionType::LongBreak => false,
    };
    if is_work {
        if let Some(task_id) = completed.task_id {
            match tasks::increment_completed_pomodoros(store, task_id, now) {
                Ok(()) => (),
                Err(e) => {
                    return Err(e);
                },
            }
        }
    }
    Ok(completed)
}

/// All projects, newest created first; every returned row satisfies the
/// store's integrity rules.
pub fn get_projects(db: &DbConnection) -> (r: Result<Vec<Project>, DbError>)
    requires
        db.wf(),
    ensures
        (r matches Ok(v) ==> forall|k: int| 0 <= k < v@.len() ==> (#[trigger] v@[k]).wf()),
{
    let lock = db.get_connection();
    let handle = lock.acquire_read();
    let store = handle.borrow();
    let out = projects::get_all_projects(store);
    proof {
        assert forall|k: int| 0 <= k < out@.len() implies (#[trigger] out@[k]).wf() by {
            assert(out@[k] == store.projects@[store.projects@.len() - 1 - k]);
        }
    }
    handle.release_read();
    Ok(out)
}

/// Creates a project named by the caller; the returned row carries the
/// supplied name and colour and both timestamps stamped with `now`.
pub fn create_project(db: &DbConnection, input: &CreateProjectInput, now: Timestamp) -> (r: Result<
    Project,
    DbError,
>)
    requires
        db.wf(),
        now.valid(),
    ensures
        (r matches Ok(p) ==> p.name == input.name && p.color == input.color && p.created_at == now
            && p.updated_at == now),
{
    let lock = db.get_connection();
    let (mut store, handle) = lock.acquire_write();
    let r = projects::create_project(&mut store, input, now);
    handle.release_write(store);
    r
}

/// Deletes a project; never fails, and dependent tasks merely lose their
/// project reference.
pub fn delete_project(db: &DbConnection, id: i64) -> (r: Result<(), DbError>)
    requires
        db.wf(),
    ensures
        r == Ok::<(), DbError>(()),
{
    let lock = db.get_connection();
    let (mut store, handle) = lock.acquire_write();
    let r = projects::delete_project(&mut store, id);
    handle.release_write(store);
    r
}

/// All tasks, newest created first; every returned row satisfies the
/// store's integrity rules, the completion-timestamp consistency included.
pub fn get_tasks(db: &DbConnection) -> (r: Result<Vec<Task>, DbError>)
    requires
        db.wf(),
    ensures
        (r matches Ok(v) ==> forall|k: int| 0 <= k < v@.len() ==> (#[trigger] v@[k]).wf()),
{
    let lock = db.get_connection();
    let handle = lock.acquire_read();
    let store = handle.borrow();
    let out = tasks::get_all_tasks(store);
    proof {
        assert forall|k: int| 0 <= k < out@.len() implies (#[trigger] out@[k]).wf() by {
            assert(out@[k] == store.tasks@[store.tasks@.len() - 1 - k]);
        }
    }
    handle.release_read();
    Ok(out)
}

/// The task carrying `id`: a well-formed row, or `NotFound`.
pub fn get_task(db: &DbConnection, id: i64) -> (r: Result<Task, DbError>)
    requires
        db.wf(),
    ensures
        (r matches Ok(t) ==> t.wf() && t.id == id),
        (r matches Err(e) ==> e == DbError::NotFound),
{
    let lock = db.get_connection();
    let handle = lock.acquire_read();
    let store = handle.borrow();
    let r = tasks::get_task_by_id(store, id);
    handle.release_read();
    r
}

/// Creates a task from the caller's input: not yet completed, no completed
/// pomodoros, both timestamps stamped with `now`.  A negative estimate is
/// always a constraint violation.
pub fn create_task(db: &DbConnection, input: &CreateTaskInput, now: Timestamp) -> (r: Result<
    Task,
    DbError,
>)
    requires
        db.wf(),
        now.valid(),
    ensures
        (r matches Ok(t) ==> t.title == input.title && t.description == input.description
            && t.project_id == input.project_id && t.estimated_pomodoros
            == input.estimated_pomodoros && t.completed_pomodoros == 0 && !t.is_completed
            && t.completed_at is None && t.created_at == now && t.updated_at == now),
        input.estimated_pomodoros < 0 ==> r == Err::<Task, DbError>(DbError::ConstraintViolation),
{
    let lock = db.get_connection();
    let (mut store, handle) = lock.acquire_write();
    let r = tasks::create_task(&mut store, input, now);
    handle.release_write(store);
    r
}

/// Replaces a task's editable fields; the returned row reflects the input,
/// a refreshed `updated_at`, and an untouched completion state.
pub fn update_task(db: &DbConnection, id: i64, input: &UpdateTaskInput, now: Timestamp) -> (r:
    Result<Task, DbError>)
    requires
        db.wf(),
        now.valid(),
    ensures
        (r matches Ok(t) ==> t.id == id && t.title == input.title && t.description
            == input.description && t.project_id == input.project_id && t.estimated_pomodoros
            == input.estimated_pomodoros && t.updated_at == now && t.wf()),
        input.estimated_pomodoros < 0 ==> r is Err,
{
    let lock = db.get_connection();
    let (mut store, handle) = lock.acquire_write();
    let r = tasks::update_task(&mut store, id, input, now);
    handle.release_write(store);
    r
}

/// Deletes a task; never fails, and dependent sessions merely lose their
/// task reference.
pub fn delete_task(db: &DbConnection, id: i64) -> (r: Result<(), DbError>)
    requires
        db.wf(),
    ensures
        r == Ok::<(), DbError>(()),
{
    let lock = db.get_connection();
    let (mut store, handle) = lock.acquire_write();
    let r = tasks::delete_task(&mut store, id);
    handle.release_write(store);
    r
}

/// Flips a task's completion flag; the returned row keeps the completion
/// timestamp consistent with the flag: `now` when newly completed, null
/// when reopened.
pub fn toggle_task_completion(db: &DbConnection, id: i64, now: Timestamp) -> (r: Result<
    Task,
    DbError,
>)
    requires
        db.wf(),
        now.valid(),
    ensures
        (r matches Ok(t) ==> t.id == id && t.completion_consistent() && t.updated_at == now && (
        t.is_completed ==> t.completed_at == Some(now)) && (!t.is_completed ==> t.completed_at
            is None)),
        (r matches Err(e) ==> e == DbError::NotFound),
{
    let lock = db.get_connection();
    let (mut store, handle) = lock.acquire_write();
    let r = tasks::toggle_task_completion(&mut store, id, now);
    handle.release_write(store);
    r
}

/// The tasks of one project, newest created first; every returned row is
/// well formed and carries the requested project reference.
pub fn get_tasks_by_project(db: &DbConnection, project_id: i64) -> (r: Result<Vec<Task>, DbError>)
    requires
        db.wf(),
    ensures
        (r matches Ok(v) ==> forall|k: int|
            0 <= k < v@.len() ==> (#[trigger] v@[k]).wf() && v@[k].project_id == Some(project_id)),
{
    let lock = db.get_connection();
    let handle = lock.acquire_read();
    let store = handle.borrow();
    let out = tasks::get_tasks_by_project(store, project_id);
    proof {
        let rev = store.tasks@.reverse();
        let pred = |t: Task| t.project_id == Some(project_id);
        assert forall|k: int| 0 <= k < out@.len() implies (#[trigger] out@[k]).wf() && out@[k].project_id
            == Some(project_id) by {
            rev.lemma_filter_pred(pred, k);
            crate::seq_lemmas::lemma_filter_subset(rev, pred, k);
            let w = choose|w: int| 0 <= w < rev.len() && #[trigger] rev[w] == rev.filter(pred)[k];
            assert(rev[w] == store.tasks@[store.tasks@.len() - 1 - w]);
        }
    }
    handle.release_read();
    Ok(out)
}

/// Creates a session from the caller's input, started at `now`, open and
/// not interrupted.  A non-positive duration is always a constraint
/// violation.
pub fn create_session(db: &DbConnection, input: &CreateSessionInput, now: Timestamp) -> (r: Result<
    PomodoroSession,
    DbError,
>)
    requires
        db.wf(),
        now.valid(),
    ensures
        (r matches Ok(s) ==> s.task_id == input.task_id && s.started_at == now && s.completed_at
            is None && s.duration_minutes == input.duration_minutes && s.session_type
            == input.session_type && !s.interrupted),
        input.duration_minutes < 1 ==> r == Err::<PomodoroSession, DbError>(
            DbError::ConstraintViolation,
        ),
{
    let lock = db.get_connection();
    let (mut store, handle) = lock.acquire_write();
    let r = sessions::create_session(&mut store, input, now);
    handle.release_write(store);
    r
}

/// Completes a session and, for a work session bound to a task, bumps that
/// task's completed-pomodoro counter inside the same critical section.
pub fn complete_session(db: &DbConnection, id: i64, now: Timestamp) -> (r: Result<
    PomodoroSession,
    DbError,
>)
    requires
        db.wf(),
        now.valid(),
    ensures
        (r matches Ok(s) ==> s.id == id && s.completed_at == Some(now) && !s.interrupted),
{
    let lock = db.get_connection();
    let (mut store, handle) = lock.acquire_write();
    let r = complete_session_and_update_task(&mut store, id, now);
    handle.release_write(store);
    r
}

/// Interrupts a session: the completion timestamp is stamped and the
/// interrupted flag set.
pub fn interrupt_session(db: &DbConnection, id: i64, now: Timestamp) -> (r: Result<
    PomodoroSession,
    DbError,
>)
    requires
        db.wf(),
        now.valid(),
    ensures
        (r matches Ok(s) ==> s.id == id && s.completed_at == Some(now) && s.interrupted),
{
    let lock = db.get_connection();
    let (mut store, handle) = lock.acquire_write();
    let r = sessions::interrupt_session(&mut store, id, now);
    handle.release_write(store);
    r
}

/// The sessions of the inclusive date range, newest started first, each
/// start date inside the range.
pub fn get_sessions_by_date_range(db: &DbConnection, start_date: Date, end_date: Date) -> (r:
    Result<Vec<PomodoroSession>, DbError>)
    requires
        db.wf(),
    ensures
        (r matches Ok(v) ==> spec_sorted_desc(v@) && forall|k: int|
            0 <= k < v@.len() ==> start_date.spec_le((#[trigger] v@[k]).started_at.date)
                && v@[k].started_at.date.spec_le(end_date)),
        (r matches Err(e) ==> e == DbError::DataCorruption),
{
    let lock = db.get_connection();
    let handle = lock.acquire_read();
    let store = handle.borrow();
    let r = sessions::get_sessions_by_date_range(store, start_date, end_date);
    proof {
        if r is Ok {
            let v = r->Ok_0;
            let rows = sessions::spec_range_rows(store.sessions@, start_date, end_date);
            let pred = |row: crate::models::SessionRow| sessions::spec_in_range(
                row,
                start_date,
                end_date,
            );
            let dec = |row: crate::models::SessionRow| row.spec_decode();
            let mapped = rows.map_values(dec);
            v@.to_multiset_ensures();
            mapped.to_multiset_ensures();
            assert forall|k: int|
                0 <= k < v@.len() implies start_date.spec_le(
                (#[trigger] v@[k]).started_at.date,
            ) && v@[k].started_at.date.spec_le(end_date) by {
                assert(v@.contains(v@[k]));
                assert(v@.to_multiset().count(v@[k]) > 0);
                assert(mapped.to_multiset().count(v@[k]) > 0);
                assert(mapped.contains(v@[k]));
                let w = choose|w: int| 0 <= w < mapped.len() && mapped[w] == v@[k];
                assert(mapped[w] == rows[w].spec_decode());
                store.sessions@.lemma_filter_pred(pred, w);
            }
        }
    }
    handle.release_read();
    r
}

/// The singleton settings row; every returned value satisfies the range
/// and enumeration rules.
pub fn get_settings(db: &DbConnection) -> (r: Result<Settings, DbError>)
    requires
        db.wf(),
    ensures
        (r matches Ok(s) ==> s.wf()),
{
    let lock = db.get_connection();
    let handle = lock.acquire_read();
    let store = handle.borrow();
    let r = settings::get_settings(store);
    handle.release_read();
    r
}

/// Replaces the settings whole; on success the caller reads back exactly
/// the value it supplied.  A field outside its range or enumeration never
/// succeeds.
pub fn update_settings(db: &DbConnection, new_settings: &Settings, now: Timestamp) -> (r: Result<
    Settings,
    DbError,
>)
    requires
        db.wf(),
        now.valid(),
    ensures
        (r matches Ok(s) ==> s == *new_settings && new_settings.wf()),
        !new_settings.wf() ==> r is Err,
{
    let lock = db.get_connection();
    let (mut store, handle) = lock.acquire_write();
    let r = settings::update_settings(&mut store, new_settings, now);
    handle.release_write(store);
    r
}

/// The summary of one calendar day; a day with zero activity yields
/// all-zero counts, never an error.
pub fn get_daily_summary(db: &DbConnection, date: Date) -> (r: Result<DailySummary, DbError>)
    requires
        db.wf(),
    ensures
        (r matches Ok(s) ==> s.date == date && s.completed_tasks_count >= 0
            && s.completed_pomodoros_count >= 0 && s.total_focus_minutes >= 0),
        (r matches Err(e) ==> e == DbError::StorageFailure),
{
    let lock = db.get_connection();
    let handle = lock.acquire_read();
    let store = handle.borrow();
    let r = summary::get_daily_summary(store, date);
    handle.release_read();
    r
}

/// One summary per calendar day of the inclusive range, in ascending date
/// order, zero-activity days included.
pub fn get_weekly_summary(db: &DbConnection, start_date: Date, end_date: Date) -> (r: Result<
    Vec<DailySummary>,
    DbError,
>)
    requires
        db.wf(),
        start_date.valid(),
        end_date.valid(),
    ensures
        (r matches Ok(v) ==> v@.len() == date_range(start_date, end_date).len() && forall|k: int|
            0 <= k < v@.len() ==> (#[trigger] v@[k]).date == date_range(start_date, end_date)[k]),
        (r matches Err(e) ==> e == DbError::StorageFailure),
{
    let lock = db.get_connection();
    let handle = lock.acquire_read();
    let store = handle.borrow();
    let r = summary::get_weekly_summary(store, start_date, end_date);
    handle.release_read();
    r
}

} // verus!
