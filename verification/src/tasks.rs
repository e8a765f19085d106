//! The task repository: list, lookup, create, full-replacement update,
//! delete, completion toggling, and the completed-pomodoro counter bump.
//!
//! Deleting a task clears the task reference of dependent sessions, as the
//! on-delete-set-null foreign key does; toggling keeps the completion
//! timestamp tied to the completion flag.

use vstd::prelude::*;
use crate::date::Timestamp;
use crate::error::DbError;
use crate::models::{CreateTaskInput, SessionRow, Task, UpdateTaskInput};
use crate::seq_lemmas::lemma_filter_take_step;
use crate::store::{
    find_project_index, find_task_index, has_project_id, has_task_id, lemma_has_task_id_push,
    lemma_has_task_id_update, lemma_tasks_ascending_push, lemma_tasks_ascending_update,
    tasks_ascending, Store,
};

verus! {

/// The row `create_task` materializes for identifier `id` at time `now`.
pub open spec fn spec_new_task(id: i64, input: CreateTaskInput, now: Timestamp) -> Task {
    Task {
        id,
        title: input.title,
        description: input.description,
        project_id: input.project_id,
        estimated_pomodoros: input.estimated_pomodoros,
        completed_pomodoros: 0,
        is_completed: false,
        created_at: now,
        updated_at: now,
        completed_at: None,
    }
}

/// `t` with its editable fields replaced from `input` at time `now`; the
/// completion state is untouched.
pub open spec fn spec_updated_task(t: Task, input: UpdateTaskInput, now: Timestamp) -> Task {
    Task {
        title: input.title,
        description: input.description,
        project_id: input.project_id,
        estimated_pomodoros: input.estimated_pomodoros,
        updated_at: now,
        ..t
    }
}

/// `t` with its completion flag flipped at time `now`: the completion
/// timestamp is set exactly when the new flag is true.
pub open spec fn spec_toggled_task(t: Task, now: Timestamp) -> Task {
    Task {
        is_completed: !t.is_completed,
        completed_at: if !t.is_completed {
            Some(now)
        } else {
            None
        },
        updated_at: now,
        ..t
    }
}

/// `t` with one more completed pomodoro, stamped at time `now`.
pub open spec fn spec_incremented_task(t: Task, now: Timestamp) -> Task {
    Task { completed_pomodoros: (t.completed_pomodoros + 1) as i32, updated_at: now, ..t }
}

/// `s` with its task reference cleared when it pointed at `tid`.
pub open spec fn spec_detach_session(s: SessionRow, tid: i64) -> SessionRow {
    if s.task_id == Some(tid) {
        SessionRow { task_id: None, ..s }
    } else {
        s
    }
}

/// Whether `input` would violate a store rule: a negative estimate, or a
/// project reference that does not resolve.
pub open spec fn spec_create_task_rejected(store: Store, input: CreateTaskInput) -> bool {
    input.estimated_pomodoros < 0 || (input.project_id matches Some(p) && !has_project_id(
        store.projects@,
        p,
    ))
}

/// All tasks, newest created first.
pub fn get_all_tasks(store: &Store) -> (r: Vec<Task>)
    ensures
        r@ == store.tasks@.reverse(),
{
    let n = store.tasks.len();
    let mut out: Vec<Task> = Vec::new();
    let mut i: usize = 0;
    while i < n
        invariant
            i <= n,
            n == store.tasks@.len(),
            out@.len() == i,
            forall|k: int| 0 <= k < i ==> out@[k] == store.tasks@[n - 1 - k],
        decreases n - i,
    {
        out.push(store.tasks[n - 1 - i].clone());
        i = i + 1;
    }
    proof {
        assert(out@ =~= store.tasks@.reverse());
    }
    out
}

/// The task carrying `task_id`; `NotFound` when no task does.
pub fn get_task_by_id(store: &Store, task_id: i64) -> (r: Result<Task, DbError>)
    ensures
        (r matches Ok(t) ==> exists|i: int|
            0 <= i < store.tasks@.len() && (#[trigger] store.tasks@[i]).id == task_id && t
                == store.tasks@[i]),
        r is Ok <==> has_task_id(store.tasks@, task_id),
        (r matches Err(e) ==> e == DbError::NotFound),
{
    match find_task_index(&store.tasks, task_id) {
        Some(i) => Ok(store.tasks[i].clone()),
        None => Err(DbError::NotFound),
    }
}

/// The tasks of one project, newest created first.
pub fn get_tasks_by_project(store: &Store, project_id: i64) -> (r: Vec<Task>)
    ensures
        r@ == store.tasks@.reverse().filter(|t: Task| t.project_id == Some(project_id)),
{
    let ghost pred = |t: Task| t.project_id == Some(project_id);
    let ghost rev = store.tasks@.reverse();
    let n = store.tasks.len();
    let mut out: Vec<Task> = Vec::new();
    let mut i: usize = 0;
    while i < n
        invariant
            i <= n,
            n == store.tasks@.len(),
            rev == store.tasks@.reverse(),
            pred == (|t: Task| t.project_id == Some(project_id)),
            out@ == rev.take(i as int).filter(pred),
        decreases n - i,
    {
        proof {
            lemma_filter_take_step(rev, pred, i as int);
            assert(rev[i as int] == store.tasks@[n - 1 - i]);
        }
        let hit = match store.tasks[n - 1 - i].project_id {
            Some(p) => p == project_id,
            None => false,
        };
        if hit {
            out.push(store.tasks[n - 1 - i].clone());
        }
        i = i + 1;
    }
    proof {
        assert(rev.take(n as int) =~= rev);
    }
    out
}

/// Creates a task with the next free identifier: not yet completed, no
/// completed pomodoros, both timestamps stamped with `now`.  A negative
/// estimate or an unresolvable project reference is a constraint violation;
/// an exhausted identifier space is a storage failure.
pub fn create_task(store: &mut Store, input: &CreateTaskInput, now: Timestamp) -> (r: Result<
    Task,
    DbError,
>)
    requires
        old(store).wf(),
        now.valid(),
    ensures
        final(store).wf(),
        spec_create_task_rejected(*old(store), *input) ==> r == Err::<Task, DbError>(
            DbError::ConstraintViolation,
        ) && *final(store) == *old(store),
        !spec_create_task_rejected(*old(store), *input) && old(store).next_task_id == i64::MAX
            ==> r == Err::<Task, DbError>(DbError::StorageFailure) && *final(store) == *old(store),
        !spec_create_task_rejected(*old(store), *input) && old(store).next_task_id < i64::MAX ==> (
        r matches Ok(t) && t == spec_new_task(old(store).next_task_id, *input, now)
            && final(store).tasks@ == old(store).tasks@.push(t)
            && final(store).next_task_id == old(store).next_task_id + 1),
        final(store).projects == old(store).projects,
        final(store).sessions == old(store).sessions,
        final(store).settings == old(store).settings,
        final(store).schema_versions == old(store).schema_versions,
        final(store).next_project_id == old(store).next_project_id,
        final(store).next_session_id == old(store).next_session_id,
{
    if input.estimated_pomodoros < 0 {
        return Err(DbError::ConstraintViolation);
    }
    let fk_ok = match input.project_id {
        Some(p) => match find_project_index(&store.projects, p) {
            Some(_) => true,
            None => false,
        },
        None => true,
    };
    if !fk_ok {
        return Err(DbError::ConstraintViolation);
    }
    if store.next_task_id == i64::MAX {
        return Err(DbError::StorageFailure);
    }
    let id = store.next_task_id;
    let row = Task {
        id,
        title: input.title.clone(),
        description: input.description.clone(),
        project_id: input.project_id,
        estimated_pomodoros: input.estimated_pomodoros,
        completed_pomodoros: 0,
        is_completed: false,
        created_at: now,
        updated_at: now,
        completed_at: None,
    };
    let out = row.clone();
    let ghost r0 = row;
    store.tasks.push(row);
    store.next_task_id = id + 1;
    proof {
        let pre = old(store).tasks@;
        lemma_tasks_ascending_push(pre, r0);
        assert(store.tasks@[pre.len() as int] == r0);
        assert forall|k: int|
            0 <= k < store.sessions@.len() && (#[trigger] store.sessions@[k]).task_id is Some implies has_task_id(
            store.tasks@,
            store.sessions@[k].task_id->Some_0,
        ) by {
            lemma_has_task_id_push(pre, r0, store.sessions@[k].task_id->Some_0);
        }
    }
    Ok(out)
}

/// Replaces the editable fields of the task carrying `task_id` from
/// `input`, refreshing `updated_at` and leaving the completion state alone,
/// and returns the new row.  An absent task is `NotFound`; a negative
/// estimate or an unresolvable project reference is a constraint violation.
pub fn update_task(store: &mut Store, task_id: i64, input: &UpdateTaskInput, now: Timestamp) -> (r:
    Result<Task, DbError>)
    requires
        old(store).wf(),
        now.valid(),
    ensures
        final(store).wf(),
        !has_task_id(old(store).tasks@, task_id) ==> r == Err::<Task, DbError>(DbError::NotFound)
            && *final(store) == *old(store),
        has_task_id(old(store).tasks@, task_id) && (input.estimated_pomodoros < 0 || (
        input.project_id matches Some(p) && !has_project_id(old(store).projects@, p))) ==> r
            == Err::<Task, DbError>(DbError::ConstraintViolation) && *final(store) == *old(store),
        has_task_id(old(store).tasks@, task_id) && input.estimated_pomodoros >= 0 && (
        input.project_id matches Some(p) ==> has_project_id(old(store).projects@, p)) ==> (
        r matches Ok(t) && exists|i: int|
            0 <= i < old(store).tasks@.len() && (#[trigger] old(store).tasks@[i]).id == task_id && t
                == spec_updated_task(old(store).tasks@[i], *input, now) && final(store).tasks@
                == old(store).tasks@.update(i, t)),
        final(store).projects == old(store).projects,
        final(store).sessions == old(store).sessions,
        final(store).settings == old(store).settings,
        final(store).schema_versions == old(store).schema_versions,
        final(store).next_project_id == old(store).next_project_id,
        final(store).next_task_id == old(store).next_task_id,
        final(store).next_session_id == old(store).next_session_id,
{
    let idx = match find_task_index(&store.tasks, task_id) {
        Some(i) => i,
        None => {
            return Err(DbError::NotFound);
        },
    };
    if input.estimated_pomodoros < 0 {
        return Err(DbError::ConstraintViolation);
    }
    let fk_ok = match input.project_id {
        Some(p) => match find_project_index(&store.projects, p) {
            Some(_) => true,
            None => false,
        },
        None => true,
    };
    if !fk_ok {
        return Err(DbError::ConstraintViolation);
    }
    let prev = &store.tasks[idx];
    let nt = Task {
        id: prev.id,
        title: input.title.clone(),
        description: input.description.clone(),
        project_id: input.project_id,
        estimated_pomodoros: input.estimated_pomodoros,
        completed_pomodoros: prev.completed_pomodoros,
        is_completed: prev.is_completed,
        created_at: prev.created_at,
        updated_at: now,
        completed_at: prev.completed_at,
    };
    let out = nt.clone();
    let ghost n0 = nt;
    store.tasks[idx] = nt;
    proof {
        lemma_replace_task_wf(*old(store), *store, idx as int, n0);
    }
    Ok(out)
}

/// Replacing one task by a row with the same identifier, itself
/// well-formed and with a resolvable project reference, preserves the store
/// invariant when only the task table changed.
proof fn lemma_replace_task_wf(pre: Store, post: Store, i: int, nt: Task)
    requires
        pre.wf(),
        0 <= i < pre.tasks@.len(),
        nt.id == pre.tasks@[i].id,
        nt.wf(),
        nt.project_id matches Some(p) ==> has_project_id(pre.projects@, p),
        post.tasks@ == pre.tasks@.update(i, nt),
        post.projects == pre.projects,
        post.sessions == pre.sessions,
        post.settings == pre.settings,
        post.schema_versions == pre.schema_versions,
        post.next_project_id == pre.next_project_id,
        post.next_task_id == pre.next_task_id,
        post.next_session_id == pre.next_session_id,
    ensures
        post.wf(),
{
    lemma_tasks_ascending_update(pre.tasks@, i, nt);
    assert forall|k: int|
        0 <= k < post.tasks@.len() implies (#[trigger] post.tasks@[k]).wf() && 1
        <= post.tasks@[k].id < post.next_task_id && (post.tasks@[k].project_id matches Some(pid)
        ==> has_project_id(post.projects@, pid)) by {
        if k == i {
            assert(post.tasks@[k] == nt);
        } else {
            assert(post.tasks@[k] == pre.tasks@[k]);
        }
    }
    assert forall|k: int|
        0 <= k < post.sessions@.len() && (#[trigger] post.sessions@[k]).task_id is Some implies has_task_id(
        post.tasks@,
        post.sessions@[k].task_id->Some_0,
    ) by {
        lemma_has_task_id_update(pre.tasks@, i, nt, post.sessions@[k].task_id->Some_0);
    }
}

/// Flips the completion flag of the task carrying `task_id`: the completion
/// timestamp becomes `now` when the new flag is true and null when it is
/// false, `updated_at` is refreshed, and the post-toggle row is returned.
pub fn toggle_task_completion(store: &mut Store, task_id: i64, now: Timestamp) -> (r: Result<
    Task,
    DbError,
>)
    requires
        old(store).wf(),
        now.valid(),
    ensures
        final(store).wf(),
        !has_task_id(old(store).tasks@, task_id) ==> r == Err::<Task, DbError>(DbError::NotFound)
            && *final(store) == *old(store),
        has_task_id(old(store).tasks@, task_id) ==> (r matches Ok(t) && exists|i: int|
            0 <= i < old(store).tasks@.len() && (#[trigger] old(store).tasks@[i]).id == task_id && t
                == spec_toggled_task(old(store).tasks@[i], now) && final(store).tasks@ == old(
                store,
            ).tasks@.update(i, t)),
        (r matches Ok(t) ==> t.completion_consistent()),
        final(store).projects == old(store).projects,
        final(store).sessions == old(store).sessions,
        final(store).settings == old(store).settings,
        final(store).schema_versions == old(store).schema_versions,
        final(store).next_project_id == old(store).next_project_id,
        final(store).next_task_id == old(store).next_task_id,
        final(store).next_session_id == old(store).next_session_id,
{
    let idx = match find_task_index(&store.tasks, task_id) {
        Some(i) => i,
        None => {
            return Err(DbError::NotFound);
        },
    };
    let prev = &store.tasks[idx];
    let new_flag = !prev.is_completed;
    let nt = Task {
        id: prev.id,
        title: prev.title.clone(),
        description: prev.description.clone(),
        project_id: prev.project_id,
        estimated_pomodoros: prev.estimated_pomodoros,
        completed_pomodoros: prev.completed_pomodoros,
        is_completed: new_flag,
        created_at: prev.created_at,
        updated_at: now,
        completed_at: if new_flag {
            Some(now)
        } else {
            None
        },
    };
    let out = nt.clone();
    let ghost n0 = nt;
    store.tasks[idx] = nt;
    proof {
        lemma_replace_task_wf(*old(store), *store, idx as int, n0);
    }
    Ok(out)
}

/// Adds one to the completed-pomodoro counter of the task carrying
/// `task_id` and refreshes `updated_at`.  An absent identifier is a silent
/// no-op; a counter that no longer fits its column is a storage failure.
pub fn increment_completed_pomodoros(store: &mut Store, task_id: i64, now: Timestamp) -> (r: Result<
    (),
    DbError,
>)
    requires
        old(store).wf(),
        now.valid(),
    ensures
        final(store).wf(),
        !has_task_id(old(store).tasks@, task_id) ==> r == Ok::<(), DbError>(()) && *final(store)
            == *old(store),
        has_task_id(old(store).tasks@, task_id) ==> exists|i: int|
            0 <= i < old(store).tasks@.len() && (#[trigger] old(store).tasks@[i]).id == task_id && (
            if old(store).tasks@[i].completed_pomodoros == i32::MAX {
                r == Err::<(), DbError>(DbError::StorageFailure) && *final(store) == *old(store)
            } else {
                r == Ok::<(), DbError>(()) && final(store).tasks@ == old(store).tasks@.update(
                    i,
                    spec_incremented_task(old(store).tasks@[i], now),
                )
            }),
        final(store).projects == old(store).projects,
        final(store).sessions == old(store).sessions,
        final(store).settings == old(store).settings,
        final(store).schema_versions == old(store).schema_versions,
        final(store).next_project_id == old(store).next_project_id,
        final(store).next_task_id == old(store).next_task_id,
        final(store).next_session_id == old(store).next_session_id,
{
    let idx = match find_task_index(&store.tasks, task_id) {
        Some(i) => i,
        None => {
            return Ok(());
        },
    };
    let prev = &store.tasks[idx];
    if prev.completed_pomodoros == i32::MAX {
        return Err(DbError::StorageFailure);
    }
    let nt = Task {
        id: prev.id,
        title: prev.title.clone(),
        description: prev.description.clone(),
        project_id: prev.project_id,
        estimated_pomodoros: prev.estimated_pomodoros,
        completed_pomodoros: prev.completed_pomodoros + 1,
        is_completed: prev.is_completed,
        created_at: prev.created_at,
        updated_at: now,
        completed_at: prev.completed_at,
    };
    let ghost n0 = nt;
    store.tasks[idx] = nt;
    proof {
        lemma_replace_task_wf(*old(store), *store, idx as int, n0);
    }
    Ok(())
}

/// Deletes the task carrying `task_id`, clearing the task reference of
/// every dependent session.  Deleting an absent identifier is a silent
/// no-op.
pub fn delete_task(store: &mut Store, task_id: i64) -> (r: Result<(), DbError>)
    requires
        old(store).wf(),
    ensures
        final(store).wf(),
        r == Ok::<(), DbError>(()),
        final(store).tasks@ == old(store).tasks@.filter(|t: Task| t.id != task_id),
        final(store).sessions@ == old(store).sessions@.map_values(
            |s: SessionRow| spec_detach_session(s, task_id),
        ),
        final(store).projects == old(store).projects,
        final(store).settings == old(store).settings,
        final(store).schema_versions == old(store).schema_versions,
        final(store).next_project_id == old(store).next_project_id,
        final(store).next_task_id == old(store).next_task_id,
        final(store).next_session_id == old(store).next_session_id,
{
    let ghost pred = |t: Task| t.id != task_id;
    // Clear the task reference of the dependent sessions first.
    let m = store.sessions.len();
    let mut i: usize = 0;
    while i < m
        invariant
            i <= m,
            m == store.sessions@.len(),
            forall|k: int|
                0 <= k < i ==> store.sessions@[k] == spec_detach_session(
                    #[trigger] old(store).sessions@[k],
                    task_id,
                ),
            forall|k: int| i <= k < m ==> store.sessions@[k] == #[trigger] old(store).sessions@[k],
            store.projects == old(store).projects,
            store.tasks == old(store).tasks,
            store.settings == old(store).settings,
            store.schema_versions == old(store).schema_versions,
            store.next_project_id == old(store).next_project_id,
            store.next_task_id == old(store).next_task_id,
            store.next_session_id == old(store).next_session_id,
        decreases m - i,
    {
        let detach = match store.sessions[i].task_id {
            Some(tid) => tid == task_id,
            None => false,
        };
        if detach {
            store.sessions[i].task_id = None;
        }
        i = i + 1;
    }
    proof {
        assert(store.sessions@ =~= old(store).sessions@.map_values(
            |s: SessionRow| spec_detach_session(s, task_id),
        ));
    }
    // Remove the task row itself.
    let n = store.tasks.len();
    let mut kept: Vec<Task> = Vec::new();
    let mut j: usize = 0;
    while j < n
        invariant
            old(store).wf(),
            j <= n,
            n == store.tasks@.len(),
            store.tasks == old(store).tasks,
            store.next_task_id == old(store).next_task_id,
            store.projects == old(store).projects,
            pred == (|t: Task| t.id != task_id),
            kept@ == store.tasks@.take(j as int).filter(pred),
            tasks_ascending(kept@),
            forall|k: int|
                0 <= k < kept@.len() ==> (#[trigger] kept@[k]).wf() && 1 <= kept@[k].id
                    < store.next_task_id && (kept@[k].project_id matches Some(pid)
                    ==> has_project_id(store.projects@, pid)),
            kept@.len() > 0 && j > 0 ==> kept@.last().id <= store.tasks@[j - 1].id,
        decreases n - j,
    {
        proof {
            lemma_filter_take_step(store.tasks@, pred, j as int);
            if kept@.len() > 0 && j == 0 {
                reveal(Seq::filter);
                assert(store.tasks@.take(0) =~= Seq::<Task>::empty());
                assert(false);
            }
        }
        if store.tasks[j].id != task_id {
            let x = store.tasks[j].clone();
            let ghost k0 = kept@;
            proof {
                assert(x == store.tasks@[j as int]);
                assert forall|k: int| 0 <= k < k0.len() implies (#[trigger] k0[k]).id < x.id by {
                    assert(k0.last() == k0[k0.len() - 1]);
                    if k < k0.len() - 1 {
                        assert(k0[k].id < k0.last().id);
                    }
                    assert(k0.last().id <= store.tasks@[j - 1].id);
                    assert(store.tasks@[j - 1].id < store.tasks@[j as int].id);
                }
                lemma_tasks_ascending_push(k0, x);
            }
            kept.push(x);
            proof {
                assert(kept@ == k0.push(x));
                assert forall|k: int| 0 <= k < kept@.len() implies (#[trigger] kept@[k]).wf() && 1
                    <= kept@[k].id < store.next_task_id && (kept@[k].project_id matches Some(pid)
                    ==> has_project_id(store.projects@, pid)) by {
                    if k < k0.len() {
                        assert(kept@[k] == k0[k]);
                    } else {
                        assert(kept@[k] == x);
                        assert(store.tasks@[j as int].wf());
                    }
                }
            }
        }
        j = j + 1;
    }
    proof {
        assert(store.tasks@.take(n as int) =~= store.tasks@);
    }
    store.tasks = kept;
    proof {
        // Every surviving session reference still resolves: the referenced
        // task was not the deleted one, so the filter kept it.
        assert forall|k: int|
            0 <= k < store.sessions@.len() && (#[trigger] store.sessions@[k]).task_id is Some implies has_task_id(
            store.tasks@,
            store.sessions@[k].task_id->Some_0,
        ) by {
            let s0 = old(store).sessions@[k];
            assert(store.sessions@[k] == spec_detach_session(s0, task_id));
            let tid = store.sessions@[k].task_id->Some_0;
            assert(has_task_id(old(store).tasks@, tid));
            let w = choose|w: int|
                0 <= w < old(store).tasks@.len() && (#[trigger] old(store).tasks@[w]).id == tid;
            old(store).tasks@.lemma_filter_contains(pred, w);
            let fs = old(store).tasks@.filter(pred);
            assert(fs.contains(old(store).tasks@[w]));
            let u = choose|u: int| 0 <= u < fs.len() && fs[u] == old(store).tasks@[w];
            assert(fs[u].id == tid);
        }
    }
    Ok(())
}

} // verus!
