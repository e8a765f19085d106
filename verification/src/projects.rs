//! The project repository: list, lookup, create, delete.
//!
//! Deleting a project never fails and never touches the dependent tasks
//! beyond clearing their project reference, mirroring an on-delete-set-null
//! foreign key.

use vstd::prelude::*;
use crate::date::Timestamp;
use crate::error::DbError;
use crate::models::{CreateProjectInput, Project, Task};
use crate::seq_lemmas::lemma_filter_take_step;
use crate::store::{
    find_project_index, has_project_id, lemma_has_project_id_push, lemma_projects_ascending_push,
    projects_ascending, Store,
};

verus! {

/// All projects, newest created first.
pub fn get_all_projects(store: &Store) -> (r: Vec<Project>)
    ensures
        r@ == store.projects@.reverse(),
{
    let n = store.projects.len();
    let mut out: Vec<Project> = Vec::new();
    let mut i: usize = 0;
    while i < n
        invariant
            i <= n,
            n == store.projects@.len(),
            out@.len() == i,
            forall|k: int| 0 <= k < i ==> out@[k] == store.projects@[n - 1 - k],
        decreases n - i,
    {
        out.push(store.projects[n - 1 - i].clone());
        i = i + 1;
    }
    proof {
        assert(out@ =~= store.projects@.reverse());
    }
    out
}

/// The project carrying `project_id`; `NotFound` when no project does.
pub fn get_project_by_id(store: &Store, project_id: i64) -> (r: Result<Project, DbError>)
    ensures
        (r matches Ok(p) ==> exists|i: int|
            0 <= i < store.projects@.len() && (#[trigger] store.projects@[i]).id == project_id && p
                == store.projects@[i]),
        r is Ok <==> has_project_id(store.projects@, project_id),
        (r matches Err(e) ==> e == DbError::NotFound),
{
    match find_project_index(&store.projects, project_id) {
        Some(i) => Ok(store.projects[i].clone()),
        None => Err(DbError::NotFound),
    }
}

/// Creates a project with the next free identifier, stamping both
/// timestamps with `now`, and returns the materialized row.  Fails only
/// when the identifier space is exhausted.
pub fn create_project(store: &mut Store, input: &CreateProjectInput, now: Timestamp) -> (r: Result<
    Project,
    DbError,
>)
    requires
        old(store).wf(),
        now.valid(),
    ensures
        final(store).wf(),
        old(store).next_project_id < i64::MAX ==> (r matches Ok(p) && p == (Project {
            id: old(store).next_project_id,
            name: input.name,
            color: input.color,
            created_at: now,
            updated_at: now,
        }) && final(store).projects@ == old(store).projects@.push(p)
            && final(store).next_project_id == old(store).next_project_id + 1),
        old(store).next_project_id == i64::MAX ==> r == Err::<Project, DbError>(
            DbError::StorageFailure,
        ) && *final(store) == *old(store),
        final(store).tasks == old(store).tasks,
        final(store).sessions == old(store).sessions,
        final(store).settings == old(store).settings,
        final(store).schema_versions == old(store).schema_versions,
        final(store).next_task_id == old(store).next_task_id,
        final(store).next_session_id == old(store).next_session_id,
{
    if store.next_project_id == i64::MAX {
        return Err(DbError::StorageFailure);
    }
    let id = store.next_project_id;
    let row = Project {
        id,
        name: input.name.clone(),
        color: input.color.clone(),
        created_at: now,
        updated_at: now,
    };
    let out = row.clone();
    let ghost r0 = row;
    store.projects.push(row);
    store.next_project_id = id + 1;
    proof {
        let pre = old(store).projects@;
        lemma_projects_ascending_push(pre, r0);
        assert(store.projects@[pre.len() as int] == r0);
        assert forall|k: int|
            0 <= k < store.tasks@.len() && (#[trigger] store.tasks@[k]).project_id is Some implies has_project_id(
            store.projects@,
            store.tasks@[k].project_id->Some_0,
        ) by {
            lemma_has_project_id_push(pre, r0, store.tasks@[k].project_id->Some_0);
        }
    }
    Ok(out)
}

/// `t` with its project reference cleared when it pointed at `pid`.
pub open spec fn spec_detach_task(t: Task, pid: i64) -> Task {
    if t.project_id == Some(pid) {
        Task { project_id: None, ..t }
    } else {
        t
    }
}

/// Deletes the project carrying `project_id`, clearing the project
/// reference of every dependent task.  Deleting an absent identifier is a
/// silent no-op; the dependent tasks themselves always survive intact.
pub fn delete_project(store: &mut Store, project_id: i64) -> (r: Result<(), DbError>)
    requires
        old(store).wf(),
    ensures
        final(store).wf(),
        r == Ok::<(), DbError>(()),
        final(store).projects@ == old(store).projects@.filter(
            |p: Project| p.id != project_id,
        ),
        final(store).tasks@ == old(store).tasks@.map_values(
            |t: Task| spec_detach_task(t, project_id),
        ),
        final(store).sessions == old(store).sessions,
        final(store).settings == old(store).settings,
        final(store).schema_versions == old(store).schema_versions,
        final(store).next_project_id == old(store).next_project_id,
        final(store).next_task_id == old(store).next_task_id,
        final(store).next_session_id == old(store).next_session_id,
{
    let ghost pred = |p: Project| p.id != project_id;
    // Clear the project reference of the dependent tasks first.
    let m = store.tasks.len();
    let mut i: usize = 0;
    while i < m
        invariant
            i <= m,
            m == store.tasks@.len(),
            forall|k: int|
                0 <= k < i ==> store.tasks@[k] == spec_detach_task(
                    #[trigger] old(store).tasks@[k],
                    project_id,
                ),
            forall|k: int| i <= k < m ==> store.tasks@[k] == #[trigger] old(store).tasks@[k],
            store.projects == old(store).projects,
            store.sessions == old(store).sessions,
            store.settings == old(store).settings,
            store.schema_versions == old(store).schema_versions,
            store.next_project_id == old(store).next_project_id,
            store.next_task_id == old(store).next_task_id,
            store.next_session_id == old(store).next_session_id,
        decreases m - i,
    {
        let detach = match store.tasks[i].project_id {
            Some(pid) => pid == project_id,
            None => false,
        };
        if detach {
            store.tasks[i].project_id = None;
        }
        i = i + 1;
    }
    proof {
        assert(store.tasks@ =~= old(store).tasks@.map_values(
            |t: Task| spec_detach_task(t, project_id),
        ));
    }
    // Remove the project row itself.
    let n = store.projects.len();
    let mut kept: Vec<Project> = Vec::new();
    let mut j: usize = 0;
    while j < n
        invariant
            old(store).wf(),
            j <= n,
            n == store.projects@.len(),
            store.projects == old(store).projects,
            store.next_project_id == old(store).next_project_id,
            pred == (|p: Project| p.id != project_id),
            kept@ == store.projects@.take(j as int).filter(pred),
            projects_ascending(kept@),
            forall|k: int|
                0 <= k < kept@.len() ==> (#[trigger] kept@[k]).wf() && 1 <= kept@[k].id < store.next_project_id,
            kept@.len() > 0 && j > 0 ==> kept@.last().id <= store.projects@[j - 1].id,
        decreases n - j,
    {
        proof {
            lemma_filter_take_step(store.projects@, pred, j as int);
            if kept@.len() > 0 && j == 0 {
                reveal(Seq::filter);
                assert(store.projects@.take(0) =~= Seq::<Project>::empty());
                assert(false);
            }
        }
        if store.projects[j].id != project_id {
            let x = store.projects[j].clone();
            let ghost k0 = kept@;
            proof {
                assert(x == store.projects@[j as int]);
                assert forall|k: int| 0 <= k < k0.len() implies (#[trigger] k0[k]).id < x.id by {
                    assert(k0.last() == k0[k0.len() - 1]);
                    if k < k0.len() - 1 {
                        assert(k0[k].id < k0.last().id);
                    }
                    assert(k0.last().id <= store.projects@[j - 1].id);
                    assert(store.projects@[j - 1].id < store.projects@[j as int].id);
                }
                lemma_projects_ascending_push(k0, x);
            }
            kept.push(x);
            proof {
                assert(kept@ == k0.push(x));
                assert forall|k: int| 0 <= k < kept@.len() implies (#[trigger] kept@[k]).wf() && 1
                    <= kept@[k].id < store.next_project_id by {
                    if k < k0.len() {
                        assert(kept@[k] == k0[k]);
                    } else {
                        assert(kept@[k] == x);
                        assert(store.projects@[j as int].wf());
                    }
                }
            }
        }
        j = j + 1;
    }
    proof {
        assert(store.projects@.take(n as int) =~= store.projects@);
    }
    store.projects = kept;
    proof {
        // Every surviving task reference still resolves: the referenced
        // project was not the deleted one, so the filter kept it.
        assert forall|k: int|
            0 <= k < store.tasks@.len() && (#[trigger] store.tasks@[k]).project_id is Some implies has_project_id(
            store.projects@,
            store.tasks@[k].project_id->Some_0,
        ) by {
            let t0 = old(store).tasks@[k];
            assert(store.tasks@[k] == spec_detach_task(t0, project_id));
            let pid = store.tasks@[k].project_id->Some_0;
            assert(has_project_id(old(store).projects@, pid));
            let w = choose|w: int|
                0 <= w < old(store).projects@.len() && (#[trigger] old(store).projects@[w]).id
                    == pid;
            old(store).projects@.lemma_filter_contains(pred, w);
            let fs = old(store).projects@.filter(pred);
            assert(fs.contains(old(store).projects@[w]));
            let u = choose|u: int| 0 <= u < fs.len() && fs[u] == old(store).projects@[w];
            assert(fs[u].id == pid);
        }
    }
    Ok(())
}

} // verus!
