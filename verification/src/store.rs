//! The relational store: the tables of the durable layout held as explicit
//! rows, with the integrity rules the engine enforces stated as one
//! well-formedness invariant.
//!
//! Identifiers are assigned from per-table counters in strictly ascending
//! order, foreign keys always resolve or are null, the task completion
//! timestamp tracks the completion flag, and the settings singleton exists
//! exactly once the baseline migration has run.

use vstd::prelude::*;
use crate::error::DbError;
use crate::models::{Project, SessionRow, SettingsRow, Task, VersionRow};

verus! {

/// Project identifiers appear in strictly ascending order.
pub open spec fn projects_ascending(s: Seq<Project>) -> bool {
    forall|i: int, j: int| 0 <= i < j < s.len() ==> (#[trigger] s[i]).id < (#[trigger] s[j]).id
}

/// Task identifiers appear in strictly ascending order.
pub open spec fn tasks_ascending(s: Seq<Task>) -> bool {
    forall|i: int, j: int| 0 <= i < j < s.len() ==> (#[trigger] s[i]).id < (#[trigger] s[j]).id
}

/// Session identifiers appear in strictly ascending order.
pub open spec fn sessions_ascending(s: Seq<SessionRow>) -> bool {
    forall|i: int, j: int| 0 <= i < j < s.len() ==> (#[trigger] s[i]).id < (#[trigger] s[j]).id
}

/// Schema versions were recorded in strictly ascending order.
pub open spec fn versions_ascending(s: Seq<VersionRow>) -> bool {
    forall|i: int, j: int|
        0 <= i < j < s.len() ==> (#[trigger] s[i]).version < (#[trigger] s[j]).version
}

/// Some project carries identifier `id`.
pub open spec fn has_project_id(s: Seq<Project>, id: i64) -> bool {
    exists|i: int| 0 <= i < s.len() && (#[trigger] s[i]).id == id
}

/// Some task carries identifier `id`.
pub open spec fn has_task_id(s: Seq<Task>, id: i64) -> bool {
    exists|i: int| 0 <= i < s.len() && (#[trigger] s[i]).id == id
}

/// Some session carries identifier `id`.
pub open spec fn has_session_id(s: Seq<SessionRow>, id: i64) -> bool {
    exists|i: int| 0 <= i < s.len() && (#[trigger] s[i]).id == id
}

/// Appending a row whose identifier exceeds every present one keeps the
/// project identifiers ascending.
pub proof fn lemma_projects_ascending_push(s: Seq<Project>, p: Project)
    requires
        projects_ascending(s),
        forall|i: int| 0 <= i < s.len() ==> (#[trigger] s[i]).id < p.id,
    ensures
        projects_ascending(s.push(p)),
{
    assert forall|i: int, j: int| 0 <= i < j < s.push(p).len() implies (#[trigger] s.push(p)[i]).id
        < (#[trigger] s.push(p)[j]).id by {
        assert(s.push(p)[i] == s[i]);
        if j < s.len() {
            assert(s.push(p)[j] == s[j]);
        } else {
            assert(s.push(p)[j] == p);
        }
    }
}

/// Appending a row whose identifier exceeds every present one keeps the
/// task identifiers ascending.
pub proof fn lemma_tasks_ascending_push(s: Seq<Task>, t: Task)
    requires
        tasks_ascending(s),
        forall|i: int| 0 <= i < s.len() ==> (#[trigger] s[i]).id < t.id,
    ensures
        tasks_ascending(s.push(t)),
{
    assert forall|i: int, j: int| 0 <= i < j < s.push(t).len() implies (#[trigger] s.push(t)[i]).id
        < (#[trigger] s.push(t)[j]).id by {
        assert(s.push(t)[i] == s[i]);
        if j < s.len() {
            assert(s.push(t)[j] == s[j]);
        } else {
            assert(s.push(t)[j] == t);
        }
    }
}

/// Appending a row whose identifier exceeds every present one keeps the
/// session identifiers ascending.
pub proof fn lemma_sessions_ascending_push(s: Seq<SessionRow>, row: SessionRow)
    requires
        sessions_ascending(s),
        forall|i: int| 0 <= i < s.len() ==> (#[trigger] s[i]).id < row.id,
    ensures
        sessions_ascending(s.push(row)),
{
    assert forall|i: int, j: int|
        0 <= i < j < s.push(row).len() implies (#[trigger] s.push(row)[i]).id < (#[trigger] s.push(
        row,
    )[j]).id by {
        assert(s.push(row)[i] == s[i]);
        if j < s.len() {
            assert(s.push(row)[j] == s[j]);
        } else {
            assert(s.push(row)[j] == row);
        }
    }
}

/// An identifier present among the projects stays present after a push.
pub proof fn lemma_has_project_id_push(s: Seq<Project>, p: Project, id: i64)
    requires
        has_project_id(s, id),
    ensures
        has_project_id(s.push(p), id),
{
    let w = choose|w: int| 0 <= w < s.len() && (#[trigger] s[w]).id == id;
    assert(s.push(p)[w] == s[w]);
}

/// An identifier present among the tasks stays present after a push.
pub proof fn lemma_has_task_id_push(s: Seq<Task>, t: Task, id: i64)
    requires
        has_task_id(s, id),
    ensures
        has_task_id(s.push(t), id),
{
    let w = choose|w: int| 0 <= w < s.len() && (#[trigger] s[w]).id == id;
    assert(s.push(t)[w] == s[w]);
}

/// Replacing a row by one with the same identifier keeps the task
/// identifiers ascending.
pub proof fn lemma_tasks_ascending_update(s: Seq<Task>, i: int, t: Task)
    requires
        tasks_ascending(s),
        0 <= i < s.len(),
        t.id == s[i].id,
    ensures
        tasks_ascending(s.update(i, t)),
{
    let u = s.update(i, t);
    assert forall|a: int, b: int| 0 <= a < b < u.len() implies (#[trigger] u[a]).id < (
    #[trigger] u[b]).id by {
        assert(u[a] == if a == i {
            t
        } else {
            s[a]
        });
        assert(u[b] == if b == i {
            t
        } else {
            s[b]
        });
    }
}

/// Replacing a row by one with the same identifier keeps every task
/// identifier present.
pub proof fn lemma_has_task_id_update(s: Seq<Task>, i: int, t: Task, id: i64)
    requires
        has_task_id(s, id),
        0 <= i < s.len(),
        t.id == s[i].id,
    ensures
        has_task_id(s.update(i, t), id),
{
    let w = choose|w: int| 0 <= w < s.len() && (#[trigger] s[w]).id == id;
    if w == i {
        assert(s.update(i, t)[i] == t);
    } else {
        assert(s.update(i, t)[w] == s[w]);
    }
}

/// Replacing a row by one with the same identifier keeps the session
/// identifiers ascending.
pub proof fn lemma_sessions_ascending_update(s: Seq<SessionRow>, i: int, row: SessionRow)
    requires
        sessions_ascending(s),
        0 <= i < s.len(),
        row.id == s[i].id,
    ensures
        sessions_ascending(s.update(i, row)),
{
    let u = s.update(i, row);
    assert forall|a: int, b: int| 0 <= a < b < u.len() implies (#[trigger] u[a]).id < (
    #[trigger] u[b]).id by {
        assert(u[a] == if a == i {
            row
        } else {
            s[a]
        });
        assert(u[b] == if b == i {
            row
        } else {
            s[b]
        });
    }
}

/// The whole state of the embedded store.
#[derive(Debug)]
pub struct Store {
    pub projects: Vec<Project>,
    pub tasks: Vec<Task>,
    pub sessions: Vec<SessionRow>,
    pub settings: Option<SettingsRow>,
    pub schema_versions: Vec<VersionRow>,
    pub next_project_id: i64,
    pub next_task_id: i64,
    pub next_session_id: i64,
}

impl Store {
    /// The highest applied schema version; zero for an empty tracking table.
    pub open spec fn current_version(self) -> int {
        if self.schema_versions@.len() == 0 {
            0
        } else {
            self.schema_versions@.last().version as int
        }
    }

    /// The integrity rules that every operation preserves.
    pub open spec fn wf(self) -> bool {
        &&& projects_ascending(self.projects@)
        &&& tasks_ascending(self.tasks@)
        &&& sessions_ascending(self.sessions@)
        &&& versions_ascending(self.schema_versions@)
        &&& 1 <= self.next_project_id
        &&& 1 <= self.next_task_id
        &&& 1 <= self.next_session_id
        &&& forall|i: int|
            0 <= i < self.projects@.len() ==> (#[trigger] self.projects@[i]).wf() && 1
                <= self.projects@[i].id < self.next_project_id
        &&& forall|i: int|
            0 <= i < self.tasks@.len() ==> (#[trigger] self.tasks@[i]).wf() && 1
                <= self.tasks@[i].id < self.next_task_id && (self.tasks@[i].project_id matches Some(
                pid,
            ) ==> has_project_id(self.projects@, pid))
        &&& forall|i: int|
            0 <= i < self.sessions@.len() ==> (#[trigger] self.sessions@[i]).wf() && 1
                <= self.sessions@[i].id < self.next_session_id && (
            self.sessions@[i].task_id matches Some(tid) ==> has_task_id(self.tasks@, tid))
        &&& forall|i: int|
            0 <= i < self.schema_versions@.len() ==> 1 <= (
            #[trigger] self.schema_versions@[i]).version && self.schema_versions@[i].applied_at.valid()
        &&& (self.settings matches Some(row) ==> row.wf())
        &&& (self.settings is Some <==> self.current_version() >= 1)
    }

    /// A fresh, empty store, as a newly opened volatile database: no rows,
    /// no applied schema version.
    pub fn new() -> (r: Store)
        ensures
            r.wf(),
            r.projects@ == Seq::<Project>::empty(),
            r.tasks@ == Seq::<Task>::empty(),
            r.sessions@ == Seq::<SessionRow>::empty(),
            r.settings is None,
            r.schema_versions@ == Seq::<VersionRow>::empty(),
            r.current_version() == 0,
            r.next_project_id == 1,
            r.next_task_id == 1,
            r.next_session_id == 1,
    {
        Store {
            projects: Vec::new(),
            tasks: Vec::new(),
            sessions: Vec::new(),
            settings: None,
            schema_versions: Vec::new(),
            next_project_id: 1,
            next_task_id: 1,
            next_session_id: 1,
        }
    }
}

/// What a set of externally loaded rows must satisfy to be a well-formed
/// store: exactly the invariants the engine's constraints would have
/// enforced, checked again because a durable file can drift.
pub open spec fn spec_restorable(
    projects: Seq<Project>,
    tasks: Seq<Task>,
    sessions: Seq<SessionRow>,
    settings: Option<SettingsRow>,
    versions: Seq<VersionRow>,
) -> bool {
    &&& projects_ascending(projects)
    &&& forall|k: int|
        0 <= k < projects.len() ==> (#[trigger] projects[k]).wf() && 1 <= projects[k].id
            < i64::MAX
    &&& tasks_ascending(tasks)
    &&& forall|k: int|
        0 <= k < tasks.len() ==> (#[trigger] tasks[k]).wf() && 1 <= tasks[k].id < i64::MAX && (
        tasks[k].project_id matches Some(pid) ==> has_project_id(projects, pid))
    &&& sessions_ascending(sessions)
    &&& forall|k: int|
        0 <= k < sessions.len() ==> (#[trigger] sessions[k]).wf() && 1 <= sessions[k].id
            < i64::MAX && (sessions[k].task_id matches Some(tid) ==> has_task_id(tasks, tid))
    &&& versions_ascending(versions)
    &&& forall|k: int|
        0 <= k < versions.len() ==> 1 <= (#[trigger] versions[k]).version
            && versions[k].applied_at.valid()
    &&& (settings matches Some(row) ==> row.wf())
    &&& (settings is Some <==> (if versions.len() == 0 {
        0int
    } else {
        versions.last().version as int
    }) >= 1)
}

/// Checks the loaded project rows: well-formed fields and strictly
/// ascending identifiers below the identifier-space ceiling.
fn check_projects(projects: &Vec<Project>) -> (r: bool)
    ensures
        r == (projects_ascending(projects@) && (forall|k: int|
            0 <= k < projects@.len() ==> (#[trigger] projects@[k]).wf() && 1 <= projects@[k].id
                < i64::MAX)),
{
    let n = projects.len();
    let mut i: usize = 0;
    while i < n
        invariant
            i <= n,
            n == projects@.len(),
            projects_ascending(projects@.take(i as int)),
            forall|k: int|
                0 <= k < i ==> (#[trigger] projects@[k]).wf() && 1 <= projects@[k].id < i64::MAX,
        decreases n - i,
    {
        let p = &projects[i];
        if !(p.created_at.check_valid() && p.updated_at.check_valid() && 1 <= p.id && p.id
            < i64::MAX) {
            return false;
        }
        if i > 0 && projects[i - 1].id >= p.id {
            return false;
        }
        proof {
            let t1 = projects@.take(i as int + 1);
            assert forall|a: int, b: int| 0 <= a < b < t1.len() implies (#[trigger] t1[a]).id < (
            #[trigger] t1[b]).id by {
                assert(t1[a] == projects@[a]);
                assert(t1[b] == projects@[b]);
                if b < i as int {
                    assert(projects@.take(i as int)[a] == projects@[a]);
                    assert(projects@.take(i as int)[b] == projects@[b]);
                } else if a < i - 1 {
                    assert(projects@.take(i as int)[a] == projects@[a]);
                    assert(projects@.take(i as int)[i - 1] == projects@[i - 1]);
                }
            }
        }
        i = i + 1;
    }
    proof {
        assert(projects@.take(n as int) =~= projects@);
    }
    true
}

/// Checks the loaded task rows: well-formed fields, ascending identifiers,
/// and project references that resolve.
fn check_tasks(tasks: &Vec<Task>, projects: &Vec<Project>) -> (r: bool)
    ensures
        r == (tasks_ascending(tasks@) && (forall|k: int|
            0 <= k < tasks@.len() ==> (#[trigger] tasks@[k]).wf() && 1 <= tasks@[k].id < i64::MAX
                && (tasks@[k].project_id matches Some(pid) ==> has_project_id(projects@, pid)))),
{
    let n = tasks.len();
    let mut i: usize = 0;
    while i < n
        invariant
            i <= n,
            n == tasks@.len(),
            tasks_ascending(tasks@.take(i as int)),
            forall|k: int|
                0 <= k < i ==> (#[trigger] tasks@[k]).wf() && 1 <= tasks@[k].id < i64::MAX && (
                tasks@[k].project_id matches Some(pid) ==> has_project_id(projects@, pid)),
        decreases n - i,
    {
        let t = &tasks[i];
        let fields_ok = t.created_at.check_valid() && t.updated_at.check_valid() && (
        match &t.completed_at {
            Some(ts) => ts.check_valid(),
            None => true,
        }) && (t.completed_at.is_some() == t.is_completed) && t.estimated_pomodoros >= 0
            && t.completed_pomodoros >= 0 && 1 <= t.id && t.id < i64::MAX;
        if !fields_ok {
            return false;
        }
        let fk_ok = match t.project_id {
            Some(pid) => match find_project_index(projects, pid) {
                Some(_) => true,
                None => false,
            },
            None => true,
        };
        if !fk_ok {
            return false;
        }
        if i > 0 && tasks[i - 1].id >= t.id {
            return false;
        }
        proof {
            let t1 = tasks@.take(i as int + 1);
            assert forall|a: int, b: int| 0 <= a < b < t1.len() implies (#[trigger] t1[a]).id < (
            #[trigger] t1[b]).id by {
                assert(t1[a] == tasks@[a]);
                assert(t1[b] == tasks@[b]);
                if b < i as int {
                    assert(tasks@.take(i as int)[a] == tasks@[a]);
                    assert(tasks@.take(i as int)[b] == tasks@[b]);
                } else if a < i - 1 {
                    assert(tasks@.take(i as int)[a] == tasks@[a]);
                    assert(tasks@.take(i as int)[i - 1] == tasks@[i - 1]);
                }
            }
        }
        i = i + 1;
    }
    proof {
        assert(tasks@.take(n as int) =~= tasks@);
    }
    true
}

/// Checks the loaded session rows: well-formed fields, ascending
/// identifiers, and task references that resolve.  The session-type text is
/// deliberately not checked here: decoding it is the read boundary's job.
fn check_sessions(sessions: &Vec<SessionRow>, tasks: &Vec<Task>) -> (r: bool)
    ensures
        r == (sessions_ascending(sessions@) && (forall|k: int|
            0 <= k < sessions@.len() ==> (#[trigger] sessions@[k]).wf() && 1 <= sessions@[k].id
                < i64::MAX && (sessions@[k].task_id matches Some(tid) ==> has_task_id(
                tasks@,
                tid,
            )))),
{
    let n = sessions.len();
    let mut i: usize = 0;
    while i < n
        invariant
            i <= n,
            n == sessions@.len(),
            sessions_ascending(sessions@.take(i as int)),
            forall|k: int|
                0 <= k < i ==> (#[trigger] sessions@[k]).wf() && 1 <= sessions@[k].id < i64::MAX
                    && (sessions@[k].task_id matches Some(tid) ==> has_task_id(tasks@, tid)),
        decreases n - i,
    {
        let s = &sessions[i];
        let fields_ok = s.started_at.check_valid() && (match &s.completed_at {
            Some(ts) => ts.check_valid(),
            None => true,
        }) && s.duration_minutes >= 1 && 1 <= s.id && s.id < i64::MAX;
        if !fields_ok {
            return false;
        }
        let fk_ok = match s.task_id {
            Some(tid) => match find_task_index(tasks, tid) {
                Some(_) => true,
                None => false,
            },
            None => true,
        };
        if !fk_ok {
            return false;
        }
        if i > 0 && sessions[i - 1].id >= s.id {
            return false;
        }
        proof {
            let t1 = sessions@.take(i as int + 1);
            assert forall|a: int, b: int| 0 <= a < b < t1.len() implies (#[trigger] t1[a]).id < (
            #[trigger] t1[b]).id by {
                assert(t1[a] == sessions@[a]);
                assert(t1[b] == sessions@[b]);
                if b < i as int {
                    assert(sessions@.take(i as int)[a] == sessions@[a]);
                    assert(sessions@.take(i as int)[b] == sessions@[b]);
                } else if a < i - 1 {
                    assert(sessions@.take(i as int)[a] == sessions@[a]);
                    assert(sessions@.take(i as int)[i - 1] == sessions@[i - 1]);
                }
            }
        }
        i = i + 1;
    }
    proof {
        assert(sessions@.take(n as int) =~= sessions@);
    }
    true
}

/// Checks the loaded schema-version history: positive versions recorded in
/// strictly ascending order, each with a well-formed timestamp.
fn check_versions(versions: &Vec<VersionRow>) -> (r: bool)
    ensures
        r == (versions_ascending(versions@) && (forall|k: int|
            0 <= k < versions@.len() ==> 1 <= (#[trigger] versions@[k]).version
                && versions@[k].applied_at.valid())),
{
    let n = versions.len();
    let mut i: usize = 0;
    while i < n
        invariant
            i <= n,
            n == versions@.len(),
            versions_ascending(versions@.take(i as int)),
            forall|k: int|
                0 <= k < i ==> 1 <= (#[trigger] versions@[k]).version
                    && versions@[k].applied_at.valid(),
        decreases n - i,
    {
        let v = &versions[i];
        if !(1 <= v.version && v.applied_at.check_valid()) {
            return false;
        }
        if i > 0 && versions[i - 1].version >= v.version {
            return false;
        }
        proof {
            let t1 = versions@.take(i as int + 1);
            assert forall|a: int, b: int|
                0 <= a < b < t1.len() implies (#[trigger] t1[a]).version < (
            #[trigger] t1[b]).version by {
                assert(t1[a] == versions@[a]);
                assert(t1[b] == versions@[b]);
                if b < i as int {
                    assert(versions@.take(i as int)[a] == versions@[a]);
                    assert(versions@.take(i as int)[b] == versions@[b]);
                } else if a < i - 1 {
                    assert(versions@.take(i as int)[a] == versions@[a]);
                    assert(versions@.take(i as int)[i - 1] == versions@[i - 1]);
                }
            }
        }
        i = i + 1;
    }
    proof {
        assert(versions@.take(n as int) =~= versions@);
    }
    true
}

impl Store {
    /// Rebuilds a store from rows read back from durable storage, checking
    /// again every invariant the engine's constraints would have enforced;
    /// rows that drifted from them are data corruption.  The identifier
    /// counters resume after the highest identifier of each table.
    pub fn restore(
        projects: Vec<Project>,
        tasks: Vec<Task>,
        sessions: Vec<SessionRow>,
        settings: Option<SettingsRow>,
        schema_versions: Vec<VersionRow>,
    ) -> (r: Result<Store, DbError>)
        ensures
            (r matches Ok(s) ==> s.wf() && s.projects@ == projects@ && s.tasks@ == tasks@
                && s.sessions@ == sessions@ && s.settings == settings && s.schema_versions@
                == schema_versions@),
            r is Ok <==> spec_restorable(projects@, tasks@, sessions@, settings, schema_versions@),
            (r matches Err(e) ==> e == DbError::DataCorruption),
    {
        if !check_projects(&projects) {
            return Err(DbError::DataCorruption);
        }
        if !check_tasks(&tasks, &projects) {
            return Err(DbError::DataCorruption);
        }
        if !check_sessions(&sessions, &tasks) {
            return Err(DbError::DataCorruption);
        }
        if !check_versions(&schema_versions) {
            return Err(DbError::DataCorruption);
        }
        let settings_ok = match &settings {
            Some(row) => row.settings.check_wf() && row.updated_at.check_valid(),
            None => true,
        };
        if !settings_ok {
            return Err(DbError::DataCorruption);
        }
        let current: i64 = if schema_versions.len() == 0 {
            0
        } else {
            schema_versions[schema_versions.len() - 1].version
        };
        if settings.is_some() != (current >= 1) {
            return Err(DbError::DataCorruption);
        }
        let next_project_id = if projects.len() == 0 {
            1
        } else {
            projects[projects.len() - 1].id + 1
        };
        let next_task_id = if tasks.len() == 0 {
            1
        } else {
            tasks[tasks.len() - 1].id + 1
        };
        let next_session_id = if sessions.len() == 0 {
            1
        } else {
            sessions[sessions.len() - 1].id + 1
        };
        let s = Store {
            projects,
            tasks,
            sessions,
            settings,
            schema_versions,
            next_project_id,
            next_task_id,
            next_session_id,
        };
        proof {
            assert forall|k: int| 0 <= k < s.projects@.len() implies (#[trigger] s.projects@[k]).id
                < s.next_project_id by {
                if k < s.projects@.len() - 1 {
                    assert(s.projects@[k].id < s.projects@[s.projects@.len() - 1].id);
                }
            }
            assert forall|k: int| 0 <= k < s.tasks@.len() implies (#[trigger] s.tasks@[k]).id
                < s.next_task_id by {
                if k < s.tasks@.len() - 1 {
                    assert(s.tasks@[k].id < s.tasks@[s.tasks@.len() - 1].id);
                }
            }
            assert forall|k: int| 0 <= k < s.sessions@.len() implies (#[trigger] s.sessions@[k]).id
                < s.next_session_id by {
                if k < s.sessions@.len() - 1 {
                    assert(s.sessions@[k].id < s.sessions@[s.sessions@.len() - 1].id);
                }
            }
        }
        Ok(s)
    }
}

/// The position of the project carrying `id`, if any.
pub fn find_project_index(projects: &Vec<Project>, id: i64) -> (r: Option<usize>)
    ensures
        (r matches Some(i) ==> i < projects@.len() && projects@[i as int].id == id),
        r is None <==> !has_project_id(projects@, id),
{
    let n = projects.len();
    let mut i: usize = 0;
    while i < n
        invariant
            i <= n,
            n == projects@.len(),
            forall|j: int| 0 <= j < i ==> (#[trigger] projects@[j]).id != id,
        decreases n - i,
    {
        if projects[i].id == id {
            return Some(i);
        }
        i = i + 1;
    }
    None
}

/// The position of the task carrying `id`, if any.
pub fn find_task_index(tasks: &Vec<Task>, id: i64) -> (r: Option<usize>)
    ensures
        (r matches Some(i) ==> i < tasks@.len() && tasks@[i as int].id == id),
        r is None <==> !has_task_id(tasks@, id),
{
    let n = tasks.len();
    let mut i: usize = 0;
    while i < n
        invariant
            i <= n,
            n == tasks@.len(),
            forall|j: int| 0 <= j < i ==> (#[trigger] tasks@[j]).id != id,
        decreases n - i,
    {
        if tasks[i].id == id {
            return Some(i);
        }
        i = i + 1;
    }
    None
}

/// The position of the session carrying `id`, if any.
pub fn find_session_index(sessions: &Vec<SessionRow>, id: i64) -> (r: Option<usize>)
    ensures
        (r matches Some(i) ==> i < sessions@.len() && sessions@[i as int].id == id),
        r is None <==> !has_session_id(sessions@, id),
{
    let n = sessions.len();
    let mut i: usize = 0;
    while i < n
        invariant
            i <= n,
            n == sessions@.len(),
            forall|j: int| 0 <= j < i ==> (#[trigger] sessions@[j]).id != id,
        decreases n - i,
    {
        if sessions[i].id == id {
            return Some(i);
        }
        i = i + 1;
    }
    None
}

} // verus!
