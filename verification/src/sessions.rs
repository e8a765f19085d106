//! The session repository: create, complete, interrupt, lookup, the
//! date-range listing, and the per-date aggregates over completed,
//! non-interrupted work sessions.
//!
//! Completing or interrupting is a one-way transition: a session that
//! already carries a completion timestamp rejects a second transition with a
//! constraint violation, so the first outcome's interrupted flag is never
//! overwritten.

use vstd::prelude::*;
use vstd::string::StringExecFns;
use crate::date::{Date, Timestamp};
use crate::error::DbError;
use crate::models::{
    lemma_session_type_round_trip, spec_session_type_str, str_matches, CreateSessionInput,
    PomodoroSession, SessionRow,
};
use crate::seq_lemmas::{lemma_filter_subset, lemma_filter_take_step, lemma_insert_multiset};
use crate::store::{
    find_session_index, find_task_index, has_session_id, lemma_sessions_ascending_push,
    lemma_sessions_ascending_update, Store,
};

verus! {

/// Whether the calendar date of `row`'s start lies in `[d0, d1]`.
pub open spec fn spec_in_range(row: SessionRow, d0: Date, d1: Date) -> bool {
    d0.spec_le(row.started_at.date) && row.started_at.date.spec_le(d1)
}

/// The stored sessions whose start date lies in `[d0, d1]`, in storage
/// order.
pub open spec fn spec_range_rows(s: Seq<SessionRow>, d0: Date, d1: Date) -> Seq<SessionRow> {
    s.filter(|row: SessionRow| spec_in_range(row, d0, d1))
}

/// A completed, non-interrupted work session started on date `d`.
pub open spec fn spec_is_completed_work(row: SessionRow, d: Date) -> bool {
    &&& row.started_at.date == d
    &&& row.completed_at is Some
    &&& !row.interrupted
    &&& row.session_type@ == "work"@
}

/// The completed, non-interrupted work sessions of date `d`, in storage
/// order.
pub open spec fn spec_work_rows(s: Seq<SessionRow>, d: Date) -> Seq<SessionRow> {
    s.filter(|row: SessionRow| spec_is_completed_work(row, d))
}

/// The sum of the durations of the given rows.
pub open spec fn spec_sum_durations(s: Seq<SessionRow>) -> int
    decreases s.len(),
{
    if s.len() == 0 {
        0
    } else {
        spec_sum_durations(s.drop_last()) + s.last().duration_minutes
    }
}

/// `row` closed by normal completion at time `now`.
pub open spec fn spec_completed_row(row: SessionRow, now: Timestamp) -> SessionRow {
    SessionRow { completed_at: Some(now), interrupted: false, ..row }
}

/// `row` closed by interruption at time `now`.
pub open spec fn spec_interrupted_row(row: SessionRow, now: Timestamp) -> SessionRow {
    SessionRow { completed_at: Some(now), interrupted: true, ..row }
}

/// The callers' view of a result sorted newest-started-first.
pub open spec fn spec_sorted_desc(v: Seq<PomodoroSession>) -> bool {
    forall|a: int, b: int|
        0 <= a < b < v.len() ==> (#[trigger] v[b]).started_at.spec_le(
            (#[trigger] v[a]).started_at,
        )
}

/// Creates a session with the next free identifier, stamping `started_at`
/// with `now`; it starts open and not interrupted.  A non-positive duration
/// or an unresolvable task reference is a constraint violation; an
/// exhausted identifier space is a storage failure.
pub fn create_session(store: &mut Store, input: &CreateSessionInput, now: Timestamp) -> (r: Result<
    PomodoroSession,
    DbError,
>)
    requires
        old(store).wf(),
        now.valid(),
    ensures
        final(store).wf(),
        input.duration_minutes < 1 || (input.task_id matches Some(t) && !crate::store::has_task_id(
            old(store).tasks@,
            t,
        )) ==> r == Err::<PomodoroSession, DbError>(DbError::ConstraintViolation) && *final(store)
            == *old(store),
        input.duration_minutes >= 1 && (input.task_id matches Some(t) ==> crate::store::has_task_id(
            old(store).tasks@,
            t,
        )) && old(store).next_session_id == i64::MAX ==> r == Err::<PomodoroSession, DbError>(
            DbError::StorageFailure,
        ) && *final(store) == *old(store),
        input.duration_minutes >= 1 && (input.task_id matches Some(t) ==> crate::store::has_task_id(
            old(store).tasks@,
            t,
        )) && old(store).next_session_id < i64::MAX ==> (r matches Ok(s) && s == (PomodoroSession {
            id: old(store).next_session_id,
            task_id: input.task_id,
            started_at: now,
            completed_at: None,
            duration_minutes: input.duration_minutes,
            session_type: input.session_type,
            interrupted: false,
        }) && ({
            let row = final(store).sessions@.last();
            &&& final(store).sessions@ == old(store).sessions@.push(row)
            &&& row.id == old(store).next_session_id
            &&& row.task_id == input.task_id
            &&& row.started_at == now
            &&& row.completed_at is None
            &&& row.duration_minutes == input.duration_minutes
            &&& row.session_type@ == spec_session_type_str(input.session_type)
            &&& !row.interrupted
            &&& row.type_ok()
        }) && final(store).next_session_id == old(store).next_session_id + 1),
        final(store).projects == old(store).projects,
        final(store).tasks == old(store).tasks,
        final(store).settings == old(store).settings,
        final(store).schema_versions == old(store).schema_versions,
        final(store).next_project_id == old(store).next_project_id,
        final(store).next_task_id == old(store).next_task_id,
{
    if input.duration_minutes < 1 {
        return Err(DbError::ConstraintViolation);
    }
    let fk_ok = match input.task_id {
        Some(t) => match find_task_index(&store.tasks, t) {
            Some(_) => true,
            None => false,
        },
        None => true,
    };
    if !fk_ok {
        return Err(DbError::ConstraintViolation);
    }
    if store.next_session_id == i64::MAX {
        return Err(DbError::StorageFailure);
    }
    let id = store.next_session_id;
    let row = SessionRow {
        id,
        task_id: input.task_id,
        started_at: now,
        completed_at: None,
        duration_minutes: input.duration_minutes,
        session_type: input.session_type.as_str().to_owned(),
        interrupted: false,
    };
    let ghost r0 = row;
    store.sessions.push(row);
    store.next_session_id = id + 1;
    proof {
        let pre = old(store).sessions@;
        lemma_sessions_ascending_push(pre, r0);
        assert(store.sessions@[pre.len() as int] == r0);
        lemma_session_type_round_trip(input.session_type);
    }
    Ok(
        PomodoroSession {
            id,
            task_id: input.task_id,
            started_at: now,
            completed_at: None,
            duration_minutes: input.duration_minutes,
            session_type: input.session_type,
            interrupted: false,
        },
    )
}

/// The session carrying `session_id`, decoded: `NotFound` when absent, data
/// corruption when its stored session-type text is outside the closed
/// enumeration.
pub fn get_session_by_id(store: &Store, session_id: i64) -> (r: Result<PomodoroSession, DbError>)
    ensures
        !has_session_id(store.sessions@, session_id) ==> r == Err::<PomodoroSession, DbError>(
            DbError::NotFound,
        ),
        has_session_id(store.sessions@, session_id) ==> exists|i: int|
            0 <= i < store.sessions@.len() && (#[trigger] store.sessions@[i]).id == session_id && (
            if store.sessions@[i].type_ok() {
                r == Ok::<PomodoroSession, DbError>(store.sessions@[i].spec_decode())
            } else {
                r == Err::<PomodoroSession, DbError>(DbError::DataCorruption)
            }),
{
    match find_session_index(&store.sessions, session_id) {
        Some(i) => store.sessions[i].decode(),
        None => Err(DbError::NotFound),
    }
}

/// Closes the open session carrying `session_id` by normal completion:
/// `completed_at` becomes `now` and the interrupted flag is cleared.  An
/// absent identifier is `NotFound`; a session already closed rejects the
/// second transition as a constraint violation; a stored session-type text
/// outside the closed enumeration is data corruption, found before any
/// write.
pub fn complete_session(store: &mut Store, session_id: i64, now: Timestamp) -> (r: Result<
    PomodoroSession,
    DbError,
>)
    requires
        old(store).wf(),
        now.valid(),
    ensures
        final(store).wf(),
        !has_session_id(old(store).sessions@, session_id) ==> r == Err::<PomodoroSession, DbError>(
            DbError::NotFound,
        ) && *final(store) == *old(store),
        has_session_id(old(store).sessions@, session_id) ==> exists|i: int|
            0 <= i < old(store).sessions@.len() && (#[trigger] old(store).sessions@[i]).id
                == session_id && ({
                let row = old(store).sessions@[i];
                if !row.is_open() {
                    r == Err::<PomodoroSession, DbError>(DbError::ConstraintViolation)
                        && *final(store) == *old(store)
                } else if !row.type_ok() {
                    r == Err::<PomodoroSession, DbError>(DbError::DataCorruption) && *final(store)
                        == *old(store)
                } else {
                    r == Ok::<PomodoroSession, DbError>(spec_completed_row(row, now).spec_decode())
                        && final(store).sessions@ == old(store).sessions@.update(
                        i,
                        spec_completed_row(row, now),
                    )
                }
            }),
        (r matches Ok(s) ==> s.completed_at == Some(now) && !s.interrupted && s.id
            == session_id),
        final(store).projects == old(store).projects,
        final(store).tasks == old(store).tasks,
        final(store).settings == old(store).settings,
        final(store).schema_versions == old(store).schema_versions,
        final(store).next_project_id == old(store).next_project_id,
        final(store).next_task_id == old(store).next_task_id,
        final(store).next_session_id == old(store).next_session_id,
{
    close_session(store, session_id, now, false)
}

/// Closes the open session carrying `session_id` by interruption:
/// `completed_at` becomes `now` and the interrupted flag is set.  Failures
/// are as for completion, and a closed session likewise rejects the second
/// transition.
pub fn interrupt_session(store: &mut Store, session_id: i64, now: Timestamp) -> (r: Result<
    PomodoroSession,
    DbError,
>)
    requires
        old(store).wf(),
        now.valid(),
    ensures
        final(store).wf(),
        !has_session_id(old(store).sessions@, session_id) ==> r == Err::<PomodoroSession, DbError>(
            DbError::NotFound,
        ) && *final(store) == *old(store),
        has_session_id(old(store).sessions@, session_id) ==> exists|i: int|
            0 <= i < old(store).sessions@.len() && (#[trigger] old(store).sessions@[i]).id
                == session_id && ({
                let row = old(store).sessions@[i];
                if !row.is_open() {
                    r == Err::<PomodoroSession, DbError>(DbError::ConstraintViolation)
                        && *final(store) == *old(store)
                } else if !row.type_ok() {
                    r == Err::<PomodoroSession, DbError>(DbError::DataCorruption) && *final(store)
                        == *old(store)
                } else {
                    r == Ok::<PomodoroSession, DbError>(
                        spec_interrupted_row(row, now).spec_decode(),
                    ) && final(store).sessions@ == old(store).sessions@.update(
                        i,
                        spec_interrupted_row(row, now),
                    )
                }
            }),
        (r matches Ok(s) ==> s.completed_at == Some(now) && s.interrupted && s.id
            == session_id),
        final(store).projects == old(store).projects,
        final(store).tasks == old(store).tasks,
        final(store).settings == old(store).settings,
        final(store).schema_versions == old(store).schema_versions,
        final(store).next_project_id == old(store).next_project_id,
        final(store).next_task_id == old(store).next_task_id,
        final(store).next_session_id == old(store).next_session_id,
{
    close_session(store, session_id, now, true)
}

/// The shared one-way closing transition: rejects an absent or already
/// closed session, finds corruption before writing, and otherwise stamps
/// the completion timestamp and the interrupted flag.
fn close_session(store: &mut Store, session_id: i64, now: Timestamp, interrupted: bool) -> (r:
    Result<PomodoroSession, DbError>)
    requires
        old(store).wf(),
        now.valid(),
    ensures
        final(store).wf(),
        !has_session_id(old(store).sessions@, session_id) ==> r == Err::<PomodoroSession, DbError>(
            DbError::NotFound,
        ) && *final(store) == *old(store),
        has_session_id(old(store).sessions@, session_id) ==> exists|i: int|
            0 <= i < old(store).sessions@.len() && (#[trigger] old(store).sessions@[i]).id
                == session_id && ({
                let row = old(store).sessions@[i];
                let closed = if interrupted {
                    spec_interrupted_row(row, now)
                } else {
                    spec_completed_row(row, now)
                };
                if !row.is_open() {
                    r == Err::<PomodoroSession, DbError>(DbError::ConstraintViolation)
                        && *final(store) == *old(store)
                } else if !row.type_ok() {
                    r == Err::<PomodoroSession, DbError>(DbError::DataCorruption) && *final(store)
                        == *old(store)
                } else {
                    r == Ok::<PomodoroSession, DbError>(closed.spec_decode())
                        && final(store).sessions@ == old(store).sessions@.update(i, closed)
                }
            }),
        (r matches Ok(s) ==> s.completed_at == Some(now) && s.interrupted == interrupted && s.id
            == session_id),
        final(store).projects == old(store).projects,
        final(store).tasks == old(store).tasks,
        final(store).settings == old(store).settings,
        final(store).schema_versions == old(store).schema_versions,
        final(store).next_project_id == old(store).next_project_id,
        final(store).next_task_id == old(store).next_task_id,
        final(store).next_session_id == old(store).next_session_id,
{
    let idx = match find_session_index(&store.sessions, session_id) {
        Some(i) => i,
        None => {
            return Err(DbError::NotFound);
        },
    };
    let prev = &store.sessions[idx];
    if prev.completed_at.is_some() {
        return Err(DbError::ConstraintViolation);
    }
    let decoded = match prev.decode() {
        Ok(d) => d,
        Err(e) => {
            return Err(e);
        },
    };
    let nrow = SessionRow {
        id: prev.id,
        task_id: prev.task_id,
        started_at: prev.started_at,
        completed_at: Some(now),
        duration_minutes: prev.duration_minutes,
        session_type: prev.session_type.clone(),
        interrupted,
    };
    let ghost n0 = nrow;
    store.sessions[idx] = nrow;
    proof {
        lemma_sessions_ascending_update(old(store).sessions@, idx as int, n0);
        assert forall|k: int|
            0 <= k < store.sessions@.len() implies (#[trigger] store.sessions@[k]).wf() && 1
            <= store.sessions@[k].id < store.next_session_id && (
        store.sessions@[k].task_id matches Some(tid) ==> crate::store::has_task_id(
            store.tasks@,
            tid,
        )) by {
            if k == idx as int {
                assert(store.sessions@[k] == n0);
            } else {
                assert(store.sessions@[k] == old(store).sessions@[k]);
            }
        }
    }
    Ok(
        PomodoroSession {
            id: decoded.id,
            task_id: decoded.task_id,
            started_at: decoded.started_at,
            completed_at: Some(now),
            duration_minutes: decoded.duration_minutes,
            session_type: decoded.session_type,
            interrupted,
        },
    )
}

/// The sessions whose start date lies in the inclusive range `[start_date,
/// end_date]`, decoded and ordered newest-started-first.  A matching row
/// whose stored session-type text is outside the closed enumeration makes
/// the whole listing data corruption.
pub fn get_sessions_by_date_range(store: &Store, start_date: Date, end_date: Date) -> (r: Result<
    Vec<PomodoroSession>,
    DbError,
>)
    ensures
        (r matches Ok(v) ==> {
            let rows = spec_range_rows(store.sessions@, start_date, end_date);
            &&& forall|k: int| 0 <= k < rows.len() ==> (#[trigger] rows[k]).type_ok()
            &&& v@.to_multiset() == rows.map_values(|row: SessionRow| row.spec_decode()).to_multiset()
            &&& spec_sorted_desc(v@)
        }),
        r is Err <==> exists|k: int|
            0 <= k < store.sessions@.len() && spec_in_range(
                #[trigger] store.sessions@[k],
                start_date,
                end_date,
            ) && !store.sessions@[k].type_ok(),
        (r matches Err(e) ==> e == DbError::DataCorruption),
{
    let ghost pred = |row: SessionRow| spec_in_range(row, start_date, end_date);
    let ghost dec = |row: SessionRow| row.spec_decode();
    let n = store.sessions.len();
    let mut out: Vec<PomodoroSession> = Vec::new();
    proof {
        reveal(Seq::filter);
        assert(store.sessions@.take(0) =~= Seq::<SessionRow>::empty());
        assert(store.sessions@.take(0).filter(pred).map_values(dec) =~= out@);
    }
    let mut i: usize = 0;
    while i < n
        invariant
            i <= n,
            n == store.sessions@.len(),
            pred == (|row: SessionRow| spec_in_range(row, start_date, end_date)),
            dec == (|row: SessionRow| row.spec_decode()),
            forall|k: int|
                0 <= k < i && pred(#[trigger] store.sessions@[k]) ==> store.sessions@[k].type_ok(),
            out@.to_multiset() == store.sessions@.take(i as int).filter(pred).map_values(
                dec,
            ).to_multiset(),
            spec_sorted_desc(out@),
        decreases n - i,
    {
        proof {
            lemma_filter_take_step(store.sessions@, pred, i as int);
        }
        let row = &store.sessions[i];
        let hit = start_date.le(&row.started_at.date) && row.started_at.date.le(&end_date);
        if hit {
            let s = match row.decode() {
                Ok(s) => s,
                Err(e) => {
                    return Err(e);
                },
            };
            // Find the insertion point that keeps the newest start first.
            let mut p: usize = 0;
            while p < out.len() && s.started_at.le(&out[p].started_at)
                invariant
                    p <= out@.len(),
                    forall|k: int|
                        0 <= k < p ==> s.started_at.spec_le(
                            (#[trigger] out@[k]).started_at,
                        ),
                    spec_sorted_desc(out@),
                decreases out@.len() - p,
            {
                p = p + 1;
            }
            let ghost o0 = out@;
            proof {
                if (p as int) < o0.len() {
                    Timestamp::lemma_le_total(s.started_at, o0[p as int].started_at);
                }
            }
            out.insert(p, s);
            proof {
                o0.insert_ensures(p as int, s);
                assert(out@ == o0.insert(p as int, s));
                lemma_insert_multiset(o0, p as int, s);
                let fs = store.sessions@.take(i as int).filter(pred);
                assert(store.sessions@.take(i as int + 1).filter(pred).map_values(dec) =~= fs.map_values(
                    dec,
                ).push(s));
                fs.map_values(dec).to_multiset_ensures();
                assert forall|a: int, b: int| 0 <= a < b < out@.len() implies (
                #[trigger] out@[b]).started_at.spec_le((#[trigger] out@[a]).started_at) by {
                    let pi = p as int;
                    if b < pi {
                        assert(out@[a] == o0[a] && out@[b] == o0[b]);
                    } else if a > pi {
                        assert(out@[a] == o0[a - 1] && out@[b] == o0[b - 1]);
                    } else if a == pi {
                        assert(out@[a] == s && out@[b] == o0[b - 1]);
                        if b - 1 > pi {
                            assert(o0[b - 1].started_at.spec_le(o0[pi].started_at));
                        }
                    } else if b == pi {
                        assert(out@[b] == s && out@[a] == o0[a]);
                    } else {
                        assert(out@[a] == o0[a] && out@[b] == o0[b - 1]);
                        if a < b - 1 {
                            assert(o0[b - 1].started_at.spec_le(o0[a].started_at));
                        }
                    }
                }
            }
        } else {
            proof {
                assert(store.sessions@.take(i as int + 1).filter(pred) == store.sessions@.take(
                    i as int,
                ).filter(pred));
            }
        }
        i = i + 1;
    }
    proof {
        assert(store.sessions@.take(n as int) =~= store.sessions@);
        let rows = spec_range_rows(store.sessions@, start_date, end_date);
        assert forall|k: int| 0 <= k < rows.len() implies (#[trigger] rows[k]).type_ok() by {
            lemma_filter_subset(store.sessions@, pred, k);
            let w = choose|w: int|
                0 <= w < store.sessions@.len() && #[trigger] store.sessions@[w] == rows[k];
            store.sessions@.lemma_filter_pred(pred, k);
        }
    }
    Ok(out)
}

/// The number of completed, non-interrupted work sessions started on
/// `date`; zero, not an error, when none match.  A count that no longer
/// fits its column is a storage failure.
pub fn count_completed_sessions_by_date(store: &Store, date: Date) -> (r: Result<i32, DbError>)
    ensures
        ({
            let count = spec_work_rows(store.sessions@, date).len();
            &&& count <= i32::MAX ==> (r matches Ok(v) && v == count)
            &&& count > i32::MAX ==> r == Err::<i32, DbError>(DbError::StorageFailure)
        }),
{
    let ghost pred = |row: SessionRow| spec_is_completed_work(row, date);
    let n = store.sessions.len();
    let mut count: usize = 0;
    let mut i: usize = 0;
    while i < n
        invariant
            i <= n,
            n == store.sessions@.len(),
            pred == (|row: SessionRow| spec_is_completed_work(row, date)),
            count <= i,
            count == store.sessions@.take(i as int).filter(pred).len(),
        decreases n - i,
    {
        proof {
            lemma_filter_take_step(store.sessions@, pred, i as int);
        }
        let row = &store.sessions[i];
        let hit = row.started_at.date.year == date.year && row.started_at.date.month == date.month
            && row.started_at.date.day == date.day && row.completed_at.is_some()
            && !row.interrupted && str_matches(&row.session_type, "work");
        if hit {
            count = count + 1;
        }
        i = i + 1;
    }
    proof {
        assert(store.sessions@.take(n as int) =~= store.sessions@);
    }
    if count > (i32::MAX as usize) {
        Err(DbError::StorageFailure)
    } else {
        Ok(count as i32)
    }
}

/// The total focus minutes of `date`: the summed durations of its
/// completed, non-interrupted work sessions; zero, not an error, when none
/// match.  A sum that no longer fits its column is a storage failure.
pub fn calculate_focus_minutes_by_date(store: &Store, date: Date) -> (r: Result<i32, DbError>)
    requires
        store.wf(),
    ensures
        ({
            let total = spec_sum_durations(spec_work_rows(store.sessions@, date));
            &&& 0 <= total
            &&& total <= i32::MAX ==> (r matches Ok(v) && v == total)
            &&& total > i32::MAX ==> r == Err::<i32, DbError>(DbError::StorageFailure)
        }),
{
    let ghost pred = |row: SessionRow| spec_is_completed_work(row, date);
    let n = store.sessions.len();
    let mut total: i128 = 0;
    let mut i: usize = 0;
    while i < n
        invariant
            store.wf(),
            i <= n,
            n == store.sessions@.len(),
            pred == (|row: SessionRow| spec_is_completed_work(row, date)),
            total == spec_sum_durations(store.sessions@.take(i as int).filter(pred)),
            0 <= total <= i as int * (i32::MAX as int),
        decreases n - i,
    {
        proof {
            lemma_filter_take_step(store.sessions@, pred, i as int);
        }
        let row = &store.sessions[i];
        let hit = row.started_at.date.year == date.year && row.started_at.date.month == date.month
            && row.started_at.date.day == date.day && row.completed_at.is_some()
            && !row.interrupted && str_matches(&row.session_type, "work");
        if hit {
            proof {
                let fs = store.sessions@.take(i as int).filter(pred);
                assert(fs.push(store.sessions@[i as int]).drop_last() =~= fs);
                assert(spec_sum_durations(fs.push(store.sessions@[i as int])) == spec_sum_durations(
                    fs,
                ) + store.sessions@[i as int].duration_minutes);
            }
            total = total + (row.duration_minutes as i128);
        }
        i = i + 1;
    }
    proof {
        assert(store.sessions@.take(n as int) =~= store.sessions@);
    }
    if total > (i32::MAX as i128) {
        Err(DbError::StorageFailure)
    } else {
        Ok(total as i32)
    }
}

} // verus!
